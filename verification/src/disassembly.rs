//! Disassembly of bytecode into text: one line per instruction, with its offset,
//! its name and its operands.
use vstd::prelude::*;
use crate::cards::strings_view;
use crate::compiled_program::CaoCompiledProgram;
use crate::instruction::{instruction_of, spec_instruction_of, Instruction};
use crate::text::{decimal, push_decimal, push_signed_decimal, signed_decimal};

verus! {

/// The little-endian number held in the `n` bytes of `code` from `p`.
pub open spec fn le_value(code: Seq<u8>, p: int, n: nat) -> nat
    decreases n,
{
    if n == 0 {
        0
    } else {
        code[p] as nat + 256 * le_value(code, p + 1, (n - 1) as nat)
    }
}

/// A 32-bit pattern read as a two's complement number.
pub open spec fn as_i32(v: nat) -> int {
    if v < 0x8000_0000 {
        v as int
    } else {
        v - 0x1_0000_0000
    }
}

/// A 64-bit pattern read as a two's complement number.
pub open spec fn as_i64(v: nat) -> int {
    if v < 0x8000_0000_0000_0000 {
        v as int
    } else {
        v - 0x1_0000_0000_0000_0000
    }
}

/// One operand: a tab, its name, `=`, its value.
pub open spec fn operand(name: Seq<char>, value: Seq<char>) -> Seq<char> {
    "\t"@ + name + "="@ + value
}

pub open spec fn u8_text(code: Seq<u8>, p: int) -> Seq<char> {
    decimal(code[p] as nat)
}

pub open spec fn u32_text(code: Seq<u8>, p: int) -> Seq<char> {
    decimal(le_value(code, p, 4))
}

pub open spec fn i32_text(code: Seq<u8>, p: int) -> Seq<char> {
    signed_decimal(as_i32(le_value(code, p, 4)))
}

pub open spec fn i64_text(code: Seq<u8>, p: int) -> Seq<char> {
    signed_decimal(as_i64(le_value(code, p, 8)))
}

pub open spec fn handle_text(code: Seq<u8>, p: int) -> Seq<char> {
    "Handle("@ + u32_text(code, p) + ")"@
}

pub open spec fn variable_id_text(code: Seq<u8>, p: int) -> Seq<char> {
    "VariableId("@ + u32_text(code, p) + ")"@
}

/// The operands of the instruction at `i`, read from the byte after its opcode.
/// The operands of a function pointer or a closure are both read from that byte.
pub open spec fn operands_text(code: Seq<u8>, i: int, ins: Instruction, float: Seq<char>) -> Seq<
    char,
> {
    let p = i + 1;
    match ins {
        Instruction::GotoIfTrue | Instruction::GotoIfFalse | Instruction::Goto => operand(
            "pos"@,
            i32_text(code, p),
        ),
        Instruction::CallNative
        | Instruction::NativeFunctionPointer
        | Instruction::StringLiteral => operand("handle"@, handle_text(code, p)),
        Instruction::BeginForEach | Instruction::ForEach => operand("loop_var"@, u32_text(code, p))
            + operand("loop_item"@, u32_text(code, p + 4)) + operand(
            "i_index"@,
            u32_text(code, p + 8),
        ) + operand("k_index"@, u32_text(code, p + 12)) + operand(
            "v_index"@,
            u32_text(code, p + 16),
        ),
        Instruction::FunctionPointer | Instruction::Closure => operand(
            "handle"@,
            handle_text(code, p),
        ) + operand("arity"@, u32_text(code, p)),
        Instruction::SetUpvalue | Instruction::ReadUpvalue => operand("index"@, u32_text(code, p)),
        Instruction::RegisterUpvalue => operand("index"@, u8_text(code, p)) + operand(
            "is_local"@,
            u8_text(code, p + 1),
        ),
        Instruction::ScalarInt => operand("value"@, i64_text(code, p)),
        Instruction::ScalarFloat => operand("value"@, float),
        Instruction::SetGlobalVar | Instruction::ReadGlobalVar => operand(
            "id"@,
            variable_id_text(code, p),
        ),
        Instruction::SetLocalVar | Instruction::ReadLocalVar => operand(
            "index"@,
            variable_id_text(code, p),
        ),
        _ => Seq::empty(),
    }
}

/// The line of the instruction at offset `i`.
pub open spec fn line_text(code: Seq<u8>, i: int, ins: Instruction, float: Seq<char>) -> Seq<char> {
    decimal(i as nat) + "\t"@ + ins.spec_name() + operands_text(code, i, ins, float) + "\n"@
}

/// The offset after the instruction at `i` that takes `span` bytes, or the end
/// of the bytecode if that comes first.
pub open spec fn next_offset(code: Seq<u8>, i: int, span: nat) -> int {
    if i + span < code.len() {
        i + span
    } else {
        code.len() as int
    }
}

/// From offset `i` on, each instruction has a known opcode and the operands
/// that the disassembly reads lie within the bytecode.
pub open spec fn well_formed_from(code: Seq<u8>, i: int) -> bool
    decreases code.len() - i,
{
    if i < 0 || i >= code.len() {
        true
    } else {
        match spec_instruction_of(code[i]) {
            Some(ins) => i + 1 + ins.spec_operand_reach() <= code.len() && well_formed_from(
                code,
                next_offset(code, i, ins.spec_span()),
            ),
            None => false,
        }
    }
}

/// The operands of the `ScalarFloat` instructions from offset `i` on, as bit patterns.
pub open spec fn float_operands_from(code: Seq<u8>, i: int) -> Seq<u64>
    decreases code.len() - i,
{
    if i < 0 || i >= code.len() {
        Seq::empty()
    } else {
        match spec_instruction_of(code[i]) {
            Some(ins) => if matches!(ins, Instruction::ScalarFloat) {
                seq![le_value(code, i + 1, 8) as u64] + float_operands_from(
                    code,
                    next_offset(code, i, ins.spec_span()),
                )
            } else {
                float_operands_from(code, next_offset(code, i, ins.spec_span()))
            },
            None => Seq::empty(),
        }
    }
}

/// The disassembly from offset `i` on, where the `k`-th float operand from
/// there on is written as `floats[k]`.
pub open spec fn disassembly_from(code: Seq<u8>, i: int, floats: Seq<Seq<char>>, k: int) -> Seq<
    char,
>
    decreases code.len() - i,
{
    if i < 0 || i >= code.len() {
        Seq::empty()
    } else {
        match spec_instruction_of(code[i]) {
            Some(ins) => if matches!(ins, Instruction::ScalarFloat) {
                line_text(code, i, ins, floats[k]) + disassembly_from(
                    code,
                    next_offset(code, i, ins.spec_span()),
                    floats,
                    k + 1,
                )
            } else {
                line_text(code, i, ins, Seq::empty()) + disassembly_from(
                    code,
                    next_offset(code, i, ins.spec_span()),
                    floats,
                    k,
                )
            },
            None => Seq::empty(),
        }
    }
}

fn read_u32(code: &Vec<u8>, p: usize) -> (v: u32)
    requires
        p + 4 <= code@.len(),
    ensures
        v == le_value(code@, p as int, 4),
{
    proof {
        reveal_with_fuel(le_value, 5);
    }
    let len = code.len();
    assert(p + 4 <= len);
    (code[p] as u32) + (code[p + 1] as u32) * 256 + (code[p + 2] as u32) * 65536 + (code[p
        + 3] as u32) * 16777216
}

fn read_u64(code: &Vec<u8>, p: usize) -> (v: u64)
    requires
        p + 8 <= code@.len(),
    ensures
        v == le_value(code@, p as int, 8),
{
    proof {
        reveal_with_fuel(le_value, 9);
    }
    let len = code.len();
    assert(p + 8 <= len);
    (code[p] as u64) + (code[p + 1] as u64) * 0x100 + (code[p + 2] as u64) * 0x1_0000 + (code[p
        + 3] as u64) * 0x100_0000 + (code[p + 4] as u64) * 0x1_0000_0000 + (code[p + 5] as u64)
        * 0x100_0000_0000 + (code[p + 6] as u64) * 0x1_0000_0000_0000 + (code[p + 7] as u64)
        * 0x100_0000_0000_0000
}

fn to_i32(v: u32) -> (r: i32)
    ensures
        r == as_i32(v as nat),
{
    if v < 0x8000_0000 {
        v as i32
    } else {
        ((v as i64) - 0x1_0000_0000) as i32
    }
}

fn to_i64(v: u64) -> (r: i64)
    ensures
        r == as_i64(v as nat),
{
    if v < 0x8000_0000_0000_0000 {
        v as i64
    } else {
        -((0xffff_ffff_ffff_ffff - v) as i64) - 1
    }
}

fn push_operand_name(out: &mut String, name: &str)
    ensures
        final(out)@ == old(out)@ + "\t"@ + name@ + "="@,
{
    out.append("\t");
    out.append(name);
    out.append("=");
    assert(final(out)@ =~= old(out)@ + "\t"@ + name@ + "="@);
}

fn push_u32(out: &mut String, name: &str, code: &Vec<u8>, p: usize)
    requires
        p + 4 <= code@.len(),
    ensures
        final(out)@ == old(out)@ + operand(name@, u32_text(code@, p as int)),
{
    push_operand_name(out, name);
    push_decimal(out, read_u32(code, p) as u64);
    assert(final(out)@ =~= old(out)@ + operand(name@, u32_text(code@, p as int)));
}

fn push_u8(out: &mut String, name: &str, code: &Vec<u8>, p: usize)
    requires
        p < code@.len(),
    ensures
        final(out)@ == old(out)@ + operand(name@, u8_text(code@, p as int)),
{
    push_operand_name(out, name);
    push_decimal(out, code[p] as u64);
    assert(final(out)@ =~= old(out)@ + operand(name@, u8_text(code@, p as int)));
}

fn push_i32(out: &mut String, name: &str, code: &Vec<u8>, p: usize)
    requires
        p + 4 <= code@.len(),
    ensures
        final(out)@ == old(out)@ + operand(name@, i32_text(code@, p as int)),
{
    push_operand_name(out, name);
    push_signed_decimal(out, to_i32(read_u32(code, p)) as i64);
    assert(final(out)@ =~= old(out)@ + operand(name@, i32_text(code@, p as int)));
}

fn push_i64(out: &mut String, name: &str, code: &Vec<u8>, p: usize)
    requires
        p + 8 <= code@.len(),
    ensures
        final(out)@ == old(out)@ + operand(name@, i64_text(code@, p as int)),
{
    push_operand_name(out, name);
    push_signed_decimal(out, to_i64(read_u64(code, p)));
    assert(final(out)@ =~= old(out)@ + operand(name@, i64_text(code@, p as int)));
}

/// An operand that prints as `wrapper(number)`.
fn push_wrapped_u32(out: &mut String, name: &str, wrapper: &str, code: &Vec<u8>, p: usize)
    requires
        p + 4 <= code@.len(),
    ensures
        final(out)@ == old(out)@ + operand(
            name@,
            wrapper@ + "("@ + u32_text(code@, p as int) + ")"@,
        ),
{
    push_operand_name(out, name);
    out.append(wrapper);
    out.append("(");
    push_decimal(out, read_u32(code, p) as u64);
    out.append(")");
    assert(final(out)@ =~= old(out)@ + operand(
        name@,
        wrapper@ + "("@ + u32_text(code@, p as int) + ")"@,
    ));
}

fn push_handle(out: &mut String, name: &str, code: &Vec<u8>, p: usize)
    requires
        p + 4 <= code@.len(),
    ensures
        final(out)@ == old(out)@ + operand(name@, handle_text(code@, p as int)),
{
    proof {
        reveal_strlit("Handle");
        reveal_strlit("(");
        reveal_strlit("Handle(");
        assert("Handle("@ =~= "Handle"@ + "("@);
    }
    push_wrapped_u32(out, name, "Handle", code, p);
}

fn push_variable_id(out: &mut String, name: &str, code: &Vec<u8>, p: usize)
    requires
        p + 4 <= code@.len(),
    ensures
        final(out)@ == old(out)@ + operand(name@, variable_id_text(code@, p as int)),
{
    proof {
        reveal_strlit("VariableId");
        reveal_strlit("(");
        reveal_strlit("VariableId(");
        assert("VariableId("@ =~= "VariableId"@ + "("@);
    }
    push_wrapped_u32(out, name, "VariableId", code, p);
}

/// Appends the operands of the instruction `ins` at offset `i`.
fn push_operands(out: &mut String, code: &Vec<u8>, i: usize, ins: Instruction, float: &str)
    requires
        i + 1 + ins.spec_operand_reach() <= code@.len(),
    ensures
        final(out)@ == old(out)@ + operands_text(code@, i as int, ins, float@),
{
    let len = code.len();
    assert(i + 1 + ins.spec_operand_reach() <= len);
    let p = i + 1;
    match ins {
        Instruction::GotoIfTrue | Instruction::GotoIfFalse | Instruction::Goto => {
            push_i32(out, "pos", code, p);
        },
        Instruction::CallNative
        | Instruction::NativeFunctionPointer
        | Instruction::StringLiteral => {
            push_handle(out, "handle", code, p);
        },
        Instruction::BeginForEach | Instruction::ForEach => {
            push_u32(out, "loop_var", code, p);
            push_u32(out, "loop_item", code, p + 4);
            push_u32(out, "i_index", code, p + 8);
            push_u32(out, "k_index", code, p + 12);
            push_u32(out, "v_index", code, p + 16);
            assert(final(out)@ =~= old(out)@ + operands_text(code@, i as int, ins, float@));
        },
        Instruction::FunctionPointer | Instruction::Closure => {
            push_handle(out, "handle", code, p);
            push_u32(out, "arity", code, p);
            assert(final(out)@ =~= old(out)@ + operands_text(code@, i as int, ins, float@));
        },
        Instruction::SetUpvalue | Instruction::ReadUpvalue => {
            push_u32(out, "index", code, p);
        },
        Instruction::RegisterUpvalue => {
            push_u8(out, "index", code, p);
            push_u8(out, "is_local", code, p + 1);
            assert(final(out)@ =~= old(out)@ + operands_text(code@, i as int, ins, float@));
        },
        Instruction::ScalarInt => {
            push_i64(out, "value", code, p);
        },
        Instruction::ScalarFloat => {
            push_operand_name(out, "value");
            out.append(float);
            assert(final(out)@ =~= old(out)@ + operands_text(code@, i as int, ins, float@));
        },
        Instruction::SetGlobalVar | Instruction::ReadGlobalVar => {
            push_variable_id(out, "id", code, p);
        },
        Instruction::SetLocalVar | Instruction::ReadLocalVar => {
            push_variable_id(out, "index", code, p);
        },
        _ => {
            assert(final(out)@ =~= old(out)@ + operands_text(code@, i as int, ins, float@));
        },
    }
}

/// Appends the line of the instruction `ins` at offset `i`.
fn push_line(out: &mut String, code: &Vec<u8>, i: usize, ins: Instruction, float: &str)
    requires
        i + 1 + ins.spec_operand_reach() <= code@.len(),
    ensures
        final(out)@ == old(out)@ + line_text(code@, i as int, ins, float@),
{
    proof {
        reveal_strlit("\t");
        reveal_strlit("\n");
    }
    push_decimal(out, i as u64);
    out.append("\t");
    out.append(ins.name());
    push_operands(out, code, i, ins, float);
    out.append("\n");
    assert(final(out)@ =~= old(out)@ + line_text(code@, i as int, ins, float@));
}

impl CaoCompiledProgram {
    /// The bit patterns of the `f64` operands of the `ScalarFloat` instructions,
    /// in order.
    pub fn float_operands(&self) -> (r: Vec<u64>)
        requires
            well_formed_from(self.bytecode@, 0),
        ensures
            r@ == float_operands_from(self.bytecode@, 0),
    {
        let code = &self.bytecode;
        let len = code.len();
        let mut out: Vec<u64> = Vec::new();
        let mut i: usize = 0;
        while i < len
            invariant
                len == code@.len(),
                *code == self.bytecode,
                i <= len,
                well_formed_from(code@, i as int),
                float_operands_from(code@, 0) == out@ + float_operands_from(code@, i as int),
            decreases len - i,
        {
            let ins = match instruction_of(code[i]) {
                Some(ins) => ins,
                None => {
                    return out;
                },
            };
            let ghost before = out@;
            if matches!(ins, Instruction::ScalarFloat) {
                let bits = read_u64(code, i + 1);
                out.push(bits);
                assert(out@ =~= before + seq![bits]);
            }
            let span = ins.span();
            if span >= len - i {
                i = len;
            } else {
                i = i + span;
            }
            assert(float_operands_from(code@, 0) =~= out@ + float_operands_from(code@, i as int));
        }
        assert(out@ =~= out@ + float_operands_from(code@, i as int));
        out
    }

    /// The disassembly of the bytecode: for each instruction a line with its
    /// offset, a tab, its name and its operands, each as a tab, a name, `=` and
    /// the value. Float operands are written as the texts `float_texts`, in order.
    pub fn disassemble_string(&self, float_texts: &Vec<String>) -> (s: String)
        requires
            well_formed_from(self.bytecode@, 0),
            float_texts@.len() == float_operands_from(self.bytecode@, 0).len(),
        ensures
            s@ == disassembly_from(self.bytecode@, 0, strings_view(float_texts@), 0),
    {
        let code = &self.bytecode;
        let ghost floats = strings_view(float_texts@);
        let len = code.len();
        let nf = float_texts.len();
        let mut out = String::new();
        let mut i: usize = 0;
        let mut k: usize = 0;
        while i < len
            invariant
                len == code@.len(),
                nf == float_texts@.len(),
                *code == self.bytecode,
                i <= len,
                floats == strings_view(float_texts@),
                well_formed_from(code@, i as int),
                k + float_operands_from(code@, i as int).len() == float_texts@.len(),
                disassembly_from(code@, 0, floats, 0) == out@ + disassembly_from(
                    code@,
                    i as int,
                    floats,
                    k as int,
                ),
            decreases len - i,
        {
            let ins = match instruction_of(code[i]) {
                Some(ins) => ins,
                None => {
                    return out;
                },
            };
            if matches!(ins, Instruction::ScalarFloat) {
                assert(float_operands_from(code@, i as int).len() > 0);
                push_line(&mut out, code, i, ins, float_texts[k].as_str());
                k = k + 1;
            } else {
                proof {
                    reveal_strlit("");
                }
                push_line(&mut out, code, i, ins, "");
            }
            let span = ins.span();
            if span >= len - i {
                i = len;
            } else {
                i = i + span;
            }
            assert(disassembly_from(code@, 0, floats, 0) =~= out@ + disassembly_from(
                code@,
                i as int,
                floats,
                k as int,
            ));
        }
        assert(out@ =~= out@ + disassembly_from(code@, i as int, floats, k as int));
        out
    }
}

} // verus!

verus! {

impl CaoCompiledProgram {
    /// Whether every instruction of the bytecode has a known opcode and its
    /// operands within the bytecode, which `disassemble_string` needs.
    pub fn is_well_formed(&self) -> (r: bool)
        ensures
            r == well_formed_from(self.bytecode@, 0),
    {
        let code = &self.bytecode;
        let len = code.len();
        let mut i: usize = 0;
        while i < len
            invariant
                len == code@.len(),
                *code == self.bytecode,
                i <= len,
                well_formed_from(code@, 0) == well_formed_from(code@, i as int),
            decreases len - i,
        {
            let ins = match instruction_of(code[i]) {
                Some(ins) => ins,
                None => {
                    return false;
                },
            };
            if ins.operand_reach() >= len - i {
                return false;
            }
            let span = ins.span();
            if span >= len - i {
                i = len;
            } else {
                i = i + span;
            }
        }
        true
    }
}

} // verus!

