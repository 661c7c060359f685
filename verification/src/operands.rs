//! How operands are laid out in bytecode, and that the disassembly reads them
//! back as the numbers that were written.
use vstd::prelude::*;
use crate::disassembly::{disassembly_from, i32_text, i64_text, le_value, next_offset};
use crate::instruction::{spec_instruction_of, Instruction};
use crate::text::{decimal, signed_decimal};

verus! {

/// `256` to the power `n`.
pub open spec fn pow256(n: nat) -> nat
    decreases n,
{
    if n == 0 {
        1
    } else {
        256 * pow256((n - 1) as nat)
    }
}

/// The `n` bytes of `x` in little-endian order, as `to_le_bytes` lays them out.
pub open spec fn le_bytes(x: nat, n: nat) -> Seq<u8>
    decreases n,
{
    if n == 0 {
        Seq::empty()
    } else {
        seq![(x % 256) as u8] + le_bytes(x / 256, (n - 1) as nat)
    }
}

/// The two's complement bit pattern of `v` in `bits` bits, as a number.
pub open spec fn twos_complement(v: int, bits: nat) -> nat {
    if v < 0 {
        (v + pow256(bits / 8)) as nat
    } else {
        v as nat
    }
}

proof fn lemma_le_bytes_len(x: nat, n: nat)
    ensures
        le_bytes(x, n).len() == n,
    decreases n,
{
    if n > 0 {
        lemma_le_bytes_len(x / 256, (n - 1) as nat);
    }
}

proof fn lemma_le_bytes_read_back(code: Seq<u8>, p: int, x: nat, n: nat)
    requires
        0 <= p,
        p + n <= code.len(),
        code.subrange(p, p + n) == le_bytes(x, n),
        x < pow256(n),
    ensures
        le_value(code, p, n) == x,
    decreases n,
{
    if n > 0 {
        let rest = le_bytes(x / 256, (n - 1) as nat);
        assert(code[p] == code.subrange(p, p + n)[0]);
        assert(code.subrange(p + 1, p + n) =~= code.subrange(p, p + n).subrange(1, n as int));
        lemma_le_bytes_len(x / 256, (n - 1) as nat);
        assert(le_bytes(x, n) == seq![(x % 256) as u8] + rest);
        assert(le_bytes(x, n).subrange(1, n as int) =~= rest);
        let q = pow256((n - 1) as nat);
        assert(x / 256 < q) by (nonlinear_arith)
            requires
                x < 256 * q,
        ;
        lemma_le_bytes_read_back(code, p + 1, x / 256, (n - 1) as nat);
        assert(x == x % 256 + 256 * (x / 256)) by (nonlinear_arith);
    }
}

/// A `ScalarInt` operand reads back as the `i64` that was written: wherever
/// the eight bytes after `p` are the little-endian bytes of `v`, the operand's
/// text is `v` in signed decimal.
pub proof fn law_i64_operand_round_trip(code: Seq<u8>, p: int, v: i64)
    requires
        0 <= p,
        p + 8 <= code.len(),
        code.subrange(p, p + 8) == le_bytes(twos_complement(v as int, 64), 8),
    ensures
        i64_text(code, p) == signed_decimal(v as int),
{
    reveal_with_fuel(pow256, 9);
    lemma_le_bytes_read_back(code, p, twos_complement(v as int, 64), 8);
}

/// A jump target reads back as the `i32` that was written: wherever the four
/// bytes after `p` are the little-endian bytes of `v`, the operand's text is
/// `v` in signed decimal.
pub proof fn law_i32_operand_round_trip(code: Seq<u8>, p: int, v: i32)
    requires
        0 <= p,
        p + 4 <= code.len(),
        code.subrange(p, p + 4) == le_bytes(twos_complement(v as int, 32), 4),
    ensures
        i32_text(code, p) == signed_decimal(v as int),
{
    reveal_with_fuel(pow256, 5);
    lemma_le_bytes_read_back(code, p, twos_complement(v as int, 32), 4);
}

/// The disassembly of a `ScalarInt` (opcode 5) followed by the eight
/// little-endian bytes of any `v` is the one line `0`, tab, `ScalarInt`, tab,
/// `value=`, `v` in signed decimal, newline.
pub proof fn law_scalar_int_line(v: i64)
    ensures
        ({
            let code = seq![5u8] + le_bytes(twos_complement(v as int, 64), 8);
            disassembly_from(code, 0, Seq::empty(), 0) == decimal(0) + "\t"@ + "ScalarInt"@ + "\t"@
                + "value"@ + "="@ + signed_decimal(v as int) + "\n"@
        }),
{
    let bytes = le_bytes(twos_complement(v as int, 64), 8);
    let code = seq![5u8] + bytes;
    reveal_with_fuel(le_bytes, 9);
    assert(bytes.len() == 8);
    assert(code.subrange(1, 9) =~= bytes);
    law_i64_operand_round_trip(code, 1, v);
    reveal(spec_instruction_of);
    assert(spec_instruction_of(code[0]) == Some(Instruction::ScalarInt));
    assert(next_offset(code, 0, Instruction::ScalarInt.spec_span()) == 9);
    assert(disassembly_from(code, 9, Seq::empty(), 0) == Seq::<char>::empty());
    assert(disassembly_from(code, 0, Seq::empty(), 0) =~= decimal(0) + "\t"@ + "ScalarInt"@ + "\t"@
        + "value"@ + "="@ + signed_decimal(v as int) + "\n"@);
}

} // verus!
