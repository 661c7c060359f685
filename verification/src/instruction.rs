//! The bytecode instruction set: opcodes, names and operand layouts.
use vstd::prelude::*;

verus! {

/// A bytecode instruction. Its opcode is its position in this list.
#[derive(Clone, Copy, Debug, PartialEq, Eq)]
pub enum Instruction {
    Add,
    Sub,
    Mul,
    Div,
    CallNative,
    ScalarInt,
    ScalarFloat,
    ScalarNil,
    StringLiteral,
    CopyLast,
    Exit,
    CallFunction,
    Equals,
    NotEquals,
    Less,
    LessOrEq,
    Pop,
    SetGlobalVar,
    ReadGlobalVar,
    SetLocalVar,
    ReadLocalVar,
    ClearStack,
    Return,
    SwapLast,
    And,
    Or,
    Xor,
    Not,
    GotoIfTrue,
    GotoIfFalse,
    Goto,
    InitTable,
    GetProperty,
    SetProperty,
    Len,
    BeginForEach,
    ForEach,
    FunctionPointer,
    NativeFunctionPointer,
    NthRow,
    AppendTable,
    PopTable,
    Closure,
    SetUpvalue,
    ReadUpvalue,
    RegisterUpvalue,
    CloseUpvalue,
}

/// The instruction that opcode `b` stands for.
#[verifier::opaque]
pub open spec fn spec_instruction_of(b: u8) -> Option<Instruction> {
    if b == 0 {
        Some(Instruction::Add)
    } else if b == 1 {
        Some(Instruction::Sub)
    } else if b == 2 {
        Some(Instruction::Mul)
    } else if b == 3 {
        Some(Instruction::Div)
    } else if b == 4 {
        Some(Instruction::CallNative)
    } else if b == 5 {
        Some(Instruction::ScalarInt)
    } else if b == 6 {
        Some(Instruction::ScalarFloat)
    } else if b == 7 {
        Some(Instruction::ScalarNil)
    } else if b == 8 {
        Some(Instruction::StringLiteral)
    } else if b == 9 {
        Some(Instruction::CopyLast)
    } else if b == 10 {
        Some(Instruction::Exit)
    } else if b == 11 {
        Some(Instruction::CallFunction)
    } else if b == 12 {
        Some(Instruction::Equals)
    } else if b == 13 {
        Some(Instruction::NotEquals)
    } else if b == 14 {
        Some(Instruction::Less)
    } else if b == 15 {
        Some(Instruction::LessOrEq)
    } else if b == 16 {
        Some(Instruction::Pop)
    } else if b == 17 {
        Some(Instruction::SetGlobalVar)
    } else if b == 18 {
        Some(Instruction::ReadGlobalVar)
    } else if b == 19 {
        Some(Instruction::SetLocalVar)
    } else if b == 20 {
        Some(Instruction::ReadLocalVar)
    } else if b == 21 {
        Some(Instruction::ClearStack)
    } else if b == 22 {
        Some(Instruction::Return)
    } else if b == 23 {
        Some(Instruction::SwapLast)
    } else if b == 24 {
        Some(Instruction::And)
    } else if b == 25 {
        Some(Instruction::Or)
    } else if b == 26 {
        Some(Instruction::Xor)
    } else if b == 27 {
        Some(Instruction::Not)
    } else if b == 28 {
        Some(Instruction::GotoIfTrue)
    } else if b == 29 {
        Some(Instruction::GotoIfFalse)
    } else if b == 30 {
        Some(Instruction::Goto)
    } else if b == 31 {
        Some(Instruction::InitTable)
    } else if b == 32 {
        Some(Instruction::GetProperty)
    } else if b == 33 {
        Some(Instruction::SetProperty)
    } else if b == 34 {
        Some(Instruction::Len)
    } else if b == 35 {
        Some(Instruction::BeginForEach)
    } else if b == 36 {
        Some(Instruction::ForEach)
    } else if b == 37 {
        Some(Instruction::FunctionPointer)
    } else if b == 38 {
        Some(Instruction::NativeFunctionPointer)
    } else if b == 39 {
        Some(Instruction::NthRow)
    } else if b == 40 {
        Some(Instruction::AppendTable)
    } else if b == 41 {
        Some(Instruction::PopTable)
    } else if b == 42 {
        Some(Instruction::Closure)
    } else if b == 43 {
        Some(Instruction::SetUpvalue)
    } else if b == 44 {
        Some(Instruction::ReadUpvalue)
    } else if b == 45 {
        Some(Instruction::RegisterUpvalue)
    } else if b == 46 {
        Some(Instruction::CloseUpvalue)
    } else {
        None
    }
}

/// Decodes an opcode.
pub fn instruction_of(b: u8) -> (r: Option<Instruction>)
    ensures
        r == spec_instruction_of(b),
{
    reveal(spec_instruction_of);
    if b == 0 {
        Some(Instruction::Add)
    } else if b == 1 {
        Some(Instruction::Sub)
    } else if b == 2 {
        Some(Instruction::Mul)
    } else if b == 3 {
        Some(Instruction::Div)
    } else if b == 4 {
        Some(Instruction::CallNative)
    } else if b == 5 {
        Some(Instruction::ScalarInt)
    } else if b == 6 {
        Some(Instruction::ScalarFloat)
    } else if b == 7 {
        Some(Instruction::ScalarNil)
    } else if b == 8 {
        Some(Instruction::StringLiteral)
    } else if b == 9 {
        Some(Instruction::CopyLast)
    } else if b == 10 {
        Some(Instruction::Exit)
    } else if b == 11 {
        Some(Instruction::CallFunction)
    } else if b == 12 {
        Some(Instruction::Equals)
    } else if b == 13 {
        Some(Instruction::NotEquals)
    } else if b == 14 {
        Some(Instruction::Less)
    } else if b == 15 {
        Some(Instruction::LessOrEq)
    } else if b == 16 {
        Some(Instruction::Pop)
    } else if b == 17 {
        Some(Instruction::SetGlobalVar)
    } else if b == 18 {
        Some(Instruction::ReadGlobalVar)
    } else if b == 19 {
        Some(Instruction::SetLocalVar)
    } else if b == 20 {
        Some(Instruction::ReadLocalVar)
    } else if b == 21 {
        Some(Instruction::ClearStack)
    } else if b == 22 {
        Some(Instruction::Return)
    } else if b == 23 {
        Some(Instruction::SwapLast)
    } else if b == 24 {
        Some(Instruction::And)
    } else if b == 25 {
        Some(Instruction::Or)
    } else if b == 26 {
        Some(Instruction::Xor)
    } else if b == 27 {
        Some(Instruction::Not)
    } else if b == 28 {
        Some(Instruction::GotoIfTrue)
    } else if b == 29 {
        Some(Instruction::GotoIfFalse)
    } else if b == 30 {
        Some(Instruction::Goto)
    } else if b == 31 {
        Some(Instruction::InitTable)
    } else if b == 32 {
        Some(Instruction::GetProperty)
    } else if b == 33 {
        Some(Instruction::SetProperty)
    } else if b == 34 {
        Some(Instruction::Len)
    } else if b == 35 {
        Some(Instruction::BeginForEach)
    } else if b == 36 {
        Some(Instruction::ForEach)
    } else if b == 37 {
        Some(Instruction::FunctionPointer)
    } else if b == 38 {
        Some(Instruction::NativeFunctionPointer)
    } else if b == 39 {
        Some(Instruction::NthRow)
    } else if b == 40 {
        Some(Instruction::AppendTable)
    } else if b == 41 {
        Some(Instruction::PopTable)
    } else if b == 42 {
        Some(Instruction::Closure)
    } else if b == 43 {
        Some(Instruction::SetUpvalue)
    } else if b == 44 {
        Some(Instruction::ReadUpvalue)
    } else if b == 45 {
        Some(Instruction::RegisterUpvalue)
    } else if b == 46 {
        Some(Instruction::CloseUpvalue)
    } else {
        None
    }
}

impl Instruction {
    /// The name of the instruction.
    pub open spec fn spec_name(self) -> Seq<char> {
        match self {
            Instruction::Add => "Add"@,
            Instruction::Sub => "Sub"@,
            Instruction::Mul => "Mul"@,
            Instruction::Div => "Div"@,
            Instruction::CallNative => "CallNative"@,
            Instruction::ScalarInt => "ScalarInt"@,
            Instruction::ScalarFloat => "ScalarFloat"@,
            Instruction::ScalarNil => "ScalarNil"@,
            Instruction::StringLiteral => "StringLiteral"@,
            Instruction::CopyLast => "CopyLast"@,
            Instruction::Exit => "Exit"@,
            Instruction::CallFunction => "CallFunction"@,
            Instruction::Equals => "Equals"@,
            Instruction::NotEquals => "NotEquals"@,
            Instruction::Less => "Less"@,
            Instruction::LessOrEq => "LessOrEq"@,
            Instruction::Pop => "Pop"@,
            Instruction::SetGlobalVar => "SetGlobalVar"@,
            Instruction::ReadGlobalVar => "ReadGlobalVar"@,
            Instruction::SetLocalVar => "SetLocalVar"@,
            Instruction::ReadLocalVar => "ReadLocalVar"@,
            Instruction::ClearStack => "ClearStack"@,
            Instruction::Return => "Return"@,
            Instruction::SwapLast => "SwapLast"@,
            Instruction::And => "And"@,
            Instruction::Or => "Or"@,
            Instruction::Xor => "Xor"@,
            Instruction::Not => "Not"@,
            Instruction::GotoIfTrue => "GotoIfTrue"@,
            Instruction::GotoIfFalse => "GotoIfFalse"@,
            Instruction::Goto => "Goto"@,
            Instruction::InitTable => "InitTable"@,
            Instruction::GetProperty => "GetProperty"@,
            Instruction::SetProperty => "SetProperty"@,
            Instruction::Len => "Len"@,
            Instruction::BeginForEach => "BeginForEach"@,
            Instruction::ForEach => "ForEach"@,
            Instruction::FunctionPointer => "FunctionPointer"@,
            Instruction::NativeFunctionPointer => "NativeFunctionPointer"@,
            Instruction::NthRow => "NthRow"@,
            Instruction::AppendTable => "AppendTable"@,
            Instruction::PopTable => "PopTable"@,
            Instruction::Closure => "Closure"@,
            Instruction::SetUpvalue => "SetUpvalue"@,
            Instruction::ReadUpvalue => "ReadUpvalue"@,
            Instruction::RegisterUpvalue => "RegisterUpvalue"@,
            Instruction::CloseUpvalue => "CloseUpvalue"@,
        }
    }

    /// Number of bytes the instruction takes in the bytecode: the opcode and its
    /// operands.
    pub open spec fn spec_span(self) -> nat {
        1 + self.spec_operand_bytes()
    }

    /// Number of operand bytes that follow the opcode in the bytecode.
    pub open spec fn spec_operand_bytes(self) -> nat {
        match self {
            Instruction::CallNative => 4,
            Instruction::ScalarInt => 8,
            Instruction::ScalarFloat => 8,
            Instruction::StringLiteral => 4,
            Instruction::SetGlobalVar => 4,
            Instruction::ReadGlobalVar => 4,
            Instruction::SetLocalVar => 4,
            Instruction::ReadLocalVar => 4,
            Instruction::GotoIfTrue => 4,
            Instruction::GotoIfFalse => 4,
            Instruction::Goto => 4,
            Instruction::BeginForEach => 20,
            Instruction::ForEach => 20,
            Instruction::FunctionPointer => 8,
            Instruction::NativeFunctionPointer => 4,
            Instruction::Closure => 8,
            Instruction::SetUpvalue => 4,
            Instruction::ReadUpvalue => 4,
            Instruction::RegisterUpvalue => 2,
            _ => 0,
        }
    }

    /// Number of operand bytes after the opcode that the disassembly reads.
    pub open spec fn spec_operand_reach(self) -> nat {
        match self {
            Instruction::CallNative => 4,
            Instruction::ScalarInt => 8,
            Instruction::ScalarFloat => 8,
            Instruction::StringLiteral => 4,
            Instruction::SetGlobalVar => 4,
            Instruction::ReadGlobalVar => 4,
            Instruction::SetLocalVar => 4,
            Instruction::ReadLocalVar => 4,
            Instruction::GotoIfTrue => 4,
            Instruction::GotoIfFalse => 4,
            Instruction::Goto => 4,
            Instruction::BeginForEach => 20,
            Instruction::ForEach => 20,
            Instruction::FunctionPointer => 4,
            Instruction::NativeFunctionPointer => 4,
            Instruction::Closure => 4,
            Instruction::SetUpvalue => 4,
            Instruction::ReadUpvalue => 4,
            Instruction::RegisterUpvalue => 2,
            _ => 0,
        }
    }

    pub fn name(&self) -> (s: &'static str)
        ensures
            s@ == self.spec_name(),
    {
        proof {
            reveal_strlit("Add");
            reveal_strlit("Sub");
            reveal_strlit("Mul");
            reveal_strlit("Div");
            reveal_strlit("CallNative");
            reveal_strlit("ScalarInt");
            reveal_strlit("ScalarFloat");
            reveal_strlit("ScalarNil");
            reveal_strlit("StringLiteral");
            reveal_strlit("CopyLast");
            reveal_strlit("Exit");
            reveal_strlit("CallFunction");
            reveal_strlit("Equals");
            reveal_strlit("NotEquals");
            reveal_strlit("Less");
            reveal_strlit("LessOrEq");
            reveal_strlit("Pop");
            reveal_strlit("SetGlobalVar");
            reveal_strlit("ReadGlobalVar");
            reveal_strlit("SetLocalVar");
            reveal_strlit("ReadLocalVar");
            reveal_strlit("ClearStack");
            reveal_strlit("Return");
            reveal_strlit("SwapLast");
            reveal_strlit("And");
            reveal_strlit("Or");
            reveal_strlit("Xor");
            reveal_strlit("Not");
            reveal_strlit("GotoIfTrue");
            reveal_strlit("GotoIfFalse");
            reveal_strlit("Goto");
            reveal_strlit("InitTable");
            reveal_strlit("GetProperty");
            reveal_strlit("SetProperty");
            reveal_strlit("Len");
            reveal_strlit("BeginForEach");
            reveal_strlit("ForEach");
            reveal_strlit("FunctionPointer");
            reveal_strlit("NativeFunctionPointer");
            reveal_strlit("NthRow");
            reveal_strlit("AppendTable");
            reveal_strlit("PopTable");
            reveal_strlit("Closure");
            reveal_strlit("SetUpvalue");
            reveal_strlit("ReadUpvalue");
            reveal_strlit("RegisterUpvalue");
            reveal_strlit("CloseUpvalue");
        }
        match self {
            Instruction::Add => "Add",
            Instruction::Sub => "Sub",
            Instruction::Mul => "Mul",
            Instruction::Div => "Div",
            Instruction::CallNative => "CallNative",
            Instruction::ScalarInt => "ScalarInt",
            Instruction::ScalarFloat => "ScalarFloat",
            Instruction::ScalarNil => "ScalarNil",
            Instruction::StringLiteral => "StringLiteral",
            Instruction::CopyLast => "CopyLast",
            Instruction::Exit => "Exit",
            Instruction::CallFunction => "CallFunction",
            Instruction::Equals => "Equals",
            Instruction::NotEquals => "NotEquals",
            Instruction::Less => "Less",
            Instruction::LessOrEq => "LessOrEq",
            Instruction::Pop => "Pop",
            Instruction::SetGlobalVar => "SetGlobalVar",
            Instruction::ReadGlobalVar => "ReadGlobalVar",
            Instruction::SetLocalVar => "SetLocalVar",
            Instruction::ReadLocalVar => "ReadLocalVar",
            Instruction::ClearStack => "ClearStack",
            Instruction::Return => "Return",
            Instruction::SwapLast => "SwapLast",
            Instruction::And => "And",
            Instruction::Or => "Or",
            Instruction::Xor => "Xor",
            Instruction::Not => "Not",
            Instruction::GotoIfTrue => "GotoIfTrue",
            Instruction::GotoIfFalse => "GotoIfFalse",
            Instruction::Goto => "Goto",
            Instruction::InitTable => "InitTable",
            Instruction::GetProperty => "GetProperty",
            Instruction::SetProperty => "SetProperty",
            Instruction::Len => "Len",
            Instruction::BeginForEach => "BeginForEach",
            Instruction::ForEach => "ForEach",
            Instruction::FunctionPointer => "FunctionPointer",
            Instruction::NativeFunctionPointer => "NativeFunctionPointer",
            Instruction::NthRow => "NthRow",
            Instruction::AppendTable => "AppendTable",
            Instruction::PopTable => "PopTable",
            Instruction::Closure => "Closure",
            Instruction::SetUpvalue => "SetUpvalue",
            Instruction::ReadUpvalue => "ReadUpvalue",
            Instruction::RegisterUpvalue => "RegisterUpvalue",
            Instruction::CloseUpvalue => "CloseUpvalue",
        }
    }

    pub fn span(&self) -> (n: usize)
        ensures
            n == self.spec_span(),
    {
        match self {
            Instruction::CallNative => 5,
            Instruction::ScalarInt => 9,
            Instruction::ScalarFloat => 9,
            Instruction::StringLiteral => 5,
            Instruction::SetGlobalVar => 5,
            Instruction::ReadGlobalVar => 5,
            Instruction::SetLocalVar => 5,
            Instruction::ReadLocalVar => 5,
            Instruction::GotoIfTrue => 5,
            Instruction::GotoIfFalse => 5,
            Instruction::Goto => 5,
            Instruction::BeginForEach => 21,
            Instruction::ForEach => 21,
            Instruction::FunctionPointer => 9,
            Instruction::NativeFunctionPointer => 5,
            Instruction::Closure => 9,
            Instruction::SetUpvalue => 5,
            Instruction::ReadUpvalue => 5,
            Instruction::RegisterUpvalue => 3,
            _ => 1,
        }
    }

    pub fn operand_reach(&self) -> (n: usize)
        ensures
            n == self.spec_operand_reach(),
    {
        match self {
            Instruction::CallNative => 4,
            Instruction::ScalarInt => 8,
            Instruction::ScalarFloat => 8,
            Instruction::StringLiteral => 4,
            Instruction::SetGlobalVar => 4,
            Instruction::ReadGlobalVar => 4,
            Instruction::SetLocalVar => 4,
            Instruction::ReadLocalVar => 4,
            Instruction::GotoIfTrue => 4,
            Instruction::GotoIfFalse => 4,
            Instruction::Goto => 4,
            Instruction::BeginForEach => 20,
            Instruction::ForEach => 20,
            Instruction::FunctionPointer => 4,
            Instruction::NativeFunctionPointer => 4,
            Instruction::Closure => 4,
            Instruction::SetUpvalue => 4,
            Instruction::ReadUpvalue => 4,
            Instruction::RegisterUpvalue => 2,
            _ => 0,
        }
    }
}
} // verus!

verus! {

/// A number that tells the instruction names apart: the length and three of
/// the characters of a name.
pub open spec fn name_code(s: Seq<char>) -> int {
    s.len() * 0x1000000 + (s[0] as int) * 0x10000 + (s[1] as int) * 0x100 + (if s.len() > 6 {
        s[6] as int
    } else {
        0
    })
}

/// The instruction whose name has the code `k`.
pub open spec fn instruction_of_name_code(k: int) -> Option<Instruction> {
    if k == 54617088 {
        Some(Instruction::Add)
    } else if k == 55801088 {
        Some(Instruction::Sub)
    } else if k == 55407872 {
        Some(Instruction::Mul)
    } else if k == 54814976 {
        Some(Instruction::Div)
    } else if k == 172188020 {
        Some(Instruction::CallNative)
    } else if k == 156459849 {
        Some(Instruction::ScalarInt)
    } else if k == 190014278 {
        Some(Instruction::ScalarFloat)
    } else if k == 156459854 {
        Some(Instruction::ScalarNil)
    } else if k == 223573068 {
        Some(Instruction::StringLiteral)
    } else if k == 138637171 {
        Some(Instruction::CopyLast)
    } else if k == 71661568 {
        Some(Instruction::Exit)
    } else if k == 205742446 {
        Some(Instruction::CallFunction)
    } else if k == 105214208 {
        Some(Instruction::Equals)
    } else if k == 156135265 {
        Some(Instruction::NotEquals)
    } else if k == 72115456 {
        Some(Instruction::Less)
    } else if k == 139224389 {
        Some(Instruction::LessOrEq)
    } else if k == 55602944 {
        Some(Instruction::Pop)
    } else if k == 206792034 {
        Some(Instruction::SetGlobalVar)
    } else if k == 223503727 {
        Some(Instruction::ReadGlobalVar)
    } else if k == 190014817 {
        Some(Instruction::SetLocalVar)
    } else if k == 206726499 {
        Some(Instruction::ReadLocalVar)
    } else if k == 172190836 {
        Some(Instruction::ClearStack)
    } else if k == 106063104 {
        Some(Instruction::Return)
    } else if k == 139687795 {
        Some(Instruction::SwapLast)
    } else if k == 54619648 {
        Some(Instruction::And)
    } else if k == 38760960 {
        Some(Instruction::Or)
    } else if k == 56127232 {
        Some(Instruction::Xor)
    } else if k == 55471872 {
        Some(Instruction::Not)
    } else if k == 172453716 {
        Some(Instruction::GotoIfTrue)
    } else if k == 189230918 {
        Some(Instruction::GotoIfFalse)
    } else if k == 71790336 {
        Some(Instruction::Goto)
    } else if k == 155807330 {
        Some(Instruction::InitTable)
    } else if k == 189228400 {
        Some(Instruction::GetProperty)
    } else if k == 190014832 {
        Some(Instruction::SetProperty)
    } else if k == 55338240 {
        Some(Instruction::Len)
    } else if k == 205677935 {
        Some(Instruction::BeginForEach)
    } else if k == 122056552 {
        Some(Instruction::ForEach)
    } else if k == 256275823 {
        Some(Instruction::FunctionPointer)
    } else if k == 357458246 {
        Some(Instruction::NativeFunctionPointer)
    } else if k == 105804800 {
        Some(Instruction::NthRow)
    } else if k == 188837972 {
        Some(Instruction::AppendTable)
    } else if k == 139489132 {
        Some(Instruction::PopTable)
    } else if k == 121859173 {
        Some(Instruction::Closure)
    } else if k == 173237601 {
        Some(Instruction::SetUpvalue)
    } else if k == 189949302 {
        Some(Instruction::ReadUpvalue)
    } else if k == 257058149 {
        Some(Instruction::RegisterUpvalue)
    } else if k == 205745264 {
        Some(Instruction::CloseUpvalue)
    } else {
        None
    }
}

proof fn lemma_name_code(i: Instruction)
    ensures
        instruction_of_name_code(name_code(i.spec_name())) == Some(i),
{
    match i {
        Instruction::Add => {
            reveal_strlit("Add");
        },
        Instruction::Sub => {
            reveal_strlit("Sub");
        },
        Instruction::Mul => {
            reveal_strlit("Mul");
        },
        Instruction::Div => {
            reveal_strlit("Div");
        },
        Instruction::CallNative => {
            reveal_strlit("CallNative");
        },
        Instruction::ScalarInt => {
            reveal_strlit("ScalarInt");
        },
        Instruction::ScalarFloat => {
            reveal_strlit("ScalarFloat");
        },
        Instruction::ScalarNil => {
            reveal_strlit("ScalarNil");
        },
        Instruction::StringLiteral => {
            reveal_strlit("StringLiteral");
        },
        Instruction::CopyLast => {
            reveal_strlit("CopyLast");
        },
        Instruction::Exit => {
            reveal_strlit("Exit");
        },
        Instruction::CallFunction => {
            reveal_strlit("CallFunction");
        },
        Instruction::Equals => {
            reveal_strlit("Equals");
        },
        Instruction::NotEquals => {
            reveal_strlit("NotEquals");
        },
        Instruction::Less => {
            reveal_strlit("Less");
        },
        Instruction::LessOrEq => {
            reveal_strlit("LessOrEq");
        },
        Instruction::Pop => {
            reveal_strlit("Pop");
        },
        Instruction::SetGlobalVar => {
            reveal_strlit("SetGlobalVar");
        },
        Instruction::ReadGlobalVar => {
            reveal_strlit("ReadGlobalVar");
        },
        Instruction::SetLocalVar => {
            reveal_strlit("SetLocalVar");
        },
        Instruction::ReadLocalVar => {
            reveal_strlit("ReadLocalVar");
        },
        Instruction::ClearStack => {
            reveal_strlit("ClearStack");
        },
        Instruction::Return => {
            reveal_strlit("Return");
        },
        Instruction::SwapLast => {
            reveal_strlit("SwapLast");
        },
        Instruction::And => {
            reveal_strlit("And");
        },
        Instruction::Or => {
            reveal_strlit("Or");
        },
        Instruction::Xor => {
            reveal_strlit("Xor");
        },
        Instruction::Not => {
            reveal_strlit("Not");
        },
        Instruction::GotoIfTrue => {
            reveal_strlit("GotoIfTrue");
        },
        Instruction::GotoIfFalse => {
            reveal_strlit("GotoIfFalse");
        },
        Instruction::Goto => {
            reveal_strlit("Goto");
        },
        Instruction::InitTable => {
            reveal_strlit("InitTable");
        },
        Instruction::GetProperty => {
            reveal_strlit("GetProperty");
        },
        Instruction::SetProperty => {
            reveal_strlit("SetProperty");
        },
        Instruction::Len => {
            reveal_strlit("Len");
        },
        Instruction::BeginForEach => {
            reveal_strlit("BeginForEach");
        },
        Instruction::ForEach => {
            reveal_strlit("ForEach");
        },
        Instruction::FunctionPointer => {
            reveal_strlit("FunctionPointer");
        },
        Instruction::NativeFunctionPointer => {
            reveal_strlit("NativeFunctionPointer");
        },
        Instruction::NthRow => {
            reveal_strlit("NthRow");
        },
        Instruction::AppendTable => {
            reveal_strlit("AppendTable");
        },
        Instruction::PopTable => {
            reveal_strlit("PopTable");
        },
        Instruction::Closure => {
            reveal_strlit("Closure");
        },
        Instruction::SetUpvalue => {
            reveal_strlit("SetUpvalue");
        },
        Instruction::ReadUpvalue => {
            reveal_strlit("ReadUpvalue");
        },
        Instruction::RegisterUpvalue => {
            reveal_strlit("RegisterUpvalue");
        },
        Instruction::CloseUpvalue => {
            reveal_strlit("CloseUpvalue");
        },
    }
}

/// No two instructions have the same name, so every line of a disassembly names
/// its opcode unambiguously.
pub proof fn law_instruction_names_distinct(a: Instruction, b: Instruction)
    requires
        a != b,
    ensures
        a.spec_name() != b.spec_name(),
{
    lemma_name_code(a);
    lemma_name_code(b);
}

} // verus!

verus! {

/// Decoding an opcode is the inverse of the instruction's position in the
/// enum: the byte `ins as u8` decodes to `ins`, and a byte that decodes to
/// `ins` is `ins as u8`.
pub proof fn law_opcode_round_trip(ins: Instruction, b: u8)
    ensures
        spec_instruction_of(ins as u8) == Some(ins),
        spec_instruction_of(b) == Some(ins) ==> b == ins as u8,
{
    reveal(spec_instruction_of);
}

} // verus!
