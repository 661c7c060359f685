pub mod cards;
pub mod compiled_program;
pub mod disassembly;
pub mod frontend;
pub mod handles;
pub mod instruction;
pub mod literals;
pub mod operands;
pub mod syntax;
pub mod text;
