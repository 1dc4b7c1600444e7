//! CIL method bodies: the opcode table, the instruction model, and the
//! encodings of body headers and exception-handler sections.
//!
//! Operands that reference metadata stay encoded as tokens, user-string
//! indices or local-variable indices.

pub mod body;
pub mod body_laws;
pub mod code;
pub mod code_laws;
pub mod exceptions;
pub mod instruction;
pub mod layout_laws;
pub mod opcode;
pub mod opcode_laws;
pub mod opcodes;
pub mod text_laws;
pub mod variable;

pub use body::{
    decode_method_body, encode_body_header, encode_method_body, parse_body_header, read_code,
    write_code, MethodBody, ParsedHeader,
};
pub use code::Code;
pub use exceptions::{
    parse_sections, read_clause, requires_fat_section, write_clause, write_section,
    ExceptionHandler, ExceptionHandlerType, FAT_CLAUSE_SIZE, SMALL_CLAUSE_SIZE,
};
pub use instruction::{Instruction, Operand};
pub use opcode::{instruction_size, OpCode, OperandType};
pub use opcodes as opcode_table;
pub use variable::VariableDefinition;
