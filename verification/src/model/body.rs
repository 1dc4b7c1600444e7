//! Resolved method bodies.

use vstd::prelude::*;

use crate::cil::OpCode;
use crate::model::types::{FieldId, MethodId, MethodSignature, TypeDesc};
use crate::token::Token;

verus! {

/// The operand of a resolved instruction. Floating-point immediates are bit
/// patterns.
#[derive(Debug, Clone, PartialEq)]
pub enum ROperand {
    /// No operand.
    Empty,
    Int8(i8),
    Int32(i32),
    Int64(i64),
    /// The bits of a single-precision immediate.
    Float32(u32),
    /// The bits of a double-precision immediate.
    Float64(u64),
    /// Absolute offset that a branch goes to.
    Branch(i32),
    /// Absolute offsets that a `switch` goes to.
    Switch(Vec<i32>),
    /// Resolved user string.
    Text(String),
    /// Offset of a user string that was not resolved.
    UserString(u32),
    /// Index of a local variable or of an argument.
    Var(u16),
    /// Reference that was not resolved.
    Token(Token),
    Type(TypeDesc),
    Method(MethodId),
    Field(FieldId),
    CallSite(MethodSignature),
    Rva(u64),
}

/// A resolved instruction.
#[derive(Debug, Clone, PartialEq)]
pub struct RInstruction {
    pub offset: i32,
    pub opcode: OpCode,
    pub operand: ROperand,
}

/// A local variable.
#[derive(Debug, Clone, PartialEq)]
pub struct LocalVariable {
    pub index: u16,
    pub ty: TypeDesc,
    pub pinned: bool,
}

/// The kind of an exception clause.
#[derive(Debug, Clone, Copy, PartialEq, Eq, Structural)]
pub enum ExceptionKind {
    Catch,
    Filter,
    Finally,
    Fault,
}

/// An exception clause.
#[derive(Debug, Clone, PartialEq)]
pub struct ExceptionHandlerIL {
    pub kind: ExceptionKind,
    pub try_offset: i32,
    pub try_length: i32,
    /// Where the filter starts, of a filter clause.
    pub filter_offset: i32,
    pub handler_offset: i32,
    pub handler_length: i32,
    pub catch_type: Option<TypeDesc>,
}

/// A resolved method body.
#[derive(Debug, Clone, PartialEq)]
pub struct ResolvedBody {
    pub max_stack: u16,
    pub init_locals: bool,
    pub local_var_sig_tok: Token,
    pub locals: Vec<LocalVariable>,
    pub instructions: Vec<RInstruction>,
    pub exception_handlers: Vec<ExceptionHandlerIL>,
}

impl Default for ResolvedBody {
    fn default() -> (b: Self)
        ensures
            b.max_stack == 0,
            !b.init_locals,
            b.local_var_sig_tok.0 == 0,
            b.locals@.len() == 0,
            b.instructions@.len() == 0,
            b.exception_handlers@.len() == 0,
    {
        ResolvedBody {
            max_stack: 0,
            init_locals: false,
            local_var_sig_tok: Token(0),
            locals: Vec::new(),
            instructions: Vec::new(),
            exception_handlers: Vec::new(),
        }
    }
}

} // verus!
