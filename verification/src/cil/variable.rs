//! Local variable model, decoupled from the object model.

use vstd::prelude::*;

use crate::text;
use crate::token::Token;

verus! {

/// A local variable slot of a method body.
///
/// The type is carried as a stand-in token, which is nil while unknown.
#[derive(Debug, Clone, Copy, PartialEq, Eq, Hash)]
pub struct VariableDefinition {
    /// Zero-based slot index, identical to the index encoded by
    /// `ldloc`/`stloc` operands.
    pub index: u16,
    /// Stand-in for the variable's type; resolved by the object-model layer.
    pub variable_type: Token,
}

impl VariableDefinition {
    /// Creates a local variable with the given slot index and type token.
    pub fn new(index: u16, variable_type: Token) -> (v: Self)
        ensures
            v == (VariableDefinition { index, variable_type }),
    {
        VariableDefinition { index, variable_type }
    }

    /// The name of the variable: `V_0`, `V_1`, ...
    pub fn display(&self) -> (s: String)
        ensures
            s@ == "V_"@ + text::decimal(self.index as nat),
    {
        let mut s: String = "V_".to_owned();
        text::push_decimal(&mut s, self.index as u64);
        s
    }
}

} // verus!
