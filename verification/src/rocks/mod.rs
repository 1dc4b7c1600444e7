//! Helpers on top of the object model: queries over modules, types and
//! methods, documentation ids, and checks of method bodies.

pub mod doccomment;
pub mod ilparser;
pub mod ilparser_laws;
pub mod names;
pub mod naming_laws;
pub mod query_laws;
pub mod reflect;
pub mod type_reference;
