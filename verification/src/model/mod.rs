//! The resolved object model: types, members and bodies in arenas, referred to
//! by copyable handles.

pub mod body;
pub mod equality;
pub mod module;
pub mod types;

pub use module::Module;
