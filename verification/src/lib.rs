//! Reading and writing of .NET images: the PE container, CLI metadata,
//! CIL method bodies and the debug-symbol formats that go with them.

pub mod bytes;
pub mod cil;
pub mod element;
pub mod encoding_laws;
pub mod error;
pub mod flags;
pub mod io;
pub mod mdb;
pub mod message_laws;
pub mod metadata;
pub mod model;
pub mod number_laws;
pub mod pdb;
pub mod pe;
pub mod rocks;
pub mod text;
pub mod token;

pub use element::{ElementType, VariantType};
pub use error::Error;
pub use token::{CodedIndexGroup, TableIndex, Token, TokenType};
