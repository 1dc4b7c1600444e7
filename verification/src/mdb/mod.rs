//! The Mono MDB debug-information format.

pub mod encoding;
pub mod history_laws;
pub mod layout_laws;
pub mod lines;
pub mod lines_laws;
pub mod reader;
pub mod writer;
pub mod writer_laws;

pub use reader::{
    CompileUnitEntry, LocalVariableEntry, MdbReader, MethodEntry, MethodLines, OffsetTable,
    SourceFileEntry,
};
pub use writer::MdbWriter;
