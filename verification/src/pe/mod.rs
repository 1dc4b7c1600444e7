//! Parsing and emitting of Windows PE / CLI images.
//!
//! This module reads the DOS/PE/CLI headers, the section table, and the data
//! directories of an image ([`Image::parse`]), translates RVAs to file
//! offsets, and re-emits complete PE32 / PE32+ images.
//!
//! Metadata heaps and tables are *not* parsed here; the metadata layer takes
//! the root slice located through [`Image::metadata_rva`].

pub mod buffer;
pub mod checksum;
pub mod emit_laws;
pub mod image;
pub mod image_laws;
pub mod patch_laws;
pub mod reader;
pub mod resources;
pub mod section;
pub mod textmap;
pub mod writer;
pub mod writer_laws;

pub use buffer::ByteBuffer;
pub use checksum::compute_pe_checksum;
pub use image::{
    CliHeader, DataDirectoryIndex, Image, ImageDebugDirectory, ImageDebugEntry, MetadataStream,
    ModuleKind, TargetArchitecture, DATA_DIRECTORIES,
};
pub use section::{DataDirectory, Range, Section};
pub use textmap::{TextMap, TextSegment};
pub use writer::{EmitParts, ImageWriter};
