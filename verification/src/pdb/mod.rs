//! Debug information: portable PDB files, their embedding into an image, and
//! native PDB files.

pub mod document;
pub mod embedded;
pub mod image_debug_type;
pub mod native;
pub mod portable_history;
pub mod portable_laws;
pub mod portable_layout_laws;
pub mod portable_name_laws;
pub mod portable_read_laws;
pub mod portable_reader;
pub mod portable_writer;
pub mod sequence_points;

pub use document::Document;
pub use native::NativePdbReader;
pub use portable_reader::PortablePdbReader;
pub use portable_writer::PortablePdbBuilder;
pub use sequence_points::SequencePoint;
