//! CLI metadata: the stream root, the heaps and the tables.

pub mod build_history;
pub mod builder;
pub mod builder_laws;
pub mod heap_laws;
pub mod heaps;
pub mod layout_laws;
pub mod reader;
pub mod root;
pub mod table_laws;
pub mod tables;

pub use builder::MetadataBuilder;
pub use heaps::{BlobHeap, GuidHeap, Heaps, PdbHeap, StringHeap, UserStringHeap};
pub use reader::MetadataReader;
pub use root::{parse_root, stream_slice, write_root, RootHeader, StreamHeader, METADATA_SIGNATURE};
pub use tables::{
    column_kinds, decode_coded, encode_coded, ColumnDesc, ColumnKind, TableSet, SORTED_MASK_DEFAULT,
    TABLE_COUNT,
};
