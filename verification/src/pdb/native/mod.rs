//! Native Windows PDB support (read-only).
//!
//! Scope of this module: parsing the MSF ("Compound File") container that wraps
//! every native PDB ([`msf`]), and decoding the CodeView symbol / line streams
//! inside it to map function tokens and RVAs to source files and lines
//! ([`symbols`] with [`NativePdbReader`]).
//!
//! Reading is the only supported direction: debug information is written
//! through the portable PDB format instead.

pub mod msf;
pub mod container_laws;
pub mod dbi;
pub mod names;
pub mod functions;
pub mod line_laws;
pub mod line_programs;
pub mod query_laws;
pub mod range_laws;
pub mod record_laws;
pub mod symbols;

pub use symbols::NativePdbReader;
