//! Reader for the Mono MDB debug-information format.
//!
//! The file layout is:
//!
//! ```text
//! magic u64 | major i32 | minor i32 | guid [u8;16]   (32-byte header)
//! OffsetTable (20 x i32)
//! data section   (source-file payloads, compile-unit payloads, method payloads)
//! method table   (12 bytes per method: token, data offset, line-number-table offset)
//! source table   (8 bytes per source: index, payload offset)
//! compile-unit table (8 bytes per unit: index, payload offset)
//! anonymous-scope table
//! ```
//!
//! All integers are little-endian. Variable-length values are seven bits per
//! byte. Strings are length-prefixed UTF-8.
//!
//! Table payloads are parsed eagerly in [`MdbReader::open`] so malformed or
//! truncated files are reported up front, while the more expensive line-number
//! tables decode lazily in [`MdbReader::method_lines`].

use vstd::prelude::*;

use crate::bytes;
use crate::error::{Error, ErrorKind};
use crate::io;
use crate::io::{ByteReader, ByteWriter, Step};
use crate::mdb::encoding;
use crate::mdb::lines;
use crate::mdb::lines::{LineParams, LntEntry};
use crate::text;
use crate::text::Message;
use crate::token::Token;

verus! {

broadcast use {crate::bytes::widths, crate::mdb::encoding::extents};

/// 64-bit magic value at the start of a file.
pub const MAGIC: u64 = 0x45e8_2623_fd7f_a614;

/// Major file version.
pub const MAJOR_VERSION: i32 = 50;

/// Minor file version.
pub const MINOR_VERSION: i32 = 0;

/// Size in bytes of the fixed header (magic + versions + guid).
pub const HEADER_SIZE: usize = 32;

/// Size in bytes of the serialized offset table (20 x i32).
pub const OFFSET_TABLE_SIZE: usize = 80;

/// The fixed-size directory of file sections.
#[derive(Debug, Clone, Copy, PartialEq, Eq)]
pub struct OffsetTable {
    pub total_file_size: i32,
    pub data_section_offset: i32,
    pub data_section_size: i32,
    pub compile_unit_count: i32,
    pub compile_unit_table_offset: i32,
    pub compile_unit_table_size: i32,
    pub source_count: i32,
    pub source_table_offset: i32,
    pub source_table_size: i32,
    pub method_count: i32,
    pub method_table_offset: i32,
    pub method_table_size: i32,
    pub type_count: i32,
    pub anonymous_scope_count: i32,
    pub anonymous_scope_table_offset: i32,
    pub anonymous_scope_table_size: i32,
    pub line_number_table_line_base: i32,
    pub line_number_table_line_range: i32,
    pub line_number_table_opcode_base: i32,
    /// Bitwise-or of the file flags (aspx source = 1, Windows file names = 2).
    pub file_flags: i32,
}

/// The table of an empty file, with the default encoding of line numbers.
pub open spec fn default_offset_table() -> OffsetTable {
    OffsetTable {
        total_file_size: 0,
        data_section_offset: 0,
        data_section_size: 0,
        compile_unit_count: 0,
        compile_unit_table_offset: 0,
        compile_unit_table_size: 0,
        source_count: 0,
        source_table_offset: 0,
        source_table_size: 0,
        method_count: 0,
        method_table_offset: 0,
        method_table_size: 0,
        type_count: 0,
        anonymous_scope_count: 0,
        anonymous_scope_table_offset: 0,
        anonymous_scope_table_size: 0,
        line_number_table_line_base: (-1) as i32,
        line_number_table_line_range: 8,
        line_number_table_opcode_base: 9,
        file_flags: 0,
    }
}

impl Default for OffsetTable {
    fn default() -> (t: OffsetTable)
        ensures
            t == default_offset_table(),
    {
        OffsetTable {
            total_file_size: 0,
            data_section_offset: 0,
            data_section_size: 0,
            compile_unit_count: 0,
            compile_unit_table_offset: 0,
            compile_unit_table_size: 0,
            source_count: 0,
            source_table_offset: 0,
            source_table_size: 0,
            method_count: 0,
            method_table_offset: 0,
            method_table_size: 0,
            type_count: 0,
            anonymous_scope_count: 0,
            anonymous_scope_table_offset: 0,
            anonymous_scope_table_size: 0,
            line_number_table_line_base: -1,
            line_number_table_line_range: 8,
            line_number_table_opcode_base: 9,
            file_flags: 0,
        }
    }
}

/// The offset table at `at`.
pub open spec fn offset_table_at(s: Seq<u8>, at: int) -> OffsetTable {
    OffsetTable {
        total_file_size: bytes::i32_of(bytes::u32_at(s, at + 0)),
        data_section_offset: bytes::i32_of(bytes::u32_at(s, at + 4)),
        data_section_size: bytes::i32_of(bytes::u32_at(s, at + 8)),
        compile_unit_count: bytes::i32_of(bytes::u32_at(s, at + 12)),
        compile_unit_table_offset: bytes::i32_of(bytes::u32_at(s, at + 16)),
        compile_unit_table_size: bytes::i32_of(bytes::u32_at(s, at + 20)),
        source_count: bytes::i32_of(bytes::u32_at(s, at + 24)),
        source_table_offset: bytes::i32_of(bytes::u32_at(s, at + 28)),
        source_table_size: bytes::i32_of(bytes::u32_at(s, at + 32)),
        method_count: bytes::i32_of(bytes::u32_at(s, at + 36)),
        method_table_offset: bytes::i32_of(bytes::u32_at(s, at + 40)),
        method_table_size: bytes::i32_of(bytes::u32_at(s, at + 44)),
        type_count: bytes::i32_of(bytes::u32_at(s, at + 48)),
        anonymous_scope_count: bytes::i32_of(bytes::u32_at(s, at + 52)),
        anonymous_scope_table_offset: bytes::i32_of(bytes::u32_at(s, at + 56)),
        anonymous_scope_table_size: bytes::i32_of(bytes::u32_at(s, at + 60)),
        line_number_table_line_base: bytes::i32_of(bytes::u32_at(s, at + 64)),
        line_number_table_line_range: bytes::i32_of(bytes::u32_at(s, at + 68)),
        line_number_table_opcode_base: bytes::i32_of(bytes::u32_at(s, at + 72)),
        file_flags: bytes::i32_of(bytes::u32_at(s, at + 76)),
    }
}

impl OffsetTable {
    /// The fields in file order.
    pub open spec fn fields(self) -> Seq<i32> {
        seq![
            self.total_file_size,
            self.data_section_offset,
            self.data_section_size,
            self.compile_unit_count,
            self.compile_unit_table_offset,
            self.compile_unit_table_size,
            self.source_count,
            self.source_table_offset,
            self.source_table_size,
            self.method_count,
            self.method_table_offset,
            self.method_table_size,
            self.type_count,
            self.anonymous_scope_count,
            self.anonymous_scope_table_offset,
            self.anonymous_scope_table_size,
            self.line_number_table_line_base,
            self.line_number_table_line_range,
            self.line_number_table_opcode_base,
            self.file_flags,
        ]
    }

    /// The bytes of the fields.
    pub open spec fn parts(self) -> Seq<Seq<u8>> {
        Seq::new(20, |k: int| bytes::u32_le(bytes::u32_of(self.fields()[k])))
    }

    /// How line-number tables are encoded.
    pub open spec fn params(self) -> LineParams {
        LineParams {
            line_base: self.line_number_table_line_base,
            line_range: self.line_number_table_line_range,
            opcode_base: self.line_number_table_opcode_base,
        }
    }

    fn read(data: &[u8], at: usize) -> (t: Self)
        requires
            at + 80 <= data.len(),
        ensures
            t == offset_table_at(data@, at as int),
    {
        OffsetTable {
            total_file_size: bytes::as_i32(bytes::get_u32(data, at + 0)),
            data_section_offset: bytes::as_i32(bytes::get_u32(data, at + 4)),
            data_section_size: bytes::as_i32(bytes::get_u32(data, at + 8)),
            compile_unit_count: bytes::as_i32(bytes::get_u32(data, at + 12)),
            compile_unit_table_offset: bytes::as_i32(bytes::get_u32(data, at + 16)),
            compile_unit_table_size: bytes::as_i32(bytes::get_u32(data, at + 20)),
            source_count: bytes::as_i32(bytes::get_u32(data, at + 24)),
            source_table_offset: bytes::as_i32(bytes::get_u32(data, at + 28)),
            source_table_size: bytes::as_i32(bytes::get_u32(data, at + 32)),
            method_count: bytes::as_i32(bytes::get_u32(data, at + 36)),
            method_table_offset: bytes::as_i32(bytes::get_u32(data, at + 40)),
            method_table_size: bytes::as_i32(bytes::get_u32(data, at + 44)),
            type_count: bytes::as_i32(bytes::get_u32(data, at + 48)),
            anonymous_scope_count: bytes::as_i32(bytes::get_u32(data, at + 52)),
            anonymous_scope_table_offset: bytes::as_i32(bytes::get_u32(data, at + 56)),
            anonymous_scope_table_size: bytes::as_i32(bytes::get_u32(data, at + 60)),
            line_number_table_line_base: bytes::as_i32(bytes::get_u32(data, at + 64)),
            line_number_table_line_range: bytes::as_i32(bytes::get_u32(data, at + 68)),
            line_number_table_opcode_base: bytes::as_i32(bytes::get_u32(data, at + 72)),
            file_flags: bytes::as_i32(bytes::get_u32(data, at + 76)),
        }
    }

    /// Serializes the table in field order.
    pub(crate) fn write(&self, w: &mut ByteWriter)
        ensures
            final(w)@ == old(w)@ + bytes::joined(self.parts()),
    {
        let ghost start = w@;
        w.i32(self.total_file_size);
        w.i32(self.data_section_offset);
        w.i32(self.data_section_size);
        w.i32(self.compile_unit_count);
        w.i32(self.compile_unit_table_offset);
        w.i32(self.compile_unit_table_size);
        w.i32(self.source_count);
        w.i32(self.source_table_offset);
        w.i32(self.source_table_size);
        w.i32(self.method_count);
        w.i32(self.method_table_offset);
        w.i32(self.method_table_size);
        w.i32(self.type_count);
        w.i32(self.anonymous_scope_count);
        w.i32(self.anonymous_scope_table_offset);
        w.i32(self.anonymous_scope_table_size);
        w.i32(self.line_number_table_line_base);
        w.i32(self.line_number_table_line_range);
        w.i32(self.line_number_table_opcode_base);
        w.i32(self.file_flags);
        proof {
            let parts = self.parts();
            let sum = start + parts[0] + parts[1] + parts[2] + parts[3] + parts[4] + parts[5]
                + parts[6] + parts[7] + parts[8] + parts[9] + parts[10] + parts[11] + parts[12]
                + parts[13] + parts[14] + parts[15] + parts[16] + parts[17] + parts[18] + parts[19];
            assert(w@ == sum);
            reveal_with_fuel(bytes::joined, 21);
            assert(parts.drop_last() =~= parts.take(19));
            joined_twenty(parts);
            assert(sum =~= start + bytes::joined(parts));
        }
    }
}

/// Twenty parts, one behind the other.
proof fn joined_twenty(p: Seq<Seq<u8>>)
    requires
        p.len() == 20,
    ensures
        bytes::joined(p) == p[0] + p[1] + p[2] + p[3] + p[4] + p[5] + p[6] + p[7] + p[8] + p[9]
            + p[10] + p[11] + p[12] + p[13] + p[14] + p[15] + p[16] + p[17] + p[18] + p[19],
{
    assert(p.take(20) =~= p);
    bytes::joined_step(p, 0);
    bytes::joined_step(p, 1);
    bytes::joined_step(p, 2);
    bytes::joined_step(p, 3);
    bytes::joined_step(p, 4);
    bytes::joined_step(p, 5);
    bytes::joined_step(p, 6);
    bytes::joined_step(p, 7);
    bytes::joined_step(p, 8);
    bytes::joined_step(p, 9);
    bytes::joined_step(p, 10);
    bytes::joined_step(p, 11);
    bytes::joined_step(p, 12);
    bytes::joined_step(p, 13);
    bytes::joined_step(p, 14);
    bytes::joined_step(p, 15);
    bytes::joined_step(p, 16);
    bytes::joined_step(p, 17);
    bytes::joined_step(p, 18);
    bytes::joined_step(p, 19);
    assert(p.take(0) =~= Seq::<Seq<u8>>::empty());
    assert(bytes::joined(p.take(1)) =~= p[0]);
}

/// A registered source document.
///
/// The 16-byte per-file GUID stored next to the checksum in the on-disk
/// payload is not surfaced; `hash` carries the MD5 checksum bytes.
#[derive(Debug, Clone, PartialEq, Eq)]
pub struct SourceFileEntry {
    /// 1-based source id as stored in the source table.
    pub id: u32,
    /// File path (or URL) of the document.
    pub path: String,
    /// Checksum bytes (MD5 when produced by mcs), 16 bytes.
    pub hash: [u8; 16],
}

/// What a source document says.
#[verifier::ext_equal]
pub struct SourceView {
    pub id: u32,
    pub path: Seq<char>,
    pub hash: Seq<u8>,
}

impl View for SourceFileEntry {
    type V = SourceView;

    open spec fn view(&self) -> SourceView {
        SourceView { id: self.id, path: self.path@, hash: self.hash@ }
    }
}

/// What source documents say.
pub open spec fn source_views(sources: Seq<SourceFileEntry>) -> Seq<SourceView> {
    Seq::new(sources.len(), |k: int| sources[k]@)
}

/// A compilation unit.
#[derive(Debug, Clone, PartialEq, Eq)]
pub struct CompileUnitEntry {
    /// Source-file ids covered by this unit: `file_ids[0]` is the primary
    /// source, remaining ids are the additional files.
    pub file_ids: Vec<u32>,
}

/// The source-file ids of the units.
pub open spec fn unit_views(units: Seq<CompileUnitEntry>) -> Seq<Seq<u32>> {
    Seq::new(units.len(), |k: int| units[k].file_ids@)
}

/// A row of the method table.
#[derive(Debug, Clone, Copy, PartialEq, Eq)]
pub struct MethodEntry {
    /// 1-based position within the (token-sorted) method table.
    pub row: u32,
    /// MethodDef token this entry annotates.
    pub token: Token,
    /// 1-based compile-unit index.
    pub compile_unit: u32,
    /// Namespace id recorded by the compiler (0 when unused).
    pub namespace_id: u32,
}

/// Decoded line-number table of one method.
#[derive(Debug, Clone, PartialEq, Eq)]
pub struct MethodLines {
    /// IL offsets, one per sequence point, in table order.
    pub il_offsets: Vec<i32>,
    /// Source line numbers, parallel to `il_offsets`.
    ///
    /// The source file each point belongs to travels inside the encoded table
    /// and is not surfaced here.
    pub line_numbers: Vec<i32>,
}

impl Default for MethodLines {
    fn default() -> (l: MethodLines)
        ensures
            l.il_offsets@ == Seq::<i32>::empty(),
            l.line_numbers@ == Seq::<i32>::empty(),
    {
        MethodLines { il_offsets: Vec::new(), line_numbers: Vec::new() }
    }
}

/// A local-variable record of one method.
#[derive(Debug, Clone, PartialEq, Eq)]
pub struct LocalVariableEntry {
    /// IL local slot index.
    pub index: i32,
    /// Local name.
    pub name: String,
    /// Enclosing code-block index (0 = method body root).
    pub block_index: i32,
}

/// What a local-variable record says.
#[verifier::ext_equal]
pub struct LocalView {
    pub index: i32,
    pub name: Seq<char>,
    pub block_index: i32,
}

impl View for LocalVariableEntry {
    type V = LocalView;

    open spec fn view(&self) -> LocalView {
        LocalView { index: self.index, name: self.name@, block_index: self.block_index }
    }
}

/// What local-variable records say.
pub open spec fn local_views(locals: Seq<LocalVariableEntry>) -> Seq<LocalView> {
    Seq::new(locals.len(), |k: int| locals[k]@)
}

/// A fully-parsed method row.
#[derive(Debug, Clone, Copy, PartialEq, Eq)]
pub struct MethodRow {
    pub entry: MethodEntry,
    pub line_number_table_offset: u32,
    pub local_variable_table_offset: u32,
    pub flags: u32,
}

/// A payload offset lies in the file.
pub open spec fn offset_in(s: Seq<u8>, offset: i32) -> bool {
    0 <= offset < s.len()
}

/// The signed integer at `at`.
pub open spec fn int_at(s: Seq<u8>, at: int) -> i32 {
    bytes::i32_of(bytes::u32_at(s, at))
}

/// The source document of the table row at `at`: its payload is the path, a
/// guid and a checksum.
pub open spec fn source_at(s: Seq<u8>, at: int) -> Option<SourceView> {
    let offset = int_at(s, at + 4);
    if !offset_in(s, offset) {
        None
    } else {
        match encoding::string_at(s, offset as int) {
            None => None,
            Some((path, end)) => if end + 32 > s.len() {
                None
            } else {
                Some(
                    SourceView {
                        id: bytes::u32_at(s, at),
                        path,
                        hash: s.subrange(end + 16, end + 32),
                    },
                )
            },
        }
    }
}

/// The `n` source documents whose table rows start at `at`.
pub open spec fn sources_at(s: Seq<u8>, at: int, n: nat) -> Option<Seq<SourceView>>
    decreases n,
{
    if n == 0 {
        Some(Seq::empty())
    } else {
        match source_at(s, at) {
            None => None,
            Some(v) => match sources_at(s, at + 8, (n - 1) as nat) {
                None => None,
                Some(rest) => Some(seq![v] + rest),
            },
        }
    }
}

/// The `n` non-negative variable-length integers from `at` on, and where they
/// end.
pub open spec fn ids_at(s: Seq<u8>, at: int, n: nat) -> Option<(Seq<u32>, int)>
    decreases n,
{
    if n == 0 {
        Some((Seq::empty(), at))
    } else {
        match encoding::leb128_at(s, at) {
            None => None,
            Some((v, end)) => if v < 0 {
                None
            } else {
                match ids_at(s, end, (n - 1) as nat) {
                    None => None,
                    Some((rest, last)) => Some((seq![v as u32] + rest, last)),
                }
            },
        }
    }
}

/// Where the `n` texts from `at` on end.
pub open spec fn strings_end(s: Seq<u8>, at: int, n: nat) -> Option<int>
    decreases n,
{
    if n == 0 {
        Some(at)
    } else {
        match encoding::string_at(s, at) {
            None => None,
            Some((_, end)) => strings_end(s, end, (n - 1) as nat),
        }
    }
}

/// Where the namespace at `at` ends: its name, index and parent, and its using
/// clauses.
pub open spec fn namespace_end(s: Seq<u8>, at: int) -> Option<int> {
    match encoding::string_at(s, at) {
        None => None,
        Some((_, a)) => match encoding::leb128_at(s, a) {
            None => None,
            Some((_, b)) => match encoding::leb128_at(s, b) {
                None => None,
                Some((_, c)) => match encoding::leb128_at(s, c) {
                    None => None,
                    Some((n, d)) => if n < 0 {
                        None
                    } else {
                        strings_end(s, d, n as nat)
                    },
                },
            },
        },
    }
}

/// Where the `n` namespaces from `at` on end.
pub open spec fn namespaces_end(s: Seq<u8>, at: int, n: nat) -> Option<int>
    decreases n,
{
    if n == 0 {
        Some(at)
    } else {
        match namespace_end(s, at) {
            None => None,
            Some(end) => namespaces_end(s, end, (n - 1) as nat),
        }
    }
}

/// The source-file ids of the unit whose payload stands at `at`: the primary
/// one, then the number of further ones and these, then namespaces.
pub open spec fn unit_payload(s: Seq<u8>, at: int) -> Option<Seq<u32>> {
    match encoding::leb128_at(s, at) {
        None => None,
        Some((primary, a)) => match encoding::leb128_at(s, a) {
            None => None,
            Some((count, b)) => if primary < 0 || count < 0 {
                None
            } else {
                match ids_at(s, b, count as nat) {
                    None => None,
                    Some((ids, c)) => match encoding::leb128_at(s, c) {
                        None => None,
                        Some((namespaces, d)) => if namespaces < 0 || namespaces_end(
                            s,
                            d,
                            namespaces as nat,
                        ) is None {
                            None
                        } else {
                            Some(seq![primary as u32] + ids)
                        },
                    },
                }
            },
        },
    }
}

/// The unit of the table row at `at`.
pub open spec fn unit_at(s: Seq<u8>, at: int) -> Option<Seq<u32>> {
    let offset = int_at(s, at + 4);
    if !offset_in(s, offset) {
        None
    } else {
        unit_payload(s, offset as int)
    }
}

/// The `n` units whose table rows start at `at`.
pub open spec fn units_at(s: Seq<u8>, at: int, n: nat) -> Option<Seq<Seq<u32>>>
    decreases n,
{
    if n == 0 {
        Some(Seq::empty())
    } else {
        match unit_at(s, at) {
            None => None,
            Some(v) => match units_at(s, at + 8, (n - 1) as nat) {
                None => None,
                Some(rest) => Some(seq![v] + rest),
            },
        }
    }
}

/// The seven variable-length integers at `at`.
pub open spec fn seven_at(s: Seq<u8>, at: int, n: nat) -> Option<Seq<i32>>
    decreases n,
{
    if n == 0 {
        Some(Seq::empty())
    } else {
        match encoding::leb128_at(s, at) {
            None => None,
            Some((v, end)) => match seven_at(s, end, (n - 1) as nat) {
                None => None,
                Some(rest) => Some(seq![v] + rest),
            },
        }
    }
}

/// The method of the `k`-th table row, which stands at `at`. Its payload is
/// seven variable-length integers: the unit, the offset of the local
/// variables, the namespace, three that are not kept, and the flags. Local
/// variables that it names have to be there.
pub open spec fn method_at(s: Seq<u8>, at: int, k: int) -> Option<MethodRow> {
    let payload = int_at(s, at + 4);
    let line_table = int_at(s, at + 8);
    if !offset_in(s, payload) || !offset_in(s, line_table) {
        None
    } else {
        match seven_at(s, payload as int, 7) {
            None => None,
            Some(v) => if v[0] < 0 || v[1] < 0 || v[2] < 0 || v[6] < 0 || (v[1] != 0
                && counted_locals(s, v[1] as int) is None) {
                None
            } else {
                Some(
                    MethodRow {
                        entry: MethodEntry {
                            row: bytes::low32(k + 1),
                            token: Token(bytes::u32_at(s, at)),
                            compile_unit: v[0] as u32,
                            namespace_id: v[2] as u32,
                        },
                        line_number_table_offset: line_table as u32,
                        local_variable_table_offset: v[1] as u32,
                        flags: v[6] as u32,
                    },
                )
            },
        }
    }
}

/// The methods of the table at `base` from the `k`-th one on.
pub open spec fn methods_from(s: Seq<u8>, base: int, k: int, n: int) -> Option<Seq<MethodRow>>
    decreases n - k,
{
    if k >= n {
        Some(Seq::empty())
    } else {
        match method_at(s, base + 12 * k, k) {
            None => None,
            Some(m) => match methods_from(s, base, k + 1, n) {
                None => None,
                Some(rest) => Some(seq![m] + rest),
            },
        }
    }
}

/// A table of `count` rows lies in the file and is as large as it says.
pub open spec fn table_fits(s: Seq<u8>, base: i32, size: i32, count: i32, width: int) -> bool {
    0 <= base && 0 <= count && size == count * width && base + size <= s.len()
}

/// The local variables from `at` on.
pub open spec fn locals_at(s: Seq<u8>, at: int, n: nat) -> Option<Seq<LocalView>>
    decreases n,
{
    if n == 0 {
        Some(Seq::empty())
    } else {
        match encoding::leb128_at(s, at) {
            None => None,
            Some((index, a)) => match encoding::string_at(s, a) {
                None => None,
                Some((name, b)) => match encoding::leb128_at(s, b) {
                    None => None,
                    Some((block_index, c)) => match locals_at(s, c, (n - 1) as nat) {
                        None => None,
                        Some(rest) => Some(seq![LocalView { index, name, block_index }] + rest),
                    },
                },
            },
        }
    }
}

/// The local variables whose number stands at `at`.
pub open spec fn counted_locals(s: Seq<u8>, at: int) -> Option<Seq<LocalView>> {
    match encoding::leb128_at(s, at) {
        None => None,
        Some((n, start)) => if n < 0 {
            None
        } else {
            locals_at(s, start, n as nat)
        },
    }
}

/// What a symbol file says.
#[verifier::ext_equal]
pub struct MdbView {
    pub data: Seq<u8>,
    pub guid: Seq<u8>,
    pub major_version: i32,
    pub minor_version: i32,
    pub offsets: OffsetTable,
    pub sources: Seq<SourceView>,
    pub units: Seq<Seq<u32>>,
    pub methods: Seq<MethodRow>,
}

/// The symbol file that the bytes are.
pub open spec fn parsed_mdb(s: Seq<u8>) -> Option<MdbView> {
    let ot = offset_table_at(s, 32);
    let major_version = int_at(s, 8);
    if s.len() < 112 || bytes::u64_at(s, 0) != MAGIC || major_version < MAJOR_VERSION
        || ot.line_number_table_line_range <= 0 || ot.line_number_table_opcode_base <= 0
        || !table_fits(s, ot.source_table_offset, ot.source_table_size, ot.source_count, 8)
        || !table_fits(
        s,
        ot.compile_unit_table_offset,
        ot.compile_unit_table_size,
        ot.compile_unit_count,
        8,
    ) || !table_fits(s, ot.method_table_offset, ot.method_table_size, ot.method_count, 12) {
        None
    } else {
        match (
            sources_at(s, ot.source_table_offset as int, ot.source_count as nat),
            units_at(s, ot.compile_unit_table_offset as int, ot.compile_unit_count as nat),
            methods_from(s, ot.method_table_offset as int, 0, ot.method_count as int),
        ) {
            (Some(sources), Some(units), Some(methods)) => Some(
                MdbView {
                    data: s,
                    guid: s.subrange(16, 32),
                    major_version,
                    minor_version: int_at(s, 12),
                    offsets: ot,
                    sources,
                    units,
                    methods,
                },
            ),
            _ => None,
        }
    }
}

impl MdbView {
    /// The method with the one-based row number.
    pub open spec fn method(self, row: u32) -> Option<MethodRow> {
        if 1 <= row <= self.methods.len() {
            Some(self.methods[row - 1])
        } else {
            None
        }
    }

    /// The line-number table of a method; a method without one has none.
    pub open spec fn lines(self, row: u32) -> Result<Option<Seq<LntEntry>>, ErrorKind> {
        match self.method(row) {
            None => Ok(None),
            Some(m) => if m.line_number_table_offset == 0 {
                Ok(None)
            } else if self.offsets.line_number_table_opcode_base > 255 {
                Err(ErrorKind::Unsupported)
            } else {
                match lines::table_at(
                    self.data,
                    m.line_number_table_offset as int,
                    self.offsets.params(),
                    m.flags,
                ) {
                    Some(points) => Ok(Some(points)),
                    None => Err(ErrorKind::BadImage),
                }
            },
        }
    }

    /// The local variables of a method; a method without a table has none.
    pub open spec fn locals(self, row: u32) -> Result<Option<Seq<LocalView>>, ErrorKind> {
        match self.method(row) {
            None => Ok(None),
            Some(m) => if m.local_variable_table_offset == 0 {
                Ok(None)
            } else {
                match counted_locals(self.data, m.local_variable_table_offset as int) {
                    Some(locals) => Ok(Some(locals)),
                    None => Err(ErrorKind::BadImage),
                }
            },
        }
    }
}

proof fn rows_name_locals(s: Seq<u8>, base: int, k: int, n: int)
    ensures
        methods_from(s, base, k, n) matches Some(rows) ==> forall|i: int|
            0 <= i < rows.len() && (#[trigger] rows[i]).local_variable_table_offset != 0
                ==> counted_locals(s, rows[i].local_variable_table_offset as int) is Some,
    decreases n - k,
{
    if k < n {
        rows_name_locals(s, base, k + 1, n);
        if let (Some(m), Some(rest)) = (
            method_at(s, base + 12 * k, k),
            methods_from(s, base, k + 1, n),
        ) {
            let rows = seq![m] + rest;
            assert forall|i: int|
                0 <= i < rows.len() && (
                #[trigger] rows[i]).local_variable_table_offset != 0 implies counted_locals(
                s,
                rows[i].local_variable_table_offset as int,
            ) is Some by {
                if i > 0 {
                    assert(rows[i] == rest[i - 1]);
                }
            }
        }
    }
}

/// The local variables of every method of a symbol file that was opened can be
/// read.
pub proof fn opened_locals_can_be_read(s: Seq<u8>, row: u32)
    ensures
        parsed_mdb(s) matches Some(v) ==> v.locals(row) is Ok,
{
    let ot = offset_table_at(s, 32);
    rows_name_locals(s, ot.method_table_offset as int, 0, ot.method_count as int);
    if let Some(v) = parsed_mdb(s) {
        if 1 <= row <= v.methods.len() {
            assert(v.methods[row - 1].local_variable_table_offset != 0 ==> counted_locals(
                s,
                v.methods[row - 1].local_variable_table_offset as int,
            ) is Some);
        }
    }
}

/// Lazy reader over an in-memory Mono MDB symbol file.
#[derive(Debug)]
pub struct MdbReader<'a> {
    data: &'a [u8],
    guid: [u8; 16],
    major_version: i32,
    minor_version: i32,
    ot: OffsetTable,
    sources: Vec<SourceFileEntry>,
    units: Vec<CompileUnitEntry>,
    methods: Vec<MethodRow>,
}

impl<'a> View for MdbReader<'a> {
    type V = MdbView;

    closed spec fn view(&self) -> MdbView {
        MdbView {
            data: self.data@,
            guid: self.guid@,
            major_version: self.major_version,
            minor_version: self.minor_version,
            offsets: self.ot,
            sources: source_views(self.sources@),
            units: unit_views(self.units@),
            methods: self.methods@,
        }
    }
}

fn table_in_file(length: usize, base: i32, size: i32, count: i32, width: i64) -> (b: bool)
    requires
        0 <= width <= 12,
    ensures
        b == (0 <= base && 0 <= count && size == count * width && base + size <= length),
{
    proof {
        assert(-0x8000_0000 * 12 <= count * width <= 0x8000_0000 * 12) by (nonlinear_arith)
            requires
                0 <= width <= 12,
                -0x8000_0000 <= count <= 0x7FFF_FFFF,
        ;
    }
    0 <= base && 0 <= count && size as i64 == count as i64 * width && base as i128 + size as i128
        <= length as i128
}

/// What is said of a file whose header or offset table cannot be used.
pub open spec fn header_failure(s: Seq<u8>) -> Option<Seq<char>> {
    let ot = offset_table_at(s, 32);
    if s.len() < 112 {
        Some(
            "mdb: file too small ("@ + text::decimal(s.len()) + ", need at least "@
                + text::decimal(112) + ")"@,
        )
    } else if bytes::u64_at(s, 0) != MAGIC {
        Some(
            "mdb: bad magic 0x"@ + text::lower_hex_padded(bytes::u64_at(s, 0) as nat, 16)
                + ", expected 0x"@ + text::lower_hex_padded(MAGIC as nat, 16),
        )
    } else if int_at(s, 8) < MAJOR_VERSION {
        Some(
            "mdb: symbol file has version "@ + text::signed_decimal(int_at(s, 8) as int)
                + " but "@ + text::signed_decimal(MAJOR_VERSION as int) + "+ is required"@,
        )
    } else if ot.line_number_table_line_range <= 0 || ot.line_number_table_opcode_base <= 0 {
        Some("mdb: invalid line-number-table encoding parameters"@)
    } else if !table_fits(s, ot.source_table_offset, ot.source_table_size, ot.source_count, 8) {
        Some(
            table_failure(
                "source"@,
                ot.source_table_offset,
                ot.source_table_size,
                ot.source_count,
                s.len(),
            ),
        )
    } else {
        None
    }
}

/// What is said of a table that does not lie inside the file or is not as long
/// as its rows.
pub open spec fn table_failure(
    what: Seq<char>,
    base: i32,
    size: i32,
    count: i32,
    length: nat,
) -> Seq<char> {
    if base < 0 || size < 0 {
        "mdb: negative "@ + what + " table extent"@
    } else if base + size > length {
        "mdb: "@ + what + " table ["@ + text::signed_decimal(base as int) + ","@
            + text::signed_decimal(base + size) + ") exceeds file size "@ + text::decimal(length)
    } else if count < 0 {
        "mdb: negative "@ + what + " count "@ + text::signed_decimal(count as int)
    } else {
        "mdb: "@ + what + " table size "@ + text::signed_decimal(size as int)
            + " does not match count "@ + text::signed_decimal(count as int)
    }
}

fn table_error(length: usize, base: i32, size: i32, count: i32, what: &str) -> (e: Error)
    ensures
        e.kind() == ErrorKind::BadImage,
        e.text() == table_failure(what@, base, size, count, length as nat),
{
    if base < 0 || size < 0 {
        Error::bad_image(
            Message::new("mdb: negative ").text(what).text(" table extent").as_str(),
        )
    } else if base as u64 + size as u64 > length as u64 {
        Error::bad_image(
            Message::new("mdb: ").text(what).text(" table [").number(base as i64).text(
                ",",
            ).number(base as i64 + size as i64).text(") exceeds file size ").count(
                length as u64,
            ).as_str(),
        )
    } else if count < 0 {
        Error::bad_image(
            Message::new("mdb: negative ").text(what).text(" count ").number(
                count as i64,
            ).as_str(),
        )
    } else {
        Error::bad_image(
            Message::new("mdb: ").text(what).text(" table size ").number(size as i64).text(
                " does not match count ",
            ).number(count as i64).as_str(),
        )
    }
}

fn read_source(data: &[u8], at: usize) -> (r: Result<SourceFileEntry, Error>)
    requires
        at + 8 <= data.len(),
    ensures
        match source_at(data@, at as int) {
            Some(v) => r is Ok && r->Ok_0@ == v,
            None => r is Err && r->Err_0.kind() == ErrorKind::BadImage,
        },
{
    let id: u32 = bytes::get_u32(data, at);
    let offset: i32 = bytes::as_i32(bytes::get_u32(data, at + 4));
    if offset < 0 || offset as u64 >= data.len() as u64 {
        return Err(
            Error::bad_image(
                Message::new("mdb: source #").number(bytes::as_i32(id) as i64).text(
                    " payload offset ",
                ).number(offset as i64).text(" out of bounds").as_str(),
            ),
        );
    }
    let mut pr = ByteReader::at(data, offset as usize);
    let path = encoding::read_string(&mut pr)?;
    let end: usize = pr.position();
    if data.len() - end < 32 {
        return Err(
            io::stopped(
                data.len(),
                end as u64,
                vec![Step::Reads { width: 16, times: 2 }],
            ),
        );
    }
    Ok(SourceFileEntry { id, path: path.to_owned(), hash: bytes::get_16(data, end + 16) })
}

fn read_source_table(data: &[u8], ot: &OffsetTable) -> (r: Result<Vec<SourceFileEntry>, Error>)
    ensures
        if table_fits(
            data@,
            ot.source_table_offset,
            ot.source_table_size,
            ot.source_count,
            8,
        ) {
            match sources_at(data@, ot.source_table_offset as int, ot.source_count as nat) {
                Some(v) => r is Ok && source_views(r->Ok_0@) == v,
                None => r is Err && r->Err_0.kind() == ErrorKind::BadImage,
            }
        } else {
            r is Err && r->Err_0.kind() == ErrorKind::BadImage && r->Err_0.text() == table_failure(
                "source"@,
                ot.source_table_offset,
                ot.source_table_size,
                ot.source_count,
                data@.len(),
            )
        },
{
    if !table_in_file(
        data.len(),
        ot.source_table_offset,
        ot.source_table_size,
        ot.source_count,
        8,
    ) {
        return Err(
            table_error(
                data.len(),
                ot.source_table_offset,
                ot.source_table_size,
                ot.source_count,
                "source",
            ),
        );
    }
    let base: usize = ot.source_table_offset as usize;
    let n: usize = ot.source_count as usize;
    let mut sources: Vec<SourceFileEntry> = Vec::new();
    let ghost whole = sources_at(data@, base as int, n as nat);
    let mut i: usize = 0;
    proof {
        if let Some(rest) = whole {
            assert(source_views(sources@) + rest =~= rest);
        }
    }
    while i < n
        invariant
            table_fits(
                data@,
                ot.source_table_offset,
                ot.source_table_size,
                ot.source_count,
                8,
            ),
            i <= n,
            base + 8 * n <= data.len(),
            base == ot.source_table_offset,
            n == ot.source_count,
            whole == sources_at(data@, base as int, n as nat),
            whole == (match sources_at(data@, base + 8 * i, (n - i) as nat) {
                Some(rest) => Some(source_views(sources@) + rest),
                None => None,
            }),
        decreases n - i,
    {
        let source = read_source(data, base + 8 * i)?;
        let ghost before = source_views(sources@);
        sources.push(source);
        proof {
            let now = source_views(sources@);
            assert(now =~= before.push(source@));
            if let Some(rest) = sources_at(data@, base + 8 * (i + 1), (n - i - 1) as nat) {
                assert(before + (seq![source@] + rest) =~= now + rest);
            }
        }
        i += 1;
    }
    proof {
        assert(source_views(sources@) + Seq::<SourceView>::empty() =~= source_views(sources@));
    }
    Ok(sources)
}

fn read_ids(r: &mut ByteReader, n: u32, ids: &mut Vec<u32>) -> (x: Result<(), Error>)
    ensures
        final(r).data() == old(r).data(),
        match ids_at(old(r).data(), old(r).pos() as int, n as nat) {
            Some((v, end)) => x is Ok && final(ids)@ == old(ids)@ + v && final(r).pos() == end,
            None => x is Err && x->Err_0.kind() == ErrorKind::BadImage,
        },
{
    let ghost s = r.data();
    let ghost whole = ids_at(s, r.pos() as int, n as nat);
    let ghost mut read = Seq::<u32>::empty();
    let mut i: u32 = 0;
    proof {
        assert(ids@ =~= old(ids)@ + read);
        if let Some((rest, end)) = whole {
            assert(read + rest =~= rest);
        }
    }
    while i < n
        invariant
            i <= n,
            r.data() == s,
            s == old(r).data(),
            ids@ == old(ids)@ + read,
            whole == ids_at(s, old(r).pos() as int, n as nat),
            whole == (match ids_at(s, r.pos() as int, (n - i) as nat) {
                Some((rest, end)) => Some((read + rest, end)),
                None => None,
            }),
        decreases n - i,
    {
        let v: i32 = encoding::read_leb128(r)?;
        if v < 0 {
            return Err(Error::bad_image("mdb: malformed compile-unit include"));
        }
        ids.push(v as u32);
        proof {
            let now = read.push(v as u32);
            assert(ids@ =~= old(ids)@ + now);
            if let Some((rest, end)) = ids_at(s, r.pos() as int, (n - i - 1) as nat) {
                assert(read + (seq![v as u32] + rest) =~= now + rest);
            }
            read = now;
        }
        i += 1;
    }
    proof {
        assert(read + Seq::<u32>::empty() =~= read);
    }
    Ok(())
}

fn skip_strings(r: &mut ByteReader, n: u32) -> (x: Result<(), Error>)
    ensures
        final(r).data() == old(r).data(),
        match strings_end(old(r).data(), old(r).pos() as int, n as nat) {
            Some(end) => x is Ok && final(r).pos() == end,
            None => x is Err && x->Err_0.kind() == ErrorKind::BadImage,
        },
{
    let ghost s = r.data();
    let mut i: u32 = 0;
    while i < n
        invariant
            i <= n,
            r.data() == s,
            s == old(r).data(),
            strings_end(s, old(r).pos() as int, n as nat) == strings_end(
                s,
                r.pos() as int,
                (n - i) as nat,
            ),
        decreases n - i,
    {
        let _text = encoding::read_string(r)?;
        i += 1;
    }
    Ok(())
}

fn skip_namespace(r: &mut ByteReader) -> (x: Result<(), Error>)
    ensures
        final(r).data() == old(r).data(),
        match namespace_end(old(r).data(), old(r).pos() as int) {
            Some(end) => x is Ok && final(r).pos() == end,
            None => x is Err && x->Err_0.kind() == ErrorKind::BadImage,
        },
{
    let _name = encoding::read_string(r)?;
    let _index: i32 = encoding::read_leb128(r)?;
    let _parent: i32 = encoding::read_leb128(r)?;
    let using_count: i32 = encoding::read_leb128(r)?;
    if using_count < 0 {
        return Err(Error::bad_image("mdb: malformed using-clause count"));
    }
    skip_strings(r, using_count as u32)
}

fn skip_namespaces(r: &mut ByteReader, n: u32) -> (x: Result<(), Error>)
    ensures
        final(r).data() == old(r).data(),
        match namespaces_end(old(r).data(), old(r).pos() as int, n as nat) {
            Some(end) => x is Ok && final(r).pos() == end,
            None => x is Err && x->Err_0.kind() == ErrorKind::BadImage,
        },
{
    let ghost s = r.data();
    let mut i: u32 = 0;
    while i < n
        invariant
            i <= n,
            r.data() == s,
            s == old(r).data(),
            namespaces_end(s, old(r).pos() as int, n as nat) == namespaces_end(
                s,
                r.pos() as int,
                (n - i) as nat,
            ),
        decreases n - i,
    {
        skip_namespace(r)?;
        i += 1;
    }
    Ok(())
}

fn read_unit(data: &[u8], at: usize) -> (r: Result<CompileUnitEntry, Error>)
    requires
        at + 8 <= data.len(),
    ensures
        match unit_at(data@, at as int) {
            Some(v) => r is Ok && r->Ok_0.file_ids@ == v,
            None => r is Err && r->Err_0.kind() == ErrorKind::BadImage,
        },
{
    let offset: i32 = bytes::as_i32(bytes::get_u32(data, at + 4));
    if offset < 0 || offset as u64 >= data.len() as u64 {
        return Err(
            Error::bad_image(
                Message::new("mdb: compile-unit payload offset ").number(offset as i64).text(
                    " out of bounds",
                ).as_str(),
            ),
        );
    }
    let mut pr = ByteReader::at(data, offset as usize);
    let primary: i32 = encoding::read_leb128(&mut pr)?;
    let include_count: i32 = encoding::read_leb128(&mut pr)?;
    if primary < 0 || include_count < 0 {
        return Err(Error::bad_image("mdb: malformed compile-unit payload"));
    }
    let mut file_ids: Vec<u32> = Vec::new();
    file_ids.push(primary as u32);
    proof {
        assert(file_ids@ =~= seq![primary as u32]);
    }
    read_ids(&mut pr, include_count as u32, &mut file_ids)?;
    let namespace_count: i32 = encoding::read_leb128(&mut pr)?;
    if namespace_count < 0 {
        return Err(Error::bad_image("mdb: malformed namespace count"));
    }
    skip_namespaces(&mut pr, namespace_count as u32)?;
    Ok(CompileUnitEntry { file_ids })
}

fn read_compile_unit_table(data: &[u8], ot: &OffsetTable) -> (r: Result<
    Vec<CompileUnitEntry>,
    Error,
>)
    ensures
        if table_fits(
            data@,
            ot.compile_unit_table_offset,
            ot.compile_unit_table_size,
            ot.compile_unit_count,
            8,
        ) {
            match units_at(
                data@,
                ot.compile_unit_table_offset as int,
                ot.compile_unit_count as nat,
            ) {
                Some(v) => r is Ok && unit_views(r->Ok_0@) == v,
                None => r is Err && r->Err_0.kind() == ErrorKind::BadImage,
            }
        } else {
            r is Err && r->Err_0.kind() == ErrorKind::BadImage && r->Err_0.text() == table_failure(
                "compile-unit"@,
                ot.compile_unit_table_offset,
                ot.compile_unit_table_size,
                ot.compile_unit_count,
                data@.len(),
            )
        },
{
    if !table_in_file(
        data.len(),
        ot.compile_unit_table_offset,
        ot.compile_unit_table_size,
        ot.compile_unit_count,
        8,
    ) {
        return Err(
            table_error(
                data.len(),
                ot.compile_unit_table_offset,
                ot.compile_unit_table_size,
                ot.compile_unit_count,
                "compile-unit",
            ),
        );
    }
    let base: usize = ot.compile_unit_table_offset as usize;
    let n: usize = ot.compile_unit_count as usize;
    let mut units: Vec<CompileUnitEntry> = Vec::new();
    let ghost whole = units_at(data@, base as int, n as nat);
    let mut i: usize = 0;
    proof {
        if let Some(rest) = whole {
            assert(unit_views(units@) + rest =~= rest);
        }
    }
    while i < n
        invariant
            table_fits(
                data@,
                ot.compile_unit_table_offset,
                ot.compile_unit_table_size,
                ot.compile_unit_count,
                8,
            ),
            i <= n,
            base + 8 * n <= data.len(),
            base == ot.compile_unit_table_offset,
            n == ot.compile_unit_count,
            whole == units_at(data@, base as int, n as nat),
            whole == (match units_at(data@, base + 8 * i, (n - i) as nat) {
                Some(rest) => Some(unit_views(units@) + rest),
                None => None,
            }),
        decreases n - i,
    {
        let unit = read_unit(data, base + 8 * i)?;
        let ghost before = unit_views(units@);
        units.push(unit);
        proof {
            let now = unit_views(units@);
            assert(now =~= before.push(unit.file_ids@));
            if let Some(rest) = units_at(data@, base + 8 * (i + 1), (n - i - 1) as nat) {
                assert(before + (seq![unit.file_ids@] + rest) =~= now + rest);
            }
        }
        i += 1;
    }
    proof {
        assert(unit_views(units@) + Seq::<Seq<u32>>::empty() =~= unit_views(units@));
    }
    Ok(units)
}

fn read_method(data: &[u8], at: usize, k: usize) -> (r: Result<MethodRow, Error>)
    requires
        at + 12 <= data.len(),
        k < 0xFFFF_FFFF,
    ensures
        match method_at(data@, at as int, k as int) {
            Some(m) => r is Ok && r->Ok_0 == m,
            None => r is Err && r->Err_0.kind() == ErrorKind::BadImage,
        },
{
    proof {
        reveal_with_fuel(seven_at, 8);
    }
    let token: u32 = bytes::get_u32(data, at);
    let payload: i32 = bytes::as_i32(bytes::get_u32(data, at + 4));
    let line_table: i32 = bytes::as_i32(bytes::get_u32(data, at + 8));
    if payload < 0 || payload as u64 >= data.len() as u64 {
        return Err(
            Error::bad_image(
                Message::new("mdb: method data offset ").number(payload as i64).text(
                    " out of bounds",
                ).as_str(),
            ),
        );
    }
    if line_table < 0 || line_table as u64 >= data.len() as u64 {
        return Err(
            Error::bad_image(
                Message::new("mdb: method line-number-table offset ").number(
                    line_table as i64,
                ).text(" out of bounds").as_str(),
            ),
        );
    }
    let mut pr = ByteReader::at(data, payload as usize);
    let unit: i32 = encoding::read_leb128(&mut pr)?;
    let locals: i32 = encoding::read_leb128(&mut pr)?;
    let namespace_id: i32 = encoding::read_leb128(&mut pr)?;
    let code_blocks: i32 = encoding::read_leb128(&mut pr)?;
    let scope_variables: i32 = encoding::read_leb128(&mut pr)?;
    let real_name: i32 = encoding::read_leb128(&mut pr)?;
    let flags: i32 = encoding::read_leb128(&mut pr)?;
    proof {
        assert(seven_at(data@, payload as int, 7)->Some_0 =~= seq![
            unit,
            locals,
            namespace_id,
            code_blocks,
            scope_variables,
            real_name,
            flags,
        ]);
    }
    if unit < 0 || locals < 0 || namespace_id < 0 || flags < 0 {
        return Err(Error::bad_image("mdb: malformed method data payload"));
    }
    if locals != 0 {
        read_counted_locals(data, locals as usize)?;
    }
    Ok(
        MethodRow {
            entry: MethodEntry {
                row: (k + 1) as u32,
                token: Token(token),
                compile_unit: unit as u32,
                namespace_id: namespace_id as u32,
            },
            line_number_table_offset: line_table as u32,
            local_variable_table_offset: locals as u32,
            flags: flags as u32,
        },
    )
}

fn read_method_table(data: &[u8], ot: &OffsetTable) -> (r: Result<Vec<MethodRow>, Error>)
    ensures
        if table_fits(
            data@,
            ot.method_table_offset,
            ot.method_table_size,
            ot.method_count,
            12,
        ) {
            match methods_from(data@, ot.method_table_offset as int, 0, ot.method_count as int) {
                Some(v) => r is Ok && r->Ok_0@ == v,
                None => r is Err && r->Err_0.kind() == ErrorKind::BadImage,
            }
        } else {
            r is Err && r->Err_0.kind() == ErrorKind::BadImage && r->Err_0.text() == table_failure(
                "method"@,
                ot.method_table_offset,
                ot.method_table_size,
                ot.method_count,
                data@.len(),
            )
        },
{
    if !table_in_file(
        data.len(),
        ot.method_table_offset,
        ot.method_table_size,
        ot.method_count,
        12,
    ) {
        return Err(
            table_error(
                data.len(),
                ot.method_table_offset,
                ot.method_table_size,
                ot.method_count,
                "method",
            ),
        );
    }
    let base: usize = ot.method_table_offset as usize;
    let n: usize = ot.method_count as usize;
    let mut methods: Vec<MethodRow> = Vec::new();
    let ghost whole = methods_from(data@, base as int, 0, n as int);
    let mut i: usize = 0;
    proof {
        if let Some(rest) = whole {
            assert(methods@ + rest =~= rest);
        }
    }
    while i < n
        invariant
            table_fits(
                data@,
                ot.method_table_offset,
                ot.method_table_size,
                ot.method_count,
                12,
            ),
            i <= n,
            n <= 0x7FFF_FFFF,
            base + 12 * n <= data.len(),
            base == ot.method_table_offset,
            n == ot.method_count,
            whole == methods_from(data@, base as int, 0, n as int),
            whole == (match methods_from(data@, base as int, i as int, n as int) {
                Some(rest) => Some(methods@ + rest),
                None => None,
            }),
        decreases n - i,
    {
        let m = read_method(data, base + 12 * i, i)?;
        let ghost before = methods@;
        methods.push(m);
        proof {
            if let Some(rest) = methods_from(data@, base as int, i + 1, n as int) {
                assert(before + (seq![m] + rest) =~= methods@ + rest);
            }
        }
        i += 1;
    }
    proof {
        assert(methods@ + Seq::<MethodRow>::empty() =~= methods@);
    }
    Ok(methods)
}

impl<'a> MdbReader<'a> {
    /// Line-number tables can be decoded with the parameters of the file.
    #[verifier::type_invariant]
    spec fn sound(self) -> bool {
        self.ot.line_number_table_line_range > 0 && self.ot.line_number_table_opcode_base > 0
    }

    /// Parses an MDB symbol file, validating magic, version, and all table
    /// offsets/payloads eagerly.
    pub fn open(bytes: &'a [u8]) -> (r: Result<Self, Error>)
        ensures
            match parsed_mdb(bytes@) {
                Some(v) => r is Ok && r->Ok_0@ == v,
                None => r is Err && r->Err_0.kind() == ErrorKind::BadImage,
            },
            header_failure(bytes@) matches Some(t) ==> r is Err && r->Err_0.text() == t,
    {
        if bytes.len() < HEADER_SIZE + OFFSET_TABLE_SIZE {
            return Err(
                Error::bad_image(
                    Message::new("mdb: file too small (").count(bytes.len() as u64).text(
                        ", need at least ",
                    ).count((HEADER_SIZE + OFFSET_TABLE_SIZE) as u64).text(")").as_str(),
                ),
            );
        }
        let magic: u64 = bytes::get_u64(bytes, 0);
        if magic != MAGIC {
            return Err(
                Error::bad_image(
                    Message::new("mdb: bad magic 0x").hex_padded(magic, 16).text(
                        ", expected 0x",
                    ).hex_padded(MAGIC, 16).as_str(),
                ),
            );
        }
        let major_version: i32 = bytes::as_i32(bytes::get_u32(bytes, 8));
        let minor_version: i32 = bytes::as_i32(bytes::get_u32(bytes, 12));
        if major_version < MAJOR_VERSION {
            return Err(
                Error::bad_image(
                    Message::new("mdb: symbol file has version ").number(
                        major_version as i64,
                    ).text(" but ").number(MAJOR_VERSION as i64).text("+ is required").as_str(),
                ),
            );
        }
        let guid = bytes::get_16(bytes, 16);
        let ot = OffsetTable::read(bytes, 32);
        if ot.line_number_table_line_range <= 0 || ot.line_number_table_opcode_base <= 0 {
            return Err(Error::bad_image("mdb: invalid line-number-table encoding parameters"));
        }
        let sources = read_source_table(bytes, &ot)?;
        let units = read_compile_unit_table(bytes, &ot)?;
        let methods = read_method_table(bytes, &ot)?;
        let reader = MdbReader {
            data: bytes,
            guid,
            major_version,
            minor_version,
            ot,
            sources,
            units,
            methods,
        };
        proof {
            assert(reader@ =~= parsed_mdb(bytes@)->Some_0);
        }
        Ok(reader)
    }

    /// File format major version.
    pub fn major_version(&self) -> (v: i32)
        ensures
            v == self@.major_version,
    {
        self.major_version
    }

    /// File format minor version.
    pub fn minor_version(&self) -> (v: i32)
        ensures
            v == self@.minor_version,
    {
        self.minor_version
    }

    /// Guid of the assembly this symbol file belongs to.
    pub fn guid(&self) -> (g: [u8; 16])
        ensures
            g@ == self@.guid,
    {
        self.guid
    }

    /// The raw offset table.
    pub fn offset_table(&self) -> (t: &OffsetTable)
        ensures
            *t == self@.offsets,
    {
        &self.ot
    }

    /// Every registered source document, in table order.
    pub fn source_files(&self) -> (v: Vec<SourceFileEntry>)
        ensures
            source_views(v@) == self@.sources,
    {
        let n: usize = self.sources.len();
        let mut v: Vec<SourceFileEntry> = Vec::new();
        let mut i: usize = 0;
        while i < n
            invariant
                i <= n,
                n == self.sources@.len(),
                source_views(v@) == source_views(self.sources@).take(i as int),
            decreases n - i,
        {
            let s = &self.sources[i];
            let copy = SourceFileEntry { id: s.id, path: s.path.clone(), hash: s.hash };
            let ghost before = source_views(v@);
            v.push(copy);
            proof {
                assert(copy@ =~= s@);
                assert(source_views(v@) =~= before.push(copy@));
                assert(source_views(v@) =~= source_views(self.sources@).take(i + 1));
            }
            i += 1;
        }
        proof {
            assert(source_views(v@) =~= source_views(self.sources@));
        }
        v
    }

    /// Every compile unit, in table order.
    pub fn compile_units(&self) -> (v: Vec<CompileUnitEntry>)
        ensures
            unit_views(v@) == self@.units,
    {
        let n: usize = self.units.len();
        let mut v: Vec<CompileUnitEntry> = Vec::new();
        let mut i: usize = 0;
        while i < n
            invariant
                i <= n,
                n == self.units@.len(),
                unit_views(v@) == unit_views(self.units@).take(i as int),
            decreases n - i,
        {
            let file_ids = self.units[i].file_ids.clone();
            proof {
                assert(file_ids@ =~= self.units@[i as int].file_ids@);
            }
            let ghost before = unit_views(v@);
            v.push(CompileUnitEntry { file_ids });
            proof {
                assert(unit_views(v@) =~= before.push(file_ids@));
                assert(unit_views(v@) =~= unit_views(self.units@).take(i + 1));
            }
            i += 1;
        }
        proof {
            assert(unit_views(v@) =~= unit_views(self.units@));
        }
        v
    }

    /// Every method entry, in table order (sorted by token).
    pub fn methods(&self) -> (v: Vec<MethodEntry>)
        ensures
            v@ == Seq::new(self@.methods.len(), |k: int| self@.methods[k].entry),
    {
        let n: usize = self.methods.len();
        let mut v: Vec<MethodEntry> = Vec::new();
        let mut i: usize = 0;
        while i < n
            invariant
                i <= n,
                n == self.methods@.len(),
                v@ == Seq::new(i as nat, |k: int| self.methods@[k].entry),
            decreases n - i,
        {
            v.push(self.methods[i].entry);
            proof {
                assert(v@ =~= Seq::new((i + 1) as nat, |k: int| self.methods@[k].entry));
            }
            i += 1;
        }
        proof {
            assert(v@ =~= Seq::new(self@.methods.len(), |k: int| self@.methods[k].entry));
        }
        v
    }

    fn method_row(&self, row: u32) -> (r: Option<&MethodRow>)
        ensures
            match self@.method(row) {
                Some(m) => r is Some && *r->Some_0 == m,
                None => r is None,
            },
    {
        if row == 0 || (row - 1) as usize >= self.methods.len() {
            return None;
        }
        Some(&self.methods[(row - 1) as usize])
    }

    /// Decodes the line-number table of method `row` (1-based, as returned by
    /// [`MdbReader::methods`]).
    ///
    /// Returns `Ok(None)` when the row does not exist or the method carries no
    /// line information.
    pub fn method_lines(&self, row: u32) -> (r: Result<Option<MethodLines>, Error>)
        ensures
            match self@.lines(row) {
                Ok(Some(points)) => r is Ok && r->Ok_0 is Some && r->Ok_0->Some_0.il_offsets@
                    == Seq::new(points.len(), |k: int| points[k].offset)
                    && r->Ok_0->Some_0.line_numbers@ == Seq::new(
                    points.len(),
                    |k: int| points[k].row,
                ),
                Ok(None) => r is Ok && r->Ok_0 is None,
                Err(e) => r is Err && r->Err_0.kind() == e,
            },
    {
        let m = match self.method_row(row) {
            Some(m) => m,
            None => {
                return Ok(None);
            },
        };
        if m.line_number_table_offset == 0 {
            return Ok(None);
        }
        proof {
            use_type_invariant(self);
        }
        let params = LineParams {
            line_base: self.ot.line_number_table_line_base,
            line_range: self.ot.line_number_table_line_range,
            opcode_base: self.ot.line_number_table_opcode_base,
        };
        let entries = lines::decode_line_number_table(
            self.data,
            m.line_number_table_offset as usize,
            &params,
            m.flags,
        )?;
        let n: usize = entries.len();
        let mut il_offsets: Vec<i32> = Vec::new();
        let mut line_numbers: Vec<i32> = Vec::new();
        let mut i: usize = 0;
        while i < n
            invariant
                i <= n,
                n == entries@.len(),
                il_offsets@ == Seq::new(i as nat, |k: int| entries@[k].offset),
                line_numbers@ == Seq::new(i as nat, |k: int| entries@[k].row),
            decreases n - i,
        {
            il_offsets.push(entries[i].offset);
            line_numbers.push(entries[i].row);
            proof {
                assert(il_offsets@ =~= Seq::new((i + 1) as nat, |k: int| entries@[k].offset));
                assert(line_numbers@ =~= Seq::new((i + 1) as nat, |k: int| entries@[k].row));
            }
            i += 1;
        }
        Ok(Some(MethodLines { il_offsets, line_numbers }))
    }

    /// Reads the local-variable records of method `row` (1-based).
    ///
    /// Returns `Ok(None)` when the row does not exist or the method declares
    /// no local-variable table.
    pub fn locals(&self, row: u32) -> (r: Result<Option<Vec<LocalVariableEntry>>, Error>)
        ensures
            match self@.locals(row) {
                Ok(Some(v)) => r is Ok && r->Ok_0 is Some && local_views(r->Ok_0->Some_0@) == v,
                Ok(None) => r is Ok && r->Ok_0 is None,
                Err(e) => r is Err && r->Err_0.kind() == e,
            },
    {
        let m = match self.method_row(row) {
            Some(m) => m,
            None => {
                return Ok(None);
            },
        };
        if m.local_variable_table_offset == 0 {
            return Ok(None);
        }
        Ok(Some(read_counted_locals(self.data, m.local_variable_table_offset as usize)?))
    }
}

fn read_counted_locals(data: &[u8], at: usize) -> (x: Result<Vec<LocalVariableEntry>, Error>)
    ensures
        match counted_locals(data@, at as int) {
            Some(v) => x is Ok && local_views(x->Ok_0@) == v,
            None => x is Err && x->Err_0.kind() == ErrorKind::BadImage,
        },
{
    let mut r = ByteReader::at(data, at);
    let count: i32 = encoding::read_leb128(&mut r)?;
    if count < 0 {
        return Err(Error::bad_image("mdb: malformed local-variable count"));
    }
    read_locals(&mut r, count as u32)
}

fn read_locals(r: &mut ByteReader, n: u32) -> (x: Result<Vec<LocalVariableEntry>, Error>)
    ensures
        match locals_at(old(r).data(), old(r).pos() as int, n as nat) {
            Some(v) => x is Ok && local_views(x->Ok_0@) == v,
            None => x is Err && x->Err_0.kind() == ErrorKind::BadImage,
        },
{
    let ghost s = r.data();
    let ghost whole = locals_at(s, r.pos() as int, n as nat);
    let mut locals: Vec<LocalVariableEntry> = Vec::new();
    let mut i: u32 = 0;
    proof {
        if let Some(rest) = whole {
            assert(local_views(locals@) + rest =~= rest);
        }
    }
    while i < n
        invariant
            i <= n,
            r.data() == s,
            whole == locals_at(s, old(r).pos() as int, n as nat),
            s == old(r).data(),
            whole == (match locals_at(s, r.pos() as int, (n - i) as nat) {
                Some(rest) => Some(local_views(locals@) + rest),
                None => None,
            }),
        decreases n - i,
    {
        let index: i32 = encoding::read_leb128(r)?;
        let name = encoding::read_string(r)?.to_owned();
        let block_index: i32 = encoding::read_leb128(r)?;
        let ghost before = local_views(locals@);
        locals.push(LocalVariableEntry { index, name, block_index });
        proof {
            let v = LocalView { index, name: name@, block_index };
            let now = local_views(locals@);
            assert(now =~= before.push(v));
            if let Some(rest) = locals_at(s, r.pos() as int, (n - i - 1) as nat) {
                assert(before + (seq![v] + rest) =~= now + rest);
            }
        }
        i += 1;
    }
    proof {
        assert(local_views(locals@) + Seq::<LocalView>::empty() =~= local_views(locals@));
    }
    Ok(locals)
}

} // verus!
