//! Portable PDB reader: decodes the debug tables (`0x30`–`0x37`) plus the
//! `#Pdb` heap from a standalone `.pdb` metadata root, using
//! [`crate::metadata::MetadataReader`] for storage access.
//!
//! ```text
//! Document                name blob | hash-algo guid | hash blob | language guid
//! MethodDebugInformation  document  | blob (sequence-point record stream)
//! LocalScope              method | import | var-list | const-list | start | length
//! StateMachineMethod      move-next | kickoff
//! ```

use vstd::prelude::*;

use crate::bytes;
use crate::error::{Error, ErrorKind};
use crate::io;
use crate::io::ByteReader;
use crate::metadata::heaps;
use crate::metadata::reader;
use crate::metadata::reader::{MetadataReader, MetadataView};
use crate::pdb::document;
use crate::pdb::document::{Document, DocumentView};
use crate::pdb::sequence_points;
use crate::text;
use crate::text::Message;
use crate::token;
use crate::token::{TableIndex, Token};

pub use crate::pdb::sequence_points::{SequencePoint, HIDDEN_LINE};

verus! {

broadcast use {crate::bytes::widths, crate::io::compressed_widths};

/// One `LocalScope` table row: an IL range owning variables and constants.
///
/// Field notes:
/// - `try_start` / `try_length` carry the scope IL range (`ScopeStart`,
///   `ScopeLength`) - the only span the format defines.
/// - `handler_start` / `handler_length` are always `-1`; portable PDB rows
///   carry no handler range. They exist so consumers can share code across
///   symbol formats.
/// - `kind` is always `0` for portable PDB scopes.
#[derive(Debug, Clone, PartialEq, Eq)]
pub struct LocalScope {
    /// Owning method as a `MethodDef` token.
    pub method: Token,
    /// 1-based `ImportScope` row rid, or 0 when the scope imports nothing.
    pub import_scope: u32,
    /// 1-based `LocalVariable` row rids owned by this scope, in row order.
    pub variables: Vec<u32>,
    /// 1-based `LocalConstant` row rids owned by this scope, in row order.
    pub constants: Vec<u32>,
    /// Scope kind (always 0 in portable PDB files).
    pub kind: u32,
    /// IL offset where the scope starts.
    pub try_start: i32,
    /// Length in bytes of the scoped IL range.
    pub try_length: i32,
    /// Handler IL offset (always -1 in portable PDB files).
    pub handler_start: i32,
    /// Handler length (always -1 in portable PDB files).
    pub handler_length: i32,
}

/// What a scope says.
#[verifier::ext_equal]
pub struct ScopeView {
    pub method: Token,
    pub import_scope: u32,
    pub variables: Seq<u32>,
    pub constants: Seq<u32>,
    pub kind: u32,
    pub try_start: i32,
    pub try_length: i32,
    pub handler_start: i32,
    pub handler_length: i32,
}

impl View for LocalScope {
    type V = ScopeView;

    open spec fn view(&self) -> ScopeView {
        ScopeView {
            method: self.method,
            import_scope: self.import_scope,
            variables: self.variables@,
            constants: self.constants@,
            kind: self.kind,
            try_start: self.try_start,
            try_length: self.try_length,
            handler_start: self.handler_start,
            handler_length: self.handler_length,
        }
    }
}

/// What scopes say.
pub open spec fn scope_views(scopes: Seq<LocalScope>) -> Seq<ScopeView> {
    Seq::new(scopes.len(), |k: int| scopes[k]@)
}

/// One `LocalVariable` row: a named local slot within a scope.
#[derive(Debug, Clone, PartialEq, Eq)]
pub struct LocalVariableInfo {
    /// Slot index in the method's local signature.
    pub index: u16,
    /// `VariableAttributes` bit flags (e.g. debugger-hidden).
    pub attributes: u16,
    /// Name from the `#Strings` heap.
    pub name: String,
}

/// What a variable says.
#[verifier::ext_equal]
pub struct VariableView {
    pub index: u16,
    pub attributes: u16,
    pub name: Seq<char>,
}

impl View for LocalVariableInfo {
    type V = VariableView;

    open spec fn view(&self) -> VariableView {
        VariableView { index: self.index, attributes: self.attributes, name: self.name@ }
    }
}

/// What variables say.
pub open spec fn variable_views(variables: Seq<LocalVariableInfo>) -> Seq<VariableView> {
    Seq::new(variables.len(), |k: int| variables[k]@)
}

/// One `LocalConstant` row: a compile-time constant visible in a scope.
///
/// The signature blob keeps the constant encoding: the element type byte
/// followed by the value (raw, undecoded).
#[derive(Debug, Clone, PartialEq, Eq)]
pub struct LocalConstantInfo {
    /// Constant name from the `#Strings` heap.
    pub name: String,
    /// Raw signature blob (element type + value bytes).
    pub signature: Vec<u8>,
}

/// What a constant says.
#[verifier::ext_equal]
pub struct ConstantView {
    pub name: Seq<char>,
    pub signature: Seq<u8>,
}

impl View for LocalConstantInfo {
    type V = ConstantView;

    open spec fn view(&self) -> ConstantView {
        ConstantView { name: self.name@, signature: self.signature@ }
    }
}

/// What constants say.
pub open spec fn constant_views(constants: Seq<LocalConstantInfo>) -> Seq<ConstantView> {
    Seq::new(constants.len(), |k: int| constants[k]@)
}

/// The row reference that a cell holds.
pub open spec fn index_of(cell: u64) -> u32 {
    bytes::low32(cell as int)
}

fn to_index(cell: u64) -> (v: u32)
    ensures
        v == index_of(cell),
{
    (cell % 0x1_0000_0000) as u32
}

fn to_short(cell: u64) -> (v: u16)
    ensures
        v == bytes::low16(cell as int),
{
    (cell % 0x1_0000) as u16
}

/// The text of a name segment; a segment with the index zero is empty.
pub open spec fn segment_text(blobs: Seq<u8>, part: u32) -> Option<Seq<char>> {
    if part == 0 {
        Some(Seq::empty())
    } else {
        match heaps::blob_at(blobs, part) {
            None => None,
            Some(b) => text::strict_text(b),
        }
    }
}

/// What stands before a name segment.
pub open spec fn joint(separator: u8, first: bool) -> Seq<char> {
    if first || separator == 0 {
        Seq::empty()
    } else {
        seq![separator as char]
    }
}

/// The name that the segments from `at` on make up.
pub open spec fn name_from(
    blobs: Seq<u8>,
    data: Seq<u8>,
    separator: u8,
    at: int,
    first: bool,
) -> Option<Seq<char>>
    decreases data.len() - at,
{
    if at >= data.len() {
        Some(Seq::empty())
    } else {
        match io::compressed_u32_at(data, at) {
            None => None,
            Some((part, w)) => if w <= 0 {
                None
            } else {
                match (
                    segment_text(blobs, part),
                    name_from(blobs, data, separator, at + w, false),
                ) {
                    (Some(t), Some(rest)) => Some(joint(separator, first) + t + rest),
                    _ => None,
                }
            },
        }
    }
}

/// The name in a document name blob: a separator byte, then compressed
/// `#Blob` indices of UTF-8 segments that are joined with the separator, or
/// directly where that is zero.
pub open spec fn document_name(blobs: Seq<u8>, data: Seq<u8>) -> Option<Seq<char>> {
    if data.len() == 0 {
        None
    } else {
        name_from(blobs, data, data[0], 1, true)
    }
}

/// The document of a row.
pub open spec fn document_at(md: MetadataView, rid: u32) -> Result<DocumentView, ErrorKind> {
    match md.row(TableIndex::Document, rid) {
        Err(e) => Err(e),
        Ok(cells) => {
            let blobs = md.heaps.blob;
            match (
                heaps::blob_at(blobs, index_of(cells[0])),
                heaps::blob_at(blobs, index_of(cells[2])),
            ) {
                (Some(name), Some(hash)) => match document_name(blobs, name) {
                    None => Err(ErrorKind::BadImage),
                    Some(name) => Ok(
                        DocumentView {
                            name,
                            hash_algorithm: heaps::guid_at(md.heaps.guid, index_of(cells[1])),
                            hash,
                            language: heaps::guid_at(md.heaps.guid, index_of(cells[3])),
                        },
                    ),
                },
                _ => Err(ErrorKind::BadImage),
            }
        },
    }
}

/// The documents of the rows behind the first `done`; the first one that
/// cannot be read decides the error.
pub open spec fn documents_from(md: MetadataView, done: u32) -> Result<
    Seq<DocumentView>,
    ErrorKind,
>
    decreases md.rows(TableIndex::Document) - done,
{
    if done >= md.rows(TableIndex::Document) {
        Ok(Seq::empty())
    } else {
        match document_at(md, (done + 1) as u32) {
            Err(e) => Err(e),
            Ok(d) => match documents_from(md, (done + 1) as u32) {
                Err(e) => Err(e),
                Ok(rest) => Ok(seq![d] + rest),
            },
        }
    }
}

/// What is said of a method that has no row.
pub open spec fn outside_methods(md: MetadataView, rid: u32) -> Seq<char> {
    "method rid "@ + text::decimal(rid as nat) + " outside MethodDebugInformation ("@
        + text::decimal(md.rows(TableIndex::MethodDebugInformation) as nat) + " rows)"@
}

/// The sequence points of a method: the document that they start in and the
/// points with their documents, or none where the row has no blob.
pub open spec fn points_at(md: MetadataView, rid: u32) -> Result<
    Option<(u32, Seq<(SequencePoint, u32)>)>,
    ErrorKind,
> {
    if rid == 0 || rid > md.rows(TableIndex::MethodDebugInformation) {
        Err(ErrorKind::Argument)
    } else {
        match md.row(TableIndex::MethodDebugInformation, rid) {
            Err(e) => Err(e),
            Ok(cells) => if index_of(cells[1]) == 0 {
                Ok(None)
            } else {
                match heaps::blob_at(md.heaps.blob, index_of(cells[1])) {
                    None => Err(ErrorKind::BadImage),
                    Some(data) => match sequence_points::decoded_points(
                        data,
                        index_of(cells[0]),
                    ) {
                        None => Err(ErrorKind::BadImage),
                        Some(points) => Ok(Some(points)),
                    },
                }
            },
        }
    }
}

/// The rows of another table that a row owns, as a start and a length: up to
/// where the next row's run starts, or to the end of the table.
pub open spec fn list_range(
    md: MetadataView,
    table: TableIndex,
    target: TableIndex,
    rid: u32,
    col: int,
) -> Result<(u32, u32), ErrorKind> {
    match md.cell(table, rid, col) {
        Err(e) => Err(e),
        Ok(cell) => {
            let start = index_of(cell);
            if start == 0 {
                Ok((0u32, 0u32))
            } else {
                let next = if rid == md.rows(table) {
                    Ok(bytes::low32(md.rows(target) + 1))
                } else {
                    match md.cell(table, (rid + 1) as u32, col) {
                        Err(e) => Err(e),
                        Ok(c) => Ok(index_of(c)),
                    }
                };
                match next {
                    Err(e) => Err(e),
                    Ok(next) => if next < start {
                        Err(ErrorKind::BadImage)
                    } else {
                        Ok((start, (next - start) as u32))
                    },
                }
            }
        },
    }
}

/// Consecutive numbers.
pub open spec fn run(range: (u32, u32)) -> Seq<u32> {
    Seq::new(range.1 as nat, |k: int| (range.0 + k) as u32)
}

/// The scope of a row whose method cell is known.
pub open spec fn scope_at(md: MetadataView, rid: u32, cells: Seq<u64>) -> Result<
    ScopeView,
    ErrorKind,
> {
    match list_range(md, TableIndex::LocalScope, TableIndex::LocalVariable, rid, 2) {
        Err(e) => Err(e),
        Ok(variables) => match list_range(
            md,
            TableIndex::LocalScope,
            TableIndex::LocalConstant,
            rid,
            3,
        ) {
            Err(e) => Err(e),
            Ok(constants) => Ok(
                ScopeView {
                    method: token::token_of(TableIndex::MethodDef, index_of(cells[0])),
                    import_scope: index_of(cells[1]),
                    variables: run(variables),
                    constants: run(constants),
                    kind: 0,
                    try_start: bytes::i32_of(index_of(cells[4])),
                    try_length: bytes::i32_of(index_of(cells[5])),
                    handler_start: (-1) as i32,
                    handler_length: (-1) as i32,
                },
            ),
        },
    }
}

/// The scopes of a method in the rows behind the first `done`.
pub open spec fn scopes_from(md: MetadataView, method: u32, done: u32) -> Result<
    Seq<ScopeView>,
    ErrorKind,
>
    decreases md.rows(TableIndex::LocalScope) - done,
{
    if done >= md.rows(TableIndex::LocalScope) {
        Ok(Seq::empty())
    } else {
        let rid = (done + 1) as u32;
        match md.row(TableIndex::LocalScope, rid) {
            Err(e) => Err(e),
            Ok(cells) => if index_of(cells[0]) != method {
                scopes_from(md, method, rid)
            } else {
                match scope_at(md, rid, cells) {
                    Err(e) => Err(e),
                    Ok(scope) => match scopes_from(md, method, rid) {
                        Err(e) => Err(e),
                        Ok(rest) => Ok(seq![scope] + rest),
                    },
                }
            },
        }
    }
}

/// The variable of a row.
pub open spec fn variable_at(md: MetadataView, rid: u32) -> Result<VariableView, ErrorKind> {
    match md.row(TableIndex::LocalVariable, rid) {
        Err(e) => Err(e),
        Ok(cells) => match heaps::string_at(md.heaps.strings, index_of(cells[2])) {
            None => Err(ErrorKind::BadImage),
            Some(name) => Ok(
                VariableView {
                    index: bytes::low16(cells[1] as int),
                    attributes: bytes::low16(cells[0] as int),
                    name,
                },
            ),
        },
    }
}

/// The variables of the rows, from the `k`-th of them on.
pub open spec fn variables_from(md: MetadataView, rids: Seq<u32>, k: int) -> Result<
    Seq<VariableView>,
    ErrorKind,
>
    decreases rids.len() - k,
{
    if k < 0 || k >= rids.len() {
        Ok(Seq::empty())
    } else {
        match variable_at(md, rids[k]) {
            Err(e) => Err(e),
            Ok(v) => match variables_from(md, rids, k + 1) {
                Err(e) => Err(e),
                Ok(rest) => Ok(seq![v] + rest),
            },
        }
    }
}

/// The constant of a row.
pub open spec fn constant_at(md: MetadataView, rid: u32) -> Result<ConstantView, ErrorKind> {
    match md.row(TableIndex::LocalConstant, rid) {
        Err(e) => Err(e),
        Ok(cells) => match (
            heaps::string_at(md.heaps.strings, index_of(cells[0])),
            heaps::blob_at(md.heaps.blob, index_of(cells[1])),
        ) {
            (Some(name), Some(signature)) => Ok(ConstantView { name, signature }),
            _ => Err(ErrorKind::BadImage),
        },
    }
}

/// The constants of the rows, from the `k`-th of them on.
pub open spec fn constants_from(md: MetadataView, rids: Seq<u32>, k: int) -> Result<
    Seq<ConstantView>,
    ErrorKind,
>
    decreases rids.len() - k,
{
    if k < 0 || k >= rids.len() {
        Ok(Seq::empty())
    } else {
        match constant_at(md, rids[k]) {
            Err(e) => Err(e),
            Ok(v) => match constants_from(md, rids, k + 1) {
                Err(e) => Err(e),
                Ok(rest) => Ok(seq![v] + rest),
            },
        }
    }
}

/// The kick-off method of the first readable row behind the first `done` whose
/// move-next method is the one asked for.
pub open spec fn kickoff_from(md: MetadataView, method: u32, done: u32) -> Option<u32>
    decreases md.rows(TableIndex::StateMachineMethod) - done,
{
    if done >= md.rows(TableIndex::StateMachineMethod) {
        None
    } else {
        match md.row(TableIndex::StateMachineMethod, (done + 1) as u32) {
            Ok(cells) if index_of(cells[0]) == method => Some(index_of(cells[1])),
            _ => kickoff_from(md, method, (done + 1) as u32),
        }
    }
}

/// What a portable PDB says, or that the bytes are none: a metadata root with a
/// `#Pdb` heap.
pub open spec fn parsed_portable(s: Seq<u8>) -> Result<MetadataView, ErrorKind> {
    match reader::parsed_metadata(s) {
        Err(e) => Err(e),
        Ok(md) => if md.heaps.pdb is None {
            Err(ErrorKind::BadImage)
        } else {
            Ok(md)
        },
    }
}

/// Reader over one portable PDB file: a metadata root carrying the debug
/// tables and the `#Pdb` heap.
#[derive(Debug)]
pub struct PortablePdbReader<'a> {
    md: MetadataReader<'a>,
}

impl<'a> View for PortablePdbReader<'a> {
    type V = MetadataView;

    closed spec fn view(&self) -> MetadataView {
        self.md@
    }
}

/// A row that was read has a cell for each column.
proof fn row_length(md: MetadataView, table: TableIndex, rid: u32, col: int)
    requires
        0 <= col <= md.columns(table),
    ensures
        md.row_from(table, rid, col) matches Ok(cells) ==> cells.len() == md.columns(table) - col,
    decreases md.columns(table) - col,
{
    if col < md.columns(table) {
        row_length(md, table, rid, col + 1);
    }
}

fn run_of(range: (u32, u32)) -> (v: Vec<u32>)
    requires
        range.0 + range.1 <= u32::MAX,
    ensures
        v@ == run(range),
{
    let mut v: Vec<u32> = Vec::new();
    let mut k: u32 = 0;
    while k < range.1
        invariant
            k <= range.1,
            range.0 + range.1 <= u32::MAX,
            v@ == run(range).take(k as int),
        decreases range.1 - k,
    {
        v.push(range.0 + k);
        proof {
            assert(v@ =~= run(range).take(k + 1));
        }
        k += 1;
    }
    proof {
        assert(run(range).take(k as int) =~= run(range));
    }
    v
}

impl<'a> PortablePdbReader<'a> {
    #[verifier::type_invariant]
    spec fn has_id(self) -> bool {
        self.md@.heaps.pdb matches Some(p) && p.id.len() == 20
    }

    /// Parses a standalone portable PDB image.
    ///
    /// Returns an error when the bytes are not a metadata root or lack the
    /// mandatory `#Pdb` heap.
    pub fn parse(pdb_bytes: &'a [u8]) -> (r: Result<Self, Error>)
        ensures
            match parsed_portable(pdb_bytes@) {
                Ok(md) => r is Ok && r->Ok_0@ == md,
                Err(e) => r is Err && r->Err_0.kind() == e,
            },
    {
        let md = MetadataReader::parse(pdb_bytes)?;
        if md.heaps().pdb.is_none() {
            return Err(Error::bad_image("not a portable pdb: missing #Pdb heap"));
        }
        Ok(PortablePdbReader { md })
    }

    /// The underlying metadata reader (tables + heaps).
    pub fn metadata(&self) -> (md: &MetadataReader<'a>)
        ensures
            md@ == self@,
    {
        &self.md
    }

    /// The 20-byte PDB id (16-byte content GUID + 4-byte unauthenticated
    /// hash) from the `#Pdb` heap.
    pub fn pdb_id(&self) -> (id: [u8; 20])
        ensures
            self@.heaps.pdb matches Some(p) && id@ == p.id,
    {
        proof {
            use_type_invariant(self);
        }
        let mut id: [u8; 20] = [0u8;20];
        match &self.md.heaps().pdb {
            Some(heap) => {
                let b = heap.id();
                let mut i: usize = 0;
                while i < 20
                    invariant
                        i <= 20,
                        b@.len() == 20,
                        forall|k: int| 0 <= k < i ==> id@[k] == b@[k],
                    decreases 20 - i,
                {
                    id[i] = b[i];
                    i += 1;
                }
                proof {
                    assert(id@ =~= b@);
                }
            },
            None => {},
        }
        id
    }

    /// Entry point method token recorded in the `#Pdb` heap (the nil token for
    /// libraries).
    pub fn entry_point(&self) -> (t: Token)
        ensures
            self@.heaps.pdb matches Some(p) && t == Token(p.entry_point),
    {
        proof {
            use_type_invariant(self);
        }
        match &self.md.heaps().pdb {
            Some(heap) => Token(heap.entry_point()),
            None => Token(0),
        }
    }

    /// The PDB as text: its version and how many documents it has.
    pub fn display(&self) -> (t: String)
        ensures
            t@ == "portable pdb ("@ + self@.version + ", "@ + text::decimal(
                self@.rows(TableIndex::Document) as nat,
            ) + " documents)"@,
    {
        let mut t: String = "portable pdb (".to_owned();
        text::push_text(&mut t, self.md.version_string());
        text::push_text(&mut t, ", ");
        text::push_decimal(&mut t, self.md.row_count(TableIndex::Document) as u64);
        text::push_text(&mut t, " documents)");
        t
    }

    fn blob(&self, cell: u64) -> (r: Result<&'a [u8], Error>)
        ensures
            match heaps::blob_at(self@.heaps.blob, index_of(cell)) {
                Some(b) => r is Ok && r->Ok_0@ == b,
                None => r is Err && r->Err_0.kind() == ErrorKind::BadImage,
            },
    {
        self.md.heaps().blob.get(to_index(cell))
    }

    /// Reads every `Document` row in table order.
    pub fn documents(&self) -> (r: Result<Vec<Document>, Error>)
        ensures
            match documents_from(self@, 0) {
                Ok(v) => r is Ok && document::document_views(r->Ok_0@) == v,
                Err(e) => r is Err && r->Err_0.kind() == e,
            },
    {
        let n: u32 = self.md.row_count(TableIndex::Document);
        let mut done: Vec<Document> = Vec::new();
        let mut i: u32 = 0;
        proof {
            assert(document::document_views(done@) =~= Seq::<DocumentView>::empty());
            if let Ok(rest) = documents_from(self@, 0) {
                assert(document::document_views(done@) + rest =~= rest);
            }
        }
        while i < n
            invariant
                i <= n,
                n == self@.rows(TableIndex::Document),
                documents_from(self@, 0) == (match documents_from(self@, i) {
                    Ok(rest) => Ok(document::document_views(done@) + rest),
                    Err(e) => Err(e),
                }),
            decreases n - i,
        {
            let ghost before = document::document_views(done@);
            let d = self.document(i + 1)?;
            let ghost view = d@;
            done.push(d);
            proof {
                let now = document::document_views(done@);
                assert(now =~= before.push(view));
                if let Ok(rest) = documents_from(self@, (i + 1) as u32) {
                    assert(before + (seq![view] + rest) =~= now + rest);
                }
            }
            i += 1;
        }
        proof {
            assert(document::document_views(done@) + Seq::<DocumentView>::empty()
                =~= document::document_views(done@));
        }
        Ok(done)
    }

    /// Reads one `Document` row (1-based rid).
    ///
    /// The name blob decodes as a separator byte followed by compressed
    /// `#Blob` indices naming path segments.
    pub fn document(&self, rid: u32) -> (r: Result<Document, Error>)
        requires
            self@.shape.has(TableIndex::Document.number() as int),
        ensures
            match document_at(self@, rid) {
                Ok(v) => r is Ok && r->Ok_0@ == v,
                Err(e) => r is Err && r->Err_0.kind() == e,
            },
    {
        let cells = self.md.row(TableIndex::Document, rid)?;
        proof {
            row_length(self@, TableIndex::Document, rid, 0);
        }
        let name_data = self.blob(cells[0])?;
        let hash_data = self.blob(cells[2])?;
        let name = self.decode_document_name(name_data)?;
        let hash_algorithm = self.md.heaps().guid.get(to_index(cells[1]))?;
        let language = self.md.heaps().guid.get(to_index(cells[3]))?;
        let mut hash: Vec<u8> = Vec::new();
        bytes::append(&mut hash, hash_data);
        proof {
            assert(hash@ =~= hash_data@);
        }
        Ok(Document { name, hash_algorithm, hash, language })
    }

    fn decode_document_name(&self, data: &[u8]) -> (r: Result<String, Error>)
        ensures
            match document_name(self@.heaps.blob, data@) {
                Some(t) => r is Ok && r->Ok_0@ == t,
                None => r is Err && r->Err_0.kind() == ErrorKind::BadImage,
            },
    {
        let ghost blobs = self@.heaps.blob;
        let mut r = ByteReader::new(data);
        let separator: u8 = r.u8()?;
        let mut name = String::new();
        let mut first: bool = true;
        proof {
            if let Some(rest) = name_from(blobs, data@, separator, 1, true) {
                assert(name@ + rest =~= rest);
            }
        }
        while r.remaining() > 0
            invariant
                r.data() == data@,
                blobs == self@.heaps.blob,
                document_name(blobs, data@) == (match name_from(
                    blobs,
                    data@,
                    separator,
                    r.pos() as int,
                    first,
                ) {
                    Some(rest) => Some(name@ + rest),
                    None => None,
                }),
            decreases data@.len() - r.pos(),
        {
            let ghost before = name@;
            let ghost was_first = first;
            if !first && separator != 0 {
                text::push_char(&mut name, separator as char);
            }
            first = false;
            let part: u32 = r.compressed_u32()?;
            if part != 0 {
                match text::from_utf8(self.blob(part as u64)?) {
                    Ok(t) => {
                        text::push_text(&mut name, t);
                    },
                    Err(_) => {
                        return Err(Error::bad_image("document name segment is not utf-8"));
                    },
                }
            }
            proof {
                let t = segment_text(blobs, part)->Some_0;
                assert(name@ =~= before + joint(separator, was_first) + t);
                if let Some(rest) = name_from(blobs, data@, separator, r.pos() as int, false) {
                    assert(before + (joint(separator, was_first) + t + rest) =~= name@ + rest);
                }
            }
        }
        proof {
            assert(name@ + Seq::<char>::empty() =~= name@);
        }
        Ok(name)
    }

    fn decode_sequence_points(&self, method_rid: u32) -> (r: Result<
        Option<(u32, Vec<SequencePoint>, Vec<u32>)>,
        Error,
    >)
        ensures
            match points_at(self@, method_rid) {
                Err(e) => r is Err && r->Err_0.kind() == e,
                Ok(None) => r is Ok && r->Ok_0 is None,
                Ok(Some((document, points))) => r is Ok && (r->Ok_0 matches Some(v) && v.0
                    == document && v.1@ == sequence_points::just_points(points) && v.2@
                    == sequence_points::just_documents(points)),
            },
            !(1 <= method_rid <= self@.rows(TableIndex::MethodDebugInformation))
                ==> r->Err_0.text() == outside_methods(self@, method_rid),
    {
        let count: u32 = self.md.row_count(TableIndex::MethodDebugInformation);
        if method_rid == 0 || method_rid > count {
            return Err(
                Error::argument(
                    Message::new("method rid ").count(method_rid as u64).text(
                        " outside MethodDebugInformation (",
                    ).count(count as u64).text(" rows)").as_str(),
                ),
            );
        }
        let cells = self.md.row(TableIndex::MethodDebugInformation, method_rid)?;
        proof {
            row_length(self@, TableIndex::MethodDebugInformation, method_rid, 0);
        }
        if to_index(cells[1]) == 0 {
            return Ok(None);
        }
        let data = self.blob(cells[1])?;
        Ok(Some(sequence_points::decode_points(data, to_index(cells[0]))?))
    }

    /// Decodes the sequence points of one method (1-based
    /// `MethodDebugInformation` rid).
    ///
    /// Returns `None` when the row exists but carries no information blob.
    /// The tuple's rid is the document the stream starts in; individual
    /// points may switch documents mid-stream (query
    /// [`Self::sequence_point_documents`] for the per-point mapping).
    pub fn sequence_points(&self, method_rid: u32) -> (r: Result<
        Option<(u32, Vec<SequencePoint>)>,
        Error,
    >)
        ensures
            match points_at(self@, method_rid) {
                Err(e) => r is Err && r->Err_0.kind() == e,
                Ok(None) => r is Ok && r->Ok_0 is None,
                Ok(Some((document, points))) => r is Ok && (r->Ok_0 matches Some(v) && v.0
                    == document && v.1@ == sequence_points::just_points(points)),
            },
            !(1 <= method_rid <= self@.rows(TableIndex::MethodDebugInformation))
                ==> r->Err_0.text() == outside_methods(self@, method_rid),
    {
        match self.decode_sequence_points(method_rid)? {
            None => Ok(None),
            Some((document, points, _)) => Ok(Some((document, points))),
        }
    }

    /// Per-point document rids aligned with
    /// [`Self::sequence_points`]' vector (empty when there are no points).
    ///
    /// A `MethodDebugInformation` stream can switch documents between
    /// records, so each point carries its own document reference.
    pub fn sequence_point_documents(&self, method_rid: u32) -> (r: Result<Vec<u32>, Error>)
        ensures
            match points_at(self@, method_rid) {
                Err(e) => r is Err && r->Err_0.kind() == e,
                Ok(None) => r is Ok && r->Ok_0@ == Seq::<u32>::empty(),
                Ok(Some((document, points))) => r is Ok && r->Ok_0@
                    == sequence_points::just_documents(points),
            },
            !(1 <= method_rid <= self@.rows(TableIndex::MethodDebugInformation))
                ==> r->Err_0.text() == outside_methods(self@, method_rid),
    {
        match self.decode_sequence_points(method_rid)? {
            None => Ok(Vec::new()),
            Some((_, _, documents)) => Ok(documents),
        }
    }

    /// List-range resolution: a row's run extends until the next row's start
    /// index (or the target table's end for the final row).
    fn read_list_range(&self, table: TableIndex, target: TableIndex, rid: u32, col: usize) -> (r:
        Result<(u32, u32), Error>)
        ensures
            match list_range(self@, table, target, rid, col as int) {
                Ok(v) => r is Ok && r->Ok_0 == v && v.0 + v.1 <= u32::MAX,
                Err(e) => r is Err && r->Err_0.kind() == e,
            },
    {
        let start: u32 = to_index(self.md.column(table, rid, col)?);
        if start == 0 {
            return Ok((0, 0));
        }
        let next: u32 = if rid == self.md.row_count(table) {
            bytes::as_wrapped_u32(self.md.row_count(target) as i64 + 1)
        } else {
            to_index(self.md.column(table, rid + 1, col)?)
        };
        if next < start {
            return Err(
                Error::bad_image(
                    Message::new("corrupt list range in table ").text(table.name()).text(
                        ": start ",
                    ).count(start as u64).text(" beyond end ").count(next as u64).as_str(),
                ),
            );
        }
        Ok((start, next - start))
    }

    fn read_scope(&self, rid: u32, cells: &Vec<u64>) -> (r: Result<LocalScope, Error>)
        requires
            cells@.len() == 6,
        ensures
            match scope_at(self@, rid, cells@) {
                Ok(v) => r is Ok && r->Ok_0@ == v,
                Err(e) => r is Err && r->Err_0.kind() == e,
            },
    {
        let variables = self.read_list_range(
            TableIndex::LocalScope,
            TableIndex::LocalVariable,
            rid,
            2,
        )?;
        let constants = self.read_list_range(
            TableIndex::LocalScope,
            TableIndex::LocalConstant,
            rid,
            3,
        )?;
        Ok(
            LocalScope {
                method: Token::new(TableIndex::MethodDef, to_index(cells[0])),
                import_scope: to_index(cells[1]),
                variables: run_of(variables),
                constants: run_of(constants),
                kind: 0,
                try_start: bytes::as_i32(to_index(cells[4])),
                try_length: bytes::as_i32(to_index(cells[5])),
                handler_start: -1,
                handler_length: -1,
            },
        )
    }

    /// Reads every `LocalScope` row belonging to the given method
    /// (1-based `MethodDef` rid), in table order.
    pub fn local_scopes(&self, method_rid: u32) -> (r: Result<Vec<LocalScope>, Error>)
        ensures
            match scopes_from(self@, method_rid, 0) {
                Ok(v) => r is Ok && scope_views(r->Ok_0@) == v,
                Err(e) => r is Err && r->Err_0.kind() == e,
            },
    {
        let n: u32 = self.md.row_count(TableIndex::LocalScope);
        let mut done: Vec<LocalScope> = Vec::new();
        let mut i: u32 = 0;
        proof {
            assert(scope_views(done@) =~= Seq::<ScopeView>::empty());
            if let Ok(rest) = scopes_from(self@, method_rid, 0) {
                assert(scope_views(done@) + rest =~= rest);
            }
        }
        while i < n
            invariant
                i <= n,
                n == self@.rows(TableIndex::LocalScope),
                scopes_from(self@, method_rid, 0) == (match scopes_from(self@, method_rid, i) {
                    Ok(rest) => Ok(scope_views(done@) + rest),
                    Err(e) => Err(e),
                }),
            decreases n - i,
        {
            let cells = self.md.row(TableIndex::LocalScope, i + 1)?;
            proof {
                row_length(self@, TableIndex::LocalScope, (i + 1) as u32, 0);
            }
            if to_index(cells[0]) == method_rid {
                let ghost before = scope_views(done@);
                let scope = self.read_scope(i + 1, &cells)?;
                let ghost view = scope@;
                done.push(scope);
                proof {
                    let now = scope_views(done@);
                    assert(now =~= before.push(view));
                    if let Ok(rest) = scopes_from(self@, method_rid, (i + 1) as u32) {
                        assert(before + (seq![view] + rest) =~= now + rest);
                    }
                }
            }
            i += 1;
        }
        proof {
            assert(scope_views(done@) + Seq::<ScopeView>::empty() =~= scope_views(done@));
        }
        Ok(done)
    }

    fn local_variable(&self, rid: u32) -> (r: Result<LocalVariableInfo, Error>)
        requires
            self@.shape.has(TableIndex::LocalVariable.number() as int),
        ensures
            match variable_at(self@, rid) {
                Ok(v) => r is Ok && r->Ok_0@ == v,
                Err(e) => r is Err && r->Err_0.kind() == e,
            },
    {
        let cells = self.md.row(TableIndex::LocalVariable, rid)?;
        proof {
            row_length(self@, TableIndex::LocalVariable, rid, 0);
        }
        let name = self.md.heaps().strings.get(to_index(cells[2]))?;
        Ok(
            LocalVariableInfo {
                attributes: to_short(cells[0]),
                index: to_short(cells[1]),
                name: name.to_owned(),
            },
        )
    }

    /// Reads the `LocalVariable` rows referenced by `scope`, in rid order.
    pub fn local_variables(&self, scope: &LocalScope) -> (r: Result<
        Vec<LocalVariableInfo>,
        Error,
    >)
        requires
            scope@.variables.len() > 0 ==> self@.shape.has(
                TableIndex::LocalVariable.number() as int,
            ),
        ensures
            match variables_from(self@, scope@.variables, 0) {
                Ok(v) => r is Ok && variable_views(r->Ok_0@) == v,
                Err(e) => r is Err && r->Err_0.kind() == e,
            },
    {
        let n: usize = scope.variables.len();
        let mut done: Vec<LocalVariableInfo> = Vec::new();
        let mut i: usize = 0;
        proof {
            assert(variable_views(done@) =~= Seq::<VariableView>::empty());
            if let Ok(rest) = variables_from(self@, scope@.variables, 0) {
                assert(variable_views(done@) + rest =~= rest);
            }
        }
        while i < n
            invariant
                i <= n,
                n == scope.variables@.len(),
                n > 0 ==> self@.shape.has(TableIndex::LocalVariable.number() as int),
                variables_from(self@, scope@.variables, 0) == (match variables_from(
                    self@,
                    scope@.variables,
                    i as int,
                ) {
                    Ok(rest) => Ok(variable_views(done@) + rest),
                    Err(e) => Err(e),
                }),
            decreases n - i,
        {
            let ghost before = variable_views(done@);
            let v = self.local_variable(scope.variables[i])?;
            let ghost view = v@;
            done.push(v);
            proof {
                let now = variable_views(done@);
                assert(now =~= before.push(view));
                if let Ok(rest) = variables_from(self@, scope@.variables, i + 1) {
                    assert(before + (seq![view] + rest) =~= now + rest);
                }
            }
            i += 1;
        }
        proof {
            assert(variable_views(done@) + Seq::<VariableView>::empty() =~= variable_views(
                done@,
            ));
        }
        Ok(done)
    }

    fn local_constant(&self, rid: u32) -> (r: Result<LocalConstantInfo, Error>)
        requires
            self@.shape.has(TableIndex::LocalConstant.number() as int),
        ensures
            match constant_at(self@, rid) {
                Ok(v) => r is Ok && r->Ok_0@ == v,
                Err(e) => r is Err && r->Err_0.kind() == e,
            },
    {
        let cells = self.md.row(TableIndex::LocalConstant, rid)?;
        proof {
            row_length(self@, TableIndex::LocalConstant, rid, 0);
        }
        let name = self.md.heaps().strings.get(to_index(cells[0]))?;
        let data = self.blob(cells[1])?;
        let mut signature: Vec<u8> = Vec::new();
        bytes::append(&mut signature, data);
        proof {
            assert(signature@ =~= data@);
        }
        Ok(LocalConstantInfo { name: name.to_owned(), signature })
    }

    /// Reads the `LocalConstant` rows referenced by `scope`, in rid order.
    pub fn local_constants(&self, scope: &LocalScope) -> (r: Result<
        Vec<LocalConstantInfo>,
        Error,
    >)
        requires
            scope@.constants.len() > 0 ==> self@.shape.has(
                TableIndex::LocalConstant.number() as int,
            ),
        ensures
            match constants_from(self@, scope@.constants, 0) {
                Ok(v) => r is Ok && constant_views(r->Ok_0@) == v,
                Err(e) => r is Err && r->Err_0.kind() == e,
            },
    {
        let n: usize = scope.constants.len();
        let mut done: Vec<LocalConstantInfo> = Vec::new();
        let mut i: usize = 0;
        proof {
            assert(constant_views(done@) =~= Seq::<ConstantView>::empty());
            if let Ok(rest) = constants_from(self@, scope@.constants, 0) {
                assert(constant_views(done@) + rest =~= rest);
            }
        }
        while i < n
            invariant
                i <= n,
                n == scope.constants@.len(),
                n > 0 ==> self@.shape.has(TableIndex::LocalConstant.number() as int),
                constants_from(self@, scope@.constants, 0) == (match constants_from(
                    self@,
                    scope@.constants,
                    i as int,
                ) {
                    Ok(rest) => Ok(constant_views(done@) + rest),
                    Err(e) => Err(e),
                }),
            decreases n - i,
        {
            let ghost before = constant_views(done@);
            let v = self.local_constant(scope.constants[i])?;
            let ghost view = v@;
            done.push(v);
            proof {
                let now = constant_views(done@);
                assert(now =~= before.push(view));
                if let Ok(rest) = constants_from(self@, scope@.constants, i + 1) {
                    assert(before + (seq![view] + rest) =~= now + rest);
                }
            }
            i += 1;
        }
        proof {
            assert(constant_views(done@) + Seq::<ConstantView>::empty() =~= constant_views(
                done@,
            ));
        }
        Ok(done)
    }

    /// Returns the kick-off (async/iterator entry) method rid registered
    /// for `method_rid` in the `StateMachineMethod` table, if any.
    ///
    /// Rows map each `MoveNextMethod` rid to its `KickoffMethod` rid, and
    /// lookups go move-next → kick-off.
    pub fn state_machine_kickoff(&self, method_rid: u32) -> (r: Option<u32>)
        ensures
            r == kickoff_from(self@, method_rid, 0),
    {
        let n: u32 = self.md.row_count(TableIndex::StateMachineMethod);
        let mut i: u32 = 0;
        while i < n
            invariant
                i <= n,
                n == self@.rows(TableIndex::StateMachineMethod),
                kickoff_from(self@, method_rid, 0) == kickoff_from(self@, method_rid, i),
            decreases n - i,
        {
            match self.md.row(TableIndex::StateMachineMethod, i + 1) {
                Ok(cells) => {
                    proof {
                        row_length(self@, TableIndex::StateMachineMethod, (i + 1) as u32, 0);
                    }
                    if to_index(cells[0]) == method_rid {
                        return Some(to_index(cells[1]));
                    }
                },
                Err(_) => {},
            }
            i += 1;
        }
        None
    }
}

} // verus!
