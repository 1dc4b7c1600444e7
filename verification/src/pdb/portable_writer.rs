//! Portable PDB writer: builds the debug tables (`0x30`–`0x37`) plus the `#Pdb`
//! heap and serializes them into a standalone BSJB metadata root that
//! [`crate::pdb::portable_reader::PortablePdbReader`] reads.
//!
//! Layout summary:
//!
//! ```text
//! Document                name blob | hash-algo guid | hash blob | language guid
//! MethodDebugInformation  document  | blob (sequence-point record stream)
//! LocalScope              method | import | var-list | const-list | start | length
//! LocalVariable           attributes | index | name
//! LocalConstant           name | signature blob
//! ImportScope             parent | imports blob
//! ```
//!
//! The `MethodDebugInformation` table is kept rid-aligned with the module's
//! `MethodDef` table: registering a method without sequence points emits an
//! empty row so later methods keep their rid.

use vstd::prelude::*;

use crate::bytes;
use crate::error::{Error, ErrorKind};
use crate::io;
use crate::io::ByteWriter;
use crate::metadata::builder;
use crate::metadata::builder::{BuilderModel, HeapModel, MetadataBuilder, PdbModel};
use crate::metadata::tables;
use crate::pdb::sequence_points;
use crate::pdb::sequence_points::SequencePoint;
use crate::text;
use crate::text::Message;
use crate::token;
use crate::token::{CodedGroup, TableIndex, Token};

pub use crate::pdb::sequence_points::encode_sequence_points;

verus! {

broadcast use {crate::bytes::widths, crate::io::compressed_widths};

/// Handle to a row in the `Document` table (1-based rid).
#[derive(Debug, Clone, Copy, PartialEq, Eq, Hash)]
pub struct DocumentHandle(pub u32);

/// Handle to a row in the `LocalScope` table (1-based rid).
#[derive(Debug, Clone, Copy, PartialEq, Eq, Hash)]
pub struct ScopeHandle(pub u32);

/// One `MethodDebugInformation` slot.
#[derive(Debug, Clone)]
struct MethodDebugEntry {
    /// `Document` rid recorded in the row's document column (0 = none).
    document_rid: u32,
    /// Raw sequence points, encoded into a blob at finalize time.
    points: Option<Vec<SequencePoint>>,
    /// Stand-alone signature rid written as the blob's leading token
    /// (readers skip it).
    local_sig_rid: u32,
}

/// What is known of a method.
#[verifier::ext_equal]
pub struct SlotModel {
    pub document: u32,
    pub points: Option<Seq<SequencePoint>>,
    pub signature: u32,
}

spec fn slot_model(e: Option<MethodDebugEntry>) -> Option<SlotModel> {
    match e {
        None => None,
        Some(e) => Some(
            SlotModel {
                document: e.document_rid,
                points: match e.points {
                    Some(p) => Some(p@),
                    None => None,
                },
                signature: e.local_sig_rid,
            },
        ),
    }
}

spec fn slot_models(slots: Seq<Option<MethodDebugEntry>>) -> Seq<Option<SlotModel>> {
    Seq::new(slots.len(), |k: int| slot_model(slots[k]))
}

/// The cells of buffered rows.
pub open spec fn row_models<const N: usize>(rows: Seq<[u64; N]>) -> Seq<Seq<u64>> {
    Seq::new(rows.len(), |k: int| rows[k]@)
}

spec fn name_models(names: Seq<String>) -> Seq<Seq<char>> {
    Seq::new(names.len(), |k: int| names[k]@)
}

/// What a portable PDB builder has been given.
#[verifier::ext_equal]
pub struct PortableModel {
    pub metadata: BuilderModel,
    /// The names of the documents, in row order.
    pub names: Seq<Seq<char>>,
    pub document_rows: Seq<Seq<u64>>,
    pub import_rows: Seq<Seq<u64>>,
    pub variable_rows: Seq<Seq<u64>>,
    pub constant_rows: Seq<Seq<u64>>,
    pub scope_rows: Seq<Seq<u64>>,
    pub custom_rows: Seq<Seq<u64>>,
    /// What is known of the method with the rid one above the index.
    pub slots: Seq<Option<SlotModel>>,
    pub entry_point: Token,
    pub pdb_id: Seq<u8>,
    pub module_guid: Option<Seq<u8>>,
}

/// Builder accumulating a module's portable-PDB debug information and
/// serializing it into standalone `.pdb` bytes.
///
/// Rows are buffered in insertion order and flushed deterministically at
/// [`PortablePdbBuilder::finalize`]; heap entries are interned eagerly so
/// duplicate names, hashes, and GUIDs fold.
#[derive(Debug)]
pub struct PortablePdbBuilder {
    metadata: MetadataBuilder,
    /// The names of the documents, in row order.
    documents: Vec<String>,
    document_rows: Vec<[u64; 4]>,
    import_scope_rows: Vec<[u64; 2]>,
    variable_rows: Vec<[u64; 3]>,
    constant_rows: Vec<[u64; 2]>,
    scope_rows: Vec<[u64; 6]>,
    /// Buffered `CustomDebugInformation` rows, in `add` order.
    cdi_rows: Vec<[u64; 3]>,
    /// Debug-information slots of the `MethodDef` rids from one on.
    method_debug: Vec<Option<MethodDebugEntry>>,
    entry_point: Token,
    pdb_id: [u8; 20],
    module_guid: Option<[u8; 16]>,
}

impl View for PortablePdbBuilder {
    type V = PortableModel;

    closed spec fn view(&self) -> PortableModel {
        PortableModel {
            metadata: self.metadata@,
            names: name_models(self.documents@),
            document_rows: row_models(self.document_rows@),
            import_rows: row_models(self.import_scope_rows@),
            variable_rows: row_models(self.variable_rows@),
            constant_rows: row_models(self.constant_rows@),
            scope_rows: row_models(self.scope_rows@),
            custom_rows: row_models(self.cdi_rows@),
            slots: slot_models(self.method_debug@),
            entry_point: self.entry_point,
            pdb_id: self.pdb_id@,
            module_guid: match self.module_guid {
                Some(g) => Some(g@),
                None => None,
            },
        }
    }
}

/// A builder that has been given nothing.
pub open spec fn fresh_portable(version: Seq<char>) -> PortableModel {
    PortableModel {
        metadata: builder::fresh_model(version),
        names: Seq::empty(),
        document_rows: Seq::empty(),
        import_rows: Seq::empty(),
        variable_rows: Seq::empty(),
        constant_rows: Seq::empty(),
        scope_rows: Seq::empty(),
        custom_rows: Seq::empty(),
        slots: Seq::empty(),
        entry_point: Token(0),
        pdb_id: bytes::zero_bytes(20),
        module_guid: None,
    }
}

/// How often a character occurs.
pub open spec fn occurrences(t: Seq<char>, c: char) -> nat
    decreases t.len(),
{
    if t.len() == 0 {
        0
    } else {
        occurrences(t.drop_last(), c) + if t.last() == c {
            1nat
        } else {
            0nat
        }
    }
}

/// The dominant path separator of a document name: `/` unless `\` occurs more
/// often; none where neither occurs.
pub open spec fn separator_of(name: Seq<char>) -> Option<char> {
    let unix = occurrences(name, '/');
    let win = occurrences(name, '\\');
    if unix == 0 && win == 0 {
        None
    } else if unix >= win {
        Some('/')
    } else {
        Some('\\')
    }
}

/// The parts of a text between the separators.
pub open spec fn split(t: Seq<char>, separator: char) -> Seq<Seq<char>>
    decreases t.len(),
{
    if t.len() == 0 {
        seq![Seq::empty()]
    } else {
        let front = split(t.drop_last(), separator);
        if t.last() == separator {
            front.push(Seq::empty())
        } else {
            front.update(front.len() - 1, front.last().push(t.last()))
        }
    }
}

/// The segments of a document name.
pub open spec fn segments(name: Seq<char>) -> Seq<Seq<char>> {
    match separator_of(name) {
        None => seq![name],
        Some(c) => split(name, c),
    }
}

/// The blob heap and the indexes of the first `n` segments, after these were
/// inserted.
pub open spec fn with_segments(blobs: HeapModel, parts: Seq<Seq<char>>, n: nat) -> (
    HeapModel,
    Seq<u32>,
)
    decreases n,
{
    if n == 0 {
        (blobs, Seq::empty())
    } else {
        let (before, indexes) = with_segments(blobs, parts, (n - 1) as nat);
        let (after, index) = before.with_blob(text::utf8(parts[n - 1]));
        (after, indexes.push(index))
    }
}

/// Compressed indexes.
pub open spec fn index_parts(indexes: Seq<u32>) -> Seq<Seq<u8>> {
    Seq::new(indexes.len(), |k: int| io::compressed_u32_bytes(indexes[k]))
}

/// The separator of a document name, as a byte; zero where there is none.
pub open spec fn separator_byte(name: Seq<char>) -> u8 {
    match separator_of(name) {
        None => 0,
        Some(c) => if c == '/' {
            0x2F
        } else {
            0x5C
        },
    }
}

/// The document name blob: the separator, then the indexes of the segments.
pub open spec fn name_blob(name: Seq<char>, indexes: Seq<u32>) -> Seq<u8> {
    seq![separator_byte(name)] + bytes::joined(index_parts(indexes))
}

/// The blob heap and the index of a document name, after this was inserted.
pub open spec fn with_name(blobs: HeapModel, name: Seq<char>) -> (HeapModel, u32) {
    let parts = segments(name);
    let (after, indexes) = with_segments(blobs, parts, parts.len());
    after.with_blob(name_blob(name, indexes))
}

/// The first document with the name, from the `k`-th one on.
pub open spec fn name_place(names: Seq<Seq<char>>, name: Seq<char>, k: int) -> Option<int>
    decreases names.len() - k,
{
    if k < 0 || k >= names.len() {
        None
    } else if names[k] == name {
        Some(k)
    } else {
        name_place(names, name, k + 1)
    }
}

/// The slots, as many as there are methods up to the rid.
pub open spec fn padded(slots: Seq<Option<SlotModel>>, rid: u32) -> Seq<Option<SlotModel>> {
    if slots.len() >= rid {
        slots
    } else {
        slots + Seq::new((rid - slots.len()) as nat, |k: int| None)
    }
}

/// What is known of a method of which nothing is.
pub open spec fn empty_slot() -> SlotModel {
    SlotModel { document: 0, points: None, signature: 0 }
}

/// What is known of the method with the rid.
pub open spec fn slot_of(slots: Seq<Option<SlotModel>>, rid: u32) -> SlotModel {
    if 1 <= rid <= slots.len() {
        match slots[rid - 1] {
            Some(s) => s,
            None => empty_slot(),
        }
    } else {
        empty_slot()
    }
}

/// The rid of a method token.
pub open spec fn method_rid_of(method: Token) -> Option<u32> {
    if method.table_number() == TableIndex::MethodDef.number() && method.row() != 0 {
        Some(method.row())
    } else {
        None
    }
}

/// The IL offsets start at zero or above and go up from point to point.
pub open spec fn offsets_valid(points: Seq<SequencePoint>) -> bool {
    forall|k: int|
        #![trigger points[k]]
        0 <= k < points.len() ==> points[k].offset >= 0 && (k > 0 ==> points[k].offset
            > points[k - 1].offset)
}

/// The `k`-th point is behind the one before it, and not before zero.
pub open spec fn offset_valid(points: Seq<SequencePoint>, k: int) -> bool {
    points[k].offset >= 0 && (k > 0 ==> points[k].offset > points[k - 1].offset)
}

/// The text is that about the first point whose offset is not valid.
pub open spec fn about_offsets(points: Seq<SequencePoint>, t: Seq<char>) -> bool {
    exists|k: int|
        0 <= k < points.len() && !(#[trigger] offset_valid(points, k)) && (forall|j: int|
            0 <= j < k ==> #[trigger] offset_valid(points, j)) && t == (if points[k].offset < 0 {
            "negative IL offset "@ + text::signed_decimal(points[k].offset as int)
                + " in sequence points"@
        } else {
            "sequence points must be ordered by IL offset"@
        })
}

/// The variables to add, as `(slot index, name, attributes)`.
pub open spec fn variable_models(variables: Seq<(u16, String, u32)>) -> Seq<(u16, Seq<char>, u32)> {
    Seq::new(variables.len(), |k: int| (variables[k].0, variables[k].1@, variables[k].2))
}

/// The constants to add, as `(name, signature)`.
pub open spec fn constant_models(constants: Seq<(&str, &[u8])>) -> Seq<(Seq<char>, Seq<u8>)> {
    Seq::new(constants.len(), |k: int| (constants[k].0@, constants[k].1@))
}

/// The encoded parent of a custom debug information row.
pub open spec fn owner_cell(parent: Token, members: Seq<TableIndex>, tag: int) -> Option<u64>
    decreases members.len() - tag,
{
    if tag < 0 || tag >= members.len() {
        None
    } else if members[tag].number() == parent.table_number() {
        Some(
            tables::coded_cell(CodedGroup::HasCustomDebugInformation.bits(), tag, parent.row()),
        )
    } else {
        owner_cell(parent, members, tag + 1)
    }
}

impl PortableModel {
    /// Rows can be added to the metadata.
    pub open spec fn sound(self) -> bool {
        self.metadata.sound() && self.names.len() == self.document_rows.len()
    }

    /// The model after a document with a new name was added.
    pub open spec fn with_document(
        self,
        name: Seq<char>,
        hash_algorithm: Seq<u8>,
        hash: Seq<u8>,
        language: Seq<u8>,
    ) -> PortableModel {
        let (named, name_index) = with_name(self.metadata.blobs, name);
        let (guids, algorithm_index) = self.metadata.guids.with_guid(hash_algorithm);
        let (blobs, hash_index) = named.with_blob(hash);
        let (guids, language_index) = guids.with_guid(language);
        PortableModel {
            metadata: BuilderModel { blobs, guids, ..self.metadata },
            names: self.names.push(name),
            document_rows: self.document_rows.push(
                seq![
                    name_index as u64,
                    algorithm_index as u64,
                    hash_index as u64,
                    language_index as u64,
                ],
            ),
            ..self
        }
    }

    /// The model with what is known of a method replaced.
    pub open spec fn with_slot(self, rid: u32, slot: SlotModel) -> PortableModel {
        PortableModel { slots: padded(self.slots, rid).update(rid - 1, Some(slot)), ..self }
    }

    /// The model after an import scope was added.
    pub open spec fn with_import(self, parent: u32, imports: Seq<u8>) -> PortableModel {
        let (blobs, index) = self.metadata.blobs.with_blob(imports);
        PortableModel {
            metadata: BuilderModel { blobs, ..self.metadata },
            import_rows: self.import_rows.push(seq![parent as u64, index as u64]),
            ..self
        }
    }

    /// The model after the first `n` variables were added.
    pub open spec fn with_variables(
        self,
        variables: Seq<(u16, Seq<char>, u32)>,
        n: nat,
    ) -> PortableModel
        decreases n,
    {
        if n == 0 {
            self
        } else {
            let before = self.with_variables(variables, (n - 1) as nat);
            let (index, name, attributes) = variables[n - 1];
            let (strings, name_index) = before.metadata.strings.with_string(name);
            PortableModel {
                metadata: BuilderModel { strings, ..before.metadata },
                variable_rows: before.variable_rows.push(
                    seq![
                        bytes::low16(attributes as int) as u64,
                        index as u64,
                        name_index as u64,
                    ],
                ),
                ..before
            }
        }
    }

    /// The model after the first `n` constants were added.
    pub open spec fn with_constants(
        self,
        constants: Seq<(Seq<char>, Seq<u8>)>,
        n: nat,
    ) -> PortableModel
        decreases n,
    {
        if n == 0 {
            self
        } else {
            let before = self.with_constants(constants, (n - 1) as nat);
            let (name, signature) = constants[n - 1];
            let (strings, name_index) = before.metadata.strings.with_string(name);
            let (blobs, signature_index) = before.metadata.blobs.with_blob(signature);
            PortableModel {
                metadata: BuilderModel { strings, blobs, ..before.metadata },
                constant_rows: before.constant_rows.push(
                    seq![name_index as u64, signature_index as u64],
                ),
                ..before
            }
        }
    }

    /// The model after a scope with its variables and constants was added.
    pub open spec fn with_scope(
        self,
        method: u32,
        import_scope: u32,
        variables: Seq<(u16, Seq<char>, u32)>,
        constants: Seq<(Seq<char>, Seq<u8>)>,
        start_offset: i32,
        length: i32,
    ) -> PortableModel {
        let m = self.with_variables(variables, variables.len()).with_constants(
            constants,
            constants.len(),
        );
        PortableModel {
            scope_rows: m.scope_rows.push(
                seq![
                    method as u64,
                    import_scope as u64,
                    bytes::low32((self.variable_rows.len() + 1) as int) as u64,
                    bytes::low32((self.constant_rows.len() + 1) as int) as u64,
                    bytes::u32_of(start_offset) as u64,
                    bytes::u32_of(length) as u64,
                ],
            ),
            ..m
        }
    }

    /// The model after a custom debug information row was added.
    pub open spec fn with_custom(self, cell: u64, kind: Seq<u8>, value: Seq<u8>) -> PortableModel {
        let (guids, kind_index) = self.metadata.guids.with_guid(kind);
        let (blobs, value_index) = self.metadata.blobs.with_blob(value);
        PortableModel {
            metadata: BuilderModel { blobs, guids, ..self.metadata },
            custom_rows: self.custom_rows.push(
                seq![bytes::low32(cell as int) as u64, kind_index as u64, value_index as u64],
            ),
            ..self
        }
    }
}

/// A model with rows added to a table.
pub open spec fn with_rows(md: BuilderModel, table: TableIndex, rows: Seq<Seq<u64>>) -> BuilderModel {
    let i = table.number() as int;
    BuilderModel { rows: md.rows.update(i, md.rows[i] + rows), ..md }
}

/// The metadata after the first `n` method rows were added.
pub open spec fn with_methods(md: BuilderModel, slots: Seq<Option<SlotModel>>, n: nat) -> BuilderModel
    decreases n,
{
    if n == 0 {
        md
    } else {
        with_method(with_methods(md, slots, (n - 1) as nat), slots[n - 1])
    }
}

/// The metadata after a method row was added: the document, and the blob of
/// its points where it has any.
pub open spec fn with_method(md: BuilderModel, slot: Option<SlotModel>) -> BuilderModel {
    match slot {
        None => md.with_row(TableIndex::MethodDebugInformation, seq![0u64, 0u64]),
        Some(s) => match s.points {
            Some(points) if points.len() > 0 => {
                let (blobs, index) = md.blobs.with_blob(
                    sequence_points::encoded_points(s.signature, points),
                );
                BuilderModel { blobs, ..md }.with_row(
                    TableIndex::MethodDebugInformation,
                    seq![s.document as u64, index as u64],
                )
            },
            _ => md.with_row(
                TableIndex::MethodDebugInformation,
                seq![s.document as u64, 0u64],
            ),
        },
    }
}

/// The points of every method can be written.
pub open spec fn slots_encodable(slots: Seq<Option<SlotModel>>) -> bool {
    forall|k: int| 0 <= k < slots.len() ==> slot_encodable(#[trigger] slots[k])
}

/// The points of a method can be written.
pub open spec fn slot_encodable(slot: Option<SlotModel>) -> bool {
    slot matches Some(s) ==> (s.points matches Some(points)
        ==> sequence_points::all_encodable(points))
}

/// The tables that have rows, from the first `n`, with how many.
pub open spec fn populated(md: BuilderModel, n: nat) -> Seq<(u8, u32)>
    decreases n,
{
    if n == 0 {
        Seq::empty()
    } else {
        let front = populated(md, (n - 1) as nat);
        if token::is_table_number((n - 1) as u8) && md.counts()[n - 1] > 0 {
            front.push(((n - 1) as u8, md.counts()[n - 1]))
        } else {
            front
        }
    }
}

impl PortableModel {
    /// The metadata with the mandatory module row.
    pub open spec fn with_module(self) -> BuilderModel {
        if self.metadata.counts()[TableIndex::Module.number() as int] == 0 {
            let (guids, index) = self.metadata.guids.with_guid(
                match self.module_guid {
                    Some(g) => g,
                    None => bytes::zero_bytes(16),
                },
            );
            BuilderModel { guids, ..self.metadata }.with_row(
                TableIndex::Module,
                seq![0u64, 0u64, index as u64, 0u64, 0u64],
            )
        } else {
            self.metadata
        }
    }

    /// The metadata with all rows.
    pub open spec fn with_tables(self) -> BuilderModel {
        let m = with_methods(self.with_module(), self.slots, self.slots.len());
        let m = with_rows(m, TableIndex::Document, self.document_rows);
        let m = with_rows(m, TableIndex::ImportScope, self.import_rows);
        let m = with_rows(m, TableIndex::LocalVariable, self.variable_rows);
        let m = with_rows(m, TableIndex::LocalConstant, self.constant_rows);
        let m = with_rows(m, TableIndex::LocalScope, self.scope_rows);
        with_rows(m, TableIndex::CustomDebugInformation, self.custom_rows)
    }

    /// The metadata with all rows and the `#Pdb` heap.
    pub open spec fn finished(self) -> BuilderModel {
        let m = self.with_tables();
        BuilderModel {
            pdb: Some(
                PdbModel {
                    id: self.pdb_id,
                    entry_point: self.entry_point.0,
                    table_counts: builder::sorted_by_table(populated(m, 0x38)),
                },
            ),
            ..m
        }
    }
}

fn count_char(t: &Vec<char>, c: char) -> (n: usize)
    ensures
        n == occurrences(t@, c),
{
    let len: usize = t.len();
    let mut n: usize = 0;
    let mut i: usize = 0;
    proof {
        assert(t@.take(0) =~= Seq::<char>::empty());
    }
    while i < len
        invariant
            n <= i <= len,
            len == t@.len(),
            n == occurrences(t@.take(i as int), c),
        decreases len - i,
    {
        proof {
            assert(t@.take(i + 1).drop_last() =~= t@.take(i as int));
            assert(t@.take(i + 1).last() == t@[i as int]);
        }
        if t[i] == c {
            n += 1;
        }
        i += 1;
    }
    proof {
        assert(t@.take(len as int) =~= t@);
    }
    n
}

/// Picks the dominant path separator of a document name (ties favor `/`; names
/// without either separator yield `None`).
pub fn document_name_separator(name: &str) -> (r: Option<char>)
    ensures
        r == separator_of(name@),
{
    let chars = text::chars_of(name);
    let unix: usize = count_char(&chars, '/');
    let win: usize = count_char(&chars, '\\');
    if unix == 0 && win == 0 {
        None
    } else if unix >= win {
        Some('/')
    } else {
        Some('\\')
    }
}

/// Extracts the 1-based `MethodDef` rid from a method token.
fn method_rid(method: Token) -> (r: Result<u32, Error>)
    ensures
        match method_rid_of(method) {
            Some(rid) => r is Ok && r->Ok_0 == rid && 1 <= rid <= 0xFF_FFFF,
            None => r is Err && r->Err_0.kind() == ErrorKind::Argument && r->Err_0.text() == "0x"@
                + text::hex_digits(method.0, 8) + " is not a MethodDef token"@,
        },
{
    if method.table_byte() != TableIndex::MethodDef.to_u8() || method.rid() == 0 {
        return Err(
            Error::argument(
                Message::new("0x").upper_hex(method.0, 8).text(
                    " is not a MethodDef token",
                ).as_str(),
            ),
        );
    }
    Ok(method.rid())
}

/// Validates that offsets are usable as compressed deltas: non-negative and
/// strictly ascending, as a delta of zero marks a change of document.
fn validate_offsets(points: &[SequencePoint]) -> (r: Result<(), Error>)
    ensures
        if offsets_valid(points@) {
            r is Ok
        } else {
            r is Err && r->Err_0.kind() == ErrorKind::Argument && about_offsets(
                points@,
                r->Err_0.text(),
            )
        },
{
    let n: usize = points.len();
    let mut i: usize = 0;
    while i < n
        invariant
            i <= n,
            n == points@.len(),
            forall|k: int|
                #![trigger points@[k]]
                0 <= k < i ==> points@[k].offset >= 0 && (k > 0 ==> points@[k].offset
                    > points@[k - 1].offset),
            forall|j: int| 0 <= j < i ==> #[trigger] offset_valid(points@, j),
        decreases n - i,
    {
        let ghost here = offset_valid(points@, i as int);
        if points[i].offset < 0 {
            return Err(
                Error::argument(
                    Message::new("negative IL offset ").number(points[i].offset as i64).text(
                        " in sequence points",
                    ).as_str(),
                ),
            );
        }
        if i > 0 && points[i].offset <= points[i - 1].offset {
            return Err(Error::argument("sequence points must be ordered by IL offset"));
        }
        i += 1;
    }
    Ok(())
}

/// Adds the rows to the table.
fn add_rows<const N: usize>(md: &mut MetadataBuilder, table: TableIndex, rows: &Vec<[u64; N]>)
    requires
        old(md)@.sound(),
        tables::schema(table).len() == N,
    ensures
        final(md)@ == with_rows(old(md)@, table, row_models(rows@)),
        final(md)@.sound(),
{
    let ghost before = md@;
    let ghost i_table = table.number() as int;
    let ghost all = row_models(rows@);
    let n: usize = rows.len();
    let mut i: usize = 0;
    proof {
        assert(before.rows[i_table] + all.take(0) =~= before.rows[i_table]);
        assert(before.rows.update(i_table, before.rows[i_table]) =~= before.rows);
        assert(md@ =~= with_rows(before, table, all.take(0)));
    }
    while i < n
        invariant
            i <= n,
            n == rows@.len(),
            all == row_models(rows@),
            i_table == table.number() as int,
            before.rows.len() == 0x38,
            md@.sound(),
            tables::schema(table).len() == N,
            md@ == with_rows(before, table, all.take(i as int)),
        decreases n - i,
    {
        let ghost was = md@;
        let _ = md.add_row(table, vstd::array::array_as_slice(&rows[i]));
        proof {
            assert(all.take(i + 1) =~= all.take(i as int).push(all[i as int]));
            assert((before.rows[i_table] + all.take(i as int)).push(all[i as int])
                =~= before.rows[i_table] + all.take(i + 1));
            assert(md@.rows =~= with_rows(before, table, all.take(i + 1)).rows);
        }
        i += 1;
    }
    proof {
        assert(all.take(n as int) =~= all);
    }
}

/// Adds the row of a method.
fn add_method(md: &mut MetadataBuilder, slot: &Option<MethodDebugEntry>) -> (r: Result<(), Error>)
    requires
        old(md)@.sound(),
    ensures
        if slot_encodable(slot_model(*slot)) {
            r is Ok && final(md)@ == with_method(old(md)@, slot_model(*slot)) && final(md)@.sound()
        } else {
            r is Err && r->Err_0.kind() == ErrorKind::Argument
        },
{
    let mut cells: [u64; 2] = [0u64, 0u64];
    match slot {
        None => {},
        Some(e) => {
            cells[0] = e.document_rid as u64;
            match &e.points {
                None => {},
                Some(points) => {
                    if points.len() > 0 {
                        let blob = sequence_points::encode_sequence_points(
                            e.local_sig_rid,
                            points.as_slice(),
                        )?;
                        cells[1] = md.insert_blob(blob.as_slice()) as u64;
                    }
                },
            }
        },
    }
    let ghost before = md@;
    let _ = md.add_row(TableIndex::MethodDebugInformation, vstd::array::array_as_slice(&cells));
    proof {
        assert(cells@ =~= seq![cells@[0], cells@[1]]);
    }
    Ok(())
}

impl PortablePdbBuilder {
    /// Creates an empty builder emitting the default runtime version string
    /// (`v4.0.30319`).
    pub fn new() -> (b: Self)
        ensures
            b@ == fresh_portable("v4.0.30319"@),
            b@.sound(),
    {
        PortablePdbBuilder::with_version("v4.0.30319")
    }

    /// Creates an empty builder emitting `version` as the metadata root's
    /// runtime version string.
    pub fn with_version(version: &str) -> (b: Self)
        ensures
            b@ == fresh_portable(version@),
            b@.sound(),
    {
        let b = PortablePdbBuilder {
            metadata: MetadataBuilder::new(version),
            documents: Vec::new(),
            document_rows: Vec::new(),
            import_scope_rows: Vec::new(),
            variable_rows: Vec::new(),
            constant_rows: Vec::new(),
            scope_rows: Vec::new(),
            cdi_rows: Vec::new(),
            method_debug: Vec::new(),
            entry_point: Token(0),
            pdb_id: [0u8;20],
            module_guid: None,
        };
        proof {
            let f = fresh_portable(version@);
            assert(b@.names =~= f.names);
            assert(b@.document_rows =~= f.document_rows);
            assert(b@.import_rows =~= f.import_rows);
            assert(b@.variable_rows =~= f.variable_rows);
            assert(b@.constant_rows =~= f.constant_rows);
            assert(b@.scope_rows =~= f.scope_rows);
            assert(b@.custom_rows =~= f.custom_rows);
            assert(b@.slots =~= f.slots);
            assert(b@.pdb_id =~= f.pdb_id);
        }
        b
    }

    /// Adds a source document, returning its handle.
    ///
    /// Documents with identical names fold onto the same row.
    /// `hash_algorithm` and `language` are GUID bytes (SHA-1/SHA-256
    /// algorithm and source-language GUIDs); `hash` is the raw file hash.
    ///
    /// The name is encoded as a document-name blob: a separator byte followed
    /// by compressed `#Blob` indices of the path segments. The dominant of `/`
    /// and `\` becomes the separator; names without either are stored whole.
    pub fn add_document(
        &mut self,
        name: &str,
        hash_algorithm: [u8; 16],
        hash: &[u8],
        language: [u8; 16],
    ) -> (handle: DocumentHandle)
        requires
            old(self)@.sound(),
        ensures
            final(self)@.sound(),
            match name_place(old(self)@.names, name@, 0) {
                Some(k) => handle.0 == bytes::low32(k + 1) && final(self)@ == old(self)@,
                None => handle.0 == bytes::low32((old(self)@.names.len() + 1) as int) && final(self)@ == old(
                    self,
                )@.with_document(name@, hash_algorithm@, hash@, language@),
            },
    {
        let ghost before = self@;
        let n: usize = self.documents.len();
        let mut i: usize = 0;
        while i < n
            invariant
                i <= n,
                n == self.documents@.len(),
                before == self@,
                before.sound(),
                *self == *old(self),
                name_place(before.names, name@, 0) == name_place(before.names, name@, i as int),
            decreases n - i,
        {
            proof {
                assert(before.names[i as int] == self.documents@[i as int]@);
            }
            if text::same(self.documents[i].as_str(), name) {
                return DocumentHandle(bytes::as_low32(i + 1));
            }
            i += 1;
        }
        let name_blob: u32 = self.insert_document_name(name);
        let hash_algorithm_guid: u32 = self.metadata.insert_guid(&hash_algorithm);
        let hash_blob: u32 = self.metadata.insert_blob(hash);
        let language_guid: u32 = self.metadata.insert_guid(&language);
        let row: [u64; 4] = [
            name_blob as u64,
            hash_algorithm_guid as u64,
            hash_blob as u64,
            language_guid as u64,
        ];
        let ghost cells = row@;
        self.document_rows.push(row);
        self.documents.push(name.to_owned());
        proof {
            let after = before.with_document(name@, hash_algorithm@, hash@, language@);
            assert(cells =~= seq![
                name_blob as u64,
                hash_algorithm_guid as u64,
                hash_blob as u64,
                language_guid as u64,
            ]);
            assert(self@.names =~= after.names);
            assert(self@.document_rows =~= after.document_rows);
        }
        DocumentHandle(bytes::as_low32(self.documents.len()))
    }

    /// Encodes a document name into a fresh `#Blob` entry and returns its
    /// index. Empty path segments are recorded as compressed zeroes.
    fn insert_document_name(&mut self, name: &str) -> (index: u32)
        requires
            old(self)@.sound(),
        ensures
            final(self)@ == (PortableModel {
                metadata: BuilderModel {
                    blobs: with_name(old(self)@.metadata.blobs, name@).0,
                    ..old(self)@.metadata
                },
                ..old(self)@
            }),
            index == with_name(old(self)@.metadata.blobs, name@).1,
            final(self)@.sound(),
            final(self).documents == old(self).documents,
            final(self).document_rows == old(self).document_rows,
    {
        let ghost before = self@.metadata.blobs;
        let parts = segments_of(name);
        let ghost all = name_models(parts@);
        let n: usize = parts.len();
        let mut w = ByteWriter::new();
        w.u8(
            match document_name_separator(name) {
                None => 0,
                Some(c) => if c == '/' {
                    0x2F
                } else {
                    0x5C
                },
            },
        );
        let ghost head = w@;
        let ghost mut indexes: Seq<u32> = Seq::empty();
        let mut i: usize = 0;
        proof {
            assert(head + bytes::joined(index_parts(indexes)) =~= head);
        }
        while i < n
            invariant
                i <= n,
                n == parts@.len(),
                all == name_models(parts@),
                self@.sound(),
                self@ == (PortableModel {
                    metadata: BuilderModel {
                        blobs: with_segments(before, all, i as nat).0,
                        ..old(self)@.metadata
                    },
                    ..old(self)@
                }),
                indexes == with_segments(before, all, i as nat).1,
                w@ == head + bytes::joined(index_parts(indexes)),
                self.documents == old(self).documents,
                self.document_rows == old(self).document_rows,
            decreases n - i,
        {
            let index: u32 = self.metadata.insert_blob(parts[i].as_str().as_bytes());
            w.compressed_u32(index);
            proof {
                let now = indexes.push(index);
                assert(index_parts(now).drop_last() =~= index_parts(indexes));
                assert(w@ =~= head + bytes::joined(index_parts(now)));
                indexes = now;
            }
            i += 1;
        }
        proof {
            assert(head =~= seq![separator_byte(name@)]);
            assert(w@ =~= name_blob(name@, indexes));
        }
        self.metadata.insert_blob(w.as_slice())
    }

    /// Extends the slots so that the method with the rid has one.
    fn reserve(&mut self, rid: u32)
        ensures
            final(self)@ == (PortableModel { slots: padded(old(self)@.slots, rid), ..old(self)@ }),
            final(self).method_debug@.len() >= rid,
    {
        let ghost start = self@.slots;
        let ghost known = self.method_debug@;
        proof {
            assert(known + Seq::new(0, |k: int| None::<MethodDebugEntry>) =~= known);
        }
        while self.method_debug.len() < rid as usize
            invariant
                start == slot_models(known),
                self.method_debug@ == known + Seq::new(
                    (self.method_debug@.len() - known.len()) as nat,
                    |k: int| None::<MethodDebugEntry>,
                ),
                known.len() <= self.method_debug@.len(),
                known.len() == self.method_debug@.len() || self.method_debug@.len() <= rid,
                self@ == (PortableModel { slots: self@.slots, ..old(self)@ }),
            decreases rid - self.method_debug@.len(),
        {
            self.method_debug.push(None);
            proof {
                assert(self.method_debug@ =~= known + Seq::new(
                    (self.method_debug@.len() - known.len()) as nat,
                    |k: int| None::<MethodDebugEntry>,
                ));
            }
        }
        proof {
            assert(self@.slots =~= padded(start, rid));
        }
    }

    /// Registers the sequence points of one method.
    ///
    /// `doc` must be a handle returned by [`Self::add_document`]; every point
    /// of the method records against it (the single-document form). Points
    /// must be ordered by strictly ascending IL offsets. Hidden points
    /// ([`SequencePoint::is_hidden`]) encode as the two-zero-record sentinel.
    ///
    /// Calling again for the same method replaces its points. Calling with an
    /// empty slice still reserves the `MethodDebugInformation` row so that
    /// rids stay aligned with the module's `MethodDef` table.
    pub fn set_method_sequence_points(
        &mut self,
        method: Token,
        doc: DocumentHandle,
        points: &[SequencePoint],
    ) -> (r: Result<(), Error>)
        ensures
            match method_rid_of(method) {
                Some(rid) if 1 <= doc.0 <= old(self)@.document_rows.len() && offsets_valid(points@)
                    => r is Ok && final(self)@ == old(self)@.with_slot(
                    rid,
                    (SlotModel {
                        document: doc.0,
                        points: Some(points@),
                        signature: slot_of(old(self)@.slots, rid).signature,
                    }),
                ),
                _ => r is Err && r->Err_0.kind() == ErrorKind::Argument && final(self)@ == old(
                    self,
                )@,
            },
            r is Err ==> match method_rid_of(method) {
                None => r->Err_0.text() == "0x"@ + text::hex_digits(method.0, 8)
                    + " is not a MethodDef token"@,
                Some(rid) => if 1 <= doc.0 <= old(self)@.document_rows.len() {
                    about_offsets(points@, r->Err_0.text())
                } else {
                    r->Err_0.text() == "document handle "@ + text::decimal(doc.0 as nat)
                        + " outside Document table ("@ + text::decimal(
                        old(self)@.document_rows.len(),
                    ) + " rows)"@
                },
            },
    {
        let rid: u32 = method_rid(method)?;
        if doc.0 == 0 || doc.0 as u64 > self.document_rows.len() as u64 {
            return Err(
                Error::argument(
                    Message::new("document handle ").count(doc.0 as u64).text(
                        " outside Document table (",
                    ).count(self.document_rows.len() as u64).text(" rows)").as_str(),
                ),
            );
        }
        validate_offsets(points)?;
        let ghost before = self@;
        let mut kept: Vec<SequencePoint> = Vec::new();
        kept.extend_from_slice(points);
        proof {
            assert(kept@ =~= points@);
        }
        self.reserve(rid);
        let i: usize = rid as usize - 1;
        let ghost known = self.method_debug@;
        let local_sig_rid: u32 = match &self.method_debug[i] {
            Some(e) => e.local_sig_rid,
            None => 0,
        };
        let entry = MethodDebugEntry { document_rid: doc.0, points: Some(kept), local_sig_rid };
        let ghost model = slot_model(Some(entry));
        self.method_debug.set(i, Some(entry));
        proof {
            let padded_slots = padded(before.slots, rid);
            assert(padded_slots[i as int] == slot_model(known[i as int]));
            assert(slot_of(before.slots, rid).signature == local_sig_rid);
            assert(self@.slots =~= padded_slots.update(i as int, model));
        }
        Ok(())
    }

    /// Records the stand-alone local signature rid emitted as the leading
    /// compressed token of the method's sequence-point blob (readers skip the
    /// value). A token of another table is ignored.
    pub fn set_local_var_sig(&mut self, method: Token, stand_alone_sig_rid: u32)
        ensures
            match method_rid_of(method) {
                Some(rid) => final(self)@ == old(self)@.with_slot(
                    rid,
                    (SlotModel {
                        signature: stand_alone_sig_rid,
                        ..slot_of(old(self)@.slots, rid)
                    }),
                ),
                None => final(self)@ == old(self)@,
            },
    {
        let rid: u32 = match method_rid(method) {
            Ok(rid) => rid,
            Err(_) => {
                return;
            },
        };
        let ghost before = self@;
        self.reserve(rid);
        let i: usize = rid as usize - 1;
        let ghost known = self.method_debug@;
        let entry: Option<MethodDebugEntry> = self.method_debug.remove(i);
        let entry: MethodDebugEntry = match entry {
            Some(e) => MethodDebugEntry {
                document_rid: e.document_rid,
                points: e.points,
                local_sig_rid: stand_alone_sig_rid,
            },
            None => MethodDebugEntry {
                document_rid: 0,
                points: None,
                local_sig_rid: stand_alone_sig_rid,
            },
        };
        let ghost model = slot_model(Some(entry));
        self.method_debug.insert(i, Some(entry));
        proof {
            let padded_slots = padded(before.slots, rid);
            assert(self.method_debug@ =~= known.update(i as int, Some(entry)));
            assert(padded_slots[i as int] == slot_model(known[i as int]));
            assert(model =~= Some(
                SlotModel { signature: stand_alone_sig_rid, ..slot_of(before.slots, rid) },
            ));
            assert(self@.slots =~= padded_slots.update(i as int, model));
        }
    }

    /// Adds an `ImportScope` row, returning its 1-based rid for use in
    /// [`Self::add_local_scope`]. `imports` is the raw imports blob
    /// (compressed count followed by alias/GUID packages); `parent` is a rid
    /// returned by this method, or 0 for no parent.
    pub fn add_import_scope(&mut self, parent: u32, imports: &[u8]) -> (rid: u32)
        ensures
            final(self)@ == old(self)@.with_import(parent, imports@),
            rid == bytes::low32((old(self)@.import_rows.len() + 1) as int),
            old(self)@.sound() ==> final(self)@.sound(),
    {
        let ghost before = self@;
        let index: u32 = self.metadata.insert_blob(imports);
        let row: [u64; 2] = [parent as u64, index as u64];
        let ghost cells = row@;
        self.import_scope_rows.push(row);
        proof {
            assert(cells =~= seq![parent as u64, index as u64]);
            assert(self@.import_rows =~= before.import_rows.push(cells));
        }
        bytes::as_low32(self.import_scope_rows.len())
    }

    fn add_variables(&mut self, variables: &[(u16, String, u32)])
        ensures
            final(self)@ == old(self)@.with_variables(
                variable_models(variables@),
                variables@.len(),
            ),
            old(self)@.sound() ==> final(self)@.sound(),
    {
        let ghost all = variable_models(variables@);
        let n: usize = variables.len();
        let mut i: usize = 0;
        while i < n
            invariant
                i <= n,
                n == variables@.len(),
                all == variable_models(variables@),
                self@ == old(self)@.with_variables(all, i as nat),
                old(self)@.sound() ==> self@.sound(),
            decreases n - i,
        {
            let ghost before = self@;
            let (index, attributes): (u16, u32) = (variables[i].0, variables[i].2);
            proof {
                assert(all[i as int] == (
                    variables@[i as int].0,
                    variables@[i as int].1@,
                    variables@[i as int].2,
                ));
            }
            let name: u32 = self.metadata.insert_string(variables[i].1.as_str());
            let row: [u64; 3] = [(attributes % 0x1_0000) as u64, index as u64, name as u64];
            let ghost cells = row@;
            self.variable_rows.push(row);
            proof {
                assert(cells =~= seq![
                    bytes::low16(attributes as int) as u64,
                    index as u64,
                    name as u64,
                ]);
                assert(self@.variable_rows =~= before.variable_rows.push(cells));
            }
            i += 1;
        }
    }

    fn add_constants(&mut self, constants: &[(&str, &[u8])])
        ensures
            final(self)@ == old(self)@.with_constants(
                constant_models(constants@),
                constants@.len(),
            ),
            old(self)@.sound() ==> final(self)@.sound(),
    {
        let ghost all = constant_models(constants@);
        let n: usize = constants.len();
        let mut i: usize = 0;
        while i < n
            invariant
                i <= n,
                n == constants@.len(),
                all == constant_models(constants@),
                self@ == old(self)@.with_constants(all, i as nat),
                old(self)@.sound() ==> self@.sound(),
            decreases n - i,
        {
            let ghost before = self@;
            let (name, signature) = constants[i];
            proof {
                assert(all[i as int] == (name@, signature@));
            }
            let name_index: u32 = self.metadata.insert_string(name);
            let signature_index: u32 = self.metadata.insert_blob(signature);
            let row: [u64; 2] = [name_index as u64, signature_index as u64];
            let ghost cells = row@;
            self.constant_rows.push(row);
            proof {
                assert(cells =~= seq![name_index as u64, signature_index as u64]);
                assert(self@.constant_rows =~= before.constant_rows.push(cells));
            }
            i += 1;
        }
    }

    /// Adds one `LocalScope` row covering the IL half-open range
    /// `[start_offset, start_offset + length)` of `method`.
    ///
    /// Variables are `(slot index, name, attributes)` triples; attributes are
    /// truncated to the 16-bit `VariableAttributes` column. Constants are
    /// `(name, raw constant-signature blob)` pairs (element-type byte plus
    /// value). Each call appends its variable and constant rows directly
    /// before the scope row so the table's list-range columns stay contiguous.
    ///
    /// `kind` is accepted so that callers can hand over other scope models;
    /// the six-column `LocalScope` layout carries no Kind column, so readers
    /// always observe `0`.
    pub fn add_local_scope(
        &mut self,
        method: Token,
        import_scope: u32,
        variables: &[(u16, String, u32)],
        constants: &[(&str, &[u8])],
        kind: u32,
        start_offset: i32,
        length: i32,
    ) -> (handle: ScopeHandle)
        ensures
            match method_rid_of(method) {
                Some(rid) => final(self)@ == old(self)@.with_scope(
                    rid,
                    import_scope,
                    variable_models(variables@),
                    constant_models(constants@),
                    start_offset,
                    length,
                ) && handle.0 == bytes::low32((old(self)@.scope_rows.len() + 1) as int),
                None => final(self)@ == old(self)@ && handle.0 == 0,
            },
            old(self)@.sound() ==> final(self)@.sound(),
    {
        let _ = kind;
        let rid: u32 = match method_rid(method) {
            Ok(rid) => rid,
            Err(_) => {
                return ScopeHandle(0);
            },
        };
        let ghost start = self@;
        let ghost vars = variable_models(variables@);
        let ghost cons = constant_models(constants@);
        let variable_list_start: u32 = next_row(self.variable_rows.len());
        self.add_variables(variables);
        proof {
            variables_keep(start, vars, vars.len());
        }
        let constant_list_start: u32 = next_row(self.constant_rows.len());
        self.add_constants(constants);
        proof {
            constants_keep(start.with_variables(vars, vars.len()), cons, cons.len());
        }
        let row: [u64; 6] = [
            rid as u64,
            import_scope as u64,
            variable_list_start as u64,
            constant_list_start as u64,
            bytes::as_u32(start_offset) as u64,
            bytes::as_u32(length) as u64,
        ];
        let ghost cells = row@;
        let ghost before = self@;
        self.scope_rows.push(row);
        proof {
            assert(cells =~= seq![
                rid as u64,
                import_scope as u64,
                bytes::low32((start.variable_rows.len() + 1) as int) as u64,
                bytes::low32((start.constant_rows.len() + 1) as int) as u64,
                bytes::u32_of(start_offset) as u64,
                bytes::u32_of(length) as u64,
            ]);
            assert(self@.scope_rows =~= before.scope_rows.push(cells));
        }
        ScopeHandle(bytes::as_low32(self.scope_rows.len()))
    }

    /// Sets the entry-point method token recorded in the `#Pdb` heap
    /// (the nil token for libraries).
    pub fn set_entry_point(&mut self, tok: Token)
        ensures
            final(self)@ == (PortableModel { entry_point: tok, ..old(self)@ }),
    {
        self.entry_point = tok;
    }

    /// Overrides the 20-byte PDB id (16-byte GUID + 4-byte stamp) stored at
    /// the head of the `#Pdb` heap. Defaults to twenty zero bytes.
    pub fn set_pdb_id(&mut self, id: [u8; 20])
        ensures
            final(self)@ == (PortableModel { pdb_id: id@, ..old(self)@ }),
    {
        self.pdb_id = id;
    }

    /// Sets the module GUID (`Mvid`) written into the mandatory single
    /// `Module` row. Defaults to the all-zero GUID.
    pub fn set_module_guid(&mut self, guid: [u8; 16])
        ensures
            final(self)@ == (PortableModel { module_guid: Some(guid@), ..old(self)@ }),
    {
        self.module_guid = Some(guid);
    }

    /// Adds one `CustomDebugInformation` row (Source Link, embedded source,
    /// async/state-machine hints, ...): `parent` names the owning entity by
    /// metadata token, `kind` is the well-known kind GUID, and `value` is the
    /// raw payload blob, whose bytes are kept verbatim.
    pub fn add_custom_debug_information(
        &mut self,
        parent: Token,
        kind: [u8; 16],
        value: &[u8],
    ) -> (r: Result<(), Error>)
        requires
            token::is_table_number(parent.table_number()),
        ensures
            match owner_cell(parent, CodedGroup::HasCustomDebugInformation.members(), 0) {
                Some(cell) => r is Ok && final(self)@ == old(self)@.with_custom(
                    cell,
                    kind@,
                    value@,
                ),
                None => r is Err && r->Err_0.kind() == ErrorKind::Argument && final(self)@ == old(
                    self,
                )@,
            },
            old(self)@.sound() ==> final(self)@.sound(),
    {
        let ghost before = self@;
        let group = CodedGroup::HasCustomDebugInformation.group();
        let table = parent.table();
        let coded = tables::encode_coded(&group, table, parent.rid());
        proof {
            owner_found(parent, table, group.tables@, 0);
            if coded is Ok {
                let tag = choose|tag: int|
                    #![trigger group.tables@[tag]]
                    0 <= tag < group.tables@.len() && group.tables@[tag] == table && (forall|k: int|
                        0 <= k < tag ==> group.tables@[k] != table) && coded->Ok_0
                        == tables::coded_cell(group.tag_bits, tag, parent.row());
                owner_is_first(parent, table, group.tables@, 0, tag);
            }
        }
        let cell: u64 = coded?;
        let kind_guid: u32 = self.metadata.insert_guid(&kind);
        let value_blob: u32 = self.metadata.insert_blob(value);
        let row: [u64; 3] = [cell % 0x1_0000_0000, kind_guid as u64, value_blob as u64];
        let ghost cells = row@;
        self.cdi_rows.push(row);
        proof {
            assert(cells =~= seq![
                bytes::low32(cell as int) as u64,
                kind_guid as u64,
                value_blob as u64,
            ]);
            assert(self@.custom_rows =~= before.custom_rows.push(cells));
        }
        Ok(())
    }

    /// Serializes the complete standalone portable PDB image: a BSJB root
    /// with `#~`, `#Strings`, `#GUID`, `#Blob`, and `#Pdb` streams, the
    /// classic tables unpopulated except the mandatory single `Module` row.
    pub fn finalize(self) -> (r: Result<Vec<u8>, Error>)
        requires
            self@.sound(),
        ensures
            if slots_encodable(self@.slots) {
                r is Ok && r->Ok_0@ == self@.finished().built()
            } else {
                r is Err && r->Err_0.kind() == ErrorKind::Argument
            },
    {
        let ghost model = self@;
        let mut md = self.metadata;
        if md.row_count(TableIndex::Module) == 0 {
            let mvid: [u8; 16] = match self.module_guid {
                Some(g) => g,
                None => {
                    let zeros: [u8; 16] = [0u8;16];
                    proof {
                        assert(zeros@ =~= bytes::zero_bytes(16));
                    }
                    zeros
                },
            };
            let guid: u32 = md.insert_guid(&mvid);
            let cells: [u64; 5] = [0, 0, guid as u64, 0, 0];
            let _ = md.add_row(TableIndex::Module, vstd::array::array_as_slice(&cells));
            proof {
                assert(cells@ =~= seq![0u64, 0u64, guid as u64, 0u64, 0u64]);
            }
        }
        let ghost start = md@;
        proof {
            assert(start == model.with_module());
        }
        let n: usize = self.method_debug.len();
        let mut i: usize = 0;
        while i < n
            invariant
                i <= n,
                n == self.method_debug@.len(),
                model.slots == slot_models(self.method_debug@),
                md@.sound(),
                md@ == with_methods(start, model.slots, i as nat),
                forall|k: int| 0 <= k < i ==> slot_encodable(#[trigger] model.slots[k]),
            decreases n - i,
        {
            proof {
                assert(model.slots[i as int] == slot_model(self.method_debug@[i as int]));
            }
            add_method(&mut md, &self.method_debug[i])?;
            i += 1;
        }
        add_rows(&mut md, TableIndex::Document, &self.document_rows);
        add_rows(&mut md, TableIndex::ImportScope, &self.import_scope_rows);
        add_rows(&mut md, TableIndex::LocalVariable, &self.variable_rows);
        add_rows(&mut md, TableIndex::LocalConstant, &self.constant_rows);
        add_rows(&mut md, TableIndex::LocalScope, &self.scope_rows);
        add_rows(&mut md, TableIndex::CustomDebugInformation, &self.cdi_rows);
        let counts = table_counts(&md);
        md.set_pdb_heap(self.pdb_id, self.entry_point, counts.as_slice());
        proof {
            assert(md@ =~= model.finished());
        }
        Ok(md.finalize())
    }
}

/// The row that follows so many others.
fn next_row(n: usize) -> (v: u32)
    ensures
        v == bytes::low32(n + 1),
{
    ((n as u64 % 0x1_0000_0000 + 1) % 0x1_0000_0000) as u32
}

/// The tables that have rows, ascending by number, with how many.
fn table_counts(md: &MetadataBuilder) -> (counts: Vec<(u8, u32)>)
    requires
        md@.sound(),
    ensures
        counts@ == populated(md@, 0x38),
        forall|k: int| 0 <= k < counts@.len() ==> #[trigger] counts@[k].0 < 64,
{
    let mut counts: Vec<(u8, u32)> = Vec::new();
    let mut i: u8 = 0;
    while i < 0x38
        invariant
            i <= 0x38,
            md@.sound(),
            counts@ == populated(md@, i as nat),
            forall|k: int| 0 <= k < counts@.len() ==> #[trigger] counts@[k].0 < 64,
        decreases 0x38 - i,
    {
        match TableIndex::from_u8(i) {
            Some(table) => {
                let n: u32 = md.row_count(table);
                if n > 0 {
                    counts.push((i, n));
                }
            },
            None => {},
        }
        i += 1;
    }
    counts
}

/// Splits a document name at its separator.
fn segments_of(name: &str) -> (parts: Vec<String>)
    ensures
        name_models(parts@) == segments(name@),
{
    let mut parts: Vec<String> = Vec::new();
    match document_name_separator(name) {
        None => {
            parts.push(name.to_owned());
            proof {
                assert(name_models(parts@) =~= segments(name@));
            }
        },
        Some(separator) => {
            let chars = text::chars_of(name);
            let n: usize = chars.len();
            let mut part = String::new();
            let mut i: usize = 0;
            proof {
                assert(chars@.take(0) =~= Seq::<char>::empty());
                assert(part@ =~= Seq::<char>::empty());
                assert(name_models(parts@).push(part@) =~= split(chars@.take(0), separator));
            }
            while i < n
                invariant
                    i <= n,
                    n == chars@.len(),
                    name_models(parts@).push(part@) == split(chars@.take(i as int), separator),
                decreases n - i,
            {
                let ghost before = name_models(parts@).push(part@);
                proof {
                    assert(chars@.take(i + 1).drop_last() =~= chars@.take(i as int));
                    assert(chars@.take(i + 1).last() == chars@[i as int]);
                }
                if chars[i] == separator {
                    parts.push(part);
                    part = String::new();
                    proof {
                        assert(part@ =~= Seq::<char>::empty());
                        assert(name_models(parts@).push(part@) =~= before.push(Seq::empty()));
                    }
                } else {
                    let ghost was = part@;
                    text::push_char(&mut part, chars[i]);
                    proof {
                        assert(name_models(parts@).push(part@) =~= before.update(
                            before.len() - 1,
                            before.last().push(chars@[i as int]),
                        ));
                    }
                }
                i += 1;
            }
            let ghost whole = name_models(parts@).push(part@);
            parts.push(part);
            proof {
                assert(chars@.take(n as int) =~= chars@);
                assert(name_models(parts@) =~= whole);
            }
        },
    }
    parts
}

proof fn variables_keep(m: PortableModel, variables: Seq<(u16, Seq<char>, u32)>, n: nat)
    requires
        n <= variables.len(),
    ensures
        ({
            let after = m.with_variables(variables, n);
            &&& after.constant_rows == m.constant_rows
            &&& after.scope_rows == m.scope_rows
            &&& after.variable_rows.len() == m.variable_rows.len() + n
        }),
    decreases n,
{
    if n > 0 {
        variables_keep(m, variables, (n - 1) as nat);
    }
}

proof fn constants_keep(m: PortableModel, constants: Seq<(Seq<char>, Seq<u8>)>, n: nat)
    requires
        n <= constants.len(),
    ensures
        ({
            let after = m.with_constants(constants, n);
            &&& after.variable_rows == m.variable_rows
            &&& after.scope_rows == m.scope_rows
            &&& after.constant_rows.len() == m.constant_rows.len() + n
        }),
    decreases n,
{
    if n > 0 {
        constants_keep(m, constants, (n - 1) as nat);
    }
}

proof fn owner_found(parent: Token, table: TableIndex, members: Seq<TableIndex>, tag: int)
    requires
        0 <= tag,
        table.number() == parent.table_number(),
    ensures
        owner_cell(parent, members, tag) is Some <==> exists|k: int|
            tag <= k < members.len() && #[trigger] members[k] == table,
    decreases members.len() - tag,
{
    if tag < members.len() {
        owner_found(parent, table, members, tag + 1);
        if members[tag].number() == table.number() {
            token::table_number_injective(members[tag], table);
        }
    }
}

proof fn owner_is_first(
    parent: Token,
    table: TableIndex,
    members: Seq<TableIndex>,
    from: int,
    tag: int,
)
    requires
        0 <= from <= tag < members.len(),
        table.number() == parent.table_number(),
        members[tag] == table,
        forall|k: int| 0 <= k < tag ==> members[k] != table,
    ensures
        owner_cell(parent, members, from) == Some(
            tables::coded_cell(CodedGroup::HasCustomDebugInformation.bits(), tag, parent.row()),
        ),
    decreases tag - from,
{
    if from < tag {
        if members[from].number() == table.number() {
            token::table_number_injective(members[from], table);
        }
        owner_is_first(parent, table, members, from + 1, tag);
    }
}

impl Default for PortablePdbBuilder {
    fn default() -> (b: PortablePdbBuilder)
        ensures
            b@ == fresh_portable("v4.0.30319"@),
            b@.sound(),
    {
        PortablePdbBuilder::new()
    }
}

} // verus!
