//! `MetadataBuilder`: accumulates heaps and table rows, then serializes a
//! complete BSJB metadata root (`#~`, `#Strings`, `#US`, `#GUID`, `#Blob`
//! streams) with heap-size flags, valid-table mask, and row layouts.

use vstd::prelude::*;

use crate::bytes;
use crate::error::{Error, ErrorKind};
use crate::io;
use crate::io::ByteWriter;
use crate::metadata::root;
use crate::metadata::root::write_root;
use crate::metadata::tables;
use crate::metadata::tables::{
    column_kinds, ColumnKind, TableSet, TableShape, SORTED_MASK_DEFAULT, TABLE_COUNT,
};
use crate::text;
use crate::text::Message;
use crate::token;
use crate::token::{TableIndex, Token};

verus! {

broadcast use crate::bytes::widths;

/// A heap under construction: its bytes, and the index of every entry that it
/// was given.
#[verifier::ext_equal]
pub struct HeapModel {
    pub data: Seq<u8>,
    pub known: Seq<(Seq<u8>, u32)>,
}

/// The index that `key` was given.
pub open spec fn lookup(known: Seq<(Seq<u8>, u32)>, key: Seq<u8>) -> Option<u32>
    decreases known.len(),
{
    if known.len() == 0 {
        None
    } else if known.last().0 == key {
        Some(known.last().1)
    } else {
        lookup(known.drop_last(), key)
    }
}

impl HeapModel {
    /// The heap and the index after `key` was asked for: its index from
    /// before, or `index` with `encoded` appended to the heap.
    pub open spec fn interned(self, key: Seq<u8>, encoded: Seq<u8>, index: u32) -> (HeapModel, u32) {
        match lookup(self.known, key) {
            Some(i) => (self, i),
            None => (
                HeapModel { data: self.data + encoded, known: self.known.push((key, index)) },
                index,
            ),
        }
    }

    /// A `#Strings` heap after a string was inserted, and the index of the
    /// string.
    pub open spec fn with_string(self, t: Seq<char>) -> (HeapModel, u32) {
        if t.len() == 0 {
            (self, 0)
        } else {
            self.interned(
                text::utf8(t),
                text::utf8(t).push(0),
                bytes::low32(self.data.len() as int),
            )
        }
    }

    /// A `#US` heap after a string was inserted, and the index of the string.
    pub open spec fn with_user_string(self, t: Seq<char>) -> (HeapModel, u32) {
        self.interned(text::utf8(t), user_string_bytes(t), bytes::low32(self.data.len() as int))
    }

    /// A `#Blob` heap after a blob was inserted, and the index of the blob.
    pub open spec fn with_blob(self, b: Seq<u8>) -> (HeapModel, u32) {
        if b.len() == 0 {
            (self, 0)
        } else {
            self.interned(b, blob_bytes(b), bytes::low32(self.data.len() as int))
        }
    }

    /// A `#GUID` heap after a GUID was inserted, and its number.
    pub open spec fn with_guid(self, g: Seq<u8>) -> (HeapModel, u32) {
        self.interned(g, g, bytes::low32(self.data.len() as int / 16 + 1))
    }
}

/// A blob behind its compressed length.
pub open spec fn blob_bytes(b: Seq<u8>) -> Seq<u8> {
    io::compressed_u32_bytes(bytes::low32(b.len() as int)) + b
}

/// Whether a character makes a user string special: it is beyond `~`, or one
/// of the control characters other than tab to carriage return, or a quote or
/// a dash.
pub open spec fn special_char(c: char) -> bool {
    let v = c as u32;
    v > 0x7e || 0x01 <= v <= 0x08 || 0x0e <= v <= 0x1f || v == 0x27 || v == 0x2d
}

/// The flag byte of a user string.
pub open spec fn special_flag(t: Seq<char>) -> u8 {
    if exists|i: int| 0 <= i < t.len() && special_char(#[trigger] t[i]) {
        1
    } else {
        0
    }
}

/// UTF-16 units, lowest byte first.
pub open spec fn unit_bytes(u: Seq<u16>) -> Seq<Seq<u8>> {
    Seq::new(u.len(), |k: int| bytes::u16_le(u[k]))
}

/// A user string: the compressed byte length of the text and its flag, the
/// text as UTF-16, and the flag.
pub open spec fn user_string_bytes(t: Seq<char>) -> Seq<u8> {
    io::compressed_u32_bytes(bytes::low32((2 * text::utf16(t).len() + 1) as int)) + bytes::joined(
        unit_bytes(text::utf16(t)),
    ) + seq![special_flag(t)]
}

/// The list of what a heap was given, with indexes.
#[derive(Debug)]
struct Interner {
    keys: Vec<(Vec<u8>, u32)>,
}

impl View for Interner {
    type V = Seq<(Seq<u8>, u32)>;

    closed spec fn view(&self) -> Seq<(Seq<u8>, u32)> {
        Seq::new(self.keys@.len(), |k: int| (self.keys@[k].0@, self.keys@[k].1))
    }
}

impl Interner {
    fn new() -> (n: Self)
        ensures
            n@ == Seq::<(Seq<u8>, u32)>::empty(),
    {
        let n = Interner { keys: Vec::new() };
        proof {
            assert(n@ =~= Seq::<(Seq<u8>, u32)>::empty());
        }
        n
    }

    fn find(&self, key: &[u8]) -> (r: Option<u32>)
        ensures
            r == lookup(self@, key@),
    {
        let mut i: usize = self.keys.len();
        proof {
            assert(self@.take(i as int) =~= self@);
        }
        while i > 0
            invariant
                i <= self.keys@.len(),
                self@.len() == self.keys@.len(),
                lookup(self@, key@) == lookup(self@.take(i as int), key@),
            decreases i,
        {
            proof {
                assert(self@.take(i as int).drop_last() =~= self@.take(i - 1));
                assert(self@.take(i as int).last() == self@[i - 1]);
            }
            i -= 1;
            if bytes::same_bytes(self.keys[i].0.as_slice(), key) {
                return Some(self.keys[i].1);
            }
        }
        None
    }

    fn add(&mut self, key: Vec<u8>, index: u32)
        ensures
            final(self)@ == old(self)@.push((key@, index)),
    {
        self.keys.push((key, index));
        proof {
            assert(self@ =~= old(self)@.push((key@, index)));
        }
    }
}

/// A heap under construction.
#[derive(Debug)]
struct HeapBuffer {
    data: Vec<u8>,
    known: Interner,
}

impl View for HeapBuffer {
    type V = HeapModel;

    closed spec fn view(&self) -> HeapModel {
        HeapModel { data: self.data@, known: self.known@ }
    }
}

impl HeapBuffer {
    fn empty() -> (h: Self)
        ensures
            h@ == (HeapModel { data: Seq::empty(), known: Seq::empty() }),
    {
        HeapBuffer { data: Vec::new(), known: Interner::new() }
    }

    fn one_zero() -> (h: Self)
        ensures
            h@ == (HeapModel { data: seq![0u8], known: Seq::empty() }),
    {
        let mut data: Vec<u8> = Vec::new();
        data.push(0);
        proof {
            assert(data@ =~= seq![0u8]);
        }
        HeapBuffer { data, known: Interner::new() }
    }

    fn intern(&mut self, key: &[u8], encoded: &[u8], index: u32) -> (r: u32)
        ensures
            (final(self)@, r) == old(self)@.interned(key@, encoded@, index),
    {
        match self.known.find(key) {
            Some(i) => i,
            None => {
                bytes::append(&mut self.data, encoded);
                let mut owned: Vec<u8> = Vec::new();
                bytes::append(&mut owned, key);
                proof {
                    assert(owned@ =~= key@);
                }
                self.known.add(owned, index);
                index
            },
        }
    }

    fn insert_string(&mut self, s: &str) -> (r: u32)
        ensures
            (final(self)@, r) == old(self)@.with_string(s@),
    {
        if s.is_empty() {
            return 0;
        }
        let b = s.as_bytes();
        let mut encoded: Vec<u8> = Vec::new();
        bytes::append(&mut encoded, b);
        encoded.push(0);
        proof {
            assert(encoded@ =~= text::utf8(s@).push(0));
        }
        let index: u32 = bytes::as_low32(self.data.len());
        self.intern(b, encoded.as_slice(), index)
    }

    fn insert_user_string(&mut self, s: &str) -> (r: u32)
        ensures
            (final(self)@, r) == old(self)@.with_user_string(s@),
    {
        let units = text::encode_utf16(s);
        let n: usize = units.len();
        let mut w = ByteWriter::new();
        let length: u32 = ((2 * n as u128 + 1) % 0x1_0000_0000) as u32;
        w.compressed_u32(length);
        let ghost head = io::compressed_u32_bytes(length);
        let ghost parts = unit_bytes(units@);
        let mut i: usize = 0;
        proof {
            assert(w@ =~= head + bytes::joined(parts.take(0)));
        }
        while i < n
            invariant
                i <= n,
                n == units@.len(),
                parts == unit_bytes(units@),
                w@ == head + bytes::joined(parts.take(i as int)),
            decreases n - i,
        {
            proof {
                bytes::joined_step(parts, i as int);
            }
            w.u16(units[i]);
            proof {
                assert(w@ =~= head + bytes::joined(parts.take(i + 1)));
            }
            i += 1;
        }
        proof {
            assert(parts.take(n as int) =~= parts);
        }
        let special: u8 = flag_of(s);
        w.u8(special);
        proof {
            assert(w@ =~= user_string_bytes(s@));
        }
        let index: u32 = bytes::as_low32(self.data.len());
        self.intern(s.as_bytes(), w.as_slice(), index)
    }

    fn insert_blob(&mut self, b: &[u8]) -> (r: u32)
        ensures
            (final(self)@, r) == old(self)@.with_blob(b@),
    {
        if b.is_empty() {
            return 0;
        }
        let mut w = ByteWriter::new();
        w.compressed_u32(bytes::as_low32(b.len()));
        w.bytes(b);
        proof {
            assert(w@ =~= blob_bytes(b@));
        }
        let index: u32 = bytes::as_low32(self.data.len());
        self.intern(b, w.as_slice(), index)
    }

    fn insert_guid(&mut self, g: &[u8]) -> (r: u32)
        ensures
            (final(self)@, r) == old(self)@.with_guid(g@),
    {
        let number: u32 = ((self.data.len() as u128 / 16 + 1) % 0x1_0000_0000) as u32;
        self.intern(g, g, number)
    }
}

/// The flag byte of a user string.
fn flag_of(s: &str) -> (f: u8)
    ensures
        f == special_flag(s@),
{
    let cs = text::chars_of(s);
    let n: usize = cs.len();
    let mut i: usize = 0;
    while i < n
        invariant
            i <= n,
            n == cs@.len(),
            cs@ == s@,
            forall|k: int| 0 <= k < i ==> !special_char(#[trigger] s@[k]),
        decreases n - i,
    {
        let v: u32 = cs[i] as u32;
        if v > 0x7e || (0x01 <= v && v <= 0x08) || (0x0e <= v && v <= 0x1f) || v == 0x27 || v
            == 0x2d {
            proof {
                assert(special_char(s@[i as int]));
            }
            return 1;
        }
        i += 1;
    }
    0
}

/// What a `#Pdb` heap under construction holds.
#[verifier::ext_equal]
pub struct PdbModel {
    pub id: Seq<u8>,
    pub entry_point: u32,
    pub table_counts: Seq<(u8, u32)>,
}

/// `s` with `x` put behind the last element whose table is not greater.
pub open spec fn insert_sorted(s: Seq<(u8, u32)>, x: (u8, u32)) -> Seq<(u8, u32)>
    decreases s.len(),
{
    if s.len() == 0 || s.last().0 <= x.0 {
        s.push(x)
    } else {
        insert_sorted(s.drop_last(), x).push(s.last())
    }
}

/// The pairs ordered by table; pairs of one table keep their order.
pub open spec fn sorted_by_table(s: Seq<(u8, u32)>) -> Seq<(u8, u32)>
    decreases s.len(),
{
    if s.len() == 0 {
        s
    } else {
        insert_sorted(sorted_by_table(s.drop_last()), s.last())
    }
}

/// The tables ascend.
pub open spec fn ascending(s: Seq<(u8, u32)>) -> bool {
    forall|i: int, j: int| 0 <= i <= j < s.len() ==> s[i].0 <= s[j].0
}

proof fn insert_sorted_ascends(s: Seq<(u8, u32)>, x: (u8, u32))
    requires
        ascending(s),
    ensures
        ascending(insert_sorted(s, x)),
        insert_sorted(s, x).to_multiset() == s.to_multiset().insert(x),
        forall|k: int|
            0 <= k < insert_sorted(s, x).len() ==> insert_sorted(s, x)[k].0 <= x.0 || (s.len() > 0
                && insert_sorted(s, x)[k].0 <= s.last().0),
        insert_sorted(s, x).len() == s.len() + 1,
    decreases s.len(),
{
    broadcast use vstd::seq_lib::group_to_multiset_ensures;

    if s.len() == 0 || s.last().0 <= x.0 {
        assert forall|k: int| 0 <= k < s.push(x).len() implies s.push(x)[k].0 <= x.0 by {
            if k < s.len() {
                assert(s[k].0 <= s[s.len() - 1].0);
            }
        }
    } else {
        let front = s.drop_last();
        insert_sorted_ascends(front, x);
        let r = insert_sorted(front, x);
        assert(s =~= front.push(s.last()));
        assert forall|k: int| 0 <= k < r.len() implies r[k].0 <= s.last().0 by {
            if r[k].0 > x.0 {
                assert(front.last() == s[s.len() - 2]);
            }
        }
        assert(s.to_multiset() =~= front.to_multiset().insert(s.last()));
        assert(r.push(s.last()).to_multiset() =~= s.to_multiset().insert(x));
    }
}

/// Ordering by table gives ascending tables, and loses or makes no pair.
pub proof fn sorted_by_table_is_ordered(s: Seq<(u8, u32)>)
    ensures
        ascending(sorted_by_table(s)),
        sorted_by_table(s).to_multiset() == s.to_multiset(),
        sorted_by_table(s).len() == s.len(),
    decreases s.len(),
{
    broadcast use vstd::seq_lib::group_to_multiset_ensures;

    if s.len() > 0 {
        sorted_by_table_is_ordered(s.drop_last());
        insert_sorted_ascends(sorted_by_table(s.drop_last()), s.last());
        assert(s =~= s.drop_last().push(s.last()));
        assert(s.to_multiset() =~= s.drop_last().to_multiset().insert(s.last()));
    }
}

/// What a metadata builder has been given.
#[verifier::ext_equal]
pub struct BuilderModel {
    pub version: Seq<char>,
    pub strings: HeapModel,
    pub user_strings: HeapModel,
    pub blobs: HeapModel,
    pub guids: HeapModel,
    pub pdb: Option<PdbModel>,
    pub rows: Seq<Seq<Seq<u64>>>,
}

/// The mask of the first `n` tables that have rows.
pub open spec fn mask_upto(rows: Seq<Seq<Seq<u64>>>, n: nat) -> u64
    decreases n,
{
    if n == 0 {
        0
    } else if rows[n - 1].len() > 0 {
        mask_upto(rows, (n - 1) as nat) | (1u64 << ((n - 1) as u64))
    } else {
        mask_upto(rows, (n - 1) as nat)
    }
}

/// The mask of the tables of the first `n` pairs.
pub open spec fn pair_mask(pairs: Seq<(u8, u32)>, n: nat) -> u64
    decreases n,
{
    if n == 0 {
        0
    } else {
        pair_mask(pairs, (n - 1) as nat) | (1u64 << (pairs[n - 1].0 as u64))
    }
}

/// One cell, cut to its width.
pub open spec fn cell_bytes(value: u64, width: nat) -> Seq<u8> {
    if width == 1 {
        seq![(value % 0x100) as u8]
    } else if width == 2 {
        bytes::u16_le((value % 0x1_0000) as u16)
    } else {
        bytes::u32_le((value % 0x1_0000_0000) as u32)
    }
}

/// The cells of a row.
pub open spec fn row_parts(shape: TableShape, t: TableIndex, row: Seq<u64>) -> Seq<Seq<u8>> {
    Seq::new(
        tables::schema(t).len(),
        |c: int| cell_bytes(row[c], shape.width(tables::schema(t)[c])),
    )
}

/// The rows of a table.
pub open spec fn table_parts(shape: TableShape, t: TableIndex, rows: Seq<Seq<u64>>) -> Seq<Seq<u8>> {
    Seq::new(rows.len(), |r: int| bytes::joined(row_parts(shape, t, rows[r])))
}

impl BuilderModel {
    /// Every table that has rows is a known one, and every row has a cell for
    /// each column.
    pub open spec fn rows_sound(self) -> bool {
        self.rows.len() == 0x38 && (forall|i: int|
            0 <= i < 0x38 && #[trigger] self.rows[i].len() > 0 ==> token::is_table_number(i as u8))
            && (forall|t: TableIndex, r: int|
            0 <= r < self.rows[t.number() as int].len()
                ==> #[trigger] self.rows[t.number() as int][r].len() == tables::schema(t).len())
    }

    /// The tables of the `#Pdb` heap fit its mask.
    pub open spec fn pdb_sound(self) -> bool {
        self.pdb is Some ==> forall|k: int|
            0 <= k < self.pdb->Some_0.table_counts.len()
                ==> #[trigger] self.pdb->Some_0.table_counts[k].0 < 64
    }

    pub open spec fn sound(self) -> bool {
        self.rows_sound() && self.pdb_sound()
    }

    /// The mask of the tables that have rows.
    pub open spec fn valid(self) -> u64 {
        mask_upto(self.rows, 0x38)
    }

    /// The row counts.
    pub open spec fn counts(self) -> Seq<u32> {
        Seq::new(0x38, |i: int| bytes::low32(self.rows[i].len() as int))
    }

    /// Which heaps need four-byte indexes.
    pub open spec fn heap_flags(self) -> u8 {
        ((if self.strings.data.len() > 0xFFFF { 1int } else { 0 }) + (if self.guids.data.len()
            > 0xFFFF { 2int } else { 0 }) + (if self.blobs.data.len() > 0xFFFF {
            4int
        } else {
            0
        })) as u8
    }

    /// The layout that the rows are written with.
    pub open spec fn shape(self) -> TableShape {
        TableShape { valid: self.valid(), counts: self.counts(), heap_flags: self.heap_flags() }
    }

    /// The row counts of the tables that have rows, as bytes.
    pub open spec fn count_parts(self) -> Seq<Seq<u8>> {
        Seq::new(
            0x38,
            |i: int|
                if tables::bit(self.valid(), i) {
                    bytes::u32_le(self.counts()[i])
                } else {
                    Seq::empty()
                },
        )
    }

    /// The rows of the tables, as bytes.
    pub open spec fn row_tables(self) -> Seq<Seq<u8>> {
        Seq::new(
            0x38,
            |i: int|
                if tables::bit(self.valid(), i) {
                    bytes::joined(table_parts(self.shape(), tables::table_at(i), self.rows[i]))
                } else {
                    Seq::empty()
                },
        )
    }

    /// The head of the table stream.
    pub open spec fn table_head(self) -> Seq<u8> {
        bytes::u32_le(0) + seq![2u8, 0u8, self.heap_flags(), 10u8] + bytes::u64_le(self.valid())
            + bytes::u64_le(SORTED_MASK_DEFAULT)
    }

    /// The table stream.
    pub open spec fn table_bytes(self) -> Seq<u8> {
        self.table_head() + bytes::joined(self.count_parts()) + bytes::joined(self.row_tables())
    }

    /// The streams of the root, in order.
    pub open spec fn streams(self) -> Seq<(Seq<char>, Seq<u8>)> {
        seq![("#~"@, self.table_bytes()), ("#Strings"@, self.strings.data)] + (
        if self.user_strings.data.len() > 0 {
            seq![("#US"@, self.user_strings.data)]
        } else {
            Seq::empty()
        }) + (if self.guids.data.len() > 0 {
            seq![("#GUID"@, self.guids.data)]
        } else {
            Seq::empty()
        }) + (if self.blobs.data.len() > 1 {
            seq![("#Blob"@, self.blobs.data)]
        } else {
            Seq::empty()
        }) + (match self.pdb {
            Some(p) => seq![("#Pdb"@, p.payload())],
            None => Seq::empty(),
        })
    }

    /// The metadata root.
    pub open spec fn built(self) -> Seq<u8> {
        root::root_bytes(self.version, self.streams())
    }
}

impl PdbModel {
    /// The row counts, as bytes.
    pub open spec fn count_parts(self) -> Seq<Seq<u8>> {
        Seq::new(self.table_counts.len(), |k: int| bytes::u32_le(self.table_counts[k].1))
    }

    /// The payload of the `#Pdb` stream.
    pub open spec fn payload(self) -> Seq<u8> {
        self.id + bytes::u32_le(self.entry_point) + bytes::u64_le(
            pair_mask(self.table_counts, self.table_counts.len()),
        ) + bytes::joined(self.count_parts())
    }
}

/// Accumulated portable-PDB `#Pdb` heap payload: the 20-byte PDB id, the
/// module entry point token, and the row counts of the type-system tables
/// recorded in the associated assembly.
#[derive(Debug)]
struct PdbHeapBuffer {
    id: [u8; 20],
    entry_point: Token,
    /// `(table byte, row count)` pairs in ascending table order.
    table_counts: Vec<(u8, u32)>,
}

impl View for PdbHeapBuffer {
    type V = PdbModel;

    closed spec fn view(&self) -> PdbModel {
        PdbModel {
            id: self.id@,
            entry_point: self.entry_point.0,
            table_counts: self.table_counts@,
        }
    }
}

/// Builds metadata from scratch: heaps plus raw table rows, finalized into
/// BSJB bytes that a `MetadataReader` parses.
#[derive(Debug)]
pub struct MetadataBuilder {
    version: String,
    strings: HeapBuffer,
    user_strings: HeapBuffer,
    blobs: HeapBuffer,
    guids: HeapBuffer,
    pdb: Option<PdbHeapBuffer>,
    rows: Vec<Vec<Vec<u64>>>,
}

spec fn rows_view(rows: Seq<Vec<Vec<u64>>>) -> Seq<Seq<Seq<u64>>> {
    Seq::new(rows.len(), |i: int| table_view(rows[i]@))
}

spec fn table_view(rows: Seq<Vec<u64>>) -> Seq<Seq<u64>> {
    Seq::new(rows.len(), |r: int| rows[r]@)
}

impl View for MetadataBuilder {
    type V = BuilderModel;

    closed spec fn view(&self) -> BuilderModel {
        BuilderModel {
            version: self.version@,
            strings: self.strings@,
            user_strings: self.user_strings@,
            blobs: self.blobs@,
            guids: self.guids@,
            pdb: match self.pdb {
                Some(p) => Some(p@),
                None => None,
            },
            rows: rows_view(self.rows@),
        }
    }
}

/// A builder that has been given nothing.
pub open spec fn fresh_model(version: Seq<char>) -> BuilderModel {
    BuilderModel {
        version,
        strings: HeapModel { data: seq![0u8], known: Seq::empty() },
        user_strings: HeapModel { data: Seq::empty(), known: Seq::empty() },
        blobs: HeapModel { data: seq![0u8], known: Seq::empty() },
        guids: HeapModel { data: Seq::empty(), known: Seq::empty() },
        pdb: None,
        rows: Seq::new(0x38, |i: int| Seq::empty()),
    }
}

impl MetadataBuilder {
    /// Creates an empty builder emitting the given runtime version string.
    pub fn new(version: &str) -> (b: Self)
        ensures
            b@ == fresh_model(version@),
            b@.sound(),
    {
        let mut rows: Vec<Vec<Vec<u64>>> = Vec::new();
        let mut i: usize = 0;
        while i < TABLE_COUNT
            invariant
                i <= 0x38,
                rows@.len() == i,
                forall|k: int| 0 <= k < i ==> (#[trigger] rows@[k])@.len() == 0,
            decreases 0x38 - i,
        {
            rows.push(Vec::new());
            i += 1;
        }
        let b = MetadataBuilder {
            version: version.to_owned(),
            strings: HeapBuffer::one_zero(),
            user_strings: HeapBuffer::empty(),
            blobs: HeapBuffer::one_zero(),
            guids: HeapBuffer::empty(),
            pdb: None,
            rows,
        };
        proof {
            assert forall|k: int| 0 <= k < 0x38 implies #[trigger] b@.rows[k] == Seq::<Seq<u64>>::empty() by {
                assert(b.rows@[k]@.len() == 0);
                assert(b@.rows[k] =~= Seq::<Seq<u64>>::empty());
            }
            assert(b@.rows =~= fresh_model(version@).rows);
        }
        b
    }

    /// Appends one row to `table` and returns its 1-based rid.
    ///
    /// The cell count must match the table's schema; cells are stored raw and
    /// serialized with the widths computed at [`MetadataBuilder::finalize`].
    pub fn add_row(&mut self, table: TableIndex, cells: &[u64]) -> (r: Result<u32, Error>)
        requires
            old(self)@.sound(),
        ensures
            final(self)@.sound(),
            r is Ok <==> cells@.len() == tables::schema(table).len(),
            r is Ok ==> final(self)@ == old(self)@.with_row(table, cells@) && r->Ok_0
                == bytes::low32((old(self)@.rows[table.number() as int].len() + 1) as int),
            r is Err ==> r->Err_0.kind() == ErrorKind::Argument && final(self)@ == old(self)@,
            r is Err ==> r->Err_0.text() == "table "@ + table.label() + " expects "@
                + text::decimal(tables::schema(table).len()) + " cells, got "@ + text::decimal(
                cells@.len(),
            ),
    {
        let expected: usize = match column_kinds(table) {
            Some(kinds) => kinds.len(),
            None => 0,
        };
        if cells.len() != expected {
            return Err(
                Error::argument(
                    Message::new("table ").text(table.name()).text(" expects ").count(
                        expected as u64,
                    ).text(" cells, got ").count(cells.len() as u64).as_str(),
                ),
            );
        }
        let i: usize = table.to_u8() as usize;
        let mut row: Vec<u64> = Vec::new();
        row.extend_from_slice(cells);
        proof {
            assert(row@ =~= cells@);
        }
        let ghost before = self.rows@;
        self.rows[i].push(row);
        let n: usize = self.rows[i].len();
        proof {
            let after = self.rows@;
            assert(after =~= before.update(i as int, after[i as int]));
            assert(table_view(after[i as int]@) =~= table_view(before[i as int]@).push(cells@));
            assert(rows_view(after) =~= rows_view(before).update(
                i as int,
                rows_view(before)[i as int].push(cells@),
            ));
            assert forall|k: int| 0 <= k < 0x38 && #[trigger] self@.rows[k].len() > 0 implies token::is_table_number(
                k as u8,
            ) by {
                if k != i {
                    assert(old(self)@.rows[k].len() > 0);
                }
            }
            assert forall|t: TableIndex, r: int|
                0 <= r < self@.rows[t.number() as int].len() implies #[trigger] self@.rows[t.number() as int][r].len()
                == tables::schema(t).len() by {
                if t.number() == table.number() {
                    token::table_number_injective(t, table);
                    if r < old(self)@.rows[i as int].len() {
                        assert(old(self)@.rows[t.number() as int][r].len() == tables::schema(
                            t,
                        ).len());
                    }
                } else {
                    assert(old(self)@.rows[t.number() as int][r].len() == tables::schema(t).len());
                }
            }
        }
        Ok(bytes::as_low32(n))
    }

    /// Inserts a string into `#Strings`, returning its index. The empty
    /// string maps to index 0; duplicates are folded.
    pub fn insert_string(&mut self, s: &str) -> (r: u32)
        ensures
            final(self)@ == (BuilderModel { strings: old(self)@.strings.with_string(s@).0, ..old(
                self,
            )@ }),
            r == old(self)@.strings.with_string(s@).1,
            old(self)@.sound() ==> final(self)@.sound(),
    {
        self.strings.insert_string(s)
    }

    /// Inserts a blob into `#Blob`, returning its index. The empty blob maps
    /// to index 0; duplicates are folded.
    pub fn insert_blob(&mut self, b: &[u8]) -> (r: u32)
        ensures
            final(self)@ == (BuilderModel { blobs: old(self)@.blobs.with_blob(b@).0, ..old(self)@ }),
            r == old(self)@.blobs.with_blob(b@).1,
            old(self)@.sound() ==> final(self)@.sound(),
    {
        self.blobs.insert_blob(b)
    }

    /// Inserts a GUID into `#GUID`, returning its 1-based index; duplicates
    /// are folded.
    pub fn insert_guid(&mut self, g: &[u8; 16]) -> (r: u32)
        ensures
            final(self)@ == (BuilderModel { guids: old(self)@.guids.with_guid(g@).0, ..old(self)@ }),
            r == old(self)@.guids.with_guid(g@).1,
            old(self)@.sound() ==> final(self)@.sound(),
    {
        self.guids.insert_guid(vstd::array::array_as_slice(g))
    }

    /// Inserts a user string into `#US`, returning its byte offset; the
    /// special-characters flag byte is computed from the content.
    pub fn insert_user_string(&mut self, s: &str) -> (r: u32)
        ensures
            final(self)@ == (BuilderModel {
                user_strings: old(self)@.user_strings.with_user_string(s@).0,
                ..old(self)@
            }),
            r == old(self)@.user_strings.with_user_string(s@).1,
            old(self)@.sound() ==> final(self)@.sound(),
    {
        self.user_strings.insert_user_string(s)
    }

    /// Current number of rows accumulated for `table`.
    pub fn row_count(&self, table: TableIndex) -> (n: u32)
        requires
            self@.sound(),
        ensures
            n == self@.counts()[table.number() as int],
    {
        bytes::as_low32(self.rows[table.to_u8() as usize].len())
    }

    /// Records the portable-PDB `#Pdb` heap payload emitted by
    /// [`MetadataBuilder::finalize`] as a `#Pdb` stream.
    ///
    /// `id` is the 20-byte PDB id (GUID + time stamp), `entry_point` the
    /// module entry point token, and `type_system_counts` the
    /// `(table byte, row count)` pairs, which are brought into ascending
    /// table order.
    pub fn set_pdb_heap(&mut self, id: [u8; 20], entry_point: Token, type_system_counts: &[(u8, u32)])
        requires
            old(self)@.sound(),
            forall|k: int|
                0 <= k < type_system_counts@.len() ==> #[trigger] type_system_counts@[k].0 < 64,
        ensures
            final(self)@ == (BuilderModel {
                pdb: Some(
                    PdbModel {
                        id: id@,
                        entry_point: entry_point.0,
                        table_counts: sorted_by_table(type_system_counts@),
                    },
                ),
                ..old(self)@
            }),
            final(self)@.sound(),
    {
        let n: usize = type_system_counts.len();
        let mut sorted: Vec<(u8, u32)> = Vec::new();
        let mut i: usize = 0;
        while i < n
            invariant
                i <= n,
                n == type_system_counts@.len(),
                sorted@ == sorted_by_table(type_system_counts@.take(i as int)),
                forall|k: int|
                    0 <= k < type_system_counts@.len() ==> #[trigger] type_system_counts@[k].0 < 64,
                forall|k: int| 0 <= k < sorted@.len() ==> #[trigger] sorted@[k].0 < 64,
            decreases n - i,
        {
            proof {
                let next = type_system_counts@.take(i + 1);
                assert(next.drop_last() =~= type_system_counts@.take(i as int));
                assert(next.last() == type_system_counts@[i as int]);
            }
            let x: (u8, u32) = type_system_counts[i];
            let ghost before = sorted@;
            let mut at: usize = sorted.len();
            proof {
                assert(before.skip(at as int) =~= Seq::<(u8, u32)>::empty());
                assert(before.take(at as int) =~= before);
                assert(insert_sorted(before, x) =~= insert_sorted(before, x) + before.skip(
                    at as int,
                ));
            }
            while at > 0 && sorted[at - 1].0 > x.0
                invariant
                    at <= before.len(),
                    sorted@ == before,
                    insert_sorted(before, x) == insert_sorted(before.take(at as int), x)
                        + before.skip(at as int),
                decreases at,
            {
                proof {
                    let front = before.take(at as int);
                    assert(front.drop_last() =~= before.take(at - 1));
                    assert(insert_sorted(before.take(at - 1), x).push(before[at - 1])
                        + before.skip(at as int) =~= insert_sorted(before.take(at - 1), x)
                        + before.skip(at - 1));
                }
                at -= 1;
            }
            sorted.insert(at, x);
            proof {
                assert(sorted@ =~= before.take(at as int).push(x) + before.skip(at as int));
                assert forall|k: int| 0 <= k < sorted@.len() implies #[trigger] sorted@[k].0 < 64 by {
                    if k < at {
                        assert(sorted@[k] == before[k]);
                    } else if k > at {
                        assert(sorted@[k] == before[k - 1]);
                    }
                }
            }
            i += 1;
        }
        proof {
            assert(type_system_counts@.take(n as int) =~= type_system_counts@);
        }
        self.pdb = Some(PdbHeapBuffer { id, entry_point, table_counts: sorted });
    }

    /// Serializes the complete BSJB root.
    ///
    /// Heap-size flags are derived from the final heap lengths (> `0xFFFF`
    /// bytes => 4-byte indexes); coded and simple index columns widen based on
    /// the final row counts.
    pub fn finalize(self) -> (out: Vec<u8>)
        requires
            self@.sound(),
        ensures
            out@ == self@.built(),
    {
        let ghost model = self@;
        let mut counts: [u32; TABLE_COUNT] = [0u32;TABLE_COUNT];
        let mut valid: u64 = 0;
        let mut i: usize = 0;
        while i < TABLE_COUNT
            invariant
                i <= 0x38,
                model == self@,
                self.rows@.len() == 0x38,
                valid == mask_upto(model.rows, i as nat),
                forall|k: int| 0 <= k < i ==> #[trigger] counts@[k] == model.counts()[k],
            decreases 0x38 - i,
        {
            let n: usize = self.rows[i].len();
            if n > 0 {
                valid = valid | (1u64 << (i as u64));
            }
            counts[i] = bytes::as_low32(n);
            i += 1;
        }
        proof {
            assert(counts@ =~= model.counts());
        }
        let heap_flags: u8 = (if self.strings.data.len() > 0xFFFF { 1 } else { 0 }) + (
        if self.guids.data.len() > 0xFFFF { 2 } else { 0 }) + (if self.blobs.data.len() > 0xFFFF {
            4
        } else {
            0
        });
        let set = TableSet::compute(valid, &counts, heap_flags);
        let mut tw = ByteWriter::new();
        tw.u32(0);
        tw.u8(2);
        tw.u8(0);
        tw.u8(heap_flags);
        tw.u8(10);
        tw.u64(valid);
        tw.u64(SORTED_MASK_DEFAULT);
        proof {
            assert(tw@ =~= model.table_head());
        }
        self.write_counts(&mut tw, valid, &counts);
        self.write_rows(&mut tw, &set);
        let table_stream = tw.into_vec();
        let pdb_stream: Vec<u8> = match &self.pdb {
            Some(p) => {
                proof {
                    assert(model.pdb == Some(p@));
                    assert forall|k: int| 0 <= k < p@.table_counts.len() implies #[trigger] p@.table_counts[k].0
                        < 64 by {
                        assert(model.pdb->Some_0.table_counts[k].0 < 64);
                    }
                }
                p.payload()
            },
            None => Vec::new(),
        };
        let mut streams: Vec<(&str, &[u8])> = Vec::new();
        streams.push(("#~", table_stream.as_slice()));
        streams.push(("#Strings", self.strings.data.as_slice()));
        if self.user_strings.data.len() > 0 {
            streams.push(("#US", self.user_strings.data.as_slice()));
        }
        if self.guids.data.len() > 0 {
            streams.push(("#GUID", self.guids.data.as_slice()));
        }
        if self.blobs.data.len() > 1 {
            streams.push(("#Blob", self.blobs.data.as_slice()));
        }
        if self.pdb.is_some() {
            streams.push(("#Pdb", pdb_stream.as_slice()));
        }
        proof {
            assert(root::named_payloads(streams@) =~= model.streams());
        }
        write_root(self.version.as_str(), streams.as_slice())
    }

    fn write_counts(&self, tw: &mut ByteWriter, valid: u64, counts: &[u32; TABLE_COUNT])
        requires
            valid == self@.valid(),
            counts@ == self@.counts(),
        ensures
            final(tw)@ == old(tw)@ + bytes::joined(self@.count_parts()),
    {
        let ghost parts = self@.count_parts();
        let ghost start = tw@;
        let mut i: usize = 0;
        proof {
            assert(start + bytes::joined(parts.take(0)) =~= start);
        }
        while i < TABLE_COUNT
            invariant
                i <= 0x38,
                valid == self@.valid(),
                counts@ == self@.counts(),
                parts == self@.count_parts(),
                tw@ == start + bytes::joined(parts.take(i as int)),
            decreases 0x38 - i,
        {
            proof {
                bytes::joined_step(parts, i as int);
            }
            if (valid >> (i as u64)) & 1 == 1 {
                tw.u32(counts[i]);
            }
            proof {
                assert(tw@ =~= start + bytes::joined(parts.take(i + 1)));
            }
            i += 1;
        }
        proof {
            assert(parts.take(0x38) =~= parts);
        }
    }

    fn write_rows(&self, tw: &mut ByteWriter, set: &TableSet)
        requires
            self@.sound(),
            set@ == self@.shape(),
        ensures
            final(tw)@ == old(tw)@ + bytes::joined(self@.row_tables()),
    {
        let valid: u64 = set.valid_mask();
        let ghost parts = self@.row_tables();
        let ghost start = tw@;
        let mut i: usize = 0;
        proof {
            assert(start + bytes::joined(parts.take(0)) =~= start);
        }
        while i < TABLE_COUNT
            invariant
                i <= 0x38,
                self@.sound(),
                set@ == self@.shape(),
                valid == self@.valid(),
                parts == self@.row_tables(),
                tw@ == start + bytes::joined(parts.take(i as int)),
            decreases 0x38 - i,
        {
            proof {
                bytes::joined_step(parts, i as int);
                valid_bits(self@.rows, 0x38, i as int);
            }
            if (valid >> (i as u64)) & 1 == 1 {
                match TableIndex::from_u8(i as u8) {
                    Some(table) => {
                        proof {
                            tables::table_at_number(table);
                        }
                        self.write_table(tw, set, table);
                    },
                    None => {
                        assert(false);
                    },
                }
            }
            proof {
                assert(tw@ =~= start + bytes::joined(parts.take(i + 1)));
            }
            i += 1;
        }
        proof {
            assert(parts.take(0x38) =~= parts);
        }
    }

    fn write_table(&self, tw: &mut ByteWriter, set: &TableSet, table: TableIndex)
        requires
            self@.sound(),
            set@ == self@.shape(),
        ensures
            final(tw)@ == old(tw)@ + bytes::joined(
                table_parts(self@.shape(), table, self@.rows[table.number() as int]),
            ),
    {
        let at: usize = table.to_u8() as usize;
        let rows = &self.rows[at];
        let n: usize = rows.len();
        let ghost model_rows = self@.rows[at as int];
        let ghost parts = table_parts(self@.shape(), table, model_rows);
        let ghost start = tw@;
        let mut r: usize = 0;
        proof {
            assert(start + bytes::joined(parts.take(0)) =~= start);
        }
        while r < n
            invariant
                r <= n,
                at == table.number(),
                n == rows@.len(),
                self@.sound(),
                set@ == self@.shape(),
                model_rows == self@.rows[at as int],
                model_rows == table_view(rows@),
                parts == table_parts(self@.shape(), table, model_rows),
                tw@ == start + bytes::joined(parts.take(r as int)),
            decreases n - r,
        {
            proof {
                bytes::joined_step(parts, r as int);
                assert(self@.rows[table.number() as int][r as int].len() == tables::schema(
                    table,
                ).len());
            }
            write_row(tw, set, table, &rows[r]);
            proof {
                assert(tw@ =~= start + bytes::joined(parts.take(r + 1)));
            }
            r += 1;
        }
        proof {
            assert(parts.take(n as int) =~= parts);
        }
    }
}

impl BuilderModel {
    /// The model with one more row.
    pub open spec fn with_row(self, table: TableIndex, cells: Seq<u64>) -> BuilderModel {
        let i = table.number() as int;
        BuilderModel { rows: self.rows.update(i, self.rows[i].push(cells)), ..self }
    }
}

impl PdbHeapBuffer {
    fn payload(&self) -> (out: Vec<u8>)
        requires
            forall|k: int| 0 <= k < self@.table_counts.len() ==> #[trigger] self@.table_counts[k].0 < 64,
        ensures
            out@ == self@.payload(),
    {
        let n: usize = self.table_counts.len();
        let mut valid: u64 = 0;
        let mut i: usize = 0;
        while i < n
            invariant
                i <= n,
                n == self.table_counts@.len(),
                valid == pair_mask(self@.table_counts, i as nat),
                forall|k: int|
                    0 <= k < self@.table_counts.len() ==> #[trigger] self@.table_counts[k].0 < 64,
            decreases n - i,
        {
            proof {
                assert(self@.table_counts[i as int].0 < 64);
            }
            valid = valid | (1u64 << (self.table_counts[i].0 as u64));
            i += 1;
        }
        let mut pw = ByteWriter::new();
        pw.bytes(vstd::array::array_as_slice(&self.id));
        pw.u32(self.entry_point.0);
        pw.u64(valid);
        let ghost start = pw@;
        let ghost parts = self@.count_parts();
        let mut j: usize = 0;
        proof {
            assert(start + bytes::joined(parts.take(0)) =~= start);
        }
        while j < n
            invariant
                j <= n,
                n == self.table_counts@.len(),
                parts == self@.count_parts(),
                pw@ == start + bytes::joined(parts.take(j as int)),
            decreases n - j,
        {
            proof {
                bytes::joined_step(parts, j as int);
            }
            pw.u32(self.table_counts[j].1);
            proof {
                assert(pw@ =~= start + bytes::joined(parts.take(j + 1)));
            }
            j += 1;
        }
        proof {
            assert(parts.take(n as int) =~= parts);
            assert(pw@ =~= self@.payload());
        }
        pw.into_vec()
    }
}

fn write_row(tw: &mut ByteWriter, set: &TableSet, table: TableIndex, row: &Vec<u64>)
    requires
        row@.len() == tables::schema(table).len(),
    ensures
        final(tw)@ == old(tw)@ + bytes::joined(row_parts(set@, table, row@)),
{
    let kinds: Vec<ColumnKind> = match column_kinds(table) {
        Some(k) => k,
        None => Vec::new(),
    };
    let n: usize = kinds.len();
    let ghost parts = row_parts(set@, table, row@);
    let ghost start = tw@;
    let mut c: usize = 0;
    proof {
        assert(start + bytes::joined(parts.take(0)) =~= start);
    }
    while c < n
        invariant
            c <= n,
            n == kinds@.len(),
            kinds@ == tables::schema(table),
            row@.len() == n,
            parts == row_parts(set@, table, row@),
            tw@ == start + bytes::joined(parts.take(c as int)),
        decreases n - c,
    {
        proof {
            bytes::joined_step(parts, c as int);
        }
        write_cell(tw, row[c], set.kind_width(&kinds[c]));
        proof {
            assert(tw@ =~= start + bytes::joined(parts.take(c + 1)));
        }
        c += 1;
    }
    proof {
        assert(parts.take(n as int) =~= parts);
    }
}

fn write_cell(w: &mut ByteWriter, value: u64, width: usize)
    ensures
        final(w)@ == old(w)@ + cell_bytes(value, width as nat),
{
    if width == 1 {
        w.u8((value % 0x100) as u8);
    } else if width == 2 {
        w.u16((value % 0x1_0000) as u16);
    } else {
        w.u32((value % 0x1_0000_0000) as u32);
    }
}

pub proof fn or_bit(m: u64, i: u64, j: u64)
    requires
        i < 64,
        j < 64,
    ensures
        ((m | (1u64 << i)) >> j) & 1 == (if i == j {
            1
        } else {
            (m >> j) & 1
        }),
{
    assert(((m | (1u64 << i)) >> j) & 1 == (if i == j {
        1
    } else {
        (m >> j) & 1
    })) by (bit_vector)
        requires
            i < 64,
            j < 64,
    ;
}

pub proof fn no_bit(j: u64)
    requires
        j < 64,
    ensures
        (0u64 >> j) & 1 == 0,
{
    assert((0u64 >> j) & 1 == 0) by (bit_vector)
        requires
            j < 64,
    ;
}

/// The mask has the bits of the tables that have rows, and no others.
pub proof fn valid_bits(rows: Seq<Seq<Seq<u64>>>, n: nat, i: int)
    requires
        n <= 64,
        0 <= i < 64,
    ensures
        tables::bit(mask_upto(rows, n), i) <==> i < n && rows[i].len() > 0,
    decreases n,
{
    if n == 0 {
        no_bit(i as u64);
    } else {
        valid_bits(rows, (n - 1) as nat, i);
        or_bit(mask_upto(rows, (n - 1) as nat), (n - 1) as u64, i as u64);
    }
}

} // verus!
