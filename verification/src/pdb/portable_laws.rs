//! What a portable PDB reader makes of the file that a portable PDB builder
//! wrote.

use vstd::prelude::*;

use crate::bytes;
use crate::io;
use crate::metadata::builder;
use crate::metadata::builder::{BuilderModel, HeapModel};
use crate::metadata::heap_laws;
use crate::metadata::heaps;
use crate::metadata::tables;
use crate::pdb::document::DocumentView;
use crate::pdb::portable_reader;
use crate::pdb::portable_reader::{ConstantView, ScopeView, VariableView};
use crate::pdb::portable_writer;
use crate::pdb::portable_writer::{PortableModel, SlotModel};
use crate::text;
use crate::token;
use crate::token::{CodedGroup, TableIndex, Token};

verus! {

broadcast use {crate::bytes::widths, crate::io::compressed_widths};

/// A heap holds all that another one does, in the same place.
pub open spec fn extends(new: Seq<u8>, base: Seq<u8>) -> bool {
    base.len() <= new.len() && new.take(base.len() as int) == base
}

proof fn extends_holds(new: Seq<u8>, base: Seq<u8>, at: int, part: Seq<u8>)
    requires
        extends(new, base),
        bytes::holds_at(base, at, part),
    ensures
        bytes::holds_at(new, at, part),
{
    assert(new.subrange(at, at + part.len()) =~= new.take(base.len() as int).subrange(
        at,
        at + part.len(),
    ));
}

pub(crate) proof fn extends_trans(c: Seq<u8>, b: Seq<u8>, a: Seq<u8>)
    requires
        extends(c, b),
        extends(b, a),
    ensures
        extends(c, a),
{
    assert(c.take(a.len() as int) =~= c.take(b.len() as int).take(a.len() as int));
}

pub(crate) proof fn extends_more(base: Seq<u8>, more: Seq<u8>)
    ensures
        extends(base + more, base),
        extends(base, base),
{
    assert((base + more).take(base.len() as int) =~= base);
    assert(base.take(base.len() as int) =~= base);
}

/// A blob stands in the heap at the index.
pub open spec fn blob_stored(data: Seq<u8>, index: u64, b: Seq<u8>) -> bool {
    if b.len() == 0 {
        index == 0
    } else {
        1 <= index && bytes::holds_at(data, index as int, builder::blob_bytes(b))
    }
}

/// A string stands in the heap at the index.
pub open spec fn string_stored(data: Seq<u8>, index: u64, t: Seq<char>) -> bool {
    if t.len() == 0 {
        index == 0
    } else {
        1 <= index && bytes::holds_at(data, index as int, text::utf8(t).push(0))
    }
}

/// A GUID stands in the heap with the number.
pub open spec fn guid_stored(data: Seq<u8>, number: u64, g: Seq<u8>) -> bool {
    1 <= number && g.len() == 16 && bytes::holds_at(data, 16 * (number - 1), g)
}

pub(crate) proof fn blob_kept(new: Seq<u8>, base: Seq<u8>, index: u64, b: Seq<u8>)
    requires
        extends(new, base),
        blob_stored(base, index, b),
    ensures
        blob_stored(new, index, b),
{
    if b.len() > 0 {
        extends_holds(new, base, index as int, builder::blob_bytes(b));
    }
}

pub(crate) proof fn blob_read(data: Seq<u8>, index: u64, b: Seq<u8>)
    requires
        data.len() <= 0xFFFF_FFFF,
        blob_stored(data, index, b),
        b.len() < 0x4000_0000,
    ensures
        heaps::blob_at(data, portable_reader::index_of(index)) == Some(b),
        index < 0x1_0000_0000,
{
    if b.len() > 0 {
        heap_laws::blob_stands(data, index as int, b);
    } else {
        assert(b =~= Seq::<u8>::empty());
    }
}

/// A blob is no longer than the heap that holds it.
pub(crate) proof fn small_blob(data: Seq<u8>, index: u64, b: Seq<u8>)
    requires
        blob_stored(data, index, b),
    ensures
        b.len() <= data.len(),
        index == 0 || index < data.len(),
{
    if b.len() > 0 {
        assert(builder::blob_bytes(b).len() >= b.len());
    }
}

pub(crate) proof fn string_read(data: Seq<u8>, index: u64, t: Seq<char>)
    requires
        data.len() <= 0xFFFF_FFFF,
        string_stored(data, index, t),
        bytes::zero_free(text::utf8(t)),
    ensures
        heaps::string_at(data, portable_reader::index_of(index)) == Some(t),
{
    if t.len() > 0 {
        let key = text::utf8(t);
        let p = index as int;
        let window = data.subrange(p, p + key.len() + 1);
        assert(window == key.push(0));
        assert(data[p + key.len()] == window[key.len() as int]);
        assert forall|k: int| p <= k < p + key.len() implies data[k] != 0 by {
            assert(window[k - p] == key[k - p]);
        }
        bytes::zero_from_is(data, p, p + key.len());
        assert(data.subrange(p, p + key.len()) =~= key);
        text::utf8_round_trip(t);
    } else {
        assert(t =~= Seq::<char>::empty());
    }
}

pub(crate) proof fn guid_read(data: Seq<u8>, number: u64, g: Seq<u8>)
    requires
        data.len() <= 0xFFFF_FFFF,
        guid_stored(data, number, g),
    ensures
        heaps::guid_at(data, portable_reader::index_of(number)) == g,
{
    assert(16 * (number - 1) + 16 <= data.len());
    assert(portable_reader::index_of(number) == number);
}

/// What inserting a blob does.
pub(crate) proof fn blob_added(h: HeapModel, b: Seq<u8>)
    requires
        heap_laws::blobs_sound(h),
        h.data.len() >= 1,
        h.with_blob(b).0.data.len() <= 0xFFFF_FFFF,
    ensures
        heap_laws::blobs_sound(h.with_blob(b).0),
        h.with_blob(b).0.data.len() >= 1,
        extends(h.with_blob(b).0.data, h.data),
        blob_stored(h.with_blob(b).0.data, h.with_blob(b).1 as u64, b),
{
    let (after, index) = h.with_blob(b);
    heap_laws::blobs_stay_sound(h, b);
    let encoded = builder::blob_bytes(b);
    extends_more(h.data, encoded);
    if b.len() > 0 {
        heap_laws::interning_is_stable(h, b, encoded, bytes::low32(h.data.len() as int), b);
        let k = heap_laws::lookup_entry(after.known, b);
        assert(heap_laws::placed(after.data, builder::blob_bytes(after.known[k].0), after.known[k].1, 1));
        let p = choose|p: int|
            1 <= p && #[trigger] bytes::holds_at(after.data, p, encoded) && index == bytes::low32(p);
        assert(index == p);
    }
}

/// What inserting a string does.
proof fn string_added(h: HeapModel, t: Seq<char>)
    requires
        heap_laws::strings_sound(h),
        h.data.len() >= 1,
        h.with_string(t).0.data.len() <= 0xFFFF_FFFF,
    ensures
        heap_laws::strings_sound(h.with_string(t).0),
        h.with_string(t).0.data.len() >= 1,
        extends(h.with_string(t).0.data, h.data),
        string_stored(h.with_string(t).0.data, h.with_string(t).1 as u64, t),
{
    let (after, index) = h.with_string(t);
    heap_laws::strings_stay_sound(h, t);
    let key = text::utf8(t);
    extends_more(h.data, key.push(0));
    if t.len() > 0 {
        heap_laws::interning_is_stable(
            h,
            key,
            key.push(0),
            bytes::low32(h.data.len() as int),
            key,
        );
        let k = heap_laws::lookup_entry(after.known, key);
        assert(heap_laws::placed(after.data, after.known[k].0.push(0), after.known[k].1, 1));
        let p = choose|p: int|
            1 <= p && #[trigger] bytes::holds_at(after.data, p, key.push(0)) && index
                == bytes::low32(p);
        assert(index == p);
    }
}

/// What inserting a GUID does.
pub(crate) proof fn guid_added(h: HeapModel, g: Seq<u8>)
    requires
        heap_laws::guids_sound(h),
        g.len() == 16,
        h.with_guid(g).0.data.len() <= 0xFFFF_FFFF,
    ensures
        heap_laws::guids_sound(h.with_guid(g).0),
        extends(h.with_guid(g).0.data, h.data),
        guid_stored(h.with_guid(g).0.data, h.with_guid(g).1 as u64, g),
{
    let (after, index) = h.with_guid(g);
    heap_laws::guids_stay_sound(h, g);
    extends_more(h.data, g);
    heap_laws::interning_is_stable(h, g, g, bytes::low32(h.data.len() as int / 16 + 1), g);
    let k = heap_laws::lookup_entry(after.known, g);
    assert(after.known[k].0.len() == 16);
    let q = choose|q: int|
        0 <= q && #[trigger] bytes::holds_at(after.data, 16 * q, g) && index == bytes::low32(q + 1);
    assert(index == q + 1);
    assert(16 * (index - 1) == 16 * q);
}

/// The text of the segments from the `k`-th one on, with the separators.
spec fn tail_text(parts: Seq<Seq<char>>, separator: u8, k: int) -> Seq<char>
    decreases parts.len() - k,
{
    if k < 0 || k >= parts.len() {
        Seq::empty()
    } else {
        portable_reader::joint(separator, k == 0) + parts[k] + tail_text(parts, separator, k + 1)
    }
}

proof fn tail_push(parts: Seq<Seq<char>>, separator: u8, part: Seq<char>, k: int)
    requires
        0 <= k <= parts.len(),
        parts.len() >= 1,
    ensures
        tail_text(parts.push(part), separator, k) == tail_text(parts, separator, k)
            + portable_reader::joint(separator, false) + part,
    decreases parts.len() - k,
{
    let more = parts.push(part);
    if k < parts.len() {
        tail_push(parts, separator, part, k + 1);
        assert(more[k] == parts[k]);
        assert(tail_text(more, separator, k) =~= tail_text(parts, separator, k)
            + portable_reader::joint(separator, false) + part);
    } else {
        assert(tail_text(more, separator, k + 1) =~= Seq::<char>::empty());
        assert(tail_text(more, separator, k) =~= portable_reader::joint(separator, false) + part);
        assert(tail_text(parts, separator, k) =~= Seq::<char>::empty());
        assert(tail_text(more, separator, k) =~= tail_text(parts, separator, k)
            + portable_reader::joint(separator, false) + part);
    }
}

proof fn tail_update(parts: Seq<Seq<char>>, separator: u8, x: char, k: int)
    requires
        0 <= k < parts.len(),
    ensures
        tail_text(parts.update(parts.len() - 1, parts.last().push(x)), separator, k) == tail_text(
            parts,
            separator,
            k,
        ).push(x),
    decreases parts.len() - k,
{
    let more = parts.update(parts.len() - 1, parts.last().push(x));
    if k < parts.len() - 1 {
        tail_update(parts, separator, x, k + 1);
        assert(more[k] == parts[k]);
    } else {
        assert(tail_text(more, separator, k + 1) =~= Seq::<char>::empty());
        assert(tail_text(parts, separator, k + 1) =~= Seq::<char>::empty());
    }
    assert(tail_text(more, separator, k) =~= tail_text(parts, separator, k).push(x));
}

/// A text is what its parts make up with the separators between them.
proof fn split_joins(t: Seq<char>, c: char, separator: u8)
    requires
        separator as char == c,
        separator != 0,
    ensures
        portable_writer::split(t, c).len() >= 1,
        tail_text(portable_writer::split(t, c), separator, 0) == t,
    decreases t.len(),
{
    let parts = portable_writer::split(t, c);
    if t.len() == 0 {
        assert(tail_text(parts, separator, 1) =~= Seq::<char>::empty());
        assert(tail_text(parts, separator, 0) =~= t);
    } else {
        let front = portable_writer::split(t.drop_last(), c);
        split_joins(t.drop_last(), c, separator);
        if t.last() == c {
            tail_push(front, separator, Seq::empty(), 0);
        } else {
            tail_update(front, separator, t.last(), 0);
        }
        assert(tail_text(parts, separator, 0) =~= t);
    }
}

/// The segments of a name make it up.
proof fn segments_join(name: Seq<char>)
    ensures
        tail_text(
            portable_writer::segments(name),
            portable_writer::separator_byte(name),
            0,
        ) == name,
{
    let separator = portable_writer::separator_byte(name);
    let parts = portable_writer::segments(name);
    match portable_writer::separator_of(name) {
        None => {
            assert(tail_text(parts, separator, 1) =~= Seq::<char>::empty());
            assert(tail_text(parts, separator, 0) =~= name);
        },
        Some(c) => {
            split_joins(name, c, separator);
        },
    }
}

/// The name of a document stands in the heap: its blob, and the segments that
/// this leads to.
pub open spec fn name_stored(data: Seq<u8>, index: u64, name: Seq<char>) -> bool {
    exists|indexes: Seq<u32>|
        blob_stored(data, index, #[trigger] portable_writer::name_blob(name, indexes))
            && segments_stored(data, indexes, portable_writer::segments(name))
}

/// The segments stand in the heap at the indexes.
pub open spec fn segments_stored(
    data: Seq<u8>,
    indexes: Seq<u32>,
    parts: Seq<Seq<char>>,
) -> bool {
    indexes.len() == parts.len() && forall|k: int|
        #![trigger indexes[k]]
        0 <= k < parts.len() ==> blob_stored(data, indexes[k] as u64, text::utf8(parts[k]))
}

proof fn segments_kept(new: Seq<u8>, base: Seq<u8>, indexes: Seq<u32>, parts: Seq<Seq<char>>)
    requires
        extends(new, base),
        segments_stored(base, indexes, parts),
    ensures
        segments_stored(new, indexes, parts),
{
    assert forall|k: int| #![trigger indexes[k]] 0 <= k < parts.len() implies blob_stored(
        new,
        indexes[k] as u64,
        text::utf8(parts[k]),
    ) by {
        blob_kept(new, base, indexes[k] as u64, text::utf8(parts[k]));
    }
}

proof fn name_kept(new: Seq<u8>, base: Seq<u8>, index: u64, name: Seq<char>)
    requires
        extends(new, base),
        name_stored(base, index, name),
    ensures
        name_stored(new, index, name),
{
    let indexes = choose|indexes: Seq<u32>|
        blob_stored(base, index, #[trigger] portable_writer::name_blob(name, indexes))
            && segments_stored(base, indexes, portable_writer::segments(name));
    blob_kept(new, base, index, portable_writer::name_blob(name, indexes));
    segments_kept(new, base, indexes, portable_writer::segments(name));
}

proof fn empty_utf8(t: Seq<char>)
    requires
        text::utf8(t).len() == 0,
    ensures
        t.len() == 0,
{
    let e = Seq::<char>::empty();
    text::utf8_round_trip(t);
    text::utf8_round_trip(e);
    assert(text::utf8(t) =~= Seq::<u8>::empty());
    vstd::utf8::encode_utf8_decode_utf8(t);
    reveal_with_fuel(vstd::utf8::encode_utf8, 2);
    assert(text::utf8(e) =~= Seq::<u8>::empty());
    text::utf8_injective(t, e);
}

proof fn segment_reads(data: Seq<u8>, index: u32, part: Seq<char>)
    requires
        data.len() < 0x4000_0000,
        blob_stored(data, index as u64, text::utf8(part)),
    ensures
        portable_reader::segment_text(data, index) == Some(part),
{
    small_blob(data, index as u64, text::utf8(part));
    blob_read(data, index as u64, text::utf8(part));
    text::utf8_round_trip(part);
    if index == 0 {
        empty_utf8(part);
        assert(part =~= Seq::<char>::empty());
    }
}

proof fn names_read(
    data: Seq<u8>,
    blob: Seq<u8>,
    separator: u8,
    indexes: Seq<u32>,
    parts: Seq<Seq<char>>,
    k: int,
)
    requires
        data.len() < 0x4000_0000,
        blob == seq![separator] + bytes::joined(portable_writer::index_parts(indexes)),
        segments_stored(data, indexes, parts),
        0 <= k <= parts.len(),
    ensures
        portable_reader::name_from(
            data,
            blob,
            separator,
            1 + bytes::joined(portable_writer::index_parts(indexes).take(k)).len() as int,
            k == 0,
        ) == Some(tail_text(parts, separator, k)),
    decreases parts.len() - k,
{
    let list = portable_writer::index_parts(indexes);
    let body = bytes::joined(list);
    let here = 1 + bytes::joined(list.take(k)).len() as int;
    if k < parts.len() {
        bytes::joined_part(list, k);
        bytes::holds_shifted(
            seq![separator],
            body,
            bytes::joined(list.take(k)).len() as int,
            list[k],
        );
        small_blob(data, indexes[k] as u64, text::utf8(parts[k]));
        if text::utf8(parts[k]).len() > 0 {
            assert(indexes[k] < data.len());
        }
        io::compressed_u32_round_trip(blob, here, indexes[k]);
        segment_reads(data, indexes[k], parts[k]);
        names_read(data, blob, separator, indexes, parts, k + 1);
        assert(tail_text(parts, separator, k) == portable_reader::joint(separator, k == 0)
            + parts[k] + tail_text(parts, separator, k + 1));
    } else {
        assert(list.take(k) =~= list);
    }
}

/// A name that stands in the heap reads back.
pub(crate) proof fn name_reads(data: Seq<u8>, index: u64, name: Seq<char>)
    requires
        data.len() < 0x4000_0000,
        name_stored(data, index, name),
    ensures
        heaps::blob_at(data, portable_reader::index_of(index)) matches Some(b)
            && portable_reader::document_name(data, b) == Some(name),
{
    let indexes = choose|indexes: Seq<u32>|
        blob_stored(data, index, #[trigger] portable_writer::name_blob(name, indexes))
            && segments_stored(data, indexes, portable_writer::segments(name));
    let blob = portable_writer::name_blob(name, indexes);
    let parts = portable_writer::segments(name);
    let separator = portable_writer::separator_byte(name);
    small_blob(data, index, blob);
    blob_read(data, index, blob);
    names_read(data, blob, separator, indexes, parts, 0);
    assert(portable_writer::index_parts(indexes).take(0) =~= Seq::<Seq<u8>>::empty());
    segments_join(name);
}

/// What inserting the segments of a name does.
proof fn segments_added(h: HeapModel, parts: Seq<Seq<char>>, n: nat)
    requires
        heap_laws::blobs_sound(h),
        h.data.len() >= 1,
        n <= parts.len(),
        portable_writer::with_segments(h, parts, n).0.data.len() <= 0xFFFF_FFFF,
    ensures
        ({
            let (after, indexes) = portable_writer::with_segments(h, parts, n);
            &&& heap_laws::blobs_sound(after)
            &&& after.data.len() >= 1
            &&& extends(after.data, h.data)
            &&& segments_stored(after.data, indexes, parts.take(n as int))
        }),
    decreases n,
{
    if n == 0 {
        extends_more(h.data, Seq::empty());
    } else {
        let (before, indexes) = portable_writer::with_segments(h, parts, (n - 1) as nat);
        let part = text::utf8(parts[n - 1]);
        heap_grows(before, part);
        segments_added(h, parts, (n - 1) as nat);
        blob_added(before, part);
        let (after, index) = before.with_blob(part);
        extends_trans(after.data, before.data, h.data);
        segments_kept(after.data, before.data, indexes, parts.take(n - 1));
        let more = indexes.push(index);
        assert forall|k: int| #![trigger more[k]] 0 <= k < n implies blob_stored(
            after.data,
            more[k] as u64,
            text::utf8(parts.take(n as int)[k]),
        ) by {
            if k < n - 1 {
                assert(more[k] == indexes[k]);
                assert(parts.take(n - 1)[k] == parts[k]);
            }
        }
    }
}

/// A heap does not shrink.
proof fn heap_grows(h: HeapModel, b: Seq<u8>)
    ensures
        h.data.len() <= h.with_blob(b).0.data.len(),
{
}

/// What inserting a name does.
proof fn name_added(h: HeapModel, name: Seq<char>)
    requires
        heap_laws::blobs_sound(h),
        h.data.len() >= 1,
        portable_writer::with_name(h, name).0.data.len() <= 0xFFFF_FFFF,
    ensures
        ({
            let (after, index) = portable_writer::with_name(h, name);
            &&& heap_laws::blobs_sound(after)
            &&& after.data.len() >= 1
            &&& extends(after.data, h.data)
            &&& name_stored(after.data, index as u64, name)
        }),
{
    let parts = portable_writer::segments(name);
    let (mid, indexes) = portable_writer::with_segments(h, parts, parts.len());
    let blob = portable_writer::name_blob(name, indexes);
    heap_grows(mid, blob);
    segments_added(h, parts, parts.len());
    assert(parts.take(parts.len() as int) =~= parts);
    blob_added(mid, blob);
    let (after, index) = mid.with_blob(blob);
    extends_trans(after.data, mid.data, h.data);
    segments_kept(after.data, mid.data, indexes, parts);
    assert(blob_stored(after.data, index as u64, portable_writer::name_blob(name, indexes)));
}

/// What a portable PDB is about.
#[verifier::ext_equal]
pub struct PortableContent {
    pub documents: Seq<DocumentView>,
    pub variables: Seq<VariableView>,
    pub constants: Seq<ConstantView>,
    pub scopes: Seq<ScopeView>,
    /// The parent and the imports of every import scope.
    pub imports: Seq<(u32, Seq<u8>)>,
    pub customs: Seq<CustomView>,
}

/// A piece of custom debug information.
#[verifier::ext_equal]
pub struct CustomView {
    pub parent: Token,
    pub kind: Seq<u8>,
    pub value: Seq<u8>,
}

/// A portable PDB about nothing.
pub open spec fn no_content() -> PortableContent {
    PortableContent {
        documents: Seq::empty(),
        variables: Seq::empty(),
        constants: Seq::empty(),
        scopes: Seq::empty(),
        imports: Seq::empty(),
        customs: Seq::empty(),
    }
}

/// A row and the heaps hold the import scope.
pub open spec fn import_stored(md: BuilderModel, row: Seq<u64>, i: (u32, Seq<u8>)) -> bool {
    &&& row.len() == 2
    &&& row[0] == i.0
    &&& blob_stored(md.blobs.data, row[1], i.1)
}

/// The cell of a parent of custom debug information.
pub open spec fn parent_cell(parent: Token) -> Option<u64> {
    portable_writer::owner_cell(parent, CodedGroup::HasCustomDebugInformation.members(), 0)
}

/// A row and the heaps hold the custom debug information.
pub open spec fn custom_stored(md: BuilderModel, row: Seq<u64>, v: CustomView) -> bool {
    &&& row.len() == 3
    &&& parent_cell(v.parent) == Some(row[0])
    &&& guid_stored(md.guids.data, row[1], v.kind)
    &&& blob_stored(md.blobs.data, row[2], v.value)
}

/// A row and the heaps hold the document.
pub open spec fn document_stored(md: BuilderModel, row: Seq<u64>, d: DocumentView) -> bool {
    &&& row.len() == 4
    &&& name_stored(md.blobs.data, row[0], d.name)
    &&& guid_stored(md.guids.data, row[1], d.hash_algorithm)
    &&& blob_stored(md.blobs.data, row[2], d.hash)
    &&& guid_stored(md.guids.data, row[3], d.language)
}

/// A row and the heaps hold the variable.
pub open spec fn variable_stored(md: BuilderModel, row: Seq<u64>, v: VariableView) -> bool {
    &&& row.len() == 3
    &&& row[0] == v.attributes
    &&& row[1] == v.index
    &&& string_stored(md.strings.data, row[2], v.name)
}

/// A row and the heaps hold the constant.
pub open spec fn constant_stored(md: BuilderModel, row: Seq<u64>, c: ConstantView) -> bool {
    &&& row.len() == 2
    &&& string_stored(md.strings.data, row[0], c.name)
    &&& blob_stored(md.blobs.data, row[1], c.signature)
}

/// How many variables the first `k` scopes own.
pub open spec fn variables_before(scopes: Seq<ScopeView>, k: int) -> nat
    decreases k,
{
    if k <= 0 {
        0
    } else {
        variables_before(scopes, k - 1) + scopes[k - 1].variables.len()
    }
}

/// How many constants the first `k` scopes own.
pub open spec fn constants_before(scopes: Seq<ScopeView>, k: int) -> nat
    decreases k,
{
    if k <= 0 {
        0
    } else {
        constants_before(scopes, k - 1) + scopes[k - 1].constants.len()
    }
}

/// A row holds the `k`-th scope, whose variables and constants follow those of
/// the scopes before it.
pub open spec fn scope_stored(scopes: Seq<ScopeView>, k: int, row: Seq<u64>) -> bool {
    let scope = scopes[k];
    let first_variable = 1 + variables_before(scopes, k);
    let first_constant = 1 + constants_before(scopes, k);
    &&& row.len() == 6
    &&& row[0] == scope.method.row()
    &&& row[1] == scope.import_scope
    &&& row[2] == first_variable
    &&& row[3] == first_constant
    &&& row[4] == bytes::u32_of(scope.try_start)
    &&& row[5] == bytes::u32_of(scope.try_length)
    &&& scope.method == token::token_of(TableIndex::MethodDef, scope.method.row())
    &&& scope.kind == 0
    &&& scope.handler_start == -1
    &&& scope.handler_length == -1
    &&& scope.variables == portable_reader::run(
        (first_variable as u32, scope.variables.len() as u32),
    )
    &&& scope.constants == portable_reader::run(
        (first_constant as u32, scope.constants.len() as u32),
    )
}

/// The heaps hold what they were given, and fit 32 bits.
pub open spec fn heaps_stored(md: BuilderModel) -> bool {
    &&& heap_laws::strings_sound(md.strings)
    &&& heap_laws::blobs_sound(md.blobs)
    &&& heap_laws::guids_sound(md.guids)
    &&& 1 <= md.strings.data.len() <= 0xFFFF_FFFF
    &&& 1 <= md.blobs.data.len() <= 0xFFFF_FFFF
    &&& md.guids.data.len() <= 0xFFFF_FFFF
}

/// The rows that a builder keeps have a cell for each column, and no table has
/// rows yet.
pub open spec fn shaped(m: PortableModel) -> bool {
    &&& m.sound()
    &&& forall|i: int| 0 <= i < 0x38 ==> (#[trigger] m.metadata.rows[i]).len() == 0
    &&& forall|k: int| 0 <= k < m.document_rows.len() ==> (#[trigger] m.document_rows[k]).len() == 4
    &&& forall|k: int| 0 <= k < m.variable_rows.len() ==> (#[trigger] m.variable_rows[k]).len() == 3
    &&& forall|k: int| 0 <= k < m.constant_rows.len() ==> (#[trigger] m.constant_rows[k]).len() == 2
    &&& forall|k: int| 0 <= k < m.scope_rows.len() ==> (#[trigger] m.scope_rows[k]).len() == 6
    &&& forall|k: int| 0 <= k < m.import_rows.len() ==> (#[trigger] m.import_rows[k]).len() == 2
    &&& forall|k: int| 0 <= k < m.custom_rows.len() ==> (#[trigger] m.custom_rows[k]).len() == 3
}

/// A builder that holds content is shaped.
pub(crate) proof fn stored_is_shaped(m: PortableModel, c: PortableContent)
    requires
        stored(m, c),
    ensures
        shaped(m),
{
    assert forall|k: int| 0 <= k < m.document_rows.len() implies (
    #[trigger] m.document_rows[k]).len() == 4 by {
        assert(document_stored(m.metadata, m.document_rows[k], c.documents[k]));
    }
    assert forall|k: int| 0 <= k < m.variable_rows.len() implies (
    #[trigger] m.variable_rows[k]).len() == 3 by {
        assert(variable_stored(m.metadata, m.variable_rows[k], c.variables[k]));
    }
    assert forall|k: int| 0 <= k < m.constant_rows.len() implies (
    #[trigger] m.constant_rows[k]).len() == 2 by {
        assert(constant_stored(m.metadata, m.constant_rows[k], c.constants[k]));
    }
    assert forall|k: int| 0 <= k < m.scope_rows.len() implies (#[trigger] m.scope_rows[k]).len()
        == 6 by {
        assert(scope_stored(c.scopes, k, m.scope_rows[k]));
    }
    assert forall|k: int| 0 <= k < m.import_rows.len() implies (
    #[trigger] m.import_rows[k]).len() == 2 by {
        assert(import_stored(m.metadata, m.import_rows[k], c.imports[k]));
    }
    assert forall|k: int| 0 <= k < m.custom_rows.len() implies (
    #[trigger] m.custom_rows[k]).len() == 3 by {
        assert(custom_stored(m.metadata, m.custom_rows[k], c.customs[k]));
    }
}

/// A builder holds the content.
pub open spec fn describes(m: PortableModel, c: PortableContent) -> bool {
    &&& stored(m, c)
    &&& variables_before(c.scopes, c.scopes.len() as int) == c.variables.len()
    &&& constants_before(c.scopes, c.scopes.len() as int) == c.constants.len()
}

/// The rows and the heaps of a builder hold the content.
pub open spec fn stored(m: PortableModel, c: PortableContent) -> bool {
    &&& m.sound()
    &&& heaps_stored(m.metadata)
    &&& forall|i: int| 0 <= i < 0x38 ==> (#[trigger] m.metadata.rows[i]).len() == 0
    &&& m.document_rows.len() == c.documents.len()
    &&& forall|k: int|
        #![trigger c.documents[k]]
        #![trigger m.document_rows[k]]
        0 <= k < c.documents.len() ==> document_stored(
            m.metadata,
            m.document_rows[k],
            c.documents[k],
        )
    &&& m.variable_rows.len() == c.variables.len()
    &&& forall|k: int|
        #![trigger c.variables[k]]
        #![trigger m.variable_rows[k]]
        0 <= k < c.variables.len() ==> variable_stored(
            m.metadata,
            m.variable_rows[k],
            c.variables[k],
        )
    &&& m.constant_rows.len() == c.constants.len()
    &&& forall|k: int|
        #![trigger c.constants[k]]
        #![trigger m.constant_rows[k]]
        0 <= k < c.constants.len() ==> constant_stored(
            m.metadata,
            m.constant_rows[k],
            c.constants[k],
        )
    &&& m.scope_rows.len() == c.scopes.len()
    &&& forall|k: int|
        #![trigger c.scopes[k]]
        #![trigger m.scope_rows[k]]
        0 <= k < c.scopes.len() ==> scope_stored(c.scopes, k, m.scope_rows[k])
    &&& m.import_rows.len() == c.imports.len()
    &&& forall|k: int|
        #![trigger c.imports[k]]
        #![trigger m.import_rows[k]]
        0 <= k < c.imports.len() ==> import_stored(m.metadata, m.import_rows[k], c.imports[k])
    &&& m.custom_rows.len() == c.customs.len()
    &&& forall|k: int|
        #![trigger c.customs[k]]
        #![trigger m.custom_rows[k]]
        0 <= k < c.customs.len() ==> custom_stored(m.metadata, m.custom_rows[k], c.customs[k])
}

/// The heaps of one builder extend those of another.
pub open spec fn heaps_extend(new: BuilderModel, base: BuilderModel) -> bool {
    &&& extends(new.strings.data, base.strings.data)
    &&& extends(new.blobs.data, base.blobs.data)
    &&& extends(new.guids.data, base.guids.data)
}

pub(crate) proof fn heaps_extend_self(md: BuilderModel)
    ensures
        heaps_extend(md, md),
{
    extends_more(md.strings.data, Seq::empty());
    extends_more(md.blobs.data, Seq::empty());
    extends_more(md.guids.data, Seq::empty());
}

pub(crate) proof fn document_kept(new: BuilderModel, base: BuilderModel, row: Seq<u64>, d: DocumentView)
    requires
        heaps_extend(new, base),
        document_stored(base, row, d),
    ensures
        document_stored(new, row, d),
{
    name_kept(new.blobs.data, base.blobs.data, row[0], d.name);
    extends_holds(new.guids.data, base.guids.data, 16 * (row[1] - 1), d.hash_algorithm);
    blob_kept(new.blobs.data, base.blobs.data, row[2], d.hash);
    extends_holds(new.guids.data, base.guids.data, 16 * (row[3] - 1), d.language);
}

proof fn string_kept(new: Seq<u8>, base: Seq<u8>, index: u64, t: Seq<char>)
    requires
        extends(new, base),
        string_stored(base, index, t),
    ensures
        string_stored(new, index, t),
{
    if t.len() > 0 {
        extends_holds(new, base, index as int, text::utf8(t).push(0));
    }
}

pub(crate) proof fn variable_kept(new: BuilderModel, base: BuilderModel, row: Seq<u64>, v: VariableView)
    requires
        heaps_extend(new, base),
        variable_stored(base, row, v),
    ensures
        variable_stored(new, row, v),
{
    string_kept(new.strings.data, base.strings.data, row[2], v.name);
}

pub(crate) proof fn constant_kept(new: BuilderModel, base: BuilderModel, row: Seq<u64>, c: ConstantView)
    requires
        heaps_extend(new, base),
        constant_stored(base, row, c),
    ensures
        constant_stored(new, row, c),
{
    string_kept(new.strings.data, base.strings.data, row[0], c.name);
    blob_kept(new.blobs.data, base.blobs.data, row[1], c.signature);
}

pub(crate) proof fn custom_kept(new: BuilderModel, base: BuilderModel, row: Seq<u64>, v: CustomView)
    requires
        heaps_extend(new, base),
        custom_stored(base, row, v),
    ensures
        custom_stored(new, row, v),
{
    extends_holds(new.guids.data, base.guids.data, 16 * (row[1] - 1), v.kind);
    blob_kept(new.blobs.data, base.blobs.data, row[2], v.value);
}

/// What grows the heaps of a builder keeps its content.
proof fn content_kept(new: PortableModel, base: PortableModel, c: PortableContent)
    requires
        stored(base, c),
        heaps_extend(new.metadata, base.metadata),
        heaps_stored(new.metadata),
        new.metadata.rows == base.metadata.rows,
        new.metadata.pdb == base.metadata.pdb,
        new.names == base.names,
        new.document_rows == base.document_rows,
        new.variable_rows == base.variable_rows,
        new.constant_rows == base.constant_rows,
        new.scope_rows == base.scope_rows,
        new.import_rows == base.import_rows,
        new.custom_rows == base.custom_rows,
    ensures
        stored(new, c),
{
    assert forall|k: int|
        #![trigger c.imports[k]]
        #![trigger new.import_rows[k]]
        0 <= k < c.imports.len() implies import_stored(
        new.metadata,
        new.import_rows[k],
        c.imports[k],
    ) by {
        assert(import_stored(base.metadata, base.import_rows[k], c.imports[k]));
        blob_kept(
            new.metadata.blobs.data,
            base.metadata.blobs.data,
            base.import_rows[k][1],
            c.imports[k].1,
        );
    }
    assert forall|k: int|
        #![trigger c.customs[k]]
        #![trigger new.custom_rows[k]]
        0 <= k < c.customs.len() implies custom_stored(
        new.metadata,
        new.custom_rows[k],
        c.customs[k],
    ) by {
        custom_kept(new.metadata, base.metadata, base.custom_rows[k], c.customs[k]);
    }
    assert forall|k: int|
        #![trigger c.documents[k]]
        #![trigger new.document_rows[k]]
        0 <= k < c.documents.len() implies document_stored(
        new.metadata,
        new.document_rows[k],
        c.documents[k],
    ) by {
        document_kept(new.metadata, base.metadata, base.document_rows[k], c.documents[k]);
    }
    assert forall|k: int|
        #![trigger c.variables[k]]
        #![trigger new.variable_rows[k]]
        0 <= k < c.variables.len() implies variable_stored(
        new.metadata,
        new.variable_rows[k],
        c.variables[k],
    ) by {
        variable_kept(new.metadata, base.metadata, base.variable_rows[k], c.variables[k]);
    }
    assert forall|k: int|
        #![trigger c.constants[k]]
        #![trigger new.constant_rows[k]]
        0 <= k < c.constants.len() implies constant_stored(
        new.metadata,
        new.constant_rows[k],
        c.constants[k],
    ) by {
        constant_kept(new.metadata, base.metadata, base.constant_rows[k], c.constants[k]);
    }
}

/// A fresh builder holds nothing.
pub proof fn fresh_builder_describes_nothing(version: Seq<char>)
    ensures
        describes(portable_writer::fresh_portable(version), no_content()),
{
    let m = portable_writer::fresh_portable(version);
    heap_laws::strings_stay_sound(m.metadata.strings, Seq::empty());
    heap_laws::blobs_stay_sound(m.metadata.blobs, Seq::empty());
    heap_laws::guids_stay_sound(m.metadata.guids, bytes::zero_bytes(16));
}

/// A document that is added is added to the content. This holds as long as the
/// heaps fit 32 bits.
pub proof fn added_document_is_described(
    m: PortableModel,
    c: PortableContent,
    name: Seq<char>,
    hash_algorithm: Seq<u8>,
    hash: Seq<u8>,
    language: Seq<u8>,
)
    requires
        describes(m, c),
        hash_algorithm.len() == 16,
        language.len() == 16,
        m.with_document(name, hash_algorithm, hash, language).metadata.blobs.data.len()
            <= 0xFFFF_FFFF,
        m.with_document(name, hash_algorithm, hash, language).metadata.guids.data.len()
            <= 0xFFFF_FFFF,
    ensures
        describes(
            m.with_document(name, hash_algorithm, hash, language),
            (PortableContent {
                documents: c.documents.push(
                    DocumentView { name, hash_algorithm, hash, language },
                ),
                ..c
            }),
        ),
{
    let after = m.with_document(name, hash_algorithm, hash, language);
    let md = m.metadata;
    let (named, name_index) = portable_writer::with_name(md.blobs, name);
    let (guids, algorithm_index) = md.guids.with_guid(hash_algorithm);
    let (blobs, hash_index) = named.with_blob(hash);
    let (last, language_index) = guids.with_guid(language);
    heap_grows(named, hash);
    name_added(md.blobs, name);
    blob_added(named, hash);
    guid_added(md.guids, hash_algorithm);
    guid_added(guids, language);
    extends_trans(blobs.data, named.data, md.blobs.data);
    extends_trans(last.data, guids.data, md.guids.data);
    extends_more(md.strings.data, Seq::empty());
    name_kept(blobs.data, named.data, name_index as u64, name);
    extends_holds(last.data, guids.data, 16 * (algorithm_index - 1), hash_algorithm);
    let plain = PortableModel { metadata: after.metadata, ..m };
    content_kept(plain, m, c);
    let d = DocumentView { name, hash_algorithm, hash, language };
    let row = seq![
        name_index as u64,
        algorithm_index as u64,
        hash_index as u64,
        language_index as u64,
    ];
    assert(document_stored(after.metadata, row, d));
    let all = c.documents.push(d);
    assert forall|k: int|
        #![trigger all[k]]
        #![trigger after.document_rows[k]]
        0 <= k < all.len() implies document_stored(
        after.metadata,
        after.document_rows[k],
        all[k],
    ) by {
        if k < c.documents.len() {
            assert(all[k] == c.documents[k]);
            assert(after.document_rows[k] == m.document_rows[k]);
            assert(document_stored(plain.metadata, m.document_rows[k], c.documents[k]));
        }
    }
}

/// An import scope that is added is added to the content.
pub proof fn added_import_is_described(
    m: PortableModel,
    c: PortableContent,
    parent: u32,
    imports: Seq<u8>,
)
    requires
        describes(m, c),
        m.with_import(parent, imports).metadata.blobs.data.len() <= 0xFFFF_FFFF,
    ensures
        describes(
            m.with_import(parent, imports),
            (PortableContent { imports: c.imports.push((parent, imports)), ..c }),
        ),
{
    let after = m.with_import(parent, imports);
    heaps_extend_self(m.metadata);
    blob_added(m.metadata.blobs, imports);
    let plain = PortableModel { metadata: after.metadata, ..m };
    content_kept(plain, m, c);
    let all = c.imports.push((parent, imports));
    assert forall|k: int|
        #![trigger all[k]]
        #![trigger after.import_rows[k]]
        0 <= k < all.len() implies import_stored(after.metadata, after.import_rows[k], all[k]) by {
        if k < c.imports.len() {
            assert(all[k] == c.imports[k]);
            assert(after.import_rows[k] == m.import_rows[k]);
            assert(import_stored(plain.metadata, m.import_rows[k], c.imports[k]));
        }
    }
}

/// The cell of a parent fits 32 bits and leads back to the parent.
pub proof fn parent_decodes(parent: Token)
    ensures
        parent_cell(parent) matches Some(cell) ==> cell <= 0xFFFF_FFFF && (tables::decoded(
            CodedGroup::HasCustomDebugInformation.members(),
            CodedGroup::HasCustomDebugInformation.bits(),
            cell,
        ) matches Some((t, rid)) && t.number() == parent.table_number() && rid == parent.row()),
{
    owner_decodes(parent, CodedGroup::HasCustomDebugInformation.members(), 0);
}

proof fn owner_decodes(parent: Token, members: Seq<TableIndex>, tag: int)
    requires
        0 <= tag,
        members == CodedGroup::HasCustomDebugInformation.members(),
    ensures
        portable_writer::owner_cell(parent, members, tag) matches Some(cell) ==> cell
            <= 0xFFFF_FFFF && (tables::decoded(
            members,
            CodedGroup::HasCustomDebugInformation.bits(),
            cell,
        ) matches Some((t, rid)) && t.number() == parent.table_number() && rid == parent.row()),
    decreases members.len() - tag,
{
    if tag < members.len() {
        if members[tag].number() == parent.table_number() {
            tables::coded_round_trip(
                members,
                CodedGroup::HasCustomDebugInformation.bits(),
                tag,
                parent.row(),
            );
        } else {
            owner_decodes(parent, members, tag + 1);
        }
    }
}

/// Custom debug information that is added is added to the content.
pub proof fn added_custom_is_described(
    m: PortableModel,
    c: PortableContent,
    parent: Token,
    cell: u64,
    kind: Seq<u8>,
    value: Seq<u8>,
)
    requires
        describes(m, c),
        parent_cell(parent) == Some(cell),
        kind.len() == 16,
        m.with_custom(cell, kind, value).metadata.blobs.data.len() <= 0xFFFF_FFFF,
        m.with_custom(cell, kind, value).metadata.guids.data.len() <= 0xFFFF_FFFF,
    ensures
        describes(
            m.with_custom(cell, kind, value),
            (PortableContent { customs: c.customs.push(CustomView { parent, kind, value }), ..c }),
        ),
{
    let after = m.with_custom(cell, kind, value);
    heaps_extend_self(m.metadata);
    guid_added(m.metadata.guids, kind);
    blob_added(m.metadata.blobs, value);
    let plain = PortableModel { metadata: after.metadata, ..m };
    content_kept(plain, m, c);
    parent_decodes(parent);
    let all = c.customs.push(CustomView { parent, kind, value });
    assert forall|k: int|
        #![trigger all[k]]
        #![trigger after.custom_rows[k]]
        0 <= k < all.len() implies custom_stored(after.metadata, after.custom_rows[k], all[k]) by {
        if k < c.customs.len() {
            assert(all[k] == c.customs[k]);
            assert(after.custom_rows[k] == m.custom_rows[k]);
            assert(custom_stored(plain.metadata, m.custom_rows[k], c.customs[k]));
        }
    }
}

/// What is recorded of a method leaves the content as it is.
pub proof fn recorded_method_keeps_content(
    m: PortableModel,
    c: PortableContent,
    rid: u32,
    slot: SlotModel,
)
    requires
        describes(m, c),
    ensures
        describes(m.with_slot(rid, slot), c),
{
    heaps_extend_self(m.metadata);
    content_kept(m.with_slot(rid, slot), m, c);
}

/// The variables that a scope is given.
pub open spec fn given_variables(variables: Seq<(u16, Seq<char>, u32)>) -> Seq<VariableView> {
    Seq::new(
        variables.len(),
        |k: int|
            VariableView {
                index: variables[k].0,
                attributes: bytes::low16(variables[k].2 as int),
                name: variables[k].1,
            },
    )
}

/// The constants that a scope is given.
pub open spec fn given_constants(constants: Seq<(Seq<char>, Seq<u8>)>) -> Seq<ConstantView> {
    Seq::new(
        constants.len(),
        |k: int| ConstantView { name: constants[k].0, signature: constants[k].1 },
    )
}

proof fn variables_added(
    m: PortableModel,
    c: PortableContent,
    variables: Seq<(u16, Seq<char>, u32)>,
    n: nat,
)
    requires
        stored(m, c),
        n <= variables.len(),
        m.with_variables(variables, n).metadata.strings.data.len() <= 0xFFFF_FFFF,
    ensures
        stored(
            m.with_variables(variables, n),
            (PortableContent {
                variables: c.variables + given_variables(variables).take(n as int),
                ..c
            }),
        ),
    decreases n,
{
    let given = given_variables(variables);
    if n == 0 {
        assert(c.variables + given.take(0) =~= c.variables);
    } else {
        let before = m.with_variables(variables, (n - 1) as nat);
        let after = m.with_variables(variables, n);
        let (index, name, attributes) = variables[n - 1];
        let (strings, name_index) = before.metadata.strings.with_string(name);
        assert(before.metadata.strings.data.len() <= strings.data.len());
        variables_added(m, c, variables, (n - 1) as nat);
        let had = PortableContent {
            variables: c.variables + given.take(n - 1),
            ..c
        };
        string_added(before.metadata.strings, name);
        heaps_extend_self(before.metadata);
        let plain = PortableModel { metadata: after.metadata, ..before };
        content_kept(plain, before, had);
        let all = c.variables + given.take(n as int);
        assert(all =~= had.variables.push(given[n - 1]));
        assert forall|k: int|
            #![trigger all[k]]
            #![trigger after.variable_rows[k]]
            0 <= k < all.len() implies variable_stored(
            after.metadata,
            after.variable_rows[k],
            all[k],
        ) by {
            if k < had.variables.len() {
                assert(all[k] == had.variables[k]);
                assert(after.variable_rows[k] == plain.variable_rows[k]);
            }
        }
    }
}

proof fn constants_added(
    m: PortableModel,
    c: PortableContent,
    constants: Seq<(Seq<char>, Seq<u8>)>,
    n: nat,
)
    requires
        stored(m, c),
        n <= constants.len(),
        m.with_constants(constants, n).metadata.strings.data.len() <= 0xFFFF_FFFF,
        m.with_constants(constants, n).metadata.blobs.data.len() <= 0xFFFF_FFFF,
    ensures
        stored(
            m.with_constants(constants, n),
            (PortableContent {
                constants: c.constants + given_constants(constants).take(n as int),
                ..c
            }),
        ),
    decreases n,
{
    let given = given_constants(constants);
    if n == 0 {
        assert(c.constants + given.take(0) =~= c.constants);
    } else {
        let before = m.with_constants(constants, (n - 1) as nat);
        let after = m.with_constants(constants, n);
        let (name, signature) = constants[n - 1];
        let (strings, name_index) = before.metadata.strings.with_string(name);
        let (blobs, signature_index) = before.metadata.blobs.with_blob(signature);
        assert(before.metadata.strings.data.len() <= strings.data.len());
        heap_grows(before.metadata.blobs, signature);
        constants_added(m, c, constants, (n - 1) as nat);
        let had = PortableContent {
            constants: c.constants + given.take(n - 1),
            ..c
        };
        string_added(before.metadata.strings, name);
        blob_added(before.metadata.blobs, signature);
        heaps_extend_self(before.metadata);
        let plain = PortableModel { metadata: after.metadata, ..before };
        content_kept(plain, before, had);
        let all = c.constants + given.take(n as int);
        assert(all =~= had.constants.push(given[n - 1]));
        assert forall|k: int|
            #![trigger all[k]]
            #![trigger after.constant_rows[k]]
            0 <= k < all.len() implies constant_stored(
            after.metadata,
            after.constant_rows[k],
            all[k],
        ) by {
            if k < had.constants.len() {
                assert(all[k] == had.constants[k]);
                assert(after.constant_rows[k] == plain.constant_rows[k]);
            }
        }
    }
}

proof fn before_pushed(scopes: Seq<ScopeView>, scope: ScopeView, k: int)
    requires
        0 <= k <= scopes.len(),
    ensures
        variables_before(scopes.push(scope), k) == variables_before(scopes, k),
        constants_before(scopes.push(scope), k) == constants_before(scopes, k),
    decreases k,
{
    if k > 0 {
        before_pushed(scopes, scope, k - 1);
    }
}

/// The scope that is added behind so many variables and constants.
pub open spec fn given_scope(
    c: PortableContent,
    method: u32,
    import_scope: u32,
    variables: int,
    constants: int,
    start_offset: i32,
    length: i32,
) -> ScopeView {
    ScopeView {
        method: token::token_of(TableIndex::MethodDef, method),
        import_scope,
        variables: portable_reader::run(
            ((1 + c.variables.len()) as u32, variables as u32),
        ),
        constants: portable_reader::run(
            ((1 + c.constants.len()) as u32, constants as u32),
        ),
        kind: 0,
        try_start: start_offset,
        try_length: length,
        handler_start: (-1) as i32,
        handler_length: (-1) as i32,
    }
}

/// A scope that is added is added to the content with its variables and
/// constants. This holds as long as the rows can be counted and the heaps fit
/// 32 bits.
pub proof fn added_scope_is_described(
    m: PortableModel,
    c: PortableContent,
    method: u32,
    import_scope: u32,
    variables: Seq<(u16, Seq<char>, u32)>,
    constants: Seq<(Seq<char>, Seq<u8>)>,
    start_offset: i32,
    length: i32,
)
    requires
        describes(m, c),
        method < 0x100_0000,
        m.variable_rows.len() + variables.len() < 0xFFFF_FFFF,
        m.constant_rows.len() + constants.len() < 0xFFFF_FFFF,
        m.with_scope(
            method,
            import_scope,
            variables,
            constants,
            start_offset,
            length,
        ).metadata.strings.data.len() <= 0xFFFF_FFFF,
        m.with_scope(
            method,
            import_scope,
            variables,
            constants,
            start_offset,
            length,
        ).metadata.blobs.data.len() <= 0xFFFF_FFFF,
    ensures
        describes(
            m.with_scope(method, import_scope, variables, constants, start_offset, length),
            (PortableContent {
                variables: c.variables + given_variables(variables),
                constants: c.constants + given_constants(constants),
                scopes: c.scopes.push(
                    given_scope(
                        c,
                        method,
                        import_scope,
                        variables.len() as int,
                        constants.len() as int,
                        start_offset,
                        length,
                    ),
                ),
                ..c
            }),
        ),
{
    let scope = given_scope(
        c,
        method,
        import_scope,
        variables.len() as int,
        constants.len() as int,
        start_offset,
        length,
    );
    let after = m.with_scope(method, import_scope, variables, constants, start_offset, length);
    let first = m.with_variables(variables, variables.len());
    let second = first.with_constants(constants, constants.len());
    let c1 = PortableContent { variables: c.variables + given_variables(variables), ..c };
    let c2 = PortableContent { constants: c.constants + given_constants(constants), ..c1 };
    strings_grow(first, constants, constants.len());
    variables_added(m, c, variables, variables.len());
    assert(given_variables(variables).take(variables.len() as int) =~= given_variables(variables));
    constants_added(first, c1, constants, constants.len());
    assert(given_constants(constants).take(constants.len() as int) =~= given_constants(constants));
    variables_frame(m, variables, variables.len());
    constants_frame(first, constants, constants.len());
    before_pushed(c.scopes, scope, c.scopes.len() as int);
    token_row(method);
    let row = after.scope_rows.last();
    assert(after.scope_rows =~= second.scope_rows.push(row));
    new_scope_stored(c, scope, row);
    scope_row_added(second, c2, scope, row);
}

proof fn new_scope_stored(c: PortableContent, scope: ScopeView, row: Seq<u64>)
    requires
        variables_before(c.scopes, c.scopes.len() as int) == c.variables.len(),
        constants_before(c.scopes, c.scopes.len() as int) == c.constants.len(),
        row.len() == 6,
        row[0] == scope.method.row(),
        row[1] == scope.import_scope,
        row[2] == 1 + c.variables.len(),
        row[3] == 1 + c.constants.len(),
        row[4] == bytes::u32_of(scope.try_start),
        row[5] == bytes::u32_of(scope.try_length),
        scope.method == token::token_of(TableIndex::MethodDef, scope.method.row()),
        scope.kind == 0,
        scope.handler_start == -1,
        scope.handler_length == -1,
        scope.variables == portable_reader::run(
            ((1 + c.variables.len()) as u32, scope.variables.len() as u32),
        ),
        scope.constants == portable_reader::run(
            ((1 + c.constants.len()) as u32, scope.constants.len() as u32),
        ),
    ensures
        scope_stored(c.scopes.push(scope), c.scopes.len() as int, row),
{
    before_pushed(c.scopes, scope, c.scopes.len() as int);
}

proof fn scope_row_added(
    m: PortableModel,
    c: PortableContent,
    scope: ScopeView,
    row: Seq<u64>,
)
    requires
        stored(m, c),
        scope_stored(c.scopes.push(scope), c.scopes.len() as int, row),
    ensures
        stored(
            (PortableModel { scope_rows: m.scope_rows.push(row), ..m }),
            (PortableContent { scopes: c.scopes.push(scope), ..c }),
        ),
{
    let after = PortableModel { scope_rows: m.scope_rows.push(row), ..m };
    let all = c.scopes.push(scope);
    let n = c.scopes.len() as int;
    assert forall|k: int|
        #![trigger all[k]]
        #![trigger after.scope_rows[k]]
        0 <= k < all.len() implies scope_stored(all, k, after.scope_rows[k]) by {
        if k < n {
            assert(all[k] == c.scopes[k]);
            assert(after.scope_rows[k] == m.scope_rows[k]);
            assert(scope_stored(c.scopes, k, m.scope_rows[k]));
            before_pushed(c.scopes, scope, k);
        }
    }
}

proof fn token_row(rid: u32)
    requires
        rid < 0x100_0000,
    ensures
        token::token_of(TableIndex::MethodDef, rid).row() == rid,
{
}

proof fn strings_grow(m: PortableModel, constants: Seq<(Seq<char>, Seq<u8>)>, n: nat)
    requires
        n <= constants.len(),
    ensures
        m.metadata.strings.data.len() <= m.with_constants(
            constants,
            n,
        ).metadata.strings.data.len(),
    decreases n,
{
    if n > 0 {
        strings_grow(m, constants, (n - 1) as nat);
    }
}

proof fn variables_frame(m: PortableModel, variables: Seq<(u16, Seq<char>, u32)>, n: nat)
    requires
        n <= variables.len(),
    ensures
        m.with_variables(variables, n).scope_rows == m.scope_rows,
        m.with_variables(variables, n).constant_rows == m.constant_rows,
    decreases n,
{
    if n > 0 {
        variables_frame(m, variables, (n - 1) as nat);
    }
}

proof fn constants_frame(m: PortableModel, constants: Seq<(Seq<char>, Seq<u8>)>, n: nat)
    requires
        n <= constants.len(),
    ensures
        m.with_constants(constants, n).scope_rows == m.scope_rows,
    decreases n,
{
    if n > 0 {
        constants_frame(m, constants, (n - 1) as nat);
    }
}

} // verus!
