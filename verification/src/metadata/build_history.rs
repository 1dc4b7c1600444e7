//! What a written metadata root says of all that its builder was told.

use vstd::prelude::*;

use crate::bytes;
use crate::error::ErrorKind;
use crate::metadata::builder;
use crate::metadata::builder::{BuilderModel, HeapModel, PdbModel};
use crate::metadata::builder_laws;
use crate::metadata::heap_laws;
use crate::metadata::heaps;
use crate::metadata::reader;
use crate::metadata::root;
use crate::metadata::tables;
use crate::text;
use crate::token;
use crate::token::TableIndex;

verus! {

/// A call on a builder.
pub enum BuilderCall {
    Row(TableIndex, Seq<u64>),
    Text(Seq<char>),
    UserText(Seq<char>),
    Blob(Seq<u8>),
    Guid(Seq<u8>),
    /// The `#Pdb` heap: the id, the entry point, and row counts by table.
    Pdb(Seq<u8>, u32, Seq<(u8, u32)>),
}

/// What a call makes of a builder. A row with another number of cells than the
/// table has columns is refused.
pub open spec fn after_call(m: BuilderModel, call: BuilderCall) -> BuilderModel {
    match call {
        BuilderCall::Row(t, cells) => if cells.len() == tables::schema(t).len() {
            m.with_row(t, cells)
        } else {
            m
        },
        BuilderCall::Text(t) => BuilderModel { strings: m.strings.with_string(t).0, ..m },
        BuilderCall::UserText(t) => BuilderModel {
            user_strings: m.user_strings.with_user_string(t).0,
            ..m
        },
        BuilderCall::Blob(b) => BuilderModel { blobs: m.blobs.with_blob(b).0, ..m },
        BuilderCall::Guid(g) => BuilderModel { guids: m.guids.with_guid(g).0, ..m },
        BuilderCall::Pdb(id, entry_point, counts) => BuilderModel {
            pdb: Some(
                PdbModel { id, entry_point, table_counts: builder::sorted_by_table(counts) },
            ),
            ..m
        },
    }
}

/// What the calls make of a fresh builder.
pub open spec fn built_by(version: Seq<char>, calls: Seq<BuilderCall>) -> BuilderModel
    decreases calls.len(),
{
    if calls.len() == 0 {
        builder::fresh_model(version)
    } else {
        after_call(built_by(version, calls.drop_last()), calls.last())
    }
}

/// The index that an insertion gives on the builder.
pub open spec fn index_on(m: BuilderModel, call: BuilderCall) -> u32 {
    match call {
        BuilderCall::Row(t, _) => bytes::low32((m.rows[t.number() as int].len() + 1) as int),
        BuilderCall::Text(t) => m.strings.with_string(t).1,
        BuilderCall::UserText(t) => m.user_strings.with_user_string(t).1,
        BuilderCall::Blob(b) => m.blobs.with_blob(b).1,
        BuilderCall::Guid(g) => m.guids.with_guid(g).1,
        BuilderCall::Pdb(_, _, _) => 0,
    }
}

/// The index that the `i`-th call gives.
pub open spec fn index_given(version: Seq<char>, calls: Seq<BuilderCall>, i: int) -> u32 {
    index_on(built_by(version, calls.take(i)), calls[i])
}

/// A GUID has its sixteen bytes, and a `#Pdb` heap its twenty byte id and no
/// table twice.
pub open spec fn call_whole(call: BuilderCall) -> bool {
    match call {
        BuilderCall::Guid(g) => g.len() == 16,
        BuilderCall::Pdb(id, _, counts) => id.len() == 20 && heap_laws::strictly_ascending(
            builder::sorted_by_table(counts),
        ),
        _ => true,
    }
}

/// Every call is such.
pub open spec fn calls_whole(calls: Seq<BuilderCall>) -> bool {
    forall|k: int| 0 <= k < calls.len() ==> call_whole(#[trigger] calls[k])
}

/// The rows that the calls give a table.
pub open spec fn rows_given(calls: Seq<BuilderCall>, t: TableIndex) -> Seq<Seq<u64>>
    decreases calls.len(),
{
    if calls.len() == 0 {
        Seq::empty()
    } else {
        let front = rows_given(calls.drop_last(), t);
        match calls.last() {
            BuilderCall::Row(u, cells) if u == t && cells.len() == tables::schema(t).len() =>
                front.push(cells),
            _ => front,
        }
    }
}

/// The indexes go up in the order in which they were given.
pub open spec fn told_apart(known: Seq<(Seq<u8>, u32)>, first: int, limit: int) -> bool {
    &&& forall|i: int, j: int|
        #![trigger known[i], known[j]]
        0 <= i < j < known.len() ==> known[i].1 < known[j].1
    &&& forall|i: int| #![trigger known[i]] 0 <= i < known.len() ==> first <= known[i].1 < limit
}

/// Two things with one index are the same.
proof fn same_index_same_thing(
    known: Seq<(Seq<u8>, u32)>,
    first: int,
    limit: int,
    a: Seq<u8>,
    b: Seq<u8>,
)
    requires
        told_apart(known, first, limit),
        builder::lookup(known, a) is Some,
        builder::lookup(known, b) is Some,
        builder::lookup(known, a) == builder::lookup(known, b),
    ensures
        a == b,
        first <= builder::lookup(known, a)->Some_0 < limit,
{
    let i = heap_laws::lookup_entry(known, a);
    let j = heap_laws::lookup_entry(known, b);
    assert(known[i].1 == known[j].1);
}

proof fn known_is_bounded(known: Seq<(Seq<u8>, u32)>, first: int, limit: int, a: Seq<u8>)
    requires
        told_apart(known, first, limit),
        builder::lookup(known, a) is Some,
    ensures
        first <= builder::lookup(known, a)->Some_0 < limit,
{
    let i = heap_laws::lookup_entry(known, a);
    assert(known[i].1 == builder::lookup(known, a)->Some_0);
}

/// The heap of what was asked for keeps its things apart.
proof fn interned_apart(
    h: HeapModel,
    key: Seq<u8>,
    encoded: Seq<u8>,
    index: u32,
    first: int,
    limit: int,
)
    requires
        told_apart(h.known, first, index as int),
        first <= index < limit,
    ensures
        told_apart(h.interned(key, encoded, index).0.known, first, limit),
{
}

/// What holds of the heaps of every builder: each thing stands where its index
/// says, and as long as a heap fits 32 bits no two share an index.
pub open spec fn heaps_kept(m: BuilderModel) -> bool {
    &&& heap_laws::strings_sound(m.strings)
    &&& heap_laws::user_strings_sound(m.user_strings)
    &&& heap_laws::blobs_sound(m.blobs)
    &&& heap_laws::guids_sound(m.guids)
    &&& m.strings.data.len() >= 1
    &&& m.blobs.data.len() >= 1
    &&& m.strings.data.len() <= 0xFFFF_FFFF ==> told_apart(
        m.strings.known,
        1,
        m.strings.data.len() as int,
    )
    &&& m.user_strings.data.len() <= 0xFFFF_FFFF ==> told_apart(
        m.user_strings.known,
        0,
        m.user_strings.data.len() as int,
    )
    &&& m.blobs.data.len() <= 0xFFFF_FFFF ==> told_apart(
        m.blobs.known,
        1,
        m.blobs.data.len() as int,
    )
    &&& m.guids.data.len() <= 0xFFFF_FFFF ==> told_apart(
        m.guids.known,
        1,
        m.guids.data.len() as int / 16 + 1,
    )
}

proof fn strings_kept(m: BuilderModel, t: Seq<char>)
    requires
        heaps_kept(m),
    ensures
        heaps_kept(after_call(m, BuilderCall::Text(t))),
{
    let h = m.strings;
    let after = h.with_string(t).0;
    heap_laws::strings_stay_sound(h, t);
    if t.len() > 0 && after.data.len() <= 0xFFFF_FFFF {
        let key = text::utf8(t);
        let index = bytes::low32(h.data.len() as int);
        if builder::lookup(h.known, key) is None {
            interned_apart(h, key, key.push(0), index, 1, after.data.len() as int);
        }
    }
}

proof fn user_strings_kept(m: BuilderModel, t: Seq<char>)
    requires
        heaps_kept(m),
    ensures
        heaps_kept(after_call(m, BuilderCall::UserText(t))),
{
    let h = m.user_strings;
    let after = h.with_user_string(t).0;
    let encoded = builder::user_string_bytes(t);
    heap_laws::user_strings_stay_sound(h, t);
    if after.data.len() <= 0xFFFF_FFFF {
        let index = bytes::low32(h.data.len() as int);
        if builder::lookup(h.known, text::utf8(t)) is None {
            assert(encoded.len() >= 1);
            interned_apart(h, text::utf8(t), encoded, index, 0, after.data.len() as int);
        }
    }
}

proof fn blobs_kept(m: BuilderModel, b: Seq<u8>)
    requires
        heaps_kept(m),
    ensures
        heaps_kept(after_call(m, BuilderCall::Blob(b))),
{
    let h = m.blobs;
    let after = h.with_blob(b).0;
    heap_laws::blobs_stay_sound(h, b);
    if b.len() > 0 && after.data.len() <= 0xFFFF_FFFF {
        let index = bytes::low32(h.data.len() as int);
        if builder::lookup(h.known, b) is None {
            interned_apart(h, b, builder::blob_bytes(b), index, 1, after.data.len() as int);
        }
    }
}

proof fn guids_kept(m: BuilderModel, g: Seq<u8>)
    requires
        heaps_kept(m),
        g.len() == 16,
    ensures
        heaps_kept(after_call(m, BuilderCall::Guid(g))),
{
    let h = m.guids;
    let after = h.with_guid(g).0;
    heap_laws::guids_stay_sound(h, g);
    if after.data.len() <= 0xFFFF_FFFF {
        let index = bytes::low32(h.data.len() as int / 16 + 1);
        if builder::lookup(h.known, g) is None {
            assert(index == h.data.len() as int / 16 + 1);
            assert(after.data.len() as int / 16 == h.data.len() as int / 16 + 1);
            interned_apart(h, g, g, index, 1, after.data.len() as int / 16 + 1);
        }
    }
}

/// A row that has a cell for each column keeps the rows sound.
proof fn row_keeps_sound(m: BuilderModel, t: TableIndex, cells: Seq<u64>)
    requires
        m.sound(),
        cells.len() == tables::schema(t).len(),
    ensures
        m.with_row(t, cells).sound(),
{
    let after = m.with_row(t, cells);
    let i = t.number() as int;
    tables::table_at_number(t);
    assert forall|k: int| 0 <= k < 0x38 && #[trigger] after.rows[k].len() > 0 implies token::is_table_number(
        k as u8,
    ) by {
        if k != i {
            assert(m.rows[k].len() > 0);
        }
    }
    assert forall|u: TableIndex, r: int|
        0 <= r < after.rows[u.number() as int].len() implies #[trigger] after.rows[u.number() as int][r].len()
        == tables::schema(u).len() by {
        if u.number() == t.number() {
            token::table_number_injective(u, t);
            if r < m.rows[i].len() {
                assert(m.rows[u.number() as int][r].len() == tables::schema(u).len());
            }
        } else {
            assert(m.rows[u.number() as int][r].len() == tables::schema(u).len());
        }
    }
}

/// Whatever a builder is told, its rows fit their tables, and its heaps keep
/// what they were given.
pub proof fn builder_keeps_what_it_is_told(version: Seq<char>, calls: Seq<BuilderCall>)
    requires
        calls_whole(calls),
    ensures
        built_by(version, calls).version == version,
        builder_laws::pdb_regular(built_by(version, calls)),
        built_by(version, calls).sound(),
        heaps_kept(built_by(version, calls)),
    decreases calls.len(),
{
    if calls.len() > 0 {
        let front = calls.drop_last();
        assert forall|k: int| 0 <= k < front.len() implies call_whole(#[trigger] front[k]) by {
            assert(calls[k] == front[k]);
        }
        builder_keeps_what_it_is_told(version, front);
        let m = built_by(version, front);
        match calls.last() {
            BuilderCall::Row(t, cells) => {
                if cells.len() == tables::schema(t).len() {
                    row_keeps_sound(m, t, cells);
                }
            },
            BuilderCall::Text(t) => {
                strings_kept(m, t);
            },
            BuilderCall::UserText(t) => {
                user_strings_kept(m, t);
            },
            BuilderCall::Blob(b) => {
                blobs_kept(m, b);
            },
            BuilderCall::Guid(g) => {
                assert(calls[calls.len() - 1] == calls.last());
                guids_kept(m, g);
            },
            BuilderCall::Pdb(_, _, counts) => {
                assert(calls[calls.len() - 1] == calls.last());
                let sorted = builder::sorted_by_table(counts);
                assert forall|k: int| 0 <= k < sorted.len() implies (#[trigger] sorted[k]).0
                    < 64 by {
                    assert(sorted[k].0 < 0x38);
                }
            },
        }
    } else {
        let none = HeapModel { data: Seq::empty(), known: Seq::empty() };
        heap_laws::strings_stay_sound(none, Seq::empty());
        heap_laws::user_strings_stay_sound(none, Seq::empty());
        heap_laws::blobs_stay_sound(none, Seq::empty());
        heap_laws::guids_stay_sound(none, bytes::zero_bytes(16));
    }
}

/// The thing that an insertion asks for, as the heap knows it.
spec fn key_of(call: BuilderCall) -> Seq<u8> {
    match call {
        BuilderCall::Text(t) => text::utf8(t),
        BuilderCall::UserText(t) => text::utf8(t),
        BuilderCall::Blob(b) => b,
        BuilderCall::Guid(g) => g,
        _ => Seq::empty(),
    }
}

/// The heap that an insertion goes to.
spec fn heap_of(m: BuilderModel, call: BuilderCall) -> HeapModel {
    match call {
        BuilderCall::UserText(_) => m.user_strings,
        BuilderCall::Blob(_) => m.blobs,
        BuilderCall::Guid(_) => m.guids,
        _ => m.strings,
    }
}

/// The call puts something into a heap.
spec fn inserts(call: BuilderCall) -> bool {
    match call {
        BuilderCall::Row(_, _) => false,
        BuilderCall::Pdb(_, _, _) => false,
        BuilderCall::Text(t) => t.len() > 0,
        BuilderCall::Blob(b) => b.len() > 0,
        _ => true,
    }
}

/// A call keeps the index of everything that a heap knows, and gives what it
/// asks for the index that it returns.
proof fn call_keeps_known(m: BuilderModel, call: BuilderCall, which: BuilderCall, key: Seq<u8>)
    ensures
        builder::lookup(heap_of(m, which).known, key) is Some ==> builder::lookup(
            heap_of(after_call(m, call), which).known,
            key,
        ) == builder::lookup(heap_of(m, which).known, key),
        inserts(call) ==> builder::lookup(heap_of(after_call(m, call), call).known, key_of(call))
            == Some(index_on(m, call)),
{
    match call {
        BuilderCall::Text(t) => {
            heap_laws::interning_is_stable(
                m.strings,
                text::utf8(t),
                text::utf8(t).push(0),
                bytes::low32(m.strings.data.len() as int),
                key,
            );
        },
        BuilderCall::UserText(t) => {
            heap_laws::interning_is_stable(
                m.user_strings,
                text::utf8(t),
                builder::user_string_bytes(t),
                bytes::low32(m.user_strings.data.len() as int),
                key,
            );
        },
        BuilderCall::Blob(b) => {
            heap_laws::interning_is_stable(
                m.blobs,
                b,
                builder::blob_bytes(b),
                bytes::low32(m.blobs.data.len() as int),
                key,
            );
        },
        BuilderCall::Guid(g) => {
            heap_laws::interning_is_stable(
                m.guids,
                g,
                g,
                bytes::low32(m.guids.data.len() as int / 16 + 1),
                key,
            );
        },
        _ => {},
    }
}

/// What was inserted keeps its index.
proof fn index_is_kept(version: Seq<char>, calls: Seq<BuilderCall>, i: int)
    requires
        0 <= i < calls.len(),
        inserts(calls[i]),
    ensures
        builder::lookup(heap_of(built_by(version, calls), calls[i]).known, key_of(calls[i]))
            == Some(index_given(version, calls, i)),
    decreases calls.len(),
{
    let front = calls.drop_last();
    let m = built_by(version, front);
    call_keeps_known(m, calls.last(), calls[i], key_of(calls[i]));
    if i < front.len() {
        index_is_kept(version, front, i);
        assert(front.take(i) =~= calls.take(i));
    } else {
        assert(calls.take(i) =~= front);
    }
}

/// Inserting strings tells them apart: two insertions into one builder, in any
/// order and with any others around them, give the same index if and only if
/// the strings are the same, and the empty string alone has the index zero.
/// This holds as long as the heap fits 32 bits.
pub proof fn strings_are_told_apart(
    version: Seq<char>,
    calls: Seq<BuilderCall>,
    i: int,
    j: int,
    s: Seq<char>,
    t: Seq<char>,
)
    requires
        calls_whole(calls),
        0 <= i < calls.len(),
        0 <= j < calls.len(),
        calls[i] == BuilderCall::Text(s),
        calls[j] == BuilderCall::Text(t),
        built_by(version, calls).strings.data.len() <= 0xFFFF_FFFF,
    ensures
        index_given(version, calls, i) == index_given(version, calls, j) <==> s == t,
        index_given(version, calls, i) == 0 <==> s.len() == 0,
{
    let h = built_by(version, calls).strings;
    builder_keeps_what_it_is_told(version, calls);
    let limit = h.data.len() as int;
    if s.len() > 0 {
        index_is_kept(version, calls, i);
        known_is_bounded(h.known, 1, limit, text::utf8(s));
    }
    if t.len() > 0 {
        index_is_kept(version, calls, j);
        known_is_bounded(h.known, 1, limit, text::utf8(t));
    }
    if s.len() > 0 && t.len() > 0 {
        if index_given(version, calls, i) == index_given(version, calls, j) {
            same_index_same_thing(h.known, 1, limit, text::utf8(s), text::utf8(t));
            text::utf8_injective(s, t);
        }
    } else if s.len() == 0 && t.len() == 0 {
        assert(s =~= t);
    }
}

/// Inserting blobs tells them apart in the same way.
pub proof fn blobs_are_told_apart(
    version: Seq<char>,
    calls: Seq<BuilderCall>,
    i: int,
    j: int,
    a: Seq<u8>,
    b: Seq<u8>,
)
    requires
        calls_whole(calls),
        0 <= i < calls.len(),
        0 <= j < calls.len(),
        calls[i] == BuilderCall::Blob(a),
        calls[j] == BuilderCall::Blob(b),
        built_by(version, calls).blobs.data.len() <= 0xFFFF_FFFF,
    ensures
        index_given(version, calls, i) == index_given(version, calls, j) <==> a == b,
        index_given(version, calls, i) == 0 <==> a.len() == 0,
{
    let h = built_by(version, calls).blobs;
    builder_keeps_what_it_is_told(version, calls);
    let limit = h.data.len() as int;
    if a.len() > 0 {
        index_is_kept(version, calls, i);
        known_is_bounded(h.known, 1, limit, a);
    }
    if b.len() > 0 {
        index_is_kept(version, calls, j);
        known_is_bounded(h.known, 1, limit, b);
    }
    if a.len() > 0 && b.len() > 0 {
        if index_given(version, calls, i) == index_given(version, calls, j) {
            same_index_same_thing(h.known, 1, limit, a, b);
        }
    } else if a.len() == 0 && b.len() == 0 {
        assert(a =~= b);
    }
}

/// The rows of a builder are those that it was given.
proof fn rows_are_given(version: Seq<char>, calls: Seq<BuilderCall>, t: TableIndex)
    requires
        calls_whole(calls),
    ensures
        built_by(version, calls).rows[t.number() as int] == rows_given(calls, t),
    decreases calls.len(),
{
    tables::table_at_number(t);
    if calls.len() > 0 {
        let front = calls.drop_last();
        assert forall|k: int| 0 <= k < front.len() implies call_whole(#[trigger] front[k]) by {
            assert(calls[k] == front[k]);
        }
        rows_are_given(version, front, t);
        builder_keeps_what_it_is_told(version, front);
        if let BuilderCall::Row(u, cells) = calls.last() {
            tables::table_at_number(u);
            if u.number() == t.number() {
                token::table_number_injective(u, t);
            }
        }
    } else {
        assert(built_by(version, calls).rows[t.number() as int] =~= rows_given(calls, t));
    }
}

/// What was inserted by the call reads back from the heaps under its index.
/// This is said of texts without a zero byte and of lengths that fit thirty
/// bits.
pub open spec fn reads_back(h: heaps::HeapsView, call: BuilderCall, index: u32) -> bool {
    match call {
        BuilderCall::Row(_, _) => true,
        BuilderCall::Pdb(_, _, _) => true,
        BuilderCall::Text(t) => bytes::zero_free(text::utf8(t)) ==> heaps::string_at(
            h.strings,
            index,
        ) == Some(t),
        BuilderCall::UserText(t) => 2 * text::utf16(t).len() + 1 < 0x4000_0000
            ==> heaps::user_string_at(h.user_strings, index) == Some(t),
        BuilderCall::Blob(b) => b.len() < 0x4000_0000 ==> heaps::blob_at(h.blob, index) == Some(b),
        BuilderCall::Guid(g) => heaps::guid_at(h.guid, index) == g,
    }
}

proof fn inserted_reads_back(version: Seq<char>, calls: Seq<BuilderCall>, i: int)
    requires
        calls_whole(calls),
        0 <= i < calls.len(),
        ({
            let m = built_by(version, calls);
            m.strings.data.len() <= 0xFFFF_FFFF && m.user_strings.data.len() <= 0xFFFF_FFFF
                && m.blobs.data.len() <= 0xFFFF_FFFF && m.guids.data.len() <= 0xFFFF_FFFF
        }),
    ensures
        reads_back(
            builder_laws::written_heaps(built_by(version, calls)),
            calls[i],
            index_given(version, calls, i),
        ),
{
    let m = built_by(version, calls);
    builder_keeps_what_it_is_told(version, calls);
    if inserts(calls[i]) {
        index_is_kept(version, calls, i);
    }
    match calls[i] {
        BuilderCall::Text(t) => {
            if bytes::zero_free(text::utf8(t)) {
                if t.len() == 0 {
                    assert(t =~= Seq::<char>::empty());
                } else {
                    heap_laws::string_reads_back(m.strings, t);
                }
            }
        },
        BuilderCall::UserText(t) => {
            if 2 * text::utf16(t).len() + 1 < 0x4000_0000 {
                heap_laws::user_string_reads_back(m.user_strings, t);
            }
        },
        BuilderCall::Blob(b) => {
            if b.len() == 0 {
                assert(b =~= Seq::<u8>::empty());
            } else if b.len() < 0x4000_0000 {
                heap_laws::blob_reads_back(m.blobs, b);
                known_is_bounded(m.blobs.known, 1, m.blobs.data.len() as int, b);
            }
        },
        BuilderCall::Guid(g) => {
            heap_laws::guid_reads_back(m.guids, g);
        },
        _ => {},
    }
}

/// Without a `#Pdb` heap a reader finds the layout that the rows were written
/// with.
pub proof fn plain_builder_keeps_layout(m: BuilderModel)
    requires
        m.pdb is None,
        m.rows_sound(),
    ensures
        builder_laws::merged_shape(m) == m.shape(),
{
    assert forall|i: int| 0 <= i < 0x38 implies builder_laws::merged_counts(m)[i]
        == m.counts()[i] by {
        if m.rows[i].len() == 0 {
            assert(m.counts()[i] == 0);
        }
    }
    assert(builder_laws::merged_counts(m) =~= m.counts());
}

/// Everything that was inserted into a builder reads back from the root that
/// it wrote, under the index that was returned, whatever else the builder was
/// told. This holds as long as the root fits 32 bits.
pub proof fn inserted_things_read_back(version: Seq<char>, calls: Seq<BuilderCall>, i: int)
    requires
        calls_whole(calls),
        0 <= i < calls.len(),
        built_by(version, calls).built().len() <= 0xFFFF_FFFF,
    ensures
        reader::parsed_metadata(built_by(version, calls).built()) matches Ok(r) && reads_back(
            r.heaps,
            calls[i],
            index_given(version, calls, i),
        ),
{
    let m = built_by(version, calls);
    builder_keeps_what_it_is_told(version, calls);
    builder_laws::heaps_fit(m);
    builder_laws::built_root_reads_back(m);
    inserted_reads_back(version, calls, i);
}

/// A blob of less than two to the thirtieth bytes that was inserted into a
/// builder reads back from the root that it wrote, under the index that was
/// returned, whatever else the builder was told; and behind the end of the heap
/// every index reads as the empty blob. This holds as long as the root fits 32
/// bits.
pub proof fn inserted_blob_reads_back(
    version: Seq<char>,
    calls: Seq<BuilderCall>,
    i: int,
    b: Seq<u8>,
)
    requires
        calls_whole(calls),
        0 <= i < calls.len(),
        calls[i] == BuilderCall::Blob(b),
        b.len() < 0x4000_0000,
        built_by(version, calls).built().len() <= 0xFFFF_FFFF,
    ensures
        reader::parsed_metadata(built_by(version, calls).built()) matches Ok(r) && {
            &&& heaps::blob_at(r.heaps.blob, index_given(version, calls, i)) == Some(b)
            &&& forall|j: u32|
                j >= r.heaps.blob.len() ==> #[trigger] heaps::blob_at(r.heaps.blob, j) == Some(
                    Seq::<u8>::empty(),
                )
        },
{
    inserted_things_read_back(version, calls, i);
}

/// A row that a builder was given reads back from the root that it wrote, cell
/// by cell, as long as its own cells fit their columns, the root fits 32 bits,
/// and no `#Pdb` heap claims rows of tables that have none.
pub proof fn given_row_reads_back(
    version: Seq<char>,
    calls: Seq<BuilderCall>,
    t: TableIndex,
    rid: u32,
)
    requires
        calls_whole(calls),
        built_by(version, calls).built().len() <= 0xFFFF_FFFF,
        builder_laws::merged_shape(built_by(version, calls)) == built_by(version, calls).shape(),
        1 <= rid <= rows_given(calls, t).len(),
        builder_laws::row_fits(built_by(version, calls), t, rid - 1),
    ensures
        reader::parsed_metadata(built_by(version, calls).built()) matches Ok(r) && r.rows(t)
            == rows_given(calls, t).len() && r.row(t, rid) == Ok::<Seq<u64>, ErrorKind>(
            rows_given(calls, t)[rid - 1],
        ),
{
    let m = built_by(version, calls);
    builder_keeps_what_it_is_told(version, calls);
    builder_laws::built_root_reads_back(m);
    rows_are_given(version, calls, t);
    builder_laws::rows_found(m, t);
    builder_laws::row_reads(m, t, rid);
}

/// The root that a builder writes parses and gives everything back that the
/// builder was told: the version, the rows of every table, cell by cell, and
/// under the indexes that were returned the strings, the user strings, the
/// blobs and the GUIDs. This holds of every version without a zero byte and of
/// cells that fit their columns, as long as the root fits 32 bits and no `#Pdb`
/// heap claims rows of tables that have none.
pub proof fn finished_root_reads_back(version: Seq<char>, calls: Seq<BuilderCall>)
    requires
        calls_whole(calls),
        bytes::zero_free(text::utf8(version)),
        built_by(version, calls).built().len() <= 0xFFFF_FFFF,
        builder_laws::cells_fit(built_by(version, calls)),
        builder_laws::merged_shape(built_by(version, calls)) == built_by(version, calls).shape(),
    ensures
        reader::parsed_metadata(built_by(version, calls).built()) matches Ok(r) && {
            &&& r.version == version
            &&& forall|t: TableIndex|
                #![trigger r.rows(t)]
                r.rows(t) == rows_given(calls, t).len()
            &&& forall|t: TableIndex, rid: u32|
                #![trigger r.row(t, rid)]
                1 <= rid <= rows_given(calls, t).len() ==> r.row(t, rid) == Ok::<
                    Seq<u64>,
                    ErrorKind,
                >(rows_given(calls, t)[rid - 1])
            &&& forall|i: int|
                #![trigger calls[i]]
                0 <= i < calls.len() ==> reads_back(
                    r.heaps,
                    calls[i],
                    index_given(version, calls, i),
                )
        },
{
    let m = built_by(version, calls);
    builder_keeps_what_it_is_told(version, calls);
    root::version_reads_whole(version);
    builder_laws::built_root_reads_back(m);
    let r = builder_laws::written_metadata(m);
    assert(builder_laws::rows_readable(m));
    assert forall|t: TableIndex| #![trigger r.rows(t)] r.rows(t) == rows_given(calls, t).len() by {
        builder_laws::rows_found(m, t);
        rows_are_given(version, calls, t);
    }
    assert forall|t: TableIndex, rid: u32|
        #![trigger r.row(t, rid)]
        1 <= rid <= rows_given(calls, t).len() implies r.row(t, rid) == Ok::<
        Seq<u64>,
        ErrorKind,
    >(rows_given(calls, t)[rid - 1]) by {
        rows_are_given(version, calls, t);
        assert forall|c: int|
            #![trigger tables::schema(t)[c]]
            0 <= c < tables::schema(t).len() implies builder_laws::fits(
            m.rows[t.number() as int][rid - 1][c],
            m.shape().width(tables::schema(t)[c]),
        ) by {
            assert(m.rows[t.number() as int][rid - 1] == rows_given(calls, t)[rid - 1]);
        }
        builder_laws::row_reads(m, t, rid);
    }
    assert forall|i: int| #![trigger calls[i]] 0 <= i < calls.len() implies reads_back(
        r.heaps,
        calls[i],
        index_given(version, calls, i),
    ) by {
        inserted_things_read_back(version, calls, i);
    }
}

} // verus!
