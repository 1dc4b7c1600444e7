//! What a written symbol file gives back when it is read.

use vstd::prelude::*;

use crate::bytes;
use crate::error::ErrorKind;
use crate::mdb::encoding;
use crate::mdb::lines;
use crate::mdb::lines::LineEntry;
use crate::mdb::lines_laws;
use crate::mdb::reader;
use crate::mdb::reader::{LocalView, MdbView, MethodEntry, MethodRow, OffsetTable, SourceView, MAGIC};
use crate::mdb::writer;
use crate::mdb::writer::{MdbModel, MethodModel};
use crate::token::Token;

verus! {

broadcast use {crate::bytes::widths, crate::mdb::encoding::extents};

/// The IL offsets go up.
pub open spec fn ascending(table: Seq<LineEntry>) -> bool {
    forall|i: int, j: int|
        #![trigger table[i], table[j]]
        0 <= i < j < table.len() ==> table[i].offset < table[j].offset
}

pub(crate) proof fn place_splits(table: Seq<LineEntry>, offset: i32, i: int)
    requires
        0 <= i <= table.len(),
    ensures
        i <= writer::line_place(table, offset, i) <= table.len(),
        forall|j: int|
            i <= j < writer::line_place(table, offset, i) ==> (#[trigger] table[j]).offset < offset,
        writer::line_place(table, offset, i) < table.len() ==> table[writer::line_place(
            table,
            offset,
            i,
        )].offset >= offset,
    decreases table.len() - i,
{
    if i < table.len() && table[i].offset < offset {
        place_splits(table, offset, i + 1);
    }
}

/// However points are added, a method never holds two at one IL offset, and
/// they stand in the order of their offsets.
pub proof fn added_points_ascend(
    table: Seq<LineEntry>,
    points: Seq<(i32, i32, u32)>,
    n: nat,
)
    requires
        ascending(table),
        n <= points.len(),
    ensures
        ascending(writer::with_points(table, points, n)),
    decreases n,
{
    if n > 0 {
        added_points_ascend(table, points, (n - 1) as nat);
        let before = writer::with_points(table, points, (n - 1) as nat);
        place_splits(before, points[n - 1].0, 0);
    }
}

/// After a point was added, one with its IL offset is there, and its line is
/// not lower.
pub proof fn added_point_is_there(table: Seq<LineEntry>, e: LineEntry)
    ensures
        exists|k: int|
            0 <= k < writer::with_point(table, e).len() && (#[trigger] writer::with_point(
                table,
                e,
            )[k]).offset == e.offset && writer::with_point(table, e)[k].row >= e.row,
{
    place_splits(table, e.offset, 0);
    let k = writer::line_place(table, e.offset, 0);
    let after = writer::with_point(table, e);
    assert(after[k].offset == e.offset && after[k].row >= e.row);
}

pub(crate) proof fn token_place_splits(methods: Seq<MethodModel>, token: Token, i: int)
    requires
        0 <= i <= methods.len(),
    ensures
        i <= writer::token_place(methods, token, i) <= methods.len(),
        forall|j: int|
            i <= j < writer::token_place(methods, token, i) ==> (#[trigger] methods[j]).token.0
                <= token.0,
        writer::token_place(methods, token, i) < methods.len() ==> methods[writer::token_place(
            methods,
            token,
            i,
        )].token.0 > token.0,
    decreases methods.len() - i,
{
    if i < methods.len() && methods[i].token.0 <= token.0 {
        token_place_splits(methods, token, i + 1);
    }
}

/// The written methods are those that were added, in the order of their
/// tokens.
pub proof fn methods_are_sorted(methods: Seq<MethodModel>)
    ensures
        writer::sorted_methods(methods).to_multiset() == methods.to_multiset(),
        writer::sorted_methods(methods).len() == methods.len(),
        forall|i: int, j: int|
            #![trigger writer::sorted_methods(methods)[i], writer::sorted_methods(methods)[j]]
            0 <= i < j < methods.len() ==> writer::sorted_methods(methods)[i].token.0
                <= writer::sorted_methods(methods)[j].token.0,
    decreases methods.len(),
{
    if methods.len() > 0 {
        let m = methods.last();
        let front = writer::sorted_methods(methods.drop_last());
        methods_are_sorted(methods.drop_last());
        token_place_splits(front, m.token, 0);
        let k = writer::token_place(front, m.token, 0);
        broadcast use vstd::seq_lib::group_to_multiset_ensures;

        assert(methods =~= methods.drop_last().push(m));
        assert(front.insert(k, m).to_multiset() =~= front.to_multiset().insert(m));
    } else {
        assert(methods =~= Seq::<MethodModel>::empty());
    }
}

/// The offset table reads back.
pub proof fn offset_table_round_trip(s: Seq<u8>, at: int, t: OffsetTable)
    requires
        bytes::holds_at(s, at, bytes::joined(t.parts())),
    ensures
        reader::offset_table_at(s, at) == t,
{
    field_reads(s, at, t, 0);
    field_reads(s, at, t, 1);
    field_reads(s, at, t, 2);
    field_reads(s, at, t, 3);
    field_reads(s, at, t, 4);
    field_reads(s, at, t, 5);
    field_reads(s, at, t, 6);
    field_reads(s, at, t, 7);
    field_reads(s, at, t, 8);
    field_reads(s, at, t, 9);
    field_reads(s, at, t, 10);
    field_reads(s, at, t, 11);
    field_reads(s, at, t, 12);
    field_reads(s, at, t, 13);
    field_reads(s, at, t, 14);
    field_reads(s, at, t, 15);
    field_reads(s, at, t, 16);
    field_reads(s, at, t, 17);
    field_reads(s, at, t, 18);
    field_reads(s, at, t, 19);
}

proof fn field_reads(s: Seq<u8>, at: int, t: OffsetTable, k: int)
    requires
        bytes::holds_at(s, at, bytes::joined(t.parts())),
        0 <= k < 20,
    ensures
        bytes::i32_of(bytes::u32_at(s, at + 4 * k)) == t.fields()[k],
{
    let parts = t.parts();
    bytes::joined_uniform(parts, 4, k);
    bytes::joined_part(parts, k);
    bytes::holds_within(s, at, bytes::joined(parts), 4 * k, parts[k]);
    bytes::u32_round_trip(s, at + 4 * k, bytes::u32_of(t.fields()[k]));
    bytes::signed_round_trip(0, 0, t.fields()[k], 0);
}

/// A row of a table of payloads leads to the payload.
proof fn index_row_reads(s: Seq<u8>, at: int, parts: Seq<Seq<u8>>, base: int, k: int)
    requires
        s.len() <= i32::MAX,
        0 <= base,
        bytes::holds_at(s, base, bytes::joined(parts)),
        bytes::holds_at(s, at, bytes::joined(writer::index_rows(parts, base))),
        0 <= k < parts.len(),
    ensures
        bytes::u32_at(s, at + 8 * k) == k + 1,
        reader::int_at(s, at + 8 * k + 4) == base + bytes::joined(parts.take(k)).len(),
        bytes::holds_at(s, base + bytes::joined(parts.take(k)).len(), parts[k]),
{
    let rows = writer::index_rows(parts, base);
    let offset = base + bytes::joined(parts.take(k)).len();
    bytes::joined_part(parts, k);
    bytes::holds_within(
        s,
        base,
        bytes::joined(parts),
        bytes::joined(parts.take(k)).len() as int,
        parts[k],
    );
    bytes::joined_uniform(rows, 8, k);
    bytes::joined_uniform(rows, 8, rows.len() as int);
    assert(rows.take(rows.len() as int) =~= rows);
    bytes::joined_part(rows, k);
    bytes::holds_within(s, at, bytes::joined(rows), 8 * k, rows[k]);
    let a = bytes::u32_le(bytes::low32(k + 1));
    let b = bytes::u32_le(bytes::low32(offset));
    bytes::holds_in_concat(a, b, Seq::empty());
    bytes::holds_within(s, at + 8 * k, a + b, 0, a);
    bytes::holds_within(s, at + 8 * k, a + b, 4, b);
    bytes::u32_round_trip(s, at + 8 * k, bytes::low32(k + 1));
    bytes::u32_round_trip(s, at + 8 * k + 4, bytes::low32(offset));
}

/// The sources as they read back: numbered from one on, with a checksum of
/// zeros.
pub open spec fn read_sources(sources: Seq<Seq<char>>) -> Seq<SourceView> {
    Seq::new(
        sources.len(),
        |k: int|
            SourceView { id: (k + 1) as u32, path: sources[k], hash: bytes::zero_bytes(16) },
    )
}

proof fn sources_read(s: Seq<u8>, at: int, sources: Seq<Seq<char>>, k: int)
    requires
        s.len() <= i32::MAX,
        bytes::holds_at(s, 112, bytes::joined(writer::source_parts(sources))),
        bytes::holds_at(
            s,
            at,
            bytes::joined(writer::index_rows(writer::source_parts(sources), 112)),
        ),
        0 <= k <= sources.len(),
    ensures
        reader::sources_at(s, at + 8 * k, (sources.len() - k) as nat) == Some(
            read_sources(sources).skip(k),
        ),
    decreases sources.len() - k,
{
    let all = read_sources(sources);
    if k < sources.len() {
        let parts = writer::source_parts(sources);
        let offset = 112int + bytes::joined(parts.take(k)).len();
        index_row_reads(s, at, parts, 112, k);
        let a = encoding::string_bytes(sources[k]);
        let b = bytes::zero_bytes(33);
        bytes::holds_in_concat(a, b, Seq::empty());
        bytes::holds_within(s, offset, a + b, 0, a);
        bytes::holds_within(s, offset, a + b, a.len() as int, b);
        encoding::string_round_trip(s, offset, sources[k]);
        let end = offset + a.len();
        assert(s.subrange(end + 16, end + 32) =~= s.subrange(end, end + 33).subrange(16, 32));
        assert(s.subrange(end + 16, end + 32) =~= bytes::zero_bytes(16));
        sources_read(s, at, sources, k + 1);
        assert(seq![all[k]] + all.skip(k + 1) =~= all.skip(k));
    } else {
        assert(all.skip(k) =~= Seq::<SourceView>::empty());
    }
}

/// The source ids are such that they read back.
pub open spec fn plain_unit(unit: (u32, Seq<u32>)) -> bool {
    unit.0 <= i32::MAX && forall|k: int|
        0 <= k < unit.1.len() ==> #[trigger] unit.1[k] <= i32::MAX
}

/// The source ids of the units, the primary one first.
pub open spec fn read_units(units: Seq<(u32, Seq<u32>)>) -> Seq<Seq<u32>> {
    Seq::new(units.len(), |k: int| seq![units[k].0] + units[k].1)
}

proof fn ids_read(s: Seq<u8>, at: int, ids: Seq<u32>, k: int)
    requires
        bytes::holds_at(s, at, bytes::joined(writer::id_parts(ids))),
        forall|j: int| 0 <= j < ids.len() ==> #[trigger] ids[j] <= i32::MAX,
        0 <= k <= ids.len(),
    ensures
        reader::ids_at(
            s,
            at + bytes::joined(writer::id_parts(ids).take(k)).len(),
            (ids.len() - k) as nat,
        ) == Some((ids.skip(k), at + bytes::joined(writer::id_parts(ids)).len())),
    decreases ids.len() - k,
{
    let parts = writer::id_parts(ids);
    let here = at + bytes::joined(parts.take(k)).len();
    if k < ids.len() {
        bytes::joined_part(parts, k);
        bytes::holds_within(
            s,
            at,
            bytes::joined(parts),
            bytes::joined(parts.take(k)).len() as int,
            parts[k],
        );
        encoding::leb128_round_trip(s, here, ids[k]);
        ids_read(s, at, ids, k + 1);
        assert(seq![ids[k]] + ids.skip(k + 1) =~= ids.skip(k));
    } else {
        assert(parts.take(k) =~= parts);
        assert(ids.skip(k) =~= Seq::<u32>::empty());
    }
}

proof fn unit_reads(s: Seq<u8>, at: int, unit: (u32, Seq<u32>))
    requires
        s.len() <= i32::MAX,
        bytes::holds_at(s, at, writer::unit_part(unit)),
        plain_unit(unit),
    ensures
        reader::unit_payload(s, at) == Some(seq![unit.0] + unit.1),
{
    let a = encoding::leb128_bytes(unit.0);
    let parts = writer::id_parts(unit.1);
    id_parts_grow(unit.1, unit.1.len() as int);
    assert(parts.take(parts.len() as int) =~= parts);
    let n = bytes::low32(unit.1.len() as int);
    let b = encoding::leb128_bytes(n);
    let c = bytes::joined(parts);
    let d = encoding::leb128_bytes(0);
    let whole = a + b + c + d;
    let at_b = a.len() as int;
    let at_c = at_b + b.len();
    let at_d = at_c + c.len();
    assert(whole.subrange(0, at_b) =~= a);
    assert(whole.subrange(at_b, at_c) =~= b);
    assert(whole.subrange(at_c, at_d) =~= c);
    assert(whole.subrange(at_d, at_d + d.len()) =~= d);
    bytes::holds_within(s, at, whole, 0, a);
    bytes::holds_within(s, at, whole, at_b, b);
    bytes::holds_within(s, at, whole, at_c, c);
    bytes::holds_within(s, at, whole, at_d, d);
    encoding::leb128_round_trip(s, at, unit.0);
    encoding::leb128_round_trip(s, at + at_b, n);
    ids_read(s, at + at_c, unit.1, 0);
    assert(parts.take(0) =~= Seq::<Seq<u8>>::empty());
    assert(unit.1.skip(0) =~= unit.1);
    encoding::leb128_round_trip(s, at + at_d, 0);
}

/// Every variable-length integer takes a byte.
proof fn id_parts_grow(ids: Seq<u32>, k: int)
    requires
        0 <= k <= ids.len(),
    ensures
        bytes::joined(writer::id_parts(ids).take(k)).len() >= k,
    decreases k,
{
    if k > 0 {
        id_parts_grow(ids, k - 1);
        bytes::joined_step(writer::id_parts(ids), k - 1);
    }
}

proof fn units_read(s: Seq<u8>, at: int, base: int, units: Seq<(u32, Seq<u32>)>, k: int)
    requires
        s.len() <= i32::MAX,
        0 <= base,
        bytes::holds_at(s, base, bytes::joined(writer::unit_parts(units))),
        bytes::holds_at(
            s,
            at,
            bytes::joined(writer::index_rows(writer::unit_parts(units), base)),
        ),
        forall|j: int| 0 <= j < units.len() ==> plain_unit(#[trigger] units[j]),
        0 <= k <= units.len(),
    ensures
        reader::units_at(s, at + 8 * k, (units.len() - k) as nat) == Some(
            read_units(units).skip(k),
        ),
    decreases units.len() - k,
{
    let all = read_units(units);
    if k < units.len() {
        let parts = writer::unit_parts(units);
        let offset = base + bytes::joined(parts.take(k)).len();
        index_row_reads(s, at, parts, base, k);
        unit_reads(s, offset, units[k]);
        units_read(s, at, base, units, k + 1);
        assert(seq![all[k]] + all.skip(k + 1) =~= all.skip(k));
    } else {
        assert(all.skip(k) =~= Seq::<Seq<u32>>::empty());
    }
}

/// The payload of a method stands where its row says.
proof fn method_stands(methods: Seq<MethodModel>, base: int, k: int, n: int)
    requires
        0 <= k < n <= methods.len(),
    ensures
        bytes::holds_at(
            writer::methods_bytes(methods, base, n),
            writer::methods_bytes(methods, base, k).len() as int,
            writer::method_part(methods[k], writer::method_start(methods, base, k)),
        ),
    decreases n,
{
    let front = writer::methods_bytes(methods, base, n - 1);
    let part = writer::method_part(methods[n - 1], base + front.len());
    if k == n - 1 {
        bytes::holds_in_concat(front, part, Seq::empty());
    } else {
        method_stands(methods, base, k, n - 1);
        bytes::holds_extended(
            front,
            part,
            writer::methods_bytes(methods, base, k).len() as int,
            writer::method_part(methods[k], writer::method_start(methods, base, k)),
        );
    }
}

proof fn integers_read(s: Seq<u8>, at: int, vs: Seq<u32>, k: int)
    requires
        bytes::holds_at(s, at, bytes::joined(writer::id_parts(vs))),
        0 <= k <= vs.len(),
    ensures
        reader::seven_at(
            s,
            at + bytes::joined(writer::id_parts(vs).take(k)).len(),
            (vs.len() - k) as nat,
        ) == Some(Seq::new((vs.len() - k) as nat, |j: int| bytes::i32_of(vs[k + j]))),
    decreases vs.len() - k,
{
    let parts = writer::id_parts(vs);
    let here = at + bytes::joined(parts.take(k)).len();
    let left = Seq::new((vs.len() - k) as nat, |j: int| bytes::i32_of(vs[k + j]));
    if k < vs.len() {
        bytes::joined_part(parts, k);
        bytes::holds_within(
            s,
            at,
            bytes::joined(parts),
            bytes::joined(parts.take(k)).len() as int,
            parts[k],
        );
        encoding::leb128_round_trip(s, here, vs[k]);
        integers_read(s, at, vs, k + 1);
        let rest = Seq::new((vs.len() - k - 1) as nat, |j: int| bytes::i32_of(vs[k + 1 + j]));
        assert(seq![bytes::i32_of(vs[k])] + rest =~= left);
    } else {
        assert(left =~= Seq::<i32>::empty());
    }
}

spec fn data_values(m: MethodModel, at: int) -> Seq<u32> {
    let locals = writer::locals_bytes(m.locals).len();
    seq![
        m.compile_unit,
        bytes::low32(at),
        bytes::u32_of(m.namespace_id),
        bytes::low32(at + locals),
        bytes::low32(at + locals + 1),
        0u32,
        2u32,
    ]
}

proof fn data_is_joined(m: MethodModel, at: int)
    ensures
        bytes::joined(writer::id_parts(data_values(m, at))) == writer::method_data(m, at),
{
    let p = writer::id_parts(data_values(m, at));
    assert(p.take(7) =~= p);
    bytes::joined_step(p, 0);
    bytes::joined_step(p, 1);
    bytes::joined_step(p, 2);
    bytes::joined_step(p, 3);
    bytes::joined_step(p, 4);
    bytes::joined_step(p, 5);
    bytes::joined_step(p, 6);
    assert(p.take(0) =~= Seq::<Seq<u8>>::empty());
    assert(bytes::joined(p.take(1)) =~= p[0]);
}

/// The unit and the namespace of the method are such that they read back.
pub open spec fn plain_method(m: MethodModel) -> bool {
    m.compile_unit <= i32::MAX && m.namespace_id >= 0
}

/// The row of the `k`-th method, as it reads back.
pub open spec fn read_entry(m: MethodModel, k: int) -> MethodEntry {
    MethodEntry {
        row: (k + 1) as u32,
        token: m.token,
        compile_unit: m.compile_unit,
        namespace_id: m.namespace_id as u32,
    }
}

/// The payload of a method stands in the file where its row says.
proof fn method_in_file(s: Seq<u8>, base: int, methods: Seq<MethodModel>, k: int)
    requires
        s.len() <= i32::MAX,
        0 < base,
        bytes::holds_at(s, base, writer::methods_bytes(methods, base, methods.len() as int)),
        0 <= k < methods.len(),
    ensures
        ({
            let m = methods[k];
            let start = writer::method_start(methods, base, k);
            let front = writer::method_front(m);
            &&& 0 < start
            &&& bytes::holds_at(s, start, writer::method_part(m, start))
            &&& bytes::holds_at(s, start, front)
            &&& bytes::holds_at(s, start + front.len(), writer::method_data(m, start))
            &&& writer::locals_bytes(m.locals).len() + 2 <= front.len()
            &&& start + front.len() < s.len()
        }),
{
    let m = methods[k];
    let start = writer::method_start(methods, base, k);
    let all = writer::methods_bytes(methods, base, methods.len() as int);
    let part = writer::method_part(m, start);
    method_stands(methods, base, k, methods.len() as int);
    bytes::holds_within(s, base, all, start - base, part);
    let front = writer::method_front(m);
    let data = writer::method_data(m, start);
    bytes::holds_in_concat(front, data, Seq::empty());
    bytes::holds_within(s, start, part, 0, front);
    bytes::holds_within(s, start, part, front.len() as int, data);
}

/// The row of a method reads back.
proof fn method_row_reads(s: Seq<u8>, at: int, base: int, methods: Seq<MethodModel>, k: int)
    requires
        bytes::holds_at(s, at, bytes::joined(writer::method_rows(methods, base))),
        0 <= k < methods.len(),
    ensures
        ({
            let m = methods[k];
            let start = writer::method_start(methods, base, k);
            let here = at + 12 * k;
            &&& bytes::u32_at(s, here) == m.token.0
            &&& bytes::u32_at(s, here + 4) == bytes::low32(start + writer::method_front(m).len())
            &&& bytes::u32_at(s, here + 8) == bytes::low32(
                start + writer::locals_bytes(m.locals).len() + 2,
            )
            &&& here + 12 <= s.len()
            &&& 0 <= at
        }),
{
    let m = methods[k];
    let rows = writer::method_rows(methods, base);
    bytes::joined_uniform(rows, 12, k);
    bytes::joined_part(rows, k);
    bytes::holds_within(s, at, bytes::joined(rows), 12 * k, rows[k]);
    let start = writer::method_start(methods, base, k);
    let here = at + 12 * k;
    let data_at = bytes::low32(start + writer::method_front(m).len());
    let lines_at = bytes::low32(start + writer::locals_bytes(m.locals).len() + 2);
    let a = bytes::u32_le(m.token.0);
    let b = bytes::u32_le(data_at);
    let c = bytes::u32_le(lines_at);
    assert(rows[k] == a + b + c);
    row_of_three(s, here, m.token.0, data_at, lines_at);
}

proof fn row_of_three(s: Seq<u8>, at: int, x: u32, y: u32, z: u32)
    requires
        bytes::holds_at(s, at, bytes::u32_le(x) + bytes::u32_le(y) + bytes::u32_le(z)),
    ensures
        bytes::u32_at(s, at) == x,
        bytes::u32_at(s, at + 4) == y,
        bytes::u32_at(s, at + 8) == z,
{
    let a = bytes::u32_le(x);
    let b = bytes::u32_le(y);
    let c = bytes::u32_le(z);
    let row = a + b + c;
    assert(row.subrange(0, 4) =~= a);
    assert(row.subrange(4, 8) =~= b);
    assert(row.subrange(8, 12) =~= c);
    bytes::holds_within(s, at, row, 0, a);
    bytes::holds_within(s, at, row, 4, b);
    bytes::holds_within(s, at, row, 8, c);
    bytes::u32_round_trip(s, at, x);
    bytes::u32_round_trip(s, at + 4, y);
    bytes::u32_round_trip(s, at + 8, z);
}

/// The data of a method reads back.
proof fn method_data_reads(s: Seq<u8>, at: int, m: MethodModel, start: int)
    requires
        bytes::holds_at(s, at, writer::method_data(m, start)),
    ensures
        reader::seven_at(s, at, 7) matches Some(v) && v.len() == 7 && v[0] == bytes::i32_of(
            m.compile_unit,
        ) && v[1] == bytes::i32_of(bytes::low32(start)) && v[2] == m.namespace_id && v[6] == 2,
{
    let values = data_values(m, start);
    data_is_joined(m, start);
    integers_read(s, at, values, 0);
    assert(writer::id_parts(values).take(0) =~= Seq::<Seq<u8>>::empty());
    bytes::signed_round_trip(0, 0, m.namespace_id, 0);
}

/// The method that the `k`-th row leads to.
spec fn read_row(methods: Seq<MethodModel>, base: int, k: int) -> MethodRow {
    let m = methods[k];
    let start = writer::method_start(methods, base, k);
    MethodRow {
        entry: read_entry(m, k),
        line_number_table_offset: (start + writer::locals_bytes(m.locals).len() + 2) as u32,
        local_variable_table_offset: start as u32,
        flags: 2,
    }
}

proof fn method_reads(s: Seq<u8>, at: int, base: int, methods: Seq<MethodModel>, k: int)
    requires
        s.len() <= i32::MAX,
        0 < base,
        bytes::holds_at(s, base, writer::methods_bytes(methods, base, methods.len() as int)),
        bytes::holds_at(s, at, bytes::joined(writer::method_rows(methods, base))),
        0 <= k < methods.len(),
        plain_method(methods[k]),
    ensures
        reader::method_at(s, at + 12 * k, k) == Some(read_row(methods, base, k)),
{
    let m = methods[k];
    let start = writer::method_start(methods, base, k);
    let data_at = start + writer::method_front(m).len();
    let lines_at = start + writer::locals_bytes(m.locals).len() + 2;
    method_in_file(s, base, methods, k);
    method_row_reads(s, at, base, methods, k);
    method_data_reads(s, data_at, m, start);
    payload_locals_read(s, start, m);
    method_at_is(s, at + 12 * k, k, m, start, data_at, lines_at);
}

/// The method that a row and its data give.
proof fn method_at_is(
    s: Seq<u8>,
    here: int,
    k: int,
    m: MethodModel,
    start: int,
    data_at: int,
    lines_at: int,
)
    requires
        s.len() <= i32::MAX,
        0 <= k,
        12 * k <= here,
        here + 12 <= s.len(),
        0 < start < lines_at <= data_at < s.len(),
        bytes::u32_at(s, here) == m.token.0,
        bytes::u32_at(s, here + 4) == bytes::low32(data_at),
        bytes::u32_at(s, here + 8) == bytes::low32(lines_at),
        m.compile_unit <= i32::MAX,
        m.namespace_id >= 0,
        reader::seven_at(s, data_at, 7) matches Some(v) && v.len() == 7 && v[0] == bytes::i32_of(
            m.compile_unit,
        ) && v[1] == bytes::i32_of(bytes::low32(start)) && v[2] == m.namespace_id && v[6] == 2,
        reader::counted_locals(s, start) is Some,
    ensures
        reader::method_at(s, here, k) == Some(
            MethodRow {
                entry: read_entry(m, k),
                line_number_table_offset: lines_at as u32,
                local_variable_table_offset: start as u32,
                flags: 2,
            },
        ),
{
    assert(bytes::low32(data_at) == data_at);
    assert(bytes::low32(lines_at) == lines_at);
    assert(bytes::low32(start) == start);
    assert(bytes::low32(k + 1) == k + 1);
}

spec fn read_rows(methods: Seq<MethodModel>, base: int) -> Seq<MethodRow> {
    Seq::new(methods.len(), |k: int| read_row(methods, base, k))
}

proof fn methods_read(s: Seq<u8>, at: int, base: int, methods: Seq<MethodModel>, k: int)
    requires
        s.len() <= i32::MAX,
        0 < base,
        bytes::holds_at(s, base, writer::methods_bytes(methods, base, methods.len() as int)),
        bytes::holds_at(s, at, bytes::joined(writer::method_rows(methods, base))),
        0 <= k <= methods.len(),
        forall|j: int| 0 <= j < methods.len() ==> plain_method(#[trigger] methods[j]),
    ensures
        reader::methods_from(s, at, k, methods.len() as int) == Some(
            read_rows(methods, base).skip(k),
        ),
    decreases methods.len() - k,
{
    let all = read_rows(methods, base);
    if k < methods.len() {
        method_reads(s, at, base, methods, k);
        methods_read(s, at, base, methods, k + 1);
        assert(seq![all[k]] + all.skip(k + 1) =~= all.skip(k));
    } else {
        assert(all.skip(k) =~= Seq::<MethodRow>::empty());
    }
}

proof fn local_parts_read(s: Seq<u8>, at: int, locals: Seq<LocalView>, k: int)
    requires
        s.len() <= i32::MAX,
        bytes::holds_at(s, at, bytes::joined(writer::local_parts(locals))),
        0 <= k <= locals.len(),
    ensures
        reader::locals_at(
            s,
            at + bytes::joined(writer::local_parts(locals).take(k)).len(),
            (locals.len() - k) as nat,
        ) == Some(locals.skip(k)),
        bytes::joined(writer::local_parts(locals).take(k)).len() >= k,
    decreases locals.len() - k,
{
    let parts = writer::local_parts(locals);
    local_parts_grow(locals, k);
    let here = at + bytes::joined(parts.take(k)).len();
    if k < locals.len() {
        let l = locals[k];
        bytes::joined_part(parts, k);
        bytes::holds_within(
            s,
            at,
            bytes::joined(parts),
            bytes::joined(parts.take(k)).len() as int,
            parts[k],
        );
        let a = encoding::leb128_bytes(bytes::u32_of(l.index));
        let b = encoding::string_bytes(l.name);
        let c = encoding::leb128_bytes(bytes::u32_of(l.block_index));
        bytes::holds_in_concat(a, b, c);
        bytes::holds_in_concat(a + b, c, Seq::empty());
        bytes::holds_extended(a + b, c, 0, a);
        bytes::holds_within(s, here, a + b + c, 0, a);
        bytes::holds_within(s, here, a + b + c, a.len() as int, b);
        bytes::holds_within(s, here, a + b + c, (a + b).len() as int, c);
        encoding::leb128_round_trip(s, here, bytes::u32_of(l.index));
        encoding::string_round_trip(s, here + a.len(), l.name);
        encoding::leb128_round_trip(s, here + (a + b).len(), bytes::u32_of(l.block_index));
        bytes::signed_round_trip(0, 0, l.index, 0);
        bytes::signed_round_trip(0, 0, l.block_index, 0);
        local_parts_read(s, at, locals, k + 1);
        assert(seq![l] + locals.skip(k + 1) =~= locals.skip(k));
    } else {
        assert(locals.skip(k) =~= Seq::<LocalView>::empty());
    }
}

proof fn local_parts_grow(locals: Seq<LocalView>, k: int)
    requires
        0 <= k <= locals.len(),
    ensures
        bytes::joined(writer::local_parts(locals).take(k)).len() >= k,
    decreases k,
{
    if k > 0 {
        local_parts_grow(locals, k - 1);
        bytes::joined_step(writer::local_parts(locals), k - 1);
    }
}

/// The local variables of a method read back.
pub proof fn locals_round_trip(s: Seq<u8>, at: int, locals: Seq<LocalView>)
    requires
        s.len() <= i32::MAX,
        bytes::holds_at(s, at, writer::locals_bytes(locals)),
    ensures
        reader::counted_locals(s, at) == Some(locals),
{
    let parts = writer::local_parts(locals);
    let n = bytes::low32(locals.len() as int);
    let a = encoding::leb128_bytes(n);
    let b = bytes::joined(parts);
    bytes::holds_in_concat(a, b, Seq::empty());
    bytes::holds_within(s, at, a + b, 0, a);
    bytes::holds_within(s, at, a + b, a.len() as int, b);
    encoding::leb128_round_trip(s, at, n);
    local_parts_read(s, at + a.len(), locals, 0);
    local_parts_grow(locals, locals.len() as int);
    assert(parts.take(locals.len() as int) =~= parts);
    assert(parts.take(0) =~= Seq::<Seq<u8>>::empty());
    assert(locals.skip(0) =~= locals);
}

/// Where the parts of a file stand.
proof fn eight_parts(
    a: Seq<u8>,
    b: Seq<u8>,
    c: Seq<u8>,
    d: Seq<u8>,
    e: Seq<u8>,
    f: Seq<u8>,
    g: Seq<u8>,
    h: Seq<u8>,
)
    ensures
        ({
            let w = a + b + c + d + e + f + g + h;
            let at_c = (a.len() + b.len()) as int;
            let at_d = at_c + c.len();
            let at_e = at_d + d.len();
            let at_f = at_e + e.len();
            let at_g = at_f + f.len();
            let at_h = at_g + g.len();
            &&& bytes::holds_at(w, 0, a)
            &&& bytes::holds_at(w, a.len() as int, b)
            &&& bytes::holds_at(w, at_c, c)
            &&& bytes::holds_at(w, at_d, d)
            &&& bytes::holds_at(w, at_e, e)
            &&& bytes::holds_at(w, at_f, f)
            &&& bytes::holds_at(w, at_g, g)
            &&& bytes::holds_at(w, at_h, h)
            &&& w.len() == at_h + h.len()
        }),
{
    let w = a + b + c + d + e + f + g + h;
    let at_c = (a.len() + b.len()) as int;
    let at_d = at_c + c.len();
    let at_e = at_d + d.len();
    let at_f = at_e + e.len();
    let at_g = at_f + f.len();
    let at_h = at_g + g.len();
    assert(w.subrange(0, a.len() as int) =~= a);
    assert(w.subrange(a.len() as int, at_c) =~= b);
    assert(w.subrange(at_c, at_d) =~= c);
    assert(w.subrange(at_d, at_e) =~= d);
    assert(w.subrange(at_e, at_f) =~= e);
    assert(w.subrange(at_f, at_g) =~= f);
    assert(w.subrange(at_g, at_h) =~= g);
    assert(w.subrange(at_h, at_h + h.len()) =~= h);
}

/// The file of the model has less than two gigabytes.
pub open spec fn sized_model(m: MdbModel) -> bool {
    m.guid.len() == 16 && m.file().len() <= i32::MAX
}

/// The model is such that its file parses: a file of less than two gigabytes,
/// with ids and namespaces that are not negative as signed numbers.
pub open spec fn plain_model(m: MdbModel) -> bool {
    &&& sized_model(m)
    &&& forall|k: int| 0 <= k < m.units.len() ==> plain_unit(#[trigger] m.units[k])
    &&& forall|k: int| 0 <= k < m.methods.len() ==> plain_method(#[trigger] m.methods[k])
}

spec fn header(guid: Seq<u8>) -> Seq<u8> {
    bytes::u64_le(MAGIC) + bytes::u32_le(50) + bytes::u32_le(0) + guid
}

proof fn header_reads(s: Seq<u8>, guid: Seq<u8>)
    requires
        guid.len() == 16,
        bytes::holds_at(s, 0, header(guid)),
    ensures
        bytes::u64_at(s, 0) == MAGIC,
        reader::int_at(s, 8) == 50,
        reader::int_at(s, 12) == 0,
        s.subrange(16, 32) == guid,
{
    let h = header(guid);
    let a = bytes::u64_le(MAGIC);
    let b = bytes::u32_le(50);
    let c = bytes::u32_le(0);
    assert(h.subrange(0, 8) =~= a);
    assert(h.subrange(8, 12) =~= b);
    assert(h.subrange(12, 16) =~= c);
    assert(h.subrange(16, 32) =~= guid);
    bytes::holds_within(s, 0, h, 0, a);
    bytes::holds_within(s, 0, h, 8, b);
    bytes::holds_within(s, 0, h, 12, c);
    bytes::holds_within(s, 0, h, 16, guid);
    bytes::u64_round_trip(s, 0, MAGIC);
    bytes::u32_round_trip(s, 8, 50);
    bytes::u32_round_trip(s, 12, 0);
}

/// Where the parts of a written file stand.
proof fn file_parts_stand(m: MdbModel)
    requires
        m.guid.len() == 16,
    ensures
        ({
            let s = m.file();
            let p = m.parts();
            let methods_at = m.methods_base() + p.methods.len();
            let sources_at = methods_at + p.method_table.len();
            let units_at = sources_at + p.source_table.len();
            &&& bytes::holds_at(s, 0, header(m.guid))
            &&& bytes::holds_at(s, 32, bytes::joined(m.offsets().parts()))
            &&& bytes::holds_at(s, 112, p.sources)
            &&& bytes::holds_at(s, 112 + p.sources.len() as int, p.units)
            &&& bytes::holds_at(s, m.methods_base(), p.methods)
            &&& bytes::holds_at(s, methods_at, p.method_table)
            &&& bytes::holds_at(s, sources_at, p.source_table)
            &&& bytes::holds_at(s, units_at, p.unit_table)
            &&& s.len() == units_at + p.unit_table.len()
        }),
{
    let p = m.parts();
    let ot = m.offsets().parts();
    bytes::joined_uniform(ot, 4, 20);
    assert(ot.take(20) =~= ot);
    eight_parts(
        header(m.guid),
        bytes::joined(ot),
        p.sources,
        p.units,
        p.methods,
        p.method_table,
        p.source_table,
        p.unit_table,
    );
}

/// Tables of rows have the size that their number of rows gives them.
pub(crate) proof fn table_sizes(m: MdbModel)
    ensures
        m.parts().method_table.len() == 12 * m.methods.len(),
        m.parts().source_table.len() == 8 * m.sources.len(),
        m.parts().unit_table.len() == 8 * m.units.len(),
{
    methods_are_sorted(m.methods);
    let methods = writer::sorted_methods(m.methods);
    let a = writer::method_rows(methods, m.methods_base());
    let b = writer::index_rows(writer::source_parts(m.sources), 112);
    let base = 112 + m.parts().sources.len();
    let c = writer::index_rows(writer::unit_parts(m.units), base as int);
    bytes::joined_uniform(a, 12, a.len() as int);
    bytes::joined_uniform(b, 8, b.len() as int);
    bytes::joined_uniform(c, 8, c.len() as int);
    assert(a.take(a.len() as int) =~= a);
    assert(b.take(b.len() as int) =~= b);
    assert(c.take(c.len() as int) =~= c);
}

/// What holds of every method holds of the sorted ones.
proof fn sorted_are_plain(m: MdbModel)
    requires
        plain_model(m),
    ensures
        forall|k: int|
            0 <= k < m.methods.len() ==> plain_method(
                #[trigger] writer::sorted_methods(m.methods)[k],
            ),
{
    let methods = writer::sorted_methods(m.methods);
    methods_are_sorted(m.methods);
    assert forall|k: int| 0 <= k < m.methods.len() implies plain_method(#[trigger] methods[k]) by {
        broadcast use vstd::seq_lib::group_to_multiset_ensures;

        assert(methods.contains(methods[k]));
        assert(methods.to_multiset().count(methods[k]) > 0);
        assert(m.methods.to_multiset().count(methods[k]) > 0);
        assert(m.methods.contains(methods[k]));
    }
}

/// The offset table says where the tables stand and how many rows they have.
proof fn offsets_are(m: MdbModel)
    requires
        sized_model(m),
    ensures
        ({
            let s = m.file();
            let p = m.parts();
            let ot = m.offsets();
            let methods_at = m.methods_base() + p.methods.len();
            let sources_at = methods_at + p.method_table.len();
            let units_at = sources_at + p.source_table.len();
            &&& ot.method_table_offset == methods_at
            &&& ot.source_table_offset == sources_at
            &&& ot.compile_unit_table_offset == units_at
            &&& ot.method_count == m.methods.len()
            &&& ot.source_count == m.sources.len()
            &&& ot.compile_unit_count == m.units.len()
            &&& reader::table_fits(
                s,
                ot.source_table_offset,
                ot.source_table_size,
                ot.source_count,
                8,
            )
            &&& reader::table_fits(
                s,
                ot.compile_unit_table_offset,
                ot.compile_unit_table_size,
                ot.compile_unit_count,
                8,
            )
            &&& reader::table_fits(
                s,
                ot.method_table_offset,
                ot.method_table_size,
                ot.method_count,
                12,
            )
            &&& ot.line_number_table_line_range == 8
            &&& ot.line_number_table_opcode_base == 9
            &&& ot.params() == lines::default_params()
        }),
{
    let p = m.parts();
    let methods_at = m.methods_base() + p.methods.len();
    let sources_at = methods_at + p.method_table.len();
    let units_at = sources_at + p.source_table.len();
    file_length(m);
    table_sizes(m);
    small_is_kept(methods_at);
    small_is_kept(sources_at);
    small_is_kept(units_at);
    small_is_kept(p.method_table.len() as int);
    small_is_kept(p.source_table.len() as int);
    small_is_kept(p.unit_table.len() as int);
    small_is_kept(m.methods.len() as int);
    small_is_kept(m.sources.len() as int);
    small_is_kept(m.units.len() as int);
}

proof fn small_is_kept(n: int)
    requires
        0 <= n <= i32::MAX,
    ensures
        bytes::wrapped32(n) == n,
{
}

/// How long a written file is.
pub(crate) proof fn file_length(m: MdbModel)
    requires
        m.guid.len() == 16,
    ensures
        m.file().len() == m.methods_base() + m.parts().methods.len()
            + m.parts().method_table.len() + m.parts().source_table.len()
            + m.parts().unit_table.len(),
{
    file_parts_stand(m);
}

/// What the source table of a written file says.
proof fn source_table_reads(m: MdbModel)
    requires
        sized_model(m),
    ensures
        reader::sources_at(
            m.file(),
            m.offsets().source_table_offset as int,
            m.sources.len(),
        ) == Some(read_sources(m.sources)),
{
    let p = m.parts();
    let sources_at = m.methods_base() + p.methods.len() + p.method_table.len();
    offsets_are(m);
    file_parts_stand(m);
    sources_read(m.file(), sources_at, m.sources, 0);
    assert(read_sources(m.sources).skip(0) =~= read_sources(m.sources));
}

/// What the compile unit table of a written file says.
proof fn unit_table_reads(m: MdbModel)
    requires
        plain_model(m),
    ensures
        reader::units_at(
            m.file(),
            m.offsets().compile_unit_table_offset as int,
            m.units.len(),
        ) == Some(read_units(m.units)),
{
    let p = m.parts();
    let units_at = m.methods_base() + p.methods.len() + p.method_table.len()
        + p.source_table.len();
    offsets_are(m);
    file_parts_stand(m);
    units_read(m.file(), units_at, 112 + p.sources.len() as int, m.units, 0);
    assert(read_units(m.units).skip(0) =~= read_units(m.units));
}

/// What the method table of a written file says.
proof fn method_table_reads(m: MdbModel)
    requires
        plain_model(m),
    ensures
        reader::methods_from(
            m.file(),
            m.offsets().method_table_offset as int,
            0,
            m.methods.len() as int,
        ) == Some(read_rows(writer::sorted_methods(m.methods), m.methods_base())),
{
    let methods = writer::sorted_methods(m.methods);
    let base = m.methods_base();
    let methods_at = base + m.parts().methods.len();
    offsets_are(m);
    file_parts_stand(m);
    methods_are_sorted(m.methods);
    sorted_are_plain(m);
    methods_read(m.file(), methods_at, base, methods, 0);
    assert(read_rows(methods, base).skip(0) =~= read_rows(methods, base));
}

/// The file that a model reads back as.
spec fn read_file(m: MdbModel) -> MdbView {
    MdbView {
        data: m.file(),
        guid: m.guid,
        major_version: 50,
        minor_version: 0,
        offsets: m.offsets(),
        sources: read_sources(m.sources),
        units: read_units(m.units),
        methods: read_rows(writer::sorted_methods(m.methods), m.methods_base()),
    }
}

proof fn file_reads(m: MdbModel)
    requires
        plain_model(m),
    ensures
        reader::parsed_mdb(m.file()) == Some(read_file(m)),
{
    let s = m.file();
    file_parts_stand(m);
    header_reads(s, m.guid);
    offset_table_round_trip(s, 32, m.offsets());
    offsets_are(m);
    source_table_reads(m);
    unit_table_reads(m);
    method_table_reads(m);
}

/// A written symbol file parses, and gives back the guid, the sources, the
/// compile units and, in the order of their tokens, the methods that were
/// written.
pub proof fn written_file_parses(m: MdbModel)
    requires
        plain_model(m),
    ensures
        reader::parsed_mdb(m.file()) matches Some(v) && {
            let methods = writer::sorted_methods(m.methods);
            &&& v.data == m.file()
            &&& v.guid == m.guid
            &&& v.major_version == reader::MAJOR_VERSION
            &&& v.minor_version == reader::MINOR_VERSION
            &&& v.offsets == m.offsets()
            &&& v.sources == read_sources(m.sources)
            &&& v.units == read_units(m.units)
            &&& v.methods.len() == methods.len()
            &&& forall|k: int|
                #![trigger v.methods[k]]
                0 <= k < methods.len() ==> v.methods[k].entry == read_entry(methods[k], k)
        },
{
    file_reads(m);
}

/// The local variables of every method of a written symbol file read back as
/// they were written, and so does its line-number table where its IL offsets
/// start at zero or above and its file ids are not negative as signed numbers.
/// Nothing is asked of the lines of other methods.
pub proof fn written_method_reads_back(m: MdbModel, k: int)
    requires
        plain_model(m),
        0 <= k < m.methods.len(),
    ensures
        reader::parsed_mdb(m.file()) matches Some(v) && {
            let method = writer::sorted_methods(m.methods)[k];
            &&& lines_laws::regular_lines(method.lines) ==> v.lines((k + 1) as u32) == Ok::<
                _,
                ErrorKind,
            >(Some(lines_laws::decoded_points(method.lines, 2)))
            &&& v.locals((k + 1) as u32) == Ok::<_, ErrorKind>(Some(method.locals))
        },
{
    let s = m.file();
    let methods = writer::sorted_methods(m.methods);
    let method = methods[k];
    let base = m.methods_base();
    file_reads(m);
    offsets_are(m);
    methods_are_sorted(m.methods);
    sorted_are_plain(m);
    let start = writer::method_start(methods, base, k);
    payload_stands(m, k);
    payload_locals_read(s, start, method);
    if lines_laws::regular_lines(method.lines) {
        payload_lines_read(s, start, method);
    }
    let v = read_file(m);
    assert(v.methods[k] == read_row(methods, base, k));
    assert(v.method((k + 1) as u32) == Some(read_row(methods, base, k)));
}

proof fn payload_stands(m: MdbModel, k: int)
    requires
        plain_model(m),
        0 <= k < m.methods.len(),
    ensures
        ({
            let methods = writer::sorted_methods(m.methods);
            let start = writer::method_start(methods, m.methods_base(), k);
            &&& bytes::holds_at(m.file(), start, writer::method_front(methods[k]))
            &&& 0 < start
            &&& start + writer::locals_bytes(methods[k].locals).len() + 2 <= i32::MAX
            &&& k < i32::MAX
        }),
{
    let methods = writer::sorted_methods(m.methods);
    methods_are_sorted(m.methods);
    file_length(m);
    table_sizes(m);
    file_parts_stand(m);
    method_in_file(m.file(), m.methods_base(), methods, k);
}

/// The local variables of a method read back.
proof fn payload_locals_read(s: Seq<u8>, start: int, method: MethodModel)
    requires
        s.len() <= i32::MAX,
        bytes::holds_at(s, start, writer::method_front(method)),
    ensures
        reader::counted_locals(s, start) == Some(method.locals),
{
    let a = writer::locals_bytes(method.locals);
    let b = encoding::leb128_bytes(0);
    let c = lines::table_bytes(method.lines, 2);
    let front = a + b + b + c;
    assert(front.subrange(0, a.len() as int) =~= a);
    bytes::holds_within(s, start, front, 0, a);
    locals_round_trip(s, start, method.locals);
}

/// The lines of a method read back.
proof fn payload_lines_read(s: Seq<u8>, start: int, method: MethodModel)
    requires
        s.len() <= i32::MAX,
        bytes::holds_at(s, start, writer::method_front(method)),
        lines_laws::regular_lines(method.lines),
    ensures
        lines::table_at(
            s,
            start + writer::locals_bytes(method.locals).len() + 2,
            lines::default_params(),
            2,
        ) == Some(lines_laws::decoded_points(method.lines, 2)),
{
    let a = writer::locals_bytes(method.locals);
    let b = encoding::leb128_bytes(0);
    let c = lines::table_bytes(method.lines, 2);
    let front = a + b + b + c;
    zero_takes_a_byte();
    assert(front.subrange((a.len() + 2) as int, (a.len() + 2 + c.len()) as int) =~= c);
    bytes::holds_within(s, start, front, (a.len() + 2) as int, c);
    lines_laws::table_round_trip(s, start + a.len() + 2, method.lines, 2);
}

/// Ids that a reader takes are plain.
proof fn read_ids_are_plain(s: Seq<u8>, at: int, ids: Seq<u32>, k: int)
    requires
        bytes::holds_at(s, at, bytes::joined(writer::id_parts(ids))),
        0 <= k <= ids.len(),
        reader::ids_at(
            s,
            at + bytes::joined(writer::id_parts(ids).take(k)).len(),
            (ids.len() - k) as nat,
        ) is Some,
    ensures
        forall|j: int| k <= j < ids.len() ==> #[trigger] ids[j] <= i32::MAX,
    decreases ids.len() - k,
{
    let parts = writer::id_parts(ids);
    let here = at + bytes::joined(parts.take(k)).len();
    if k < ids.len() {
        bytes::joined_part(parts, k);
        bytes::holds_within(
            s,
            at,
            bytes::joined(parts),
            bytes::joined(parts.take(k)).len() as int,
            parts[k],
        );
        encoding::leb128_round_trip(s, here, ids[k]);
        bytes::joined_step(parts, k);
        read_ids_are_plain(s, at, ids, k + 1);
    }
}

/// A unit that a reader takes is plain.
proof fn read_unit_is_plain(s: Seq<u8>, at: int, unit: (u32, Seq<u32>))
    requires
        s.len() <= i32::MAX,
        bytes::holds_at(s, at, writer::unit_part(unit)),
        reader::unit_payload(s, at) is Some,
    ensures
        plain_unit(unit),
{
    let a = encoding::leb128_bytes(unit.0);
    let parts = writer::id_parts(unit.1);
    id_parts_grow(unit.1, unit.1.len() as int);
    assert(parts.take(parts.len() as int) =~= parts);
    let n = bytes::low32(unit.1.len() as int);
    let b = encoding::leb128_bytes(n);
    let c = bytes::joined(parts);
    let d = encoding::leb128_bytes(0);
    let whole = a + b + c + d;
    let at_b = a.len() as int;
    let at_c = at_b + b.len();
    let at_d = at_c + c.len();
    assert(whole.subrange(0, at_b) =~= a);
    assert(whole.subrange(at_b, at_c) =~= b);
    assert(whole.subrange(at_c, at_d) =~= c);
    bytes::holds_within(s, at, whole, 0, a);
    bytes::holds_within(s, at, whole, at_b, b);
    bytes::holds_within(s, at, whole, at_c, c);
    encoding::leb128_round_trip(s, at, unit.0);
    encoding::leb128_round_trip(s, at + at_b, n);
    assert(parts.take(0) =~= Seq::<Seq<u8>>::empty());
    read_ids_are_plain(s, at + at_c, unit.1, 0);
}

/// Units that a reader takes are plain.
proof fn read_units_are_plain(s: Seq<u8>, at: int, base: int, units: Seq<(u32, Seq<u32>)>, k: int)
    requires
        s.len() <= i32::MAX,
        0 <= base,
        bytes::holds_at(s, base, bytes::joined(writer::unit_parts(units))),
        bytes::holds_at(
            s,
            at,
            bytes::joined(writer::index_rows(writer::unit_parts(units), base)),
        ),
        0 <= k <= units.len(),
        reader::units_at(s, at + 8 * k, (units.len() - k) as nat) is Some,
    ensures
        forall|j: int| k <= j < units.len() ==> plain_unit(#[trigger] units[j]),
    decreases units.len() - k,
{
    if k < units.len() {
        let parts = writer::unit_parts(units);
        let offset = base + bytes::joined(parts.take(k)).len();
        index_row_reads(s, at, parts, base, k);
        read_unit_is_plain(s, offset, units[k]);
        read_units_are_plain(s, at, base, units, k + 1);
    }
}

/// A method that a reader takes is plain.
proof fn read_method_is_plain(
    s: Seq<u8>,
    here: int,
    k: int,
    m: MethodModel,
    start: int,
    data_at: int,
)
    requires
        0 <= data_at <= i32::MAX,
        bytes::u32_at(s, here + 4) == bytes::low32(data_at),
        reader::seven_at(s, data_at, 7) matches Some(v) && v.len() == 7 && v[0] == bytes::i32_of(
            m.compile_unit,
        ) && v[1] == bytes::i32_of(bytes::low32(start)) && v[2] == m.namespace_id && v[6] == 2,
        reader::method_at(s, here, k) is Some,
    ensures
        plain_method(m),
{
    assert(bytes::low32(data_at) == data_at);
}

/// Methods that a reader takes are plain.
proof fn read_methods_are_plain(s: Seq<u8>, at: int, base: int, methods: Seq<MethodModel>, k: int)
    requires
        s.len() <= i32::MAX,
        0 < base,
        bytes::holds_at(s, base, writer::methods_bytes(methods, base, methods.len() as int)),
        bytes::holds_at(s, at, bytes::joined(writer::method_rows(methods, base))),
        0 <= k <= methods.len(),
        reader::methods_from(s, at, k, methods.len() as int) is Some,
    ensures
        forall|j: int| k <= j < methods.len() ==> plain_method(#[trigger] methods[j]),
    decreases methods.len() - k,
{
    if k < methods.len() {
        let m = methods[k];
        let start = writer::method_start(methods, base, k);
        let data_at = start + writer::method_front(m).len();
        method_in_file(s, base, methods, k);
        method_row_reads(s, at, base, methods, k);
        method_data_reads(s, data_at, m, start);
        read_method_is_plain(s, at + 12 * k, k, m, start, data_at);
        read_methods_are_plain(s, at, base, methods, k + 1);
    }
}

/// The model of a file that parses is plain.
pub proof fn parsed_is_plain(m: MdbModel)
    requires
        sized_model(m),
        reader::parsed_mdb(m.file()) is Some,
    ensures
        plain_model(m),
{
    let s = m.file();
    let p = m.parts();
    let methods = writer::sorted_methods(m.methods);
    let base = m.methods_base();
    let methods_at = base + p.methods.len();
    let units_at = methods_at + p.method_table.len() + p.source_table.len();
    file_parts_stand(m);
    header_reads(s, m.guid);
    offset_table_round_trip(s, 32, m.offsets());
    offsets_are(m);
    methods_are_sorted(m.methods);
    read_units_are_plain(s, units_at, 112 + p.sources.len() as int, m.units, 0);
    read_methods_are_plain(s, methods_at, base, methods, 0);
    assert forall|k: int| 0 <= k < m.methods.len() implies plain_method(
        #[trigger] m.methods[k],
    ) by {
        broadcast use vstd::seq_lib::group_to_multiset_ensures;

        assert(m.methods.contains(m.methods[k]));
        assert(m.methods.to_multiset().count(m.methods[k]) > 0);
        assert(methods.to_multiset().count(m.methods[k]) > 0);
        assert(methods.contains(m.methods[k]));
    }
}

proof fn zero_takes_a_byte()
    ensures
        encoding::leb128_bytes(0).len() == 1,
{
    reveal_with_fuel(encoding::leb128_bytes, 2);
}

} // verus!
