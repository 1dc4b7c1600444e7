//! What a metadata reader makes of the root that a metadata builder wrote.

use vstd::prelude::*;

use crate::bytes;
use crate::error::ErrorKind;
use crate::metadata::builder;
use crate::metadata::builder::BuilderModel;
use crate::metadata::heap_laws;
use crate::metadata::heaps;
use crate::metadata::heaps::{HeapsView, PdbView};
use crate::metadata::reader;
use crate::metadata::reader::MetadataView;
use crate::metadata::root;
use crate::metadata::root::StreamView;
use crate::metadata::tables;
use crate::metadata::tables::{ColumnKind, TableShape};
use crate::text;
use crate::token;
use crate::token::TableIndex;

verus! {

broadcast use {crate::bytes::widths, crate::io::compressed_widths};

/// The payload of the last stream with the name.
spec fn named(streams: Seq<(Seq<char>, Seq<u8>)>, name: Seq<char>) -> Option<Seq<u8>>
    decreases streams.len(),
{
    if streams.len() == 0 {
        None
    } else if streams.last().0 == name {
        Some(streams.last().1)
    } else {
        named(streams.drop_last(), name)
    }
}

proof fn named_push(streams: Seq<(Seq<char>, Seq<u8>)>, s: (Seq<char>, Seq<u8>), name: Seq<char>)
    ensures
        named(streams.push(s), name) == if s.0 == name {
            Some(s.1)
        } else {
            named(streams, name)
        },
{
    assert(streams.push(s).drop_last() =~= streams);
}

proof fn named_append(
    streams: Seq<(Seq<char>, Seq<u8>)>,
    more: Seq<(Seq<char>, Seq<u8>)>,
    name: Seq<char>,
)
    requires
        more.len() <= 1,
    ensures
        named(streams + more, name) == if more.len() == 1 && more[0].0 == name {
            Some(more[0].1)
        } else {
            named(streams, name)
        },
{
    if more.len() == 1 {
        assert(streams + more =~= streams.push(more[0]));
        named_push(streams, more[0], name);
    } else {
        assert(streams + more =~= streams);
    }
}

proof fn last_stream_is_named(
    data: Seq<u8>,
    streams: Seq<(Seq<char>, Seq<u8>)>,
    views: Seq<StreamView>,
    n: int,
    name: Seq<char>,
)
    requires
        0 <= n <= streams.len(),
        views.len() == streams.len(),
        forall|k: int|
            #![trigger streams[k]]
            #![trigger views[k]]
            0 <= k < streams.len() ==> views[k].name == streams[k].0 && root::stream_payload(
                data,
                views[k],
            ) == Some(streams[k].1),
    ensures
        reader::last_stream(data, views.take(n), name) == named(streams.take(n), name),
        reader::table_stream(data, views.take(n)) == (match (
            named(streams.take(n), "#~"@),
            named(streams.take(n), "#-"@),
        ) {
            (None, None) => None,
            (Some(a), None) => Some(a),
            (None, Some(b)) => Some(b),
            _ => reader::table_stream(data, views.take(n)),
        }),
    decreases n,
{
    if n > 0 {
        last_stream_is_named(data, streams, views, n - 1, name);
        assert(views.take(n).drop_last() =~= views.take(n - 1));
        assert(streams.take(n).drop_last() =~= streams.take(n - 1));
        assert(views.take(n).last() == views[n - 1]);
        assert(streams.take(n).last() == streams[n - 1]);
        reveal_strlit("#~");
        reveal_strlit("#-");
        assert("#~"@[1] != "#-"@[1]);
    }
}

/// The names of the streams tell them apart.
proof fn names_differ()
    ensures
        "#~"@.len() == 2,
        "#-"@.len() == 2,
        "#~"@[1] == '~',
        "#-"@[1] == '-',
        "#US"@.len() == 3,
        "#Pdb"@.len() == 4,
        "#GUID"@.len() == 5,
        "#Blob"@.len() == 5,
        "#GUID"@[1] == 'G',
        "#Blob"@[1] == 'B',
        "#Strings"@.len() == 8,
{
    reveal_strlit("#~");
    reveal_strlit("#-");
    reveal_strlit("#US");
    reveal_strlit("#Pdb");
    reveal_strlit("#GUID");
    reveal_strlit("#Blob");
    reveal_strlit("#Strings");
}

proof fn ascii_zero_free(t: Seq<char>)
    requires
        vstd::utf8::is_ascii_chars(t),
        forall|i: int| 0 <= i < t.len() ==> #[trigger] t[i] != '\0',
    ensures
        bytes::zero_free(text::utf8(t)),
{
    vstd::utf8::is_ascii_chars_encode_utf8(t);
    assert forall|i: int| 0 <= i < text::utf8(t).len() implies text::utf8(t)[i] != 0 by {
        assert(t[i] != '\0');
        assert(text::utf8(t)[i] == t[i] as u8);
    }
}

proof fn names_zero_free()
    ensures
        bytes::zero_free(text::utf8("#~"@)),
        bytes::zero_free(text::utf8("#US"@)),
        bytes::zero_free(text::utf8("#Pdb"@)),
        bytes::zero_free(text::utf8("#GUID"@)),
        bytes::zero_free(text::utf8("#Blob"@)),
        bytes::zero_free(text::utf8("#Strings"@)),
{
    reveal_strlit("#~");
    reveal_strlit("#US");
    reveal_strlit("#Pdb");
    reveal_strlit("#GUID");
    reveal_strlit("#Blob");
    reveal_strlit("#Strings");
    ascii_zero_free("#~"@);
    ascii_zero_free("#US"@);
    ascii_zero_free("#Pdb"@);
    ascii_zero_free("#GUID"@);
    ascii_zero_free("#Blob"@);
    ascii_zero_free("#Strings"@);
}

/// The streams of a builder by name.
proof fn builder_streams_by_name(m: BuilderModel)
    ensures
        named(m.streams(), "#~"@) == Some(m.table_bytes()),
        named(m.streams(), "#-"@) is None,
        named(m.streams(), "#Strings"@) == Some(m.strings.data),
        named(m.streams(), "#US"@) == if m.user_strings.data.len() > 0 {
            Some(m.user_strings.data)
        } else {
            None
        },
        named(m.streams(), "#GUID"@) == if m.guids.data.len() > 0 {
            Some(m.guids.data)
        } else {
            None
        },
        named(m.streams(), "#Blob"@) == if m.blobs.data.len() > 1 {
            Some(m.blobs.data)
        } else {
            None
        },
        named(m.streams(), "#Pdb"@) == (match m.pdb {
            Some(p) => Some(p.payload()),
            None => None,
        }),
        m.streams().len() <= 6,
{
    builder_stream_by_name(m, "#~"@);
    builder_stream_by_name(m, "#-"@);
    builder_stream_by_name(m, "#Strings"@);
    builder_stream_by_name(m, "#US"@);
    builder_stream_by_name(m, "#GUID"@);
    builder_stream_by_name(m, "#Blob"@);
    builder_stream_by_name(m, "#Pdb"@);
    names_differ();
}

proof fn builder_stream_by_name(m: BuilderModel, name: Seq<char>)
    ensures
        named(m.streams(), name) == (if name == "#Pdb"@ && m.pdb is Some {
            Some(m.pdb->Some_0.payload())
        } else if name == "#Blob"@ && m.blobs.data.len() > 1 {
            Some(m.blobs.data)
        } else if name == "#GUID"@ && m.guids.data.len() > 0 {
            Some(m.guids.data)
        } else if name == "#US"@ && m.user_strings.data.len() > 0 {
            Some(m.user_strings.data)
        } else if name == "#Strings"@ {
            Some(m.strings.data)
        } else if name == "#~"@ {
            Some(m.table_bytes())
        } else {
            None
        }),
{
    let none = Seq::<(Seq<char>, Seq<u8>)>::empty();
    let first = seq![("#~"@, m.table_bytes()), ("#Strings"@, m.strings.data)];
    assert(first =~= none.push(("#~"@, m.table_bytes())).push(("#Strings"@, m.strings.data)));
    named_push(none, ("#~"@, m.table_bytes()), name);
    named_push(none.push(("#~"@, m.table_bytes())), ("#Strings"@, m.strings.data), name);
    let us = if m.user_strings.data.len() > 0 {
        seq![("#US"@, m.user_strings.data)]
    } else {
        none
    };
    let guid = if m.guids.data.len() > 0 {
        seq![("#GUID"@, m.guids.data)]
    } else {
        none
    };
    let blob = if m.blobs.data.len() > 1 {
        seq![("#Blob"@, m.blobs.data)]
    } else {
        none
    };
    let pdb = match m.pdb {
        Some(p) => seq![("#Pdb"@, p.payload())],
        None => none,
    };
    named_append(first, us, name);
    named_append(first + us, guid, name);
    named_append(first + us + guid, blob, name);
    named_append(first + us + guid + blob, pdb, name);
}

/// What the row counts of the written table stream read as: those of the
/// `#Pdb` heap, replaced by those of the tables that have rows.
pub open spec fn merged_counts(m: BuilderModel) -> Seq<u32> {
    Seq::new(
        0x38,
        |i: int|
            if m.rows[i].len() > 0 {
                m.counts()[i]
            } else {
                match m.pdb {
                    Some(p) => if token::is_table_number(i as u8) {
                        heap_laws::pair_count(p.table_counts, i)
                    } else {
                        0
                    },
                    None => 0,
                }
            },
    )
}

/// The layout that a reader finds.
pub open spec fn merged_shape(m: BuilderModel) -> TableShape {
    TableShape { valid: m.valid(), counts: merged_counts(m), heap_flags: m.heap_flags() }
}

proof fn counts_len(m: BuilderModel, i: int)
    requires
        0 <= i <= 0x38,
    ensures
        bytes::joined(m.count_parts().take(i)).len() == 4 * heaps::bits_below(m.valid(), i),
    decreases i,
{
    if i == 0 {
        assert(m.count_parts().take(0) =~= Seq::<Seq<u8>>::empty());
    } else {
        counts_len(m, i - 1);
        bytes::joined_step(m.count_parts(), i - 1);
    }
}

proof fn head_reads(m: BuilderModel)
    ensures
        m.table_head().len() == 24,
        m.table_head()[4] == 2,
        m.table_head()[6] == m.heap_flags(),
        bytes::holds_at(m.table_head(), 8, bytes::u64_le(m.valid())),
{
    let head = m.table_head();
    assert(head.subrange(8, 16) =~= bytes::u64_le(m.valid()));
}

proof fn mask_known(m: BuilderModel)
    requires
        m.rows_sound(),
    ensures
        tables::all_known(m.valid()),
{
    assert forall|k: int| 0 <= k < 64 && #[trigger] tables::bit(m.valid(), k) implies token::is_table_number(
        k as u8,
    ) by {
        builder::valid_bits(m.rows, 0x38, k);
        assert(m.rows[k].len() > 0);
    }
}

/// The table stream of a builder reads as its layout and its rows.
proof fn table_stream_reads(m: BuilderModel, pdb: Option<PdbView>)
    requires
        m.rows_sound(),
        match m.pdb {
            Some(p) => pdb is Some && pdb->Some_0.counts == heap_laws::pair_counts(p.table_counts),
            None => pdb is None,
        },
    ensures
        reader::parsed_tables(m.table_bytes(), pdb) == Ok::<TableShape, ErrorKind>(merged_shape(m)),
        m.table_bytes().skip((24 + 4 * heaps::bits_below(m.valid(), 0x38)) as int) == bytes::joined(
            m.row_tables(),
        ),
        m.table_bytes().len() >= 24 + 4 * heaps::bits_below(m.valid(), 0x38),
{
    let heap = m.table_bytes();
    let head = m.table_head();
    let counts = bytes::joined(m.count_parts());
    let rows = bytes::joined(m.row_tables());
    let valid = m.valid();
    head_reads(m);
    assert(heap =~= head + (counts + rows));
    bytes::holds_extended(head, counts + rows, 8, bytes::u64_le(valid));
    bytes::u64_round_trip(heap, 8, valid);
    counts_len(m, 0x38);
    assert(m.count_parts().take(0x38) =~= m.count_parts());
    mask_known(m);
    assert forall|i: int| 0 <= i < 0x38 implies reader::row_counts(heap, pdb)[i] == merged_counts(
        m,
    )[i] by {
        builder::valid_bits(m.rows, 0x38, i);
        if tables::bit(valid, i) {
            counts_len(m, i);
            bytes::joined_part(m.count_parts(), i);
            let at = 4 * heaps::bits_below(valid, i) as int;
            bytes::holds_shifted(head, counts, at, m.count_parts()[i]);
            bytes::holds_extended(head + counts, rows, 24 + at, m.count_parts()[i]);
            assert((head + counts) + rows =~= heap);
            bytes::u32_round_trip(heap, 24 + at, m.counts()[i]);
        }
    }
    assert(reader::row_counts(heap, pdb) =~= merged_counts(m));
    assert(heap.skip((24 + 4 * heaps::bits_below(valid, 0x38)) as int) =~= rows);
}

/// Every cell fits the width of its column.
pub open spec fn cells_fit(m: BuilderModel) -> bool {
    forall|t: TableIndex, r: int, c: int|
        #![trigger m.rows[t.number() as int][r], tables::schema(t)[c]]
        0 <= r < m.rows[t.number() as int].len() && 0 <= c < tables::schema(t).len() ==> fits(
            m.rows[t.number() as int][r][c],
            m.shape().width(tables::schema(t)[c]),
        )
}

/// Every cell of the row fits the width of its column.
pub open spec fn row_fits(m: BuilderModel, t: TableIndex, r: int) -> bool {
    forall|c: int|
        #![trigger tables::schema(t)[c]]
        0 <= c < tables::schema(t).len() ==> fits(
            m.rows[t.number() as int][r][c],
            m.shape().width(tables::schema(t)[c]),
        )
}

/// The value fits a cell of the width.
pub open spec fn fits(value: u64, width: nat) -> bool {
    if width == 1 {
        value < 0x100
    } else if width == 2 {
        value < 0x1_0000
    } else {
        value < 0x1_0000_0000
    }
}

proof fn cell_reads(data: Seq<u8>, at: int, value: u64, width: nat)
    requires
        bytes::holds_at(data, at, builder::cell_bytes(value, width)),
        fits(value, width),
    ensures
        reader::cell_value(data, at, width) == value,
{
    if width == 1 {
        assert(data.subrange(at, at + 1)[0] == data[at]);
    } else if width == 2 {
        bytes::u16_round_trip(data, at, (value % 0x1_0000) as u16);
    } else {
        bytes::u32_round_trip(data, at, (value % 0x1_0000_0000) as u32);
    }
}

proof fn row_offsets(shape: TableShape, t: TableIndex, row: Seq<u64>, c: int)
    requires
        0 <= c <= tables::schema(t).len(),
    ensures
        bytes::joined(builder::row_parts(shape, t, row).take(c)).len() == shape.column_offset(t, c),
    decreases c,
{
    let parts = builder::row_parts(shape, t, row);
    if c == 0 {
        assert(parts.take(0) =~= Seq::<Seq<u8>>::empty());
    } else {
        row_offsets(shape, t, row, c - 1);
        bytes::joined_step(parts, c - 1);
        let k = tables::schema(t)[c - 1];
        assert(shape.width(k) == 1 || shape.width(k) == 2 || shape.width(k) == 4);
        assert(parts[c - 1].len() == shape.width(k));
    }
}

proof fn row_len(shape: TableShape, t: TableIndex, row: Seq<u64>)
    ensures
        bytes::joined(builder::row_parts(shape, t, row)).len() == shape.row_width(t),
{
    let parts = builder::row_parts(shape, t, row);
    row_offsets(shape, t, row, parts.len() as int);
    assert(parts.take(parts.len() as int) =~= parts);
}

proof fn table_offsets(shape: TableShape, t: TableIndex, rows: Seq<Seq<u64>>, r: int)
    requires
        0 <= r <= rows.len(),
    ensures
        bytes::joined(builder::table_parts(shape, t, rows).take(r)).len() == r * shape.row_width(t),
    decreases r,
{
    let parts = builder::table_parts(shape, t, rows);
    if r == 0 {
        assert(parts.take(0) =~= Seq::<Seq<u8>>::empty());
    } else {
        table_offsets(shape, t, rows, r - 1);
        bytes::joined_step(parts, r - 1);
        row_len(shape, t, rows[r - 1]);
        let w = shape.row_width(t) as int;
        assert((r - 1) * w + w == r * w) by (nonlinear_arith);
    }
}

/// The rows of the tables stand where the layout says.
proof fn all_offsets(m: BuilderModel, i: int)
    requires
        m.rows_sound(),
        0 <= i <= 0x38,
        forall|k: int| 0 <= k < 0x38 ==> (#[trigger] m.rows[k]).len() <= 0xFFFF_FFFF,
    ensures
        bytes::joined(m.row_tables().take(i)).len() == m.shape().offset_of(i),
    decreases i,
{
    let parts = m.row_tables();
    if i == 0 {
        assert(parts.take(0) =~= Seq::<Seq<u8>>::empty());
    } else {
        all_offsets(m, i - 1);
        bytes::joined_step(parts, i - 1);
        builder::valid_bits(m.rows, 0x38, i - 1);
        if tables::bit(m.valid(), i - 1) {
            let t = tables::table_at(i - 1);
            let rows = m.rows[i - 1];
            table_offsets(m.shape(), t, rows, rows.len() as int);
            let tp = builder::table_parts(m.shape(), t, rows);
            assert(tp.take(rows.len() as int) =~= tp);
            let w = m.shape().row_width(t) as int;
            let n = rows.len() as int;
            assert(n * w == w * n) by (nonlinear_arith);
            assert(m.counts()[i - 1] == n);
        }
    }
}

/// A cell that was added stands in the table data where the layout says.
proof fn cell_stands(m: BuilderModel, t: TableIndex, r: int, c: int)
    requires
        m.rows_sound(),
        forall|k: int| 0 <= k < 0x38 ==> (#[trigger] m.rows[k]).len() <= 0xFFFF_FFFF,
        0 <= r < m.rows[t.number() as int].len(),
        0 <= c < tables::schema(t).len(),
    ensures
        bytes::holds_at(
            bytes::joined(m.row_tables()),
            m.shape().cell_offset(t, r + 1, c),
            builder::cell_bytes(
                m.rows[t.number() as int][r][c],
                m.shape().width(tables::schema(t)[c]),
            ),
        ),
{
    let shape = m.shape();
    let i = t.number() as int;
    let rows = m.rows[i];
    let tp = builder::table_parts(shape, t, rows);
    let rp = builder::row_parts(shape, t, rows[r]);
    tables::table_at_number(t);
    builder::valid_bits(m.rows, 0x38, i);
    all_offsets(m, i);
    table_offsets(shape, t, rows, r);
    row_offsets(shape, t, rows[r], c);
    bytes::joined_part(m.row_tables(), i);
    bytes::joined_part(tp, r);
    bytes::joined_part(rp, c);
    let whole = bytes::joined(m.row_tables());
    let a = shape.offset_of(i) as int;
    let b = r * shape.row_width(t);
    assert(m.row_tables()[i] == bytes::joined(tp));
    bytes::holds_within(whole, a, bytes::joined(tp), b, tp[r]);
    bytes::holds_within(whole, a + b, tp[r], shape.column_offset(t, c) as int, rp[c]);
    assert((r + 1 - 1) * shape.row_width(t) == b);
}

proof fn same_columns_width(a: TableShape, b: TableShape, kinds: Seq<ColumnKind>, n: nat)
    requires
        forall|k: ColumnKind| a.width(k) == b.width(k),
    ensures
        a.columns_width(kinds, n) == b.columns_width(kinds, n),
    decreases n,
{
    if n > 0 {
        same_columns_width(a, b, kinds, (n - 1) as nat);
        assert(a.width(kinds[n - 1]) == b.width(kinds[n - 1]));
    }
}

proof fn same_offsets(a: TableShape, b: TableShape, i: int)
    requires
        a.valid == b.valid,
        forall|k: ColumnKind| a.width(k) == b.width(k),
        forall|k: int| 0 <= k < 0x38 && #[trigger] a.has(k) ==> a.counts[k] == b.counts[k],
        i <= 0x38,
    ensures
        a.offset_of(i) == b.offset_of(i),
    decreases i,
{
    if i > 0 {
        same_offsets(a, b, i - 1);
        let t = tables::table_at(i - 1);
        same_columns_width(a, b, tables::schema(t), tables::schema(t).len());
        assert(a.has(i - 1) == b.has(i - 1));
    }
}

/// What the heaps of a written root read as.
pub open spec fn written_heaps(m: BuilderModel) -> HeapsView {
    HeapsView {
        strings: m.strings.data,
        user_strings: m.user_strings.data,
        blob: if m.blobs.data.len() > 1 {
            m.blobs.data
        } else {
            Seq::empty()
        },
        guid: m.guids.data,
        pdb: match m.pdb {
            Some(p) => heaps::parsed_pdb(p.payload()),
            None => None,
        },
    }
}

/// What a metadata reader finds in a written root.
pub open spec fn written_metadata(m: BuilderModel) -> MetadataView {
    MetadataView {
        version: root::version_read(m.version),
        heaps: written_heaps(m),
        shape: merged_shape(m),
        table_data: bytes::joined(m.row_tables()),
    }
}

/// The `#Pdb` heap of the builder, where it has one, is a full id and names
/// each table once.
pub open spec fn pdb_regular(m: BuilderModel) -> bool {
    match m.pdb {
        Some(p) => p.id.len() == 20 && heap_laws::strictly_ascending(p.table_counts),
        None => true,
    }
}

/// A metadata root that a builder wrote is one that a reader accepts, with
/// the heaps and the table layout of the builder, and with its version up to
/// the first zero byte. This holds as long as the root fits 32 bits.
pub proof fn built_root_reads_back(m: BuilderModel)
    requires
        m.sound(),
        pdb_regular(m),
        m.built().len() <= 0xFFFF_FFFF,
    ensures
        reader::parsed_metadata(m.built()) == Ok::<MetadataView, ErrorKind>(written_metadata(m)),
{
    let streams = m.streams();
    let data = m.built();
    let views = root::written_streams(m.version, streams);
    builder_streams_by_name(m);
    names_zero_free();
    assert forall|j: int| 0 <= j < streams.len() implies bytes::zero_free(
        text::utf8(#[trigger] streams[j].0),
    ) by {
        stream_names(m, j);
    }
    root::root_round_trip(m.version, streams);
    let n = streams.len() as int;
    assert(views.take(n) =~= views);
    assert(streams.take(n) =~= streams);
    last_stream_is_named(data, streams, views, n, "#Strings"@);
    last_stream_is_named(data, streams, views, n, "#US"@);
    last_stream_is_named(data, streams, views, n, "#GUID"@);
    last_stream_is_named(data, streams, views, n, "#Blob"@);
    last_stream_is_named(data, streams, views, n, "#Pdb"@);
    let pdb = match m.pdb {
        Some(p) => heaps::parsed_pdb(p.payload()),
        None => None,
    };
    if m.pdb is Some {
        heap_laws::pdb_round_trip(m.pdb->Some_0);
    }
    assert(reader::streams_sound(data, views)) by {
        assert forall|k: int| #![trigger views[k]] 0 <= k < views.len() implies root::stream_payload(
            data,
            views[k],
        ) is Some && (views[k].name == "#Pdb"@ ==> heaps::parsed_pdb(
            root::stream_payload(data, views[k])->Some_0,
        ) is Some) by {
            assert(streams[k] == streams[k]);
            stream_names(m, k);
        }
    }
    assert(m.user_strings.data.len() == 0 ==> m.user_strings.data =~= Seq::<u8>::empty());
    assert(m.guids.data.len() == 0 ==> m.guids.data =~= Seq::<u8>::empty());
    assert(reader::heaps_of(data, views) =~= written_heaps(m));
    table_stream_reads(m, pdb);
}

proof fn stream_names(m: BuilderModel, j: int)
    requires
        0 <= j < m.streams().len(),
    ensures
        ({
            let name = m.streams()[j].0;
            name == "#~"@ || name == "#Strings"@ || name == "#US"@ || name == "#GUID"@ || name
                == "#Blob"@ || name == "#Pdb"@
        }),
        m.streams()[j].0 == "#Pdb"@ ==> m.pdb is Some && m.streams()[j].1
            == m.pdb->Some_0.payload(),
{
    names_differ();
}

/// Every cell that was added to a builder reads back from the root that it
/// wrote, as long as it fits its column and the `#Pdb` heap does not claim so
/// many rows of other tables that columns would be read wider than they were
/// written.
pub proof fn built_cells_read_back(m: BuilderModel, t: TableIndex, rid: u32, col: int)
    requires
        m.sound(),
        pdb_regular(m),
        m.built().len() <= 0xFFFF_FFFF,
        forall|k: ColumnKind| m.shape().width(k) == merged_shape(m).width(k),
        1 <= rid <= m.rows[t.number() as int].len(),
        0 <= col < tables::schema(t).len(),
        fits(
            m.rows[t.number() as int][rid - 1][col],
            m.shape().width(tables::schema(t)[col]),
        ),
    ensures
        reader::parsed_metadata(m.built()) is Ok,
        reader::parsed_metadata(m.built())->Ok_0.cell(t, rid, col) == Ok::<u64, ErrorKind>(
            m.rows[t.number() as int][rid - 1][col],
        ),
        reader::parsed_metadata(m.built())->Ok_0.rows(t) == m.rows[t.number() as int].len(),
{
    built_root_reads_back(m);
    rows_bounded(m);
    let shape = m.shape();
    let merged = merged_shape(m);
    let i = t.number() as int;
    cell_stands(m, t, rid - 1, col);
    builder::valid_bits(m.rows, 0x38, i);
    assert forall|k: int| 0 <= k < 0x38 && #[trigger] shape.has(k) implies shape.counts[k]
        == merged.counts[k] by {
        builder::valid_bits(m.rows, 0x38, k);
    }
    same_offsets(shape, merged, i);
    same_columns_width(shape, merged, tables::schema(t), tables::schema(t).len());
    same_columns_width(shape, merged, tables::schema(t), col as nat);
    let kind = tables::schema(t)[col];
    assert(shape.width(kind) == merged.width(kind));
    let value = m.rows[i][rid - 1][col];
    let data = bytes::joined(m.row_tables());
    let at = shape.cell_offset(t, rid as int, col);
    cell_reads(data, at, value, shape.width(kind));
    assert(builder::cell_bytes(value, shape.width(kind)).len() == shape.width(kind));
}

/// The cells of a row from a column on read back.
proof fn row_from_reads(f: BuilderModel, t: TableIndex, rid: u32, col: int)
    requires
        rows_readable(f),
        row_fits(f, t, rid - 1),
        1 <= rid <= f.rows[t.number() as int].len(),
        0 <= col <= tables::schema(t).len(),
    ensures
        written_metadata(f).row_from(t, rid, col) == Ok::<Seq<u64>, ErrorKind>(
            f.rows[t.number() as int][rid - 1].skip(col),
        ),
    decreases tables::schema(t).len() - col,
{
    let md = written_metadata(f);
    let row = f.rows[t.number() as int][rid - 1];
    assert(row.len() == tables::schema(t).len());
    builder::valid_bits(f.rows, 0x38, t.number() as int);
    assert(md.shape.has(t.number() as int));
    if col < tables::schema(t).len() {
        built_root_reads_back(f);
        built_cells_read_back(f, t, rid, col);
        row_from_reads(f, t, rid, col + 1);
        assert(seq![row[col]] + row.skip(col + 1) =~= row.skip(col));
    } else {
        assert(row.skip(col) =~= Seq::<u64>::empty());
    }
}

/// Everything that reading a row of a written file needs, besides that its
/// cells fit.
pub open spec fn rows_readable(f: BuilderModel) -> bool {
    &&& f.sound()
    &&& pdb_regular(f)
    &&& f.built().len() <= 0xFFFF_FFFF
    &&& merged_shape(f) == f.shape()
}

pub(crate) proof fn row_reads(f: BuilderModel, t: TableIndex, rid: u32)
    requires
        rows_readable(f),
        row_fits(f, t, rid - 1),
        1 <= rid <= f.rows[t.number() as int].len(),
    ensures
        ({
            let md = written_metadata(f);
            let row = f.rows[t.number() as int][rid - 1];
            &&& md.row(t, rid) == Ok::<Seq<u64>, ErrorKind>(row)
            &&& row.len() == tables::schema(t).len()
            &&& md.rows(t) == f.rows[t.number() as int].len()
            &&& forall|col: int|
                0 <= col < row.len() ==> #[trigger] md.cell(t, rid, col) == Ok::<u64, ErrorKind>(
                    row[col],
                )
        }),
{
    let md = written_metadata(f);
    let row = f.rows[t.number() as int][rid - 1];
    row_from_reads(f, t, rid, 0);
    assert(row.skip(0) =~= row);
    assert(row.len() == tables::schema(t).len());
    built_root_reads_back(f);
    assert forall|col: int| 0 <= col < row.len() implies #[trigger] md.cell(t, rid, col) == Ok::<
        u64,
        ErrorKind,
    >(row[col]) by {
        built_cells_read_back(f, t, rid, col);
    }
    built_cells_read_back(f, t, rid, 0);
}

/// How many rows a reader finds.
pub(crate) proof fn rows_found(f: BuilderModel, t: TableIndex)
    requires
        rows_readable(f),
    ensures
        written_metadata(f).rows(t) == f.rows[t.number() as int].len(),
{
    let i = t.number() as int;
    builder::valid_bits(f.rows, 0x38, i);
    rows_bounded(f);
    assert(f.shape().counts[i] == bytes::low32(f.rows[i].len() as int));
    assert(f.rows[i].len() < 0xFFFF_FFFF);
}

/// A stream is a part of the root.
proof fn stream_fits(m: BuilderModel, j: int)
    requires
        0 <= j < m.streams().len(),
    ensures
        m.streams()[j].1.len() <= m.built().len(),
{
    let parts = root::root_payloads(m.streams());
    let all = bytes::joined(parts);
    reveal(root::root_bytes);
    let at = bytes::joined(parts.take(j)).len() as int;
    bytes::joined_part(parts, j);
    assert(parts[j] == root::aligned(m.streams()[j].1));
    assert(at + parts[j].len() <= all.len());
    assert(m.built().len() >= all.len());
}

/// Every row takes a byte of the root or more.
pub(crate) proof fn rows_bounded(m: BuilderModel)
    requires
        m.rows_sound(),
        m.built().len() <= 0xFFFF_FFFF,
    ensures
        forall|k: int| 0 <= k < 0x38 ==> (#[trigger] m.rows[k]).len() < 0xFFFF_FFFF,
{
    stream_fits(m, 0);
    head_reads(m);
    assert(m.streams()[0].1 == m.table_bytes());
    assert forall|k: int| 0 <= k < 0x38 implies (#[trigger] m.rows[k]).len() < 0xFFFF_FFFF by {
        if m.rows[k].len() > 0 {
            let shape = m.shape();
            let t = tables::table_at(k);
            let n = m.rows[k].len() as int;
            let parts = builder::table_parts(shape, t, m.rows[k]);
            let w = shape.row_width(t) as int;
            table_offsets(shape, t, m.rows[k], n);
            assert(parts.take(n) =~= parts);
            bytes::joined_part(m.row_tables(), k);
            builder::valid_bits(m.rows, 0x38, k);
            assert(m.row_tables()[k] == bytes::joined(parts));
            tables::row_width_bounded(shape, t);
            assert(n * w >= n) by (nonlinear_arith)
                requires
                    w >= 1,
                    n >= 0,
            ;
        }
    }
}

/// The heaps are parts of the root.
pub(crate) proof fn heaps_fit(m: BuilderModel)
    ensures
        m.strings.data.len() <= m.built().len(),
        m.user_strings.data.len() <= m.built().len(),
        m.blobs.data.len() <= 1 || m.blobs.data.len() <= m.built().len(),
        m.guids.data.len() <= m.built().len(),
{
    let s = m.streams();
    let us: int = if m.user_strings.data.len() > 0 {
        1
    } else {
        0
    };
    let guid: int = if m.guids.data.len() > 0 {
        1
    } else {
        0
    };
    assert(s[1].1 == m.strings.data);
    stream_fits(m, 1);
    if us == 1 {
        assert(s[2].1 == m.user_strings.data);
        stream_fits(m, 2);
    }
    if guid == 1 {
        assert(s[2 + us].1 == m.guids.data);
        stream_fits(m, 2 + us);
    }
    if m.blobs.data.len() > 1 {
        assert(s[2 + us + guid].1 == m.blobs.data);
        stream_fits(m, 2 + us + guid);
    }
}

} // verus!
