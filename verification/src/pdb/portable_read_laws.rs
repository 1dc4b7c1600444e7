//! A written portable PDB gives back what the builder held.

use vstd::prelude::*;

use crate::bytes;
use crate::error::ErrorKind;
use crate::metadata::builder;
use crate::metadata::builder::BuilderModel;
use crate::metadata::builder_laws;
use crate::metadata::heap_laws;
use crate::metadata::heaps;
use crate::metadata::reader;
use crate::metadata::reader::MetadataView;
use crate::metadata::root;
use crate::metadata::tables;
use crate::metadata::tables::ColumnKind;
use crate::pdb::document::DocumentView;
use crate::pdb::portable_laws;
use crate::pdb::portable_laws::PortableContent;
use crate::pdb::portable_reader;
use crate::pdb::portable_reader::{ConstantView, ScopeView, VariableView};
use crate::pdb::portable_writer;
use crate::pdb::portable_writer::{PortableModel, SlotModel};
use crate::pdb::sequence_points;
use crate::pdb::sequence_points::SequencePoint;
use crate::text;
use crate::token;
use crate::token::{CodedGroup, TableIndex};

verus! {

broadcast use {crate::bytes::widths, crate::io::compressed_widths};

/// Rows with a cell for each column keep a builder sound.
proof fn rows_keep_sound(md: BuilderModel, t: TableIndex, rows: Seq<Seq<u64>>)
    requires
        md.sound(),
        forall|k: int|
            0 <= k < rows.len() ==> (#[trigger] rows[k]).len() == tables::schema(t).len(),
    ensures
        portable_writer::with_rows(md, t, rows).sound(),
{
    let after = portable_writer::with_rows(md, t, rows);
    let i = t.number() as int;
    assert forall|k: int| 0 <= k < 0x38 && #[trigger] after.rows[k].len() > 0 implies token::is_table_number(
        k as u8,
    ) by {
        if k != i {
            assert(md.rows[k].len() > 0);
        }
    }
    assert forall|u: TableIndex, r: int|
        0 <= r < after.rows[u.number() as int].len() implies #[trigger] after.rows[u.number() as int][r].len()
        == tables::schema(u).len() by {
        if u.number() == t.number() {
            token::table_number_injective(u, t);
            if r < md.rows[i].len() {
                assert(md.rows[u.number() as int][r].len() == tables::schema(u).len());
            } else {
                assert(after.rows[i][r] == rows[r - md.rows[i].len()]);
            }
        } else {
            assert(md.rows[u.number() as int][r].len() == tables::schema(u).len());
        }
    }
}

proof fn row_keeps_sound(md: BuilderModel, t: TableIndex, cells: Seq<u64>)
    requires
        md.sound(),
        cells.len() == tables::schema(t).len(),
    ensures
        md.with_row(t, cells).sound(),
{
    rows_keep_sound(md, t, seq![cells]);
    let i = t.number() as int;
    assert(md.rows[i] + seq![cells] =~= md.rows[i].push(cells));
}

/// What a method's row refers to: its document, and the blob of its points
/// where it has any.
spec fn method_stored(data: Seq<u8>, row: Seq<u64>, slot: Option<SlotModel>) -> bool {
    row.len() == 2 && match slot {
        None => row[0] == 0 && row[1] == 0,
        Some(s) => row[0] == s.document && match s.points {
            Some(points) if points.len() > 0 => portable_laws::blob_stored(
                data,
                row[1],
                sequence_points::encoded_points(s.signature, points),
            ),
            _ => row[1] == 0,
        },
    }
}

proof fn method_kept(new: Seq<u8>, base: Seq<u8>, row: Seq<u64>, slot: Option<SlotModel>)
    requires
        portable_laws::extends(new, base),
        method_stored(base, row, slot),
    ensures
        method_stored(new, row, slot),
{
    if let Some(s) = slot {
        if let Some(points) = s.points {
            if points.len() > 0 {
                portable_laws::blob_kept(
                    new,
                    base,
                    row[1],
                    sequence_points::encoded_points(s.signature, points),
                );
            }
        }
    }
}

/// What adding the row of a method does.
proof fn method_added(md: BuilderModel, slot: Option<SlotModel>)
    requires
        md.sound(),
        portable_laws::heaps_stored(md),
        portable_writer::with_method(md, slot).blobs.data.len() <= 0xFFFF_FFFF,
    ensures
        ({
            let after = portable_writer::with_method(md, slot);
            let i = TableIndex::MethodDebugInformation.number() as int;
            &&& after.sound()
            &&& portable_laws::heaps_stored(after)
            &&& portable_laws::heaps_extend(after, md)
            &&& after == (BuilderModel { blobs: after.blobs, rows: after.rows, ..md })
            &&& after.strings == md.strings
            &&& after.rows == md.rows.update(i, md.rows[i].push(after.rows[i].last()))
            &&& method_stored(after.blobs.data, after.rows[i].last(), slot)
        }),
{
    let t = TableIndex::MethodDebugInformation;
    portable_laws::heaps_extend_self(md);
    let after = portable_writer::with_method(md, slot);
    match slot {
        Some(s) => match s.points {
            Some(points) if points.len() > 0 => {
                let blob = sequence_points::encoded_points(s.signature, points);
                portable_laws::blob_added(md.blobs, blob);
                let (blobs, index) = md.blobs.with_blob(blob);
                let mid = BuilderModel { blobs, ..md };
                row_keeps_sound(mid, t, seq![s.document as u64, index as u64]);
            },
            _ => {
                row_keeps_sound(md, t, seq![s.document as u64, 0u64]);
            },
        },
        None => {
            row_keeps_sound(md, t, seq![0u64, 0u64]);
        },
    }
}

/// What adding the row of a method does to the tables.
proof fn method_shaped(md: BuilderModel, slot: Option<SlotModel>)
    requires
        md.sound(),
    ensures
        ({
            let after = portable_writer::with_method(md, slot);
            let i = TableIndex::MethodDebugInformation.number() as int;
            &&& after.sound()
            &&& after == (BuilderModel { blobs: after.blobs, rows: after.rows, ..md })
            &&& md.blobs.data.len() <= after.blobs.data.len()
            &&& after.rows == md.rows.update(i, md.rows[i].push(after.rows[i].last()))
        }),
{
    let t = TableIndex::MethodDebugInformation;
    match slot {
        Some(s) => match s.points {
            Some(points) if points.len() > 0 => {
                let blob = sequence_points::encoded_points(s.signature, points);
                let (blobs, index) = md.blobs.with_blob(blob);
                let mid = BuilderModel { blobs, ..md };
                row_keeps_sound(mid, t, seq![s.document as u64, index as u64]);
            },
            _ => {
                row_keeps_sound(md, t, seq![s.document as u64, 0u64]);
            },
        },
        None => {
            row_keeps_sound(md, t, seq![0u64, 0u64]);
        },
    }
}

/// What adding the rows of methods does to the tables.
proof fn methods_shaped(md: BuilderModel, slots: Seq<Option<SlotModel>>, n: nat)
    requires
        md.sound(),
        n <= slots.len(),
        md.rows[TableIndex::MethodDebugInformation.number() as int].len() == 0,
    ensures
        ({
            let after = portable_writer::with_methods(md, slots, n);
            let i = TableIndex::MethodDebugInformation.number() as int;
            &&& after.sound()
            &&& after == (BuilderModel { blobs: after.blobs, rows: after.rows, ..md })
            &&& md.blobs.data.len() <= after.blobs.data.len()
            &&& after.rows == md.rows.update(i, after.rows[i])
            &&& after.rows[i].len() == n
        }),
    decreases n,
{
    let i = TableIndex::MethodDebugInformation.number() as int;
    if n == 0 {
        assert(md.rows.update(i, md.rows[i]) =~= md.rows);
    } else {
        let before = portable_writer::with_methods(md, slots, (n - 1) as nat);
        let after = portable_writer::with_methods(md, slots, n);
        methods_shaped(md, slots, (n - 1) as nat);
        method_shaped(before, slots[n - 1]);
        assert(after.rows =~= md.rows.update(i, after.rows[i]));
    }
}

/// What adding the rows of methods does.
proof fn methods_added(md: BuilderModel, slots: Seq<Option<SlotModel>>, n: nat)
    requires
        md.sound(),
        portable_laws::heaps_stored(md),
        n <= slots.len(),
        md.rows[TableIndex::MethodDebugInformation.number() as int].len() == 0,
        portable_writer::with_methods(md, slots, n).blobs.data.len() <= 0xFFFF_FFFF,
    ensures
        ({
            let after = portable_writer::with_methods(md, slots, n);
            let i = TableIndex::MethodDebugInformation.number() as int;
            &&& after.sound()
            &&& portable_laws::heaps_stored(after)
            &&& portable_laws::heaps_extend(after, md)
            &&& after == (BuilderModel { blobs: after.blobs, rows: after.rows, ..md })
            &&& after.strings == md.strings
            &&& after.rows == md.rows.update(i, after.rows[i])
            &&& after.rows[i].len() == n
            &&& forall|k: int|
                #![trigger after.rows[i][k]]
                0 <= k < n ==> method_stored(after.blobs.data, after.rows[i][k], slots[k])
        }),
    decreases n,
{
    let i = TableIndex::MethodDebugInformation.number() as int;
    if n == 0 {
        portable_laws::heaps_extend_self(md);
        assert(md.rows.update(i, md.rows[i]) =~= md.rows);
    } else {
        let before = portable_writer::with_methods(md, slots, (n - 1) as nat);
        let after = portable_writer::with_methods(md, slots, n);
        method_grows(before, slots[n - 1]);
        methods_added(md, slots, (n - 1) as nat);
        method_added(before, slots[n - 1]);
        portable_laws::extends_trans(after.strings.data, before.strings.data, md.strings.data);
        portable_laws::extends_trans(after.blobs.data, before.blobs.data, md.blobs.data);
        portable_laws::extends_trans(after.guids.data, before.guids.data, md.guids.data);
        assert(after.rows =~= md.rows.update(i, after.rows[i]));
        assert forall|k: int| #![trigger after.rows[i][k]] 0 <= k < n implies method_stored(
            after.blobs.data,
            after.rows[i][k],
            slots[k],
        ) by {
            if k < n - 1 {
                assert(after.rows[i][k] == before.rows[i][k]);
                method_kept(after.blobs.data, before.blobs.data, before.rows[i][k], slots[k]);
            }
        }
    }
}

proof fn method_grows(md: BuilderModel, slot: Option<SlotModel>)
    ensures
        md.blobs.data.len() <= portable_writer::with_method(md, slot).blobs.data.len(),
{
}

/// The tables with rows stand in order.
proof fn populated_ascends(md: BuilderModel, n: nat)
    requires
        n <= 0x38,
    ensures
        heap_laws::strictly_ascending(portable_writer::populated(md, n)),
        forall|k: int|
            0 <= k < portable_writer::populated(md, n).len() ==> (
            #[trigger] portable_writer::populated(md, n)[k]).0 < n,
    decreases n,
{
    if n > 0 {
        populated_ascends(md, (n - 1) as nat);
    }
}

/// How many rows of a table are recorded.
proof fn populated_counts(md: BuilderModel, n: nat, i: int)
    requires
        n <= 0x38,
        0 <= i < 0x38,
    ensures
        heap_laws::pair_count(portable_writer::populated(md, n), i) == if i < n
            && token::is_table_number(i as u8) {
            md.counts()[i]
        } else {
            0
        },
    decreases n,
{
    if n > 0 {
        populated_counts(md, (n - 1) as nat, i);
        let front = portable_writer::populated(md, (n - 1) as nat);
        if token::is_table_number((n - 1) as u8) && md.counts()[n - 1] > 0 {
            assert(front.push(((n - 1) as u8, md.counts()[n - 1])).drop_last() =~= front);
        }
    }
}

/// Sorting leaves what is in order as it is.
proof fn sorting_sorted(s: Seq<(u8, u32)>)
    requires
        heap_laws::strictly_ascending(s),
    ensures
        builder::sorted_by_table(s) == s,
    decreases s.len(),
{
    if s.len() > 0 {
        let front = s.drop_last();
        assert(heap_laws::strictly_ascending(front)) by {
            assert forall|k: int| 0 <= k < front.len() implies #[trigger] front[k].0 < 0x38 by {
                assert(s[k].0 < 0x38);
            }
        }
        sorting_sorted(front);
        assert(s =~= front.push(s.last()));
    } else {
        assert(s =~= Seq::<(u8, u32)>::empty());
    }
}

/// The metadata with the module row.
proof fn module_shaped(m: PortableModel)
    requires
        portable_laws::shaped(m),
    ensures
        ({
            let after = m.with_module();
            let i = TableIndex::Module.number() as int;
            &&& after.sound()
            &&& after == (BuilderModel { guids: after.guids, rows: after.rows, ..m.metadata })
            &&& m.metadata.guids.data.len() <= after.guids.data.len()
            &&& after.rows == m.metadata.rows.update(i, after.rows[i])
            &&& after.rows[i].len() == 1
        }),
{
    let g = match m.module_guid {
        Some(g) => g,
        None => bytes::zero_bytes(16),
    };
    let (guids, index) = m.metadata.guids.with_guid(g);
    assert(m.metadata.rows[0].len() == 0);
    row_keeps_sound(
        BuilderModel { guids, ..m.metadata },
        TableIndex::Module,
        seq![0u64, 0u64, index as u64, 0u64, 0u64],
    );
}

/// The heaps with the module row.
proof fn module_added(m: PortableModel, c: PortableContent)
    requires
        portable_laws::stored(m, c),
        m.module_guid matches Some(g) ==> g.len() == 16,
        m.with_module().guids.data.len() <= 0xFFFF_FFFF,
    ensures
        portable_laws::heaps_stored(m.with_module()),
        portable_laws::heaps_extend(m.with_module(), m.metadata),
{
    let g = match m.module_guid {
        Some(g) => g,
        None => bytes::zero_bytes(16),
    };
    portable_laws::heaps_extend_self(m.metadata);
    portable_laws::guid_added(m.metadata.guids, g);
    assert(m.metadata.rows[0].len() == 0);
}

/// The ids of the builder have their lengths, and its file fits 32 bits.
pub open spec fn plain_portable(m: PortableModel) -> bool {
    &&& m.pdb_id.len() == 20
    &&& m.module_guid matches Some(g) ==> g.len() == 16
    &&& m.finished().built().len() <= 0xFFFF_FFFF
}

/// The tables of the finished metadata.
pub(crate) proof fn finished_shape(m: PortableModel)
    requires
        portable_laws::shaped(m),
    ensures
        ({
            let f = m.finished();
            &&& f.sound()
            &&& f.strings == m.metadata.strings
            &&& f.version == m.metadata.version
            &&& m.metadata.blobs.data.len() <= f.blobs.data.len()
            &&& m.metadata.guids.data.len() <= f.guids.data.len()
            &&& f.rows[TableIndex::Document.number() as int] == m.document_rows
            &&& f.rows[TableIndex::LocalVariable.number() as int] == m.variable_rows
            &&& f.rows[TableIndex::LocalConstant.number() as int] == m.constant_rows
            &&& f.rows[TableIndex::LocalScope.number() as int] == m.scope_rows
            &&& f.rows[TableIndex::ImportScope.number() as int] == m.import_rows
            &&& f.rows[TableIndex::CustomDebugInformation.number() as int] == m.custom_rows
            &&& f.rows[TableIndex::Module.number() as int].len() == 1
            &&& f.rows[TableIndex::MethodDebugInformation.number() as int].len() == m.slots.len()
            &&& f.rows[TableIndex::MethodDef.number() as int].len() == 0
        }),
{
    let m0 = m.with_module();
    let m1 = portable_writer::with_methods(m0, m.slots, m.slots.len());
    module_shaped(m);
    assert(m0.rows[TableIndex::MethodDebugInformation.number() as int]
        == m.metadata.rows[TableIndex::MethodDebugInformation.number() as int]);
    methods_shaped(m0, m.slots, m.slots.len());
    rows_are(m, m1);
    let f = m.finished();
    assert forall|k: int|
        0 <= k < f.pdb->Some_0.table_counts.len() implies #[trigger] f.pdb->Some_0.table_counts[k].0
        < 64 by {
        populated_ascends(m.with_tables(), 0x38);
        sorting_sorted(portable_writer::populated(m.with_tables(), 0x38));
    }
}

/// What the heaps of the finished metadata hold.
proof fn finished_holds(m: PortableModel, c: PortableContent)
    requires
        portable_laws::stored(m, c),
        plain_portable(m),
    ensures
        ({
            let f = m.finished();
            let i = TableIndex::MethodDebugInformation.number() as int;
            &&& portable_laws::heaps_extend(f, m.metadata)
            &&& f.blobs.data.len() <= 0xFFFF_FFFF
            &&& f.guids.data.len() <= 0xFFFF_FFFF
            &&& forall|k: int|
                #![trigger f.rows[i][k]]
                0 <= k < m.slots.len() ==> method_stored(f.blobs.data, f.rows[i][k], m.slots[k])
        }),
{
    let f = m.finished();
    let m0 = m.with_module();
    let m1 = portable_writer::with_methods(m0, m.slots, m.slots.len());
    portable_laws::stored_is_shaped(m, c);
    finished_shape(m);
    module_shaped(m);
    builder_laws::heaps_fit(f);
    assert(m0.rows[TableIndex::MethodDebugInformation.number() as int]
        == m.metadata.rows[TableIndex::MethodDebugInformation.number() as int]);
    methods_shaped(m0, m.slots, m.slots.len());
    rows_are(m, m1);
    module_added(m, c);
    methods_added(m0, m.slots, m.slots.len());
    portable_laws::extends_trans(m1.strings.data, m0.strings.data, m.metadata.strings.data);
    portable_laws::extends_trans(m1.blobs.data, m0.blobs.data, m.metadata.blobs.data);
    portable_laws::extends_trans(m1.guids.data, m0.guids.data, m.metadata.guids.data);
}

/// The rows that are added behind those of the methods.
proof fn rows_are(m: PortableModel, m1: BuilderModel)
    requires
        portable_laws::shaped(m),
        m1 == portable_writer::with_methods(m.with_module(), m.slots, m.slots.len()),
        m1.sound(),
        forall|i: int|
            0 <= i < 0x38 && i != TableIndex::Module.number() && i
                != TableIndex::MethodDebugInformation.number() ==> (#[trigger] m1.rows[i]).len()
                == 0,
    ensures
        ({
            let f = m.with_tables();
            &&& f.sound()
            &&& f == (BuilderModel { rows: f.rows, ..m1 })
            &&& f.rows[TableIndex::Document.number() as int] == m.document_rows
            &&& f.rows[TableIndex::LocalVariable.number() as int] == m.variable_rows
            &&& f.rows[TableIndex::LocalConstant.number() as int] == m.constant_rows
            &&& f.rows[TableIndex::LocalScope.number() as int] == m.scope_rows
            &&& f.rows[TableIndex::ImportScope.number() as int] == m.import_rows
            &&& f.rows[TableIndex::CustomDebugInformation.number() as int] == m.custom_rows
            &&& f.rows[TableIndex::Module.number() as int]
                == m1.rows[TableIndex::Module.number() as int]
            &&& f.rows[TableIndex::MethodDebugInformation.number() as int]
                == m1.rows[TableIndex::MethodDebugInformation.number() as int]
            &&& f.rows[TableIndex::MethodDef.number() as int]
                == m1.rows[TableIndex::MethodDef.number() as int]
        }),
{
    let m2 = portable_writer::with_rows(m1, TableIndex::Document, m.document_rows);
    let m3 = portable_writer::with_rows(m2, TableIndex::ImportScope, m.import_rows);
    let m4 = portable_writer::with_rows(m3, TableIndex::LocalVariable, m.variable_rows);
    let m5 = portable_writer::with_rows(m4, TableIndex::LocalConstant, m.constant_rows);
    let m6 = portable_writer::with_rows(m5, TableIndex::LocalScope, m.scope_rows);
    rows_keep_sound(m1, TableIndex::Document, m.document_rows);
    rows_keep_sound(m2, TableIndex::ImportScope, m.import_rows);
    rows_keep_sound(m3, TableIndex::LocalVariable, m.variable_rows);
    rows_keep_sound(m4, TableIndex::LocalConstant, m.constant_rows);
    rows_keep_sound(m5, TableIndex::LocalScope, m.scope_rows);
    rows_keep_sound(m6, TableIndex::CustomDebugInformation, m.custom_rows);
    let none = Seq::<Seq<u64>>::empty();
    assert(m1.rows[TableIndex::Document.number() as int] =~= none);
    assert(none + m.document_rows =~= m.document_rows);
    assert(m3.rows[TableIndex::LocalVariable.number() as int] =~= none);
    assert(none + m.variable_rows =~= m.variable_rows);
    assert(m4.rows[TableIndex::LocalConstant.number() as int] =~= none);
    assert(none + m.constant_rows =~= m.constant_rows);
    assert(m5.rows[TableIndex::LocalScope.number() as int] =~= none);
    assert(none + m.scope_rows =~= m.scope_rows);
    assert(m2.rows[TableIndex::ImportScope.number() as int] =~= none);
    assert(none + m.import_rows =~= m.import_rows);
    assert(m6.rows[TableIndex::CustomDebugInformation.number() as int] =~= none);
    assert(none + m.custom_rows =~= m.custom_rows);
}

/// The layout that a reader finds is the one that the rows were written with.
proof fn same_layout(m: PortableModel)
    requires
        m.with_tables().rows.len() == 0x38,
        m.pdb_id.len() == 20,
    ensures
        builder_laws::merged_shape(m.finished()) == m.finished().shape(),
        builder_laws::pdb_regular(m.finished()),
{
    let f = m.finished();
    let t = m.with_tables();
    populated_ascends(t, 0x38);
    let pairs = portable_writer::populated(t, 0x38);
    sorting_sorted(pairs);
    assert forall|i: int| 0 <= i < 0x38 implies #[trigger] builder_laws::merged_counts(f)[i]
        == f.counts()[i] by {
        populated_counts(t, 0x38, i);
        assert(t.counts()[i] == f.counts()[i]);
    }
    assert(builder_laws::merged_counts(f) =~= f.counts());
}

proof fn file_readable(m: PortableModel)
    requires
        portable_laws::shaped(m),
        plain_portable(m),
    ensures
        builder_laws::rows_readable(m.finished()),
        portable_reader::parsed_portable(m.finished().built()) == Ok::<MetadataView, ErrorKind>(
            builder_laws::written_metadata(m.finished()),
        ),
        heaps::parsed_pdb(m.finished().pdb->Some_0.payload()) matches Some(p) && p.id == m.pdb_id
            && p.entry_point == m.entry_point.0,
{
    let f = m.finished();
    finished_shape(m);
    same_layout(m);
    builder_laws::built_root_reads_back(f);
    heap_laws::pdb_round_trip(f.pdb->Some_0);
}

/// The blob heap that a reader finds holds what the builder's does.
proof fn blobs_found(f: BuilderModel, index: u64, b: Seq<u8>)
    requires
        f.blobs.data.len() <= 0xFFFF_FFFF,
        portable_laws::blob_stored(f.blobs.data, index, b),
        b.len() < 0x4000_0000,
    ensures
        heaps::blob_at(
            builder_laws::written_heaps(f).blob,
            portable_reader::index_of(index),
        ) == Some(b),
        b.len() > 0 ==> f.blobs.data.len() > 1,
{
    portable_laws::blob_read(f.blobs.data, index, b);
    if b.len() == 0 {
        assert(b =~= Seq::<u8>::empty());
    }
}

/// The columns of indexes into a heap are as wide as the heap needs.
proof fn index_widths(f: BuilderModel)
    ensures
        f.shape().width(ColumnKind::StringIdx) == (if f.strings.data.len() > 0xFFFF {
            4nat
        } else {
            2
        }),
        f.shape().width(ColumnKind::GuidIdx) == (if f.guids.data.len() > 0xFFFF {
            4nat
        } else {
            2
        }),
        f.shape().width(ColumnKind::BlobIdx) == (if f.blobs.data.len() > 0xFFFF {
            4nat
        } else {
            2
        }),
{
    let b = f.heap_flags();
    assert((b & 0x1u8 != 0) == (b % 2 == 1) && (b & 0x2u8 != 0) == (b / 2 % 2 == 1) && (b & 0x4u8
        != 0) == (b / 4 % 2 == 1)) by (bit_vector);
}

/// The index of a blob fits its column.
proof fn blob_index_fits(f: BuilderModel, index: u64, b: Seq<u8>)
    requires
        f.blobs.data.len() <= 0xFFFF_FFFF,
        portable_laws::blob_stored(f.blobs.data, index, b),
    ensures
        builder_laws::fits(index, f.shape().width(ColumnKind::BlobIdx)),
{
    index_widths(f);
    portable_laws::small_blob(f.blobs.data, index, b);
}

/// The index of a string fits its column.
proof fn string_index_fits(f: BuilderModel, index: u64, t: Seq<char>)
    requires
        f.strings.data.len() <= 0xFFFF_FFFF,
        portable_laws::string_stored(f.strings.data, index, t),
    ensures
        builder_laws::fits(index, f.shape().width(ColumnKind::StringIdx)),
{
    index_widths(f);
}

/// The number of a GUID fits its column.
proof fn guid_number_fits(f: BuilderModel, number: u64, g: Seq<u8>)
    requires
        f.guids.data.len() <= 0xFFFF_FFFF,
        portable_laws::guid_stored(f.guids.data, number, g),
    ensures
        builder_laws::fits(number, f.shape().width(ColumnKind::GuidIdx)),
{
    index_widths(f);
}

/// The cells of a document fit their columns.
proof fn document_fits(f: BuilderModel, row: Seq<u64>, d: DocumentView, k: int)
    requires
        f.blobs.data.len() <= 0xFFFF_FFFF,
        f.guids.data.len() <= 0xFFFF_FFFF,
        f.rows[TableIndex::Document.number() as int][k] == row,
        portable_laws::document_stored(f, row, d),
    ensures
        builder_laws::row_fits(f, TableIndex::Document, k),
{
    let indexes = choose|indexes: Seq<u32>|
        portable_laws::blob_stored(
            f.blobs.data,
            row[0],
            #[trigger] portable_writer::name_blob(d.name, indexes),
        ) && portable_laws::segments_stored(
            f.blobs.data,
            indexes,
            portable_writer::segments(d.name),
        );
    blob_index_fits(f, row[0], portable_writer::name_blob(d.name, indexes));
    guid_number_fits(f, row[1], d.hash_algorithm);
    blob_index_fits(f, row[2], d.hash);
    guid_number_fits(f, row[3], d.language);
}

proof fn document_reads(m: PortableModel, c: PortableContent, k: int)
    requires
        portable_laws::stored(m, c),
        plain_portable(m),
        m.finished().blobs.data.len() < 0x4000_0000,
        0 <= k < c.documents.len(),
    ensures
        portable_reader::document_at(
            builder_laws::written_metadata(m.finished()),
            (k + 1) as u32,
        ) == Ok::<DocumentView, ErrorKind>(c.documents[k]),
        k + 1 <= 0xFFFF_FFFF,
{
    let f = m.finished();
    let d = c.documents[k];
    portable_laws::stored_is_shaped(m, c);
    finished_shape(m);
    finished_holds(m, c);
    file_readable(m);
    builder_laws::rows_bounded(f);
    assert(f.rows[TableIndex::Document.number() as int].len() < 0xFFFF_FFFF);
    let row = m.document_rows[k];
    assert(portable_laws::document_stored(m.metadata, row, d));
    portable_laws::document_kept(f, m.metadata, row, d);
    document_fits(f, row, d, k);
    builder_laws::row_reads(f, TableIndex::Document, (k + 1) as u32);
    portable_laws::name_reads(f.blobs.data, row[0], d.name);
    portable_laws::guid_read(f.guids.data, row[1], d.hash_algorithm);
    portable_laws::guid_read(f.guids.data, row[3], d.language);
    portable_laws::small_blob(f.blobs.data, row[2], d.hash);
    blobs_found(f, row[2], d.hash);
    name_blob_not_empty(f.blobs.data, row[0], d.name);
}

/// A document of a written portable PDB reads back with its name, its hash and
/// its language, whatever else the builder was told. This holds as long as the
/// blob heap is small enough for compressed indexes and the file fits 32 bits.
pub proof fn written_document_reads_back(m: PortableModel, c: PortableContent, k: int)
    requires
        portable_laws::describes(m, c),
        plain_portable(m),
        m.finished().blobs.data.len() < 0x4000_0000,
        0 <= k < c.documents.len(),
    ensures
        portable_reader::parsed_portable(m.finished().built()) matches Ok(md)
            && portable_reader::document_at(md, (k + 1) as u32) == Ok::<DocumentView, ErrorKind>(
            c.documents[k],
        ),
        k + 1 <= 0xFFFF_FFFF,
{
    portable_laws::stored_is_shaped(m, c);
    file_readable(m);
    document_reads(m, c, k);
}

/// A name takes bytes of the heap.
proof fn name_blob_not_empty(data: Seq<u8>, index: u64, name: Seq<char>)
    requires
        portable_laws::name_stored(data, index, name),
    ensures
        data.len() > 1,
{
    let indexes = choose|indexes: Seq<u32>|
        portable_laws::blob_stored(
            data,
            index,
            #[trigger] portable_writer::name_blob(name, indexes),
        ) && portable_laws::segments_stored(data, indexes, portable_writer::segments(name));
    assert(portable_writer::name_blob(name, indexes).len() >= 1);
}

proof fn documents_read(md: MetadataView, documents: Seq<DocumentView>, done: u32)
    requires
        done <= documents.len() == md.rows(TableIndex::Document),
        forall|k: int|
            #![trigger documents[k]]
            0 <= k < documents.len() ==> portable_reader::document_at(md, (k + 1) as u32) == Ok::<
                DocumentView,
                ErrorKind,
            >(documents[k]),
    ensures
        portable_reader::documents_from(md, done) == Ok::<Seq<DocumentView>, ErrorKind>(
            documents.skip(done as int),
        ),
    decreases documents.len() - done,
{
    if done < documents.len() {
        assert(portable_reader::document_at(md, (done + 1) as u32) == Ok::<
            DocumentView,
            ErrorKind,
        >(documents[done as int]));
        documents_read(md, documents, (done + 1) as u32);
        assert(seq![documents[done as int]] + documents.skip(done + 1) =~= documents.skip(
            done as int,
        ));
    } else {
        assert(documents.skip(done as int) =~= Seq::<DocumentView>::empty());
    }
}

/// The number of rows that the `#Pdb` heap records of a table.
pub open spec fn recorded_count(md: MetadataView, t: TableIndex) -> u32 {
    match md.heaps.pdb {
        Some(p) => p.counts[t.number() as int],
        None => 0,
    }
}

/// The `#Pdb` heap of a written file records the rows that the file has.
proof fn recorded_counts(m: PortableModel, t: TableIndex)
    requires
        portable_laws::shaped(m),
        plain_portable(m),
    ensures
        recorded_count(builder_laws::written_metadata(m.finished()), t)
            == builder_laws::written_metadata(m.finished()).rows(t),
{
    let f = m.finished();
    let w = m.with_tables();
    let i = t.number() as int;
    finished_shape(m);
    file_readable(m);
    heap_laws::pdb_round_trip(f.pdb->Some_0);
    builder_laws::rows_found(f, t);
    builder_laws::rows_bounded(f);
    populated_ascends(w, 0x38);
    sorting_sorted(portable_writer::populated(w, 0x38));
    populated_counts(w, 0x38, i);
    assert(f.rows[i].len() < 0xFFFF_FFFF);
    assert(w.counts()[i] == f.counts()[i]);
}

/// The file of every builder parses. It has the id and the entry point that
/// were set, one module row, and a row for every method up to the last one that
/// anything is known of, and its `#Pdb` heap records how many rows each table
/// has. Its version is the one that was set, up to the first zero byte. This
/// holds as long as the file fits 32 bits.
pub proof fn written_portable_parses(m: PortableModel)
    requires
        portable_laws::shaped(m),
        plain_portable(m),
    ensures
        portable_reader::parsed_portable(m.finished().built()) matches Ok(md) && {
            &&& md.version == root::version_read(m.metadata.version)
            &&& md.heaps.pdb matches Some(p) && p.id == m.pdb_id && p.entry_point
                == m.entry_point.0
            &&& md.rows(TableIndex::Module) == 1
            &&& md.rows(TableIndex::MethodDebugInformation) == m.slots.len()
            &&& forall|t: TableIndex|
                #![trigger md.rows(t)]
                recorded_count(md, t) == md.rows(t)
        },
{
    let f = m.finished();
    finished_shape(m);
    file_readable(m);
    builder_laws::rows_found(f, TableIndex::Module);
    builder_laws::rows_found(f, TableIndex::MethodDebugInformation);
    let md = builder_laws::written_metadata(f);
    assert forall|t: TableIndex| #![trigger md.rows(t)] recorded_count(md, t) == md.rows(t) by {
        recorded_counts(m, t);
    }
}

/// The documents of a written portable PDB read back, in order. This holds as
/// long as the blob heap is small enough for compressed indexes and the file
/// fits 32 bits.
pub proof fn written_documents_read_back(m: PortableModel, c: PortableContent)
    requires
        portable_laws::describes(m, c),
        plain_portable(m),
        m.finished().blobs.data.len() < 0x4000_0000,
    ensures
        portable_reader::parsed_portable(m.finished().built()) matches Ok(md)
            && portable_reader::documents_from(md, 0) == Ok::<Seq<DocumentView>, ErrorKind>(
            c.documents,
        ),
{
    let f = m.finished();
    portable_laws::stored_is_shaped(m, c);
    finished_shape(m);
    file_readable(m);
    builder_laws::rows_found(f, TableIndex::Document);
    let md = builder_laws::written_metadata(f);
    assert forall|k: int|
        #![trigger c.documents[k]]
        0 <= k < c.documents.len() implies portable_reader::document_at(md, (k + 1) as u32) == Ok::<
        DocumentView,
        ErrorKind,
    >(c.documents[k]) by {
        document_reads(m, c, k);
    }
    documents_read(md, c.documents, 0);
    assert(c.documents.skip(0) =~= c.documents);
}

/// Custom debug information reads back verbatim from a written portable PDB:
/// its parent, its kind and its value. This holds as long as the cell of its
/// parent fits, its value has less than two to the thirtieth bytes, and the
/// file fits 32 bits.
pub proof fn written_custom_reads_back(m: PortableModel, c: PortableContent, k: int)
    requires
        portable_laws::describes(m, c),
        plain_portable(m),
        0 <= k < c.customs.len(),
        c.customs[k].value.len() < 0x4000_0000,
        builder_laws::fits(
            m.custom_rows[k][0],
            m.finished().shape().width(
                ColumnKind::Coded(CodedGroup::HasCustomDebugInformation),
            ),
        ),
    ensures
        portable_reader::parsed_portable(m.finished().built()) matches Ok(md) && {
            let v = c.customs[k];
            &&& md.rows(TableIndex::CustomDebugInformation) == c.customs.len()
            &&& md.row(TableIndex::CustomDebugInformation, (k + 1) as u32) matches Ok(row) && {
                &&& row.len() == 3
                &&& tables::decoded(
                    CodedGroup::HasCustomDebugInformation.members(),
                    CodedGroup::HasCustomDebugInformation.bits(),
                    row[0],
                ) matches Some((t, rid)) && t.number() == v.parent.table_number() && rid
                    == v.parent.row()
                &&& heaps::guid_at(md.heaps.guid, portable_reader::index_of(row[1])) == v.kind
                &&& heaps::blob_at(md.heaps.blob, portable_reader::index_of(row[2])) == Some(
                    v.value,
                )
            }
        },
{
    let f = m.finished();
    let t = TableIndex::CustomDebugInformation;
    let v = c.customs[k];
    portable_laws::stored_is_shaped(m, c);
    finished_shape(m);
    finished_holds(m, c);
    file_readable(m);
    builder_laws::rows_found(f, t);
    builder_laws::rows_bounded(f);
    assert(f.rows[t.number() as int].len() < 0xFFFF_FFFF);
    let row = m.custom_rows[k];
    assert(portable_laws::custom_stored(m.metadata, row, v));
    portable_laws::custom_kept(f, m.metadata, row, v);
    guid_number_fits(f, row[1], v.kind);
    blob_index_fits(f, row[2], v.value);
    builder_laws::row_reads(f, t, (k + 1) as u32);
    portable_laws::parent_decodes(v.parent);
    portable_laws::guid_read(f.guids.data, row[1], v.kind);
    blobs_found(f, row[2], v.value);
}

/// Import scopes read back from a written portable PDB: the parent and the
/// imports. This holds as long as the cell of the parent fits, which it does of
/// every parent that was added, the imports have less than two to the thirtieth
/// bytes, and the file fits 32 bits.
pub proof fn written_import_reads_back(m: PortableModel, c: PortableContent, k: int)
    requires
        portable_laws::describes(m, c),
        plain_portable(m),
        0 <= k < c.imports.len(),
        c.imports[k].1.len() < 0x4000_0000,
        c.imports[k].0 <= c.imports.len() || c.imports[k].0 <= 0xFFFF,
    ensures
        portable_reader::parsed_portable(m.finished().built()) matches Ok(md) && {
            &&& md.rows(TableIndex::ImportScope) == c.imports.len()
            &&& md.row(TableIndex::ImportScope, (k + 1) as u32) matches Ok(row) && {
                &&& row.len() == 2
                &&& row[0] == c.imports[k].0
                &&& heaps::blob_at(md.heaps.blob, portable_reader::index_of(row[1])) == Some(
                    c.imports[k].1,
                )
            }
        },
{
    let f = m.finished();
    let t = TableIndex::ImportScope;
    portable_laws::stored_is_shaped(m, c);
    finished_shape(m);
    finished_holds(m, c);
    file_readable(m);
    builder_laws::rows_found(f, t);
    builder_laws::rows_bounded(f);
    assert(f.rows[t.number() as int].len() < 0xFFFF_FFFF);
    let row = m.import_rows[k];
    assert(portable_laws::import_stored(m.metadata, row, c.imports[k]));
    portable_laws::blob_kept(f.blobs.data, m.metadata.blobs.data, row[1], c.imports[k].1);
    assert(f.counts()[t.number() as int] == c.imports.len());
    blob_index_fits(f, row[1], c.imports[k].1);
    builder_laws::row_reads(f, t, (k + 1) as u32);
    blobs_found(f, row[1], c.imports[k].1);
}

/// What is said of a method, as a reader finds it.
pub open spec fn points_of(slot: Option<SlotModel>) -> Option<(u32, Seq<(SequencePoint, u32)>)> {
    match slot {
        Some(s) => match s.points {
            Some(points) if points.len() > 0 => Some(
                (s.document, sequence_points::in_document(points, s.document)),
            ),
            _ => None,
        },
        None => None,
    }
}

/// The points of a method read back: they are regular, they have a document,
/// and their stream has less than two to the thirtieth bytes.
pub open spec fn points_regular(slot: Option<SlotModel>) -> bool {
    slot matches Some(s) ==> (s.points matches Some(points) ==> points.len() > 0 ==> s.document
        != 0 && sequence_points::regular_points(points) && sequence_points::encoded_points(
        s.signature,
        points,
    ).len() < 0x4000_0000)
}

/// The sequence points of a method of a written portable PDB read back as they
/// were given, in their document; a method without points has none. This holds
/// whatever else the builder was told, as long as the file fits 32 bits.
pub proof fn written_points_read_back(m: PortableModel, c: PortableContent, rid: u32)
    requires
        portable_laws::describes(m, c),
        plain_portable(m),
        1 <= rid <= m.slots.len(),
        m.slots[rid - 1] matches Some(s) ==> s.document <= m.document_rows.len(),
        points_regular(m.slots[rid - 1]),
    ensures
        portable_reader::parsed_portable(m.finished().built()) matches Ok(md)
            && portable_reader::points_at(md, rid) == Ok::<
            Option<(u32, Seq<(SequencePoint, u32)>)>,
            ErrorKind,
        >(points_of(m.slots[rid - 1])),
{
    let f = m.finished();
    let t = TableIndex::MethodDebugInformation;
    portable_laws::stored_is_shaped(m, c);
    finished_shape(m);
    finished_holds(m, c);
    file_readable(m);
    builder_laws::rows_found(f, t);
    builder_laws::rows_bounded(f);
    let row = f.rows[t.number() as int][rid - 1];
    let md = builder_laws::written_metadata(f);
    let slot = m.slots[rid - 1];
    assert(method_stored(f.blobs.data, row, slot));
    assert(f.rows[TableIndex::Document.number() as int].len() < 0xFFFF_FFFF);
    assert(f.counts()[TableIndex::Document.number() as int] == m.document_rows.len());
    index_widths(f);
    match slot {
        Some(s) => match s.points {
            Some(points) if points.len() > 0 => {
                let blob = sequence_points::encoded_points(s.signature, points);
                blob_index_fits(f, row[1], blob);
                assert(builder_laws::row_fits(f, t, rid - 1));
                builder_laws::row_reads(f, t, rid);
                stream_found(f, row[1], s.signature, points);
                sequence_points::points_round_trip(s.signature, points, s.document);
                points_row_reads(md, rid, row, s.document, blob);
            },
            _ => {
                assert(builder_laws::row_fits(f, t, rid - 1));
                builder_laws::row_reads(f, t, rid);
                empty_row_reads(md, rid, row);
            },
        },
        None => {
            assert(builder_laws::row_fits(f, t, rid - 1));
            builder_laws::row_reads(f, t, rid);
            empty_row_reads(md, rid, row);
        },
    }
}

proof fn stream_found(f: BuilderModel, index: u64, signature: u32, points: Seq<SequencePoint>)
    requires
        f.blobs.data.len() <= 0xFFFF_FFFF,
        portable_laws::blob_stored(
            f.blobs.data,
            index,
            sequence_points::encoded_points(signature, points),
        ),
        sequence_points::encoded_points(signature, points).len() < 0x4000_0000,
    ensures
        heaps::blob_at(
            builder_laws::written_heaps(f).blob,
            portable_reader::index_of(index),
        ) == Some(sequence_points::encoded_points(signature, points)),
        portable_reader::index_of(index) != 0,
{
    let blob = sequence_points::encoded_points(signature, points);
    assert(blob.len() >= 1);
    blobs_found(f, index, blob);
    portable_laws::blob_read(f.blobs.data, index, blob);
}

proof fn empty_row_reads(md: MetadataView, rid: u32, row: Seq<u64>)
    requires
        1 <= rid <= md.rows(TableIndex::MethodDebugInformation),
        md.row(TableIndex::MethodDebugInformation, rid) == Ok::<Seq<u64>, ErrorKind>(row),
        row.len() == 2,
        row[1] == 0,
    ensures
        portable_reader::points_at(md, rid) == Ok::<
            Option<(u32, Seq<(SequencePoint, u32)>)>,
            ErrorKind,
        >(None),
{
}

proof fn points_row_reads(
    md: MetadataView,
    rid: u32,
    row: Seq<u64>,
    document: u32,
    blob: Seq<u8>,
)
    requires
        1 <= rid <= md.rows(TableIndex::MethodDebugInformation),
        md.row(TableIndex::MethodDebugInformation, rid) == Ok::<Seq<u64>, ErrorKind>(row),
        row.len() == 2,
        row[0] == document,
        portable_reader::index_of(row[1]) != 0,
        heaps::blob_at(md.heaps.blob, portable_reader::index_of(row[1])) == Some(blob),
        sequence_points::decoded_points(blob, document) is Some,
    ensures
        portable_reader::points_at(md, rid) == Ok::<
            Option<(u32, Seq<(SequencePoint, u32)>)>,
            ErrorKind,
        >(Some(sequence_points::decoded_points(blob, document)->Some_0)),
{
}

/// The variable with the number reads back, as long as its name has no zero byte
/// and the file fits 32 bits.
pub proof fn written_variable_reads_back(m: PortableModel, c: PortableContent, k: int)
    requires
        portable_laws::describes(m, c),
        plain_portable(m),
        0 <= k < c.variables.len(),
        bytes::zero_free(text::utf8(c.variables[k].name)),
    ensures
        portable_reader::parsed_portable(m.finished().built()) matches Ok(md)
            && portable_reader::variable_at(md, (k + 1) as u32) == Ok::<VariableView, ErrorKind>(
            c.variables[k],
        ) && c.variables.len() <= 0xFFFF_FFFF && md.shape.has(
            TableIndex::LocalVariable.number() as int,
        ),
{
    let f = m.finished();
    let t = TableIndex::LocalVariable;
    portable_laws::stored_is_shaped(m, c);
    finished_shape(m);
    file_readable(m);
    builder_laws::rows_bounded(f);
    assert(f.rows[t.number() as int].len() < 0xFFFF_FFFF);
    builder_laws::rows_found(f, t);
    let row = m.variable_rows[k];
    assert(portable_laws::variable_stored(m.metadata, row, c.variables[k]));
    string_index_fits(f, row[2], c.variables[k].name);
    builder_laws::row_reads(f, t, (k + 1) as u32);
    portable_laws::string_read(f.strings.data, row[2], c.variables[k].name);
}

/// The constant with the number reads back, as long as its name has no zero
/// byte, its signature has less than two to the thirtieth bytes, and the file
/// fits 32 bits.
pub proof fn written_constant_reads_back(m: PortableModel, c: PortableContent, k: int)
    requires
        portable_laws::describes(m, c),
        plain_portable(m),
        0 <= k < c.constants.len(),
        bytes::zero_free(text::utf8(c.constants[k].name)),
        c.constants[k].signature.len() < 0x4000_0000,
    ensures
        portable_reader::parsed_portable(m.finished().built()) matches Ok(md)
            && portable_reader::constant_at(md, (k + 1) as u32) == Ok::<ConstantView, ErrorKind>(
            c.constants[k],
        ) && c.constants.len() <= 0xFFFF_FFFF && md.shape.has(
            TableIndex::LocalConstant.number() as int,
        ),
{
    let f = m.finished();
    let t = TableIndex::LocalConstant;
    portable_laws::stored_is_shaped(m, c);
    finished_shape(m);
    finished_holds(m, c);
    file_readable(m);
    builder_laws::rows_bounded(f);
    assert(f.rows[t.number() as int].len() < 0xFFFF_FFFF);
    builder_laws::rows_found(f, t);
    let row = m.constant_rows[k];
    let constant = c.constants[k];
    assert(portable_laws::constant_stored(m.metadata, row, constant));
    portable_laws::constant_kept(f, m.metadata, row, constant);
    string_index_fits(f, row[0], constant.name);
    blob_index_fits(f, row[1], constant.signature);
    builder_laws::row_reads(f, t, (k + 1) as u32);
    portable_laws::string_read(f.strings.data, row[0], constant.name);
    blobs_found(f, row[1], constant.signature);
}

/// The scopes of a method among those from the `done`-th on.
pub open spec fn scopes_for(scopes: Seq<ScopeView>, method: u32, done: int) -> Seq<ScopeView>
    decreases scopes.len() - done,
{
    if done < 0 || done >= scopes.len() {
        Seq::empty()
    } else if scopes[done].method.row() == method {
        seq![scopes[done]] + scopes_for(scopes, method, done + 1)
    } else {
        scopes_for(scopes, method, done + 1)
    }
}

/// The rows of the scopes, as a reader finds them.
spec fn scope_rows_found(md: MetadataView, scopes: Seq<ScopeView>, rows: Seq<Seq<u64>>) -> bool {
    &&& rows.len() == scopes.len() == md.rows(TableIndex::LocalScope)
    &&& md.rows(TableIndex::LocalVariable) == portable_laws::variables_before(
        scopes,
        scopes.len() as int,
    ) < 0xFFFF_FFFF
    &&& md.rows(TableIndex::LocalConstant) == portable_laws::constants_before(
        scopes,
        scopes.len() as int,
    ) < 0xFFFF_FFFF
    &&& forall|k: int|
        #![trigger rows[k]]
        0 <= k < rows.len() ==> portable_laws::scope_stored(scopes, k, rows[k])
    &&& forall|k: int|
        #![trigger rows[k]]
        0 <= k < rows.len() ==> md.row(TableIndex::LocalScope, (k + 1) as u32) == Ok::<
            Seq<u64>,
            ErrorKind,
        >(rows[k]) && md.cell(TableIndex::LocalScope, (k + 1) as u32, 2) == Ok::<u64, ErrorKind>(
            rows[k][2],
        ) && md.cell(TableIndex::LocalScope, (k + 1) as u32, 3) == Ok::<u64, ErrorKind>(rows[k][3])
}

proof fn before_grows(scopes: Seq<ScopeView>, k: int)
    requires
        0 <= k <= scopes.len(),
    ensures
        portable_laws::variables_before(scopes, k) <= portable_laws::variables_before(
            scopes,
            scopes.len() as int,
        ),
        portable_laws::constants_before(scopes, k) <= portable_laws::constants_before(
            scopes,
            scopes.len() as int,
        ),
    decreases scopes.len() - k,
{
    if k < scopes.len() {
        before_grows(scopes, k + 1);
    }
}

proof fn ranges_read(md: MetadataView, scopes: Seq<ScopeView>, rows: Seq<Seq<u64>>, k: int)
    requires
        scope_rows_found(md, scopes, rows),
        0 <= k < scopes.len(),
    ensures
        portable_reader::list_range(
            md,
            TableIndex::LocalScope,
            TableIndex::LocalVariable,
            (k + 1) as u32,
            2,
        ) == Ok::<(u32, u32), ErrorKind>(
            (
                (1 + portable_laws::variables_before(scopes, k)) as u32,
                scopes[k].variables.len() as u32,
            ),
        ),
        portable_reader::list_range(
            md,
            TableIndex::LocalScope,
            TableIndex::LocalConstant,
            (k + 1) as u32,
            3,
        ) == Ok::<(u32, u32), ErrorKind>(
            (
                (1 + portable_laws::constants_before(scopes, k)) as u32,
                scopes[k].constants.len() as u32,
            ),
        ),
{
    before_grows(scopes, k);
    before_grows(scopes, k + 1);
    assert(portable_laws::scope_stored(scopes, k, rows[k]));
    if k + 1 < scopes.len() {
        assert(portable_laws::scope_stored(scopes, k + 1, rows[k + 1]));
    }
}

proof fn scope_reads(md: MetadataView, scopes: Seq<ScopeView>, rows: Seq<Seq<u64>>, k: int)
    requires
        scope_rows_found(md, scopes, rows),
        0 <= k < scopes.len(),
    ensures
        portable_reader::scope_at(md, (k + 1) as u32, rows[k]) == Ok::<ScopeView, ErrorKind>(
            scopes[k],
        ),
        portable_reader::index_of(rows[k][0]) == scopes[k].method.row(),
{
    ranges_read(md, scopes, rows, k);
    let row = rows[k];
    assert(portable_laws::scope_stored(scopes, k, row));
    bytes::signed_round_trip(0, 0, scopes[k].try_start, 0);
    bytes::signed_round_trip(0, 0, scopes[k].try_length, 0);
}

proof fn scopes_read(
    md: MetadataView,
    scopes: Seq<ScopeView>,
    rows: Seq<Seq<u64>>,
    method: u32,
    done: u32,
)
    requires
        scope_rows_found(md, scopes, rows),
        done <= scopes.len(),
    ensures
        portable_reader::scopes_from(md, method, done) == Ok::<Seq<ScopeView>, ErrorKind>(
            scopes_for(scopes, method, done as int),
        ),
    decreases scopes.len() - done,
{
    if done < scopes.len() {
        assert(md.row(TableIndex::LocalScope, (done + 1) as u32) == Ok::<Seq<u64>, ErrorKind>(
            rows[done as int],
        ));
        scope_reads(md, scopes, rows, done as int);
        scopes_read(md, scopes, rows, method, (done + 1) as u32);
    }
}

/// The cells of every scope fit their columns.
pub open spec fn scopes_fit(m: PortableModel) -> bool {
    forall|k: int|
        #![trigger m.scope_rows[k]]
        0 <= k < m.scope_rows.len() ==> builder_laws::row_fits(
            m.finished(),
            TableIndex::LocalScope,
            k,
        )
}

/// The cells of the scopes fit where the methods fit sixteen bits, the import
/// scopes are ones that were added, and neither the variables nor the constants
/// are just as many as sixteen bits can count.
pub proof fn ordinary_scopes_fit(m: PortableModel, c: PortableContent)
    requires
        portable_laws::describes(m, c),
        plain_portable(m),
        forall|k: int|
            #![trigger c.scopes[k]]
            0 <= k < c.scopes.len() ==> c.scopes[k].method.row() <= 0xFFFF
                && c.scopes[k].import_scope <= c.imports.len(),
        c.variables.len() != 0xFFFF,
        c.constants.len() != 0xFFFF,
    ensures
        scopes_fit(m),
{
    let f = m.finished();
    portable_laws::stored_is_shaped(m, c);
    finished_shape(m);
    builder_laws::rows_bounded(f);
    assert(f.rows[TableIndex::LocalVariable.number() as int].len() < 0xFFFF_FFFF);
    assert(f.rows[TableIndex::LocalConstant.number() as int].len() < 0xFFFF_FFFF);
    assert(f.rows[TableIndex::ImportScope.number() as int].len() < 0xFFFF_FFFF);
    assert(f.counts()[TableIndex::LocalVariable.number() as int] == c.variables.len());
    assert(f.counts()[TableIndex::LocalConstant.number() as int] == c.constants.len());
    assert(f.counts()[TableIndex::ImportScope.number() as int] == c.imports.len());
    assert forall|k: int| #![trigger m.scope_rows[k]] 0 <= k < m.scope_rows.len() implies builder_laws::row_fits(
        f,
        TableIndex::LocalScope,
        k,
    ) by {
        assert(portable_laws::scope_stored(c.scopes, k, m.scope_rows[k]));
        before_grows(c.scopes, k);
        assert(c.scopes[k].method.row() <= 0xFFFF);
        ordinary_scope_fits(
            f,
            k,
            m.scope_rows[k],
            c.imports.len() as int,
            c.variables.len() as int,
            c.constants.len() as int,
        );
    }
}

proof fn ordinary_scope_fits(
    f: BuilderModel,
    k: int,
    row: Seq<u64>,
    imports: int,
    variables: int,
    constants: int,
)
    requires
        f.rows[TableIndex::LocalScope.number() as int][k] == row,
        f.shape().counts[TableIndex::ImportScope.number() as int] == imports,
        f.shape().counts[TableIndex::LocalVariable.number() as int] == variables,
        variables != 0xFFFF,
        f.shape().counts[TableIndex::LocalConstant.number() as int] == constants,
        constants != 0xFFFF,
        row.len() == 6,
        row[0] <= 0xFFFF,
        row[1] <= imports,
        row[2] <= 1 + variables <= 0xFFFF_FFFF,
        row[3] <= 1 + constants <= 0xFFFF_FFFF,
        row[4] <= 0xFFFF_FFFF,
        row[5] <= 0xFFFF_FFFF,
    ensures
        builder_laws::row_fits(f, TableIndex::LocalScope, k),
{
    let kinds = tables::schema(TableIndex::LocalScope);
    let shape = f.shape();
    assert(kinds.len() == 6);
    assert(builder_laws::fits(row[0], shape.width(kinds[0])));
    assert(builder_laws::fits(row[1], shape.width(kinds[1])));
    assert(builder_laws::fits(row[2], shape.width(kinds[2])));
    assert(builder_laws::fits(row[3], shape.width(kinds[3])));
    assert(builder_laws::fits(row[4], shape.width(kinds[4])));
    assert(builder_laws::fits(row[5], shape.width(kinds[5])));
}

/// The scopes of every method of a written portable PDB read back as they were
/// given, in order, with the rows of their variables and constants. This holds
/// whatever else the builder was told, as long as the cells of the scopes fit
/// their columns and the file fits 32 bits.
pub proof fn written_scopes_read_back(m: PortableModel, c: PortableContent, method: u32)
    requires
        portable_laws::describes(m, c),
        plain_portable(m),
        scopes_fit(m),
    ensures
        portable_reader::parsed_portable(m.finished().built()) matches Ok(md)
            && portable_reader::scopes_from(md, method, 0) == Ok::<Seq<ScopeView>, ErrorKind>(
            scopes_for(c.scopes, method, 0),
        ),
{
    let f = m.finished();
    let md = builder_laws::written_metadata(f);
    let t = TableIndex::LocalScope;
    portable_laws::stored_is_shaped(m, c);
    finished_shape(m);
    file_readable(m);
    builder_laws::rows_found(f, t);
    builder_laws::rows_found(f, TableIndex::LocalVariable);
    builder_laws::rows_found(f, TableIndex::LocalConstant);
    builder_laws::rows_bounded(f);
    assert(f.rows[t.number() as int].len() < 0xFFFF_FFFF);
    assert(f.rows[TableIndex::LocalVariable.number() as int].len() < 0xFFFF_FFFF);
    assert(f.rows[TableIndex::LocalConstant.number() as int].len() < 0xFFFF_FFFF);
    let rows = m.scope_rows;
    assert forall|k: int| #![trigger rows[k]] 0 <= k < rows.len() implies md.row(
        t,
        (k + 1) as u32,
    ) == Ok::<Seq<u64>, ErrorKind>(rows[k]) && md.cell(t, (k + 1) as u32, 2) == Ok::<
        u64,
        ErrorKind,
    >(rows[k][2]) && md.cell(t, (k + 1) as u32, 3) == Ok::<u64, ErrorKind>(rows[k][3]) by {
        builder_laws::row_reads(f, t, (k + 1) as u32);
    }
    assert forall|k: int| #![trigger rows[k]] 0 <= k < rows.len() implies portable_laws::scope_stored(
        c.scopes,
        k,
        rows[k],
    ) by {
        assert(portable_laws::scope_stored(c.scopes, k, m.scope_rows[k]));
    }
    scopes_read(md, c.scopes, rows, method, 0);
}

} // verus!
