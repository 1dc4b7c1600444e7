//! What stands in the columns of the debug tables, and how sequence points and
//! embedded files are laid out.

use vstd::prelude::*;

use crate::bytes;
use crate::encoding_laws;
use crate::error::ErrorKind;
use crate::io;
use crate::metadata::heaps;
use crate::metadata::reader::MetadataView;
use crate::pdb::embedded;
use crate::pdb::image_debug_type;
use crate::pdb::portable_reader;
use crate::pdb::portable_reader::{ConstantView, VariableView};
use crate::pdb::sequence_points;
use crate::pdb::sequence_points::{PointState, SequencePoint};
use crate::token::TableIndex;

verus! {

/// The numbers that debug information is marked with.
pub proof fn debug_marks()
    ensures
        sequence_points::HIDDEN_LINE == 0xFEEFEE,
        image_debug_type::CODEVIEW == 2,
        image_debug_type::DETERMINISTIC == 16,
        image_debug_type::EMBEDDED_PORTABLE_PDB == 17,
        image_debug_type::PDB_CHECKSUM == 19,
{
}

/// An embedded file is `MPDB`, its length and the compressed bytes.
pub proof fn embedded_files(length: int, compressed: Seq<u8>, payload: Seq<u8>)
    requires
        0 <= length <= u32::MAX,
    ensures
        ({
            let f = embedded::framed(length, compressed);
            &&& f.len() == 8 + compressed.len()
            &&& f[0] == 'M' as u8
            &&& f[1] == 'P' as u8
            &&& f[2] == 'D' as u8
            &&& f[3] == 'B' as u8
            &&& encoding_laws::double_word(f, 4) == length
            &&& f.skip(8) == compressed
        }),
        embedded::unframed(payload) is Some <==> payload.len() >= 8 && payload[0] == 0x4D && payload[1]
            == 0x50 && payload[2] == 0x44 && payload[3] == 0x42,
        embedded::unframed(payload) matches Some((n, b)) ==> n == encoding_laws::double_word(payload, 4) && b
            == payload.skip(8),
{
    broadcast use crate::bytes::widths;

    let f = embedded::framed(length, compressed);
    encoding_laws::words_agree(f);
    encoding_laws::words_agree(payload);
    assert(f.subrange(4, 8) =~= bytes::u32_le(length as u32));
    bytes::u32_round_trip(f, 4, length as u32);
    assert(bytes::u32_at(f, 4) == encoding_laws::double_word(f, 4));
    assert(f.skip(8) =~= compressed);
    assert(bytes::u32_at(payload, 4) == encoding_laws::double_word(payload, 4));
    if payload.len() >= 8 && payload[0] == 0x4D && payload[1] == 0x50 && payload[2] == 0x44
        && payload[3] == 0x42 {
        assert(payload.take(4) =~= embedded::mpdb_magic());
    }
    if embedded::unframed(payload) is Some {
        assert(payload.take(4)[0] == payload[0]);
        assert(payload.take(4)[1] == payload[1]);
        assert(payload.take(4)[2] == payload[2]);
        assert(payload.take(4)[3] == payload[3]);
    }
}

/// What is inflated counts only if it has the length that was declared.
pub proof fn declared_lengths(declared: u32, b: Seq<u8>, e: Seq<char>)
    ensures
        b.len() == declared ==> embedded::checked(declared, Ok(b)) == Some(b),
        b.len() != declared ==> embedded::checked(declared, Ok(b)) is None,
        embedded::checked(declared, Err(e)) is None,
{
}

/// A checksum entry is `SHA256`, a zero and the digest.
pub proof fn checksum_entries(digest: Seq<u8>)
    ensures
        ({
            let p = embedded::checksum_payload(digest);
            &&& p.len() == 7 + digest.len()
            &&& p.take(6) == "SHA256"@.map_values(|c: char| c as u8)
            &&& p[6] == 0
            &&& p.skip(7) == digest
        }),
{
    reveal_strlit("SHA256");
    let p = embedded::checksum_payload(digest);
    assert(p.take(6) =~= "SHA256"@.map_values(|c: char| c as u8));
    assert(p.skip(7) =~= digest);
}

/// A document: the name, the hash algorithm, the hash and the language.
pub proof fn document_columns(md: MetadataView, rid: u32, cells: Seq<u64>)
    requires
        md.row(TableIndex::Document, rid) == Ok::<Seq<u64>, ErrorKind>(cells),
        cells.len() == 4,
        forall|k: int| 0 <= k < 4 ==> #[trigger] cells[k] <= u32::MAX,
    ensures
        portable_reader::document_at(md, rid) matches Ok(d) ==> {
            &&& Some(d.hash) == heaps::blob_at(md.heaps.blob, cells[2] as u32)
            &&& d.hash_algorithm == heaps::guid_at(md.heaps.guid, cells[1] as u32)
            &&& d.language == heaps::guid_at(md.heaps.guid, cells[3] as u32)
            &&& heaps::blob_at(md.heaps.blob, cells[0] as u32) matches Some(name) && Some(d.name)
                == portable_reader::document_name(md.heaps.blob, name)
        },
{
    assert(cells[0] <= u32::MAX);
    assert(cells[1] <= u32::MAX);
    assert(cells[2] <= u32::MAX);
    assert(cells[3] <= u32::MAX);
}

/// A document name is a separator and the parts that it stands between.
pub proof fn document_names(
    blobs: Seq<u8>,
    data: Seq<u8>,
    a: u32,
    b: u32,
    at: int,
    first: Seq<char>,
    second: Seq<char>,
)
    requires
        data.len() >= 1,
        io::compressed_u32_at(data, 1) == Some((a, at - 1)),
        io::compressed_u32_at(data, at) == Some((b, data.len() - at)),
        portable_reader::segment_text(blobs, a) == Some(first),
        portable_reader::segment_text(blobs, b) == Some(second),
    ensures
        data[0] != 0 ==> portable_reader::document_name(blobs, data) == Some(
            first + seq![data[0] as char] + second,
        ),
        data[0] == 0 ==> portable_reader::document_name(blobs, data) == Some(first + second),
{
    broadcast use crate::io::compressed_widths;

    let w = io::compressed_u32_at(data, 1)->Some_0.1;
    let v = io::compressed_u32_at(data, 1 + w)->Some_0.1;
    let sep = data[0];
    let none = Seq::<char>::empty();
    assert(portable_reader::name_from(blobs, data, sep, 1 + w + v, false) == Some(none));
    let tail = portable_reader::joint(sep, false) + second + none;
    assert(portable_reader::name_from(blobs, data, sep, 1 + w, false) == Some(tail));
    assert(portable_reader::name_from(blobs, data, sep, 1, true) == Some(
        portable_reader::joint(sep, true) + first + tail,
    ));
    if sep != 0 {
        assert(portable_reader::joint(sep, true) + first + tail =~= first + seq![sep as char]
            + second);
    } else {
        assert(portable_reader::joint(sep, true) + first + tail =~= first + second);
    }
}

/// A local variable: the attributes, the index and the name.
pub proof fn variable_columns(md: MetadataView, rid: u32, cells: Seq<u64>)
    requires
        md.row(TableIndex::LocalVariable, rid) == Ok::<Seq<u64>, ErrorKind>(cells),
        cells[0] <= u16::MAX,
        cells[1] <= u16::MAX,
        cells[2] <= u32::MAX,
    ensures
        match heaps::string_at(md.heaps.strings, cells[2] as u32) {
            Some(name) => portable_reader::variable_at(md, rid) == Ok::<VariableView, ErrorKind>(
                VariableView { attributes: cells[0] as u16, index: cells[1] as u16, name },
            ),
            None => portable_reader::variable_at(md, rid) is Err,
        },
{
}

/// A local constant: the name and the signature.
pub proof fn constant_columns(md: MetadataView, rid: u32, cells: Seq<u64>)
    requires
        md.row(TableIndex::LocalConstant, rid) == Ok::<Seq<u64>, ErrorKind>(cells),
        cells[0] <= u32::MAX,
        cells[1] <= u32::MAX,
    ensures
        portable_reader::constant_at(md, rid) matches Ok(c) ==> Some(c.name) == heaps::string_at(
            md.heaps.strings,
            cells[0] as u32,
        ) && Some(c.signature) == heaps::blob_at(md.heaps.blob, cells[1] as u32),
        heaps::string_at(md.heaps.strings, cells[0] as u32) is Some && heaps::blob_at(
            md.heaps.blob,
            cells[1] as u32,
        ) is Some ==> portable_reader::constant_at(md, rid) is Ok,
{
}

/// A scope: the method, the imports, the first variable, the first constant, the
/// start and the length.
pub proof fn scope_columns(md: MetadataView, rid: u32, cells: Seq<u64>)
    requires
        cells.len() == 6,
        cells[0] <= 0xFF_FFFF,
        cells[1] <= u32::MAX,
        cells[4] <= i32::MAX,
        cells[5] <= i32::MAX,
    ensures
        portable_reader::scope_at(md, rid, cells) matches Ok(s) ==> {
            &&& s.method.0 == 0x0600_0000 + cells[0]
            &&& s.import_scope == cells[1]
            &&& s.try_start == cells[4]
            &&& s.try_length == cells[5]
            &&& s.kind == 0
            &&& s.handler_start == -1
            &&& s.handler_length == -1
            &&& portable_reader::list_range(
                md,
                TableIndex::LocalScope,
                TableIndex::LocalVariable,
                rid,
                2,
            ) matches Ok(r) && s.variables == portable_reader::run(r)
            &&& portable_reader::list_range(
                md,
                TableIndex::LocalScope,
                TableIndex::LocalConstant,
                rid,
                3,
            ) matches Ok(r) && s.constants == portable_reader::run(r)
        },
{
}

/// A row owns the rows of a list from the one that it names up to the one that
/// the next row names, and the last row all that are left.
pub proof fn owned_rows(
    md: MetadataView,
    table: TableIndex,
    target: TableIndex,
    rid: u32,
    col: int,
    start: u64,
    k: int,
)
    requires
        1 <= rid <= md.rows(table),
        md.cell(table, rid, col) == Ok::<u64, ErrorKind>(start),
        start <= u32::MAX,
        md.rows(target) < u32::MAX,
    ensures
        start == 0 ==> portable_reader::list_range(md, table, target, rid, col) == Ok::<
            (u32, u32),
            ErrorKind,
        >((0u32, 0u32)),
        start > 0 && rid == md.rows(table) && start <= md.rows(target) + 1
            ==> portable_reader::list_range(md, table, target, rid, col) == Ok::<
            (u32, u32),
            ErrorKind,
        >((start as u32, (md.rows(target) + 1 - start) as u32)),
        start > 0 && rid < md.rows(table) ==> (md.cell(table, (rid + 1) as u32, col) matches Ok(next)
            ==> next <= u32::MAX ==> {
            &&& next >= start ==> portable_reader::list_range(md, table, target, rid, col) == Ok::<
                (u32, u32),
                ErrorKind,
            >((start as u32, (next - start) as u32))
            &&& next < start ==> portable_reader::list_range(md, table, target, rid, col) is Err
        }),
{
}

/// The rows of a range are consecutive.
pub proof fn ranges_are_consecutive(start: u32, length: u32, k: int)
    requires
        0 <= k < length,
        start + length <= u32::MAX,
    ensures
        portable_reader::run((start, length)).len() == length,
        portable_reader::run((start, length))[k] == start + k,
{
}

/// A state machine: the method that moves it, and the one that starts it.
pub proof fn state_machine_columns(md: MetadataView, cells: Seq<u64>, method: u32)
    requires
        md.rows(TableIndex::StateMachineMethod) >= 1,
        md.row(TableIndex::StateMachineMethod, 1) == Ok::<Seq<u64>, ErrorKind>(cells),
        cells[0] <= u32::MAX,
        cells[1] <= u32::MAX,
    ensures
        cells[0] == method ==> portable_reader::kickoff_from(md, method, 0) == Some(cells[1] as u32),
        cells[0] != method ==> portable_reader::kickoff_from(md, method, 0)
            == portable_reader::kickoff_from(md, method, 1),
{
}

/// A method without a blob has no points, and its blob is decoded with the
/// document of its row.
pub proof fn method_columns(md: MetadataView, rid: u32, cells: Seq<u64>)
    requires
        1 <= rid <= md.rows(TableIndex::MethodDebugInformation),
        md.row(TableIndex::MethodDebugInformation, rid) == Ok::<Seq<u64>, ErrorKind>(cells),
        cells[0] <= u32::MAX,
        cells[1] <= u32::MAX,
    ensures
        cells[1] == 0 ==> (portable_reader::points_at(md, rid) matches Ok(p) && p is None),
        cells[1] != 0 ==> (heaps::blob_at(md.heaps.blob, cells[1] as u32) matches Some(data)
            ==> match sequence_points::decoded_points(data, cells[0] as u32) {
            Some(points) => portable_reader::points_at(md, rid) matches Ok(p) && p == Some(points),
            None => portable_reader::points_at(md, rid) is Err,
        }),
{
}

/// A point that is hidden has the hidden line twice.
pub proof fn hidden_points(p: SequencePoint)
    ensures
        p.hidden() <==> p.start_line == 16707566 && p.end_line == 16707566,
{
}

/// A point is read as the distance of its offset, the number of its lines and
/// columns, and its start: absolute in the first point, and relative to the last
/// one afterwards. A number of columns has a sign only with lines.
pub proof fn points_are_read(
    s: Seq<u8>,
    at: int,
    st: PointState,
    delta: u32,
    lines: u32,
    columns: int,
    line: int,
    column: int,
    a: int,
    b: int,
    c: int,
    d: int,
    e: int,
)
    requires
        io::compressed_u32_at(s, at) == Some((delta, a - at)),
        io::compressed_u32_at(s, a) == Some((lines, b - a)),
        lines == 0 ==> (io::compressed_u32_at(s, b) matches Some((n, w)) && n == columns && b + w == c),
        lines > 0 ==> (io::compressed_i32_at(s, b) matches Some((n, w)) && n == columns && b + w == c),
        st.fresh ==> (io::compressed_u32_at(s, c) matches Some((n, w)) && n == line && c + w == d),
        st.fresh ==> (io::compressed_u32_at(s, d) matches Some((n, w)) && n == column && d + w == e),
        !st.fresh ==> (io::compressed_i32_at(s, c) matches Some((n, w)) && st.start_line + n == line
            && c + w == d),
        !st.fresh ==> (io::compressed_i32_at(s, d) matches Some((n, w)) && st.start_column + n
            == column && d + w == e),
        lines > 0 || columns != 0,
        !(st.begun && delta == 0),
        0 <= st.offset,
        st.offset + delta <= i32::MAX,
        0 <= line,
        line + lines <= i32::MAX,
        0 <= column <= i32::MAX,
        0 <= column + columns <= i32::MAX,
    ensures
        sequence_points::record_at(s, at, st) == Some(
            (
                PointState {
                    document: st.document,
                    offset: (st.offset + delta) as i32,
                    start_line: line as i32,
                    start_column: column as i32,
                    fresh: false,
                    begun: true,
                },
                Some(
                    SequencePoint {
                        offset: (st.offset + delta) as i32,
                        start_line: line as u32,
                        start_column: column as u32,
                        end_line: (line + lines) as u32,
                        end_column: (column + columns) as u32,
                    },
                ),
                e,
            ),
        ),
{
    assert(sequence_points::span_at(s, a) == Some((lines as i32, columns as i32, c))) by {
        reveal(sequence_points::span_at);
    }
    assert(sequence_points::start_at(s, c, st) == Some((line as i32, column as i32, e))) by {
        reveal(sequence_points::start_at);
        in_range_is_kept(line);
        in_range_is_kept(column);
    }
    let offset = (st.offset + delta) as i32;
    in_range_is_kept(st.offset + delta);
    in_range_is_kept(line + lines);
    in_range_is_kept(column + columns);
    let p = SequencePoint {
        offset,
        start_line: line as u32,
        start_column: column as u32,
        end_line: (line + lines) as u32,
        end_column: (column + columns) as u32,
    };
    assert(sequence_points::spanning(
        offset,
        line as i32,
        column as i32,
        lines as i32,
        columns as i32,
    ) == p);
    let next = PointState {
        document: st.document,
        offset,
        start_line: line as i32,
        start_column: column as i32,
        fresh: false,
        begun: true,
    };
    assert(sequence_points::point_at(s, a, st, delta) == Some((next, p, e))) by {
        reveal(sequence_points::point_at);
    }
    reveal(sequence_points::record_at);
}

proof fn in_range_is_kept(n: int)
    requires
        0 <= n <= i32::MAX,
    ensures
        bytes::wrapped32(n) == n,
{
}

/// A point without lines and columns is hidden and has no start; a distance of
/// zero behind a point leads to another document.
pub proof fn other_records_are_read(
    s: Seq<u8>,
    at: int,
    st: PointState,
    delta: u32,
    second: u32,
    a: int,
    b: int,
    c: int,
)
    requires
        io::compressed_u32_at(s, at) == Some((delta, a - at)),
        io::compressed_u32_at(s, a) == Some((second, b - a)),
        0 <= st.offset,
        st.offset + delta <= i32::MAX,
    ensures
        st.begun && delta == 0 ==> sequence_points::record_at(s, at, st) == Some(
            (PointState { document: second, ..st }, None::<SequencePoint>, b),
        ),
        !(st.begun && delta == 0) && second == 0 && io::compressed_u32_at(s, b) == Some((0u32, c - b))
            ==> sequence_points::record_at(s, at, st) == Some(
            (
                PointState { offset: (st.offset + delta) as i32, begun: true, ..st },
                Some(
                    SequencePoint {
                        offset: (st.offset + delta) as i32,
                        start_line: 0xFEEFEE,
                        start_column: 0,
                        end_line: 0xFEEFEE,
                        end_column: 0,
                    },
                ),
                c,
            ),
        ),
{
    reveal(sequence_points::record_at);
    reveal(sequence_points::point_at);
    reveal(sequence_points::span_at);
}

/// A stream of points starts with the signature of the locals, and names its
/// document itself where the row does not.
pub proof fn streams_of_points(s: Seq<u8>, row_document: u32, a: int, b: int, x: u32, document: u32)
    requires
        io::compressed_u32_at(s, 0) == Some((x, a)),
        io::compressed_u32_at(s, a) == Some((document, b - a)),
    ensures
        ({
            let start = if row_document == 0 {
                b
            } else {
                a
            };
            let first = if row_document == 0 {
                document
            } else {
                row_document
            };
            match sequence_points::records_at(
                s,
                start,
                PointState {
                    document: first,
                    offset: 0,
                    start_line: 0,
                    start_column: 0,
                    fresh: true,
                    begun: false,
                },
            ) {
                Some(points) => sequence_points::decoded_points(s, row_document) == Some(
                    (first, points),
                ),
                None => sequence_points::decoded_points(s, row_document) is None,
            }
        }),
{
}

/// Points can be written that do not end before they start and whose distances
/// fit 29 bits.
pub proof fn writable_points(p: SequencePoint, b: SequencePoint)
    ensures
        p.hidden() ==> sequence_points::encodable(p, None) && sequence_points::encodable(p, Some(b)),
        !p.hidden() ==> (sequence_points::encodable(p, None) <==> (p.end_line > p.start_line || (
        p.end_line == p.start_line && p.end_column >= p.start_column)) && -0x1000_0000
            <= p.end_column - p.start_column < 0x1000_0000),
        !p.hidden() && sequence_points::encodable(p, None) ==> (sequence_points::encodable(p, Some(b))
            <==> -0x1000_0000 <= p.start_line - b.start_line < 0x1000_0000 && -0x1000_0000
            <= p.start_column - b.start_column < 0x1000_0000),
{
}

proof fn variables_read_from(md: MetadataView, rids: Seq<u32>, from: int, list: Seq<VariableView>)
    requires
        0 <= from <= rids.len(),
        portable_reader::variables_from(md, rids, from) == Ok::<Seq<VariableView>, ErrorKind>(list),
    ensures
        list.len() == rids.len() - from,
        forall|k: int|
            0 <= k < list.len() ==> portable_reader::variable_at(md, rids[from + k]) == Ok::<
                VariableView,
                ErrorKind,
            >(#[trigger] list[k]),
    decreases rids.len() - from,
{
    if from < rids.len() {
        let rest = portable_reader::variables_from(md, rids, from + 1)->Ok_0;
        variables_read_from(md, rids, from + 1, rest);
        assert forall|k: int| 0 <= k < list.len() implies portable_reader::variable_at(
            md,
            rids[from + k],
        ) == Ok::<VariableView, ErrorKind>(#[trigger] list[k]) by {
            if k > 0 {
                assert(list[k] == rest[k - 1]);
                assert(rids[from + 1 + (k - 1)] == rids[from + k]);
            }
        }
    }
}

proof fn constants_read_from(md: MetadataView, rids: Seq<u32>, from: int, list: Seq<ConstantView>)
    requires
        0 <= from <= rids.len(),
        portable_reader::constants_from(md, rids, from) == Ok::<Seq<ConstantView>, ErrorKind>(list),
    ensures
        list.len() == rids.len() - from,
        forall|k: int|
            0 <= k < list.len() ==> portable_reader::constant_at(md, rids[from + k]) == Ok::<
                ConstantView,
                ErrorKind,
            >(#[trigger] list[k]),
    decreases rids.len() - from,
{
    if from < rids.len() {
        let rest = portable_reader::constants_from(md, rids, from + 1)->Ok_0;
        constants_read_from(md, rids, from + 1, rest);
        assert forall|k: int| 0 <= k < list.len() implies portable_reader::constant_at(
            md,
            rids[from + k],
        ) == Ok::<ConstantView, ErrorKind>(#[trigger] list[k]) by {
            if k > 0 {
                assert(list[k] == rest[k - 1]);
                assert(rids[from + 1 + (k - 1)] == rids[from + k]);
            }
        }
    }
}

/// The variables and the constants of rows are read one for each row, in the order
/// of the rows.
pub proof fn listed_rows_are_read(md: MetadataView, rids: Seq<u32>, k: int)
    requires
        0 <= k < rids.len(),
    ensures
        portable_reader::variables_from(md, rids, 0) matches Ok(list) ==> list.len() == rids.len()
            && portable_reader::variable_at(md, rids[k]) == Ok::<VariableView, ErrorKind>(list[k]),
        portable_reader::constants_from(md, rids, 0) matches Ok(list) ==> list.len() == rids.len()
            && portable_reader::constant_at(md, rids[k]) == Ok::<ConstantView, ErrorKind>(list[k]),
        portable_reader::variable_at(md, rids[0]) is Err ==> portable_reader::variables_from(
            md,
            rids,
            0,
        ) is Err,
        portable_reader::constant_at(md, rids[0]) is Err ==> portable_reader::constants_from(
            md,
            rids,
            0,
        ) is Err,
{
    if let Ok(list) = portable_reader::variables_from(md, rids, 0) {
        variables_read_from(md, rids, 0, list);
        assert(rids[0 + k] == rids[k]);
        assert(portable_reader::variable_at(md, rids[0 + k]) == Ok::<VariableView, ErrorKind>(
            list[k],
        ));
    }
    if let Ok(list) = portable_reader::constants_from(md, rids, 0) {
        constants_read_from(md, rids, 0, list);
        assert(portable_reader::constant_at(md, rids[0 + k]) == Ok::<ConstantView, ErrorKind>(
            list[k],
        ));
    }
}

} // verus!
