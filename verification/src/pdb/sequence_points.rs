//! Sequence points: the record stream of a `MethodDebugInformation` row that
//! maps IL offsets to source spans.
//!
//! A stream opens with the rid of the local signature and, where the row names
//! no document, with a document. A record holds a compressed IL-offset delta,
//! a line delta and a column delta (signed where lines move), then the start
//! line and column: absolute ones in the first record that is not hidden, and
//! signed deltas after it. Two zero deltas make a hidden point. A zero IL
//! delta behind the first record announces another document.

use vstd::prelude::*;

use crate::bytes;
use crate::error::{Error, ErrorKind};
use crate::io;
use crate::io::{ByteReader, ByteWriter};
use crate::text;
use crate::text::Message;

verus! {

broadcast use {crate::bytes::widths, crate::io::compressed_widths};

/// Source line recorded for compiler-generated ("hidden") sequence points, for
/// instructions with no user-code mapping.
pub const HIDDEN_LINE: u32 = 0x00FE_EFEE;

/// One IL-to-source mapping decoded from a `MethodDebugInformation` blob.
#[derive(Debug, Clone, Copy, PartialEq, Eq)]
pub struct SequencePoint {
    /// IL offset this point starts at.
    pub offset: i32,
    /// First source line covered (see [`HIDDEN_LINE`] when hidden).
    pub start_line: u32,
    /// First source column covered (0 for hidden points).
    pub start_column: u32,
    /// Last source line covered, inclusive.
    pub end_line: u32,
    /// Last source column covered, inclusive.
    pub end_column: u32,
}

impl SequencePoint {
    /// The point is compiler-generated code.
    pub open spec fn hidden(self) -> bool {
        self.start_line == HIDDEN_LINE && self.end_line == HIDDEN_LINE
    }

    /// Whether this point maps to compiler-generated code rather than user
    /// source (both lines are [`HIDDEN_LINE`]).
    pub fn is_hidden(&self) -> (b: bool)
        ensures
            b == self.hidden(),
    {
        self.start_line == HIDDEN_LINE && self.start_line == self.end_line
    }
}

/// A hidden point.
pub open spec fn hidden_point(offset: i32) -> SequencePoint {
    SequencePoint {
        offset,
        start_line: HIDDEN_LINE,
        start_column: 0,
        end_line: HIDDEN_LINE,
        end_column: 0,
    }
}

/// Where a decoder stands between records.
#[derive(Clone, Copy)]
pub struct PointState {
    pub document: u32,
    pub offset: i32,
    pub start_line: i32,
    pub start_column: i32,
    /// No record that is not hidden has been read.
    pub fresh: bool,
    /// A record has been read.
    pub begun: bool,
}

/// Where a decoder starts.
pub open spec fn first_state(document: u32) -> PointState {
    PointState {
        document,
        offset: 0,
        start_line: 0,
        start_column: 0,
        fresh: true,
        begun: false,
    }
}

/// The line delta and the column delta at `at`, and where they end.
#[verifier::opaque]
pub open spec fn span_at(s: Seq<u8>, at: int) -> Option<(i32, i32, int)> {
    match io::compressed_u32_at(s, at) {
        None => None,
        Some((lines, w)) => if lines == 0 {
            match io::compressed_u32_at(s, at + w) {
                None => None,
                Some((columns, v)) => Some((0i32, columns as i32, at + w + v)),
            }
        } else {
            match io::compressed_i32_at(s, at + w) {
                None => None,
                Some((columns, v)) => Some((lines as i32, columns, at + w + v)),
            }
        },
    }
}

/// The start line and column at `at`, and where they end.
#[verifier::opaque]
pub open spec fn start_at(s: Seq<u8>, at: int, st: PointState) -> Option<(i32, i32, int)> {
    if st.fresh {
        match io::compressed_u32_at(s, at) {
            None => None,
            Some((line, w)) => match io::compressed_u32_at(s, at + w) {
                None => None,
                Some((column, v)) => Some((line as i32, column as i32, at + w + v)),
            },
        }
    } else {
        match io::compressed_i32_at(s, at) {
            None => None,
            Some((line, w)) => match io::compressed_i32_at(s, at + w) {
                None => None,
                Some((column, v)) => Some(
                    (
                        bytes::wrapped32(st.start_line + line),
                        bytes::wrapped32(st.start_column + column),
                        at + w + v,
                    ),
                ),
            },
        }
    }
}

/// The point with the span.
pub open spec fn spanning(
    offset: i32,
    line: i32,
    column: i32,
    lines: i32,
    columns: i32,
) -> SequencePoint {
    SequencePoint {
        offset,
        start_line: bytes::u32_of(line),
        start_column: bytes::u32_of(column),
        end_line: bytes::u32_of(bytes::wrapped32(line + lines)),
        end_column: bytes::u32_of(bytes::wrapped32(column + columns)),
    }
}

/// The point at `at`, behind its IL-offset delta, and where it ends.
#[verifier::opaque]
pub open spec fn point_at(s: Seq<u8>, at: int, st: PointState, delta: u32) -> Option<
    (PointState, SequencePoint, int),
> {
    let offset = bytes::wrapped32(st.offset + delta);
    match span_at(s, at) {
        None => None,
        Some((lines, columns, b)) => if lines == 0 && columns == 0 {
            Some((PointState { offset, begun: true, ..st }, hidden_point(offset), b))
        } else {
            match start_at(s, b, st) {
                None => None,
                Some((line, column, end)) => Some(
                    (
                        PointState {
                            document: st.document,
                            offset,
                            start_line: line,
                            start_column: column,
                            fresh: false,
                            begun: true,
                        },
                        spanning(offset, line, column, lines, columns),
                        end,
                    ),
                ),
            }
        },
    }
}

/// The record at `at`, a point or a change of document, and where it ends.
#[verifier::opaque]
pub open spec fn record_at(s: Seq<u8>, at: int, st: PointState) -> Option<
    (PointState, Option<SequencePoint>, int),
> {
    match io::compressed_u32_at(s, at) {
        None => None,
        Some((delta, w)) => if st.begun && delta == 0 {
            match io::compressed_u32_at(s, at + w) {
                None => None,
                Some((document, v)) => Some((PointState { document, ..st }, None, at + w + v)),
            }
        } else {
            match point_at(s, at + w, st, delta) {
                None => None,
                Some((next, p, end)) => Some((next, Some(p), end)),
            }
        },
    }
}

proof fn point_fits(s: Seq<u8>, at: int, st: PointState, delta: u32)
    ensures
        point_at(s, at, st, delta) matches Some((next, p, end)) ==> at < end <= s.len(),
{
    reveal(point_at);
    reveal(span_at);
    reveal(start_at);
}

/// A record takes bytes of the stream.
pub broadcast proof fn record_fits(s: Seq<u8>, at: int, st: PointState)
    ensures
        #[trigger] record_at(s, at, st) matches Some((next, p, end)) ==> 0 <= at < end <= s.len(),
{
    reveal(record_at);
    if let Some((delta, w)) = io::compressed_u32_at(s, at) {
        point_fits(s, at + w, st, delta);
    }
}

/// The points of the records from `at` on, each with its document.
pub open spec fn records_at(s: Seq<u8>, at: int, st: PointState) -> Option<
    Seq<(SequencePoint, u32)>,
>
    decreases s.len() - at,
{
    if at >= s.len() {
        Some(Seq::empty())
    } else {
        match record_at(s, at, st) {
            None => None,
            Some((next, p, end)) => if end <= at || end > s.len() {
                None
            } else {
                match records_at(s, end, next) {
                    None => None,
                    Some(rest) => match p {
                        None => Some(rest),
                        Some(point) => Some(seq![(point, next.document)] + rest),
                    },
                }
            },
        }
    }
}

/// The document that a stream starts in, and its points, each with its
/// document.
pub open spec fn decoded_points(s: Seq<u8>, row_document: u32) -> Option<
    (u32, Seq<(SequencePoint, u32)>),
> {
    match io::compressed_u32_at(s, 0) {
        None => None,
        Some((_, w)) => if row_document == 0 {
            match io::compressed_u32_at(s, w) {
                None => None,
                Some((document, v)) => match records_at(s, w + v, first_state(document)) {
                    None => None,
                    Some(points) => Some((document, points)),
                },
            }
        } else {
            match records_at(s, w, first_state(row_document)) {
                None => None,
                Some(points) => Some((row_document, points)),
            }
        },
    }
}

fn read_span(r: &mut ByteReader<'_>) -> (v: Result<(i32, i32), Error>)
    ensures
        final(r).data() == old(r).data(),
        match span_at(old(r).data(), old(r).pos() as int) {
            Some((lines, columns, end)) => v is Ok && v->Ok_0 == (lines, columns) && final(r).pos()
                == end,
            None => v is Err && v->Err_0.kind() == ErrorKind::BadImage,
        },
{
    proof {
        reveal(span_at);
    }
    let lines: u32 = r.compressed_u32()?;
    if lines == 0 {
        let columns: u32 = r.compressed_u32()?;
        Ok((0, columns as i32))
    } else {
        let columns: i32 = r.compressed_i32()?;
        Ok((lines as i32, columns))
    }
}

fn read_start(r: &mut ByteReader<'_>, st: PointState) -> (v: Result<(i32, i32), Error>)
    ensures
        final(r).data() == old(r).data(),
        match start_at(old(r).data(), old(r).pos() as int, st) {
            Some((line, column, end)) => v is Ok && v->Ok_0 == (line, column) && final(r).pos()
                == end,
            None => v is Err && v->Err_0.kind() == ErrorKind::BadImage,
        },
{
    proof {
        reveal(start_at);
    }
    if st.fresh {
        let line: u32 = r.compressed_u32()?;
        let column: u32 = r.compressed_u32()?;
        Ok((line as i32, column as i32))
    } else {
        let line: i32 = r.compressed_i32()?;
        let column: i32 = r.compressed_i32()?;
        Ok((wrapping_sum(st.start_line, line), wrapping_sum(st.start_column, column)))
    }
}

fn wrapping_sum(a: i32, b: i32) -> (c: i32)
    ensures
        c == bytes::wrapped32(a + b),
{
    bytes::as_i32(bytes::as_wrapped_u32(a as i64 + b as i64))
}

fn read_point(r: &mut ByteReader<'_>, st: PointState, delta: u32) -> (v: Result<
    (PointState, SequencePoint),
    Error,
>)
    ensures
        final(r).data() == old(r).data(),
        match point_at(old(r).data(), old(r).pos() as int, st, delta) {
            Some((next, p, end)) => v is Ok && v->Ok_0 == (next, p) && final(r).pos() == end,
            None => v is Err && v->Err_0.kind() == ErrorKind::BadImage,
        },
{
    proof {
        reveal(point_at);
    }
    let offset: i32 = bytes::as_i32(bytes::as_wrapped_u32(st.offset as i64 + delta as i64));
    let (lines, columns) = read_span(r)?;
    if lines == 0 && columns == 0 {
        let next = PointState {
            document: st.document,
            offset,
            start_line: st.start_line,
            start_column: st.start_column,
            fresh: st.fresh,
            begun: true,
        };
        let p = SequencePoint {
            offset,
            start_line: HIDDEN_LINE,
            start_column: 0,
            end_line: HIDDEN_LINE,
            end_column: 0,
        };
        return Ok((next, p));
    }
    let (line, column) = read_start(r, st)?;
    let next = PointState {
        document: st.document,
        offset,
        start_line: line,
        start_column: column,
        fresh: false,
        begun: true,
    };
    let p = SequencePoint {
        offset,
        start_line: bytes::as_u32(line),
        start_column: bytes::as_u32(column),
        end_line: bytes::as_u32(wrapping_sum(line, lines)),
        end_column: bytes::as_u32(wrapping_sum(column, columns)),
    };
    Ok((next, p))
}

fn read_record(r: &mut ByteReader<'_>, st: PointState) -> (v: Result<
    (PointState, Option<SequencePoint>),
    Error,
>)
    ensures
        final(r).data() == old(r).data(),
        match record_at(old(r).data(), old(r).pos() as int, st) {
            Some((next, p, end)) => v is Ok && v->Ok_0 == (next, p) && final(r).pos() == end,
            None => v is Err && v->Err_0.kind() == ErrorKind::BadImage,
        },
{
    proof {
        reveal(record_at);
    }
    let delta: u32 = r.compressed_u32()?;
    if st.begun && delta == 0 {
        let document: u32 = r.compressed_u32()?;
        let next = PointState {
            document,
            offset: st.offset,
            start_line: st.start_line,
            start_column: st.start_column,
            fresh: st.fresh,
            begun: st.begun,
        };
        return Ok((next, None));
    }
    let (next, p) = read_point(r, st, delta)?;
    Ok((next, Some(p)))
}

/// The points of a decoded stream.
pub open spec fn just_points(points: Seq<(SequencePoint, u32)>) -> Seq<SequencePoint> {
    Seq::new(points.len(), |k: int| points[k].0)
}

/// The documents of the points of a decoded stream.
pub open spec fn just_documents(points: Seq<(SequencePoint, u32)>) -> Seq<u32> {
    Seq::new(points.len(), |k: int| points[k].1)
}

/// Decodes a sequence-point stream of a row that names the document, or none
/// if that is zero: the document that the stream starts in, the points, and
/// the document of each of them.
pub fn decode_points(data: &[u8], row_document: u32) -> (r: Result<
    (u32, Vec<SequencePoint>, Vec<u32>),
    Error,
>)
    ensures
        match decoded_points(data@, row_document) {
            Some((document, points)) => r is Ok && r->Ok_0.0 == document && r->Ok_0.1@
                == just_points(points) && r->Ok_0.2@ == just_documents(points),
            None => r is Err && r->Err_0.kind() == ErrorKind::BadImage,
        },
{
    let mut r = ByteReader::new(data);
    let _signature: u32 = r.compressed_u32()?;
    let initial: u32 = if row_document == 0 {
        r.compressed_u32()?
    } else {
        row_document
    };
    let ghost start = r.pos() as int;
    let ghost whole = records_at(data@, start, first_state(initial));
    let ghost mut done: Seq<(SequencePoint, u32)> = Seq::empty();
    let mut st = PointState {
        document: initial,
        offset: 0,
        start_line: 0,
        start_column: 0,
        fresh: true,
        begun: false,
    };
    let mut points: Vec<SequencePoint> = Vec::new();
    let mut documents: Vec<u32> = Vec::new();
    proof {
        if let Some(rest) = whole {
            assert(done + rest =~= rest);
        }
        assert(points@ =~= just_points(done));
        assert(documents@ =~= just_documents(done));
    }
    while r.remaining() > 0
        invariant
            r.data() == data@,
            points@ == just_points(done),
            documents@ == just_documents(done),
            whole == (match records_at(data@, r.pos() as int, st) {
                Some(rest) => Some(done + rest),
                None => None,
            }),
            match whole {
                Some(all) => decoded_points(data@, row_document) == Some((initial, all)),
                None => decoded_points(data@, row_document) is None,
            },
        decreases data@.len() - r.pos(),
    {
        proof {
            record_fits(data@, r.pos() as int, st);
        }
        let (next, p) = read_record(&mut r, st)?;
        st = next;
        match p {
            Some(point) => {
                points.push(point);
                documents.push(next.document);
                proof {
                    let before = done;
                    done = done.push((point, next.document));
                    assert(points@ =~= just_points(done));
                    assert(documents@ =~= just_documents(done));
                    if let Some(rest) = records_at(data@, r.pos() as int, st) {
                        assert(before + (seq![(point, next.document)] + rest) =~= done + rest);
                    }
                }
            },
            None => {},
        }
    }
    proof {
        assert(done + Seq::<(SequencePoint, u32)>::empty() =~= done);
    }
    Ok((initial, points, documents))
}

/// The IL offset that the `k`-th record counts from.
pub open spec fn offset_before(points: Seq<SequencePoint>, k: int) -> i32 {
    if k == 0 {
        0
    } else {
        points[k - 1].offset
    }
}

/// The last point before the `k`-th that is not hidden.
pub open spec fn base_before(points: Seq<SequencePoint>, k: int) -> Option<SequencePoint>
    decreases k,
{
    if k <= 0 {
        None
    } else if points[k - 1].hidden() {
        base_before(points, k - 1)
    } else {
        Some(points[k - 1])
    }
}

/// A value fits a compressed signed integer.
pub open spec fn fits_signed(v: int) -> bool {
    -0x1000_0000 <= v < 0x1000_0000
}

/// A point can be written: it is hidden, or it does not end before it starts
/// and its distances fit compressed signed integers.
pub open spec fn encodable(p: SequencePoint, base: Option<SequencePoint>) -> bool {
    p.hidden() || (p.end_line >= p.start_line && (p.end_line == p.start_line ==> p.end_column
        >= p.start_column) && fits_signed(p.end_column - p.start_column) && (base matches Some(b)
        ==> fits_signed(p.start_line - b.start_line) && fits_signed(
        p.start_column - b.start_column,
    )))
}

/// The span of a point, as bytes.
pub open spec fn span_bytes(p: SequencePoint) -> Seq<u8> {
    io::compressed_u32_bytes((p.end_line - p.start_line) as u32) + if p.end_line == p.start_line {
        io::compressed_u32_bytes((p.end_column - p.start_column) as u32)
    } else {
        io::compressed_i32_bytes((p.end_column - p.start_column) as i32)
    }
}

/// The start of a point, as bytes.
pub open spec fn start_bytes(p: SequencePoint, base: Option<SequencePoint>) -> Seq<u8> {
    match base {
        None => io::compressed_u32_bytes(p.start_line) + io::compressed_u32_bytes(p.start_column),
        Some(b) => io::compressed_i32_bytes((p.start_line - b.start_line) as i32)
            + io::compressed_i32_bytes((p.start_column - b.start_column) as i32),
    }
}

/// The record of a point.
pub open spec fn record_bytes(
    p: SequencePoint,
    previous: i32,
    base: Option<SequencePoint>,
) -> Seq<u8> {
    io::compressed_u32_bytes(bytes::low32(p.offset - previous)) + if p.hidden() {
        io::compressed_u32_bytes(0) + io::compressed_u32_bytes(0)
    } else {
        span_bytes(p) + start_bytes(p, base)
    }
}

/// The records of the points.
pub open spec fn record_parts(points: Seq<SequencePoint>) -> Seq<Seq<u8>> {
    Seq::new(
        points.len(),
        |k: int| record_bytes(points[k], offset_before(points, k), base_before(points, k)),
    )
}

/// All points can be written.
pub open spec fn all_encodable(points: Seq<SequencePoint>) -> bool {
    forall|k: int|
        0 <= k < points.len() ==> encodable(#[trigger] points[k], base_before(points, k))
}

/// The stream of the points, behind the rid of the local signature.
pub open spec fn encoded_points(signature: u32, points: Seq<SequencePoint>) -> Seq<u8> {
    io::compressed_u32_bytes(signature) + bytes::joined(record_parts(points))
}

/// What is said of a distance that does not fit.
pub open spec fn distance_failure(value: int) -> Seq<char> {
    "sequence point delta "@ + text::signed_decimal(value) + " exceeds 32-bit range"@
}

/// What is said of a point that cannot be written.
pub open spec fn record_failure(p: SequencePoint, base: Option<SequencePoint>) -> Seq<char> {
    let place = "sequence point at offset "@ + text::signed_decimal(p.offset as int);
    if p.end_line < p.start_line {
        place + " ends before it starts"@
    } else if p.end_line == p.start_line && p.end_column < p.start_column {
        place + " ends before it starts on the same line"@
    } else if !fits_signed(p.end_column - p.start_column) {
        distance_failure(p.end_column - p.start_column)
    } else {
        match base {
            Some(b) if !fits_signed(p.start_line - b.start_line) => distance_failure(
                p.start_line - b.start_line,
            ),
            Some(b) => distance_failure(p.start_column - b.start_column),
            None => Seq::empty(),
        }
    }
}

/// Checks that a distance fits the compressed signed integer domain.
fn fit_i32(value: i64) -> (r: Result<i32, Error>)
    ensures
        if fits_signed(value as int) {
            r is Ok && r->Ok_0 == value
        } else {
            r is Err && r->Err_0.kind() == ErrorKind::Argument && r->Err_0.text()
                == distance_failure(value as int)
        },
{
    if value < -0x1000_0000 || value >= 0x1000_0000 {
        return Err(
            Error::argument(
                Message::new("sequence point delta ").number(value).text(
                    " exceeds 32-bit range",
                ).as_str(),
            ),
        );
    }
    Ok(value as i32)
}

fn write_record(
    w: &mut ByteWriter,
    p: &SequencePoint,
    previous: i32,
    base: Option<SequencePoint>,
) -> (r: Result<(), Error>)
    ensures
        r is Ok <==> encodable(*p, base),
        r is Ok ==> final(w)@ == old(w)@ + record_bytes(*p, previous, base),
        r is Err ==> r->Err_0.kind() == ErrorKind::Argument && r->Err_0.text() == record_failure(
            *p,
            base,
        ),
{
    let ghost start = w@;
    w.compressed_u32(bytes::as_wrapped_u32(p.offset as i64 - previous as i64));
    if p.is_hidden() {
        w.compressed_u32(0);
        w.compressed_u32(0);
        proof {
            assert(w@ =~= start + record_bytes(*p, previous, base));
        }
        return Ok(());
    }
    if p.end_line < p.start_line {
        return Err(
            Error::argument(
                Message::new("sequence point at offset ").number(p.offset as i64).text(
                    " ends before it starts",
                ).as_str(),
            ),
        );
    }
    let columns: i64 = p.end_column as i64 - p.start_column as i64;
    if p.end_line == p.start_line && columns < 0 {
        return Err(
            Error::argument(
                Message::new("sequence point at offset ").number(p.offset as i64).text(
                    " ends before it starts on the same line",
                ).as_str(),
            ),
        );
    }
    let delta: i32 = fit_i32(columns)?;
    w.compressed_u32(p.end_line - p.start_line);
    if p.end_line == p.start_line {
        w.compressed_u32(delta as u32);
    } else {
        w.compressed_i32(delta);
    }
    match base {
        None => {
            w.compressed_u32(p.start_line);
            w.compressed_u32(p.start_column);
        },
        Some(b) => {
            let line: i32 = fit_i32(p.start_line as i64 - b.start_line as i64)?;
            let column: i32 = fit_i32(p.start_column as i64 - b.start_column as i64)?;
            w.compressed_i32(line);
            w.compressed_i32(column);
        },
    }
    proof {
        assert(w@ =~= start + record_bytes(*p, previous, base));
    }
    Ok(())
}

/// Encodes the `MethodDebugInformation` sequence-point blob:
///
/// - leading compressed stand-alone signature rid (skipped by readers),
/// - per point: compressed IL-offset delta (absolute for the first record),
///   then either the hidden sentinel (two compressed zeroes) or the line /
///   column deltas with the running start-position baseline (absolute
///   compressed values for the first non-hidden point, signed deltas after).
///
/// A delta has to fit the compressed signed integer domain.
pub fn encode_sequence_points(local_sig_rid: u32, points: &[SequencePoint]) -> (r: Result<
    Vec<u8>,
    Error,
>)
    ensures
        if all_encodable(points@) {
            r is Ok && r->Ok_0@ == encoded_points(local_sig_rid, points@)
        } else {
            r is Err && r->Err_0.kind() == ErrorKind::Argument && exists|k: int|
                #![trigger points@[k]]
                0 <= k < points@.len() && !encodable(points@[k], base_before(points@, k)) && (
                forall|j: int|
                    0 <= j < k ==> encodable(#[trigger] points@[j], base_before(points@, j)))
                    && r->Err_0.text() == record_failure(points@[k], base_before(points@, k))
        },
{
    let ghost parts = record_parts(points@);
    let n: usize = points.len();
    let mut w = ByteWriter::new();
    w.compressed_u32(local_sig_rid);
    let ghost head = w@;
    let mut base: Option<SequencePoint> = None;
    let mut previous: i32 = 0;
    let mut i: usize = 0;
    proof {
        assert(parts.take(0) =~= Seq::<Seq<u8>>::empty());
        assert(w@ =~= head + bytes::joined(parts.take(0)));
    }
    while i < n
        invariant
            i <= n,
            n == points@.len(),
            parts == record_parts(points@),
            base == base_before(points@, i as int),
            previous == offset_before(points@, i as int),
            w@ == head + bytes::joined(parts.take(i as int)),
            forall|k: int|
                0 <= k < i ==> encodable(#[trigger] points@[k], base_before(points@, k)),
        decreases n - i,
    {
        let p: SequencePoint = points[i];
        let written: Result<(), Error> = write_record(&mut w, &p, previous, base);
        proof {
            assert(encodable(points@[i as int], base_before(points@, i as int)) == (written is Ok));
        }
        written?;
        proof {
            bytes::joined_step(parts, i as int);
            assert(w@ =~= head + bytes::joined(parts.take(i + 1)));
        }
        previous = p.offset;
        if !p.is_hidden() {
            base = Some(p);
        }
        i += 1;
    }
    proof {
        assert(parts.take(n as int) =~= parts);
        assert(head =~= io::compressed_u32_bytes(local_sig_rid));
    }
    Ok(w.into_vec())
}

/// Points whose stream reads back: the IL offsets start at zero or above and
/// go up, the distances fit compressed integers, hidden points have no
/// columns, and the others cover more than nothing.
pub open spec fn regular_points(points: Seq<SequencePoint>) -> bool {
    forall|k: int| 0 <= k < points.len() ==> regular_point(points, k, #[trigger] points[k])
}

/// The condition on one point.
pub open spec fn regular_point(points: Seq<SequencePoint>, k: int, p: SequencePoint) -> bool {
    &&& 0 <= p.offset
    &&& k > 0 ==> points[k - 1].offset < p.offset
    &&& p.offset - offset_before(points, k) < 0x4000_0000
    &&& if p.hidden() {
        p == hidden_point(p.offset)
    } else {
        &&& p.start_line < 0x4000_0000
        &&& p.start_column < 0x4000_0000
        &&& p.start_line <= p.end_line < 0x4000_0000
        &&& -0x1000_0000 <= p.end_column - p.start_column < 0x1000_0000
        &&& p.end_line == p.start_line ==> p.end_column > p.start_column
        &&& base_before(points, k) matches Some(b) ==> -0x1000_0000 <= p.start_line - b.start_line
            < 0x1000_0000 && -0x1000_0000 <= p.start_column - b.start_column < 0x1000_0000
    }
}

/// The state of a decoder that has read the first `k` points.
spec fn state_before(points: Seq<SequencePoint>, document: u32, k: int) -> PointState {
    PointState {
        document,
        offset: offset_before(points, k),
        start_line: match base_before(points, k) {
            Some(b) => bytes::i32_of(b.start_line),
            None => 0,
        },
        start_column: match base_before(points, k) {
            Some(b) => bytes::i32_of(b.start_column),
            None => 0,
        },
        fresh: base_before(points, k) is None,
        begun: k > 0,
    }
}

proof fn base_is_regular(points: Seq<SequencePoint>, k: int)
    requires
        regular_points(points),
        0 <= k <= points.len(),
    ensures
        base_before(points, k) matches Some(b) ==> b.start_line < 0x4000_0000 && b.start_column
            < 0x4000_0000,
    decreases k,
{
    if k > 0 {
        base_is_regular(points, k - 1);
        assert(regular_point(points, k - 1, points[k - 1]));
    }
}

proof fn span_reads(s: Seq<u8>, at: int, p: SequencePoint)
    requires
        bytes::holds_at(s, at, span_bytes(p)),
        p.start_line <= p.end_line,
        p.end_line - p.start_line < 0x4000_0000,
        -0x1000_0000 <= p.end_column - p.start_column < 0x1000_0000,
        p.end_line == p.start_line ==> p.end_column >= p.start_column,
    ensures
        span_at(s, at) == Some(
            (
                (p.end_line - p.start_line) as i32,
                (p.end_column - p.start_column) as i32,
                at + span_bytes(p).len(),
            ),
        ),
{
    reveal(span_at);
    let lines = (p.end_line - p.start_line) as u32;
    let a = io::compressed_u32_bytes(lines);
    io::compressed_u32_len(lines);
    let b = if lines == 0 {
        io::compressed_u32_bytes((p.end_column - p.start_column) as u32)
    } else {
        io::compressed_i32_bytes((p.end_column - p.start_column) as i32)
    };
    bytes::holds_in_concat(a, b, Seq::empty());
    bytes::holds_within(s, at, a + b, 0, a);
    bytes::holds_within(s, at, a + b, a.len() as int, b);
    io::compressed_u32_round_trip(s, at, lines);
    if lines == 0 {
        io::compressed_u32_round_trip(
            s,
            at + a.len(),
            (p.end_column - p.start_column) as u32,
        );
    } else {
        io::compressed_i32_round_trip(
            s,
            at + a.len(),
            (p.end_column - p.start_column) as i32,
        );
    }
}

proof fn start_reads(
    s: Seq<u8>,
    at: int,
    p: SequencePoint,
    base: Option<SequencePoint>,
    st: PointState,
)
    requires
        bytes::holds_at(s, at, start_bytes(p, base)),
        p.start_line < 0x4000_0000,
        p.start_column < 0x4000_0000,
        st.fresh == base is None,
        base matches Some(b) ==> b.start_line < 0x4000_0000 && b.start_column < 0x4000_0000
            && st.start_line == b.start_line && st.start_column == b.start_column && -0x1000_0000
            <= p.start_line - b.start_line < 0x1000_0000 && -0x1000_0000 <= p.start_column
            - b.start_column < 0x1000_0000,
    ensures
        start_at(s, at, st) == Some(
            (p.start_line as i32, p.start_column as i32, at + start_bytes(p, base).len()),
        ),
{
    reveal(start_at);
    match base {
        None => {
            let a = io::compressed_u32_bytes(p.start_line);
            let b = io::compressed_u32_bytes(p.start_column);
            bytes::holds_in_concat(a, b, Seq::empty());
            bytes::holds_within(s, at, a + b, 0, a);
            bytes::holds_within(s, at, a + b, a.len() as int, b);
            io::compressed_u32_round_trip(s, at, p.start_line);
            io::compressed_u32_round_trip(s, at + a.len(), p.start_column);
        },
        Some(q) => {
            let line = (p.start_line - q.start_line) as i32;
            let column = (p.start_column - q.start_column) as i32;
            let a = io::compressed_i32_bytes(line);
            let b = io::compressed_i32_bytes(column);
            bytes::holds_in_concat(a, b, Seq::empty());
            bytes::holds_within(s, at, a + b, 0, a);
            bytes::holds_within(s, at, a + b, a.len() as int, b);
            io::compressed_i32_round_trip(s, at, line);
            io::compressed_i32_round_trip(s, at + a.len(), column);
        },
    }
}

proof fn record_reads(s: Seq<u8>, at: int, points: Seq<SequencePoint>, document: u32, k: int)
    requires
        regular_points(points),
        0 <= k < points.len(),
        bytes::holds_at(s, at, record_parts(points)[k]),
    ensures
        record_at(s, at, state_before(points, document, k)) == Some(
            (
                state_before(points, document, k + 1),
                Some(points[k]),
                at + record_parts(points)[k].len(),
            ),
        ),
{
    let p = points[k];
    assert(regular_point(points, k, p));
    base_is_regular(points, k);
    let base = base_before(points, k);
    let st = state_before(points, document, k);
    let delta = (p.offset - offset_before(points, k)) as u32;
    if k > 0 {
        assert(regular_point(points, k - 1, points[k - 1]));
    }
    assert(bytes::low32(p.offset - offset_before(points, k)) == delta);
    assert(bytes::wrapped32(st.offset + delta) == p.offset);
    let a = io::compressed_u32_bytes(delta);
    reveal(record_at);
    if p.hidden() {
        let b = io::compressed_u32_bytes(0);
        bytes::holds_in_concat(a, b + b, Seq::empty());
        bytes::holds_within(s, at, a + (b + b), 0, a);
        bytes::holds_within(s, at, a + (b + b), a.len() as int, b + b);
        io::compressed_u32_round_trip(s, at, delta);
        assert(span_bytes(p) =~= b + b);
        span_reads(s, at + a.len(), p);
        reveal(point_at);
    } else {
        let b = span_bytes(p);
        let c = start_bytes(p, base);
        bytes::holds_in_concat(a, b + c, Seq::empty());
        bytes::holds_in_concat(b, c, Seq::empty());
        bytes::holds_within(s, at, a + (b + c), 0, a);
        bytes::holds_within(s, at, a + (b + c), a.len() as int, b + c);
        bytes::holds_within(s, at + a.len(), b + c, 0, b);
        bytes::holds_within(s, at + a.len(), b + c, b.len() as int, c);
        io::compressed_u32_round_trip(s, at, delta);
        span_reads(s, at + a.len(), p);
        start_reads(s, at + a.len() + b.len(), p, base, st);
        point_reads(s, at + a.len(), st, delta, p, b.len() as int, c.len() as int);
    }
}

proof fn point_reads(
    s: Seq<u8>,
    at: int,
    st: PointState,
    delta: u32,
    p: SequencePoint,
    b: int,
    c: int,
)
    requires
        bytes::wrapped32(st.offset + delta) == p.offset,
        p.start_line < 0x4000_0000,
        p.start_column < 0x4000_0000,
        p.start_line <= p.end_line < 0x4000_0000,
        -0x1000_0000 <= p.end_column - p.start_column < 0x1000_0000,
        p.end_line == p.start_line ==> p.end_column > p.start_column,
        span_at(s, at) == Some(
            ((p.end_line - p.start_line) as i32, (p.end_column - p.start_column) as i32, at + b),
        ),
        start_at(s, at + b, st) == Some((p.start_line as i32, p.start_column as i32, at + b + c)),
    ensures
        point_at(s, at, st, delta) == Some(
            (
                PointState {
                    document: st.document,
                    offset: p.offset,
                    start_line: p.start_line as i32,
                    start_column: p.start_column as i32,
                    fresh: false,
                    begun: true,
                },
                p,
                at + b + c,
            ),
        ),
{
    reveal(point_at);
}

/// The points with one document.
pub open spec fn in_document(points: Seq<SequencePoint>, document: u32) -> Seq<
    (SequencePoint, u32),
> {
    Seq::new(points.len(), |k: int| (points[k], document))
}

proof fn records_read(s: Seq<u8>, at: int, points: Seq<SequencePoint>, document: u32, k: int)
    requires
        regular_points(points),
        0 <= k <= points.len(),
        bytes::holds_at(s, at, bytes::joined(record_parts(points))),
        s.len() == at + bytes::joined(record_parts(points)).len(),
    ensures
        records_at(
            s,
            at + bytes::joined(record_parts(points).take(k)).len(),
            state_before(points, document, k),
        ) == Some(in_document(points, document).skip(k)),
    decreases points.len() - k,
{
    broadcast use record_fits;

    let parts = record_parts(points);
    let all = in_document(points, document);
    let here = at + bytes::joined(parts.take(k)).len();
    if k < points.len() {
        bytes::joined_part(parts, k);
        bytes::holds_within(
            s,
            at,
            bytes::joined(parts),
            bytes::joined(parts.take(k)).len() as int,
            parts[k],
        );
        record_reads(s, here, points, document, k);
        records_read(s, at, points, document, k + 1);
        assert(seq![all[k]] + all.skip(k + 1) =~= all.skip(k));
    } else {
        assert(parts.take(k) =~= parts);
        assert(all.skip(k) =~= Seq::<(SequencePoint, u32)>::empty());
    }
}

/// Sequence points read back from the stream that they were written as, all in
/// the document of the row.
pub proof fn points_round_trip(signature: u32, points: Seq<SequencePoint>, document: u32)
    requires
        regular_points(points),
        document != 0,
    ensures
        all_encodable(points),
        decoded_points(encoded_points(signature, points), document) == Some(
            (document, in_document(points, document)),
        ),
{
    assert forall|k: int| 0 <= k < points.len() implies encodable(
        #[trigger] points[k],
        base_before(points, k),
    ) by {
        assert(regular_point(points, k, points[k]));
    }
    let a = io::compressed_u32_bytes(signature);
    let b = bytes::joined(record_parts(points));
    let s = a + b;
    bytes::holds_in_concat(a, b, Seq::empty());
    io::compressed_u32_extent(s, 0, signature);
    records_read(s, a.len() as int, points, document, 0);
    assert(record_parts(points).take(0) =~= Seq::<Seq<u8>>::empty());
    assert(in_document(points, document).skip(0) =~= in_document(points, document));
}

} // verus!
