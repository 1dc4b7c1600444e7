//! Line-number tables: a byte program that builds up sequence points.

use vstd::prelude::*;

use crate::bytes;
use crate::error::{Error, ErrorKind};
use crate::io;
use crate::io::{ByteReader, ByteWriter};
use crate::mdb::encoding;
use crate::text::Message;

verus! {

broadcast use {crate::bytes::widths, crate::mdb::encoding::extents};

/// Copies the current position into the table.
pub const DW_LNS_COPY: u8 = 1;

/// Advances the IL offset.
pub const DW_LNS_ADVANCE_PC: u8 = 2;

/// Advances the line.
pub const DW_LNS_ADVANCE_LINE: u8 = 3;

/// Switches to another source file.
pub const DW_LNS_SET_FILE: u8 = 4;

/// Advances the IL offset by the largest step of a special opcode.
pub const DW_LNS_CONST_ADD_PC: u8 = 8;

/// Ends the program.
pub const DW_LNE_END_SEQUENCE: u8 = 1;

/// Switches between hidden and visible points.
pub const DW_LNE_MONO_NEGATE_IS_HIDDEN: u8 = 0x40;

/// The last opcode that is reserved for extensions.
pub const DW_LNE_MONO_EXTENSIONS_END: u8 = 0x7f;

/// One decoded sequence point of a line-number table.
#[derive(Debug, Clone, Copy, PartialEq, Eq)]
pub struct LntEntry {
    pub file: u32,
    pub row: i32,
    pub offset: i32,
    pub column: Option<i32>,
    pub end_row: Option<i32>,
    pub end_column: Option<i32>,
    pub is_hidden: bool,
}

/// How the special opcodes of a table are to be read.
#[derive(Debug, Clone, Copy, PartialEq, Eq)]
pub struct LineParams {
    pub line_base: i32,
    pub line_range: i32,
    pub opcode_base: i32,
}

/// Where a line program stands.
#[derive(Debug, Clone, Copy)]
pub struct LineState {
    pub file: u32,
    pub line: i32,
    pub offset: i32,
    pub hidden: bool,
    pub modified: bool,
}

impl LineParams {
    /// The parameters can be worked with.
    pub open spec fn sound(self) -> bool {
        self.line_range > 0 && 0 < self.opcode_base <= 255
    }

    /// The largest step of the IL offset in a special opcode.
    pub open spec fn largest_step(self) -> i32 {
        ((255 - self.opcode_base) / self.line_range as int) as i32
    }
}

impl LineState {
    /// The point where the program stands.
    pub open spec fn point(self) -> LntEntry {
        LntEntry {
            file: self.file,
            row: self.line,
            offset: self.offset,
            column: None,
            end_row: None,
            end_column: None,
            is_hidden: self.hidden,
        }
    }

    fn entry(&self) -> (e: LntEntry)
        ensures
            e == self.point(),
    {
        LntEntry {
            file: self.file,
            row: self.line,
            offset: self.offset,
            column: None,
            end_row: None,
            end_column: None,
            is_hidden: self.hidden,
        }
    }
}

/// Where every line program starts.
pub open spec fn initial_state() -> LineState {
    LineState { file: 1, line: 1, offset: 0, hidden: false, modified: false }
}

/// What one opcode does: where the next one stands, the new state, the points
/// that it adds, and whether the program ends.
pub struct Step {
    pub next: int,
    pub state: LineState,
    pub points: Seq<LntEntry>,
    pub done: bool,
}

/// What the extended opcode does whose size stands at `at`. It may be shorter
/// than its size says, but not longer, and the end of the program need not be
/// as long as it says.
pub open spec fn extended_step(s: Seq<u8>, at: int, st: LineState) -> Option<Step> {
    if at + 2 > s.len() {
        None
    } else {
        let code = s[at + 1];
        let end = at + 1 + s[at];
        if code == DW_LNE_END_SEQUENCE {
            Some(
                Step {
                    next: at + 2,
                    state: st,
                    points: if st.modified {
                        seq![st.point()]
                    } else {
                        Seq::empty()
                    },
                    done: true,
                },
            )
        } else if code < DW_LNE_MONO_NEGATE_IS_HIDDEN || code > DW_LNE_MONO_EXTENSIONS_END || end
            > s.len() {
            None
        } else {
            Some(
                Step {
                    next: end,
                    state: if code == DW_LNE_MONO_NEGATE_IS_HIDDEN {
                        LineState { hidden: !st.hidden, modified: true, ..st }
                    } else {
                        st
                    },
                    points: Seq::empty(),
                    done: false,
                },
            )
        }
    }
}

/// What the standard opcode does whose operand stands at `at`.
pub open spec fn standard_step(s: Seq<u8>, opcode: u8, at: int, p: LineParams, st: LineState) -> Option<
    Step,
> {
    if opcode == DW_LNS_COPY {
        Some(
            Step {
                next: at,
                state: LineState { modified: false, ..st },
                points: seq![st.point()],
                done: false,
            },
        )
    } else if opcode == DW_LNS_CONST_ADD_PC {
        Some(
            Step {
                next: at,
                state: LineState {
                    offset: bytes::wrapped32(st.offset + p.largest_step()),
                    modified: true,
                    ..st
                },
                points: Seq::empty(),
                done: false,
            },
        )
    } else if opcode == DW_LNS_ADVANCE_PC || opcode == DW_LNS_ADVANCE_LINE || opcode
        == DW_LNS_SET_FILE {
        match encoding::leb128_at(s, at) {
            None => None,
            Some((v, end)) => if opcode == DW_LNS_SET_FILE && v < 0 {
                None
            } else {
                Some(
                    Step {
                        next: end,
                        state: if opcode == DW_LNS_ADVANCE_PC {
                            LineState {
                                offset: bytes::wrapped32(st.offset + v),
                                modified: true,
                                ..st
                            }
                        } else if opcode == DW_LNS_ADVANCE_LINE {
                            LineState {
                                line: bytes::wrapped32(st.line + v),
                                modified: true,
                                ..st
                            }
                        } else {
                            LineState { file: v as u32, modified: true, ..st }
                        },
                        points: Seq::empty(),
                        done: false,
                    },
                )
            },
        }
    } else {
        None
    }
}

/// The state behind a special opcode, which advances the IL offset and the
/// line at once.
pub open spec fn special_state(opcode: u8, p: LineParams, st: LineState) -> LineState {
    let special = opcode - p.opcode_base;
    LineState {
        offset: bytes::wrapped32(st.offset + special / p.line_range as int),
        line: bytes::wrapped32(st.line + p.line_base + special % p.line_range as int),
        modified: false,
        ..st
    }
}

/// What the opcode at `at` does.
#[verifier::opaque]
pub open spec fn step_at(s: Seq<u8>, at: int, p: LineParams, st: LineState) -> Option<Step> {
    if at < 0 || at >= s.len() {
        None
    } else if s[at] == 0 {
        extended_step(s, at + 1, st)
    } else if s[at] < p.opcode_base {
        standard_step(s, s[at], at + 1, p, st)
    } else {
        let next = special_state(s[at], p, st);
        Some(Step { next: at + 1, state: next, points: seq![next.point()], done: false })
    }
}

/// The points of the program from `at` on, and where it ends.
pub open spec fn program_at(s: Seq<u8>, at: int, p: LineParams, st: LineState) -> Option<
    (Seq<LntEntry>, int),
>
    decreases s.len() - at,
{
    match step_at(s, at, p, st) {
        None => None,
        Some(step) => if step.done {
            Some((step.points, step.next))
        } else if step.next <= at || step.next > s.len() {
            None
        } else {
            match program_at(s, step.next, p, step.state) {
                None => None,
                Some((rest, end)) => Some((step.points + rest, end)),
            }
        },
    }
}

fn read_step(r: &mut ByteReader, p: &LineParams, st: &LineState) -> (x: Result<
    (LineState, Option<LntEntry>, bool),
    Error,
>)
    requires
        p.sound(),
    ensures
        final(r).data() == old(r).data(),
        match step_at(old(r).data(), old(r).pos() as int, *p, *st) {
            Some(step) => x is Ok && final(r).pos() == step.next && x->Ok_0.0 == step.state && (
            match x->Ok_0.1 {
                Some(e) => step.points == seq![e],
                None => step.points == Seq::<LntEntry>::empty(),
            }) && x->Ok_0.2 == step.done && old(r).pos() < step.next <= old(r).data().len(),
            None => x is Err && x->Err_0.kind() == ErrorKind::BadImage,
        },
{
    proof {
        reveal(step_at);
    }
    let mut next: LineState = *st;
    let opcode: u8 = r.u8()?;
    if opcode == 0 {
        let size: u8 = r.u8()?;
        let start: usize = r.position();
        let code: u8 = r.u8()?;
        if code == DW_LNE_END_SEQUENCE {
            return Ok(
                (
                    next,
                    if st.modified {
                        Some(st.entry())
                    } else {
                        None
                    },
                    true,
                ),
            );
        }
        if code == DW_LNE_MONO_NEGATE_IS_HIDDEN {
            next.hidden = !next.hidden;
            next.modified = true;
        } else if code < DW_LNE_MONO_NEGATE_IS_HIDDEN || code > DW_LNE_MONO_EXTENSIONS_END {
            return Err(
                Error::bad_image(
                    Message::new("mdb: unknown extended opcode 0x").hex(code as u64).text(
                        " in line-number table",
                    ).as_str(),
                ),
            );
        }
        if size as usize > r.len() - start {
            return Err(io::stopped(r.len(), start as u64, vec![io::Step::Skip(size as u64)]));
        }
        r.seek(start + size as usize)?;
        return Ok((next, None, false));
    }
    if (opcode as i32) < p.opcode_base {
        if opcode == DW_LNS_COPY {
            next.modified = false;
            return Ok((next, Some(st.entry()), false));
        }
        next.modified = true;
        if opcode == DW_LNS_CONST_ADD_PC {
            let largest: i32 = (255 - p.opcode_base) / p.line_range;
            next.offset = bytes::as_i32(bytes::as_wrapped_u32(st.offset as i64 + largest as i64));
        } else if opcode == DW_LNS_ADVANCE_PC {
            let v: i32 = encoding::read_leb128(r)?;
            next.offset = bytes::as_i32(bytes::as_wrapped_u32(st.offset as i64 + v as i64));
        } else if opcode == DW_LNS_ADVANCE_LINE {
            let v: i32 = encoding::read_leb128(r)?;
            next.line = bytes::as_i32(bytes::as_wrapped_u32(st.line as i64 + v as i64));
        } else if opcode == DW_LNS_SET_FILE {
            let v: i32 = encoding::read_leb128(r)?;
            if v < 0 {
                return Err(Error::bad_image("mdb: negative source-file index"));
            }
            next.file = v as u32;
        } else {
            return Err(
                Error::bad_image(
                    Message::new("mdb: unknown standard opcode 0x").hex(opcode as u64).text(
                        " in line-number table",
                    ).as_str(),
                ),
            );
        }
        return Ok((next, None, false));
    }
    let special: i32 = opcode as i32 - p.opcode_base;
    next.offset = bytes::as_i32(
        bytes::as_wrapped_u32(st.offset as i64 + (special / p.line_range) as i64),
    );
    next.line = bytes::as_i32(
        bytes::as_wrapped_u32(
            st.line as i64 + p.line_base as i64 + (special % p.line_range) as i64,
        ),
    );
    next.modified = false;
    let e = next.entry();
    Ok((next, Some(e), false))
}

fn read_program(r: &mut ByteReader, p: &LineParams) -> (x: Result<Vec<LntEntry>, Error>)
    requires
        p.sound(),
    ensures
        final(r).data() == old(r).data(),
        match program_at(old(r).data(), old(r).pos() as int, *p, initial_state()) {
            Some((points, end)) => x is Ok && x->Ok_0@ == points && final(r).pos() == end,
            None => x is Err && x->Err_0.kind() == ErrorKind::BadImage,
        },
{
    let mut st = LineState { file: 1, line: 1, offset: 0, hidden: false, modified: false };
    let mut entries: Vec<LntEntry> = Vec::new();
    let ghost s = r.data();
    let ghost whole = program_at(s, r.pos() as int, *p, initial_state());
    proof {
        if let Some((rest, end)) = whole {
            assert(entries@ + rest =~= rest);
        }
    }
    loop
        invariant
            p.sound(),
            r.data() == s,
            s == old(r).data(),
            whole == program_at(s, old(r).pos() as int, *p, initial_state()),
            whole == (match program_at(s, r.pos() as int, *p, st) {
                Some((rest, end)) => Some((entries@ + rest, end)),
                None => None,
            }),
        decreases s.len() - r.pos(),
    {
        let ghost before = entries@;
        let ghost step = step_at(s, r.pos() as int, *p, st);
        let (next, point, done) = read_step(r, p, &st)?;
        match point {
            Some(e) => entries.push(e),
            None => {},
        }
        proof {
            let points = step->Some_0.points;
            assert(entries@ =~= before + points);
            if let Some((rest, end)) = program_at(s, r.pos() as int, *p, next) {
                assert(before + (points + rest) =~= entries@ + rest);
            }
        }
        if done {
            return Ok(entries);
        }
        st = next;
    }
}

/// The points with the columns that stand from `at` on, one for each of them
/// whose line is not negative, from the `k`-th point on.
pub open spec fn columns_at(s: Seq<u8>, at: int, points: Seq<LntEntry>, k: int) -> Option<
    (Seq<LntEntry>, int),
>
    decreases points.len() - k,
{
    if k < 0 || k >= points.len() {
        Some((points, at))
    } else if points[k].row < 0 {
        columns_at(s, at, points, k + 1)
    } else {
        match encoding::leb128_at(s, at) {
            None => None,
            Some((v, end)) => columns_at(
                s,
                end,
                points.update(k, LntEntry { column: Some(v), ..points[k] }),
                k + 1,
            ),
        }
    }
}

/// The points with the end positions that stand from `at` on, one for each of
/// them, from the `k`-th point on.
pub open spec fn ends_at(s: Seq<u8>, at: int, points: Seq<LntEntry>, k: int) -> Option<
    (Seq<LntEntry>, int),
>
    decreases points.len() - k,
{
    if k < 0 || k >= points.len() {
        Some((points, at))
    } else {
        match encoding::leb128_at(s, at) {
            None => None,
            Some((delta, end)) => if delta == 0xff_ffff {
                ends_at(
                    s,
                    end,
                    points.update(k, LntEntry { end_row: None, end_column: None, ..points[k] }),
                    k + 1,
                )
            } else {
                match encoding::leb128_at(s, end) {
                    None => None,
                    Some((column, next)) => ends_at(
                        s,
                        next,
                        points.update(
                            k,
                            LntEntry {
                                end_row: Some(bytes::wrapped32(points[k].row + delta)),
                                end_column: Some(column),
                                ..points[k]
                            },
                        ),
                        k + 1,
                    ),
                }
            },
        }
    }
}

/// Whether columns follow the line program of a method with the flags.
pub open spec fn has_columns(flags: u32) -> bool {
    flags / 2 % 2 == 1
}

/// Whether end positions follow the line program of a method with the flags.
pub open spec fn has_ends(flags: u32) -> bool {
    flags / 4 % 2 == 1
}

/// The line-number table at `at` of a method with the flags.
pub open spec fn table_at(s: Seq<u8>, at: int, p: LineParams, flags: u32) -> Option<Seq<LntEntry>> {
    match program_at(s, at, p, initial_state()) {
        None => None,
        Some((points, end)) => {
            let columns = if has_columns(flags) {
                columns_at(s, end, points, 0)
            } else {
                Some((points, end))
            };
            match columns {
                None => None,
                Some((with_columns, next)) => {
                    let ends = if has_ends(flags) {
                        ends_at(s, next, with_columns, 0)
                    } else {
                        Some((with_columns, next))
                    };
                    match ends {
                        None => None,
                        Some((all, _)) => Some(all),
                    }
                },
            }
        },
    }
}

fn read_columns(r: &mut ByteReader, entries: &mut Vec<LntEntry>) -> (x: Result<(), Error>)
    ensures
        final(r).data() == old(r).data(),
        match columns_at(old(r).data(), old(r).pos() as int, old(entries)@, 0) {
            Some((points, end)) => x is Ok && final(entries)@ == points && final(r).pos() == end,
            None => x is Err && x->Err_0.kind() == ErrorKind::BadImage,
        },
{
    let n: usize = entries.len();
    let mut i: usize = 0;
    let ghost s = r.data();
    while i < n
        invariant
            i <= n,
            n == entries@.len(),
            r.data() == s,
            s == old(r).data(),
            columns_at(s, old(r).pos() as int, old(entries)@, 0) == columns_at(
                s,
                r.pos() as int,
                entries@,
                i as int,
            ),
        decreases n - i,
    {
        let mut e: LntEntry = entries[i];
        if e.row >= 0 {
            let v: i32 = encoding::read_leb128(r)?;
            e.column = Some(v);
            entries.set(i, e);
        }
        i += 1;
    }
    Ok(())
}

fn read_ends(r: &mut ByteReader, entries: &mut Vec<LntEntry>) -> (x: Result<(), Error>)
    ensures
        final(r).data() == old(r).data(),
        match ends_at(old(r).data(), old(r).pos() as int, old(entries)@, 0) {
            Some((points, end)) => x is Ok && final(entries)@ == points && final(r).pos() == end,
            None => x is Err && x->Err_0.kind() == ErrorKind::BadImage,
        },
{
    let n: usize = entries.len();
    let mut i: usize = 0;
    let ghost s = r.data();
    while i < n
        invariant
            i <= n,
            n == entries@.len(),
            r.data() == s,
            s == old(r).data(),
            ends_at(s, old(r).pos() as int, old(entries)@, 0) == ends_at(
                s,
                r.pos() as int,
                entries@,
                i as int,
            ),
        decreases n - i,
    {
        let mut e: LntEntry = entries[i];
        let delta: i32 = encoding::read_leb128(r)?;
        if delta == 0xff_ffff {
            e.end_row = None;
            e.end_column = None;
        } else {
            e.end_row = Some(bytes::as_i32(bytes::as_wrapped_u32(e.row as i64 + delta as i64)));
            let column: i32 = encoding::read_leb128(r)?;
            e.end_column = Some(column);
        }
        entries.set(i, e);
        i += 1;
    }
    Ok(())
}

/// Decodes the line-number table at `offset` of a method with the flags.
pub(crate) fn decode_line_number_table(data: &[u8], offset: usize, p: &LineParams, flags: u32) -> (x:
    Result<Vec<LntEntry>, Error>)
    requires
        p.line_range > 0,
        p.opcode_base > 0,
    ensures
        if p.opcode_base > 255 {
            x is Err && x->Err_0.kind() == ErrorKind::Unsupported
        } else {
            match table_at(data@, offset as int, *p, flags) {
                Some(points) => x is Ok && x->Ok_0@ == points,
                None => x is Err && x->Err_0.kind() == ErrorKind::BadImage,
            }
        },
{
    if p.opcode_base > 255 {
        return Err(Error::unsupported("mdb: line-number-table opcode base exceeds 255"));
    }
    let mut r = ByteReader::at(data, offset);
    let mut entries = read_program(&mut r, p)?;
    if flags / 2 % 2 == 1 {
        read_columns(&mut r, &mut entries)?;
    }
    if flags / 4 % 2 == 1 {
        read_ends(&mut r, &mut entries)?;
    }
    Ok(entries)
}

/// A sequence point to be written.
#[derive(Debug, Clone, Copy)]
pub struct LineEntry {
    pub file: u32,
    pub row: i32,
    /// `-1` where the column carries no information.
    pub column: i32,
    pub offset: i32,
}

/// The line bytes that the default encoding parameters stand for.
pub open spec fn default_params() -> LineParams {
    LineParams { line_base: (-1) as i32, line_range: 8, opcode_base: 9 }
}

/// The bytes that switch to another file.
pub open spec fn switch_bytes(file: u32, last: u32) -> Seq<u8> {
    if file != last {
        seq![DW_LNS_SET_FILE] + encoding::leb128_bytes(file)
    } else {
        Seq::empty()
    }
}

/// The bytes that advance the IL offset by what a special opcode cannot
/// express.
pub open spec fn jump_bytes(step: i32) -> Seq<u8> {
    if step < 30 {
        Seq::empty()
    } else if step < 60 {
        seq![DW_LNS_CONST_ADD_PC]
    } else {
        seq![DW_LNS_ADVANCE_PC] + encoding::leb128_bytes(bytes::u32_of(step))
    }
}

/// How far the IL offset is still to be advanced behind those bytes.
pub open spec fn jump_left(step: i32) -> i32 {
    if step < 30 {
        step
    } else if step < 60 {
        (step - 30) as i32
    } else {
        0
    }
}

/// The bytes that advance the line and the rest of the IL offset, and add the
/// point: a special opcode where it can express them.
pub open spec fn advance_bytes(line_step: i32, left: i32) -> Seq<u8> {
    if line_step < -1 || line_step >= 7 {
        seq![DW_LNS_ADVANCE_LINE] + encoding::leb128_bytes(bytes::u32_of(line_step)) + (if left
            != 0 {
            seq![DW_LNS_ADVANCE_PC] + encoding::leb128_bytes(bytes::u32_of(left))
        } else {
            Seq::empty()
        }) + seq![DW_LNS_COPY]
    } else {
        seq![((line_step + 1 + 8 * left + 9) % 0x100) as u8]
    }
}

/// The bytes that bring the program to the next point.
pub open spec fn point_bytes(e: LineEntry, line: i32, offset: i32, file: u32) -> Seq<u8> {
    let line_step = bytes::wrapped32(e.row - line);
    let offset_step = bytes::wrapped32(e.offset - offset);
    switch_bytes(e.file, file) + jump_bytes(offset_step) + advance_bytes(
        line_step,
        jump_left(offset_step),
    )
}

/// The point before the `k`-th one, or where the program starts.
pub open spec fn point_before(lines: Seq<LineEntry>, k: int) -> LineEntry {
    if k <= 0 {
        LineEntry { file: 1, row: 1, column: (-1) as i32, offset: 0 }
    } else {
        lines[k - 1]
    }
}

/// The bytes of the points.
pub open spec fn point_parts(lines: Seq<LineEntry>) -> Seq<Seq<u8>> {
    Seq::new(
        lines.len(),
        |k: int|
            {
                let before = point_before(lines, k);
                point_bytes(lines[k], before.row, before.offset, before.file)
            },
    )
}

/// The column bytes of the points: the column of each of them whose line is
/// not negative.
pub open spec fn column_parts(lines: Seq<LineEntry>) -> Seq<Seq<u8>> {
    Seq::new(
        lines.len(),
        |k: int|
            if lines[k].row >= 0 {
                encoding::leb128_bytes(bytes::u32_of(lines[k].column))
            } else {
                Seq::empty()
            },
    )
}

/// The bytes of a line-number table, with columns where the flags say so.
pub open spec fn table_bytes(lines: Seq<LineEntry>, flags: u32) -> Seq<u8> {
    bytes::joined(point_parts(lines)) + seq![0u8, 1, DW_LNE_END_SEQUENCE] + if has_columns(flags) {
        bytes::joined(column_parts(lines))
    } else {
        Seq::empty()
    }
}

fn write_advance(w: &mut ByteWriter, line_step: i32, left: i32)
    ensures
        final(w)@ == old(w)@ + advance_bytes(line_step, left),
{
    if line_step < -1 || line_step >= 7 {
        w.u8(DW_LNS_ADVANCE_LINE);
        encoding::write_leb128(w, bytes::as_u32(line_step));
        if left != 0 {
            w.u8(DW_LNS_ADVANCE_PC);
            encoding::write_leb128(w, bytes::as_u32(left));
        }
        w.u8(DW_LNS_COPY);
    } else {
        let value: i64 = line_step as i64 + 1 + 8 * left as i64 + 9;
        let low: u32 = bytes::as_wrapped_u32(value);
        proof {
            assert(low % 0x100 == value as int % 0x100) by {
                vstd::arithmetic::div_mod::lemma_mod_mod(value as int, 0x100, 0x100_0000);
            }
        }
        w.u8((low % 0x100) as u8);
    }
    proof {
        assert(w@ =~= old(w)@ + advance_bytes(line_step, left));
    }
}

fn write_point(w: &mut ByteWriter, e: &LineEntry, line: i32, offset: i32, file: u32)
    ensures
        final(w)@ == old(w)@ + point_bytes(*e, line, offset, file),
{
    let line_step: i32 = bytes::as_i32(bytes::as_wrapped_u32(e.row as i64 - line as i64));
    let offset_step: i32 = bytes::as_i32(bytes::as_wrapped_u32(e.offset as i64 - offset as i64));
    if e.file != file {
        w.u8(DW_LNS_SET_FILE);
        encoding::write_leb128(w, e.file);
    }
    let ghost switched = w@;
    proof {
        assert(switched =~= old(w)@ + switch_bytes(e.file, file));
    }
    let left: i32 = if offset_step < 30 {
        offset_step
    } else if offset_step < 60 {
        w.u8(DW_LNS_CONST_ADD_PC);
        offset_step - 30
    } else {
        w.u8(DW_LNS_ADVANCE_PC);
        encoding::write_leb128(w, bytes::as_u32(offset_step));
        0
    };
    let ghost jumped = w@;
    proof {
        assert(jumped =~= switched + jump_bytes(offset_step));
    }
    write_advance(w, line_step, left);
    proof {
        assert(w@ =~= old(w)@ + point_bytes(*e, line, offset, file));
    }
}

/// Encodes a line-number table with the default parameters. The source file of
/// each point travels as the operand of a file switch.
pub(crate) fn encode_line_number_table(w: &mut ByteWriter, lines: &Vec<LineEntry>, flags: u32)
    ensures
        final(w)@ == old(w)@ + table_bytes(lines@, flags),
{
    let ghost parts = point_parts(lines@);
    let n: usize = lines.len();
    let mut last = LineEntry { file: 1, row: 1, column: -1, offset: 0 };
    let mut i: usize = 0;
    proof {
        assert(parts.take(0) =~= Seq::<Seq<u8>>::empty());
        assert(w@ =~= old(w)@ + bytes::joined(parts.take(0)));
    }
    while i < n
        invariant
            i <= n,
            n == lines@.len(),
            parts == point_parts(lines@),
            last == point_before(lines@, i as int),
            w@ == old(w)@ + bytes::joined(parts.take(i as int)),
        decreases n - i,
    {
        write_point(w, &lines[i], last.row, last.offset, last.file);
        proof {
            bytes::joined_step(parts, i as int);
            assert(w@ =~= old(w)@ + bytes::joined(parts.take(i + 1)));
        }
        last = lines[i];
        i += 1;
    }
    w.u8(0);
    w.u8(1);
    w.u8(DW_LNE_END_SEQUENCE);
    let ghost columns = column_parts(lines@);
    let ghost front = w@;
    proof {
        assert(parts.take(n as int) =~= parts);
        assert(front =~= old(w)@ + bytes::joined(parts) + seq![0u8, 1, DW_LNE_END_SEQUENCE]);
        assert(columns.take(0) =~= Seq::<Seq<u8>>::empty());
        assert(w@ =~= front + bytes::joined(columns.take(0)));
    }
    if flags / 2 % 2 == 0 {
        proof {
            assert(w@ =~= old(w)@ + table_bytes(lines@, flags));
        }
        return ;
    }
    let mut j: usize = 0;
    while j < n
        invariant
            j <= n,
            n == lines@.len(),
            columns == column_parts(lines@),
            w@ == front + bytes::joined(columns.take(j as int)),
        decreases n - j,
    {
        if lines[j].row >= 0 {
            encoding::write_leb128(w, bytes::as_u32(lines[j].column));
        }
        proof {
            bytes::joined_step(columns, j as int);
            assert(w@ =~= front + bytes::joined(columns.take(j + 1)));
        }
        j += 1;
    }
    proof {
        assert(columns.take(n as int) =~= columns);
        assert(w@ =~= old(w)@ + table_bytes(lines@, flags));
    }
}

} // verus!
