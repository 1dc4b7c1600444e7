//! What decoding makes of encoded line-number tables.

use vstd::prelude::*;

use crate::bytes;
use crate::mdb::encoding;
use crate::mdb::lines;
use crate::mdb::lines::{LineEntry, LineParams, LineState, LntEntry, Step};

verus! {

broadcast use {crate::bytes::widths, crate::mdb::encoding::extents};

/// A distance leads back to the target.
proof fn distance_leads_back(target: i32, base: i32)
    ensures
        bytes::wrapped32(base + bytes::wrapped32(target - base)) == target,
{
    let m = 0x1_0000_0000int;
    let d = target - base;
    let step = bytes::wrapped32(d);
    assert(step == d || step == d - m || step == d + m);
    assert(bytes::low32(target as int) == bytes::low32(base + step)) by {
        vstd::arithmetic::div_mod::lemma_mod_multiples_vanish(1, target as int, m);
        vstd::arithmetic::div_mod::lemma_mod_multiples_vanish(-1, target as int, m);
    }
}

/// An opcode that adds no point only moves the program on.
proof fn silent_step(s: Seq<u8>, at: int, p: LineParams, st: LineState, next: int, to: LineState)
    requires
        lines::step_at(s, at, p, st) == Some(
            Step { next, state: to, points: Seq::empty(), done: false },
        ),
        at < next <= s.len(),
    ensures
        lines::program_at(s, at, p, st) == lines::program_at(s, next, p, to),
{
    if let Some((rest, end)) = lines::program_at(s, next, p, to) {
        assert(Seq::<LntEntry>::empty() + rest =~= rest);
    }
}

/// A standard opcode with an operand.
proof fn operand_step(s: Seq<u8>, at: int, p: LineParams, st: LineState, opcode: u8, v: u32)
    requires
        p == lines::default_params(),
        opcode == lines::DW_LNS_ADVANCE_PC || opcode == lines::DW_LNS_ADVANCE_LINE || (opcode
            == lines::DW_LNS_SET_FILE && v <= i32::MAX),
        bytes::holds_at(s, at, seq![opcode] + encoding::leb128_bytes(v)),
    ensures
        lines::program_at(s, at, p, st) == lines::program_at(
            s,
            at + 1 + encoding::leb128_bytes(v).len(),
            p,
            if opcode == lines::DW_LNS_ADVANCE_PC {
                LineState {
                    offset: bytes::wrapped32(st.offset + bytes::i32_of(v)),
                    modified: true,
                    ..st
                }
            } else if opcode == lines::DW_LNS_ADVANCE_LINE {
                LineState {
                    line: bytes::wrapped32(st.line + bytes::i32_of(v)),
                    modified: true,
                    ..st
                }
            } else {
                LineState { file: v, modified: true, ..st }
            },
        ),
{
    let head = seq![opcode];
    let tail = encoding::leb128_bytes(v);
    bytes::holds_in_concat(head, tail, Seq::empty());
    bytes::holds_within(s, at, head + tail, 1, tail);
    encoding::leb128_round_trip(s, at + 1, v);
    assert(s.subrange(at, at + (head + tail).len())[0] == s[at]);
    assert((head + tail)[0] == opcode);
    let next = at + 1 + tail.len();
    let to = if opcode == lines::DW_LNS_ADVANCE_PC {
        LineState {
            offset: bytes::wrapped32(st.offset + bytes::i32_of(v)),
            modified: true,
            ..st
        }
    } else if opcode == lines::DW_LNS_ADVANCE_LINE {
        LineState { line: bytes::wrapped32(st.line + bytes::i32_of(v)), modified: true, ..st }
    } else {
        LineState { file: v, modified: true, ..st }
    };
    reveal(lines::step_at);
    silent_step(s, at, p, st, next, to);
}

proof fn switch_reads(s: Seq<u8>, at: int, st: LineState, file: u32) -> (modified: bool)
    requires
        0 <= at,
        file <= i32::MAX,
        bytes::holds_at(s, at, lines::switch_bytes(file, st.file)),
    ensures
        lines::program_at(s, at, lines::default_params(), st) == lines::program_at(
            s,
            at + lines::switch_bytes(file, st.file).len(),
            lines::default_params(),
            LineState { file, modified, ..st },
        ),
{
    if file != st.file {
        operand_step(s, at, lines::default_params(), st, lines::DW_LNS_SET_FILE, file);
        true
    } else {
        st.modified
    }
}

proof fn const_add_reads(s: Seq<u8>, at: int, st: LineState)
    requires
        0 <= st.offset <= i32::MAX - 30,
        bytes::holds_at(s, at, seq![lines::DW_LNS_CONST_ADD_PC]),
    ensures
        lines::program_at(s, at, lines::default_params(), st) == lines::program_at(
            s,
            at + 1,
            lines::default_params(),
            LineState { offset: (st.offset + 30) as i32, modified: true, ..st },
        ),
{
    let p = lines::default_params();
    let to = LineState { offset: (st.offset + 30) as i32, modified: true, ..st };
    assert(s.subrange(at, at + 1)[0] == s[at]);
    assert(246int / 8int == 30);
    assert(p.line_range as int == 8int);
    assert(p.largest_step() == 30);
    assert(bytes::wrapped32(st.offset + 30) == st.offset + 30);
    let step = Step { next: at + 1, state: to, points: Seq::empty(), done: false };
    assert(lines::standard_step(s, 8, at + 1, p, st) == Some(step));
    assert(lines::step_at(s, at, p, st) == Some(step)) by {
        reveal(lines::step_at);
    }
    silent_step(s, at, p, st, at + 1, to);
}

proof fn jump_reads(s: Seq<u8>, at: int, st: LineState, step: i32) -> (modified: bool)
    requires
        0 <= at,
        0 <= step,
        0 <= st.offset,
        st.offset + step <= i32::MAX,
        bytes::holds_at(s, at, lines::jump_bytes(step)),
    ensures
        lines::program_at(s, at, lines::default_params(), st) == lines::program_at(
            s,
            at + lines::jump_bytes(step).len(),
            lines::default_params(),
            LineState {
                offset: (st.offset + step - lines::jump_left(step)) as i32,
                modified,
                ..st
            },
        ),
        0 <= lines::jump_left(step) < 30,
{
    let p = lines::default_params();
    if step < 30 {
        st.modified
    } else if step < 60 {
        const_add_reads(s, at, st);
        true
    } else {
        operand_step(s, at, p, st, lines::DW_LNS_ADVANCE_PC, bytes::u32_of(step));
        true
    }
}

/// What the opcode that adds the point does.
proof fn point_step(s: Seq<u8>, at: int, st: LineState, next: int, to: LineState, point: LntEntry)
    requires
        lines::step_at(s, at, lines::default_params(), st) == Some(
            Step { next, state: to, points: seq![point], done: false },
        ),
        at < next <= s.len(),
    ensures
        lines::program_at(s, at, lines::default_params(), st) == (match lines::program_at(
            s,
            next,
            lines::default_params(),
            to,
        ) {
            Some((rest, end)) => Some((seq![point] + rest, end)),
            None => None,
        }),
{
}

proof fn copy_reads(s: Seq<u8>, at: int, st: LineState)
    requires
        bytes::holds_at(s, at, seq![lines::DW_LNS_COPY]),
    ensures
        lines::program_at(s, at, lines::default_params(), st) == (match lines::program_at(
            s,
            at + 1,
            lines::default_params(),
            LineState { modified: false, ..st },
        ) {
            Some((rest, end)) => Some((seq![st.point()] + rest, end)),
            None => None,
        }),
{
    assert(s.subrange(at, at + 1)[0] == s[at]);
    reveal(lines::step_at);
    point_step(s, at, st, at + 1, LineState { modified: false, ..st }, st.point());
}

proof fn special_reads(s: Seq<u8>, at: int, st: LineState, line_step: i32, left: i32)
    requires
        0 <= left < 30,
        -1 <= line_step < 7,
        0 <= st.offset,
        st.offset + left <= i32::MAX,
        bytes::holds_at(s, at, lines::advance_bytes(line_step, left)),
    ensures
        ({
            let to = LineState {
                offset: (st.offset + left) as i32,
                line: bytes::wrapped32(st.line + line_step),
                modified: false,
                ..st
            };
            lines::program_at(s, at, lines::default_params(), st) == (match lines::program_at(
                s,
                at + 1,
                lines::default_params(),
                to,
            ) {
                Some((rest, end)) => Some((seq![to.point()] + rest, end)),
                None => None,
            })
        }),
{
    let p = lines::default_params();
    let v = line_step + 1 + 8 * left + 9;
    assert(9 <= v <= 255);
    assert(s.subrange(at, at + 1)[0] == s[at]);
    assert(s[at] == v);
    let to = LineState {
        offset: (st.offset + left) as i32,
        line: bytes::wrapped32(st.line + line_step),
        modified: false,
        ..st
    };
    assert((v - 9) / 8 == left);
    assert((v - 9) % 8 == line_step + 1);
    assert(lines::special_state(s[at], p, st) == to);
    reveal(lines::step_at);
    point_step(s, at, st, at + 1, to, to.point());
}

proof fn advance_reads(s: Seq<u8>, at: int, st: LineState, row: i32, left: i32)
    requires
        0 <= at,
        0 <= left < 30,
        0 <= st.offset,
        st.offset + left <= i32::MAX,
        bytes::holds_at(
            s,
            at,
            lines::advance_bytes(bytes::wrapped32(row - st.line), left),
        ),
    ensures
        ({
            let to = LineState {
                offset: (st.offset + left) as i32,
                line: row,
                modified: false,
                ..st
            };
            lines::program_at(s, at, lines::default_params(), st) == (match lines::program_at(
                s,
                at + lines::advance_bytes(bytes::wrapped32(row - st.line), left).len(),
                lines::default_params(),
                to,
            ) {
                Some((rest, end)) => Some((seq![to.point()] + rest, end)),
                None => None,
            })
        }),
{
    let p = lines::default_params();
    let line_step = bytes::wrapped32(row - st.line);
    distance_leads_back(row, st.line);
    if line_step < -1 || line_step >= 7 {
        let a = seq![lines::DW_LNS_ADVANCE_LINE] + encoding::leb128_bytes(
            bytes::u32_of(line_step),
        );
        let b = if left != 0 {
            seq![lines::DW_LNS_ADVANCE_PC] + encoding::leb128_bytes(bytes::u32_of(left))
        } else {
            Seq::empty()
        };
        let c = seq![lines::DW_LNS_COPY];
        let all = lines::advance_bytes(line_step, left);
        assert(all =~= a + b + c);
        bytes::holds_in_concat(a, b, c);
        bytes::holds_in_concat(a + b, c, Seq::empty());
        assert(bytes::holds_at(a, 0, a)) by {
            assert(a.subrange(0, a.len() as int) =~= a);
        }
        bytes::holds_extended(a, b, 0, a);
        bytes::holds_extended(a + b, c, 0, a);
        bytes::holds_within(s, at, all, 0, a);
        bytes::holds_within(s, at, all, a.len() as int, b);
        bytes::holds_within(s, at, all, (a + b).len() as int, c);
        operand_step(s, at, p, st, lines::DW_LNS_ADVANCE_LINE, bytes::u32_of(line_step));
        let st1 = LineState { line: row, modified: true, ..st };
        let at1 = at + a.len();
        let st2 = LineState { offset: (st.offset + left) as i32, ..st1 };
        if left != 0 {
            operand_step(s, at1, p, st1, lines::DW_LNS_ADVANCE_PC, bytes::u32_of(left));
        }
        copy_reads(s, at1 + b.len(), st2);
    } else {
        special_reads(s, at, st, line_step, left);
    }
}

/// One point reads back.
proof fn point_reads(s: Seq<u8>, at: int, e: LineEntry, st: LineState)
    requires
        0 <= at,
        !st.hidden,
        e.file <= i32::MAX,
        0 <= st.offset <= e.offset,
        bytes::holds_at(s, at, lines::point_bytes(e, st.line, st.offset, st.file)),
    ensures
        ({
            let to = LineState {
                file: e.file,
                line: e.row,
                offset: e.offset,
                hidden: false,
                modified: false,
            };
            lines::program_at(s, at, lines::default_params(), st) == (match lines::program_at(
                s,
                at + lines::point_bytes(e, st.line, st.offset, st.file).len(),
                lines::default_params(),
                to,
            ) {
                Some((rest, end)) => Some((seq![to.point()] + rest, end)),
                None => None,
            })
        }),
{
    let step = bytes::wrapped32(e.offset - st.offset);
    assert(step == e.offset - st.offset);
    let left = lines::jump_left(step);
    let a = lines::switch_bytes(e.file, st.file);
    let b = lines::jump_bytes(step);
    let c = lines::advance_bytes(bytes::wrapped32(e.row - st.line), left);
    let all = lines::point_bytes(e, st.line, st.offset, st.file);
    bytes::holds_in_concat(a, b, c);
    bytes::holds_in_concat(a + b, c, Seq::empty());
    bytes::holds_in_concat(a, b + c, Seq::empty());
    assert(all =~= a + b + c);
    assert(all =~= a + (b + c));
    bytes::holds_within(s, at, all, 0, a);
    bytes::holds_within(s, at, all, a.len() as int, b);
    bytes::holds_within(s, at, all, (a + b).len() as int, c);
    let m1 = switch_reads(s, at, st, e.file);
    let st1 = LineState { file: e.file, modified: m1, ..st };
    let at1 = at + a.len();
    let m2 = jump_reads(s, at1, st1, step);
    let st2 = LineState { offset: (st.offset + step - left) as i32, modified: m2, ..st1 };
    advance_reads(s, at1 + b.len(), st2, e.row, left);
}

/// The points as they are decoded, without columns.
pub open spec fn plain_points(table: Seq<LineEntry>) -> Seq<LntEntry> {
    Seq::new(
        table.len(),
        |k: int|
            LntEntry {
                file: table[k].file,
                row: table[k].row,
                offset: table[k].offset,
                column: None,
                end_row: None,
                end_column: None,
                is_hidden: false,
            },
    )
}

/// The points as they are decoded: where the flags say that columns follow, with
/// the column of every line that is not negative.
pub open spec fn decoded_points(table: Seq<LineEntry>, flags: u32) -> Seq<LntEntry> {
    Seq::new(
        table.len(),
        |k: int|
            LntEntry {
                column: if lines::has_columns(flags) && table[k].row >= 0 {
                    Some(table[k].column)
                } else {
                    None
                },
                ..plain_points(table)[k]
            },
    )
}

/// The IL offsets do not go back, the first one is not negative, and the file
/// numbers fit.
pub open spec fn regular_lines(table: Seq<LineEntry>) -> bool {
    forall|k: int|
        #![trigger table[k]]
        0 <= k < table.len() ==> table[k].file <= i32::MAX && 0 <= lines::point_before(
            table,
            k,
        ).offset <= table[k].offset
}

spec fn state_before(table: Seq<LineEntry>, k: int) -> LineState {
    let e = lines::point_before(table, k);
    LineState { file: e.file, line: e.row, offset: e.offset, hidden: false, modified: false }
}

proof fn program_reads(s: Seq<u8>, at: int, table: Seq<LineEntry>, k: int)
    requires
        0 <= k <= table.len(),
        regular_lines(table),
        bytes::holds_at(
            s,
            at,
            bytes::joined(lines::point_parts(table)) + seq![0u8, 1, lines::DW_LNE_END_SEQUENCE],
        ),
    ensures
        lines::program_at(
            s,
            at + bytes::joined(lines::point_parts(table).take(k)).len(),
            lines::default_params(),
            state_before(table, k),
        ) == Some(
            (
                plain_points(table).skip(k),
                at + bytes::joined(lines::point_parts(table)).len() + 3,
            ),
        ),
    decreases table.len() - k,
{
    let parts = lines::point_parts(table);
    let body = bytes::joined(parts);
    let end = seq![0u8, 1, lines::DW_LNE_END_SEQUENCE];
    let here = at + bytes::joined(parts.take(k)).len();
    bytes::holds_in_concat(body, end, Seq::empty());
    bytes::holds_within(s, at, body + end, 0, body);
    bytes::holds_within(s, at, body + end, body.len() as int, end);
    if k == table.len() {
        assert(parts.take(k) =~= parts);
        assert(plain_points(table).skip(k) =~= Seq::<LntEntry>::empty());
        assert(s.subrange(here, here + 3)[0] == s[here]);
        assert(s.subrange(here, here + 3)[1] == s[here + 1]);
        assert(s.subrange(here, here + 3)[2] == s[here + 2]);
        reveal(lines::step_at);
    } else {
        program_reads(s, at, table, k + 1);
        bytes::joined_part(parts, k);
        bytes::holds_within(s, at, body, bytes::joined(parts.take(k)).len() as int, parts[k]);
        let before = lines::point_before(table, k);
        assert(table[k].file <= i32::MAX);
        point_reads(s, here, table[k], state_before(table, k));
        assert(seq![plain_points(table)[k]] + plain_points(table).skip(k + 1)
            =~= plain_points(table).skip(k));
    }
}

spec fn points_upto(table: Seq<LineEntry>, k: int) -> Seq<LntEntry> {
    Seq::new(
        table.len(),
        |i: int|
            if i < k {
                decoded_points(table, 2)[i]
            } else {
                plain_points(table)[i]
            },
    )
}

proof fn columns_read(s: Seq<u8>, at: int, table: Seq<LineEntry>, k: int)
    requires
        0 <= k <= table.len(),
        bytes::holds_at(s, at, bytes::joined(lines::column_parts(table))),
    ensures
        lines::columns_at(
            s,
            at + bytes::joined(lines::column_parts(table).take(k)).len(),
            points_upto(table, k),
            k,
        ) == Some(
            (
                decoded_points(table, 2),
                at + bytes::joined(lines::column_parts(table)).len(),
            ),
        ),
    decreases table.len() - k,
{
    let parts = lines::column_parts(table);
    let here = at + bytes::joined(parts.take(k)).len();
    if k == table.len() {
        assert(parts.take(k) =~= parts);
        assert(points_upto(table, k) =~= decoded_points(table, 2));
    } else {
        columns_read(s, at, table, k + 1);
        bytes::joined_part(parts, k);
        bytes::holds_within(
            s,
            at,
            bytes::joined(parts),
            bytes::joined(parts.take(k)).len() as int,
            parts[k],
        );
        let points = points_upto(table, k);
        if table[k].row >= 0 {
            let column = table[k].column;
            encoding::leb128_round_trip(s, here, bytes::u32_of(column));
            bytes::signed_round_trip(0, 0, column, 0);
            assert(points.update(k, LntEntry { column: Some(column), ..points[k] })
                =~= points_upto(table, k + 1));
        } else {
            assert(points =~= points_upto(table, k + 1));
        }
    }
}

/// An encoded line-number table decodes to the points that were encoded, with
/// their columns where these were written. This holds of IL offsets from zero
/// on that do not go back, and of flags that do not ask for end positions,
/// which are not written.
pub proof fn table_round_trip(s: Seq<u8>, at: int, table: Seq<LineEntry>, flags: u32)
    requires
        regular_lines(table),
        !lines::has_ends(flags),
        bytes::holds_at(s, at, lines::table_bytes(table, flags)),
    ensures
        lines::table_at(s, at, lines::default_params(), flags) == Some(
            decoded_points(table, flags),
        ),
{
    let body = bytes::joined(lines::point_parts(table));
    let end = seq![0u8, 1, lines::DW_LNE_END_SEQUENCE];
    let all = lines::table_bytes(table, flags);
    let columns = if lines::has_columns(flags) {
        bytes::joined(lines::column_parts(table))
    } else {
        Seq::empty()
    };
    assert(all == body + end + columns);
    bytes::holds_in_concat(body + end, columns, Seq::empty());
    bytes::holds_within(s, at, all, 0, body + end);
    bytes::holds_within(s, at, all, (body + end).len() as int, columns);
    program_reads(s, at, table, 0);
    assert(lines::point_parts(table).take(0) =~= Seq::<Seq<u8>>::empty());
    assert(plain_points(table).skip(0) =~= plain_points(table));
    if lines::has_columns(flags) {
        columns_read(s, at + body.len() + 3, table, 0);
        assert(lines::column_parts(table).take(0) =~= Seq::<Seq<u8>>::empty());
        assert(points_upto(table, 0) =~= plain_points(table));
        assert(decoded_points(table, flags) =~= decoded_points(table, 2));
    } else {
        assert(decoded_points(table, flags) =~= plain_points(table));
    }
}

} // verus!
