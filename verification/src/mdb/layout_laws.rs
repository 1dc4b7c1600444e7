//! Where the fields of a symbol file stand, and what the opcodes of its line
//! programs do.

use vstd::prelude::*;

use crate::bytes;
use crate::encoding_laws;
use crate::error::ErrorKind;
use crate::mdb::encoding;
use crate::mdb::lines;
use crate::mdb::lines::{LineParams, LineState, LntEntry};
use crate::mdb::reader;
use crate::mdb::reader::{LocalView, MdbView};

verus! {

/// A number is read in groups of seven bits, the lowest first; the highest bit of
/// a byte says that another one follows.
pub proof fn short_numbers_are_read(s: Seq<u8>, at: int)
    requires
        0 <= at < s.len(),
    ensures
        s[at] & 0x80 == 0 ==> encoding::leb128_at(s, at) == Some((s[at] as i32, at + 1)),
        at + 1 < s.len() && s[at] & 0x80 != 0 && s[at + 1] & 0x80 == 0 ==> encoding::leb128_at(s, at)
            == Some((((s[at] & 0x7F) + 0x80 * s[at + 1]) as i32, at + 2)),
        at + 2 < s.len() && s[at] & 0x80 != 0 && s[at + 1] & 0x80 != 0 && s[at + 2] & 0x80 == 0
            ==> encoding::leb128_at(s, at) == Some(
            (((s[at] & 0x7F) + 0x80 * (s[at + 1] & 0x7F) + 0x4000 * s[at + 2]) as i32, at + 3),
        ),
        at + 1 == s.len() && s[at] & 0x80 != 0 ==> encoding::leb128_at(s, at) is None,
{
    reveal(encoding::leb128_at);
    reveal_with_fuel(encoding::groups_at, 4);
    let (a, b, c) = (s[at], s[at + 1], s[at + 2]);
    assert((a & 0x80 == 0) == (a < 0x80) && (b & 0x80 == 0) == (b < 0x80) && (c & 0x80 == 0) == (c
        < 0x80) && a & 0x7F == a % 0x80 && b & 0x7F == b % 0x80) by (bit_vector);
}

/// A number of five bytes has four bits left in the last one, of which the
/// highest is the sign.
pub proof fn long_numbers_are_read(s: Seq<u8>, at: int)
    requires
        0 <= at,
        at + 4 < s.len(),
        s[at] >= 0x80,
        s[at + 1] >= 0x80,
        s[at + 2] >= 0x80,
    ensures
        ({
            let low = (s[at] - 0x80) + 0x80 * (s[at + 1] - 0x80) + 0x4000 * (s[at + 2] - 0x80);
            &&& s[at + 3] < 0x80 ==> encoding::leb128_at(s, at) == Some(
                ((low + 0x20_0000 * s[at + 3]) as i32, at + 4),
            )
            &&& s[at + 3] >= 0x80 && s[at + 4] < 0x08 ==> encoding::leb128_at(s, at) == Some(
                (
                    (low + 0x20_0000 * (s[at + 3] - 0x80) + 0x1000_0000 * s[at + 4]) as i32,
                    at + 5,
                ),
            )
            &&& s[at + 3] >= 0x80 && 0x08 <= s[at + 4] < 0x10 ==> encoding::leb128_at(s, at) == Some(
                (
                    (low + 0x20_0000 * (s[at + 3] - 0x80) + 0x1000_0000 * s[at + 4]
                        - 0x1_0000_0000) as i32,
                    at + 5,
                ),
            )
            &&& s[at + 3] >= 0x80 && s[at + 4] >= 0x80 ==> encoding::leb128_at(s, at) is None
        }),
{
    reveal(encoding::leb128_at);
    let (a, b, c, d, e) = (s[at], s[at + 1], s[at + 2], s[at + 3], s[at + 4]);
    let low = (a - 0x80) + 0x80 * (b - 0x80) + 0x4000 * (c - 0x80);
    if d < 0x80 {
        assert(encoding::groups_at(s, at + 3, 3) == Some(((0x20_0000 * d) as u32, at + 4)));
        groups_add_up(s, at, (0x20_0000 * d) as u32, at + 4);
    } else if e < 0x10 {
        assert(encoding::groups_at(s, at + 4, 4) == Some(((0x1000_0000 * e) as u32, at + 5)));
        let v = (0x20_0000 * (d - 0x80) + 0x1000_0000 * e) as u32;
        assert(encoding::groups_at(s, at + 3, 3) == Some((v, at + 5)));
        groups_add_up(s, at, v, at + 5);
    } else if e >= 0x80 {
        assert(encoding::groups_at(s, at + 5, 5) is None);
        assert(encoding::groups_at(s, at + 4, 4) is None);
        assert(encoding::groups_at(s, at + 3, 3) is None);
        assert(encoding::groups_at(s, at + 2, 2) is None);
        assert(encoding::groups_at(s, at + 1, 1) is None);
    }
}

proof fn groups_add_up(s: Seq<u8>, at: int, high: u32, end: int)
    requires
        0 <= at,
        at + 4 < s.len(),
        s[at] >= 0x80,
        s[at + 1] >= 0x80,
        s[at + 2] >= 0x80,
        encoding::groups_at(s, at + 3, 3) == Some((high, end)),
        high % 0x20_0000 == 0,
    ensures
        encoding::groups_at(s, at, 0) == Some(
            (
                ((s[at] - 0x80) + 0x80 * (s[at + 1] - 0x80) + 0x4000 * (s[at + 2] - 0x80) + high) as u32,
                end,
            ),
        ),
        (s[at] - 0x80) + 0x80 * (s[at + 1] - 0x80) + 0x4000 * (s[at + 2] - 0x80) + high
            <= 0xFFFF_FFFF,
{
    let c = (0x4000 * (s[at + 2] - 0x80) + high) as u32;
    assert(encoding::groups_at(s, at + 2, 2) == Some((c, end)));
    let b = (0x80 * (s[at + 1] - 0x80) + c) as u32;
    assert(encoding::groups_at(s, at + 1, 1) == Some((b, end)));
}

/// The numbers that mark the opcodes of a line program.
pub proof fn line_opcodes()
    ensures
        lines::DW_LNS_COPY == 1,
        lines::DW_LNS_ADVANCE_PC == 2,
        lines::DW_LNS_ADVANCE_LINE == 3,
        lines::DW_LNS_SET_FILE == 4,
        lines::DW_LNS_CONST_ADD_PC == 8,
        lines::DW_LNE_END_SEQUENCE == 1,
        lines::DW_LNE_MONO_NEGATE_IS_HIDDEN == 0x40,
        lines::DW_LNE_MONO_EXTENSIONS_END == 0x7F,
{
}

/// A program starts at the first line of the first file, at the offset zero.
pub proof fn programs_start()
    ensures
        lines::initial_state() == (LineState {
            file: 1,
            line: 1,
            offset: 0,
            hidden: false,
            modified: false,
        }),
        lines::default_params().line_base == -1,
        lines::default_params().line_range == 8,
        lines::default_params().opcode_base == 9,
        lines::default_params().largest_step() == 30,
{
}

/// The point at a state.
pub open spec fn plain_point(file: u32, row: i32, offset: i32, hidden: bool) -> LntEntry {
    LntEntry {
        file,
        row,
        offset,
        column: None,
        end_row: None,
        end_column: None,
        is_hidden: hidden,
    }
}

/// A special opcode advances the offset and the line at once and adds a point:
/// its distance from the base, divided by the range, is the step of the offset,
/// and the remainder plus the line base that of the line.
pub proof fn special_opcodes(
    s: Seq<u8>,
    at: int,
    p: LineParams,
    st: LineState,
    offset_step: int,
    line_step: int,
)
    requires
        0 <= at < s.len(),
        p.line_range > 0,
        0 < p.opcode_base <= s[at],
        0 <= line_step < p.line_range,
        0 <= offset_step,
        s[at] == p.opcode_base + p.line_range * offset_step + line_step,
        0 <= st.offset < 0x4000_0000,
        0 <= st.line < 0x4000_0000,
        -0x4000_0000 <= st.line + p.line_base + line_step < 0x4000_0000,
    ensures
        lines::step_at(s, at, p, st) matches Some(step) && {
            &&& step.next == at + 1
            &&& !step.done
            &&& step.state == (LineState {
                file: st.file,
                line: (st.line + p.line_base + line_step) as i32,
                offset: (st.offset + offset_step) as i32,
                hidden: st.hidden,
                modified: false,
            })
            &&& step.points == seq![
                plain_point(
                    st.file,
                    (st.line + p.line_base + line_step) as i32,
                    (st.offset + offset_step) as i32,
                    st.hidden,
                ),
            ]
        },
{
    reveal(lines::step_at);
    let special = s[at] - p.opcode_base;
    assert(special == offset_step * p.line_range + line_step) by (nonlinear_arith)
        requires
            special == p.line_range * offset_step + line_step,
    ;
    vstd::arithmetic::div_mod::lemma_fundamental_div_mod_converse(
        special,
        p.line_range as int,
        offset_step,
        line_step,
    );
    assert(offset_step <= 255) by (nonlinear_arith)
        requires
            special == p.line_range * offset_step + line_step,
            p.line_range > 0,
            0 <= offset_step,
            0 <= line_step,
            special <= 255,
    ;
    in_range_is_kept(st.offset + offset_step);
    in_range_is_kept(st.line + p.line_base + line_step);
}

proof fn in_range_is_kept(n: int)
    requires
        i32::MIN <= n <= i32::MAX,
    ensures
        bytes::wrapped32(n) == n,
{
}

/// The standard opcodes: `1` adds a point, `2` advances the offset, `3` the line,
/// `4` sets the file, and `8` advances the offset by the largest step. Others are
/// refused.
pub proof fn standard_opcodes(
    s: Seq<u8>,
    at: int,
    p: LineParams,
    st: LineState,
    v: i32,
    end: int,
)
    requires
        0 <= at < s.len(),
        0 < s[at] < p.opcode_base,
        p.opcode_base <= 255,
        p.line_range > 0,
        encoding::leb128_at(s, at + 1) == Some((v, end)),
        0 <= st.offset < 0x4000_0000,
        0 <= st.line < 0x4000_0000,
        -0x4000_0000 <= v < 0x4000_0000,
    ensures
        s[at] == 1 ==> (lines::step_at(s, at, p, st) matches Some(step) && step.next == at + 1
            && !step.done && step.points == seq![
            plain_point(st.file, st.line, st.offset, st.hidden),
        ] && step.state == (LineState { modified: false, ..st })),
        s[at] == 2 ==> (lines::step_at(s, at, p, st) matches Some(step) && step.next == end
            && !step.done && step.points.len() == 0 && step.state == (LineState {
            offset: (st.offset + v) as i32,
            modified: true,
            ..st
        })),
        s[at] == 3 ==> (lines::step_at(s, at, p, st) matches Some(step) && step.next == end
            && !step.done && step.points.len() == 0 && step.state == (LineState {
            line: (st.line + v) as i32,
            modified: true,
            ..st
        })),
        s[at] == 4 && v >= 0 ==> (lines::step_at(s, at, p, st) matches Some(step) && step.next == end
            && !step.done && step.points.len() == 0 && step.state == (LineState {
            file: v as u32,
            modified: true,
            ..st
        })),
        s[at] == 4 && v < 0 ==> lines::step_at(s, at, p, st) is None,
        s[at] == 8 ==> (lines::step_at(s, at, p, st) matches Some(step) && step.next == at + 1
            && !step.done && step.points.len() == 0 && step.state == (LineState {
            offset: (st.offset + (255 - p.opcode_base) / p.line_range as int) as i32,
            modified: true,
            ..st
        })),
        s[at] > 8 || 5 <= s[at] <= 7 ==> lines::step_at(s, at, p, st) is None,
{
    reveal(lines::step_at);
    in_range_is_kept(st.offset + v);
    in_range_is_kept(st.line + v);
    let q = (255 - p.opcode_base) / p.line_range as int;
    assert(0 <= q <= 255) by (nonlinear_arith)
        requires
            q == (255 - p.opcode_base) / p.line_range as int,
            0 < p.opcode_base <= 255,
            p.line_range > 0,
    ;
    in_range_is_kept(st.offset + q);
}

/// The extended opcodes: `1` ends the program, with a last point if something
/// changed behind the one before, and `0x40` hides and shows lines. Those up to
/// `0x7F` are skipped, and others refused.
pub proof fn extended_opcodes(s: Seq<u8>, at: int, p: LineParams, st: LineState)
    requires
        0 <= at,
        at + 2 < s.len(),
        s[at] == 0,
    ensures
        s[at + 2] == 1 ==> (lines::step_at(s, at, p, st) matches Some(step) && step.done && step.next
            == at + 3 && (st.modified ==> step.points == seq![
            plain_point(st.file, st.line, st.offset, st.hidden),
        ]) && (!st.modified ==> step.points.len() == 0)),
        s[at + 2] == 0x40 && at + 2 + s[at + 1] <= s.len() ==> (lines::step_at(s, at, p, st) matches Some(
            step,
        ) && !step.done && step.next == at + 2 + s[at + 1] && step.points.len() == 0 && step.state
            == (LineState { hidden: !st.hidden, modified: true, ..st })),
        0x40 < s[at + 2] <= 0x7F && at + 2 + s[at + 1] <= s.len() ==> (lines::step_at(
            s,
            at,
            p,
            st,
        ) matches Some(step) && !step.done && step.next == at + 2 + s[at + 1] && step.points.len()
            == 0 && step.state == st),
        s[at + 2] == 0 || 1 < s[at + 2] < 0x40 || s[at + 2] >= 0x80 ==> lines::step_at(s, at, p, st) is None,
{
    reveal(lines::step_at);
}

/// The flags of a method: bit 1 for columns and bit 2 for end positions.
pub proof fn method_flags(flags: u32)
    ensures
        lines::has_columns(flags) <==> flags & 2 != 0,
        lines::has_ends(flags) <==> flags & 4 != 0,
{
    assert((flags & 2 != 0) == (flags / 2 % 2 == 1) && (flags & 4 != 0) == (flags / 4 % 2 == 1))
        by (bit_vector);
}

/// A point gets the column that stands for it, unless its line is negative.
pub proof fn columns_are_read(s: Seq<u8>, at: int, point: LntEntry, v: i32, end: int)
    requires
        encoding::leb128_at(s, at) == Some((v, end)),
    ensures
        point.row >= 0 ==> lines::columns_at(s, at, seq![point], 0) == Some(
            (seq![LntEntry { column: Some(v), ..point }], end),
        ),
        point.row < 0 ==> lines::columns_at(s, at, seq![point], 0) == Some((seq![point], at)),
{
    reveal_with_fuel(lines::columns_at, 2);
    assert(seq![point].update(0, LntEntry { column: Some(v), ..point }) =~= seq![
        LntEntry { column: Some(v), ..point },
    ]);
}

/// A point gets the end that stands for it, counted from its line; `0xFFFFFF`
/// stands for none.
pub proof fn ends_are_read(
    s: Seq<u8>,
    at: int,
    point: LntEntry,
    delta: i32,
    a: int,
    column: i32,
    b: int,
)
    requires
        encoding::leb128_at(s, at) == Some((delta, a)),
        encoding::leb128_at(s, a) == Some((column, b)),
        i32::MIN <= point.row + delta <= i32::MAX,
    ensures
        delta == 0xFF_FFFF ==> lines::ends_at(s, at, seq![point], 0) == Some(
            (seq![LntEntry { end_row: None, end_column: None, ..point }], a),
        ),
        delta != 0xFF_FFFF ==> lines::ends_at(s, at, seq![point], 0) == Some(
            (
                seq![
                    LntEntry {
                        end_row: Some((point.row + delta) as i32),
                        end_column: Some(column),
                        ..point
                    },
                ],
                b,
            ),
        ),
{
    reveal_with_fuel(lines::ends_at, 2);
    in_range_is_kept(point.row + delta);
    let none = LntEntry { end_row: None, end_column: None, ..point };
    let some = LntEntry {
        end_row: Some((point.row + delta) as i32),
        end_column: Some(column),
        ..point
    };
    assert(seq![point].update(0, none) =~= seq![none]);
    assert(seq![point].update(0, some) =~= seq![some]);
}

/// A symbol file starts with its magic number.
pub proof fn file_magic(s: Seq<u8>)
    requires
        reader::parsed_mdb(s) is Some,
    ensures
        s.len() >= 112,
        s.subrange(0, 8) == seq![
            0x14u8,
            0xA6u8,
            0x7Fu8,
            0xFDu8,
            0x23u8,
            0x26u8,
            0xE8u8,
            0x45u8,
        ],
{
    assert(bytes::u64_at(s, 0) == 0x45e8_2623_fd7f_a614);
    magic_bytes(s);
}

proof fn magic_bytes(s: Seq<u8>)
    requires
        s.len() >= 8,
        bytes::u64_at(s, 0) == 0x45e8_2623_fd7f_a614,
    ensures
        s.subrange(0, 8) == seq![
            0x14u8,
            0xA6u8,
            0x7Fu8,
            0xFDu8,
            0x23u8,
            0x26u8,
            0xE8u8,
            0x45u8,
        ],
{
    let lo = bytes::u32_at(s, 0);
    let hi = bytes::u32_at(s, 4);
    assert(lo + 0x1_0000_0000 * hi == 0x45e8_2623_fd7f_a614) by {
        reveal(bytes::u64_at);
    }
    assert(lo == 0xfd7f_a614 && hi == 0x45e8_2623);
    assert(lo == encoding_laws::double_word(s, 0) && hi == encoding_laws::double_word(s, 4)) by {
        encoding_laws::words_agree(s);
    }
    four_bytes(s[0], s[1], s[2], s[3]);
    four_bytes(s[4], s[5], s[6], s[7]);
    assert(s.subrange(0, 8) =~= seq![
        0x14u8,
        0xA6u8,
        0x7Fu8,
        0xFDu8,
        0x23u8,
        0x26u8,
        0xE8u8,
        0x45u8,
    ]);
}

proof fn four_bytes(a: u8, b: u8, c: u8, d: u8)
    ensures
        a + 0x100 * b + 0x1_0000 * c + 0x100_0000 * d == 0xfd7f_a614 ==> a == 0x14 && b == 0xA6 && c
            == 0x7F && d == 0xFD,
        a + 0x100 * b + 0x1_0000 * c + 0x100_0000 * d == 0x45e8_2623 ==> a == 0x23 && b == 0x26 && c
            == 0xE8 && d == 0x45,
{
}

/// The version stands at 8, the identifier at 16 and the offset table at 32.
pub proof fn file_fields(s: Seq<u8>)
    requires
        reader::parsed_mdb(s) is Some,
    ensures
        s.len() >= 112,
        ({
            let v = reader::parsed_mdb(s)->Some_0;
            &&& v.data == s
            &&& v.major_version == encoding_laws::signed_double_word(s, 8)
            &&& v.major_version >= 50
            &&& v.minor_version == encoding_laws::signed_double_word(s, 12)
            &&& v.guid == s.subrange(16, 32)
            &&& v.offsets.total_file_size == encoding_laws::signed_double_word(s, 32)
            &&& v.offsets.data_section_offset == encoding_laws::signed_double_word(s, 36)
            &&& v.offsets.data_section_size == encoding_laws::signed_double_word(s, 40)
            &&& v.offsets.compile_unit_count == encoding_laws::signed_double_word(s, 44)
            &&& v.offsets.compile_unit_table_offset == encoding_laws::signed_double_word(s, 48)
            &&& v.offsets.compile_unit_table_size == encoding_laws::signed_double_word(s, 52)
            &&& v.offsets.source_count == encoding_laws::signed_double_word(s, 56)
            &&& v.offsets.source_table_offset == encoding_laws::signed_double_word(s, 60)
            &&& v.offsets.source_table_size == encoding_laws::signed_double_word(s, 64)
            &&& v.offsets.method_count == encoding_laws::signed_double_word(s, 68)
            &&& v.offsets.method_table_offset == encoding_laws::signed_double_word(s, 72)
            &&& v.offsets.method_table_size == encoding_laws::signed_double_word(s, 76)
            &&& v.offsets.type_count == encoding_laws::signed_double_word(s, 80)
            &&& v.offsets.anonymous_scope_count == encoding_laws::signed_double_word(s, 84)
            &&& v.offsets.anonymous_scope_table_offset == encoding_laws::signed_double_word(s, 88)
            &&& v.offsets.anonymous_scope_table_size == encoding_laws::signed_double_word(s, 92)
            &&& v.offsets.line_number_table_line_base == encoding_laws::signed_double_word(s, 96)
            &&& v.offsets.line_number_table_line_range == encoding_laws::signed_double_word(s, 100)
            &&& v.offsets.line_number_table_opcode_base == encoding_laws::signed_double_word(s, 104)
            &&& v.offsets.file_flags == encoding_laws::signed_double_word(s, 108)
            &&& v.offsets.source_table_size == 8 * v.offsets.source_count
            &&& v.offsets.compile_unit_table_size == 8 * v.offsets.compile_unit_count
            &&& v.offsets.method_table_size == 12 * v.offsets.method_count
        }),
{
    encoding_laws::signed_words_agree(s);
}

/// A source is a row of eight bytes: its id and where its path is, which has an
/// identifier and a hash of sixteen bytes each behind it.
pub proof fn sources_are_read(s: Seq<u8>, at: int, path: Seq<char>, end: int)
    requires
        0 <= encoding_laws::double_word(s, at + 4) < s.len(),
        encoding_laws::double_word(s, at + 4) <= i32::MAX,
        encoding::string_at(s, encoding_laws::double_word(s, at + 4)) == Some((path, end)),
    ensures
        end + 32 <= s.len() ==> (reader::source_at(s, at) matches Some(v) && v.id == encoding_laws::double_word(s, at)
            && v.path == path && v.hash == s.subrange(end + 16, end + 32)),
        end + 32 > s.len() ==> reader::source_at(s, at) is None,
{
    encoding_laws::words_agree(s);
    encoding_laws::signed_words_agree(s);
    assert(encoding_laws::signed_double_word(s, at + 4) == bytes::i32_of(bytes::u32_at(s, at + 4)));
    assert(encoding_laws::double_word(s, at) == bytes::u32_at(s, at));
}

/// A method is a row of twelve bytes: the token, the payload and the line table.
/// The payload starts with the unit, the local variables and the namespace, and
/// the flags are its seventh number.
pub proof fn methods_are_read(s: Seq<u8>, at: int, k: int, v: Seq<i32>)
    requires
        0 <= k < u32::MAX,
        0 <= encoding_laws::double_word(s, at + 4) < s.len(),
        0 <= encoding_laws::double_word(s, at + 8) < s.len(),
        encoding_laws::double_word(s, at + 4) <= i32::MAX,
        encoding_laws::double_word(s, at + 8) <= i32::MAX,
        reader::seven_at(s, encoding_laws::double_word(s, at + 4), 7) == Some(v),
        v[0] >= 0,
        v[1] == 0,
        v[2] >= 0,
        v[6] >= 0,
    ensures
        reader::method_at(s, at, k) matches Some(m) && {
            &&& m.entry.row == k + 1
            &&& m.entry.token.0 == encoding_laws::double_word(s, at)
            &&& m.entry.compile_unit == v[0]
            &&& m.entry.namespace_id == v[2]
            &&& m.line_number_table_offset == encoding_laws::double_word(s, at + 8)
            &&& m.local_variable_table_offset == 0
            &&& m.flags == v[6]
        },
{
    encoding_laws::words_agree(s);
    encoding_laws::signed_words_agree(s);
    assert(encoding_laws::signed_double_word(s, at + 4) == bytes::i32_of(bytes::u32_at(s, at + 4)));
    assert(encoding_laws::signed_double_word(s, at + 8) == bytes::i32_of(bytes::u32_at(s, at + 8)));
    assert(encoding_laws::double_word(s, at) == bytes::u32_at(s, at));
}

/// A local variable: its index, its name and its block.
pub proof fn locals_are_read(
    s: Seq<u8>,
    at: int,
    n: nat,
    index: i32,
    a: int,
    name: Seq<char>,
    b: int,
    block: i32,
    c: int,
)
    requires
        n > 0,
        encoding::leb128_at(s, at) == Some((index, a)),
        encoding::string_at(s, a) == Some((name, b)),
        encoding::leb128_at(s, b) == Some((block, c)),
    ensures
        match reader::locals_at(s, c, (n - 1) as nat) {
            Some(rest) => reader::locals_at(s, at, n) == Some(
                seq![reader::LocalView { index, name, block_index: block }] + rest,
            ),
            None => reader::locals_at(s, at, n) is None,
        },
{
}

/// A unit: its first source, the number of further ones, and these.
pub proof fn units_are_read(
    s: Seq<u8>,
    at: int,
    primary: i32,
    a: int,
    second: i32,
    b: int,
    c: int,
    d: int,
)
    requires
        primary >= 0,
        second >= 0,
        encoding::leb128_at(s, at) == Some((primary, a)),
        encoding::leb128_at(s, a) == Some((1i32, b)),
        encoding::leb128_at(s, b) == Some((second, c)),
        encoding::leb128_at(s, c) == Some((0i32, d)),
    ensures
        reader::unit_payload(s, at) == Some(seq![primary as u32, second as u32]),
{
    reveal_with_fuel(reader::ids_at, 2);
    assert(seq![second as u32] + Seq::<u32>::empty() =~= seq![second as u32]);
    assert(seq![primary as u32] + seq![second as u32] =~= seq![primary as u32, second as u32]);
}

/// A table lies in the file if its rows fill its size and end in the file.
pub proof fn table_bounds(s: Seq<u8>, base: i32, size: i32, count: i32)
    ensures
        reader::table_fits(s, base, size, count, 8) <==> base >= 0 && count >= 0 && size == 8 * count
            && base + 8 * count <= s.len(),
        reader::table_fits(s, base, size, count, 12) <==> base >= 0 && count >= 0 && size == 12 * count
            && base + 12 * count <= s.len(),
{
}

/// What is written ends in the opcode that ends a program.
pub proof fn written_programs_end(list: Seq<lines::LineEntry>, flags: u32)
    ensures
        flags & 2 == 0 ==> ({
            let b = lines::table_bytes(list, flags);
            b.len() >= 3 && b[b.len() - 3] == 0 && b[b.len() - 2] == 1 && b[b.len() - 1] == 1
        }),
{
    method_flags(flags);
}

/// A step of the line from -1 to 6 and of the offset below 30 takes one byte.
pub proof fn small_steps_take_one_byte(line_step: i32, left: i32)
    requires
        -1 <= line_step < 7,
        0 <= left < 30,
    ensures
        lines::advance_bytes(line_step, left) == seq![(10 + line_step + 8 * left) as u8],
        lines::jump_bytes(left).len() == 0,
        lines::jump_left(left) == left,
{
}

/// A fresh offset table counts nothing. Its line numbers step from -1 over a range
/// of 8, in opcodes from 9 on.
pub proof fn fresh_tables_are_empty()
    ensures
        ({
            let t = reader::default_offset_table();
            &&& t.line_number_table_line_base == -1
            &&& t.line_number_table_line_range == 8
            &&& t.line_number_table_opcode_base == 9
            &&& t.total_file_size == 0 && t.data_section_offset == 0 && t.data_section_size == 0
            &&& t.compile_unit_count == 0 && t.compile_unit_table_offset == 0
            &&& t.compile_unit_table_size == 0
            &&& t.source_count == 0 && t.source_table_offset == 0 && t.source_table_size == 0
            &&& t.method_count == 0 && t.method_table_offset == 0 && t.method_table_size == 0
            &&& t.type_count == 0 && t.anonymous_scope_count == 0
            &&& t.anonymous_scope_table_offset == 0 && t.anonymous_scope_table_size == 0
            &&& t.file_flags == 0
        }),
{
}

/// An offset step from 30 to 59 takes one opcode and leaves a step below 30; a
/// longer one is written out and leaves none.
pub proof fn long_steps_are_written(step: i32)
    requires
        step >= 30,
    ensures
        step < 60 ==> lines::jump_bytes(step) == seq![8u8] && lines::jump_left(step) == step - 30,
        step >= 60 ==> lines::jump_bytes(step) == seq![2u8] + encoding::leb128_bytes(
            bytes::u32_of(step),
        ) && lines::jump_left(step) == 0,
{
}

/// A line step that no special opcode has is written out, and so is what is left
/// of the offset step; then the point is added.
pub proof fn far_lines_are_written(line_step: i32, left: i32)
    requires
        line_step < -1 || line_step >= 7,
    ensures
        left == 0 ==> lines::advance_bytes(line_step, left) == seq![3u8] + encoding::leb128_bytes(
            bytes::u32_of(line_step),
        ) + seq![1u8],
        left != 0 ==> lines::advance_bytes(line_step, left) == seq![3u8] + encoding::leb128_bytes(
            bytes::u32_of(line_step),
        ) + (seq![2u8] + encoding::leb128_bytes(bytes::u32_of(left))) + seq![1u8],
{
    let n = encoding::leb128_bytes(bytes::u32_of(line_step));
    assert(seq![3u8] + n + Seq::<u8>::empty() + seq![1u8] =~= seq![3u8] + n + seq![1u8]);
}

/// A method has the row of its number. One that is not there, or that names no
/// table, has no lines and no locals.
pub proof fn methods_by_number(v: MdbView, row: u32)
    ensures
        row == 0 || row > v.methods.len() ==> {
            &&& v.method(row) is None
            &&& v.lines(row) == Ok::<Option<Seq<LntEntry>>, ErrorKind>(None)
            &&& v.locals(row) == Ok::<Option<Seq<LocalView>>, ErrorKind>(None)
        },
        1 <= row <= v.methods.len() ==> {
            let m = v.methods[row - 1];
            &&& v.method(row) == Some(m)
            &&& m.line_number_table_offset == 0 ==> v.lines(row) == Ok::<
                Option<Seq<LntEntry>>,
                ErrorKind,
            >(None)
            &&& m.local_variable_table_offset == 0 ==> v.locals(row) == Ok::<
                Option<Seq<LocalView>>,
                ErrorKind,
            >(None)
            &&& m.line_number_table_offset != 0 && v.offsets.line_number_table_opcode_base > 255
                ==> v.lines(row) == Err::<Option<Seq<LntEntry>>, ErrorKind>(ErrorKind::Unsupported)
            &&& m.line_number_table_offset != 0 && v.offsets.line_number_table_opcode_base <= 255
                ==> (lines::table_at(
                v.data,
                m.line_number_table_offset as int,
                v.offsets.params(),
                m.flags,
            ) matches Some(points) ==> v.lines(row) == Ok::<Option<Seq<LntEntry>>, ErrorKind>(
                Some(points),
            ))
        },
{
}

} // verus!
