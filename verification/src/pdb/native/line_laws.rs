//! Line sections and file checksums that were laid out byte by byte are read back
//! as what was laid out.

use vstd::prelude::*;

use crate::bytes;
use crate::pdb::native::dbi;
use crate::pdb::native::functions::{FunctionView, LineView};
use crate::pdb::native::line_programs;
use crate::pdb::native::names;

verus! {

broadcast use crate::bytes::widths;

/// A block of lines of one file: where the file is described, the size field,
/// for each line its distance and its word, and for each line its two columns.
pub struct LineBlock {
    pub file: u32,
    pub size: u32,
    pub lines: Seq<(u32, u32)>,
    pub columns: Seq<(u16, u16)>,
}

/// A line takes eight bytes.
pub open spec fn line_bytes(line: (u32, u32)) -> Seq<u8> {
    bytes::u32_le(line.0) + bytes::u32_le(line.1)
}

/// A pair of columns takes four bytes.
pub open spec fn column_bytes(column: (u16, u16)) -> Seq<u8> {
    bytes::u16_le(column.0) + bytes::u16_le(column.1)
}

/// The file, the number of lines and the size.
pub open spec fn block_head(b: LineBlock) -> Seq<u8> {
    bytes::u32_le(b.file) + bytes::u32_le(b.lines.len() as u32) + bytes::u32_le(b.size)
}

/// The lines of a block.
pub open spec fn all_lines(b: LineBlock) -> Seq<u8> {
    bytes::joined(Seq::new(b.lines.len(), |i: int| line_bytes(b.lines[i])))
}

/// The columns of a block.
pub open spec fn all_columns(b: LineBlock) -> Seq<u8> {
    bytes::joined(Seq::new(b.columns.len(), |i: int| column_bytes(b.columns[i])))
}

/// A block, with or without its columns.
pub open spec fn block_bytes(b: LineBlock, columns: bool) -> Seq<u8> {
    if columns {
        block_head(b) + all_lines(b) + all_columns(b)
    } else {
        block_head(b) + all_lines(b)
    }
}

/// The blocks, one behind the other.
pub open spec fn blocks_bytes(blocks: Seq<LineBlock>, columns: bool) -> Seq<u8>
    decreases blocks.len(),
{
    if blocks.len() == 0 {
        Seq::empty()
    } else {
        block_bytes(blocks[0], columns) + blocks_bytes(blocks.skip(1), columns)
    }
}

/// The address, the segment, the flags and the length of the code.
pub open spec fn section_head(address: u32, segment: u16, flags: u16, length: u32) -> Seq<u8> {
    bytes::u32_le(address) + bytes::u16_le(segment) + bytes::u16_le(flags) + bytes::u32_le(length)
}

/// A line section. Its blocks have columns if the lowest flag is set.
pub open spec fn section_bytes(
    address: u32,
    segment: u16,
    flags: u16,
    length: u32,
    blocks: Seq<LineBlock>,
) -> Seq<u8> {
    section_head(address, segment, flags, length) + blocks_bytes(blocks, flags & 1 != 0)
}

/// The lines of the blocks, in order: the line number is the low 24 bits of the
/// word of the line.
pub open spec fn lines_of(blocks: Seq<LineBlock>, files: Seq<Seq<char>>) -> Seq<LineView>
    decreases blocks.len(),
{
    if blocks.len() == 0 {
        Seq::empty()
    } else {
        Seq::new(
            blocks[0].lines.len(),
            |i: int|
                LineView {
                    rva_delta: blocks[0].lines[i].0,
                    line: blocks[0].lines[i].1 & 0x00FF_FFFF,
                    file: files[0],
                },
        ) + lines_of(blocks.skip(1), files.skip(1))
    }
}

/// The blocks fit their format, and `files` are the files that they name.
pub open spec fn blocks_are_sound(
    blocks: Seq<LineBlock>,
    files: Seq<Seq<char>>,
    checks: Seq<(u32, Seq<char>)>,
) -> bool {
    &&& files.len() == blocks.len()
    &&& forall|i: int|
        0 <= i < blocks.len() ==> {
            &&& (#[trigger] blocks[i]).lines.len() <= u32::MAX
            &&& blocks[i].columns.len() == blocks[i].lines.len()
            &&& names::name_of(checks, blocks[i].file) == Some(files[i])
        }
}

proof fn u32_inside(s: Seq<u8>, at: int, part: Seq<u8>, i: int, v: u32)
    requires
        bytes::holds_at(s, at, part),
        bytes::holds_at(part, i, bytes::u32_le(v)),
    ensures
        bytes::u32_at(s, at + i) == v,
{
    bytes::holds_within(s, at, part, i, bytes::u32_le(v));
    bytes::u32_round_trip(s, at + i, v);
}

proof fn block_head_reads(s: Seq<u8>, pos: int, b: LineBlock)
    requires
        bytes::holds_at(s, pos, block_head(b)),
    ensures
        bytes::u32_at(s, pos) == b.file,
        bytes::u32_at(s, pos + 4) == b.lines.len() as u32,
        block_head(b).len() == 12,
{
    let (x, y, z) = (
        bytes::u32_le(b.file),
        bytes::u32_le(b.lines.len() as u32),
        bytes::u32_le(b.size),
    );
    let head = block_head(b);
    assert(head.subrange(0, 4) =~= x);
    assert(head.subrange(4, 8) =~= y);
    u32_inside(s, pos, head, 0, b.file);
    u32_inside(s, pos, head, 4, b.lines.len() as u32);
}

proof fn block_widths(b: LineBlock)
    requires
        b.columns.len() == b.lines.len(),
    ensures
        all_lines(b).len() == 8 * b.lines.len(),
        all_columns(b).len() == 4 * b.lines.len(),
{
    let lines = Seq::new(b.lines.len(), |i: int| line_bytes(b.lines[i]));
    let columns = Seq::new(b.columns.len(), |i: int| column_bytes(b.columns[i]));
    bytes::joined_uniform(lines, 8, lines.len() as int);
    bytes::joined_uniform(columns, 4, columns.len() as int);
    assert(lines.take(lines.len() as int) =~= lines);
    assert(columns.take(columns.len() as int) =~= columns);
}

proof fn block_lines_read(s: Seq<u8>, at: int, b: LineBlock, file: Seq<char>)
    requires
        bytes::holds_at(s, at, all_lines(b)),
    ensures
        line_programs::block_lines(s, at, b.lines.len(), file) == Seq::new(
            b.lines.len(),
            |i: int|
                LineView {
                    rva_delta: b.lines[i].0,
                    line: b.lines[i].1 & 0x00FF_FFFF,
                    file,
                },
        ),
{
    let parts = Seq::new(b.lines.len(), |i: int| line_bytes(b.lines[i]));
    assert forall|i: int| 0 <= i < b.lines.len() implies bytes::u32_at(s, #[trigger] (at + 8 * i))
        == b.lines[i].0 && bytes::u32_at(s, at + 8 * i + 4) == b.lines[i].1 by {
        let one = line_bytes(b.lines[i]);
        bytes::joined_uniform(parts, 8, i);
        bytes::joined_part(parts, i);
        bytes::holds_within(s, at, all_lines(b), 8 * i, one);
        bytes::holds_in_concat(bytes::u32_le(b.lines[i].0), bytes::u32_le(b.lines[i].1), seq![]);
        u32_inside(s, at + 8 * i, one, 0, b.lines[i].0);
        u32_inside(s, at + 8 * i, one, 4, b.lines[i].1);
    }
    assert forall|i: int| 0 <= i < b.lines.len() implies #[trigger] (b.lines[i].1 & 0x00FF_FFFF)
        == b.lines[i].1 % 0x100_0000 by {
        let w = b.lines[i].1;
        assert(w & 0x00FF_FFFF == w % 0x100_0000) by (bit_vector);
    }
    let found = line_programs::block_lines(s, at, b.lines.len(), file);
    assert forall|i: int| 0 <= i < b.lines.len() implies #[trigger] found[i] == (LineView {
        rva_delta: b.lines[i].0,
        line: b.lines[i].1 & 0x00FF_FFFF,
        file,
    }) by {
        assert(bytes::u32_at(s, at + 8 * i) == b.lines[i].0);
    }
    assert(found =~= Seq::new(
        b.lines.len(),
        |i: int|
            LineView { rva_delta: b.lines[i].0, line: b.lines[i].1 & 0x00FF_FFFF, file },
    ));
}

proof fn blocks_read(
    s: Seq<u8>,
    pos: int,
    blocks: Seq<LineBlock>,
    columns: bool,
    files: Seq<Seq<char>>,
    checks: Seq<(u32, Seq<char>)>,
)
    requires
        blocks_are_sound(blocks, files, checks),
        bytes::holds_at(s, pos, blocks_bytes(blocks, columns)),
    ensures
        line_programs::blocks_from(
            s,
            pos,
            pos + blocks_bytes(blocks, columns).len(),
            if columns {
                12
            } else {
                8
            },
            checks,
        ) == Some(lines_of(blocks, files)),
    decreases blocks.len(),
{
    let all = blocks_bytes(blocks, columns);
    let stride: int = if columns {
        12
    } else {
        8
    };
    if blocks.len() > 0 {
        let b = blocks[0];
        let first = block_bytes(b, columns);
        let rest = blocks_bytes(blocks.skip(1), columns);
        block_widths(b);
        bytes::holds_in_concat(first, rest, seq![]);
        bytes::holds_within(s, pos, all, 0, first);
        bytes::holds_within(s, pos, all, first.len() as int, rest);
        if columns {
            bytes::holds_in_concat(block_head(b), all_lines(b), all_columns(b));
            bytes::holds_in_concat(block_head(b) + all_lines(b), all_columns(b), seq![]);
            bytes::holds_within(first, 0, block_head(b) + all_lines(b), 0, block_head(b));
        } else {
            bytes::holds_in_concat(block_head(b), all_lines(b), seq![]);
        }
        bytes::holds_within(s, pos, first, 0, block_head(b));
        block_head_reads(s, pos, b);
        bytes::holds_within(s, pos, first, 12, all_lines(b));
        block_lines_read(s, pos + 12, b, files[0]);
        assert(blocks_are_sound(blocks.skip(1), files.skip(1), checks)) by {
            assert forall|i: int| 0 <= i < blocks.skip(1).len() implies {
                &&& (#[trigger] blocks.skip(1)[i]).lines.len() <= u32::MAX
                &&& blocks.skip(1)[i].columns.len() == blocks.skip(1)[i].lines.len()
                &&& names::name_of(checks, blocks.skip(1)[i].file) == Some(files.skip(1)[i])
            } by {
                assert(blocks.skip(1)[i] == blocks[i + 1]);
            }
        }
        assert(first.len() == 12 + b.lines.len() * stride) by {
            assert(b.lines.len() * 12 == 8 * b.lines.len() + 4 * b.lines.len());
        }
        blocks_read(s, pos + first.len(), blocks.skip(1), columns, files.skip(1), checks);
    }
}

/// The function is the first one at the place that has no lines yet.
pub open spec fn is_target(functions: Seq<FunctionView>, segment: u16, address: u32, k: int) -> bool {
    &&& 0 <= k < functions.len()
    &&& functions[k].segment == segment
    &&& functions[k].address == address
    &&& functions[k].lines.len() == 0
    &&& functions[k].ranges.len() == 0
    &&& forall|j: int|
        0 <= j < k ==> (#[trigger] functions[j]).segment != segment || functions[j].address
            != address || functions[j].lines.len() > 0 || functions[j].ranges.len() > 0
}

proof fn target_found(functions: Seq<FunctionView>, segment: u16, address: u32, k: int, i: int)
    requires
        is_target(functions, segment, address, k),
        0 <= i <= k,
    ensures
        line_programs::target_from(functions, segment, address, i) == Some(k),
    decreases k - i,
{
    if i < k {
        assert(functions[i].segment == functions[i].segment);
        target_found(functions, segment, address, k, i + 1);
    }
}

proof fn section_head_reads(
    s: Seq<u8>,
    place: int,
    address: u32,
    segment: u16,
    flags: u16,
    length: u32,
)
    requires
        bytes::holds_at(s, place, section_head(address, segment, flags, length)),
    ensures
        section_head(address, segment, flags, length).len() == 12,
        bytes::u32_at(s, place) == address,
        bytes::u16_at(s, place + 4) == segment,
        bytes::u16_at(s, place + 6) == flags,
        bytes::u32_at(s, place + 8) == length,
{
    let head = section_head(address, segment, flags, length);
    assert(head.subrange(0, 4) =~= bytes::u32_le(address));
    assert(head.subrange(4, 6) =~= bytes::u16_le(segment));
    assert(head.subrange(6, 8) =~= bytes::u16_le(flags));
    assert(head.subrange(8, 12) =~= bytes::u32_le(length));
    u32_inside(s, place, head, 0, address);
    u32_inside(s, place, head, 8, length);
    bytes::holds_within(s, place, head, 4, bytes::u16_le(segment));
    bytes::holds_within(s, place, head, 6, bytes::u16_le(flags));
    bytes::u16_round_trip(s, place + 4, segment);
    bytes::u16_round_trip(s, place + 6, flags);
}

/// A line section that is laid out as such gives its function exactly the lines
/// of its blocks, whether there are columns (the lowest flag) or not, and
/// changes no other function.
pub proof fn laid_out_section_is_read(
    s: Seq<u8>,
    place: int,
    address: u32,
    segment: u16,
    flags: u16,
    length: u32,
    blocks: Seq<LineBlock>,
    files: Seq<Seq<char>>,
    checks: Seq<(u32, Seq<char>)>,
    functions: Seq<FunctionView>,
    k: int,
)
    requires
        bytes::holds_at(s, place, section_bytes(address, segment, flags, length, blocks)),
        blocks_are_sound(blocks, files, checks),
        is_target(functions, segment, address, k),
    ensures
        line_programs::after_section(
            s,
            place,
            place + section_bytes(address, segment, flags, length, blocks).len(),
            checks,
            functions,
        ) == Some(
            functions.update(
                k,
                FunctionView {
                    token: functions[k].token,
                    name: functions[k].name,
                    segment,
                    address,
                    ranges: seq![(address as u64, length as usize)],
                    lines: lines_of(blocks, files),
                },
            ),
        ),
{
    let head = section_head(address, segment, flags, length);
    let columns = flags & 1 != 0;
    let rest = blocks_bytes(blocks, columns);
    let all = section_bytes(address, segment, flags, length, blocks);
    assert((flags & 1 != 0) == (flags % 2 == 1)) by (bit_vector);
    bytes::holds_in_concat(head, rest, seq![]);
    bytes::holds_within(s, place, all, 0, head);
    bytes::holds_within(s, place, all, head.len() as int, rest);
    section_head_reads(s, place, address, segment, flags, length);
    blocks_read(s, place + 12, blocks, columns, files, checks);
    target_found(functions, segment, address, k, 0);
}

/// A subsection: its kind, its length and its bytes.
pub open spec fn subsection_bytes(kind: u32, body: Seq<u8>) -> Seq<u8> {
    bytes::u32_le(kind) + bytes::u32_le(body.len() as u32) + body
}

proof fn subsection_reads(s: Seq<u8>, pos: int, kind: u32, body: Seq<u8>)
    requires
        bytes::holds_at(s, pos, subsection_bytes(kind, body)),
        kind <= 0x7FFF_FFFF,
        body.len() <= 0x7FFF_FFFF,
    ensures
        dbi::int_at(s, pos) == kind,
        dbi::int_at(s, pos + 4) == body.len(),
        bytes::holds_at(s, pos + 8, body),
        subsection_bytes(kind, body).len() == 8 + body.len(),
{
    let all = subsection_bytes(kind, body);
    let n = body.len() as u32;
    assert(all.subrange(0, 4) =~= bytes::u32_le(kind));
    assert(all.subrange(4, 8) =~= bytes::u32_le(n));
    assert(all.subrange(8, all.len() as int) =~= body);
    u32_inside(s, pos, all, 0, kind);
    u32_inside(s, pos, all, 4, n);
    bytes::holds_within(s, pos, all, 8, body);
}

/// A subsection of kind `0xF2` is a line section.
pub proof fn line_subsections_are_read(
    s: Seq<u8>,
    pos: int,
    limit: int,
    body: Seq<u8>,
    checks: Seq<(u32, Seq<char>)>,
    functions: Seq<FunctionView>,
)
    requires
        bytes::holds_at(s, pos, subsection_bytes(0xF2, body)),
        body.len() <= 0x7FFF_FFFF,
        pos + 8 + body.len() <= limit,
    ensures
        line_programs::lines_from(s, pos, limit, checks, functions) == match line_programs::after_section(
            s,
            pos + 8,
            pos + 8 + body.len(),
            checks,
            functions,
        ) {
            None => None,
            Some(after) => line_programs::lines_from(
                s,
                pos + 8 + body.len(),
                limit,
                checks,
                after,
            ),
        },
{
    subsection_reads(s, pos, 0xF2, body);
}

/// A subsection of any other kind gives no lines.
pub proof fn other_subsections_are_skipped(
    s: Seq<u8>,
    pos: int,
    limit: int,
    kind: u32,
    body: Seq<u8>,
    checks: Seq<(u32, Seq<char>)>,
    functions: Seq<FunctionView>,
)
    requires
        kind != 0xF2,
        kind <= 0x7FFF_FFFF,
        bytes::holds_at(s, pos, subsection_bytes(kind, body)),
        body.len() <= 0x7FFF_FFFF,
        pos + 8 + body.len() <= limit,
    ensures
        line_programs::lines_from(s, pos, limit, checks, functions) == line_programs::lines_from(
            s,
            pos + 8 + body.len(),
            limit,
            checks,
            functions,
        ),
{
    subsection_reads(s, pos, kind, body);
}

/// A region that holds one line subsection gives the function at its place the
/// lines that are laid out there.
pub proof fn laid_out_region_is_read(
    s: Seq<u8>,
    pos: int,
    address: u32,
    segment: u16,
    flags: u16,
    length: u32,
    blocks: Seq<LineBlock>,
    files: Seq<Seq<char>>,
    checks: Seq<(u32, Seq<char>)>,
    functions: Seq<FunctionView>,
    k: int,
)
    requires
        section_bytes(address, segment, flags, length, blocks).len() <= 0x7FFF_FFFF,
        bytes::holds_at(
            s,
            pos,
            subsection_bytes(0xF2, section_bytes(address, segment, flags, length, blocks)),
        ),
        blocks_are_sound(blocks, files, checks),
        is_target(functions, segment, address, k),
    ensures
        line_programs::lines_from(
            s,
            pos,
            pos + 8 + section_bytes(address, segment, flags, length, blocks).len(),
            checks,
            functions,
        ) == Some(
            functions.update(
                k,
                FunctionView {
                    token: functions[k].token,
                    name: functions[k].name,
                    segment,
                    address,
                    ranges: seq![(address as u64, length as usize)],
                    lines: lines_of(blocks, files),
                },
            ),
        ),
{
    let body = section_bytes(address, segment, flags, length, blocks);
    subsection_reads(s, pos, 0xF2, body);
    laid_out_section_is_read(
        s,
        pos + 8,
        address,
        segment,
        flags,
        length,
        blocks,
        files,
        checks,
        functions,
        k,
    );
    line_subsections_are_read(s, pos, pos + 8 + body.len(), body, checks, functions);
}

/// A file checksum: where the name of the file is, the kind of the checksum and
/// its bytes.
pub struct FileCheck {
    pub name: u32,
    pub kind: u8,
    pub checksum: Seq<u8>,
}

/// A file checksum that starts at a multiple of four: the name, the length, the
/// kind and the bytes, and zeros up to the next multiple of four.
pub open spec fn check_bytes(c: FileCheck) -> Seq<u8> {
    bytes::u32_le(c.name) + seq![c.checksum.len() as u8, c.kind] + c.checksum + bytes::zero_bytes(
        bytes::padding(6 + c.checksum.len() as int, 4),
    )
}

/// File checksums, one behind the other.
pub open spec fn checks_bytes(list: Seq<FileCheck>) -> Seq<u8>
    decreases list.len(),
{
    if list.len() == 0 {
        Seq::empty()
    } else {
        check_bytes(list[0]) + checks_bytes(list.skip(1))
    }
}

/// Which file each offset from `from` on stands for.
pub open spec fn files_by_offset(list: Seq<FileCheck>, files: Seq<Seq<char>>, from: int) -> Seq<
    (u32, Seq<char>),
>
    decreases list.len(),
{
    if list.len() == 0 {
        Seq::empty()
    } else {
        seq![(from as u32, files[0])] + files_by_offset(
            list.skip(1),
            files.skip(1),
            from + check_bytes(list[0]).len(),
        )
    }
}

/// File checksums that are laid out as such name the files by their offsets.
pub proof fn laid_out_checks_are_read(
    s: Seq<u8>,
    place: int,
    pos: int,
    list: Seq<FileCheck>,
    files: Seq<Seq<char>>,
    known: Seq<(u32, Seq<char>)>,
)
    requires
        0 <= place <= pos,
        pos % 4 == 0,
        pos - place + checks_bytes(list).len() <= u32::MAX,
        files.len() == list.len(),
        forall|i: int|
            0 <= i < list.len() ==> (#[trigger] list[i]).checksum.len() <= 0xFF && names::name_of(
                known,
                list[i].name,
            ) == Some(files[i]),
        bytes::holds_at(s, pos, checks_bytes(list)),
    ensures
        line_programs::check_entries(s, place, pos, pos + checks_bytes(list).len(), known) == Some(
            files_by_offset(list, files, pos - place),
        ),
    decreases list.len(),
{
    if list.len() > 0 {
        let c = list[0];
        let one = check_bytes(c);
        let rest = checks_bytes(list.skip(1));
        let all = checks_bytes(list);
        bytes::holds_in_concat(one, rest, seq![]);
        bytes::holds_within(s, pos, all, 0, one);
        bytes::holds_within(s, pos, all, one.len() as int, rest);
        assert(one.subrange(0, 4) =~= bytes::u32_le(c.name));
        u32_inside(s, pos, one, 0, c.name);
        assert(one[4] == c.checksum.len() as u8);
        assert(s.subrange(pos, pos + one.len())[4] == s[pos + 4]);
        let n = c.checksum.len() as int;
        let stop = pos + 6 + n;
        assert(one.len() == 6 + n + bytes::padding(6 + n, 4));
        assert(dbi::aligned(stop) == pos + one.len());
        assert forall|i: int| 0 <= i < list.skip(1).len() implies (
        #[trigger] list.skip(1)[i]).checksum.len() <= 0xFF && names::name_of(
            known,
            list.skip(1)[i].name,
        ) == Some(files.skip(1)[i]) by {
            assert(list.skip(1)[i] == list[i + 1]);
        }
        laid_out_checks_are_read(
            s,
            place,
            pos + one.len(),
            list.skip(1),
            files.skip(1),
            known,
        );
    }
}

/// A subsection of kind `0xF4` holds file checksums, and others hold none.
pub proof fn check_subsections_are_read(
    s: Seq<u8>,
    pos: int,
    kind: u32,
    body: Seq<u8>,
    known: Seq<(u32, Seq<char>)>,
)
    requires
        kind <= 0x7FFF_FFFF,
        bytes::holds_at(s, pos, subsection_bytes(kind, body)),
        body.len() <= 0x7FFF_FFFF,
    ensures
        kind == 0xF4 ==> line_programs::checks_from(s, pos, pos + 8 + body.len(), known)
            == line_programs::check_entries(s, pos + 8, pos + 8, pos + 8 + body.len(), known),
        kind != 0xF4 ==> line_programs::checks_from(s, pos, pos + 8 + body.len(), known) == Some(
            Seq::<(u32, Seq<char>)>::empty(),
        ),
{
    subsection_reads(s, pos, kind, body);
    let stop = pos + 8 + body.len();
    assert(line_programs::checks_from(s, stop, stop, known) == Some(
        Seq::<(u32, Seq<char>)>::empty(),
    ));
    if let Some(entries) = line_programs::check_entries(s, pos + 8, pos + 8, stop, known) {
        assert(entries + Seq::<(u32, Seq<char>)>::empty() =~= entries);
    }
}

} // verus!
