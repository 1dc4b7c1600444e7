//! The line programs of a native PDB: which source files a module names, and
//! which lines its functions come from.
//!
//! Both stand in the line region of a module's stream, which is a chain of
//! subsections: file checksums give source files a number, and line sections
//! map the addresses of one function to lines of such files. Subsections of
//! other kinds are skipped by length.

use vstd::prelude::*;

use crate::bytes;
use crate::error::{Error, ErrorKind};
use crate::io::Step;
use crate::pdb::native::dbi;
use crate::pdb::native::dbi::{DbiModuleInfo, ModuleView};
use crate::pdb::native::functions;
use crate::pdb::native::functions::{FunctionView, LineEntry, LineView, RawFunction};
use crate::pdb::native::names;
use crate::text;
use crate::text::Message;

verus! {

broadcast use crate::bytes::widths;

/// Signature of a line-section subsection.
pub const LINES: i32 = 0xF2;

/// Signature of a file-checksum subsection.
pub const FILECHKSMS: i32 = 0xF4;

/// The file checksum entries from `pos` up to `end`, by their offset from
/// `place`: a name, the size and the kind of a checksum, the checksum, and
/// padding to a multiple of four.
pub open spec fn check_entries(
    s: Seq<u8>,
    place: int,
    pos: int,
    end: int,
    known: Seq<(u32, Seq<char>)>,
) -> Option<Seq<(u32, Seq<char>)>>
    decreases
        if pos < end {
            end - pos
        } else {
            0
        },
{
    if pos >= end {
        Some(Seq::empty())
    } else if pos < 0 || pos + 6 > s.len() {
        None
    } else {
        let stop = pos + 6 + s[pos + 4];
        match names::name_of(known, bytes::u32_at(s, pos)) {
            None => None,
            Some(name) => if stop > s.len() {
                None
            } else {
                match check_entries(s, place, dbi::aligned(stop), end, known) {
                    None => None,
                    Some(rest) => Some(seq![(bytes::low32(pos - place), name)] + rest),
                }
            },
        }
    }
}

/// The file checksum entries of the subsections from `pos` up to `limit`.
pub open spec fn checks_from(
    s: Seq<u8>,
    pos: int,
    limit: int,
    known: Seq<(u32, Seq<char>)>,
) -> Option<Seq<(u32, Seq<char>)>>
    decreases limit - pos,
{
    if pos >= limit {
        Some(Seq::empty())
    } else {
        let kind = dbi::int_at(s, pos);
        let size = dbi::int_at(s, pos + 4);
        let stop = pos + 8 + size;
        if pos + 8 > s.len() || size < 0 || stop > limit {
            None
        } else if kind == FILECHKSMS {
            match (
                check_entries(s, pos + 8, pos + 8, stop, known),
                checks_from(s, stop, limit, known),
            ) {
                (Some(entries), Some(rest)) => Some(entries + rest),
                _ => None,
            }
        } else {
            checks_from(s, stop, limit, known)
        }
    }
}

/// The file checksum entries of a module whose stream this is: those of its
/// line region, if it has one that lies in the stream.
pub open spec fn module_checks(
    s: Seq<u8>,
    m: ModuleView,
    known: Seq<(u32, Seq<char>)>,
) -> Option<Seq<(u32, Seq<char>)>> {
    let begin = m.cb_syms + m.cb_old_lines;
    let limit = begin + m.cb_lines;
    if m.cb_lines <= 0 || limit < 0 || limit > s.len() {
        Some(Seq::empty())
    } else if begin < 0 {
        None
    } else {
        checks_from(s, begin, limit, known)
    }
}

fn read_check_entries(
    data: &[u8],
    place: usize,
    end: usize,
    known: &Vec<(u32, String)>,
    checks: &mut Vec<(u32, String)>,
) -> (r: Result<(), Error>)
    requires
        place <= end <= data@.len(),
    ensures
        match check_entries(
            data@,
            place as int,
            place as int,
            end as int,
            names::name_views(known@),
        ) {
            Some(v) => r is Ok && names::name_views(final(checks)@) == names::name_views(
                old(checks)@,
            ) + v,
            None => r is Err && r->Err_0.kind() == ErrorKind::BadImage,
        },
{
    let length: usize = data.len();
    let ghost names_known = names::name_views(known@);
    let ghost whole = check_entries(
        data@,
        place as int,
        place as int,
        end as int,
        names_known,
    );
    let ghost start = names::name_views(checks@);
    let ghost mut done: Seq<(u32, Seq<char>)> = Seq::empty();
    let mut pos: usize = place;
    proof {
        if let Some(rest) = whole {
            assert(done + rest =~= rest);
        }
        assert(names::name_views(checks@) =~= start + done);
    }
    while pos < end
        invariant
            length == data@.len(),
            place <= end <= length,
            place <= pos,
            names_known == names::name_views(known@),
            whole == check_entries(
                data@,
                place as int,
                place as int,
                end as int,
                names_known,
            ),
            start == names::name_views(old(checks)@),
            names::name_views(checks@) == start + done,
            whole == (match check_entries(
                data@,
                place as int,
                pos as int,
                end as int,
                names_known,
            ) {
                Some(rest) => Some(done + rest),
                None => None,
            }),
        decreases
            if pos < end {
                end - pos
            } else {
                0
            },
    {
        if length - pos < 6 {
            return Err(
                dbi::stopped(
                    length,
                    pos,
                    vec![
                        Step::Reads { width: 4, times: 1 },
                        Step::Reads { width: 1, times: 2 },
                    ],
                ),
            );
        }
        let offset: u32 = bytes::as_low32(pos - place);
        let size: usize = data[pos + 4] as usize;
        let name = match names::find_name(known, bytes::get_u32(data, pos)) {
            Some(name) => name.to_owned(),
            None => {
                return Err(
                    Error::bad_image(
                        Message::new(
                            "native pdb: checksum entry references unknown /names offset ",
                        ).count(bytes::get_u32(data, pos) as u64).as_str(),
                    ),
                );
            },
        };
        if length - pos - 6 < size {
            return Err(dbi::stopped(length, pos + 6, vec![Step::Skip(size as u64)]));
        }
        let stop: usize = pos + 6 + size;
        let ghost entry = (offset, name@);
        let ghost before = names::name_views(checks@);
        checks.push((offset, name));
        let next: u128 = (stop as u128 + 3) / 4 * 4;
        proof {
            let now = done.push(entry);
            assert(names::name_views(checks@) =~= before.push(entry));
            assert(names::name_views(checks@) =~= start + now);
            if let Some(rest) = check_entries(
                data@,
                place as int,
                next as int,
                end as int,
                names_known,
            ) {
                assert(done + (seq![entry] + rest) =~= now + rest);
            }
            done = now;
        }
        if next >= end as u128 {
            proof {
                assert(done + Seq::<(u32, Seq<char>)>::empty() =~= done);
            }
            return Ok(());
        }
        pos = next as usize;
    }
    proof {
        assert(done + Seq::<(u32, Seq<char>)>::empty() =~= done);
    }
    Ok(())
}

fn read_checks(data: &[u8], begin: usize, limit: usize, known: &Vec<(u32, String)>) -> (r: Result<
    Vec<(u32, String)>,
    Error,
>)
    requires
        begin <= limit <= data@.len(),
    ensures
        match checks_from(data@, begin as int, limit as int, names::name_views(known@)) {
            Some(v) => r is Ok && names::name_views(r->Ok_0@) == v,
            None => r is Err && r->Err_0.kind() == ErrorKind::BadImage,
        },
{
    let length: usize = data.len();
    let ghost names_known = names::name_views(known@);
    let ghost whole = checks_from(data@, begin as int, limit as int, names_known);
    let mut checks: Vec<(u32, String)> = Vec::new();
    let mut pos: usize = begin;
    proof {
        assert(names::name_views(checks@) =~= Seq::<(u32, Seq<char>)>::empty());
        if let Some(rest) = whole {
            assert(names::name_views(checks@) + rest =~= rest);
        }
    }
    while pos < limit
        invariant
            pos <= limit <= length,
            length == data@.len(),
            names_known == names::name_views(known@),
            whole == checks_from(data@, begin as int, limit as int, names_known),
            whole == (match checks_from(data@, pos as int, limit as int, names_known) {
                Some(rest) => Some(names::name_views(checks@) + rest),
                None => None,
            }),
        decreases limit - pos,
    {
        let ghost before = names::name_views(checks@);
        if length - pos < 8 {
            return Err(dbi::short(length, pos, 4, 2));
        }
        let kind: i32 = dbi::get_int(data, pos);
        let size: i32 = dbi::get_int(data, pos + 4);
        if size < 0 {
            return Err(Error::bad_image("native pdb: negative subsection size"));
        }
        if limit - pos < 8 || ((limit - pos - 8) as u64) < size as u64 {
            return Err(
                Error::bad_image("native pdb: C13 subsection overruns module line region"),
            );
        }
        let stop: usize = pos + 8 + size as usize;
        if kind == FILECHKSMS {
            read_check_entries(data, pos + 8, stop, known, &mut checks)?;
            proof {
                let entries = check_entries(
                    data@,
                    pos + 8,
                    pos + 8,
                    stop as int,
                    names_known,
                )->Some_0;
                if let Some(rest) = checks_from(data@, stop as int, limit as int, names_known) {
                    assert(before + (entries + rest) =~= names::name_views(checks@) + rest);
                }
            }
        }
        pos = stop;
    }
    proof {
        assert(names::name_views(checks@) + Seq::<(u32, Seq<char>)>::empty()
            =~= names::name_views(checks@));
    }
    Ok(checks)
}

/// Collects the file checksum entries of a module, keyed by their offset within
/// the subsection (that offset is what line sections refer to).
pub(crate) fn read_source_file_info(
    data: &[u8],
    info: &DbiModuleInfo,
    known: &Vec<(u32, String)>,
) -> (r: Result<Vec<(u32, String)>, Error>)
    ensures
        match module_checks(data@, info@, names::name_views(known@)) {
            Some(v) => r is Ok && names::name_views(r->Ok_0@) == v,
            None => r is Err && r->Err_0.kind() == ErrorKind::BadImage,
        },
{
    let begin: i64 = info.cb_syms as i64 + info.cb_old_lines as i64;
    let limit: i64 = begin + info.cb_lines as i64;
    if info.cb_lines <= 0 || limit < 0 || limit as u64 > data.len() as u64 {
        let none: Vec<(u32, String)> = Vec::new();
        proof {
            assert(names::name_views(none@) =~= Seq::<(u32, Seq<char>)>::empty());
        }
        return Ok(none);
    }
    if begin < 0 {
        return Err(dbi::beyond(data.len(), begin as u64));
    }
    read_checks(data, begin as usize, limit as usize, known)
}

/// The lines of one block: an offset and the line in the low 24 bits of its
/// flags each.
pub open spec fn block_lines(s: Seq<u8>, at: int, n: nat, file: Seq<char>) -> Seq<LineView> {
    Seq::new(
        n,
        |i: int|
            LineView {
                rva_delta: bytes::u32_at(s, at + 8 * i),
                line: bytes::u32_at(s, at + 8 * i + 4) % 0x100_0000,
                file,
            },
    )
}

/// The lines of the blocks from `pos` up to `end`: a file, the number of lines,
/// a size that is not used, the lines and, where a line takes twelve bytes,
/// their columns.
pub open spec fn blocks_from(
    s: Seq<u8>,
    pos: int,
    end: int,
    stride: int,
    checks: Seq<(u32, Seq<char>)>,
) -> Option<Seq<LineView>>
    decreases end - pos,
{
    if pos >= end {
        Some(Seq::empty())
    } else if pos + 12 > s.len() || stride < 0 {
        None
    } else {
        let count = bytes::u32_at(s, pos + 4) as int;
        let stop = pos + 12 + count * stride;
        if stop > end || stop <= pos {
            None
        } else {
            match names::name_of(checks, bytes::u32_at(s, pos)) {
                None => None,
                Some(file) => match blocks_from(s, stop, end, stride, checks) {
                    None => None,
                    Some(rest) => Some(block_lines(s, pos + 12, count as nat, file) + rest),
                },
            }
        }
    }
}

/// The first function at the address that has no lines yet, from the `i`-th one
/// on.
pub open spec fn target_from(
    functions: Seq<FunctionView>,
    segment: u16,
    address: u32,
    i: int,
) -> Option<int>
    decreases functions.len() - i,
{
    if i < 0 || i >= functions.len() {
        None
    } else if functions[i].segment == segment && functions[i].address == address
        && functions[i].lines.len() == 0 && functions[i].ranges.len() == 0 {
        Some(i)
    } else {
        target_from(functions, segment, address, i + 1)
    }
}

/// How many bytes a line of a section takes: twelve with columns.
pub open spec fn line_stride(flags: u16) -> int {
    if flags % 2 == 1 {
        12
    } else {
        8
    }
}

/// The functions after the line section that goes from `place` to `end`: it
/// belongs to the first function at its address that has no lines yet, and is
/// skipped where there is none.
pub open spec fn after_section(
    s: Seq<u8>,
    place: int,
    end: int,
    checks: Seq<(u32, Seq<char>)>,
    functions: Seq<FunctionView>,
) -> Option<Seq<FunctionView>> {
    let address = bytes::u32_at(s, place);
    let segment = bytes::u16_at(s, place + 4);
    let flags = bytes::u16_at(s, place + 6);
    let length = bytes::u32_at(s, place + 8);
    if place + 12 > s.len() {
        None
    } else {
        match target_from(functions, segment, address, 0) {
            None => Some(functions),
            Some(k) => match blocks_from(s, place + 12, end, line_stride(flags), checks) {
                None => None,
                Some(lines) => Some(
                    functions.update(
                        k,
                        FunctionView {
                            ranges: seq![(address as u64, length as usize)],
                            lines,
                            ..functions[k]
                        },
                    ),
                ),
            },
        }
    }
}

/// The functions after the subsections from `pos` up to `limit`.
pub open spec fn lines_from(
    s: Seq<u8>,
    pos: int,
    limit: int,
    checks: Seq<(u32, Seq<char>)>,
    functions: Seq<FunctionView>,
) -> Option<Seq<FunctionView>>
    decreases limit - pos,
{
    if pos >= limit {
        Some(functions)
    } else {
        let kind = dbi::int_at(s, pos);
        let size = dbi::int_at(s, pos + 4);
        let stop = pos + 8 + size;
        if pos + 8 > s.len() || size < 0 || stop > limit {
            None
        } else if kind == LINES {
            match after_section(s, pos + 8, stop, checks, functions) {
                None => None,
                Some(after) => lines_from(s, stop, limit, checks, after),
            }
        } else {
            lines_from(s, stop, limit, checks, functions)
        }
    }
}

/// Modules with this name carry no functions and no lines.
pub open spec fn is_token_module(m: ModuleView) -> bool {
    m.module_name == "TokenSourceLineInfo"@
}

/// The functions after the line region of a module, whose stream is given if
/// it is there.
pub open spec fn after_module(
    stream: Option<Seq<u8>>,
    m: ModuleView,
    checks: Seq<(u32, Seq<char>)>,
    functions: Seq<FunctionView>,
) -> Option<Seq<FunctionView>> {
    if m.stream <= 0 || m.cb_lines <= 0 || is_token_module(m) {
        Some(functions)
    } else {
        match stream {
            None => None,
            Some(s) => {
                let begin = m.cb_syms + m.cb_old_lines;
                let limit = begin + m.cb_lines;
                if begin < 0 || limit > s.len() {
                    None
                } else {
                    lines_from(s, begin, limit, checks, functions)
                }
            },
        }
    }
}

fn find_target(functions: &Vec<RawFunction>, segment: u16, address: u32) -> (r: Option<usize>)
    ensures
        match target_from(functions::function_views(functions@), segment, address, 0) {
            Some(k) => r is Some && r->Some_0 == k && 0 <= k < functions@.len(),
            None => r is None,
        },
{
    let ghost all = functions::function_views(functions@);
    let n: usize = functions.len();
    let mut i: usize = 0;
    while i < n
        invariant
            i <= n,
            n == functions@.len(),
            all == functions::function_views(functions@),
            target_from(all, segment, address, 0) == target_from(all, segment, address, i as int),
        decreases n - i,
    {
        proof {
            assert(all[i as int] == functions@[i as int]@);
        }
        if functions[i].segment == segment && functions[i].address == address
            && functions[i].lines.len() == 0 && functions[i].ranges.len() == 0 {
            return Some(i);
        }
        i += 1;
    }
    None
}

/// Walks the blocks without their lines: fails where one runs past the end of
/// the stream.
fn check_blocks(
    data: &[u8],
    start: usize,
    end: usize,
    stride: u64,
    Ghost(checks): Ghost<Seq<(u32, Seq<char>)>>,
) -> (r: Result<(), Error>)
    requires
        end <= data@.len(),
        stride == 8 || stride == 12,
    ensures
        r is Err ==> r->Err_0.kind() == ErrorKind::BadImage && blocks_from(
            data@,
            start as int,
            end as int,
            stride as int,
            checks,
        ) is None,
{
    let length: usize = data.len();
    let mut pos: usize = start;
    while pos < end
        invariant
            end <= length,
            length == data@.len(),
            stride == 8 || stride == 12,
            blocks_from(data@, start as int, end as int, stride as int, checks) is Some
                ==> blocks_from(data@, pos as int, end as int, stride as int, checks) is Some,
        decreases
            if pos < end {
                end - pos
            } else {
                0
            },
    {
        if length - pos < 12 {
            return Err(dbi::short(length, pos, 4, 3));
        }
        let count: u32 = bytes::get_u32(data, pos + 4);
        proof {
            assert(0 <= count * stride <= 12 * count) by (nonlinear_arith)
                requires
                    stride == 8 || stride == 12,
                    0 <= count,
            ;
        }
        let payload: u64 = count as u64 * stride;
        if ((length - pos - 12) as u64) < payload {
            return Err(dbi::beyond(length, ((pos + 12) as u64).wrapping_add(payload)));
        }
        pos = pos + 12 + payload as usize;
    }
    Ok(())
}

fn read_blocks(
    data: &[u8],
    start: usize,
    end: usize,
    columns: bool,
    checks: &Vec<(u32, String)>,
) -> (r: Result<Vec<LineEntry>, Error>)
    requires
        end <= data@.len(),
    ensures
        match blocks_from(
            data@,
            start as int,
            end as int,
            if columns {
                12
            } else {
                8
            },
            names::name_views(checks@),
        ) {
            Some(v) => r is Ok && functions::line_views(r->Ok_0@) == v,
            None => r is Err && r->Err_0.kind() == ErrorKind::BadImage,
        },
{
    let length: usize = data.len();
    let stride: u64 = if columns {
        12
    } else {
        8
    };
    let ghost known = names::name_views(checks@);
    let ghost whole = blocks_from(data@, start as int, end as int, stride as int, known);
    check_blocks(data, start, end, stride, Ghost(known))?;
    let mut lines: Vec<LineEntry> = Vec::new();
    let mut pos: usize = start;
    proof {
        assert(functions::line_views(lines@) =~= Seq::<LineView>::empty());
        if let Some(rest) = whole {
            assert(functions::line_views(lines@) + rest =~= rest);
        }
    }
    while pos < end
        invariant
            end <= length,
            length == data@.len(),
            stride == (if columns {
                12u64
            } else {
                8u64
            }),
            known == names::name_views(checks@),
            whole == blocks_from(data@, start as int, end as int, stride as int, known),
            whole == (match blocks_from(
                data@,
                pos as int,
                end as int,
                stride as int,
                known,
            ) {
                Some(rest) => Some(functions::line_views(lines@) + rest),
                None => None,
            }),
        decreases
            if pos < end {
                end - pos
            } else {
                0
            },
    {
        if length - pos < 12 {
            return Err(dbi::short(length, pos, 4, 3));
        }
        let count: u32 = bytes::get_u32(data, pos + 4);
        proof {
            assert(0 <= count * stride <= 12 * count) by (nonlinear_arith)
                requires
                    stride == 8 || stride == 12,
                    0 <= count,
            ;
        }
        let payload: u64 = count as u64 * stride;
        if end - pos < 12 || ((end - pos - 12) as u64) < payload {
            return Err(Error::bad_image("native pdb: line block overruns subsection"));
        }
        let file = match names::find_name(checks, bytes::get_u32(data, pos)) {
            Some(file) => file,
            None => {
                return Err(
                    Error::bad_image(
                        Message::new(
                            "native pdb: line block references missing checksum entry ",
                        ).count(bytes::get_u32(data, pos) as u64).as_str(),
                    ),
                );
            },
        };
        let ghost before = functions::line_views(lines@);
        let ghost block = block_lines(data@, pos + 12, count as nat, file@);
        let n: usize = count as usize;
        let at: usize = pos + 12;
        let mut i: usize = 0;
        proof {
            assert(before + block.take(0) =~= before);
            assert(8 * n <= payload) by (nonlinear_arith)
                requires
                    payload == n * stride,
                    stride >= 8,
                    n >= 0,
            ;
        }
        while i < n
            invariant
                i <= n,
                length == data@.len(),
                at + 8 * n <= length,
                n == count,
                block == block_lines(data@, at as int, count as nat, file@),
                functions::line_views(lines@) == before + block.take(i as int),
            decreases n - i,
        {
            let ghost was = functions::line_views(lines@);
            let entry = LineEntry {
                rva_delta: bytes::get_u32(data, at + 8 * i),
                line: bytes::get_u32(data, at + 8 * i + 4) % 0x100_0000,
                file: file.to_owned(),
            };
            let ghost view = entry@;
            lines.push(entry);
            proof {
                assert(view == block[i as int]);
                assert(functions::line_views(lines@) =~= was.push(view));
                assert(before + block.take(i + 1) =~= was.push(view));
            }
            i += 1;
        }
        proof {
            assert(block.take(n as int) =~= block);
            let stop = pos + 12 + payload;
            if let Some(rest) = blocks_from(
                data@,
                stop,
                end as int,
                stride as int,
                known,
            ) {
                assert(before + (block + rest) =~= functions::line_views(lines@) + rest);
            }
        }
        pos = pos + 12 + payload as usize;
    }
    proof {
        assert(functions::line_views(lines@) + Seq::<LineView>::empty() =~= functions::line_views(
            lines@,
        ));
    }
    Ok(lines)
}

/// Reads a line section and gives its lines to the function that it belongs to.
fn read_section(
    data: &[u8],
    place: usize,
    end: usize,
    checks: &Vec<(u32, String)>,
    functions: &mut Vec<RawFunction>,
) -> (r: Result<(), Error>)
    requires
        place <= end <= data@.len(),
    ensures
        match after_section(
            data@,
            place as int,
            end as int,
            names::name_views(checks@),
            functions::function_views(old(functions)@),
        ) {
            Some(v) => r is Ok && functions::function_views(final(functions)@) == v,
            None => r is Err && r->Err_0.kind() == ErrorKind::BadImage,
        },
{
    let ghost before = functions::function_views(functions@);
    if data.len() - place < 12 {
        return Err(
            dbi::stopped(
                data.len(),
                place,
                vec![
                    Step::Reads { width: 4, times: 1 },
                    Step::Reads { width: 2, times: 2 },
                    Step::Reads { width: 4, times: 1 },
                ],
            ),
        );
    }
    let address: u32 = bytes::get_u32(data, place);
    let segment: u16 = bytes::get_u16(data, place + 4);
    let flags: u16 = bytes::get_u16(data, place + 6);
    let length: u32 = bytes::get_u32(data, place + 8);
    let k: usize = match find_target(functions, segment, address) {
        Some(k) => k,
        None => {
            return Ok(());
        },
    };
    let lines = read_blocks(data, place + 12, end, flags % 2 == 1, checks)?;
    let mut ranges: Vec<(u64, usize)> = Vec::new();
    ranges.push((address as u64, length as usize));
    let ghost range_view = ranges@;
    let ghost view = functions::line_views(lines@);
    let ghost was = functions@;
    functions[k].ranges = ranges;
    functions[k].lines = lines;
    proof {
        assert(range_view =~= seq![(address as u64, length as usize)]);
        assert(before[k as int] == was[k as int]@);
        assert(functions::function_views(functions@) =~= before.update(
            k as int,
            FunctionView { ranges: range_view, lines: view, ..before[k as int] },
        ));
    }
    Ok(())
}

/// Reads the line region of a module's stream and gives the lines to the
/// functions that they belong to.
fn read_lines(
    data: &[u8],
    begin: usize,
    limit: usize,
    checks: &Vec<(u32, String)>,
    functions: &mut Vec<RawFunction>,
) -> (r: Result<(), Error>)
    requires
        begin <= limit <= data@.len(),
    ensures
        match lines_from(
            data@,
            begin as int,
            limit as int,
            names::name_views(checks@),
            functions::function_views(old(functions)@),
        ) {
            Some(v) => r is Ok && functions::function_views(final(functions)@) == v,
            None => r is Err && r->Err_0.kind() == ErrorKind::BadImage,
        },
{
    let length: usize = data.len();
    let ghost known = names::name_views(checks@);
    let ghost whole = lines_from(
        data@,
        begin as int,
        limit as int,
        known,
        functions::function_views(functions@),
    );
    let mut pos: usize = begin;
    while pos < limit
        invariant
            pos <= limit <= length,
            length == data@.len(),
            known == names::name_views(checks@),
            whole == lines_from(
                data@,
                begin as int,
                limit as int,
                known,
                functions::function_views(old(functions)@),
            ),
            whole == lines_from(
                data@,
                pos as int,
                limit as int,
                known,
                functions::function_views(functions@),
            ),
        decreases limit - pos,
    {
        if length - pos < 8 {
            return Err(dbi::short(length, pos, 4, 2));
        }
        let kind: i32 = dbi::get_int(data, pos);
        let size: i32 = dbi::get_int(data, pos + 4);
        if size < 0 {
            return Err(Error::bad_image("native pdb: negative subsection size"));
        }
        if limit - pos < 8 || ((limit - pos - 8) as u64) < size as u64 {
            return Err(
                Error::bad_image("native pdb: C13 subsection overruns module line region"),
            );
        }
        let stop: usize = pos + 8 + size as usize;
        if kind == LINES {
            read_section(data, pos + 8, stop, checks, functions)?;
        }
        pos = stop;
    }
    Ok(())
}

/// The error of a module whose stream is not there.
pub(crate) fn missing_stream(info: &DbiModuleInfo) -> (e: Error)
    ensures
        e.kind() == ErrorKind::BadImage,
        e.text() == "native pdb: module '"@ + info.module_name@
            + "' references missing stream #"@ + text::signed_decimal(info.stream as int),
{
    Error::bad_image(
        Message::new("native pdb: module '").text(info.module_name.as_str()).text(
            "' references missing stream #",
        ).number(info.stream as i64).as_str(),
    )
}

pub(crate) fn token_module(info: &DbiModuleInfo) -> (b: bool)
    ensures
        b == is_token_module(info@),
{
    text::same(info.module_name.as_str(), "TokenSourceLineInfo")
}

/// Gives the lines of a module to the functions that they belong to.
pub(crate) fn assign_module_lines(
    stream: Option<&[u8]>,
    info: &DbiModuleInfo,
    checks: &Vec<(u32, String)>,
    functions: &mut Vec<RawFunction>,
) -> (r: Result<(), Error>)
    ensures
        match after_module(
            match stream {
                Some(s) => Some(s@),
                None => None,
            },
            info@,
            names::name_views(checks@),
            functions::function_views(old(functions)@),
        ) {
            Some(v) => r is Ok && functions::function_views(final(functions)@) == v,
            None => r is Err && r->Err_0.kind() == ErrorKind::BadImage,
        },
{
    if info.stream <= 0 || info.cb_lines <= 0 || token_module(info) {
        return Ok(());
    }
    match stream {
        None => Err(missing_stream(info)),
        Some(data) => {
            let begin: i64 = info.cb_syms as i64 + info.cb_old_lines as i64;
            let limit: i64 = begin + info.cb_lines as i64;
            if begin < 0 || limit as u64 > data.len() as u64 {
                return Err(
                    Error::bad_image(
                        Message::new("native pdb: module '").text(
                            info.module_name.as_str(),
                        ).text("' line region [").number(begin).text(",").number(limit).text(
                            ") exceeds stream of ",
                        ).count(data.len() as u64).text(" bytes").as_str(),
                    ),
                );
            }
            read_lines(data, begin as usize, limit as usize, checks, functions)
        },
    }
}

} // verus!
