//! Laws of the questions to a native PDB: which function an address or a token
//! selects, where lines lie, and which parts of the file functions, lines and
//! public symbols come from.

use vstd::prelude::*;

use crate::pdb::native::dbi::{DbiHeader, ModuleView};
use crate::pdb::native::functions;
use crate::pdb::native::functions::FunctionView;
use crate::pdb::native::line_programs;
use crate::pdb::native::msf::MsfView;
use crate::pdb::native::symbols;
use crate::pdb::native::symbols::{FunctionKey, FunctionLinesView, GatherView};
use crate::token::Token;

verus! {

/// The address is one of the `length` ones from the start of the range on.
pub open spec fn inside(range: (u64, usize), rva: u64) -> bool {
    range.0 <= rva < range.0 + range.1
}

/// One of the ranges of the function has the address in it.
pub open spec fn reaches(f: FunctionLinesView, rva: u64) -> bool {
    exists|k: int| 0 <= k < f.ranges.len() && inside(#[trigger] f.ranges[k], rva)
}

proof fn cover_is_reach(f: FunctionLinesView, rva: u64)
    ensures
        symbols::covers(f.ranges, rva) == reaches(f, rva),
{
    if reaches(f, rva) {
        let k = choose|k: int| 0 <= k < f.ranges.len() && inside(#[trigger] f.ranges[k], rva);
        assert(symbols::in_range(f.ranges[k], rva));
    }
    if symbols::covers(f.ranges, rva) {
        let k = choose|k: int|
            0 <= k < f.ranges.len() && symbols::in_range(#[trigger] f.ranges[k], rva);
        assert(inside(f.ranges[k], rva));
    }
}

proof fn reached_from(list: Seq<FunctionLinesView>, rva: u64, from: int, i: int)
    requires
        0 <= from <= i <= list.len(),
        i < list.len() ==> reaches(list[i], rva),
        forall|j: int| from <= j < i ==> !reaches(#[trigger] list[j], rva),
    ensures
        symbols::rva_place(list, rva, from) == if i < list.len() {
            Some(i)
        } else {
            None
        },
    decreases i - from,
{
    if from < list.len() {
        cover_is_reach(list[from], rva);
        if from < i {
            reached_from(list, rva, from + 1, i);
        }
    }
}

proof fn told_from(list: Seq<FunctionLinesView>, token: Token, from: int, i: int)
    requires
        0 <= from <= i <= list.len(),
        i < list.len() ==> list[i].token == token,
        forall|j: int| from <= j < i ==> (#[trigger] list[j]).token != token,
    ensures
        symbols::token_place(list, token, from) == if i < list.len() {
            Some(i)
        } else {
            None
        },
    decreases i - from,
{
    if from < list.len() && from < i {
        told_from(list, token, from + 1, i);
    }
}

/// An address selects the first function with a range that has it, and none if
/// there is no such function.
pub proof fn addresses_select_functions(list: Seq<FunctionLinesView>, rva: u64, i: int)
    requires
        0 <= i <= list.len(),
        i < list.len() ==> reaches(list[i], rva),
        forall|j: int| 0 <= j < i ==> !reaches(#[trigger] list[j], rva),
    ensures
        i < list.len() ==> symbols::selected(list, FunctionKey::Rva(rva)) == Some(i),
        i == list.len() ==> symbols::selected(list, FunctionKey::Rva(rva)) is None,
{
    reached_from(list, rva, 0, i);
}

/// A token selects the first function that has it, and none if there is no such
/// function.
pub proof fn tokens_select_functions(list: Seq<FunctionLinesView>, token: Token, i: int)
    requires
        0 <= i <= list.len(),
        i < list.len() ==> list[i].token == token,
        forall|j: int| 0 <= j < i ==> (#[trigger] list[j]).token != token,
    ensures
        i < list.len() ==> symbols::selected(list, FunctionKey::Token(token)) == Some(i),
        i < list.len() ==> symbols::token_place(list, token, 0) == Some(i),
        i == list.len() ==> symbols::selected(list, FunctionKey::Token(token)) is None,
        i == list.len() ==> symbols::token_place(list, token, 0) is None,
{
    told_from(list, token, 0, i);
}

/// A line lies as far behind the start of the first range as it says, in its file.
pub proof fn lines_have_addresses(f: FunctionLinesView, start: u64, length: usize, k: int)
    requires
        f.ranges.len() > 0,
        f.ranges[0] == (start, length),
        0 <= k < f.lines.len(),
    ensures
        symbols::placed_lines(f).len() == f.lines.len(),
        symbols::placed_lines(f)[k].0 - start == f.lines[k].rva_delta,
        symbols::placed_lines(f)[k].1 == f.lines[k].line,
        symbols::placed_lines(f)[k].2 == f.lines[k].file,
        symbols::base_of(f) == start,
{
}

/// What is read of a function keeps its name, its ranges, its lines and the number
/// of its token.
pub proof fn functions_keep_their_parts(list: Seq<FunctionView>, k: int)
    requires
        0 <= k < list.len(),
    ensures
        symbols::finished_functions(list).len() == list.len(),
        symbols::finished_functions(list)[k].token.0 == list[k].token,
        symbols::finished_functions(list)[k].name == list[k].name,
        symbols::finished_functions(list)[k].ranges == list[k].ranges,
        symbols::finished_functions(list)[k].lines == list[k].lines,
{
}

/// Public symbols come from the public symbol stream; where this holds none, or is
/// not there, they come from the global one.
pub proof fn public_symbols_have_a_stream(m: MsfView, h: DbiHeader)
    ensures
        ({
            let k = h.pssym_stream as int;
            0 < k < m.streams.len() && m.streams[k] is Some && functions::publics_of(
                m.streams[k]->Some_0.bytes,
            ).len() > 0 ==> symbols::publics_found(m, h) == functions::publics_of(
                m.streams[k]->Some_0.bytes,
            )
        }),
        ({
            let p = h.pssym_stream as int;
            let k = h.gssym_stream as int;
            &&& 0 < k < m.streams.len()
            &&& m.streams[k] is Some
            &&& p <= 0 || p >= m.streams.len() || m.streams[p] is None || functions::publics_of(
                m.streams[p]->Some_0.bytes,
            ).len() == 0
        } ==> symbols::publics_found(m, h) == functions::publics_of(
            m.streams[h.gssym_stream as int]->Some_0.bytes,
        )),
        h.pssym_stream <= 0 && h.gssym_stream <= 0 ==> symbols::publics_found(m, h).len() == 0,
{
}

/// A module without a stream adds no functions and no files.
pub proof fn modules_without_a_stream(
    m: MsfView,
    info: ModuleView,
    known: Seq<(u32, Seq<char>)>,
    g: GatherView,
    lines: Seq<FunctionView>,
)
    requires
        info.stream <= 0,
    ensures
        symbols::after_gather(m, info, known, g) matches Some(after) && {
            &&& after.functions == g.functions
            &&& after.sources == g.sources
            &&& after.checks.len() == g.checks.len() + 1
            &&& after.checks.drop_last() == g.checks
            &&& after.checks.last().len() == 0
        },
        line_programs::after_module(symbols::module_stream(m, info), info, Seq::empty(), lines)
            == Some(lines),
{
    let after = symbols::after_gather(m, info, known, g)->Some_0;
    assert(after.checks.drop_last() =~= g.checks);
}

/// The functions of a module stand in the first part of its stream. Those of the
/// module that only says where tokens stand are left out.
pub proof fn functions_of_a_module(
    m: MsfView,
    info: ModuleView,
    known: Seq<(u32, Seq<char>)>,
    g: GatherView,
)
    requires
        0 < info.stream < m.streams.len(),
        m.streams[info.stream as int] is Some,
    ensures
        ({
            let s = m.streams[info.stream as int]->Some_0.bytes;
            let found = functions::module_functions(s, info.cb_syms);
            symbols::after_gather(m, info, known, g) matches Some(after) ==> {
                &&& after.checks.len() == g.checks.len() + 1
                &&& info.module_name == "TokenSourceLineInfo"@ ==> after.functions == g.functions
                &&& info.module_name != "TokenSourceLineInfo"@ ==> found is Some
                    && after.functions == g.functions + found->Some_0
            }
        }),
{
    let s = m.streams[info.stream as int]->Some_0.bytes;
    if let Some(after) = symbols::after_gather(m, info, known, g) {
        assert(g.functions + Seq::<FunctionView>::empty() =~= g.functions);
    }
}

/// The lines and the file entries of a module stand behind its symbols and its
/// old-style lines, as long as it says.
pub proof fn lines_of_a_module(
    s: Seq<u8>,
    info: ModuleView,
    checks: Seq<(u32, Seq<char>)>,
    known: Seq<(u32, Seq<char>)>,
    list: Seq<FunctionView>,
    begin: int,
)
    requires
        info.stream > 0,
        info.cb_lines > 0,
        info.cb_syms >= 0,
        info.cb_old_lines >= 0,
        begin == info.cb_syms + info.cb_old_lines,
    ensures
        begin + info.cb_lines <= s.len() && info.module_name != "TokenSourceLineInfo"@
            ==> line_programs::after_module(Some(s), info, checks, list)
            == line_programs::lines_from(s, begin, begin + info.cb_lines, checks, list),
        begin + info.cb_lines <= s.len() ==> line_programs::module_checks(s, info, known)
            == line_programs::checks_from(s, begin, begin + info.cb_lines, known),
        begin + info.cb_lines > s.len() ==> line_programs::module_checks(s, info, known) == Some(
            Seq::<(u32, Seq<char>)>::empty(),
        ),
        begin + info.cb_lines > s.len() && info.module_name != "TokenSourceLineInfo"@
            ==> line_programs::after_module(Some(s), info, checks, list) is None,
        info.module_name == "TokenSourceLineInfo"@ ==> line_programs::after_module(
            Some(s),
            info,
            checks,
            list,
        ) == Some(list),
{
}

} // verus!
