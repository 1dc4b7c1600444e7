//! Where the address ranges of functions start.

use vstd::prelude::*;

use crate::pdb::native::dbi::{DbiDbgHdr, ModuleView};
use crate::pdb::native::functions;
use crate::pdb::native::functions::FunctionView;
use crate::pdb::native::line_programs;
use crate::pdb::native::msf::MsfView;
use crate::pdb::native::symbols;

verus! {

/// A function has one address range at most, which starts at its own address.
pub open spec fn starts_at_home(f: FunctionView) -> bool {
    f.ranges.len() == 0 || (f.ranges.len() == 1 && f.ranges[0].0 == f.address)
}

/// All functions have their ranges at their own addresses.
pub open spec fn all_start_at_home(functions: Seq<FunctionView>) -> bool {
    forall|k: int| 0 <= k < functions.len() ==> starts_at_home(#[trigger] functions[k])
}

proof fn read_at_home(s: Seq<u8>, pos: int, limit: int, depth: int)
    ensures
        functions::functions_from(s, pos, limit, depth) matches Some(v) ==> all_start_at_home(v),
    decreases limit - pos,
{
    if pos < limit {
        let size = crate::bytes::u16_at(s, pos) as int;
        let kind = crate::bytes::u16_at(s, pos + 2);
        let stop = pos + 2 + size;
        if pos + 2 <= s.len() && size >= 2 && stop <= limit {
            read_at_home(s, stop, limit, functions::depth_after(kind, depth));
        }
    }
}

proof fn gathered_at_home(
    m: MsfView,
    modules: Seq<ModuleView>,
    known: Seq<(u32, Seq<char>)>,
    n: nat,
)
    ensures
        symbols::gathered(m, modules, known, n) matches Some(g) ==> all_start_at_home(g.functions),
    decreases n,
{
    if n > 0 {
        gathered_at_home(m, modules, known, (n - 1) as nat);
        let info = modules[n - 1];
        if let Some(s) = symbols::module_stream(m, info) {
            read_at_home(s, 4, info.cb_syms as int, 0);
        }
    }
}

proof fn sorted_at_home(functions: Seq<FunctionView>)
    requires
        all_start_at_home(functions),
    ensures
        all_start_at_home(functions::sorted_functions(functions)),
    decreases functions.len(),
{
    if functions.len() > 0 {
        let front = functions::sorted_functions(functions.drop_last());
        let last = functions.last();
        let place = functions::sorted_place(front, last, 0);
        sorted_at_home(functions.drop_last());
        functions::place_bounded(front, last, 0);
        assert(starts_at_home(functions[functions.len() - 1]));
        assert forall|k: int| 0 <= k < front.len() + 1 implies starts_at_home(
            #[trigger] front.insert(place, last)[k],
        ) by {
            if k < place {
                assert(starts_at_home(front[k]));
            } else if k > place {
                assert(starts_at_home(front[k - 1]));
            }
        }
    }
}

proof fn target_found(functions: Seq<FunctionView>, segment: u16, address: u32, i: int)
    ensures
        line_programs::target_from(functions, segment, address, i) matches Some(k) ==> 0 <= k
            < functions.len() && functions[k].address == address,
    decreases functions.len() - i,
{
    if 0 <= i < functions.len() {
        target_found(functions, segment, address, i + 1);
    }
}

proof fn section_at_home(
    s: Seq<u8>,
    place: int,
    end: int,
    checks: Seq<(u32, Seq<char>)>,
    functions: Seq<FunctionView>,
)
    requires
        all_start_at_home(functions),
    ensures
        line_programs::after_section(s, place, end, checks, functions) matches Some(v)
            ==> all_start_at_home(v),
{
    target_found(
        functions,
        crate::bytes::u16_at(s, place + 4),
        crate::bytes::u32_at(s, place),
        0,
    );
}

proof fn lines_at_home(
    s: Seq<u8>,
    pos: int,
    limit: int,
    checks: Seq<(u32, Seq<char>)>,
    functions: Seq<FunctionView>,
)
    requires
        all_start_at_home(functions),
    ensures
        line_programs::lines_from(s, pos, limit, checks, functions) matches Some(v)
            ==> all_start_at_home(v),
    decreases limit - pos,
{
    if pos < limit {
        let size = crate::pdb::native::dbi::int_at(s, pos + 4);
        let stop = pos + 8 + size;
        if pos + 8 <= s.len() && size >= 0 && stop <= limit {
            section_at_home(s, pos + 8, stop, checks, functions);
            match line_programs::after_section(s, pos + 8, stop, checks, functions) {
                Some(after) => {
                    lines_at_home(s, stop, limit, checks, after);
                },
                None => {},
            }
            lines_at_home(s, stop, limit, checks, functions);
        }
    }
}

proof fn assigned_at_home(
    m: MsfView,
    modules: Seq<ModuleView>,
    checks: Seq<Seq<(u32, Seq<char>)>>,
    functions: Seq<FunctionView>,
    n: nat,
)
    requires
        all_start_at_home(functions),
    ensures
        symbols::assigned(m, modules, checks, functions, n) matches Some(v)
            ==> all_start_at_home(v),
    decreases n,
{
    if n > 0 {
        assigned_at_home(m, modules, checks, functions, (n - 1) as nat);
        let info = modules[n - 1];
        let begin = info.cb_syms + info.cb_old_lines;
        match (
            symbols::assigned(m, modules, checks, functions, (n - 1) as nat),
            symbols::module_stream(m, info),
        ) {
            (Some(f), Some(s)) => {
                lines_at_home(s, begin, begin + info.cb_lines, checks[n - 1], f);
            },
            _ => {},
        }
    }
}

/// Every address range that is read of a native PDB starts at the address of
/// its function, so that one base address serves all lines of a function; and
/// no function has two ranges.
pub proof fn ranges_start_at_home(
    m: MsfView,
    modules: Seq<ModuleView>,
    known: Seq<(u32, Seq<char>)>,
    d: DbiDbgHdr,
)
    ensures
        match symbols::gathered(m, modules, known, modules.len()) {
            Some(g) => symbols::functions_of(m, modules, d, g) matches Some(f)
                ==> all_start_at_home(f),
            None => true,
        },
{
    gathered_at_home(m, modules, known, modules.len());
    match symbols::gathered(m, modules, known, modules.len()) {
        Some(g) => {
            let sorted = functions::sorted_functions(g.functions);
            sorted_at_home(g.functions);
            assigned_at_home(m, modules, g.checks, sorted, modules.len());
            match (
                symbols::assigned(m, modules, g.checks, sorted, modules.len()),
                crate::pdb::native::msf::stream_bytes(m, d.sn_token_rid_map as int),
            ) {
                (Some(f), Some(map)) => {
                    assert forall|k: int| 0 <= k < f.len() implies starts_at_home(
                        #[trigger] functions::with_mapped_token(f[k], map),
                    ) by {
                        assert(starts_at_home(f[k]));
                    }
                },
                _ => {},
            }
            if let Some(f) = symbols::assigned(m, modules, g.checks, sorted, modules.len()) {
                if let Some(mapped) = symbols::with_row_map(m, d, f) {
                    assert(all_start_at_home(mapped));
                    sorted_at_home(mapped);
                }
            }
        },
        None => {},
    }
}

/// None of the functions comes after a later one.
pub open spec fn in_order(functions: Seq<FunctionView>) -> bool {
    forall|i: int, j: int|
        #![trigger functions[i], functions[j]]
        0 <= i < j < functions.len() ==> !functions::goes_after(functions[i], functions[j])
}

/// The functions that are read of a native PDB come in the order of segment,
/// address and token, the token being the one that is read.
pub proof fn functions_come_in_order(m: MsfView)
    ensures
        symbols::native_of(m) matches Some(v) ==> exists|f: Seq<FunctionView>|
            #![trigger symbols::finished_functions(f)]
            v.functions == symbols::finished_functions(f) && in_order(f),
{
    match symbols::native_of(m) {
        Some(v) => {
            let info = crate::pdb::native::names::parsed_info(
                crate::pdb::native::msf::stream_bytes(m, 1)->Some_0,
            )->Some_0;
            let known = symbols::names_of(m, info)->Some_0;
            let (h, d, modules) = crate::pdb::native::dbi::parsed_dbi(
                crate::pdb::native::msf::stream_bytes(m, 3)->Some_0,
            )->Some_0;
            let g = symbols::gathered(m, modules, known, modules.len())->Some_0;
            let lined = symbols::assigned(
                m,
                modules,
                g.checks,
                functions::sorted_functions(g.functions),
                modules.len(),
            )->Some_0;
            let mapped = symbols::with_row_map(m, d, lined)->Some_0;
            let f = functions::sorted_functions(mapped);
            functions::functions_are_sorted(mapped);
            assert(v.functions == symbols::finished_functions(f));
            assert(in_order(f));
        },
        None => {},
    }
}

/// The lines of what is read of a native PDB count from addresses of 32 bits.
pub proof fn bases_are_small(m: MsfView)
    ensures
        symbols::native_of(m) matches Some(v) ==> symbols::small_bases(v.functions),
{
    match symbols::native_of(m) {
        Some(v) => {
            let info = crate::pdb::native::names::parsed_info(
                crate::pdb::native::msf::stream_bytes(m, 1)->Some_0,
            )->Some_0;
            let known = symbols::names_of(m, info)->Some_0;
            let (h, d, modules) = crate::pdb::native::dbi::parsed_dbi(
                crate::pdb::native::msf::stream_bytes(m, 3)->Some_0,
            )->Some_0;
            ranges_start_at_home(m, modules, known, d);
            let g = symbols::gathered(m, modules, known, modules.len())->Some_0;
            let f = symbols::functions_of(m, modules, d, g)->Some_0;
            assert(v.functions == symbols::finished_functions(f));
            assert forall|k: int| 0 <= k < v.functions.len() implies symbols::base_of(
                #[trigger] v.functions[k],
            ) <= 0xFFFF_FFFF by {
                assert(starts_at_home(f[k]));
            }
        },
        None => {},
    }
}

} // verus!
