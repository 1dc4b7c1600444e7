//! Native (Windows) PDB CodeView symbol layer, on top of the MSF container
//! ([`crate::pdb::native::msf::MsfImage`]). Reads:
//!
//! * the PDB **info stream** (stream 1): version/signature/age/GUID plus the
//!   named-stream index,
//! * the `/names` string heap stream,
//! * the **DBI stream** (stream 3): [`DbiHeader`], per-module [`DbiModuleInfo`]
//!   records (with their [`DbiSecCon`] section contributions) and the optional
//!   [`DbiDbgHdr`] debug header,
//! * per-module **debug streams**: managed procedure records and C13 line
//!   subsections,
//! * the DBI **global symbol stream** for public symbols.
//!
//! Unknown symbol kinds and unknown C13 subsection types are skipped by record
//! length. A record whose length overruns its containing region, an undersized
//! (`< 2`) record length, or truncated fixed-size structures are errors. So are
//! a procedure whose segment differs from 1 or that carries a non-zero
//! parent/next link, and a symbol region that ends with a scope still open, be
//! it that of a managed procedure, a native one or a lexical block.

use vstd::prelude::*;

use crate::error::{Error, ErrorKind};
use crate::pdb::native::dbi;
use crate::pdb::native::dbi::ModuleView;
use crate::pdb::native::functions;
use crate::pdb::native::functions::{FunctionView, LineView, RawFunction};
use crate::pdb::native::line_programs;
use crate::pdb::native::msf;
use crate::pdb::native::msf::{MsfImage, MsfView};
use crate::pdb::native::names;
use crate::pdb::native::range_laws;
use crate::text;
use crate::text::Message;
use crate::token::Token;

pub use crate::pdb::native::dbi::{DbiDbgHdr, DbiHeader, DbiModuleInfo, DbiSecCon};
pub use crate::pdb::native::functions::LineEntry;

verus! {

/// A managed function recovered from native PDB symbols: its metadata token,
/// covered address range(s) and mapped source lines.
#[derive(Debug, Clone, PartialEq, Eq)]
pub struct FunctionLines {
    pub token: Token,
    pub name: String,
    /// `(start rva, length in bytes)` pairs, one per matched line section. The
    /// section's address and segment are treated directly as the function's
    /// RVA/segment coordinates.
    pub ranges: Vec<(u64, usize)>,
    pub lines: Vec<LineEntry>,
}

/// What a function says.
#[verifier::ext_equal]
pub struct FunctionLinesView {
    pub token: Token,
    pub name: Seq<char>,
    pub ranges: Seq<(u64, usize)>,
    pub lines: Seq<LineView>,
}

impl View for FunctionLines {
    type V = FunctionLinesView;

    open spec fn view(&self) -> FunctionLinesView {
        FunctionLinesView {
            token: self.token,
            name: self.name@,
            ranges: self.ranges@,
            lines: functions::line_views(self.lines@),
        }
    }
}

/// What functions say.
pub open spec fn function_line_views(functions: Seq<FunctionLines>) -> Seq<FunctionLinesView> {
    Seq::new(functions.len(), |k: int| functions[k]@)
}

/// Selector for [`NativePdbReader::lines_for_function`].
#[derive(Debug, Clone, Copy, PartialEq, Eq)]
pub enum FunctionKey {
    /// Look the function up by its metadata method token.
    Token(Token),
    /// Look the function up by an RVA inside one of its address ranges.
    Rva(u64),
}

/// PDB identity triple read from the info stream.
#[derive(Debug, Clone, Copy)]
pub struct PdbId {
    pub version: u32,
    pub signature: u32,
    pub age: u32,
}

/// What the modules give before lines are assigned.
#[verifier::ext_equal]
pub struct GatherView {
    pub functions: Seq<FunctionView>,
    /// The file checksum entries of every module.
    pub checks: Seq<Seq<(u32, Seq<char>)>>,
    /// The source files, in the order in which they were first named.
    pub sources: Seq<Seq<char>>,
}

/// The source files with the first `n` of the entries added, each once.
pub open spec fn with_sources(
    sources: Seq<Seq<char>>,
    checks: Seq<(u32, Seq<char>)>,
    n: nat,
) -> Seq<Seq<char>>
    decreases n,
{
    if n == 0 {
        sources
    } else {
        let before = with_sources(sources, checks, (n - 1) as nat);
        if before.contains(checks[n - 1].1) {
            before
        } else {
            before.push(checks[n - 1].1)
        }
    }
}

/// The stream of a module.
pub open spec fn module_stream(m: MsfView, info: ModuleView) -> Option<Seq<u8>> {
    if info.stream > 0 {
        msf::stream_bytes(m, info.stream as int)
    } else {
        None
    }
}

/// What is gathered when a module is added.
pub open spec fn after_gather(
    m: MsfView,
    info: ModuleView,
    known: Seq<(u32, Seq<char>)>,
    g: GatherView,
) -> Option<GatherView> {
    if info.stream <= 0 {
        Some(GatherView { checks: g.checks.push(Seq::empty()), ..g })
    } else {
        match module_stream(m, info) {
            None => None,
            Some(s) => {
                let found = if line_programs::is_token_module(info) {
                    Some(Seq::empty())
                } else {
                    functions::module_functions(s, info.cb_syms)
                };
                match (found, line_programs::module_checks(s, info, known)) {
                    (Some(f), Some(c)) => Some(
                        GatherView {
                            functions: g.functions + f,
                            checks: g.checks.push(c),
                            sources: with_sources(g.sources, c, c.len()),
                        },
                    ),
                    _ => None,
                }
            },
        }
    }
}

/// What the first `n` modules give.
pub open spec fn gathered(
    m: MsfView,
    modules: Seq<ModuleView>,
    known: Seq<(u32, Seq<char>)>,
    n: nat,
) -> Option<GatherView>
    decreases n,
{
    if n == 0 {
        Some(
            GatherView {
                functions: Seq::empty(),
                checks: Seq::empty(),
                sources: Seq::empty(),
            },
        )
    } else {
        match gathered(m, modules, known, (n - 1) as nat) {
            None => None,
            Some(g) => after_gather(m, modules[n - 1], known, g),
        }
    }
}

/// The functions with the lines of the first `n` modules.
pub open spec fn assigned(
    m: MsfView,
    modules: Seq<ModuleView>,
    checks: Seq<Seq<(u32, Seq<char>)>>,
    functions: Seq<FunctionView>,
    n: nat,
) -> Option<Seq<FunctionView>>
    decreases n,
{
    if n == 0 {
        Some(functions)
    } else {
        match assigned(m, modules, checks, functions, (n - 1) as nat) {
            None => None,
            Some(f) => line_programs::after_module(
                module_stream(m, modules[n - 1]),
                modules[n - 1],
                checks[n - 1],
                f,
            ),
        }
    }
}

/// The functions with their tokens taken through the row map of the debug
/// header, where it names one.
pub open spec fn with_row_map(m: MsfView, d: DbiDbgHdr, functions: Seq<FunctionView>) -> Option<
    Seq<FunctionView>,
> {
    if d.sn_token_rid_map == 0 || d.sn_token_rid_map == 0xFFFF {
        Some(functions)
    } else {
        match msf::stream_bytes(m, d.sn_token_rid_map as int) {
            None => None,
            Some(map) => functions::remapped(functions, map),
        }
    }
}

/// The public symbols of the stream, if there is one.
pub open spec fn stream_publics(m: MsfView, stream: i16) -> Seq<(Seq<char>, u64)> {
    if stream > 0 {
        match msf::stream_bytes(m, stream as int) {
            Some(s) => functions::publics_of(s),
            None => Seq::empty(),
        }
    } else {
        Seq::empty()
    }
}

/// The public symbols: those of the public symbol stream, or of the global one
/// if there are none.
pub open spec fn publics_found(m: MsfView, h: DbiHeader) -> Seq<(Seq<char>, u64)> {
    if stream_publics(m, h.pssym_stream).len() > 0 {
        stream_publics(m, h.pssym_stream)
    } else {
        stream_publics(m, h.gssym_stream)
    }
}

/// What is read of a function.
pub open spec fn finished_function(f: FunctionView) -> FunctionLinesView {
    FunctionLinesView { token: Token(f.token), name: f.name, ranges: f.ranges, lines: f.lines }
}

/// What is read of functions.
pub open spec fn finished_functions(functions: Seq<FunctionView>) -> Seq<FunctionLinesView> {
    Seq::new(functions.len(), |k: int| finished_function(functions[k]))
}

/// The names of a heap.
pub open spec fn just_names(names: Seq<(u32, Seq<char>)>) -> Seq<Seq<char>> {
    Seq::new(names.len(), |k: int| names[k].1)
}

/// What a native PDB says.
#[verifier::ext_equal]
pub struct NativeView {
    pub guid: Seq<u8>,
    pub version: u32,
    pub signature: u32,
    pub age: u32,
    /// The names of the `/names` heap, in bucket order.
    pub names: Seq<Seq<char>>,
    pub dbi_header: DbiHeader,
    pub dbg_header: DbiDbgHdr,
    pub modules: Seq<ModuleView>,
    pub functions: Seq<FunctionLinesView>,
    pub publics: Seq<(Seq<char>, u64)>,
    pub source_files: Seq<Seq<char>>,
}

/// The functions of the modules with their lines, in the order of segment,
/// address and token. Where a row map changes the tokens, the lines go by the
/// tokens before, and the order by those after.
pub open spec fn functions_of(
    m: MsfView,
    modules: Seq<ModuleView>,
    d: DbiDbgHdr,
    g: GatherView,
) -> Option<Seq<FunctionView>> {
    match assigned(
        m,
        modules,
        g.checks,
        functions::sorted_functions(g.functions),
        modules.len(),
    ) {
        None => None,
        Some(f) => match with_row_map(m, d, f) {
            None => None,
            Some(mapped) => Some(functions::sorted_functions(mapped)),
        },
    }
}

/// The `/names` heap of an image, behind its named-stream index.
pub open spec fn names_of(m: MsfView, info: names::InfoView) -> Option<Seq<(u32, Seq<char>)>> {
    match names::stream_of(info.streams, "/NAMES"@) {
        None => None,
        Some(k) => match msf::stream_bytes(m, k as int) {
            None => None,
            Some(s) => names::parsed_names(s),
        },
    }
}

/// The native PDB that an MSF image holds.
pub open spec fn native_of(m: MsfView) -> Option<NativeView> {
    match msf::stream_bytes(m, 1) {
        None => None,
        Some(info_bytes) => match names::parsed_info(info_bytes) {
            None => None,
            Some(info) => match (names_of(m, info), msf::stream_bytes(m, 3)) {
                (Some(known), Some(dbi_bytes)) => match dbi::parsed_dbi(dbi_bytes) {
                    None => None,
                    Some((h, d, modules)) => match gathered(m, modules, known, modules.len()) {
                        None => None,
                        Some(g) => match functions_of(m, modules, d, g) {
                            None => None,
                            Some(f) => Some(
                                NativeView {
                                    guid: info.guid,
                                    version: info.version,
                                    signature: info.signature,
                                    age: info.age,
                                    names: just_names(known),
                                    dbi_header: h,
                                    dbg_header: d,
                                    modules,
                                    functions: finished_functions(f),
                                    publics: publics_found(m, h),
                                    source_files: g.sources,
                                },
                            ),
                        },
                    },
                },
                _ => None,
            },
        },
    }
}

/// The native PDB that the bytes are.
pub open spec fn parsed_native(s: Seq<u8>) -> Option<NativeView> {
    match msf::parsed_msf(s) {
        None => None,
        Some(m) => native_of(m),
    }
}

/// Texts.
pub open spec fn text_views(texts: Seq<String>) -> Seq<Seq<char>> {
    Seq::new(texts.len(), |k: int| texts[k]@)
}

/// Tables of names.
pub open spec fn table_views(tables: Seq<Vec<(u32, String)>>) -> Seq<Seq<(u32, Seq<char>)>> {
    Seq::new(tables.len(), |k: int| names::name_views(tables[k]@))
}

fn has_text(texts: &Vec<String>, t: &str) -> (b: bool)
    ensures
        b == text_views(texts@).contains(t@),
{
    let n: usize = texts.len();
    let mut i: usize = 0;
    while i < n
        invariant
            i <= n,
            n == texts@.len(),
            forall|k: int| 0 <= k < i ==> (#[trigger] texts@[k])@ != t@,
        decreases n - i,
    {
        if text::same(texts[i].as_str(), t) {
            proof {
                assert(text_views(texts@)[i as int] == t@);
            }
            return true;
        }
        i += 1;
    }
    proof {
        assert forall|k: int| 0 <= k < n implies text_views(texts@)[k] != t@ by {
            assert(texts@[k]@ != t@);
        }
    }
    false
}

fn add_sources(sources: &mut Vec<String>, checks: &Vec<(u32, String)>)
    ensures
        text_views(final(sources)@) == with_sources(
            text_views(old(sources)@),
            names::name_views(checks@),
            checks@.len(),
        ),
{
    let ghost known = names::name_views(checks@);
    let n: usize = checks.len();
    let mut i: usize = 0;
    while i < n
        invariant
            i <= n,
            n == checks@.len(),
            known == names::name_views(checks@),
            text_views(sources@) == with_sources(text_views(old(sources)@), known, i as nat),
        decreases n - i,
    {
        let ghost before = text_views(sources@);
        proof {
            assert(known[i as int].1 == checks@[i as int].1@);
        }
        if !has_text(sources, checks[i].1.as_str()) {
            sources.push(checks[i].1.as_str().to_owned());
            proof {
                assert(text_views(sources@) =~= before.push(known[i as int].1));
            }
        }
        i += 1;
    }
}

fn copy_texts(texts: &Vec<String>) -> (out: Vec<String>)
    ensures
        text_views(out@) == text_views(texts@),
{
    let n: usize = texts.len();
    let mut out: Vec<String> = Vec::new();
    let mut i: usize = 0;
    while i < n
        invariant
            i <= n,
            n == texts@.len(),
            text_views(out@) == text_views(texts@).take(i as int),
        decreases n - i,
    {
        let ghost before = text_views(out@);
        out.push(texts[i].as_str().to_owned());
        proof {
            assert(text_views(out@) =~= before.push(texts@[i as int]@));
            assert(text_views(out@) =~= text_views(texts@).take(i + 1));
        }
        i += 1;
    }
    proof {
        assert(text_views(texts@).take(n as int) =~= text_views(texts@));
    }
    out
}

fn copy_names(names: &Vec<(u32, String)>) -> (out: Vec<String>)
    ensures
        text_views(out@) == just_names(names::name_views(names@)),
{
    let ghost all = just_names(names::name_views(names@));
    let n: usize = names.len();
    let mut out: Vec<String> = Vec::new();
    let mut i: usize = 0;
    while i < n
        invariant
            i <= n,
            n == names@.len(),
            all == just_names(names::name_views(names@)),
            text_views(out@) == all.take(i as int),
        decreases n - i,
    {
        let ghost before = text_views(out@);
        out.push(names[i].1.as_str().to_owned());
        proof {
            assert(text_views(out@) =~= before.push(names@[i as int].1@));
            assert(text_views(out@) =~= all.take(i + 1));
        }
        i += 1;
    }
    proof {
        assert(all.take(n as int) =~= all);
    }
    out
}

/// The streams of a module, if it has one.
fn stream_for<'b>(image: &'b MsfImage<'_>, info: &DbiModuleInfo) -> (r: Option<&'b [u8]>)
    ensures
        match module_stream(image@, info@) {
            Some(s) => r is Some && r->Some_0@ == s,
            None => r is None,
        },
{
    if info.stream > 0 {
        image.stream(info.stream as usize)
    } else {
        None
    }
}

/// What the modules give before lines are assigned.
struct Gathered {
    functions: Vec<RawFunction>,
    checks: Vec<Vec<(u32, String)>>,
    sources: Vec<String>,
}

spec fn gather_view(g: Gathered) -> GatherView {
    GatherView {
        functions: functions::function_views(g.functions@),
        checks: table_views(g.checks@),
        sources: text_views(g.sources@),
    }
}

fn gather_module(
    image: &MsfImage<'_>,
    info: &DbiModuleInfo,
    known: &Vec<(u32, String)>,
    g: &mut Gathered,
) -> (r: Result<(), Error>)
    ensures
        match after_gather(
            image@,
            info@,
            names::name_views(known@),
            gather_view(*old(g)),
        ) {
            Some(v) => r is Ok && gather_view(*final(g)) == v,
            None => r is Err && r->Err_0.kind() == ErrorKind::BadImage,
        },
{
    let ghost before = gather_view(*g);
    if info.stream <= 0 {
        let none: Vec<(u32, String)> = Vec::new();
        proof {
            assert(names::name_views(none@) =~= Seq::<(u32, Seq<char>)>::empty());
        }
        g.checks.push(none);
        proof {
            assert(gather_view(*g).checks =~= before.checks.push(Seq::empty()));
        }
        return Ok(());
    }
    let data = match stream_for(image, info) {
        Some(data) => data,
        None => {
            return Err(line_programs::missing_stream(info));
        },
    };
    let mut found: Vec<RawFunction> = if line_programs::token_module(info) {
        let none: Vec<RawFunction> = Vec::new();
        proof {
            assert(functions::function_views(none@) =~= Seq::<FunctionView>::empty());
        }
        none
    } else {
        functions::load_managed_functions(data, info.cb_syms)?
    };
    let checks = line_programs::read_source_file_info(data, info, known)?;
    let ghost found_view = functions::function_views(found@);
    let ghost check_view = names::name_views(checks@);
    g.functions.append(&mut found);
    add_sources(&mut g.sources, &checks);
    g.checks.push(checks);
    proof {
        assert(gather_view(*g).functions =~= before.functions + found_view);
        assert(gather_view(*g).checks =~= before.checks.push(check_view));
    }
    Ok(())
}

fn gather(image: &MsfImage<'_>, modules: &Vec<DbiModuleInfo>, known: &Vec<(u32, String)>) -> (r:
    Result<Gathered, Error>)
    ensures
        match gathered(
            image@,
            dbi::module_views(modules@),
            names::name_views(known@),
            modules@.len(),
        ) {
            Some(v) => r is Ok && gather_view(r->Ok_0) == v,
            None => r is Err && r->Err_0.kind() == ErrorKind::BadImage,
        },
{
    let ghost all = dbi::module_views(modules@);
    let ghost names_known = names::name_views(known@);
    let n: usize = modules.len();
    let mut g = Gathered { functions: Vec::new(), checks: Vec::new(), sources: Vec::new() };
    let mut i: usize = 0;
    proof {
        let v = gather_view(g);
        assert(v.functions =~= Seq::<FunctionView>::empty());
        assert(v.checks =~= Seq::<Seq<(u32, Seq<char>)>>::empty());
        assert(v.sources =~= Seq::<Seq<char>>::empty());
    }
    while i < n
        invariant
            i <= n,
            n == modules@.len(),
            all == dbi::module_views(modules@),
            names_known == names::name_views(known@),
            gathered(image@, all, names_known, i as nat) == Some(gather_view(g)),
        decreases n - i,
    {
        proof {
            assert(all[i as int] == modules@[i as int]@);
            gather_stops(image@, all, names_known, (i + 1) as nat, n as nat);
        }
        gather_module(image, &modules[i], known, &mut g)?;
        i += 1;
    }
    Ok(g)
}

/// What fails for some modules fails for more.
proof fn gather_stops(
    m: MsfView,
    modules: Seq<ModuleView>,
    known: Seq<(u32, Seq<char>)>,
    k: nat,
    n: nat,
)
    requires
        k <= n,
    ensures
        gathered(m, modules, known, k) is None ==> gathered(m, modules, known, n) is None,
    decreases n,
{
    if k < n {
        gather_stops(m, modules, known, k, (n - 1) as nat);
    }
}

proof fn assign_stops(
    m: MsfView,
    modules: Seq<ModuleView>,
    checks: Seq<Seq<(u32, Seq<char>)>>,
    functions: Seq<FunctionView>,
    k: nat,
    n: nat,
)
    requires
        k <= n,
    ensures
        assigned(m, modules, checks, functions, k) is None ==> assigned(
            m,
            modules,
            checks,
            functions,
            n,
        ) is None,
    decreases n,
{
    if k < n {
        assign_stops(m, modules, checks, functions, k, (n - 1) as nat);
    }
}

/// Walks the line sections of every module and gives line entries to the
/// matching function without lines.
fn assign_lines(
    functions: Vec<RawFunction>,
    modules: &Vec<DbiModuleInfo>,
    image: &MsfImage<'_>,
    checks: &Vec<Vec<(u32, String)>>,
) -> (r: Result<Vec<RawFunction>, Error>)
    requires
        checks@.len() == modules@.len(),
    ensures
        match assigned(
            image@,
            dbi::module_views(modules@),
            table_views(checks@),
            functions::function_views(functions@),
            modules@.len(),
        ) {
            Some(v) => r is Ok && functions::function_views(r->Ok_0@) == v,
            None => r is Err && r->Err_0.kind() == ErrorKind::BadImage,
        },
{
    let ghost all = dbi::module_views(modules@);
    let ghost tables = table_views(checks@);
    let ghost start = functions::function_views(functions@);
    let n: usize = modules.len();
    let mut out: Vec<RawFunction> = functions;
    let mut i: usize = 0;
    while i < n
        invariant
            i <= n,
            n == modules@.len(),
            checks@.len() == n,
            all == dbi::module_views(modules@),
            tables == table_views(checks@),
            start == functions::function_views(functions@),
            assigned(image@, all, tables, start, i as nat) == Some(
                functions::function_views(out@),
            ),
        decreases n - i,
    {
        proof {
            assert(all[i as int] == modules@[i as int]@);
            assert(tables[i as int] == names::name_views(checks@[i as int]@));
            assign_stops(image@, all, tables, start, (i + 1) as nat, n as nat);
        }
        line_programs::assign_module_lines(
            stream_for(image, &modules[i]),
            &modules[i],
            &checks[i],
            &mut out,
        )?;
        i += 1;
    }
    Ok(out)
}

/// Rewrites tokens through the row-map stream when the debug header names one.
fn apply_token_rid_map(functions: Vec<RawFunction>, image: &MsfImage<'_>, dbg: &DbiDbgHdr) -> (r:
    Result<Vec<RawFunction>, Error>)
    ensures
        match with_row_map(image@, *dbg, functions::function_views(functions@)) {
            Some(v) => r is Ok && functions::function_views(r->Ok_0@) == v,
            None => r is Err && r->Err_0.kind() == ErrorKind::BadImage,
        },
{
    if dbg.sn_token_rid_map == 0 || dbg.sn_token_rid_map == 0xFFFF {
        return Ok(functions);
    }
    match image.stream(dbg.sn_token_rid_map as usize) {
        None => Err(
            Error::bad_image(
                Message::new("native pdb: missing token RID map stream #").count(
                    dbg.sn_token_rid_map as u64,
                ).as_str(),
            ),
        ),
        Some(map) => functions::remap_tokens(functions, map),
    }
}

fn read_publics(image: &MsfImage<'_>, stream: i16) -> (found: Vec<(String, u64)>)
    ensures
        functions::public_views(found@) == stream_publics(image@, stream),
{
    let none: Vec<(String, u64)> = Vec::new();
    proof {
        assert(functions::public_views(none@) =~= Seq::<(Seq<char>, u64)>::empty());
    }
    if stream > 0 {
        match image.stream(stream as usize) {
            Some(data) => functions::load_publics(data),
            None => none,
        }
    } else {
        none
    }
}

fn copy_lines(lines: &Vec<LineEntry>) -> (out: Vec<LineEntry>)
    ensures
        functions::line_views(out@) == functions::line_views(lines@),
{
    let n: usize = lines.len();
    let mut out: Vec<LineEntry> = Vec::new();
    let mut i: usize = 0;
    while i < n
        invariant
            i <= n,
            n == lines@.len(),
            functions::line_views(out@) == functions::line_views(lines@).take(i as int),
        decreases n - i,
    {
        let ghost before = functions::line_views(out@);
        out.push(
            LineEntry {
                rva_delta: lines[i].rva_delta,
                line: lines[i].line,
                file: lines[i].file.as_str().to_owned(),
            },
        );
        proof {
            assert(functions::line_views(out@) =~= before.push(lines@[i as int]@));
            assert(functions::line_views(out@) =~= functions::line_views(lines@).take(i + 1));
        }
        i += 1;
    }
    proof {
        assert(functions::line_views(lines@).take(n as int) =~= functions::line_views(lines@));
    }
    out
}

fn copy_ranges(ranges: &Vec<(u64, usize)>) -> (out: Vec<(u64, usize)>)
    ensures
        out@ == ranges@,
{
    let n: usize = ranges.len();
    let mut out: Vec<(u64, usize)> = Vec::new();
    let mut i: usize = 0;
    while i < n
        invariant
            i <= n,
            n == ranges@.len(),
            out@ == ranges@.take(i as int),
        decreases n - i,
    {
        out.push((ranges[i].0, ranges[i].1));
        proof {
            assert(out@ =~= ranges@.take(i + 1));
        }
        i += 1;
    }
    proof {
        assert(ranges@.take(n as int) =~= ranges@);
    }
    out
}

fn copy_function(f: &FunctionLines) -> (out: FunctionLines)
    ensures
        out@ == f@,
{
    FunctionLines {
        token: f.token,
        name: f.name.as_str().to_owned(),
        ranges: copy_ranges(&f.ranges),
        lines: copy_lines(&f.lines),
    }
}

fn copy_functions(functions: &Vec<FunctionLines>) -> (out: Vec<FunctionLines>)
    ensures
        function_line_views(out@) == function_line_views(functions@),
{
    let ghost all = function_line_views(functions@);
    let n: usize = functions.len();
    let mut out: Vec<FunctionLines> = Vec::new();
    let mut i: usize = 0;
    while i < n
        invariant
            i <= n,
            n == functions@.len(),
            all == function_line_views(functions@),
            function_line_views(out@) == all.take(i as int),
        decreases n - i,
    {
        let ghost before = function_line_views(out@);
        out.push(copy_function(&functions[i]));
        proof {
            assert(function_line_views(out@) =~= before.push(all[i as int]));
            assert(function_line_views(out@) =~= all.take(i + 1));
        }
        i += 1;
    }
    proof {
        assert(all.take(n as int) =~= all);
    }
    out
}

fn copy_publics(publics: &Vec<(String, u64)>) -> (out: Vec<(String, u64)>)
    ensures
        functions::public_views(out@) == functions::public_views(publics@),
{
    let ghost all = functions::public_views(publics@);
    let n: usize = publics.len();
    let mut out: Vec<(String, u64)> = Vec::new();
    let mut i: usize = 0;
    while i < n
        invariant
            i <= n,
            n == publics@.len(),
            all == functions::public_views(publics@),
            functions::public_views(out@) == all.take(i as int),
        decreases n - i,
    {
        let ghost before = functions::public_views(out@);
        out.push((publics[i].0.as_str().to_owned(), publics[i].1));
        proof {
            assert(functions::public_views(out@) =~= before.push(all[i as int]));
            assert(functions::public_views(out@) =~= all.take(i + 1));
        }
        i += 1;
    }
    proof {
        assert(all.take(n as int) =~= all);
    }
    out
}

fn copy_module(m: &DbiModuleInfo) -> (out: DbiModuleInfo)
    ensures
        out@ == m@,
{
    DbiModuleInfo {
        opened: m.opened,
        seccon: m.seccon,
        flags: m.flags,
        stream: m.stream,
        cb_syms: m.cb_syms,
        cb_old_lines: m.cb_old_lines,
        cb_lines: m.cb_lines,
        files: m.files,
        offsets: m.offsets,
        ni_source: m.ni_source,
        ni_compiler: m.ni_compiler,
        module_name: m.module_name.as_str().to_owned(),
        object_name: m.object_name.as_str().to_owned(),
    }
}

fn copy_modules(modules: &Vec<DbiModuleInfo>) -> (out: Vec<DbiModuleInfo>)
    ensures
        dbi::module_views(out@) == dbi::module_views(modules@),
{
    let ghost all = dbi::module_views(modules@);
    let n: usize = modules.len();
    let mut out: Vec<DbiModuleInfo> = Vec::new();
    let mut i: usize = 0;
    while i < n
        invariant
            i <= n,
            n == modules@.len(),
            all == dbi::module_views(modules@),
            dbi::module_views(out@) == all.take(i as int),
        decreases n - i,
    {
        let ghost before = dbi::module_views(out@);
        out.push(copy_module(&modules[i]));
        proof {
            assert(dbi::module_views(out@) =~= before.push(all[i as int]));
            assert(dbi::module_views(out@) =~= all.take(i + 1));
        }
        i += 1;
    }
    proof {
        assert(all.take(n as int) =~= all);
    }
    out
}

fn finish_functions(functions: Vec<RawFunction>) -> (out: Vec<FunctionLines>)
    ensures
        function_line_views(out@) == finished_functions(functions::function_views(functions@)),
{
    let ghost all = finished_functions(functions::function_views(functions@));
    let n: usize = functions.len();
    let mut out: Vec<FunctionLines> = Vec::new();
    let mut i: usize = 0;
    while i < n
        invariant
            i <= n,
            n == functions@.len(),
            all == finished_functions(functions::function_views(functions@)),
            function_line_views(out@) == all.take(i as int),
        decreases n - i,
    {
        let ghost before = function_line_views(out@);
        let f = &functions[i];
        let done = FunctionLines {
            token: Token(f.token),
            name: f.name.as_str().to_owned(),
            ranges: copy_ranges(&f.ranges),
            lines: copy_lines(&f.lines),
        };
        let ghost view = done@;
        out.push(done);
        proof {
            assert(view == all[i as int]);
            assert(function_line_views(out@) =~= before.push(view));
            assert(function_line_views(out@) =~= all.take(i + 1));
        }
        i += 1;
    }
    proof {
        assert(all.take(n as int) =~= all);
    }
    out
}

/// Reader for native (Windows) PDB symbol information.
///
/// Everything is parsed eagerly in [`NativePdbReader::open`]; accessors
/// return cached results. Nothing borrows the input bytes: every retained
/// structure is owned.
#[derive(Debug)]
pub struct NativePdbReader {
    guid: [u8; 16],
    id: PdbId,
    /// `/names` heap names in bucket order (fallback for `source_files`).
    names_ordered: Vec<String>,
    dbi_header: DbiHeader,
    dbg_header: DbiDbgHdr,
    functions: Vec<FunctionLines>,
    publics: Vec<(String, u64)>,
    modules: Vec<DbiModuleInfo>,
    source_files: Vec<String>,
}

impl NativePdbReader {
    #[verifier::type_invariant]
    spec fn well_formed(self) -> bool {
        small_bases(function_line_views(self.functions@))
    }
}

impl View for NativePdbReader {
    type V = NativeView;

    closed spec fn view(&self) -> NativeView {
        NativeView {
            guid: self.guid@,
            version: self.id.version,
            signature: self.id.signature,
            age: self.id.age,
            names: text_views(self.names_ordered@),
            dbi_header: self.dbi_header,
            dbg_header: self.dbg_header,
            modules: dbi::module_views(self.modules@),
            functions: function_line_views(self.functions@),
            publics: functions::public_views(self.publics@),
            source_files: text_views(self.source_files@),
        }
    }
}

impl Clone for NativePdbReader {
    fn clone(&self) -> (copy: Self)
        ensures
            copy@ == self@,
    {
        proof {
            use_type_invariant(self);
        }
        NativePdbReader {
            guid: self.guid,
            id: self.id,
            names_ordered: copy_texts(&self.names_ordered),
            dbi_header: self.dbi_header,
            dbg_header: self.dbg_header,
            functions: copy_functions(&self.functions),
            publics: copy_publics(&self.publics),
            modules: copy_modules(&self.modules),
            source_files: copy_texts(&self.source_files),
        }
    }
}

/// The first function with the token, from the `i`-th one on.
pub open spec fn token_place(functions: Seq<FunctionLinesView>, tok: Token, i: int) -> Option<int>
    decreases functions.len() - i,
{
    if i < 0 || i >= functions.len() {
        None
    } else if functions[i].token == tok {
        Some(i)
    } else {
        token_place(functions, tok, i + 1)
    }
}

/// The address lies in one of the ranges.
pub open spec fn covers(ranges: Seq<(u64, usize)>, rva: u64) -> bool {
    exists|k: int| 0 <= k < ranges.len() && in_range(#[trigger] ranges[k], rva)
}

/// The address lies in the range.
pub open spec fn in_range(range: (u64, usize), rva: u64) -> bool {
    range.0 <= rva && rva - range.0 < range.1
}

/// The first function that covers the address, from the `i`-th one on.
pub open spec fn rva_place(functions: Seq<FunctionLinesView>, rva: u64, i: int) -> Option<int>
    decreases functions.len() - i,
{
    if i < 0 || i >= functions.len() {
        None
    } else if covers(functions[i].ranges, rva) {
        Some(i)
    } else {
        rva_place(functions, rva, i + 1)
    }
}

/// The function that a key selects.
pub open spec fn selected(functions: Seq<FunctionLinesView>, key: FunctionKey) -> Option<int> {
    match key {
        FunctionKey::Token(tok) => token_place(functions, tok, 0),
        FunctionKey::Rva(rva) => rva_place(functions, rva, 0),
    }
}

/// The address that the lines of a function count from.
pub open spec fn base_of(f: FunctionLinesView) -> u64 {
    if f.ranges.len() > 0 {
        f.ranges[0].0
    } else {
        0
    }
}

/// The lines of all functions count from addresses of 32 bits.
pub open spec fn small_bases(functions: Seq<FunctionLinesView>) -> bool {
    forall|k: int| 0 <= k < functions.len() ==> base_of(#[trigger] functions[k]) <= 0xFFFF_FFFF
}

/// The lines of a function with their addresses.
pub open spec fn placed_lines(f: FunctionLinesView) -> Seq<(int, u32, Seq<char>)> {
    Seq::new(
        f.lines.len(),
        |k: int| (base_of(f) + f.lines[k].rva_delta, f.lines[k].line, f.lines[k].file),
    )
}

/// Lines with addresses.
pub open spec fn placed_views(lines: Seq<(u64, u32, String)>) -> Seq<(int, u32, Seq<char>)> {
    Seq::new(lines.len(), |k: int| (lines[k].0 as int, lines[k].1, lines[k].2@))
}

fn range_found(ranges: &Vec<(u64, usize)>, rva: u64) -> (b: bool)
    ensures
        b == covers(ranges@, rva),
{
    let n: usize = ranges.len();
    let mut i: usize = 0;
    while i < n
        invariant
            i <= n,
            n == ranges@.len(),
            forall|k: int| 0 <= k < i ==> !in_range(#[trigger] ranges@[k], rva),
        decreases n - i,
    {
        let (start, len) = ranges[i];
        if rva >= start && rva - start < len as u64 {
            proof {
                assert(in_range(ranges@[i as int], rva));
            }
            return true;
        }
        i += 1;
    }
    false
}

impl NativePdbReader {
    /// Opens a native PDB from its raw MSF image bytes, parsing the info
    /// stream, `/names` heap, DBI stream, all module symbol/line regions and
    /// the global-symbol stream. The returned reader owns every parsed
    /// structure; `pdb_bytes` is only borrowed for the duration of the call.
    pub fn open(pdb_bytes: &[u8]) -> (r: Result<Self, Error>)
        ensures
            match parsed_native(pdb_bytes@) {
                Some(v) => r is Ok && r->Ok_0@ == v,
                None => r is Err && r->Err_0.kind() == ErrorKind::BadImage,
            },
    {
        let image = MsfImage::parse(pdb_bytes)?;
        Self::from_image(&image)
    }

    /// Runs the full parse pipeline over an already-parsed MSF image.
    fn from_image(image: &MsfImage<'_>) -> (r: Result<Self, Error>)
        ensures
            match native_of(image@) {
                Some(v) => r is Ok && r->Ok_0@ == v,
                None => r is Err && r->Err_0.kind() == ErrorKind::BadImage,
            },
    {
        let info_bytes = match image.stream(1) {
            Some(data) => data,
            None => {
                return Err(Error::bad_image("native pdb: missing PDB info stream"));
            },
        };
        let info = names::load_name_index(info_bytes)?;
        let known = load_names(image, &info)?;
        let dbi_bytes = match image.stream(3) {
            Some(data) => data,
            None => {
                return Err(Error::bad_image("native pdb: missing DBI stream"));
            },
        };
        let (dbi_header, dbg_header, modules) = dbi::load_dbi_stream(dbi_bytes)?;
        let g = gather(image, &modules, &known)?;
        proof {
            gather_lengths(
                image@,
                dbi::module_views(modules@),
                names::name_views(known@),
                modules@.len(),
            );
            assert(table_views(g.checks@).len() == modules@.len());
        }
        let sorted = functions::sort_functions(g.functions);
        let lined = assign_lines(sorted, &modules, image, &g.checks)?;
        let mapped = apply_token_rid_map(lined, image, &dbg_header)?;
        let functions = finish_functions(functions::sort_functions(mapped));
        let mut publics = read_publics(image, dbi_header.pssym_stream);
        if publics.len() == 0 {
            publics = read_publics(image, dbi_header.gssym_stream);
        }
        proof {
            range_laws::bases_are_small(image@);
        }
        Ok(
            NativePdbReader {
                guid: info.guid,
                id: PdbId {
                    version: info.version,
                    signature: info.signature,
                    age: info.age,
                },
                names_ordered: copy_names(&known),
                dbi_header,
                dbg_header,
                modules,
                functions,
                publics,
                source_files: g.sources,
            },
        )
    }

    /// `(GUID, version, signature, age)` identifying this PDB; GUID + age pair
    /// against the PE debug directory (the version/signature fields complete
    /// the info-stream header).
    pub fn pdb_id(&self) -> (id: ([u8; 16], u32, u32, u32))
        ensures
            id.0@ == self@.guid,
            id.1 == self@.version,
            id.2 == self@.signature,
            id.3 == self@.age,
    {
        (self.guid, self.id.version, self.id.signature, self.id.age)
    }

    /// Source file names referenced by any module's file checksum subsections,
    /// in first-seen order across modules. Falls back to every string in the
    /// `/names` heap when no checksum subsection exists.
    pub fn source_files(&self) -> (v: Vec<String>)
        ensures
            text_views(v@) == if self@.source_files.len() == 0 {
                self@.names
            } else {
                self@.source_files
            },
    {
        if self.source_files.len() == 0 {
            copy_texts(&self.names_ordered)
        } else {
            copy_texts(&self.source_files)
        }
    }

    /// All managed functions with their line mappings, sorted by
    /// (segment, rva, token).
    pub fn functions(&self) -> (r: Result<Vec<FunctionLines>, Error>)
        ensures
            r is Ok,
            function_line_views(r->Ok_0@) == self@.functions,
    {
        Ok(copy_functions(&self.functions))
    }

    fn place_by_token(&self, tok: Token) -> (r: Option<usize>)
        ensures
            match token_place(self@.functions, tok, 0) {
                Some(k) => r is Some && r->Some_0 == k && 0 <= k < self.functions@.len(),
                None => r is None,
            },
    {
        let n: usize = self.functions.len();
        let mut i: usize = 0;
        while i < n
            invariant
                i <= n,
                n == self.functions@.len(),
                token_place(self@.functions, tok, 0) == token_place(
                    self@.functions,
                    tok,
                    i as int,
                ),
            decreases n - i,
        {
            proof {
                assert(self@.functions[i as int] == self.functions@[i as int]@);
            }
            if self.functions[i].token.0 == tok.0 {
                return Some(i);
            }
            i += 1;
        }
        None
    }

    fn place_by_rva(&self, rva: u64) -> (r: Option<usize>)
        ensures
            match rva_place(self@.functions, rva, 0) {
                Some(k) => r is Some && r->Some_0 == k && 0 <= k < self.functions@.len(),
                None => r is None,
            },
    {
        let n: usize = self.functions.len();
        let mut i: usize = 0;
        while i < n
            invariant
                i <= n,
                n == self.functions@.len(),
                rva_place(self@.functions, rva, 0) == rva_place(self@.functions, rva, i as int),
            decreases n - i,
        {
            proof {
                assert(self@.functions[i as int] == self.functions@[i as int]@);
            }
            if range_found(&self.functions[i].ranges, rva) {
                return Some(i);
            }
            i += 1;
        }
        None
    }

    /// Finds a function by its metadata method token.
    pub fn find_by_token(&self, tok: Token) -> (r: Option<FunctionLines>)
        ensures
            match token_place(self@.functions, tok, 0) {
                Some(k) => r is Some && r->Some_0@ == self@.functions[k],
                None => r is None,
            },
    {
        match self.place_by_token(tok) {
            Some(k) => {
                proof {
                    assert(self@.functions[k as int] == self.functions@[k as int]@);
                }
                Some(copy_function(&self.functions[k]))
            },
            None => None,
        }
    }

    /// Resolves a function by token or covered RVA and returns its mapped
    /// source lines as absolute `(rva, line, file)` triples.
    ///
    /// Every matched line section starts at the function's own address, so a
    /// single base RVA converts each stored `rva_delta`. Unresolvable keys
    /// yield an empty list.
    pub fn lines_for_function(&self, key: FunctionKey) -> (r: Result<
        Vec<(u64, u32, String)>,
        Error,
    >)
        ensures
            r is Ok,
            placed_views(r->Ok_0@) == match selected(self@.functions, key) {
                Some(k) => placed_lines(self@.functions[k]),
                None => Seq::empty(),
            },
    {
        proof {
            use_type_invariant(self);
        }
        let found: Option<usize> = match key {
            FunctionKey::Token(tok) => self.place_by_token(tok),
            FunctionKey::Rva(rva) => self.place_by_rva(rva),
        };
        let mut out: Vec<(u64, u32, String)> = Vec::new();
        proof {
            assert(placed_views(out@) =~= Seq::<(int, u32, Seq<char>)>::empty());
        }
        let k: usize = match found {
            Some(k) => k,
            None => {
                return Ok(out);
            },
        };
        let f = &self.functions[k];
        let base: u64 = if f.ranges.len() > 0 {
            f.ranges[0].0
        } else {
            0
        };
        let ghost all = placed_lines(f@);
        proof {
            assert(self@.functions[k as int] == f@);
        }
        let n: usize = f.lines.len();
        let mut i: usize = 0;
        while i < n
            invariant
                i <= n,
                n == f.lines@.len(),
                base == base_of(f@),
                base <= 0xFFFF_FFFF,
                all == placed_lines(f@),
                placed_views(out@) == all.take(i as int),
            decreases n - i,
        {
            let ghost before = placed_views(out@);
            let line = &f.lines[i];
            proof {
                assert(f@.lines[i as int] == line@);
            }
            out.push((base + line.rva_delta as u64, line.line, line.file.as_str().to_owned()));
            proof {
                assert(placed_views(out@) =~= before.push(all[i as int]));
                assert(placed_views(out@) =~= all.take(i + 1));
            }
            i += 1;
        }
        proof {
            assert(all.take(n as int) =~= all);
        }
        Ok(out)
    }

    /// Public symbols as `(name, rva)` pairs, walked from the DBI
    /// public/global symbol streams. Modern hash-only streams carry no inline
    /// records and yield an empty list. The recorded offset is returned as the
    /// RVA; non-primary segments are not rebased.
    pub fn publics(&self) -> (v: Vec<(String, u64)>)
        ensures
            functions::public_views(v@) == self@.publics,
    {
        copy_publics(&self.publics)
    }

    /// The parsed DBI header (version/age/stream indices/sizes).
    pub fn dbi_header(&self) -> (h: &DbiHeader)
        ensures
            *h == self@.dbi_header,
    {
        &self.dbi_header
    }

    /// The parsed DBI optional debug header (subsection stream indices).
    pub fn dbi_dbg_header(&self) -> (h: &DbiDbgHdr)
        ensures
            *h == self@.dbg_header,
    {
        &self.dbg_header
    }
}

proof fn gather_lengths(
    m: MsfView,
    modules: Seq<ModuleView>,
    known: Seq<(u32, Seq<char>)>,
    n: nat,
)
    ensures
        gathered(m, modules, known, n) matches Some(g) ==> g.checks.len() == n,
    decreases n,
{
    if n > 0 {
        gather_lengths(m, modules, known, (n - 1) as nat);
    }
}

/// Reads the `/names` heap.
fn load_names(image: &MsfImage<'_>, info: &names::NameIndex) -> (r: Result<
    Vec<(u32, String)>,
    Error,
>)
    ensures
        match names_of(image@, info@) {
            Some(v) => r is Ok && names::name_views(r->Ok_0@) == v,
            None => r is Err && r->Err_0.kind() == ErrorKind::BadImage,
        },
{
    match names::find_stream(&info.streams, "/NAMES") {
        None => Err(
            Error::bad_image(
                "native pdb: could not find the '/names' stream: the PDB may be a public-symbol file instead of a private symbol file",
            ),
        ),
        Some(k) => match image.stream(k as usize) {
            None => Err(
                Error::bad_image(
                    Message::new("native pdb: missing /names stream #").count(k as u64).as_str(),
                ),
            ),
            Some(data) => names::load_name_stream(data),
        },
    }
}

} // verus!
