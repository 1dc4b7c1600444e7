//! The functions of a native PDB: the managed procedures of the symbol regions,
//! in the order of their addresses, and the public symbols.

use vstd::prelude::*;
use vstd::slice::slice_subrange;

use crate::bytes;
use crate::error::{Error, ErrorKind};
use crate::io::Step;
use crate::pdb::native::dbi;
use crate::text;
use crate::text::Message;

verus! {

broadcast use crate::bytes::widths;

/// End of a scope.
pub const S_END: u16 = 0x0006;

/// Lexical block scope with a length-prefixed name.
pub const S_BLOCK32_ST: u16 = 0x1003;

/// Public symbol with a length-prefixed name.
pub const S_PUB32_ST: u16 = 0x1009;

/// Native (unmanaged) procedure kinds. These are walked past by length during
/// function extraction: accepting them would pollute the managed token map on
/// mixed images.
pub const S_LPROC32_ST: u16 = 0x100A;

pub const S_GPROC32_ST: u16 = 0x100B;

/// Lexical block scope, opened between a procedure and its terminator by real
/// compilers.
pub const S_BLOCK32: u16 = 0x1103;

pub const S_PUB32: u16 = 0x110E;

pub const S_LPROC32: u16 = 0x110F;

pub const S_GPROC32: u16 = 0x1110;

pub const S_GMANPROC: u16 = 0x112A;

pub const S_LMANPROC: u16 = 0x112B;

/// Managed procedures, the only kinds that functions are taken from.
pub open spec fn managed(kind: u16) -> bool {
    kind == S_GMANPROC || kind == S_LMANPROC
}

/// Records that open a scope closed by [`S_END`]: every procedure kind plus
/// lexical blocks.
pub open spec fn opens_scope(kind: u16) -> bool {
    managed(kind) || kind == S_GPROC32 || kind == S_LPROC32 || kind == S_GPROC32_ST || kind
        == S_LPROC32_ST || kind == S_BLOCK32 || kind == S_BLOCK32_ST
}

/// One mapped source line inside a function's line program.
///
/// `rva_delta` is the offset of the instruction relative to the start RVA of
/// the enclosing line block. Columns are not exposed.
#[derive(Debug, Clone, PartialEq, Eq)]
pub struct LineEntry {
    pub rva_delta: u32,
    pub line: u32,
    pub file: String,
}

/// What a mapped line says.
#[verifier::ext_equal]
pub struct LineView {
    pub rva_delta: u32,
    pub line: u32,
    pub file: Seq<char>,
}

impl View for LineEntry {
    type V = LineView;

    open spec fn view(&self) -> LineView {
        LineView { rva_delta: self.rva_delta, line: self.line, file: self.file@ }
    }
}

/// What mapped lines say.
pub open spec fn line_views(lines: Seq<LineEntry>) -> Seq<LineView> {
    Seq::new(lines.len(), |k: int| lines[k]@)
}

/// A procedure record with its line program.
#[derive(Debug, Clone)]
pub struct RawFunction {
    pub token: u32,
    pub name: String,
    pub segment: u16,
    pub address: u32,
    /// `(start rva, length in bytes)` pairs, one per matched line section.
    pub ranges: Vec<(u64, usize)>,
    pub lines: Vec<LineEntry>,
}

/// What is known of a function.
#[verifier::ext_equal]
pub struct FunctionView {
    pub token: u32,
    pub name: Seq<char>,
    pub segment: u16,
    pub address: u32,
    pub ranges: Seq<(u64, usize)>,
    pub lines: Seq<LineView>,
}

impl View for RawFunction {
    type V = FunctionView;

    open spec fn view(&self) -> FunctionView {
        FunctionView {
            token: self.token,
            name: self.name@,
            segment: self.segment,
            address: self.address,
            ranges: self.ranges@,
            lines: line_views(self.lines@),
        }
    }
}

/// What is known of functions.
pub open spec fn function_views(functions: Seq<RawFunction>) -> Seq<FunctionView> {
    Seq::new(functions.len(), |k: int| functions[k]@)
}

/// The managed procedure whose record goes on at `at`. Its segment has to be
/// the first one, and it has neither a parent nor a successor.
pub open spec fn proc_at(s: Seq<u8>, at: int) -> Option<FunctionView> {
    if at + 37 > s.len() {
        None
    } else {
        match dbi::cstring_at(s, at + 37) {
            None => None,
            Some((name, _)) => if bytes::u16_at(s, at + 32) != 1 || bytes::u32_at(s, at) != 0
                || bytes::u32_at(s, at + 8) != 0 {
                None
            } else {
                Some(
                    FunctionView {
                        token: bytes::u32_at(s, at + 24),
                        name,
                        segment: 1,
                        address: bytes::u32_at(s, at + 28),
                        ranges: Seq::empty(),
                        lines: Seq::empty(),
                    },
                )
            },
        }
    }
}

/// How deep the scopes are nested behind a record.
pub open spec fn depth_after(kind: u16, depth: int) -> int {
    if kind == S_END {
        if depth > 0 {
            depth - 1
        } else {
            depth
        }
    } else if opens_scope(kind) {
        depth + 1
    } else {
        depth
    }
}

/// The record opens an outermost managed procedure.
pub open spec fn starts_function(kind: u16, depth: int) -> bool {
    managed(kind) && depth == 0
}

/// The functions of the records from `pos` up to `limit`, behind which no scope
/// may be left open.
pub open spec fn functions_from(
    s: Seq<u8>,
    pos: int,
    limit: int,
    depth: int,
) -> Option<Seq<FunctionView>>
    decreases limit - pos,
{
    if pos >= limit {
        if depth > 0 {
            None
        } else {
            Some(Seq::empty())
        }
    } else {
        let size = bytes::u16_at(s, pos) as int;
        let kind = bytes::u16_at(s, pos + 2);
        let stop = pos + 2 + size;
        if pos + 2 > s.len() || size < 2 || stop > limit {
            None
        } else if starts_function(kind, depth) {
            match (
                proc_at(s, pos + 4),
                functions_from(s, stop, limit, depth_after(kind, depth)),
            ) {
                (Some(f), Some(rest)) => Some(seq![f] + rest),
                _ => None,
            }
        } else {
            functions_from(s, stop, limit, depth_after(kind, depth))
        }
    }
}

/// The functions of a module's symbol region, which starts with the signature
/// `4`.
pub open spec fn module_functions(s: Seq<u8>, size: i32) -> Option<Seq<FunctionView>> {
    if size < 4 {
        Some(Seq::empty())
    } else if size > s.len() || dbi::int_at(s, 0) != 4 {
        None
    } else {
        functions_from(s, 4, size as int, 0)
    }
}

fn read_proc(data: &[u8], at: usize) -> (r: Result<RawFunction, Error>)
    requires
        at <= data@.len(),
    ensures
        match proc_at(data@, at as int) {
            Some(f) => r is Ok && r->Ok_0@ == f,
            None => r is Err && r->Err_0.kind() == ErrorKind::BadImage,
        },
{
    if data.len() - at < 37 {
        return Err(
            dbi::stopped(
                data.len(),
                at,
                vec![
                    Step::Reads { width: 4, times: 8 },
                    Step::Reads { width: 2, times: 1 },
                    Step::Reads { width: 1, times: 1 },
                    Step::Reads { width: 2, times: 1 },
                ],
            ),
        );
    }
    let (name, _) = dbi::read_cstring(data, at + 37)?;
    let segment: u16 = bytes::get_u16(data, at + 32);
    if segment != 1 {
        return Err(
            Error::bad_image(
                Message::new("native pdb: function '").text(name.as_str()).text(
                    "' segment is ",
                ).count(segment as u64).text(", not 1").as_str(),
            ),
        );
    }
    let parent: u32 = bytes::get_u32(data, at);
    let next: u32 = bytes::get_u32(data, at + 8);
    if parent != 0 || next != 0 {
        return Err(
            Error::bad_image(
                Message::new("native pdb: function '").text(name.as_str()).text(
                    "' parent=",
                ).count(parent as u64).text(", next=").count(next as u64).as_str(),
            ),
        );
    }
    let f = RawFunction {
        token: bytes::get_u32(data, at + 24),
        name,
        segment: 1,
        address: bytes::get_u32(data, at + 28),
        ranges: Vec::new(),
        lines: Vec::new(),
    };
    proof {
        assert(f@.lines =~= Seq::<LineView>::empty());
    }
    Ok(f)
}

/// True for managed-proc records which carry the extra return-register field
/// between flags and name. These are the only proc kinds accepted for function
/// extraction.
pub fn is_manproc(kind: u16) -> (b: bool)
    ensures
        b == managed(kind),
{
    kind == S_GMANPROC || kind == S_LMANPROC
}

/// Records that open a scope closed by `S_END`: every proc kind plus lexical
/// blocks. Scope nesting is what makes a proc's terminator findable amid
/// interleaved block records.
pub fn is_scope_opener(kind: u16) -> (b: bool)
    ensures
        b == opens_scope(kind),
{
    is_manproc(kind) || kind == S_GPROC32 || kind == S_LPROC32 || kind == S_GPROC32_ST || kind
        == S_LPROC32_ST || kind == S_BLOCK32 || kind == S_BLOCK32_ST
}

/// True for public symbol records.
pub fn is_pub32(kind: u16) -> (b: bool)
    ensures
        b == (kind == S_PUB32 || kind == S_PUB32_ST),
{
    kind == S_PUB32 || kind == S_PUB32_ST
}

/// Walks a module's symbol region collecting managed procedures only.
///
/// Managed procedures, native procedures and lexical blocks each open a scope
/// closed by an [`S_END`] record. Real compilers interleave block scopes
/// between a procedure and its terminator, so the function's end is the one
/// that closes the scope it opened, not necessarily the next one. Records of
/// other kinds are skipped by length. A region that ends with a scope still open
/// is an error.
pub(crate) fn load_managed_functions(data: &[u8], cb_syms: i32) -> (r: Result<
    Vec<RawFunction>,
    Error,
>)
    ensures
        match module_functions(data@, cb_syms) {
            Some(v) => r is Ok && function_views(r->Ok_0@) == v,
            None => r is Err && r->Err_0.kind() == ErrorKind::BadImage,
        },
{
    let mut functions: Vec<RawFunction> = Vec::new();
    proof {
        assert(function_views(functions@) =~= Seq::<FunctionView>::empty());
    }
    if cb_syms < 4 {
        return Ok(functions);
    }
    let length: usize = data.len();
    let limit: usize = cb_syms as usize;
    if limit > length {
        return Err(
            Error::bad_image(
                Message::new("native pdb: module symbol size ").count(limit as u64).text(
                    " exceeds stream of ",
                ).count(length as u64).text(" bytes").as_str(),
            ),
        );
    }
    let signature: i32 = dbi::get_int(data, 0);
    if signature != 4 {
        return Err(
            Error::bad_image(
                Message::new("native pdb: invalid module debug signature (sig=").number(
                    signature as i64,
                ).text(")").as_str(),
            ),
        );
    }
    let ghost whole = functions_from(data@, 4, limit as int, 0);
    let mut depth: usize = 0;
    let mut open: bool = false;
    let mut pos: usize = 4;
    proof {
        if let Some(rest) = whole {
            assert(function_views(functions@) + rest =~= rest);
        }
    }
    while pos < limit
        invariant
            limit <= length,
            length == data@.len(),
            depth <= pos <= limit,
            whole == module_functions(data@, cb_syms),
            whole == (match functions_from(data@, pos as int, limit as int, depth as int) {
                Some(rest) => Some(function_views(functions@) + rest),
                None => None,
            }),
        decreases limit - pos,
    {
        if length - pos < 2 {
            return Err(dbi::short(length, pos, 2, 1));
        }
        let size: usize = bytes::get_u16(data, pos) as usize;
        if size < 2 {
            return Err(
                Error::bad_image(
                    Message::new("native pdb: corrupt symbol record length ").count(
                        size as u64,
                    ).text(" at offset ").count((pos + 2) as u64).as_str(),
                ),
            );
        }
        if limit - pos < 2 || limit - pos - 2 < size {
            return Err(
                Error::bad_image(
                    Message::new("native pdb: symbol record at offset ").count(
                        (pos + 2) as u64,
                    ).text(" overruns region").as_str(),
                ),
            );
        }
        let stop: usize = pos + 2 + size;
        let kind: u16 = bytes::get_u16(data, pos + 2);
        if kind == S_END {
            if depth > 0 {
                depth -= 1;
                if depth == 0 {
                    open = false;
                }
            }
        } else if is_scope_opener(kind) {
            depth += 1;
            if depth == 1 && is_manproc(kind) {
                let ghost before = function_views(functions@);
                let f = read_proc(data, pos + 4)?;
                let ghost view = f@;
                functions.push(f);
                open = true;
                proof {
                    let now = function_views(functions@);
                    assert(now =~= before.push(view));
                    if let Some(rest) = functions_from(
                        data@,
                        stop as int,
                        limit as int,
                        depth as int,
                    ) {
                        assert(before + (seq![view] + rest) =~= now + rest);
                    }
                }
            }
        }
        pos = stop;
    }
    if depth > 0 {
        if open && functions.len() > 0 {
            return Err(
                Error::bad_image(
                    Message::new(
                        "native pdb: truncated module symbol region: function '",
                    ).text(functions[functions.len() - 1].name.as_str()).text(
                        "' has no S_END",
                    ).as_str(),
                ),
            );
        }
        return Err(Error::bad_image("native pdb: truncated module symbol region"));
    }
    proof {
        assert(function_views(functions@) + Seq::<FunctionView>::empty() =~= function_views(
            functions@,
        ));
    }
    Ok(functions)
}

/// A function comes after another one: by segment, address and token.
pub open spec fn goes_after(a: FunctionView, b: FunctionView) -> bool {
    a.segment > b.segment || (a.segment == b.segment && (a.address > b.address || (a.address
        == b.address && a.token > b.token)))
}

/// Where a function goes among sorted ones: behind all that do not come after
/// it.
pub open spec fn sorted_place(functions: Seq<FunctionView>, f: FunctionView, i: int) -> int
    decreases functions.len() - i,
{
    if i < 0 || i >= functions.len() {
        functions.len() as int
    } else if goes_after(functions[i], f) {
        i
    } else {
        sorted_place(functions, f, i + 1)
    }
}

/// The functions in the order of segment, address and token.
pub open spec fn sorted_functions(functions: Seq<FunctionView>) -> Seq<FunctionView>
    decreases functions.len(),
{
    if functions.len() == 0 {
        Seq::empty()
    } else {
        let front = sorted_functions(functions.drop_last());
        front.insert(sorted_place(front, functions.last(), 0), functions.last())
    }
}

pub(crate) proof fn place_bounded(functions: Seq<FunctionView>, f: FunctionView, i: int)
    requires
        0 <= i <= functions.len(),
    ensures
        i <= sorted_place(functions, f, i) <= functions.len(),
        forall|j: int|
            i <= j < sorted_place(functions, f, i) ==> !goes_after(#[trigger] functions[j], f),
        sorted_place(functions, f, i) < functions.len() ==> goes_after(
            functions[sorted_place(functions, f, i)],
            f,
        ),
    decreases functions.len() - i,
{
    if i < functions.len() && !goes_after(functions[i], f) {
        place_bounded(functions, f, i + 1);
    }
}

/// Sorting keeps the functions and puts them in the order of segment, address
/// and token.
pub proof fn functions_are_sorted(functions: Seq<FunctionView>)
    ensures
        sorted_functions(functions).to_multiset() == functions.to_multiset(),
        sorted_functions(functions).len() == functions.len(),
        forall|i: int, j: int|
            #![trigger sorted_functions(functions)[i], sorted_functions(functions)[j]]
            0 <= i < j < functions.len() ==> !goes_after(
                sorted_functions(functions)[i],
                sorted_functions(functions)[j],
            ),
    decreases functions.len(),
{
    if functions.len() > 0 {
        let f = functions.last();
        let front = sorted_functions(functions.drop_last());
        functions_are_sorted(functions.drop_last());
        place_bounded(front, f, 0);
        let k = sorted_place(front, f, 0);
        let all = front.insert(k, f);
        broadcast use vstd::seq_lib::group_to_multiset_ensures;

        assert(functions =~= functions.drop_last().push(f));
        assert(all.to_multiset() =~= front.to_multiset().insert(f));
        assert forall|i: int, j: int|
            #![trigger all[i], all[j]]
            0 <= i < j < all.len() implies !goes_after(all[i], all[j]) by {
            if j < k {
                assert(all[i] == front[i] && all[j] == front[j]);
            } else if j == k {
                assert(all[i] == front[i]);
            } else if i == k {
                assert(all[j] == front[j - 1]);
                assert(goes_after(front[k], f));
                if j - 1 > k {
                    assert(!goes_after(front[k], front[j - 1]));
                }
            } else if i < k {
                assert(all[i] == front[i] && all[j] == front[j - 1]);
                if i < j - 1 {
                    assert(!goes_after(front[i], front[j - 1]));
                }
            } else {
                assert(all[i] == front[i - 1] && all[j] == front[j - 1]);
            }
        }
    } else {
        assert(functions =~= Seq::<FunctionView>::empty());
    }
}

fn comes_after(a: &RawFunction, b: &RawFunction) -> (r: bool)
    ensures
        r == goes_after(a@, b@),
{
    a.segment > b.segment || (a.segment == b.segment && (a.address > b.address || (a.address
        == b.address && a.token > b.token)))
}

/// Puts the functions in the order of segment, address and token.
pub(crate) fn sort_functions(functions: Vec<RawFunction>) -> (sorted: Vec<RawFunction>)
    ensures
        function_views(sorted@) == sorted_functions(function_views(functions@)),
{
    let ghost all = function_views(functions@);
    let total: usize = functions.len();
    let mut left: Vec<RawFunction> = functions;
    let mut sorted: Vec<RawFunction> = Vec::new();
    let mut i: usize = 0;
    proof {
        assert(all.take(0) =~= Seq::<FunctionView>::empty());
        assert(function_views(sorted@) =~= Seq::<FunctionView>::empty());
        assert(left@ =~= functions@.skip(0));
    }
    while i < total
        invariant
            i <= total,
            total == functions@.len(),
            all == function_views(functions@),
            left@ == functions@.skip(i as int),
            function_views(sorted@) == sorted_functions(all.take(i as int)),
        decreases total - i,
    {
        let ghost before = sorted@;
        let f: RawFunction = left.remove(0);
        let n: usize = sorted.len();
        let mut k: usize = 0;
        proof {
            assert(f == functions@[i as int]);
        }
        while k < n && !comes_after(&sorted[k], &f)
            invariant
                k <= n,
                n == sorted@.len(),
                sorted@ == before,
                sorted_place(function_views(sorted@), f@, 0) == sorted_place(
                    function_views(sorted@),
                    f@,
                    k as int,
                ),
            decreases n - k,
        {
            proof {
                assert(function_views(sorted@)[k as int] == sorted@[k as int]@);
            }
            k += 1;
        }
        let ghost view = f@;
        proof {
            if k < n {
                assert(function_views(sorted@)[k as int] == sorted@[k as int]@);
            }
            assert(all.take(i + 1).drop_last() =~= all.take(i as int));
            assert(all.take(i + 1).last() == view);
            place_bounded(function_views(before), view, 0);
        }
        sorted.insert(k, f);
        proof {
            assert(function_views(sorted@) =~= function_views(before).insert(k as int, view));
            assert(left@ =~= functions@.skip(i + 1));
        }
        i += 1;
    }
    proof {
        assert(all.take(total as int) =~= all);
    }
    sorted
}

/// The table has an entry for the function's row.
pub open spec fn row_mapped(f: FunctionView, map: Seq<u8>) -> bool {
    4 * (f.token % 0x100_0000) + 4 <= map.len()
}

/// The function with its token taken through a table of row numbers.
pub open spec fn with_mapped_token(f: FunctionView, map: Seq<u8>) -> FunctionView {
    FunctionView {
        token: 0x0600_0000u32 | bytes::u32_at(map, 4 * (f.token % 0x100_0000) as int),
        ..f
    }
}

/// The functions with their tokens taken through a table of row numbers.
pub open spec fn remapped(functions: Seq<FunctionView>, map: Seq<u8>) -> Option<Seq<FunctionView>> {
    if forall|k: int| 0 <= k < functions.len() ==> row_mapped(#[trigger] functions[k], map) {
        Some(Seq::new(functions.len(), |k: int| with_mapped_token(functions[k], map)))
    } else {
        None
    }
}

/// Rewrites tokens through a table of row numbers.
pub(crate) fn remap_tokens(functions: Vec<RawFunction>, map: &[u8]) -> (r: Result<
    Vec<RawFunction>,
    Error,
>)
    ensures
        match remapped(function_views(functions@), map@) {
            Some(v) => r is Ok && function_views(r->Ok_0@) == v,
            None => r is Err && r->Err_0.kind() == ErrorKind::BadImage,
        },
{
    let ghost all = function_views(functions@);
    let n: usize = functions.len();
    let length: usize = map.len();
    let mut out: Vec<RawFunction> = functions;
    let mut i: usize = 0;
    proof {
        assert forall|k: int| 0 <= k < n implies (#[trigger] out@[k])@ == all[k] by {
            assert(all[k] == functions@[k]@);
        }
    }
    while i < n
        invariant
            i <= n,
            all == function_views(functions@),
            n == all.len(),
            out@.len() == n,
            length == map@.len(),
            forall|k: int| 0 <= k < i ==> row_mapped(#[trigger] all[k], map@),
            forall|k: int| 0 <= k < i ==> (#[trigger] out@[k])@ == with_mapped_token(all[k], map@),
            forall|k: int| i <= k < n ==> (#[trigger] out@[k])@ == all[k],
        decreases n - i,
    {
        let ghost before = out@;
        let rid: u32 = out[i].token % 0x100_0000;
        proof {
            assert(out@[i as int]@ == all[i as int]);
        }
        if (length as u64) / 4 <= rid as u64 {
            proof {
                assert(!row_mapped(all[i as int], map@));
            }
            return Err(
                Error::bad_image(
                    Message::new("native pdb: token 0x").hex_padded(
                        out[i].token as u64,
                        8,
                    ).text(" outside RID map of ").count(length as u64 / 4).text(
                        " entries",
                    ).as_str(),
                ),
            );
        }
        out[i].token = 0x0600_0000u32 | bytes::get_u32(map, 4 * rid as usize);
        proof {
            assert(out@[i as int]@ =~= with_mapped_token(all[i as int], map@));
        }
        i += 1;
    }
    proof {
        assert(function_views(out@) =~= remapped(all, map@)->Some_0);
    }
    Ok(out)
}

/// Where the name of a public symbol record ends: at a zero, or with the
/// record.
pub open spec fn name_end(s: Seq<u8>, at: int, stop: int) -> int {
    match bytes::zero_from(s.take(stop), at) {
        Some(end) => end,
        None => stop,
    }
}

/// The public symbols of the records from `pos` on, up to the first that is
/// none.
pub open spec fn publics_from(s: Seq<u8>, pos: int) -> Seq<(Seq<char>, u64)>
    decreases s.len() - pos,
{
    if pos < 0 || pos + 2 > s.len() {
        Seq::empty()
    } else {
        let size = bytes::u16_at(s, pos) as int;
        let kind = bytes::u16_at(s, pos + 2);
        let stop = pos + 2 + size;
        if size < 2 || stop > s.len() {
            Seq::empty()
        } else if kind == S_PUB32 || kind == S_PUB32_ST {
            if size < 12 {
                Seq::empty()
            } else {
                seq![
                    (
                        text::lossy_text(s.subrange(pos + 14, name_end(s, pos + 14, stop))),
                        bytes::u32_at(s, pos + 8) as u64,
                    ),
                ] + publics_from(s, stop)
            }
        } else {
            publics_from(s, stop)
        }
    }
}

/// The public symbols of a stream: none where it holds only a hash table, and
/// otherwise those of the records at its start or, if there are none, behind
/// the fixed header of publics streams.
pub open spec fn publics_of(s: Seq<u8>) -> Seq<(Seq<char>, u64)> {
    if s.len() >= 4 && s[0] == 0xFF && s[1] == 0xFF && s[2] == 0xFF && s[3] == 0xFF {
        Seq::empty()
    } else if publics_from(s, 0).len() > 0 {
        publics_from(s, 0)
    } else {
        publics_from(s, 28)
    }
}

/// Public symbols.
pub open spec fn public_views(publics: Seq<(String, u64)>) -> Seq<(Seq<char>, u64)> {
    Seq::new(publics.len(), |k: int| (publics[k].0@, publics[k].1))
}

fn walk_publics(data: &[u8], start: usize) -> (found: Vec<(String, u64)>)
    ensures
        public_views(found@) == publics_from(data@, start as int),
{
    let length: usize = data.len();
    let ghost whole = publics_from(data@, start as int);
    let mut found: Vec<(String, u64)> = Vec::new();
    let mut pos: usize = start;
    proof {
        assert(public_views(found@) =~= Seq::<(Seq<char>, u64)>::empty());
        assert(public_views(found@) + whole =~= whole);
    }
    while pos <= length && length - pos >= 2
        invariant
            length == data@.len(),
            public_views(found@) + publics_from(data@, pos as int) == whole,
            whole == publics_from(data@, start as int),
        decreases
            if pos <= length {
                length - pos
            } else {
                0
            },
    {
        let ghost before = public_views(found@);
        let size: usize = bytes::get_u16(data, pos) as usize;
        if size < 2 || length - pos - 2 < size {
            proof {
                assert(before + Seq::<(Seq<char>, u64)>::empty() =~= before);
            }
            return found;
        }
        let stop: usize = pos + 2 + size;
        let kind: u16 = bytes::get_u16(data, pos + 2);
        if is_pub32(kind) {
            if size < 12 {
                proof {
                    assert(before + Seq::<(Seq<char>, u64)>::empty() =~= before);
                }
                return found;
            }
            let record = slice_subrange(data, 0, stop);
            proof {
                assert(record@ =~= data@.take(stop as int));
                bytes::zero_from_found(record@, pos + 14);
            }
            let end: usize = match bytes::find_zero(record, pos + 14) {
                Some(end) => end,
                None => stop,
            };
            let name = text::from_utf8_lossy(slice_subrange(data, pos + 14, end));
            let off: u64 = bytes::get_u32(data, pos + 8) as u64;
            let ghost entry = (name@, off);
            found.push((name, off));
            proof {
                let now = public_views(found@);
                assert(now =~= before.push(entry));
                let rest = publics_from(data@, stop as int);
                assert(before + (seq![entry] + rest) =~= now + rest);
            }
        }
        pos = stop;
    }
    proof {
        assert(public_views(found@) + Seq::<(Seq<char>, u64)>::empty() =~= public_views(found@));
    }
    found
}

/// Walks a global or public symbol stream collecting public symbols.
///
/// Modern streams are pure hash structures: they start with the `0xffffffff`
/// signature and contain bucket tables only, which yield nothing here. Legacy
/// streams whose bytes start directly with record envelopes (and publics
/// streams preceded by their fixed header) are walked; walking stops silently
/// at the hash trailer or at any envelope that does not parse.
pub(crate) fn load_publics(data: &[u8]) -> (found: Vec<(String, u64)>)
    ensures
        public_views(found@) == publics_of(data@),
{
    if data.len() >= 4 && data[0] == 0xFF && data[1] == 0xFF && data[2] == 0xFF && data[3] == 0xFF {
        let found: Vec<(String, u64)> = Vec::new();
        proof {
            assert(public_views(found@) =~= Seq::<(Seq<char>, u64)>::empty());
        }
        return found;
    }
    let found = walk_publics(data, 0);
    if found.len() > 0 {
        return found;
    }
    walk_publics(data, 28)
}

} // verus!
