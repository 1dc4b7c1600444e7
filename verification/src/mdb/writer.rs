//! Writer for the Mono MDB debug-information format.
//!
//! The output layout is what [`crate::mdb::reader::MdbReader`] expects: header,
//! [`OffsetTable`], data section (sources, compile units, methods), then the
//! method / source / compile-unit tables, sorted deterministically by method
//! token.

use vstd::prelude::*;

use crate::bytes;
use crate::error::{Error, ErrorKind};
use crate::io::ByteWriter;
use crate::mdb::encoding;
use crate::mdb::lines;
use crate::mdb::lines::LineEntry;
use crate::mdb::reader;
use crate::mdb::reader::{LocalView, OffsetTable, MAGIC};
use crate::text;
use crate::text::Message;
use crate::token::Token;

verus! {

broadcast use {crate::bytes::widths, crate::mdb::encoding::extents};

/// A local variable of a method that is to be written.
#[derive(Debug, Clone)]
struct LocalVariable {
    index: i32,
    name: String,
    block_index: i32,
}

/// A method that is to be written.
#[derive(Debug, Clone)]
struct MethodData {
    token: Token,
    compile_unit: u32,
    namespace_id: i32,
    lines: Vec<LineEntry>,
    locals: Vec<LocalVariable>,
}

/// What is known of a method.
#[verifier::ext_equal]
pub struct MethodModel {
    pub token: Token,
    pub compile_unit: u32,
    pub namespace_id: i32,
    pub lines: Seq<LineEntry>,
    pub locals: Seq<LocalView>,
}

/// What a writer holds.
#[verifier::ext_equal]
pub struct MdbModel {
    pub guid: Seq<u8>,
    pub sources: Seq<Seq<char>>,
    /// The primary source id and the further ones of every compile unit.
    pub units: Seq<(u32, Seq<u32>)>,
    pub methods: Seq<MethodModel>,
}

spec fn local_model(l: LocalVariable) -> LocalView {
    LocalView { index: l.index, name: l.name@, block_index: l.block_index }
}

spec fn local_models(locals: Seq<LocalVariable>) -> Seq<LocalView> {
    Seq::new(locals.len(), |k: int| local_model(locals[k]))
}

spec fn method_model(m: MethodData) -> MethodModel {
    MethodModel {
        token: m.token,
        compile_unit: m.compile_unit,
        namespace_id: m.namespace_id,
        lines: m.lines@,
        locals: local_models(m.locals@),
    }
}

spec fn method_models(methods: Seq<MethodData>) -> Seq<MethodModel> {
    Seq::new(methods.len(), |k: int| method_model(methods[k]))
}

spec fn source_models(sources: Seq<String>) -> Seq<Seq<char>> {
    Seq::new(sources.len(), |k: int| sources[k]@)
}

spec fn unit_models(units: Seq<(u32, Vec<u32>)>) -> Seq<(u32, Seq<u32>)> {
    Seq::new(units.len(), |k: int| (units[k].0, units[k].1@))
}

/// Builder producing Mono MDB symbol files readable by
/// [`crate::mdb::reader::MdbReader`].
#[derive(Debug, Clone)]
pub struct MdbWriter {
    guid: [u8; 16],
    sources: Vec<String>,
    /// `(primary source id, include-file ids)` per compile unit.
    compile_units: Vec<(u32, Vec<u32>)>,
    methods: Vec<MethodData>,
}

impl View for MdbWriter {
    type V = MdbModel;

    closed spec fn view(&self) -> MdbModel {
        MdbModel {
            guid: self.guid@,
            sources: source_models(self.sources@),
            units: unit_models(self.compile_units@),
            methods: method_models(self.methods@),
        }
    }
}

/// The first source with the path, from the `i`-th one on.
pub open spec fn source_place(sources: Seq<Seq<char>>, path: Seq<char>, i: int) -> Option<int>
    decreases sources.len() - i,
{
    if i < 0 || i >= sources.len() {
        None
    } else if sources[i] == path {
        Some(i)
    } else {
        source_place(sources, path, i + 1)
    }
}

/// The first method with the token, from the `i`-th one on.
pub open spec fn method_place(methods: Seq<MethodModel>, token: Token, i: int) -> Option<int>
    decreases methods.len() - i,
{
    if i < 0 || i >= methods.len() {
        None
    } else if methods[i].token == token {
        Some(i)
    } else {
        method_place(methods, token, i + 1)
    }
}

/// The first point at the IL offset or behind it, from the `i`-th one on.
pub open spec fn line_place(table: Seq<LineEntry>, offset: i32, i: int) -> int
    decreases table.len() - i,
{
    if i < 0 || i >= table.len() {
        table.len() as int
    } else if table[i].offset >= offset {
        i
    } else {
        line_place(table, offset, i + 1)
    }
}

/// The table with a point added in its place. A point at the same IL offset is
/// replaced if the new one has the higher line, and kept otherwise.
pub open spec fn with_point(table: Seq<LineEntry>, e: LineEntry) -> Seq<LineEntry> {
    let k = line_place(table, e.offset, 0);
    if k < table.len() && table[k].offset == e.offset {
        if e.row > table[k].row {
            table.update(k, e)
        } else {
            table
        }
    } else {
        table.insert(k, e)
    }
}

/// The table with the first `n` points added.
pub open spec fn with_points(table: Seq<LineEntry>, points: Seq<(i32, i32, u32)>, n: nat) -> Seq<
    LineEntry,
>
    decreases n,
{
    if n == 0 {
        table
    } else {
        let (offset, row, file) = points[n - 1];
        with_point(with_points(table, points, (n - 1) as nat), LineEntry {
            file,
            row,
            column: (-1) as i32,
            offset,
        })
    }
}

/// The points of one source.
pub open spec fn points_of(entries: Seq<(i32, i32)>, source: u32) -> Seq<(i32, i32, u32)> {
    Seq::new(entries.len(), |k: int| (entries[k].0, entries[k].1, source))
}

impl MdbModel {
    /// The model with a source of the path: a new one comes last.
    pub open spec fn with_source(self, path: Seq<char>) -> MdbModel {
        if source_place(self.sources, path, 0) is Some {
            self
        } else {
            MdbModel { sources: self.sources.push(path), ..self }
        }
    }

    /// The model with a compile unit over the sources, the primary one first;
    /// over none the primary source is zero.
    pub open spec fn with_unit(self, files: Seq<u32>) -> MdbModel {
        MdbModel {
            units: self.units.push(
                if files.len() == 0 {
                    (0u32, Seq::empty())
                } else {
                    (files[0], files.skip(1))
                },
            ),
            ..self
        }
    }

    /// The methods with one of the token: a new one comes last, with the unit
    /// and the namespace.
    pub open spec fn with_method(self, token: Token, unit: u32, namespace_id: i32) -> Seq<
        MethodModel,
    > {
        if method_place(self.methods, token, 0) is Some {
            self.methods
        } else {
            self.methods.push(
                MethodModel {
                    token,
                    compile_unit: unit,
                    namespace_id,
                    lines: Seq::empty(),
                    locals: Seq::empty(),
                },
            )
        }
    }

    /// The model with sequence points added to the method with the token.
    pub open spec fn marked(
        self,
        token: Token,
        unit: u32,
        namespace_id: i32,
        points: Seq<(i32, i32, u32)>,
    ) -> MdbModel {
        let methods = self.with_method(token, unit, namespace_id);
        let k = method_place(methods, token, 0)->Some_0;
        MdbModel {
            methods: methods.update(
                k,
                MethodModel {
                    lines: with_points(methods[k].lines, points, points.len()),
                    ..methods[k]
                },
            ),
            ..self
        }
    }

    /// The model with a local variable added to the `k`-th method.
    pub open spec fn with_local(self, k: int, local: LocalView) -> MdbModel {
        MdbModel {
            methods: self.methods.update(
                k,
                MethodModel { locals: self.methods[k].locals.push(local), ..self.methods[k] },
            ),
            ..self
        }
    }
}

proof fn method_place_found(methods: Seq<MethodModel>, token: Token, i: int)
    requires
        0 <= i,
    ensures
        match method_place(methods, token, i) {
            Some(k) => i <= k < methods.len() && methods[k].token == token,
            None => forall|j: int| i <= j < methods.len() ==> (#[trigger] methods[j]).token != token,
        },
    decreases methods.len() - i,
{
    if i < methods.len() && methods[i].token != token {
        method_place_found(methods, token, i + 1);
    }
}

proof fn method_place_last(methods: Seq<MethodModel>, m: MethodModel, i: int)
    requires
        0 <= i <= methods.len(),
        method_place(methods, m.token, i) is None,
    ensures
        method_place(methods.push(m), m.token, i) == Some(methods.len() as int),
    decreases methods.len() - i,
{
    if i < methods.len() {
        method_place_last(methods, m, i + 1);
    }
}

proof fn line_place_bounded(table: Seq<LineEntry>, offset: i32, i: int)
    requires
        0 <= i <= table.len(),
    ensures
        i <= line_place(table, offset, i) <= table.len(),
        forall|j: int| i <= j < line_place(table, offset, i) ==> (#[trigger] table[j]).offset < offset,
        line_place(table, offset, i) < table.len() ==> table[line_place(table, offset, i)].offset
            >= offset,
    decreases table.len() - i,
{
    if i < table.len() && table[i].offset < offset {
        line_place_bounded(table, offset, i + 1);
    }
}

fn add_point(table: &mut Vec<LineEntry>, e: LineEntry)
    ensures
        final(table)@ == with_point(old(table)@, e),
{
    let n: usize = table.len();
    let mut k: usize = 0;
    while k < n && table[k].offset < e.offset
        invariant
            k <= n,
            n == table@.len(),
            table@ == old(table)@,
            line_place(table@, e.offset, 0) == line_place(table@, e.offset, k as int),
        decreases n - k,
    {
        k += 1;
    }
    if k < n && table[k].offset == e.offset {
        if e.row > table[k].row {
            table.set(k, e);
        }
    } else {
        table.insert(k, e);
    }
}

impl MdbWriter {
    /// Creates a builder bound to `guid`, the module guid the resulting file
    /// belongs to.
    pub fn new(guid: [u8; 16]) -> (w: Self)
        ensures
            w@ == (MdbModel {
                guid: guid@,
                sources: Seq::empty(),
                units: Seq::empty(),
                methods: Seq::empty(),
            }),
    {
        let w = MdbWriter {
            guid,
            sources: Vec::new(),
            compile_units: Vec::new(),
            methods: Vec::new(),
        };
        proof {
            assert(w@.sources =~= Seq::<Seq<char>>::empty());
            assert(w@.units =~= Seq::<(u32, Seq<u32>)>::empty());
            assert(w@.methods =~= Seq::<MethodModel>::empty());
        }
        w
    }

    /// Registers a source document and returns its 1-based id.
    ///
    /// Paths are deduplicated: registering the same path again returns the
    /// existing id without adding a table row.
    pub fn add_source(&mut self, path: &str) -> (id: u32)
        ensures
            final(self)@ == old(self)@.with_source(path@),
            id == bytes::low32(
                1 + match source_place(old(self)@.sources, path@, 0) {
                    Some(k) => k,
                    None => old(self)@.sources.len() as int,
                },
            ),
    {
        let n: usize = self.sources.len();
        let mut i: usize = 0;
        while i < n
            invariant
                i <= n,
                n == self.sources@.len(),
                self == old(self),
                source_place(self@.sources, path@, 0) == source_place(
                    self@.sources,
                    path@,
                    i as int,
                ),
            decreases n - i,
        {
            proof {
                assert(self@.sources[i as int] == self.sources@[i as int]@);
            }
            if text::same(self.sources[i].as_str(), path) {
                return bytes::as_low32(i + 1);
            }
            i += 1;
        }
        self.sources.push(path.to_owned());
        proof {
            assert(self@.sources =~= old(self)@.sources.push(path@));
        }
        bytes::as_low32(self.sources.len())
    }

    /// Defines a compilation unit over `files` and returns its 1-based id.
    ///
    /// `files[0]` is the unit's primary source; any further ids are include
    /// files. An empty slice yields a unit with primary source id 0.
    pub fn add_compile_unit(&mut self, files: &[u32]) -> (id: u32)
        ensures
            id == bytes::low32((old(self)@.units.len() + 1) as int),
            final(self)@ == old(self)@.with_unit(files@),
    {
        let n: usize = files.len();
        let primary: u32 = if n == 0 {
            0
        } else {
            files[0]
        };
        let mut includes: Vec<u32> = Vec::new();
        let mut i: usize = 1;
        while i < n
            invariant
                1 <= i,
                n == files@.len(),
                i <= n || n == 0,
                includes@ == (if n == 0 {
                    Seq::empty()
                } else {
                    files@.subrange(1, i as int)
                }),
            decreases n - i,
        {
            includes.push(files[i]);
            proof {
                assert(includes@ =~= files@.subrange(1, i + 1));
            }
            i += 1;
        }
        let ghost unit = (primary, includes@);
        self.compile_units.push((primary, includes));
        proof {
            if n > 0 {
                assert(files@.subrange(1, n as int) =~= files@.skip(1));
            }
            assert(self@.units =~= old(self)@.units.push(unit));
            assert(self@.sources =~= old(self)@.sources);
            assert(self@.methods =~= old(self)@.methods);
        }
        bytes::as_low32(self.compile_units.len())
    }

    /// Adds line-number sequence points for one method.
    ///
    /// Every point in `entries` (IL offset, source line) is attributed to
    /// `source`. Duplicate offsets follow the compiler rule: a later point at
    /// the same IL offset replaces the previous one only when its line is
    /// higher, and never produces two rows.
    pub fn add_method_lines(&mut self, method: Token, cu: u32, entries: &[(i32, i32)], source: u32)
        ensures
            final(self)@ == old(self)@.marked(method, cu, 0, points_of(entries@, source)),
    {
        let n: usize = entries.len();
        let mut points: Vec<(i32, i32, u32)> = Vec::new();
        let mut i: usize = 0;
        while i < n
            invariant
                i <= n,
                n == entries@.len(),
                points@ == points_of(entries@, source).take(i as int),
            decreases n - i,
        {
            let (offset, line) = entries[i];
            points.push((offset, line, source));
            proof {
                assert(points@ =~= points_of(entries@, source).take(i + 1));
            }
            i += 1;
        }
        proof {
            assert(points@ =~= points_of(entries@, source));
        }
        self.mark_sequence_points(method, cu, 0, points.as_slice());
    }

    fn find_method(&self, method: Token) -> (r: Option<usize>)
        ensures
            match method_place(self@.methods, method, 0) {
                Some(k) => r is Some && r->Some_0 == k && 0 <= k < self.methods@.len(),
                None => r is None,
            },
    {
        let n: usize = self.methods.len();
        let mut i: usize = 0;
        while i < n
            invariant
                i <= n,
                n == self.methods@.len(),
                method_place(self@.methods, method, 0) == method_place(
                    self@.methods,
                    method,
                    i as int,
                ),
            decreases n - i,
        {
            proof {
                assert(self@.methods[i as int] == method_model(self.methods@[i as int]));
            }
            if self.methods[i].token.0 == method.0 {
                return Some(i);
            }
            i += 1;
        }
        None
    }

    /// Full-form variant of [`MdbWriter::add_method_lines`] where every
    /// point carries its own source-file id, enabling line tables that span
    /// multiple documents, plus an explicit namespace id.
    pub fn mark_sequence_points(
        &mut self,
        method: Token,
        cu: u32,
        namespace_id: i32,
        points: &[(i32, i32, u32)],
    )
        ensures
            final(self)@ == old(self)@.marked(method, cu, namespace_id, points@),
    {
        let ghost before = self@;
        let k: usize = match self.find_method(method) {
            Some(k) => {
                proof {
                    method_place_found(before.methods, method, 0);
                }
                k
            },
            None => {
                let k: usize = self.methods.len();
                let m = MethodData {
                    token: method,
                    compile_unit: cu,
                    namespace_id,
                    lines: Vec::new(),
                    locals: Vec::new(),
                };
                let ghost model = method_model(m);
                self.methods.push(m);
                proof {
                    assert(model.locals =~= Seq::<LocalView>::empty());
                    assert(self@.methods =~= before.methods.push(model));
                    method_place_last(before.methods, model, 0);
                }
                k
            },
        };
        let ghost methods = before.with_method(method, cu, namespace_id);
        proof {
            assert(self@.methods =~= methods);
            assert(method_place(methods, method, 0) == Some(k as int));
            assert(methods[k as int] == method_model(self.methods@[k as int]));
        }
        let ghost known = self.methods@;
        let ghost start = self.methods@[k as int];
        let mut table: Vec<LineEntry> = Vec::new();
        let n_lines: usize = self.methods[k].lines.len();
        let mut j: usize = 0;
        while j < n_lines
            invariant
                j <= n_lines,
                k < self.methods@.len(),
                self.methods@ == known,
                start == known[k as int],
                n_lines == start.lines@.len(),
                table@ == start.lines@.take(j as int),
                self.guid == old(self).guid,
                self.sources == old(self).sources,
                self.compile_units == old(self).compile_units,
            decreases n_lines - j,
        {
            table.push(self.methods[k].lines[j]);
            proof {
                assert(table@ =~= start.lines@.take(j + 1));
            }
            j += 1;
        }
        proof {
            assert(table@ =~= start.lines@);
        }
        let n: usize = points.len();
        let mut i: usize = 0;
        while i < n
            invariant
                i <= n,
                n == points@.len(),
                table@ == with_points(start.lines@, points@, i as nat),
            decreases n - i,
        {
            let (offset, row, file) = points[i];
            add_point(&mut table, LineEntry { file, row, column: -1, offset });
            i += 1;
        }
        let ghost lines = table@;
        let mut m: MethodData = self.methods.remove(k);
        m.lines = table;
        let ghost model = method_model(m);
        self.methods.insert(k, m);
        proof {
            assert(self.methods@ =~= known.update(k as int, m));
            assert(self@.methods =~= methods.update(k as int, model));
            assert(model =~= MethodModel { lines, ..methods[k as int] });
            assert(self@ =~= before.marked(method, cu, namespace_id, points@));
        }
    }

    /// Attaches a local-variable record to the method registered under
    /// `method`. Fails when no such method exists yet.
    pub fn add_local_variable(
        &mut self,
        method: Token,
        index: i32,
        name: &str,
        block_index: i32,
    ) -> (r: Result<(), Error>)
        ensures
            match method_place(old(self)@.methods, method, 0) {
                Some(k) => r is Ok && final(self)@ == old(self)@.with_local(
                    k,
                    (LocalView { index, name: name@, block_index }),
                ),
                None => {
                    &&& r is Err
                    &&& r->Err_0.kind() == ErrorKind::Argument
                    &&& r->Err_0.text() == "mdb: cannot define local `"@ + name@
                        + "` on unknown method token 0x"@ + text::hex_digits(method.0, 8)
                    &&& final(self)@ == old(self)@
                },
            },
    {
        let ghost before = self@;
        let ghost known = self.methods@;
        match self.find_method(method) {
            Some(k) => {
                let mut m: MethodData = self.methods.remove(k);
                let ghost locals = local_models(m.locals@);
                m.locals.push(LocalVariable { index, name: name.to_owned(), block_index });
                let ghost model = method_model(m);
                let ghost view = LocalView { index, name: name@, block_index };
                self.methods.insert(k, m);
                proof {
                    assert(model.locals =~= locals.push(view));
                    assert(before.methods[k as int] == method_model(known[k as int]));
                    assert(self.methods@ =~= known.update(k as int, m));
                    assert(self@.methods =~= before.methods.update(k as int, model));
                    assert(self@ =~= before.with_local(k as int, view));
                }
                Ok(())
            },
            None => Err(
                Error::argument(
                    Message::new("mdb: cannot define local `").text(name).text(
                        "` on unknown method token 0x",
                    ).upper_hex(method.0, 8).as_str(),
                ),
            ),
        }
    }
}

/// Where a method goes among sorted ones: behind all with a token that is not
/// higher.
pub open spec fn token_place(methods: Seq<MethodModel>, token: Token, i: int) -> int
    decreases methods.len() - i,
{
    if i < 0 || i >= methods.len() {
        methods.len() as int
    } else if methods[i].token.0 > token.0 {
        i
    } else {
        token_place(methods, token, i + 1)
    }
}

/// The methods in the order of their tokens.
pub open spec fn sorted_methods(methods: Seq<MethodModel>) -> Seq<MethodModel>
    decreases methods.len(),
{
    if methods.len() == 0 {
        Seq::empty()
    } else {
        let front = sorted_methods(methods.drop_last());
        front.insert(token_place(front, methods.last().token, 0), methods.last())
    }
}

proof fn token_place_bounded(methods: Seq<MethodModel>, token: Token, i: int)
    requires
        0 <= i <= methods.len(),
    ensures
        i <= token_place(methods, token, i) <= methods.len(),
        forall|j: int|
            i <= j < token_place(methods, token, i) ==> (#[trigger] methods[j]).token.0 <= token.0,
        token_place(methods, token, i) < methods.len() ==> methods[token_place(
            methods,
            token,
            i,
        )].token.0 > token.0,
    decreases methods.len() - i,
{
    if i < methods.len() && methods[i].token.0 <= token.0 {
        token_place_bounded(methods, token, i + 1);
    }
}

/// Puts the methods in the order of their tokens.
fn sort_methods(methods: Vec<MethodData>) -> (sorted: Vec<MethodData>)
    ensures
        method_models(sorted@) == sorted_methods(method_models(methods@)),
{
    let ghost all = method_models(methods@);
    let total: usize = methods.len();
    let mut left: Vec<MethodData> = methods;
    let mut sorted: Vec<MethodData> = Vec::new();
    let mut i: usize = 0;
    proof {
        assert(all.take(0) =~= Seq::<MethodModel>::empty());
        assert(method_models(sorted@) =~= Seq::<MethodModel>::empty());
        assert(left@ =~= methods@.skip(0));
    }
    while i < total
        invariant
            i <= total,
            total == methods@.len(),
            all == method_models(methods@),
            left@ == methods@.skip(i as int),
            method_models(sorted@) == sorted_methods(all.take(i as int)),
        decreases total - i,
    {
        let ghost before = sorted@;
        let m: MethodData = left.remove(0);
        let n: usize = sorted.len();
        let mut k: usize = 0;
        proof {
            assert(m == methods@[i as int]);
        }
        while k < n && sorted[k].token.0 <= m.token.0
            invariant
                k <= n,
                n == sorted@.len(),
                sorted@ == before,
                token_place(method_models(sorted@), m.token, 0) == token_place(
                    method_models(sorted@),
                    m.token,
                    k as int,
                ),
            decreases n - k,
        {
            proof {
                assert(method_models(sorted@)[k as int] == method_model(sorted@[k as int]));
            }
            k += 1;
        }
        proof {
            if k < n {
                assert(method_models(sorted@)[k as int] == method_model(sorted@[k as int]));
            }
            assert(all.take(i + 1).drop_last() =~= all.take(i as int));
            assert(all.take(i + 1).last() == method_model(m));
            token_place_bounded(method_models(before), m.token, 0);
        }
        sorted.insert(k, m);
        proof {
            assert(method_models(sorted@) =~= method_models(before).insert(
                k as int,
                method_model(m),
            ));
            assert(left@ =~= methods@.skip(i + 1));
        }
        i += 1;
    }
    proof {
        assert(all.take(total as int) =~= all);
    }
    sorted
}

/// The payload of a source: its path, and no guid, checksum or flag.
pub open spec fn source_part(path: Seq<char>) -> Seq<u8> {
    encoding::string_bytes(path) + bytes::zero_bytes(33)
}

/// The payloads of the sources.
pub open spec fn source_parts(sources: Seq<Seq<char>>) -> Seq<Seq<u8>> {
    Seq::new(sources.len(), |k: int| source_part(sources[k]))
}

/// The variable-length integers.
pub open spec fn id_parts(ids: Seq<u32>) -> Seq<Seq<u8>> {
    Seq::new(ids.len(), |k: int| encoding::leb128_bytes(ids[k]))
}

/// The payload of a unit: its sources, and no namespaces.
pub open spec fn unit_part(unit: (u32, Seq<u32>)) -> Seq<u8> {
    encoding::leb128_bytes(unit.0) + encoding::leb128_bytes(bytes::low32(unit.1.len() as int))
        + bytes::joined(id_parts(unit.1)) + encoding::leb128_bytes(0)
}

/// The payloads of the units.
pub open spec fn unit_parts(units: Seq<(u32, Seq<u32>)>) -> Seq<Seq<u8>> {
    Seq::new(units.len(), |k: int| unit_part(units[k]))
}

/// The bytes of a local variable.
pub open spec fn local_part(local: LocalView) -> Seq<u8> {
    encoding::leb128_bytes(bytes::u32_of(local.index)) + encoding::string_bytes(local.name)
        + encoding::leb128_bytes(bytes::u32_of(local.block_index))
}

/// The bytes of the local variables.
pub open spec fn local_parts(locals: Seq<LocalView>) -> Seq<Seq<u8>> {
    Seq::new(locals.len(), |k: int| local_part(locals[k]))
}

/// The local variables of a method, behind their number.
pub open spec fn locals_bytes(locals: Seq<LocalView>) -> Seq<u8> {
    encoding::leb128_bytes(bytes::low32(locals.len() as int)) + bytes::joined(local_parts(locals))
}

/// What a method holds in front of its data: the local variables, no code
/// blocks, no scope variables, and the line-number table.
pub open spec fn method_front(m: MethodModel) -> Seq<u8> {
    locals_bytes(m.locals) + encoding::leb128_bytes(0) + encoding::leb128_bytes(0)
        + lines::table_bytes(m.lines, 2)
}

/// The data of a method whose payload starts at the position.
pub open spec fn method_data(m: MethodModel, at: int) -> Seq<u8> {
    let locals = locals_bytes(m.locals).len();
    encoding::leb128_bytes(m.compile_unit) + encoding::leb128_bytes(bytes::low32(at))
        + encoding::leb128_bytes(bytes::u32_of(m.namespace_id)) + encoding::leb128_bytes(
        bytes::low32(at + locals),
    ) + encoding::leb128_bytes(bytes::low32(at + locals + 1)) + encoding::leb128_bytes(0)
        + encoding::leb128_bytes(2)
}

/// The payload of a method that starts at the position.
pub open spec fn method_part(m: MethodModel, at: int) -> Seq<u8> {
    method_front(m) + method_data(m, at)
}

/// The payloads of the first `k` methods, the first of which starts at `base`.
pub open spec fn methods_bytes(methods: Seq<MethodModel>, base: int, k: int) -> Seq<u8>
    decreases k,
{
    if k <= 0 {
        Seq::empty()
    } else {
        let front = methods_bytes(methods, base, k - 1);
        front + method_part(methods[k - 1], base + front.len())
    }
}

/// Where the payload of the `k`-th method starts.
pub open spec fn method_start(methods: Seq<MethodModel>, base: int, k: int) -> int {
    base + methods_bytes(methods, base, k).len()
}

/// The table row of the `k`-th method: its token, and where its data and its
/// line-number table stand.
pub open spec fn method_row(methods: Seq<MethodModel>, base: int, k: int) -> Seq<u8> {
    let at = method_start(methods, base, k);
    bytes::u32_le(methods[k].token.0) + bytes::u32_le(
        bytes::low32(at + method_front(methods[k]).len()),
    ) + bytes::u32_le(bytes::low32(at + locals_bytes(methods[k].locals).len() + 2))
}

/// The table rows of the methods.
pub open spec fn method_rows(methods: Seq<MethodModel>, base: int) -> Seq<Seq<u8>> {
    Seq::new(methods.len(), |k: int| method_row(methods, base, k))
}

/// The table rows of payloads that follow one another from `base` on: a
/// one-based index and where the payload stands.
pub open spec fn index_rows(parts: Seq<Seq<u8>>, base: int) -> Seq<Seq<u8>> {
    Seq::new(
        parts.len(),
        |k: int|
            bytes::u32_le(bytes::low32(k + 1)) + bytes::u32_le(
                bytes::low32(base + bytes::joined(parts.take(k)).len()),
            ),
    )
}

/// The parts of a symbol file.
pub struct FileParts {
    pub sources: Seq<u8>,
    pub units: Seq<u8>,
    pub methods: Seq<u8>,
    pub method_table: Seq<u8>,
    pub source_table: Seq<u8>,
    pub unit_table: Seq<u8>,
}

impl MdbModel {
    /// Where the payloads of the methods start.
    pub open spec fn methods_base(self) -> int {
        112int + bytes::joined(source_parts(self.sources)).len() + bytes::joined(
            unit_parts(self.units),
        ).len()
    }

    /// What follows the offset table.
    pub open spec fn parts(self) -> FileParts {
        let methods = sorted_methods(self.methods);
        let sources = bytes::joined(source_parts(self.sources));
        FileParts {
            sources,
            units: bytes::joined(unit_parts(self.units)),
            methods: methods_bytes(methods, self.methods_base(), methods.len() as int),
            method_table: bytes::joined(method_rows(methods, self.methods_base())),
            source_table: bytes::joined(index_rows(source_parts(self.sources), 112)),
            unit_table: bytes::joined(
                index_rows(unit_parts(self.units), (112 + sources.len()) as int),
            ),
        }
    }

    /// The offset table.
    pub open spec fn offsets(self) -> OffsetTable {
        let p = self.parts();
        let methods_at = self.methods_base() + p.methods.len();
        let sources_at = methods_at + p.method_table.len();
        let units_at = sources_at + p.source_table.len();
        let end = units_at + p.unit_table.len();
        OffsetTable {
            total_file_size: bytes::wrapped32(end),
            data_section_offset: 112,
            data_section_size: bytes::wrapped32(methods_at - 112),
            compile_unit_count: bytes::wrapped32(self.units.len() as int),
            compile_unit_table_offset: bytes::wrapped32(units_at),
            compile_unit_table_size: bytes::wrapped32(p.unit_table.len() as int),
            source_count: bytes::wrapped32(self.sources.len() as int),
            source_table_offset: bytes::wrapped32(sources_at),
            source_table_size: bytes::wrapped32(p.source_table.len() as int),
            method_count: bytes::wrapped32(self.methods.len() as int),
            method_table_offset: bytes::wrapped32(methods_at),
            method_table_size: bytes::wrapped32(p.method_table.len() as int),
            anonymous_scope_table_offset: bytes::wrapped32(end),
            ..reader::default_offset_table()
        }
    }

    /// The symbol file.
    pub open spec fn file(self) -> Seq<u8> {
        let p = self.parts();
        bytes::u64_le(MAGIC) + bytes::u32_le(50) + bytes::u32_le(0) + self.guid + bytes::joined(
            self.offsets().parts(),
        ) + p.sources + p.units + p.methods + p.method_table + p.source_table + p.unit_table
    }
}

/// Takes the low 32 bits of a position.
fn low_half(n: u128) -> (v: u32)
    ensures
        v == bytes::low32(n as int),
{
    (n % 0x1_0000_0000) as u32
}

fn write_sources(sources: &Vec<String>) -> (r: (ByteWriter, ByteWriter))
    ensures
        r.0@ == bytes::joined(source_parts(source_models(sources@))),
        r.1@ == bytes::joined(index_rows(source_parts(source_models(sources@)), 112)),
{
    let ghost parts = source_parts(source_models(sources@));
    let ghost rows = index_rows(parts, 112);
    let n: usize = sources.len();
    let mut w = ByteWriter::new();
    let mut t = ByteWriter::new();
    let mut i: usize = 0;
    proof {
        assert(parts.take(0) =~= Seq::<Seq<u8>>::empty());
        assert(rows.take(0) =~= Seq::<Seq<u8>>::empty());
    }
    while i < n
        invariant
            i <= n,
            n == sources@.len(),
            parts == source_parts(source_models(sources@)),
            rows == index_rows(parts, 112),
            w@ == bytes::joined(parts.take(i as int)),
            t@ == bytes::joined(rows.take(i as int)),
        decreases n - i,
    {
        let ghost before = (w@, t@);
        proof {
            bytes::joined_step(parts, i as int);
            bytes::joined_step(rows, i as int);
        }
        t.u32(low_half(i as u128 + 1));
        t.u32(low_half(112 + w.len() as u128));
        encoding::write_string(&mut w, sources[i].as_str());
        w.zeros(33);
        proof {
            assert(w@ =~= before.0 + parts[i as int]);
            assert(t@ =~= before.1 + rows[i as int]);
        }
        i += 1;
    }
    proof {
        assert(parts.take(n as int) =~= parts);
        assert(rows.take(n as int) =~= rows);
    }
    (w, t)
}

fn write_ids(w: &mut ByteWriter, ids: &Vec<u32>)
    ensures
        final(w)@ == old(w)@ + bytes::joined(id_parts(ids@)),
{
    let ghost parts = id_parts(ids@);
    let n: usize = ids.len();
    let mut i: usize = 0;
    proof {
        assert(parts.take(0) =~= Seq::<Seq<u8>>::empty());
        assert(w@ =~= old(w)@ + bytes::joined(parts.take(0)));
    }
    while i < n
        invariant
            i <= n,
            n == ids@.len(),
            parts == id_parts(ids@),
            w@ == old(w)@ + bytes::joined(parts.take(i as int)),
        decreases n - i,
    {
        encoding::write_leb128(w, ids[i]);
        proof {
            bytes::joined_step(parts, i as int);
            assert(w@ =~= old(w)@ + bytes::joined(parts.take(i + 1)));
        }
        i += 1;
    }
    proof {
        assert(parts.take(n as int) =~= parts);
    }
}

fn write_units(units: &Vec<(u32, Vec<u32>)>, base: u128) -> (r: (ByteWriter, ByteWriter))
    requires
        base <= 0x1_0000_0000_0000_0000_0000,
    ensures
        r.0@ == bytes::joined(unit_parts(unit_models(units@))),
        r.1@ == bytes::joined(index_rows(unit_parts(unit_models(units@)), base as int)),
{
    let ghost parts = unit_parts(unit_models(units@));
    let ghost rows = index_rows(parts, base as int);
    let n: usize = units.len();
    let mut w = ByteWriter::new();
    let mut t = ByteWriter::new();
    let mut i: usize = 0;
    proof {
        assert(parts.take(0) =~= Seq::<Seq<u8>>::empty());
        assert(rows.take(0) =~= Seq::<Seq<u8>>::empty());
    }
    while i < n
        invariant
            i <= n,
            n == units@.len(),
            base <= 0x1_0000_0000_0000_0000_0000,
            parts == unit_parts(unit_models(units@)),
            rows == index_rows(parts, base as int),
            w@ == bytes::joined(parts.take(i as int)),
            t@ == bytes::joined(rows.take(i as int)),
        decreases n - i,
    {
        let ghost before = (w@, t@);
        proof {
            bytes::joined_step(parts, i as int);
            bytes::joined_step(rows, i as int);
            assert(unit_models(units@)[i as int] == (
                units@[i as int].0,
                units@[i as int].1@,
            ));
        }
        t.u32(low_half(i as u128 + 1));
        t.u32(low_half(base + w.len() as u128));
        let includes = &units[i].1;
        encoding::write_leb128(&mut w, units[i].0);
        encoding::write_leb128(&mut w, bytes::as_low32(includes.len()));
        write_ids(&mut w, includes);
        encoding::write_leb128(&mut w, 0);
        proof {
            assert(w@ =~= before.0 + parts[i as int]);
            assert(t@ =~= before.1 + rows[i as int]);
        }
        i += 1;
    }
    proof {
        assert(parts.take(n as int) =~= parts);
        assert(rows.take(n as int) =~= rows);
    }
    (w, t)
}

fn write_locals(w: &mut ByteWriter, locals: &Vec<LocalVariable>)
    ensures
        final(w)@ == old(w)@ + locals_bytes(local_models(locals@)),
{
    let ghost models = local_models(locals@);
    let ghost parts = local_parts(models);
    let n: usize = locals.len();
    encoding::write_leb128(w, bytes::as_low32(n));
    let ghost start = w@;
    let mut i: usize = 0;
    proof {
        assert(parts.take(0) =~= Seq::<Seq<u8>>::empty());
        assert(w@ =~= start + bytes::joined(parts.take(0)));
    }
    while i < n
        invariant
            i <= n,
            n == locals@.len(),
            models == local_models(locals@),
            parts == local_parts(models),
            w@ == start + bytes::joined(parts.take(i as int)),
        decreases n - i,
    {
        let l = &locals[i];
        proof {
            assert(models[i as int] == local_model(*l));
        }
        encoding::write_leb128(w, bytes::as_u32(l.index));
        encoding::write_string(w, l.name.as_str());
        encoding::write_leb128(w, bytes::as_u32(l.block_index));
        proof {
            bytes::joined_step(parts, i as int);
            assert(w@ =~= start + bytes::joined(parts.take(i + 1)));
        }
        i += 1;
    }
    proof {
        assert(parts.take(n as int) =~= parts);
        assert(w@ =~= old(w)@ + locals_bytes(models));
    }
}

/// Writes the payload of a method that starts at the position; returns how
/// many bytes its local variables take, and how many stand before its data.
fn write_method(w: &mut ByteWriter, m: &MethodData, at: u128) -> (r: (usize, usize))
    requires
        at <= 0x4_0000_0000_0000_0000_0000,
    ensures
        final(w)@ == old(w)@ + method_part(method_model(*m), at as int),
        r.0 == locals_bytes(method_model(*m).locals).len(),
        r.1 == method_front(method_model(*m)).len(),
{
    let ghost model = method_model(*m);
    let mut front = ByteWriter::new();
    write_locals(&mut front, &m.locals);
    let locals: usize = front.len();
    encoding::write_leb128(&mut front, 0);
    encoding::write_leb128(&mut front, 0);
    lines::encode_line_number_table(&mut front, &m.lines, 2);
    proof {
        assert(front@ =~= method_front(model));
    }
    w.bytes(front.as_slice());
    let ghost start = w@;
    encoding::write_leb128(w, m.compile_unit);
    encoding::write_leb128(w, low_half(at));
    encoding::write_leb128(w, bytes::as_u32(m.namespace_id));
    encoding::write_leb128(w, low_half(at + locals as u128));
    encoding::write_leb128(w, low_half(at + locals as u128 + 1));
    encoding::write_leb128(w, 0);
    encoding::write_leb128(w, 2);
    proof {
        assert(w@ =~= start + method_data(model, at as int));
        assert(w@ =~= old(w)@ + method_part(model, at as int));
    }
    (locals, front.len())
}

fn write_methods(methods: &Vec<MethodData>, base: u128) -> (r: (ByteWriter, ByteWriter))
    requires
        base <= 0x1_0000_0000_0000_0000_0000,
    ensures
        r.0@ == methods_bytes(
            method_models(methods@),
            base as int,
            methods@.len() as int,
        ),
        r.1@ == bytes::joined(method_rows(method_models(methods@), base as int)),
{
    let ghost models = method_models(methods@);
    let ghost rows = method_rows(models, base as int);
    let n: usize = methods.len();
    let mut w = ByteWriter::new();
    let mut t = ByteWriter::new();
    let mut i: usize = 0;
    proof {
        assert(rows.take(0) =~= Seq::<Seq<u8>>::empty());
    }
    while i < n
        invariant
            i <= n,
            n == methods@.len(),
            base <= 0x1_0000_0000_0000_0000_0000,
            models == method_models(methods@),
            rows == method_rows(models, base as int),
            w@ == methods_bytes(models, base as int, i as int),
            t@ == bytes::joined(rows.take(i as int)),
        decreases n - i,
    {
        let ghost before = t@;
        let at: u128 = base + w.len() as u128;
        proof {
            bytes::joined_step(rows, i as int);
            assert(models[i as int] == method_model(methods@[i as int]));
        }
        let (locals, front) = write_method(&mut w, &methods[i], at);
        t.u32(methods[i].token.0);
        t.u32(low_half(at + front as u128));
        t.u32(low_half(at + locals as u128 + 2));
        proof {
            assert(t@ =~= before + rows[i as int]);
        }
        i += 1;
    }
    proof {
        assert(rows.take(n as int) =~= rows);
    }
    (w, t)
}

proof fn sorting_keeps_count(methods: Seq<MethodModel>)
    ensures
        sorted_methods(methods).len() == methods.len(),
    decreases methods.len(),
{
    if methods.len() > 0 {
        sorting_keeps_count(methods.drop_last());
        token_place_bounded(
            sorted_methods(methods.drop_last()),
            methods.last().token,
            0,
        );
    }
}

impl MdbWriter {
    /// Serializes header, tables and payloads into the final MDB byte stream.
    pub fn finalize(self) -> (out: Vec<u8>)
        ensures
            out@ == self@.file(),
    {
        let ghost model = self@;
        let method_count: usize = self.methods.len();
        let methods = sort_methods(self.methods);
        let (sources, source_table) = write_sources(&self.sources);
        let units_base: u128 = 112 + sources.len() as u128;
        let (units, unit_table) = write_units(&self.compile_units, units_base);
        let base: u128 = units_base + units.len() as u128;
        let (bodies, method_table) = write_methods(&methods, base);
        proof {
            sorting_keeps_count(model.methods);
            assert(method_models(methods@).len() == methods@.len());
            assert(method_models(methods@) == sorted_methods(model.methods));
        }
        let methods_at: u128 = base + bodies.len() as u128;
        let sources_at: u128 = methods_at + method_table.len() as u128;
        let units_at: u128 = sources_at + source_table.len() as u128;
        let end: u128 = units_at + unit_table.len() as u128;
        let mut ot = OffsetTable::default();
        ot.total_file_size = bytes::as_i32(low_half(end));
        ot.data_section_offset = 112;
        ot.data_section_size = bytes::as_i32(low_half(methods_at - 112));
        ot.compile_unit_count = bytes::as_i32(bytes::as_low32(self.compile_units.len()));
        ot.compile_unit_table_offset = bytes::as_i32(low_half(units_at));
        ot.compile_unit_table_size = bytes::as_i32(bytes::as_low32(unit_table.len()));
        ot.source_count = bytes::as_i32(bytes::as_low32(self.sources.len()));
        ot.source_table_offset = bytes::as_i32(low_half(sources_at));
        ot.source_table_size = bytes::as_i32(bytes::as_low32(source_table.len()));
        ot.method_count = bytes::as_i32(bytes::as_low32(method_count));
        ot.method_table_offset = bytes::as_i32(low_half(methods_at));
        ot.method_table_size = bytes::as_i32(bytes::as_low32(method_table.len()));
        ot.anonymous_scope_table_offset = bytes::as_i32(low_half(end));
        let mut w = ByteWriter::new();
        w.u64(MAGIC);
        w.u32(50);
        w.u32(0);
        let guid: [u8; 16] = self.guid;
        w.bytes(guid.as_slice());
        ot.write(&mut w);
        w.bytes(sources.as_slice());
        w.bytes(units.as_slice());
        w.bytes(bodies.as_slice());
        w.bytes(method_table.as_slice());
        w.bytes(source_table.as_slice());
        w.bytes(unit_table.as_slice());
        proof {
            assert(ot == model.offsets());
            assert(w@ =~= model.file());
        }
        w.into_vec()
    }
}

} // verus!
