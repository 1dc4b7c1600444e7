//! XML documentation-comment IDs.
//!
//! Produces the identifier strings embedded in `<member name="...">` entries
//! of XML documentation files, e.g. `M:System.String.Length`, `T:Ns.Foo`2`,
//! `F:Ns.X.q`:
//!
//! * nested types are joined with `.` (`T:Ns.Outer.Inner`);
//! * arity suffixes are kept in definition position and stripped, with
//!   brace-wrapped arguments, in instantiation position (`GenericType`2` vs.
//!   `GenericType{System.Int32,Ns.K}`);
//! * type/method generic parameters are spelled `` `N `` / ``` ``N ```;
//! * multi-dimensional array dimensions are `[lower:size-2]`, vectors `[]`,
//!   by-ref `@`, pointers `*`, custom modifiers `!`/`|`;
//! * member names have `.`, `<`, `>` escaped to `#`, `{`, `}` so explicit
//!   interface implementations render as `N#IX{N#KVP{...}}#IXA`;
//! * conversion operators (`op_Explicit`/`op_Implicit`) append
//!   `~ReturnType`.
//!
//! Ordinary operators keep their raw metadata names
//! (`M:N.X.op_Addition(N.X,N.X)`).
//!
//! The functions are total over well-formed modules: a generic instance whose
//! element is itself an instance renders recursively, an array whose rank
//! cannot be recovered prints a single dimension, and a level that no argument
//! is left for prints empty braces.

use vstd::prelude::*;

use crate::flags::MethodAttributes;
use crate::model::module::{MethodDefinition, TypeDefinition};
use crate::model::types;
use crate::model::types::{
    EventId, ExternalType, ExternalView, FieldId, MethodId, PropertyId, TypeDesc, TypeId, TypeView,
};
use crate::model::Module;
use crate::rocks::names;
use crate::text;

verus! {

broadcast use {crate::model::types::external_views_are, crate::model::types::type_views_are};

/// One nesting level of a type's name.
#[verifier::ext_equal]
pub struct LevelView {
    pub namespace: Seq<char>,
    pub name: Seq<char>,
    /// How many generic parameters the level has.
    pub arity: nat,
}

/// The arguments of an instantiated type, as texts. Where the type is nested,
/// each level takes its own arguments from the list.
#[verifier::ext_equal]
pub struct InstanceView {
    pub nested: bool,
    pub arguments: Seq<Seq<char>>,
}

/// The smaller of two numbers.
pub open spec fn smaller(a: nat, b: nat) -> nat {
    if a < b {
        a
    } else {
        b
    }
}

/// The arguments of a level, where the levels around it have taken `index`
/// arguments.
pub open spec fn level_arguments(o: InstanceView, index: nat, arity: nat) -> Seq<Seq<char>> {
    if o.nested {
        o.arguments.subrange(
            smaller(index, o.arguments.len()) as int,
            smaller(index + arity, o.arguments.len()) as int,
        )
    } else {
        o.arguments
    }
}

/// The arguments of a level in braces, if it has generic parameters.
pub open spec fn braces_text(o: InstanceView, index: nat, arity: nat) -> Seq<char> {
    if arity > 0 {
        "{"@ + names::joined(level_arguments(o, index, arity), ","@) + "}"@
    } else {
        Seq::empty()
    }
}

/// A namespace in front of a name.
pub open spec fn qualifier(namespace: Seq<char>) -> Seq<char> {
    if namespace.len() == 0 {
        Seq::empty()
    } else {
        namespace.push('.')
    }
}

/// A level in definition position, or with its arguments.
pub open spec fn level_text(level: LevelView, o: Option<InstanceView>, index: nat) -> Seq<char> {
    qualifier(level.namespace) + match o {
        None => level.name,
        Some(o) => names::stripped(level.name) + braces_text(o, index, level.arity),
    }
}

/// How many arguments are taken behind a level.
pub open spec fn taken(level: LevelView, o: Option<InstanceView>, index: nat) -> nat {
    match o {
        Some(o) => if o.nested {
            index + level.arity
        } else {
            index
        },
        None => index,
    }
}

/// The levels of a name from the `k`-th one on, with dots between them.
pub open spec fn levels_text(
    levels: Seq<LevelView>,
    o: Option<InstanceView>,
    k: nat,
    index: nat,
) -> Seq<char>
    decreases levels.len() - k,
{
    if k >= levels.len() {
        Seq::empty()
    } else {
        level_text(levels[k as int], o, index) + (if k + 1 < levels.len() {
            "."@
        } else {
            Seq::empty()
        }) + levels_text(levels, o, k + 1, taken(levels[k as int], o, index))
    }
}

/// The level of a defined type.
pub open spec fn def_level(t: TypeDefinition) -> LevelView {
    LevelView {
        namespace: t.namespace@,
        name: t.name@,
        arity: t.generic_parameters@.len(),
    }
}

/// The levels of a defined type's name, outermost first.
pub open spec fn def_levels(m: Module, id: TypeId) -> Seq<LevelView> {
    let chain = names::chain(m, id, m.types@.len());
    Seq::new(chain.len(), |k: int| def_level(m.types@[chain[k].0 as int]))
}

/// The level of an external type.
pub open spec fn external_level(t: ExternalView) -> LevelView {
    LevelView { namespace: t.namespace, name: t.name, arity: names::arity_of(t.name) }
}

/// The levels of an external type's name, outermost first.
pub open spec fn external_levels(t: ExternalView) -> Seq<LevelView> {
    Seq::new(
        t.nesting.len() + 1,
        |k: int|
            if k < t.nesting.len() {
                external_level(t.nesting[k])
            } else {
                external_level(t)
            },
    )
}

/// The type is nested in another one.
pub open spec fn is_nested(t: TypeView, m: Module) -> bool {
    match t {
        TypeView::Def(id) => m.types@[id.0 as int].declaring_type is Some,
        TypeView::External(e) => e.nesting.len() > 0,
        _ => false,
    }
}

/// The dimension of an array.
pub open spec fn dimension_text(sizes: Seq<i32>, lobounds: Seq<i32>, k: int) -> Seq<char> {
    (if k < lobounds.len() {
        text::signed_decimal(lobounds[k] as int)
    } else {
        Seq::empty()
    }) + ":"@ + (if k < sizes.len() {
        text::signed_decimal(sizes[k] - 2)
    } else {
        Seq::empty()
    })
}

/// How many dimensions an array has: as many as it has bounds, and one at
/// least.
pub open spec fn rank(sizes: Seq<i32>, lobounds: Seq<i32>) -> nat {
    let most = if sizes.len() < lobounds.len() {
        lobounds.len()
    } else {
        sizes.len()
    };
    if most == 0 {
        1
    } else {
        most
    }
}

/// The dimensions of an array.
pub open spec fn dimensions_text(sizes: Seq<i32>, lobounds: Seq<i32>) -> Seq<char> {
    "["@ + names::joined(
        Seq::new(rank(sizes, lobounds), |k: int| dimension_text(sizes, lobounds, k)),
        ","@,
    ) + "]"@
}

/// The full name of a type: in definition position, arity suffixes preserved;
/// or that of an instance, with its arguments in braces. A container is named
/// by what it contains.
pub open spec fn full_name(t: TypeView, m: Module, o: Option<InstanceView>) -> Seq<char>
    decreases t, 1nat,
{
    match t {
        TypeView::Def(id) => levels_text(def_levels(m, id), o, 0, 0),
        TypeView::External(e) => levels_text(external_levels(e), o, 0, 0),
        TypeView::Internal(name) => name,
        TypeView::TypedByRef => "System.TypedByRef"@,
        TypeView::SzArray(inner) => full_name(*inner, m, o),
        TypeView::Ptr(inner) => full_name(*inner, m, o),
        TypeView::ByRef(inner) => full_name(*inner, m, o),
        TypeView::Pinned(inner) => full_name(*inner, m, o),
        TypeView::Array { element, .. } => full_name(*element, m, o),
        _ => signature_text(t, m),
    }
}

/// A type as a signature spells it.
pub open spec fn signature_text(t: TypeView, m: Module) -> Seq<char>
    decreases t, 0nat,
{
    match t {
        TypeView::SzArray(inner) => signature_text(*inner, m) + "[]"@,
        TypeView::Array { element, sizes, lobounds } => signature_text(*element, m)
            + dimensions_text(sizes, lobounds),
        TypeView::ByRef(inner) => signature_text(*inner, m) + "@"@,
        TypeView::Ptr(inner) => signature_text(*inner, m) + "*"@,
        TypeView::Pinned(inner) => signature_text(*inner, m),
        TypeView::GenericInstance { definition, arguments } => full_name(
            *definition,
            m,
            Some(
                InstanceView {
                    nested: is_nested(*definition, m),
                    arguments: signature_texts(arguments, m, arguments.len()),
                },
            ),
        ),
        TypeView::Var(n) => "`"@ + text::decimal(n as nat),
        TypeView::MVar(n) => "``"@ + text::decimal(n as nat),
        TypeView::FnPtr(s) => "=FUNC:"@ + full_name(s.return_type, m, None) + (
        if s.parameters.len() > 0 {
            "("@ + names::joined(
                signature_texts(s.parameters, m, s.parameters.len()),
                ","@,
            ) + ")"@
        } else {
            Seq::empty()
        }),
        TypeView::CMod { required, modifier, unmodified } => signature_text(*unmodified, m) + (
        if required {
            "|"@
        } else {
            "!"@
        }) + signature_text(*modifier, m),
        TypeView::Internal(name) => name,
        TypeView::TypedByRef => "System.TypedByRef"@,
        TypeView::Sentinel => Seq::empty(),
        TypeView::Def(id) => levels_text(def_levels(m, id), None, 0, 0),
        TypeView::External(e) => levels_text(external_levels(e), None, 0, 0),
    }
}

/// The first `n` types as signatures spell them.
pub open spec fn signature_texts(types: Seq<TypeView>, m: Module, n: nat) -> Seq<Seq<char>>
    decreases types, n,
{
    if n == 0 || n > types.len() {
        Seq::empty()
    } else {
        signature_texts(types, m, (n - 1) as nat).push(signature_text(types[n - 1], m))
    }
}

/// The types of parameters, in brackets.
pub open spec fn parameters_text(types: Seq<TypeView>, m: Module) -> Seq<char> {
    "("@ + names::joined(signature_texts(types, m, types.len()), ","@) + ")"@
}

/// Every defined type that a type mentions is one of the module.
pub open spec fn defined(t: TypeView, m: Module) -> bool
    decreases t, 0nat,
{
    match t {
        TypeView::Def(id) => id.0 < m.types@.len(),
        TypeView::SzArray(inner) => defined(*inner, m),
        TypeView::Ptr(inner) => defined(*inner, m),
        TypeView::ByRef(inner) => defined(*inner, m),
        TypeView::Pinned(inner) => defined(*inner, m),
        TypeView::Array { element, .. } => defined(*element, m),
        TypeView::GenericInstance { definition, arguments } => defined(*definition, m)
            && all_defined(arguments, m, arguments.len()),
        TypeView::FnPtr(s) => defined(s.return_type, m) && all_defined(
            s.parameters,
            m,
            s.parameters.len(),
        ),
        TypeView::CMod { modifier, unmodified, .. } => defined(*modifier, m) && defined(
            *unmodified,
            m,
        ),
        _ => true,
    }
}

/// Every defined type that the first `n` types mention is one of the module.
pub open spec fn all_defined(types: Seq<TypeView>, m: Module, n: nat) -> bool
    decreases types, n,
{
    n == 0 || n > types.len() || (all_defined(types, m, (n - 1) as nat) && defined(
        types[n - 1],
        m,
    ))
}

/// The first types are spelled one by one, whatever the others are.
proof fn texts_are(types: Seq<TypeView>, m: Module, n: nat)
    requires
        n <= types.len(),
    ensures
        signature_texts(types, m, n).len() == n,
        forall|k: int|
            0 <= k < n ==> signature_texts(types, m, n)[k] == signature_text(types[k], m),
    decreases n,
{
    if n > 0 {
        texts_are(types, m, (n - 1) as nat);
    }
}

/// Each of some defined types is defined.
pub(crate) proof fn each_defined(types: Seq<TypeView>, m: Module, n: nat, k: int)
    requires
        0 <= k < n <= types.len(),
        all_defined(types, m, n),
    ensures
        defined(types[k], m),
    decreases n,
{
    if k < n - 1 {
        each_defined(types, m, (n - 1) as nat, k);
    }
}

/// The arguments of an instantiated type, spelled out.
struct Instance {
    nested: bool,
    arguments: Vec<String>,
}

spec fn instance_view(o: Option<Instance>) -> Option<InstanceView> {
    match o {
        Some(o) => Some(
            InstanceView { nested: o.nested, arguments: names::text_views(o.arguments@) },
        ),
        None => None,
    }
}

/// Writes the arguments of a level and gives how many are taken behind it, as
/// far as there are any.
fn write_arguments(
    out: &mut String,
    arity: usize,
    o: &Instance,
    index: usize,
    Ghost(exact): Ghost<nat>,
) -> (next: usize)
    requires
        index == smaller(exact, o.arguments@.len()),
    ensures
        final(out)@ == old(out)@ + braces_text(
            (InstanceView { nested: o.nested, arguments: names::text_views(o.arguments@) }),
            exact,
            arity as nat,
        ),
        next == if o.nested {
            smaller(exact + arity as nat, o.arguments@.len())
        } else {
            index as nat
        },
{
    let count: usize = o.arguments.len();
    let next: usize = if o.nested {
        if arity > count - index {
            count
        } else {
            index + arity
        }
    } else {
        index
    };
    if arity == 0 {
        proof {
            assert(out@ =~= old(out)@ + Seq::empty());
        }
        return next;
    }
    let ghost all = names::text_views(o.arguments@);
    let (from, to): (usize, usize) = if o.nested {
        (index, next)
    } else {
        (0, count)
    };
    let ghost part = all.subrange(from as int, to as int);
    proof {
        let view = InstanceView { nested: o.nested, arguments: all };
        if !o.nested {
            assert(part =~= all);
        }
        assert(part == level_arguments(view, exact, arity as nat));
    }
    text::push_text(out, "{");
    names::push_joined(out, &o.arguments, from, to);
    text::push_text(out, "}");
    proof {
        assert(out@ =~= old(out)@ + ("{"@ + names::joined(part, ","@) + "}"@));
    }
    next
}

pub(crate) fn push_qualifier(out: &mut String, namespace: &str)
    ensures
        final(out)@ == old(out)@ + qualifier(namespace@),
{
    if namespace.unicode_len() > 0 {
        text::push_text(out, namespace);
        text::push_char(out, '.');
    }
    proof {
        assert(out@ =~= old(out)@ + qualifier(namespace@));
    }
}

/// Writes one nesting level and gives how many arguments are taken behind it,
/// as far as there are any.
fn write_level(
    out: &mut String,
    namespace: &str,
    name: &str,
    arity: usize,
    o: &Option<Instance>,
    index: usize,
    Ghost(exact): Ghost<nat>,
) -> (next: usize)
    requires
        match *o {
            Some(o) => index == smaller(exact, o.arguments@.len()),
            None => true,
        },
    ensures
        final(out)@ == old(out)@ + level_text(
            (LevelView { namespace: namespace@, name: name@, arity: arity as nat }),
            instance_view(*o),
            exact,
        ),
        match *o {
            Some(o) => next == smaller(
                taken(
                    (LevelView { namespace: namespace@, name: name@, arity: arity as nat }),
                    instance_view(Some(o)),
                    exact,
                ),
                o.arguments@.len(),
            ),
            None => true,
        },
{
    let ghost level = LevelView { namespace: namespace@, name: name@, arity: arity as nat };
    push_qualifier(out, namespace);
    match o {
        None => {
            text::push_text(out, name);
            proof {
                assert(out@ =~= old(out)@ + level_text(level, None, exact));
            }
            index
        },
        Some(o) => {
            names::push_stripped(out, name);
            let next: usize = write_arguments(out, arity, o, index, Ghost(exact));
            proof {
                assert(out@ =~= old(out)@ + level_text(level, instance_view(Some(*o)), exact));
            }
            next
        },
    }
}

fn write_def_levels(out: &mut String, id: TypeId, m: &Module, o: &Option<Instance>)
    requires
        names::declaring_ends(*m),
        id.0 < m.types@.len(),
    ensures
        final(out)@ == old(out)@ + levels_text(def_levels(*m, id), instance_view(*o), 0, 0),
{
    let chain = names::def_chain(id, m);
    let ghost levels = def_levels(*m, id);
    let ghost view = instance_view(*o);
    let ghost start = out@;
    let ghost whole = levels_text(levels, view, 0, 0);
    let n: usize = chain.len();
    let mut index: usize = 0;
    let mut i: usize = 0;
    let ghost mut exact: nat = 0;
    proof {
        assert(start + whole =~= out@ + levels_text(levels, view, 0, 0));
    }
    while i < n
        invariant
            i <= n,
            n == chain@.len(),
            chain@ == names::chain(*m, id, m.types@.len()),
            levels == def_levels(*m, id),
            levels.len() == n,
            view == instance_view(*o),
            forall|k: int| 0 <= k < n ==> (#[trigger] chain@[k]).0 < m.types@.len(),
            match *o {
                Some(o) => index == smaller(exact, o.arguments@.len()),
                None => true,
            },
            start + whole == out@ + levels_text(levels, view, i as nat, exact),
        decreases n - i,
    {
        let ghost before = out@;
        let t = &m.types[chain[i].index()];
        proof {
            assert(levels[i as int] == def_level(*t));
        }
        index = write_level(
            out,
            t.namespace.as_str(),
            t.name.as_str(),
            t.generic_parameters.len(),
            o,
            index,
            Ghost(exact),
        );
        if i + 1 < n {
            text::push_text(out, ".");
        }
        proof {
            let rest = levels_text(
                levels,
                view,
                (i + 1) as nat,
                taken(levels[i as int], view, exact),
            );
            exact = taken(levels[i as int], view, exact);
            assert(start + whole =~= out@ + rest);
        }
        i += 1;
    }
    proof {
        assert(out@ =~= start + whole);
    }
}

fn write_external_levels(out: &mut String, ext: &ExternalType, m: &Module, o: &Option<Instance>)
    ensures
        final(out)@ == old(out)@ + levels_text(
            external_levels(types::external_view(*ext)),
            instance_view(*o),
            0,
            0,
        ),
{
    let ghost levels = external_levels(types::external_view(*ext));
    proof {
        types::external_views_are(ext.nesting@, ext.nesting@.len());
        assert(types::external_view(*ext).nesting == types::external_views(
            ext.nesting@,
            ext.nesting@.len(),
        ));
    }
    let ghost view = instance_view(*o);
    let ghost start = out@;
    let ghost whole = levels_text(levels, view, 0, 0);
    let n: usize = ext.nesting.len();
    let mut index: usize = 0;
    let mut i: usize = 0;
    let ghost mut exact: nat = 0;
    proof {
        assert(start + whole =~= out@ + levels_text(levels, view, 0, 0));
    }
    while i < n
        invariant
            i <= n,
            n == ext.nesting@.len(),
            levels == external_levels(types::external_view(*ext)),
            levels.len() == n + 1,
            types::external_view(*ext).nesting == types::external_views(
                ext.nesting@,
                ext.nesting@.len(),
            ),
            view == instance_view(*o),
            match *o {
                Some(o) => index == smaller(exact, o.arguments@.len()),
                None => true,
            },
            start + whole == out@ + levels_text(levels, view, i as nat, exact),
        decreases n - i,
    {
        let t = &ext.nesting[i];
        proof {
            assert(levels[i as int] == external_level(types::external_view(*t)));
        }
        let arity: usize = names::arity_from_name(t.name.as_str());
        index = write_level(
            out,
            t.namespace.as_str(),
            t.name.as_str(),
            arity,
            o,
            index,
            Ghost(exact),
        );
        text::push_text(out, ".");
        proof {
            let rest = levels_text(
                levels,
                view,
                (i + 1) as nat,
                taken(levels[i as int], view, exact),
            );
            exact = taken(levels[i as int], view, exact);
            assert(start + whole =~= out@ + rest);
        }
        i += 1;
    }
    let arity: usize = names::arity_from_name(ext.name.as_str());
    proof {
        assert(levels[n as int] == external_level(types::external_view(*ext)));
    }
    write_level(out, ext.namespace.as_str(), ext.name.as_str(), arity, o, index, Ghost(exact));
    proof {
        assert(levels_text(
            levels,
            view,
            (n + 1) as nat,
            taken(levels[n as int], view, exact),
        ) =~= Seq::empty());
        assert(out@ =~= start + whole);
    }
}

fn push_dimension(out: &mut String, sizes: &Vec<i32>, lobounds: &Vec<i32>, k: usize)
    ensures
        final(out)@ == old(out)@ + dimension_text(sizes@, lobounds@, k as int),
{
    if k < lobounds.len() {
        text::push_signed(out, lobounds[k] as i128);
    }
    text::push_text(out, ":");
    if k < sizes.len() {
        text::push_signed(out, sizes[k] as i128 - 2);
    }
    proof {
        assert(out@ =~= old(out)@ + dimension_text(sizes@, lobounds@, k as int));
    }
}

fn write_array_dimensions(out: &mut String, sizes: &Vec<i32>, lobounds: &Vec<i32>)
    ensures
        final(out)@ == old(out)@ + dimensions_text(sizes@, lobounds@),
{
    let most: usize = if sizes.len() < lobounds.len() {
        lobounds.len()
    } else {
        sizes.len()
    };
    let n: usize = if most == 0 {
        1
    } else {
        most
    };
    let ghost texts = Seq::new(
        rank(sizes@, lobounds@),
        |k: int| dimension_text(sizes@, lobounds@, k),
    );
    text::push_text(out, "[");
    let ghost start = out@;
    let mut i: usize = 0;
    proof {
        names::joined_more(texts, ","@, 0);
        assert(out@ =~= start + names::joined(texts.take(0), ","@));
    }
    while i < n
        invariant
            i <= n,
            n == rank(sizes@, lobounds@),
            texts == Seq::new(
                rank(sizes@, lobounds@),
                |k: int| dimension_text(sizes@, lobounds@, k),
            ),
            out@ == start + names::joined(texts.take(i as int), ","@),
        decreases n - i,
    {
        proof {
            names::joined_more(texts, ","@, i as int);
        }
        if i > 0 {
            text::push_text(out, ",");
        }
        push_dimension(out, sizes, lobounds, i);
        proof {
            assert(out@ =~= start + names::joined(texts.take(i + 1), ","@));
        }
        i += 1;
    }
    text::push_text(out, "]");
    proof {
        assert(texts.take(n as int) =~= texts);
        assert(out@ =~= old(out)@ + dimensions_text(sizes@, lobounds@));
    }
}

fn nested_in_another(t: &TypeDesc, m: &Module) -> (b: bool)
    requires
        defined(types::type_view(*t), *m),
    ensures
        b == is_nested(types::type_view(*t), *m),
{
    match t {
        TypeDesc::Def(id) => m.types[id.index()].declaring_type.is_some(),
        TypeDesc::External(ext) => ext.nesting.len() > 0,
        _ => false,
    }
}

/// Spells out the types of a list.
fn spell_types(list: &Vec<TypeDesc>, m: &Module) -> (texts: Vec<String>)
    requires
        names::declaring_ends(*m),
        all_defined(types::type_views(list@, list@.len()), *m, list@.len()),
    ensures
        names::text_views(texts@) == signature_texts(
            types::type_views(list@, list@.len()),
            *m,
            list@.len(),
        ),
    decreases list@, 2nat,
{
    let ghost views = types::type_views(list@, list@.len());
    let n: usize = list.len();
    let mut texts: Vec<String> = Vec::new();
    let mut i: usize = 0;
    while i < n
        invariant
            i <= n,
            n == list@.len(),
            names::declaring_ends(*m),
            views == types::type_views(list@, list@.len()),
            views.len() == n,
            all_defined(views, *m, n as nat),
            texts@.len() == i,
            forall|k: int| 0 <= k < i ==> (#[trigger] texts@[k])@ == signature_text(views[k], *m),
        decreases n - i,
    {
        proof {
            each_defined(views, *m, n as nat, i as int);
            assert(views[i as int] == types::type_view(list@[i as int]));
        }
        let mut one: String = String::new();
        write_type_signature(&mut one, &list[i], m);
        proof {
            assert(one@ =~= signature_text(views[i as int], *m));
        }
        texts.push(one);
        i += 1;
    }
    proof {
        texts_are(views, *m, n as nat);
        assert(names::text_views(texts@) =~= signature_texts(views, *m, n as nat));
    }
    texts
}

/// Writes `(type,type,...)` over parameter types.
fn write_parameter_types(out: &mut String, list: &Vec<TypeDesc>, m: &Module)
    requires
        names::declaring_ends(*m),
        all_defined(types::type_views(list@, list@.len()), *m, list@.len()),
    ensures
        final(out)@ == old(out)@ + parameters_text(types::type_views(list@, list@.len()), *m),
    decreases list@, 3nat,
{
    let texts = spell_types(list, m);
    text::push_text(out, "(");
    names::push_joined(out, &texts, 0, texts.len());
    text::push_text(out, ")");
    proof {
        let all = names::text_views(texts@);
        assert(all.subrange(0, all.len() as int) =~= all);
        assert(out@ =~= old(out)@ + parameters_text(
            types::type_views(list@, list@.len()),
            *m,
        ));
    }
}

/// Writes the full name of a type: declaring chain outermost-first, namespace
/// on every level that has one, arity stripped in argument position, then the
/// generic argument braces when applicable.
fn write_type_full_name(out: &mut String, ty: &TypeDesc, m: &Module, o: &Option<Instance>)
    requires
        names::declaring_ends(*m),
        defined(types::type_view(*ty), *m),
    ensures
        final(out)@ == old(out)@ + full_name(types::type_view(*ty), *m, instance_view(*o)),
    decreases *ty, 1nat,
{
    match ty {
        TypeDesc::Def(id) => write_def_levels(out, *id, m, o),
        TypeDesc::External(ext) => write_external_levels(out, ext, m, o),
        TypeDesc::Internal(name) => text::push_text(out, name.as_str()),
        TypeDesc::TypedByRef => text::push_text(out, "System.TypedByRef"),
        TypeDesc::SzArray(inner) => write_type_full_name(out, inner, m, o),
        TypeDesc::Ptr(inner) => write_type_full_name(out, inner, m, o),
        TypeDesc::ByRef(inner) => write_type_full_name(out, inner, m, o),
        TypeDesc::Pinned(inner) => write_type_full_name(out, inner, m, o),
        TypeDesc::Array { element, .. } => write_type_full_name(out, element, m, o),
        _ => write_type_signature(out, ty, m),
    }
}

/// Writes a type as a signature spells it.
fn write_type_signature(out: &mut String, ty: &TypeDesc, m: &Module)
    requires
        names::declaring_ends(*m),
        defined(types::type_view(*ty), *m),
    ensures
        final(out)@ == old(out)@ + signature_text(types::type_view(*ty), *m),
    decreases *ty, 0nat,
{
    let ghost start = out@;
    match ty {
        TypeDesc::SzArray(inner) => {
            write_type_signature(out, inner, m);
            text::push_text(out, "[]");
        },
        TypeDesc::Array { element, sizes, lobounds } => {
            write_type_signature(out, element, m);
            write_array_dimensions(out, sizes, lobounds);
        },
        TypeDesc::ByRef(inner) => {
            write_type_signature(out, inner, m);
            text::push_text(out, "@");
        },
        TypeDesc::Ptr(inner) => {
            write_type_signature(out, inner, m);
            text::push_text(out, "*");
        },
        TypeDesc::Pinned(inner) => {
            write_type_signature(out, inner, m);
        },
        TypeDesc::GenericInstance { definition, arguments } => {
            let nested: bool = nested_in_another(definition, m);
            let texts = spell_types(arguments, m);
            write_type_full_name(
                out,
                definition,
                m,
                &Some(Instance { nested, arguments: texts }),
            );
        },
        TypeDesc::Var(n) => {
            text::push_text(out, "`");
            text::push_decimal(out, *n as u64);
        },
        TypeDesc::MVar(n) => {
            text::push_text(out, "``");
            text::push_decimal(out, *n as u64);
        },
        TypeDesc::FnPtr(s) => {
            proof {
                let view = types::signature_view(**s);
                assert(types::type_view(*ty) == TypeView::FnPtr(Box::new(view)));
                assert(view.return_type == types::type_view(s.return_type));
                assert(view.parameters == types::type_views(
                    s.parameters@,
                    s.parameters@.len(),
                ));
            }
            text::push_text(out, "=FUNC:");
            write_type_full_name(out, &s.return_type, m, &None);
            if s.parameters.len() > 0 {
                write_parameter_types(out, &s.parameters, m);
            }
        },
        TypeDesc::CMod { required, modifier, unmodified } => {
            write_type_signature(out, unmodified, m);
            if *required {
                text::push_text(out, "|");
            } else {
                text::push_text(out, "!");
            }
            write_type_signature(out, modifier, m);
        },
        TypeDesc::Internal(name) => {
            text::push_text(out, name.as_str());
        },
        TypeDesc::TypedByRef => {
            text::push_text(out, "System.TypedByRef");
        },
        TypeDesc::Sentinel => {},
        TypeDesc::Def(id) => {
            write_def_levels(out, *id, m, &None);
        },
        TypeDesc::External(ext) => {
            write_external_levels(out, ext, m, &None);
        },
    }
    proof {
        assert(out@ =~= start + signature_text(types::type_view(*ty), *m));
    }
}

/// A character of a member name as ids spell it.
pub open spec fn escaped_char(c: char) -> char {
    if c == '.' {
        '#'
    } else if c == '<' {
        '{'
    } else if c == '>' {
        '}'
    } else {
        c
    }
}

/// A member name as ids spell it: `.`, `<`, `>` become `#`, `{`, `}`.
pub open spec fn escaped(name: Seq<char>) -> Seq<char> {
    Seq::new(name.len(), |k: int| escaped_char(name[k]))
}

fn write_item_name(out: &mut String, name: &str)
    ensures
        final(out)@ == old(out)@ + escaped(name@),
{
    let chars = text::chars_of(name);
    let n: usize = chars.len();
    let mut i: usize = 0;
    proof {
        assert(out@ =~= old(out)@ + escaped(name@).take(0));
    }
    while i < n
        invariant
            i <= n,
            n == chars@.len(),
            chars@ == name@,
            out@ == old(out)@ + escaped(name@).take(i as int),
        decreases n - i,
    {
        let c: char = match chars[i] {
            '.' => '#',
            '<' => '{',
            '>' => '}',
            other => other,
        };
        text::push_char(out, c);
        proof {
            assert(out@ =~= old(out)@ + escaped(name@).take(i + 1));
        }
        i += 1;
    }
    proof {
        assert(escaped(name@).take(n as int) =~= escaped(name@));
    }
}

/// The id of a member: its kind, the full name of the type that it belongs to
/// and its escaped name.
pub open spec fn member_text(kind: char, owner: TypeId, name: Seq<char>, m: Module) -> Seq<char> {
    seq![kind, ':'] + full_name(TypeView::Def(owner), m, None) + "."@ + escaped(name)
}

fn write_definition(out: &mut String, kind: char, declaring: TypeId, name: &str, m: &Module)
    requires
        names::declaring_ends(*m),
        declaring.0 < m.types@.len(),
    ensures
        final(out)@ == old(out)@ + member_text(kind, declaring, name@, *m),
{
    text::push_char(out, kind);
    text::push_char(out, ':');
    write_def_levels(out, declaring, m, &None);
    text::push_text(out, ".");
    write_item_name(out, name);
    proof {
        assert(out@ =~= old(out)@ + member_text(kind, declaring, name@, *m));
    }
}

/// Documentation id of a type (`T:Ns.Foo`2`). Only [`TypeDesc::Def`] /
/// [`TypeDesc::External`] carry identity; other shapes render like signature
/// spellings through the shared writer.
pub fn type_doc_id(ty: &TypeDesc, m: &Module) -> (s: String)
    requires
        names::declaring_ends(*m),
        defined(ty@, *m),
    ensures
        s@ == "T:"@ + full_name(ty@, *m, None),
{
    let mut out: String = String::new();
    text::push_text(&mut out, "T:");
    write_type_full_name(&mut out, ty, m, &None);
    proof {
        assert(out@ =~= "T:"@ + full_name(ty@, *m, None));
    }
    out
}

/// A special-name `op_Explicit` / `op_Implicit`.
pub open spec fn is_conversion(d: MethodDefinition) -> bool {
    d.attributes.0 & MethodAttributes::SPECIAL_NAME == MethodAttributes::SPECIAL_NAME && (d.name@
        == "op_Explicit"@ || d.name@ == "op_Implicit"@)
}

fn is_conversion_operator(d: &MethodDefinition) -> (b: bool)
    ensures
        b == is_conversion(*d),
{
    d.attributes.contains(MethodAttributes::SPECIAL_NAME) && (text::same(
        d.name.as_str(),
        "op_Explicit",
    ) || text::same(d.name.as_str(), "op_Implicit"))
}

/// The id of a method: its member id, how many generic parameters it has, the
/// types of its parameters, and of a conversion operator what it returns.
pub open spec fn method_text(d: MethodDefinition, m: Module) -> Seq<char> {
    let signature = types::signature_view(d.signature);
    member_text('M', d.declaring_type, d.name@, m) + (if d.generic_parameters@.len() > 0 {
        "``"@ + text::decimal(d.generic_parameters@.len())
    } else {
        Seq::empty()
    }) + (if signature.parameters.len() > 0 {
        parameters_text(signature.parameters, m)
    } else {
        Seq::empty()
    }) + (if is_conversion(d) {
        "~"@ + full_name(signature.return_type, m, None)
    } else {
        Seq::empty()
    })
}

/// The types that the id of a method mentions are types of the module.
pub open spec fn method_defined(d: MethodDefinition, m: Module) -> bool {
    let signature = types::signature_view(d.signature);
    &&& d.declaring_type.0 < m.types@.len()
    &&& all_defined(signature.parameters, m, signature.parameters.len())
    &&& is_conversion(d) ==> defined(signature.return_type, m)
}

/// Documentation id of a method:
/// `M:Ns.Type.Name``1(ParamTypes)~ReturnType?`.
pub fn method_doc_id(meth: MethodId, m: &Module) -> (s: String)
    requires
        names::declaring_ends(*m),
        meth.0 < m.methods@.len(),
        method_defined(m.methods@[meth.0 as int], *m),
    ensures
        s@ == method_text(m.methods@[meth.0 as int], *m),
{
    let d = &m.methods[meth.index()];
    let mut out: String = String::new();
    proof {
        let view = types::signature_view(d.signature);
        assert(view.return_type == types::type_view(d.signature.return_type));
        assert(view.parameters == types::type_views(
            d.signature.parameters@,
            d.signature.parameters@.len(),
        ));
    }
    write_definition(&mut out, 'M', d.declaring_type, d.name.as_str(), m);
    let generic: usize = d.generic_parameters.len();
    if generic > 0 {
        text::push_text(&mut out, "``");
        text::push_decimal(&mut out, generic as u64);
    }
    if d.signature.parameters.len() > 0 {
        write_parameter_types(&mut out, &d.signature.parameters, m);
    }
    if is_conversion_operator(d) {
        text::push_text(&mut out, "~");
        write_type_full_name(&mut out, &d.signature.return_type, m, &None);
    }
    proof {
        assert(out@ =~= method_text(*d, *m));
    }
    out
}

/// A member that knows nothing of the type that it belongs to.
#[derive(Clone, Copy)]
pub enum Member {
    Field(FieldId),
    Property(PropertyId),
    Event(EventId),
}

/// The type lists the member.
pub open spec fn owns(t: TypeDefinition, member: Member) -> bool {
    match member {
        Member::Field(id) => t.fields@.contains(id),
        Member::Property(id) => t.properties@.contains(id),
        Member::Event(id) => t.events@.contains(id),
    }
}

/// The first type that lists the member, from the `i`-th one on.
pub open spec fn owner_from(m: Module, member: Member, i: int) -> Option<int>
    decreases m.types@.len() - i,
{
    if i < 0 || i >= m.types@.len() {
        None
    } else if owns(m.types@[i], member) {
        Some(i)
    } else {
        owner_from(m, member, i + 1)
    }
}

fn lists(t: &TypeDefinition, member: Member) -> (b: bool)
    ensures
        b == owns(*t, member),
{
    let n: usize = match member {
        Member::Field(_) => t.fields.len(),
        Member::Property(_) => t.properties.len(),
        Member::Event(_) => t.events.len(),
    };
    let mut i: usize = 0;
    while i < n
        invariant
            i <= n,
            match member {
                Member::Field(id) => n == t.fields@.len() && forall|k: int|
                    0 <= k < i ==> t.fields@[k] != id,
                Member::Property(id) => n == t.properties@.len() && forall|k: int|
                    0 <= k < i ==> t.properties@[k] != id,
                Member::Event(id) => n == t.events@.len() && forall|k: int|
                    0 <= k < i ==> t.events@[k] != id,
            },
        decreases n - i,
    {
        let found: bool = match member {
            Member::Field(id) => t.fields[i].0 == id.0,
            Member::Property(id) => t.properties[i].0 == id.0,
            Member::Event(id) => t.events[i].0 == id.0,
        };
        if found {
            return true;
        }
        i += 1;
    }
    false
}

/// Finds the arena owner of a field/property/event by scanning the type
/// arena in row order (these definitions carry no back-pointer).
fn find_owner(m: &Module, member: Member) -> (r: Option<TypeId>)
    requires
        m.types@.len() <= u32::MAX,
    ensures
        match owner_from(*m, member, 0) {
            Some(k) => r is Some && r->Some_0.0 == k && 0 <= k < m.types@.len(),
            None => r is None,
        },
{
    let n: usize = m.types.len();
    let mut i: usize = 0;
    while i < n
        invariant
            i <= n,
            n == m.types@.len(),
            n <= u32::MAX,
            owner_from(*m, member, 0) == owner_from(*m, member, i as int),
        decreases n - i,
    {
        if lists(&m.types[i], member) {
            return Some(TypeId(i as u32));
        }
        i += 1;
    }
    None
}

/// The id of a member that is found by the type that lists it; of one that no
/// type lists, its kind and its name.
pub open spec fn owned_text(kind: char, member: Member, name: Seq<char>, m: Module) -> Seq<char> {
    match owner_from(m, member, 0) {
        Some(k) => member_text(kind, TypeId(k as u32), name, m),
        None => seq![kind, ':'] + escaped(name),
    }
}

fn owned_id(kind: char, member: Member, name: &str, m: &Module) -> (s: String)
    requires
        names::declaring_ends(*m),
        m.types@.len() <= u32::MAX,
    ensures
        s@ == owned_text(kind, member, name@, *m),
{
    let mut out: String = String::new();
    match find_owner(m, member) {
        Some(owner) => {
            write_definition(&mut out, kind, owner, name, m);
        },
        None => {
            text::push_char(&mut out, kind);
            text::push_char(&mut out, ':');
            write_item_name(&mut out, name);
        },
    }
    proof {
        assert(out@ =~= owned_text(kind, member, name@, *m));
    }
    out
}

/// Documentation id of a field: `F:Ns.Type.Name`.
pub fn field_doc_id(field: FieldId, m: &Module) -> (s: String)
    requires
        names::declaring_ends(*m),
        m.types@.len() <= u32::MAX,
        field.0 < m.fields@.len(),
    ensures
        s@ == owned_text('F', Member::Field(field), m.fields@[field.0 as int].name@, *m),
{
    owned_id('F', Member::Field(field), m.fields[field.0 as usize].name.as_str(), m)
}

/// Documentation id of a property: `P:Ns.Type.Name(IndexerParamTypes)`.
pub fn property_doc_id(prop: PropertyId, m: &Module) -> (s: String)
    requires
        names::declaring_ends(*m),
        m.types@.len() <= u32::MAX,
        prop.0 < m.properties@.len(),
        ({
            let list = m.properties@[prop.0 as int].signature.parameters@;
            all_defined(types::type_views(list, list.len()), *m, list.len())
        }),
    ensures
        s@ == owned_text(
            'P',
            Member::Property(prop),
            m.properties@[prop.0 as int].name@,
            *m,
        ) + ({
            let list = m.properties@[prop.0 as int].signature.parameters@;
            if list.len() > 0 {
                parameters_text(types::type_views(list, list.len()), *m)
            } else {
                Seq::empty()
            }
        }),
{
    let d = &m.properties[prop.0 as usize];
    let mut out: String = owned_id('P', Member::Property(prop), d.name.as_str(), m);
    if d.signature.parameters.len() > 0 {
        write_parameter_types(&mut out, &d.signature.parameters, m);
    }
    out
}

/// Documentation id of an event: `E:Ns.Type.Name`.
pub fn event_doc_id(ev: EventId, m: &Module) -> (s: String)
    requires
        names::declaring_ends(*m),
        m.types@.len() <= u32::MAX,
        ev.0 < m.events@.len(),
    ensures
        s@ == owned_text('E', Member::Event(ev), m.events@[ev.0 as int].name@, *m),
{
    owned_id('E', Member::Event(ev), m.events[ev.0 as usize].name.as_str(), m)
}

/// An id has no dot, `<` or `>` of the member's own name in it.
pub proof fn escaped_names_have_no_dots(name: Seq<char>, k: int)
    requires
        0 <= k < name.len(),
    ensures
        escaped(name)[k] != '.',
        escaped(name)[k] != '<',
        escaped(name)[k] != '>',
{
}

/// In definition position a nested type is its declaring type's name, a dot
/// and its own name.
pub proof fn nested_names_are_joined(m: Module, outer: TypeId, inner: TypeId)
    requires
        names::declaring_ends(m),
        outer.0 < m.types@.len(),
        inner.0 < m.types@.len(),
        m.types@[inner.0 as int].declaring_type == Some(outer),
    ensures
        full_name(TypeView::Def(inner), m, None) == full_name(TypeView::Def(outer), m, None)
            + "."@ + level_text(def_level(m.types@[inner.0 as int]), None, 0),
{
    let n = m.types@.len();
    assert(names::chain_ends(m, inner, n));
    assert(names::chain_ends(m, outer, n));
    names::chain_in_range(m, outer, (n - 1) as nat);
    names::chain_settles(m, outer, (n - 1) as nat, n);
    let below = def_levels(m, outer);
    let all = def_levels(m, inner);
    assert(all =~= below.push(def_level(m.types@[inner.0 as int])));
    last_level(below, def_level(m.types@[inner.0 as int]), 0);
}

proof fn last_level(levels: Seq<LevelView>, last: LevelView, k: nat)
    requires
        k < levels.len(),
    ensures
        levels_text(levels.push(last), None, k, 0) == levels_text(levels, None, k, 0) + "."@
            + level_text(last, None, 0),
    decreases levels.len() - k,
{
    let all = levels.push(last);
    assert(all[k as int] == levels[k as int]);
    if k + 1 < levels.len() {
        last_level(levels, last, k + 1);
        assert(levels_text(all, None, k, 0) =~= levels_text(levels, None, k, 0) + "."@
            + level_text(last, None, 0));
    } else {
        assert(levels_text(levels, None, k + 1, 0) =~= Seq::empty());
        assert(levels_text(all, None, k + 2, 0) =~= Seq::empty());
        assert(all[(k + 1) as int] == last);
        assert(levels_text(all, None, k + 1, 0) =~= level_text(last, None, 0));
        assert(levels_text(all, None, k, 0) =~= levels_text(levels, None, k, 0) + "."@
            + level_text(last, None, 0));
    }
}

} // verus!
