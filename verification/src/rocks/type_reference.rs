//! Factories, resolution and names of type descriptors.

use vstd::prelude::*;

use crate::error::{Error, ErrorKind};
use crate::model::types;
use crate::model::types::{
    ExternalType, ExternalView, ScopeRef, ScopeView, TypeDesc, TypeId, TypeView,
};
use crate::model::Module;
use crate::rocks::doccomment;
use crate::rocks::names;
use crate::text;

verus! {

broadcast use {crate::model::types::external_views_are, crate::model::types::type_views_are};

/// The defined type that a descriptor comes down to.
pub open spec fn resolved(t: TypeView) -> Option<TypeId>
    decreases t,
{
    match t {
        TypeView::Def(id) => Some(id),
        TypeView::SzArray(e) => resolved(*e),
        TypeView::Ptr(e) => resolved(*e),
        TypeView::ByRef(e) => resolved(*e),
        TypeView::Pinned(e) => resolved(*e),
        TypeView::Array { element, .. } => resolved(*element),
        TypeView::GenericInstance { definition, .. } => resolved(*definition),
        TypeView::CMod { unmodified, .. } => resolved(*unmodified),
        _ => None,
    }
}

/// The names of a chain of defined types.
pub open spec fn chain_names(m: Module, chain: Seq<TypeId>) -> Seq<Seq<char>> {
    Seq::new(chain.len(), |k: int| m.types@[chain[k].0 as int].name@)
}

/// The full name of a defined type: the namespace of its outermost declaring
/// type, and the names joined with slashes.
pub open spec fn def_name(m: Module, id: TypeId) -> Seq<char> {
    let chain = names::chain(m, id, m.types@.len());
    doccomment::qualifier(m.types@[chain[0].0 as int].namespace@) + names::joined(
        chain_names(m, chain),
        "/"@,
    )
}

/// The name of the scope of an external type.
pub open spec fn scope_name(s: ScopeView, m: Module) -> Seq<char> {
    match s {
        ScopeView::Assembly(name) => name,
        ScopeView::OtherModule(name) => name,
        ScopeView::ThisModule => m.name@,
        ScopeView::Moduleless => Seq::empty(),
    }
}

/// The name of a scope in front of a type's name.
pub open spec fn scope_prefix(scope: Seq<char>) -> Seq<char> {
    if scope.len() == 0 {
        Seq::empty()
    } else {
        "["@ + scope + "]"@
    }
}

/// The names of an external type and of the types around it.
pub open spec fn external_names(t: ExternalView) -> Seq<Seq<char>> {
    Seq::new(
        t.nesting.len() + 1,
        |k: int|
            if k < t.nesting.len() {
                t.nesting[k].name
            } else {
                t.name
            },
    )
}

/// The namespace of the outermost of the types around an external type.
pub open spec fn outer_namespace(t: ExternalView) -> Seq<char> {
    if t.nesting.len() > 0 {
        t.nesting[0].namespace
    } else {
        t.namespace
    }
}

/// The full name of an external type, behind its scope in brackets.
pub open spec fn external_name(t: ExternalView, m: Module) -> Seq<char> {
    scope_prefix(scope_name(t.scope, m)) + doccomment::qualifier(outer_namespace(t))
        + names::joined(external_names(t), "/"@)
}

/// The bound of an array dimension, if it has one.
pub open spec fn bound_text(lobounds: Seq<i32>, k: int) -> Seq<char> {
    if k < lobounds.len() {
        text::signed_decimal(lobounds[k] as int) + ".."@
    } else {
        Seq::empty()
    }
}

/// The bounds of an array.
pub open spec fn bounds_texts(sizes: Seq<i32>, lobounds: Seq<i32>) -> Seq<Seq<char>> {
    Seq::new(
        if sizes.len() < lobounds.len() {
            lobounds.len()
        } else {
            sizes.len()
        },
        |k: int| bound_text(lobounds, k),
    )
}

/// The full name of a type.
pub open spec fn name_of(t: TypeView, m: Module) -> Seq<char>
    decreases t, 0nat,
{
    match t {
        TypeView::Def(id) => def_name(m, id),
        TypeView::External(e) => external_name(e, m),
        TypeView::SzArray(e) => name_of(*e, m) + "[]"@,
        TypeView::Array { element, sizes, lobounds } => name_of(*element, m) + "["@
            + names::joined(bounds_texts(sizes, lobounds), ","@) + "]"@,
        TypeView::Ptr(e) => name_of(*e, m) + "*"@,
        TypeView::ByRef(e) => name_of(*e, m) + "&"@,
        TypeView::Pinned(e) => name_of(*e, m) + " pinned"@,
        TypeView::GenericInstance { definition, arguments } => name_of(*definition, m) + "["@
            + names::joined(names_of(arguments, m, arguments.len()), ","@) + "]"@,
        TypeView::Var(n) => "!"@ + text::decimal(n as nat),
        TypeView::MVar(n) => "!!"@ + text::decimal(n as nat),
        TypeView::FnPtr(s) => "fn("@ + names::joined(
            names_of(s.parameters, m, s.parameters.len()),
            ","@,
        ) + ")"@ + name_of(s.return_type, m),
        TypeView::CMod { required, modifier, unmodified } => name_of(*unmodified, m) + (
        if required {
            " modreq("@
        } else {
            " modopt("@
        }) + name_of(*modifier, m) + ")"@,
        TypeView::Sentinel => "SENTINEL"@,
        TypeView::TypedByRef => "TypedReference"@,
        TypeView::Internal(name) => name,
    }
}

/// The full names of the first `n` types.
pub open spec fn names_of(list: Seq<TypeView>, m: Module, n: nat) -> Seq<Seq<char>>
    decreases list, n,
{
    if n == 0 || n > list.len() {
        Seq::empty()
    } else {
        names_of(list, m, (n - 1) as nat).push(name_of(list[n - 1], m))
    }
}

proof fn names_are(list: Seq<TypeView>, m: Module, n: nat)
    requires
        n <= list.len(),
    ensures
        names_of(list, m, n).len() == n,
        forall|k: int| 0 <= k < n ==> names_of(list, m, n)[k] == name_of(list[k], m),
    decreases n,
{
    if n > 0 {
        names_are(list, m, (n - 1) as nat);
    }
}

/// Factories, resolution and names of type descriptors.
pub trait TypeReferenceRocks {
    /// The defined types that the descriptor mentions are types of the module,
    /// and their declaring types come to an end.
    spec fn nameable_in(&self, m: Module) -> bool;

    /// Resolves to the defining type inside this module. Specification forms
    /// (arrays, pointers, modifiers, generic instances) delegate to their
    /// element. External references cannot be resolved here without an
    /// assembly resolver.
    fn resolve_in(&self, m: &Module) -> (r: Option<TypeId>);

    /// Full name: `NS.Outer/Nested` for definitions, `[scope]NS.Name` for
    /// external references, `Name`2[args]` for generic instances. Generic
    /// parameters render in ILAsm notation (`!n` type var, `!!n` method var).
    fn full_name_td(&self, m: &Module) -> (s: String)
        requires
            self.nameable_in(*m),
    ;

    /// `SZARRAY` single-dimension array over this type.
    fn make_array_type(&self) -> (t: TypeDesc);

    /// Multi-dimensional array with `rank` dimensions. `rank == 0` is
    /// rejected. [`TypeDesc::Array`] carries no explicit rank field, so the
    /// rank is preserved by storing `sizes`/`lobounds` vectors of length
    /// `rank` filled with zeros (the unspecified-bounds encoding).
    fn make_array_type_ranked(&self, rank: usize) -> (r: Result<TypeDesc, Error>);

    /// Pointer over this type.
    fn make_pointer_type(&self) -> (t: TypeDesc);

    /// Managed reference over this type.
    fn make_by_ref_type(&self) -> (t: TypeDesc);

    /// Pinned local type over this type.
    fn make_pinned_type(&self) -> (t: TypeDesc);

    /// Required custom modifier (`CMOD_REQD`) applied to this type.
    fn make_required_modifier_type(&self, modifier: TypeDesc) -> (t: TypeDesc);

    /// Optional custom modifier (`CMOD_OPT`) applied to this type.
    fn make_optional_modifier_type(&self, modifier: TypeDesc) -> (t: TypeDesc);

    /// Instantiated generic type over this definition. Requires at least one
    /// argument (an arity check needs module context; prefer
    /// `make_generic_instance` on a resolved handle).
    fn make_generic_instance_type(&self, args: Vec<TypeDesc>) -> (r: Result<TypeDesc, Error>);

    /// Vararg call-site sentinel marker.
    fn make_sentinel_type(&self) -> (t: TypeDesc);
}

fn write_def_name(out: &mut String, id: TypeId, m: &Module)
    requires
        names::declaring_ends(*m),
        id.0 < m.types@.len(),
    ensures
        final(out)@ == old(out)@ + def_name(*m, id),
{
    let chain = names::def_chain(id, m);
    doccomment::push_qualifier(out, m.types[chain[0].index()].namespace.as_str());
    let ghost all = chain_names(*m, chain@);
    let n: usize = chain.len();
    let mut parts: Vec<String> = Vec::new();
    let mut i: usize = 0;
    while i < n
        invariant
            i <= n,
            n == chain@.len(),
            all == chain_names(*m, chain@),
            forall|k: int| 0 <= k < n ==> (#[trigger] chain@[k]).0 < m.types@.len(),
            parts@.len() == i,
            forall|k: int| 0 <= k < i ==> (#[trigger] parts@[k])@ == all[k],
        decreases n - i,
    {
        parts.push(m.types[chain[i].index()].name.as_str().to_owned());
        i += 1;
    }
    names::push_all(out, &parts, "/");
    proof {
        assert(names::text_views(parts@) =~= all);
        assert(out@ =~= old(out)@ + def_name(*m, id));
    }
}

fn write_external_name(out: &mut String, ext: &ExternalType, m: &Module)
    ensures
        final(out)@ == old(out)@ + external_name(types::external_view(*ext), *m),
{
    let ghost view = types::external_view(*ext);
    proof {
        types::external_views_are(ext.nesting@, ext.nesting@.len());
        assert(view.nesting == types::external_views(ext.nesting@, ext.nesting@.len()));
    }
    let ghost start = out@;
    let scope: &str = match &ext.scope {
        ScopeRef::Assembly(a) => a.name.as_str(),
        ScopeRef::OtherModule(name) => name.as_str(),
        ScopeRef::ThisModule => m.name.as_str(),
        ScopeRef::Moduleless => "",
    };
    proof {
        reveal_strlit("");
        assert(""@ =~= Seq::<char>::empty());
        assert(scope@ == scope_name(view.scope, *m));
    }
    if scope.unicode_len() > 0 {
        text::push_text(out, "[");
        text::push_text(out, scope);
        text::push_text(out, "]");
    }
    proof {
        assert(out@ =~= start + scope_prefix(scope_name(view.scope, *m)));
    }
    let n: usize = ext.nesting.len();
    if n > 0 {
        doccomment::push_qualifier(out, ext.nesting[0].namespace.as_str());
    } else {
        doccomment::push_qualifier(out, ext.namespace.as_str());
    }
    let ghost all = external_names(view);
    let mut parts: Vec<String> = Vec::new();
    let mut i: usize = 0;
    while i < n
        invariant
            i <= n,
            n == ext.nesting@.len(),
            all == external_names(view),
            view.nesting == types::external_views(ext.nesting@, ext.nesting@.len()),
            parts@.len() == i,
            forall|k: int| 0 <= k < i ==> (#[trigger] parts@[k])@ == all[k],
        decreases n - i,
    {
        proof {
            assert(view.nesting[i as int] == types::external_view(ext.nesting@[i as int]));
        }
        parts.push(ext.nesting[i].name.as_str().to_owned());
        i += 1;
    }
    parts.push(ext.name.as_str().to_owned());
    names::push_all(out, &parts, "/");
    proof {
        assert(names::text_views(parts@) =~= all);
        assert(out@ =~= start + external_name(view, *m));
    }
}

fn write_bounds(out: &mut String, sizes: &Vec<i32>, lobounds: &Vec<i32>)
    ensures
        final(out)@ == old(out)@ + names::joined(bounds_texts(sizes@, lobounds@), ","@),
{
    let n: usize = if sizes.len() < lobounds.len() {
        lobounds.len()
    } else {
        sizes.len()
    };
    let ghost all = bounds_texts(sizes@, lobounds@);
    let mut parts: Vec<String> = Vec::new();
    let mut i: usize = 0;
    while i < n
        invariant
            i <= n,
            all == bounds_texts(sizes@, lobounds@),
            n == all.len(),
            parts@.len() == i,
            forall|k: int| 0 <= k < i ==> (#[trigger] parts@[k])@ == all[k],
        decreases n - i,
    {
        let mut one: String = String::new();
        if i < lobounds.len() {
            text::push_signed(&mut one, lobounds[i] as i128);
            text::push_text(&mut one, "..");
        }
        proof {
            assert(one@ =~= bound_text(lobounds@, i as int));
        }
        parts.push(one);
        i += 1;
    }
    names::push_all(out, &parts, ",");
    proof {
        assert(names::text_views(parts@) =~= all);
    }
}

fn spell_names(list: &Vec<TypeDesc>, m: &Module) -> (texts: Vec<String>)
    requires
        names::declaring_ends(*m),
        doccomment::all_defined(types::type_views(list@, list@.len()), *m, list@.len()),
    ensures
        names::text_views(texts@) == names_of(
            types::type_views(list@, list@.len()),
            *m,
            list@.len(),
        ),
    decreases list@, 1nat,
{
    let ghost views = types::type_views(list@, list@.len());
    let n: usize = list.len();
    let mut texts: Vec<String> = Vec::new();
    let mut i: usize = 0;
    while i < n
        invariant
            i <= n,
            n == list@.len(),
            names::declaring_ends(*m),
            views == types::type_views(list@, list@.len()),
            views.len() == n,
            doccomment::all_defined(views, *m, n as nat),
            texts@.len() == i,
            forall|k: int| 0 <= k < i ==> (#[trigger] texts@[k])@ == name_of(views[k], *m),
        decreases n - i,
    {
        proof {
            doccomment::each_defined(views, *m, n as nat, i as int);
            assert(views[i as int] == types::type_view(list@[i as int]));
        }
        let mut one: String = String::new();
        write_name(&mut one, &list[i], m);
        proof {
            assert(one@ =~= name_of(views[i as int], *m));
        }
        texts.push(one);
        i += 1;
    }
    proof {
        names_are(views, *m, n as nat);
        assert(names::text_views(texts@) =~= names_of(views, *m, n as nat));
    }
    texts
}

fn write_name(out: &mut String, ty: &TypeDesc, m: &Module)
    requires
        names::declaring_ends(*m),
        doccomment::defined(types::type_view(*ty), *m),
    ensures
        final(out)@ == old(out)@ + name_of(types::type_view(*ty), *m),
    decreases *ty, 0nat,
{
    let ghost start = out@;
    match ty {
        TypeDesc::Def(id) => {
            write_def_name(out, *id, m);
        },
        TypeDesc::External(ext) => {
            write_external_name(out, ext, m);
        },
        TypeDesc::SzArray(e) => {
            write_name(out, e, m);
            text::push_text(out, "[]");
        },
        TypeDesc::Array { element, sizes, lobounds } => {
            write_name(out, element, m);
            text::push_text(out, "[");
            write_bounds(out, sizes, lobounds);
            text::push_text(out, "]");
        },
        TypeDesc::Ptr(e) => {
            write_name(out, e, m);
            text::push_text(out, "*");
        },
        TypeDesc::ByRef(e) => {
            write_name(out, e, m);
            text::push_text(out, "&");
        },
        TypeDesc::Pinned(e) => {
            write_name(out, e, m);
            text::push_text(out, " pinned");
        },
        TypeDesc::GenericInstance { definition, arguments } => {
            write_name(out, definition, m);
            let texts = spell_names(arguments, m);
            text::push_text(out, "[");
            names::push_all(out, &texts, ",");
            text::push_text(out, "]");
        },
        TypeDesc::Var(n) => {
            text::push_text(out, "!");
            text::push_decimal(out, *n as u64);
        },
        TypeDesc::MVar(n) => {
            text::push_text(out, "!!");
            text::push_decimal(out, *n as u64);
        },
        TypeDesc::FnPtr(s) => {
            proof {
                let view = types::signature_view(**s);
                assert(types::type_view(*ty) == TypeView::FnPtr(Box::new(view)));
                assert(view.return_type == types::type_view(s.return_type));
                assert(view.parameters == types::type_views(
                    s.parameters@,
                    s.parameters@.len(),
                ));
            }
            let texts = spell_names(&s.parameters, m);
            text::push_text(out, "fn(");
            names::push_all(out, &texts, ",");
            text::push_text(out, ")");
            write_name(out, &s.return_type, m);
        },
        TypeDesc::CMod { required, modifier, unmodified } => {
            write_name(out, unmodified, m);
            if *required {
                text::push_text(out, " modreq(");
            } else {
                text::push_text(out, " modopt(");
            }
            write_name(out, modifier, m);
            text::push_text(out, ")");
        },
        TypeDesc::Sentinel => {
            text::push_text(out, "SENTINEL");
        },
        TypeDesc::TypedByRef => {
            text::push_text(out, "TypedReference");
        },
        TypeDesc::Internal(name) => {
            text::push_text(out, name.as_str());
        },
    }
    proof {
        assert(out@ =~= start + name_of(types::type_view(*ty), *m));
    }
}

fn resolve(t: &TypeDesc) -> (r: Option<TypeId>)
    ensures
        r == resolved(types::type_view(*t)),
    decreases *t,
{
    match t {
        TypeDesc::Def(id) => Some(*id),
        TypeDesc::SzArray(e) => resolve(e),
        TypeDesc::Ptr(e) => resolve(e),
        TypeDesc::ByRef(e) => resolve(e),
        TypeDesc::Pinned(e) => resolve(e),
        TypeDesc::Array { element, .. } => resolve(element),
        TypeDesc::GenericInstance { definition, .. } => resolve(definition),
        TypeDesc::CMod { unmodified, .. } => resolve(unmodified),
        _ => None,
    }
}

fn zeros(n: usize) -> (v: Vec<i32>)
    ensures
        v@ == Seq::new(n as nat, |k: int| 0i32),
{
    let mut v: Vec<i32> = Vec::new();
    let mut i: usize = 0;
    while i < n
        invariant
            i <= n,
            v@.len() == i,
            forall|k: int| 0 <= k < i ==> v@[k] == 0,
        decreases n - i,
    {
        v.push(0);
        i += 1;
    }
    proof {
        assert(v@ =~= Seq::new(n as nat, |k: int| 0i32));
    }
    v
}

impl TypeReferenceRocks for TypeDesc {
    open spec fn nameable_in(&self, m: Module) -> bool {
        names::declaring_ends(m) && doccomment::defined(types::type_view(*self), m)
    }

    fn resolve_in(&self, m: &Module) -> (r: Option<TypeId>)
        ensures
            r == resolved(self@),
    {
        resolve(self)
    }

    fn full_name_td(&self, m: &Module) -> (s: String)
        ensures
            s@ == name_of(self@, *m),
    {
        let mut out: String = String::new();
        write_name(&mut out, self, m);
        proof {
            assert(out@ =~= name_of(self@, *m));
        }
        out
    }

    fn make_array_type(&self) -> (t: TypeDesc)
        ensures
            t@ == TypeView::SzArray(Box::new(self@)),
    {
        TypeDesc::SzArray(Box::new(self.clone()))
    }

    fn make_array_type_ranked(&self, rank: usize) -> (r: Result<TypeDesc, Error>)
        ensures
            if rank == 0 {
                r is Err && r->Err_0.kind() == ErrorKind::Argument
            } else {
                r is Ok && r->Ok_0@ == (TypeView::Array {
                    element: Box::new(self@),
                    sizes: Seq::new(rank as nat, |k: int| 0i32),
                    lobounds: Seq::new(rank as nat, |k: int| 0i32),
                })
            },
    {
        if rank == 0 {
            return Err(Error::argument("array rank must be at least 1"));
        }
        Ok(
            TypeDesc::Array {
                element: Box::new(self.clone()),
                sizes: zeros(rank),
                lobounds: zeros(rank),
            },
        )
    }

    fn make_pointer_type(&self) -> (t: TypeDesc)
        ensures
            t@ == TypeView::Ptr(Box::new(self@)),
    {
        TypeDesc::Ptr(Box::new(self.clone()))
    }

    fn make_by_ref_type(&self) -> (t: TypeDesc)
        ensures
            t@ == TypeView::ByRef(Box::new(self@)),
    {
        TypeDesc::ByRef(Box::new(self.clone()))
    }

    fn make_pinned_type(&self) -> (t: TypeDesc)
        ensures
            t@ == TypeView::Pinned(Box::new(self@)),
    {
        TypeDesc::Pinned(Box::new(self.clone()))
    }

    fn make_required_modifier_type(&self, modifier: TypeDesc) -> (t: TypeDesc)
        ensures
            t@ == (TypeView::CMod {
                required: true,
                modifier: Box::new(modifier@),
                unmodified: Box::new(self@),
            }),
    {
        TypeDesc::CMod {
            required: true,
            modifier: Box::new(modifier),
            unmodified: Box::new(self.clone()),
        }
    }

    fn make_optional_modifier_type(&self, modifier: TypeDesc) -> (t: TypeDesc)
        ensures
            t@ == (TypeView::CMod {
                required: false,
                modifier: Box::new(modifier@),
                unmodified: Box::new(self@),
            }),
    {
        TypeDesc::CMod {
            required: false,
            modifier: Box::new(modifier),
            unmodified: Box::new(self.clone()),
        }
    }

    fn make_generic_instance_type(&self, args: Vec<TypeDesc>) -> (r: Result<TypeDesc, Error>)
        ensures
            if args@.len() == 0 {
                r is Err && r->Err_0.kind() == ErrorKind::Argument
            } else {
                r is Ok && r->Ok_0@ == (TypeView::GenericInstance {
                    definition: Box::new(self@),
                    arguments: types::type_views(args@, args@.len()),
                })
            },
    {
        if args.len() == 0 {
            return Err(Error::argument("generic instantiation needs arguments"));
        }
        Ok(TypeDesc::GenericInstance { definition: Box::new(self.clone()), arguments: args })
    }

    fn make_sentinel_type(&self) -> (t: TypeDesc)
        ensures
            t@ == TypeView::Sentinel,
    {
        TypeDesc::Sentinel
    }
}

/// Arrays, pointers, references, pinned and modified types resolve as what
/// they are made over.
pub proof fn specifications_resolve_as_their_element(t: TypeView, modifier: TypeView, required: bool)
    ensures
        resolved(TypeView::SzArray(Box::new(t))) == resolved(t),
        resolved(TypeView::Ptr(Box::new(t))) == resolved(t),
        resolved(TypeView::ByRef(Box::new(t))) == resolved(t),
        resolved(TypeView::Pinned(Box::new(t))) == resolved(t),
        resolved(
            TypeView::CMod {
                required,
                modifier: Box::new(modifier),
                unmodified: Box::new(t),
            },
        ) == resolved(t),
{
}

} // verus!
