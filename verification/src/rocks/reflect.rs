//! Reflection-style extension traits over the object model: a receiver is a
//! copyable handle ([`TypeId`] / [`MethodId`]) or a value type, and a
//! `&Module` is handed along, because handles alone cannot reach arena data.

use vstd::prelude::*;

use crate::error::{Error, ErrorKind};
use crate::flags::{FieldAttributes, MethodAttributes};
use crate::model::body::RInstruction;
use crate::model::equality;
use crate::model::module::{MethodDefinition, Parameter, TypeDefinition};
use crate::model::types;
use crate::model::types::{MethodId, TypeDesc, TypeId, TypeView};
use crate::model::Module;
use crate::rocks::names;
use crate::text;
use crate::text::Message;

pub use crate::rocks::type_reference::TypeReferenceRocks;

verus! {

broadcast use {crate::model::types::external_views_are, crate::model::types::type_views_are};

/// A type and, behind it, the subtrees of the types nested in it; `fuel`
/// bounds how deep they go.
pub open spec fn subtree(m: Module, id: TypeId, fuel: nat) -> Seq<TypeId>
    decreases fuel, 0nat,
{
    if fuel == 0 || id.0 >= m.types@.len() {
        Seq::empty()
    } else {
        let nested = m.types@[id.0 as int].nested_types@;
        seq![id] + subtrees(m, nested, nested.len(), (fuel - 1) as nat)
    }
}

/// The subtrees of the first `n` types of a list, one behind the other.
pub open spec fn subtrees(m: Module, list: Seq<TypeId>, n: nat, fuel: nat) -> Seq<TypeId>
    decreases fuel, n,
{
    if n == 0 || n > list.len() {
        Seq::empty()
    } else {
        subtrees(m, list, (n - 1) as nat, fuel) + subtree(m, list[n - 1], fuel)
    }
}

/// The types nested in a type are there, and come to an end.
pub open spec fn subtree_ends(m: Module, id: TypeId, fuel: nat) -> bool
    decreases fuel,
{
    fuel > 0 && id.0 < m.types@.len() && forall|k: int|
        0 <= k < m.types@[id.0 as int].nested_types@.len() ==> subtree_ends(
            m,
            #[trigger] m.types@[id.0 as int].nested_types@[k],
            (fuel - 1) as nat,
        )
}

/// The subtrees of those of the first `n` types that are not nested.
pub open spec fn root_subtrees(m: Module, n: nat) -> Seq<TypeId>
    decreases n,
{
    if n == 0 || n > m.types@.len() {
        Seq::empty()
    } else if m.types@[n - 1].declaring_type is None {
        root_subtrees(m, (n - 1) as nat) + subtree(m, TypeId((n - 1) as u32), m.types@.len())
    } else {
        root_subtrees(m, (n - 1) as nat)
    }
}

/// The types nested in every top-level type come to an end. (They do so within
/// as many levels as there are types, or never.)
pub open spec fn nesting_ends(m: Module) -> bool {
    m.types@.len() <= u32::MAX && forall|id: TypeId|
        id.0 < m.types@.len() && m.types@[id.0 as int].declaring_type is None
            ==> #[trigger] subtree_ends(m, id, m.types@.len())
}

/// The top-level type has the namespace, the name up to arity suffixes, and
/// the number of generic parameters.
pub open spec fn goes_by(t: TypeDefinition, ns: Seq<char>, name: Seq<char>, arity: nat) -> bool {
    &&& t.declaring_type is None
    &&& t.namespace@ == ns
    &&& names::simple_name(t.name@) == names::simple_name(name)
    &&& t.generic_parameters@.len() == arity
}

/// The first type that goes by the name, from the `i`-th one on.
pub open spec fn type_from(m: Module, ns: Seq<char>, name: Seq<char>, arity: nat, i: int) -> Option<
    int,
>
    decreases m.types@.len() - i,
{
    if i < 0 || i >= m.types@.len() {
        None
    } else if goes_by(m.types@[i], ns, name, arity) {
        Some(i)
    } else {
        type_from(m, ns, name, arity, i + 1)
    }
}

/// Queries over the types of a module.
pub trait ModuleDefinitionRocks {
    /// The nesting of the types comes to an end.
    spec fn walkable(&self) -> bool;

    /// The types can be told apart by 32-bit handles.
    spec fn addressable(&self) -> bool;

    /// All types reachable from this module: a pre-order depth-first walk
    /// where each declaring type comes *first* and its nested descendants
    /// follow recursively; top-level roots are visited in arena order.
    fn get_all_types(&self) -> (v: Vec<TypeId>)
        requires
            self.walkable(),
    ;

    /// Finds a top-level type by namespace and simple name with an exact
    /// generic-arity requirement. The stored name may carry a `` `N `` suffix;
    /// both sides are compared without it.
    fn get_type_with_generics(&self, ns: &str, name: &str, arity: usize) -> (r: Option<TypeId>)
        requires
            self.addressable(),
    ;
}

/// Pre-order depth-first walk: the type itself first, then each nested
/// subtree recursively.
fn collect_types_preorder(m: &Module, id: TypeId, out: &mut Vec<TypeId>, Ghost(fuel): Ghost<nat>)
    requires
        subtree_ends(*m, id, fuel),
    ensures
        final(out)@ == old(out)@ + subtree(*m, id, fuel),
    decreases fuel,
{
    let ghost start = out@;
    out.push(id);
    let nested = &m.types[id.index()].nested_types;
    let n: usize = nested.len();
    let ghost rest = (fuel - 1) as nat;
    let mut i: usize = 0;
    proof {
        assert(out@ =~= start + (seq![id] + subtrees(*m, nested@, 0, rest)));
    }
    while i < n
        invariant
            i <= n,
            n == nested@.len(),
            fuel > 0,
            rest == fuel - 1,
            forall|k: int| 0 <= k < n ==> subtree_ends(*m, #[trigger] nested@[k], rest),
            out@ == start + (seq![id] + subtrees(*m, nested@, i as nat, rest)),
        decreases n - i,
    {
        collect_types_preorder(m, nested[i], out, Ghost(rest));
        proof {
            assert(out@ =~= start + (seq![id] + subtrees(*m, nested@, (i + 1) as nat, rest)));
        }
        i += 1;
    }
}

fn same_chars(a: &Vec<char>, b: &Vec<char>) -> (r: bool)
    ensures
        r == (a@ == b@),
{
    let n: usize = a.len();
    if n != b.len() {
        return false;
    }
    let mut i: usize = 0;
    while i < n
        invariant
            i <= n,
            n == a@.len(),
            n == b@.len(),
            forall|k: int| 0 <= k < i ==> a@[k] == b@[k],
        decreases n - i,
    {
        if a[i] != b[i] {
            return false;
        }
        i += 1;
    }
    proof {
        assert(a@ =~= b@);
    }
    true
}

impl ModuleDefinitionRocks for Module {
    open spec fn walkable(&self) -> bool {
        nesting_ends(*self)
    }

    open spec fn addressable(&self) -> bool {
        self.types@.len() <= u32::MAX
    }

    fn get_all_types(&self) -> (v: Vec<TypeId>)
        ensures
            v@ == root_subtrees(*self, self.types@.len()),
    {
        let n: usize = self.types.len();
        let mut out: Vec<TypeId> = Vec::new();
        let mut i: usize = 0;
        proof {
            assert(out@ =~= root_subtrees(*self, 0));
        }
        while i < n
            invariant
                i <= n,
                n == self.types@.len(),
                nesting_ends(*self),
                out@ == root_subtrees(*self, i as nat),
            decreases n - i,
        {
            if self.types[i].declaring_type.is_none() {
                let id = TypeId(i as u32);
                proof {
                    assert(subtree_ends(*self, id, self.types@.len()));
                }
                collect_types_preorder(self, id, &mut out, Ghost(self.types@.len()));
            }
            i += 1;
        }
        out
    }

    fn get_type_with_generics(&self, ns: &str, name: &str, arity: usize) -> (r: Option<TypeId>)
        ensures
            match type_from(*self, ns@, name@, arity as nat, 0) {
                Some(k) => r is Some && r->Some_0.0 == k && 0 <= k < self.types@.len(),
                None => r is None,
            },
    {
        let wanted = names::strip_arity(name);
        let n: usize = self.types.len();
        let mut i: usize = 0;
        while i < n
            invariant
                i <= n,
                n == self.types@.len(),
                n <= u32::MAX,
                wanted@ == names::simple_name(name@),
                type_from(*self, ns@, name@, arity as nat, 0) == type_from(
                    *self,
                    ns@,
                    name@,
                    arity as nat,
                    i as int,
                ),
            decreases n - i,
        {
            let t = &self.types[i];
            let simple = names::strip_arity(t.name.as_str());
            if t.declaring_type.is_none() && text::same(t.namespace.as_str(), ns) && same_chars(
                &simple,
                &wanted,
            ) && t.generic_parameters.len() == arity {
                return Some(TypeId(i as u32));
            }
            i += 1;
        }
        None
    }
}

/// What a type lists as nested names that type as its declaring type.
pub open spec fn nesting_agrees(m: Module) -> bool {
    forall|p: int, i: int|
        0 <= p < m.types@.len() && 0 <= i < m.types@[p].nested_types@.len() ==> ({
            let child = #[trigger] m.types@[p].nested_types@[i];
            child.0 < m.types@.len() ==> m.types@[child.0 as int].declaring_type == Some(
                TypeId(p as u32),
            )
        })
}

/// The type stands behind its declaring type, if it has one.
pub open spec fn declared_before(m: Module, list: Seq<TypeId>, k: int) -> bool {
    match m.types@[list[k].0 as int].declaring_type {
        Some(parent) => exists|j: int| 0 <= j < k && #[trigger] list[j] == parent,
        None => true,
    }
}

proof fn subtree_order(m: Module, id: TypeId, fuel: nat, k: int)
    requires
        nesting_agrees(m),
        0 < k < subtree(m, id, fuel).len(),
    ensures
        declared_before(m, subtree(m, id, fuel), k),
    decreases fuel, 0nat,
{
    let nested = m.types@[id.0 as int].nested_types@;
    let rest = subtrees(m, nested, nested.len(), (fuel - 1) as nat);
    let all = subtree(m, id, fuel);
    assert(all == seq![id] + rest);
    assert(all[k] == rest[k - 1]);
    subtrees_order(m, id, nested.len(), (fuel - 1) as nat, k - 1);
    match m.types@[all[k].0 as int].declaring_type {
        Some(parent) => {
            if parent == id {
                assert(all[0] == parent);
            } else {
                let j = choose|j: int| 0 <= j < k - 1 && #[trigger] rest[j] == parent;
                assert(all[j + 1] == parent);
            }
        },
        None => {},
    }
}

proof fn subtrees_order(m: Module, id: TypeId, n: nat, fuel: nat, k: int)
    requires
        nesting_agrees(m),
        id.0 < m.types@.len(),
        n <= m.types@[id.0 as int].nested_types@.len(),
        0 <= k < subtrees(m, m.types@[id.0 as int].nested_types@, n, fuel).len(),
    ensures
        ({
            let list = subtrees(m, m.types@[id.0 as int].nested_types@, n, fuel);
            m.types@[list[k].0 as int].declaring_type == Some(id) || declared_before(m, list, k)
        }),
    decreases fuel, n,
{
    let nested = m.types@[id.0 as int].nested_types@;
    let front = subtrees(m, nested, (n - 1) as nat, fuel);
    let last = subtree(m, nested[n - 1], fuel);
    let list = subtrees(m, nested, n, fuel);
    assert(list == front + last);
    if k < front.len() {
        assert(list[k] == front[k]);
        subtrees_order(m, id, (n - 1) as nat, fuel, k);
        if m.types@[list[k].0 as int].declaring_type != Some(id) {
            match m.types@[front[k].0 as int].declaring_type {
                Some(parent) => {
                    let j = choose|j: int| 0 <= j < k && #[trigger] front[j] == parent;
                    assert(list[j] == parent);
                },
                None => {},
            }
        }
    } else {
        let i = k - front.len();
        assert(list[k] == last[i]);
        if i == 0 {
            assert(last[0] == nested[n - 1]);
        } else {
            subtree_order(m, nested[n - 1], fuel, i);
            match m.types@[last[i].0 as int].declaring_type {
                Some(parent) => {
                    let j = choose|j: int| 0 <= j < i && #[trigger] last[j] == parent;
                    assert(list[j + front.len()] == parent);
                },
                None => {},
            }
        }
    }
}

/// In the walk over all types every declaring type comes before the types
/// nested in it. This holds of modules whose nested types name their declaring
/// types.
pub proof fn declaring_types_come_first(m: Module, n: nat, k: int)
    requires
        nesting_agrees(m),
        m.types@.len() <= u32::MAX,
        n <= m.types@.len(),
        0 <= k < root_subtrees(m, n).len(),
    ensures
        declared_before(m, root_subtrees(m, n), k),
    decreases n,
{
    let all = root_subtrees(m, n);
    let front = root_subtrees(m, (n - 1) as nat);
    if k < front.len() {
        declaring_types_come_first(m, (n - 1) as nat, k);
        assert(all[k] == front[k]);
        match m.types@[front[k].0 as int].declaring_type {
            Some(parent) => {
                let j = choose|j: int| 0 <= j < k && #[trigger] front[j] == parent;
                assert(all[j] == parent);
            },
            None => {},
        }
    } else {
        let root = TypeId((n - 1) as u32);
        let last = subtree(m, root, m.types@.len());
        let i = k - front.len();
        assert(all == front + last);
        assert(all[k] == last[i]);
        if i == 0 {
            assert(last[0] == root);
        } else {
            subtree_order(m, root, m.types@.len(), i);
            match m.types@[last[i].0 as int].declaring_type {
                Some(parent) => {
                    let j = choose|j: int| 0 <= j < i && #[trigger] last[j] == parent;
                    assert(all[j + front.len()] == parent);
                },
                None => {},
            }
        }
    }
}

/// The methods of a list for which `p` holds, in their order.
pub open spec fn kept(list: Seq<MethodId>, p: spec_fn(MethodId) -> bool) -> Seq<MethodId>
    decreases list.len(),
{
    if list.len() == 0 {
        Seq::empty()
    } else if p(list.last()) {
        kept(list.drop_last(), p).push(list.last())
    } else {
        kept(list.drop_last(), p)
    }
}

/// The first method of a list for which `p` holds, from the `i`-th one on.
pub open spec fn first_kept(list: Seq<MethodId>, p: spec_fn(MethodId) -> bool, i: int) -> Option<
    MethodId,
>
    decreases list.len() - i,
{
    if i < 0 || i >= list.len() {
        None
    } else if p(list[i]) {
        Some(list[i])
    } else {
        first_kept(list, p, i + 1)
    }
}

proof fn kept_more(list: Seq<MethodId>, p: spec_fn(MethodId) -> bool, i: int)
    requires
        0 <= i < list.len(),
    ensures
        kept(list.take(i + 1), p) == if p(list[i]) {
            kept(list.take(i), p).push(list[i])
        } else {
            kept(list.take(i), p)
        },
{
    assert(list.take(i + 1).drop_last() =~= list.take(i));
    assert(list.take(i + 1).last() == list[i]);
}

/// The kept methods are methods of the list.
proof fn kept_from_list(list: Seq<MethodId>, p: spec_fn(MethodId) -> bool, k: int)
    requires
        0 <= k < kept(list, p).len(),
    ensures
        list.contains(kept(list, p)[k]),
        p(kept(list, p)[k]),
    decreases list.len(),
{
    let front = kept(list.drop_last(), p);
    if p(list.last()) && k == front.len() {
        assert(list[list.len() - 1] == list.last());
    } else {
        kept_from_list(list.drop_last(), p, k);
        let j = choose|j: int|
            0 <= j < list.drop_last().len() && list.drop_last()[j] == front[k];
        assert(list[j] == front[k]);
    }
}

/// All methods of the type are there.
pub open spec fn methods_in(id: TypeId, m: Module) -> bool {
    id.0 < m.types@.len() && forall|k: int|
        0 <= k < m.types@[id.0 as int].methods@.len() ==> (
        #[trigger] m.types@[id.0 as int].methods@[k]).0 < m.methods@.len()
}

/// All fields of the type are there.
pub open spec fn fields_in(id: TypeId, m: Module) -> bool {
    id.0 < m.types@.len() && forall|k: int|
        0 <= k < m.types@[id.0 as int].fields@.len() ==> (
        #[trigger] m.types@[id.0 as int].fields@[k]).0 < m.fields@.len()
}

/// The method has the name.
pub open spec fn is_named(m: Module, name: Seq<char>) -> spec_fn(MethodId) -> bool {
    |id: MethodId| m.methods@[id.0 as int].name@ == name
}

/// A `.ctor` or `.cctor` that carries both special-name flags.
pub open spec fn constructs(d: MethodDefinition) -> bool {
    d.attributes.0 & 0x1800 == 0x1800 && (d.name@ == ".ctor"@ || d.name@ == ".cctor"@)
}

/// The method is a constructor.
pub open spec fn is_ctor(m: Module) -> spec_fn(MethodId) -> bool {
    |id: MethodId| constructs(m.methods@[id.0 as int])
}

/// The method is no constructor.
pub open spec fn is_plain(m: Module) -> spec_fn(MethodId) -> bool {
    |id: MethodId| !constructs(m.methods@[id.0 as int])
}

/// The method belongs to the type and not to its instances.
pub open spec fn has_static(d: MethodDefinition) -> bool {
    d.attributes.0 & MethodAttributes::STATIC == MethodAttributes::STATIC
}

/// The method is a static constructor.
pub open spec fn is_static_ctor(m: Module) -> spec_fn(MethodId) -> bool {
    |id: MethodId| constructs(m.methods@[id.0 as int]) && has_static(m.methods@[id.0 as int])
}

/// The method can be seen by everyone, or by derived types.
pub open spec fn is_open(d: MethodDefinition) -> bool {
    let access = d.attributes.0 & MethodAttributes::MEMBER_ACCESS_MASK;
    access == MethodAttributes::PUBLIC || access == MethodAttributes::FAMILY || access
        == MethodAttributes::FAM_OR_ASSEM
}

/// The method is an instance constructor that can be seen.
pub open spec fn is_default_ctor(m: Module) -> spec_fn(MethodId) -> bool {
    |id: MethodId|
        constructs(m.methods@[id.0 as int]) && !has_static(m.methods@[id.0 as int]) && is_open(
            m.methods@[id.0 as int],
        )
}

/// The first instance field of the type, from its `i`-th field on.
pub open spec fn instance_field_from(m: Module, t: TypeDefinition, i: int) -> Option<int>
    decreases t.fields@.len() - i,
{
    if i < 0 || i >= t.fields@.len() {
        None
    } else if m.fields@[t.fields@[i].0 as int].attributes.0 & FieldAttributes::STATIC
        != FieldAttributes::STATIC {
        Some(i)
    } else {
        instance_field_from(m, t, i + 1)
    }
}

/// Queries over a type and its members.
pub trait TypeDefinitionRocks {
    /// The type and its methods are there.
    spec fn with_methods_in(&self, m: Module) -> bool;

    /// The type is there.
    spec fn is_in(&self, m: Module) -> bool;

    /// The type and its fields are there.
    spec fn with_fields_in(&self, m: Module) -> bool;

    /// Methods with exactly the given simple name, in declaration order.
    fn get_methods_named(&self, m: &Module, name: &str) -> (v: Vec<MethodId>)
        requires
            self.with_methods_in(*m),
    ;

    /// Directly nested types, in declaration order.
    fn get_nested_types(&self, m: &Module) -> (v: Vec<TypeId>)
        requires
            self.is_in(*m),
    ;

    /// Constructors: `.ctor` / `.cctor` rows carrying both SPECIAL_NAME and
    /// RTSPECIAL_NAME (the constructor marker pair), in declaration
    /// order.
    fn get_constructors(&self, m: &Module) -> (v: Vec<MethodId>)
        requires
            self.with_methods_in(*m),
    ;

    /// Non-constructor methods, in declaration order.
    fn get_methods(&self, m: &Module) -> (v: Vec<MethodId>)
        requires
            self.with_methods_in(*m),
    ;

    /// The static constructor: first constructor that is static (real
    /// `.cctor` rows carry SPECIAL_NAME | RTSPECIAL_NAME | STATIC).
    fn get_static_constructor(&self, m: &Module) -> (r: Option<MethodId>)
        requires
            self.with_methods_in(*m),
    ;

    /// An accessible instance `.ctor`: instance-level and public-ish visibility
    /// (`PUBLIC`, `FAMILY`, or `FAM_OR_ASSEM`; private/assembly-only
    /// constructors are skipped).
    fn get_default_constructor(&self, m: &Module) -> (r: Option<MethodId>)
        requires
            self.with_methods_in(*m),
    ;

    /// The type of the first non-static field, which carries an enum's value.
    /// Errors when the type declares no instance field; the instance-field
    /// scan alone defines the result.
    fn get_enum_underlying_type(&self, m: &Module) -> (r: Result<TypeDesc, Error>)
        requires
            self.with_fields_in(*m),
    ;

    /// Builds a `GENERICINST` over this type. Fails unless `args.len()`
    /// matches the declared generic-parameter count.
    fn make_generic_instance(&self, m: &Module, args: Vec<TypeDesc>) -> (r: Result<TypeDesc, Error>)
        requires
            self.is_in(*m),
    ;
}

fn is_constructor(d: &MethodDefinition) -> (b: bool)
    ensures
        b == constructs(*d),
{
    d.attributes.contains(0x1800) && (text::same(d.name.as_str(), ".ctor") || text::same(
        d.name.as_str(),
        ".cctor",
    ))
}

impl TypeDefinitionRocks for TypeId {
    open spec fn with_methods_in(&self, m: Module) -> bool {
        methods_in(*self, m)
    }

    open spec fn is_in(&self, m: Module) -> bool {
        self.0 < m.types@.len()
    }

    open spec fn with_fields_in(&self, m: Module) -> bool {
        fields_in(*self, m)
    }

    fn get_methods_named(&self, m: &Module, name: &str) -> (v: Vec<MethodId>)
        ensures
            v@ == kept(m.types@[self.0 as int].methods@, is_named(*m, name@)),
    {
        let list = &m.types[self.index()].methods;
        let ghost p = is_named(*m, name@);
        let n: usize = list.len();
        let mut v: Vec<MethodId> = Vec::new();
        let mut i: usize = 0;
        while i < n
            invariant
                i <= n,
                n == list@.len(),
                p == is_named(*m, name@),
                forall|k: int| 0 <= k < n ==> (#[trigger] list@[k]).0 < m.methods@.len(),
                v@ == kept(list@.take(i as int), p),
            decreases n - i,
        {
            proof {
                kept_more(list@, p, i as int);
            }
            if text::same(m.methods[list[i].index()].name.as_str(), name) {
                v.push(list[i]);
            }
            i += 1;
        }
        proof {
            assert(list@.take(n as int) =~= list@);
        }
        v
    }

    fn get_nested_types(&self, m: &Module) -> (v: Vec<TypeId>)
        ensures
            v@ == m.types@[self.0 as int].nested_types@,
    {
        let list = &m.types[self.index()].nested_types;
        let n: usize = list.len();
        let mut v: Vec<TypeId> = Vec::new();
        let mut i: usize = 0;
        while i < n
            invariant
                i <= n,
                n == list@.len(),
                v@ == list@.take(i as int),
            decreases n - i,
        {
            v.push(list[i]);
            proof {
                assert(v@ =~= list@.take(i + 1));
            }
            i += 1;
        }
        proof {
            assert(list@.take(n as int) =~= list@);
        }
        v
    }

    fn get_constructors(&self, m: &Module) -> (v: Vec<MethodId>)
        ensures
            v@ == kept(m.types@[self.0 as int].methods@, is_ctor(*m)),
    {
        let list = &m.types[self.index()].methods;
        let ghost p = is_ctor(*m);
        let n: usize = list.len();
        let mut v: Vec<MethodId> = Vec::new();
        let mut i: usize = 0;
        while i < n
            invariant
                i <= n,
                n == list@.len(),
                p == is_ctor(*m),
                forall|k: int| 0 <= k < n ==> (#[trigger] list@[k]).0 < m.methods@.len(),
                v@ == kept(list@.take(i as int), p),
            decreases n - i,
        {
            proof {
                kept_more(list@, p, i as int);
            }
            if is_constructor(&m.methods[list[i].index()]) {
                v.push(list[i]);
            }
            i += 1;
        }
        proof {
            assert(list@.take(n as int) =~= list@);
        }
        v
    }

    fn get_methods(&self, m: &Module) -> (v: Vec<MethodId>)
        ensures
            v@ == kept(m.types@[self.0 as int].methods@, is_plain(*m)),
    {
        let list = &m.types[self.index()].methods;
        let ghost p = is_plain(*m);
        let n: usize = list.len();
        let mut v: Vec<MethodId> = Vec::new();
        let mut i: usize = 0;
        while i < n
            invariant
                i <= n,
                n == list@.len(),
                p == is_plain(*m),
                forall|k: int| 0 <= k < n ==> (#[trigger] list@[k]).0 < m.methods@.len(),
                v@ == kept(list@.take(i as int), p),
            decreases n - i,
        {
            proof {
                kept_more(list@, p, i as int);
            }
            if !is_constructor(&m.methods[list[i].index()]) {
                v.push(list[i]);
            }
            i += 1;
        }
        proof {
            assert(list@.take(n as int) =~= list@);
        }
        v
    }

    fn get_static_constructor(&self, m: &Module) -> (r: Option<MethodId>)
        ensures
            r == first_kept(m.types@[self.0 as int].methods@, is_static_ctor(*m), 0),
    {
        let list = &m.types[self.index()].methods;
        let ghost p = is_static_ctor(*m);
        let n: usize = list.len();
        let mut i: usize = 0;
        while i < n
            invariant
                i <= n,
                n == list@.len(),
                p == is_static_ctor(*m),
                list@ == m.types@[self.0 as int].methods@,
                forall|k: int| 0 <= k < n ==> (#[trigger] list@[k]).0 < m.methods@.len(),
                first_kept(list@, p, 0) == first_kept(list@, p, i as int),
            decreases n - i,
        {
            let d = &m.methods[list[i].index()];
            if is_constructor(d) && d.attributes.contains(MethodAttributes::STATIC) {
                return Some(list[i]);
            }
            i += 1;
        }
        None
    }

    fn get_default_constructor(&self, m: &Module) -> (r: Option<MethodId>)
        ensures
            r == first_kept(m.types@[self.0 as int].methods@, is_default_ctor(*m), 0),
    {
        let list = &m.types[self.index()].methods;
        let ghost p = is_default_ctor(*m);
        let n: usize = list.len();
        let mut i: usize = 0;
        while i < n
            invariant
                i <= n,
                n == list@.len(),
                p == is_default_ctor(*m),
                list@ == m.types@[self.0 as int].methods@,
                forall|k: int| 0 <= k < n ==> (#[trigger] list@[k]).0 < m.methods@.len(),
                first_kept(list@, p, 0) == first_kept(list@, p, i as int),
            decreases n - i,
        {
            let d = &m.methods[list[i].index()];
            let access: u16 = d.attributes.0 & MethodAttributes::MEMBER_ACCESS_MASK;
            if is_constructor(d) && !d.attributes.contains(MethodAttributes::STATIC) && (access
                == MethodAttributes::PUBLIC || access == MethodAttributes::FAMILY || access
                == MethodAttributes::FAM_OR_ASSEM) {
                return Some(list[i]);
            }
            i += 1;
        }
        None
    }

    fn get_enum_underlying_type(&self, m: &Module) -> (r: Result<TypeDesc, Error>)
        ensures
            match instance_field_from(*m, m.types@[self.0 as int], 0) {
                Some(k) => r is Ok && r->Ok_0@
                    == m.fields@[m.types@[self.0 as int].fields@[k].0 as int].signature.0@,
                None => r is Err && r->Err_0.kind() == ErrorKind::Argument && r->Err_0.text()
                    == "type "@ + m.types@[self.0 as int].name@
                    + " declares no instance field, so it has no enum underlying type"@,
            },
    {
        let t = &m.types[self.index()];
        let n: usize = t.fields.len();
        let mut i: usize = 0;
        while i < n
            invariant
                i <= n,
                n == t.fields@.len(),
                *t == m.types@[self.0 as int],
                forall|k: int| 0 <= k < n ==> (#[trigger] t.fields@[k]).0 < m.fields@.len(),
                instance_field_from(*m, *t, 0) == instance_field_from(*m, *t, i as int),
            decreases n - i,
        {
            let f = &m.fields[t.fields[i].0 as usize];
            if !f.attributes.contains(FieldAttributes::STATIC) {
                return Ok(f.signature.0.clone());
            }
            i += 1;
        }
        Err(
            Error::argument(
                Message::new("type ").text(t.name.as_str()).text(
                    " declares no instance field, so it has no enum underlying type",
                ).as_str(),
            ),
        )
    }

    fn make_generic_instance(&self, m: &Module, args: Vec<TypeDesc>) -> (r: Result<TypeDesc, Error>)
        ensures
            if args@.len() == m.types@[self.0 as int].generic_parameters@.len() {
                r is Ok && r->Ok_0@ == (TypeView::GenericInstance {
                    definition: Box::new(TypeView::Def(*self)),
                    arguments: types::type_views(args@, args@.len()),
                })
            } else {
                r is Err && r->Err_0.kind() == ErrorKind::InvalidOperation && r->Err_0.text()
                    == "type "@ + m.types@[self.0 as int].name@ + " expects "@ + text::decimal(
                    m.types@[self.0 as int].generic_parameters@.len(),
                ) + " generic argument(s), got "@ + text::decimal(args@.len())
            },
    {
        if args.len() != m.types[self.index()].generic_parameters.len() {
            let t = &m.types[self.index()];
            return Err(
                Error::invalid_op(
                    Message::new("type ").text(t.name.as_str()).text(" expects ").count(
                        t.generic_parameters.len() as u64,
                    ).text(" generic argument(s), got ").count(args.len() as u64).as_str(),
                ),
            );
        }
        let instance = TypeDesc::GenericInstance {
            definition: Box::new(TypeDesc::Def(*self)),
            arguments: args,
        };
        proof {
            assert(types::type_view(TypeDesc::Def(*self)) == TypeView::Def(*self));
        }
        Ok(instance)
    }
}

/// A method of a type is either a constructor or a plain method: the two views
/// have as many methods together as the type, and no method is in both.
pub proof fn constructors_and_methods_split(m: Module, list: Seq<MethodId>)
    ensures
        kept(list, is_ctor(m)).len() + kept(list, is_plain(m)).len() == list.len(),
        forall|id: MethodId|
            kept(list, is_ctor(m)).contains(id) ==> !(#[trigger] kept(list, is_plain(m)).contains(
                id,
            )),
    decreases list.len(),
{
    if list.len() > 0 {
        constructors_and_methods_split(m, list.drop_last());
    }
    assert forall|id: MethodId| kept(list, is_ctor(m)).contains(id) implies !(
    #[trigger] kept(list, is_plain(m)).contains(id)) by {
        let a = kept(list, is_ctor(m));
        let b = kept(list, is_plain(m));
        let i = choose|i: int| 0 <= i < a.len() && a[i] == id;
        kept_from_list(list, is_ctor(m), i);
        if b.contains(id) {
            let j = choose|j: int| 0 <= j < b.len() && b[j] == id;
            kept_from_list(list, is_plain(m), j);
        }
    }
}

/// The body of a method, if it has one.
pub open spec fn code_of(d: MethodDefinition) -> Seq<RInstruction> {
    match d.body {
        Some(b) => b.instructions@,
        None => Seq::empty(),
    }
}

/// The first parameter with the name, from the `i`-th one on.
pub open spec fn parameter_from(list: Seq<Parameter>, name: Seq<char>, i: int) -> Option<int>
    decreases list.len() - i,
{
    if i < 0 || i >= list.len() {
        None
    } else if list[i].name@ == name {
        Some(i)
    } else {
        parameter_from(list, name, i + 1)
    }
}

/// The method has the name and the signature of `needle`.
pub open spec fn is_like(m: Module, needle: MethodDefinition) -> spec_fn(MethodId) -> bool {
    |id: MethodId|
        m.methods@[id.0 as int].name@ == needle.name@ && types::signature_view(
            m.methods@[id.0 as int].signature,
        ) == types::signature_view(needle.signature)
}

/// The first method like `needle` that the type lists.
pub open spec fn like_in(m: Module, id: TypeId, needle: MethodDefinition) -> Option<MethodId> {
    first_kept(m.types@[id.0 as int].methods@, is_like(m, needle), 0)
}

/// The method like `needle` in the nearest of the base types that has one, as
/// far as they are types of the module; `fuel` bounds how many there are.
pub open spec fn base_from(
    m: Module,
    base: Option<TypeDesc>,
    needle: MethodDefinition,
    fuel: nat,
) -> Option<MethodId>
    decreases fuel,
{
    if fuel == 0 {
        None
    } else {
        match base {
            Some(TypeDesc::Def(id)) => match like_in(m, id, needle) {
                Some(found) => Some(found),
                None => base_from(
                    m,
                    m.types@[id.0 as int].base_type,
                    needle,
                    (fuel - 1) as nat,
                ),
            },
            _ => None,
        }
    }
}

/// The base types that are walked are there, and come to an end.
pub open spec fn base_ends(
    m: Module,
    base: Option<TypeDesc>,
    needle: MethodDefinition,
    fuel: nat,
) -> bool
    decreases fuel,
{
    fuel > 0 && match base {
        Some(TypeDesc::Def(id)) => methods_in(id, m) && (like_in(m, id, needle) is Some
            || base_ends(m, m.types@[id.0 as int].base_type, needle, (fuel - 1) as nat)),
        _ => true,
    }
}

/// A virtual method that takes the slot of a base method.
pub open spec fn overrides(d: MethodDefinition) -> bool {
    d.attributes.0 & MethodAttributes::VIRTUAL == MethodAttributes::VIRTUAL && d.attributes.0
        & MethodAttributes::NEW_SLOT != MethodAttributes::NEW_SLOT
}

/// The base types of a method's type, as far as they are walked.
pub open spec fn base_walk_ends(m: Module, id: MethodId) -> bool {
    id.0 < m.methods@.len() && {
        let d = m.methods@[id.0 as int];
        overrides(d) ==> d.declaring_type.0 < m.types@.len() && base_ends(
            m,
            m.types@[d.declaring_type.0 as int].base_type,
            d,
            m.types@.len() + 1,
        )
    }
}

/// The method that a method overrides in a base type of the module; itself if
/// there is none.
pub open spec fn base_method(m: Module, id: MethodId) -> MethodId {
    let d = m.methods@[id.0 as int];
    if !overrides(d) {
        id
    } else {
        match base_from(
            m,
            m.types@[d.declaring_type.0 as int].base_type,
            d,
            m.types@.len() + 1,
        ) {
            Some(found) => found,
            None => id,
        }
    }
}

/// The method that is reached by going to base methods until there is no
/// other; `fuel` bounds how often.
pub open spec fn original_from(m: Module, id: MethodId, fuel: nat) -> MethodId
    decreases fuel,
{
    if fuel == 0 || base_method(m, id) == id {
        id
    } else {
        original_from(m, base_method(m, id), (fuel - 1) as nat)
    }
}

/// Going to base methods comes to an end.
pub open spec fn original_ends(m: Module, id: MethodId, fuel: nat) -> bool
    decreases fuel,
{
    fuel > 0 && base_walk_ends(m, id) && (base_method(m, id) == id || original_ends(
        m,
        base_method(m, id),
        (fuel - 1) as nat,
    ))
}

/// Queries over a method.
pub trait MethodDefinitionRocks {
    /// The method is there.
    spec fn has_method_in(&self, m: Module) -> bool;

    /// The base types of the method's type come to an end.
    spec fn has_bases_in(&self, m: Module) -> bool;

    /// Going from base method to base method comes to an end.
    spec fn has_original_in(&self, m: Module) -> bool;

    /// Instructions of the resolved body; empty for methods without one
    /// (abstract / pinvoke / native).
    fn body_instructions<'a>(&self, m: &'a Module) -> (code: &'a [RInstruction])
        requires
            self.has_method_in(*m),
    ;

    /// Index into the parameter list of the parameter named `name`.
    fn get_parameter(&self, m: &Module, name: &str) -> (r: Option<usize>)
        requires
            self.has_method_in(*m),
    ;

    /// Walks same-module base types looking for the method this virtual
    /// method overrides. Non-virtual or new-slot methods return themselves.
    /// When the base-type chain leaves the module (an external base type),
    /// resolution stops and the receiver is returned: resolving across
    /// assemblies needs an assembly resolver, which this context-free trait
    /// does not have.
    fn get_base_method(&self, m: &Module) -> (id: MethodId)
        requires
            self.has_bases_in(*m),
    ;

    /// Applies [`Self::get_base_method`] until it reaches a fixpoint.
    fn get_original_base_method(&self, m: &Module) -> (id: MethodId)
        requires
            self.has_original_in(*m),
    ;
}

fn find_matching_method(m: &Module, ty: TypeId, needle: &MethodDefinition) -> (r: Option<MethodId>)
    requires
        methods_in(ty, *m),
    ensures
        r == like_in(*m, ty, *needle),
{
    let list = &m.types[ty.index()].methods;
    let ghost p = is_like(*m, *needle);
    let n: usize = list.len();
    let mut i: usize = 0;
    while i < n
        invariant
            i <= n,
            n == list@.len(),
            p == is_like(*m, *needle),
            list@ == m.types@[ty.0 as int].methods@,
            forall|k: int| 0 <= k < n ==> (#[trigger] list@[k]).0 < m.methods@.len(),
            first_kept(list@, p, 0) == first_kept(list@, p, i as int),
        decreases n - i,
    {
        let d = &m.methods[list[i].index()];
        if text::same(d.name.as_str(), needle.name.as_str()) && equality::same_signature(
            &d.signature,
            &needle.signature,
        ) {
            return Some(list[i]);
        }
        i += 1;
    }
    None
}

fn find_base(
    m: &Module,
    base: &Option<TypeDesc>,
    needle: &MethodDefinition,
    Ghost(fuel): Ghost<nat>,
) -> (r: Option<MethodId>)
    requires
        base_ends(*m, *base, *needle, fuel),
    ensures
        r == base_from(*m, *base, *needle, fuel),
    decreases fuel,
{
    match base {
        Some(TypeDesc::Def(id)) => match find_matching_method(m, *id, needle) {
            Some(found) => Some(found),
            None => find_base(
                m,
                &m.types[id.index()].base_type,
                needle,
                Ghost((fuel - 1) as nat),
            ),
        },
        // An external base type cannot be resolved without an assembly
        // resolver.
        _ => None,
    }
}

fn original_of(m: &Module, id: MethodId, Ghost(fuel): Ghost<nat>) -> (r: MethodId)
    requires
        original_ends(*m, id, fuel),
    ensures
        r == original_from(*m, id, fuel),
    decreases fuel,
{
    let next = id.get_base_method(m);
    if next.0 == id.0 {
        id
    } else {
        original_of(m, next, Ghost((fuel - 1) as nat))
    }
}

impl MethodDefinitionRocks for MethodId {
    open spec fn has_method_in(&self, m: Module) -> bool {
        self.0 < m.methods@.len()
    }

    open spec fn has_bases_in(&self, m: Module) -> bool {
        base_walk_ends(m, *self)
    }

    open spec fn has_original_in(&self, m: Module) -> bool {
        original_ends(m, *self, m.methods@.len())
    }

    fn body_instructions<'a>(&self, m: &'a Module) -> (code: &'a [RInstruction])
        ensures
            code@ == code_of(m.methods@[self.0 as int]),
    {
        match &m.methods[self.index()].body {
            Some(body) => body.instructions.as_slice(),
            None => &[],
        }
    }

    fn get_parameter(&self, m: &Module, name: &str) -> (r: Option<usize>)
        ensures
            match parameter_from(m.methods@[self.0 as int].parameters@, name@, 0) {
                Some(k) => r is Some && r->Some_0 == k,
                None => r is None,
            },
    {
        let list = &m.methods[self.index()].parameters;
        let n: usize = list.len();
        let mut i: usize = 0;
        while i < n
            invariant
                i <= n,
                n == list@.len(),
                list@ == m.methods@[self.0 as int].parameters@,
                parameter_from(list@, name@, 0) == parameter_from(list@, name@, i as int),
            decreases n - i,
        {
            if text::same(list[i].name.as_str(), name) {
                return Some(i);
            }
            i += 1;
        }
        None
    }

    fn get_base_method(&self, m: &Module) -> (id: MethodId)
        ensures
            id == base_method(*m, *self),
    {
        let d = &m.methods[self.index()];
        if !d.attributes.contains(MethodAttributes::VIRTUAL) || d.attributes.contains(
            MethodAttributes::NEW_SLOT,
        ) {
            return *self;
        }
        let base = &m.types[d.declaring_type.index()].base_type;
        match find_base(m, base, d, Ghost((m.types@.len() + 1) as nat)) {
            Some(found) => found,
            None => *self,
        }
    }

    fn get_original_base_method(&self, m: &Module) -> (id: MethodId)
        ensures
            id == original_from(*m, *self, m.methods@.len()),
    {
        original_of(m, *self, Ghost(m.methods@.len()))
    }
}

/// What going to base methods ends with has no other base method.
pub proof fn original_is_its_own_base(m: Module, id: MethodId, fuel: nat)
    requires
        original_ends(m, id, fuel),
    ensures
        base_method(m, original_from(m, id, fuel)) == original_from(m, id, fuel),
    decreases fuel,
{
    if base_method(m, id) != id {
        original_is_its_own_base(m, base_method(m, id), (fuel - 1) as nat);
    }
}

/// The base method of a method has its name and its signature.
pub proof fn base_method_is_alike(m: Module, id: MethodId)
    requires
        base_walk_ends(m, id),
    ensures
        m.methods@[base_method(m, id).0 as int].name@ == m.methods@[id.0 as int].name@,
        types::signature_view(m.methods@[base_method(m, id).0 as int].signature)
            == types::signature_view(m.methods@[id.0 as int].signature),
{
    let d = m.methods@[id.0 as int];
    if overrides(d) {
        base_is_like(m, m.types@[d.declaring_type.0 as int].base_type, d, m.types@.len() + 1);
    }
}

proof fn base_is_like(m: Module, base: Option<TypeDesc>, needle: MethodDefinition, fuel: nat)
    ensures
        base_from(m, base, needle, fuel) matches Some(found) ==> is_like(m, needle)(found),
    decreases fuel,
{
    if fuel > 0 {
        match base {
            Some(TypeDesc::Def(id)) => {
                first_holds(m.types@[id.0 as int].methods@, is_like(m, needle), 0);
                base_is_like(m, m.types@[id.0 as int].base_type, needle, (fuel - 1) as nat);
            },
            _ => {},
        }
    }
}

proof fn first_holds(list: Seq<MethodId>, p: spec_fn(MethodId) -> bool, i: int)
    ensures
        first_kept(list, p, i) matches Some(found) ==> p(found),
    decreases list.len() - i,
{
    if 0 <= i < list.len() {
        first_holds(list, p, i + 1);
    }
}

/// The place of a parameter.
pub trait ParameterReferenceRocks {
    /// Zero-based index; zero for return parameters too.
    fn index(&self) -> (i: u16);

    /// One-based sequence number; 0 for return parameters.
    fn get_sequence(&self) -> (n: u16);
}

impl ParameterReferenceRocks for Parameter {
    fn index(&self) -> (i: u16)
        ensures
            i == if self.sequence == 0 {
                0
            } else {
                self.sequence - 1
            },
    {
        if self.sequence == 0 {
            0
        } else {
            self.sequence - 1
        }
    }

    fn get_sequence(&self) -> (n: u16)
        ensures
            n == self.sequence,
    {
        self.sequence
    }
}

} // verus!
