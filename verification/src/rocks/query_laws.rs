//! Which types and members the queries find, told from the bits and the names of
//! these.

use vstd::prelude::*;

use crate::model::module::{MethodDefinition, Module, Parameter, TypeDefinition};
use crate::model::types;
use crate::model::types::{MethodId, TypeDesc, TypeId};
use crate::rocks::names;
use crate::rocks::reflect;

verus! {

/// A constructor has the bits 11 and 12 of its attributes set and one of two
/// names.
pub proof fn constructor_bits(d: MethodDefinition)
    ensures
        reflect::constructs(d) <==> d.attributes.0 & 0x0800 != 0 && d.attributes.0 & 0x1000 != 0 && (
        d.name@ == ".ctor"@ || d.name@ == ".cctor"@),
{
    let a = d.attributes.0;
    assert((a & 0x1800 == 0x1800) == (a & 0x0800 != 0 && a & 0x1000 != 0)) by (bit_vector);
}

/// The attributes of a method: bit 4 for static ones, the low three bits for who
/// sees it, bit 6 for virtual ones and bit 8 for those with a slot of their own.
pub proof fn method_bits(d: MethodDefinition)
    ensures
        reflect::has_static(d) <==> d.attributes.0 & 0x10 != 0,
        reflect::is_open(d) <==> d.attributes.0 % 8 == 4 || d.attributes.0 % 8 == 5 || d.attributes.0
            % 8 == 6,
        reflect::overrides(d) <==> d.attributes.0 & 0x40 != 0 && d.attributes.0 & 0x100 == 0,
{
    let a = d.attributes.0;
    assert((a & 0x10 == 0x10) == (a & 0x10 != 0) && (a & 0x40 == 0x40) == (a & 0x40 != 0) && (a
        & 0x100 != 0x100) == (a & 0x100 == 0) && a & 7 == a % 8) by (bit_vector);
}

/// The methods that are kept are those for which it holds, in their order.
pub proof fn kept_is_a_filter(list: Seq<MethodId>, p: spec_fn(MethodId) -> bool)
    ensures
        reflect::kept(list, p) == list.filter(p),
    decreases list.len(),
{
    reveal(Seq::filter);
    if list.len() > 0 {
        kept_is_a_filter(list.drop_last(), p);
    }
}

/// What is found first holds, and nothing before it does.
pub proof fn first_kept_is_the_first(list: Seq<MethodId>, p: spec_fn(MethodId) -> bool, k: int)
    ensures
        0 <= k < list.len() && p(list[k]) && (forall|j: int| 0 <= j < k ==> !p(#[trigger] list[j]))
            ==> reflect::first_kept(list, p, 0) == Some(list[k]),
        (forall|j: int| 0 <= j < list.len() ==> !p(#[trigger] list[j])) ==> reflect::first_kept(
            list,
            p,
            0,
        ) is None,
{
    if 0 <= k < list.len() && p(list[k]) && (forall|j: int| 0 <= j < k ==> !p(#[trigger] list[j])) {
        first_kept_from(list, p, 0, k);
    }
    if forall|j: int| 0 <= j < list.len() ==> !p(#[trigger] list[j]) {
        none_kept_from(list, p, 0);
    }
}

proof fn first_kept_from(list: Seq<MethodId>, p: spec_fn(MethodId) -> bool, i: int, k: int)
    requires
        0 <= i <= k < list.len(),
        p(list[k]),
        forall|j: int| 0 <= j < k ==> !p(#[trigger] list[j]),
    ensures
        reflect::first_kept(list, p, i) == Some(list[k]),
    decreases k - i,
{
    if i < k {
        assert(!p(list[i]));
        first_kept_from(list, p, i + 1, k);
    }
}

proof fn none_kept_from(list: Seq<MethodId>, p: spec_fn(MethodId) -> bool, i: int)
    requires
        0 <= i,
        forall|j: int| 0 <= j < list.len() ==> !p(#[trigger] list[j]),
    ensures
        reflect::first_kept(list, p, i) is None,
    decreases list.len() - i,
{
    if i < list.len() {
        assert(!p(list[i]));
        none_kept_from(list, p, i + 1);
    }
}

/// Which methods the queries over a type look for.
pub proof fn method_queries(m: Module, id: MethodId, name: Seq<char>)
    ensures
        ({
            let d = m.methods@[id.0 as int];
            let ctor = d.attributes.0 & 0x0800 != 0 && d.attributes.0 & 0x1000 != 0 && (d.name@
                == ".ctor"@ || d.name@ == ".cctor"@);
            &&& (reflect::is_named(m, name))(id) <==> d.name@ == name
            &&& (reflect::is_ctor(m))(id) <==> ctor
            &&& (reflect::is_plain(m))(id) <==> !ctor
            &&& (reflect::is_static_ctor(m))(id) <==> ctor && d.attributes.0 & 0x10 != 0
            &&& (reflect::is_default_ctor(m))(id) <==> ctor && d.attributes.0 & 0x10 == 0 && (
            d.attributes.0 % 8 == 4 || d.attributes.0 % 8 == 5 || d.attributes.0 % 8 == 6)
        }),
{
    let d = m.methods@[id.0 as int];
    constructor_bits(d);
    method_bits(d);
}

/// A type is found by its namespace, its name without the arity, and its number
/// of generic parameters; nested types are not.
pub proof fn types_by_name(t: TypeDefinition, ns: Seq<char>, name: Seq<char>, arity: nat)
    ensures
        reflect::goes_by(t, ns, name, arity) <==> t.declaring_type is None && t.namespace@ == ns
            && names::simple_name(t.name@) == names::simple_name(name)
            && t.generic_parameters@.len() == arity,
        reflect::goes_by(t, t.namespace@, t.name@, t.generic_parameters@.len())
            <==> t.declaring_type is None,
{
}

/// Of several types that go by a name the first one is found.
pub proof fn first_type_is_found(m: Module, ns: Seq<char>, name: Seq<char>, arity: nat, k: int)
    requires
        0 <= k < m.types@.len(),
        reflect::goes_by(m.types@[k], ns, name, arity),
        forall|j: int| 0 <= j < k ==> !reflect::goes_by(#[trigger] m.types@[j], ns, name, arity),
    ensures
        reflect::type_from(m, ns, name, arity, 0) == Some(k),
{
    first_type_from(m, ns, name, arity, 0, k);
}

proof fn first_type_from(m: Module, ns: Seq<char>, name: Seq<char>, arity: nat, i: int, k: int)
    requires
        0 <= i <= k < m.types@.len(),
        reflect::goes_by(m.types@[k], ns, name, arity),
        forall|j: int| 0 <= j < k ==> !reflect::goes_by(#[trigger] m.types@[j], ns, name, arity),
    ensures
        reflect::type_from(m, ns, name, arity, i) == Some(k),
    decreases k - i,
{
    if i < k {
        assert(!reflect::goes_by(m.types@[i], ns, name, arity));
        first_type_from(m, ns, name, arity, i + 1, k);
    }
}

/// No type is found under a name that none goes by.
pub proof fn missing_types_are_not_found(
    m: Module,
    ns: Seq<char>,
    name: Seq<char>,
    arity: nat,
    i: int,
)
    requires
        0 <= i,
        forall|j: int|
            0 <= j < m.types@.len() ==> !reflect::goes_by(#[trigger] m.types@[j], ns, name, arity),
    ensures
        reflect::type_from(m, ns, name, arity, i) is None,
    decreases m.types@.len() - i,
{
    if i < m.types@.len() {
        assert(!reflect::goes_by(m.types@[i], ns, name, arity));
        missing_types_are_not_found(m, ns, name, arity, i + 1);
    }
}

/// The first instance field is the first one without bit 4 of its attributes.
pub proof fn first_instance_field(m: Module, t: TypeDefinition, k: int)
    requires
        0 <= k < t.fields@.len(),
        m.fields@[t.fields@[k].0 as int].attributes.0 & 0x10 == 0,
        forall|j: int|
            0 <= j < k ==> m.fields@[(#[trigger] t.fields@[j]).0 as int].attributes.0 & 0x10 != 0,
    ensures
        reflect::instance_field_from(m, t, 0) == Some(k),
{
    instance_field_found(m, t, 0, k);
}

proof fn static_bit(a: u16)
    ensures
        (a & 0x10 != 0x10) == (a & 0x10 == 0),
{
    assert((a & 0x10 != 0x10) == (a & 0x10 == 0)) by (bit_vector);
}

proof fn instance_field_found(m: Module, t: TypeDefinition, i: int, k: int)
    requires
        0 <= i <= k < t.fields@.len(),
        m.fields@[t.fields@[k].0 as int].attributes.0 & 0x10 == 0,
        forall|j: int|
            0 <= j < k ==> m.fields@[(#[trigger] t.fields@[j]).0 as int].attributes.0 & 0x10 != 0,
    ensures
        reflect::instance_field_from(m, t, i) == Some(k),
    decreases k - i,
{
    static_bit(m.fields@[t.fields@[i].0 as int].attributes.0);
    if i < k {
        instance_field_found(m, t, i + 1, k);
    }
}

/// A parameter is found by its name, the first one of several.
pub proof fn parameters_by_name(list: Seq<Parameter>, i: int, k: int)
    requires
        0 <= i <= k < list.len(),
        forall|j: int| i <= j < k ==> (#[trigger] list[j]).name@ != list[k].name@,
    ensures
        reflect::parameter_from(list, list[k].name@, i) == Some(k),
    decreases k - i,
{
    if i < k {
        assert(list[i].name@ != list[k].name@);
        parameters_by_name(list, i + 1, k);
    }
}

/// A method that overrides nothing is its own base method; one whose base type
/// has a method like it has that one.
pub proof fn base_methods(m: Module, id: MethodId, base: TypeId, found: MethodId)
    ensures
        ({
            let d = m.methods@[id.0 as int];
            &&& d.attributes.0 & 0x40 == 0 || d.attributes.0 & 0x100 != 0 ==> reflect::base_method(m, id)
                == id
            &&& m.types@[d.declaring_type.0 as int].base_type is None ==> reflect::base_method(m, id)
                == id
            &&& d.attributes.0 & 0x40 != 0 && d.attributes.0 & 0x100 == 0
                && m.types@[d.declaring_type.0 as int].base_type == Some(TypeDesc::Def(base))
                && reflect::like_in(m, base, d) == Some(found) ==> reflect::base_method(m, id) == found
        }),
{
    method_bits(m.methods@[id.0 as int]);
}

/// A method is like another one if it has its name and its signature.
pub proof fn like_methods(m: Module, needle: MethodDefinition, id: MethodId)
    ensures
        (reflect::is_like(m, needle))(id) <==> m.methods@[id.0 as int].name@ == needle.name@
            && types::signature_view(m.methods@[id.0 as int].signature) == types::signature_view(
            needle.signature,
        ),
{
}

/// Without nested types the walk goes over the types in their order.
pub proof fn flat_modules_are_walked_in_order(m: Module, n: nat)
    requires
        n <= m.types@.len() <= u32::MAX,
        forall|k: int|
            0 <= k < m.types@.len() ==> (#[trigger] m.types@[k]).declaring_type is None
                && m.types@[k].nested_types@.len() == 0,
    ensures
        reflect::root_subtrees(m, n) == Seq::new(n, |k: int| TypeId(k as u32)),
    decreases n,
{
    let want = Seq::new(n, |k: int| TypeId(k as u32));
    if n > 0 {
        let front = (n - 1) as nat;
        flat_modules_are_walked_in_order(m, front);
        let id = TypeId(front as u32);
        assert(m.types@[n - 1].declaring_type is None);
        assert(m.types@[n - 1].nested_types@.len() == 0);
        assert(reflect::subtree(m, id, m.types@.len()) =~= seq![id]);
        assert(want =~= Seq::new(front, |k: int| TypeId(k as u32)) + seq![id]);
    } else {
        assert(want =~= Seq::<TypeId>::empty());
    }
}

/// A type comes before the types nested in it, which follow in their order.
pub proof fn nested_types_follow(m: Module, id: TypeId, first: TypeId, second: TypeId, fuel: nat)
    requires
        fuel > 0,
        id.0 < m.types@.len(),
        m.types@[id.0 as int].nested_types@ == seq![first, second],
    ensures
        reflect::subtree(m, id, fuel) == seq![id] + reflect::subtree(m, first, (fuel - 1) as nat)
            + reflect::subtree(m, second, (fuel - 1) as nat),
{
    let f = (fuel - 1) as nat;
    let nested = seq![first, second];
    reveal_with_fuel(reflect::subtrees, 3);
    assert(reflect::subtrees(m, nested, 0, f) =~= Seq::<TypeId>::empty());
    assert(reflect::subtrees(m, nested, 1, f) =~= reflect::subtree(m, first, f));
    assert(reflect::subtrees(m, nested, 2, f) =~= reflect::subtree(m, first, f)
        + reflect::subtree(m, second, f));
    assert(reflect::subtree(m, id, fuel) =~= seq![id] + reflect::subtree(m, first, f)
        + reflect::subtree(m, second, f));
}

/// A base type that has no method like it is passed over for its own base type.
pub proof fn distant_base_methods(
    m: Module,
    id: MethodId,
    base: TypeId,
    farther: TypeId,
    found: MethodId,
)
    requires
        m.types@.len() > 0,
        ({
            let d = m.methods@[id.0 as int];
            &&& d.attributes.0 & 0x40 != 0
            &&& d.attributes.0 & 0x100 == 0
            &&& m.types@[d.declaring_type.0 as int].base_type == Some(TypeDesc::Def(base))
            &&& m.types@[base.0 as int].base_type == Some(TypeDesc::Def(farther))
            &&& reflect::like_in(m, base, d) is None
            &&& reflect::like_in(m, farther, d) == Some(found)
        }),
    ensures
        reflect::base_method(m, id) == found,
{
    let d = m.methods@[id.0 as int];
    method_bits(d);
    reveal_with_fuel(reflect::base_from, 3);
}

/// The original of a method overrides nothing, and methods that override one
/// another have one original.
pub proof fn originals_override_nothing(m: Module, id: MethodId, fuel: nat)
    requires
        reflect::original_ends(m, id, fuel),
    ensures
        ({
            let original = reflect::original_from(m, id, fuel);
            &&& reflect::base_method(m, original) == original
            &&& reflect::base_method(m, id) == id ==> original == id
            &&& reflect::base_method(m, id) != id ==> original == reflect::original_from(
                m,
                reflect::base_method(m, id),
                (fuel - 1) as nat,
            )
        }),
    decreases fuel,
{
    if reflect::base_method(m, id) != id {
        originals_override_nothing(m, reflect::base_method(m, id), (fuel - 1) as nat);
    }
}

} // verus!
