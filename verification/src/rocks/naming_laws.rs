//! How types and members are spelled, in documentation ids and in full names.

use vstd::prelude::*;

use crate::model::module::{MethodDefinition, Module};
use crate::model::types;
use crate::model::types::{ExternalView, ScopeView, SignatureView, TypeId, TypeView};
use crate::rocks::doccomment;
use crate::rocks::doccomment::{InstanceView, Member};
use crate::rocks::names;
use crate::rocks::type_reference;
use crate::text;

verus! {

/// Texts are joined with the separator between two of them and nowhere else.
pub proof fn joining(a: Seq<char>, list: Seq<Seq<char>>, separator: Seq<char>)
    ensures
        names::joined(Seq::<Seq<char>>::empty(), separator) == Seq::<char>::empty(),
        names::joined(seq![a], separator) == a,
        list.len() > 0 ==> names::joined(list.push(a), separator) == names::joined(list, separator)
            + separator + a,
{
    let more = list.push(a);
    assert(more.drop_last() =~= list);
    assert(more.last() == a);
}

/// The text holds no backtick.
pub open spec fn tickless(t: Seq<char>) -> bool {
    forall|k: int| 0 <= k < t.len() ==> #[trigger] t[k] != '`'
}

proof fn no_tick(t: Seq<char>, n: int)
    requires
        tickless(t),
        n <= t.len(),
    ensures
        names::tick_before(t, n) is None,
    decreases n,
{
    if n > 0 {
        no_tick(t, n - 1);
    }
}

proof fn tick_found(t: Seq<char>, k: int, n: int)
    requires
        0 <= k < n <= t.len(),
        t[k] == '`',
        forall|j: int| k < j < n ==> #[trigger] t[j] != '`',
    ensures
        names::tick_before(t, n) == Some(k),
    decreases n,
{
    if k < n - 1 {
        tick_found(t, k, n - 1);
    }
}

proof fn decimals_are_digits(v: nat)
    ensures
        names::all_digits(text::decimal(v)),
        names::digits_value(text::decimal(v)) == v,
        text::decimal(v).len() > 0,
    decreases v,
{
    let t = text::decimal(v);
    if v < 10 {
        assert(t.drop_last() =~= Seq::empty());
        assert(names::digits_value(t.drop_last()) == 0);
    } else {
        decimals_are_digits(v / 10);
        assert(t.drop_last() =~= text::decimal(v / 10));
    }
}

/// A name with an arity is the simple name, a backtick and the arity.
pub proof fn generic_names_are_taken_apart(base: Seq<char>, arity: nat)
    requires
        tickless(base),
        base.len() > 0,
        arity <= usize::MAX,
    ensures
        names::stripped(base.push('`') + text::decimal(arity)) == base,
        names::simple_name(base.push('`') + text::decimal(arity)) == base,
        names::arity_of(base.push('`') + text::decimal(arity)) == arity,
{
    decimals_are_digits(arity);
    let digits = text::decimal(arity);
    let name = base.push('`') + digits;
    let k = base.len() as int;
    assert forall|j: int| k < j < name.len() implies #[trigger] name[j] != '`' by {
        assert(name[j] == digits[j - k - 1]);
        assert(names::is_digit(digits[j - k - 1]));
    }
    tick_found(name, k, name.len() as int);
    assert(name.skip(k + 1) =~= digits);
    assert(name.take(k) =~= base);
    assert(names::is_digit(digits[0]));
}

/// A name without a backtick is simple and has no arity.
pub proof fn plain_names_are_kept(name: Seq<char>)
    requires
        tickless(name),
    ensures
        names::stripped(name) == name,
        names::simple_name(name) == name,
        names::arity_of(name) == 0,
{
    no_tick(name, name.len() as int);
}

/// How signatures spell types that are made of others.
pub proof fn signature_spellings(t: TypeView, modifier: TypeView, n: u16, m: Module)
    ensures
        doccomment::signature_text(TypeView::SzArray(Box::new(t)), m) == doccomment::signature_text(
            t,
            m,
        ) + "[]"@,
        doccomment::signature_text(TypeView::ByRef(Box::new(t)), m) == doccomment::signature_text(t, m)
            + "@"@,
        doccomment::signature_text(TypeView::Ptr(Box::new(t)), m) == doccomment::signature_text(t, m)
            + "*"@,
        doccomment::signature_text(TypeView::Pinned(Box::new(t)), m) == doccomment::signature_text(
            t,
            m,
        ),
        doccomment::signature_text(TypeView::Var(n), m) == "`"@ + text::decimal(n as nat),
        doccomment::signature_text(TypeView::MVar(n), m) == "``"@ + text::decimal(n as nat),
        doccomment::signature_text(
            TypeView::CMod {
                required: true,
                modifier: Box::new(modifier),
                unmodified: Box::new(t),
            },
            m,
        ) == doccomment::signature_text(t, m) + "|"@ + doccomment::signature_text(modifier, m),
        doccomment::signature_text(
            TypeView::CMod {
                required: false,
                modifier: Box::new(modifier),
                unmodified: Box::new(t),
            },
            m,
        ) == doccomment::signature_text(t, m) + "!"@ + doccomment::signature_text(modifier, m),
        doccomment::signature_text(TypeView::TypedByRef, m) == "System.TypedByRef"@,
        doccomment::signature_text(TypeView::Sentinel, m).len() == 0,
{
}

/// A dimension of an array is its lower bound and its size less two, as far as
/// they are known, with a colon between them.
pub proof fn dimension_spellings(lo: i32, size: i32)
    ensures
        doccomment::dimension_text(seq![], seq![], 0) == ":"@,
        doccomment::dimension_text(seq![], seq![lo], 0) == text::signed_decimal(lo as int) + ":"@,
        doccomment::dimension_text(seq![size], seq![lo], 0) == text::signed_decimal(lo as int) + ":"@
            + text::signed_decimal(size - 2),
        doccomment::dimension_text(seq![size], seq![], 0) == ":"@ + text::signed_decimal(size - 2),
        doccomment::rank(seq![], seq![]) == 1,
        doccomment::rank(seq![size], seq![lo, lo]) == 2,
        doccomment::rank(seq![size, size], seq![lo]) == 2,
{
    assert(Seq::<char>::empty() + ":"@ + Seq::<char>::empty() =~= ":"@);
    assert(text::signed_decimal(lo as int) + ":"@ + Seq::<char>::empty() =~= text::signed_decimal(
        lo as int,
    ) + ":"@);
    assert(Seq::<char>::empty() + ":"@ + text::signed_decimal(size - 2) =~= ":"@
        + text::signed_decimal(size - 2));
}

/// A type with a namespace is named by it, a dot and its name.
pub proof fn external_spellings(e: ExternalView, m: Module)
    requires
        e.nesting.len() == 0,
    ensures
        e.namespace.len() > 0 ==> doccomment::full_name(TypeView::External(e), m, None)
            == e.namespace.push('.') + e.name,
        e.namespace.len() == 0 ==> doccomment::full_name(TypeView::External(e), m, None) == e.name,
{
    let levels = doccomment::external_levels(e);
    assert(levels.len() == 1);
    assert(levels[0] == doccomment::external_level(e));
    assert(doccomment::levels_text(levels, None, 1, 0) =~= Seq::<char>::empty());
    let one = doccomment::level_text(levels[0], None, 0);
    assert(one + Seq::<char>::empty() + Seq::<char>::empty() =~= one);
    assert(Seq::<char>::empty() + e.name =~= e.name);
}

/// An instance of a type is its name without the arity and the arguments in
/// braces.
pub proof fn instance_spellings(e: ExternalView, base: Seq<char>, a: TypeView, b: TypeView, m: Module)
    requires
        e.nesting.len() == 0,
        e.namespace.len() > 0,
        tickless(base),
        base.len() > 0,
        e.name == base.push('`') + text::decimal(2),
    ensures
        doccomment::signature_text(
            TypeView::GenericInstance {
                definition: Box::new(TypeView::External(e)),
                arguments: seq![a, b],
            },
            m,
        ) == e.namespace.push('.') + base + "{"@ + doccomment::signature_text(a, m) + ","@
            + doccomment::signature_text(b, m) + "}"@,
{
    generic_names_are_taken_apart(base, 2);
    let (x, y) = (doccomment::signature_text(a, m), doccomment::signature_text(b, m));
    let list = seq![a, b];
    reveal_with_fuel(doccomment::signature_texts, 3);
    assert(doccomment::signature_texts(list, m, 0) =~= seq![]);
    assert(doccomment::signature_texts(list, m, 1) =~= seq![x]);
    assert(doccomment::signature_texts(list, m, 2) =~= seq![x, y]);
    let o = InstanceView { nested: false, arguments: seq![x, y] };
    let levels = doccomment::external_levels(e);
    assert(levels.len() == 1);
    assert(levels[0] == doccomment::external_level(e));
    assert(doccomment::levels_text(levels, Some(o), 1, 0) =~= Seq::<char>::empty());
    joining(y, seq![x], ","@);
    joining(x, seq![], ","@);
    assert(seq![x].push(y) =~= seq![x, y]);
    assert(names::joined(seq![x, y], ","@) == x + ","@ + y);
    let t = doccomment::levels_text(levels, Some(o), 0, 0);
    assert(t =~= e.namespace.push('.') + base + "{"@ + x + ","@ + y + "}"@);
    assert(list.len() == 2);
    assert(!doccomment::is_nested(TypeView::External(e), m));
    assert(doccomment::full_name(TypeView::External(e), m, Some(o)) == t);
    let instance = TypeView::GenericInstance {
        definition: Box::new(TypeView::External(e)),
        arguments: list,
    };
    reveal_with_fuel(doccomment::signature_text, 2);
    reveal_with_fuel(doccomment::full_name, 2);
    assert(doccomment::signature_text(instance, m) == doccomment::full_name(
        TypeView::External(e),
        m,
        Some(o),
    ));
}

/// A member name has its dots and its angle brackets replaced.
pub proof fn escaped_names(name: Seq<char>, k: int)
    requires
        0 <= k < name.len(),
    ensures
        doccomment::escaped(name).len() == name.len(),
        name[k] == '.' ==> doccomment::escaped(name)[k] == '#',
        name[k] == '<' ==> doccomment::escaped(name)[k] == '{',
        name[k] == '>' ==> doccomment::escaped(name)[k] == '}',
        name[k] != '.' && name[k] != '<' && name[k] != '>' ==> doccomment::escaped(name)[k] == name[k],
{
}

/// A member is its kind, a colon, the name of its type, a dot and its own name.
pub proof fn member_spellings(kind: char, owner: TypeId, name: Seq<char>, m: Module)
    ensures
        ({
            let t = doccomment::member_text(kind, owner, name, m);
            let n = doccomment::full_name(TypeView::Def(owner), m, None).len();
            &&& t.len() == 3 + n + name.len()
            &&& t[0] == kind
            &&& t[1] == ':'
            &&& t.subrange(2, (2 + n) as int) == doccomment::full_name(
                TypeView::Def(owner),
                m,
                None,
            )
            &&& t[(2 + n) as int] == '.'
            &&& t.skip((3 + n) as int) == doccomment::escaped(name)
        }),
{
    reveal_strlit(".");
    let f = doccomment::full_name(TypeView::Def(owner), m, None);
    let t = doccomment::member_text(kind, owner, name, m);
    assert(t.subrange(2, (2 + f.len()) as int) =~= f);
    assert(t.skip((3 + f.len()) as int) =~= doccomment::escaped(name));
}

/// A conversion operator has bit 11 of its attributes set and one of two names.
pub proof fn conversions(d: MethodDefinition)
    ensures
        doccomment::is_conversion(d) <==> d.attributes.0 & 0x0800 != 0 && (d.name@ == "op_Explicit"@
            || d.name@ == "op_Implicit"@),
{
    let a = d.attributes.0;
    assert((a & 0x0800 == 0x0800) == (a & 0x0800 != 0)) by (bit_vector);
}

/// A method id ends in the number of type parameters, the parameters and, of a
/// conversion, the type that it gives, as far as there are any.
pub proof fn method_spellings(d: MethodDefinition, m: Module)
    ensures
        ({
            let s = types::signature_view(d.signature);
            let front = doccomment::member_text('M', d.declaring_type, d.name@, m);
            let plain = !(d.attributes.0 & 0x0800 != 0 && (d.name@ == "op_Explicit"@ || d.name@
                == "op_Implicit"@));
            let generics = d.generic_parameters@.len();
            &&& generics == 0 && s.parameters.len() == 0 && plain ==> doccomment::method_text(d, m)
                == front
            &&& generics > 0 && s.parameters.len() == 0 && plain ==> doccomment::method_text(d, m)
                == front + "``"@ + text::decimal(generics)
            &&& generics == 0 && s.parameters.len() > 0 && plain ==> doccomment::method_text(d, m)
                == front + doccomment::parameters_text(s.parameters, m)
            &&& generics == 0 && s.parameters.len() > 0 && !plain ==> doccomment::method_text(d, m)
                == front + doccomment::parameters_text(s.parameters, m) + "~"@
                + doccomment::full_name(s.return_type, m, None)
        }),
{
    conversions(d);
    let s = types::signature_view(d.signature);
    let front = doccomment::member_text('M', d.declaring_type, d.name@, m);
    let none = Seq::<char>::empty();
    let generics = d.generic_parameters@.len();
    let suffix = "``"@ + text::decimal(generics);
    let list = doccomment::parameters_text(s.parameters, m);
    let back = "~"@ + doccomment::full_name(s.return_type, m, None);
    assert(front + none + none + none =~= front);
    assert(front + suffix + none + none =~= front + "``"@ + text::decimal(generics));
    assert(front + none + list + none =~= front + list);
    assert(front + none + list + back =~= front + list + "~"@ + doccomment::full_name(
        s.return_type,
        m,
        None,
    ));
}

/// Parameters stand in round brackets with commas between them.
pub proof fn parameter_spellings(a: TypeView, b: TypeView, m: Module)
    ensures
        doccomment::parameters_text(seq![a], m) == "("@ + doccomment::signature_text(a, m) + ")"@,
        doccomment::parameters_text(seq![a, b], m) == "("@ + doccomment::signature_text(a, m) + ","@
            + doccomment::signature_text(b, m) + ")"@,
{
    let (x, y) = (doccomment::signature_text(a, m), doccomment::signature_text(b, m));
    reveal_with_fuel(doccomment::signature_texts, 3);
    assert(doccomment::signature_texts(seq![a], m, 0) =~= seq![]);
    assert(doccomment::signature_texts(seq![a], m, 1) =~= seq![x]);
    assert(doccomment::signature_texts(seq![a, b], m, 0) =~= seq![]);
    assert(doccomment::signature_texts(seq![a, b], m, 1) =~= seq![x]);
    assert(doccomment::signature_texts(seq![a, b], m, 2) =~= seq![x, y]);
    joining(y, seq![x], ","@);
    joining(x, seq![], ","@);
    assert(seq![x].push(y) =~= seq![x, y]);
    assert("("@ + (x + ","@ + y) + ")"@ =~= "("@ + x + ","@ + y + ")"@);
}

/// A field, a property or an event belongs to the first type that lists it; one
/// that no type lists stands alone.
pub proof fn owners(m: Module, member: Member, kind: char, name: Seq<char>, k: int)
    requires
        m.types@.len() <= u32::MAX,
    ensures
        0 <= k < m.types@.len() && doccomment::owns(m.types@[k], member) && (forall|j: int|
            0 <= j < k ==> !doccomment::owns(#[trigger] m.types@[j], member))
            ==> doccomment::owned_text(kind, member, name, m) == doccomment::member_text(
            kind,
            TypeId(k as u32),
            name,
            m,
        ),
        (forall|j: int| 0 <= j < m.types@.len() ==> !doccomment::owns(#[trigger] m.types@[j], member))
            ==> doccomment::owned_text(kind, member, name, m) == seq![kind, ':']
            + doccomment::escaped(name),
{
    if 0 <= k < m.types@.len() && doccomment::owns(m.types@[k], member) && (forall|j: int|
        0 <= j < k ==> !doccomment::owns(#[trigger] m.types@[j], member)) {
        owner_found(m, member, 0, k);
    }
    if forall|j: int| 0 <= j < m.types@.len() ==> !doccomment::owns(#[trigger] m.types@[j], member) {
        no_owner(m, member, 0);
    }
}

proof fn owner_found(m: Module, member: Member, i: int, k: int)
    requires
        0 <= i <= k < m.types@.len(),
        doccomment::owns(m.types@[k], member),
        forall|j: int| 0 <= j < k ==> !doccomment::owns(#[trigger] m.types@[j], member),
    ensures
        doccomment::owner_from(m, member, i) == Some(k),
    decreases k - i,
{
    if i < k {
        assert(!doccomment::owns(m.types@[i], member));
        owner_found(m, member, i + 1, k);
    }
}

proof fn no_owner(m: Module, member: Member, i: int)
    requires
        0 <= i,
        forall|j: int|
            0 <= j < m.types@.len() ==> !doccomment::owns(#[trigger] m.types@[j], member),
    ensures
        doccomment::owner_from(m, member, i) is None,
    decreases m.types@.len() - i,
{
    if i < m.types@.len() {
        assert(!doccomment::owns(m.types@[i], member));
        no_owner(m, member, i + 1);
    }
}

/// How full names spell types that are made of others.
pub proof fn full_name_spellings(t: TypeView, modifier: TypeView, n: u16, m: Module)
    ensures
        type_reference::name_of(TypeView::SzArray(Box::new(t)), m) == type_reference::name_of(t, m)
            + "[]"@,
        type_reference::name_of(TypeView::Ptr(Box::new(t)), m) == type_reference::name_of(t, m) + "*"@,
        type_reference::name_of(TypeView::ByRef(Box::new(t)), m) == type_reference::name_of(t, m)
            + "&"@,
        type_reference::name_of(TypeView::Pinned(Box::new(t)), m) == type_reference::name_of(t, m)
            + " pinned"@,
        type_reference::name_of(TypeView::Var(n), m) == "!"@ + text::decimal(n as nat),
        type_reference::name_of(TypeView::MVar(n), m) == "!!"@ + text::decimal(n as nat),
        type_reference::name_of(
            TypeView::CMod {
                required: true,
                modifier: Box::new(modifier),
                unmodified: Box::new(t),
            },
            m,
        ) == type_reference::name_of(t, m) + " modreq("@ + type_reference::name_of(modifier, m) + ")"@,
        type_reference::name_of(
            TypeView::CMod {
                required: false,
                modifier: Box::new(modifier),
                unmodified: Box::new(t),
            },
            m,
        ) == type_reference::name_of(t, m) + " modopt("@ + type_reference::name_of(modifier, m) + ")"@,
        type_reference::name_of(TypeView::Sentinel, m) == "SENTINEL"@,
        type_reference::name_of(TypeView::TypedByRef, m) == "TypedReference"@,
{
}

/// An external type is named by its scope in square brackets, its namespace and
/// its name.
pub proof fn external_full_names(e: ExternalView, m: Module)
    requires
        e.nesting.len() == 0,
        e.namespace.len() > 0,
    ensures
        e.scope matches ScopeView::Assembly(name) ==> name.len() > 0 ==> type_reference::name_of(
            TypeView::External(e),
            m,
        ) == "["@ + name + "]"@ + e.namespace.push('.') + e.name,
        e.scope matches ScopeView::OtherModule(name) ==> name.len() > 0 ==> type_reference::name_of(
            TypeView::External(e),
            m,
        ) == "["@ + name + "]"@ + e.namespace.push('.') + e.name,
        e.scope is Moduleless ==> type_reference::name_of(TypeView::External(e), m)
            == e.namespace.push('.') + e.name,
        e.scope is ThisModule && m.name@.len() > 0 ==> type_reference::name_of(
            TypeView::External(e),
            m,
        ) == "["@ + m.name@ + "]"@ + e.namespace.push('.') + e.name,
{
    let list = type_reference::external_names(e);
    assert(list =~= seq![e.name]);
    joining(e.name, seq![], "/"@);
    let t = type_reference::name_of(TypeView::External(e), m);
    assert(Seq::<char>::empty() + e.namespace.push('.') + e.name =~= e.namespace.push('.') + e.name);
}

/// Full names of instances: the arguments in square brackets.
pub proof fn instance_full_names(definition: TypeView, a: TypeView, b: TypeView, m: Module)
    ensures
        type_reference::name_of(
            TypeView::GenericInstance {
                definition: Box::new(definition),
                arguments: seq![a, b],
            },
            m,
        ) == type_reference::name_of(definition, m) + "["@ + type_reference::name_of(a, m) + ","@
            + type_reference::name_of(b, m) + "]"@,
{
    let (x, y) = (type_reference::name_of(a, m), type_reference::name_of(b, m));
    reveal_with_fuel(type_reference::names_of, 3);
    assert(type_reference::names_of(seq![a, b], m, 0) =~= seq![]);
    assert(type_reference::names_of(seq![a, b], m, 1) =~= seq![x]);
    assert(type_reference::names_of(seq![a, b], m, 2) =~= seq![x, y]);
    joining(y, seq![x], ","@);
    joining(x, seq![], ","@);
    assert(seq![x].push(y) =~= seq![x, y]);
    let front = type_reference::name_of(definition, m);
    assert(front + "["@ + (x + ","@ + y) + "]"@ =~= front + "["@ + x + ","@ + y + "]"@);
}

/// Only defined types, and what is made over them, can be resolved.
pub proof fn resolution(id: TypeId, e: ExternalView, n: u16, s: SignatureView, arguments: Seq<TypeView>)
    ensures
        type_reference::resolved(TypeView::Def(id)) == Some(id),
        type_reference::resolved(TypeView::External(e)) is None,
        type_reference::resolved(TypeView::Var(n)) is None,
        type_reference::resolved(TypeView::MVar(n)) is None,
        type_reference::resolved(TypeView::FnPtr(Box::new(s))) is None,
        type_reference::resolved(TypeView::Sentinel) is None,
        type_reference::resolved(TypeView::TypedByRef) is None,
        type_reference::resolved(
            TypeView::GenericInstance { definition: Box::new(TypeView::Def(id)), arguments },
        ) == Some(id),
{
}

/// Arrays are named by what they are made of and their dimensions in square
/// brackets, with commas in between and each lower bound behind two dots.
pub proof fn array_full_names(t: TypeView, a: i32, b: i32, x: i32, y: i32, m: Module)
    ensures
        ({
            let name = type_reference::name_of(t, m);
            let element = Box::new(t);
            &&& type_reference::name_of(
                TypeView::Array { element, sizes: seq![x, y], lobounds: seq![] },
                m,
            ) == name + "["@ + ","@ + "]"@
            &&& type_reference::name_of(
                TypeView::Array { element, sizes: seq![x, y], lobounds: seq![a] },
                m,
            ) == name + "["@ + (text::signed_decimal(a as int) + ".."@) + ","@ + "]"@
            &&& type_reference::name_of(
                TypeView::Array { element, sizes: seq![], lobounds: seq![a, b] },
                m,
            ) == name + "["@ + (text::signed_decimal(a as int) + ".."@) + ","@ + (
            text::signed_decimal(b as int) + ".."@) + "]"@
        }),
{
    let name = type_reference::name_of(t, m);
    let p = text::signed_decimal(a as int) + ".."@;
    let q = text::signed_decimal(b as int) + ".."@;
    let none = Seq::<char>::empty();
    pair_is_joined(none, none);
    pair_is_joined(p, none);
    pair_is_joined(p, q);
    assert(type_reference::bounds_texts(seq![x, y], seq![]) =~= seq![none, none]);
    assert(type_reference::bounds_texts(seq![x, y], seq![a]) =~= seq![p, none]);
    assert(type_reference::bounds_texts(seq![], seq![a, b]) =~= seq![p, q]);
    assert(name + "["@ + (none + ","@ + none) + "]"@ =~= name + "["@ + ","@ + "]"@);
    assert(name + "["@ + (p + ","@ + none) + "]"@ =~= name + "["@ + p + ","@ + "]"@);
    assert(name + "["@ + (p + ","@ + q) + "]"@ =~= name + "["@ + p + ","@ + q + "]"@);
}

proof fn pair_is_joined(p: Seq<char>, q: Seq<char>)
    ensures
        names::joined(seq![p, q], ","@) == p + ","@ + q,
{
    joining(q, seq![p], ","@);
    joining(p, seq![], ","@);
    assert(seq![p].push(q) =~= seq![p, q]);
}

/// A function pointer is named by its parameters in brackets and what it returns.
pub proof fn pointer_full_names(s: SignatureView, a: TypeView, b: TypeView, m: Module)
    ensures
        s.parameters == seq![a, b] ==> type_reference::name_of(TypeView::FnPtr(Box::new(s)), m)
            == "fn("@ + (type_reference::name_of(a, m) + ","@ + type_reference::name_of(b, m))
            + ")"@ + type_reference::name_of(s.return_type, m),
        s.parameters.len() == 0 ==> type_reference::name_of(TypeView::FnPtr(Box::new(s)), m)
            == "fn("@ + ")"@ + type_reference::name_of(s.return_type, m),
{
    let (x, y) = (type_reference::name_of(a, m), type_reference::name_of(b, m));
    reveal_with_fuel(type_reference::names_of, 3);
    if s.parameters == seq![a, b] {
        assert(type_reference::names_of(seq![a, b], m, 0) =~= seq![]);
        assert(type_reference::names_of(seq![a, b], m, 1) =~= seq![x]);
        assert(type_reference::names_of(seq![a, b], m, 2) =~= seq![x, y]);
        pair_is_joined(x, y);
    }
    if s.parameters.len() == 0 {
        assert(type_reference::names_of(s.parameters, m, 0) =~= seq![]);
        assert("fn("@ + Seq::<char>::empty() =~= "fn("@);
    }
}

/// A defined type is named by its namespace, a dot and its name; one inside
/// another by the name of this one, a slash and its own.
pub proof fn defined_full_names(m: Module, outer: TypeId, inner: TypeId)
    requires
        outer.0 < m.types@.len(),
        inner.0 < m.types@.len(),
        m.types@.len() > 1,
        m.types@[outer.0 as int].declaring_type is None,
        m.types@[inner.0 as int].declaring_type == Some(outer),
    ensures
        ({
            let t = m.types@[outer.0 as int];
            &&& t.namespace@.len() > 0 ==> type_reference::name_of(TypeView::Def(outer), m)
                == t.namespace@.push('.') + t.name@
            &&& t.namespace@.len() == 0 ==> type_reference::name_of(TypeView::Def(outer), m)
                == t.name@
            &&& type_reference::name_of(TypeView::Def(inner), m) == type_reference::name_of(
                TypeView::Def(outer),
                m,
            ) + "/"@ + m.types@[inner.0 as int].name@
        }),
{
    let t = m.types@[outer.0 as int];
    let name = m.types@[inner.0 as int].name@;
    reveal_with_fuel(names::chain, 3);
    let n = m.types@.len();
    assert(names::chain(m, outer, n) =~= seq![outer]);
    assert(names::chain(m, outer, (n - 1) as nat) =~= seq![outer]);
    assert(names::chain(m, inner, n) =~= seq![outer, inner]);
    assert(type_reference::chain_names(m, seq![outer]) =~= seq![t.name@]);
    assert(type_reference::chain_names(m, seq![outer, inner]) =~= seq![t.name@, name]);
    joining(name, seq![t.name@], "/"@);
    joining(t.name@, seq![], "/"@);
    assert(seq![t.name@].push(name) =~= seq![t.name@, name]);
    let front = doccomment::qualifier(t.namespace@);
    assert(front + (t.name@ + "/"@ + name) =~= front + t.name@ + "/"@ + name);
    assert(Seq::<char>::empty() + t.name@ =~= t.name@);
}

/// Only the last backtick counts, and one in front of everything is part of the
/// name. What stands behind it is the arity if it is a number, with a plus sign or
/// not.
pub proof fn last_backticks_count(base: Seq<char>, rest: Seq<char>, arity: nat)
    requires
        tickless(rest),
        arity <= usize::MAX,
    ensures
        ({
            let name = base.push('`') + rest;
            &&& base.len() > 0 ==> names::stripped(name) == base
            &&& base.len() == 0 ==> names::stripped(name) == name
            &&& rest.len() == 0 ==> names::arity_of(name) == 0
            &&& rest.len() > 0 && !('0' <= rest.last() <= '9') ==> names::arity_of(name) == 0
            &&& rest == seq!['+'] + text::decimal(arity) ==> names::arity_of(name) == arity
        }),
{
    let name = base.push('`') + rest;
    let k = base.len() as int;
    assert forall|j: int| k < j < name.len() implies #[trigger] name[j] != '`' by {
        assert(name[j] == rest[j - k - 1]);
    }
    tick_found(name, k, name.len() as int);
    assert(name.skip(k + 1) =~= rest);
    assert(name.take(k) =~= base);
    if rest.len() > 0 && !('0' <= rest.last() <= '9') {
        if rest.len() > 1 {
            assert(rest.skip(1)[rest.len() - 2] == rest.last());
        }
    }
    if rest == seq!['+'] + text::decimal(arity) {
        decimals_are_digits(arity);
        assert(rest.skip(1) =~= text::decimal(arity));
    }
}

} // verus!
