//! Whether two type descriptors say the same.

use vstd::prelude::*;

use crate::model::types;
use crate::model::types::{ExternalType, MethodSignature, ScopeRef, TypeDesc};
use crate::text;

verus! {

broadcast use {crate::model::types::external_views_are, crate::model::types::type_views_are};

fn same_scope(a: &ScopeRef, b: &ScopeRef) -> (r: bool)
    ensures
        r == (a@ == b@),
{
    match (a, b) {
        (ScopeRef::Assembly(x), ScopeRef::Assembly(y)) => text::same(
            x.name.as_str(),
            y.name.as_str(),
        ),
        (ScopeRef::OtherModule(x), ScopeRef::OtherModule(y)) => text::same(
            x.as_str(),
            y.as_str(),
        ),
        (ScopeRef::ThisModule, ScopeRef::ThisModule) => true,
        (ScopeRef::Moduleless, ScopeRef::Moduleless) => true,
        _ => false,
    }
}

fn same_externals(a: &Vec<ExternalType>, b: &Vec<ExternalType>) -> (r: bool)
    ensures
        r == (types::external_views(a@, a@.len()) == types::external_views(b@, b@.len())),
    decreases a@, 1nat,
{
    let ghost all = types::external_views(a@, a@.len());
    let ghost other = types::external_views(b@, b@.len());
    let n: usize = a.len();
    if n != b.len() {
        proof {
            assert(all.len() != other.len());
        }
        return false;
    }
    let mut i: usize = 0;
    while i < n
        invariant
            i <= n,
            n == a@.len(),
            n == b@.len(),
            all == types::external_views(a@, a@.len()),
            other == types::external_views(b@, b@.len()),
            forall|k: int| 0 <= k < i ==> types::external_view(a@[k]) == types::external_view(b@[k]),
        decreases n - i,
    {
        proof {
            assert(all[i as int] == types::external_view(a@[i as int]));
            assert(other[i as int] == types::external_view(b@[i as int]));
        }
        if !same_external(&a[i], &b[i]) {
            return false;
        }
        i += 1;
    }
    proof {
        assert(all =~= other);
    }
    true
}

fn same_external(a: &ExternalType, b: &ExternalType) -> (r: bool)
    ensures
        r == (types::external_view(*a) == types::external_view(*b)),
    decreases *a, 0nat,
{
    text::same(a.namespace.as_str(), b.namespace.as_str()) && text::same(
        a.name.as_str(),
        b.name.as_str(),
    ) && same_externals(&a.nesting, &b.nesting) && same_scope(&a.scope, &b.scope)
}

fn same_numbers(a: &Vec<i32>, b: &Vec<i32>) -> (r: bool)
    ensures
        r == (a@ == b@),
{
    let n: usize = a.len();
    if n != b.len() {
        return false;
    }
    let mut i: usize = 0;
    while i < n
        invariant
            i <= n,
            n == a@.len(),
            n == b@.len(),
            forall|k: int| 0 <= k < i ==> a@[k] == b@[k],
        decreases n - i,
    {
        if a[i] != b[i] {
            return false;
        }
        i += 1;
    }
    proof {
        assert(a@ =~= b@);
    }
    true
}

fn same_types(a: &Vec<TypeDesc>, b: &Vec<TypeDesc>) -> (r: bool)
    ensures
        r == (types::type_views(a@, a@.len()) == types::type_views(b@, b@.len())),
    decreases a@, 1nat,
{
    let ghost all = types::type_views(a@, a@.len());
    let ghost other = types::type_views(b@, b@.len());
    let n: usize = a.len();
    if n != b.len() {
        proof {
            assert(all.len() != other.len());
        }
        return false;
    }
    let mut i: usize = 0;
    while i < n
        invariant
            i <= n,
            n == a@.len(),
            n == b@.len(),
            all == types::type_views(a@, a@.len()),
            other == types::type_views(b@, b@.len()),
            forall|k: int| 0 <= k < i ==> types::type_view(a@[k]) == types::type_view(b@[k]),
        decreases n - i,
    {
        proof {
            assert(all[i as int] == types::type_view(a@[i as int]));
            assert(other[i as int] == types::type_view(b@[i as int]));
        }
        if !same_type(&a[i], &b[i]) {
            return false;
        }
        i += 1;
    }
    proof {
        assert(all =~= other);
    }
    true
}

/// Whether two signatures say the same.
pub(crate) fn same_signature(a: &MethodSignature, b: &MethodSignature) -> (r: bool)
    ensures
        r == (types::signature_view(*a) == types::signature_view(*b)),
    decreases *a, 0nat,
{
    a.has_this == b.has_this && a.explicit_this == b.explicit_this && a.convention == b.convention
        && a.generic_count == b.generic_count && same_types(&a.parameters, &b.parameters)
        && same_type(&a.return_type, &b.return_type) && a.vararg_start == b.vararg_start
}

/// Whether two type descriptors say the same.
pub(crate) fn same_type(a: &TypeDesc, b: &TypeDesc) -> (r: bool)
    ensures
        r == (types::type_view(*a) == types::type_view(*b)),
    decreases *a, 0nat,
{
    match (a, b) {
        (TypeDesc::Def(x), TypeDesc::Def(y)) => x.0 == y.0,
        (TypeDesc::External(x), TypeDesc::External(y)) => same_external(x, y),
        (TypeDesc::SzArray(x), TypeDesc::SzArray(y)) => same_type(x, y),
        (
            TypeDesc::Array { element: x, sizes: s, lobounds: l },
            TypeDesc::Array { element: y, sizes: t, lobounds: k },
        ) => same_type(x, y) && same_numbers(s, t) && same_numbers(l, k),
        (TypeDesc::Ptr(x), TypeDesc::Ptr(y)) => same_type(x, y),
        (TypeDesc::ByRef(x), TypeDesc::ByRef(y)) => same_type(x, y),
        (TypeDesc::Pinned(x), TypeDesc::Pinned(y)) => same_type(x, y),
        (
            TypeDesc::GenericInstance { definition: x, arguments: s },
            TypeDesc::GenericInstance { definition: y, arguments: t },
        ) => same_type(x, y) && same_types(s, t),
        (TypeDesc::Var(x), TypeDesc::Var(y)) => *x == *y,
        (TypeDesc::MVar(x), TypeDesc::MVar(y)) => *x == *y,
        (TypeDesc::FnPtr(x), TypeDesc::FnPtr(y)) => same_signature(x, y),
        (
            TypeDesc::CMod { required: p, modifier: x, unmodified: s },
            TypeDesc::CMod { required: q, modifier: y, unmodified: t },
        ) => *p == *q && same_type(x, y) && same_type(s, t),
        (TypeDesc::Sentinel, TypeDesc::Sentinel) => true,
        (TypeDesc::TypedByRef, TypeDesc::TypedByRef) => true,
        (TypeDesc::Internal(x), TypeDesc::Internal(y)) => text::same(x.as_str(), y.as_str()),
        _ => false,
    }
}

} // verus!
