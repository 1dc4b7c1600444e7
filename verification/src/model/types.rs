//! Type descriptors and signatures.

use vstd::prelude::*;

use crate::flags::SignatureCallingConvention;

verus! {

/// Handle of a defined type: its place in [`crate::model::Module::types`].
#[derive(Debug, Clone, Copy, PartialEq, Eq, Hash, Structural)]
pub struct TypeId(pub u32);

/// Handle of a method: its place in [`crate::model::Module::methods`].
#[derive(Debug, Clone, Copy, PartialEq, Eq, Hash, Structural)]
pub struct MethodId(pub u32);

/// Handle of a field: its place in [`crate::model::Module::fields`].
#[derive(Debug, Clone, Copy, PartialEq, Eq, Hash, Structural)]
pub struct FieldId(pub u32);

/// Handle of a property: its place in [`crate::model::Module::properties`].
#[derive(Debug, Clone, Copy, PartialEq, Eq, Hash, Structural)]
pub struct PropertyId(pub u32);

/// Handle of an event: its place in [`crate::model::Module::events`].
#[derive(Debug, Clone, Copy, PartialEq, Eq, Hash, Structural)]
pub struct EventId(pub u32);

/// Handle of a generic parameter.
#[derive(Debug, Clone, Copy, PartialEq, Eq, Hash, Structural)]
pub struct GenericParamId(pub u32);

impl TypeId {
    /// The place in the arena.
    pub fn index(self) -> (i: usize)
        ensures
            i == self.0,
    {
        self.0 as usize
    }
}

impl MethodId {
    /// The place in the arena.
    pub fn index(self) -> (i: usize)
        ensures
            i == self.0,
    {
        self.0 as usize
    }
}

/// Name of a referenced assembly.
#[derive(Debug, Clone, PartialEq, Eq)]
pub struct AssemblyNameReference {
    pub name: String,
}

impl AssemblyNameReference {
    pub fn new(name: &str) -> (a: Self)
        ensures
            a.name@ == name@,
    {
        AssemblyNameReference { name: name.to_owned() }
    }
}

/// Where an external type lives.
#[derive(Debug, Clone, PartialEq, Eq)]
pub enum ScopeRef {
    Assembly(AssemblyNameReference),
    OtherModule(String),
    ThisModule,
    Moduleless,
}

/// A type that this module only refers to.
#[derive(Debug, PartialEq)]
pub struct ExternalType {
    pub namespace: String,
    pub name: String,
    /// The types around it, outermost first.
    pub nesting: Vec<ExternalType>,
    pub scope: ScopeRef,
}

/// Signature of a method.
#[derive(Debug, PartialEq)]
pub struct MethodSignature {
    pub has_this: bool,
    pub explicit_this: bool,
    pub convention: SignatureCallingConvention,
    pub generic_count: u32,
    pub parameters: Vec<TypeDesc>,
    pub return_type: TypeDesc,
    pub vararg_start: u32,
}

/// A type as signatures spell it.
#[derive(Debug, PartialEq)]
pub enum TypeDesc {
    Def(TypeId),
    External(Box<ExternalType>),
    /// Vector.
    SzArray(Box<TypeDesc>),
    Array { element: Box<TypeDesc>, sizes: Vec<i32>, lobounds: Vec<i32> },
    Ptr(Box<TypeDesc>),
    ByRef(Box<TypeDesc>),
    Pinned(Box<TypeDesc>),
    GenericInstance { definition: Box<TypeDesc>, arguments: Vec<TypeDesc> },
    /// Generic parameter of a type.
    Var(u16),
    /// Generic parameter of a method.
    MVar(u16),
    FnPtr(Box<MethodSignature>),
    CMod { required: bool, modifier: Box<TypeDesc>, unmodified: Box<TypeDesc> },
    /// Where the variable arguments of a call site start.
    Sentinel,
    TypedByRef,
    /// Primitive type, by its name.
    Internal(String),
}

/// What a scope says.
#[verifier::ext_equal]
pub enum ScopeView {
    Assembly(Seq<char>),
    OtherModule(Seq<char>),
    ThisModule,
    Moduleless,
}

impl View for ScopeRef {
    type V = ScopeView;

    open spec fn view(&self) -> ScopeView {
        match *self {
            ScopeRef::Assembly(a) => ScopeView::Assembly(a.name@),
            ScopeRef::OtherModule(n) => ScopeView::OtherModule(n@),
            ScopeRef::ThisModule => ScopeView::ThisModule,
            ScopeRef::Moduleless => ScopeView::Moduleless,
        }
    }
}

/// What an external type says.
#[verifier::ext_equal]
pub struct ExternalView {
    pub namespace: Seq<char>,
    pub name: Seq<char>,
    pub nesting: Seq<ExternalView>,
    pub scope: ScopeView,
}

/// What a signature says.
#[verifier::ext_equal]
pub struct SignatureView {
    pub has_this: bool,
    pub explicit_this: bool,
    pub convention: SignatureCallingConvention,
    pub generic_count: u32,
    pub parameters: Seq<TypeView>,
    pub return_type: TypeView,
    pub vararg_start: u32,
}

/// What a type descriptor says.
#[verifier::ext_equal]
pub enum TypeView {
    Def(TypeId),
    External(ExternalView),
    SzArray(Box<TypeView>),
    Array { element: Box<TypeView>, sizes: Seq<i32>, lobounds: Seq<i32> },
    Ptr(Box<TypeView>),
    ByRef(Box<TypeView>),
    Pinned(Box<TypeView>),
    GenericInstance { definition: Box<TypeView>, arguments: Seq<TypeView> },
    Var(u16),
    MVar(u16),
    FnPtr(Box<SignatureView>),
    CMod { required: bool, modifier: Box<TypeView>, unmodified: Box<TypeView> },
    Sentinel,
    TypedByRef,
    Internal(Seq<char>),
}

/// What the first `n` of some external types say.
pub open spec fn external_views(types: Seq<ExternalType>, n: nat) -> Seq<ExternalView>
    decreases types, n,
{
    if n == 0 || n > types.len() {
        Seq::empty()
    } else {
        external_views(types, (n - 1) as nat).push(external_view(types[n - 1]))
    }
}

/// What an external type says.
pub open spec fn external_view(t: ExternalType) -> ExternalView
    decreases t, 0nat,
{
    ExternalView {
        namespace: t.namespace@,
        name: t.name@,
        nesting: external_views(t.nesting@, t.nesting@.len()),
        scope: t.scope@,
    }
}

impl View for ExternalType {
    type V = ExternalView;

    open spec fn view(&self) -> ExternalView {
        external_view(*self)
    }
}

/// What the first `n` of some type descriptors say.
pub open spec fn type_views(types: Seq<TypeDesc>, n: nat) -> Seq<TypeView>
    decreases types, n,
{
    if n == 0 || n > types.len() {
        Seq::empty()
    } else {
        type_views(types, (n - 1) as nat).push(type_view(types[n - 1]))
    }
}

/// What a signature says.
pub open spec fn signature_view(s: MethodSignature) -> SignatureView
    decreases s, 0nat,
{
    SignatureView {
        has_this: s.has_this,
        explicit_this: s.explicit_this,
        convention: s.convention,
        generic_count: s.generic_count,
        parameters: type_views(s.parameters@, s.parameters@.len()),
        return_type: type_view(s.return_type),
        vararg_start: s.vararg_start,
    }
}

/// What a type descriptor says.
pub open spec fn type_view(t: TypeDesc) -> TypeView
    decreases t, 0nat,
{
    match t {
        TypeDesc::Def(id) => TypeView::Def(id),
        TypeDesc::External(e) => TypeView::External(external_view(*e)),
        TypeDesc::SzArray(e) => TypeView::SzArray(Box::new(type_view(*e))),
        TypeDesc::Array { element, sizes, lobounds } => TypeView::Array {
            element: Box::new(type_view(*element)),
            sizes: sizes@,
            lobounds: lobounds@,
        },
        TypeDesc::Ptr(e) => TypeView::Ptr(Box::new(type_view(*e))),
        TypeDesc::ByRef(e) => TypeView::ByRef(Box::new(type_view(*e))),
        TypeDesc::Pinned(e) => TypeView::Pinned(Box::new(type_view(*e))),
        TypeDesc::GenericInstance { definition, arguments } => TypeView::GenericInstance {
            definition: Box::new(type_view(*definition)),
            arguments: type_views(arguments@, arguments@.len()),
        },
        TypeDesc::Var(n) => TypeView::Var(n),
        TypeDesc::MVar(n) => TypeView::MVar(n),
        TypeDesc::FnPtr(s) => TypeView::FnPtr(Box::new(signature_view(*s))),
        TypeDesc::CMod { required, modifier, unmodified } => TypeView::CMod {
            required,
            modifier: Box::new(type_view(*modifier)),
            unmodified: Box::new(type_view(*unmodified)),
        },
        TypeDesc::Sentinel => TypeView::Sentinel,
        TypeDesc::TypedByRef => TypeView::TypedByRef,
        TypeDesc::Internal(name) => TypeView::Internal(name@),
    }
}

impl View for MethodSignature {
    type V = SignatureView;

    open spec fn view(&self) -> SignatureView {
        signature_view(*self)
    }
}

impl View for TypeDesc {
    type V = TypeView;

    open spec fn view(&self) -> TypeView {
        type_view(*self)
    }
}

/// The views of external types, one by one.
pub broadcast proof fn external_views_are(types: Seq<ExternalType>, n: nat)
    requires
        n <= types.len(),
    ensures
        (#[trigger] external_views(types, n)).len() == n,
        forall|k: int| 0 <= k < n ==> external_views(types, n)[k] == external_view(types[k]),
    decreases n,
{
    if n > 0 {
        external_views_are(types, (n - 1) as nat);
    }
}

/// The views of type descriptors, one by one.
pub broadcast proof fn type_views_are(types: Seq<TypeDesc>, n: nat)
    requires
        n <= types.len(),
    ensures
        (#[trigger] type_views(types, n)).len() == n,
        forall|k: int| 0 <= k < n ==> type_views(types, n)[k] == type_view(types[k]),
    decreases n,
{
    if n > 0 {
        type_views_are(types, (n - 1) as nat);
    }
}

fn copy_scope(s: &ScopeRef) -> (out: ScopeRef)
    ensures
        out@ == s@,
{
    match s {
        ScopeRef::Assembly(a) => ScopeRef::Assembly(
            AssemblyNameReference { name: a.name.as_str().to_owned() },
        ),
        ScopeRef::OtherModule(n) => ScopeRef::OtherModule(n.as_str().to_owned()),
        ScopeRef::ThisModule => ScopeRef::ThisModule,
        ScopeRef::Moduleless => ScopeRef::Moduleless,
    }
}

fn copy_externals(types: &Vec<ExternalType>) -> (out: Vec<ExternalType>)
    ensures
        out@.len() == types@.len(),
        external_views(out@, out@.len()) == external_views(types@, types@.len()),
    decreases types@, 1nat,
{
    broadcast use external_views_are;

    let n: usize = types.len();
    let mut out: Vec<ExternalType> = Vec::new();
    let mut i: usize = 0;
    while i < n
        invariant
            i <= n,
            n == types@.len(),
            out@.len() == i,
            forall|k: int| 0 <= k < i ==> external_view(out@[k]) == external_view(types@[k]),
        decreases n - i,
    {
        out.push(copy_external(&types[i]));
        i += 1;
    }
    proof {
        assert(external_views(out@, out@.len()) =~= external_views(types@, types@.len()));
    }
    out
}

fn copy_external(t: &ExternalType) -> (out: ExternalType)
    ensures
        external_view(out) == external_view(*t),
    decreases *t, 0nat,
{
    ExternalType {
        namespace: t.namespace.as_str().to_owned(),
        name: t.name.as_str().to_owned(),
        nesting: copy_externals(&t.nesting),
        scope: copy_scope(&t.scope),
    }
}

fn copy_numbers(v: &Vec<i32>) -> (out: Vec<i32>)
    ensures
        out@ == v@,
{
    let n: usize = v.len();
    let mut out: Vec<i32> = Vec::new();
    let mut i: usize = 0;
    while i < n
        invariant
            i <= n,
            n == v@.len(),
            out@ == v@.take(i as int),
        decreases n - i,
    {
        out.push(v[i]);
        proof {
            assert(out@ =~= v@.take(i + 1));
        }
        i += 1;
    }
    proof {
        assert(v@.take(n as int) =~= v@);
    }
    out
}

fn copy_types(types: &Vec<TypeDesc>) -> (out: Vec<TypeDesc>)
    ensures
        out@.len() == types@.len(),
        type_views(out@, out@.len()) == type_views(types@, types@.len()),
    decreases types@, 1nat,
{
    broadcast use type_views_are;

    let n: usize = types.len();
    let mut out: Vec<TypeDesc> = Vec::new();
    let mut i: usize = 0;
    while i < n
        invariant
            i <= n,
            n == types@.len(),
            out@.len() == i,
            forall|k: int| 0 <= k < i ==> type_view(out@[k]) == type_view(types@[k]),
        decreases n - i,
    {
        out.push(copy_type(&types[i]));
        i += 1;
    }
    proof {
        assert(type_views(out@, out@.len()) =~= type_views(types@, types@.len()));
    }
    out
}

fn copy_signature(s: &MethodSignature) -> (out: MethodSignature)
    ensures
        signature_view(out) == signature_view(*s),
    decreases *s, 0nat,
{
    MethodSignature {
        has_this: s.has_this,
        explicit_this: s.explicit_this,
        convention: s.convention,
        generic_count: s.generic_count,
        parameters: copy_types(&s.parameters),
        return_type: copy_type(&s.return_type),
        vararg_start: s.vararg_start,
    }
}

fn copy_type(t: &TypeDesc) -> (out: TypeDesc)
    ensures
        type_view(out) == type_view(*t),
    decreases *t, 0nat,
{
    match t {
        TypeDesc::Def(id) => TypeDesc::Def(*id),
        TypeDesc::External(e) => TypeDesc::External(Box::new(copy_external(e))),
        TypeDesc::SzArray(e) => TypeDesc::SzArray(Box::new(copy_type(e))),
        TypeDesc::Array { element, sizes, lobounds } => TypeDesc::Array {
            element: Box::new(copy_type(element)),
            sizes: copy_numbers(sizes),
            lobounds: copy_numbers(lobounds),
        },
        TypeDesc::Ptr(e) => TypeDesc::Ptr(Box::new(copy_type(e))),
        TypeDesc::ByRef(e) => TypeDesc::ByRef(Box::new(copy_type(e))),
        TypeDesc::Pinned(e) => TypeDesc::Pinned(Box::new(copy_type(e))),
        TypeDesc::GenericInstance { definition, arguments } => TypeDesc::GenericInstance {
            definition: Box::new(copy_type(definition)),
            arguments: copy_types(arguments),
        },
        TypeDesc::Var(n) => TypeDesc::Var(*n),
        TypeDesc::MVar(n) => TypeDesc::MVar(*n),
        TypeDesc::FnPtr(s) => TypeDesc::FnPtr(Box::new(copy_signature(s))),
        TypeDesc::CMod { required, modifier, unmodified } => TypeDesc::CMod {
            required: *required,
            modifier: Box::new(copy_type(modifier)),
            unmodified: Box::new(copy_type(unmodified)),
        },
        TypeDesc::Sentinel => TypeDesc::Sentinel,
        TypeDesc::TypedByRef => TypeDesc::TypedByRef,
        TypeDesc::Internal(name) => TypeDesc::Internal(name.as_str().to_owned()),
    }
}

impl Clone for ExternalType {
    fn clone(&self) -> (copy: Self)
        ensures
            copy@ == self@,
    {
        copy_external(self)
    }
}

impl Clone for MethodSignature {
    fn clone(&self) -> (copy: Self)
        ensures
            copy@ == self@,
    {
        copy_signature(self)
    }
}

impl Clone for TypeDesc {
    fn clone(&self) -> (copy: Self)
        ensures
            copy@ == self@,
    {
        copy_type(self)
    }
}

} // verus!
