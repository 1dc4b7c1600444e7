use cecli::cil::Code;
use cecli::flags::{FieldAttributes, MethodAttributes, TypeAttributes};
use cecli::model::body::{RInstruction, ROperand, ResolvedBody};
use cecli::model::module::{
    FieldDefinition, FieldSignature, MethodDefinition, Module, Parameter, TypeDefinition,
};
use cecli::model::types::{
    AssemblyNameReference, ExternalType, FieldId, GenericParamId, MethodId, ScopeRef, TypeDesc,
    TypeId,
};
use cecli::rocks::reflect::{
    MethodDefinitionRocks, ModuleDefinitionRocks, ParameterReferenceRocks, TypeDefinitionRocks,
    TypeReferenceRocks,
};

fn add_type(m: &mut Module, td: TypeDefinition) -> TypeId {
    m.types.push(td);
    TypeId((m.types.len() - 1) as u32)
}

fn add_method(m: &mut Module, md: MethodDefinition) -> MethodId {
    m.methods.push(md);
    MethodId((m.methods.len() - 1) as u32)
}

fn link(m: &mut Module, parent: TypeId, child: TypeId) {
    m.types[parent.index()].nested_types.push(child);
    m.types[child.index()].declaring_type = Some(parent);
}

fn attach(m: &mut Module, owner: TypeId, method: MethodId) {
    m.types[owner.index()].methods.push(method);
    m.methods[method.index()].declaring_type = owner;
}

fn method(name: &str, attrs: u16) -> MethodDefinition {
    MethodDefinition { name: name.to_string(), attributes: MethodAttributes(attrs), ..Default::default() }
}

/// Synthetic module layout:
/// top-level `NS.Widget` (ctors + methods), top-level `System.Func\`2`
/// (two generic parameters), and the nested chain `NS.Outer > Inner >
/// Deeper` where both levels define a virtual `get_Score`.
fn sample_module() -> Module {
    let mut m = Module::default();
    m.name = "sample.dll".into();

    let widget = add_type(
        &mut m,
        TypeDefinition {
            namespace: "NS".into(),
            name: "Widget".into(),
            attributes: TypeAttributes(TypeAttributes::PUBLIC),
            ..Default::default()
        },
    );
    let func = add_type(
        &mut m,
        TypeDefinition {
            namespace: "System".into(),
            name: "Func`2".into(),
            attributes: TypeAttributes(TypeAttributes::PUBLIC),
            ..Default::default()
        },
    );
    for pos in 0..2u32 {
        m.types[func.index()].generic_parameters.push(GenericParamId(pos));
    }
    let deeper =
        add_type(&mut m, TypeDefinition { name: "Deeper".into(), ..Default::default() });
    let inner = add_type(&mut m, TypeDefinition { name: "Inner".into(), ..Default::default() });
    let outer = add_type(
        &mut m,
        TypeDefinition {
            namespace: "NS".into(),
            name: "Outer".into(),
            attributes: TypeAttributes(TypeAttributes::PUBLIC),
            ..Default::default()
        },
    );
    m.types[inner.index()].base_type = Some(TypeDesc::Def(outer));
    link(&mut m, outer, inner);
    link(&mut m, inner, deeper);

    // Widget members.
    let cctor = add_method(
        &mut m,
        method(
            ".cctor",
            MethodAttributes::PRIVATE
                | MethodAttributes::STATIC
                | MethodAttributes::SPECIAL_NAME
                | MethodAttributes::RTSPECIAL_NAME,
        ),
    );
    attach(&mut m, widget, cctor);
    let ctor = add_method(
        &mut m,
        method(
            ".ctor",
            MethodAttributes::PUBLIC
                | MethodAttributes::SPECIAL_NAME
                | MethodAttributes::RTSPECIAL_NAME,
        ),
    );
    attach(&mut m, widget, ctor);
    let mut do_work = method("DoWork", MethodAttributes::PUBLIC);
    do_work.body = Some(ResolvedBody {
        instructions: vec![
            RInstruction {
                offset: 0,
                opcode: Code::Nop.opcode(),
                operand: ROperand::Empty,
            },
            RInstruction {
                offset: 1,
                opcode: Code::Ret.opcode(),
                operand: ROperand::Empty,
            },
        ],
        ..Default::default()
    });
    do_work.parameters =
        vec![Parameter { name: "amount".into(), sequence: 1, ..Default::default() }];
    let dowork_id = add_method(&mut m, do_work);
    attach(&mut m, widget, dowork_id);

    // Outer declares a virtual `get_Score` (new slot); Inner re-overrides it.
    let outer_get = add_method(
        &mut m,
        method(
            "get_Score",
            MethodAttributes::PUBLIC
                | MethodAttributes::VIRTUAL
                | MethodAttributes::NEW_SLOT
                | MethodAttributes::HIDE_BY_SIG,
        ),
    );
    attach(&mut m, outer, outer_get);
    let inner_get = add_method(
        &mut m,
        method(
            "get_Score",
            MethodAttributes::PUBLIC
                | MethodAttributes::VIRTUAL
                | MethodAttributes::HIDE_BY_SIG,
        ),
    );
    attach(&mut m, inner, inner_get);

    // Private instance ctor on Outer must not count as a default ctor.
    let private_ctor = add_method(
        &mut m,
        method(".ctor", MethodAttributes::PRIVATE | MethodAttributes::SPECIAL_NAME),
    );
    attach(&mut m, outer, private_ctor);

    m
}

#[test]
fn get_all_types_yields_declaring_type_before_nested() {
    let m = sample_module();
    let ids = m.get_all_types();
    let names: Vec<&str> = ids.iter().map(|id| m.types[id.index()].name.as_str()).collect();
    assert_eq!(names, vec!["Widget", "Func`2", "Outer", "Inner", "Deeper"]);
}

#[test]
fn get_type_with_generics_matches_namespace_name_and_arity() {
    let m = sample_module();
    assert_eq!(m.get_type_with_generics("System", "Func", 2), Some(TypeId(1)));
    // Backtick spelling works too.
    assert_eq!(m.get_type_with_generics("System", "Func`2", 2), Some(TypeId(1)));
    assert_eq!(m.get_type_with_generics("System", "Func", 1), None);
    assert_eq!(m.get_type_with_generics("System", "Widget", 2), None);
    assert_eq!(m.get_type_with_generics("Missing", "Func", 2), None);
    // Nested types are not reachable through the module-level lookup.
    assert_eq!(m.get_type_with_generics("", "Inner", 0), None);
}

#[test]
fn get_methods_named_and_nested_and_non_ctor_views() {
    let m = sample_module();
    let widget = TypeId(0);
    let named: Vec<&str> = widget
        .get_methods_named(&m, "DoWork")
        .iter()
        .map(|mid| m.methods[mid.index()].name.as_str())
        .collect();
    assert_eq!(named, vec!["DoWork"]);
    assert!(widget.get_methods_named(&m, "nope").is_empty());

    // Non-constructor view skips both ctors.
    let plain: Vec<&str> =
        widget.get_methods(&m).iter().map(|mid| m.methods[mid.index()].name.as_str()).collect();
    assert_eq!(plain, vec!["DoWork"]);

    let outer = TypeId(4);
    assert_eq!(
        outer.get_nested_types(&m),
        vec![TypeId(3)] // Inner
    );
    assert_eq!(TypeId(3).get_nested_types(&m), vec![TypeId(2)]); // Inner > Deeper
    assert!(TypeId(2).get_nested_types(&m).is_empty()); // Deeper is a leaf
}

#[test]
fn static_constructor_found_by_name_and_flags() {
    let m = sample_module();
    let cctor = TypeId(0).get_static_constructor(&m);
    let md = &m.methods[cctor.expect("static ctor").index()];
    assert_eq!(md.name, ".cctor");
    assert!(md.attributes.contains(MethodAttributes::STATIC));
    assert!(md.attributes.contains(MethodAttributes::SPECIAL_NAME));
    // Types without one yield nothing.
    assert_eq!(TypeId(4).get_static_constructor(&m), None);
}

#[test]
fn default_constructor_skips_private_and_static() {
    let m = sample_module();
    let ctor = TypeId(0).get_default_constructor(&m);
    let md = &m.methods[ctor.expect("public .ctor").index()];
    assert_eq!(md.name, ".ctor");
    assert!(!md.attributes.contains(MethodAttributes::STATIC));
    // Outer only declares a PRIVATE instance ctor — and one lacking
    // RTSPECIAL_NAME is not a constructor at all, so it never shows up
    // in the ctor views either.
    assert_eq!(TypeId(4).get_default_constructor(&m), None);
    assert!(TypeId(4).get_constructors(&m).is_empty());
    let outer_plain: Vec<&str> = TypeId(4)
        .get_methods(&m)
        .iter()
        .map(|mid| m.methods[mid.index()].name.as_str())
        .collect();
    assert!(outer_plain.contains(&".ctor"));
}

#[test]
fn get_enum_underlying_type_returns_first_instance_field_type() {
    let mut m = Module::default();
    let enum_ty = add_type(
        &mut m,
        TypeDefinition { namespace: "NS".into(), name: "Color".into(), ..Default::default() },
    );
    let value_field = FieldDefinition {
        name: "value__".into(),
        attributes: FieldAttributes(FieldAttributes::PUBLIC),
        signature: FieldSignature(TypeDesc::Internal("int32".into())),
    };
    m.fields.push(value_field);
    m.types[enum_ty.index()].fields.push(FieldId((m.fields.len() - 1) as u32));
    let static_field = FieldDefinition {
        name: "Red".into(),
        attributes: FieldAttributes(
            FieldAttributes::PUBLIC | FieldAttributes::STATIC | FieldAttributes::LITERAL,
        ),
        signature: FieldSignature(TypeDesc::Def(enum_ty)),
    };
    m.fields.push(static_field);
    m.types[enum_ty.index()].fields.push(FieldId((m.fields.len() - 1) as u32));

    let underlying = enum_ty
        .get_enum_underlying_type(&m)
        .expect("instance field carries the underlying type");
    assert_eq!(underlying, TypeDesc::Internal("int32".into()));

    // A type with only static fields has no underlying type.
    let empty =
        add_type(&mut m, TypeDefinition { name: "NotAnEnum".into(), ..Default::default() });
    assert!(empty.get_enum_underlying_type(&m).is_err());
}

#[test]
fn make_generic_instance_checks_arity() {
    let m = sample_module();
    let func = TypeId(1);
    let string_t = string_external();
    let ok = func
        .make_generic_instance(&m, vec![string_t.clone(), string_t])
        .expect("arity matches");
    match ok {
        TypeDesc::GenericInstance { definition, arguments } => {
            assert_eq!(*definition, TypeDesc::Def(func));
            assert_eq!(arguments.len(), 2);
        }
        other => panic!("unexpected descriptor: {other:?}"),
    }
    assert!(func.make_generic_instance(&m, vec![string_external()]).is_err());
}

#[test]
fn body_instructions_and_parameter_lookup() {
    let m = sample_module();
    let dowork = TypeId(0).get_methods_named(&m, "DoWork")[0];
    let code = dowork.body_instructions(&m);
    assert_eq!(code.len(), 2);
    assert_eq!(code[0].opcode.name, "nop");

    // Abstract-style member without body yields an empty slice.
    let getscore = TypeId(4).get_methods_named(&m, "get_Score")[0];
    assert!(getscore.body_instructions(&m).is_empty());

    assert_eq!(dowork.get_parameter(&m, "amount"), Some(0));
    assert_eq!(dowork.get_parameter(&m, "missing"), None);
}

#[test]
fn base_method_walks_same_module_chain() {
    let m = sample_module();
    let outer_get = TypeId(4).get_methods_named(&m, "get_Score")[0];
    let inner_get = TypeId(3).get_methods_named(&m, "get_Score")[0];

    // Inner.get_Score is virtual without NewSlot: its base is Outer.get_Score.
    assert_eq!(inner_get.get_base_method(&m), outer_get);
    // Outer.get_Score is new-slot: its own base is itself.
    assert_eq!(outer_get.get_base_method(&m), outer_get);
    // Fixpoint iteration terminates immediately there.
    assert_eq!(inner_get.get_original_base_method(&m), outer_get);

    // A non-virtual method resolves to itself.
    let dowork = TypeId(0).get_methods_named(&m, "DoWork")[0];
    assert_eq!(dowork.get_base_method(&m), dowork);
}

fn string_external() -> TypeDesc {
    TypeDesc::External(Box::new(ExternalType {
        namespace: "System".into(),
        name: "String".into(),
        nesting: Vec::new(),
        scope: ScopeRef::Assembly(assembly_ref("mscorlib")),
    }))
}

fn assembly_ref(name: &str) -> AssemblyNameReference {
    AssemblyNameReference::new(name)
}

#[test]
fn resolve_in_defers_specifications_to_element() {
    let m = sample_module();
    let widget = TypeId(0);
    assert_eq!(TypeDesc::Def(widget).resolve_in(&m), Some(widget));
    assert_eq!(string_external().resolve_in(&m), None);
    // SZARRAY over Def resolves through the element.
    let arr = TypeDesc::Def(widget).make_array_type();
    assert_eq!(arr.resolve_in(&m), Some(widget));
    // Generic instance over Func resolves to Func.
    let inst = TypeDesc::GenericInstance {
        definition: Box::new(TypeDesc::Def(TypeId(1))),
        arguments: vec![string_external(), string_external()],
    };
    assert_eq!(inst.resolve_in(&m), Some(TypeId(1)));
    // Unbound variables never resolve.
    assert_eq!(TypeDesc::Var(0).resolve_in(&m), None);
}

#[test]
fn full_names_match_cecil_spelling() {
    let m = sample_module();
    // Nested definitions join declaring types with '/' under the outermost namespace.
    assert_eq!(TypeDesc::Def(TypeId(2)).full_name_td(&m), "NS.Outer/Inner/Deeper");
    assert_eq!(TypeDesc::Def(TypeId(0)).full_name_td(&m), "NS.Widget");
    // External references carry the scope in brackets.
    assert_eq!(string_external().full_name_td(&m), "[mscorlib]System.String");
    // Generic instances append comma-joined arguments.
    let inst = TypeDesc::GenericInstance {
        definition: Box::new(TypeDesc::Def(TypeId(1))),
        arguments: vec![string_external(), TypeDesc::Def(TypeId(0))],
    };
    assert_eq!(inst.full_name_td(&m), "System.Func`2[[mscorlib]System.String,NS.Widget]");
    // Specifications.
    assert_eq!(TypeDesc::Def(TypeId(0)).make_array_type().full_name_td(&m), "NS.Widget[]");
    assert_eq!(TypeDesc::Def(TypeId(0)).make_pointer_type().full_name_td(&m), "NS.Widget*");
    assert_eq!(TypeDesc::Def(TypeId(0)).make_by_ref_type().full_name_td(&m), "NS.Widget&");
    assert_eq!(TypeDesc::Var(0).full_name_td(&m), "!0");
    assert_eq!(TypeDesc::MVar(1).full_name_td(&m), "!!1");
}

#[test]
fn make_factories_shape_descriptors() {
    let t = string_external();
    let ranked = t.make_array_type_ranked(2).expect("rank 2");
    match &ranked {
        TypeDesc::Array { element, sizes, lobounds } => {
            assert_eq!(**element, t);
            assert_eq!((sizes.len(), lobounds.len()), (2, 2));
            assert!(sizes.iter().all(|&s| s == 0) && lobounds.iter().all(|&l| l == 0));
        }
        other => panic!("unexpected: {other:?}"),
    }
    assert!(t.make_array_type_ranked(0).is_err());

    let modreq = t.make_required_modifier_type(string_external());
    match &modreq {
        TypeDesc::CMod { required, .. } => assert!(*required),
        other => panic!("unexpected: {other:?}"),
    }
    let pinned = t.make_pinned_type();
    assert!(matches!(pinned, TypeDesc::Pinned(_)));
    assert_eq!(t.make_sentinel_type(), TypeDesc::Sentinel);

    let inst = t.make_generic_instance_type(vec![string_external()]).unwrap();
    assert!(matches!(inst, TypeDesc::GenericInstance { .. }));
    assert!(t.make_generic_instance_type(vec![]).is_err());
}

#[test]
fn parameter_sequence_helpers() {
    
    let ret = Parameter { sequence: 0, ..Default::default() };
    let third = Parameter { sequence: 3, ..Default::default() };
    assert_eq!(ret.index(), 0);
    assert_eq!(ret.get_sequence(), 0);
    assert_eq!(third.index(), 2);
    assert_eq!(third.get_sequence(), 3);
}


#[test]
fn full_names_of_other_shapes() {
    let m = sample_module();
    let widget = TypeDesc::Def(TypeId(0));
    assert_eq!(widget.make_pinned_type().full_name_td(&m), "NS.Widget pinned");
    assert_eq!(
        widget.make_required_modifier_type(TypeDesc::TypedByRef).full_name_td(&m),
        "NS.Widget modreq(TypedReference)"
    );
    assert_eq!(
        widget.make_optional_modifier_type(TypeDesc::Sentinel).full_name_td(&m),
        "NS.Widget modopt(SENTINEL)"
    );
    assert_eq!(widget.make_array_type_ranked(2).unwrap().full_name_td(&m), "NS.Widget[0..,0..]");
    let nested = TypeDesc::External(Box::new(ExternalType {
        namespace: String::new(),
        name: "Inner".into(),
        nesting: vec![ExternalType {
            namespace: "A.B".into(),
            name: "Outer".into(),
            nesting: Vec::new(),
            scope: ScopeRef::Moduleless,
        }],
        scope: ScopeRef::ThisModule,
    }));
    assert_eq!(nested.full_name_td(&m), "[sample.dll]A.B.Outer/Inner");
    assert_eq!(TypeDesc::Internal("int32".into()).full_name_td(&m), "int32");
}

#[test]
fn base_method_stops_where_the_chain_leaves_the_module() {
    let mut m = sample_module();
    let inner_get = TypeId(3).get_methods_named(&m, "get_Score")[0];
    m.types[3].base_type = Some(string_external());
    assert_eq!(inner_get.get_base_method(&m), inner_get);
    // Another signature is another method.
    let mut m = sample_module();
    m.methods[inner_get.index()].signature.has_this = true;
    assert_eq!(inner_get.get_base_method(&m), inner_get);
}
