use cecli::flags::{
    EventAttributes, FieldAttributes, MethodAttributes, SignatureCallingConvention,
};
use cecli::model::module::{
    EventDefinition, FieldDefinition, FieldSignature, MethodDefinition, Module, PropertyDefinition,
    PropertySignature, TypeDefinition,
};
use cecli::model::types::{
    EventId, ExternalType, FieldId, GenericParamId, MethodId, MethodSignature, PropertyId, ScopeRef,
    TypeDesc, TypeId,
};
use cecli::rocks::doccomment::{
    event_doc_id, field_doc_id, method_doc_id, property_doc_id, type_doc_id,
};

fn add_type(m: &mut Module, td: TypeDefinition) -> TypeId {
    m.types.push(td);
    TypeId((m.types.len() - 1) as u32)
}

fn add_method(m: &mut Module, owner: TypeId, md: MethodDefinition) -> MethodId {
    let id = MethodId(m.methods.len() as u32);
    m.methods.push(MethodDefinition { declaring_type: owner, ..md });
    m.types[owner.index()].methods.push(id);
    id
}

fn add_field(m: &mut Module, owner: TypeId, fd: FieldDefinition) -> FieldId {
    let id = FieldId(m.fields.len() as u32);
    m.fields.push(fd);
    m.types[owner.index()].fields.push(id);
    id
}

fn add_property(m: &mut Module, owner: TypeId, pd: PropertyDefinition) -> PropertyId {
    let id = PropertyId(m.properties.len() as u32);
    m.properties.push(pd);
    m.types[owner.index()].properties.push(id);
    id
}

fn add_event(m: &mut Module, owner: TypeId, ed: EventDefinition) -> EventId {
    let id = EventId(m.events.len() as u32);
    m.events.push(ed);
    m.types[owner.index()].events.push(id);
    id
}

fn ext(ns: &str, name: &str) -> TypeDesc {
    TypeDesc::External(Box::new(ExternalType {
        namespace: ns.into(),
        name: name.into(),
        nesting: Vec::new(),
        scope: ScopeRef::ThisModule,
    }))
}

/// Nested external leaf: parents outermost-first under `nesting`.
fn nested_ext(ns: &str, parents: &[&str], leaf: &str) -> TypeDesc {
    let mut current = ExternalType {
        namespace: ns.into(),
        name: parents[0].into(),
        nesting: Vec::new(),
        scope: ScopeRef::ThisModule,
    };
    for parent in &parents[1..] {
        current = ExternalType {
            namespace: String::new(),
            name: (*parent).into(),
            nesting: vec![current],
            scope: ScopeRef::ThisModule,
        };
    }
    TypeDesc::External(Box::new(ExternalType {
        namespace: String::new(),
        name: leaf.into(),
        nesting: vec![current],
        scope: ScopeRef::ThisModule,
    }))
}

fn int32() -> TypeDesc {
    ext("System", "Int32")
}

fn sig(params: Vec<TypeDesc>, ret: TypeDesc) -> MethodSignature {
    MethodSignature {
        has_this: true,
        explicit_this: false,
        convention: SignatureCallingConvention::Default,
        generic_count: 0,
        parameters: params,
        return_type: ret,
        vararg_start: 0,
    }
}

#[test]
fn type_ids() {
    let mut m = Module::default();
    let x = add_type(&mut m, TypeDefinition {
        namespace: "N".into(),
        name: "X".into(),
        ..Default::default()
    });
    let inner = add_type(&mut m, TypeDefinition {
        namespace: String::new(),
        name: "Nested".into(),
        declaring_type: Some(x),
        ..Default::default()
    });
    assert_eq!(type_doc_id(&TypeDesc::Def(x), &m), "T:N.X");
    assert_eq!(type_doc_id(&TypeDesc::Def(inner), &m), "T:N.X.Nested");

    // Generic arity survives in definition position.
    let foo = add_type(&mut m, TypeDefinition {
        namespace: "Ns".into(),
        name: "Foo`2".into(),
        ..Default::default()
    });
    assert_eq!(type_doc_id(&TypeDesc::Def(foo), &m), "T:Ns.Foo`2");

    // External nested chain.
    assert_eq!(
        type_doc_id(&nested_ext("N", &["GenericType`1"], "NestedType"), &m),
        "T:N.GenericType`1.NestedType"
    );
}

#[test]
fn method_and_field_and_event_ids() {
    let mut m = Module::default();
    let x = add_type(&mut m, TypeDefinition {
        namespace: "N".into(),
        name: "X".into(),
        ..Default::default()
    });

    let q = add_field(
        &mut m,
        x,
        FieldDefinition {
            name: "q".into(),
            attributes: FieldAttributes::empty(),
            signature: FieldSignature(int32()),
        },
    );
    assert_eq!(field_doc_id(q, &m), "F:N.X.q");

    let d = add_event(
        &mut m,
        x,
        EventDefinition {
            name: "d".into(),
            attributes: EventAttributes::empty(),
        },
    );
    assert_eq!(event_doc_id(d, &m), "E:N.X.d");

    let f = add_method(
        &mut m,
        x,
        MethodDefinition { name: "f".into(), ..Default::default() },
    );
    assert_eq!(method_doc_id(f, &m), "M:N.X.f");

    // ByRef parameters append '@'.
    let bb = add_method(
        &mut m,
        x,
        MethodDefinition {
            name: "bb".into(),
            signature: sig(
                vec![ext("System", "String"), TypeDesc::ByRef(Box::new(int32()))],
                TypeDesc::Internal("void".into()),
            ),
            ..Default::default()
        },
    );
    assert_eq!(method_doc_id(bb, &m), "M:N.X.bb(System.String,System.Int32@)");

    // Arrays: vector `[]`, md-array with zero lower bounds `[0:,0:]`.
    let gg = add_method(
        &mut m,
        x,
        MethodDefinition {
            name: "gg".into(),
            signature: sig(
                vec![
                    TypeDesc::SzArray(Box::new(ext("System", "Int16"))),
                    TypeDesc::Array {
                        element: Box::new(int32()),
                        sizes: vec![],
                        lobounds: vec![0, 0],
                    },
                ],
                TypeDesc::Internal("void".into()),
            ),
            ..Default::default()
        },
    );
    assert_eq!(method_doc_id(gg, &m), "M:N.X.gg(System.Int16[],System.Int32[0:,0:])");
}

#[test]
fn operator_addition_keeps_metadata_name() {
    let mut m = Module::default();
    let x = add_type(&mut m, TypeDefinition {
        namespace: "N".into(),
        name: "X".into(),
        ..Default::default()
    });
    let xd = TypeDesc::Def(x);
    let op = add_method(
        &mut m,
        x,
        MethodDefinition {
            name: "op_Addition".into(),
            attributes: MethodAttributes(MethodAttributes::SPECIAL_NAME | MethodAttributes::STATIC),
            signature: sig(vec![xd.clone(), xd], TypeDesc::Def(x)),
            ..Default::default()
        },
    );
    assert_eq!(method_doc_id(op, &m), "M:N.X.op_Addition(N.X,N.X)");
}

#[test]
fn conversion_operator_appends_return_type() {
    let mut m = Module::default();
    let x = add_type(&mut m, TypeDefinition {
        namespace: "N".into(),
        name: "X".into(),
        ..Default::default()
    });
    let op = add_method(
        &mut m,
        x,
        MethodDefinition {
            name: "op_Explicit".into(),
            attributes: MethodAttributes(MethodAttributes::SPECIAL_NAME | MethodAttributes::STATIC),
            signature: sig(vec![TypeDesc::Def(x)], int32()),
            ..Default::default()
        },
    );
    assert_eq!(method_doc_id(op, &m), "M:N.X.op_Explicit(N.X)~System.Int32");
}

#[test]
fn property_ids_including_indexer() {
    let mut m = Module::default();
    let x = add_type(&mut m, TypeDefinition {
        namespace: "N".into(),
        name: "X".into(),
        ..Default::default()
    });
    let prop = add_property(
        &mut m,
        x,
        PropertyDefinition {
            name: "prop".into(),
            signature: PropertySignature {
                has_this: false,
                parameters: vec![],
                property_type: int32(),
            },
        },
    );
    assert_eq!(property_doc_id(prop, &m), "P:N.X.prop");

    let indexer = add_property(
        &mut m,
        x,
        PropertyDefinition {
            name: "Item".into(),
            signature: PropertySignature {
                has_this: false,
                parameters: vec![ext("System", "String")],
                property_type: int32(),
            },
        },
    );
    assert_eq!(property_doc_id(indexer, &m), "P:N.X.Item(System.String)");
}

#[test]
fn generic_method_with_nested_generic_instance_parameter() {
    let mut m = Module::default();
    let owner = add_type(&mut m, TypeDefinition {
        namespace: "N".into(),
        name: "GenericMethod".into(),
        ..Default::default()
    });

    // void WithNestedType<T>(GenericType<T>.NestedType)
    let meth = add_method(
        &mut m,
        owner,
        MethodDefinition {
            name: "WithNestedType".into(),
            signature: sig(
                vec![
                    // Leaf NestedType whose parent GenericType`1 lives in N.
                    nested_ext("N", &["GenericType`1"], "NestedType"),
                ],
                TypeDesc::Internal("void".into()),
            ),
            ..Default::default()
        },
    );
    m.methods[meth.index()].generic_parameters.push(GenericParamId(0));

    // Instantiate GenericType<T>.NestedType over the method var ``0:
    // arity stripped from the element name, braces carry the argument.
    let param = TypeDesc::GenericInstance {
        definition: Box::new(nested_ext("N", &["GenericType`1"], "NestedType")),
        arguments: vec![TypeDesc::MVar(0)],
    };
    m.methods[meth.index()].signature.parameters = vec![param];
    assert_eq!(
        method_doc_id(meth, &m),
        "M:N.GenericMethod.WithNestedType``1(N.GenericType{``0}.NestedType)"
    );
}

#[test]
fn member_names_are_escaped_and_orphans_keep_their_names() {
    let mut m = Module::default();
    let x = add_type(&mut m, TypeDefinition {
        namespace: "N".into(),
        name: "X".into(),
        ..Default::default()
    });
    let f = add_method(
        &mut m,
        x,
        MethodDefinition { name: "N.IX<N.KVP>.IXA".into(), ..Default::default() },
    );
    assert_eq!(method_doc_id(f, &m), "M:N.X.N#IX{N#KVP}#IXA");

    m.fields.push(FieldDefinition {
        name: "a.b".into(),
        attributes: FieldAttributes::empty(),
        signature: FieldSignature(int32()),
    });
    assert_eq!(field_doc_id(FieldId(0), &m), "F:a#b");
    m.events.push(EventDefinition { name: "e".into(), attributes: EventAttributes::empty() });
    assert_eq!(event_doc_id(EventId(0), &m), "E:e");
}

#[test]
fn signature_shapes_are_spelled_out() {
    let mut m = Module::default();
    let x = add_type(&mut m, TypeDefinition {
        namespace: "N".into(),
        name: "X".into(),
        ..Default::default()
    });
    let pair = TypeDesc::GenericInstance {
        definition: Box::new(ext("N", "Pair`2")),
        arguments: vec![int32(), TypeDesc::Var(1)],
    };
    let array = TypeDesc::Array { element: Box::new(int32()), sizes: vec![5], lobounds: vec![-1, 0] };
    let modified = TypeDesc::CMod {
        required: true,
        modifier: Box::new(ext("N", "Mod")),
        unmodified: Box::new(TypeDesc::Ptr(Box::new(int32()))),
    };
    let pointer = TypeDesc::FnPtr(Box::new(sig(vec![int32()], TypeDesc::TypedByRef)));
    let f = add_method(
        &mut m,
        x,
        MethodDefinition {
            name: "f".into(),
            signature: sig(vec![pair, array, modified, pointer], TypeDesc::Internal("void".into())),
            ..Default::default()
        },
    );
    assert_eq!(
        method_doc_id(f, &m),
        "M:N.X.f(N.Pair{System.Int32,`1},System.Int32[-1:3,0:],System.Int32*|N.Mod,\
         =FUNC:System.TypedByRef(System.Int32))"
    );
    // No bounds at all: a single dimension.
    let bare = TypeDesc::Array { element: Box::new(int32()), sizes: vec![], lobounds: vec![] };
    let optional = TypeDesc::CMod {
        required: false,
        modifier: Box::new(int32()),
        unmodified: Box::new(bare),
    };
    m.methods[f.index()].signature.parameters = vec![optional];
    assert_eq!(method_doc_id(f, &m), "M:N.X.f(System.Int32[:]!System.Int32)");
}

#[test]
fn nested_levels_take_their_own_arguments() {
    let m = Module::default();
    let outer = ExternalType {
        namespace: "N".into(),
        name: "Outer`1".into(),
        nesting: Vec::new(),
        scope: ScopeRef::ThisModule,
    };
    let leaf = TypeDesc::External(Box::new(ExternalType {
        namespace: String::new(),
        name: "Leaf`2".into(),
        nesting: vec![outer],
        scope: ScopeRef::ThisModule,
    }));
    let full = TypeDesc::GenericInstance {
        definition: Box::new(leaf.clone()),
        arguments: vec![TypeDesc::Var(0), TypeDesc::Var(1), TypeDesc::Var(2)],
    };
    assert_eq!(type_doc_id(&full, &m), "T:N.Outer{`0}.Leaf{`1,`2}");
    // Arguments that are missing leave the braces empty.
    let short = TypeDesc::GenericInstance {
        definition: Box::new(leaf),
        arguments: vec![TypeDesc::Var(0)],
    };
    assert_eq!(type_doc_id(&short, &m), "T:N.Outer{`0}.Leaf{}");
}
