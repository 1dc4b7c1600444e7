//! The arenas of a module.

use vstd::prelude::*;

use crate::flags::{
    EventAttributes, FieldAttributes, MethodAttributes, SignatureCallingConvention, TypeAttributes,
};
use crate::model::body::ResolvedBody;
use crate::model::types::{
    EventId, FieldId, GenericParamId, MethodId, MethodSignature, PropertyId, TypeDesc, TypeId,
};

verus! {

/// A parameter of a method. Its sequence number counts from one; zero is the
/// return parameter.
#[derive(Debug, Clone, PartialEq)]
pub struct Parameter {
    pub name: String,
    pub sequence: u16,
}

impl Default for Parameter {
    fn default() -> (p: Self)
        ensures
            p.name@.len() == 0,
            p.sequence == 0,
    {
        Parameter { name: String::new(), sequence: 0 }
    }
}

/// The type of a field.
#[derive(Debug, Clone, PartialEq)]
pub struct FieldSignature(pub TypeDesc);

/// The signature of a property: the types of its parameters and its own.
#[derive(Debug, Clone, PartialEq)]
pub struct PropertySignature {
    pub has_this: bool,
    pub parameters: Vec<TypeDesc>,
    pub property_type: TypeDesc,
}

/// A defined field.
#[derive(Debug, Clone, PartialEq)]
pub struct FieldDefinition {
    pub name: String,
    pub attributes: FieldAttributes,
    pub signature: FieldSignature,
}

/// A defined property.
#[derive(Debug, Clone, PartialEq)]
pub struct PropertyDefinition {
    pub name: String,
    pub signature: PropertySignature,
}

/// A defined event.
#[derive(Debug, Clone, PartialEq)]
pub struct EventDefinition {
    pub name: String,
    pub attributes: EventAttributes,
}

/// A defined method.
#[derive(Debug, Clone, PartialEq)]
pub struct MethodDefinition {
    pub name: String,
    pub attributes: MethodAttributes,
    pub declaring_type: TypeId,
    pub signature: MethodSignature,
    pub parameters: Vec<Parameter>,
    pub generic_parameters: Vec<GenericParamId>,
    pub body: Option<ResolvedBody>,
}

impl Default for MethodDefinition {
    fn default() -> (m: Self)
        ensures
            m.name@.len() == 0,
            m.attributes.0 == 0,
            m.declaring_type.0 == 0,
            m.signature.parameters@.len() == 0,
            m.signature.return_type is TypedByRef,
            m.parameters@.len() == 0,
            m.generic_parameters@.len() == 0,
            m.body is None,
    {
        MethodDefinition {
            name: String::new(),
            attributes: MethodAttributes(0),
            declaring_type: TypeId(0),
            signature: MethodSignature {
                has_this: false,
                explicit_this: false,
                convention: SignatureCallingConvention::Default,
                generic_count: 0,
                parameters: Vec::new(),
                return_type: TypeDesc::TypedByRef,
                vararg_start: 0,
            },
            parameters: Vec::new(),
            generic_parameters: Vec::new(),
            body: None,
        }
    }
}

/// A defined type.
#[derive(Debug, Clone, PartialEq)]
pub struct TypeDefinition {
    pub namespace: String,
    pub name: String,
    pub attributes: TypeAttributes,
    pub base_type: Option<TypeDesc>,
    /// The type that this one is nested in.
    pub declaring_type: Option<TypeId>,
    pub nested_types: Vec<TypeId>,
    pub methods: Vec<MethodId>,
    pub fields: Vec<FieldId>,
    pub properties: Vec<PropertyId>,
    pub events: Vec<EventId>,
    pub generic_parameters: Vec<GenericParamId>,
}

impl Default for TypeDefinition {
    fn default() -> (t: Self)
        ensures
            t.namespace@.len() == 0,
            t.name@.len() == 0,
            t.attributes.0 == 0,
            t.base_type is None,
            t.declaring_type is None,
            t.nested_types@.len() == 0,
            t.methods@.len() == 0,
            t.fields@.len() == 0,
            t.properties@.len() == 0,
            t.events@.len() == 0,
            t.generic_parameters@.len() == 0,
    {
        TypeDefinition {
            namespace: String::new(),
            name: String::new(),
            attributes: TypeAttributes(0),
            base_type: None,
            declaring_type: None,
            nested_types: Vec::new(),
            methods: Vec::new(),
            fields: Vec::new(),
            properties: Vec::new(),
            events: Vec::new(),
            generic_parameters: Vec::new(),
        }
    }
}

/// A module: arenas that handles point into.
#[derive(Debug, Clone, PartialEq)]
pub struct Module {
    pub name: String,
    pub types: Vec<TypeDefinition>,
    pub methods: Vec<MethodDefinition>,
    pub fields: Vec<FieldDefinition>,
    pub properties: Vec<PropertyDefinition>,
    pub events: Vec<EventDefinition>,
}

impl Default for Module {
    fn default() -> (m: Self)
        ensures
            m.name@.len() == 0,
            m.types@.len() == 0,
            m.methods@.len() == 0,
            m.fields@.len() == 0,
            m.properties@.len() == 0,
            m.events@.len() == 0,
    {
        Module {
            name: String::new(),
            types: Vec::new(),
            methods: Vec::new(),
            fields: Vec::new(),
            properties: Vec::new(),
            events: Vec::new(),
        }
    }
}

} // verus!
