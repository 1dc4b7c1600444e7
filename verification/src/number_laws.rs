//! The numbers and the names that the metadata format gives to its kinds, and the
//! bits of its flag words.

use vstd::prelude::*;

use crate::element::{ElementType, VariantType};
use crate::error;
use crate::error::ErrorKind;
use crate::flags;
use crate::flags::{
    AssemblyAttributes, AssemblyHashAlgorithm, EventAttributes, FieldAttributes, FileRowAttributes, GenericParameterAttributes, ManifestResourceAttributes, MethodAttributes, MethodImplAttributes, MethodSemanticsAttributes, ModuleAttributes, ModuleCharacteristics, PInvokeAttributes, ParameterAttributes, PropertyAttributes, SecurityAction, SignatureCallingConvention, TargetArchitecture, TypeAttributes,
};
use crate::token;
use crate::token::{TableIndex, Token, TokenType};

verus! {

/// The element types by their numbers.
pub proof fn element_numbers()
    ensures
        ElementType::End.number() == 0x00,
        ElementType::Void.number() == 0x01,
        ElementType::Boolean.number() == 0x02,
        ElementType::Char.number() == 0x03,
        ElementType::I1.number() == 0x04,
        ElementType::U1.number() == 0x05,
        ElementType::I2.number() == 0x06,
        ElementType::U2.number() == 0x07,
        ElementType::I4.number() == 0x08,
        ElementType::U4.number() == 0x09,
        ElementType::I8.number() == 0x0A,
        ElementType::U8.number() == 0x0B,
        ElementType::R4.number() == 0x0C,
        ElementType::R8.number() == 0x0D,
        ElementType::String.number() == 0x0E,
        ElementType::Ptr.number() == 0x0F,
        ElementType::ByRef.number() == 0x10,
        ElementType::ValueType.number() == 0x11,
        ElementType::Class.number() == 0x12,
        ElementType::Var.number() == 0x13,
        ElementType::Array.number() == 0x14,
        ElementType::GenericInst.number() == 0x15,
        ElementType::TypedByRef.number() == 0x16,
        ElementType::I.number() == 0x18,
        ElementType::U.number() == 0x19,
        ElementType::FnPtr.number() == 0x1B,
        ElementType::Object.number() == 0x1C,
        ElementType::SzArray.number() == 0x1D,
        ElementType::MVar.number() == 0x1E,
        ElementType::CmodReqd.number() == 0x1F,
        ElementType::CmodOpt.number() == 0x20,
        ElementType::Internal.number() == 0x21,
        ElementType::Module.number() == 0x39,
        ElementType::Sentinel.number() == 0x41,
        ElementType::Pinned.number() == 0x45,
{
}

/// The variant types by their numbers.
pub proof fn variant_numbers()
    ensures
        VariantType::Empty.number() == 0x00,
        VariantType::Null.number() == 0x01,
        VariantType::Boolean.number() == 0x02,
        VariantType::Char.number() == 0x03,
        VariantType::I1.number() == 0x04,
        VariantType::U1.number() == 0x05,
        VariantType::I2.number() == 0x06,
        VariantType::U2.number() == 0x07,
        VariantType::I4.number() == 0x08,
        VariantType::U4.number() == 0x09,
        VariantType::I8.number() == 0x0A,
        VariantType::U8.number() == 0x0B,
        VariantType::R4.number() == 0x0C,
        VariantType::R8.number() == 0x0D,
        VariantType::String.number() == 0x14,
        VariantType::Ptr.number() == 0x26,
        VariantType::Int.number() == 0x16,
        VariantType::UInt.number() == 0x17,
        VariantType::Currency.number() == 0x06_00,
        VariantType::Date.number() == 0x07_00,
        VariantType::BStr.number() == 0x08_00,
        VariantType::Dispatch.number() == 0x09_00,
        VariantType::Error.number() == 0x0A_00,
        VariantType::Bool.number() == 0x0B_00,
        VariantType::Variant.number() == 0x0C_00,
        VariantType::Unknown.number() == 0x0D_00,
        VariantType::Decimal.number() == 0x0E_00,
        VariantType::Void.number() == 0x18_00,
        VariantType::HResult.number() == 0x19_00,
        VariantType::SafeArray.number() == 0x1B_00,
        VariantType::CArray.number() == 0x1C_00,
        VariantType::UserDefined.number() == 0x1D_00,
        VariantType::Record.number() == 0x24_00,
        VariantType::FileTime.number() == 0x40_00,
        VariantType::Blob.number() == 0x41_00,
        VariantType::Stream.number() == 0x42_00,
        VariantType::Storage.number() == 0x43_00,
        VariantType::StreamedObject.number() == 0x44_00,
        VariantType::StoredObject.number() == 0x45_00,
        VariantType::BlobObject.number() == 0x46_00,
        VariantType::Clsid.number() == 0x48_00,
{
}

/// The primitive types are those from `Boolean` to `R8` and the two native
/// integers.
pub proof fn primitive_numbers(t: ElementType)
    ensures
        t.primitive() <==> 0x02 <= t.number() <= 0x0D || t.number() == 0x18 || t.number() == 0x19,
{
}

/// The variants with the numbers of element types up to `R8` stand for these
/// element types; a few others stand for one of them.
pub proof fn variants_of_elements(v: VariantType, t: ElementType)
    ensures
        0x02 <= v.number() <= 0x0D ==> v.element() is Some && v.element()->Some_0.number()
            == v.number(),
        v == VariantType::Bool ==> v.element() == Some(ElementType::Boolean),
        v == VariantType::Int || v == VariantType::Error || v == VariantType::HResult
            ==> v.element() == Some(ElementType::I4),
        v == VariantType::UInt ==> v.element() == Some(ElementType::U4),
        v == VariantType::String || v == VariantType::BStr ==> v.element() == Some(
            ElementType::String,
        ),
        v.element() is Some ==> 0x02 <= v.number() <= 0x0D || v == VariantType::Bool || v
            == VariantType::Int || v == VariantType::Error || v == VariantType::HResult || v
            == VariantType::UInt || v == VariantType::String || v == VariantType::BStr,
        0x02 <= t.number() <= 0x0D ==> VariantType::of_element(t) is Some
            && VariantType::of_element(t)->Some_0.number() == t.number(),
        t == ElementType::String ==> VariantType::of_element(t) == Some(VariantType::String),
        VariantType::of_element(t) is Some ==> 0x02 <= t.number() <= 0x0E,
{
}

/// The value of a kind of token is that of row 0 of the table with its name.
pub proof fn token_kinds()
    ensures
        TokenType::Module.base() == token::token_of(TableIndex::Module, 0).0,
        TokenType::TypeRef.base() == token::token_of(TableIndex::TypeRef, 0).0,
        TokenType::TypeDef.base() == token::token_of(TableIndex::TypeDef, 0).0,
        TokenType::Field.base() == token::token_of(TableIndex::Field, 0).0,
        TokenType::MethodDef.base() == token::token_of(TableIndex::MethodDef, 0).0,
        TokenType::Param.base() == token::token_of(TableIndex::Param, 0).0,
        TokenType::InterfaceImpl.base() == token::token_of(TableIndex::InterfaceImpl, 0).0,
        TokenType::MemberRef.base() == token::token_of(TableIndex::MemberRef, 0).0,
        TokenType::Constant.base() == token::token_of(TableIndex::Constant, 0).0,
        TokenType::CustomAttribute.base() == token::token_of(TableIndex::CustomAttribute, 0).0,
        TokenType::FieldMarshal.base() == token::token_of(TableIndex::FieldMarshal, 0).0,
        TokenType::DeclSecurity.base() == token::token_of(TableIndex::DeclSecurity, 0).0,
        TokenType::ClassLayout.base() == token::token_of(TableIndex::ClassLayout, 0).0,
        TokenType::FieldLayout.base() == token::token_of(TableIndex::FieldLayout, 0).0,
        TokenType::StandAloneSig.base() == token::token_of(TableIndex::StandAloneSig, 0).0,
        TokenType::EventMap.base() == token::token_of(TableIndex::EventMap, 0).0,
        TokenType::Event.base() == token::token_of(TableIndex::Event, 0).0,
        TokenType::PropertyMap.base() == token::token_of(TableIndex::PropertyMap, 0).0,
        TokenType::Property.base() == token::token_of(TableIndex::Property, 0).0,
        TokenType::MethodSemantics.base() == token::token_of(TableIndex::MethodSemantics, 0).0,
        TokenType::MethodImpl.base() == token::token_of(TableIndex::MethodImpl, 0).0,
        TokenType::ModuleRef.base() == token::token_of(TableIndex::ModuleRef, 0).0,
        TokenType::TypeSpec.base() == token::token_of(TableIndex::TypeSpec, 0).0,
        TokenType::ImplMap.base() == token::token_of(TableIndex::ImplMap, 0).0,
        TokenType::FieldRva.base() == token::token_of(TableIndex::FieldRva, 0).0,
        TokenType::Assembly.base() == token::token_of(TableIndex::Assembly, 0).0,
        TokenType::AssemblyProcessor.base() == token::token_of(TableIndex::AssemblyProcessor, 0).0,
        TokenType::AssemblyOS.base() == token::token_of(TableIndex::AssemblyOS, 0).0,
        TokenType::AssemblyRef.base() == token::token_of(TableIndex::AssemblyRef, 0).0,
        TokenType::AssemblyRefProcessor.base() == token::token_of(TableIndex::AssemblyRefProcessor, 0).0,
        TokenType::AssemblyRefOS.base() == token::token_of(TableIndex::AssemblyRefOS, 0).0,
        TokenType::File.base() == token::token_of(TableIndex::File, 0).0,
        TokenType::ExportedType.base() == token::token_of(TableIndex::ExportedType, 0).0,
        TokenType::ManifestResource.base() == token::token_of(TableIndex::ManifestResource, 0).0,
        TokenType::NestedClass.base() == token::token_of(TableIndex::NestedClass, 0).0,
        TokenType::GenericParam.base() == token::token_of(TableIndex::GenericParam, 0).0,
        TokenType::MethodSpec.base() == token::token_of(TableIndex::MethodSpec, 0).0,
        TokenType::GenericParamConstraint.base() == token::token_of(TableIndex::GenericParamConstraint, 0).0,
{
}

/// The names of the tables.
pub proof fn table_names()
    ensures
        TableIndex::Module.label() == "Module"@,
        TableIndex::TypeRef.label() == "TypeRef"@,
        TableIndex::TypeDef.label() == "TypeDef"@,
        TableIndex::FieldPtr.label() == "FieldPtr"@,
        TableIndex::Field.label() == "Field"@,
        TableIndex::MethodPtr.label() == "MethodPtr"@,
        TableIndex::MethodDef.label() == "MethodDef"@,
        TableIndex::ParamPtr.label() == "ParamPtr"@,
        TableIndex::Param.label() == "Param"@,
        TableIndex::InterfaceImpl.label() == "InterfaceImpl"@,
        TableIndex::MemberRef.label() == "MemberRef"@,
        TableIndex::Constant.label() == "Constant"@,
        TableIndex::CustomAttribute.label() == "CustomAttribute"@,
        TableIndex::FieldMarshal.label() == "FieldMarshal"@,
        TableIndex::DeclSecurity.label() == "DeclSecurity"@,
        TableIndex::ClassLayout.label() == "ClassLayout"@,
        TableIndex::FieldLayout.label() == "FieldLayout"@,
        TableIndex::StandAloneSig.label() == "StandAloneSig"@,
        TableIndex::EventMap.label() == "EventMap"@,
        TableIndex::EventPtr.label() == "EventPtr"@,
        TableIndex::Event.label() == "Event"@,
        TableIndex::PropertyMap.label() == "PropertyMap"@,
        TableIndex::PropertyPtr.label() == "PropertyPtr"@,
        TableIndex::Property.label() == "Property"@,
        TableIndex::MethodSemantics.label() == "MethodSemantics"@,
        TableIndex::MethodImpl.label() == "MethodImpl"@,
        TableIndex::ModuleRef.label() == "ModuleRef"@,
        TableIndex::TypeSpec.label() == "TypeSpec"@,
        TableIndex::ImplMap.label() == "ImplMap"@,
        TableIndex::FieldRva.label() == "FieldRVA"@,
        TableIndex::EncLog.label() == "EncLog"@,
        TableIndex::EncMap.label() == "EncMap"@,
        TableIndex::Assembly.label() == "Assembly"@,
        TableIndex::AssemblyProcessor.label() == "AssemblyProcessor"@,
        TableIndex::AssemblyOS.label() == "AssemblyOS"@,
        TableIndex::AssemblyRef.label() == "AssemblyRef"@,
        TableIndex::AssemblyRefProcessor.label() == "AssemblyRefProcessor"@,
        TableIndex::AssemblyRefOS.label() == "AssemblyRefOS"@,
        TableIndex::File.label() == "File"@,
        TableIndex::ExportedType.label() == "ExportedType"@,
        TableIndex::ManifestResource.label() == "ManifestResource"@,
        TableIndex::NestedClass.label() == "NestedClass"@,
        TableIndex::GenericParam.label() == "GenericParam"@,
        TableIndex::MethodSpec.label() == "MethodSpec"@,
        TableIndex::GenericParamConstraint.label() == "GenericParamConstraint"@,
        TableIndex::Document.label() == "Document"@,
        TableIndex::MethodDebugInformation.label() == "MethodDebugInformation"@,
        TableIndex::LocalScope.label() == "LocalScope"@,
        TableIndex::LocalVariable.label() == "LocalVariable"@,
        TableIndex::LocalConstant.label() == "LocalConstant"@,
        TableIndex::ImportScope.label() == "ImportScope"@,
        TableIndex::StateMachineMethod.label() == "StateMachineMethod"@,
        TableIndex::CustomDebugInformation.label() == "CustomDebugInformation"@,
{
}

/// A token is the number of its table in the high byte and the row in the other
/// three.
pub proof fn token_bits(t: Token, table: TableIndex, rid: u32)
    ensures
        t.table_number() as u32 == t.0 >> 24,
        t.row() == t.0 & 0x00FF_FFFF,
        token::token_of(table, rid).0 == ((table.number() as u32) << 24) | (rid & 0x00FF_FFFF),
{
    let v = t.0;
    let n = table.number() as u32;
    assert(v >> 24 == v / 0x100_0000 && v & 0x00FF_FFFF == v % 0x100_0000 && rid & 0x00FF_FFFF
        == rid % 0x100_0000 && (n <= 0xFF ==> (n << 24) | (rid & 0x00FF_FFFF) == n * 0x100_0000
        + rid % 0x100_0000)) by (bit_vector);
}

/// The numbers of the tables end at `0x2C`; from `0x30` to `0x37` are those of
/// debug information.
pub proof fn table_number_ranges(v: u8)
    ensures
        token::is_table_number(v) <==> exists|t: TableIndex| #[trigger] t.number() == v,
        token::is_table_number(v) <==> v < 0x2D || (0x30 <= v && v < 0x38),
{
    if token::is_table_number(v) {
        if v == 0x00 {
            assert(TableIndex::Module.number() == v);
        }
        else if v == 0x01 {
            assert(TableIndex::TypeRef.number() == v);
        }
        else if v == 0x02 {
            assert(TableIndex::TypeDef.number() == v);
        }
        else if v == 0x03 {
            assert(TableIndex::FieldPtr.number() == v);
        }
        else if v == 0x04 {
            assert(TableIndex::Field.number() == v);
        }
        else if v == 0x05 {
            assert(TableIndex::MethodPtr.number() == v);
        }
        else if v == 0x06 {
            assert(TableIndex::MethodDef.number() == v);
        }
        else if v == 0x07 {
            assert(TableIndex::ParamPtr.number() == v);
        }
        else if v == 0x08 {
            assert(TableIndex::Param.number() == v);
        }
        else if v == 0x09 {
            assert(TableIndex::InterfaceImpl.number() == v);
        }
        else if v == 0x0A {
            assert(TableIndex::MemberRef.number() == v);
        }
        else if v == 0x0B {
            assert(TableIndex::Constant.number() == v);
        }
        else if v == 0x0C {
            assert(TableIndex::CustomAttribute.number() == v);
        }
        else if v == 0x0D {
            assert(TableIndex::FieldMarshal.number() == v);
        }
        else if v == 0x0E {
            assert(TableIndex::DeclSecurity.number() == v);
        }
        else if v == 0x0F {
            assert(TableIndex::ClassLayout.number() == v);
        }
        else if v == 0x10 {
            assert(TableIndex::FieldLayout.number() == v);
        }
        else if v == 0x11 {
            assert(TableIndex::StandAloneSig.number() == v);
        }
        else if v == 0x12 {
            assert(TableIndex::EventMap.number() == v);
        }
        else if v == 0x13 {
            assert(TableIndex::EventPtr.number() == v);
        }
        else if v == 0x14 {
            assert(TableIndex::Event.number() == v);
        }
        else if v == 0x15 {
            assert(TableIndex::PropertyMap.number() == v);
        }
        else if v == 0x16 {
            assert(TableIndex::PropertyPtr.number() == v);
        }
        else if v == 0x17 {
            assert(TableIndex::Property.number() == v);
        }
        else if v == 0x18 {
            assert(TableIndex::MethodSemantics.number() == v);
        }
        else if v == 0x19 {
            assert(TableIndex::MethodImpl.number() == v);
        }
        else if v == 0x1A {
            assert(TableIndex::ModuleRef.number() == v);
        }
        else if v == 0x1B {
            assert(TableIndex::TypeSpec.number() == v);
        }
        else if v == 0x1C {
            assert(TableIndex::ImplMap.number() == v);
        }
        else if v == 0x1D {
            assert(TableIndex::FieldRva.number() == v);
        }
        else if v == 0x1E {
            assert(TableIndex::EncLog.number() == v);
        }
        else if v == 0x1F {
            assert(TableIndex::EncMap.number() == v);
        }
        else if v == 0x20 {
            assert(TableIndex::Assembly.number() == v);
        }
        else if v == 0x21 {
            assert(TableIndex::AssemblyProcessor.number() == v);
        }
        else if v == 0x22 {
            assert(TableIndex::AssemblyOS.number() == v);
        }
        else if v == 0x23 {
            assert(TableIndex::AssemblyRef.number() == v);
        }
        else if v == 0x24 {
            assert(TableIndex::AssemblyRefProcessor.number() == v);
        }
        else if v == 0x25 {
            assert(TableIndex::AssemblyRefOS.number() == v);
        }
        else if v == 0x26 {
            assert(TableIndex::File.number() == v);
        }
        else if v == 0x27 {
            assert(TableIndex::ExportedType.number() == v);
        }
        else if v == 0x28 {
            assert(TableIndex::ManifestResource.number() == v);
        }
        else if v == 0x29 {
            assert(TableIndex::NestedClass.number() == v);
        }
        else if v == 0x2A {
            assert(TableIndex::GenericParam.number() == v);
        }
        else if v == 0x2B {
            assert(TableIndex::MethodSpec.number() == v);
        }
        else if v == 0x2C {
            assert(TableIndex::GenericParamConstraint.number() == v);
        }
        else if v == 0x30 {
            assert(TableIndex::Document.number() == v);
        }
        else if v == 0x31 {
            assert(TableIndex::MethodDebugInformation.number() == v);
        }
        else if v == 0x32 {
            assert(TableIndex::LocalScope.number() == v);
        }
        else if v == 0x33 {
            assert(TableIndex::LocalVariable.number() == v);
        }
        else if v == 0x34 {
            assert(TableIndex::LocalConstant.number() == v);
        }
        else if v == 0x35 {
            assert(TableIndex::ImportScope.number() == v);
        }
        else if v == 0x36 {
            assert(TableIndex::StateMachineMethod.number() == v);
        }
        else if v == 0x37 {
            assert(TableIndex::CustomDebugInformation.number() == v);
        }
    }
}

/// The values of `AssemblyHashAlgorithm` by their numbers.
pub proof fn assembly_hash_algorithm_numbers()
    ensures
        AssemblyHashAlgorithm::NoHash.number() == 0,
        AssemblyHashAlgorithm::Md5.number() == 0x8003,
        AssemblyHashAlgorithm::Sha1.number() == 0x8004,
        AssemblyHashAlgorithm::Sha256.number() == 0x800C,
        AssemblyHashAlgorithm::Sha384.number() == 0x800D,
        AssemblyHashAlgorithm::Sha512.number() == 0x800E,
{
}

/// The values of `SecurityAction` by their numbers.
pub proof fn security_action_numbers()
    ensures
        SecurityAction::Request.number() == 1,
        SecurityAction::Demand.number() == 2,
        SecurityAction::Assert.number() == 3,
        SecurityAction::Deny.number() == 4,
        SecurityAction::PermitOnly.number() == 5,
        SecurityAction::LinkDemand.number() == 6,
        SecurityAction::InheritanceDemand.number() == 7,
        SecurityAction::RequestMinimum.number() == 8,
        SecurityAction::RequestOptional.number() == 9,
        SecurityAction::RequestRefuse.number() == 10,
        SecurityAction::PreJitGrant.number() == 11,
        SecurityAction::PreJitDeny.number() == 12,
        SecurityAction::NonCasDemand.number() == 13,
        SecurityAction::NonCasLinkDemand.number() == 14,
        SecurityAction::NonCasInheritance.number() == 15,
{
}

/// The values of `SignatureCallingConvention` by their numbers.
pub proof fn signature_calling_convention_numbers()
    ensures
        SignatureCallingConvention::Default.number() == 0x0,
        SignatureCallingConvention::C.number() == 0x1,
        SignatureCallingConvention::StdCall.number() == 0x2,
        SignatureCallingConvention::ThisCall.number() == 0x3,
        SignatureCallingConvention::FastCall.number() == 0x4,
        SignatureCallingConvention::VarArg.number() == 0x5,
        SignatureCallingConvention::Field.number() == 0x6,
        SignatureCallingConvention::LocalSig.number() == 0x7,
        SignatureCallingConvention::Property.number() == 0x8,
        SignatureCallingConvention::Unmanaged.number() == 0x9,
        SignatureCallingConvention::Generic.number() == 0x10,
{
}

/// The machines by their numbers.
pub proof fn machine_numbers()
    ensures
        TargetArchitecture::I386.number() == 0x14C,
        TargetArchitecture::AMD64.number() == 0x8664,
        TargetArchitecture::IA64.number() == 0x200,
        TargetArchitecture::ARM.number() == 0x1C0,
        TargetArchitecture::ARMv7.number() == 0x1C4,
        TargetArchitecture::ARM64.number() == 0xAA64,
{
}

/// The names of the security actions.
pub proof fn security_action_names()
    ensures
        SecurityAction::Request.label() == "Request"@,
        SecurityAction::Demand.label() == "Demand"@,
        SecurityAction::Assert.label() == "Assert"@,
        SecurityAction::Deny.label() == "Deny"@,
        SecurityAction::PermitOnly.label() == "PermitOnly"@,
        SecurityAction::LinkDemand.label() == "LinkDemand"@,
        SecurityAction::InheritanceDemand.label() == "InheritanceDemand"@,
        SecurityAction::RequestMinimum.label() == "RequestMinimum"@,
        SecurityAction::RequestOptional.label() == "RequestOptional"@,
        SecurityAction::RequestRefuse.label() == "RequestRefuse"@,
        SecurityAction::PreJitGrant.label() == "PreJitGrant"@,
        SecurityAction::PreJitDeny.label() == "PreJitDeny"@,
        SecurityAction::NonCasDemand.label() == "NonCasDemand"@,
        SecurityAction::NonCasLinkDemand.label() == "NonCasLinkDemand"@,
        SecurityAction::NonCasInheritance.label() == "NonCasInheritance"@,
{
}

/// The bits that a calling convention can have besides.
pub proof fn calling_convention_bits()
    ensures
        flags::CALL_CONVENTION_HAS_THIS == 0x20,
        flags::CALL_CONVENTION_EXPLICIT_THIS == 0x40,
{
}

/// How the kinds of errors are called.
pub proof fn error_prefixes()
    ensures
        error::error_prefix(ErrorKind::BadImage) == "bad image: "@,
        error::error_prefix(ErrorKind::Unsupported) == "unsupported: "@,
        error::error_prefix(ErrorKind::InvalidOperation) == "invalid operation: "@,
        error::error_prefix(ErrorKind::Argument) == "bad argument: "@,
{
}

/// The bits of `TypeAttributes`.
pub proof fn type_attributes_bits()
    ensures
        TypeAttributes::VISIBILITY_MASK == 0x0000_0007,
        TypeAttributes::NOT_PUBLIC == 0x0000_0000,
        TypeAttributes::PUBLIC == 0x0000_0001,
        TypeAttributes::NESTED_PUBLIC == 0x0000_0002,
        TypeAttributes::NESTED_PRIVATE == 0x0000_0003,
        TypeAttributes::NESTED_FAMILY == 0x0000_0004,
        TypeAttributes::NESTED_ASSEMBLY == 0x0000_0005,
        TypeAttributes::NESTED_FAM_AND_ASSEM == 0x0000_0006,
        TypeAttributes::NESTED_FAM_OR_ASSEM == 0x0000_0007,
        TypeAttributes::LAYOUT_MASK == 0x0000_0018,
        TypeAttributes::AUTO_LAYOUT == 0x0000_0000,
        TypeAttributes::SEQUENTIAL_LAYOUT == 0x0000_0008,
        TypeAttributes::EXPLICIT_LAYOUT == 0x0000_0010,
        TypeAttributes::CLASS_SEMANTIC_MASK == 0x0000_0020,
        TypeAttributes::CLASS_SEMANTIC == 0x0000_0000,
        TypeAttributes::INTERFACE == 0x0000_0020,
        TypeAttributes::ABSTRACT == 0x0000_0080,
        TypeAttributes::SEALED == 0x0000_0100,
        TypeAttributes::SPECIAL_NAME == 0x0000_0400,
        TypeAttributes::RTSPECIAL_NAME == 0x0000_0800,
        TypeAttributes::IMPORT == 0x0000_1000,
        TypeAttributes::SERIALIZABLE == 0x0000_2000,
        TypeAttributes::WINDOWS_RUNTIME == 0x0000_4000,
        TypeAttributes::STRING_FORMAT_MASK == 0x0003_0000,
        TypeAttributes::ANSI_STRING_FORMAT == 0x0000_0000,
        TypeAttributes::UNICODE_STRING_FORMAT == 0x0001_0000,
        TypeAttributes::AUTO_STRING_FORMAT == 0x0002_0000,
        TypeAttributes::CUSTOM_STRING_FORMAT == 0x0003_0000,
        TypeAttributes::HAS_SECURITY == 0x0004_0000,
        TypeAttributes::BEFORE_FIELD_INIT == 0x0010_0000,
        TypeAttributes::FORWARDER == 0x0020_0000,
        TypeAttributes::ALL == 0x377dbf,
{
}

/// The bits of `FieldAttributes`.
pub proof fn field_attributes_bits()
    ensures
        FieldAttributes::FIELD_ACCESS_MASK == 0x0007,
        FieldAttributes::COMPILER_CONTROLLED == 0x0000,
        FieldAttributes::PRIVATE == 0x0001,
        FieldAttributes::FAM_AND_ASSEM == 0x0002,
        FieldAttributes::ASSEMBLY == 0x0003,
        FieldAttributes::FAMILY == 0x0004,
        FieldAttributes::FAM_OR_ASSEM == 0x0005,
        FieldAttributes::PUBLIC == 0x0006,
        FieldAttributes::STATIC == 0x0010,
        FieldAttributes::INIT_ONLY == 0x0020,
        FieldAttributes::LITERAL == 0x0040,
        FieldAttributes::NOT_SERIALIZED == 0x0080,
        FieldAttributes::HAS_FIELD_RVA == 0x0100,
        FieldAttributes::SPECIAL_NAME == 0x0200,
        FieldAttributes::RTSPECIAL_NAME == 0x0400,
        FieldAttributes::HAS_FIELD_MARSHAL == 0x1000,
        FieldAttributes::PINVOKE_IMPL == 0x2000,
        FieldAttributes::HAS_DEFAULT == 0x8000,
        FieldAttributes::ALL == 0xb7f7,
{
}

/// The bits of `MethodAttributes`.
pub proof fn method_attributes_bits()
    ensures
        MethodAttributes::MEMBER_ACCESS_MASK == 0x0007,
        MethodAttributes::COMPILER_CONTROLLED == 0x0000,
        MethodAttributes::PRIVATE == 0x0001,
        MethodAttributes::FAM_AND_ASSEM == 0x0002,
        MethodAttributes::ASSEMBLY == 0x0003,
        MethodAttributes::FAMILY == 0x0004,
        MethodAttributes::FAM_OR_ASSEM == 0x0005,
        MethodAttributes::PUBLIC == 0x0006,
        MethodAttributes::STATIC == 0x0010,
        MethodAttributes::FINAL == 0x0020,
        MethodAttributes::VIRTUAL == 0x0040,
        MethodAttributes::HIDE_BY_SIG == 0x0080,
        MethodAttributes::VTABLE_LAYOUT_MASK == 0x0100,
        MethodAttributes::REUSE_SLOT == 0x0000,
        MethodAttributes::NEW_SLOT == 0x0100,
        MethodAttributes::CHECK_ACCESS_ON_OVERRIDE == 0x0200,
        MethodAttributes::ABSTRACT == 0x0400,
        MethodAttributes::SPECIAL_NAME == 0x0800,
        MethodAttributes::UNMANAGED_EXPORT == 0x0008,
        MethodAttributes::RTSPECIAL_NAME == 0x1000,
        MethodAttributes::PINVOKE_IMPL == 0x2000,
        MethodAttributes::HAS_SECURITY == 0x4000,
        MethodAttributes::REQUIRE_SEC_OBJECT == 0x8000,
        MethodAttributes::ALL == 0xffff,
{
}

/// The bits of `ParameterAttributes`.
pub proof fn parameter_attributes_bits()
    ensures
        ParameterAttributes::NONE == 0x0000,
        ParameterAttributes::IN == 0x0001,
        ParameterAttributes::OUT == 0x0002,
        ParameterAttributes::LCID == 0x0004,
        ParameterAttributes::RETVAL == 0x0008,
        ParameterAttributes::OPTIONAL == 0x0010,
        ParameterAttributes::HAS_DEFAULT == 0x1000,
        ParameterAttributes::HAS_FIELD_MARSHAL == 0x2000,
        ParameterAttributes::ALL == 0x301f,
{
}

/// The bits of `PropertyAttributes`.
pub proof fn property_attributes_bits()
    ensures
        PropertyAttributes::NONE == 0x0000,
        PropertyAttributes::SPECIAL_NAME == 0x0200,
        PropertyAttributes::RTSPECIAL_NAME == 0x0400,
        PropertyAttributes::HAS_DEFAULT == 0x1000,
        PropertyAttributes::ALL == 0x1600,
{
}

/// The bits of `EventAttributes`.
pub proof fn event_attributes_bits()
    ensures
        EventAttributes::NONE == 0x0000,
        EventAttributes::SPECIAL_NAME == 0x0200,
        EventAttributes::RTSPECIAL_NAME == 0x0400,
        EventAttributes::ALL == 0x600,
{
}

/// The bits of `GenericParameterAttributes`.
pub proof fn generic_parameter_attributes_bits()
    ensures
        GenericParameterAttributes::VARIANCE_MASK == 0x0003,
        GenericParameterAttributes::NON_VARIANT == 0x0000,
        GenericParameterAttributes::COVARIANT == 0x0001,
        GenericParameterAttributes::CONTRAVARIANT == 0x0002,
        GenericParameterAttributes::SPECIAL_CONSTRAINT_MASK == 0x001C,
        GenericParameterAttributes::REFERENCE_TYPE_CONSTRAINT == 0x0004,
        GenericParameterAttributes::NOT_NULLABLE_VALUE_TYPE_CONSTRAINT == 0x0008,
        GenericParameterAttributes::DEFAULT_CONSTRUCTOR_CONSTRAINT == 0x0010,
        GenericParameterAttributes::ALLOW_BY_REF_LIKE_CONSTRAINT == 0x0020,
        GenericParameterAttributes::ALL == 0x3f,
{
}

/// The bits of `MethodImplAttributes`.
pub proof fn method_impl_attributes_bits()
    ensures
        MethodImplAttributes::CODE_TYPE_MASK == 0x0003,
        MethodImplAttributes::IL == 0x0000,
        MethodImplAttributes::NATIVE == 0x0001,
        MethodImplAttributes::OPTIL == 0x0002,
        MethodImplAttributes::RUNTIME == 0x0003,
        MethodImplAttributes::MANAGED_MASK == 0x0004,
        MethodImplAttributes::UNMANAGED == 0x0004,
        MethodImplAttributes::MANAGED == 0x0000,
        MethodImplAttributes::FORWARD_REF == 0x0010,
        MethodImplAttributes::SYNCHRONIZED == 0x0020,
        MethodImplAttributes::NO_OPTIMIZATION == 0x0040,
        MethodImplAttributes::NO_INLINING == 0x0008,
        MethodImplAttributes::PRESERVE_SIG == 0x0080,
        MethodImplAttributes::AGGRESSIVE_INLINING == 0x0100,
        MethodImplAttributes::AGGRESSIVE_OPTIMIZATION == 0x0200,
        MethodImplAttributes::INTERNAL_CALL == 0x1000,
        MethodImplAttributes::ALL == 0x13ff,
{
}

/// The bits of `MethodSemanticsAttributes`.
pub proof fn method_semantics_attributes_bits()
    ensures
        MethodSemanticsAttributes::NONE == 0x0000,
        MethodSemanticsAttributes::SETTER == 0x0001,
        MethodSemanticsAttributes::GETTER == 0x0002,
        MethodSemanticsAttributes::OTHER == 0x0004,
        MethodSemanticsAttributes::ADD_ON == 0x0008,
        MethodSemanticsAttributes::REMOVE_ON == 0x0010,
        MethodSemanticsAttributes::FIRE == 0x0020,
        MethodSemanticsAttributes::ALL == 0x3f,
{
}

/// The bits of `PInvokeAttributes`.
pub proof fn pinvoke_attributes_bits()
    ensures
        PInvokeAttributes::NO_MANGLE == 0x0001,
        PInvokeAttributes::CHAR_SET_MASK == 0x0006,
        PInvokeAttributes::CHAR_SET_NOT_SPEC == 0x0000,
        PInvokeAttributes::CHAR_SET_ANSI == 0x0002,
        PInvokeAttributes::CHAR_SET_UNICODE == 0x0004,
        PInvokeAttributes::CHAR_SET_AUTO == 0x0006,
        PInvokeAttributes::BEST_FIT_MASK == 0x0030,
        PInvokeAttributes::BEST_FIT_ENABLED == 0x0010,
        PInvokeAttributes::BEST_FIT_DISABLED == 0x0020,
        PInvokeAttributes::SUPPORTS_LAST_ERROR == 0x0040,
        PInvokeAttributes::CALL_CONV_MASK == 0x0700,
        PInvokeAttributes::CALL_CONV_WINAPI == 0x0100,
        PInvokeAttributes::CALL_CONV_CDECL == 0x0200,
        PInvokeAttributes::CALL_CONV_STDCALL == 0x0300,
        PInvokeAttributes::CALL_CONV_THISCALL == 0x0400,
        PInvokeAttributes::CALL_CONV_FASTCALL == 0x0500,
        PInvokeAttributes::THROW_ON_UNMAPPABLE_CHAR_MASK == 0x3000,
        PInvokeAttributes::THROW_ON_UNMAPPABLE_CHAR_ENABLED == 0x1000,
        PInvokeAttributes::THROW_ON_UNMAPPABLE_CHAR_DISABLED == 0x2000,
        PInvokeAttributes::ALL == 0x3777,
{
}

/// The bits of `ManifestResourceAttributes`.
pub proof fn manifest_resource_attributes_bits()
    ensures
        ManifestResourceAttributes::VISIBILITY_MASK == 0x0000_0007,
        ManifestResourceAttributes::PUBLIC == 0x0000_0001,
        ManifestResourceAttributes::PRIVATE == 0x0000_0002,
        ManifestResourceAttributes::ALL == 0x7,
{
}

/// The bits of `AssemblyAttributes`.
pub proof fn assembly_attributes_bits()
    ensures
        AssemblyAttributes::PUBLIC_KEY == 0x0001,
        AssemblyAttributes::SIDE_BY_SIDE_COMPATIBLE == 0x0000,
        AssemblyAttributes::RETARGETABLE == 0x0100,
        AssemblyAttributes::WINDOWS_RUNTIME == 0x0200,
        AssemblyAttributes::DISABLE_JIT_COMPILE_OPTIMIZER == 0x4000,
        AssemblyAttributes::ENABLE_JIT_COMPILE_TRACKING == 0x8000,
        AssemblyAttributes::ALL == 0xc301,
{
}

/// The bits of `FileRowAttributes`.
pub proof fn file_row_attributes_bits()
    ensures
        FileRowAttributes::CONTAINS_METADATA == 0x0000,
        FileRowAttributes::CONTAINS_NO_METADATA == 0x0001,
        FileRowAttributes::ALL == 0x1,
{
}

/// The bits of `ModuleAttributes`.
pub proof fn module_attributes_bits()
    ensures
        ModuleAttributes::IL_ONLY == 0x0000_0001,
        ModuleAttributes::REQUIRED_32_BIT == 0x0000_0002,
        ModuleAttributes::IL_LIBRARY == 0x0000_0004,
        ModuleAttributes::STRONG_NAME_SIGNED == 0x0000_0008,
        ModuleAttributes::TRACK_DEBUG_DATA == 0x0001_0000,
        ModuleAttributes::PREFERRED_32_BIT == 0x0002_0000,
        ModuleAttributes::ALL == 0x3000f,
{
}

/// The bits of `ModuleCharacteristics`.
pub proof fn module_characteristics_bits()
    ensures
        ModuleCharacteristics::HIGH_ENTROPY_VA == 0x0020,
        ModuleCharacteristics::DYNAMIC_BASE == 0x0040,
        ModuleCharacteristics::NO_SEH == 0x0400,
        ModuleCharacteristics::NX_COMPAT == 0x0100,
        ModuleCharacteristics::APP_CONTAINER == 0x1000,
        ModuleCharacteristics::TERMINAL_SERVER_AWARE == 0x8000,
        ModuleCharacteristics::ALL == 0x9560,
{
}

/// The names of the parts of a flag word are bits that the word has.
pub proof fn flags_are_parts_of_their_words()
    ensures
        TypeAttributes::ALL == TypeAttributes::VISIBILITY_MASK | TypeAttributes::PUBLIC | TypeAttributes::NESTED_PUBLIC | TypeAttributes::NESTED_PRIVATE | TypeAttributes::NESTED_FAMILY | TypeAttributes::NESTED_ASSEMBLY | TypeAttributes::NESTED_FAM_AND_ASSEM | TypeAttributes::NESTED_FAM_OR_ASSEM | TypeAttributes::LAYOUT_MASK | TypeAttributes::SEQUENTIAL_LAYOUT | TypeAttributes::EXPLICIT_LAYOUT | TypeAttributes::CLASS_SEMANTIC_MASK | TypeAttributes::INTERFACE | TypeAttributes::ABSTRACT | TypeAttributes::SEALED | TypeAttributes::SPECIAL_NAME | TypeAttributes::RTSPECIAL_NAME | TypeAttributes::IMPORT | TypeAttributes::SERIALIZABLE | TypeAttributes::WINDOWS_RUNTIME | TypeAttributes::STRING_FORMAT_MASK | TypeAttributes::UNICODE_STRING_FORMAT | TypeAttributes::AUTO_STRING_FORMAT | TypeAttributes::CUSTOM_STRING_FORMAT | TypeAttributes::HAS_SECURITY | TypeAttributes::BEFORE_FIELD_INIT | TypeAttributes::FORWARDER,
        FieldAttributes::ALL == FieldAttributes::FIELD_ACCESS_MASK | FieldAttributes::PRIVATE | FieldAttributes::FAM_AND_ASSEM | FieldAttributes::ASSEMBLY | FieldAttributes::FAMILY | FieldAttributes::FAM_OR_ASSEM | FieldAttributes::PUBLIC | FieldAttributes::STATIC | FieldAttributes::INIT_ONLY | FieldAttributes::LITERAL | FieldAttributes::NOT_SERIALIZED | FieldAttributes::HAS_FIELD_RVA | FieldAttributes::SPECIAL_NAME | FieldAttributes::RTSPECIAL_NAME | FieldAttributes::HAS_FIELD_MARSHAL | FieldAttributes::PINVOKE_IMPL | FieldAttributes::HAS_DEFAULT,
        MethodAttributes::ALL == MethodAttributes::MEMBER_ACCESS_MASK | MethodAttributes::PRIVATE | MethodAttributes::FAM_AND_ASSEM | MethodAttributes::ASSEMBLY | MethodAttributes::FAMILY | MethodAttributes::FAM_OR_ASSEM | MethodAttributes::PUBLIC | MethodAttributes::STATIC | MethodAttributes::FINAL | MethodAttributes::VIRTUAL | MethodAttributes::HIDE_BY_SIG | MethodAttributes::VTABLE_LAYOUT_MASK | MethodAttributes::NEW_SLOT | MethodAttributes::CHECK_ACCESS_ON_OVERRIDE | MethodAttributes::ABSTRACT | MethodAttributes::SPECIAL_NAME | MethodAttributes::UNMANAGED_EXPORT | MethodAttributes::RTSPECIAL_NAME | MethodAttributes::PINVOKE_IMPL | MethodAttributes::HAS_SECURITY | MethodAttributes::REQUIRE_SEC_OBJECT,
        ParameterAttributes::ALL == ParameterAttributes::IN | ParameterAttributes::OUT | ParameterAttributes::LCID | ParameterAttributes::RETVAL | ParameterAttributes::OPTIONAL | ParameterAttributes::HAS_DEFAULT | ParameterAttributes::HAS_FIELD_MARSHAL,
        PropertyAttributes::ALL == PropertyAttributes::SPECIAL_NAME | PropertyAttributes::RTSPECIAL_NAME | PropertyAttributes::HAS_DEFAULT,
        EventAttributes::ALL == EventAttributes::SPECIAL_NAME | EventAttributes::RTSPECIAL_NAME,
        GenericParameterAttributes::ALL == GenericParameterAttributes::VARIANCE_MASK | GenericParameterAttributes::COVARIANT | GenericParameterAttributes::CONTRAVARIANT | GenericParameterAttributes::SPECIAL_CONSTRAINT_MASK | GenericParameterAttributes::REFERENCE_TYPE_CONSTRAINT | GenericParameterAttributes::NOT_NULLABLE_VALUE_TYPE_CONSTRAINT | GenericParameterAttributes::DEFAULT_CONSTRUCTOR_CONSTRAINT | GenericParameterAttributes::ALLOW_BY_REF_LIKE_CONSTRAINT,
        MethodImplAttributes::ALL == MethodImplAttributes::CODE_TYPE_MASK | MethodImplAttributes::NATIVE | MethodImplAttributes::OPTIL | MethodImplAttributes::RUNTIME | MethodImplAttributes::MANAGED_MASK | MethodImplAttributes::UNMANAGED | MethodImplAttributes::FORWARD_REF | MethodImplAttributes::SYNCHRONIZED | MethodImplAttributes::NO_OPTIMIZATION | MethodImplAttributes::NO_INLINING | MethodImplAttributes::PRESERVE_SIG | MethodImplAttributes::AGGRESSIVE_INLINING | MethodImplAttributes::AGGRESSIVE_OPTIMIZATION | MethodImplAttributes::INTERNAL_CALL,
        MethodSemanticsAttributes::ALL == MethodSemanticsAttributes::SETTER | MethodSemanticsAttributes::GETTER | MethodSemanticsAttributes::OTHER | MethodSemanticsAttributes::ADD_ON | MethodSemanticsAttributes::REMOVE_ON | MethodSemanticsAttributes::FIRE,
        PInvokeAttributes::ALL == PInvokeAttributes::NO_MANGLE | PInvokeAttributes::CHAR_SET_MASK | PInvokeAttributes::CHAR_SET_ANSI | PInvokeAttributes::CHAR_SET_UNICODE | PInvokeAttributes::CHAR_SET_AUTO | PInvokeAttributes::BEST_FIT_MASK | PInvokeAttributes::BEST_FIT_ENABLED | PInvokeAttributes::BEST_FIT_DISABLED | PInvokeAttributes::SUPPORTS_LAST_ERROR | PInvokeAttributes::CALL_CONV_MASK | PInvokeAttributes::CALL_CONV_WINAPI | PInvokeAttributes::CALL_CONV_CDECL | PInvokeAttributes::CALL_CONV_STDCALL | PInvokeAttributes::CALL_CONV_THISCALL | PInvokeAttributes::CALL_CONV_FASTCALL | PInvokeAttributes::THROW_ON_UNMAPPABLE_CHAR_MASK | PInvokeAttributes::THROW_ON_UNMAPPABLE_CHAR_ENABLED | PInvokeAttributes::THROW_ON_UNMAPPABLE_CHAR_DISABLED,
        ManifestResourceAttributes::ALL == ManifestResourceAttributes::VISIBILITY_MASK | ManifestResourceAttributes::PUBLIC | ManifestResourceAttributes::PRIVATE,
        AssemblyAttributes::ALL == AssemblyAttributes::PUBLIC_KEY | AssemblyAttributes::RETARGETABLE | AssemblyAttributes::WINDOWS_RUNTIME | AssemblyAttributes::DISABLE_JIT_COMPILE_OPTIMIZER | AssemblyAttributes::ENABLE_JIT_COMPILE_TRACKING,
        FileRowAttributes::ALL == FileRowAttributes::CONTAINS_NO_METADATA,
        ModuleAttributes::ALL == ModuleAttributes::IL_ONLY | ModuleAttributes::REQUIRED_32_BIT | ModuleAttributes::IL_LIBRARY | ModuleAttributes::STRONG_NAME_SIGNED | ModuleAttributes::TRACK_DEBUG_DATA | ModuleAttributes::PREFERRED_32_BIT,
        ModuleCharacteristics::ALL == ModuleCharacteristics::HIGH_ENTROPY_VA | ModuleCharacteristics::DYNAMIC_BASE | ModuleCharacteristics::NO_SEH | ModuleCharacteristics::NX_COMPAT | ModuleCharacteristics::APP_CONTAINER | ModuleCharacteristics::TERMINAL_SERVER_AWARE,
{
    assert((0x377dbfu32 == 0x0000_0007u32 | 0x0000_0001u32 | 0x0000_0002u32 | 0x0000_0003u32 | 0x0000_0004u32 | 0x0000_0005u32 | 0x0000_0006u32 | 0x0000_0007u32 | 0x0000_0018u32 | 0x0000_0008u32 | 0x0000_0010u32 | 0x0000_0020u32 | 0x0000_0020u32 | 0x0000_0080u32 | 0x0000_0100u32 | 0x0000_0400u32 | 0x0000_0800u32 | 0x0000_1000u32 | 0x0000_2000u32 | 0x0000_4000u32 | 0x0003_0000u32 | 0x0001_0000u32 | 0x0002_0000u32 | 0x0003_0000u32 | 0x0004_0000u32 | 0x0010_0000u32 | 0x0020_0000u32)
        && (0xb7f7u16 == 0x0007u16 | 0x0001u16 | 0x0002u16 | 0x0003u16 | 0x0004u16 | 0x0005u16 | 0x0006u16 | 0x0010u16 | 0x0020u16 | 0x0040u16 | 0x0080u16 | 0x0100u16 | 0x0200u16 | 0x0400u16 | 0x1000u16 | 0x2000u16 | 0x8000u16)
        && (0xffffu16 == 0x0007u16 | 0x0001u16 | 0x0002u16 | 0x0003u16 | 0x0004u16 | 0x0005u16 | 0x0006u16 | 0x0010u16 | 0x0020u16 | 0x0040u16 | 0x0080u16 | 0x0100u16 | 0x0100u16 | 0x0200u16 | 0x0400u16 | 0x0800u16 | 0x0008u16 | 0x1000u16 | 0x2000u16 | 0x4000u16 | 0x8000u16)
        && (0x301fu16 == 0x0001u16 | 0x0002u16 | 0x0004u16 | 0x0008u16 | 0x0010u16 | 0x1000u16 | 0x2000u16)
        && (0x1600u16 == 0x0200u16 | 0x0400u16 | 0x1000u16)
        && (0x600u16 == 0x0200u16 | 0x0400u16)
        && (0x3fu16 == 0x0003u16 | 0x0001u16 | 0x0002u16 | 0x001Cu16 | 0x0004u16 | 0x0008u16 | 0x0010u16 | 0x0020u16)
        && (0x13ffu16 == 0x0003u16 | 0x0001u16 | 0x0002u16 | 0x0003u16 | 0x0004u16 | 0x0004u16 | 0x0010u16 | 0x0020u16 | 0x0040u16 | 0x0008u16 | 0x0080u16 | 0x0100u16 | 0x0200u16 | 0x1000u16)
        && (0x3fu16 == 0x0001u16 | 0x0002u16 | 0x0004u16 | 0x0008u16 | 0x0010u16 | 0x0020u16)
        && (0x3777u16 == 0x0001u16 | 0x0006u16 | 0x0002u16 | 0x0004u16 | 0x0006u16 | 0x0030u16 | 0x0010u16 | 0x0020u16 | 0x0040u16 | 0x0700u16 | 0x0100u16 | 0x0200u16 | 0x0300u16 | 0x0400u16 | 0x0500u16 | 0x3000u16 | 0x1000u16 | 0x2000u16)
        && (0x7u32 == 0x0000_0007u32 | 0x0000_0001u32 | 0x0000_0002u32)
        && (0xc301u32 == 0x0001u32 | 0x0100u32 | 0x0200u32 | 0x4000u32 | 0x8000u32)
        && (0x1u32 == 0x0001u32)
        && (0x3000fu32 == 0x0000_0001u32 | 0x0000_0002u32 | 0x0000_0004u32 | 0x0000_0008u32 | 0x0001_0000u32 | 0x0002_0000u32)
        && (0x9560u16 == 0x0020u16 | 0x0040u16 | 0x0400u16 | 0x0100u16 | 0x1000u16 | 0x8000u16)) by (bit_vector);
}

} // verus!
