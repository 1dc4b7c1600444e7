//! CLI `ElementType` codes and OLE `VARENUM` variant types.

use vstd::prelude::*;

verus! {

/// Signature element type byte.
#[derive(Debug, Clone, Copy, PartialEq, Eq, Hash, Structural)]
pub enum ElementType {
    End,
    Void,
    Boolean,
    Char,
    I1,
    U1,
    I2,
    U2,
    I4,
    U4,
    I8,
    U8,
    R4,
    R8,
    String,
    Ptr,
    ByRef,
    ValueType,
    Class,
    Var,
    Array,
    GenericInst,
    TypedByRef,
    I,
    U,
    FnPtr,
    Object,
    SzArray,
    MVar,
    CmodReqd,
    CmodOpt,
    Internal,
    Module,
    Sentinel,
    Pinned,
}

impl ElementType {
    /// The number that stands for the value.
    pub open spec fn number(self) -> u8 {
        match self {
            ElementType::End => 0x00,
            ElementType::Void => 0x01,
            ElementType::Boolean => 0x02,
            ElementType::Char => 0x03,
            ElementType::I1 => 0x04,
            ElementType::U1 => 0x05,
            ElementType::I2 => 0x06,
            ElementType::U2 => 0x07,
            ElementType::I4 => 0x08,
            ElementType::U4 => 0x09,
            ElementType::I8 => 0x0A,
            ElementType::U8 => 0x0B,
            ElementType::R4 => 0x0C,
            ElementType::R8 => 0x0D,
            ElementType::String => 0x0E,
            ElementType::Ptr => 0x0F,
            ElementType::ByRef => 0x10,
            ElementType::ValueType => 0x11,
            ElementType::Class => 0x12,
            ElementType::Var => 0x13,
            ElementType::Array => 0x14,
            ElementType::GenericInst => 0x15,
            ElementType::TypedByRef => 0x16,
            ElementType::I => 0x18,
            ElementType::U => 0x19,
            ElementType::FnPtr => 0x1B,
            ElementType::Object => 0x1C,
            ElementType::SzArray => 0x1D,
            ElementType::MVar => 0x1E,
            ElementType::CmodReqd => 0x1F,
            ElementType::CmodOpt => 0x20,
            ElementType::Internal => 0x21,
            ElementType::Module => 0x39,
            ElementType::Sentinel => 0x41,
            ElementType::Pinned => 0x45,
        }
    }

    /// The number that stands for the value.
    pub fn to_u8(self) -> (v: u8)
        ensures
            v == self.number(),
    {
        match self {
            ElementType::End => 0x00,
            ElementType::Void => 0x01,
            ElementType::Boolean => 0x02,
            ElementType::Char => 0x03,
            ElementType::I1 => 0x04,
            ElementType::U1 => 0x05,
            ElementType::I2 => 0x06,
            ElementType::U2 => 0x07,
            ElementType::I4 => 0x08,
            ElementType::U4 => 0x09,
            ElementType::I8 => 0x0A,
            ElementType::U8 => 0x0B,
            ElementType::R4 => 0x0C,
            ElementType::R8 => 0x0D,
            ElementType::String => 0x0E,
            ElementType::Ptr => 0x0F,
            ElementType::ByRef => 0x10,
            ElementType::ValueType => 0x11,
            ElementType::Class => 0x12,
            ElementType::Var => 0x13,
            ElementType::Array => 0x14,
            ElementType::GenericInst => 0x15,
            ElementType::TypedByRef => 0x16,
            ElementType::I => 0x18,
            ElementType::U => 0x19,
            ElementType::FnPtr => 0x1B,
            ElementType::Object => 0x1C,
            ElementType::SzArray => 0x1D,
            ElementType::MVar => 0x1E,
            ElementType::CmodReqd => 0x1F,
            ElementType::CmodOpt => 0x20,
            ElementType::Internal => 0x21,
            ElementType::Module => 0x39,
            ElementType::Sentinel => 0x41,
            ElementType::Pinned => 0x45,
        }
    }

    /// The value that `v` stands for, if there is one.
    pub fn from_u8(v: u8) -> (r: Option<Self>)
        ensures
            match r {
                Some(t) => t.number() == v,
                None => forall|t: ElementType| #[trigger] t.number() != v,
            },
    {
        Some(
            match v {
                0x00 => ElementType::End,
                0x01 => ElementType::Void,
                0x02 => ElementType::Boolean,
                0x03 => ElementType::Char,
                0x04 => ElementType::I1,
                0x05 => ElementType::U1,
                0x06 => ElementType::I2,
                0x07 => ElementType::U2,
                0x08 => ElementType::I4,
                0x09 => ElementType::U4,
                0x0A => ElementType::I8,
                0x0B => ElementType::U8,
                0x0C => ElementType::R4,
                0x0D => ElementType::R8,
                0x0E => ElementType::String,
                0x0F => ElementType::Ptr,
                0x10 => ElementType::ByRef,
                0x11 => ElementType::ValueType,
                0x12 => ElementType::Class,
                0x13 => ElementType::Var,
                0x14 => ElementType::Array,
                0x15 => ElementType::GenericInst,
                0x16 => ElementType::TypedByRef,
                0x18 => ElementType::I,
                0x19 => ElementType::U,
                0x1B => ElementType::FnPtr,
                0x1C => ElementType::Object,
                0x1D => ElementType::SzArray,
                0x1E => ElementType::MVar,
                0x1F => ElementType::CmodReqd,
                0x20 => ElementType::CmodOpt,
                0x21 => ElementType::Internal,
                0x39 => ElementType::Module,
                0x41 => ElementType::Sentinel,
                0x45 => ElementType::Pinned,
                _ => return None,
            },
        )
    }

    /// Whether the type is one of the primitive value types.
    pub open spec fn primitive(self) -> bool {
        match self {
            ElementType::Boolean => true,
            ElementType::Char => true,
            ElementType::I1 => true,
            ElementType::U1 => true,
            ElementType::I2 => true,
            ElementType::U2 => true,
            ElementType::I4 => true,
            ElementType::U4 => true,
            ElementType::I8 => true,
            ElementType::U8 => true,
            ElementType::R4 => true,
            ElementType::R8 => true,
            ElementType::I => true,
            ElementType::U => true,
            _ => false,
        }
    }

    /// Whether the type is one of the primitive value types.
    pub fn is_primitive(self) -> (b: bool)
        ensures
            b == self.primitive(),
    {
        matches!(
            self,
            ElementType::Boolean
                | ElementType::Char
                | ElementType::I1
                | ElementType::U1
                | ElementType::I2
                | ElementType::U2
                | ElementType::I4
                | ElementType::U4
                | ElementType::I8
                | ElementType::U8
                | ElementType::R4
                | ElementType::R8
                | ElementType::I
                | ElementType::U
        )
    }
}

/// No two values share a number.
pub proof fn element_number_injective(a: ElementType, b: ElementType)
    requires
        a.number() == b.number(),
    ensures
        a == b,
{
}

/// OLE `VARENUM`, used by constant tables and marshaling metadata.
#[derive(Debug, Clone, Copy, PartialEq, Eq, Hash, Structural)]
pub enum VariantType {
    Empty,
    Null,
    Boolean,
    Char,
    I1,
    U1,
    I2,
    U2,
    I4,
    U4,
    I8,
    U8,
    R4,
    R8,
    String,
    Ptr,
    Int,
    UInt,
    Currency,
    Date,
    BStr,
    Dispatch,
    Error,
    Bool,
    Variant,
    Unknown,
    Decimal,
    Void,
    HResult,
    SafeArray,
    CArray,
    UserDefined,
    Record,
    FileTime,
    Blob,
    Stream,
    Storage,
    StreamedObject,
    StoredObject,
    BlobObject,
    Clsid,
}

impl VariantType {
    /// The number that stands for the value.
    pub open spec fn number(self) -> u32 {
        match self {
            VariantType::Empty => 0x00,
            VariantType::Null => 0x01,
            VariantType::Boolean => 0x02,
            VariantType::Char => 0x03,
            VariantType::I1 => 0x04,
            VariantType::U1 => 0x05,
            VariantType::I2 => 0x06,
            VariantType::U2 => 0x07,
            VariantType::I4 => 0x08,
            VariantType::U4 => 0x09,
            VariantType::I8 => 0x0A,
            VariantType::U8 => 0x0B,
            VariantType::R4 => 0x0C,
            VariantType::R8 => 0x0D,
            VariantType::String => 0x14,
            VariantType::Ptr => 0x26,
            VariantType::Int => 0x16,
            VariantType::UInt => 0x17,
            VariantType::Currency => 0x06_00,
            VariantType::Date => 0x07_00,
            VariantType::BStr => 0x08_00,
            VariantType::Dispatch => 0x09_00,
            VariantType::Error => 0x0A_00,
            VariantType::Bool => 0x0B_00,
            VariantType::Variant => 0x0C_00,
            VariantType::Unknown => 0x0D_00,
            VariantType::Decimal => 0x0E_00,
            VariantType::Void => 0x18_00,
            VariantType::HResult => 0x19_00,
            VariantType::SafeArray => 0x1B_00,
            VariantType::CArray => 0x1C_00,
            VariantType::UserDefined => 0x1D_00,
            VariantType::Record => 0x24_00,
            VariantType::FileTime => 0x40_00,
            VariantType::Blob => 0x41_00,
            VariantType::Stream => 0x42_00,
            VariantType::Storage => 0x43_00,
            VariantType::StreamedObject => 0x44_00,
            VariantType::StoredObject => 0x45_00,
            VariantType::BlobObject => 0x46_00,
            VariantType::Clsid => 0x48_00,
        }
    }

    /// The number that stands for the value.
    pub fn to_u32(self) -> (v: u32)
        ensures
            v == self.number(),
    {
        match self {
            VariantType::Empty => 0x00,
            VariantType::Null => 0x01,
            VariantType::Boolean => 0x02,
            VariantType::Char => 0x03,
            VariantType::I1 => 0x04,
            VariantType::U1 => 0x05,
            VariantType::I2 => 0x06,
            VariantType::U2 => 0x07,
            VariantType::I4 => 0x08,
            VariantType::U4 => 0x09,
            VariantType::I8 => 0x0A,
            VariantType::U8 => 0x0B,
            VariantType::R4 => 0x0C,
            VariantType::R8 => 0x0D,
            VariantType::String => 0x14,
            VariantType::Ptr => 0x26,
            VariantType::Int => 0x16,
            VariantType::UInt => 0x17,
            VariantType::Currency => 0x06_00,
            VariantType::Date => 0x07_00,
            VariantType::BStr => 0x08_00,
            VariantType::Dispatch => 0x09_00,
            VariantType::Error => 0x0A_00,
            VariantType::Bool => 0x0B_00,
            VariantType::Variant => 0x0C_00,
            VariantType::Unknown => 0x0D_00,
            VariantType::Decimal => 0x0E_00,
            VariantType::Void => 0x18_00,
            VariantType::HResult => 0x19_00,
            VariantType::SafeArray => 0x1B_00,
            VariantType::CArray => 0x1C_00,
            VariantType::UserDefined => 0x1D_00,
            VariantType::Record => 0x24_00,
            VariantType::FileTime => 0x40_00,
            VariantType::Blob => 0x41_00,
            VariantType::Stream => 0x42_00,
            VariantType::Storage => 0x43_00,
            VariantType::StreamedObject => 0x44_00,
            VariantType::StoredObject => 0x45_00,
            VariantType::BlobObject => 0x46_00,
            VariantType::Clsid => 0x48_00,
        }
    }

    /// The value that `v` stands for, if there is one.
    pub fn from_u32(v: u32) -> (r: Option<Self>)
        ensures
            match r {
                Some(t) => t.number() == v,
                None => forall|t: VariantType| #[trigger] t.number() != v,
            },
    {
        Some(
            match v {
                0x00 => VariantType::Empty,
                0x01 => VariantType::Null,
                0x02 => VariantType::Boolean,
                0x03 => VariantType::Char,
                0x04 => VariantType::I1,
                0x05 => VariantType::U1,
                0x06 => VariantType::I2,
                0x07 => VariantType::U2,
                0x08 => VariantType::I4,
                0x09 => VariantType::U4,
                0x0A => VariantType::I8,
                0x0B => VariantType::U8,
                0x0C => VariantType::R4,
                0x0D => VariantType::R8,
                0x14 => VariantType::String,
                0x26 => VariantType::Ptr,
                0x16 => VariantType::Int,
                0x17 => VariantType::UInt,
                0x06_00 => VariantType::Currency,
                0x07_00 => VariantType::Date,
                0x08_00 => VariantType::BStr,
                0x09_00 => VariantType::Dispatch,
                0x0A_00 => VariantType::Error,
                0x0B_00 => VariantType::Bool,
                0x0C_00 => VariantType::Variant,
                0x0D_00 => VariantType::Unknown,
                0x0E_00 => VariantType::Decimal,
                0x18_00 => VariantType::Void,
                0x19_00 => VariantType::HResult,
                0x1B_00 => VariantType::SafeArray,
                0x1C_00 => VariantType::CArray,
                0x1D_00 => VariantType::UserDefined,
                0x24_00 => VariantType::Record,
                0x40_00 => VariantType::FileTime,
                0x41_00 => VariantType::Blob,
                0x42_00 => VariantType::Stream,
                0x43_00 => VariantType::Storage,
                0x44_00 => VariantType::StreamedObject,
                0x45_00 => VariantType::StoredObject,
                0x46_00 => VariantType::BlobObject,
                0x48_00 => VariantType::Clsid,
                _ => return None,
            },
        )
    }

    /// The element type a constant of this variant decodes to.
    pub open spec fn element(self) -> Option<ElementType> {
        match self {
            VariantType::Boolean => Some(ElementType::Boolean),
            VariantType::Bool => Some(ElementType::Boolean),
            VariantType::Char => Some(ElementType::Char),
            VariantType::I1 => Some(ElementType::I1),
            VariantType::U1 => Some(ElementType::U1),
            VariantType::I2 => Some(ElementType::I2),
            VariantType::U2 => Some(ElementType::U2),
            VariantType::I4 => Some(ElementType::I4),
            VariantType::Int => Some(ElementType::I4),
            VariantType::Error => Some(ElementType::I4),
            VariantType::HResult => Some(ElementType::I4),
            VariantType::U4 => Some(ElementType::U4),
            VariantType::UInt => Some(ElementType::U4),
            VariantType::I8 => Some(ElementType::I8),
            VariantType::U8 => Some(ElementType::U8),
            VariantType::R4 => Some(ElementType::R4),
            VariantType::R8 => Some(ElementType::R8),
            VariantType::String => Some(ElementType::String),
            VariantType::BStr => Some(ElementType::String),
            _ => None,
        }
    }

    /// The variant encoding for a primitive element type.
    pub open spec fn of_element(et: ElementType) -> Option<VariantType> {
        match et {
            ElementType::Boolean => Some(VariantType::Boolean),
            ElementType::Char => Some(VariantType::Char),
            ElementType::I1 => Some(VariantType::I1),
            ElementType::U1 => Some(VariantType::U1),
            ElementType::I2 => Some(VariantType::I2),
            ElementType::U2 => Some(VariantType::U2),
            ElementType::I4 => Some(VariantType::I4),
            ElementType::U4 => Some(VariantType::U4),
            ElementType::I8 => Some(VariantType::I8),
            ElementType::U8 => Some(VariantType::U8),
            ElementType::R4 => Some(VariantType::R4),
            ElementType::R8 => Some(VariantType::R8),
            ElementType::String => Some(VariantType::String),
            _ => None,
        }
    }

    /// The element type a constant of this variant decodes to.
    pub fn to_element_type(self) -> (r: Option<ElementType>)
        ensures
            r == self.element(),
    {
        Some(
            match self {
                VariantType::Boolean => ElementType::Boolean,
                VariantType::Bool => ElementType::Boolean,
                VariantType::Char => ElementType::Char,
                VariantType::I1 => ElementType::I1,
                VariantType::U1 => ElementType::U1,
                VariantType::I2 => ElementType::I2,
                VariantType::U2 => ElementType::U2,
                VariantType::I4 => ElementType::I4,
                VariantType::Int => ElementType::I4,
                VariantType::Error => ElementType::I4,
                VariantType::HResult => ElementType::I4,
                VariantType::U4 => ElementType::U4,
                VariantType::UInt => ElementType::U4,
                VariantType::I8 => ElementType::I8,
                VariantType::U8 => ElementType::U8,
                VariantType::R4 => ElementType::R4,
                VariantType::R8 => ElementType::R8,
                VariantType::String => ElementType::String,
                VariantType::BStr => ElementType::String,
                _ => return None,
            },
        )
    }

    /// The variant encoding for a primitive element type.
    pub fn from_element_type(et: ElementType) -> (r: Option<Self>)
        ensures
            r == VariantType::of_element(et),
    {
        Some(
            match et {
                ElementType::Boolean => VariantType::Boolean,
                ElementType::Char => VariantType::Char,
                ElementType::I1 => VariantType::I1,
                ElementType::U1 => VariantType::U1,
                ElementType::I2 => VariantType::I2,
                ElementType::U2 => VariantType::U2,
                ElementType::I4 => VariantType::I4,
                ElementType::U4 => VariantType::U4,
                ElementType::I8 => VariantType::I8,
                ElementType::U8 => VariantType::U8,
                ElementType::R4 => VariantType::R4,
                ElementType::R8 => VariantType::R8,
                ElementType::String => VariantType::String,
                _ => return None,
            },
        )
    }
}

/// No two values share a number.
pub proof fn variant_number_injective(a: VariantType, b: VariantType)
    requires
        a.number() == b.number(),
    ensures
        a == b,
{
}

/// The variant chosen for an element type decodes to that element type.
pub proof fn variant_element_round_trip(et: ElementType)
    requires
        VariantType::of_element(et) is Some,
    ensures
        VariantType::of_element(et)->Some_0.element() == Some(et),
{
}

} // verus!
