//! Metadata attribute flags and runtime target enums.

use vstd::prelude::*;

verus! {

/// Flag word of kind `TypeAttributes`.
#[derive(Debug, Clone, Copy, PartialEq, Eq, Hash, Structural)]
pub struct TypeAttributes(pub u32);

impl Default for TypeAttributes {
    fn default() -> (f: Self)
        ensures
            f.0 == 0,
    {
        TypeAttributes(0)
    }
}

impl TypeAttributes {
    pub const VISIBILITY_MASK: u32 = 0x0000_0007;
    pub const NOT_PUBLIC: u32 = 0x0000_0000;
    pub const PUBLIC: u32 = 0x0000_0001;
    pub const NESTED_PUBLIC: u32 = 0x0000_0002;
    pub const NESTED_PRIVATE: u32 = 0x0000_0003;
    pub const NESTED_FAMILY: u32 = 0x0000_0004;
    pub const NESTED_ASSEMBLY: u32 = 0x0000_0005;
    pub const NESTED_FAM_AND_ASSEM: u32 = 0x0000_0006;
    pub const NESTED_FAM_OR_ASSEM: u32 = 0x0000_0007;
    pub const LAYOUT_MASK: u32 = 0x0000_0018;
    pub const AUTO_LAYOUT: u32 = 0x0000_0000;
    pub const SEQUENTIAL_LAYOUT: u32 = 0x0000_0008;
    pub const EXPLICIT_LAYOUT: u32 = 0x0000_0010;
    pub const CLASS_SEMANTIC_MASK: u32 = 0x0000_0020;
    pub const CLASS_SEMANTIC: u32 = 0x0000_0000;
    pub const INTERFACE: u32 = 0x0000_0020;
    pub const ABSTRACT: u32 = 0x0000_0080;
    pub const SEALED: u32 = 0x0000_0100;
    pub const SPECIAL_NAME: u32 = 0x0000_0400;
    pub const RTSPECIAL_NAME: u32 = 0x0000_0800;
    pub const IMPORT: u32 = 0x0000_1000;
    pub const SERIALIZABLE: u32 = 0x0000_2000;
    pub const WINDOWS_RUNTIME: u32 = 0x0000_4000;
    pub const STRING_FORMAT_MASK: u32 = 0x0003_0000;
    pub const ANSI_STRING_FORMAT: u32 = 0x0000_0000;
    pub const UNICODE_STRING_FORMAT: u32 = 0x0001_0000;
    pub const AUTO_STRING_FORMAT: u32 = 0x0002_0000;
    pub const CUSTOM_STRING_FORMAT: u32 = 0x0003_0000;
    pub const HAS_SECURITY: u32 = 0x0004_0000;
    pub const BEFORE_FIELD_INIT: u32 = 0x0010_0000;
    pub const FORWARDER: u32 = 0x0020_0000;

    /// All bits that some flag of the kind uses.
    pub const ALL: u32 = 0x00377DBF;

    /// The flag word with no flag set.
    pub fn empty() -> (f: Self)
        ensures
            f.0 == 0,
    {
        TypeAttributes(0)
    }

    /// The raw bits.
    pub fn bits(self) -> (b: u32)
        ensures
            b == self.0,
    {
        self.0
    }

    /// The flag word of `bits`, without the bits that no flag uses.
    pub fn from_bits_truncate(bits: u32) -> (f: Self)
        ensures
            f.0 == bits & 0x00377DBF,
            f.0 == bits & Self::ALL,
    {
        TypeAttributes(bits & 0x00377DBF)
    }

    /// Whether every bit of `flags` is set.
    pub fn contains(self, flags: u32) -> (b: bool)
        ensures
            b == (self.0 & flags == flags),
    {
        self.0 & flags == flags
    }

    /// The visibility bits.
    pub fn visibility(self) -> (v: u32)
        ensures
            v == self.0 & 0x7,
            v == self.0 & Self::VISIBILITY_MASK,
    {
        self.0 & 0x7
    }

    /// The flag word with its visibility bits replaced by the bits of `v`.
    pub fn with_visibility(self, v: u32) -> (f: Self)
        ensures
            f == set_visibility(self, v),
    {
        TypeAttributes::from_bits_truncate((self.0 & !0x7u32) | v)
    }
}

/// Flag word of kind `FieldAttributes`.
#[derive(Debug, Clone, Copy, PartialEq, Eq, Hash, Structural)]
pub struct FieldAttributes(pub u16);

impl Default for FieldAttributes {
    fn default() -> (f: Self)
        ensures
            f.0 == 0,
    {
        FieldAttributes(0)
    }
}

impl FieldAttributes {
    pub const FIELD_ACCESS_MASK: u16 = 0x0007;
    pub const COMPILER_CONTROLLED: u16 = 0x0000;
    pub const PRIVATE: u16 = 0x0001;
    pub const FAM_AND_ASSEM: u16 = 0x0002;
    pub const ASSEMBLY: u16 = 0x0003;
    pub const FAMILY: u16 = 0x0004;
    pub const FAM_OR_ASSEM: u16 = 0x0005;
    pub const PUBLIC: u16 = 0x0006;
    pub const STATIC: u16 = 0x0010;
    pub const INIT_ONLY: u16 = 0x0020;
    pub const LITERAL: u16 = 0x0040;
    pub const NOT_SERIALIZED: u16 = 0x0080;
    pub const HAS_FIELD_RVA: u16 = 0x0100;
    pub const SPECIAL_NAME: u16 = 0x0200;
    pub const RTSPECIAL_NAME: u16 = 0x0400;
    pub const HAS_FIELD_MARSHAL: u16 = 0x1000;
    pub const PINVOKE_IMPL: u16 = 0x2000;
    pub const HAS_DEFAULT: u16 = 0x8000;

    /// All bits that some flag of the kind uses.
    pub const ALL: u16 = 0xB7F7;

    /// The flag word with no flag set.
    pub fn empty() -> (f: Self)
        ensures
            f.0 == 0,
    {
        FieldAttributes(0)
    }

    /// The raw bits.
    pub fn bits(self) -> (b: u16)
        ensures
            b == self.0,
    {
        self.0
    }

    /// The flag word of `bits`, without the bits that no flag uses.
    pub fn from_bits_truncate(bits: u16) -> (f: Self)
        ensures
            f.0 == bits & 0xB7F7,
            f.0 == bits & Self::ALL,
    {
        FieldAttributes(bits & 0xB7F7)
    }

    /// Whether every bit of `flags` is set.
    pub fn contains(self, flags: u16) -> (b: bool)
        ensures
            b == (self.0 & flags == flags),
    {
        self.0 & flags == flags
    }
}

/// Flag word of kind `MethodAttributes`.
#[derive(Debug, Clone, Copy, PartialEq, Eq, Hash, Structural)]
pub struct MethodAttributes(pub u16);

impl Default for MethodAttributes {
    fn default() -> (f: Self)
        ensures
            f.0 == 0,
    {
        MethodAttributes(0)
    }
}

impl MethodAttributes {
    pub const MEMBER_ACCESS_MASK: u16 = 0x0007;
    pub const COMPILER_CONTROLLED: u16 = 0x0000;
    pub const PRIVATE: u16 = 0x0001;
    pub const FAM_AND_ASSEM: u16 = 0x0002;
    pub const ASSEMBLY: u16 = 0x0003;
    pub const FAMILY: u16 = 0x0004;
    pub const FAM_OR_ASSEM: u16 = 0x0005;
    pub const PUBLIC: u16 = 0x0006;
    pub const STATIC: u16 = 0x0010;
    pub const FINAL: u16 = 0x0020;
    pub const VIRTUAL: u16 = 0x0040;
    pub const HIDE_BY_SIG: u16 = 0x0080;
    pub const VTABLE_LAYOUT_MASK: u16 = 0x0100;
    pub const REUSE_SLOT: u16 = 0x0000;
    pub const NEW_SLOT: u16 = 0x0100;
    pub const CHECK_ACCESS_ON_OVERRIDE: u16 = 0x0200;
    pub const ABSTRACT: u16 = 0x0400;
    pub const SPECIAL_NAME: u16 = 0x0800;
    pub const UNMANAGED_EXPORT: u16 = 0x0008;
    pub const RTSPECIAL_NAME: u16 = 0x1000;
    pub const PINVOKE_IMPL: u16 = 0x2000;
    pub const HAS_SECURITY: u16 = 0x4000;
    pub const REQUIRE_SEC_OBJECT: u16 = 0x8000;

    /// All bits that some flag of the kind uses.
    pub const ALL: u16 = 0xFFFF;

    /// The flag word with no flag set.
    pub fn empty() -> (f: Self)
        ensures
            f.0 == 0,
    {
        MethodAttributes(0)
    }

    /// The raw bits.
    pub fn bits(self) -> (b: u16)
        ensures
            b == self.0,
    {
        self.0
    }

    /// The flag word of `bits`, without the bits that no flag uses.
    pub fn from_bits_truncate(bits: u16) -> (f: Self)
        ensures
            f.0 == bits & 0xFFFF,
            f.0 == bits & Self::ALL,
    {
        MethodAttributes(bits & 0xFFFF)
    }

    /// Whether every bit of `flags` is set.
    pub fn contains(self, flags: u16) -> (b: bool)
        ensures
            b == (self.0 & flags == flags),
    {
        self.0 & flags == flags
    }
}

/// Flag word of kind `ParameterAttributes`.
#[derive(Debug, Clone, Copy, PartialEq, Eq, Hash, Structural)]
pub struct ParameterAttributes(pub u16);

impl Default for ParameterAttributes {
    fn default() -> (f: Self)
        ensures
            f.0 == 0,
    {
        ParameterAttributes(0)
    }
}

impl ParameterAttributes {
    pub const NONE: u16 = 0x0000;
    pub const IN: u16 = 0x0001;
    pub const OUT: u16 = 0x0002;
    pub const LCID: u16 = 0x0004;
    pub const RETVAL: u16 = 0x0008;
    pub const OPTIONAL: u16 = 0x0010;
    pub const HAS_DEFAULT: u16 = 0x1000;
    pub const HAS_FIELD_MARSHAL: u16 = 0x2000;

    /// All bits that some flag of the kind uses.
    pub const ALL: u16 = 0x301F;

    /// The flag word with no flag set.
    pub fn empty() -> (f: Self)
        ensures
            f.0 == 0,
    {
        ParameterAttributes(0)
    }

    /// The raw bits.
    pub fn bits(self) -> (b: u16)
        ensures
            b == self.0,
    {
        self.0
    }

    /// The flag word of `bits`, without the bits that no flag uses.
    pub fn from_bits_truncate(bits: u16) -> (f: Self)
        ensures
            f.0 == bits & 0x301F,
            f.0 == bits & Self::ALL,
    {
        ParameterAttributes(bits & 0x301F)
    }

    /// Whether every bit of `flags` is set.
    pub fn contains(self, flags: u16) -> (b: bool)
        ensures
            b == (self.0 & flags == flags),
    {
        self.0 & flags == flags
    }
}

/// Flag word of kind `PropertyAttributes`.
#[derive(Debug, Clone, Copy, PartialEq, Eq, Hash, Structural)]
pub struct PropertyAttributes(pub u16);

impl Default for PropertyAttributes {
    fn default() -> (f: Self)
        ensures
            f.0 == 0,
    {
        PropertyAttributes(0)
    }
}

impl PropertyAttributes {
    pub const NONE: u16 = 0x0000;
    pub const SPECIAL_NAME: u16 = 0x0200;
    pub const RTSPECIAL_NAME: u16 = 0x0400;
    pub const HAS_DEFAULT: u16 = 0x1000;

    /// All bits that some flag of the kind uses.
    pub const ALL: u16 = 0x1600;

    /// The flag word with no flag set.
    pub fn empty() -> (f: Self)
        ensures
            f.0 == 0,
    {
        PropertyAttributes(0)
    }

    /// The raw bits.
    pub fn bits(self) -> (b: u16)
        ensures
            b == self.0,
    {
        self.0
    }

    /// The flag word of `bits`, without the bits that no flag uses.
    pub fn from_bits_truncate(bits: u16) -> (f: Self)
        ensures
            f.0 == bits & 0x1600,
            f.0 == bits & Self::ALL,
    {
        PropertyAttributes(bits & 0x1600)
    }

    /// Whether every bit of `flags` is set.
    pub fn contains(self, flags: u16) -> (b: bool)
        ensures
            b == (self.0 & flags == flags),
    {
        self.0 & flags == flags
    }
}

/// Flag word of kind `EventAttributes`.
#[derive(Debug, Clone, Copy, PartialEq, Eq, Hash, Structural)]
pub struct EventAttributes(pub u16);

impl Default for EventAttributes {
    fn default() -> (f: Self)
        ensures
            f.0 == 0,
    {
        EventAttributes(0)
    }
}

impl EventAttributes {
    pub const NONE: u16 = 0x0000;
    pub const SPECIAL_NAME: u16 = 0x0200;
    pub const RTSPECIAL_NAME: u16 = 0x0400;

    /// All bits that some flag of the kind uses.
    pub const ALL: u16 = 0x0600;

    /// The flag word with no flag set.
    pub fn empty() -> (f: Self)
        ensures
            f.0 == 0,
    {
        EventAttributes(0)
    }

    /// The raw bits.
    pub fn bits(self) -> (b: u16)
        ensures
            b == self.0,
    {
        self.0
    }

    /// The flag word of `bits`, without the bits that no flag uses.
    pub fn from_bits_truncate(bits: u16) -> (f: Self)
        ensures
            f.0 == bits & 0x0600,
            f.0 == bits & Self::ALL,
    {
        EventAttributes(bits & 0x0600)
    }

    /// Whether every bit of `flags` is set.
    pub fn contains(self, flags: u16) -> (b: bool)
        ensures
            b == (self.0 & flags == flags),
    {
        self.0 & flags == flags
    }
}

/// Flag word of kind `GenericParameterAttributes`.
#[derive(Debug, Clone, Copy, PartialEq, Eq, Hash, Structural)]
pub struct GenericParameterAttributes(pub u16);

impl Default for GenericParameterAttributes {
    fn default() -> (f: Self)
        ensures
            f.0 == 0,
    {
        GenericParameterAttributes(0)
    }
}

impl GenericParameterAttributes {
    pub const VARIANCE_MASK: u16 = 0x0003;
    pub const NON_VARIANT: u16 = 0x0000;
    pub const COVARIANT: u16 = 0x0001;
    pub const CONTRAVARIANT: u16 = 0x0002;
    pub const SPECIAL_CONSTRAINT_MASK: u16 = 0x001C;
    pub const REFERENCE_TYPE_CONSTRAINT: u16 = 0x0004;
    pub const NOT_NULLABLE_VALUE_TYPE_CONSTRAINT: u16 = 0x0008;
    pub const DEFAULT_CONSTRUCTOR_CONSTRAINT: u16 = 0x0010;
    pub const ALLOW_BY_REF_LIKE_CONSTRAINT: u16 = 0x0020;

    /// All bits that some flag of the kind uses.
    pub const ALL: u16 = 0x003F;

    /// The flag word with no flag set.
    pub fn empty() -> (f: Self)
        ensures
            f.0 == 0,
    {
        GenericParameterAttributes(0)
    }

    /// The raw bits.
    pub fn bits(self) -> (b: u16)
        ensures
            b == self.0,
    {
        self.0
    }

    /// The flag word of `bits`, without the bits that no flag uses.
    pub fn from_bits_truncate(bits: u16) -> (f: Self)
        ensures
            f.0 == bits & 0x003F,
            f.0 == bits & Self::ALL,
    {
        GenericParameterAttributes(bits & 0x003F)
    }

    /// Whether every bit of `flags` is set.
    pub fn contains(self, flags: u16) -> (b: bool)
        ensures
            b == (self.0 & flags == flags),
    {
        self.0 & flags == flags
    }
}

/// Flag word of kind `MethodImplAttributes`.
#[derive(Debug, Clone, Copy, PartialEq, Eq, Hash, Structural)]
pub struct MethodImplAttributes(pub u16);

impl Default for MethodImplAttributes {
    fn default() -> (f: Self)
        ensures
            f.0 == 0,
    {
        MethodImplAttributes(0)
    }
}

impl MethodImplAttributes {
    pub const CODE_TYPE_MASK: u16 = 0x0003;
    pub const IL: u16 = 0x0000;
    pub const NATIVE: u16 = 0x0001;
    pub const OPTIL: u16 = 0x0002;
    pub const RUNTIME: u16 = 0x0003;
    pub const MANAGED_MASK: u16 = 0x0004;
    pub const UNMANAGED: u16 = 0x0004;
    pub const MANAGED: u16 = 0x0000;
    pub const FORWARD_REF: u16 = 0x0010;
    pub const SYNCHRONIZED: u16 = 0x0020;
    pub const NO_OPTIMIZATION: u16 = 0x0040;
    pub const NO_INLINING: u16 = 0x0008;
    pub const PRESERVE_SIG: u16 = 0x0080;
    pub const AGGRESSIVE_INLINING: u16 = 0x0100;
    pub const AGGRESSIVE_OPTIMIZATION: u16 = 0x0200;
    pub const INTERNAL_CALL: u16 = 0x1000;

    /// All bits that some flag of the kind uses.
    pub const ALL: u16 = 0x13FF;

    /// The flag word with no flag set.
    pub fn empty() -> (f: Self)
        ensures
            f.0 == 0,
    {
        MethodImplAttributes(0)
    }

    /// The raw bits.
    pub fn bits(self) -> (b: u16)
        ensures
            b == self.0,
    {
        self.0
    }

    /// The flag word of `bits`, without the bits that no flag uses.
    pub fn from_bits_truncate(bits: u16) -> (f: Self)
        ensures
            f.0 == bits & 0x13FF,
            f.0 == bits & Self::ALL,
    {
        MethodImplAttributes(bits & 0x13FF)
    }

    /// Whether every bit of `flags` is set.
    pub fn contains(self, flags: u16) -> (b: bool)
        ensures
            b == (self.0 & flags == flags),
    {
        self.0 & flags == flags
    }
}

/// Flag word of kind `MethodSemanticsAttributes`.
#[derive(Debug, Clone, Copy, PartialEq, Eq, Hash, Structural)]
pub struct MethodSemanticsAttributes(pub u16);

impl Default for MethodSemanticsAttributes {
    fn default() -> (f: Self)
        ensures
            f.0 == 0,
    {
        MethodSemanticsAttributes(0)
    }
}

impl MethodSemanticsAttributes {
    pub const NONE: u16 = 0x0000;
    pub const SETTER: u16 = 0x0001;
    pub const GETTER: u16 = 0x0002;
    pub const OTHER: u16 = 0x0004;
    pub const ADD_ON: u16 = 0x0008;
    pub const REMOVE_ON: u16 = 0x0010;
    pub const FIRE: u16 = 0x0020;

    /// All bits that some flag of the kind uses.
    pub const ALL: u16 = 0x003F;

    /// The flag word with no flag set.
    pub fn empty() -> (f: Self)
        ensures
            f.0 == 0,
    {
        MethodSemanticsAttributes(0)
    }

    /// The raw bits.
    pub fn bits(self) -> (b: u16)
        ensures
            b == self.0,
    {
        self.0
    }

    /// The flag word of `bits`, without the bits that no flag uses.
    pub fn from_bits_truncate(bits: u16) -> (f: Self)
        ensures
            f.0 == bits & 0x003F,
            f.0 == bits & Self::ALL,
    {
        MethodSemanticsAttributes(bits & 0x003F)
    }

    /// Whether every bit of `flags` is set.
    pub fn contains(self, flags: u16) -> (b: bool)
        ensures
            b == (self.0 & flags == flags),
    {
        self.0 & flags == flags
    }
}

/// Flag word of kind `PInvokeAttributes`.
#[derive(Debug, Clone, Copy, PartialEq, Eq, Hash, Structural)]
pub struct PInvokeAttributes(pub u16);

impl Default for PInvokeAttributes {
    fn default() -> (f: Self)
        ensures
            f.0 == 0,
    {
        PInvokeAttributes(0)
    }
}

impl PInvokeAttributes {
    pub const NO_MANGLE: u16 = 0x0001;
    pub const CHAR_SET_MASK: u16 = 0x0006;
    pub const CHAR_SET_NOT_SPEC: u16 = 0x0000;
    pub const CHAR_SET_ANSI: u16 = 0x0002;
    pub const CHAR_SET_UNICODE: u16 = 0x0004;
    pub const CHAR_SET_AUTO: u16 = 0x0006;
    pub const BEST_FIT_MASK: u16 = 0x0030;
    pub const BEST_FIT_ENABLED: u16 = 0x0010;
    pub const BEST_FIT_DISABLED: u16 = 0x0020;
    pub const SUPPORTS_LAST_ERROR: u16 = 0x0040;
    pub const CALL_CONV_MASK: u16 = 0x0700;
    pub const CALL_CONV_WINAPI: u16 = 0x0100;
    pub const CALL_CONV_CDECL: u16 = 0x0200;
    pub const CALL_CONV_STDCALL: u16 = 0x0300;
    pub const CALL_CONV_THISCALL: u16 = 0x0400;
    pub const CALL_CONV_FASTCALL: u16 = 0x0500;
    pub const THROW_ON_UNMAPPABLE_CHAR_MASK: u16 = 0x3000;
    pub const THROW_ON_UNMAPPABLE_CHAR_ENABLED: u16 = 0x1000;
    pub const THROW_ON_UNMAPPABLE_CHAR_DISABLED: u16 = 0x2000;

    /// All bits that some flag of the kind uses.
    pub const ALL: u16 = 0x3777;

    /// The flag word with no flag set.
    pub fn empty() -> (f: Self)
        ensures
            f.0 == 0,
    {
        PInvokeAttributes(0)
    }

    /// The raw bits.
    pub fn bits(self) -> (b: u16)
        ensures
            b == self.0,
    {
        self.0
    }

    /// The flag word of `bits`, without the bits that no flag uses.
    pub fn from_bits_truncate(bits: u16) -> (f: Self)
        ensures
            f.0 == bits & 0x3777,
            f.0 == bits & Self::ALL,
    {
        PInvokeAttributes(bits & 0x3777)
    }

    /// Whether every bit of `flags` is set.
    pub fn contains(self, flags: u16) -> (b: bool)
        ensures
            b == (self.0 & flags == flags),
    {
        self.0 & flags == flags
    }
}

/// Flag word of kind `ManifestResourceAttributes`.
#[derive(Debug, Clone, Copy, PartialEq, Eq, Hash, Structural)]
pub struct ManifestResourceAttributes(pub u32);

impl Default for ManifestResourceAttributes {
    fn default() -> (f: Self)
        ensures
            f.0 == 0,
    {
        ManifestResourceAttributes(0)
    }
}

impl ManifestResourceAttributes {
    pub const VISIBILITY_MASK: u32 = 0x0000_0007;
    pub const PUBLIC: u32 = 0x0000_0001;
    pub const PRIVATE: u32 = 0x0000_0002;

    /// All bits that some flag of the kind uses.
    pub const ALL: u32 = 0x00000007;

    /// The flag word with no flag set.
    pub fn empty() -> (f: Self)
        ensures
            f.0 == 0,
    {
        ManifestResourceAttributes(0)
    }

    /// The raw bits.
    pub fn bits(self) -> (b: u32)
        ensures
            b == self.0,
    {
        self.0
    }

    /// The flag word of `bits`, without the bits that no flag uses.
    pub fn from_bits_truncate(bits: u32) -> (f: Self)
        ensures
            f.0 == bits & 0x00000007,
            f.0 == bits & Self::ALL,
    {
        ManifestResourceAttributes(bits & 0x00000007)
    }

    /// Whether every bit of `flags` is set.
    pub fn contains(self, flags: u32) -> (b: bool)
        ensures
            b == (self.0 & flags == flags),
    {
        self.0 & flags == flags
    }
}

/// Flag word of kind `AssemblyAttributes`.
#[derive(Debug, Clone, Copy, PartialEq, Eq, Hash, Structural)]
pub struct AssemblyAttributes(pub u32);

impl Default for AssemblyAttributes {
    fn default() -> (f: Self)
        ensures
            f.0 == 0,
    {
        AssemblyAttributes(0)
    }
}

impl AssemblyAttributes {
    pub const PUBLIC_KEY: u32 = 0x0001;
    pub const SIDE_BY_SIDE_COMPATIBLE: u32 = 0x0000;
    pub const RETARGETABLE: u32 = 0x0100;
    pub const WINDOWS_RUNTIME: u32 = 0x0200;
    pub const DISABLE_JIT_COMPILE_OPTIMIZER: u32 = 0x4000;
    pub const ENABLE_JIT_COMPILE_TRACKING: u32 = 0x8000;

    /// All bits that some flag of the kind uses.
    pub const ALL: u32 = 0x0000C301;

    /// The flag word with no flag set.
    pub fn empty() -> (f: Self)
        ensures
            f.0 == 0,
    {
        AssemblyAttributes(0)
    }

    /// The raw bits.
    pub fn bits(self) -> (b: u32)
        ensures
            b == self.0,
    {
        self.0
    }

    /// The flag word of `bits`, without the bits that no flag uses.
    pub fn from_bits_truncate(bits: u32) -> (f: Self)
        ensures
            f.0 == bits & 0x0000C301,
            f.0 == bits & Self::ALL,
    {
        AssemblyAttributes(bits & 0x0000C301)
    }

    /// Whether every bit of `flags` is set.
    pub fn contains(self, flags: u32) -> (b: bool)
        ensures
            b == (self.0 & flags == flags),
    {
        self.0 & flags == flags
    }
}

/// Flag word of kind `FileRowAttributes`.
#[derive(Debug, Clone, Copy, PartialEq, Eq, Hash, Structural)]
pub struct FileRowAttributes(pub u32);

impl Default for FileRowAttributes {
    fn default() -> (f: Self)
        ensures
            f.0 == 0,
    {
        FileRowAttributes(0)
    }
}

impl FileRowAttributes {
    pub const CONTAINS_METADATA: u32 = 0x0000;
    pub const CONTAINS_NO_METADATA: u32 = 0x0001;

    /// All bits that some flag of the kind uses.
    pub const ALL: u32 = 0x00000001;

    /// The flag word with no flag set.
    pub fn empty() -> (f: Self)
        ensures
            f.0 == 0,
    {
        FileRowAttributes(0)
    }

    /// The raw bits.
    pub fn bits(self) -> (b: u32)
        ensures
            b == self.0,
    {
        self.0
    }

    /// The flag word of `bits`, without the bits that no flag uses.
    pub fn from_bits_truncate(bits: u32) -> (f: Self)
        ensures
            f.0 == bits & 0x00000001,
            f.0 == bits & Self::ALL,
    {
        FileRowAttributes(bits & 0x00000001)
    }

    /// Whether every bit of `flags` is set.
    pub fn contains(self, flags: u32) -> (b: bool)
        ensures
            b == (self.0 & flags == flags),
    {
        self.0 & flags == flags
    }
}

/// Flag word of kind `ModuleAttributes`.
#[derive(Debug, Clone, Copy, PartialEq, Eq, Hash, Structural)]
pub struct ModuleAttributes(pub u32);

impl Default for ModuleAttributes {
    fn default() -> (f: Self)
        ensures
            f.0 == 0,
    {
        ModuleAttributes(0)
    }
}

impl ModuleAttributes {
    pub const IL_ONLY: u32 = 0x0000_0001;
    pub const REQUIRED_32_BIT: u32 = 0x0000_0002;
    pub const IL_LIBRARY: u32 = 0x0000_0004;
    pub const STRONG_NAME_SIGNED: u32 = 0x0000_0008;
    pub const TRACK_DEBUG_DATA: u32 = 0x0001_0000;
    pub const PREFERRED_32_BIT: u32 = 0x0002_0000;

    /// All bits that some flag of the kind uses.
    pub const ALL: u32 = 0x0003000F;

    /// The flag word with no flag set.
    pub fn empty() -> (f: Self)
        ensures
            f.0 == 0,
    {
        ModuleAttributes(0)
    }

    /// The raw bits.
    pub fn bits(self) -> (b: u32)
        ensures
            b == self.0,
    {
        self.0
    }

    /// The flag word of `bits`, without the bits that no flag uses.
    pub fn from_bits_truncate(bits: u32) -> (f: Self)
        ensures
            f.0 == bits & 0x0003000F,
            f.0 == bits & Self::ALL,
    {
        ModuleAttributes(bits & 0x0003000F)
    }

    /// Whether every bit of `flags` is set.
    pub fn contains(self, flags: u32) -> (b: bool)
        ensures
            b == (self.0 & flags == flags),
    {
        self.0 & flags == flags
    }
}

/// Flag word of kind `ModuleCharacteristics`.
#[derive(Debug, Clone, Copy, PartialEq, Eq, Hash, Structural)]
pub struct ModuleCharacteristics(pub u16);

impl Default for ModuleCharacteristics {
    fn default() -> (f: Self)
        ensures
            f.0 == 0,
    {
        ModuleCharacteristics(0)
    }
}

impl ModuleCharacteristics {
    pub const HIGH_ENTROPY_VA: u16 = 0x0020;
    pub const DYNAMIC_BASE: u16 = 0x0040;
    pub const NO_SEH: u16 = 0x0400;
    pub const NX_COMPAT: u16 = 0x0100;
    pub const APP_CONTAINER: u16 = 0x1000;
    pub const TERMINAL_SERVER_AWARE: u16 = 0x8000;

    /// All bits that some flag of the kind uses.
    pub const ALL: u16 = 0x9560;

    /// The flag word with no flag set.
    pub fn empty() -> (f: Self)
        ensures
            f.0 == 0,
    {
        ModuleCharacteristics(0)
    }

    /// The raw bits.
    pub fn bits(self) -> (b: u16)
        ensures
            b == self.0,
    {
        self.0
    }

    /// The flag word of `bits`, without the bits that no flag uses.
    pub fn from_bits_truncate(bits: u16) -> (f: Self)
        ensures
            f.0 == bits & 0x9560,
            f.0 == bits & Self::ALL,
    {
        ModuleCharacteristics(bits & 0x9560)
    }

    /// Whether every bit of `flags` is set.
    pub fn contains(self, flags: u16) -> (b: bool)
        ensures
            b == (self.0 & flags == flags),
    {
        self.0 & flags == flags
    }
}

/// The flag word with its visibility bits replaced by the bits of `v`.
pub open spec fn set_visibility(f: TypeAttributes, v: u32) -> TypeAttributes {
    TypeAttributes(((f.0 & !0x7u32) | v) & TypeAttributes::ALL)
}

/// A visibility that was set reads back, and setting it changes no other flag
/// of the kind.
pub proof fn visibility_round_trip(f: TypeAttributes, v: u32)
    requires
        v <= 7,
    ensures
        set_visibility(f, v).0 & 0x7 == v,
        set_visibility(f, v).0 & !0x7u32 == (f.0 & TypeAttributes::ALL) & !0x7u32,
{
    let b = f.0;
    assert((((b & !0x7u32) | v) & 0x0037_7DBF) & 0x7 == v && (((b & !0x7u32) | v) & 0x0037_7DBF)
        & !0x7u32 == (b & 0x0037_7DBF) & !0x7u32) by (bit_vector)
        requires
            v <= 7,
    ;
}

/// CLI header runtime kind.
#[derive(Debug, Clone, Copy, PartialEq, Eq, Hash, Structural)]
pub enum ModuleKind {
    Dll,
    Console,
    Windows,
    NetModule,
}

/// What kind of metadata a module carries.
#[derive(Debug, Clone, Copy, PartialEq, Eq, Hash, Structural)]
pub enum MetadataKind {
    Ecma335,
    WindowsMetadata,
    ManagedWindowsMetadata,
}

/// Target CPU architecture (PE machine discriminator).
#[derive(Debug, Clone, Copy, PartialEq, Eq, Hash, Structural)]
pub enum TargetArchitecture {
    I386,
    AMD64,
    IA64,
    ARM,
    ARMv7,
    ARM64,
}

impl TargetArchitecture {
    /// The machine number of the architecture.
    pub open spec fn number(self) -> u16 {
        match self {
            TargetArchitecture::I386 => 0x014c,
            TargetArchitecture::AMD64 => 0x8664,
            TargetArchitecture::IA64 => 0x0200,
            TargetArchitecture::ARM => 0x01c0,
            TargetArchitecture::ARMv7 => 0x01c4,
            TargetArchitecture::ARM64 => 0xaa64,
        }
    }

    /// The machine number of the architecture.
    pub fn machine(self) -> (v: u16)
        ensures
            v == self.number(),
    {
        match self {
            TargetArchitecture::I386 => 0x014c,
            TargetArchitecture::AMD64 => 0x8664,
            TargetArchitecture::IA64 => 0x0200,
            TargetArchitecture::ARM => 0x01c0,
            TargetArchitecture::ARMv7 => 0x01c4,
            TargetArchitecture::ARM64 => 0xaa64,
        }
    }

    /// The architecture with the machine number `v`, if there is one.
    pub fn from_machine(v: u16) -> (r: Option<Self>)
        ensures
            match r {
                Some(t) => t.number() == v,
                None => forall|t: TargetArchitecture| #[trigger] t.number() != v,
            },
    {
        Some(
            match v {
                0x014c => TargetArchitecture::I386,
                0x8664 => TargetArchitecture::AMD64,
                0x0200 => TargetArchitecture::IA64,
                0x01c0 => TargetArchitecture::ARM,
                0x01c4 => TargetArchitecture::ARMv7,
                0xaa64 => TargetArchitecture::ARM64,
                _ => return None,
            },
        )
    }
}

/// CLR runtime version a module targets.
#[derive(Debug, Clone, Copy, PartialEq, Eq, PartialOrd, Ord, Hash, Structural)]
pub enum TargetRuntime {
    Net10,
    Net11,
    Net20,
    Net40,
}

/// Hash algorithm of the files of an assembly.
#[derive(Debug, Clone, Copy, PartialEq, Eq, Hash, Structural)]
pub enum AssemblyHashAlgorithm {
    NoHash,
    Md5,
    Sha1,
    Sha256,
    Sha384,
    Sha512,
}

impl AssemblyHashAlgorithm {
    /// The number that stands for the value.
    pub open spec fn number(self) -> u32 {
        match self {
            AssemblyHashAlgorithm::NoHash => 0,
            AssemblyHashAlgorithm::Md5 => 0x8003,
            AssemblyHashAlgorithm::Sha1 => 0x8004,
            AssemblyHashAlgorithm::Sha256 => 0x800C,
            AssemblyHashAlgorithm::Sha384 => 0x800D,
            AssemblyHashAlgorithm::Sha512 => 0x800E,
        }
    }

    /// The number that stands for the value.
    pub fn to_u32(self) -> (v: u32)
        ensures
            v == self.number(),
    {
        match self {
            AssemblyHashAlgorithm::NoHash => 0,
            AssemblyHashAlgorithm::Md5 => 0x8003,
            AssemblyHashAlgorithm::Sha1 => 0x8004,
            AssemblyHashAlgorithm::Sha256 => 0x800C,
            AssemblyHashAlgorithm::Sha384 => 0x800D,
            AssemblyHashAlgorithm::Sha512 => 0x800E,
        }
    }

    /// The value that `v` stands for, if there is one.
    pub fn from_u32(v: u32) -> (r: Option<Self>)
        ensures
            match r {
                Some(t) => t.number() == v,
                None => forall|t: AssemblyHashAlgorithm| #[trigger] t.number() != v,
            },
    {
        Some(
            match v {
                0 => AssemblyHashAlgorithm::NoHash,
                0x8003 => AssemblyHashAlgorithm::Md5,
                0x8004 => AssemblyHashAlgorithm::Sha1,
                0x800C => AssemblyHashAlgorithm::Sha256,
                0x800D => AssemblyHashAlgorithm::Sha384,
                0x800E => AssemblyHashAlgorithm::Sha512,
                _ => return None,
            },
        )
    }
}

/// DeclSecurity action codes.
#[derive(Debug, Clone, Copy, PartialEq, Eq, Hash, Structural)]
pub enum SecurityAction {
    Request,
    Demand,
    Assert,
    Deny,
    PermitOnly,
    LinkDemand,
    InheritanceDemand,
    RequestMinimum,
    RequestOptional,
    RequestRefuse,
    PreJitGrant,
    PreJitDeny,
    NonCasDemand,
    NonCasLinkDemand,
    NonCasInheritance,
}

impl SecurityAction {
    /// The number that stands for the value.
    pub open spec fn number(self) -> u16 {
        match self {
            SecurityAction::Request => 1,
            SecurityAction::Demand => 2,
            SecurityAction::Assert => 3,
            SecurityAction::Deny => 4,
            SecurityAction::PermitOnly => 5,
            SecurityAction::LinkDemand => 6,
            SecurityAction::InheritanceDemand => 7,
            SecurityAction::RequestMinimum => 8,
            SecurityAction::RequestOptional => 9,
            SecurityAction::RequestRefuse => 10,
            SecurityAction::PreJitGrant => 11,
            SecurityAction::PreJitDeny => 12,
            SecurityAction::NonCasDemand => 13,
            SecurityAction::NonCasLinkDemand => 14,
            SecurityAction::NonCasInheritance => 15,
        }
    }

    /// The number that stands for the value.
    pub fn to_u16(self) -> (v: u16)
        ensures
            v == self.number(),
    {
        match self {
            SecurityAction::Request => 1,
            SecurityAction::Demand => 2,
            SecurityAction::Assert => 3,
            SecurityAction::Deny => 4,
            SecurityAction::PermitOnly => 5,
            SecurityAction::LinkDemand => 6,
            SecurityAction::InheritanceDemand => 7,
            SecurityAction::RequestMinimum => 8,
            SecurityAction::RequestOptional => 9,
            SecurityAction::RequestRefuse => 10,
            SecurityAction::PreJitGrant => 11,
            SecurityAction::PreJitDeny => 12,
            SecurityAction::NonCasDemand => 13,
            SecurityAction::NonCasLinkDemand => 14,
            SecurityAction::NonCasInheritance => 15,
        }
    }

    /// The value that `v` stands for, if there is one.
    pub fn from_u16(v: u16) -> (r: Option<Self>)
        ensures
            match r {
                Some(t) => t.number() == v,
                None => forall|t: SecurityAction| #[trigger] t.number() != v,
            },
    {
        Some(
            match v {
                1 => SecurityAction::Request,
                2 => SecurityAction::Demand,
                3 => SecurityAction::Assert,
                4 => SecurityAction::Deny,
                5 => SecurityAction::PermitOnly,
                6 => SecurityAction::LinkDemand,
                7 => SecurityAction::InheritanceDemand,
                8 => SecurityAction::RequestMinimum,
                9 => SecurityAction::RequestOptional,
                10 => SecurityAction::RequestRefuse,
                11 => SecurityAction::PreJitGrant,
                12 => SecurityAction::PreJitDeny,
                13 => SecurityAction::NonCasDemand,
                14 => SecurityAction::NonCasLinkDemand,
                15 => SecurityAction::NonCasInheritance,
                _ => return None,
            },
        )
    }

    /// The name that the action goes by.
    pub open spec fn label(self) -> Seq<char> {
        match self {
            SecurityAction::Request => "Request"@,
            SecurityAction::Demand => "Demand"@,
            SecurityAction::Assert => "Assert"@,
            SecurityAction::Deny => "Deny"@,
            SecurityAction::PermitOnly => "PermitOnly"@,
            SecurityAction::LinkDemand => "LinkDemand"@,
            SecurityAction::InheritanceDemand => "InheritanceDemand"@,
            SecurityAction::RequestMinimum => "RequestMinimum"@,
            SecurityAction::RequestOptional => "RequestOptional"@,
            SecurityAction::RequestRefuse => "RequestRefuse"@,
            SecurityAction::PreJitGrant => "PreJitGrant"@,
            SecurityAction::PreJitDeny => "PreJitDeny"@,
            SecurityAction::NonCasDemand => "NonCasDemand"@,
            SecurityAction::NonCasLinkDemand => "NonCasLinkDemand"@,
            SecurityAction::NonCasInheritance => "NonCasInheritance"@,
        }
    }

    /// The name of the action.
    pub fn name(self) -> (s: &'static str)
        ensures
            s@ == self.label(),
    {
        match self {
            SecurityAction::Request => "Request",
            SecurityAction::Demand => "Demand",
            SecurityAction::Assert => "Assert",
            SecurityAction::Deny => "Deny",
            SecurityAction::PermitOnly => "PermitOnly",
            SecurityAction::LinkDemand => "LinkDemand",
            SecurityAction::InheritanceDemand => "InheritanceDemand",
            SecurityAction::RequestMinimum => "RequestMinimum",
            SecurityAction::RequestOptional => "RequestOptional",
            SecurityAction::RequestRefuse => "RequestRefuse",
            SecurityAction::PreJitGrant => "PreJitGrant",
            SecurityAction::PreJitDeny => "PreJitDeny",
            SecurityAction::NonCasDemand => "NonCasDemand",
            SecurityAction::NonCasLinkDemand => "NonCasLinkDemand",
            SecurityAction::NonCasInheritance => "NonCasInheritance",
        }
    }
}

/// First byte of a method signature: calling convention.
#[derive(Debug, Clone, Copy, PartialEq, Eq, Hash, Structural)]
pub enum SignatureCallingConvention {
    Default,
    C,
    StdCall,
    ThisCall,
    FastCall,
    VarArg,
    Field,
    LocalSig,
    Property,
    Unmanaged,
    Generic,
}

impl SignatureCallingConvention {
    /// The number that stands for the value.
    pub open spec fn number(self) -> u8 {
        match self {
            SignatureCallingConvention::Default => 0x0,
            SignatureCallingConvention::C => 0x1,
            SignatureCallingConvention::StdCall => 0x2,
            SignatureCallingConvention::ThisCall => 0x3,
            SignatureCallingConvention::FastCall => 0x4,
            SignatureCallingConvention::VarArg => 0x5,
            SignatureCallingConvention::Field => 0x6,
            SignatureCallingConvention::LocalSig => 0x7,
            SignatureCallingConvention::Property => 0x8,
            SignatureCallingConvention::Unmanaged => 0x9,
            SignatureCallingConvention::Generic => 0x10,
        }
    }

    /// The number that stands for the value.
    pub fn to_u8(self) -> (v: u8)
        ensures
            v == self.number(),
    {
        match self {
            SignatureCallingConvention::Default => 0x0,
            SignatureCallingConvention::C => 0x1,
            SignatureCallingConvention::StdCall => 0x2,
            SignatureCallingConvention::ThisCall => 0x3,
            SignatureCallingConvention::FastCall => 0x4,
            SignatureCallingConvention::VarArg => 0x5,
            SignatureCallingConvention::Field => 0x6,
            SignatureCallingConvention::LocalSig => 0x7,
            SignatureCallingConvention::Property => 0x8,
            SignatureCallingConvention::Unmanaged => 0x9,
            SignatureCallingConvention::Generic => 0x10,
        }
    }
}

pub const CALL_CONVENTION_HAS_THIS: u8 = 0x20;

pub const CALL_CONVENTION_EXPLICIT_THIS: u8 = 0x40;

/// Every machine number, hash algorithm and security action code is found
/// again from its value, and stands for that value alone.
pub proof fn codes_injective(
    a: TargetArchitecture,
    b: TargetArchitecture,
    h: AssemblyHashAlgorithm,
    i: AssemblyHashAlgorithm,
    s: SecurityAction,
    t: SecurityAction,
)
    ensures
        a.number() == b.number() ==> a == b,
        h.number() == i.number() ==> h == i,
        s.number() == t.number() ==> s == t,
{
}

} // verus!
