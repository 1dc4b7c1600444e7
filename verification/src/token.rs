//! Metadata tokens, table indices and coded index groups.

use vstd::prelude::*;

use crate::text;

verus! {

/// A CLI metadata token: high byte = table, low 24 bits = row id (1-based).
#[derive(Debug, Clone, Copy, PartialEq, Eq, Hash, PartialOrd, Ord, Structural)]
pub struct Token(pub u32);

impl Token {
    /// The number of the table that the token names.
    pub open spec fn table_number(self) -> u8 {
        (self.0 / 0x100_0000) as u8
    }

    /// The row that the token names.
    pub open spec fn row(self) -> u32 {
        self.0 % 0x100_0000
    }

    /// The token that names nothing.
    pub fn nil() -> (t: Token)
        ensures
            t == Token(0),
    {
        Token(0)
    }

    /// The token of row `rid` of `table`; `rid` is cut to 24 bits.
    pub fn new(table: TableIndex, rid: u32) -> (t: Token)
        ensures
            t.table_number() == table.number(),
            t.row() == rid % 0x100_0000,
            t == token_of(table, rid),
    {
        Token(table.to_u8() as u32 * 0x100_0000 + rid % 0x100_0000)
    }

    pub fn is_nil(self) -> (b: bool)
        ensures
            b == (self.0 == 0),
    {
        self.0 == 0
    }

    /// The table that the token names.
    pub fn table(self) -> (t: TableIndex)
        requires
            is_table_number(self.table_number()),
        ensures
            t.number() == self.table_number(),
    {
        match TableIndex::from_u8(self.table_byte()) {
            Some(t) => t,
            None => {
                assert(false);
                TableIndex::Module
            },
        }
    }

    /// Raw table discriminator byte (works for portable-PDB tables too).
    pub fn table_byte(self) -> (b: u8)
        ensures
            b == self.table_number(),
    {
        (self.0 / 0x100_0000) as u8
    }

    /// 1-based row identifier.
    pub fn rid(self) -> (r: u32)
        ensures
            r == self.row(),
    {
        self.0 % 0x100_0000
    }

    /// The token as `0x` and eight upper-case hexadecimal digits.
    pub fn display(self) -> (s: String)
        ensures
            s@ == "0x"@ + text::hex_digits(self.0, 8),
    {
        let mut s: String = "0x".to_owned();
        text::push_hex(&mut s, self.0, 8);
        s
    }
}

/// The token of row `rid` of `table`.
pub open spec fn token_of(table: TableIndex, rid: u32) -> Token {
    Token((table.number() * 0x100_0000 + rid % 0x100_0000) as u32)
}

/// Whether some table has the number `v`.
pub open spec fn is_table_number(v: u8) -> bool {
    v <= 0x2C || 0x30 <= v <= 0x37
}

/// A token is taken apart into what it was made of.
pub proof fn token_parts(table: TableIndex, rid: u32)
    requires
        rid < 0x100_0000,
    ensures
        token_of(table, rid).table_number() == table.number(),
        token_of(table, rid).row() == rid,
{
}

/// Two tokens of rows that fit 24 bits are equal only for the same table and row.
pub proof fn token_injective(a: TableIndex, i: u32, b: TableIndex, j: u32)
    requires
        i < 0x100_0000,
        j < 0x100_0000,
        token_of(a, i) == token_of(b, j),
    ensures
        a == b,
        i == j,
{
    token_parts(a, i);
    token_parts(b, j);
    table_number_injective(a, b);
}

/// All metadata table identifiers, including the Portable PDB debug tables.
#[derive(Debug, Clone, Copy, PartialEq, Eq, Hash, PartialOrd, Ord, Structural)]
pub enum TableIndex {
    Module,
    TypeRef,
    TypeDef,
    FieldPtr,
    Field,
    MethodPtr,
    MethodDef,
    ParamPtr,
    Param,
    InterfaceImpl,
    MemberRef,
    Constant,
    CustomAttribute,
    FieldMarshal,
    DeclSecurity,
    ClassLayout,
    FieldLayout,
    StandAloneSig,
    EventMap,
    EventPtr,
    Event,
    PropertyMap,
    PropertyPtr,
    Property,
    MethodSemantics,
    MethodImpl,
    ModuleRef,
    TypeSpec,
    ImplMap,
    FieldRva,
    EncLog,
    EncMap,
    Assembly,
    AssemblyProcessor,
    AssemblyOS,
    AssemblyRef,
    AssemblyRefProcessor,
    AssemblyRefOS,
    File,
    ExportedType,
    ManifestResource,
    NestedClass,
    GenericParam,
    MethodSpec,
    GenericParamConstraint,
    Document,
    MethodDebugInformation,
    LocalScope,
    LocalVariable,
    LocalConstant,
    ImportScope,
    StateMachineMethod,
    CustomDebugInformation,
}

impl TableIndex {
    /// Number of the first Portable PDB table.
    pub const PORTABLE_PDB_FIRST: u8 = 0x30;

    /// The number of the table in tokens and in the table stream.
    pub open spec fn number(self) -> u8 {
        match self {
            TableIndex::Module => 0x00,
            TableIndex::TypeRef => 0x01,
            TableIndex::TypeDef => 0x02,
            TableIndex::FieldPtr => 0x03,
            TableIndex::Field => 0x04,
            TableIndex::MethodPtr => 0x05,
            TableIndex::MethodDef => 0x06,
            TableIndex::ParamPtr => 0x07,
            TableIndex::Param => 0x08,
            TableIndex::InterfaceImpl => 0x09,
            TableIndex::MemberRef => 0x0A,
            TableIndex::Constant => 0x0B,
            TableIndex::CustomAttribute => 0x0C,
            TableIndex::FieldMarshal => 0x0D,
            TableIndex::DeclSecurity => 0x0E,
            TableIndex::ClassLayout => 0x0F,
            TableIndex::FieldLayout => 0x10,
            TableIndex::StandAloneSig => 0x11,
            TableIndex::EventMap => 0x12,
            TableIndex::EventPtr => 0x13,
            TableIndex::Event => 0x14,
            TableIndex::PropertyMap => 0x15,
            TableIndex::PropertyPtr => 0x16,
            TableIndex::Property => 0x17,
            TableIndex::MethodSemantics => 0x18,
            TableIndex::MethodImpl => 0x19,
            TableIndex::ModuleRef => 0x1A,
            TableIndex::TypeSpec => 0x1B,
            TableIndex::ImplMap => 0x1C,
            TableIndex::FieldRva => 0x1D,
            TableIndex::EncLog => 0x1E,
            TableIndex::EncMap => 0x1F,
            TableIndex::Assembly => 0x20,
            TableIndex::AssemblyProcessor => 0x21,
            TableIndex::AssemblyOS => 0x22,
            TableIndex::AssemblyRef => 0x23,
            TableIndex::AssemblyRefProcessor => 0x24,
            TableIndex::AssemblyRefOS => 0x25,
            TableIndex::File => 0x26,
            TableIndex::ExportedType => 0x27,
            TableIndex::ManifestResource => 0x28,
            TableIndex::NestedClass => 0x29,
            TableIndex::GenericParam => 0x2A,
            TableIndex::MethodSpec => 0x2B,
            TableIndex::GenericParamConstraint => 0x2C,
            TableIndex::Document => 0x30,
            TableIndex::MethodDebugInformation => 0x31,
            TableIndex::LocalScope => 0x32,
            TableIndex::LocalVariable => 0x33,
            TableIndex::LocalConstant => 0x34,
            TableIndex::ImportScope => 0x35,
            TableIndex::StateMachineMethod => 0x36,
            TableIndex::CustomDebugInformation => 0x37,
        }
    }

    /// The name that the table goes by.
    pub open spec fn label(self) -> Seq<char> {
        match self {
            TableIndex::Module => "Module"@,
            TableIndex::TypeRef => "TypeRef"@,
            TableIndex::TypeDef => "TypeDef"@,
            TableIndex::FieldPtr => "FieldPtr"@,
            TableIndex::Field => "Field"@,
            TableIndex::MethodPtr => "MethodPtr"@,
            TableIndex::MethodDef => "MethodDef"@,
            TableIndex::ParamPtr => "ParamPtr"@,
            TableIndex::Param => "Param"@,
            TableIndex::InterfaceImpl => "InterfaceImpl"@,
            TableIndex::MemberRef => "MemberRef"@,
            TableIndex::Constant => "Constant"@,
            TableIndex::CustomAttribute => "CustomAttribute"@,
            TableIndex::FieldMarshal => "FieldMarshal"@,
            TableIndex::DeclSecurity => "DeclSecurity"@,
            TableIndex::ClassLayout => "ClassLayout"@,
            TableIndex::FieldLayout => "FieldLayout"@,
            TableIndex::StandAloneSig => "StandAloneSig"@,
            TableIndex::EventMap => "EventMap"@,
            TableIndex::EventPtr => "EventPtr"@,
            TableIndex::Event => "Event"@,
            TableIndex::PropertyMap => "PropertyMap"@,
            TableIndex::PropertyPtr => "PropertyPtr"@,
            TableIndex::Property => "Property"@,
            TableIndex::MethodSemantics => "MethodSemantics"@,
            TableIndex::MethodImpl => "MethodImpl"@,
            TableIndex::ModuleRef => "ModuleRef"@,
            TableIndex::TypeSpec => "TypeSpec"@,
            TableIndex::ImplMap => "ImplMap"@,
            TableIndex::FieldRva => "FieldRVA"@,
            TableIndex::EncLog => "EncLog"@,
            TableIndex::EncMap => "EncMap"@,
            TableIndex::Assembly => "Assembly"@,
            TableIndex::AssemblyProcessor => "AssemblyProcessor"@,
            TableIndex::AssemblyOS => "AssemblyOS"@,
            TableIndex::AssemblyRef => "AssemblyRef"@,
            TableIndex::AssemblyRefProcessor => "AssemblyRefProcessor"@,
            TableIndex::AssemblyRefOS => "AssemblyRefOS"@,
            TableIndex::File => "File"@,
            TableIndex::ExportedType => "ExportedType"@,
            TableIndex::ManifestResource => "ManifestResource"@,
            TableIndex::NestedClass => "NestedClass"@,
            TableIndex::GenericParam => "GenericParam"@,
            TableIndex::MethodSpec => "MethodSpec"@,
            TableIndex::GenericParamConstraint => "GenericParamConstraint"@,
            TableIndex::Document => "Document"@,
            TableIndex::MethodDebugInformation => "MethodDebugInformation"@,
            TableIndex::LocalScope => "LocalScope"@,
            TableIndex::LocalVariable => "LocalVariable"@,
            TableIndex::LocalConstant => "LocalConstant"@,
            TableIndex::ImportScope => "ImportScope"@,
            TableIndex::StateMachineMethod => "StateMachineMethod"@,
            TableIndex::CustomDebugInformation => "CustomDebugInformation"@,
        }
    }

    /// The number of the table.
    pub fn to_u8(self) -> (v: u8)
        ensures
            v == self.number(),
            is_table_number(v),
    {
        match self {
            TableIndex::Module => 0x00,
            TableIndex::TypeRef => 0x01,
            TableIndex::TypeDef => 0x02,
            TableIndex::FieldPtr => 0x03,
            TableIndex::Field => 0x04,
            TableIndex::MethodPtr => 0x05,
            TableIndex::MethodDef => 0x06,
            TableIndex::ParamPtr => 0x07,
            TableIndex::Param => 0x08,
            TableIndex::InterfaceImpl => 0x09,
            TableIndex::MemberRef => 0x0A,
            TableIndex::Constant => 0x0B,
            TableIndex::CustomAttribute => 0x0C,
            TableIndex::FieldMarshal => 0x0D,
            TableIndex::DeclSecurity => 0x0E,
            TableIndex::ClassLayout => 0x0F,
            TableIndex::FieldLayout => 0x10,
            TableIndex::StandAloneSig => 0x11,
            TableIndex::EventMap => 0x12,
            TableIndex::EventPtr => 0x13,
            TableIndex::Event => 0x14,
            TableIndex::PropertyMap => 0x15,
            TableIndex::PropertyPtr => 0x16,
            TableIndex::Property => 0x17,
            TableIndex::MethodSemantics => 0x18,
            TableIndex::MethodImpl => 0x19,
            TableIndex::ModuleRef => 0x1A,
            TableIndex::TypeSpec => 0x1B,
            TableIndex::ImplMap => 0x1C,
            TableIndex::FieldRva => 0x1D,
            TableIndex::EncLog => 0x1E,
            TableIndex::EncMap => 0x1F,
            TableIndex::Assembly => 0x20,
            TableIndex::AssemblyProcessor => 0x21,
            TableIndex::AssemblyOS => 0x22,
            TableIndex::AssemblyRef => 0x23,
            TableIndex::AssemblyRefProcessor => 0x24,
            TableIndex::AssemblyRefOS => 0x25,
            TableIndex::File => 0x26,
            TableIndex::ExportedType => 0x27,
            TableIndex::ManifestResource => 0x28,
            TableIndex::NestedClass => 0x29,
            TableIndex::GenericParam => 0x2A,
            TableIndex::MethodSpec => 0x2B,
            TableIndex::GenericParamConstraint => 0x2C,
            TableIndex::Document => 0x30,
            TableIndex::MethodDebugInformation => 0x31,
            TableIndex::LocalScope => 0x32,
            TableIndex::LocalVariable => 0x33,
            TableIndex::LocalConstant => 0x34,
            TableIndex::ImportScope => 0x35,
            TableIndex::StateMachineMethod => 0x36,
            TableIndex::CustomDebugInformation => 0x37,
        }
    }

    /// The table with the number `v`, if there is one.
    pub fn from_u8(v: u8) -> (r: Option<Self>)
        ensures
            r is Some <==> is_table_number(v),
            r is Some ==> r->Some_0.number() == v,
    {
        let t = match v {
            0x00 => TableIndex::Module,
            0x01 => TableIndex::TypeRef,
            0x02 => TableIndex::TypeDef,
            0x03 => TableIndex::FieldPtr,
            0x04 => TableIndex::Field,
            0x05 => TableIndex::MethodPtr,
            0x06 => TableIndex::MethodDef,
            0x07 => TableIndex::ParamPtr,
            0x08 => TableIndex::Param,
            0x09 => TableIndex::InterfaceImpl,
            0x0A => TableIndex::MemberRef,
            0x0B => TableIndex::Constant,
            0x0C => TableIndex::CustomAttribute,
            0x0D => TableIndex::FieldMarshal,
            0x0E => TableIndex::DeclSecurity,
            0x0F => TableIndex::ClassLayout,
            0x10 => TableIndex::FieldLayout,
            0x11 => TableIndex::StandAloneSig,
            0x12 => TableIndex::EventMap,
            0x13 => TableIndex::EventPtr,
            0x14 => TableIndex::Event,
            0x15 => TableIndex::PropertyMap,
            0x16 => TableIndex::PropertyPtr,
            0x17 => TableIndex::Property,
            0x18 => TableIndex::MethodSemantics,
            0x19 => TableIndex::MethodImpl,
            0x1A => TableIndex::ModuleRef,
            0x1B => TableIndex::TypeSpec,
            0x1C => TableIndex::ImplMap,
            0x1D => TableIndex::FieldRva,
            0x1E => TableIndex::EncLog,
            0x1F => TableIndex::EncMap,
            0x20 => TableIndex::Assembly,
            0x21 => TableIndex::AssemblyProcessor,
            0x22 => TableIndex::AssemblyOS,
            0x23 => TableIndex::AssemblyRef,
            0x24 => TableIndex::AssemblyRefProcessor,
            0x25 => TableIndex::AssemblyRefOS,
            0x26 => TableIndex::File,
            0x27 => TableIndex::ExportedType,
            0x28 => TableIndex::ManifestResource,
            0x29 => TableIndex::NestedClass,
            0x2A => TableIndex::GenericParam,
            0x2B => TableIndex::MethodSpec,
            0x2C => TableIndex::GenericParamConstraint,
            0x30 => TableIndex::Document,
            0x31 => TableIndex::MethodDebugInformation,
            0x32 => TableIndex::LocalScope,
            0x33 => TableIndex::LocalVariable,
            0x34 => TableIndex::LocalConstant,
            0x35 => TableIndex::ImportScope,
            0x36 => TableIndex::StateMachineMethod,
            0x37 => TableIndex::CustomDebugInformation,
            _ => return None,
        };
        Some(t)
    }

    /// The name of the table.
    pub fn name(self) -> (s: &'static str)
        ensures
            s@ == self.label(),
    {
        match self {
            TableIndex::Module => "Module",
            TableIndex::TypeRef => "TypeRef",
            TableIndex::TypeDef => "TypeDef",
            TableIndex::FieldPtr => "FieldPtr",
            TableIndex::Field => "Field",
            TableIndex::MethodPtr => "MethodPtr",
            TableIndex::MethodDef => "MethodDef",
            TableIndex::ParamPtr => "ParamPtr",
            TableIndex::Param => "Param",
            TableIndex::InterfaceImpl => "InterfaceImpl",
            TableIndex::MemberRef => "MemberRef",
            TableIndex::Constant => "Constant",
            TableIndex::CustomAttribute => "CustomAttribute",
            TableIndex::FieldMarshal => "FieldMarshal",
            TableIndex::DeclSecurity => "DeclSecurity",
            TableIndex::ClassLayout => "ClassLayout",
            TableIndex::FieldLayout => "FieldLayout",
            TableIndex::StandAloneSig => "StandAloneSig",
            TableIndex::EventMap => "EventMap",
            TableIndex::EventPtr => "EventPtr",
            TableIndex::Event => "Event",
            TableIndex::PropertyMap => "PropertyMap",
            TableIndex::PropertyPtr => "PropertyPtr",
            TableIndex::Property => "Property",
            TableIndex::MethodSemantics => "MethodSemantics",
            TableIndex::MethodImpl => "MethodImpl",
            TableIndex::ModuleRef => "ModuleRef",
            TableIndex::TypeSpec => "TypeSpec",
            TableIndex::ImplMap => "ImplMap",
            TableIndex::FieldRva => "FieldRVA",
            TableIndex::EncLog => "EncLog",
            TableIndex::EncMap => "EncMap",
            TableIndex::Assembly => "Assembly",
            TableIndex::AssemblyProcessor => "AssemblyProcessor",
            TableIndex::AssemblyOS => "AssemblyOS",
            TableIndex::AssemblyRef => "AssemblyRef",
            TableIndex::AssemblyRefProcessor => "AssemblyRefProcessor",
            TableIndex::AssemblyRefOS => "AssemblyRefOS",
            TableIndex::File => "File",
            TableIndex::ExportedType => "ExportedType",
            TableIndex::ManifestResource => "ManifestResource",
            TableIndex::NestedClass => "NestedClass",
            TableIndex::GenericParam => "GenericParam",
            TableIndex::MethodSpec => "MethodSpec",
            TableIndex::GenericParamConstraint => "GenericParamConstraint",
            TableIndex::Document => "Document",
            TableIndex::MethodDebugInformation => "MethodDebugInformation",
            TableIndex::LocalScope => "LocalScope",
            TableIndex::LocalVariable => "LocalVariable",
            TableIndex::LocalConstant => "LocalConstant",
            TableIndex::ImportScope => "ImportScope",
            TableIndex::StateMachineMethod => "StateMachineMethod",
            TableIndex::CustomDebugInformation => "CustomDebugInformation",
        }
    }

    /// Whether `byte` is the number of a Portable PDB table.
    pub fn is_portable_pdb_table(byte: u8) -> (b: bool)
        ensures
            b == (0x30 <= byte <= 0x37),
    {
        byte >= TableIndex::PORTABLE_PDB_FIRST && byte <= 0x37
    }
}

/// No two tables share a number.
pub proof fn table_number_injective(a: TableIndex, b: TableIndex)
    requires
        a.number() == b.number(),
    ensures
        a == b,
{
}

/// The kind of row a token names, by its high byte.
#[derive(Debug, Clone, Copy, PartialEq, Eq, Hash, Structural)]
pub enum TokenType {
    Module,
    TypeRef,
    TypeDef,
    Field,
    MethodDef,
    Param,
    InterfaceImpl,
    MemberRef,
    Constant,
    CustomAttribute,
    FieldMarshal,
    DeclSecurity,
    ClassLayout,
    FieldLayout,
    StandAloneSig,
    EventMap,
    Event,
    PropertyMap,
    Property,
    MethodSemantics,
    MethodImpl,
    ModuleRef,
    TypeSpec,
    ImplMap,
    FieldRva,
    Assembly,
    AssemblyProcessor,
    AssemblyOS,
    AssemblyRef,
    AssemblyRefProcessor,
    AssemblyRefOS,
    File,
    ExportedType,
    ManifestResource,
    NestedClass,
    GenericParam,
    MethodSpec,
    GenericParamConstraint,
}

impl TokenType {
    /// The token value of row 0 of the table.
    pub open spec fn base(self) -> u32 {
        match self {
            TokenType::Module => 0x0000_0000,
            TokenType::TypeRef => 0x0100_0000,
            TokenType::TypeDef => 0x0200_0000,
            TokenType::Field => 0x0400_0000,
            TokenType::MethodDef => 0x0600_0000,
            TokenType::Param => 0x0800_0000,
            TokenType::InterfaceImpl => 0x0900_0000,
            TokenType::MemberRef => 0x0A00_0000,
            TokenType::Constant => 0x0B00_0000,
            TokenType::CustomAttribute => 0x0C00_0000,
            TokenType::FieldMarshal => 0x0D00_0000,
            TokenType::DeclSecurity => 0x0E00_0000,
            TokenType::ClassLayout => 0x0F00_0000,
            TokenType::FieldLayout => 0x1000_0000,
            TokenType::StandAloneSig => 0x1100_0000,
            TokenType::EventMap => 0x1200_0000,
            TokenType::Event => 0x1400_0000,
            TokenType::PropertyMap => 0x1500_0000,
            TokenType::Property => 0x1700_0000,
            TokenType::MethodSemantics => 0x1800_0000,
            TokenType::MethodImpl => 0x1900_0000,
            TokenType::ModuleRef => 0x1A00_0000,
            TokenType::TypeSpec => 0x1B00_0000,
            TokenType::ImplMap => 0x1C00_0000,
            TokenType::FieldRva => 0x1D00_0000,
            TokenType::Assembly => 0x2000_0000,
            TokenType::AssemblyProcessor => 0x2100_0000,
            TokenType::AssemblyOS => 0x2200_0000,
            TokenType::AssemblyRef => 0x2300_0000,
            TokenType::AssemblyRefProcessor => 0x2400_0000,
            TokenType::AssemblyRefOS => 0x2500_0000,
            TokenType::File => 0x2600_0000,
            TokenType::ExportedType => 0x2700_0000,
            TokenType::ManifestResource => 0x2800_0000,
            TokenType::NestedClass => 0x2900_0000,
            TokenType::GenericParam => 0x2A00_0000,
            TokenType::MethodSpec => 0x2B00_0000,
            TokenType::GenericParamConstraint => 0x2C00_0000,
        }
    }

    /// The token value of row 0 of the table.
    pub fn value(self) -> (v: u32)
        ensures
            v == self.base(),
    {
        match self {
            TokenType::Module => 0x0000_0000,
            TokenType::TypeRef => 0x0100_0000,
            TokenType::TypeDef => 0x0200_0000,
            TokenType::Field => 0x0400_0000,
            TokenType::MethodDef => 0x0600_0000,
            TokenType::Param => 0x0800_0000,
            TokenType::InterfaceImpl => 0x0900_0000,
            TokenType::MemberRef => 0x0A00_0000,
            TokenType::Constant => 0x0B00_0000,
            TokenType::CustomAttribute => 0x0C00_0000,
            TokenType::FieldMarshal => 0x0D00_0000,
            TokenType::DeclSecurity => 0x0E00_0000,
            TokenType::ClassLayout => 0x0F00_0000,
            TokenType::FieldLayout => 0x1000_0000,
            TokenType::StandAloneSig => 0x1100_0000,
            TokenType::EventMap => 0x1200_0000,
            TokenType::Event => 0x1400_0000,
            TokenType::PropertyMap => 0x1500_0000,
            TokenType::Property => 0x1700_0000,
            TokenType::MethodSemantics => 0x1800_0000,
            TokenType::MethodImpl => 0x1900_0000,
            TokenType::ModuleRef => 0x1A00_0000,
            TokenType::TypeSpec => 0x1B00_0000,
            TokenType::ImplMap => 0x1C00_0000,
            TokenType::FieldRva => 0x1D00_0000,
            TokenType::Assembly => 0x2000_0000,
            TokenType::AssemblyProcessor => 0x2100_0000,
            TokenType::AssemblyOS => 0x2200_0000,
            TokenType::AssemblyRef => 0x2300_0000,
            TokenType::AssemblyRefProcessor => 0x2400_0000,
            TokenType::AssemblyRefOS => 0x2500_0000,
            TokenType::File => 0x2600_0000,
            TokenType::ExportedType => 0x2700_0000,
            TokenType::ManifestResource => 0x2800_0000,
            TokenType::NestedClass => 0x2900_0000,
            TokenType::GenericParam => 0x2A00_0000,
            TokenType::MethodSpec => 0x2B00_0000,
            TokenType::GenericParamConstraint => 0x2C00_0000,
        }
    }

    /// The kind of the token value `v`, by its high byte alone. The high byte
    /// zero has none.
    pub fn from_value(v: u32) -> (r: Option<Self>)
        ensures
            match r {
                Some(t) => t != TokenType::Module && t.base() == v - v % 0x100_0000,
                None => forall|t: TokenType|
                    t != TokenType::Module ==> #[trigger] t.base() != v - v % 0x100_0000,
            },
    {
        Some(
            match v - v % 0x100_0000 {
                0x0100_0000 => TokenType::TypeRef,
                0x0200_0000 => TokenType::TypeDef,
                0x0400_0000 => TokenType::Field,
                0x0600_0000 => TokenType::MethodDef,
                0x0800_0000 => TokenType::Param,
                0x0900_0000 => TokenType::InterfaceImpl,
                0x0A00_0000 => TokenType::MemberRef,
                0x0B00_0000 => TokenType::Constant,
                0x0C00_0000 => TokenType::CustomAttribute,
                0x0D00_0000 => TokenType::FieldMarshal,
                0x0E00_0000 => TokenType::DeclSecurity,
                0x0F00_0000 => TokenType::ClassLayout,
                0x1000_0000 => TokenType::FieldLayout,
                0x1100_0000 => TokenType::StandAloneSig,
                0x1200_0000 => TokenType::EventMap,
                0x1400_0000 => TokenType::Event,
                0x1500_0000 => TokenType::PropertyMap,
                0x1700_0000 => TokenType::Property,
                0x1800_0000 => TokenType::MethodSemantics,
                0x1900_0000 => TokenType::MethodImpl,
                0x1A00_0000 => TokenType::ModuleRef,
                0x1B00_0000 => TokenType::TypeSpec,
                0x1C00_0000 => TokenType::ImplMap,
                0x1D00_0000 => TokenType::FieldRva,
                0x2000_0000 => TokenType::Assembly,
                0x2100_0000 => TokenType::AssemblyProcessor,
                0x2200_0000 => TokenType::AssemblyOS,
                0x2300_0000 => TokenType::AssemblyRef,
                0x2400_0000 => TokenType::AssemblyRefProcessor,
                0x2500_0000 => TokenType::AssemblyRefOS,
                0x2600_0000 => TokenType::File,
                0x2700_0000 => TokenType::ExportedType,
                0x2800_0000 => TokenType::ManifestResource,
                0x2900_0000 => TokenType::NestedClass,
                0x2A00_0000 => TokenType::GenericParam,
                0x2B00_0000 => TokenType::MethodSpec,
                0x2C00_0000 => TokenType::GenericParamConstraint,
                _ => return None,
            },
        )
    }

    /// The table that tokens of this kind name.
    pub fn table(self) -> (t: TableIndex)
        ensures
            t.number() == self.base() / 0x100_0000,
    {
        match TableIndex::from_u8((self.value() / 0x100_0000) as u8) {
            Some(t) => t,
            None => {
                assert(false);
                TableIndex::Module
            },
        }
    }
}

/// Every kind but `Module` is found again from any token of its table.
pub proof fn token_type_round_trip(t: TokenType, rid: u32)
    requires
        rid < 0x100_0000,
    ensures
        (t.base() + rid) - (t.base() + rid) % 0x100_0000 == t.base(),
        t.base() % 0x100_0000 == 0,
{
}

/// How many low bits tell `n` tables apart.
pub open spec fn tag_bits_for(n: int) -> u32 {
    if 1 <= n <= 2 {
        1
    } else if 3 <= n <= 4 {
        2
    } else if 5 <= n <= 8 {
        3
    } else if 9 <= n <= 16 {
        4
    } else {
        5
    }
}

/// Two to the power of `bits`, for the widths that tags have.
pub open spec fn tag_space(bits: u32) -> nat {
    if bits == 1 {
        2
    } else if bits == 2 {
        4
    } else if bits == 3 {
        8
    } else if bits == 4 {
        16
    } else {
        32
    }
}

/// A coded-index group: several tables compressed into one column with tag bits.
#[derive(Debug, Clone)]
pub struct CodedIndexGroup {
    pub name: &'static str,
    /// Tables participating, in tag order.
    pub tables: Vec<TableIndex>,
    /// Number of low bits used by the tag.
    pub tag_bits: u32,
}

impl CodedIndexGroup {
    /// Every table has a tag of its own.
    pub open spec fn well_formed(&self) -> bool {
        self.tables@.len() <= 32 && self.tag_bits == tag_bits_for(self.tables@.len() as int)
    }

    pub fn new(name: &'static str, tables: Vec<TableIndex>) -> (g: Self)
        ensures
            g.name == name,
            g.tables == tables,
            g.tag_bits == tag_bits_for(tables@.len() as int),
    {
        let n: usize = tables.len();
        let bits: u32 = if 1 <= n && n <= 2 {
            1
        } else if 3 <= n && n <= 4 {
            2
        } else if 5 <= n && n <= 8 {
            3
        } else if 9 <= n && n <= 16 {
            4
        } else {
            5
        };
        CodedIndexGroup { name, tables, tag_bits: bits }
    }

    /// Number of low bits the encoded row-id must be shifted by.
    pub fn shift_bits(&self) -> (b: u32)
        ensures
            b == self.tag_bits,
    {
        self.tag_bits
    }
}

/// The coded-index groups of CLI metadata and of the Portable PDB format.
#[derive(Debug, Clone, Copy, PartialEq, Eq, Structural)]
pub enum CodedGroup {
    TypeDefOrRef,
    HasConstant,
    HasCustomAttribute,
    HasFieldMarshal,
    HasDeclSecurity,
    MemberRefParent,
    HasSemantics,
    MethodDefOrRef,
    MemberForwarded,
    Implementation,
    CustomAttributeType,
    ResolutionScope,
    TypeOrMethodDef,
    HasCustomDebugInformation,
}

impl CodedGroup {
    /// The name of the group.
    pub open spec fn label(self) -> Seq<char> {
        match self {
            CodedGroup::TypeDefOrRef => "TypeDefOrRef"@,
            CodedGroup::HasConstant => "HasConstant"@,
            CodedGroup::HasCustomAttribute => "HasCustomAttribute"@,
            CodedGroup::HasFieldMarshal => "HasFieldMarshal"@,
            CodedGroup::HasDeclSecurity => "HasDeclSecurity"@,
            CodedGroup::MemberRefParent => "MemberRefParent"@,
            CodedGroup::HasSemantics => "HasSemantics"@,
            CodedGroup::MethodDefOrRef => "MethodDefOrRef"@,
            CodedGroup::MemberForwarded => "MemberForwarded"@,
            CodedGroup::Implementation => "Implementation"@,
            CodedGroup::CustomAttributeType => "CustomAttributeType"@,
            CodedGroup::ResolutionScope => "ResolutionScope"@,
            CodedGroup::TypeOrMethodDef => "TypeOrMethodDef"@,
            CodedGroup::HasCustomDebugInformation => "HasCustomDebugInformation"@,
        }
    }

    /// The tables of the group, in tag order.
    pub open spec fn members(self) -> Seq<TableIndex> {
        match self {
            CodedGroup::TypeDefOrRef => seq![
                TableIndex::TypeDef,
                TableIndex::TypeRef,
                TableIndex::TypeSpec,
            ],
            CodedGroup::HasConstant => seq![
                TableIndex::Field,
                TableIndex::Param,
                TableIndex::Property,
            ],
            CodedGroup::HasCustomAttribute => seq![
                TableIndex::MethodDef,
                TableIndex::Field,
                TableIndex::TypeRef,
                TableIndex::TypeDef,
                TableIndex::Param,
                TableIndex::InterfaceImpl,
                TableIndex::MemberRef,
                TableIndex::Module,
                TableIndex::DeclSecurity,
                TableIndex::Property,
                TableIndex::Event,
                TableIndex::StandAloneSig,
                TableIndex::ModuleRef,
                TableIndex::TypeSpec,
                TableIndex::Assembly,
                TableIndex::AssemblyRef,
                TableIndex::File,
                TableIndex::ExportedType,
                TableIndex::ManifestResource,
                TableIndex::GenericParam,
                TableIndex::GenericParamConstraint,
                TableIndex::MethodSpec,
            ],
            CodedGroup::HasFieldMarshal => seq![
                TableIndex::Field,
                TableIndex::Param,
            ],
            CodedGroup::HasDeclSecurity => seq![
                TableIndex::TypeDef,
                TableIndex::MethodDef,
                TableIndex::Assembly,
            ],
            CodedGroup::MemberRefParent => seq![
                TableIndex::TypeDef,
                TableIndex::TypeRef,
                TableIndex::ModuleRef,
                TableIndex::MethodDef,
                TableIndex::TypeSpec,
            ],
            CodedGroup::HasSemantics => seq![
                TableIndex::Event,
                TableIndex::Property,
            ],
            CodedGroup::MethodDefOrRef => seq![
                TableIndex::MethodDef,
                TableIndex::MemberRef,
            ],
            CodedGroup::MemberForwarded => seq![
                TableIndex::Field,
                TableIndex::MethodDef,
            ],
            CodedGroup::Implementation => seq![
                TableIndex::File,
                TableIndex::AssemblyRef,
                TableIndex::ExportedType,
            ],
            CodedGroup::CustomAttributeType => seq![
                TableIndex::MethodDef,
                TableIndex::MemberRef,
            ],
            CodedGroup::ResolutionScope => seq![
                TableIndex::Module,
                TableIndex::ModuleRef,
                TableIndex::AssemblyRef,
                TableIndex::TypeRef,
            ],
            CodedGroup::TypeOrMethodDef => seq![
                TableIndex::TypeDef,
                TableIndex::MethodDef,
            ],
            CodedGroup::HasCustomDebugInformation => seq![
                TableIndex::MethodDef,
                TableIndex::Field,
                TableIndex::TypeRef,
                TableIndex::TypeDef,
                TableIndex::Param,
                TableIndex::InterfaceImpl,
                TableIndex::MemberRef,
                TableIndex::Module,
                TableIndex::DeclSecurity,
                TableIndex::Property,
                TableIndex::Event,
                TableIndex::StandAloneSig,
                TableIndex::ModuleRef,
                TableIndex::TypeSpec,
                TableIndex::Assembly,
                TableIndex::AssemblyRef,
                TableIndex::File,
                TableIndex::ExportedType,
                TableIndex::ManifestResource,
                TableIndex::GenericParam,
                TableIndex::GenericParamConstraint,
                TableIndex::MethodSpec,
                TableIndex::Document,
                TableIndex::LocalScope,
                TableIndex::LocalVariable,
                TableIndex::LocalConstant,
                TableIndex::ImportScope,
            ],
        }
    }

    /// Number of low bits that the tag of the group takes.
    pub open spec fn bits(self) -> u32 {
        tag_bits_for(self.members().len() as int)
    }

    /// The group with its tables.
    pub fn group(self) -> (g: CodedIndexGroup)
        ensures
            g.name@ == self.label(),
            g.tables@ == self.members(),
            g.tag_bits == self.bits(),
            g.well_formed(),
    {
        match self {
            CodedGroup::TypeDefOrRef => CodedIndexGroup::new(
                "TypeDefOrRef",
                vec![
                    TableIndex::TypeDef,
                    TableIndex::TypeRef,
                    TableIndex::TypeSpec,
                ],
            ),
            CodedGroup::HasConstant => CodedIndexGroup::new(
                "HasConstant",
                vec![
                    TableIndex::Field,
                    TableIndex::Param,
                    TableIndex::Property,
                ],
            ),
            CodedGroup::HasCustomAttribute => CodedIndexGroup::new(
                "HasCustomAttribute",
                vec![
                    TableIndex::MethodDef,
                    TableIndex::Field,
                    TableIndex::TypeRef,
                    TableIndex::TypeDef,
                    TableIndex::Param,
                    TableIndex::InterfaceImpl,
                    TableIndex::MemberRef,
                    TableIndex::Module,
                    TableIndex::DeclSecurity,
                    TableIndex::Property,
                    TableIndex::Event,
                    TableIndex::StandAloneSig,
                    TableIndex::ModuleRef,
                    TableIndex::TypeSpec,
                    TableIndex::Assembly,
                    TableIndex::AssemblyRef,
                    TableIndex::File,
                    TableIndex::ExportedType,
                    TableIndex::ManifestResource,
                    TableIndex::GenericParam,
                    TableIndex::GenericParamConstraint,
                    TableIndex::MethodSpec,
                ],
            ),
            CodedGroup::HasFieldMarshal => CodedIndexGroup::new(
                "HasFieldMarshal",
                vec![
                    TableIndex::Field,
                    TableIndex::Param,
                ],
            ),
            CodedGroup::HasDeclSecurity => CodedIndexGroup::new(
                "HasDeclSecurity",
                vec![
                    TableIndex::TypeDef,
                    TableIndex::MethodDef,
                    TableIndex::Assembly,
                ],
            ),
            CodedGroup::MemberRefParent => CodedIndexGroup::new(
                "MemberRefParent",
                vec![
                    TableIndex::TypeDef,
                    TableIndex::TypeRef,
                    TableIndex::ModuleRef,
                    TableIndex::MethodDef,
                    TableIndex::TypeSpec,
                ],
            ),
            CodedGroup::HasSemantics => CodedIndexGroup::new(
                "HasSemantics",
                vec![
                    TableIndex::Event,
                    TableIndex::Property,
                ],
            ),
            CodedGroup::MethodDefOrRef => CodedIndexGroup::new(
                "MethodDefOrRef",
                vec![
                    TableIndex::MethodDef,
                    TableIndex::MemberRef,
                ],
            ),
            CodedGroup::MemberForwarded => CodedIndexGroup::new(
                "MemberForwarded",
                vec![
                    TableIndex::Field,
                    TableIndex::MethodDef,
                ],
            ),
            CodedGroup::Implementation => CodedIndexGroup::new(
                "Implementation",
                vec![
                    TableIndex::File,
                    TableIndex::AssemblyRef,
                    TableIndex::ExportedType,
                ],
            ),
            CodedGroup::CustomAttributeType => CodedIndexGroup::new(
                "CustomAttributeType",
                vec![
                    TableIndex::MethodDef,
                    TableIndex::MemberRef,
                ],
            ),
            CodedGroup::ResolutionScope => CodedIndexGroup::new(
                "ResolutionScope",
                vec![
                    TableIndex::Module,
                    TableIndex::ModuleRef,
                    TableIndex::AssemblyRef,
                    TableIndex::TypeRef,
                ],
            ),
            CodedGroup::TypeOrMethodDef => CodedIndexGroup::new(
                "TypeOrMethodDef",
                vec![
                    TableIndex::TypeDef,
                    TableIndex::MethodDef,
                ],
            ),
            CodedGroup::HasCustomDebugInformation => CodedIndexGroup::new(
                "HasCustomDebugInformation",
                vec![
                    TableIndex::MethodDef,
                    TableIndex::Field,
                    TableIndex::TypeRef,
                    TableIndex::TypeDef,
                    TableIndex::Param,
                    TableIndex::InterfaceImpl,
                    TableIndex::MemberRef,
                    TableIndex::Module,
                    TableIndex::DeclSecurity,
                    TableIndex::Property,
                    TableIndex::Event,
                    TableIndex::StandAloneSig,
                    TableIndex::ModuleRef,
                    TableIndex::TypeSpec,
                    TableIndex::Assembly,
                    TableIndex::AssemblyRef,
                    TableIndex::File,
                    TableIndex::ExportedType,
                    TableIndex::ManifestResource,
                    TableIndex::GenericParam,
                    TableIndex::GenericParamConstraint,
                    TableIndex::MethodSpec,
                    TableIndex::Document,
                    TableIndex::LocalScope,
                    TableIndex::LocalVariable,
                    TableIndex::LocalConstant,
                    TableIndex::ImportScope,
                ],
            ),
        }
    }
}

} // verus!
