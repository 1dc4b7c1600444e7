//! Metadata table schemas, per-table row layout computation, and
//! coded-index encode/decode helpers.
//!
//! Heap-index columns widen to 4 bytes when
//! the corresponding heap exceeds `0xFFFF` bytes, simple table index columns
//! widen when the target table holds more than `0xFFFF` rows, and coded index
//! columns widen when the largest participating table reaches
//! `1 << (16 - tag_bits)` rows.

use vstd::prelude::*;

use crate::error::{Error, ErrorKind};
use crate::text;
use crate::text::Message;
use crate::token;
use crate::token::{CodedGroup, CodedIndexGroup, TableIndex};

verus! {

/// Number of table identifier slots (`0x00..=0x37`).
pub const TABLE_COUNT: usize = 0x38;

/// Sorted-table mask for the standard sorted columns.
pub const SORTED_MASK_DEFAULT: u64 = 0x00C4_1600_3301_FA00;

/// Physical type of one column cell.
#[derive(Debug, Clone, Copy, PartialEq, Eq, Structural)]
pub enum ColumnKind {
    /// One raw byte.
    U8,
    /// Two-byte little-endian value.
    U16,
    /// Four-byte little-endian value.
    U32,
    /// Index into the `#Strings` heap (2 or 4 bytes).
    StringIdx,
    /// Index into the `#GUID` heap (2 or 4 bytes).
    GuidIdx,
    /// Index into the `#Blob` heap (2 or 4 bytes).
    BlobIdx,
    /// Compressed coded index over a group of tables (2 or 4 bytes).
    Coded(CodedGroup),
    /// Plain row index into another table (2 or 4 bytes).
    Simple(TableIndex),
}

/// One column of a table: its kind and byte offset inside the row.
#[derive(Debug, Clone, Copy, PartialEq, Eq, Structural)]
pub struct ColumnDesc {
    /// Physical kind of the cell.
    pub kind: ColumnKind,
    /// Byte offset of the cell within the row.
    pub offset: u16,
}

/// The columns of a table, in row order.
pub open spec fn schema(table: TableIndex) -> Seq<ColumnKind> {
    match table {
        TableIndex::Module => seq![
            ColumnKind::U16,
            ColumnKind::StringIdx,
            ColumnKind::GuidIdx,
            ColumnKind::GuidIdx,
            ColumnKind::GuidIdx,
        ],
        TableIndex::TypeRef => seq![
            ColumnKind::Coded(CodedGroup::ResolutionScope),
            ColumnKind::StringIdx,
            ColumnKind::StringIdx,
        ],
        TableIndex::TypeDef => seq![
            ColumnKind::U32,
            ColumnKind::StringIdx,
            ColumnKind::StringIdx,
            ColumnKind::Coded(CodedGroup::TypeDefOrRef),
            ColumnKind::Simple(TableIndex::Field),
            ColumnKind::Simple(TableIndex::MethodDef),
        ],
        TableIndex::FieldPtr => seq![ColumnKind::Simple(TableIndex::Field)],
        TableIndex::Field => seq![ColumnKind::U16, ColumnKind::StringIdx, ColumnKind::BlobIdx],
        TableIndex::MethodPtr => seq![ColumnKind::Simple(TableIndex::MethodDef)],
        TableIndex::MethodDef => seq![
            ColumnKind::U32,
            ColumnKind::U16,
            ColumnKind::U16,
            ColumnKind::StringIdx,
            ColumnKind::BlobIdx,
            ColumnKind::Simple(TableIndex::Param),
        ],
        TableIndex::ParamPtr => seq![ColumnKind::Simple(TableIndex::Param)],
        TableIndex::Param => seq![ColumnKind::U16, ColumnKind::U16, ColumnKind::StringIdx],
        TableIndex::InterfaceImpl => seq![
            ColumnKind::Simple(TableIndex::TypeDef),
            ColumnKind::Coded(CodedGroup::TypeDefOrRef),
        ],
        TableIndex::MemberRef => seq![
            ColumnKind::Coded(CodedGroup::MemberRefParent),
            ColumnKind::StringIdx,
            ColumnKind::BlobIdx,
        ],
        TableIndex::Constant => seq![
            ColumnKind::U8,
            ColumnKind::U8,
            ColumnKind::Coded(CodedGroup::HasConstant),
            ColumnKind::BlobIdx,
        ],
        TableIndex::CustomAttribute => seq![
            ColumnKind::Coded(CodedGroup::HasCustomAttribute),
            ColumnKind::Coded(CodedGroup::CustomAttributeType),
            ColumnKind::BlobIdx,
        ],
        TableIndex::FieldMarshal => seq![ColumnKind::Coded(CodedGroup::HasFieldMarshal), ColumnKind::BlobIdx],
        TableIndex::DeclSecurity => seq![
            ColumnKind::U16,
            ColumnKind::Coded(CodedGroup::HasDeclSecurity),
            ColumnKind::BlobIdx,
        ],
        TableIndex::ClassLayout => seq![
            ColumnKind::U16,
            ColumnKind::U32,
            ColumnKind::Simple(TableIndex::TypeDef),
        ],
        TableIndex::FieldLayout => seq![ColumnKind::U32, ColumnKind::Simple(TableIndex::Field)],
        TableIndex::StandAloneSig => seq![ColumnKind::BlobIdx],
        TableIndex::EventMap => seq![
            ColumnKind::Simple(TableIndex::TypeDef),
            ColumnKind::Simple(TableIndex::Event),
        ],
        TableIndex::EventPtr => seq![ColumnKind::Simple(TableIndex::Event)],
        TableIndex::Event => seq![
            ColumnKind::U16,
            ColumnKind::StringIdx,
            ColumnKind::Coded(CodedGroup::TypeDefOrRef),
        ],
        TableIndex::PropertyMap => seq![
            ColumnKind::Simple(TableIndex::TypeDef),
            ColumnKind::Simple(TableIndex::Property),
        ],
        TableIndex::PropertyPtr => seq![ColumnKind::Simple(TableIndex::Property)],
        TableIndex::Property => seq![ColumnKind::U16, ColumnKind::StringIdx, ColumnKind::BlobIdx],
        TableIndex::MethodSemantics => seq![
            ColumnKind::U16,
            ColumnKind::Simple(TableIndex::MethodDef),
            ColumnKind::Coded(CodedGroup::HasSemantics),
        ],
        TableIndex::MethodImpl => seq![
            ColumnKind::Simple(TableIndex::TypeDef),
            ColumnKind::Coded(CodedGroup::MethodDefOrRef),
            ColumnKind::Coded(CodedGroup::MethodDefOrRef),
        ],
        TableIndex::ModuleRef => seq![ColumnKind::StringIdx],
        TableIndex::TypeSpec => seq![ColumnKind::BlobIdx],
        TableIndex::ImplMap => seq![
            ColumnKind::U16,
            ColumnKind::Coded(CodedGroup::MemberForwarded),
            ColumnKind::StringIdx,
            ColumnKind::Simple(TableIndex::ModuleRef),
        ],
        TableIndex::FieldRva => seq![ColumnKind::U32, ColumnKind::Simple(TableIndex::Field)],
        TableIndex::EncLog => seq![ColumnKind::U32, ColumnKind::U32],
        TableIndex::EncMap => seq![ColumnKind::U32],
        TableIndex::Assembly => seq![
            ColumnKind::U32,
            ColumnKind::U16,
            ColumnKind::U16,
            ColumnKind::U16,
            ColumnKind::U16,
            ColumnKind::U32,
            ColumnKind::BlobIdx,
            ColumnKind::StringIdx,
            ColumnKind::StringIdx,
        ],
        TableIndex::AssemblyProcessor => seq![ColumnKind::U32],
        TableIndex::AssemblyOS => seq![ColumnKind::U32, ColumnKind::U32, ColumnKind::U32],
        TableIndex::AssemblyRef => seq![
            ColumnKind::U16,
            ColumnKind::U16,
            ColumnKind::U16,
            ColumnKind::U16,
            ColumnKind::U32,
            ColumnKind::BlobIdx,
            ColumnKind::StringIdx,
            ColumnKind::StringIdx,
            ColumnKind::BlobIdx,
        ],
        TableIndex::AssemblyRefProcessor => seq![ColumnKind::U32, ColumnKind::Simple(TableIndex::AssemblyRef)],
        TableIndex::AssemblyRefOS => seq![
            ColumnKind::U32,
            ColumnKind::U32,
            ColumnKind::U32,
            ColumnKind::Simple(TableIndex::AssemblyRef),
        ],
        TableIndex::File => seq![ColumnKind::U32, ColumnKind::StringIdx, ColumnKind::BlobIdx],
        TableIndex::ExportedType => seq![
            ColumnKind::U32,
            ColumnKind::U32,
            ColumnKind::StringIdx,
            ColumnKind::StringIdx,
            ColumnKind::Coded(CodedGroup::Implementation),
        ],
        TableIndex::ManifestResource => seq![
            ColumnKind::U32,
            ColumnKind::U32,
            ColumnKind::StringIdx,
            ColumnKind::Coded(CodedGroup::Implementation),
        ],
        TableIndex::NestedClass => seq![
            ColumnKind::Simple(TableIndex::TypeDef),
            ColumnKind::Simple(TableIndex::TypeDef),
        ],
        TableIndex::GenericParam => seq![
            ColumnKind::U16,
            ColumnKind::U16,
            ColumnKind::Coded(CodedGroup::TypeOrMethodDef),
            ColumnKind::StringIdx,
        ],
        TableIndex::MethodSpec => seq![ColumnKind::Coded(CodedGroup::MethodDefOrRef), ColumnKind::BlobIdx],
        TableIndex::GenericParamConstraint => seq![
            ColumnKind::Simple(TableIndex::GenericParam),
            ColumnKind::Coded(CodedGroup::TypeDefOrRef),
        ],
        TableIndex::Document => seq![
            ColumnKind::BlobIdx,
            ColumnKind::GuidIdx,
            ColumnKind::BlobIdx,
            ColumnKind::GuidIdx,
        ],
        TableIndex::MethodDebugInformation => seq![ColumnKind::Simple(TableIndex::Document), ColumnKind::BlobIdx],
        TableIndex::LocalScope => seq![
            ColumnKind::Simple(TableIndex::MethodDef),
            ColumnKind::Simple(TableIndex::ImportScope),
            ColumnKind::Simple(TableIndex::LocalVariable),
            ColumnKind::Simple(TableIndex::LocalConstant),
            ColumnKind::U32,
            ColumnKind::U32,
        ],
        TableIndex::LocalVariable => seq![ColumnKind::U16, ColumnKind::U16, ColumnKind::StringIdx],
        TableIndex::LocalConstant => seq![ColumnKind::StringIdx, ColumnKind::BlobIdx],
        TableIndex::ImportScope => seq![ColumnKind::Simple(TableIndex::ImportScope), ColumnKind::BlobIdx],
        TableIndex::StateMachineMethod => seq![
            ColumnKind::Simple(TableIndex::MethodDef),
            ColumnKind::Simple(TableIndex::MethodDef),
        ],
        TableIndex::CustomDebugInformation => seq![
            ColumnKind::Coded(CodedGroup::HasCustomDebugInformation),
            ColumnKind::GuidIdx,
            ColumnKind::BlobIdx,
        ],
    }
}

/// The columns of a table. Every table has a schema.
pub fn column_kinds(table: TableIndex) -> (r: Option<Vec<ColumnKind>>)
    ensures
        r is Some,
        r->Some_0@ == schema(table),
{
    Some(
        match table {
            TableIndex::Module => vec![
                ColumnKind::U16,
                ColumnKind::StringIdx,
                ColumnKind::GuidIdx,
                ColumnKind::GuidIdx,
                ColumnKind::GuidIdx,
            ],
            TableIndex::TypeRef => vec![
                ColumnKind::Coded(CodedGroup::ResolutionScope),
                ColumnKind::StringIdx,
                ColumnKind::StringIdx,
            ],
            TableIndex::TypeDef => vec![
                ColumnKind::U32,
                ColumnKind::StringIdx,
                ColumnKind::StringIdx,
                ColumnKind::Coded(CodedGroup::TypeDefOrRef),
                ColumnKind::Simple(TableIndex::Field),
                ColumnKind::Simple(TableIndex::MethodDef),
            ],
            TableIndex::FieldPtr => vec![ColumnKind::Simple(TableIndex::Field)],
            TableIndex::Field => vec![ColumnKind::U16, ColumnKind::StringIdx, ColumnKind::BlobIdx],
            TableIndex::MethodPtr => vec![ColumnKind::Simple(TableIndex::MethodDef)],
            TableIndex::MethodDef => vec![
                ColumnKind::U32,
                ColumnKind::U16,
                ColumnKind::U16,
                ColumnKind::StringIdx,
                ColumnKind::BlobIdx,
                ColumnKind::Simple(TableIndex::Param),
            ],
            TableIndex::ParamPtr => vec![ColumnKind::Simple(TableIndex::Param)],
            TableIndex::Param => vec![ColumnKind::U16, ColumnKind::U16, ColumnKind::StringIdx],
            TableIndex::InterfaceImpl => vec![
                ColumnKind::Simple(TableIndex::TypeDef),
                ColumnKind::Coded(CodedGroup::TypeDefOrRef),
            ],
            TableIndex::MemberRef => vec![
                ColumnKind::Coded(CodedGroup::MemberRefParent),
                ColumnKind::StringIdx,
                ColumnKind::BlobIdx,
            ],
            TableIndex::Constant => vec![
                ColumnKind::U8,
                ColumnKind::U8,
                ColumnKind::Coded(CodedGroup::HasConstant),
                ColumnKind::BlobIdx,
            ],
            TableIndex::CustomAttribute => vec![
                ColumnKind::Coded(CodedGroup::HasCustomAttribute),
                ColumnKind::Coded(CodedGroup::CustomAttributeType),
                ColumnKind::BlobIdx,
            ],
            TableIndex::FieldMarshal => vec![ColumnKind::Coded(CodedGroup::HasFieldMarshal), ColumnKind::BlobIdx],
            TableIndex::DeclSecurity => vec![
                ColumnKind::U16,
                ColumnKind::Coded(CodedGroup::HasDeclSecurity),
                ColumnKind::BlobIdx,
            ],
            TableIndex::ClassLayout => vec![
                ColumnKind::U16,
                ColumnKind::U32,
                ColumnKind::Simple(TableIndex::TypeDef),
            ],
            TableIndex::FieldLayout => vec![ColumnKind::U32, ColumnKind::Simple(TableIndex::Field)],
            TableIndex::StandAloneSig => vec![ColumnKind::BlobIdx],
            TableIndex::EventMap => vec![
                ColumnKind::Simple(TableIndex::TypeDef),
                ColumnKind::Simple(TableIndex::Event),
            ],
            TableIndex::EventPtr => vec![ColumnKind::Simple(TableIndex::Event)],
            TableIndex::Event => vec![
                ColumnKind::U16,
                ColumnKind::StringIdx,
                ColumnKind::Coded(CodedGroup::TypeDefOrRef),
            ],
            TableIndex::PropertyMap => vec![
                ColumnKind::Simple(TableIndex::TypeDef),
                ColumnKind::Simple(TableIndex::Property),
            ],
            TableIndex::PropertyPtr => vec![ColumnKind::Simple(TableIndex::Property)],
            TableIndex::Property => vec![ColumnKind::U16, ColumnKind::StringIdx, ColumnKind::BlobIdx],
            TableIndex::MethodSemantics => vec![
                ColumnKind::U16,
                ColumnKind::Simple(TableIndex::MethodDef),
                ColumnKind::Coded(CodedGroup::HasSemantics),
            ],
            TableIndex::MethodImpl => vec![
                ColumnKind::Simple(TableIndex::TypeDef),
                ColumnKind::Coded(CodedGroup::MethodDefOrRef),
                ColumnKind::Coded(CodedGroup::MethodDefOrRef),
            ],
            TableIndex::ModuleRef => vec![ColumnKind::StringIdx],
            TableIndex::TypeSpec => vec![ColumnKind::BlobIdx],
            TableIndex::ImplMap => vec![
                ColumnKind::U16,
                ColumnKind::Coded(CodedGroup::MemberForwarded),
                ColumnKind::StringIdx,
                ColumnKind::Simple(TableIndex::ModuleRef),
            ],
            TableIndex::FieldRva => vec![ColumnKind::U32, ColumnKind::Simple(TableIndex::Field)],
            TableIndex::EncLog => vec![ColumnKind::U32, ColumnKind::U32],
            TableIndex::EncMap => vec![ColumnKind::U32],
            TableIndex::Assembly => vec![
                ColumnKind::U32,
                ColumnKind::U16,
                ColumnKind::U16,
                ColumnKind::U16,
                ColumnKind::U16,
                ColumnKind::U32,
                ColumnKind::BlobIdx,
                ColumnKind::StringIdx,
                ColumnKind::StringIdx,
            ],
            TableIndex::AssemblyProcessor => vec![ColumnKind::U32],
            TableIndex::AssemblyOS => vec![ColumnKind::U32, ColumnKind::U32, ColumnKind::U32],
            TableIndex::AssemblyRef => vec![
                ColumnKind::U16,
                ColumnKind::U16,
                ColumnKind::U16,
                ColumnKind::U16,
                ColumnKind::U32,
                ColumnKind::BlobIdx,
                ColumnKind::StringIdx,
                ColumnKind::StringIdx,
                ColumnKind::BlobIdx,
            ],
            TableIndex::AssemblyRefProcessor => vec![ColumnKind::U32, ColumnKind::Simple(TableIndex::AssemblyRef)],
            TableIndex::AssemblyRefOS => vec![
                ColumnKind::U32,
                ColumnKind::U32,
                ColumnKind::U32,
                ColumnKind::Simple(TableIndex::AssemblyRef),
            ],
            TableIndex::File => vec![ColumnKind::U32, ColumnKind::StringIdx, ColumnKind::BlobIdx],
            TableIndex::ExportedType => vec![
                ColumnKind::U32,
                ColumnKind::U32,
                ColumnKind::StringIdx,
                ColumnKind::StringIdx,
                ColumnKind::Coded(CodedGroup::Implementation),
            ],
            TableIndex::ManifestResource => vec![
                ColumnKind::U32,
                ColumnKind::U32,
                ColumnKind::StringIdx,
                ColumnKind::Coded(CodedGroup::Implementation),
            ],
            TableIndex::NestedClass => vec![
                ColumnKind::Simple(TableIndex::TypeDef),
                ColumnKind::Simple(TableIndex::TypeDef),
            ],
            TableIndex::GenericParam => vec![
                ColumnKind::U16,
                ColumnKind::U16,
                ColumnKind::Coded(CodedGroup::TypeOrMethodDef),
                ColumnKind::StringIdx,
            ],
            TableIndex::MethodSpec => vec![ColumnKind::Coded(CodedGroup::MethodDefOrRef), ColumnKind::BlobIdx],
            TableIndex::GenericParamConstraint => vec![
                ColumnKind::Simple(TableIndex::GenericParam),
                ColumnKind::Coded(CodedGroup::TypeDefOrRef),
            ],
            TableIndex::Document => vec![
                ColumnKind::BlobIdx,
                ColumnKind::GuidIdx,
                ColumnKind::BlobIdx,
                ColumnKind::GuidIdx,
            ],
            TableIndex::MethodDebugInformation => vec![ColumnKind::Simple(TableIndex::Document), ColumnKind::BlobIdx],
            TableIndex::LocalScope => vec![
                ColumnKind::Simple(TableIndex::MethodDef),
                ColumnKind::Simple(TableIndex::ImportScope),
                ColumnKind::Simple(TableIndex::LocalVariable),
                ColumnKind::Simple(TableIndex::LocalConstant),
                ColumnKind::U32,
                ColumnKind::U32,
            ],
            TableIndex::LocalVariable => vec![ColumnKind::U16, ColumnKind::U16, ColumnKind::StringIdx],
            TableIndex::LocalConstant => vec![ColumnKind::StringIdx, ColumnKind::BlobIdx],
            TableIndex::ImportScope => vec![ColumnKind::Simple(TableIndex::ImportScope), ColumnKind::BlobIdx],
            TableIndex::StateMachineMethod => vec![
                ColumnKind::Simple(TableIndex::MethodDef),
                ColumnKind::Simple(TableIndex::MethodDef),
            ],
            TableIndex::CustomDebugInformation => vec![
                ColumnKind::Coded(CodedGroup::HasCustomDebugInformation),
                ColumnKind::GuidIdx,
                ColumnKind::BlobIdx,
            ],
        },
    )
}

/// The cell that row `rid` of the table with the tag `tag` is encoded as.
pub open spec fn coded_cell(tag_bits: u32, tag: int, rid: u32) -> u64 {
    (rid * token::tag_space(tag_bits) + tag) as u64
}

/// Encodes `(table, rid)` into the coded-index space of `group`. A row beyond
/// 24 bits, or a table that is no member of the group, is an argument error.
pub fn encode_coded(group: &CodedIndexGroup, table: TableIndex, rid: u32) -> (r: Result<u64, Error>)
    requires
        group.well_formed(),
    ensures
        r is Ok <==> group.tables@.contains(table) && rid <= 0xFF_FFFF,
        r is Ok ==> exists|tag: int|
            #![trigger group.tables@[tag]]
            0 <= tag < group.tables@.len() && group.tables@[tag] == table && (forall|k: int|
                0 <= k < tag ==> group.tables@[k] != table) && r->Ok_0 == coded_cell(
                group.tag_bits,
                tag,
                rid,
            ),
        r is Err ==> r->Err_0.kind() == ErrorKind::Argument,
        r is Err ==> r->Err_0.text() == if group.tables@.contains(table) {
            "rid "@ + text::decimal(rid as nat) + " exceeds 24 bits"@
        } else {
            "table "@ + table.label() + " does not participate in coded group "@ + group.name@
        },
{
    let n: usize = group.tables.len();
    let mut tag: usize = 0;
    while tag < n && group.tables[tag] != table
        invariant
            tag <= n,
            n == group.tables@.len(),
            forall|k: int| 0 <= k < tag ==> group.tables@[k] != table,
        decreases n - tag,
    {
        tag += 1;
    }
    if tag == n {
        return Err(
            Error::argument(
                Message::new("table ").text(table.name()).text(
                    " does not participate in coded group ",
                ).text(group.name).as_str(),
            ),
        );
    }
    if rid > 0xFF_FFFF {
        return Err(
            Error::argument(
                Message::new("rid ").count(rid as u64).text(" exceeds 24 bits").as_str(),
            ),
        );
    }
    let space: u64 = tag_space_of(group.tag_bits);
    proof {
        assert(rid * space <= 0xFF_FFFF * 32) by (nonlinear_arith)
            requires
                rid <= 0xFF_FFFF,
                space <= 32,
        ;
        assert(group.tables@[tag as int] == table);
    }
    Ok(rid as u64 * space + tag as u64)
}

fn tag_space_of(bits: u32) -> (n: u64)
    ensures
        n == token::tag_space(bits),
        2 <= n <= 32,
{
    match bits {
        1 => 2,
        2 => 4,
        3 => 8,
        4 => 16,
        _ => 32,
    }
}

/// The table and row of a coded-index cell: the low tag bits select the table,
/// the rest (cut to 32 bits) is the row.
pub open spec fn decoded(tables: Seq<TableIndex>, tag_bits: u32, encoded: u64) -> Option<
    (TableIndex, u32),
> {
    let space = token::tag_space(tag_bits) as int;
    let tag = encoded as int % space;
    if tag < tables.len() {
        Some((tables[tag], (encoded as int / space % 0x1_0000_0000) as u32))
    } else {
        None
    }
}

/// Decodes a coded-index cell into its `(table, rid)` pair. A tag that no
/// table has gives nothing.
pub fn decode_coded(group: &CodedIndexGroup, encoded: u64) -> (r: Option<(TableIndex, u32)>)
    requires
        group.well_formed(),
    ensures
        r == decoded(group.tables@, group.tag_bits, encoded),
{
    let space: u64 = tag_space_of(group.tag_bits);
    let tag: usize = (encoded % space) as usize;
    let rid: u32 = (encoded / space % 0x1_0000_0000) as u32;
    if tag < group.tables.len() {
        Some((group.tables[tag], rid))
    } else {
        None
    }
}

/// Every table of a well-formed group with every 24-bit row comes back from
/// its coded cell.
pub proof fn coded_round_trip(tables: Seq<TableIndex>, tag_bits: u32, tag: int, rid: u32)
    requires
        tables.len() <= 32,
        tag_bits == token::tag_bits_for(tables.len() as int),
        0 <= tag < tables.len(),
        rid <= 0xFF_FFFF,
    ensures
        decoded(tables, tag_bits, coded_cell(tag_bits, tag, rid)) == Some((tables[tag], rid)),
        coded_cell(tag_bits, tag, rid) <= 0xFFFF_FFFF,
{
    let space = token::tag_space(tag_bits) as int;
    assert(tag < space);
    assert(rid * space <= 0xFF_FFFF * 32) by (nonlinear_arith)
        requires
            rid <= 0xFF_FFFF,
            0 < space <= 32,
    ;
    vstd::arithmetic::div_mod::lemma_fundamental_div_mod_converse(
        rid * space + tag,
        space,
        rid as int,
        tag,
    );
}

/// What the layout of the tables depends on: which tables are there, how many
/// rows each has, and how wide heap indexes are.
#[verifier::ext_equal]
pub struct TableShape {
    pub valid: u64,
    pub counts: Seq<u32>,
    pub heap_flags: u8,
}

/// The table with the number `n`.
pub open spec fn table_at(n: int) -> TableIndex {
    choose|t: TableIndex| t.number() == n
}

pub proof fn table_at_number(t: TableIndex)
    ensures
        table_at(t.number() as int) == t,
{
    assert(t.number() == t.number() as int);
    let u = table_at(t.number() as int);
    assert(u.number() == t.number());
    token::table_number_injective(u, t);
}

/// Whether bit `i` of `mask` is set.
pub open spec fn bit(mask: u64, i: int) -> bool {
    (mask >> (i as u64)) & 1 == 1
}

impl TableShape {
    /// Whether table number `i` is there.
    pub open spec fn has(self, i: int) -> bool {
        0 <= i < 0x38 && bit(self.valid, i) && token::is_table_number(i as u8)
    }

    /// Width of a cell of the kind, in bytes.
    pub open spec fn width(self, kind: ColumnKind) -> nat {
        match kind {
            ColumnKind::U8 => 1,
            ColumnKind::U16 => 2,
            ColumnKind::U32 => 4,
            ColumnKind::StringIdx => if self.heap_flags & 0x1 != 0 { 4 } else { 2 },
            ColumnKind::GuidIdx => if self.heap_flags & 0x2 != 0 { 4 } else { 2 },
            ColumnKind::BlobIdx => if self.heap_flags & 0x4 != 0 { 4 } else { 2 },
            ColumnKind::Simple(t) => if self.counts[t.number() as int] > 0xFFFF { 4 } else { 2 },
            ColumnKind::Coded(g) => if self.all_below(g.members(), coded_limit(g.bits())) {
                2
            } else {
                4
            },
        }
    }

    /// Whether every table of the list has fewer than `limit` rows.
    pub open spec fn all_below(self, tables: Seq<TableIndex>, limit: int) -> bool {
        forall|k: int|
            0 <= k < tables.len() ==> self.counts[#[trigger] tables[k].number() as int] < limit
    }

    /// Width of the first `n` columns of `kinds`.
    pub open spec fn columns_width(self, kinds: Seq<ColumnKind>, n: nat) -> nat
        decreases n,
    {
        if n == 0 {
            0
        } else {
            self.columns_width(kinds, (n - 1) as nat) + self.width(kinds[n - 1])
        }
    }

    /// Number of rows of a table, zero where the table is absent.
    pub open spec fn rows(self, t: TableIndex) -> u32 {
        if self.has(t.number() as int) {
            self.counts[t.number() as int]
        } else {
            0
        }
    }

    /// Row size of a table.
    pub open spec fn row_width(self, t: TableIndex) -> nat {
        self.columns_width(schema(t), schema(t).len())
    }

    /// Offset of column `col` inside a row of the table.
    pub open spec fn column_offset(self, t: TableIndex, col: int) -> nat {
        self.columns_width(schema(t), col as nat)
    }

    /// Offset of the first row of table number `i` inside the table data.
    pub open spec fn offset_of(self, i: int) -> nat
        decreases i,
    {
        if i <= 0 {
            0
        } else {
            self.offset_of(i - 1) + if self.has(i - 1) {
                self.row_width(table_at(i - 1)) * self.counts[i - 1] as nat
            } else {
                0
            }
        }
    }

    /// What is said of a cell that is not there.
    pub open spec fn cell_failure(self, table: TableIndex, rid: u32, col: nat) -> Seq<char> {
        if !self.has(table.number() as int) {
            "table "@ + table.label() + " is absent"@
        } else if rid == 0 || rid > self.counts[table.number() as int] {
            "rid "@ + text::decimal(rid as nat) + " out of range for table "@ + table.label()
                + " ("@ + text::decimal(self.counts[table.number() as int] as nat) + " rows)"@
        } else {
            "column "@ + text::decimal(col) + " out of range for table "@ + table.label()
        }
    }

    /// Offset of a cell inside the table data.
    pub open spec fn cell_offset(self, t: TableIndex, rid: int, col: int) -> int {
        self.offset_of(t.number() as int) + (rid - 1) * self.row_width(t) + self.column_offset(t, col)
    }

    /// The columns of a table with their offsets.
    pub open spec fn descriptors(self, t: TableIndex) -> Seq<ColumnDesc> {
        Seq::new(
            schema(t).len(),
            |k: int|
                ColumnDesc { kind: schema(t)[k], offset: self.column_offset(t, k) as u16 },
        )
    }
}

/// How many rows make coded indexes of a group with `bits` tag bits wide.
pub open spec fn coded_limit(bits: u32) -> int {
    0x1_0000int / token::tag_space(bits) as int
}

proof fn widths_bounded(shape: TableShape, kinds: Seq<ColumnKind>, n: nat)
    requires
        n <= kinds.len(),
    ensures
        n <= shape.columns_width(kinds, n) <= 4 * n,
    decreases n,
{
    if n > 0 {
        widths_bounded(shape, kinds, (n - 1) as nat);
    }
}

proof fn widths_monotone(shape: TableShape, kinds: Seq<ColumnKind>, m: nat, n: nat)
    requires
        m <= n,
    ensures
        shape.columns_width(kinds, m) <= shape.columns_width(kinds, n),
    decreases n,
{
    if m < n {
        widths_monotone(shape, kinds, m, (n - 1) as nat);
    }
}

/// Every row takes between one and thirty-six bytes.
pub proof fn row_width_bounded(shape: TableShape, t: TableIndex)
    ensures
        1 <= shape.row_width(t) <= 36,
        1 <= schema(t).len() <= 9,
{
    assert(1 <= schema(t).len() <= 9);
    widths_bounded(shape, schema(t), schema(t).len());
}

/// The table data never outgrows 64 bits.
pub proof fn offsets_bounded(shape: TableShape, i: int)
    requires
        0 <= i <= 0x38,
        shape.counts.len() == 0x38,
    ensures
        shape.offset_of(i) <= i * 36 * 0x1_0000_0000,
    decreases i,
{
    if i > 0 {
        offsets_bounded(shape, i - 1);
        row_width_bounded(shape, table_at(i - 1));
        let w = shape.row_width(table_at(i - 1));
        let c = shape.counts[i - 1] as nat;
        assert(w * c <= 36 * 0x1_0000_0000) by (nonlinear_arith)
            requires
                w <= 36,
                c <= 0xFFFF_FFFF,
        ;
        assert(i * 36 * 0x1_0000_0000 == (i - 1) * 36 * 0x1_0000_0000 + 36 * 0x1_0000_0000);
    }
}

/// A cell of a row stands inside that row: the columns of a row are disjoint
/// and fill it.
pub proof fn cells_tile_row(shape: TableShape, t: TableIndex, col: int)
    requires
        0 <= col < schema(t).len(),
    ensures
        shape.column_offset(t, col) + shape.width(schema(t)[col]) <= shape.row_width(t),
        col + 1 < schema(t).len() ==> shape.column_offset(t, col + 1) == shape.column_offset(t, col)
            + shape.width(schema(t)[col]),
{
    widths_monotone(shape, schema(t), (col + 1) as nat, schema(t).len());
}

/// The rows of a table end before the table data that follows: the rows of
/// different tables are disjoint.
pub proof fn rows_end_before_next_table(shape: TableShape, t: TableIndex, rid: int, i: int)
    requires
        shape.counts.len() == 0x38,
        shape.has(t.number() as int),
        1 <= rid <= shape.counts[t.number() as int],
        t.number() < i <= 0x38,
    ensures
        shape.offset_of(t.number() as int) + rid * shape.row_width(t) <= shape.offset_of(i),
    decreases i,
{
    let n = t.number() as int;
    if i == n + 1 {
        table_at_number(t);
        let w = shape.row_width(t) as int;
        let c = shape.counts[n] as int;
        assert(rid * w <= w * c) by (nonlinear_arith)
            requires
                0 <= w,
                0 <= rid <= c,
        ;
    } else {
        rows_end_before_next_table(shape, t, rid, i - 1);
    }
}

/// Layout of one present table inside the `#~` stream.
#[derive(Debug, Clone)]
struct TableLayout {
    row_size: u16,
    /// Byte offset of the first row, relative to the start of the table data.
    offset: u64,
    columns: Vec<ColumnDesc>,
}

/// Complete layout of all tables in one metadata root: row counts, column
/// descriptors, row sizes, and table offsets.
#[derive(Debug)]
pub struct TableSet {
    layouts: Vec<Option<TableLayout>>,
    counts: [u32; TABLE_COUNT],
    valid: u64,
    heap_flags: u8,
}

impl View for TableSet {
    type V = TableShape;

    closed spec fn view(&self) -> TableShape {
        TableShape { valid: self.valid, counts: self.counts@, heap_flags: self.heap_flags }
    }
}

spec fn layout_matches(layout: Option<TableLayout>, shape: TableShape, i: int) -> bool {
    match layout {
        None => !shape.has(i),
        Some(l) => shape.has(i) && l.row_size == shape.row_width(table_at(i)) && l.offset
            == shape.offset_of(i) && l.columns@ == shape.descriptors(table_at(i)),
    }
}

/// Width of a cell of the kind under the given row counts and heap flags.
fn width_of(kind: &ColumnKind, counts: &[u32; TABLE_COUNT], heap_flags: u8) -> (w: usize)
    ensures
        w == (TableShape { valid: 0, counts: counts@, heap_flags }).width(*kind),
{
    match kind {
        ColumnKind::U8 => 1,
        ColumnKind::U16 => 2,
        ColumnKind::U32 => 4,
        ColumnKind::StringIdx => if heap_flags & 0x1 != 0 { 4 } else { 2 },
        ColumnKind::GuidIdx => if heap_flags & 0x2 != 0 { 4 } else { 2 },
        ColumnKind::BlobIdx => if heap_flags & 0x4 != 0 { 4 } else { 2 },
        ColumnKind::Simple(t) => if counts[t.to_u8() as usize] > 0xFFFF { 4 } else { 2 },
        ColumnKind::Coded(g) => {
            let group = g.group();
            let limit: u64 = 0x1_0000 / tag_space_of(group.tag_bits);
            let n: usize = group.tables.len();
            let mut k: usize = 0;
            while k < n
                invariant
                    k <= n,
                    n == group.tables@.len(),
                    group.tables@ == g.members(),
                    limit == coded_limit(g.bits()),
                    *kind == ColumnKind::Coded(*g),
                    forall|j: int|
                        0 <= j < k ==> counts@[#[trigger] g.members()[j].number() as int] < limit,
                decreases n - k,
            {
                if counts[group.tables[k].to_u8() as usize] as u64 >= limit {
                    proof {
                        assert(counts@[g.members()[k as int].number() as int] >= limit);
                    }
                    return 4;
                }
                k += 1;
            }
            2
        },
    }
}

impl TableSet {
    #[verifier::type_invariant]
    spec fn laid_out(&self) -> bool {
        self.layouts@.len() == 0x38 && forall|i: int|
            0 <= i < 0x38 ==> layout_matches(#[trigger] self.layouts@[i], self@, i)
    }

    /// Computes the layout for every table set in `valid`.
    ///
    /// `row_counts[i]` must hold the row count for table `i` (0 when absent);
    /// `heap_flags` uses the on-disk `HeapSizes` encoding: bit 0 = 4-byte
    /// string indexes, bit 1 = 4-byte GUID indexes, bit 2 = 4-byte blob
    /// indexes.
    ///
    /// Valid bits without a known schema are silently skipped; use
    /// [`TableSet::compute_checked`] to reject them.
    pub fn compute(valid: u64, row_counts: &[u32; TABLE_COUNT], heap_flags: u8) -> (s: TableSet)
        ensures
            s@ == (TableShape { valid, counts: row_counts@, heap_flags }),
    {
        let ghost shape = TableShape { valid, counts: row_counts@, heap_flags };
        let mut layouts: Vec<Option<TableLayout>> = Vec::new();
        let mut offset: u64 = 0;
        let mut i: usize = 0;
        while i < TABLE_COUNT
            invariant
                i <= 0x38,
                layouts@.len() == i,
                shape == (TableShape { valid, counts: row_counts@, heap_flags }),
                offset == shape.offset_of(i as int),
                forall|k: int| 0 <= k < i ==> layout_matches(#[trigger] layouts@[k], shape, k),
            decreases 0x38 - i,
        {
            proof {
                offsets_bounded(shape, i as int);
                offsets_bounded(shape, i + 1);
            }
            if (valid >> (i as u64)) & 1 == 0 {
                layouts.push(None);
                i += 1;
                continue ;
            }
            assert(bit(valid, i as int)) by {
                let v = valid >> (i as u64);
                assert(v & 1 == 0 || v & 1 == 1) by (bit_vector);
            }
            match TableIndex::from_u8(i as u8) {
                None => {
                    layouts.push(None);
                },
                Some(table) => {
                    proof {
                        table_at_number(table);
                        row_width_bounded(shape, table);
                    }
                    let (columns, row_size) = lay_out_row(table, row_counts, heap_flags, Ghost(shape));
                    layouts.push(Some(TableLayout { row_size, offset, columns }));
                    let ghost w = shape.row_width(table);
                    let ghost c = row_counts@[i as int] as nat;
                    proof {
                        assert(w * c <= 36 * 0x1_0000_0000) by (nonlinear_arith)
                            requires
                                w <= 36,
                                c <= 0xFFFF_FFFF,
                        ;
                    }
                    offset = offset + row_size as u64 * row_counts[i] as u64;
                },
            }
            i += 1;
        }
        TableSet { layouts, counts: *row_counts, valid, heap_flags }
    }

    /// Like [`TableSet::compute`], but returns an error when any valid bit
    /// refers to a table number without a known schema.
    pub fn compute_checked(
        valid: u64,
        row_counts: &[u32; TABLE_COUNT],
        heap_flags: u8,
    ) -> (r: Result<TableSet, Error>)
        ensures
            r is Ok <==> all_known(valid),
            r is Ok ==> r->Ok_0@ == (TableShape { valid, counts: row_counts@, heap_flags }),
            r is Err ==> r->Err_0.kind() == ErrorKind::Unsupported && exists|i: int|
                #![trigger bit(valid, i)]
                0 <= i < 64 && bit(valid, i) && !token::is_table_number(i as u8) && (forall|k: int|
                    0 <= k < i && #[trigger] bit(valid, k) ==> token::is_table_number(k as u8))
                    && r->Err_0.text() == "unknown metadata table 0x"@ + text::lower_hex_padded(
                    i as nat,
                    2,
                ),
    {
        let mut i: u64 = 0;
        while i < 64
            invariant
                i <= 64,
                forall|k: int|
                    0 <= k < i ==> #[trigger] bit(valid, k) ==> token::is_table_number(k as u8),
            decreases 64 - i,
        {
            let set: bool = (valid >> i) & 1 == 1;
            if set && TableIndex::from_u8(i as u8).is_none() {
                proof {
                    assert(bit(valid, i as int));
                }
                return Err(
                    Error::unsupported(
                        Message::new("unknown metadata table 0x").hex_padded(i, 2).as_str(),
                    ),
                );
            }
            i += 1;
        }
        Ok(TableSet::compute(valid, row_counts, heap_flags))
    }

    /// The `Valid` bitmask of present tables.
    pub fn valid_mask(&self) -> (v: u64)
        ensures
            v == self@.valid,
    {
        self.valid
    }

    /// The raw `HeapSizes` flags this layout was computed with.
    pub fn heap_size_flags(&self) -> (v: u8)
        ensures
            v == self@.heap_flags,
    {
        self.heap_flags
    }

    /// Whether the table has rows.
    pub fn is_present(&self, table: TableIndex) -> (b: bool)
        ensures
            b == (self@.has(table.number() as int) && self@.counts[table.number() as int] > 0),
    {
        proof {
            use_type_invariant(self);
            table_at_number(table);
        }
        let i: usize = table.to_u8() as usize;
        self.layouts[i].is_some() && self.counts[i] > 0
    }

    /// Number of rows (0 when absent).
    pub fn row_count(&self, table: TableIndex) -> (n: u32)
        ensures
            n == self@.rows(table),
            self@.counts.len() == 0x38,
    {
        proof {
            use_type_invariant(self);
            table_at_number(table);
        }
        let i: usize = table.to_u8() as usize;
        if self.layouts[i].is_some() {
            self.counts[i]
        } else {
            0
        }
    }

    /// Row size in bytes, if present.
    pub fn row_size(&self, table: TableIndex) -> (r: Option<u16>)
        ensures
            r is Some <==> self@.has(table.number() as int),
            r is Some ==> r->Some_0 == self@.row_width(table),
    {
        proof {
            use_type_invariant(self);
            table_at_number(table);
        }
        match &self.layouts[table.to_u8() as usize] {
            Some(l) => Some(l.row_size),
            None => None,
        }
    }

    /// Byte offset of the first row relative to the table data, if present.
    pub fn table_offset(&self, table: TableIndex) -> (r: Option<u64>)
        ensures
            r is Some <==> self@.has(table.number() as int),
            r is Some ==> r->Some_0 == self@.offset_of(table.number() as int),
    {
        proof {
            use_type_invariant(self);
            table_at_number(table);
        }
        match &self.layouts[table.to_u8() as usize] {
            Some(l) => Some(l.offset),
            None => None,
        }
    }

    /// Column descriptors, if present.
    pub fn columns(&self, table: TableIndex) -> (r: Option<&[ColumnDesc]>)
        ensures
            r is Some <==> self@.has(table.number() as int),
            r is Some ==> r->Some_0@ == self@.descriptors(table),
    {
        proof {
            use_type_invariant(self);
            table_at_number(table);
        }
        match &self.layouts[table.to_u8() as usize] {
            Some(l) => Some(l.columns.as_slice()),
            None => None,
        }
    }

    /// Number of columns (0 when absent).
    pub fn column_count(&self, table: TableIndex) -> (n: usize)
        ensures
            n == if self@.has(table.number() as int) {
                schema(table).len()
            } else {
                0
            },
    {
        match self.columns(table) {
            Some(c) => c.len(),
            None => 0,
        }
    }

    /// Whether the `#Strings` heap needs 4-byte indexes.
    pub fn large_string(&self) -> (b: bool)
        ensures
            b == (self@.heap_flags & 0x1 != 0),
    {
        self.heap_flags & 0x1 != 0
    }

    /// Whether the `#GUID` heap needs 4-byte indexes.
    pub fn large_guid(&self) -> (b: bool)
        ensures
            b == (self@.heap_flags & 0x2 != 0),
    {
        self.heap_flags & 0x2 != 0
    }

    /// Whether the `#Blob` heap needs 4-byte indexes.
    pub fn large_blob(&self) -> (b: bool)
        ensures
            b == (self@.heap_flags & 0x4 != 0),
    {
        self.heap_flags & 0x4 != 0
    }

    /// Resolved physical width in bytes of one column kind under this layout.
    pub fn kind_width(&self, kind: &ColumnKind) -> (w: usize)
        ensures
            w == self@.width(*kind),
    {
        width_of(kind, &self.counts, self.heap_flags)
    }

    /// Locates one cell: returns its byte offset within the table data plus
    /// its width in bytes. An absent table, a row outside the table and a
    /// column outside the schema are argument errors.
    pub fn cell_location(&self, table: TableIndex, rid: u32, col: usize) -> (r: Result<
        (u64, usize),
        Error,
    >)
        ensures
            r is Ok <==> self@.has(table.number() as int) && 1 <= rid
                <= self@.counts[table.number() as int] && col < schema(table).len(),
            r is Ok ==> r->Ok_0.0 == self@.cell_offset(table, rid as int, col as int) && r->Ok_0.1
                == self@.width(schema(table)[col as int]),
            r is Ok ==> r->Ok_0.0 <= u64::MAX / 2,
            r is Err ==> r->Err_0.kind() == ErrorKind::Argument && r->Err_0.text()
                == self@.cell_failure(table, rid, col as nat),
    {
        proof {
            use_type_invariant(self);
            table_at_number(table);
            offsets_bounded(self@, table.number() as int);
            row_width_bounded(self@, table);
        }
        let i: usize = table.to_u8() as usize;
        match &self.layouts[i] {
            None => Err(
                Error::argument(
                    Message::new("table ").text(table.name()).text(" is absent").as_str(),
                ),
            ),
            Some(layout) => {
                if rid == 0 || rid > self.counts[i] {
                    return Err(
                        Error::argument(
                            Message::new("rid ").count(rid as u64).text(
                                " out of range for table ",
                            ).text(table.name()).text(" (").count(self.counts[i] as u64).text(
                                " rows)",
                            ).as_str(),
                        ),
                    );
                }
                if col >= layout.columns.len() {
                    return Err(
                        Error::argument(
                            Message::new("column ").count(col as u64).text(
                                " out of range for table ",
                            ).text(table.name()).as_str(),
                        ),
                    );
                }
                let desc = layout.columns[col];
                let width: usize = self.kind_width(&desc.kind);
                proof {
                    cells_tile_row(self@, table, col as int);
                    let w = layout.row_size as int;
                    assert((rid - 1) * w <= 0xFFFF_FFFF * 36) by (nonlinear_arith)
                        requires
                            0 <= rid - 1 <= 0xFFFF_FFFF,
                            0 <= w <= 36,
                    ;
                }
                let pos: u64 = layout.offset + (rid as u64 - 1) * layout.row_size as u64
                    + desc.offset as u64;
                Ok((pos, width))
            },
        }
    }
}

/// Whether every table of the mask has a schema.
pub open spec fn all_known(valid: u64) -> bool {
    forall|k: int| 0 <= k < 64 ==> #[trigger] bit(valid, k) ==> token::is_table_number(k as u8)
}

/// The columns of a table with their offsets, and its row size.
fn lay_out_row(
    table: TableIndex,
    row_counts: &[u32; TABLE_COUNT],
    heap_flags: u8,
    Ghost(shape): Ghost<TableShape>,
) -> (r: (Vec<ColumnDesc>, u16))
    requires
        shape.counts == row_counts@,
        shape.heap_flags == heap_flags,
    ensures
        r.0@ == shape.descriptors(table),
        r.1 == shape.row_width(table),
{
    let mut columns: Vec<ColumnDesc> = Vec::new();
    let mut row_offset: u16 = 0;
    match column_kinds(table) {
        Some(kinds) => {
            let n: usize = kinds.len();
            let mut k: usize = 0;
            proof {
                row_width_bounded(shape, table);
            }
            while k < n
                invariant
                    k <= n,
                    n == kinds@.len(),
                    n <= 9,
                    kinds@ == schema(table),
                    shape.counts == row_counts@,
                    shape.heap_flags == heap_flags,
                    columns@ =~= shape.descriptors(table).take(k as int),
                    row_offset == shape.column_offset(table, k as int),
                decreases n - k,
            {
                proof {
                    widths_bounded(shape, schema(table), k as nat);
                    let other = TableShape { valid: 0, counts: row_counts@, heap_flags };
                    assert(shape.width(kinds@[k as int]) == other.width(kinds@[k as int])) by {
                        match kinds@[k as int] {
                            ColumnKind::Coded(g) => {
                                assert(shape.all_below(g.members(), coded_limit(g.bits()))
                                    == other.all_below(g.members(), coded_limit(g.bits())));
                            },
                            _ => {},
                        }
                    }
                }
                let kind: ColumnKind = kinds[k];
                columns.push(ColumnDesc { kind, offset: row_offset });
                row_offset = row_offset + width_of(&kind, row_counts, heap_flags) as u16;
                k += 1;
            }
            proof {
                assert(shape.descriptors(table).take(n as int) =~= shape.descriptors(table));
            }
        },
        None => {},
    }
    (columns, row_offset)
}

} // verus!
