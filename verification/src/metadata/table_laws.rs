//! The row layout of every table: where each column starts and how many bytes it
//! takes, and which rows the indexes in it can name.

use vstd::prelude::*;

use crate::bytes;
use crate::error::ErrorKind;
use crate::metadata::reader::MetadataView;
use crate::metadata::tables;
use crate::metadata::tables::{ColumnKind, TableShape};
use crate::token;
use crate::token::{CodedGroup, TableIndex};

verus! {

/// Width of an index into the text heap: bit 0 of the heap flags.
pub open spec fn text_index(f: TableShape) -> nat {
    if f.heap_flags % 2 == 1 {
        4
    } else {
        2
    }
}

/// Width of an index into the heap of identifiers: bit 1 of the heap flags.
pub open spec fn guid_index(f: TableShape) -> nat {
    if f.heap_flags / 2 % 2 == 1 {
        4
    } else {
        2
    }
}

/// Width of an index into the blob heap: bit 2 of the heap flags.
pub open spec fn blob_index(f: TableShape) -> nat {
    if f.heap_flags / 4 % 2 == 1 {
        4
    } else {
        2
    }
}

/// Width of a row number of the table with the number: two bytes as long as
/// they can hold the number of its last row.
pub open spec fn row_index(f: TableShape, number: int) -> nat {
    if f.counts[number] < 0x1_0000 {
        2
    } else {
        4
    }
}

/// Width of an index that names a row of one of several tables: two bytes as
/// long as each of the tables has fewer rows than the limit.
pub open spec fn shared_index(f: TableShape, numbers: Seq<int>, limit: int) -> nat {
    if forall|k: int| 0 <= k < numbers.len() ==> f.counts[#[trigger] numbers[k]] < limit {
        2
    } else {
        4
    }
}

/// Sum of the first `n` widths.
pub open spec fn total(widths: Seq<nat>, n: nat) -> nat
    decreases n,
{
    if n == 0 {
        0
    } else {
        total(widths, (n - 1) as nat) + widths[n - 1]
    }
}

/// A row of the table is made of columns of the widths, one after another.
pub open spec fn row_is(f: TableShape, t: TableIndex, widths: Seq<nat>) -> bool {
    &&& tables::schema(t).len() == widths.len()
    &&& f.row_width(t) == total(widths, widths.len())
    &&& forall|i: int|
        0 <= i < widths.len() ==> #[trigger] f.column_offset(t, i) == total(widths, i as nat)
    &&& forall|i: int|
        0 <= i < widths.len() ==> f.width(#[trigger] tables::schema(t)[i]) == widths[i]
}

proof fn heap_widths(f: TableShape)
    ensures
        f.width(ColumnKind::StringIdx) == text_index(f),
        f.width(ColumnKind::GuidIdx) == guid_index(f),
        f.width(ColumnKind::BlobIdx) == blob_index(f),
{
    let h = f.heap_flags;
    assert((h & 0x1 != 0) == (h % 2 == 1) && (h & 0x2 != 0) == (h / 2 % 2 == 1) && (h & 0x4 != 0)
        == (h / 4 % 2 == 1)) by (bit_vector);
}

proof fn sums_agree(f: TableShape, kinds: Seq<ColumnKind>, widths: Seq<nat>, n: nat)
    requires
        n <= widths.len(),
        kinds.len() == widths.len(),
        forall|i: int| 0 <= i < widths.len() ==> f.width(#[trigger] kinds[i]) == widths[i],
    ensures
        f.columns_width(kinds, n) == total(widths, n),
    decreases n,
{
    if n > 0 {
        sums_agree(f, kinds, widths, (n - 1) as nat);
    }
}

proof fn row_from_widths(f: TableShape, t: TableIndex, widths: Seq<nat>)
    requires
        tables::schema(t).len() == widths.len(),
        forall|i: int|
            0 <= i < widths.len() ==> f.width(#[trigger] tables::schema(t)[i]) == widths[i],
    ensures
        row_is(f, t, widths),
{
    let kinds = tables::schema(t);
    sums_agree(f, kinds, widths, widths.len());
    assert forall|i: int| 0 <= i < widths.len() implies #[trigger] f.column_offset(t, i) == total(
        widths,
        i as nat,
    ) by {
        sums_agree(f, kinds, widths, i as nat);
    }
}

/// The group names the rows of the tables with the numbers, each by its place.
pub open spec fn group_is(g: CodedGroup, numbers: Seq<int>, tag_bits: u32) -> bool {
    &&& g.bits() == tag_bits
    &&& g.members().len() == numbers.len()
    &&& forall|k: int|
        0 <= k < numbers.len() ==> #[trigger] g.members()[k].number() as int == numbers[k]
}

proof fn group_width(f: TableShape, g: CodedGroup, numbers: Seq<int>, tag_bits: u32)
    requires
        group_is(g, numbers, tag_bits),
        1 <= tag_bits <= 5,
    ensures
        f.width(ColumnKind::Coded(g)) == shared_index(
            f,
            numbers,
            if tag_bits == 1 {
                0x8000
            } else if tag_bits == 2 {
                0x4000
            } else if tag_bits == 3 {
                0x2000
            } else if tag_bits == 4 {
                0x1000
            } else {
                0x800
            },
        ),
{
    let members = g.members();
    let limit = tables::coded_limit(g.bits());
    assert(f.all_below(members, limit) == (forall|k: int|
        0 <= k < numbers.len() ==> f.counts[#[trigger] numbers[k]] < limit)) by {
        if f.all_below(members, limit) {
            assert forall|k: int| 0 <= k < numbers.len() implies f.counts[#[trigger] numbers[k]]
                < limit by {
                assert(members[k].number() as int == numbers[k]);
            }
        }
        if forall|k: int| 0 <= k < numbers.len() ==> f.counts[#[trigger] numbers[k]] < limit {
            assert forall|k: int| 0 <= k < members.len() implies f.counts[#[trigger] members[
                k
            ].number() as int] < limit by {
                assert(numbers[k] == members[k].number() as int);
            }
        }
    }
}

/// The cell of a row with a column of the width at the offset, in a table whose
/// rows start at `start` and have `row` bytes each, is the number that the bytes
/// there make, least first.
pub proof fn cell_is_the_number_at_its_place(
    m: MetadataView,
    t: TableIndex,
    widths: Seq<nat>,
    rid: u32,
    col: int,
)
    requires
        row_is(m.shape, t, widths),
        m.shape.has(t.number() as int),
        1 <= rid <= m.shape.counts[t.number() as int],
        0 <= col < widths.len(),
        m.shape.offset_of(t.number() as int) + (rid - 1) * total(
            widths,
            widths.len(),
        ) + total(widths, col as nat) + widths[col] <= m.table_data.len(),
    ensures
        ({
            let at = m.shape.offset_of(t.number() as int) + (rid - 1) * total(
                widths,
                widths.len(),
            ) + total(widths, col as nat);
            m.cell(t, rid, col) == Ok::<u64, crate::error::ErrorKind>(
                if widths[col] == 1 {
                    m.table_data[at] as u64
                } else if widths[col] == 2 {
                    (m.table_data[at] + 0x100 * m.table_data[at + 1]) as u64
                } else {
                    (m.table_data[at] + 0x100 * m.table_data[at + 1] + 0x1_0000 * m.table_data[at + 2] + 0x100_0000
                        * m.table_data[at + 3]) as u64
                },
            )
        }),
{
    reveal(bytes::u16_at);
    reveal(bytes::u32_at);
    assert(m.shape.width(tables::schema(t)[col]) == widths[col]);
    assert(m.shape.column_offset(t, col) == total(widths, col as nat));
}

/// The rows of the tables that are there follow one another in the order of the
/// table numbers, with nothing between them.
pub proof fn tables_follow_one_another(f: TableShape, t: TableIndex)
    requires
        f.counts.len() == 0x38,
    ensures
        f.offset_of(0) == 0,
        f.valid & (1u64 << t.number() as u64) != 0 ==> f.offset_of(t.number() as int + 1)
            == f.offset_of(t.number() as int) + f.row_width(t) * f.counts[t.number() as int],
        f.valid & (1u64 << t.number() as u64) == 0 ==> f.offset_of(t.number() as int + 1)
            == f.offset_of(t.number() as int),
        f.has(t.number() as int) <==> f.valid & (1u64 << t.number() as u64) != 0,
{
    let v = f.valid;
    let i = t.number() as u64;
    tables::table_at_number(t);
    assert(token::is_table_number(t.number()));
    assert(i < 0x38);
    assert(i < 0x38 ==> ((v >> i) & 1 == 1) == (v & (1u64 << i) != 0)) by (bit_vector);
}

/// `TypeDefOrRef` names rows of these tables, with 2 tag bits.
pub proof fn type_def_or_ref_tables()
    ensures
        group_is(CodedGroup::TypeDefOrRef, seq![0x2int, 0x1, 0x1b], 2),
{
}

/// `HasConstant` names rows of these tables, with 2 tag bits.
pub proof fn has_constant_tables()
    ensures
        group_is(CodedGroup::HasConstant, seq![0x4int, 0x8, 0x17], 2),
{
}

/// `HasCustomAttribute` names rows of these tables, with 5 tag bits.
pub proof fn has_custom_attribute_tables()
    ensures
        group_is(CodedGroup::HasCustomAttribute, seq![0x6int, 0x4, 0x1, 0x2, 0x8, 0x9, 0xa, 0x0, 0xe, 0x17, 0x14, 0x11, 0x1a, 0x1b, 0x20, 0x23, 0x26, 0x27, 0x28, 0x2a, 0x2c, 0x2b], 5),
{
}

/// `HasFieldMarshal` names rows of these tables, with 1 tag bit.
pub proof fn has_field_marshal_tables()
    ensures
        group_is(CodedGroup::HasFieldMarshal, seq![0x4int, 0x8], 1),
{
}

/// `HasDeclSecurity` names rows of these tables, with 2 tag bits.
pub proof fn has_decl_security_tables()
    ensures
        group_is(CodedGroup::HasDeclSecurity, seq![0x2int, 0x6, 0x20], 2),
{
}

/// `MemberRefParent` names rows of these tables, with 3 tag bits.
pub proof fn member_ref_parent_tables()
    ensures
        group_is(CodedGroup::MemberRefParent, seq![0x2int, 0x1, 0x1a, 0x6, 0x1b], 3),
{
}

/// `HasSemantics` names rows of these tables, with 1 tag bit.
pub proof fn has_semantics_tables()
    ensures
        group_is(CodedGroup::HasSemantics, seq![0x14int, 0x17], 1),
{
}

/// `MethodDefOrRef` names rows of these tables, with 1 tag bit.
pub proof fn method_def_or_ref_tables()
    ensures
        group_is(CodedGroup::MethodDefOrRef, seq![0x6int, 0xa], 1),
{
}

/// `MemberForwarded` names rows of these tables, with 1 tag bit.
pub proof fn member_forwarded_tables()
    ensures
        group_is(CodedGroup::MemberForwarded, seq![0x4int, 0x6], 1),
{
}

/// `Implementation` names rows of these tables, with 2 tag bits.
pub proof fn implementation_tables()
    ensures
        group_is(CodedGroup::Implementation, seq![0x26int, 0x23, 0x27], 2),
{
}

/// `ResolutionScope` names rows of these tables, with 2 tag bits.
pub proof fn resolution_scope_tables()
    ensures
        group_is(CodedGroup::ResolutionScope, seq![0x0int, 0x1a, 0x23, 0x1], 2),
{
}

/// `TypeOrMethodDef` names rows of these tables, with 1 tag bit.
pub proof fn type_or_method_def_tables()
    ensures
        group_is(CodedGroup::TypeOrMethodDef, seq![0x2int, 0x6], 1),
{
}

/// `HasCustomDebugInformation` names rows of these tables, with 5 tag bits.
pub proof fn has_custom_debug_information_tables()
    ensures
        group_is(CodedGroup::HasCustomDebugInformation, seq![0x6int, 0x4, 0x1, 0x2, 0x8, 0x9, 0xa, 0x0, 0xe, 0x17, 0x14, 0x11, 0x1a, 0x1b, 0x20, 0x23, 0x26, 0x27, 0x28, 0x2a, 0x2c, 0x2b, 0x30, 0x32, 0x33, 0x34, 0x35], 5),
{
}

/// `CustomAttributeType` names rows of these tables, with 1 tag bit.
pub proof fn custom_attribute_type_tables()
    ensures
        group_is(CodedGroup::CustomAttributeType, seq![0x6int, 0xa], 1),
{
}

/// A coded index holds the place of the table in its group in the low bits and
/// the row above them.
pub proof fn coded_index_names_a_row(g: CodedGroup, numbers: Seq<int>, tag_bits: u32, k: int, rid: u32)
    requires
        group_is(g, numbers, tag_bits),
        1 <= tag_bits <= 5,
        0 <= k < numbers.len(),
        numbers.len() <= (1u64 << tag_bits),
    ensures
        tables::decoded(g.members(), g.bits(), (((rid as u64) << (tag_bits as u64)) | (k as u64)))
            matches Some(found) && found.0.number() as int == numbers[k] && found.1 == rid,
{
    let j = k as u64;
    let r = rid as u64;
    let n = numbers.len() as u64;
    assert(1u64 << 1u32 == 2 && 1u64 << 2u32 == 4 && 1u64 << 3u32 == 8 && 1u64 << 4u32 == 16
        && 1u64 << 5u32 == 32) by (bit_vector);
    assert(r <= 0xFFFF_FFFF ==> {
        &&& (j < 2 ==> (r << 1u64) | j == r * 2 + j)
        &&& (j < 4 ==> (r << 2u64) | j == r * 4 + j)
        &&& (j < 8 ==> (r << 3u64) | j == r * 8 + j)
        &&& (j < 16 ==> (r << 4u64) | j == r * 16 + j)
        &&& (j < 32 ==> (r << 5u64) | j == r * 32 + j)
    }) by (bit_vector);
    assert(g.members()[k].number() as int == numbers[k]);
}

/// The tables by their numbers.
pub proof fn table_numbers()
    ensures
        TableIndex::Module.number() == 0x00,
        TableIndex::TypeRef.number() == 0x01,
        TableIndex::TypeDef.number() == 0x02,
        TableIndex::FieldPtr.number() == 0x03,
        TableIndex::Field.number() == 0x04,
        TableIndex::MethodPtr.number() == 0x05,
        TableIndex::MethodDef.number() == 0x06,
        TableIndex::ParamPtr.number() == 0x07,
        TableIndex::Param.number() == 0x08,
        TableIndex::InterfaceImpl.number() == 0x09,
        TableIndex::MemberRef.number() == 0x0A,
        TableIndex::Constant.number() == 0x0B,
        TableIndex::CustomAttribute.number() == 0x0C,
        TableIndex::FieldMarshal.number() == 0x0D,
        TableIndex::DeclSecurity.number() == 0x0E,
        TableIndex::ClassLayout.number() == 0x0F,
        TableIndex::FieldLayout.number() == 0x10,
        TableIndex::StandAloneSig.number() == 0x11,
        TableIndex::EventMap.number() == 0x12,
        TableIndex::EventPtr.number() == 0x13,
        TableIndex::Event.number() == 0x14,
        TableIndex::PropertyMap.number() == 0x15,
        TableIndex::PropertyPtr.number() == 0x16,
        TableIndex::Property.number() == 0x17,
        TableIndex::MethodSemantics.number() == 0x18,
        TableIndex::MethodImpl.number() == 0x19,
        TableIndex::ModuleRef.number() == 0x1A,
        TableIndex::TypeSpec.number() == 0x1B,
        TableIndex::ImplMap.number() == 0x1C,
        TableIndex::FieldRva.number() == 0x1D,
        TableIndex::EncLog.number() == 0x1E,
        TableIndex::EncMap.number() == 0x1F,
        TableIndex::Assembly.number() == 0x20,
        TableIndex::AssemblyProcessor.number() == 0x21,
        TableIndex::AssemblyOS.number() == 0x22,
        TableIndex::AssemblyRef.number() == 0x23,
        TableIndex::AssemblyRefProcessor.number() == 0x24,
        TableIndex::AssemblyRefOS.number() == 0x25,
        TableIndex::File.number() == 0x26,
        TableIndex::ExportedType.number() == 0x27,
        TableIndex::ManifestResource.number() == 0x28,
        TableIndex::NestedClass.number() == 0x29,
        TableIndex::GenericParam.number() == 0x2A,
        TableIndex::MethodSpec.number() == 0x2B,
        TableIndex::GenericParamConstraint.number() == 0x2C,
        TableIndex::Document.number() == 0x30,
        TableIndex::MethodDebugInformation.number() == 0x31,
        TableIndex::LocalScope.number() == 0x32,
        TableIndex::LocalVariable.number() == 0x33,
        TableIndex::LocalConstant.number() == 0x34,
        TableIndex::ImportScope.number() == 0x35,
        TableIndex::StateMachineMethod.number() == 0x36,
        TableIndex::CustomDebugInformation.number() == 0x37,
{
}

/// A row of the table 0x00, `Module`.
pub proof fn module_row(f: TableShape)
    ensures
        row_is(
            f,
            TableIndex::Module,
            seq![
                2nat,
                text_index(f),
                guid_index(f),
                guid_index(f),
                guid_index(f),
            ],
        ),
{
    heap_widths(f);
    row_from_widths(
        f,
        TableIndex::Module,
        seq![
            2nat,
            text_index(f),
            guid_index(f),
            guid_index(f),
            guid_index(f),
        ],
    );
}

/// A row of the table 0x01, `TypeRef`.
pub proof fn type_ref_row(f: TableShape)
    ensures
        row_is(
            f,
            TableIndex::TypeRef,
            seq![
                shared_index(f, seq![0x00int, 0x1a, 0x23, 0x01], 0x4000),
                text_index(f),
                text_index(f),
            ],
        ),
{
    heap_widths(f);
    resolution_scope_tables();
    group_width(f, CodedGroup::ResolutionScope, seq![0x00int, 0x1a, 0x23, 0x01], 2);
    row_from_widths(
        f,
        TableIndex::TypeRef,
        seq![
            shared_index(f, seq![0x00int, 0x1a, 0x23, 0x01], 0x4000),
            text_index(f),
            text_index(f),
        ],
    );
}

/// A row of the table 0x02, `TypeDef`.
pub proof fn type_def_row(f: TableShape)
    ensures
        row_is(
            f,
            TableIndex::TypeDef,
            seq![
                4nat,
                text_index(f),
                text_index(f),
                shared_index(f, seq![0x02int, 0x01, 0x1b], 0x4000),
                row_index(f, 0x04),
                row_index(f, 0x06),
            ],
        ),
{
    heap_widths(f);
    type_def_or_ref_tables();
    group_width(f, CodedGroup::TypeDefOrRef, seq![0x02int, 0x01, 0x1b], 2);
    row_from_widths(
        f,
        TableIndex::TypeDef,
        seq![
            4nat,
            text_index(f),
            text_index(f),
            shared_index(f, seq![0x02int, 0x01, 0x1b], 0x4000),
            row_index(f, 0x04),
            row_index(f, 0x06),
        ],
    );
}

/// A row of the table 0x03, `FieldPtr`.
pub proof fn field_ptr_row(f: TableShape)
    ensures
        row_is(
            f,
            TableIndex::FieldPtr,
            seq![
                row_index(f, 0x04),
            ],
        ),
{
    heap_widths(f);
    row_from_widths(
        f,
        TableIndex::FieldPtr,
        seq![
            row_index(f, 0x04),
        ],
    );
}

/// A row of the table 0x04, `Field`.
pub proof fn field_row(f: TableShape)
    ensures
        row_is(
            f,
            TableIndex::Field,
            seq![
                2nat,
                text_index(f),
                blob_index(f),
            ],
        ),
{
    heap_widths(f);
    row_from_widths(
        f,
        TableIndex::Field,
        seq![
            2nat,
            text_index(f),
            blob_index(f),
        ],
    );
}

/// A row of the table 0x05, `MethodPtr`.
pub proof fn method_ptr_row(f: TableShape)
    ensures
        row_is(
            f,
            TableIndex::MethodPtr,
            seq![
                row_index(f, 0x06),
            ],
        ),
{
    heap_widths(f);
    row_from_widths(
        f,
        TableIndex::MethodPtr,
        seq![
            row_index(f, 0x06),
        ],
    );
}

/// A row of the table 0x06, `MethodDef`.
pub proof fn method_def_row(f: TableShape)
    ensures
        row_is(
            f,
            TableIndex::MethodDef,
            seq![
                4nat,
                2,
                2,
                text_index(f),
                blob_index(f),
                row_index(f, 0x08),
            ],
        ),
{
    heap_widths(f);
    row_from_widths(
        f,
        TableIndex::MethodDef,
        seq![
            4nat,
            2,
            2,
            text_index(f),
            blob_index(f),
            row_index(f, 0x08),
        ],
    );
}

/// A row of the table 0x07, `ParamPtr`.
pub proof fn param_ptr_row(f: TableShape)
    ensures
        row_is(
            f,
            TableIndex::ParamPtr,
            seq![
                row_index(f, 0x08),
            ],
        ),
{
    heap_widths(f);
    row_from_widths(
        f,
        TableIndex::ParamPtr,
        seq![
            row_index(f, 0x08),
        ],
    );
}

/// A row of the table 0x08, `Param`.
pub proof fn param_row(f: TableShape)
    ensures
        row_is(
            f,
            TableIndex::Param,
            seq![
                2nat,
                2,
                text_index(f),
            ],
        ),
{
    heap_widths(f);
    row_from_widths(
        f,
        TableIndex::Param,
        seq![
            2nat,
            2,
            text_index(f),
        ],
    );
}

/// A row of the table 0x09, `InterfaceImpl`.
pub proof fn interface_impl_row(f: TableShape)
    ensures
        row_is(
            f,
            TableIndex::InterfaceImpl,
            seq![
                row_index(f, 0x02),
                shared_index(f, seq![0x02int, 0x01, 0x1b], 0x4000),
            ],
        ),
{
    heap_widths(f);
    type_def_or_ref_tables();
    group_width(f, CodedGroup::TypeDefOrRef, seq![0x02int, 0x01, 0x1b], 2);
    row_from_widths(
        f,
        TableIndex::InterfaceImpl,
        seq![
            row_index(f, 0x02),
            shared_index(f, seq![0x02int, 0x01, 0x1b], 0x4000),
        ],
    );
}

/// A row of the table 0x0a, `MemberRef`.
pub proof fn member_ref_row(f: TableShape)
    ensures
        row_is(
            f,
            TableIndex::MemberRef,
            seq![
                shared_index(f, seq![0x02int, 0x01, 0x1a, 0x06, 0x1b], 0x2000),
                text_index(f),
                blob_index(f),
            ],
        ),
{
    heap_widths(f);
    member_ref_parent_tables();
    group_width(f, CodedGroup::MemberRefParent, seq![0x02int, 0x01, 0x1a, 0x06, 0x1b], 3);
    row_from_widths(
        f,
        TableIndex::MemberRef,
        seq![
            shared_index(f, seq![0x02int, 0x01, 0x1a, 0x06, 0x1b], 0x2000),
            text_index(f),
            blob_index(f),
        ],
    );
}

/// A row of the table 0x0b, `Constant`.
pub proof fn constant_row(f: TableShape)
    ensures
        row_is(
            f,
            TableIndex::Constant,
            seq![
                1nat,
                1,
                shared_index(f, seq![0x04int, 0x08, 0x17], 0x4000),
                blob_index(f),
            ],
        ),
{
    heap_widths(f);
    has_constant_tables();
    group_width(f, CodedGroup::HasConstant, seq![0x04int, 0x08, 0x17], 2);
    row_from_widths(
        f,
        TableIndex::Constant,
        seq![
            1nat,
            1,
            shared_index(f, seq![0x04int, 0x08, 0x17], 0x4000),
            blob_index(f),
        ],
    );
}

/// A row of the table 0x0c, `CustomAttribute`.
pub proof fn custom_attribute_row(f: TableShape)
    ensures
        row_is(
            f,
            TableIndex::CustomAttribute,
            seq![
                shared_index(f, seq![0x06int, 0x04, 0x01, 0x02, 0x08, 0x09, 0x0a, 0x00, 0x0e, 0x17, 0x14, 0x11, 0x1a, 0x1b, 0x20, 0x23, 0x26, 0x27, 0x28, 0x2a, 0x2c, 0x2b], 0x800),
                shared_index(f, seq![0x06int, 0x0a], 0x8000),
                blob_index(f),
            ],
        ),
{
    heap_widths(f);
    has_custom_attribute_tables();
    group_width(f, CodedGroup::HasCustomAttribute, seq![0x06int, 0x04, 0x01, 0x02, 0x08, 0x09, 0x0a, 0x00, 0x0e, 0x17, 0x14, 0x11, 0x1a, 0x1b, 0x20, 0x23, 0x26, 0x27, 0x28, 0x2a, 0x2c, 0x2b], 5);
    custom_attribute_type_tables();
    group_width(f, CodedGroup::CustomAttributeType, seq![0x06int, 0x0a], 1);
    row_from_widths(
        f,
        TableIndex::CustomAttribute,
        seq![
            shared_index(f, seq![0x06int, 0x04, 0x01, 0x02, 0x08, 0x09, 0x0a, 0x00, 0x0e, 0x17, 0x14, 0x11, 0x1a, 0x1b, 0x20, 0x23, 0x26, 0x27, 0x28, 0x2a, 0x2c, 0x2b], 0x800),
            shared_index(f, seq![0x06int, 0x0a], 0x8000),
            blob_index(f),
        ],
    );
}

/// A row of the table 0x0d, `FieldMarshal`.
pub proof fn field_marshal_row(f: TableShape)
    ensures
        row_is(
            f,
            TableIndex::FieldMarshal,
            seq![
                shared_index(f, seq![0x04int, 0x08], 0x8000),
                blob_index(f),
            ],
        ),
{
    heap_widths(f);
    has_field_marshal_tables();
    group_width(f, CodedGroup::HasFieldMarshal, seq![0x04int, 0x08], 1);
    row_from_widths(
        f,
        TableIndex::FieldMarshal,
        seq![
            shared_index(f, seq![0x04int, 0x08], 0x8000),
            blob_index(f),
        ],
    );
}

/// A row of the table 0x0e, `DeclSecurity`.
pub proof fn decl_security_row(f: TableShape)
    ensures
        row_is(
            f,
            TableIndex::DeclSecurity,
            seq![
                2nat,
                shared_index(f, seq![0x02int, 0x06, 0x20], 0x4000),
                blob_index(f),
            ],
        ),
{
    heap_widths(f);
    has_decl_security_tables();
    group_width(f, CodedGroup::HasDeclSecurity, seq![0x02int, 0x06, 0x20], 2);
    row_from_widths(
        f,
        TableIndex::DeclSecurity,
        seq![
            2nat,
            shared_index(f, seq![0x02int, 0x06, 0x20], 0x4000),
            blob_index(f),
        ],
    );
}

/// A row of the table 0x0f, `ClassLayout`.
pub proof fn class_layout_row(f: TableShape)
    ensures
        row_is(
            f,
            TableIndex::ClassLayout,
            seq![
                2nat,
                4,
                row_index(f, 0x02),
            ],
        ),
{
    heap_widths(f);
    row_from_widths(
        f,
        TableIndex::ClassLayout,
        seq![
            2nat,
            4,
            row_index(f, 0x02),
        ],
    );
}

/// A row of the table 0x10, `FieldLayout`.
pub proof fn field_layout_row(f: TableShape)
    ensures
        row_is(
            f,
            TableIndex::FieldLayout,
            seq![
                4nat,
                row_index(f, 0x04),
            ],
        ),
{
    heap_widths(f);
    row_from_widths(
        f,
        TableIndex::FieldLayout,
        seq![
            4nat,
            row_index(f, 0x04),
        ],
    );
}

/// A row of the table 0x11, `StandAloneSig`.
pub proof fn stand_alone_sig_row(f: TableShape)
    ensures
        row_is(
            f,
            TableIndex::StandAloneSig,
            seq![
                blob_index(f),
            ],
        ),
{
    heap_widths(f);
    row_from_widths(
        f,
        TableIndex::StandAloneSig,
        seq![
            blob_index(f),
        ],
    );
}

/// A row of the table 0x12, `EventMap`.
pub proof fn event_map_row(f: TableShape)
    ensures
        row_is(
            f,
            TableIndex::EventMap,
            seq![
                row_index(f, 0x02),
                row_index(f, 0x14),
            ],
        ),
{
    heap_widths(f);
    row_from_widths(
        f,
        TableIndex::EventMap,
        seq![
            row_index(f, 0x02),
            row_index(f, 0x14),
        ],
    );
}

/// A row of the table 0x13, `EventPtr`.
pub proof fn event_ptr_row(f: TableShape)
    ensures
        row_is(
            f,
            TableIndex::EventPtr,
            seq![
                row_index(f, 0x14),
            ],
        ),
{
    heap_widths(f);
    row_from_widths(
        f,
        TableIndex::EventPtr,
        seq![
            row_index(f, 0x14),
        ],
    );
}

/// A row of the table 0x14, `Event`.
pub proof fn event_row(f: TableShape)
    ensures
        row_is(
            f,
            TableIndex::Event,
            seq![
                2nat,
                text_index(f),
                shared_index(f, seq![0x02int, 0x01, 0x1b], 0x4000),
            ],
        ),
{
    heap_widths(f);
    type_def_or_ref_tables();
    group_width(f, CodedGroup::TypeDefOrRef, seq![0x02int, 0x01, 0x1b], 2);
    row_from_widths(
        f,
        TableIndex::Event,
        seq![
            2nat,
            text_index(f),
            shared_index(f, seq![0x02int, 0x01, 0x1b], 0x4000),
        ],
    );
}

/// A row of the table 0x15, `PropertyMap`.
pub proof fn property_map_row(f: TableShape)
    ensures
        row_is(
            f,
            TableIndex::PropertyMap,
            seq![
                row_index(f, 0x02),
                row_index(f, 0x17),
            ],
        ),
{
    heap_widths(f);
    row_from_widths(
        f,
        TableIndex::PropertyMap,
        seq![
            row_index(f, 0x02),
            row_index(f, 0x17),
        ],
    );
}

/// A row of the table 0x16, `PropertyPtr`.
pub proof fn property_ptr_row(f: TableShape)
    ensures
        row_is(
            f,
            TableIndex::PropertyPtr,
            seq![
                row_index(f, 0x17),
            ],
        ),
{
    heap_widths(f);
    row_from_widths(
        f,
        TableIndex::PropertyPtr,
        seq![
            row_index(f, 0x17),
        ],
    );
}

/// A row of the table 0x17, `Property`.
pub proof fn property_row(f: TableShape)
    ensures
        row_is(
            f,
            TableIndex::Property,
            seq![
                2nat,
                text_index(f),
                blob_index(f),
            ],
        ),
{
    heap_widths(f);
    row_from_widths(
        f,
        TableIndex::Property,
        seq![
            2nat,
            text_index(f),
            blob_index(f),
        ],
    );
}

/// A row of the table 0x18, `MethodSemantics`.
pub proof fn method_semantics_row(f: TableShape)
    ensures
        row_is(
            f,
            TableIndex::MethodSemantics,
            seq![
                2nat,
                row_index(f, 0x06),
                shared_index(f, seq![0x14int, 0x17], 0x8000),
            ],
        ),
{
    heap_widths(f);
    has_semantics_tables();
    group_width(f, CodedGroup::HasSemantics, seq![0x14int, 0x17], 1);
    row_from_widths(
        f,
        TableIndex::MethodSemantics,
        seq![
            2nat,
            row_index(f, 0x06),
            shared_index(f, seq![0x14int, 0x17], 0x8000),
        ],
    );
}

/// A row of the table 0x19, `MethodImpl`.
pub proof fn method_impl_row(f: TableShape)
    ensures
        row_is(
            f,
            TableIndex::MethodImpl,
            seq![
                row_index(f, 0x02),
                shared_index(f, seq![0x06int, 0x0a], 0x8000),
                shared_index(f, seq![0x06int, 0x0a], 0x8000),
            ],
        ),
{
    heap_widths(f);
    method_def_or_ref_tables();
    group_width(f, CodedGroup::MethodDefOrRef, seq![0x06int, 0x0a], 1);
    row_from_widths(
        f,
        TableIndex::MethodImpl,
        seq![
            row_index(f, 0x02),
            shared_index(f, seq![0x06int, 0x0a], 0x8000),
            shared_index(f, seq![0x06int, 0x0a], 0x8000),
        ],
    );
}

/// A row of the table 0x1a, `ModuleRef`.
pub proof fn module_ref_row(f: TableShape)
    ensures
        row_is(
            f,
            TableIndex::ModuleRef,
            seq![
                text_index(f),
            ],
        ),
{
    heap_widths(f);
    row_from_widths(
        f,
        TableIndex::ModuleRef,
        seq![
            text_index(f),
        ],
    );
}

/// A row of the table 0x1b, `TypeSpec`.
pub proof fn type_spec_row(f: TableShape)
    ensures
        row_is(
            f,
            TableIndex::TypeSpec,
            seq![
                blob_index(f),
            ],
        ),
{
    heap_widths(f);
    row_from_widths(
        f,
        TableIndex::TypeSpec,
        seq![
            blob_index(f),
        ],
    );
}

/// A row of the table 0x1c, `ImplMap`.
pub proof fn impl_map_row(f: TableShape)
    ensures
        row_is(
            f,
            TableIndex::ImplMap,
            seq![
                2nat,
                shared_index(f, seq![0x04int, 0x06], 0x8000),
                text_index(f),
                row_index(f, 0x1a),
            ],
        ),
{
    heap_widths(f);
    member_forwarded_tables();
    group_width(f, CodedGroup::MemberForwarded, seq![0x04int, 0x06], 1);
    row_from_widths(
        f,
        TableIndex::ImplMap,
        seq![
            2nat,
            shared_index(f, seq![0x04int, 0x06], 0x8000),
            text_index(f),
            row_index(f, 0x1a),
        ],
    );
}

/// A row of the table 0x1d, `FieldRva`.
pub proof fn field_rva_row(f: TableShape)
    ensures
        row_is(
            f,
            TableIndex::FieldRva,
            seq![
                4nat,
                row_index(f, 0x04),
            ],
        ),
{
    heap_widths(f);
    row_from_widths(
        f,
        TableIndex::FieldRva,
        seq![
            4nat,
            row_index(f, 0x04),
        ],
    );
}

/// A row of the table 0x1e, `EncLog`.
pub proof fn enc_log_row(f: TableShape)
    ensures
        row_is(
            f,
            TableIndex::EncLog,
            seq![
                4nat,
                4,
            ],
        ),
{
    heap_widths(f);
    row_from_widths(
        f,
        TableIndex::EncLog,
        seq![
            4nat,
            4,
        ],
    );
}

/// A row of the table 0x1f, `EncMap`.
pub proof fn enc_map_row(f: TableShape)
    ensures
        row_is(
            f,
            TableIndex::EncMap,
            seq![
                4nat,
            ],
        ),
{
    heap_widths(f);
    row_from_widths(
        f,
        TableIndex::EncMap,
        seq![
            4nat,
        ],
    );
}

/// A row of the table 0x20, `Assembly`.
pub proof fn assembly_row(f: TableShape)
    ensures
        row_is(
            f,
            TableIndex::Assembly,
            seq![
                4nat,
                2,
                2,
                2,
                2,
                4,
                blob_index(f),
                text_index(f),
                text_index(f),
            ],
        ),
{
    heap_widths(f);
    row_from_widths(
        f,
        TableIndex::Assembly,
        seq![
            4nat,
            2,
            2,
            2,
            2,
            4,
            blob_index(f),
            text_index(f),
            text_index(f),
        ],
    );
}

/// A row of the table 0x21, `AssemblyProcessor`.
pub proof fn assembly_processor_row(f: TableShape)
    ensures
        row_is(
            f,
            TableIndex::AssemblyProcessor,
            seq![
                4nat,
            ],
        ),
{
    heap_widths(f);
    row_from_widths(
        f,
        TableIndex::AssemblyProcessor,
        seq![
            4nat,
        ],
    );
}

/// A row of the table 0x22, `AssemblyOS`.
pub proof fn assembly_os_row(f: TableShape)
    ensures
        row_is(
            f,
            TableIndex::AssemblyOS,
            seq![
                4nat,
                4,
                4,
            ],
        ),
{
    heap_widths(f);
    row_from_widths(
        f,
        TableIndex::AssemblyOS,
        seq![
            4nat,
            4,
            4,
        ],
    );
}

/// A row of the table 0x23, `AssemblyRef`.
pub proof fn assembly_ref_row(f: TableShape)
    ensures
        row_is(
            f,
            TableIndex::AssemblyRef,
            seq![
                2nat,
                2,
                2,
                2,
                4,
                blob_index(f),
                text_index(f),
                text_index(f),
                blob_index(f),
            ],
        ),
{
    heap_widths(f);
    row_from_widths(
        f,
        TableIndex::AssemblyRef,
        seq![
            2nat,
            2,
            2,
            2,
            4,
            blob_index(f),
            text_index(f),
            text_index(f),
            blob_index(f),
        ],
    );
}

/// A row of the table 0x24, `AssemblyRefProcessor`.
pub proof fn assembly_ref_processor_row(f: TableShape)
    ensures
        row_is(
            f,
            TableIndex::AssemblyRefProcessor,
            seq![
                4nat,
                row_index(f, 0x23),
            ],
        ),
{
    heap_widths(f);
    row_from_widths(
        f,
        TableIndex::AssemblyRefProcessor,
        seq![
            4nat,
            row_index(f, 0x23),
        ],
    );
}

/// A row of the table 0x25, `AssemblyRefOS`.
pub proof fn assembly_ref_os_row(f: TableShape)
    ensures
        row_is(
            f,
            TableIndex::AssemblyRefOS,
            seq![
                4nat,
                4,
                4,
                row_index(f, 0x23),
            ],
        ),
{
    heap_widths(f);
    row_from_widths(
        f,
        TableIndex::AssemblyRefOS,
        seq![
            4nat,
            4,
            4,
            row_index(f, 0x23),
        ],
    );
}

/// A row of the table 0x26, `File`.
pub proof fn file_row(f: TableShape)
    ensures
        row_is(
            f,
            TableIndex::File,
            seq![
                4nat,
                text_index(f),
                blob_index(f),
            ],
        ),
{
    heap_widths(f);
    row_from_widths(
        f,
        TableIndex::File,
        seq![
            4nat,
            text_index(f),
            blob_index(f),
        ],
    );
}

/// A row of the table 0x27, `ExportedType`.
pub proof fn exported_type_row(f: TableShape)
    ensures
        row_is(
            f,
            TableIndex::ExportedType,
            seq![
                4nat,
                4,
                text_index(f),
                text_index(f),
                shared_index(f, seq![0x26int, 0x23, 0x27], 0x4000),
            ],
        ),
{
    heap_widths(f);
    implementation_tables();
    group_width(f, CodedGroup::Implementation, seq![0x26int, 0x23, 0x27], 2);
    row_from_widths(
        f,
        TableIndex::ExportedType,
        seq![
            4nat,
            4,
            text_index(f),
            text_index(f),
            shared_index(f, seq![0x26int, 0x23, 0x27], 0x4000),
        ],
    );
}

/// A row of the table 0x28, `ManifestResource`.
pub proof fn manifest_resource_row(f: TableShape)
    ensures
        row_is(
            f,
            TableIndex::ManifestResource,
            seq![
                4nat,
                4,
                text_index(f),
                shared_index(f, seq![0x26int, 0x23, 0x27], 0x4000),
            ],
        ),
{
    heap_widths(f);
    implementation_tables();
    group_width(f, CodedGroup::Implementation, seq![0x26int, 0x23, 0x27], 2);
    row_from_widths(
        f,
        TableIndex::ManifestResource,
        seq![
            4nat,
            4,
            text_index(f),
            shared_index(f, seq![0x26int, 0x23, 0x27], 0x4000),
        ],
    );
}

/// A row of the table 0x29, `NestedClass`.
pub proof fn nested_class_row(f: TableShape)
    ensures
        row_is(
            f,
            TableIndex::NestedClass,
            seq![
                row_index(f, 0x02),
                row_index(f, 0x02),
            ],
        ),
{
    heap_widths(f);
    row_from_widths(
        f,
        TableIndex::NestedClass,
        seq![
            row_index(f, 0x02),
            row_index(f, 0x02),
        ],
    );
}

/// A row of the table 0x2a, `GenericParam`.
pub proof fn generic_param_row(f: TableShape)
    ensures
        row_is(
            f,
            TableIndex::GenericParam,
            seq![
                2nat,
                2,
                shared_index(f, seq![0x02int, 0x06], 0x8000),
                text_index(f),
            ],
        ),
{
    heap_widths(f);
    type_or_method_def_tables();
    group_width(f, CodedGroup::TypeOrMethodDef, seq![0x02int, 0x06], 1);
    row_from_widths(
        f,
        TableIndex::GenericParam,
        seq![
            2nat,
            2,
            shared_index(f, seq![0x02int, 0x06], 0x8000),
            text_index(f),
        ],
    );
}

/// A row of the table 0x2b, `MethodSpec`.
pub proof fn method_spec_row(f: TableShape)
    ensures
        row_is(
            f,
            TableIndex::MethodSpec,
            seq![
                shared_index(f, seq![0x06int, 0x0a], 0x8000),
                blob_index(f),
            ],
        ),
{
    heap_widths(f);
    method_def_or_ref_tables();
    group_width(f, CodedGroup::MethodDefOrRef, seq![0x06int, 0x0a], 1);
    row_from_widths(
        f,
        TableIndex::MethodSpec,
        seq![
            shared_index(f, seq![0x06int, 0x0a], 0x8000),
            blob_index(f),
        ],
    );
}

/// A row of the table 0x2c, `GenericParamConstraint`.
pub proof fn generic_param_constraint_row(f: TableShape)
    ensures
        row_is(
            f,
            TableIndex::GenericParamConstraint,
            seq![
                row_index(f, 0x2a),
                shared_index(f, seq![0x02int, 0x01, 0x1b], 0x4000),
            ],
        ),
{
    heap_widths(f);
    type_def_or_ref_tables();
    group_width(f, CodedGroup::TypeDefOrRef, seq![0x02int, 0x01, 0x1b], 2);
    row_from_widths(
        f,
        TableIndex::GenericParamConstraint,
        seq![
            row_index(f, 0x2a),
            shared_index(f, seq![0x02int, 0x01, 0x1b], 0x4000),
        ],
    );
}

/// A row of the table 0x30, `Document`.
pub proof fn document_row(f: TableShape)
    ensures
        row_is(
            f,
            TableIndex::Document,
            seq![
                blob_index(f),
                guid_index(f),
                blob_index(f),
                guid_index(f),
            ],
        ),
{
    heap_widths(f);
    row_from_widths(
        f,
        TableIndex::Document,
        seq![
            blob_index(f),
            guid_index(f),
            blob_index(f),
            guid_index(f),
        ],
    );
}

/// A row of the table 0x31, `MethodDebugInformation`.
pub proof fn method_debug_information_row(f: TableShape)
    ensures
        row_is(
            f,
            TableIndex::MethodDebugInformation,
            seq![
                row_index(f, 0x30),
                blob_index(f),
            ],
        ),
{
    heap_widths(f);
    row_from_widths(
        f,
        TableIndex::MethodDebugInformation,
        seq![
            row_index(f, 0x30),
            blob_index(f),
        ],
    );
}

/// A row of the table 0x32, `LocalScope`.
pub proof fn local_scope_row(f: TableShape)
    ensures
        row_is(
            f,
            TableIndex::LocalScope,
            seq![
                row_index(f, 0x06),
                row_index(f, 0x35),
                row_index(f, 0x33),
                row_index(f, 0x34),
                4,
                4,
            ],
        ),
{
    heap_widths(f);
    row_from_widths(
        f,
        TableIndex::LocalScope,
        seq![
            row_index(f, 0x06),
            row_index(f, 0x35),
            row_index(f, 0x33),
            row_index(f, 0x34),
            4,
            4,
        ],
    );
}

/// A row of the table 0x33, `LocalVariable`.
pub proof fn local_variable_row(f: TableShape)
    ensures
        row_is(
            f,
            TableIndex::LocalVariable,
            seq![
                2nat,
                2,
                text_index(f),
            ],
        ),
{
    heap_widths(f);
    row_from_widths(
        f,
        TableIndex::LocalVariable,
        seq![
            2nat,
            2,
            text_index(f),
        ],
    );
}

/// A row of the table 0x34, `LocalConstant`.
pub proof fn local_constant_row(f: TableShape)
    ensures
        row_is(
            f,
            TableIndex::LocalConstant,
            seq![
                text_index(f),
                blob_index(f),
            ],
        ),
{
    heap_widths(f);
    row_from_widths(
        f,
        TableIndex::LocalConstant,
        seq![
            text_index(f),
            blob_index(f),
        ],
    );
}

/// A row of the table 0x35, `ImportScope`.
pub proof fn import_scope_row(f: TableShape)
    ensures
        row_is(
            f,
            TableIndex::ImportScope,
            seq![
                row_index(f, 0x35),
                blob_index(f),
            ],
        ),
{
    heap_widths(f);
    row_from_widths(
        f,
        TableIndex::ImportScope,
        seq![
            row_index(f, 0x35),
            blob_index(f),
        ],
    );
}

/// A row of the table 0x36, `StateMachineMethod`.
pub proof fn state_machine_method_row(f: TableShape)
    ensures
        row_is(
            f,
            TableIndex::StateMachineMethod,
            seq![
                row_index(f, 0x06),
                row_index(f, 0x06),
            ],
        ),
{
    heap_widths(f);
    row_from_widths(
        f,
        TableIndex::StateMachineMethod,
        seq![
            row_index(f, 0x06),
            row_index(f, 0x06),
        ],
    );
}

/// A row of the table 0x37, `CustomDebugInformation`.
pub proof fn custom_debug_information_row(f: TableShape)
    ensures
        row_is(
            f,
            TableIndex::CustomDebugInformation,
            seq![
                shared_index(f, seq![0x06int, 0x04, 0x01, 0x02, 0x08, 0x09, 0x0a, 0x00, 0x0e, 0x17, 0x14, 0x11, 0x1a, 0x1b, 0x20, 0x23, 0x26, 0x27, 0x28, 0x2a, 0x2c, 0x2b, 0x30, 0x32, 0x33, 0x34, 0x35], 0x800),
                guid_index(f),
                blob_index(f),
            ],
        ),
{
    heap_widths(f);
    has_custom_debug_information_tables();
    group_width(f, CodedGroup::HasCustomDebugInformation, seq![0x06int, 0x04, 0x01, 0x02, 0x08, 0x09, 0x0a, 0x00, 0x0e, 0x17, 0x14, 0x11, 0x1a, 0x1b, 0x20, 0x23, 0x26, 0x27, 0x28, 0x2a, 0x2c, 0x2b, 0x30, 0x32, 0x33, 0x34, 0x35], 5);
    row_from_widths(
        f,
        TableIndex::CustomDebugInformation,
        seq![
            shared_index(f, seq![0x06int, 0x04, 0x01, 0x02, 0x08, 0x09, 0x0a, 0x00, 0x0e, 0x17, 0x14, 0x11, 0x1a, 0x1b, 0x20, 0x23, 0x26, 0x27, 0x28, 0x2a, 0x2c, 0x2b, 0x30, 0x32, 0x33, 0x34, 0x35], 0x800),
            guid_index(f),
            blob_index(f),
        ],
    );
}

proof fn cells_from(md: MetadataView, t: TableIndex, rid: u32, col: int, cells: Seq<u64>)
    requires
        0 <= col <= md.columns(t),
        md.row_from(t, rid, col) == Ok::<Seq<u64>, ErrorKind>(cells),
    ensures
        cells.len() == md.columns(t) - col,
        forall|k: int|
            0 <= k < cells.len() ==> md.cell(t, rid, col + k) == Ok::<u64, ErrorKind>(
                #[trigger] cells[k],
            ),
    decreases md.columns(t) - col,
{
    if col < md.columns(t) {
        let v = md.cell(t, rid, col)->Ok_0;
        let rest = md.row_from(t, rid, col + 1)->Ok_0;
        cells_from(md, t, rid, col + 1, rest);
        assert(cells == seq![v] + rest);
        assert forall|k: int| 0 <= k < cells.len() implies md.cell(t, rid, col + k) == Ok::<
            u64,
            ErrorKind,
        >(#[trigger] cells[k]) by {
            if k > 0 {
                assert(cells[k] == rest[k - 1]);
                assert(md.cell(t, rid, col + 1 + (k - 1)) == Ok::<u64, ErrorKind>(rest[k - 1]));
            }
        }
    }
}

/// A row is made of its cells, one for each column and in their order.
pub proof fn rows_are_made_of_their_cells(md: MetadataView, t: TableIndex, rid: u32, k: int)
    ensures
        md.row(t, rid) matches Ok(cells) ==> cells.len() == md.columns(t) && (0 <= k < cells.len()
            ==> md.cell(t, rid, k) == Ok::<u64, ErrorKind>(cells[k])),
{
    if let Ok(cells) = md.row(t, rid) {
        cells_from(md, t, rid, 0, cells);
        if 0 <= k < cells.len() {
            assert(md.cell(t, rid, 0 + k) == Ok::<u64, ErrorKind>(cells[k]));
        }
    }
}

/// The cell of a coded index holds the tag below the row.
pub proof fn coded_cells_hold_tag_and_row(tag_bits: u32, tag: u64, rid: u32)
    requires
        1 <= tag_bits <= 5,
        tag_bits == 1 ==> tag < 2,
        tag_bits == 2 ==> tag < 4,
        tag_bits == 3 ==> tag < 8,
        tag_bits == 4 ==> tag < 16,
        tag_bits == 5 ==> tag < 32,
    ensures
        tag_bits == 1 ==> tables::coded_cell(1, tag as int, rid) == 2 * rid + tag,
        tag_bits == 2 ==> tables::coded_cell(2, tag as int, rid) == 4 * rid + tag,
        tag_bits == 3 ==> tables::coded_cell(3, tag as int, rid) == 8 * rid + tag,
        tag_bits == 4 ==> tables::coded_cell(4, tag as int, rid) == 16 * rid + tag,
        tag_bits == 5 ==> tables::coded_cell(5, tag as int, rid) == 32 * rid + tag,
{
}

} // verus!
