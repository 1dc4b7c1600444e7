use cecli::error::Error;
use cecli::metadata::{
    column_kinds, decode_coded, encode_coded, parse_root, stream_slice, write_root, ColumnKind,
    MetadataBuilder, MetadataReader, TableSet, TABLE_COUNT,
};
use cecli::token::{CodedGroup, CodedIndexGroup, TableIndex, Token};

fn add(b: &mut MetadataBuilder, expected: &mut Vec<(TableIndex, Vec<u64>)>, t: TableIndex, row: &[u64]) {
    let row: Vec<u64> = row.to_vec();
    b.add_row(t, &row).expect("add_row");
    expected.push((t, row));
}

#[test]
fn builder_parser_roundtrip_preserves_every_cell() {
    let mut b = MetadataBuilder::new("v4.0.30319");

    // Heaps: strings (incl. empty + non-ASCII), guids, blobs (one large
    // enough to force 4-byte blob indexes), user strings.
    assert_eq!(b.insert_string(""), 0);
    let s_mod = b.insert_string("cecli.test");
    let s_obj = b.insert_string("Object");
    let s_ns = b.insert_string("System");
    let s_jp = b.insert_string("日本語テスト");
    let s_my = b.insert_string("MyClass");
    let s_m = b.insert_string("Method");
    let s_t = b.insert_string("T");
    assert_eq!(b.insert_string("System"), s_ns, "strings dedup");

    let g_mvid = b.insert_guid(&[0x11u8; 16]);
    let g_other = b.insert_guid(&[0x22u8; 16]);
    assert_eq!(b.insert_guid(&[0x11u8; 16]), g_mvid, "guids dedup");
    assert_ne!(g_mvid, g_other);

    assert_eq!(b.insert_blob(&[]), 0);
    let blob_small = b.insert_blob(&[0xAA, 0xBB]);
    let big = vec![0x5Au8; 70_000];
    let blob_big = b.insert_blob(&big);
    assert_ne!(blob_small, blob_big);

    let us_plain = b.insert_user_string("hello world");
    let us_special = b.insert_user_string("'quoted'");
    let us_nl = b.insert_user_string("line\n"); // \n is NOT special

    // Rows across eight tables.
    let module = [0u64, s_mod as u64, g_mvid as u64, 0, 0];
    // ResolutionScope: Module tag 0, rid 1.
    let typeref_1 = [(1u64 << CodedGroup::ResolutionScope.group().shift_bits()), s_obj as u64, s_ns as u64];
    // ResolutionScope: TypeRef tag 3, rid 1 (forward reference is fine).
    let typeref_2 = [(1u64 << CodedGroup::ResolutionScope.group().shift_bits()) | 3, s_my as u64, 0];
    // BaseType: TypeRef tag 1 rid 1 / TypeDef tag 0 rid 1.
    let typedef_1 = [0x0010_0001, s_obj as u64, s_ns as u64, (1u64 << 2) | 1, 1, 1];
    let typedef_2 = [0x0000_0001, s_my as u64, 0, 1, 1, 1];
    let methoddef: Vec<[u64; 6]> =
        (0..3).map(|i| [0x6000 + i, 0, 0x0096, s_m as u64, blob_small as u64, 1]).collect();
    // MemberRefParent: TypeRef tag 1 rid 1.
    let memberref = [(1u64 << 3) | 1, s_obj as u64, blob_big as u64];
    // HasCustomAttribute: TypeDef tag 3, rid 1 (shift 5). Type:
    // CustomAttributeType MemberRef tag 1, rid 1 (shift 1).
    let ca_1 = [(1u64 << 5) | 3, (1u64 << 1) | 1, 0];
    // Parent MethodDef rid 2; type CustomAttributeType MethodDef tag 0
    // rid 1 (group shift_bits = 1 ).
    let ca_2 = [2u64 << 5, 1u64 << 1, blob_small as u64];
    let constant_1 = [0x01u64, 0, 1u64 << 2, blob_small as u64]; // Field rid 1
    let constant_2 = [0x12u64, 0, (1u64 << 2) | 2, blob_small as u64]; // Property rid 1
    let nestedclass = [2u64, 1];
    let genericparam_1 = [0u64, 0, 1u64 << 1, s_t as u64]; // TypeOrMethodDef: TypeDef rid 1
    let genericparam_2 = [1u64, 0, (1u64 << 1) | 1, s_t as u64]; // MethodDef tag 1 rid 1

    let mut expected: Vec<(TableIndex, Vec<u64>)> = Vec::new();
    add(&mut b, &mut expected, TableIndex::Module, &module);
    add(&mut b, &mut expected, TableIndex::TypeRef, &typeref_1);
    add(&mut b, &mut expected, TableIndex::TypeRef, &typeref_2);
    add(&mut b, &mut expected, TableIndex::TypeDef, &typedef_1);
    add(&mut b, &mut expected, TableIndex::TypeDef, &typedef_2);
    for m in &methoddef {
        add(&mut b, &mut expected, TableIndex::MethodDef, m);
    }
    add(&mut b, &mut expected, TableIndex::MemberRef, &memberref);
    add(&mut b, &mut expected, TableIndex::CustomAttribute, &ca_1);
    add(&mut b, &mut expected, TableIndex::CustomAttribute, &ca_2);
    add(&mut b, &mut expected, TableIndex::Constant, &constant_1);
    add(&mut b, &mut expected, TableIndex::Constant, &constant_2);
    add(&mut b, &mut expected, TableIndex::NestedClass, &nestedclass);
    add(&mut b, &mut expected, TableIndex::GenericParam, &genericparam_1);
    add(&mut b, &mut expected, TableIndex::GenericParam, &genericparam_2);

    let bytes = b.finalize();
    let r = MetadataReader::parse(&bytes).expect("parses own output");
    assert_eq!(r.version_string(), "v4.0.30319");

    // Row counts per table.
    assert_eq!(r.row_count(TableIndex::Module), 1);
    assert_eq!(r.row_count(TableIndex::TypeRef), 2);
    assert_eq!(r.row_count(TableIndex::TypeDef), 2);
    assert_eq!(r.row_count(TableIndex::MethodDef), 3);
    assert_eq!(r.row_count(TableIndex::MemberRef), 1);
    assert_eq!(r.row_count(TableIndex::CustomAttribute), 2);
    assert_eq!(r.row_count(TableIndex::Constant), 2);
    assert_eq!(r.row_count(TableIndex::NestedClass), 1);
    assert_eq!(r.row_count(TableIndex::GenericParam), 2);
    assert_eq!(r.row_count(TableIndex::Field), 0);

    // Every cell of every row survives the roundtrip.
    let mut per_table: std::collections::HashMap<TableIndex, u32> =
        std::collections::HashMap::new();
    for (table, row) in &expected {
        let rid = per_table.entry(*table).or_insert(0);
        *rid += 1;
        assert_eq!(r.column_count(*table), row.len(), "column count of {}", table.name());
        for (col, want) in row.iter().enumerate() {
            assert_eq!(
                r.column(*table, *rid, col).expect("cell"),
                *want,
                "{}[{}][{}]",
                table.name(),
                *rid,
                col
            );
        }
    }

    let h = r.heaps();
    assert_eq!(h.strings.get(s_mod).unwrap(), "cecli.test");
    assert_eq!(h.strings.get(0).unwrap(), "");
    assert_eq!(h.strings.get(s_jp).unwrap(), "日本語テスト");
    assert_eq!(h.guid.get(g_mvid).unwrap(), [0x11u8; 16]);
    assert_eq!(h.guid.get(g_other).unwrap(), [0x22u8; 16]);
    assert_eq!(h.blob.get(0).unwrap(), &[0u8; 0]);
    assert_eq!(h.blob.get(blob_small).unwrap(), &[0xAA, 0xBB]);
    assert_eq!(h.blob.get(blob_big).unwrap(), big.as_slice());
    assert_eq!(h.user_strings.get(us_plain).unwrap(), "hello world");
    assert_eq!(h.user_strings.get(us_special).unwrap(), "'quoted'");
    assert_eq!(h.user_strings.get(us_nl).unwrap(), "line\n");

    // Width variation: blob heap is large (70 KB > 0xFFFF), so every
    // BlobIdx column is 4 bytes while string indexes stay at 2.
    let t = r.tables();
    assert!(!t.large_string());
    assert!(t.large_blob());
    assert_eq!(t.kind_width(&ColumnKind::BlobIdx), 4);
    assert_eq!(t.kind_width(&ColumnKind::StringIdx), 2);
    let mr_cols = t.columns(TableIndex::MemberRef).unwrap();
    assert_eq!(mr_cols[2].kind, ColumnKind::BlobIdx);
    assert_eq!(mr_cols[2].offset, 4, "coded parent widened to 4? no: max(TypeDef)=2");

    // Coded decode of what we encoded: MemberRef.Class -> (TypeRef, 1).
    let class = r.column(TableIndex::MemberRef, 1, 0).unwrap();
    assert_eq!(decode_coded(&CodedGroup::MemberRefParent.group(), class), Some((TableIndex::TypeRef, 1)));
    let parent = r.column(TableIndex::CustomAttribute, 1, 0).unwrap();
    assert_eq!(
        decode_coded(&CodedGroup::HasCustomAttribute.group(), parent),
        Some((TableIndex::TypeDef, 1))
    );
}

#[test]
fn heap_encoding_roundtrips() {
    let mut b = MetadataBuilder::new("v4.0.30319");
    let plain = b.insert_string("plain");
    let unicode = b.insert_string("ünïcode ✓ 日本");
    assert_ne!(plain, unicode);
    assert_eq!(b.insert_string("plain"), plain);

    let blob_zero = b.insert_blob(&[0u8]); // single zero byte != empty
    assert_eq!(b.insert_blob(&[]), 0);
    let long_blob: Vec<u8> = (0..300u32).map(|i| (i % 251) as u8).collect();
    let blob_long = b.insert_blob(&long_blob); // exercises 2-byte compressed length

    let us_empty = b.insert_user_string("");
    let us_ascii = b.insert_user_string("ascii only");
    let us_ctrl = b.insert_user_string("\u{0001}ctrl"); // flag byte 1
    let us_dash = b.insert_user_string("a-b"); // '-' triggers the flag too

    // No rows at all: only heaps are emitted.
    let bytes = b.finalize();
    let r = MetadataReader::parse(&bytes).expect("parses");
    for t in [TableIndex::Module, TableIndex::TypeDef, TableIndex::CustomDebugInformation] {
        assert_eq!(r.row_count(t), 0);
    }

    let h = r.heaps();
    assert_eq!(h.strings.get(0).unwrap(), "");
    assert_eq!(h.strings.get(plain).unwrap(), "plain");
    assert_eq!(h.strings.get(unicode).unwrap(), "ünïcode ✓ 日本");
    assert_eq!(h.blob.get(blob_zero).unwrap(), &[0u8]);
    assert_eq!(h.blob.get(blob_long).unwrap(), long_blob.as_slice());
    assert_eq!(h.user_strings.get(us_empty).unwrap(), "");
    assert_eq!(h.user_strings.get(us_ascii).unwrap(), "ascii only");
    assert_eq!(h.user_strings.get(us_ctrl).unwrap(), "\u{0001}ctrl");
    assert_eq!(h.user_strings.get(us_dash).unwrap(), "a-b");
    // Absent GUID stream reads as zero GUIDs, never panics.
    assert_eq!(h.guid.get(1).unwrap(), [0u8; 16]);
}

#[test]
fn large_tables_widen_simple_and_coded_columns() {
    let mut b = MetadataBuilder::new("v2.0.50727");
    let name = b.insert_string("p");

    // 65_538 Param rows push Simple(Param) columns past 16 bits.
    for i in 0..65_538u32 {
        b.add_row(TableIndex::Param, &[0, (i & 0xFFFF) as u64, name as u64])
            .expect("param row");
    }
    // 20_000 rows in Field widen HAS_CONSTANT (Field tag 0) to 4 bytes:
    // max(Field)=20000 >= 1 << (16-2).
    let sig = b.insert_blob(&[1, 2]);
    for _i in 0..20_000u32 {
        b.add_row(TableIndex::Field, &[0, name as u64, sig as u64]).expect("field row");
    }
    b.add_row(TableIndex::Constant, &[0x08, 0, 1u64 << 2, sig as u64]).expect("constant row");

    let bytes = b.finalize();
    let r = MetadataReader::parse(&bytes).expect("parses");
    assert_eq!(r.row_count(TableIndex::Param), 65_538);
    assert_eq!(r.row_count(TableIndex::Field), 20_000);

    // Spot-check deep rows on both sides of the 0xFFFF boundary.
    assert_eq!(r.column(TableIndex::Param, 1, 2).unwrap(), name as u64);
    assert_eq!(r.column(TableIndex::Param, 65_538, 2).unwrap(), name as u64);

    // Constant's parent coded column must have widened to 4 bytes.
    let t = r.tables();
    let cols = t.columns(TableIndex::Constant).unwrap();
    assert_eq!(cols[2].kind, ColumnKind::Coded(CodedGroup::HasConstant));
    assert_eq!(t.kind_width(&cols[2].kind), 4);
    assert_eq!(r.column(TableIndex::Constant, 1, 2).unwrap(), 4);
    assert_eq!(
        decode_coded(&CodedGroup::HasConstant.group(), r.column(TableIndex::Constant, 1, 2).unwrap()),
        Some((TableIndex::Field, 1))
    );
}

#[test]
fn malformed_input_is_error() {
    let err = MetadataReader::parse(b"not metadata at all").expect_err("bad signature");
    assert!(matches!(err, Error::BadImage(_)));

    // Truncated root claiming a huge stream count.
    let mut evil = MetadataBuilder::new("v4.0.30319").finalize();
    evil.truncate(30);
    assert!(MetadataReader::parse(&evil).is_err());
}

#[test]
fn empty_builder_emits_parseable_root() {
    let bytes = MetadataBuilder::new("v4.0.30319").finalize();
    let r = MetadataReader::parse(&bytes).expect("parses");
    assert_eq!(r.version_string(), "v4.0.30319");
    assert_eq!(r.tables().valid_mask(), 0);
    assert_eq!(r.heaps().strings.get(0).unwrap(), "");
}

#[test]
fn pdb_heap_stream_roundtrips() {
    let mut b = MetadataBuilder::new("v4.0.30319");
    b.add_row(TableIndex::Document, &[0, 1, 0, 2]).expect("document row");
    let id = [
        0x01u8, 0x02, 0x03, 0x04, 0x05, 0x06, 0x07, 0x08, 0x09, 0x0A, 0x0B, 0x0C, 0x0D, 0x0E,
        0x0F, 0x10, 0x11, 0x12, 0x13, 0x14,
    ];
    // Counts intentionally out of order; set_pdb_heap must sort them.
    b.set_pdb_heap(id, Token::new(TableIndex::MethodDef, 7), &[(0x32, 3), (0x30, 1)]);

    let bytes = b.finalize();
    let r = MetadataReader::parse(&bytes).expect("parses");
    let pdb = r.heaps().pdb.expect("#Pdb stream present");
    assert_eq!(pdb.id(), id.as_slice());
    assert_eq!(pdb.entry_point(), Token::new(TableIndex::MethodDef, 7).0);
    assert!(pdb.has_table(TableIndex::Document));
    assert!(pdb.has_table(TableIndex::LocalScope));
    assert!(!pdb.has_table(TableIndex::MethodDebugInformation));
    assert_eq!(pdb.row_count(TableIndex::Document), 1);
    assert_eq!(pdb.row_count(TableIndex::LocalScope), 3);
    assert_eq!(pdb.row_count(TableIndex::LocalVariable), 0);
}

/// End-to-end sanity: a tiny module table round-trips through the
/// builder and the reader.
#[test]
fn tiny_module_roundtrip() {
    let mut b = MetadataBuilder::new("v4.0.30319");
    let name = b.insert_string("tiny.exe");
    let mvid = b.insert_guid(&[7u8; 16]);
    let rid = b
        .add_row(TableIndex::Module, &[0, name as u64, mvid as u64, 0, 0])
        .expect("module row");
    assert_eq!(rid, 1);

    let bytes = b.finalize();
    let r = MetadataReader::parse(&bytes).expect("parses");
    assert_eq!(r.version_string(), "v4.0.30319");
    assert_eq!(r.row_count(TableIndex::Module), 1);
    assert_eq!(r.column(TableIndex::Module, 1, 1).unwrap(), name as u64);
    assert_eq!(
        r.heaps().strings.get(name).unwrap(),
        "tiny.exe"
    );
    assert_eq!(r.heaps().guid.get(mvid).unwrap(), [7u8; 16]);
}

#[test]
fn root_write_parse_roundtrip() {
    let strings = [0u8, b'a', b'b', 0];
    let tables = [2u8; 8];
    let bytes = write_root(
        "v4.0.30319",
        &[("#~", &tables), ("#Strings", &strings), ("#Blob", &[])],
    );
    let root = parse_root(&bytes).expect("parses");
    assert_eq!(root.version, "v4.0.30319");
    assert_eq!(root.streams.len(), 3);
    assert_eq!(root.stream("#Strings").unwrap().size, 4);
    let s = stream_slice(&bytes, root.stream("#Strings").unwrap()).unwrap();
    assert_eq!(s, &strings);
    let t = stream_slice(&bytes, root.stream("#~").unwrap()).unwrap();
    assert_eq!(t, &tables);
}

#[test]
fn bad_signature_is_error() {
    let err = parse_root(b"garbage data!!").expect_err("rejects garbage");
    assert!(matches!(err, Error::BadImage(_)));
}

#[test]
fn out_of_bounds_stream_is_error() {
    let bytes = write_root("v2.0.0", &[("#~", &[1, 2, 3, 4])]);
    let mut evil = bytes.clone();
    evil[28] = 0xFF; // blow up the #~ offset far beyond the root
    let root = parse_root(&evil).unwrap();
    let err = stream_slice(&evil, &root.streams[0]).expect_err("out of bounds");
    assert!(matches!(err, Error::BadImage(_)));
}

#[test]
fn coded_roundtrip_all_groups() {
    let groups: [CodedIndexGroup; 14] = [
        CodedGroup::TypeDefOrRef.group(),
        CodedGroup::HasConstant.group(),
        CodedGroup::HasCustomAttribute.group(),
        CodedGroup::HasFieldMarshal.group(),
        CodedGroup::HasDeclSecurity.group(),
        CodedGroup::MemberRefParent.group(),
        CodedGroup::HasSemantics.group(),
        CodedGroup::MethodDefOrRef.group(),
        CodedGroup::MemberForwarded.group(),
        CodedGroup::Implementation.group(),
        CodedGroup::CustomAttributeType.group(),
        CodedGroup::ResolutionScope.group(),
        CodedGroup::TypeOrMethodDef.group(),
        CodedGroup::HasCustomDebugInformation.group(),
    ];
    for g in &groups {
        for t in g.tables.iter() {
            let enc = encode_coded(g, *t, 42).unwrap();
            assert!(enc <= u32::MAX as u64);
            assert_eq!(decode_coded(g, enc), Some((*t, 42)));
        }
        assert_eq!(
            encode_coded(g, TableIndex::Document, 1).is_err(),
            !g.tables.contains(&TableIndex::Document)
        );
    }
}

#[test]
fn layout_widths_follow_row_and_heap_sizes() {
    let zero = [0u32; TABLE_COUNT];
    // TypeRef + TypeDef + InterfaceImpl + MemberRef present, small heaps.
    let valid = (1 << TableIndex::TypeRef.to_u8() as u64)
        | (1 << TableIndex::TypeDef.to_u8() as u64)
        | (1 << TableIndex::InterfaceImpl.to_u8() as u64)
        | (1 << TableIndex::MemberRef.to_u8() as u64);
    let small = TableSet::compute(valid, &zero, 0);
    // Coded(ResolutionScope) 2 + name 2 + namespace 2.
    assert_eq!(small.row_size(TableIndex::TypeRef), Some(6));
    // Flags 4 + name/namespace 2+2 + base type 2 + field/method lists 2+2.
    assert_eq!(small.row_size(TableIndex::TypeDef), Some(14));
    // Class 2 + interface 2.
    assert_eq!(small.row_size(TableIndex::InterfaceImpl), Some(4));
    // Parent 2 + name 2 + signature 2.
    assert_eq!(small.row_size(TableIndex::MemberRef), Some(6));

    // TypeDef grows past 0xFFFF rows: Simple(TypeDef) and
    // Coded(TypeDefOrRef) both widen to 4 bytes.
    let mut big = zero;
    big[TableIndex::TypeDef.to_u8() as usize] = 0x2_0000;
    let grown = TableSet::compute(valid, &big, 0);
    assert_eq!(grown.row_size(TableIndex::InterfaceImpl), Some(8));
    assert_eq!(grown.row_size(TableIndex::TypeDef), Some(16));
    // MemberRefParent (max TypeDef >= 1<<13) widens too.
    assert_eq!(grown.row_size(TableIndex::MemberRef), Some(8));

    // Large heaps widen only their own index kinds.
    let wide_heaps = TableSet::compute(valid, &zero, 0x7);
    // Scope stays 2; both #Strings indexes widen to 4.
    assert_eq!(wide_heaps.row_size(TableIndex::TypeRef), Some(10));
    assert!(wide_heaps.large_string() && wide_heaps.large_blob());
}

#[test]
fn unknown_valid_bit_is_rejected_when_checked() {
    let counts = [0u32; TABLE_COUNT];
    let ok = TableSet::compute_checked(1 << 0x3F, &counts, 0);
    assert!(matches!(ok, Err(Error::Unsupported(_))));
    let skipped = TableSet::compute(1 << 0x3F, &counts, 0);
    assert!(!skipped.is_present(TableIndex::Module));
}

#[test]
fn portable_pdb_schemas_present() {
    for t in [
        TableIndex::Document,
        TableIndex::MethodDebugInformation,
        TableIndex::LocalScope,
        TableIndex::LocalVariable,
        TableIndex::LocalConstant,
        TableIndex::ImportScope,
        TableIndex::StateMachineMethod,
        TableIndex::CustomDebugInformation,
    ] {
        assert!(column_kinds(t).is_some(), "{} missing", t.name());
    }
    // Document: blob + guid + blob + guid = 8 bytes with small heaps.
    let counts = [0u32; TABLE_COUNT];
    let set = TableSet::compute(1 << TableIndex::Document.to_u8() as u64, &counts, 0);
    assert_eq!(set.row_size(TableIndex::Document), Some(8));
}
