use cecli::element::{ElementType, VariantType};
use cecli::error::Error;
use cecli::flags::{
    AssemblyHashAlgorithm, FieldAttributes, MethodAttributes, SecurityAction, TargetArchitecture,
    TypeAttributes,
};
use cecli::io::{ByteReader, ByteWriter};
use cecli::metadata::{
    decode_coded, encode_coded, BlobHeap, GuidHeap, MetadataBuilder, MetadataReader, PdbHeap,
    StringHeap, UserStringHeap,
};
use cecli::pdb::embedded::{
    check_length, checksum_payload_of, frame, pdb_checksum_payload, sha256, unframe,
    unwrap_embedded, wrap_embedded,
};
use cecli::token::{CodedGroup, TableIndex, Token, TokenType};

fn compressed(v: u32) -> Vec<u8> {
    let mut w = ByteWriter::new();
    w.compressed_u32(v);
    w.into_vec()
}

fn compressed_signed(v: i32) -> Vec<u8> {
    let mut w = ByteWriter::new();
    w.compressed_i32(v);
    w.into_vec()
}

#[test]
fn compressed_integers_have_their_exact_bytes() {
    assert_eq!(compressed(0x03), vec![0x03]);
    assert_eq!(compressed(0x7F), vec![0x7F]);
    assert_eq!(compressed(0x80), vec![0x80, 0x80]);
    assert_eq!(compressed(0x2E57), vec![0xAE, 0x57]);
    assert_eq!(compressed(0x4000), vec![0xC0, 0x00, 0x40, 0x00]);
    assert_eq!(compressed(0x1FFF_FFFF), vec![0xDF, 0xFF, 0xFF, 0xFF]);

    assert_eq!(compressed_signed(3), vec![0x06]);
    assert_eq!(compressed_signed(-3), vec![0x7B]);
    assert_eq!(compressed_signed(64), vec![0x80, 0x80]);
    assert_eq!(compressed_signed(-64), vec![0x01]);
    assert_eq!(compressed_signed(8192), vec![0xC0, 0x00, 0x40, 0x00]);
    assert_eq!(compressed_signed(-8192), vec![0x80, 0x01]);
    assert_eq!(compressed_signed(-268_435_456), vec![0xC0, 0x00, 0x00, 0x01]);
}

#[test]
fn reader_stops_at_the_end() {
    let data = [1u8, 2, 3];
    let mut r = ByteReader::new(&data);
    assert_eq!(r.u16().unwrap(), 0x0201);
    assert!(matches!(r.u16(), Err(Error::BadImage(_))));
    assert_eq!(r.position(), 2);
    assert!(r.seek(4).is_err());
    r.seek(3).unwrap();
    assert!(r.is_empty());
    assert_eq!(ByteReader::at(&data, 9).remaining(), 0);
    assert!(ByteReader::at(&[0x80], 0).compressed_u32().is_err());
}

#[test]
fn patched_words_stand_where_they_were_put() {
    let mut w = ByteWriter::new();
    w.u32(0);
    w.u16(0x1122);
    w.patch_u32_at(1, 0xAABB_CCDD);
    assert_eq!(w.into_vec(), vec![0x00, 0xDD, 0xCC, 0xBB, 0xAA, 0x11]);
}

#[test]
fn tokens_are_taken_apart() {
    let t = Token::new(TableIndex::MethodDef, 0x1234);
    assert_eq!(t, Token(0x0600_1234));
    assert_eq!(t.table(), TableIndex::MethodDef);
    assert_eq!(t.table_byte(), 6);
    assert_eq!(t.rid(), 0x1234);
    assert_eq!(t.display(), "0x06001234");
    assert!(Token(0).is_nil());
    assert_eq!(TokenType::from_value(0x0600_1234), Some(TokenType::MethodDef));
    assert_eq!(TokenType::MethodDef.value(), 0x0600_0000);
    assert_eq!(TableIndex::from_u8(0x2D), None);
    assert!(TableIndex::is_portable_pdb_table(0x30));
    assert!(!TableIndex::is_portable_pdb_table(0x2C));
}

#[test]
fn coded_cells_have_their_exact_values() {
    let group = CodedGroup::TypeDefOrRef.group();
    assert_eq!(encode_coded(&group, TableIndex::TypeRef, 5).unwrap(), 5 << 2 | 1);
    assert_eq!(decode_coded(&group, 5 << 2 | 2), Some((TableIndex::TypeSpec, 5)));
    // No table has the last tag.
    assert_eq!(decode_coded(&group, 5 << 2 | 3), None);
    assert!(matches!(encode_coded(&group, TableIndex::Field, 5), Err(Error::Argument(_))));
}

#[test]
fn element_and_variant_types_correspond() {
    assert!(ElementType::I4.is_primitive());
    assert!(!ElementType::String.is_primitive());
    assert_eq!(ElementType::from_u8(0x1D), Some(ElementType::SzArray));
    assert_eq!(ElementType::from_u8(0x17), None);
    let v = VariantType::from_element_type(ElementType::I4).unwrap();
    assert_eq!(v.to_element_type(), Some(ElementType::I4));
}

#[test]
fn flag_words_keep_what_they_know() {
    let t = TypeAttributes(TypeAttributes::SEALED).with_visibility(TypeAttributes::NESTED_PUBLIC);
    assert_eq!(t.visibility(), TypeAttributes::NESTED_PUBLIC);
    assert!(t.contains(TypeAttributes::SEALED));
    assert_eq!(TypeAttributes::from_bits_truncate(0xFFFF_FFFF).bits(), TypeAttributes::ALL);
    assert_eq!(FieldAttributes::empty().bits(), 0);
    assert!(!MethodAttributes(MethodAttributes::STATIC).contains(MethodAttributes::VIRTUAL));
    assert_eq!(TargetArchitecture::from_machine(0x8664), Some(TargetArchitecture::AMD64));
    assert_eq!(TargetArchitecture::from_machine(1), None);
    assert_eq!(AssemblyHashAlgorithm::from_u32(0x8004), Some(AssemblyHashAlgorithm::Sha1));
    assert_eq!(SecurityAction::from_u16(10), Some(SecurityAction::RequestRefuse));
}

#[test]
fn errors_say_what_kind_they_are() {
    assert_eq!(Error::bad_image("x").message(), "bad image: x");
    assert_eq!(Error::unsupported("x").message(), "unsupported: x");
    assert_eq!(Error::invalid_op("x").message(), "invalid operation: x");
    assert_eq!(Error::argument("x").message(), "bad argument: x");
}

#[test]
fn string_heap_reads_valid_text_only() {
    let mut b = MetadataBuilder::new("v4");
    let name = b.insert_string("naïve");
    let bytes = b.finalize();
    let md = MetadataReader::parse(&bytes).unwrap();
    let heap: StringHeap = md.heaps().strings;
    assert_eq!(heap.get(name).unwrap(), "naïve");
    // The second byte of a two-byte character starts no text.
    assert!(matches!(heap.get(name + 3), Err(Error::BadImage(_))));
    assert_eq!(heap.get(1_000).unwrap(), "");
}

#[test]
fn heaps_answer_beyond_their_end() {
    let mut b = MetadataBuilder::new("v4");
    let text = b.insert_user_string("\u{1F600}");
    let blob = b.insert_blob(&[1, 2, 3]);
    let guid = b.insert_guid(&[9; 16]);
    let bytes = b.finalize();
    let md = MetadataReader::parse(&bytes).unwrap();
    let us: UserStringHeap = md.heaps().user_strings;
    assert_eq!(us.get(text).unwrap(), "\u{1F600}");
    assert!(matches!(us.get(1_000), Err(Error::BadImage(_))));
    let blobs: BlobHeap = md.heaps().blob;
    assert_eq!(blobs.get(blob).unwrap(), &[1, 2, 3]);
    assert!(blobs.get(0).unwrap().is_empty());
    assert!(blobs.get(1_000).unwrap().is_empty());
    let guids: GuidHeap = md.heaps().guid;
    assert_eq!(guids.get(guid).unwrap(), [9; 16]);
    assert_eq!(guids.get(0).unwrap(), [0; 16]);
    assert_eq!(guids.get(7).unwrap(), [0; 16]);
}

#[test]
fn rows_must_have_the_columns_of_their_table() {
    let mut b = MetadataBuilder::new("v4");
    assert!(matches!(b.add_row(TableIndex::Module, &[0, 0]), Err(Error::Argument(_))));
    assert_eq!(b.add_row(TableIndex::Module, &[0, 0, 0, 0, 0]).unwrap(), 1);
    assert_eq!(b.row_count(TableIndex::Module), 1);
    let bytes = b.finalize();
    let md = MetadataReader::parse(&bytes).unwrap();
    assert_eq!(md.row(TableIndex::Module, 1).unwrap(), vec![0; 5]);
    assert!(md.column(TableIndex::Module, 2, 0).is_err());
    assert!(md.column(TableIndex::Module, 1, 5).is_err());
    assert!(md.column(TableIndex::Module, 0, 0).is_err());
}

#[test]
fn short_pdb_heaps_are_bad_images() {
    assert!(matches!(PdbHeap::parse(&[0; 31]), Err(Error::BadImage(_))));
    assert!(PdbHeap::parse(&[0; 32]).is_ok());
}

#[test]
fn digests_are_those_of_sha_256() {
    let expected = [
        0xBA, 0x78, 0x16, 0xBF, 0x8F, 0x01, 0xCF, 0xEA, 0x41, 0x41, 0x40, 0xDE, 0x5D, 0xAE, 0x22,
        0x23, 0xB0, 0x03, 0x61, 0xA3, 0x96, 0x17, 0x7A, 0x9C, 0xB4, 0x10, 0xFF, 0x61, 0xF2, 0x00,
        0x15, 0xAD,
    ];
    assert_eq!(sha256(b"abc"), expected);
    let payload = pdb_checksum_payload(b"abc");
    assert_eq!(&payload[7..], &expected);
    assert_eq!(checksum_payload_of(&expected), payload);
}

#[test]
fn containers_are_framed_and_checked() {
    assert_eq!(frame(0x0102, &[7, 8]), vec![0x4D, 0x50, 0x44, 0x42, 0x02, 0x01, 0, 0, 7, 8]);
    let framed = frame(3, &[7, 8]);
    let (declared, stream) = unframe(&framed).unwrap();
    assert_eq!((declared, stream), (3, &[7u8, 8][..]));
    assert!(matches!(unframe(b"MPDBabc"), Err(Error::BadImage(_))));
    assert!(check_length(3, Ok(vec![1, 2, 3])).is_ok());
    assert!(check_length(4, Ok(vec![1, 2, 3])).is_err());
    assert!(check_length(0, Err("short".to_string())).is_err());
}

#[test]
fn compressed_payloads_differ_from_their_content() {
    let pdb: Vec<u8> = (0..2000u32).map(|i| (i % 7) as u8).collect();
    let wrapped = wrap_embedded(&pdb).unwrap();
    assert_ne!(&wrapped[8..], &pdb[..]);
    assert_eq!(unwrap_embedded(&wrapped).unwrap(), pdb);
    // One byte less than declared.
    let mut lying = wrapped.clone();
    lying[4] = lying[4].wrapping_sub(1);
    assert!(matches!(unwrap_embedded(&lying), Err(Error::BadImage(_))));
    assert_eq!(unwrap_embedded(&wrap_embedded(&[]).unwrap()).unwrap(), Vec::<u8>::new());
}
