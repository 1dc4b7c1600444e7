use cecli::cil::{
    decode_method_body, encode_method_body, read_code, write_code, Code, ExceptionHandlerType,
    Instruction, MethodBody, Operand, VariableDefinition,
};
use cecli::cil::exceptions::read_clause;
use cecli::error::Error;
use cecli::io::ByteReader;
use cecli::pe::resources::patch_win32_resources;
use cecli::pe::textmap::{TextMap, TextSegment};
use cecli::pe::{compute_pe_checksum, ByteBuffer, DataDirectory, Range};
use cecli::token::Token;

#[test]
fn checksums_have_their_exact_values() {
    assert_eq!(compute_pe_checksum(&[1, 2]), 0xFFFF - 0x0203);
    // An odd byte is the high byte of the last word.
    assert_eq!(compute_pe_checksum(&[1, 2, 3]), 0xFFFF - (0x0201 + 0x0300 + 3));
    assert_eq!(compute_pe_checksum(&[0xFF, 0xFF, 0x02, 0x00]), 0xFFFF - (2 + 4));
}

#[test]
fn resources_are_rebased() {
    let mut tree = vec![0u8; 40];
    tree[14] = 1; // one entry by id
    tree[20..24].copy_from_slice(&24u32.to_le_bytes()); // a data entry at 24
    tree[24..28].copy_from_slice(&0x4010u32.to_le_bytes());
    let moved = patch_win32_resources(&tree, 0x4000, 0x6000).unwrap();
    assert_eq!(&moved[24..28], &0x6010u32.to_le_bytes());
    assert_eq!(&moved[..24], &tree[..24]);
    assert_eq!(patch_win32_resources(&tree, 0x4000, 0x4000).unwrap(), tree);
    assert!(matches!(patch_win32_resources(&tree[..12], 0, 0), Err(Error::BadImage(_))));
    // A table that is its own child leads nowhere.
    let mut endless = tree.clone();
    endless[20..24].copy_from_slice(&0x8000_0000u32.to_le_bytes());
    assert!(matches!(patch_win32_resources(&endless, 0, 0), Err(Error::BadImage(_))));
}

#[test]
fn buffers_write_over_and_behind() {
    let mut b = ByteBuffer::from_vec(vec![1, 2, 3, 4]);
    b.set_position(2).unwrap();
    b.u32_write(0xAABB_CCDD);
    assert_eq!(b.as_slice(), &[1, 2, 0xDD, 0xCC, 0xBB, 0xAA]);
    assert!(b.set_position(7).is_err());
    b.set_position(0).unwrap();
    assert_eq!(b.read_byte().unwrap(), 1);
    assert_eq!(b.read_bytes(2).unwrap(), &[2, 0xDD]);
    b.align(4).unwrap();
    assert_eq!(b.position(), 4);
    let mut z = ByteBuffer::zeroed(2);
    z.write_zeros(3);
    assert_eq!(z.length(), 3);
    let mut all = ByteBuffer::new();
    all.i16_write(-2);
    all.i32_write(-3);
    all.u64_write(4);
    all.write_buffer(&z);
    assert_eq!(all.length(), 2 + 4 + 8 + 3);
    all.set_position(0).unwrap();
    assert_eq!(all.i16().unwrap(), -2);
    assert_eq!(all.i32().unwrap(), -3);
    assert_eq!(all.u64().unwrap(), 4);
    assert!(matches!(all.u32(), Err(Error::BadImage(_))));
}

#[test]
fn text_segments_follow_one_another() {
    let mut map = TextMap::default();
    map.add(TextSegment::ImportAddressTable, 8);
    map.add(TextSegment::CliHeader, 72);
    assert_eq!(map.get_next_rva(TextSegment::CliHeader), 0x2000 + 80);
    assert_eq!(map.get_range(TextSegment::CliHeader), Range::new(0x2008, 72));
    assert_eq!(
        map.get_data_directory(TextSegment::CliHeader),
        DataDirectory::new(0x2008, 72)
    );
    // The length counts up to the end of the last mapped segment.
    assert_eq!(map.total_length(), 0x50);
    map.add_range(TextSegment::StartupStub, Range::new(0x2050, 6));
    assert_eq!(map.total_length(), 0x56);
}

#[test]
fn decoding_and_encoding_again_is_stable() {
    let body = MethodBody {
        instructions: vec![
            Instruction::new(0, Code::Ldc_I4.opcode(), Operand::Int32(-7)),
            Instruction::new(5, Code::Brtrue_S.opcode(), Operand::Branch(0)),
            Instruction::none(7, Code::Ret.opcode()),
        ],
        variables: vec![VariableDefinition::new(0, Token(0x0100_0001))],
        max_stack: 20,
        ..MethodBody::default()
    };
    let bytes = encode_method_body(&body).unwrap();
    let (decoded, used) = decode_method_body(&bytes).unwrap();
    assert_eq!(used, bytes.len());
    assert_eq!(encode_method_body(&decoded).unwrap(), bytes);
    assert_eq!(decoded.max_stack, 20);
    assert_eq!(decoded.instructions[1].display(""), "IL_0005: brtrue.s IL_0000");
}

#[test]
fn clauses_of_unknown_kinds_are_bad_images() {
    let mut data = [0u8; 12];
    data[0] = 3;
    assert!(matches!(read_clause(&mut ByteReader::new(&data), false), Err(Error::BadImage(_))));
    data[0] = 2;
    let clause = read_clause(&mut ByteReader::new(&data), false).unwrap();
    assert_eq!(clause.handler_type, ExceptionHandlerType::Finally);
    assert!(read_clause(&mut ByteReader::at(&data, 20), false).is_err());
    assert_eq!(ExceptionHandlerType::from_discriminant(4), Some(ExceptionHandlerType::Fault));
    assert_eq!(ExceptionHandlerType::Filter.discriminant(), 1);
}

#[test]
fn sections_are_as_long_as_their_last_segment() {
    let mut map = TextMap::default();
    assert_eq!(map.total_length(), 0);
    map.add(TextSegment::ImportAddressTable, 8);
    assert_eq!(map.total_length(), 8);
    map.add_range(TextSegment::Data, Range::new(0x2100, 0x10));
    map.add_range(TextSegment::DebugDirectory, Range::new(0x2080, 4));
    assert_eq!(map.total_length(), 0x110);
}

#[test]
fn decoded_code_is_encoded_byte_for_byte() {
    // ldc.i4.s -3, br.s +1, nop, ldstr, switch over two targets, ceq, ret.
    let code = [
        0x1F, 0xFD, 0x2B, 0x01, 0x00, 0x72, 0x05, 0x00, 0x00, 0x70, 0x45, 0x02, 0x00, 0x00, 0x00,
        0xF0, 0xFF, 0xFF, 0xFF, 0x01, 0x00, 0x00, 0x00, 0xFE, 0x01, 0x2A,
    ];
    let instructions = read_code(&code, code.len()).unwrap();
    assert_eq!(instructions.len(), 7);
    assert_eq!(write_code(&instructions).unwrap(), code.to_vec());
}
