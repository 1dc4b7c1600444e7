use cecli::cil::{read_code, write_code, Code, Instruction, Operand};
use cecli::io::ByteReader;
use cecli::mdb::{MdbReader, MdbWriter};
use cecli::metadata::{
    encode_coded, stream_slice, MetadataBuilder, MetadataReader, StreamHeader, TableSet,
};
use cecli::model::body::{
    ExceptionHandlerIL, ExceptionKind, RInstruction, ROperand, ResolvedBody,
};
use cecli::pdb::embedded::{check_length, unwrap_embedded, wrap_embedded};
use cecli::pdb::native::msf::MsfImage;
use cecli::pdb::portable_writer::{encode_sequence_points, PortablePdbBuilder};
use cecli::pdb::SequencePoint;
use cecli::pe::resources::patch_win32_resources;
use cecli::pe::{ByteBuffer, Image};
use cecli::rocks::ilparser::validate_body;
use cecli::token::{CodedGroup, TableIndex, Token};

#[test]
fn cursors_say_where_they_stopped() {
    let data = [1u8, 2, 3, 4];
    let mut r = ByteReader::at(&data, 1);
    assert_eq!(r.seek(9).unwrap_err().message(), "bad image: seek 9 beyond 4");
    assert_eq!(
        r.u32().unwrap_err().message(),
        "bad image: read 4 bytes at 1 with only 3 remaining"
    );
    assert_eq!(r.align(8).unwrap_err().message(), "bad image: seek 8 beyond 4");
    let mut end = ByteReader::at(&data, 4);
    assert_eq!(
        end.compressed_u32().unwrap_err().message(),
        "bad image: read 1 bytes at 4 with only 0 remaining"
    );
    assert_eq!(
        end.compressed_i32().unwrap_err().message(),
        "bad image: compressed integer at end of stream"
    );
    let cut = [0x81u8];
    assert_eq!(
        ByteReader::new(&cut).compressed_i32().unwrap_err().message(),
        "bad image: read 1 bytes at 1 with only 0 remaining"
    );
}

#[test]
fn buffers_say_where_they_stopped() {
    let mut b = ByteBuffer::from_slice(&[1, 2, 3]);
    assert_eq!(b.set_position(4).unwrap_err().message(), "bad image: seek 4 beyond buffer length 3");
    b.set_position(1).unwrap();
    assert_eq!(
        b.advance(-2).unwrap_err().message(),
        "bad image: advance -2 from 1 out of bounds (length 3)"
    );
    assert_eq!(b.u32().unwrap_err().message(), "bad image: read 4 bytes at 1 with only 3 valid");
    assert_eq!(b.align(4).unwrap_err().message(), "bad image: seek 4 beyond buffer length 3");
    b.set_position(3).unwrap();
    assert_eq!(
        b.compressed_i32().unwrap_err().message(),
        "bad image: compressed int read at 3 beyond length 3"
    );
    assert_eq!(
        b.compressed_u32().unwrap_err().message(),
        "bad image: read 1 bytes at 3 with only 3 valid"
    );
}

#[test]
fn tables_say_what_they_do_not_hold() {
    let mut b = MetadataBuilder::new("v4");
    assert_eq!(
        b.add_row(TableIndex::Module, &[0, 0]).unwrap_err().message(),
        "bad argument: table Module expects 5 cells, got 2"
    );
    b.add_row(TableIndex::Module, &[0, 0, 0, 0, 0]).unwrap();
    let bytes = b.finalize();
    let md = MetadataReader::parse(&bytes).unwrap();
    let text = |t, rid, col| md.column(t, rid, col).unwrap_err().message();
    assert_eq!(text(TableIndex::Param, 1, 0), "bad argument: table Param is absent");
    assert_eq!(
        text(TableIndex::Module, 2, 0),
        "bad argument: rid 2 out of range for table Module (1 rows)"
    );
    assert_eq!(
        text(TableIndex::Module, 1, 5),
        "bad argument: column 5 out of range for table Module"
    );
    let group = CodedGroup::TypeDefOrRef.group();
    assert_eq!(
        encode_coded(&group, TableIndex::TypeDef, 0x100_0000).unwrap_err().message(),
        "bad argument: rid 16777216 exceeds 24 bits"
    );
    assert_eq!(
        encode_coded(&group, TableIndex::Module, 1).unwrap_err().message(),
        format!("bad argument: table Module does not participate in coded group {}", group.name)
    );
    assert_eq!(
        TableSet::compute_checked(1 << 0x3F, &[0; 0x38], 0).err().unwrap().message(),
        "unsupported: unknown metadata table 0x3f"
    );
}

#[test]
fn streams_outside_the_root_are_named() {
    let header = StreamHeader { offset: 4, size: 4, name: "#\"~".to_string() };
    assert_eq!(
        stream_slice(&[0; 5], &header).unwrap_err().message(),
        "bad image: stream \"#\\\"~\" [4, 8) lies outside metadata root of 5 bytes"
    );
}

#[test]
fn heaps_say_which_index_is_bad() {
    let mut b = MetadataBuilder::new("v4");
    let s = b.insert_string("zz");
    let blob = b.insert_blob(&[1, 2, 3]);
    let bytes = b.finalize();
    let md = MetadataReader::parse(&bytes).unwrap();
    let at = bytes.windows(2).position(|w| w == b"zz").unwrap();
    assert_eq!(md.heaps().strings.get(s).unwrap(), "zz");
    let mut bad = bytes.clone();
    bad[at] = 0xFF;
    let md = MetadataReader::parse(&bad).unwrap();
    assert_eq!(
        md.heaps().strings.get(s).unwrap_err().message(),
        format!("bad image: invalid UTF-8 at #Strings index {s}")
    );
    let at = bytes.windows(4).rposition(|w| w == [3, 1, 2, 3]).unwrap();
    let mut long = bytes.clone();
    long[at] = 0x7F;
    let md = MetadataReader::parse(&long).unwrap();
    assert_eq!(
        md.heaps().blob.get(blob).unwrap_err().message(),
        format!("bad image: blob length 127 overruns heap at #Blob index {blob}")
    );
}

#[test]
fn code_errors_show_their_bytes_and_operands() {
    assert_eq!(
        read_code(&[0, 0], 4).unwrap_err().message(),
        "bad image: code size 4 exceeds available 2 bytes"
    );
    assert_eq!(
        read_code(&[0x24], 1).unwrap_err().message(),
        "bad image: unknown single-byte opcode 0x24"
    );
    assert_eq!(
        read_code(&[0xFE, 0x08], 2).unwrap_err().message(),
        "bad image: unknown two-byte opcode fe 0x08"
    );
    assert_eq!(
        read_code(&[0x45, 0xFF, 0xFF, 0xFF, 0xFF], 5).unwrap_err().message(),
        "bad image: invalid switch target count -1"
    );
    let wrong = |code: Code, operand| {
        write_code(&[Instruction::new(0, code.opcode(), operand)]).unwrap_err().message()
    };
    assert_eq!(
        wrong(Code::Ldc_I4_S, Operand::Int32(7)),
        "bad argument: expected an Int8, got Int32(7)"
    );
    assert_eq!(
        wrong(Code::Call, Operand::Switch(vec![1, -2])),
        "bad argument: expected a Token, got Switch([1, -2])"
    );
    assert_eq!(
        wrong(Code::Ldstr, Operand::Token(Token(0x0600_0001))),
        "bad argument: expected a UserString, got Token(Token(100663297))"
    );
    assert_eq!(
        wrong(Code::Br_S, Operand::Empty),
        "bad argument: branch operand handled by write_code"
    );
}

#[test]
fn numbers_of_floating_point_operands_are_shown_as_given() {
    let single = Instruction::new(0, Code::Ldc_R4.opcode(), Operand::Float32(1.5f32.to_bits()));
    assert_eq!(single.display(&format!("{:?}", 1.5f32)), "IL_0000: ldc.r4 Float32(1.5)");
    let double = Instruction::new(5, Code::Ldc_R8.opcode(), Operand::Float64((-2.0f64).to_bits()));
    assert_eq!(double.display(&format!("{:?}", -2.0f64)), "IL_0005: ldc.r8 Float64(-2.0)");
    let int = Instruction::new(1, Code::Ldc_I4.opcode(), Operand::Int32(-7));
    assert_eq!(int.display("1.5"), "IL_0001: ldc.i4 Int32(-7)");
}

fn body_of(opcode: Code, operand: ROperand) -> ResolvedBody {
    ResolvedBody {
        instructions: vec![RInstruction { offset: 0, opcode: opcode.opcode(), operand }],
        ..Default::default()
    }
}

#[test]
fn wrong_operands_are_spelled_out() {
    let text = |c, o| validate_body(&body_of(c, o)).unwrap_err().message();
    let start = "invalid operation: instruction #0: opcode `nop` (InlineNone) carries incompatible operand ";
    assert_eq!(text(Code::Nop, ROperand::Int8(-5)), format!("{start}Int8(-5)"));
    assert_eq!(text(Code::Nop, ROperand::Switch(vec![1, 2])), format!("{start}Switch([1, 2])"));
    assert_eq!(text(Code::Nop, ROperand::Text("a\"b".to_string())), format!("{start}String(\"a\\\"b\")"));
    assert_eq!(text(Code::Nop, ROperand::Token(Token(9))), format!("{start}Token(Token(9))"));
}

#[test]
fn wrong_clauses_are_spelled_out() {
    let mut body = body_of(Code::Ret, ROperand::Empty);
    body.exception_handlers.push(ExceptionHandlerIL {
        kind: ExceptionKind::Filter,
        try_offset: 0,
        try_length: 2,
        filter_offset: 7,
        handler_offset: -1,
        handler_length: 1,
        catch_type: None,
    });
    let text = |b: &ResolvedBody| validate_body(b).unwrap_err().message();
    assert_eq!(
        text(&body),
        "invalid operation: exception handler try range [0, 2) escapes code [0, 1]"
    );
    body.exception_handlers[0].try_length = 1;
    assert_eq!(text(&body), "invalid operation: filter offset 7 outside [0, 1]");
    body.exception_handlers[0].filter_offset = 1;
    assert_eq!(
        text(&body),
        "invalid operation: exception handler handler range [-1, 0) escapes code [0, 1]"
    );
}

#[test]
fn containers_say_what_failed() {
    assert_eq!(
        check_length(4, Ok(vec![1, 2, 3])).unwrap_err().message(),
        "bad image: embedded pdb size mismatch: header says 4, inflated 3"
    );
    assert_eq!(
        check_length(0, Err("cut short".to_string())).unwrap_err().message(),
        "bad image: embedded pdb inflate failed: cut short"
    );
    let mut wrapped = wrap_embedded(&[7; 64]).unwrap();
    let last = wrapped.len();
    for b in &mut wrapped[8..last] {
        *b = 0xFF;
    }
    let text = unwrap_embedded(&wrapped).unwrap_err().message();
    let start = "bad image: embedded pdb inflate failed: ";
    assert!(text.starts_with(start) && text.len() > start.len(), "{text}");
}

#[test]
fn symbol_files_say_what_is_wrong() {
    assert_eq!(
        MdbReader::open(&[0; 3]).unwrap_err().message(),
        "bad image: mdb: file too small (3, need at least 112)"
    );
    assert_eq!(
        MdbReader::open(&[0; 112]).unwrap_err().message(),
        "bad image: mdb: bad magic 0x0000000000000000, expected 0x45e82623fd7fa614"
    );
    let mut w = MdbWriter::new([1; 16]);
    let s = w.add_source("qq.cs");
    w.add_compile_unit(&[s]);
    assert_eq!(
        w.add_local_variable(Token(0x0600_000A), 0, "x", 0).unwrap_err().message(),
        "bad argument: mdb: cannot define local `x` on unknown method token 0x0600000A"
    );
    let good = w.finalize();
    let mut old = good.clone();
    old[8] = 49;
    assert_eq!(
        MdbReader::open(&old).unwrap_err().message(),
        "bad image: mdb: symbol file has version 49 but 50+ is required"
    );
    let at = good.windows(2).position(|b| b == b"qq").unwrap();
    let mut bad = good.clone();
    bad[at] = 0xFF;
    assert_eq!(
        MdbReader::open(&bad).unwrap_err().message(),
        "bad image: mdb: bad string: invalid utf-8 sequence of 1 bytes from index 0"
    );
}

#[test]
fn portable_writers_say_what_they_refuse() {
    let mut b = PortablePdbBuilder::new();
    let doc = b.add_document("a.cs", [1; 16], &[], [2; 16]);
    assert_eq!(
        b.set_method_sequence_points(Token(0x0200_0001), doc, &[]).unwrap_err().message(),
        "bad argument: 0x02000001 is not a MethodDef token"
    );
    let back =
        SequencePoint { offset: 4, start_line: 2, start_column: 1, end_line: 1, end_column: 5 };
    assert_eq!(
        encode_sequence_points(0, &[back]).unwrap_err().message(),
        "bad argument: sequence point at offset 4 ends before it starts"
    );
    let same = SequencePoint { end_line: 2, end_column: 0, ..back };
    assert_eq!(
        encode_sequence_points(0, &[same]).unwrap_err().message(),
        "bad argument: sequence point at offset 4 ends before it starts on the same line"
    );
    let wide = SequencePoint { end_line: 3, end_column: 0x2000_0001, ..back };
    assert_eq!(
        encode_sequence_points(0, &[wide]).unwrap_err().message(),
        "bad argument: sequence point delta 536870912 exceeds 32-bit range"
    );
    let negative = SequencePoint { offset: -3, ..same };
    assert_eq!(
        b.set_method_sequence_points(Token(0x0600_0001), doc, &[negative]).unwrap_err().message(),
        "bad argument: negative IL offset -3 in sequence points"
    );
}

#[test]
fn images_say_where_they_stopped() {
    assert_eq!(
        Image::parse(&[0; 3]).unwrap_err().message(),
        "bad image: file too small for a PE image: 3 bytes"
    );
    let mut raw = vec![0u8; 128];
    raw[0x3C] = 120;
    raw[120] = b'P';
    raw[121] = b'E';
    assert_eq!(Image::parse(&raw).unwrap_err().message(), "bad image: missing MZ signature");
    raw[0] = b'M';
    raw[1] = b'Z';
    assert_eq!(
        Image::parse(&raw).unwrap_err().message(),
        "bad image: read 4 bytes at 128 with only 0 remaining"
    );
    raw.extend_from_slice(&[0; 10]);
    assert_eq!(Image::parse(&raw).unwrap_err().message(), "bad image: seek 142 beyond 138");
    raw.extend_from_slice(&[0; 8]);
    assert_eq!(
        Image::parse(&raw).unwrap_err().message(),
        "bad image: unknown optional header magic 0x0"
    );
    raw[144] = 0x0B;
    raw[145] = 0x01;
    assert_eq!(
        Image::parse(&raw).unwrap_err().message(),
        "bad image: read 2 bytes at 146 with only 0 remaining"
    );
    assert_eq!(
        patch_win32_resources(&[0; 8], 0, 0).unwrap_err().message(),
        "bad image: advance 12 from 0 out of bounds (length 8)"
    );
    assert_eq!(
        patch_win32_resources(&[0; 13], 0, 0).unwrap_err().message(),
        "bad image: read 2 bytes at 12 with only 13 valid"
    );
}

#[test]
fn native_files_without_their_magic_are_named() {
    assert_eq!(
        MsfImage::parse(&[0; 52]).unwrap_err().message(),
        "bad image: not a native PDB: missing 'Microsoft C/C++ MSF 7.00' MSF magic"
    );
}

#[test]
fn versions_and_blobs_read_back_apart() {
    let mut b = MetadataBuilder::new("v4\0more");
    let blob = b.insert_blob(&[1, 0, 2]);
    // A cell that is too large for its two bytes.
    b.add_row(TableIndex::Module, &[0x1_0000, 0, 0, 0, 0]).unwrap();
    let bytes = b.finalize();
    let md = MetadataReader::parse(&bytes).unwrap();
    assert_eq!(md.version_string(), "v4");
    assert_eq!(md.heaps().blob.get(blob).unwrap(), &[1, 0, 2]);
}

#[test]
fn lines_of_one_method_do_not_depend_on_another() {
    let mut w = MdbWriter::new([3; 16]);
    let s = w.add_source("a.cs");
    let cu = w.add_compile_unit(&[s]);
    w.mark_sequence_points(Token(0x0600_0001), cu, 0, &[(0, 3, s), (6, 4, s)]);
    w.mark_sequence_points(Token(0x0600_0002), cu, 0, &[(-4, 9, 0xFFFF_FFFF)]);
    let bytes = w.finalize();
    let r = MdbReader::open(&bytes).unwrap();
    let lines = r.method_lines(1).unwrap().unwrap();
    assert_eq!(lines.il_offsets, vec![0, 6]);
    assert_eq!(lines.line_numbers, vec![3, 4]);
}

#[test]
fn documents_and_scopes_read_back_beside_cut_names() {
    let mut b = PortablePdbBuilder::new();
    let doc = b.add_document("src/a.cs", [1; 16], &[5], [2; 16]);
    let point = SequencePoint { offset: 2, start_line: 4, start_column: 1, end_line: 4, end_column: 9 };
    b.set_method_sequence_points(Token(0x0600_0002), doc, &[point]).unwrap();
    b.add_local_scope(Token(0x0600_0002), 0, &[(0, "cut\0off".to_owned(), 0)], &[], 0, 1, 6);
    let bytes = b.finalize().unwrap();
    let r = cecli::pdb::PortablePdbReader::parse(&bytes).unwrap();
    assert_eq!(r.document(1).unwrap().name, "src/a.cs");
    assert_eq!(r.sequence_points(2).unwrap().unwrap(), (1, vec![point]));
    let scopes = r.local_scopes(2).unwrap();
    assert_eq!(scopes.len(), 1);
    assert_eq!(r.local_variables(&scopes[0]).unwrap()[0].name, "cut");
    assert_eq!(r.metadata().row_count(TableIndex::MethodDebugInformation), 2);
    assert_eq!(
        r.sequence_points(9).unwrap_err().message(),
        "bad argument: method rid 9 outside MethodDebugInformation (2 rows)"
    );
}
