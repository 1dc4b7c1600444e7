use cecli::cil::{
    decode_method_body, encode_body_header, encode_method_body, parse_body_header, read_code,
    write_code, Code, ExceptionHandler, ExceptionHandlerType, Instruction, MethodBody, Operand,
    VariableDefinition,
};
use cecli::token::{TableIndex, Token};


/// Tiny header encode -> parse roundtrip.
#[test]
fn tiny_header_roundtrip() {
    let bytes = encode_body_header(true, 42, 8, Token::nil(), false).unwrap();
    assert_eq!(bytes.len(), 1);
    assert_eq!(bytes[0], (42 << 2) | 0x2);
    let parsed = parse_body_header(&bytes).unwrap();
    assert!(!parsed.fat);
    assert_eq!(parsed.code_size, 42);
    assert_eq!(parsed.max_stack, 8);
    assert!(parsed.locals_token.is_nil());
    assert!(!parsed.init_locals);
    assert!(!parsed.more_sects);
}

/// Fat header encode -> parse roundtrip incl.
/// init_locals and locals token.
#[test]
fn fat_header_roundtrip() {
    let locals = Token::new(TableIndex::StandAloneSig, 7); // StandAloneSig rid 7
    let bytes = encode_body_header(false, 300, 16, locals, true).unwrap();
    assert_eq!(bytes.len(), 12);
    // flags: 0x3 | init_locals(0x10)
    assert_eq!((bytes[0], bytes[1]), (0x13, 0x30));
    let parsed = parse_body_header(&bytes).unwrap();
    assert!(parsed.fat);
    assert_eq!(parsed.code_size, 300);
    assert_eq!(parsed.max_stack, 16);
    assert_eq!(parsed.locals_token, locals);
    assert!(parsed.init_locals);
    assert!(!parsed.more_sects);
}

#[test]
fn tiny_header_rejects_fat_only_fields() {
    assert!(encode_body_header(true, 64, 8, Token::nil(), false).is_err());
    assert!(encode_body_header(true, 10, 9, Token::nil(), false).is_err());
    assert!(encode_body_header(true, 10, 8, Token::new(TableIndex::StandAloneSig, 1), false)
        .is_err());
    assert!(encode_body_header(true, 10, 8, Token::nil(), true).is_err());
}

#[test]
fn malformed_headers_error() {
    assert!(parse_body_header(&[]).is_err());
    assert!(parse_body_header(&[0x00]).is_err()); // format bits 0
    assert!(parse_body_header(&[0x03, 0x30]).is_err()); // truncated fat
}

/// Decode -> encode roundtrip over a program with branches and a switch.
#[test]
fn code_roundtrip_with_branches_and_switch() {
    // IL_0000: nop                       (1 byte)
    // IL_0001: ldc.i4.s 5                (2 bytes)
    // IL_0003: br.s IL_0010              (2 bytes)   target abs 16
    // IL_0005: ldarg.1                   (1 byte)
    // IL_0006: switch (IL_0005, IL_0010) (1+4+4+4=13 bytes)
    // IL_0013: ldc.i4 1000               (5 bytes)
    // IL_0018: leave IL_0018             (5 bytes) self-branch
    // IL_001D: ret                       (1 byte)
    let instructions = vec![
        Instruction::none(0, Code::Nop.opcode()),
        Instruction::new(1, Code::Ldc_I4_S.opcode(), Operand::Int8(5)),
        Instruction::new(3, Code::Br_S.opcode(), Operand::Branch(16)),
        Instruction::none(5, Code::Ldarg_1.opcode()),
        Instruction::new(6, Code::Switch.opcode(), Operand::Switch(vec![5, 16])),
        Instruction::new(19, Code::Ldc_I4.opcode(), Operand::Int32(1000)),
        Instruction::new(24, Code::Leave.opcode(), Operand::Branch(24)),
        Instruction::none(29, Code::Ret.opcode()),
    ];
    // Verify offsets line up with sizes before encoding.
    let mut off = 0usize;
    for instr in &instructions {
        assert_eq!(instr.offset, off as i32);
        off += instr.size();
    }
    assert_eq!(off, 30);

    let encoded = write_code(&instructions).unwrap();
    assert_eq!(encoded.len(), 30);
    // Spot-check raw encodings.
    assert_eq!(&encoded[..3], &[0x00, 0x1F, 0x05]);
    assert_eq!(encoded[3], 0x2B); // br.s
    assert_eq!(encoded[4], 11); // rel = target 16 - next offset 5
    assert_eq!(encoded[6], 0x45); // switch

    let decoded = read_code(&encoded, encoded.len()).unwrap();
    assert_eq!(decoded, instructions);
}

#[test]
fn code_decode_handles_tokens_and_strings() {
    // callvirt on MethodDef 4; ldstr us-index 0x1234; ldloc 300; ret.
    let instructions = vec![
        Instruction::new(
            0,
            Code::Callvirt.opcode(),
            Operand::Token(Token::new(TableIndex::MethodDef, 4)),
        ),
        Instruction::new(5, Code::Ldstr.opcode(), Operand::UserString(0x1234)),
        Instruction::new(10, Code::Ldloc.opcode(), Operand::Var(300)),
        Instruction::new(14, Code::Stind_I.opcode(), Operand::Empty),
        Instruction::new(15, Code::Conv_U8.opcode(), Operand::Empty),
        Instruction::none(16, Code::Ret.opcode()),
    ];
    let encoded = write_code(&instructions).unwrap();
    assert_eq!(encoded.len(), 17);
    let decoded = read_code(&encoded, encoded.len()).unwrap();
    assert_eq!(decoded, instructions);
}

#[test]
fn unknown_opcode_is_an_error_not_a_panic() {
    let data = [0x24]; // undefined slot
    assert!(read_code(&data, 1).is_err());
    let data2 = [0xFE, 0x08];
    assert!(read_code(&data2, 2).is_err());
    // Truncated operand.
    let data3 = [0x20, 0x01]; // ldc.i4 missing 3 bytes
    assert!(read_code(&data3, 2).is_err());
}

/// Full-body roundtrip: tiny form.
#[test]
fn tiny_body_roundtrip() {
    let body = MethodBody {
        instructions: vec![
            Instruction::none(0, Code::Ldc_I4_2.opcode()),
            Instruction::none(1, Code::Ret.opcode()),
        ],
        ..MethodBody::default()
    };
    let bytes = encode_method_body(&body).unwrap();
    assert_eq!(bytes.len(), 3); // 1 header + 2 code
    assert_eq!(bytes[0], (2 << 2) | 0x2);
    let (decoded, consumed) = decode_method_body(&bytes).unwrap();
    assert_eq!(consumed, bytes.len());
    assert_eq!(decoded, body);
}

/// Full-body roundtrip: fat form with locals, init_locals and exception
/// handlers in both clause forms.
#[test]
fn fat_body_with_sections_roundtrip() {
    let locals = Token::new(TableIndex::StandAloneSig, 42);
    let mut handler = ExceptionHandler::new(ExceptionHandlerType::Catch);
    handler.try_start = 0;
    handler.try_length = 6;
    handler.handler_start = 6;
    handler.handler_length = 4;
    handler.catch_type = Token(0x0100_000A);

    // Offsets: nop(0) leave.s(1..3) pop(3)? keep simple:
    // 0: nop, 1: leave.s -> 6, 3: pop, 4: endfinally, 5: rethrow? use:
    // 0: nop; 1: leave.s 7 (2 bytes); 3: pop; 4: pop; 5: endfinally;
    // 6: rethrow (fe 1a); 8: ret
    let body = MethodBody {
        max_stack: 8,
        local_var_sig_tok: locals,
        init_locals: true,
        instructions: vec![
            Instruction::none(0, Code::Nop.opcode()),
            Instruction::new(1, Code::Leave_S.opcode(), Operand::Branch(7)),
            Instruction::none(3, Code::Pop.opcode()),
            Instruction::none(4, Code::Endfinally.opcode()),
            Instruction::none(5, Code::Rethrow.opcode()),
            Instruction::none(8 - 1, Code::Ret.opcode()), // offset 7
        ],
        exception_handlers: vec![handler],
        variables: vec![
            VariableDefinition::new(0, Token(0x0100_0001)),
            VariableDefinition::new(1, Token(0x0100_0002)),
        ],
    };

    let bytes = encode_method_body(&body).unwrap();
    let (decoded, _consumed) = decode_method_body(&bytes).unwrap();
    // Header fields survive.
    assert!(decoded.init_locals);
    assert_eq!(decoded.local_var_sig_tok, locals);
    assert!(!decoded.instructions.is_empty());
    // Instructions compare equal including recomputed offsets.
    assert_eq!(decoded.instructions, body.instructions);
    // Clause survives with identical semantics (small form).
    assert_eq!(decoded.exception_handlers.len(), 1);
    assert_eq!(decoded.exception_handlers[0].handler_type, ExceptionHandlerType::Catch);
    assert_eq!(decoded.exception_handlers[0].try_start, 0);
    assert_eq!(decoded.exception_handlers[0].try_length, 6);
    assert_eq!(decoded.exception_handlers[0].handler_start, 6);
    assert_eq!(decoded.exception_handlers[0].handler_length, 4);
    assert_eq!(decoded.exception_handlers[0].catch_type, Token(0x0100_000A));

    // Re-encode is stable (byte-for-byte).
    let again = encode_method_body(&decoded).unwrap();
    assert_eq!(again, bytes);
}

/// A try block longer than 255 bytes must switch the section to fat form.
#[test]
fn long_ranges_force_fat_section() {
    let mut handler = ExceptionHandler::new(ExceptionHandlerType::Finally);
    handler.try_start = 0;
    handler.try_length = 600;
    handler.handler_start = 600;
    handler.handler_length = 200;

    // Build matching instruction stream: 600 nops + endfinally + ret.
    let mut instructions: Vec<Instruction> =
        Vec::with_capacity(handler.try_length as usize + 2);
    let mut off = 0i32;
    for _ in 0..handler.try_length {
        instructions.push(Instruction::none(off, Code::Nop.opcode()));
        off += 1;
    }
    instructions.push(Instruction::none(off, Code::Endfinally.opcode()));
    off += 1;
    handler.handler_start = off;
    instructions.push(Instruction::none(off, Code::Ret.opcode()));

    let body = MethodBody {
        max_stack: 8,
        local_var_sig_tok: Token::nil(),
        init_locals: false,
        instructions,
        exception_handlers: vec![handler],
        variables: Vec::new(),
    };
    let bytes = encode_method_body(&body).unwrap();
    let (decoded, _) = decode_method_body(&bytes).unwrap();
    assert_eq!(decoded.instructions, body.instructions);
    assert_eq!(decoded.exception_handlers, body.exception_handlers);
    // The section really used the fat flag: code size is 602 bytes, so
    // the body is fat (12-byte header) and sections start 4-aligned.
    assert_eq!(decoded.code_size(), 602);
    let sections_start = ((12 + 602usize) + 3) & !3usize;
    let flags = bytes[sections_start];
    assert_eq!(flags & 0x40, 0x40);
    // Fat section data length = 1 clause * 24 + 4.
    let size = (bytes[sections_start + 1] as usize)
        | (bytes[sections_start + 2] as usize) << 8
        | (bytes[sections_start + 3] as usize) << 16;
    assert_eq!(size, 28);
}
