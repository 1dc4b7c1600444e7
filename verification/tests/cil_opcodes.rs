use cecli::cil::opcodes::{all, one_byte, two_byte};
use cecli::cil::{instruction_size, Code, OperandType};
use std::collections::HashSet;


/// 191 opcodes take one byte and 28 take two: 219 in total.
#[test]
fn table_is_complete() {
    assert_eq!(all().len(), 219);
    assert!(all().len() >= 200);
    assert_eq!(all().iter().filter(|op| op.is_single_byte()).count(), 191);
    assert_eq!(all().iter().filter(|op| !op.is_single_byte()).count(), 28);
}

#[test]
fn spot_check_encodings() {
    // NOP = 0x00, size 1.
    assert_eq!((Code::Nop.opcode().byte1, Code::Nop.opcode().byte2, Code::Nop.opcode().size), (0xFF, 0x00, 1));
    assert_eq!(Code::Nop.opcode().operand_type, OperandType::InlineNone);
    assert_eq!(Code::Nop.opcode().code, Code::Nop);
    // LDARG_0 = 0x02.
    assert_eq!((Code::Ldarg_0.opcode().byte1, Code::Ldarg_0.opcode().byte2), (0xFF, 0x02));
    // LDC_I4_M1 = 0x15.
    assert_eq!((Code::Ldc_I4_M1.opcode().byte1, Code::Ldc_I4_M1.opcode().byte2), (0xFF, 0x15));
    // BOX = 0x8C with an inline type token.
    assert_eq!((Code::Box.opcode().byte1, Code::Box.opcode().byte2), (0xFF, 0x8C));
    assert_eq!(Code::Box.opcode().operand_type, OperandType::InlineType);
    assert_eq!((Code::Conv_U.opcode().byte1, Code::Conv_U.opcode().byte2), (0xFF, 0xE0));
    assert_eq!(Code::Conv_U.opcode().operand_type, OperandType::InlineNone);
}

#[test]
fn encodings_are_unique() {
    let mut seen = HashSet::new();
    for op in all().iter() {
        assert!(seen.insert(op.encoding()), "duplicate encoding {}", op.name);
    }
}

#[test]
fn codes_are_unique() {
    let mut seen = HashSet::new();
    for op in all().iter() {
        assert!(seen.insert(op.code), "duplicate code {}", op.name);
    }
}

#[test]
fn lookup_tables_agree_with_all() {
    for op in all().iter() {
        if op.is_single_byte() {
            assert_eq!(one_byte(op.byte2), Some(*op), "single {:#04x}", op.byte2);
        } else {
            assert_eq!(two_byte(op.byte2), Some(*op), "two fe {:#04x}", op.byte2);
        }
    }
    assert_eq!(one_byte(0x24), None);
    assert_eq!(one_byte(0xA6), None);
    assert_eq!(two_byte(0x08), None);
    assert_eq!(two_byte(0x10), None);
    assert_eq!(two_byte(0x1B), None);
}

/// Fixed instruction size is 1..=11 for every opcode and
/// consistent with its operand type.
#[test]
fn instruction_sizes_match_operand_types() {
    for op in all().iter() {
        let expected = match op.operand_type {
            OperandType::InlineNone => op.size as usize,
            OperandType::InlineSwitch => op.size as usize + 4,
            _ => op.size as usize + op.operand_type.size().unwrap(),
        };
        let size = instruction_size(*op);
        assert!((1..=11).contains(&size), "{} size {} outside 1..=11", op.name, size);
        assert_eq!(size, expected, "{}", op.name);
    }
    assert_eq!(instruction_size(Code::Nop.opcode()), 1);
    assert_eq!(instruction_size(Code::Br_S.opcode()), 2);
    assert_eq!(instruction_size(Code::Ldc_I8.opcode()), 9);
    assert_eq!(instruction_size(Code::Leave.opcode()), 5);
    assert_eq!(instruction_size(Code::Switch.opcode()), 5); // + count dword; targets extra
}

#[test]
fn names_follow_csharp_fields() {
    assert_eq!(Code::Ldc_I4_S.opcode().name, "ldc.i4.s");
    assert_eq!(Code::Bne_Un_S.opcode().name, "bne.un.s");
    assert_eq!(Code::Conv_Ovf_I1_Un.opcode().name, "conv.ovf.i1.un");
    assert_eq!(Code::Ldarg_0.opcode().name, "ldarg.0");
    assert_eq!(Code::Readonly.opcode().name, "readonly.");
}
