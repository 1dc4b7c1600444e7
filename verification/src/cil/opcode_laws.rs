//! The byte values of the instructions, their mnemonics and what their operands
//! are.

use vstd::prelude::*;

use crate::cil::body;
use crate::cil::code::Code;
use crate::cil::opcode::OperandType;
use crate::cil::opcodes;

verus! {

/// The bytes at `at` are read as the instruction, which has the mnemonic, takes
/// such an operand and is written as the same bytes.
pub open spec fn stands_for(
    s: Seq<u8>,
    at: int,
    width: nat,
    code: Code,
    name: Seq<char>,
    kind: OperandType,
) -> bool {
    &&& body::code_at(s, at) == Some((code, width))
    &&& opcodes::described(code).name == name
    &&& opcodes::described(code).operand_type == kind
    &&& opcodes::described(code).size == width
    &&& opcodes::described(code).bytes() == s.subrange(at, at + width)
}

/// The single-byte instructions from `0x00` to `0x18`.
#[verifier::rlimit(100)]
#[verifier::spinoff_prover]
pub proof fn opcodes_0x00_to_0x18(s: Seq<u8>, at: int)
    requires
        0 <= at < s.len(),
    ensures
        s[at] == 0x00u8 ==> stands_for(s, at, 1, Code::Nop, "nop"@, OperandType::InlineNone),
        s[at] == 0x01u8 ==> stands_for(s, at, 1, Code::Break, "break"@, OperandType::InlineNone),
        s[at] == 0x02u8 ==> stands_for(s, at, 1, Code::Ldarg_0, "ldarg.0"@, OperandType::InlineNone),
        s[at] == 0x03u8 ==> stands_for(s, at, 1, Code::Ldarg_1, "ldarg.1"@, OperandType::InlineNone),
        s[at] == 0x04u8 ==> stands_for(s, at, 1, Code::Ldarg_2, "ldarg.2"@, OperandType::InlineNone),
        s[at] == 0x05u8 ==> stands_for(s, at, 1, Code::Ldarg_3, "ldarg.3"@, OperandType::InlineNone),
        s[at] == 0x06u8 ==> stands_for(s, at, 1, Code::Ldloc_0, "ldloc.0"@, OperandType::InlineNone),
        s[at] == 0x07u8 ==> stands_for(s, at, 1, Code::Ldloc_1, "ldloc.1"@, OperandType::InlineNone),
        s[at] == 0x08u8 ==> stands_for(s, at, 1, Code::Ldloc_2, "ldloc.2"@, OperandType::InlineNone),
        s[at] == 0x09u8 ==> stands_for(s, at, 1, Code::Ldloc_3, "ldloc.3"@, OperandType::InlineNone),
        s[at] == 0x0Au8 ==> stands_for(s, at, 1, Code::Stloc_0, "stloc.0"@, OperandType::InlineNone),
        s[at] == 0x0Bu8 ==> stands_for(s, at, 1, Code::Stloc_1, "stloc.1"@, OperandType::InlineNone),
        s[at] == 0x0Cu8 ==> stands_for(s, at, 1, Code::Stloc_2, "stloc.2"@, OperandType::InlineNone),
        s[at] == 0x0Du8 ==> stands_for(s, at, 1, Code::Stloc_3, "stloc.3"@, OperandType::InlineNone),
        s[at] == 0x0Eu8 ==> stands_for(s, at, 1, Code::Ldarg_S, "ldarg.s"@, OperandType::ShortInlineArg),
        s[at] == 0x0Fu8 ==> stands_for(s, at, 1, Code::Ldarga_S, "ldarga.s"@, OperandType::ShortInlineArg),
        s[at] == 0x10u8 ==> stands_for(s, at, 1, Code::Starg_S, "starg.s"@, OperandType::ShortInlineArg),
        s[at] == 0x11u8 ==> stands_for(s, at, 1, Code::Ldloc_S, "ldloc.s"@, OperandType::ShortInlineVar),
        s[at] == 0x12u8 ==> stands_for(s, at, 1, Code::Ldloca_S, "ldloca.s"@, OperandType::ShortInlineVar),
        s[at] == 0x13u8 ==> stands_for(s, at, 1, Code::Stloc_S, "stloc.s"@, OperandType::ShortInlineVar),
        s[at] == 0x14u8 ==> stands_for(s, at, 1, Code::Ldnull, "ldnull"@, OperandType::InlineNone),
        s[at] == 0x15u8 ==> stands_for(s, at, 1, Code::Ldc_I4_M1, "ldc.i4.m1"@, OperandType::InlineNone),
        s[at] == 0x16u8 ==> stands_for(s, at, 1, Code::Ldc_I4_0, "ldc.i4.0"@, OperandType::InlineNone),
        s[at] == 0x17u8 ==> stands_for(s, at, 1, Code::Ldc_I4_1, "ldc.i4.1"@, OperandType::InlineNone),
        s[at] == 0x18u8 ==> stands_for(s, at, 1, Code::Ldc_I4_2, "ldc.i4.2"@, OperandType::InlineNone),
{
    reveal(opcodes::one_byte_code);
    reveal(opcodes::two_byte_code);
    reveal(opcodes::mnemonic);
    reveal(opcodes::operand_type);
    reveal(opcodes::second_byte);
    reveal(opcodes::escaped);
    assert(s.subrange(at, at + 1) =~= seq![s[at]]);
}

/// The single-byte instructions from `0x19` to `0x32`.
#[verifier::rlimit(100)]
#[verifier::spinoff_prover]
pub proof fn opcodes_0x19_to_0x32(s: Seq<u8>, at: int)
    requires
        0 <= at < s.len(),
    ensures
        s[at] == 0x19u8 ==> stands_for(s, at, 1, Code::Ldc_I4_3, "ldc.i4.3"@, OperandType::InlineNone),
        s[at] == 0x1Au8 ==> stands_for(s, at, 1, Code::Ldc_I4_4, "ldc.i4.4"@, OperandType::InlineNone),
        s[at] == 0x1Bu8 ==> stands_for(s, at, 1, Code::Ldc_I4_5, "ldc.i4.5"@, OperandType::InlineNone),
        s[at] == 0x1Cu8 ==> stands_for(s, at, 1, Code::Ldc_I4_6, "ldc.i4.6"@, OperandType::InlineNone),
        s[at] == 0x1Du8 ==> stands_for(s, at, 1, Code::Ldc_I4_7, "ldc.i4.7"@, OperandType::InlineNone),
        s[at] == 0x1Eu8 ==> stands_for(s, at, 1, Code::Ldc_I4_8, "ldc.i4.8"@, OperandType::InlineNone),
        s[at] == 0x1Fu8 ==> stands_for(s, at, 1, Code::Ldc_I4_S, "ldc.i4.s"@, OperandType::ShortInlineI),
        s[at] == 0x20u8 ==> stands_for(s, at, 1, Code::Ldc_I4, "ldc.i4"@, OperandType::InlineI),
        s[at] == 0x21u8 ==> stands_for(s, at, 1, Code::Ldc_I8, "ldc.i8"@, OperandType::InlineI8),
        s[at] == 0x22u8 ==> stands_for(s, at, 1, Code::Ldc_R4, "ldc.r4"@, OperandType::ShortInlineR),
        s[at] == 0x23u8 ==> stands_for(s, at, 1, Code::Ldc_R8, "ldc.r8"@, OperandType::InlineR),
        s[at] == 0x25u8 ==> stands_for(s, at, 1, Code::Dup, "dup"@, OperandType::InlineNone),
        s[at] == 0x26u8 ==> stands_for(s, at, 1, Code::Pop, "pop"@, OperandType::InlineNone),
        s[at] == 0x27u8 ==> stands_for(s, at, 1, Code::Jmp, "jmp"@, OperandType::InlineMethod),
        s[at] == 0x28u8 ==> stands_for(s, at, 1, Code::Call, "call"@, OperandType::InlineMethod),
        s[at] == 0x29u8 ==> stands_for(s, at, 1, Code::Calli, "calli"@, OperandType::InlineSig),
        s[at] == 0x2Au8 ==> stands_for(s, at, 1, Code::Ret, "ret"@, OperandType::InlineNone),
        s[at] == 0x2Bu8 ==> stands_for(s, at, 1, Code::Br_S, "br.s"@, OperandType::ShortInlineBrTarget),
        s[at] == 0x2Cu8 ==> stands_for(s, at, 1, Code::Brfalse_S, "brfalse.s"@, OperandType::ShortInlineBrTarget),
        s[at] == 0x2Du8 ==> stands_for(s, at, 1, Code::Brtrue_S, "brtrue.s"@, OperandType::ShortInlineBrTarget),
        s[at] == 0x2Eu8 ==> stands_for(s, at, 1, Code::Beq_S, "beq.s"@, OperandType::ShortInlineBrTarget),
        s[at] == 0x2Fu8 ==> stands_for(s, at, 1, Code::Bge_S, "bge.s"@, OperandType::ShortInlineBrTarget),
        s[at] == 0x30u8 ==> stands_for(s, at, 1, Code::Bgt_S, "bgt.s"@, OperandType::ShortInlineBrTarget),
        s[at] == 0x31u8 ==> stands_for(s, at, 1, Code::Ble_S, "ble.s"@, OperandType::ShortInlineBrTarget),
        s[at] == 0x32u8 ==> stands_for(s, at, 1, Code::Blt_S, "blt.s"@, OperandType::ShortInlineBrTarget),
{
    reveal(opcodes::one_byte_code);
    reveal(opcodes::two_byte_code);
    reveal(opcodes::mnemonic);
    reveal(opcodes::operand_type);
    reveal(opcodes::second_byte);
    reveal(opcodes::escaped);
    assert(s.subrange(at, at + 1) =~= seq![s[at]]);
}

/// The single-byte instructions from `0x33` to `0x4B`.
#[verifier::rlimit(100)]
#[verifier::spinoff_prover]
pub proof fn opcodes_0x33_to_0x4b(s: Seq<u8>, at: int)
    requires
        0 <= at < s.len(),
    ensures
        s[at] == 0x33u8 ==> stands_for(s, at, 1, Code::Bne_Un_S, "bne.un.s"@, OperandType::ShortInlineBrTarget),
        s[at] == 0x34u8 ==> stands_for(s, at, 1, Code::Bge_Un_S, "bge.un.s"@, OperandType::ShortInlineBrTarget),
        s[at] == 0x35u8 ==> stands_for(s, at, 1, Code::Bgt_Un_S, "bgt.un.s"@, OperandType::ShortInlineBrTarget),
        s[at] == 0x36u8 ==> stands_for(s, at, 1, Code::Ble_Un_S, "ble.un.s"@, OperandType::ShortInlineBrTarget),
        s[at] == 0x37u8 ==> stands_for(s, at, 1, Code::Blt_Un_S, "blt.un.s"@, OperandType::ShortInlineBrTarget),
        s[at] == 0x38u8 ==> stands_for(s, at, 1, Code::Br, "br"@, OperandType::InlineBrTarget),
        s[at] == 0x39u8 ==> stands_for(s, at, 1, Code::Brfalse, "brfalse"@, OperandType::InlineBrTarget),
        s[at] == 0x3Au8 ==> stands_for(s, at, 1, Code::Brtrue, "brtrue"@, OperandType::InlineBrTarget),
        s[at] == 0x3Bu8 ==> stands_for(s, at, 1, Code::Beq, "beq"@, OperandType::InlineBrTarget),
        s[at] == 0x3Cu8 ==> stands_for(s, at, 1, Code::Bge, "bge"@, OperandType::InlineBrTarget),
        s[at] == 0x3Du8 ==> stands_for(s, at, 1, Code::Bgt, "bgt"@, OperandType::InlineBrTarget),
        s[at] == 0x3Eu8 ==> stands_for(s, at, 1, Code::Ble, "ble"@, OperandType::InlineBrTarget),
        s[at] == 0x3Fu8 ==> stands_for(s, at, 1, Code::Blt, "blt"@, OperandType::InlineBrTarget),
        s[at] == 0x40u8 ==> stands_for(s, at, 1, Code::Bne_Un, "bne.un"@, OperandType::InlineBrTarget),
        s[at] == 0x41u8 ==> stands_for(s, at, 1, Code::Bge_Un, "bge.un"@, OperandType::InlineBrTarget),
        s[at] == 0x42u8 ==> stands_for(s, at, 1, Code::Bgt_Un, "bgt.un"@, OperandType::InlineBrTarget),
        s[at] == 0x43u8 ==> stands_for(s, at, 1, Code::Ble_Un, "ble.un"@, OperandType::InlineBrTarget),
        s[at] == 0x44u8 ==> stands_for(s, at, 1, Code::Blt_Un, "blt.un"@, OperandType::InlineBrTarget),
        s[at] == 0x45u8 ==> stands_for(s, at, 1, Code::Switch, "switch"@, OperandType::InlineSwitch),
        s[at] == 0x46u8 ==> stands_for(s, at, 1, Code::Ldind_I1, "ldind.i1"@, OperandType::InlineNone),
        s[at] == 0x47u8 ==> stands_for(s, at, 1, Code::Ldind_U1, "ldind.u1"@, OperandType::InlineNone),
        s[at] == 0x48u8 ==> stands_for(s, at, 1, Code::Ldind_I2, "ldind.i2"@, OperandType::InlineNone),
        s[at] == 0x49u8 ==> stands_for(s, at, 1, Code::Ldind_U2, "ldind.u2"@, OperandType::InlineNone),
        s[at] == 0x4Au8 ==> stands_for(s, at, 1, Code::Ldind_I4, "ldind.i4"@, OperandType::InlineNone),
        s[at] == 0x4Bu8 ==> stands_for(s, at, 1, Code::Ldind_U4, "ldind.u4"@, OperandType::InlineNone),
{
    reveal(opcodes::one_byte_code);
    reveal(opcodes::two_byte_code);
    reveal(opcodes::mnemonic);
    reveal(opcodes::operand_type);
    reveal(opcodes::second_byte);
    reveal(opcodes::escaped);
    assert(s.subrange(at, at + 1) =~= seq![s[at]]);
}

/// The single-byte instructions from `0x4C` to `0x64`.
#[verifier::rlimit(100)]
#[verifier::spinoff_prover]
pub proof fn opcodes_0x4c_to_0x64(s: Seq<u8>, at: int)
    requires
        0 <= at < s.len(),
    ensures
        s[at] == 0x4Cu8 ==> stands_for(s, at, 1, Code::Ldind_I8, "ldind.i8"@, OperandType::InlineNone),
        s[at] == 0x4Du8 ==> stands_for(s, at, 1, Code::Ldind_I, "ldind.i"@, OperandType::InlineNone),
        s[at] == 0x4Eu8 ==> stands_for(s, at, 1, Code::Ldind_R4, "ldind.r4"@, OperandType::InlineNone),
        s[at] == 0x4Fu8 ==> stands_for(s, at, 1, Code::Ldind_R8, "ldind.r8"@, OperandType::InlineNone),
        s[at] == 0x50u8 ==> stands_for(s, at, 1, Code::Ldind_Ref, "ldind.ref"@, OperandType::InlineNone),
        s[at] == 0x51u8 ==> stands_for(s, at, 1, Code::Stind_Ref, "stind.ref"@, OperandType::InlineNone),
        s[at] == 0x52u8 ==> stands_for(s, at, 1, Code::Stind_I1, "stind.i1"@, OperandType::InlineNone),
        s[at] == 0x53u8 ==> stands_for(s, at, 1, Code::Stind_I2, "stind.i2"@, OperandType::InlineNone),
        s[at] == 0x54u8 ==> stands_for(s, at, 1, Code::Stind_I4, "stind.i4"@, OperandType::InlineNone),
        s[at] == 0x55u8 ==> stands_for(s, at, 1, Code::Stind_I8, "stind.i8"@, OperandType::InlineNone),
        s[at] == 0x56u8 ==> stands_for(s, at, 1, Code::Stind_R4, "stind.r4"@, OperandType::InlineNone),
        s[at] == 0x57u8 ==> stands_for(s, at, 1, Code::Stind_R8, "stind.r8"@, OperandType::InlineNone),
        s[at] == 0x58u8 ==> stands_for(s, at, 1, Code::Add, "add"@, OperandType::InlineNone),
        s[at] == 0x59u8 ==> stands_for(s, at, 1, Code::Sub, "sub"@, OperandType::InlineNone),
        s[at] == 0x5Au8 ==> stands_for(s, at, 1, Code::Mul, "mul"@, OperandType::InlineNone),
        s[at] == 0x5Bu8 ==> stands_for(s, at, 1, Code::Div, "div"@, OperandType::InlineNone),
        s[at] == 0x5Cu8 ==> stands_for(s, at, 1, Code::Div_Un, "div.un"@, OperandType::InlineNone),
        s[at] == 0x5Du8 ==> stands_for(s, at, 1, Code::Rem, "rem"@, OperandType::InlineNone),
        s[at] == 0x5Eu8 ==> stands_for(s, at, 1, Code::Rem_Un, "rem.un"@, OperandType::InlineNone),
        s[at] == 0x5Fu8 ==> stands_for(s, at, 1, Code::And, "and"@, OperandType::InlineNone),
        s[at] == 0x60u8 ==> stands_for(s, at, 1, Code::Or, "or"@, OperandType::InlineNone),
        s[at] == 0x61u8 ==> stands_for(s, at, 1, Code::Xor, "xor"@, OperandType::InlineNone),
        s[at] == 0x62u8 ==> stands_for(s, at, 1, Code::Shl, "shl"@, OperandType::InlineNone),
        s[at] == 0x63u8 ==> stands_for(s, at, 1, Code::Shr, "shr"@, OperandType::InlineNone),
        s[at] == 0x64u8 ==> stands_for(s, at, 1, Code::Shr_Un, "shr.un"@, OperandType::InlineNone),
{
    reveal(opcodes::one_byte_code);
    reveal(opcodes::two_byte_code);
    reveal(opcodes::mnemonic);
    reveal(opcodes::operand_type);
    reveal(opcodes::second_byte);
    reveal(opcodes::escaped);
    assert(s.subrange(at, at + 1) =~= seq![s[at]]);
}

/// The single-byte instructions from `0x65` to `0x7F`.
#[verifier::rlimit(100)]
#[verifier::spinoff_prover]
pub proof fn opcodes_0x65_to_0x7f(s: Seq<u8>, at: int)
    requires
        0 <= at < s.len(),
    ensures
        s[at] == 0x65u8 ==> stands_for(s, at, 1, Code::Neg, "neg"@, OperandType::InlineNone),
        s[at] == 0x66u8 ==> stands_for(s, at, 1, Code::Not, "not"@, OperandType::InlineNone),
        s[at] == 0x67u8 ==> stands_for(s, at, 1, Code::Conv_I1, "conv.i1"@, OperandType::InlineNone),
        s[at] == 0x68u8 ==> stands_for(s, at, 1, Code::Conv_I2, "conv.i2"@, OperandType::InlineNone),
        s[at] == 0x69u8 ==> stands_for(s, at, 1, Code::Conv_I4, "conv.i4"@, OperandType::InlineNone),
        s[at] == 0x6Au8 ==> stands_for(s, at, 1, Code::Conv_I8, "conv.i8"@, OperandType::InlineNone),
        s[at] == 0x6Bu8 ==> stands_for(s, at, 1, Code::Conv_R4, "conv.r4"@, OperandType::InlineNone),
        s[at] == 0x6Cu8 ==> stands_for(s, at, 1, Code::Conv_R8, "conv.r8"@, OperandType::InlineNone),
        s[at] == 0x6Du8 ==> stands_for(s, at, 1, Code::Conv_U4, "conv.u4"@, OperandType::InlineNone),
        s[at] == 0x6Eu8 ==> stands_for(s, at, 1, Code::Conv_U8, "conv.u8"@, OperandType::InlineNone),
        s[at] == 0x6Fu8 ==> stands_for(s, at, 1, Code::Callvirt, "callvirt"@, OperandType::InlineMethod),
        s[at] == 0x70u8 ==> stands_for(s, at, 1, Code::Cpobj, "cpobj"@, OperandType::InlineType),
        s[at] == 0x71u8 ==> stands_for(s, at, 1, Code::Ldobj, "ldobj"@, OperandType::InlineType),
        s[at] == 0x72u8 ==> stands_for(s, at, 1, Code::Ldstr, "ldstr"@, OperandType::InlineString),
        s[at] == 0x73u8 ==> stands_for(s, at, 1, Code::Newobj, "newobj"@, OperandType::InlineMethod),
        s[at] == 0x74u8 ==> stands_for(s, at, 1, Code::Castclass, "castclass"@, OperandType::InlineType),
        s[at] == 0x75u8 ==> stands_for(s, at, 1, Code::Isinst, "isinst"@, OperandType::InlineType),
        s[at] == 0x76u8 ==> stands_for(s, at, 1, Code::Conv_R_Un, "conv.r.un"@, OperandType::InlineNone),
        s[at] == 0x79u8 ==> stands_for(s, at, 1, Code::Unbox, "unbox"@, OperandType::InlineType),
        s[at] == 0x7Au8 ==> stands_for(s, at, 1, Code::Throw, "throw"@, OperandType::InlineNone),
        s[at] == 0x7Bu8 ==> stands_for(s, at, 1, Code::Ldfld, "ldfld"@, OperandType::InlineField),
        s[at] == 0x7Cu8 ==> stands_for(s, at, 1, Code::Ldflda, "ldflda"@, OperandType::InlineField),
        s[at] == 0x7Du8 ==> stands_for(s, at, 1, Code::Stfld, "stfld"@, OperandType::InlineField),
        s[at] == 0x7Eu8 ==> stands_for(s, at, 1, Code::Ldsfld, "ldsfld"@, OperandType::InlineField),
        s[at] == 0x7Fu8 ==> stands_for(s, at, 1, Code::Ldsflda, "ldsflda"@, OperandType::InlineField),
{
    reveal(opcodes::one_byte_code);
    reveal(opcodes::two_byte_code);
    reveal(opcodes::mnemonic);
    reveal(opcodes::operand_type);
    reveal(opcodes::second_byte);
    reveal(opcodes::escaped);
    assert(s.subrange(at, at + 1) =~= seq![s[at]]);
}

/// The single-byte instructions from `0x80` to `0x98`.
#[verifier::rlimit(100)]
#[verifier::spinoff_prover]
pub proof fn opcodes_0x80_to_0x98(s: Seq<u8>, at: int)
    requires
        0 <= at < s.len(),
    ensures
        s[at] == 0x80u8 ==> stands_for(s, at, 1, Code::Stsfld, "stsfld"@, OperandType::InlineField),
        s[at] == 0x81u8 ==> stands_for(s, at, 1, Code::Stobj, "stobj"@, OperandType::InlineType),
        s[at] == 0x82u8 ==> stands_for(s, at, 1, Code::Conv_Ovf_I1_Un, "conv.ovf.i1.un"@, OperandType::InlineNone),
        s[at] == 0x83u8 ==> stands_for(s, at, 1, Code::Conv_Ovf_I2_Un, "conv.ovf.i2.un"@, OperandType::InlineNone),
        s[at] == 0x84u8 ==> stands_for(s, at, 1, Code::Conv_Ovf_I4_Un, "conv.ovf.i4.un"@, OperandType::InlineNone),
        s[at] == 0x85u8 ==> stands_for(s, at, 1, Code::Conv_Ovf_I8_Un, "conv.ovf.i8.un"@, OperandType::InlineNone),
        s[at] == 0x86u8 ==> stands_for(s, at, 1, Code::Conv_Ovf_U1_Un, "conv.ovf.u1.un"@, OperandType::InlineNone),
        s[at] == 0x87u8 ==> stands_for(s, at, 1, Code::Conv_Ovf_U2_Un, "conv.ovf.u2.un"@, OperandType::InlineNone),
        s[at] == 0x88u8 ==> stands_for(s, at, 1, Code::Conv_Ovf_U4_Un, "conv.ovf.u4.un"@, OperandType::InlineNone),
        s[at] == 0x89u8 ==> stands_for(s, at, 1, Code::Conv_Ovf_U8_Un, "conv.ovf.u8.un"@, OperandType::InlineNone),
        s[at] == 0x8Au8 ==> stands_for(s, at, 1, Code::Conv_Ovf_I_Un, "conv.ovf.i.un"@, OperandType::InlineNone),
        s[at] == 0x8Bu8 ==> stands_for(s, at, 1, Code::Conv_Ovf_U_Un, "conv.ovf.u.un"@, OperandType::InlineNone),
        s[at] == 0x8Cu8 ==> stands_for(s, at, 1, Code::Box, "box"@, OperandType::InlineType),
        s[at] == 0x8Du8 ==> stands_for(s, at, 1, Code::Newarr, "newarr"@, OperandType::InlineType),
        s[at] == 0x8Eu8 ==> stands_for(s, at, 1, Code::Ldlen, "ldlen"@, OperandType::InlineNone),
        s[at] == 0x8Fu8 ==> stands_for(s, at, 1, Code::Ldelema, "ldelema"@, OperandType::InlineType),
        s[at] == 0x90u8 ==> stands_for(s, at, 1, Code::Ldelem_I1, "ldelem.i1"@, OperandType::InlineNone),
        s[at] == 0x91u8 ==> stands_for(s, at, 1, Code::Ldelem_U1, "ldelem.u1"@, OperandType::InlineNone),
        s[at] == 0x92u8 ==> stands_for(s, at, 1, Code::Ldelem_I2, "ldelem.i2"@, OperandType::InlineNone),
        s[at] == 0x93u8 ==> stands_for(s, at, 1, Code::Ldelem_U2, "ldelem.u2"@, OperandType::InlineNone),
        s[at] == 0x94u8 ==> stands_for(s, at, 1, Code::Ldelem_I4, "ldelem.i4"@, OperandType::InlineNone),
        s[at] == 0x95u8 ==> stands_for(s, at, 1, Code::Ldelem_U4, "ldelem.u4"@, OperandType::InlineNone),
        s[at] == 0x96u8 ==> stands_for(s, at, 1, Code::Ldelem_I8, "ldelem.i8"@, OperandType::InlineNone),
        s[at] == 0x97u8 ==> stands_for(s, at, 1, Code::Ldelem_I, "ldelem.i"@, OperandType::InlineNone),
        s[at] == 0x98u8 ==> stands_for(s, at, 1, Code::Ldelem_R4, "ldelem.r4"@, OperandType::InlineNone),
{
    reveal(opcodes::one_byte_code);
    reveal(opcodes::two_byte_code);
    reveal(opcodes::mnemonic);
    reveal(opcodes::operand_type);
    reveal(opcodes::second_byte);
    reveal(opcodes::escaped);
    assert(s.subrange(at, at + 1) =~= seq![s[at]]);
}

/// The single-byte instructions from `0x99` to `0xD0`.
#[verifier::rlimit(100)]
#[verifier::spinoff_prover]
pub proof fn opcodes_0x99_to_0xd0(s: Seq<u8>, at: int)
    requires
        0 <= at < s.len(),
    ensures
        s[at] == 0x99u8 ==> stands_for(s, at, 1, Code::Ldelem_R8, "ldelem.r8"@, OperandType::InlineNone),
        s[at] == 0x9Au8 ==> stands_for(s, at, 1, Code::Ldelem_Ref, "ldelem.ref"@, OperandType::InlineNone),
        s[at] == 0x9Bu8 ==> stands_for(s, at, 1, Code::Stelem_I, "stelem.i"@, OperandType::InlineNone),
        s[at] == 0x9Cu8 ==> stands_for(s, at, 1, Code::Stelem_I1, "stelem.i1"@, OperandType::InlineNone),
        s[at] == 0x9Du8 ==> stands_for(s, at, 1, Code::Stelem_I2, "stelem.i2"@, OperandType::InlineNone),
        s[at] == 0x9Eu8 ==> stands_for(s, at, 1, Code::Stelem_I4, "stelem.i4"@, OperandType::InlineNone),
        s[at] == 0x9Fu8 ==> stands_for(s, at, 1, Code::Stelem_I8, "stelem.i8"@, OperandType::InlineNone),
        s[at] == 0xA0u8 ==> stands_for(s, at, 1, Code::Stelem_R4, "stelem.r4"@, OperandType::InlineNone),
        s[at] == 0xA1u8 ==> stands_for(s, at, 1, Code::Stelem_R8, "stelem.r8"@, OperandType::InlineNone),
        s[at] == 0xA2u8 ==> stands_for(s, at, 1, Code::Stelem_Ref, "stelem.ref"@, OperandType::InlineNone),
        s[at] == 0xA3u8 ==> stands_for(s, at, 1, Code::Ldelem_Any, "ldelem.any"@, OperandType::InlineType),
        s[at] == 0xA4u8 ==> stands_for(s, at, 1, Code::Stelem_Any, "stelem.any"@, OperandType::InlineType),
        s[at] == 0xA5u8 ==> stands_for(s, at, 1, Code::Unbox_Any, "unbox.any"@, OperandType::InlineType),
        s[at] == 0xB3u8 ==> stands_for(s, at, 1, Code::Conv_Ovf_I1, "conv.ovf.i1"@, OperandType::InlineNone),
        s[at] == 0xB4u8 ==> stands_for(s, at, 1, Code::Conv_Ovf_U1, "conv.ovf.u1"@, OperandType::InlineNone),
        s[at] == 0xB5u8 ==> stands_for(s, at, 1, Code::Conv_Ovf_I2, "conv.ovf.i2"@, OperandType::InlineNone),
        s[at] == 0xB6u8 ==> stands_for(s, at, 1, Code::Conv_Ovf_U2, "conv.ovf.u2"@, OperandType::InlineNone),
        s[at] == 0xB7u8 ==> stands_for(s, at, 1, Code::Conv_Ovf_I4, "conv.ovf.i4"@, OperandType::InlineNone),
        s[at] == 0xB8u8 ==> stands_for(s, at, 1, Code::Conv_Ovf_U4, "conv.ovf.u4"@, OperandType::InlineNone),
        s[at] == 0xB9u8 ==> stands_for(s, at, 1, Code::Conv_Ovf_I8, "conv.ovf.i8"@, OperandType::InlineNone),
        s[at] == 0xBAu8 ==> stands_for(s, at, 1, Code::Conv_Ovf_U8, "conv.ovf.u8"@, OperandType::InlineNone),
        s[at] == 0xC2u8 ==> stands_for(s, at, 1, Code::Refanyval, "refanyval"@, OperandType::InlineType),
        s[at] == 0xC3u8 ==> stands_for(s, at, 1, Code::Ckfinite, "ckfinite"@, OperandType::InlineNone),
        s[at] == 0xC6u8 ==> stands_for(s, at, 1, Code::Mkrefany, "mkrefany"@, OperandType::InlineType),
        s[at] == 0xD0u8 ==> stands_for(s, at, 1, Code::Ldtoken, "ldtoken"@, OperandType::InlineTok),
{
    reveal(opcodes::one_byte_code);
    reveal(opcodes::two_byte_code);
    reveal(opcodes::mnemonic);
    reveal(opcodes::operand_type);
    reveal(opcodes::second_byte);
    reveal(opcodes::escaped);
    assert(s.subrange(at, at + 1) =~= seq![s[at]]);
}

/// The single-byte instructions from `0xD1` to `0xE0`.
#[verifier::rlimit(100)]
#[verifier::spinoff_prover]
pub proof fn opcodes_0xd1_to_0xe0(s: Seq<u8>, at: int)
    requires
        0 <= at < s.len(),
    ensures
        s[at] == 0xD1u8 ==> stands_for(s, at, 1, Code::Conv_U2, "conv.u2"@, OperandType::InlineNone),
        s[at] == 0xD2u8 ==> stands_for(s, at, 1, Code::Conv_U1, "conv.u1"@, OperandType::InlineNone),
        s[at] == 0xD3u8 ==> stands_for(s, at, 1, Code::Conv_I, "conv.i"@, OperandType::InlineNone),
        s[at] == 0xD4u8 ==> stands_for(s, at, 1, Code::Conv_Ovf_I, "conv.ovf.i"@, OperandType::InlineNone),
        s[at] == 0xD5u8 ==> stands_for(s, at, 1, Code::Conv_Ovf_U, "conv.ovf.u"@, OperandType::InlineNone),
        s[at] == 0xD6u8 ==> stands_for(s, at, 1, Code::Add_Ovf, "add.ovf"@, OperandType::InlineNone),
        s[at] == 0xD7u8 ==> stands_for(s, at, 1, Code::Add_Ovf_Un, "add.ovf.un"@, OperandType::InlineNone),
        s[at] == 0xD8u8 ==> stands_for(s, at, 1, Code::Mul_Ovf, "mul.ovf"@, OperandType::InlineNone),
        s[at] == 0xD9u8 ==> stands_for(s, at, 1, Code::Mul_Ovf_Un, "mul.ovf.un"@, OperandType::InlineNone),
        s[at] == 0xDAu8 ==> stands_for(s, at, 1, Code::Sub_Ovf, "sub.ovf"@, OperandType::InlineNone),
        s[at] == 0xDBu8 ==> stands_for(s, at, 1, Code::Sub_Ovf_Un, "sub.ovf.un"@, OperandType::InlineNone),
        s[at] == 0xDCu8 ==> stands_for(s, at, 1, Code::Endfinally, "endfinally"@, OperandType::InlineNone),
        s[at] == 0xDDu8 ==> stands_for(s, at, 1, Code::Leave, "leave"@, OperandType::InlineBrTarget),
        s[at] == 0xDEu8 ==> stands_for(s, at, 1, Code::Leave_S, "leave.s"@, OperandType::ShortInlineBrTarget),
        s[at] == 0xDFu8 ==> stands_for(s, at, 1, Code::Stind_I, "stind.i"@, OperandType::InlineNone),
        s[at] == 0xE0u8 ==> stands_for(s, at, 1, Code::Conv_U, "conv.u"@, OperandType::InlineNone),
{
    reveal(opcodes::one_byte_code);
    reveal(opcodes::two_byte_code);
    reveal(opcodes::mnemonic);
    reveal(opcodes::operand_type);
    reveal(opcodes::second_byte);
    reveal(opcodes::escaped);
    assert(s.subrange(at, at + 1) =~= seq![s[at]]);
}

/// The instructions behind the escape byte `0xFE`.
#[verifier::rlimit(100)]
#[verifier::spinoff_prover]
pub proof fn escaped_opcodes(s: Seq<u8>, at: int)
    requires
        0 <= at < s.len(),
        at + 1 < s.len(),
        s[at] == 0xFE,
    ensures
        s[at + 1] == 0x00u8 ==> stands_for(s, at, 2, Code::Arglist, "arglist"@, OperandType::InlineNone),
        s[at + 1] == 0x01u8 ==> stands_for(s, at, 2, Code::Ceq, "ceq"@, OperandType::InlineNone),
        s[at + 1] == 0x02u8 ==> stands_for(s, at, 2, Code::Cgt, "cgt"@, OperandType::InlineNone),
        s[at + 1] == 0x03u8 ==> stands_for(s, at, 2, Code::Cgt_Un, "cgt.un"@, OperandType::InlineNone),
        s[at + 1] == 0x04u8 ==> stands_for(s, at, 2, Code::Clt, "clt"@, OperandType::InlineNone),
        s[at + 1] == 0x05u8 ==> stands_for(s, at, 2, Code::Clt_Un, "clt.un"@, OperandType::InlineNone),
        s[at + 1] == 0x06u8 ==> stands_for(s, at, 2, Code::Ldftn, "ldftn"@, OperandType::InlineMethod),
        s[at + 1] == 0x07u8 ==> stands_for(s, at, 2, Code::Ldvirtftn, "ldvirtftn"@, OperandType::InlineMethod),
        s[at + 1] == 0x09u8 ==> stands_for(s, at, 2, Code::Ldarg, "ldarg"@, OperandType::InlineArg),
        s[at + 1] == 0x0Au8 ==> stands_for(s, at, 2, Code::Ldarga, "ldarga"@, OperandType::InlineArg),
        s[at + 1] == 0x0Bu8 ==> stands_for(s, at, 2, Code::Starg, "starg"@, OperandType::InlineArg),
        s[at + 1] == 0x0Cu8 ==> stands_for(s, at, 2, Code::Ldloc, "ldloc"@, OperandType::InlineVar),
        s[at + 1] == 0x0Du8 ==> stands_for(s, at, 2, Code::Ldloca, "ldloca"@, OperandType::InlineVar),
        s[at + 1] == 0x0Eu8 ==> stands_for(s, at, 2, Code::Stloc, "stloc"@, OperandType::InlineVar),
        s[at + 1] == 0x0Fu8 ==> stands_for(s, at, 2, Code::Localloc, "localloc"@, OperandType::InlineNone),
        s[at + 1] == 0x11u8 ==> stands_for(s, at, 2, Code::Endfilter, "endfilter"@, OperandType::InlineNone),
        s[at + 1] == 0x12u8 ==> stands_for(s, at, 2, Code::Unaligned, "unaligned."@, OperandType::ShortInlineI),
        s[at + 1] == 0x13u8 ==> stands_for(s, at, 2, Code::Volatile, "volatile."@, OperandType::InlineNone),
        s[at + 1] == 0x14u8 ==> stands_for(s, at, 2, Code::Tail, "tail."@, OperandType::InlineNone),
        s[at + 1] == 0x15u8 ==> stands_for(s, at, 2, Code::Initobj, "initobj"@, OperandType::InlineType),
        s[at + 1] == 0x16u8 ==> stands_for(s, at, 2, Code::Constrained, "constrained."@, OperandType::InlineType),
        s[at + 1] == 0x17u8 ==> stands_for(s, at, 2, Code::Cpblk, "cpblk"@, OperandType::InlineNone),
        s[at + 1] == 0x18u8 ==> stands_for(s, at, 2, Code::Initblk, "initblk"@, OperandType::InlineNone),
        s[at + 1] == 0x19u8 ==> stands_for(s, at, 2, Code::No, "no."@, OperandType::ShortInlineI),
        s[at + 1] == 0x1Au8 ==> stands_for(s, at, 2, Code::Rethrow, "rethrow"@, OperandType::InlineNone),
        s[at + 1] == 0x1Cu8 ==> stands_for(s, at, 2, Code::Sizeof, "sizeof"@, OperandType::InlineType),
        s[at + 1] == 0x1Du8 ==> stands_for(s, at, 2, Code::Refanytype, "refanytype"@, OperandType::InlineNone),
        s[at + 1] == 0x1Eu8 ==> stands_for(s, at, 2, Code::Readonly, "readonly."@, OperandType::InlineNone),
{
    reveal(opcodes::one_byte_code);
    reveal(opcodes::two_byte_code);
    reveal(opcodes::mnemonic);
    reveal(opcodes::operand_type);
    reveal(opcodes::second_byte);
    reveal(opcodes::escaped);
    assert(s.subrange(at, at + 2) =~= seq![s[at], s[at + 1]]);
}

/// No other byte values stand for instructions.
#[verifier::rlimit(50)]
pub proof fn no_other_opcodes(s: Seq<u8>, at: int)
    requires
        0 <= at < s.len(),
    ensures
        s[at] != 0xFE ==> (body::code_at(s, at) is Some <==> (0x00 <= s[at] <= 0x23
            || 0x25 <= s[at] <= 0x76
            || 0x79 <= s[at] <= 0xA5
            || 0xB3 <= s[at] <= 0xBA
            || 0xC2 <= s[at] <= 0xC3
            || s[at] == 0xC6
            || 0xD0 <= s[at] <= 0xE0)),
        s[at] == 0xFE ==> (body::code_at(s, at) is Some <==> at + 1 < s.len() && (0x00 <= s[at + 1] <= 0x07
            || 0x09 <= s[at + 1] <= 0x0F
            || 0x11 <= s[at + 1] <= 0x1A
            || 0x1C <= s[at + 1] <= 0x1E)),
{
    reveal(opcodes::one_byte_code);
    reveal(opcodes::two_byte_code);
}

} // verus!
