//! The complete CIL opcode table.
//!
//! Every entry carries the exact byte encoding: single-byte instructions use
//! prefix `0xFF`, two-byte instructions the `0xFE` escape prefix.

use vstd::prelude::*;

use crate::cil::code::Code;
use crate::cil::opcode::{OpCode, OpCodeView, OperandType};

verus! {

/// The canonical IL mnemonic.
#[verifier::opaque]
pub open spec fn mnemonic(code: Code) -> Seq<char> {
    match code {
        Code::Nop => "nop"@,
        Code::Break => "break"@,
        Code::Ldarg_0 => "ldarg.0"@,
        Code::Ldarg_1 => "ldarg.1"@,
        Code::Ldarg_2 => "ldarg.2"@,
        Code::Ldarg_3 => "ldarg.3"@,
        Code::Ldloc_0 => "ldloc.0"@,
        Code::Ldloc_1 => "ldloc.1"@,
        Code::Ldloc_2 => "ldloc.2"@,
        Code::Ldloc_3 => "ldloc.3"@,
        Code::Stloc_0 => "stloc.0"@,
        Code::Stloc_1 => "stloc.1"@,
        Code::Stloc_2 => "stloc.2"@,
        Code::Stloc_3 => "stloc.3"@,
        Code::Ldarg_S => "ldarg.s"@,
        Code::Ldarga_S => "ldarga.s"@,
        Code::Starg_S => "starg.s"@,
        Code::Ldloc_S => "ldloc.s"@,
        Code::Ldloca_S => "ldloca.s"@,
        Code::Stloc_S => "stloc.s"@,
        Code::Ldnull => "ldnull"@,
        Code::Ldc_I4_M1 => "ldc.i4.m1"@,
        Code::Ldc_I4_0 => "ldc.i4.0"@,
        Code::Ldc_I4_1 => "ldc.i4.1"@,
        Code::Ldc_I4_2 => "ldc.i4.2"@,
        Code::Ldc_I4_3 => "ldc.i4.3"@,
        Code::Ldc_I4_4 => "ldc.i4.4"@,
        Code::Ldc_I4_5 => "ldc.i4.5"@,
        Code::Ldc_I4_6 => "ldc.i4.6"@,
        Code::Ldc_I4_7 => "ldc.i4.7"@,
        Code::Ldc_I4_8 => "ldc.i4.8"@,
        Code::Ldc_I4_S => "ldc.i4.s"@,
        Code::Ldc_I4 => "ldc.i4"@,
        Code::Ldc_I8 => "ldc.i8"@,
        Code::Ldc_R4 => "ldc.r4"@,
        Code::Ldc_R8 => "ldc.r8"@,
        Code::Dup => "dup"@,
        Code::Pop => "pop"@,
        Code::Jmp => "jmp"@,
        Code::Call => "call"@,
        Code::Calli => "calli"@,
        Code::Ret => "ret"@,
        Code::Br_S => "br.s"@,
        Code::Brfalse_S => "brfalse.s"@,
        Code::Brtrue_S => "brtrue.s"@,
        Code::Beq_S => "beq.s"@,
        Code::Bge_S => "bge.s"@,
        Code::Bgt_S => "bgt.s"@,
        Code::Ble_S => "ble.s"@,
        Code::Blt_S => "blt.s"@,
        Code::Bne_Un_S => "bne.un.s"@,
        Code::Bge_Un_S => "bge.un.s"@,
        Code::Bgt_Un_S => "bgt.un.s"@,
        Code::Ble_Un_S => "ble.un.s"@,
        Code::Blt_Un_S => "blt.un.s"@,
        Code::Br => "br"@,
        Code::Brfalse => "brfalse"@,
        Code::Brtrue => "brtrue"@,
        Code::Beq => "beq"@,
        Code::Bge => "bge"@,
        Code::Bgt => "bgt"@,
        Code::Ble => "ble"@,
        Code::Blt => "blt"@,
        Code::Bne_Un => "bne.un"@,
        Code::Bge_Un => "bge.un"@,
        Code::Bgt_Un => "bgt.un"@,
        Code::Ble_Un => "ble.un"@,
        Code::Blt_Un => "blt.un"@,
        Code::Switch => "switch"@,
        Code::Ldind_I1 => "ldind.i1"@,
        Code::Ldind_U1 => "ldind.u1"@,
        Code::Ldind_I2 => "ldind.i2"@,
        Code::Ldind_U2 => "ldind.u2"@,
        Code::Ldind_I4 => "ldind.i4"@,
        Code::Ldind_U4 => "ldind.u4"@,
        Code::Ldind_I8 => "ldind.i8"@,
        Code::Ldind_I => "ldind.i"@,
        Code::Ldind_R4 => "ldind.r4"@,
        Code::Ldind_R8 => "ldind.r8"@,
        Code::Ldind_Ref => "ldind.ref"@,
        Code::Stind_Ref => "stind.ref"@,
        Code::Stind_I1 => "stind.i1"@,
        Code::Stind_I2 => "stind.i2"@,
        Code::Stind_I4 => "stind.i4"@,
        Code::Stind_I8 => "stind.i8"@,
        Code::Stind_R4 => "stind.r4"@,
        Code::Stind_R8 => "stind.r8"@,
        Code::Add => "add"@,
        Code::Sub => "sub"@,
        Code::Mul => "mul"@,
        Code::Div => "div"@,
        Code::Div_Un => "div.un"@,
        Code::Rem => "rem"@,
        Code::Rem_Un => "rem.un"@,
        Code::And => "and"@,
        Code::Or => "or"@,
        Code::Xor => "xor"@,
        Code::Shl => "shl"@,
        Code::Shr => "shr"@,
        Code::Shr_Un => "shr.un"@,
        Code::Neg => "neg"@,
        Code::Not => "not"@,
        Code::Conv_I1 => "conv.i1"@,
        Code::Conv_I2 => "conv.i2"@,
        Code::Conv_I4 => "conv.i4"@,
        Code::Conv_I8 => "conv.i8"@,
        Code::Conv_R4 => "conv.r4"@,
        Code::Conv_R8 => "conv.r8"@,
        Code::Conv_U4 => "conv.u4"@,
        Code::Conv_U8 => "conv.u8"@,
        Code::Callvirt => "callvirt"@,
        Code::Cpobj => "cpobj"@,
        Code::Ldobj => "ldobj"@,
        Code::Ldstr => "ldstr"@,
        Code::Newobj => "newobj"@,
        Code::Castclass => "castclass"@,
        Code::Isinst => "isinst"@,
        Code::Conv_R_Un => "conv.r.un"@,
        Code::Unbox => "unbox"@,
        Code::Throw => "throw"@,
        Code::Ldfld => "ldfld"@,
        Code::Ldflda => "ldflda"@,
        Code::Stfld => "stfld"@,
        Code::Ldsfld => "ldsfld"@,
        Code::Ldsflda => "ldsflda"@,
        Code::Stsfld => "stsfld"@,
        Code::Stobj => "stobj"@,
        Code::Conv_Ovf_I1_Un => "conv.ovf.i1.un"@,
        Code::Conv_Ovf_I2_Un => "conv.ovf.i2.un"@,
        Code::Conv_Ovf_I4_Un => "conv.ovf.i4.un"@,
        Code::Conv_Ovf_I8_Un => "conv.ovf.i8.un"@,
        Code::Conv_Ovf_U1_Un => "conv.ovf.u1.un"@,
        Code::Conv_Ovf_U2_Un => "conv.ovf.u2.un"@,
        Code::Conv_Ovf_U4_Un => "conv.ovf.u4.un"@,
        Code::Conv_Ovf_U8_Un => "conv.ovf.u8.un"@,
        Code::Conv_Ovf_I_Un => "conv.ovf.i.un"@,
        Code::Conv_Ovf_U_Un => "conv.ovf.u.un"@,
        Code::Box => "box"@,
        Code::Newarr => "newarr"@,
        Code::Ldlen => "ldlen"@,
        Code::Ldelema => "ldelema"@,
        Code::Ldelem_I1 => "ldelem.i1"@,
        Code::Ldelem_U1 => "ldelem.u1"@,
        Code::Ldelem_I2 => "ldelem.i2"@,
        Code::Ldelem_U2 => "ldelem.u2"@,
        Code::Ldelem_I4 => "ldelem.i4"@,
        Code::Ldelem_U4 => "ldelem.u4"@,
        Code::Ldelem_I8 => "ldelem.i8"@,
        Code::Ldelem_I => "ldelem.i"@,
        Code::Ldelem_R4 => "ldelem.r4"@,
        Code::Ldelem_R8 => "ldelem.r8"@,
        Code::Ldelem_Ref => "ldelem.ref"@,
        Code::Stelem_I => "stelem.i"@,
        Code::Stelem_I1 => "stelem.i1"@,
        Code::Stelem_I2 => "stelem.i2"@,
        Code::Stelem_I4 => "stelem.i4"@,
        Code::Stelem_I8 => "stelem.i8"@,
        Code::Stelem_R4 => "stelem.r4"@,
        Code::Stelem_R8 => "stelem.r8"@,
        Code::Stelem_Ref => "stelem.ref"@,
        Code::Ldelem_Any => "ldelem.any"@,
        Code::Stelem_Any => "stelem.any"@,
        Code::Unbox_Any => "unbox.any"@,
        Code::Conv_Ovf_I1 => "conv.ovf.i1"@,
        Code::Conv_Ovf_U1 => "conv.ovf.u1"@,
        Code::Conv_Ovf_I2 => "conv.ovf.i2"@,
        Code::Conv_Ovf_U2 => "conv.ovf.u2"@,
        Code::Conv_Ovf_I4 => "conv.ovf.i4"@,
        Code::Conv_Ovf_U4 => "conv.ovf.u4"@,
        Code::Conv_Ovf_I8 => "conv.ovf.i8"@,
        Code::Conv_Ovf_U8 => "conv.ovf.u8"@,
        Code::Refanyval => "refanyval"@,
        Code::Ckfinite => "ckfinite"@,
        Code::Mkrefany => "mkrefany"@,
        Code::Ldtoken => "ldtoken"@,
        Code::Conv_U2 => "conv.u2"@,
        Code::Conv_U1 => "conv.u1"@,
        Code::Conv_I => "conv.i"@,
        Code::Conv_Ovf_I => "conv.ovf.i"@,
        Code::Conv_Ovf_U => "conv.ovf.u"@,
        Code::Add_Ovf => "add.ovf"@,
        Code::Add_Ovf_Un => "add.ovf.un"@,
        Code::Mul_Ovf => "mul.ovf"@,
        Code::Mul_Ovf_Un => "mul.ovf.un"@,
        Code::Sub_Ovf => "sub.ovf"@,
        Code::Sub_Ovf_Un => "sub.ovf.un"@,
        Code::Endfinally => "endfinally"@,
        Code::Leave => "leave"@,
        Code::Leave_S => "leave.s"@,
        Code::Stind_I => "stind.i"@,
        Code::Conv_U => "conv.u"@,
        Code::Arglist => "arglist"@,
        Code::Ceq => "ceq"@,
        Code::Cgt => "cgt"@,
        Code::Cgt_Un => "cgt.un"@,
        Code::Clt => "clt"@,
        Code::Clt_Un => "clt.un"@,
        Code::Ldftn => "ldftn"@,
        Code::Ldvirtftn => "ldvirtftn"@,
        Code::Ldarg => "ldarg"@,
        Code::Ldarga => "ldarga"@,
        Code::Starg => "starg"@,
        Code::Ldloc => "ldloc"@,
        Code::Ldloca => "ldloca"@,
        Code::Stloc => "stloc"@,
        Code::Localloc => "localloc"@,
        Code::Endfilter => "endfilter"@,
        Code::Unaligned => "unaligned."@,
        Code::Volatile => "volatile."@,
        Code::Tail => "tail."@,
        Code::Initobj => "initobj"@,
        Code::Constrained => "constrained."@,
        Code::Cpblk => "cpblk"@,
        Code::Initblk => "initblk"@,
        Code::No => "no."@,
        Code::Rethrow => "rethrow"@,
        Code::Sizeof => "sizeof"@,
        Code::Refanytype => "refanytype"@,
        Code::Readonly => "readonly."@,
    }
}

/// The shape of the inline operand.
#[verifier::opaque]
pub open spec fn operand_type(code: Code) -> OperandType {
    match code {
        Code::Ldarg_S
        | Code::Ldarga_S
        | Code::Starg_S => OperandType::ShortInlineArg,
        Code::Ldloc_S
        | Code::Ldloca_S
        | Code::Stloc_S => OperandType::ShortInlineVar,
        Code::Ldc_I4_S
        | Code::Unaligned
        | Code::No => OperandType::ShortInlineI,
        Code::Ldc_I4 => OperandType::InlineI,
        Code::Ldc_I8 => OperandType::InlineI8,
        Code::Ldc_R4 => OperandType::ShortInlineR,
        Code::Ldc_R8 => OperandType::InlineR,
        Code::Jmp
        | Code::Call
        | Code::Callvirt
        | Code::Newobj
        | Code::Ldftn
        | Code::Ldvirtftn => OperandType::InlineMethod,
        Code::Calli => OperandType::InlineSig,
        Code::Br_S
        | Code::Brfalse_S
        | Code::Brtrue_S
        | Code::Beq_S
        | Code::Bge_S
        | Code::Bgt_S
        | Code::Ble_S
        | Code::Blt_S
        | Code::Bne_Un_S
        | Code::Bge_Un_S
        | Code::Bgt_Un_S
        | Code::Ble_Un_S
        | Code::Blt_Un_S
        | Code::Leave_S => OperandType::ShortInlineBrTarget,
        Code::Br
        | Code::Brfalse
        | Code::Brtrue
        | Code::Beq
        | Code::Bge
        | Code::Bgt
        | Code::Ble
        | Code::Blt
        | Code::Bne_Un
        | Code::Bge_Un
        | Code::Bgt_Un
        | Code::Ble_Un
        | Code::Blt_Un
        | Code::Leave => OperandType::InlineBrTarget,
        Code::Switch => OperandType::InlineSwitch,
        Code::Cpobj
        | Code::Ldobj
        | Code::Castclass
        | Code::Isinst
        | Code::Unbox
        | Code::Stobj
        | Code::Box
        | Code::Newarr
        | Code::Ldelema
        | Code::Ldelem_Any
        | Code::Stelem_Any
        | Code::Unbox_Any
        | Code::Refanyval
        | Code::Mkrefany
        | Code::Initobj
        | Code::Constrained
        | Code::Sizeof => OperandType::InlineType,
        Code::Ldstr => OperandType::InlineString,
        Code::Ldfld
        | Code::Ldflda
        | Code::Stfld
        | Code::Ldsfld
        | Code::Ldsflda
        | Code::Stsfld => OperandType::InlineField,
        Code::Ldtoken => OperandType::InlineTok,
        Code::Ldarg
        | Code::Ldarga
        | Code::Starg => OperandType::InlineArg,
        Code::Ldloc
        | Code::Ldloca
        | Code::Stloc => OperandType::InlineVar,
        _ => OperandType::InlineNone,
    }
}

/// The last byte of the encoding.
#[verifier::opaque]
pub open spec fn second_byte(code: Code) -> u8 {
    match code {
        Code::Nop => 0x00,
        Code::Break => 0x01,
        Code::Ldarg_0 => 0x02,
        Code::Ldarg_1 => 0x03,
        Code::Ldarg_2 => 0x04,
        Code::Ldarg_3 => 0x05,
        Code::Ldloc_0 => 0x06,
        Code::Ldloc_1 => 0x07,
        Code::Ldloc_2 => 0x08,
        Code::Ldloc_3 => 0x09,
        Code::Stloc_0 => 0x0A,
        Code::Stloc_1 => 0x0B,
        Code::Stloc_2 => 0x0C,
        Code::Stloc_3 => 0x0D,
        Code::Ldarg_S => 0x0E,
        Code::Ldarga_S => 0x0F,
        Code::Starg_S => 0x10,
        Code::Ldloc_S => 0x11,
        Code::Ldloca_S => 0x12,
        Code::Stloc_S => 0x13,
        Code::Ldnull => 0x14,
        Code::Ldc_I4_M1 => 0x15,
        Code::Ldc_I4_0 => 0x16,
        Code::Ldc_I4_1 => 0x17,
        Code::Ldc_I4_2 => 0x18,
        Code::Ldc_I4_3 => 0x19,
        Code::Ldc_I4_4 => 0x1A,
        Code::Ldc_I4_5 => 0x1B,
        Code::Ldc_I4_6 => 0x1C,
        Code::Ldc_I4_7 => 0x1D,
        Code::Ldc_I4_8 => 0x1E,
        Code::Ldc_I4_S => 0x1F,
        Code::Ldc_I4 => 0x20,
        Code::Ldc_I8 => 0x21,
        Code::Ldc_R4 => 0x22,
        Code::Ldc_R8 => 0x23,
        Code::Dup => 0x25,
        Code::Pop => 0x26,
        Code::Jmp => 0x27,
        Code::Call => 0x28,
        Code::Calli => 0x29,
        Code::Ret => 0x2A,
        Code::Br_S => 0x2B,
        Code::Brfalse_S => 0x2C,
        Code::Brtrue_S => 0x2D,
        Code::Beq_S => 0x2E,
        Code::Bge_S => 0x2F,
        Code::Bgt_S => 0x30,
        Code::Ble_S => 0x31,
        Code::Blt_S => 0x32,
        Code::Bne_Un_S => 0x33,
        Code::Bge_Un_S => 0x34,
        Code::Bgt_Un_S => 0x35,
        Code::Ble_Un_S => 0x36,
        Code::Blt_Un_S => 0x37,
        Code::Br => 0x38,
        Code::Brfalse => 0x39,
        Code::Brtrue => 0x3A,
        Code::Beq => 0x3B,
        Code::Bge => 0x3C,
        Code::Bgt => 0x3D,
        Code::Ble => 0x3E,
        Code::Blt => 0x3F,
        Code::Bne_Un => 0x40,
        Code::Bge_Un => 0x41,
        Code::Bgt_Un => 0x42,
        Code::Ble_Un => 0x43,
        Code::Blt_Un => 0x44,
        Code::Switch => 0x45,
        Code::Ldind_I1 => 0x46,
        Code::Ldind_U1 => 0x47,
        Code::Ldind_I2 => 0x48,
        Code::Ldind_U2 => 0x49,
        Code::Ldind_I4 => 0x4A,
        Code::Ldind_U4 => 0x4B,
        Code::Ldind_I8 => 0x4C,
        Code::Ldind_I => 0x4D,
        Code::Ldind_R4 => 0x4E,
        Code::Ldind_R8 => 0x4F,
        Code::Ldind_Ref => 0x50,
        Code::Stind_Ref => 0x51,
        Code::Stind_I1 => 0x52,
        Code::Stind_I2 => 0x53,
        Code::Stind_I4 => 0x54,
        Code::Stind_I8 => 0x55,
        Code::Stind_R4 => 0x56,
        Code::Stind_R8 => 0x57,
        Code::Add => 0x58,
        Code::Sub => 0x59,
        Code::Mul => 0x5A,
        Code::Div => 0x5B,
        Code::Div_Un => 0x5C,
        Code::Rem => 0x5D,
        Code::Rem_Un => 0x5E,
        Code::And => 0x5F,
        Code::Or => 0x60,
        Code::Xor => 0x61,
        Code::Shl => 0x62,
        Code::Shr => 0x63,
        Code::Shr_Un => 0x64,
        Code::Neg => 0x65,
        Code::Not => 0x66,
        Code::Conv_I1 => 0x67,
        Code::Conv_I2 => 0x68,
        Code::Conv_I4 => 0x69,
        Code::Conv_I8 => 0x6A,
        Code::Conv_R4 => 0x6B,
        Code::Conv_R8 => 0x6C,
        Code::Conv_U4 => 0x6D,
        Code::Conv_U8 => 0x6E,
        Code::Callvirt => 0x6F,
        Code::Cpobj => 0x70,
        Code::Ldobj => 0x71,
        Code::Ldstr => 0x72,
        Code::Newobj => 0x73,
        Code::Castclass => 0x74,
        Code::Isinst => 0x75,
        Code::Conv_R_Un => 0x76,
        Code::Unbox => 0x79,
        Code::Throw => 0x7A,
        Code::Ldfld => 0x7B,
        Code::Ldflda => 0x7C,
        Code::Stfld => 0x7D,
        Code::Ldsfld => 0x7E,
        Code::Ldsflda => 0x7F,
        Code::Stsfld => 0x80,
        Code::Stobj => 0x81,
        Code::Conv_Ovf_I1_Un => 0x82,
        Code::Conv_Ovf_I2_Un => 0x83,
        Code::Conv_Ovf_I4_Un => 0x84,
        Code::Conv_Ovf_I8_Un => 0x85,
        Code::Conv_Ovf_U1_Un => 0x86,
        Code::Conv_Ovf_U2_Un => 0x87,
        Code::Conv_Ovf_U4_Un => 0x88,
        Code::Conv_Ovf_U8_Un => 0x89,
        Code::Conv_Ovf_I_Un => 0x8A,
        Code::Conv_Ovf_U_Un => 0x8B,
        Code::Box => 0x8C,
        Code::Newarr => 0x8D,
        Code::Ldlen => 0x8E,
        Code::Ldelema => 0x8F,
        Code::Ldelem_I1 => 0x90,
        Code::Ldelem_U1 => 0x91,
        Code::Ldelem_I2 => 0x92,
        Code::Ldelem_U2 => 0x93,
        Code::Ldelem_I4 => 0x94,
        Code::Ldelem_U4 => 0x95,
        Code::Ldelem_I8 => 0x96,
        Code::Ldelem_I => 0x97,
        Code::Ldelem_R4 => 0x98,
        Code::Ldelem_R8 => 0x99,
        Code::Ldelem_Ref => 0x9A,
        Code::Stelem_I => 0x9B,
        Code::Stelem_I1 => 0x9C,
        Code::Stelem_I2 => 0x9D,
        Code::Stelem_I4 => 0x9E,
        Code::Stelem_I8 => 0x9F,
        Code::Stelem_R4 => 0xA0,
        Code::Stelem_R8 => 0xA1,
        Code::Stelem_Ref => 0xA2,
        Code::Ldelem_Any => 0xA3,
        Code::Stelem_Any => 0xA4,
        Code::Unbox_Any => 0xA5,
        Code::Conv_Ovf_I1 => 0xB3,
        Code::Conv_Ovf_U1 => 0xB4,
        Code::Conv_Ovf_I2 => 0xB5,
        Code::Conv_Ovf_U2 => 0xB6,
        Code::Conv_Ovf_I4 => 0xB7,
        Code::Conv_Ovf_U4 => 0xB8,
        Code::Conv_Ovf_I8 => 0xB9,
        Code::Conv_Ovf_U8 => 0xBA,
        Code::Refanyval => 0xC2,
        Code::Ckfinite => 0xC3,
        Code::Mkrefany => 0xC6,
        Code::Ldtoken => 0xD0,
        Code::Conv_U2 => 0xD1,
        Code::Conv_U1 => 0xD2,
        Code::Conv_I => 0xD3,
        Code::Conv_Ovf_I => 0xD4,
        Code::Conv_Ovf_U => 0xD5,
        Code::Add_Ovf => 0xD6,
        Code::Add_Ovf_Un => 0xD7,
        Code::Mul_Ovf => 0xD8,
        Code::Mul_Ovf_Un => 0xD9,
        Code::Sub_Ovf => 0xDA,
        Code::Sub_Ovf_Un => 0xDB,
        Code::Endfinally => 0xDC,
        Code::Leave => 0xDD,
        Code::Leave_S => 0xDE,
        Code::Stind_I => 0xDF,
        Code::Conv_U => 0xE0,
        Code::Arglist => 0x00,
        Code::Ceq => 0x01,
        Code::Cgt => 0x02,
        Code::Cgt_Un => 0x03,
        Code::Clt => 0x04,
        Code::Clt_Un => 0x05,
        Code::Ldftn => 0x06,
        Code::Ldvirtftn => 0x07,
        Code::Ldarg => 0x09,
        Code::Ldarga => 0x0A,
        Code::Starg => 0x0B,
        Code::Ldloc => 0x0C,
        Code::Ldloca => 0x0D,
        Code::Stloc => 0x0E,
        Code::Localloc => 0x0F,
        Code::Endfilter => 0x11,
        Code::Unaligned => 0x12,
        Code::Volatile => 0x13,
        Code::Tail => 0x14,
        Code::Initobj => 0x15,
        Code::Constrained => 0x16,
        Code::Cpblk => 0x17,
        Code::Initblk => 0x18,
        Code::No => 0x19,
        Code::Rethrow => 0x1A,
        Code::Sizeof => 0x1C,
        Code::Refanytype => 0x1D,
        Code::Readonly => 0x1E,
    }
}

/// Whether the instruction takes the escape prefix.
#[verifier::opaque]
pub open spec fn escaped(code: Code) -> bool {
    match code {
        Code::Arglist
        | Code::Ceq
        | Code::Cgt
        | Code::Cgt_Un
        | Code::Clt
        | Code::Clt_Un
        | Code::Ldftn
        | Code::Ldvirtftn
        | Code::Ldarg
        | Code::Ldarga
        | Code::Starg
        | Code::Ldloc
        | Code::Ldloca
        | Code::Stloc
        | Code::Localloc
        | Code::Endfilter
        | Code::Unaligned
        | Code::Volatile
        | Code::Tail
        | Code::Initobj
        | Code::Constrained
        | Code::Cpblk
        | Code::Initblk
        | Code::No
        | Code::Rethrow
        | Code::Sizeof
        | Code::Refanytype
        | Code::Readonly => true,
        _ => false,
    }
}

/// The two encoding bytes as one number, the prefix first.
pub open spec fn encoding(code: Code) -> u16 {
    if escaped(code) {
        (0xFE00 + second_byte(code)) as u16
    } else {
        (0xFF00 + second_byte(code)) as u16
    }
}

/// The instruction with the single-byte encoding.
#[verifier::opaque]
pub open spec fn one_byte_code(second: u8) -> Option<Code> {
    match second {
        0x00 => Some(Code::Nop),
        0x01 => Some(Code::Break),
        0x02 => Some(Code::Ldarg_0),
        0x03 => Some(Code::Ldarg_1),
        0x04 => Some(Code::Ldarg_2),
        0x05 => Some(Code::Ldarg_3),
        0x06 => Some(Code::Ldloc_0),
        0x07 => Some(Code::Ldloc_1),
        0x08 => Some(Code::Ldloc_2),
        0x09 => Some(Code::Ldloc_3),
        0x0A => Some(Code::Stloc_0),
        0x0B => Some(Code::Stloc_1),
        0x0C => Some(Code::Stloc_2),
        0x0D => Some(Code::Stloc_3),
        0x0E => Some(Code::Ldarg_S),
        0x0F => Some(Code::Ldarga_S),
        0x10 => Some(Code::Starg_S),
        0x11 => Some(Code::Ldloc_S),
        0x12 => Some(Code::Ldloca_S),
        0x13 => Some(Code::Stloc_S),
        0x14 => Some(Code::Ldnull),
        0x15 => Some(Code::Ldc_I4_M1),
        0x16 => Some(Code::Ldc_I4_0),
        0x17 => Some(Code::Ldc_I4_1),
        0x18 => Some(Code::Ldc_I4_2),
        0x19 => Some(Code::Ldc_I4_3),
        0x1A => Some(Code::Ldc_I4_4),
        0x1B => Some(Code::Ldc_I4_5),
        0x1C => Some(Code::Ldc_I4_6),
        0x1D => Some(Code::Ldc_I4_7),
        0x1E => Some(Code::Ldc_I4_8),
        0x1F => Some(Code::Ldc_I4_S),
        0x20 => Some(Code::Ldc_I4),
        0x21 => Some(Code::Ldc_I8),
        0x22 => Some(Code::Ldc_R4),
        0x23 => Some(Code::Ldc_R8),
        0x25 => Some(Code::Dup),
        0x26 => Some(Code::Pop),
        0x27 => Some(Code::Jmp),
        0x28 => Some(Code::Call),
        0x29 => Some(Code::Calli),
        0x2A => Some(Code::Ret),
        0x2B => Some(Code::Br_S),
        0x2C => Some(Code::Brfalse_S),
        0x2D => Some(Code::Brtrue_S),
        0x2E => Some(Code::Beq_S),
        0x2F => Some(Code::Bge_S),
        0x30 => Some(Code::Bgt_S),
        0x31 => Some(Code::Ble_S),
        0x32 => Some(Code::Blt_S),
        0x33 => Some(Code::Bne_Un_S),
        0x34 => Some(Code::Bge_Un_S),
        0x35 => Some(Code::Bgt_Un_S),
        0x36 => Some(Code::Ble_Un_S),
        0x37 => Some(Code::Blt_Un_S),
        0x38 => Some(Code::Br),
        0x39 => Some(Code::Brfalse),
        0x3A => Some(Code::Brtrue),
        0x3B => Some(Code::Beq),
        0x3C => Some(Code::Bge),
        0x3D => Some(Code::Bgt),
        0x3E => Some(Code::Ble),
        0x3F => Some(Code::Blt),
        0x40 => Some(Code::Bne_Un),
        0x41 => Some(Code::Bge_Un),
        0x42 => Some(Code::Bgt_Un),
        0x43 => Some(Code::Ble_Un),
        0x44 => Some(Code::Blt_Un),
        0x45 => Some(Code::Switch),
        0x46 => Some(Code::Ldind_I1),
        0x47 => Some(Code::Ldind_U1),
        0x48 => Some(Code::Ldind_I2),
        0x49 => Some(Code::Ldind_U2),
        0x4A => Some(Code::Ldind_I4),
        0x4B => Some(Code::Ldind_U4),
        0x4C => Some(Code::Ldind_I8),
        0x4D => Some(Code::Ldind_I),
        0x4E => Some(Code::Ldind_R4),
        0x4F => Some(Code::Ldind_R8),
        0x50 => Some(Code::Ldind_Ref),
        0x51 => Some(Code::Stind_Ref),
        0x52 => Some(Code::Stind_I1),
        0x53 => Some(Code::Stind_I2),
        0x54 => Some(Code::Stind_I4),
        0x55 => Some(Code::Stind_I8),
        0x56 => Some(Code::Stind_R4),
        0x57 => Some(Code::Stind_R8),
        0x58 => Some(Code::Add),
        0x59 => Some(Code::Sub),
        0x5A => Some(Code::Mul),
        0x5B => Some(Code::Div),
        0x5C => Some(Code::Div_Un),
        0x5D => Some(Code::Rem),
        0x5E => Some(Code::Rem_Un),
        0x5F => Some(Code::And),
        0x60 => Some(Code::Or),
        0x61 => Some(Code::Xor),
        0x62 => Some(Code::Shl),
        0x63 => Some(Code::Shr),
        0x64 => Some(Code::Shr_Un),
        0x65 => Some(Code::Neg),
        0x66 => Some(Code::Not),
        0x67 => Some(Code::Conv_I1),
        0x68 => Some(Code::Conv_I2),
        0x69 => Some(Code::Conv_I4),
        0x6A => Some(Code::Conv_I8),
        0x6B => Some(Code::Conv_R4),
        0x6C => Some(Code::Conv_R8),
        0x6D => Some(Code::Conv_U4),
        0x6E => Some(Code::Conv_U8),
        0x6F => Some(Code::Callvirt),
        0x70 => Some(Code::Cpobj),
        0x71 => Some(Code::Ldobj),
        0x72 => Some(Code::Ldstr),
        0x73 => Some(Code::Newobj),
        0x74 => Some(Code::Castclass),
        0x75 => Some(Code::Isinst),
        0x76 => Some(Code::Conv_R_Un),
        0x79 => Some(Code::Unbox),
        0x7A => Some(Code::Throw),
        0x7B => Some(Code::Ldfld),
        0x7C => Some(Code::Ldflda),
        0x7D => Some(Code::Stfld),
        0x7E => Some(Code::Ldsfld),
        0x7F => Some(Code::Ldsflda),
        0x80 => Some(Code::Stsfld),
        0x81 => Some(Code::Stobj),
        0x82 => Some(Code::Conv_Ovf_I1_Un),
        0x83 => Some(Code::Conv_Ovf_I2_Un),
        0x84 => Some(Code::Conv_Ovf_I4_Un),
        0x85 => Some(Code::Conv_Ovf_I8_Un),
        0x86 => Some(Code::Conv_Ovf_U1_Un),
        0x87 => Some(Code::Conv_Ovf_U2_Un),
        0x88 => Some(Code::Conv_Ovf_U4_Un),
        0x89 => Some(Code::Conv_Ovf_U8_Un),
        0x8A => Some(Code::Conv_Ovf_I_Un),
        0x8B => Some(Code::Conv_Ovf_U_Un),
        0x8C => Some(Code::Box),
        0x8D => Some(Code::Newarr),
        0x8E => Some(Code::Ldlen),
        0x8F => Some(Code::Ldelema),
        0x90 => Some(Code::Ldelem_I1),
        0x91 => Some(Code::Ldelem_U1),
        0x92 => Some(Code::Ldelem_I2),
        0x93 => Some(Code::Ldelem_U2),
        0x94 => Some(Code::Ldelem_I4),
        0x95 => Some(Code::Ldelem_U4),
        0x96 => Some(Code::Ldelem_I8),
        0x97 => Some(Code::Ldelem_I),
        0x98 => Some(Code::Ldelem_R4),
        0x99 => Some(Code::Ldelem_R8),
        0x9A => Some(Code::Ldelem_Ref),
        0x9B => Some(Code::Stelem_I),
        0x9C => Some(Code::Stelem_I1),
        0x9D => Some(Code::Stelem_I2),
        0x9E => Some(Code::Stelem_I4),
        0x9F => Some(Code::Stelem_I8),
        0xA0 => Some(Code::Stelem_R4),
        0xA1 => Some(Code::Stelem_R8),
        0xA2 => Some(Code::Stelem_Ref),
        0xA3 => Some(Code::Ldelem_Any),
        0xA4 => Some(Code::Stelem_Any),
        0xA5 => Some(Code::Unbox_Any),
        0xB3 => Some(Code::Conv_Ovf_I1),
        0xB4 => Some(Code::Conv_Ovf_U1),
        0xB5 => Some(Code::Conv_Ovf_I2),
        0xB6 => Some(Code::Conv_Ovf_U2),
        0xB7 => Some(Code::Conv_Ovf_I4),
        0xB8 => Some(Code::Conv_Ovf_U4),
        0xB9 => Some(Code::Conv_Ovf_I8),
        0xBA => Some(Code::Conv_Ovf_U8),
        0xC2 => Some(Code::Refanyval),
        0xC3 => Some(Code::Ckfinite),
        0xC6 => Some(Code::Mkrefany),
        0xD0 => Some(Code::Ldtoken),
        0xD1 => Some(Code::Conv_U2),
        0xD2 => Some(Code::Conv_U1),
        0xD3 => Some(Code::Conv_I),
        0xD4 => Some(Code::Conv_Ovf_I),
        0xD5 => Some(Code::Conv_Ovf_U),
        0xD6 => Some(Code::Add_Ovf),
        0xD7 => Some(Code::Add_Ovf_Un),
        0xD8 => Some(Code::Mul_Ovf),
        0xD9 => Some(Code::Mul_Ovf_Un),
        0xDA => Some(Code::Sub_Ovf),
        0xDB => Some(Code::Sub_Ovf_Un),
        0xDC => Some(Code::Endfinally),
        0xDD => Some(Code::Leave),
        0xDE => Some(Code::Leave_S),
        0xDF => Some(Code::Stind_I),
        0xE0 => Some(Code::Conv_U),
        _ => None,
    }
}

/// The instruction with the byte behind the escape prefix.
#[verifier::opaque]
pub open spec fn two_byte_code(second: u8) -> Option<Code> {
    match second {
        0x00 => Some(Code::Arglist),
        0x01 => Some(Code::Ceq),
        0x02 => Some(Code::Cgt),
        0x03 => Some(Code::Cgt_Un),
        0x04 => Some(Code::Clt),
        0x05 => Some(Code::Clt_Un),
        0x06 => Some(Code::Ldftn),
        0x07 => Some(Code::Ldvirtftn),
        0x09 => Some(Code::Ldarg),
        0x0A => Some(Code::Ldarga),
        0x0B => Some(Code::Starg),
        0x0C => Some(Code::Ldloc),
        0x0D => Some(Code::Ldloca),
        0x0E => Some(Code::Stloc),
        0x0F => Some(Code::Localloc),
        0x11 => Some(Code::Endfilter),
        0x12 => Some(Code::Unaligned),
        0x13 => Some(Code::Volatile),
        0x14 => Some(Code::Tail),
        0x15 => Some(Code::Initobj),
        0x16 => Some(Code::Constrained),
        0x17 => Some(Code::Cpblk),
        0x18 => Some(Code::Initblk),
        0x19 => Some(Code::No),
        0x1A => Some(Code::Rethrow),
        0x1C => Some(Code::Sizeof),
        0x1D => Some(Code::Refanytype),
        0x1E => Some(Code::Readonly),
        _ => None,
    }
}

/// The entry of the table for an instruction.
pub open spec fn described(code: Code) -> OpCodeView {
    OpCodeView {
        code,
        name: mnemonic(code),
        operand_type: operand_type(code),
        size: if escaped(code) {
            2
        } else {
            1
        },
        byte1: if escaped(code) {
            0xFE
        } else {
            0xFF
        },
        byte2: second_byte(code),
    }
}

impl Code {
    /// The mnemonic of the instruction.
    pub fn name(self) -> (s: &'static str)
        ensures
            s@ == mnemonic(self),
    {
        proof {
            reveal(mnemonic);
        }
        match self {
            Code::Nop => "nop",
            Code::Break => "break",
            Code::Ldarg_0 => "ldarg.0",
            Code::Ldarg_1 => "ldarg.1",
            Code::Ldarg_2 => "ldarg.2",
            Code::Ldarg_3 => "ldarg.3",
            Code::Ldloc_0 => "ldloc.0",
            Code::Ldloc_1 => "ldloc.1",
            Code::Ldloc_2 => "ldloc.2",
            Code::Ldloc_3 => "ldloc.3",
            Code::Stloc_0 => "stloc.0",
            Code::Stloc_1 => "stloc.1",
            Code::Stloc_2 => "stloc.2",
            Code::Stloc_3 => "stloc.3",
            Code::Ldarg_S => "ldarg.s",
            Code::Ldarga_S => "ldarga.s",
            Code::Starg_S => "starg.s",
            Code::Ldloc_S => "ldloc.s",
            Code::Ldloca_S => "ldloca.s",
            Code::Stloc_S => "stloc.s",
            Code::Ldnull => "ldnull",
            Code::Ldc_I4_M1 => "ldc.i4.m1",
            Code::Ldc_I4_0 => "ldc.i4.0",
            Code::Ldc_I4_1 => "ldc.i4.1",
            Code::Ldc_I4_2 => "ldc.i4.2",
            Code::Ldc_I4_3 => "ldc.i4.3",
            Code::Ldc_I4_4 => "ldc.i4.4",
            Code::Ldc_I4_5 => "ldc.i4.5",
            Code::Ldc_I4_6 => "ldc.i4.6",
            Code::Ldc_I4_7 => "ldc.i4.7",
            Code::Ldc_I4_8 => "ldc.i4.8",
            Code::Ldc_I4_S => "ldc.i4.s",
            Code::Ldc_I4 => "ldc.i4",
            Code::Ldc_I8 => "ldc.i8",
            Code::Ldc_R4 => "ldc.r4",
            Code::Ldc_R8 => "ldc.r8",
            Code::Dup => "dup",
            Code::Pop => "pop",
            Code::Jmp => "jmp",
            Code::Call => "call",
            Code::Calli => "calli",
            Code::Ret => "ret",
            Code::Br_S => "br.s",
            Code::Brfalse_S => "brfalse.s",
            Code::Brtrue_S => "brtrue.s",
            Code::Beq_S => "beq.s",
            Code::Bge_S => "bge.s",
            Code::Bgt_S => "bgt.s",
            Code::Ble_S => "ble.s",
            Code::Blt_S => "blt.s",
            Code::Bne_Un_S => "bne.un.s",
            Code::Bge_Un_S => "bge.un.s",
            Code::Bgt_Un_S => "bgt.un.s",
            Code::Ble_Un_S => "ble.un.s",
            Code::Blt_Un_S => "blt.un.s",
            Code::Br => "br",
            Code::Brfalse => "brfalse",
            Code::Brtrue => "brtrue",
            Code::Beq => "beq",
            Code::Bge => "bge",
            Code::Bgt => "bgt",
            Code::Ble => "ble",
            Code::Blt => "blt",
            Code::Bne_Un => "bne.un",
            Code::Bge_Un => "bge.un",
            Code::Bgt_Un => "bgt.un",
            Code::Ble_Un => "ble.un",
            Code::Blt_Un => "blt.un",
            Code::Switch => "switch",
            Code::Ldind_I1 => "ldind.i1",
            Code::Ldind_U1 => "ldind.u1",
            Code::Ldind_I2 => "ldind.i2",
            Code::Ldind_U2 => "ldind.u2",
            Code::Ldind_I4 => "ldind.i4",
            Code::Ldind_U4 => "ldind.u4",
            Code::Ldind_I8 => "ldind.i8",
            Code::Ldind_I => "ldind.i",
            Code::Ldind_R4 => "ldind.r4",
            Code::Ldind_R8 => "ldind.r8",
            Code::Ldind_Ref => "ldind.ref",
            Code::Stind_Ref => "stind.ref",
            Code::Stind_I1 => "stind.i1",
            Code::Stind_I2 => "stind.i2",
            Code::Stind_I4 => "stind.i4",
            Code::Stind_I8 => "stind.i8",
            Code::Stind_R4 => "stind.r4",
            Code::Stind_R8 => "stind.r8",
            Code::Add => "add",
            Code::Sub => "sub",
            Code::Mul => "mul",
            Code::Div => "div",
            Code::Div_Un => "div.un",
            Code::Rem => "rem",
            Code::Rem_Un => "rem.un",
            Code::And => "and",
            Code::Or => "or",
            Code::Xor => "xor",
            Code::Shl => "shl",
            Code::Shr => "shr",
            Code::Shr_Un => "shr.un",
            Code::Neg => "neg",
            Code::Not => "not",
            Code::Conv_I1 => "conv.i1",
            Code::Conv_I2 => "conv.i2",
            Code::Conv_I4 => "conv.i4",
            Code::Conv_I8 => "conv.i8",
            Code::Conv_R4 => "conv.r4",
            Code::Conv_R8 => "conv.r8",
            Code::Conv_U4 => "conv.u4",
            Code::Conv_U8 => "conv.u8",
            Code::Callvirt => "callvirt",
            Code::Cpobj => "cpobj",
            Code::Ldobj => "ldobj",
            Code::Ldstr => "ldstr",
            Code::Newobj => "newobj",
            Code::Castclass => "castclass",
            Code::Isinst => "isinst",
            Code::Conv_R_Un => "conv.r.un",
            Code::Unbox => "unbox",
            Code::Throw => "throw",
            Code::Ldfld => "ldfld",
            Code::Ldflda => "ldflda",
            Code::Stfld => "stfld",
            Code::Ldsfld => "ldsfld",
            Code::Ldsflda => "ldsflda",
            Code::Stsfld => "stsfld",
            Code::Stobj => "stobj",
            Code::Conv_Ovf_I1_Un => "conv.ovf.i1.un",
            Code::Conv_Ovf_I2_Un => "conv.ovf.i2.un",
            Code::Conv_Ovf_I4_Un => "conv.ovf.i4.un",
            Code::Conv_Ovf_I8_Un => "conv.ovf.i8.un",
            Code::Conv_Ovf_U1_Un => "conv.ovf.u1.un",
            Code::Conv_Ovf_U2_Un => "conv.ovf.u2.un",
            Code::Conv_Ovf_U4_Un => "conv.ovf.u4.un",
            Code::Conv_Ovf_U8_Un => "conv.ovf.u8.un",
            Code::Conv_Ovf_I_Un => "conv.ovf.i.un",
            Code::Conv_Ovf_U_Un => "conv.ovf.u.un",
            Code::Box => "box",
            Code::Newarr => "newarr",
            Code::Ldlen => "ldlen",
            Code::Ldelema => "ldelema",
            Code::Ldelem_I1 => "ldelem.i1",
            Code::Ldelem_U1 => "ldelem.u1",
            Code::Ldelem_I2 => "ldelem.i2",
            Code::Ldelem_U2 => "ldelem.u2",
            Code::Ldelem_I4 => "ldelem.i4",
            Code::Ldelem_U4 => "ldelem.u4",
            Code::Ldelem_I8 => "ldelem.i8",
            Code::Ldelem_I => "ldelem.i",
            Code::Ldelem_R4 => "ldelem.r4",
            Code::Ldelem_R8 => "ldelem.r8",
            Code::Ldelem_Ref => "ldelem.ref",
            Code::Stelem_I => "stelem.i",
            Code::Stelem_I1 => "stelem.i1",
            Code::Stelem_I2 => "stelem.i2",
            Code::Stelem_I4 => "stelem.i4",
            Code::Stelem_I8 => "stelem.i8",
            Code::Stelem_R4 => "stelem.r4",
            Code::Stelem_R8 => "stelem.r8",
            Code::Stelem_Ref => "stelem.ref",
            Code::Ldelem_Any => "ldelem.any",
            Code::Stelem_Any => "stelem.any",
            Code::Unbox_Any => "unbox.any",
            Code::Conv_Ovf_I1 => "conv.ovf.i1",
            Code::Conv_Ovf_U1 => "conv.ovf.u1",
            Code::Conv_Ovf_I2 => "conv.ovf.i2",
            Code::Conv_Ovf_U2 => "conv.ovf.u2",
            Code::Conv_Ovf_I4 => "conv.ovf.i4",
            Code::Conv_Ovf_U4 => "conv.ovf.u4",
            Code::Conv_Ovf_I8 => "conv.ovf.i8",
            Code::Conv_Ovf_U8 => "conv.ovf.u8",
            Code::Refanyval => "refanyval",
            Code::Ckfinite => "ckfinite",
            Code::Mkrefany => "mkrefany",
            Code::Ldtoken => "ldtoken",
            Code::Conv_U2 => "conv.u2",
            Code::Conv_U1 => "conv.u1",
            Code::Conv_I => "conv.i",
            Code::Conv_Ovf_I => "conv.ovf.i",
            Code::Conv_Ovf_U => "conv.ovf.u",
            Code::Add_Ovf => "add.ovf",
            Code::Add_Ovf_Un => "add.ovf.un",
            Code::Mul_Ovf => "mul.ovf",
            Code::Mul_Ovf_Un => "mul.ovf.un",
            Code::Sub_Ovf => "sub.ovf",
            Code::Sub_Ovf_Un => "sub.ovf.un",
            Code::Endfinally => "endfinally",
            Code::Leave => "leave",
            Code::Leave_S => "leave.s",
            Code::Stind_I => "stind.i",
            Code::Conv_U => "conv.u",
            Code::Arglist => "arglist",
            Code::Ceq => "ceq",
            Code::Cgt => "cgt",
            Code::Cgt_Un => "cgt.un",
            Code::Clt => "clt",
            Code::Clt_Un => "clt.un",
            Code::Ldftn => "ldftn",
            Code::Ldvirtftn => "ldvirtftn",
            Code::Ldarg => "ldarg",
            Code::Ldarga => "ldarga",
            Code::Starg => "starg",
            Code::Ldloc => "ldloc",
            Code::Ldloca => "ldloca",
            Code::Stloc => "stloc",
            Code::Localloc => "localloc",
            Code::Endfilter => "endfilter",
            Code::Unaligned => "unaligned.",
            Code::Volatile => "volatile.",
            Code::Tail => "tail.",
            Code::Initobj => "initobj",
            Code::Constrained => "constrained.",
            Code::Cpblk => "cpblk",
            Code::Initblk => "initblk",
            Code::No => "no.",
            Code::Rethrow => "rethrow",
            Code::Sizeof => "sizeof",
            Code::Refanytype => "refanytype",
            Code::Readonly => "readonly.",
        }
    }

    /// The shape of the inline operand of the instruction.
    pub fn operand_type(self) -> (t: OperandType)
        ensures
            t == operand_type(self),
    {
        proof {
            reveal(operand_type);
        }
        match self {
            Code::Ldarg_S
            | Code::Ldarga_S
            | Code::Starg_S => OperandType::ShortInlineArg,
            Code::Ldloc_S
            | Code::Ldloca_S
            | Code::Stloc_S => OperandType::ShortInlineVar,
            Code::Ldc_I4_S
            | Code::Unaligned
            | Code::No => OperandType::ShortInlineI,
            Code::Ldc_I4 => OperandType::InlineI,
            Code::Ldc_I8 => OperandType::InlineI8,
            Code::Ldc_R4 => OperandType::ShortInlineR,
            Code::Ldc_R8 => OperandType::InlineR,
            Code::Jmp
            | Code::Call
            | Code::Callvirt
            | Code::Newobj
            | Code::Ldftn
            | Code::Ldvirtftn => OperandType::InlineMethod,
            Code::Calli => OperandType::InlineSig,
            Code::Br_S
            | Code::Brfalse_S
            | Code::Brtrue_S
            | Code::Beq_S
            | Code::Bge_S
            | Code::Bgt_S
            | Code::Ble_S
            | Code::Blt_S
            | Code::Bne_Un_S
            | Code::Bge_Un_S
            | Code::Bgt_Un_S
            | Code::Ble_Un_S
            | Code::Blt_Un_S
            | Code::Leave_S => OperandType::ShortInlineBrTarget,
            Code::Br
            | Code::Brfalse
            | Code::Brtrue
            | Code::Beq
            | Code::Bge
            | Code::Bgt
            | Code::Ble
            | Code::Blt
            | Code::Bne_Un
            | Code::Bge_Un
            | Code::Bgt_Un
            | Code::Ble_Un
            | Code::Blt_Un
            | Code::Leave => OperandType::InlineBrTarget,
            Code::Switch => OperandType::InlineSwitch,
            Code::Cpobj
            | Code::Ldobj
            | Code::Castclass
            | Code::Isinst
            | Code::Unbox
            | Code::Stobj
            | Code::Box
            | Code::Newarr
            | Code::Ldelema
            | Code::Ldelem_Any
            | Code::Stelem_Any
            | Code::Unbox_Any
            | Code::Refanyval
            | Code::Mkrefany
            | Code::Initobj
            | Code::Constrained
            | Code::Sizeof => OperandType::InlineType,
            Code::Ldstr => OperandType::InlineString,
            Code::Ldfld
            | Code::Ldflda
            | Code::Stfld
            | Code::Ldsfld
            | Code::Ldsflda
            | Code::Stsfld => OperandType::InlineField,
            Code::Ldtoken => OperandType::InlineTok,
            Code::Ldarg
            | Code::Ldarga
            | Code::Starg => OperandType::InlineArg,
            Code::Ldloc
            | Code::Ldloca
            | Code::Stloc => OperandType::InlineVar,
            _ => OperandType::InlineNone,
        }
    }

    /// The last byte of the encoding of the instruction.
    pub fn second_byte(self) -> (b: u8)
        ensures
            b == second_byte(self),
    {
        proof {
            reveal(second_byte);
        }
        match self {
            Code::Nop => 0x00,
            Code::Break => 0x01,
            Code::Ldarg_0 => 0x02,
            Code::Ldarg_1 => 0x03,
            Code::Ldarg_2 => 0x04,
            Code::Ldarg_3 => 0x05,
            Code::Ldloc_0 => 0x06,
            Code::Ldloc_1 => 0x07,
            Code::Ldloc_2 => 0x08,
            Code::Ldloc_3 => 0x09,
            Code::Stloc_0 => 0x0A,
            Code::Stloc_1 => 0x0B,
            Code::Stloc_2 => 0x0C,
            Code::Stloc_3 => 0x0D,
            Code::Ldarg_S => 0x0E,
            Code::Ldarga_S => 0x0F,
            Code::Starg_S => 0x10,
            Code::Ldloc_S => 0x11,
            Code::Ldloca_S => 0x12,
            Code::Stloc_S => 0x13,
            Code::Ldnull => 0x14,
            Code::Ldc_I4_M1 => 0x15,
            Code::Ldc_I4_0 => 0x16,
            Code::Ldc_I4_1 => 0x17,
            Code::Ldc_I4_2 => 0x18,
            Code::Ldc_I4_3 => 0x19,
            Code::Ldc_I4_4 => 0x1A,
            Code::Ldc_I4_5 => 0x1B,
            Code::Ldc_I4_6 => 0x1C,
            Code::Ldc_I4_7 => 0x1D,
            Code::Ldc_I4_8 => 0x1E,
            Code::Ldc_I4_S => 0x1F,
            Code::Ldc_I4 => 0x20,
            Code::Ldc_I8 => 0x21,
            Code::Ldc_R4 => 0x22,
            Code::Ldc_R8 => 0x23,
            Code::Dup => 0x25,
            Code::Pop => 0x26,
            Code::Jmp => 0x27,
            Code::Call => 0x28,
            Code::Calli => 0x29,
            Code::Ret => 0x2A,
            Code::Br_S => 0x2B,
            Code::Brfalse_S => 0x2C,
            Code::Brtrue_S => 0x2D,
            Code::Beq_S => 0x2E,
            Code::Bge_S => 0x2F,
            Code::Bgt_S => 0x30,
            Code::Ble_S => 0x31,
            Code::Blt_S => 0x32,
            Code::Bne_Un_S => 0x33,
            Code::Bge_Un_S => 0x34,
            Code::Bgt_Un_S => 0x35,
            Code::Ble_Un_S => 0x36,
            Code::Blt_Un_S => 0x37,
            Code::Br => 0x38,
            Code::Brfalse => 0x39,
            Code::Brtrue => 0x3A,
            Code::Beq => 0x3B,
            Code::Bge => 0x3C,
            Code::Bgt => 0x3D,
            Code::Ble => 0x3E,
            Code::Blt => 0x3F,
            Code::Bne_Un => 0x40,
            Code::Bge_Un => 0x41,
            Code::Bgt_Un => 0x42,
            Code::Ble_Un => 0x43,
            Code::Blt_Un => 0x44,
            Code::Switch => 0x45,
            Code::Ldind_I1 => 0x46,
            Code::Ldind_U1 => 0x47,
            Code::Ldind_I2 => 0x48,
            Code::Ldind_U2 => 0x49,
            Code::Ldind_I4 => 0x4A,
            Code::Ldind_U4 => 0x4B,
            Code::Ldind_I8 => 0x4C,
            Code::Ldind_I => 0x4D,
            Code::Ldind_R4 => 0x4E,
            Code::Ldind_R8 => 0x4F,
            Code::Ldind_Ref => 0x50,
            Code::Stind_Ref => 0x51,
            Code::Stind_I1 => 0x52,
            Code::Stind_I2 => 0x53,
            Code::Stind_I4 => 0x54,
            Code::Stind_I8 => 0x55,
            Code::Stind_R4 => 0x56,
            Code::Stind_R8 => 0x57,
            Code::Add => 0x58,
            Code::Sub => 0x59,
            Code::Mul => 0x5A,
            Code::Div => 0x5B,
            Code::Div_Un => 0x5C,
            Code::Rem => 0x5D,
            Code::Rem_Un => 0x5E,
            Code::And => 0x5F,
            Code::Or => 0x60,
            Code::Xor => 0x61,
            Code::Shl => 0x62,
            Code::Shr => 0x63,
            Code::Shr_Un => 0x64,
            Code::Neg => 0x65,
            Code::Not => 0x66,
            Code::Conv_I1 => 0x67,
            Code::Conv_I2 => 0x68,
            Code::Conv_I4 => 0x69,
            Code::Conv_I8 => 0x6A,
            Code::Conv_R4 => 0x6B,
            Code::Conv_R8 => 0x6C,
            Code::Conv_U4 => 0x6D,
            Code::Conv_U8 => 0x6E,
            Code::Callvirt => 0x6F,
            Code::Cpobj => 0x70,
            Code::Ldobj => 0x71,
            Code::Ldstr => 0x72,
            Code::Newobj => 0x73,
            Code::Castclass => 0x74,
            Code::Isinst => 0x75,
            Code::Conv_R_Un => 0x76,
            Code::Unbox => 0x79,
            Code::Throw => 0x7A,
            Code::Ldfld => 0x7B,
            Code::Ldflda => 0x7C,
            Code::Stfld => 0x7D,
            Code::Ldsfld => 0x7E,
            Code::Ldsflda => 0x7F,
            Code::Stsfld => 0x80,
            Code::Stobj => 0x81,
            Code::Conv_Ovf_I1_Un => 0x82,
            Code::Conv_Ovf_I2_Un => 0x83,
            Code::Conv_Ovf_I4_Un => 0x84,
            Code::Conv_Ovf_I8_Un => 0x85,
            Code::Conv_Ovf_U1_Un => 0x86,
            Code::Conv_Ovf_U2_Un => 0x87,
            Code::Conv_Ovf_U4_Un => 0x88,
            Code::Conv_Ovf_U8_Un => 0x89,
            Code::Conv_Ovf_I_Un => 0x8A,
            Code::Conv_Ovf_U_Un => 0x8B,
            Code::Box => 0x8C,
            Code::Newarr => 0x8D,
            Code::Ldlen => 0x8E,
            Code::Ldelema => 0x8F,
            Code::Ldelem_I1 => 0x90,
            Code::Ldelem_U1 => 0x91,
            Code::Ldelem_I2 => 0x92,
            Code::Ldelem_U2 => 0x93,
            Code::Ldelem_I4 => 0x94,
            Code::Ldelem_U4 => 0x95,
            Code::Ldelem_I8 => 0x96,
            Code::Ldelem_I => 0x97,
            Code::Ldelem_R4 => 0x98,
            Code::Ldelem_R8 => 0x99,
            Code::Ldelem_Ref => 0x9A,
            Code::Stelem_I => 0x9B,
            Code::Stelem_I1 => 0x9C,
            Code::Stelem_I2 => 0x9D,
            Code::Stelem_I4 => 0x9E,
            Code::Stelem_I8 => 0x9F,
            Code::Stelem_R4 => 0xA0,
            Code::Stelem_R8 => 0xA1,
            Code::Stelem_Ref => 0xA2,
            Code::Ldelem_Any => 0xA3,
            Code::Stelem_Any => 0xA4,
            Code::Unbox_Any => 0xA5,
            Code::Conv_Ovf_I1 => 0xB3,
            Code::Conv_Ovf_U1 => 0xB4,
            Code::Conv_Ovf_I2 => 0xB5,
            Code::Conv_Ovf_U2 => 0xB6,
            Code::Conv_Ovf_I4 => 0xB7,
            Code::Conv_Ovf_U4 => 0xB8,
            Code::Conv_Ovf_I8 => 0xB9,
            Code::Conv_Ovf_U8 => 0xBA,
            Code::Refanyval => 0xC2,
            Code::Ckfinite => 0xC3,
            Code::Mkrefany => 0xC6,
            Code::Ldtoken => 0xD0,
            Code::Conv_U2 => 0xD1,
            Code::Conv_U1 => 0xD2,
            Code::Conv_I => 0xD3,
            Code::Conv_Ovf_I => 0xD4,
            Code::Conv_Ovf_U => 0xD5,
            Code::Add_Ovf => 0xD6,
            Code::Add_Ovf_Un => 0xD7,
            Code::Mul_Ovf => 0xD8,
            Code::Mul_Ovf_Un => 0xD9,
            Code::Sub_Ovf => 0xDA,
            Code::Sub_Ovf_Un => 0xDB,
            Code::Endfinally => 0xDC,
            Code::Leave => 0xDD,
            Code::Leave_S => 0xDE,
            Code::Stind_I => 0xDF,
            Code::Conv_U => 0xE0,
            Code::Arglist => 0x00,
            Code::Ceq => 0x01,
            Code::Cgt => 0x02,
            Code::Cgt_Un => 0x03,
            Code::Clt => 0x04,
            Code::Clt_Un => 0x05,
            Code::Ldftn => 0x06,
            Code::Ldvirtftn => 0x07,
            Code::Ldarg => 0x09,
            Code::Ldarga => 0x0A,
            Code::Starg => 0x0B,
            Code::Ldloc => 0x0C,
            Code::Ldloca => 0x0D,
            Code::Stloc => 0x0E,
            Code::Localloc => 0x0F,
            Code::Endfilter => 0x11,
            Code::Unaligned => 0x12,
            Code::Volatile => 0x13,
            Code::Tail => 0x14,
            Code::Initobj => 0x15,
            Code::Constrained => 0x16,
            Code::Cpblk => 0x17,
            Code::Initblk => 0x18,
            Code::No => 0x19,
            Code::Rethrow => 0x1A,
            Code::Sizeof => 0x1C,
            Code::Refanytype => 0x1D,
            Code::Readonly => 0x1E,
        }
    }

    /// Whether the instruction takes the `0xFE` escape prefix.
    pub fn is_escaped(self) -> (b: bool)
        ensures
            b == escaped(self),
    {
        proof {
            reveal(escaped);
        }
        match self {
            Code::Arglist
            | Code::Ceq
            | Code::Cgt
            | Code::Cgt_Un
            | Code::Clt
            | Code::Clt_Un
            | Code::Ldftn
            | Code::Ldvirtftn
            | Code::Ldarg
            | Code::Ldarga
            | Code::Starg
            | Code::Ldloc
            | Code::Ldloca
            | Code::Stloc
            | Code::Localloc
            | Code::Endfilter
            | Code::Unaligned
            | Code::Volatile
            | Code::Tail
            | Code::Initobj
            | Code::Constrained
            | Code::Cpblk
            | Code::Initblk
            | Code::No
            | Code::Rethrow
            | Code::Sizeof
            | Code::Refanytype
            | Code::Readonly => true,
            _ => false,
        }
    }

    /// The entry of the opcode table for the instruction.
    pub fn opcode(self) -> (op: OpCode)
        ensures
            op@ == described(self),
    {
        let prefix: u8 = if self.is_escaped() {
            0xFE
        } else {
            0xFF
        };
        OpCode::new(self, self.name(), prefix, self.second_byte(), self.operand_type())
    }
}

/// Looks up an opcode by its single-byte encoding. Returns `None` for bytes
/// that do not map to a defined instruction (e.g. `0x24`, `0xA6..=0xB2`).
pub fn one_byte(second: u8) -> (r: Option<OpCode>)
    ensures
        match one_byte_code(second) {
            Some(c) => r is Some && r->Some_0@ == described(c),
            None => r is None,
        },
{
    proof {
        reveal(one_byte_code);
    }
    let code: Option<Code> = match second {
        0x00 => Some(Code::Nop),
        0x01 => Some(Code::Break),
        0x02 => Some(Code::Ldarg_0),
        0x03 => Some(Code::Ldarg_1),
        0x04 => Some(Code::Ldarg_2),
        0x05 => Some(Code::Ldarg_3),
        0x06 => Some(Code::Ldloc_0),
        0x07 => Some(Code::Ldloc_1),
        0x08 => Some(Code::Ldloc_2),
        0x09 => Some(Code::Ldloc_3),
        0x0A => Some(Code::Stloc_0),
        0x0B => Some(Code::Stloc_1),
        0x0C => Some(Code::Stloc_2),
        0x0D => Some(Code::Stloc_3),
        0x0E => Some(Code::Ldarg_S),
        0x0F => Some(Code::Ldarga_S),
        0x10 => Some(Code::Starg_S),
        0x11 => Some(Code::Ldloc_S),
        0x12 => Some(Code::Ldloca_S),
        0x13 => Some(Code::Stloc_S),
        0x14 => Some(Code::Ldnull),
        0x15 => Some(Code::Ldc_I4_M1),
        0x16 => Some(Code::Ldc_I4_0),
        0x17 => Some(Code::Ldc_I4_1),
        0x18 => Some(Code::Ldc_I4_2),
        0x19 => Some(Code::Ldc_I4_3),
        0x1A => Some(Code::Ldc_I4_4),
        0x1B => Some(Code::Ldc_I4_5),
        0x1C => Some(Code::Ldc_I4_6),
        0x1D => Some(Code::Ldc_I4_7),
        0x1E => Some(Code::Ldc_I4_8),
        0x1F => Some(Code::Ldc_I4_S),
        0x20 => Some(Code::Ldc_I4),
        0x21 => Some(Code::Ldc_I8),
        0x22 => Some(Code::Ldc_R4),
        0x23 => Some(Code::Ldc_R8),
        0x25 => Some(Code::Dup),
        0x26 => Some(Code::Pop),
        0x27 => Some(Code::Jmp),
        0x28 => Some(Code::Call),
        0x29 => Some(Code::Calli),
        0x2A => Some(Code::Ret),
        0x2B => Some(Code::Br_S),
        0x2C => Some(Code::Brfalse_S),
        0x2D => Some(Code::Brtrue_S),
        0x2E => Some(Code::Beq_S),
        0x2F => Some(Code::Bge_S),
        0x30 => Some(Code::Bgt_S),
        0x31 => Some(Code::Ble_S),
        0x32 => Some(Code::Blt_S),
        0x33 => Some(Code::Bne_Un_S),
        0x34 => Some(Code::Bge_Un_S),
        0x35 => Some(Code::Bgt_Un_S),
        0x36 => Some(Code::Ble_Un_S),
        0x37 => Some(Code::Blt_Un_S),
        0x38 => Some(Code::Br),
        0x39 => Some(Code::Brfalse),
        0x3A => Some(Code::Brtrue),
        0x3B => Some(Code::Beq),
        0x3C => Some(Code::Bge),
        0x3D => Some(Code::Bgt),
        0x3E => Some(Code::Ble),
        0x3F => Some(Code::Blt),
        0x40 => Some(Code::Bne_Un),
        0x41 => Some(Code::Bge_Un),
        0x42 => Some(Code::Bgt_Un),
        0x43 => Some(Code::Ble_Un),
        0x44 => Some(Code::Blt_Un),
        0x45 => Some(Code::Switch),
        0x46 => Some(Code::Ldind_I1),
        0x47 => Some(Code::Ldind_U1),
        0x48 => Some(Code::Ldind_I2),
        0x49 => Some(Code::Ldind_U2),
        0x4A => Some(Code::Ldind_I4),
        0x4B => Some(Code::Ldind_U4),
        0x4C => Some(Code::Ldind_I8),
        0x4D => Some(Code::Ldind_I),
        0x4E => Some(Code::Ldind_R4),
        0x4F => Some(Code::Ldind_R8),
        0x50 => Some(Code::Ldind_Ref),
        0x51 => Some(Code::Stind_Ref),
        0x52 => Some(Code::Stind_I1),
        0x53 => Some(Code::Stind_I2),
        0x54 => Some(Code::Stind_I4),
        0x55 => Some(Code::Stind_I8),
        0x56 => Some(Code::Stind_R4),
        0x57 => Some(Code::Stind_R8),
        0x58 => Some(Code::Add),
        0x59 => Some(Code::Sub),
        0x5A => Some(Code::Mul),
        0x5B => Some(Code::Div),
        0x5C => Some(Code::Div_Un),
        0x5D => Some(Code::Rem),
        0x5E => Some(Code::Rem_Un),
        0x5F => Some(Code::And),
        0x60 => Some(Code::Or),
        0x61 => Some(Code::Xor),
        0x62 => Some(Code::Shl),
        0x63 => Some(Code::Shr),
        0x64 => Some(Code::Shr_Un),
        0x65 => Some(Code::Neg),
        0x66 => Some(Code::Not),
        0x67 => Some(Code::Conv_I1),
        0x68 => Some(Code::Conv_I2),
        0x69 => Some(Code::Conv_I4),
        0x6A => Some(Code::Conv_I8),
        0x6B => Some(Code::Conv_R4),
        0x6C => Some(Code::Conv_R8),
        0x6D => Some(Code::Conv_U4),
        0x6E => Some(Code::Conv_U8),
        0x6F => Some(Code::Callvirt),
        0x70 => Some(Code::Cpobj),
        0x71 => Some(Code::Ldobj),
        0x72 => Some(Code::Ldstr),
        0x73 => Some(Code::Newobj),
        0x74 => Some(Code::Castclass),
        0x75 => Some(Code::Isinst),
        0x76 => Some(Code::Conv_R_Un),
        0x79 => Some(Code::Unbox),
        0x7A => Some(Code::Throw),
        0x7B => Some(Code::Ldfld),
        0x7C => Some(Code::Ldflda),
        0x7D => Some(Code::Stfld),
        0x7E => Some(Code::Ldsfld),
        0x7F => Some(Code::Ldsflda),
        0x80 => Some(Code::Stsfld),
        0x81 => Some(Code::Stobj),
        0x82 => Some(Code::Conv_Ovf_I1_Un),
        0x83 => Some(Code::Conv_Ovf_I2_Un),
        0x84 => Some(Code::Conv_Ovf_I4_Un),
        0x85 => Some(Code::Conv_Ovf_I8_Un),
        0x86 => Some(Code::Conv_Ovf_U1_Un),
        0x87 => Some(Code::Conv_Ovf_U2_Un),
        0x88 => Some(Code::Conv_Ovf_U4_Un),
        0x89 => Some(Code::Conv_Ovf_U8_Un),
        0x8A => Some(Code::Conv_Ovf_I_Un),
        0x8B => Some(Code::Conv_Ovf_U_Un),
        0x8C => Some(Code::Box),
        0x8D => Some(Code::Newarr),
        0x8E => Some(Code::Ldlen),
        0x8F => Some(Code::Ldelema),
        0x90 => Some(Code::Ldelem_I1),
        0x91 => Some(Code::Ldelem_U1),
        0x92 => Some(Code::Ldelem_I2),
        0x93 => Some(Code::Ldelem_U2),
        0x94 => Some(Code::Ldelem_I4),
        0x95 => Some(Code::Ldelem_U4),
        0x96 => Some(Code::Ldelem_I8),
        0x97 => Some(Code::Ldelem_I),
        0x98 => Some(Code::Ldelem_R4),
        0x99 => Some(Code::Ldelem_R8),
        0x9A => Some(Code::Ldelem_Ref),
        0x9B => Some(Code::Stelem_I),
        0x9C => Some(Code::Stelem_I1),
        0x9D => Some(Code::Stelem_I2),
        0x9E => Some(Code::Stelem_I4),
        0x9F => Some(Code::Stelem_I8),
        0xA0 => Some(Code::Stelem_R4),
        0xA1 => Some(Code::Stelem_R8),
        0xA2 => Some(Code::Stelem_Ref),
        0xA3 => Some(Code::Ldelem_Any),
        0xA4 => Some(Code::Stelem_Any),
        0xA5 => Some(Code::Unbox_Any),
        0xB3 => Some(Code::Conv_Ovf_I1),
        0xB4 => Some(Code::Conv_Ovf_U1),
        0xB5 => Some(Code::Conv_Ovf_I2),
        0xB6 => Some(Code::Conv_Ovf_U2),
        0xB7 => Some(Code::Conv_Ovf_I4),
        0xB8 => Some(Code::Conv_Ovf_U4),
        0xB9 => Some(Code::Conv_Ovf_I8),
        0xBA => Some(Code::Conv_Ovf_U8),
        0xC2 => Some(Code::Refanyval),
        0xC3 => Some(Code::Ckfinite),
        0xC6 => Some(Code::Mkrefany),
        0xD0 => Some(Code::Ldtoken),
        0xD1 => Some(Code::Conv_U2),
        0xD2 => Some(Code::Conv_U1),
        0xD3 => Some(Code::Conv_I),
        0xD4 => Some(Code::Conv_Ovf_I),
        0xD5 => Some(Code::Conv_Ovf_U),
        0xD6 => Some(Code::Add_Ovf),
        0xD7 => Some(Code::Add_Ovf_Un),
        0xD8 => Some(Code::Mul_Ovf),
        0xD9 => Some(Code::Mul_Ovf_Un),
        0xDA => Some(Code::Sub_Ovf),
        0xDB => Some(Code::Sub_Ovf_Un),
        0xDC => Some(Code::Endfinally),
        0xDD => Some(Code::Leave),
        0xDE => Some(Code::Leave_S),
        0xDF => Some(Code::Stind_I),
        0xE0 => Some(Code::Conv_U),
        _ => None,
    };
    match code {
        Some(c) => Some(c.opcode()),
        None => None,
    }
}

/// Looks up an opcode by the byte following the `0xFE` escape prefix.
pub fn two_byte(second: u8) -> (r: Option<OpCode>)
    ensures
        match two_byte_code(second) {
            Some(c) => r is Some && r->Some_0@ == described(c),
            None => r is None,
        },
{
    proof {
        reveal(two_byte_code);
    }
    let code: Option<Code> = match second {
        0x00 => Some(Code::Arglist),
        0x01 => Some(Code::Ceq),
        0x02 => Some(Code::Cgt),
        0x03 => Some(Code::Cgt_Un),
        0x04 => Some(Code::Clt),
        0x05 => Some(Code::Clt_Un),
        0x06 => Some(Code::Ldftn),
        0x07 => Some(Code::Ldvirtftn),
        0x09 => Some(Code::Ldarg),
        0x0A => Some(Code::Ldarga),
        0x0B => Some(Code::Starg),
        0x0C => Some(Code::Ldloc),
        0x0D => Some(Code::Ldloca),
        0x0E => Some(Code::Stloc),
        0x0F => Some(Code::Localloc),
        0x11 => Some(Code::Endfilter),
        0x12 => Some(Code::Unaligned),
        0x13 => Some(Code::Volatile),
        0x14 => Some(Code::Tail),
        0x15 => Some(Code::Initobj),
        0x16 => Some(Code::Constrained),
        0x17 => Some(Code::Cpblk),
        0x18 => Some(Code::Initblk),
        0x19 => Some(Code::No),
        0x1A => Some(Code::Rethrow),
        0x1C => Some(Code::Sizeof),
        0x1D => Some(Code::Refanytype),
        0x1E => Some(Code::Readonly),
        _ => None,
    };
    match code {
        Some(c) => Some(c.opcode()),
        None => None,
    }
}

/// The instructions whose single-byte encoding is below `n`, in order.
pub open spec fn one_byte_codes(n: nat) -> Seq<Code>
    decreases n,
{
    if n == 0 {
        Seq::empty()
    } else {
        match one_byte_code((n - 1) as u8) {
            Some(c) => one_byte_codes((n - 1) as nat).push(c),
            None => one_byte_codes((n - 1) as nat),
        }
    }
}

/// The instructions whose byte behind the escape prefix is below `n`, in
/// order.
pub open spec fn two_byte_codes(n: nat) -> Seq<Code>
    decreases n,
{
    if n == 0 {
        Seq::empty()
    } else {
        match two_byte_code((n - 1) as u8) {
            Some(c) => two_byte_codes((n - 1) as nat).push(c),
            None => two_byte_codes((n - 1) as nat),
        }
    }
}

/// Every instruction, in encoding order: the single-byte ones, then those with
/// the escape prefix.
pub open spec fn all_codes() -> Seq<Code> {
    one_byte_codes(0x100) + two_byte_codes(0x20)
}

/// Every opcode, in encoding order (single-byte instructions by ascending
/// second byte, then the `0xFE`-prefixed ones).
pub fn all() -> (r: Vec<OpCode>)
    ensures
        r@.len() == all_codes().len(),
        forall|k: int| 0 <= k < r@.len() ==> (#[trigger] r@[k])@ == described(all_codes()[k]),
{
    let mut r: Vec<OpCode> = Vec::new();
    let mut b: u16 = 0;
    while b < 0x100
        invariant
            b <= 0x100,
            r@.len() == one_byte_codes(b as nat).len(),
            forall|k: int|
                0 <= k < r@.len() ==> (#[trigger] r@[k])@ == described(
                    one_byte_codes(b as nat)[k],
                ),
        decreases 0x100 - b,
    {
        match one_byte(b as u8) {
            Some(op) => r.push(op),
            None => {},
        }
        b += 1;
    }
    let ghost front = one_byte_codes(0x100);
    let mut t: u16 = 0;
    proof {
        assert(front + two_byte_codes(0) =~= front);
    }
    while t < 0x20
        invariant
            t <= 0x20,
            front == one_byte_codes(0x100),
            r@.len() == (front + two_byte_codes(t as nat)).len(),
            forall|k: int|
                0 <= k < r@.len() ==> (#[trigger] r@[k])@ == described(
                    (front + two_byte_codes(t as nat))[k],
                ),
        decreases 0x20 - t,
    {
        let ghost before = front + two_byte_codes(t as nat);
        match two_byte(t as u8) {
            Some(op) => {
                proof {
                    assert(front + two_byte_codes((t + 1) as nat) =~= before.push(
                        two_byte_code(t as u8)->Some_0,
                    ));
                }
                r.push(op)
            },
            None => {},
        }
        t += 1;
    }
    r
}

/// A lookup of the encoding of an instruction finds the instruction.
pub proof fn lookup_finds_encoding(code: Code)
    ensures
        escaped(code) ==> two_byte_code(second_byte(code)) == Some(code),
        !escaped(code) ==> one_byte_code(second_byte(code)) == Some(code),
{
    reveal(escaped);
    reveal(second_byte);
    reveal(one_byte_code);
    reveal(two_byte_code);
}

#[verifier::rlimit(40)]
#[verifier::spinoff_prover]
proof fn found_one_byte(second: u8)
    ensures
        one_byte_code(second) matches Some(c) ==> !escaped(c) && second_byte(c) == second,
{
    reveal(escaped);
    reveal(second_byte);
    reveal(one_byte_code);
}

proof fn found_two_byte(second: u8)
    ensures
        two_byte_code(second) matches Some(c) ==> escaped(c) && second_byte(c) == second && second
            < 0x20,
{
    reveal(escaped);
    reveal(second_byte);
    reveal(two_byte_code);
}

/// What a lookup finds has the encoding that was looked up.
pub proof fn found_has_encoding(second: u8)
    ensures
        one_byte_code(second) matches Some(c) ==> !escaped(c) && second_byte(c) == second,
        two_byte_code(second) matches Some(c) ==> escaped(c) && second_byte(c) == second && second
            < 0x20,
{
    found_one_byte(second);
    found_two_byte(second);
}

/// The escape prefix is no instruction.
pub proof fn escape_is_no_instruction()
    ensures
        one_byte_code(0xFE) is None,
{
    reveal(one_byte_code);
}

/// The fixed part of every instruction takes one to eleven bytes: those of the
/// opcode and those of the operand, where a switch counts its number of
/// targets.
pub proof fn instruction_sizes_match_operand_types(code: Code)
    ensures
        1 <= described(code).fixed_size() <= 11,
        described(code).fixed_size() == described(code).size + match operand_type(code).width() {
            Some(n) => n as int,
            None => 4,
        },
        described(code).bytes().len() == described(code).size,
{
}

/// No two instructions have the same encoding.
pub proof fn encodings_are_unique(a: Code, b: Code)
    requires
        encoding(a) == encoding(b),
    ensures
        a == b,
{
    lookup_finds_encoding(a);
    lookup_finds_encoding(b);
}

proof fn one_byte_listed(n: nat, second: u8)
    requires
        second < n <= 0x100,
        one_byte_code(second) is Some,
    ensures
        one_byte_codes(n).contains(one_byte_code(second)->Some_0),
    decreases n,
{
    let c = one_byte_code(second)->Some_0;
    let codes = one_byte_codes(n);
    if second == n - 1 {
        assert(codes[codes.len() - 1] == c);
    } else {
        one_byte_listed((n - 1) as nat, second);
        let front = one_byte_codes((n - 1) as nat);
        let k = choose|k: int| 0 <= k < front.len() && front[k] == c;
        assert(codes[k] == c);
    }
}

proof fn two_byte_listed(n: nat, second: u8)
    requires
        second < n <= 0x20,
        two_byte_code(second) is Some,
    ensures
        two_byte_codes(n).contains(two_byte_code(second)->Some_0),
    decreases n,
{
    let c = two_byte_code(second)->Some_0;
    let codes = two_byte_codes(n);
    if second == n - 1 {
        assert(codes[codes.len() - 1] == c);
    } else {
        two_byte_listed((n - 1) as nat, second);
        let front = two_byte_codes((n - 1) as nat);
        let k = choose|k: int| 0 <= k < front.len() && front[k] == c;
        assert(codes[k] == c);
    }
}

/// The table holds every instruction.
pub proof fn table_is_complete(code: Code)
    ensures
        all_codes().contains(code),
{
    lookup_finds_encoding(code);
    let second = second_byte(code);
    let front = one_byte_codes(0x100);
    let back = two_byte_codes(0x20);
    if !escaped(code) {
        one_byte_listed(0x100, second);
        let k = choose|k: int| 0 <= k < front.len() && front[k] == code;
        assert(all_codes()[k] == code);
    } else {
        found_has_encoding(second);
        two_byte_listed(0x20, second);
        let k = choose|k: int| 0 <= k < back.len() && back[k] == code;
        assert(all_codes()[front.len() + k] == code);
    }
}

} // verus!
