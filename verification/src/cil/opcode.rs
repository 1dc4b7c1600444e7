//! Opcode descriptor type and operand-kind enumeration.
//!
//! An [`OpCode`] couples an instruction identifier ([`Code`]) with its wire
//! encoding (one- or two-byte) and the shape of its
//! inline operand ([`OperandType`]).

use vstd::prelude::*;

use crate::cil::code::Code;

verus! {

/// The shape and width of an opcode's inline operand.
#[derive(Debug, Clone, Copy, PartialEq, Eq, Hash, PartialOrd, Ord, Structural)]
pub enum OperandType {
    InlineBrTarget,
    InlineField,
    InlineI,
    InlineI8,
    InlineMethod,
    InlineNone,
    InlineR,
    InlineSig,
    InlineString,
    InlineSwitch,
    InlineTok,
    InlineType,
    InlineVar,
    InlineArg,
    ShortInlineBrTarget,
    ShortInlineI,
    ShortInlineR,
    ShortInlineVar,
    ShortInlineArg,
}

impl OperandType {
    /// The name of the kind.
    pub open spec fn label(self) -> Seq<char> {
        match self {
            OperandType::InlineBrTarget => "InlineBrTarget"@,
            OperandType::InlineField => "InlineField"@,
            OperandType::InlineI => "InlineI"@,
            OperandType::InlineI8 => "InlineI8"@,
            OperandType::InlineMethod => "InlineMethod"@,
            OperandType::InlineNone => "InlineNone"@,
            OperandType::InlineR => "InlineR"@,
            OperandType::InlineSig => "InlineSig"@,
            OperandType::InlineString => "InlineString"@,
            OperandType::InlineSwitch => "InlineSwitch"@,
            OperandType::InlineTok => "InlineTok"@,
            OperandType::InlineType => "InlineType"@,
            OperandType::InlineVar => "InlineVar"@,
            OperandType::InlineArg => "InlineArg"@,
            OperandType::ShortInlineBrTarget => "ShortInlineBrTarget"@,
            OperandType::ShortInlineI => "ShortInlineI"@,
            OperandType::ShortInlineR => "ShortInlineR"@,
            OperandType::ShortInlineVar => "ShortInlineVar"@,
            OperandType::ShortInlineArg => "ShortInlineArg"@,
        }
    }

    /// The name of the kind.
    pub fn name(self) -> (s: &'static str)
        ensures
            s@ == self.label(),
    {
        match self {
            OperandType::InlineBrTarget => "InlineBrTarget",
            OperandType::InlineField => "InlineField",
            OperandType::InlineI => "InlineI",
            OperandType::InlineI8 => "InlineI8",
            OperandType::InlineMethod => "InlineMethod",
            OperandType::InlineNone => "InlineNone",
            OperandType::InlineR => "InlineR",
            OperandType::InlineSig => "InlineSig",
            OperandType::InlineString => "InlineString",
            OperandType::InlineSwitch => "InlineSwitch",
            OperandType::InlineTok => "InlineTok",
            OperandType::InlineType => "InlineType",
            OperandType::InlineVar => "InlineVar",
            OperandType::InlineArg => "InlineArg",
            OperandType::ShortInlineBrTarget => "ShortInlineBrTarget",
            OperandType::ShortInlineI => "ShortInlineI",
            OperandType::ShortInlineR => "ShortInlineR",
            OperandType::ShortInlineVar => "ShortInlineVar",
            OperandType::ShortInlineArg => "ShortInlineArg",
        }
    }

    /// How many bytes the operand takes; that of a switch varies.
    pub open spec fn width(self) -> Option<nat> {
        match self {
            OperandType::InlineNone => Some(0),
            OperandType::ShortInlineBrTarget
            | OperandType::ShortInlineI
            | OperandType::ShortInlineVar
            | OperandType::ShortInlineArg => Some(1),
            OperandType::InlineVar | OperandType::InlineArg => Some(2),
            OperandType::InlineI8 | OperandType::InlineR => Some(8),
            OperandType::InlineSwitch => None,
            _ => Some(4),
        }
    }

    /// Fixed operand width in bytes; [`OperandType::InlineSwitch`] has no
    /// fixed width (`None`) because it carries a variable number of targets.
    pub fn size(self) -> (r: Option<usize>)
        ensures
            match self.width() {
                Some(n) => r == Some(n as usize) && n <= 8,
                None => r is None,
            },
    {
        match self {
            OperandType::InlineNone => Some(0),
            OperandType::ShortInlineBrTarget
            | OperandType::ShortInlineI
            | OperandType::ShortInlineVar
            | OperandType::ShortInlineArg => Some(1),
            OperandType::InlineVar | OperandType::InlineArg => Some(2),
            OperandType::InlineBrTarget
            | OperandType::InlineField
            | OperandType::InlineI
            | OperandType::InlineMethod
            | OperandType::InlineSig
            | OperandType::InlineString
            | OperandType::InlineTok
            | OperandType::InlineType
            | OperandType::ShortInlineR => Some(4),
            OperandType::InlineI8 | OperandType::InlineR => Some(8),
            OperandType::InlineSwitch => None,
        }
    }
}

/// A CIL opcode: identifier, canonical mnemonic, wire encoding and operand kind.
#[derive(Debug, Clone, Copy, PartialEq, Eq, Hash)]
pub struct OpCode {
    /// Instruction identifier.
    pub code: Code,
    /// Canonical IL mnemonic, e.g. `"ldarg.0"`, `"br.s"`, `"conv.ovf.i1.un"`.
    pub name: &'static str,
    /// Shape of the inline operand.
    pub operand_type: OperandType,
    /// Length in bytes of the opcode itself: 1 (`0xFF` prefix byte omitted)
    /// or 2 (`0xFE` prefix + second byte).
    pub size: u8,
    /// First encoding byte: `0xFF` for single-byte opcodes, `0xFE` for
    /// two-byte opcodes.
    pub byte1: u8,
    /// Second encoding byte (the low byte of the instruction encoding).
    pub byte2: u8,
}

/// What an opcode descriptor says.
#[verifier::ext_equal]
pub struct OpCodeView {
    pub code: Code,
    pub name: Seq<char>,
    pub operand_type: OperandType,
    pub size: u8,
    pub byte1: u8,
    pub byte2: u8,
}

impl View for OpCode {
    type V = OpCodeView;

    open spec fn view(&self) -> OpCodeView {
        OpCodeView {
            code: self.code,
            name: self.name@,
            operand_type: self.operand_type,
            size: self.size,
            byte1: self.byte1,
            byte2: self.byte2,
        }
    }
}

impl OpCodeView {
    /// How many bytes the opcode and the fixed part of its operand take; of a
    /// switch that is the number of its targets.
    pub open spec fn fixed_size(self) -> nat {
        self.size as nat + match self.operand_type.width() {
            Some(n) => n,
            None => 4,
        }
    }

    /// The bytes of the opcode.
    pub open spec fn bytes(self) -> Seq<u8> {
        if self.byte1 == 0xFF {
            seq![self.byte2]
        } else {
            seq![self.byte1, self.byte2]
        }
    }
}

impl OpCode {
    /// Builds an opcode descriptor from its encoding halves.
    pub fn new(
        code: Code,
        name: &'static str,
        byte1: u8,
        byte2: u8,
        operand_type: OperandType,
    ) -> (op: Self)
        ensures
            op@ == (OpCodeView {
                code,
                name: name@,
                operand_type,
                size: if byte1 == 0xFF {
                    1
                } else {
                    2
                },
                byte1,
                byte2,
            }),
    {
        OpCode {
            code,
            name,
            operand_type,
            size: if byte1 == 0xFF {
                1
            } else {
                2
            },
            byte1,
            byte2,
        }
    }

    /// Full two-byte encoding, the first byte in the high half.
    pub fn encoding(self) -> (e: u16)
        ensures
            e == self.byte1 * 0x100 + self.byte2,
    {
        self.byte1 as u16 * 0x100 + self.byte2 as u16
    }

    /// True when the opcode is a single-byte instruction.
    pub fn is_single_byte(self) -> (b: bool)
        ensures
            b == (self.byte1 == 0xFF),
    {
        self.byte1 == 0xFF
    }
}

/// Encoded size in bytes of the fixed part of an instruction: the opcode
/// bytes plus its fixed-width operand.
///
/// For [`OperandType::InlineSwitch`] only the leading target-count `u32` is
/// counted; each additional switch target adds 4 bytes.
pub fn instruction_size(op: OpCode) -> (n: usize)
    ensures
        n == op@.fixed_size(),
        n <= 263,
{
    let operand: usize = match op.operand_type.size() {
        Some(n) => n,
        None => 4,
    };
    op.size as usize + operand
}

} // verus!
