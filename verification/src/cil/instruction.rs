//! The CIL instruction model, decoupled from the object model: metadata
//! references stay encoded as tokens.

use vstd::prelude::*;

use crate::bytes;
use crate::cil::opcode;
use crate::cil::opcode::{OpCode, OpCodeView, OperandType};
use crate::text;
use crate::token::Token;

verus! {

/// The inline operand of an instruction. Metadata references are tokens or
/// heap indices; floating-point immediates are bit patterns.
#[derive(Debug, Clone, PartialEq)]
pub enum Operand {
    /// No operand (`InlineNone`).
    Empty,
    /// Signed 8-bit immediate (`ShortInlineI`, e.g. `ldc.i4.s`, `unaligned.`).
    Int8(i8),
    /// Signed 32-bit immediate (`InlineI`) or a branch-relative base.
    Int32(i32),
    /// Signed 64-bit immediate (`InlineI8`).
    Int64(i64),
    /// The bits of a single-precision immediate (`ShortInlineR`).
    Float32(u32),
    /// The bits of a double-precision immediate (`InlineR`).
    Float64(u64),
    /// Absolute target IL offset of a branch (`ShortInlineBrTarget` /
    /// `InlineBrTarget`).
    Branch(i32),
    /// Absolute target IL offsets of a `switch` (`InlineSwitch`).
    Switch(Vec<i32>),
    /// Raw metadata token (`InlineType`, `InlineMethod`, `InlineField`,
    /// `InlineTok`, `InlineSig`).
    Token(Token),
    /// User-string heap index (`InlineString` / `ldstr`).
    UserString(u32),
    /// Local variable or parameter index (`ShortInlineVar`, `InlineVar`,
    /// `ShortInlineArg`, `InlineArg`).
    Var(u16),
    /// Raw RVA operand (reserved; produced by higher-level resolution).
    Rva(u64),
}

/// What an operand says.
#[verifier::ext_equal]
pub enum OperandView {
    Empty,
    Int8(i8),
    Int32(i32),
    Int64(i64),
    Float32(u32),
    Float64(u64),
    Branch(i32),
    Switch(Seq<i32>),
    Token(Token),
    UserString(u32),
    Var(u16),
    Rva(u64),
}

impl View for Operand {
    type V = OperandView;

    open spec fn view(&self) -> OperandView {
        match *self {
            Operand::Empty => OperandView::Empty,
            Operand::Int8(v) => OperandView::Int8(v),
            Operand::Int32(v) => OperandView::Int32(v),
            Operand::Int64(v) => OperandView::Int64(v),
            Operand::Float32(v) => OperandView::Float32(v),
            Operand::Float64(v) => OperandView::Float64(v),
            Operand::Branch(v) => OperandView::Branch(v),
            Operand::Switch(v) => OperandView::Switch(v@),
            Operand::Token(v) => OperandView::Token(v),
            Operand::UserString(v) => OperandView::UserString(v),
            Operand::Var(v) => OperandView::Var(v),
            Operand::Rva(v) => OperandView::Rva(v),
        }
    }
}

impl Operand {
    /// True when this operand carries no data.
    pub fn is_none(&self) -> (b: bool)
        ensures
            b == (self@ == OperandView::Empty),
    {
        match self {
            Operand::Empty => true,
            _ => false,
        }
    }
}

/// A single CIL instruction: its offset within the method body, the opcode,
/// and the decoded operand.
///
/// Branch targets ([`Operand::Branch`], [`Operand::Switch`]) store absolute
/// IL offsets.
#[derive(Debug, Clone, PartialEq)]
pub struct Instruction {
    /// Offset of this instruction from the start of the method's IL code.
    pub offset: i32,
    /// The opcode.
    pub opcode: OpCode,
    /// The decoded operand ([`Operand::Empty`] for `InlineNone` opcodes).
    pub operand: Operand,
}

/// What an instruction says.
#[verifier::ext_equal]
pub struct InstructionView {
    pub offset: i32,
    pub opcode: OpCodeView,
    pub operand: OperandView,
}

impl View for Instruction {
    type V = InstructionView;

    open spec fn view(&self) -> InstructionView {
        InstructionView { offset: self.offset, opcode: self.opcode@, operand: self.operand@ }
    }
}

/// What instructions say.
pub open spec fn instruction_views(instructions: Seq<Instruction>) -> Seq<InstructionView> {
    Seq::new(instructions.len(), |k: int| instructions[k]@)
}

impl InstructionView {
    /// How many bytes the instruction is counted as.
    pub open spec fn size(self) -> nat {
        match self.operand {
            OperandView::Switch(targets) => self.opcode.size as nat + 4 * (1 + targets.len()),
            _ => self.opcode.fixed_size(),
        }
    }
}

/// A label: `IL_` and at least four digits.
pub open spec fn label(offset: i32) -> Seq<char> {
    "IL_"@ + text::lower_hex_padded(bytes::u32_of(offset) as nat, 4)
}

/// The targets of a switch, each behind a space, with commas in between.
pub open spec fn switch_labels(targets: Seq<i32>, n: nat) -> Seq<char>
    decreases n,
{
    if n == 0 {
        Seq::empty()
    } else {
        let front = switch_labels(targets, (n - 1) as nat);
        (if n > 1 {
            front.push(',')
        } else {
            front
        }) + " "@ + label(targets[n - 1])
    }
}

/// A named number: the name and the number in brackets.
pub open spec fn named_number(name: Seq<char>, v: int) -> Seq<char> {
    name + text::signed_decimal(v) + ")"@
}

/// The first `n` numbers of a list, with commas in between.
pub open spec fn listed_numbers(numbers: Seq<i32>, n: nat) -> Seq<char>
    decreases n,
{
    if n == 0 {
        Seq::empty()
    } else {
        let front = listed_numbers(numbers, (n - 1) as nat);
        (if n > 1 {
            front + ", "@
        } else {
            front
        }) + text::signed_decimal(numbers[n - 1] as int)
    }
}

/// The operand as its kind and its value: like `Int8(5)`. A floating-point
/// number stands as `number`.
pub open spec fn operand_value(operand: OperandView, number: Seq<char>) -> Seq<char> {
    match operand {
        OperandView::Empty => "None"@,
        OperandView::Branch(target) => named_number("Branch("@, target as int),
        OperandView::Switch(targets) => "Switch(["@ + listed_numbers(targets, targets.len())
            + "])"@,
        OperandView::UserString(i) => named_number("UserString("@, i as int),
        OperandView::Token(t) => named_number("Token(Token("@, t.0 as int) + ")"@,
        OperandView::Int8(v) => named_number("Int8("@, v as int),
        OperandView::Int32(v) => named_number("Int32("@, v as int),
        OperandView::Int64(v) => named_number("Int64("@, v as int),
        OperandView::Float32(_) => "Float32("@ + number + ")"@,
        OperandView::Float64(_) => "Float64("@ + number + ")"@,
        OperandView::Var(v) => named_number("Var("@, v as int),
        OperandView::Rva(v) => named_number("Rva("@, v as int),
    }
}

/// The operand as it stands behind the mnemonic; a floating-point number stands
/// as `number`.
pub open spec fn operand_text(operand: OperandView, number: Seq<char>) -> Seq<char> {
    match operand {
        OperandView::Empty => Seq::empty(),
        OperandView::Branch(target) => " "@ + label(target),
        OperandView::Switch(targets) => switch_labels(targets, targets.len()),
        OperandView::UserString(i) => " \"<us:0x"@ + text::lower_hex(i as nat) + ">\""@,
        OperandView::Token(t) => " 0x"@ + text::hex_digits(t.0, 8),
        _ => " "@ + operand_value(operand, number),
    }
}

/// The bits of a floating-point operand in decimal digits; nothing of another
/// operand.
pub open spec fn float_bits(operand: OperandView) -> Seq<char> {
    match operand {
        OperandView::Float32(v) => text::decimal(v as nat),
        OperandView::Float64(v) => text::decimal(v as nat),
        _ => Seq::empty(),
    }
}

fn push_label(s: &mut String, offset: i32)
    ensures
        final(s)@ == old(s)@ + label(offset),
{
    text::push_text(s, "IL_");
    text::push_lower_hex_padded(s, bytes::as_u32(offset) as u64, 4);
    proof {
        assert(s@ =~= old(s)@ + label(offset));
    }
}

pub(crate) fn push_named_signed(s: &mut String, name: &str, v: i64)
    ensures
        final(s)@ == old(s)@ + named_number(name@, v as int),
{
    text::push_text(s, name);
    text::push_signed(s, v as i128);
    text::push_text(s, ")");
    proof {
        assert(s@ =~= old(s)@ + named_number(name@, v as int));
    }
}

pub(crate) fn push_named_unsigned(s: &mut String, name: &str, v: u64)
    ensures
        final(s)@ == old(s)@ + named_number(name@, v as int),
{
    text::push_text(s, name);
    text::push_decimal(s, v);
    text::push_text(s, ")");
    proof {
        assert(s@ =~= old(s)@ + named_number(name@, v as int));
    }
}

fn push_switch(s: &mut String, targets: &Vec<i32>)
    ensures
        final(s)@ == old(s)@ + switch_labels(targets@, targets@.len()),
{
    let n: usize = targets.len();
    let mut i: usize = 0;
    proof {
        assert(s@ =~= old(s)@ + switch_labels(targets@, 0));
    }
    while i < n
        invariant
            i <= n,
            n == targets@.len(),
            s@ == old(s)@ + switch_labels(targets@, i as nat),
        decreases n - i,
    {
        if i > 0 {
            text::push_text(s, ",");
            proof {
                reveal_strlit(",");
            }
        }
        text::push_text(s, " ");
        push_label(s, targets[i]);
        proof {
            assert(s@ =~= old(s)@ + switch_labels(targets@, (i + 1) as nat));
        }
        i += 1;
    }
}

pub(crate) fn push_list(s: &mut String, numbers: &Vec<i32>)
    ensures
        final(s)@ == old(s)@ + listed_numbers(numbers@, numbers@.len()),
{
    let n: usize = numbers.len();
    let mut i: usize = 0;
    proof {
        assert(s@ =~= old(s)@ + listed_numbers(numbers@, 0));
    }
    while i < n
        invariant
            i <= n,
            n == numbers@.len(),
            s@ == old(s)@ + listed_numbers(numbers@, i as nat),
        decreases n - i,
    {
        if i > 0 {
            text::push_text(s, ", ");
        }
        text::push_signed(s, numbers[i] as i128);
        proof {
            assert(s@ =~= old(s)@ + listed_numbers(numbers@, (i + 1) as nat));
        }
        i += 1;
    }
}

/// Appends the operand as its kind and its value.
pub(crate) fn push_operand_value(s: &mut String, operand: &Operand, number: &str)
    ensures
        final(s)@ == old(s)@ + operand_value(operand@, number@),
{
    match operand {
        Operand::Empty => text::push_text(s, "None"),
        Operand::Branch(target) => push_named_signed(s, "Branch(", *target as i64),
        Operand::Switch(targets) => {
            text::push_text(s, "Switch([");
            push_list(s, targets);
            text::push_text(s, "])");
        },
        Operand::UserString(i) => push_named_unsigned(s, "UserString(", *i as u64),
        Operand::Token(t) => {
            push_named_unsigned(s, "Token(Token(", t.0 as u64);
            text::push_text(s, ")");
        },
        Operand::Int8(v) => push_named_signed(s, "Int8(", *v as i64),
        Operand::Int32(v) => push_named_signed(s, "Int32(", *v as i64),
        Operand::Int64(v) => push_named_signed(s, "Int64(", *v),
        Operand::Float32(_) => {
            text::push_text(s, "Float32(");
            text::push_text(s, number);
            text::push_text(s, ")");
        },
        Operand::Float64(_) => {
            text::push_text(s, "Float64(");
            text::push_text(s, number);
            text::push_text(s, ")");
        },
        Operand::Var(v) => push_named_unsigned(s, "Var(", *v as u64),
        Operand::Rva(v) => push_named_unsigned(s, "Rva(", *v),
    }
    proof {
        assert(s@ =~= old(s)@ + operand_value(operand@, number@));
    }
}

/// The bits of a floating-point operand in decimal digits.
pub(crate) fn bits_text(operand: &Operand) -> (s: String)
    ensures
        s@ == float_bits(operand@),
{
    let mut s: String = String::new();
    match operand {
        Operand::Float32(v) => text::push_decimal(&mut s, *v as u64),
        Operand::Float64(v) => text::push_decimal(&mut s, *v),
        _ => {},
    }
    proof {
        assert(s@ =~= float_bits(operand@));
    }
    s
}

fn push_operand(s: &mut String, operand: &Operand, number: &str)
    ensures
        final(s)@ == old(s)@ + operand_text(operand@, number@),
{
    match operand {
        Operand::Empty => {},
        Operand::Branch(target) => {
            text::push_text(s, " ");
            push_label(s, *target);
        },
        Operand::Switch(targets) => push_switch(s, targets),
        Operand::UserString(i) => {
            text::push_text(s, " \"<us:0x");
            text::push_lower_hex(s, *i as u64);
            text::push_text(s, ">\"");
        },
        Operand::Token(t) => {
            text::push_text(s, " 0x");
            text::push_hex(s, t.0, 8);
        },
        _ => {
            text::push_text(s, " ");
            push_operand_value(s, operand, number);
        },
    }
    proof {
        assert(s@ =~= old(s)@ + operand_text(operand@, number@));
    }
}

impl Instruction {
    /// Creates an instruction at `offset`.
    pub fn new(offset: i32, opcode: OpCode, operand: Operand) -> (i: Self)
        ensures
            i@ == (InstructionView { offset, opcode: opcode@, operand: operand@ }),
    {
        Instruction { offset, opcode, operand }
    }

    /// Creates a zero-operand instruction at `offset`; the opcode must not
    /// expect an operand.
    pub fn none(offset: i32, opcode: OpCode) -> (i: Self)
        requires
            opcode.operand_type == OperandType::InlineNone,
        ensures
            i@ == (InstructionView { offset, opcode: opcode@, operand: OperandView::Empty }),
    {
        Instruction { offset, opcode, operand: Operand::Empty }
    }

    /// Full encoded length of this instruction in bytes, including the
    /// variable switch-target table.
    pub fn size(&self) -> (n: usize)
        requires
            self@.size() <= usize::MAX,
        ensures
            n == self@.size(),
    {
        match &self.operand {
            Operand::Switch(targets) => self.opcode.size as usize + 4 * (1 + targets.len()),
            _ => opcode::instruction_size(self.opcode),
        }
    }

    /// The instruction as a line, like `IL_0004: ldarg.0`. A floating-point
    /// operand is held as its bits: `number` says how the number prints, and is
    /// not read where the operand is none.
    pub fn display(&self, number: &str) -> (s: String)
        ensures
            s@ == label(self.offset) + ": "@ + self.opcode.name@ + operand_text(
                self.operand@,
                number@,
            ),
    {
        let mut s: String = String::new();
        push_label(&mut s, self.offset);
        text::push_text(&mut s, ": ");
        text::push_text(&mut s, self.opcode.name);
        push_operand(&mut s, &self.operand, number);
        proof {
            assert(s@ =~= label(self.offset) + ": "@ + self.opcode.name@ + operand_text(
                self.operand@,
                number@,
            ));
        }
        s
    }
}

} // verus!
