//! Laws of how instructions are spelled: labels, switches and operands.

use vstd::prelude::*;

use crate::cil::instruction;
use crate::cil::instruction::OperandView;
use crate::encoding_laws;
use crate::text;
use crate::token::Token;

verus! {

/// The label of an offset is `IL_` and at least four lower-case hexadecimal digits
/// with the value of the offset, and no more of them than it takes.
pub proof fn labels(offset: i32)
    requires
        offset >= 0,
    ensures
        instruction::label(offset).take(3) == seq!['I', 'L', '_'],
        encoding_laws::numeral_value(instruction::label(offset).skip(3), 16) == offset,
        encoding_laws::all_digits(instruction::label(offset).skip(3), 16),
        encoding_laws::lower_case(instruction::label(offset).skip(3)),
        instruction::label(offset).len() >= 7,
        instruction::label(offset).len() > 7 ==> instruction::label(offset)[3] != '0',
{
    reveal_strlit("IL_");
    let v = crate::bytes::u32_of(offset);
    encoding_laws::signs_change_by_the_modulus(0, 0, v, 0);
    let t = text::lower_hex_padded(v as nat, 4);
    encoding_laws::padded_hex_has_its_value(v as nat, 4);
    encoding_laws::lower_hex_has_its_value(v as nat);
    assert(instruction::label(offset).take(3) =~= seq!['I', 'L', '_']);
    assert(instruction::label(offset).skip(3) =~= t);
}

/// A branch is spelled as the label of its target, and a switch as those of its
/// targets, each behind a space and with commas in between.
pub proof fn branches_are_spelled(a: i32, b: i32, c: i32, number: Seq<char>)
    ensures
        instruction::operand_text(OperandView::Branch(a), number) == seq![' ']
            + instruction::label(a),
        instruction::operand_text(OperandView::Switch(Seq::empty()), number).len() == 0,
        instruction::operand_text(OperandView::Switch(seq![a]), number) == seq![' ']
            + instruction::label(a),
        instruction::operand_text(OperandView::Switch(seq![a, b, c]), number) == seq![' ']
            + instruction::label(a) + seq![',', ' '] + instruction::label(b) + seq![',', ' ']
            + instruction::label(c),
{
    reveal_strlit(" ");
    reveal_with_fuel(instruction::switch_labels, 4);
    assert(" "@ =~= seq![' ']);
    let one = instruction::operand_text(OperandView::Switch(seq![a]), number);
    assert(one =~= seq![' '] + instruction::label(a));
    let s = seq![a, b, c];
    assert(instruction::switch_labels(s, 1) =~= seq![' '] + instruction::label(a));
    assert(instruction::switch_labels(s, 2) =~= seq![' '] + instruction::label(a) + seq![',', ' ']
        + instruction::label(b));
    assert(instruction::switch_labels(s, 3) =~= seq![' '] + instruction::label(a) + seq![',', ' ']
        + instruction::label(b) + seq![',', ' '] + instruction::label(c));
}

/// One more target of a switch adds its label behind a comma.
pub proof fn switches_grow(targets: Seq<i32>, target: i32, number: Seq<char>)
    requires
        targets.len() > 0,
    ensures
        instruction::operand_text(OperandView::Switch(targets.push(target)), number)
            == instruction::operand_text(OperandView::Switch(targets), number) + seq![',', ' ']
            + instruction::label(target),
{
    reveal_strlit(" ");
    let all = targets.push(target);
    front_labels(all, targets, targets.len());
    assert(instruction::switch_labels(all, all.len()) =~= instruction::switch_labels(
        targets,
        targets.len(),
    ) + seq![',', ' '] + instruction::label(target));
}

proof fn front_labels(a: Seq<i32>, b: Seq<i32>, n: nat)
    requires
        n <= a.len(),
        n <= b.len(),
        forall|k: int| 0 <= k < n ==> a[k] == b[k],
    ensures
        instruction::switch_labels(a, n) == instruction::switch_labels(b, n),
    decreases n,
{
    if n > 0 {
        front_labels(a, b, (n - 1) as nat);
    }
}

/// A token is spelled with eight upper-case hexadecimal digits, and the index of a
/// user string with lower-case ones.
pub proof fn tokens_are_spelled(t: Token, i: u32, number: Seq<char>)
    ensures
        ({
            let spelled = instruction::operand_text(OperandView::Token(t), number);
            &&& spelled.len() == 11
            &&& spelled.take(3) == seq![' ', '0', 'x']
            &&& encoding_laws::numeral_value(spelled.skip(3), 16) == t.0
            &&& encoding_laws::upper_case(spelled.skip(3))
        }),
        ({
            let spelled = instruction::operand_text(OperandView::UserString(i), number);
            let end = spelled.len() - 2;
            &&& end > 8
            &&& spelled.take(8) == seq![' ', '"', '<', 'u', 's', ':', '0', 'x']
            &&& encoding_laws::numeral_value(spelled.subrange(8, end), 16) == i
            &&& encoding_laws::lower_case(spelled.subrange(8, end))
            &&& spelled.skip(end) == seq!['>', '"']
        }),
{
    reveal_strlit(" 0x");
    reveal_strlit(" \"<us:0x");
    reveal_strlit(">\"");
    reveal_with_fuel(encoding_laws::power_of_sixteen, 9);
    encoding_laws::hex_digits_have_their_value(t.0, 8);
    encoding_laws::lower_hex_has_its_value(i as nat);
    let spelled = instruction::operand_text(OperandView::Token(t), number);
    assert(spelled.take(3) =~= seq![' ', '0', 'x']);
    assert(spelled.skip(3) =~= text::hex_digits(t.0, 8));
    let other = instruction::operand_text(OperandView::UserString(i), number);
    let end = other.len() - 2;
    assert(other.take(8) =~= seq![' ', '"', '<', 'u', 's', ':', '0', 'x']);
    assert(other.subrange(8, end) =~= text::lower_hex(i as nat));
    assert(other.skip(end) =~= seq!['>', '"']);
}

/// The text of a kind of operand and of a number in brackets, behind a space.
pub open spec fn bracketed(kind: Seq<char>, value: Seq<char>) -> Seq<char> {
    seq![' '] + kind + seq!['('] + value + seq![')']
}

/// Numbers are spelled with the name of their kind, in decimal digits and brackets.
pub proof fn numbers_are_spelled(a: i8, b: i32, c: i64, d: u32, e: u64, f: u16, number: Seq<char>)
    ensures
        instruction::operand_text(OperandView::Empty, number).len() == 0,
        instruction::operand_text(OperandView::Int8(a), number) == bracketed(
            "Int8"@,
            text::signed_decimal(a as int),
        ),
        instruction::operand_text(OperandView::Int32(b), number) == bracketed(
            "Int32"@,
            text::signed_decimal(b as int),
        ),
        instruction::operand_text(OperandView::Int64(c), number) == bracketed(
            "Int64"@,
            text::signed_decimal(c as int),
        ),
        instruction::operand_text(OperandView::Float32(d), number) == bracketed(
            "Float32"@,
            number,
        ),
        instruction::operand_text(OperandView::Float64(e), number) == bracketed(
            "Float64"@,
            number,
        ),
        instruction::operand_text(OperandView::Var(f), number) == bracketed(
            "Var"@,
            text::signed_decimal(f as int),
        ),
{
    reveal_strlit(" ");
    reveal_strlit(")");
    reveal_strlit("Int8");
    reveal_strlit("Int8(");
    reveal_strlit("Int32");
    reveal_strlit("Int32(");
    reveal_strlit("Int64");
    reveal_strlit("Int64(");
    reveal_strlit("Float32");
    reveal_strlit("Float32(");
    reveal_strlit("Float64");
    reveal_strlit("Float64(");
    reveal_strlit("Var");
    reveal_strlit("Var(");
    assert("Int8("@ =~= "Int8"@ + seq!['(']);
    assert("Int32("@ =~= "Int32"@ + seq!['(']);
    assert("Int64("@ =~= "Int64"@ + seq!['(']);
    assert("Float32("@ =~= "Float32"@ + seq!['(']);
    assert("Float64("@ =~= "Float64"@ + seq!['(']);
    assert("Var("@ =~= "Var"@ + seq!['(']);
    assert(instruction::operand_text(OperandView::Int8(a), number) =~= bracketed(
        "Int8"@,
        text::signed_decimal(a as int),
    ));
    assert(instruction::operand_text(OperandView::Int32(b), number) =~= bracketed(
        "Int32"@,
        text::signed_decimal(b as int),
    ));
    assert(instruction::operand_text(OperandView::Int64(c), number) =~= bracketed(
        "Int64"@,
        text::signed_decimal(c as int),
    ));
    assert(instruction::operand_text(OperandView::Float32(d), number) =~= bracketed(
        "Float32"@,
        number,
    ));
    assert(instruction::operand_text(OperandView::Float64(e), number) =~= bracketed(
        "Float64"@,
        number,
    ));
    assert(instruction::operand_text(OperandView::Var(f), number) =~= bracketed(
        "Var"@,
        text::signed_decimal(f as int),
    ));
}

} // verus!
