//! What encoding makes of decoded code.

use vstd::prelude::*;

use crate::bytes;
use crate::cil::body;
use crate::cil::instruction::{InstructionView, OperandView};
use crate::cil::opcode::OperandType;
use crate::cil::opcodes;
use crate::error::ErrorKind;

verus! {

broadcast use crate::bytes::widths;

/// The token of every user string that is loaded names the user-string heap.
pub open spec fn strings_marked(s: Seq<u8>, instructions: Seq<InstructionView>) -> bool {
    forall|k: int|
        #![trigger instructions[k]]
        0 <= k < instructions.len() && instructions[k].operand is UserString ==> s[body::code_offset(
            instructions,
            k,
        ) + instructions[k].opcode.size + 3] == 0x70
}

/// The distance to a target that a distance led to is that distance.
proof fn distance_is_kept(base: int, d: i32)
    ensures
        bytes::low32(bytes::wrapped32(base + d) - base) == bytes::u32_of(d),
        bytes::wrapped32(bytes::wrapped32(base + d) - base) == d,
{
    let m = 0x1_0000_0000int;
    let sum = base + d;
    let q = sum / m;
    vstd::arithmetic::div_mod::lemma_fundamental_div_mod(sum, m);
    let w = bytes::wrapped32(sum);
    assert(w == sum - m * q || w == sum - m * (q + 1)) by {
        assert(m * (q + 1) == m * q + m) by (nonlinear_arith);
    }
    assert((d - m * q) % m == d as int % m) by {
        vstd::arithmetic::div_mod::lemma_mod_multiples_vanish(-q, d as int, m);
        assert(m * (-q) == -(m * q)) by (nonlinear_arith);
    }
    assert((d - m * (q + 1)) % m == d as int % m) by {
        vstd::arithmetic::div_mod::lemma_mod_multiples_vanish(-(q + 1), d as int, m);
        assert(m * (-(q + 1)) == -(m * (q + 1))) by (nonlinear_arith);
    }
    assert((w - base) % m == d as int % m);
    assert(bytes::low32(w - base) == bytes::low32(d as int));
}

/// The token of a user string is its mark and its index.
proof fn marked_token(v: u32)
    requires
        v / 0x100_0000 == 0x70,
    ensures
        0x7000_0000u32 | (v % 0x100_0000) == v,
{
    assert(v / 0x100_0000 == 0x70 ==> 0x7000_0000u32 | (v % 0x100_0000) == v) by (bit_vector);
}

proof fn high_byte(s: Seq<u8>, at: int)
    requires
        0 <= at,
        at + 4 <= s.len(),
    ensures
        bytes::u32_at(s, at) / 0x100_0000 == s[at + 3],
{
    reveal(bytes::u32_at);
}

/// The bytes of a signed integer that was read.
proof fn signed_bits(a: u8, b: u32, c: u64)
    ensures
        bytes::u8_of(bytes::i8_of(a)) == a,
        bytes::u32_of(bytes::i32_of(b)) == b,
        bytes::u64_of(bytes::i64_of(c)) == c,
{
}

/// A switch is written as it was read.
proof fn switch_reencodes(s: Seq<u8>, at: int, next: int)
    requires
        0 <= at,
        at + 4 <= s.len(),
        bytes::i32_of(bytes::u32_at(s, at)) >= 0,
        at + 4 + 4 * bytes::i32_of(bytes::u32_at(s, at)) <= s.len(),
    ensures
        ({
            let n = bytes::i32_of(bytes::u32_at(s, at)) as nat;
            let base = next + 4 * n;
            bytes::u32_le(bytes::low32(n as int)) + bytes::joined(
                body::switch_parts(body::switch_targets(s, at + 4, n, base), base),
            ) == s.subrange(at, at + 4 + 4 * n)
        }),
{
    let n = bytes::i32_of(bytes::u32_at(s, at)) as nat;
    let base = next + 4 * n;
    let targets = body::switch_targets(s, at + 4, n, base);
    let parts = body::switch_parts(targets, base);
    assert forall|k: int| 0 <= k < n implies #[trigger] parts[k] == s.subrange(
        at + 4 + 4 * k,
        at + 4 + 4 * k + 4,
    ) by {
        let v = bytes::u32_at(s, at + 4 + 4 * k);
        distance_is_kept(base, bytes::i32_of(v));
        signed_bits(0, v, 0);
        bytes::u32_bytes_round_trip(s, at + 4 + 4 * k);
    }
    parts_tile(s, at + 4, parts, n as int);
    assert(parts.take(n as int) =~= parts);
    bytes::u32_bytes_round_trip(s, at);
    assert(bytes::low32(n as int) == bytes::u32_at(s, at));
    assert(s.subrange(at, at + 4) + s.subrange(at + 4, at + 4 + 4 * n) =~= s.subrange(
        at,
        at + 4 + 4 * n,
    ));
}

/// Four-byte windows that follow one another are one window.
proof fn parts_tile(s: Seq<u8>, at: int, parts: Seq<Seq<u8>>, k: int)
    requires
        0 <= at,
        0 <= k <= parts.len(),
        at + 4 * k <= s.len(),
        forall|j: int|
            0 <= j < k ==> #[trigger] parts[j] == s.subrange(at + 4 * j, at + 4 * j + 4),
    ensures
        bytes::joined(parts.take(k)) == s.subrange(at, at + 4 * k),
    decreases k,
{
    if k > 0 {
        parts_tile(s, at, parts, k - 1);
        bytes::joined_step(parts, k - 1);
        assert(s.subrange(at, at + 4 * (k - 1)) + s.subrange(at + 4 * (k - 1), at + 4 * k)
            =~= s.subrange(at, at + 4 * k));
    } else {
        assert(parts.take(0) =~= Seq::<Seq<u8>>::empty());
        assert(s.subrange(at, at) =~= Seq::<u8>::empty());
    }
}

/// An operand is written as it was read.
pub proof fn operand_reencodes(s: Seq<u8>, at: int, kind: OperandType, next: int)
    requires
        0 <= at,
        body::operand_at(s, at, kind, next) is Some,
        at + body::operand_at(s, at, kind, next)->Some_0.1 <= s.len(),
        kind == OperandType::InlineString ==> s[at + 3] == 0x70,
    ensures
        ({
            let (operand, length) = body::operand_at(s, at, kind, next)->Some_0;
            body::operand_bytes(operand, kind, next) == Ok::<Seq<u8>, ErrorKind>(
                s.subrange(at, at + length),
            )
        }),
{
    reveal(body::operand_at);
    reveal(body::operand_bytes);
    let (operand, length) = body::operand_at(s, at, kind, next)->Some_0;
    let window = s.subrange(at, at + length);
    match kind {
        OperandType::InlineNone => {
            assert(window =~= Seq::<u8>::empty());
        },
        OperandType::InlineSwitch => {
            switch_reencodes(s, at, next);
        },
        OperandType::ShortInlineBrTarget => {
            distance_is_kept(next, bytes::i8_of(s[at]) as i32);
            signed_bits(s[at], 0, 0);
            assert(window =~= seq![s[at]]);
        },
        OperandType::ShortInlineI => {
            signed_bits(s[at], 0, 0);
            assert(window =~= seq![s[at]]);
        },
        OperandType::ShortInlineVar | OperandType::ShortInlineArg => {
            assert(window =~= seq![s[at]]);
        },
        OperandType::InlineVar | OperandType::InlineArg => {
            bytes::u16_bytes_round_trip(s, at);
        },
        OperandType::InlineI8 | OperandType::InlineR => {
            signed_bits(0, 0, bytes::u64_at(s, at));
            bytes::u64_bytes_round_trip(s, at);
        },
        OperandType::InlineString => {
            high_byte(s, at);
            marked_token(bytes::u32_at(s, at));
            bytes::u32_bytes_round_trip(s, at);
        },
        _ => {
            let v = bytes::u32_at(s, at);
            distance_is_kept(next, bytes::i32_of(v));
            signed_bits(0, v, 0);
            bytes::u32_bytes_round_trip(s, at);
        },
    }
}

/// An opcode is written as it was read.
proof fn opcode_reencodes(s: Seq<u8>, at: int)
    requires
        body::code_at(s, at) is Some,
    ensures
        ({
            let (code, width) = body::code_at(s, at)->Some_0;
            &&& width == opcodes::described(code).size
            &&& opcodes::described(code).bytes() == s.subrange(at, at + width)
            &&& at + width <= s.len()
        }),
{
    let (code, width) = body::code_at(s, at)->Some_0;
    opcodes::found_has_encoding(s[at]);
    if width == 1 {
        assert(s.subrange(at, at + 1) =~= seq![s[at]]);
    } else {
        opcodes::found_has_encoding(s[at + 1]);
        assert(s.subrange(at, at + 2) =~= seq![s[at], s[at + 1]]);
    }
}

/// The kind of an operand that was read.
proof fn operand_kind(s: Seq<u8>, at: int, kind: OperandType, next: int)
    requires
        body::operand_at(s, at, kind, next) is Some,
    ensures
        ({
            let (operand, length) = body::operand_at(s, at, kind, next)->Some_0;
            &&& operand is UserString <==> kind == OperandType::InlineString
            &&& length == match operand {
                OperandView::Switch(targets) => 4 + 4 * targets.len(),
                _ => kind.width()->Some_0,
            }
            &&& operand is Switch <==> kind == OperandType::InlineSwitch
        }),
{
    reveal(body::operand_at);
}

/// An instruction is written as it was read.
pub proof fn instruction_reencodes(s: Seq<u8>, at: int)
    requires
        0 <= at,
        body::instruction_at(s, at) is Some,
        at + body::instruction_at(s, at)->Some_0.1 <= s.len(),
        ({
            let i = body::instruction_at(s, at)->Some_0.0;
            i.operand is UserString ==> s[at + i.opcode.size + 3] == 0x70
        }),
    ensures
        ({
            let (i, width) = body::instruction_at(s, at)->Some_0;
            &&& body::instruction_bytes(i, at) == Ok::<Seq<u8>, ErrorKind>(
                s.subrange(at, at + width),
            )
            &&& i.size() == width
        }),
{
    let (i, width) = body::instruction_at(s, at)->Some_0;
    let size = body::code_at(s, at)->Some_0.1;
    let next = bytes::wrapped32(at) + i.opcode.fixed_size();
    opcode_reencodes(s, at);
    operand_kind(s, at + size, i.opcode.operand_type, next);
    operand_reencodes(s, at + size, i.opcode.operand_type, next);
    assert(s.subrange(at, at + size) + s.subrange(at + size, at + width) =~= s.subrange(
        at,
        at + width,
    ));
}

proof fn code_reencodes_from(s: Seq<u8>, instructions: Seq<InstructionView>, k: int)
    requires
        0 <= k <= instructions.len(),
        body::code_offset(instructions, k) <= s.len(),
        body::code_from(s, body::code_offset(instructions, k) as int) == Some(
            instructions.skip(k),
        ),
        strings_marked(s, instructions),
    ensures
        body::code_bytes_from(instructions, k) == Ok::<Seq<u8>, ErrorKind>(
            s.skip(body::code_offset(instructions, k) as int),
        ),
    decreases instructions.len() - k,
{
    let at = body::code_offset(instructions, k) as int;
    if k < instructions.len() {
        let left = instructions.skip(k);
        assert(left.len() > 0);
        assert(at < s.len());
        let (i, width) = body::instruction_at(s, at)->Some_0;
        let rest = body::code_from(s, at + width)->Some_0;
        assert(left =~= seq![i] + rest);
        assert(left[0] == i && left[0] == instructions[k]);
        assert(rest =~= left.skip(1));
        assert(left.skip(1) =~= instructions.skip(k + 1));
        instruction_reencodes(s, at);
        code_reencodes_from(s, instructions, k + 1);
        assert(s.subrange(at, at + width) + s.skip(at + width) =~= s.skip(at));
    } else {
        assert(instructions.skip(k) =~= Seq::<InstructionView>::empty());
        assert(at >= s.len()) by {
            if at < s.len() {
                let rest = body::code_from(
                    s,
                    at + body::instruction_at(s, at)->Some_0.1,
                )->Some_0;
                assert((seq![body::instruction_at(s, at)->Some_0.0] + rest).len() > 0);
            }
        }
        assert(s.skip(at) =~= Seq::<u8>::empty());
    }
}

/// Encoding undoes decoding: code that decodes is written byte for byte as it
/// was read. This holds of code whose user strings are loaded by tokens that
/// name the user-string heap, since the index is all that is kept of them.
pub proof fn decoded_code_reencodes(s: Seq<u8>, instructions: Seq<InstructionView>)
    requires
        body::code_from(s, 0) == Some(instructions),
        strings_marked(s, instructions),
    ensures
        body::code_bytes_from(instructions, 0) == Ok::<Seq<u8>, ErrorKind>(s),
{
    assert(instructions.skip(0) =~= instructions);
    code_reencodes_from(s, instructions, 0);
    assert(s.skip(0) =~= s);
}

} // verus!
