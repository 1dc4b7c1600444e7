//! How method bodies are laid out: the bits of their headers, the bytes of their
//! operands, and the fields of their exception clauses.

use vstd::prelude::*;

use crate::bytes;
use crate::cil::body;
use crate::cil::exceptions;
use crate::cil::exceptions::{ExceptionHandler, ExceptionHandlerType};
use crate::cil::instruction::OperandView;
use crate::cil::opcode::OperandType;
use crate::encoding_laws;
use crate::error::ErrorKind;
use crate::token::Token;

verus! {

/// A header with the low bits `10` is one byte, with the size of the code in the
/// other six; one with `11` has twelve bytes. Others are none.
pub proof fn headers_are_read(data: Seq<u8>)
    requires
        data.len() >= 1,
    ensures
        data[0] & 0x03 == 0x02 ==> (body::header_at(data) matches Some(h) && !h.fat && h.code_size
            == data[0] >> 2 && h.max_stack == 8 && h.locals_token.0 == 0 && !h.init_locals
            && !h.more_sects),
        data[0] & 0x03 == 0x03 && data.len() >= 12 ==> (body::header_at(data) matches Some(h)
            && h.fat && h.max_stack == encoding_laws::word(data, 2) && h.code_size == encoding_laws::double_word(data, 4)
            && h.locals_token.0 == encoding_laws::double_word(data, 8) && h.init_locals == (data[0] & 0x10 != 0)
            && h.more_sects == (data[0] & 0x08 != 0)),
        data[0] & 0x03 == 0x03 && data.len() < 12 ==> body::header_at(data) is None,
        data[0] & 0x03 != 0x02 && data[0] & 0x03 != 0x03 ==> body::header_at(data) is None,
{
    encoding_laws::words_agree(data);
    let b = data[0];
    let c = data[1];
    let w = bytes::u16_at(data, 0);
    assert(w == encoding_laws::word(data, 0));
    assert(b & 0x03 == b % 4 && b >> 2 == b / 4 && (w == b + 0x100 * c ==> (w / 0x10 % 2 == 1) == (b
        & 0x10 != 0) && (w / 8 % 2 == 1) == (b & 0x08 != 0))) by (bit_vector);
}

/// A tiny header holds code of less than 64 bytes and nothing else; a fat one
/// starts with `03 30`, or `13 30` where the locals are initialized.
pub proof fn headers_are_written(
    code_size: u32,
    max_stack: u16,
    locals: Token,
    init_locals: bool,
)
    ensures
        body::header_bytes(true, code_size, max_stack, locals, init_locals) is Ok <==> code_size
            <= 63 && max_stack <= 8 && locals.0 == 0 && !init_locals,
        code_size <= 63 && max_stack <= 8 && locals.0 == 0 && !init_locals ==> body::header_bytes(
            true,
            code_size,
            max_stack,
            locals,
            init_locals,
        ) == Ok::<Seq<u8>, ErrorKind>(seq![((code_size << 2) | 0x02) as u8]),
        body::header_bytes(false, code_size, max_stack, locals, init_locals) is Ok <==> code_size
            < 0x8000_0000,
        code_size < 0x8000_0000 ==> body::header_bytes(
            false,
            code_size,
            max_stack,
            locals,
            init_locals,
        ) == Ok::<Seq<u8>, ErrorKind>(
            seq![
                if init_locals {
                    0x13u8
                } else {
                    0x03
                },
                0x30,
            ] + bytes::u16_le(max_stack) + bytes::u32_le(code_size) + bytes::u32_le(locals.0),
        ),
{
    reveal(bytes::u16_le);
    assert(code_size <= 63 ==> 4 * code_size + 2 == ((code_size << 2) | 0x02) as u8)
        by (bit_vector);
    assert(bytes::u16_le(body::fat_flags(init_locals)) =~= seq![
        if init_locals {
            0x13u8
        } else {
            0x03
        },
        0x30,
    ]);
}

/// The numbers that the operands hold are those that their bytes make.
pub proof fn operands_are_read(s: Seq<u8>, at: int, next: int)
    requires
        0 <= at,
    ensures
        body::operand_at(s, at, OperandType::InlineNone, next) == Some((OperandView::Empty, 0nat)),
        at + 1 <= s.len() ==> {
            &&& body::operand_at(s, at, OperandType::ShortInlineI, next) == Some(
                (OperandView::Int8(bytes::i8_of(s[at])), 1nat),
            )
            &&& body::operand_at(s, at, OperandType::ShortInlineVar, next) == Some(
                (OperandView::Var(s[at] as u16), 1nat),
            )
            &&& body::operand_at(s, at, OperandType::ShortInlineArg, next) == Some(
                (OperandView::Var(s[at] as u16), 1nat),
            )
        },
        at + 2 <= s.len() ==> {
            &&& body::operand_at(s, at, OperandType::InlineVar, next) == Some(
                (OperandView::Var(encoding_laws::word(s, at) as u16), 2nat),
            )
            &&& body::operand_at(s, at, OperandType::InlineArg, next) == Some(
                (OperandView::Var(encoding_laws::word(s, at) as u16), 2nat),
            )
        },
        at + 4 <= s.len() ==> {
            &&& body::operand_at(s, at, OperandType::InlineI, next) == Some(
                (OperandView::Int32(bytes::i32_of(encoding_laws::double_word(s, at) as u32)), 4nat),
            )
            &&& body::operand_at(s, at, OperandType::ShortInlineR, next) == Some(
                (OperandView::Float32(encoding_laws::double_word(s, at) as u32), 4nat),
            )
            &&& body::operand_at(s, at, OperandType::InlineString, next) == Some(
                (
                    OperandView::UserString(
                        (s[at] + 0x100 * s[at + 1] + 0x1_0000 * s[at + 2]) as u32,
                    ),
                    4nat,
                ),
            )
            &&& body::operand_at(s, at, OperandType::InlineMethod, next) == Some(
                (OperandView::Token(Token(encoding_laws::double_word(s, at) as u32)), 4nat),
            )
            &&& body::operand_at(s, at, OperandType::InlineField, next) == Some(
                (OperandView::Token(Token(encoding_laws::double_word(s, at) as u32)), 4nat),
            )
            &&& body::operand_at(s, at, OperandType::InlineType, next) == Some(
                (OperandView::Token(Token(encoding_laws::double_word(s, at) as u32)), 4nat),
            )
            &&& body::operand_at(s, at, OperandType::InlineTok, next) == Some(
                (OperandView::Token(Token(encoding_laws::double_word(s, at) as u32)), 4nat),
            )
            &&& body::operand_at(s, at, OperandType::InlineSig, next) == Some(
                (OperandView::Token(Token(encoding_laws::double_word(s, at) as u32)), 4nat),
            )
        },
        at + 8 <= s.len() ==> {
            &&& body::operand_at(s, at, OperandType::InlineI8, next) == Some(
                (
                    OperandView::Int64(
                        bytes::i64_of(
                            (encoding_laws::double_word(s, at) + 0x1_0000_0000 * encoding_laws::double_word(s, at + 4)) as u64,
                        ),
                    ),
                    8nat,
                ),
            )
            &&& body::operand_at(s, at, OperandType::InlineR, next) == Some(
                (
                    OperandView::Float64(
                        (encoding_laws::double_word(s, at) + 0x1_0000_0000 * encoding_laws::double_word(s, at + 4)) as u64,
                    ),
                    8nat,
                ),
            )
        },
{
    encoding_laws::words_agree(s);
    reveal(body::operand_at);
    reveal(bytes::u64_at);
    assert(bytes::u32_at(s, at) == encoding_laws::double_word(s, at));
    assert(bytes::u32_at(s, at + 4) == encoding_laws::double_word(s, at + 4));
    assert(bytes::u16_at(s, at) == encoding_laws::word(s, at));
}

/// An operand that the bytes do not suffice for is not read.
pub proof fn short_operands_are_refused(s: Seq<u8>, at: int, kind: OperandType, next: int)
    requires
        0 <= at,
    ensures
        (kind == OperandType::ShortInlineI || kind == OperandType::ShortInlineVar || kind
            == OperandType::ShortInlineArg || kind == OperandType::ShortInlineBrTarget) && at + 1
            > s.len() ==> body::operand_at(s, at, kind, next) is None,
        (kind == OperandType::InlineVar || kind == OperandType::InlineArg) && at + 2 > s.len()
            ==> body::operand_at(s, at, kind, next) is None,
        (kind == OperandType::InlineI8 || kind == OperandType::InlineR) && at + 8 > s.len()
            ==> body::operand_at(s, at, kind, next) is None,
        (kind == OperandType::InlineBrTarget || kind == OperandType::InlineI || kind
            == OperandType::InlineString || kind == OperandType::InlineMethod || kind
            == OperandType::InlineField || kind == OperandType::InlineType || kind
            == OperandType::InlineTok || kind == OperandType::InlineSig || kind
            == OperandType::InlineSwitch || kind == OperandType::ShortInlineR) && at + 4 > s.len()
            ==> body::operand_at(s, at, kind, next) is None,
{
    reveal(body::operand_at);
}

/// A branch goes as far from the next instruction as its operand says, forward or
/// back.
pub proof fn branches_are_read(s: Seq<u8>, at: int, next: int)
    requires
        0 <= at,
        0x80 <= next <= 0x3FFF_FFFF,
    ensures
        at + 1 <= s.len() && s[at] < 0x80 ==> body::operand_at(
            s,
            at,
            OperandType::ShortInlineBrTarget,
            next,
        ) == Some((OperandView::Branch((next + s[at]) as i32), 1nat)),
        at + 1 <= s.len() && s[at] >= 0x80 ==> body::operand_at(
            s,
            at,
            OperandType::ShortInlineBrTarget,
            next,
        ) == Some((OperandView::Branch((next + s[at] - 0x100) as i32), 1nat)),
        at + 4 <= s.len() && encoding_laws::double_word(s, at) < 0x4000_0000 ==> body::operand_at(
            s,
            at,
            OperandType::InlineBrTarget,
            next,
        ) == Some((OperandView::Branch((next + encoding_laws::double_word(s, at)) as i32), 4nat)),
        at + 4 <= s.len() && encoding_laws::double_word(s, at) >= 0x8000_0000 ==> body::operand_at(
            s,
            at,
            OperandType::InlineBrTarget,
            next,
        ) == Some((OperandView::Branch((next + encoding_laws::double_word(s, at) - 0x1_0000_0000) as i32), 4nat)),
{
    encoding_laws::words_agree(s);
    reveal(body::operand_at);
    assert(bytes::u32_at(s, at) == encoding_laws::double_word(s, at));
}

/// A switch is the number of its targets and the targets, which count from behind
/// the last of them.
pub proof fn switches_are_read(s: Seq<u8>, at: int, next: int, n: nat, k: int)
    requires
        0 <= at,
        0 <= k < n,
        encoding_laws::double_word(s, at) == n,
        n < 0x1000_0000,
        at + 4 + 4 * n <= s.len(),
        0 <= next <= 0x1FFF_FFFF,
    ensures
        body::operand_at(s, at, OperandType::InlineSwitch, next) matches Some((operand, width))
            && width == 4 + 4 * n && operand is Switch && operand->Switch_0.len() == n && (
        operand->Switch_0[k] - (next + 4 * n + encoding_laws::double_word(s, at + 4 + 4 * k))) % 0x1_0000_0000
            == 0,
{
    encoding_laws::words_agree(s);
    reveal(body::operand_at);
    assert(bytes::u32_at(s, at) == encoding_laws::double_word(s, at));
    assert(bytes::u32_at(s, at + 4 + 4 * k) == encoding_laws::double_word(s, at + 4 + 4 * k));
    let base = next + 4 * n;
    let d = bytes::i32_of(bytes::u32_at(s, at + 4 + 4 * k));
    let w = bytes::wrapped32(base + d);
    assert(body::switch_targets(s, at + 4, n, base)[k] == w);
    assert((w - (base + d)) % 0x1_0000_0000 == 0);
    assert((d - encoding_laws::double_word(s, at + 4 + 4 * k)) % 0x1_0000_0000 == 0);
}

/// A short branch can be written exactly if its target is at most 128 bytes back
/// and 127 forward; a long one always.
pub proof fn branches_are_written(target: i32, next: int)
    requires
        0 <= next <= i32::MAX,
        0 <= target,
    ensures
        body::operand_bytes(OperandView::Branch(target), OperandType::ShortInlineBrTarget, next) is Ok
            <==> -128 <= target - next <= 127,
        0 <= target - next <= 127 ==> body::operand_bytes(
            OperandView::Branch(target),
            OperandType::ShortInlineBrTarget,
            next,
        ) == Ok::<Seq<u8>, ErrorKind>(seq![(target - next) as u8]),
        -128 <= target - next < 0 ==> body::operand_bytes(
            OperandView::Branch(target),
            OperandType::ShortInlineBrTarget,
            next,
        ) == Ok::<Seq<u8>, ErrorKind>(seq![(target - next + 0x100) as u8]),
        target >= next ==> body::operand_bytes(
            OperandView::Branch(target),
            OperandType::InlineBrTarget,
            next,
        ) == Ok::<Seq<u8>, ErrorKind>(bytes::u32_le((target - next) as u32)),
        target < next ==> body::operand_bytes(
            OperandView::Branch(target),
            OperandType::InlineBrTarget,
            next,
        ) == Ok::<Seq<u8>, ErrorKind>(bytes::u32_le((target - next + 0x1_0000_0000) as u32)),
{
    reveal(body::operand_bytes);
}

/// Operands of the right kind are written as their bytes; an index of a variable
/// has to fit.
pub proof fn operands_are_written(
    a: i8,
    b: i32,
    c: i64,
    d: u32,
    e: u64,
    v: u16,
    token: Token,
    next: int,
)
    ensures
        body::operand_bytes(OperandView::Empty, OperandType::InlineNone, next) == Ok::<
            Seq<u8>,
            ErrorKind,
        >(seq![]),
        body::operand_bytes(OperandView::Int8(a), OperandType::ShortInlineI, next) == Ok::<
            Seq<u8>,
            ErrorKind,
        >(seq![bytes::u8_of(a)]),
        body::operand_bytes(OperandView::Int32(b), OperandType::InlineI, next) == Ok::<
            Seq<u8>,
            ErrorKind,
        >(bytes::u32_le(bytes::u32_of(b))),
        body::operand_bytes(OperandView::Int64(c), OperandType::InlineI8, next) == Ok::<
            Seq<u8>,
            ErrorKind,
        >(bytes::u64_le(bytes::u64_of(c))),
        body::operand_bytes(OperandView::Float32(d), OperandType::ShortInlineR, next) == Ok::<
            Seq<u8>,
            ErrorKind,
        >(bytes::u32_le(d)),
        body::operand_bytes(OperandView::Float64(e), OperandType::InlineR, next) == Ok::<
            Seq<u8>,
            ErrorKind,
        >(bytes::u64_le(e)),
        body::operand_bytes(OperandView::Var(v), OperandType::ShortInlineVar, next) is Ok <==> v
            <= 255,
        v <= 255 ==> body::operand_bytes(OperandView::Var(v), OperandType::ShortInlineVar, next)
            == Ok::<Seq<u8>, ErrorKind>(seq![v as u8]),
        body::operand_bytes(OperandView::Var(v), OperandType::ShortInlineArg, next)
            == body::operand_bytes(OperandView::Var(v), OperandType::ShortInlineVar, next),
        body::operand_bytes(OperandView::Var(v), OperandType::InlineVar, next) == Ok::<
            Seq<u8>,
            ErrorKind,
        >(bytes::u16_le(v)),
        body::operand_bytes(OperandView::Var(v), OperandType::InlineArg, next) == Ok::<
            Seq<u8>,
            ErrorKind,
        >(bytes::u16_le(v)),
        body::operand_bytes(OperandView::Token(token), OperandType::InlineMethod, next) == Ok::<
            Seq<u8>,
            ErrorKind,
        >(bytes::u32_le(token.0)),
        body::operand_bytes(OperandView::Token(token), OperandType::InlineField, next) == Ok::<
            Seq<u8>,
            ErrorKind,
        >(bytes::u32_le(token.0)),
        body::operand_bytes(OperandView::Token(token), OperandType::InlineType, next) == Ok::<
            Seq<u8>,
            ErrorKind,
        >(bytes::u32_le(token.0)),
        body::operand_bytes(OperandView::Token(token), OperandType::InlineTok, next) == Ok::<
            Seq<u8>,
            ErrorKind,
        >(bytes::u32_le(token.0)),
        body::operand_bytes(OperandView::Token(token), OperandType::InlineSig, next) == Ok::<
            Seq<u8>,
            ErrorKind,
        >(bytes::u32_le(token.0)),
        d < 0x100_0000 ==> body::operand_bytes(
            OperandView::UserString(d),
            OperandType::InlineString,
            next,
        ) == Ok::<Seq<u8>, ErrorKind>(bytes::u32_le((0x7000_0000 + d) as u32)),
{
    reveal(body::operand_bytes);
    assert(d < 0x100_0000 ==> 0x7000_0000u32 | d == 0x7000_0000 + d) by (bit_vector);
}

/// The widths of the operands.
pub proof fn operand_widths()
    ensures
        OperandType::InlineNone.width() == Some(0nat),
        OperandType::ShortInlineBrTarget.width() == Some(1nat),
        OperandType::ShortInlineI.width() == Some(1nat),
        OperandType::ShortInlineVar.width() == Some(1nat),
        OperandType::ShortInlineArg.width() == Some(1nat),
        OperandType::InlineVar.width() == Some(2nat),
        OperandType::InlineArg.width() == Some(2nat),
        OperandType::InlineBrTarget.width() == Some(4nat),
        OperandType::InlineField.width() == Some(4nat),
        OperandType::InlineI.width() == Some(4nat),
        OperandType::InlineMethod.width() == Some(4nat),
        OperandType::InlineSig.width() == Some(4nat),
        OperandType::InlineString.width() == Some(4nat),
        OperandType::InlineTok.width() == Some(4nat),
        OperandType::InlineType.width() == Some(4nat),
        OperandType::ShortInlineR.width() == Some(4nat),
        OperandType::InlineI8.width() == Some(8nat),
        OperandType::InlineR.width() == Some(8nat),
        OperandType::InlineSwitch.width() is None,
{
}

/// The kinds of exception clauses by their numbers, of which only the low three
/// bits count.
pub proof fn clause_kinds(n: u32)
    ensures
        ExceptionHandlerType::Catch.number() == 0,
        ExceptionHandlerType::Filter.number() == 1,
        ExceptionHandlerType::Finally.number() == 2,
        ExceptionHandlerType::Fault.number() == 4,
        n & 7 == 0 ==> ExceptionHandlerType::of_number(n) == Some(ExceptionHandlerType::Catch),
        n & 7 == 1 ==> ExceptionHandlerType::of_number(n) == Some(ExceptionHandlerType::Filter),
        n & 7 == 2 ==> ExceptionHandlerType::of_number(n) == Some(ExceptionHandlerType::Finally),
        n & 7 == 4 ==> ExceptionHandlerType::of_number(n) == Some(ExceptionHandlerType::Fault),
        n & 7 == 3 || n & 7 >= 5 ==> ExceptionHandlerType::of_number(n) is None,
{
    assert(n & 7 == n % 8) by (bit_vector);
}

/// A small clause has the fields kind, try offset, try length, handler offset,
/// handler length and the type or the filter, of 2, 2, 1, 2, 1 and 4 bytes.
pub proof fn small_clauses_are_read(s: Seq<u8>, at: int)
    requires
        0 <= at,
        at + 12 <= s.len(),
        ExceptionHandlerType::of_number(encoding_laws::word(s, at) as u32) is Some,
    ensures
        exceptions::clause_at(s, at, false) matches Some(h) && {
            &&& Some(h.handler_type) == ExceptionHandlerType::of_number(encoding_laws::word(s, at) as u32)
            &&& h.try_start == encoding_laws::word(s, at + 2)
            &&& h.try_length == s[at + 4]
            &&& h.handler_start == encoding_laws::word(s, at + 5)
            &&& h.handler_length == s[at + 7]
            &&& h.handler_type == ExceptionHandlerType::Catch ==> h.catch_type.0 == encoding_laws::double_word(
                s,
                at + 8,
            )
            &&& h.handler_type != ExceptionHandlerType::Catch ==> h.catch_type.0 == 0
            &&& h.handler_type == ExceptionHandlerType::Filter && encoding_laws::double_word(s, at + 8)
                < 0x8000_0000 ==> h.filter_start is Some && h.filter_start->Some_0 == encoding_laws::double_word(
                s,
                at + 8,
            )
            &&& h.handler_type != ExceptionHandlerType::Filter ==> h.filter_start is None
        },
{
    encoding_laws::words_agree(s);
    reveal(exceptions::clause_at);
    assert(bytes::u16_at(s, at) == encoding_laws::word(s, at));
    assert(bytes::u32_at(s, at + 8) == encoding_laws::double_word(s, at + 8));
}

/// A fat clause has the same fields with four bytes each.
pub proof fn fat_clauses_are_read(s: Seq<u8>, at: int)
    requires
        0 <= at,
        at + 24 <= s.len(),
        ExceptionHandlerType::of_number(encoding_laws::double_word(s, at) as u32) is Some,
        encoding_laws::double_word(s, at + 4) < 0x8000_0000,
        encoding_laws::double_word(s, at + 8) < 0x8000_0000,
        encoding_laws::double_word(s, at + 12) < 0x8000_0000,
        encoding_laws::double_word(s, at + 16) < 0x8000_0000,
    ensures
        exceptions::clause_at(s, at, true) matches Some(h) && {
            &&& Some(h.handler_type) == ExceptionHandlerType::of_number(encoding_laws::double_word(s, at) as u32)
            &&& h.try_start == encoding_laws::double_word(s, at + 4)
            &&& h.try_length == encoding_laws::double_word(s, at + 8)
            &&& h.handler_start == encoding_laws::double_word(s, at + 12)
            &&& h.handler_length == encoding_laws::double_word(s, at + 16)
            &&& h.handler_type == ExceptionHandlerType::Catch ==> h.catch_type.0 == encoding_laws::double_word(
                s,
                at + 20,
            )
            &&& h.handler_type != ExceptionHandlerType::Catch ==> h.catch_type.0 == 0
            &&& h.handler_type == ExceptionHandlerType::Filter && encoding_laws::double_word(s, at + 20)
                < 0x8000_0000 ==> h.filter_start is Some && h.filter_start->Some_0 == encoding_laws::double_word(
                s,
                at + 20,
            )
            &&& h.handler_type != ExceptionHandlerType::Filter ==> h.filter_start is None
        },
{
    encoding_laws::words_agree(s);
    reveal(exceptions::clause_at);
    assert(bytes::u32_at(s, at) == encoding_laws::double_word(s, at));
    assert(bytes::u32_at(s, at + 20) == encoding_laws::double_word(s, at + 20));
}

/// A clause that is cut off or has no known kind is not read.
pub proof fn broken_clauses_are_refused(s: Seq<u8>, at: int)
    requires
        0 <= at,
    ensures
        at + 12 > s.len() ==> exceptions::clause_at(s, at, false) is None,
        at + 24 > s.len() ==> exceptions::clause_at(s, at, true) is None,
        at + 12 <= s.len() && (s[at] & 7 == 3 || s[at] & 7 >= 5) ==> exceptions::clause_at(
            s,
            at,
            false,
        ) is None,
        at + 24 <= s.len() && (s[at] & 7 == 3 || s[at] & 7 >= 5) ==> exceptions::clause_at(
            s,
            at,
            true,
        ) is None,
{
    encoding_laws::words_agree(s);
    reveal(exceptions::clause_at);
    let b = s[at];
    assert(b & 7 == b % 8) by (bit_vector);
    assert(bytes::u32_at(s, at) == encoding_laws::double_word(s, at));
    assert(bytes::u16_at(s, at) == encoding_laws::word(s, at));
    assert(encoding_laws::double_word(s, at) % 8 == b % 8);
    assert(encoding_laws::word(s, at) % 8 == b % 8);
}

/// The flags of a section: clauses, the fat form, and another section behind it.
pub proof fn section_flags(flags: u8)
    ensures
        exceptions::has_clauses(flags) <==> flags & 0x01 != 0,
        exceptions::is_fat(flags) <==> flags & 0x40 != 0,
        exceptions::has_more(flags) <==> flags & 0x80 != 0,
{
    assert((flags & 0x01 != 0) == (flags % 2 == 1) && (flags & 0x40 != 0) == (flags / 0x40 % 2 == 1)
        && (flags & 0x80 != 0) == (flags >= 0x80)) by (bit_vector);
}

/// A clause fits the small form exactly if its offsets have 16 bits and its
/// lengths 8.
pub proof fn small_clause_limits(h: ExceptionHandler)
    ensures
        h.fits_small() <==> 0 <= h.try_start < 0x1_0000 && 0 <= h.try_length < 0x100 && 0
            <= h.handler_start < 0x1_0000 && 0 <= h.handler_length < 0x100 && (h.handler_type
            == ExceptionHandlerType::Filter && h.filter_start is Some ==> 0
            <= h.filter_start->Some_0 < 0x1_0000),
        h.oversized() <==> h.try_start >= 0x1_0000 || h.try_length >= 0x100 || h.handler_start
            >= 0x1_0000 || h.handler_length >= 0x100 || (h.filter_start is Some
            && h.filter_start->Some_0 >= 0x1_0000),
{
}

/// A section with more than twenty clauses, or with one that is too large, is
/// fat; otherwise the caller says.
pub proof fn fat_sections(handlers: Seq<ExceptionHandler>, force_fat: bool)
    ensures
        handlers.len() > 20 ==> exceptions::needs_fat(handlers, force_fat),
        force_fat ==> exceptions::needs_fat(handlers, force_fat),
        handlers.len() <= 20 && !force_fat ==> (exceptions::needs_fat(handlers, force_fat) <==> exists|
            k: int,
        |
            0 <= k < handlers.len() && (#[trigger] handlers[k]).oversized()),
{
}

/// The bytes in front of the clauses of a section: the flags and the size of the
/// section, which counts these four bytes.
pub proof fn section_prefixes(n: nat)
    requires
        n <= 0x0A_AAAA,
    ensures
        n <= 20 ==> exceptions::section_prefix(false, n) == seq![0x01u8, (12 * n + 4) as u8, 0u8, 0u8],
        ({
            let p = exceptions::section_prefix(true, n);
            &&& p.len() == 4
            &&& p[0] == 0x41
            &&& p[1] + 0x100 * p[2] + 0x1_0000 * p[3] == 24 * n + 4
        }),
{
    let size = 24 * n + 4;
    assert(size / 0x1_0000 < 0x100);
    assert(size == size % 0x100 + 0x100 * (size / 0x100 % 0x100) + 0x1_0000 * (size / 0x1_0000)) by {
        let b = size / 0x100;
        assert(size / 0x1_0000 == b / 0x100);
        assert(size == size % 0x100 + 0x100 * b);
        assert(b == b % 0x100 + 0x100 * (b / 0x100));
    }
}

/// The body of a method needs a fat header unless it has fewer than 64 bytes of
/// code, a stack of at most eight, and neither locals nor exception clauses.
pub proof fn tiny_bodies(b: body::MethodBodyView, code_size: u32)
    ensures
        !body::needs_fat_header(b, code_size) <==> code_size <= 63 && b.max_stack <= 8
            && b.local_var_sig_tok.0 == 0 && !b.init_locals && b.exception_handlers.len() == 0,
{
}

/// The code stands behind the header, and the sections at the next multiple of
/// four behind the code.
pub proof fn bodies_are_laid_out(data: Seq<u8>)
    requires
        body::body_at(data) is Some,
    ensures
        ({
            let b = body::body_at(data)->Some_0.0;
            let consumed = body::body_at(data)->Some_0.1;
            let start: int = if data[0] & 0x03 == 0x02 {
                1
            } else {
                12
            };
            let size = if data[0] & 0x03 == 0x02 {
                (data[0] >> 2) as int
            } else {
                encoding_laws::double_word(data, 4)
            };
            &&& start + size <= data.len()
            &&& body::code_from(data.subrange(start, start + size), 0) == Some(b.instructions)
            &&& data[0] & 0x03 == 0x02 || data[0] & 0x08 == 0 ==> b.exception_handlers.len() == 0
                && consumed == start + size
            &&& data[0] & 0x03 == 0x03 && data[0] & 0x08 != 0 ==> ({
                let at = start + size + bytes::padding(start + size, 4);
                exceptions::sections_at(data.skip(at), 0) == Some(b.exception_handlers)
            })
            &&& b.variables.len() == 0
        }),
{
    headers_are_read(data);
}

} // verus!
