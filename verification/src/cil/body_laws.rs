//! What decoding makes of encoded method bodies.

use vstd::prelude::*;

use crate::bytes;
use crate::cil::body;
use crate::cil::body::{MethodBodyView, ParsedHeader};
use crate::cil::exceptions;
use crate::cil::exceptions::ExceptionHandler;
use crate::cil::instruction::{InstructionView, OperandView};
use crate::cil::opcode::{OpCodeView, OperandType};
use crate::cil::opcodes;
use crate::error::ErrorKind;
use crate::token::Token;

verus! {

broadcast use crate::bytes::widths;

/// The operand is of the kind that the opcode takes.
pub open spec fn matches_kind(operand: OperandView, kind: OperandType) -> bool {
    match kind {
        OperandType::InlineNone => operand == OperandView::Empty,
        OperandType::InlineSwitch => operand is Switch,
        OperandType::ShortInlineBrTarget | OperandType::InlineBrTarget => operand is Branch,
        OperandType::ShortInlineI => operand is Int8,
        OperandType::InlineI => operand is Int32,
        OperandType::InlineI8 => operand is Int64,
        OperandType::ShortInlineR => operand is Float32,
        OperandType::InlineR => operand is Float64,
        OperandType::ShortInlineVar
        | OperandType::ShortInlineArg
        | OperandType::InlineVar
        | OperandType::InlineArg => operand is Var,
        OperandType::InlineString => operand matches OperandView::UserString(v) && v < 0x100_0000,
        _ => operand is Token,
    }
}

/// The instruction is one of the table, with an operand of its kind.
pub open spec fn regular_instruction(i: InstructionView) -> bool {
    i.opcode == opcodes::described(i.opcode.code) && matches_kind(
        i.operand,
        i.opcode.operand_type,
    )
}

/// The instructions are regular, and each gives the offset that it has.
pub open spec fn regular_code(instructions: Seq<InstructionView>) -> bool {
    forall|k: int|
        #![trigger instructions[k]]
        0 <= k < instructions.len() ==> regular_instruction(instructions[k])
            && instructions[k].offset == body::code_offset(instructions, k)
}

/// A distance leads back to the target.
proof fn distance_leads_back(target: i32, base: int)
    ensures
        bytes::wrapped32(base + bytes::i32_of(bytes::low32(target - base))) == target,
        bytes::wrapped32(base + bytes::wrapped32(target - base)) == target,
{
    let m = 0x1_0000_0000int;
    let d = target - base;
    let r = d % m;
    let q = d / m;
    assert(d == m * q + r) by {
        vstd::arithmetic::div_mod::lemma_fundamental_div_mod(d, m);
    }
    let low = bytes::low32(d);
    assert(low == r);
    assert((target - m * q) % m == target as int % m) by {
        vstd::arithmetic::div_mod::lemma_mod_multiples_vanish(-q, target as int, m);
        assert(m * (-q) == -(m * q)) by (nonlinear_arith);
    }
    assert((target - m * (q + 1)) % m == target as int % m) by {
        vstd::arithmetic::div_mod::lemma_mod_multiples_vanish(-(q + 1), target as int, m);
        assert(m * (-(q + 1)) == -(m * (q + 1))) by (nonlinear_arith);
    }
    assert(m * (q + 1) == m * q + m) by (nonlinear_arith);
    let sum = base + bytes::i32_of(low);
    assert(sum == target - m * q || sum == target - m * (q + 1));
    assert(bytes::low32(sum) == bytes::low32(target as int));
}

proof fn user_string_reads_back(v: u32)
    requires
        v < 0x100_0000,
    ensures
        (0x7000_0000u32 | v) % 0x100_0000 == v,
{
    assert((0x7000_0000u32 | v) % 0x100_0000 == v) by (bit_vector)
        requires
            v < 0x100_0000,
    ;
}

/// A switch reads back.
proof fn switch_round_trip(s: Seq<u8>, at: int, targets: Seq<i32>, next: int)
    requires
        targets.len() <= i32::MAX,
        bytes::holds_at(
            s,
            at,
            bytes::u32_le(bytes::low32(targets.len() as int)) + bytes::joined(
                body::switch_parts(targets, next + 4 * targets.len()),
            ),
        ),
    ensures
        body::operand_at(s, at, OperandType::InlineSwitch, next) == Some(
            (OperandView::Switch(targets), 4 + 4 * targets.len()),
        ),
{
    reveal(body::operand_at);
    let n = targets.len();
    let base = next + 4 * n;
    let parts = body::switch_parts(targets, base);
    let head = bytes::u32_le(bytes::low32(n as int));
    let tail = bytes::joined(parts);
    bytes::holds_in_concat(head, tail, Seq::empty());
    bytes::holds_within(s, at, head + tail, 0, head);
    bytes::holds_within(s, at, head + tail, 4, tail);
    bytes::u32_round_trip(s, at, bytes::low32(n as int));
    bytes::joined_uniform(parts, 4, n as int);
    assert(parts.take(n as int) =~= parts);
    let found = body::switch_targets(s, at + 4, n, base);
    assert forall|k: int| 0 <= k < n implies found[k] == targets[k] by {
        bytes::joined_uniform(parts, 4, k);
        bytes::joined_part(parts, k);
        bytes::holds_within(s, at + 4, tail, 4 * k, parts[k]);
        bytes::u32_round_trip(s, at + 4 + 4 * k, bytes::low32(targets[k] - base));
        distance_leads_back(targets[k], base);
    }
    assert(found =~= targets);
}

/// An operand reads back from the bytes that it was written as.
pub proof fn operand_round_trip(
    s: Seq<u8>,
    at: int,
    operand: OperandView,
    kind: OperandType,
    next: int,
)
    requires
        matches_kind(operand, kind),
        operand matches OperandView::Switch(targets) ==> targets.len() <= i32::MAX,
        body::operand_bytes(operand, kind, next) is Ok,
        0 <= at <= s.len(),
        bytes::holds_at(s, at, body::operand_bytes(operand, kind, next)->Ok_0),
    ensures
        body::operand_at(s, at, kind, next) == Some(
            (operand, body::operand_bytes(operand, kind, next)->Ok_0.len()),
        ),
{
    reveal(body::operand_at);
    reveal(body::operand_bytes);
    let b = body::operand_bytes(operand, kind, next)->Ok_0;
    if b.len() == 1 {
        assert(s.subrange(at, at + 1)[0] == s[at]);
    }
    match operand {
        OperandView::Switch(targets) => {
            switch_round_trip(s, at, targets, next);
            let parts = body::switch_parts(targets, next + 4 * targets.len());
            bytes::joined_uniform(parts, 4, targets.len() as int);
            assert(parts.take(targets.len() as int) =~= parts);
        },
        OperandView::Branch(target) => {
            distance_leads_back(target, next);
            if kind == OperandType::InlineBrTarget {
                bytes::u32_round_trip(s, at, bytes::low32(target - next));
            }
        },
        OperandView::Int32(v) => {
            bytes::u32_round_trip(s, at, bytes::u32_of(v));
        },
        OperandView::Int64(v) => {
            bytes::u64_round_trip(s, at, bytes::u64_of(v));
        },
        OperandView::Float32(v) => {
            bytes::u32_round_trip(s, at, v);
        },
        OperandView::Float64(v) => {
            bytes::u64_round_trip(s, at, v);
        },
        OperandView::Token(t) => {
            bytes::u32_round_trip(s, at, t.0);
        },
        OperandView::UserString(v) => {
            user_string_reads_back(v);
            bytes::u32_round_trip(s, at, 0x7000_0000u32 | v);
        },
        OperandView::Var(v) => {
            if kind == OperandType::InlineVar || kind == OperandType::InlineArg {
                bytes::u16_round_trip(s, at, v);
            }
        },
        _ => {},
    }
}

/// The operand of a regular instruction takes the bytes that it is counted as.
proof fn operand_length(operand: OperandView, kind: OperandType, next: int)
    requires
        matches_kind(operand, kind),
        body::operand_bytes(operand, kind, next) is Ok,
    ensures
        body::operand_bytes(operand, kind, next)->Ok_0.len() == match operand {
            OperandView::Switch(targets) => 4 + 4 * targets.len(),
            _ => kind.width()->Some_0,
        },
{
    reveal(body::operand_bytes);
    if let OperandView::Switch(targets) = operand {
        let parts = body::switch_parts(targets, next + 4 * targets.len());
        bytes::joined_uniform(parts, 4, targets.len() as int);
        assert(parts.take(targets.len() as int) =~= parts);
    }
}

/// An opcode reads back.
proof fn opcode_round_trip(s: Seq<u8>, at: int, op: OpCodeView)
    requires
        op == opcodes::described(op.code),
        bytes::holds_at(s, at, op.bytes()),
    ensures
        body::code_at(s, at) == Some((op.code, op.bytes().len())),
        op.bytes().len() == op.size,
{
    opcodes::lookup_finds_encoding(op.code);
    opcodes::escape_is_no_instruction();
    let b = op.bytes();
    assert(s.subrange(at, at + b.len())[0] == s[at]);
    if b.len() == 2 {
        assert(s.subrange(at, at + 2)[1] == s[at + 1]);
    }
}

/// A regular instruction reads back from the bytes that it was written as.
pub proof fn instruction_round_trip(s: Seq<u8>, i: InstructionView)
    requires
        regular_instruction(i),
        0 <= i.offset,
        i.operand matches OperandView::Switch(targets) ==> targets.len() <= i32::MAX,
        body::instruction_bytes(i, i.offset as int) is Ok,
        bytes::holds_at(s, i.offset as int, body::instruction_bytes(i, i.offset as int)->Ok_0),
    ensures
        body::instruction_at(s, i.offset as int) == Some((i, i.size())),
        body::instruction_bytes(i, i.offset as int)->Ok_0.len() == i.size(),
        i.size() > 0,
{
    let at = i.offset as int;
    let head = i.opcode.bytes();
    let next = i.offset + i.opcode.fixed_size();
    let tail = body::operand_bytes(i.operand, i.opcode.operand_type, next)->Ok_0;
    assert(bytes::wrapped32(at) == at);
    bytes::holds_in_concat(head, tail, Seq::empty());
    bytes::holds_within(s, at, head + tail, 0, head);
    bytes::holds_within(s, at, head + tail, head.len() as int, tail);
    opcode_round_trip(s, at, i.opcode);
    operand_length(i.operand, i.opcode.operand_type, next);
    operand_round_trip(s, at + head.len(), i.operand, i.opcode.operand_type, next);
}

/// The instruction at its place takes the bytes that it is counted as.
proof fn instruction_length(i: InstructionView, offset: int)
    requires
        regular_instruction(i),
        body::instruction_bytes(i, offset) is Ok,
    ensures
        body::instruction_bytes(i, offset)->Ok_0.len() == i.size(),
{
    operand_length(
        i.operand,
        i.opcode.operand_type,
        bytes::wrapped32(offset) + i.opcode.fixed_size(),
    );
}

/// Regular code takes the bytes that it is counted as.
proof fn code_length(instructions: Seq<InstructionView>, k: int)
    requires
        0 <= k <= instructions.len(),
        regular_code(instructions),
        body::code_bytes_from(instructions, k) is Ok,
    ensures
        body::code_bytes_from(instructions, k)->Ok_0.len() == body::code_offset(
            instructions,
            instructions.len() as int,
        ) - body::code_offset(instructions, k),
    decreases instructions.len() - k,
{
    if k < instructions.len() {
        code_length(instructions, k + 1);
        instruction_length(instructions[k], body::code_offset(instructions, k) as int);
    }
}

proof fn switch_fits(i: InstructionView, length: int)
    requires
        i.size() <= length <= i32::MAX,
    ensures
        i.operand matches OperandView::Switch(targets) ==> targets.len() <= i32::MAX,
{
}

proof fn code_round_trip_from(s: Seq<u8>, instructions: Seq<InstructionView>, k: int)
    requires
        0 <= k <= instructions.len(),
        regular_code(instructions),
        body::code_bytes_from(instructions, k) is Ok,
        s.len() == body::code_offset(instructions, instructions.len() as int) <= i32::MAX,
        bytes::holds_at(
            s,
            body::code_offset(instructions, k) as int,
            body::code_bytes_from(instructions, k)->Ok_0,
        ),
    ensures
        body::code_from(s, body::code_offset(instructions, k) as int) == Some(
            instructions.skip(k),
        ),
    decreases instructions.len() - k,
{
    if k < instructions.len() {
        let i = instructions[k];
        let at = body::code_offset(instructions, k) as int;
        let b = body::instruction_bytes(i, at)->Ok_0;
        let rest = body::code_bytes_from(instructions, k + 1)->Ok_0;
        code_length(instructions, k + 1);
        instruction_length(i, at);
        bytes::holds_in_concat(b, rest, Seq::empty());
        bytes::holds_within(s, at, b + rest, 0, b);
        bytes::holds_within(s, at, b + rest, b.len() as int, rest);
        switch_fits(i, s.len() as int);
        instruction_round_trip(s, i);
        code_round_trip_from(s, instructions, k + 1);
        assert(seq![i] + instructions.skip(k + 1) =~= instructions.skip(k));
    } else {
        assert(instructions.skip(k) =~= Seq::<InstructionView>::empty());
    }
}

/// Encoded code decodes to the instructions that were encoded: those of the
/// opcode table with operands of their kinds, at the offsets that they have.
pub proof fn code_round_trip(instructions: Seq<InstructionView>)
    requires
        regular_code(instructions),
        body::code_bytes_from(instructions, 0) is Ok,
        body::code_offset(instructions, instructions.len() as int) <= i32::MAX,
    ensures
        body::code_from(body::code_bytes_from(instructions, 0)->Ok_0, 0) == Some(instructions),
        body::code_bytes_from(instructions, 0)->Ok_0.len() == body::code_offset(
            instructions,
            instructions.len() as int,
        ),
{
    let s = body::code_bytes_from(instructions, 0)->Ok_0;
    code_length(instructions, 0);
    assert(s.subrange(0, s.len() as int) =~= s);
    code_round_trip_from(s, instructions, 0);
    assert(instructions.skip(0) =~= instructions);
}

/// The header that is read from encoded header bytes.
pub open spec fn encoded_header(
    tiny: bool,
    code_size: u32,
    max_stack: u16,
    locals: Token,
    init_locals: bool,
    more_sects: bool,
) -> ParsedHeader {
    ParsedHeader {
        fat: !tiny,
        code_size,
        max_stack: if tiny {
            8
        } else {
            max_stack
        },
        locals_token: locals,
        init_locals,
        more_sects,
    }
}

/// An encoded body header reads back; a tiny one stands for a stack of eight.
pub proof fn header_round_trip(
    data: Seq<u8>,
    tiny: bool,
    code_size: u32,
    max_stack: u16,
    locals: Token,
    init_locals: bool,
)
    requires
        body::header_bytes(tiny, code_size, max_stack, locals, init_locals) is Ok,
        bytes::holds_at(
            data,
            0,
            body::header_bytes(tiny, code_size, max_stack, locals, init_locals)->Ok_0,
        ),
    ensures
        body::header_at(data) == Some(
            encoded_header(tiny, code_size, max_stack, locals, init_locals, false),
        ),
{
    let h = body::header_bytes(tiny, code_size, max_stack, locals, init_locals)->Ok_0;
    assert(data.subrange(0, h.len() as int)[0] == data[0]);
    if !tiny {
        fat_fields(h, body::fat_flags(init_locals), max_stack, code_size, locals);
        bytes::holds_within(data, 0, h, 0, bytes::u16_le(body::fat_flags(init_locals)));
        bytes::holds_within(data, 0, h, 2, bytes::u16_le(max_stack));
        bytes::holds_within(data, 0, h, 4, bytes::u32_le(code_size));
        bytes::holds_within(data, 0, h, 8, bytes::u32_le(locals.0));
        bytes::u16_round_trip(data, 0, body::fat_flags(init_locals));
        bytes::u16_round_trip(data, 2, max_stack);
        bytes::u32_round_trip(data, 4, code_size);
        bytes::u32_round_trip(data, 8, locals.0);
        reveal(bytes::u16_le);
    }
}

proof fn fat_fields(h: Seq<u8>, flags: u16, max_stack: u16, code_size: u32, locals: Token)
    requires
        h == bytes::u16_le(flags) + bytes::u16_le(max_stack) + bytes::u32_le(code_size)
            + bytes::u32_le(locals.0),
    ensures
        h.len() == 12,
        bytes::holds_at(h, 0, bytes::u16_le(flags)),
        bytes::holds_at(h, 2, bytes::u16_le(max_stack)),
        bytes::holds_at(h, 4, bytes::u32_le(code_size)),
        bytes::holds_at(h, 8, bytes::u32_le(locals.0)),
{
    assert(h.subrange(0, 2) =~= bytes::u16_le(flags));
    assert(h.subrange(2, 4) =~= bytes::u16_le(max_stack));
    assert(h.subrange(4, 8) =~= bytes::u32_le(code_size));
    assert(h.subrange(8, 12) =~= bytes::u32_le(locals.0));
}

/// A fat header with the flag set that sections follow reads back.
proof fn flagged_header_round_trip(
    data: Seq<u8>,
    code_size: u32,
    max_stack: u16,
    locals: Token,
    init_locals: bool,
)
    requires
        body::header_bytes(false, code_size, max_stack, locals, init_locals) is Ok,
        bytes::holds_at(
            data,
            0,
            body::with_more_sects(
                body::header_bytes(false, code_size, max_stack, locals, init_locals)->Ok_0,
            ),
        ),
    ensures
        body::header_at(data) == Some(
            encoded_header(false, code_size, max_stack, locals, init_locals, true),
        ),
        body::header_bytes(false, code_size, max_stack, locals, init_locals)->Ok_0.len() == 12,
{
    let plain = body::header_bytes(false, code_size, max_stack, locals, init_locals)->Ok_0;
    let flags = body::fat_flags(init_locals);
    let flagged = (flags + 8) as u16;
    let h = body::with_more_sects(plain);
    assert(h =~= bytes::u16_le(flagged) + bytes::u16_le(max_stack) + bytes::u32_le(code_size)
        + bytes::u32_le(locals.0)) by {
        reveal(bytes::u16_le);
    }
    fat_fields(h, flagged, max_stack, code_size, locals);
    assert(data.subrange(0, 12)[0] == data[0]);
    bytes::holds_within(data, 0, h, 0, bytes::u16_le(flagged));
    bytes::holds_within(data, 0, h, 2, bytes::u16_le(max_stack));
    bytes::holds_within(data, 0, h, 4, bytes::u32_le(code_size));
    bytes::holds_within(data, 0, h, 8, bytes::u32_le(locals.0));
    bytes::u16_round_trip(data, 0, flagged);
    bytes::u16_round_trip(data, 2, max_stack);
    bytes::u32_round_trip(data, 4, code_size);
    bytes::u32_round_trip(data, 8, locals.0);
    reveal(bytes::u16_le);
}

/// The body as a decoder gives it back: the local variables are not part of
/// the encoding.
pub open spec fn without_variables(b: MethodBodyView) -> MethodBodyView {
    MethodBodyView { variables: Seq::empty(), ..b }
}

/// The body is one that its encoding can express: regular instructions and
/// handlers, and a stack of eight where nothing else asks for a fat header.
pub open spec fn regular_body(b: MethodBodyView) -> bool {
    &&& regular_code(b.instructions)
    &&& body::code_offset(b.instructions, b.instructions.len() as int) <= i32::MAX
    &&& forall|k: int|
        0 <= k < b.exception_handlers.len() ==> (#[trigger] b.exception_handlers[k]).regular()
    &&& b.max_stack == 8 || body::needs_fat_header(
        b,
        body::code_offset(b.instructions, b.instructions.len() as int) as u32,
    )
}

proof fn plain_body_round_trip(b: MethodBodyView)
    requires
        regular_body(b),
        body::body_bytes(b) is Ok,
        b.exception_handlers.len() == 0,
    ensures
        body::body_at(body::body_bytes(b)->Ok_0) == Some(
            (without_variables(b), body::body_bytes(b)->Ok_0.len() as int),
        ),
{
    code_round_trip(b.instructions);
    let code = body::code_bytes_from(b.instructions, 0)->Ok_0;
    let size = bytes::low32(code.len() as int);
    let fat = body::needs_fat_header(b, size);
    let header = body::header_bytes(
        !fat,
        size,
        b.max_stack,
        b.local_var_sig_tok,
        b.init_locals,
    )->Ok_0;
    let data = body::body_bytes(b)->Ok_0;
    bytes::holds_in_concat(header, code, Seq::empty());
    header_round_trip(data, !fat, size, b.max_stack, b.local_var_sig_tok, b.init_locals);
    assert(data.subrange(header.len() as int, data.len() as int) =~= code);
    assert(b.exception_handlers =~= Seq::<ExceptionHandler>::empty());
}

/// The pieces of a body with handlers.
proof fn sections_stand(
    flagged: Seq<u8>,
    code: Seq<u8>,
    gap: Seq<u8>,
    section: Seq<u8>,
    data: Seq<u8>,
)
    requires
        data == flagged + code + gap + section,
    ensures
        bytes::holds_at(data, 0, flagged),
        data.subrange(flagged.len() as int, (flagged.len() + code.len()) as int) == code,
        data.skip((flagged.len() + code.len() + gap.len()) as int) == section,
        section.subrange(0, section.len() as int) == section,
        data.len() == flagged.len() + code.len() + gap.len() + section.len(),
{
    assert(data =~= flagged + (code + gap + section));
    bytes::holds_in_concat(flagged, code + gap + section, Seq::empty());
    assert(data.subrange(flagged.len() as int, (flagged.len() + code.len()) as int) =~= code);
    assert(data.skip((flagged.len() + code.len() + gap.len()) as int) =~= section);
    assert(section.subrange(0, section.len() as int) =~= section);
}

/// A body is made of the parts that stand in it.
proof fn body_from_parts(
    data: Seq<u8>,
    h: ParsedHeader,
    code: Seq<u8>,
    instructions: Seq<InstructionView>,
    section: Seq<u8>,
    handlers: Seq<ExceptionHandler>,
)
    requires
        body::header_at(data) == Some(h),
        h.fat,
        h.more_sects,
        h.code_size == code.len(),
        12 + code.len() + bytes::padding((12 + code.len()) as int, 4) <= data.len(),
        data.subrange(12, (12 + code.len()) as int) == code,
        body::code_from(code, 0) == Some(instructions),
        data.skip((12 + code.len() + bytes::padding((12 + code.len()) as int, 4)) as int)
            == section,
        exceptions::sections_at(section, 0) == Some(handlers),
    ensures
        body::body_at(data) == Some(
            (
                body::body_of(h, instructions, handlers),
                12 + code.len() + bytes::padding((12 + code.len()) as int, 4)
                    + body::sections_end(section, 0),
            ),
        ),
{
}

/// A single section is the last one.
proof fn one_section_ends(s: Seq<u8>)
    requires
        exceptions::section_size(s, 0) == s.len(),
    ensures
        body::sections_end(s, 0) == s.len(),
{
}

/// A fat body with handlers, from what its parts read as.
proof fn sectioned_parts_round_trip(
    b: MethodBodyView,
    code: Seq<u8>,
    header: Seq<u8>,
    section: Seq<u8>,
    data: Seq<u8>,
)
    requires
        code.len() <= i32::MAX,
        body::code_from(code, 0) == Some(b.instructions),
        body::header_bytes(
            false,
            code.len() as u32,
            b.max_stack,
            b.local_var_sig_tok,
            b.init_locals,
        ) == Ok::<Seq<u8>, ErrorKind>(header),
        exceptions::sections_at(section, 0) == Some(b.exception_handlers),
        exceptions::section_size(section, 0) == section.len(),
        data == body::with_more_sects(header) + code + bytes::zero_bytes(
            bytes::padding((body::with_more_sects(header) + code).len() as int, 4),
        ) + section,
    ensures
        body::body_at(data) == Some((without_variables(b), data.len() as int)),
{
    let size = code.len() as u32;
    let flagged = body::with_more_sects(header);
    let gap = bytes::zero_bytes(bytes::padding((flagged + code).len() as int, 4));
    sections_stand(flagged, code, gap, section, data);
    flagged_header_round_trip(data, size, b.max_stack, b.local_var_sig_tok, b.init_locals);
    one_section_ends(section);
    let h = encoded_header(
        false,
        size,
        b.max_stack,
        b.local_var_sig_tok,
        b.init_locals,
        true,
    );
    body_from_parts(data, h, code, b.instructions, section, b.exception_handlers);
}

proof fn sectioned_body_round_trip(b: MethodBodyView)
    requires
        regular_body(b),
        body::body_bytes(b) is Ok,
        b.exception_handlers.len() > 0,
    ensures
        body::body_at(body::body_bytes(b)->Ok_0) == Some(
            (without_variables(b), body::body_bytes(b)->Ok_0.len() as int),
        ),
{
    code_round_trip(b.instructions);
    let code = body::code_bytes_from(b.instructions, 0)->Ok_0;
    let size = bytes::low32(code.len() as int);
    let header = body::header_bytes(
        false,
        size,
        b.max_stack,
        b.local_var_sig_tok,
        b.init_locals,
    )->Ok_0;
    let section = exceptions::section_bytes(b.exception_handlers, false)->Ok_0;
    assert(section.subrange(0, section.len() as int) =~= section);
    exceptions::section_round_trip(b.exception_handlers, false, section, 0);
    sectioned_parts_round_trip(b, code, header, section, body::body_bytes(b)->Ok_0);
}

/// An encoded method body decodes to the body, over all of its bytes.
pub proof fn body_round_trip(b: MethodBodyView)
    requires
        regular_body(b),
        body::body_bytes(b) is Ok,
    ensures
        body::body_at(body::body_bytes(b)->Ok_0) == Some(
            (without_variables(b), body::body_bytes(b)->Ok_0.len() as int),
        ),
{
    if b.exception_handlers.len() == 0 {
        plain_body_round_trip(b);
    } else {
        sectioned_body_round_trip(b);
    }
}

/// Encoding what was decoded from an encoded body gives the bytes of that body
/// again.
pub proof fn reencoding_is_stable(b: MethodBodyView)
    requires
        regular_body(b),
        body::body_bytes(b) is Ok,
    ensures
        body::body_at(body::body_bytes(b)->Ok_0) is Some,
        body::body_bytes(body::body_at(body::body_bytes(b)->Ok_0)->Some_0.0)
            == body::body_bytes(b),
{
    body_round_trip(b);
}

} // verus!
