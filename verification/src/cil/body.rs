//! Method body model and header/code encode+decode.

use vstd::prelude::*;
use vstd::slice::slice_subrange;

use crate::bytes;
use crate::cil::code::Code;
use crate::cil::exceptions;
use crate::cil::exceptions::ExceptionHandler;
use crate::cil::instruction;
use crate::cil::instruction::{Instruction, InstructionView, Operand, OperandView};
use crate::cil::opcode;
use crate::cil::opcode::{OpCode, OperandType};
use crate::cil::opcodes;
use crate::cil::variable::VariableDefinition;
use crate::error::{Error, ErrorKind};
use crate::io;
use crate::io::{ByteReader, ByteWriter};
use crate::text;
use crate::text::Message;
use crate::token::Token;

verus! {

broadcast use crate::bytes::widths;

/// The IL body of a method: header fields, instructions, locals and
/// exception handlers.
#[derive(Debug, Clone, PartialEq)]
pub struct MethodBody {
    /// Maximum evaluation-stack depth (`maxstack`).
    pub max_stack: u16,
    /// `StandAloneSig` token of the local variable signature; nil when the
    /// body has no locals.
    pub local_var_sig_tok: Token,
    /// Whether the locals must be zero-initialized before the body runs.
    pub init_locals: bool,
    /// Decoded instruction stream; branch operands hold absolute offsets.
    pub instructions: Vec<Instruction>,
    /// Exception-handling clauses.
    pub exception_handlers: Vec<ExceptionHandler>,
    /// Local variable slots (populated by the metadata layer from the
    /// local signature).
    pub variables: Vec<VariableDefinition>,
}

/// What a method body says.
#[verifier::ext_equal]
pub struct MethodBodyView {
    pub max_stack: u16,
    pub local_var_sig_tok: Token,
    pub init_locals: bool,
    pub instructions: Seq<InstructionView>,
    pub exception_handlers: Seq<ExceptionHandler>,
    pub variables: Seq<VariableDefinition>,
}

impl View for MethodBody {
    type V = MethodBodyView;

    open spec fn view(&self) -> MethodBodyView {
        MethodBodyView {
            max_stack: self.max_stack,
            local_var_sig_tok: self.local_var_sig_tok,
            init_locals: self.init_locals,
            instructions: instruction::instruction_views(self.instructions@),
            exception_handlers: self.exception_handlers@,
            variables: self.variables@,
        }
    }
}

impl Default for MethodBody {
    fn default() -> (b: MethodBody)
        ensures
            b@ == (MethodBodyView {
                max_stack: 8,
                local_var_sig_tok: Token(0),
                init_locals: false,
                instructions: Seq::empty(),
                exception_handlers: Seq::empty(),
                variables: Seq::empty(),
            }),
    {
        let b = MethodBody {
            max_stack: 8,
            local_var_sig_tok: Token(0),
            init_locals: false,
            instructions: Vec::new(),
            exception_handlers: Vec::new(),
            variables: Vec::new(),
        };
        proof {
            assert(b@.instructions =~= Seq::<InstructionView>::empty());
        }
        b
    }
}

/// Where the `k`-th instruction starts: behind all before it.
pub open spec fn code_offset(instructions: Seq<InstructionView>, k: int) -> nat
    decreases k,
{
    if k <= 0 {
        0
    } else {
        code_offset(instructions, k - 1) + instructions[k - 1].size()
    }
}

impl MethodBody {
    /// Total size in bytes of the encoded instruction stream.
    pub fn code_size(&self) -> (n: u32)
        requires
            code_offset(self@.instructions, self@.instructions.len() as int) <= usize::MAX,
        ensures
            n == bytes::low32(
                code_offset(self@.instructions, self@.instructions.len() as int) as int,
            ),
    {
        let starts = code_offsets(self.instructions.as_slice());
        bytes::as_low32(starts[self.instructions.len()])
    }
}

proof fn code_offset_monotonic(instructions: Seq<InstructionView>, j: int, k: int)
    requires
        j <= k,
    ensures
        code_offset(instructions, j) <= code_offset(instructions, k),
    decreases k - j,
{
    if j < k {
        code_offset_monotonic(instructions, j, k - 1);
    }
}

/// Adds up where the instructions start, and where the last one ends.
fn code_offsets(instructions: &[Instruction]) -> (starts: Vec<usize>)
    requires
        code_offset(
            instruction::instruction_views(instructions@),
            instructions@.len() as int,
        ) <= usize::MAX,
    ensures
        starts@.len() == instructions@.len() + 1,
        forall|k: int|
            0 <= k <= instructions@.len() ==> #[trigger] starts@[k] == code_offset(
                instruction::instruction_views(instructions@),
                k,
            ),
{
    let ghost views = instruction::instruction_views(instructions@);
    let n: usize = instructions.len();
    let mut starts: Vec<usize> = Vec::new();
    let mut offset: usize = 0;
    starts.push(0);
    let mut i: usize = 0;
    while i < n
        invariant
            i <= n,
            n == instructions@.len(),
            views == instruction::instruction_views(instructions@),
            code_offset(views, n as int) <= usize::MAX,
            offset == code_offset(views, i as int),
            starts@.len() == i + 1,
            forall|k: int| 0 <= k <= i ==> #[trigger] starts@[k] == code_offset(views, k),
        decreases n - i,
    {
        proof {
            code_offset_monotonic(views, i + 1, n as int);
            assert(views[i as int] == instructions@[i as int]@);
        }
        offset = offset + instructions[i].size();
        let ghost before = starts@;
        starts.push(offset);
        proof {
            assert forall|k: int| 0 <= k <= i + 1 implies #[trigger] starts@[k] == code_offset(
                views,
                k,
            ) by {
                if k <= i {
                    assert(starts@[k] == before[k]);
                }
            }
        }
        i += 1;
    }
    starts
}

/// Result of parsing a method body header.
#[derive(Debug, Clone, Copy, PartialEq, Eq)]
pub struct ParsedHeader {
    /// `true` for a fat header, `false` for a tiny one.
    pub fat: bool,
    /// Size in bytes of the IL code that follows the header.
    pub code_size: u32,
    /// Declared maximum stack depth (always 8 for tiny headers).
    pub max_stack: u16,
    /// `StandAloneSig` token of the locals (nil when absent).
    pub locals_token: Token,
    /// Whether locals are zero-initialized (always `false` for tiny).
    pub init_locals: bool,
    /// Whether extra data sections (exception clauses) follow the code.
    pub more_sects: bool,
}

/// The body header at the start of `data`: in the tiny form one byte with the
/// code size above the format bits `10`, in the fat form twelve bytes with the
/// format bits `11`.
pub open spec fn header_at(data: Seq<u8>) -> Option<ParsedHeader> {
    if data.len() == 0 {
        None
    } else if data[0] % 4 == 2 {
        Some(
            ParsedHeader {
                fat: false,
                code_size: (data[0] / 4) as u32,
                max_stack: 8,
                locals_token: Token(0),
                init_locals: false,
                more_sects: false,
            },
        )
    } else if data[0] % 4 == 3 && data.len() >= 12 {
        Some(
            ParsedHeader {
                fat: true,
                code_size: bytes::u32_at(data, 4),
                max_stack: bytes::u16_at(data, 2),
                locals_token: Token(bytes::u32_at(data, 8)),
                init_locals: bytes::u16_at(data, 0) / 0x10 % 2 == 1,
                more_sects: bytes::u16_at(data, 0) / 8 % 2 == 1,
            },
        )
    } else {
        None
    }
}

/// Parses a method body header at the start of `data`.
///
/// Tiny form: one byte `(code_size << 2) | 0x2`. Fat form: twelve bytes
/// (flags u16, maxstack u16, code size u32, locals token u32).
pub fn parse_body_header(data: &[u8]) -> (r: Result<ParsedHeader, Error>)
    ensures
        match header_at(data@) {
            Some(h) => r is Ok && r->Ok_0 == h,
            None => r is Err && r->Err_0.kind() == ErrorKind::BadImage && r->Err_0.text()
                == header_failure(data@),
        },
{
    if data.len() == 0 {
        return Err(Error::bad_image("empty method body"));
    }
    let first: u8 = data[0];
    let format: u8 = first % 4;
    if format == 2 {
        return Ok(
            ParsedHeader {
                fat: false,
                code_size: (first / 4) as u32,
                max_stack: 8,
                locals_token: Token(0),
                init_locals: false,
                more_sects: false,
            },
        );
    }
    if format != 3 {
        return Err(
            Error::bad_image(
                Message::new("invalid method header format bits 0x").hex(format as u64).as_str(),
            ),
        );
    }
    if data.len() < 12 {
        return Err(Error::bad_image("truncated fat method body header"));
    }
    let flags: u16 = bytes::get_u16(data, 0);
    Ok(
        ParsedHeader {
            fat: true,
            code_size: bytes::get_u32(data, 4),
            max_stack: bytes::get_u16(data, 2),
            locals_token: Token(bytes::get_u32(data, 8)),
            init_locals: flags / 0x10 % 2 == 1,
            more_sects: flags / 8 % 2 == 1,
        },
    )
}

/// What is said of a header that cannot be read.
pub open spec fn header_failure(data: Seq<u8>) -> Seq<char> {
    if data.len() == 0 {
        "empty method body"@
    } else if data[0] % 4 == 3 {
        "truncated fat method body header"@
    } else {
        "invalid method header format bits 0x"@ + text::lower_hex((data[0] % 4) as nat)
    }
}

/// The flags of a fat header: the format, the header size of three words, and
/// whether the locals are initialized.
pub open spec fn fat_flags(init_locals: bool) -> u16 {
    if init_locals {
        0x3013
    } else {
        0x3003
    }
}

/// The bytes of a body header. A tiny one holds only a code size below 64; a
/// fat one any below 2^31.
pub open spec fn header_bytes(
    tiny: bool,
    code_size: u32,
    max_stack: u16,
    locals: Token,
    init_locals: bool,
) -> Result<Seq<u8>, ErrorKind> {
    if tiny {
        if code_size >= 64 || locals.0 != 0 || init_locals || max_stack > 8 {
            Err(ErrorKind::InvalidOperation)
        } else {
            Ok(seq![(4 * code_size + 2) as u8])
        }
    } else if code_size > 0x7FFF_FFFF {
        Err(ErrorKind::InvalidOperation)
    } else {
        Ok(
            bytes::u16_le(fat_flags(init_locals)) + bytes::u16_le(max_stack) + bytes::u32_le(
                code_size,
            ) + bytes::u32_le(locals.0),
        )
    }
}

/// Encodes a method body header.
///
/// With `tiny == true` the body must fit the tiny constraints (code < 64
/// bytes, no explicit locals/init/maxstack), otherwise an error is returned.
/// Fat headers are always 12 bytes long.
pub fn encode_body_header(
    tiny: bool,
    code_size: u32,
    max_stack: u16,
    locals: Token,
    init_locals: bool,
) -> (r: Result<Vec<u8>, Error>)
    ensures
        match header_bytes(tiny, code_size, max_stack, locals, init_locals) {
            Ok(s) => r is Ok && r->Ok_0@ == s,
            Err(e) => r is Err && r->Err_0.kind() == e,
        },
{
    if tiny {
        if code_size >= 64 {
            return Err(Error::invalid_op("tiny header cannot encode code >= 64 bytes"));
        }
        if !locals.is_nil() || init_locals || max_stack > 8 {
            return Err(
                Error::invalid_op("tiny header cannot encode locals, init_locals or max_stack > 8"),
            );
        }
        let mut out: Vec<u8> = Vec::new();
        out.push((4 * code_size + 2) as u8);
        proof {
            assert(out@ =~= seq![(4 * code_size + 2) as u8]);
        }
        return Ok(out);
    }
    if code_size > 0x7FFF_FFFF {
        return Err(Error::invalid_op("code size too large"));
    }
    let mut w = ByteWriter::new();
    w.u16(if init_locals {
        0x3013
    } else {
        0x3003
    });
    w.u16(max_stack);
    w.u32(code_size);
    w.u32(locals.0);
    proof {
        assert(w@ =~= header_bytes(tiny, code_size, max_stack, locals, init_locals)->Ok_0);
    }
    Ok(w.into_vec())
}

/// The instruction whose opcode stands at `at`, and the number of bytes of the
/// opcode.
pub open spec fn code_at(s: Seq<u8>, at: int) -> Option<(Code, nat)> {
    if at < 0 || at >= s.len() {
        None
    } else if s[at] != 0xFE {
        match opcodes::one_byte_code(s[at]) {
            Some(c) => Some((c, 1nat)),
            None => None,
        }
    } else if at + 1 >= s.len() {
        None
    } else {
        match opcodes::two_byte_code(s[at + 1]) {
            Some(c) => Some((c, 2nat)),
            None => None,
        }
    }
}

/// The targets of a switch that stand from `at` on, relative to `base`.
pub open spec fn switch_targets(s: Seq<u8>, at: int, n: nat, base: int) -> Seq<i32> {
    Seq::new(
        n,
        |k: int| bytes::wrapped32(base + bytes::i32_of(bytes::u32_at(s, at + 4 * k))),
    )
}

/// The operand at `at`, of an instruction that is followed by the one at
/// `next`, and how many bytes it takes.
#[verifier::opaque]
pub open spec fn operand_at(s: Seq<u8>, at: int, kind: OperandType, next: int) -> Option<
    (OperandView, nat),
> {
    match kind {
        OperandType::InlineNone => Some((OperandView::Empty, 0nat)),
        OperandType::InlineSwitch => if at + 4 > s.len() {
            None
        } else {
            let count = bytes::i32_of(bytes::u32_at(s, at));
            if count < 0 || at + 4 + 4 * count > s.len() {
                None
            } else {
                Some(
                    (
                        OperandView::Switch(
                            switch_targets(s, at + 4, count as nat, next + 4 * count),
                        ),
                        (4 + 4 * count) as nat,
                    ),
                )
            }
        },
        _ => if at + kind.width()->Some_0 > s.len() {
            None
        } else {
            Some((fixed_operand(s, at, kind, next), kind.width()->Some_0))
        },
    }
}

/// The operand of fixed width at `at`.
pub open spec fn fixed_operand(s: Seq<u8>, at: int, kind: OperandType, next: int) -> OperandView {
    match kind {
        OperandType::ShortInlineBrTarget => OperandView::Branch(
            bytes::wrapped32(next + bytes::i8_of(s[at])),
        ),
        OperandType::InlineBrTarget => OperandView::Branch(
            bytes::wrapped32(next + bytes::i32_of(bytes::u32_at(s, at))),
        ),
        OperandType::ShortInlineI => OperandView::Int8(bytes::i8_of(s[at])),
        OperandType::InlineI => OperandView::Int32(bytes::i32_of(bytes::u32_at(s, at))),
        OperandType::InlineI8 => OperandView::Int64(bytes::i64_of(bytes::u64_at(s, at))),
        OperandType::ShortInlineR => OperandView::Float32(bytes::u32_at(s, at)),
        OperandType::InlineR => OperandView::Float64(bytes::u64_at(s, at)),
        OperandType::ShortInlineVar | OperandType::ShortInlineArg => OperandView::Var(
            s[at] as u16,
        ),
        OperandType::InlineVar | OperandType::InlineArg => OperandView::Var(bytes::u16_at(s, at)),
        OperandType::InlineString => OperandView::UserString(bytes::u32_at(s, at) % 0x100_0000),
        OperandType::InlineNone | OperandType::InlineSwitch => OperandView::Empty,
        _ => OperandView::Token(Token(bytes::u32_at(s, at))),
    }
}

/// The instruction at `at` and how many bytes it takes.
pub open spec fn instruction_at(s: Seq<u8>, at: int) -> Option<(InstructionView, nat)> {
    match code_at(s, at) {
        None => None,
        Some((code, width)) => {
            let op = opcodes::described(code);
            let offset = bytes::wrapped32(at);
            match operand_at(s, (at + width) as int, op.operand_type, offset + op.fixed_size()) {
                None => None,
                Some((operand, length)) => Some(
                    (InstructionView { offset, opcode: op, operand }, width + length),
                ),
            }
        },
    }
}

/// The instructions from `at` to the end.
pub open spec fn code_from(s: Seq<u8>, at: int) -> Option<Seq<InstructionView>>
    decreases s.len() - at,
{
    if at >= s.len() {
        Some(Seq::empty())
    } else {
        match instruction_at(s, at) {
            None => None,
            Some((i, width)) => if width == 0 || at + width > s.len() {
                None
            } else {
                match code_from(s, (at + width) as int) {
                    None => None,
                    Some(rest) => Some(seq![i] + rest),
                }
            },
        }
    }
}

/// What is said of an opcode that cannot be read.
pub open spec fn opcode_failure(s: Seq<u8>, at: int) -> Seq<char> {
    if at >= s.len() {
        io::short_read(1, at as nat, s.len())
    } else if s[at] != 0xFE {
        "unknown single-byte opcode 0x"@ + text::lower_hex_padded(s[at] as nat, 2)
    } else if at + 1 >= s.len() {
        io::short_read(1, (at + 1) as nat, s.len())
    } else {
        "unknown two-byte opcode fe 0x"@ + text::lower_hex_padded(s[at + 1] as nat, 2)
    }
}

/// What is said of an operand that cannot be read.
pub open spec fn operand_stop(s: Seq<u8>, at: int, kind: OperandType) -> Seq<char> {
    if kind == OperandType::InlineSwitch {
        if at + 4 > s.len() {
            io::short_read(4, at as nat, s.len())
        } else {
            "invalid switch target count "@ + text::signed_decimal(
                bytes::i32_of(bytes::u32_at(s, at)) as int,
            )
        }
    } else {
        io::short_read(kind.width()->Some_0, at as nat, s.len())
    }
}

/// What is said of the first instruction from `at` on that cannot be read.
pub open spec fn code_failure(s: Seq<u8>, at: int) -> Seq<char>
    decreases s.len() - at,
{
    if at >= s.len() {
        Seq::empty()
    } else {
        match instruction_at(s, at) {
            None => match code_at(s, at) {
                None => opcode_failure(s, at),
                Some((code, width)) => operand_stop(
                    s,
                    (at + width) as int,
                    opcodes::described(code).operand_type,
                ),
            },
            Some((i, width)) => if width == 0 || at + width > s.len() {
                Seq::empty()
            } else {
                code_failure(s, (at + width) as int)
            },
        }
    }
}

/// Decodes an IL code stream into instructions.
///
/// Branch operands are resolved to absolute IL offsets relative to the start
/// of `data`. Unknown encodings or truncated operands yield errors; no panic
/// occurs on malformed input.
pub fn read_code(data: &[u8], code_size: usize) -> (r: Result<Vec<Instruction>, Error>)
    ensures
        if code_size > data@.len() {
            r is Err && r->Err_0.kind() == ErrorKind::BadImage && r->Err_0.text() == "code size "@
                + text::decimal(code_size as nat) + " exceeds available "@ + text::decimal(
                data@.len(),
            ) + " bytes"@
        } else {
            match code_from(data@.take(code_size as int), 0) {
                Some(v) => r is Ok && instruction::instruction_views(r->Ok_0@) == v,
                None => r is Err && r->Err_0.kind() == ErrorKind::BadImage && r->Err_0.text()
                    == code_failure(data@.take(code_size as int), 0),
            }
        },
{
    if code_size > data.len() {
        return Err(
            Error::bad_image(
                Message::new("code size ").count(code_size as u64).text(
                    " exceeds available ",
                ).count(data.len() as u64).text(" bytes").as_str(),
            ),
        );
    }
    let code = slice_subrange(data, 0, code_size);
    let ghost s = data@.take(code_size as int);
    let mut reader = ByteReader::new(code);
    let mut instructions: Vec<Instruction> = Vec::new();
    let ghost whole = code_from(s, 0);
    proof {
        assert(code@ =~= s);
        if let Some(rest) = whole {
            assert(instruction::instruction_views(instructions@) + rest =~= rest);
        }
    }
    while !reader.is_empty()
        invariant
            reader.data() == s,
            reader.pos() <= s.len(),
            s == data@.take(code_size as int),
            code_size <= data@.len(),
            whole == code_from(s, 0),
            code_failure(s, 0) == code_failure(s, reader.pos() as int),
            whole == (match code_from(s, reader.pos() as int) {
                Some(rest) => Some(instruction::instruction_views(instructions@) + rest),
                None => None,
            }),
        decreases s.len() - reader.pos(),
    {
        let ghost at = reader.pos() as int;
        let offset: i32 = bytes::as_i32(bytes::as_low32(reader.position()));
        let opcode = read_opcode(&mut reader)?;
        let operand = read_operand(&mut reader, opcode, offset)?;
        let ghost before = instruction::instruction_views(instructions@);
        let next = Instruction::new(offset, opcode, operand);
        instructions.push(next);
        proof {
            let now = instruction::instruction_views(instructions@);
            assert(now =~= before.push(next@));
            if let Some(rest) = code_from(s, reader.pos() as int) {
                assert(before + (seq![next@] + rest) =~= now + rest);
            }
        }
    }
    proof {
        assert(instruction::instruction_views(instructions@) + Seq::<InstructionView>::empty()
            =~= instruction::instruction_views(instructions@));
    }
    Ok(instructions)
}

fn read_opcode(reader: &mut ByteReader) -> (r: Result<OpCode, Error>)
    requires
        old(reader).pos() <= old(reader).data().len(),
    ensures
        final(reader).data() == old(reader).data(),
        match code_at(old(reader).data(), old(reader).pos() as int) {
            Some((c, width)) => r is Ok && r->Ok_0@ == opcodes::described(c) && final(reader).pos()
                == old(reader).pos() + width && final(reader).pos() <= final(reader).data().len(),
            None => r is Err && r->Err_0.kind() == ErrorKind::BadImage && r->Err_0.text()
                == opcode_failure(old(reader).data(), old(reader).pos() as int),
        },
{
    let first: u8 = reader.u8()?;
    if first != 0xFE {
        return match opcodes::one_byte(first) {
            Some(op) => Ok(op),
            None => Err(
                Error::bad_image(
                    Message::new("unknown single-byte opcode 0x").hex_padded(
                        first as u64,
                        2,
                    ).as_str(),
                ),
            ),
        };
    }
    let second: u8 = reader.u8()?;
    match opcodes::two_byte(second) {
        Some(op) => Ok(op),
        None => Err(
            Error::bad_image(
                Message::new("unknown two-byte opcode fe 0x").hex_padded(second as u64, 2).as_str(),
            ),
        ),
    }
}

fn read_operand(reader: &mut ByteReader, opcode: OpCode, offset: i32) -> (r: Result<Operand, Error>)
    requires
        old(reader).pos() <= old(reader).data().len(),
    ensures
        final(reader).data() == old(reader).data(),
        match operand_at(
            old(reader).data(),
            old(reader).pos() as int,
            opcode.operand_type,
            offset + opcode@.fixed_size(),
        ) {
            Some((operand, width)) => r is Ok && r->Ok_0@ == operand && final(reader).pos() == old(
                reader,
            ).pos() + width && final(reader).pos() <= final(reader).data().len(),
            None => r is Err && r->Err_0.kind() == ErrorKind::BadImage && r->Err_0.text()
                == operand_stop(
                old(reader).data(),
                old(reader).pos() as int,
                opcode.operand_type,
            ),
        },
{
    proof {
        reveal(operand_at);
    }
    let next: i64 = offset as i64 + opcode::instruction_size(opcode) as i64;
    match opcode.operand_type {
        OperandType::InlineNone => Ok(Operand::Empty),
        OperandType::InlineSwitch => read_switch(reader, next),
        OperandType::ShortInlineBrTarget => {
            let delta: i8 = reader.i8()?;
            Ok(Operand::Branch(bytes::as_i32(bytes::as_wrapped_u32(next + delta as i64))))
        },
        OperandType::InlineBrTarget => {
            let delta: i32 = reader.i32()?;
            Ok(Operand::Branch(bytes::as_i32(bytes::as_wrapped_u32(next + delta as i64))))
        },
        OperandType::ShortInlineI => Ok(Operand::Int8(reader.i8()?)),
        OperandType::InlineI => Ok(Operand::Int32(reader.i32()?)),
        OperandType::InlineI8 => Ok(Operand::Int64(reader.i64()?)),
        OperandType::ShortInlineR => Ok(Operand::Float32(reader.f32_bits()?)),
        OperandType::InlineR => Ok(Operand::Float64(reader.f64_bits()?)),
        OperandType::ShortInlineVar | OperandType::ShortInlineArg => Ok(
            Operand::Var(reader.u8()? as u16),
        ),
        OperandType::InlineVar | OperandType::InlineArg => Ok(Operand::Var(reader.u16()?)),
        OperandType::InlineString => Ok(Operand::UserString(reader.u32()? % 0x100_0000)),
        OperandType::InlineSig
        | OperandType::InlineTok
        | OperandType::InlineType
        | OperandType::InlineMethod
        | OperandType::InlineField => Ok(Operand::Token(Token(reader.u32()?))),
    }
}

fn read_switch(reader: &mut ByteReader, next: i64) -> (r: Result<Operand, Error>)
    requires
        old(reader).pos() <= old(reader).data().len(),
        -0x1_0000_0000 <= next <= 0x1_0000_0000,
    ensures
        final(reader).data() == old(reader).data(),
        match operand_at(
            old(reader).data(),
            old(reader).pos() as int,
            OperandType::InlineSwitch,
            next as int,
        ) {
            Some((operand, width)) => r is Ok && r->Ok_0@ == operand && final(reader).pos() == old(
                reader,
            ).pos() + width && final(reader).pos() <= final(reader).data().len(),
            None => r is Err && r->Err_0.kind() == ErrorKind::BadImage && r->Err_0.text()
                == operand_stop(
                old(reader).data(),
                old(reader).pos() as int,
                OperandType::InlineSwitch,
            ),
        },
{
    proof {
        reveal(operand_at);
    }
    let ghost s = reader.data();
    let ghost at = reader.pos() as int;
    let count: i32 = reader.i32()?;
    if count < 0 || count as usize > reader.remaining() / 4 {
        return Err(
            Error::bad_image(
                Message::new("invalid switch target count ").number(count as i64).as_str(),
            ),
        );
    }
    let base: i64 = next + 4 * count as i64;
    let ghost expected = switch_targets(s, at + 4, count as nat, base as int);
    let mut targets: Vec<i32> = Vec::new();
    let mut i: i32 = 0;
    while i < count
        invariant
            0 <= i <= count,
            reader.data() == s,
            s == old(reader).data(),
            reader.pos() == at + 4 + 4 * i,
            at + 4 + 4 * count <= s.len(),
            -0x10_0000_0000 + 0x1_0000_0000 <= base <= 0x10_0000_0000 - 0x1_0000_0000,
            expected == switch_targets(s, at + 4, count as nat, base as int),
            targets@ == expected.take(i as int),
        decreases count - i,
    {
        let delta: i32 = reader.i32()?;
        targets.push(bytes::as_i32(bytes::as_wrapped_u32(base + delta as i64)));
        proof {
            assert(targets@ =~= expected.take(i + 1));
        }
        i += 1;
    }
    proof {
        assert(expected.take(count as int) =~= expected);
    }
    Ok(Operand::Switch(targets))
}

/// The relative targets of a switch whose table ends at `base`.
pub open spec fn switch_parts(targets: Seq<i32>, base: int) -> Seq<Seq<u8>> {
    Seq::new(targets.len(), |k: int| bytes::u32_le(bytes::low32(targets[k] - base)))
}

/// The bytes of an operand that does not depend on where it stands.
pub open spec fn simple_operand(operand: OperandView, kind: OperandType) -> Result<
    Seq<u8>,
    ErrorKind,
> {
    match kind {
        OperandType::InlineNone => Ok(Seq::empty()),
        OperandType::ShortInlineI => match operand {
            OperandView::Int8(v) => Ok(seq![bytes::u8_of(v)]),
            _ => Err(ErrorKind::Argument),
        },
        OperandType::InlineI => match operand {
            OperandView::Int32(v) => Ok(bytes::u32_le(bytes::u32_of(v))),
            _ => Err(ErrorKind::Argument),
        },
        OperandType::InlineI8 => match operand {
            OperandView::Int64(v) => Ok(bytes::u64_le(bytes::u64_of(v))),
            _ => Err(ErrorKind::Argument),
        },
        OperandType::ShortInlineR => match operand {
            OperandView::Float32(v) => Ok(bytes::u32_le(v)),
            _ => Err(ErrorKind::Argument),
        },
        OperandType::InlineR => match operand {
            OperandView::Float64(v) => Ok(bytes::u64_le(v)),
            _ => Err(ErrorKind::Argument),
        },
        OperandType::ShortInlineVar | OperandType::ShortInlineArg => match operand {
            OperandView::Var(v) => if v > 0xFF {
                Err(ErrorKind::InvalidOperation)
            } else {
                Ok(seq![v as u8])
            },
            _ => Err(ErrorKind::Argument),
        },
        OperandType::InlineVar | OperandType::InlineArg => match operand {
            OperandView::Var(v) => Ok(bytes::u16_le(v)),
            _ => Err(ErrorKind::Argument),
        },
        OperandType::InlineString => match operand {
            OperandView::UserString(v) => Ok(bytes::u32_le(0x7000_0000u32 | v)),
            _ => Err(ErrorKind::Argument),
        },
        OperandType::InlineSwitch
        | OperandType::ShortInlineBrTarget
        | OperandType::InlineBrTarget => Err(ErrorKind::Argument),
        _ => match operand {
            OperandView::Token(t) => Ok(bytes::u32_le(t.0)),
            _ => Err(ErrorKind::Argument),
        },
    }
}

/// The bytes of an operand of an instruction that is followed by the one at
/// `next`. It fails where the operand is not of the kind or does not fit it.
#[verifier::opaque]
pub open spec fn operand_bytes(operand: OperandView, kind: OperandType, next: int) -> Result<
    Seq<u8>,
    ErrorKind,
> {
    match (operand, kind) {
        (OperandView::Switch(targets), OperandType::InlineSwitch) => Ok(
            bytes::u32_le(bytes::low32(targets.len() as int)) + bytes::joined(
                switch_parts(targets, next + 4 * targets.len()),
            ),
        ),
        (OperandView::Branch(target), OperandType::ShortInlineBrTarget) => {
            let delta = bytes::wrapped32(target - next);
            if -0x80 <= delta < 0x80 {
                Ok(seq![bytes::u8_of(delta as i8)])
            } else {
                Err(ErrorKind::InvalidOperation)
            }
        },
        (OperandView::Branch(target), OperandType::InlineBrTarget) => Ok(
            bytes::u32_le(bytes::low32(target - next)),
        ),
        _ => simple_operand(operand, kind),
    }
}

/// The bytes of an instruction at the offset.
pub open spec fn instruction_bytes(i: InstructionView, offset: int) -> Result<Seq<u8>, ErrorKind> {
    match operand_bytes(
        i.operand,
        i.opcode.operand_type,
        bytes::wrapped32(offset) + i.opcode.fixed_size(),
    ) {
        Ok(b) => Ok(i.opcode.bytes() + b),
        Err(e) => Err(e),
    }
}

/// The bytes of the instructions from the `k`-th one on, each at the offset
/// behind those before it.
pub open spec fn code_bytes_from(instructions: Seq<InstructionView>, k: int) -> Result<
    Seq<u8>,
    ErrorKind,
>
    decreases instructions.len() - k,
{
    if k >= instructions.len() {
        Ok(Seq::empty())
    } else {
        match instruction_bytes(instructions[k], code_offset(instructions, k) as int) {
            Err(e) => Err(e),
            Ok(b) => match code_bytes_from(instructions, k + 1) {
                Err(e) => Err(e),
                Ok(rest) => Ok(b + rest),
            },
        }
    }
}

/// What is said of an operand that cannot be written.
pub open spec fn operand_refusal(operand: OperandView, kind: OperandType) -> Seq<char> {
    match (operand, kind) {
        (
            OperandView::Branch(_),
            OperandType::ShortInlineBrTarget,
        ) => "branch target out of sbyte range"@,
        (
            OperandView::Var(_),
            OperandType::ShortInlineVar,
        ) => "variable index does not fit one byte"@,
        (
            OperandView::Var(_),
            OperandType::ShortInlineArg,
        ) => "variable index does not fit one byte"@,
        _ => operand_failure(operand, kind),
    }
}

/// What is said of the first instruction from the `k`-th one on that cannot be
/// written.
pub open spec fn code_refusal(instructions: Seq<InstructionView>, k: int) -> Seq<char>
    decreases instructions.len() - k,
{
    if k >= instructions.len() {
        Seq::empty()
    } else {
        match instruction_bytes(instructions[k], code_offset(instructions, k) as int) {
            Err(e) => operand_refusal(
                instructions[k].operand,
                instructions[k].opcode.operand_type,
            ),
            Ok(b) => code_refusal(instructions, k + 1),
        }
    }
}

/// Encodes instructions back into an IL byte stream.
///
/// Offsets are recomputed sequentially; absolute branch targets are turned
/// back into their relative encodings. User-string operands are written as
/// `ldstr` tokens (`0x70 << 24 | index`).
pub fn write_code(instructions: &[Instruction]) -> (r: Result<Vec<u8>, Error>)
    requires
        code_offset(
            instruction::instruction_views(instructions@),
            instructions@.len() as int,
        ) <= usize::MAX,
    ensures
        match code_bytes_from(instruction::instruction_views(instructions@), 0) {
            Ok(s) => r is Ok && r->Ok_0@ == s,
            Err(e) => r is Err && r->Err_0.kind() == e && r->Err_0.text() == code_refusal(
                instruction::instruction_views(instructions@),
                0,
            ),
        },
{
    let ghost views = instruction::instruction_views(instructions@);
    let starts = code_offsets(instructions);
    let n: usize = instructions.len();
    let mut writer = ByteWriter::new();
    let mut i: usize = 0;
    let ghost whole = code_bytes_from(views, 0);
    proof {
        if let Ok(rest) = whole {
            assert(writer@ + rest =~= rest);
        }
    }
    while i < n
        invariant
            i <= n,
            n == instructions@.len(),
            views == instruction::instruction_views(instructions@),
            starts@.len() == n + 1,
            forall|k: int| 0 <= k <= n ==> #[trigger] starts@[k] == code_offset(views, k),
            whole == code_bytes_from(views, 0),
            code_refusal(views, 0) == code_refusal(views, i as int),
            whole == (match code_bytes_from(views, i as int) {
                Ok(rest) => Ok::<Seq<u8>, ErrorKind>(writer@ + rest),
                Err(e) => Err(e),
            }),
        decreases n - i,
    {
        let ghost before = writer@;
        let offset: i32 = bytes::as_i32(bytes::as_low32(starts[i]));
        proof {
            assert(views[i as int] == instructions@[i as int]@);
            assert(starts@[i as int] == code_offset(views, i as int));
        }
        write_instruction(&mut writer, &instructions[i], offset)?;
        proof {
            let b = instruction_bytes(views[i as int], code_offset(views, i as int) as int)->Ok_0;
            if let Ok(rest) = code_bytes_from(views, i + 1) {
                assert(before + (b + rest) =~= writer@ + rest);
            }
        }
        i += 1;
    }
    proof {
        assert(writer@ + Seq::<u8>::empty() =~= writer@);
    }
    Ok(writer.into_vec())
}

fn write_instruction(writer: &mut ByteWriter, instruction: &Instruction, offset: i32) -> (r: Result<
    (),
    Error,
>)
    ensures
        ({
            let v = instruction@;
            match operand_bytes(
                v.operand,
                v.opcode.operand_type,
                offset + v.opcode.fixed_size(),
            ) {
                Ok(b) => r is Ok && final(writer)@ == old(writer)@ + (v.opcode.bytes() + b),
                Err(e) => r is Err && r->Err_0.kind() == e && r->Err_0.text() == operand_refusal(
                    v.operand,
                    v.opcode.operand_type,
                ),
            }
        }),
{
    let opcode = instruction.opcode;
    if !opcode.is_single_byte() {
        writer.u8(opcode.byte1);
    }
    writer.u8(opcode.byte2);
    let ghost start = writer@;
    proof {
        assert(start =~= old(writer)@ + instruction@.opcode.bytes());
    }
    let next: i64 = offset as i64 + opcode::instruction_size(opcode) as i64;
    write_operand(writer, &instruction.operand, opcode.operand_type, next)?;
    proof {
        let b = operand_bytes(
            instruction@.operand,
            opcode.operand_type,
            offset + instruction@.opcode.fixed_size(),
        )->Ok_0;
        assert(writer@ =~= old(writer)@ + (instruction@.opcode.bytes() + b));
    }
    Ok(())
}

fn write_operand(writer: &mut ByteWriter, operand: &Operand, kind: OperandType, next: i64) -> (r:
    Result<(), Error>)
    requires
        -0x1_0000_0000 <= next <= 0x1_0000_0000,
    ensures
        match operand_bytes(operand@, kind, next as int) {
            Ok(b) => r is Ok && final(writer)@ == old(writer)@ + b,
            Err(e) => r is Err && r->Err_0.kind() == e && r->Err_0.text() == operand_refusal(
                operand@,
                kind,
            ),
        },
{
    proof {
        reveal(operand_bytes);
    }
    match operand {
        Operand::Switch(targets) => if kind == OperandType::InlineSwitch {
            write_switch(writer, targets, next);
            return Ok(());
        },
        Operand::Branch(target) => {
            if kind == OperandType::ShortInlineBrTarget {
                let delta: i32 = bytes::as_i32(bytes::as_wrapped_u32(*target as i64 - next));
                if delta < -0x80 || delta > 0x7F {
                    return Err(Error::invalid_op("branch target out of sbyte range"));
                }
                writer.i8(delta as i8);
                proof {
                    assert(writer@ =~= old(writer)@ + seq![bytes::u8_of(delta as i8)]);
                }
                return Ok(());
            }
            if kind == OperandType::InlineBrTarget {
                writer.u32(bytes::as_wrapped_u32(*target as i64 - next));
                return Ok(());
            }
        },
        _ => {},
    }
    write_simple_operand(writer, operand, kind)
}

/// Takes the low 32 bits of the distance from `base` to `target`.
fn distance(target: i32, base: i128) -> (v: u32)
    requires
        -0x10_0000_0000_0000_0000_0000 <= base <= 0x10_0000_0000_0000_0000_0000,
    ensures
        v == bytes::low32(target - base),
{
    let d: i128 = target as i128 - base;
    proof {
        vstd::arithmetic::div_mod::lemma_mod_multiples_vanish(
            0x100_0000_0000_0000,
            d as int,
            0x1_0000_0000,
        );
        assert(0x1_0000_0000 * 0x100_0000_0000_0000 == 0x100_0000_0000_0000_0000_0000int);
    }
    ((d + 0x100_0000_0000_0000_0000_0000) as u128 % 0x1_0000_0000) as u32
}

fn write_switch(writer: &mut ByteWriter, targets: &Vec<i32>, next: i64)
    requires
        -0x1_0000_0000 <= next <= 0x1_0000_0000,
    ensures
        final(writer)@ == old(writer)@ + (bytes::u32_le(bytes::low32(targets@.len() as int))
            + bytes::joined(switch_parts(targets@, next + 4 * targets@.len()))),
{
    let n: usize = targets.len();
    writer.u32(bytes::as_low32(n));
    let base: i128 = next as i128 + 4 * n as i128;
    let ghost parts = switch_parts(targets@, base as int);
    let ghost start = writer@;
    let mut i: usize = 0;
    proof {
        assert(parts.take(0) =~= Seq::<Seq<u8>>::empty());
        assert(writer@ =~= start + bytes::joined(parts.take(0)));
    }
    while i < n
        invariant
            i <= n,
            n == targets@.len(),
            -0x1_0000_0000 <= base <= 0x10_0000_0000_0000_0000_0000,
            parts == switch_parts(targets@, base as int),
            writer@ == start + bytes::joined(parts.take(i as int)),
        decreases n - i,
    {
        writer.u32(distance(targets[i], base));
        proof {
            bytes::joined_step(parts, i as int);
            assert(writer@ =~= start + bytes::joined(parts.take(i + 1)));
        }
        i += 1;
    }
    proof {
        assert(parts.take(n as int) =~= parts);
        assert(writer@ =~= old(writer)@ + (bytes::u32_le(bytes::low32(targets@.len() as int))
            + bytes::joined(parts)));
    }
}

/// The operand that a kind takes.
pub open spec fn wanted(kind: OperandType) -> Seq<char> {
    match kind {
        OperandType::ShortInlineI => "an Int8"@,
        OperandType::InlineI => "an Int32"@,
        OperandType::InlineI8 => "an Int64"@,
        OperandType::ShortInlineR => "a Float32"@,
        OperandType::InlineR => "a Float64"@,
        OperandType::ShortInlineVar
        | OperandType::ShortInlineArg
        | OperandType::InlineVar
        | OperandType::InlineArg => "a Var"@,
        OperandType::InlineString => "a UserString"@,
        _ => "a Token"@,
    }
}

/// What is said of an operand that is not of the kind that the opcode takes. A
/// floating-point number stands as its bits.
pub open spec fn operand_failure(operand: OperandView, kind: OperandType) -> Seq<char> {
    match kind {
        OperandType::InlineSwitch
        | OperandType::ShortInlineBrTarget
        | OperandType::InlineBrTarget => "branch operand handled by write_code"@,
        _ => "expected "@ + wanted(kind) + ", got "@ + instruction::operand_value(
            operand,
            instruction::float_bits(operand),
        ),
    }
}

fn unexpected(operand: &Operand, what: &str) -> (e: Error)
    ensures
        e.kind() == ErrorKind::Argument,
        e.text() == "expected "@ + what@ + ", got "@ + instruction::operand_value(
            operand@,
            instruction::float_bits(operand@),
        ),
{
    let bits: String = instruction::bits_text(operand);
    let mut value: String = String::new();
    instruction::push_operand_value(&mut value, operand, bits.as_str());
    proof {
        assert(value@ =~= instruction::operand_value(
            operand@,
            instruction::float_bits(operand@),
        ));
    }
    Error::argument(
        Message::new("expected ").text(what).text(", got ").text(value.as_str()).as_str(),
    )
}

fn write_simple_operand(writer: &mut ByteWriter, operand: &Operand, kind: OperandType) -> (r: Result<
    (),
    Error,
>)
    ensures
        match simple_operand(operand@, kind) {
            Ok(b) => r is Ok && final(writer)@ == old(writer)@ + b,
            Err(e) => {
                &&& r is Err
                &&& r->Err_0.kind() == e
                &&& r->Err_0.text() == if e == ErrorKind::Argument {
                    operand_failure(operand@, kind)
                } else {
                    "variable index does not fit one byte"@
                }
                &&& final(writer)@ == old(writer)@
            },
        },
{
    match kind {
        OperandType::InlineNone => {
            proof {
                assert(writer@ =~= old(writer)@ + Seq::<u8>::empty());
            }
            Ok(())
        },
        OperandType::ShortInlineI => match operand {
            Operand::Int8(v) => {
                writer.i8(*v);
                proof {
                    assert(writer@ =~= old(writer)@ + seq![bytes::u8_of(*v)]);
                }
                Ok(())
            },
            _ => Err(unexpected(operand, "an Int8")),
        },
        OperandType::InlineI => match operand {
            Operand::Int32(v) => {
                writer.i32(*v);
                Ok(())
            },
            _ => Err(unexpected(operand, "an Int32")),
        },
        OperandType::InlineI8 => match operand {
            Operand::Int64(v) => {
                writer.i64(*v);
                Ok(())
            },
            _ => Err(unexpected(operand, "an Int64")),
        },
        OperandType::ShortInlineR => match operand {
            Operand::Float32(v) => {
                writer.f32_bits(*v);
                Ok(())
            },
            _ => Err(unexpected(operand, "a Float32")),
        },
        OperandType::InlineR => match operand {
            Operand::Float64(v) => {
                writer.f64_bits(*v);
                Ok(())
            },
            _ => Err(unexpected(operand, "a Float64")),
        },
        OperandType::ShortInlineVar | OperandType::ShortInlineArg => match operand {
            Operand::Var(v) => {
                if *v > 0xFF {
                    return Err(Error::invalid_op("variable index does not fit one byte"));
                }
                writer.u8(*v as u8);
                proof {
                    assert(writer@ =~= old(writer)@ + seq![*v as u8]);
                }
                Ok(())
            },
            _ => Err(unexpected(operand, "a Var")),
        },
        OperandType::InlineVar | OperandType::InlineArg => match operand {
            Operand::Var(v) => {
                writer.u16(*v);
                Ok(())
            },
            _ => Err(unexpected(operand, "a Var")),
        },
        OperandType::InlineString => match operand {
            Operand::UserString(v) => {
                writer.u32(0x7000_0000 | *v);
                Ok(())
            },
            _ => Err(unexpected(operand, "a UserString")),
        },
        OperandType::InlineSig
        | OperandType::InlineTok
        | OperandType::InlineType
        | OperandType::InlineMethod
        | OperandType::InlineField => match operand {
            Operand::Token(t) => {
                writer.u32(t.0);
                Ok(())
            },
            _ => Err(unexpected(operand, "a Token")),
        },
        OperandType::InlineSwitch
        | OperandType::ShortInlineBrTarget
        | OperandType::InlineBrTarget => Err(
            Error::argument("branch operand handled by write_code"),
        ),
    }
}

/// How many bytes of `s` the chained sections from `at` on take up: every
/// section is as long as it says, but at least four bytes, and the next one
/// starts at a multiple of four.
pub open spec fn sections_end(s: Seq<u8>, at: int) -> int
    decreases s.len() - at,
{
    if at < 0 || at + 4 > s.len() {
        s.len() as int
    } else {
        let size = exceptions::section_size(s, at);
        let end = at + if size < 4 {
            4
        } else {
            size as int
        };
        if end >= s.len() {
            s.len() as int
        } else if !exceptions::has_more(s[at]) {
            end
        } else {
            let next = end + bytes::padding(end, 4);
            if next >= s.len() {
                s.len() as int
            } else {
                sections_end(s, next)
            }
        }
    }
}

/// Walks chained exception sections and returns their total byte length.
fn section_stream_len(data: &[u8]) -> (n: usize)
    ensures
        n == sections_end(data@, 0),
        n <= data.len(),
{
    let length: usize = data.len();
    let mut pos: usize = 0;
    loop
        invariant
            pos <= length,
            length == data@.len(),
            sections_end(data@, 0) == sections_end(data@, pos as int),
        decreases length - pos,
    {
        if length - pos < 4 {
            return length;
        }
        let flags: u8 = data[pos];
        let size: usize = if flags / 0x40 % 2 == 1 {
            data[pos + 1] as usize + 0x100 * data[pos + 2] as usize + 0x1_0000 * data[pos + 3] as usize
        } else {
            data[pos + 1] as usize
        };
        let step: usize = if size < 4 {
            4
        } else {
            size
        };
        proof {
            assert(size == exceptions::section_size(data@, pos as int));
        }
        if step >= length - pos {
            return length;
        }
        let end: usize = pos + step;
        if flags < 0x80 {
            return end;
        }
        let rem: usize = end % 4;
        let gap: usize = if rem == 0 {
            0
        } else {
            4 - rem
        };
        if gap >= length - end {
            return length;
        }
        pos = end + gap;
    }
}

/// The method body at the start of `data` and how many bytes it takes: the
/// header, the code, and the exception sections at the next multiple of four.
pub open spec fn body_at(data: Seq<u8>) -> Option<(MethodBodyView, int)> {
    match header_at(data) {
        None => None,
        Some(header) => {
            let start: int = if header.fat {
                12
            } else {
                1
            };
            let end = start + header.code_size;
            if end > data.len() {
                None
            } else {
                match code_from(data.subrange(start, end), 0) {
                    None => None,
                    Some(instructions) => {
                        let at = end + bytes::padding(end, 4);
                        if !header.more_sects {
                            Some((body_of(header, instructions, Seq::empty()), end))
                        } else if at > data.len() {
                            None
                        } else {
                            match exceptions::sections_at(data.skip(at), 0) {
                                None => None,
                                Some(handlers) => Some(
                                    (
                                        body_of(header, instructions, handlers),
                                        at + sections_end(data.skip(at), 0),
                                    ),
                                ),
                            }
                        }
                    },
                }
            }
        },
    }
}

/// The body with the parts that were read; its variables are not known.
pub open spec fn body_of(
    header: ParsedHeader,
    instructions: Seq<InstructionView>,
    handlers: Seq<ExceptionHandler>,
) -> MethodBodyView {
    MethodBodyView {
        max_stack: header.max_stack,
        local_var_sig_tok: header.locals_token,
        init_locals: header.init_locals,
        instructions,
        exception_handlers: handlers,
        variables: Seq::empty(),
    }
}

/// Convenience: parses the header, code stream and trailing sections of a
/// complete method body image. Returns the decoded body along with the total
/// number of bytes consumed (header + code + aligned sections).
pub fn decode_method_body(data: &[u8]) -> (r: Result<(MethodBody, usize), Error>)
    ensures
        match body_at(data@) {
            Some((body, n)) => r is Ok && r->Ok_0.0@ == body && r->Ok_0.1 == n,
            None => r is Err && r->Err_0.kind() == ErrorKind::BadImage,
        },
{
    let header = parse_body_header(data)?;
    let start: usize = if header.fat {
        12
    } else {
        1
    };
    let length: usize = data.len();
    if header.code_size as u64 > (length - start) as u64 {
        return Err(Error::bad_image("method body code exceeds input length"));
    }
    let size: usize = header.code_size as usize;
    let end: usize = start + size;
    let code = slice_subrange(data, start, end);
    proof {
        assert(code@.take(size as int) =~= data@.subrange(start as int, end as int));
    }
    let instructions = read_code(code, size)?;
    let mut handlers: Vec<ExceptionHandler> = Vec::new();
    let mut consumed: usize = end;
    if header.more_sects {
        let rem: usize = end % 4;
        let gap: usize = if rem == 0 {
            0
        } else {
            4 - rem
        };
        if gap > length - end {
            return Err(Error::bad_image("missing exception sections"));
        }
        let at: usize = end + gap;
        let sections = slice_subrange(data, at, length);
        proof {
            assert(sections@ =~= data@.skip(at as int));
        }
        let (found, _more) = exceptions::parse_sections(sections)?;
        handlers = found;
        consumed = at + section_stream_len(sections);
    }
    let body = MethodBody {
        max_stack: header.max_stack,
        local_var_sig_tok: header.locals_token,
        init_locals: header.init_locals,
        instructions,
        exception_handlers: handlers,
        variables: Vec::new(),
    };
    proof {
        assert(body@ =~= body_at(data@)->Some_0.0);
    }
    Ok((body, consumed))
}

/// The body needs a fat header.
pub open spec fn needs_fat_header(body: MethodBodyView, code_size: u32) -> bool {
    body.init_locals || body.local_var_sig_tok.0 != 0 || body.exception_handlers.len() > 0
        || body.max_stack > 8 || code_size >= 64
}

/// The header with the flag set that sections follow.
pub open spec fn with_more_sects(header: Seq<u8>) -> Seq<u8> {
    header.update(0, (header[0] + 8) as u8)
}

/// The bytes of a method body: a header as small as the body allows, the code,
/// and the exception section at the next multiple of four.
pub open spec fn body_bytes(body: MethodBodyView) -> Result<Seq<u8>, ErrorKind> {
    match code_bytes_from(body.instructions, 0) {
        Err(e) => Err(e),
        Ok(code) => {
            let size = bytes::low32(code.len() as int);
            match header_bytes(
                !needs_fat_header(body, size),
                size,
                body.max_stack,
                body.local_var_sig_tok,
                body.init_locals,
            ) {
                Err(e) => Err(e),
                Ok(header) => if body.exception_handlers.len() == 0 {
                    Ok(header + code)
                } else {
                    let front = with_more_sects(header) + code;
                    match exceptions::section_bytes(body.exception_handlers, false) {
                        Err(e) => Err(e),
                        Ok(section) => Ok(
                            front + bytes::zero_bytes(bytes::padding(front.len() as int, 4))
                                + section,
                        ),
                    }
                },
            }
        },
    }
}

/// Encodes a complete method body image (header + code + optional exception
/// sections), choosing the tiny or the fat form.
pub fn encode_method_body(body: &MethodBody) -> (r: Result<Vec<u8>, Error>)
    requires
        code_offset(body@.instructions, body@.instructions.len() as int) <= usize::MAX,
    ensures
        match body_bytes(body@) {
            Ok(s) => r is Ok && r->Ok_0@ == s,
            Err(e) => r is Err && r->Err_0.kind() == e,
        },
{
    let code = write_code(body.instructions.as_slice())?;
    let code_size: u32 = bytes::as_low32(code.len());
    let has_handlers: bool = body.exception_handlers.len() > 0;
    let fat: bool = body.init_locals || !body.local_var_sig_tok.is_nil() || has_handlers
        || body.max_stack > 8 || code_size >= 64;
    let mut header = encode_body_header(
        !fat,
        code_size,
        body.max_stack,
        body.local_var_sig_tok,
        body.init_locals,
    )?;
    if has_handlers {
        proof {
            reveal(bytes::u16_le);
            assert(header@[0] == 0x13 || header@[0] == 0x03);
        }
        let first: u8 = header[0];
        header.set(0, first + 8);
    }
    let mut w = ByteWriter::new();
    w.bytes(header.as_slice());
    w.bytes(code.as_slice());
    if has_handlers {
        proof {
            assert(w@ =~= header@ + code@);
        }
        w.align(4);
        let section = exceptions::write_section(body.exception_handlers.as_slice(), false)?;
        w.bytes(section.as_slice());
    }
    proof {
        assert(w@ =~= body_bytes(body@)->Ok_0);
    }
    Ok(w.into_vec())
}

} // verus!
