//! Exception handling clauses and their small/fat section encodings
//!.

use vstd::prelude::*;

use crate::bytes;
use crate::error::{Error, ErrorKind};
use crate::io::{ByteReader, ByteWriter};
use crate::text::Message;
use crate::token::Token;

verus! {

broadcast use crate::bytes::widths;

/// The kind of an exception handler.
#[derive(Debug, Clone, Copy, PartialEq, Eq, Hash, Structural)]
pub enum ExceptionHandlerType {
    /// `catch <type>`; [`ExceptionHandler::catch_type`] carries the token.
    Catch,
    /// A filter block guards the handler.
    Filter,
    /// `finally`.
    Finally,
    /// `fault`.
    Fault,
}

impl ExceptionHandlerType {
    /// The number that stands for the kind in a clause.
    pub open spec fn number(self) -> u32 {
        match self {
            ExceptionHandlerType::Catch => 0,
            ExceptionHandlerType::Filter => 1,
            ExceptionHandlerType::Finally => 2,
            ExceptionHandlerType::Fault => 4,
        }
    }

    /// The kind that the low three bits of clause flags stand for.
    pub open spec fn of_number(raw: u32) -> Option<ExceptionHandlerType> {
        let n = raw % 8;
        if n == 0 {
            Some(ExceptionHandlerType::Catch)
        } else if n == 1 {
            Some(ExceptionHandlerType::Filter)
        } else if n == 2 {
            Some(ExceptionHandlerType::Finally)
        } else if n == 4 {
            Some(ExceptionHandlerType::Fault)
        } else {
            None
        }
    }

    /// Low three bits stored in the clause flags field.
    pub fn discriminant(self) -> (n: u32)
        ensures
            n == self.number(),
    {
        match self {
            ExceptionHandlerType::Catch => 0,
            ExceptionHandlerType::Filter => 1,
            ExceptionHandlerType::Finally => 2,
            ExceptionHandlerType::Fault => 4,
        }
    }

    /// Decodes a handler kind from a clause flags value.
    pub fn from_discriminant(raw: u32) -> (r: Option<Self>)
        ensures
            r == Self::of_number(raw),
    {
        match raw % 8 {
            0 => Some(ExceptionHandlerType::Catch),
            1 => Some(ExceptionHandlerType::Filter),
            2 => Some(ExceptionHandlerType::Finally),
            4 => Some(ExceptionHandlerType::Fault),
            _ => None,
        }
    }
}

/// A handler kind reads back from the number that stands for it.
pub proof fn handler_type_round_trip(t: ExceptionHandlerType)
    ensures
        ExceptionHandlerType::of_number(t.number()) == Some(t),
{
}

/// One structured exception-handling clause of a method body.
///
/// All offsets are absolute IL offsets; lengths are byte counts.
#[derive(Debug, Clone, Copy, PartialEq, Eq, Hash)]
pub struct ExceptionHandler {
    /// Offset of the first instruction inside the guarded try block.
    pub try_start: i32,
    /// Length in bytes of the try block.
    pub try_length: i32,
    /// Offset of the first handler instruction.
    pub handler_start: i32,
    /// Length in bytes of the handler block.
    pub handler_length: i32,
    /// Offset of the filter start for [`ExceptionHandlerType::Filter`].
    pub filter_start: Option<i32>,
    /// Caught exception type token for [`ExceptionHandlerType::Catch`].
    pub catch_type: Token,
    /// Handler kind.
    pub handler_type: ExceptionHandlerType,
}

impl ExceptionHandler {
    /// Creates a handler of the kind, with empty ranges.
    pub fn new(handler_type: ExceptionHandlerType) -> (h: Self)
        ensures
            h == (ExceptionHandler {
                try_start: 0,
                try_length: 0,
                handler_start: 0,
                handler_length: 0,
                filter_start: None,
                catch_type: Token(0),
                handler_type,
            }),
    {
        ExceptionHandler {
            try_start: 0,
            try_length: 0,
            handler_start: 0,
            handler_length: 0,
            filter_start: None,
            catch_type: Token(0),
            handler_type,
        }
    }

    /// The filter offset that is written: zero where there is none.
    pub open spec fn filter(self) -> i32 {
        match self.filter_start {
            Some(f) => f,
            None => 0,
        }
    }

    /// The last field of the clause: the caught type, the filter offset, or
    /// nothing.
    pub open spec fn extra(self) -> u32 {
        match self.handler_type {
            ExceptionHandlerType::Catch => self.catch_type.0,
            ExceptionHandlerType::Filter => bytes::u32_of(self.filter()),
            _ => 0,
        }
    }

    /// The offsets and lengths fit the fields of a small clause.
    pub open spec fn fits_small(self) -> bool {
        &&& 0 <= self.try_start <= 0xFFFF
        &&& 0 <= self.try_length <= 0xFF
        &&& 0 <= self.handler_start <= 0xFFFF
        &&& 0 <= self.handler_length <= 0xFF
        &&& self.handler_type == ExceptionHandlerType::Filter ==> 0 <= self.filter() <= 0xFFFF
    }

    /// Some offset or length is too large for a small clause.
    pub open spec fn oversized(self) -> bool {
        ||| self.try_start > 0xFFFF
        ||| self.try_length > 0xFF
        ||| self.handler_start > 0xFFFF
        ||| self.handler_length > 0xFF
        ||| (self.filter_start matches Some(f) && f > 0xFFFF)
    }

    /// Only a filter has a filter offset, and only a catch has a type.
    pub open spec fn regular(self) -> bool {
        &&& self.filter_start is Some <==> self.handler_type == ExceptionHandlerType::Filter
        &&& self.handler_type != ExceptionHandlerType::Catch ==> self.catch_type.0 == 0
    }
}

/// Size in bytes of one small-form clause.
pub const SMALL_CLAUSE_SIZE: usize = 12;

/// Size in bytes of one fat-form clause.
pub const FAT_CLAUSE_SIZE: usize = 24;

/// How many bytes a clause takes.
pub open spec fn clause_size(fat: bool) -> nat {
    if fat {
        24
    } else {
        12
    }
}

/// The bytes of a clause.
#[verifier::opaque]
pub open spec fn clause_bytes(h: ExceptionHandler, fat: bool) -> Seq<u8> {
    if fat {
        bytes::u32_le(h.handler_type.number()) + bytes::u32_le(bytes::u32_of(h.try_start))
            + bytes::u32_le(bytes::u32_of(h.try_length)) + bytes::u32_le(
            bytes::u32_of(h.handler_start),
        ) + bytes::u32_le(bytes::u32_of(h.handler_length)) + bytes::u32_le(h.extra())
    } else {
        bytes::u16_le(h.handler_type.number() as u16) + bytes::u16_le(h.try_start as u16) + seq![
            h.try_length as u8,
        ] + bytes::u16_le(h.handler_start as u16) + seq![h.handler_length as u8] + bytes::u32_le(
            h.extra(),
        )
    }
}

pub broadcast proof fn clause_bytes_len(h: ExceptionHandler, fat: bool)
    ensures
        #[trigger] clause_bytes(h, fat).len() == clause_size(fat),
{
    reveal(clause_bytes);
}

/// Writes a single clause in the given form.
///
/// `fat == false` selects the small form (12-byte entries); offsets must fit
/// their narrow fields or an error is returned and nothing is written.
pub fn write_clause(out: &mut ByteWriter, handler: &ExceptionHandler, fat: bool) -> (r: Result<
    (),
    Error,
>)
    ensures
        if fat || handler.fits_small() {
            r is Ok && final(out)@ == old(out)@ + clause_bytes(*handler, fat)
        } else {
            r is Err && r->Err_0.kind() == ErrorKind::InvalidOperation && final(out)@ == old(out)@
        },
{
    let kind: u32 = handler.handler_type.discriminant();
    let filter: i32 = match handler.filter_start {
        Some(f) => f,
        None => 0,
    };
    let extra: u32 = match handler.handler_type {
        ExceptionHandlerType::Catch => handler.catch_type.0,
        ExceptionHandlerType::Filter => bytes::as_u32(filter),
        ExceptionHandlerType::Finally | ExceptionHandlerType::Fault => 0,
    };
    proof {
        reveal(clause_bytes);
    }
    if fat {
        out.u32(kind);
        out.i32(handler.try_start);
        out.i32(handler.try_length);
        out.i32(handler.handler_start);
        out.i32(handler.handler_length);
        out.u32(extra);
    } else {
        if handler.try_start < 0 || handler.try_start > 0xFFFF {
            return Err(Error::invalid_op("try offset does not fit a small clause"));
        }
        if handler.try_length < 0 || handler.try_length > 0xFF {
            return Err(Error::invalid_op("try length does not fit a small clause"));
        }
        if handler.handler_start < 0 || handler.handler_start > 0xFFFF {
            return Err(Error::invalid_op("handler offset does not fit a small clause"));
        }
        if handler.handler_length < 0 || handler.handler_length > 0xFF {
            return Err(Error::invalid_op("handler length does not fit a small clause"));
        }
        if handler.handler_type == ExceptionHandlerType::Filter && (filter < 0 || filter > 0xFFFF) {
            return Err(Error::invalid_op("filter offset does not fit a small clause"));
        }
        out.u16(kind as u16);
        out.u16(handler.try_start as u16);
        out.u8(handler.try_length as u8);
        out.u16(handler.handler_start as u16);
        out.u8(handler.handler_length as u8);
        out.u32(extra);
    }
    proof {
        assert(out@ =~= old(out)@ + clause_bytes(*handler, fat));
    }
    Ok(())
}

/// The clause with the fields: the meaning of the last one goes by the kind.
pub open spec fn clause_of(
    kind: u32,
    try_start: i32,
    try_length: i32,
    handler_start: i32,
    handler_length: i32,
    extra: u32,
) -> Option<ExceptionHandler> {
    match ExceptionHandlerType::of_number(kind) {
        None => None,
        Some(handler_type) => Some(
            ExceptionHandler {
                try_start,
                try_length,
                handler_start,
                handler_length,
                filter_start: if handler_type == ExceptionHandlerType::Filter {
                    Some(bytes::i32_of(extra))
                } else {
                    None
                },
                catch_type: if handler_type == ExceptionHandlerType::Catch {
                    Token(extra)
                } else {
                    Token(0)
                },
                handler_type,
            },
        ),
    }
}

/// The clause at `at`.
#[verifier::opaque]
pub open spec fn clause_at(s: Seq<u8>, at: int, fat: bool) -> Option<ExceptionHandler> {
    if at + clause_size(fat) > s.len() {
        None
    } else if fat {
        clause_of(
            bytes::u32_at(s, at),
            bytes::i32_of(bytes::u32_at(s, at + 4)),
            bytes::i32_of(bytes::u32_at(s, at + 8)),
            bytes::i32_of(bytes::u32_at(s, at + 12)),
            bytes::i32_of(bytes::u32_at(s, at + 16)),
            bytes::u32_at(s, at + 20),
        )
    } else {
        clause_of(
            bytes::u16_at(s, at) as u32,
            bytes::u16_at(s, at + 2) as i32,
            s[at + 4] as i32,
            bytes::u16_at(s, at + 5) as i32,
            s[at + 7] as i32,
            bytes::u32_at(s, at + 8),
        )
    }
}

/// How far a clause is read that is cut off after `left` bytes or whose kind
/// is not known: up to the last whole field before that.
pub open spec fn clause_stop(left: int, fat: bool) -> int {
    if left < 0 {
        0
    } else if fat {
        if left >= 20 {
            20
        } else {
            left / 4 * 4
        }
    } else if left >= 8 {
        8
    } else if left >= 7 {
        7
    } else if left >= 5 {
        5
    } else if left >= 4 {
        4
    } else if left >= 2 {
        2
    } else {
        0
    }
}

/// Reads a single clause in the given form starting at the reader position.
pub fn read_clause(reader: &mut ByteReader, fat: bool) -> (r: Result<ExceptionHandler, Error>)
    ensures
        final(reader).data() == old(reader).data(),
        match clause_at(old(reader).data(), old(reader).pos() as int, fat) {
            Some(h) => r is Ok && r->Ok_0 == h && final(reader).pos() == old(reader).pos()
                + clause_size(fat) && final(reader).pos() <= final(reader).data().len(),
            None => r is Err && r->Err_0.kind() == ErrorKind::BadImage && final(reader).pos()
                == old(reader).pos() + clause_stop(
                old(reader).data().len() - old(reader).pos(),
                fat,
            ),
        },
{
    proof {
        reveal(clause_at);
    }
    let (kind, try_start, try_length, handler_start, handler_length): (u32, i32, i32, i32, i32) =
        if fat {
        (reader.u32()?, reader.i32()?, reader.i32()?, reader.i32()?, reader.i32()?)
    } else {
        (
            reader.u16()? as u32,
            reader.u16()? as i32,
            reader.u8()? as i32,
            reader.u16()? as i32,
            reader.u8()? as i32,
        )
    };
    let handler_type = match ExceptionHandlerType::from_discriminant(kind) {
        Some(t) => t,
        None => {
            return Err(
                Error::bad_image(
                    Message::new("invalid exception clause kind 0x").hex(kind as u64).as_str(),
                ),
            );
        },
    };
    let extra: u32 = reader.u32()?;
    let mut handler = ExceptionHandler::new(handler_type);
    handler.try_start = try_start;
    handler.try_length = try_length;
    handler.handler_start = handler_start;
    handler.handler_length = handler_length;
    match handler_type {
        ExceptionHandlerType::Catch => {
            handler.catch_type = Token(extra);
        },
        ExceptionHandlerType::Filter => {
            handler.filter_start = Some(bytes::as_i32(extra));
        },
        ExceptionHandlerType::Finally | ExceptionHandlerType::Fault => {},
    }
    Ok(handler)
}

/// The section needs the fat form: it was asked for, there are more than
/// twenty clauses, or one has a field too large for the small form.
pub open spec fn needs_fat(handlers: Seq<ExceptionHandler>, force_fat: bool) -> bool {
    force_fat || handlers.len() >= 0x15 || exists|k: int|
        0 <= k < handlers.len() && (#[trigger] handlers[k]).oversized()
}

/// Chooses between the small and the fat section form: more than 0x14
/// handlers, any range beyond the small-field limits, or an explicitly forced
/// fat layout select the fat form.
pub fn requires_fat_section(handlers: &[ExceptionHandler], force_fat: bool) -> (b: bool)
    ensures
        b == needs_fat(handlers@, force_fat),
{
    if force_fat || handlers.len() >= 0x15 {
        return true;
    }
    let n: usize = handlers.len();
    let mut i: usize = 0;
    while i < n
        invariant
            i <= n,
            n == handlers@.len(),
            forall|k: int| 0 <= k < i ==> !(#[trigger] handlers@[k]).oversized(),
        decreases n - i,
    {
        let h = &handlers[i];
        let filter_large: bool = match h.filter_start {
            Some(f) => f > 0xFFFF,
            None => false,
        };
        if h.try_start > 0xFFFF || h.try_length > 0xFF || h.handler_start > 0xFFFF
            || h.handler_length > 0xFF || filter_large {
            assert(handlers@[i as int].oversized());
            return true;
        }
        i += 1;
    }
    false
}

/// The bytes of the clauses.
pub open spec fn clause_parts(handlers: Seq<ExceptionHandler>, fat: bool) -> Seq<Seq<u8>> {
    Seq::new(handlers.len(), |k: int| clause_bytes(handlers[k], fat))
}

/// The four bytes in front of the clauses: the flags and the size of the
/// section.
pub open spec fn section_prefix(fat: bool, n: nat) -> Seq<u8> {
    if fat {
        let size = 24 * n + 4;
        seq![
            0x41u8,
            (size % 0x100) as u8,
            (size / 0x100 % 0x100) as u8,
            (size / 0x1_0000) as u8,
        ]
    } else {
        seq![0x01u8, (12 * n + 4) as u8, 0, 0]
    }
}

/// The bytes of an exception-handling section. It fails where the section is
/// too large, or where a clause does not fit the small form.
pub open spec fn section_bytes(handlers: Seq<ExceptionHandler>, force_fat: bool) -> Result<
    Seq<u8>,
    ErrorKind,
> {
    let fat = needs_fat(handlers, force_fat);
    if (fat && 24 * handlers.len() + 4 > 0xFF_FFFF) || (!fat && exists|k: int|
        0 <= k < handlers.len() && !(#[trigger] handlers[k]).fits_small()) {
        Err(ErrorKind::InvalidOperation)
    } else {
        Ok(section_prefix(fat, handlers.len()) + bytes::joined(clause_parts(handlers, fat)))
    }
}

/// Encodes one exception-handling section (without leading alignment).
///
/// `force_fat` overrides the size heuristics; pass `false` to pick the most
/// compact legal form.
pub fn write_section(handlers: &[ExceptionHandler], force_fat: bool) -> (r: Result<Vec<u8>, Error>)
    ensures
        match section_bytes(handlers@, force_fat) {
            Ok(s) => r is Ok && r->Ok_0@ == s,
            Err(e) => r is Err && r->Err_0.kind() == e,
        },
{
    let fat: bool = requires_fat_section(handlers, force_fat);
    let n: usize = handlers.len();
    let mut w = ByteWriter::new();
    if fat {
        if n > 0x0A_AAAA {
            return Err(Error::invalid_op("exception section too large"));
        }
        let size: usize = n * FAT_CLAUSE_SIZE + 4;
        if size > 0xFF_FFFF {
            return Err(Error::invalid_op("exception section too large"));
        }
        w.u8(0x41);
        w.u8((size % 0x100) as u8);
        w.u8((size / 0x100 % 0x100) as u8);
        w.u8((size / 0x1_0000) as u8);
    } else {
        w.u8(0x01);
        w.u8((n * SMALL_CLAUSE_SIZE + 4) as u8);
        w.u16(0);
        proof {
            reveal(bytes::u16_le);
        }
    }
    let ghost parts = clause_parts(handlers@, fat);
    let ghost prefix = section_prefix(fat, n as nat);
    let mut i: usize = 0;
    proof {
        assert(w@ =~= prefix);
        assert(parts.take(0) =~= Seq::<Seq<u8>>::empty());
        assert(w@ =~= prefix + bytes::joined(parts.take(0)));
    }
    while i < n
        invariant
            i <= n,
            n == handlers@.len(),
            fat == needs_fat(handlers@, force_fat),
            parts == clause_parts(handlers@, fat),
            w@ == prefix + bytes::joined(parts.take(i as int)),
            !fat ==> forall|k: int| 0 <= k < i ==> (#[trigger] handlers@[k]).fits_small(),
        decreases n - i,
    {
        let done = write_clause(&mut w, &handlers[i], fat);
        match done {
            Ok(_) => {},
            Err(e) => {
                assert(!handlers@[i as int].fits_small());
                return Err(e);
            },
        }
        proof {
            bytes::joined_step(parts, i as int);
            assert(w@ =~= prefix + bytes::joined(parts.take(i + 1)));
        }
        i += 1;
    }
    proof {
        assert(parts.take(n as int) =~= parts);
    }
    Ok(w.into_vec())
}

/// The `n` clauses from `at` on.
pub open spec fn clauses_at(s: Seq<u8>, at: int, n: nat, fat: bool) -> Option<
    Seq<ExceptionHandler>,
>
    decreases n,
{
    if n == 0 {
        Some(Seq::empty())
    } else {
        match clause_at(s, at, fat) {
            None => None,
            Some(h) => match clauses_at(s, at + clause_size(fat), (n - 1) as nat, fat) {
                None => None,
                Some(rest) => Some(seq![h] + rest),
            },
        }
    }
}

/// Whether the flags mark a section of exception clauses.
pub open spec fn has_clauses(flags: u8) -> bool {
    flags % 2 == 1
}

/// Whether the flags mark a fat section.
pub open spec fn is_fat(flags: u8) -> bool {
    flags / 0x40 % 2 == 1
}

/// Whether the flags say that another section follows.
pub open spec fn has_more(flags: u8) -> bool {
    flags >= 0x80
}

/// The size that the section at `at` gives for itself.
pub open spec fn section_size(s: Seq<u8>, at: int) -> nat {
    if is_fat(s[at]) {
        (s[at + 1] + 0x100 * s[at + 2] + 0x1_0000 * s[at + 3]) as nat
    } else {
        s[at + 1] as nat
    }
}

/// The clauses of the sections from `at` on. The size of a section counts its
/// four bytes of prefix, which are less than a clause.
pub open spec fn sections_at(s: Seq<u8>, at: int) -> Option<Seq<ExceptionHandler>>
    decreases s.len() - at,
{
    if at < 0 || at + 4 > s.len() || !has_clauses(s[at]) {
        None
    } else {
        let fat = is_fat(s[at]);
        let n = section_size(s, at) / clause_size(fat);
        let end = at + 4 + clause_size(fat) * n;
        match clauses_at(s, at + 4, n, fat) {
            None => None,
            Some(handlers) => if !has_more(s[at]) {
                Some(handlers)
            } else {
                let next = end + bytes::padding(end, 4);
                if next > s.len() || next <= at {
                    None
                } else {
                    match sections_at(s, next) {
                        None => None,
                        Some(rest) => Some(handlers + rest),
                    }
                }
            },
        }
    }
}

/// Whether a section of those from the start on flags another one. Every later
/// section follows one that does, so the first one tells.
pub open spec fn another_flagged(s: Seq<u8>) -> bool {
    has_more(s[0])
}

/// Reads the clauses of one section.
fn read_clauses(reader: &mut ByteReader, n: usize, fat: bool, handlers: &mut Vec<ExceptionHandler>) -> (r:
    Result<(), Error>)
    requires
        old(reader).pos() <= old(reader).data().len(),
    ensures
        final(reader).data() == old(reader).data(),
        match clauses_at(old(reader).data(), old(reader).pos() as int, n as nat, fat) {
            Some(h) => r is Ok && final(handlers)@ == old(handlers)@ + h && final(reader).pos()
                == old(reader).pos() + clause_size(fat) * n && final(reader).pos() <= final(reader).data().len(),
            None => r is Err && r->Err_0.kind() == ErrorKind::BadImage,
        },
{
    let ghost s = reader.data();
    let ghost start = reader.pos() as int;
    let ghost whole = clauses_at(s, start, n as nat, fat);
    let ghost before = handlers@;
    let ghost mut read = Seq::<ExceptionHandler>::empty();
    let mut i: usize = 0;
    proof {
        assert(handlers@ =~= before + read);
        if let Some(rest) = whole {
            assert(read + rest =~= rest);
        }
    }
    while i < n
        invariant
            i <= n,
            reader.data() == s,
            s == old(reader).data(),
            start == old(reader).pos(),
            before == old(handlers)@,
            reader.pos() == start + clause_size(fat) * i,
            reader.pos() <= s.len(),
            handlers@ == before + read,
            whole == clauses_at(s, start, n as nat, fat),
            whole == (match clauses_at(s, reader.pos() as int, (n - i) as nat, fat) {
                Some(rest) => Some(read + rest),
                None => None,
            }),
        decreases n - i,
    {
        let ghost at = reader.pos() as int;
        let h = read_clause(reader, fat)?;
        handlers.push(h);
        proof {
            let now = read.push(h);
            assert(handlers@ =~= before + now);
            if let Some(rest) = clauses_at(s, at + clause_size(fat), (n - i - 1) as nat, fat) {
                assert(read + (seq![h] + rest) =~= now + rest);
            }
            read = now;
            assert(clause_size(fat) * i + clause_size(fat) == clause_size(fat) * (i + 1))
                by (nonlinear_arith);
        }
        i += 1;
    }
    proof {
        assert(read + Seq::<ExceptionHandler>::empty() =~= read);
    }
    Ok(())
}

/// Parses the exception-handling sections that follow a method body's code.
///
/// `data` starts at the (already 4-aligned) first section; chained sections
/// (`more_sects`) are followed automatically. Returns the collected handlers
/// and whether another section had been flagged.
pub fn parse_sections(data: &[u8]) -> (r: Result<(Vec<ExceptionHandler>, bool), Error>)
    ensures
        match sections_at(data@, 0) {
            Some(h) => r is Ok && r->Ok_0.0@ == h && r->Ok_0.1 == another_flagged(data@),
            None => r is Err && r->Err_0.kind() == ErrorKind::BadImage,
        },
{
    let mut handlers: Vec<ExceptionHandler> = Vec::new();
    let mut reader = ByteReader::new(data);
    let mut more: bool = false;
    let ghost whole = sections_at(data@, 0);
    proof {
        if let Some(rest) = whole {
            assert(handlers@ + rest =~= rest);
        }
    }
    loop
        invariant
            more == (reader.pos() > 0),
            more ==> another_flagged(data@),
            reader.data() == data@,
            reader.pos() <= data@.len(),
            whole == sections_at(data@, 0),
            whole == (match sections_at(data@, reader.pos() as int) {
                Some(rest) => Some(handlers@ + rest),
                None => None,
            }),
        decreases data@.len() - reader.pos(),
    {
        let ghost at = reader.pos() as int;
        let ghost before = handlers@;
        let flags: u8 = reader.u8()?;
        assert(flags == data@[at]);
        if flags % 2 == 0 {
            return Err(Error::bad_image("section without eh_table flag"));
        }
        let fat: bool = flags / 0x40 % 2 == 1;
        let b0: u8 = reader.u8()?;
        let b1: u8 = reader.u8()?;
        let b2: u8 = reader.u8()?;
        let count: usize = if fat {
            let size: usize = b0 as usize + 0x100 * b1 as usize + 0x1_0000 * b2 as usize;
            size / FAT_CLAUSE_SIZE
        } else {
            b0 as usize / SMALL_CLAUSE_SIZE
        };
        proof {
            assert(count == section_size(data@, at) / clause_size(fat));
        }
        read_clauses(&mut reader, count, fat, &mut handlers)?;
        let ghost end = reader.pos() as int;
        if flags < 0x80 {
            return Ok((handlers, more));
        }
        more = true;
        assert(more ==> another_flagged(data@));
        reader.align(4)?;
        proof {
            let here = clauses_at(data@, at + 4, count as nat, fat)->Some_0;
            assert(at + 4 <= end) by {
                assert(clause_size(fat) * count >= 0) by (nonlinear_arith);
            }
            if let Some(rest) = sections_at(data@, reader.pos() as int) {
                assert(before + (here + rest) =~= handlers@ + rest);
            }
        }
    }
}

/// A clause reads back from the bytes that it was written as.
pub proof fn clause_round_trip(s: Seq<u8>, at: int, h: ExceptionHandler, fat: bool)
    requires
        h.regular(),
        fat || h.fits_small(),
        bytes::holds_at(s, at, clause_bytes(h, fat)),
    ensures
        clause_at(s, at, fat) == Some(h),
{
    reveal(clause_at);
    reveal(clause_bytes);
    let b = clause_bytes(h, fat);
    let kind = h.handler_type.number();
    handler_type_round_trip(h.handler_type);
    bytes::signed_round_trip(0, 0, h.filter(), 0);
    if fat {
        assert(b.subrange(0, 4) =~= bytes::u32_le(kind));
        assert(b.subrange(4, 8) =~= bytes::u32_le(bytes::u32_of(h.try_start)));
        assert(b.subrange(8, 12) =~= bytes::u32_le(bytes::u32_of(h.try_length)));
        assert(b.subrange(12, 16) =~= bytes::u32_le(bytes::u32_of(h.handler_start)));
        assert(b.subrange(16, 20) =~= bytes::u32_le(bytes::u32_of(h.handler_length)));
        assert(b.subrange(20, 24) =~= bytes::u32_le(h.extra()));
        field_u32(s, at, b, 0, kind);
        field_u32(s, at, b, 4, bytes::u32_of(h.try_start));
        field_u32(s, at, b, 8, bytes::u32_of(h.try_length));
        field_u32(s, at, b, 12, bytes::u32_of(h.handler_start));
        field_u32(s, at, b, 16, bytes::u32_of(h.handler_length));
        field_u32(s, at, b, 20, h.extra());
    } else {
        assert(b.subrange(0, 2) =~= bytes::u16_le(kind as u16));
        assert(b.subrange(2, 4) =~= bytes::u16_le(h.try_start as u16));
        assert(b.subrange(5, 7) =~= bytes::u16_le(h.handler_start as u16));
        assert(b.subrange(8, 12) =~= bytes::u32_le(h.extra()));
        field_u16(s, at, b, 0, kind as u16);
        field_u16(s, at, b, 2, h.try_start as u16);
        field_u16(s, at, b, 5, h.handler_start as u16);
        field_u32(s, at, b, 8, h.extra());
        assert(s.subrange(at, at + 12)[4] == s[at + 4]);
        assert(s.subrange(at, at + 12)[7] == s[at + 7]);
    }
}

proof fn field_u32(s: Seq<u8>, at: int, b: Seq<u8>, i: int, v: u32)
    requires
        bytes::holds_at(s, at, b),
        bytes::holds_at(b, i, bytes::u32_le(v)),
    ensures
        bytes::u32_at(s, at + i) == v,
{
    bytes::holds_within(s, at, b, i, bytes::u32_le(v));
    bytes::u32_round_trip(s, at + i, v);
}

proof fn field_u16(s: Seq<u8>, at: int, b: Seq<u8>, i: int, v: u16)
    requires
        bytes::holds_at(s, at, b),
        bytes::holds_at(b, i, bytes::u16_le(v)),
    ensures
        bytes::u16_at(s, at + i) == v,
{
    bytes::holds_within(s, at, b, i, bytes::u16_le(v));
    bytes::u16_round_trip(s, at + i, v);
}

/// The clauses of a section read back, from the `k`-th one on.
proof fn clauses_round_trip(s: Seq<u8>, at: int, handlers: Seq<ExceptionHandler>, fat: bool, k: int)
    requires
        0 <= k <= handlers.len(),
        forall|i: int| 0 <= i < handlers.len() ==> (#[trigger] handlers[i]).regular(),
        fat || forall|i: int| 0 <= i < handlers.len() ==> (#[trigger] handlers[i]).fits_small(),
        bytes::holds_at(s, at, bytes::joined(clause_parts(handlers, fat))),
    ensures
        clauses_at(s, at + clause_size(fat) * k, (handlers.len() - k) as nat, fat) == Some(
            handlers.skip(k),
        ),
    decreases handlers.len() - k,
{
    broadcast use clause_bytes_len;

    let parts = clause_parts(handlers, fat);
    let width = clause_size(fat);
    if k < handlers.len() {
        clauses_round_trip(s, at, handlers, fat, k + 1);
        bytes::joined_uniform(parts, width, k);
        bytes::joined_part(parts, k);
        bytes::holds_within(s, at, bytes::joined(parts), (width * k) as int, parts[k]);
        assert(handlers[k].regular());
        clause_round_trip(s, at + width * k, handlers[k], fat);
        assert(width * k + width == width * (k + 1)) by (nonlinear_arith);
        assert(seq![handlers[k]] + handlers.skip(k + 1) =~= handlers.skip(k));
    } else {
        assert(handlers.skip(k) =~= Seq::<ExceptionHandler>::empty());
    }
}

proof fn prefix_reads(s: Seq<u8>, at: int, fat: bool, n: nat)
    requires
        bytes::holds_at(s, at, section_prefix(fat, n)),
        fat ==> 24 * n + 4 <= 0xFF_FFFF,
        !fat ==> n <= 0x14,
    ensures
        has_clauses(s[at]),
        is_fat(s[at]) == fat,
        !has_more(s[at]),
        section_size(s, at) == clause_size(fat) * n + 4,
        section_size(s, at) / clause_size(fat) == n,
{
    let p = section_prefix(fat, n);
    assert(s.subrange(at, at + 4)[0] == s[at]);
    assert(s.subrange(at, at + 4)[1] == s[at + 1]);
    assert(s.subrange(at, at + 4)[2] == s[at + 2]);
    assert(s.subrange(at, at + 4)[3] == s[at + 3]);
}

/// The clauses of an exception section read back from the bytes that the
/// section was written as, in the small form and in the fat form.
pub proof fn section_round_trip(
    handlers: Seq<ExceptionHandler>,
    force_fat: bool,
    s: Seq<u8>,
    at: int,
)
    requires
        forall|i: int| 0 <= i < handlers.len() ==> (#[trigger] handlers[i]).regular(),
        section_bytes(handlers, force_fat) is Ok,
        bytes::holds_at(s, at, section_bytes(handlers, force_fat)->Ok_0),
    ensures
        sections_at(s, at) == Some(handlers),
        section_size(s, at) == section_bytes(handlers, force_fat)->Ok_0.len(),
        !has_more(s[at]),
{
    broadcast use clause_bytes_len;

    let fat = needs_fat(handlers, force_fat);
    let n = handlers.len();
    let prefix = section_prefix(fat, n);
    let parts = clause_parts(handlers, fat);
    let b = prefix + bytes::joined(parts);
    bytes::holds_in_concat(prefix, bytes::joined(parts), Seq::empty());
    bytes::holds_within(s, at, b, 0, prefix);
    bytes::holds_within(s, at, b, 4, bytes::joined(parts));
    prefix_reads(s, at, fat, n);
    clauses_round_trip(s, at + 4, handlers, fat, 0);
    assert(clause_size(fat) * 0 == 0) by (nonlinear_arith);
    assert(handlers.skip(0) =~= handlers);
    bytes::joined_uniform(parts, clause_size(fat), n as int);
    assert(parts.take(n as int) =~= parts);
}

} // verus!
