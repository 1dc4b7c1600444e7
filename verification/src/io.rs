//! Little-endian binary cursor primitives shared by every layer.

use vstd::prelude::*;
use vstd::slice::slice_subrange;

use crate::bytes;
use crate::error::{Error, ErrorKind};
use crate::text;
use crate::text::Message;

verus! {

broadcast use crate::bytes::widths;

/// The compressed unsigned integer that starts at `s[i]`, with the number of
/// bytes that it takes: one byte for seven bits, two bytes marked `10` for
/// fourteen bits, four bytes marked `11` for thirty bits, highest byte first.
#[verifier::opaque]
pub open spec fn compressed_u32_at(s: Seq<u8>, i: int) -> Option<(u32, int)> {
    if i < 0 || i >= s.len() {
        None
    } else if s[i] < 0x80 {
        Some((s[i] as u32, 1))
    } else if s[i] < 0xC0 {
        if i + 2 <= s.len() {
            Some((((s[i] - 0x80) * 0x100 + s[i + 1]) as u32, 2))
        } else {
            None
        }
    } else if i + 4 <= s.len() {
        Some(
            (
                ((s[i] - 0xC0) * 0x100_0000 + s[i + 1] * 0x1_0000 + s[i + 2] * 0x100 + s[i + 3]) as u32,
                4,
            ),
        )
    } else {
        None
    }
}

/// What was read stands in the data.
pub broadcast proof fn compressed_u32_fits(s: Seq<u8>, i: int)
    ensures
        #[trigger] compressed_u32_at(s, i) matches Some((v, width)) ==> 0 <= i && 1 <= width <= 4 && i
            + width <= s.len() && v < 0x4000_0000 && (width == 1 ==> v < 0x80) && (width == 2 ==> v
            < 0x4000) && (width == 1 || width == 2 || width == 4),
{
    reveal(compressed_u32_at);
}

pub broadcast proof fn compressed_u32_len(v: u32)
    ensures
        1 <= #[trigger] compressed_u32_bytes(v).len() <= 4,
{
    reveal(compressed_u32_bytes);
}

pub broadcast proof fn compressed_i32_len(v: i32)
    ensures
        1 <= #[trigger] compressed_i32_bytes(v).len() <= 4,
{
    reveal(compressed_i32_bytes);
}

/// How many bytes compressed integers take.
pub broadcast group compressed_widths {
    compressed_u32_fits,
    compressed_u32_len,
    compressed_i32_len,
}

/// What an odd compressed value of `width` bytes is lowered by.
pub open spec fn compressed_bias(width: int) -> int {
    if width == 1 {
        0x40
    } else if width == 2 {
        0x2000
    } else {
        0x1000_0000
    }
}

/// The compressed signed integer that starts at `s[i]`, with its width: the
/// sign stands in the lowest bit of the compressed unsigned integer there.
pub open spec fn compressed_i32_at(s: Seq<u8>, i: int) -> Option<(i32, int)> {
    match compressed_u32_at(s, i) {
        None => None,
        Some((u, width)) => Some(
            (
                if u % 2 == 0 {
                    (u / 2) as i32
                } else {
                    (u / 2 - compressed_bias(width)) as i32
                },
                width,
            ),
        ),
    }
}

/// Fourteen bits in two bytes marked `10`.
pub open spec fn two_byte_envelope(n: u32) -> Seq<u8> {
    seq![(0x80 + n / 0x100) as u8, (n % 0x100) as u8]
}

/// Thirty bits in four bytes marked `11`.
pub open spec fn four_byte_envelope(n: u32) -> Seq<u8> {
    seq![
        (0xC0 + n / 0x100_0000 % 0x40) as u8,
        (n / 0x1_0000 % 0x100) as u8,
        (n / 0x100 % 0x100) as u8,
        (n % 0x100) as u8,
    ]
}

/// The bytes of the compressed unsigned integer `v`. Of a value that does not
/// fit thirty bits the two highest bits are lost.
#[verifier::opaque]
pub open spec fn compressed_u32_bytes(v: u32) -> Seq<u8> {
    if v < 0x80 {
        seq![v as u8]
    } else if v < 0x4000 {
        two_byte_envelope(v)
    } else {
        four_byte_envelope(v)
    }
}

/// `v` modulo `modulus`, shifted up by one bit to make room for the sign.
pub open spec fn rotated(v: i32, modulus: int) -> u32 {
    ((v as int) % modulus * 2 + if v < 0 { 1int } else { 0 }) as u32
}

/// The bytes of the compressed signed integer `v`: the narrowest of seven,
/// fourteen and twenty-nine bits that holds it, with the sign as the lowest
/// bit. Of a value outside `-2^28 .. 2^28` the high bits are lost.
#[verifier::opaque]
pub open spec fn compressed_i32_bytes(v: i32) -> Seq<u8> {
    if -0x40 <= v < 0x40 {
        seq![rotated(v, 0x40) as u8]
    } else if -0x2000 <= v < 0x2000 {
        two_byte_envelope(rotated(v, 0x2000))
    } else {
        four_byte_envelope(rotated(v, 0x1000_0000))
    }
}

/// What a cursor does next.
#[derive(Clone, Copy)]
pub(crate) enum Step {
    /// Reads of `width` bytes, `times` in a row.
    Reads { width: u64, times: u64 },
    /// A seek forward.
    Skip(u64),
}

/// How the end of the data is spoken of.
#[derive(Clone, Copy)]
pub(crate) enum Wording {
    /// As a [`ByteReader`] does.
    Plain,
    /// As the readers of native symbol files do.
    Native,
}

/// What is said of a read of `n` bytes at `pos` where fewer are left.
pub(crate) open spec fn short_text(words: Wording, n: nat, pos: nat, len: nat) -> Seq<char> {
    match words {
        Wording::Plain => short_read(n, pos, len),
        Wording::Native => "native pdb: truncated data at offset "@ + text::decimal(pos)
            + " (need "@ + text::decimal(n) + " bytes, "@ + text::decimal(
            if pos <= len {
                (len - pos) as nat
            } else {
                0
            },
        ) + " left)"@,
    }
}

/// What is said of a cursor that is sent past the end.
pub(crate) open spec fn beyond_text(words: Wording, pos: nat, len: nat) -> Seq<char> {
    match words {
        Wording::Plain => seek_beyond(pos, len),
        Wording::Native => "native pdb: seek to "@ + text::decimal(pos) + " past end of "@
            + text::decimal(len) + "-byte buffer"@,
    }
}

pub(crate) fn short_error(words: Wording, n: u64, pos: u64, len: u64) -> (e: Error)
    ensures
        e.kind() == ErrorKind::BadImage,
        e.text() == short_text(words, n as nat, pos as nat, len as nat),
{
    proof {
        reveal(short_read);
    }
    let left: u64 = if pos <= len {
        len - pos
    } else {
        0
    };
    match words {
        Wording::Plain => Error::bad_image(
            Message::new("read ").count(n).text(" bytes at ").count(pos).text(
                " with only ",
            ).count(left).text(" remaining").as_str(),
        ),
        Wording::Native => Error::bad_image(
            Message::new("native pdb: truncated data at offset ").count(pos).text(
                " (need ",
            ).count(n).text(" bytes, ").count(left).text(" left)").as_str(),
        ),
    }
}

pub(crate) fn beyond_error(words: Wording, pos: u64, len: u64) -> (e: Error)
    ensures
        e.kind() == ErrorKind::BadImage,
        e.text() == beyond_text(words, pos as nat, len as nat),
{
    proof {
        reveal(seek_beyond);
    }
    match words {
        Wording::Plain => Error::bad_image(
            Message::new("seek ").count(pos).text(" beyond ").count(len).as_str(),
        ),
        Wording::Native => Error::bad_image(
            Message::new("native pdb: seek to ").count(pos).text(" past end of ").count(
                len,
            ).text("-byte buffer").as_str(),
        ),
    }
}

/// What is said of the first of the steps that runs past the end.
pub(crate) open spec fn stop_text(
    words: Wording,
    steps: Seq<Step>,
    pos: nat,
    len: nat,
) -> Seq<char>
    decreases steps.len(),
{
    if steps.len() == 0 {
        Seq::empty()
    } else {
        match steps[0] {
            Step::Reads { width, times } => if pos + width * times <= len {
                stop_text(words, steps.skip(1), (pos + width * times) as nat, len)
            } else if pos <= len && width > 0 {
                short_text(
                    words,
                    width as nat,
                    (pos + (len - pos) / width as int * width) as nat,
                    len,
                )
            } else {
                short_text(words, width as nat, pos, len)
            },
            Step::Skip(n) => if pos + n <= len {
                stop_text(words, steps.skip(1), pos + n as nat, len)
            } else {
                beyond_text(words, pos + n as nat, len)
            },
        }
    }
}

/// The error of the first of the steps from `pos` on that runs past the end, as
/// a [`ByteReader`] words it.
pub(crate) fn stopped(len: usize, pos: u64, steps: Vec<Step>) -> (e: Error)
    requires
        forall|k: int| 0 <= k < steps@.len() ==> small_step(#[trigger] steps@[k]),
    ensures
        e.kind() == ErrorKind::BadImage,
        pos <= i64::MAX && len <= i64::MAX ==> e.text() == stop_text(
            Wording::Plain,
            steps@,
            pos as nat,
            len as nat,
        ),
{
    stopped_in(Wording::Plain, len, pos, steps)
}

/// The error of the first of the steps from `pos` on that runs past the end.
pub(crate) fn stopped_in(words: Wording, len: usize, pos: u64, steps: Vec<Step>) -> (e: Error)
    requires
        forall|k: int| 0 <= k < steps@.len() ==> small_step(#[trigger] steps@[k]),
    ensures
        e.kind() == ErrorKind::BadImage,
        pos <= i64::MAX && len <= i64::MAX ==> e.text() == stop_text(
            words,
            steps@,
            pos as nat,
            len as nat,
        ),
{
    let end: u64 = len as u64;
    if pos > 0x7FFF_FFFF_FFFF_FFFF || end > 0x7FFF_FFFF_FFFF_FFFF {
        return Error::bad_image("position out of range");
    }
    let n: usize = steps.len();
    let mut at: u64 = pos;
    let mut i: usize = 0;
    proof {
        assert(steps@.skip(0) =~= steps@);
    }
    while i < n
        invariant
            i <= n,
            n == steps@.len(),
            end == len,
            end <= 0x7FFF_FFFF_FFFF_FFFF,
            at <= 0x7FFF_FFFF_FFFF_FFFF,
            forall|k: int| 0 <= k < steps@.len() ==> small_step(#[trigger] steps@[k]),
            stop_text(words, steps@, pos as nat, len as nat) == stop_text(
                words,
                steps@.skip(i as int),
                at as nat,
                len as nat,
            ),
        decreases n - i,
    {
        proof {
            assert(small_step(steps@[i as int]));
            assert(steps@.skip(i as int).skip(1) =~= steps@.skip(i + 1));
        }
        match steps[i] {
            Step::Reads { width, times } => {
                proof {
                    assert(width * times <= 0x10_0000_0000) by (nonlinear_arith)
                        requires
                            width <= 16,
                            times <= 0xFFFF_FFFF,
                    ;
                }
                let span: u64 = width * times;
                if at + span > end {
                    if at <= end && width > 0 {
                        let whole: u64 = (end - at) / width;
                        proof {
                            vstd::arithmetic::div_mod::lemma_fundamental_div_mod(
                                (end - at) as int,
                                width as int,
                            );
                            vstd::arithmetic::mul::lemma_mul_is_commutative(
                                width as int,
                                whole as int,
                            );
                            vstd::arithmetic::div_mod::lemma_div_pos_is_pos(
                                (end - at) as int,
                                width as int,
                            );
                            vstd::arithmetic::div_mod::lemma_mod_bound(
                                (end - at) as int,
                                width as int,
                            );
                        }
                        at = at + whole * width;
                    }
                    return short_error(words, width, at, end);
                }
                at = at + span;
            },
            Step::Skip(forward) => {
                if at + forward > end {
                    return beyond_error(words, at + forward, end);
                }
                at = at + forward;
            },
        }
        i += 1;
    }
    proof {
        assert(steps@.skip(n as int) =~= Seq::<Step>::empty());
        reveal_strlit("");
        assert(""@ =~= Seq::<char>::empty());
    }
    Error::bad_image("")
}

/// A step that is no wider than a record of the formats.
pub(crate) open spec fn small_step(step: Step) -> bool {
    match step {
        Step::Reads { width, times } => width <= 16 && times <= 0xFFFF_FFFF,
        Step::Skip(n) => n <= 0x10_0000_0000,
    }
}

/// No compressed number starts at the end of the data.
pub(crate) proof fn compressed_needs_a_byte(data: Seq<u8>, pos: int)
    requires
        pos >= data.len(),
    ensures
        compressed_u32_at(data, pos) is None,
        compressed_i32_at(data, pos) is None,
{
    reveal(compressed_u32_at);
}

/// What is said of a cursor that is sent past the end.
#[verifier::opaque]
pub open spec fn seek_beyond(pos: nat, len: nat) -> Seq<char> {
    "seek "@ + text::decimal(pos) + " beyond "@ + text::decimal(len)
}

/// What is said of a read of `n` bytes at `pos` where fewer are left.
#[verifier::opaque]
pub open spec fn short_read(n: nat, pos: nat, len: nat) -> Seq<char> {
    "read "@ + text::decimal(n) + " bytes at "@ + text::decimal(pos) + " with only "@
        + text::decimal(
        if pos <= len {
            (len - pos) as nat
        } else {
            0
        },
    ) + " remaining"@
}

/// Reading cursor over a byte slice.
pub struct ByteReader<'a> {
    data: &'a [u8],
    pos: usize,
}

impl<'a> ByteReader<'a> {
    /// The bytes under the cursor.
    pub closed spec fn data(&self) -> Seq<u8> {
        self.data@
    }

    /// The offset that is read next.
    pub closed spec fn pos(&self) -> usize {
        self.pos
    }

    /// Whether `n` more bytes stand under the cursor.
    pub open spec fn has(&self, n: int) -> bool {
        self.pos() + n <= self.data().len()
    }

    pub fn new(data: &'a [u8]) -> (r: Self)
        ensures
            r.data() == data@,
            r.pos() == 0,
    {
        ByteReader { data, pos: 0 }
    }

    pub fn at(data: &'a [u8], pos: usize) -> (r: Self)
        ensures
            r.data() == data@,
            r.pos() == pos,
    {
        ByteReader { data, pos }
    }

    pub fn position(&self) -> (p: usize)
        ensures
            p == self.pos(),
    {
        self.pos
    }

    /// Moves the cursor; it may stand at the end of the data but not past it.
    pub fn seek(&mut self, pos: usize) -> (r: Result<(), Error>)
        ensures
            final(self).data() == old(self).data(),
            r is Ok <==> pos <= old(self).data().len(),
            r is Ok ==> final(self).pos() == pos,
            r is Err ==> r->Err_0.kind() == ErrorKind::BadImage && final(self).pos() == old(
                self,
            ).pos(),
            r is Err ==> r->Err_0.text() == seek_beyond(pos as nat, old(self).data().len()),
    {
        proof {
            reveal(seek_beyond);
        }
        if pos > self.data.len() {
            return Err(
                Error::bad_image(
                    Message::new("seek ").count(pos as u64).text(" beyond ").count(
                        self.data.len() as u64,
                    ).as_str(),
                ),
            );
        }
        self.pos = pos;
        Ok(())
    }

    pub fn len(&self) -> (n: usize)
        ensures
            n == self.data().len(),
    {
        self.data.len()
    }

    /// Bytes from the cursor to the end.
    pub fn remaining(&self) -> (n: usize)
        ensures
            n == if self.pos() <= self.data().len() {
                self.data().len() - self.pos()
            } else {
                0
            },
    {
        if self.pos <= self.data.len() {
            self.data.len() - self.pos
        } else {
            0
        }
    }

    pub fn is_empty(&self) -> (b: bool)
        ensures
            b == (self.pos() >= self.data().len()),
    {
        self.remaining() == 0
    }

    pub fn bytes(&self) -> (b: &'a [u8])
        ensures
            b@ == self.data(),
    {
        self.data
    }

    fn take(&mut self, n: usize) -> (r: Result<&'a [u8], Error>)
        ensures
            final(self).data() == old(self).data(),
            r is Ok <==> old(self).has(n as int),
            r is Ok ==> final(self).pos() == old(self).pos() + n && r->Ok_0@ == old(
                self,
            ).data().subrange(old(self).pos() as int, old(self).pos() + n),
            r is Err ==> r->Err_0.kind() == ErrorKind::BadImage && final(self).pos() == old(
                self,
            ).pos(),
            r is Err ==> r->Err_0.text() == short_read(
                n as nat,
                old(self).pos() as nat,
                old(self).data().len(),
            ),
    {
        proof {
            reveal(short_read);
        }
        if self.pos > self.data.len() || n > self.data.len() - self.pos {
            return Err(
                Error::bad_image(
                    Message::new("read ").count(n as u64).text(" bytes at ").count(
                        self.pos as u64,
                    ).text(" with only ").count(self.remaining() as u64).text(
                        " remaining",
                    ).as_str(),
                ),
            );
        }
        let s = slice_subrange(self.data, self.pos, self.pos + n);
        self.pos = self.pos + n;
        Ok(s)
    }

    pub fn u8(&mut self) -> (r: Result<u8, Error>)
        ensures
            final(self).data() == old(self).data(),
            r is Ok <==> old(self).has(1),
            r is Ok ==> final(self).pos() == old(self).pos() + 1 && r->Ok_0 == old(
                self,
            ).data()[old(self).pos() as int],
            r is Err ==> r->Err_0.kind() == ErrorKind::BadImage && final(self).pos() == old(
                self,
            ).pos(),
            r is Err ==> r->Err_0.text() == short_read(
                1 as nat,
                old(self).pos() as nat,
                old(self).data().len(),
            ),
    {
        let b = self.take(1)?;
        Ok(b[0])
    }

    pub fn i8(&mut self) -> (r: Result<i8, Error>)
        ensures
            final(self).data() == old(self).data(),
            r is Ok <==> old(self).has(1),
            r is Ok ==> final(self).pos() == old(self).pos() + 1 && r->Ok_0 == bytes::i8_of(
                old(self).data()[old(self).pos() as int],
            ),
            r is Err ==> r->Err_0.kind() == ErrorKind::BadImage && final(self).pos() == old(
                self,
            ).pos(),
            r is Err ==> r->Err_0.text() == short_read(
                1 as nat,
                old(self).pos() as nat,
                old(self).data().len(),
            ),
    {
        Ok(bytes::as_i8(self.u8()?))
    }

    pub fn u16(&mut self) -> (r: Result<u16, Error>)
        ensures
            final(self).data() == old(self).data(),
            r is Ok <==> old(self).has(2),
            r is Ok ==> final(self).pos() == old(self).pos() + 2 && r->Ok_0 == bytes::u16_at(
                old(self).data(),
                old(self).pos() as int,
            ),
            r is Err ==> r->Err_0.kind() == ErrorKind::BadImage && final(self).pos() == old(
                self,
            ).pos(),
            r is Err ==> r->Err_0.text() == short_read(
                2 as nat,
                old(self).pos() as nat,
                old(self).data().len(),
            ),
    {
        let b = self.take(2)?;
        proof {
            assert(b@.subrange(0, 2) =~= b@);
            bytes::same_window(b@, 0, old(self).data(), old(self).pos() as int, 2);
        }
        Ok(bytes::get_u16(b, 0))
    }

    pub fn i16(&mut self) -> (r: Result<i16, Error>)
        ensures
            final(self).data() == old(self).data(),
            r is Ok <==> old(self).has(2),
            r is Ok ==> final(self).pos() == old(self).pos() + 2 && r->Ok_0 == bytes::i16_of(
                bytes::u16_at(old(self).data(), old(self).pos() as int),
            ),
            r is Err ==> r->Err_0.kind() == ErrorKind::BadImage && final(self).pos() == old(
                self,
            ).pos(),
            r is Err ==> r->Err_0.text() == short_read(
                2 as nat,
                old(self).pos() as nat,
                old(self).data().len(),
            ),
    {
        Ok(bytes::as_i16(self.u16()?))
    }

    pub fn u32(&mut self) -> (r: Result<u32, Error>)
        ensures
            final(self).data() == old(self).data(),
            r is Ok <==> old(self).has(4),
            r is Ok ==> final(self).pos() == old(self).pos() + 4 && r->Ok_0 == bytes::u32_at(
                old(self).data(),
                old(self).pos() as int,
            ),
            r is Err ==> r->Err_0.kind() == ErrorKind::BadImage && final(self).pos() == old(
                self,
            ).pos(),
            r is Err ==> r->Err_0.text() == short_read(
                4 as nat,
                old(self).pos() as nat,
                old(self).data().len(),
            ),
    {
        let b = self.take(4)?;
        proof {
            assert(b@.subrange(0, 4) =~= b@);
            bytes::same_window(b@, 0, old(self).data(), old(self).pos() as int, 4);
        }
        Ok(bytes::get_u32(b, 0))
    }

    pub fn i32(&mut self) -> (r: Result<i32, Error>)
        ensures
            final(self).data() == old(self).data(),
            r is Ok <==> old(self).has(4),
            r is Ok ==> final(self).pos() == old(self).pos() + 4 && r->Ok_0 == bytes::i32_of(
                bytes::u32_at(old(self).data(), old(self).pos() as int),
            ),
            r is Err ==> r->Err_0.kind() == ErrorKind::BadImage && final(self).pos() == old(
                self,
            ).pos(),
            r is Err ==> r->Err_0.text() == short_read(
                4 as nat,
                old(self).pos() as nat,
                old(self).data().len(),
            ),
    {
        Ok(bytes::as_i32(self.u32()?))
    }

    pub fn u64(&mut self) -> (r: Result<u64, Error>)
        ensures
            final(self).data() == old(self).data(),
            r is Ok <==> old(self).has(8),
            r is Ok ==> final(self).pos() == old(self).pos() + 8 && r->Ok_0 == bytes::u64_at(
                old(self).data(),
                old(self).pos() as int,
            ),
            r is Err ==> r->Err_0.kind() == ErrorKind::BadImage && final(self).pos() == old(
                self,
            ).pos(),
            r is Err ==> r->Err_0.text() == short_read(
                8 as nat,
                old(self).pos() as nat,
                old(self).data().len(),
            ),
    {
        let b = self.take(8)?;
        proof {
            assert(b@.subrange(0, 8) =~= b@);
            bytes::same_window(b@, 0, old(self).data(), old(self).pos() as int, 8);
        }
        Ok(bytes::get_u64(b, 0))
    }

    pub fn i64(&mut self) -> (r: Result<i64, Error>)
        ensures
            final(self).data() == old(self).data(),
            r is Ok <==> old(self).has(8),
            r is Ok ==> final(self).pos() == old(self).pos() + 8 && r->Ok_0 == bytes::i64_of(
                bytes::u64_at(old(self).data(), old(self).pos() as int),
            ),
            r is Err ==> r->Err_0.kind() == ErrorKind::BadImage && final(self).pos() == old(
                self,
            ).pos(),
            r is Err ==> r->Err_0.text() == short_read(
                8 as nat,
                old(self).pos() as nat,
                old(self).data().len(),
            ),
    {
        Ok(bytes::as_i64(self.u64()?))
    }

    /// Reads a single-precision number as its bit pattern.
    pub fn f32_bits(&mut self) -> (r: Result<u32, Error>)
        ensures
            final(self).data() == old(self).data(),
            r is Ok <==> old(self).has(4),
            r is Ok ==> final(self).pos() == old(self).pos() + 4 && r->Ok_0 == bytes::u32_at(
                old(self).data(),
                old(self).pos() as int,
            ),
            r is Err ==> r->Err_0.kind() == ErrorKind::BadImage && final(self).pos() == old(
                self,
            ).pos(),
            r is Err ==> r->Err_0.text() == short_read(
                4 as nat,
                old(self).pos() as nat,
                old(self).data().len(),
            ),
    {
        self.u32()
    }

    /// Reads a double-precision number as its bit pattern.
    pub fn f64_bits(&mut self) -> (r: Result<u64, Error>)
        ensures
            final(self).data() == old(self).data(),
            r is Ok <==> old(self).has(8),
            r is Ok ==> final(self).pos() == old(self).pos() + 8 && r->Ok_0 == bytes::u64_at(
                old(self).data(),
                old(self).pos() as int,
            ),
            r is Err ==> r->Err_0.kind() == ErrorKind::BadImage && final(self).pos() == old(
                self,
            ).pos(),
            r is Err ==> r->Err_0.text() == short_read(
                8 as nat,
                old(self).pos() as nat,
                old(self).data().len(),
            ),
    {
        self.u64()
    }

    /// Reads exactly `n` raw bytes.
    pub fn read_bytes(&mut self, n: usize) -> (r: Result<&'a [u8], Error>)
        ensures
            final(self).data() == old(self).data(),
            r is Ok <==> old(self).has(n as int),
            r is Ok ==> final(self).pos() == old(self).pos() + n && r->Ok_0@ == old(
                self,
            ).data().subrange(old(self).pos() as int, old(self).pos() + n),
            r is Err ==> r->Err_0.kind() == ErrorKind::BadImage && final(self).pos() == old(
                self,
            ).pos(),
            r is Err ==> r->Err_0.text() == short_read(
                n as nat,
                old(self).pos() as nat,
                old(self).data().len(),
            ),
    {
        self.take(n)
    }

    /// Reads a compressed unsigned integer. When the bytes run out, the
    /// cursor is left at the end of the data.
    pub fn compressed_u32(&mut self) -> (r: Result<u32, Error>)
        ensures
            final(self).data() == old(self).data(),
            match compressed_u32_at(old(self).data(), old(self).pos() as int) {
                Some((v, width)) => r is Ok && r->Ok_0 == v && final(self).pos() == old(
                    self,
                ).pos() + width,
                None => {
                    &&& r is Err
                    &&& r->Err_0.kind() == ErrorKind::BadImage
                    &&& r->Err_0.text() == short_read(
                        1,
                        final(self).pos() as nat,
                        old(self).data().len(),
                    )
                    &&& final(self).pos() == if old(self).pos() < old(self).data().len() {
                        old(self).data().len()
                    } else {
                        old(self).pos() as nat
                    }
                },
            },
    {
        proof {
            reveal(compressed_u32_at);
        }
        let first: u8 = self.u8()?;
        if first < 0x80 {
            return Ok(first as u32);
        }
        if first < 0xC0 {
            let low: u8 = self.u8()?;
            return Ok((first as u32 - 0x80) * 0x100 + low as u32);
        }
        let b1: u8 = self.u8()?;
        let b2: u8 = self.u8()?;
        let b3: u8 = self.u8()?;
        Ok((first as u32 - 0xC0) * 0x100_0000 + b1 as u32 * 0x1_0000 + b2 as u32 * 0x100 + b3 as u32)
    }

    /// Reads a compressed signed integer. When the bytes run out, the cursor
    /// is left at the end of the data.
    pub fn compressed_i32(&mut self) -> (r: Result<i32, Error>)
        ensures
            final(self).data() == old(self).data(),
            match compressed_i32_at(old(self).data(), old(self).pos() as int) {
                Some((v, width)) => r is Ok && r->Ok_0 == v && final(self).pos() == old(
                    self,
                ).pos() + width,
                None => {
                    &&& r is Err
                    &&& r->Err_0.kind() == ErrorKind::BadImage
                    &&& r->Err_0.text() == if old(self).pos() < old(self).data().len() {
                        short_read(1, old(self).data().len(), old(self).data().len())
                    } else {
                        "compressed integer at end of stream"@
                    }
                    &&& final(self).pos() == if old(self).pos() < old(self).data().len() {
                        old(self).data().len()
                    } else {
                        old(self).pos() as nat
                    }
                },
            },
    {
        proof {
            reveal(compressed_u32_at);
        }
        if self.is_empty() {
            return Err(Error::bad_image("compressed integer at end of stream"));
        }
        let first: u8 = self.data[self.pos];
        let u: u32 = self.compressed_u32()?;
        let v: i32 = (u / 2) as i32;
        if u % 2 == 0 {
            return Ok(v);
        }
        if first < 0x80 {
            Ok(v - 0x40)
        } else if first < 0xC0 {
            Ok(v - 0x2000)
        } else {
            Ok(v - 0x1000_0000)
        }
    }

    /// Moves the cursor forward to the next multiple of `alignment`.
    pub fn align(&mut self, alignment: usize) -> (r: Result<(), Error>)
        requires
            alignment > 0,
        ensures
            final(self).data() == old(self).data(),
            ({
                let target = old(self).pos() + bytes::padding(old(self).pos() as int, alignment as int);
                if bytes::padding(old(self).pos() as int, alignment as int) == 0 || target <= old(
                    self,
                ).data().len() {
                    r is Ok && final(self).pos() == target
                } else {
                    &&& r is Err
                    &&& r->Err_0.kind() == ErrorKind::BadImage
                    &&& target <= usize::MAX ==> r->Err_0.text() == seek_beyond(
                        target as nat,
                        old(self).data().len(),
                    )
                    &&& final(self).pos() == old(self).pos()
                }
            }),
    {
        proof {
            reveal(seek_beyond);
        }
        let rem: usize = self.pos % alignment;
        if rem != 0 {
            if self.pos > self.data.len() || alignment - rem > self.data.len() - self.pos {
                return Err(
                    Error::bad_image(
                        Message::new("seek ").count(
                            self.pos.wrapping_add(alignment - rem) as u64,
                        ).text(" beyond ").count(self.data.len() as u64).as_str(),
                    ),
                );
            }
            self.seek(self.pos + (alignment - rem))?;
        }
        Ok(())
    }
}

/// Writing cursor over a growable buffer.
pub struct ByteWriter {
    buf: Vec<u8>,
}

impl View for ByteWriter {
    type V = Seq<u8>;

    closed spec fn view(&self) -> Seq<u8> {
        self.buf@
    }
}

impl Default for ByteWriter {
    fn default() -> (w: ByteWriter)
        ensures
            w@ == Seq::<u8>::empty(),
    {
        ByteWriter { buf: Vec::new() }
    }
}

impl ByteWriter {
    pub fn new() -> (w: Self)
        ensures
            w@ == Seq::<u8>::empty(),
    {
        ByteWriter { buf: Vec::new() }
    }

    pub fn into_vec(self) -> (v: Vec<u8>)
        ensures
            v@ == self@,
    {
        self.buf
    }

    pub fn len(&self) -> (n: usize)
        ensures
            n == self@.len(),
    {
        self.buf.len()
    }

    pub fn is_empty(&self) -> (b: bool)
        ensures
            b == (self@.len() == 0),
    {
        self.buf.is_empty()
    }

    pub fn as_slice(&self) -> (s: &[u8])
        ensures
            s@ == self@,
    {
        self.buf.as_slice()
    }

    pub fn position(&self) -> (n: usize)
        ensures
            n == self@.len(),
    {
        self.buf.len()
    }

    pub fn u8(&mut self, v: u8)
        ensures
            final(self)@ == old(self)@.push(v),
    {
        self.buf.push(v);
    }

    pub fn i8(&mut self, v: i8)
        ensures
            final(self)@ == old(self)@.push(bytes::u8_of(v)),
    {
        self.u8(bytes::as_u8(v));
    }

    pub fn u16(&mut self, v: u16)
        ensures
            final(self)@ == old(self)@ + bytes::u16_le(v),
    {
        bytes::push_u16(&mut self.buf, v);
    }

    pub fn i16(&mut self, v: i16)
        ensures
            final(self)@ == old(self)@ + bytes::u16_le(bytes::u16_of(v)),
    {
        self.u16(bytes::as_u16(v));
    }

    pub fn u32(&mut self, v: u32)
        ensures
            final(self)@ == old(self)@ + bytes::u32_le(v),
    {
        bytes::push_u32(&mut self.buf, v);
    }

    pub fn i32(&mut self, v: i32)
        ensures
            final(self)@ == old(self)@ + bytes::u32_le(bytes::u32_of(v)),
    {
        self.u32(bytes::as_u32(v));
    }

    pub fn u64(&mut self, v: u64)
        ensures
            final(self)@ == old(self)@ + bytes::u64_le(v),
    {
        proof {
            reveal(bytes::u64_le);
        }
        self.u32((v % 0x1_0000_0000) as u32);
        self.u32((v / 0x1_0000_0000) as u32);
    }

    pub fn i64(&mut self, v: i64)
        ensures
            final(self)@ == old(self)@ + bytes::u64_le(bytes::u64_of(v)),
    {
        self.u64(bytes::as_u64(v));
    }

    /// Writes a single-precision number given as its bit pattern.
    pub fn f32_bits(&mut self, v: u32)
        ensures
            final(self)@ == old(self)@ + bytes::u32_le(v),
    {
        self.u32(v);
    }

    /// Writes a double-precision number given as its bit pattern.
    pub fn f64_bits(&mut self, v: u64)
        ensures
            final(self)@ == old(self)@ + bytes::u64_le(v),
    {
        self.u64(v);
    }

    pub fn bytes(&mut self, v: &[u8])
        ensures
            final(self)@ == old(self)@ + v@,
    {
        bytes::append(&mut self.buf, v);
    }

    /// Appends `n` zero bytes.
    pub fn zeros(&mut self, n: usize)
        ensures
            final(self)@ == old(self)@ + bytes::zero_bytes(n as nat),
    {
        let mut i: usize = 0;
        while i < n
            invariant
                i <= n,
                self@ == old(self)@ + bytes::zero_bytes(i as nat),
            decreases n - i,
        {
            self.u8(0);
            i += 1;
        }
    }

    /// Overwrites 4 bytes at `pos` (used for back-patching).
    pub fn patch_u32_at(&mut self, pos: usize, v: u32)
        requires
            pos + 4 <= old(self)@.len(),
        ensures
            final(self)@ == bytes::overwrite(old(self)@, pos as int, bytes::u32_le(v)),
    {
        let mut part: Vec<u8> = Vec::new();
        bytes::push_u32(&mut part, v);
        proof {
            assert(part@ =~= bytes::u32_le(v));
        }
        bytes::put(&mut self.buf, pos, part.as_slice());
    }

    fn two_bytes(&mut self, n: u32)
        requires
            n < 0x4000,
        ensures
            final(self)@ == old(self)@ + two_byte_envelope(n),
    {
        self.u8((0x80 + n / 0x100) as u8);
        self.u8((n % 0x100) as u8);
    }

    fn four_bytes(&mut self, n: u32)
        ensures
            final(self)@ == old(self)@ + four_byte_envelope(n),
    {
        self.u8((0xC0 + n / 0x100_0000 % 0x40) as u8);
        self.u8((n / 0x1_0000 % 0x100) as u8);
        self.u8((n / 0x100 % 0x100) as u8);
        self.u8((n % 0x100) as u8);
    }

    /// Writes a compressed unsigned integer; of values from `0x4000_0000` on
    /// the top two bits are lost.
    pub fn compressed_u32(&mut self, v: u32)
        ensures
            final(self)@ == old(self)@ + compressed_u32_bytes(v),
    {
        proof {
            reveal(compressed_u32_bytes);
        }
        if v < 0x80 {
            self.u8(v as u8);
        } else if v < 0x4000 {
            self.two_bytes(v);
        } else {
            self.four_bytes(v);
        }
    }

    /// Writes a compressed signed integer (valid range `-2^28 .. 2^28 - 1`;
    /// the low bits of other values go into the largest envelope).
    pub fn compressed_i32(&mut self, value: i32)
        ensures
            final(self)@ == old(self)@ + compressed_i32_bytes(value),
    {
        proof {
            reveal(compressed_i32_bytes);
        }
        let sign: i64 = if value < 0 { 1 } else { 0 };
        if -0x40 <= value && value < 0x40 {
            let low: i64 = if value < 0 { value as i64 + 0x40 } else { value as i64 };
            self.u8((low * 2 + sign) as u8);
        } else if -0x2000 <= value && value < 0x2000 {
            let low: i64 = if value < 0 { value as i64 + 0x2000 } else { value as i64 };
            self.two_bytes((low * 2 + sign) as u32);
        } else {
            let low: i64 = (value as i64 + 0x8000_0000) % 0x1000_0000;
            proof {
                vstd::arithmetic::div_mod::lemma_mod_multiples_vanish(8, value as int, 0x1000_0000);
            }
            self.four_bytes((low * 2 + sign) as u32);
        }
    }

    /// Appends zero bytes up to the next multiple of `alignment`.
    pub fn align(&mut self, alignment: usize)
        requires
            alignment > 0,
        ensures
            final(self)@ == old(self)@ + bytes::zero_bytes(
                bytes::padding(old(self)@.len() as int, alignment as int),
            ),
    {
        let rem: usize = self.buf.len() % alignment;
        if rem != 0 {
            self.zeros(alignment - rem);
        }
    }
}

proof fn envelopes_read_back(s: Seq<u8>, i: int, n: u32)
    ensures
        n < 0x80 && bytes::holds_at(s, i, seq![n as u8]) ==> compressed_u32_at(s, i) == Some(
            (n, 1int),
        ),
        n < 0x4000 && bytes::holds_at(s, i, two_byte_envelope(n)) ==> compressed_u32_at(s, i)
            == Some((n, 2int)),
        n < 0x4000_0000 && bytes::holds_at(s, i, four_byte_envelope(n)) ==> compressed_u32_at(s, i)
            == Some((n, 4int)),
{
    reveal(compressed_u32_at);
    if n < 0x80 && bytes::holds_at(s, i, seq![n as u8]) {
        assert(s.subrange(i, i + 1)[0] == s[i]);
    }
    if n < 0x4000 && bytes::holds_at(s, i, two_byte_envelope(n)) {
        assert(s.subrange(i, i + 2)[0] == s[i]);
        assert(s.subrange(i, i + 2)[1] == s[i + 1]);
    }
    if n < 0x4000_0000 && bytes::holds_at(s, i, four_byte_envelope(n)) {
        assert(s.subrange(i, i + 4)[0] == s[i]);
        assert(s.subrange(i, i + 4)[1] == s[i + 1]);
        assert(s.subrange(i, i + 4)[2] == s[i + 2]);
        assert(s.subrange(i, i + 4)[3] == s[i + 3]);
    }
}

/// A compressed unsigned integer of at most thirty bits reads back as itself,
/// over the bytes that it was written as.
pub proof fn compressed_u32_round_trip(s: Seq<u8>, i: int, v: u32)
    requires
        v < 0x4000_0000,
        bytes::holds_at(s, i, compressed_u32_bytes(v)),
    ensures
        compressed_u32_at(s, i) == Some((v, compressed_u32_bytes(v).len() as int)),
{
    reveal(compressed_u32_bytes);
    envelopes_read_back(s, i, v);
}

/// A compressed unsigned integer is read over the bytes that it was written as,
/// whatever its value.
pub proof fn compressed_u32_extent(s: Seq<u8>, i: int, v: u32)
    requires
        bytes::holds_at(s, i, compressed_u32_bytes(v)),
    ensures
        compressed_u32_at(s, i) matches Some((_, w)) && w == compressed_u32_bytes(v).len(),
{
    reveal(compressed_u32_bytes);
    reveal(compressed_u32_at);
    let part = compressed_u32_bytes(v);
    assert(s[i] == s.subrange(i, i + part.len())[0]);
}

/// A compressed signed integer of the valid range reads back as itself, over
/// the bytes that it was written as.
pub proof fn compressed_i32_round_trip(s: Seq<u8>, i: int, v: i32)
    requires
        -0x1000_0000 <= v < 0x1000_0000,
        bytes::holds_at(s, i, compressed_i32_bytes(v)),
    ensures
        compressed_i32_at(s, i) == Some((v, compressed_i32_bytes(v).len() as int)),
{
    reveal(compressed_i32_bytes);
    if -0x40 <= v < 0x40 {
        envelopes_read_back(s, i, rotated(v, 0x40));
    } else if -0x2000 <= v < 0x2000 {
        envelopes_read_back(s, i, rotated(v, 0x2000));
    } else {
        envelopes_read_back(s, i, rotated(v, 0x1000_0000));
    }
}

} // verus!
