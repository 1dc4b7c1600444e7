//! Growable byte buffer with a reading/writing cursor.
//!
//! Unlike [`crate::io::ByteWriter`], which is append-only, this buffer keeps a
//! movable position so callers can patch previously written bytes.

use vstd::prelude::*;
use vstd::slice::slice_subrange;

use crate::bytes;
use crate::error::{Error, ErrorKind};
use crate::io;
use crate::io::{ByteReader, ByteWriter};
use crate::text;
use crate::text::Message;

verus! {

broadcast use crate::bytes::widths;

/// `s` with `part` written over it from `at` on, and grown where it is too
/// short.
pub open spec fn written(s: Seq<u8>, at: int, part: Seq<u8>) -> Seq<u8> {
    s.take(at) + part + if at + part.len() < s.len() {
        s.skip(at + part.len())
    } else {
        Seq::empty()
    }
}

/// `s`, grown by zero bytes to at least `n` bytes.
pub open spec fn grown(s: Seq<u8>, n: int) -> Seq<u8> {
    if s.len() < n {
        s + bytes::zero_bytes((n - s.len()) as nat)
    } else {
        s
    }
}

/// What is said of a read of `n` bytes at `pos` of a buffer of `len` bytes that
/// has fewer left.
#[verifier::opaque]
pub open spec fn short_buffer(n: nat, pos: nat, len: nat) -> Seq<char> {
    "read "@ + text::decimal(n) + " bytes at "@ + text::decimal(pos) + " with only "@
        + text::decimal(len) + " valid"@
}

/// Cursor-based growable byte buffer.
#[derive(Debug, Clone)]
pub struct ByteBuffer {
    data: Vec<u8>,
    position: usize,
}

impl Default for ByteBuffer {
    fn default() -> (b: ByteBuffer)
        ensures
            b.wf(),
            b.data() == Seq::<u8>::empty(),
            b.pos() == 0,
    {
        ByteBuffer { data: Vec::new(), position: 0 }
    }
}

impl ByteBuffer {
    /// The valid bytes.
    pub closed spec fn data(&self) -> Seq<u8> {
        self.data@
    }

    /// The offset that is read or written next.
    pub closed spec fn pos(&self) -> usize {
        self.position
    }

    /// The cursor stands in the buffer or at its end.
    pub open spec fn wf(&self) -> bool {
        self.pos() <= self.data().len()
    }

    /// Whether `n` more bytes stand under the cursor.
    pub open spec fn has(&self, n: int) -> bool {
        self.pos() + n <= self.data().len()
    }

    /// An empty buffer.
    pub fn new() -> (b: Self)
        ensures
            b.wf(),
            b.data() == Seq::<u8>::empty(),
            b.pos() == 0,
    {
        ByteBuffer { data: Vec::new(), position: 0 }
    }

    /// A zero-filled buffer of `length` bytes.
    pub fn zeroed(length: usize) -> (b: Self)
        ensures
            b.wf(),
            b.data() == bytes::zero_bytes(length as nat),
            b.pos() == 0,
    {
        let mut w = ByteWriter::new();
        w.zeros(length);
        let data = w.into_vec();
        proof {
            assert(data@ =~= bytes::zero_bytes(length as nat));
        }
        ByteBuffer { data, position: 0 }
    }

    /// Wraps an existing buffer; the initial length is the full slice length.
    pub fn from_vec(data: Vec<u8>) -> (b: Self)
        ensures
            b.wf(),
            b.data() == data@,
            b.pos() == 0,
    {
        ByteBuffer { data, position: 0 }
    }

    /// Wraps a borrowed slice into an owned buffer.
    pub fn from_slice(data: &[u8]) -> (b: Self)
        ensures
            b.wf(),
            b.data() == data@,
            b.pos() == 0,
    {
        let mut copy: Vec<u8> = Vec::new();
        bytes::append(&mut copy, data);
        proof {
            assert(copy@ =~= data@);
        }
        ByteBuffer { data: copy, position: 0 }
    }

    pub fn position(&self) -> (p: usize)
        ensures
            p == self.pos(),
    {
        self.position
    }

    /// Moves the cursor; it may stand at the end of the buffer but not past
    /// it.
    pub fn set_position(&mut self, position: usize) -> (r: Result<(), Error>)
        requires
            old(self).wf(),
        ensures
            final(self).wf(),
            final(self).data() == old(self).data(),
            r is Ok <==> position <= old(self).data().len(),
            r is Ok ==> final(self).pos() == position,
            r is Err ==> r->Err_0.kind() == ErrorKind::BadImage && final(self).pos() == old(
                self,
            ).pos(),
            r is Err ==> r->Err_0.text() == "seek "@ + text::decimal(position as nat)
                + " beyond buffer length "@ + text::decimal(old(self).data().len()),
    {
        if position > self.data.len() {
            return Err(
                Error::bad_image(
                    Message::new("seek ").count(position as u64).text(
                        " beyond buffer length ",
                    ).count(self.data.len() as u64).as_str(),
                ),
            );
        }
        self.position = position;
        Ok(())
    }

    /// Number of valid (written or wrapped) bytes.
    pub fn length(&self) -> (n: usize)
        ensures
            n == self.data().len(),
    {
        self.data.len()
    }

    /// The valid portion of the buffer.
    pub fn as_slice(&self) -> (s: &[u8])
        ensures
            s@ == self.data(),
    {
        self.data.as_slice()
    }

    /// Consumes the buffer, returning all bytes ever written.
    pub fn into_vec(self) -> (v: Vec<u8>)
        ensures
            v@ == self.data(),
    {
        self.data
    }

    fn advance_error(&self, count: isize) -> (e: Error)
        ensures
            e.kind() == ErrorKind::BadImage,
            e.text() == "advance "@ + text::signed_decimal(count as int) + " from "@
                + text::decimal(self.pos() as nat) + " out of bounds (length "@ + text::decimal(
                self.data().len(),
            ) + ")"@,
    {
        Error::bad_image(
            Message::new("advance ").number(count as i64).text(" from ").count(
                self.position as u64,
            ).text(" out of bounds (length ").count(self.data.len() as u64).text(")").as_str(),
        )
    }

    /// Whether `n` bytes stand behind the cursor.
    fn need(&self, n: usize) -> (r: Result<(), Error>)
        requires
            self.wf(),
        ensures
            r is Ok <==> self.has(n as int),
            r is Err ==> r->Err_0.kind() == ErrorKind::BadImage && r->Err_0.text() == short_buffer(
                n as nat,
                self.pos() as nat,
                self.data().len(),
            ),
    {
        proof {
            reveal(short_buffer);
        }
        if n > self.data.len() - self.position {
            return Err(
                Error::bad_image(
                    Message::new("read ").count(n as u64).text(" bytes at ").count(
                        self.position as u64,
                    ).text(" with only ").count(self.data.len() as u64).text(" valid").as_str(),
                ),
            );
        }
        Ok(())
    }

    /// Moves the cursor by `count` bytes, forward or back.
    pub fn advance(&mut self, count: isize) -> (r: Result<(), Error>)
        requires
            old(self).wf(),
        ensures
            final(self).wf(),
            final(self).data() == old(self).data(),
            r is Ok <==> 0 <= old(self).pos() + count <= old(self).data().len(),
            r is Ok ==> final(self).pos() == old(self).pos() + count,
            r is Err ==> r->Err_0.kind() == ErrorKind::BadImage && final(self).pos() == old(
                self,
            ).pos(),
            r is Err ==> r->Err_0.text() == "advance "@ + text::signed_decimal(count as int)
                + " from "@ + text::decimal(old(self).pos() as nat) + " out of bounds (length "@
                + text::decimal(old(self).data().len()) + ")"@,
    {
        if count >= 0 {
            let step: usize = count as usize;
            if step > self.data.len() - self.position {
                return Err(self.advance_error(count));
            }
            self.position = self.position + step;
        } else {
            let step: usize = (-(count + 1)) as usize;
            if step >= self.position {
                return Err(self.advance_error(count));
            }
            self.position = self.position - step - 1;
        }
        Ok(())
    }

    /// Moves the cursor forward to the next multiple of `alignment`.
    pub fn align(&mut self, alignment: usize) -> (r: Result<(), Error>)
        requires
            old(self).wf(),
            alignment > 0,
        ensures
            final(self).wf(),
            final(self).data() == old(self).data(),
            ({
                let target = old(self).pos() + bytes::padding(
                    old(self).pos() as int,
                    alignment as int,
                );
                if target <= old(self).data().len() {
                    r is Ok && final(self).pos() == target
                } else {
                    &&& r is Err
                    &&& r->Err_0.kind() == ErrorKind::BadImage
                    &&& target <= usize::MAX ==> r->Err_0.text() == "seek "@ + text::decimal(
                        target as nat,
                    ) + " beyond buffer length "@ + text::decimal(old(self).data().len())
                    &&& final(self).pos() == old(self).pos()
                }
            }),
    {
        let rem: usize = self.position % alignment;
        if rem != 0 {
            if alignment - rem > self.data.len() - self.position {
                return Err(
                    Error::bad_image(
                        Message::new("seek ").count(
                            self.position.wrapping_add(alignment - rem) as u64,
                        ).text(" beyond buffer length ").count(self.data.len() as u64).as_str(),
                    ),
                );
            }
            self.set_position(self.position + (alignment - rem))?;
        }
        Ok(())
    }

    pub fn read_byte(&mut self) -> (r: Result<u8, Error>)
        requires
            old(self).wf(),
        ensures
            final(self).wf(),
            final(self).data() == old(self).data(),
            r is Ok <==> old(self).has(1),
            r is Ok ==> final(self).pos() == old(self).pos() + 1 && r->Ok_0 == old(
                self,
            ).data()[old(self).pos() as int],
            r is Err ==> r->Err_0.kind() == ErrorKind::BadImage && final(self).pos() == old(
                self,
            ).pos(),
            r is Err ==> r->Err_0.text() == short_buffer(
                1 as nat,
                old(self).pos() as nat,
                old(self).data().len(),
            ),
    {
        self.need(1)?;
        let mut r = ByteReader::at(self.data.as_slice(), self.position);
        let v: u8 = r.u8()?;
        self.position = r.position();
        Ok(v)
    }

    pub fn read_bytes(&mut self, n: usize) -> (r: Result<&[u8], Error>)
        requires
            old(self).wf(),
        ensures
            final(self).wf(),
            final(self).data() == old(self).data(),
            r is Ok <==> old(self).has(n as int),
            r is Ok ==> final(self).pos() == old(self).pos() + n && r->Ok_0@ == old(
                self,
            ).data().subrange(old(self).pos() as int, old(self).pos() + n),
            r is Err ==> r->Err_0.kind() == ErrorKind::BadImage && final(self).pos() == old(
                self,
            ).pos(),
            r is Err ==> r->Err_0.text() == short_buffer(
                n as nat,
                old(self).pos() as nat,
                old(self).data().len(),
            ),
    {
        self.need(n)?;
        let start: usize = self.position;
        proof {
            assert(self.data.len() >= start + n);
        }
        self.position = start + n;
        Ok(slice_subrange(self.data.as_slice(), start, start + n))
    }

    pub fn u16(&mut self) -> (r: Result<u16, Error>)
        requires
            old(self).wf(),
        ensures
            final(self).wf(),
            final(self).data() == old(self).data(),
            r is Ok <==> old(self).has(2),
            r is Ok ==> final(self).pos() == old(self).pos() + 2 && r->Ok_0 == bytes::u16_at(old(self).data(), old(self).pos() as int),
            r is Err ==> r->Err_0.kind() == ErrorKind::BadImage && final(self).pos() == old(
                self,
            ).pos(),
            r is Err ==> r->Err_0.text() == short_buffer(
                2 as nat,
                old(self).pos() as nat,
                old(self).data().len(),
            ),
    {
        self.need(2)?;
        let mut r = ByteReader::at(self.data.as_slice(), self.position);
        let v: u16 = r.u16()?;
        self.position = r.position();
        Ok(v)
    }

    pub fn i16(&mut self) -> (r: Result<i16, Error>)
        requires
            old(self).wf(),
        ensures
            final(self).wf(),
            final(self).data() == old(self).data(),
            r is Ok <==> old(self).has(2),
            r is Ok ==> final(self).pos() == old(self).pos() + 2 && r->Ok_0 == bytes::i16_of(bytes::u16_at(old(self).data(), old(self).pos() as int)),
            r is Err ==> r->Err_0.kind() == ErrorKind::BadImage && final(self).pos() == old(
                self,
            ).pos(),
            r is Err ==> r->Err_0.text() == short_buffer(
                2 as nat,
                old(self).pos() as nat,
                old(self).data().len(),
            ),
    {
        self.need(2)?;
        let mut r = ByteReader::at(self.data.as_slice(), self.position);
        let v: i16 = r.i16()?;
        self.position = r.position();
        Ok(v)
    }

    pub fn u32(&mut self) -> (r: Result<u32, Error>)
        requires
            old(self).wf(),
        ensures
            final(self).wf(),
            final(self).data() == old(self).data(),
            r is Ok <==> old(self).has(4),
            r is Ok ==> final(self).pos() == old(self).pos() + 4 && r->Ok_0 == bytes::u32_at(old(self).data(), old(self).pos() as int),
            r is Err ==> r->Err_0.kind() == ErrorKind::BadImage && final(self).pos() == old(
                self,
            ).pos(),
            r is Err ==> r->Err_0.text() == short_buffer(
                4 as nat,
                old(self).pos() as nat,
                old(self).data().len(),
            ),
    {
        self.need(4)?;
        let mut r = ByteReader::at(self.data.as_slice(), self.position);
        let v: u32 = r.u32()?;
        self.position = r.position();
        Ok(v)
    }

    pub fn i32(&mut self) -> (r: Result<i32, Error>)
        requires
            old(self).wf(),
        ensures
            final(self).wf(),
            final(self).data() == old(self).data(),
            r is Ok <==> old(self).has(4),
            r is Ok ==> final(self).pos() == old(self).pos() + 4 && r->Ok_0 == bytes::i32_of(bytes::u32_at(old(self).data(), old(self).pos() as int)),
            r is Err ==> r->Err_0.kind() == ErrorKind::BadImage && final(self).pos() == old(
                self,
            ).pos(),
            r is Err ==> r->Err_0.text() == short_buffer(
                4 as nat,
                old(self).pos() as nat,
                old(self).data().len(),
            ),
    {
        self.need(4)?;
        let mut r = ByteReader::at(self.data.as_slice(), self.position);
        let v: i32 = r.i32()?;
        self.position = r.position();
        Ok(v)
    }

    pub fn u64(&mut self) -> (r: Result<u64, Error>)
        requires
            old(self).wf(),
        ensures
            final(self).wf(),
            final(self).data() == old(self).data(),
            r is Ok <==> old(self).has(8),
            r is Ok ==> final(self).pos() == old(self).pos() + 8 && r->Ok_0 == bytes::u64_at(old(self).data(), old(self).pos() as int),
            r is Err ==> r->Err_0.kind() == ErrorKind::BadImage && final(self).pos() == old(
                self,
            ).pos(),
            r is Err ==> r->Err_0.text() == short_buffer(
                8 as nat,
                old(self).pos() as nat,
                old(self).data().len(),
            ),
    {
        self.need(8)?;
        let mut r = ByteReader::at(self.data.as_slice(), self.position);
        let v: u64 = r.u64()?;
        self.position = r.position();
        Ok(v)
    }

    pub fn i64(&mut self) -> (r: Result<i64, Error>)
        requires
            old(self).wf(),
        ensures
            final(self).wf(),
            final(self).data() == old(self).data(),
            r is Ok <==> old(self).has(8),
            r is Ok ==> final(self).pos() == old(self).pos() + 8 && r->Ok_0 == bytes::i64_of(bytes::u64_at(old(self).data(), old(self).pos() as int)),
            r is Err ==> r->Err_0.kind() == ErrorKind::BadImage && final(self).pos() == old(
                self,
            ).pos(),
            r is Err ==> r->Err_0.text() == short_buffer(
                8 as nat,
                old(self).pos() as nat,
                old(self).data().len(),
            ),
    {
        self.need(8)?;
        let mut r = ByteReader::at(self.data.as_slice(), self.position);
        let v: i64 = r.i64()?;
        self.position = r.position();
        Ok(v)
    }

    /// Reads a single-precision number as its bit pattern.
    pub fn f32_bits(&mut self) -> (r: Result<u32, Error>)
        requires
            old(self).wf(),
        ensures
            final(self).wf(),
            final(self).data() == old(self).data(),
            r is Ok <==> old(self).has(4),
            r is Ok ==> final(self).pos() == old(self).pos() + 4 && r->Ok_0 == bytes::u32_at(old(self).data(), old(self).pos() as int),
            r is Err ==> r->Err_0.kind() == ErrorKind::BadImage && final(self).pos() == old(
                self,
            ).pos(),
            r is Err ==> r->Err_0.text() == short_buffer(
                4 as nat,
                old(self).pos() as nat,
                old(self).data().len(),
            ),
    {
        self.need(4)?;
        let mut r = ByteReader::at(self.data.as_slice(), self.position);
        let v: u32 = r.f32_bits()?;
        self.position = r.position();
        Ok(v)
    }

    /// Reads a double-precision number as its bit pattern.
    pub fn f64_bits(&mut self) -> (r: Result<u64, Error>)
        requires
            old(self).wf(),
        ensures
            final(self).wf(),
            final(self).data() == old(self).data(),
            r is Ok <==> old(self).has(8),
            r is Ok ==> final(self).pos() == old(self).pos() + 8 && r->Ok_0 == bytes::u64_at(old(self).data(), old(self).pos() as int),
            r is Err ==> r->Err_0.kind() == ErrorKind::BadImage && final(self).pos() == old(
                self,
            ).pos(),
            r is Err ==> r->Err_0.text() == short_buffer(
                8 as nat,
                old(self).pos() as nat,
                old(self).data().len(),
            ),
    {
        self.need(8)?;
        let mut r = ByteReader::at(self.data.as_slice(), self.position);
        let v: u64 = r.f64_bits()?;
        self.position = r.position();
        Ok(v)
    }

    /// Reads a compressed unsigned integer. When the bytes run out, the cursor is
    /// left at the end of the buffer.
    pub fn compressed_u32(&mut self) -> (r: Result<u32, Error>)
        requires
            old(self).wf(),
        ensures
            final(self).wf(),
            final(self).data() == old(self).data(),
            match io::compressed_u32_at(old(self).data(), old(self).pos() as int) {
                Some((v, width)) => r is Ok && r->Ok_0 == v && final(self).pos() == old(
                    self,
                ).pos() + width,
                None => {
                    &&& r is Err
                    &&& r->Err_0.kind() == ErrorKind::BadImage
                    &&& r->Err_0.text() == short_buffer(
                        1,
                        old(self).data().len(),
                        old(self).data().len(),
                    )
                    &&& final(self).pos() == old(self).data().len()
                },
            },
    {
        broadcast use crate::io::compressed_widths;

        let mut r = ByteReader::at(self.data.as_slice(), self.position);
        let v: Result<u32, Error> = r.compressed_u32();
        self.position = r.position();
        if v.is_err() {
            self.need(1)?;
        }
        v
    }

    /// Reads a compressed signed integer. When the bytes run out, the cursor is
    /// left at the end of the buffer.
    pub fn compressed_i32(&mut self) -> (r: Result<i32, Error>)
        requires
            old(self).wf(),
        ensures
            final(self).wf(),
            final(self).data() == old(self).data(),
            match io::compressed_i32_at(old(self).data(), old(self).pos() as int) {
                Some((v, width)) => r is Ok && r->Ok_0 == v && final(self).pos() == old(
                    self,
                ).pos() + width,
                None => {
                    &&& r is Err
                    &&& r->Err_0.kind() == ErrorKind::BadImage
                    &&& r->Err_0.text() == if old(self).pos() < old(self).data().len() {
                        short_buffer(1, old(self).data().len(), old(self).data().len())
                    } else {
                        "compressed int read at "@ + text::decimal(old(self).pos() as nat)
                            + " beyond length "@ + text::decimal(old(self).data().len())
                    }
                    &&& final(self).pos() == old(self).data().len()
                },
            },
    {
        broadcast use crate::io::compressed_widths;

        if self.position >= self.data.len() {
            proof {
                io::compressed_needs_a_byte(self.data(), self.pos() as int);
            }
            return Err(
                Error::bad_image(
                    Message::new("compressed int read at ").count(self.position as u64).text(
                        " beyond length ",
                    ).count(self.data.len() as u64).as_str(),
                ),
            );
        }
        let mut r = ByteReader::at(self.data.as_slice(), self.position);
        let v: Result<i32, Error> = r.compressed_i32();
        self.position = r.position();
        if v.is_err() {
            self.need(1)?;
        }
        v
    }

    /// Mutable access to the valid portion, for in-place patching.
    pub fn data_mut(&mut self) -> (s: &mut [u8])
        ensures
            s@ == old(self).data(),
            final(self).data() == final(s)@,
            final(self).pos() == old(self).pos(),
    {
        self.data.as_mut_slice()
    }

    pub fn write_byte(&mut self, value: u8)
        requires
            old(self).wf(),
        ensures
            final(self).wf(),
            final(self).data() == written(old(self).data(), old(self).pos() as int, seq![value]),
            final(self).pos() == old(self).pos() + 1,
    {
        if self.position < self.data.len() {
            self.data.set(self.position, value);
        } else {
            self.data.push(value);
        }
        let length: usize = self.data.len();
        proof {
            assert(length == self.data@.len());
        }
        self.position = self.position + 1;
        proof {
            assert(self.data@ =~= written(old(self).data(), old(self).pos() as int, seq![value]));
        }
    }

    pub fn write_bytes(&mut self, bytes: &[u8])
        requires
            old(self).wf(),
        ensures
            final(self).wf(),
            final(self).data() == written(old(self).data(), old(self).pos() as int, bytes@),
            final(self).pos() == old(self).pos() + bytes.len(),
    {
        let n: usize = bytes.len();
        let mut i: usize = 0;
        proof {
            assert(self.data() =~= written(
                old(self).data(),
                old(self).pos() as int,
                bytes@.take(0),
            ));
        }
        while i < n
            invariant
                i <= n,
                n == bytes@.len(),
                old(self).wf(),
                self.wf(),
                self.pos() == old(self).pos() + i,
                self.data() == written(
                    old(self).data(),
                    old(self).pos() as int,
                    bytes@.take(i as int),
                ),
            decreases n - i,
        {
            self.write_byte(bytes[i]);
            proof {
                assert(self.data() =~= written(
                    old(self).data(),
                    old(self).pos() as int,
                    bytes@.take(i + 1),
                ));
            }
            i += 1;
        }
        proof {
            assert(bytes@.take(n as int) =~= bytes@);
        }
    }

    /// Reserves `n` bytes at the cursor without writing values: bytes that are
    /// there stay, and zeros fill up what is missing.
    pub fn write_zeros(&mut self, n: usize)
        requires
            old(self).wf(),
        ensures
            final(self).wf(),
            final(self).data() == grown(old(self).data(), old(self).pos() + n),
            final(self).pos() == old(self).pos() + n,
    {
        let left: usize = self.data.len() - self.position;
        if n > left {
            let missing: usize = n - left;
            let mut i: usize = 0;
            while i < missing
                invariant
                    i <= missing,
                    self.position == old(self).position,
                    self.data@ == old(self).data() + bytes::zero_bytes(i as nat),
                decreases missing - i,
            {
                self.data.push(0);
                proof {
                    assert(self.data@ =~= old(self).data() + bytes::zero_bytes((i + 1) as nat));
                }
                i += 1;
            }
            let length: usize = self.data.len();
            proof {
                assert(length == self.data@.len());
            }
        }
        self.position = self.position + n;
    }

    pub fn u16_write(&mut self, value: u16)
        requires
            old(self).wf(),
        ensures
            final(self).wf(),
            final(self).data() == written(
                old(self).data(),
                old(self).pos() as int,
                bytes::u16_le(value),
            ),
            final(self).pos() == old(self).pos() + bytes::u16_le(value).len(),
    {
        let mut w = ByteWriter::new();
        w.u16(value);
        proof {
            assert(w@ =~= bytes::u16_le(value));
        }
        self.write_bytes(w.as_slice());
    }

    pub fn i16_write(&mut self, value: i16)
        requires
            old(self).wf(),
        ensures
            final(self).wf(),
            final(self).data() == written(
                old(self).data(),
                old(self).pos() as int,
                bytes::u16_le(bytes::u16_of(value)),
            ),
            final(self).pos() == old(self).pos() + bytes::u16_le(bytes::u16_of(value)).len(),
    {
        self.u16_write(bytes::as_u16(value));
    }

    pub fn u32_write(&mut self, value: u32)
        requires
            old(self).wf(),
        ensures
            final(self).wf(),
            final(self).data() == written(
                old(self).data(),
                old(self).pos() as int,
                bytes::u32_le(value),
            ),
            final(self).pos() == old(self).pos() + bytes::u32_le(value).len(),
    {
        let mut w = ByteWriter::new();
        w.u32(value);
        proof {
            assert(w@ =~= bytes::u32_le(value));
        }
        self.write_bytes(w.as_slice());
    }

    pub fn i32_write(&mut self, value: i32)
        requires
            old(self).wf(),
        ensures
            final(self).wf(),
            final(self).data() == written(
                old(self).data(),
                old(self).pos() as int,
                bytes::u32_le(bytes::u32_of(value)),
            ),
            final(self).pos() == old(self).pos() + bytes::u32_le(bytes::u32_of(value)).len(),
    {
        self.u32_write(bytes::as_u32(value));
    }

    pub fn u64_write(&mut self, value: u64)
        requires
            old(self).wf(),
        ensures
            final(self).wf(),
            final(self).data() == written(
                old(self).data(),
                old(self).pos() as int,
                bytes::u64_le(value),
            ),
            final(self).pos() == old(self).pos() + bytes::u64_le(value).len(),
    {
        let mut w = ByteWriter::new();
        w.u64(value);
        proof {
            assert(w@ =~= bytes::u64_le(value));
        }
        self.write_bytes(w.as_slice());
    }

    pub fn i64_write(&mut self, value: i64)
        requires
            old(self).wf(),
        ensures
            final(self).wf(),
            final(self).data() == written(
                old(self).data(),
                old(self).pos() as int,
                bytes::u64_le(bytes::u64_of(value)),
            ),
            final(self).pos() == old(self).pos() + bytes::u64_le(bytes::u64_of(value)).len(),
    {
        self.u64_write(bytes::as_u64(value));
    }

    /// Writes a single-precision number given as its bit pattern.
    pub fn f32_bits_write(&mut self, value: u32)
        requires
            old(self).wf(),
        ensures
            final(self).wf(),
            final(self).data() == written(
                old(self).data(),
                old(self).pos() as int,
                bytes::u32_le(value),
            ),
            final(self).pos() == old(self).pos() + bytes::u32_le(value).len(),
    {
        self.u32_write(value);
    }

    /// Writes a double-precision number given as its bit pattern.
    pub fn f64_bits_write(&mut self, value: u64)
        requires
            old(self).wf(),
        ensures
            final(self).wf(),
            final(self).data() == written(
                old(self).data(),
                old(self).pos() as int,
                bytes::u64_le(value),
            ),
            final(self).pos() == old(self).pos() + bytes::u64_le(value).len(),
    {
        self.u64_write(value);
    }

    /// Writes a compressed unsigned integer.
    pub fn compressed_u32_write(&mut self, value: u32)
        requires
            old(self).wf(),
        ensures
            final(self).wf(),
            final(self).data() == written(
                old(self).data(),
                old(self).pos() as int,
                io::compressed_u32_bytes(value),
            ),
            final(self).pos() == old(self).pos() + io::compressed_u32_bytes(value).len(),
    {
        let mut w = ByteWriter::new();
        w.compressed_u32(value);
        proof {
            assert(w@ =~= io::compressed_u32_bytes(value));
        }
        self.write_bytes(w.as_slice());
    }

    /// Writes a compressed signed integer.
    pub fn compressed_i32_write(&mut self, value: i32)
        requires
            old(self).wf(),
        ensures
            final(self).wf(),
            final(self).data() == written(
                old(self).data(),
                old(self).pos() as int,
                io::compressed_i32_bytes(value),
            ),
            final(self).pos() == old(self).pos() + io::compressed_i32_bytes(value).len(),
    {
        let mut w = ByteWriter::new();
        w.compressed_i32(value);
        proof {
            assert(w@ =~= io::compressed_i32_bytes(value));
        }
        self.write_bytes(w.as_slice());
    }

    /// Copies the valid contents of `other` starting at this buffer's cursor.
    pub fn write_buffer(&mut self, other: &ByteBuffer)
        requires
            old(self).wf(),
        ensures
            final(self).wf(),
            final(self).data() == written(old(self).data(), old(self).pos() as int, other.data()),
            final(self).pos() == old(self).pos() + other.data().len(),
    {
        self.write_bytes(other.as_slice());
    }
}

/// What was written at the cursor stands there, and nothing else has changed
/// that was there before.
pub proof fn written_stands(s: Seq<u8>, at: int, part: Seq<u8>)
    requires
        0 <= at <= s.len(),
    ensures
        bytes::holds_at(written(s, at, part), at, part),
        written(s, at, part).take(at) == s.take(at),
        forall|i: int|
            at + part.len() <= i < s.len() ==> #[trigger] written(s, at, part)[i] == s[i],
{
    let w = written(s, at, part);
    assert(w.subrange(at, at + part.len()) =~= part);
    assert(w.take(at) =~= s.take(at));
}

} // verus!
