//! The variable-length integers and the strings of symbol files.

use vstd::prelude::*;

use crate::bytes;
use crate::error::{Error, ErrorKind};
use crate::io::{ByteReader, ByteWriter};
use crate::text;
use crate::text::Message;

verus! {

/// The value of the `n`-th group of seven bits in a 32-bit integer; of the
/// fifth group only four bits are left.
pub open spec fn seven_bits(b: u8, n: nat) -> u32 {
    let v = (b % 0x80) as u32;
    if n == 0 {
        v
    } else if n == 1 {
        (v * 0x80) as u32
    } else if n == 2 {
        (v * 0x4000) as u32
    } else if n == 3 {
        (v * 0x20_0000) as u32
    } else {
        (v % 0x10 * 0x1000_0000) as u32
    }
}

/// The groups from the `n`-th one on of a variable-length integer at `at`,
/// lowest first: each but the last has its highest bit set, and there are at
/// most five. With the value comes where the integer ends.
pub open spec fn groups_at(s: Seq<u8>, at: int, n: nat) -> Option<(u32, int)>
    decreases 5 - n,
{
    if n >= 5 || at < 0 || at >= s.len() {
        None
    } else if s[at] < 0x80 {
        Some((seven_bits(s[at], n), at + 1))
    } else {
        match groups_at(s, at + 1, n + 1) {
            None => None,
            Some((rest, end)) => Some(((seven_bits(s[at], n) + rest) as u32, end)),
        }
    }
}

/// The variable-length integer at `at`, and where it ends.
#[verifier::opaque]
pub open spec fn leb128_at(s: Seq<u8>, at: int) -> Option<(i32, int)> {
    match groups_at(s, at, 0) {
        None => None,
        Some((v, end)) => Some((bytes::i32_of(v), end)),
    }
}

proof fn groups_bounded(s: Seq<u8>, at: int, n: nat)
    ensures
        groups_at(s, at, n) matches Some((v, end)) ==> at < end <= at + 5 - n && end <= s.len() && 0
            <= at && (n == 1 ==> v % 0x80 == 0) && (n == 2 ==> v % 0x4000 == 0) && (n == 3 ==> v
            % 0x20_0000 == 0) && (n == 4 ==> v % 0x1000_0000 == 0),
    decreases 5 - n,
{
    if n < 5 && 0 <= at < s.len() && s[at] >= 0x80 {
        groups_bounded(s, at + 1, n + 1);
    }
}

/// A variable-length integer takes one to five bytes.
pub broadcast proof fn leb128_fits(s: Seq<u8>, at: int)
    ensures
        #[trigger] leb128_at(s, at) matches Some((v, end)) ==> 0 <= at < end <= at + 5 && end
            <= s.len(),
{
    reveal(leb128_at);
    groups_bounded(s, at, 0);
}

/// Reads one variable-length integer of at most five bytes.
pub(crate) fn read_leb128(r: &mut ByteReader) -> (v: Result<i32, Error>)
    ensures
        final(r).data() == old(r).data(),
        match leb128_at(old(r).data(), old(r).pos() as int) {
            Some((i, end)) => v is Ok && v->Ok_0 == i && final(r).pos() == end,
            None => v is Err && v->Err_0.kind() == ErrorKind::BadImage,
        },
{
    proof {
        reveal(leb128_at);
        reveal_with_fuel(groups_at, 6);
        groups_bounded(r.data(), r.pos() + 1, 1);
        groups_bounded(r.data(), r.pos() + 2, 2);
        groups_bounded(r.data(), r.pos() + 3, 3);
        groups_bounded(r.data(), r.pos() + 4, 4);
    }
    let b0: u8 = r.u8()?;
    let v0: u32 = (b0 % 0x80) as u32;
    if b0 < 0x80 {
        return Ok(bytes::as_i32(v0));
    }
    let b1: u8 = r.u8()?;
    let v1: u32 = v0 + (b1 % 0x80) as u32 * 0x80;
    if b1 < 0x80 {
        return Ok(bytes::as_i32(v1));
    }
    let b2: u8 = r.u8()?;
    let v2: u32 = v1 + (b2 % 0x80) as u32 * 0x4000;
    if b2 < 0x80 {
        return Ok(bytes::as_i32(v2));
    }
    let b3: u8 = r.u8()?;
    let v3: u32 = v2 + (b3 % 0x80) as u32 * 0x20_0000;
    if b3 < 0x80 {
        return Ok(bytes::as_i32(v3));
    }
    let b4: u8 = r.u8()?;
    let v4: u32 = v3 + (b4 % 0x10) as u32 * 0x1000_0000;
    if b4 < 0x80 {
        return Ok(bytes::as_i32(v4));
    }
    Err(Error::bad_image("mdb: unterminated 7-bit encoded int"))
}

/// The bytes of a variable-length integer: seven bits each, lowest first, with
/// the highest bit set on all but the last.
#[verifier::opaque]
pub open spec fn leb128_bytes(v: u32) -> Seq<u8>
    decreases v,
{
    if v < 0x80 {
        seq![v as u8]
    } else {
        seq![(v % 0x80 + 0x80) as u8] + leb128_bytes(v / 0x80)
    }
}

/// Writes one variable-length integer.
pub(crate) fn write_leb128(w: &mut ByteWriter, value: u32)
    ensures
        final(w)@ == old(w)@ + leb128_bytes(value),
{
    let mut v: u32 = value;
    proof {
        reveal_with_fuel(leb128_bytes, 2);
    }
    while v >= 0x80
        invariant
            w@ + leb128_bytes(v) == old(w)@ + leb128_bytes(value),
        decreases v,
    {
        proof {
            reveal_with_fuel(leb128_bytes, 2);
        }
        let ghost before = w@;
        w.u8((v % 0x80 + 0x80) as u8);
        proof {
            assert(w@ + leb128_bytes(v / 0x80) =~= before + leb128_bytes(v));
        }
        v = v / 0x80;
    }
    let ghost before = w@;
    w.u8(v as u8);
    proof {
        assert(w@ =~= before + leb128_bytes(v));
    }
}

pub broadcast proof fn leb128_bytes_len(v: u32)
    ensures
        1 <= #[trigger] leb128_bytes(v).len() <= 5,
{
    reveal_with_fuel(leb128_bytes, 6);
}

/// The weight of the `n`-th group.
spec fn weight(n: nat) -> int {
    if n == 0 {
        1
    } else if n == 1 {
        0x80
    } else if n == 2 {
        0x4000
    } else if n == 3 {
        0x20_0000
    } else {
        0x1000_0000
    }
}

proof fn groups_round_trip(s: Seq<u8>, at: int, v: u32, n: nat)
    requires
        n <= 4,
        v * weight(n) <= 0xFFFF_FFFF,
        bytes::holds_at(s, at, leb128_bytes(v)),
    ensures
        groups_at(s, at, n) == Some(((v * weight(n)) as u32, at + leb128_bytes(v).len())),
    decreases 5 - n,
{
    reveal_with_fuel(leb128_bytes, 2);
    let b = leb128_bytes(v);
    leb128_bytes_len(v);
    assert(s.subrange(at, at + b.len())[0] == s[at]);
    if v < 0x80 {
        if n == 0 {
            assert(v * weight(0) == v);
        } else if n == 1 {
            assert(v * weight(1) == v * 0x80);
        } else if n == 2 {
            assert(v * weight(2) == v * 0x4000);
        } else if n == 3 {
            assert(v * weight(3) == v * 0x20_0000);
        } else {
            assert(v * weight(4) == v * 0x1000_0000);
        }
    } else {
        let rest = leb128_bytes(v / 0x80);
        assert(b =~= seq![b[0]] + rest);
        bytes::holds_in_concat(seq![b[0]], rest, Seq::empty());
        bytes::holds_within(s, at, b, 1, rest);
        let high = v / 0x80;
        let low = v % 0x80;
        assert(v == 0x80 * high + low);
        if n == 0 {
            assert(weight(0) == 1 && weight(1) == 0x80);
            assert(v * 1 == v && high * 0x80 + low == v);
        } else if n == 1 {
            assert(weight(1) == 0x80 && weight(2) == 0x4000);
            assert(v * 0x80 == high * 0x4000 + low * 0x80);
        } else if n == 2 {
            assert(weight(2) == 0x4000 && weight(3) == 0x20_0000);
            assert(v * 0x4000 == high * 0x20_0000 + low * 0x4000);
        } else if n == 3 {
            assert(weight(3) == 0x20_0000 && weight(4) == 0x1000_0000);
            assert(v * 0x20_0000 == high * 0x1000_0000 + low * 0x20_0000);
        } else {
            assert(weight(4) == 0x1000_0000);
            assert(v * 0x1000_0000 <= 0xFFFF_FFFF);
            assert(false);
        }
        groups_round_trip(s, at + 1, high, n + 1);
    }
}

/// A variable-length integer reads back from the bytes that it was written as.
pub proof fn leb128_round_trip(s: Seq<u8>, at: int, v: u32)
    requires
        bytes::holds_at(s, at, leb128_bytes(v)),
    ensures
        leb128_at(s, at) == Some((bytes::i32_of(v), at + leb128_bytes(v).len())),
{
    reveal(leb128_at);
    groups_round_trip(s, at, v, 0);
}

/// The text at `at`, which stands behind its length in bytes, and where it
/// ends.
#[verifier::opaque]
pub open spec fn string_at(s: Seq<u8>, at: int) -> Option<(Seq<char>, int)> {
    match leb128_at(s, at) {
        None => None,
        Some((n, start)) => if n < 0 || start + n > s.len() {
            None
        } else {
            match text::strict_text(s.subrange(start, start + n)) {
                None => None,
                Some(t) => Some((t, start + n)),
            }
        },
    }
}

pub broadcast proof fn string_fits(s: Seq<u8>, at: int)
    ensures
        #[trigger] string_at(s, at) matches Some((t, end)) ==> 0 <= at < end <= s.len(),
{
    broadcast use leb128_fits;

    reveal(string_at);
}

/// Where variable-length values end.
pub broadcast group extents {
    leb128_fits,
    leb128_bytes_len,
    string_fits,
}

/// Reads a length-prefixed UTF-8 string.
pub(crate) fn read_string<'a>(r: &mut ByteReader<'a>) -> (v: Result<&'a str, Error>)
    ensures
        final(r).data() == old(r).data(),
        match string_at(old(r).data(), old(r).pos() as int) {
            Some((t, end)) => v is Ok && v->Ok_0@ == t && final(r).pos() == end,
            None => v is Err && v->Err_0.kind() == ErrorKind::BadImage,
        },
{
    proof {
        reveal(string_at);
    }
    let n: i32 = read_leb128(r)?;
    if n < 0 {
        return Err(Error::bad_image("mdb: negative string length"));
    }
    let b = r.read_bytes(n as usize)?;
    match text::from_utf8(b) {
        Ok(t) => Ok(t),
        Err(e) => Err(
            Error::bad_image(Message::new("mdb: bad string: ").text(e.as_str()).as_str()),
        ),
    }
}

/// The bytes of a text behind its length.
pub open spec fn string_bytes(t: Seq<char>) -> Seq<u8> {
    leb128_bytes(bytes::low32(text::utf8(t).len() as int)) + text::utf8(t)
}

/// Writes a length-prefixed UTF-8 string.
pub(crate) fn write_string(w: &mut ByteWriter, t: &str)
    ensures
        final(w)@ == old(w)@ + string_bytes(t@),
{
    let b = t.as_bytes();
    write_leb128(w, bytes::as_low32(b.len()));
    w.bytes(b);
    proof {
        assert(w@ =~= old(w)@ + string_bytes(t@));
    }
}

/// A text of less than two gigabytes reads back from the bytes that it was
/// written as.
pub proof fn string_round_trip(s: Seq<u8>, at: int, t: Seq<char>)
    requires
        text::utf8(t).len() <= i32::MAX,
        bytes::holds_at(s, at, string_bytes(t)),
    ensures
        string_at(s, at) == Some((t, at + string_bytes(t).len())),
{
    reveal(string_at);
    let b = text::utf8(t);
    let n = bytes::low32(b.len() as int);
    let head = leb128_bytes(n);
    bytes::holds_in_concat(head, b, Seq::empty());
    bytes::holds_within(s, at, head + b, 0, head);
    bytes::holds_within(s, at, head + b, head.len() as int, b);
    leb128_round_trip(s, at, n);
    text::utf8_round_trip(t);
}

} // verus!
