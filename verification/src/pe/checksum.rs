//! The checksum of a PE image.

use vstd::prelude::*;

use crate::bytes;
use crate::error::{Error, ErrorKind};

verus! {

broadcast use crate::bytes::widths;

/// A sum with its carry folded back in.
pub open spec fn folded(sum: nat) -> nat {
    sum % 0x1_0000 + sum / 0x1_0000
}

/// The folded sum of the first `n` little-endian words.
pub open spec fn word_sum(data: Seq<u8>, n: nat) -> nat
    decreases n,
{
    if n == 0 {
        0
    } else {
        folded(word_sum(data, (n - 1) as nat) + bytes::u16_at(data, 2 * (n - 1)) as nat)
    }
}

/// The standard PE checksum of bytes whose checksum field is zero: the folded
/// sum of the words, of a last odd byte as the high byte of a word, and of the
/// length, with its low sixteen bits inverted.
pub open spec fn pe_checksum(data: Seq<u8>) -> u32 {
    let words = word_sum(data, data.len() / 2);
    let all = if data.len() % 2 == 1 {
        folded(words + 0x100 * data[data.len() - 1] as nat)
    } else {
        words
    };
    (0xFFFF - folded(all + data.len()) % 0x1_0000) as u32
}

proof fn word_sum_bounded(data: Seq<u8>, n: nat)
    ensures
        word_sum(data, n) <= 0xFFFF,
    decreases n,
{
    if n > 0 {
        word_sum_bounded(data, (n - 1) as nat);
    }
}

/// Computes the standard PE checksum over `data` (checksum field assumed 0).
///
/// The classic algorithm sums 16-bit words with carry folding, adds the file
/// length, and negates. Words are read little-endian; an odd trailing byte is
/// treated as a high-byte-padded final word.
pub fn compute_pe_checksum(data: &[u8]) -> (c: u32)
    ensures
        c == pe_checksum(data@),
{
    let words: usize = data.len() / 2;
    let mut sum: u128 = 0;
    let mut i: usize = 0;
    while i < words
        invariant
            i <= words,
            words == data.len() / 2,
            data.len() == data@.len(),
            sum == word_sum(data@, i as nat),
            sum <= 0xFFFF,
        decreases words - i,
    {
        sum = sum + bytes::get_u16(data, 2 * i) as u128;
        sum = sum % 0x1_0000 + sum / 0x1_0000;
        proof {
            word_sum_bounded(data@, (i + 1) as nat);
        }
        i += 1;
    }
    if data.len() % 2 == 1 {
        sum = sum + 0x100 * data[data.len() - 1] as u128;
        sum = sum % 0x1_0000 + sum / 0x1_0000;
    }
    sum = sum + data.len() as u128;
    sum = sum % 0x1_0000 + sum / 0x1_0000;
    (0xFFFF - sum % 0x1_0000) as u32
}

/// Where the checksum field stands, from the PE signature on.
pub const CHECKSUM_OFFSET: usize = 88;

/// `s` with its checksum field at `at` zeroed.
pub open spec fn without_checksum(s: Seq<u8>, at: int) -> Seq<u8> {
    bytes::overwrite(s, at, bytes::u32_le(0))
}

/// `s` with its checksum field at `at` filled in.
pub open spec fn with_checksum(s: Seq<u8>, at: int) -> Seq<u8> {
    bytes::overwrite(
        without_checksum(s, at),
        at,
        bytes::u32_le(pe_checksum(without_checksum(s, at))),
    )
}

/// Zeroes the checksum field of `out` (whose PE signature starts at `pe`)
/// and patches in the recomputed value.
pub(crate) fn patch_checksum(out: &mut Vec<u8>, pe: usize) -> (r: Result<(), Error>)
    ensures
        if pe + 92 > old(out)@.len() {
            r is Err && r->Err_0.kind() == ErrorKind::BadImage && final(out)@ == old(out)@
        } else {
            r is Ok && final(out)@ == with_checksum(old(out)@, pe + 88)
        },
{
    if out.len() < 92 || pe > out.len() - 92 {
        return Err(Error::bad_image("optional header too small for checksum"));
    }
    let at: usize = pe + CHECKSUM_OFFSET;
    put_u32(out, at, 0);
    let checksum: u32 = compute_pe_checksum(out.as_slice());
    put_u32(out, at, checksum);
    Ok(())
}

/// Overwrites four bytes by those of `v`.
pub(crate) fn put_u32(out: &mut Vec<u8>, at: usize, v: u32)
    requires
        at + 4 <= old(out).len(),
    ensures
        final(out)@ == bytes::overwrite(old(out)@, at as int, bytes::u32_le(v)),
        final(out)@.len() == old(out)@.len(),
{
    let mut part: Vec<u8> = Vec::new();
    bytes::push_u32(&mut part, v);
    proof {
        assert(part@ =~= bytes::u32_le(v));
    }
    bytes::put(out, at, part.as_slice());
}

/// The checksum that was filled in is the checksum of the bytes with the
/// field zeroed, and nothing but the field has changed.
pub proof fn checksum_reads_back(s: Seq<u8>, at: int)
    requires
        0 <= at,
        at + 4 <= s.len(),
    ensures
        bytes::u32_at(with_checksum(s, at), at) == pe_checksum(
            without_checksum(with_checksum(s, at), at),
        ),
        without_checksum(with_checksum(s, at), at) == without_checksum(s, at),
        with_checksum(s, at).len() == s.len(),
        with_checksum(s, at).take(at) == s.take(at),
        with_checksum(s, at).skip(at + 4) == s.skip(at + 4),
{
    let z = without_checksum(s, at);
    let c = pe_checksum(z);
    let w = with_checksum(s, at);
    assert(w.subrange(at, at + 4) =~= bytes::u32_le(c));
    bytes::u32_round_trip(w, at, c);
    assert(without_checksum(w, at) =~= z);
    assert(w.take(at) =~= s.take(at));
    assert(w.skip(at + 4) =~= s.skip(at + 4));
}

/// A checksum fits sixteen bits.
pub proof fn checksum_is_small(data: Seq<u8>)
    ensures
        pe_checksum(data) <= 0xFFFF,
{
}

} // verus!
