//! Fixed-width integers as little-endian byte sequences.

use vstd::prelude::*;

verus! {

/// The little-endian 16-bit integer whose first byte is `s[i]`.
#[verifier::opaque]
pub open spec fn u16_at(s: Seq<u8>, i: int) -> u16 {
    (s[i] + 0x100 * s[i + 1]) as u16
}

/// The little-endian 32-bit integer whose first byte is `s[i]`.
#[verifier::opaque]
pub open spec fn u32_at(s: Seq<u8>, i: int) -> u32 {
    (s[i] + 0x100 * s[i + 1] + 0x1_0000 * s[i + 2] + 0x100_0000 * s[i + 3]) as u32
}

/// The little-endian 64-bit integer whose first byte is `s[i]`.
#[verifier::opaque]
pub open spec fn u64_at(s: Seq<u8>, i: int) -> u64 {
    (u32_at(s, i) + 0x1_0000_0000 * u32_at(s, i + 4)) as u64
}

/// The big-endian 32-bit integer whose first byte is `s[i]`.
#[verifier::opaque]
pub open spec fn u32_be_at(s: Seq<u8>, i: int) -> u32 {
    (s[i + 3] + 0x100 * s[i + 2] + 0x1_0000 * s[i + 1] + 0x100_0000 * s[i]) as u32
}

/// The two bytes of `v`, lowest first.
#[verifier::opaque]
pub open spec fn u16_le(v: u16) -> Seq<u8> {
    seq![(v % 0x100) as u8, (v / 0x100) as u8]
}

/// The four bytes of `v`, lowest first.
#[verifier::opaque]
pub open spec fn u32_le(v: u32) -> Seq<u8> {
    seq![
        (v % 0x100) as u8,
        (v / 0x100 % 0x100) as u8,
        (v / 0x1_0000 % 0x100) as u8,
        (v / 0x100_0000) as u8,
    ]
}

/// The eight bytes of `v`, lowest first.
#[verifier::opaque]
pub open spec fn u64_le(v: u64) -> Seq<u8> {
    u32_le((v % 0x1_0000_0000) as u32) + u32_le((v / 0x1_0000_0000) as u32)
}

pub broadcast proof fn u16_le_len(v: u16)
    ensures
        #[trigger] u16_le(v).len() == 2,
{
    reveal(u16_le);
}

pub broadcast proof fn u32_le_len(v: u32)
    ensures
        #[trigger] u32_le(v).len() == 4,
{
    reveal(u32_le);
}

pub broadcast proof fn u64_le_len(v: u64)
    ensures
        #[trigger] u64_le(v).len() == 8,
{
    reveal(u64_le);
    u32_le_len((v % 0x1_0000_0000) as u32);
    u32_le_len((v / 0x1_0000_0000) as u32);
}

/// How many bytes the fixed-width integers take.
pub broadcast group widths {
    u16_le_len,
    u32_le_len,
    u64_le_len,
}

/// The signed byte with the bits of `u`.
pub open spec fn i8_of(u: u8) -> i8 {
    if u < 0x80 { u as i8 } else { (u - 0x100) as i8 }
}

/// The signed 16-bit integer with the bits of `u`.
pub open spec fn i16_of(u: u16) -> i16 {
    if u < 0x8000 { u as i16 } else { (u - 0x1_0000) as i16 }
}

/// The signed 32-bit integer with the bits of `u`.
pub open spec fn i32_of(u: u32) -> i32 {
    if u < 0x8000_0000 { u as i32 } else { (u - 0x1_0000_0000) as i32 }
}

/// The signed 64-bit integer with the bits of `u`.
pub open spec fn i64_of(u: u64) -> i64 {
    if u < 0x8000_0000_0000_0000 { u as i64 } else { (u - 0x1_0000_0000_0000_0000) as i64 }
}

/// The unsigned byte with the bits of `v`.
pub open spec fn u8_of(v: i8) -> u8 {
    if v >= 0 { v as u8 } else { (v + 0x100) as u8 }
}

/// The unsigned 16-bit integer with the bits of `v`.
pub open spec fn u16_of(v: i16) -> u16 {
    if v >= 0 { v as u16 } else { (v + 0x1_0000) as u16 }
}

/// The unsigned 32-bit integer with the bits of `v`.
pub open spec fn u32_of(v: i32) -> u32 {
    if v >= 0 { v as u32 } else { (v + 0x1_0000_0000) as u32 }
}

/// The unsigned 64-bit integer with the bits of `v`.
pub open spec fn u64_of(v: i64) -> u64 {
    if v >= 0 { v as u64 } else { (v + 0x1_0000_0000_0000_0000) as u64 }
}

/// `n` zero bytes.
pub open spec fn zero_bytes(n: nat) -> Seq<u8> {
    Seq::new(n, |i: int| 0u8)
}

/// How many bytes bring `len` to a multiple of `alignment`.
pub open spec fn padding(len: int, alignment: int) -> nat {
    if len % alignment == 0 { 0 } else { (alignment - len % alignment) as nat }
}

/// `s` with the bytes from `at` on replaced by `part`.
pub open spec fn overwrite(s: Seq<u8>, at: int, part: Seq<u8>) -> Seq<u8> {
    s.take(at) + part + s.skip(at + part.len())
}

/// `part` stands in `s` at `at`.
pub open spec fn holds_at(s: Seq<u8>, at: int, part: Seq<u8>) -> bool {
    0 <= at && at + part.len() <= s.len() && s.subrange(at, at + part.len()) == part
}

/// The parts, one behind the other.
pub open spec fn joined(parts: Seq<Seq<u8>>) -> Seq<u8>
    decreases parts.len(),
{
    if parts.len() == 0 {
        Seq::empty()
    } else {
        joined(parts.drop_last()) + parts.last()
    }
}

/// The offset of the first zero byte from `i` on.
pub open spec fn zero_from(s: Seq<u8>, i: int) -> Option<int>
    decreases s.len() - i,
{
    if i < 0 || i >= s.len() {
        None
    } else if s[i] == 0 {
        Some(i)
    } else {
        zero_from(s, i + 1)
    }
}

/// `s` up to its first zero byte, or all of it.
pub open spec fn until_zero(s: Seq<u8>) -> Seq<u8> {
    match zero_from(s, 0) {
        Some(z) => s.take(z),
        None => s,
    }
}

/// No byte of `s` is zero.
pub open spec fn zero_free(s: Seq<u8>) -> bool {
    forall|i: int| 0 <= i < s.len() ==> s[i] != 0
}

/// The low 32 bits of a length or offset.
pub open spec fn low32(n: int) -> u32 {
    (n % 0x1_0000_0000) as u32
}

/// The low 16 bits of a count.
pub open spec fn low16(n: int) -> u16 {
    (n % 0x1_0000) as u16
}

/// The 32-bit signed integer with the low 32 bits of a sum.
pub open spec fn wrapped32(n: int) -> i32 {
    i32_of(low32(n))
}

/// Takes the low 32 bits of a difference or a sum of a few 32-bit integers.
pub(crate) fn as_wrapped_u32(n: i64) -> (v: u32)
    requires
        -0x10_0000_0000 <= n <= 0x10_0000_0000,
    ensures
        v == low32(n as int),
{
    proof {
        vstd::arithmetic::div_mod::lemma_mod_multiples_vanish(16, n as int, 0x1_0000_0000);
    }
    ((n + 0x10_0000_0000) as u64 % 0x1_0000_0000) as u32
}

pub(crate) fn as_low32(n: usize) -> (v: u32)
    ensures
        v == low32(n as int),
{
    (n as u64 % 0x1_0000_0000) as u32
}

pub(crate) fn as_low16(n: usize) -> (v: u16)
    ensures
        v == low16(n as int),
{
    (n % 0x1_0000) as u16
}

/// Finds the first zero byte from `from` on.
pub(crate) fn find_zero(b: &[u8], from: usize) -> (r: Option<usize>)
    ensures
        match zero_from(b@, from as int) {
            Some(z) => r == Some(z as usize) && from <= z < b.len(),
            None => r is None,
        },
{
    let n: usize = b.len();
    let mut i: usize = from;
    while i < n
        invariant
            n == b@.len(),
            from <= i,
            zero_from(b@, from as int) == zero_from(b@, i as int),
        decreases n - i,
    {
        if b[i] == 0 {
            return Some(i);
        }
        i += 1;
    }
    None
}

/// The first zero byte stands where the bytes before it are not zero.
pub proof fn zero_from_is(s: Seq<u8>, i: int, z: int)
    requires
        0 <= i <= z < s.len(),
        s[z] == 0,
        forall|k: int| i <= k < z ==> s[k] != 0,
    ensures
        zero_from(s, i) == Some(z),
    decreases z - i,
{
    if i < z {
        zero_from_is(s, i + 1, z);
    }
}

/// What `zero_from` finds is the first zero byte.
pub proof fn zero_from_found(s: Seq<u8>, i: int)
    requires
        0 <= i,
    ensures
        match zero_from(s, i) {
            Some(z) => i <= z < s.len() && s[z] == 0 && forall|k: int| i <= k < z ==> s[k] != 0,
            None => forall|k: int| i <= k < s.len() ==> s[k] != 0,
        },
    decreases s.len() - i,
{
    if i < s.len() && s[i] != 0 {
        zero_from_found(s, i + 1);
    }
}

/// Appending one part.
pub proof fn joined_step(parts: Seq<Seq<u8>>, k: int)
    requires
        0 <= k < parts.len(),
    ensures
        joined(parts.take(k + 1)) == joined(parts.take(k)) + parts[k],
        joined(parts.take(k + 1)).len() == joined(parts.take(k)).len() + parts[k].len(),
{
    assert(parts.take(k + 1).drop_last() =~= parts.take(k));
}

proof fn joined_prefix(parts: Seq<Seq<u8>>, k: int)
    requires
        0 <= k <= parts.len(),
    ensures
        joined(parts.take(k)).len() <= joined(parts).len(),
        joined(parts).take(joined(parts.take(k)).len() as int) == joined(parts.take(k)),
    decreases parts.len(),
{
    if k == parts.len() {
        assert(parts.take(k) =~= parts);
        assert(joined(parts).take(joined(parts).len() as int) =~= joined(parts));
    } else {
        let front = parts.drop_last();
        joined_prefix(front, k);
        assert(front.take(k) =~= parts.take(k));
        assert(joined(parts).take(joined(parts.take(k)).len() as int) =~= joined(front).take(
            joined(parts.take(k)).len() as int,
        ));
    }
}

/// Every part stands in the whole, behind the parts before it.
pub proof fn joined_part(parts: Seq<Seq<u8>>, k: int)
    requires
        0 <= k < parts.len(),
    ensures
        holds_at(joined(parts), joined(parts.take(k)).len() as int, parts[k]),
        joined(parts.take(k)).len() + parts[k].len() == joined(parts.take(k + 1)).len()
            <= joined(parts).len(),
{
    joined_prefix(parts, k + 1);
    joined_step(parts, k);
    let a = joined(parts.take(k)).len() as int;
    let b = joined(parts.take(k + 1)).len() as int;
    assert(joined(parts).subrange(a, b) =~= joined(parts).take(b).subrange(a, b));
    assert(joined(parts.take(k + 1)).subrange(a, b) =~= parts[k]);
}

/// Parts of one length, one behind the other.
pub proof fn joined_uniform(parts: Seq<Seq<u8>>, width: nat, k: int)
    requires
        0 <= k <= parts.len(),
        forall|i: int| 0 <= i < parts.len() ==> (#[trigger] parts[i]).len() == width,
    ensures
        joined(parts.take(k)).len() == width * k,
    decreases k,
{
    if k == 0 {
        assert(parts.take(0) =~= Seq::<Seq<u8>>::empty());
        assert(width * 0 == 0) by (nonlinear_arith);
    } else {
        joined_uniform(parts, width, k - 1);
        joined_step(parts, k - 1);
        assert(width * (k - 1) + width == width * k) by (nonlinear_arith);
    }
}

/// A part of a part stands in the whole.
pub proof fn holds_within(s: Seq<u8>, at: int, part: Seq<u8>, inner_at: int, inner: Seq<u8>)
    requires
        holds_at(s, at, part),
        holds_at(part, inner_at, inner),
    ensures
        holds_at(s, at + inner_at, inner),
{
    assert(s.subrange(at + inner_at, at + inner_at + inner.len()) =~= s.subrange(
        at,
        at + part.len(),
    ).subrange(inner_at, inner_at + inner.len()));
}

/// A part of a sequence that is cut in three.
pub proof fn holds_in_concat(a: Seq<u8>, b: Seq<u8>, c: Seq<u8>)
    ensures
        holds_at(a + b + c, a.len() as int, b),
        holds_at(a + b, 0, a),
        holds_at(a + b, a.len() as int, b),
{
    assert((a + b + c).subrange(a.len() as int, (a.len() + b.len()) as int) =~= b);
    assert((a + b).subrange(0, a.len() as int) =~= a);
    assert((a + b).subrange(a.len() as int, (a.len() + b.len()) as int) =~= b);
}

/// A prefix does not move what follows it but by its length.
pub proof fn holds_shifted(a: Seq<u8>, b: Seq<u8>, at: int, part: Seq<u8>)
    requires
        holds_at(b, at, part),
    ensures
        holds_at(a + b, a.len() + at, part),
{
    assert((a + b).subrange(a.len() + at, a.len() + at + part.len()) =~= b.subrange(
        at,
        at + part.len(),
    ));
}

/// What is appended does not move what stands before it.
pub proof fn holds_extended(a: Seq<u8>, b: Seq<u8>, at: int, part: Seq<u8>)
    requires
        holds_at(a, at, part),
    ensures
        holds_at(a + b, at, part),
{
    assert((a + b).subrange(at, at + part.len()) =~= a.subrange(at, at + part.len()));
}

pub(crate) fn as_i8(u: u8) -> (v: i8)
    ensures
        v == i8_of(u),
{
    if u < 0x80 { u as i8 } else { (u as i16 - 0x100) as i8 }
}

pub(crate) fn as_i16(u: u16) -> (v: i16)
    ensures
        v == i16_of(u),
{
    if u < 0x8000 { u as i16 } else { (u as i32 - 0x1_0000) as i16 }
}

pub(crate) fn as_i32(u: u32) -> (v: i32)
    ensures
        v == i32_of(u),
{
    if u < 0x8000_0000 { u as i32 } else { (u as i64 - 0x1_0000_0000) as i32 }
}

pub(crate) fn as_i64(u: u64) -> (v: i64)
    ensures
        v == i64_of(u),
{
    if u < 0x8000_0000_0000_0000 {
        u as i64
    } else {
        (u as i128 - 0x1_0000_0000_0000_0000) as i64
    }
}

pub(crate) fn as_u8(v: i8) -> (u: u8)
    ensures
        u == u8_of(v),
{
    if v >= 0 { v as u8 } else { (v as i16 + 0x100) as u8 }
}

pub(crate) fn as_u16(v: i16) -> (u: u16)
    ensures
        u == u16_of(v),
{
    if v >= 0 { v as u16 } else { (v as i32 + 0x1_0000) as u16 }
}

pub(crate) fn as_u32(v: i32) -> (u: u32)
    ensures
        u == u32_of(v),
{
    if v >= 0 { v as u32 } else { (v as i64 + 0x1_0000_0000) as u32 }
}

pub(crate) fn as_u64(v: i64) -> (u: u64)
    ensures
        u == u64_of(v),
{
    if v >= 0 { v as u64 } else { (v as i128 + 0x1_0000_0000_0000_0000) as u64 }
}

/// Reads the little-endian 16-bit integer at `i`.
pub(crate) fn get_u16(b: &[u8], i: usize) -> (v: u16)
    requires
        i + 2 <= b.len(),
    ensures
        v == u16_at(b@, i as int),
{
    proof {
        reveal(u16_at);
    }
    b[i] as u16 + 0x100 * b[i + 1] as u16
}

/// Reads the little-endian 32-bit integer at `i`.
pub(crate) fn get_u32(b: &[u8], i: usize) -> (v: u32)
    requires
        i + 4 <= b.len(),
    ensures
        v == u32_at(b@, i as int),
{
    proof {
        reveal(u32_at);
    }
    b[i] as u32 + 0x100 * b[i + 1] as u32 + 0x1_0000 * b[i + 2] as u32 + 0x100_0000 * b[i + 3] as u32
}

/// Reads the big-endian 32-bit integer at `i`.
pub(crate) fn get_u32_be(b: &[u8], i: usize) -> (v: u32)
    requires
        i + 4 <= b.len(),
    ensures
        v == u32_be_at(b@, i as int),
{
    proof {
        reveal(u32_be_at);
    }
    b[i + 3] as u32 + 0x100 * b[i + 2] as u32 + 0x1_0000 * b[i + 1] as u32 + 0x100_0000 * b[i] as u32
}

/// Reads the little-endian 64-bit integer at `i`.
pub(crate) fn get_u64(b: &[u8], i: usize) -> (v: u64)
    requires
        i + 8 <= b.len(),
    ensures
        v == u64_at(b@, i as int),
{
    proof {
        reveal(u64_at);
    }
    let lo: u32 = get_u32(b, i);
    let hi: u32 = get_u32(b, i + 4);
    lo as u64 + 0x1_0000_0000 * hi as u64
}

/// Takes the sixteen bytes from `i` on.
pub(crate) fn get_16(b: &[u8], i: usize) -> (r: [u8; 16])
    requires
        i + 16 <= b.len(),
    ensures
        r@ == b@.subrange(i as int, i + 16),
{
    let mut r: [u8; 16] = [0u8;16];
    let mut k: usize = 0;
    while k < 16
        invariant
            k <= 16,
            i + 16 <= b.len(),
            r@.len() == 16,
            forall|j: int| 0 <= j < k ==> #[trigger] r@[j] == b@[i + j],
        decreases 16 - k,
    {
        let ghost before = r@;
        r[k] = b[i + k];
        proof {
            assert forall|j: int| 0 <= j < k + 1 implies #[trigger] r@[j] == b@[i + j] by {
                let earlier = before[j];
            }
        }
        k += 1;
    }
    proof {
        assert(r@ =~= b@.subrange(i as int, i + 16));
    }
    r
}

/// Appends `part` to `out`.
pub(crate) fn append(out: &mut Vec<u8>, part: &[u8])
    ensures
        final(out)@ == old(out)@ + part@,
{
    out.extend_from_slice(part);
}

/// Appends the two bytes of `v` to `out`.
pub(crate) fn push_u16(out: &mut Vec<u8>, v: u16)
    ensures
        final(out)@ == old(out)@ + u16_le(v),
{
    proof {
        reveal(u16_le);
    }
    out.push((v % 0x100) as u8);
    out.push((v / 0x100) as u8);
}

/// Appends the four bytes of `v` to `out`.
pub(crate) fn push_u32(out: &mut Vec<u8>, v: u32)
    ensures
        final(out)@ == old(out)@ + u32_le(v),
{
    proof {
        reveal(u32_le);
    }
    out.push((v % 0x100) as u8);
    out.push((v / 0x100 % 0x100) as u8);
    out.push((v / 0x1_0000 % 0x100) as u8);
    out.push((v / 0x100_0000) as u8);
}

/// Replaces the bytes of `out` from `at` on by `part`.
pub(crate) fn put(out: &mut Vec<u8>, at: usize, part: &[u8])
    requires
        at + part.len() <= old(out).len(),
    ensures
        final(out)@ == overwrite(old(out)@, at as int, part@),
        final(out)@.len() == old(out)@.len(),
{
    let n: usize = part.len();
    let mut i: usize = 0;
    while i < n
        invariant
            i <= n,
            n == part@.len(),
            at + n <= old(out).len(),
            out@.len() == old(out)@.len(),
            forall|k: int| 0 <= k < out@.len() ==> out@[k] == if at <= k < at + i {
                part@[k - at]
            } else {
                old(out)@[k]
            },
        decreases n - i,
    {
        out.set(at + i, part[i]);
        i += 1;
    }
    proof {
        assert(out@ =~= overwrite(old(out)@, at as int, part@));
    }
}

/// Compares two byte slices.
pub(crate) fn same_bytes(a: &[u8], b: &[u8]) -> (r: bool)
    ensures
        r == (a@ == b@),
{
    if a.len() != b.len() {
        return false;
    }
    let n: usize = a.len();
    let mut i: usize = 0;
    while i < n
        invariant
            i <= n,
            n == a@.len(),
            n == b@.len(),
            forall|k: int| 0 <= k < i ==> a@[k] == b@[k],
        decreases n - i,
    {
        if a[i] != b[i] {
            return false;
        }
        i += 1;
    }
    proof {
        assert(a@ =~= b@);
    }
    true
}

/// What a 16-bit integer was written as reads back as that integer.
pub proof fn u16_round_trip(s: Seq<u8>, i: int, v: u16)
    requires
        holds_at(s, i, u16_le(v)),
    ensures
        u16_at(s, i) == v,
{
    reveal(u16_at);
    reveal(u16_le);
    let part = s.subrange(i, i + 2);
    assert(part[0] == s[i]);
    assert(part[1] == s[i + 1]);
}

proof fn u32_digits(v: u32)
    ensures
        v == v % 0x100 + 0x100 * (v / 0x100 % 0x100) + 0x1_0000 * (v / 0x1_0000 % 0x100) + 0x100_0000
            * (v / 0x100_0000),
{
    let b = v / 0x100;
    let c = v / 0x1_0000;
    let d = v / 0x100_0000;
    assert(c == b / 0x100);
    assert(d == c / 0x100);
    assert(v == v % 0x100 + 0x100 * b);
    assert(b == b % 0x100 + 0x100 * c);
    assert(c == c % 0x100 + 0x100 * d);
}

/// What a 32-bit integer was written as reads back as that integer.
pub proof fn u32_round_trip(s: Seq<u8>, i: int, v: u32)
    requires
        holds_at(s, i, u32_le(v)),
    ensures
        u32_at(s, i) == v,
{
    reveal(u32_at);
    reveal(u32_le);
    let part = u32_le(v);
    assert(s.subrange(i, i + 4)[0] == s[i] == part[0]);
    assert(s.subrange(i, i + 4)[1] == s[i + 1] == part[1]);
    assert(s.subrange(i, i + 4)[2] == s[i + 2] == part[2]);
    assert(s.subrange(i, i + 4)[3] == s[i + 3] == part[3]);
    u32_digits(v);
}

/// What a 64-bit integer was written as reads back as that integer.
pub proof fn u64_round_trip(s: Seq<u8>, i: int, v: u64)
    requires
        holds_at(s, i, u64_le(v)),
    ensures
        u64_at(s, i) == v,
{
    u32_le_len((v % 0x1_0000_0000) as u32);
    u32_le_len((v / 0x1_0000_0000) as u32);
    u64_le_len(v);
    reveal(u64_at);
    reveal(u64_le);
    let part = s.subrange(i, i + 8);
    let lo = (v % 0x1_0000_0000) as u32;
    let hi = (v / 0x1_0000_0000) as u32;
    assert(s.subrange(i, i + 4) =~= u32_le(lo)) by {
        assert forall|k: int| 0 <= k < 4 implies s.subrange(i, i + 4)[k] == u32_le(lo)[k] by {
            assert(part[k] == s[i + k]);
        }
    }
    assert(s.subrange(i + 4, i + 8) =~= u32_le(hi)) by {
        assert forall|k: int| 0 <= k < 4 implies s.subrange(i + 4, i + 8)[k] == u32_le(hi)[k] by {
            assert(part[k + 4] == s[i + 4 + k]);
        }
    }
    u32_round_trip(s, i, lo);
    u32_round_trip(s, i + 4, hi);
}

/// The bytes of the 32-bit integer at `i` are the bytes that stand there.
pub proof fn u32_bytes_round_trip(s: Seq<u8>, i: int)
    requires
        0 <= i,
        i + 4 <= s.len(),
    ensures
        holds_at(s, i, u32_le(u32_at(s, i))),
{
    reveal(u32_at);
    reveal(u32_le);
    let v = u32_at(s, i);
    let (a, b, c, d) = (s[i], s[i + 1], s[i + 2], s[i + 3]);
    assert(v == a + 0x100 * (b + 0x100 * (c + 0x100 * d)));
    assert(v % 0x100 == a);
    assert(v / 0x100 == b + 0x100 * (c + 0x100 * d));
    assert(v / 0x100 % 0x100 == b);
    assert(v / 0x1_0000 == c + 0x100 * d);
    assert(v / 0x1_0000 % 0x100 == c);
    assert(v / 0x100_0000 == d);
    assert(s.subrange(i, i + 4) =~= u32_le(v));
}

/// The bytes of the 16-bit integer at `i` are the bytes that stand there.
pub proof fn u16_bytes_round_trip(s: Seq<u8>, i: int)
    requires
        0 <= i,
        i + 2 <= s.len(),
    ensures
        holds_at(s, i, u16_le(u16_at(s, i))),
{
    reveal(u16_at);
    reveal(u16_le);
    let v = u16_at(s, i);
    let (a, b) = (s[i], s[i + 1]);
    assert(v == a + 0x100 * b);
    assert(v % 0x100 == a);
    assert(v / 0x100 == b);
    assert(s.subrange(i, i + 2) =~= u16_le(v));
}

/// The bytes of the 64-bit integer at `i` are the bytes that stand there.
pub proof fn u64_bytes_round_trip(s: Seq<u8>, i: int)
    requires
        0 <= i,
        i + 8 <= s.len(),
    ensures
        holds_at(s, i, u64_le(u64_at(s, i))),
{
    u32_bytes_round_trip(s, i);
    u32_bytes_round_trip(s, i + 4);
    let lo = u32_at(s, i);
    let hi = u32_at(s, i + 4);
    u32_le_len(lo);
    u32_le_len(hi);
    reveal(u64_at);
    reveal(u64_le);
    let v = u64_at(s, i);
    assert(v == lo + 0x1_0000_0000 * hi);
    assert(v % 0x1_0000_0000 == lo);
    assert(v / 0x1_0000_0000 == hi);
    assert(s.subrange(i, i + 8) =~= s.subrange(i, i + 4) + s.subrange(i + 4, i + 8));
}

/// Integers at windows with the same bytes are equal.
pub proof fn same_window(s: Seq<u8>, i: int, t: Seq<u8>, j: int, n: int)
    requires
        0 <= i,
        0 <= j,
        i + n <= s.len(),
        j + n <= t.len(),
        s.subrange(i, i + n) == t.subrange(j, j + n),
    ensures
        n >= 2 ==> u16_at(s, i) == u16_at(t, j),
        n >= 4 ==> u32_at(s, i) == u32_at(t, j),
        n >= 8 ==> u64_at(s, i) == u64_at(t, j),
{
    reveal(u16_at);
    reveal(u32_at);
    reveal(u64_at);
    let a = s.subrange(i, i + n);
    let b = t.subrange(j, j + n);
    if n >= 2 {
        assert(s[i] == a[0] && t[j] == b[0]);
        assert(s[i + 1] == a[1] && t[j + 1] == b[1]);
    }
    if n >= 4 {
        assert(s[i + 2] == a[2] && t[j + 2] == b[2]);
        assert(s[i + 3] == a[3] && t[j + 3] == b[3]);
    }
    if n >= 8 {
        assert(s[i + 4] == a[4] && t[j + 4] == b[4]);
        assert(s[i + 5] == a[5] && t[j + 5] == b[5]);
        assert(s[i + 6] == a[6] && t[j + 6] == b[6]);
        assert(s[i + 7] == a[7] && t[j + 7] == b[7]);
    }
}

/// The signed readings undo the unsigned ones.
pub proof fn signed_round_trip(a: i8, b: i16, c: i32, d: i64)
    ensures
        i8_of(u8_of(a)) == a,
        i16_of(u16_of(b)) == b,
        i32_of(u32_of(c)) == c,
        i64_of(u64_of(d)) == d,
{
}

} // verus!
