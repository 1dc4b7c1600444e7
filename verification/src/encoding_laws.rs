//! What the encodings of numbers and texts mean: bytes are digits, and numerals
//! are read back as the numbers that they stand for.

use vstd::prelude::*;

use crate::bytes;
use crate::io;
use crate::text;

verus! {

/// The number that two bytes make, the lower one first.
pub open spec fn word(s: Seq<u8>, at: int) -> int {
    s[at] + 0x100 * s[at + 1]
}

/// The number that four bytes make, the lowest one first.
pub open spec fn double_word(s: Seq<u8>, at: int) -> int {
    s[at] + 0x100 * s[at + 1] + 0x1_0000 * s[at + 2] + 0x100_0000 * s[at + 3]
}

/// The signed number that two bytes make.
pub open spec fn signed_word(s: Seq<u8>, at: int) -> int {
    if word(s, at) < 0x8000 {
        word(s, at)
    } else {
        word(s, at) - 0x1_0000
    }
}

/// The signed number that four bytes make.
pub open spec fn signed_double_word(s: Seq<u8>, at: int) -> int {
    if double_word(s, at) < 0x8000_0000 {
        double_word(s, at)
    } else {
        double_word(s, at) - 0x1_0000_0000
    }
}

/// The signed numbers at a place are those that the bytes there make.
pub proof fn signed_words_agree(s: Seq<u8>)
    ensures
        forall|at: int| signed_word(s, at) == bytes::i16_of(#[trigger] bytes::u16_at(s, at)),
        forall|at: int| signed_double_word(s, at) == bytes::i32_of(#[trigger] bytes::u32_at(s, at)),
{
    words_agree(s);
}

/// The numbers at a place are those that the bytes there make.
pub proof fn words_agree(s: Seq<u8>)
    ensures
        forall|at: int| word(s, at) == #[trigger] bytes::u16_at(s, at),
        forall|at: int| double_word(s, at) == #[trigger] bytes::u32_at(s, at),
{
    reveal(bytes::u16_at);
    reveal(bytes::u32_at);
}

/// Numbers are written and read with the lowest byte first.
pub proof fn lowest_byte_first(s: Seq<u8>, i: int, a: u16, b: u32, c: u64)
    ensures
        bytes::u16_at(s, i) == (s[i] as u16) | ((s[i + 1] as u16) << 8),
        bytes::u32_at(s, i) == (s[i] as u32) | ((s[i + 1] as u32) << 8) | ((s[i + 2] as u32) << 16)
            | ((s[i + 3] as u32) << 24),
        bytes::u64_at(s, i) == (bytes::u32_at(s, i) as u64) | ((bytes::u32_at(s, i + 4) as u64)
            << 32),
        bytes::u16_le(a) == seq![a as u8, (a >> 8) as u8],
        bytes::u32_le(b) == seq![b as u8, (b >> 8) as u8, (b >> 16) as u8, (b >> 24) as u8],
        bytes::u64_le(c) == bytes::u32_le(c as u32) + bytes::u32_le((c >> 32) as u32),
{
    reveal(bytes::u16_at);
    reveal(bytes::u32_at);
    reveal(bytes::u64_at);
    reveal(bytes::u16_le);
    reveal(bytes::u32_le);
    reveal(bytes::u64_le);
    let (w, x, y, z) = (s[i], s[i + 1], s[i + 2], s[i + 3]);
    assert(w + 0x100 * x == (w as u16) | ((x as u16) << 8) && w + 0x100 * x + 0x1_0000 * y
        + 0x100_0000 * z == (w as u32) | ((x as u32) << 8) | ((y as u32) << 16) | ((z as u32)
        << 24)) by (bit_vector);
    let (lo, hi) = (bytes::u32_at(s, i), bytes::u32_at(s, i + 4));
    assert(lo + 0x1_0000_0000 * hi == (lo as u64) | ((hi as u64) << 32)) by (bit_vector);
    assert((a % 0x100) as u8 == a as u8 && (a / 0x100) as u8 == (a >> 8) as u8 && (b % 0x100) as u8
        == b as u8 && (b / 0x100 % 0x100) as u8 == (b >> 8) as u8 && (b / 0x1_0000 % 0x100) as u8
        == (b >> 16) as u8 && (b / 0x100_0000) as u8 == (b >> 24) as u8 && (c % 0x1_0000_0000)
        as u32 == c as u32 && (c / 0x1_0000_0000) as u32 == (c >> 32) as u32) by (bit_vector);
}

/// The other order has the highest byte first.
pub proof fn highest_byte_first(s: Seq<u8>, i: int)
    ensures
        bytes::u32_be_at(s, i) == 0x100_0000 * s[i] + 0x1_0000 * s[i + 1] + 0x100 * s[i + 2] + s[i
            + 3],
{
    reveal(bytes::u32_be_at);
}

/// A signed number differs from the unsigned one with the same bits by nothing
/// or by the number of values.
pub proof fn signs_change_by_the_modulus(a: u8, b: u16, c: u32, d: u64)
    ensures
        bytes::i8_of(a) == a || bytes::i8_of(a) == a - 0x100,
        bytes::i16_of(b) == b || bytes::i16_of(b) == b - 0x1_0000,
        bytes::i32_of(c) == c || bytes::i32_of(c) == c - 0x1_0000_0000,
        bytes::i64_of(d) == d || bytes::i64_of(d) == d - 0x1_0000_0000_0000_0000,
        bytes::u8_of(bytes::i8_of(a)) == a,
        bytes::u16_of(bytes::i16_of(b)) == b,
        bytes::u32_of(bytes::i32_of(c)) == c,
        bytes::u64_of(bytes::i64_of(d)) == d,
{
}

/// Cutting a number to 32 or 16 bits takes off a multiple of the modulus.
pub proof fn cutting_takes_off_multiples(n: int)
    ensures
        (n - bytes::low32(n)) % 0x1_0000_0000 == 0,
        (n - bytes::low16(n)) % 0x1_0000 == 0,
        (n - bytes::wrapped32(n)) % 0x1_0000_0000 == 0,
        i32::MIN <= n <= i32::MAX ==> bytes::wrapped32(n) == n,
{
}

/// Padding brings a length to the next multiple of the alignment.
pub proof fn padding_fills_up(len: int, alignment: int)
    requires
        0 <= len,
        0 < alignment,
    ensures
        bytes::padding(len, alignment) < alignment,
        (len + bytes::padding(len, alignment)) % alignment == 0,
{
    let r = len % alignment;
    let q = len / alignment;
    vstd::arithmetic::div_mod::lemma_fundamental_div_mod(len, alignment);
    vstd::arithmetic::div_mod::lemma_mod_bound(len, alignment);
    if r != 0 {
        assert(len + (alignment - r) == (q + 1) * alignment) by (nonlinear_arith)
            requires
                len == alignment * q + r,
        ;
        vstd::arithmetic::div_mod::lemma_mod_multiples_basic(q + 1, alignment);
    }
}

/// A text that ends at its first zero has no zero, and goes as far as it can.
pub proof fn text_goes_up_to_a_zero(s: Seq<u8>)
    ensures
        ({
            let t = bytes::until_zero(s);
            &&& t.len() <= s.len()
            &&& t == s.take(t.len() as int)
            &&& forall|k: int| 0 <= k < t.len() ==> #[trigger] t[k] != 0
            &&& t.len() < s.len() ==> s[t.len() as int] == 0
        }),
{
    bytes::zero_from_found(s, 0);
    assert(s.take(s.len() as int) =~= s);
}

/// Overwriting puts the part where it belongs and changes nothing else.
pub proof fn overwriting_changes_the_part(s: Seq<u8>, at: int, part: Seq<u8>)
    requires
        0 <= at,
        at + part.len() <= s.len(),
    ensures
        bytes::overwrite(s, at, part).len() == s.len(),
        forall|i: int|
            0 <= i < part.len() ==> #[trigger] bytes::overwrite(s, at, part)[at + i] == part[i],
        forall|i: int|
            0 <= i < s.len() && !(at <= i < at + part.len()) ==> #[trigger] bytes::overwrite(
                s,
                at,
                part,
            )[i] == s[i],
{
}

/// A compressed number below `2^7` is one byte, one below `2^14` two bytes with
/// the marks `10` in front, and one below `2^29` four bytes with the marks `11`,
/// highest byte first.
pub proof fn compressed_numbers(v: u32)
    ensures
        v < 0x80 ==> io::compressed_u32_bytes(v) == seq![v as u8],
        0x80 <= v < 0x4000 ==> io::compressed_u32_bytes(v) == seq![(0x80 | (v >> 8)) as u8, v as u8],
        0x4000 <= v < 0x2000_0000 ==> io::compressed_u32_bytes(v) == seq![
            (0xC0 | (v >> 24)) as u8,
            (v >> 16) as u8,
            (v >> 8) as u8,
            v as u8,
        ],
{
    reveal(io::compressed_u32_bytes);
    assert((v < 0x4000 ==> (0x80 + v / 0x100) as u8 == (0x80 | (v >> 8)) as u8) && (v % 0x100) as u8
        == v as u8 && (v < 0x2000_0000 ==> (0xC0 + v / 0x100_0000 % 0x40) as u8 == (0xC0 | (v
        >> 24)) as u8) && (v / 0x1_0000 % 0x100) as u8 == (v >> 16) as u8 && (v / 0x100 % 0x100)
        as u8 == (v >> 8) as u8) by (bit_vector);
}

/// A compressed number is read by the marks in its first byte.
pub proof fn compressed_numbers_are_read(s: Seq<u8>, i: int)
    requires
        0 <= i < s.len(),
    ensures
        s[i] & 0x80 == 0 ==> io::compressed_u32_at(s, i) == Some((s[i] as u32, 1int)),
        s[i] & 0xC0 == 0x80 && i + 1 < s.len() ==> io::compressed_u32_at(s, i) == Some(
            ((((s[i] & 0x3F) as u32) << 8) | (s[i + 1] as u32), 2int),
        ),
        s[i] & 0xC0 == 0xC0 && i + 3 < s.len() ==> io::compressed_u32_at(s, i) == Some(
            (
                (((s[i] & 0x3F) as u32) << 24) | ((s[i + 1] as u32) << 16) | ((s[i + 2] as u32)
                    << 8) | (s[i + 3] as u32),
                4int,
            ),
        ),
        s[i] & 0xC0 == 0x80 && i + 1 >= s.len() ==> io::compressed_u32_at(s, i) is None,
        s[i] & 0xC0 == 0xC0 && i + 3 >= s.len() ==> io::compressed_u32_at(s, i) is None,
{
    reveal(io::compressed_u32_at);
    let (a, b, c, d) = (s[i], s[i + 1], s[i + 2], s[i + 3]);
    assert(((a & 0x80 == 0) == (a < 0x80)) && ((a & 0xC0 == 0x80) == (0x80 <= a < 0xC0)) && ((a
        & 0xC0 == 0xC0) == (a >= 0xC0)) && (a & 0xC0 == 0x80 ==> (a - 0x80) * 0x100 + b == (((a
        & 0x3F) as u32) << 8) | (b as u32)) && (a & 0xC0 == 0xC0 ==> (a - 0xC0) * 0x100_0000 + b
        * 0x1_0000 + c * 0x100 + d == (((a & 0x3F) as u32) << 24) | ((b as u32) << 16) | ((c
        as u32) << 8) | (d as u32))) by (bit_vector);
}

/// A compressed signed number is the compressed form of the number, as so many
/// bits as there is room for, with the sign behind it.
pub proof fn compressed_signed_numbers(v: i32)
    ensures
        ({
            let b = io::compressed_i32_bytes(v);
            &&& -0x40 <= v < 0x40 ==> b.len() == 1 && b[0] < 0x80 && b[0] % 2 == if v < 0 {
                1u8
            } else {
                0
            } && (b[0] / 2 == v || b[0] / 2 == v + 0x40)
            &&& (-0x2000 <= v < 0x2000 && !(-0x40 <= v < 0x40)) ==> b.len() == 2 && 0x80 <= b[0]
                < 0xC0 && b[1] % 2 == if v < 0 {
                1u8
            } else {
                0
            } && ((b[0] - 0x80) * 0x80 + b[1] / 2 == v || (b[0] - 0x80) * 0x80 + b[1] / 2 == v
                + 0x2000)
            &&& (-0x1000_0000 <= v < 0x1000_0000 && !(-0x2000 <= v < 0x2000)) ==> b.len() == 4
                && b[0] >= 0xC0 && b[3] % 2 == if v < 0 {
                1u8
            } else {
                0
            } && ({
                let n = (b[0] - 0xC0) * 0x80_0000 + b[1] * 0x8000 + b[2] * 0x80 + b[3] / 2;
                n == v || n == v + 0x1000_0000
            })
        }),
{
    reveal(io::compressed_i32_bytes);
    if !(-0x2000 <= v < 0x2000) && -0x1000_0000 <= v < 0x1000_0000 {
        let n = io::rotated(v, 0x1000_0000);
        assert(n < 0x2000_0000);
        let b = io::compressed_i32_bytes(v);
        assert(n == (b[0] - 0xC0) * 0x100_0000 + b[1] * 0x1_0000 + b[2] * 0x100 + b[3]);
    }
}

/// The value of a digit.
pub open spec fn digit_value(c: char) -> int {
    let v = c as int;
    if 0x30 <= v <= 0x39 {
        v - 0x30
    } else if 0x41 <= v <= 0x46 {
        v - 0x37
    } else if 0x61 <= v <= 0x66 {
        v - 0x57
    } else {
        -1
    }
}

/// The value of a numeral with the base.
pub open spec fn numeral_value(t: Seq<char>, base: int) -> int
    decreases t.len(),
{
    if t.len() == 0 {
        0
    } else {
        base * numeral_value(t.drop_last(), base) + digit_value(t.last())
    }
}

/// Every character is a digit of the base.
pub open spec fn all_digits(t: Seq<char>, base: int) -> bool {
    forall|i: int| 0 <= i < t.len() ==> 0 <= digit_value(#[trigger] t[i]) < base
}

/// No character is a lower-case letter.
pub open spec fn upper_case(t: Seq<char>) -> bool {
    forall|i: int| 0 <= i < t.len() ==> (#[trigger] t[i] as int) < 0x61
}

/// No character is an upper-case letter.
pub open spec fn lower_case(t: Seq<char>) -> bool {
    forall|i: int|
        0 <= i < t.len() ==> (#[trigger] t[i] as int) < 0x41 || (t[i] as int) >= 0x61
}

/// A decimal numeral has only digits, no zero in front, and the value that it was
/// made for.
pub proof fn decimal_has_its_value(v: nat)
    ensures
        numeral_value(text::decimal(v), 10) == v,
        all_digits(text::decimal(v), 10),
        text::decimal(v).len() >= 1,
        v > 0 ==> text::decimal(v)[0] != '0',
    decreases v,
{
    let t = text::decimal(v);
    if v < 10 {
        assert(t.drop_last() =~= Seq::empty());
        assert(numeral_value(t.drop_last(), 10) == 0);
    } else {
        decimal_has_its_value(v / 10);
        assert(t.drop_last() =~= text::decimal(v / 10));
        assert(t[0] == text::decimal(v / 10)[0]);
    }
}

/// A negative number has a minus sign in front of its decimal digits.
pub proof fn signed_decimal_has_its_value(v: int)
    ensures
        v >= 0 ==> numeral_value(text::signed_decimal(v), 10) == v && all_digits(
            text::signed_decimal(v),
            10,
        ),
        v < 0 ==> text::signed_decimal(v)[0] == '-' && numeral_value(
            text::signed_decimal(v).drop_first(),
            10,
        ) == -v && all_digits(text::signed_decimal(v).drop_first(), 10),
{
    if v < 0 {
        decimal_has_its_value((-v) as nat);
        assert(text::signed_decimal(v).drop_first() =~= text::decimal((-v) as nat));
    } else {
        decimal_has_its_value(v as nat);
    }
}

/// The power of sixteen.
pub open spec fn power_of_sixteen(n: nat) -> int
    decreases n,
{
    if n == 0 {
        1
    } else {
        16 * power_of_sixteen((n - 1) as nat)
    }
}

/// A hexadecimal numeral of fixed width has this width, upper-case digits, and the
/// value that it was made for.
pub proof fn hex_digits_have_their_value(v: u32, n: nat)
    requires
        v < power_of_sixteen(n),
    ensures
        text::hex_digits(v, n).len() == n,
        numeral_value(text::hex_digits(v, n), 16) == v,
        all_digits(text::hex_digits(v, n), 16),
        upper_case(text::hex_digits(v, n)),
    decreases n,
{
    if n > 0 {
        hex_digits_have_their_value(v / 16, (n - 1) as nat);
        let t = text::hex_digits(v, n);
        assert(t.drop_last() =~= text::hex_digits(v / 16, (n - 1) as nat));
    }
}

/// A hexadecimal numeral has lower-case digits, no zero in front, and the value
/// that it was made for.
pub proof fn lower_hex_has_its_value(v: nat)
    ensures
        numeral_value(text::lower_hex(v), 16) == v,
        all_digits(text::lower_hex(v), 16),
        lower_case(text::lower_hex(v)),
        text::lower_hex(v).len() >= 1,
        v > 0 ==> text::lower_hex(v)[0] != '0',
    decreases v,
{
    let t = text::lower_hex(v);
    if v < 16 {
        assert(t.drop_last() =~= Seq::empty());
        assert(numeral_value(t.drop_last(), 16) == 0);
    } else {
        lower_hex_has_its_value(v / 16);
        assert(t.drop_last() =~= text::lower_hex(v / 16));
        assert(t[0] == text::lower_hex(v / 16)[0]);
    }
}

proof fn zeros_add_nothing(n: nat, t: Seq<char>, base: int)
    requires
        t.len() >= 1,
    ensures
        numeral_value(Seq::new(n, |i: int| '0') + t, base) == numeral_value(t, base),
    decreases t.len(),
{
    let z = Seq::new(n, |i: int| '0');
    assert((z + t).drop_last() =~= z + t.drop_last());
    assert((z + t).last() == t.last());
    if t.len() > 1 {
        zeros_add_nothing(n, t.drop_last(), base);
    } else {
        zeros_are_nothing(n, base);
        assert(z + t.drop_last() =~= z);
        assert(numeral_value(t.drop_last(), base) == 0);
    }
}

proof fn zeros_are_nothing(n: nat, base: int)
    ensures
        numeral_value(Seq::new(n, |i: int| '0'), base) == 0,
    decreases n,
{
    if n > 0 {
        let z = Seq::new(n, |i: int| '0');
        zeros_are_nothing((n - 1) as nat, base);
        assert(z.drop_last() =~= Seq::new((n - 1) as nat, |i: int| '0'));
        assert(base * 0 == 0) by (nonlinear_arith);
    }
}

/// A padded numeral is filled up with zeros to its width.
pub proof fn padded_hex_has_its_value(v: nat, n: nat)
    ensures
        numeral_value(text::lower_hex_padded(v, n), 16) == v,
        text::lower_hex_padded(v, n).len() >= n,
        text::lower_hex_padded(v, n).len() > n && n > 0 ==> text::lower_hex_padded(v, n)[0] != '0',
{
    lower_hex_has_its_value(v);
    let t = text::lower_hex(v);
    if t.len() < n {
        zeros_add_nothing((n - t.len()) as nat, t, 16);
    }
}

/// A character beyond the basic plane is two units, each with ten of its bits.
pub proof fn surrogates(c: char)
    ensures
        (c as u32) < 0x1_0000 ==> text::utf16_units(c) == seq![c as u16],
        (c as u32) >= 0x1_0000 ==> text::utf16_units(c).len() == 2 && 0xD800 <= text::utf16_units(
            c,
        )[0] < 0xDC00 && 0xDC00 <= text::utf16_units(c)[1] < 0xE000 && (text::utf16_units(c)[0]
            - 0xD800) * 0x400 + (text::utf16_units(c)[1] - 0xDC00) + 0x1_0000 == c as u32,
{
}

} // verus!
