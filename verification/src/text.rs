//! Text helpers: the calls into std's string functions, and digits.

use vstd::prelude::*;

use crate::bytes;

verus! {

/// What `String::from_utf8_lossy` makes of bytes.
pub uninterp spec fn utf8_lossy(b: Seq<u8>) -> Seq<char>;

/// The text of `b`: its characters where it is valid UTF-8, and what
/// `String::from_utf8_lossy` makes of it otherwise.
pub open spec fn lossy_text(b: Seq<u8>) -> Seq<char> {
    if vstd::utf8::valid_utf8(b) {
        vstd::utf8::decode_utf8(b)
    } else {
        utf8_lossy(b)
    }
}

/// The text of `b` where it is valid UTF-8.
pub open spec fn strict_text(b: Seq<u8>) -> Option<Seq<char>> {
    if vstd::utf8::valid_utf8(b) {
        Some(vstd::utf8::decode_utf8(b))
    } else {
        None
    }
}

/// The bytes of a text.
pub open spec fn utf8(t: Seq<char>) -> Seq<u8> {
    vstd::utf8::encode_utf8(t)
}

/// Text that was written as UTF-8 reads back, strictly or not.
pub proof fn utf8_round_trip(t: Seq<char>)
    ensures
        strict_text(utf8(t)) == Some(t),
        lossy_text(utf8(t)) == t,
{
    vstd::utf8::encode_utf8_valid_utf8(t);
    vstd::utf8::encode_utf8_decode_utf8(t);
}

/// Two texts with the same bytes are the same.
pub proof fn utf8_injective(a: Seq<char>, b: Seq<char>)
    requires
        utf8(a) == utf8(b),
    ensures
        a == b,
{
    utf8_round_trip(a);
    utf8_round_trip(b);
}

/// What the error of `std::str::from_utf8` says of bytes that are not valid
/// UTF-8.
pub uninterp spec fn utf8_failure(b: Seq<u8>) -> Seq<char>;

/// Reads bytes as UTF-8 text.
///
/// Calls `std::str::from_utf8`, which accepts exactly the valid UTF-8
/// sequences and gives the characters that they encode. On other bytes the
/// text of its error is a function of the bytes that is named and not
/// described.
#[verifier::external_body]
pub(crate) fn from_utf8<'a>(b: &'a [u8]) -> (r: Result<&'a str, String>)
    ensures
        match r {
            Ok(t) => vstd::utf8::valid_utf8(b@) && t@ == vstd::utf8::decode_utf8(b@),
            Err(e) => !vstd::utf8::valid_utf8(b@) && e@ == utf8_failure(b@),
        },
{
    match std::str::from_utf8(b) {
        Ok(t) => Ok(t),
        Err(e) => Err(format!("{}", e)),
    }
}

/// Reads bytes as UTF-8 text, with replacement characters where they are not.
///
/// Calls `String::from_utf8_lossy`: on valid UTF-8 it gives the characters
/// that are encoded; on other bytes its result is a function of the bytes
/// that is named and not described.
#[verifier::external_body]
pub(crate) fn from_utf8_lossy(b: &[u8]) -> (s: String)
    ensures
        s@ == if vstd::utf8::valid_utf8(b@) {
            vstd::utf8::decode_utf8(b@)
        } else {
            utf8_lossy(b@)
        },
{
    String::from_utf8_lossy(b).into_owned()
}

/// What `str::to_uppercase` makes of a text.
pub uninterp spec fn uppercased(t: Seq<char>) -> Seq<char>;

/// The text in upper case.
///
/// Calls `str::to_uppercase`, which maps the characters by Unicode's
/// locale-independent rules: its result is a function of the text that is
/// named and not described.
#[verifier::external_body]
pub(crate) fn to_uppercase(t: &str) -> (s: String)
    ensures
        s@ == uppercased(t@),
{
    t.to_uppercase()
}

/// The character with a scalar value.
///
/// Calls `char::from_u32`, which gives a character exactly for the Unicode
/// scalar values.
#[verifier::external_body]
pub(crate) fn char_of(u: u32) -> (r: Option<char>)
    ensures
        r is Some <==> vstd::utf8::is_scalar(u),
        r is Some ==> r->Some_0 as u32 == u,
{
    char::from_u32(u)
}

/// Compares two texts.
pub(crate) fn same(a: &str, b: &str) -> (r: bool)
    ensures
        r == (a@ == b@),
{
    let r: bool = bytes::same_bytes(a.as_bytes(), b.as_bytes());
    proof {
        if r {
            utf8_injective(a@, b@);
        }
    }
    r
}

/// The characters of a text.
pub(crate) fn chars_of(s: &str) -> (v: Vec<char>)
    ensures
        v@ == s@,
{
    let mut v: Vec<char> = Vec::new();
    for c in it: s.chars()
        invariant
            it.seq() == s@,
            v@ == s@.take(it.index() as int),
    {
        v.push(c);
    }
    proof {
        assert(s@.take(s@.len() as int) =~= s@);
    }
    v
}

/// The UTF-16 units of one character.
pub open spec fn utf16_units(c: char) -> Seq<u16> {
    let v = c as u32;
    if v < 0x1_0000 {
        seq![v as u16]
    } else {
        seq![
            (0xD800 + (v - 0x1_0000) / 0x400) as u16,
            (0xDC00 + (v - 0x1_0000) % 0x400) as u16,
        ]
    }
}

/// The UTF-16 units of a text.
pub open spec fn utf16(t: Seq<char>) -> Seq<u16>
    decreases t.len(),
{
    if t.len() == 0 {
        Seq::empty()
    } else {
        utf16_units(t[0]) + utf16(t.drop_first())
    }
}

/// The text of UTF-16 units, where every surrogate has its partner.
pub open spec fn utf16_text(u: Seq<u16>) -> Option<Seq<char>>
    decreases u.len(),
{
    if u.len() == 0 {
        Some(Seq::empty())
    } else if u[0] < 0xD800 || u[0] > 0xDFFF {
        match utf16_text(u.drop_first()) {
            Some(rest) => Some(seq![u[0] as char] + rest),
            None => None,
        }
    } else if u[0] < 0xDC00 && u.len() >= 2 && 0xDC00 <= u[1] <= 0xDFFF {
        match utf16_text(u.skip(2)) {
            Some(rest) => Some(
                seq![(0x1_0000 + (u[0] - 0xD800) * 0x400 + (u[1] - 0xDC00)) as char] + rest,
            ),
            None => None,
        }
    } else {
        None
    }
}

/// Text that was written as UTF-16 reads back.
pub proof fn utf16_round_trip(t: Seq<char>)
    ensures
        utf16_text(utf16(t)) == Some(t),
    decreases t.len(),
{
    if t.len() == 0 {
        assert(t =~= Seq::<char>::empty());
    } else {
        utf16_round_trip(t.drop_first());
        vstd::utf8::char_is_scalar(t[0]);
        vstd::utf8::char_u32_cast(t[0], t[0] as u32);
        let u = utf16(t);
        let head = utf16_units(t[0]);
        assert(u.skip(head.len() as int) =~= utf16(t.drop_first()));
        assert(u.drop_first() =~= u.skip(1));
        assert(u[0] == head[0]);
        if head.len() == 2 {
            assert(u[1] == head[1]);
        }
        assert(seq![t[0]] + t.drop_first() =~= t);
    }
}

proof fn utf16_append(t: Seq<char>, c: char)
    ensures
        utf16(t.push(c)) == utf16(t) + utf16_units(c),
    decreases t.len(),
{
    if t.len() == 0 {
        assert(t.push(c).drop_first() =~= Seq::<char>::empty());
        assert(utf16(Seq::<char>::empty()) =~= Seq::<u16>::empty());
        assert(utf16(t) =~= Seq::<u16>::empty());
        assert(utf16(t.push(c)) =~= utf16_units(c));
    } else {
        utf16_append(t.drop_first(), c);
        assert(t.push(c).drop_first() =~= t.drop_first().push(c));
        assert(utf16(t.push(c)) =~= utf16(t) + utf16_units(c));
    }
}

/// The UTF-16 units of a text.
pub(crate) fn encode_utf16(s: &str) -> (u: Vec<u16>)
    ensures
        u@ == utf16(s@),
{
    let cs = chars_of(s);
    let n: usize = cs.len();
    let mut u: Vec<u16> = Vec::new();
    let mut i: usize = 0;
    while i < n
        invariant
            i <= n,
            n == cs@.len(),
            cs@ == s@,
            u@ == utf16(s@.take(i as int)),
        decreases n - i,
    {
        let c: char = cs[i];
        let v: u32 = c as u32;
        proof {
            utf16_append(s@.take(i as int), c);
            assert(s@.take(i + 1) =~= s@.take(i as int).push(c));
        }
        if v < 0x1_0000 {
            u.push(v as u16);
        } else {
            u.push((0xD800 + (v - 0x1_0000) / 0x400) as u16);
            u.push((0xDC00 + (v - 0x1_0000) % 0x400) as u16);
        }
        i += 1;
    }
    proof {
        assert(s@.take(n as int) =~= s@);
    }
    u
}

/// The text of UTF-16 units.
pub(crate) fn decode_utf16(u: &Vec<u16>) -> (r: Option<String>)
    ensures
        match utf16_text(u@) {
            Some(t) => r is Some && r->Some_0@ == t,
            None => r is None,
        },
{
    let n: usize = u.len();
    let mut s: String = String::new();
    let mut i: usize = 0;
    proof {
        assert(u@.skip(0) =~= u@);
        if let Some(t) = utf16_text(u@) {
            assert(s@ + t =~= t);
        }
    }
    while i < n
        invariant
            i <= n,
            n == u@.len(),
            utf16_text(u@) == (match utf16_text(u@.skip(i as int)) {
                Some(rest) => Some(s@ + rest),
                None => None,
            }),
        decreases n - i,
    {
        let a: u16 = u[i];
        let ghost rest = u@.skip(i as int);
        proof {
            assert(rest[0] == a);
            assert(rest.drop_first() =~= u@.skip(i + 1));
            if i + 2 <= n {
                assert(rest[1] == u@[i + 1]);
                assert(rest.skip(2) =~= u@.skip(i + 2));
            }
        }
        if a < 0xD800 || a > 0xDFFF {
            match char_of(a as u32) {
                Some(c) => {
                    proof {
                        vstd::utf8::char_u32_cast(c, a as u32);
                        assert(a as char == c);
                        if let Some(t) = utf16_text(u@.skip(i + 1)) {
                            assert(s@ + (seq![c] + t) =~= s@.push(c) + t);
                        }
                    }
                    push_char(&mut s, c);
                },
                None => {
                    return None;
                },
            }
            i += 1;
        } else if a < 0xDC00 && n - i >= 2 && u[i + 1] >= 0xDC00 && u[i + 1] <= 0xDFFF {
            let v: u32 = 0x1_0000 + (a as u32 - 0xD800) * 0x400 + (u[i + 1] as u32 - 0xDC00);
            match char_of(v) {
                Some(c) => {
                    proof {
                        vstd::utf8::char_u32_cast(c, v);
                        if let Some(t) = utf16_text(u@.skip(i + 2)) {
                            assert(s@ + (seq![c] + t) =~= s@.push(c) + t);
                        }
                    }
                    push_char(&mut s, c);
                },
                None => {
                    return None;
                },
            }
            i += 2;
        } else {
            return None;
        }
    }
    proof {
        assert(u@.skip(n as int) =~= Seq::<u16>::empty());
        assert(s@ + Seq::<char>::empty() =~= s@);
    }
    Some(s)
}

/// Appends a character.
///
/// Calls `String::push`, which appends the character at the end.
#[verifier::external_body]
pub(crate) fn push_char(s: &mut String, c: char)
    ensures
        final(s)@ == old(s)@.push(c),
{
    s.push(c)
}

/// Appends a string.
pub(crate) fn push_text(s: &mut String, t: &str)
    ensures
        final(s)@ == old(s)@ + t@,
{
    s.append(t);
}

/// The upper-case hexadecimal digit of `d`.
pub open spec fn hex_digit(d: u32) -> char {
    if d == 0 { '0' }
    else if d == 1 { '1' }
    else if d == 2 { '2' }
    else if d == 3 { '3' }
    else if d == 4 { '4' }
    else if d == 5 { '5' }
    else if d == 6 { '6' }
    else if d == 7 { '7' }
    else if d == 8 { '8' }
    else if d == 9 { '9' }
    else if d == 10 { 'A' }
    else if d == 11 { 'B' }
    else if d == 12 { 'C' }
    else if d == 13 { 'D' }
    else if d == 14 { 'E' }
    else { 'F' }
}

/// The lowest `n` hexadecimal digits of `v`, highest first.
pub open spec fn hex_digits(v: u32, n: nat) -> Seq<char>
    decreases n,
{
    if n == 0 {
        Seq::empty()
    } else {
        hex_digits(v / 16, (n - 1) as nat).push(hex_digit(v % 16))
    }
}

fn hex_char(d: u32) -> (c: char)
    requires
        d < 16,
    ensures
        c == hex_digit(d),
{
    match d {
        0 => '0',
        1 => '1',
        2 => '2',
        3 => '3',
        4 => '4',
        5 => '5',
        6 => '6',
        7 => '7',
        8 => '8',
        9 => '9',
        10 => 'A',
        11 => 'B',
        12 => 'C',
        13 => 'D',
        14 => 'E',
        _ => 'F',
    }
}

/// Appends the lowest `n` hexadecimal digits of `v`.
pub(crate) fn push_hex(s: &mut String, v: u32, n: u32)
    ensures
        final(s)@ == old(s)@ + hex_digits(v, n as nat),
    decreases n,
{
    if n > 0 {
        push_hex(s, v / 16, n - 1);
        push_char(s, hex_char(v % 16));
    }
}

/// The decimal digit of `d`.
pub open spec fn digit(d: nat) -> char {
    hex_digit(d as u32)
}

/// The decimal digits of `v`, highest first.
pub open spec fn decimal(v: nat) -> Seq<char>
    decreases v,
{
    if v < 10 {
        seq![digit(v)]
    } else {
        decimal(v / 10).push(digit(v % 10))
    }
}

/// The decimal digits of `v`, behind a minus sign where it is negative.
pub open spec fn signed_decimal(v: int) -> Seq<char> {
    if v < 0 {
        seq!['-'] + decimal((-v) as nat)
    } else {
        decimal(v as nat)
    }
}

fn push_digits(s: &mut String, v: u128)
    ensures
        final(s)@ == old(s)@ + decimal(v as nat),
    decreases v,
{
    if v >= 10 {
        push_digits(s, v / 10);
    }
    push_char(s, hex_char((v % 10) as u32));
}

/// Appends the decimal digits of `v`.
pub(crate) fn push_decimal(s: &mut String, v: u64)
    ensures
        final(s)@ == old(s)@ + decimal(v as nat),
{
    push_digits(s, v as u128);
}

/// Appends the decimal digits of `v`, behind a minus sign where it is negative.
pub(crate) fn push_signed(s: &mut String, v: i128)
    requires
        v > i128::MIN,
    ensures
        final(s)@ == old(s)@ + signed_decimal(v as int),
{
    if v < 0 {
        push_char(s, '-');
        push_digits(s, (-v) as u128);
    } else {
        push_digits(s, v as u128);
    }
}

/// The lower-case hexadecimal digit of `d`.
pub open spec fn lower_hex_digit(d: nat) -> char {
    if d < 10 {
        hex_digit(d as u32)
    } else if d == 10 {
        'a'
    } else if d == 11 {
        'b'
    } else if d == 12 {
        'c'
    } else if d == 13 {
        'd'
    } else if d == 14 {
        'e'
    } else {
        'f'
    }
}

/// The lower-case hexadecimal digits of `v`, highest first.
pub open spec fn lower_hex(v: nat) -> Seq<char>
    decreases v,
{
    if v < 16 {
        seq![lower_hex_digit(v)]
    } else {
        lower_hex(v / 16).push(lower_hex_digit(v % 16))
    }
}

/// The lower-case hexadecimal digits of `v`, behind zeros up to `n` digits.
pub open spec fn lower_hex_padded(v: nat, n: nat) -> Seq<char> {
    let digits = lower_hex(v);
    if digits.len() < n {
        Seq::new((n - digits.len()) as nat, |i: int| '0') + digits
    } else {
        digits
    }
}

fn lower_hex_char(d: u32) -> (c: char)
    requires
        d < 16,
    ensures
        c == lower_hex_digit(d as nat),
{
    match d {
        10 => 'a',
        11 => 'b',
        12 => 'c',
        13 => 'd',
        14 => 'e',
        15 => 'f',
        _ => hex_char(d),
    }
}

/// Appends the lower-case hexadecimal digits of `v`.
pub(crate) fn push_lower_hex(s: &mut String, v: u64)
    ensures
        final(s)@ == old(s)@ + lower_hex(v as nat),
    decreases v,
{
    if v >= 16 {
        push_lower_hex(s, v / 16);
    }
    push_char(s, lower_hex_char((v % 16) as u32));
}

/// How many hexadecimal digits `v` has.
fn lower_hex_len(v: u64) -> (n: u64)
    ensures
        n == lower_hex(v as nat).len(),
        n <= v + 1,
    decreases v,
{
    if v < 16 {
        1
    } else {
        lower_hex_len(v / 16) + 1
    }
}

/// Appends the lower-case hexadecimal digits of `v`, behind zeros up to `n`
/// digits.
pub(crate) fn push_lower_hex_padded(s: &mut String, v: u64, n: usize)
    ensures
        final(s)@ == old(s)@ + lower_hex_padded(v as nat, n as nat),
{
    let digits: u64 = lower_hex_len(v);
    let mut i: u64 = digits;
    proof {
        assert(s@ =~= old(s)@ + Seq::new(0, |k: int| '0'));
    }
    while i < n as u64
        invariant
            digits <= i,
            i <= n || i == digits,
            s@ == old(s)@ + Seq::new((i - digits) as nat, |k: int| '0'),
        decreases n - i,
    {
        push_char(s, '0');
        i += 1;
        proof {
            assert(s@ =~= old(s)@ + Seq::new((i - digits) as nat, |k: int| '0'));
        }
    }
    push_lower_hex(s, v);
    proof {
        assert(s@ =~= old(s)@ + lower_hex_padded(v as nat, n as nat));
    }
}

/// What std's `Debug` makes of a text: the text in quotes, with escapes.
pub uninterp spec fn quoted(t: Seq<char>) -> Seq<char>;

/// The text in quotes, with escapes.
///
/// Calls the `Debug` formatting of `str`: its result is a function of the text
/// that is named and not described.
#[verifier::external_body]
pub(crate) fn quote(t: &str) -> (s: String)
    ensures
        s@ == quoted(t@),
{
    format!("{:?}", t)
}

/// A text that is put together from words and numbers.
pub(crate) struct Message {
    text: String,
}

impl View for Message {
    type V = Seq<char>;

    closed spec fn view(&self) -> Seq<char> {
        self.text@
    }
}

impl Message {
    /// The text so far.
    pub(crate) fn as_str(&self) -> (t: &str)
        ensures
            t@ == self@,
    {
        self.text.as_str()
    }

    /// A message that starts with `t`.
    pub(crate) fn new(t: &str) -> (m: Message)
        ensures
            m@ == t@,
    {
        Message { text: t.to_owned() }
    }

    /// Goes on with a text.
    pub(crate) fn text(self, t: &str) -> (m: Message)
        ensures
            m@ == self@ + t@,
    {
        let mut text: String = self.text;
        push_text(&mut text, t);
        Message { text }
    }

    /// Goes on with a text in quotes.
    pub(crate) fn quoted(self, t: &str) -> (m: Message)
        ensures
            m@ == self@ + quoted(t@),
    {
        let q: String = quote(t);
        self.text(q.as_str())
    }

    /// Goes on with a number that is not negative.
    pub(crate) fn count(self, v: u64) -> (m: Message)
        ensures
            m@ == self@ + decimal(v as nat),
    {
        let mut text: String = self.text;
        push_decimal(&mut text, v);
        Message { text }
    }

    /// Goes on with a number.
    pub(crate) fn number(self, v: i64) -> (m: Message)
        ensures
            m@ == self@ + signed_decimal(v as int),
    {
        let mut text: String = self.text;
        push_signed(&mut text, v as i128);
        Message { text }
    }

    /// Goes on with a number of any size.
    pub(crate) fn wide_number(self, v: i128) -> (m: Message)
        requires
            v > i128::MIN,
        ensures
            m@ == self@ + signed_decimal(v as int),
    {
        let mut text: String = self.text;
        push_signed(&mut text, v);
        Message { text }
    }

    /// Goes on with lower-case hexadecimal digits.
    pub(crate) fn hex(self, v: u64) -> (m: Message)
        ensures
            m@ == self@ + lower_hex(v as nat),
    {
        let mut text: String = self.text;
        push_lower_hex(&mut text, v);
        Message { text }
    }

    /// Goes on with lower-case hexadecimal digits, behind zeros up to `n`
    /// digits.
    pub(crate) fn hex_padded(self, v: u64, n: usize) -> (m: Message)
        ensures
            m@ == self@ + lower_hex_padded(v as nat, n as nat),
    {
        let mut text: String = self.text;
        push_lower_hex_padded(&mut text, v, n);
        Message { text }
    }

    /// Goes on with the lowest `n` upper-case hexadecimal digits.
    pub(crate) fn upper_hex(self, v: u32, n: u32) -> (m: Message)
        ensures
            m@ == self@ + hex_digits(v, n as nat),
    {
        let mut text: String = self.text;
        push_hex(&mut text, v, n);
        Message { text }
    }
}

} // verus!
