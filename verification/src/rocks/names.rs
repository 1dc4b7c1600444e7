//! The pieces that names of types are made of.

use vstd::prelude::*;

use crate::model::types::TypeId;
use crate::model::Module;
use crate::text;

verus! {

/// The texts with the separator between them.
pub open spec fn joined(texts: Seq<Seq<char>>, separator: Seq<char>) -> Seq<char>
    decreases texts.len(),
{
    if texts.len() == 0 {
        Seq::empty()
    } else if texts.len() == 1 {
        texts[0]
    } else {
        joined(texts.drop_last(), separator) + separator + texts.last()
    }
}

/// Texts.
pub open spec fn text_views(texts: Seq<String>) -> Seq<Seq<char>> {
    Seq::new(texts.len(), |k: int| texts[k]@)
}

/// Joining one text more.
pub(crate) proof fn joined_more(texts: Seq<Seq<char>>, separator: Seq<char>, i: int)
    requires
        0 <= i < texts.len(),
    ensures
        joined(texts.take(i + 1), separator) == joined(texts.take(i), separator) + (if i > 0 {
            separator
        } else {
            Seq::empty()
        }) + texts[i],
        joined(texts.take(0), separator) == Seq::<char>::empty(),
{
    let more = texts.take(i + 1);
    assert(more.drop_last() =~= texts.take(i));
    assert(more.last() == texts[i]);
    if i == 0 {
        assert(joined(texts.take(0), separator) =~= Seq::empty());
        assert(joined(more, separator) =~= joined(texts.take(0), separator) + Seq::<char>::empty()
            + texts[0]);
    }
}

/// Appends the texts from `from` up to `to` with a comma between them.
pub(crate) fn push_joined(out: &mut String, texts: &Vec<String>, from: usize, to: usize)
    requires
        from <= to <= texts@.len(),
    ensures
        final(out)@ == old(out)@ + joined(
            text_views(texts@).subrange(from as int, to as int),
            ","@,
        ),
{
    let ghost part = text_views(texts@).subrange(from as int, to as int);
    let mut i: usize = from;
    proof {
        assert(part.take(0) =~= Seq::empty());
        assert(out@ =~= old(out)@ + joined(part.take(0), ","@));
    }
    while i < to
        invariant
            from <= i <= to <= texts@.len(),
            part == text_views(texts@).subrange(from as int, to as int),
            out@ == old(out)@ + joined(part.take(i - from), ","@),
        decreases to - i,
    {
        let ghost before = out@;
        proof {
            joined_more(part, ","@, i - from);
        }
        if i > from {
            text::push_text(out, ",");
        }
        text::push_text(out, texts[i].as_str());
        proof {
            assert(part[i - from] == texts@[i as int]@);
            assert(out@ =~= old(out)@ + joined(part.take(i - from + 1), ","@));
        }
        i += 1;
    }
    proof {
        assert(part.take(to - from) =~= part);
    }
}

/// Appends all texts with the separator between them.
pub(crate) fn push_all(out: &mut String, texts: &Vec<String>, separator: &str)
    ensures
        final(out)@ == old(out)@ + joined(text_views(texts@), separator@),
{
    let ghost all = text_views(texts@);
    let n: usize = texts.len();
    let mut i: usize = 0;
    proof {
        assert(all.take(0) =~= Seq::empty());
        assert(out@ =~= old(out)@ + joined(all.take(0), separator@));
    }
    while i < n
        invariant
            i <= n,
            n == texts@.len(),
            all == text_views(texts@),
            out@ == old(out)@ + joined(all.take(i as int), separator@),
        decreases n - i,
    {
        proof {
            joined_more(all, separator@, i as int);
        }
        if i > 0 {
            text::push_text(out, separator);
        }
        text::push_text(out, texts[i].as_str());
        proof {
            assert(out@ =~= old(out)@ + joined(all.take(i + 1), separator@));
        }
        i += 1;
    }
    proof {
        assert(all.take(n as int) =~= all);
    }
}

/// The declaring types of a defined type, outermost first, and the type
/// itself; `fuel` bounds how many there are.
pub open spec fn chain(m: Module, id: TypeId, fuel: nat) -> Seq<TypeId>
    decreases fuel,
{
    if fuel == 0 || id.0 >= m.types@.len() {
        Seq::empty()
    } else {
        match m.types@[id.0 as int].declaring_type {
            None => seq![id],
            Some(parent) => chain(m, parent, (fuel - 1) as nat).push(id),
        }
    }
}

/// The declaring types of a defined type come to an end.
pub open spec fn chain_ends(m: Module, id: TypeId, fuel: nat) -> bool
    decreases fuel,
{
    fuel > 0 && id.0 < m.types@.len() && match m.types@[id.0 as int].declaring_type {
        None => true,
        Some(parent) => chain_ends(m, parent, (fuel - 1) as nat),
    }
}

/// The declaring types of every type come to an end. (They do so within as
/// many steps as there are types, or never.)
pub open spec fn declaring_ends(m: Module) -> bool {
    forall|id: TypeId|
        id.0 < m.types@.len() ==> #[trigger] chain_ends(m, id, m.types@.len())
}

/// The types of a chain are there.
pub(crate) proof fn chain_in_range(m: Module, id: TypeId, fuel: nat)
    requires
        chain_ends(m, id, fuel),
    ensures
        chain(m, id, fuel).len() > 0,
        chain(m, id, fuel).last() == id,
        forall|k: int|
            0 <= k < chain(m, id, fuel).len() ==> (#[trigger] chain(m, id, fuel)[k]).0
                < m.types@.len(),
    decreases fuel,
{
    match m.types@[id.0 as int].declaring_type {
        None => {},
        Some(parent) => {
            chain_in_range(m, parent, (fuel - 1) as nat);
        },
    }
}

/// More fuel makes no difference to a chain that ends.
pub(crate) proof fn chain_settles(m: Module, id: TypeId, few: nat, many: nat)
    requires
        chain_ends(m, id, few),
        few <= many,
    ensures
        chain(m, id, few) == chain(m, id, many),
    decreases few,
{
    match m.types@[id.0 as int].declaring_type {
        None => {},
        Some(parent) => {
            chain_settles(m, parent, (few - 1) as nat, (many - 1) as nat);
        },
    }
}

fn chain_within(id: TypeId, m: &Module, Ghost(fuel): Ghost<nat>) -> (v: Vec<TypeId>)
    requires
        chain_ends(*m, id, fuel),
    ensures
        v@ == chain(*m, id, fuel),
    decreases fuel,
{
    let mut v: Vec<TypeId> = match m.types[id.index()].declaring_type {
        None => Vec::new(),
        Some(parent) => chain_within(parent, m, Ghost((fuel - 1) as nat)),
    };
    v.push(id);
    proof {
        assert(v@ =~= chain(*m, id, fuel));
    }
    v
}

/// Declaring chain of a defined type, outermost first (includes `id` itself).
pub(crate) fn def_chain(id: TypeId, m: &Module) -> (v: Vec<TypeId>)
    requires
        declaring_ends(*m),
        id.0 < m.types@.len(),
    ensures
        v@ == chain(*m, id, m.types@.len()),
        v@.len() > 0,
        forall|k: int| 0 <= k < v@.len() ==> (#[trigger] v@[k]).0 < m.types@.len(),
{
    proof {
        assert(chain_ends(*m, id, m.types@.len()));
        chain_in_range(*m, id, m.types@.len());
    }
    chain_within(id, m, Ghost(m.types@.len()))
}

/// The place of the last backtick of the first `n` characters.
pub open spec fn tick_before(t: Seq<char>, n: int) -> Option<int>
    decreases n,
{
    if n <= 0 || n > t.len() {
        None
    } else if t[n - 1] == '`' {
        Some(n - 1)
    } else {
        tick_before(t, n - 1)
    }
}

/// The place of the last backtick.
pub open spec fn last_tick(t: Seq<char>) -> Option<int> {
    tick_before(t, t.len() as int)
}

/// The last backtick lies in the text.
pub(crate) proof fn tick_in_range(t: Seq<char>, n: int)
    requires
        n <= t.len(),
    ensures
        tick_before(t, n) matches Some(k) ==> 0 <= k < n,
    decreases n,
{
    if n > 0 {
        tick_in_range(t, n - 1);
    }
}

pub(crate) fn find_tick(t: &Vec<char>) -> (r: Option<usize>)
    ensures
        match last_tick(t@) {
            Some(k) => r is Some && r->Some_0 == k && 0 <= k < t@.len(),
            None => r is None,
        },
{
    let mut n: usize = t.len();
    while n > 0
        invariant
            n <= t@.len(),
            last_tick(t@) == tick_before(t@, n as int),
        decreases n,
    {
        if t[n - 1] == '`' {
            return Some(n - 1);
        }
        n -= 1;
    }
    None
}

/// The character is a decimal digit.
pub open spec fn is_digit(c: char) -> bool {
    '0' <= c <= '9'
}

/// All characters are decimal digits.
pub open spec fn all_digits(t: Seq<char>) -> bool {
    forall|k: int| 0 <= k < t.len() ==> is_digit(#[trigger] t[k])
}

/// The number that decimal digits write.
pub open spec fn digits_value(t: Seq<char>) -> nat
    decreases t.len(),
{
    if t.len() == 0 {
        0
    } else {
        10 * digits_value(t.drop_last()) + (t.last() as nat - '0' as nat) as nat
    }
}

/// The number that a text writes: digits, behind a plus sign or not, of a
/// number of the machine's size.
pub open spec fn number_of(t: Seq<char>) -> Option<nat> {
    let digits = if t.len() > 1 && t[0] == '+' {
        t.skip(1)
    } else {
        t
    };
    if digits.len() > 0 && all_digits(digits) && digits_value(digits) <= usize::MAX {
        Some(digits_value(digits))
    } else {
        None
    }
}

/// Number of trailing digits after the last backtick (generic arity encoded
/// in the name: external references carry no separate parameter list).
pub open spec fn arity_of(name: Seq<char>) -> nat {
    match last_tick(name) {
        None => 0,
        Some(k) => match number_of(name.skip(k + 1)) {
            None => 0,
            Some(n) => n,
        },
    }
}

fn read_digits(t: &Vec<char>, from: usize) -> (r: Option<usize>)
    requires
        from <= t@.len(),
    ensures
        match r {
            Some(n) => t@.len() > from && all_digits(t@.skip(from as int)) && digits_value(
                t@.skip(from as int),
            ) == n,
            None => !(t@.len() > from && all_digits(t@.skip(from as int)) && digits_value(
                t@.skip(from as int),
            ) <= usize::MAX),
        },
{
    let ghost digits = t@.skip(from as int);
    let n: usize = t.len();
    if from == n {
        return None;
    }
    let mut i: usize = from;
    let mut value: u128 = 0;
    let mut large: bool = false;
    proof {
        assert(digits.take(0) =~= Seq::empty());
    }
    while i < n
        invariant
            from <= i <= n,
            n == t@.len(),
            digits == t@.skip(from as int),
            forall|k: int| 0 <= k < i - from ==> is_digit(#[trigger] digits[k]),
            !large ==> value == digits_value(digits.take(i - from)) && value <= usize::MAX,
            large ==> digits_value(digits.take(i - from)) > usize::MAX,
        decreases n - i,
    {
        let c: char = t[i];
        if c < '0' || c > '9' {
            proof {
                assert(!is_digit(digits[i - from]));
            }
            return None;
        }
        let d: u128 = (c as u32 - '0' as u32) as u128;
        proof {
            let more = digits.take(i - from + 1);
            assert(more.drop_last() =~= digits.take(i - from));
            assert(more.last() == c);
        }
        if !large {
            value = 10 * value + d;
            if value > usize::MAX as u128 {
                large = true;
            }
        }
        i += 1;
    }
    proof {
        assert(digits.take(n - from) =~= digits);
    }
    if large {
        None
    } else {
        Some(value as usize)
    }
}

/// The generic arity that a name encodes.
pub(crate) fn arity_from_name(name: &str) -> (n: usize)
    ensures
        n == arity_of(name@),
{
    let chars = text::chars_of(name);
    match find_tick(&chars) {
        None => 0,
        Some(k) => {
            let ghost tail = name@.skip(k + 1);
            let signed: bool = chars.len() - (k + 1) > 1 && chars[k + 1] == '+';
            let from: usize = if signed {
                k + 2
            } else {
                k + 1
            };
            proof {
                if signed {
                    assert(tail.skip(1) =~= name@.skip(k + 2));
                }
                assert(tail.len() > 1 ==> tail[0] == name@[k + 1]);
            }
            match read_digits(&chars, from) {
                Some(n) => n,
                None => 0,
            }
        },
    }
}

/// The name without its arity, for the last backtick if it is not the first
/// character.
pub open spec fn stripped(name: Seq<char>) -> Seq<char> {
    match last_tick(name) {
        Some(k) => if k > 0 {
            name.take(k)
        } else {
            name
        },
        None => name,
    }
}

/// Appends the first `n` characters.
pub(crate) fn push_chars(out: &mut String, chars: &Vec<char>, n: usize)
    requires
        n <= chars@.len(),
    ensures
        final(out)@ == old(out)@ + chars@.take(n as int),
{
    let mut i: usize = 0;
    proof {
        assert(out@ =~= old(out)@ + chars@.take(0));
    }
    while i < n
        invariant
            i <= n <= chars@.len(),
            out@ == old(out)@ + chars@.take(i as int),
        decreases n - i,
    {
        text::push_char(out, chars[i]);
        proof {
            assert(out@ =~= old(out)@ + chars@.take(i + 1));
        }
        i += 1;
    }
}

/// Appends the name without its arity suffix.
pub(crate) fn push_stripped(out: &mut String, name: &str)
    ensures
        final(out)@ == old(out)@ + stripped(name@),
{
    let chars = text::chars_of(name);
    match find_tick(&chars) {
        Some(k) => if k > 0 {
            push_chars(out, &chars, k);
        } else {
            text::push_text(out, name);
        },
        None => {
            text::push_text(out, name);
        },
    }
}

/// The name without a backtick and digits at its end.
pub open spec fn simple_name(name: Seq<char>) -> Seq<char> {
    match last_tick(name) {
        Some(k) => if k + 1 < name.len() && all_digits(name.skip(k + 1)) {
            name.take(k)
        } else {
            name
        },
        None => name,
    }
}

/// Strips a trailing generic-arity suffix (`` `2 ``) from a metadata name.
pub(crate) fn strip_arity(name: &str) -> (v: Vec<char>)
    ensures
        v@ == simple_name(name@),
{
    let chars = text::chars_of(name);
    match find_tick(&chars) {
        None => chars,
        Some(k) => {
            let n: usize = chars.len();
            let ghost tail = name@.skip(k + 1);
            let mut i: usize = k + 1;
            while i < n
                invariant
                    k < i <= n,
                    n == chars@.len(),
                    chars@ == name@,
                    tail == name@.skip(k + 1),
                    last_tick(name@) == Some(k as int),
                    forall|j: int| 0 <= j < i - k - 1 ==> is_digit(#[trigger] tail[j]),
                decreases n - i,
            {
                if chars[i] < '0' || chars[i] > '9' {
                    proof {
                        assert(!is_digit(tail[i - k - 1]));
                    }
                    return chars;
                }
                i += 1;
            }
            if k + 1 == n {
                return chars;
            }
            let mut v: Vec<char> = Vec::new();
            let mut j: usize = 0;
            while j < k
                invariant
                    j <= k < chars@.len(),
                    v@ == chars@.take(j as int),
                decreases k - j,
            {
                v.push(chars[j]);
                proof {
                    assert(v@ =~= chars@.take(j + 1));
                }
                j += 1;
            }
            v
        },
    }
}

} // verus!
