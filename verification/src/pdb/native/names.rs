//! The names of a native PDB: the named-stream index of the info stream, and
//! the `/names` string heap.

use vstd::prelude::*;

use crate::bytes;
use crate::error::{Error, ErrorKind};
use crate::io::Step;
use crate::pdb::native::dbi;
use crate::text;
use crate::text::Message;

verus! {

broadcast use crate::bytes::widths;

/// The words of the size-prefixed bit vector at `at`, and where it ends.
pub open spec fn bits_at(s: Seq<u8>, at: int) -> Option<(Seq<u32>, int)> {
    let count = dbi::int_at(s, at);
    if at + 4 > s.len() || count < 0 || count > 0x100_0000 || at + 4 + 4 * count > s.len() {
        None
    } else {
        Some(
            (
                Seq::new(count as nat, |k: int| bytes::u32_at(s, at + 4 + 4 * k)),
                at + 4 + 4 * count,
            ),
        )
    }
}

/// The bit is set.
pub open spec fn bit_set(words: Seq<u32>, index: int) -> bool {
    index / 32 < words.len() && words[index / 32] & (1u32 << ((index % 32) as u32)) != 0
}

/// The named streams whose bits are set, from the `i`-th one on: the
/// upper-cased name and the stream number. Their records start at `pos`.
pub open spec fn entries_from(
    s: Seq<u8>,
    base: int,
    words: Seq<u32>,
    i: int,
    max: int,
    pos: int,
) -> Option<Seq<(Seq<char>, u32)>>
    decreases max - i,
{
    if i >= max {
        Some(Seq::empty())
    } else if bit_set(words, i) {
        let name_at = dbi::int_at(s, pos);
        let stream = dbi::int_at(s, pos + 4);
        if pos + 8 > s.len() || name_at < 0 || stream < 0 {
            None
        } else {
            match dbi::cstring_at(s, base + name_at) {
                None => None,
                Some((name, _)) => match entries_from(s, base, words, i + 1, max, pos + 8) {
                    None => None,
                    Some(rest) => Some(
                        seq![(text::uppercased(name), stream as u32)] + rest,
                    ),
                },
            }
        }
    } else {
        entries_from(s, base, words, i + 1, max, pos)
    }
}

/// What the info stream says.
#[verifier::ext_equal]
pub struct InfoView {
    pub version: u32,
    pub signature: u32,
    pub age: u32,
    pub guid: Seq<u8>,
    pub streams: Seq<(Seq<char>, u32)>,
}

/// The named streams behind the strings, which end at `at`.
pub open spec fn index_at(s: Seq<u8>, at: int) -> Option<Seq<(Seq<char>, u32)>> {
    let count = dbi::int_at(s, at);
    let max = dbi::int_at(s, at + 4);
    if at + 8 > s.len() || count < 0 || max < 0 {
        None
    } else {
        match bits_at(s, at + 8) {
            None => None,
            Some((present, a)) => match bits_at(s, a) {
                None => None,
                Some((_, b)) => match entries_from(s, 32, present, 0, max as int, b) {
                    None => None,
                    Some(entries) => if entries.len() == count {
                        Some(entries)
                    } else {
                        None
                    },
                },
            },
        }
    }
}

/// The info stream: version, signature, age, GUID, strings, and the index of
/// the named streams.
pub open spec fn parsed_info(s: Seq<u8>) -> Option<InfoView> {
    let size = dbi::int_at(s, 28);
    if s.len() < 32 || size < 0 || 32 + size > s.len() {
        None
    } else {
        match index_at(s, 32 + size) {
            None => None,
            Some(streams) => Some(
                InfoView {
                    version: bytes::u32_at(s, 0),
                    signature: bytes::u32_at(s, 4),
                    age: bytes::u32_at(s, 8),
                    guid: s.subrange(12, 28),
                    streams,
                },
            ),
        }
    }
}

/// Named streams.
pub open spec fn entry_views(entries: Seq<(String, u32)>) -> Seq<(Seq<char>, u32)> {
    Seq::new(entries.len(), |k: int| (entries[k].0@, entries[k].1))
}

/// The stream that a name was last given.
pub open spec fn stream_of(entries: Seq<(Seq<char>, u32)>, name: Seq<char>) -> Option<u32>
    decreases entries.len(),
{
    if entries.len() == 0 {
        None
    } else if entries.last().0 == name {
        Some(entries.last().1)
    } else {
        stream_of(entries.drop_last(), name)
    }
}

/// Finds the stream that a name was last given.
pub fn find_stream(entries: &Vec<(String, u32)>, name: &str) -> (r: Option<u32>)
    ensures
        r == stream_of(entry_views(entries@), name@),
{
    let ghost all = entry_views(entries@);
    let mut k: usize = entries.len();
    proof {
        assert(all.take(k as int) =~= all);
    }
    while k > 0
        invariant
            k <= entries@.len(),
            all == entry_views(entries@),
            stream_of(all, name@) == stream_of(all.take(k as int), name@),
        decreases k,
    {
        k -= 1;
        proof {
            assert(all.take(k + 1).drop_last() =~= all.take(k as int));
            assert(all.take(k + 1).last() == all[k as int]);
        }
        if text::same(entries[k].0.as_str(), name) {
            return Some(entries[k].1);
        }
    }
    None
}

fn read_bits(data: &[u8], at: usize) -> (r: Result<(Vec<u32>, usize), Error>)
    requires
        at <= data@.len(),
    ensures
        match bits_at(data@, at as int) {
            Some((words, end)) => r is Ok && r->Ok_0.0@ == words && r->Ok_0.1 == end && end
                <= data@.len(),
            None => r is Err && r->Err_0.kind() == ErrorKind::BadImage,
        },
{
    let length: usize = data.len();
    if length - at < 4 {
        return Err(dbi::short(length, at, 4, 1));
    }
    let count: i32 = dbi::get_int(data, at);
    if count < 0 || count > 0x100_0000 {
        return Err(
            Error::bad_image(
                Message::new("native pdb: invalid bitset word count ").number(
                    count as i64,
                ).as_str(),
            ),
        );
    }
    let n: usize = count as usize;
    if (length - at - 4) as u64 / 4 < n as u64 {
        return Err(dbi::short(length, at + 4, 4, count as u64));
    }
    let ghost whole = Seq::new(n as nat, |k: int| bytes::u32_at(data@, at + 4 + 4 * k));
    let mut words: Vec<u32> = Vec::new();
    let mut k: usize = 0;
    while k < n
        invariant
            k <= n,
            length == data@.len(),
            at + 4 + 4 * n <= length,
            whole == Seq::new(n as nat, |k: int| bytes::u32_at(data@, at + 4 + 4 * k)),
            words@ == whole.take(k as int),
        decreases n - k,
    {
        words.push(bytes::get_u32(data, at + 4 + 4 * k));
        proof {
            assert(words@ =~= whole.take(k + 1));
        }
        k += 1;
    }
    proof {
        assert(whole.take(n as int) =~= whole);
    }
    Ok((words, at + 4 + 4 * n))
}

fn is_bit_set(words: &Vec<u32>, index: u32) -> (b: bool)
    ensures
        b == bit_set(words@, index as int),
{
    let word: usize = (index / 32) as usize;
    if word < words.len() {
        words[word] & (1u32 << (index % 32)) != 0
    } else {
        false
    }
}

/// What the info stream gives: version, signature, age, GUID and the named
/// streams.
pub struct NameIndex {
    pub version: u32,
    pub signature: u32,
    pub age: u32,
    pub guid: [u8; 16],
    pub streams: Vec<(String, u32)>,
}

impl View for NameIndex {
    type V = InfoView;

    open spec fn view(&self) -> InfoView {
        InfoView {
            version: self.version,
            signature: self.signature,
            age: self.age,
            guid: self.guid@,
            streams: entry_views(self.streams@),
        }
    }
}

fn read_entries(data: &[u8], words: &Vec<u32>, max: u32, start: usize) -> (r: Result<
    Vec<(String, u32)>,
    Error,
>)
    requires
        start <= data@.len(),
        data@.len() >= 32,
    ensures
        match entries_from(data@, 32, words@, 0, max as int, start as int) {
            Some(v) => r is Ok && entry_views(r->Ok_0@) == v,
            None => r is Err && r->Err_0.kind() == ErrorKind::BadImage,
        },
{
    let length: usize = data.len();
    let ghost whole = entries_from(data@, 32, words@, 0, max as int, start as int);
    let mut entries: Vec<(String, u32)> = Vec::new();
    let mut pos: usize = start;
    let mut i: u32 = 0;
    proof {
        assert(entry_views(entries@) =~= Seq::<(Seq<char>, u32)>::empty());
        if let Some(rest) = whole {
            assert(entry_views(entries@) + rest =~= rest);
        }
    }
    while i < max
        invariant
            i <= max,
            pos <= length,
            32 <= length,
            length == data@.len(),
            whole == entries_from(data@, 32, words@, 0, max as int, start as int),
            whole == (match entries_from(
                data@,
                32,
                words@,
                i as int,
                max as int,
                pos as int,
            ) {
                Some(rest) => Some(entry_views(entries@) + rest),
                None => None,
            }),
        decreases max - i,
    {
        if is_bit_set(words, i) {
            let ghost before = entry_views(entries@);
            if length - pos < 8 {
                return Err(dbi::short(length, pos, 4, 2));
            }
            let name_at: i32 = dbi::get_int(data, pos);
            let stream: i32 = dbi::get_int(data, pos + 4);
            if name_at < 0 || stream < 0 {
                return Err(Error::bad_image("native pdb: negative name-index entry"));
            }
            if name_at as u64 >= length as u64 - 32 {
                return Err(dbi::name_beyond(length, 32 + name_at as u64));
            }
            let (name, _) = dbi::read_cstring(data, 32 + name_at as usize)?;
            let upper = text::to_uppercase(name.as_str());
            let ghost entry = (upper@, stream as u32);
            entries.push((upper, stream as u32));
            proof {
                let now = entry_views(entries@);
                assert(now =~= before.push(entry));
                if let Some(rest) = entries_from(
                    data@,
                    32,
                    words@,
                    i + 1,
                    max as int,
                    pos + 8,
                ) {
                    assert(before + (seq![entry] + rest) =~= now + rest);
                }
            }
            pos += 8;
        }
        i += 1;
    }
    proof {
        assert(entry_views(entries@) + Seq::<(Seq<char>, u32)>::empty() =~= entry_views(entries@));
    }
    Ok(entries)
}

/// Parses the info stream, returning the named streams plus version, signature,
/// age and GUID.
pub(crate) fn load_name_index(data: &[u8]) -> (r: Result<NameIndex, Error>)
    ensures
        match parsed_info(data@) {
            Some(v) => r is Ok && r->Ok_0@ == v,
            None => r is Err && r->Err_0.kind() == ErrorKind::BadImage,
        },
{
    let length: usize = data.len();
    if length < 32 {
        return Err(
            dbi::stopped(
                length,
                0,
                vec![
                    Step::Reads { width: 4, times: 3 },
                    Step::Reads { width: 16, times: 1 },
                    Step::Reads { width: 4, times: 1 },
                ],
            ),
        );
    }
    let size: i32 = dbi::get_int(data, 28);
    if size < 0 {
        return Err(Error::bad_image("native pdb: negative string-buffer size"));
    }
    if size as u64 > length as u64 - 32 {
        return Err(dbi::beyond(length, 32 + size as u64));
    }
    let at: usize = 32 + size as usize;
    if length - at < 8 {
        return Err(dbi::short(length, at, 4, 2));
    }
    let count: i32 = dbi::get_int(data, at);
    let max: i32 = dbi::get_int(data, at + 4);
    if count < 0 || max < 0 {
        return Err(Error::bad_image("native pdb: negative name-index sizes"));
    }
    let (present, a) = read_bits(data, at + 8)?;
    let (_, b) = read_bits(data, a)?;
    let streams = read_entries(data, &present, max as u32, b)?;
    if streams.len() as u64 != count as u64 {
        return Err(
            Error::bad_image(
                Message::new("native pdb: name-index count mismatch (").count(
                    streams.len() as u64,
                ).text(" != ").number(count as i64).text(")").as_str(),
            ),
        );
    }
    Ok(
        NameIndex {
            version: bytes::get_u32(data, 0),
            signature: bytes::get_u32(data, 4),
            age: bytes::get_u32(data, 8),
            guid: bytes::get_16(data, 12),
            streams,
        },
    )
}

/// The names of the buckets, each with its offset, in bucket order; the empty
/// ones are left out.
pub open spec fn bucket_names(s: Seq<u8>, at: int, n: nat) -> Option<Seq<(u32, Seq<char>)>>
    decreases n,
{
    if n == 0 {
        Some(Seq::empty())
    } else {
        let offset = dbi::int_at(s, at);
        if offset == 0 {
            bucket_names(s, at + 4, (n - 1) as nat)
        } else if offset < 0 {
            None
        } else {
            match dbi::cstring_at(s, 12 + offset) {
                None => None,
                Some((name, _)) => match bucket_names(s, at + 4, (n - 1) as nat) {
                    None => None,
                    Some(rest) => Some(seq![(offset as u32, name)] + rest),
                },
            }
        }
    }
}

/// The name with the offset.
pub open spec fn name_of(names: Seq<(u32, Seq<char>)>, offset: u32) -> Option<Seq<char>>
    decreases names.len(),
{
    if names.len() == 0 {
        None
    } else if names.last().0 == offset {
        Some(names.last().1)
    } else {
        name_of(names.drop_last(), offset)
    }
}

/// The names without those whose offset came before.
pub open spec fn first_names(names: Seq<(u32, Seq<char>)>) -> Seq<(u32, Seq<char>)>
    decreases names.len(),
{
    if names.len() == 0 {
        Seq::empty()
    } else {
        let front = first_names(names.drop_last());
        if name_of(front, names.last().0) is Some {
            front
        } else {
            front.push(names.last())
        }
    }
}

/// The `/names` heap: the names with their offsets, each offset once, in the
/// order of the buckets.
pub open spec fn parsed_names(s: Seq<u8>) -> Option<Seq<(u32, Seq<char>)>> {
    let size = dbi::int_at(s, 8);
    if s.len() < 12 || size < 0 || bytes::u32_at(s, 0) != 0xEFFE_EFFE || dbi::int_at(s, 4) != 1
        || 12 + size + 4 > s.len() {
        None
    } else {
        let count = dbi::int_at(s, 12 + size);
        if count < 0 || 12 + size + 4 + 4 * count > s.len() {
            None
        } else {
            match bucket_names(s, 12 + size + 4, count as nat) {
                None => None,
                Some(names) => Some(first_names(names)),
            }
        }
    }
}

/// Names with offsets.
pub open spec fn name_views(names: Seq<(u32, String)>) -> Seq<(u32, Seq<char>)> {
    Seq::new(names.len(), |k: int| (names[k].0, names[k].1@))
}

/// Finds the name with the offset.
pub(crate) fn find_name<'a>(names: &'a Vec<(u32, String)>, offset: u32) -> (r: Option<&'a str>)
    ensures
        match name_of(name_views(names@), offset) {
            Some(t) => r is Some && r->Some_0@ == t,
            None => r is None,
        },
{
    let ghost all = name_views(names@);
    let mut k: usize = names.len();
    proof {
        assert(all.take(k as int) =~= all);
    }
    while k > 0
        invariant
            k <= names@.len(),
            all == name_views(names@),
            name_of(all, offset) == name_of(all.take(k as int), offset),
        decreases k,
    {
        k -= 1;
        proof {
            assert(all.take(k + 1).drop_last() =~= all.take(k as int));
            assert(all.take(k + 1).last() == all[k as int]);
        }
        if names[k].0 == offset {
            return Some(names[k].1.as_str());
        }
    }
    None
}

/// Parses the `/names` heap, returning the names with their offsets in bucket
/// order.
pub(crate) fn load_name_stream(data: &[u8]) -> (r: Result<Vec<(u32, String)>, Error>)
    ensures
        match parsed_names(data@) {
            Some(v) => r is Ok && name_views(r->Ok_0@) == v,
            None => r is Err && r->Err_0.kind() == ErrorKind::BadImage,
        },
{
    let length: usize = data.len();
    if length < 12 {
        return Err(dbi::short(length, 0, 4, 3));
    }
    let size: i32 = dbi::get_int(data, 8);
    if size < 0 {
        return Err(Error::bad_image("native pdb: negative names buffer size"));
    }
    let signature: u32 = bytes::get_u32(data, 0);
    let version: i32 = dbi::get_int(data, 4);
    if signature != 0xEFFE_EFFE || version != 1 {
        return Err(
            Error::bad_image(
                Message::new("native pdb: unsupported name stream (sig=0x").hex(
                    signature as u64,
                ).text(", ver=").number(version as i64).text(")").as_str(),
            ),
        );
    }
    if size as u64 + 16 > length as u64 {
        return Err(
            dbi::stopped(
                length,
                12,
                vec![Step::Skip(size as u64), Step::Reads { width: 4, times: 1 }],
            ),
        );
    }
    let start: usize = 16 + size as usize;
    let count: i32 = dbi::get_int(data, start - 4);
    if count < 0 {
        return Err(Error::bad_image("native pdb: negative names bucket count"));
    }
    if (length - start) as u64 / 4 < count as u64 {
        return Err(dbi::short(length, start, 4, count as u64));
    }
    let n: usize = count as usize;
    let ghost whole = bucket_names(data@, start as int, n as nat);
    let ghost mut done: Seq<(u32, Seq<char>)> = Seq::empty();
    let mut names: Vec<(u32, String)> = Vec::new();
    let mut k: usize = 0;
    proof {
        if let Some(rest) = whole {
            assert(done + rest =~= rest);
        }
        assert(name_views(names@) =~= first_names(done));
    }
    while k < n
        invariant
            k <= n,
            length == data@.len(),
            12 <= length,
            start + 4 * n <= length,
            match whole {
                Some(all) => parsed_names(data@) == Some(first_names(all)),
                None => parsed_names(data@) is None,
            },
            whole == (match bucket_names(data@, start + 4 * k, (n - k) as nat) {
                Some(rest) => Some(done + rest),
                None => None,
            }),
            name_views(names@) == first_names(done),
        decreases n - k,
    {
        let offset: i32 = dbi::get_int(data, start + 4 * k);
        if offset < 0 {
            return Err(Error::bad_image("native pdb: negative name offset"));
        }
        if offset != 0 {
            if offset as u64 >= length as u64 - 12 {
                return Err(dbi::name_beyond(length, 12 + offset as u64));
            }
            let (name, _) = dbi::read_cstring(data, 12 + offset as usize)?;
            let ghost entry = (offset as u32, name@);
            let ghost before = name_views(names@);
            let known: bool = find_name(&names, offset as u32).is_some();
            if !known {
                names.push((offset as u32, name));
            }
            proof {
                let now = done.push(entry);
                assert(now.drop_last() =~= done);
                if !known {
                    assert(name_views(names@) =~= before.push(entry));
                }
                if let Some(rest) = bucket_names(
                    data@,
                    start + 4 * (k + 1),
                    (n - k - 1) as nat,
                ) {
                    assert(done + (seq![entry] + rest) =~= now + rest);
                }
                done = now;
            }
        }
        k += 1;
    }
    proof {
        assert(done + Seq::<(u32, Seq<char>)>::empty() =~= done);
    }
    Ok(names)
}

} // verus!
