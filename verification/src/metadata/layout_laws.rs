//! Where the parts of a metadata root stand, how its heaps are laid out, and what
//! the flags in front of its tables mean.

use vstd::prelude::*;

use crate::bytes;
use crate::encoding_laws;
use crate::error::ErrorKind;
use crate::io;
use crate::metadata::builder;
use crate::metadata::builder::BuilderModel;
use crate::metadata::heaps;
use crate::metadata::reader;
use crate::metadata::root;
use crate::metadata::root::StreamView;
use crate::metadata::tables;
use crate::text;

verus! {

broadcast use crate::bytes::widths;

/// A root starts with `BSJB`; the version follows at 16 behind its length, then
/// the flags, the number of streams and the streams.
pub proof fn root_fields(data: Seq<u8>)
    requires
        root::parsed_root(data) is Some,
    ensures
        data[0] == 0x42,
        data[1] == 0x53,
        data[2] == 0x4A,
        data[3] == 0x42,
        ({
            let r = root::parsed_root(data)->Some_0;
            let n = encoding_laws::double_word(data, 12);
            &&& 20 + n <= data.len()
            &&& r.major_version == encoding_laws::word(data, 4)
            &&& r.minor_version == encoding_laws::word(data, 6)
            &&& r.version == text::lossy_text(bytes::until_zero(data.subrange(16, 16 + n)))
            &&& r.flags == encoding_laws::word(data, 16 + n)
            &&& r.streams.len() == encoding_laws::word(data, 18 + n)
            &&& Some(r.streams) == root::directory(data, 20 + n, encoding_laws::word(data, 18 + n) as nat)
        }),
{
    encoding_laws::words_agree(data);
    assert(bytes::u32_at(data, 0) == encoding_laws::double_word(data, 0));
    assert(bytes::u32_at(data, 12) == encoding_laws::double_word(data, 12));
    let n = encoding_laws::double_word(data, 12);
    assert(bytes::u16_at(data, 18 + n) == encoding_laws::word(data, 18 + n));
    directory_length(data, 20 + n, encoding_laws::word(data, 18 + n) as nat);
}

proof fn directory_length(data: Seq<u8>, pos: int, n: nat)
    ensures
        root::directory(data, pos, n) is Some ==> root::directory(data, pos, n)->Some_0.len() == n,
    decreases n,
{
    if n > 0 && pos + 8 <= data.len() {
        if let Some(z) = bytes::zero_from(data, pos + 8) {
            directory_length(data, (z + 4) / 4 * 4, (n - 1) as nat);
        }
    }
}

/// A stream entry is its offset, its size and its name, which ends in a zero; the
/// next entry is at the next multiple of four.
pub proof fn stream_entries(data: Seq<u8>, pos: int, n: nat, name: Seq<char>)
    requires
        0 <= pos,
        bytes::zero_free(text::utf8(name)),
        bytes::holds_at(data, pos + 8, text::utf8(name).push(0)),
        n > 0,
        (pos + 8 + text::utf8(name).len() + 4) / 4 * 4 <= data.len(),
    ensures
        ({
            let next = (pos + 8 + text::utf8(name).len() + 4) / 4 * 4;
            match root::directory(data, next, (n - 1) as nat) {
                Some(rest) => root::directory(data, pos, n) == Some(
                    seq![
                        StreamView {
                            offset: encoding_laws::double_word(data, pos) as u32,
                            size: encoding_laws::double_word(data, pos + 4) as u32,
                            name,
                        },
                    ] + rest,
                ),
                None => root::directory(data, pos, n) is None,
            }
        }),
{
    encoding_laws::words_agree(data);
    let b = text::utf8(name);
    let z = pos + 8 + b.len();
    let part = b.push(0);
    let window = data.subrange(pos + 8, pos + 8 + part.len());
    assert forall|k: int| pos + 8 <= k <= z implies data[k] == part[k - (pos + 8)] by {
        assert(window[k - (pos + 8)] == data[k]);
    }
    bytes::zero_from_is(data, pos + 8, z);
    assert(data.subrange(pos + 8, z) =~= b);
    text::utf8_round_trip(name);
    assert(bytes::u32_at(data, pos) == encoding_laws::double_word(data, pos));
    assert(bytes::u32_at(data, pos + 4) == encoding_laws::double_word(data, pos + 4));
}

/// The payload of a stream is what its entry says.
pub proof fn stream_payloads(data: Seq<u8>, s: StreamView)
    ensures
        root::stream_payload(data, s) is Some <==> s.offset + s.size <= data.len(),
        root::stream_payload(data, s) matches Some(p) ==> p.len() == s.size && forall|i: int|
            0 <= i < p.len() ==> #[trigger] p[i] == data[s.offset + i],
{
}

/// The streams by their names.
pub proof fn heaps_by_name(data: Seq<u8>, s: StreamView)
    requires
        s.offset + s.size <= data.len(),
    ensures
        ({
            let p = data.subrange(s.offset as int, s.offset + s.size);
            &&& s.name == "#Strings"@ ==> reader::heaps_of(data, seq![s]).strings == p
            &&& s.name == "#US"@ ==> reader::heaps_of(data, seq![s]).user_strings == p
            &&& s.name == "#Blob"@ ==> reader::heaps_of(data, seq![s]).blob == p
            &&& s.name == "#GUID"@ ==> reader::heaps_of(data, seq![s]).guid == p
            &&& s.name == "#Pdb"@ ==> reader::heaps_of(data, seq![s]).pdb == heaps::parsed_pdb(p)
            &&& s.name == "#~"@ || s.name == "#-"@ ==> reader::table_stream(data, seq![s]) == Some(p)
        }),
{
    assert(seq![s].last() == s);
}

/// A name that stands in the text heap, with a zero behind it, is read from its
/// index. The first index stands for the empty text.
pub proof fn texts_are_read(data: Seq<u8>, index: u32, t: Seq<char>)
    ensures
        heaps::string_at(data, 0) == Some(Seq::<char>::empty()),
        index >= data.len() ==> heaps::string_at(data, index) == Some(Seq::<char>::empty()),
        index > 0 && bytes::zero_free(text::utf8(t)) && bytes::holds_at(
            data,
            index as int,
            text::utf8(t).push(0),
        ) ==> heaps::string_at(data, index) == Some(t),
{
    if index > 0 && bytes::zero_free(text::utf8(t)) && bytes::holds_at(
        data,
        index as int,
        text::utf8(t).push(0),
    ) {
        let b = text::utf8(t);
        let part = b.push(0);
        let window = data.subrange(index as int, index + part.len());
        let z = index + b.len();
        assert forall|k: int| index <= k <= z implies data[k] == part[k - index] by {
            assert(window[k - index] == data[k]);
        }
        bytes::zero_from_is(data, index as int, z);
        assert(data.subrange(index as int, z) =~= b);
        text::utf8_round_trip(t);
    }
}

/// A user text that stands in its heap is read from its index: an odd length in
/// bytes, the units, and a flag.
pub proof fn user_texts_are_read(data: Seq<u8>, index: u32, t: Seq<char>, flag: u8)
    requires
        2 * text::utf16(t).len() + 1 < 0x2000_0000,
        bytes::holds_at(
            data,
            index as int,
            io::compressed_u32_bytes((2 * text::utf16(t).len() + 1) as u32) + bytes::joined(
                builder::unit_bytes(text::utf16(t)),
            ) + seq![flag],
        ),
    ensures
        heaps::user_string_at(data, index) == Some(t),
{
    let units = text::utf16(t);
    let n = (2 * units.len() + 1) as u32;
    let head = io::compressed_u32_bytes(n);
    let parts = builder::unit_bytes(units);
    let body = bytes::joined(parts);
    let all = head + body + seq![flag];
    let i = index as int;
    bytes::holds_in_concat(head, body, seq![flag]);
    bytes::holds_in_concat(head + body, seq![flag], seq![]);
    bytes::holds_extended(head + body, seq![flag], 0, head);
    bytes::holds_within(data, i, all, 0, head);
    io::compressed_u32_round_trip(data, i, n);
    let at = i + head.len();
    bytes::holds_within(data, i, all, head.len() as int, body);
    bytes::joined_uniform(parts, 2, parts.len() as int);
    assert(parts.take(parts.len() as int) =~= parts);
    assert(n / 2 == units.len());
    assert forall|k: int| 0 <= k < units.len() implies bytes::u16_at(data, #[trigger] (at + 2 * k))
        == units[k] by {
        bytes::joined_uniform(parts, 2, k);
        bytes::joined_part(parts, k);
        bytes::holds_within(data, at, body, 2 * k, bytes::u16_le(units[k]));
        bytes::u16_round_trip(data, at + 2 * k, units[k]);
    }
    assert(heaps::units_at(data, at, units.len()) =~= units);
    text::utf16_round_trip(t);
    if units.len() == 0 {
        utf16_is_empty(t);
    }
}

proof fn utf16_is_empty(t: Seq<char>)
    requires
        text::utf16(t).len() == 0,
    ensures
        t == Seq::<char>::empty(),
{
    if t.len() > 0 {
        assert(text::utf16_units(t[0]).len() >= 1);
    }
    assert(t =~= Seq::<char>::empty());
}

/// The identifiers have sixteen bytes and are counted from one.
pub proof fn guids_are_read(data: Seq<u8>, index: u32, k: int)
    requires
        0 <= k < 16,
    ensures
        heaps::guid_at(data, index).len() == 16,
        index >= 1 && 16 * index <= data.len() ==> heaps::guid_at(data, index)[k] == data[16 * (index
            - 1) + k],
        index == 0 || 16 * index > data.len() ==> heaps::guid_at(data, index)[k] == 0,
{
}

/// The debug heap: an id of twenty bytes, the entry point, the mask of the tables
/// and the counts.
pub proof fn debug_heap_fields(data: Seq<u8>)
    requires
        heaps::parsed_pdb(data) is Some,
    ensures
        ({
            let p = heaps::parsed_pdb(data)->Some_0;
            &&& p.id == data.subrange(0, 20)
            &&& p.entry_point == encoding_laws::double_word(data, 20)
            &&& p.mask == encoding_laws::double_word(data, 24) + 0x1_0000_0000 * encoding_laws::double_word(data, 28)
            &&& p.counts.len() == 0x38
            &&& p.mask & 1 != 0 ==> p.counts[0] == encoding_laws::double_word(data, 32)
            &&& p.mask & 1 == 0 ==> p.counts[0] == 0
            &&& p.mask & 1 != 0 && p.mask & 2 != 0 ==> p.counts[1] == encoding_laws::double_word(data, 36)
            &&& p.mask & 1 == 0 && p.mask & 2 != 0 ==> p.counts[1] == encoding_laws::double_word(data, 32)
        }),
{
    encoding_laws::words_agree(data);
    reveal(bytes::u64_at);
    let m = bytes::u64_at(data, 24);
    assert(bytes::u32_at(data, 24) == encoding_laws::double_word(data, 24));
    assert(bytes::u32_at(data, 28) == encoding_laws::double_word(data, 28));
    assert(bytes::u32_at(data, 20) == encoding_laws::double_word(data, 20));
    assert(bytes::u32_at(data, 32) == encoding_laws::double_word(data, 32));
    assert(bytes::u32_at(data, 36) == encoding_laws::double_word(data, 36));
    assert(((m >> 0u64) & 1 == 1) == (m & 1 != 0) && ((m >> 1u64) & 1 == 1) == (m & 2 != 0))
        by (bit_vector);
    reveal_with_fuel(heaps::bits_below, 3);
}

/// The counts of the tables of a mask follow one another; a table takes the place
/// behind those with smaller numbers.
pub proof fn counts_are_in_order(data: Seq<u8>, pos: int, mask: u64, i: int)
    requires
        0 <= i < 0x38,
    ensures
        heaps::bits_below(mask, 0) == 0,
        mask & (1u64 << i as u64) != 0 ==> heaps::bits_below(mask, i + 1) == heaps::bits_below(mask, i)
            + 1 && heaps::counts_at(data, pos, mask)[i] == encoding_laws::double_word(
            data,
            pos + 4 * heaps::bits_below(mask, i),
        ),
        mask & (1u64 << i as u64) == 0 ==> heaps::bits_below(mask, i + 1) == heaps::bits_below(mask, i)
            && heaps::counts_at(data, pos, mask)[i] == 0,
{
    encoding_laws::words_agree(data);
    let j = i as u64;
    assert(j < 0x38 ==> ((mask >> j) & 1 == 1) == (mask & (1u64 << j) != 0)) by (bit_vector);
    let at = pos + 4 * heaps::bits_below(mask, i);
    assert(bytes::u32_at(data, at) == encoding_laws::double_word(data, at));
}

/// The head of the table stream: the format at 4, the heap flags at 6, the mask of
/// the tables at 8, and the counts from 24 on.
pub proof fn table_head_fields(heap: Seq<u8>)
    ensures
        heap.len() < 6 ==> reader::parsed_tables(heap, None) == Err::<tables::TableShape, ErrorKind>(
            ErrorKind::BadImage,
        ),
        heap.len() >= 6 && heap[4] != 1 && heap[4] != 2 ==> reader::parsed_tables(heap, None)
            == Err::<tables::TableShape, ErrorKind>(ErrorKind::Unsupported),
        reader::parsed_tables(heap, None) matches Ok(f) ==> {
            &&& heap.len() >= 24
            &&& heap[4] == 1 || heap[4] == 2
            &&& f.heap_flags == heap[6]
            &&& f.valid == encoding_laws::double_word(heap, 8) + 0x1_0000_0000 * encoding_laws::double_word(heap, 12)
            &&& f.counts == heaps::counts_at(heap, 24, f.valid)
        },
{
    encoding_laws::words_agree(heap);
    reveal(bytes::u64_at);
    assert(bytes::u32_at(heap, 8) == encoding_laws::double_word(heap, 8));
    assert(bytes::u32_at(heap, 12) == encoding_laws::double_word(heap, 12));
    if let Ok(f) = reader::parsed_tables(heap, None) {
        assert(f.counts =~= heaps::counts_at(heap, 24, f.valid));
    }
}

/// A heap gets indexes of four bytes when two no longer reach its end.
pub proof fn wide_heaps(m: BuilderModel)
    ensures
        m.heap_flags() <= 7,
        m.heap_flags() % 2 == 1 <==> m.strings.data.len() >= 0x1_0000,
        m.heap_flags() / 2 % 2 == 1 <==> m.guids.data.len() >= 0x1_0000,
        m.heap_flags() / 4 % 2 == 1 <==> m.blobs.data.len() >= 0x1_0000,
{
}

/// The head of a table stream that is written: the format 2.0, the flags, the
/// mask of the tables and that of the sorted ones.
pub proof fn written_table_head(m: BuilderModel)
    ensures
        m.table_head().len() == 24,
        m.table_head().subrange(0, 6) == seq![0u8, 0u8, 0u8, 0u8, 2u8, 0u8],
        m.table_head()[6] == m.heap_flags(),
        m.table_head()[7] == 10,
        bytes::holds_at(m.table_head(), 8, bytes::u64_le(m.valid())),
        bytes::holds_at(m.table_head(), 16, bytes::u64_le(0x00C4_1600_3301_FA00u64)),
{
    reveal(bytes::u32_le);
    let h = m.table_head();
    assert(h.subrange(0, 6) =~= seq![0u8, 0u8, 0u8, 0u8, 2u8, 0u8]);
    assert(h.subrange(8, 16) =~= bytes::u64_le(m.valid()));
    assert(h.subrange(16, 24) =~= bytes::u64_le(0x00C4_1600_3301_FA00u64));
}

/// A root that is written has the format 1.1 and no flags.
pub proof fn written_root_head(version: Seq<char>, count: int)
    ensures
        root::root_prefix(version, count).len() >= 20,
        root::root_prefix(version, count).subrange(0, 12) == seq![
            0x42u8,
            0x53u8,
            0x4Au8,
            0x42u8,
            1u8,
            0u8,
            1u8,
            0u8,
            0u8,
            0u8,
            0u8,
            0u8,
        ],
        bytes::holds_at(root::root_prefix(version, count), 16, text::utf8(version)),
        ({
            let n = root::padded_text(version).len();
            &&& n % 4 == 0
            &&& text::utf8(version).len() < n <= text::utf8(version).len() + 4
            &&& root::root_prefix(version, count).len() == 20 + n
            &&& bytes::holds_at(
                root::root_prefix(version, count),
                12,
                bytes::u32_le(bytes::low32(n as int)),
            )
            &&& bytes::holds_at(
                root::root_prefix(version, count),
                (16 + n) as int,
                seq![0u8, 0u8] + bytes::u16_le(bytes::low16(count)),
            )
        }),
{
    reveal(root::root_prefix);
    reveal(bytes::u32_le);
    reveal(bytes::u16_le);
    let p = root::root_prefix(version, count);
    let v = text::utf8(version);
    let n = root::padded_text(version).len();
    assert(p.subrange(0, 12) =~= seq![
        0x42u8,
        0x53u8,
        0x4Au8,
        0x42u8,
        1u8,
        0u8,
        1u8,
        0u8,
        0u8,
        0u8,
        0u8,
        0u8,
    ]);
    assert(p.subrange(16, (16 + v.len()) as int) =~= v);
    assert(p.subrange(12, 16) =~= bytes::u32_le(bytes::low32(n as int)));
    assert(p.subrange((16 + n) as int, (20 + n) as int) =~= seq![0u8, 0u8] + bytes::u16_le(
        bytes::low16(count),
    ));
}

/// Which characters a user text is flagged for: those above `~`, a quote, a dash,
/// and the control characters other than zero and tab to carriage return.
pub proof fn flagged_characters(c: char)
    ensures
        builder::special_char(c) <==> (c as u32) >= 0x7F || c == '\'' || c == '-' || (0 < (c as u32)
            < 9) || (13 < (c as u32) < 32),
        builder::special_flag(seq![c]) == if builder::special_char(c) {
            1u8
        } else {
            0
        },
{
    assert(seq![c][0] == c);
}

/// What the flag of a user text says holds of the whole if it holds of a part.
pub proof fn flags_add_up(a: Seq<char>, b: Seq<char>)
    ensures
        builder::special_flag(a + b) == if builder::special_flag(a) == 1 || builder::special_flag(b)
            == 1 {
            1u8
        } else {
            0
        },
{
    assert forall|i: int| 0 <= i < a.len() implies #[trigger] (a + b)[i] == a[i] by {}
    assert forall|i: int| 0 <= i < b.len() implies #[trigger] b[i] == (a + b)[a.len() + i] by {}
    if builder::special_flag(a) == 1 {
        let i = choose|i: int| 0 <= i < a.len() && builder::special_char(#[trigger] a[i]);
        assert(builder::special_char((a + b)[i]));
    }
    if builder::special_flag(b) == 1 {
        let i = choose|i: int| 0 <= i < b.len() && builder::special_char(#[trigger] b[i]);
        assert(builder::special_char((a + b)[a.len() + i]));
    }
}

} // verus!
