//! What the heaps of a metadata builder give back.

use vstd::prelude::*;

use crate::bytes;
use crate::io;
use crate::metadata::builder;
use crate::metadata::builder::{HeapModel, PdbModel};
use crate::metadata::heaps;
use crate::metadata::heaps::PdbView;
use crate::metadata::tables;
use crate::text;

verus! {

broadcast use {crate::bytes::widths, crate::io::compressed_widths};

/// `encoded` stands in the heap, not before `first`, and `index` is where.
pub open spec fn placed(data: Seq<u8>, encoded: Seq<u8>, index: u32, first: int) -> bool {
    exists|p: int| first <= p && #[trigger] bytes::holds_at(data, p, encoded) && index == bytes::low32(p)
}

/// Every string that a `#Strings` heap was given stands in it.
pub open spec fn strings_sound(h: HeapModel) -> bool {
    forall|k: int|
        #![trigger h.known[k]]
        0 <= k < h.known.len() ==> placed(h.data, h.known[k].0.push(0), h.known[k].1, 1)
}

/// Every user string that a `#US` heap was given stands in it.
pub open spec fn user_strings_sound(h: HeapModel) -> bool {
    forall|k: int|
        #![trigger h.known[k]]
        0 <= k < h.known.len() ==> exists|t: Seq<char>|
            #![trigger builder::user_string_bytes(t)]
            h.known[k].0 == text::utf8(t) && placed(
                h.data,
                builder::user_string_bytes(t),
                h.known[k].1,
                0,
            )
}

/// Every blob that a `#Blob` heap was given stands in it.
pub open spec fn blobs_sound(h: HeapModel) -> bool {
    forall|k: int|
        #![trigger h.known[k]]
        0 <= k < h.known.len() ==> placed(h.data, builder::blob_bytes(h.known[k].0), h.known[k].1, 1)
}

/// Every GUID that a `#GUID` heap was given stands in it, at a multiple of
/// its size.
pub open spec fn guids_sound(h: HeapModel) -> bool {
    h.data.len() % 16 == 0 && forall|k: int|
        #![trigger h.known[k]]
        0 <= k < h.known.len() ==> h.known[k].0.len() == 16 && exists|q: int|
            0 <= q && #[trigger] bytes::holds_at(h.data, 16 * q, h.known[k].0) && h.known[k].1
                == bytes::low32(q + 1)
}

proof fn placed_extended(data: Seq<u8>, more: Seq<u8>, encoded: Seq<u8>, index: u32, first: int)
    requires
        placed(data, encoded, index, first),
    ensures
        placed(data + more, encoded, index, first),
{
    let p = choose|p: int|
        first <= p && #[trigger] bytes::holds_at(data, p, encoded) && index == bytes::low32(p);
    bytes::holds_extended(data, more, p, encoded);
}

/// Where the heap holds the entry.
pub(crate) proof fn lookup_entry(known: Seq<(Seq<u8>, u32)>, key: Seq<u8>) -> (k: int)
    requires
        builder::lookup(known, key) is Some,
    ensures
        0 <= k < known.len(),
        known[k] == (key, builder::lookup(known, key)->Some_0),
    decreases known.len(),
{
    if known.last().0 == key {
        known.len() - 1
    } else {
        lookup_entry(known.drop_last(), key)
    }
}

proof fn lookup_push(known: Seq<(Seq<u8>, u32)>, entry: (Seq<u8>, u32), key: Seq<u8>)
    ensures
        builder::lookup(known.push(entry), key) == if entry.0 == key {
            Some(entry.1)
        } else {
            builder::lookup(known, key)
        },
{
    assert(known.push(entry).drop_last() =~= known);
}

/// Inserting anything keeps the index of everything that the heap already
/// knew, and inserting the same thing again changes nothing and gives the
/// same index.
pub proof fn interning_is_stable(h: HeapModel, key: Seq<u8>, encoded: Seq<u8>, index: u32, other: Seq<u8>)
    ensures
        ({
            let (after, i) = h.interned(key, encoded, index);
            &&& builder::lookup(after.known, key) == Some(i)
            &&& forall|e: Seq<u8>, j: u32| after.interned(key, e, j) == (after, i)
            &&& builder::lookup(h.known, other) is Some ==> builder::lookup(after.known, other)
                == builder::lookup(h.known, other)
        }),
{
    lookup_push(h.known, (key, index), key);
    lookup_push(h.known, (key, index), other);
}

/// A `#Strings` heap that no string was given is sound, and stays so.
pub proof fn strings_stay_sound(h: HeapModel, t: Seq<char>)
    ensures
        strings_sound(HeapModel { data: seq![0u8], known: Seq::empty() }),
        strings_sound(h) && h.data.len() >= 1 ==> strings_sound(h.with_string(t).0)
            && h.with_string(t).0.data.len() >= 1,
{
    if strings_sound(h) && h.data.len() >= 1 {
        let after = h.with_string(t).0;
        let encoded = text::utf8(t).push(0);
        assert forall|k: int| #![trigger after.known[k]] 0 <= k < after.known.len() implies placed(
            after.data,
            after.known[k].0.push(0),
            after.known[k].1,
            1,
        ) by {
            if k < h.known.len() {
                assert(after.known[k] == h.known[k]);
                if after.data != h.data {
                    placed_extended(h.data, encoded, h.known[k].0.push(0), h.known[k].1, 1);
                }
            } else {
                bytes::holds_in_concat(h.data, encoded, Seq::empty());
                assert(bytes::holds_at(after.data, h.data.len() as int, encoded));
            }
        }
    }
}

/// Where a text stands with the zero behind it, it goes up to that zero.
proof fn text_stands(data: Seq<u8>, p: int, key: Seq<u8>)
    requires
        0 <= p,
        bytes::holds_at(data, p, key.push(0)),
        bytes::zero_free(key),
    ensures
        bytes::zero_from(data, p) == Some((p + key.len()) as int),
        data.subrange(p, p + key.len()) == key,
        p + key.len() < data.len(),
{
    let window = data.subrange(p, p + key.len() + 1);
    assert(window[key.len() as int] == data[p + key.len()]);
    assert forall|i: int| p <= i < p + key.len() implies data[i] != 0 by {
        assert(window[i - p] == data[i]);
        assert(key.push(0)[i - p] == key[i - p]);
    }
    bytes::zero_from_is(data, p, p + key.len());
    assert forall|i: int| 0 <= i < key.len() implies data.subrange(p, p + key.len())[i]
        == key[i] by {
        assert(window[i] == data[p + i]);
        assert(key.push(0)[i] == key[i]);
    }
    assert(data.subrange(p, p + key.len()) =~= key);
}

/// A string that a sound `#Strings` heap knows reads back from its index.
/// This holds of every text without a zero byte, as long as the heap fits 32
/// bits.
pub proof fn string_reads_back(h: HeapModel, t: Seq<char>)
    requires
        strings_sound(h),
        h.data.len() >= 1,
        bytes::zero_free(text::utf8(t)),
        h.with_string(t).0.data.len() <= 0xFFFF_FFFF,
    ensures
        heaps::string_at(h.with_string(t).0.data, h.with_string(t).1) == Some(t),
{
    let (after, index) = h.with_string(t);
    if t.len() == 0 {
        assert(t =~= Seq::<char>::empty());
    } else {
        strings_stay_sound(h, t);
        let key = text::utf8(t);
        interning_is_stable(h, key, key.push(0), bytes::low32(h.data.len() as int), key);
        let k = lookup_entry(after.known, key);
        assert(placed(after.data, after.known[k].0.push(0), after.known[k].1, 1));
        let p = choose|p: int|
            1 <= p && #[trigger] bytes::holds_at(after.data, p, key.push(0)) && index
                == bytes::low32(p);
        assert(index == p);
        text_stands(after.data, p, key);
        text::utf8_round_trip(t);
    }
}

/// A `#Blob` heap that no blob was given is sound, and stays so.
pub proof fn blobs_stay_sound(h: HeapModel, b: Seq<u8>)
    ensures
        blobs_sound(HeapModel { data: seq![0u8], known: Seq::empty() }),
        blobs_sound(h) && h.data.len() >= 1 ==> blobs_sound(h.with_blob(b).0) && h.with_blob(
            b,
        ).0.data.len() >= 1,
{
    if blobs_sound(h) && h.data.len() >= 1 {
        let after = h.with_blob(b).0;
        let encoded = builder::blob_bytes(b);
        assert forall|k: int| #![trigger after.known[k]] 0 <= k < after.known.len() implies placed(
            after.data,
            builder::blob_bytes(after.known[k].0),
            after.known[k].1,
            1,
        ) by {
            if k < h.known.len() {
                assert(after.known[k] == h.known[k]);
                if after.data != h.data {
                    placed_extended(
                        h.data,
                        encoded,
                        builder::blob_bytes(h.known[k].0),
                        h.known[k].1,
                        1,
                    );
                }
            } else {
                bytes::holds_in_concat(h.data, encoded, Seq::empty());
                assert(bytes::holds_at(after.data, h.data.len() as int, encoded));
            }
        }
    }
}

/// A blob that a sound `#Blob` heap knows reads back from its index, as long
/// as its length fits thirty bits and the heap fits 32 bits.
pub proof fn blob_reads_back(h: HeapModel, b: Seq<u8>)
    requires
        blobs_sound(h),
        h.data.len() >= 1,
        b.len() < 0x4000_0000,
        h.with_blob(b).0.data.len() <= 0xFFFF_FFFF,
    ensures
        heaps::blob_at(h.with_blob(b).0.data, h.with_blob(b).1) == Some(b),
{
    let (after, index) = h.with_blob(b);
    if b.len() == 0 {
        assert(b =~= Seq::<u8>::empty());
    } else {
        blobs_stay_sound(h, b);
        let encoded = builder::blob_bytes(b);
        interning_is_stable(h, b, encoded, bytes::low32(h.data.len() as int), b);
        let k = lookup_entry(after.known, b);
        assert(placed(after.data, builder::blob_bytes(after.known[k].0), after.known[k].1, 1));
        let p = choose|p: int|
            1 <= p && #[trigger] bytes::holds_at(after.data, p, encoded) && index == bytes::low32(p);
        blob_stands(after.data, p, b);
    }
}

/// A blob that stands in a heap reads back.
pub proof fn blob_stands(data: Seq<u8>, p: int, b: Seq<u8>)
    requires
        p >= 1,
        bytes::holds_at(data, p, builder::blob_bytes(b)),
        b.len() < 0x4000_0000,
        data.len() <= 0xFFFF_FFFF,
    ensures
        heaps::blob_at(data, p as u32) == Some(b),
{
    let encoded = builder::blob_bytes(b);
    let length = b.len() as u32;
    let head = io::compressed_u32_bytes(length);
    bytes::holds_in_concat(head, b, Seq::empty());
    assert(head + b + Seq::<u8>::empty() =~= encoded);
    bytes::holds_within(data, p, encoded, 0, head);
    bytes::holds_within(data, p, encoded, head.len() as int, b);
    io::compressed_u32_round_trip(data, p, length);
}

/// A `#GUID` heap that no GUID was given is sound, and stays so.
pub proof fn guids_stay_sound(h: HeapModel, g: Seq<u8>)
    requires
        g.len() == 16,
    ensures
        guids_sound(HeapModel { data: Seq::empty(), known: Seq::empty() }),
        guids_sound(h) ==> guids_sound(h.with_guid(g).0),
{
    if guids_sound(h) {
        let after = h.with_guid(g).0;
        assert forall|k: int| #![trigger after.known[k]] 0 <= k < after.known.len() implies after.known[k].0.len()
            == 16 && exists|q: int|
            0 <= q && #[trigger] bytes::holds_at(after.data, 16 * q, after.known[k].0)
                && after.known[k].1 == bytes::low32(q + 1) by {
            if k < h.known.len() {
                assert(after.known[k] == h.known[k]);
                let q = choose|q: int|
                    0 <= q && #[trigger] bytes::holds_at(h.data, 16 * q, h.known[k].0)
                        && h.known[k].1 == bytes::low32(q + 1);
                if after.data != h.data {
                    bytes::holds_extended(h.data, g, 16 * q, h.known[k].0);
                }
            } else {
                let q = h.data.len() as int / 16;
                assert(16 * q == h.data.len());
                bytes::holds_in_concat(h.data, g, Seq::empty());
                assert(bytes::holds_at(after.data, 16 * q, g));
            }
        }
    }
}

/// A GUID that a sound `#GUID` heap knows reads back from its number, as long
/// as the heap fits 32 bits.
pub proof fn guid_reads_back(h: HeapModel, g: Seq<u8>)
    requires
        guids_sound(h),
        g.len() == 16,
        h.with_guid(g).0.data.len() <= 0xFFFF_FFFF,
    ensures
        heaps::guid_at(h.with_guid(g).0.data, h.with_guid(g).1) == g,
{
    let (after, index) = h.with_guid(g);
    guids_stay_sound(h, g);
    interning_is_stable(h, g, g, bytes::low32(h.data.len() as int / 16 + 1), g);
    let k = lookup_entry(after.known, g);
    assert(after.known[k].0.len() == 16);
    let q = choose|q: int|
        0 <= q && #[trigger] bytes::holds_at(after.data, 16 * q, g) && index == bytes::low32(q + 1);
    assert(index == q + 1);
}

/// A `#US` heap that no string was given is sound, and stays so.
pub proof fn user_strings_stay_sound(h: HeapModel, t: Seq<char>)
    ensures
        user_strings_sound(HeapModel { data: Seq::empty(), known: Seq::empty() }),
        user_strings_sound(h) ==> user_strings_sound(h.with_user_string(t).0),
{
    if user_strings_sound(h) {
        let after = h.with_user_string(t).0;
        let encoded = builder::user_string_bytes(t);
        assert forall|k: int| #![trigger after.known[k]] 0 <= k < after.known.len() implies exists|u: Seq<char>|
            #![trigger builder::user_string_bytes(u)]
            after.known[k].0 == text::utf8(u) && placed(
                after.data,
                builder::user_string_bytes(u),
                after.known[k].1,
                0,
            ) by {
            if k < h.known.len() {
                assert(after.known[k] == h.known[k]);
                let u = choose|u: Seq<char>|
                    #![trigger builder::user_string_bytes(u)]
                    h.known[k].0 == text::utf8(u) && placed(
                        h.data,
                        builder::user_string_bytes(u),
                        h.known[k].1,
                        0,
                    );
                if after.data != h.data {
                    placed_extended(
                        h.data,
                        encoded,
                        builder::user_string_bytes(u),
                        h.known[k].1,
                        0,
                    );
                }
                assert(placed(after.data, builder::user_string_bytes(u), after.known[k].1, 0));
            } else {
                bytes::holds_in_concat(h.data, encoded, Seq::empty());
                assert(bytes::holds_at(after.data, h.data.len() as int, encoded));
                assert(placed(after.data, builder::user_string_bytes(t), after.known[k].1, 0));
            }
        }
    }
}

proof fn unit_offsets(u: Seq<u16>, k: int)
    requires
        0 <= k <= u.len(),
    ensures
        bytes::joined(builder::unit_bytes(u).take(k)).len() == 2 * k,
    decreases k,
{
    if k == 0 {
        assert(builder::unit_bytes(u).take(0) =~= Seq::<Seq<u8>>::empty());
    } else {
        unit_offsets(u, k - 1);
        bytes::joined_step(builder::unit_bytes(u), k - 1);
    }
}

proof fn units_read(data: Seq<u8>, at: int, u: Seq<u16>)
    requires
        bytes::holds_at(data, at, bytes::joined(builder::unit_bytes(u))),
    ensures
        heaps::units_at(data, at, u.len()) == u,
{
    let parts = builder::unit_bytes(u);
    assert forall|k: int| 0 <= k < u.len() implies heaps::units_at(data, at, u.len())[k] == u[k] by {
        bytes::joined_part(parts, k);
        unit_offsets(u, k);
        bytes::holds_within(data, at, bytes::joined(parts), 2 * k, parts[k]);
        bytes::u16_round_trip(data, at + 2 * k, u[k]);
    }
    assert(heaps::units_at(data, at, u.len()) =~= u);
}

/// A string that a sound `#US` heap knows reads back from its index, as long
/// as its length fits thirty bits and the heap fits 32 bits.
pub proof fn user_string_reads_back(h: HeapModel, t: Seq<char>)
    requires
        user_strings_sound(h),
        2 * text::utf16(t).len() + 1 < 0x4000_0000,
        h.with_user_string(t).0.data.len() <= 0xFFFF_FFFF,
    ensures
        heaps::user_string_at(h.with_user_string(t).0.data, h.with_user_string(t).1) == Some(t),
{
    let (after, index) = h.with_user_string(t);
    user_strings_stay_sound(h, t);
    let key = text::utf8(t);
    let encoded = builder::user_string_bytes(t);
    interning_is_stable(h, key, encoded, bytes::low32(h.data.len() as int), key);
    let k = lookup_entry(after.known, key);
    assert(after.known[k].0 == key);
    let u = choose|u: Seq<char>|
        #![trigger builder::user_string_bytes(u)]
        after.known[k].0 == text::utf8(u) && placed(
            after.data,
            builder::user_string_bytes(u),
            after.known[k].1,
            0,
        );
    text::utf8_injective(t, u);
    let p = choose|p: int|
        0 <= p && #[trigger] bytes::holds_at(after.data, p, encoded) && index == bytes::low32(p);
    assert(index == p);
    user_string_stands(after.data, p, t);
}

/// A user string that stands in a heap reads back.
pub proof fn user_string_stands(data: Seq<u8>, p: int, t: Seq<char>)
    requires
        0 <= p,
        bytes::holds_at(data, p, builder::user_string_bytes(t)),
        2 * text::utf16(t).len() + 1 < 0x4000_0000,
        data.len() <= 0xFFFF_FFFF,
    ensures
        heaps::user_string_at(data, p as u32) == Some(t),
{
    let encoded = builder::user_string_bytes(t);
    let units = text::utf16(t);
    let length = (2 * units.len() + 1) as u32;
    let head = io::compressed_u32_bytes(length);
    let body = bytes::joined(builder::unit_bytes(units));
    let flag = seq![builder::special_flag(t)];
    unit_offsets(units, units.len() as int);
    assert(builder::unit_bytes(units).take(units.len() as int) =~= builder::unit_bytes(units));
    bytes::holds_in_concat(head, body, flag);
    bytes::holds_in_concat(head, body + flag, Seq::empty());
    assert(head + (body + flag) =~= encoded);
    bytes::holds_within(data, p, encoded, 0, head);
    bytes::holds_within(data, p, encoded, head.len() as int, body);
    io::compressed_u32_round_trip(data, p, length);
    units_read(data, p + head.len(), units);
    text::utf16_round_trip(t);
    if units.len() == 0 {
        assert(t =~= Seq::<char>::empty()) by {
            if t.len() > 0 {
                assert(text::utf16_units(t[0]).len() > 0);
            }
        }
    }
}

/// The pairs name each table once, in ascending order, and only tables that
/// the format numbers.
pub open spec fn strictly_ascending(pairs: Seq<(u8, u32)>) -> bool {
    (forall|i: int, j: int| 0 <= i < j < pairs.len() ==> pairs[i].0 < pairs[j].0) && (forall|k: int|
        0 <= k < pairs.len() ==> #[trigger] pairs[k].0 < 0x38)
}

/// The row count of table `i` among the pairs, zero where there is none.
pub open spec fn pair_count(pairs: Seq<(u8, u32)>, i: int) -> u32
    decreases pairs.len(),
{
    if pairs.len() == 0 {
        0
    } else if pairs.last().0 == i {
        pairs.last().1
    } else {
        pair_count(pairs.drop_last(), i)
    }
}

/// The row counts of the pairs by table.
pub open spec fn pair_counts(pairs: Seq<(u8, u32)>) -> Seq<u32> {
    Seq::new(0x38, |i: int| pair_count(pairs, i))
}

/// How many of the first `n` pairs name a table below `i`.
spec fn pairs_below(pairs: Seq<(u8, u32)>, n: nat, i: int) -> nat
    decreases n,
{
    if n == 0 {
        0
    } else {
        pairs_below(pairs, (n - 1) as nat, i) + if pairs[n - 1].0 < i {
            1nat
        } else {
            0nat
        }
    }
}

spec fn named(pairs: Seq<(u8, u32)>, n: nat, i: int) -> bool {
    exists|k: int| 0 <= k < n && #[trigger] pairs[k].0 == i
}

proof fn pair_mask_bits(pairs: Seq<(u8, u32)>, n: nat, i: int)
    requires
        n <= pairs.len(),
        forall|k: int| 0 <= k < pairs.len() ==> #[trigger] pairs[k].0 < 64,
        0 <= i < 64,
    ensures
        tables::bit(builder::pair_mask(pairs, n), i) <==> named(pairs, n, i),
    decreases n,
{
    if n == 0 {
        builder::no_bit(i as u64);
    } else {
        pair_mask_bits(pairs, (n - 1) as nat, i);
        assert(pairs[n - 1].0 < 64);
        builder::or_bit(
            builder::pair_mask(pairs, (n - 1) as nat),
            pairs[n - 1].0 as u64,
            i as u64,
        );
        if named(pairs, n, i) && !named(pairs, (n - 1) as nat, i) {
            let k = choose|k: int| 0 <= k < n && #[trigger] pairs[k].0 == i;
            assert(k == n - 1);
        }
        if named(pairs, (n - 1) as nat, i) {
            let k = choose|k: int| 0 <= k < n - 1 && #[trigger] pairs[k].0 == i;
            assert(pairs[k].0 == i);
        }
        assert(pairs[n - 1].0 == i ==> named(pairs, n, i));
    }
}

proof fn below_step(pairs: Seq<(u8, u32)>, n: nat, i: int)
    requires
        strictly_ascending(pairs),
        n <= pairs.len(),
    ensures
        pairs_below(pairs, n, i + 1) == pairs_below(pairs, n, i) + if named(pairs, n, i) {
            1nat
        } else {
            0nat
        },
    decreases n,
{
    if n > 0 {
        below_step(pairs, (n - 1) as nat, i);
        if pairs[n - 1].0 == i {
            assert(named(pairs, n, i));
            if named(pairs, (n - 1) as nat, i) {
                let k = choose|k: int| 0 <= k < n - 1 && #[trigger] pairs[k].0 == i;
                assert(pairs[k].0 < pairs[n - 1].0);
            }
        } else if named(pairs, n, i) {
            let k = choose|k: int| 0 <= k < n && #[trigger] pairs[k].0 == i;
            assert(k < n - 1);
            assert(named(pairs, (n - 1) as nat, i));
        } else if named(pairs, (n - 1) as nat, i) {
            let k = choose|k: int| 0 <= k < n - 1 && #[trigger] pairs[k].0 == i;
            assert(named(pairs, n, i));
        }
    }
}

proof fn none_below_zero(pairs: Seq<(u8, u32)>, n: nat)
    requires
        n <= pairs.len(),
    ensures
        pairs_below(pairs, n, 0) == 0,
    decreases n,
{
    if n > 0 {
        none_below_zero(pairs, (n - 1) as nat);
    }
}

proof fn bits_are_pairs(pairs: Seq<(u8, u32)>, i: int)
    requires
        strictly_ascending(pairs),
        0 <= i <= 64,
    ensures
        heaps::bits_below(builder::pair_mask(pairs, pairs.len()), i) == pairs_below(
            pairs,
            pairs.len(),
            i,
        ),
    decreases i,
{
    if i == 0 {
        none_below_zero(pairs, pairs.len());
    } else {
        bits_are_pairs(pairs, i - 1);
        assert forall|k: int| 0 <= k < pairs.len() implies #[trigger] pairs[k].0 < 64 by {
            assert(pairs[k].0 < 0x38);
        }
        pair_mask_bits(pairs, pairs.len(), i - 1);
        below_step(pairs, pairs.len(), i - 1);
    }
}

proof fn rank_of_pair(pairs: Seq<(u8, u32)>, n: nat, k: int)
    requires
        strictly_ascending(pairs),
        0 <= k < pairs.len(),
        n <= pairs.len(),
    ensures
        pairs_below(pairs, n, pairs[k].0 as int) == if n <= k {
            n
        } else {
            k as nat
        },
    decreases n,
{
    if n > 0 {
        rank_of_pair(pairs, (n - 1) as nat, k);
        if n - 1 < k {
            assert(pairs[n - 1].0 < pairs[k].0);
        } else if n - 1 > k {
            assert(pairs[k].0 < pairs[n - 1].0);
        }
    }
}

proof fn all_below(pairs: Seq<(u8, u32)>, n: nat, i: int)
    requires
        n <= pairs.len(),
        forall|k: int| 0 <= k < pairs.len() ==> #[trigger] pairs[k].0 < i,
    ensures
        pairs_below(pairs, n, i) == n,
    decreases n,
{
    if n > 0 {
        all_below(pairs, (n - 1) as nat, i);
        assert(pairs[n - 1].0 < i);
    }
}

proof fn pair_count_is(pairs: Seq<(u8, u32)>, n: nat, i: int)
    requires
        strictly_ascending(pairs),
        n <= pairs.len(),
    ensures
        named(pairs, n, i) ==> exists|k: int|
            0 <= k < n && #[trigger] pairs[k].0 == i && pair_count(pairs.take(n as int), i)
                == pairs[k].1,
        !named(pairs, n, i) ==> pair_count(pairs.take(n as int), i) == 0,
    decreases n,
{
    if n > 0 {
        pair_count_is(pairs, (n - 1) as nat, i);
        assert(pairs.take(n as int).drop_last() =~= pairs.take(n - 1));
        assert(pairs.take(n as int).last() == pairs[n - 1]);
        if pairs[n - 1].0 == i {
            assert(pairs[n - 1].0 == i && pair_count(pairs.take(n as int), i) == pairs[n - 1].1);
        } else {
            if named(pairs, (n - 1) as nat, i) {
                let k = choose|k: int| 0 <= k < n - 1 && #[trigger] pairs[k].0 == i;
                assert(named(pairs, n, i));
            }
            if named(pairs, n, i) {
                let k = choose|k: int| 0 <= k < n && #[trigger] pairs[k].0 == i;
                assert(named(pairs, (n - 1) as nat, i));
            }
        }
    }
}

proof fn count_offsets(p: PdbModel, k: int)
    requires
        0 <= k <= p.table_counts.len(),
    ensures
        bytes::joined(p.count_parts().take(k)).len() == 4 * k,
    decreases k,
{
    if k == 0 {
        assert(p.count_parts().take(0) =~= Seq::<Seq<u8>>::empty());
    } else {
        count_offsets(p, k - 1);
        bytes::joined_step(p.count_parts(), k - 1);
    }
}

/// A `#Pdb` heap that was written reads back: its id, its entry point and the
/// row count of every table. This holds of heaps that name each table once.
pub proof fn pdb_round_trip(p: PdbModel)
    requires
        p.id.len() == 20,
        strictly_ascending(p.table_counts),
    ensures
        heaps::parsed_pdb(p.payload()) == Some(
            PdbView {
                data: p.payload(),
                id: p.id,
                entry_point: p.entry_point,
                mask: builder::pair_mask(p.table_counts, p.table_counts.len()),
                counts: pair_counts(p.table_counts),
            },
        ),
{
    let pairs = p.table_counts;
    let n = pairs.len();
    let mask = builder::pair_mask(pairs, n);
    let data = p.payload();
    let head = p.id + bytes::u32_le(p.entry_point) + bytes::u64_le(mask);
    let body = bytes::joined(p.count_parts());
    assert(data =~= head + body);
    assert(head.subrange(0, 20) =~= p.id);
    assert(head.subrange(20, 24) =~= bytes::u32_le(p.entry_point));
    assert(head.subrange(24, 32) =~= bytes::u64_le(mask));
    bytes::holds_extended(head, body, 0, p.id);
    bytes::holds_extended(head, body, 20, bytes::u32_le(p.entry_point));
    bytes::holds_extended(head, body, 24, bytes::u64_le(mask));
    bytes::u32_round_trip(data, 20, p.entry_point);
    bytes::u64_round_trip(data, 24, mask);
    count_offsets(p, n as int);
    assert(p.count_parts().take(n as int) =~= p.count_parts());
    bits_are_pairs(pairs, 0x38);
    all_below(pairs, n, 0x38);
    assert forall|i: int| 0 <= i < 0x38 implies heaps::counts_at(data, 32, mask)[i] == pair_counts(
        pairs,
    )[i] by {
        assert forall|k: int| 0 <= k < pairs.len() implies #[trigger] pairs[k].0 < 64 by {
            assert(pairs[k].0 < 0x38);
        }
        pair_mask_bits(pairs, n, i);
        pair_count_is(pairs, n, i);
        assert(pairs.take(n as int) =~= pairs);
        if named(pairs, n, i) {
            let k = choose|k: int|
                0 <= k < n && #[trigger] pairs[k].0 == i && pair_count(pairs.take(n as int), i)
                    == pairs[k].1;
            bits_are_pairs(pairs, i);
            rank_of_pair(pairs, n, k);
            count_offsets(p, k);
            bytes::joined_part(p.count_parts(), k);
            bytes::holds_shifted(head, body, 4 * k, p.count_parts()[k]);
            bytes::u32_round_trip(data, 32 + 4 * k, pairs[k].1);
        }
    }
    assert(heaps::counts_at(data, 32, mask) =~= pair_counts(pairs));
}

} // verus!
