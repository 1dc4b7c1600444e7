//! Laws of what a writer replaces in place, and of the map of the text section as
//! it is filled.

use vstd::prelude::*;

use crate::bytes;
use crate::encoding_laws;
use crate::error::ErrorKind;
use crate::pe::checksum;
use crate::pe::section::Range;
use crate::pe::textmap;
use crate::pe::writer::WriterView;
use crate::token::Token;

verus! {

/// A replaced entry point stands in the sixth field of the runtime header, and
/// nothing else changes.
pub proof fn replaced_entry_point_stands(w: WriterView, token: Token, at: int)
    requires
        w.parts is None,
        w.metadata is None,
        w.entry_point_token == Some(token),
        w.timestamp is None,
        !w.compute_checksum,
        w.image.offset_of(w.image.cli_directory.virtual_address as u64) == Some(at),
        0 <= at,
        at + 24 <= w.image.raw.len(),
    ensures
        w.emitted() is Ok,
        w.emitted()->Ok_0.len() == w.image.raw.len(),
        encoding_laws::double_word(w.emitted()->Ok_0, at + 20) == token.0,
        forall|i: int|
            0 <= i < w.image.raw.len() && !(at + 20 <= i < at + 24) ==> w.emitted()->Ok_0[i]
                == w.image.raw[i],
{
    reveal(bytes::u32_le);
    let s = w.emitted()->Ok_0;
    let place = at + 20;
    encoding_laws::overwriting_changes_the_part(w.image.raw, place, bytes::u32_le(token.0));
    assert(s == bytes::overwrite(w.image.raw, place, bytes::u32_le(token.0)));
    assert(s.subrange(place, place + 4) =~= bytes::u32_le(token.0));
    bytes::u32_round_trip(s, place, token.0);
    encoding_laws::words_agree(s);
}

/// A computed checksum stands 88 bytes behind the signature. It is the sum of the
/// file with zeros in its place, and nothing else changes.
pub proof fn computed_checksum_stands(w: WriterView)
    requires
        w.parts is None,
        w.metadata is None,
        w.entry_point_token is None,
        w.timestamp is None,
        w.compute_checksum,
        0 <= w.image.pe_offset,
    ensures
        w.image.pe_offset + 92 > w.image.raw.len() ==> w.emitted() == Err::<Seq<u8>, ErrorKind>(
            ErrorKind::BadImage,
        ),
        w.image.pe_offset + 92 <= w.image.raw.len() ==> {
            let at = w.image.pe_offset + 88;
            let s = w.emitted()->Ok_0;
            &&& w.emitted() is Ok
            &&& s.len() == w.image.raw.len()
            &&& forall|i: int|
                0 <= i < s.len() && !(at <= i < at + 4) ==> #[trigger] s[i] == w.image.raw[i]
            &&& forall|zeroed: Seq<u8>|
                #![trigger checksum::pe_checksum(zeroed)]
                zeroed.len() == s.len() && (forall|i: int|
                    0 <= i < s.len() ==> #[trigger] zeroed[i] == if at <= i < at + 4 {
                        0
                    } else {
                        s[i]
                    }) ==> encoding_laws::double_word(s, at) == checksum::pe_checksum(zeroed)
        },
{
    reveal(bytes::u32_le);
    let raw = w.image.raw;
    if w.image.pe_offset + 92 <= raw.len() {
        let at = w.image.pe_offset + 88;
        let s = w.emitted()->Ok_0;
        checksum::checksum_reads_back(raw, at);
        encoding_laws::words_agree(s);
        assert forall|i: int| 0 <= i < s.len() && !(at <= i < at + 4) implies #[trigger] s[i]
            == raw[i] by {
            if i < at {
                assert(s.take(at)[i] == raw.take(at)[i]);
            } else {
                assert(s.skip(at + 4)[i - at - 4] == raw.skip(at + 4)[i - at - 4]);
            }
        }
        assert forall|zeroed: Seq<u8>|
            #![trigger checksum::pe_checksum(zeroed)]
            zeroed.len() == s.len() && (forall|i: int|
                0 <= i < s.len() ==> #[trigger] zeroed[i] == if at <= i < at + 4 {
                    0
                } else {
                    s[i]
                }) implies encoding_laws::double_word(s, at) == checksum::pe_checksum(zeroed) by {
            let z = checksum::without_checksum(s, at);
            assert(z.len() == s.len());
            assert forall|i: int| 0 <= i < s.len() implies zeroed[i] == #[trigger] z[i] by {}
            assert(zeroed =~= z);
        }
    }
}

/// A replaced root of another length, or of an image without metadata, is refused.
pub proof fn unfitting_metadata_is_refused(w: WriterView, root: Seq<u8>)
    requires
        w.parts is None,
        w.metadata == Some(root),
    ensures
        w.image.cli_header.metadata_rva == 0 ==> w.emitted() == Err::<Seq<u8>, ErrorKind>(
            ErrorKind::BadImage,
        ),
        w.image.cli_header.metadata_rva != 0 && root.len()
            != w.image.cli_header.metadata_size as usize ==> w.emitted() == Err::<
            Seq<u8>,
            ErrorKind,
        >(ErrorKind::InvalidOperation),
{
}

/// A segment is mapped where the one before it ends, the first one at `0x2000`;
/// the others stay where they are.
pub proof fn segments_are_mapped_in_turn(map: Seq<Range>, n: int, length: u32, k: int)
    requires
        0 <= n < map.len(),
        n > 0 ==> map[n - 1].start + map[n - 1].length <= u32::MAX,
        0 <= k < map.len(),
        k != n,
    ensures
        ({
            let after = textmap::with_segment(map, n, length as usize);
            &&& after.len() == map.len()
            &&& after[n].length == length
            &&& n == 0 ==> after[n].start == 0x2000
            &&& n > 0 ==> after[n].start == map[n - 1].start + map[n - 1].length
            &&& after[k] == map[k]
        }),
{
    encoding_laws::cutting_takes_off_multiples(length as int);
}

/// A segment that is mapped at a multiple of an alignment starts at the first one
/// behind the segment before it, and this one is stretched up to it.
pub proof fn aligned_segments_leave_no_gap(map: Seq<Range>, n: int, length: u32, align: u32, k: int)
    requires
        0 < n < map.len(),
        align == 4 || align == 8 || align == 16 || align == 0x200 || align == 0x2000,
        map[n - 1].start + map[n - 1].length + align - 1 <= u32::MAX,
        0 <= k < map.len(),
        k != n,
        k != n - 1,
    ensures
        ({
            let after = textmap::with_aligned(map, n, length as usize, align);
            let end = map[n - 1].start + map[n - 1].length;
            &&& after.len() == map.len()
            &&& after[n].length == length
            &&& after[n].start % align == 0
            &&& end <= after[n].start < end + align
            &&& after[n - 1].start == map[n - 1].start
            &&& after[n - 1].start + after[n - 1].length == after[n].start
            &&& after[k] == map[k]
        }),
{
    encoding_laws::cutting_takes_off_multiples(length as int);
    let end = (map[n - 1].start + map[n - 1].length) as u32;
    textmap::align_up_is_next_multiple(end, align);
    textmap::align_up_bounds(end, align);
}

} // verus!
