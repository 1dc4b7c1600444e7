//! The layout of the `.text` section of an emitted image.

use vstd::prelude::*;

use crate::bytes;
use crate::pe::section::{DataDirectory, Range};

verus! {

/// RVA where the `.text` section begins in emitted images.
pub const TEXT_RVA: u32 = 0x2000;

/// Number of segments of the `.text` section.
pub const TEXT_SEGMENT_COUNT: usize = 17;

/// `value`, rounded up with the bits below `alignment` cleared: to a multiple
/// of the alignment where that is a power of two.
#[verifier::opaque]
pub open spec fn align_up(value: u32, alignment: u32) -> u32 {
    if alignment <= 1 {
        value
    } else {
        ((value + (alignment - 1)) as u32) & !((alignment - 1) as u32)
    }
}

/// Rounding up goes up, and by less than the alignment.
pub proof fn align_up_bounds(value: u32, alignment: u32)
    requires
        value + alignment - 1 <= u32::MAX,
    ensures
        value <= align_up(value, alignment),
        align_up(value, alignment) < value + alignment || (alignment == 0 && align_up(
            value,
            alignment,
        ) == value),
{
    reveal(align_up);
    if alignment > 1 {
        let mask = (alignment - 1) as u32;
        let sum = (value + mask) as u32;
        assert(sum & !mask <= sum) by (bit_vector);
        assert(sum >= mask ==> sum & !mask >= sum - mask) by (bit_vector);
    }
}

/// Rounding up to a power of two gives the next multiple of it.
#[verifier::spinoff_prover]
#[verifier::rlimit(80)]
pub proof fn align_up_is_next_multiple(value: u32, alignment: u32)
    requires
        alignment == 4 || alignment == 8 || alignment == 16 || alignment == 0x200 || alignment
            == 0x2000,
        value + alignment - 1 <= u32::MAX,
    ensures
        align_up(value, alignment) == value + bytes::padding(value as int, alignment as int),
        align_up(value, alignment) % alignment == 0,
{
    reveal(align_up);
    let sum = (value + (alignment - 1)) as u32;
    let n = value as int;
    if alignment == 4 {
        assert(sum - sum % 4 == n + bytes::padding(n, 4));
        assert((sum & !3u32) == sum - sum % 4) by (bit_vector);
    } else if alignment == 8 {
        assert(sum - sum % 8 == n + bytes::padding(n, 8));
        assert((sum & !7u32) == sum - sum % 8) by (bit_vector);
    } else if alignment == 16 {
        assert(sum - sum % 16 == n + bytes::padding(n, 16));
        assert((sum & !15u32) == sum - sum % 16) by (bit_vector);
    } else if alignment == 0x200 {
        assert(sum - sum % 0x200 == n + bytes::padding(n, 0x200));
        assert((sum & !0x1FFu32) == sum - sum % 0x200) by (bit_vector);
    } else {
        assert(sum - sum % 0x2000 == n + bytes::padding(n, 0x2000));
        assert((sum & !0x1FFFu32) == sum - sum % 0x2000) by (bit_vector);
    }
}

pub(crate) fn round_up(value: u32, alignment: u32) -> (r: u32)
    requires
        value + alignment - 1 <= u32::MAX,
    ensures
        r == align_up(value, alignment),
        value <= r,
        r < value + alignment || alignment == 0,
{
    proof {
        align_up_bounds(value, alignment);
        reveal(align_up);
    }
    if alignment <= 1 {
        return value;
    }
    (value + (alignment - 1)) & !(alignment - 1)
}

/// Segments of the `.text` section, in file order.
#[derive(Debug, Clone, Copy, PartialEq, Eq, Structural)]
pub enum TextSegment {
    ImportAddressTable,
    CliHeader,
    Code,
    Resources,
    Data,
    StrongNameSignature,
    /// The whole BSJB root; the per-heap segments behind it stay empty.
    MetadataHeader,
    TableHeap,
    StringHeap,
    UserStringHeap,
    GuidHeap,
    BlobHeap,
    PdbHeap,
    DebugDirectory,
    ImportDirectory,
    ImportHintNameTable,
    StartupStub,
}

impl TextSegment {
    /// The position of the segment in the section.
    pub open spec fn number(self) -> int {
        match self {
            TextSegment::ImportAddressTable => 0,
            TextSegment::CliHeader => 1,
            TextSegment::Code => 2,
            TextSegment::Resources => 3,
            TextSegment::Data => 4,
            TextSegment::StrongNameSignature => 5,
            TextSegment::MetadataHeader => 6,
            TextSegment::TableHeap => 7,
            TextSegment::StringHeap => 8,
            TextSegment::UserStringHeap => 9,
            TextSegment::GuidHeap => 10,
            TextSegment::BlobHeap => 11,
            TextSegment::PdbHeap => 12,
            TextSegment::DebugDirectory => 13,
            TextSegment::ImportDirectory => 14,
            TextSegment::ImportHintNameTable => 15,
            TextSegment::StartupStub => 16,
        }
    }

    /// The position of the segment in the section.
    pub fn to_usize(self) -> (n: usize)
        ensures
            n == self.number(),
            n < TEXT_SEGMENT_COUNT,
    {
        match self {
            TextSegment::ImportAddressTable => 0,
            TextSegment::CliHeader => 1,
            TextSegment::Code => 2,
            TextSegment::Resources => 3,
            TextSegment::Data => 4,
            TextSegment::StrongNameSignature => 5,
            TextSegment::MetadataHeader => 6,
            TextSegment::TableHeap => 7,
            TextSegment::StringHeap => 8,
            TextSegment::UserStringHeap => 9,
            TextSegment::GuidHeap => 10,
            TextSegment::BlobHeap => 11,
            TextSegment::PdbHeap => 12,
            TextSegment::DebugDirectory => 13,
            TextSegment::ImportDirectory => 14,
            TextSegment::ImportHintNameTable => 15,
            TextSegment::StartupStub => 16,
        }
    }
}

/// Where the segment starts when it follows the one before it.
pub open spec fn segment_start(map: Seq<Range>, n: int) -> int {
    if n == 0 {
        TEXT_RVA as int
    } else {
        map[n - 1].limit()
    }
}

/// The map with a segment right after the previous one.
pub open spec fn with_segment(map: Seq<Range>, n: int, length: usize) -> Seq<Range> {
    map.update(
        n,
        Range { start: segment_start(map, n) as u32, length: bytes::low32(length as int) },
    )
}

/// The map with a segment at the next aligned address, and the previous
/// segment stretched up to it.
pub open spec fn with_aligned(map: Seq<Range>, n: int, length: usize, align: u32) -> Seq<Range> {
    if n == 0 {
        map.update(0, Range { start: TEXT_RVA, length: bytes::low32(length as int) })
    } else {
        let start = align_up(map[n - 1].limit() as u32, align);
        map.update(
            n - 1,
            Range { start: map[n - 1].start, length: (start - map[n - 1].start) as u32 },
        ).update(n, Range { start, length: bytes::low32(length as int) })
    }
}

/// The data directory entry for a range; that of an empty range is zero.
pub open spec fn range_directory(range: Range) -> DataDirectory {
    DataDirectory {
        virtual_address: if range.length == 0 {
            0
        } else {
            range.start
        },
        size: range.length,
    }
}

/// How far a segment reaches into the section; one that is not mapped does not
/// reach into it.
pub open spec fn reach(range: Range) -> int {
    if range.start < TEXT_RVA {
        0
    } else {
        range.limit() - TEXT_RVA
    }
}

/// How far the first `n` segments reach.
pub open spec fn furthest(map: Seq<Range>, n: nat) -> int
    decreases n,
{
    if n == 0 {
        0
    } else {
        let front = furthest(map, (n - 1) as nat);
        if reach(map[n - 1]) > front {
            reach(map[n - 1])
        } else {
            front
        }
    }
}

/// How long the section is up to the end of its last mapped segment.
pub open spec fn mapped_length(map: Seq<Range>) -> int {
    furthest(map, map.len())
}

/// No segment reaches further than the furthest one, and the furthest one is
/// one of them, where any reaches into the section at all.
pub proof fn furthest_is_largest(map: Seq<Range>, n: nat)
    ensures
        furthest(map, n) >= 0,
        forall|k: int| 0 <= k < n ==> reach(#[trigger] map[k]) <= furthest(map, n),
        furthest(map, n) == 0 || exists|k: int|
            0 <= k < n && reach(#[trigger] map[k]) == furthest(map, n),
    decreases n,
{
    if n > 0 {
        furthest_is_largest(map, (n - 1) as nat);
        assert(reach(map[n - 1]) <= furthest(map, n));
    }
}

/// RVA layout of the text section.
#[derive(Debug, Clone, Copy)]
pub struct TextMap {
    map: [Range; TEXT_SEGMENT_COUNT],
}

impl View for TextMap {
    type V = Seq<Range>;

    closed spec fn view(&self) -> Seq<Range> {
        self.map@
    }
}

impl Default for TextMap {
    fn default() -> (m: TextMap)
        ensures
            m@ == Seq::new(17, |k: int| Range { start: 0, length: 0 }),
    {
        let m = TextMap { map: [Range::new(0, 0); 17] };
        proof {
            assert(m@ =~= Seq::new(17, |k: int| Range { start: 0, length: 0 }));
        }
        m
    }
}

impl TextMap {
    /// Adds a segment starting right after the previous one, unaligned.
    pub fn add(&mut self, segment: TextSegment, length: usize)
        requires
            segment_start(old(self)@, segment.number()) <= u32::MAX,
        ensures
            final(self)@ == with_segment(old(self)@, segment.number(), length),
    {
        let index: usize = segment.to_usize();
        let start: u32 = if index == 0 {
            TEXT_RVA
        } else {
            self.map[index - 1].end()
        };
        self.map[index] = Range::new(start, bytes::as_low32(length));
        proof {
            assert(self@ =~= with_segment(old(self)@, segment.number(), length));
        }
    }

    /// Adds a segment whose start is aligned up; the previous segment's
    /// length is stretched so the two stay contiguous.
    pub fn add_aligned(&mut self, segment: TextSegment, length: usize, align: u32)
        requires
            segment.number() > 0 ==> old(self)@[segment.number() - 1].limit() + align <= u32::MAX
                + 1,
            segment.number() > 0 ==> old(self)@[segment.number() - 1].limit() <= u32::MAX,
        ensures
            final(self)@ == with_aligned(old(self)@, segment.number(), length, align),
    {
        let index: usize = segment.to_usize();
        let start: u32 = if index == 0 {
            TEXT_RVA
        } else {
            let previous: Range = self.map[index - 1];
            let start: u32 = round_up(previous.end(), align);
            self.map[index - 1] = Range::new(previous.start, start - previous.start);
            start
        };
        self.map[index] = Range::new(start, bytes::as_low32(length));
        proof {
            assert(self@ =~= with_aligned(old(self)@, segment.number(), length, align));
        }
    }

    /// Adds a segment with an explicit range (used for empty tail segments).
    pub fn add_range(&mut self, segment: TextSegment, range: Range)
        ensures
            final(self)@ == old(self)@.update(segment.number(), range),
    {
        let index: usize = segment.to_usize();
        self.map[index] = range;
        proof {
            assert(self@ =~= old(self)@.update(segment.number(), range));
        }
    }

    pub fn get_range(&self, segment: TextSegment) -> (r: Range)
        ensures
            r == self@[segment.number()],
    {
        self.map[segment.to_usize()]
    }

    /// `(rva, size)` pair for the optional-header data directory of a segment.
    pub fn get_data_directory(&self, segment: TextSegment) -> (d: DataDirectory)
        ensures
            d == range_directory(self@[segment.number()]),
    {
        let range = self.get_range(segment);
        DataDirectory::new(
            if range.length == 0 {
                0
            } else {
                range.start
            },
            range.length,
        )
    }

    pub fn get_rva(&self, segment: TextSegment) -> (rva: u32)
        ensures
            rva == self@[segment.number()].start,
    {
        self.map[segment.to_usize()].start
    }

    pub fn get_next_rva(&self, segment: TextSegment) -> (rva: u32)
        requires
            self@[segment.number()].limit() <= u32::MAX,
        ensures
            rva == self@[segment.number()].limit(),
    {
        self.get_range(segment).end()
    }

    pub fn get_length(&self, segment: TextSegment) -> (n: u32)
        ensures
            n == self@[segment.number()].length,
    {
        self.map[segment.to_usize()].length
    }

    /// Total length of the text section, from `TEXT_RVA` through the last
    /// mapped segment; zero for a map that nothing was added to.
    pub fn total_length(&self) -> (n: u32)
        requires
            mapped_length(self@) <= u32::MAX,
        ensures
            n == mapped_length(self@),
    {
        let mut length: u64 = 0;
        let mut k: usize = 0;
        while k < TEXT_SEGMENT_COUNT
            invariant
                k <= TEXT_SEGMENT_COUNT,
                length == furthest(self@, k as nat),
            decreases TEXT_SEGMENT_COUNT - k,
        {
            let range: Range = self.map[k];
            if range.start >= TEXT_RVA {
                let end: u64 = (range.start - TEXT_RVA) as u64 + range.length as u64;
                if end > length {
                    length = end;
                }
            }
            k += 1;
        }
        length as u32
    }
}

} // verus!
