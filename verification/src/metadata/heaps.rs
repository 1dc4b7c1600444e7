//! Read-only views over the metadata heaps: `#Strings`, `#US`, `#GUID`,
//! `#Blob`, and the portable-PDB `#Pdb` heap.
//!
//! All views borrow their payload from the metadata root slice. Of missing or
//! out-of-range indices they say:
//! - `#Strings` index 0 is the empty string; out-of-range reads yield `""`.
//! - `#Blob` index 0 (or out of range) yields an empty blob.
//! - `#GUID` index 0 (or out of range) yields 16 zero bytes.
//! - `#US` decodes a compressed UTF-16 length whose low bit carries the
//!   "contains special characters" flag byte.

use vstd::prelude::*;
use vstd::slice::slice_subrange;

use crate::bytes;
use crate::error::{Error, ErrorKind};
use crate::io;
use crate::io::ByteReader;
use crate::metadata::tables;
use crate::text;
use crate::text::Message;
use crate::token::TableIndex;

verus! {

broadcast use {crate::bytes::widths, crate::io::compressed_widths};

/// The string at `index` of a `#Strings` heap.
pub open spec fn string_at(data: Seq<u8>, index: u32) -> Option<Seq<char>> {
    if index == 0 || index >= data.len() {
        Some(Seq::empty())
    } else {
        match bytes::zero_from(data, index as int) {
            None => None,
            Some(end) => text::strict_text(data.subrange(index as int, end)),
        }
    }
}

/// The `n` UTF-16 units that start at `pos`.
pub open spec fn units_at(data: Seq<u8>, pos: int, n: nat) -> Seq<u16> {
    Seq::new(n, |k: int| bytes::u16_at(data, pos + 2 * k))
}

/// The user string at `index` of a `#US` heap: a compressed length in bytes
/// whose lowest bit counts the trailing flag byte, and that many bytes of
/// UTF-16.
pub open spec fn user_string_at(data: Seq<u8>, index: u32) -> Option<Seq<char>> {
    match io::compressed_u32_at(data, index as int) {
        None => None,
        Some((raw, width)) => {
            let units = raw / 2;
            if units == 0 {
                Some(Seq::empty())
            } else if index + width + 2 * units > data.len() {
                None
            } else {
                text::utf16_text(units_at(data, index + width, units as nat))
            }
        },
    }
}

/// The blob at `index` of a `#Blob` heap: a compressed length and that many
/// bytes.
pub open spec fn blob_at(data: Seq<u8>, index: u32) -> Option<Seq<u8>> {
    if index == 0 || index >= data.len() {
        Some(Seq::empty())
    } else {
        match io::compressed_u32_at(data, index as int) {
            None => None,
            Some((length, width)) => if index + width + length > data.len() {
                None
            } else {
                Some(data.subrange(index + width, index + width + length))
            },
        }
    }
}

/// What is said of a string that cannot be read.
pub open spec fn string_failure(data: Seq<u8>, index: u32) -> Seq<char> {
    (if bytes::zero_from(data, index as int) is None {
        "unterminated string at #Strings index "@
    } else {
        "invalid UTF-8 at #Strings index "@
    }) + text::decimal(index as nat)
}

/// What is said of a user string that cannot be read.
pub open spec fn user_string_failure(data: Seq<u8>, index: u32) -> Seq<char> {
    match io::compressed_u32_at(data, index as int) {
        None => io::short_read(
            1,
            if index < data.len() {
                data.len()
            } else {
                index as nat
            },
            data.len(),
        ),
        Some((raw, width)) => if index + width + raw / 2 * 2 > data.len() {
            io::short_read((raw / 2 * 2) as nat, (index + width) as nat, data.len())
        } else {
            "invalid UTF-16 at #US index "@ + text::decimal(index as nat)
        },
    }
}

/// What is said of a blob that cannot be read.
pub open spec fn blob_failure(data: Seq<u8>, index: u32) -> Seq<char> {
    match io::compressed_u32_at(data, index as int) {
        None => io::short_read(1, data.len(), data.len()),
        Some((length, width)) => "blob length "@ + text::decimal(length as nat)
            + " overruns heap at #Blob index "@ + text::decimal(index as nat),
    }
}

/// The GUID with the 1-based number `index` of a `#GUID` heap.
pub open spec fn guid_at(data: Seq<u8>, index: u32) -> Seq<u8> {
    if index == 0 || 16 * index > data.len() {
        bytes::zero_bytes(16)
    } else {
        data.subrange(16 * (index - 1), 16 * index)
    }
}

/// The `#Strings` heap: NUL-terminated UTF-8 strings, indexed by byte offset.
#[derive(Debug, Clone, Copy)]
pub struct StringHeap<'a> {
    data: &'a [u8],
}

impl<'a> View for StringHeap<'a> {
    type V = Seq<u8>;

    closed spec fn view(&self) -> Seq<u8> {
        self.data@
    }
}

impl<'a> StringHeap<'a> {
    pub(crate) fn new(data: &'a [u8]) -> (h: Self)
        ensures
            h@ == data@,
    {
        StringHeap { data }
    }

    /// Raw heap payload.
    pub fn data(&self) -> (d: &'a [u8])
        ensures
            d@ == self@,
    {
        self.data
    }

    /// Reads the NUL-terminated UTF-8 string at byte offset `index`.
    ///
    /// Index 0 and out-of-range indices return the empty string. A string
    /// without its zero byte, or that is not UTF-8, is an error.
    pub fn get(&self, index: u32) -> (r: Result<&'a str, Error>)
        ensures
            match string_at(self@, index) {
                Some(t) => r is Ok && r->Ok_0@ == t,
                None => r is Err && r->Err_0.kind() == ErrorKind::BadImage && r->Err_0.text()
                    == string_failure(self@, index),
            },
    {
        let start: usize = index as usize;
        if index == 0 || start >= self.data.len() {
            proof {
                reveal_strlit("");
                assert(""@ =~= Seq::<char>::empty());
            }
            return Ok("");
        }
        match bytes::find_zero(self.data, start) {
            None => Err(
                Error::bad_image(
                    Message::new("unterminated string at #Strings index ").count(
                        index as u64,
                    ).as_str(),
                ),
            ),
            Some(end) => {
                match text::from_utf8(slice_subrange(self.data, start, end)) {
                    Ok(s) => Ok(s),
                    Err(_) => Err(
                        Error::bad_image(
                            Message::new("invalid UTF-8 at #Strings index ").count(
                                index as u64,
                            ).as_str(),
                        ),
                    ),
                }
            },
        }
    }
}

/// The `#US` user-string heap: compressed-length-prefixed UTF-16 strings with
/// a trailing flag byte.
#[derive(Debug, Clone, Copy)]
pub struct UserStringHeap<'a> {
    data: &'a [u8],
}

impl<'a> View for UserStringHeap<'a> {
    type V = Seq<u8>;

    closed spec fn view(&self) -> Seq<u8> {
        self.data@
    }
}

impl<'a> UserStringHeap<'a> {
    pub(crate) fn new(data: &'a [u8]) -> (h: Self)
        ensures
            h@ == data@,
    {
        UserStringHeap { data }
    }

    /// Raw heap payload.
    pub fn data(&self) -> (d: &'a [u8])
        ensures
            d@ == self@,
    {
        self.data
    }

    /// Decodes the UTF-16 string at byte offset `index`, honoring the flag
    /// byte encoded in the low bit of the compressed length.
    pub fn get(&self, index: u32) -> (r: Result<String, Error>)
        ensures
            match user_string_at(self@, index) {
                Some(t) => r is Ok && r->Ok_0@ == t,
                None => r is Err && r->Err_0.kind() == ErrorKind::BadImage && r->Err_0.text()
                    == user_string_failure(self@, index),
            },
    {
        broadcast use crate::io::compressed_widths;

        let mut r = ByteReader::at(self.data, index as usize);
        let raw: u32 = r.compressed_u32()?;
        let n: usize = (raw / 2) as usize;
        if n == 0 {
            return Ok(String::new());
        }
        let ghost at = r.pos() as int;
        let payload = r.read_bytes((raw / 2 * 2) as usize)?;
        let mut units: Vec<u16> = Vec::new();
        let mut i: usize = 0;
        while i < n
            invariant
                i <= n,
                n == raw / 2,
                payload@.len() == 2 * n,
                at + 2 * n <= self@.len(),
                0 <= at,
                payload@ == self@.subrange(at, at + 2 * n),
                units@ =~= units_at(self@, at, i as nat),
            decreases n - i,
        {
            proof {
                assert(payload@.subrange(2 * i, 2 * i + 2) =~= self@.subrange(
                    at + 2 * i,
                    at + 2 * i + 2,
                ));
                bytes::same_window(payload@, 2 * i, self@, at + 2 * i, 2);
            }
            units.push(bytes::get_u16(payload, 2 * i));
            i += 1;
        }
        match text::decode_utf16(&units) {
            Some(s) => Ok(s),
            None => Err(
                Error::bad_image(
                    Message::new("invalid UTF-16 at #US index ").count(index as u64).as_str(),
                ),
            ),
        }
    }
}

/// The `#Blob` heap: compressed-length-prefixed opaque byte blobs.
#[derive(Debug, Clone, Copy)]
pub struct BlobHeap<'a> {
    data: &'a [u8],
}

impl<'a> View for BlobHeap<'a> {
    type V = Seq<u8>;

    closed spec fn view(&self) -> Seq<u8> {
        self.data@
    }
}

impl<'a> BlobHeap<'a> {
    pub(crate) fn new(data: &'a [u8]) -> (h: Self)
        ensures
            h@ == data@,
    {
        BlobHeap { data }
    }

    /// Raw heap payload.
    pub fn data(&self) -> (d: &'a [u8])
        ensures
            d@ == self@,
    {
        self.data
    }

    /// Reads the blob at byte offset `index`. Index 0 and out-of-range
    /// indices return an empty slice.
    pub fn get(&self, index: u32) -> (r: Result<&'a [u8], Error>)
        ensures
            match blob_at(self@, index) {
                Some(b) => r is Ok && r->Ok_0@ == b,
                None => r is Err && r->Err_0.kind() == ErrorKind::BadImage && r->Err_0.text()
                    == blob_failure(self@, index),
            },
    {
        broadcast use crate::io::compressed_widths;

        if index == 0 || index as usize >= self.data.len() {
            let nothing = slice_subrange(self.data, 0, 0);
            proof {
                assert(nothing@ =~= Seq::<u8>::empty());
            }
            return Ok(nothing);
        }
        let mut r = ByteReader::at(self.data, index as usize);
        let length: usize = r.compressed_u32()? as usize;
        if length > r.remaining() {
            return Err(
                Error::bad_image(
                    Message::new("blob length ").count(length as u64).text(
                        " overruns heap at #Blob index ",
                    ).count(index as u64).as_str(),
                ),
            );
        }
        r.read_bytes(length)
    }
}

/// The `#GUID` heap: fixed-size 16-byte GUIDs addressed 1-based.
#[derive(Debug, Clone, Copy)]
pub struct GuidHeap<'a> {
    data: &'a [u8],
}

impl<'a> View for GuidHeap<'a> {
    type V = Seq<u8>;

    closed spec fn view(&self) -> Seq<u8> {
        self.data@
    }
}

impl<'a> GuidHeap<'a> {
    pub(crate) fn new(data: &'a [u8]) -> (h: Self)
        ensures
            h@ == data@,
    {
        GuidHeap { data }
    }

    /// Raw heap payload.
    pub fn data(&self) -> (d: &'a [u8])
        ensures
            d@ == self@,
    {
        self.data
    }

    /// Reads the 16-byte GUID with 1-based number `index`. Index 0 and
    /// out-of-range indices return zero bytes.
    pub fn get(&self, index: u32) -> (r: Result<[u8; 16], Error>)
        ensures
            r is Ok,
            r->Ok_0@ == guid_at(self@, index),
    {
        let mut guid: [u8; 16] = [0u8;16];
        if index == 0 || 16 * index as u64 > self.data.len() as u64 {
            proof {
                assert(guid@ =~= bytes::zero_bytes(16));
            }
            return Ok(guid);
        }
        let start: usize = (index as usize - 1) * 16;
        let mut i: usize = 0;
        while i < 16
            invariant
                i <= 16,
                start == 16 * (index - 1),
                start + 16 <= self.data@.len(),
                forall|k: int| 0 <= k < i ==> guid@[k] == self@[start + k],
            decreases 16 - i,
        {
            guid[i] = self.data[start + i];
            i += 1;
        }
        proof {
            assert(guid@ =~= guid_at(self@, index));
        }
        Ok(guid)
    }
}

/// What a `#Pdb` heap says.
#[verifier::ext_equal]
pub struct PdbView {
    pub data: Seq<u8>,
    pub id: Seq<u8>,
    pub entry_point: u32,
    pub mask: u64,
    pub counts: Seq<u32>,
}

/// How many of the bits below `i` are set.
pub open spec fn bits_below(mask: u64, i: int) -> nat
    decreases i,
{
    if i <= 0 {
        0
    } else {
        bits_below(mask, i - 1) + if tables::bit(mask, i - 1) {
            1nat
        } else {
            0nat
        }
    }
}

/// The row counts that stand from `pos` on, one for each of the first
/// fifty-six bits of the mask that is set, in ascending order.
pub open spec fn counts_at(data: Seq<u8>, pos: int, mask: u64) -> Seq<u32> {
    Seq::new(
        0x38,
        |i: int|
            if tables::bit(mask, i) {
                bytes::u32_at(data, pos + 4 * bits_below(mask, i))
            } else {
                0
            },
    )
}

/// A `#Pdb` payload: 20-byte id, entry point token, table mask, and a row
/// count for each table of the mask.
pub open spec fn parsed_pdb(data: Seq<u8>) -> Option<PdbView> {
    if data.len() < 32 {
        None
    } else {
        let mask = bytes::u64_at(data, 24);
        if 32 + 4 * bits_below(mask, 0x38) > data.len() {
            None
        } else {
            Some(
                PdbView {
                    data,
                    id: data.subrange(0, 20),
                    entry_point: bytes::u32_at(data, 20),
                    mask,
                    counts: counts_at(data, 32, mask),
                },
            )
        }
    }
}

/// The portable-PDB `#Pdb` heap: metadata for standalone PDB files.
#[derive(Debug, Clone, Copy)]
pub struct PdbHeap<'a> {
    data: &'a [u8],
    id: &'a [u8],
    entry_point: u32,
    type_system_tables: u64,
    row_counts: [u32; 0x38],
}

impl<'a> View for PdbHeap<'a> {
    type V = PdbView;

    closed spec fn view(&self) -> PdbView {
        PdbView {
            data: self.data@,
            id: self.id@,
            entry_point: self.entry_point,
            mask: self.type_system_tables,
            counts: self.row_counts@,
        }
    }
}

pub proof fn bits_below_bounds(mask: u64, i: int, j: int)
    requires
        0 <= i <= j,
    ensures
        bits_below(mask, i) <= bits_below(mask, j) <= bits_below(mask, i) + (j - i),
    decreases j,
{
    if i < j {
        bits_below_bounds(mask, i, j - 1);
    }
}

impl<'a> PdbHeap<'a> {
    /// Parses a `#Pdb` payload (20-byte id, entry point token, table mask,
    /// per-table row counts).
    pub fn parse(data: &'a [u8]) -> (r: Result<PdbHeap<'a>, Error>)
        ensures
            match parsed_pdb(data@) {
                Some(v) => r is Ok && r->Ok_0@ == v,
                None => r is Err && r->Err_0.kind() == ErrorKind::BadImage,
            },
    {
        let mut r = ByteReader::new(data);
        let id = r.read_bytes(20)?;
        let entry_point: u32 = r.u32()?;
        let mask: u64 = r.u64()?;
        let mut row_counts: [u32; 0x38] = [0u32;0x38];
        let mut i: usize = 0;
        while i < 0x38
            invariant
                i <= 0x38,
                r.data() == data@,
                r.pos() == 32 + 4 * bits_below(mask, i as int),
                data@.len() >= 32,
                r.pos() <= data@.len(),
                mask == bytes::u64_at(data@, 24),
                forall|k: int|
                    0 <= k < 0x38 ==> row_counts@[k] == if k < i {
                        counts_at(data@, 32, mask)[k]
                    } else {
                        0
                    },
            decreases 0x38 - i,
        {
            proof {
                bits_below_bounds(mask, i as int, 0x38);
                bits_below_bounds(mask, i + 1, 0x38);
            }
            if (mask >> (i as u64)) & 1 == 1 {
                row_counts[i] = r.u32()?;
            }
            i += 1;
        }
        proof {
            assert(row_counts@ =~= counts_at(data@, 32, mask));
        }
        Ok(PdbHeap { data, id, entry_point, type_system_tables: mask, row_counts })
    }

    /// Raw heap payload.
    pub fn data(&self) -> (d: &'a [u8])
        ensures
            d@ == self@.data,
    {
        self.data
    }

    /// The 20-byte PDB id.
    pub fn id(&self) -> (d: &'a [u8])
        ensures
            d@ == self@.id,
    {
        self.id
    }

    /// Entry point token (0 for libraries).
    pub fn entry_point(&self) -> (t: u32)
        ensures
            t == self@.entry_point,
    {
        self.entry_point
    }

    /// Whether the given table has rows recorded in this heap.
    pub fn has_table(&self, table: TableIndex) -> (b: bool)
        ensures
            b == tables::bit(self@.mask, table.number() as int),
    {
        (self.type_system_tables >> (table.to_u8() as u64)) & 1 == 1
    }

    /// Row count recorded in the heap for `table` (0 when absent).
    pub fn row_count(&self, table: TableIndex) -> (n: u32)
        ensures
            self@.counts.len() == 0x38,
            n == self@.counts[table.number() as int],
    {
        self.row_counts[table.to_u8() as usize]
    }
}

/// All heaps found in one metadata root. Streams that are absent carry empty
/// payloads.
#[derive(Debug, Clone, Copy)]
pub struct Heaps<'a> {
    /// The `#Strings` heap.
    pub strings: StringHeap<'a>,
    /// The `#US` heap.
    pub user_strings: UserStringHeap<'a>,
    /// The `#Blob` heap.
    pub blob: BlobHeap<'a>,
    /// The `#GUID` heap.
    pub guid: GuidHeap<'a>,
    /// The optional portable-PDB `#Pdb` heap.
    pub pdb: Option<PdbHeap<'a>>,
}

/// What the heaps of a root hold.
#[verifier::ext_equal]
pub struct HeapsView {
    pub strings: Seq<u8>,
    pub user_strings: Seq<u8>,
    pub blob: Seq<u8>,
    pub guid: Seq<u8>,
    pub pdb: Option<PdbView>,
}

impl<'a> View for Heaps<'a> {
    type V = HeapsView;

    open spec fn view(&self) -> HeapsView {
        HeapsView {
            strings: self.strings@,
            user_strings: self.user_strings@,
            blob: self.blob@,
            guid: self.guid@,
            pdb: match self.pdb {
                Some(p) => Some(p@),
                None => None,
            },
        }
    }
}

} // verus!
