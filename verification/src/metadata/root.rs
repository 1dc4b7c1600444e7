//! Parsing and emitting the BSJB metadata root: the magic signature, the
//! runtime version string, and the stream directory locating the individual
//! heaps (`#~`, `#Strings`, `#US`, `#GUID`, `#Blob`, optionally `#Pdb`).
//!
//! Layout:
//!
//! ```text
//! u32  signature ("BSJB")
//! u16  major version
//! u16  minor version
//! u32  reserved
//! u32  version string length (NUL terminated, padded to a multiple of 4)
//! ...  version bytes
//! u16  flags
//! u16  number of streams
//! repeated per stream: u32 offset, u32 size, NUL-padded name
//! ```

use vstd::prelude::*;
use vstd::slice::slice_subrange;

use crate::bytes;
use crate::error::{Error, ErrorKind};
use crate::io;
use crate::io::{ByteReader, ByteWriter, Wording};
use crate::text;
use crate::text::Message;

verus! {

broadcast use crate::bytes::widths;

/// The `"BSJB"` magic signature at the start of every metadata root.
pub const METADATA_SIGNATURE: u32 = 0x424A_5342;

/// Directory entry for one stream inside the metadata root.
///
/// `offset` is relative to the start of the metadata root, exactly as stored
/// on disk.
#[derive(Debug, Clone, PartialEq, Eq)]
pub struct StreamHeader {
    /// Byte offset of the stream payload, relative to the root start.
    pub offset: u32,
    /// Payload size in bytes (excluding inter-stream alignment padding).
    pub size: u32,
    /// Stream name, e.g. `#~`, `#Strings`, `#US`.
    pub name: String,
}

/// Parsed metadata root header: everything before the stream payloads.
#[derive(Debug, Clone, PartialEq, Eq)]
pub struct RootHeader {
    /// Major version of the root format (always 1 in practice).
    pub major_version: u16,
    /// Minor version of the root format.
    pub minor_version: u16,
    /// Runtime version string, e.g. `v4.0.30319`.
    pub version: String,
    /// Reserved flags field (always 0 in practice).
    pub flags: u16,
    /// Stream directory in on-disk order.
    pub streams: Vec<StreamHeader>,
}

/// What a directory entry says.
#[verifier::ext_equal]
pub struct StreamView {
    pub offset: u32,
    pub size: u32,
    pub name: Seq<char>,
}

/// What a root header says.
#[verifier::ext_equal]
pub struct RootView {
    pub major_version: u16,
    pub minor_version: u16,
    pub version: Seq<char>,
    pub flags: u16,
    pub streams: Seq<StreamView>,
}

impl View for StreamHeader {
    type V = StreamView;

    open spec fn view(&self) -> StreamView {
        StreamView { offset: self.offset, size: self.size, name: self.name@ }
    }
}

/// What the entries of a directory say.
pub open spec fn stream_views(streams: Seq<StreamHeader>) -> Seq<StreamView> {
    Seq::new(streams.len(), |k: int| streams[k]@)
}

impl View for RootHeader {
    type V = RootView;

    open spec fn view(&self) -> RootView {
        RootView {
            major_version: self.major_version,
            minor_version: self.minor_version,
            version: self.version@,
            flags: self.flags,
            streams: stream_views(self.streams@),
        }
    }
}

impl RootHeader {
    /// Returns the header of the first stream with the name, if present.
    pub fn stream(&self, name: &str) -> (r: Option<&StreamHeader>)
        ensures
            match r {
                Some(h) => exists|i: int|
                    #![trigger self.streams@[i]]
                    0 <= i < self.streams@.len() && *h == self.streams@[i] && h.name@ == name@ && (
                    forall|j: int| 0 <= j < i ==> self.streams@[j].name@ != name@),
                None => forall|j: int|
                    0 <= j < self.streams@.len() ==> self.streams@[j].name@ != name@,
            },
    {
        let n: usize = self.streams.len();
        let mut i: usize = 0;
        while i < n
            invariant
                i <= n,
                n == self.streams@.len(),
                forall|j: int| 0 <= j < i ==> self.streams@[j].name@ != name@,
            decreases n - i,
        {
            if text::same(self.streams[i].name.as_str(), name) {
                return Some(&self.streams[i]);
            }
            i += 1;
        }
        None
    }
}

/// The `n` directory entries that start at `pos`: an offset, a size and a
/// name that ends in a zero byte and is padded to a multiple of four.
pub open spec fn directory(data: Seq<u8>, pos: int, n: nat) -> Option<Seq<StreamView>>
    decreases n,
{
    if n == 0 {
        Some(Seq::empty())
    } else if pos + 8 > data.len() {
        None
    } else {
        match bytes::zero_from(data, pos + 8) {
            None => None,
            Some(z) => {
                let next = (z + 4) / 4 * 4;
                if next > data.len() {
                    None
                } else {
                    match directory(data, next, (n - 1) as nat) {
                        None => None,
                        Some(rest) => Some(
                            seq![
                                StreamView {
                                    offset: bytes::u32_at(data, pos),
                                    size: bytes::u32_at(data, pos + 4),
                                    name: text::lossy_text(data.subrange(pos + 8, z)),
                                },
                            ] + rest,
                        ),
                    }
                }
            },
        }
    }
}

/// The root header at the start of `data`.
pub open spec fn parsed_root(data: Seq<u8>) -> Option<RootView> {
    if data.len() < 16 || bytes::u32_at(data, 0) != METADATA_SIGNATURE {
        None
    } else {
        let length = bytes::u32_at(data, 12);
        if 20 + length > data.len() {
            None
        } else {
            let count = bytes::u16_at(data, 18 + length);
            if count > (data.len() - (20 + length)) / 8 {
                None
            } else {
                match directory(data, 20 + length, count as nat) {
                    None => None,
                    Some(streams) => Some(
                        RootView {
                            major_version: bytes::u16_at(data, 4),
                            minor_version: bytes::u16_at(data, 6),
                            version: text::lossy_text(
                                bytes::until_zero(data.subrange(16, 16 + length)),
                            ),
                            flags: bytes::u16_at(data, 16 + length),
                            streams,
                        },
                    ),
                }
            }
        }
    }
}

/// What is said of a stream directory of `n` entries at `pos` that cannot be
/// read.
pub open spec fn directory_failure(data: Seq<u8>, pos: int, n: nat) -> Seq<char>
    decreases n,
{
    if n == 0 {
        Seq::empty()
    } else if pos + 4 > data.len() {
        io::short_read(4, pos as nat, data.len())
    } else if pos + 8 > data.len() {
        io::short_read(4, (pos + 4) as nat, data.len())
    } else {
        match bytes::zero_from(data, pos + 8) {
            None => "unterminated stream name"@,
            Some(end) => {
                let next = (end + 4) / 4 * 4;
                if next > data.len() {
                    io::seek_beyond(next as nat, data.len())
                } else {
                    directory_failure(data, next, (n - 1) as nat)
                }
            },
        }
    }
}

/// What is said of a root header that cannot be read.
pub open spec fn root_failure(data: Seq<u8>) -> Seq<char> {
    let len = data.len();
    let length = bytes::u32_at(data, 12) as nat;
    let count = bytes::u16_at(data, 18 + length as int) as nat;
    if len < 4 {
        io::short_read(4, 0, len)
    } else if bytes::u32_at(data, 0) != METADATA_SIGNATURE {
        "invalid metadata signature (expected \"BSJB\")"@
    } else if len < 6 {
        io::short_read(2, 4, len)
    } else if len < 8 {
        io::short_read(2, 6, len)
    } else if len < 12 {
        io::short_read(4, 8, len)
    } else if len < 16 {
        io::short_read(4, 12, len)
    } else if 16 + length > len {
        "version string length "@ + text::decimal(length) + " exceeds remaining "@ + text::decimal(
            (len - 16) as nat,
        ) + " bytes"@
    } else if 18 + length > len {
        io::short_read(2, 16 + length, len)
    } else if 20 + length > len {
        io::short_read(2, 18 + length, len)
    } else if count > (len - (20 + length)) / 8 {
        "stream count "@ + text::decimal(count) + " exceeds available stream directory"@
    } else {
        directory_failure(data, 20 + length as int, count)
    }
}

/// Parses the BSJB root header from the start of `data`.
///
/// Stream payload bounds are validated lazily via [`stream_slice`].
pub fn parse_root(data: &[u8]) -> (r: Result<RootHeader, Error>)
    ensures
        match parsed_root(data@) {
            Some(v) => r is Ok && r->Ok_0@ == v,
            None => r is Err && r->Err_0.kind() == ErrorKind::BadImage && (data@.len()
                <= isize::MAX ==> r->Err_0.text() == root_failure(data@)),
        },
{
    let mut r = ByteReader::new(data);
    if r.u32()? != METADATA_SIGNATURE {
        return Err(Error::bad_image("invalid metadata signature (expected \"BSJB\")"));
    }
    let major_version: u16 = r.u16()?;
    let minor_version: u16 = r.u16()?;
    let _reserved: u32 = r.u32()?;
    let version_length: usize = r.u32()? as usize;
    if version_length > r.remaining() {
        return Err(
            Error::bad_image(
                Message::new("version string length ").count(version_length as u64).text(
                    " exceeds remaining ",
                ).count(r.remaining() as u64).text(" bytes").as_str(),
            ),
        );
    }
    let version_bytes = r.read_bytes(version_length)?;
    let version: String = match bytes::find_zero(version_bytes, 0) {
        Some(end) => text::from_utf8_lossy(slice_subrange(version_bytes, 0, end)),
        None => text::from_utf8_lossy(version_bytes),
    };
    proof {
        if let Some(end) = bytes::zero_from(version_bytes@, 0) {
            assert(version_bytes@.subrange(0, end) =~= version_bytes@.take(end));
        }
    }
    let flags: u16 = r.u16()?;
    let stream_count: usize = r.u16()? as usize;
    if stream_count > r.remaining() / 8 {
        return Err(
            Error::bad_image(
                Message::new("stream count ").count(stream_count as u64).text(
                    " exceeds available stream directory",
                ).as_str(),
            ),
        );
    }
    let ghost start = r.pos() as int;
    let mut streams: Vec<StreamHeader> = Vec::new();
    let mut i: usize = 0;
    proof {
        if let Some(rest) = directory(data@, start, stream_count as nat) {
            assert(stream_views(streams@) + rest =~= rest);
        }
    }
    while i < stream_count
        invariant
            i <= stream_count,
            r.data() == data@,
            r.pos() <= data.len(),
            directory(data@, start, stream_count as nat) == (match directory(
                data@,
                r.pos() as int,
                (stream_count - i) as nat,
            ) {
                Some(rest) => Some(stream_views(streams@) + rest),
                None => None,
            }),
            parsed_root(data@) is Some ==> directory(data@, start, stream_count as nat) is Some,
            root_failure(data@) == directory_failure(
                data@,
                r.pos() as int,
                (stream_count - i) as nat,
            ),
        decreases stream_count - i,
    {
        let ghost p = r.pos() as int;
        let offset: u32 = r.u32()?;
        let size: u32 = r.u32()?;
        let at: usize = r.position();
        let end: usize = match bytes::find_zero(data, at) {
            Some(z) => z,
            None => {
                return Err(Error::bad_image("unterminated stream name"));
            },
        };
        let name: String = text::from_utf8_lossy(slice_subrange(data, at, end));
        let left: usize = data.len() - end;
        let step: usize = 4 - end % 4;
        if step > left {
            proof {
                assert((end + 4) / 4 * 4 == end + step);
            }
            return Err(
                io::beyond_error(
                    Wording::Plain,
                    (end as u64).wrapping_add(step as u64),
                    data.len() as u64,
                ),
            );
        }
        proof {
            assert((end + 4) / 4 * 4 == end + step);
        }
        r.seek(end + step)?;
        let ghost before = stream_views(streams@);
        streams.push(StreamHeader { offset, size, name });
        proof {
            let entry = StreamView { offset, size, name: name@ };
            assert(stream_views(streams@) =~= before.push(entry));
            if let Some(rest) = directory(data@, r.pos() as int, (stream_count - i - 1) as nat) {
                assert(before + (seq![entry] + rest) =~= stream_views(streams@) + rest);
            }
        }
        i += 1;
    }
    proof {
        assert(stream_views(streams@) + Seq::<StreamView>::empty() =~= stream_views(streams@));
    }
    Ok(RootHeader { major_version, minor_version, version, flags, streams })
}

/// Returns the payload slice of `header` within the root `data`, validating
/// that it lies entirely inside the root.
pub fn stream_slice<'a>(data: &'a [u8], header: &StreamHeader) -> (r: Result<&'a [u8], Error>)
    ensures
        match stream_payload(data@, header@) {
            Some(p) => r is Ok && r->Ok_0@ == p,
            None => r is Err && r->Err_0.kind() == ErrorKind::BadImage && r->Err_0.text()
                == "stream "@ + text::quoted(header.name@) + " ["@ + text::decimal(
                header.offset as nat,
            ) + ", "@ + text::decimal((header.offset + header.size) as nat)
                + ") lies outside metadata root of "@ + text::decimal(data@.len()) + " bytes"@,
        },
{
    let start: usize = header.offset as usize;
    if start > data.len() || header.size as usize > data.len() - start {
        return Err(
            Error::bad_image(
                Message::new("stream ").quoted(header.name.as_str()).text(" [").count(
                    start as u64,
                ).text(", ").count(header.offset as u64 + header.size as u64).text(
                    ") lies outside metadata root of ",
                ).count(data.len() as u64).text(" bytes").as_str(),
            ),
        );
    }
    Ok(slice_subrange(data, start, start + header.size as usize))
}

/// The payload of a stream inside the root.
pub open spec fn stream_payload(data: Seq<u8>, header: StreamView) -> Option<Seq<u8>> {
    if header.offset + header.size <= data.len() {
        Some(data.subrange(header.offset as int, header.offset + header.size))
    } else {
        None
    }
}

/// A text with at least one zero byte behind it, up to a multiple of four.
pub open spec fn padded_text(t: Seq<char>) -> Seq<u8> {
    text::utf8(t) + bytes::zero_bytes((4 - text::utf8(t).len() % 4) as nat)
}

/// A payload with zero bytes behind it, up to a multiple of four.
pub open spec fn aligned(payload: Seq<u8>) -> Seq<u8> {
    payload + bytes::zero_bytes(bytes::padding(payload.len() as int, 4))
}

/// Everything of a root before its directory.
#[verifier::opaque]
pub open spec fn root_prefix(version: Seq<char>, count: int) -> Seq<u8> {
    bytes::u32_le(METADATA_SIGNATURE) + bytes::u16_le(1) + bytes::u16_le(1) + bytes::u32_le(0)
        + bytes::u32_le(bytes::low32(padded_text(version).len() as int)) + padded_text(version)
        + bytes::u16_le(0) + bytes::u16_le(bytes::low16(count))
}

/// The payloads of a root, aligned.
pub open spec fn root_payloads(streams: Seq<(Seq<char>, Seq<u8>)>) -> Seq<Seq<u8>> {
    Seq::new(streams.len(), |k: int| aligned(streams[k].1))
}

/// The padded names of a root.
pub open spec fn root_names(streams: Seq<(Seq<char>, Seq<u8>)>) -> Seq<Seq<u8>> {
    Seq::new(streams.len(), |k: int| padded_text(streams[k].0))
}

/// Offset of payload `k` behind the first payload.
pub open spec fn payload_start(streams: Seq<(Seq<char>, Seq<u8>)>, k: int) -> int {
    bytes::joined(root_payloads(streams).take(k)).len() as int
}

/// Offset of the first payload.
pub open spec fn payload_base(version: Seq<char>, streams: Seq<(Seq<char>, Seq<u8>)>) -> int {
    (root_prefix(version, streams.len() as int).len() + 8 * streams.len() + bytes::joined(
        root_names(streams),
    ).len()) as int
}

/// One directory entry.
#[verifier::opaque]
pub open spec fn entry_bytes(offset: u32, size: u32, name: Seq<char>) -> Seq<u8> {
    bytes::u32_le(offset) + bytes::u32_le(size) + padded_text(name)
}

/// The directory entries of a root.
pub open spec fn root_entries(version: Seq<char>, streams: Seq<(Seq<char>, Seq<u8>)>) -> Seq<
    Seq<u8>,
> {
    Seq::new(
        streams.len(),
        |k: int|
            entry_bytes(
                bytes::low32(payload_base(version, streams) + payload_start(streams, k)),
                bytes::low32(streams[k].1.len() as int),
                streams[k].0,
            ),
    )
}

/// A complete root: header, directory and payloads.
#[verifier::opaque]
pub open spec fn root_bytes(version: Seq<char>, streams: Seq<(Seq<char>, Seq<u8>)>) -> Seq<u8> {
    root_prefix(version, streams.len() as int) + bytes::joined(root_entries(version, streams))
        + bytes::joined(root_payloads(streams))
}

/// Names and payloads of streams.
pub open spec fn named_payloads(streams: Seq<(&str, &[u8])>) -> Seq<(Seq<char>, Seq<u8>)> {
    Seq::new(streams.len(), |k: int| (streams[k].0@, streams[k].1@))
}

/// Appends the padded text.
fn push_padded(out: &mut Vec<u8>, t: &str)
    ensures
        final(out)@ == old(out)@ + padded_text(t@),
{
    let b = t.as_bytes();
    bytes::append(out, b);
    let n: usize = 4 - b.len() % 4;
    push_zeros(out, n);
    proof {
        assert(out@ =~= old(out)@ + padded_text(t@));
    }
}

fn push_zeros(out: &mut Vec<u8>, n: usize)
    ensures
        final(out)@ == old(out)@ + bytes::zero_bytes(n as nat),
{
    let mut i: usize = 0;
    while i < n
        invariant
            i <= n,
            out@ == old(out)@ + bytes::zero_bytes(i as nat),
        decreases n - i,
    {
        out.push(0);
        i += 1;
    }
}

/// Serializes a complete BSJB root: header followed by the given stream
/// payloads in order, each payload preceded by its directory entry and
/// aligned to a 4-byte boundary.
pub fn write_root(version: &str, streams: &[(&str, &[u8])]) -> (out: Vec<u8>)
    ensures
        out@ == root_bytes(version@, named_payloads(streams@)),
{
    let ghost named = named_payloads(streams@);
    let n: usize = streams.len();
    let mut names: Vec<u8> = Vec::new();
    let mut payload: Vec<u8> = Vec::new();
    let mut starts: Vec<usize> = Vec::new();
    let mut i: usize = 0;
    while i < n
        invariant
            i <= n,
            n == streams@.len(),
            named == named_payloads(streams@),
            starts@.len() == i,
            names@ == bytes::joined(root_names(named).take(i as int)),
            payload@ == bytes::joined(root_payloads(named).take(i as int)),
            forall|k: int| 0 <= k < i ==> starts@[k] == payload_start(named, k),
        decreases n - i,
    {
        let (name, data) = streams[i];
        proof {
            bytes::joined_step(root_names(named), i as int);
            bytes::joined_step(root_payloads(named), i as int);
        }
        starts.push(payload.len());
        push_padded(&mut names, name);
        let rem: usize = data.len() % 4;
        bytes::append(&mut payload, data);
        if rem != 0 {
            push_zeros(&mut payload, 4 - rem);
        } else {
            push_zeros(&mut payload, 0);
        }
        proof {
            assert(payload@ =~= bytes::joined(root_payloads(named).take(i as int)) + aligned(
                data@,
            ));
        }
        i += 1;
    }
    proof {
        assert(root_names(named).take(n as int) =~= root_names(named));
        assert(root_payloads(named).take(n as int) =~= root_payloads(named));
    }
    let mut padded: Vec<u8> = Vec::new();
    push_padded(&mut padded, version);
    proof {
        assert(padded@ =~= padded_text(version@));
    }
    let mut w = ByteWriter::new();
    w.u32(METADATA_SIGNATURE);
    w.u16(1);
    w.u16(1);
    w.u32(0);
    w.u32(bytes::as_low32(padded.len()));
    w.bytes(padded.as_slice());
    w.u16(0);
    w.u16(bytes::as_low16(n));
    proof {
        reveal(root_prefix);
        assert(w@ =~= root_prefix(version@, n as int));
    }
    let base: u128 = w.len() as u128 + names.len() as u128 + 8 * n as u128;
    let ghost entries = root_entries(version@, named);
    let ghost prefix = root_prefix(version@, n as int);
    let mut j: usize = 0;
    proof {
        assert(w@ =~= prefix + bytes::joined(entries.take(0)));
    }
    while j < n
        invariant
            j <= n,
            n == streams@.len(),
            named == named_payloads(streams@),
            starts@.len() == n,
            forall|k: int| 0 <= k < n ==> starts@[k] == payload_start(named, k),
            base == payload_base(version@, named),
            base <= 0xFFFF_FFFF_FFFF_FFFF * 10,
            entries == root_entries(version@, named),
            w@ == prefix + bytes::joined(entries.take(j as int)),
        decreases n - j,
    {
        let (name, data) = streams[j];
        proof {
            bytes::joined_step(entries, j as int);
        }
        let mut padded_name: Vec<u8> = Vec::new();
        push_padded(&mut padded_name, name);
        proof {
            assert(padded_name@ =~= padded_text(name@));
        }
        w.u32(((base + starts[j] as u128) % 0x1_0000_0000) as u32);
        w.u32(bytes::as_low32(data.len()));
        w.bytes(padded_name.as_slice());
        proof {
            reveal(entry_bytes);
            assert(w@ =~= prefix + (bytes::joined(entries.take(j as int)) + entries[j as int]));
        }
        j += 1;
    }
    proof {
        assert(entries.take(n as int) =~= entries);
    }
    w.bytes(payload.as_slice());
    proof {
        reveal(root_bytes);
    }
    w.into_vec()
}

/// What the directory of a written root says.
pub open spec fn written_streams(version: Seq<char>, streams: Seq<(Seq<char>, Seq<u8>)>) -> Seq<
    StreamView,
> {
    Seq::new(
        streams.len(),
        |k: int|
            StreamView {
                offset: bytes::low32(payload_base(version, streams) + payload_start(streams, k)),
                size: bytes::low32(streams[k].1.len() as int),
                name: streams[k].0,
            },
    )
}

proof fn padded_text_shape(t: Seq<char>)
    ensures
        padded_text(t).len() % 4 == 0,
        padded_text(t).len() > text::utf8(t).len(),
        padded_text(t).len() == text::utf8(t).len() / 4 * 4 + 4,
{
    let n = text::utf8(t).len();
    assert(n + (4 - n % 4) == n / 4 * 4 + 4);
}

proof fn entry_shape(offset: u32, size: u32, name: Seq<char>)
    ensures
        entry_bytes(offset, size, name).len() == 8 + padded_text(name).len(),
        padded_text(name).len() == text::utf8(name).len() / 4 * 4 + 4,
        bytes::holds_at(entry_bytes(offset, size, name), 0, bytes::u32_le(offset)),
        bytes::holds_at(entry_bytes(offset, size, name), 4, bytes::u32_le(size)),
        bytes::holds_at(entry_bytes(offset, size, name), 8, text::utf8(name)),
        entry_bytes(offset, size, name)[8 + text::utf8(name).len() as int] == 0,
{
    reveal(entry_bytes);
    padded_text_shape(name);
    let entry = entry_bytes(offset, size, name);
    let raw = text::utf8(name);
    assert(entry.subrange(0, 4) =~= bytes::u32_le(offset));
    assert(entry.subrange(4, 8) =~= bytes::u32_le(size));
    assert(entry.subrange(8, 8 + raw.len() as int) =~= raw);
}

proof fn entries_shape(version: Seq<char>, streams: Seq<(Seq<char>, Seq<u8>)>, k: int)
    requires
        0 <= k <= streams.len(),
    ensures
        bytes::joined(root_entries(version, streams).take(k)).len() == 8 * k + bytes::joined(
            root_names(streams).take(k),
        ).len(),
        bytes::joined(root_entries(version, streams).take(k)).len() % 4 == 0,
    decreases k,
{
    let entries = root_entries(version, streams);
    let names = root_names(streams);
    if k == 0 {
        assert(entries.take(0) =~= Seq::<Seq<u8>>::empty());
        assert(names.take(0) =~= Seq::<Seq<u8>>::empty());
    } else {
        entries_shape(version, streams, k - 1);
        bytes::joined_step(entries, k - 1);
        bytes::joined_step(names, k - 1);
        entry_shape(
            bytes::low32(payload_base(version, streams) + payload_start(streams, k - 1)),
            bytes::low32(streams[k - 1].1.len() as int),
            streams[k - 1].0,
        );
    }
}

proof fn prefix_shape(version: Seq<char>, count: int)
    ensures
        root_prefix(version, count).len() == 20 + padded_text(version).len(),
        root_prefix(version, count).len() % 4 == 0,
        ({
            let prefix = root_prefix(version, count);
            let n = padded_text(version).len() as int;
            &&& bytes::holds_at(prefix, 0, bytes::u32_le(METADATA_SIGNATURE))
            &&& bytes::holds_at(prefix, 4, bytes::u16_le(1))
            &&& bytes::holds_at(prefix, 6, bytes::u16_le(1))
            &&& bytes::holds_at(prefix, 12, bytes::u32_le(bytes::low32(n)))
            &&& bytes::holds_at(prefix, 16, padded_text(version))
            &&& bytes::holds_at(prefix, 16 + n, bytes::u16_le(0))
            &&& bytes::holds_at(prefix, 18 + n, bytes::u16_le(bytes::low16(count)))
        }),
{
    reveal(root_prefix);
    padded_text_shape(version);
    let prefix = root_prefix(version, count);
    let n = padded_text(version).len() as int;
    assert(prefix.subrange(0, 4) =~= bytes::u32_le(METADATA_SIGNATURE));
    assert(prefix.subrange(4, 6) =~= bytes::u16_le(1));
    assert(prefix.subrange(6, 8) =~= bytes::u16_le(1));
    assert(prefix.subrange(12, 16) =~= bytes::u32_le(bytes::low32(n)));
    assert(prefix.subrange(16, 16 + n) =~= padded_text(version));
    assert(prefix.subrange(16 + n, 18 + n) =~= bytes::u16_le(0));
    assert(prefix.subrange(18 + n, 20 + n) =~= bytes::u16_le(bytes::low16(count)));
}

/// A directory entry that stands in `data` on a multiple of four is read back.
proof fn entry_reads(data: Seq<u8>, pos: int, offset: u32, size: u32, name: Seq<char>, rest: nat)
    requires
        bytes::holds_at(data, pos, entry_bytes(offset, size, name)),
        pos % 4 == 0,
        bytes::zero_free(text::utf8(name)),
    ensures
        ({
            let next = pos + entry_bytes(offset, size, name).len();
            directory(data, pos, rest + 1) == match directory(data, next, rest) {
                None => None,
                Some(views) => Some(seq![StreamView { offset, size, name }] + views),
            }
        }),
{
    let entry = entry_bytes(offset, size, name);
    let raw = text::utf8(name);
    let m = raw.len() as int;
    let z = pos + 8 + m;
    entry_shape(offset, size, name);
    bytes::holds_within(data, pos, entry, 0, bytes::u32_le(offset));
    bytes::holds_within(data, pos, entry, 4, bytes::u32_le(size));
    bytes::holds_within(data, pos, entry, 8, raw);
    bytes::u32_round_trip(data, pos, offset);
    bytes::u32_round_trip(data, pos + 4, size);
    assert(data.subrange(pos, pos + entry.len())[8 + m] == data[z]);
    assert forall|i: int| pos + 8 <= i < z implies data[i] != 0 by {
        assert(data.subrange(pos + 8, pos + 8 + m)[i - (pos + 8)] == data[i]);
        assert(raw[i - (pos + 8)] != 0);
    }
    bytes::zero_from_is(data, pos + 8, z);
    text::utf8_round_trip(name);
    assert((z + 4) / 4 * 4 == pos + entry.len()) by {
        assert(m / 4 * 4 + 4 == padded_text(name).len());
    }
}

/// Offset of directory entry `k`.
spec fn entry_start(version: Seq<char>, streams: Seq<(Seq<char>, Seq<u8>)>, k: int) -> int {
    (root_prefix(version, streams.len() as int).len() + bytes::joined(
        root_entries(version, streams).take(k),
    ).len()) as int
}

proof fn entry_stands(version: Seq<char>, streams: Seq<(Seq<char>, Seq<u8>)>, k: int)
    requires
        0 <= k < streams.len(),
    ensures
        ({
            let view = written_streams(version, streams)[k];
            let entry = entry_bytes(view.offset, view.size, view.name);
            &&& bytes::holds_at(root_bytes(version, streams), entry_start(version, streams, k), entry)
            &&& entry_start(version, streams, k) % 4 == 0
            &&& entry_start(version, streams, k + 1) == entry_start(version, streams, k) + entry.len()
        }),
{
    reveal(root_bytes);
    let entries = root_entries(version, streams);
    let prefix = root_prefix(version, streams.len() as int);
    let at = bytes::joined(entries.take(k)).len() as int;
    prefix_shape(version, streams.len() as int);
    entries_shape(version, streams, k);
    bytes::joined_part(entries, k);
    bytes::holds_shifted(prefix, bytes::joined(entries), at, entries[k]);
    bytes::holds_extended(
        prefix + bytes::joined(entries),
        bytes::joined(root_payloads(streams)),
        prefix.len() + at,
        entries[k],
    );
}

proof fn written_directory_reads(version: Seq<char>, streams: Seq<(Seq<char>, Seq<u8>)>, k: int)
    requires
        0 <= k <= streams.len(),
        forall|j: int| 0 <= j < streams.len() ==> bytes::zero_free(text::utf8(#[trigger] streams[j].0)),
    ensures
        directory(
            root_bytes(version, streams),
            entry_start(version, streams, k),
            (streams.len() - k) as nat,
        ) == Some(written_streams(version, streams).skip(k)),
    decreases streams.len() - k,
{
    let data = root_bytes(version, streams);
    let views = written_streams(version, streams);
    if k == streams.len() {
        assert(views.skip(k) =~= Seq::<StreamView>::empty());
    } else {
        written_directory_reads(version, streams, k + 1);
        entry_stands(version, streams, k);
        let view = views[k];
        assert(bytes::zero_free(text::utf8(streams[k].0)));
        entry_reads(
            data,
            entry_start(version, streams, k),
            view.offset,
            view.size,
            view.name,
            (streams.len() - k - 1) as nat,
        );
        assert(seq![views[k]] + views.skip(k + 1) =~= views.skip(k));
    }
}

proof fn directory_ends(version: Seq<char>, streams: Seq<(Seq<char>, Seq<u8>)>)
    ensures
        payload_base(version, streams) == root_prefix(version, streams.len() as int).len()
            + bytes::joined(root_entries(version, streams)).len(),
{
    let count = streams.len() as int;
    entries_shape(version, streams, count);
    assert(root_entries(version, streams).take(count) =~= root_entries(version, streams));
    assert(root_names(streams).take(count) =~= root_names(streams));
}

proof fn payload_reads(data: Seq<u8>, at: int, whole: Seq<u8>, view: StreamView)
    requires
        bytes::holds_at(data, at, whole),
        data.len() <= 0xFFFF_FFFF,
        view.offset == bytes::low32(at),
        view.size == bytes::low32(whole.len() as int),
    ensures
        stream_payload(data, view) == Some(whole),
{
}

proof fn payload_stands(version: Seq<char>, streams: Seq<(Seq<char>, Seq<u8>)>, k: int)
    requires
        0 <= k < streams.len(),
        root_bytes(version, streams).len() <= 0xFFFF_FFFF,
    ensures
        stream_payload(root_bytes(version, streams), written_streams(version, streams)[k]) == Some(
            streams[k].1,
        ),
{
    let at = payload_start(streams, k);
    let base = payload_base(version, streams);
    let whole = streams[k].1;
    let data = root_bytes(version, streams);
    assert(bytes::holds_at(data, base + at, whole)) by {
        reveal(root_bytes);
        directory_ends(version, streams);
        let payloads = root_payloads(streams);
        let front = root_prefix(version, streams.len() as int) + bytes::joined(
            root_entries(version, streams),
        );
        bytes::joined_part(payloads, k);
        bytes::holds_shifted(front, bytes::joined(payloads), at, payloads[k]);
        assert(payloads[k].subrange(0, whole.len() as int) =~= whole);
        bytes::holds_within(data, base + at, payloads[k], 0, whole);
    }
    payload_reads(data, base + at, whole, written_streams(version, streams)[k]);
}

/// What a version reads back as: it ends before its first zero byte.
pub open spec fn version_read(version: Seq<char>) -> Seq<char> {
    text::lossy_text(bytes::until_zero(text::utf8(version)))
}

/// A version without a zero byte reads back whole.
pub proof fn version_reads_whole(version: Seq<char>)
    requires
        bytes::zero_free(text::utf8(version)),
    ensures
        version_read(version) == version,
{
    bytes::zero_from_found(text::utf8(version), 0);
    text::utf8_round_trip(version);
}

/// Zero bytes behind a text do not change where it ends.
proof fn padding_ends_text(version: Seq<char>)
    ensures
        bytes::until_zero(padded_text(version)) == bytes::until_zero(text::utf8(version)),
{
    let raw = text::utf8(version);
    let padded = padded_text(version);
    bytes::zero_from_found(raw, 0);
    match bytes::zero_from(raw, 0) {
        Some(z) => {
            bytes::zero_from_is(padded, 0, z);
            assert(padded.take(z) =~= raw.take(z));
        },
        None => {
            bytes::zero_from_is(padded, 0, raw.len() as int);
            assert(padded.take(raw.len() as int) =~= raw);
        },
    }
}

/// The fields before the directory of a written root.
proof fn header_stands(version: Seq<char>, streams: Seq<(Seq<char>, Seq<u8>)>)
    requires
        streams.len() <= 0xFFFF,
        root_bytes(version, streams).len() <= 0xFFFF_FFFF,
    ensures
        ({
            let data = root_bytes(version, streams);
            let n = padded_text(version).len() as int;
            &&& data.len() >= entry_start(version, streams, 0) + 8 * streams.len()
            &&& entry_start(version, streams, 0) == 20 + n
            &&& bytes::u32_at(data, 0) == METADATA_SIGNATURE
            &&& bytes::u16_at(data, 4) == 1
            &&& bytes::u16_at(data, 6) == 1
            &&& bytes::u32_at(data, 12) == n
            &&& bytes::until_zero(data.subrange(16, 16 + n)) == bytes::until_zero(
                text::utf8(version),
            )
            &&& bytes::u16_at(data, 16 + n) == 0
            &&& bytes::u16_at(data, 18 + n) == streams.len()
        }),
{
    reveal(root_bytes);
    let data = root_bytes(version, streams);
    let count = streams.len() as int;
    let prefix = root_prefix(version, count);
    let entries = root_entries(version, streams);
    let padded = padded_text(version);
    let n = padded.len() as int;
    prefix_shape(version, count);
    entries_shape(version, streams, count);
    assert(entries.take(count) =~= entries);
    assert(entries.take(0) =~= Seq::<Seq<u8>>::empty());
    let tail = bytes::joined(entries) + bytes::joined(root_payloads(streams));
    assert(data =~= prefix + tail);
    bytes::holds_extended(prefix, tail, 0, bytes::u32_le(METADATA_SIGNATURE));
    bytes::holds_extended(prefix, tail, 4, bytes::u16_le(1));
    bytes::holds_extended(prefix, tail, 6, bytes::u16_le(1));
    bytes::holds_extended(prefix, tail, 12, bytes::u32_le(bytes::low32(n)));
    bytes::holds_extended(prefix, tail, 16, padded);
    bytes::holds_extended(prefix, tail, 16 + n, bytes::u16_le(0));
    bytes::holds_extended(prefix, tail, 18 + n, bytes::u16_le(bytes::low16(count)));
    bytes::u32_round_trip(data, 0, METADATA_SIGNATURE);
    bytes::u16_round_trip(data, 4, 1);
    bytes::u16_round_trip(data, 6, 1);
    bytes::u32_round_trip(data, 12, bytes::low32(n));
    bytes::u16_round_trip(data, 16 + n, 0);
    bytes::u16_round_trip(data, 18 + n, bytes::low16(count));
    padding_ends_text(version);
}

/// A root that was written reads back: the version up to its first zero byte,
/// the names, and for each stream the very payload. This holds of every name
/// without a zero byte, as long as counts and sizes fit the fields of the
/// format.
pub proof fn root_round_trip(version: Seq<char>, streams: Seq<(Seq<char>, Seq<u8>)>)
    requires
        forall|j: int| 0 <= j < streams.len() ==> bytes::zero_free(text::utf8(#[trigger] streams[j].0)),
        streams.len() <= 0xFFFF,
        root_bytes(version, streams).len() <= 0xFFFF_FFFF,
    ensures
        parsed_root(root_bytes(version, streams)) == Some(
            RootView {
                major_version: 1,
                minor_version: 1,
                version: version_read(version),
                flags: 0,
                streams: written_streams(version, streams),
            },
        ),
        forall|k: int|
            #![trigger streams[k]]
            0 <= k < streams.len() ==> stream_payload(
                root_bytes(version, streams),
                written_streams(version, streams)[k],
            ) == Some(streams[k].1),
{
    header_stands(version, streams);
    written_directory_reads(version, streams, 0);
    assert(written_streams(version, streams).skip(0) =~= written_streams(version, streams));
    assert forall|k: int| #![trigger streams[k]] 0 <= k < streams.len() implies stream_payload(
        root_bytes(version, streams),
        written_streams(version, streams)[k],
    ) == Some(streams[k].1) by {
        payload_stands(version, streams, k);
    }
}

} // verus!
