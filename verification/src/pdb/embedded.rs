//! Embedded Portable PDB wrapper.
//!
//! A portable PDB embedded into its assembly's PE debug directory uses the
//! "MPDB" container: a 4-byte magic, the uncompressed PDB length as a
//! little-endian `u32`, and the PDB bytes compressed with **raw** Deflate
//! (no zlib/gzip header). The wrapper is referenced by an
//! `IMAGE_DEBUG_DIRECTORY` entry of type
//! [`image_debug_type::EMBEDDED_PORTABLE_PDB`].

use vstd::prelude::*;

use crate::bytes;
use crate::error::{Error, ErrorKind};
use crate::text;
use crate::text::Message;

pub use crate::pdb::image_debug_type;

verus! {

broadcast use crate::bytes::widths;

/// The raw Deflate stream that `flate2` makes of the bytes at its default
/// level, or the text of its error.
pub uninterp spec fn deflated(data: Seq<u8>) -> Result<Seq<u8>, Seq<char>>;

/// The bytes that `flate2` reads from a raw Deflate stream that is sound up to
/// its end, or the text of its error.
pub uninterp spec fn inflated(data: Seq<u8>) -> Result<Seq<u8>, Seq<char>>;

/// The SHA-256 digest of the bytes.
pub uninterp spec fn sha256_digest(data: Seq<u8>) -> Seq<u8>;

/// Calls `flate2::write::DeflateEncoder`: writes all the bytes and finishes
/// the stream. The stream depends on the bytes alone, and reading it back
/// gives the bytes.
#[verifier::external_body]
fn deflate(data: &[u8]) -> (r: Result<Vec<u8>, String>)
    ensures
        deflated(data@) == outcome_view(r),
        r matches Ok(stream) ==> (inflated(stream@) matches Ok(b) && b == data@),
{
    let mut encoder = flate2::write::DeflateEncoder::new(
        Vec::new(),
        flate2::Compression::default(),
    );
    match std::io::Write::write_all(&mut encoder, data) {
        Ok(()) => match encoder.finish() {
            Ok(stream) => Ok(stream),
            Err(e) => Err(e.to_string()),
        },
        Err(e) => Err(e.to_string()),
    }
}

/// Calls `flate2::read::DeflateDecoder`: reads the stream to its end. What
/// comes out, or that the stream is not sound, depends on the bytes alone.
#[verifier::external_body]
fn inflate(data: &[u8]) -> (r: Result<Vec<u8>, String>)
    ensures
        inflated(data@) == outcome_view(r),
{
    let mut decoder = flate2::read::DeflateDecoder::new(data);
    let mut out = Vec::new();
    match std::io::Read::read_to_end(&mut decoder, &mut out) {
        Ok(_) => Ok(out),
        Err(e) => Err(e.to_string()),
    }
}

/// Calls `sha2::Sha256`: the digest of all the bytes, which depends on them
/// alone.
#[verifier::external_body]
fn digest(data: &[u8]) -> (d: [u8; 32])
    ensures
        d@ == sha256_digest(data@),
{
    <sha2::Sha256 as sha2::Digest>::digest(data).into()
}

/// The MPDB container magic.
pub open spec fn mpdb_magic() -> Seq<u8> {
    seq![0x4Du8, 0x50, 0x44, 0x42]
}

/// The container: magic, uncompressed length, compressed bytes.
pub open spec fn framed(length: int, compressed: Seq<u8>) -> Seq<u8> {
    mpdb_magic() + bytes::u32_le(bytes::low32(length)) + compressed
}

/// The uncompressed length that a container declares, and its compressed
/// bytes.
pub open spec fn unframed(payload: Seq<u8>) -> Option<(u32, Seq<u8>)> {
    if payload.len() < 8 || payload.take(4) != mpdb_magic() {
        None
    } else {
        Some((bytes::u32_at(payload, 4), payload.skip(8)))
    }
}

/// The bytes that a container holds: those of its stream, if their number is
/// the one that it declares.
pub open spec fn checked(declared: u32, inflated: Result<Seq<u8>, Seq<char>>) -> Option<Seq<u8>> {
    match inflated {
        Ok(pdb) if pdb.len() == declared => Some(pdb),
        _ => None,
    }
}

/// The bytes that a container holds.
pub open spec fn unwrapped(payload: Seq<u8>) -> Option<Seq<u8>> {
    match unframed(payload) {
        None => None,
        Some((declared, stream)) => checked(declared, inflated(stream)),
    }
}

/// Puts a compressed PDB of the given uncompressed length into the container.
pub fn frame(length: usize, compressed: &[u8]) -> (out: Vec<u8>)
    ensures
        out@ == framed(length as int, compressed@),
{
    let mut out: Vec<u8> = Vec::new();
    out.push(0x4D);
    out.push(0x50);
    out.push(0x44);
    out.push(0x42);
    bytes::push_u32(&mut out, bytes::as_low32(length));
    bytes::append(&mut out, compressed);
    proof {
        assert(out@ =~= framed(length as int, compressed@));
    }
    out
}

/// Takes a container apart: the declared length and the compressed bytes.
pub fn unframe<'a>(payload: &'a [u8]) -> (r: Result<(u32, &'a [u8]), Error>)
    ensures
        match unframed(payload@) {
            Some((declared, stream)) => r is Ok && r->Ok_0.0 == declared && r->Ok_0.1@ == stream,
            None => r is Err && r->Err_0.kind() == ErrorKind::BadImage,
        },
{
    let n: usize = payload.len();
    if n < 8 || payload[0] != 0x4D || payload[1] != 0x50 || payload[2] != 0x44 || payload[3]
        != 0x42 {
        proof {
            if n >= 8 {
                let head = payload@.take(4);
                assert(head[0] == payload@[0] && head[1] == payload@[1] && head[2] == payload@[2]
                    && head[3] == payload@[3]);
            }
        }
        return Err(Error::bad_image("embedded pdb payload is missing the MPDB magic"));
    }
    proof {
        assert(payload@.take(4) =~= mpdb_magic());
        assert(payload@.subrange(8, n as int) =~= payload@.skip(8));
    }
    Ok((bytes::get_u32(payload, 4), vstd::slice::slice_subrange(payload, 8, n)))
}

/// What a stream gave, or the text of its error.
pub open spec fn outcome_view(outcome: Result<Vec<u8>, String>) -> Result<Seq<u8>, Seq<char>> {
    match outcome {
        Ok(pdb) => Ok(pdb@),
        Err(e) => Err(e@),
    }
}

/// What is said of a container that does not hold what it declares.
pub open spec fn length_failure(declared: u32, inflated: Result<Seq<u8>, Seq<char>>) -> Seq<char> {
    match inflated {
        Ok(pdb) => "embedded pdb size mismatch: header says "@ + text::decimal(declared as nat)
            + ", inflated "@ + text::decimal(pdb.len()),
        Err(e) => "embedded pdb inflate failed: "@ + e,
    }
}

/// Checks what a compressed stream gave against the declared length.
pub fn check_length(declared: u32, inflated: Result<Vec<u8>, String>) -> (r: Result<
    Vec<u8>,
    Error,
>)
    ensures
        ({
            let outcome = outcome_view(inflated);
            match checked(declared, outcome) {
                Some(pdb) => r is Ok && r->Ok_0@ == pdb,
                None => r is Err && r->Err_0.kind() == ErrorKind::BadImage && r->Err_0.text()
                    == length_failure(declared, outcome),
            }
        }),
{
    match inflated {
        Err(e) => Err(
            Error::bad_image(
                Message::new("embedded pdb inflate failed: ").text(e.as_str()).as_str(),
            ),
        ),
        Ok(pdb) => {
            if pdb.len() as u64 != declared as u64 {
                Err(
                    Error::bad_image(
                        Message::new("embedded pdb size mismatch: header says ").count(
                            declared as u64,
                        ).text(", inflated ").count(pdb.len() as u64).as_str(),
                    ),
                )
            } else {
                Ok(pdb)
            }
        },
    }
}

/// Wraps a finished portable PDB into the MPDB container: magic,
/// uncompressed length, raw-Deflate-compressed PDB bytes. A PDB whose length
/// fits the container is what [`unwrap_embedded`] gives back.
pub fn wrap_embedded(pdb: &[u8]) -> (r: Result<Vec<u8>, Error>)
    ensures
        match deflated(pdb@) {
            Ok(stream) => r is Ok && r->Ok_0@ == framed(pdb@.len() as int, stream),
            Err(e) => r is Err && r->Err_0.kind() == ErrorKind::BadImage && r->Err_0.text()
                == "embedded pdb deflate failed: "@ + e,
        },
        r is Ok && pdb@.len() <= 0xFFFF_FFFF ==> unwrapped(r->Ok_0@) == Some(pdb@),
{
    match deflate(pdb) {
        Ok(stream) => {
            let out = frame(pdb.len(), stream.as_slice());
            proof {
                if pdb@.len() <= 0xFFFF_FFFF {
                    frame_round_trip(pdb@.len() as int, stream@);
                }
            }
            Ok(out)
        },
        Err(e) => Err(
            Error::bad_image(
                Message::new("embedded pdb deflate failed: ").text(e.as_str()).as_str(),
            ),
        ),
    }
}

/// A container gives back the length and the bytes that it was made of.
pub proof fn frame_round_trip(length: int, compressed: Seq<u8>)
    requires
        0 <= length <= 0xFFFF_FFFF,
    ensures
        unframed(framed(length, compressed)) == Some((length as u32, compressed)),
{
    let payload = framed(length, compressed);
    let n = bytes::low32(length);
    bytes::holds_in_concat(mpdb_magic(), bytes::u32_le(n), compressed);
    bytes::u32_round_trip(payload, 4, n);
    assert(payload.take(4) =~= mpdb_magic());
    assert(payload.skip(8) =~= compressed);
}

/// Unwraps an MPDB container: validates the magic, reads the declared length,
/// inflates the payload, and checks that the decompressed size matches.
pub fn unwrap_embedded(payload: &[u8]) -> (r: Result<Vec<u8>, Error>)
    ensures
        match unwrapped(payload@) {
            Some(pdb) => r is Ok && r->Ok_0@ == pdb,
            None => r is Err && r->Err_0.kind() == ErrorKind::BadImage,
        },
{
    let (declared, stream) = unframe(payload)?;
    check_length(declared, inflate(stream))
}

/// SHA-256 digest of `data` (the `PdbChecksum` debug-entry payload body).
pub fn sha256(data: &[u8]) -> (d: [u8; 32])
    ensures
        d@ == sha256_digest(data@),
{
    digest(data)
}

/// The payload of a `PdbChecksum` entry: `"SHA256"`, a zero and the digest.
pub open spec fn checksum_payload(digest: Seq<u8>) -> Seq<u8> {
    seq![0x53u8, 0x48, 0x41, 0x32, 0x35, 0x36, 0x00] + digest
}

/// Builds the `PdbChecksum` debug-entry payload around a digest.
pub fn checksum_payload_of(digest: &[u8; 32]) -> (out: Vec<u8>)
    ensures
        out@ == checksum_payload(digest@),
{
    let mut out: Vec<u8> = Vec::new();
    out.push(0x53);
    out.push(0x48);
    out.push(0x41);
    out.push(0x32);
    out.push(0x35);
    out.push(0x36);
    out.push(0x00);
    bytes::append(&mut out, vstd::array::array_as_slice(digest));
    proof {
        assert(out@ =~= checksum_payload(digest@));
    }
    out
}

/// Builds the `PdbChecksum` debug-entry payload: `"SHA256"\0` + digest.
pub fn pdb_checksum_payload(pdb: &[u8]) -> (out: Vec<u8>)
    ensures
        out@ == checksum_payload(sha256_digest(pdb@)),
{
    checksum_payload_of(&sha256(pdb))
}

} // verus!
