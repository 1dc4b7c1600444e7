use cecli::pdb::native::msf::{
    BitSet, ByteOrder, MsfImage, StreamData, HEADER_SIZE, WINDOWS_PDB_MAGIC,
};

const PAGE: usize = 512;

/// Builds a synthetic little- or big-endian MSF with:
/// - page 0: superblock (+ directory root entry listing page 5),
/// - page 1: free-block map marking page 7 free,
/// - pages 2, 4: stream 1 (1000 bytes, deliberately fragmented),
/// - page 3:   stream 2 (300 bytes),
/// - page 5:   directory block-index list (single entry -> page 6),
/// - page 6:   directory content (28 bytes),
/// - page 7:   free.
fn build_msf(be: bool) -> Vec<u8> {
    let put_u32 = |buf: &mut [u8], off: usize, v: u32| {
        let b = if be {
            v.to_be_bytes()
        } else {
            v.to_le_bytes()
        };
        buf[off..off + 4].copy_from_slice(&b);
    };

    let mut img = vec![0u8; 8 * PAGE];
    img[..32].copy_from_slice(&WINDOWS_PDB_MAGIC);

    // Stream contents with distinctive patterns.
    let s1: Vec<u8> = (0..1000u32).map(|i| (i % 251) as u8).collect();
    let s2: Vec<u8> = (0..300u32).map(|i| (200 + i % 55) as u8).collect();

    // Directory: count=3, sizes=[0,1000,300], then block lists [2,4] and [3].
    let mut dir = Vec::new();
    for v in [3u32, 0, 1000, 300, 2, 4, 3] {
        dir.extend_from_slice(&if be {
            v.to_be_bytes()
        } else {
            v.to_le_bytes()
        });
    }
    assert_eq!(dir.len(), 28);
    img[6 * PAGE..6 * PAGE + dir.len()].copy_from_slice(&dir);
    // Page 5 holds the directory's own block-index list: one entry -> page 6.
    put_u32(&mut img, 5 * PAGE, 6);
    img[2 * PAGE..2 * PAGE + PAGE].copy_from_slice(&s1[..PAGE]);
    img[4 * PAGE..4 * PAGE + s1.len() - PAGE].copy_from_slice(&s1[PAGE..]);
    img[3 * PAGE..3 * PAGE + s2.len()].copy_from_slice(&s2);

    // Header fields.
    put_u32(&mut img, 32, PAGE as u32); // page size
    put_u32(&mut img, 36, 1); // free page map on page 1
    put_u32(&mut img, 40, 7); // pages used
    put_u32(&mut img, 44, dir.len() as u32); // directory size
    put_u32(&mut img, 48, 0); // reserved

    // Directory root: directory fits in one page -> one root entry -> page 5.
    put_u32(&mut img, HEADER_SIZE, 5);

    // Free-block map on page 1: one word header + words marking page 7 free.
    put_u32(&mut img, PAGE, 16);
    put_u32(&mut img, PAGE + 4, 1 << 7);

    img
}

#[test]
fn parses_fragmented_streams_byte_equal() {
    let img = build_msf(false);
    let msf = MsfImage::parse(&img).expect("parses");

    assert_eq!(msf.page_size, 512);
    assert_eq!(msf.stream_count(), 3);
    assert!(msf.stream(0).is_none(), "size-0 stream is absent");

    let s1: Vec<u8> = (0..1000u32).map(|i| (i % 251) as u8).collect();
    let got1 = msf.stream(1).expect("stream 1");
    assert_eq!(got1, &s1[..]);

    let s2: Vec<u8> = (0..300u32).map(|i| (200 + i % 55) as u8).collect();
    let got2 = msf.stream(2).expect("stream 2");
    assert_eq!(got2, &s2[..]);

    // Fragmented stream was materialized; single-page stream stays borrowed.
    assert!(matches!(msf.stream_entry(1).unwrap().data, StreamData::Owned(_)));
    assert!(matches!(msf.stream_entry(2).unwrap().data, StreamData::Borrowed(_)));

    // Out-of-range index yields None rather than panicking.
    assert!(msf.stream(3).is_none());
    assert!(msf.stream(999).is_none());

    let listed: Vec<usize> = msf.streams().iter().map(|(i, _)| *i).collect();
    assert_eq!(listed, vec![1, 2]);
}

#[test]
fn parses_big_endian_variant() {
    let img = build_msf(true);
    let msf = MsfImage::parse(&img).expect("big-endian MSF parses");
    assert_eq!(msf.page_size, 512);
    assert_eq!(msf.stream_count(), 3);
    let s2: Vec<u8> = (0..300u32).map(|i| (200 + i % 55) as u8).collect();
    assert_eq!(msf.stream(2), Some(&s2[..]));
}

#[test]
fn corrupt_magic_is_err() {
    let mut img = build_msf(false);
    img[0] = b'X';
    assert!(MsfImage::parse(&img).is_err());

    // Empty and too-short inputs also fail cleanly.
    assert!(MsfImage::parse(&[]).is_err());
    assert!(MsfImage::parse(&img[..10]).is_err());
}

#[test]
fn truncated_directory_is_err() {
    let mut img = build_msf(false);
    // Claim a directory larger than the image.
    let v = 9_000_000u32.to_le_bytes();
    img[44..48].copy_from_slice(&v);
    assert!(MsfImage::parse(&img).is_err());

    // Cut bytes off the end (directory pages 5/6 gone).
    let img = build_msf(false);
    assert!(MsfImage::parse(&img[..6 * PAGE]).is_err());
}

#[test]
fn dangling_block_reference_is_err() {
    let mut img = build_msf(false);
    // Point stream 1's second block at page 42 (past the 8-page image).
    let v = 42u32.to_le_bytes();
    // Directory content sits on page 6: count(4) + 3 sizes(12) + first
    // block index(4) -> second block index of stream 1 at +20.
    let off = 6 * PAGE + 4 + 3 * 4 + 4;
    img[off..off + 4].copy_from_slice(&v);
    assert!(MsfImage::parse(&img).is_err());
}

#[test]
fn invalid_page_size_is_err() {
    let mut img = build_msf(false);
    let v = 500u32.to_le_bytes(); // not a power of two
    img[32..36].copy_from_slice(&v);
    assert!(MsfImage::parse(&img).is_err());
}

#[test]
fn free_block_map_decodes() {
    let img = build_msf(false);
    let (set, used) =
        BitSet::from_bytes(&img[PAGE..PAGE + 256], ByteOrder::Little).expect("bit set");
    assert_eq!(used, 68);
    assert!(!set.is_empty());
    assert!(set.is_set(7));
    assert!(!set.is_set(2));
    assert!(!set.is_set(64), "beyond declared words reads unset");
}
