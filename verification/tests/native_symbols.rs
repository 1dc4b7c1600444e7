use cecli::error::Error;
use cecli::pdb::native::functions::{S_BLOCK32, S_END, S_GMANPROC, S_GPROC32, S_PUB32};
use cecli::pdb::native::line_programs::{FILECHKSMS, LINES};
use cecli::pdb::native::symbols::{FunctionKey, LineEntry, NativePdbReader};
use cecli::token::Token;

fn w16(out: &mut Vec<u8>, v: u16) {
    out.extend_from_slice(&v.to_le_bytes());
}

fn w32(out: &mut Vec<u8>, v: u32) {
    out.extend_from_slice(&v.to_le_bytes());
}

fn cstr(out: &mut Vec<u8>, s: &str) {
    out.extend_from_slice(s.as_bytes());
    out.push(0);
}

// -- synthetic MSF assembly ------------------------------------------

/// Assembles streams into a little-endian MSF 7.00 image by hand:
/// superblock in block 0, stream data blocks from block 4 up, then the
/// directory blocks, then the directory-root blocks (which hold the
/// directory's own block-index list).
fn build_msf(streams: &[Vec<u8>]) -> Vec<u8> {
    const PAGE: usize = 512;
    let npages = |len: usize| len.div_ceil(PAGE);

    let mut total_stream_pages = 0usize;
    let mut stream_pages: Vec<Vec<u32>> = Vec::with_capacity(streams.len());
    let mut next_block: u32 = 4; // blocks 0..3 are reserved
    for s in streams {
        let n = npages(s.len());
        let mut pages = Vec::with_capacity(n);
        for _ in 0..n {
            pages.push(next_block);
            next_block += 1;
        }
        total_stream_pages += n;
        stream_pages.push(pages);
    }

    // Directory content: count, sizes, then per-stream block lists.
    let dir_size = 4 * (1 + streams.len() + total_stream_pages);
    let dir_pages = dir_size.div_ceil(PAGE);
    let root_pages = (dir_pages * 4).div_ceil(PAGE);
    let num_blocks = next_block as usize + dir_pages + root_pages;

    let dir_blocks: Vec<u32> = (next_block..next_block + dir_pages as u32).collect();
    let root_blocks: Vec<u32> =
        (next_block + dir_pages as u32..next_block + (dir_pages + root_pages) as u32).collect();

    let mut image = vec![0u8; num_blocks * PAGE];
    image[..32].copy_from_slice(b"Microsoft C/C++ MSF 7.00\r\n\x1aDS\0\0\0");
    let mut put = |off: usize, v: u32| image[off..off + 4].copy_from_slice(&v.to_le_bytes());

    // Superblock.
    put(32, PAGE as u32); // page size
    put(36, 1); // free page map block
    put(40, num_blocks as u32); // pages used
    put(44, dir_size as u32); // directory size
    put(48, 0); // reserved
    for (i, r) in root_blocks.iter().enumerate() {
        put(52 + i * 4, *r);
    }

    // Stream data pages.
    for (s, pages) in streams.iter().zip(&stream_pages) {
        for (i, p) in pages.iter().enumerate() {
            let start = i * PAGE;
            let end = (start + PAGE).min(s.len());
            if start < s.len() {
                let off = *p as usize * PAGE;
                image[off..off + (end - start)].copy_from_slice(&s[start..end]);
            }
        }
    }

    // Directory content spread over its blocks.
    let mut dir = Vec::with_capacity(dir_size);
    w32(&mut dir, streams.len() as u32);
    for s in streams {
        w32(&mut dir, s.len() as u32);
    }
    for pages in &stream_pages {
        for p in pages {
            w32(&mut dir, *p);
        }
    }
    assert_eq!(dir.len(), dir_size);
    for (i, b) in dir_blocks.iter().enumerate() {
        let start = i * PAGE;
        let end = (start + PAGE).min(dir_size);
        let off = *b as usize * PAGE;
        image[off..off + (end - start)].copy_from_slice(&dir[start..end]);
    }

    // Root blocks list the directory's own blocks.
    let mut roots = vec![0u8; root_pages * PAGE];
    for (i, b) in dir_blocks.iter().enumerate() {
        roots[i * 4..i * 4 + 4].copy_from_slice(&b.to_le_bytes());
    }
    for r in &root_blocks {
        let off = *r as usize * PAGE;
        image[off..off + PAGE].copy_from_slice(&roots[..PAGE]);
    }

    image
}

// -- stream builders ---------------------------------------------------

const GUID: [u8; 16] = [
    0x01, 0x23, 0x45, 0x67, 0x89, 0xab, 0xcd, 0xef, 0xfe, 0xdc, 0xba, 0x98, 0x76, 0x54, 0x32,
    0x10,
];

fn build_info_stream() -> Vec<u8> {
    let strings = b"/names\0";
    let mut out = Vec::new();
    w32(&mut out, 20000404); // version
    w32(&mut out, 1); // signature
    w32(&mut out, 2); // age
    out.extend_from_slice(&GUID);
    w32(&mut out, strings.len() as u32);
    out.extend_from_slice(strings);
    w32(&mut out, 1); // entry count
    w32(&mut out, 1); // maximum ni
    w32(&mut out, 1); // present bitset word count
    w32(&mut out, 1); // bit 0 set
    w32(&mut out, 1); // deleted bitset word count
    w32(&mut out, 0);
    w32(&mut out, 0); // string offset of "/names"
    w32(&mut out, 2); // -> stream 2
    out
}

fn build_names_stream() -> Vec<u8> {
    // Offset 0 in the /names heap is by convention an empty bucket slot,
    // so the strings start at 1.
    let strings = b"\0Foo.cs\0Bar.cs\0";
    let mut out = Vec::new();
    out.extend_from_slice(&0xef_fe_ef_fe_u32.to_le_bytes()); // signature
    w32(&mut out, 1); // version
    w32(&mut out, strings.len() as u32);
    out.extend_from_slice(strings);
    w32(&mut out, 2); // buckets
    w32(&mut out, 1); // ni of "Foo.cs"
    w32(&mut out, 8); // ni of "Bar.cs"
    out
}

/// Builds a proc record of the given kind. Managed procs carry the extra
/// `retReg: u16` field between `flags` and the name.
fn proc_record(kind: u16, name: &str, token: u32, off: u32, seg: u16) -> Vec<u8> {
    let mut rec = Vec::new();
    w16(&mut rec, kind);
    w32(&mut rec, 0); // parent
    w32(&mut rec, 0xffff); // end (absolute pointer; unused here)
    w32(&mut rec, 0); // next
    w32(&mut rec, 0x20); // proc length
    w32(&mut rec, 0); // dbg start
    w32(&mut rec, 0x20); // dbg end
    w32(&mut rec, token); // typind / metadata token
    w32(&mut rec, off);
    w16(&mut rec, seg);
    rec.push(0); // CV_PROCFLAGS
    if kind == S_GMANPROC {
        w16(&mut rec, 0); // retReg (ManProcSym only)
    }
    cstr(&mut rec, name);
    // CodeView records are padded so the *total* record length (including
    // the leading size field) is a multiple of 4.
    while (rec.len() + 2) % 4 != 0 {
        rec.push(0);
    }
    let mut out = Vec::new();
    w16(&mut out, rec.len() as u16);
    out.extend_from_slice(&rec);
    out
}

fn end_record() -> Vec<u8> {
    let mut out = Vec::new();
    w16(&mut out, 2);
    w16(&mut out, S_END);
    out
}

fn unknown_record() -> Vec<u8> {
    let mut rec = Vec::new();
    w16(&mut rec, 0x9999); // unrecognized kind: must be skipped by len
    rec.extend_from_slice(b"\xde\xad\xbe\xef");
    let mut out = Vec::new();
    w16(&mut out, rec.len() as u16);
    out.extend_from_slice(&rec);
    out
}

fn symbols_region(with_unknown: bool) -> Vec<u8> {
    let mut out = Vec::new();
    if with_unknown {
        out.extend_from_slice(&unknown_record());
    }
    out.extend_from_slice(&proc_record(S_GMANPROC, "Foo", 0x0600_0001, 0x1000, 1));
    out.extend_from_slice(&end_record());
    out
}

fn file_checksum_subsection() -> Vec<u8> {
    // entry @0: "Foo.cs" (ni 1) with a 16-byte MD5 checksum
    let mut e1 = Vec::new();
    w32(&mut e1, 1);
    e1.push(16);
    e1.push(1); // MD5
    e1.extend_from_slice(&[0xaa; 16]);
    while e1.len() % 4 != 0 {
        e1.push(0);
    }
    // entry @e1.len(): "Bar.cs" (ni 8) without checksum bytes
    let mut e2 = Vec::new();
    w32(&mut e2, 8);
    e2.push(0);
    e2.push(0);
    while e2.len() % 4 != 0 {
        e2.push(0);
    }
    let mut body = e1;
    body.extend_from_slice(&e2);

    let mut sub = Vec::new();
    w32(&mut sub, FILECHKSMS as u32);
    w32(&mut sub, body.len() as u32);
    sub.extend_from_slice(&body);
    sub
}

fn lines_subsection() -> Vec<u8> {
    let mut body = Vec::new();
    // CV_LineSection: off, sec, flags, cod
    w32(&mut body, 0x1000);
    w16(&mut body, 1);
    w16(&mut body, 0);
    w32(&mut body, 0x20);
    // CV_SourceFile: checksum offset index, line count, legacy linsiz
    w32(&mut body, 0);
    w32(&mut body, 2);
    w32(&mut body, 16);
    // CV_Line entries: offset, flags(line | deltaLineEnd<<24)
    w32(&mut body, 0);
    w32(&mut body, 5);
    w32(&mut body, 8);
    w32(&mut body, 10 | (3 << 24));

    let mut sub = Vec::new();
    w32(&mut sub, LINES as u32);
    w32(&mut sub, body.len() as u32);
    sub.extend_from_slice(&body);
    sub
}

struct ModuleStream {
    bytes: Vec<u8>,
    cb_syms: i32,
    cb_lines: i32,
}

fn build_module_stream(with_lines: bool, with_unknown: bool) -> ModuleStream {
    let syms = symbols_region(with_unknown);
    let cb_syms = (4 + syms.len()) as i32;

    let mut out = Vec::new();
    w32(&mut out, 4); // module stream signature
    out.extend_from_slice(&syms);

    let mut cb_lines = 0i32;
    if with_lines {
        for sub in [file_checksum_subsection(), lines_subsection()] {
            cb_lines += sub.len() as i32;
            out.extend_from_slice(&sub);
        }
    }
    ModuleStream { bytes: out, cb_syms, cb_lines }
}

fn dbi_header_bytes(gpmodi_len: usize) -> Vec<u8> {
    let mut out = Vec::new();
    w32(&mut out, (-1i32) as u32); // sig
    w32(&mut out, 19990903); // ver
    w32(&mut out, 2); // age
    w16(&mut out, 5); // gssymStream (globals)
    w16(&mut out, 0); // vers
    w16(&mut out, 0xffff); // pssymStream
    w16(&mut out, 0); // pdbver
    w16(&mut out, 0xffff); // symrecStream
    w16(&mut out, 0); // pdbver2
    w32(&mut out, gpmodi_len as u32); // gpmodiSize
    w32(&mut out, 0); // secconSize
    w32(&mut out, 0); // secmapSize
    w32(&mut out, 0); // filinfSize
    w32(&mut out, 0); // tsmapSize
    w32(&mut out, 0); // mfcIndex
    w32(&mut out, 0); // dbghdrSize (no optional header)
    w32(&mut out, 0); // ecinfoSize
    w16(&mut out, 0); // flags
    w16(&mut out, 0x8664); // machine
    w32(&mut out, 0); // reserved
    assert_eq!(out.len(), 64);
    out
}

fn module_info_entry(stream: i16, cb_syms: i32, cb_lines: i32) -> Vec<u8> {
    let mut out = Vec::new();
    w32(&mut out, 1); // opened
    out.extend_from_slice(&[0u8; 28]); // DbiSecCon
    w16(&mut out, 0); // flags
    w16(&mut out, stream as u16);
    w32(&mut out, cb_syms as u32);
    w32(&mut out, 0); // cbOldLines
    w32(&mut out, cb_lines as u32);
    w16(&mut out, 0); // files
    w16(&mut out, 0); // pad1
    w32(&mut out, 0); // offsets
    w32(&mut out, 0); // niSource
    w32(&mut out, 0); // niCompiler
    cstr(&mut out, "hello.obj");
    cstr(&mut out, "hello.obj");
    while out.len() % 4 != 0 {
        out.push(0);
    }
    out
}

fn globals_stream() -> Vec<u8> {
    let mut rec = Vec::new();
    w16(&mut rec, S_PUB32);
    w32(&mut rec, 0x0000_0006); // fCode | fFunction
    w32(&mut rec, 0x2000);
    w16(&mut rec, 1);
    cstr(&mut rec, "pubFoo");
    let mut out = Vec::new();
    w16(&mut out, rec.len() as u16);
    out.extend_from_slice(&rec);
    out
}

fn assemble_pdb(mods: &[ModuleStream], globals: &[u8]) -> Vec<u8> {
    let info = build_info_stream();
    let names = build_names_stream();

    // Stream layout: 0 absent, 1 info, 2 names, 3 DBI, 4+ module streams,
    // then the globals stream last.
    let globals_slot = 4 + mods.len();
    let mut gpmodi = Vec::new();
    for (i, m) in mods.iter().enumerate() {
        gpmodi.extend_from_slice(&module_info_entry((4 + i) as i16, m.cb_syms, m.cb_lines));
    }
    let mut dbi = dbi_header_bytes(gpmodi.len());
    dbi.extend_from_slice(&gpmodi);

    let mut streams: Vec<Vec<u8>> = vec![Vec::new(), info, names, dbi];
    for m in mods {
        streams.push(m.bytes.clone());
    }
    streams.push(globals.to_vec());
    assert_eq!(globals_slot, streams.len() - 1);
    build_msf(&streams)
}


#[test]
fn functions_lines_and_pdb_id_roundtrip() {
    let pdb = assemble_pdb(&[build_module_stream(true, false)], &globals_stream());
    let reader = NativePdbReader::open(&pdb).expect("open should succeed");

    let (guid, ver, sig, age) = reader.pdb_id();
    assert_eq!(guid, GUID);
    assert_eq!((ver, sig, age), (20000404, 1, 2));

    let funcs = reader.functions().expect("functions");
    assert_eq!(funcs.len(), 1);
    let f = &funcs[0];
    assert_eq!(f.token, Token(0x0600_0001));
    assert_eq!(f.name, "Foo");
    assert_eq!(f.ranges, vec![(0x1000u64, 0x20usize)]);
    assert_eq!(
        f.lines,
        vec![
            LineEntry { rva_delta: 0, line: 5, file: "Foo.cs".into() },
            LineEntry { rva_delta: 8, line: 10, file: "Foo.cs".into() },
        ]
    );
}

#[test]
fn find_by_token_hits_and_misses() {
    let pdb = assemble_pdb(&[build_module_stream(true, false)], &globals_stream());
    let reader = NativePdbReader::open(&pdb).expect("open should succeed");

    let hit = reader.find_by_token(Token(0x0600_0001)).expect("token hit");
    assert_eq!(hit.lines.len(), 2);

    assert!(reader.find_by_token(Token(0x0600_0002)).is_none());
}

#[test]
fn publics_walked_from_global_stream() {
    let pdb = assemble_pdb(&[build_module_stream(true, false)], &globals_stream());
    let reader = NativePdbReader::open(&pdb).expect("open should succeed");
    assert_eq!(reader.publics(), vec![("pubFoo".to_string(), 0x2000u64)]);
}
#[test]
fn source_files_from_checksum_subsections() {
    let pdb = assemble_pdb(&[build_module_stream(true, false)], &globals_stream());
    let reader = NativePdbReader::open(&pdb).expect("open should succeed");
    assert_eq!(reader.source_files(), vec!["Foo.cs", "Bar.cs"]);
}
#[test]
fn source_files_falls_back_to_names_heap_without_checksums() {
    let pdb = assemble_pdb(&[build_module_stream(false, false)], &globals_stream());
    let reader = NativePdbReader::open(&pdb).expect("open should succeed");

    // No FILECHKSMS subsection: every function still parses but has no
    // lines, and source files fall back to the /names heap.
    let funcs = reader.functions().expect("functions");
    assert_eq!(funcs.len(), 1);
    assert!(funcs[0].lines.is_empty());
    assert!(funcs[0].ranges.is_empty());
    assert_eq!(reader.source_files(), vec!["Foo.cs", "Bar.cs"]);
}

#[test]
fn unknown_symbol_kinds_are_skipped_by_length() {
    let pdb = assemble_pdb(&[build_module_stream(true, true)], &globals_stream());
    let reader = NativePdbReader::open(&pdb).expect("unknown record must be skipped cleanly");
    let funcs = reader.functions().expect("functions");
    assert_eq!(funcs.len(), 1);
    assert_eq!(funcs[0].lines.len(), 2);
}

#[test]
fn corrupt_record_length_is_a_hard_error() {
    let mut m = build_module_stream(true, false);
    // Blow up the S_GPROC32 record length (byte offset 4: right after the
    // module-stream signature dword) so it overruns the region.
    m.bytes[4..6].copy_from_slice(&0xffffu16.to_le_bytes());

    let pdb = assemble_pdb(&[m], &globals_stream());
    let err = NativePdbReader::open(&pdb).expect_err("overrunning record length must fail");
    assert!(matches!(err, Error::BadImage(_)), "expected BadImage, got {err:?}");
}

#[test]
fn undersized_record_length_is_a_hard_error() {
    let mut m = build_module_stream(true, false);
    // siz == 1 (< 2) is structurally impossible.
    m.bytes[4..6].copy_from_slice(&1u16.to_le_bytes());
    let pdb = assemble_pdb(&[m], &globals_stream());
    let err = NativePdbReader::open(&pdb).expect_err("undersized record length must fail");
    assert!(matches!(err, Error::BadImage(_)));
}
#[test]
fn wrong_module_signature_is_a_hard_error() {
    let mut m = build_module_stream(true, false);
    m.bytes[0..4].copy_from_slice(&7u32.to_le_bytes()); // sig must be 4
    let pdb = assemble_pdb(&[m], &globals_stream());
    let err = NativePdbReader::open(&pdb).expect_err("bad module signature must fail");
    assert!(matches!(err, Error::BadImage(_)));
}
#[test]
fn non_primary_segment_is_rejected_like_cecil() {
    let mut rec = proc_record(S_GMANPROC, "Foo", 0x0600_0001, 0x1000, 2);
    let mut syms = Vec::new();
    syms.append(&mut rec);
    syms.extend_from_slice(&end_record());

    let mut m = build_module_stream(false, false);
    // Replace the symbols payload with our segment-2 variant and fix cbSyms.
    let mut bytes = Vec::new();
    w32(&mut bytes, 4);
    bytes.extend_from_slice(&syms);
    m.bytes = bytes;
    m.cb_syms = (4 + syms.len()) as i32;

    let pdb = assemble_pdb(&[m], &globals_stream());
    let err =
        NativePdbReader::open(&pdb).expect_err("segment != 1 must fail");
    assert!(matches!(err, Error::BadImage(_)));
}
#[test]
fn multiple_functions_sorted_by_address_share_the_reader() {
    let mut m = build_module_stream(true, false);
    // Append a second function at a lower address directly into the
    // symbols region and grow cbSyms accordingly.
    let second = proc_record(S_GMANPROC, "Bar", 0x0600_0002, 0x0800, 1);
    let insert_at = 4usize;
    let old_syms_end = 4 + (m.cb_syms as usize - 4);
    let mut bytes = Vec::new();
    bytes.extend_from_slice(&m.bytes[..insert_at]);
    bytes.extend_from_slice(&second);
    bytes.extend_from_slice(&end_record());
    bytes.extend_from_slice(&m.bytes[insert_at..old_syms_end]);
    bytes.extend_from_slice(&m.bytes[old_syms_end..]);
    m.bytes = bytes;
    m.cb_syms += (second.len() + end_record().len()) as i32;

    let pdb = assemble_pdb(&[m], &globals_stream());
    let reader = NativePdbReader::open(&pdb).expect("open should succeed");
    let funcs = reader.functions().expect("functions");

    assert_eq!(funcs.len(), 2);
    // Sorted by (segment, address): Bar @0x800 before Foo @0x1000.
    assert!(funcs[0].ranges.is_empty());
    assert!(funcs[0].lines.is_empty());
    assert_eq!(funcs[1].name, "Foo");
    assert_eq!(funcs[1].lines.len(), 2);
}
#[test]
fn mixed_native_and_managed_procs_extract_managed_only() {
    // A native S_GPROC32 record sharing the managed proc's address: it
    // must be skipped by length (no token-map pollution) while the
    // managed record is extracted and receives its line program.
    let mut syms = Vec::new();
    syms.extend_from_slice(&proc_record(S_GPROC32, "NativeFoo", 0x1100_0001, 0x1000, 1));
    syms.extend_from_slice(&end_record());
    syms.extend_from_slice(&proc_record(S_GMANPROC, "Foo", 0x0600_0001, 0x1000, 1));
    syms.extend_from_slice(&end_record());

    let mut m = build_module_stream(false, false);
    let mut bytes = Vec::new();
    w32(&mut bytes, 4);
    bytes.extend_from_slice(&syms);
    for sub in [file_checksum_subsection(), lines_subsection()] {
        bytes.extend_from_slice(&sub);
        m.cb_lines += sub.len() as i32;
    }
    m.bytes = bytes;
    m.cb_syms = (4 + syms.len()) as i32;

    let pdb = assemble_pdb(&[m], &globals_stream());
    let reader = NativePdbReader::open(&pdb).expect("mixed image should open");
    let funcs = reader.functions().expect("functions");
    assert_eq!(funcs.len(), 1, "native proc must not be extracted");
    assert_eq!(funcs[0].token, Token(0x0600_0001));
    assert_eq!(funcs[0].name, "Foo");
    assert_eq!(funcs[0].lines.len(), 2);
    assert!(reader.find_by_token(Token(0x1100_0001)).is_none());
}

#[test]
fn truncated_proc_region_is_a_hard_error() {
    // No S_END after the proc record: the symbol region ends right there.
    let syms = proc_record(S_GMANPROC, "Foo", 0x0600_0001, 0x1000, 1);

    let mut m = build_module_stream(false, false);
    let mut bytes = Vec::new();
    w32(&mut bytes, 4);
    bytes.extend_from_slice(&syms);
    m.bytes = bytes;
    m.cb_syms = (4 + syms.len()) as i32;

    let pdb = assemble_pdb(&[m], &globals_stream());
    let err = NativePdbReader::open(&pdb).expect_err("missing S_END must fail");
    assert!(matches!(err, Error::BadImage(_)), "expected BadImage, got {err:?}");
}

#[test]
fn proc_without_s_end_before_next_record_is_a_hard_error() {
    // Two procs back to back: the first one is never terminated.
    let mut syms = proc_record(S_GMANPROC, "Foo", 0x0600_0001, 0x1000, 1);
    syms.extend_from_slice(&proc_record(S_GMANPROC, "Bar", 0x0600_0002, 0x2000, 1));
    syms.extend_from_slice(&end_record());

    let mut m = build_module_stream(false, false);
    let mut bytes = Vec::new();
    w32(&mut bytes, 4);
    bytes.extend_from_slice(&syms);
    m.bytes = bytes;
    m.cb_syms = (4 + syms.len()) as i32;

    let pdb = assemble_pdb(&[m], &globals_stream());
    let err = NativePdbReader::open(&pdb).expect_err("missing S_END must fail");
    assert!(matches!(err, Error::BadImage(_)));
}

#[test]
fn lines_for_function_resolves_by_token_and_rva() {
    let pdb = assemble_pdb(&[build_module_stream(true, false)], &globals_stream());
    let reader = NativePdbReader::open(&pdb).expect("open should succeed");

    let expected =
        vec![(0x1000u64, 5u32, "Foo.cs".to_string()), (0x1008u64, 10u32, "Foo.cs".to_string())];
    let by_token = reader
        .lines_for_function(FunctionKey::Token(Token(0x0600_0001)))
        .expect("token lookup");
    assert_eq!(by_token, expected);

    // Inside [0x1000, 0x1020): resolves to the same function.
    let by_rva = reader.lines_for_function(FunctionKey::Rva(0x1010)).expect("rva lookup");
    assert_eq!(by_rva, expected);

    // Outside any range / unknown token: empty result.
    assert!(reader.lines_for_function(FunctionKey::Rva(0x9000)).expect("rva miss").is_empty());
    assert!(reader
        .lines_for_function(FunctionKey::Token(Token(0x0600_00ff)))
        .expect("token miss")
        .is_empty());
}

#[test]
fn scopes_that_stay_open_are_hard_errors() {
    for kind in [S_BLOCK32, S_GPROC32] {
        let mut syms = Vec::new();
        w16(&mut syms, 2);
        w16(&mut syms, kind);
        let mut m = build_module_stream(false, false);
        let mut bytes = Vec::new();
        w32(&mut bytes, 4);
        bytes.extend_from_slice(&syms);
        m.bytes = bytes;
        m.cb_syms = (4 + syms.len()) as i32;
        let pdb = assemble_pdb(&[m], &globals_stream());
        assert!(matches!(NativePdbReader::open(&pdb), Err(Error::BadImage(_))));
    }
}

#[test]
fn functions_are_sorted_by_the_tokens_that_a_row_map_gives() {
    let mut module = Vec::new();
    w32(&mut module, 4);
    for (name, token) in [("First", 0x0600_0001), ("Second", 0x0600_0002)] {
        module.extend_from_slice(&proc_record(S_GMANPROC, name, token, 0x1000, 1));
        module.extend_from_slice(&end_record());
    }
    let gpmodi = module_info_entry(4, module.len() as i32, 0);
    let mut dbi = dbi_header_bytes(gpmodi.len());
    dbi[48..52].copy_from_slice(&22u32.to_le_bytes()); // dbghdrSize
    dbi.extend_from_slice(&gpmodi);
    for field in 0..11 {
        w16(&mut dbi, if field == 6 { 6 } else { 0xffff }); // snTokenRidMap
    }
    let mut map = Vec::new();
    for rid in [0u32, 9, 4] {
        w32(&mut map, rid);
    }
    let pdb = build_msf(&[
        Vec::new(),
        build_info_stream(),
        build_names_stream(),
        dbi,
        module,
        globals_stream(),
        map,
    ]);
    let funcs = NativePdbReader::open(&pdb).unwrap().functions().unwrap();
    let found: Vec<(u32, &str)> = funcs.iter().map(|f| (f.token.0, f.name.as_str())).collect();
    assert_eq!(found, vec![(0x0600_0004, "Second"), (0x0600_0009, "First")]);
}
