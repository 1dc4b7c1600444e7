use cecli::error::Error;
use cecli::io::ByteWriter;
use cecli::pe::textmap::TEXT_RVA;
use cecli::pe::writer::CLI_HEADER_SIZE;
use cecli::pe::{
    compute_pe_checksum, ByteBuffer, EmitParts, Image, ImageDebugDirectory, ImageDebugEntry,
    ImageWriter, ModuleKind, TextMap, TextSegment,
};
use cecli::token::Token;

/// RVA of the first synthetic section (`.abc`).
const SEC1_VA: u32 = 0x1000;
/// RVA of the second synthetic section (`.def`).
const SEC2_VA: u32 = 0x2000;
/// RVA of the CLI header inside `.abc`.
const CLI_RVA: u32 = SEC1_VA;
/// RVA of the metadata root inside `.abc`.
const META_RVA: u32 = SEC1_VA + 0x100;
/// Entry-point token baked into the synthetic image.
const ENTRY_TOKEN: u32 = 0x0600_0001;
/// TimeDateStamp baked into the synthetic image.
const TIMESTAMP: u32 = 0x1234_5678;

/// The complete BSJB metadata root used by the synthetic image.
///
/// Version string "v4", zero streams.
fn tiny_metadata_root() -> Vec<u8> {
    let mut w = ByteWriter::new();
    w.u32(0x424A_5342); // BSJB
    w.u16(1); // MajorVersion
    w.u16(1); // MinorVersion
    w.u32(0); // Reserved
    w.u32(4); // Version length
    w.bytes(b"v4\0\0");
    w.u16(0); // Flags
    w.u16(0); // Stream count
    w.into_vec()
}

/// Builds a minimal but valid PE32 CLI image (I386, two sections) that
/// `Image::parse` accepts.
fn tiny_image() -> Vec<u8> {
    let mut w = ByteWriter::new();

    // DOS header
    w.u16(0x5A4D); // 'MZ'
    w.zeros(58); // up to 0x3C
    assert_eq!(w.position(), 0x3C);
    w.u32(0x40); // e_lfanew

    // PE signature + file header
    w.u32(0x0000_4550);
    w.u16(0x014C); // Machine = I386
    w.u16(2); // NumberOfSections
    w.u32(TIMESTAMP);
    w.u32(0); // PointerToSymbolTable
    w.u32(0); // NumberOfSymbols
    w.u16(0xE0); // SizeOfOptionalHeader
    w.u16(0x0102 | 0x0020); // ExecutableImage | 32BitMachine | LargeAddressAware

    // Optional header (PE32)
    w.u16(0x010B); // Magic
    w.u16(8); // LinkerVersion
    w.u32(0x400); // SizeOfCode
    w.u32(0x400); // SizeOfInitializedData
    w.u32(0); // SizeOfUninitializedData
    w.u32(SEC1_VA); // AddressOfEntryPoint
    w.u32(SEC1_VA); // BaseOfCode
    w.u32(0); // BaseOfData
    w.u32(0x0040_0000); // ImageBase
    w.u32(0x2000); // SectionAlignment
    w.u32(0x200); // FileAlignment
    w.u16(4); // OS major
    w.u16(0);
    w.u16(0); // Image major
    w.u16(0);
    w.u16(4); // Subsystem major
    w.u16(0);
    w.u32(0); // Win32VersionValue
    w.u32(0x4000); // SizeOfImage
    w.u32(0x200); // SizeOfHeaders
    w.u32(0); // Checksum
    w.u16(3); // SubSystem = Console
    w.u16(0x0540); // DllCharacteristics
    w.u32(0x0010_0000); // StackReserve
    w.u32(0x1000);
    w.u32(0x0010_0000); // HeapReserve
    w.u32(0x1000);
    w.u32(0); // LoaderFlags
    w.u32(16); // NumberOfRvaAndSizes

    // Data directories: only the COM+ directory is populated.
    for i in 0..16u32 {
        if i == 14 {
            w.u32(CLI_RVA);
            w.u32(0x48);
        } else {
            w.u32(0);
            w.u32(0);
        }
    }

    // Section headers (cursor is now at 0x138; headers end at 0x188).
    write_section_header(&mut w, b".abc", SEC1_VA, 0x400, 0x400, 0x200);
    write_section_header(&mut w, b".def", SEC2_VA, 0x200, 0x200, 0x600);

    // .abc content: CLI header at CLI_RVA (file 0x200).
    pad_to(&mut w, 0x200);
    w.u32(0x48); // Cb
    w.u16(2); // MajorRuntimeVersion
    w.u16(5); // MinorRuntimeVersion
    w.u32(META_RVA);
    w.u32(tiny_metadata_root().len() as u32);
    w.u32(1); // Flags = ILONLY
    w.u32(ENTRY_TOKEN);
    for _ in 0..6 {
        w.u32(0); // Resources, StrongName, CodeManager, VTableFixups,
                  // EATJumps, ManagedNative
    }

    // .abc content: metadata root at META_RVA (file 0x300).
    pad_to(&mut w, 0x300);
    w.bytes(&tiny_metadata_root());

    // Pad out to cover both sections' raw data (ends at 0x800).
    pad_to(&mut w, 0x800);

    w.into_vec()
}

fn write_section_header(
    w: &mut ByteWriter,
    name: &[u8; 4],
    va: u32,
    vsize: u32,
    srd: u32,
    ptr: u32,
) {
    w.bytes(name);
    w.zeros(4); // name padding
    w.u32(vsize);
    w.u32(va);
    w.u32(srd);
    w.u32(ptr);
    w.zeros(16); // relocs, line numbers, counts, characteristics
}

fn pad_to(w: &mut ByteWriter, offset: usize) {
    while w.len() < offset {
        w.u8(0);
    }
}

#[test]
fn read_write_roundtrip() {
    let mut b = ByteBuffer::new();
    b.u32_write(0xDEAD_BEEF);
    b.compressed_u32_write(0x3FFF);
    b.i64_write(-5);
    b.set_position(0).unwrap();
    assert_eq!(b.u32().unwrap(), 0xDEAD_BEEF);
    assert_eq!(b.compressed_u32().unwrap(), 0x3FFF);
    assert_eq!(b.i64().unwrap(), -5);
    assert_eq!(b.position(), b.length());
}

#[test]
fn patch_after_write() {
    let mut b = ByteBuffer::new();
    b.u32_write(1);
    let pos = b.position();
    b.u32_write(2);
    b.data_mut()[pos..pos + 4].copy_from_slice(&9u32.to_le_bytes());
    b.set_position(pos).unwrap();
    assert_eq!(b.u32().unwrap(), 9);
}

#[test]
fn compressed_i32_matches_core() {
    let cases = [
        0i32, 1, -1, 63, -64, 8191, -8192, 268_435_455, -268_435_456, 134_217_727, -134_217_728,
    ];
    for &c in &cases {
        let mut b = ByteBuffer::new();
        b.compressed_i32_write(c);
        let encoded = b.as_slice().to_vec();

        let mut core = ByteWriter::new();
        core.compressed_i32(c);

        let mut back = ByteBuffer::from_slice(&encoded);
        assert_eq!(back.compressed_i32().unwrap(), c, "decode mismatch for {c}");
        // The envelope must agree with the shared core encoder.
        assert_eq!(
            encoded, core.as_slice(),
            "envelope mismatch for {c}: ours {encoded:?} vs core {:?}",
            core.as_slice()
        );
    }
}

#[test]
fn out_of_bounds_read_is_error() {
    let mut b = ByteBuffer::from_slice(&[1, 2, 3]);
    assert!(b.u32().is_err());
    assert!(b.advance(-10).is_err());
}

/// Full rebuild of a synthetic image produces a parseable canonical
/// PE32 image with a recomputed checksum.
#[test]
fn rebuild_emits_parseable_pe32() {
    let source = Image::parse(&tiny_image()).unwrap();
    let parts = EmitParts {
        code: vec![0x90; 16], // nops
        resources: Vec::new(),
        data: Vec::new(),
        data_alignment: None,
        metadata: tiny_metadata_root(),
        strongname_size: 0,
        win32_resources: None,
        debug_entries: Vec::new(),
        entry_point_token: Token(ENTRY_TOKEN),
    };

    let out = ImageWriter::rebuild(&source, parts).emit().unwrap();
    let image = Image::parse(&out).unwrap();

    assert_eq!(image.architecture.0, 0x014C);
    let names: Vec<_> = image.sections.iter().map(|s| s.name.as_str()).collect();
    assert_eq!(names, vec![".text", ".reloc"]);

    let cli = image.cli_header();
    assert_eq!((cli.runtime_major, cli.runtime_minor), (2, 5));
    assert_eq!(cli.entry_point_token, Token(ENTRY_TOKEN));
    assert!(cli.resources_rva == 0 && cli.resources_size == 0);

    // Metadata landed where the CLI header says it did.
    let at = image.rva_offset(cli.metadata_rva).unwrap();
    assert_eq!(&out[at..at + 4], b"BSJB");

    // Code is present in .text.
    assert!(out.contains(&0x90), "code segment should appear in the emitted image");

    // Checksum was recomputed.
    let pe = image.pe_offset();
    let stored = u32::from_le_bytes(out[pe + 24 + 64..pe + 24 + 68].try_into().unwrap());
    assert_ne!(stored, 0);
    let mut zeroed = out.clone();
    zeroed[pe + 24 + 64..pe + 24 + 68].fill(0);
    assert_eq!(stored, compute_pe_checksum(&zeroed));

    // Timestamp preserved from the source image.
    let ts = u32::from_le_bytes(out[pe + 8..pe + 12].try_into().unwrap());
    assert_eq!(ts, TIMESTAMP);
}

#[test]
fn textmap_aligns_and_stretches_previous_segment() {
    let mut map = TextMap::default();
    map.add(TextSegment::ImportAddressTable, 8);
    map.add(TextSegment::CliHeader, CLI_HEADER_SIZE as usize);
    assert_eq!(map.get_rva(TextSegment::ImportAddressTable), TEXT_RVA);
    assert_eq!(map.get_rva(TextSegment::CliHeader), TEXT_RVA + 8);

    // Code starts aligned to 4; the CLI header length stretches so the
    // segments stay contiguous.
    map.add_aligned(TextSegment::Code, 3, 4);
    assert_eq!(map.get_rva(TextSegment::Code), TEXT_RVA + 8 + 72);
    assert_eq!(map.get_length(TextSegment::CliHeader), 72);

    // A misaligned previous segment gets stretched to the boundary.
    let mut map2 = TextMap::default();
    map2.add(TextSegment::ImportAddressTable, 5);
    map2.add_aligned(TextSegment::CliHeader, 10, 8);
    assert_eq!(map2.get_length(TextSegment::ImportAddressTable), 8);
    assert_eq!(map2.get_rva(TextSegment::CliHeader), TEXT_RVA + 8);

    assert_eq!(TextMap::default().total_length(), 0);
}

#[test]
fn pe_checksum_known_properties() {
    // Empty and odd-length inputs are stable.
    assert_eq!(compute_pe_checksum(&[]), 0xFFFF); // ~(0+0) truncated
    let mut data = vec![1u8; 101];
    data[64..68].fill(0);
    let c1 = compute_pe_checksum(&data);
    // Changing a payload byte changes the checksum.
    data[100] ^= 0xFF;
    assert_ne!(compute_pe_checksum(&data), c1);
}

#[test]
fn synthetic_image_parses_and_translates_rvas() {
    let data = tiny_image();
    let image = Image::parse(&data).unwrap();

    assert_eq!(image.kind, ModuleKind::Console);
    assert_eq!(image.timestamp, TIMESTAMP);
    assert_eq!(image.cli_header().runtime_major, 2);
    assert_eq!(image.cli_header().runtime_minor, 5);
    assert_eq!(image.entry_point_token(), Token(ENTRY_TOKEN));

    assert_eq!(image.rva_offset(SEC1_VA as u64).unwrap(), 0x200);
    assert_eq!(image.rva_offset((SEC1_VA + 0x100) as u64).unwrap(), 0x300);
    assert_eq!(image.rva_offset((SEC2_VA + 0x10) as u64).unwrap(), 0x610);
    assert!(image.rva_offset(0x40).is_err());
    assert!(image.rva_offset((SEC2_VA + 0x200) as u64).is_err());

    let meta = image.rva(META_RVA as u64).unwrap();
    assert_eq!(&meta[..4], b"BSJB");
    assert_eq!(image.rva(CLI_RVA as u64).unwrap()[0], 0x48);

    let (rva, size) = image.metadata_rva().unwrap();
    assert_eq!(rva, META_RVA as u64);
    assert_eq!(size, tiny_metadata_root().len());

    assert_eq!(image.sections.len(), 2);
    assert_eq!(image.section(".abc").unwrap().virtual_address, SEC1_VA);
    assert!(image.section(".text").is_none());
    assert_eq!(image.section_at_virtual_address(SEC2_VA as u64).unwrap().name, ".def");
    assert!(image.section_at_virtual_address(0x40).is_none());
}

#[test]
fn damaged_images_are_bad_images() {
    let good = tiny_image();
    assert!(matches!(Image::parse(&[]), Err(Error::BadImage(_))));
    let mut no_dos = good.clone();
    no_dos[0] = 0;
    assert!(matches!(Image::parse(&no_dos), Err(Error::BadImage(_))));
    let mut no_pe = good.clone();
    no_pe[0x40] = 0;
    assert!(matches!(Image::parse(&no_pe), Err(Error::BadImage(_))));
    assert!(Image::parse(&good[..0x100]).is_err());
}

#[test]
fn untouched_image_is_written_back_unchanged() {
    let data = tiny_image();
    let image = Image::parse(&data).unwrap();
    assert_eq!(ImageWriter::new(&image).emit().unwrap(), data);

    let mut writer = ImageWriter::new(&image);
    writer.set_entry_point_token(image.entry_point_token());
    assert_eq!(writer.emit().unwrap(), data);
}

#[test]
fn overrides_are_patched_in_place() {
    let data = tiny_image();
    let image = Image::parse(&data).unwrap();

    let mut writer = ImageWriter::new(&image);
    writer.set_timestamp(0x0102_0304);
    let out = writer.emit().unwrap();
    let pe = 0x40;
    let mut expected = data.clone();
    expected[pe + 8..pe + 12].copy_from_slice(&0x0102_0304u32.to_le_bytes());
    assert_eq!(out, expected);

    let mut writer = ImageWriter::new(&image);
    writer.set_entry_point_token(Token(0x0600_0002));
    let out = writer.emit().unwrap();
    assert_eq!(Image::parse(&out).unwrap().entry_point_token(), Token(0x0600_0002));

    let (_, size) = image.metadata_rva().unwrap();
    let mut writer = ImageWriter::new(&image);
    writer.set_metadata_same_size(vec![0u8; size - 1]);
    assert!(writer.emit().is_err());

    let mut flipped = vec![0u8; size];
    flipped[size - 1] = 0xAB;
    let mut writer = ImageWriter::new(&image);
    writer.set_metadata_same_size(flipped.clone());
    let out = writer.emit().unwrap();
    let at = image.rva_offset(image.cli_header().metadata_rva).unwrap();
    assert_eq!(&out[at..at + size], &flipped[..]);
}

#[test]
fn addresses_beyond_four_gigabytes_are_in_no_section() {
    let image = Image::parse(&tiny_image()).unwrap();
    let high = 0x1_0000_0000 + SEC1_VA as u64;
    assert!(image.section_at_virtual_address(SEC1_VA as u64).is_some());
    assert!(image.section_at_virtual_address(high).is_none());
    assert!(image.rva_offset(high).is_err());
    assert!(image.rva(high).is_err());
}

fn with_debug_payload(metadata: Vec<u8>) -> Vec<u8> {
    let source = Image::parse(&tiny_image()).unwrap();
    let directory = ImageDebugDirectory {
        characteristics: 0,
        time_date_stamp: 1,
        major_version: 0,
        minor_version: 0,
        kind: 2,
        size_of_data: 5,
        address_of_raw_data: 0,
        pointer_to_raw_data: 0,
    };
    let parts = EmitParts {
        code: vec![0x90; 16],
        resources: Vec::new(),
        data: Vec::new(),
        data_alignment: None,
        metadata,
        strongname_size: 0,
        win32_resources: None,
        debug_entries: vec![ImageDebugEntry { directory, data: vec![1, 2, 3, 4, 5] }],
        entry_point_token: Token(ENTRY_TOKEN),
    };
    ImageWriter::rebuild(&source, parts).emit().unwrap()
}

#[test]
fn addresses_of_debug_payloads_count_from_the_end_of_the_metadata() {
    for extra in 0..4 {
        let mut metadata = tiny_metadata_root();
        while metadata.len() % 4 != extra {
            metadata.push(0);
        }
        let length = metadata.len() as u64;
        let out = with_debug_payload(metadata);
        let image = Image::parse(&out).unwrap();
        let entry = &image.debug_entries[0];
        assert_eq!(entry.data, vec![1, 2, 3, 4, 5]);
        let address = entry.directory.address_of_raw_data as u64;
        assert_eq!(address, image.cli_header().metadata_rva + length + 28);
        if extra == 0 {
            let at = image.rva_offset(address).unwrap();
            assert_eq!(at, entry.directory.pointer_to_raw_data as usize);
            assert_eq!(&out[at..at + 5], &[1, 2, 3, 4, 5]);
        }
    }
}
