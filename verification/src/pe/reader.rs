//! PE / CLI image parsing.
//!
//! Metadata heaps and the table heap are *located* here but parsed by the
//! metadata layer from the root slice obtained through
//! [`Image::metadata_rva`].

use vstd::prelude::*;
use vstd::slice::slice_subrange;

use crate::bytes;
use crate::error::{Error, ErrorKind};
use crate::io;
use crate::io::Step;
use crate::pe::image;
use crate::pe::image::{
    CliHeader, DataDirectoryIndex, DebugEntryView, Image, ImageDebugDirectory, ImageDebugEntry,
    ImageView, MetadataStream, MetadataStreamView, TargetArchitecture,
};
use crate::pe::section;
use crate::pe::section::{DataDirectory, Section, SectionView};
use crate::text;
use crate::text::Message;
use crate::token::Token;

verus! {

broadcast use crate::bytes::widths;

/// The first bytes of a file: "MZ".
pub const DOS_SIGNATURE: u16 = 0x5A4D;

/// The first bytes of the PE headers: "PE\0\0".
pub const PE_SIGNATURE: u32 = 0x0000_4550;

/// The first bytes of a metadata root: "BSJB".
pub const ROOT_SIGNATURE: u32 = 0x424A_5342;

/// Where the PE signature stands.
pub open spec fn pe_at(raw: Seq<u8>) -> Option<int> {
    let at = bytes::u32_at(raw, 0x3C) as int;
    if raw.len() < 128 || bytes::u16_at(raw, 0) != DOS_SIGNATURE || at + 4 > raw.len()
        || bytes::u32_at(raw, at) != PE_SIGNATURE {
        None
    } else {
        Some(at)
    }
}

/// What is said of bytes in which no PE signature is found.
pub open spec fn signature_failure(raw: Seq<u8>) -> Seq<char> {
    let at = bytes::u32_at(raw, 0x3C) as int;
    if raw.len() < 128 {
        "file too small for a PE image: "@ + text::decimal(raw.len()) + " bytes"@
    } else if at + 4 > raw.len() || bytes::u32_at(raw, at) != PE_SIGNATURE {
        "missing PE signature"@
    } else {
        "missing MZ signature"@
    }
}

/// How far behind the PE signature the data directories start: they follow
/// the file header and the fixed part of the optional header, whose magic
/// number tells PE32 from PE32+.
pub open spec fn directories_after(magic: u16) -> Option<int> {
    if magic == 0x10B {
        Some(120)
    } else if magic == 0x20B {
        Some(136)
    } else {
        None
    }
}

/// The data directory at `at`.
pub open spec fn directory_at(raw: Seq<u8>, at: int) -> DataDirectory {
    DataDirectory { virtual_address: bytes::u32_at(raw, at), size: bytes::u32_at(raw, at + 4) }
}

/// The sixteen data directories from `at` on.
pub open spec fn directory_table(raw: Seq<u8>, at: int) -> Seq<DataDirectory> {
    Seq::new(16, |k: int| directory_at(raw, at + 8 * k))
}

/// A text that ends at its first zero byte, in the `length` bytes from `at` on.
pub open spec fn field_text(raw: Seq<u8>, at: int, length: int) -> Seq<char> {
    text::lossy_text(bytes::until_zero(raw.subrange(at, at + length)))
}

/// The section table entry at `at`.
pub open spec fn section_at(raw: Seq<u8>, at: int) -> SectionView {
    SectionView {
        name: field_text(raw, at, 8),
        virtual_size: bytes::u32_at(raw, at + 8),
        virtual_address: bytes::u32_at(raw, at + 12),
        size_of_raw_data: bytes::u32_at(raw, at + 16),
        pointer_to_raw_data: bytes::u32_at(raw, at + 20),
    }
}

/// The `n` section table entries from `at` on.
pub open spec fn section_table(raw: Seq<u8>, at: int, n: nat) -> Seq<SectionView> {
    Seq::new(n, |k: int| section_at(raw, at + 40 * k))
}

/// The file offset that the sections map the address to.
pub open spec fn resolved(rva: u32, sections: Seq<SectionView>) -> Option<int> {
    match section::mapping_section(sections, rva, 0) {
        Some(k) => Some(sections[k].offset(rva as int)),
        None => None,
    }
}

/// The CLI header at `at`.
pub open spec fn cli_header_at(raw: Seq<u8>, at: int) -> Option<CliHeader> {
    if at + 72 > raw.len() {
        None
    } else {
        Some(
            CliHeader {
                cb: bytes::u32_at(raw, at),
                runtime_major: bytes::u16_at(raw, at + 4),
                runtime_minor: bytes::u16_at(raw, at + 6),
                metadata_rva: bytes::u32_at(raw, at + 8) as u64,
                metadata_size: bytes::u32_at(raw, at + 12) as u64,
                flags: bytes::u32_at(raw, at + 16),
                entry_point_token: Token(bytes::u32_at(raw, at + 20)),
                resources_rva: bytes::u32_at(raw, at + 24) as u64,
                resources_size: bytes::u32_at(raw, at + 28) as u64,
                strong_name_rva: bytes::u32_at(raw, at + 32) as u64,
                strong_name_size: bytes::u32_at(raw, at + 36) as u64,
                code_manager_table_rva: bytes::u32_at(raw, at + 40) as u64,
                code_manager_table_size: bytes::u32_at(raw, at + 44) as u64,
                vtable_fixups_rva: bytes::u32_at(raw, at + 48) as u64,
                vtable_fixups_size: bytes::u32_at(raw, at + 52) as u64,
                export_address_table_jumps_rva: bytes::u32_at(raw, at + 56) as u64,
                export_address_table_jumps_size: bytes::u32_at(raw, at + 60) as u64,
                managed_native_header_rva: bytes::u32_at(raw, at + 64) as u64,
                managed_native_header_size: bytes::u32_at(raw, at + 68) as u64,
            },
        )
    }
}

/// The stream name at `at`, which ends at a zero byte or after sixteen bytes,
/// and how many bytes it takes up, rounded up to a multiple of four.
pub open spec fn stream_name(raw: Seq<u8>, at: int) -> Option<(Seq<char>, int)> {
    match bytes::zero_from(raw, at) {
        Some(z) if z < at + 16 => Some(
            (text::lossy_text(raw.subrange(at, z)), (z - at + 4) / 4 * 4),
        ),
        _ => if at + 16 <= raw.len() {
            Some((text::lossy_text(raw.subrange(at, at + 16)), 16))
        } else {
            None
        },
    }
}

/// The `n` stream directory entries from `at` on.
pub open spec fn stream_table(raw: Seq<u8>, at: int, n: nat) -> Option<Seq<MetadataStreamView>>
    decreases n,
{
    if n == 0 {
        Some(Seq::empty())
    } else if at + 8 > raw.len() {
        None
    } else {
        match stream_name(raw, at + 8) {
            None => None,
            Some((name, width)) => if at + 8 + width > raw.len() {
                None
            } else {
                match stream_table(raw, at + 8 + width, (n - 1) as nat) {
                    None => None,
                    Some(rest) => Some(
                        seq![
                            MetadataStreamView {
                                name,
                                offset: bytes::u32_at(raw, at) as u64,
                                size: bytes::u32_at(raw, at + 4) as u64,
                            },
                        ] + rest,
                    ),
                }
            },
        }
    }
}

/// The version and the stream directory of the metadata root at `at`.
pub open spec fn root_at(raw: Seq<u8>, at: int) -> Option<(Seq<char>, Seq<MetadataStreamView>)> {
    if at + 16 > raw.len() || bytes::u32_at(raw, at) != ROOT_SIGNATURE {
        None
    } else {
        let length = bytes::i32_of(bytes::u32_at(raw, at + 12));
        if length < 0 || at + 20 + length > raw.len() {
            None
        } else {
            let count = bytes::u16_at(raw, at + 18 + length) as nat;
            match stream_table(raw, at + 20 + length, count) {
                None => None,
                Some(streams) => Some((field_text(raw, at + 16, length as int), streams)),
            }
        }
    }
}

/// The debug directory record at `at`.
pub open spec fn debug_directory_at(raw: Seq<u8>, at: int) -> ImageDebugDirectory {
    ImageDebugDirectory {
        characteristics: bytes::i32_of(bytes::u32_at(raw, at)),
        time_date_stamp: bytes::i32_of(bytes::u32_at(raw, at + 4)),
        major_version: bytes::i16_of(bytes::u16_at(raw, at + 8)),
        minor_version: bytes::i16_of(bytes::u16_at(raw, at + 10)),
        kind: bytes::i32_of(bytes::u32_at(raw, at + 12)),
        size_of_data: bytes::i32_of(bytes::u32_at(raw, at + 16)),
        address_of_raw_data: bytes::i32_of(bytes::u32_at(raw, at + 20)),
        pointer_to_raw_data: bytes::i32_of(bytes::u32_at(raw, at + 24)),
    }
}

/// The payload of a debug directory record; without one that lies in the file
/// it is empty.
pub open spec fn debug_data(raw: Seq<u8>, d: ImageDebugDirectory) -> Seq<u8> {
    if d.pointer_to_raw_data > 0 && d.size_of_data > 0 && d.pointer_to_raw_data + d.size_of_data
        <= raw.len() {
        raw.subrange(
            d.pointer_to_raw_data as int,
            d.pointer_to_raw_data + d.size_of_data,
        )
    } else {
        Seq::empty()
    }
}

/// The debug entry at `at`.
pub open spec fn debug_entry_at(raw: Seq<u8>, at: int) -> DebugEntryView {
    DebugEntryView {
        directory: debug_directory_at(raw, at),
        data: debug_data(raw, debug_directory_at(raw, at)),
    }
}

/// The debug entries of the directory.
pub open spec fn debug_table(
    raw: Seq<u8>,
    directory: DataDirectory,
    sections: Seq<SectionView>,
) -> Option<Seq<DebugEntryView>> {
    if directory == DataDirectory::none() {
        Some(Seq::empty())
    } else {
        match resolved(directory.virtual_address, sections) {
            None => None,
            Some(at) => if at + directory.size / 28 * 28 > raw.len() {
                None
            } else {
                Some(
                    Seq::new(
                        (directory.size / 28) as nat,
                        |k: int| debug_entry_at(raw, at + 28 * k),
                    ),
                )
            },
        }
    }
}

/// The image that the headers at the PE signature describe.
#[verifier::opaque]
pub open spec fn image_at(raw: Seq<u8>, pe: int, after: int) -> Option<ImageView> {
    let count = bytes::u16_at(raw, pe + 6) as nat;
    let directories = directory_table(raw, pe + after);
    let sections = section_table(raw, pe + after + 128, count);
    if pe + after + 128 + 40 * count > raw.len() || directories[14] == DataDirectory::none() {
        None
    } else {
        match resolved(directories[14].virtual_address, sections) {
            None => None,
            Some(cli_at) => match cli_header_at(raw, cli_at) {
                None => None,
                Some(cli) => match (
                    resolved(cli.metadata_rva as u32, sections),
                    section::backing_section(sections, cli.metadata_rva as u32, 0),
                ) {
                    (Some(root), Some(metadata_section)) => match (
                        root_at(raw, root),
                        debug_table(raw, directories[6], sections),
                    ) {
                        (Some((version, streams)), Some(debug_entries)) => Some(
                            ImageView {
                                raw,
                                pe_offset: pe,
                                kind: image::kind_of(
                                    bytes::u16_at(raw, pe + 22),
                                    bytes::u16_at(raw, pe + 92),
                                ),
                                architecture: TargetArchitecture(bytes::u16_at(raw, pe + 4)),
                                characteristics: bytes::u16_at(raw, pe + 22),
                                dll_characteristics: bytes::u16_at(raw, pe + 94),
                                linker_version: bytes::u16_at(raw, pe + 26),
                                subsystem_major: bytes::u16_at(raw, pe + 72),
                                subsystem_minor: bytes::u16_at(raw, pe + 74),
                                timestamp: bytes::u32_at(raw, pe + 8),
                                runtime_version: version,
                                sections,
                                metadata_section,
                                cli_header: cli,
                                cli_directory: directories[14],
                                data_directories: directories,
                                streams,
                                debug_entries,
                            },
                        ),
                        _ => None,
                    },
                    _ => None,
                },
            },
        }
    }
}

/// The image that the bytes of a file are.
pub open spec fn parsed_image(raw: Seq<u8>) -> Option<ImageView> {
    match pe_at(raw) {
        None => None,
        Some(pe) => if pe + 26 > raw.len() {
            None
        } else {
            match directories_after(bytes::u16_at(raw, pe + 24)) {
                None => None,
                Some(after) => image_at(raw, pe, after),
            }
        },
    }
}

/// Parses a full image from `raw` (which the resulting [`Image`] owns).
pub fn read_image(raw: Vec<u8>) -> (r: Result<Image, Error>)
    ensures
        match parsed_image(raw@) {
            Some(v) => r is Ok && r->Ok_0@ == v,
            None => r is Err && r->Err_0.kind() == ErrorKind::BadImage,
        },
        pe_at(raw@) is None ==> r->Err_0.text() == signature_failure(raw@),
{
    proof {
        reveal(image_at);
    }
    let pe: usize = read_pe_offset(raw.as_slice())?;
    let length: usize = raw.len();
    if length - pe < 26 {
        return Err(
            io::stopped(
                length,
                pe as u64 + 4,
                vec![
                    Step::Reads { width: 2, times: 2 },
                    Step::Reads { width: 4, times: 1 },
                    Step::Skip(10),
                    Step::Reads { width: 2, times: 2 },
                ],
            ),
        );
    }
    let magic: u16 = bytes::get_u16(raw.as_slice(), pe + 24);
    let after: usize = if magic == 0x10B {
        120
    } else if magic == 0x20B {
        136
    } else {
        return Err(
            Error::bad_image(
                Message::new("unknown optional header magic 0x").hex(magic as u64).as_str(),
            ),
        );
    };
    let section_count: usize = bytes::get_u16(raw.as_slice(), pe + 6) as usize;
    if length - pe < after + 128 + 40 * section_count {
        return Err(headers_stopped(length, pe, after));
    }
    let architecture = TargetArchitecture(bytes::get_u16(raw.as_slice(), pe + 4));
    let timestamp: u32 = bytes::get_u32(raw.as_slice(), pe + 8);
    let characteristics: u16 = bytes::get_u16(raw.as_slice(), pe + 22);
    let linker_version: u16 = bytes::get_u16(raw.as_slice(), pe + 26);
    let subsystem_major: u16 = bytes::get_u16(raw.as_slice(), pe + 72);
    let subsystem_minor: u16 = bytes::get_u16(raw.as_slice(), pe + 74);
    let subsystem: u16 = bytes::get_u16(raw.as_slice(), pe + 92);
    let dll_characteristics: u16 = bytes::get_u16(raw.as_slice(), pe + 94);
    let data_directories = read_directories(raw.as_slice(), pe + after);
    let sections = read_sections(raw.as_slice(), pe + after + 128, section_count);

    let cli_directory = data_directories[DataDirectoryIndex::ComDescription.to_usize()];
    if cli_directory.is_zero() {
        return Err(Error::bad_image("missing CLI header data directory"));
    }
    let cli_header = read_cli_header(raw.as_slice(), cli_directory, &sections)?;
    let (metadata_section, runtime_version, streams) = read_metadata(
        raw.as_slice(),
        cli_header.metadata_rva as u32,
        &sections,
    )?;
    let debug_entries = read_debug_header(
        raw.as_slice(),
        data_directories[DataDirectoryIndex::Debug.to_usize()],
        &sections,
    )?;
    let image = Image {
        raw,
        pe_offset: pe,
        kind: image::module_kind(characteristics, subsystem),
        architecture,
        characteristics,
        dll_characteristics,
        linker_version,
        subsystem_major,
        subsystem_minor,
        timestamp,
        runtime_version,
        sections,
        metadata_section,
        cli_header,
        cli_directory,
        data_directories,
        streams,
        debug_entries,
    };
    proof {
        image.view_fields();
        assert(image@ =~= parsed_image(raw@)->Some_0);
    }
    Ok(image)
}

/// The error of headers or a section table that run past the end.
fn headers_stopped(length: usize, pe: usize, after: usize) -> (e: Error)
    requires
        pe <= length,
        104 <= after <= 136,
    ensures
        e.kind() == ErrorKind::BadImage,
{
    if length - pe < after + 128 {
        io::stopped(
            length,
            (pe as u64).wrapping_add(26),
            vec![
                Step::Reads { width: 2, times: 1 },
                Step::Skip(44),
                Step::Reads { width: 2, times: 2 },
                Step::Skip(16),
                Step::Reads { width: 2, times: 2 },
                Step::Skip((after - 96) as u64),
                Step::Reads { width: 4, times: 32 },
            ],
        )
    } else {
        let table: usize = pe + after + 128;
        io::stopped(
            length,
            table as u64 + (length - table) as u64 / 40 * 40,
            vec![
                Step::Reads { width: 8, times: 1 },
                Step::Reads { width: 4, times: 4 },
                Step::Skip(16),
            ],
        )
    }
}

/// File offset of the "PE\0\0" signature, validated loosely.
fn read_pe_offset(raw: &[u8]) -> (r: Result<usize, Error>)
    ensures
        match pe_at(raw@) {
            Some(at) => r is Ok && r->Ok_0 == at && at + 4 <= raw.len(),
            None => r is Err && r->Err_0.kind() == ErrorKind::BadImage && r->Err_0.text()
                == signature_failure(raw@),
        },
{
    if raw.len() < 128 {
        return Err(
            Error::bad_image(
                Message::new("file too small for a PE image: ").count(raw.len() as u64).text(
                    " bytes",
                ).as_str(),
            ),
        );
    }
    let at: u32 = bytes::get_u32(raw, 0x3C);
    if at as u64 + 4 > raw.len() as u64 || bytes::get_u32(raw, at as usize) != PE_SIGNATURE {
        return Err(Error::bad_image("missing PE signature"));
    }
    if bytes::get_u16(raw, 0) != DOS_SIGNATURE {
        return Err(Error::bad_image("missing MZ signature"));
    }
    Ok(at as usize)
}

/// Translates an RVA to a file offset using the already-parsed section table.
fn resolve_rva_offset(rva: u32, sections: &Vec<Section>) -> (r: Result<u64, Error>)
    ensures
        match resolved(rva, section::section_views(sections@)) {
            Some(at) => r is Ok && r->Ok_0 == at,
            None => r is Err && r->Err_0.kind() == ErrorKind::BadImage && r->Err_0.text()
                == "rva 0x"@ + text::lower_hex(rva as nat) + " is not inside any section"@,
        },
{
    match section::find_mapping(sections, rva) {
        None => Err(
            Error::bad_image(
                Message::new("rva 0x").hex(rva as u64).text(
                    " is not inside any section",
                ).as_str(),
            ),
        ),
        Some(k) => {
            let s = &sections[k];
            Ok(rva as u64 - s.virtual_address as u64 + s.pointer_to_raw_data as u64)
        },
    }
}

fn read_directories(raw: &[u8], at: usize) -> (r: [DataDirectory; 16])
    requires
        at + 128 <= raw.len(),
    ensures
        r@ == directory_table(raw@, at as int),
{
    let mut directories: [DataDirectory; 16] = [DataDirectory::zero(); 16];
    let mut i: usize = 0;
    while i < 16
        invariant
            i <= 16,
            at + 128 <= raw.len(),
            directories@.len() == 16,
            forall|k: int|
                0 <= k < i ==> #[trigger] directories@[k] == directory_at(raw@, at + 8 * k),
        decreases 16 - i,
    {
        let here: usize = at + 8 * i;
        let ghost before = directories@;
        directories[i] = DataDirectory::new(bytes::get_u32(raw, here), bytes::get_u32(raw, here + 4));
        proof {
            assert forall|k: int| 0 <= k < i + 1 implies #[trigger] directories@[k] == directory_at(
                raw@,
                at + 8 * k,
            ) by {
                let earlier = before[k];
            }
        }
        i += 1;
    }
    proof {
        assert(directories@ =~= directory_table(raw@, at as int));
    }
    directories
}

fn read_sections(raw: &[u8], at: usize, count: usize) -> (r: Vec<Section>)
    requires
        at + 40 * count <= raw.len(),
    ensures
        section::section_views(r@) == section_table(raw@, at as int, count as nat),
{
    let mut sections: Vec<Section> = Vec::new();
    let mut i: usize = 0;
    while i < count
        invariant
            i <= count,
            at + 40 * count <= raw.len(),
            sections@.len() == i,
            forall|k: int| 0 <= k < i ==> (#[trigger] sections@[k])@ == section_at(raw@, at + 40 * k),
        decreases count - i,
    {
        let here: usize = at + 40 * i;
        let name = read_zero_terminated_string(raw, here, 8);
        let section = Section {
            name,
            virtual_size: bytes::get_u32(raw, here + 8),
            virtual_address: bytes::get_u32(raw, here + 12),
            size_of_raw_data: bytes::get_u32(raw, here + 16),
            pointer_to_raw_data: bytes::get_u32(raw, here + 20),
        };
        let ghost before = sections@;
        sections.push(section);
        proof {
            assert forall|k: int| 0 <= k < i + 1 implies (#[trigger] sections@[k])@ == section_at(
                raw@,
                at + 40 * k,
            ) by {
                let earlier = before[k];
            }
        }
        i += 1;
    }
    proof {
        assert(section::section_views(sections@) =~= section_table(raw@, at as int, count as nat));
    }
    sections
}

fn read_cli_header(raw: &[u8], directory: DataDirectory, sections: &Vec<Section>) -> (r: Result<
    CliHeader,
    Error,
>)
    ensures
        match resolved(directory.virtual_address, section::section_views(sections@)) {
            Some(at) => match cli_header_at(raw@, at) {
                Some(h) => r is Ok && r->Ok_0 == h,
                None => r is Err && r->Err_0.kind() == ErrorKind::BadImage,
            },
            None => r is Err && r->Err_0.kind() == ErrorKind::BadImage,
        },
{
    let offset: u64 = resolve_rva_offset(directory.virtual_address, sections)?;
    if offset + 72 > raw.len() as u64 {
        return Err(
            io::stopped(
                raw.len(),
                0,
                vec![
                    Step::Skip(offset),
                    Step::Reads { width: 4, times: 1 },
                    Step::Reads { width: 2, times: 2 },
                    Step::Reads { width: 4, times: 16 },
                ],
            ),
        );
    }
    let at: usize = offset as usize;
    Ok(
        CliHeader {
            cb: bytes::get_u32(raw, at),
            runtime_major: bytes::get_u16(raw, at + 4),
            runtime_minor: bytes::get_u16(raw, at + 6),
            metadata_rva: bytes::get_u32(raw, at + 8) as u64,
            metadata_size: bytes::get_u32(raw, at + 12) as u64,
            flags: bytes::get_u32(raw, at + 16),
            entry_point_token: Token(bytes::get_u32(raw, at + 20)),
            resources_rva: bytes::get_u32(raw, at + 24) as u64,
            resources_size: bytes::get_u32(raw, at + 28) as u64,
            strong_name_rva: bytes::get_u32(raw, at + 32) as u64,
            strong_name_size: bytes::get_u32(raw, at + 36) as u64,
            code_manager_table_rva: bytes::get_u32(raw, at + 40) as u64,
            code_manager_table_size: bytes::get_u32(raw, at + 44) as u64,
            vtable_fixups_rva: bytes::get_u32(raw, at + 48) as u64,
            vtable_fixups_size: bytes::get_u32(raw, at + 52) as u64,
            export_address_table_jumps_rva: bytes::get_u32(raw, at + 56) as u64,
            export_address_table_jumps_size: bytes::get_u32(raw, at + 60) as u64,
            managed_native_header_rva: bytes::get_u32(raw, at + 64) as u64,
            managed_native_header_size: bytes::get_u32(raw, at + 68) as u64,
        },
    )
}

/// Locates the metadata root and its stream directory.
///
/// Returns `(metadata section index, runtime version string, streams)`.
fn read_metadata(raw: &[u8], metadata_rva: u32, sections: &Vec<Section>) -> (r: Result<
    (usize, String, Vec<MetadataStream>),
    Error,
>)
    ensures
        ({
            let views = section::section_views(sections@);
            match (
                resolved(metadata_rva, views),
                section::backing_section(views, metadata_rva, 0),
            ) {
                (Some(at), Some(k)) => match root_at(raw@, at) {
                    Some((version, streams)) => r is Ok && r->Ok_0.0 == k && r->Ok_0.1@ == version
                        && image::metadata_stream_views(r->Ok_0.2@) == streams,
                    None => r is Err && r->Err_0.kind() == ErrorKind::BadImage,
                },
                _ => r is Err && r->Err_0.kind() == ErrorKind::BadImage,
            }
        }),
{
    let offset: u64 = resolve_rva_offset(metadata_rva, sections)?;
    if offset + 4 > raw.len() as u64 {
        return Err(
            io::stopped(
                raw.len(),
                0,
                vec![Step::Skip(offset), Step::Reads { width: 4, times: 1 }],
            ),
        );
    }
    let at: usize = offset as usize;
    if bytes::get_u32(raw, at) != ROOT_SIGNATURE {
        return Err(Error::bad_image("missing BSJB metadata signature"));
    }
    if offset + 16 > raw.len() as u64 {
        return Err(
            io::stopped(
                raw.len(),
                offset + 4,
                vec![Step::Skip(8), Step::Reads { width: 4, times: 1 }],
            ),
        );
    }
    let version_length: i32 = bytes::as_i32(bytes::get_u32(raw, at + 12));
    if version_length < 0 || offset + 16 + version_length as u64 > raw.len() as u64 {
        return Err(
            Error::bad_image(
                Message::new("invalid metadata version length ").number(
                    version_length as i64,
                ).as_str(),
            ),
        );
    }
    let length: usize = version_length as usize;
    if offset + 20 + length as u64 > raw.len() as u64 {
        return Err(
            io::stopped(
                raw.len(),
                offset + 16 + length as u64,
                vec![Step::Skip(2), Step::Reads { width: 2, times: 1 }],
            ),
        );
    }
    let metadata_section: usize = match section::find_backing(sections, metadata_rva) {
        Some(k) => k,
        None => {
            return Err(Error::bad_image("metadata root is not inside any section"));
        },
    };
    let runtime_version = read_zero_terminated_string(raw, at + 16, length);
    let stream_count: u16 = bytes::get_u16(raw, at + 18 + length);
    let streams = read_streams(raw, at + 20 + length, stream_count)?;
    Ok((metadata_section, runtime_version, streams))
}

fn read_streams(raw: &[u8], at: usize, count: u16) -> (r: Result<Vec<MetadataStream>, Error>)
    requires
        at <= raw.len(),
    ensures
        match stream_table(raw@, at as int, count as nat) {
            Some(streams) => r is Ok && image::metadata_stream_views(r->Ok_0@) == streams,
            None => r is Err && r->Err_0.kind() == ErrorKind::BadImage,
        },
{
    let mut streams: Vec<MetadataStream> = Vec::new();
    let mut pos: usize = at;
    let mut i: u16 = 0;
    let ghost whole = stream_table(raw@, at as int, count as nat);
    proof {
        if let Some(rest) = whole {
            assert(image::metadata_stream_views(streams@) + rest =~= rest);
        }
    }
    while i < count
        invariant
            i <= count,
            pos <= raw.len(),
            whole == stream_table(raw@, at as int, count as nat),
            whole == (match stream_table(raw@, pos as int, (count - i) as nat) {
                Some(rest) => Some(image::metadata_stream_views(streams@) + rest),
                None => None,
            }),
        decreases count - i,
    {
        if raw.len() - pos < 8 {
            return Err(
                io::stopped(
                    raw.len(),
                    pos as u64,
                    vec![Step::Reads { width: 4, times: 2 }],
                ),
            );
        }
        let offset: u64 = bytes::get_u32(raw, pos) as u64;
        let size: u64 = bytes::get_u32(raw, pos + 4) as u64;
        let (name, width) = match read_aligned_string(raw, pos + 8) {
            Some(n) => n,
            None => {
                return Err(
                    io::stopped(
                        raw.len(),
                        raw.len() as u64,
                        vec![Step::Reads { width: 1, times: 1 }],
                    ),
                );
            },
        };
        if width > raw.len() - (pos + 8) {
            return Err(
                io::stopped(raw.len(), pos as u64 + 8, vec![Step::Skip(width as u64)]),
            );
        }
        let ghost before = image::metadata_stream_views(streams@);
        streams.push(MetadataStream { name, offset, size });
        proof {
            let entry = MetadataStreamView { name: name@, offset, size };
            assert(image::metadata_stream_views(streams@) =~= before.push(entry));
            if let Some(rest) = stream_table(raw@, pos + 8 + width, (count - i - 1) as nat) {
                assert(before + (seq![entry] + rest) =~= image::metadata_stream_views(streams@)
                    + rest);
            }
        }
        pos = pos + 8 + width;
        i += 1;
    }
    proof {
        assert(image::metadata_stream_views(streams@) + Seq::<MetadataStreamView>::empty()
            =~= image::metadata_stream_views(streams@));
    }
    Ok(streams)
}

/// Reads up to sixteen bytes until NUL; returns the text and the number of
/// bytes that it takes up, rounded up to a multiple of four.
fn read_aligned_string(raw: &[u8], at: usize) -> (r: Option<(String, usize)>)
    requires
        at <= raw.len(),
    ensures
        match stream_name(raw@, at as int) {
            Some((name, width)) => r is Some && r->Some_0.0@ == name && r->Some_0.1 == width && 0
                <= width <= 16,
            None => r is None,
        },
{
    match bytes::find_zero(raw, at) {
        Some(z) => {
            if z - at < 16 {
                let name = text::from_utf8_lossy(slice_subrange(raw, at, z));
                return Some((name, (z - at + 4) / 4 * 4));
            }
        },
        None => {},
    }
    if raw.len() - at < 16 {
        return None;
    }
    Some((text::from_utf8_lossy(slice_subrange(raw, at, at + 16)), 16))
}

/// Takes exactly `length` bytes and trims at the first NUL.
fn read_zero_terminated_string(raw: &[u8], at: usize, length: usize) -> (s: String)
    requires
        at + length <= raw.len(),
    ensures
        s@ == field_text(raw@, at as int, length as int),
{
    let part = slice_subrange(raw, at, at + length);
    match bytes::find_zero(part, 0) {
        Some(end) => {
            let head = slice_subrange(part, 0, end);
            proof {
                assert(head@ =~= part@.take(end as int));
            }
            text::from_utf8_lossy(head)
        },
        None => text::from_utf8_lossy(part),
    }
}

fn read_debug_header(raw: &[u8], directory: DataDirectory, sections: &Vec<Section>) -> (r: Result<
    Vec<ImageDebugEntry>,
    Error,
>)
    ensures
        match debug_table(raw@, directory, section::section_views(sections@)) {
            Some(entries) => r is Ok && image::debug_entry_views(r->Ok_0@) == entries,
            None => r is Err && r->Err_0.kind() == ErrorKind::BadImage,
        },
{
    let mut entries: Vec<ImageDebugEntry> = Vec::new();
    if directory.is_zero() {
        proof {
            assert(image::debug_entry_views(entries@) =~= Seq::<DebugEntryView>::empty());
        }
        return Ok(entries);
    }
    let offset: u64 = resolve_rva_offset(directory.virtual_address, sections)?;
    let count: u64 = (directory.size / 28) as u64;
    if offset + count * 28 > raw.len() as u64 {
        let left: u64 = if offset <= raw.len() as u64 {
            raw.len() as u64 - offset
        } else {
            0
        };
        return Err(
            io::stopped(
                raw.len(),
                0,
                vec![
                    Step::Skip(offset),
                    Step::Reads { width: 4, times: left / 28 * 7 },
                    Step::Reads { width: 4, times: 2 },
                    Step::Reads { width: 2, times: 2 },
                    Step::Reads { width: 4, times: 4 },
                ],
            ),
        );
    }
    let at: usize = offset as usize;
    let n: usize = count as usize;
    let mut i: usize = 0;
    while i < n
        invariant
            i <= n,
            at + 28 * n <= raw.len(),
            entries@.len() == i,
            forall|k: int|
                0 <= k < i ==> (#[trigger] entries@[k])@ == debug_entry_at(raw@, at + 28 * k),
        decreases n - i,
    {
        let here: usize = at + 28 * i;
        let directory = read_debug_directory(raw, here);
        let mut data: Vec<u8> = Vec::new();
        if directory.pointer_to_raw_data > 0 && directory.size_of_data > 0 {
            let start: u64 = directory.pointer_to_raw_data as u64;
            let end: u64 = start + directory.size_of_data as u64;
            if end <= raw.len() as u64 {
                bytes::append(&mut data, slice_subrange(raw, start as usize, end as usize));
            }
        }
        proof {
            assert(data@ =~= debug_data(raw@, directory));
        }
        let ghost before = entries@;
        entries.push(ImageDebugEntry { directory, data });
        proof {
            assert forall|k: int| 0 <= k < i + 1 implies (#[trigger] entries@[k])@
                == debug_entry_at(raw@, at + 28 * k) by {
                let earlier = before[k];
            }
        }
        i += 1;
    }
    proof {
        assert(image::debug_entry_views(entries@) =~= debug_table(
            raw@,
            directory,
            section::section_views(sections@),
        )->Some_0);
    }
    Ok(entries)
}

fn read_debug_directory(raw: &[u8], at: usize) -> (d: ImageDebugDirectory)
    requires
        at + 28 <= raw.len(),
    ensures
        d == debug_directory_at(raw@, at as int),
{
    ImageDebugDirectory {
        characteristics: bytes::as_i32(bytes::get_u32(raw, at)),
        time_date_stamp: bytes::as_i32(bytes::get_u32(raw, at + 4)),
        major_version: bytes::as_i16(bytes::get_u16(raw, at + 8)),
        minor_version: bytes::as_i16(bytes::get_u16(raw, at + 10)),
        kind: bytes::as_i32(bytes::get_u32(raw, at + 12)),
        size_of_data: bytes::as_i32(bytes::get_u32(raw, at + 16)),
        address_of_raw_data: bytes::as_i32(bytes::get_u32(raw, at + 20)),
        pointer_to_raw_data: bytes::as_i32(bytes::get_u32(raw, at + 24)),
    }
}

} // verus!
