//! The parsed PE/CLI image model.
//!
//! An [`Image`] owns a copy of the source bytes so RVA translation can return
//! slices.

use vstd::prelude::*;
use vstd::slice::slice_subrange;

use crate::bytes;
use crate::error::{Error, ErrorKind};
use crate::pe::reader;
use crate::pe::section;
use crate::pe::section::{DataDirectory, Section, SectionView};
use crate::text;
use crate::text::Message;
use crate::token::Token;

verus! {

/// Number of data-directory entries mandated by the PE format.
pub const DATA_DIRECTORIES: usize = 16;

/// Index of a standard PE data directory inside the optional header.
#[derive(Debug, Clone, Copy, PartialEq, Eq, PartialOrd, Ord, Structural)]
pub enum DataDirectoryIndex {
    Export,
    Import,
    Resource,
    Exception,
    Certificate,
    BaseRelocation,
    Debug,
    Copyright,
    GlobalPtr,
    Tls,
    LoadConfig,
    BoundImport,
    Iat,
    DelayImport,
    /// The CLI header.
    ComDescription,
    Reserved,
}

impl DataDirectoryIndex {
    /// The position of the directory in the optional header.
    pub open spec fn number(self) -> int {
        match self {
            DataDirectoryIndex::Export => 0,
            DataDirectoryIndex::Import => 1,
            DataDirectoryIndex::Resource => 2,
            DataDirectoryIndex::Exception => 3,
            DataDirectoryIndex::Certificate => 4,
            DataDirectoryIndex::BaseRelocation => 5,
            DataDirectoryIndex::Debug => 6,
            DataDirectoryIndex::Copyright => 7,
            DataDirectoryIndex::GlobalPtr => 8,
            DataDirectoryIndex::Tls => 9,
            DataDirectoryIndex::LoadConfig => 10,
            DataDirectoryIndex::BoundImport => 11,
            DataDirectoryIndex::Iat => 12,
            DataDirectoryIndex::DelayImport => 13,
            DataDirectoryIndex::ComDescription => 14,
            DataDirectoryIndex::Reserved => 15,
        }
    }

    /// The position of the directory in the optional header.
    pub fn to_usize(self) -> (n: usize)
        ensures
            n == self.number(),
            n < DATA_DIRECTORIES,
    {
        match self {
            DataDirectoryIndex::Export => 0,
            DataDirectoryIndex::Import => 1,
            DataDirectoryIndex::Resource => 2,
            DataDirectoryIndex::Exception => 3,
            DataDirectoryIndex::Certificate => 4,
            DataDirectoryIndex::BaseRelocation => 5,
            DataDirectoryIndex::Debug => 6,
            DataDirectoryIndex::Copyright => 7,
            DataDirectoryIndex::GlobalPtr => 8,
            DataDirectoryIndex::Tls => 9,
            DataDirectoryIndex::LoadConfig => 10,
            DataDirectoryIndex::BoundImport => 11,
            DataDirectoryIndex::Iat => 12,
            DataDirectoryIndex::DelayImport => 13,
            DataDirectoryIndex::ComDescription => 14,
            DataDirectoryIndex::Reserved => 15,
        }
    }
}

/// Target machine architecture stored in the PE file header.
#[derive(Debug, Clone, Copy, PartialEq, Eq, Structural)]
pub struct TargetArchitecture(pub u16);

impl TargetArchitecture {
    pub const I386: u16 = 0x014C;

    pub const ARM: u16 = 0x01C4;

    pub const IA64: u16 = 0x0200;

    pub const AMD64: u16 = 0x8664;

    pub const ARM64: u16 = 0xAA64;

    /// Raw machine value stored in the PE file header.
    pub fn machine(self) -> (m: u16)
        ensures
            m == self.0,
    {
        self.0
    }

    /// Whether images for the machine are PE32+.
    pub open spec fn wide(self) -> bool {
        self.0 == 0x8664 || self.0 == 0x0200 || self.0 == 0xAA64
    }

    /// True for 64-bit image formats (PE32+ optional header).
    pub fn is_pe64(&self) -> (b: bool)
        ensures
            b == self.wide(),
    {
        self.0 == Self::AMD64 || self.0 == Self::IA64 || self.0 == Self::ARM64
    }
}

/// What kind of module the image represents.
#[derive(Debug, Clone, Copy, PartialEq, Eq, Structural)]
pub enum ModuleKind {
    Console,
    Windows,
    Dll,
    NetModule,
}

/// The CLI header, a.k.a. the COM+ runtime header.
#[derive(Debug, Clone, Copy)]
pub struct CliHeader {
    /// Size of the header in bytes (0x48).
    pub cb: u32,
    pub runtime_major: u16,
    pub runtime_minor: u16,
    /// RVA and size of the metadata root ("BSJB").
    pub metadata_rva: u64,
    pub metadata_size: u64,
    /// CLI module flags (ILONLY, 32BITREQUIRED, STRONGNAMESIGNED, ...).
    pub flags: u32,
    /// Entry point as a MethodDef token (0 for pure DLLs without vtable fixups).
    pub entry_point_token: Token,
    /// Managed resources directory.
    pub resources_rva: u64,
    pub resources_size: u64,
    /// Strong-name signature directory.
    pub strong_name_rva: u64,
    pub strong_name_size: u64,
    pub code_manager_table_rva: u64,
    pub code_manager_table_size: u64,
    pub vtable_fixups_rva: u64,
    pub vtable_fixups_size: u64,
    pub export_address_table_jumps_rva: u64,
    pub export_address_table_jumps_size: u64,
    pub managed_native_header_rva: u64,
    pub managed_native_header_size: u64,
}

impl Default for CliHeader {
    fn default() -> (h: CliHeader)
        ensures
            h == blank_cli_header(),
    {
        CliHeader {
            cb: 0,
            runtime_major: 0,
            runtime_minor: 0,
            metadata_rva: 0,
            metadata_size: 0,
            flags: 0,
            entry_point_token: Token(0),
            resources_rva: 0,
            resources_size: 0,
            strong_name_rva: 0,
            strong_name_size: 0,
            code_manager_table_rva: 0,
            code_manager_table_size: 0,
            vtable_fixups_rva: 0,
            vtable_fixups_size: 0,
            export_address_table_jumps_rva: 0,
            export_address_table_jumps_size: 0,
            managed_native_header_rva: 0,
            managed_native_header_size: 0,
        }
    }
}

/// The CLI header whose fields are all zero.
pub open spec fn blank_cli_header() -> CliHeader {
    CliHeader {
        cb: 0,
        runtime_major: 0,
        runtime_minor: 0,
        metadata_rva: 0,
        metadata_size: 0,
        flags: 0,
        entry_point_token: Token(0),
        resources_rva: 0,
        resources_size: 0,
        strong_name_rva: 0,
        strong_name_size: 0,
        code_manager_table_rva: 0,
        code_manager_table_size: 0,
        vtable_fixups_rva: 0,
        vtable_fixups_size: 0,
        export_address_table_jumps_rva: 0,
        export_address_table_jumps_size: 0,
        managed_native_header_rva: 0,
        managed_native_header_size: 0,
    }
}

/// One stream entry of the metadata root's stream directory.
///
/// `offset` is relative to the start of the metadata root.
#[derive(Debug, Clone, PartialEq, Eq)]
pub struct MetadataStream {
    pub name: String,
    pub offset: u64,
    pub size: u64,
}

/// What a stream entry says.
#[verifier::ext_equal]
pub struct MetadataStreamView {
    pub name: Seq<char>,
    pub offset: u64,
    pub size: u64,
}

impl View for MetadataStream {
    type V = MetadataStreamView;

    open spec fn view(&self) -> MetadataStreamView {
        MetadataStreamView { name: self.name@, offset: self.offset, size: self.size }
    }
}

/// What the entries of a stream directory say.
pub open spec fn metadata_stream_views(streams: Seq<MetadataStream>) -> Seq<MetadataStreamView> {
    Seq::new(streams.len(), |k: int| streams[k]@)
}

/// One IMAGE_DEBUG_DIRECTORY record.
#[derive(Debug, Clone, Copy, PartialEq, Eq, Structural)]
pub struct ImageDebugDirectory {
    pub characteristics: i32,
    pub time_date_stamp: i32,
    pub major_version: i16,
    pub minor_version: i16,
    /// `IMAGE_DEBUG_TYPE` discriminator (CodeView = 2, PdbChecksum = 19, ...).
    pub kind: i32,
    pub size_of_data: i32,
    pub address_of_raw_data: i32,
    pub pointer_to_raw_data: i32,
}

impl ImageDebugDirectory {
    /// Size of one on-disk debug-directory record.
    pub const SIZE: usize = 28;
}

impl Default for ImageDebugDirectory {
    fn default() -> (d: ImageDebugDirectory)
        ensures
            d == (ImageDebugDirectory {
                characteristics: 0,
                time_date_stamp: 0,
                major_version: 0,
                minor_version: 0,
                kind: 0,
                size_of_data: 0,
                address_of_raw_data: 0,
                pointer_to_raw_data: 0,
            }),
    {
        ImageDebugDirectory {
            characteristics: 0,
            time_date_stamp: 0,
            major_version: 0,
            minor_version: 0,
            kind: 0,
            size_of_data: 0,
            address_of_raw_data: 0,
            pointer_to_raw_data: 0,
        }
    }
}

/// A debug directory record together with its payload bytes.
#[derive(Debug, Clone, PartialEq, Eq)]
pub struct ImageDebugEntry {
    pub directory: ImageDebugDirectory,
    pub data: Vec<u8>,
}

/// What a debug directory record and its payload say.
#[verifier::ext_equal]
pub struct DebugEntryView {
    pub directory: ImageDebugDirectory,
    pub data: Seq<u8>,
}

impl View for ImageDebugEntry {
    type V = DebugEntryView;

    open spec fn view(&self) -> DebugEntryView {
        DebugEntryView { directory: self.directory, data: self.data@ }
    }
}

/// What debug directory records and their payloads say.
pub open spec fn debug_entry_views(entries: Seq<ImageDebugEntry>) -> Seq<DebugEntryView> {
    Seq::new(entries.len(), |k: int| entries[k]@)
}

/// A parsed PE / CLI image.
#[derive(Debug, Clone)]
pub struct Image {
    /// Full original file contents; RVA translation slices into this.
    pub raw: Vec<u8>,
    /// File offset of the "PE\0\0" signature.
    pub pe_offset: usize,
    pub kind: ModuleKind,
    pub architecture: TargetArchitecture,
    pub characteristics: u16,
    pub dll_characteristics: u16,
    pub linker_version: u16,
    pub subsystem_major: u16,
    pub subsystem_minor: u16,
    pub timestamp: u32,
    /// Runtime version string from the metadata root (e.g. "v4.0.30319").
    pub runtime_version: String,
    pub sections: Vec<Section>,
    /// Index into [`Self::sections`] of the section holding the metadata root.
    pub metadata_section: usize,
    pub cli_header: CliHeader,
    /// The COM+ data directory (index 14) as found in the optional header.
    pub cli_directory: DataDirectory,
    /// All 16 data directories from the optional header.
    pub data_directories: [DataDirectory; DATA_DIRECTORIES],
    /// Stream directory of the metadata root.
    pub streams: Vec<MetadataStream>,
    /// Debug directory entries (empty when the Debug data directory is zero).
    pub debug_entries: Vec<ImageDebugEntry>,
}

/// What an image says.
#[verifier::ext_equal]
pub struct ImageView {
    pub raw: Seq<u8>,
    pub pe_offset: int,
    pub kind: ModuleKind,
    pub architecture: TargetArchitecture,
    pub characteristics: u16,
    pub dll_characteristics: u16,
    pub linker_version: u16,
    pub subsystem_major: u16,
    pub subsystem_minor: u16,
    pub timestamp: u32,
    pub runtime_version: Seq<char>,
    pub sections: Seq<SectionView>,
    pub metadata_section: int,
    pub cli_header: CliHeader,
    pub cli_directory: DataDirectory,
    pub data_directories: Seq<DataDirectory>,
    pub streams: Seq<MetadataStreamView>,
    pub debug_entries: Seq<DebugEntryView>,
}

impl View for Image {
    type V = ImageView;

    closed spec fn view(&self) -> ImageView {
        ImageView {
            raw: self.raw@,
            pe_offset: self.pe_offset as int,
            kind: self.kind,
            architecture: self.architecture,
            characteristics: self.characteristics,
            dll_characteristics: self.dll_characteristics,
            linker_version: self.linker_version,
            subsystem_major: self.subsystem_major,
            subsystem_minor: self.subsystem_minor,
            timestamp: self.timestamp,
            runtime_version: self.runtime_version@,
            sections: section::section_views(self.sections@),
            metadata_section: self.metadata_section as int,
            cli_header: self.cli_header,
            cli_directory: self.cli_directory,
            data_directories: self.data_directories@,
            streams: metadata_stream_views(self.streams@),
            debug_entries: debug_entry_views(self.debug_entries@),
        }
    }
}

impl ImageView {
    /// The section whose file data the address is in.
    pub open spec fn section_of(self, rva: u64) -> Option<int> {
        if rva > u32::MAX {
            None
        } else {
            section::backing_section(self.sections, rva as u32, 0)
        }
    }

    /// The file offset of the address.
    pub open spec fn offset_of(self, rva: u64) -> Option<int> {
        match self.section_of(rva) {
            Some(k) => Some(self.sections[k].offset(rva as int)),
            None => None,
        }
    }

    /// Where the file data of the section ends in the file.
    pub open spec fn section_end(self, k: int) -> int {
        let end = self.sections[k].pointer_to_raw_data + self.sections[k].size_of_raw_data;
        if end < self.raw.len() {
            end
        } else {
            self.raw.len() as int
        }
    }

    /// The file data from the address to the end of its section.
    pub open spec fn bytes_at(self, rva: u64) -> Result<Seq<u8>, ErrorKind> {
        match self.section_of(rva) {
            None => Err(ErrorKind::Argument),
            Some(k) => {
                let start = self.sections[k].offset(rva as int);
                if start >= self.section_end(k) {
                    Err(ErrorKind::BadImage)
                } else {
                    Ok(self.raw.subrange(start, self.section_end(k)))
                }
            },
        }
    }
}

impl Image {
    /// The view says what the fields hold.
    pub proof fn view_fields(&self)
        ensures
            self@.raw == self.raw@,
            self@.pe_offset == self.pe_offset,
            self@.kind == self.kind,
            self@.architecture == self.architecture,
            self@.characteristics == self.characteristics,
            self@.dll_characteristics == self.dll_characteristics,
            self@.linker_version == self.linker_version,
            self@.subsystem_major == self.subsystem_major,
            self@.subsystem_minor == self.subsystem_minor,
            self@.timestamp == self.timestamp,
            self@.runtime_version == self.runtime_version@,
            self@.sections == section::section_views(self.sections@),
            self@.metadata_section == self.metadata_section,
            self@.cli_header == self.cli_header,
            self@.cli_directory == self.cli_directory,
            self@.data_directories == self.data_directories@,
            self@.streams == metadata_stream_views(self.streams@),
            self@.debug_entries == debug_entry_views(self.debug_entries@),
    {
    }

    /// Parses a complete PE / CLI image from its raw bytes.
    pub fn parse(data: &[u8]) -> (r: Result<Image, Error>)
        ensures
            match reader::parsed_image(data@) {
                Some(v) => r is Ok && r->Ok_0@ == v,
                None => r is Err && r->Err_0.kind() == ErrorKind::BadImage,
            },
            reader::pe_at(data@) is None ==> r->Err_0.text() == reader::signature_failure(data@),
    {
        let mut raw: Vec<u8> = Vec::new();
        bytes::append(&mut raw, data);
        proof {
            assert(raw@ =~= data@);
        }
        reader::read_image(raw)
    }

    /// The full original file bytes this image was parsed from.
    pub fn raw(&self) -> (b: &[u8])
        ensures
            b@ == self@.raw,
    {
        self.raw.as_slice()
    }

    /// File offset of the PE signature.
    pub fn pe_offset(&self) -> (n: usize)
        ensures
            n == self@.pe_offset,
    {
        self.pe_offset
    }

    /// The parsed CLI header.
    pub fn cli_header(&self) -> (h: &CliHeader)
        ensures
            *h == self@.cli_header,
    {
        &self.cli_header
    }

    /// The entry-point token (MethodDef table), or nil when absent.
    pub fn entry_point_token(&self) -> (t: Token)
        ensures
            t == self@.cli_header.entry_point_token,
    {
        self.cli_header.entry_point_token
    }

    /// `(rva, size)` of the CLI metadata root.
    pub fn metadata_rva(&self) -> (r: Result<(u64, usize), Error>)
        ensures
            r is Err <==> self@.cli_header.metadata_rva == 0,
            r is Err ==> r->Err_0.kind() == ErrorKind::BadImage,
            r is Ok ==> r->Ok_0 == (
                self@.cli_header.metadata_rva,
                self@.cli_header.metadata_size as usize,
            ),
    {
        if self.cli_header.metadata_rva == 0 {
            return Err(Error::bad_image("image has no metadata root"));
        }
        Ok((self.cli_header.metadata_rva, self.cli_header.metadata_size as usize))
    }

    fn find_section(&self, rva: u64) -> (r: Option<usize>)
        ensures
            match self@.section_of(rva) {
                Some(k) => r is Some && r->Some_0 == k && 0 <= k < self.sections@.len()
                    && self.sections@[k].virtual_address <= rva,
                None => r is None,
            },
    {
        if rva > u32::MAX as u64 {
            return None;
        }
        section::find_backing(&self.sections, rva as u32)
    }

    /// The first section whose file data holds `rva`, if any.
    pub fn section_at_virtual_address(&self, rva: u64) -> (r: Option<&Section>)
        ensures
            match self@.section_of(rva) {
                Some(k) => r is Some && r->Some_0@ == self@.sections[k],
                None => r is None,
            },
    {
        match self.find_section(rva) {
            Some(k) => Some(&self.sections[k]),
            None => None,
        }
    }

    /// Looks a section up by (trimmed) name; the first one counts.
    pub fn section(&self, name: &str) -> (r: Option<&Section>)
        ensures
            match r {
                Some(s) => exists|i: int|
                    #![trigger self@.sections[i]]
                    0 <= i < self@.sections.len() && s@ == self@.sections[i] && s.name@ == name@
                        && forall|j: int| 0 <= j < i ==> (#[trigger] self@.sections[j]).name != name@,
                None => forall|j: int|
                    0 <= j < self@.sections.len() ==> (#[trigger] self@.sections[j]).name != name@,
            },
    {
        let n: usize = self.sections.len();
        let mut i: usize = 0;
        while i < n
            invariant
                i <= n,
                n == self.sections@.len(),
                forall|j: int| 0 <= j < i ==> (#[trigger] self@.sections[j]).name != name@,
            decreases n - i,
        {
            assert(self@.sections[i as int] == self.sections@[i as int]@);
            if text::same(self.sections[i].name.as_str(), name) {
                return Some(&self.sections[i]);
            }
            i += 1;
        }
        None
    }

    /// Translates an RVA into a file offset (`PointerToRawData` based).
    /// Of an offset that the machine cannot address the low bits are given.
    pub fn rva_offset(&self, rva: u64) -> (r: Result<usize, Error>)
        ensures
            match self@.offset_of(rva) {
                Some(at) => r is Ok && 0 <= at && r->Ok_0 == at as usize,
                None => r is Err && r->Err_0.kind() == ErrorKind::Argument && r->Err_0.text()
                    == "rva 0x"@ + text::lower_hex(rva as nat) + " is not inside any section"@,
            },
    {
        match self.find_section(rva) {
            None => Err(outside_sections(rva)),
            Some(k) => {
                let s = &self.sections[k];
                Ok((rva - s.virtual_address as u64 + s.pointer_to_raw_data as u64) as usize)
            },
        }
    }

    /// Translates an RVA to the slice of raw bytes backing it. The slice ends
    /// at the end of the section's raw data.
    pub fn rva(&self, rva: u64) -> (r: Result<&[u8], Error>)
        ensures
            match self@.bytes_at(rva) {
                Ok(b) => r is Ok && r->Ok_0@ == b,
                Err(e) => r is Err && r->Err_0.kind() == e && r->Err_0.text() == "rva 0x"@
                    + text::lower_hex(rva as nat) + (if e == ErrorKind::Argument {
                    " is not inside any section"@
                } else {
                    " maps past the end of the file"@
                }),
            },
    {
        match self.find_section(rva) {
            None => Err(outside_sections(rva)),
            Some(k) => {
                let s = &self.sections[k];
                let start: u64 = rva - s.virtual_address as u64 + s.pointer_to_raw_data as u64;
                let section_end: u64 = s.pointer_to_raw_data as u64 + s.size_of_raw_data as u64;
                let end: usize = if section_end < self.raw.len() as u64 {
                    section_end as usize
                } else {
                    self.raw.len()
                };
                if start >= end as u64 {
                    return Err(
                        Error::bad_image(
                            Message::new("rva 0x").hex(rva).text(
                                " maps past the end of the file",
                            ).as_str(),
                        ),
                    );
                }
                Ok(slice_subrange(self.raw.as_slice(), start as usize, end))
            },
        }
    }
}

fn outside_sections(rva: u64) -> (e: Error)
    ensures
        e.kind() == ErrorKind::Argument,
        e.text() == "rva 0x"@ + text::lower_hex(rva as nat) + " is not inside any section"@,
{
    Error::argument(
        Message::new("rva 0x").hex(rva).text(" is not inside any section").as_str(),
    )
}

/// The module kind that the characteristics and the subsystem stand for.
pub open spec fn kind_of(characteristics: u16, subsystem: u16) -> ModuleKind {
    if characteristics / 0x2000 % 2 == 1 {
        ModuleKind::Dll
    } else if subsystem == 2 || subsystem == 9 {
        ModuleKind::Windows
    } else {
        ModuleKind::Console
    }
}

/// Derives the module kind from image characteristics and the subsystem field.
pub fn module_kind(characteristics: u16, subsystem: u16) -> (k: ModuleKind)
    ensures
        k == kind_of(characteristics, subsystem),
{
    if characteristics / 0x2000 % 2 == 1 {
        return ModuleKind::Dll;
    }
    if subsystem == 0x2 || subsystem == 0x9 {
        return ModuleKind::Windows;
    }
    ModuleKind::Console
}

} // verus!
