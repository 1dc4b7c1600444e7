//! Emission of complete PE32 / PE32+ images.
//!
//! * [`ImageWriter::new`] creates a byte-faithful *pass-through* writer: an
//!   untouched image is re-emitted bit-for-bit, and individual fields
//!   (entry-point token, timestamp, same-size metadata replacement) can be
//!   patched without disturbing anything else.
//! * [`ImageWriter::rebuild`] performs a full canonical build (`.text` layout
//!   via [`TextMap`], import directory, startup stub) from an [`EmitParts`]
//!   bundle.
//!
//! Pass-through mode keeps the stored checksum unless
//! [`ImageWriter::set_compute_checksum`] asks for a new one.

use vstd::prelude::*;

use crate::bytes;
use crate::error::{Error, ErrorKind};
use crate::io::ByteWriter;
use crate::pe::checksum;
use crate::pe::image;
use crate::pe::image::{
    DataDirectoryIndex, DebugEntryView, Image, ImageDebugEntry, ImageView, ModuleKind,
    TargetArchitecture,
};
use crate::pe::resources;
use crate::pe::section;
use crate::pe::section::{DataDirectory, Range, Section, SectionView};
use crate::pe::textmap;
use crate::pe::textmap::{TextMap, TextSegment, TEXT_RVA};
use crate::text;
use crate::text::Message;
use crate::token::Token;

verus! {

broadcast use crate::bytes::widths;

/// Alignment of sections in the file.
pub const FILE_ALIGNMENT: u32 = 0x200;

/// Alignment of sections in memory.
pub const SECTION_ALIGNMENT: u32 = 0x2000;

/// The address that an emitted image prefers to be loaded at.
pub const IMAGE_BASE: u32 = 0x0040_0000;

/// How many bytes the headers of an emitted image take.
pub const HEADER_SIZE: u32 = 0x200;

/// Size of the CLI header.
pub const CLI_HEADER_SIZE: u32 = 72;

/// The DOS header and stub of an emitted image, up to the PE signature.
pub const DOS_HEADER: [u8; 128] = [
    0x4d, 0x5a, 0x90, 0x00, 0x03, 0x00, 0x00, 0x00, 0x04, 0x00, 0x00, 0x00,
    0xff, 0xff, 0x00, 0x00, 0xb8, 0x00, 0x00, 0x00, 0x00, 0x00, 0x00, 0x00,
    0x40, 0x00, 0x00, 0x00, 0x00, 0x00, 0x00, 0x00, 0x00, 0x00, 0x00, 0x00,
    0x00, 0x00, 0x00, 0x00, 0x00, 0x00, 0x00, 0x00, 0x00, 0x00, 0x00, 0x00,
    0x00, 0x00, 0x00, 0x00, 0x00, 0x00, 0x00, 0x00, 0x00, 0x00, 0x00, 0x00,
    0x80, 0x00, 0x00, 0x00, 0x0e, 0x1f, 0xba, 0x0e, 0x00, 0xb4, 0x09, 0xcd,
    0x21, 0xb8, 0x01, 0x4c, 0xcd, 0x21, 0x54, 0x68, 0x69, 0x73, 0x20, 0x70,
    0x72, 0x6f, 0x67, 0x72, 0x61, 0x6d, 0x20, 0x63, 0x61, 0x6e, 0x6e, 0x6f,
    0x74, 0x20, 0x62, 0x65, 0x20, 0x72, 0x75, 0x6e, 0x20, 0x69, 0x6e, 0x20,
    0x44, 0x4f, 0x53, 0x20, 0x6d, 0x6f, 0x64, 0x65, 0x2e, 0x0d, 0x0d, 0x0a,
    0x24, 0x00, 0x00, 0x00, 0x00, 0x00, 0x00, 0x00,
];

/// Everything a full rebuild needs besides what the parsed image provides.
#[derive(Debug, Clone)]
pub struct EmitParts {
    /// Method bodies (IL code), placed first in `.text`.
    pub code: Vec<u8>,
    /// Managed resources blob (CLI header Resources directory target).
    pub resources: Vec<u8>,
    /// Field RVA data placed between resources and the strong-name slot.
    pub data: Vec<u8>,
    /// Alignment of the data segment; defaults to 8.
    pub data_alignment: Option<u32>,
    /// Complete BSJB metadata root (header + all streams), as produced by the
    /// metadata layer.
    pub metadata: Vec<u8>,
    /// Size of the blank strong-name signature placeholder. For assemblies
    /// with a public key this is `public_key.len() - 32`, otherwise 128 for
    /// assemblies with the standard key, or 0 when unsigned.
    pub strongname_size: u32,
    /// Raw Win32 resource data; gets its own `.rsrc` section with patched RVAs.
    pub win32_resources: Option<Vec<u8>>,
    /// Debug directory entries; their raw-data addresses are recomputed.
    pub debug_entries: Vec<ImageDebugEntry>,
    /// Entry point token written into the CLI header.
    pub entry_point_token: Token,
}

/// What a bundle of parts holds.
#[verifier::ext_equal]
pub struct PartsView {
    pub code: Seq<u8>,
    pub resources: Seq<u8>,
    pub data: Seq<u8>,
    pub data_alignment: Option<u32>,
    pub metadata: Seq<u8>,
    pub strongname_size: u32,
    pub win32_resources: Option<Seq<u8>>,
    pub debug_entries: Seq<DebugEntryView>,
    pub entry_point_token: Token,
}

impl View for EmitParts {
    type V = PartsView;

    open spec fn view(&self) -> PartsView {
        PartsView {
            code: self.code@,
            resources: self.resources@,
            data: self.data@,
            data_alignment: self.data_alignment,
            metadata: self.metadata@,
            strongname_size: self.strongname_size,
            win32_resources: match self.win32_resources {
                Some(r) => Some(r@),
                None => None,
            },
            debug_entries: image::debug_entry_views(self.debug_entries@),
            entry_point_token: self.entry_point_token,
        }
    }
}

impl Default for EmitParts {
    fn default() -> (p: EmitParts)
        ensures
            p@ == (PartsView {
                code: Seq::empty(),
                resources: Seq::empty(),
                data: Seq::empty(),
                data_alignment: None,
                metadata: Seq::empty(),
                strongname_size: 0,
                win32_resources: None,
                debug_entries: Seq::empty(),
                entry_point_token: Token(0),
            }),
    {
        let p = EmitParts {
            code: Vec::new(),
            resources: Vec::new(),
            data: Vec::new(),
            data_alignment: None,
            metadata: Vec::new(),
            strongname_size: 0,
            win32_resources: None,
            debug_entries: Vec::new(),
            entry_point_token: Token(0),
        };
        proof {
            assert(p@.debug_entries =~= Seq::<DebugEntryView>::empty());
        }
        p
    }
}

/// The payloads of debug entries.
pub open spec fn debug_payloads(entries: Seq<DebugEntryView>) -> Seq<Seq<u8>> {
    Seq::new(entries.len(), |k: int| entries[k].data)
}

/// How many payload bytes come before the `k`-th payload.
pub open spec fn payload_offset(entries: Seq<DebugEntryView>, k: int) -> nat {
    bytes::joined(debug_payloads(entries).take(k)).len()
}

/// The record of a debug entry, with the address and the file offset of its
/// payload; one without a payload has no address and keeps its file offset.
pub open spec fn debug_record(e: DebugEntryView, address: int, pointer: int) -> Seq<u8> {
    let d = e.directory;
    bytes::u32_le(bytes::u32_of(d.characteristics)) + bytes::u32_le(
        bytes::u32_of(d.time_date_stamp),
    ) + bytes::u16_le(bytes::u16_of(d.major_version)) + bytes::u16_le(
        bytes::u16_of(d.minor_version),
    ) + bytes::u32_le(bytes::u32_of(d.kind)) + bytes::u32_le(bytes::u32_of(d.size_of_data))
        + bytes::u32_le(
        if e.data.len() == 0 {
            0
        } else {
            address as u32
        },
    ) + bytes::u32_le(
        if e.data.len() == 0 {
            bytes::u32_of(d.pointer_to_raw_data)
        } else {
            pointer as u32
        },
    )
}

/// The records of debug entries whose payloads follow at the address and the
/// file offset.
pub open spec fn debug_records(entries: Seq<DebugEntryView>, address: int, pointer: int) -> Seq<
    Seq<u8>,
> {
    Seq::new(
        entries.len(),
        |k: int|
            debug_record(
                entries[k],
                address + payload_offset(entries, k),
                pointer + payload_offset(entries, k),
            ),
    )
}

/// The debug directory: the records and then the payloads.
#[verifier::opaque]
pub open spec fn debug_bytes(entries: Seq<DebugEntryView>, address: int, pointer: int) -> Seq<u8> {
    bytes::joined(debug_records(entries, address, pointer)) + bytes::joined(debug_payloads(entries))
}

impl PartsView {
    /// The alignment of the data segment.
    pub open spec fn alignment(self) -> u32 {
        match self.data_alignment {
            Some(a) => a,
            None => 8,
        }
    }

    /// How many bytes the records of the debug directory take.
    pub open spec fn debug_records_length(self) -> nat {
        28 * self.debug_entries.len()
    }

    /// How many bytes the debug directory takes.
    pub open spec fn debug_length(self) -> nat {
        self.debug_records_length() + bytes::joined(debug_payloads(self.debug_entries)).len()
    }

    /// The sections of the image rebuilt from the parts, whose text ends at
    /// the address.
    pub open spec fn sections(self, native: bool, end: int) -> Seq<SectionView> {
        rebuilt_sections(
            native,
            end,
            match self.win32_resources {
                Some(r) => Some(r.len() as u32),
                None => None,
            },
        )
    }

    /// How many bytes the Win32 resources take.
    pub open spec fn resource_length(self) -> nat {
        match self.win32_resources {
            Some(r) => r.len(),
            None => 0,
        }
    }
}

/// Where the segments of the `.text` section of a rebuilt image start, as
/// RVAs.
pub struct Layout {
    pub cli: int,
    pub code: int,
    pub resources: int,
    pub data: int,
    pub strong_name: int,
    pub metadata: int,
    pub metadata_end: int,
    pub debug: int,
    pub debug_end: int,
    pub hint: int,
    pub stub: int,
    pub end: int,
}

/// The next aligned address.
pub open spec fn up(value: int, alignment: u32) -> int {
    textmap::align_up(value as u32, alignment) as int
}

/// The layout of a rebuilt image. A 32-bit x86 image (`native`) has an import
/// address table in front, and an import directory and a startup stub at the
/// end; PE32+ (`wide`) aligns the code further.
#[verifier::opaque]
pub open spec fn layout(wide: bool, native: bool, p: PartsView) -> Layout {
    let cli: int = if native {
        0x2008
    } else {
        0x2000
    };
    let code = up(cli + 72, if wide {
        16
    } else {
        4
    });
    let resources = up(code + p.code.len(), 8);
    let data = up(resources + p.resources.len(), p.alignment());
    let strong_name = up(data + p.data.len(), 4);
    let metadata = up(strong_name + p.strongname_size, 8);
    let metadata_end = metadata + p.metadata.len();
    let debug = up(metadata_end, 4);
    let debug_end = debug + p.debug_length();
    let hint = up(debug_end + 48, 16);
    let stub = up(hint + 27, 4) + 2;
    let end = if native {
        stub + 6
    } else {
        debug_end
    };
    Layout {
        cli,
        code,
        resources,
        data,
        strong_name,
        metadata,
        metadata_end,
        debug,
        debug_end,
        hint,
        stub,
        end,
    }
}

/// Every address of the text section, before it is aligned and after, fits 32
/// bits.
#[verifier::opaque]
pub open spec fn text_fits(wide: bool, native: bool, p: PartsView) -> bool {
    let l = layout(wide, native, p);
    &&& l.code + p.code.len() + 7 <= u32::MAX
    &&& l.resources + p.resources.len() <= u32::MAX
    &&& l.resources + p.resources.len() + p.alignment() - 1 <= u32::MAX
    &&& l.data + p.data.len() + 3 <= u32::MAX
    &&& l.strong_name + p.strongname_size + 7 <= u32::MAX
    &&& l.metadata_end + 3 <= u32::MAX
    &&& l.debug_end <= u32::MAX
    &&& native ==> l.debug_end + 63 <= u32::MAX && l.hint + 30 <= u32::MAX && l.stub + 6 <= u32::MAX
    &&& l.end - TEXT_RVA + 0x1FFF <= u32::MAX
}

/// The layout in order: every segment starts behind the one before it.
pub proof fn layout_is_ordered(wide: bool, native: bool, p: PartsView)
    requires
        text_fits(wide, native, p),
    ensures
        ({
            let l = layout(wide, native, p);
            &&& l.cli == if native {
                0x2008int
            } else {
                0x2000
            }
            &&& l.cli + 72 <= l.code <= l.cli + 88
            &&& l.code + p.code.len() <= l.resources <= u32::MAX
            &&& l.resources + p.resources.len() <= l.data <= u32::MAX
            &&& l.data + p.data.len() <= l.strong_name <= u32::MAX
            &&& l.strong_name + p.strongname_size <= l.metadata <= u32::MAX
            &&& l.metadata_end == l.metadata + p.metadata.len() <= l.debug <= u32::MAX
            &&& l.debug_end == l.debug + p.debug_length() <= u32::MAX
            &&& native ==> l.debug_end + 48 <= l.hint && l.hint + 29 <= l.stub && l.end == l.stub + 6
                <= u32::MAX
            &&& !native ==> l.end == l.debug_end
            &&& l.end - TEXT_RVA + 0x1FFF <= u32::MAX
        }),
{
    reveal(layout);
    reveal(text_fits);
    let l = layout(wide, native, p);
    textmap::align_up_bounds((l.cli + 72) as u32, if wide {
        16
    } else {
        4
    });
    textmap::align_up_bounds((l.code + p.code.len()) as u32, 8);
    textmap::align_up_bounds((l.resources + p.resources.len()) as u32, p.alignment());
    textmap::align_up_bounds((l.data + p.data.len()) as u32, 4);
    textmap::align_up_bounds((l.strong_name + p.strongname_size) as u32, 8);
    textmap::align_up_bounds(l.metadata_end as u32, 4);
    if native {
        textmap::align_up_bounds((l.debug_end + 48) as u32, 16);
        textmap::align_up_bounds((l.hint + 27) as u32, 4);
    }
}

/// The range from one address to another.
pub open spec fn range(start: int, end: int) -> Range {
    Range { start: start as u32, length: (end - start) as u32 }
}

/// The text map of a rebuilt image. Every segment up to the metadata reaches
/// as far as the next one.
pub open spec fn text_ranges(native: bool, l: Layout) -> Seq<Range> {
    seq![
        range(0x2000, l.cli),
        range(l.cli, l.code),
        range(l.code, l.resources),
        range(l.resources, l.data),
        range(l.data, l.strong_name),
        range(l.strong_name, l.metadata),
        range(l.metadata, l.metadata_end),
        range(l.metadata_end, l.metadata_end),
        range(l.metadata_end, l.metadata_end),
        range(l.metadata_end, l.metadata_end),
        range(l.metadata_end, l.metadata_end),
        range(l.metadata_end, l.metadata_end),
        range(l.metadata_end, l.debug),
        range(l.debug, l.debug_end),
        if native {
            range(l.debug_end, l.hint + 27)
        } else {
            range(l.debug_end, l.debug_end)
        },
        if native {
            range(l.hint, l.hint)
        } else {
            range(l.debug_end, l.debug_end)
        },
        if native {
            range(l.stub, l.stub + 6)
        } else {
            range(l.debug_end, l.debug_end)
        },
    ]
}

/// One aligned segment: the one before it reaches up to it.
proof fn aligned_segment(map: Seq<Range>, n: int, length: usize, align: u32, start: int)
    requires
        1 <= n < 17,
        map.len() == 17,
        map[n - 1].limit() <= u32::MAX,
        map[n - 1].limit() + align - 1 <= u32::MAX,
        start == up(map[n - 1].limit(), align),
        start + length <= u32::MAX,
    ensures
        ({
            let next = textmap::with_aligned(map, n, length, align);
            &&& next.len() == 17
            &&& next[n - 1] == range(map[n - 1].start as int, start)
            &&& next[n] == range(start, start + length)
            &&& forall|k: int| 0 <= k < 17 && k != n && k != n - 1 ==> next[k] == map[k]
        }),
{
    textmap::align_up_bounds(map[n - 1].limit() as u32, align);
}

/// Lays the text section out up to the metadata.
fn text_map_front(wide: bool, native: bool, parts: &EmitParts) -> (map: TextMap)
    requires
        text_fits(wide, native, parts@),
    ensures
        map@.len() == 17,
        map@.take(6) == text_ranges(native, layout(wide, native, parts@)).take(6),
        map@[6] == text_ranges(native, layout(wide, native, parts@))[6],
{
    let ghost l = layout(wide, native, parts@);
    proof {
        layout_is_ordered(wide, native, parts@);
        reveal(text_fits);
    }
    let mut map = TextMap::default();
    map.add(TextSegment::ImportAddressTable, if native {
        8
    } else {
        0
    });
    map.add(TextSegment::CliHeader, CLI_HEADER_SIZE as usize);
    assert(map@[0] == range(0x2000, l.cli));
    assert(map@[1] == range(l.cli, l.cli + 72));
    let code_alignment: u32 = if wide {
        16
    } else {
        4
    };
    proof {
        assert(l.code == up(l.cli + 72, code_alignment)) by {
            reveal(layout);
        }
        aligned_segment(map@, 2, parts.code.len(), code_alignment, l.code);
    }
    map.add_aligned(TextSegment::Code, parts.code.len(), code_alignment);
    proof {
        assert(l.resources == up(l.code + parts@.code.len(), 8)) by {
            reveal(layout);
        }
        aligned_segment(map@, 3, parts.resources.len(), 8, l.resources);
    }
    map.add_aligned(TextSegment::Resources, parts.resources.len(), 8);
    let data_alignment: u32 = match parts.data_alignment {
        Some(a) => a,
        None => 8,
    };
    proof {
        assert(l.data == up(l.resources + parts@.resources.len(), data_alignment)) by {
            reveal(layout);
        }
        aligned_segment(map@, 4, parts.data.len(), data_alignment, l.data);
    }
    map.add_aligned(TextSegment::Data, parts.data.len(), data_alignment);
    proof {
        assert(l.strong_name == up(l.data + parts@.data.len(), 4)) by {
            reveal(layout);
        }
        aligned_segment(map@, 5, parts.strongname_size as usize, 4, l.strong_name);
    }
    map.add_aligned(TextSegment::StrongNameSignature, parts.strongname_size as usize, 4);
    proof {
        assert(l.metadata == up(l.strong_name + parts@.strongname_size, 8)) by {
            reveal(layout);
        }
        aligned_segment(map@, 6, parts.metadata.len(), 8, l.metadata);
    }
    map.add_aligned(TextSegment::MetadataHeader, parts.metadata.len(), 8);
    proof {
        assert(map@.take(6) =~= text_ranges(native, l).take(6));
    }
    map
}

/// Lays the text section out.
fn text_map(wide: bool, native: bool, parts: &EmitParts, debug_len: usize) -> (map: TextMap)
    requires
        text_fits(wide, native, parts@),
        debug_len == parts@.debug_length(),
    ensures
        map@ == text_ranges(native, layout(wide, native, parts@)),
{
    let ghost l = layout(wide, native, parts@);
    proof {
        layout_is_ordered(wide, native, parts@);
        reveal(text_fits);
    }
    let mut map = text_map_front(wide, native, parts);
    let ghost front = map@.take(6);
    let tail = Range::new(map.get_next_rva(TextSegment::MetadataHeader), 0);
    map.add_range(TextSegment::TableHeap, tail);
    map.add_range(TextSegment::StringHeap, tail);
    map.add_range(TextSegment::UserStringHeap, tail);
    map.add_range(TextSegment::GuidHeap, tail);
    map.add_range(TextSegment::BlobHeap, tail);
    map.add_range(TextSegment::PdbHeap, tail);
    proof {
        assert(l.debug == up(l.metadata_end, 4)) by {
            reveal(layout);
        }
        aligned_segment(map@, 13, debug_len, 4, l.debug);
    }
    map.add_aligned(TextSegment::DebugDirectory, debug_len, 4);
    let start: u32 = map.get_next_rva(TextSegment::DebugDirectory);
    if native {
        let hint: u32 = textmap::round_up(start + 48, 16);
        let length: u32 = (hint - start) + 27;
        proof {
            reveal(layout);
        }
        let stub: u32 = 2 + textmap::round_up(start + length, 4);
        map.add_range(TextSegment::ImportDirectory, Range::new(start, length));
        map.add_range(TextSegment::ImportHintNameTable, Range::new(hint, 0));
        map.add_range(TextSegment::StartupStub, Range::new(stub, 6));
    } else {
        map.add_range(TextSegment::ImportDirectory, Range::new(start, 0));
        map.add_range(TextSegment::ImportHintNameTable, Range::new(start, 0));
        map.add_range(TextSegment::StartupStub, Range::new(start, 0));
    }
    proof {
        assert forall|k: int| 0 <= k < 17 implies #[trigger] map@[k] == text_ranges(native, l)[k] by {
            if k < 6 {
                assert(front[k] == text_ranges(native, l).take(6)[k]);
            }
        }
        assert(map@ =~= text_ranges(native, l));
    }
    map
}

/// A section behind another, in memory and in the file.
pub open spec fn next_section(name: Seq<char>, size: int, previous: SectionView) -> SectionView {
    SectionView {
        name,
        virtual_address: (previous.virtual_address + up(
            previous.virtual_size as int,
            SECTION_ALIGNMENT,
        )) as u32,
        virtual_size: size as u32,
        size_of_raw_data: up(size, FILE_ALIGNMENT) as u32,
        pointer_to_raw_data: (previous.pointer_to_raw_data + previous.size_of_raw_data) as u32,
    }
}

/// The `.text` section, which ends at the address.
pub open spec fn text_section(end: int) -> SectionView {
    SectionView {
        name: ".text"@,
        virtual_address: TEXT_RVA,
        virtual_size: (end - TEXT_RVA) as u32,
        size_of_raw_data: up(end - TEXT_RVA, FILE_ALIGNMENT) as u32,
        pointer_to_raw_data: HEADER_SIZE,
    }
}

/// The sections of a rebuilt image: `.text`, `.rsrc` where there are Win32
/// resources, and `.reloc` on 32-bit x86.
pub open spec fn rebuilt_sections(native: bool, end: int, rsrc: Option<u32>) -> Seq<SectionView> {
    let text = text_section(end);
    let front = match rsrc {
        Some(n) => seq![text, next_section(".rsrc"@, n as int, text)],
        None => seq![text],
    };
    if native {
        front.push(next_section(".reloc"@, 12, front.last()))
    } else {
        front
    }
}

/// The sections behind the section fit 32 bits, in memory and in the file.
pub open spec fn section_fits(s: SectionView) -> bool {
    &&& s.virtual_size + 0x1FFF <= u32::MAX
    &&& s.virtual_address + up(s.virtual_size as int, SECTION_ALIGNMENT) <= u32::MAX
    &&& s.pointer_to_raw_data + s.size_of_raw_data <= u32::MAX
}

/// All sections fit 32 bits.
pub open spec fn sections_fit(sections: Seq<SectionView>) -> bool {
    forall|k: int| 0 <= k < sections.len() ==> section_fits(#[trigger] sections[k])
}

/// A rebuilt image fits 32 bits.
pub open spec fn rebuild_fits(wide: bool, native: bool, p: PartsView) -> bool {
    &&& text_fits(wide, native, p)
    &&& p.resource_length() + 0x1FFF <= u32::MAX
    &&& sections_fit(p.sections(native, layout(wide, native, p).end))
}

fn create_section(name: &str, size: u32, previous: &Section) -> (s: Section)
    requires
        section_fits(previous@),
        size + 0x1FFF <= u32::MAX,
    ensures
        s@ == next_section(name@, size as int, previous@),
{
    Section {
        name: name.to_owned(),
        virtual_address: previous.virtual_address + textmap::round_up(
            previous.virtual_size,
            SECTION_ALIGNMENT,
        ),
        virtual_size: size,
        size_of_raw_data: textmap::round_up(size, FILE_ALIGNMENT),
        pointer_to_raw_data: previous.pointer_to_raw_data + previous.size_of_raw_data,
    }
}

/// Creates the sections of a rebuilt image.
fn create_sections(native: bool, end: u32, rsrc: Option<u32>) -> (sections: Vec<Section>)
    requires
        TEXT_RVA <= end,
        end - TEXT_RVA + 0x1FFF <= u32::MAX,
        rsrc matches Some(n) ==> n + 0x1FFF <= u32::MAX,
        sections_fit(rebuilt_sections(native, end as int, rsrc)),
    ensures
        section::section_views(sections@) == rebuilt_sections(native, end as int, rsrc),
{
    let ghost views = rebuilt_sections(native, end as int, rsrc);
    let text = Section {
        name: ".text".to_owned(),
        virtual_address: TEXT_RVA,
        virtual_size: end - TEXT_RVA,
        size_of_raw_data: textmap::round_up(end - TEXT_RVA, FILE_ALIGNMENT),
        pointer_to_raw_data: HEADER_SIZE,
    };
    let mut sections: Vec<Section> = Vec::new();
    assert(text@ == views[0]);
    sections.push(text);
    assert(section_fits(views[0]));
    match rsrc {
        Some(n) => {
            let s = create_section(".rsrc", n, &sections[0]);
            assert(s@ == views[1]);
            sections.push(s);
            assert(section_fits(views[1]));
        },
        None => {},
    }
    if native {
        let last: usize = sections.len() - 1;
        let s = create_section(".reloc", 12, &sections[last]);
        sections.push(s);
    }
    proof {
        assert(section::section_views(sections@) =~= views);
    }
    sections
}

/// The bytes of a data directory.
pub open spec fn directory_bytes(d: DataDirectory) -> Seq<u8> {
    bytes::u32_le(d.virtual_address) + bytes::u32_le(d.size)
}

/// The bytes of data directories.
pub open spec fn directory_table_parts(ds: Seq<DataDirectory>) -> Seq<Seq<u8>> {
    Seq::new(ds.len(), |k: int| directory_bytes(ds[k]))
}

/// A section name, cut or filled up to eight bytes.
pub open spec fn name_field(name: Seq<char>) -> Seq<u8> {
    let b = text::utf8(name);
    if b.len() >= 8 {
        b.take(8)
    } else {
        b + bytes::zero_bytes((8 - b.len()) as nat)
    }
}

/// The bytes of a section table entry.
pub open spec fn section_header(s: SectionView, characteristics: u32) -> Seq<u8> {
    name_field(s.name) + bytes::u32_le(s.virtual_size) + bytes::u32_le(s.virtual_address)
        + bytes::u32_le(s.size_of_raw_data) + bytes::u32_le(s.pointer_to_raw_data) + bytes::u32_le(0)
        + bytes::u32_le(0) + bytes::u16_le(0) + bytes::u16_le(0) + bytes::u32_le(characteristics)
}

/// The characteristics of the `k`-th section of a rebuilt image.
pub open spec fn section_characteristics(k: int, rsrc: bool) -> u32 {
    if k == 0 {
        0x6000_0020
    } else if k == 1 && rsrc {
        0x4000_0040
    } else {
        0x4200_0040
    }
}

/// The bytes of the section table of a rebuilt image.
pub open spec fn section_table_parts(sections: Seq<SectionView>, rsrc: bool) -> Seq<Seq<u8>> {
    Seq::new(
        sections.len(),
        |k: int| section_header(sections[k], section_characteristics(k, rsrc)),
    )
}

fn write_dir(w: &mut ByteWriter, dir: DataDirectory)
    ensures
        final(w)@ == old(w)@ + directory_bytes(dir),
{
    w.u32(dir.virtual_address);
    w.u32(dir.size);
    proof {
        assert(w@ =~= old(w)@ + directory_bytes(dir));
    }
}

fn write_section_header(w: &mut ByteWriter, section: &Section, characteristics: u32)
    ensures
        final(w)@ == old(w)@ + section_header(section@, characteristics),
{
    let name = section.name.as_str().as_bytes();
    let length: usize = name.len();
    if length >= 8 {
        w.bytes(vstd::slice::slice_subrange(name, 0, 8));
        proof {
            assert(name@.subrange(0, 8) =~= name@.take(8));
        }
    } else {
        w.bytes(name);
        w.zeros(8 - length);
        proof {
            assert(w@ =~= old(w)@ + name_field(section@.name));
        }
    }
    w.u32(section.virtual_size);
    w.u32(section.virtual_address);
    w.u32(section.size_of_raw_data);
    w.u32(section.pointer_to_raw_data);
    w.u32(0);
    w.u32(0);
    w.u16(0);
    w.u16(0);
    w.u32(characteristics);
    proof {
        assert(w@ =~= old(w)@ + section_header(section@, characteristics));
    }
}

/// The subsystem field of a rebuilt image.
pub open spec fn subsystem_of(kind: ModuleKind) -> u16 {
    if kind == ModuleKind::Windows {
        2
    } else {
        3
    }
}

fn subsystem_for(kind: ModuleKind) -> (s: u16)
    ensures
        s == subsystem_of(kind),
{
    match kind {
        ModuleKind::Windows => 0x2,
        ModuleKind::Console | ModuleKind::Dll | ModuleKind::NetModule => 0x3,
    }
}

/// The PE signature and the file header.
pub open spec fn file_header(m: ImageView, sections: int, timestamp: u32) -> Seq<u8> {
    bytes::u32_le(0x0000_4550) + bytes::u16_le(m.architecture.0) + bytes::u16_le(sections as u16)
        + bytes::u32_le(timestamp) + bytes::u32_le(0) + bytes::u32_le(0) + bytes::u16_le(
        if m.architecture.wide() {
            0xF0
        } else {
            0xE0
        },
    ) + bytes::u16_le(m.characteristics)
}

/// The optional header up to the image base.
pub open spec fn standard_fields(m: ImageView, code: u32, initialized: u32, entry: u32) -> Seq<u8> {
    bytes::u16_le(
        if m.architecture.wide() {
            0x20B
        } else {
            0x10B
        },
    ) + bytes::u16_le(m.linker_version) + bytes::u32_le(code) + bytes::u32_le(initialized)
        + bytes::u32_le(0) + bytes::u32_le(entry) + bytes::u32_le(TEXT_RVA) + if m.architecture.wide() {
        bytes::u64_le(IMAGE_BASE as u64)
    } else {
        bytes::u32_le(0) + bytes::u32_le(IMAGE_BASE)
    }
}

/// The optional header from the alignments to the DLL characteristics, with
/// no checksum.
pub open spec fn windows_fields(m: ImageView, image_size: u32) -> Seq<u8> {
    bytes::u32_le(SECTION_ALIGNMENT) + bytes::u32_le(FILE_ALIGNMENT) + bytes::u16_le(4)
        + bytes::u16_le(0) + bytes::u16_le(0) + bytes::u16_le(0) + bytes::u16_le(m.subsystem_major)
        + bytes::u16_le(m.subsystem_minor) + bytes::u32_le(0) + bytes::u32_le(image_size)
        + bytes::u32_le(HEADER_SIZE) + bytes::u32_le(0) + bytes::u16_le(subsystem_of(m.kind))
        + bytes::u16_le(m.dll_characteristics)
}

/// The stack and heap sizes, and what precedes the data directories.
pub open spec fn size_fields(wide: bool) -> Seq<u8> {
    if wide {
        bytes::u64_le(0x0040_0000) + bytes::u64_le(0x4000) + bytes::u64_le(0x0010_0000)
            + bytes::u64_le(0x2000) + bytes::u32_le(0) + bytes::u32_le(16)
    } else {
        bytes::u32_le(0x0010_0000) + bytes::u32_le(0x1000) + bytes::u32_le(0x0010_0000)
            + bytes::u32_le(0x1000) + bytes::u32_le(0) + bytes::u32_le(16)
    }
}

/// The data directories of a rebuilt image.
pub open spec fn rebuilt_directories(
    native: bool,
    l: Layout,
    p: PartsView,
    sections: Seq<SectionView>,
) -> Seq<DataDirectory> {
    let none = DataDirectory::none();
    seq![
        none,
        if native {
            DataDirectory {
                virtual_address: l.debug_end as u32,
                size: (l.hint + 27 - l.debug_end) as u32,
            }
        } else {
            none
        },
        if p.win32_resources is Some {
            DataDirectory {
                virtual_address: sections[1].virtual_address,
                size: sections[1].virtual_size,
            }
        } else {
            none
        },
        none,
        none,
        if native {
            DataDirectory {
                virtual_address: sections.last().virtual_address,
                size: sections.last().virtual_size,
            }
        } else {
            none
        },
        if p.debug_entries.len() > 0 {
            DataDirectory {
                virtual_address: l.debug as u32,
                size: p.debug_records_length() as u32,
            }
        } else {
            none
        },
        none,
        none,
        none,
        none,
        none,
        if native {
            DataDirectory { virtual_address: TEXT_RVA, size: 8 }
        } else {
            none
        },
        none,
        DataDirectory { virtual_address: l.cli as u32, size: (l.code - l.cli) as u32 },
        none,
    ]
}

/// The headers of a rebuilt image.
#[verifier::opaque]
pub open spec fn rebuilt_headers(
    m: ImageView,
    p: PartsView,
    l: Layout,
    sections: Seq<SectionView>,
    timestamp: u32,
) -> Seq<u8> {
    let native = m.architecture.0 == 0x014C;
    let initialized = if sections.len() == 1 {
        0
    } else if sections.len() == 2 {
        sections[1].size_of_raw_data as int
    } else {
        sections[1].size_of_raw_data + sections[2].size_of_raw_data
    };
    DOS_HEADER@ + file_header(m, sections.len() as int, timestamp) + standard_fields(
        m,
        sections[0].size_of_raw_data,
        initialized as u32,
        if native {
            l.stub as u32
        } else {
            0
        },
    ) + windows_fields(
        m,
        (sections.last().virtual_address + up(
            sections.last().virtual_size as int,
            SECTION_ALIGNMENT,
        )) as u32,
    ) + size_fields(m.architecture.wide()) + bytes::joined(
        directory_table_parts(rebuilt_directories(native, l, p, sections)),
    ) + bytes::joined(section_table_parts(sections, p.win32_resources is Some))
}

fn write_directories(w: &mut ByteWriter, directories: &Vec<DataDirectory>)
    ensures
        final(w)@ == old(w)@ + bytes::joined(directory_table_parts(directories@)),
{
    let ghost parts = directory_table_parts(directories@);
    let n: usize = directories.len();
    let mut i: usize = 0;
    proof {
        assert(parts.take(0) =~= Seq::<Seq<u8>>::empty());
        assert(w@ =~= old(w)@ + bytes::joined(parts.take(0)));
    }
    while i < n
        invariant
            i <= n,
            n == directories@.len(),
            parts == directory_table_parts(directories@),
            w@ == old(w)@ + bytes::joined(parts.take(i as int)),
        decreases n - i,
    {
        write_dir(w, directories[i]);
        proof {
            bytes::joined_step(parts, i as int);
            assert(w@ =~= old(w)@ + bytes::joined(parts.take(i + 1)));
        }
        i += 1;
    }
    proof {
        assert(parts.take(n as int) =~= parts);
    }
}

fn write_section_table(w: &mut ByteWriter, sections: &Vec<Section>, rsrc: bool)
    ensures
        final(w)@ == old(w)@ + bytes::joined(
            section_table_parts(section::section_views(sections@), rsrc),
        ),
{
    let ghost parts = section_table_parts(section::section_views(sections@), rsrc);
    let n: usize = sections.len();
    let mut i: usize = 0;
    proof {
        assert(parts.take(0) =~= Seq::<Seq<u8>>::empty());
        assert(w@ =~= old(w)@ + bytes::joined(parts.take(0)));
    }
    while i < n
        invariant
            i <= n,
            n == sections@.len(),
            parts == section_table_parts(section::section_views(sections@), rsrc),
            w@ == old(w)@ + bytes::joined(parts.take(i as int)),
        decreases n - i,
    {
        let characteristics: u32 = if i == 0 {
            0x6000_0020
        } else if i == 1 && rsrc {
            0x4000_0040
        } else {
            0x4200_0040
        };
        write_section_header(w, &sections[i], characteristics);
        proof {
            bytes::joined_step(parts, i as int);
            assert(w@ =~= old(w)@ + bytes::joined(parts.take(i + 1)));
        }
        i += 1;
    }
    proof {
        assert(parts.take(n as int) =~= parts);
    }
}

/// The file offset of an address in the text section.
pub open spec fn text_offset(rva: int) -> int {
    rva - TEXT_RVA + HEADER_SIZE
}

/// The import address table: the entry and the one that ends the table.
pub open spec fn import_address_table(native: bool, l: Layout) -> Seq<u8> {
    if native {
        bytes::u32_le(l.hint as u32) + bytes::u32_le(0)
    } else {
        Seq::empty()
    }
}

/// The CLI header of a rebuilt image.
pub open spec fn cli_header_bytes(l: Layout, metadata: int, flags: u32, entry: Token) -> Seq<u8> {
    let none = directory_bytes(DataDirectory::none());
    bytes::u32_le(72) + bytes::u16_le(2) + bytes::u16_le(5) + bytes::u32_le(l.metadata as u32)
        + bytes::u32_le(metadata as u32) + bytes::u32_le(flags) + bytes::u32_le(entry.0)
        + directory_bytes(textmap::range_directory(range(l.resources, l.data))) + directory_bytes(
        textmap::range_directory(range(l.strong_name, l.metadata)),
    ) + none + none + none + none
}

/// The name of the imported entry point of a library, `_CorDllMain`.
pub const DLL_MAIN: [u8; 11] = [
    0x5f, 0x43, 0x6f, 0x72, 0x44, 0x6c, 0x6c, 0x4d, 0x61, 0x69, 0x6e,
];

/// The name of the imported entry point of a program, `_CorExeMain`.
pub const EXE_MAIN: [u8; 11] = [
    0x5f, 0x43, 0x6f, 0x72, 0x45, 0x78, 0x65, 0x4d, 0x61, 0x69, 0x6e,
];

/// The name of the library that it is imported from, `mscoree.dll`.
pub const RUNTIME_LIBRARY: [u8; 11] = [
    0x6d, 0x73, 0x63, 0x6f, 0x72, 0x65, 0x65, 0x2e, 0x64, 0x6c, 0x6c,
];

/// The import directory: one entry, the one that ends the directory, and the
/// lookup table.
pub open spec fn import_directory(l: Layout) -> Seq<u8> {
    bytes::u32_le((l.debug_end + 40) as u32) + bytes::u32_le(0) + bytes::u32_le(0) + bytes::u32_le(
        (l.hint + 14) as u32,
    ) + bytes::u32_le(TEXT_RVA) + bytes::zero_bytes(20) + bytes::u32_le(l.hint as u32)
}

/// The hint/name table and the name of the library.
pub open spec fn hint_name_table(kind: ModuleKind) -> Seq<u8> {
    bytes::u16_le(0) + (if kind == ModuleKind::Dll || kind == ModuleKind::NetModule {
        DLL_MAIN@
    } else {
        EXE_MAIN@
    }) + seq![0u8] + RUNTIME_LIBRARY@ + bytes::u16_le(0)
}

/// The startup stub: a jump through the import address table.
pub open spec fn startup_stub() -> Seq<u8> {
    bytes::u16_le(0x25FF) + bytes::u32_le((IMAGE_BASE + TEXT_RVA) as u32)
}

/// The relocation of the address in the startup stub.
pub open spec fn relocation_block(l: Layout) -> Seq<u8> {
    let rva = l.stub + 2;
    bytes::u32_le((rva - rva % 0x1000) as u32) + bytes::u32_le(12) + bytes::u32_le(
        (0x3000 + rva % 0x1000) as u32,
    )
}

/// `s`, filled up with zeros to `at`, and then `part`.
pub open spec fn placed(s: Seq<u8>, at: int, part: Seq<u8>) -> Seq<u8> {
    s + bytes::zero_bytes((at - s.len()) as nat) + part
}

/// `s` and then every item at its offset, with zeros in between.
pub open spec fn placed_all(s: Seq<u8>, items: Seq<(int, Seq<u8>)>) -> Seq<u8>
    decreases items.len(),
{
    if items.len() == 0 {
        s
    } else {
        placed(placed_all(s, items.drop_last()), items.last().0, items.last().1)
    }
}

/// Placing one more item.
pub proof fn placed_step(s: Seq<u8>, items: Seq<(int, Seq<u8>)>, item: (int, Seq<u8>))
    ensures
        placed_all(s, items.push(item)) == placed(placed_all(s, items), item.0, item.1),
{
    assert(items.push(item).drop_last() =~= items);
}

/// What stands in the text section, item by item.
pub open spec fn text_items(m: ImageView, p: PartsView, l: Layout, entry: Token) -> Seq<(int, Seq<u8>)> {
    let native = m.architecture.0 == 0x014C;
    let common = seq![
        (
            HEADER_SIZE as int,
            import_address_table(native, l) + cli_header_bytes(
                l,
                p.metadata.len() as int,
                m.cli_header.flags,
                entry,
            ),
        ),
        (text_offset(l.code), p.code),
        (text_offset(l.resources), p.resources),
        (text_offset(l.data), p.data),
        (text_offset(l.metadata), p.metadata),
        (
            text_offset(l.debug),
            debug_bytes(
                p.debug_entries,
                l.metadata_end + p.debug_records_length(),
                text_offset(l.debug) + p.debug_records_length(),
            ),
        ),
    ];
    if native {
        common.push((text_offset(l.debug_end), import_directory(l))).push(
            (text_offset(l.hint), hint_name_table(m.kind)),
        ).push((text_offset(l.stub), startup_stub()))
    } else {
        common
    }
}

/// What a rebuilt image holds behind its headers, and where.
#[verifier::opaque]
pub open spec fn rebuilt_items(
    m: ImageView,
    p: PartsView,
    l: Layout,
    sections: Seq<SectionView>,
    entry: Token,
    rsrc: Seq<u8>,
) -> Seq<(int, Seq<u8>)> {
    let text = text_items(m, p, l, entry);
    let with_rsrc = if p.win32_resources is Some {
        text.push((sections[1].pointer_to_raw_data as int, rsrc))
    } else {
        text
    };
    let all = if m.architecture.0 == 0x014C {
        with_rsrc.push((sections.last().pointer_to_raw_data as int, relocation_block(l)))
    } else {
        with_rsrc
    };
    all.push((sections.last().pointer_to_raw_data + sections.last().size_of_raw_data, Seq::empty()))
}

/// The Win32 resources of a rebuilt image, moved from the resource directory
/// of the image to their new section.
pub open spec fn moved_resources(m: ImageView, p: PartsView, sections: Seq<SectionView>) -> Option<
    Seq<u8>,
> {
    match p.win32_resources {
        None => Some(Seq::empty()),
        Some(r) => resources::patched_resources(
            r,
            m.data_directories[2].virtual_address,
            sections[1].virtual_address,
        ),
    }
}

/// The layout of the image rebuilt from the parts.
pub open spec fn image_layout(m: ImageView, p: PartsView) -> Layout {
    layout(m.architecture.wide(), m.architecture.0 == 0x014C, p)
}

/// The sections of the image rebuilt from the parts.
pub open spec fn image_sections(m: ImageView, p: PartsView) -> Seq<SectionView> {
    p.sections(m.architecture.0 == 0x014C, image_layout(m, p).end)
}

/// The rebuilt image, without a checksum.
pub open spec fn rebuilt_file(
    m: ImageView,
    p: PartsView,
    entry: Token,
    timestamp: u32,
    rsrc: Seq<u8>,
) -> Seq<u8> {
    let l = image_layout(m, p);
    let sections = image_sections(m, p);
    placed_all(
        rebuilt_headers(m, p, l, sections, timestamp),
        rebuilt_items(m, p, l, sections, entry, rsrc),
    )
}

proof fn block_lengths(m: ImageView, p: PartsView, l: Layout, sections: Seq<SectionView>)
    ensures
        forall|n: int, t: u32| #[trigger] file_header(m, n, t).len() == 24,
        forall|a: u32, b: u32, c: u32| #[trigger] standard_fields(m, a, b, c).len() == 32,
        forall|a: u32| #[trigger] windows_fields(m, a).len() == 40,
        size_fields(m.architecture.wide()).len() == if m.architecture.wide() {
            40nat
        } else {
            24
        },
        forall|flags: u32, n: int, t: Token| #[trigger] cli_header_bytes(l, n, flags, t).len() == 72,
        forall|d: DataDirectory| #[trigger] directory_bytes(d).len() == 8,
        forall|s: SectionView, c: u32| #[trigger] section_header(s, c).len() == 40,
        forall|e: DebugEntryView, a: int, b: int| #[trigger] debug_record(e, a, b).len() == 28,
        import_directory(l).len() == 44,
        hint_name_table(m.kind).len() == 27,
        startup_stub().len() == 6,
        relocation_block(l).len() == 12,
{
}

/// How many bytes the headers of a rebuilt image take before they are filled
/// up.
pub proof fn headers_length(
    m: ImageView,
    p: PartsView,
    l: Layout,
    sections: Seq<SectionView>,
    timestamp: u32,
)
    requires
        1 <= sections.len() <= 3,
        m.architecture.wide() ==> sections.len() <= 2,
    ensures
        rebuilt_headers(m, p, l, sections, timestamp).len() == 352 + (if m.architecture.wide() {
            40int
        } else {
            24
        }) + 40 * sections.len(),
        rebuilt_headers(m, p, l, sections, timestamp).len() <= HEADER_SIZE,
{
    reveal(rebuilt_headers);
    block_lengths(m, p, l, sections);
    let native = m.architecture.0 == 0x014C;
    let ds = directory_table_parts(rebuilt_directories(native, l, p, sections));
    let ss = section_table_parts(sections, p.win32_resources is Some);
    bytes::joined_uniform(ds, 8, 16);
    bytes::joined_uniform(ss, 40, ss.len() as int);
    assert(ds.take(16) =~= ds);
    assert(ss.take(ss.len() as int) =~= ss);
}

/// How many bytes the debug directory takes.
pub proof fn debug_bytes_length(p: PartsView, address: int, pointer: int)
    ensures
        debug_bytes(p.debug_entries, address, pointer).len() == p.debug_length(),
{
    reveal(debug_bytes);
    let records = debug_records(p.debug_entries, address, pointer);
    bytes::joined_uniform(records, 28, records.len() as int);
    assert(records.take(records.len() as int) =~= records);
}

/// Adds up what the debug directory takes.
fn debug_length(entries: &Vec<ImageDebugEntry>) -> (n: usize)
    requires
        28 * entries@.len() + bytes::joined(
            debug_payloads(image::debug_entry_views(entries@)),
        ).len() <= u32::MAX,
    ensures
        n == 28 * entries@.len() + bytes::joined(
            debug_payloads(image::debug_entry_views(entries@)),
        ).len(),
{
    let ghost payloads = debug_payloads(image::debug_entry_views(entries@));
    let count: usize = entries.len();
    let mut total: usize = 28 * count;
    let mut i: usize = 0;
    proof {
        assert(payloads.take(0) =~= Seq::<Seq<u8>>::empty());
    }
    while i < count
        invariant
            i <= count,
            count == entries@.len(),
            payloads == debug_payloads(image::debug_entry_views(entries@)),
            28 * count + bytes::joined(payloads).len() <= u32::MAX,
            total == 28 * count + bytes::joined(payloads.take(i as int)).len(),
        decreases count - i,
    {
        proof {
            bytes::joined_part(payloads, i as int);
            assert(payloads[i as int] == entries@[i as int].data@);
        }
        total = total + entries[i].data.len();
        i += 1;
    }
    proof {
        assert(payloads.take(count as int) =~= payloads);
    }
    total
}

/// Writes the debug directory whose payloads stand at the address and the file
/// offset.
fn write_debug(entries: &Vec<ImageDebugEntry>, address: u32, pointer: u32) -> (w: ByteWriter)
    requires
        ({
            let total = bytes::joined(debug_payloads(image::debug_entry_views(entries@))).len();
            address + total <= u32::MAX && pointer + total <= u32::MAX
        }),
    ensures
        w@ == debug_bytes(image::debug_entry_views(entries@), address as int, pointer as int),
{
    let ghost views = image::debug_entry_views(entries@);
    let ghost payloads = debug_payloads(views);
    let ghost records = debug_records(views, address as int, pointer as int);
    let n: usize = entries.len();
    let mut w = ByteWriter::new();
    let mut before: u32 = 0;
    let mut i: usize = 0;
    proof {
        assert(payloads.take(0) =~= Seq::<Seq<u8>>::empty());
        assert(records.take(0) =~= Seq::<Seq<u8>>::empty());
    }
    while i < n
        invariant
            i <= n,
            n == entries@.len(),
            views == image::debug_entry_views(entries@),
            payloads == debug_payloads(views),
            records == debug_records(views, address as int, pointer as int),
            address + bytes::joined(payloads).len() <= u32::MAX,
            pointer + bytes::joined(payloads).len() <= u32::MAX,
            before == bytes::joined(payloads.take(i as int)).len(),
            w@ == bytes::joined(records.take(i as int)),
        decreases n - i,
    {
        let e = &entries[i];
        let ghost start = w@;
        proof {
            bytes::joined_part(payloads, i as int);
            bytes::joined_step(records, i as int);
            assert(payloads[i as int] == e.data@);
            assert(views[i as int] == e@);
        }
        let empty: bool = e.data.len() == 0;
        w.i32(e.directory.characteristics);
        w.i32(e.directory.time_date_stamp);
        w.i16(e.directory.major_version);
        w.i16(e.directory.minor_version);
        w.i32(e.directory.kind);
        w.i32(e.directory.size_of_data);
        w.u32(if empty {
            0
        } else {
            address + before
        });
        w.u32(if empty {
            bytes::as_u32(e.directory.pointer_to_raw_data)
        } else {
            pointer + before
        });
        proof {
            assert(w@ =~= start + records[i as int]);
        }
        before = before + e.data.len() as u32;
        i += 1;
    }
    let ghost front = w@;
    proof {
        assert(records.take(n as int) =~= records);
        assert(w@ =~= front + bytes::joined(payloads.take(0)));
    }
    let mut j: usize = 0;
    while j < n
        invariant
            j <= n,
            n == entries@.len(),
            payloads == debug_payloads(image::debug_entry_views(entries@)),
            w@ == front + bytes::joined(payloads.take(j as int)),
        decreases n - j,
    {
        proof {
            bytes::joined_step(payloads, j as int);
            assert(payloads[j as int] == entries@[j as int].data@);
        }
        w.bytes(entries[j].data.as_slice());
        proof {
            assert(w@ =~= front + bytes::joined(payloads.take(j + 1)));
        }
        j += 1;
    }
    proof {
        assert(payloads.take(n as int) =~= payloads);
        reveal(debug_bytes);
    }
    w
}

/// Fills `w` up to `at` and appends `part`.
fn place(w: &mut ByteWriter, at: usize, part: &[u8])
    requires
        old(w)@.len() <= at,
    ensures
        final(w)@ == placed(old(w)@, at as int, part@),
        final(w)@.len() == at + part@.len(),
{
    let length: usize = w.len();
    w.zeros(at - length);
    w.bytes(part);
    proof {
        assert(w@ =~= placed(old(w)@, at as int, part@));
    }
}

/// Lists the data directories of a rebuilt image.
fn create_directories(
    native: bool,
    parts: &EmitParts,
    map: &TextMap,
    sections: &Vec<Section>,
    Ghost(l): Ghost<Layout>,
) -> (r: Vec<DataDirectory>)
    requires
        map@ == text_ranges(native, l),
        l.cli + 72 <= l.code <= u32::MAX,
        0 <= l.cli,
        l.cli == 0x2000 + if native {
            8int
        } else {
            0
        },
        0 <= l.debug <= l.debug_end <= u32::MAX,
        native ==> l.debug_end + 48 <= l.hint && l.hint + 27 <= u32::MAX,
        parts@.debug_records_length() <= u32::MAX,
        sections@.len() >= 1,
        parts.win32_resources is Some ==> sections@.len() >= 2,
    ensures
        r@ == rebuilt_directories(native, l, parts@, section::section_views(sections@)),
{
    let last: usize = sections.len() - 1;
    let mut r: Vec<DataDirectory> = Vec::new();
    r.push(DataDirectory::zero());
    r.push(map.get_data_directory(TextSegment::ImportDirectory));
    r.push(
        if parts.win32_resources.is_some() {
            DataDirectory::new(sections[1].virtual_address, sections[1].virtual_size)
        } else {
            DataDirectory::zero()
        },
    );
    r.push(DataDirectory::zero());
    r.push(DataDirectory::zero());
    r.push(
        if native {
            DataDirectory::new(sections[last].virtual_address, sections[last].virtual_size)
        } else {
            DataDirectory::zero()
        },
    );
    r.push(
        if parts.debug_entries.len() > 0 {
            DataDirectory::new(
                map.get_rva(TextSegment::DebugDirectory),
                28 * parts.debug_entries.len() as u32,
            )
        } else {
            DataDirectory::zero()
        },
    );
    r.push(DataDirectory::zero());
    r.push(DataDirectory::zero());
    r.push(DataDirectory::zero());
    r.push(DataDirectory::zero());
    r.push(DataDirectory::zero());
    r.push(map.get_data_directory(TextSegment::ImportAddressTable));
    r.push(DataDirectory::zero());
    r.push(map.get_data_directory(TextSegment::CliHeader));
    r.push(DataDirectory::zero());
    proof {
        assert(r@ =~= rebuilt_directories(native, l, parts@, section::section_views(sections@)));
    }
    r
}

/// Writes the PE signature and the file header.
fn write_file_header(w: &mut ByteWriter, image: &Image, sections: u16, timestamp: u32)
    ensures
        final(w)@ == old(w)@ + file_header(image@, sections as int, timestamp),
{
    proof {
        image.view_fields();
    }
    w.u32(0x0000_4550);
    w.u16(image.architecture.0);
    w.u16(sections);
    w.u32(timestamp);
    w.u32(0);
    w.u32(0);
    w.u16(if image.architecture.is_pe64() {
        0xF0
    } else {
        0xE0
    });
    w.u16(image.characteristics);
    proof {
        assert(w@ =~= old(w)@ + file_header(image@, sections as int, timestamp));
    }
}

/// Writes the standard fields of the optional header.
fn write_standard_fields(w: &mut ByteWriter, image: &Image, code: u32, initialized: u32, entry: u32)
    ensures
        final(w)@ == old(w)@ + standard_fields(image@, code, initialized, entry),
{
    proof {
        image.view_fields();
    }
    let wide: bool = image.architecture.is_pe64();
    w.u16(if wide {
        0x20B
    } else {
        0x10B
    });
    w.u16(image.linker_version);
    w.u32(code);
    w.u32(initialized);
    w.u32(0);
    w.u32(entry);
    w.u32(TEXT_RVA);
    if wide {
        w.u64(IMAGE_BASE as u64);
    } else {
        w.u32(0);
        w.u32(IMAGE_BASE);
    }
    proof {
        assert(w@ =~= old(w)@ + standard_fields(image@, code, initialized, entry));
    }
}

/// Writes the fields of the optional header that the loader reads.
fn write_windows_fields(w: &mut ByteWriter, image: &Image, image_size: u32)
    ensures
        final(w)@ == old(w)@ + windows_fields(image@, image_size),
{
    proof {
        image.view_fields();
    }
    w.u32(SECTION_ALIGNMENT);
    w.u32(FILE_ALIGNMENT);
    w.u16(4);
    w.u16(0);
    w.u16(0);
    w.u16(0);
    w.u16(image.subsystem_major);
    w.u16(image.subsystem_minor);
    w.u32(0);
    w.u32(image_size);
    w.u32(HEADER_SIZE);
    w.u32(0);
    w.u16(subsystem_for(image.kind));
    w.u16(image.dll_characteristics);
    proof {
        assert(w@ =~= old(w)@ + windows_fields(image@, image_size));
    }
}

/// Writes the stack and heap sizes and the number of data directories.
fn write_size_fields(w: &mut ByteWriter, wide: bool)
    ensures
        final(w)@ == old(w)@ + size_fields(wide),
{
    if wide {
        w.u64(0x0040_0000);
        w.u64(0x4000);
        w.u64(0x0010_0000);
        w.u64(0x2000);
    } else {
        w.u32(0x0010_0000);
        w.u32(0x1000);
        w.u32(0x0010_0000);
        w.u32(0x1000);
    }
    w.u32(0);
    w.u32(16);
    proof {
        assert(w@ =~= old(w)@ + size_fields(wide));
    }
}

/// Writes the fixed part of the optional header.
fn write_optional_header(
    w: &mut ByteWriter,
    image: &Image,
    code: u32,
    initialized: u32,
    entry: u32,
    image_size: u32,
)
    ensures
        final(w)@ == old(w)@ + standard_fields(image@, code, initialized, entry) + windows_fields(
            image@,
            image_size,
        ) + size_fields(image@.architecture.wide()),
{
    proof {
        image.view_fields();
    }
    write_standard_fields(w, image, code, initialized, entry);
    write_windows_fields(w, image, image_size);
    write_size_fields(w, image.architecture.is_pe64());
}

/// The text map of a rebuilt image reaches as far as its layout.
proof fn text_ranges_end(native: bool, l: Layout, p: PartsView)
    requires
        layout_sound(native, l, p),
    ensures
        textmap::mapped_length(text_ranges(native, l)) == l.end - TEXT_RVA,
{
    let map = text_ranges(native, l);
    textmap::furthest_is_largest(map, 17);
    assert(textmap::reach(map[16]) == l.end - TEXT_RVA);
    assert forall|k: int| 0 <= k < 17 implies textmap::reach(#[trigger] map[k]) <= l.end
        - TEXT_RVA by {}
}

/// What a layout of a rebuilt image keeps to.
spec fn layout_sound(native: bool, l: Layout, p: PartsView) -> bool {
    &&& l.cli == if native {
        0x2008int
    } else {
        0x2000
    }
    &&& l.cli + 72 <= l.code
    &&& l.code + p.code.len() <= l.resources
    &&& l.resources + p.resources.len() <= l.data
    &&& l.data + p.data.len() <= l.strong_name
    &&& l.strong_name + p.strongname_size <= l.metadata
    &&& l.metadata_end == l.metadata + p.metadata.len() <= l.debug
    &&& l.debug_end == l.debug + p.debug_length()
    &&& native ==> l.debug_end + 48 <= l.hint && l.hint + 29 <= l.stub && l.end == l.stub + 6
    &&& !native ==> l.end == l.debug_end
    &&& l.end <= u32::MAX
    &&& l.end - TEXT_RVA + 0x1FFF <= u32::MAX
}

/// Writes the headers of a rebuilt image.
fn write_headers(
    image: &Image,
    parts: &EmitParts,
    map: &TextMap,
    sections: &Vec<Section>,
    timestamp: u32,
    Ghost(l): Ghost<Layout>,
) -> (w: ByteWriter)
    requires
        l == image_layout(image@, parts@),
        layout_sound(image@.architecture.0 == 0x014C, l, parts@),
        map@ == text_ranges(image@.architecture.0 == 0x014C, l),
        section::section_views(sections@) == image_sections(image@, parts@),
        sections_fit(image_sections(image@, parts@)),
    ensures
        w@ == rebuilt_headers(image@, parts@, l, image_sections(image@, parts@), timestamp),
        w@.len() <= HEADER_SIZE,
{
    proof {
        image.view_fields();
        headers_length(image@, parts@, l, image_sections(image@, parts@), timestamp);
    }
    let native: bool = image.architecture.0 == TargetArchitecture::I386;
    let ghost views = section::section_views(sections@);
    let n: usize = sections.len();
    let last = &sections[n - 1];
    assert(last@ == views.last());
    assert(sections@[0]@ == views[0]);
    assert(section_fits(views[n - 1]));
    let initialized: u32 = if n == 1 {
        0
    } else if n == 2 {
        assert(sections@[1]@ == views[1]);
        sections[1].size_of_raw_data
    } else {
        assert(sections@[1]@ == views[1]);
        assert(sections@[2]@ == views[2]);
        assert(section_fits(views[1]));
        sections[1].size_of_raw_data + sections[2].size_of_raw_data
    };
    let stub = map.get_range(TextSegment::StartupStub);
    let entry: u32 = if stub.length > 0 {
        stub.start
    } else {
        0
    };
    let image_size: u32 = last.virtual_address + textmap::round_up(
        last.virtual_size,
        SECTION_ALIGNMENT,
    );
    let directories = create_directories(native, parts, map, sections, Ghost(l));
    let mut w = ByteWriter::new();
    let dos: [u8; 128] = DOS_HEADER;
    w.bytes(dos.as_slice());
    write_file_header(&mut w, image, n as u16, timestamp);
    write_optional_header(
        &mut w,
        image,
        sections[0].size_of_raw_data,
        initialized,
        entry,
        image_size,
    );
    write_directories(&mut w, &directories);
    write_section_table(&mut w, sections, parts.win32_resources.is_some());
    proof {
        reveal(rebuilt_headers);
        assert(w@ =~= rebuilt_headers(image@, parts@, l, views, timestamp));
    }
    w
}

/// Writes the import address table and the CLI header.
fn write_runtime_headers(
    parts: &EmitParts,
    map: &TextMap,
    native: bool,
    flags: u32,
    entry: Token,
    Ghost(l): Ghost<Layout>,
) -> (w: ByteWriter)
    requires
        layout_sound(native, l, parts@),
        map@ == text_ranges(native, l),
    ensures
        w@ == import_address_table(native, l) + cli_header_bytes(
            l,
            parts@.metadata.len() as int,
            flags,
            entry,
        ),
{
    let mut w = ByteWriter::new();
    if native {
        w.u32(map.get_rva(TextSegment::ImportHintNameTable));
        w.u32(0);
    }
    let ghost table = w@;
    proof {
        assert(table =~= import_address_table(native, l));
    }
    w.u32(CLI_HEADER_SIZE);
    w.u16(2);
    w.u16(5);
    w.u32(map.get_rva(TextSegment::MetadataHeader));
    w.u32(parts.metadata.len() as u32);
    w.u32(flags);
    w.u32(entry.0);
    write_dir(&mut w, map.get_data_directory(TextSegment::Resources));
    write_dir(&mut w, map.get_data_directory(TextSegment::StrongNameSignature));
    write_dir(&mut w, DataDirectory::zero());
    write_dir(&mut w, DataDirectory::zero());
    write_dir(&mut w, DataDirectory::zero());
    write_dir(&mut w, DataDirectory::zero());
    proof {
        assert(w@ =~= table + cli_header_bytes(l, parts@.metadata.len() as int, flags, entry));
    }
    w
}

/// Writes the import directory.
fn write_import_directory(map: &TextMap, Ghost(l): Ghost<Layout>) -> (w: ByteWriter)
    requires
        map@ == text_ranges(true, l),
        0 <= l.debug_end,
        l.debug_end + 48 <= l.hint,
        l.hint + 27 <= u32::MAX,
    ensures
        w@ == import_directory(l),
{
    let start: u32 = map.get_rva(TextSegment::ImportDirectory);
    let hint: u32 = map.get_rva(TextSegment::ImportHintNameTable);
    let mut w = ByteWriter::new();
    w.u32(start + 40);
    w.u32(0);
    w.u32(0);
    w.u32(hint + 14);
    w.u32(map.get_rva(TextSegment::ImportAddressTable));
    w.zeros(20);
    w.u32(hint);
    proof {
        assert(w@ =~= import_directory(l));
    }
    w
}

/// Writes the hint/name table.
fn write_hint_name_table(kind: ModuleKind) -> (w: ByteWriter)
    ensures
        w@ == hint_name_table(kind),
{
    let mut w = ByteWriter::new();
    w.u16(0);
    let dll: [u8; 11] = DLL_MAIN;
    let exe: [u8; 11] = EXE_MAIN;
    match kind {
        ModuleKind::Dll | ModuleKind::NetModule => w.bytes(dll.as_slice()),
        _ => w.bytes(exe.as_slice()),
    }
    w.u8(0);
    let library: [u8; 11] = RUNTIME_LIBRARY;
    w.bytes(library.as_slice());
    w.u16(0);
    proof {
        assert(w@ =~= hint_name_table(kind));
    }
    w
}

/// Writes the startup stub.
fn write_startup_stub() -> (w: ByteWriter)
    ensures
        w@ == startup_stub(),
{
    let mut w = ByteWriter::new();
    w.u16(0x25FF);
    w.u32(IMAGE_BASE + TEXT_RVA);
    proof {
        assert(w@ =~= startup_stub());
    }
    w
}

/// Writes the relocation of the address in the startup stub.
fn write_relocation_block(stub: u32, Ghost(l): Ghost<Layout>) -> (w: ByteWriter)
    requires
        stub == l.stub,
        stub + 6 <= u32::MAX,
    ensures
        w@ == relocation_block(l),
{
    let rva: u32 = stub + 2;
    let offset: u32 = rva % 0x1000;
    let mut w = ByteWriter::new();
    w.u32(rva - offset);
    w.u32(12);
    w.u32(0x3000 + offset);
    proof {
        assert(w@ =~= relocation_block(l));
    }
    w
}

/// Placing six items.
proof fn placed_six(s: Seq<u8>, items: Seq<(int, Seq<u8>)>)
    requires
        items.len() == 6,
    ensures
        placed_all(s, items) == placed(
            placed(
                placed(
                    placed(
                        placed(placed(s, items[0].0, items[0].1), items[1].0, items[1].1),
                        items[2].0,
                        items[2].1,
                    ),
                    items[3].0,
                    items[3].1,
                ),
                items[4].0,
                items[4].1,
            ),
            items[5].0,
            items[5].1,
        ),
{
    let none = Seq::<(int, Seq<u8>)>::empty();
    placed_step(s, none, items[0]);
    placed_step(s, none.push(items[0]), items[1]);
    placed_step(s, none.push(items[0]).push(items[1]), items[2]);
    placed_step(s, none.push(items[0]).push(items[1]).push(items[2]), items[3]);
    placed_step(s, none.push(items[0]).push(items[1]).push(items[2]).push(items[3]), items[4]);
    placed_step(
        s,
        none.push(items[0]).push(items[1]).push(items[2]).push(items[3]).push(items[4]),
        items[5],
    );
    assert(items =~= none.push(items[0]).push(items[1]).push(items[2]).push(items[3]).push(
        items[4],
    ).push(items[5]));
}

/// Writes the text section behind the headers.
fn write_text(
    w: &mut ByteWriter,
    image: &Image,
    parts: &EmitParts,
    map: &TextMap,
    entry: Token,
    Ghost(l): Ghost<Layout>,
)
    requires
        old(w)@.len() <= HEADER_SIZE,
        layout_sound(image@.architecture.0 == 0x014C, l, parts@),
        map@ == text_ranges(image@.architecture.0 == 0x014C, l),
    ensures
        final(w)@ == placed_all(old(w)@, text_items(image@, parts@, l, entry)),
        final(w)@.len() == text_offset(l.end),
{
    let native: bool = image.architecture.0 == TargetArchitecture::I386;
    let ghost m = image@;
    proof {
        image.view_fields();
        block_lengths(m, parts@, l, Seq::empty());
        debug_bytes_length(
            parts@,
            l.metadata_end + parts@.debug_records_length(),
            text_offset(l.debug) + parts@.debug_records_length(),
        );
    }
    let ghost start = w@;
    let ghost items = text_items(m, parts@, l, entry);
    let runtime = write_runtime_headers(parts, map, native, image.cli_header.flags, entry, Ghost(l));
    place(w, HEADER_SIZE as usize, runtime.as_slice());
    place(w, file_offset(map.get_rva(TextSegment::Code)), parts.code.as_slice());
    place(w, file_offset(map.get_rva(TextSegment::Resources)), parts.resources.as_slice());
    place(w, file_offset(map.get_rva(TextSegment::Data)), parts.data.as_slice());
    place(w, file_offset(map.get_rva(TextSegment::MetadataHeader)), parts.metadata.as_slice());
    let records: u32 = 28 * parts.debug_entries.len() as u32;
    let at: usize = file_offset(map.get_rva(TextSegment::DebugDirectory));
    let debug = write_debug(
        &parts.debug_entries,
        map.get_rva(TextSegment::TableHeap) + records,
        at as u32 + records,
    );
    place(w, at, debug.as_slice());
    proof {
        placed_six(start, items.take(6));
        assert(w@ == placed_all(start, items.take(6)));
    }
    if native {
        let directory = write_import_directory(map, Ghost(l));
        place(w, file_offset(map.get_rva(TextSegment::ImportDirectory)), directory.as_slice());
        let names = write_hint_name_table(image.kind);
        place(w, file_offset(map.get_rva(TextSegment::ImportHintNameTable)), names.as_slice());
        let stub = write_startup_stub();
        place(w, file_offset(map.get_rva(TextSegment::StartupStub)), stub.as_slice());
        proof {
            let common = items.take(6);
            placed_step(start, common, items[6]);
            placed_step(start, common.push(items[6]), items[7]);
            placed_step(start, common.push(items[6]).push(items[7]), items[8]);
            assert(items =~= common.push(items[6]).push(items[7]).push(items[8]));
        }
    } else {
        proof {
            assert(items =~= items.take(6));
        }
    }
}

/// The file offset of an address in the text section.
fn file_offset(rva: u32) -> (at: usize)
    requires
        rva >= TEXT_RVA,
    ensures
        at == text_offset(rva as int),
{
    (rva - TEXT_RVA + HEADER_SIZE) as usize
}

/// Re-emits a parsed image, either byte-faithfully or as a full rebuild.
pub struct ImageWriter<'a> {
    image: &'a Image,
    parts: Option<EmitParts>,
    entry_point_token: Option<Token>,
    timestamp: Option<u32>,
    metadata_override: Option<Vec<u8>>,
    compute_checksum: bool,
}

/// What a writer is set to.
#[verifier::ext_equal]
pub struct WriterView {
    pub image: ImageView,
    pub parts: Option<PartsView>,
    pub entry_point_token: Option<Token>,
    pub timestamp: Option<u32>,
    pub metadata: Option<Seq<u8>>,
    pub compute_checksum: bool,
}

impl<'a> View for ImageWriter<'a> {
    type V = WriterView;

    closed spec fn view(&self) -> WriterView {
        WriterView {
            image: self.image@,
            parts: match self.parts {
                Some(p) => Some(p@),
                None => None,
            },
            entry_point_token: self.entry_point_token,
            timestamp: self.timestamp,
            metadata: match self.metadata_override {
                Some(b) => Some(b@),
                None => None,
            },
            compute_checksum: self.compute_checksum,
        }
    }
}

impl WriterView {
    /// The file with the metadata root replaced.
    pub open spec fn patched_metadata(self) -> Result<Seq<u8>, ErrorKind> {
        let cli = self.image.cli_header;
        match self.metadata {
            None => Ok(self.image.raw),
            Some(b) => if cli.metadata_rva == 0 {
                Err(ErrorKind::BadImage)
            } else if b.len() != cli.metadata_size as usize {
                Err(ErrorKind::InvalidOperation)
            } else {
                match self.image.offset_of(cli.metadata_rva) {
                    None => Err(ErrorKind::Argument),
                    Some(at) => Ok(bytes::overwrite(self.image.raw, at, b)),
                }
            },
        }
    }

    /// The file with the entry point of the CLI header replaced, too.
    pub open spec fn patched_entry_point(self) -> Result<Seq<u8>, ErrorKind> {
        match self.patched_metadata() {
            Err(e) => Err(e),
            Ok(s) => match self.entry_point_token {
                None => Ok(s),
                Some(t) => match self.image.offset_of(
                    self.image.cli_directory.virtual_address as u64,
                ) {
                    None => Err(ErrorKind::Argument),
                    Some(at) => Ok(bytes::overwrite(s, at + 20, bytes::u32_le(t.0))),
                },
            },
        }
    }

    /// The file with the timestamp replaced, too.
    pub open spec fn patched_timestamp(self) -> Result<Seq<u8>, ErrorKind> {
        match self.patched_entry_point() {
            Err(e) => Err(e),
            Ok(s) => match self.timestamp {
                None => Ok(s),
                Some(t) => Ok(bytes::overwrite(s, self.image.pe_offset + 8, bytes::u32_le(t))),
            },
        }
    }

    /// What a pass-through writer emits: the file with what was overridden
    /// replaced in place.
    pub open spec fn passed_through(self) -> Result<Seq<u8>, ErrorKind> {
        match self.patched_timestamp() {
            Err(e) => Err(e),
            Ok(s) => if !self.compute_checksum {
                Ok(s)
            } else if self.image.pe_offset + 92 > s.len() {
                Err(ErrorKind::BadImage)
            } else {
                Ok(checksum::with_checksum(s, self.image.pe_offset + 88))
            },
        }
    }

    /// What is overridden in place lies in the file.
    pub open spec fn overrides_fit(self) -> bool {
        let m = self.image;
        &&& self.metadata matches Some(b) ==> (m.cli_header.metadata_rva != 0 && b.len()
            == m.cli_header.metadata_size as usize ==> (m.offset_of(
            m.cli_header.metadata_rva,
        ) matches Some(at) ==> at + b.len() <= m.raw.len()))
        &&& self.entry_point_token is Some ==> (m.offset_of(
            m.cli_directory.virtual_address as u64,
        ) matches Some(at) ==> at + 24 <= m.raw.len())
        &&& self.timestamp is Some ==> m.pe_offset + 12 <= m.raw.len()
    }

    /// The entry point of the rebuilt image: what it was set to, or that of
    /// the parts, or that of the image.
    pub open spec fn rebuilt_entry(self, p: PartsView) -> Token {
        match self.entry_point_token {
            Some(t) => t,
            None => if p.entry_point_token.0 != 0 {
                p.entry_point_token
            } else {
                self.image.cli_header.entry_point_token
            },
        }
    }

    /// What a rebuilding writer emits.
    pub open spec fn rebuilt(self, p: PartsView) -> Result<Seq<u8>, ErrorKind> {
        let m = self.image;
        if p.metadata.len() == 0 {
            Err(ErrorKind::BadImage)
        } else {
            match moved_resources(m, p, image_sections(m, p)) {
                None => Err(ErrorKind::BadImage),
                Some(rsrc) => {
                    let file = rebuilt_file(
                        m,
                        p,
                        self.rebuilt_entry(p),
                        match self.timestamp {
                            Some(t) => t,
                            None => m.timestamp,
                        },
                        rsrc,
                    );
                    if self.compute_checksum {
                        Ok(checksum::with_checksum(file, 216))
                    } else {
                        Ok(file)
                    }
                },
            }
        }
    }

    /// What the writer emits.
    pub open spec fn emitted(self) -> Result<Seq<u8>, ErrorKind> {
        match self.parts {
            Some(p) => self.rebuilt(p),
            None => self.passed_through(),
        }
    }

    /// What is emitted fits: a rebuilt image fits 32 bits, and what is
    /// overridden in place lies in the file.
    pub open spec fn emittable(self) -> bool {
        match self.parts {
            Some(p) => p.metadata.len() > 0 ==> rebuild_fits(
                self.image.architecture.wide(),
                self.image.architecture.0 == 0x014C,
                p,
            ),
            None => self.overrides_fit(),
        }
    }
}

impl<'a> ImageWriter<'a> {
    /// Pass-through writer: emits the parsed bytes unchanged unless overrides
    /// are applied. The stored PE checksum is preserved by default.
    pub fn new(image: &'a Image) -> (w: Self)
        ensures
            w@ == (WriterView {
                image: image@,
                parts: None,
                entry_point_token: None,
                timestamp: None,
                metadata: None,
                compute_checksum: false,
            }),
    {
        ImageWriter {
            image,
            parts: None,
            entry_point_token: None,
            timestamp: None,
            metadata_override: None,
            compute_checksum: false,
        }
    }

    /// Full-rebuild writer: constructs a canonical PE32/PE32+ image from
    /// `parts` while preserving identity fields (machine, characteristics,
    /// timestamps, subsystem versions) from the parsed image.
    ///
    /// The checksum is recomputed by default.
    pub fn rebuild(image: &'a Image, parts: EmitParts) -> (w: Self)
        ensures
            w@ == (WriterView {
                image: image@,
                parts: Some(parts@),
                entry_point_token: None,
                timestamp: None,
                metadata: None,
                compute_checksum: true,
            }),
    {
        ImageWriter {
            image,
            parts: Some(parts),
            entry_point_token: None,
            timestamp: None,
            metadata_override: None,
            compute_checksum: true,
        }
    }

    /// Overrides the entry-point token written into the CLI header.
    pub fn set_entry_point_token(&mut self, token: Token) -> (r: &mut Self)
        ensures
            r@ == (WriterView { entry_point_token: Some(token), ..old(self)@ }),
            *final(self) == *final(r),
    {
        self.entry_point_token = Some(token);
        self
    }

    /// Overrides the TimeDateStamp written into the PE file header.
    pub fn set_timestamp(&mut self, timestamp: u32) -> (r: &mut Self)
        ensures
            r@ == (WriterView { timestamp: Some(timestamp), ..old(self)@ }),
            *final(self) == *final(r),
    {
        self.timestamp = Some(timestamp);
        self
    }

    /// Pass-through only: replaces the metadata root with a buffer of exactly
    /// the same size. Errors during [`Self::emit`] otherwise.
    pub fn set_metadata_same_size(&mut self, metadata: Vec<u8>) -> (r: &mut Self)
        ensures
            r@ == (WriterView { metadata: Some(metadata@), ..old(self)@ }),
            *final(self) == *final(r),
    {
        self.metadata_override = Some(metadata);
        self
    }

    /// Controls PE-checksum recomputation (see type docs for defaults).
    pub fn set_compute_checksum(&mut self, value: bool) -> (r: &mut Self)
        ensures
            r@ == (WriterView { compute_checksum: value, ..old(self)@ }),
            *final(self) == *final(r),
    {
        self.compute_checksum = value;
        self
    }

    /// Produces the image bytes.
    pub fn emit(&self) -> (r: Result<Vec<u8>, Error>)
        requires
            self@.emittable(),
        ensures
            match self@.emitted() {
                Ok(s) => r is Ok && r->Ok_0@ == s,
                Err(e) => r is Err && r->Err_0.kind() == e,
            },
    {
        match &self.parts {
            Some(parts) => self.emit_rebuild(parts),
            None => self.emit_passthrough(),
        }
    }

    fn emit_passthrough(&self) -> (r: Result<Vec<u8>, Error>)
        requires
            self@.overrides_fit(),
        ensures
            match self@.passed_through() {
                Ok(s) => r is Ok && r->Ok_0@ == s,
                Err(e) => r is Err && r->Err_0.kind() == e,
            },
    {
        let mut out: Vec<u8> = Vec::new();
        bytes::append(&mut out, self.image.raw());
        proof {
            self.image.view_fields();
            assert(out@ =~= self@.image.raw);
        }
        let length: usize = out.len();
        assert(length == self@.image.raw.len());
        match &self.metadata_override {
            Some(metadata) => {
                let (rva, size) = self.image.metadata_rva()?;
                if metadata.len() != size {
                    return Err(
                        Error::invalid_op(
                            Message::new("metadata replacement is ").count(
                                metadata.len() as u64,
                            ).text(" bytes but the image root is ").count(size as u64).text(
                                " bytes; use ImageWriter::rebuild instead",
                            ).as_str(),
                        ),
                    );
                }
                let at: usize = self.image.rva_offset(rva)?;
                assert(at == self@.image.offset_of(rva)->0);
                bytes::put(&mut out, at, metadata.as_slice());
            },
            None => {},
        }
        match self.entry_point_token {
            Some(token) => {
                let at: usize = self.image.rva_offset(
                    self.image.cli_directory.virtual_address as u64,
                )?;
                assert(at == self@.image.offset_of(
                    self@.image.cli_directory.virtual_address as u64,
                )->0);
                checksum::put_u32(&mut out, at + 20, token.0);
            },
            None => {},
        }
        match self.timestamp {
            Some(timestamp) => {
                checksum::put_u32(&mut out, self.image.pe_offset() + 8, timestamp);
            },
            None => {},
        }
        if self.compute_checksum {
            checksum::patch_checksum(&mut out, self.image.pe_offset())?;
        }
        Ok(out)
    }

    fn effective_entry_point(&self, parts: &EmitParts) -> (t: Token)
        ensures
            t == self@.rebuilt_entry(parts@),
    {
        proof {
            self.image.view_fields();
        }
        match self.entry_point_token {
            Some(t) => t,
            None => if !parts.entry_point_token.is_nil() {
                parts.entry_point_token
            } else {
                self.image.cli_header.entry_point_token
            },
        }
    }

    fn emit_rebuild(&self, parts: &EmitParts) -> (r: Result<Vec<u8>, Error>)
        requires
            parts@.metadata.len() > 0 ==> rebuild_fits(
                self@.image.architecture.wide(),
                self@.image.architecture.0 == 0x014C,
                parts@,
            ),
        ensures
            match self@.rebuilt(parts@) {
                Ok(s) => r is Ok && r->Ok_0@ == s,
                Err(e) => r is Err && r->Err_0.kind() == e,
            },
    {
        if parts.metadata.len() == 0 {
            return Err(Error::bad_image("rebuild requires a metadata root"));
        }
        let image = self.image;
        let wide: bool = image.architecture.is_pe64();
        let native: bool = image.architecture.0 == TargetArchitecture::I386;
        let ghost m = image@;
        let ghost p = parts@;
        let ghost l = image_layout(m, p);
        proof {
            image.view_fields();
            layout_is_ordered(wide, native, p);
        }
        assert(layout_sound(native, l, p));
        let debug_len: usize = debug_length(&parts.debug_entries);
        let map = text_map(wide, native, parts, debug_len);
        proof {
            text_ranges_end(native, l, p);
        }
        let end: u32 = TEXT_RVA + map.total_length();
        let rsrc_len: Option<u32> = match &parts.win32_resources {
            Some(r) => Some(r.len() as u32),
            None => None,
        };
        let sections = create_sections(native, end, rsrc_len);
        let ghost views = image_sections(m, p);
        assert(section::section_views(sections@) == views);
        let rsrc: Vec<u8> = match &parts.win32_resources {
            Some(r) => {
                assert(sections@[1]@ == views[1]);
                let old = image.data_directories[DataDirectoryIndex::Resource.to_usize()];
                resources::patch_win32_resources(
                    r.as_slice(),
                    old.virtual_address,
                    sections[1].virtual_address,
                )?
            },
            None => Vec::new(),
        };
        assert(rsrc@ =~= moved_resources(m, p, views)->Some_0);
        let timestamp: u32 = match self.timestamp {
            Some(t) => t,
            None => image.timestamp,
        };
        let entry = self.effective_entry_point(parts);
        let mut out = write_image(
            image,
            parts,
            &map,
            &sections,
            &rsrc,
            timestamp,
            entry,
            end,
            Ghost(l),
        );
        if self.compute_checksum {
            checksum::patch_checksum(&mut out, 128)?;
        }
        Ok(out)
    }
}

/// Writes a rebuilt image, without a checksum.
fn write_image(
    image: &Image,
    parts: &EmitParts,
    map: &TextMap,
    sections: &Vec<Section>,
    rsrc: &Vec<u8>,
    timestamp: u32,
    entry: Token,
    end: u32,
    Ghost(l): Ghost<Layout>,
) -> (out: Vec<u8>)
    requires
        l == image_layout(image@, parts@),
        layout_sound(image@.architecture.0 == 0x014C, l, parts@),
        end == l.end,
        map@ == text_ranges(image@.architecture.0 == 0x014C, l),
        rsrc@.len() == parts@.resource_length(),
        rsrc@.len() + 0x1FFF <= u32::MAX,
        section::section_views(sections@) == image_sections(image@, parts@),
        sections_fit(image_sections(image@, parts@)),
    ensures
        out@ == rebuilt_file(image@, parts@, entry, timestamp, rsrc@),
        out@.len() >= HEADER_SIZE,
{
    proof {
        image.view_fields();
    }
    let native: bool = image.architecture.0 == TargetArchitecture::I386;
    let mut w = write_headers(image, parts, map, sections, timestamp, Ghost(l));
    let ghost headers = w@;
    write_text(&mut w, image, parts, map, entry, Ghost(l));
    let has_rsrc: bool = parts.win32_resources.is_some();
    write_tail(&mut w, native, has_rsrc, rsrc, map, sections, end, Ghost(l));
    proof {
        tail_is_placed(
            image@,
            parts@,
            l,
            image_sections(image@, parts@),
            entry,
            rsrc@,
            headers,
        );
        reveal(rebuilt_items);
    }
    w.into_vec()
}

/// The file with the sections behind the text section.
spec fn with_tail(
    s: Seq<u8>,
    native: bool,
    has_rsrc: bool,
    rsrc: Seq<u8>,
    sections: Seq<SectionView>,
    l: Layout,
) -> Seq<u8> {
    let a = if has_rsrc {
        placed(s, sections[1].pointer_to_raw_data as int, rsrc)
    } else {
        s
    };
    let b = if native {
        placed(a, sections.last().pointer_to_raw_data as int, relocation_block(l))
    } else {
        a
    };
    placed(
        b,
        sections.last().pointer_to_raw_data + sections.last().size_of_raw_data,
        Seq::empty(),
    )
}

/// The items of a rebuilt image are those of the text section and the sections
/// behind it.
proof fn tail_is_placed(
    m: ImageView,
    p: PartsView,
    l: Layout,
    sections: Seq<SectionView>,
    entry: Token,
    rsrc: Seq<u8>,
    s: Seq<u8>,
)
    ensures
        placed_all(s, rebuilt_items(m, p, l, sections, entry, rsrc)) == with_tail(
            placed_all(s, text_items(m, p, l, entry)),
            m.architecture.0 == 0x014C,
            p.win32_resources is Some,
            rsrc,
            sections,
            l,
        ),
{
    reveal(rebuilt_items);
    let text = text_items(m, p, l, entry);
    let a = if p.win32_resources is Some {
        text.push((sections[1].pointer_to_raw_data as int, rsrc))
    } else {
        text
    };
    let b = if m.architecture.0 == 0x014C {
        a.push((sections.last().pointer_to_raw_data as int, relocation_block(l)))
    } else {
        a
    };
    placed_step(s, text, (sections[1].pointer_to_raw_data as int, rsrc));
    placed_step(s, a, (sections.last().pointer_to_raw_data as int, relocation_block(l)));
    placed_step(
        s,
        b,
        (sections.last().pointer_to_raw_data + sections.last().size_of_raw_data, Seq::empty()),
    );
}

/// Writes the sections behind the text section.
fn write_tail(
    w: &mut ByteWriter,
    native: bool,
    has_rsrc: bool,
    rsrc: &Vec<u8>,
    map: &TextMap,
    sections: &Vec<Section>,
    end: u32,
    Ghost(l): Ghost<Layout>,
)
    requires
        old(w)@.len() == text_offset(l.end),
        end == l.end,
        TEXT_RVA <= end,
        end - TEXT_RVA + 0x1FFF <= u32::MAX,
        native ==> l.end == l.stub + 6 && l.stub >= 0,
        rsrc@.len() + 0x1FFF <= u32::MAX,
        map@ == text_ranges(native, l),
        section::section_views(sections@) == rebuilt_sections(
            native,
            end as int,
            if has_rsrc {
                Some(rsrc@.len() as u32)
            } else {
                None
            },
        ),
        sections_fit(section::section_views(sections@)),
    ensures
        final(w)@ == with_tail(
            old(w)@,
            native,
            has_rsrc,
            rsrc@,
            section::section_views(sections@),
            l,
        ),
        final(w)@.len() >= HEADER_SIZE,
{
    let ghost views = section::section_views(sections@);
    let n: usize = sections.len();
    proof {
        assert(views.len() == n);
        assert(1 <= n <= 3);
        textmap::align_up_bounds((end - TEXT_RVA) as u32, FILE_ALIGNMENT);
        textmap::align_up_bounds(rsrc@.len() as u32, FILE_ALIGNMENT);
        textmap::align_up_bounds(12, FILE_ALIGNMENT);
        assert(section_fits(views[0]));
        assert(section_fits(views[n - 1]));
        assert(relocation_block(l).len() == 12);
        if has_rsrc {
            assert(section_fits(views[1]));
            assert(sections@[1]@ == views[1]);
        }
        assert(sections@[n - 1]@ == views[n - 1]);
    }
    if has_rsrc {
        place(w, sections[1].pointer_to_raw_data as usize, rsrc.as_slice());
    }
    let last = &sections[n - 1];
    if native {
        let block = write_relocation_block(map.get_rva(TextSegment::StartupStub), Ghost(l));
        place(w, last.pointer_to_raw_data as usize, block.as_slice());
    }
    let nothing: Vec<u8> = Vec::new();
    let total: u32 = last.pointer_to_raw_data + last.size_of_raw_data;
    place(w, total as usize, nothing.as_slice());
    assert(nothing@ =~= Seq::<u8>::empty());
}

} // verus!
