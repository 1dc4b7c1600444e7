//! What stands in the headers and in the fixed parts of an emitted image.

use vstd::prelude::*;

use crate::bytes;
use crate::encoding_laws;
use crate::pe::image::{DebugEntryView, ImageView, ModuleKind};
use crate::pe::section::{DataDirectory, Range, SectionView};
use crate::pe::textmap;
use crate::pe::textmap::TextSegment;
use crate::pe::writer;
use crate::pe::writer::{Layout, PartsView, WriterView};
use crate::text;
use crate::token::Token;

verus! {

broadcast use crate::bytes::widths;

/// The numbers that an emitted image is laid out by.
pub proof fn emitted_numbers()
    ensures
        writer::FILE_ALIGNMENT == 0x200,
        writer::SECTION_ALIGNMENT == 0x2000,
        writer::IMAGE_BASE == 0x40_0000,
        writer::HEADER_SIZE == 0x200,
        writer::CLI_HEADER_SIZE == 72,
        textmap::TEXT_RVA == 0x2000,
{
}

/// The segments of the text section in their order.
pub proof fn segment_order()
    ensures
        TextSegment::ImportAddressTable.number() == 0,
        TextSegment::CliHeader.number() == 1,
        TextSegment::Code.number() == 2,
        TextSegment::Resources.number() == 3,
        TextSegment::Data.number() == 4,
        TextSegment::StrongNameSignature.number() == 5,
        TextSegment::MetadataHeader.number() == 6,
        TextSegment::TableHeap.number() == 7,
        TextSegment::StringHeap.number() == 8,
        TextSegment::UserStringHeap.number() == 9,
        TextSegment::GuidHeap.number() == 10,
        TextSegment::BlobHeap.number() == 11,
        TextSegment::PdbHeap.number() == 12,
        TextSegment::DebugDirectory.number() == 13,
        TextSegment::ImportDirectory.number() == 14,
        TextSegment::ImportHintNameTable.number() == 15,
        TextSegment::StartupStub.number() == 16,
{
}

/// A four-byte number, taken apart.
proof fn double_word_of(v: u32)
    ensures
        bytes::u32_le(v).len() == 4,
        bytes::u32_le(v)[0] + 0x100 * bytes::u32_le(v)[1] + 0x1_0000 * bytes::u32_le(v)[2]
            + 0x100_0000 * bytes::u32_le(v)[3] == v,
{
    let b = bytes::u32_le(v);
    assert(b.subrange(0, 4) =~= b);
    bytes::u32_round_trip(b, 0, v);
    crate::encoding_laws::words_agree(b);
    assert(bytes::u32_at(b, 0) == encoding_laws::double_word(b, 0));
}

/// A two-byte number, taken apart.
proof fn word_of(v: u16)
    ensures
        bytes::u16_le(v).len() == 2,
        bytes::u16_le(v)[0] + 0x100 * bytes::u16_le(v)[1] == v,
{
    let b = bytes::u16_le(v);
    assert(b.subrange(0, 2) =~= b);
    bytes::u16_round_trip(b, 0, v);
    crate::encoding_laws::words_agree(b);
    assert(bytes::u16_at(b, 0) == encoding_laws::word(b, 0));
}

/// The file header: `PE` and two zeros, the machine, the number of sections, the
/// time, the size of the optional header and the characteristics.
pub proof fn file_header_fields(m: ImageView, sections: int, timestamp: u32)
    requires
        0 <= sections <= u16::MAX,
    ensures
        ({
            let h = writer::file_header(m, sections, timestamp);
            &&& h.len() == 24
            &&& h[0] == 0x50 && h[1] == 0x45 && h[2] == 0 && h[3] == 0
            &&& encoding_laws::word(h, 4) == m.architecture.0
            &&& encoding_laws::word(h, 6) == sections
            &&& encoding_laws::double_word(h, 8) == timestamp
            &&& encoding_laws::double_word(h, 12) == 0
            &&& encoding_laws::double_word(h, 16) == 0
            &&& encoding_laws::word(h, 20) == if m.architecture.wide() {
                0xF0int
            } else {
                0xE0
            }
            &&& encoding_laws::word(h, 22) == m.characteristics
        }),
{
    double_word_of(0x4550);
    assert(bytes::u32_le(0x4550)[0] == 0x50 && bytes::u32_le(0x4550)[1] == 0x45 && bytes::u32_le(
        0x4550,
    )[2] == 0 && bytes::u32_le(0x4550)[3] == 0) by {
        reveal(bytes::u32_le);
    }
    word_of(m.architecture.0);
    word_of(sections as u16);
    double_word_of(timestamp);
    double_word_of(0);
    word_of(0xF0);
    word_of(0xE0);
    word_of(m.characteristics);
}

/// The optional header from the alignments on: the alignments, the versions, the
/// sizes of the image and of the headers, the subsystem and the characteristics.
pub proof fn windows_fields_stand(m: ImageView, image_size: u32)
    ensures
        ({
            let h = writer::windows_fields(m, image_size);
            &&& h.len() == 40
            &&& encoding_laws::double_word(h, 0) == 0x2000
            &&& encoding_laws::double_word(h, 4) == 0x200
            &&& encoding_laws::word(h, 8) == 4
            &&& encoding_laws::word(h, 10) == 0
            &&& encoding_laws::word(h, 12) == 0
            &&& encoding_laws::word(h, 14) == 0
            &&& encoding_laws::word(h, 16) == m.subsystem_major
            &&& encoding_laws::word(h, 18) == m.subsystem_minor
            &&& encoding_laws::double_word(h, 20) == 0
            &&& encoding_laws::double_word(h, 24) == image_size
            &&& encoding_laws::double_word(h, 28) == 0x200
            &&& encoding_laws::double_word(h, 32) == 0
            &&& encoding_laws::word(h, 36) == if m.kind == ModuleKind::Windows {
                2int
            } else {
                3
            }
            &&& encoding_laws::word(h, 38) == m.dll_characteristics
        }),
{
    double_word_of(0x2000);
    double_word_of(0x200);
    word_of(4);
    word_of(0);
    word_of(m.subsystem_major);
    word_of(m.subsystem_minor);
    double_word_of(0);
    double_word_of(image_size);
    word_of(2);
    word_of(3);
    word_of(m.dll_characteristics);
}

/// The optional header up to the image base, which is `0x400000`.
pub proof fn standard_fields_stand(m: ImageView, code: u32, initialized: u32, entry: u32)
    ensures
        ({
            let h = writer::standard_fields(m, code, initialized, entry);
            &&& h.len() == 32
            &&& encoding_laws::word(h, 0) == if m.architecture.wide() {
                0x20Bint
            } else {
                0x10B
            }
            &&& encoding_laws::word(h, 2) == m.linker_version
            &&& encoding_laws::double_word(h, 4) == code
            &&& encoding_laws::double_word(h, 8) == initialized
            &&& encoding_laws::double_word(h, 12) == 0
            &&& encoding_laws::double_word(h, 16) == entry
            &&& encoding_laws::double_word(h, 20) == 0x2000
            &&& m.architecture.wide() ==> encoding_laws::double_word(h, 24) == 0x40_0000 && encoding_laws::double_word(h, 28) == 0
            &&& !m.architecture.wide() ==> encoding_laws::double_word(h, 24) == 0 && encoding_laws::double_word(h, 28) == 0x40_0000
        }),
{
    word_of(0x20B);
    word_of(0x10B);
    word_of(m.linker_version);
    double_word_of(code);
    double_word_of(initialized);
    double_word_of(0);
    double_word_of(entry);
    double_word_of(0x2000);
    double_word_of(0x40_0000);
    assert(bytes::u64_le(0x40_0000u64) =~= bytes::u32_le(0x40_0000) + bytes::u32_le(0)) by {
        reveal(bytes::u64_le);
    }
}

/// The stack and the heap, and that sixteen data directories follow.
pub proof fn size_fields_stand()
    ensures
        ({
            let h = writer::size_fields(false);
            &&& h.len() == 24
            &&& encoding_laws::double_word(h, 0) == 0x10_0000
            &&& encoding_laws::double_word(h, 4) == 0x1000
            &&& encoding_laws::double_word(h, 8) == 0x10_0000
            &&& encoding_laws::double_word(h, 12) == 0x1000
            &&& encoding_laws::double_word(h, 16) == 0
            &&& encoding_laws::double_word(h, 20) == 16
        }),
        ({
            let h = writer::size_fields(true);
            &&& h.len() == 40
            &&& encoding_laws::double_word(h, 0) == 0x40_0000 && encoding_laws::double_word(h, 4) == 0
            &&& encoding_laws::double_word(h, 8) == 0x4000 && encoding_laws::double_word(h, 12) == 0
            &&& encoding_laws::double_word(h, 16) == 0x10_0000 && encoding_laws::double_word(h, 20) == 0
            &&& encoding_laws::double_word(h, 24) == 0x2000 && encoding_laws::double_word(h, 28) == 0
            &&& encoding_laws::double_word(h, 32) == 0
            &&& encoding_laws::double_word(h, 36) == 16
        }),
{
    double_word_of(0x10_0000);
    double_word_of(0x1000);
    double_word_of(0);
    double_word_of(16);
    double_word_of(0x40_0000);
    double_word_of(0x4000);
    double_word_of(0x2000);
    assert(bytes::u64_le(0x40_0000u64) =~= bytes::u32_le(0x40_0000) + bytes::u32_le(0)
        && bytes::u64_le(0x4000u64) =~= bytes::u32_le(0x4000) + bytes::u32_le(0)
        && bytes::u64_le(0x10_0000u64) =~= bytes::u32_le(0x10_0000) + bytes::u32_le(0)
        && bytes::u64_le(0x2000u64) =~= bytes::u32_le(0x2000) + bytes::u32_le(0)) by {
        reveal(bytes::u64_le);
    }
}

/// A section table entry: eight bytes of name, the sizes and the places, twelve
/// zeros, and the characteristics.
pub proof fn section_header_fields(s: SectionView, characteristics: u32)
    ensures
        ({
            let h = writer::section_header(s, characteristics);
            let b = text::utf8(s.name);
            &&& h.len() == 40
            &&& b.len() <= 8 ==> h.take(b.len() as int) == b && forall|i: int|
                b.len() <= i < 8 ==> #[trigger] h[i] == 0
            &&& b.len() > 8 ==> h.take(8) == b.take(8)
            &&& encoding_laws::double_word(h, 8) == s.virtual_size
            &&& encoding_laws::double_word(h, 12) == s.virtual_address
            &&& encoding_laws::double_word(h, 16) == s.size_of_raw_data
            &&& encoding_laws::double_word(h, 20) == s.pointer_to_raw_data
            &&& encoding_laws::double_word(h, 24) == 0
            &&& encoding_laws::double_word(h, 28) == 0
            &&& encoding_laws::double_word(h, 32) == 0
            &&& encoding_laws::double_word(h, 36) == characteristics
        }),
{
    double_word_of(s.virtual_size);
    double_word_of(s.virtual_address);
    double_word_of(s.size_of_raw_data);
    double_word_of(s.pointer_to_raw_data);
    double_word_of(0);
    word_of(0);
    double_word_of(characteristics);
    let h = writer::section_header(s, characteristics);
    let b = text::utf8(s.name);
    assert(writer::name_field(s.name).len() == 8);
    if b.len() <= 8 {
        assert(h.take(b.len() as int) =~= b);
    } else {
        assert(h.take(8) =~= b.take(8));
    }
}

/// Code is read and run, data is read, and relocations can be dropped.
pub proof fn section_kinds(k: int)
    ensures
        writer::section_characteristics(0, false) == 0x6000_0020,
        writer::section_characteristics(0, true) == 0x6000_0020,
        writer::section_characteristics(1, true) == 0x4000_0040,
        writer::section_characteristics(1, false) == 0x4200_0040,
        writer::section_characteristics(2, true) == 0x4200_0040,
{
}

/// A section starts at the first multiple of `0x2000` behind the one before it,
/// and its data where the data of that one ends, filled up to a multiple of
/// `0x200`.
pub proof fn sections_follow_one_another(name: Seq<char>, size: int, previous: SectionView)
    requires
        writer::section_fits(previous),
        0 <= size,
        size + 0x1FF <= u32::MAX,
    ensures
        ({
            let s = writer::next_section(name, size, previous);
            &&& s.name == name
            &&& s.virtual_size == size
            &&& s.virtual_address == previous.virtual_address + previous.virtual_size
                + bytes::padding(previous.virtual_size as int, 0x2000)
            &&& s.pointer_to_raw_data == previous.pointer_to_raw_data + previous.size_of_raw_data
            &&& s.size_of_raw_data == size + bytes::padding(size, 0x200)
        }),
{
    textmap::align_up_is_next_multiple(previous.virtual_size, 0x2000);
    textmap::align_up_is_next_multiple(size as u32, 0x200);
}

/// The text section starts at `0x2000` and, in the file, behind the headers.
pub proof fn first_section(end: int)
    requires
        0x2000 <= end,
        end - 0x2000 + 0x1FF <= u32::MAX,
    ensures
        ({
            let s = writer::text_section(end);
            &&& s.name == ".text"@
            &&& s.virtual_address == 0x2000
            &&& s.virtual_size == end - 0x2000
            &&& s.pointer_to_raw_data == 0x200
            &&& s.size_of_raw_data == s.virtual_size + bytes::padding(s.virtual_size as int, 0x200)
        }),
        writer::text_offset(end) == end - 0x1E00,
{
    textmap::align_up_is_next_multiple((end - 0x2000) as u32, 0x200);
}

/// Which sections there are: text, resources if there are any, and relocations on
/// 32-bit x86.
pub proof fn section_list(end: int, n: u32)
    ensures
        writer::rebuilt_sections(false, end, None).len() == 1,
        writer::rebuilt_sections(true, end, None).len() == 2,
        writer::rebuilt_sections(true, end, None)[1].name == ".reloc"@,
        writer::rebuilt_sections(true, end, None)[1].virtual_size == 12,
        writer::rebuilt_sections(false, end, Some(n)).len() == 2,
        writer::rebuilt_sections(false, end, Some(n))[1].name == ".rsrc"@,
        writer::rebuilt_sections(false, end, Some(n))[1].virtual_size == n,
        writer::rebuilt_sections(true, end, Some(n)).len() == 3,
        writer::rebuilt_sections(true, end, Some(n))[1].name == ".rsrc"@,
        writer::rebuilt_sections(true, end, Some(n))[2].name == ".reloc"@,
        writer::rebuilt_sections(true, end, Some(n))[2].virtual_size == 12,
{
}

/// Each segment starts at the first address behind the one before it that has its
/// alignment: the code 4 or 16, the resources 8, the data what is asked for or 8,
/// the signature 4, the metadata 8 and the debug information 4.
pub proof fn segments_are_aligned(wide: bool, native: bool, p: PartsView)
    requires
        writer::text_fits(wide, native, p),
        p.data_alignment is None,
    ensures
        ({
            let l = writer::layout(wide, native, p);
            let start: int = if native {
                0x2008
            } else {
                0x2000
            };
            &&& l.cli == start
            &&& l.code == start + 72 + bytes::padding(
                start + 72,
                if wide {
                    16
                } else {
                    4
                },
            )
            &&& l.resources == l.code + p.code.len() + bytes::padding(
                l.code + p.code.len(),
                8,
            )
            &&& l.data == l.resources + p.resources.len() + bytes::padding(
                l.resources + p.resources.len(),
                8,
            )
            &&& l.strong_name == l.data + p.data.len() + bytes::padding(
                l.data + p.data.len(),
                4,
            )
            &&& l.metadata == l.strong_name + p.strongname_size + bytes::padding(
                l.strong_name + p.strongname_size,
                8,
            )
            &&& l.metadata_end == l.metadata + p.metadata.len()
            &&& l.debug == l.metadata_end + bytes::padding(l.metadata_end, 4)
            &&& native ==> l.hint == l.debug_end + 48 + bytes::padding(l.debug_end + 48, 16)
            &&& native ==> l.stub == l.hint + 29 + bytes::padding(l.hint + 27, 4)
            &&& native ==> l.end == l.stub + 6
            &&& !native ==> l.end == l.debug_end
        }),
{
    writer::layout_is_ordered(wide, native, p);
    reveal(writer::layout);
    reveal(writer::text_fits);
    let l = writer::layout(wide, native, p);
    textmap::align_up_is_next_multiple((l.cli + 72) as u32, if wide {
        16
    } else {
        4
    });
    textmap::align_up_is_next_multiple((l.code + p.code.len()) as u32, 8);
    textmap::align_up_is_next_multiple((l.resources + p.resources.len()) as u32, 8);
    textmap::align_up_is_next_multiple((l.data + p.data.len()) as u32, 4);
    textmap::align_up_is_next_multiple((l.strong_name + p.strongname_size) as u32, 8);
    textmap::align_up_is_next_multiple(l.metadata_end as u32, 4);
    if native {
        textmap::align_up_is_next_multiple((l.debug_end + 48) as u32, 16);
        textmap::align_up_is_next_multiple((l.hint + 27) as u32, 4);
    }
}

/// The runtime header: its size, the version 2.5, the metadata, the flags and the
/// entry point, and the directories.
pub proof fn runtime_header_fields(l: Layout, metadata: int, flags: u32, entry: Token)
    requires
        0 <= l.metadata <= u32::MAX,
        0 <= metadata <= u32::MAX,
        0 <= l.resources <= l.data <= u32::MAX,
        0 <= l.strong_name <= l.metadata,
    ensures
        ({
            let h = writer::cli_header_bytes(l, metadata, flags, entry);
            &&& h.len() == 72
            &&& encoding_laws::double_word(h, 0) == 72
            &&& encoding_laws::word(h, 4) == 2
            &&& encoding_laws::word(h, 6) == 5
            &&& encoding_laws::double_word(h, 8) == l.metadata
            &&& encoding_laws::double_word(h, 12) == metadata
            &&& encoding_laws::double_word(h, 16) == flags
            &&& encoding_laws::double_word(h, 20) == entry.0
            &&& encoding_laws::double_word(h, 28) == l.data - l.resources
            &&& l.data > l.resources ==> encoding_laws::double_word(h, 24) == l.resources
            &&& l.data == l.resources ==> encoding_laws::double_word(h, 24) == 0
            &&& encoding_laws::double_word(h, 36) == l.metadata - l.strong_name
            &&& l.metadata > l.strong_name ==> encoding_laws::double_word(h, 32) == l.strong_name
            &&& l.metadata == l.strong_name ==> encoding_laws::double_word(h, 32) == 0
            &&& forall|i: int| 40 <= i < 72 ==> #[trigger] h[i] == 0
        }),
{
    double_word_of(72);
    word_of(2);
    word_of(5);
    double_word_of(l.metadata as u32);
    double_word_of(metadata as u32);
    double_word_of(flags);
    double_word_of(entry.0);
    let a = textmap::range_directory(writer::range(l.resources, l.data));
    let b = textmap::range_directory(writer::range(l.strong_name, l.metadata));
    double_word_of(a.virtual_address);
    double_word_of(a.size);
    double_word_of(b.virtual_address);
    double_word_of(b.size);
    assert(bytes::u32_le(0) =~= seq![0u8, 0u8, 0u8, 0u8]) by {
        reveal(bytes::u32_le);
    }
}

/// The start of a program on 32-bit x86 is a jump through the word at
/// `0x402000`.
pub proof fn startup_bytes()
    ensures
        writer::startup_stub() == seq![0xFFu8, 0x25u8, 0x00u8, 0x20u8, 0x40u8, 0x00u8],
{
    reveal(bytes::u16_le);
    reveal(bytes::u32_le);
    assert(writer::startup_stub() =~= seq![0xFFu8, 0x25u8, 0x00u8, 0x20u8, 0x40u8, 0x00u8]);
}

/// The entry point that is imported: `_CorDllMain` for libraries and modules and
/// `_CorExeMain` for programs, from `mscoree.dll`.
pub proof fn imported_names(kind: ModuleKind)
    ensures
        ({
            let t = writer::hint_name_table(kind);
            &&& t.len() == 27
            &&& t[0] == 0 && t[1] == 0
            &&& kind == ModuleKind::Dll || kind == ModuleKind::NetModule ==> t.subrange(2, 13)
                == "_CorDllMain"@.map_values(|c: char| c as u8)
            &&& kind == ModuleKind::Console || kind == ModuleKind::Windows ==> t.subrange(2, 13)
                == "_CorExeMain"@.map_values(|c: char| c as u8)
            &&& t[13] == 0
            &&& t.subrange(14, 25) == "mscoree.dll"@.map_values(|c: char| c as u8)
            &&& t[25] == 0 && t[26] == 0
        }),
{
    reveal_strlit("_CorDllMain");
    reveal_strlit("_CorExeMain");
    reveal_strlit("mscoree.dll");
    reveal(bytes::u16_le);
    let t = writer::hint_name_table(kind);
    assert(writer::DLL_MAIN@ =~= "_CorDllMain"@.map_values(|c: char| c as u8));
    assert(writer::EXE_MAIN@ =~= "_CorExeMain"@.map_values(|c: char| c as u8));
    assert(writer::RUNTIME_LIBRARY@ =~= "mscoree.dll"@.map_values(|c: char| c as u8));
    assert(t.subrange(2, 13) =~= if kind == ModuleKind::Dll || kind == ModuleKind::NetModule {
        writer::DLL_MAIN@
    } else {
        writer::EXE_MAIN@
    });
    assert(t.subrange(14, 25) =~= writer::RUNTIME_LIBRARY@);
}

/// The import directory leads to the lookup table behind its two entries, to the
/// name of the library and to the address table at the start of the text.
pub proof fn import_entries(l: Layout)
    requires
        0 <= l.debug_end,
        l.debug_end + 40 <= u32::MAX,
        0 <= l.hint,
        l.hint + 14 <= u32::MAX,
    ensures
        ({
            let d = writer::import_directory(l);
            &&& d.len() == 44
            &&& encoding_laws::double_word(d, 0) == l.debug_end + 40
            &&& encoding_laws::double_word(d, 4) == 0
            &&& encoding_laws::double_word(d, 8) == 0
            &&& encoding_laws::double_word(d, 12) == l.hint + 14
            &&& encoding_laws::double_word(d, 16) == 0x2000
            &&& forall|i: int| 20 <= i < 40 ==> #[trigger] d[i] == 0
            &&& encoding_laws::double_word(d, 40) == l.hint
        }),
        ({
            let t = writer::import_address_table(true, l);
            &&& t.len() == 8
            &&& encoding_laws::double_word(t, 0) == l.hint
            &&& encoding_laws::double_word(t, 4) == 0
        }),
        writer::import_address_table(false, l).len() == 0,
{
    double_word_of((l.debug_end + 40) as u32);
    double_word_of(0);
    double_word_of((l.hint + 14) as u32);
    double_word_of(0x2000);
    double_word_of(l.hint as u32);
}

/// The relocation of the jump: the page of its operand, twelve bytes, and an entry
/// of kind 3 with the offset in the page.
pub proof fn relocation_entries(l: Layout)
    requires
        0 <= l.stub,
        l.stub + 2 <= u32::MAX,
    ensures
        ({
            let b = writer::relocation_block(l);
            let at = (l.stub + 2) as u32;
            &&& b.len() == 12
            &&& encoding_laws::double_word(b, 0) == at & 0xFFFF_F000
            &&& encoding_laws::double_word(b, 4) == 12
            &&& encoding_laws::word(b, 8) == 0x3000 | (at & 0xFFF)
            &&& encoding_laws::word(b, 10) == 0
        }),
{
    let at = (l.stub + 2) as u32;
    assert(at & 0xFFFF_F000 == at - at % 0x1000 && 0x3000 | (at & 0xFFF) == 0x3000 + at % 0x1000)
        by (bit_vector);
    double_word_of((at - at % 0x1000) as u32);
    double_word_of(12);
    let v = (0x3000 + at % 0x1000) as u32;
    double_word_of(v);
    let b = bytes::u32_le(v);
    assert(b[0] + 0x100 * b[1] == v && b[2] == 0 && b[3] == 0);
}

/// The entry point of what is emitted: the one that was asked for, or that of the
/// parts, or that of the image.
pub proof fn emitted_entry_point(w: WriterView, p: PartsView)
    ensures
        w.entry_point_token matches Some(t) ==> w.rebuilt_entry(p) == t,
        w.entry_point_token is None && p.entry_point_token.0 != 0 ==> w.rebuilt_entry(p)
            == p.entry_point_token,
        w.entry_point_token is None && p.entry_point_token.0 == 0 ==> w.rebuilt_entry(p)
            == w.image.cli_header.entry_point_token,
{
}

/// The data directories of an emitted image.
pub proof fn emitted_directories(
    native: bool,
    l: Layout,
    p: PartsView,
    sections: Seq<SectionView>,
    k: int,
)
    requires
        0 <= l.debug_end <= l.hint,
        l.hint + 27 <= u32::MAX,
        0 <= l.cli <= l.code <= u32::MAX,
        0 <= l.debug <= u32::MAX,
        28 * p.debug_entries.len() <= u32::MAX,
    ensures
        ({
            let d = writer::rebuilt_directories(native, l, p, sections);
            let none = DataDirectory { virtual_address: 0, size: 0 };
            &&& d.len() == 16
            &&& d[14].virtual_address == l.cli && d[14].size == l.code - l.cli
            &&& p.debug_entries.len() > 0 ==> d[6].virtual_address == l.debug && d[6].size == 28
                * p.debug_entries.len()
            &&& p.debug_entries.len() == 0 ==> d[6] == none
            &&& p.win32_resources is Some ==> d[2].virtual_address == sections[1].virtual_address
                && d[2].size == sections[1].virtual_size
            &&& p.win32_resources is None ==> d[2] == none
            &&& native ==> d[1].virtual_address == l.debug_end && d[1].size == l.hint + 27
                - l.debug_end
            &&& native ==> d[5].virtual_address == sections.last().virtual_address && d[5].size
                == sections.last().virtual_size
            &&& native ==> d[12].virtual_address == 0x2000 && d[12].size == 8
            &&& !native ==> d[1] == none && d[5] == none && d[12] == none
            &&& k == 0 || k == 3 || k == 4 || 7 <= k <= 11 || k == 13 || k == 15 ==> d[k] == none
        }),
{
}

/// A directory entry of a range is empty with it.
pub proof fn range_entries(r: Range)
    ensures
        r.length == 0 ==> textmap::range_directory(r) == (DataDirectory {
            virtual_address: 0,
            size: 0,
        }),
        r.length > 0 ==> textmap::range_directory(r) == (DataDirectory {
            virtual_address: r.start,
            size: r.length,
        }),
{
}

/// The headers before the PE signature: `MZ`, and that it stands at `0x80`.
pub proof fn first_header()
    ensures
        writer::DOS_HEADER@.len() == 128,
        writer::DOS_HEADER@[0] == 0x4D,
        writer::DOS_HEADER@[1] == 0x5A,
        encoding_laws::double_word(writer::DOS_HEADER@, 0x3C) == 0x80,
{
}

/// What stands in the text section: the runtime header behind the import table,
/// the parts at their addresses, and for a 32-bit machine what starts it.
pub proof fn items_of_the_text_section(m: ImageView, p: PartsView, l: Layout, entry: Token)
    ensures
        ({
            let items = writer::text_items(m, p, l, entry);
            let native = m.architecture.0 == 0x014C;
            let header = writer::cli_header_bytes(
                l,
                p.metadata.len() as int,
                m.cli_header.flags,
                entry,
            );
            &&& items.len() == if native {
                9int
            } else {
                6
            }
            &&& items[0] == (0x200int, writer::import_address_table(native, l) + header)
            &&& items[1] == (l.code - 0x1E00, p.code)
            &&& items[2] == (l.resources - 0x1E00, p.resources)
            &&& items[3] == (l.data - 0x1E00, p.data)
            &&& items[4] == (l.metadata - 0x1E00, p.metadata)
            &&& items[5].0 == l.debug - 0x1E00
            &&& native ==> items[6] == (l.debug_end - 0x1E00, writer::import_directory(l))
            &&& native ==> items[7] == (l.hint - 0x1E00, writer::hint_name_table(m.kind))
            &&& native ==> items[8] == (l.stub - 0x1E00, writer::startup_stub())
        }),
{
}

/// A debug record has 28 bytes. It names the address and the place of its payload,
/// or none and the place that it had where there is no payload.
pub proof fn debug_records_stand(e: DebugEntryView, address: u32, pointer: u32)
    ensures
        ({
            let b = writer::debug_record(e, address as int, pointer as int);
            &&& b.len() == 28
            &&& e.data.len() == 0 ==> b.subrange(20, 24) == bytes::u32_le(0)
            &&& e.data.len() == 0 ==> b.subrange(24, 28) == bytes::u32_le(
                bytes::u32_of(e.directory.pointer_to_raw_data),
            )
            &&& e.data.len() > 0 ==> b.subrange(20, 24) == bytes::u32_le(address)
            &&& e.data.len() > 0 ==> b.subrange(24, 28) == bytes::u32_le(pointer)
            &&& b.subrange(12, 16) == bytes::u32_le(bytes::u32_of(e.directory.kind))
            &&& b.subrange(16, 20) == bytes::u32_le(bytes::u32_of(e.directory.size_of_data))
        }),
{
    broadcast use crate::bytes::widths;

    let b = writer::debug_record(e, address as int, pointer as int);
    assert(b.subrange(12, 16) =~= bytes::u32_le(bytes::u32_of(e.directory.kind)));
    assert(b.subrange(16, 20) =~= bytes::u32_le(bytes::u32_of(e.directory.size_of_data)));
    if e.data.len() == 0 {
        assert(b.subrange(20, 24) =~= bytes::u32_le(0));
        assert(b.subrange(24, 28) =~= bytes::u32_le(
            bytes::u32_of(e.directory.pointer_to_raw_data),
        ));
    } else {
        assert(b.subrange(20, 24) =~= bytes::u32_le(address));
        assert(b.subrange(24, 28) =~= bytes::u32_le(pointer));
    }
}

} // verus!
