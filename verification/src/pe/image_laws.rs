//! Where the fields of an image stand in its bytes, and what the numbers in them
//! mean.

use vstd::prelude::*;

use crate::bytes;
use crate::encoding_laws;
use crate::error::ErrorKind;
use crate::pe::checksum;
use crate::pe::image;
use crate::pe::image::{DataDirectoryIndex, ImageView, ModuleKind, TargetArchitecture};
use crate::pe::reader;
use crate::pe::resources;
use crate::pe::section;
use crate::pe::section::SectionView;
use crate::text;

verus! {

/// A module is a library exactly if bit 13 of its characteristics is set.
/// Otherwise the subsystems 2 and 9 are those with windows.
pub proof fn module_kinds(characteristics: u16, subsystem: u16)
    ensures
        image::kind_of(characteristics, subsystem) == ModuleKind::Dll <==> characteristics & 0x2000
            != 0,
        image::kind_of(characteristics, subsystem) == ModuleKind::Windows <==> characteristics
            & 0x2000 == 0 && (subsystem == 2 || subsystem == 9),
        image::kind_of(characteristics, subsystem) == ModuleKind::Console <==> characteristics
            & 0x2000 == 0 && subsystem != 2 && subsystem != 9,
{
    let c = characteristics;
    assert((c & 0x2000 != 0) == (c / 0x2000 % 2 == 1)) by (bit_vector);
}

/// Images for these machines, and no others, have wide addresses.
pub proof fn wide_machines(machine: u16)
    ensures
        TargetArchitecture(machine).wide() <==> machine == 0x8664 || machine == 0x200 || machine
            == 0xAA64,
{
}

/// The places of the data directories.
pub proof fn directory_places()
    ensures
        DataDirectoryIndex::Export.number() == 0,
        DataDirectoryIndex::Import.number() == 1,
        DataDirectoryIndex::Resource.number() == 2,
        DataDirectoryIndex::Exception.number() == 3,
        DataDirectoryIndex::Certificate.number() == 4,
        DataDirectoryIndex::BaseRelocation.number() == 5,
        DataDirectoryIndex::Debug.number() == 6,
        DataDirectoryIndex::Copyright.number() == 7,
        DataDirectoryIndex::GlobalPtr.number() == 8,
        DataDirectoryIndex::Tls.number() == 9,
        DataDirectoryIndex::LoadConfig.number() == 10,
        DataDirectoryIndex::BoundImport.number() == 11,
        DataDirectoryIndex::Iat.number() == 12,
        DataDirectoryIndex::DelayImport.number() == 13,
        DataDirectoryIndex::ComDescription.number() == 14,
        DataDirectoryIndex::Reserved.number() == 15,
{
}

/// An image starts with `MZ`; at the offset that stands at `0x3C` it has `PE`
/// and two zeros, and behind the file header a magic number that tells the two
/// formats apart.
pub proof fn signatures_of_an_image(raw: Seq<u8>)
    requires
        reader::parsed_image(raw) is Some,
    ensures
        raw.len() >= 128,
        raw[0] == 0x4D,
        raw[1] == 0x5A,
        ({
            let pe = encoding_laws::double_word(raw, 0x3C);
            &&& reader::parsed_image(raw)->Some_0.pe_offset == pe
            &&& raw[pe] == 0x50
            &&& raw[pe + 1] == 0x45
            &&& raw[pe + 2] == 0
            &&& raw[pe + 3] == 0
            &&& encoding_laws::word(raw, pe + 24) == 0x10B || encoding_laws::word(raw, pe + 24) == 0x20B
        }),
{
    encoding_laws::words_agree(raw);
    let pe = bytes::u32_at(raw, 0x3C) as int;
    reveal(reader::image_at);
    assert(encoding_laws::double_word(raw, 0x3C) == pe);
    assert(bytes::u16_at(raw, 0) == encoding_laws::word(raw, 0));
    assert(bytes::u32_at(raw, pe) == encoding_laws::double_word(raw, pe));
    assert(bytes::u16_at(raw, pe + 24) == encoding_laws::word(raw, pe + 24));
}

/// Where the data directories of an image start.
pub open spec fn directories_start(raw: Seq<u8>, pe: int) -> int {
    if encoding_laws::word(raw, pe + 24) == 0x10B {
        pe + 120
    } else {
        pe + 136
    }
}

/// The numbers in the headers of an image stand where the format has them.
pub proof fn header_fields(raw: Seq<u8>)
    requires
        reader::parsed_image(raw) is Some,
    ensures
        ({
            let v = reader::parsed_image(raw)->Some_0;
            let pe = encoding_laws::double_word(raw, 0x3C);
            &&& v.raw == raw
            &&& v.architecture.0 == encoding_laws::word(raw, pe + 4)
            &&& v.sections.len() == encoding_laws::word(raw, pe + 6)
            &&& v.timestamp == encoding_laws::double_word(raw, pe + 8)
            &&& v.characteristics == encoding_laws::word(raw, pe + 22)
            &&& v.linker_version == encoding_laws::word(raw, pe + 26)
            &&& v.subsystem_major == encoding_laws::word(raw, pe + 72)
            &&& v.subsystem_minor == encoding_laws::word(raw, pe + 74)
            &&& v.dll_characteristics == encoding_laws::word(raw, pe + 94)
            &&& v.kind == ModuleKind::Dll <==> v.characteristics & 0x2000 != 0
            &&& v.kind == ModuleKind::Windows <==> v.characteristics & 0x2000 == 0 && (encoding_laws::word(
                raw,
                pe + 92,
            ) == 2 || encoding_laws::word(raw, pe + 92) == 9)
            &&& v.kind != ModuleKind::NetModule
            &&& v.data_directories.len() == 16
            &&& v.cli_directory == v.data_directories[14]
        }),
{
    encoding_laws::words_agree(raw);
    let pe = bytes::u32_at(raw, 0x3C) as int;
    reveal(reader::image_at);
    assert(encoding_laws::double_word(raw, 0x3C) == pe);
    module_kinds(bytes::u16_at(raw, pe + 22), bytes::u16_at(raw, pe + 92));
    assert(bytes::u16_at(raw, pe + 92) == encoding_laws::word(raw, pe + 92));
}

/// Each data directory is an address and a size, eight bytes together.
pub proof fn directory_fields(raw: Seq<u8>, k: int)
    requires
        reader::parsed_image(raw) is Some,
        0 <= k < 16,
    ensures
        ({
            let d = reader::parsed_image(raw)->Some_0.data_directories[k];
            let at = directories_start(raw, encoding_laws::double_word(raw, 0x3C)) + 8 * k;
            d.virtual_address == encoding_laws::double_word(raw, at) && d.size == encoding_laws::double_word(raw, at + 4)
        }),
{
    encoding_laws::words_agree(raw);
    let pe = bytes::u32_at(raw, 0x3C) as int;
    reveal(reader::image_at);
    assert(encoding_laws::double_word(raw, 0x3C) == pe);
    assert(bytes::u16_at(raw, pe + 24) == encoding_laws::word(raw, pe + 24));
}

/// The section table follows the sixteen data directories; an entry has forty
/// bytes, eight of which are the name.
pub proof fn section_fields(raw: Seq<u8>, k: int)
    requires
        reader::parsed_image(raw) is Some,
        0 <= k < encoding_laws::word(raw, encoding_laws::double_word(raw, 0x3C) + 6),
    ensures
        ({
            let s = reader::parsed_image(raw)->Some_0.sections[k];
            let at = directories_start(raw, encoding_laws::double_word(raw, 0x3C)) + 128 + 40 * k;
            &&& s.virtual_size == encoding_laws::double_word(raw, at + 8)
            &&& s.virtual_address == encoding_laws::double_word(raw, at + 12)
            &&& s.size_of_raw_data == encoding_laws::double_word(raw, at + 16)
            &&& s.pointer_to_raw_data == encoding_laws::double_word(raw, at + 20)
            &&& s.name == reader::field_text(raw, at, 8)
        }),
{
    encoding_laws::words_agree(raw);
    let pe = bytes::u32_at(raw, 0x3C) as int;
    reveal(reader::image_at);
    assert(encoding_laws::double_word(raw, 0x3C) == pe);
    assert(bytes::u16_at(raw, pe + 24) == encoding_laws::word(raw, pe + 24));
    assert(bytes::u16_at(raw, pe + 6) == encoding_laws::word(raw, pe + 6));
}

/// The runtime header is found through the directory 14 and has 72 bytes.
pub proof fn runtime_header_fields(raw: Seq<u8>)
    requires
        reader::parsed_image(raw) is Some,
    ensures
        ({
            let v = reader::parsed_image(raw)->Some_0;
            let h = v.cli_header;
            reader::resolved(v.data_directories[14].virtual_address, v.sections) matches Some(at) && {
                &&& at + 72 <= raw.len()
                &&& h.cb == encoding_laws::double_word(raw, at)
                &&& h.runtime_major == encoding_laws::word(raw, at + 4)
                &&& h.runtime_minor == encoding_laws::word(raw, at + 6)
                &&& h.metadata_rva == encoding_laws::double_word(raw, at + 8)
                &&& h.metadata_size == encoding_laws::double_word(raw, at + 12)
                &&& h.flags == encoding_laws::double_word(raw, at + 16)
                &&& h.entry_point_token.0 == encoding_laws::double_word(raw, at + 20)
                &&& h.resources_rva == encoding_laws::double_word(raw, at + 24)
                &&& h.resources_size == encoding_laws::double_word(raw, at + 28)
                &&& h.strong_name_rva == encoding_laws::double_word(raw, at + 32)
                &&& h.strong_name_size == encoding_laws::double_word(raw, at + 36)
                &&& h.code_manager_table_rva == encoding_laws::double_word(raw, at + 40)
                &&& h.code_manager_table_size == encoding_laws::double_word(raw, at + 44)
                &&& h.vtable_fixups_rva == encoding_laws::double_word(raw, at + 48)
                &&& h.vtable_fixups_size == encoding_laws::double_word(raw, at + 52)
                &&& h.export_address_table_jumps_rva == encoding_laws::double_word(raw, at + 56)
                &&& h.export_address_table_jumps_size == encoding_laws::double_word(raw, at + 60)
                &&& h.managed_native_header_rva == encoding_laws::double_word(raw, at + 64)
                &&& h.managed_native_header_size == encoding_laws::double_word(raw, at + 68)
            }
        }),
{
    encoding_laws::words_agree(raw);
    let pe = bytes::u32_at(raw, 0x3C) as int;
    reveal(reader::image_at);
}

/// A debug record has 28 bytes, with the kind, the size and the place of its
/// payload at 12, 16 and 24. A record whose payload lies in the file has it.
#[verifier::spinoff_prover]
#[verifier::rlimit(80)]
pub proof fn debug_fields(raw: Seq<u8>, k: int)
    requires
        reader::parsed_image(raw) is Some,
        0 <= k < reader::parsed_image(raw)->Some_0.debug_entries.len(),
    ensures
        ({
            let v = reader::parsed_image(raw)->Some_0;
            let e = v.debug_entries[k];
            reader::resolved(v.data_directories[6].virtual_address, v.sections) matches Some(start)
                && {
                let at = start + 28 * k;
                &&& v.debug_entries.len() == v.data_directories[6].size / 28
                &&& (e.directory.characteristics - encoding_laws::double_word(raw, at)) % 0x1_0000_0000 == 0
                &&& (e.directory.time_date_stamp - encoding_laws::double_word(raw, at + 4)) % 0x1_0000_0000 == 0
                &&& (e.directory.major_version - encoding_laws::word(raw, at + 8)) % 0x1_0000 == 0
                &&& (e.directory.minor_version - encoding_laws::word(raw, at + 10)) % 0x1_0000 == 0
                &&& (e.directory.kind - encoding_laws::double_word(raw, at + 12)) % 0x1_0000_0000 == 0
                &&& (e.directory.size_of_data - encoding_laws::double_word(raw, at + 16)) % 0x1_0000_0000 == 0
                &&& (e.directory.address_of_raw_data - encoding_laws::double_word(raw, at + 20)) % 0x1_0000_0000 == 0
                &&& (e.directory.pointer_to_raw_data - encoding_laws::double_word(raw, at + 24)) % 0x1_0000_0000 == 0
                &&& 0 < encoding_laws::double_word(raw, at + 24) && 0 < encoding_laws::double_word(raw, at + 16) && encoding_laws::double_word(
                    raw,
                    at + 24,
                ) + encoding_laws::double_word(raw, at + 16) <= raw.len() && raw.len() < 0x8000_0000 ==> e.data
                    == raw.subrange(
                    encoding_laws::double_word(raw, at + 24),
                    encoding_laws::double_word(raw, at + 24) + encoding_laws::double_word(raw, at + 16),
                )
            }
        }),
{
    encoding_laws::words_agree(raw);
    let pe = bytes::u32_at(raw, 0x3C) as int;
    reveal(reader::image_at);
    let v = reader::parsed_image(raw)->Some_0;
    let start = reader::resolved(v.data_directories[6].virtual_address, v.sections)->Some_0;
    let at = start + 28 * k;
    assert(v.debug_entries[k] == reader::debug_entry_at(raw, at));
}

proof fn first_mapping(sections: Seq<SectionView>, rva: u32, i: int, k: int)
    requires
        0 <= i <= k < sections.len(),
        sections[k].maps(rva),
        forall|j: int| i <= j < k ==> !(#[trigger] sections[j]).maps(rva),
    ensures
        section::mapping_section(sections, rva, i) == Some(k),
    decreases k - i,
{
    if i < k {
        assert(!sections[i].maps(rva));
        first_mapping(sections, rva, i + 1, k);
    }
}

proof fn first_backing(sections: Seq<SectionView>, rva: u32, i: int, k: int)
    requires
        0 <= i <= k < sections.len(),
        sections[k].backs(rva),
        forall|j: int| i <= j < k ==> !(#[trigger] sections[j]).backs(rva),
    ensures
        section::backing_section(sections, rva, i) == Some(k),
    decreases k - i,
{
    if i < k {
        assert(!sections[i].backs(rva));
        first_backing(sections, rva, i + 1, k);
    }
}

/// How far a section reaches: as far as the larger of its two sizes.
pub open spec fn reach(s: SectionView) -> int {
    if s.virtual_size >= s.size_of_raw_data {
        s.virtual_address + s.virtual_size
    } else {
        s.virtual_address + s.size_of_raw_data
    }
}

/// An address in a section is as far behind the start of the data of the section
/// in the file as it is behind the address of the section.
pub proof fn addresses_map_to_offsets(v: ImageView, k: int, distance: int)
    requires
        0 <= k < v.sections.len(),
        0 <= distance,
        forall|j: int| 0 <= j < v.sections.len() ==> reach(#[trigger] v.sections[j]) <= u32::MAX,
        forall|i: int, j: int|
            0 <= i < j < v.sections.len() ==> reach(#[trigger] v.sections[i])
                <= (#[trigger] v.sections[j]).virtual_address,
    ensures
        distance < v.sections[k].size_of_raw_data ==> v.offset_of(
            (v.sections[k].virtual_address + distance) as u64,
        ) == Some(v.sections[k].pointer_to_raw_data + distance),
        v.sections[k].virtual_address + distance < reach(v.sections[k]) ==> reader::resolved(
            (v.sections[k].virtual_address + distance) as u32,
            v.sections,
        ) == Some(v.sections[k].pointer_to_raw_data + distance),
{
    let s = v.sections[k];
    if s.virtual_address + distance < reach(s) {
        let rva = (s.virtual_address + distance) as u32;
        assert forall|j: int| 0 <= j < k implies !(#[trigger] v.sections[j]).maps(rva)
            && !v.sections[j].backs(rva) by {
            assert(reach(v.sections[j]) <= s.virtual_address);
        }
        first_mapping(v.sections, rva, 0, k);
        if distance < s.size_of_raw_data {
            first_backing(v.sections, rva, 0, k);
        }
    }
}

/// An address that no section reaches maps to nothing.
pub proof fn addresses_outside_map_to_nothing(v: ImageView, rva: u64)
    requires
        forall|j: int|
            0 <= j < v.sections.len() ==> rva < (#[trigger] v.sections[j]).virtual_address || rva
                >= v.sections[j].virtual_address + v.sections[j].size_of_raw_data,
    ensures
        v.offset_of(rva) is None,
{
    if rva <= u32::MAX {
        section::backing_section_found(v.sections, rva as u32, 0);
        if let Some(k) = section::backing_section(v.sections, rva as u32, 0) {
            assert(v.sections[k].backs(rva as u32));
        }
    }
}

/// The sum of the bytes, of which every other one counts 256 times. A last byte
/// without a partner counts 256 times too.
pub open spec fn weighted_sum(data: Seq<u8>, n: nat) -> int
    decreases n,
{
    if n == 0 {
        0
    } else {
        weighted_sum(data, (n - 1) as nat) + if n % 2 == 0 || n == data.len() {
            0x100 * data[n - 1]
        } else {
            data[n - 1] as int
        }
    }
}

proof fn folding_keeps_remainder(n: nat)
    ensures
        checksum::folded(n) as int % 0xFFFF == n as int % 0xFFFF,
{
    let q = n as int / 0x1_0000;
    assert(n as int == checksum::folded(n) as int + 0xFFFF * q);
    vstd::arithmetic::div_mod::lemma_mod_multiples_vanish(q, checksum::folded(n) as int, 0xFFFF);
}

proof fn remainders_add(a: int, b: int, c: int)
    requires
        a % 0xFFFF == b % 0xFFFF,
    ensures
        (a + c) % 0xFFFF == (b + c) % 0xFFFF,
{
    vstd::arithmetic::div_mod::lemma_add_mod_noop(a, c, 0xFFFF);
    vstd::arithmetic::div_mod::lemma_add_mod_noop(b, c, 0xFFFF);
}

proof fn word_sums_agree(data: Seq<u8>, n: nat)
    requires
        2 * n <= data.len(),
    ensures
        checksum::word_sum(data, n) as int % 0xFFFF == weighted_sum(data, 2 * n) % 0xFFFF,
        checksum::word_sum(data, n) <= 0xFFFF,
    decreases n,
{
    encoding_laws::words_agree(data);
    if n > 0 {
        word_sums_agree(data, (n - 1) as nat);
        let before = checksum::word_sum(data, (n - 1) as nat);
        let w = bytes::u16_at(data, 2 * (n - 1));
        assert(w == encoding_laws::word(data, 2 * (n - 1)));
        assert(weighted_sum(data, (2 * n - 1) as nat) == weighted_sum(data, (2 * n - 2) as nat)
            + data[2 * n - 2]);
        assert(weighted_sum(data, 2 * n) == weighted_sum(data, (2 * n - 1) as nat) + 0x100 * data[2
            * n - 1]);
        folding_keeps_remainder(before + w as nat);
        remainders_add(before as int, weighted_sum(data, (2 * n - 2) as nat), w as int);
    }
}

/// The checksum is what is missing to `0xFFFF`, counted around `0xFFFF`, from the
/// weighted sum of the bytes and the length.
pub proof fn checksum_is_a_weighted_sum(data: Seq<u8>)
    requires
        data.len() <= 0xFFFF,
    ensures
        checksum::pe_checksum(data) <= 0xFFFF,
        (0xFFFF - checksum::pe_checksum(data)) % 0xFFFF == (weighted_sum(data, data.len())
            + data.len()) % 0xFFFF,
{
    let half = data.len() / 2;
    let words = checksum::word_sum(data, half);
    word_sums_agree(data, half);
    let all = if data.len() % 2 == 1 {
        checksum::folded(words + 0x100 * data[data.len() - 1] as nat)
    } else {
        words
    };
    assert(all as int % 0xFFFF == weighted_sum(data, data.len()) % 0xFFFF && all <= 0xFFFF) by {
        if data.len() % 2 == 1 {
            let last = 0x100 * data[data.len() - 1] as nat;
            folding_keeps_remainder(words + last);
            remainders_add(words as int, weighted_sum(data, 2 * half), last as int);
            assert(weighted_sum(data, data.len()) == weighted_sum(data, 2 * half) + last);
        }
    }
    folding_keeps_remainder(all + data.len());
    remainders_add(all as int, weighted_sum(data, data.len()), data.len() as int);
    assert(checksum::folded(all + data.len()) <= 0xFFFF);
}

/// Rebasing keeps the distance of an address from the start of its section.
pub proof fn rebasing_keeps_distance(rva: u32, old_rva: u32, new_rva: u32)
    ensures
        (resources::rebased(rva, old_rva, new_rva) - new_rva - (rva - old_rva)) % 0x1_0000_0000 == 0,
        rva >= old_rva && rva - old_rva + new_rva <= u32::MAX ==> resources::rebased(
            rva,
            old_rva,
            new_rva,
        ) == rva - old_rva + new_rva,
{
    let d = rva - old_rva + new_rva;
    assert((d % 0x1_0000_0000 - d) % 0x1_0000_0000 == 0);
}

/// A tree with one entry of the kind (named or numbered) that leads to a data
/// entry has the address in the data entry moved and nothing else changed.
pub proof fn single_resource_is_rebased(
    s: Seq<u8>,
    named: bool,
    target: int,
    old_rva: u32,
    new_rva: u32,
)
    requires
        s.len() >= 24,
        encoding_laws::word(s, 12) == if named {
            1int
        } else {
            0
        },
        encoding_laws::word(s, 14) == if named {
            0int
        } else {
            1
        },
        encoding_laws::double_word(s, 20) == target,
        target < 0x8000_0000,
        target + 4 <= s.len(),
    ensures
        ({
            let r = resources::patched_resources(s, old_rva, new_rva);
            &&& r is Some
            &&& r->Some_0.len() == s.len()
            &&& (encoding_laws::double_word(r->Some_0, target) - new_rva - (encoding_laws::double_word(s, target) - old_rva))
                % 0x1_0000_0000 == 0
            &&& forall|i: int|
                0 <= i < s.len() && !(target <= i < target + 4) ==> r->Some_0[i] == s[i]
        }),
{
    encoding_laws::words_agree(s);
    broadcast use crate::bytes::widths;

    assert(bytes::u16_at(s, 12) == encoding_laws::word(s, 12));
    assert(bytes::u16_at(s, 14) == encoding_laws::word(s, 14));
    assert(bytes::u32_at(s, 20) == encoding_laws::double_word(s, 20));
    let rva = bytes::u32_at(s, target);
    let v = resources::rebased(rva, old_rva, new_rva);
    let t = bytes::overwrite(s, target, bytes::u32_le(v));
    let depth = s.len();
    assert(resources::patched_entry(s, 16, old_rva, new_rva, (depth - 1) as nat, 1) == Some(t));
    assert(resources::patched_entries(t, 24, 0, old_rva, new_rva, (depth - 1) as nat) == Some(t));
    assert(resources::patched_entries(s, 16, 1, old_rva, new_rva, (depth - 1) as nat) == Some(t));
    assert(resources::patched_resources(s, old_rva, new_rva) == Some(t));
    assert(t.subrange(target, target + 4) =~= bytes::u32_le(v));
    bytes::u32_round_trip(t, target, v);
    encoding_laws::words_agree(t);
    assert(bytes::u32_at(t, target) == encoding_laws::double_word(t, target));
    rebasing_keeps_distance(rva, old_rva, new_rva);
}

/// A subdirectory is told from a data entry by the highest bit of the word that
/// leads to it; the other bits are where it is.
pub proof fn resource_entries_lead_on(
    s: Seq<u8>,
    at: int,
    old_rva: u32,
    new_rva: u32,
    depth: nat,
    n: nat,
)
    requires
        0 <= at,
        at + 8 <= s.len(),
        encoding_laws::double_word(s, at + 4) % 0x8000_0000 <= s.len(),
    ensures
        bytes::u32_at(s, at + 4) & 0x8000_0000 != 0 ==> resources::patched_entry(
            s,
            at,
            old_rva,
            new_rva,
            depth,
            n,
        ) == resources::patched_table(
            s,
            (bytes::u32_at(s, at + 4) & 0x7FFF_FFFF) as int,
            old_rva,
            new_rva,
            depth,
        ),
        bytes::u32_at(s, at + 4) & 0x8000_0000 == 0 ==> resources::patched_entry(
            s,
            at,
            old_rva,
            new_rva,
            depth,
            n,
        ) == resources::patched_data(
            s,
            (bytes::u32_at(s, at + 4) & 0x7FFF_FFFF) as int,
            old_rva,
            new_rva,
        ),
{
    encoding_laws::words_agree(s);
    let c = bytes::u32_at(s, at + 4);
    assert(c == encoding_laws::double_word(s, at + 4));
    assert((c & 0x8000_0000 != 0) == (c >= 0x8000_0000) && (c & 0x7FFF_FFFF) == c % 0x8000_0000)
        by (bit_vector);
}

/// From an address in a section, the data of the section is read up to its end, or
/// up to the end of the file where this comes first.
pub proof fn section_data_is_read(v: ImageView, k: int, distance: int)
    requires
        0 <= k < v.sections.len(),
        0 <= distance < v.sections[k].size_of_raw_data,
        forall|j: int| 0 <= j < v.sections.len() ==> reach(#[trigger] v.sections[j]) <= u32::MAX,
        forall|i: int, j: int|
            0 <= i < j < v.sections.len() ==> reach(#[trigger] v.sections[i])
                <= (#[trigger] v.sections[j]).virtual_address,
    ensures
        ({
            let s = v.sections[k];
            let start = s.pointer_to_raw_data + distance;
            let end = s.pointer_to_raw_data + s.size_of_raw_data;
            let read = v.bytes_at((s.virtual_address + distance) as u64);
            &&& end <= v.raw.len() ==> read == Ok::<Seq<u8>, ErrorKind>(v.raw.subrange(start, end))
            &&& start < v.raw.len() < end ==> read == Ok::<Seq<u8>, ErrorKind>(v.raw.skip(start))
            &&& start >= v.raw.len() ==> read == Err::<Seq<u8>, ErrorKind>(ErrorKind::BadImage)
        }),
{
    addresses_map_to_offsets(v, k, distance);
    let s = v.sections[k];
    let rva = (s.virtual_address + distance) as u32;
    assert forall|j: int| 0 <= j < k implies !(#[trigger] v.sections[j]).backs(rva) by {
        assert(reach(v.sections[j]) <= s.virtual_address);
    }
    first_backing(v.sections, rva, 0, k);
    let start = s.pointer_to_raw_data + distance;
    if start < v.raw.len() {
        assert(v.raw.subrange(start, v.raw.len() as int) =~= v.raw.skip(start));
    }
}

/// A blank runtime header says nothing.
pub proof fn blank_headers_are_zero()
    ensures
        ({
            let h = image::blank_cli_header();
            &&& h.cb == 0 && h.runtime_major == 0 && h.runtime_minor == 0
            &&& h.metadata_rva == 0 && h.metadata_size == 0
            &&& h.flags == 0 && h.entry_point_token.0 == 0
            &&& h.resources_rva == 0 && h.resources_size == 0
            &&& h.strong_name_rva == 0 && h.strong_name_size == 0
            &&& h.code_manager_table_rva == 0 && h.code_manager_table_size == 0
            &&& h.vtable_fixups_rva == 0 && h.vtable_fixups_size == 0
            &&& h.export_address_table_jumps_rva == 0 && h.export_address_table_jumps_size == 0
            &&& h.managed_native_header_rva == 0 && h.managed_native_header_size == 0
        }),
{
}

proof fn first_zero(s: Seq<u8>, i: int, z: int)
    requires
        0 <= i <= z < s.len(),
        s[z] == 0,
        forall|k: int| i <= k < z ==> #[trigger] s[k] != 0,
    ensures
        bytes::zero_from(s, i) == Some(z),
    decreases z - i,
{
    if i < z {
        assert(s[i] != 0);
        first_zero(s, i + 1, z);
    }
}

/// A stream of the metadata is listed by its offset, its size and its name, which
/// ends at a zero and is filled up to a multiple of four; the next one follows.
pub proof fn metadata_streams_are_listed(raw: Seq<u8>, at: int, n: nat, z: int, width: int)
    requires
        0 <= at,
        at + 8 <= z < at + 24,
        z < raw.len(),
        raw[z] == 0,
        forall|k: int| at + 8 <= k < z ==> #[trigger] raw[k] != 0,
        width % 4 == 0,
        z - at - 8 < width <= z - at - 4,
        at + 8 + width <= raw.len(),
    ensures
        reader::stream_table(raw, at, n + 1) is Some <==> reader::stream_table(
            raw,
            at + 8 + width,
            n,
        ) is Some,
        reader::stream_table(raw, at, n + 1) matches Some(list) ==> {
            &&& list.len() > 0
            &&& list[0].offset == encoding_laws::double_word(raw, at)
            &&& list[0].size == encoding_laws::double_word(raw, at + 4)
            &&& list[0].name == text::lossy_text(raw.subrange(at + 8, z))
            &&& Some(list.skip(1)) == reader::stream_table(raw, at + 8 + width, n)
        },
{
    encoding_laws::words_agree(raw);
    first_zero(raw, at + 8, z);
    assert((z - (at + 8) + 4) / 4 * 4 == width);
    assert(reader::stream_name(raw, at + 8) == Some(
        (text::lossy_text(raw.subrange(at + 8, z)), width),
    ));
    if let Some(list) = reader::stream_table(raw, at, n + 1) {
        let rest = reader::stream_table(raw, at + 8 + width, n)->Some_0;
        assert(list.skip(1) =~= rest);
    }
}

/// A metadata root starts with `BSJB`. The length of its version stands 12 bytes
/// in and the version behind it; the number of the streams and their list follow.
pub proof fn metadata_roots_are_found(raw: Seq<u8>, at: int, length: int)
    requires
        0 <= at,
        at + 20 + length <= raw.len(),
        0 <= length == encoding_laws::signed_double_word(raw, at + 12),
        raw.subrange(at, at + 4) == seq![0x42u8, 0x53, 0x4A, 0x42],
    ensures
        ({
            let list = reader::stream_table(
                raw,
                at + 20 + length,
                encoding_laws::word(raw, at + 18 + length) as nat,
            );
            &&& reader::root_at(raw, at) is Some <==> list is Some
            &&& reader::root_at(raw, at) matches Some(found) ==> {
                &&& Some(found.1) == list
                &&& found.0 == text::lossy_text(
                    bytes::until_zero(raw.subrange(at + 16, at + 16 + length)),
                )
            }
        }),
{
    encoding_laws::words_agree(raw);
    encoding_laws::signed_words_agree(raw);
    let mark = raw.subrange(at, at + 4);
    assert(raw[at] == mark[0] && raw[at + 1] == mark[1] && raw[at + 2] == mark[2] && raw[at + 3]
        == mark[3]);
    assert(encoding_laws::double_word(raw, at) == 0x424A_5342);
    assert(bytes::u32_at(raw, at) == encoding_laws::double_word(raw, at));
    assert(bytes::i32_of(bytes::u32_at(raw, at + 12)) == encoding_laws::signed_double_word(
        raw,
        at + 12,
    ));
    assert(bytes::u16_at(raw, at + 18 + length) == encoding_laws::word(raw, at + 18 + length));
}

} // verus!
