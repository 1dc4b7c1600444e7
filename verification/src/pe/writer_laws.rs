//! What a reader makes of an emitted image.

use vstd::prelude::*;

use crate::bytes;
use crate::error::ErrorKind;
use crate::pe::checksum;
use crate::pe::image;
use crate::pe::image::{CliHeader, DebugEntryView, ImageView};
use crate::pe::reader;
use crate::pe::resources;
use crate::pe::section;
use crate::pe::section::{DataDirectory, SectionView};
use crate::pe::textmap;
use crate::pe::writer;
use crate::pe::writer::{Layout, PartsView, WriterView};
use crate::text;
use crate::token::Token;

verus! {

broadcast use crate::bytes::widths;

/// The two signatures that the DOS header leads to.
proof fn dos_header_reads()
    ensures
        bytes::u16_at(writer::DOS_HEADER@, 0) == 0x5A4D,
        bytes::u32_at(writer::DOS_HEADER@, 0x3C) == 0x80,
{
    reveal(bytes::u16_at);
    reveal(bytes::u32_at);
    assert(writer::DOS_HEADER@[0] == 0x4d);
    assert(writer::DOS_HEADER@[1] == 0x5a);
    assert(writer::DOS_HEADER@[60] == 0x80);
    assert(writer::DOS_HEADER@[61] == 0);
    assert(writer::DOS_HEADER@[62] == 0);
    assert(writer::DOS_HEADER@[63] == 0);
}

/// An untouched image is emitted as it was read.
pub proof fn untouched_image_is_emitted_unchanged(raw: Seq<u8>, w: WriterView)
    requires
        reader::parsed_image(raw) == Some(w.image),
        w.parts is None,
        w.entry_point_token is None,
        w.timestamp is None,
        w.metadata is None,
        !w.compute_checksum,
    ensures
        w.emittable(),
        w.emitted() == Ok::<Seq<u8>, ErrorKind>(raw),
{
    reveal(reader::image_at);
}

/// Setting the entry point or the timestamp that an image has changes nothing.
pub proof fn same_fields_change_nothing(raw: Seq<u8>, w: WriterView)
    requires
        reader::parsed_image(raw) == Some(w.image),
        w.parts is None,
        w.metadata is None,
        !w.compute_checksum,
        w.entry_point_token matches Some(t) ==> t == w.image.cli_header.entry_point_token,
        w.timestamp matches Some(t) ==> t == w.image.timestamp,
        w.image.offset_of(w.image.cli_directory.virtual_address as u64) == reader::resolved(
            w.image.cli_directory.virtual_address,
            w.image.sections,
        ),
    ensures
        w.emittable(),
        w.emitted() == Ok::<Seq<u8>, ErrorKind>(raw),
{
    reveal(reader::image_at);
    let at = reader::resolved(w.image.cli_directory.virtual_address, w.image.sections)->Some_0;
    section::mapping_section_found(w.image.sections, w.image.cli_directory.virtual_address, 0);
    if let Some(t) = w.entry_point_token {
        overwriting_with_the_same(raw, at + 20);
    }
    overwriting_with_the_same(raw, w.image.pe_offset + 8);
}

proof fn overwriting_with_the_same(s: Seq<u8>, at: int)
    requires
        0 <= at,
        at + 4 <= s.len(),
    ensures
        bytes::overwrite(s, at, bytes::u32_le(bytes::u32_at(s, at))) == s,
{
    bytes::u32_bytes_round_trip(s, at);
    let part = s.subrange(at, at + 4);
    assert(part =~= bytes::u32_le(bytes::u32_at(s, at)));
    assert(forall|i: int| 0 <= i < 4 ==> part[i] == s[at + i]);
    assert(bytes::overwrite(s, at, part) =~= s);
}

/// What is overridden in place shows up at its field and nowhere else.
pub proof fn timestamp_shows_up_in_its_field(w: WriterView, timestamp: u32)
    requires
        w.parts is None,
        w.metadata is None,
        w.entry_point_token is None,
        w.timestamp == Some(timestamp),
        !w.compute_checksum,
        0 <= w.image.pe_offset,
        w.image.pe_offset + 12 <= w.image.raw.len(),
    ensures
        w.emitted() is Ok,
        w.emitted()->Ok_0.len() == w.image.raw.len(),
        bytes::u32_at(w.emitted()->Ok_0, w.image.pe_offset + 8) == timestamp,
        forall|i: int|
            0 <= i < w.image.raw.len() && !(w.image.pe_offset + 8 <= i < w.image.pe_offset + 12)
                ==> w.emitted()->Ok_0[i] == w.image.raw[i],
{
    let s = w.emitted()->Ok_0;
    let at = w.image.pe_offset + 8;
    assert(s.subrange(at, at + 4) =~= bytes::u32_le(timestamp));
    bytes::u32_round_trip(s, at, timestamp);
}

/// A replaced metadata root stands where the image has its root.
pub proof fn replaced_metadata_stands_at_the_root(w: WriterView, root: Seq<u8>)
    requires
        w.parts is None,
        w.metadata == Some(root),
        w.entry_point_token is None,
        w.timestamp is None,
        !w.compute_checksum,
        w.overrides_fit(),
        w.emitted() is Ok,
    ensures
        w.image.offset_of(w.image.cli_header.metadata_rva) is Some,
        bytes::holds_at(
            w.emitted()->Ok_0,
            w.image.offset_of(w.image.cli_header.metadata_rva)->Some_0,
            root,
        ),
{
    let at = w.image.offset_of(w.image.cli_header.metadata_rva)->Some_0;
    section::backing_section_found(
        w.image.sections,
        bytes::low32(w.image.cli_header.metadata_rva as int),
        0,
    );
    assert(w.emitted()->Ok_0.subrange(at, at + root.len()) =~= root);
}

/// The items follow one another, the first one from `length` on.
pub open spec fn in_order(length: nat, items: Seq<(int, Seq<u8>)>) -> bool {
    forall|k: int|
        #![trigger items[k]]
        0 <= k < items.len() ==> items[k].0 >= if k == 0 {
            length as int
        } else {
            items[k - 1].0 + items[k - 1].1.len()
        }
}

/// Items that follow one another stand at their offsets, and what was there
/// before them stays.
pub proof fn placed_items_stand(s: Seq<u8>, items: Seq<(int, Seq<u8>)>)
    requires
        in_order(s.len(), items),
    ensures
        bytes::holds_at(writer::placed_all(s, items), 0, s),
        forall|k: int|
            #![trigger items[k]]
            0 <= k < items.len() ==> bytes::holds_at(
                writer::placed_all(s, items),
                items[k].0,
                items[k].1,
            ),
        writer::placed_all(s, items).len() == if items.len() == 0 {
            s.len() as int
        } else {
            items.last().0 + items.last().1.len()
        },
    decreases items.len(),
{
    if items.len() == 0 {
        assert(s.subrange(0, s.len() as int) =~= s);
    } else {
        let front = items.drop_last();
        let last = items.last();
        assert forall|k: int| #![trigger front[k]] 0 <= k < front.len() implies front[k].0
            >= if k == 0 {
            s.len() as int
        } else {
            front[k - 1].0 + front[k - 1].1.len()
        } by {
            assert(items[k] == front[k]);
        }
        placed_items_stand(s, front);
        let before = writer::placed_all(s, front);
        let gap = bytes::zero_bytes((last.0 - before.len()) as nat);
        assert(items[items.len() - 1] == last);
        let whole = writer::placed_all(s, items);
        assert(whole =~= before + (gap + last.1));
        bytes::holds_extended(before, gap + last.1, 0, s);
        assert forall|k: int| #![trigger items[k]] 0 <= k < items.len() implies bytes::holds_at(
            whole,
            items[k].0,
            items[k].1,
        ) by {
            if k == items.len() - 1 {
                bytes::holds_in_concat(before + gap, last.1, Seq::empty());
                assert(whole =~= (before + gap) + last.1);
            } else {
                assert(front[k] == items[k]);
                bytes::holds_extended(before, gap + last.1, items[k].0, items[k].1);
            }
        }
    }
}

/// A checksum changes nothing but its field.
proof fn checksum_keeps(s: Seq<u8>, field: int, at: int, part: Seq<u8>)
    requires
        0 <= field,
        field + 4 <= s.len(),
        bytes::holds_at(s, at, part),
        at + part.len() <= field || field + 4 <= at,
    ensures
        bytes::holds_at(checksum::with_checksum(s, field), at, part),
{
    let t = checksum::with_checksum(s, field);
    assert(t.subrange(at, at + part.len()) =~= s.subrange(at, at + part.len()));
}

/// The bytes of a root in a larger file read like the root.
proof fn window_ints(out: Seq<u8>, at: int, part: Seq<u8>, i: int)
    requires
        bytes::holds_at(out, at, part),
        0 <= i,
    ensures
        i + 2 <= part.len() ==> bytes::u16_at(out, at + i) == bytes::u16_at(part, i),
        i + 4 <= part.len() ==> bytes::u32_at(out, at + i) == bytes::u32_at(part, i),
{
    let whole = out.subrange(at, at + part.len());
    if i + 2 <= part.len() {
        assert(out.subrange(at + i, at + i + 2) =~= whole.subrange(i, i + 2));
        bytes::same_window(out, at + i, part, i, 2);
    }
    if i + 4 <= part.len() {
        assert(out.subrange(at + i, at + i + 4) =~= whole.subrange(i, i + 4));
        bytes::same_window(out, at + i, part, i, 4);
    }
}

proof fn window_range(out: Seq<u8>, at: int, part: Seq<u8>, i: int, j: int)
    requires
        bytes::holds_at(out, at, part),
        0 <= i <= j <= part.len(),
    ensures
        out.subrange(at + i, at + j) == part.subrange(i, j),
{
    assert(out.subrange(at + i, at + j) =~= out.subrange(at, at + part.len()).subrange(i, j));
}

proof fn window_byte(out: Seq<u8>, at: int, part: Seq<u8>, i: int)
    requires
        bytes::holds_at(out, at, part),
        0 <= i < part.len(),
    ensures
        out[at + i] == part[i],
{
    assert(out.subrange(at, at + part.len())[i] == out[at + i]);
}

proof fn window_stream_name(out: Seq<u8>, at: int, part: Seq<u8>, i: int)
    requires
        bytes::holds_at(out, at, part),
        0 <= i,
        reader::stream_name(part, i) is Some,
    ensures
        reader::stream_name(out, at + i) == reader::stream_name(part, i),
{
    bytes::zero_from_found(part, i);
    bytes::zero_from_found(out, at + i);
    let found = bytes::zero_from(part, i);
    if found is Some && found->Some_0 < i + 16 {
        let z = found->Some_0;
        assert forall|k: int| at + i <= k < at + z implies out[k] != 0 by {
            window_byte(out, at, part, k - at);
        }
        window_byte(out, at, part, z);
        bytes::zero_from_is(out, at + i, at + z);
        window_range(out, at, part, i, z);
    } else {
        window_range(out, at, part, i, i + 16);
        if let Some(z) = bytes::zero_from(out, at + i) {
            if z < at + i + 16 {
                window_byte(out, at, part, z - at);
                assert(part[z - at] == 0);
            }
        }
    }
}

proof fn window_stream_table(out: Seq<u8>, at: int, part: Seq<u8>, i: int, n: nat)
    requires
        bytes::holds_at(out, at, part),
        0 <= i,
        reader::stream_table(part, i, n) is Some,
    ensures
        reader::stream_table(out, at + i, n) == reader::stream_table(part, i, n),
    decreases n,
{
    if n > 0 {
        window_ints(out, at, part, i);
        window_ints(out, at, part, i + 4);
        window_stream_name(out, at, part, i + 8);
        bytes::zero_from_found(part, i + 8);
        let width = reader::stream_name(part, i + 8)->Some_0.1;
        window_stream_table(out, at, part, i + 8 + width, (n - 1) as nat);
    }
}

/// A metadata root inside a larger file is read like the root alone.
pub proof fn root_reads_in_place(out: Seq<u8>, at: int, root: Seq<u8>)
    requires
        bytes::holds_at(out, at, root),
        reader::root_at(root, 0) is Some,
    ensures
        reader::root_at(out, at) == reader::root_at(root, 0),
{
    window_ints(out, at, root, 0);
    window_ints(out, at, root, 12);
    let length = bytes::i32_of(bytes::u32_at(root, 12)) as int;
    window_ints(out, at, root, 18 + length);
    window_range(out, at, root, 16, 16 + length);
    window_stream_table(
        out,
        at,
        root,
        20 + length,
        bytes::u16_at(root, 18 + length) as nat,
    );
}

/// How far behind the PE signature the data directories of a rebuilt image
/// start.
spec fn after(m: ImageView) -> int {
    if m.architecture.wide() {
        136
    } else {
        120
    }
}

proof fn seven_blocks(
    a: Seq<u8>,
    b: Seq<u8>,
    c: Seq<u8>,
    d: Seq<u8>,
    e: Seq<u8>,
    f: Seq<u8>,
    g: Seq<u8>,
)
    ensures
        ({
            let h = a + b + c + d + e + f + g;
            let i = a.len() as int;
            &&& bytes::holds_at(h, 0, a)
            &&& bytes::holds_at(h, i, b)
            &&& bytes::holds_at(h, i + b.len(), c)
            &&& bytes::holds_at(h, i + b.len() + c.len(), d)
            &&& bytes::holds_at(h, i + b.len() + c.len() + d.len(), e)
            &&& bytes::holds_at(h, i + b.len() + c.len() + d.len() + e.len(), f)
            &&& bytes::holds_at(h, i + b.len() + c.len() + d.len() + e.len() + f.len(), g)
        }),
{
    let h = a + b + c + d + e + f + g;
    let i = a.len() as int;
    let j = i + b.len();
    let k = j + c.len();
    let l = k + d.len();
    let m = l + e.len();
    let n = m + f.len();
    assert(h.subrange(0, i) =~= a);
    assert(h.subrange(i, j) =~= b);
    assert(h.subrange(j, k) =~= c);
    assert(h.subrange(k, l) =~= d);
    assert(h.subrange(l, m) =~= e);
    assert(h.subrange(m, n) =~= f);
    assert(h.subrange(n, n + g.len()) =~= g);
}

/// How long the fixed parts of the headers are.
proof fn header_field_lengths(
    m: ImageView,
    sections: int,
    timestamp: u32,
    x: u32,
    y: u32,
    z: u32,
    size: u32,
)
    ensures
        writer::file_header(m, sections, timestamp).len() == 24,
        writer::standard_fields(m, x, y, z).len() == 32,
        writer::windows_fields(m, size).len() == 40,
{
}

/// The blocks of the headers of a rebuilt image.
#[verifier::rlimit(30)]
proof fn header_blocks(
    m: ImageView,
    p: PartsView,
    l: Layout,
    sections: Seq<SectionView>,
    timestamp: u32,
)
    requires
        1 <= sections.len() <= 3,
    ensures
        ({
            let h = writer::rebuilt_headers(m, p, l, sections, timestamp);
            let native = m.architecture.0 == 0x014C;
            &&& bytes::holds_at(h, 0, writer::DOS_HEADER@)
            &&& bytes::holds_at(
                h,
                128,
                writer::file_header(m, sections.len() as int, timestamp),
            )
            &&& exists|a: u32, b: u32, c: u32|
                bytes::holds_at(h, 152, #[trigger] writer::standard_fields(m, a, b, c))
            &&& exists|a: u32| bytes::holds_at(h, 184, #[trigger] writer::windows_fields(m, a))
            &&& bytes::holds_at(
                h,
                128 + after(m),
                bytes::joined(
                    writer::directory_table_parts(
                        writer::rebuilt_directories(native, l, p, sections),
                    ),
                ),
            )
            &&& bytes::holds_at(
                h,
                256 + after(m),
                bytes::joined(
                    writer::section_table_parts(sections, p.win32_resources is Some),
                ),
            )
        }),
{
    reveal(writer::rebuilt_headers);
    let native = m.architecture.0 == 0x014C;
    let h = writer::rebuilt_headers(m, p, l, sections, timestamp);
    let initialized = if sections.len() == 1 {
        0
    } else if sections.len() == 2 {
        sections[1].size_of_raw_data as int
    } else {
        sections[1].size_of_raw_data + sections[2].size_of_raw_data
    };
    let (x, y, z) = (
        sections[0].size_of_raw_data,
        initialized as u32,
        if native {
            l.stub as u32
        } else {
            0
        },
    );
    let size = (sections.last().virtual_address + writer::up(
        sections.last().virtual_size as int,
        writer::SECTION_ALIGNMENT,
    )) as u32;
    let ds = writer::directory_table_parts(writer::rebuilt_directories(native, l, p, sections));
    bytes::joined_uniform(ds, 8, 16);
    assert(ds.take(16) =~= ds);
    seven_blocks(
        writer::DOS_HEADER@,
        writer::file_header(m, sections.len() as int, timestamp),
        writer::standard_fields(m, x, y, z),
        writer::windows_fields(m, size),
        writer::size_fields(m.architecture.wide()),
        bytes::joined(ds),
        bytes::joined(writer::section_table_parts(sections, p.win32_resources is Some)),
    );
    header_field_lengths(m, sections.len() as int, timestamp, x, y, z, size);
    assert(bytes::holds_at(h, 152, writer::standard_fields(m, x, y, z)));
    assert(bytes::holds_at(h, 184, writer::windows_fields(m, size)));
}

/// The fields of the file header.
proof fn file_header_reads(out: Seq<u8>, m: ImageView, sections: int, timestamp: u32)
    requires
        bytes::holds_at(out, 128, writer::file_header(m, sections, timestamp)),
        0 <= sections <= 3,
    ensures
        bytes::u32_at(out, 128) == 0x4550,
        bytes::u16_at(out, 132) == m.architecture.0,
        bytes::u16_at(out, 134) == sections,
        bytes::u32_at(out, 136) == timestamp,
        bytes::u16_at(out, 150) == m.characteristics,
{
    let h = writer::file_header(m, sections, timestamp);
    assert(h.subrange(0, 4) =~= bytes::u32_le(0x4550));
    assert(h.subrange(4, 6) =~= bytes::u16_le(m.architecture.0));
    assert(h.subrange(6, 8) =~= bytes::u16_le(sections as u16));
    assert(h.subrange(8, 12) =~= bytes::u32_le(timestamp));
    assert(h.subrange(22, 24) =~= bytes::u16_le(m.characteristics));
    bytes::u32_round_trip(h, 0, 0x4550);
    bytes::u16_round_trip(h, 4, m.architecture.0);
    bytes::u16_round_trip(h, 6, sections as u16);
    bytes::u32_round_trip(h, 8, timestamp);
    bytes::u16_round_trip(h, 22, m.characteristics);
    window_ints(out, 128, h, 0);
    window_ints(out, 128, h, 4);
    window_ints(out, 128, h, 6);
    window_ints(out, 128, h, 8);
    window_ints(out, 128, h, 22);
}

proof fn standard_fields_read(out: Seq<u8>, m: ImageView, a: u32, b: u32, c: u32)
    requires
        bytes::holds_at(out, 152, writer::standard_fields(m, a, b, c)),
    ensures
        bytes::u16_at(out, 152) == if m.architecture.wide() {
            0x20Bu16
        } else {
            0x10B
        },
        bytes::u16_at(out, 154) == m.linker_version,
{
    let h = writer::standard_fields(m, a, b, c);
    let magic: u16 = if m.architecture.wide() {
        0x20B
    } else {
        0x10B
    };
    assert(h.subrange(0, 2) =~= bytes::u16_le(magic));
    assert(h.subrange(2, 4) =~= bytes::u16_le(m.linker_version));
    bytes::u16_round_trip(h, 0, magic);
    bytes::u16_round_trip(h, 2, m.linker_version);
    window_ints(out, 152, h, 0);
    window_ints(out, 152, h, 2);
}

/// Where the fields stand that are read behind the alignments.
proof fn windows_fields_stand(m: ImageView, size: u32)
    ensures
        ({
            let h = writer::windows_fields(m, size);
            &&& bytes::holds_at(h, 16, bytes::u16_le(m.subsystem_major))
            &&& bytes::holds_at(h, 18, bytes::u16_le(m.subsystem_minor))
            &&& bytes::holds_at(h, 36, bytes::u16_le(writer::subsystem_of(m.kind)))
            &&& bytes::holds_at(h, 38, bytes::u16_le(m.dll_characteristics))
        }),
{
    let h = writer::windows_fields(m, size);
    assert(h.subrange(16, 18) =~= bytes::u16_le(m.subsystem_major));
    assert(h.subrange(18, 20) =~= bytes::u16_le(m.subsystem_minor));
    assert(h.subrange(36, 38) =~= bytes::u16_le(writer::subsystem_of(m.kind)));
    assert(h.subrange(38, 40) =~= bytes::u16_le(m.dll_characteristics));
}

/// Data directories read back.
proof fn directories_read(out: Seq<u8>, at: int, ds: Seq<DataDirectory>)
    requires
        ds.len() == 16,
        bytes::holds_at(out, at, bytes::joined(writer::directory_table_parts(ds))),
    ensures
        reader::directory_table(out, at) == ds,
{
    let parts = writer::directory_table_parts(ds);
    assert forall|k: int| 0 <= k < 16 implies reader::directory_at(out, at + 8 * k) == ds[k] by {
        bytes::joined_uniform(parts, 8, k);
        bytes::joined_part(parts, k);
        let d = ds[k];
        let b = writer::directory_bytes(d);
        bytes::holds_within(out, at, bytes::joined(parts), 8 * k, parts[k]);
        assert(b.subrange(0, 4) =~= bytes::u32_le(d.virtual_address));
        assert(b.subrange(4, 8) =~= bytes::u32_le(d.size));
        bytes::u32_round_trip(b, 0, d.virtual_address);
        bytes::u32_round_trip(b, 4, d.size);
        window_ints(out, at + 8 * k, b, 0);
        window_ints(out, at + 8 * k, b, 4);
    }
    assert(reader::directory_table(out, at) =~= ds);
}

/// A short name without a zero byte.
spec fn plain_name(name: Seq<char>) -> bool {
    text::utf8(name).len() < 8 && bytes::zero_free(text::utf8(name))
}

proof fn section_names_are_plain()
    ensures
        plain_name(".text"@),
        plain_name(".rsrc"@),
        plain_name(".reloc"@),
{
    reveal_strlit(".text");
    reveal_strlit(".rsrc");
    reveal_strlit(".reloc");
    ascii_is_plain(".text"@);
    ascii_is_plain(".rsrc"@);
    ascii_is_plain(".reloc"@);
}

proof fn ascii_is_plain(t: Seq<char>)
    requires
        t.len() < 8,
        vstd::utf8::is_ascii_chars(t),
        forall|i: int| 0 <= i < t.len() ==> #[trigger] t[i] != '\0',
    ensures
        plain_name(t),
{
    vstd::utf8::is_ascii_chars_encode_utf8(t);
    assert forall|i: int| 0 <= i < text::utf8(t).len() implies text::utf8(t)[i] != 0 by {
        assert(t[i] != '\0');
    }
}

/// A section name field reads back.
proof fn name_field_reads(name: Seq<char>)
    requires
        plain_name(name),
    ensures
        writer::name_field(name).len() == 8,
        text::lossy_text(bytes::until_zero(writer::name_field(name))) == name,
{
    let b = text::utf8(name);
    let f = writer::name_field(name);
    assert forall|i: int| 0 <= i < b.len() implies f[i] != 0 by {
        assert(f[i] == b[i]);
    }
    bytes::zero_from_is(f, 0, b.len() as int);
    assert(f.take(b.len() as int) =~= b);
    text::utf8_round_trip(name);
}

/// A section header reads back.
proof fn section_header_reads(out: Seq<u8>, at: int, s: SectionView, characteristics: u32)
    requires
        bytes::holds_at(out, at, writer::section_header(s, characteristics)),
        plain_name(s.name),
    ensures
        reader::section_at(out, at) == s,
{
    let h = writer::section_header(s, characteristics);
    name_field_reads(s.name);
    assert(h.subrange(0, 8) =~= writer::name_field(s.name));
    assert(h.subrange(8, 12) =~= bytes::u32_le(s.virtual_size));
    assert(h.subrange(12, 16) =~= bytes::u32_le(s.virtual_address));
    assert(h.subrange(16, 20) =~= bytes::u32_le(s.size_of_raw_data));
    assert(h.subrange(20, 24) =~= bytes::u32_le(s.pointer_to_raw_data));
    bytes::u32_round_trip(h, 8, s.virtual_size);
    bytes::u32_round_trip(h, 12, s.virtual_address);
    bytes::u32_round_trip(h, 16, s.size_of_raw_data);
    bytes::u32_round_trip(h, 20, s.pointer_to_raw_data);
    window_range(out, at, h, 0, 8);
    window_ints(out, at, h, 8);
    window_ints(out, at, h, 12);
    window_ints(out, at, h, 16);
    window_ints(out, at, h, 20);
}

/// A section table reads back.
proof fn sections_read(out: Seq<u8>, at: int, sections: Seq<SectionView>, rsrc: bool)
    requires
        bytes::holds_at(out, at, bytes::joined(writer::section_table_parts(sections, rsrc))),
        forall|k: int| 0 <= k < sections.len() ==> plain_name((#[trigger] sections[k]).name),
    ensures
        reader::section_table(out, at, sections.len()) == sections,
{
    let parts = writer::section_table_parts(sections, rsrc);
    assert forall|k: int| 0 <= k < parts.len() implies (#[trigger] parts[k]).len() == 40 by {
        assert(plain_name(sections[k].name));
    }
    assert forall|k: int| 0 <= k < sections.len() implies reader::section_at(out, at + 40 * k)
        == sections[k] by {
        bytes::joined_uniform(parts, 40, k);
        bytes::joined_part(parts, k);
        bytes::holds_within(out, at, bytes::joined(parts), 40 * k, parts[k]);
        section_header_reads(
            out,
            at + 40 * k,
            sections[k],
            writer::section_characteristics(k, rsrc),
        );
    }
    assert(reader::section_table(out, at, sections.len()) =~= sections);
}

/// What the CLI header of a rebuilt image says.
pub open spec fn rebuilt_cli_header(l: Layout, metadata: int, flags: u32, entry: Token) -> CliHeader {
    let resources = textmap::range_directory(writer::range(l.resources, l.data));
    let strong_name = textmap::range_directory(writer::range(l.strong_name, l.metadata));
    CliHeader {
        cb: 72,
        runtime_major: 2,
        runtime_minor: 5,
        metadata_rva: l.metadata as u64,
        metadata_size: metadata as u64,
        flags,
        entry_point_token: entry,
        resources_rva: resources.virtual_address as u64,
        resources_size: resources.size as u64,
        strong_name_rva: strong_name.virtual_address as u64,
        strong_name_size: strong_name.size as u64,
        ..image::blank_cli_header()
    }
}

proof fn six_directories(
    out: Seq<u8>,
    at: int,
    a: DataDirectory,
    b: DataDirectory,
    c: DataDirectory,
)
    requires
        bytes::holds_at(
            out,
            at,
            writer::directory_bytes(a) + writer::directory_bytes(b) + writer::directory_bytes(c)
                + writer::directory_bytes(c) + writer::directory_bytes(c) + writer::directory_bytes(c),
        ),
    ensures
        reader::directory_at(out, at) == a,
        reader::directory_at(out, at + 8) == b,
        reader::directory_at(out, at + 16) == c,
        reader::directory_at(out, at + 24) == c,
        reader::directory_at(out, at + 32) == c,
        reader::directory_at(out, at + 40) == c,
{
    let h = writer::directory_bytes(a) + writer::directory_bytes(b) + writer::directory_bytes(c)
        + writer::directory_bytes(c) + writer::directory_bytes(c) + writer::directory_bytes(c);
    assert(h.subrange(0, 8) =~= writer::directory_bytes(a));
    assert(h.subrange(8, 16) =~= writer::directory_bytes(b));
    assert(h.subrange(16, 24) =~= writer::directory_bytes(c));
    assert(h.subrange(24, 32) =~= writer::directory_bytes(c));
    assert(h.subrange(32, 40) =~= writer::directory_bytes(c));
    assert(h.subrange(40, 48) =~= writer::directory_bytes(c));
    one_directory(out, at, h, 0, a);
    one_directory(out, at, h, 8, b);
    one_directory(out, at, h, 16, c);
    one_directory(out, at, h, 24, c);
    one_directory(out, at, h, 32, c);
    one_directory(out, at, h, 40, c);
}

proof fn one_directory(out: Seq<u8>, at: int, h: Seq<u8>, i: int, d: DataDirectory)
    requires
        bytes::holds_at(out, at, h),
        bytes::holds_at(h, i, writer::directory_bytes(d)),
    ensures
        reader::directory_at(out, at + i) == d,
{
    let b = writer::directory_bytes(d);
    bytes::holds_within(out, at, h, i, b);
    assert(b.subrange(0, 4) =~= bytes::u32_le(d.virtual_address));
    assert(b.subrange(4, 8) =~= bytes::u32_le(d.size));
    bytes::u32_round_trip(b, 0, d.virtual_address);
    bytes::u32_round_trip(b, 4, d.size);
    window_ints(out, at + i, b, 0);
    window_ints(out, at + i, b, 4);
}

/// The CLI header of a rebuilt image reads back.
proof fn cli_header_reads(
    out: Seq<u8>,
    at: int,
    l: Layout,
    metadata: int,
    flags: u32,
    entry: Token,
)
    requires
        bytes::holds_at(out, at, writer::cli_header_bytes(l, metadata, flags, entry)),
        0 <= l.metadata <= u32::MAX,
        0 <= metadata <= u32::MAX,
    ensures
        reader::cli_header_at(out, at) == Some(rebuilt_cli_header(l, metadata, flags, entry)),
{
    let h = writer::cli_header_bytes(l, metadata, flags, entry);
    let none = DataDirectory::none();
    let resources = textmap::range_directory(writer::range(l.resources, l.data));
    let strong_name = textmap::range_directory(writer::range(l.strong_name, l.metadata));
    let tail = writer::directory_bytes(resources) + writer::directory_bytes(strong_name)
        + writer::directory_bytes(none) + writer::directory_bytes(none) + writer::directory_bytes(
        none,
    ) + writer::directory_bytes(none);
    assert(h.subrange(0, 4) =~= bytes::u32_le(72));
    assert(h.subrange(4, 6) =~= bytes::u16_le(2));
    assert(h.subrange(6, 8) =~= bytes::u16_le(5));
    assert(h.subrange(8, 12) =~= bytes::u32_le(l.metadata as u32));
    assert(h.subrange(12, 16) =~= bytes::u32_le(metadata as u32));
    assert(h.subrange(16, 20) =~= bytes::u32_le(flags));
    assert(h.subrange(20, 24) =~= bytes::u32_le(entry.0));
    assert(h.subrange(24, 72) =~= tail);
    bytes::u32_round_trip(h, 0, 72);
    bytes::u16_round_trip(h, 4, 2);
    bytes::u16_round_trip(h, 6, 5);
    bytes::u32_round_trip(h, 8, l.metadata as u32);
    bytes::u32_round_trip(h, 12, metadata as u32);
    bytes::u32_round_trip(h, 16, flags);
    bytes::u32_round_trip(h, 20, entry.0);
    window_ints(out, at, h, 0);
    window_ints(out, at, h, 4);
    window_ints(out, at, h, 6);
    window_ints(out, at, h, 8);
    window_ints(out, at, h, 12);
    window_ints(out, at, h, 16);
    window_ints(out, at, h, 20);
    bytes::holds_within(out, at, h, 24, tail);
    six_directories(out, at + 24, resources, strong_name, none);
}

/// The sections of a rebuilt image follow one another in the file.
proof fn section_offsets(m: ImageView, p: PartsView)
    requires
        writer::rebuild_fits(m.architecture.wide(), m.architecture.0 == 0x014C, p),
    ensures
        ({
            let native = m.architecture.0 == 0x014C;
            let l = writer::image_layout(m, p);
            let v = writer::image_sections(m, p);
            let n = v.len();
            &&& 1 <= n <= 3
            &&& n == 1 + (if p.win32_resources is Some {
                1int
            } else {
                0
            }) + if native {
                1int
            } else {
                0
            }
            &&& v[0].name == ".text"@ && v[0].virtual_address == 0x2000 && v[0].virtual_size == l.end
                - 0x2000 && v[0].pointer_to_raw_data == 0x200
            &&& v[0].virtual_size <= v[0].size_of_raw_data
            &&& p.win32_resources is Some ==> v[1].name == ".rsrc"@ && v[1].pointer_to_raw_data
                == v[0].pointer_to_raw_data + v[0].size_of_raw_data && v[1].size_of_raw_data
                >= p.win32_resources->Some_0.len()
            &&& native ==> v[n - 1].name == ".reloc"@ && v[n - 1].pointer_to_raw_data == v[n
                - 2].pointer_to_raw_data + v[n - 2].size_of_raw_data && v[n - 1].size_of_raw_data
                >= 12
            &&& forall|k: int| 0 <= k < n ==> plain_name((#[trigger] v[k]).name)
        }),
{
    let wide = m.architecture.wide();
    let native = m.architecture.0 == 0x014C;
    let l = writer::image_layout(m, p);
    let v = writer::image_sections(m, p);
    writer::layout_is_ordered(wide, native, p);
    section_names_are_plain();
    textmap::align_up_bounds((l.end - 0x2000) as u32, 0x200);
    textmap::align_up_bounds(p.resource_length() as u32, 0x200);
    textmap::align_up_bounds(12, 0x200);
    assert(writer::section_fits(v[0]));
    if v.len() >= 2 {
        assert(writer::section_fits(v[1]));
    }
    if v.len() >= 3 {
        assert(writer::section_fits(v[2]));
    }
}

/// What a rebuilt image holds follows its headers in order.
proof fn rebuilt_items_in_order(m: ImageView, p: PartsView, entry: Token, timestamp: u32, rsrc: Seq<u8>)
    requires
        writer::rebuild_fits(m.architecture.wide(), m.architecture.0 == 0x014C, p),
        p.win32_resources is Some ==> rsrc.len() == p.win32_resources->Some_0.len(),
    ensures
        ({
            let l = writer::image_layout(m, p);
            let v = writer::image_sections(m, p);
            in_order(
                writer::rebuilt_headers(m, p, l, v, timestamp).len(),
                writer::rebuilt_items(m, p, l, v, entry, rsrc),
            )
        }),
{
    let native = m.architecture.0 == 0x014C;
    let l = writer::image_layout(m, p);
    let v = writer::image_sections(m, p);
    section_offsets(m, p);
    writer::layout_is_ordered(m.architecture.wide(), native, p);
    writer::headers_length(m, p, l, v, timestamp);
    writer::debug_bytes_length(
        p,
        l.metadata_end + p.debug_records_length(),
        writer::text_offset(l.debug) + p.debug_records_length(),
    );
    reveal(writer::rebuilt_items);
    assert(writer::cli_header_bytes(l, p.metadata.len() as int, m.cli_header.flags, entry).len() == 72);
    assert(writer::import_directory(l).len() == 44);
    assert(writer::hint_name_table(m.kind).len() == 27);
    assert(writer::startup_stub().len() == 6);
    assert(writer::relocation_block(l).len() == 12);
}

/// Everything that a reader looks at in a rebuilt image.
spec fn stands(
    out: Seq<u8>,
    m: ImageView,
    p: PartsView,
    l: Layout,
    v: Seq<SectionView>,
    entry: Token,
    timestamp: u32,
) -> bool {
    let native = m.architecture.0 == 0x014C;
    &&& bytes::holds_at(out, 0, writer::DOS_HEADER@)
    &&& bytes::holds_at(out, 128, writer::file_header(m, v.len() as int, timestamp))
    &&& exists|a: u32, b: u32, c: u32|
        bytes::holds_at(out, 152, #[trigger] writer::standard_fields(m, a, b, c))
    &&& bytes::holds_at(out, 200, bytes::u16_le(m.subsystem_major))
    &&& bytes::holds_at(out, 202, bytes::u16_le(m.subsystem_minor))
    &&& bytes::holds_at(out, 220, bytes::u16_le(writer::subsystem_of(m.kind)))
    &&& bytes::holds_at(out, 222, bytes::u16_le(m.dll_characteristics))
    &&& bytes::holds_at(
        out,
        128 + after(m),
        bytes::joined(
            writer::directory_table_parts(writer::rebuilt_directories(native, l, p, v)),
        ),
    )
    &&& bytes::holds_at(
        out,
        256 + after(m),
        bytes::joined(writer::section_table_parts(v, p.win32_resources is Some)),
    )
    &&& bytes::holds_at(
        out,
        writer::text_offset(l.cli),
        writer::cli_header_bytes(l, p.metadata.len() as int, m.cli_header.flags, entry),
    )
    &&& bytes::holds_at(out, writer::text_offset(l.metadata), p.metadata)
    &&& bytes::holds_at(
        out,
        writer::text_offset(l.debug),
        writer::debug_bytes(
            p.debug_entries,
            l.metadata_end + p.debug_records_length(),
            writer::text_offset(l.debug) + p.debug_records_length(),
        ),
    )
    &&& out.len() == v.last().pointer_to_raw_data + v.last().size_of_raw_data
}

/// The items that a reader looks at.
proof fn rebuilt_items_shape(
    m: ImageView,
    p: PartsView,
    l: Layout,
    v: Seq<SectionView>,
    entry: Token,
    rsrc: Seq<u8>,
)
    ensures
        ({
            let items = writer::rebuilt_items(m, p, l, v, entry, rsrc);
            &&& items.len() >= 7
            &&& items[0] == (
                0x200int,
                writer::import_address_table(m.architecture.0 == 0x014C, l)
                    + writer::cli_header_bytes(
                    l,
                    p.metadata.len() as int,
                    m.cli_header.flags,
                    entry,
                ),
            )
            &&& items[4] == (writer::text_offset(l.metadata), p.metadata)
            &&& items[5] == (
                writer::text_offset(l.debug),
                writer::debug_bytes(
                    p.debug_entries,
                    l.metadata_end + p.debug_records_length(),
                    writer::text_offset(l.debug) + p.debug_records_length(),
                ),
            )
            &&& items.last() == (
                v.last().pointer_to_raw_data + v.last().size_of_raw_data,
                Seq::<u8>::empty(),
            )
        }),
{
    reveal(writer::rebuilt_items);
}

/// The headers that a reader looks at stand in every file that starts with
/// them.
proof fn headers_stand(
    out: Seq<u8>,
    m: ImageView,
    p: PartsView,
    l: Layout,
    v: Seq<SectionView>,
    timestamp: u32,
)
    requires
        1 <= v.len() <= 3,
        bytes::holds_at(out, 0, writer::rebuilt_headers(m, p, l, v, timestamp)),
    ensures
        bytes::holds_at(out, 0, writer::DOS_HEADER@),
        bytes::holds_at(out, 128, writer::file_header(m, v.len() as int, timestamp)),
        exists|a: u32, b: u32, c: u32|
            bytes::holds_at(out, 152, #[trigger] writer::standard_fields(m, a, b, c)),
        bytes::holds_at(out, 200, bytes::u16_le(m.subsystem_major)),
        bytes::holds_at(out, 202, bytes::u16_le(m.subsystem_minor)),
        bytes::holds_at(out, 220, bytes::u16_le(writer::subsystem_of(m.kind))),
        bytes::holds_at(out, 222, bytes::u16_le(m.dll_characteristics)),
        bytes::holds_at(
            out,
            128 + after(m),
            bytes::joined(
                writer::directory_table_parts(
                    writer::rebuilt_directories(m.architecture.0 == 0x014C, l, p, v),
                ),
            ),
        ),
        bytes::holds_at(
            out,
            256 + after(m),
            bytes::joined(writer::section_table_parts(v, p.win32_resources is Some)),
        ),
{
    let native = m.architecture.0 == 0x014C;
    let h = writer::rebuilt_headers(m, p, l, v, timestamp);
    header_blocks(m, p, l, v, timestamp);
    bytes::holds_within(out, 0, h, 0, writer::DOS_HEADER@);
    bytes::holds_within(out, 0, h, 128, writer::file_header(m, v.len() as int, timestamp));
    let (a, b, c) = choose|a: u32, b: u32, c: u32|
        bytes::holds_at(h, 152, #[trigger] writer::standard_fields(m, a, b, c));
    bytes::holds_within(out, 0, h, 152, writer::standard_fields(m, a, b, c));
    let size = choose|size: u32| bytes::holds_at(h, 184, #[trigger] writer::windows_fields(m, size));
    let wf = writer::windows_fields(m, size);
    bytes::holds_within(out, 0, h, 184, wf);
    windows_fields_stand(m, size);
    bytes::holds_within(out, 184, wf, 16, bytes::u16_le(m.subsystem_major));
    bytes::holds_within(out, 184, wf, 18, bytes::u16_le(m.subsystem_minor));
    bytes::holds_within(out, 184, wf, 36, bytes::u16_le(writer::subsystem_of(m.kind)));
    bytes::holds_within(out, 184, wf, 38, bytes::u16_le(m.dll_characteristics));
    bytes::holds_within(
        out,
        0,
        h,
        128 + after(m),
        bytes::joined(
            writer::directory_table_parts(writer::rebuilt_directories(native, l, p, v)),
        ),
    );
    bytes::holds_within(
        out,
        0,
        h,
        256 + after(m),
        bytes::joined(writer::section_table_parts(v, p.win32_resources is Some)),
    );
}

proof fn rebuilt_file_stands(m: ImageView, p: PartsView, entry: Token, timestamp: u32, rsrc: Seq<u8>)
    requires
        writer::rebuild_fits(m.architecture.wide(), m.architecture.0 == 0x014C, p),
        p.win32_resources is Some ==> rsrc.len() == p.win32_resources->Some_0.len(),
    ensures
        stands(
            writer::rebuilt_file(m, p, entry, timestamp, rsrc),
            m,
            p,
            writer::image_layout(m, p),
            writer::image_sections(m, p),
            entry,
            timestamp,
        ),
{
    let native = m.architecture.0 == 0x014C;
    let l = writer::image_layout(m, p);
    let v = writer::image_sections(m, p);
    let h = writer::rebuilt_headers(m, p, l, v, timestamp);
    let items = writer::rebuilt_items(m, p, l, v, entry, rsrc);
    let out = writer::rebuilt_file(m, p, entry, timestamp, rsrc);
    section_offsets(m, p);
    rebuilt_items_in_order(m, p, entry, timestamp, rsrc);
    placed_items_stand(h, items);
    headers_stand(out, m, p, l, v, timestamp);
    writer::layout_is_ordered(m.architecture.wide(), native, p);
    rebuilt_items_shape(m, p, l, v, entry, rsrc);
    let table = writer::import_address_table(native, l);
    let cli = writer::cli_header_bytes(l, p.metadata.len() as int, m.cli_header.flags, entry);
    assert(bytes::holds_at(out, items[0].0, items[0].1));
    assert(bytes::holds_at(out, items[4].0, items[4].1));
    assert(bytes::holds_at(out, items[5].0, items[5].1));
    bytes::holds_in_concat(table, cli, Seq::empty());
    bytes::holds_within(out, 0x200, table + cli, table.len() as int, cli);
}

proof fn checksum_stands(
    s: Seq<u8>,
    m: ImageView,
    p: PartsView,
    l: Layout,
    v: Seq<SectionView>,
    entry: Token,
    timestamp: u32,
)
    requires
        stands(s, m, p, l, v, entry, timestamp),
        l.cli >= 0x2000,
        l.metadata >= 0x2000,
        l.debug >= 0x2000,
        s.len() >= 0x200,
    ensures
        stands(checksum::with_checksum(s, 216), m, p, l, v, entry, timestamp),
{
    let native = m.architecture.0 == 0x014C;
    checksum_keeps(s, 216, 0, writer::DOS_HEADER@);
    checksum_keeps(s, 216, 128, writer::file_header(m, v.len() as int, timestamp));
    let (a, b, c) = choose|a: u32, b: u32, c: u32|
        bytes::holds_at(s, 152, #[trigger] writer::standard_fields(m, a, b, c));
    assert(writer::standard_fields(m, a, b, c).len() == 32);
    checksum_keeps(s, 216, 152, writer::standard_fields(m, a, b, c));
    checksum_keeps(s, 216, 200, bytes::u16_le(m.subsystem_major));
    checksum_keeps(s, 216, 202, bytes::u16_le(m.subsystem_minor));
    checksum_keeps(s, 216, 220, bytes::u16_le(writer::subsystem_of(m.kind)));
    checksum_keeps(s, 216, 222, bytes::u16_le(m.dll_characteristics));
    checksum_keeps(
        s,
        216,
        128 + after(m),
        bytes::joined(
            writer::directory_table_parts(writer::rebuilt_directories(native, l, p, v)),
        ),
    );
    checksum_keeps(
        s,
        216,
        256 + after(m),
        bytes::joined(writer::section_table_parts(v, p.win32_resources is Some)),
    );
    checksum_keeps(
        s,
        216,
        writer::text_offset(l.cli),
        writer::cli_header_bytes(l, p.metadata.len() as int, m.cli_header.flags, entry),
    );
    checksum_keeps(s, 216, writer::text_offset(l.metadata), p.metadata);
    checksum_keeps(
        s,
        216,
        writer::text_offset(l.debug),
        writer::debug_bytes(
            p.debug_entries,
            l.metadata_end + p.debug_records_length(),
            writer::text_offset(l.debug) + p.debug_records_length(),
        ),
    );
}

/// The debug entry that a reader finds for an entry of the parts.
pub open spec fn rebuilt_debug_entry(out: Seq<u8>, p: PartsView, l: Layout, k: int) -> DebugEntryView {
    reader::debug_entry_at(out, writer::text_offset(l.debug) + 28 * k)
}

/// What a reader makes of a rebuilt image.
pub open spec fn rebuilt_view(w: WriterView, p: PartsView, out: Seq<u8>) -> ImageView {
    let m = w.image;
    let l = writer::image_layout(m, p);
    let v = writer::image_sections(m, p);
    let (version, streams) = reader::root_at(p.metadata, 0)->Some_0;
    ImageView {
        raw: out,
        pe_offset: 128,
        kind: image::kind_of(m.characteristics, writer::subsystem_of(m.kind)),
        architecture: m.architecture,
        characteristics: m.characteristics,
        dll_characteristics: m.dll_characteristics,
        linker_version: m.linker_version,
        subsystem_major: m.subsystem_major,
        subsystem_minor: m.subsystem_minor,
        timestamp: match w.timestamp {
            Some(t) => t,
            None => m.timestamp,
        },
        runtime_version: version,
        sections: v,
        metadata_section: 0,
        cli_header: rebuilt_cli_header(
            l,
            p.metadata.len() as int,
            m.cli_header.flags,
            w.rebuilt_entry(p),
        ),
        cli_directory: DataDirectory {
            virtual_address: l.cli as u32,
            size: (l.code - l.cli) as u32,
        },
        data_directories: writer::rebuilt_directories(m.architecture.0 == 0x014C, l, p, v),
        streams,
        debug_entries: Seq::new(
            p.debug_entries.len(),
            |k: int| rebuilt_debug_entry(out, p, l, k),
        ),
    }
}

/// An address in the text section of a rebuilt image is mapped to where it was
/// placed.
proof fn text_addresses_resolve(m: ImageView, p: PartsView, rva: u32)
    requires
        writer::rebuild_fits(m.architecture.wide(), m.architecture.0 == 0x014C, p),
        0x2000 <= rva < writer::image_layout(m, p).end,
    ensures
        section::mapping_section(writer::image_sections(m, p), rva, 0) == Some(0int),
        section::backing_section(writer::image_sections(m, p), rva, 0) == Some(0int),
        reader::resolved(rva, writer::image_sections(m, p)) == Some(
            writer::text_offset(rva as int),
        ),
{
    section_offsets(m, p);
    writer::layout_is_ordered(m.architecture.wide(), m.architecture.0 == 0x014C, p);
    let v = writer::image_sections(m, p);
    assert(v[0].maps(rva));
    assert(v[0].backs(rva));
}

proof fn rebuilt_bytes_parse(
    out: Seq<u8>,
    m: ImageView,
    p: PartsView,
    entry: Token,
    timestamp: u32,
    w: WriterView,
)
    requires
        w.image == m,
        entry == w.rebuilt_entry(p),
        timestamp == match w.timestamp {
            Some(t) => t,
            None => m.timestamp,
        },
        writer::rebuild_fits(m.architecture.wide(), m.architecture.0 == 0x014C, p),
        stands(
            out,
            m,
            p,
            writer::image_layout(m, p),
            writer::image_sections(m, p),
            entry,
            timestamp,
        ),
        reader::root_at(p.metadata, 0) is Some,
    ensures
        reader::parsed_image(out) == Some(rebuilt_view(w, p, out)),
{
    let native = m.architecture.0 == 0x014C;
    let l = writer::image_layout(m, p);
    let v = writer::image_sections(m, p);
    section_offsets(m, p);
    writer::layout_is_ordered(m.architecture.wide(), native, p);
    dos_header_reads();
    window_ints(out, 0, writer::DOS_HEADER@, 0);
    window_ints(out, 0, writer::DOS_HEADER@, 0x3C);
    file_header_reads(out, m, v.len() as int, timestamp);
    let (a, b, c) = choose|a: u32, b: u32, c: u32|
        bytes::holds_at(out, 152, #[trigger] writer::standard_fields(m, a, b, c));
    standard_fields_read(out, m, a, b, c);
    bytes::u16_round_trip(out, 200, m.subsystem_major);
    bytes::u16_round_trip(out, 202, m.subsystem_minor);
    bytes::u16_round_trip(out, 220, writer::subsystem_of(m.kind));
    bytes::u16_round_trip(out, 222, m.dll_characteristics);
    let ds = writer::rebuilt_directories(native, l, p, v);
    directories_read(out, 128 + after(m), ds);
    sections_read(out, 256 + after(m), v, p.win32_resources is Some);
    assert(256 + after(m) + 40 * v.len() <= out.len());
    text_addresses_resolve(m, p, l.cli as u32);
    cli_header_reads(
        out,
        writer::text_offset(l.cli),
        l,
        p.metadata.len() as int,
        m.cli_header.flags,
        entry,
    );
    text_addresses_resolve(m, p, l.metadata as u32);
    root_reads_in_place(out, writer::text_offset(l.metadata), p.metadata);
    writer::debug_bytes_length(
        p,
        l.metadata_end + p.debug_records_length(),
        writer::text_offset(l.debug) + p.debug_records_length(),
    );
    let n = p.debug_entries.len();
    if n > 0 {
        text_addresses_resolve(m, p, l.debug as u32);
        assert(p.debug_records_length() / 28 == n);
    }
    assert(reader::debug_table(out, ds[6], v)->Some_0 =~= Seq::new(
        n,
        |k: int| rebuilt_debug_entry(out, p, l, k),
    ));
    reveal(reader::image_at);
}

/// A rebuilt image is one that a reader accepts. The reader finds the machine,
/// the characteristics, the versions and the timestamp of the image that was
/// rebuilt, the new sections, and a CLI header that leads to the metadata root
/// and names the entry point. This holds of every metadata root that reads on
/// its own.
pub proof fn rebuilt_image_parses(w: WriterView, p: PartsView)
    requires
        w.parts == Some(p),
        w.emittable(),
        reader::root_at(p.metadata, 0) is Some,
        writer::moved_resources(w.image, p, writer::image_sections(w.image, p)) is Some,
    ensures
        w.emitted() is Ok,
        reader::parsed_image(w.emitted()->Ok_0) == Some(rebuilt_view(w, p, w.emitted()->Ok_0)),
        bytes::holds_at(
            w.emitted()->Ok_0,
            writer::text_offset(writer::image_layout(w.image, p).metadata),
            p.metadata,
        ),
{
    let m = w.image;
    let l = writer::image_layout(m, p);
    let v = writer::image_sections(m, p);
    let rsrc = writer::moved_resources(m, p, v)->Some_0;
    let entry = w.rebuilt_entry(p);
    let timestamp = match w.timestamp {
        Some(t) => t,
        None => m.timestamp,
    };
    if let Some(r) = p.win32_resources {
        resources::rebasing_keeps_length(
            r,
            m.data_directories[2].virtual_address,
            v[1].virtual_address,
        );
    }
    let file = writer::rebuilt_file(m, p, entry, timestamp, rsrc);
    writer::layout_is_ordered(m.architecture.wide(), m.architecture.0 == 0x014C, p);
    section_offsets(m, p);
    rebuilt_file_stands(m, p, entry, timestamp, rsrc);
    if w.compute_checksum {
        checksum_stands(file, m, p, l, v, entry, timestamp);
    }
    rebuilt_bytes_parse(w.emitted()->Ok_0, m, p, entry, timestamp, w);
}

/// The record and the payload of a debug entry stand in the debug directory.
proof fn debug_entry_stands(entries: Seq<DebugEntryView>, address: int, pointer: int, k: int)
    requires
        0 <= k < entries.len(),
    ensures
        bytes::holds_at(
            writer::debug_bytes(entries, address, pointer),
            28 * k,
            writer::debug_record(
                entries[k],
                address + writer::payload_offset(entries, k),
                pointer + writer::payload_offset(entries, k),
            ),
        ),
        bytes::holds_at(
            writer::debug_bytes(entries, address, pointer),
            (28 * entries.len() + writer::payload_offset(entries, k)) as int,
            entries[k].data,
        ),
        writer::payload_offset(entries, k) + entries[k].data.len() <= bytes::joined(
            writer::debug_payloads(entries),
        ).len(),
{
    reveal(writer::debug_bytes);
    let records = writer::debug_records(entries, address, pointer);
    let payloads = writer::debug_payloads(entries);
    bytes::joined_uniform(records, 28, k);
    bytes::joined_uniform(records, 28, records.len() as int);
    assert(records.take(records.len() as int) =~= records);
    bytes::joined_part(records, k);
    bytes::joined_part(payloads, k);
    bytes::holds_extended(bytes::joined(records), bytes::joined(payloads), 28 * k, records[k]);
    bytes::holds_shifted(
        bytes::joined(records),
        bytes::joined(payloads),
        writer::payload_offset(entries, k) as int,
        payloads[k],
    );
}

proof fn debug_record_reads(out: Seq<u8>, at: int, e: DebugEntryView, address: int, pointer: int)
    requires
        bytes::holds_at(out, at, writer::debug_record(e, address, pointer)),
        e.data.len() > 0,
        0 <= pointer <= i32::MAX,
    ensures
        reader::debug_directory_at(out, at).kind == e.directory.kind,
        reader::debug_directory_at(out, at).size_of_data == e.directory.size_of_data,
        reader::debug_directory_at(out, at).pointer_to_raw_data == pointer,
{
    let d = e.directory;
    let h = writer::debug_record(e, address, pointer);
    bytes::signed_round_trip(0, 0, d.kind, 0);
    bytes::signed_round_trip(0, 0, d.size_of_data, 0);
    assert(h.subrange(12, 16) =~= bytes::u32_le(bytes::u32_of(d.kind)));
    assert(h.subrange(16, 20) =~= bytes::u32_le(bytes::u32_of(d.size_of_data)));
    assert(h.subrange(24, 28) =~= bytes::u32_le(pointer as u32));
    bytes::u32_round_trip(h, 12, bytes::u32_of(d.kind));
    bytes::u32_round_trip(h, 16, bytes::u32_of(d.size_of_data));
    bytes::u32_round_trip(h, 24, pointer as u32);
    window_ints(out, at, h, 12);
    window_ints(out, at, h, 16);
    window_ints(out, at, h, 24);
}

/// The payload of every debug entry whose record gives its size reads back
/// from a rebuilt image of less than two gigabytes.
pub proof fn rebuilt_debug_payloads_read_back(w: WriterView, p: PartsView, k: int)
    requires
        w.parts == Some(p),
        w.emittable(),
        reader::root_at(p.metadata, 0) is Some,
        writer::moved_resources(w.image, p, writer::image_sections(w.image, p)) is Some,
        w.emitted()->Ok_0.len() <= i32::MAX,
        0 <= k < p.debug_entries.len(),
        p.debug_entries[k].data.len() > 0,
        p.debug_entries[k].directory.size_of_data == p.debug_entries[k].data.len(),
    ensures
        reader::parsed_image(w.emitted()->Ok_0) is Some,
        ({
            let entry = reader::parsed_image(w.emitted()->Ok_0)->Some_0.debug_entries[k];
            &&& entry.data == p.debug_entries[k].data
            &&& entry.directory.kind == p.debug_entries[k].directory.kind
        }),
{
    rebuilt_image_parses(w, p);
    let out = w.emitted()->Ok_0;
    let m = w.image;
    let l = writer::image_layout(m, p);
    let e = p.debug_entries[k];
    let at = writer::text_offset(l.debug);
    let address = l.metadata_end + p.debug_records_length();
    let pointer = at + p.debug_records_length();
    let offset = writer::payload_offset(p.debug_entries, k);
    writer::layout_is_ordered(m.architecture.wide(), m.architecture.0 == 0x014C, p);
    debug_directory_stands(w, p);
    let debug = writer::debug_bytes(p.debug_entries, address, pointer);
    debug_entry_stands(p.debug_entries, address, pointer, k);
    let record = writer::debug_record(e, address + offset, pointer + offset);
    bytes::holds_within(out, at, debug, 28 * k, record);
    bytes::holds_within(
        out,
        at,
        debug,
        (28 * p.debug_entries.len() + offset) as int,
        e.data,
    );
    debug_record_reads(out, at + 28 * k, e, address + offset, pointer + offset);
}

/// The debug directory stands in a rebuilt image.
proof fn debug_directory_stands(w: WriterView, p: PartsView)
    requires
        w.parts == Some(p),
        w.emittable(),
        p.metadata.len() > 0,
        writer::moved_resources(w.image, p, writer::image_sections(w.image, p)) is Some,
    ensures
        ({
            let l = writer::image_layout(w.image, p);
            bytes::holds_at(
                w.emitted()->Ok_0,
                writer::text_offset(l.debug),
                writer::debug_bytes(
                    p.debug_entries,
                    l.metadata_end + p.debug_records_length(),
                    writer::text_offset(l.debug) + p.debug_records_length(),
                ),
            )
        }),
{
    let m = w.image;
    let l = writer::image_layout(m, p);
    let v = writer::image_sections(m, p);
    let rsrc = writer::moved_resources(m, p, v)->Some_0;
    let entry = w.rebuilt_entry(p);
    let timestamp = match w.timestamp {
        Some(t) => t,
        None => m.timestamp,
    };
    if let Some(r) = p.win32_resources {
        resources::rebasing_keeps_length(
            r,
            m.data_directories[2].virtual_address,
            v[1].virtual_address,
        );
    }
    writer::layout_is_ordered(m.architecture.wide(), m.architecture.0 == 0x014C, p);
    section_offsets(m, p);
    rebuilt_file_stands(m, p, entry, timestamp, rsrc);
    if w.compute_checksum {
        checksum_stands(
            writer::rebuilt_file(m, p, entry, timestamp, rsrc),
            m,
            p,
            l,
            v,
            entry,
            timestamp,
        );
    }
}

/// The timestamp of every image that was parsed can be overridden in place.
pub proof fn parsed_images_take_timestamps(raw: Seq<u8>)
    ensures
        reader::parsed_image(raw) matches Some(m) ==> m.raw == raw && m.pe_offset + 12
            <= m.raw.len(),
{
    reveal(reader::image_at);
}

} // verus!
