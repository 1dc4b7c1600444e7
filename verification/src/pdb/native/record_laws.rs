//! Where the fields of the records of a native PDB stand, and what their kinds
//! are.

use vstd::prelude::*;

use crate::bytes;
use crate::encoding_laws;
use crate::pdb::native::dbi;
use crate::pdb::native::functions;
use crate::pdb::native::functions::FunctionView;
use crate::pdb::native::line_programs;
use crate::pdb::native::msf;
use crate::pdb::native::msf::MsfView;
use crate::pdb::native::names;
use crate::pdb::native::symbols;
use crate::text;

verus! {

/// The kinds of symbol records.
pub proof fn record_kinds()
    ensures
        functions::S_END == 0x6,
        functions::S_BLOCK32_ST == 0x1003,
        functions::S_PUB32_ST == 0x1009,
        functions::S_LPROC32_ST == 0x100A,
        functions::S_GPROC32_ST == 0x100B,
        functions::S_BLOCK32 == 0x1103,
        functions::S_PUB32 == 0x110E,
        functions::S_LPROC32 == 0x110F,
        functions::S_GPROC32 == 0x1110,
        functions::S_GMANPROC == 0x112A,
        functions::S_LMANPROC == 0x112B,
        line_programs::LINES == 0xF2,
        line_programs::FILECHKSMS == 0xF4,
{
}

/// Functions are taken from managed procedures; these, other procedures and
/// blocks open scopes.
pub proof fn scopes(kind: u16, depth: int)
    ensures
        functions::managed(kind) <==> kind == 0x112A || kind == 0x112B,
        functions::opens_scope(kind) <==> kind == 0x112A || kind == 0x112B || kind == 0x1110 || kind
            == 0x110F || kind == 0x100B || kind == 0x100A || kind == 0x1103 || kind == 0x1003,
        functions::opens_scope(kind) ==> functions::depth_after(kind, depth) == depth + 1,
        kind == 0x6 && depth > 0 ==> functions::depth_after(kind, depth) == depth - 1,
        kind == 0x6 && depth <= 0 ==> functions::depth_after(kind, depth) == depth,
        kind != 0x6 && !functions::opens_scope(kind) ==> functions::depth_after(kind, depth) == depth,
        functions::starts_function(kind, depth) <==> (kind == 0x112A || kind == 0x112B) && depth == 0,
{
}

/// A name that stands at a place, with a zero behind it, is read there.
pub proof fn names_are_read(s: Seq<u8>, at: int, t: Seq<char>)
    requires
        0 <= at,
        bytes::zero_free(text::utf8(t)),
        bytes::holds_at(s, at, text::utf8(t).push(0)),
    ensures
        dbi::cstring_at(s, at) == Some((t, at + text::utf8(t).len() + 1)),
{
    let b = text::utf8(t);
    let part = b.push(0);
    let window = s.subrange(at, at + part.len());
    let z = at + b.len();
    assert forall|k: int| at <= k <= z implies s[k] == part[k - at] by {
        assert(window[k - at] == s[k]);
    }
    bytes::zero_from_is(s, at, z);
    assert(s.subrange(at, z) =~= b);
    text::utf8_round_trip(t);
}

/// The record of a managed procedure: no parent and no successor, the token at
/// 24, the address at 28, the first segment at 32, and the name at 37.
pub proof fn procedures_are_read(s: Seq<u8>, at: int, name: Seq<char>)
    requires
        0 <= at,
        bytes::zero_free(text::utf8(name)),
        bytes::holds_at(s, at + 37, text::utf8(name).push(0)),
        encoding_laws::double_word(s, at) == 0,
        encoding_laws::double_word(s, at + 8) == 0,
        encoding_laws::word(s, at + 32) == 1,
    ensures
        functions::proc_at(s, at) == Some(
            FunctionView {
                token: encoding_laws::double_word(s, at + 24) as u32,
                name,
                segment: 1,
                address: encoding_laws::double_word(s, at + 28) as u32,
                ranges: Seq::empty(),
                lines: Seq::empty(),
            },
        ),
{
    encoding_laws::words_agree(s);
    names_are_read(s, at + 37, name);
    assert(bytes::u32_at(s, at) == encoding_laws::double_word(s, at));
    assert(bytes::u32_at(s, at + 8) == encoding_laws::double_word(s, at + 8));
    assert(bytes::u32_at(s, at + 24) == encoding_laws::double_word(s, at + 24));
    assert(bytes::u32_at(s, at + 28) == encoding_laws::double_word(s, at + 28));
    assert(bytes::u16_at(s, at + 32) == encoding_laws::word(s, at + 32));
}

/// A procedure in another segment, or with a parent or a successor, is refused.
pub proof fn nested_procedures_are_refused(s: Seq<u8>, at: int)
    requires
        0 <= at,
        at + 37 <= s.len(),
        encoding_laws::double_word(s, at) != 0 || encoding_laws::double_word(s, at + 8) != 0 || encoding_laws::word(s, at + 32) != 1,
    ensures
        functions::proc_at(s, at) is None,
{
    encoding_laws::words_agree(s);
    assert(bytes::u32_at(s, at) == encoding_laws::double_word(s, at));
    assert(bytes::u32_at(s, at + 8) == encoding_laws::double_word(s, at + 8));
    assert(bytes::u16_at(s, at + 32) == encoding_laws::word(s, at + 32));
}

/// Records follow one another, each behind the number of its bytes. The symbols
/// of a module start with the number 4.
pub proof fn records_follow_one_another(s: Seq<u8>, pos: int, limit: int, depth: int, size: i32)
    requires
        0 <= pos,
    ensures
        pos < limit && pos + 4 <= s.len() && encoding_laws::word(s, pos) >= 2 && pos + 2 + encoding_laws::word(s, pos) <= limit && !(
        (encoding_laws::word(s, pos + 2) == 0x112A || encoding_laws::word(s, pos + 2) == 0x112B) && depth == 0)
            ==> functions::functions_from(s, pos, limit, depth) == functions::functions_from(
            s,
            pos + 2 + encoding_laws::word(s, pos),
            limit,
            functions::depth_after(encoding_laws::word(s, pos + 2) as u16, depth),
        ),
        pos == limit ==> functions::functions_from(s, pos, limit, 0) == Some(
            Seq::<FunctionView>::empty(),
        ),
        pos == limit && depth > 0 ==> functions::functions_from(s, pos, limit, depth) is None,
        size < 4 ==> functions::module_functions(s, size) == Some(Seq::<FunctionView>::empty()),
        4 <= size <= s.len() && encoding_laws::double_word(s, 0) == 4 ==> functions::module_functions(s, size)
            == functions::functions_from(s, 4, size as int, 0),
        4 <= size <= s.len() && encoding_laws::double_word(s, 0) != 4 ==> functions::module_functions(s, size) is None,
{
    encoding_laws::words_agree(s);
    assert(bytes::u16_at(s, pos) == encoding_laws::word(s, pos));
    assert(bytes::u16_at(s, pos + 2) == encoding_laws::word(s, pos + 2));
    assert(bytes::u32_at(s, 0) == encoding_laws::double_word(s, 0));
}

/// A symbol region with one managed procedure and its end gives this function.
pub proof fn one_procedure_is_read(s: Seq<u8>, kind: int, size: int, name: Seq<char>)
    requires
        kind == 0x112A || kind == 0x112B,
        encoding_laws::double_word(s, 0) == 4,
        encoding_laws::word(s, 4) == size,
        encoding_laws::word(s, 6) == kind,
        encoding_laws::double_word(s, 8) == 0,
        encoding_laws::double_word(s, 16) == 0,
        encoding_laws::word(s, 40) == 1,
        bytes::zero_free(text::utf8(name)),
        bytes::holds_at(s, 45, text::utf8(name).push(0)),
        6 + size + 4 <= s.len(),
        40 <= size,
        encoding_laws::word(s, 6 + size) == 2,
        encoding_laws::word(s, 8 + size) == 6,
        10 + size <= i32::MAX,
    ensures
        functions::module_functions(s, (10 + size) as i32) == Some(
            seq![
                FunctionView {
                    token: encoding_laws::double_word(s, 32) as u32,
                    name,
                    segment: 1,
                    address: encoding_laws::double_word(s, 36) as u32,
                    ranges: Seq::empty(),
                    lines: Seq::empty(),
                },
            ],
        ),
{
    encoding_laws::words_agree(s);
    let limit = 10 + size;
    procedures_are_read(s, 8, name);
    assert(bytes::u16_at(s, 4) == encoding_laws::word(s, 4));
    assert(bytes::u16_at(s, 6) == encoding_laws::word(s, 6));
    assert(bytes::u16_at(s, 6 + size) == encoding_laws::word(s, 6 + size));
    assert(bytes::u16_at(s, 8 + size) == encoding_laws::word(s, 8 + size));
    assert(bytes::u32_at(s, 0) == encoding_laws::double_word(s, 0));
    assert(functions::functions_from(s, limit, limit, 0) == Some(Seq::<FunctionView>::empty()));
    assert(functions::functions_from(s, 6 + size, limit, 1) == Some(Seq::<FunctionView>::empty()));
    let f = functions::proc_at(s, 8)->Some_0;
    assert(seq![f] + Seq::<FunctionView>::empty() =~= seq![f]);
}

/// A public symbol has its address at 8 and its name at 14 of its record.
pub proof fn publics_are_read(s: Seq<u8>, pos: int, name: Seq<char>)
    requires
        0 <= pos,
        pos + 4 <= s.len(),
        encoding_laws::word(s, pos) >= 12,
        pos + 2 + encoding_laws::word(s, pos) <= s.len(),
        encoding_laws::word(s, pos + 2) == 0x110E || encoding_laws::word(s, pos + 2) == 0x1009,
        bytes::zero_free(text::utf8(name)),
        bytes::holds_at(s, pos + 14, text::utf8(name).push(0)),
        15 + text::utf8(name).len() <= 2 + encoding_laws::word(s, pos),
    ensures
        functions::publics_from(s, pos) == seq![(name, encoding_laws::double_word(s, pos + 8) as u64)]
            + functions::publics_from(s, pos + 2 + encoding_laws::word(s, pos)),
{
    encoding_laws::words_agree(s);
    let stop = pos + 2 + encoding_laws::word(s, pos);
    assert(bytes::u16_at(s, pos) == encoding_laws::word(s, pos));
    assert(bytes::u16_at(s, pos + 2) == encoding_laws::word(s, pos + 2));
    assert(bytes::u32_at(s, pos + 8) == encoding_laws::double_word(s, pos + 8));
    let b = text::utf8(name);
    let at = pos + 14;
    let part = b.push(0);
    let window = s.subrange(at, at + part.len());
    let z = at + b.len();
    let front = s.take(stop);
    assert forall|k: int| at <= k <= z implies front[k] == part[k - at] by {
        assert(window[k - at] == s[k]);
    }
    bytes::zero_from_is(front, at, z);
    assert(s.subrange(at, z) =~= b);
    text::utf8_round_trip(name);
}

/// Records of other kinds are no public symbols, and a stream that starts with
/// four bytes `FF` has none.
pub proof fn other_records_are_no_publics(s: Seq<u8>, pos: int)
    requires
        0 <= pos,
        pos + 4 <= s.len(),
    ensures
        encoding_laws::word(s, pos) >= 2 && pos + 2 + encoding_laws::word(s, pos) <= s.len() && encoding_laws::word(s, pos + 2) != 0x110E && encoding_laws::word(
            s,
            pos + 2,
        ) != 0x1009 ==> functions::publics_from(s, pos) == functions::publics_from(
            s,
            pos + 2 + encoding_laws::word(s, pos),
        ),
        encoding_laws::double_word(s, 0) == 0xFFFF_FFFF ==> functions::publics_of(s).len() == 0,
        encoding_laws::double_word(s, 0) != 0xFFFF_FFFF && functions::publics_from(s, 0).len() > 0
            ==> functions::publics_of(s) == functions::publics_from(s, 0),
        encoding_laws::double_word(s, 0) != 0xFFFF_FFFF && functions::publics_from(s, 0).len() == 0
            ==> functions::publics_of(s) == functions::publics_from(s, 28),
{
    encoding_laws::words_agree(s);
    assert(bytes::u16_at(s, pos) == encoding_laws::word(s, pos));
    assert(bytes::u16_at(s, pos + 2) == encoding_laws::word(s, pos + 2));
}

/// Functions are ordered by segment, then address, then token.
pub proof fn order_of_functions(a: FunctionView, b: FunctionView)
    ensures
        a.segment > b.segment ==> functions::goes_after(a, b),
        a.segment == b.segment && a.address > b.address ==> functions::goes_after(a, b),
        a.segment == b.segment && a.address == b.address ==> (functions::goes_after(a, b) <==> a.token
            > b.token),
        functions::goes_after(a, b) ==> !functions::goes_after(b, a),
{
}

/// A row map gives the row of the method for each row: the token keeps being that
/// of a method.
pub proof fn rows_are_mapped(f: FunctionView, map: Seq<u8>, row: int)
    requires
        row == f.token & 0x00FF_FFFF,
        4 * row + 4 <= map.len(),
        encoding_laws::double_word(map, 4 * row) <= 0x00FF_FFFF,
    ensures
        functions::row_mapped(f, map),
        functions::with_mapped_token(f, map).token == 0x0600_0000 + encoding_laws::double_word(map, 4 * row),
        functions::with_mapped_token(f, map).name == f.name,
        functions::with_mapped_token(f, map).address == f.address,
        functions::with_mapped_token(f, map).segment == f.segment,
        functions::with_mapped_token(f, map).lines == f.lines,
        functions::with_mapped_token(f, map).ranges == f.ranges,
{
    encoding_laws::words_agree(map);
    let t = f.token;
    assert(t & 0x00FF_FFFF == t % 0x100_0000) by (bit_vector);
    let v = bytes::u32_at(map, 4 * row);
    assert(v == encoding_laws::double_word(map, 4 * row));
    assert(v <= 0x00FF_FFFF ==> 0x0600_0000u32 | v == 0x0600_0000 + v) by (bit_vector);
}

/// The header of the debug information.
pub proof fn debug_information_header(s: Seq<u8>)
    ensures
        ({
            let h = dbi::header_of(s);
            &&& h.sig == encoding_laws::signed_double_word(s, 0)
            &&& h.ver == encoding_laws::signed_double_word(s, 4)
            &&& h.age == encoding_laws::signed_double_word(s, 8)
            &&& h.gssym_stream == encoding_laws::signed_word(s, 12)
            &&& h.vers == encoding_laws::word(s, 14)
            &&& h.pssym_stream == encoding_laws::signed_word(s, 16)
            &&& h.pdbver == encoding_laws::word(s, 18)
            &&& h.symrec_stream == encoding_laws::signed_word(s, 20)
            &&& h.pdbver2 == encoding_laws::word(s, 22)
            &&& h.gpmodi_size == encoding_laws::signed_double_word(s, 24)
            &&& h.seccon_size == encoding_laws::signed_double_word(s, 28)
            &&& h.secmap_size == encoding_laws::signed_double_word(s, 32)
            &&& h.filinf_size == encoding_laws::signed_double_word(s, 36)
            &&& h.tsmap_size == encoding_laws::signed_double_word(s, 40)
            &&& h.mfc_index == encoding_laws::signed_double_word(s, 44)
            &&& h.dbghdr_size == encoding_laws::signed_double_word(s, 48)
            &&& h.ecinfo_size == encoding_laws::signed_double_word(s, 52)
            &&& h.flags == encoding_laws::word(s, 56)
            &&& h.machine == encoding_laws::word(s, 58)
            &&& h.reserved == encoding_laws::signed_double_word(s, 60)
        }),
{
    encoding_laws::words_agree(s);
    encoding_laws::signed_words_agree(s);
}

/// A section contribution has 28 bytes.
pub proof fn contributions(s: Seq<u8>, at: int)
    ensures
        ({
            let c = dbi::seccon_at(s, at);
            &&& c.section == encoding_laws::signed_word(s, at)
            &&& c.offset == encoding_laws::signed_double_word(s, at + 4)
            &&& c.size == encoding_laws::signed_double_word(s, at + 8)
            &&& c.flags == encoding_laws::double_word(s, at + 12)
            &&& c.module == encoding_laws::signed_word(s, at + 16)
            &&& c.data_crc == encoding_laws::double_word(s, at + 20)
            &&& c.reloc_crc == encoding_laws::double_word(s, at + 24)
        }),
{
    encoding_laws::words_agree(s);
    encoding_laws::signed_words_agree(s);
    assert(encoding_laws::signed_word(s, at) == bytes::i16_of(bytes::u16_at(s, at)));
    assert(encoding_laws::signed_double_word(s, at + 4) == bytes::i32_of(bytes::u32_at(s, at + 4)));
    assert(encoding_laws::signed_double_word(s, at + 8) == bytes::i32_of(bytes::u32_at(s, at + 8)));
    assert(encoding_laws::double_word(s, at + 12) == bytes::u32_at(s, at + 12));
    assert(encoding_laws::signed_word(s, at + 16) == bytes::i16_of(bytes::u16_at(s, at + 16)));
    assert(encoding_laws::double_word(s, at + 20) == bytes::u32_at(s, at + 20));
    assert(encoding_laws::double_word(s, at + 24) == bytes::u32_at(s, at + 24));
}

/// A module entry has 64 bytes and two names behind them; the next one starts at
/// a multiple of four.
pub proof fn modules_are_read(s: Seq<u8>, at: int, module_name: Seq<char>, object_name: Seq<char>)
    requires
        0 <= at,
        bytes::zero_free(text::utf8(module_name)),
        bytes::zero_free(text::utf8(object_name)),
        bytes::holds_at(s, at + 64, text::utf8(module_name).push(0)),
        bytes::holds_at(
            s,
            at + 65 + text::utf8(module_name).len(),
            text::utf8(object_name).push(0),
        ),
    ensures
        ({
            let end = at + 66 + text::utf8(module_name).len() + text::utf8(object_name).len();
            dbi::module_at(s, at) matches Some((m, next)) && {
                &&& next % 4 == 0
                &&& end <= next < end + 4
                &&& m.opened == encoding_laws::signed_double_word(s, at)
                &&& m.seccon == dbi::seccon_at(s, at + 4)
                &&& m.flags == encoding_laws::word(s, at + 32)
                &&& m.stream == encoding_laws::signed_word(s, at + 34)
                &&& m.cb_syms == encoding_laws::signed_double_word(s, at + 36)
                &&& m.cb_old_lines == encoding_laws::signed_double_word(s, at + 40)
                &&& m.cb_lines == encoding_laws::signed_double_word(s, at + 44)
                &&& m.files == encoding_laws::signed_word(s, at + 48)
                &&& m.offsets == encoding_laws::double_word(s, at + 52)
                &&& m.ni_source == encoding_laws::signed_double_word(s, at + 56)
                &&& m.ni_compiler == encoding_laws::signed_double_word(s, at + 60)
                &&& m.module_name == module_name
                &&& m.object_name == object_name
            }
        }),
{
    encoding_laws::words_agree(s);
    encoding_laws::signed_words_agree(s);
    names_are_read(s, at + 64, module_name);
    names_are_read(s, at + 65 + text::utf8(module_name).len(), object_name);
    assert(encoding_laws::double_word(s, at) == bytes::u32_at(s, at));
    assert(encoding_laws::word(s, at + 32) == bytes::u16_at(s, at + 32));
    assert(encoding_laws::double_word(s, at + 52) == bytes::u32_at(s, at + 52));
}

/// The debug header names eleven streams with two bytes each; the sixth is that
/// of the sections and the seventh that of the row map.
pub proof fn debug_header_streams(s: Seq<u8>, at: int)
    ensures
        ({
            let d = dbi::debug_header_at(s, at);
            &&& d.sn_fpo == encoding_laws::word(s, at)
            &&& d.sn_exception == encoding_laws::word(s, at + 2)
            &&& d.sn_fixup == encoding_laws::word(s, at + 4)
            &&& d.sn_omap_to_src == encoding_laws::word(s, at + 6)
            &&& d.sn_omap_from_src == encoding_laws::word(s, at + 8)
            &&& d.sn_section_hdr == encoding_laws::word(s, at + 10)
            &&& d.sn_token_rid_map == encoding_laws::word(s, at + 12)
            &&& d.sn_xdata == encoding_laws::word(s, at + 14)
            &&& d.sn_pdata == encoding_laws::word(s, at + 16)
            &&& d.sn_new_fpo == encoding_laws::word(s, at + 18)
            &&& d.sn_section_hdr_orig == encoding_laws::word(s, at + 20)
        }),
{
    encoding_laws::words_agree(s);
    assert(encoding_laws::word(s, at) == bytes::u16_at(s, at));
    assert(encoding_laws::word(s, at + 2) == bytes::u16_at(s, at + 2));
    assert(encoding_laws::word(s, at + 4) == bytes::u16_at(s, at + 4));
    assert(encoding_laws::word(s, at + 6) == bytes::u16_at(s, at + 6));
    assert(encoding_laws::word(s, at + 8) == bytes::u16_at(s, at + 8));
    assert(encoding_laws::word(s, at + 10) == bytes::u16_at(s, at + 10));
    assert(encoding_laws::word(s, at + 12) == bytes::u16_at(s, at + 12));
    assert(encoding_laws::word(s, at + 14) == bytes::u16_at(s, at + 14));
    assert(encoding_laws::word(s, at + 16) == bytes::u16_at(s, at + 16));
    assert(encoding_laws::word(s, at + 18) == bytes::u16_at(s, at + 18));
    assert(encoding_laws::word(s, at + 20) == bytes::u16_at(s, at + 20));
}

/// The debug header comes behind the modules and the five substreams with the
/// sizes at 28, 32, 36, 40 and 52.
pub proof fn debug_header_place(s: Seq<u8>)
    requires
        dbi::parsed_dbi(s) is Some,
    ensures
        ({
            let (h, d, modules) = dbi::parsed_dbi(s)->Some_0;
            let at = 64 + encoding_laws::signed_double_word(s, 24) + encoding_laws::signed_double_word(s, 28)
                + encoding_laws::signed_double_word(s, 32) + encoding_laws::signed_double_word(s, 36) + encoding_laws::signed_double_word(s, 40)
                + encoding_laws::signed_double_word(s, 52);
            &&& s.len() >= 64
            &&& h == dbi::header_of(s)
            &&& encoding_laws::signed_double_word(s, 24) >= 0
            &&& Some(modules) == dbi::modules_from(s, 64, 64 + encoding_laws::signed_double_word(s, 24))
            &&& encoding_laws::signed_double_word(s, 48) > 0 ==> d == dbi::debug_header_at(s, at)
            &&& encoding_laws::signed_double_word(s, 48) <= 0 ==> d == dbi::no_debug_header()
        }),
{
    encoding_laws::signed_words_agree(s);
    debug_information_header(s);
    let h = dbi::header_of(s);
    let sizes = dbi::skipped_sizes(h);
    let a = 64 + h.gpmodi_size;
    let n = s.len() as int;
    reveal_with_fuel(dbi::skipped, 6);
    assert(sizes[0] == h.seccon_size);
    assert(sizes[1] == h.secmap_size);
    assert(sizes[2] == h.filinf_size);
    assert(sizes[3] == h.tsmap_size);
    assert(sizes[4] == h.ecinfo_size);
    assert(dbi::skipped(n, a, sizes, 0) == Some(
        a + sizes[0] + sizes[1] + sizes[2] + sizes[3] + sizes[4],
    ));
}

/// The identity of a PDB: version, signature and age, and sixteen bytes of
/// identifier.
pub proof fn identity_fields(s: Seq<u8>)
    requires
        names::parsed_info(s) is Some,
    ensures
        ({
            let i = names::parsed_info(s)->Some_0;
            &&& i.version == encoding_laws::double_word(s, 0)
            &&& i.signature == encoding_laws::double_word(s, 4)
            &&& i.age == encoding_laws::double_word(s, 8)
            &&& i.guid == s.subrange(12, 28)
            &&& names::index_at(s, 32 + encoding_laws::double_word(s, 28)) == Some(i.streams)
        }),
{
    encoding_laws::words_agree(s);
    encoding_laws::signed_words_agree(s);
    assert(encoding_laws::signed_double_word(s, 28) == bytes::i32_of(bytes::u32_at(s, 28)));
}

/// The bit of a stream is looked up in words of 32 bits.
pub proof fn bits_in_words(words: Seq<u32>, word_index: int, b: u32)
    requires
        0 <= word_index,
        b < 32,
    ensures
        names::bit_set(words, 32 * word_index + b) <==> word_index < words.len() && (words[word_index]
            >> b) & 1 == 1,
{
    let i = 32 * word_index + b;
    assert(i / 32 == word_index && i % 32 == b);
    if word_index < words.len() {
        let w = words[word_index];
        assert(b < 32 ==> (w & (1u32 << b) != 0) == ((w >> b) & 1 == 1)) by (bit_vector);
    }
}

/// A named stream is a record of eight bytes: where its name is, counted from 32,
/// and its number. Only streams with their bit set have one.
pub proof fn named_streams_are_read(
    s: Seq<u8>,
    words: Seq<u32>,
    i: int,
    max: int,
    pos: int,
    name: Seq<char>,
)
    requires
        0 <= i < max,
        0 <= pos,
        pos + 8 <= s.len(),
        encoding_laws::double_word(s, pos) < 0x8000_0000,
        encoding_laws::double_word(s, pos + 4) < 0x8000_0000,
        bytes::zero_free(text::utf8(name)),
        bytes::holds_at(s, 32 + encoding_laws::double_word(s, pos), text::utf8(name).push(0)),
    ensures
        !names::bit_set(words, i) ==> names::entries_from(s, 32, words, i, max, pos)
            == names::entries_from(s, 32, words, i + 1, max, pos),
        names::bit_set(words, i) ==> names::entries_from(s, 32, words, i, max, pos) == match names::entries_from(
            s,
            32,
            words,
            i + 1,
            max,
            pos + 8,
        ) {
            Some(rest) => Some(
                seq![(text::uppercased(name), encoding_laws::double_word(s, pos + 4) as u32)] + rest,
            ),
            None => None,
        },
{
    encoding_laws::signed_words_agree(s);
    assert(encoding_laws::signed_double_word(s, pos) == bytes::i32_of(bytes::u32_at(s, pos)));
    assert(encoding_laws::signed_double_word(s, pos + 4) == bytes::i32_of(bytes::u32_at(s, pos + 4)));
    names_are_read(s, 32 + encoding_laws::double_word(s, pos), name);
}

/// A name heap starts with `FE EF FE EF` and the version 1. Its buckets stand
/// behind the names; one that is not empty leads to a name, counted from 12.
pub proof fn name_heaps_are_read(s: Seq<u8>, n: nat, at: int, name: Seq<char>)
    requires
        names::parsed_names(s) is Some,
    ensures
        s[0] == 0xFE && s[1] == 0xEF && s[2] == 0xFE && s[3] == 0xEF,
        encoding_laws::double_word(s, 4) == 1,
        ({
            let end = 12 + encoding_laws::double_word(s, 8);
            &&& end + 4 <= s.len()
            &&& names::bucket_names(s, end + 4, encoding_laws::double_word(s, end) as nat) matches Some(all)
                && names::parsed_names(s) == Some(names::first_names(all))
        }),
        n > 0 && encoding_laws::double_word(s, at) == 0 ==> names::bucket_names(s, at, n) == names::bucket_names(
            s,
            at + 4,
            (n - 1) as nat,
        ),
        n > 0 && 0 < encoding_laws::double_word(s, at) < 0x8000_0000 && bytes::zero_free(text::utf8(name))
            && bytes::holds_at(s, 12 + encoding_laws::double_word(s, at), text::utf8(name).push(0))
            ==> names::bucket_names(s, at, n) == match names::bucket_names(
            s,
            at + 4,
            (n - 1) as nat,
        ) {
            Some(rest) => Some(seq![(encoding_laws::double_word(s, at) as u32, name)] + rest),
            None => None,
        },
{
    encoding_laws::words_agree(s);
    encoding_laws::signed_words_agree(s);
    assert(encoding_laws::signed_double_word(s, 4) == bytes::i32_of(bytes::u32_at(s, 4)));
    assert(encoding_laws::signed_double_word(s, 8) == bytes::i32_of(bytes::u32_at(s, 8)));
    assert(encoding_laws::signed_double_word(s, at) == bytes::i32_of(bytes::u32_at(s, at)));
    assert(encoding_laws::double_word(s, 0) == bytes::u32_at(s, 0));
    let end = 12 + encoding_laws::double_word(s, 8);
    assert(encoding_laws::signed_double_word(s, end) == bytes::i32_of(bytes::u32_at(s, end)));
    if n > 0 && 0 < encoding_laws::double_word(s, at) < 0x8000_0000 && bytes::zero_free(text::utf8(name))
        && bytes::holds_at(s, 12 + encoding_laws::double_word(s, at), text::utf8(name).push(0)) {
        names_are_read(s, 12 + encoding_laws::double_word(s, at), name);
    }
}

/// Of several names with one offset the last one counts.
pub proof fn last_name_counts(list: Seq<(u32, Seq<char>)>, k: int)
    requires
        0 <= k < list.len(),
        forall|j: int| k < j < list.len() ==> (#[trigger] list[j]).0 != list[k].0,
    ensures
        names::name_of(list, list[k].0) == Some(list[k].1),
    decreases list.len(),
{
    if k < list.len() - 1 {
        let front = list.drop_last();
        assert(front[k] == list[k]);
        assert forall|j: int| k < j < front.len() implies (#[trigger] front[j]).0 != front[k].0 by {
            assert(front[j] == list[j]);
        }
        assert(list.last() == list[list.len() - 1]);
        last_name_counts(front, k);
    }
}

/// An offset that no name has is not found.
pub proof fn other_offsets_have_no_name(list: Seq<(u32, Seq<char>)>, offset: u32)
    requires
        forall|j: int| 0 <= j < list.len() ==> (#[trigger] list[j]).0 != offset,
    ensures
        names::name_of(list, offset) is None,
    decreases list.len(),
{
    if list.len() > 0 {
        let front = list.drop_last();
        assert forall|j: int| 0 <= j < front.len() implies (#[trigger] front[j]).0 != offset by {
            assert(front[j] == list[j]);
        }
        assert(list.last() == list[list.len() - 1]);
        other_offsets_have_no_name(front, offset);
    }
}

/// Of several streams with one name the last one counts.
pub proof fn last_stream_counts(list: Seq<(Seq<char>, u32)>, k: int)
    requires
        0 <= k < list.len(),
        forall|j: int| k < j < list.len() ==> (#[trigger] list[j]).0 != list[k].0,
    ensures
        names::stream_of(list, list[k].0) == Some(list[k].1),
    decreases list.len(),
{
    if k < list.len() - 1 {
        let front = list.drop_last();
        assert(front[k] == list[k]);
        assert forall|j: int| k < j < front.len() implies (#[trigger] front[j]).0 != front[k].0 by {
            assert(front[j] == list[j]);
        }
        assert(list.last() == list[list.len() - 1]);
        last_stream_counts(front, k);
    }
}

/// The identity stands in stream 1 and the debug information in stream 3; the
/// names are in the stream that is called so.
pub proof fn parts_of_a_native_pdb(m: MsfView)
    requires
        symbols::native_of(m) is Some,
    ensures
        m.streams.len() > 3,
        m.streams[1] is Some,
        m.streams[3] is Some,
        ({
            let v = symbols::native_of(m)->Some_0;
            let info = m.streams[1]->Some_0.bytes;
            let debug = m.streams[3]->Some_0.bytes;
            &&& v.version == encoding_laws::double_word(info, 0)
            &&& v.signature == encoding_laws::double_word(info, 4)
            &&& v.age == encoding_laws::double_word(info, 8)
            &&& v.guid == info.subrange(12, 28)
            &&& dbi::parsed_dbi(debug) == Some((v.dbi_header, v.dbg_header, v.modules))
            &&& names::parsed_info(info) is Some
            &&& ({
                let k = names::stream_of(names::parsed_info(info)->Some_0.streams, "/NAMES"@);
                let heap = m.streams[k->Some_0 as int]->Some_0.bytes;
                let all = names::parsed_names(heap)->Some_0;
                &&& k is Some
                &&& k->Some_0 < m.streams.len()
                &&& m.streams[k->Some_0 as int] is Some
                &&& names::parsed_names(heap) is Some
                &&& v.names.len() == all.len()
                &&& forall|i: int| 0 <= i < all.len() ==> #[trigger] v.names[i] == all[i].1
            })
        }),
{
    let info = msf::stream_bytes(m, 1)->Some_0;
    identity_fields(info);
}

/// The row map is used where the debug header names one: neither 0 nor `0xFFFF`.
pub proof fn row_map_is_optional(m: MsfView, d: dbi::DbiDbgHdr, list: Seq<FunctionView>)
    ensures
        d.sn_token_rid_map == 0 || d.sn_token_rid_map == 0xFFFF ==> symbols::with_row_map(m, d, list)
            == Some(list),
        d.sn_token_rid_map != 0 && d.sn_token_rid_map != 0xFFFF && d.sn_token_rid_map
            < m.streams.len() && m.streams[d.sn_token_rid_map as int] is Some
            ==> symbols::with_row_map(m, d, list) == functions::remapped(
            list,
            m.streams[d.sn_token_rid_map as int]->Some_0.bytes,
        ),
        d.sn_token_rid_map != 0 && d.sn_token_rid_map != 0xFFFF && d.sn_token_rid_map
            >= m.streams.len() ==> symbols::with_row_map(m, d, list) is None,
{
}

/// The source files are those that were named, each once.
pub proof fn sources_are_listed_once(
    sources: Seq<Seq<char>>,
    checks: Seq<(u32, Seq<char>)>,
    n: nat,
)
    requires
        n <= checks.len(),
        sources.no_duplicates(),
    ensures
        symbols::with_sources(sources, checks, n).no_duplicates(),
        forall|t: Seq<char>|
            #[trigger] symbols::with_sources(sources, checks, n).contains(t) <==> sources.contains(t)
                || exists|k: int| 0 <= k < n && (#[trigger] checks[k]).1 == t,
        symbols::with_sources(sources, checks, n).len() >= sources.len(),
        symbols::with_sources(sources, checks, n).take(sources.len() as int) == sources,
    decreases n,
{
    if n == 0 {
        assert(sources.take(sources.len() as int) =~= sources);
    } else {
        let before = symbols::with_sources(sources, checks, (n - 1) as nat);
        let after = symbols::with_sources(sources, checks, n);
        let last = checks[n - 1].1;
        sources_are_listed_once(sources, checks, (n - 1) as nat);
        assert(after.take(sources.len() as int) =~= before.take(sources.len() as int));
        assert forall|t: Seq<char>| #[trigger] after.contains(t) implies sources.contains(t)
            || exists|k: int| 0 <= k < n && (#[trigger] checks[k]).1 == t by {
            let i = choose|i: int| 0 <= i < after.len() && after[i] == t;
            if i < before.len() {
                assert(before[i] == t);
                assert(before.contains(t));
            } else {
                assert(checks[n - 1].1 == t);
            }
        }
        assert forall|t: Seq<char>|
            sources.contains(t) || exists|k: int|
                0 <= k < n && (#[trigger] checks[k]).1 == t implies #[trigger] after.contains(t) by {
            if before.contains(t) {
                let i = choose|i: int| 0 <= i < before.len() && before[i] == t;
                assert(after[i] == t);
            } else {
                let k = choose|k: int| 0 <= k < n && (#[trigger] checks[k]).1 == t;
                if k < n - 1 {
                    assert(before.contains(t));
                }
                assert(t == last);
                if !before.contains(last) {
                    assert(after[before.len() as int] == t);
                }
            }
        }
    }
}

/// Debug information is read if its header and its modules are there, the parts
/// behind them fit, and so does the last part where there is one.
pub proof fn whole_debug_information_is_read(s: Seq<u8>)
    requires
        s.len() >= 64,
        encoding_laws::signed_double_word(s, 24) >= 0,
        encoding_laws::signed_double_word(s, 28) >= 0,
        encoding_laws::signed_double_word(s, 32) >= 0,
        encoding_laws::signed_double_word(s, 36) >= 0,
        encoding_laws::signed_double_word(s, 40) >= 0,
        encoding_laws::signed_double_word(s, 48) >= 0,
        encoding_laws::signed_double_word(s, 52) >= 0,
        64 + encoding_laws::signed_double_word(s, 24) <= s.len(),
        dbi::modules_from(s, 64, 64 + encoding_laws::signed_double_word(s, 24)) is Some,
    ensures
        ({
            let at = 64 + encoding_laws::signed_double_word(s, 24)
                + encoding_laws::signed_double_word(s, 28) + encoding_laws::signed_double_word(
                s,
                32,
            ) + encoding_laws::signed_double_word(s, 36) + encoding_laws::signed_double_word(s, 40)
                + encoding_laws::signed_double_word(s, 52);
            let size = encoding_laws::signed_double_word(s, 48);
            dbi::parsed_dbi(s) is Some <==> at + size <= s.len() && (size > 0 ==> at + 22
                <= s.len())
        }),
{
    encoding_laws::signed_words_agree(s);
    assert(bytes::i32_of(bytes::u32_at(s, 24)) == encoding_laws::signed_double_word(s, 24));
    assert(bytes::i32_of(bytes::u32_at(s, 28)) == encoding_laws::signed_double_word(s, 28));
    assert(bytes::i32_of(bytes::u32_at(s, 32)) == encoding_laws::signed_double_word(s, 32));
    assert(bytes::i32_of(bytes::u32_at(s, 36)) == encoding_laws::signed_double_word(s, 36));
    assert(bytes::i32_of(bytes::u32_at(s, 40)) == encoding_laws::signed_double_word(s, 40));
    assert(bytes::i32_of(bytes::u32_at(s, 48)) == encoding_laws::signed_double_word(s, 48));
    assert(bytes::i32_of(bytes::u32_at(s, 52)) == encoding_laws::signed_double_word(s, 52));
    let h = dbi::header_of(s);
    let sizes = dbi::skipped_sizes(h);
    reveal_with_fuel(dbi::skipped, 6);
    assert(sizes[0] == h.seccon_size);
    assert(sizes[1] == h.secmap_size);
    assert(sizes[2] == h.filinf_size);
    assert(sizes[3] == h.tsmap_size);
    assert(sizes[4] == h.ecinfo_size);
}

/// An identity is read if its 32 bytes, the names behind them and the index of the
/// named streams are there.
pub proof fn whole_identities_are_read(s: Seq<u8>)
    requires
        s.len() >= 32,
    ensures
        ({
            let size = encoding_laws::signed_double_word(s, 28);
            names::parsed_info(s) is Some <==> 0 <= size <= s.len() - 32 && names::index_at(
                s,
                32 + size,
            ) is Some
        }),
{
    encoding_laws::signed_words_agree(s);
    assert(bytes::i32_of(bytes::u32_at(s, 28)) == encoding_laws::signed_double_word(s, 28));
}

/// A native PDB without modules is read if its identity, its names and its debug
/// information are; it has no source files.
pub proof fn plain_native_pdb_is_read(m: MsfView, k: u32)
    requires
        m.streams.len() > 3,
        k < m.streams.len(),
        m.streams[1] is Some,
        m.streams[3] is Some,
        m.streams[k as int] is Some,
        names::parsed_info(m.streams[1]->Some_0.bytes) is Some,
        names::stream_of(
            names::parsed_info(m.streams[1]->Some_0.bytes)->Some_0.streams,
            "/NAMES"@,
        ) == Some(k),
        names::parsed_names(m.streams[k as int]->Some_0.bytes) is Some,
        dbi::parsed_dbi(m.streams[3]->Some_0.bytes) is Some,
        ({
            let (h, d, modules) = dbi::parsed_dbi(m.streams[3]->Some_0.bytes)->Some_0;
            modules.len() == 0 && (d.sn_token_rid_map == 0 || d.sn_token_rid_map == 0xFFFF)
        }),
    ensures
        symbols::native_of(m) matches Some(v) && v.source_files.len() == 0 && v.modules.len() == 0,
{
}

/// A heap of names is read if its marks, its names, the number of its buckets and
/// the buckets are there.
pub proof fn whole_name_heaps_are_read(s: Seq<u8>, size: int, count: int)
    requires
        s.len() >= 12,
        encoding_laws::double_word(s, 0) == 0xEFFE_EFFE,
        encoding_laws::signed_double_word(s, 4) == 1,
        0 <= size == encoding_laws::signed_double_word(s, 8),
        12 + size + 4 <= s.len(),
        0 <= count == encoding_laws::signed_double_word(s, 12 + size),
    ensures
        names::parsed_names(s) is Some <==> 12 + size + 4 + 4 * count <= s.len()
            && names::bucket_names(s, 12 + size + 4, count as nat) is Some,
{
    encoding_laws::words_agree(s);
    encoding_laws::signed_words_agree(s);
    assert(bytes::u32_at(s, 0) == encoding_laws::double_word(s, 0));
    assert(bytes::i32_of(bytes::u32_at(s, 4)) == encoding_laws::signed_double_word(s, 4));
    assert(bytes::i32_of(bytes::u32_at(s, 8)) == encoding_laws::signed_double_word(s, 8));
    assert(bytes::i32_of(bytes::u32_at(s, 12 + size)) == encoding_laws::signed_double_word(
        s,
        12 + size,
    ));
}

/// Without a debug header no stream is named.
pub proof fn missing_debug_headers_name_nothing()
    ensures
        ({
            let d = dbi::no_debug_header();
            &&& d.sn_fpo == 0 && d.sn_exception == 0 && d.sn_fixup == 0
            &&& d.sn_omap_to_src == 0 && d.sn_omap_from_src == 0
            &&& d.sn_section_hdr == 0 && d.sn_token_rid_map == 0
            &&& d.sn_xdata == 0 && d.sn_pdata == 0
            &&& d.sn_new_fpo == 0 && d.sn_section_hdr_orig == 0
        }),
{
}

} // verus!
