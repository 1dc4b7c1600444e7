//! The DBI stream of a native PDB: a header, a list of modules, and an optional
//! debug header.

use vstd::prelude::*;
use vstd::slice::slice_subrange;

use crate::bytes;
use crate::error::{Error, ErrorKind};
use crate::io;
use crate::io::{Step, Wording};
use crate::text;
use crate::text::Message;

verus! {

/// The error of the first of the steps from `pos` on that runs past the end.
pub(crate) fn stopped(len: usize, pos: usize, steps: Vec<Step>) -> (e: Error)
    requires
        forall|k: int| 0 <= k < steps@.len() ==> io::small_step(#[trigger] steps@[k]),
    ensures
        e.kind() == ErrorKind::BadImage,
        pos <= i64::MAX && len <= i64::MAX ==> e.text() == io::stop_text(
            Wording::Native,
            steps@,
            pos as nat,
            len as nat,
        ),
{
    io::stopped_in(Wording::Native, len, pos as u64, steps)
}

/// The error of a size that is negative.
fn negative_size(what: &str, size: i32) -> (e: Error)
    ensures
        e.kind() == ErrorKind::BadImage,
        e.text() == "native pdb: negative "@ + what@ + " size "@ + text::signed_decimal(
            size as int,
        ),
{
    Error::bad_image(
        Message::new("native pdb: negative ").text(what).text(" size ").number(
            size as i64,
        ).as_str(),
    )
}

/// The error of reads of `width` bytes, `times` in a row, that run past the end.
pub(crate) fn short(len: usize, pos: usize, width: u64, times: u64) -> (e: Error)
    requires
        width <= 16,
        times <= 0xFFFF_FFFF,
    ensures
        e.kind() == ErrorKind::BadImage,
        pos <= i64::MAX && len <= i64::MAX ==> e.text() == io::stop_text(
            Wording::Native,
            seq![Step::Reads { width, times }],
            pos as nat,
            len as nat,
        ),
{
    let steps: Vec<Step> = vec![Step::Reads { width, times }];
    proof {
        assert(steps@ =~= seq![Step::Reads { width, times }]);
    }
    stopped(len, pos, steps)
}

/// The error of a cursor that is sent past the end.
pub(crate) fn beyond(len: usize, pos: u64) -> (e: Error)
    ensures
        e.kind() == ErrorKind::BadImage,
        e.text() == io::beyond_text(Wording::Native, pos as nat, len as nat),
{
    io::beyond_error(Wording::Native, pos, len as u64)
}

/// The error of a string that would start at the end or past it.
pub(crate) fn name_beyond(len: usize, pos: u64) -> (e: Error)
    ensures
        e.kind() == ErrorKind::BadImage,
        e.text() == if pos > len {
            io::beyond_text(Wording::Native, pos as nat, len as nat)
        } else {
            "native pdb: unterminated string in buffer"@
        },
{
    if pos > len as u64 {
        beyond(len, pos)
    } else {
        Error::bad_image("native pdb: unterminated string in buffer")
    }
}

/// The zero-terminated text at `at`, and where it ends.
pub open spec fn cstring_at(s: Seq<u8>, at: int) -> Option<(Seq<char>, int)> {
    if at < 0 || at >= s.len() {
        None
    } else {
        match bytes::zero_from(s, at) {
            None => None,
            Some(end) => Some((text::lossy_text(s.subrange(at, end)), end + 1)),
        }
    }
}

/// Reads a zero-terminated text.
pub(crate) fn read_cstring(data: &[u8], at: usize) -> (r: Result<(String, usize), Error>)
    ensures
        match cstring_at(data@, at as int) {
            Some((t, end)) => r is Ok && r->Ok_0.0@ == t && r->Ok_0.1 == end && at < end
                <= data@.len(),
            None => r is Err && r->Err_0.kind() == ErrorKind::BadImage,
        },
{
    if at >= data.len() {
        return Err(Error::bad_image("native pdb: unterminated string in buffer"));
    }
    proof {
        bytes::zero_from_found(data@, at as int);
    }
    match bytes::find_zero(data, at) {
        None => Err(Error::bad_image("native pdb: unterminated string in buffer")),
        Some(end) => Ok((text::from_utf8_lossy(slice_subrange(data, at, end)), end + 1)),
    }
}

/// The signed 32-bit integer at `at`.
pub open spec fn int_at(s: Seq<u8>, at: int) -> i32 {
    bytes::i32_of(bytes::u32_at(s, at))
}

/// The signed 16-bit integer at `at`.
pub open spec fn short_at(s: Seq<u8>, at: int) -> i16 {
    bytes::i16_of(bytes::u16_at(s, at))
}

pub(crate) fn get_int(data: &[u8], at: usize) -> (v: i32)
    requires
        at + 4 <= data@.len(),
    ensures
        v == int_at(data@, at as int),
{
    bytes::as_i32(bytes::get_u32(data, at))
}

pub(crate) fn get_short(data: &[u8], at: usize) -> (v: i16)
    requires
        at + 2 <= data@.len(),
    ensures
        v == short_at(data@, at as int),
{
    bytes::as_i16(bytes::get_u16(data, at))
}

/// The next multiple of four.
pub open spec fn aligned(at: int) -> int {
    (at + 3) / 4 * 4
}

/// The DBI header (64 bytes at the start of the DBI stream).
#[derive(Debug, Clone, Copy)]
pub struct DbiHeader {
    pub sig: i32,
    pub ver: i32,
    pub age: i32,
    /// Global symbol stream index.
    pub gssym_stream: i16,
    pub vers: u16,
    /// Public symbol stream index.
    pub pssym_stream: i16,
    pub pdbver: u16,
    /// Symbol-record fast-link stream index.
    pub symrec_stream: i16,
    pub pdbver2: u16,
    pub gpmodi_size: i32,
    pub seccon_size: i32,
    pub secmap_size: i32,
    pub filinf_size: i32,
    pub tsmap_size: i32,
    pub mfc_index: i32,
    pub dbghdr_size: i32,
    pub ecinfo_size: i32,
    pub flags: u16,
    pub machine: u16,
    pub reserved: i32,
}

/// The header at the start of the stream.
pub open spec fn header_of(s: Seq<u8>) -> DbiHeader {
    DbiHeader {
        sig: int_at(s, 0),
        ver: int_at(s, 4),
        age: int_at(s, 8),
        gssym_stream: short_at(s, 12),
        vers: bytes::u16_at(s, 14),
        pssym_stream: short_at(s, 16),
        pdbver: bytes::u16_at(s, 18),
        symrec_stream: short_at(s, 20),
        pdbver2: bytes::u16_at(s, 22),
        gpmodi_size: int_at(s, 24),
        seccon_size: int_at(s, 28),
        secmap_size: int_at(s, 32),
        filinf_size: int_at(s, 36),
        tsmap_size: int_at(s, 40),
        mfc_index: int_at(s, 44),
        dbghdr_size: int_at(s, 48),
        ecinfo_size: int_at(s, 52),
        flags: bytes::u16_at(s, 56),
        machine: bytes::u16_at(s, 58),
        reserved: int_at(s, 60),
    }
}

impl DbiHeader {
    fn read(data: &[u8]) -> (h: DbiHeader)
        requires
            data@.len() >= 64,
        ensures
            h == header_of(data@),
    {
        DbiHeader {
            sig: get_int(data, 0),
            ver: get_int(data, 4),
            age: get_int(data, 8),
            gssym_stream: get_short(data, 12),
            vers: bytes::get_u16(data, 14),
            pssym_stream: get_short(data, 16),
            pdbver: bytes::get_u16(data, 18),
            symrec_stream: get_short(data, 20),
            pdbver2: bytes::get_u16(data, 22),
            gpmodi_size: get_int(data, 24),
            seccon_size: get_int(data, 28),
            secmap_size: get_int(data, 32),
            filinf_size: get_int(data, 36),
            tsmap_size: get_int(data, 40),
            mfc_index: get_int(data, 44),
            dbghdr_size: get_int(data, 48),
            ecinfo_size: get_int(data, 52),
            flags: bytes::get_u16(data, 56),
            machine: bytes::get_u16(data, 58),
            reserved: get_int(data, 60),
        }
    }
}

/// A module's section contribution (28 bytes).
#[derive(Debug, Clone, Copy)]
pub struct DbiSecCon {
    pub section: i16,
    pub pad1: i16,
    pub offset: i32,
    pub size: i32,
    pub flags: u32,
    pub module: i16,
    pub pad2: i16,
    pub data_crc: u32,
    pub reloc_crc: u32,
}

impl Default for DbiSecCon {
    fn default() -> (c: DbiSecCon)
        ensures
            c == (DbiSecCon {
                section: 0,
                pad1: 0,
                offset: 0,
                size: 0,
                flags: 0,
                module: 0,
                pad2: 0,
                data_crc: 0,
                reloc_crc: 0,
            }),
    {
        DbiSecCon {
            section: 0,
            pad1: 0,
            offset: 0,
            size: 0,
            flags: 0,
            module: 0,
            pad2: 0,
            data_crc: 0,
            reloc_crc: 0,
        }
    }
}

/// The section contribution at `at`.
pub open spec fn seccon_at(s: Seq<u8>, at: int) -> DbiSecCon {
    DbiSecCon {
        section: short_at(s, at),
        pad1: short_at(s, at + 2),
        offset: int_at(s, at + 4),
        size: int_at(s, at + 8),
        flags: bytes::u32_at(s, at + 12),
        module: short_at(s, at + 16),
        pad2: short_at(s, at + 18),
        data_crc: bytes::u32_at(s, at + 20),
        reloc_crc: bytes::u32_at(s, at + 24),
    }
}

/// One entry of the DBI module list.
#[derive(Debug, Clone)]
pub struct DbiModuleInfo {
    pub opened: i32,
    pub seccon: DbiSecCon,
    pub flags: u16,
    /// Debug-data stream index for this module (`<= 0` means none).
    pub stream: i16,
    /// Size in bytes of the symbol region (measured from the start of the
    /// module stream, i.e. inclusive of the leading 4-byte signature).
    pub cb_syms: i32,
    pub cb_old_lines: i32,
    pub cb_lines: i32,
    pub files: i16,
    pub offsets: u32,
    pub ni_source: i32,
    pub ni_compiler: i32,
    pub module_name: String,
    pub object_name: String,
}

/// What a module entry says.
#[verifier::ext_equal]
pub struct ModuleView {
    pub opened: i32,
    pub seccon: DbiSecCon,
    pub flags: u16,
    pub stream: i16,
    pub cb_syms: i32,
    pub cb_old_lines: i32,
    pub cb_lines: i32,
    pub files: i16,
    pub offsets: u32,
    pub ni_source: i32,
    pub ni_compiler: i32,
    pub module_name: Seq<char>,
    pub object_name: Seq<char>,
}

impl View for DbiModuleInfo {
    type V = ModuleView;

    open spec fn view(&self) -> ModuleView {
        ModuleView {
            opened: self.opened,
            seccon: self.seccon,
            flags: self.flags,
            stream: self.stream,
            cb_syms: self.cb_syms,
            cb_old_lines: self.cb_old_lines,
            cb_lines: self.cb_lines,
            files: self.files,
            offsets: self.offsets,
            ni_source: self.ni_source,
            ni_compiler: self.ni_compiler,
            module_name: self.module_name@,
            object_name: self.object_name@,
        }
    }
}

/// What module entries say.
pub open spec fn module_views(modules: Seq<DbiModuleInfo>) -> Seq<ModuleView> {
    Seq::new(modules.len(), |k: int| modules[k]@)
}

/// The module entry at `at`, and where the next one may start.
pub open spec fn module_at(s: Seq<u8>, at: int) -> Option<(ModuleView, int)> {
    if at + 64 > s.len() {
        None
    } else {
        match cstring_at(s, at + 64) {
            None => None,
            Some((module_name, a)) => match cstring_at(s, a) {
                None => None,
                Some((object_name, b)) => Some(
                    (
                        ModuleView {
                            opened: int_at(s, at),
                            seccon: seccon_at(s, at + 4),
                            flags: bytes::u16_at(s, at + 32),
                            stream: short_at(s, at + 34),
                            cb_syms: int_at(s, at + 36),
                            cb_old_lines: int_at(s, at + 40),
                            cb_lines: int_at(s, at + 44),
                            files: short_at(s, at + 48),
                            offsets: bytes::u32_at(s, at + 52),
                            ni_source: int_at(s, at + 56),
                            ni_compiler: int_at(s, at + 60),
                            module_name,
                            object_name,
                        },
                        aligned(b),
                    ),
                ),
            },
        }
    }
}

impl DbiModuleInfo {
    fn read(data: &[u8], pos: u128) -> (r: Result<(DbiModuleInfo, u128), Error>)
        ensures
            match module_at(data@, pos as int) {
                Some((m, end)) => r is Ok && r->Ok_0.0@ == m && r->Ok_0.1 == end && pos < end
                    <= data@.len() + 3,
                None => r is Err && r->Err_0.kind() == ErrorKind::BadImage,
            },
    {
        let n: usize = data.len();
        if pos > n as u128 || n as u128 - pos < 64 {
            let start: usize = if pos <= n as u128 {
                pos as usize
            } else {
                n
            };
            return Err(
                stopped(
                    n,
                    start,
                    vec![
                        Step::Reads { width: 4, times: 1 },
                        Step::Reads { width: 2, times: 2 },
                        Step::Reads { width: 4, times: 3 },
                        Step::Reads { width: 2, times: 2 },
                        Step::Reads { width: 4, times: 2 },
                        Step::Reads { width: 2, times: 2 },
                        Step::Reads { width: 4, times: 3 },
                        Step::Reads { width: 2, times: 2 },
                        Step::Reads { width: 4, times: 3 },
                    ],
                ),
            );
        }
        let at: usize = pos as usize;
        let (module_name, a) = read_cstring(data, at + 64)?;
        let (object_name, b) = read_cstring(data, a)?;
        let seccon = DbiSecCon {
            section: get_short(data, at + 4),
            pad1: get_short(data, at + 6),
            offset: get_int(data, at + 8),
            size: get_int(data, at + 12),
            flags: bytes::get_u32(data, at + 16),
            module: get_short(data, at + 20),
            pad2: get_short(data, at + 22),
            data_crc: bytes::get_u32(data, at + 24),
            reloc_crc: bytes::get_u32(data, at + 28),
        };
        let m = DbiModuleInfo {
            opened: get_int(data, at),
            seccon,
            flags: bytes::get_u16(data, at + 32),
            stream: get_short(data, at + 34),
            cb_syms: get_int(data, at + 36),
            cb_old_lines: get_int(data, at + 40),
            cb_lines: get_int(data, at + 44),
            files: get_short(data, at + 48),
            offsets: bytes::get_u32(data, at + 52),
            ni_source: get_int(data, at + 56),
            ni_compiler: get_int(data, at + 60),
            module_name,
            object_name,
        };
        let end: u128 = (b as u128 + 3) / 4 * 4;
        Ok((m, end))
    }
}

/// The DBI optional (debug) header.
#[derive(Debug, Clone, Copy)]
pub struct DbiDbgHdr {
    pub sn_fpo: u16,
    pub sn_exception: u16,
    pub sn_fixup: u16,
    pub sn_omap_to_src: u16,
    pub sn_omap_from_src: u16,
    /// Section-header stream index.
    pub sn_section_hdr: u16,
    /// Token-to-RID remap stream index (`0`/`0xffff` = absent).
    pub sn_token_rid_map: u16,
    pub sn_xdata: u16,
    pub sn_pdata: u16,
    pub sn_new_fpo: u16,
    pub sn_section_hdr_orig: u16,
}

/// A debug header that names no stream.
pub open spec fn no_debug_header() -> DbiDbgHdr {
    DbiDbgHdr {
        sn_fpo: 0,
        sn_exception: 0,
        sn_fixup: 0,
        sn_omap_to_src: 0,
        sn_omap_from_src: 0,
        sn_section_hdr: 0,
        sn_token_rid_map: 0,
        sn_xdata: 0,
        sn_pdata: 0,
        sn_new_fpo: 0,
        sn_section_hdr_orig: 0,
    }
}

impl Default for DbiDbgHdr {
    fn default() -> (h: DbiDbgHdr)
        ensures
            h == no_debug_header(),
    {
        DbiDbgHdr {
            sn_fpo: 0,
            sn_exception: 0,
            sn_fixup: 0,
            sn_omap_to_src: 0,
            sn_omap_from_src: 0,
            sn_section_hdr: 0,
            sn_token_rid_map: 0,
            sn_xdata: 0,
            sn_pdata: 0,
            sn_new_fpo: 0,
            sn_section_hdr_orig: 0,
        }
    }
}

/// The debug header at `at`.
pub open spec fn debug_header_at(s: Seq<u8>, at: int) -> DbiDbgHdr {
    DbiDbgHdr {
        sn_fpo: bytes::u16_at(s, at),
        sn_exception: bytes::u16_at(s, at + 2),
        sn_fixup: bytes::u16_at(s, at + 4),
        sn_omap_to_src: bytes::u16_at(s, at + 6),
        sn_omap_from_src: bytes::u16_at(s, at + 8),
        sn_section_hdr: bytes::u16_at(s, at + 10),
        sn_token_rid_map: bytes::u16_at(s, at + 12),
        sn_xdata: bytes::u16_at(s, at + 14),
        sn_pdata: bytes::u16_at(s, at + 16),
        sn_new_fpo: bytes::u16_at(s, at + 18),
        sn_section_hdr_orig: bytes::u16_at(s, at + 20),
    }
}

impl DbiDbgHdr {
    fn read(data: &[u8], at: usize) -> (h: DbiDbgHdr)
        requires
            at + 22 <= data@.len(),
        ensures
            h == debug_header_at(data@, at as int),
    {
        let _length: usize = data.len();
        DbiDbgHdr {
            sn_fpo: bytes::get_u16(data, at),
            sn_exception: bytes::get_u16(data, at + 2),
            sn_fixup: bytes::get_u16(data, at + 4),
            sn_omap_to_src: bytes::get_u16(data, at + 6),
            sn_omap_from_src: bytes::get_u16(data, at + 8),
            sn_section_hdr: bytes::get_u16(data, at + 10),
            sn_token_rid_map: bytes::get_u16(data, at + 12),
            sn_xdata: bytes::get_u16(data, at + 14),
            sn_pdata: bytes::get_u16(data, at + 16),
            sn_new_fpo: bytes::get_u16(data, at + 18),
            sn_section_hdr_orig: bytes::get_u16(data, at + 20),
        }
    }
}

/// The module entries from `at` up to `end`, which they have to meet.
pub open spec fn modules_from(s: Seq<u8>, at: int, end: int) -> Option<Seq<ModuleView>>
    decreases end - at,
{
    if at >= end {
        if at == end {
            Some(Seq::empty())
        } else {
            None
        }
    } else {
        match module_at(s, at) {
            None => None,
            Some((m, next)) => if next <= at || next > end {
                None
            } else {
                match modules_from(s, next, end) {
                    None => None,
                    Some(rest) => Some(seq![m] + rest),
                }
            },
        }
    }
}

/// Where the substreams with the sizes from the `k`-th one on end, the first
/// of which starts at `at`.
pub open spec fn skipped(length: int, at: int, sizes: Seq<i32>, k: int) -> Option<int>
    decreases sizes.len() - k,
{
    if k < 0 || k >= sizes.len() {
        Some(at)
    } else if sizes[k] < 0 || at + sizes[k] > length {
        None
    } else {
        skipped(length, at + sizes[k], sizes, k + 1)
    }
}

/// The sizes of the substreams that are not read.
pub open spec fn skipped_sizes(h: DbiHeader) -> Seq<i32> {
    seq![h.seccon_size, h.secmap_size, h.filinf_size, h.tsmap_size, h.ecinfo_size]
}

/// The debug header at the end of the stream.
pub open spec fn debug_header_of(s: Seq<u8>, at: int, size: i32) -> Option<DbiDbgHdr> {
    if size < 0 || at + size > s.len() || (size > 0 && at + 22 > s.len()) {
        None
    } else if size > 0 {
        Some(debug_header_at(s, at))
    } else {
        Some(no_debug_header())
    }
}

/// What a DBI stream says.
pub open spec fn parsed_dbi(s: Seq<u8>) -> Option<(DbiHeader, DbiDbgHdr, Seq<ModuleView>)> {
    let h = header_of(s);
    if s.len() < 64 || h.gpmodi_size < 0 {
        None
    } else {
        match modules_from(s, 64, 64 + h.gpmodi_size) {
            None => None,
            Some(modules) => match skipped(
                s.len() as int,
                64 + h.gpmodi_size,
                skipped_sizes(h),
                0,
            ) {
                None => None,
                Some(at) => match debug_header_of(s, at, h.dbghdr_size) {
                    None => None,
                    Some(d) => Some((h, d, modules)),
                },
            },
        }
    }
}

fn read_modules(data: &[u8], end: u128) -> (r: Result<Vec<DbiModuleInfo>, Error>)
    requires
        64 <= end,
    ensures
        match modules_from(data@, 64, end as int) {
            Some(v) => r is Ok && module_views(r->Ok_0@) == v,
            None => r is Err && r->Err_0.kind() == ErrorKind::BadImage,
        },
{
    let ghost whole = modules_from(data@, 64, end as int);
    let mut modules: Vec<DbiModuleInfo> = Vec::new();
    let mut pos: u128 = 64;
    proof {
        assert(module_views(modules@) =~= Seq::<ModuleView>::empty());
        if let Some(rest) = whole {
            assert(module_views(modules@) + rest =~= rest);
        }
    }
    while pos < end
        invariant
            whole == modules_from(data@, 64, end as int),
            whole == (match modules_from(data@, pos as int, end as int) {
                Some(rest) => Some(module_views(modules@) + rest),
                None => None,
            }),
        decreases
            if pos < end {
                end - pos
            } else {
                0
            },
    {
        let ghost before = module_views(modules@);
        let (m, next) = DbiModuleInfo::read(data, pos)?;
        let ghost view = m@;
        modules.push(m);
        proof {
            let now = module_views(modules@);
            assert(now =~= before.push(view));
            if let Some(rest) = modules_from(data@, next as int, end as int) {
                assert(before + (seq![view] + rest) =~= now + rest);
            }
        }
        pos = next;
    }
    if pos != end {
        return Err(
            Error::bad_image(
                Message::new("native pdb: error reading DBI stream, pos=").wide_number(
                    (pos % 0x1_0000_0000_0000_0000) as i128,
                ).text(" != ").wide_number((end % 0x1_0000_0000_0000_0000) as i128).as_str(),
            ),
        );
    }
    proof {
        assert(module_views(modules@) + Seq::<ModuleView>::empty() =~= module_views(modules@));
    }
    Ok(modules)
}

fn skip_sizes(length: u64, at: u64, sizes: &[i32]) -> (r: Result<u64, Error>)
    requires
        at <= 0x1_0000_0000,
        sizes@.len() <= 8,
    ensures
        match skipped(length as int, at as int, sizes@, 0) {
            Some(end) => r is Ok && r->Ok_0 == end && at <= end && (at <= length ==> end
                <= length) && end <= 0x10_0000_0000,
            None => r is Err && r->Err_0.kind() == ErrorKind::BadImage,
        },
{
    let n: usize = sizes.len();
    let mut pos: u64 = at;
    let mut k: usize = 0;
    while k < n
        invariant
            k <= n,
            n == sizes@.len(),
            n <= 8,
            at <= pos <= 0x1_0000_0000 + k * 0x8000_0000,
            at <= length ==> pos <= length,
            skipped(length as int, at as int, sizes@, 0) == skipped(
                length as int,
                pos as int,
                sizes@,
                k as int,
            ),
        decreases n - k,
    {
        let size: i32 = sizes[k];
        if size < 0 {
            return Err(negative_size("DBI substream", size));
        }
        if pos + size as u64 > length {
            return Err(
                io::beyond_error(Wording::Native, pos + size as u64, length),
            );
        }
        pos = pos + size as u64;
        k += 1;
    }
    Ok(pos)
}

/// Parses the DBI header and the module list, skips the section-contribution,
/// section-map, file-info, type-server and edit-and-continue substreams and
/// reads the optional debug header.
pub(crate) fn load_dbi_stream(data: &[u8]) -> (r: Result<
    (DbiHeader, DbiDbgHdr, Vec<DbiModuleInfo>),
    Error,
>)
    ensures
        match parsed_dbi(data@) {
            Some((h, d, m)) => r is Ok && r->Ok_0.0 == h && r->Ok_0.1 == d && module_views(
                r->Ok_0.2@,
            ) == m,
            None => r is Err && r->Err_0.kind() == ErrorKind::BadImage,
        },
{
    let length: usize = data.len();
    if length < 64 {
        return Err(
            stopped(
                length,
                0,
                vec![
                    Step::Reads { width: 4, times: 3 },
                    Step::Reads { width: 2, times: 6 },
                    Step::Reads { width: 4, times: 8 },
                    Step::Reads { width: 2, times: 2 },
                    Step::Reads { width: 4, times: 1 },
                ],
            ),
        );
    }
    let h = DbiHeader::read(data);
    if h.gpmodi_size < 0 {
        return Err(negative_size("gpmodi", h.gpmodi_size));
    }
    let end: u64 = 64 + h.gpmodi_size as u64;
    let modules = read_modules(data, end as u128)?;
    let sizes: [i32; 5] = [
        h.seccon_size,
        h.secmap_size,
        h.filinf_size,
        h.tsmap_size,
        h.ecinfo_size,
    ];
    proof {
        assert(sizes@ =~= skipped_sizes(h));
    }
    let at: u64 = skip_sizes(length as u64, end, sizes.as_slice())?;
    let size: i32 = h.dbghdr_size;
    if size < 0 {
        return Err(negative_size("dbghdr", size));
    }
    if size > 0 && at + 22 > length as u64 {
        return Err(
            io::stopped_in(
                Wording::Native,
                length,
                at,
                vec![Step::Reads { width: 2, times: 11 }],
            ),
        );
    }
    if at + size as u64 > length as u64 {
        return Err(beyond(length, at + size as u64));
    }
    let d = if size > 0 {
        DbiDbgHdr::read(data, at as usize)
    } else {
        DbiDbgHdr::default()
    };
    Ok((h, d, modules))
}

} // verus!
