//! MSF (Multi-Stream File / "Compound File") container parser for native
//! Windows PDBs.
//!
//! A file is cut into pages of one size. A directory, which itself lies on
//! pages, says how long every stream is and on which pages it lies, so that a
//! stream is put together page by page. A stream that occupies one run of
//! consecutive pages is a borrowed slice of the input; others are copied once,
//! at parse time.
//!
//! Both integer byte orders are supported: standard little-endian files and the
//! rare big-endian variant (same ASCII magic, big-endian integers). The order is
//! detected by validating the decoded page size.

use vstd::prelude::*;
use vstd::slice::slice_subrange;

use crate::bytes;
use crate::error::{Error, ErrorKind};
use crate::text;
use crate::text::Message;

verus! {

broadcast use crate::bytes::widths;

/// Size of the fixed part of the MSF superblock: magic + 5 `u32` fields.
pub const HEADER_SIZE: usize = 52;

/// Magic shared by every MSF 7.00 image
/// (`"Microsoft C/C++ MSF 7.00\r\n\x1aDS\0\0\0"`).
pub const WINDOWS_PDB_MAGIC: [u8; 32] = [
    0x4D, 0x69, 0x63, 0x72, 0x6F, 0x73, 0x6F, 0x66, 0x74, 0x20, 0x43, 0x2F, 0x43, 0x2B, 0x2B, 0x20,
    0x4D, 0x53, 0x46, 0x20, 0x37, 0x2E, 0x30, 0x30, 0x0D, 0x0A, 0x1A, 0x44, 0x53, 0x00, 0x00, 0x00,
];

/// Integer byte order of an MSF image.
///
/// Standard PDBs are little-endian; a small population of historical
/// (PowerPC-era) images uses the same magic with big-endian integers.
#[derive(Debug, Clone, Copy, PartialEq, Eq)]
pub enum ByteOrder {
    Little,
    Big,
}

impl ByteOrder {
    /// The 32-bit integer at `at`.
    pub open spec fn at(self, s: Seq<u8>, at: int) -> u32 {
        match self {
            ByteOrder::Little => bytes::u32_at(s, at),
            ByteOrder::Big => bytes::u32_be_at(s, at),
        }
    }

    fn u32_at(self, data: &[u8], off: usize) -> (v: u32)
        requires
            off + 4 <= data@.len(),
        ensures
            v == self.at(data@, off as int),
    {
        match self {
            ByteOrder::Little => bytes::get_u32(data, off),
            ByteOrder::Big => bytes::get_u32_be(data, off),
        }
    }
}

/// The bytes of a stream: a slice of the image, or a copy.
#[derive(Debug, Clone)]
pub enum StreamData<'a> {
    Borrowed(&'a [u8]),
    Owned(Vec<u8>),
}

/// One materialized stream of an MSF image.
#[derive(Debug, Clone)]
pub struct MsfStream<'a> {
    /// Contiguous stream content: borrowed when the block chain was consecutive,
    /// copied once during [`MsfImage::parse`] otherwise.
    pub data: StreamData<'a>,
}

/// The bytes of a stream, and whether they are a slice of the image.
#[verifier::ext_equal]
pub struct StreamView {
    pub bytes: Seq<u8>,
    pub borrowed: bool,
}

impl<'a> View for MsfStream<'a> {
    type V = StreamView;

    open spec fn view(&self) -> StreamView {
        match self.data {
            StreamData::Borrowed(b) => StreamView { bytes: b@, borrowed: true },
            StreamData::Owned(b) => StreamView { bytes: b@, borrowed: false },
        }
    }
}

impl<'a> MsfStream<'a> {
    /// Stream length in bytes.
    pub fn len(&self) -> (n: usize)
        ensures
            n == self@.bytes.len(),
    {
        self.as_slice().len()
    }

    /// True when the stream is empty.
    pub fn is_empty(&self) -> (b: bool)
        ensures
            b == (self@.bytes.len() == 0),
    {
        self.as_slice().len() == 0
    }

    /// Contiguous stream bytes.
    pub fn as_slice(&self) -> (b: &[u8])
        ensures
            b@ == self@.bytes,
    {
        match &self.data {
            StreamData::Borrowed(b) => b,
            StreamData::Owned(b) => b.as_slice(),
        }
    }
}

/// What the slots of the directory hold.
pub open spec fn slot_views(slots: Seq<Option<MsfStream<'_>>>) -> Seq<Option<StreamView>> {
    Seq::new(slots.len(), |k: int| slot_view(slots[k]))
}

/// What a slot of the directory holds.
pub open spec fn slot_view(slot: Option<MsfStream<'_>>) -> Option<StreamView> {
    match slot {
        Some(s) => Some(s@),
        None => None,
    }
}

/// A page size is a power of two from 128 to 1048576.
pub open spec fn valid_page_size(size: u32) -> bool {
    size == 0x80 || size == 0x100 || size == 0x200 || size == 0x400 || size == 0x800 || size
        == 0x1000 || size == 0x2000 || size == 0x4000 || size == 0x8000 || size == 0x1_0000 || size
        == 0x2_0000 || size == 0x4_0000 || size == 0x8_0000 || size == 0x10_0000
}

/// The page size that a byte order gives, if it is one and the directory size
/// is plausible with it.
pub open spec fn page_size_in(s: Seq<u8>, order: ByteOrder) -> Option<u32> {
    let size = order.at(s, 32);
    if valid_page_size(size) && order.at(s, 44) <= bytes::low32(s.len() as int) {
        Some(size)
    } else {
        None
    }
}

/// The byte order of an image, and its page size.
pub open spec fn detected(s: Seq<u8>) -> Option<(ByteOrder, u32)> {
    match page_size_in(s, ByteOrder::Little) {
        Some(size) => Some((ByteOrder::Little, size)),
        None => match page_size_in(s, ByteOrder::Big) {
            Some(size) => Some((ByteOrder::Big, size)),
            None => None,
        },
    }
}

/// How many pages so many bytes take.
pub open spec fn pages_for(size: int, page_size: int) -> int {
    (size + page_size - 1) / page_size
}

/// The first `size` bytes that lie on the pages, one page behind the other.
pub open spec fn chain(s: Seq<u8>, pages: Seq<u32>, page_size: int, size: nat) -> Seq<u8> {
    Seq::new(size, |i: int| s[pages[i / page_size] * page_size + i % page_size])
}

/// All pages lie in the image.
pub open spec fn pages_in(s: Seq<u8>, pages: Seq<u32>, page_size: int) -> bool {
    forall|k: int| 0 <= k < pages.len() ==> #[trigger] pages[k] < s.len() as int / page_size
}

/// The page numbers that stand from `at` on.
pub open spec fn numbers_at(s: Seq<u8>, order: ByteOrder, at: int, n: nat) -> Seq<u32> {
    Seq::new(n, |k: int| order.at(s, at + 4 * k))
}

/// The pages that list the pages of the directory.
pub open spec fn root_pages(s: Seq<u8>, order: ByteOrder, page_size: int, size: int) -> Seq<u32> {
    numbers_at(
        s,
        order,
        52,
        pages_for(4 * pages_for(size, page_size), page_size) as nat,
    )
}

/// The bytes of the directory: the header lists root pages, which list the
/// pages of the directory.
pub open spec fn directory_bytes(s: Seq<u8>, order: ByteOrder, page_size: int) -> Option<Seq<u8>> {
    let size = order.at(s, 44) as int;
    let count = pages_for(size, page_size);
    let roots = root_pages(s, order, page_size, size);
    if size == 0 || 52 + 4 * roots.len() > s.len() || !pages_in(s, roots, page_size) {
        None
    } else {
        let listed = chain(s, roots, page_size, (4 * count) as nat);
        let pages = numbers_at(listed, order, 0, count as nat);
        if pages_in(s, pages, page_size) {
            Some(chain(s, pages, page_size, size as nat))
        } else {
            None
        }
    }
}

/// A chain of pages that follow one another.
pub open spec fn consecutive(pages: Seq<u32>) -> bool {
    forall|k: int| 0 <= k < pages.len() - 1 ==> #[trigger] pages[k + 1] == pages[k] + 1
}

/// The streams from the `i`-th one on, whose page lists start at `pos`. A
/// stream without a positive size is absent.
pub open spec fn streams_from(
    s: Seq<u8>,
    dir: Seq<u8>,
    order: ByteOrder,
    page_size: int,
    count: int,
    i: int,
    pos: int,
) -> Option<Seq<Option<StreamView>>>
    decreases count - i,
{
    if i >= count {
        Some(Seq::empty())
    } else {
        let size = bytes::i32_of(order.at(dir, 4 + 4 * i));
        if size <= 0 {
            match streams_from(s, dir, order, page_size, count, i + 1, pos) {
                None => None,
                Some(rest) => Some(seq![None::<StreamView>] + rest),
            }
        } else {
            let n = pages_for(size as int, page_size);
            let pages = numbers_at(dir, order, pos, n as nat);
            if pos + 4 * n > dir.len() || !pages_in(s, pages, page_size) {
                None
            } else {
                match streams_from(s, dir, order, page_size, count, i + 1, pos + 4 * n) {
                    None => None,
                    Some(rest) => Some(
                        seq![
                            Some(
                                StreamView {
                                    bytes: chain(s, pages, page_size, size as nat),
                                    borrowed: consecutive(pages),
                                },
                            ),
                        ] + rest,
                    ),
                }
            }
        }
    }
}

/// What an MSF image holds.
#[verifier::ext_equal]
pub struct MsfView {
    pub page_size: u32,
    pub streams: Seq<Option<StreamView>>,
}

/// The MSF image that the bytes are.
pub open spec fn parsed_msf(s: Seq<u8>) -> Option<MsfView> {
    if s.len() < 52 || s.take(32) != WINDOWS_PDB_MAGIC@ {
        None
    } else {
        match detected(s) {
            None => None,
            Some((order, page_size)) => match directory_bytes(s, order, page_size as int) {
                None => None,
                Some(dir) => {
                    let count = order.at(dir, 0) as int;
                    if dir.len() < 4 || dir.len() < 4 + 4 * count {
                        None
                    } else {
                        match streams_from(
                            s,
                            dir,
                            order,
                            page_size as int,
                            count,
                            0,
                            4 + 4 * count,
                        ) {
                            None => None,
                            Some(streams) => Some(MsfView { page_size, streams }),
                        }
                    }
                },
            },
        }
    }
}

/// Where a byte of a chain lies.
proof fn chain_place(page_size: int, k: int, j: int)
    requires
        0 < page_size,
        0 <= j < page_size,
        0 <= k,
    ensures
        (k * page_size + j) / page_size == k,
        (k * page_size + j) % page_size == j,
{
    vstd::arithmetic::div_mod::lemma_fundamental_div_mod_converse(
        k * page_size + j,
        page_size,
        k,
        j,
    );
}

/// A page of the image ends in it.
proof fn page_fits(length: int, page_size: int, page: int)
    requires
        0 < page_size,
        0 <= length,
        0 <= page < length / page_size,
    ensures
        0 <= page * page_size,
        page * page_size + page_size <= length,
{
    vstd::arithmetic::div_mod::lemma_fundamental_div_mod(length, page_size);
    assert(page * page_size + page_size <= page_size * (length / page_size)) by (nonlinear_arith)
        requires
            0 < page_size,
            page + 1 <= length / page_size,
    ;
    assert(0 <= page * page_size) by (nonlinear_arith)
        requires
            0 < page_size,
            0 <= page,
    ;
}

/// The pages for so many bytes hold them, and no page is in vain.
proof fn pages_hold(size: int, page_size: int)
    requires
        0 < page_size,
        0 <= size,
    ensures
        0 <= pages_for(size, page_size) <= size,
        size <= pages_for(size, page_size) * page_size,
        (pages_for(size, page_size) - 1) * page_size < size,
        size > 0 ==> pages_for(size, page_size) > 0,
{
    let n = pages_for(size, page_size);
    vstd::arithmetic::div_mod::lemma_fundamental_div_mod(size + page_size - 1, page_size);
    assert(size <= n * page_size && (n - 1) * page_size < size) by (nonlinear_arith)
        requires
            size + page_size - 1 == page_size * n + (size + page_size - 1) % page_size,
            0 <= (size + page_size - 1) % page_size < page_size,
    ;
    assert(0 <= n <= size) by (nonlinear_arith)
        requires
            0 < page_size,
            0 <= size,
            size <= n * page_size,
            (n - 1) * page_size < size,
    ;
    if size > 0 {
        assert(n > 0) by (nonlinear_arith)
            requires
                0 < size <= n * page_size,
                0 < page_size,
        ;
    }
}

fn count_pages(size: u32, page_size: u32) -> (n: u32)
    requires
        0 < page_size <= 0x10_0000,
    ensures
        n == pages_for(size as int, page_size as int),
{
    proof {
        pages_hold(size as int, page_size as int);
    }
    ((size as u64 + page_size as u64 - 1) / page_size as u64) as u32
}

/// Puts together the first `size` bytes that lie on the pages.
fn gather(data: &[u8], pages: &Vec<u32>, page_size: u32, size: u32) -> (out: Vec<u8>)
    requires
        0 < page_size <= 0x10_0000,
        pages_in(data@, pages@, page_size as int),
        pages@.len() == pages_for(size as int, page_size as int),
    ensures
        out@ == chain(data@, pages@, page_size as int, size as nat),
{
    let ghost whole = chain(data@, pages@, page_size as int, size as nat);
    let ghost length = data@.len() as int;
    let total: usize = data.len();
    let n: usize = pages.len();
    let mut out: Vec<u8> = Vec::new();
    let mut left: u32 = size;
    let mut k: usize = 0;
    proof {
        pages_hold(size as int, page_size as int);
    }
    while k < n
        invariant
            k <= n,
            n == pages@.len(),
            total == data@.len(),
            length == total,
            0 < page_size <= 0x10_0000,
            pages_in(data@, pages@, page_size as int),
            n == pages_for(size as int, page_size as int),
            (n - 1) * page_size < size <= n * page_size,
            whole == chain(data@, pages@, page_size as int, size as nat),
            left == (if k < n {
                size - k * page_size
            } else {
                0
            }),
            left <= size,
            out@ == whole.take(size - left),
        decreases n - k,
    {
        let todo: u32 = if left < page_size {
            left
        } else {
            page_size
        };
        let page: u32 = pages[k];
        proof {
            page_fits(length, page_size as int, page as int);
            assert(k * page_size <= (n - 1) * page_size) by (nonlinear_arith)
                requires
                    k <= n - 1,
                    0 < page_size,
            ;
            assert((k + 1) * page_size == k * page_size + page_size) by (nonlinear_arith);
            if k + 1 < n {
                assert((k + 1) * page_size <= (n - 1) * page_size) by (nonlinear_arith)
                    requires
                        k + 1 <= n - 1,
                        0 < page_size,
                ;
            }
        }
        let start: usize = (page as u64 * page_size as u64) as usize;
        let part = slice_subrange(data, start, start + todo as usize);
        bytes::append(&mut out, part);
        proof {
            let from = size - left;
            assert(from == k * page_size);
            assert forall|i: int| from <= i < from + todo implies out@[i] == whole[i] by {
                let j = i - from;
                chain_place(page_size as int, k as int, j);
                assert(i == k * page_size + j);
                assert(out@[i] == part@[j]);
            }
            assert(out@ =~= whole.take(from + todo));
        }
        left = left - todo;
        k += 1;
    }
    proof {
        assert(out@ =~= whole);
    }
    out
}

/// A chain of pages that follow one another is a slice of the image.
pub proof fn consecutive_chain_is_a_slice(s: Seq<u8>, pages: Seq<u32>, page_size: int, size: nat)
    requires
        0 < page_size,
        pages_in(s, pages, page_size),
        pages.len() == pages_for(size as int, page_size),
        size > 0,
        consecutive(pages),
    ensures
        pages[0] * page_size + size <= s.len(),
        0 <= pages[0] * page_size,
        chain(s, pages, page_size, size) == s.subrange(
            pages[0] * page_size,
            pages[0] * page_size + size,
        ),
{
    pages_hold(size as int, page_size);
    let first = pages[0] as int;
    let n = pages.len() as int;
    run_of_pages(pages, n - 1);
    page_fits(s.len() as int, page_size, pages[n - 1] as int);
    page_fits(s.len() as int, page_size, first);
    assert(first * page_size + size <= (first + n - 1) * page_size + page_size)
        by (nonlinear_arith)
        requires
            size <= n * page_size,
    ;
    let whole = chain(s, pages, page_size, size);
    let part = s.subrange(first * page_size, first * page_size + size);
    assert forall|i: int| 0 <= i < size implies whole[i] == part[i] by {
        let k = i / page_size;
        vstd::arithmetic::div_mod::lemma_fundamental_div_mod(i, page_size);
        assert(0 <= k < n) by (nonlinear_arith)
            requires
                i == page_size * k + i % page_size,
                0 <= i % page_size < page_size,
                0 <= i < size,
                size <= n * page_size,
                0 < page_size,
        ;
        run_of_pages(pages, k);
        assert((first + k) * page_size + i % page_size == first * page_size + i)
            by (nonlinear_arith)
            requires
                i == page_size * k + i % page_size,
        ;
    }
    assert(whole =~= part);
}

proof fn run_of_pages(pages: Seq<u32>, k: int)
    requires
        consecutive(pages),
        0 <= k < pages.len(),
    ensures
        pages[k] == pages[0] + k,
    decreases k,
{
    if k > 0 {
        run_of_pages(pages, k - 1);
        assert(pages[(k - 1) + 1] == pages[k - 1] + 1);
    }
}

fn is_consecutive(pages: &Vec<u32>) -> (b: bool)
    ensures
        b == consecutive(pages@),
{
    let n: usize = pages.len();
    let mut k: usize = 1;
    while k < n
        invariant
            1 <= k,
            n == pages@.len(),
            k <= n || n == 0,
            forall|j: int| 0 <= j < k - 1 ==> #[trigger] pages@[j + 1] == pages@[j] + 1,
        decreases n - k,
    {
        if pages[k - 1] == 0xFFFF_FFFF || pages[k] != pages[k - 1] + 1 {
            proof {
                assert(pages@[(k - 1) + 1] != pages@[k - 1] + 1);
            }
            return false;
        }
        proof {
            assert(pages@[(k - 1) + 1] == pages@[k - 1] + 1);
        }
        k += 1;
    }
    true
}

/// Walks a block chain and produces the contiguous first `size` bytes.
///
/// Consecutive chains borrow directly from the image; fragmented chains are
/// copied into one buffer.
fn materialize<'a>(data: &'a [u8], pages: &Vec<u32>, page_size: u32, size: u32) -> (r: StreamData<
    'a,
>)
    requires
        0 < page_size <= 0x10_0000,
        0 < size,
        pages_in(data@, pages@, page_size as int),
        pages@.len() == pages_for(size as int, page_size as int),
    ensures
        (MsfStream { data: r })@ == (StreamView {
            bytes: chain(data@, pages@, page_size as int, size as nat),
            borrowed: consecutive(pages@),
        }),
{
    if is_consecutive(pages) {
        proof {
            pages_hold(size as int, page_size as int);
            consecutive_chain_is_a_slice(data@, pages@, page_size as int, size as nat);
        }
        let total: usize = data.len();
        let start: usize = (pages[0] as u64 * page_size as u64) as usize;
        StreamData::Borrowed(slice_subrange(data, start, start + size as usize))
    } else {
        StreamData::Owned(gather(data, pages, page_size, size))
    }
}

/// Reads page numbers, all of which must lie in an image of so many pages; gives
/// the first that does not otherwise.
fn read_pages(data: &[u8], order: ByteOrder, at: usize, n: usize, total: u64) -> (r: Result<
    Vec<u32>,
    u32,
>)
    requires
        at + 4 * n <= data@.len(),
    ensures
        match r {
            Ok(pages) => pages@ == numbers_at(data@, order, at as int, n as nat) && forall|k: int|
                0 <= k < pages@.len() ==> #[trigger] pages@[k] < total,
            Err(page) => page >= total && exists|k: int|
                0 <= k < n && #[trigger] numbers_at(data@, order, at as int, n as nat)[k] == page,
        },
{
    let ghost whole = numbers_at(data@, order, at as int, n as nat);
    let length: usize = data.len();
    let mut pages: Vec<u32> = Vec::new();
    let mut k: usize = 0;
    while k < n
        invariant
            k <= n,
            length == data@.len(),
            at + 4 * n <= length,
            whole == numbers_at(data@, order, at as int, n as nat),
            pages@ == whole.take(k as int),
            forall|j: int| 0 <= j < k ==> #[trigger] pages@[j] < total,
        decreases n - k,
    {
        let page: u32 = order.u32_at(data, at + 4 * k);
        proof {
            assert(whole[k as int] == page);
        }
        if page as u64 >= total {
            return Err(page);
        }
        pages.push(page);
        proof {
            assert(pages@ =~= whole.take(k + 1));
        }
        k += 1;
    }
    proof {
        assert(whole.take(n as int) =~= whole);
    }
    Ok(pages)
}

/// A parsed MSF container over borrowed image bytes.
///
/// Streams are indexed exactly as the directory numbers them (stream 0 in real
/// native PDBs is typically absent and yields [`None`] from [`MsfImage::stream`]).
#[derive(Debug)]
pub struct MsfImage<'a> {
    /// Page size in bytes.
    pub page_size: u32,
    streams: Vec<Option<MsfStream<'a>>>,
}

impl<'a> View for MsfImage<'a> {
    type V = MsfView;

    closed spec fn view(&self) -> MsfView {
        MsfView { page_size: self.page_size, streams: slot_views(self.streams@) }
    }
}

fn page_size_ok(size: u32) -> (b: bool)
    ensures
        b == valid_page_size(size),
{
    size == 0x80 || size == 0x100 || size == 0x200 || size == 0x400 || size == 0x800 || size
        == 0x1000 || size == 0x2000 || size == 0x4000 || size == 0x8000 || size == 0x1_0000 || size
        == 0x2_0000 || size == 0x4_0000 || size == 0x8_0000 || size == 0x10_0000
}

fn detect_order(data: &[u8]) -> (r: Option<(ByteOrder, u32)>)
    requires
        data@.len() >= 52,
    ensures
        r == detected(data@),
{
    let limit: u32 = bytes::as_low32(data.len());
    let little: u32 = ByteOrder::Little.u32_at(data, 32);
    if page_size_ok(little) && ByteOrder::Little.u32_at(data, 44) <= limit {
        return Some((ByteOrder::Little, little));
    }
    let big: u32 = ByteOrder::Big.u32_at(data, 32);
    if page_size_ok(big) && ByteOrder::Big.u32_at(data, 44) <= limit {
        return Some((ByteOrder::Big, big));
    }
    None
}

fn page_error(what: &str, page: u32, total: u64) -> (e: Error)
    ensures
        e.kind() == ErrorKind::BadImage,
        e.text() == what@ + text::decimal(page as nat) + " beyond image ("@ + text::decimal(
            total as nat,
        ) + " pages)"@,
{
    Error::bad_image(
        Message::new(what).count(page as u64).text(" beyond image (").count(total).text(
            " pages)",
        ).as_str(),
    )
}

/// Gathers the directory stream bytes via MSF's two-level indirection: the
/// superblock's root pages hold the block indices of the directory itself;
/// those blocks then hold the actual directory content, walked exactly like
/// any stream.
fn assemble_directory(data: &[u8], order: ByteOrder, page_size: u32) -> (r: Result<
    Vec<u8>,
    Error,
>)
    requires
        data@.len() >= 52,
        valid_page_size(page_size),
    ensures
        match directory_bytes(data@, order, page_size as int) {
            Some(dir) => r is Ok && r->Ok_0@ == dir,
            None => r is Err && r->Err_0.kind() == ErrorKind::BadImage,
        },
{
    let size: u32 = order.u32_at(data, 44);
    if size == 0 {
        return Err(Error::bad_image("MSF directory size is zero"));
    }
    let total: u64 = data.len() as u64 / page_size as u64;
    let count: u32 = count_pages(size, page_size);
    proof {
        pages_hold(size as int, page_size as int);
        assert(count < 0x400_0000) by (nonlinear_arith)
            requires
                (count - 1) * page_size < size,
                size <= 0xFFFF_FFFF,
                page_size >= 0x80,
        ;
        pages_hold(4 * count as int, page_size as int);
    }
    let roots_count: u32 = count_pages(4 * count, page_size);
    if (data.len() as u64) < 52 + 4 * roots_count as u64 {
        return Err(
            Error::bad_image(
                Message::new("truncated MSF header: ").count(roots_count as u64).text(
                    " directory-root entries need ",
                ).count(52 + 4 * roots_count as u64).text(" bytes, image has ").count(
                    data.len() as u64,
                ).as_str(),
            ),
        );
    }
    let roots = match read_pages(data, order, 52, roots_count as usize, total) {
        Ok(roots) => roots,
        Err(page) => {
            return Err(page_error("MSF directory root page ", page, total));
        },
    };
    let listed = gather(data, &roots, page_size, 4 * count);
    let pages = match read_pages(listed.as_slice(), order, 0, count as usize, total) {
        Ok(pages) => pages,
        Err(page) => {
            return Err(page_error("MSF directory block ", page, total));
        },
    };
    Ok(gather(data, &pages, page_size, size))
}

impl<'a> MsfImage<'a> {
    /// Page size in bytes.
    pub fn page_size(&self) -> (n: u32)
        ensures
            n == self@.page_size,
    {
        self.page_size
    }

    /// Parses an MSF image from its raw bytes.
    ///
    /// Returns [`Err`] on bad magic, truncated headers/directories, invalid page
    /// sizes or out-of-range block references.
    pub fn parse(data: &'a [u8]) -> (r: Result<Self, Error>)
        ensures
            match parsed_msf(data@) {
                Some(v) => r is Ok && r->Ok_0@ == v,
                None => r is Err && r->Err_0.kind() == ErrorKind::BadImage,
            },
    {
        let magic: [u8; 32] = WINDOWS_PDB_MAGIC;
        if data.len() < HEADER_SIZE {
            return Err(Error::bad_image("not a native PDB: missing 'Microsoft C/C++ MSF 7.00' MSF magic"));
        }
        let head = slice_subrange(data, 0, 32);
        proof {
            assert(head@ =~= data@.take(32));
        }
        if !bytes::same_bytes(head, magic.as_slice()) {
            return Err(Error::bad_image("not a native PDB: missing 'Microsoft C/C++ MSF 7.00' MSF magic"));
        }
        let (order, page_size) = match detect_order(data) {
            Some(found) => found,
            None => {
                return Err(
                    Error::bad_image(
                        "invalid MSF page size field (neither endianness decodes to a power of two >= 128)",
                    ),
                );
            },
        };
        let dir = assemble_directory(data, order, page_size)?;
        let streams = read_streams(data, dir.as_slice(), order, page_size)?;
        Ok(MsfImage { page_size, streams })
    }

    /// Returns the bytes of stream `idx`, or [`None`] when the index is out of
    /// range, the stream was declared with a non-positive size (absent), or its
    /// block list was empty.
    pub fn stream(&self, idx: usize) -> (r: Option<&[u8]>)
        ensures
            match stream_bytes(self@, idx as int) {
                Some(b) => r is Some && r->Some_0@ == b,
                None => r is None,
            },
    {
        match self.stream_entry(idx) {
            Some(s) => Some(s.as_slice()),
            None => None,
        }
    }

    /// Stream `idx`, if it is present.
    pub fn stream_entry(&self, idx: usize) -> (r: Option<&MsfStream<'a>>)
        ensures
            if idx < self@.streams.len() {
                match self@.streams[idx as int] {
                    Some(v) => r is Some && r->Some_0@ == v,
                    None => r is None,
                }
            } else {
                r is None
            },
    {
        if idx < self.streams.len() {
            proof {
                assert(self@.streams[idx as int] == slot_view(self.streams@[idx as int]));
            }
            match &self.streams[idx] {
                Some(s) => Some(s),
                None => None,
            }
        } else {
            None
        }
    }

    /// Number of streams declared by the directory (slots may be absent).
    pub fn stream_count(&self) -> (n: usize)
        ensures
            n == self@.streams.len(),
    {
        self.streams.len()
    }

    /// The present streams as `(index, bytes)` pairs.
    pub fn streams(&self) -> (v: Vec<(usize, &[u8])>)
        ensures
            pair_views(v@) == present_from(self@.streams, 0),
    {
        let n: usize = self.streams.len();
        let mut v: Vec<(usize, &[u8])> = Vec::new();
        let mut i: usize = 0;
        proof {
            assert(pair_views(v@) + present_from(self@.streams, 0) =~= present_from(
                self@.streams,
                0,
            ));
        }
        while i < n
            invariant
                i <= n,
                n == self.streams@.len(),
                pair_views(v@) + present_from(self@.streams, i as int) == present_from(
                    self@.streams,
                    0,
                ),
            decreases n - i,
        {
            let ghost before = pair_views(v@);
            proof {
                assert(self@.streams[i as int] == slot_view(self.streams@[i as int]));
            }
            match &self.streams[i] {
                Some(s) => {
                    let b = s.as_slice();
                    v.push((i, b));
                    proof {
                        let rest = present_from(self@.streams, i + 1);
                        assert(pair_views(v@) =~= before.push((i as int, b@)));
                        assert(before + (seq![(i as int, b@)] + rest) =~= pair_views(v@) + rest);
                    }
                },
                None => {},
            }
            i += 1;
        }
        proof {
            assert(pair_views(v@) + Seq::<(int, Seq<u8>)>::empty() =~= pair_views(v@));
        }
        v
    }
}

/// The bytes of a stream of an image.
pub open spec fn stream_bytes(m: MsfView, idx: int) -> Option<Seq<u8>> {
    if 0 <= idx < m.streams.len() {
        match m.streams[idx] {
            Some(v) => Some(v.bytes),
            None => None,
        }
    } else {
        None
    }
}

/// Indexes with bytes.
pub open spec fn pair_views(pairs: Seq<(usize, &[u8])>) -> Seq<(int, Seq<u8>)> {
    Seq::new(pairs.len(), |k: int| (pairs[k].0 as int, pairs[k].1@))
}

/// The streams that are present, from the `i`-th one on.
pub open spec fn present_from(streams: Seq<Option<StreamView>>, i: int) -> Seq<(int, Seq<u8>)>
    decreases streams.len() - i,
{
    if i < 0 || i >= streams.len() {
        Seq::empty()
    } else {
        match streams[i] {
            Some(v) => seq![(i, v.bytes)] + present_from(streams, i + 1),
            None => present_from(streams, i + 1),
        }
    }
}

/// Reads the streams that a directory lists.
fn read_streams<'a>(data: &'a [u8], dir: &[u8], order: ByteOrder, page_size: u32) -> (r: Result<
    Vec<Option<MsfStream<'a>>>,
    Error,
>)
    requires
        valid_page_size(page_size),
    ensures
        ({
            let count = order.at(dir@, 0) as int;
            if dir@.len() < 4 || dir@.len() < 4 + 4 * count {
                r is Err && r->Err_0.kind() == ErrorKind::BadImage
            } else {
                match streams_from(
                    data@,
                    dir@,
                    order,
                    page_size as int,
                    count,
                    0,
                    4 + 4 * count,
                ) {
                    Some(v) => r is Ok && slot_views(r->Ok_0@) == v,
                    None => r is Err && r->Err_0.kind() == ErrorKind::BadImage,
                }
            }
        }),
{
    let length: usize = dir.len();
    if length < 4 {
        return Err(Error::bad_image("truncated MSF directory header"));
    }
    let count: u32 = order.u32_at(dir, 0);
    if (length as u64) < 4 + 4 * count as u64 {
        return Err(
            Error::bad_image(
                Message::new("truncated MSF directory: ").count(count as u64).text(
                    " sizes beyond ",
                ).count(length as u64).text(" bytes").as_str(),
            ),
        );
    }
    let total: u64 = data.len() as u64 / page_size as u64;
    let ghost ps = page_size as int;
    let ghost whole = streams_from(data@, dir@, order, ps, count as int, 0, 4 + 4 * count);
    let mut pos: usize = 4 + 4 * count as usize;
    let mut streams: Vec<Option<MsfStream<'a>>> = Vec::new();
    let mut i: u32 = 0;
    proof {
        assert(slot_views(streams@) =~= Seq::<Option<StreamView>>::empty());
        if let Some(rest) = whole {
            assert(slot_views(streams@) + rest =~= rest);
        }
    }
    while i < count
        invariant
            i <= count,
            length == dir@.len(),
            4 + 4 * count <= length,
            pos <= length,
            valid_page_size(page_size),
            ps == page_size,
            total == data@.len() as int / ps,
            count == order.at(dir@, 0),
            whole == streams_from(data@, dir@, order, ps, count as int, 0, 4 + 4 * count),
            whole == (match streams_from(
                data@,
                dir@,
                order,
                ps,
                count as int,
                i as int,
                pos as int,
            ) {
                Some(rest) => Some(slot_views(streams@) + rest),
                None => None,
            }),
        decreases count - i,
    {
        let ghost before = slot_views(streams@);
        let size: i32 = bytes::as_i32(order.u32_at(dir, 4 + 4 * i as usize));
        if size <= 0 {
            streams.push(None);
            proof {
                let now = slot_views(streams@);
                assert(now =~= before.push(None));
                if let Some(rest) = streams_from(
                    data@,
                    dir@,
                    order,
                    ps,
                    count as int,
                    i + 1,
                    pos as int,
                ) {
                    assert(before + (seq![None::<StreamView>] + rest) =~= now + rest);
                }
            }
        } else {
            let n: u32 = count_pages(size as u32, page_size);
            if ((length - pos) as u64) < 4 * n as u64 {
                return Err(
                    Error::bad_image(
                        Message::new("truncated MSF directory: block list of stream ").count(
                            i as u64,
                        ).text(" beyond directory end").as_str(),
                    ),
                );
            }
            let pages = match read_pages(dir, order, pos, n as usize, total) {
                Ok(pages) => pages,
                Err(page) => {
                    return Err(
                        Error::bad_image(
                            Message::new("MSF stream ").count(i as u64).text(
                                " references page ",
                            ).count(page as u64).text(" beyond image (").count(total).text(
                                " pages)",
                            ).as_str(),
                        ),
                    );
                },
            };
            let stream = MsfStream { data: materialize(data, &pages, page_size, size as u32) };
            let ghost view = stream@;
            streams.push(Some(stream));
            proof {
                let now = slot_views(streams@);
                assert(now =~= before.push(Some(view)));
                if let Some(rest) = streams_from(
                    data@,
                    dir@,
                    order,
                    ps,
                    count as int,
                    i + 1,
                    pos + 4 * n,
                ) {
                    assert(before + (seq![Some(view)] + rest) =~= now + rest);
                }
            }
            pos = pos + 4 * n as usize;
        }
        i += 1;
    }
    proof {
        assert(slot_views(streams@) + Seq::<Option<StreamView>>::empty() =~= slot_views(streams@));
    }
    Ok(streams)
}

/// Free-block bitmap: word count followed by `u32` words.
#[derive(Debug)]
pub struct BitSet<'b> {
    words: &'b [u8],
    word_count: u32,
    byte_order: ByteOrder,
}

impl<'b> View for BitSet<'b> {
    type V = Seq<u32>;

    closed spec fn view(&self) -> Seq<u32> {
        numbers_at(self.words@, self.byte_order, 0, self.word_count as nat)
    }
}

/// The words of a bit set, and how many bytes it takes.
pub open spec fn parsed_bits(s: Seq<u8>, order: ByteOrder) -> Option<(Seq<u32>, int)> {
    let count = order.at(s, 0);
    if s.len() < 4 || s.len() < 4 + 4 * count {
        None
    } else {
        Some((numbers_at(s.skip(4), order, 0, count as nat), 4 + 4 * count))
    }
}

/// The bit is set.
pub open spec fn bit_of(words: Seq<u32>, index: u32) -> bool {
    index / 32 < words.len() && words[index as int / 32] & (1u32 << (index % 32)) != 0
}

impl<'b> BitSet<'b> {
    #[verifier::type_invariant]
    spec fn sound(self) -> bool {
        self.words@.len() == 4 * self.word_count
    }

    /// Decodes a bit set from the front of `data`; returns the set and how many
    /// bytes it consumed (`4 * (word_count + 1)`).
    pub fn from_bytes(data: &'b [u8], byte_order: ByteOrder) -> (r: Result<(Self, usize), Error>)
        ensures
            match parsed_bits(data@, byte_order) {
                Some((words, used)) => r is Ok && r->Ok_0.0@ == words && r->Ok_0.1 == used,
                None => r is Err && r->Err_0.kind() == ErrorKind::BadImage,
            },
    {
        let n: usize = data.len();
        if n < 4 {
            return Err(Error::bad_image("truncated MSF bit set header"));
        }
        let word_count: u32 = byte_order.u32_at(data, 0);
        if (n as u64) < 4 + 4 * word_count as u64 {
            return Err(Error::bad_image("truncated MSF bit set words"));
        }
        let consumed: usize = 4 + 4 * word_count as usize;
        let words = slice_subrange(data, 4, consumed);
        let set = BitSet { words, word_count, byte_order };
        proof {
            let expected = numbers_at(data@.skip(4), byte_order, 0, word_count as nat);
            assert(words@ =~= data@.skip(4).take(words@.len() as int));
            assert forall|k: int| 0 <= k < word_count implies #[trigger] set@[k] == expected[k] by {
                same_number(words@, data@.skip(4), byte_order, 4 * k);
            }
            assert(set@ =~= expected);
        }
        Ok((set, consumed))
    }

    /// Whether block `index` is marked set (free).
    pub fn is_set(&self, index: u32) -> (b: bool)
        ensures
            b == bit_of(self@, index),
    {
        proof {
            use_type_invariant(self);
        }
        let word: u32 = index / 32;
        if word >= self.word_count {
            return false;
        }
        let w: u32 = self.byte_order.u32_at(self.words, 4 * word as usize);
        w & (1u32 << (index % 32)) != 0
    }

    /// True when the set declares no words.
    pub fn is_empty(&self) -> (b: bool)
        ensures
            b == (self@.len() == 0),
    {
        self.word_count == 0
    }
}

/// Equal bytes make equal numbers.
proof fn same_number(a: Seq<u8>, b: Seq<u8>, order: ByteOrder, at: int)
    requires
        0 <= at,
        at + 4 <= a.len() <= b.len(),
        a == b.take(a.len() as int),
    ensures
        order.at(a, at) == order.at(b, at),
{
    reveal(bytes::u32_at);
    reveal(bytes::u32_be_at);
    let head = b.take(a.len() as int);
    assert(head[at] == b[at]);
    assert(head[at + 1] == b[at + 1]);
    assert(head[at + 2] == b[at + 2]);
    assert(head[at + 3] == b[at + 3]);
}

} // verus!
