//! How streams are laid out on the pages of a file.

use vstd::prelude::*;

use crate::bytes;
use crate::encoding_laws;
use crate::pdb::native::msf;
use crate::pdb::native::msf::{ByteOrder, MsfView, StreamView};

verus! {

/// The page sizes are the powers of two from 128 to 1048576.
pub proof fn page_sizes(size: u32)
    ensures
        msf::valid_page_size(size) <==> 128 <= size <= 1048576 && size & (size - 1) as u32 == 0,
{
    assert((128 <= size <= 1048576 && size & (size - 1) as u32 == 0) == (size == 0x80 || size == 0x100
        || size == 0x200 || size == 0x400 || size == 0x800 || size == 0x1000 || size == 0x2000
        || size == 0x4000 || size == 0x8000 || size == 0x1_0000 || size == 0x2_0000 || size
        == 0x4_0000 || size == 0x8_0000 || size == 0x10_0000)) by (bit_vector);
}

/// So many pages are taken as are needed and no more.
pub proof fn pages_suffice(size: int, page_size: int)
    requires
        0 <= size,
        0 < page_size,
    ensures
        msf::pages_for(size, page_size) * page_size >= size,
        (msf::pages_for(size, page_size) - 1) * page_size < size || size == 0,
        size == 0 ==> msf::pages_for(size, page_size) == 0,
{
    let n = size + page_size - 1;
    let q = n / page_size;
    vstd::arithmetic::div_mod::lemma_fundamental_div_mod(n, page_size);
    vstd::arithmetic::div_mod::lemma_mod_bound(n, page_size);
    assert(q * page_size >= size && (q - 1) * page_size < size) by (nonlinear_arith)
        requires
            n == page_size * q + n % page_size,
            0 <= n % page_size < page_size,
            n == size + page_size - 1,
    ;
    if size == 0 {
        vstd::arithmetic::div_mod::lemma_small_mod(n as nat, page_size as nat);
        assert(q == 0) by (nonlinear_arith)
            requires
                n == page_size * q + n,
                0 < page_size,
        ;
    }
}

/// An image starts with the text that names its format.
pub proof fn magic_of_an_image(s: Seq<u8>)
    requires
        msf::parsed_msf(s) is Some,
    ensures
        s.len() >= 52,
        s.take(26) == "Microsoft C/C++ MSF 7.00\r\n"@.map_values(|c: char| c as u8),
        s[26] == 0x1A,
        s[27] == 0x44,
        s[28] == 0x53,
        s[29] == 0,
        s[30] == 0,
        s[31] == 0,
{
    reveal_strlit("Microsoft C/C++ MSF 7.00\r\n");
    let m = msf::WINDOWS_PDB_MAGIC@;
    assert(forall|i: int| 0 <= i < 32 ==> s.take(32)[i] == s[i]);
    assert(s.take(26) =~= "Microsoft C/C++ MSF 7.00\r\n"@.map_values(|c: char| c as u8));
}

/// The page size stands at 32 and the size of the directory at 44, lowest byte
/// first; where that makes no sense, highest byte first.
pub proof fn byte_orders(s: Seq<u8>)
    requires
        s.len() >= 52,
        s.len() <= u32::MAX,
    ensures
        msf::valid_page_size(encoding_laws::double_word(s, 32) as u32) && encoding_laws::double_word(s, 44) <= s.len()
            ==> msf::detected(s) == Some((ByteOrder::Little, encoding_laws::double_word(s, 32) as u32)),
        !(msf::valid_page_size(encoding_laws::double_word(s, 32) as u32) && encoding_laws::double_word(s, 44) <= s.len()) ==> (
        msf::detected(s) matches Some((order, size)) ==> order == ByteOrder::Big && size
            == 0x100_0000 * s[32] + 0x1_0000 * s[33] + 0x100 * s[34] + s[35]),
{
    encoding_laws::words_agree(s);
    reveal(bytes::u32_be_at);
    assert(bytes::u32_at(s, 32) == encoding_laws::double_word(s, 32));
    assert(bytes::u32_at(s, 44) == encoding_laws::double_word(s, 44));
}

proof fn one_page(s: Seq<u8>, page: u32, page_size: int, size: nat)
    requires
        size <= page_size,
        0 < page_size,
        page * page_size + page_size <= s.len(),
    ensures
        msf::chain(s, seq![page], page_size, size) == s.subrange(
            page * page_size,
            page * page_size + size,
        ),
        msf::pages_in(s, seq![page], page_size),
{
    let found = msf::chain(s, seq![page], page_size, size);
    assert(0 <= page * page_size) by (nonlinear_arith)
        requires
            0 <= page,
            0 < page_size,
    ;
    assert forall|i: int| 0 <= i < size implies #[trigger] found[i] == s[page * page_size + i] by {
        vstd::arithmetic::div_mod::lemma_basic_div(i, page_size);
        vstd::arithmetic::div_mod::lemma_small_mod(i as nat, page_size as nat);
    }
    assert(found =~= s.subrange(page * page_size, page * page_size + size));
    assert(page < s.len() as int / page_size) by {
        vstd::arithmetic::div_mod::lemma_div_is_ordered(
            page * page_size + page_size,
            s.len() as int,
            page_size,
        );
        assert((page + 1) * page_size == page * page_size + page_size) by (nonlinear_arith);
        vstd::arithmetic::div_mod::lemma_div_by_multiple(page + 1, page_size);
    }
}

proof fn one_page_suffices(size: int, page_size: int)
    requires
        0 < size <= page_size,
    ensures
        msf::pages_for(size, page_size) == 1,
{
    let n = size + page_size - 1;
    vstd::arithmetic::div_mod::lemma_fundamental_div_mod(n, page_size);
    vstd::arithmetic::div_mod::lemma_mod_bound(n, page_size);
    let q = n / page_size;
    assert(q == 1) by (nonlinear_arith)
        requires
            n == page_size * q + n % page_size,
            0 <= n % page_size < page_size,
            page_size <= n < 2 * page_size,
    ;
}

/// The `k`-th of the streams of a directory that gives each a page.
pub open spec fn paged_stream(
    s: Seq<u8>,
    dir: Seq<u8>,
    page_size: int,
    count: int,
    k: int,
) -> Option<StreamView> {
    let size = encoding_laws::double_word(dir, 4 + 4 * k);
    let page = encoding_laws::double_word(dir, 4 + 4 * count + 4 * k);
    Some(
        StreamView {
            bytes: s.subrange(page * page_size, page * page_size + size),
            borrowed: true,
        },
    )
}

proof fn paged_streams_from(s: Seq<u8>, dir: Seq<u8>, page_size: int, count: int, i: int)
    requires
        0 <= i <= count,
        0 < page_size <= 0x10_0000,
        dir.len() == 4 + 8 * count,
        forall|k: int|
            #![trigger encoding_laws::double_word(dir, 4 + 4 * k)]
            0 <= k < count ==> 0 < encoding_laws::double_word(dir, 4 + 4 * k) <= page_size && encoding_laws::double_word(
                dir,
                4 + 4 * count + 4 * k,
            ) * page_size + page_size <= s.len(),
    ensures
        msf::streams_from(
            s,
            dir,
            ByteOrder::Little,
            page_size,
            count,
            i,
            4 + 4 * count + 4 * i,
        ) == Some(
            Seq::new(
                (count - i) as nat,
                |k: int| paged_stream(s, dir, page_size, count, i + k),
            ),
        ),
    decreases count - i,
{
    encoding_laws::words_agree(dir);
    let want = Seq::new(
        (count - i) as nat,
        |k: int| paged_stream(s, dir, page_size, count, i + k),
    );
    if i < count {
        let pos = 4 + 4 * count + 4 * i;
        let size = encoding_laws::double_word(dir, 4 + 4 * i);
        let page = encoding_laws::double_word(dir, pos);
        assert(bytes::u32_at(dir, 4 + 4 * i) == size);
        assert(bytes::u32_at(dir, pos) == page);
        one_page_suffices(size, page_size);
        assert(msf::numbers_at(dir, ByteOrder::Little, pos, 1) =~= seq![page as u32]);
        one_page(s, page as u32, page_size, size as nat);
        paged_streams_from(s, dir, page_size, count, i + 1);
        let rest = Seq::new(
            (count - i - 1) as nat,
            |k: int| paged_stream(s, dir, page_size, count, i + 1 + k),
        );
        assert(msf::consecutive(seq![page as u32]));
        assert forall|k: int| 0 <= k < rest.len() implies #[trigger] rest[k] == want[k + 1] by {}
        assert(want =~= seq![paged_stream(s, dir, page_size, count, i)] + rest);
    } else {
        assert(want =~= Seq::<Option<StreamView>>::empty());
    }
}

/// An image whose directory lies on one page, which the header finds through one
/// root page, and whose streams lie on one page each, has these streams: the
/// directory gives their number, their sizes and then their pages.
#[verifier::spinoff_prover]
#[verifier::rlimit(80)]
pub proof fn paged_image_is_read(
    s: Seq<u8>,
    page_size: u32,
    root: u32,
    listed: u32,
    count: int,
)
    requires
        s.len() <= u32::MAX,
        s.len() >= 56,
        s.take(32) == msf::WINDOWS_PDB_MAGIC@,
        msf::valid_page_size(page_size),
        encoding_laws::double_word(s, 32) == page_size,
        encoding_laws::double_word(s, 44) == 4 + 8 * count,
        0 <= count,
        4 + 8 * count <= page_size,
        encoding_laws::double_word(s, 52) == root,
        root * page_size + page_size <= s.len(),
        encoding_laws::double_word(s, root * page_size) == listed,
        listed * page_size + page_size <= s.len(),
        encoding_laws::double_word(s, listed * page_size) == count,
        forall|k: int|
            #![trigger encoding_laws::double_word(s, listed * page_size + 4 + 4 * k)]
            0 <= k < count ==> 0 < encoding_laws::double_word(s, listed * page_size + 4 + 4 * k) <= page_size
                && encoding_laws::double_word(s, listed * page_size + 4 + 4 * count + 4 * k) * page_size
                + page_size <= s.len(),
    ensures
        msf::parsed_msf(s) matches Some(m) && {
            &&& m.page_size == page_size
            &&& m.streams.len() == count
            &&& forall|k: int|
                #![trigger m.streams[k]]
                0 <= k < count ==> m.streams[k] is Some && m.streams[k]->Some_0.bytes == s.subrange(
                    encoding_laws::double_word(s, listed * page_size + 4 + 4 * count + 4 * k) * page_size,
                    encoding_laws::double_word(s, listed * page_size + 4 + 4 * count + 4 * k) * page_size
                        + encoding_laws::double_word(s, listed * page_size + 4 + 4 * k),
                )
        },
{
    encoding_laws::words_agree(s);
    let ps = page_size as int;
    let size = 4 + 8 * count;
    assert(bytes::u32_at(s, 32) == encoding_laws::double_word(s, 32));
    assert(bytes::u32_at(s, 44) == encoding_laws::double_word(s, 44));
    assert(bytes::u32_at(s, 52) == encoding_laws::double_word(s, 52));
    assert(msf::detected(s) == Some((ByteOrder::Little, page_size)));
    one_page_suffices(size, ps);
    one_page_suffices(4, ps);
    assert(msf::root_pages(s, ByteOrder::Little, ps, size) =~= seq![root]);
    one_page(s, root, ps, 4);
    one_page(s, listed, ps, size as nat);
    assert(0 <= root * ps && 0 <= listed * ps) by (nonlinear_arith)
        requires
            0 <= root,
            0 <= listed,
            0 < ps,
    ;
    let inner = s.subrange(root * ps, root * ps + 4);
    encoding_laws::words_agree(inner);
    assert(encoding_laws::double_word(inner, 0) == encoding_laws::double_word(s, root * ps));
    assert(bytes::u32_at(inner, 0) == encoding_laws::double_word(inner, 0));
    assert(msf::numbers_at(inner, ByteOrder::Little, 0, 1) =~= seq![listed]);
    let dir = s.subrange(listed * ps, listed * ps + size);
    assert(msf::directory_bytes(s, ByteOrder::Little, ps) == Some(dir));
    encoding_laws::words_agree(dir);
    assert(encoding_laws::double_word(dir, 0) == encoding_laws::double_word(s, listed * ps));
    assert(bytes::u32_at(dir, 0) == encoding_laws::double_word(dir, 0));
    assert forall|k: int|
        #![trigger encoding_laws::double_word(dir, 4 + 4 * k)]
        0 <= k < count implies 0 < encoding_laws::double_word(dir, 4 + 4 * k) <= ps && encoding_laws::double_word(
        dir,
        4 + 4 * count + 4 * k,
    ) * ps + ps <= s.len() && encoding_laws::double_word(dir, 4 + 4 * k) == encoding_laws::double_word(
        s,
        listed * ps + 4 + 4 * k,
    ) && encoding_laws::double_word(dir, 4 + 4 * count + 4 * k) == encoding_laws::double_word(
        s,
        listed * ps + 4 + 4 * count + 4 * k,
    ) by {
        assert(encoding_laws::double_word(dir, 4 + 4 * k) == encoding_laws::double_word(s, listed * ps + 4 + 4 * k));
        assert(encoding_laws::double_word(dir, 4 + 4 * count + 4 * k) == encoding_laws::double_word(
            s,
            listed * ps + 4 + 4 * count + 4 * k,
        ));
    }
    paged_streams_from(s, dir, ps, count, 0);
    let m = msf::parsed_msf(s)->Some_0;
    assert forall|k: int| #![trigger m.streams[k]] 0 <= k < count implies m.streams[k] is Some
        && m.streams[k]->Some_0.bytes == s.subrange(
        encoding_laws::double_word(s, listed * page_size + 4 + 4 * count + 4 * k) * page_size,
        encoding_laws::double_word(s, listed * page_size + 4 + 4 * count + 4 * k) * page_size + encoding_laws::double_word(
            s,
            listed * page_size + 4 + 4 * k,
        ),
    ) by {
        assert(m.streams[k] == paged_stream(s, dir, ps, count, k));
        assert(encoding_laws::double_word(dir, 4 + 4 * k) == encoding_laws::double_word(s, listed * ps + 4 + 4 * k));
    }
}

/// A byte of a stream lies on the page of its place among the pages, as far into
/// it as is left.
pub proof fn bytes_lie_on_their_pages(
    s: Seq<u8>,
    pages: Seq<u32>,
    page_size: int,
    size: nat,
    page: int,
    offset: int,
)
    requires
        0 < page_size,
        0 <= page,
        0 <= offset < page_size,
        page * page_size + offset < size,
    ensures
        msf::chain(s, pages, page_size, size).len() == size,
        msf::chain(s, pages, page_size, size)[page * page_size + offset] == s[pages[page] * page_size
            + offset],
{
    let i = page * page_size + offset;
    assert(0 <= i) by (nonlinear_arith)
        requires
            0 <= page,
            0 < page_size,
            0 <= offset,
            i == page * page_size + offset,
    ;
    vstd::arithmetic::div_mod::lemma_fundamental_div_mod_converse(i, page_size, page, offset);
}

/// The streams of an image by their numbers.
pub proof fn streams_by_number(m: MsfView, k: int)
    ensures
        0 <= k < m.streams.len() && m.streams[k] is Some ==> msf::stream_bytes(m, k) == Some(
            m.streams[k]->Some_0.bytes,
        ),
        !(0 <= k < m.streams.len()) || m.streams[k] is None ==> msf::stream_bytes(m, k) is None,
{
}

/// A bit set is the number of its words and then the words, lowest bits first.
pub proof fn bit_sets_are_read(s: Seq<u8>, k: int, index: u32)
    requires
        s.len() >= 4,
        0 <= k < encoding_laws::double_word(s, 0),
        index / 32 == k,
    ensures
        msf::parsed_bits(s, ByteOrder::Little) is Some <==> 4 + 4 * encoding_laws::double_word(s, 0)
            <= s.len(),
        msf::parsed_bits(s, ByteOrder::Little) matches Some(found) ==> {
            &&& found.0.len() == encoding_laws::double_word(s, 0)
            &&& found.1 == 4 + 4 * encoding_laws::double_word(s, 0)
            &&& found.0[k] == encoding_laws::double_word(s, 4 + 4 * k)
            &&& msf::bit_of(found.0, index) <==> (found.0[k] >> (index % 32)) & 1 == 1
        },
        forall|words: Seq<u32>|
            words.len() <= k ==> !#[trigger] msf::bit_of(words, index),
{
    encoding_laws::words_agree(s);
    assert(bytes::u32_at(s, 0) == encoding_laws::double_word(s, 0));
    if let Some(found) = msf::parsed_bits(s, ByteOrder::Little) {
        let tail = s.skip(4);
        encoding_laws::words_agree(tail);
        assert(found.0[k] == bytes::u32_at(tail, 4 * k));
        assert(bytes::u32_at(tail, 4 * k) == encoding_laws::double_word(tail, 4 * k));
        assert(encoding_laws::double_word(tail, 4 * k) == encoding_laws::double_word(s, 4 + 4 * k));
        let w = found.0[k];
        let b = index % 32;
        assert(b < 32 ==> ((w & (1u32 << b)) != 0) == ((w >> b) & 1 == 1)) by (bit_vector);
    }
}

} // verus!
