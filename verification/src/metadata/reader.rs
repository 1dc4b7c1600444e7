//! `MetadataReader`: parses a complete metadata root slice and exposes heap
//! lookups plus raw cell access for every table.

use vstd::prelude::*;
use vstd::slice::slice_subrange;

use crate::bytes;
use crate::error::{Error, ErrorKind};
use crate::io::ByteReader;
use crate::metadata::heaps;
use crate::metadata::heaps::{
    BlobHeap, GuidHeap, Heaps, HeapsView, PdbHeap, PdbView, StringHeap, UserStringHeap,
};
use crate::metadata::root;
use crate::metadata::root::{parse_root, stream_slice, StreamView};
use crate::metadata::tables;
use crate::metadata::tables::{TableSet, TableShape, TABLE_COUNT};
use crate::text;
use crate::text::Message;
use crate::token;
use crate::token::TableIndex;

verus! {

broadcast use crate::bytes::widths;

/// The payload of the last stream with the name, or nothing.
pub open spec fn last_stream(data: Seq<u8>, streams: Seq<StreamView>, name: Seq<char>) -> Option<
    Seq<u8>,
>
    decreases streams.len(),
{
    if streams.len() == 0 {
        None
    } else if streams.last().name == name {
        root::stream_payload(data, streams.last())
    } else {
        last_stream(data, streams.drop_last(), name)
    }
}

/// The payload of the last table stream, `#~` or `#-`.
pub open spec fn table_stream(data: Seq<u8>, streams: Seq<StreamView>) -> Option<Seq<u8>>
    decreases streams.len(),
{
    if streams.len() == 0 {
        None
    } else if streams.last().name == "#~"@ || streams.last().name == "#-"@ {
        root::stream_payload(data, streams.last())
    } else {
        table_stream(data, streams.drop_last())
    }
}

/// Every stream lies inside the root, and every `#Pdb` stream parses.
pub open spec fn streams_sound(data: Seq<u8>, streams: Seq<StreamView>) -> bool {
    forall|k: int|
        #![trigger streams[k]]
        0 <= k < streams.len() ==> root::stream_payload(data, streams[k]) is Some && (
        streams[k].name == "#Pdb"@ ==> heaps::parsed_pdb(
            root::stream_payload(data, streams[k])->Some_0,
        ) is Some)
}

pub open spec fn or_empty(s: Option<Seq<u8>>) -> Seq<u8> {
    match s {
        Some(b) => b,
        None => Seq::empty(),
    }
}

/// The heaps of a root with sound streams.
pub open spec fn heaps_of(data: Seq<u8>, streams: Seq<StreamView>) -> HeapsView {
    HeapsView {
        strings: or_empty(last_stream(data, streams, "#Strings"@)),
        user_strings: or_empty(last_stream(data, streams, "#US"@)),
        blob: or_empty(last_stream(data, streams, "#Blob"@)),
        guid: or_empty(last_stream(data, streams, "#GUID"@)),
        pdb: match last_stream(data, streams, "#Pdb"@) {
            Some(p) => heaps::parsed_pdb(p),
            None => None,
        },
    }
}

/// The row counts of a table stream: those of the `#Pdb` heap, replaced by
/// those of the stream itself for the tables that it holds.
pub open spec fn row_counts(heap: Seq<u8>, pdb: Option<PdbView>) -> Seq<u32> {
    let valid = bytes::u64_at(heap, 8);
    Seq::new(
        0x38,
        |i: int|
            if tables::bit(valid, i) {
                heaps::counts_at(heap, 24, valid)[i]
            } else {
                match pdb {
                    Some(p) => if token::is_table_number(i as u8) {
                        p.counts[i]
                    } else {
                        0
                    },
                    None => 0,
                }
            },
    )
}

/// The table layout of a table stream.
pub open spec fn parsed_tables(heap: Seq<u8>, pdb: Option<PdbView>) -> Result<
    TableShape,
    ErrorKind,
> {
    if heap.len() < 6 {
        Err(ErrorKind::BadImage)
    } else if heap[4] != 1 && heap[4] != 2 {
        Err(ErrorKind::Unsupported)
    } else if heap.len() < 24 {
        Err(ErrorKind::BadImage)
    } else {
        let valid = bytes::u64_at(heap, 8);
        if 24 + 4 * heaps::bits_below(valid, 0x38) > heap.len() {
            Err(ErrorKind::BadImage)
        } else if !tables::all_known(valid) {
            Err(ErrorKind::Unsupported)
        } else {
            Ok(TableShape { valid, counts: row_counts(heap, pdb), heap_flags: heap[6] })
        }
    }
}

/// What a metadata root says.
#[verifier::ext_equal]
pub struct MetadataView {
    pub version: Seq<char>,
    pub heaps: HeapsView,
    pub shape: TableShape,
    pub table_data: Seq<u8>,
}

/// The metadata of a root.
pub open spec fn parsed_metadata(data: Seq<u8>) -> Result<MetadataView, ErrorKind> {
    match root::parsed_root(data) {
        None => Err(ErrorKind::BadImage),
        Some(header) => if !streams_sound(data, header.streams) {
            Err(ErrorKind::BadImage)
        } else {
            match table_stream(data, header.streams) {
                None => Err(ErrorKind::BadImage),
                Some(heap) => match parsed_tables(heap, heaps_of(data, header.streams).pdb) {
                    Err(e) => Err(e),
                    Ok(shape) => Ok(
                        MetadataView {
                            version: header.version,
                            heaps: heaps_of(data, header.streams),
                            shape,
                            table_data: heap.skip((24 + 4 * heaps::bits_below(shape.valid, 0x38)) as int),
                        },
                    ),
                }
            }
        },
    }
}

/// The value of a cell of one, two or four bytes.
pub open spec fn cell_value(data: Seq<u8>, pos: int, width: nat) -> u64 {
    if width == 1 {
        data[pos] as u64
    } else if width == 2 {
        bytes::u16_at(data, pos) as u64
    } else {
        bytes::u32_at(data, pos) as u64
    }
}

impl MetadataView {
    /// The value of a cell.
    pub open spec fn cell(self, table: TableIndex, rid: u32, col: int) -> Result<u64, ErrorKind> {
        if !(self.shape.has(table.number() as int) && 1 <= rid
            <= self.shape.counts[table.number() as int] && 0 <= col < tables::schema(table).len()) {
            Err(ErrorKind::Argument)
        } else {
            let pos = self.shape.cell_offset(table, rid as int, col);
            let width = self.shape.width(tables::schema(table)[col]);
            if pos + width > self.table_data.len() {
                Err(ErrorKind::BadImage)
            } else {
                Ok(cell_value(self.table_data, pos, width))
            }
        }
    }

    /// What is said of a cell that cannot be read.
    pub open spec fn cell_failure(self, table: TableIndex, rid: u32, col: nat) -> Seq<char> {
        if self.cell(table, rid, col as int) == Err::<u64, ErrorKind>(ErrorKind::Argument) {
            self.shape.cell_failure(table, rid, col)
        } else {
            let pos = self.shape.cell_offset(table, rid as int, col as int);
            let width = self.shape.width(tables::schema(table)[col as int]);
            "cell ["@ + text::decimal(pos as nat) + ", "@ + text::decimal((pos + width) as nat)
                + ") outside #~ data of "@ + text::decimal(self.table_data.len()) + " bytes"@
        }
    }

    /// Number of columns of a table, zero where the table is absent.
    pub open spec fn columns(self, table: TableIndex) -> nat {
        if self.shape.has(table.number() as int) {
            tables::schema(table).len()
        } else {
            0
        }
    }

    /// Number of rows of a table, zero where the table is absent.
    pub open spec fn rows(self, table: TableIndex) -> u32 {
        self.shape.rows(table)
    }

    /// The cells of a row, in column order. An absent table has no cells.
    pub open spec fn row(self, table: TableIndex, rid: u32) -> Result<Seq<u64>, ErrorKind> {
        self.row_from(table, rid, 0)
    }

    /// The cells of a row from column `col` on; the first cell that cannot be
    /// read decides the error.
    pub open spec fn row_from(self, table: TableIndex, rid: u32, col: int) -> Result<
        Seq<u64>,
        ErrorKind,
    >
        decreases self.columns(table) - col,
    {
        if col < 0 || col >= self.columns(table) {
            Ok(Seq::empty())
        } else {
            match self.cell(table, rid, col) {
                Err(e) => Err(e),
                Ok(v) => match self.row_from(table, rid, col + 1) {
                    Err(e) => Err(e),
                    Ok(rest) => Ok(seq![v] + rest),
                },
            }
        }
    }
}

/// Read-only access to one metadata root (`BSJB` blob): heaps and tables.
///
/// The reader borrows the root slice; all returned strings, blobs, and GUIDs
/// borrow from it too.
#[derive(Debug)]
pub struct MetadataReader<'a> {
    version: String,
    heaps: Heaps<'a>,
    tables: TableSet,
    /// Payload of the `#~` stream after its header (row data only).
    table_data: &'a [u8],
}

impl<'a> View for MetadataReader<'a> {
    type V = MetadataView;

    closed spec fn view(&self) -> MetadataView {
        MetadataView {
            version: self.version@,
            heaps: self.heaps@,
            shape: self.tables@,
            table_data: self.table_data@,
        }
    }
}

impl<'a> MetadataReader<'a> {
    /// Parses a metadata root slice.
    pub fn parse(data: &'a [u8]) -> (r: Result<MetadataReader<'a>, Error>)
        ensures
            match parsed_metadata(data@) {
                Ok(v) => r is Ok && r->Ok_0@ == v,
                Err(e) => r is Err && r->Err_0.kind() == e,
            },
            root::parsed_root(data@) is None && data@.len() <= isize::MAX ==> r->Err_0.text()
                == root::root_failure(data@),
    {
        let header = parse_root(data)?;
        let nothing: &'a [u8] = slice_subrange(data, 0, 0);
        let mut strings: &'a [u8] = nothing;
        let mut user_strings: &'a [u8] = nothing;
        let mut blob: &'a [u8] = nothing;
        let mut guid: &'a [u8] = nothing;
        let mut pdb: Option<PdbHeap<'a>> = None;
        let mut table_heap: Option<&'a [u8]> = None;
        let ghost views = root::stream_views(header.streams@);
        let n: usize = header.streams.len();
        let mut i: usize = 0;
        proof {
            assert(nothing@ =~= Seq::<u8>::empty());
            assert(views.take(0) =~= Seq::<StreamView>::empty());
            reveal_strlit("#~");
            reveal_strlit("#-");
            reveal_strlit("#Strings");
            reveal_strlit("#US");
            reveal_strlit("#GUID");
            reveal_strlit("#Blob");
            reveal_strlit("#Pdb");
        }
        while i < n
            invariant
                i <= n,
                n == header.streams@.len(),
                views == root::stream_views(header.streams@),
                streams_sound(data@, views.take(i as int)),
                strings@ == or_empty(last_stream(data@, views.take(i as int), "#Strings"@)),
                user_strings@ == or_empty(last_stream(data@, views.take(i as int), "#US"@)),
                blob@ == or_empty(last_stream(data@, views.take(i as int), "#Blob"@)),
                guid@ == or_empty(last_stream(data@, views.take(i as int), "#GUID"@)),
                (match pdb {
                    Some(p) => Some(p@),
                    None => None,
                }) == heaps_of(data@, views.take(i as int)).pdb,
                (match table_heap {
                    Some(t) => Some(t@),
                    None => None,
                }) == table_stream(data@, views.take(i as int)),
                root::parsed_root(data@) is Some,
                root::parsed_root(data@)->Some_0.streams == views,
                "#~"@.len() == 2,
                "#~"@[1] == '~',
                "#-"@.len() == 2,
                "#-"@[1] == '-',
                "#US"@.len() == 3,
                "#GUID"@.len() == 5,
                "#GUID"@[1] == 'G',
                "#Blob"@.len() == 5,
                "#Blob"@[1] == 'B',
                "#Pdb"@.len() == 4,
                "#Strings"@.len() == 8,
            decreases n - i,
        {
            let stream = &header.streams[i];
            let ghost front = views.take(i as int);
            let ghost next = views.take(i + 1);
            proof {
                assert(next.drop_last() =~= front);
                assert(next.last() == stream@);
            }
            let payload = match stream_slice(data, stream) {
                Ok(p) => p,
                Err(e) => {
                    proof {
                        assert(!streams_sound(data@, views)) by {
                            assert(views[i as int] == stream@);
                        }
                    }
                    return Err(e);
                },
            };
            let name: &str = stream.name.as_str();
            if text::same(name, "#~") || text::same(name, "#-") {
                table_heap = Some(payload);
            } else if text::same(name, "#Strings") {
                strings = payload;
            } else if text::same(name, "#US") {
                user_strings = payload;
            } else if text::same(name, "#GUID") {
                guid = payload;
            } else if text::same(name, "#Blob") {
                blob = payload;
            } else if text::same(name, "#Pdb") {
                match PdbHeap::parse(payload) {
                    Ok(p) => {
                        pdb = Some(p);
                    },
                    Err(e) => {
                        proof {
                            assert(!streams_sound(data@, views)) by {
                                assert(views[i as int] == stream@);
                            }
                        }
                        return Err(e);
                    },
                }
            }
            proof {
                assert forall|k: int| #![trigger next[k]] 0 <= k < next.len() implies
                    root::stream_payload(data@, next[k]) is Some && (next[k].name == "#Pdb"@
                    ==> heaps::parsed_pdb(root::stream_payload(data@, next[k])->Some_0) is Some) by {
                    if k < i {
                        assert(front[k] == next[k]);
                    }
                }
            }
            i += 1;
        }
        proof {
            assert(views.take(n as int) =~= views);
        }
        let heap: &'a [u8] = match table_heap {
            Some(h) => h,
            None => {
                return Err(Error::bad_image("metadata root has no #~ stream"));
            },
        };
        let tables = parse_table_heap(heap, &pdb)?;
        let start: usize = table_stream_data_start(heap, &tables);
        proof {
            let valid = bytes::u64_at(heap@, 8);
            heaps::bits_below_bounds(valid, 0, 0x38);
            assert(heap@.subrange(start as int, heap@.len() as int) =~= heap@.skip(start as int));
        }
        let table_data = slice_subrange(heap, start, heap.len());
        Ok(
            MetadataReader {
                version: header.version,
                heaps: Heaps {
                    strings: StringHeap::new(strings),
                    user_strings: UserStringHeap::new(user_strings),
                    blob: BlobHeap::new(blob),
                    guid: GuidHeap::new(guid),
                    pdb,
                },
                tables,
                table_data,
            },
        )
    }

    /// Runtime version string from the root, e.g. `"v4.0.30319"`.
    pub fn version_string(&self) -> (s: &str)
        ensures
            s@ == self@.version,
    {
        self.version.as_str()
    }

    /// All heaps found in this root.
    pub fn heaps(&self) -> (h: &Heaps<'a>)
        ensures
            h@ == self@.heaps,
    {
        &self.heaps
    }

    /// Table layout information.
    pub fn tables(&self) -> (t: &TableSet)
        ensures
            t@ == self@.shape,
    {
        &self.tables
    }

    /// Row count of `table` (0 when absent).
    pub fn row_count(&self, table: TableIndex) -> (n: u32)
        ensures
            n == self@.rows(table),
    {
        self.tables.row_count(table)
    }

    /// Number of columns of `table` (0 when absent).
    pub fn column_count(&self, table: TableIndex) -> (n: usize)
        ensures
            n == self@.columns(table),
    {
        self.tables.column_count(table)
    }

    /// Raw cell value of column `col` in row `rid` (1-based) of `table`.
    pub fn column(&self, table: TableIndex, rid: u32, col: usize) -> (r: Result<u64, Error>)
        ensures
            match self@.cell(table, rid, col as int) {
                Ok(v) => r is Ok && r->Ok_0 == v,
                Err(e) => r is Err && r->Err_0.kind() == e && r->Err_0.text()
                    == self@.cell_failure(table, rid, col as nat),
            },
    {
        let (pos, width) = self.tables.cell_location(table, rid, col)?;
        let len: usize = self.table_data.len();
        if pos > len as u64 || width as u64 > len as u64 - pos {
            return Err(
                Error::bad_image(
                    Message::new("cell [").count(pos).text(", ").count(pos + width as u64).text(
                        ") outside #~ data of ",
                    ).count(len as u64).text(" bytes").as_str(),
                ),
            );
        }
        let at: usize = pos as usize;
        if width == 1 {
            Ok(self.table_data[at] as u64)
        } else if width == 2 {
            Ok(bytes::get_u16(self.table_data, at) as u64)
        } else {
            Ok(bytes::get_u32(self.table_data, at) as u64)
        }
    }

    /// All cells of row `rid` (1-based) of `table`.
    pub fn row(&self, table: TableIndex, rid: u32) -> (r: Result<Vec<u64>, Error>)
        ensures
            match self@.row(table, rid) {
                Ok(cells) => r is Ok && r->Ok_0@ == cells,
                Err(e) => r is Err && r->Err_0.kind() == e,
            },
    {
        let count: usize = self.column_count(table);
        let mut cells: Vec<u64> = Vec::new();
        let mut col: usize = 0;
        proof {
            if let Ok(rest) = self@.row_from(table, rid, 0) {
                assert(cells@ + rest =~= rest);
            }
        }
        while col < count
            invariant
                col <= count,
                count == self@.columns(table),
                self@.row(table, rid) == (match self@.row_from(table, rid, col as int) {
                    Ok(rest) => Ok(cells@ + rest),
                    Err(e) => Err(e),
                }),
            decreases count - col,
        {
            let v: u64 = self.column(table, rid, col)?;
            proof {
                if let Ok(rest) = self@.row_from(table, rid, col + 1) {
                    assert(cells@ + (seq![v] + rest) =~= cells@.push(v) + rest);
                }
            }
            cells.push(v);
            col += 1;
        }
        proof {
            assert(cells@ + Seq::<u64>::empty() =~= cells@);
        }
        Ok(cells)
    }
}

/// Reads the `#~` header and computes the table layout. The row counts of the
/// `#Pdb` heap are applied first; counts present in the `#~` stream itself
/// override them.
fn parse_table_heap(heap: &[u8], pdb: &Option<PdbHeap>) -> (r: Result<TableSet, Error>)
    ensures
        match parsed_tables(
            heap@,
            match *pdb {
                Some(p) => Some(p@),
                None => None,
            },
        ) {
            Ok(shape) => r is Ok && r->Ok_0@ == shape,
            Err(e) => r is Err && r->Err_0.kind() == e,
        },
{
    let ghost pdb_view: Option<PdbView> = match *pdb {
        Some(p) => Some(p@),
        None => None,
    };
    let mut r = ByteReader::new(heap);
    let _reserved: u32 = r.u32()?;
    let major: u8 = r.u8()?;
    let minor: u8 = r.u8()?;
    if major != 1 && major != 2 {
        return Err(
            Error::unsupported(
                Message::new("unsupported table stream version ").count(major as u64).text(
                    ".",
                ).count(minor as u64).as_str(),
            ),
        );
    }
    let heap_flags: u8 = r.u8()?;
    let _reserved2: u8 = r.u8()?;
    let valid: u64 = r.u64()?;
    let _sorted: u64 = r.u64()?;
    let mut counts: [u32; TABLE_COUNT] = [0u32;TABLE_COUNT];
    match pdb {
        Some(p) => {
            let mut i: usize = 0;
            while i < TABLE_COUNT
                invariant
                    i <= 0x38,
                    forall|k: int|
                        0 <= k < 0x38 ==> counts@[k] == if k < i && token::is_table_number(k as u8) {
                            p@.counts[k]
                        } else {
                            0
                        },
                decreases 0x38 - i,
            {
                match TableIndex::from_u8(i as u8) {
                    Some(t) => {
                        counts[i] = p.row_count(t);
                    },
                    None => {},
                }
                i += 1;
            }
        },
        None => {},
    }
    let ghost start = counts@;
    let mut i: usize = 0;
    while i < TABLE_COUNT
        invariant
            i <= 0x38,
            r.data() == heap@,
            heap@.len() >= 24,
            r.pos() == 24 + 4 * heaps::bits_below(valid, i as int),
            r.pos() <= heap@.len(),
            valid == bytes::u64_at(heap@, 8),
            heap@[4] == 1 || heap@[4] == 2,
            start.len() == 0x38,
            forall|k: int|
                0 <= k < 0x38 ==> #[trigger] counts@[k] == if k < i && tables::bit(valid, k) {
                    heaps::counts_at(heap@, 24, valid)[k]
                } else {
                    start[k]
                },
        decreases 0x38 - i,
    {
        proof {
            heaps::bits_below_bounds(valid, i as int, 0x38);
            heaps::bits_below_bounds(valid, i + 1, 0x38);
        }
        let set: bool = (valid >> (i as u64)) & 1 == 1;
        let ghost before = counts@;
        proof {
            assert(tables::bit(valid, i as int) == set);
        }
        if set {
            let count: u32 = r.u32()?;
            proof {
                assert(count == heaps::counts_at(heap@, 24, valid)[i as int]);
            }
            counts[i] = count;
            proof {
                assert(counts@ =~= before.update(i as int, count));
            }
        }
        proof {
            assert forall|k: int| 0 <= k < 0x38 implies #[trigger] counts@[k] == if k < i + 1
                && tables::bit(valid, k) {
                heaps::counts_at(heap@, 24, valid)[k]
            } else {
                start[k]
            } by {
                let old_value = before[k];
            }
        }
        i += 1;
    }
    proof {
        assert(counts@ =~= row_counts(heap@, pdb_view));
    }
    TableSet::compute_checked(valid, &counts, heap_flags)
}

/// Size of the `#~` header including the per-table row-count array; the row
/// data begins there.
fn table_stream_data_start(heap: &[u8], tables: &TableSet) -> (n: usize)
    requires
        heap@.len() >= 24,
        tables@.valid == bytes::u64_at(heap@, 8),
        tables::all_known(tables@.valid),
    ensures
        n == 24 + 4 * heaps::bits_below(tables@.valid, 0x38),
{
    let valid: u64 = tables.valid_mask();
    let mut pos: usize = 24;
    let mut i: u64 = 0;
    while i < 64
        invariant
            i <= 64,
            pos == 24 + 4 * heaps::bits_below(valid, i as int),
            pos <= 24 + 4 * i,
        decreases 64 - i,
    {
        if (valid >> i) & 1 == 1 {
            pos = pos + 4;
        }
        i += 1;
    }
    proof {
        no_bits_above(valid, 64);
    }
    pos
}

proof fn no_bits_above(valid: u64, i: int)
    requires
        tables::all_known(valid),
        0x38 <= i <= 64,
    ensures
        heaps::bits_below(valid, i) == heaps::bits_below(valid, 0x38),
    decreases i,
{
    if i > 0x38 {
        no_bits_above(valid, i - 1);
        assert(!tables::bit(valid, i - 1));
    }
}

} // verus!
