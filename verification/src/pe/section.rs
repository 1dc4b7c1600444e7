//! PE section table primitives: sections, data directories, and RVA ranges.

use vstd::prelude::*;

verus! {

/// A position in the `.text` section: an RVA start plus a byte length.
#[derive(Debug, Clone, Copy, PartialEq, Eq, Structural)]
pub struct Range {
    pub start: u32,
    pub length: u32,
}

impl Default for Range {
    fn default() -> (r: Range)
        ensures
            r == (Range { start: 0, length: 0 }),
    {
        Range { start: 0, length: 0 }
    }
}

impl Range {
    pub fn new(start: u32, length: u32) -> (r: Self)
        ensures
            r == (Range { start, length }),
    {
        Range { start, length }
    }

    /// Where the range ends.
    pub open spec fn limit(self) -> int {
        self.start + self.length
    }

    /// End offset (start when empty).
    pub fn end(&self) -> (e: u32)
        requires
            self.limit() <= u32::MAX,
        ensures
            e == self.limit(),
    {
        self.start + self.length
    }
}

/// One of the 16 optional-header data directories.
#[derive(Debug, Clone, Copy, PartialEq, Eq, Structural)]
pub struct DataDirectory {
    pub virtual_address: u32,
    pub size: u32,
}

impl Default for DataDirectory {
    fn default() -> (d: DataDirectory)
        ensures
            d == DataDirectory::none(),
    {
        DataDirectory { virtual_address: 0, size: 0 }
    }
}

impl DataDirectory {
    /// The directory that is absent.
    pub open spec fn none() -> DataDirectory {
        DataDirectory { virtual_address: 0, size: 0 }
    }

    /// An absent directory.
    pub fn zero() -> (d: Self)
        ensures
            d == DataDirectory::none(),
    {
        DataDirectory { virtual_address: 0, size: 0 }
    }

    pub fn new(virtual_address: u32, size: u32) -> (d: Self)
        ensures
            d == (DataDirectory { virtual_address, size }),
    {
        DataDirectory { virtual_address, size }
    }

    /// True when both the address and the size are zero.
    pub fn is_zero(&self) -> (b: bool)
        ensures
            b == (*self == DataDirectory::none()),
    {
        self.virtual_address == 0 && self.size == 0
    }
}

/// One entry of the PE section table.
#[derive(Debug, Clone)]
pub struct Section {
    /// Section name, NUL-trimmed (at most 8 characters).
    pub name: String,
    /// Virtual address of the section in memory.
    pub virtual_address: u32,
    /// Size of the initialized data in memory (VirtualSize).
    pub virtual_size: u32,
    /// Size of the section's data in the file, aligned to `FileAlignment`.
    pub size_of_raw_data: u32,
    /// File offset of the section's raw data.
    pub pointer_to_raw_data: u32,
}

/// What a section table entry says.
#[verifier::ext_equal]
pub struct SectionView {
    pub name: Seq<char>,
    pub virtual_address: u32,
    pub virtual_size: u32,
    pub size_of_raw_data: u32,
    pub pointer_to_raw_data: u32,
}

impl View for Section {
    type V = SectionView;

    open spec fn view(&self) -> SectionView {
        SectionView {
            name: self.name@,
            virtual_address: self.virtual_address,
            virtual_size: self.virtual_size,
            size_of_raw_data: self.size_of_raw_data,
            pointer_to_raw_data: self.pointer_to_raw_data,
        }
    }
}

impl Default for Section {
    fn default() -> (s: Section)
        ensures
            s@ == (SectionView {
                name: Seq::empty(),
                virtual_address: 0,
                virtual_size: 0,
                size_of_raw_data: 0,
                pointer_to_raw_data: 0,
            }),
    {
        Section {
            name: String::new(),
            virtual_address: 0,
            virtual_size: 0,
            size_of_raw_data: 0,
            pointer_to_raw_data: 0,
        }
    }
}

/// What the entries of a section table say.
pub open spec fn section_views(sections: Seq<Section>) -> Seq<SectionView> {
    Seq::new(sections.len(), |k: int| sections[k]@)
}

impl SectionView {
    /// The address lies in the part of the section that the file backs.
    pub open spec fn backs(self, rva: u32) -> bool {
        self.virtual_address <= rva < saturating_end(self.virtual_address, self.size_of_raw_data)
    }

    /// The address lies in the section as it is mapped.
    pub open spec fn maps(self, rva: u32) -> bool {
        self.virtual_address <= rva < saturating_end(
            self.virtual_address,
            if self.virtual_size > self.size_of_raw_data {
                self.virtual_size
            } else {
                self.size_of_raw_data
            },
        )
    }

    /// The file offset of the address.
    pub open spec fn offset(self, rva: int) -> int {
        rva - self.virtual_address + self.pointer_to_raw_data
    }
}

/// The sum, or the largest address where the sum is larger.
pub open spec fn saturating_end(a: u32, b: u32) -> int {
    if a + b > u32::MAX {
        u32::MAX as int
    } else {
        a + b
    }
}

/// The first of the sections from `i` on whose file data the address is in.
pub open spec fn backing_section(sections: Seq<SectionView>, rva: u32, i: int) -> Option<int>
    decreases sections.len() - i,
{
    if i < 0 || i >= sections.len() {
        None
    } else if sections[i].backs(rva) {
        Some(i)
    } else {
        backing_section(sections, rva, i + 1)
    }
}

/// The first of the sections from `i` on that the address is mapped in.
pub open spec fn mapping_section(sections: Seq<SectionView>, rva: u32, i: int) -> Option<int>
    decreases sections.len() - i,
{
    if i < 0 || i >= sections.len() {
        None
    } else if sections[i].maps(rva) {
        Some(i)
    } else {
        mapping_section(sections, rva, i + 1)
    }
}

/// What is found is the first section whose file data the address is in.
pub proof fn backing_section_found(sections: Seq<SectionView>, rva: u32, i: int)
    requires
        0 <= i,
    ensures
        match backing_section(sections, rva, i) {
            Some(k) => i <= k < sections.len() && sections[k].backs(rva) && forall|j: int|
                i <= j < k ==> !(#[trigger] sections[j]).backs(rva),
            None => forall|j: int| i <= j < sections.len() ==> !(#[trigger] sections[j]).backs(rva),
        },
    decreases sections.len() - i,
{
    if i < sections.len() && !sections[i].backs(rva) {
        backing_section_found(sections, rva, i + 1);
    }
}

/// What is found is the first section that the address is mapped in.
pub proof fn mapping_section_found(sections: Seq<SectionView>, rva: u32, i: int)
    requires
        0 <= i,
    ensures
        match mapping_section(sections, rva, i) {
            Some(k) => i <= k < sections.len() && sections[k].maps(rva) && forall|j: int|
                i <= j < k ==> !(#[trigger] sections[j]).maps(rva),
            None => forall|j: int| i <= j < sections.len() ==> !(#[trigger] sections[j]).maps(rva),
        },
    decreases sections.len() - i,
{
    if i < sections.len() && !sections[i].maps(rva) {
        mapping_section_found(sections, rva, i + 1);
    }
}

/// Finds the first section whose file data the address is in.
pub(crate) fn find_backing(sections: &Vec<Section>, rva: u32) -> (r: Option<usize>)
    ensures
        match backing_section(section_views(sections@), rva, 0) {
            Some(k) => r == Some(k as usize) && 0 <= k < sections.len() && section_views(
                sections@,
            )[k].backs(rva),
            None => r is None,
        },
{
    let n: usize = sections.len();
    let ghost views = section_views(sections@);
    let mut i: usize = 0;
    while i < n
        invariant
            i <= n,
            n == sections.len(),
            views == section_views(sections@),
            backing_section(views, rva, 0) == backing_section(views, rva, i as int),
        decreases n - i,
    {
        let s = &sections[i];
        assert(views[i as int] == s@);
        if rva >= s.virtual_address && rva < s.virtual_address.saturating_add(s.size_of_raw_data) {
            return Some(i);
        }
        i += 1;
    }
    None
}

/// Finds the first section that the address is mapped in.
pub(crate) fn find_mapping(sections: &Vec<Section>, rva: u32) -> (r: Option<usize>)
    ensures
        match mapping_section(section_views(sections@), rva, 0) {
            Some(k) => r == Some(k as usize) && 0 <= k < sections.len() && section_views(
                sections@,
            )[k].maps(rva),
            None => r is None,
        },
{
    let n: usize = sections.len();
    let ghost views = section_views(sections@);
    let mut i: usize = 0;
    while i < n
        invariant
            i <= n,
            n == sections.len(),
            views == section_views(sections@),
            mapping_section(views, rva, 0) == mapping_section(views, rva, i as int),
        decreases n - i,
    {
        let s = &sections[i];
        assert(views[i as int] == s@);
        let size: u32 = if s.virtual_size > s.size_of_raw_data {
            s.virtual_size
        } else {
            s.size_of_raw_data
        };
        if rva >= s.virtual_address && rva < s.virtual_address.saturating_add(size) {
            return Some(i);
        }
        i += 1;
    }
    None
}

} // verus!
