//! A read-only view of the bytes of one mapped file, with checked access to
//! ranges of it. The view borrows the bytes: a range handed out is a part of
//! the mapping itself, never a copy, and cannot outlive it.

use crate::format::bytes_of;
use vstd::prelude::*;

verus! {

/// Why a mapping could not be made, or a range of it not be had.
#[derive(Debug, PartialEq, Eq)]
pub enum MmapError {
    /// The file could not be opened.
    OpenFile(String),
    /// The file could not be mapped.
    MapError(String),
    /// The end of the range is too large a number for this machine.
    OffsetOverflow,
    /// The range ends beyond the `size` bytes of the mapping.
    OutOfBounds { offset: usize, len: usize, size: usize },
}

/// The bytes of one mapped file and the path it was opened from.
pub struct MmapManager<'a> {
    data: &'a [u8],
    path: String,
}

impl<'a> View for MmapManager<'a> {
    type V = Seq<u8>;

    /// The mapped bytes.
    closed spec fn view(&self) -> Seq<u8> {
        self.data@
    }
}

/// The range `[offset, offset + len)` of `bytes`, or the reason why there is
/// no such range.
pub open spec fn range_of(bytes: Seq<u8>, offset: usize, len: usize) -> Result<Seq<u8>, MmapError> {
    if offset + len > usize::MAX {
        Err(MmapError::OffsetOverflow)
    } else if offset + len > bytes.len() {
        Err(MmapError::OutOfBounds { offset, len, size: bytes.len() as usize })
    } else {
        Ok(bytes.subrange(offset as int, offset + len))
    }
}

impl<'a> MmapManager<'a> {
    /// The path the file was opened from.
    pub closed spec fn path_view(&self) -> Seq<char> {
        self.path@
    }

    /// The view of a file at `path` whose mapped content is `data`.
    pub fn new(data: &'a [u8], path: String) -> (manager: Self)
        ensures
            manager@ == data@,
            manager.path_view() == path@,
    {
        MmapManager { data, path }
    }

    /// All the mapped bytes.
    pub fn as_slice(&self) -> (s: &'a [u8])
        ensures
            s@ == self@,
    {
        self.data
    }

    /// The bytes `[offset, offset + len)` of the mapping. Fails when the range
    /// does not lie within the mapping, also where `offset + len` overflows.
    pub fn get_range(&self, offset: usize, len: usize) -> (r: Result<&'a [u8], MmapError>)
        ensures
            bytes_of(r) == range_of(self@, offset, len),
            r is Ok <==> offset + len <= self@.len(),
    {
        let size = self.data.len();
        match offset.checked_add(len) {
            None => Err(MmapError::OffsetOverflow),
            Some(end) => {
                if end > size {
                    Err(MmapError::OutOfBounds { offset, len, size })
                } else {
                    Ok(&self.data[offset..end])
                }
            },
        }
    }

    pub fn path(&self) -> (p: &str)
        ensures
            p@ == self.path_view(),
    {
        self.path.as_str()
    }

    /// The number of mapped bytes.
    pub fn len(&self) -> (n: usize)
        ensures
            n == self@.len(),
    {
        self.data.len()
    }

    pub fn is_empty(&self) -> (b: bool)
        ensures
            b == (self@.len() == 0),
    {
        self.data.len() == 0
    }
}

/// The number of bytes in the first `n` of `maps`.
pub open spec fn total_len(maps: Seq<MmapManager>, n: int) -> int
    decreases n,
{
    if n <= 0 {
        0
    } else {
        total_len(maps, n - 1) + maps[n - 1]@.len()
    }
}

/// Several mappings, each found again by the index it was added under.
pub struct MmapPool<'a> {
    maps: Vec<MmapManager<'a>>,
}

impl<'a> View for MmapPool<'a> {
    type V = Seq<MmapManager<'a>>;

    /// The mappings, in the order in which they were added.
    closed spec fn view(&self) -> Seq<MmapManager<'a>> {
        self.maps@
    }
}

impl<'a> MmapPool<'a> {
    pub fn new() -> (pool: Self)
        ensures
            pool@.len() == 0,
    {
        MmapPool { maps: Vec::new() }
    }

    /// Adds the mapping of the file at `path` whose content is `data`, and
    /// returns its index.
    pub fn add(&mut self, data: &'a [u8], path: String) -> (index: usize)
        ensures
            index == old(self)@.len(),
            final(self)@.len() == old(self)@.len() + 1,
            final(self)@.subrange(0, index as int) == old(self)@,
            final(self)@[index as int]@ == data@,
            final(self)@[index as int].path_view() == path@,
    {
        let index = self.maps.len();
        let manager = MmapManager::new(data, path);
        self.maps.push(manager);
        index
    }

    /// The mapping that was added under `index`.
    pub fn get(&self, index: usize) -> (r: Option<&MmapManager<'a>>)
        ensures
            r == if index < self@.len() {
                Some(&self@[index as int])
            } else {
                None
            },
    {
        if index < self.maps.len() {
            Some(&self.maps[index])
        } else {
            None
        }
    }

    /// All the mappings, in the order in which they were added.
    pub fn all(&self) -> (maps: &[MmapManager<'a>])
        ensures
            maps@ == self@,
    {
        self.maps.as_slice()
    }

    pub fn len(&self) -> (n: usize)
        ensures
            n == self@.len(),
    {
        self.maps.len()
    }

    pub fn is_empty(&self) -> (b: bool)
        ensures
            b == (self@.len() == 0),
    {
        self.maps.len() == 0
    }

    /// The number of bytes in all the mappings together.
    pub fn total_size(&self) -> (n: usize)
        requires
            total_len(self@, self@.len() as int) <= usize::MAX,
        ensures
            n == total_len(self@, self@.len() as int),
    {
        let mut total: usize = 0;
        let mut i: usize = 0;
        while i < self.maps.len()
            invariant
                i <= self.maps@.len(),
                total == total_len(self.maps@, i as int),
                total_len(self.maps@, self.maps@.len() as int) <= usize::MAX,
            decreases self.maps@.len() - i,
        {
            proof {
                lemma_total_len_grows(self.maps@, i as int + 1, self.maps@.len() as int);
            }
            total = total + self.maps[i].len();
            i += 1;
        }
        total
    }
}

impl<'a> Default for MmapPool<'a> {
    fn default() -> (pool: Self)
        ensures
            pool@.len() == 0,
    {
        MmapPool::new()
    }
}

/// The first `m` mappings hold no more bytes than the first `n`, where `m <= n`.
proof fn lemma_total_len_grows(maps: Seq<MmapManager>, m: int, n: int)
    requires
        m <= n,
    ensures
        total_len(maps, m) <= total_len(maps, n),
    decreases n - m,
{
    if m < n {
        lemma_total_len_grows(maps, m, n - 1);
    }
}

} // verus!
