//! Readers: one shard behind its local sample index, and several shards
//! behind one global index. A sample is handed out as a range of the mapped
//! bytes of its shard.

use crate::endian::{lemma_u16_roundtrip, lemma_u32_roundtrip, u16_le_bytes, u32_le_bytes};
use crate::format::{bytes_of, FormatError, ShardHeader, ShardMetadata, FORMAT_VERSION, MAGIC};
use crate::mmap::{range_of, MmapError, MmapManager};
use vstd::prelude::*;

verus! {

/// Why a shard could not be opened, or a sample not be read.
#[derive(Debug, PartialEq, Eq)]
pub enum ReaderError {
    /// The range of a sample does not lie within the mapped file.
    Mmap(MmapError),
    /// The file could not be read.
    Io(String),
    /// The file is not a shard.
    InvalidFormat(FormatError),
    /// There is no sample with this index.
    IndexOutOfBounds(usize),
}

/// The header of the shard that `bytes` hold and the encoded content of its
/// metadata block, or the first reason why `bytes` are no shard: the header
/// cannot be read, it is not valid, the metadata block ends beyond the file,
/// or the block's declared length reaches beyond the block.
pub open spec fn shard_layout(bytes: Seq<u8>) -> Result<(ShardHeader, Seq<u8>), FormatError> {
    match ShardHeader::decoding(bytes) {
        Err(e) => Err(e),
        Ok(header) => match header.validation() {
            Err(e) => Err(e),
            Ok(()) => if header.data_offset > bytes.len() {
                Err(FormatError::InvalidMetadataOffset)
            } else {
                match ShardMetadata::unframing(
                    bytes.subrange(header.metadata_offset as int, header.data_offset as int),
                ) {
                    Err(e) => Err(e),
                    Ok(encoded) => Ok((header, encoded)),
                }
            },
        },
    }
}

/// What a reader holds of its shard.
pub struct ShardView {
    /// The path the shard was opened from.
    pub path: Seq<char>,
    /// The bytes of the file.
    pub bytes: Seq<u8>,
    /// The header that the file starts with.
    pub header: ShardHeader,
    /// The index of the samples.
    pub metadata: ShardMetadata,
}

impl ShardView {
    /// The shard that opening a file of these bytes with this index gives.
    pub open spec fn opened(path: Seq<char>, bytes: Seq<u8>, metadata: ShardMetadata) -> Result<
        ShardView,
        ReaderError,
    > {
        match shard_layout(bytes) {
            Err(e) => Err(ReaderError::InvalidFormat(e)),
            Ok(layout) => Ok(ShardView { path, bytes, header: layout.0, metadata }),
        }
    }

    /// The number of samples.
    pub open spec fn num_samples(self) -> nat {
        self.metadata.samples@.len()
    }

    /// The bytes of the sample with the local index `index`: the range of the
    /// file that starts `offset` bytes into the data section and is `size`
    /// bytes long.
    pub open spec fn sample(self, index: usize) -> Result<Seq<u8>, ReaderError> {
        if index >= self.metadata.samples@.len() {
            Err(ReaderError::IndexOutOfBounds(index))
        } else {
            let entry = self.metadata.samples@[index as int];
            if self.header.data_offset + entry.offset > usize::MAX || entry.size > usize::MAX {
                Err(ReaderError::Mmap(MmapError::OffsetOverflow))
            } else {
                match range_of(
                    self.bytes,
                    (self.header.data_offset + entry.offset) as usize,
                    entry.size as usize,
                ) {
                    Ok(bytes) => Ok(bytes),
                    Err(e) => Err(ReaderError::Mmap(e)),
                }
            }
        }
    }

    /// Whether `samples` are the bytes of the samples with the local indices
    /// `indices`, in that order.
    pub open spec fn batch_is(self, indices: Seq<usize>, samples: Seq<&[u8]>) -> bool {
        &&& samples.len() == indices.len()
        &&& forall|i: int|
            0 <= i < indices.len() ==> (#[trigger] self.sample(indices[i])) == Ok::<_, ReaderError>(
                samples[i]@,
            )
    }

    /// Whether each of the samples with the local indices `indices` can be
    /// read.
    pub open spec fn batch_readable(self, indices: Seq<usize>) -> bool {
        forall|i: int| 0 <= i < indices.len() ==> (#[trigger] self.sample(indices[i])) is Ok
    }

    /// Whether `e` is the error of the first of the samples with the local
    /// indices `indices` that cannot be read.
    pub open spec fn batch_fails_with(self, indices: Seq<usize>, e: ReaderError) -> bool {
        exists|k: int|
            {
                &&& 0 <= k < indices.len()
                &&& (#[trigger] self.sample(indices[k])) == Err::<Seq<u8>, _>(e)
                &&& forall|j: int| 0 <= j < k ==> (#[trigger] self.sample(indices[j])) is Ok
            }
    }
}

/// A result with the reader replaced by what it holds.
pub open spec fn shard_of(r: Result<ShardReader, ReaderError>) -> Result<ShardView, ReaderError> {
    match r {
        Ok(reader) => Ok(reader@),
        Err(e) => Err(e),
    }
}

/// One open shard.
pub struct ShardReader<'a> {
    mmap: MmapManager<'a>,
    header: ShardHeader,
    metadata: ShardMetadata,
    data_start: usize,
}

impl<'a> View for ShardReader<'a> {
    type V = ShardView;

    closed spec fn view(&self) -> ShardView {
        ShardView {
            path: self.mmap.path_view(),
            bytes: self.mmap@,
            header: self.header,
            metadata: self.metadata,
        }
    }
}

impl<'a> ShardReader<'a> {
    /// The header is the one that the file starts with, and the data section
    /// starts within the file, where the header says.
    #[verifier::type_invariant]
    spec fn inv(&self) -> bool {
        &&& shard_layout(self.mmap@) matches Ok(layout) && layout.0 == self.header
        &&& self.data_start == self.header.data_offset
    }

    /// Reads the header of the shard in `data`, checks it against the length
    /// of the file, and finds the encoded content of the metadata block.
    fn layout(data: &'a [u8]) -> (r: Result<(ShardHeader, &'a [u8]), FormatError>)
        ensures
            match r {
                Ok(layout) => shard_layout(data@) == Ok::<_, FormatError>((layout.0, layout.1@)),
                Err(e) => shard_layout(data@) == Err::<(ShardHeader, Seq<u8>), _>(e),
            },
    {
        let header = match ShardHeader::read(data) {
            Ok(header) => header,
            Err(e) => {
                return Err(e);
            },
        };
        match header.validate() {
            Ok(()) => {},
            Err(e) => {
                return Err(e);
            },
        }
        if header.data_offset > data.len() as u64 {
            return Err(FormatError::InvalidMetadataOffset);
        }
        let metadata_start = header.metadata_offset as usize;
        let metadata_end = header.data_offset as usize;
        match ShardMetadata::read(&data[metadata_start..metadata_end]) {
            Ok(encoded) => Ok((header, encoded)),
            Err(e) => Err(e),
        }
    }

    /// The encoded content of the metadata block of the shard mapped by
    /// `mmap`: what has to be decoded into the index that `new` takes.
    pub fn metadata_bytes(mmap: &MmapManager<'a>) -> (r: Result<&'a [u8], ReaderError>)
        ensures
            bytes_of(r) == match shard_layout(mmap@) {
                Ok(layout) => Ok(layout.1),
                Err(e) => Err(ReaderError::InvalidFormat(e)),
            },
    {
        match Self::layout(mmap.as_slice()) {
            Ok(layout) => Ok(layout.1),
            Err(e) => Err(ReaderError::InvalidFormat(e)),
        }
    }

    /// Opens the shard mapped by `mmap`. `metadata` is the index decoded from
    /// the shard's metadata block.
    pub fn new(mmap: MmapManager<'a>, metadata: ShardMetadata) -> (r: Result<Self, ReaderError>)
        ensures
            shard_of(r) == ShardView::opened(mmap.path_view(), mmap@, metadata),
    {
        let data = mmap.as_slice();
        let header = match Self::layout(data) {
            Ok(layout) => layout.0,
            Err(e) => {
                return Err(ReaderError::InvalidFormat(e));
            },
        };
        assert(header.data_offset <= data.len());
        let data_start = header.data_offset as usize;
        Ok(ShardReader { mmap, header, metadata, data_start })
    }

    /// The number of samples in the shard.
    pub fn num_samples(&self) -> (n: usize)
        ensures
            n == self@.num_samples(),
    {
        self.metadata.samples.len()
    }

    /// The bytes of the sample with the local index `index`.
    pub fn get_sample(&self, index: usize) -> (r: Result<&'a [u8], ReaderError>)
        ensures
            bytes_of(r) == self@.sample(index),
    {
        proof {
            use_type_invariant(self);
        }
        if index >= self.metadata.samples.len() {
            return Err(ReaderError::IndexOutOfBounds(index));
        }
        let entry = self.metadata.samples[index];
        if entry.size > usize::MAX as u64 || entry.offset > (usize::MAX - self.data_start) as u64 {
            return Err(ReaderError::Mmap(MmapError::OffsetOverflow));
        }
        let offset = self.data_start + entry.offset as usize;
        let size = entry.size as usize;
        match self.mmap.get_range(offset, size) {
            Ok(bytes) => Ok(bytes),
            Err(e) => Err(ReaderError::Mmap(e)),
        }
    }

    /// The samples with the local indices `indices`, in that order. Fails as
    /// a whole with the error of the first sample that cannot be read.
    pub fn get_batch(&self, indices: &[usize]) -> (r: Result<Vec<&'a [u8]>, ReaderError>)
        ensures
            r is Ok <==> self@.batch_readable(indices@),
            match r {
                Ok(samples) => self@.batch_is(indices@, samples@),
                Err(e) => self@.batch_fails_with(indices@, e),
            },
    {
        let mut samples: Vec<&'a [u8]> = Vec::new();
        let mut i: usize = 0;
        while i < indices.len()
            invariant
                i <= indices@.len(),
                samples@.len() == i,
                forall|j: int|
                    0 <= j < i ==> (#[trigger] self@.sample(indices@[j])) == Ok::<_, ReaderError>(
                        samples@[j]@,
                    ),
            decreases indices@.len() - i,
        {
            match self.get_sample(indices[i]) {
                Ok(bytes) => {
                    samples.push(bytes);
                },
                Err(e) => {
                    assert(self@.sample(indices@[i as int]) == Err::<Seq<u8>, _>(e));
                    return Err(e);
                },
            }
            i += 1;
        }
        Ok(samples)
    }

    /// The path the shard was opened from.
    pub fn path(&self) -> (p: &str)
        ensures
            p@ == self@.path,
    {
        self.mmap.path()
    }

    /// The header of the shard: the one the file starts with, and valid.
    pub fn header(&self) -> (header: &ShardHeader)
        ensures
            *header == self@.header,
            header.valid(),
            shard_layout(self@.bytes) matches Ok(layout) && layout.0 == *header,
    {
        proof {
            use_type_invariant(self);
        }
        &self.header
    }

    /// The index of the samples.
    pub fn metadata(&self) -> (metadata: &ShardMetadata)
        ensures
            *metadata == self@.metadata,
    {
        &self.metadata
    }
}

/// Corruption is rejected: a file that starts with a header whose magic
/// number or version is not that of the format cannot be opened, whatever
/// else it holds. The error names the field that is wrong, the magic number
/// first.
pub proof fn lemma_corruption_rejected(
    header: ShardHeader,
    rest: Seq<u8>,
    path: Seq<char>,
    metadata: ShardMetadata,
)
    requires
        header.magic != MAGIC || header.version != FORMAT_VERSION,
    ensures
        ShardView::opened(path, header.encoding() + rest, metadata) == Err::<ShardView, _>(
            ReaderError::InvalidFormat(
                if header.magic != MAGIC {
                    FormatError::InvalidMagic(header.magic)
                } else {
                    FormatError::UnsupportedVersion(header.version)
                },
            ),
        ),
{
    let bytes = header.encoding() + rest;
    lemma_u32_roundtrip(header.magic);
    lemma_u16_roundtrip(header.version);
    assert(bytes.subrange(0, 4) == u32_le_bytes(header.magic));
    assert(bytes.subrange(4, 6) == u16_le_bytes(header.version));
}

/// No reader of several shards is made where one of them cannot be opened.
pub proof fn lemma_one_failure_fails_all(
    shards: Seq<(MmapManager, ShardMetadata)>,
    k: int,
    opened: Seq<ShardView>,
)
    requires
        0 <= k < shards.len(),
        opening(shards[k]) is Err,
    ensures
        !all_open(shards),
        !all_opened(shards, opened),
{
}

/// The number of samples in the first `n` of `shards`.
pub open spec fn samples_before(shards: Seq<ShardView>, n: int) -> int
    decreases n,
{
    if n <= 0 {
        0
    } else {
        samples_before(shards, n - 1) + shards[n - 1].num_samples()
    }
}

/// The global index over the first `n` of `shards`: for each shard in order,
/// one entry `(shard, local index)` for each of its samples in order.
pub open spec fn global_index(shards: Seq<ShardView>, n: int) -> Seq<(usize, usize)>
    decreases n,
{
    if n <= 0 {
        Seq::empty()
    } else {
        global_index(shards, n - 1) + Seq::new(
            shards[n - 1].num_samples(),
            |local: int| ((n - 1) as usize, local as usize),
        )
    }
}

/// The bytes of the sample with the global index `index`: those of the sample
/// that the entry at `index` of the global index names.
pub open spec fn sample_at(shards: Seq<ShardView>, index: usize) -> Result<Seq<u8>, ReaderError> {
    let table = global_index(shards, shards.len() as int);
    if index >= table.len() {
        Err(ReaderError::IndexOutOfBounds(index))
    } else {
        shards[table[index as int].0 as int].sample(table[index as int].1)
    }
}

/// Whether `samples` are the bytes of the samples with the global indices
/// `indices`, in that order.
pub open spec fn batch_is(shards: Seq<ShardView>, indices: Seq<usize>, samples: Seq<&[u8]>) -> bool {
    &&& samples.len() == indices.len()
    &&& forall|i: int|
        0 <= i < indices.len() ==> (#[trigger] sample_at(shards, indices[i])) == Ok::<_, ReaderError>(
            samples[i]@,
        )
}

/// Whether each of the samples with the global indices `indices` can be read.
pub open spec fn batch_readable(shards: Seq<ShardView>, indices: Seq<usize>) -> bool {
    forall|i: int| 0 <= i < indices.len() ==> (#[trigger] sample_at(shards, indices[i])) is Ok
}

/// Whether `e` is the error of the first of the samples with the global
/// indices `indices` that cannot be read.
pub open spec fn batch_fails_with(shards: Seq<ShardView>, indices: Seq<usize>, e: ReaderError) -> bool {
    exists|k: int|
        {
            &&& 0 <= k < indices.len()
            &&& (#[trigger] sample_at(shards, indices[k])) == Err::<Seq<u8>, _>(e)
            &&& forall|j: int| 0 <= j < k ==> (#[trigger] sample_at(shards, indices[j])) is Ok
        }
}

/// What opening one mapped file with its decoded index gives.
pub open spec fn opening(shard: (MmapManager, ShardMetadata)) -> Result<ShardView, ReaderError> {
    ShardView::opened(shard.0.path_view(), shard.0@, shard.1)
}

/// Whether `opened` are the shards that opening each of `shards` gives, in
/// that order.
pub open spec fn all_opened(shards: Seq<(MmapManager, ShardMetadata)>, opened: Seq<ShardView>) -> bool {
    &&& opened.len() == shards.len()
    &&& forall|i: int|
        0 <= i < shards.len() ==> (#[trigger] opening(shards[i])) == Ok::<_, ReaderError>(opened[i])
}

/// Whether each of `shards` can be opened.
pub open spec fn all_open(shards: Seq<(MmapManager, ShardMetadata)>) -> bool {
    forall|i: int| 0 <= i < shards.len() ==> (#[trigger] opening(shards[i])) is Ok
}

/// Whether `e` is the error of the first of `shards` that cannot be opened.
pub open spec fn opening_fails_with(shards: Seq<(MmapManager, ShardMetadata)>, e: ReaderError) -> bool {
    exists|k: int|
        {
            &&& 0 <= k < shards.len()
            &&& (#[trigger] opening(shards[k])) == Err::<ShardView, _>(e)
            &&& forall|j: int| 0 <= j < k ==> (#[trigger] opening(shards[j])) is Ok
        }
}

/// The global index has one entry for each sample of each shard.
pub proof fn lemma_global_index_len(shards: Seq<ShardView>, n: int)
    ensures
        global_index(shards, n).len() == samples_before(shards, n),
    decreases n,
{
    if n > 0 {
        lemma_global_index_len(shards, n - 1);
    }
}

/// The entry at `index` of the global index names a shard and a sample of
/// that shard, and `index` is the number of samples in the shards before it
/// plus the local index.
pub proof fn lemma_global_index_entry(shards: Seq<ShardView>, n: int, index: int)
    requires
        0 <= n <= shards.len(),
        n <= usize::MAX,
        0 <= index < global_index(shards, n).len(),
    ensures
        0 <= global_index(shards, n)[index].0 < n,
        0 <= global_index(shards, n)[index].1 < shards[global_index(shards, n)[index].0 as int].num_samples(),
        index == samples_before(shards, global_index(shards, n)[index].0 as int) + global_index(
            shards,
            n,
        )[index].1,
    decreases n,
{
    lemma_global_index_len(shards, n - 1);
    if index < global_index(shards, n - 1).len() {
        lemma_global_index_entry(shards, n - 1, index);
    } else {
        assert(shards[n - 1].metadata.samples.len() == shards[n - 1].num_samples());
    }
}

/// Global indexing: the sample `local` of the shard `shard` has the global
/// index that is the number of samples in the shards before it plus `local`.
pub proof fn lemma_global_index_at(shards: Seq<ShardView>, n: int, shard: int, local: int)
    requires
        0 <= shard < n <= shards.len(),
        n <= usize::MAX,
        0 <= local < shards[shard].num_samples(),
    ensures
        0 <= samples_before(shards, shard) + local < global_index(shards, n).len(),
        global_index(shards, n)[samples_before(shards, shard) + local] == (
            shard as usize,
            local as usize,
        ),
    decreases n,
{
    lemma_global_index_len(shards, n - 1);
    lemma_samples_before_grows(shards, shard, n - 1);
    if shard < n - 1 {
        lemma_global_index_at(shards, n - 1, shard, local);
    }
}

/// Reading by global index reads from the right shard: the sample with the
/// global index `samples_before(shards, shard) + local` is the sample `local`
/// of the shard `shard`.
pub proof fn lemma_sample_at(shards: Seq<ShardView>, shard: int, local: int)
    requires
        0 <= shard < shards.len() <= usize::MAX,
        0 <= local < shards[shard].num_samples(),
        samples_before(shards, shards.len() as int) <= usize::MAX,
    ensures
        sample_at(shards, (samples_before(shards, shard) + local) as usize) == shards[shard].sample(
            local as usize,
        ),
{
    lemma_global_index_at(shards, shards.len() as int, shard, local);
    lemma_global_index_len(shards, shards.len() as int);
}

/// The first `m` shards hold no more samples than the first `n`, where
/// `m <= n`.
pub proof fn lemma_samples_before_grows(shards: Seq<ShardView>, m: int, n: int)
    requires
        m <= n,
    ensures
        samples_before(shards, m) <= samples_before(shards, n),
        0 <= samples_before(shards, m),
    decreases n - m,
{
    if m < n {
        lemma_samples_before_grows(shards, m, n - 1);
    } else {
        lemma_samples_before_nonnegative(shards, m);
    }
}

proof fn lemma_samples_before_nonnegative(shards: Seq<ShardView>, n: int)
    ensures
        0 <= samples_before(shards, n),
    decreases n,
{
    if n > 0 {
        lemma_samples_before_nonnegative(shards, n - 1);
    }
}

/// Several open shards behind one global index.
pub struct MultiShardReader<'a> {
    readers: Vec<ShardReader<'a>>,
    global_index: Vec<(usize, usize)>,
}

impl<'a> View for MultiShardReader<'a> {
    type V = Seq<ShardView>;

    /// The shards, in the order in which they were given.
    closed spec fn view(&self) -> Seq<ShardView> {
        self.readers@.map_values(|reader: ShardReader<'a>| reader@)
    }
}

impl<'a> MultiShardReader<'a> {
    /// The table is the global index of the shards.
    #[verifier::type_invariant]
    spec fn inv(&self) -> bool {
        self.global_index@ == global_index(self@, self@.len() as int)
    }

    /// Opens the given mapped files, each with the index decoded from its
    /// metadata block, in the given order, and builds the global index.
    /// Fails as a whole with the error of the first shard that cannot be
    /// opened.
    pub fn new(shards: Vec<(MmapManager<'a>, ShardMetadata)>) -> (r: Result<Self, ReaderError>)
        ensures
            r is Ok <==> all_open(shards@),
            match r {
                Ok(reader) => all_opened(shards@, reader@),
                Err(e) => opening_fails_with(shards@, e),
            },
    {
        let mut readers: Vec<ShardReader<'a>> = Vec::new();
        let mut global_index: Vec<(usize, usize)> = Vec::new();
        let ghost views: Seq<ShardView> = Seq::empty();
        for shard in it: shards
            invariant
                it.seq() == shards@,
                readers@.len() == it.index(),
                views == readers@.map_values(|reader: ShardReader<'a>| reader@),
                global_index@ == crate::reader::global_index(views, views.len() as int),
                forall|j: int|
                    0 <= j < it.index() ==> (#[trigger] opening(shards@[j])) == Ok::<
                        _,
                        ReaderError,
                    >(views[j]),
        {
            let (mmap, metadata) = shard;
            let reader = match ShardReader::new(mmap, metadata) {
                Ok(reader) => reader,
                Err(e) => {
                    assert(opening(shards@[it.index() as int]) == Err::<ShardView, _>(e));
                    return Err(e);
                },
            };
            let num_samples = reader.num_samples();
            let shard_index = readers.len();
            let ghost next = views.push(reader@);
            let ghost before = global_index@;
            assert(crate::reader::global_index(next, views.len() as int) == before) by {
                lemma_global_index_prefix(views, next, views.len() as int);
            }
            for sample_idx in 0..num_samples
                invariant
                    shard_index == views.len(),
                    num_samples == reader@.num_samples(),
                    global_index@ == before + Seq::new(
                        sample_idx as nat,
                        |local: int| (shard_index, local as usize),
                    ),
            {
                global_index.push((shard_index, sample_idx));
            }
            readers.push(reader);
            proof {
                views = next;
            }
        }
        Ok(MultiShardReader { readers, global_index })
    }

    /// The bytes of the sample with the global index `global_index`.
    pub fn get_sample(&self, global_index: usize) -> (r: Result<&'a [u8], ReaderError>)
        ensures
            bytes_of(r) == sample_at(self@, global_index),
    {
        proof {
            use_type_invariant(self);
        }
        if global_index >= self.global_index.len() {
            return Err(ReaderError::IndexOutOfBounds(global_index));
        }
        let (shard_idx, sample_idx) = self.global_index[global_index];
        proof {
            assert(self@.len() == self.readers.len());
            lemma_global_index_entry(self@, self@.len() as int, global_index as int);
        }
        self.readers[shard_idx].get_sample(sample_idx)
    }

    /// The samples with the global indices `indices`, in that order. Fails as
    /// a whole with the error of the first sample that cannot be read.
    pub fn get_batch(&self, indices: &[usize]) -> (r: Result<Vec<&'a [u8]>, ReaderError>)
        ensures
            r is Ok <==> batch_readable(self@, indices@),
            match r {
                Ok(samples) => batch_is(self@, indices@, samples@),
                Err(e) => batch_fails_with(self@, indices@, e),
            },
    {
        let mut samples: Vec<&'a [u8]> = Vec::new();
        let mut i: usize = 0;
        while i < indices.len()
            invariant
                i <= indices@.len(),
                samples@.len() == i,
                forall|j: int|
                    0 <= j < i ==> (#[trigger] sample_at(self@, indices@[j])) == Ok::<
                        _,
                        ReaderError,
                    >(samples@[j]@),
            decreases indices@.len() - i,
        {
            match self.get_sample(indices[i]) {
                Ok(bytes) => {
                    samples.push(bytes);
                },
                Err(e) => {
                    assert(sample_at(self@, indices@[i as int]) == Err::<Seq<u8>, _>(e));
                    return Err(e);
                },
            }
            i += 1;
        }
        Ok(samples)
    }

    /// The number of samples in all the shards together.
    pub fn total_samples(&self) -> (n: usize)
        ensures
            n == samples_before(self@, self@.len() as int),
            n == global_index(self@, self@.len() as int).len(),
    {
        proof {
            use_type_invariant(self);
            lemma_global_index_len(self@, self@.len() as int);
        }
        self.global_index.len()
    }

    /// The number of shards.
    pub fn num_shards(&self) -> (n: usize)
        ensures
            n == self@.len(),
    {
        self.readers.len()
    }
}

/// The global index over the first `n` shards depends on those shards only.
proof fn lemma_global_index_prefix(a: Seq<ShardView>, b: Seq<ShardView>, n: int)
    requires
        n <= a.len(),
        n <= b.len(),
        forall|i: int| 0 <= i < n ==> a[i] == b[i],
    ensures
        global_index(a, n) == global_index(b, n),
    decreases n,
{
    if n > 0 {
        lemma_global_index_prefix(a, b, n - 1);
    }
}

} // verus!
