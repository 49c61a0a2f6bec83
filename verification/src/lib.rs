//! Zero-copy, random-access reading of samples from shard files.
//!
//! A shard is one file: a header, an index of its samples, and the bytes of
//! the samples. The loader takes the mapped bytes of a list of shards and
//! hands out each sample as a slice of those bytes, found by one index that
//! runs over all the shards. It also keeps count of the shards that it has
//! asked a prefetcher to load ahead of their use.

pub mod buffer;
pub mod endian;
pub mod format;
pub mod mmap;
pub mod prefetch;
pub mod reader;
pub mod writer;

use crate::format::ShardMetadata;
use crate::mmap::MmapManager;
use crate::prefetch::{create_prefetcher, NoOpPrefetcher, PrefetchError, Prefetcher};
use crate::reader::{
    all_open, all_opened, batch_fails_with, batch_is, batch_readable, opening, opening_fails_with,
    sample_at, samples_before,
    MultiShardReader, ReaderError, ShardView,
};
use vstd::prelude::*;

verus! {

/// Why the loader could not be made, or one of its operations failed.
#[derive(Debug, PartialEq, Eq)]
pub enum DataLoaderError {
    Reader(ReaderError),
    Prefetch(PrefetchError),
}

/// What a loader holds: its shards, and how many of them, counted from the
/// first, have been handed to the prefetcher.
pub struct LoaderView {
    pub shards: Seq<ShardView>,
    pub cursor: nat,
}

/// The queue depth that the loader asks its prefetcher for.
pub const QUEUE_DEPTH: u32 = 32;

/// The loader: reads samples by global index, and prefetches shards with a
/// prefetcher of the kind `P`.
pub struct DataLoader<'a, P: Prefetcher> {
    reader: MultiShardReader<'a>,
    prefetcher: P,
    shard_paths: Vec<String>,
    current_shard_index: usize,
}

impl<'a, P: Prefetcher> View for DataLoader<'a, P> {
    type V = LoaderView;

    closed spec fn view(&self) -> LoaderView {
        LoaderView { shards: self.reader@, cursor: self.current_shard_index as nat }
    }
}

/// A result of the loader with the borrowed bytes replaced by the sequence
/// they hold.
pub open spec fn loaded(r: Result<&[u8], DataLoaderError>) -> Result<Seq<u8>, DataLoaderError> {
    match r {
        Ok(bytes) => Ok(bytes@),
        Err(e) => Err(e),
    }
}

/// The error of a reader as an error of the loader.
pub open spec fn from_reader<T>(r: Result<T, ReaderError>) -> Result<T, DataLoaderError> {
    match r {
        Ok(value) => Ok(value),
        Err(e) => Err(DataLoaderError::Reader(e)),
    }
}

/// The end of an operation of the prefetcher that the result `r` of the
/// loader hands on: success as success, an error as an error of prefetching.
pub open spec fn handed_on(r: Result<(), DataLoaderError>) -> Option<Result<(), PrefetchError>> {
    match r {
        Ok(done) => Some(Ok(done)),
        Err(DataLoaderError::Prefetch(e)) => Some(Err(e)),
        Err(DataLoaderError::Reader(_)) => None,
    }
}

/// The cursor after a request for the next `count` shards that succeeded:
/// `count` further, but not beyond the last of the `num_shards` shards.
pub open spec fn advanced(cursor: int, count: int, num_shards: int) -> int {
    if cursor + count <= num_shards {
        cursor + count
    } else {
        num_shards
    }
}

impl<'a> DataLoader<'a, NoOpPrefetcher> {
    /// Opens the given mapped files, each with the index decoded from its
    /// metadata block, with the prefetcher that every platform has. No shard
    /// has been prefetched yet. Fails with the error of the first shard that
    /// cannot be opened.
    pub fn new(shards: Vec<(MmapManager<'a>, ShardMetadata)>) -> (r: Result<Self, DataLoaderError>)
        ensures
            match r {
                Ok(loader) => {
                    &&& loader.wf()
                    &&& all_opened(shards@, loader@.shards)
                    &&& loader@.cursor == 0
                    &&& loader.prefetch_infallible()
                },
                Err(e) => e matches DataLoaderError::Reader(cause) && opening_fails_with(
                    shards@,
                    cause,
                ),
            },
            r is Ok <==> all_open(shards@),
    {
        match create_prefetcher(QUEUE_DEPTH) {
            Ok(prefetcher) => Self::with_prefetcher(shards, prefetcher),
            Err(e) => Err(DataLoaderError::Prefetch(e)),
        }
    }
}

impl<'a, P: Prefetcher> DataLoader<'a, P> {
    /// There is one path for each shard, the one it was opened from, and the
    /// cursor does not lie beyond the last shard.
    pub closed spec fn wf(&self) -> bool {
        &&& self.shard_paths@.len() == self.reader@.len()
        &&& forall|i: int|
            0 <= i < self.shard_paths@.len() ==> (#[trigger] self.shard_paths@[i])@
                == self.reader@[i].path
        &&& self.current_shard_index <= self.reader@.len()
    }

    /// The prefetcher of this loader.
    pub closed spec fn prefetcher(&self) -> P {
        self.prefetcher
    }

    /// Whether the prefetcher of this loader is one that never fails.
    pub closed spec fn prefetch_infallible(&self) -> bool {
        self.prefetcher.infallible()
    }

    /// The paths of the shards, in the order of the shards.
    pub closed spec fn paths(&self) -> Seq<String> {
        self.shard_paths@
    }

    /// The paths that a request for the next `count` shards hands to the
    /// prefetcher: those of the shards from the cursor on, `count` of them or
    /// as many as are left.
    pub open spec fn next_paths(&self, count: usize) -> Seq<String> {
        self.paths().subrange(
            self@.cursor as int,
            advanced(self@.cursor as int, count as int, self@.shards.len() as int),
        )
    }

    /// The loader has one path for each shard: the one that the shard was
    /// opened from.
    pub proof fn lemma_paths(&self)
        requires
            self.wf(),
        ensures
            self.paths().len() == self@.shards.len(),
            forall|i: int|
                0 <= i < self@.shards.len() ==> (#[trigger] self.paths()[i])@
                    == self@.shards[i].path,
    {
    }

    /// As `new`, with a prefetcher of the caller's choice.
    pub fn with_prefetcher(
        shards: Vec<(MmapManager<'a>, ShardMetadata)>,
        prefetcher: P,
    ) -> (r: Result<Self, DataLoaderError>)
        ensures
            match r {
                Ok(loader) => {
                    &&& loader.wf()
                    &&& all_opened(shards@, loader@.shards)
                    &&& loader@.cursor == 0
                    &&& loader.prefetcher() == prefetcher
                    &&& loader.prefetch_infallible() == prefetcher.infallible()
                },
                Err(e) => e matches DataLoaderError::Reader(cause) && opening_fails_with(
                    shards@,
                    cause,
                ),
            },
            r is Ok <==> all_open(shards@),
    {
        let ghost given = shards@;
        let paths = Self::paths_of(&shards);
        let reader = match MultiShardReader::new(shards) {
            Ok(reader) => reader,
            Err(e) => {
                return Err(DataLoaderError::Reader(e));
            },
        };
        assert forall|i: int| 0 <= i < paths@.len() implies (#[trigger] paths@[i])@
            == reader@[i].path by {
            assert(opening(given[i]) == Ok::<_, ReaderError>(reader@[i]));
        }
        Ok(DataLoader { reader, prefetcher, shard_paths: paths, current_shard_index: 0 })
    }

    /// The paths that the given files were opened from.
    fn paths_of(shards: &Vec<(MmapManager<'a>, ShardMetadata)>) -> (paths: Vec<String>)
        ensures
            paths@.len() == shards@.len(),
            forall|i: int|
                0 <= i < shards@.len() ==> (#[trigger] paths@[i])@ == shards@[i].0.path_view(),
    {
        let mut paths: Vec<String> = Vec::new();
        let mut i: usize = 0;
        while i < shards.len()
            invariant
                i <= shards@.len(),
                paths@.len() == i,
                forall|j: int| 0 <= j < i ==> (#[trigger] paths@[j])@ == shards@[j].0.path_view(),
            decreases shards@.len() - i,
        {
            paths.push(shards[i].0.path().to_owned());
            i += 1;
        }
        paths
    }

    /// The bytes of the sample with the global index `index`.
    pub fn get_sample(&self, index: usize) -> (r: Result<&'a [u8], DataLoaderError>)
        ensures
            loaded(r) == from_reader(sample_at(self@.shards, index)),
    {
        match self.reader.get_sample(index) {
            Ok(bytes) => Ok(bytes),
            Err(e) => Err(DataLoaderError::Reader(e)),
        }
    }

    /// The samples with the global indices `indices`, in that order. Fails as
    /// a whole with the error of the first sample that cannot be read.
    pub fn get_batch(&self, indices: &[usize]) -> (r: Result<Vec<&'a [u8]>, DataLoaderError>)
        ensures
            match r {
                Ok(samples) => batch_is(self@.shards, indices@, samples@),
                Err(e) => e matches DataLoaderError::Reader(cause) && batch_fails_with(
                    self@.shards,
                    indices@,
                    cause,
                ),
            },
            r is Ok <==> batch_readable(self@.shards, indices@),
    {
        match self.reader.get_batch(indices) {
            Ok(samples) => Ok(samples),
            Err(e) => Err(DataLoaderError::Reader(e)),
        }
    }

    /// The shards that a request for the next `count` shards hands to the
    /// prefetcher, as the range of their positions: from the cursor on,
    /// `count` of them or as many as are left.
    pub fn next_range(&self, count: usize) -> (range: (usize, usize))
        requires
            self.wf(),
        ensures
            range.0 == self@.cursor,
            range.1 == advanced(self@.cursor as int, count as int, self@.shards.len() as int),
            range.0 <= range.1 <= self@.shards.len(),
    {
        let num_shards = self.shard_paths.len();
        let start = self.current_shard_index;
        let end = if count > num_shards - start {
            num_shards
        } else {
            start + count
        };
        (start, end)
    }

    /// Takes note of how a request for the next `count` shards ended: where
    /// it succeeded, the cursor moves on; where it failed, the cursor stays
    /// and the error is handed on.
    pub fn record_prefetch(&mut self, count: usize, outcome: Result<(), PrefetchError>) -> (r:
        Result<(), DataLoaderError>)
        requires
            old(self).wf(),
        ensures
            final(self).wf(),
            final(self)@.shards == old(self)@.shards,
            final(self).prefetcher() == old(self).prefetcher(),
            final(self).paths() == old(self).paths(),
            handed_on(r) == Some(outcome),
            final(self)@.cursor == if outcome is Ok {
                advanced(old(self)@.cursor as int, count as int, old(self)@.shards.len() as int)
            } else {
                old(self)@.cursor as int
            },
            old(self)@.cursor <= final(self)@.cursor <= final(self)@.shards.len(),
    {
        match outcome {
            Ok(done) => {
                let (_, end) = self.next_range(count);
                self.current_shard_index = end;
                Ok(done)
            },
            Err(e) => Err(DataLoaderError::Prefetch(e)),
        }
    }

    /// Hands the next `count` shards that have not been handed over yet, or
    /// as many as are left, to the prefetcher, and moves the cursor past
    /// them. Where no shard is left, nothing is done. Else the request ends
    /// as the prefetcher's does: its failure is handed on as an error of
    /// prefetching, and the cursor stays. What the loader reads is the same
    /// before and after.
    pub fn prefetch_next(&mut self, count: usize) -> (r: Result<(), DataLoaderError>)
        requires
            old(self).wf(),
        ensures
            final(self).wf(),
            final(self)@.shards == old(self)@.shards,
            forall|index: usize| #[trigger]
                sample_at(final(self)@.shards, index) == sample_at(old(self)@.shards, index),
            r is Ok ==> final(self)@.cursor == advanced(
                old(self)@.cursor as int,
                count as int,
                old(self)@.shards.len() as int,
            ),
            r is Err ==> final(self)@.cursor == old(self)@.cursor && r matches Err(
                DataLoaderError::Prefetch(_),
            ),
            old(self)@.cursor <= final(self)@.cursor <= final(self)@.shards.len(),
            final(self).paths() == old(self).paths(),
            old(self)@.cursor >= old(self)@.shards.len() ==> r is Ok && final(self).prefetcher()
                == old(self).prefetcher(),
            old(self)@.cursor < old(self)@.shards.len() ==> (handed_on(r) matches Some(outcome)
                && old(self).prefetcher().may_prefetch(old(self).next_paths(count), outcome)),
            old(self).prefetch_infallible() ==> r is Ok,
            old(self).prefetch_infallible() ==> final(self).prefetch_infallible(),
    {
        let num_shards = self.reader.num_shards();
        if self.current_shard_index >= num_shards {
            return Ok(());
        }
        let (start, end) = self.next_range(count);
        let outcome = self.prefetcher.prefetch_files(&self.shard_paths[start..end]);
        self.record_prefetch(count, outcome)
    }

    /// Returns when the prefetcher has loaded all that it was asked for, and
    /// ends as the prefetcher's wait does: its failure is handed on as an
    /// error of prefetching. The cursor stays, and what the loader reads is
    /// the same before and after.
    pub fn wait_prefetch(&mut self) -> (r: Result<(), DataLoaderError>)
        ensures
            final(self).wf() == old(self).wf(),
            final(self)@ == old(self)@,
            forall|index: usize| #[trigger]
                sample_at(final(self)@.shards, index) == sample_at(old(self)@.shards, index),
            final(self).paths() == old(self).paths(),
            handed_on(r) matches Some(outcome) && old(self).prefetcher().may_wait(outcome),
            old(self).prefetch_infallible() ==> r is Ok,
            old(self).prefetch_infallible() ==> final(self).prefetch_infallible(),
    {
        match self.prefetcher.wait() {
            Ok(done) => Ok(done),
            Err(e) => Err(DataLoaderError::Prefetch(e)),
        }
    }

    /// The number of samples in all the shards together.
    pub fn total_samples(&self) -> (n: usize)
        ensures
            n == samples_before(self@.shards, self@.shards.len() as int),
    {
        self.reader.total_samples()
    }

    /// The number of shards.
    pub fn num_shards(&self) -> (n: usize)
        ensures
            n == self@.shards.len(),
    {
        self.reader.num_shards()
    }
}

} // verus!
