//! Prefetching: a request to the operating system to load files into its
//! cache before they are read. It is a hint: what is read later does not
//! depend on it.

use vstd::prelude::*;

verus! {

/// Why a prefetch request failed.
#[derive(Debug, PartialEq, Eq)]
pub enum PrefetchError {
    /// A file could not be opened or read.
    Io(String),
    /// This platform has no means to prefetch.
    NotSupported,
    /// The request could not be queued or did not complete.
    Prefetch(String),
}

/// What a prefetcher can do: take requests, and wait for them.
pub trait Prefetcher: Send + Sync {
    /// Whether this prefetcher is one whose operations never fail. Unless a
    /// prefetcher says so, it is not.
    open spec fn infallible(&self) -> bool {
        false
    }

    /// Whether a request for the files at `paths`, made of this prefetcher,
    /// can end in `r`. Unless a prefetcher says more, it can end in anything.
    open spec fn may_prefetch(&self, paths: Seq<String>, r: Result<(), PrefetchError>) -> bool {
        true
    }

    /// Whether waiting for this prefetcher can end in `r`. Unless a
    /// prefetcher says more, it can end in anything.
    open spec fn may_wait(&self, r: Result<(), PrefetchError>) -> bool {
        true
    }

    /// Asks for the files at `paths` to be loaded.
    fn prefetch_files(&mut self, paths: &[String]) -> (r: Result<(), PrefetchError>)
        ensures
            old(self).may_prefetch(paths@, r),
            old(self).infallible() ==> r is Ok && final(self).infallible(),
    ;

    /// Returns when all that was asked for has been loaded.
    fn wait(&mut self) -> (r: Result<(), PrefetchError>)
        ensures
            old(self).may_wait(r),
            old(self).infallible() ==> r is Ok && final(self).infallible(),
    ;
}

/// The prefetcher that does nothing. Every platform has it.
pub struct NoOpPrefetcher;

impl Prefetcher for NoOpPrefetcher {
    open spec fn infallible(&self) -> bool {
        true
    }

    open spec fn may_prefetch(&self, paths: Seq<String>, r: Result<(), PrefetchError>) -> bool {
        r is Ok
    }

    open spec fn may_wait(&self, r: Result<(), PrefetchError>) -> bool {
        r is Ok
    }

    fn prefetch_files(&mut self, _paths: &[String]) -> (r: Result<(), PrefetchError>)
        ensures
            r is Ok,
    {
        Ok(())
    }

    fn wait(&mut self) -> (r: Result<(), PrefetchError>)
        ensures
            r is Ok,
    {
        Ok(())
    }
}

/// The prefetcher that every platform has: the one that does nothing, and so
/// never fails. `queue_depth` is a hint to prefetchers that queue their
/// requests; this one has no queue.
pub fn create_prefetcher(queue_depth: u32) -> (r: Result<NoOpPrefetcher, PrefetchError>)
    ensures
        r matches Ok(prefetcher) && prefetcher.infallible(),
{
    Ok(NoOpPrefetcher)
}

/// A prefetcher that was chosen at run time is a prefetcher: each operation is
/// that of the prefetcher in the box.
impl Prefetcher for Box<dyn Prefetcher> {
    open spec fn infallible(&self) -> bool {
        (**self).infallible()
    }

    open spec fn may_prefetch(&self, paths: Seq<String>, r: Result<(), PrefetchError>) -> bool {
        (**self).may_prefetch(paths, r)
    }

    open spec fn may_wait(&self, r: Result<(), PrefetchError>) -> bool {
        (**self).may_wait(r)
    }

    /// Asks the prefetcher in the box, and ends as it does.
    fn prefetch_files(&mut self, paths: &[String]) -> (r: Result<(), PrefetchError>)
        ensures
            (**old(self)).may_prefetch(paths@, r),
            (**old(self)).infallible() ==> r is Ok && (**final(self)).infallible(),
    {
        (**self).prefetch_files(paths)
    }

    /// Waits for the prefetcher in the box, and ends as it does.
    fn wait(&mut self) -> (r: Result<(), PrefetchError>)
        ensures
            (**old(self)).may_wait(r),
            (**old(self)).infallible() ==> r is Ok && (**final(self)).infallible(),
    {
        (**self).wait()
    }
}

} // verus!
