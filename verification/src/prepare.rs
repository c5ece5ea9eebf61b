//! The decisions of the catalog-name fetcher: which pages its concurrent
//! jobs visit, and when a job retires.

use vstd::prelude::*;

verus! {

/// How many names a full catalog page holds; a shorter page is the last
/// one and ends its job's pagination.
pub const PAGE_SIZE: usize = 100;

/// The prepare subcommand's configuration.
#[derive(Debug)]
pub struct Prepare {
    /// The number of crate-name pages to fetch.
    pub num_pages: usize,
    /// The number of concurrent jobs.
    pub jobs: usize,
    /// The number of requests per second.
    pub rate_limit: u64,
    /// The path to the output file; standard output when absent.
    pub out_path: Option<String>,
}

impl Prepare {
    /// The pages the jobs start from: `1` through `jobs`, one each; job
    /// `k` then strides through `k`, `k + jobs`, `k + 2 * jobs`, and so
    /// on.
    pub fn initial_pages(&self) -> (r: Vec<usize>)
        requires
            self.jobs < usize::MAX,
        ensures
            r@.len() == self.jobs,
            forall|i: int| 0 <= i < r@.len() ==> #[trigger] r@[i] == i + 1,
    {
        let mut r: Vec<usize> = Vec::new();
        let mut page: usize = 0;
        while page < self.jobs
            invariant
                self.jobs < usize::MAX,
                page <= self.jobs,
                r@.len() == page,
                forall|i: int| 0 <= i < r@.len() ==> #[trigger] r@[i] == i + 1,
            decreases self.jobs - page,
        {
            r.push(page + 1);
            page = page + 1;
        }
        r
    }

    /// Whether a page drawn from the queue is still worth fetching; a
    /// page past the requested count retires its job instead.
    pub fn should_fetch(&self, page: usize) -> (b: bool)
        ensures
            b == (page <= self.num_pages),
    {
        page <= self.num_pages
    }

    /// After a fetched page returned `count` names: the follow-up page
    /// for the same job, or `None` when a short page ends the
    /// pagination and retires the job.
    pub fn follow_up_page(&self, page: usize, count: usize) -> (r: Option<usize>)
        requires
            page + self.jobs <= usize::MAX,
        ensures
            count >= PAGE_SIZE ==> (r matches Some(p) && p == page + self.jobs),
            count < PAGE_SIZE ==> r is None,
    {
        if count >= PAGE_SIZE {
            Some(page + self.jobs)
        } else {
            None
        }
    }

    /// The rate limiter's tick period in microseconds, admitting
    /// `rate_limit` requests per second.
    pub fn tick_period_micros(&self) -> (r: u64)
        requires
            self.rate_limit > 0,
        ensures
            r == 1_000_000u64 / self.rate_limit,
    {
        1_000_000 / self.rate_limit
    }
}

} // verus!
