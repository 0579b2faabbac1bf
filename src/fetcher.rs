use std::marker::PhantomData;
use vstd::prelude::*;

use crate::api::Endpoint;
use crate::location::{dispatch_view, Location};
use crate::records::{Keyed, RecordSet};
use crate::request::{RequestUrl, RequestUrlView};
use crate::resource::{MergeResourceError, ParseResourceError, Resource};
use crate::swarm::{pool_size, spec_pool_size, Swarm, SwarmError, MAX_POOL_SIZE};

verus! {

/// Why a fetch failed.
#[derive(Debug, PartialEq, Eq)]
pub enum FetcherError {
    /// An HTTP client could not be built.
    ClientBuildFail,
    /// A URL could not be built from the base and the location.
    MalformedUrl(url::ParseError),
    /// The location refused the strategy or a page.
    SwarmFail(SwarmError),
    /// A hand-off between the workers and the collector failed.
    ClientPoolFail,
    /// A request failed on its way to or from the backend.
    TransportFail,
    /// A response did not hold the resource.
    ParseResourceFail(ParseResourceError),
    /// Two partial results could not be merged.
    MergeResourceFail(MergeResourceError),
}

/// The headers that identify this client to the backend.
#[derive(Debug, Clone, Copy, PartialEq, Eq, Structural)]
pub struct DefaultFetcherClientBuilder;

impl DefaultFetcherClientBuilder {
    pub open spec fn spec_headers() -> Seq<(Seq<char>, Seq<char>)> {
        seq![
            ("referer"@, "https://pkuhelper.pku.edu.cn/hole/"@),
            ("user-agent"@, "Mozilla/5.0 (Windows NT 10.0; Win64; x64) AppleWebKit/537.36 (KHTML, like Gecko) Chrome/80.0.3987.149 Safari/537.36"@),
        ]
    }

    /// The default headers of every request: a referer and a user agent,
    /// as (name, value) pairs.
    pub fn headers(&self) -> (r: Vec<(&'static str, &'static str)>)
        ensures
            r@.map_values(|h: (&str, &str)| (h.0@, h.1@)) == Self::spec_headers(),
    {
        let mut r: Vec<(&'static str, &'static str)> = Vec::new();
        r.push(("referer", "https://pkuhelper.pku.edu.cn/hole/"));
        r.push(("user-agent", "Mozilla/5.0 (Windows NT 10.0; Win64; x64) AppleWebKit/537.36 (KHTML, like Gecko) Chrome/80.0.3987.149 Safari/537.36"));
        assert(r@.map_values(|h: (&str, &str)| (h.0@, h.1@)) =~= Self::spec_headers());
        r
    }
}

/// A client of the backend `A` for resources of kind `R`.
pub struct Fetcher<A: Endpoint<R>, R: Resource> {
    /// The backend.
    pub api: A,
    pub phantom: PhantomData<R>,
}

/// One fetch of one location: the strategy and page limit it runs under.
pub struct FetcherExecutor<'f, 'l, A: Endpoint<R>, R: Resource, L: Location<R>> {
    pub fetcher: &'f Fetcher<A, R>,
    pub location: &'l L,
    pub swarm: Option<Swarm>,
    /// Pages beyond this number are refused; no limit when `None`.
    pub page_limit: Option<usize>,
}

impl<A: Endpoint<R>, R: Resource> Fetcher<A, R> {
    /// A client of `api`.
    pub fn new(api: A) -> (r: Fetcher<A, R>)
        ensures
            r.api == api,
    {
        Fetcher { api, phantom: PhantomData }
    }

    /// A fetch of `location` under the location's own default strategy and
    /// no page limit.
    pub fn fetch<'f, 'l, L: Location<R>>(&'f self, location: &'l L) -> (r: FetcherExecutor<
        'f,
        'l,
        A,
        R,
        L,
    >)
        ensures
            r.fetcher == self,
            r.location == location,
            r.swarm == location.spec_default_swarm(),
            r.page_limit is None,
    {
        let swarm = location.default_swarm();
        FetcherExecutor { fetcher: self, location, swarm, page_limit: None }
    }
}

/// The requests that one fetch makes.
pub enum Plan {
    /// Fetch this one page; its outcome, error or not, is the fetch's.
    Single(RequestUrl),
    /// Fetch these pages one after another, in order; a page that fails is
    /// left out of the result.
    Sequential(Vec<RequestUrl>),
    /// Hand `jobs` to `workers` workers through one queue: first the `pages`
    /// page URLs, then one stop signal (`None`) per worker. A page that fails
    /// is left out of the result.
    Concurrent { jobs: Vec<Option<RequestUrl>>, workers: usize, pages: usize },
}

/// The views of a list of addresses.
pub open spec fn urls_view(urls: Seq<RequestUrl>) -> Seq<RequestUrlView> {
    urls.map_values(|u: RequestUrl| u@)
}

/// The views of a job queue.
pub open spec fn jobs_view(jobs: Seq<Option<RequestUrl>>) -> Seq<Option<RequestUrlView>> {
    jobs.map_values(
        |j: Option<RequestUrl>|
            match j {
                Some(u) => Some(u@),
                None => None,
            },
    )
}

/// A job queue: each page, then `workers` stop signals.
pub open spec fn job_queue(pages: Seq<RequestUrlView>, workers: nat) -> Seq<Option<RequestUrlView>> {
    pages.map_values(|u: RequestUrlView| Some(u)) + Seq::new(workers, |i: int| None)
}

impl<'f, 'l, A: Endpoint<R>, R: Resource, L: Location<R>> FetcherExecutor<'f, 'l, A, R, L> {
    /// The URL of the location on the endpoint.
    pub open spec fn spec_located(&self) -> RequestUrlView {
        self.location.spec_locate(self.fetcher.api.spec_base())
    }

    /// The URL of the one page fetched without a strategy.
    pub open spec fn spec_single(&self) -> Result<RequestUrlView, SwarmError> {
        self.location.spec_dispatch(self.spec_located(), None, 1, 1)
    }

    /// The URL of page `page` under `swarm`, or why it is refused.
    pub open spec fn spec_page(&self, swarm: Swarm, page: usize) -> Result<RequestUrlView, SwarmError> {
        match self.location.spec_dispatch(self.spec_located(), Some(swarm), page, swarm.spec_page_size()) {
            Err(e) => Err(e),
            Ok(u) => if self.page_limit matches Some(limit) && page > limit {
                Err(SwarmError::PolicyRejected)
            } else {
                Ok(u)
            },
        }
    }

    /// The URLs of pages `1..=n` run in sequence, or the refusal of the first
    /// page refused.
    pub open spec fn spec_sequential_pages(&self, swarm: Swarm, n: nat) -> Result<
        Seq<RequestUrlView>,
        SwarmError,
    >
        decreases n,
    {
        if n == 0 {
            Ok(Seq::empty())
        } else {
            match self.spec_sequential_pages(swarm, (n - 1) as nat) {
                Err(e) => Err(e),
                Ok(urls) => match self.spec_page(swarm, n as usize) {
                    Ok(u) => Ok(urls.push(u)),
                    Err(e) => Err(e),
                },
            }
        }
    }

    /// The URLs of pages `1..=n` run concurrently: pages beyond the page
    /// limit are left out; any other refusal, such as a location that cannot
    /// be paged, is the refusal of the whole run.
    pub open spec fn spec_concurrent_pages(&self, swarm: Swarm, n: nat) -> Result<
        Seq<RequestUrlView>,
        SwarmError,
    >
        decreases n,
    {
        if n == 0 {
            Ok(Seq::empty())
        } else {
            match self.spec_concurrent_pages(swarm, (n - 1) as nat) {
                Err(e) => Err(e),
                Ok(urls) => match self.spec_page(swarm, n as usize) {
                    Ok(u) => Ok(urls.push(u)),
                    Err(SwarmError::PolicyRejected) => Ok(urls),
                    Err(e) => Err(e),
                },
            }
        }
    }

    /// This fetch under another strategy.
    pub fn swarm(self, swarm: Option<Swarm>) -> (r: Self)
        ensures
            r.fetcher == self.fetcher,
            r.location == self.location,
            r.swarm == swarm,
            r.page_limit == self.page_limit,
    {
        FetcherExecutor { swarm, ..self }
    }

    /// This fetch with pages beyond `limit` refused; `None` lifts the limit.
    pub fn page_limit(self, limit: Option<usize>) -> (r: Self)
        ensures
            r.fetcher == self.fetcher,
            r.location == self.location,
            r.swarm == self.swarm,
            r.page_limit == limit,
    {
        FetcherExecutor { page_limit: limit, ..self }
    }

    fn page(&self, swarm: &Swarm, page: usize) -> (r: Result<RequestUrl, SwarmError>)
        requires
            page >= 1,
        ensures
            dispatch_view(r) == self.spec_page(*swarm, page),
    {
        let url = self.fetcher.api.locate(self.location);
        let r = self.location.dispatch(url, Some(swarm), page, swarm.page_size());
        if let Ok(_) = r {
            if let Some(limit) = self.page_limit {
                if page > limit {
                    return Err(SwarmError::PolicyRejected);
                }
            }
        }
        r
    }

    /// The requests this fetch makes.
    ///
    /// Without a strategy, the one page the location names; a refusal is an
    /// error. In sequence, pages `1..=count` in order; a refused page is an
    /// error. Concurrently, the pages within the page limit, for
    /// `min(count, 16)` workers; a page refused otherwise (a location that
    /// cannot be paged) is an error. The collector then awaits one result for
    /// each page handed out.
    pub fn plan(&self) -> (r: Result<Plan, FetcherError>)
        ensures
            match self.swarm {
                None => match self.spec_single() {
                    Ok(u) => r matches Ok(Plan::Single(url)) && url@ == u,
                    Err(e) => r == Err::<Plan, FetcherError>(FetcherError::SwarmFail(e)),
                },
                Some(s) => match s {
                    Swarm::Sequential { count, .. } => match self.spec_sequential_pages(s, count as nat) {
                        Ok(us) => r matches Ok(Plan::Sequential(urls)) && urls_view(urls@) == us,
                        Err(e) => r == Err::<Plan, FetcherError>(FetcherError::SwarmFail(e)),
                    },
                    Swarm::Concurrent { count, .. } => match self.spec_concurrent_pages(s, count as nat) {
                        Ok(us) => r matches Ok(Plan::Concurrent { jobs, workers, pages })
                            && workers == spec_pool_size(count)
                            && pages == us.len()
                            && jobs_view(jobs@) == job_queue(us, workers as nat),
                        Err(e) => r == Err::<Plan, FetcherError>(FetcherError::SwarmFail(e)),
                    },
                },
            },
            self.swarm matches Some(s) && s.spec_count() > 0 && !self.location.spec_paginable() ==> r
                == Err::<Plan, FetcherError>(FetcherError::SwarmFail(SwarmError::Unsupported)),
    {
        proof {
            if let Some(s) = self.swarm {
                if s.spec_count() > 0 && !self.location.spec_paginable() {
                    lemma_unpaginable_runs_refused(self, s, s.spec_count() as nat);
                }
            }
        }
        match self.swarm {
            None => {
                let url = self.fetcher.api.locate(self.location);
                match self.location.dispatch(url, None, 1, 1) {
                    Ok(u) => Ok(Plan::Single(u)),
                    Err(e) => Err(FetcherError::SwarmFail(e)),
                }
            },
            Some(s) => match s {
                Swarm::Sequential { count, .. } => {
                    let mut urls: Vec<RequestUrl> = Vec::new();
                    assert(urls_view(urls@) =~= Seq::<RequestUrlView>::empty());
                    let mut i: usize = 0;
                    while i < count
                        invariant
                            i <= count,
                            self.swarm == Some(s),
                            s is Sequential,
                            count > 0 && !self.location.spec_paginable() ==> self.spec_sequential_pages(s, count as nat)
                                == Err::<Seq<RequestUrlView>, SwarmError>(SwarmError::Unsupported),
                            s.spec_count() == count,
                            self.spec_sequential_pages(s, i as nat) == Ok::<Seq<RequestUrlView>, SwarmError>(urls_view(urls@)),
                        decreases count - i,
                    {
                        match self.page(&s, i + 1) {
                            Ok(u) => {
                                let ghost before = urls@;
                                urls.push(u);
                                assert(urls_view(urls@) =~= urls_view(before).push(u@));
                            },
                            Err(e) => {
                                proof {
                                    lemma_sequential_refusal_sticks(self, s, (i + 1) as nat, count as nat, e);
                                }
                                return Err(FetcherError::SwarmFail(e));
                            },
                        }
                        i = i + 1;
                    }
                    Ok(Plan::Sequential(urls))
                },
                Swarm::Concurrent { count, .. } => {
                    let workers = pool_size(count);
                    let mut jobs: Vec<Option<RequestUrl>> = Vec::new();
                    let ghost found: Seq<RequestUrlView> = Seq::empty();
                    assert(jobs_view(jobs@) =~= found.map_values(|u: RequestUrlView| Some(u)));
                    let mut i: usize = 0;
                    while i < count
                        invariant
                            i <= count,
                            self.swarm == Some(s),
                            s is Concurrent,
                            count > 0 && !self.location.spec_paginable() ==> self.spec_concurrent_pages(s, count as nat)
                                == Err::<Seq<RequestUrlView>, SwarmError>(SwarmError::Unsupported),
                            s.spec_count() == count,
                            self.spec_concurrent_pages(s, i as nat) == Ok::<Seq<RequestUrlView>, SwarmError>(found),
                            jobs_view(jobs@) == found.map_values(|u: RequestUrlView| Some(u)),
                        decreases count - i,
                    {
                        let ghost before = jobs@;
                        match self.page(&s, i + 1) {
                            Ok(u) => {
                                jobs.push(Some(u));
                                proof {
                                    found = found.push(u@);
                                }
                                assert(jobs_view(jobs@) =~= jobs_view(before).push(Some(u@)));
                                assert(jobs_view(jobs@) =~= found.map_values(|u: RequestUrlView| Some(u)));
                            },
                            Err(SwarmError::PolicyRejected) => {},
                            Err(e) => {
                                proof {
                                    lemma_concurrent_refusal_sticks(self, s, (i + 1) as nat, count as nat, e);
                                }
                                return Err(FetcherError::SwarmFail(e));
                            },
                        }
                        i = i + 1;
                    }
                    let pages = jobs.len();
                    let ghost listed = jobs_view(jobs@);
                    let mut k: usize = 0;
                    while k < workers
                        invariant
                            k <= workers,
                            jobs.len() == pages + k,
                            jobs_view(jobs@) == listed + Seq::new(k as nat, |i: int| None::<RequestUrlView>),
                        decreases workers - k,
                    {
                        let ghost before = jobs@;
                        jobs.push(None);
                        assert(jobs_view(jobs@) =~= jobs_view(before).push(None));
                        k = k + 1;
                        assert(jobs_view(jobs@) =~= listed + Seq::new(k as nat, |i: int| None::<RequestUrlView>));
                    }
                    assert(jobs_view(jobs@) =~= job_queue(found, workers as nat));
                    Ok(Plan::Concurrent { jobs, workers, pages })
                },
            },
        }
    }
}

/// The merge of `parts`, left to right, starting from the blank resource.
pub open spec fn merge_all<R: Resource>(parts: Seq<R::V>) -> R::V
    decreases parts.len(),
{
    if parts.len() == 0 {
        R::spec_blank()
    } else {
        R::spec_merge(merge_all::<R>(parts.drop_last()), parts.last())
    }
}

/// The identifiers present in any of `parts`.
pub open spec fn all_keys<E>(parts: Seq<Map<usize, E>>) -> Set<usize>
    decreases parts.len(),
{
    if parts.len() == 0 {
        Set::empty()
    } else {
        all_keys(parts.drop_last()).union(parts.last().dom())
    }
}

/// Merging pages of records keeps one record for each identifier that any
/// page holds, and no other: the merged count is the number of distinct
/// identifiers across the pages.
pub proof fn lemma_merge_all_keys<E: Keyed>(parts: Seq<Map<usize, E>>)
    ensures
        merge_all::<RecordSet<E>>(parts).dom() == all_keys(parts),
    decreases parts.len(),
{
    if parts.len() > 0 {
        lemma_merge_all_keys::<E>(parts.drop_last());
        assert(merge_all::<RecordSet<E>>(parts).dom() =~= all_keys(parts));
    } else {
        assert(merge_all::<RecordSet<E>>(parts).dom() =~= all_keys(parts));
    }
}

/// Gathers the outcomes of the pages of a fetch into one resource.
///
/// It awaits a set number of outcomes. Each page that arrived is merged in;
/// each page that failed is left out. Once cancelled it takes no more: what
/// it returns then holds exactly the pages merged before.
pub struct Collector<R: Resource> {
    acc: R,
    expected: usize,
    received: usize,
    cancelled: bool,
    merged: Ghost<Seq<R::V>>,
}

impl<R: Resource> Collector<R> {
    #[verifier::type_invariant]
    closed spec fn inv(self) -> bool {
        &&& self.acc@ == merge_all::<R>(self.merged@)
        &&& self.received <= self.expected
    }

    /// The pages merged so far, in the order they were merged.
    pub closed spec fn spec_merged(&self) -> Seq<R::V> {
        self.merged@
    }

    /// The number of outcomes awaited.
    pub closed spec fn spec_expected(&self) -> usize {
        self.expected
    }

    /// The number of outcomes taken so far.
    pub closed spec fn spec_received(&self) -> usize {
        self.received
    }

    pub closed spec fn spec_cancelled(&self) -> bool {
        self.cancelled
    }

    /// Whether the collector takes no more outcomes.
    pub open spec fn spec_done(&self) -> bool {
        self.spec_cancelled() || self.spec_received() >= self.spec_expected()
    }

    /// A collector awaiting `expected` outcomes, with nothing merged yet.
    pub fn new(expected: usize) -> (r: Self)
        ensures
            r.spec_merged() == Seq::<R::V>::empty(),
            r.spec_expected() == expected,
            r.spec_received() == 0,
            !r.spec_cancelled(),
    {
        Collector { acc: R::blank(), expected, received: 0, cancelled: false, merged: Ghost(Seq::empty()) }
    }

    /// Whether every awaited outcome was taken or the collector was cancelled.
    pub fn is_done(&self) -> (r: bool)
        ensures
            r == self.spec_done(),
    {
        self.cancelled || self.received >= self.expected
    }

    /// Takes the outcome of one page. After cancellation the outcome is
    /// dropped and nothing changes. Otherwise a failed page is counted and
    /// left out, and a page that arrived is merged in; a page that cannot be
    /// merged ends the fetch with `MergeResourceFail`.
    pub fn accept(self, outcome: Result<R, FetcherError>) -> (r: Result<Self, FetcherError>)
        requires
            self.spec_cancelled() || self.spec_received() < self.spec_expected(),
        ensures
            self.spec_cancelled() ==> (r matches Ok(c) && c.spec_merged() == self.spec_merged()
                && c.spec_received() == self.spec_received() && c.spec_expected()
                == self.spec_expected() && c.spec_cancelled()),
            !self.spec_cancelled() ==> match outcome {
                Err(_) => r matches Ok(c) && c.spec_merged() == self.spec_merged()
                    && c.spec_received() == self.spec_received() + 1 && c.spec_expected()
                    == self.spec_expected() && !c.spec_cancelled(),
                Ok(part) => if R::spec_mergeable(merge_all::<R>(self.spec_merged()), part@) {
                    r matches Ok(c) && c.spec_merged() == self.spec_merged().push(part@)
                        && c.spec_received() == self.spec_received() + 1 && c.spec_expected()
                        == self.spec_expected() && !c.spec_cancelled()
                } else {
                    r matches Err(FetcherError::MergeResourceFail(_))
                },
            },
    {
        proof {
            use_type_invariant(&self);
        }
        if self.cancelled {
            return Ok(self);
        }
        let Collector { acc, expected, received, cancelled, merged } = self;
        match outcome {
            Err(_) => Ok(Collector { acc, expected, received: received + 1, cancelled, merged }),
            Ok(part) => {
                let ghost part_view = part@;
                match R::merge(acc, part) {
                    Ok(m) => {
                        let ghost parts = merged@.push(part_view);
                        assert(parts.drop_last() =~= merged@);
                        Ok(Collector { acc: m, expected, received: received + 1, cancelled, merged: Ghost(parts) })
                    },
                    Err(e) => Err(FetcherError::MergeResourceFail(e)),
                }
            },
        }
    }

    /// Stops the collector: later outcomes are dropped.
    pub fn cancel(self) -> (r: Self)
        ensures
            r.spec_merged() == self.spec_merged(),
            r.spec_received() == self.spec_received(),
            r.spec_expected() == self.spec_expected(),
            r.spec_cancelled(),
    {
        proof {
            use_type_invariant(&self);
        }
        Collector { cancelled: true, ..self }
    }

    /// The merge of every page taken, in the order taken.
    pub fn finish(self) -> (r: R)
        ensures
            r@ == merge_all::<R>(self.spec_merged()),
    {
        proof {
            use_type_invariant(&self);
        }
        self.acc
    }
}

/// A location that cannot be paged refuses every run of one page or more,
/// in sequence or concurrently.
proof fn lemma_unpaginable_runs_refused<'f, 'l, A: Endpoint<R>, R: Resource, L: Location<R>>(
    exec: &FetcherExecutor<'f, 'l, A, R, L>,
    swarm: Swarm,
    n: nat,
)
    requires
        n >= 1,
        !exec.location.spec_paginable(),
    ensures
        exec.spec_sequential_pages(swarm, n) == Err::<Seq<RequestUrlView>, SwarmError>(SwarmError::Unsupported),
        exec.spec_concurrent_pages(swarm, n) == Err::<Seq<RequestUrlView>, SwarmError>(SwarmError::Unsupported),
    decreases n,
{
    exec.location.lemma_unpaginable_refuses(exec.spec_located(), swarm, n as usize, swarm.spec_page_size());
    if n > 1 {
        lemma_unpaginable_runs_refused(exec, swarm, (n - 1) as nat);
    } else {
        assert(exec.spec_sequential_pages(swarm, 0) is Ok);
        assert(exec.spec_concurrent_pages(swarm, 0) is Ok);
    }
}

/// Once a page of a concurrent run is refused other than by the page limit,
/// every longer run is refused with the same error.
proof fn lemma_concurrent_refusal_sticks<'f, 'l, A: Endpoint<R>, R: Resource, L: Location<R>>(
    exec: &FetcherExecutor<'f, 'l, A, R, L>,
    swarm: Swarm,
    n: nat,
    m: nat,
    e: SwarmError,
)
    requires
        1 <= n <= m,
        e != SwarmError::PolicyRejected,
        exec.spec_page(swarm, n as usize) == Err::<RequestUrlView, SwarmError>(e),
        exec.spec_concurrent_pages(swarm, (n - 1) as nat) is Ok,
    ensures
        exec.spec_concurrent_pages(swarm, m) == Err::<Seq<RequestUrlView>, SwarmError>(e),
    decreases m - n,
{
    if m > n {
        lemma_concurrent_refusal_sticks(exec, swarm, n, (m - 1) as nat, e);
    }
}

/// Once a page of a sequential run is refused, every longer run is refused
/// with the same error.
proof fn lemma_sequential_refusal_sticks<'f, 'l, A: Endpoint<R>, R: Resource, L: Location<R>>(
    exec: &FetcherExecutor<'f, 'l, A, R, L>,
    swarm: Swarm,
    n: nat,
    m: nat,
    e: SwarmError,
)
    requires
        1 <= n <= m,
        exec.spec_page(swarm, n as usize) == Err::<RequestUrlView, SwarmError>(e),
        exec.spec_sequential_pages(swarm, (n - 1) as nat) is Ok,
    ensures
        exec.spec_sequential_pages(swarm, m) == Err::<Seq<RequestUrlView>, SwarmError>(e),
    decreases m - n,
{
    if m > n {
        lemma_sequential_refusal_sticks(exec, swarm, n, (m - 1) as nat, e);
    }
}

} // verus!
