use vstd::prelude::*;

verus! {

/// The most workers a concurrent fetch ever runs against one backend.
pub const MAX_POOL_SIZE: usize = 16;

/// A strategy for fetching a paginated resource.
///
/// Fetching a single page uses no strategy at all (`None` where an
/// `Option<Swarm>` is expected).
#[derive(Debug, Clone, Copy, Hash, PartialEq, Eq, Structural)]
pub enum Swarm {
    /// Fetch `count` pages of `page_size` records with a bounded pool of workers.
    Concurrent { count: usize, page_size: usize },
    /// Fetch `count` pages of `page_size` records one after another, in page order.
    Sequential { count: usize, page_size: usize },
}

impl Swarm {
    pub open spec fn spec_count(self) -> usize {
        match self {
            Swarm::Concurrent { count, .. } => count,
            Swarm::Sequential { count, .. } => count,
        }
    }

    pub open spec fn spec_page_size(self) -> usize {
        match self {
            Swarm::Concurrent { page_size, .. } => page_size,
            Swarm::Sequential { page_size, .. } => page_size,
        }
    }

    /// The number of pages this strategy fetches.
    pub fn count(&self) -> (r: usize)
        ensures
            r == self.spec_count(),
    {
        match self {
            Swarm::Concurrent { count, .. } => *count,
            Swarm::Sequential { count, .. } => *count,
        }
    }

    /// The number of records asked for on each page.
    pub fn page_size(&self) -> (r: usize)
        ensures
            r == self.spec_page_size(),
    {
        match self {
            Swarm::Concurrent { page_size, .. } => *page_size,
            Swarm::Sequential { page_size, .. } => *page_size,
        }
    }
}

/// Why a location refuses to produce the URL of a page.
#[derive(Debug, Clone, Copy, PartialEq, Eq, Structural)]
pub enum SwarmError {
    /// A paginated strategy was asked of a location that is not paginable.
    Unsupported,
    /// The page lies beyond the page limit that the fetch was configured with.
    PolicyRejected,
}

pub open spec fn spec_pool_size(count: usize) -> usize {
    if count < MAX_POOL_SIZE {
        count
    } else {
        MAX_POOL_SIZE
    }
}

/// The number of workers a concurrent fetch of `count` pages runs: `min(count, 16)`.
pub fn pool_size(count: usize) -> (r: usize)
    ensures
        r == spec_pool_size(count),
        r <= MAX_POOL_SIZE,
        r <= count,
{
    if count < MAX_POOL_SIZE {
        count
    } else {
        MAX_POOL_SIZE
    }
}

} // verus!
