//! Locations on the older PKU Helper backend, which names each resource by
//! an `action` query parameter on one script.

use vstd::prelude::*;

use crate::hole::HoleSet;
use crate::location::Location;
use crate::request::{decimal, decimal_string, RequestUrl, RequestUrlView};
use crate::swarm::{Swarm, SwarmError};

verus! {

/// The script that answers every request of this backend.
pub const DEFAULT_API_BASE: &'static str = "https://pkuhelper.pku.edu.cn/services/pkuhole/api.php";

/// The attention list: the holes the user follows. It comes whole, so it
/// cannot be paginated.
#[derive(Hash, Eq, PartialEq, Debug, Clone, Copy, Structural)]
pub struct FetchAttention;

impl Location<HoleSet> for FetchAttention {
    open spec fn spec_locate(&self, url: RequestUrlView) -> RequestUrlView {
        url.pair("action"@, "getattention"@)
    }

    /// Without a strategy, the URL unchanged; with any strategy, refused.
    open spec fn spec_dispatch(
        &self,
        url: RequestUrlView,
        swarm: Option<Swarm>,
        page: usize,
        page_size: usize,
    ) -> Result<RequestUrlView, SwarmError> {
        if swarm is None {
            Ok(url)
        } else {
            Err(SwarmError::Unsupported)
        }
    }

    open spec fn spec_default_swarm(&self) -> Option<Swarm> {
        None
    }

    open spec fn spec_paginable(&self) -> bool {
        false
    }

    proof fn lemma_unpaginable_refuses(&self, url: RequestUrlView, swarm: Swarm, page: usize, page_size: usize) {
    }

    fn locate(&self, url: RequestUrl) -> (r: RequestUrl) {
        url.append_pair("action", "getattention")
    }

    fn dispatch(&self, url: RequestUrl, swarm: Option<&Swarm>, _page: usize, _page_size: usize) -> (r:
        Result<RequestUrl, SwarmError>) {
        if swarm.is_none() {
            Ok(url)
        } else {
            Err(SwarmError::Unsupported)
        }
    }

    fn default_swarm(&self) -> (r: Option<Swarm>) {
        None
    }
}

/// The live feed, paged by a `p` parameter; the backend fixes the page size.
#[derive(Hash, Eq, PartialEq, Debug, Clone, Copy, Structural)]
pub struct FetchFeed;

impl Location<HoleSet> for FetchFeed {
    open spec fn spec_locate(&self, url: RequestUrlView) -> RequestUrlView {
        url.pair("action"@, "getlist"@)
    }

    /// Page 1 without a strategy, else the page asked for.
    open spec fn spec_dispatch(
        &self,
        url: RequestUrlView,
        swarm: Option<Swarm>,
        page: usize,
        page_size: usize,
    ) -> Result<RequestUrlView, SwarmError> {
        if swarm is None {
            Ok(url.pair("p"@, "1"@))
        } else {
            Ok(url.pair("p"@, decimal(page as nat)))
        }
    }

    open spec fn spec_default_swarm(&self) -> Option<Swarm> {
        Some(Swarm::Concurrent { count: 4, page_size: 30 })
    }

    open spec fn spec_paginable(&self) -> bool {
        true
    }

    proof fn lemma_unpaginable_refuses(&self, url: RequestUrlView, swarm: Swarm, page: usize, page_size: usize) {
    }

    fn locate(&self, url: RequestUrl) -> (r: RequestUrl) {
        url.append_pair("action", "getlist")
    }

    fn dispatch(&self, url: RequestUrl, swarm: Option<&Swarm>, page: usize, _page_size: usize) -> (r:
        Result<RequestUrl, SwarmError>) {
        match swarm {
            None => Ok(url.append_pair("p", "1")),
            Some(_) => {
                let page_text = decimal_string(page);
                Ok(url.append_pair("p", page_text.as_str()))
            },
        }
    }

    fn default_swarm(&self) -> (r: Option<Swarm>) {
        Some(Swarm::Concurrent { count: 4, page_size: 30 })
    }
}

} // verus!
