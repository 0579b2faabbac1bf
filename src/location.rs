use vstd::prelude::*;

use crate::request::{RequestUrl, RequestUrlView};
use crate::resource::Resource;
use crate::swarm::{Swarm, SwarmError};

verus! {

/// The strategy behind an optional reference, by value.
pub open spec fn deref_swarm(swarm: Option<&Swarm>) -> Option<Swarm> {
    match swarm {
        Some(s) => Some(*s),
        None => None,
    }
}

/// The outcome of a dispatch, in terms of views.
pub open spec fn dispatch_view(r: Result<RequestUrl, SwarmError>) -> Result<
    RequestUrlView,
    SwarmError,
> {
    match r {
        Ok(u) => Ok(u@),
        Err(e) => Err(e),
    }
}

/// A fetchable target whose records form the resource `R`.
pub trait Location<R: Resource> {
    /// Where the resource lives, given the endpoint's base URL.
    spec fn spec_locate(&self, url: RequestUrlView) -> RequestUrlView;

    /// The URL of one page of the resource under a strategy.
    spec fn spec_dispatch(
        &self,
        url: RequestUrlView,
        swarm: Option<Swarm>,
        page: usize,
        page_size: usize,
    ) -> Result<RequestUrlView, SwarmError>;

    /// The strategy used where the caller names none.
    spec fn spec_default_swarm(&self) -> Option<Swarm>;

    /// Whether the resource comes in pages.
    spec fn spec_paginable(&self) -> bool;

    /// A location that does not come in pages refuses every strategy.
    proof fn lemma_unpaginable_refuses(&self, url: RequestUrlView, swarm: Swarm, page: usize, page_size: usize)
        requires
            !self.spec_paginable(),
        ensures
            self.spec_dispatch(url, Some(swarm), page, page_size) == Err::<RequestUrlView, SwarmError>(
                SwarmError::Unsupported,
            ),
    ;

    /// The location of the resource.
    fn locate(&self, url: RequestUrl) -> (r: RequestUrl)
        ensures
            r@ == self.spec_locate(url@),
    ;

    /// The URL of page `page` (counted from 1) of `page_size` records, under
    /// `swarm`; without a strategy, the location's single-page defaults.
    /// Asking a paginable location for page 0 under a strategy is a
    /// programming error.
    fn dispatch(&self, url: RequestUrl, swarm: Option<&Swarm>, page: usize, page_size: usize) -> (r:
        Result<RequestUrl, SwarmError>)
        requires
            swarm is Some && self.spec_paginable() ==> page >= 1,
        ensures
            dispatch_view(r) == self.spec_dispatch(url@, deref_swarm(swarm), page, page_size),
    ;

    /// The default swarm.
    fn default_swarm(&self) -> (r: Option<Swarm>)
        ensures
            r == self.spec_default_swarm(),
    ;
}

} // verus!
