use vstd::prelude::*;

use crate::hole::{HoleID, HoleSet};
use crate::location::Location;
use crate::reply::ReplySet;
use crate::request::{decimal, decimal_string, RequestUrl, RequestUrlView};
use crate::swarm::{Swarm, SwarmError};

verus! {

/// `url` with `page` and `limit` query pairs.
pub open spec fn with_page(url: RequestUrlView, page: Seq<char>, limit: Seq<char>) -> RequestUrlView {
    url.pair("page"@, page).pair("limit"@, limit)
}

/// The paging shared by the attention list, the feed and the replies: page 1
/// of 25 without a strategy, else the page and page size asked for.
pub open spec fn paged(url: RequestUrlView, swarm: Option<Swarm>, page: usize, page_size: usize) -> RequestUrlView {
    if swarm is None {
        with_page(url, "1"@, "25"@)
    } else {
        with_page(url, decimal(page as nat), decimal(page_size as nat))
    }
}

fn append_paging(url: RequestUrl, swarm: Option<&Swarm>, page: usize, page_size: usize) -> (r: RequestUrl)
    ensures
        r@ == paged(url@, match swarm { Some(s) => Some(*s), None => None }, page, page_size),
{
    match swarm {
        None => url.append_pair("page", "1").append_pair("limit", "25"),
        Some(_) => {
            let page_text = decimal_string(page);
            let size_text = decimal_string(page_size);
            url.append_pair("page", page_text.as_str()).append_pair("limit", size_text.as_str())
        },
    }
}

/// The attention list: the holes the user follows.
#[derive(Hash, Eq, PartialEq, Debug, Clone, Copy, Structural)]
pub struct FetchAttention;

impl Location<HoleSet> for FetchAttention {
    open spec fn spec_locate(&self, url: RequestUrlView) -> RequestUrlView {
        url.join("follow"@)
    }

    open spec fn spec_dispatch(
        &self,
        url: RequestUrlView,
        swarm: Option<Swarm>,
        page: usize,
        page_size: usize,
    ) -> Result<RequestUrlView, SwarmError> {
        Ok(paged(url, swarm, page, page_size))
    }

    open spec fn spec_default_swarm(&self) -> Option<Swarm> {
        Some(Swarm::Concurrent { count: 4, page_size: 30 })
    }

    open spec fn spec_paginable(&self) -> bool {
        true
    }

    proof fn lemma_unpaginable_refuses(&self, url: RequestUrlView, swarm: Swarm, page: usize, page_size: usize) {
    }

    fn locate(&self, url: RequestUrl) -> (r: RequestUrl) {
        url.join("follow")
    }

    fn dispatch(&self, url: RequestUrl, swarm: Option<&Swarm>, page: usize, page_size: usize) -> (r:
        Result<RequestUrl, SwarmError>) {
        Ok(append_paging(url, swarm, page, page_size))
    }

    fn default_swarm(&self) -> (r: Option<Swarm>) {
        Some(Swarm::Concurrent { count: 4, page_size: 30 })
    }
}

/// The live feed.
#[derive(Hash, Eq, PartialEq, Debug, Clone, Copy, Structural)]
pub struct FetchFeed;

impl Location<HoleSet> for FetchFeed {
    open spec fn spec_locate(&self, url: RequestUrlView) -> RequestUrlView {
        url.join("pku_hole"@)
    }

    open spec fn spec_dispatch(
        &self,
        url: RequestUrlView,
        swarm: Option<Swarm>,
        page: usize,
        page_size: usize,
    ) -> Result<RequestUrlView, SwarmError> {
        Ok(paged(url, swarm, page, page_size))
    }

    open spec fn spec_default_swarm(&self) -> Option<Swarm> {
        Some(Swarm::Concurrent { count: 4, page_size: 30 })
    }

    open spec fn spec_paginable(&self) -> bool {
        true
    }

    proof fn lemma_unpaginable_refuses(&self, url: RequestUrlView, swarm: Swarm, page: usize, page_size: usize) {
    }

    fn locate(&self, url: RequestUrl) -> (r: RequestUrl) {
        url.join("pku_hole")
    }

    fn dispatch(&self, url: RequestUrl, swarm: Option<&Swarm>, page: usize, page_size: usize) -> (r:
        Result<RequestUrl, SwarmError>) {
        Ok(append_paging(url, swarm, page, page_size))
    }

    fn default_swarm(&self) -> (r: Option<Swarm>) {
        Some(Swarm::Concurrent { count: 4, page_size: 30 })
    }
}

/// The replies to one hole.
#[derive(Hash, Eq, PartialEq, Debug, Clone, Copy, Structural)]
pub struct FetchReply {
    pub hole_id: HoleID,
}

impl Location<ReplySet> for FetchReply {
    open spec fn spec_locate(&self, url: RequestUrlView) -> RequestUrlView {
        url.join("pku_comment/"@ + decimal(self.hole_id.0 as nat))
    }

    open spec fn spec_dispatch(
        &self,
        url: RequestUrlView,
        swarm: Option<Swarm>,
        page: usize,
        page_size: usize,
    ) -> Result<RequestUrlView, SwarmError> {
        Ok(paged(url, swarm, page, page_size))
    }

    open spec fn spec_default_swarm(&self) -> Option<Swarm> {
        None
    }

    open spec fn spec_paginable(&self) -> bool {
        true
    }

    proof fn lemma_unpaginable_refuses(&self, url: RequestUrlView, swarm: Swarm, page: usize, page_size: usize) {
    }

    fn locate(&self, url: RequestUrl) -> (r: RequestUrl) {
        let mut path = "pku_comment/".to_string();
        let id = self.hole_id.to_decimal();
        path.append(id.as_str());
        url.join(path.as_str())
    }

    fn dispatch(&self, url: RequestUrl, swarm: Option<&Swarm>, page: usize, page_size: usize) -> (r:
        Result<RequestUrl, SwarmError>) {
        Ok(append_paging(url, swarm, page, page_size))
    }

    fn default_swarm(&self) -> (r: Option<Swarm>) {
        None
    }
}

/// The holes that match a keyword.
#[derive(Hash, Eq, PartialEq, Debug, Clone)]
pub struct FetchSearch {
    pub keyword: String,
}

impl Location<HoleSet> for FetchSearch {
    open spec fn spec_locate(&self, url: RequestUrlView) -> RequestUrlView {
        url.pair("action"@, "search"@).pair("keywords"@, self.keyword@)
    }

    /// Page 1 of 50 without a strategy. The backend may default to pages of
    /// 10 and treats sizes over 50 as it sees fit.
    open spec fn spec_dispatch(
        &self,
        url: RequestUrlView,
        swarm: Option<Swarm>,
        page: usize,
        page_size: usize,
    ) -> Result<RequestUrlView, SwarmError> {
        if swarm is None {
            Ok(url.pair("pagesize"@, "50"@).pair("page"@, "1"@))
        } else {
            Ok(url.pair("pagesize"@, decimal(page_size as nat)).pair("page"@, decimal(page as nat)))
        }
    }

    open spec fn spec_default_swarm(&self) -> Option<Swarm> {
        Some(Swarm::Concurrent { count: 3, page_size: 50 })
    }

    open spec fn spec_paginable(&self) -> bool {
        true
    }

    proof fn lemma_unpaginable_refuses(&self, url: RequestUrlView, swarm: Swarm, page: usize, page_size: usize) {
    }

    fn locate(&self, url: RequestUrl) -> (r: RequestUrl) {
        url.append_pair("action", "search").append_pair("keywords", self.keyword.as_str())
    }

    fn dispatch(&self, url: RequestUrl, swarm: Option<&Swarm>, page: usize, page_size: usize) -> (r:
        Result<RequestUrl, SwarmError>) {
        match swarm {
            None => Ok(url.append_pair("pagesize", "50").append_pair("page", "1")),
            Some(_) => {
                let size_text = decimal_string(page_size);
                let page_text = decimal_string(page);
                Ok(url.append_pair("pagesize", size_text.as_str()).append_pair("page", page_text.as_str()))
            },
        }
    }

    fn default_swarm(&self) -> (r: Option<Swarm>) {
        Some(Swarm::Concurrent { count: 3, page_size: 50 })
    }
}

/// A single hole. It is one record, so it cannot be paginated.
#[derive(Hash, Eq, PartialEq, Debug, Clone, Copy, Structural)]
pub struct FetchSingle {
    pub id: HoleID,
}

impl Location<HoleSet> for FetchSingle {
    open spec fn spec_locate(&self, url: RequestUrlView) -> RequestUrlView {
        url.join("pku/"@ + decimal(self.id.0 as nat))
    }

    /// Without a strategy, the URL unchanged; with any strategy, refused.
    open spec fn spec_dispatch(
        &self,
        url: RequestUrlView,
        swarm: Option<Swarm>,
        page: usize,
        page_size: usize,
    ) -> Result<RequestUrlView, SwarmError> {
        if swarm is None {
            Ok(url)
        } else {
            Err(SwarmError::Unsupported)
        }
    }

    open spec fn spec_default_swarm(&self) -> Option<Swarm> {
        None
    }

    open spec fn spec_paginable(&self) -> bool {
        false
    }

    proof fn lemma_unpaginable_refuses(&self, url: RequestUrlView, swarm: Swarm, page: usize, page_size: usize) {
    }

    fn locate(&self, url: RequestUrl) -> (r: RequestUrl) {
        let mut path = "pku/".to_string();
        let id = self.id.to_decimal();
        path.append(id.as_str());
        url.join(path.as_str())
    }

    fn dispatch(&self, url: RequestUrl, swarm: Option<&Swarm>, _page: usize, _page_size: usize) -> (r:
        Result<RequestUrl, SwarmError>)
        ensures
            swarm is None ==> r == Ok::<RequestUrl, SwarmError>(url),
            swarm is Some ==> r == Err::<RequestUrl, SwarmError>(SwarmError::Unsupported),
    {
        if swarm.is_none() {
            Ok(url)
        } else {
            Err(SwarmError::Unsupported)
        }
    }

    fn default_swarm(&self) -> (r: Option<Swarm>) {
        None
    }
}

} // verus!
