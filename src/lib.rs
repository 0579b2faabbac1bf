//! Paginated fetching of deduplicated, mergeable resources from a JSON HTTP backend.
//!
//! The library decides what to fetch and how to combine it: which URL each
//! page lives at, how many workers a concurrent fetch may use, which jobs
//! they receive, and how per-page results are folded into one resource.
//! Performing the requests is left to the caller.

pub mod api;
pub mod fetcher;
pub mod hole;
pub mod location;
pub mod pkuhelper;
pub mod prebuilt;
pub mod records;
pub mod reply;
pub mod request;
pub mod resource;
pub mod swarm;
pub mod tag;
pub mod util;

pub use api::{Endpoint, API, DEFAULT_API_BASE};
pub use fetcher::{Collector, DefaultFetcherClientBuilder, Fetcher, FetcherError, FetcherExecutor, Plan};
pub use hole::{Hole, HoleEntry, HoleID, HoleKind, HoleSet, RawHole, RawHoleID, RawHolePage};
pub use location::Location;
pub use prebuilt::{FetchAttention, FetchFeed, FetchReply, FetchSearch, FetchSingle};
pub use records::{Keyed, RecordSet};
pub use reply::{RawReply, RawReplyID, RawReplyPage, Reply, ReplyEntry, ReplyFlag, ReplyID, ReplySet};
pub use request::{RequestUrl, UrlStep};
pub use resource::{FromPage, MergeResource, MergeResourceError, ParseResourceError, Resource};
pub use swarm::{pool_size, Swarm, SwarmError, MAX_POOL_SIZE};
pub use tag::PeopleTag;
pub use util::{lossy_deserialize_usize, number_to_bool, ExtraDataLayer, OneOrMany};
