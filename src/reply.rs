use vstd::prelude::*;

use crate::hole::{HoleID, RawHoleID};
use crate::records::{first_by_key, Keyed, RecordSet};
use crate::request::{decimal, decimal_string};
use crate::resource::FromPage;

verus! {

/// The identifier of a reply as the backend sends it.
#[derive(Debug, Clone, Copy, PartialEq, Eq, Structural)]
pub struct RawReplyID(pub usize);

/// The identifier of a reply.
#[derive(Debug, Clone, Copy, Hash, PartialEq, Eq, PartialOrd, Ord, Structural)]
pub struct ReplyID(pub usize);

impl ReplyID {
    /// The identifier in decimal notation.
    pub fn to_decimal(&self) -> (r: String)
        ensures
            r@ == decimal(self.0 as nat),
    {
        decimal_string(self.0)
    }
}

impl From<usize> for ReplyID {
    fn from(id: usize) -> (r: ReplyID) {
        ReplyID(id)
    }
}

impl vstd::std_specs::convert::FromSpecImpl<usize> for ReplyID {
    open spec fn obeys_from_spec() -> bool {
        true
    }

    open spec fn from_spec(v: usize) -> ReplyID {
        ReplyID(v)
    }
}

impl From<RawReplyID> for ReplyID {
    fn from(raw: RawReplyID) -> (r: ReplyID) {
        ReplyID(raw.0)
    }
}

impl vstd::std_specs::convert::FromSpecImpl<RawReplyID> for ReplyID {
    open spec fn obeys_from_spec() -> bool {
        true
    }

    open spec fn from_spec(v: RawReplyID) -> ReplyID {
        ReplyID(v.0)
    }
}

impl From<ReplyID> for usize {
    fn from(id: ReplyID) -> (r: usize) {
        id.0
    }
}

impl vstd::std_specs::convert::FromSpecImpl<ReplyID> for usize {
    open spec fn obeys_from_spec() -> bool {
        true
    }

    open spec fn from_spec(v: ReplyID) -> usize {
        v.0
    }
}

impl From<ReplyID> for String {
    fn from(id: ReplyID) -> (r: String) {
        id.to_decimal()
    }
}

impl vstd::std_specs::convert::FromSpecImpl<ReplyID> for String {
    open spec fn obeys_from_spec() -> bool {
        false
    }

    open spec fn from_spec(v: ReplyID) -> String {
        arbitrary()
    }
}

/// A reply as the backend sends it, its text already stripped of the
/// leading `[name] ` tag. Times are Unix seconds.
#[derive(Debug, Clone)]
pub struct RawReply {
    pub id: RawReplyID,
    pub hole: RawHoleID,
    pub name: String,
    pub text: String,
    pub dz: bool,
    pub timestamp: i64,
    pub tag: Option<String>,
}

/// A reply to a hole. Two replies are equal when their identifiers are.
/// Times are Unix seconds.
#[derive(Debug, Clone, Eq)]
pub struct Reply {
    pub id: ReplyID,
    pub hole: HoleID,
    pub name: String,
    pub text: String,
    pub dz: bool,
    pub timestamp: i64,
    pub tag: Option<String>,
}

impl PartialEq for Reply {
    fn eq(&self, other: &Reply) -> (r: bool) {
        self.id.0 == other.id.0
    }
}

impl vstd::std_specs::cmp::PartialEqSpecImpl for Reply {
    open spec fn obeys_eq_spec() -> bool {
        true
    }

    open spec fn eq_spec(&self, other: &Reply) -> bool {
        self.id == other.id
    }
}

/// The reply that a raw reply describes.
pub open spec fn reply_of(raw: RawReply) -> Reply {
    Reply {
        id: ReplyID(raw.id.0),
        hole: HoleID(raw.hole.0),
        name: raw.name,
        text: raw.text,
        dz: raw.dz,
        timestamp: raw.timestamp,
        tag: raw.tag,
    }
}

impl From<RawReply> for Reply {
    fn from(raw: RawReply) -> (r: Reply) {
        let RawReply { id, hole, name, text, dz, timestamp, tag } = raw;
        Reply { id: ReplyID::from(id), hole: HoleID::from(hole), name, text, dz, timestamp, tag }
    }
}

impl vstd::std_specs::convert::FromSpecImpl<RawReply> for Reply {
    open spec fn obeys_from_spec() -> bool {
        true
    }

    open spec fn from_spec(v: RawReply) -> Reply {
        reply_of(v)
    }
}

/// Whether the user follows the hole that a page of replies belongs to.
#[derive(Clone, Copy, Debug, Default, PartialEq, Eq, Structural)]
pub struct ReplyFlag(pub bool);

/// One page of replies as the backend sends it.
#[derive(Debug, Clone)]
pub struct RawReplyPage {
    pub code: usize,
    pub data: Vec<RawReply>,
    pub attention: bool,
}

/// A reply as it was seen at `snapshot` (Unix seconds).
#[derive(Debug, Clone, PartialEq, Eq)]
pub struct ReplyEntry {
    pub entry: Reply,
    pub snapshot: i64,
}

impl Keyed for ReplyEntry {
    open spec fn spec_key(&self) -> usize {
        self.entry.id.0
    }

    fn key(&self) -> (r: usize) {
        self.entry.id.0
    }
}

impl RawReplyPage {
    /// The page's replies as entries seen at `now`, in the page's order.
    pub open spec fn spec_entries(self, now: i64) -> Seq<ReplyEntry> {
        self.data@.map_values(|raw: RawReply| ReplyEntry { entry: reply_of(raw), snapshot: now })
    }

    /// The page's replies as entries seen at `now` (Unix seconds), in the
    /// page's order.
    pub fn into_entries(self, now: i64) -> (r: Vec<ReplyEntry>)
        ensures
            r@ == self.spec_entries(now),
    {
        let ghost page = self;
        let raws = self.data;
        let ghost all = raws@;
        let mut out: Vec<ReplyEntry> = Vec::new();
        for raw in it: raws.into_iter()
            invariant
                it.seq() == all,
                all == page.data@,
                out@ == all.take(it.index()).map_values(
                    |raw: RawReply| ReplyEntry { entry: reply_of(raw), snapshot: now },
                ),
        {
            let entry = Reply::from(raw);
            out.push(ReplyEntry { entry, snapshot: now });
            assert(all.take(it.index() + 1) == all.take(it.index()).push(raw));
            assert(out@ =~= all.take(it.index() + 1).map_values(
                |raw: RawReply| ReplyEntry { entry: reply_of(raw), snapshot: now },
            ));
        }
        assert(all.take(all.len() as int) == all);
        assert(out@ =~= page.spec_entries(now));
        out
    }
}

/// A deduplicated set of replies.
pub type ReplySet = RecordSet<ReplyEntry>;

impl FromPage for RecordSet<ReplyEntry> {
    type Page = RawReplyPage;

    open spec fn spec_from_page(page: RawReplyPage, now: i64) -> Map<usize, ReplyEntry> {
        first_by_key(page.spec_entries(now))
    }

    fn from_page(page: RawReplyPage, now: i64) -> (r: Self) {
        RecordSet::from_entries(page.into_entries(now))
    }
}

} // verus!
