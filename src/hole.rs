use vstd::prelude::*;

use crate::records::{
    distinct_keys, first_by_key, keys_of, lemma_first_by_key_distinct, lemma_first_by_key_keys,
    lemma_keys_of_contains, Keyed, RecordSet,
};
use crate::resource::union_keep_left;
use crate::request::{decimal, decimal_string};
use crate::resource::FromPage;
use crate::util::OneOrMany;

verus! {

/// The identifier of a hole as the backend sends it.
#[derive(Debug, Clone, Copy, PartialEq, Eq, Structural)]
pub struct RawHoleID(pub usize);

/// The identifier of a hole.
#[derive(Debug, Clone, Copy, Hash, PartialEq, Eq, PartialOrd, Ord, Structural)]
pub struct HoleID(pub usize);

impl HoleID {
    /// The identifier in decimal notation.
    pub fn to_decimal(&self) -> (r: String)
        ensures
            r@ == decimal(self.0 as nat),
    {
        decimal_string(self.0)
    }
}

impl From<RawHoleID> for HoleID {
    fn from(raw: RawHoleID) -> (r: HoleID) {
        HoleID(raw.0)
    }
}

impl vstd::std_specs::convert::FromSpecImpl<RawHoleID> for HoleID {
    open spec fn obeys_from_spec() -> bool {
        true
    }

    open spec fn from_spec(v: RawHoleID) -> HoleID {
        HoleID(v.0)
    }
}

impl From<usize> for HoleID {
    fn from(id: usize) -> (r: HoleID) {
        HoleID(id)
    }
}

impl vstd::std_specs::convert::FromSpecImpl<usize> for HoleID {
    open spec fn obeys_from_spec() -> bool {
        true
    }

    open spec fn from_spec(v: usize) -> HoleID {
        HoleID(v)
    }
}

impl From<HoleID> for usize {
    fn from(id: HoleID) -> (r: usize) {
        id.0
    }
}

impl vstd::std_specs::convert::FromSpecImpl<HoleID> for usize {
    open spec fn obeys_from_spec() -> bool {
        true
    }

    open spec fn from_spec(v: HoleID) -> usize {
        v.0
    }
}

impl From<HoleID> for String {
    fn from(id: HoleID) -> (r: String) {
        id.to_decimal()
    }
}

impl vstd::std_specs::convert::FromSpecImpl<HoleID> for String {
    open spec fn obeys_from_spec() -> bool {
        false
    }

    open spec fn from_spec(v: HoleID) -> String {
        arbitrary()
    }
}

/// What a hole carries besides its text.
#[derive(Debug, Clone, PartialEq, Eq, Hash)]
pub enum HoleKind {
    Text,
    Image { url: String },
    Audio { url: String },
}

/// A hole as the backend sends it. Times are Unix seconds.
#[derive(Debug, Clone)]
pub struct RawHole {
    pub id: RawHoleID,
    pub text: String,
    pub kind: HoleKind,
    pub timestamp: i64,
    pub reply: usize,
    pub likenum: usize,
    pub tag: Option<String>,
}

/// A post. Two holes are equal when their identifiers are. Times are Unix
/// seconds.
#[derive(Debug, Clone, Eq)]
pub struct Hole {
    pub id: HoleID,
    pub text: String,
    pub kind: HoleKind,
    pub timestamp: i64,
    pub reply: usize,
    pub likenum: usize,
    pub tag: Option<String>,
}

impl PartialEq for Hole {
    fn eq(&self, other: &Hole) -> (r: bool) {
        self.id.0 == other.id.0
    }
}

impl vstd::std_specs::cmp::PartialEqSpecImpl for Hole {
    open spec fn obeys_eq_spec() -> bool {
        true
    }

    open spec fn eq_spec(&self, other: &Hole) -> bool {
        self.id == other.id
    }
}

/// The hole that a raw hole describes.
pub open spec fn hole_of(raw: RawHole) -> Hole {
    Hole {
        id: HoleID(raw.id.0),
        text: raw.text,
        kind: raw.kind,
        timestamp: raw.timestamp,
        reply: raw.reply,
        likenum: raw.likenum,
        tag: raw.tag,
    }
}

impl From<RawHole> for Hole {
    fn from(raw: RawHole) -> (r: Hole) {
        let RawHole { id, text, kind, timestamp, reply, likenum, tag } = raw;
        Hole { id: HoleID::from(id), text, kind, timestamp, reply, likenum, tag }
    }
}

impl vstd::std_specs::convert::FromSpecImpl<RawHole> for Hole {
    open spec fn obeys_from_spec() -> bool {
        true
    }

    open spec fn from_spec(v: RawHole) -> Hole {
        hole_of(v)
    }
}

/// A hole as it was seen at `snapshot` (Unix seconds).
#[derive(Debug, Clone, PartialEq, Eq)]
pub struct HoleEntry {
    pub entry: Hole,
    pub snapshot: i64,
}

impl Keyed for HoleEntry {
    open spec fn spec_key(&self) -> usize {
        self.entry.id.0
    }

    fn key(&self) -> (r: usize) {
        self.entry.id.0
    }
}

/// One page of holes as the backend sends it.
#[derive(Debug, Clone)]
pub struct RawHolePage {
    pub code: i32,
    pub count: Option<i32>,
    pub data: OneOrMany<RawHole>,
    /// When the page was produced (Unix seconds), if the backend says.
    pub timestamp: Option<i64>,
}

impl RawHolePage {
    /// When the page's holes were seen: the page's own time if it has one,
    /// else `now`.
    pub open spec fn spec_snapshot(self, now: i64) -> i64 {
        match self.timestamp {
            Some(t) => t,
            None => now,
        }
    }

    /// The page's holes as entries, in the page's order.
    pub open spec fn spec_entries(self, now: i64) -> Seq<HoleEntry> {
        self.data.spec_values().map_values(
            |raw: RawHole| HoleEntry { entry: hole_of(raw), snapshot: self.spec_snapshot(now) },
        )
    }

    /// The page's holes as entries, in the page's order; `now` (Unix seconds)
    /// stamps them where the page carries no time of its own.
    pub fn into_entries(self, now: i64) -> (r: Vec<HoleEntry>)
        ensures
            r@ == self.spec_entries(now),
    {
        let ghost page = self;
        let snapshot = match self.timestamp {
            Some(t) => t,
            None => now,
        };
        let raws = self.data.into_vec();
        let ghost all = raws@;
        let mut out: Vec<HoleEntry> = Vec::new();
        for raw in it: raws.into_iter()
            invariant
                it.seq() == all,
                snapshot == page.spec_snapshot(now),
                out@ == all.take(it.index()).map_values(
                    |raw: RawHole| HoleEntry { entry: hole_of(raw), snapshot },
                ),
        {
            let entry = Hole::from(raw);
            out.push(HoleEntry { entry, snapshot });
            assert(all.take(it.index() + 1) == all.take(it.index()).push(raw));
            assert(out@ =~= all.take(it.index() + 1).map_values(
                |raw: RawHole| HoleEntry { entry: hole_of(raw), snapshot },
            ));
        }
        assert(all.take(all.len() as int) == all);
        assert(out@ =~= page.spec_entries(now));
        out
    }
}

/// A deduplicated set of holes.
pub type HoleSet = RecordSet<HoleEntry>;

impl FromPage for RecordSet<HoleEntry> {
    type Page = RawHolePage;

    open spec fn spec_from_page(page: RawHolePage, now: i64) -> Map<usize, HoleEntry> {
        first_by_key(page.spec_entries(now))
    }

    fn from_page(page: RawHolePage, now: i64) -> (r: Self) {
        RecordSet::from_entries(page.into_entries(now))
    }
}

/// A page of N holes with distinct identifiers reads as exactly those N
/// holes. Reading the same page again, at any other time, gives the same
/// identifiers, and merging the two reads keeps exactly those.
pub proof fn lemma_page_reads(page: RawHolePage, now: i64, later: i64)
    requires
        forall|i: int, j: int|
            0 <= i < page.data.spec_values().len() && 0 <= j < page.data.spec_values().len() && i != j
                ==> #[trigger] page.data.spec_values()[i].id != #[trigger] page.data.spec_values()[j].id,
    ensures
        HoleSet::spec_from_page(page, now).len() == page.data.spec_values().len(),
        forall|k: usize|
            HoleSet::spec_from_page(page, now).contains_key(k) <==> exists|i: int|
                0 <= i < page.data.spec_values().len() && #[trigger] page.data.spec_values()[i].id.0 == k,
        HoleSet::spec_from_page(page, later).dom() == HoleSet::spec_from_page(page, now).dom(),
        union_keep_left(HoleSet::spec_from_page(page, now), HoleSet::spec_from_page(page, later)).dom()
            == HoleSet::spec_from_page(page, now).dom(),
{
    let raws = page.data.spec_values();
    let first = page.spec_entries(now);
    let second = page.spec_entries(later);
    assert(distinct_keys(first)) by {
        assert forall|i: int, j: int|
            0 <= i < first.len() && 0 <= j < first.len() && i != j implies #[trigger] first[i].spec_key()
            != #[trigger] first[j].spec_key() by {
            assert(raws[i].id != raws[j].id);
        }
    }
    lemma_first_by_key_distinct(first);
    lemma_first_by_key_keys(second);
    assert forall|k: usize| keys_of(first).contains(k) <==> exists|i: int|
        0 <= i < raws.len() && #[trigger] raws[i].id.0 == k by {
        lemma_keys_of_contains(first, k);
        if exists|i: int| 0 <= i < raws.len() && #[trigger] raws[i].id.0 == k {
            let i = choose|i: int| 0 <= i < raws.len() && #[trigger] raws[i].id.0 == k;
            assert(first[i].spec_key() == k);
        }
    }
    assert forall|k: usize| keys_of(second).contains(k) <==> keys_of(first).contains(k) by {
        lemma_keys_of_contains(first, k);
        lemma_keys_of_contains(second, k);
        if exists|i: int| 0 <= i < first.len() && #[trigger] first[i].spec_key() == k {
            let i = choose|i: int| 0 <= i < first.len() && #[trigger] first[i].spec_key() == k;
            assert(second[i].spec_key() == k);
        }
        if exists|i: int| 0 <= i < second.len() && #[trigger] second[i].spec_key() == k {
            let i = choose|i: int| 0 <= i < second.len() && #[trigger] second[i].spec_key() == k;
            assert(first[i].spec_key() == k);
        }
    }
    assert(keys_of(second) =~= keys_of(first));
    assert(union_keep_left(first_by_key(first), first_by_key(second)).dom() =~= keys_of(first));
}

} // verus!
