use vstd::prelude::*;
use vstd::std_specs::iter::IteratorSpec;
use std::collections::BTreeMap;

use crate::resource::{absorb, lemma_union_keep_left_laws, sorted_keys, union_keep_left, MergeResource, MergeResourceError, Resource};

verus! {

/// A record that carries a stable identifier.
pub trait Keyed: Sized {
    spec fn spec_key(&self) -> usize;

    /// The record's identifier.
    fn key(&self) -> (r: usize)
        ensures
            r == self.spec_key(),
    ;
}

/// The records of `s` by identifier; where several share one, the first is kept.
pub open spec fn first_by_key<E: Keyed>(s: Seq<E>) -> Map<usize, E>
    decreases s.len(),
{
    if s.len() == 0 {
        Map::empty()
    } else {
        union_keep_left(first_by_key(s.drop_last()), map![s.last().spec_key() => s.last()])
    }
}

/// The identifiers of the records of `s`.
pub open spec fn keys_of<E: Keyed>(s: Seq<E>) -> Set<usize>
    decreases s.len(),
{
    if s.len() == 0 {
        Set::empty()
    } else {
        keys_of(s.drop_last()).insert(s.last().spec_key())
    }
}

/// Whether the records of `s` have pairwise distinct identifiers.
pub open spec fn distinct_keys<E: Keyed>(s: Seq<E>) -> bool {
    forall|i: int, j: int|
        0 <= i < s.len() && 0 <= j < s.len() && i != j ==> #[trigger] s[i].spec_key() != #[trigger] s[j].spec_key()
}

/// Keeping the first record of each identifier keeps every identifier, and
/// no other; the identifiers are finitely many.
pub proof fn lemma_first_by_key_keys<E: Keyed>(s: Seq<E>)
    ensures
        first_by_key(s).dom() == keys_of(s),
        keys_of(s).finite(),
        keys_of(s).len() <= s.len(),
    decreases s.len(),
{
    if s.len() > 0 {
        lemma_first_by_key_keys(s.drop_last());
        assert(first_by_key(s).dom() =~= keys_of(s));
    } else {
        assert(first_by_key(s).dom() =~= keys_of(s));
    }
}

/// Records with distinct identifiers are all kept: as many records come out
/// as went in.
pub proof fn lemma_first_by_key_distinct<E: Keyed>(s: Seq<E>)
    requires
        distinct_keys(s),
    ensures
        first_by_key(s).dom() == keys_of(s),
        first_by_key(s).len() == s.len(),
    decreases s.len(),
{
    lemma_first_by_key_keys(s);
    if s.len() > 0 {
        let init = s.drop_last();
        assert(distinct_keys(init)) by {
            assert forall|i: int, j: int|
                0 <= i < init.len() && 0 <= j < init.len() && i != j implies #[trigger] init[i].spec_key()
                != #[trigger] init[j].spec_key() by {
                assert(init[i] == s[i] && init[j] == s[j]);
            }
        }
        lemma_first_by_key_distinct(init);
        lemma_keys_of_contains(init, s.last().spec_key());
        if keys_of(init).contains(s.last().spec_key()) {
            let i = choose|i: int| 0 <= i < init.len() && init[i].spec_key() == s.last().spec_key();
            assert(s[i].spec_key() == s[s.len() - 1].spec_key());
        }
        lemma_first_by_key_keys(init);
    }
}

/// An identifier is among the keys of `s` exactly when some record of `s`
/// carries it.
pub proof fn lemma_keys_of_contains<E: Keyed>(s: Seq<E>, k: usize)
    ensures
        keys_of(s).contains(k) <==> exists|i: int| 0 <= i < s.len() && #[trigger] s[i].spec_key() == k,
    decreases s.len(),
{
    if s.len() > 0 {
        lemma_keys_of_contains(s.drop_last(), k);
        if exists|i: int| 0 <= i < s.drop_last().len() && #[trigger] s.drop_last()[i].spec_key() == k {
            let i = choose|i: int| 0 <= i < s.drop_last().len() && #[trigger] s.drop_last()[i].spec_key() == k;
            assert(s[i].spec_key() == k);
        }
        if exists|i: int| 0 <= i < s.len() && #[trigger] s[i].spec_key() == k {
            let i = choose|i: int| 0 <= i < s.len() && #[trigger] s[i].spec_key() == k;
            if i < s.len() - 1 {
                assert(s.drop_last()[i].spec_key() == k);
            }
        }
    }
}

/// Whether every record of `m` is filed under its own identifier.
pub open spec fn keyed_consistently<E: Keyed>(m: Map<usize, E>) -> bool {
    forall|k: usize| #[trigger] m.contains_key(k) ==> m[k].spec_key() == k
}

/// A deduplicated set of records, keyed by their identifiers.
///
/// Its view maps each identifier to the record filed under it.
pub struct RecordSet<E: Keyed> {
    entries: BTreeMap<usize, E>,
}

impl<E: Keyed> View for RecordSet<E> {
    type V = Map<usize, E>;

    closed spec fn view(&self) -> Map<usize, E> {
        self.entries@
    }
}

impl<E: Keyed> RecordSet<E> {
    #[verifier::type_invariant]
    closed spec fn inv(self) -> bool {
        keyed_consistently(self.entries@)
    }

    /// The set of the given records; of records that share an identifier the
    /// first is kept.
    pub fn from_entries(entries: Vec<E>) -> (r: RecordSet<E>)
        ensures
            r@ == first_by_key(entries@),
    {
        let ghost all = entries@;
        let mut rest = entries;
        let mut acc: BTreeMap<usize, E> = BTreeMap::new();
        while rest.len() > 0
            invariant
                first_by_key(all) == union_keep_left(first_by_key(rest@), acc@),
                keyed_consistently(acc@),
            decreases rest.len(),
        {
            let ghost before = rest@;
            let ghost acc_before = acc@;
            let e = rest.pop().unwrap();
            let k = e.key();
            proof {
                let single = map![k => e];
                assert(before.drop_last() == rest@);
                lemma_union_keep_left_laws(first_by_key(rest@), single, acc_before);
                assert(union_keep_left(single, acc_before) =~= acc_before.insert(k, e));
            }
            acc.insert(k, e);
        }
        assert(union_keep_left(Map::<usize, E>::empty(), acc@) =~= acc@);
        RecordSet { entries: acc }
    }
}

impl<E: Keyed> RecordSet<E> {
    /// The number of records.
    pub fn len(&self) -> (r: usize)
        ensures
            r == self@.len(),
    {
        self.entries.len()
    }

    /// Whether the set holds no record.
    pub fn is_empty(&self) -> (r: bool)
        ensures
            r == (self@.len() == 0),
    {
        self.entries.is_empty()
    }

    /// Whether a record with identifier `key` is in the set.
    pub fn contains_key(&self, key: usize) -> (r: bool)
        ensures
            r == self@.contains_key(key),
    {
        self.entries.contains_key(&key)
    }

    /// The record filed under `key`, if any.
    pub fn get(&self, key: usize) -> (r: Option<&E>)
        ensures
            r matches Some(e) ==> self@.contains_key(key) && *e == self@[key],
            r is None ==> !self@.contains_key(key),
    {
        self.entries.get(&key)
    }

    /// The records of the set, by increasing identifier.
    pub fn into_entries(self) -> (r: Vec<E>)
        ensures
            r.len() == self@.len(),
            forall|i: int| 0 <= i < r.len() ==> self@.contains_key(#[trigger] r[i].spec_key())
                && self@[r[i].spec_key()] == r[i],
            forall|i: int, j: int| 0 <= i < j < r.len() ==> r[i].spec_key() < r[j].spec_key(),
    {
        proof {
            use_type_invariant(&self);
        }
        let ghost all = self@;
        let RecordSet { entries: mut rest } = self;
        let keys = sorted_keys(&rest);
        proof {
            keys@.unique_seq_to_set();
        }
        let mut out: Vec<E> = Vec::new();
        let mut i: usize = 0;
        while i < keys.len()
            invariant
                i <= keys.len(),
                keys@.no_duplicates(),
                keys@.to_set() == all.dom(),
                keys@.len() == all.len(),
                forall|a: int, b: int| 0 <= a < b < keys.len() ==> keys[a] < keys[b],
                keyed_consistently(all),
                rest@ == all.remove_keys(keys@.take(i as int).to_set()),
                out.len() == i,
                forall|a: int| 0 <= a < i ==> #[trigger] out[a] == all[keys[a]],
            decreases keys.len() - i,
        {
            let k = keys[i];
            let ghost done = keys@.take(i as int).to_set();
            let ghost next = keys@.take(i as int + 1).to_set();
            proof {
                assert(keys@.take(i as int + 1) == keys@.take(i as int).push(k));
                keys@.take(i as int).lemma_push_to_set_commute(k);
                assert(!done.contains(k));
                assert(keys@.contains(k));
                assert(all.dom().contains(k));
            }
            let removed = rest.remove(&k);
            match removed {
                Some(e) => {
                    out.push(e);
                },
                None => {
                    assert(false);
                },
            }
            i = i + 1;
            assert(rest@ =~= all.remove_keys(next));
        }
        proof {
            assert forall|a: int| 0 <= a < out.len() implies all.contains_key(#[trigger] out[a].spec_key())
                && all[out[a].spec_key()] == out[a] by {
                assert(keys@.contains(keys[a]));
            }
        }
        out
    }
}

impl<E: Keyed> MergeResource for RecordSet<E> {
    open spec fn spec_merge(lhs: Map<usize, E>, rhs: Map<usize, E>) -> Map<usize, E> {
        union_keep_left(lhs, rhs)
    }

    open spec fn spec_mergeable(lhs: Map<usize, E>, rhs: Map<usize, E>) -> bool {
        true
    }

    fn merge(lhs: Self, rhs: Self) -> (r: Result<Self, MergeResourceError>) {
        proof {
            use_type_invariant(&lhs);
            use_type_invariant(&rhs);
        }
        let RecordSet { entries: mut acc } = lhs;
        let RecordSet { entries: rest } = rhs;
        absorb(&mut acc, rest);
        Ok(RecordSet { entries: acc })
    }
}

impl<E: Keyed> Resource for RecordSet<E> {
    open spec fn spec_blank() -> Map<usize, E> {
        Map::empty()
    }

    fn blank() -> (r: Self) {
        RecordSet { entries: BTreeMap::new() }
    }

    proof fn lemma_merge_laws(a: Map<usize, E>, b: Map<usize, E>, c: Map<usize, E>) {
        lemma_union_keep_left_laws(a, b, c);
    }
}

} // verus!
