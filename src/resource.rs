use vstd::prelude::*;
use vstd::std_specs::cmp::OrdSpec;
use vstd::std_specs::iter::IteratorSpec;

verus! {

/// A resource could not be read from a response.
#[derive(Debug, Clone, Copy, PartialEq, Eq, Structural)]
pub struct ParseResourceError;

/// Two resources could not be merged.
#[derive(Debug, Clone, Copy, PartialEq, Eq, Structural)]
pub struct MergeResourceError;

/// A resource whose instances merge into one.
pub trait MergeResource: Sized + View {
    /// What merging `lhs` with `rhs` holds.
    spec fn spec_merge(lhs: Self::V, rhs: Self::V) -> Self::V;

    /// Whether `lhs` and `rhs` are of compatible kinds.
    spec fn spec_mergeable(lhs: Self::V, rhs: Self::V) -> bool;

    /// Merges two resources; fails exactly when they are not of compatible kinds.
    fn merge(lhs: Self, rhs: Self) -> (r: Result<Self, MergeResourceError>)
        ensures
            r is Ok <==> Self::spec_mergeable(lhs@, rhs@),
            r matches Ok(m) ==> m@ == Self::spec_merge(lhs@, rhs@),
    ;
}

/// An accumulating, deduplicated collection of records.
///
/// Merging is associative, has the blank resource as its identity, and is
/// idempotent; each implementation proves so.
pub trait Resource: MergeResource {
    /// The resource that holds nothing.
    spec fn spec_blank() -> Self::V;

    /// Returns the resource that holds nothing.
    fn blank() -> (r: Self)
        ensures
            r@ == Self::spec_blank(),
    ;

    /// Merging is associative, the blank resource is its identity on both
    /// sides, and merging a resource with itself gives it back.
    proof fn lemma_merge_laws(a: Self::V, b: Self::V, c: Self::V)
        ensures
            Self::spec_merge(a, Self::spec_merge(b, c)) == Self::spec_merge(
                Self::spec_merge(a, b),
                c,
            ),
            Self::spec_merge(a, Self::spec_blank()) == a,
            Self::spec_merge(Self::spec_blank(), a) == a,
            Self::spec_merge(a, a) == a,
    ;
}

/// A resource that can be read from one decoded page of a response.
pub trait FromPage: Resource {
    /// One decoded page.
    type Page;

    /// What reading `page` at time `now` (Unix seconds) yields.
    spec fn spec_from_page(page: Self::Page, now: i64) -> Self::V;

    /// Reads the resource from one page; `now` (Unix seconds) stamps records
    /// whose page carries no time of its own.
    fn from_page(page: Self::Page, now: i64) -> (r: Self)
        ensures
            r@ == Self::spec_from_page(page, now),
    ;
}

/// The union of two record maps in which `lhs` wins on a shared key: a
/// record that arrives later under a key already present is dropped.
pub open spec fn union_keep_left<K, E>(lhs: Map<K, E>, rhs: Map<K, E>) -> Map<K, E> {
    rhs.union_prefer_right(lhs)
}

/// The union is associative, has the empty map as identity on both sides,
/// and is idempotent.
pub proof fn lemma_union_keep_left_laws<K, E>(a: Map<K, E>, b: Map<K, E>, c: Map<K, E>)
    ensures
        union_keep_left(a, union_keep_left(b, c)) == union_keep_left(union_keep_left(a, b), c),
        union_keep_left(a, Map::empty()) == a,
        union_keep_left(Map::empty(), a) == a,
        union_keep_left(a, a) == a,
{
    assert(union_keep_left(a, union_keep_left(b, c)) =~= union_keep_left(union_keep_left(a, b), c));
    assert(union_keep_left(a, Map::empty()) =~= a);
    assert(union_keep_left(Map::empty(), a) =~= a);
    assert(union_keep_left(a, a) =~= a);
}

/// The keys of `m`, each once, in increasing order.
pub(crate) fn sorted_keys<E>(m: &std::collections::BTreeMap<usize, E>) -> (keys: Vec<usize>)
    ensures
        keys@.to_set() == m@.dom(),
        keys@.no_duplicates(),
        forall|i: int, j: int| 0 <= i < j < keys.len() ==> keys[i] < keys[j],
{
    let ghost listed = vstd::std_specs::btree::spec_keys_iter(m).remaining();
    let mut keys: Vec<usize> = Vec::new();
    for k in it: m.keys()
        invariant
            it.seq() == listed,
            keys@ == it.seq().take(it.index()).unref(),
    {
        keys.push(*k);
        assert(it.seq().take(it.index() + 1) == it.seq().take(it.index()).push(k));
        assert(keys@ =~= it.seq().take(it.index() + 1).unref());
    }
    assert(listed.take(listed.len() as int) == listed);
    assert(keys@ == listed.unref());
    assert(listed.unref().to_set() == m@.dom());
    assert(keys@.no_duplicates()) by {
        assert forall|a: int, b: int| 0 <= a < keys@.len() && 0 <= b < keys@.len() && a != b
            implies keys@[a] != keys@[b] by {
            assert(listed[a] != listed[b]);
        }
    }
    proof {
        broadcast use vstd::laws_cmp::group_laws_cmp;

        vstd::std_specs::btree::axiom_spec_keys_iter(m);
        vstd::std_specs::btree::axiom_increasing_seq_meaning::<&usize>(listed);
    }
    assert forall|i: int, j: int| 0 <= i < j < keys.len() implies keys[i] < keys[j] by {
        assert(OrdSpec::cmp_spec(&listed[i], &listed[j]) is Less);
    }
    keys
}

/// Moves every record of `rest` into `acc` whose key `acc` lacks.
pub(crate) fn absorb<E>(
    acc: &mut std::collections::BTreeMap<usize, E>,
    rest: std::collections::BTreeMap<usize, E>,
)
    ensures
        final(acc)@ == union_keep_left(old(acc)@, rest@),
{
    let mut rest = rest;
    let ghost rest0 = rest@;
    let ghost acc0 = acc@;
    let keys = sorted_keys(&rest);
    let mut i: usize = 0;
    while i < keys.len()
        invariant
            i <= keys.len(),
            keys@.no_duplicates(),
            keys@.to_set() == rest0.dom(),
            rest@ == rest0.remove_keys(keys@.take(i as int).to_set()),
            acc@ == union_keep_left(acc0, rest0.restrict(keys@.take(i as int).to_set())),
        decreases keys.len() - i,
    {
        let k = keys[i];
        let ghost done = keys@.take(i as int).to_set();
        assert(keys@.take(i as int + 1) == keys@.take(i as int).push(k));
        assert(!done.contains(k));
        assert(rest0.dom().contains(k));
        let ghost next = keys@.take(i as int + 1).to_set();
        assert(next == done.insert(k)) by {
            keys@.take(i as int).lemma_push_to_set_commute(k);
        }
        assert(rest@.contains_key(k));
        let removed = rest.remove(&k);
        if let Some(v) = removed {
            if !acc.contains_key(&k) {
                acc.insert(k, v);
            }
        }
        i = i + 1;
        assert(rest@ =~= rest0.remove_keys(next));
        assert(acc@ =~= union_keep_left(acc0, rest0.restrict(next)));
    }
    assert(keys@.take(keys.len() as int) == keys@);
    assert(rest0.restrict(keys@.to_set()) =~= rest0);
}

} // verus!
