//! Maps from tmux ids, walked in the order of the ids.

use std::collections::BTreeMap;

use vstd::prelude::*;
use vstd::std_specs::btree::increasing_seq;
use vstd::std_specs::cmp::OrdSpec;
use vstd::std_specs::iter::IteratorSpec;

verus! {

/// Whether `s` is strictly ascending.
pub open spec fn is_ascending(s: Seq<u64>) -> bool {
    forall|i: int, j: int| 0 <= i < j < s.len() ==> s[i] < s[j]
}

/// The greatest id of a set.
#[verifier::opaque]
pub open spec fn greatest(s: Set<u64>) -> u64 {
    choose|m: u64| s.contains(m) && forall|x: u64| s.contains(x) ==> x <= m
}

/// The ids of a finite set, in ascending order.
pub open spec fn ascending(s: Set<u64>) -> Seq<u64>
    decreases s.len(),
{
    if s.finite() && s.len() > 0 && s.contains(greatest(s)) {
        ascending(s.remove(greatest(s))).push(greatest(s))
    } else {
        Seq::empty()
    }
}

proof fn lemma_greatest(s: Set<u64>)
    requires
        s.finite(),
        s.len() > 0,
    ensures
        s.contains(greatest(s)),
        forall|x: u64| s.contains(x) ==> x <= greatest(s),
    decreases s.len(),
{
    reveal(greatest);
    let a = s.choose();
    assert(s.contains(a)) by {
        vstd::set::axiom_set_choose_len(s);
    }
    let rest = s.remove(a);
    let m = if rest.len() == 0 {
        a
    } else {
        lemma_greatest(rest);
        if a < greatest(rest) {
            greatest(rest)
        } else {
            a
        }
    };
    assert forall|x: u64| s.contains(x) implies x <= m by {
        if x != a {
            assert(rest.contains(x));
            if rest.len() == 0 {
                assert(rest == Set::<u64>::empty());
            }
        }
    }
    assert(s.contains(m));
}

/// The listing of a finite set is ascending and holds exactly the set's elements.
pub proof fn lemma_ascending(s: Set<u64>)
    requires
        s.finite(),
    ensures
        is_ascending(ascending(s)),
        ascending(s).to_set() == s,
        ascending(s).no_duplicates(),
    decreases s.len(),
{
    if s.len() == 0 {
        assert(s == Set::<u64>::empty());
        assert(ascending(s).to_set() == Set::<u64>::empty());
    } else {
        lemma_greatest(s);
        let m = greatest(s);
        let rest = s.remove(m);
        lemma_ascending(rest);
        let q = ascending(rest);
        assert forall|i: int| 0 <= i < q.len() implies q[i] < m by {
            assert(q.to_set().contains(q[i]));
        }
        assert(ascending(s) == q.push(m));
        q.lemma_push_to_set_commute(m);
        assert(rest.insert(m) == s);
    }
}

/// An ascending sequence is the listing of its elements.
pub proof fn lemma_ascending_is(q: Seq<u64>)
    requires
        is_ascending(q),
    ensures
        q == ascending(q.to_set()),
    decreases q.len(),
{
    let s = q.to_set();
    vstd::seq_lib::seq_to_set_is_finite(q);
    if q.len() == 0 {
        assert(s == Set::<u64>::empty());
        assert(s.len() == 0);
    } else {
        let m = q.last();
        let front = q.drop_last();
        assert(q == front.push(m));
        front.lemma_push_to_set_commute(m);
        assert forall|x: u64| front.to_set().contains(x) implies x < m by {
            let i = choose|i: int| 0 <= i < front.len() && front[i] == x;
            assert(q[i] < q[q.len() - 1]);
        }
        assert(s.contains(m));
        assert(s.len() > 0);
        assert(greatest(s) == m) by {
            lemma_greatest(s);
        }
        assert(s.remove(m) == front.to_set());
        lemma_ascending_is(front);
    }
}

/// A map from ids.
#[derive(Debug)]
pub struct IdMap<V> {
    map: BTreeMap<u64, V>,
}

impl<V> View for IdMap<V> {
    type V = Map<u64, V>;

    closed spec fn view(&self) -> Map<u64, V> {
        self.map@
    }
}

impl<V> IdMap<V> {
    /// A map without entries.
    pub fn new() -> (m: Self)
        ensures
            m@ == Map::<u64, V>::empty(),
    {
        Self { map: BTreeMap::new() }
    }

    /// Whether there is an entry for `id`.
    pub fn contains(&self, id: u64) -> (r: bool)
        ensures
            r == self@.dom().contains(id),
    {
        broadcast use vstd::std_specs::btree::group_btree_axioms;

        self.map.contains_key(&id)
    }

    /// The entry for `id`.
    pub fn get(&self, id: u64) -> (r: Option<&V>)
        ensures
            match r {
                Some(v) => self@.dom().contains(id) && self@[id] == *v,
                None => !self@.dom().contains(id),
            },
    {
        broadcast use vstd::std_specs::btree::group_btree_axioms;

        self.map.get(&id)
    }

    /// Sets the entry for `id`.
    pub fn insert(&mut self, id: u64, v: V)
        ensures
            final(self)@ == old(self)@.insert(id, v),
    {
        broadcast use vstd::std_specs::btree::group_btree_axioms;

        self.map.insert(id, v);
    }

    /// Takes the entry for `id` out.
    pub fn remove(&mut self, id: u64) -> (r: Option<V>)
        ensures
            final(self)@ == old(self)@.remove(id),
            match r {
                Some(v) => old(self)@.dom().contains(id) && old(self)@[id] == v,
                None => !old(self)@.dom().contains(id),
            },
    {
        broadcast use vstd::std_specs::btree::group_btree_axioms;

        self.map.remove(&id)
    }

    /// The ids that have entries, in ascending order.
    pub fn ids(&self) -> (ids: Vec<u64>)
        ensures
            ids@ == ascending(self@.dom()),
            ids@.to_set() == self@.dom(),
            ids@.no_duplicates(),
    {
        broadcast use vstd::std_specs::btree::group_btree_axioms;

        let entries = self.map.iter();
        let ghost all = entries.remaining();
        let ghost keys = all.map_values(|kv: (&u64, &V)| *kv.0);
        let mut ids: Vec<u64> = Vec::new();
        for entry in it: entries
            invariant
                it.seq() == all,
                ids@ == keys.take(it.index()),
                keys == all.map_values(|kv: (&u64, &V)| *kv.0),
        {
            ids.push(*entry.0);
        }
        proof {
            assert(ids@ == keys);
            assert(exists|k: Seq<u64>|
                #[trigger] increasing_seq(k) && k.len() == all.len() && forall|i: int|
                    0 <= i < k.len() ==> k[i] == *all[i].0);
            let k = choose|k: Seq<u64>|
                #[trigger] increasing_seq(k) && k.len() == all.len() && forall|i: int|
                    0 <= i < k.len() ==> k[i] == *all[i].0;
            assert(ids@ == k);
            assert forall|i: int, j: int| 0 <= i < j < k.len() implies k[i] < k[j] by {
                assert(k[i].cmp_spec(&k[j]) is Less);
            }
            assert(ids@.to_set() == self.map@.dom()) by {
                assert forall|k: u64| self.map@.dom().contains(k) implies ids@.contains(k) by {
                    assert(self.map@.contains_key(k));
                    let i = choose|i: int| 0 <= i < all.len() && all[i] == (&k, &self.map@[k]);
                    assert(ids@[i] == k);
                }
                assert forall|k: u64| ids@.contains(k) implies self.map@.dom().contains(k) by {
                    let i = choose|i: int| 0 <= i < ids@.len() && ids@[i] == k;
                    assert(self.map@.contains_key(*all[i].0));
                }
            }
            lemma_ascending_is(ids@);
        }
        ids
    }
}

} // verus!
