//! Tables from names to texts, in the order in which the names came.

use vstd::prelude::*;

verus! {

/// The text that a table has under a name.
pub open spec fn lookup(t: Seq<(Seq<char>, Seq<char>)>, key: Seq<char>) -> Option<Seq<char>>
    decreases t.len(),
{
    if t.len() == 0 {
        None
    } else if t[0].0 == key {
        Some(t[0].1)
    } else {
        lookup(t.skip(1), key)
    }
}

/// A table with a text under a name: in the name's old place, or behind all others.
pub open spec fn inserted(
    t: Seq<(Seq<char>, Seq<char>)>,
    key: Seq<char>,
    value: Seq<char>,
) -> Seq<(Seq<char>, Seq<char>)>
    decreases t.len(),
{
    if t.len() == 0 {
        seq![(key, value)]
    } else if t[0].0 == key {
        seq![(key, value)] + t.skip(1)
    } else {
        seq![t[0]] + inserted(t.skip(1), key, value)
    }
}

/// A table holds under each name what was put there last.
pub proof fn law_lookup_finds_what_was_inserted(
    t: Seq<(Seq<char>, Seq<char>)>,
    key: Seq<char>,
    value: Seq<char>,
    other: Seq<char>,
)
    ensures
        lookup(inserted(t, key, value), other) == (if other == key {
            Some(value)
        } else {
            lookup(t, other)
        }),
    decreases t.len(),
{
    let new = inserted(t, key, value);
    reveal_with_fuel(lookup, 2);
    if t.len() == 0 {
        assert(new.skip(1) == Seq::<(Seq<char>, Seq<char>)>::empty());
    } else if t[0].0 == key {
        assert(new.skip(1) == t.skip(1));
    } else {
        assert(new.skip(1) == inserted(t.skip(1), key, value));
        law_lookup_finds_what_was_inserted(t.skip(1), key, value, other);
    }
}

/// A key that is inserted anew comes behind the others, and one that was there keeps its place;
/// no key changes its place.
pub proof fn law_keys_keep_their_places(
    t: Seq<(Seq<char>, Seq<char>)>,
    key: Seq<char>,
    value: Seq<char>,
)
    ensures
        ({
            let u = inserted(t, key, value);
            &&& u.len() == t.len() + (if lookup(t, key) is Some {
                0int
            } else {
                1int
            })
            &&& forall|i: int| 0 <= i < t.len() ==> (#[trigger] u[i]).0 == t[i].0
            &&& lookup(t, key) is None ==> u.last() == (key, value)
            &&& forall|i: int| 0 <= i < t.len() && t[i].0 != key ==> #[trigger] u[i] == t[i]
        }),
    decreases t.len(),
{
    if t.len() > 0 && t[0].0 != key {
        let rest = t.skip(1);
        law_keys_keep_their_places(rest, key, value);
        let u = inserted(t, key, value);
        let v = inserted(rest, key, value);
        assert forall|i: int| 0 <= i < t.len() implies (#[trigger] u[i]).0 == t[i].0 && (t[i].0
            != key ==> u[i] == t[i]) by {
            if i > 0 {
                assert(u[i] == v[i - 1]);
                assert(rest[i - 1] == t[i]);
            }
        }
    }
}

/// A table from names to texts.
#[derive(Debug)]
pub struct StringTable {
    pub entries: Vec<(String, String)>,
}

impl View for StringTable {
    type V = Seq<(Seq<char>, Seq<char>)>;

    open spec fn view(&self) -> Seq<(Seq<char>, Seq<char>)> {
        Seq::new(
            self.entries@.len(),
            |i: int| (self.entries@[i].0@, self.entries@[i].1@),
        )
    }
}

/// Where the entries before `i` have other names, the entry at `i` decides.
proof fn lemma_skipped(t: Seq<(Seq<char>, Seq<char>)>, key: Seq<char>, value: Seq<char>, i: int)
    requires
        0 <= i <= t.len(),
        forall|j: int| 0 <= j < i ==> (#[trigger] t[j]).0 != key,
    ensures
        lookup(t, key) == lookup(t.skip(i), key),
        inserted(t, key, value) == t.take(i) + inserted(t.skip(i), key, value),
    decreases i,
{
    if i == 0 {
        assert(t.skip(0) == t);
        assert(t.take(0) + inserted(t, key, value) == inserted(t, key, value));
    } else {
        lemma_skipped(t, key, value, i - 1);
        let rest = t.skip(i - 1);
        assert(rest[0] == t[i - 1]);
        assert(rest.skip(1) == t.skip(i));
        assert(t.take(i - 1) + (seq![t[i - 1]] + inserted(t.skip(i), key, value)) == t.take(i)
            + inserted(t.skip(i), key, value));
    }
}

impl StringTable {
    /// A table without entries.
    pub fn new() -> (t: Self)
        ensures
            t@ == Seq::<(Seq<char>, Seq<char>)>::empty(),
    {
        let t = Self { entries: Vec::new() };
        assert(t@ == Seq::<(Seq<char>, Seq<char>)>::empty());
        t
    }

    /// Where the name stands; behind all entries if it is not there.
    fn position(&self, key: &String) -> (i: usize)
        ensures
            i <= self.entries@.len(),
            forall|j: int| 0 <= j < i ==> (#[trigger] self@[j]).0 != key@,
            i < self.entries@.len() ==> self@[i as int].0 == key@,
    {
        let mut i: usize = 0;
        while i < self.entries.len() && self.entries[i].0 != *key
            invariant
                i <= self.entries@.len(),
                forall|j: int| 0 <= j < i ==> (#[trigger] self@[j]).0 != key@,
            decreases self.entries@.len() - i,
        {
            assert(self@[i as int].0 == self.entries@[i as int].0@);
            i += 1;
        }
        i
    }

    /// The text under a name.
    pub fn get(&self, key: &str) -> (r: Option<&String>)
        ensures
            match r {
                Some(text) => lookup(self@, key@) == Some(text@),
                None => lookup(self@, key@) is None,
            },
    {
        let key = key.to_owned();
        let i = self.position(&key);
        proof {
            lemma_skipped(self@, key@, Seq::empty(), i as int);
        }
        if i < self.entries.len() {
            assert(self@.skip(i as int)[0] == self@[i as int]);
            Some(&self.entries[i].1)
        } else {
            assert(self@.skip(i as int) == Seq::<(Seq<char>, Seq<char>)>::empty());
            None
        }
    }

    /// Puts a text under a name.
    pub fn insert(&mut self, key: String, value: String)
        ensures
            final(self)@ == inserted(old(self)@, key@, value@),
    {
        let i = self.position(&key);
        let ghost before = self@;
        proof {
            lemma_skipped(before, key@, value@, i as int);
        }
        if i < self.entries.len() {
            self.entries.set(i, (key, value));
            proof {
                let rest = before.skip(i as int);
                assert(rest[0] == before[i as int]);
                assert(self@ == before.take(i as int) + (seq![(key@, value@)] + rest.skip(1)));
            }
        } else {
            self.entries.push((key, value));
            proof {
                let rest = before.skip(i as int);
                assert(rest == Seq::<(Seq<char>, Seq<char>)>::empty());
                assert(self@ == before.take(i as int) + seq![(key@, value@)]);
            }
        }
    }
}

} // verus!
