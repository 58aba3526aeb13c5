//! A map keyed by image identifiers, held as a list of entries whose keys are
//! all different.
use vstd::prelude::*;

use crate::library::identifier::{lemma_identifier_eq_key, IdKey, LibraryImageIdentifier};

verus! {

pub struct IdentifierMap<V> {
    entries: Vec<(LibraryImageIdentifier, V)>,
}

/// No two entries have the same key.
pub open spec fn keys_distinct<V>(s: Seq<(LibraryImageIdentifier, V)>) -> bool {
    forall|i: int, j: int|
        0 <= i < s.len() && 0 <= j < s.len() && i != j ==> #[trigger] s[i].0.spec_key()
            != #[trigger] s[j].0.spec_key()
}

pub open spec fn has_key<V>(s: Seq<(LibraryImageIdentifier, V)>, k: IdKey) -> bool {
    exists|i: int| 0 <= i < s.len() && #[trigger] s[i].0.spec_key() == k
}

pub open spec fn index_of_key<V>(s: Seq<(LibraryImageIdentifier, V)>, k: IdKey) -> int {
    choose|i: int| 0 <= i < s.len() && #[trigger] s[i].0.spec_key() == k
}

/// The map that a list of entries stands for.
pub open spec fn entries_map<V>(s: Seq<(LibraryImageIdentifier, V)>) -> Map<IdKey, V> {
    Map::new(|k: IdKey| has_key(s, k), |k: IdKey| s[index_of_key(s, k)].1)
}

/// With distinct keys, each entry is what the map holds for its key.
pub proof fn lemma_entries_map_at<V>(s: Seq<(LibraryImageIdentifier, V)>, i: int)
    requires
        keys_distinct(s),
        0 <= i < s.len(),
    ensures
        entries_map(s).dom().contains(s[i].0.spec_key()),
        entries_map(s)[s[i].0.spec_key()] == s[i].1,
        index_of_key(s, s[i].0.spec_key()) == i,
{
    let k = s[i].0.spec_key();
    assert(has_key(s, k));
    let j = index_of_key(s, k);
    assert(s[j].0.spec_key() == k);
}

pub proof fn lemma_entries_map_push<V>(s: Seq<(LibraryImageIdentifier, V)>, id: LibraryImageIdentifier, v: V)
    requires
        keys_distinct(s),
        !entries_map(s).dom().contains(id.spec_key()),
    ensures
        keys_distinct(s.push((id, v))),
        entries_map(s.push((id, v))) == entries_map(s).insert(id.spec_key(), v),
{
    let t = s.push((id, v));
    assert forall|i: int, j: int|
        0 <= i < t.len() && 0 <= j < t.len() && i != j implies #[trigger] t[i].0.spec_key()
            != #[trigger] t[j].0.spec_key() by {
        if i == s.len() && j < s.len() {
            assert(t[j] == s[j]);
            assert(has_key(s, s[j].0.spec_key()));
        } else if j == s.len() && i < s.len() {
            assert(t[i] == s[i]);
            assert(has_key(s, s[i].0.spec_key()));
        } else if i < s.len() && j < s.len() {
            assert(t[i] == s[i]);
            assert(t[j] == s[j]);
        }
    }
    let m = entries_map(t);
    let m2 = entries_map(s).insert(id.spec_key(), v);
    assert forall|k: IdKey| #[trigger] m.dom().contains(k) <==> m2.dom().contains(k) by {
        if has_key(t, k) {
            let i = choose|i: int| 0 <= i < t.len() && #[trigger] t[i].0.spec_key() == k;
            if i < s.len() {
                assert(t[i] == s[i]);
                assert(has_key(s, k));
            }
        }
        if has_key(s, k) {
            let i = choose|i: int| 0 <= i < s.len() && #[trigger] s[i].0.spec_key() == k;
            assert(t[i] == s[i]);
            assert(has_key(t, k));
        }
        if k == id.spec_key() {
            assert(t[s.len() as int].0.spec_key() == k);
            assert(has_key(t, k));
        }
    }
    assert forall|k: IdKey| #[trigger] m.dom().contains(k) implies m[k] == m2[k] by {
        let i = index_of_key(t, k);
        lemma_entries_map_at(t, i);
        if i < s.len() {
            assert(t[i] == s[i]);
            lemma_entries_map_at(s, i);
        }
    }
    assert(m =~= m2);
}

pub proof fn lemma_entries_map_remove<V>(s: Seq<(LibraryImageIdentifier, V)>, i: int)
    requires
        keys_distinct(s),
        0 <= i < s.len(),
    ensures
        keys_distinct(s.remove(i)),
        entries_map(s.remove(i)) == entries_map(s).remove(s[i].0.spec_key()),
{
    let t = s.remove(i);
    let ki = s[i].0.spec_key();
    // t[j] is s[j] below i and s[j + 1] from i on
    assert forall|a: int, b: int|
        0 <= a < t.len() && 0 <= b < t.len() && a != b implies #[trigger] t[a].0.spec_key()
            != #[trigger] t[b].0.spec_key() by {
        let sa = if a < i { a } else { a + 1 };
        let sb = if b < i { b } else { b + 1 };
        assert(t[a] == s[sa]);
        assert(t[b] == s[sb]);
    }
    let m = entries_map(t);
    let m2 = entries_map(s).remove(ki);
    assert forall|k: IdKey| #[trigger] m.dom().contains(k) <==> m2.dom().contains(k) by {
        if has_key(t, k) {
            let a = choose|a: int| 0 <= a < t.len() && #[trigger] t[a].0.spec_key() == k;
            let sa = if a < i { a } else { a + 1 };
            assert(t[a] == s[sa]);
            assert(has_key(s, k));
        }
        if has_key(s, k) && k != ki {
            let a = choose|a: int| 0 <= a < s.len() && #[trigger] s[a].0.spec_key() == k;
            let ta = if a < i { a } else { a - 1 };
            assert(t[ta] == s[a]);
            assert(has_key(t, k));
        }
    }
    assert forall|k: IdKey| #[trigger] m.dom().contains(k) implies m[k] == m2[k] by {
        let a = index_of_key(t, k);
        lemma_entries_map_at(t, a);
        let sa = if a < i { a } else { a + 1 };
        assert(t[a] == s[sa]);
        lemma_entries_map_at(s, sa);
    }
    assert(m =~= m2);
}

/// With distinct keys, the map is finite and has one key per entry.
pub proof fn lemma_entries_map_len<V>(s: Seq<(LibraryImageIdentifier, V)>)
    requires
        keys_distinct(s),
    ensures
        entries_map(s).dom().finite(),
        entries_map(s).dom().len() == s.len(),
    decreases s.len(),
{
    if s.len() == 0 {
        assert(entries_map(s) =~= Map::<IdKey, V>::empty());
    } else {
        let t = s.drop_last();
        assert(keys_distinct(t)) by {
            assert forall|i: int, j: int|
                0 <= i < t.len() && 0 <= j < t.len() && i != j implies #[trigger] t[i].0.spec_key()
                    != #[trigger] t[j].0.spec_key() by {
                assert(t[i] == s[i]);
                assert(t[j] == s[j]);
            }
        }
        lemma_entries_map_len(t);
        let x = s.last();
        assert(!entries_map(t).dom().contains(x.0.spec_key())) by {
            if has_key(t, x.0.spec_key()) {
                let i = choose|i: int| 0 <= i < t.len() && #[trigger] t[i].0.spec_key() == x.0.spec_key();
                assert(t[i] == s[i]);
            }
        }
        lemma_entries_map_push(t, x.0, x.1);
        assert(t.push(x) =~= s);
    }
}

/// Changing the value of an entry changes what the map holds for its key.
pub proof fn lemma_entries_map_update<V>(s: Seq<(LibraryImageIdentifier, V)>, i: int, v: V)
    requires
        keys_distinct(s),
        0 <= i < s.len(),
    ensures
        entries_map(s.update(i, (s[i].0, v))) == entries_map(s).insert(s[i].0.spec_key(), v),
{
    let t = s.update(i, (s[i].0, v));
    assert(keys_distinct(t)) by {
        assert forall|a: int, b: int| 0 <= a < t.len() && 0 <= b < t.len() && a != b implies
            #[trigger] t[a].0.spec_key() != #[trigger] t[b].0.spec_key() by {
            assert(t[a].0 == s[a].0);
            assert(t[b].0 == s[b].0);
        }
    }
    let m = entries_map(t);
    let m2 = entries_map(s).insert(s[i].0.spec_key(), v);
    lemma_entries_map_at(s, i);
    assert forall|k: IdKey| #[trigger] m.dom().contains(k) <==> m2.dom().contains(k) by {
        if has_key(t, k) {
            let a = choose|a: int| 0 <= a < t.len() && #[trigger] t[a].0.spec_key() == k;
            assert(t[a].0 == s[a].0);
            assert(has_key(s, k));
        }
        if has_key(s, k) {
            let a = choose|a: int| 0 <= a < s.len() && #[trigger] s[a].0.spec_key() == k;
            assert(t[a].0 == s[a].0);
            assert(has_key(t, k));
        }
    }
    assert forall|k: IdKey| #[trigger] m.dom().contains(k) implies m[k] == m2[k] by {
        let a = index_of_key(t, k);
        lemma_entries_map_at(t, a);
        assert(t[a].0 == s[a].0);
        lemma_entries_map_at(s, a);
    }
    assert(m =~= m2);
}

impl<V> View for IdentifierMap<V> {
    type V = Map<IdKey, V>;

    closed spec fn view(&self) -> Map<IdKey, V> {
        entries_map(self.entries@)
    }
}

impl<V> IdentifierMap<V> {
    pub closed spec fn well_formed(self) -> bool {
        keys_distinct(self.entries@)
    }

    /// The entries, in the order in which they were inserted.
    pub closed spec fn spec_entries(self) -> Seq<(LibraryImageIdentifier, V)> {
        self.entries@
    }

    pub proof fn lemma_view(self)
        requires
            self.well_formed(),
        ensures
            self@ == entries_map(self.spec_entries()),
            keys_distinct(self.spec_entries()),
    {
    }

    pub fn new() -> (r: Self)
        ensures
            r.well_formed(),
            r@ == Map::<IdKey, V>::empty(),
    {
        let r = IdentifierMap { entries: Vec::new() };
        assert(r@ =~= Map::<IdKey, V>::empty());
        r
    }

    /// The position of the entry for `id`, if any.
    fn index_of(&self, id: &LibraryImageIdentifier) -> (r: Option<usize>)
        requires
            self.well_formed(),
        ensures
            r is Some <==> self@.dom().contains(id.spec_key()),
            r matches Some(i) ==> i < self.entries@.len() && self.entries@[i as int].0.spec_key() == id.spec_key(),
    {
        let mut i: usize = 0;
        while i < self.entries.len()
            invariant
                i <= self.entries@.len(),
                forall|j: int| 0 <= j < i ==> #[trigger] self.entries@[j].0.spec_key() != id.spec_key(),
            decreases self.entries@.len() - i,
        {
            proof {
                lemma_identifier_eq_key(self.entries@[i as int].0, *id);
            }
            if self.entries[i].0.equals(id) {
                assert(has_key(self.entries@, id.spec_key()));
                return Some(i);
            }
            i = i + 1;
        }
        proof {
            if has_key(self.entries@, id.spec_key()) {
                let j = choose|j: int| 0 <= j < self.entries@.len() && #[trigger] self.entries@[j].0.spec_key() == id.spec_key();
                assert(self.entries@[j].0.spec_key() != id.spec_key());
            }
        }
        None
    }

    pub fn len(&self) -> (r: usize)
        requires
            self.well_formed(),
        ensures
            r == self.spec_entries().len(),
            self@.dom().finite(),
            r == self@.dom().len(),
    {
        proof {
            lemma_entries_map_len(self.entries@);
        }
        self.entries.len()
    }

    pub fn contains_key(&self, id: &LibraryImageIdentifier) -> (r: bool)
        requires
            self.well_formed(),
        ensures
            r == self@.dom().contains(id.spec_key()),
    {
        self.index_of(id).is_some()
    }

    pub fn get(&self, id: &LibraryImageIdentifier) -> (r: Option<&V>)
        requires
            self.well_formed(),
        ensures
            r is Some <==> self@.dom().contains(id.spec_key()),
            r matches Some(v) ==> *v == self@[id.spec_key()],
    {
        match self.index_of(id) {
            Some(i) => {
                proof {
                    lemma_entries_map_at(self.entries@, i as int);
                }
                Some(&self.entries[i].1)
            },
            None => None,
        }
    }

    /// Removes the entry for `id`; returns its value, if there was one.
    /// The value of `id`, to be changed in place.
    pub fn get_mut(&mut self, id: &LibraryImageIdentifier) -> (r: &mut V)
        requires
            old(self).well_formed(),
            old(self)@.dom().contains(id.spec_key()),
        ensures
            *r == old(self)@[id.spec_key()],
            final(self).well_formed(),
            final(self)@ == old(self)@.insert(id.spec_key(), *final(r)),
    {
        let i = match self.index_of(id) {
            Some(i) => i,
            None => unreached(),
        };
        proof {
            lemma_entries_map_at(self.entries@, i as int);
        }
        let ghost s = self.entries@;
        let entry = &mut self.entries[i];
        let r = &mut entry.1;
        proof {
            assert(keys_distinct(s.update(i as int, (s[i as int].0, *final(r)))) ) by {
                let t = s.update(i as int, (s[i as int].0, *final(r)));
                assert forall|a: int, b: int| 0 <= a < t.len() && 0 <= b < t.len() && a != b implies
                    #[trigger] t[a].0.spec_key() != #[trigger] t[b].0.spec_key() by {
                    assert(t[a].0 == s[a].0);
                    assert(t[b].0 == s[b].0);
                }
            }
            lemma_entries_map_update(s, i as int, *final(r));
        }
        r
    }

    pub fn remove(&mut self, id: &LibraryImageIdentifier) -> (r: Option<V>)
        requires
            old(self).well_formed(),
        ensures
            final(self).well_formed(),
            final(self)@ == old(self)@.remove(id.spec_key()),
            r is Some <==> old(self)@.dom().contains(id.spec_key()),
            r matches Some(v) ==> v == old(self)@[id.spec_key()],
    {
        match self.index_of(id) {
            Some(i) => {
                proof {
                    lemma_entries_map_at(self.entries@, i as int);
                    lemma_entries_map_remove(self.entries@, i as int);
                }
                let (_, v) = self.entries.remove(i);
                Some(v)
            },
            None => {
                assert(self@ =~= old(self)@.remove(id.spec_key()));
                None
            },
        }
    }

    /// Sets the value for `id`; returns the value it replaces, if any.
    pub fn insert(&mut self, id: LibraryImageIdentifier, v: V) -> (r: Option<V>)
        requires
            old(self).well_formed(),
        ensures
            final(self).well_formed(),
            final(self)@ == old(self)@.insert(id.spec_key(), v),
            r is Some <==> old(self)@.dom().contains(id.spec_key()),
            r matches Some(w) ==> w == old(self)@[id.spec_key()],
    {
        let old_value = self.remove(&id);
        proof {
            lemma_entries_map_push(self.entries@, id, v);
        }
        self.entries.push((id, v));
        proof {
            assert(self@ =~= old(self)@.insert(id.spec_key(), v));
        }
        old_value
    }

    /// The keys, in entry order.
    pub fn keys(&self) -> (r: Vec<LibraryImageIdentifier>)
        requires
            self.well_formed(),
        ensures
            r@.len() == self.spec_entries().len(),
            forall|i: int| 0 <= i < r@.len() ==> #[trigger] r@[i].spec_key() == self.spec_entries()[i].0.spec_key(),
            forall|k: IdKey| #[trigger] self@.dom().contains(k) <==> exists|i: int| 0 <= i < r@.len() && #[trigger] r@[i].spec_key() == k,
    {
        let mut r: Vec<LibraryImageIdentifier> = Vec::new();
        let mut i: usize = 0;
        while i < self.entries.len()
            invariant
                i <= self.entries@.len(),
                r@.len() == i,
                forall|j: int| 0 <= j < i ==> #[trigger] r@[j].spec_key() == self.entries@[j].0.spec_key(),
            decreases self.entries@.len() - i,
        {
            r.push(self.entries[i].0.duplicate());
            i = i + 1;
        }
        proof {
            assert forall|k: IdKey| #[trigger] self@.dom().contains(k) <==> exists|i: int| 0 <= i < r@.len() && #[trigger] r@[i].spec_key() == k by {
                if self@.dom().contains(k) {
                    let i = choose|i: int| 0 <= i < self.entries@.len() && #[trigger] self.entries@[i].0.spec_key() == k;
                    assert(r@[i].spec_key() == k);
                }
                if exists|i: int| 0 <= i < r@.len() && #[trigger] r@[i].spec_key() == k {
                    let i = choose|i: int| 0 <= i < r@.len() && #[trigger] r@[i].spec_key() == k;
                    assert(self.entries@[i].0.spec_key() == k);
                    assert(has_key(self.entries@, k));
                }
            }
        }
        r
    }
}

} // verus!
