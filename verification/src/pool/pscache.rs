//! A bounded cache of prepared SQL texts with use counts.
use vstd::prelude::*;
use crate::text::{chars_of, same_text, string_of};

verus! {

/// The entry at `i` holds the text `key`, and no entry before it does.
pub open spec fn first_at(e: Seq<(Seq<char>, u64)>, key: Seq<char>, i: int) -> bool {
    &&& 0 <= i < e.len()
    &&& e[i].0 == key
    &&& forall|j: int| 0 <= j < i ==> e[j].0 != key
}

/// Whether some entry holds the text `key`.
pub open spec fn holds_key(e: Seq<(Seq<char>, u64)>, key: Seq<char>) -> bool {
    exists|i: int| 0 <= i < e.len() && #[trigger] e[i].0 == key
}

/// No text has two entries.
pub open spec fn keys_distinct(e: Seq<(Seq<char>, u64)>) -> bool {
    forall|i: int, j: int| 0 <= i < j < e.len() ==> #[trigger] e[i].0 != #[trigger] e[j].0
}

/// The entry at `i` has the fewest uses.
pub open spec fn least_used_at(e: Seq<(Seq<char>, u64)>, i: int) -> bool {
    &&& 0 <= i < e.len()
    &&& forall|j: int| 0 <= j < e.len() ==> e[i].1 <= #[trigger] e[j].1
}

/// Cached SQL texts, each with the number of times it was found again.
pub struct PSCache {
    entries: Vec<(String, u64)>,
    max_size: usize,
}

impl View for PSCache {
    /// The entries in the order they were cached: text and use count.
    type V = Seq<(Seq<char>, u64)>;

    closed spec fn view(&self) -> Seq<(Seq<char>, u64)> {
        self.entries@.map_values(|p: (String, u64)| (p.0@, p.1))
    }
}

/// The most texts a cache with room for `max_size` holds.
pub open spec fn size_bound(max_size: usize) -> nat {
    if max_size == 0 { 1 } else { max_size as nat }
}

impl PSCache {
    /// No text has two entries, and the cache keeps within its bound.
    #[verifier::type_invariant]
    spec fn inv(&self) -> bool {
        &&& keys_distinct(self@)
        &&& self@.len() <= size_bound(self.max_size)
    }

    /// The size from which a new text first evicts the least used one.
    pub closed spec fn capacity(&self) -> usize {
        self.max_size
    }

    pub fn new(max_size: usize) -> (r: Self)
        ensures
            r@ == Seq::<(Seq<char>, u64)>::empty(),
            r.capacity() == max_size,
    {
        let r = PSCache { entries: Vec::new(), max_size };
        assert(r@ =~= Seq::<(Seq<char>, u64)>::empty());
        r
    }

    /// The index of the first entry for `sql`, if any.
    fn find(&self, sql: &str) -> (r: Option<usize>)
        ensures
            match r {
                Some(i) => first_at(self@, sql@, i as int),
                None => !holds_key(self@, sql@),
            },
    {
        let mut i: usize = 0;
        while i < self.entries.len()
            invariant
                i <= self.entries@.len(),
                self@.len() == self.entries@.len(),
                forall|j: int| 0 <= j < i ==> self@[j].0 != sql@,
            decreases self.entries@.len() - i,
        {
            if same_text(self.entries[i].0.as_str(), sql) {
                return Some(i);
            }
            i = i + 1;
        }
        None
    }

    /// Whether `sql` is cached; a cached text's use count goes up by one
    /// (wrapping at `u64::MAX`).
    pub fn get(&mut self, sql: &str) -> (r: bool)
        ensures
            r == holds_key(old(self)@, sql@),
            final(self).capacity() == old(self).capacity(),
            keys_distinct(final(self)@),
            final(self)@.len() <= size_bound(final(self).capacity()),
            !r ==> final(self)@ == old(self)@,
            forall|i: int| #[trigger] first_at(old(self)@, sql@, i) ==>
                final(self)@ == old(self)@.update(i, (sql@, old(self)@[i].1.wrapping_add(1))),
    {
        proof { use_type_invariant(&*self); }
        match self.find(sql) {
            Some(i) => {
                let mut entries: Vec<(String, u64)> = Vec::new();
                std::mem::swap(&mut entries, &mut self.entries);
                let ghost old_entries = entries@;
                let (k, n) = entries.remove(i);
                entries.insert(i, (k, n.wrapping_add(1)));
                let ghost view = entries@.map_values(|p: (String, u64)| (p.0@, p.1));
                proof {
                    assert(view =~= old(self)@.update(i as int, (sql@, old(self)@[i as int].1.wrapping_add(1))));
                    assert forall|a: int, b: int| 0 <= a < b < view.len() implies #[trigger] view[a].0 != #[trigger] view[b].0 by {
                        assert(view[a].0 == old(self)@[a].0);
                        assert(view[b].0 == old(self)@[b].0);
                    }
                }
                self.entries = entries;
                assert(self@ =~= view);
                true
            },
            None => false,
        }
    }

    /// Caches `sql` with no uses, unless it is cached already. When the
    /// cache holds `capacity` texts or more, one with the fewest uses leaves
    /// first.
    pub fn put(&mut self, sql: &str)
        ensures
            final(self).capacity() == old(self).capacity(),
            holds_key(final(self)@, sql@),
            keys_distinct(final(self)@),
            final(self)@.len() <= size_bound(final(self).capacity()),
            1 <= old(self).capacity() && old(self)@.len() <= old(self).capacity() ==> final(self)@.len() <= old(self).capacity(),
            holds_key(old(self)@, sql@) ==> final(self)@ == old(self)@,
            !holds_key(old(self)@, sql@) && (old(self)@.len() < old(self).capacity() || old(self)@.len() == 0)
                ==> final(self)@ == old(self)@.push((sql@, 0u64)),
            !holds_key(old(self)@, sql@) && old(self)@.len() >= old(self).capacity() && old(self)@.len() > 0
                ==> exists|v: int| #[trigger] least_used_at(old(self)@, v)
                    && final(self)@ == old(self)@.remove(v).push((sql@, 0u64)),
    {
        proof { use_type_invariant(&*self); }
        match self.find(sql) {
            Some(_) => {
                return;
            },
            None => {},
        }
        let mut entries: Vec<(String, u64)> = Vec::new();
        std::mem::swap(&mut entries, &mut self.entries);
        if entries.len() >= self.max_size && entries.len() > 0 {
            let mut best: usize = 0;
            let mut k: usize = 1;
            while k < entries.len()
                invariant
                    best < k <= entries@.len(),
                    entries@ == old(self).entries@,
                    forall|j: int| 0 <= j < k ==> old(self)@[best as int].1 <= #[trigger] old(self)@[j].1,
                decreases entries@.len() - k,
            {
                if entries[k].1 < entries[best].1 {
                    best = k;
                }
                k = k + 1;
            }
            entries.remove(best);
            assert(entries@.map_values(|p: (String, u64)| (p.0@, p.1)) =~= old(self)@.remove(best as int));
            assert(least_used_at(old(self)@, best as int));
        }
        let ghost mid = entries@.map_values(|p: (String, u64)| (p.0@, p.1));
        entries.push((string_of(&chars_of(sql)), 0));
        let ghost view = entries@.map_values(|p: (String, u64)| (p.0@, p.1));
        proof {
            assert(view =~= mid.push((sql@, 0u64)));
            assert(view[mid.len() as int].0 == sql@);
            assert forall|a: int, b: int| 0 <= a < b < view.len() implies #[trigger] view[a].0 != #[trigger] view[b].0 by {
                if b == mid.len() {
                    assert(view[a].0 == mid[a].0);
                }
            }
        }
        self.entries = entries;
        assert(self@ =~= view);
    }

    /// The number of cached texts; in every state no text is cached twice
    /// and there are no more than the cache has room for (one when it has
    /// none).
    pub fn len(&self) -> (r: usize)
        ensures
            r == self@.len(),
            r <= size_bound(self.capacity()),
            keys_distinct(self@),
    {
        proof { use_type_invariant(self); }
        self.entries.len()
    }

    pub fn is_empty(&self) -> (r: bool)
        ensures
            r == (self@.len() == 0),
    {
        self.entries.len() == 0
    }

    /// Forgets every text.
    pub fn clear(&mut self)
        ensures
            final(self)@ == Seq::<(Seq<char>, u64)>::empty(),
            final(self).capacity() == old(self).capacity(),
    {
        self.entries = Vec::new();
        assert(self@ =~= Seq::<(Seq<char>, u64)>::empty());
    }
}

} // verus!
