//! A table keyed by text, with unique keys, seen as a map.

use vstd::prelude::*;

use crate::text::same_str;

verus! {

/// Entries keyed by strings; no key occurs twice. Kept as two vectors so that
/// lookups by a string key are proved; a hash map keyed by `String` proves
/// nothing of them.
pub struct TextTable<V> {
    keys: Vec<String>,
    values: Vec<V>,
    contents: Ghost<Map<Seq<char>, V>>,
}

impl<V> View for TextTable<V> {
    type V = Map<Seq<char>, V>;

    closed spec fn view(&self) -> Map<Seq<char>, V> {
        self.contents@
    }
}

impl<V> TextTable<V> {
    /// The table's invariant: keys and values side by side, keys unique, and
    /// the map holding exactly those entries.
    pub closed spec fn wf(&self) -> bool {
        &&& self.keys.len() == self.values.len()
        &&& forall|i: int, j: int|
            0 <= i < j < self.keys.len() ==> #[trigger] self.keys@[i]@ != #[trigger] self.keys@[j]@
        &&& forall|i: int|
            0 <= i < self.keys.len() ==> #[trigger] self.contents@.contains_key(self.keys@[i]@)
                && self.contents@[self.keys@[i]@] == self.values@[i]
        &&& forall|k: Seq<char>|
            #[trigger] self.contents@.contains_key(k) ==> exists|i: int|
                0 <= i < self.keys.len() && #[trigger] self.keys@[i]@ == k
    }

    /// An empty table.
    pub fn new() -> (r: Self)
        ensures
            r.wf(),
            r@ == Map::<Seq<char>, V>::empty(),
    {
        TextTable { keys: Vec::new(), values: Vec::new(), contents: Ghost(Map::empty()) }
    }

    fn position(&self, key: &str) -> (r: Option<usize>)
        requires
            self.wf(),
        ensures
            match r {
                Some(i) => i < self.keys.len() && self.keys@[i as int]@ == key@,
                None => !self@.contains_key(key@),
            },
    {
        let mut i: usize = 0;
        while i < self.keys.len()
            invariant
                self.wf(),
                i <= self.keys.len(),
                forall|j: int| 0 <= j < i ==> self.keys@[j]@ != key@,
            decreases self.keys.len() - i,
        {
            if same_str(self.keys[i].as_str(), key) {
                return Some(i);
            }
            i = i + 1;
        }
        None
    }

    /// The value stored under `key`, if any.
    pub fn get(&self, key: &str) -> (r: Option<&V>)
        requires
            self.wf(),
        ensures
            match r {
                Some(v) => self@.contains_key(key@) && *v == self@[key@],
                None => !self@.contains_key(key@),
            },
    {
        match self.position(key) {
            Some(i) => {
                assert(self.contents@.contains_key(self.keys@[i as int]@));
                Some(&self.values[i])
            },
            None => None,
        }
    }

    /// Stores `value` under `key`, replacing what was there.
    pub fn insert(&mut self, key: String, value: V)
        requires
            old(self).wf(),
        ensures
            final(self).wf(),
            final(self)@ == old(self)@.insert(key@, value),
    {
        match self.position(key.as_str()) {
            Some(i) => {
                self.values.set(i, value);
                self.contents = Ghost(self.contents@.insert(key@, value));
                assert forall|j: int| 0 <= j < self.keys.len() implies #[trigger]
                    self.contents@.contains_key(self.keys@[j]@) && self.contents@[self.keys@[j]@]
                        == self.values@[j] by {
                    if j != i {
                        assert(old(self).contents@.contains_key(old(self).keys@[j]@));
                        if j < i {
                            assert(self.keys@[j]@ != self.keys@[i as int]@);
                        } else {
                            assert(self.keys@[i as int]@ != self.keys@[j]@);
                        }
                    }
                }
                assert forall|k: Seq<char>| #[trigger]
                    self.contents@.contains_key(k) implies exists|j: int|
                        0 <= j < self.keys.len() && #[trigger] self.keys@[j]@ == k by {
                    if k != key@ {
                        assert(old(self).contents@.contains_key(k));
                        let j = choose|j: int|
                            0 <= j < old(self).keys.len() && #[trigger] old(self).keys@[j]@ == k;
                        assert(self.keys@[j]@ == k);
                    } else {
                        assert(self.keys@[i as int]@ == k);
                    }
                }
            },
            None => {
                let ghost kv = key@;
                self.keys.push(key);
                self.values.push(value);
                self.contents = Ghost(self.contents@.insert(kv, value));
                assert forall|j: int| 0 <= j < self.keys.len() implies #[trigger]
                    self.contents@.contains_key(self.keys@[j]@) && self.contents@[self.keys@[j]@]
                        == self.values@[j] by {
                    if j < self.keys.len() - 1 {
                        assert(old(self).contents@.contains_key(old(self).keys@[j]@));
                        assert(self.keys@[j] == old(self).keys@[j]);
                    }
                }
                assert forall|a: int, b: int|
                    0 <= a < b < self.keys.len() implies #[trigger] self.keys@[a]@
                        != #[trigger] self.keys@[b]@ by {
                    if b == self.keys.len() - 1 {
                        assert(old(self).contents@.contains_key(old(self).keys@[a]@));
                    } else {
                        assert(old(self).keys@[a]@ != old(self).keys@[b]@);
                    }
                }
                assert forall|k: Seq<char>| #[trigger]
                    self.contents@.contains_key(k) implies exists|j: int|
                        0 <= j < self.keys.len() && #[trigger] self.keys@[j]@ == k by {
                    if k != kv {
                        assert(old(self).contents@.contains_key(k));
                        let j = choose|j: int|
                            0 <= j < old(self).keys.len() && #[trigger] old(self).keys@[j]@ == k;
                        assert(self.keys@[j]@ == k);
                    } else {
                        assert(self.keys@[self.keys.len() - 1]@ == k);
                    }
                }
            },
        }
    }
}

} // verus!
