//! The reading dictionary: a map from a written word to the way it is
//! read aloud.

use vstd::prelude::*;

verus! {

/// A map from words to their readings, keyed by the word's text.
/// No word occurs twice, so each word has exactly one reading.
pub struct Dictionary {
    entries: Vec<(String, String)>,
    contents: Ghost<Map<Seq<char>, Seq<char>>>,
}

/// The entries hold each key once, and exactly the keys of `contents`
/// with their values.
spec fn entries_match(entries: Seq<(String, String)>, contents: Map<Seq<char>, Seq<char>>) -> bool {
    &&& contents.dom().finite()
    &&& forall|i: int, j: int|
        0 <= i < j < entries.len() ==> #[trigger] entries[i].0@ != #[trigger] entries[j].0@
    &&& forall|i: int|
        0 <= i < entries.len() ==> #[trigger] contents.contains_key(entries[i].0@)
            && contents[entries[i].0@] == entries[i].1@
    &&& forall|k: Seq<char>|
        #[trigger] contents.contains_key(k) ==> exists|i: int|
            0 <= i < entries.len() && #[trigger] entries[i].0@ == k
}

impl Dictionary {
    #[verifier::type_invariant]
    spec fn well_formed(self) -> bool {
        entries_match(self.entries@, self.contents@)
    }

    /// The words and their readings.
    pub closed spec fn view(&self) -> Map<Seq<char>, Seq<char>> {
        self.contents@
    }

    /// An empty dictionary.
    pub fn new() -> (d: Self)
        ensures
            d.view() == Map::<Seq<char>, Seq<char>>::empty(),
    {
        Dictionary { entries: Vec::new(), contents: Ghost(Map::empty()) }
    }

    /// The number of words.
    pub fn len(&self) -> (n: usize)
        ensures
            n == self.view().len(),
    {
        proof {
            use_type_invariant(self);
            self.lemma_len();
        }
        self.entries.len()
    }

    proof fn lemma_len(&self)
        requires
            entries_match(self.entries@, self.contents@),
        ensures
            self.entries@.len() == self.contents@.len(),
    {
        let keys = self.entries@.map_values(|e: (String, String)| e.0@);
        assert(keys.no_duplicates()) by {
            assert forall|i: int, j: int|
                0 <= i < keys.len() && 0 <= j < keys.len() && i != j implies keys[i]
                != keys[j] by {
                if i < j {
                    assert(self.entries@[i].0@ != self.entries@[j].0@);
                } else {
                    assert(self.entries@[j].0@ != self.entries@[i].0@);
                }
            }
        }
        assert(keys.to_set() =~= self.contents@.dom()) by {
            assert forall|k: Seq<char>| keys.to_set().contains(k) implies self.contents@.contains_key(
                k,
            ) by {
                let i = choose|i: int| 0 <= i < keys.len() && keys[i] == k;
                assert(self.contents@.contains_key(self.entries@[i].0@));
            }
            assert forall|k: Seq<char>| self.contents@.contains_key(k) implies keys.to_set().contains(
                k,
            ) by {
                let i = choose|i: int|
                    0 <= i < self.entries@.len() && #[trigger] self.entries@[i].0@ == k;
                assert(keys[i] == k);
            }
        }
        keys.unique_seq_to_set();
    }

    fn find(&self, key: &str) -> (r: Option<usize>)
        ensures
            match r {
                Some(i) => i < self.entries@.len() && self.entries@[i as int].0@ == key@,
                None => forall|i: int|
                    0 <= i < self.entries@.len() ==> #[trigger] self.entries@[i].0@ != key@,
            },
    {
        let mut i: usize = 0;
        while i < self.entries.len()
            invariant
                i <= self.entries@.len(),
                forall|j: int| 0 <= j < i ==> #[trigger] self.entries@[j].0@ != key@,
            decreases self.entries.len() - i,
        {
            if crate::text::str_equal(self.entries[i].0.as_str(), key) {
                return Some(i);
            }
            i = i + 1;
        }
        None
    }

    /// The reading of `key`, if the dictionary holds it (std `HashMap::get`).
    pub fn get(&self, key: &str) -> (r: Option<&String>)
        ensures
            match r {
                Some(v) => self.view().contains_key(key@) && v@ == self.view()[key@],
                None => !self.view().contains_key(key@),
            },
    {
        proof {
            use_type_invariant(self);
        }
        match self.find(key) {
            Some(i) => {
                proof {
                    assert(self.contents@.contains_key(self.entries@[i as int].0@));
                }
                Some(&self.entries[i].1)
            },
            None => None,
        }
    }

    /// Sets the reading of `key` to `value`, replacing any earlier one
    /// (std `HashMap::insert`).
    pub fn insert(&mut self, key: String, value: String)
        ensures
            final(self).view() == old(self).view().insert(key@, value@),
    {
        proof {
            use_type_invariant(&*self);
        }
        let ghost old_contents = self.contents@;
        let ghost new_contents = old_contents.insert(key@, value@);
        let ghost old_entries = self.entries@;
        match self.find(key.as_str()) {
            Some(i) => {
                let mut taken = Dictionary::new();
                std::mem::swap(&mut taken, self);
                proof {
                    use_type_invariant(&taken);
                }
                assert(taken.entries@ == old_entries);
                assert(taken.contents@ == old_contents);
                let Dictionary { mut entries, contents: _ } = taken;
                entries.set(i, (key, value));
                assert forall|j: int| 0 <= j < entries@.len() implies #[trigger] entries@[j].0@
                    == old_entries[j].0@ by {}
                assert forall|j: int|
                    0 <= j < entries@.len() implies #[trigger] new_contents.contains_key(
                    entries@[j].0@,
                ) && new_contents[entries@[j].0@] == entries@[j].1@ by {
                    if j != i {
                        assert(old_entries[j].0@ != old_entries[i as int].0@);
                    }
                }
                assert forall|k: Seq<char>| #[trigger] new_contents.contains_key(k) implies exists|
                    j: int,
                | 0 <= j < entries@.len() && #[trigger] entries@[j].0@ == k by {
                    if k != entries@[i as int].0@ {
                        let j = choose|j: int|
                            0 <= j < old_entries.len() && #[trigger] old_entries[j].0@ == k;
                        assert(entries@[j].0@ == k);
                    }
                }
                assert(new_contents.dom().finite());
                assert forall|a: int, b: int|
                    0 <= a < b < entries@.len() implies #[trigger] entries@[a].0@
                    != #[trigger] entries@[b].0@ by {
                    if b < old_entries.len() {
                        assert(old_entries[a].0@ != old_entries[b].0@);
                    }
                }
                assert(entries_match(entries@, new_contents));
                *self = Dictionary { entries, contents: Ghost(new_contents) };
            },
            None => {
                let mut taken = Dictionary::new();
                std::mem::swap(&mut taken, self);
                proof {
                    use_type_invariant(&taken);
                }
                assert(taken.entries@ == old_entries);
                assert(taken.contents@ == old_contents);
                let Dictionary { mut entries, contents: _ } = taken;
                entries.push((key, value));
                assert forall|j: int|
                    0 <= j < entries@.len() implies #[trigger] new_contents.contains_key(
                    entries@[j].0@,
                ) && new_contents[entries@[j].0@] == entries@[j].1@ by {
                    if j < old_entries.len() {
                        assert(entries@[j] == old_entries[j]);
                    }
                }
                let n = entries.len() - 1;
                assert forall|k: Seq<char>| #[trigger] new_contents.contains_key(k) implies exists|
                    j: int,
                | 0 <= j < entries@.len() && #[trigger] entries@[j].0@ == k by {
                    if k != entries@[n as int].0@ {
                        let j = choose|j: int|
                            0 <= j < old_entries.len() && #[trigger] old_entries[j].0@ == k;
                        assert(entries@[j].0@ == k);
                    }
                }
                assert(new_contents.dom().finite());
                assert forall|a: int, b: int|
                    0 <= a < b < entries@.len() implies #[trigger] entries@[a].0@
                    != #[trigger] entries@[b].0@ by {
                    if b < old_entries.len() {
                        assert(old_entries[a].0@ != old_entries[b].0@);
                    }
                }
                assert(entries_match(entries@, new_contents));
                *self = Dictionary { entries, contents: Ghost(new_contents) };
            },
        }
    }
}

/// Reading back a word just written gives the value written, and every
/// other word keeps its reading.
pub proof fn law_dictionary_read_after_write(
    before: Map<Seq<char>, Seq<char>>,
    after: Map<Seq<char>, Seq<char>>,
    key: Seq<char>,
    value: Seq<char>,
    other: Seq<char>,
)
    requires
        after == before.insert(key, value),
        other != key,
    ensures
        after.contains_key(key),
        after[key] == value,
        after.contains_key(other) == before.contains_key(other),
        before.contains_key(other) ==> after[other] == before[other],
{
}

} // verus!
