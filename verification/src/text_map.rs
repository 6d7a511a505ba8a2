//! A map from texts to values.

use vstd::prelude::*;
use vstd::string::*;

use crate::text::same_text;

verus! {

/// A map keyed by text, kept as a list of entries. Where a key occurs twice, the later entry counts.
#[derive(Debug)]
pub struct TextMap<V> {
    entries: Vec<(String, V)>,
}

spec fn entries_map<V>(entries: Seq<(String, V)>) -> Map<Seq<char>, V>
    decreases entries.len(),
{
    if entries.len() == 0 {
        Map::empty()
    } else {
        entries_map(entries.drop_last()).insert(entries.last().0@, entries.last().1)
    }
}

impl<V> View for TextMap<V> {
    type V = Map<Seq<char>, V>;

    closed spec fn view(&self) -> Map<Seq<char>, V> {
        entries_map(self.entries@)
    }
}

/// Leaving out one entry of `key` changes nothing at the other keys.
proof fn lemma_remove_entry<V>(entries: Seq<(String, V)>, i: int, key: Seq<char>)
    requires
        0 <= i < entries.len(),
        entries[i].0@ == key,
    ensures
        entries_map(entries.remove(i)).remove(key) == entries_map(entries).remove(key),
    decreases entries.len(),
{
    if i == entries.len() - 1 {
        assert(entries.remove(i) == entries.drop_last());
    } else {
        let rest = entries.drop_last();
        lemma_remove_entry(rest, i, key);
        assert(rest[i] == entries[i]);
        assert(entries.remove(i).drop_last() == rest.remove(i));
        assert(entries.remove(i).last() == entries.last());
        let last = entries.last();
        let left = entries_map(rest.remove(i));
        let right = entries_map(rest);
        if last.0@ == key {
            assert(left.insert(last.0@, last.1).remove(key) =~= left.remove(key));
            assert(right.insert(last.0@, last.1).remove(key) =~= right.remove(key));
        } else {
            assert(left.insert(last.0@, last.1).remove(key) =~= left.remove(key).insert(
                last.0@,
                last.1,
            ));
            assert(right.insert(last.0@, last.1).remove(key) =~= right.remove(key).insert(
                last.0@,
                last.1,
            ));
        }
    }
}

/// A key with no entry has no value.
proof fn lemma_absent<V>(entries: Seq<(String, V)>, key: Seq<char>)
    requires
        forall|i: int| 0 <= i < entries.len() ==> (#[trigger] entries[i]).0@ != key,
    ensures
        !entries_map(entries).contains_key(key),
    decreases entries.len(),
{
    if entries.len() > 0 {
        assert forall|i: int| 0 <= i < entries.len() - 1 implies (
        #[trigger] entries.drop_last()[i]).0@ != key by {
            assert(entries.drop_last()[i] == entries[i]);
        }
        lemma_absent(entries.drop_last(), key);
    }
}

/// The latest entry of a key holds its value.
proof fn lemma_latest<V>(entries: Seq<(String, V)>, i: int, key: Seq<char>)
    requires
        0 <= i < entries.len(),
        entries[i].0@ == key,
        forall|j: int| i < j < entries.len() ==> (#[trigger] entries[j]).0@ != key,
    ensures
        entries_map(entries).contains_key(key),
        entries_map(entries)[key] == entries[i].1,
    decreases entries.len(),
{
    if i < entries.len() - 1 {
        assert(entries[entries.len() - 1].0@ != key);
        assert(entries.drop_last()[i] == entries[i]);
        assert forall|j: int| i < j < entries.len() - 1 implies (
        #[trigger] entries.drop_last()[j]).0@ != key by {
            assert(entries.drop_last()[j] == entries[j]);
        }
        lemma_latest(entries.drop_last(), i, key);
    }
}

impl<V> TextMap<V> {
    /// The empty map.
    pub fn new() -> (map: Self)
        ensures
            map@ == Map::<Seq<char>, V>::empty(),
    {
        TextMap { entries: Vec::new() }
    }

    fn position(&self, key: &str) -> (found: Option<usize>)
        ensures
            match found {
                Some(i) => {
                    &&& i < self.entries@.len()
                    &&& self.entries@[i as int].0@ == key@
                    &&& self@.contains_key(key@)
                    &&& self@[key@] == self.entries@[i as int].1
                },
                None => !self@.contains_key(key@),
            },
    {
        let mut i: usize = self.entries.len();
        while i > 0
            invariant
                i <= self.entries@.len(),
                forall|j: int| i <= j < self.entries@.len() ==> (#[trigger] self.entries@[j]).0@ != key@,
            decreases i,
        {
            i -= 1;
            if same_text(self.entries[i].0.as_str(), key) {
                proof {
                    lemma_latest(self.entries@, i as int, key@);
                }
                return Some(i);
            }
        }
        proof {
            lemma_absent(self.entries@, key@);
        }
        None
    }

    /// The value of `key`, if it has one.
    pub fn get(&self, key: &str) -> (value: Option<&V>)
        ensures
            match value {
                Some(v) => self@.contains_key(key@) && *v == self@[key@],
                None => !self@.contains_key(key@),
            },
    {
        match self.position(key) {
            Some(i) => Some(&self.entries[i].1),
            None => None,
        }
    }

    /// Whether `key` has a value.
    pub fn contains_key(&self, key: &str) -> (yes: bool)
        ensures
            yes == self@.contains_key(key@),
    {
        self.position(key).is_some()
    }

    /// Takes the value of `key` out of the map.
    pub fn remove(&mut self, key: &str) -> (value: Option<V>)
        ensures
            final(self)@ == old(self)@.remove(key@),
            match value {
                Some(v) => old(self)@.contains_key(key@) && v == old(self)@[key@],
                None => !old(self)@.contains_key(key@),
            },
    {
        let mut taken: Option<V> = None;
        loop
            invariant
                self@.remove(key@) == old(self)@.remove(key@),
                match taken {
                    Some(v) => old(self)@.contains_key(key@) && v == old(self)@[key@],
                    None => self@ == old(self)@,
                },
            ensures
                self@ == old(self)@.remove(key@),
                taken is None ==> !old(self)@.contains_key(key@),
            decreases self.entries@.len(),
        {
            match self.position(key) {
                Some(i) => {
                    proof {
                        lemma_remove_entry(self.entries@, i as int, key@);
                    }
                    let (_, value) = self.entries.remove(i);
                    if taken.is_none() {
                        taken = Some(value);
                    }
                },
                None => {
                    assert(self@.remove(key@) == self@);
                    break;
                },
            }
        }
        taken
    }

    /// Gives `key` the value `value`.
    pub fn insert(&mut self, key: String, value: V)
        ensures
            final(self)@ == old(self)@.insert(key@, value),
    {
        let _ = self.remove(key.as_str());
        let ghost before = self.entries@;
        let ghost text = key@;
        self.entries.push((key, value));
        assert(self.entries@.drop_last() == before);
        assert(old(self)@.remove(text).insert(text, value) == old(self)@.insert(text, value));
    }
}

} // verus!
