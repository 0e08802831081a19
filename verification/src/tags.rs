//! The tags of an object: a mapping from keys to values that is walked in the
//! order of its keys.

use vstd::prelude::*;
use crate::order::{compare, lemma_lt_irreflexive, lemma_lt_transitive, str_eq, text_lt, Order};

verus! {

/// The mathematical model of tags: pairs of key and value, in order.
pub type TagSeq = Seq<(Seq<char>, Seq<char>)>;

/// Some pair of `tags` has the key `key`.
pub open spec fn has_key(tags: TagSeq, key: Seq<char>) -> bool {
    exists|i: int| 0 <= i < tags.len() && (#[trigger] tags[i]).0 == key
}

/// Some pair of `tags` is exactly `key` and `value`.
pub open spec fn has_tag(tags: TagSeq, key: Seq<char>, value: Seq<char>) -> bool {
    exists|i: int| 0 <= i < tags.len() && #[trigger] tags[i] == (key, value)
}

/// The pairs of `tags` stand in the strict order of their keys, so no key
/// occurs twice.
pub open spec fn keys_sorted(tags: TagSeq) -> bool {
    forall|i: int, j: int|
        0 <= i < j < tags.len() ==> text_lt((#[trigger] tags[i]).0, (#[trigger] tags[j]).0)
}

/// The position of `key` in `tags`, or the length of `tags` if it has none.
pub open spec fn key_index(tags: TagSeq, key: Seq<char>) -> int {
    if has_key(tags, key) {
        choose|i: int| 0 <= i < tags.len() && (#[trigger] tags[i]).0 == key
    } else {
        tags.len() as int
    }
}

/// In sorted tags a key stands at one position only.
pub proof fn lemma_key_once(tags: TagSeq, i: int, j: int)
    requires
        keys_sorted(tags),
        0 <= i < tags.len(),
        0 <= j < tags.len(),
        tags[i].0 == tags[j].0,
    ensures
        i == j,
{
    lemma_lt_irreflexive(tags[i].0);
}

/// The tags of an object. Each key has one value, and the tags are walked in
/// the order of their keys.
#[derive(Clone, Debug, PartialEq, Eq)]
pub struct Tags {
    entries: Vec<(String, String)>,
}

impl View for Tags {
    type V = TagSeq;

    closed spec fn view(&self) -> TagSeq {
        self.entries@.map_values(|e: (String, String)| (e.0@, e.1@))
    }
}

impl Tags {
    /// The invariant of tags: they stand in the order of their keys.
    pub open spec fn wf(&self) -> bool {
        keys_sorted(self@)
    }

    /// Creates tags that hold nothing.
    pub fn new() -> (tags: Tags)
        ensures
            tags@ == TagSeq::empty(),
            tags.wf(),
    {
        Tags { entries: Vec::new() }
    }

    /// The number of tags.
    pub fn len(&self) -> (n: usize)
        ensures
            n == self@.len(),
    {
        self.entries.len()
    }

    /// The key and the value at position `i`.
    pub fn entry(&self, i: usize) -> (kv: (&String, &String))
        requires
            i < self@.len(),
        ensures
            kv.0@ == self@[i as int].0,
            kv.1@ == self@[i as int].1,
    {
        (&self.entries[i].0, &self.entries[i].1)
    }

    /// The position of the tag with key `key`, if there is one.
    pub fn position(&self, key: &str) -> (at: Option<usize>)
        ensures
            at is Some <==> has_key(self@, key@),
            at matches Some(i) ==> i < self@.len() && self@[i as int].0 == key@,
    {
        let mut i: usize = 0;
        while i < self.entries.len()
            invariant
                i <= self.entries.len(),
                forall|j: int| 0 <= j < i ==> (#[trigger] self@[j]).0 != key@,
            decreases self.entries.len() - i,
        {
            if str_eq(self.entries[i].0.as_str(), key) {
                assert(self@[i as int].0 == key@);
                return Some(i);
            }
            i += 1;
        }
        None
    }

    /// Whether some tag has the key `key`, whatever its value.
    pub fn contains_key(&self, key: &str) -> (found: bool)
        ensures
            found == has_key(self@, key@),
    {
        self.position(key).is_some()
    }

    /// Whether the tags hold the key `key` with exactly the value `value`.
    pub fn contains(&self, key: &str, value: &str) -> (found: bool)
        ensures
            found == has_tag(self@, key@, value@),
    {
        let mut i: usize = 0;
        while i < self.entries.len()
            invariant
                i <= self.entries.len(),
                forall|j: int| 0 <= j < i ==> #[trigger] self@[j] != (key@, value@),
            decreases self.entries.len() - i,
        {
            if str_eq(self.entries[i].0.as_str(), key) && str_eq(self.entries[i].1.as_str(), value) {
                assert(self@[i as int] == (key@, value@));
                return true;
            }
            i += 1;
        }
        false
    }

    /// Sets the value of `key`. A key that is already present hands back its
    /// former value; a new key takes its place in the order of the keys.
    pub fn insert(&mut self, key: String, value: String) -> (former: Option<String>)
        requires
            old(self).wf(),
        ensures
            final(self).wf(),
            has_tag(final(self)@, key@, value@),
            has_key(old(self)@, key@) ==> {
                let i = key_index(old(self)@, key@);
                &&& former matches Some(v) && v@ == old(self)@[i].1
                &&& final(self)@ == old(self)@.update(i, (key@, value@))
            },
            !has_key(old(self)@, key@) ==> {
                &&& former is None
                &&& exists|at: int|
                    0 <= at <= old(self)@.len() && final(self)@ == #[trigger] old(self)@.insert(
                        at,
                        (key@, value@),
                    )
            },
    {
        let ghost before = self@;
        let mut i: usize = 0;
        while i < self.entries.len()
            invariant
                i <= self.entries.len(),
                self@ == before,
                before == old(self)@,
                keys_sorted(before),
                forall|j: int| 0 <= j < i ==> text_lt((#[trigger] before[j]).0, key@),
            decreases self.entries.len() - i,
        {
            match compare(self.entries[i].0.as_str(), key.as_str()) {
                Order::Before => {
                    i += 1;
                },
                Order::Same => {
                    let mut slot = (key, value);
                    std::mem::swap(&mut self.entries[i], &mut slot);
                    proof {
                        assert(before[i as int].0 == key@);
                        lemma_key_once(before, i as int, key_index(before, key@));
                        assert(self@ =~= before.update(i as int, (key@, value@)));
                        assert(self@[i as int] == (key@, value@));
                    }
                    return Some(slot.1);
                },
                Order::After => {
                    proof {
                        lemma_goes_here(before, i as int, key@);
                    }
                    self.entries.insert(i, (key, value));
                    proof {
                        assert(self@ =~= before.insert(i as int, (key@, value@)));
                        assert(self@[i as int] == (key@, value@));
                    }
                    return None;
                },
            }
        }
        proof {
            lemma_goes_here(before, i as int, key@);
        }
        self.entries.push((key, value));
        proof {
            assert(self@ =~= before.insert(i as int, (key@, value@)));
            assert(self@[i as int] == (key@, value@));
        }
        None
    }
}

/// A key that comes after the first `at` keys of sorted tags and before the
/// next one is none of their keys, and with it at that position the tags are
/// sorted still.
proof fn lemma_goes_here(tags: TagSeq, at: int, key: Seq<char>)
    requires
        keys_sorted(tags),
        0 <= at <= tags.len(),
        forall|j: int| 0 <= j < at ==> text_lt((#[trigger] tags[j]).0, key),
        at < tags.len() ==> text_lt(key, tags[at].0),
    ensures
        !has_key(tags, key),
        forall|value: Seq<char>| keys_sorted(#[trigger] tags.insert(at, (key, value))),
{
    assert forall|j: int| at <= j < tags.len() implies text_lt(key, (#[trigger] tags[j]).0) by {
        if at < j {
            lemma_lt_transitive(key, tags[at].0, tags[j].0);
        }
    }
    assert forall|j: int| 0 <= j < tags.len() implies (#[trigger] tags[j]).0 != key by {
        lemma_lt_irreflexive(key);
    }
    assert forall|value: Seq<char>| keys_sorted(#[trigger] tags.insert(at, (key, value))) by {
        let next = tags.insert(at, (key, value));
        assert forall|i: int, j: int| 0 <= i < j < next.len() implies text_lt(
            (#[trigger] next[i]).0,
            (#[trigger] next[j]).0,
        ) by {
            let a = if i < at { i } else { i - 1 };
            let b = if j < at { j } else { j - 1 };
            if i != at && j != at {
                assert(text_lt(tags[a].0, tags[b].0));
            } else if i == at {
                assert(text_lt(key, tags[b].0));
            } else {
                assert(text_lt(tags[a].0, key));
            }
        }
    }
}

} // verus!
