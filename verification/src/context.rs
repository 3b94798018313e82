//! The context store: named JSON documents that independently run agents
//! hand to one another.
//!
//! The store is plain data. A caller that shares one store among agents
//! that run at the same time puts it behind a lock of its own; every
//! operation here is then one step under that lock.

use vstd::prelude::*;
use vstd::string::StringExecFns;
use crate::json::{json_pretty, Json, JsonTree};
use crate::text::{text_eq, to_uppercase, uppercase};
use crate::value::{join, joined, views};

verus! {

/// A store of JSON documents by key.
#[derive(Debug, PartialEq)]
pub struct Context {
    entries: Vec<(String, Json)>,
}

/// What a store holds under `key`.
pub open spec fn stored(m: Map<Seq<char>, JsonTree>, key: Seq<char>) -> Option<JsonTree> {
    if m.dom().contains(key) {
        Some(m[key])
    } else {
        None
    }
}

/// The view of an optional document.
pub open spec fn opt_tree(j: Option<Json>) -> Option<JsonTree> {
    match j {
        Some(d) => Some(d@),
        None => None,
    }
}

/// The block that shows the document stored under `key`: the key in upper
/// case between `===` marks, then the document over several lines.
pub open spec fn context_block(key: Seq<char>, doc: JsonTree) -> Seq<char> {
    "=== "@ + uppercase(key) + " ===\n"@ + json_pretty(doc)
}

/// The blocks for the first `n` of `reads`, in order, one for each key that
/// the store holds.
pub open spec fn context_blocks(
    reads: Seq<Seq<char>>,
    m: Map<Seq<char>, JsonTree>,
    n: int,
) -> Seq<Seq<char>>
    decreases n,
{
    if n <= 0 || n > reads.len() {
        Seq::empty()
    } else if m.dom().contains(reads[n - 1]) {
        context_blocks(reads, m, n - 1).push(context_block(reads[n - 1], m[reads[n - 1]]))
    } else {
        context_blocks(reads, m, n - 1)
    }
}

/// The task as the model gets it: where the store holds one of `reads`,
/// the blocks of those it holds, wrapped in a context section, stand in
/// front of the task.
pub open spec fn injected(
    reads: Seq<Seq<char>>,
    m: Map<Seq<char>, JsonTree>,
    task: Seq<char>,
) -> Seq<char> {
    let blocks = context_blocks(reads, m, reads.len() as int);
    if blocks.len() == 0 {
        task
    } else {
        "<context>\n"@ + joined(blocks, "\n\n"@) + "\n</context>\n\n"@ + task
    }
}

impl View for Context {
    type V = Map<Seq<char>, JsonTree>;

    closed spec fn view(&self) -> Map<Seq<char>, JsonTree> {
        Map::new(
            |k: Seq<char>| exists|i: int| 0 <= i < self.entries.len() && self.entries[i].0@ == k,
            |k: Seq<char>| self.entries[self.index_of(k)].1@,
        )
    }
}

impl Context {
    /// The store is well formed: no key stands twice in it. Every operation
    /// keeps it so.
    pub closed spec fn wf(&self) -> bool {
        forall|i: int, j: int|
            0 <= i < self.entries.len() && 0 <= j < self.entries.len() && i != j
                ==> self.entries[i].0@ != self.entries[j].0@
    }

    /// An index at which `k` is stored.
    closed spec fn index_of(&self, k: Seq<char>) -> int {
        choose|i: int| 0 <= i < self.entries.len() && self.entries[i].0@ == k
    }

    /// A new, empty store.
    pub fn new() -> (c: Context)
        ensures
            c.wf(),
            c@ == Map::<Seq<char>, JsonTree>::empty(),
    {
        let c = Context { entries: Vec::new() };
        assert(c@ =~= Map::<Seq<char>, JsonTree>::empty());
        c
    }

    /// Where `key` is stored.
    fn position(&self, key: &str) -> (r: Option<usize>)
        ensures
            match r {
                Some(i) => i < self.entries.len() && self.entries[i as int].0@ == key@,
                None => forall|i: int| 0 <= i < self.entries.len() ==> self.entries[i].0@ != key@,
            },
    {
        let mut i: usize = 0;
        while i < self.entries.len()
            invariant
                0 <= i <= self.entries.len(),
                forall|j: int| 0 <= j < i ==> self.entries[j].0@ != key@,
            decreases self.entries.len() - i,
        {
            if text_eq(self.entries[i].0.as_str(), key) {
                return Some(i);
            }
            i += 1;
        }
        None
    }

    /// Where the entry at `i` stands, the store holds it under its key.
    proof fn lemma_entry(&self, i: int)
        requires
            self.wf(),
            0 <= i < self.entries.len(),
        ensures
            self@.dom().contains(self.entries[i].0@),
            self@[self.entries[i].0@] == self.entries[i].1@,
    {
        let k = self.entries[i].0@;
        assert(0 <= self.index_of(k) < self.entries.len() && self.entries[self.index_of(k)].0@
            == k);
    }

    /// Stores `value` under `key`, in place of what was there.
    pub fn set(&mut self, key: &str, value: Json)
        requires
            old(self).wf(),
        ensures
            final(self).wf(),
            final(self)@ == old(self)@.insert(key@, value@),
    {
        let ghost before = *self;
        let found = self.position(key);
        match found {
            Some(i) => {
                self.entries.set(i, (String::from_str(key), value));
            },
            None => {
                self.entries.push((String::from_str(key), value));
            },
        }
        proof {
            let after = *self;
            let at: int = match found {
                Some(i) => i as int,
                None => before.entries.len() as int,
            };
            assert(after.entries[at].0@ == key@ && after.entries[at].1@ == value@);
            assert forall|i: int, j: int|
                0 <= i < after.entries.len() && 0 <= j < after.entries.len() && i
                    != j implies after.entries[i].0@ != after.entries[j].0@ by {
                if i != at && j != at {
                    assert(after.entries[i] == before.entries[i]);
                    assert(after.entries[j] == before.entries[j]);
                } else if i == at {
                    assert(after.entries[j] == before.entries[j]);
                } else {
                    assert(after.entries[i] == before.entries[i]);
                }
            }
            assert forall|k: Seq<char>| #[trigger]
                after@.dom().contains(k) == before@.insert(key@, value@).dom().contains(k) by {
                if k == key@ {
                    after.lemma_entry(at);
                } else if before@.dom().contains(k) {
                    let i = before.index_of(k);
                    assert(after.entries[i] == before.entries[i]);
                    after.lemma_entry(i);
                } else if after@.dom().contains(k) {
                    let i = after.index_of(k);
                    assert(after.entries[i] == before.entries[i]);
                    before.lemma_entry(i);
                }
            }
            assert forall|k: Seq<char>| #[trigger]
                after@.dom().contains(k) implies after@[k] == before@.insert(key@, value@)[k] by {
                if k == key@ {
                    after.lemma_entry(at);
                } else {
                    let i = after.index_of(k);
                    assert(after.entries[i] == before.entries[i]);
                    before.lemma_entry(i);
                    after.lemma_entry(i);
                }
            }
            assert(after@ =~= before@.insert(key@, value@));
        }
    }

    /// A copy of what is stored under `key`.
    pub fn get(&self, key: &str) -> (r: Option<Json>)
        requires
            self.wf(),
        ensures
            opt_tree(r) == stored(self@, key@),
    {
        match self.position(key) {
            Some(i) => {
                proof {
                    self.lemma_entry(i as int);
                }
                Some(self.entries[i].1.copy())
            },
            None => None,
        }
    }

    /// A copy of what is stored under `key`, as the raw document.
    pub fn get_raw(&self, key: &str) -> (r: Option<Json>)
        requires
            self.wf(),
        ensures
            opt_tree(r) == stored(self@, key@),
    {
        self.get(key)
    }

    /// Whether something is stored under `key`.
    pub fn contains(&self, key: &str) -> (b: bool)
        requires
            self.wf(),
        ensures
            b == self@.dom().contains(key@),
    {
        match self.position(key) {
            Some(i) => {
                proof {
                    self.lemma_entry(i as int);
                }
                true
            },
            None => false,
        }
    }

    /// Takes out what is stored under `key`, and returns it.
    pub fn remove(&mut self, key: &str) -> (r: Option<Json>)
        requires
            old(self).wf(),
        ensures
            final(self).wf(),
            opt_tree(r) == stored(old(self)@, key@),
            final(self)@ == old(self)@.remove(key@),
    {
        let ghost before = *self;
        match self.position(key) {
            Some(i) => {
                proof {
                    before.lemma_entry(i as int);
                }
                let entry = self.entries.remove(i);
                proof {
                    let after = *self;
                    assert forall|a: int| 0 <= a < after.entries.len() implies after.entries[a]
                        == before.entries[if a < i {
                        a
                    } else {
                        a + 1
                    }] by {}
                    assert forall|a: int, b: int|
                        0 <= a < after.entries.len() && 0 <= b < after.entries.len() && a
                            != b implies after.entries[a].0@ != after.entries[b].0@ by {}
                    assert forall|k: Seq<char>| #[trigger]
                        after@.dom().contains(k) == before@.remove(key@).dom().contains(k) by {
                        if k != key@ && before@.dom().contains(k) {
                            let b = before.index_of(k);
                            let a = if b < i {
                                b
                            } else {
                                b - 1
                            };
                            after.lemma_entry(a);
                        } else if after@.dom().contains(k) {
                            let a = after.index_of(k);
                            let b = if a < i {
                                a
                            } else {
                                a + 1
                            };
                            before.lemma_entry(b);
                        }
                    }
                    assert forall|k: Seq<char>| #[trigger]
                        after@.dom().contains(k) implies after@[k] == before@.remove(key@)[k] by {
                        let a = after.index_of(k);
                        let b = if a < i {
                            a
                        } else {
                            a + 1
                        };
                        before.lemma_entry(b);
                        after.lemma_entry(a);
                    }
                    assert(after@ =~= before@.remove(key@));
                }
                Some(entry.1)
            },
            None => {
                assert(self@ =~= before@.remove(key@));
                None
            },
        }
    }

    /// The keys of the store, each once, in no particular order.
    pub fn keys(&self) -> (r: Vec<String>)
        requires
            self.wf(),
        ensures
            forall|k: Seq<char>| self@.dom().contains(k) <==> views(r@).contains(k),
            views(r@).no_duplicates(),
    {
        let mut r: Vec<String> = Vec::new();
        let mut i: usize = 0;
        while i < self.entries.len()
            invariant
                0 <= i <= self.entries.len(),
                r.len() == i,
                forall|j: int| 0 <= j < i ==> r[j]@ == self.entries[j].0@,
            decreases self.entries.len() - i,
        {
            r.push(self.entries[i].0.clone());
            i += 1;
        }
        proof {
            assert forall|k: Seq<char>| self@.dom().contains(k) <==> views(r@).contains(k) by {
                if self@.dom().contains(k) {
                    let j = self.index_of(k);
                    assert(views(r@)[j] == k);
                }
                if views(r@).contains(k) {
                    let j = choose|j: int| 0 <= j < views(r@).len() && views(r@)[j] == k;
                    self.lemma_entry(j);
                }
            }
            assert forall|a: int, b: int|
                0 <= a < views(r@).len() && 0 <= b < views(r@).len() && a != b implies views(
                r@,
            )[a] != views(r@)[b] by {
                assert(views(r@)[a] == self.entries[a].0@);
                assert(views(r@)[b] == self.entries[b].0@);
            }
        }
        r
    }

    /// Empties the store.
    pub fn clear(&mut self)
        ensures
            final(self).wf(),
            final(self)@ == Map::<Seq<char>, JsonTree>::empty(),
    {
        self.entries.clear();
        assert(self@ =~= Map::<Seq<char>, JsonTree>::empty());
    }

    /// Puts what the store holds under `reads` in front of `task`, as the
    /// model is to see it.
    pub fn inject(&self, reads: &Vec<String>, task: &str) -> (s: String)
        requires
            self.wf(),
        ensures
            s@ == injected(views(reads@), self@, task@),
    {
        let mut blocks: Vec<String> = Vec::new();
        let mut n: usize = 0;
        while n < reads.len()
            invariant
                self.wf(),
                0 <= n <= reads.len(),
                views(blocks@) == context_blocks(views(reads@), self@, n as int),
            decreases reads.len() - n,
        {
            let ghost prior = views(blocks@);
            match self.get(reads[n].as_str()) {
                Some(doc) => {
                    let mut block = String::from_str("=== ");
                    let upper = to_uppercase(reads[n].as_str());
                    block.append(upper.as_str());
                    block.append(" ===\n");
                    let shown = doc.to_pretty();
                    block.append(shown.as_str());
                    blocks.push(block);
                    assert(views(blocks@) =~= prior.push(
                        context_block(views(reads@)[n as int], self@[views(reads@)[n as int]]),
                    ));
                },
                None => {},
            }
            n += 1;
        }
        if blocks.len() == 0 {
            String::from_str(task)
        } else {
            let mut s = String::from_str("<context>\n");
            let body = join(&blocks, "\n\n");
            s.append(body.as_str());
            s.append("\n</context>\n\n");
            s.append(task);
            s
        }
    }
}

/// What is stored under a key is what was last set there, whatever was set
/// under other keys in between; a key that was removed, or never set, holds
/// nothing.
pub proof fn law_context_round_trip(
    m: Map<Seq<char>, JsonTree>,
    key: Seq<char>,
    value: JsonTree,
    other: Seq<char>,
    other_value: JsonTree,
)
    requires
        other != key,
    ensures
        stored(m.insert(key, value), key) == Some(value),
        stored(m.insert(key, value).insert(other, other_value), key) == Some(value),
        stored(m.insert(key, value).remove(other), key) == Some(value),
        stored(m.insert(key, value), other) == stored(m, other),
        stored(m.remove(key), key) is None,
        stored(Map::<Seq<char>, JsonTree>::empty(), key) is None,
{
}

} // verus!
