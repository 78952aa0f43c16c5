//! Registries of requests in flight, keyed by their ids: the cancellation
//! handles of model pulls and chats, and the answer channels of pending
//! tool approvals.

use vstd::prelude::*;
use crate::text::{concat2, concat3, str_eq};

verus! {

/// The index of the first entry with key `key`, or the number of entries.
pub open spec fn key_index<T>(entries: Seq<(String, T)>, key: Seq<char>) -> nat
    decreases entries.len(),
{
    if entries.len() == 0 {
        0
    } else if entries[0].0@ == key {
        0
    } else {
        1 + key_index(entries.drop_first(), key)
    }
}

/// No key occurs twice.
pub open spec fn unique_keys<T>(entries: Seq<(String, T)>) -> bool {
    forall|i: int, j: int|
        0 <= i < j < entries.len() ==> (#[trigger] entries[i]).0@ != (#[trigger] entries[j]).0@
}

proof fn lemma_key_index<T>(entries: Seq<(String, T)>, key: Seq<char>)
    ensures
        key_index(entries, key) <= entries.len(),
        key_index(entries, key) < entries.len() ==> entries[key_index(entries, key) as int].0@
            == key,
        forall|i: int| 0 <= i < key_index(entries, key) ==> entries[i].0@ != key,
    decreases entries.len(),
{
    if entries.len() > 0 && entries[0].0@ != key {
        lemma_key_index(entries.drop_first(), key);
        assert forall|i: int| 0 <= i < key_index(entries, key) implies entries[i].0@ != key by {
            if i > 0 {
                assert(entries[i] == entries.drop_first()[i - 1]);
            }
        }
    }
}

/// Where a key stands among unique keys.
proof fn lemma_key_index_at<T>(entries: Seq<(String, T)>, key: Seq<char>, j: int)
    requires
        unique_keys(entries),
        0 <= j < entries.len(),
        entries[j].0@ == key,
    ensures
        key_index(entries, key) == j,
{
    lemma_key_index(entries, key);
    if key_index(entries, key) < j {
        assert(entries[key_index(entries, key) as int].0@ == entries[j].0@);
    }
}

/// A key that no entry has.
proof fn lemma_key_index_absent<T>(entries: Seq<(String, T)>, key: Seq<char>)
    requires
        forall|j: int| 0 <= j < entries.len() ==> entries[j].0@ != key,
    ensures
        key_index(entries, key) == entries.len(),
{
    lemma_key_index(entries, key);
}

/// The entries as a map from key to value.
pub open spec fn entries_map<T>(entries: Seq<(String, T)>) -> Map<Seq<char>, T> {
    Map::new(
        |k: Seq<char>| key_index(entries, k) < entries.len(),
        |k: Seq<char>| entries[key_index(entries, k) as int].1,
    )
}

/// Requests in flight, each under its own id.
pub struct RequestRegistry<T> {
    entries: Vec<(String, T)>,
}

impl<T> View for RequestRegistry<T> {
    type V = Map<Seq<char>, T>;

    closed spec fn view(&self) -> Map<Seq<char>, T> {
        entries_map(self.entries@)
    }
}

impl<T> RequestRegistry<T> {
    /// No id is registered twice.
    pub closed spec fn wf(&self) -> bool {
        unique_keys(self.entries@)
    }

    /// A registry with no requests.
    pub fn new() -> (r: RequestRegistry<T>)
        ensures
            r.wf(),
            r@ == Map::<Seq<char>, T>::empty(),
    {
        let r = RequestRegistry { entries: Vec::new() };
        proof {
            assert(r@ =~= Map::<Seq<char>, T>::empty());
        }
        r
    }

    fn find(&self, id: &str) -> (r: usize)
        ensures
            r == key_index(self.entries@, id@),
    {
        let n = self.entries.len();
        let mut i: usize = 0;
        proof {
            lemma_key_index(self.entries@, id@);
        }
        while i < n && !str_eq(self.entries[i].0.as_str(), id)
            invariant
                n == self.entries@.len(),
                i <= n,
                key_index(self.entries@, id@) <= n,
                forall|k: int| 0 <= k < i ==> self.entries@[k].0@ != id@,
                key_index(self.entries@, id@) < n ==> self.entries@[key_index(
                    self.entries@,
                    id@,
                ) as int].0@ == id@,
                forall|k: int| 0 <= k < key_index(self.entries@, id@) ==> self.entries@[k].0@ != id@,
            decreases n - i,
        {
            i = i + 1;
        }
        i
    }

    /// Whether a request with this id is in flight.
    pub fn contains(&self, id: &str) -> (r: bool)
        ensures
            r == self@.contains_key(id@),
    {
        self.find(id) < self.entries.len()
    }

    /// Registers `value` under `id`. An id already in flight is refused with
    /// `<label> request <id> is already active`, and nothing changes.
    pub fn register(&mut self, label: &str, id: &str, value: T) -> (r: Result<(), String>)
        requires
            old(self).wf(),
        ensures
            final(self).wf(),
            old(self)@.contains_key(id@) ==> (r matches Err(e) && e@ == label@ + " request "@ + id@
                + " is already active"@ && final(self)@ == old(self)@),
            !old(self)@.contains_key(id@) ==> (r is Ok && final(self)@ == old(self)@.insert(
                id@,
                value,
            )),
    {
        if self.contains(id) {
            let head = concat3(label, " request ", id);
            return Err(concat2(head.as_str(), " is already active"));
        }
        let ghost before = self.entries@;
        self.entries.push((id.to_owned(), value));
        proof {
            let after = self.entries@;
            lemma_key_index(before, id@);
            assert(after[before.len() as int].0@ == id@);
            assert(after.len() == before.len() + 1);
            assert forall|i: int, j: int| 0 <= i < j < after.len() implies (
            #[trigger] after[i]).0@ != (#[trigger] after[j]).0@ by {
                if j == before.len() {
                    assert(after[i] == before[i]);
                    if before[i].0@ == id@ {
                        lemma_key_index(before, id@);
                    }
                } else {
                    assert(after[i] == before[i] && after[j] == before[j]);
                }
            }
            assert(unique_keys(after));
            lemma_key_index_at(after, id@, before.len() as int);
            assert forall|k: Seq<char>| k != id@ implies (#[trigger] entries_map(after).contains_key(k)
                == entries_map(before).contains_key(k) && (entries_map(after).contains_key(k)
                ==> entries_map(after)[k] == entries_map(before)[k])) by {
                lemma_key_index(before, k);
                if key_index(before, k) < before.len() {
                    assert(after[key_index(before, k) as int] == before[key_index(before, k) as int]);
                    lemma_key_index_at(after, k, key_index(before, k) as int);
                } else {
                    assert forall|j: int| 0 <= j < after.len() implies after[j].0@ != k by {
                        if j < before.len() {
                            assert(after[j] == before[j]);
                        }
                    }
                    lemma_key_index_absent(after, k);
                }
            }
            assert(self@ =~= entries_map(before).insert(id@, value));
        }
        Ok(())
    }

    /// The value registered under `id`.
    pub fn get(&self, id: &str) -> (r: Option<&T>)
        ensures
            match r {
                Some(v) => self@.contains_key(id@) && self@[id@] == *v,
                None => !self@.contains_key(id@),
            },
    {
        let i = self.find(id);
        if i < self.entries.len() {
            Some(&self.entries[i].1)
        } else {
            None
        }
    }

    /// Takes the value registered under `id` out of the registry.
    pub fn remove(&mut self, id: &str) -> (r: Option<T>)
        requires
            old(self).wf(),
        ensures
            final(self).wf(),
            final(self)@ == old(self)@.remove(id@),
            match r {
                Some(v) => old(self)@.contains_key(id@) && old(self)@[id@] == v,
                None => !old(self)@.contains_key(id@),
            },
    {
        let i = self.find(id);
        if i >= self.entries.len() {
            proof {
                assert(self@ =~= self@.remove(id@));
            }
            return None;
        }
        let ghost before = self.entries@;
        let (_, value) = self.entries.remove(i);
        proof {
            let after = self.entries@;
            lemma_key_index(before, id@);
            assert forall|a: int, b: int| 0 <= a < b < after.len() implies (
            #[trigger] after[a]).0@ != (#[trigger] after[b]).0@ by {
                let a0 = if a < i { a } else { a + 1 };
                let b0 = if b < i { b } else { b + 1 };
                assert(after[a] == before[a0] && after[b] == before[b0]);
            }
            assert forall|k: Seq<char>| k != id@ implies #[trigger] key_index(after, k) == if key_index(
                before,
                k,
            ) < before.len() {
                if key_index(before, k) < i {
                    key_index(before, k)
                } else {
                    (key_index(before, k) - 1) as nat
                }
            } else {
                after.len() as nat
            } by {
                lemma_key_index(before, k);
                let j = key_index(before, k) as int;
                if j < before.len() {
                    assert(j != i);
                    let j2 = if j < i { j } else { j - 1 };
                    assert(after[j2] == before[j]);
                    lemma_key_index_at(after, k, j2);
                } else {
                    assert forall|m: int| 0 <= m < after.len() implies after[m].0@ != k by {
                        let m0 = if m < i { m } else { m + 1 };
                        assert(after[m] == before[m0]);
                    }
                    lemma_key_index_absent(after, k);
                }
            }
            assert forall|m: int| 0 <= m < after.len() implies after[m].0@ != id@ by {
                let m0 = if m < i { m } else { m + 1 };
                assert(after[m] == before[m0]);
                assert(m0 != i);
            }
            lemma_key_index_absent(after, id@);
            assert forall|k: Seq<char>| #[trigger] entries_map(after).contains_key(k) == entries_map(
                before,
            ).remove(id@).contains_key(k) by {
                lemma_key_index(before, k);
            }
            assert forall|k: Seq<char>| #[trigger] entries_map(after).contains_key(k) implies entries_map(
                after,
            )[k] == entries_map(before)[k] by {
                lemma_key_index(before, k);
                let j = key_index(before, k) as int;
                let j2 = if j < i { j } else { j - 1 };
                assert(after[j2] == before[j]);
            }
            assert(self@ =~= entries_map(before).remove(id@));
        }
        Some(value)
    }
}

impl<T> RequestRegistry<T> {
    /// Takes the pending approval `id` out of the registry, or says that
    /// there is none.
    pub fn take_pending(&mut self, id: &str) -> (r: Result<T, String>)
        requires
            old(self).wf(),
        ensures
            final(self).wf(),
            final(self)@ == old(self)@.remove(id@),
            old(self)@.contains_key(id@) ==> r == Ok::<T, String>(old(self)@[id@]),
            !old(self)@.contains_key(id@) ==> (r matches Err(e) && e@
                == "No pending approval found for "@ + id@),
    {
        match self.remove(id) {
            Some(v) => Ok(v),
            None => Err(concat2("No pending approval found for ", id)),
        }
    }
}

} // verus!
