use vstd::prelude::*;

use crate::text::str_eq;

verus! {

/// A tool call seen by what identifies it: the tool's name and its arguments.
pub type CallKey = (Seq<char>, Seq<char>);

/// How many times in a row one tool call has met some condition.
pub struct CallCount {
    pub name: String,
    pub args: String,
    pub count: usize,
}

pub open spec fn count_key(c: CallCount) -> CallKey {
    (c.name@, c.args@)
}

/// Whether some entry of `entries` is for `key`.
pub open spec fn has_key(entries: Seq<CallCount>, key: CallKey) -> bool {
    exists|i: int| 0 <= i < entries.len() && count_key(#[trigger] entries[i]) == key
}

/// No two entries are for the same call.
pub open spec fn keys_unique(entries: Seq<CallCount>) -> bool {
    forall|i: int, j: int|
        0 <= i < entries.len() && 0 <= j < entries.len() && i != j ==> count_key(#[trigger] entries[i])
            != count_key(#[trigger] entries[j])
}

/// The count recorded for `key`; a call never counted has count zero.
pub open spec fn count_for(entries: Seq<CallCount>, key: CallKey) -> nat {
    if has_key(entries, key) {
        entries[choose|i: int| 0 <= i < entries.len() && count_key(#[trigger] entries[i]) == key].count as nat
    } else {
        0
    }
}

/// Counts per tool call: what the runtime keeps to notice the same call
/// failing or timing out again and again.
pub struct CallCounter {
    pub entries: Vec<CallCount>,
}

proof fn lemma_count_at(entries: Seq<CallCount>, i: int)
    requires
        keys_unique(entries),
        0 <= i < entries.len(),
    ensures
        count_for(entries, count_key(entries[i])) == entries[i].count,
{
    let key = count_key(entries[i]);
    assert(has_key(entries, key));
    let w = choose|j: int| 0 <= j < entries.len() && count_key(#[trigger] entries[j]) == key;
    assert(w == i);
}

impl CallCounter {
    pub open spec fn well_formed(&self) -> bool {
        keys_unique(self.entries@)
    }

    /// The count of a call.
    pub open spec fn count_of(&self, key: CallKey) -> nat {
        count_for(self.entries@, key)
    }

    pub fn new() -> (r: Self)
        ensures
            r.well_formed(),
            forall|k: CallKey| r.count_of(k) == 0,
    {
        CallCounter { entries: Vec::new() }
    }

    fn find(&self, name: &str, args: &str) -> (r: Option<usize>)
        requires
            self.well_formed(),
        ensures
            match r {
                Some(i) => i < self.entries@.len() && count_key(self.entries@[i as int]) == (
                name@,
                args@,
                ),
                None => !has_key(self.entries@, (name@, args@)),
            },
    {
        let mut i: usize = 0;
        while i < self.entries.len()
            invariant
                i <= self.entries@.len(),
                forall|j: int| 0 <= j < i ==> count_key(#[trigger] self.entries@[j]) != (name@, args@),
            decreases self.entries@.len() - i,
        {
            let e = &self.entries[i];
            if str_eq(e.name.as_str(), name) && str_eq(e.args.as_str(), args) {
                return Some(i);
            }
            i += 1;
        }
        None
    }

    /// The count of the call `name` with arguments `args`.
    pub fn count(&self, name: &str, args: &str) -> (r: usize)
        requires
            self.well_formed(),
        ensures
            r == self.count_of((name@, args@)),
    {
        match self.find(name, args) {
            Some(i) => {
                proof {
                    lemma_count_at(self.entries@, i as int);
                }
                self.entries[i].count
            },
            None => 0,
        }
    }

    fn set_count(&mut self, name: &str, args: &str, value: usize)
        requires
            old(self).well_formed(),
        ensures
            final(self).well_formed(),
            final(self).count_of((name@, args@)) == value,
            forall|k: CallKey| k != (name@, args@) ==> final(self).count_of(k) == old(self).count_of(k),
    {
        let ghost key = (name@, args@);
        let ghost before = self.entries@;
        match self.find(name, args) {
            Some(i) => {
                let e = CallCount {
                    name: crate::text::copy_string(name),
                    args: crate::text::copy_string(args),
                    count: value,
                };
                self.entries.set(i, e);
                proof {
                    let after = self.entries@;
                    assert forall|a: int, b: int|
                        0 <= a < after.len() && 0 <= b < after.len() && a != b implies count_key(
                        #[trigger] after[a],
                    ) != count_key(#[trigger] after[b]) by {
                        assert(count_key(after[a]) == count_key(before[a]));
                        assert(count_key(after[b]) == count_key(before[b]));
                    }
                    lemma_count_at(after, i as int);
                    assert forall|k: CallKey| k != key implies count_for(after, k) == count_for(
                        before,
                        k,
                    ) by {
                        if has_key(before, k) {
                            let w = choose|j: int| 0 <= j < before.len() && count_key(#[trigger] before[j]) == k;
                            assert(count_key(after[w]) == k);
                            lemma_count_at(before, w);
                            lemma_count_at(after, w);
                        } else if has_key(after, k) {
                            let w = choose|j: int| 0 <= j < after.len() && count_key(#[trigger] after[j]) == k;
                            assert(count_key(before[w]) == k);
                        }
                    }
                }
            },
            None => {
                let e = CallCount {
                    name: crate::text::copy_string(name),
                    args: crate::text::copy_string(args),
                    count: value,
                };
                self.entries.push(e);
                proof {
                    let after = self.entries@;
                    let n = before.len() as int;
                    assert forall|a: int, b: int|
                        0 <= a < after.len() && 0 <= b < after.len() && a != b implies count_key(
                        #[trigger] after[a],
                    ) != count_key(#[trigger] after[b]) by {
                        if a == n {
                            assert(count_key(before[b]) != key);
                        } else if b == n {
                            assert(count_key(before[a]) != key);
                        }
                    }
                    lemma_count_at(after, n);
                    assert forall|k: CallKey| k != key implies count_for(after, k) == count_for(
                        before,
                        k,
                    ) by {
                        if has_key(before, k) {
                            let w = choose|j: int| 0 <= j < before.len() && count_key(#[trigger] before[j]) == k;
                            assert(after[w] == before[w]);
                            lemma_count_at(before, w);
                            lemma_count_at(after, w);
                        } else if has_key(after, k) {
                            let w = choose|j: int| 0 <= j < after.len() && count_key(#[trigger] after[j]) == k;
                            assert(w != n);
                            assert(after[w] == before[w]);
                        }
                    }
                }
            },
        }
    }

    /// Forgets the call: its count is zero again.
    pub fn reset(&mut self, name: &str, args: &str)
        requires
            old(self).well_formed(),
        ensures
            final(self).well_formed(),
            final(self).count_of((name@, args@)) == 0,
            forall|k: CallKey| k != (name@, args@) ==> final(self).count_of(k) == old(self).count_of(k),
    {
        self.set_count(name, args, 0);
    }

    /// Counts the call once more and returns its new count (which stays at
    /// `usize::MAX` once it gets there).
    pub fn increment(&mut self, name: &str, args: &str) -> (r: usize)
        requires
            old(self).well_formed(),
        ensures
            final(self).well_formed(),
            r == final(self).count_of((name@, args@)),
            old(self).count_of((name@, args@)) < usize::MAX ==> r == old(self).count_of((name@, args@))
                + 1,
            old(self).count_of((name@, args@)) == usize::MAX ==> r == usize::MAX,
            forall|k: CallKey| k != (name@, args@) ==> final(self).count_of(k) == old(self).count_of(k),
    {
        let c = self.count(name, args);
        let next = if c < usize::MAX {
            c + 1
        } else {
            c
        };
        self.set_count(name, args, next);
        next
    }
}

/// The tool calls that succeeded during one provider pass.
pub struct CallSet {
    pub entries: Vec<(String, String)>,
}

pub open spec fn pair_key(p: (String, String)) -> CallKey {
    (p.0@, p.1@)
}

impl CallSet {
    /// Whether the set holds the call.
    pub open spec fn has(&self, key: CallKey) -> bool {
        exists|i: int| 0 <= i < self.entries@.len() && pair_key(#[trigger] self.entries@[i]) == key
    }

    pub fn new() -> (r: Self)
        ensures
            forall|k: CallKey| !r.has(k),
    {
        CallSet { entries: Vec::new() }
    }

    /// Whether the call `name` with arguments `args` is in the set.
    pub fn contains(&self, name: &str, args: &str) -> (r: bool)
        ensures
            r == self.has((name@, args@)),
    {
        let mut i: usize = 0;
        while i < self.entries.len()
            invariant
                i <= self.entries@.len(),
                forall|j: int| 0 <= j < i ==> pair_key(#[trigger] self.entries@[j]) != (name@, args@),
            decreases self.entries@.len() - i,
        {
            let e = &self.entries[i];
            if str_eq(e.0.as_str(), name) && str_eq(e.1.as_str(), args) {
                return true;
            }
            i += 1;
        }
        false
    }

    /// Adds the call to the set.
    pub fn insert(&mut self, name: &str, args: &str)
        ensures
            final(self).has((name@, args@)),
            forall|k: CallKey| k != (name@, args@) ==> final(self).has(k) == old(self).has(k),
    {
        let ghost before = self.entries@;
        self.entries.push((crate::text::copy_string(name), crate::text::copy_string(args)));
        proof {
            let after = self.entries@;
            assert(pair_key(after[before.len() as int]) == (name@, args@));
            assert forall|k: CallKey| k != (name@, args@) implies self.has(k) == (exists|i: int|
                0 <= i < before.len() && pair_key(#[trigger] before[i]) == k) by {
                if self.has(k) {
                    let w = choose|i: int| 0 <= i < after.len() && pair_key(#[trigger] after[i]) == k;
                    assert(w < before.len());
                    assert(after[w] == before[w]);
                }
                if exists|i: int| 0 <= i < before.len() && pair_key(#[trigger] before[i]) == k {
                    let w = choose|i: int| 0 <= i < before.len() && pair_key(#[trigger] before[i]) == k;
                    assert(after[w] == before[w]);
                }
            }
        }
    }

    /// Adds the call unless it is there already; returns whether it was new.
    pub fn insert_new(&mut self, name: &str, args: &str) -> (r: bool)
        ensures
            r == !old(self).has((name@, args@)),
            final(self).has((name@, args@)),
            forall|k: CallKey| k != (name@, args@) ==> final(self).has(k) == old(self).has(k),
    {
        if self.contains(name, args) {
            false
        } else {
            self.insert(name, args);
            true
        }
    }
}

} // verus!
