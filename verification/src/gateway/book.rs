//! A small map from texts to values.

use crate::text::{
    comes_before, lemma_precedes_total, lemma_precedes_transitive, precedes, same_text,
};
use vstd::prelude::*;

verus! {

/// Values by name. Of two entries with one name the later counts.
#[derive(Debug)]
pub struct Book<V> {
    pub entries: Vec<(String, V)>,
}

pub open spec fn pairs_map<V>(s: Seq<(String, V)>) -> Map<Seq<char>, V>
    decreases s.len(),
{
    if s.len() == 0 {
        Map::empty()
    } else {
        pairs_map(s.drop_last()).insert(s.last().0@, s.last().1)
    }
}

pub proof fn lemma_pairs_keys<V>(s: Seq<(String, V)>, k: Seq<char>)
    ensures
        pairs_map(s).contains_key(k) <==> exists|i: int|
            0 <= i < s.len() && (#[trigger] s[i]).0@ == k,
    decreases s.len(),
{
    if s.len() > 0 {
        let init = s.drop_last();
        lemma_pairs_keys(init, k);
        if pairs_map(init).contains_key(k) {
            let i = choose|i: int| 0 <= i < init.len() && (#[trigger] init[i]).0@ == k;
            assert(s[i].0@ == k);
        }
        if k == s.last().0@ {
            assert(s[s.len() - 1].0@ == k);
        }
        if exists|i: int| 0 <= i < s.len() && (#[trigger] s[i]).0@ == k {
            let i = choose|i: int| 0 <= i < s.len() && (#[trigger] s[i]).0@ == k;
            if i < s.len() - 1 {
                assert(init[i].0@ == k);
            }
        }
    }
}

proof fn lemma_removed_pair<V>(s: Seq<(String, V)>, i: int)
    requires
        0 <= i < s.len(),
    ensures
        pairs_map(s.remove(i)).remove(s[i].0@) == pairs_map(s).remove(s[i].0@),
    decreases s.len(),
{
    let key = s[i].0@;
    let init = s.drop_last();
    if i == s.len() - 1 {
        assert(s.remove(i) =~= init);
        assert(pairs_map(s).remove(key) =~= pairs_map(init).remove(key));
    } else {
        assert(s.remove(i).drop_last() =~= init.remove(i));
        assert(s.remove(i).last() == s.last());
        lemma_removed_pair(init, i);
        let a = pairs_map(init.remove(i));
        let b = pairs_map(init);
        let k = s.last().0@;
        let v = s.last().1;
        assert(a.remove(key) == b.remove(key));
        assert forall|x: Seq<char>| x != key implies #[trigger] a.contains_key(x)
            == b.contains_key(x) && (a.contains_key(x) ==> a[x] == b[x]) by {
            assert(a.remove(key).contains_key(x) == b.remove(key).contains_key(x));
            assert(a.remove(key)[x] == b.remove(key)[x]);
        }
        assert(a.insert(k, v).remove(key) =~= b.insert(k, v).remove(key));
    }
}

/// A list of names in their order, each once.
pub open spec fn ascending(s: Seq<String>) -> bool {
    forall|i: int, j: int| 0 <= i < j < s.len() ==> precedes((#[trigger] s[i])@, (#[trigger] s[j])@)
}

/// Whether a name is on a list.
pub open spec fn listed(s: Seq<String>, k: Seq<char>) -> bool {
    exists|i: int| 0 <= i < s.len() && (#[trigger] s[i])@ == k
}

/// Puts a name in its place on a list, unless it is there.
pub fn list_name(list: &mut Vec<String>, name: &String)
    requires
        ascending(old(list)@),
    ensures
        ascending(final(list)@),
        forall|k: Seq<char>| #[trigger]
            listed(final(list)@, k) <==> listed(old(list)@, k) || k == name@,
{
    let ghost before = list@;
    let mut at: usize = 0;
    while at < list.len() && comes_before(list[at].as_str(), name.as_str())
        invariant
            at <= list@.len(),
            list@ == before,
            forall|j: int| 0 <= j < at ==> precedes((#[trigger] before[j])@, name@),
        decreases list@.len() - at,
    {
        at = at + 1;
    }
    if at < list.len() && same_text(list[at].as_str(), name.as_str()) {
        assert(before[at as int]@ == name@);
        return;
    }
    list.insert(at, name.clone());
    proof {
        let after = list@;
        assert(after[at as int]@ == name@);
        if at < before.len() {
            lemma_precedes_total(before[at as int]@, name@);
        }
        assert forall|i: int, j: int| 0 <= i < j < after.len() implies precedes(
            (#[trigger] after[i])@,
            (#[trigger] after[j])@,
        ) by {
            if j == at {
                assert(after[i] == before[i]);
            } else if i == at {
                assert(after[j] == before[j - 1]);
                if j - 1 > at {
                    lemma_precedes_transitive(name@, before[at as int]@, before[j - 1]@);
                }
            } else {
                let a = if i < at {
                    i
                } else {
                    i - 1
                };
                let b = if j < at {
                    j
                } else {
                    j - 1
                };
                assert(after[i] == before[a] && after[j] == before[b]);
            }
        }
        assert forall|k: Seq<char>| #[trigger] listed(after, k) <==> listed(before, k) || k
            == name@ by {
            if listed(after, k) {
                let i = choose|i: int| 0 <= i < after.len() && (#[trigger] after[i])@ == k;
                if i < at {
                    assert(before[i]@ == k);
                } else if i > at {
                    assert(before[i - 1]@ == k);
                }
            }
            if listed(before, k) {
                let i = choose|i: int| 0 <= i < before.len() && (#[trigger] before[i])@ == k;
                if i < at {
                    assert(after[i]@ == k);
                } else {
                    assert(after[i + 1]@ == k);
                }
            }
        }
    }
}

impl<V> Book<V> {
    pub open spec fn view(&self) -> Map<Seq<char>, V> {
        pairs_map(self.entries@)
    }

    pub fn new() -> (r: Book<V>)
        ensures
            r@ == Map::<Seq<char>, V>::empty(),
    {
        Book { entries: Vec::new() }
    }

    pub fn get(&self, key: &str) -> (r: Option<&V>)
        ensures
            match r {
                Some(v) => self@.contains_key(key@) && *v == self@[key@],
                None => !self@.contains_key(key@),
            },
    {
        let entries = &self.entries;
        let mut i: usize = entries.len();
        assert(entries@.subrange(0, i as int) =~= entries@);
        while i > 0
            invariant
                i <= entries@.len(),
                entries == &self.entries,
                self@.contains_key(key@) == pairs_map(
                    entries@.subrange(0, i as int),
                ).contains_key(key@),
                self@.contains_key(key@) ==> self@[key@] == pairs_map(
                    entries@.subrange(0, i as int),
                )[key@],
            decreases i,
        {
            let ghost upto = entries@.subrange(0, i as int);
            assert(upto.drop_last() =~= entries@.subrange(0, i - 1));
            i = i - 1;
            if same_text(entries[i].0.as_str(), key) {
                return Some(&entries[i].1);
            }
        }
        None
    }

    pub fn remove(&mut self, key: &str)
        ensures
            final(self)@ == old(self)@.remove(key@),
    {
        let mut i: usize = self.entries.len();
        while i > 0
            invariant
                i <= self.entries@.len(),
                self@.remove(key@) == old(self)@.remove(key@),
                forall|j: int| i <= j < self.entries@.len() ==> (#[trigger] self.entries@[j]).0@
                    != key@,
            decreases i,
        {
            i = i - 1;
            if same_text(self.entries[i].0.as_str(), key) {
                proof {
                    lemma_removed_pair(self.entries@, i as int);
                }
                let ghost before = self.entries@;
                self.entries.remove(i);
                assert(self.entries@ =~= before.remove(i as int));
                assert forall|j: int| i <= j < self.entries@.len() implies (
                #[trigger] self.entries@[j]).0@ != key@ by {
                    assert(self.entries@[j] == before[j + 1]);
                }
            }
        }
        proof {
            lemma_pairs_keys(self.entries@, key@);
            assert(self@ =~= self@.remove(key@));
        }
    }

    pub fn insert(&mut self, key: &str, value: V)
        ensures
            final(self)@ == old(self)@.insert(key@, value),
    {
        self.remove(key);
        let ghost before = self.entries@;
        self.entries.push((key.to_owned(), value));
        assert(self.entries@.drop_last() =~= before);
        assert(self@ =~= old(self)@.insert(key@, value));
    }

    /// Adds every name to a list in its order.
    pub fn list_names(&self, list: &mut Vec<String>)
        requires
            ascending(old(list)@),
        ensures
            ascending(final(list)@),
            forall|k: Seq<char>| #[trigger]
                listed(final(list)@, k) <==> listed(old(list)@, k) || self@.contains_key(k),
    {
        let entries = &self.entries;
        let ghost before = list@;
        let mut i: usize = 0;
        while i < entries.len()
            invariant
                i <= entries@.len(),
                entries == &self.entries,
                ascending(list@),
                forall|k: Seq<char>| #[trigger]
                    listed(list@, k) <==> listed(before, k) || exists|j: int|
                        0 <= j < i && (#[trigger] entries@[j]).0@ == k,
            decreases entries@.len() - i,
        {
            list_name(list, &entries[i].0);
            assert(entries@[i as int].0@ == entries@[i as int].0@);
            i = i + 1;
        }
        proof {
            assert forall|k: Seq<char>| #[trigger] listed(list@, k) <==> listed(before, k)
                || self@.contains_key(k) by {
                lemma_pairs_keys(entries@, k);
            }
        }
    }
}

} // verus!
