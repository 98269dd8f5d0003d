//! A map keyed by text.

use vstd::prelude::*;
use vstd::string::*;

use crate::text::same_text;

verus! {

/// `k` is the key of the entry at `i`.
pub open spec fn keyed_at<V>(entries: Seq<(String, V)>, k: Seq<char>, i: int) -> bool {
    0 <= i < entries.len() && entries[i].0@ == k
}

/// The place of the entry under `k`.
pub open spec fn place_of<V>(entries: Seq<(String, V)>, k: Seq<char>) -> int {
    choose|i: int| keyed_at(entries, k, i)
}

/// No two entries have the same key.
pub open spec fn distinct_keys<V>(entries: Seq<(String, V)>) -> bool {
    forall|i: int, j: int|
        0 <= i < j < entries.len() ==> (#[trigger] entries[i]).0@ != (#[trigger] entries[j]).0@
}

/// The map that a list of entries stands for.
pub open spec fn map_of<V: View>(entries: Seq<(String, V)>) -> Map<Seq<char>, V::V> {
    Map::new(
        |k: Seq<char>| exists|i: int| keyed_at(entries, k, i),
        |k: Seq<char>| entries[place_of(entries, k)].1@,
    )
}

/// A map from text to `V`, kept as a list of entries with distinct keys.
#[derive(Debug)]
pub struct TextMap<V: View> {
    entries: Vec<(String, V)>,
}

impl<V: View> View for TextMap<V> {
    type V = Map<Seq<char>, V::V>;

    closed spec fn view(&self) -> Map<Seq<char>, V::V> {
        map_of(self.entries@)
    }
}

proof fn lemma_place<V: View>(entries: Seq<(String, V)>, i: int)
    requires
        distinct_keys(entries),
        0 <= i < entries.len(),
    ensures
        map_of(entries).contains_key(entries[i].0@),
        map_of(entries)[entries[i].0@] == entries[i].1@,
        place_of(entries, entries[i].0@) == i,
{
    let k = entries[i].0@;
    assert(keyed_at(entries, k, i));
    let j = place_of(entries, k);
    assert(keyed_at(entries, k, j));
    if i < j {
        assert(entries[i].0@ != entries[j].0@);
    } else if j < i {
        assert(entries[j].0@ != entries[i].0@);
    }
}

proof fn lemma_push<V: View>(entries: Seq<(String, V)>, k: String, v: V)
    requires
        distinct_keys(entries),
        !map_of(entries).contains_key(k@),
    ensures
        distinct_keys(entries.push((k, v))),
        map_of(entries.push((k, v))) == map_of(entries).insert(k@, v@),
{
    let more = entries.push((k, v));
    assert(distinct_keys(more)) by {
        assert forall|i: int, j: int| 0 <= i < j < more.len() implies (#[trigger] more[i]).0@ != (
        #[trigger] more[j]).0@ by {
            if j == entries.len() && more[i].0@ == k@ {
                assert(keyed_at(entries, k@, i));
            }
        }
    }
    lemma_place(more, entries.len() as int);
    let m1 = map_of(more);
    let m2 = map_of(entries).insert(k@, v@);
    assert forall|x: Seq<char>|
        #![trigger m1.dom().contains(x)]
        #![trigger m2.dom().contains(x)]
        m1.dom().contains(x) == m2.dom().contains(x) && (m1.dom().contains(x) ==> m1[x]
            == m2[x]) by {
        if map_of(entries).contains_key(x) {
            let i = place_of(entries, x);
            assert(keyed_at(entries, x, i));
            lemma_place(entries, i);
            lemma_place(more, i);
        }
        if map_of(more).contains_key(x) {
            let i = place_of(more, x);
            assert(keyed_at(more, x, i));
            if i < entries.len() {
                assert(keyed_at(entries, x, i));
            }
        }
    }
    assert(m1 =~= m2);
}

proof fn lemma_update<V: View>(entries: Seq<(String, V)>, i: int, k: String, v: V)
    requires
        distinct_keys(entries),
        0 <= i < entries.len(),
        entries[i].0@ == k@,
    ensures
        distinct_keys(entries.update(i, (k, v))),
        map_of(entries.update(i, (k, v))) == map_of(entries).insert(k@, v@),
{
    let new = entries.update(i, (k, v));
    assert forall|a: int, b: int| 0 <= a < b < new.len() implies (#[trigger] new[a]).0@ != (
    #[trigger] new[b]).0@ by {
        assert(entries[a].0@ != entries[b].0@);
    }
    lemma_place(new, i);
    let m1 = map_of(new);
    let m2 = map_of(entries).insert(k@, v@);
    assert forall|x: Seq<char>|
        #![trigger m1.dom().contains(x)]
        #![trigger m2.dom().contains(x)]
        m1.dom().contains(x) == m2.dom().contains(x) && (m1.dom().contains(x) ==> m1[x]
            == m2[x]) by {
        if map_of(entries).contains_key(x) {
            let j = place_of(entries, x);
            assert(keyed_at(entries, x, j));
            assert(keyed_at(new, x, j));
            lemma_place(entries, j);
            lemma_place(new, j);
        }
        if map_of(new).contains_key(x) {
            let j = place_of(new, x);
            assert(keyed_at(new, x, j));
            assert(keyed_at(entries, x, j));
        }
    }
    assert(m1 =~= m2);
}

proof fn lemma_remove<V: View>(entries: Seq<(String, V)>, i: int)
    requires
        distinct_keys(entries),
        0 <= i < entries.len(),
    ensures
        distinct_keys(entries.remove(i)),
        map_of(entries.remove(i)) == map_of(entries).remove(entries[i].0@),
{
    let new = entries.remove(i);
    let k = entries[i].0@;
    assert forall|a: int, b: int| 0 <= a < b < new.len() implies (#[trigger] new[a]).0@ != (
    #[trigger] new[b]).0@ by {
        let a0 = if a < i { a } else { a + 1 };
        let b0 = if b < i { b } else { b + 1 };
        assert(entries[a0].0@ != entries[b0].0@);
    }
    let m1 = map_of(new);
    let m2 = map_of(entries).remove(k);
    assert forall|x: Seq<char>|
        #![trigger m1.dom().contains(x)]
        #![trigger m2.dom().contains(x)]
        m1.dom().contains(x) == m2.dom().contains(x) && (m1.dom().contains(x) ==> m1[x]
            == m2[x]) by {
        if map_of(entries).contains_key(x) && x != k {
            let j = place_of(entries, x);
            assert(keyed_at(entries, x, j));
            let j1 = if j < i { j } else { j - 1 };
            assert(keyed_at(new, x, j1));
            lemma_place(entries, j);
            lemma_place(new, j1);
        }
        if map_of(new).contains_key(x) {
            let j = place_of(new, x);
            assert(keyed_at(new, x, j));
            let j0 = if j < i { j } else { j + 1 };
            assert(keyed_at(entries, x, j0));
            if x == k {
                if j0 < i {
                    assert(entries[j0].0@ != entries[i].0@);
                } else {
                    assert(entries[i].0@ != entries[j0].0@);
                }
            }
        }
    }
    assert(m1 =~= m2);
}

proof fn lemma_len<V: View>(entries: Seq<(String, V)>)
    requires
        distinct_keys(entries),
    ensures
        map_of(entries).dom().finite(),
        map_of(entries).dom().len() == entries.len(),
    decreases entries.len(),
{
    if entries.len() == 0 {
        assert(map_of(entries).dom() =~= Set::empty());
    } else {
        let last = entries.len() - 1;
        lemma_remove(entries, last);
        lemma_place(entries, last);
        let k = entries[last].0@;
        let rest = entries.remove(last);
        lemma_len(rest);
        assert(map_of(entries).dom() =~= map_of(rest).dom().insert(k));
    }
}

/// The value under `k` in a list of entries with distinct keys.
fn find_entry<'a, V: View>(entries: &'a Vec<(String, V)>, k: &str) -> (r: Option<&'a V>)
    requires
        distinct_keys(entries@),
    ensures
        match r {
            Some(v) => map_of(entries@).contains_key(k@) && v@ == map_of(entries@)[k@],
            None => !map_of(entries@).contains_key(k@),
        },
{
    match find_place(entries, k) {
        Some(i) => {
            proof {
                lemma_place(entries@, i as int);
            }
            Some(&entries[i].1)
        },
        None => None,
    }
}

fn find_place<V: View>(entries: &Vec<(String, V)>, k: &str) -> (r: Option<usize>)
    ensures
        match r {
            Some(i) => keyed_at(entries@, k@, i as int),
            None => !map_of(entries@).contains_key(k@),
        },
{
    let mut i: usize = 0;
    while i < entries.len()
        invariant
            i <= entries.len(),
            forall|j: int| 0 <= j < i ==> !keyed_at(entries@, k@, j),
        decreases entries.len() - i,
    {
        if same_text(entries[i].0.as_str(), k) {
            return Some(i);
        }
        i += 1;
    }
    None
}

impl<V: View> TextMap<V> {
    /// No key stands twice.
    pub closed spec fn wf(self) -> bool {
        distinct_keys(self.entries@)
    }

    /// The keys, in the order in which the map is walked.
    pub closed spec fn keys(self) -> Seq<Seq<char>> {
        self.entries@.map_values(|e: (String, V)| e.0@)
    }

    pub fn new() -> (r: TextMap<V>)
        ensures
            r.wf(),
            r@ == Map::<Seq<char>, V::V>::empty(),
    {
        let r = TextMap { entries: Vec::new() };
        assert(map_of(r.entries@) =~= Map::<Seq<char>, V::V>::empty());
        r
    }

    /// The map of a list of entries with distinct keys.
    pub fn from_entries(entries: Vec<(String, V)>) -> (r: TextMap<V>)
        requires
            distinct_keys(entries@),
        ensures
            r.wf(),
            r@ == map_of(entries@),
    {
        TextMap { entries }
    }

    /// The entries, in the order in which the map is walked.
    pub fn entries(&self) -> (r: &Vec<(String, V)>)
        requires
            self.wf(),
        ensures
            distinct_keys(r@),
            map_of(r@) == self@,
    {
        &self.entries
    }

    pub fn len(&self) -> (r: usize)
        requires
            self.wf(),
        ensures
            self@.dom().finite(),
            r == self@.dom().len(),
            r == self.keys().len(),
            forall|i: int| 0 <= i < r ==> self@.contains_key(#[trigger] self.keys()[i]),
            forall|i: int, j: int|
                0 <= i < j < r ==> #[trigger] self.keys()[i] != #[trigger] self.keys()[j],
            forall|k: Seq<char>| self@.contains_key(k) ==> self.keys().contains(k),
    {
        proof {
            lemma_len(self.entries@);
            assert forall|i: int| 0 <= i < self.entries@.len() implies self@.contains_key(
                #[trigger] self.keys()[i],
            ) by {
                lemma_place(self.entries@, i);
            }
            assert forall|k: Seq<char>| self@.contains_key(k) implies self.keys().contains(k) by {
                let i = place_of(self.entries@, k);
                assert(keyed_at(self.entries@, k, i));
                assert(self.keys()[i] == k);
            }
            assert forall|i: int, j: int| 0 <= i < j < self.entries@.len() implies #[trigger] self.keys()[i]
                != #[trigger] self.keys()[j] by {
                assert(self.entries@[i].0@ != self.entries@[j].0@);
            }
        }
        self.entries.len()
    }

    pub fn get(&self, k: &str) -> (r: Option<&V>)
        requires
            self.wf(),
        ensures
            match r {
                Some(v) => self@.contains_key(k@) && v@ == self@[k@],
                None => !self@.contains_key(k@),
            },
    {
        find_entry(&self.entries, k)
    }

    pub fn contains(&self, k: &str) -> (r: bool)
        requires
            self.wf(),
        ensures
            r == self@.contains_key(k@),
    {
        self.get(k).is_some()
    }

    /// The key at a place of the walk.
    pub fn key_at(&self, i: usize) -> (r: &String)
        requires
            self.wf(),
            i < self.keys().len(),
        ensures
            r@ == self.keys()[i as int],
            self@.contains_key(r@),
    {
        proof {
            lemma_place(self.entries@, i as int);
        }
        &self.entries[i].0
    }

    /// The value at a place of the walk.
    pub fn value_at(&self, i: usize) -> (r: &V)
        requires
            self.wf(),
            i < self.keys().len(),
        ensures
            r@ == self@[self.keys()[i as int]],
    {
        proof {
            lemma_place(self.entries@, i as int);
        }
        &self.entries[i].1
    }

    pub fn insert(&mut self, k: String, v: V)
        requires
            old(self).wf(),
        ensures
            final(self).wf(),
            final(self)@ == old(self)@.insert(k@, v@),
    {
        match find_place(&self.entries, k.as_str()) {
            Some(i) => {
                proof {
                    lemma_update(self.entries@, i as int, k, v);
                }
                self.entries.set(i, (k, v));
            },
            None => {
                proof {
                    lemma_push(self.entries@, k, v);
                }
                self.entries.push((k, v));
            },
        }
    }

    pub fn remove(&mut self, k: &str) -> (r: Option<V>)
        requires
            old(self).wf(),
        ensures
            final(self).wf(),
            final(self)@ == old(self)@.remove(k@),
            match r {
                Some(v) => old(self)@.contains_key(k@) && v@ == old(self)@[k@],
                None => !old(self)@.contains_key(k@),
            },
    {
        match find_place(&self.entries, k) {
            Some(i) => {
                proof {
                    lemma_place(self.entries@, i as int);
                    lemma_remove(self.entries@, i as int);
                }
                let e = self.entries.remove(i);
                Some(e.1)
            },
            None => {
                assert(self@.remove(k@) =~= self@);
                None
            },
        }
    }
}

} // verus!
