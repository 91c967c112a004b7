//! Sets and maps keyed by names: account names, device keys, call ids. They hold a handful
//! of entries, so a list that is searched is all they need to be.

use crate::text::same;
use vstd::prelude::*;

verus! {

/// A set of names.
pub struct NameSet {
    pub items: Vec<String>,
}

impl View for NameSet {
    type V = Set<Seq<char>>;

    open spec fn view(&self) -> Set<Seq<char>> {
        Set::new(|k: Seq<char>| exists|i: int| 0 <= i < self.items@.len() && #[trigger] self.items@[i]@ == k)
    }
}

impl NameSet {
    pub fn new() -> (s: NameSet)
        ensures
            s@ == Set::<Seq<char>>::empty(),
    {
        let s = NameSet { items: Vec::new() };
        assert(s@ =~= Set::<Seq<char>>::empty());
        s
    }

    pub fn contains(&self, name: &str) -> (r: bool)
        ensures
            r == self@.contains(name@),
    {
        let mut i: usize = 0;
        while i < self.items.len()
            invariant
                i <= self.items@.len(),
                forall|k: int| 0 <= k < i ==> #[trigger] self.items@[k]@ != name@,
            decreases self.items.len() - i,
        {
            if same(self.items[i].as_str(), name) {
                return true;
            }
            i = i + 1;
        }
        false
    }

    /// Whether nothing is in the set.
    pub fn is_empty(&self) -> (r: bool)
        ensures
            r == (self@ == Set::<Seq<char>>::empty()),
    {
        let r = self.items.len() == 0;
        proof {
            if r {
                assert(self@ =~= Set::<Seq<char>>::empty());
            } else {
                assert(self@.contains(self.items@[0]@));
            }
        }
        r
    }

    /// Add a name; says whether it was new.
    pub fn insert(&mut self, name: String) -> (fresh: bool)
        ensures
            fresh == !old(self)@.contains(name@),
            final(self)@ == old(self)@.insert(name@),
    {
        if self.contains(name.as_str()) {
            assert(self@ =~= self@.insert(name@));
            return false;
        }
        let ghost before = self.items@;
        let ghost n = name;
        self.items.push(name);
        proof {
            assert forall|k: Seq<char>| #[trigger] self@.contains(k) <==> old(self)@.insert(n@).contains(k) by {
                if old(self)@.contains(k) {
                    let i = choose|i: int| 0 <= i < before.len() && #[trigger] before[i]@ == k;
                    assert(self.items@[i]@ == k);
                }
                if k == n@ {
                    assert(self.items@[before.len() as int]@ == k);
                }
            }
            assert(self@ =~= old(self)@.insert(n@));
        }
        true
    }

    /// Take a name out, if it is there.
    pub fn remove(&mut self, name: &str)
        ensures
            final(self)@ == old(self)@.remove(name@),
    {
        let mut i: usize = 0;
        let ghost all = self.items@;
        let mut rest: Vec<String> = Vec::new();
        while i < self.items.len()
            invariant
                self.items@ == all,
                *self == *old(self),
                i <= all.len(),
                forall|j: int| 0 <= j < rest@.len() ==> #[trigger] rest@[j]@ != name@,
                forall|j: int| 0 <= j < rest@.len() ==> old(self)@.contains(#[trigger] rest@[j]@),
                forall|k: int|
                    0 <= k < i && all[k]@ != name@ ==> exists|j: int|
                        0 <= j < rest@.len() && rest@[j]@ == #[trigger] all[k]@,
            decreases all.len() - i,
        {
            if !same(self.items[i].as_str(), name) {
                let kept: String = self.items[i].clone();
                let ghost was = rest@;
                rest.push(kept);
                proof {
                    assert(old(self)@.contains(all[i as int]@));
                    assert forall|k: int| 0 <= k < i + 1 && all[k]@ != name@ implies exists|j: int|
                        0 <= j < rest@.len() && rest@[j]@ == #[trigger] all[k]@ by {
                        if k < i {
                            let j = choose|j: int| 0 <= j < was.len() && was[j]@ == all[k]@;
                            assert(rest@[j]@ == all[k]@);
                        } else {
                            assert(rest@[was.len() as int]@ == all[k]@);
                        }
                    }
                }
            }
            i = i + 1;
        }
        self.items = rest;
        proof {
            assert forall|k: Seq<char>| #[trigger] self@.contains(k) <==> old(self)@.remove(name@).contains(k) by {
                if self@.contains(k) {
                    let j = choose|j: int| 0 <= j < self.items@.len() && #[trigger] self.items@[j]@ == k;
                    assert(old(self)@.contains(self.items@[j]@));
                }
                if old(self)@.contains(k) && k != name@ {
                    let i = choose|i: int| 0 <= i < all.len() && #[trigger] all[i]@ == k;
                    assert(exists|j: int| 0 <= j < self.items@.len() && self.items@[j]@ == all[i]@);
                }
            }
            assert(self@ =~= old(self)@.remove(name@));
        }
    }
}

/// The map a list of entries stands for. Of two entries under one name the later counts.
pub open spec fn map_of<V>(entries: Seq<(String, V)>) -> Map<Seq<char>, V>
    decreases entries.len(),
{
    if entries.len() == 0 {
        Map::empty()
    } else {
        map_of(entries.drop_last()).insert(entries.last().0@, entries.last().1)
    }
}

/// No two entries stand under one name.
pub open spec fn distinct_names<V>(entries: Seq<(String, V)>) -> bool {
    forall|i: int, j: int| 0 <= i < j < entries.len() ==> (#[trigger] entries[i]).0@ != (#[trigger] entries[j]).0@
}

/// A map from names.
pub struct NameMap<V> {
    pub entries: Vec<(String, V)>,
}

impl<V> View for NameMap<V> {
    type V = Map<Seq<char>, V>;

    open spec fn view(&self) -> Map<Seq<char>, V> {
        map_of(self.entries@)
    }
}

/// A name is in the map exactly when some entry carries it.
pub proof fn lemma_map_of_dom<V>(entries: Seq<(String, V)>, name: Seq<char>)
    ensures
        map_of(entries).dom().contains(name) <==> exists|i: int|
            0 <= i < entries.len() && (#[trigger] entries[i]).0@ == name,
    decreases entries.len(),
{
    if entries.len() > 0 {
        lemma_map_of_dom(entries.drop_last(), name);
        if map_of(entries.drop_last()).dom().contains(name) {
            let i = choose|i: int|
                0 <= i < entries.drop_last().len() && (#[trigger] entries.drop_last()[i]).0@ == name;
            assert(entries[i].0@ == name);
        }
        if exists|i: int| 0 <= i < entries.len() && (#[trigger] entries[i]).0@ == name {
            let i = choose|i: int| 0 <= i < entries.len() && (#[trigger] entries[i]).0@ == name;
            if i < entries.len() - 1 {
                assert(entries.drop_last()[i].0@ == name);
            }
        }
    }
}

impl<V> NameMap<V> {
    /// No name stands twice in the list.
    pub open spec fn wf(self) -> bool {
        distinct_names(self.entries@)
    }

    pub fn new() -> (m: NameMap<V>)
        ensures
            m@ == Map::<Seq<char>, V>::empty(),
            m.entries@ == Seq::<(String, V)>::empty(),
            m.wf(),
    {
        NameMap { entries: Vec::new() }
    }

    /// Where `name` stands, the later entry first.
    pub fn position(&self, name: &str) -> (r: Option<usize>)
        ensures
            match r {
                Some(i) => i < self.entries@.len() && self.entries@[i as int].0@ == name@
                    && self@.dom().contains(name@) && self@[name@] == self.entries@[i as int].1,
                None => !self@.dom().contains(name@),
            },
    {
        let mut i: usize = self.entries.len();
        assert(self.entries@.take(i as int) =~= self.entries@);
        while i > 0
            invariant
                i <= self.entries@.len(),
                self@.dom().contains(name@) == map_of(self.entries@.take(i as int)).dom().contains(name@),
                self@.dom().contains(name@) ==> self@[name@] == map_of(self.entries@.take(i as int))[name@],
            decreases i,
        {
            let ghost head = self.entries@.take(i as int);
            assert(head.drop_last() =~= self.entries@.take(i - 1));
            assert(head.last() == self.entries@[i - 1]);
            if same(self.entries[i - 1].0.as_str(), name) {
                return Some(i - 1);
            }
            i = i - 1;
        }
        None
    }

    pub fn contains_key(&self, name: &str) -> (r: bool)
        ensures
            r == self@.dom().contains(name@),
    {
        self.position(name).is_some()
    }

    pub fn get(&self, name: &str) -> (r: Option<&V>)
        ensures
            match r {
                Some(v) => self@.dom().contains(name@) && *v == self@[name@],
                None => !self@.dom().contains(name@),
            },
    {
        match self.position(name) {
            Some(i) => Some(&self.entries[i].1),
            None => None,
        }
    }

    /// Whether nothing is in the map.
    pub fn is_empty(&self) -> (r: bool)
        ensures
            r == (self@ == Map::<Seq<char>, V>::empty()),
            r == (self.entries@.len() == 0),
    {
        let r = self.entries.len() == 0;
        proof {
            if !r {
                lemma_map_of_dom(self.entries@, self.entries@[0].0@);
                assert(self@.dom().contains(self.entries@[0].0@));
            } else {
                assert(self@ =~= Map::<Seq<char>, V>::empty());
            }
        }
        r
    }

    /// Take the entry under `name` out, keeping the others in order.
    pub fn remove(&mut self, name: &str) -> (taken: Option<V>)
        ensures
            final(self)@ == old(self)@.remove(name@),
            old(self).wf() ==> final(self).wf(),
            old(self).wf() ==> final(self).entries@.len() == old(self).entries@.len() - (if old(
                self,
            )@.dom().contains(name@) {
                1int
            } else {
                0int
            }),
            match taken {
                Some(v) => old(self)@.dom().contains(name@) && v == old(self)@[name@],
                None => !old(self)@.dom().contains(name@),
            },
    {
        let ghost all = self.entries@;
        let mut taken: Option<V> = None;
        let mut rest: Vec<(String, V)> = Vec::new();
        let mut todo: Vec<(String, V)> = Vec::new();
        std::mem::swap(&mut todo, &mut self.entries);
        let ghost mut i: int = 0;
        proof {
            assert(todo@ =~= all.skip(0));
            assert(map_of(all.take(0)) =~= Map::<Seq<char>, V>::empty());
            assert(Map::<Seq<char>, V>::empty().remove(name@) =~= Map::<Seq<char>, V>::empty());
        }
        while todo.len() > 0
            invariant
                0 <= i <= all.len(),
                todo@ == all.skip(i),
                map_of(rest@) == map_of(all.take(i)).remove(name@),
                match taken {
                    Some(v) => map_of(all.take(i)).dom().contains(name@) && v == map_of(all.take(i))[name@],
                    None => !map_of(all.take(i)).dom().contains(name@),
                },
                distinct_names(all) ==> distinct_names(rest@),
                distinct_names(all) ==> rest@.len() == i - (if taken is Some {
                    1int
                } else {
                    0int
                }),
                forall|j: int|
                    0 <= j < rest@.len() ==> exists|k: int| 0 <= k < i && all[k].0@ == (#[trigger] rest@[j]).0@,
            decreases todo@.len(),
        {
            let ghost was = rest@;
            let entry: (String, V) = todo.remove(0);
            let ghost e = entry;
            proof {
                assert(e == all[i]);
                assert(todo@ =~= all.skip(i + 1));
                assert(all.take(i + 1).drop_last() =~= all.take(i));
                assert(all.take(i + 1).last() == all[i]);
            }
            if same(entry.0.as_str(), name) {
                proof {
                    lemma_map_of_dom(all.take(i), name@);
                    if distinct_names(all) && taken is Some {
                        let k = choose|k: int|
                            0 <= k < all.take(i).len() && (#[trigger] all.take(i)[k]).0@ == name@;
                        assert(all[k].0@ != all[i].0@);
                    }
                }
                taken = Some(entry.1);
                proof {
                    assert(map_of(rest@) =~= map_of(all.take(i + 1)).remove(name@));
                }
            } else {
                rest.push(entry);
                proof {
                    assert(rest@.drop_last() =~= was);
                    assert(map_of(rest@) =~= map_of(all.take(i + 1)).remove(name@));
                    if distinct_names(all) {
                        assert forall|a: int, b: int| 0 <= a < b < rest@.len() implies (#[trigger] rest@[a]).0@
                            != (#[trigger] rest@[b]).0@ by {
                            if b == was.len() {
                                let k = choose|k: int| 0 <= k < i && all[k].0@ == was[a].0@;
                                assert(all[k].0@ != all[i].0@);
                            } else {
                                assert(was[a].0@ != was[b].0@);
                            }
                        }
                    }
                    assert forall|j: int| 0 <= j < rest@.len() implies exists|k: int|
                        0 <= k < i + 1 && all[k].0@ == (#[trigger] rest@[j]).0@ by {
                        if j < was.len() {
                            let k = choose|k: int| 0 <= k < i && all[k].0@ == was[j].0@;
                            assert(all[k].0@ == rest@[j].0@);
                        } else {
                            assert(all[i].0@ == rest@[j].0@);
                        }
                    }
                }
            }
            proof {
                i = i + 1;
            }
        }
        proof {
            assert(all.take(i) =~= all);
        }
        self.entries = rest;
        taken
    }

    /// Put `value` under `name`, in place of what stood there.
    pub fn insert(&mut self, name: String, value: V)
        ensures
            final(self)@ == old(self)@.insert(name@, value),
            old(self).wf() ==> final(self).wf(),
            old(self).wf() ==> final(self).entries@.len() == old(self).entries@.len() + (if old(
                self,
            )@.dom().contains(name@) {
                0int
            } else {
                1int
            }),
    {
        let ghost n = name@;
        let ghost v = value;
        let _ = self.remove(name.as_str());
        let ghost was = self.entries@;
        proof {
            lemma_map_of_dom(was, n);
        }
        self.entries.push((name, value));
        proof {
            assert(self.entries@.drop_last() =~= was);
            assert(self@ =~= old(self)@.insert(n, v));
        }
    }
}

/// A map keeps for each name the last that was entered under it.
pub proof fn lemma_the_last_entry_of_a_name_counts<V>(entries: Seq<(String, V)>, i: int)
    requires
        0 <= i < entries.len(),
        forall|j: int| i < j < entries.len() ==> (#[trigger] entries[j]).0@ != entries[i].0@,
    ensures
        map_of(entries).dom().contains(entries[i].0@),
        map_of(entries)[entries[i].0@] == entries[i].1,
    decreases entries.len(),
{
    if i < entries.len() - 1 {
        let head = entries.drop_last();
        assert forall|j: int| i < j < head.len() implies (#[trigger] head[j]).0@ != head[i].0@ by {
            assert(head[j] == entries[j]);
        }
        lemma_the_last_entry_of_a_name_counts(head, i);
        assert(entries[entries.len() - 1].0@ != entries[i].0@);
    }
}

} // verus!
