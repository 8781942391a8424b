use vstd::prelude::*;

verus! {

/// A value that can serve as a lookup key: it has a mathematical identity,
/// an executable test for equal identity, and a way to make a second value
/// with the same identity.
pub trait Key: Sized {
    type Id;

    spec fn id(&self) -> Self::Id;

    fn same(&self, other: &Self) -> (b: bool)
        ensures
            b == (self.id() == other.id()),
    ;

    fn duplicate(&self) -> (k: Self)
        ensures
            k.id() == self.id(),
    ;
}

impl Key for String {
    type Id = Seq<char>;

    open spec fn id(&self) -> Seq<char> {
        self@
    }

    fn same(&self, other: &Self) -> (b: bool) {
        *self == *other
    }

    fn duplicate(&self) -> (k: Self) {
        self.clone()
    }
}

/// A finite map from keys to values, kept as a list of entries in which no
/// identity occurs twice.
pub struct Table<K: Key, V: Copy> {
    entries: Vec<(K, V)>,
}

/// The map that a list of entries stands for.
pub open spec fn entries_map<K: Key, V>(entries: Seq<(K, V)>) -> Map<K::Id, V>
    decreases entries.len(),
{
    if entries.len() == 0 {
        Map::empty()
    } else {
        entries_map(entries.drop_last()).insert(entries.last().0.id(), entries.last().1)
    }
}

/// No two entries share an identity.
pub open spec fn distinct_ids<K: Key, V>(entries: Seq<(K, V)>) -> bool {
    forall|i: int, j: int|
        0 <= i < entries.len() && 0 <= j < entries.len() && i != j ==> entries[i].0.id()
            != entries[j].0.id()
}

/// The map binds exactly the identities that occur in the list.
pub proof fn lemma_entries_map_dom<K: Key, V>(entries: Seq<(K, V)>, id: K::Id)
    ensures
        entries_map(entries).dom().contains(id) <==> exists|i: int|
            0 <= i < entries.len() && #[trigger] entries[i].0.id() == id,
    decreases entries.len(),
{
    if entries.len() > 0 {
        let front = entries.drop_last();
        lemma_entries_map_dom(front, id);
        if entries_map(entries).dom().contains(id) {
            if entries.last().0.id() == id {
                assert(entries[entries.len() - 1].0.id() == id);
            } else {
                let i = choose|i: int| 0 <= i < front.len() && #[trigger] front[i].0.id() == id;
                assert(entries[i].0.id() == id);
            }
        }
        if exists|i: int| 0 <= i < entries.len() && #[trigger] entries[i].0.id() == id {
            let i = choose|i: int| 0 <= i < entries.len() && #[trigger] entries[i].0.id() == id;
            if i < entries.len() - 1 {
                assert(front[i].0.id() == id);
            }
        }
    }
}

/// In a list without repeated identities, the map binds each entry's
/// identity to the entry's value.
pub proof fn lemma_entries_map_value<K: Key, V>(entries: Seq<(K, V)>, i: int)
    requires
        distinct_ids(entries),
        0 <= i < entries.len(),
    ensures
        entries_map(entries).dom().contains(entries[i].0.id()),
        entries_map(entries)[entries[i].0.id()] == entries[i].1,
    decreases entries.len(),
{
    let front = entries.drop_last();
    if i < entries.len() - 1 {
        assert(distinct_ids(front)) by {
            assert forall|a: int, b: int|
                0 <= a < front.len() && 0 <= b < front.len() && a != b implies front[a].0.id()
                != front[b].0.id() by {
                assert(front[a] == entries[a] && front[b] == entries[b]);
            }
        }
        lemma_entries_map_value(front, i);
        assert(front[i] == entries[i]);
        assert(entries[entries.len() - 1].0.id() != entries[i].0.id());
    }
}

/// A list of entries stands for a finite map.
pub proof fn lemma_entries_map_finite<K: Key, V>(entries: Seq<(K, V)>)
    ensures
        entries_map(entries).dom().finite(),
    decreases entries.len(),
{
    if entries.len() > 0 {
        lemma_entries_map_finite(entries.drop_last());
    }
}

/// Lists that agree position by position on identity and value stand for
/// the same map.
pub proof fn lemma_entries_map_agree<K: Key, V>(a: Seq<(K, V)>, b: Seq<(K, V)>)
    requires
        a.len() == b.len(),
        forall|i: int|
            0 <= i < a.len() ==> (#[trigger] a[i]).0.id() == b[i].0.id() && a[i].1 == b[i].1,
    ensures
        entries_map(a) == entries_map(b),
    decreases a.len(),
{
    if a.len() > 0 {
        let fa = a.drop_last();
        let fb = b.drop_last();
        assert forall|i: int| 0 <= i < fa.len() implies (#[trigger] fa[i]).0.id() == fb[i].0.id()
            && fa[i].1 == fb[i].1 by {
            assert(a[i].0.id() == b[i].0.id());
        }
        lemma_entries_map_agree(fa, fb);
        assert(a[a.len() - 1].0.id() == b[a.len() - 1].0.id());
    }
}

impl<K: Key, V: Copy> View for Table<K, V> {
    type V = Map<K::Id, V>;

    closed spec fn view(&self) -> Map<K::Id, V> {
        entries_map(self.entries@)
    }
}

impl<K: Key, V: Copy> Table<K, V> {
    /// The representation invariant: no identity is bound twice.
    pub closed spec fn wf(&self) -> bool {
        distinct_ids(self.entries@)
    }

    /// A table binds finitely many keys.
    pub proof fn lemma_finite(&self)
        ensures
            self@.dom().finite(),
    {
        lemma_entries_map_finite(self.entries@);
    }

    /// The table that binds nothing.
    pub fn new() -> (t: Self)
        ensures
            t.wf(),
            t@ == Map::<K::Id, V>::empty(),
    {
        Table { entries: Vec::new() }
    }

    /// Position of the entry for `key`, if there is one.
    fn position(&self, key: &K) -> (r: Option<usize>)
        ensures
            match r {
                Some(i) => i < self.entries@.len() && self.entries@[i as int].0.id() == key.id(),
                None => forall|j: int|
                    0 <= j < self.entries@.len() ==> self.entries@[j].0.id() != key.id(),
            },
    {
        let mut i: usize = 0;
        while i < self.entries.len()
            invariant
                i <= self.entries@.len(),
                forall|j: int| 0 <= j < i ==> self.entries@[j].0.id() != key.id(),
            decreases self.entries@.len() - i,
        {
            if self.entries[i].0.same(key) {
                return Some(i);
            }
            i += 1;
        }
        None
    }

    /// The value that `key` is bound to, if any.
    pub fn get(&self, key: &K) -> (r: Option<V>)
        requires
            self.wf(),
        ensures
            r == (if self@.dom().contains(key.id()) {
                Some(self@[key.id()])
            } else {
                None
            }),
    {
        proof {
            lemma_entries_map_dom(self.entries@, key.id());
        }
        match self.position(key) {
            Some(i) => {
                proof {
                    lemma_entries_map_value(self.entries@, i as int);
                }
                Some(self.entries[i].1)
            },
            None => None,
        }
    }

    /// Whether `key` is bound.
    pub fn contains(&self, key: &K) -> (b: bool)
        requires
            self.wf(),
        ensures
            b == self@.dom().contains(key.id()),
    {
        self.get(key).is_some()
    }
    /// Binds `key` to `value`, replacing an earlier binding of the same identity.
    pub fn insert(&mut self, key: K, value: V)
        requires
            old(self).wf(),
        ensures
            final(self).wf(),
            final(self)@ == old(self)@.insert(key.id(), value),
    {
        let ghost before = self.entries@;
        match self.position(&key) {
            Some(i) => {
                self.entries[i] = (key, value);
                proof {
                    let after = self.entries@;
                    assert forall|id: K::Id| entries_map(after).dom().contains(id) == entries_map(
                        before,
                    ).insert(key.id(), value).dom().contains(id) by {
                        lemma_entries_map_dom(after, id);
                        lemma_entries_map_dom(before, id);
                        if entries_map(after).dom().contains(id) {
                            let j = choose|j: int|
                                0 <= j < after.len() && #[trigger] after[j].0.id() == id;
                            assert(before[j].0.id() == id);
                        }
                        if entries_map(before).dom().contains(id) {
                            let j = choose|j: int|
                                0 <= j < before.len() && #[trigger] before[j].0.id() == id;
                            assert(after[j].0.id() == id);
                        }
                        assert(after[i as int].0.id() == key.id());
                    }
                    assert forall|a: int, b: int|
                        0 <= a < after.len() && 0 <= b < after.len() && a != b implies after[a].0.id()
                        != after[b].0.id() by {
                        assert(after[a].0.id() == before[a].0.id());
                        assert(after[b].0.id() == before[b].0.id());
                    }
                    assert forall|id: K::Id| entries_map(after).dom().contains(id) implies entries_map(
                        after,
                    )[id] == entries_map(before).insert(key.id(), value)[id] by {
                        lemma_entries_map_dom(after, id);
                        let j = choose|j: int|
                            0 <= j < after.len() && #[trigger] after[j].0.id() == id;
                        lemma_entries_map_value(after, j);
                        if j != i {
                            assert(before[j] == after[j]);
                            lemma_entries_map_value(before, j);
                        }
                    }
                    assert(entries_map(after) =~= entries_map(before).insert(key.id(), value));
                }
            },
            None => {
                self.entries.push((key, value));
                proof {
                    let after = self.entries@;
                    assert(after.drop_last() =~= before);
                    assert forall|a: int, b: int|
                        0 <= a < after.len() && 0 <= b < after.len() && a != b implies after[a].0.id()
                        != after[b].0.id() by {
                        if a < before.len() {
                            assert(after[a] == before[a]);
                        }
                        if b < before.len() {
                            assert(after[b] == before[b]);
                        }
                    }
                }
            },
        }
    }

    /// Drops the binding of `key`, if there is one.
    pub fn remove(&mut self, key: &K)
        requires
            old(self).wf(),
        ensures
            final(self).wf(),
            final(self)@ == old(self)@.remove(key.id()),
    {
        let ghost before = self.entries@;
        match self.position(key) {
            Some(i) => {
                self.entries.remove(i);
                proof {
                    let after = self.entries@;
                    assert forall|a: int| 0 <= a < after.len() implies #[trigger] after[a] == before[if a
                        < i {
                        a
                    } else {
                        a + 1
                    }] by {}
                    assert forall|a: int, b: int|
                        0 <= a < after.len() && 0 <= b < after.len() && a != b implies after[a].0.id()
                        != after[b].0.id() by {
                        assert(after[a] == before[if a < i { a } else { a + 1 }]);
                        assert(after[b] == before[if b < i { b } else { b + 1 }]);
                    }
                    assert forall|id: K::Id| entries_map(after).dom().contains(id) == entries_map(
                        before,
                    ).remove(key.id()).dom().contains(id) by {
                        lemma_entries_map_dom(after, id);
                        lemma_entries_map_dom(before, id);
                        if entries_map(after).dom().contains(id) {
                            let j = choose|j: int|
                                0 <= j < after.len() && #[trigger] after[j].0.id() == id;
                            let jj = if j < i { j } else { j + 1 };
                            assert(after[j] == before[jj]);
                            assert(before[jj].0.id() == id);
                            assert(before[i as int].0.id() == key.id());
                        }
                        if entries_map(before).dom().contains(id) && id != key.id() {
                            let j = choose|j: int|
                                0 <= j < before.len() && #[trigger] before[j].0.id() == id;
                            let jj = if j < i { j } else { j - 1 };
                            assert(after[jj] == before[if jj < i { jj } else { jj + 1 }]);
                            assert(after[jj].0.id() == id);
                        }
                    }
                    assert forall|id: K::Id| entries_map(after).dom().contains(id) implies entries_map(
                        after,
                    )[id] == entries_map(before).remove(key.id())[id] by {
                        lemma_entries_map_dom(after, id);
                        let j = choose|j: int|
                            0 <= j < after.len() && #[trigger] after[j].0.id() == id;
                        let jj = if j < i { j } else { j + 1 };
                        assert(after[j] == before[jj]);
                        lemma_entries_map_value(after, j);
                        lemma_entries_map_value(before, jj);
                    }
                    assert(entries_map(after) =~= entries_map(before).remove(key.id()));
                }
            },
            None => {
                proof {
                    lemma_entries_map_dom(before, key.id());
                    assert(entries_map(before).remove(key.id()) =~= entries_map(before));
                }
            },
        }
    }

    /// An independent table with the same bindings.
    pub fn fork(&self) -> (t: Self)
        requires
            self.wf(),
        ensures
            t.wf(),
            t@ == self@,
    {
        Table { entries: self.to_entries() }
    }

    /// The table that binds, for each entry of the list in turn, the entry's
    /// key to its value; a later entry replaces an earlier one of the same
    /// identity.
    pub fn from_entries(entries: Vec<(K, V)>) -> (t: Self)
        ensures
            t.wf(),
            t@ == entries_map(entries@),
    {
        let mut t: Table<K, V> = Table::new();
        let mut i: usize = 0;
        assert(entries@.take(0) =~= Seq::<(K, V)>::empty());
        while i < entries.len()
            invariant
                i <= entries@.len(),
                t.wf(),
                t@ == entries_map(entries@.take(i as int)),
            decreases entries@.len() - i,
        {
            let key = entries[i].0.duplicate();
            t.insert(key, entries[i].1);
            proof {
                let next = entries@.take(i + 1);
                assert(next.drop_last() =~= entries@.take(i as int));
                assert(next.last() == entries@[i as int]);
            }
            i += 1;
        }
        assert(entries@.take(i as int) =~= entries@);
        t
    }

    /// The bindings of the table as a list in which no identity occurs
    /// twice.
    pub fn to_entries(&self) -> (entries: Vec<(K, V)>)
        requires
            self.wf(),
        ensures
            distinct_ids(entries@),
            entries_map(entries@) == self@,
    {
        let copy = self.fork_entries();
        proof {
            assert forall|x: int, y: int|
                0 <= x < copy@.len() && 0 <= y < copy@.len() && x != y implies copy@[x].0.id()
                != copy@[y].0.id() by {
                assert(self.entries@[x].0.id() != self.entries@[y].0.id());
            }
            lemma_entries_map_agree(self.entries@, copy@);
        }
        copy
    }

    fn fork_entries(&self) -> (copy: Vec<(K, V)>)
        ensures
            copy@.len() == self.entries@.len(),
            forall|j: int|
                0 <= j < copy@.len() ==> (#[trigger] self.entries@[j]).0.id() == copy@[j].0.id()
                    && self.entries@[j].1 == copy@[j].1,
    {
        let mut copy: Vec<(K, V)> = Vec::new();
        let mut i: usize = 0;
        while i < self.entries.len()
            invariant
                i <= self.entries@.len(),
                copy@.len() == i,
                forall|j: int|
                    0 <= j < i ==> (#[trigger] self.entries@[j]).0.id() == copy@[j].0.id()
                        && self.entries@[j].1 == copy@[j].1,
            decreases self.entries@.len() - i,
        {
            let k = self.entries[i].0.duplicate();
            copy.push((k, self.entries[i].1));
            i += 1;
        }
        copy
    }
}

} // verus!
