use vstd::prelude::*;
use crate::text::bytes_eq;

verus! {

/// One label of the jump table: its name and the source position it stands
/// for.
struct JumpEntry {
    name: Vec<u8>,
    pos: usize,
}

/// The jump table: a map from label names to source positions. A name
/// occurs at most once; inserting a name that is present replaces its
/// position. Every operation keeps the table well formed.
pub struct JumpTable {
    entries: Vec<JumpEntry>,
}

/// The map that a list of entries stands for, a later entry overriding an
/// earlier one of the same name.
spec fn entries_map(entries: Seq<JumpEntry>) -> Map<Seq<u8>, usize>
    decreases entries.len(),
{
    if entries.len() == 0 {
        Map::empty()
    } else {
        entries_map(entries.drop_last()).insert(entries.last().name@, entries.last().pos)
    }
}

/// No two entries have the same name.
spec fn distinct(entries: Seq<JumpEntry>) -> bool {
    forall|i: int, j: int| 0 <= i < j < entries.len() ==> entries[i].name@ != entries[j].name@
}

/// A name is a key of the map exactly when some entry has it.
proof fn lemma_map_keys(entries: Seq<JumpEntry>, key: Seq<u8>)
    ensures
        entries_map(entries).contains_key(key) <==> exists|i: int|
            0 <= i < entries.len() && #[trigger] entries[i].name@ == key,
        entries_map(entries).dom().finite(),
    decreases entries.len(),
{
    if entries.len() > 0 {
        let front = entries.drop_last();
        lemma_map_keys(front, key);
        if entries_map(entries).contains_key(key) {
            if entries.last().name@ == key {
                assert(entries[entries.len() - 1].name@ == key);
            } else {
                let i = choose|i: int| 0 <= i < front.len() && #[trigger] front[i].name@ == key;
                assert(entries[i].name@ == key);
            }
        }
        if exists|i: int| 0 <= i < entries.len() && #[trigger] entries[i].name@ == key {
            let i = choose|i: int| 0 <= i < entries.len() && #[trigger] entries[i].name@ == key;
            if i < front.len() {
                assert(front[i].name@ == key);
            }
        }
    }
}

/// Where names are distinct, the map gives each entry's name its position.
proof fn lemma_map_value(entries: Seq<JumpEntry>, i: int)
    requires
        distinct(entries),
        0 <= i < entries.len(),
    ensures
        entries_map(entries).contains_key(entries[i].name@),
        entries_map(entries)[entries[i].name@] == entries[i].pos,
    decreases entries.len(),
{
    let front = entries.drop_last();
    if i < entries.len() - 1 {
        assert(distinct(front)) by {
            assert forall|a: int, b: int| 0 <= a < b < front.len() implies front[a].name@ != front[b].name@ by {
                assert(entries[a].name@ != entries[b].name@);
            }
        }
        lemma_map_value(front, i);
        assert(front[i] == entries[i]);
        assert(entries[i].name@ != entries[entries.len() - 1].name@);
    }
}

impl View for JumpTable {
    type V = Map<Seq<u8>, usize>;

    closed spec fn view(&self) -> Map<Seq<u8>, usize> {
        entries_map(self.entries@)
    }
}

impl JumpTable {
    /// The table is well formed: no name occurs in it twice.
    pub closed spec fn wf(&self) -> bool {
        distinct(self.entries@)
    }

    /// An empty table.
    pub fn new() -> (table: JumpTable)
        ensures
            table.wf(),
            table@ == Map::<Seq<u8>, usize>::empty(),
    {
        JumpTable { entries: Vec::new() }
    }

    /// The number of labels in the table.
    pub fn len(&self) -> (n: usize)
        requires
            self.wf(),
        ensures
            n == self@.dom().len(),
            self@.dom().finite(),
    {
        proof {
            lemma_len(self.entries@);
        }
        self.entries.len()
    }

    /// The index of the entry named `name`, if there is one.
    fn find(&self, name: &[u8]) -> (r: Option<usize>)
        ensures
            match r {
                Some(i) => i < self.entries@.len() && self.entries@[i as int].name@ == name@,
                None => forall|i: int| 0 <= i < self.entries@.len() ==> self.entries@[i].name@ != name@,
            },
    {
        let mut i: usize = 0;
        while i < self.entries.len()
            invariant
                i <= self.entries@.len(),
                forall|j: int| 0 <= j < i ==> self.entries@[j].name@ != name@,
            decreases self.entries@.len() - i,
        {
            if bytes_eq(self.entries[i].name.as_slice(), name) {
                return Some(i);
            }
            i += 1;
        }
        None
    }

    /// The position that `name` stands for, if the table holds the name.
    pub fn get(&self, name: &[u8]) -> (r: Option<usize>)
        requires
            self.wf(),
        ensures
            r == if self@.contains_key(name@) {
                Some(self@[name@])
            } else {
                None
            },
    {
        proof {
            lemma_map_keys(self.entries@, name@);
        }
        match self.find(name) {
            Some(i) => {
                proof {
                    lemma_map_value(self.entries@, i as int);
                }
                Some(self.entries[i].pos)
            },
            None => None,
        }
    }

    /// Makes `name` stand for `pos`, whether or not the table held the name.
    pub fn insert(&mut self, name: Vec<u8>, pos: usize)
        requires
            old(self).wf(),
        ensures
            final(self).wf(),
            final(self)@ == old(self)@.insert(name@, pos),
    {
        let ghost before = self.entries@;
        match self.find(name.as_slice()) {
            Some(i) => {
                let ghost key = name@;
                self.entries[i] = JumpEntry { name, pos };
                proof {
                    let after = self.entries@;
                    assert(distinct(after)) by {
                        assert forall|a: int, b: int| 0 <= a < b < after.len() implies after[a].name@
                            != after[b].name@ by {
                            assert(before[a].name@ != before[b].name@);
                        }
                    }
                    assert forall|k: Seq<u8>|
                        entries_map(after).contains_key(k) <==> entries_map(before).insert(
                            key,
                            pos,
                        ).contains_key(k) by {
                        lemma_map_keys(after, k);
                        lemma_map_keys(before, k);
                        if exists|j: int| 0 <= j < after.len() && #[trigger] after[j].name@ == k {
                            let j = choose|j: int| 0 <= j < after.len() && #[trigger] after[j].name@ == k;
                            assert(before[j].name@ == k);
                        }
                        if exists|j: int| 0 <= j < before.len() && #[trigger] before[j].name@ == k {
                            let j = choose|j: int| 0 <= j < before.len() && #[trigger] before[j].name@ == k;
                            assert(after[j].name@ == k);
                        }
                        if k == key {
                            assert(after[i as int].name@ == k);
                        }
                    }
                    assert forall|k: Seq<u8>| entries_map(after).contains_key(k) implies entries_map(
                        after,
                    )[k] == entries_map(before).insert(key, pos)[k] by {
                        lemma_map_keys(after, k);
                        let j = choose|j: int| 0 <= j < after.len() && #[trigger] after[j].name@ == k;
                        lemma_map_value(after, j);
                        lemma_map_value(before, j);
                    }
                    assert(entries_map(after) =~= entries_map(before).insert(key, pos));
                }
            },
            None => {
                let ghost key = name@;
                self.entries.push(JumpEntry { name, pos });
                proof {
                    let after = self.entries@;
                    assert(after.drop_last() =~= before);
                    assert(distinct(after)) by {
                        assert forall|a: int, b: int| 0 <= a < b < after.len() implies after[a].name@
                            != after[b].name@ by {
                            if b < before.len() {
                                assert(before[a].name@ != before[b].name@);
                            } else {
                                assert(before[a].name@ != key);
                            }
                        }
                    }
                }
            },
        }
    }

    /// Takes `name` out of the table and gives the position it stood for,
    /// if the table held the name.
    pub fn remove(&mut self, name: &[u8]) -> (r: Option<usize>)
        requires
            old(self).wf(),
        ensures
            final(self).wf(),
            final(self)@ == old(self)@.remove(name@),
            r == if old(self)@.contains_key(name@) {
                Some(old(self)@[name@])
            } else {
                None
            },
    {
        proof {
            lemma_map_keys(self.entries@, name@);
        }
        let ghost before = self.entries@;
        match self.find(name) {
            Some(i) => {
                proof {
                    lemma_map_value(before, i as int);
                }
                let entry = self.entries.remove(i);
                proof {
                    let after = self.entries@;
                    assert(distinct(after)) by {
                        assert forall|a: int, b: int| 0 <= a < b < after.len() implies after[a].name@
                            != after[b].name@ by {
                            let a0 = if a < i { a } else { a + 1 };
                            let b0 = if b < i { b } else { b + 1 };
                            assert(before[a0].name@ != before[b0].name@);
                        }
                    }
                    assert forall|k: Seq<u8>|
                        entries_map(after).contains_key(k) <==> entries_map(before).remove(
                            name@,
                        ).contains_key(k) by {
                        lemma_map_keys(after, k);
                        lemma_map_keys(before, k);
                        if exists|j: int| 0 <= j < after.len() && #[trigger] after[j].name@ == k {
                            let j = choose|j: int| 0 <= j < after.len() && #[trigger] after[j].name@ == k;
                            let j0 = if j < i { j } else { j + 1 };
                            assert(before[j0].name@ == k);
                            assert(before[j0].name@ != before[i as int].name@);
                        }
                        if k != name@ && exists|j: int| 0 <= j < before.len() && #[trigger] before[j].name@ == k {
                            let j = choose|j: int| 0 <= j < before.len() && #[trigger] before[j].name@ == k;
                            let j1 = if j < i { j } else { j - 1 };
                            assert(after[j1].name@ == k);
                        }
                    }
                    assert forall|k: Seq<u8>| entries_map(after).contains_key(k) implies entries_map(
                        after,
                    )[k] == entries_map(before).remove(name@)[k] by {
                        lemma_map_keys(after, k);
                        let j = choose|j: int| 0 <= j < after.len() && #[trigger] after[j].name@ == k;
                        let j0 = if j < i { j } else { j + 1 };
                        lemma_map_value(after, j);
                        assert(before[j0] == after[j]);
                        lemma_map_value(before, j0);
                    }
                    assert(entries_map(after) =~= entries_map(before).remove(name@));
                }
                Some(entry.pos)
            },
            None => {
                proof {
                    assert(entries_map(before) =~= entries_map(before).remove(name@));
                }
                None
            },
        }
    }

    /// The name of the `i`-th label, in the order the names first came in.
    pub closed spec fn key_at(&self, i: int) -> Seq<u8> {
        self.entries@[i].name@
    }

    /// The numbered names are the keys of the table, each exactly once.
    pub proof fn lemma_keys(&self)
        requires
            self.wf(),
        ensures
            self@.dom().finite(),
            forall|i: int| 0 <= i < self@.dom().len() ==> self@.contains_key(#[trigger] self.key_at(i)),
            forall|i: int, j: int|
                0 <= i < j < self@.dom().len() ==> #[trigger] self.key_at(i) != #[trigger] self.key_at(j),
            forall|key: Seq<u8>| #[trigger]
                self@.contains_key(key) ==> exists|i: int|
                    0 <= i < self@.dom().len() && #[trigger] self.key_at(i) == key,
    {
        lemma_len(self.entries@);
        assert forall|i: int| 0 <= i < self@.dom().len() implies self@.contains_key(
            #[trigger] self.key_at(i),
        ) by {
            lemma_map_value(self.entries@, i);
        }
        assert forall|key: Seq<u8>| #[trigger] self@.contains_key(key) implies exists|i: int|
            0 <= i < self@.dom().len() && #[trigger] self.key_at(i) == key by {
            lemma_map_keys(self.entries@, key);
            let i = choose|i: int| 0 <= i < self.entries@.len() && #[trigger] self.entries@[i].name@ == key;
            assert(self.key_at(i) == key);
        }
    }

    /// The name of the `i`-th label, in the order the names first came in.
    pub fn name_at(&self, i: usize) -> (name: &Vec<u8>)
        requires
            self.wf(),
            i < self@.dom().len(),
        ensures
            name@ == self.key_at(i as int),
            self@.contains_key(name@),
    {
        proof {
            lemma_len(self.entries@);
            lemma_map_value(self.entries@, i as int);
        }
        &self.entries[i].name
    }
}

/// Where names are distinct, the map has as many keys as there are entries.
proof fn lemma_len(entries: Seq<JumpEntry>)
    requires
        distinct(entries),
    ensures
        entries_map(entries).dom().finite(),
        entries_map(entries).dom().len() == entries.len(),
    decreases entries.len(),
{
    if entries.len() > 0 {
        let front = entries.drop_last();
        assert(distinct(front)) by {
            assert forall|a: int, b: int| 0 <= a < b < front.len() implies front[a].name@ != front[b].name@ by {
                assert(entries[a].name@ != entries[b].name@);
            }
        }
        lemma_len(front);
        let key = entries.last().name@;
        lemma_map_keys(front, key);
        if exists|i: int| 0 <= i < front.len() && #[trigger] front[i].name@ == key {
            let i = choose|i: int| 0 <= i < front.len() && #[trigger] front[i].name@ == key;
            assert(entries[i].name@ != entries[entries.len() - 1].name@);
        }
        assert(!entries_map(front).dom().contains(key));
        assert(entries_map(entries).dom() =~= entries_map(front).dom().insert(key));
    }
}

} // verus!
