//! Values kept by file system path.

use vstd::prelude::*;

use crate::path::PathParts;

verus! {

struct Entry<V> {
    path: PathParts,
    value: V,
}

/// A table with at most one value for each path.
pub struct PathMap<V> {
    entries: Vec<Entry<V>>,
}

/// Whether there is an entry for `path`.
closed spec fn has_path<V>(entries: Seq<Entry<V>>, path: Seq<Seq<u8>>) -> bool {
    exists|i: int| 0 <= i < entries.len() && #[trigger] entries[i].path.deep_view() == path
}

/// The place of the entry for `path`.
closed spec fn place_of<V>(entries: Seq<Entry<V>>, path: Seq<Seq<u8>>) -> int {
    choose|i: int| 0 <= i < entries.len() && #[trigger] entries[i].path.deep_view() == path
}

closed spec fn entry_map<V>(entries: Seq<Entry<V>>) -> Map<Seq<Seq<u8>>, V> {
    Map::new(
        |path: Seq<Seq<u8>>| has_path(entries, path),
        |path: Seq<Seq<u8>>| entries[place_of(entries, path)].value,
    )
}

closed spec fn one_per_path<V>(entries: Seq<Entry<V>>) -> bool {
    forall|i: int, j: int|
        0 <= i < entries.len() && 0 <= j < entries.len() && #[trigger] entries[i].path.deep_view()
            == #[trigger] entries[j].path.deep_view() ==> i == j
}

proof fn lemma_entry<V>(entries: Seq<Entry<V>>, i: int)
    requires
        one_per_path(entries),
        0 <= i < entries.len(),
    ensures
        entry_map(entries).contains_key(entries[i].path.deep_view()),
        entry_map(entries)[entries[i].path.deep_view()] == entries[i].value,
{
    let path = entries[i].path.deep_view();
    assert(has_path(entries, path));
    let at = place_of(entries, path);
    assert(entries[at].path.deep_view() == path);
}

impl<V> View for PathMap<V> {
    type V = Map<Seq<Seq<u8>>, V>;

    /// The value of each path that has one.
    closed spec fn view(&self) -> Map<Seq<Seq<u8>>, V> {
        entry_map(self.entries@)
    }
}

impl<V> PathMap<V> {
    #[verifier::type_invariant]
    spec fn wf(self) -> bool {
        one_per_path(self.entries@)
    }

    /// An empty table.
    pub fn new() -> (table: PathMap<V>)
        ensures
            table@ == Map::<Seq<Seq<u8>>, V>::empty(),
    {
        let table = PathMap { entries: Vec::new() };
        assert(table@ =~= Map::<Seq<Seq<u8>>, V>::empty());
        table
    }

    /// Whether no path has a value.
    pub fn is_empty(&self) -> (result: bool)
        ensures
            result == (self@ == Map::<Seq<Seq<u8>>, V>::empty()),
    {
        proof {
            use_type_invariant(self);
            if self.entries@.len() > 0 {
                lemma_entry(self.entries@, 0);
            } else {
                assert(self@ =~= Map::<Seq<Seq<u8>>, V>::empty());
            }
        }
        self.entries.len() == 0
    }

    /// How many paths have a value.
    pub fn len(&self) -> (count: usize)
        ensures
            count == self@.len(),
            self@.dom().finite(),
    {
        proof {
            use_type_invariant(self);
            lemma_counts(self.entries@);
        }
        self.entries.len()
    }

    /// The value of `path`, when it has one.
    pub fn get(&self, path: &PathParts) -> (value: Option<&V>)
        ensures
            match value {
                Some(value) => self@.contains_key(path.deep_view()) && *value
                    == self@[path.deep_view()],
                None => !self@.contains_key(path.deep_view()),
            },
    {
        proof {
            use_type_invariant(self);
        }
        match self.find(path) {
            Some(i) => {
                proof {
                    lemma_entry(self.entries@, i as int);
                }
                Some(&self.entries[i].value)
            },
            None => None,
        }
    }

    fn find(&self, path: &PathParts) -> (place: Option<usize>)
        ensures
            match place {
                Some(i) => i < self.entries@.len() && self.entries@[i as int].path.deep_view()
                    == path.deep_view(),
                None => !has_path(self.entries@, path.deep_view()),
            },
    {
        let mut i: usize = 0;
        while i < self.entries.len()
            invariant
                i <= self.entries@.len(),
                forall|k: int|
                    0 <= k < i ==> #[trigger] self.entries@[k].path.deep_view() != path.deep_view(),
            decreases self.entries@.len() - i,
        {
            if self.entries[i].path.is(path) {
                return Some(i);
            }
            i = i + 1;
        }
        None
    }

    /// Takes the value of `path` out of the table.
    pub fn remove(&mut self, path: &PathParts) -> (value: Option<V>)
        ensures
            value == if old(self)@.contains_key(path.deep_view()) {
                Some(old(self)@[path.deep_view()])
            } else {
                None
            },
            final(self)@ == old(self)@.remove(path.deep_view()),
    {
        proof {
            use_type_invariant(&*self);
        }
        match self.find(path) {
            Some(i) => {
                let mut entries: Vec<Entry<V>> = Vec::new();
                std::mem::swap(&mut entries, &mut self.entries);
                let ghost before = entries@;
                let entry = entries.swap_remove(i);
                proof {
                    lemma_entry(before, i as int);
                    lemma_swap_remove(before, i as int);
                }
                self.entries = entries;
                Some(entry.value)
            },
            None => {
                assert(self@.remove(path.deep_view()) =~= self@);
                None
            },
        }
    }

    /// Gives `path` the value `value`, and takes out the one that it had.
    pub fn insert(&mut self, path: &PathParts, value: V) -> (previous: Option<V>)
        ensures
            previous == if old(self)@.contains_key(path.deep_view()) {
                Some(old(self)@[path.deep_view()])
            } else {
                None
            },
            final(self)@ == old(self)@.insert(path.deep_view(), value),
    {
        let ghost start = self@;
        let previous = self.remove(path);
        proof {
            use_type_invariant(&*self);
        }
        let mut entries: Vec<Entry<V>> = Vec::new();
        std::mem::swap(&mut entries, &mut self.entries);
        let ghost before = entries@;
        entries.push(Entry { path: path.clone(), value });
        proof {
            assert(!entry_map(before).contains_key(path.deep_view()));
            lemma_push(before, entries@.last());
            assert(start.remove(path.deep_view()).insert(path.deep_view(), value) =~= start.insert(
                path.deep_view(),
                value,
            ));
        }
        self.entries = entries;
        previous
    }

    /// Takes every value out of the table.
    pub fn drain(&mut self) -> (values: Vec<V>)
        ensures
            final(self)@ == Map::<Seq<Seq<u8>>, V>::empty(),
            forall|value: V| #[trigger]
                values@.to_multiset().count(value) == times(old(self)@, value),
    {
        proof {
            use_type_invariant(&*self);
        }
        let mut entries: Vec<Entry<V>> = Vec::new();
        std::mem::swap(&mut entries, &mut self.entries);
        assert(self@ =~= Map::<Seq<Seq<u8>>, V>::empty());
        let ghost all = entries@;
        let mut values: Vec<V> = Vec::new();
        for entry in it: entries
            invariant
                it.seq() == all,
                values@ == entry_values(all).take(it.index() as int),
        {
            let ghost k = it.index() as int;
            assert(entry_values(all)[k] == entry.value);
            values.push(entry.value);
            assert(values@ =~= entry_values(all).take(k + 1));
        }
        proof {
            assert(entry_values(all).take(all.len() as int) =~= entry_values(all));
            assert forall|value: V| #[trigger]
                values@.to_multiset().count(value) == times(old(self)@, value) by {
                lemma_times(all, value);
            }
        }
        values
    }
}

/// How many paths have the value `value`.
pub open spec fn times<V>(table: Map<Seq<Seq<u8>>, V>, value: V) -> nat {
    table.dom().filter(|path: Seq<Seq<u8>>| table[path] == value).len()
}

/// A new path with a value raises the count of that value by one, and of no
/// other.
pub proof fn lemma_times_insert<V>(
    table: Map<Seq<Seq<u8>>, V>,
    path: Seq<Seq<u8>>,
    added: V,
    value: V,
)
    requires
        table.dom().finite(),
        !table.contains_key(path),
    ensures
        times(table.insert(path, added), value) == times(table, value) + if added == value {
            1nat
        } else {
            0nat
        },
{
    let after = table.insert(path, added);
    let had = table.dom().filter(|p: Seq<Seq<u8>>| table[p] == value);
    let has = after.dom().filter(|p: Seq<Seq<u8>>| after[p] == value);
    if added == value {
        assert(has =~= had.insert(path));
    } else {
        assert(has =~= had);
    }
}

/// Without a path that has a value, the count of that value is lower by one,
/// and of no other.
pub proof fn lemma_times_remove<V>(table: Map<Seq<Seq<u8>>, V>, path: Seq<Seq<u8>>, value: V)
    requires
        table.dom().finite(),
        table.contains_key(path),
    ensures
        times(table, value) == times(table.remove(path), value) + if table[path] == value {
            1nat
        } else {
            0nat
        },
{
    let rest = table.remove(path);
    assert(rest.insert(path, table[path]) =~= table);
    lemma_times_insert(rest, path, table[path], value);
}

closed spec fn entry_values<V>(entries: Seq<Entry<V>>) -> Seq<V> {
    entries.map_values(|entry: Entry<V>| entry.value)
}

proof fn lemma_shorter<V>(entries: Seq<Entry<V>>)
    requires
        one_per_path(entries),
        entries.len() > 0,
    ensures
        one_per_path(entries.drop_last()),
        !entry_map(entries.drop_last()).contains_key(entries.last().path.deep_view()),
        entry_map(entries) == entry_map(entries.drop_last()).insert(
            entries.last().path.deep_view(),
            entries.last().value,
        ),
{
    let shorter = entries.drop_last();
    let path = entries.last().path.deep_view();
    assert(one_per_path(shorter)) by {
        assert forall|i: int, j: int|
            0 <= i < shorter.len() && 0 <= j < shorter.len()
                && #[trigger] shorter[i].path.deep_view() == #[trigger] shorter[j].path.deep_view()
            implies i == j by {
            assert(entries[i].path.deep_view() == entries[j].path.deep_view());
        }
    }
    assert(!has_path(shorter, path)) by {
        if has_path(shorter, path) {
            let i = place_of(shorter, path);
            assert(shorter[i].path.deep_view() == path);
            assert(entries[i].path.deep_view() == entries[entries.len() - 1].path.deep_view());
        }
    }
    lemma_push(shorter, entries.last());
    assert(shorter.push(entries.last()) =~= entries);
}

proof fn lemma_counts<V>(entries: Seq<Entry<V>>)
    requires
        one_per_path(entries),
    ensures
        entry_map(entries).dom().finite(),
        entry_map(entries).len() == entries.len(),
    decreases entries.len(),
{
    if entries.len() == 0 {
        assert(entry_map(entries) =~= Map::<Seq<Seq<u8>>, V>::empty());
    } else {
        lemma_shorter(entries);
        lemma_counts(entries.drop_last());
        let path = entries.last().path.deep_view();
        assert(entry_map(entries).dom() =~= entry_map(entries.drop_last()).dom().insert(path));
    }
}

proof fn lemma_times<V>(entries: Seq<Entry<V>>, value: V)
    requires
        one_per_path(entries),
    ensures
        entry_values(entries).to_multiset().count(value) == times(entry_map(entries), value),
    decreases entries.len(),
{
    broadcast use vstd::seq_lib::group_to_multiset_ensures;

    if entries.len() == 0 {
        assert(entry_map(entries) =~= Map::<Seq<Seq<u8>>, V>::empty());
        assert(entry_map(entries).dom().filter(
            |path: Seq<Seq<u8>>| entry_map(entries)[path] == value,
        ) =~= Set::empty());
        assert(entry_values(entries) =~= Seq::<V>::empty());
        assert(entry_values(entries).to_multiset().count(value) == 0);
    } else {
        let shorter = entries.drop_last();
        let last = entries.last();
        lemma_shorter(entries);
        lemma_counts(shorter);
        lemma_times(shorter, value);
        lemma_times_insert(entry_map(shorter), last.path.deep_view(), last.value, value);
        assert(entry_values(entries) =~= entry_values(shorter).push(last.value));
        assert(entry_values(entries).to_multiset() =~= entry_values(shorter).to_multiset().insert(
            last.value,
        ));
    }
}

proof fn lemma_swap_remove<V>(before: Seq<Entry<V>>, i: int)
    requires
        one_per_path(before),
        0 <= i < before.len(),
    ensures
        one_per_path(before.update(i, before.last()).drop_last()),
        entry_map(before.update(i, before.last()).drop_last()) == entry_map(before).remove(
            before[i].path.deep_view(),
        ),
{
    let after = before.update(i, before.last()).drop_last();
    let gone = before[i].path.deep_view();
    let n = before.len() - 1;
    assert forall|j: int| 0 <= j < n implies #[trigger] after[j] == if j == i {
        before[n]
    } else {
        before[j]
    } by {}
    assert(one_per_path(after)) by {
        assert forall|j: int, k: int|
            0 <= j < after.len() && 0 <= k < after.len() && #[trigger] after[j].path.deep_view()
                == #[trigger] after[k].path.deep_view() implies j == k by {
            let from_j = if j == i { n } else { j };
            let from_k = if k == i { n } else { k };
            assert(before[from_j].path.deep_view() == before[from_k].path.deep_view());
        }
    }
    assert forall|path: Seq<Seq<u8>>| #[trigger] has_path(after, path) implies path != gone
        && has_path(before, path) && entry_map(after)[path] == entry_map(before)[path] by {
        let j = place_of(after, path);
        assert(after[j].path.deep_view() == path);
        let from = if j == i { n } else { j };
        assert(before[from].path.deep_view() == path);
        lemma_entry(before, from);
        lemma_entry(after, j);
        if path == gone {
            assert(before[i].path.deep_view() == before[from].path.deep_view());
        }
    }
    assert forall|path: Seq<Seq<u8>>|
        #[trigger] has_path(before, path) && path != gone implies has_path(after, path) by {
        let j = place_of(before, path);
        assert(before[j].path.deep_view() == path);
        if j == n {
            assert(after[i].path.deep_view() == path);
        } else {
            assert(after[j].path.deep_view() == path);
        }
    }
    assert(entry_map(after) =~= entry_map(before).remove(gone));
}

proof fn lemma_push<V>(before: Seq<Entry<V>>, entry: Entry<V>)
    requires
        one_per_path(before),
        !entry_map(before).contains_key(entry.path.deep_view()),
    ensures
        one_per_path(before.push(entry)),
        entry_map(before.push(entry)) == entry_map(before).insert(
            entry.path.deep_view(),
            entry.value,
        ),
{
    let after = before.push(entry);
    let path = entry.path.deep_view();
    let n = before.len() as int;
    assert forall|j: int| 0 <= j < n implies #[trigger] after[j] == before[j] by {}
    assert(!has_path(before, path));
    assert(one_per_path(after)) by {
        assert forall|j: int, k: int|
            0 <= j < after.len() && 0 <= k < after.len() && #[trigger] after[j].path.deep_view()
                == #[trigger] after[k].path.deep_view() implies j == k by {
            if j < n {
                assert(before[j].path.deep_view() == after[j].path.deep_view());
            }
            if k < n {
                assert(before[k].path.deep_view() == after[k].path.deep_view());
            }
        }
    }
    lemma_entry(after, n);
    assert forall|other: Seq<Seq<u8>>| #[trigger] has_path(after, other) implies other == path || (
    has_path(before, other) && entry_map(after)[other] == entry_map(before)[other]) by {
        let j = place_of(after, other);
        assert(after[j].path.deep_view() == other);
        if j < n {
            assert(before[j].path.deep_view() == other);
            lemma_entry(before, j);
            lemma_entry(after, j);
        }
    }
    assert forall|other: Seq<Seq<u8>>| #[trigger] has_path(before, other) implies has_path(
        after,
        other,
    ) by {
        let j = place_of(before, other);
        assert(after[j].path.deep_view() == other);
    }
    assert(entry_map(after) =~= entry_map(before).insert(path, entry.value));
}

} // verus!
