//! A map from file paths.
use crate::text;
use vstd::prelude::*;

verus! {

/// Values by file path. No path occurs twice.
pub struct FileMap<V> {
    entries: Vec<(String, V)>,
}

/// Whether entry `i` is the one for `path`.
pub open spec fn entry_for<V>(entries: Seq<(String, V)>, path: Seq<char>, i: int) -> bool {
    0 <= i < entries.len() && entries[i].0@ == path
}

/// Whether no path occurs twice.
pub open spec fn distinct<V>(entries: Seq<(String, V)>) -> bool {
    forall|i: int, j: int|
        0 <= i < j < entries.len() ==> (#[trigger] entries[i]).0@ != (#[trigger] entries[j]).0@
}

/// The map that the entries write down.
pub open spec fn as_map<V>(entries: Seq<(String, V)>) -> Map<Seq<char>, V> {
    Map::new(
        |path: Seq<char>| exists|i: int| entry_for(entries, path, i),
        |path: Seq<char>| entries[choose|i: int| entry_for(entries, path, i)].1,
    )
}

impl<V> View for FileMap<V> {
    type V = Map<Seq<char>, V>;

    closed spec fn view(&self) -> Map<Seq<char>, V> {
        as_map(self.entries@)
    }
}

proof fn lemma_lookup<V>(entries: Seq<(String, V)>, i: int)
    requires
        distinct(entries),
        0 <= i < entries.len(),
    ensures
        as_map(entries).contains_key(entries[i].0@),
        as_map(entries)[entries[i].0@] == entries[i].1,
{
    let path = entries[i].0@;
    assert(entry_for(entries, path, i));
    let k = choose|k: int| entry_for(entries, path, k);
    assert(entries[k].0@ == entries[i].0@);
}

proof fn lemma_remove<V>(entries: Seq<(String, V)>, at: int)
    requires
        distinct(entries),
        0 <= at < entries.len(),
    ensures
        distinct(entries.remove(at)),
        as_map(entries.remove(at)) == as_map(entries).remove(entries[at].0@),
{
    let less = entries.remove(at);
    let gone = entries[at].0@;
    assert forall|i: int, j: int| 0 <= i < j < less.len() implies (#[trigger] less[i]).0@ != (
    #[trigger] less[j]).0@ by {
        let i0 = if i < at { i } else { i + 1 };
        let j0 = if j < at { j } else { j + 1 };
        assert(less[i] == entries[i0] && less[j] == entries[j0]);
    }
    assert forall|path: Seq<char>|
        as_map(less).contains_key(path) == (as_map(entries).contains_key(path) && path != gone) && (
        as_map(less).contains_key(path) ==> #[trigger] as_map(less)[path]
            == as_map(entries)[path]) by {
        if as_map(less).contains_key(path) {
            let i = choose|i: int| entry_for(less, path, i);
            let i0 = if i < at { i } else { i + 1 };
            assert(less[i] == entries[i0]);
            lemma_lookup(less, i);
            lemma_lookup(entries, i0);
        }
        if as_map(entries).contains_key(path) && path != gone {
            let i = choose|i: int| entry_for(entries, path, i);
            let i1 = if i < at { i } else { i - 1 };
            assert(entry_for(less, path, i1));
        }
    }
    assert(as_map(less) =~= as_map(entries).remove(gone)) by {
        assert forall|path: Seq<char>|
            as_map(less).contains_key(path) == as_map(entries).remove(gone).contains_key(
                path,
            ) by {
            let _ = as_map(less)[path];
        }
        assert forall|path: Seq<char>| #[trigger]
            as_map(less).contains_key(path) implies as_map(less)[path] == as_map(entries).remove(
            gone,
        )[path] by {
            let _ = as_map(less)[path];
        }
    }
}

proof fn lemma_push<V>(entries: Seq<(String, V)>, entry: (String, V))
    requires
        distinct(entries),
        !as_map(entries).contains_key(entry.0@),
    ensures
        distinct(entries.push(entry)),
        as_map(entries.push(entry)) == as_map(entries).insert(entry.0@, entry.1),
{
    let more = entries.push(entry);
    assert forall|i: int, j: int| 0 <= i < j < more.len() implies (#[trigger] more[i]).0@ != (
    #[trigger] more[j]).0@ by {
        if j == entries.len() {
            assert(more[i] == entries[i]);
            lemma_lookup(entries, i);
        } else {
            assert(more[i] == entries[i] && more[j] == entries[j]);
        }
    }
    assert(as_map(more) =~= as_map(entries).insert(entry.0@, entry.1)) by {
        lemma_lookup(more, entries.len() as int);
        assert forall|path: Seq<char>| #[trigger]
            as_map(more).contains_key(path) == as_map(entries).insert(
                entry.0@,
                entry.1,
            ).contains_key(path) && (as_map(more).contains_key(path) ==> as_map(more)[path]
            == as_map(entries).insert(entry.0@, entry.1)[path]) by {
            if as_map(more).contains_key(path) && path != entry.0@ {
                let i = choose|i: int| entry_for(more, path, i);
                assert(more[i] == entries[i]);
                lemma_lookup(more, i);
                lemma_lookup(entries, i);
            }
            if as_map(entries).contains_key(path) {
                let i = choose|i: int| entry_for(entries, path, i);
                assert(more[i] == entries[i]);
                assert(entry_for(more, path, i));
            }
        }
    }
}

/// Finds the entry for `path`.
fn find<V>(entries: &Vec<(String, V)>, path: &str) -> (r: Option<usize>)
    ensures
        match r {
            Some(i) => entry_for(entries@, path@, i as int),
            None => !as_map(entries@).contains_key(path@),
        },
{
    let mut i: usize = 0;
    while i < entries.len()
        invariant
            i <= entries.len(),
            forall|j: int| 0 <= j < i ==> !#[trigger] entry_for(entries@, path@, j),
        decreases entries.len() - i,
    {
        if text::same(entries[i].0.as_str(), path) {
            return Some(i);
        }
        i = i + 1;
    }
    None
}

impl<V> FileMap<V> {
    #[verifier::type_invariant]
    spec fn paths_distinct(self) -> bool {
        distinct(self.entries@)
    }

    /// The empty map.
    pub fn new() -> (r: Self)
        ensures
            r@ == Map::<Seq<char>, V>::empty(),
    {
        let r = FileMap { entries: Vec::new() };
        assert(r@ =~= Map::<Seq<char>, V>::empty());
        r
    }

    /// Whether the map has a value for `path`.
    pub fn contains_key(&self, path: &str) -> (r: bool)
        ensures
            r == self@.contains_key(path@),
    {
        find(&self.entries, path).is_some()
    }

    /// Takes the value for `path` out of the map.
    pub fn remove(&mut self, path: &str) -> (r: Option<V>)
        ensures
            final(self)@ == old(self)@.remove(path@),
            match r {
                Some(value) => old(self)@.contains_key(path@) && value == old(self)@[path@],
                None => !old(self)@.contains_key(path@),
            },
    {
        proof {
            use_type_invariant(&*self);
        }
        let ghost before = self.entries@;
        match find(&self.entries, path) {
            None => {
                assert(self@ =~= self@.remove(path@));
                None
            },
            Some(i) => {
                let mut entries: Vec<(String, V)> = Vec::new();
                std::mem::swap(&mut entries, &mut self.entries);
                proof {
                    lemma_lookup(before, i as int);
                    lemma_remove(before, i as int);
                }
                let (_, value) = entries.remove(i);
                self.entries = entries;
                Some(value)
            },
        }
    }

    /// Sets the value for `path`.
    pub fn insert(&mut self, path: String, value: V)
        ensures
            final(self)@ == old(self)@.insert(path@, value),
    {
        let _ = self.remove(path.as_str());
        proof {
            use_type_invariant(&*self);
        }
        let ghost before = self.entries@;
        let mut entries: Vec<(String, V)> = Vec::new();
        std::mem::swap(&mut entries, &mut self.entries);
        proof {
            lemma_push(before, (path, value));
        }
        entries.push((path, value));
        self.entries = entries;
        assert(self@ =~= old(self)@.insert(path@, value));
    }
}

} // verus!
