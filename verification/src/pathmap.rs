//! A small map from dotted paths to values.

use crate::builder::clear_of;
use crate::builder::kept_marks;
use crate::source::ConfigSource;
use vstd::prelude::*;

verus! {

/// The mapping that a list of bindings stands for: a later binding of a path
/// replaces an earlier one.
pub open spec fn bindings_map<V>(entries: Seq<(String, V)>) -> Map<Seq<char>, V>
    decreases entries.len(),
{
    if entries.len() == 0 {
        Map::empty()
    } else {
        bindings_map(entries.drop_last()).insert(entries.last().0@, entries.last().1)
    }
}

/// A path is bound exactly when some binding names it.
pub proof fn lemma_bindings_absent<V>(entries: Seq<(String, V)>, key: Seq<char>)
    requires
        forall|j: int| 0 <= j < entries.len() ==> (#[trigger] entries[j]).0@ != key,
    ensures
        !bindings_map(entries).contains_key(key),
    decreases entries.len(),
{
    if entries.len() > 0 {
        let head = entries.drop_last();
        assert forall|j: int| 0 <= j < head.len() implies (#[trigger] head[j]).0@ != key by {
            assert(head[j] == entries[j]);
        }
        lemma_bindings_absent(head, key);
        assert(entries.last() == entries[entries.len() - 1]);
    }
}

/// The last binding of a path decides its value.
pub proof fn lemma_bindings_last<V>(entries: Seq<(String, V)>, key: Seq<char>, i: int)
    requires
        0 <= i < entries.len(),
        entries[i].0@ == key,
        forall|j: int| i < j < entries.len() ==> (#[trigger] entries[j]).0@ != key,
    ensures
        bindings_map(entries).contains_key(key),
        bindings_map(entries)[key] == entries[i].1,
    decreases entries.len(),
{
    if i < entries.len() - 1 {
        let head = entries.drop_last();
        assert(head[i] == entries[i]);
        assert forall|j: int| i < j < head.len() implies (#[trigger] head[j]).0@ != key by {
            assert(head[j] == entries[j]);
        }
        lemma_bindings_last(head, key, i);
        assert(entries.last() == entries[entries.len() - 1]);
    }
}

/// The bound texts of a list of bindings.
pub open spec fn bindings_texts(entries: Seq<(String, String)>) -> Map<Seq<char>, Seq<char>>
    decreases entries.len(),
{
    if entries.len() == 0 {
        Map::empty()
    } else {
        bindings_texts(entries.drop_last()).insert(entries.last().0@, entries.last().1@)
    }
}

/// The texts go by the bindings: a path bound to a string is bound to its text.
pub proof fn lemma_bindings_texts(entries: Seq<(String, String)>)
    ensures
        bindings_texts(entries).dom() == bindings_map(entries).dom(),
        forall|k: Seq<char>| #[trigger]
            bindings_map(entries).contains_key(k) ==> bindings_texts(entries)[k] == bindings_map(
                entries,
            )[k]@,
    decreases entries.len(),
{
    if entries.len() > 0 {
        lemma_bindings_texts(entries.drop_last());
        assert(bindings_texts(entries).dom() =~= bindings_map(entries).dom());
    } else {
        assert(bindings_texts(entries).dom() =~= bindings_map(entries).dom());
    }
}

/// A map from dotted paths to values of type `V`.
#[derive(Debug)]
pub struct PathMap<V> {
    entries: Vec<(String, V)>,
}

impl<V> PathMap<V> {
    /// The mapping that this map holds.
    pub closed spec fn map(&self) -> Map<Seq<char>, V> {
        bindings_map(self.entries@)
    }

    /// A map without bindings.
    pub fn new() -> (r: Self)
        ensures
            r.map() == Map::<Seq<char>, V>::empty(),
    {
        PathMap { entries: Vec::new() }
    }

    /// Binds `key` to `value`, replacing what it was bound to.
    pub fn insert(&mut self, key: String, value: V)
        ensures
            final(self).map() == old(self).map().insert(key@, value),
    {
        let ghost before = self.entries@;
        self.entries.push((key, value));
        proof {
            assert(self.entries@.drop_last() =~= before);
        }
    }

    /// The value that `key` is bound to.
    pub fn get(&self, key: &str) -> (r: Option<&V>)
        ensures
            match r {
                Some(v) => self.map().contains_key(key@) && self.map()[key@] == *v,
                None => !self.map().contains_key(key@),
            },
    {
        let mut i: usize = self.entries.len();
        while i > 0
            invariant
                i <= self.entries.len(),
                forall|j: int| i <= j < self.entries.len() ==> (#[trigger] self.entries@[j]).0@ != key@,
            decreases i,
        {
            i = i - 1;
            if self.entries[i].0.as_str().eq(key) {
                proof {
                    lemma_bindings_last(self.entries@, key@, i as int);
                }
                return Some(&self.entries[i].1);
            }
        }
        proof {
            lemma_bindings_absent(self.entries@, key@);
        }
        None
    }
}

impl PathMap<String> {
    /// The mapping that this map holds, each bound string taken as its text.
    pub closed spec fn texts(&self) -> Map<Seq<char>, Seq<char>> {
        bindings_texts(self.entries@)
    }

    /// The texts go by the bindings.
    pub proof fn lemma_texts(&self)
        ensures
            self.texts().dom() == self.map().dom(),
            forall|k: Seq<char>| #[trigger]
                self.map().contains_key(k) ==> self.texts()[k] == self.map()[k]@,
    {
        lemma_bindings_texts(self.entries@);
    }

    /// Binds `key` to the text `value`, replacing what it was bound to.
    pub fn insert_text(&mut self, key: String, value: String)
        ensures
            final(self).texts() == old(self).texts().insert(key@, value@),
    {
        let ghost before = self.entries@;
        self.entries.push((key, value));
        proof {
            assert(self.entries@.drop_last() =~= before);
        }
    }

    /// The text that `key` is bound to.
    pub fn get_text(&self, key: &str) -> (r: Option<&str>)
        ensures
            match r {
                Some(v) => self.texts().contains_key(key@) && self.texts()[key@] == v@,
                None => !self.texts().contains_key(key@),
            },
    {
        proof {
            lemma_bindings_texts(self.entries@);
        }
        match self.get(key) {
            Some(v) => {
                assert(self.map().contains_key(key@));
                Some(v.as_str())
            },
            None => None,
        }
    }
}

/// The bindings among `entries` whose paths are clear of `path`, in order.
pub open spec fn bindings_clear_of(
    entries: Seq<(String, ConfigSource)>,
    path: Seq<char>,
) -> Seq<(String, ConfigSource)>
    decreases entries.len(),
{
    if entries.len() == 0 {
        Seq::empty()
    } else if clear_of(entries.last().0@, path) {
        bindings_clear_of(entries.drop_last(), path).push(entries.last())
    } else {
        bindings_clear_of(entries.drop_last(), path)
    }
}

/// The bindings whose paths are clear of a path stand for the mapping
/// without the paths that are not.
pub proof fn lemma_bindings_clear_of(entries: Seq<(String, ConfigSource)>, path: Seq<char>)
    ensures
        bindings_map(bindings_clear_of(entries, path)) == kept_marks(bindings_map(entries), path),
    decreases entries.len(),
{
    let keep = Set::new(|k: Seq<char>| clear_of(k, path));
    if entries.len() == 0 {
        assert(bindings_map(bindings_clear_of(entries, path)) =~= kept_marks(
            bindings_map(entries),
            path,
        ));
    } else {
        let head = entries.drop_last();
        let last = entries.last();
        lemma_bindings_clear_of(head, path);
        let kept = bindings_clear_of(head, path);
        if clear_of(last.0@, path) {
            assert(kept.push(last).drop_last() =~= kept);
            assert(bindings_map(kept.push(last)) == bindings_map(kept).insert(last.0@, last.1));
            assert(bindings_map(kept).insert(last.0@, last.1) =~= bindings_map(head).insert(
                last.0@,
                last.1,
            ).restrict(keep));
        } else {
            assert(bindings_map(kept) =~= bindings_map(head).insert(last.0@, last.1).restrict(keep));
        }
    }
}

impl PathMap<ConfigSource> {
    /// Drops the marks of `path` and of the paths above and below it.
    pub fn remove_across(&mut self, path: &str)
        ensures
            final(self).map() == kept_marks(old(self).map(), path@),
    {
        let ghost before = self.entries@;
        let mut kept: Vec<(String, ConfigSource)> = Vec::new();
        let mut i: usize = 0;
        proof {
            assert(before.take(0) =~= Seq::<(String, ConfigSource)>::empty());
        }
        while i < self.entries.len()
            invariant
                i <= self.entries.len(),
                self.entries@ == before,
                kept@ == bindings_clear_of(before.take(i as int), path@),
            decreases self.entries.len() - i,
        {
            proof {
                let next = before.take(i as int + 1);
                assert(next.drop_last() =~= before.take(i as int));
                assert(next.last() == before[i as int]);
            }
            if crate::text::paths_clear(self.entries[i].0.as_str(), path) {
                kept.push((self.entries[i].0.clone(), self.entries[i].1));
            }
            i = i + 1;
        }
        proof {
            assert(before.take(before.len() as int) =~= before);
            lemma_bindings_clear_of(before, path@);
        }
        self.entries = kept;
    }
}

} // verus!
