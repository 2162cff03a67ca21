//! Merging layers into one tree while remembering, path by path, which layer
//! wrote last.

use crate::pathmap::PathMap;
use crate::source::ConfigSource;
use crate::text::concat3;
use crate::text::owned;
use crate::text::split_dots;
use crate::tree::lemma_table_view;
use crate::tree::Node;
use crate::tree::Tree;
use vstd::prelude::*;

verus! {

/// One write of a merge: a leaf value and the dotted path it goes to.
pub ghost struct Write {
    pub path: Seq<char>,
    pub value: Tree,
}

/// The dotted path of the entry `key` inside the table at `prefix`. The root
/// table has the empty path.
pub open spec fn child_path(prefix: Seq<char>, key: Seq<char>) -> Seq<char> {
    if prefix.len() == 0 {
        key
    } else {
        prefix + seq!['.'] + key
    }
}

/// The writes that the first `n` entries of the table `layer` give rise to,
/// in order, where `layer` itself sits at the path `prefix`. A nested table
/// contributes the writes of its own entries (none where it is empty), an
/// absent value contributes nothing, and any other value is written at its
/// path.
pub open spec fn writes_upto(layer: Tree, prefix: Seq<char>, n: int) -> Seq<Write>
    decreases layer, n,
{
    if !(layer is Table) || n <= 0 || n > layer->Table_0.len() {
        Seq::empty()
    } else {
        let entry = layer->Table_0[n - 1];
        let path = child_path(prefix, entry.0);
        let here = match entry.1 {
            Tree::Table(sub) => writes_upto(entry.1, path, sub.len() as int),
            Tree::Null => Seq::empty(),
            _ => seq![Write { path, value: entry.1 }],
        };
        writes_upto(layer, prefix, n - 1) + here
    }
}

/// All the writes of a layer, in the order in which a merge performs them.
pub open spec fn writes(layer: Tree) -> Seq<Write> {
    writes_upto(layer, Seq::empty(), layer.entries().len() as int)
}

/// Whether two dotted paths are clear of each other: neither is the other,
/// and neither lies above the other.
pub open spec fn clear_of(a: Seq<char>, b: Seq<char>) -> bool {
    crate::tree_laws::apart(split_dots(a), split_dots(b))
}

/// The marks that a write at `path` leaves: those of the paths that are
/// clear of it.
pub open spec fn kept_marks(
    sources: Map<Seq<char>, ConfigSource>,
    path: Seq<char>,
) -> Map<Seq<char>, ConfigSource> {
    sources.restrict(Set::new(|k: Seq<char>| clear_of(k, path)))
}

/// What a merge has accumulated so far.
pub ghost struct Merged {
    /// The merged tree.
    pub tree: Tree,
    /// For every path written so far, the layer that wrote last.
    pub sources: Map<Seq<char>, ConfigSource>,
    /// For every path that the environment supplied, the variable it came from.
    pub env_vars: Map<Seq<char>, Seq<char>>,
}

impl Merged {
    /// Nothing merged yet: an empty table and no records.
    pub open spec fn start() -> Merged {
        Merged { tree: Tree::empty(), sources: Map::empty(), env_vars: Map::empty() }
    }

    /// The state after one write by the layer `source`: the value stands at
    /// the path, the path is marked with the layer, and the marks of the
    /// paths above and below it are gone with the values that the write
    /// displaced there.
    pub open spec fn write(self, w: Write, source: ConfigSource) -> Merged {
        Merged {
            tree: self.tree.with(split_dots(w.path), w.value),
            sources: kept_marks(self.sources, w.path).insert(w.path, source),
            env_vars: self.env_vars,
        }
    }

    /// The state after the writes `ws`, performed in order by the layer `source`.
    pub open spec fn apply(self, ws: Seq<Write>, source: ConfigSource) -> Merged
        decreases ws.len(),
    {
        if ws.len() == 0 {
            self
        } else {
            self.apply(ws.drop_last(), source).write(ws.last(), source)
        }
    }

    /// The state after the whole of `layer` is merged in as `source`.
    pub open spec fn merge(self, layer: Tree, source: ConfigSource) -> Merged {
        self.apply(writes(layer), source)
    }

    /// The state after noting that `path` was supplied by the variable `var`.
    pub open spec fn record(self, path: Seq<char>, var: Seq<char>) -> Merged {
        Merged { tree: self.tree, sources: self.sources, env_vars: self.env_vars.insert(path, var) }
    }

    /// The layer that supplied `path`; a path that nobody wrote counts as a default.
    pub open spec fn source_of(self, path: Seq<char>) -> ConfigSource {
        if self.sources.contains_key(path) {
            self.sources[path]
        } else {
            ConfigSource::Default
        }
    }

    /// The variable that supplied `path`, where the environment did.
    pub open spec fn env_var_of(self, path: Seq<char>) -> Option<Seq<char>> {
        if self.env_vars.contains_key(path) {
            Some(self.env_vars[path])
        } else {
            None
        }
    }
}

/// Writes performed one batch after another are the writes of the two
/// batches in a row.
pub proof fn lemma_apply_concat(m: Merged, a: Seq<Write>, b: Seq<Write>, source: ConfigSource)
    ensures
        m.apply(a + b, source) == m.apply(a, source).apply(b, source),
    decreases b.len(),
{
    if b.len() == 0 {
        assert(a + b =~= a);
    } else {
        assert((a + b).drop_last() =~= a + b.drop_last());
        assert((a + b).last() == b.last());
        lemma_apply_concat(m, a, b.drop_last(), source);
    }
}

/// Writes leave a table a table, and leave the record of variables alone.
pub proof fn lemma_apply_keeps_table(m: Merged, ws: Seq<Write>, source: ConfigSource)
    requires
        m.tree is Table,
    ensures
        m.apply(ws, source).tree is Table,
        m.apply(ws, source).env_vars == m.env_vars,
    decreases ws.len(),
{
    if ws.len() > 0 {
        lemma_apply_keeps_table(m, ws.drop_last(), source);
        crate::text::lemma_split_dots_shape(ws.last().path);
    }
}

/// A batch of one write is that write.
pub proof fn lemma_apply_one(m: Merged, w: Write, source: ConfigSource)
    ensures
        m.apply(seq![w], source) == m.write(w, source),
{
    let ws = seq![w];
    assert(ws.drop_last() =~= Seq::<Write>::empty());
    assert(m.apply(ws.drop_last(), source) == m);
    assert(ws.last() == w);
}

/// Accumulates layers: the merged tree, which layer wrote each path last, and
/// which environment variable supplied a path.
pub struct ConfigBuilder {
    config: Node,
    sources: PathMap<ConfigSource>,
    env_vars_used: PathMap<String>,
}

impl ConfigBuilder {
    /// What has been merged so far.
    pub closed spec fn model(&self) -> Merged {
        Merged {
            tree: self.config@,
            sources: self.sources.map(),
            env_vars: self.env_vars_used.texts(),
        }
    }

    /// Whether the merged tree is a table, as it is from the start and stays
    /// through every merge.
    pub open spec fn wf(&self) -> bool {
        self.model().tree is Table
    }

    /// A builder into which nothing has been merged.
    pub fn new() -> (r: Self)
        ensures
            r.model() == Merged::start(),
            r.wf(),
            r.model().tree.is_mapping(),
            crate::laws::marks_have_values(r.model()),
    {
        let env_vars_used: PathMap<String> = PathMap::new();
        proof {
            assert(Tree::empty().is_mapping());
            env_vars_used.lemma_texts();
            assert(env_vars_used.texts() =~= Map::<Seq<char>, Seq<char>>::empty());
        }
        ConfigBuilder { config: Node::empty_table(), sources: PathMap::new(), env_vars_used }
    }

    /// Notes which environment variable supplied the value at `config_path`.
    pub fn record_env_var(&mut self, config_path: &str, env_var: &str)
        ensures
            final(self).model() == old(self).model().record(config_path@, env_var@),
    {
        self.env_vars_used.insert_text(owned(config_path), owned(env_var));
    }

    /// The environment variable that supplied the value at `path`, if one did.
    pub fn get_env_var_used(&self, path: &str) -> (r: Option<&str>)
        ensures
            match r {
                Some(v) => self.model().env_var_of(path@) == Some(v@),
                None => self.model().env_var_of(path@) is None,
            },
    {
        self.env_vars_used.get_text(path)
    }

    /// Merges `layer` in as `source`: every leaf of the layer is written at
    /// its dotted path and the path is marked as supplied by `source`. Empty
    /// tables and absent values write nothing; a write displaces what stood
    /// above or below its path, with the marks of those paths. Where the
    /// merged tree and the layer are mappings, the merged tree stays one; and
    /// where every marked path held a leaf, every marked path holds one.
    pub fn merge_layer(&mut self, layer: &Node, source: ConfigSource)
        ensures
            final(self).model() == old(self).model().merge(layer@, source),
            old(self).wf() ==> final(self).wf(),
            old(self).model().tree.is_mapping() && layer@.is_mapping()
                ==> final(self).model().tree.is_mapping(),
            crate::laws::marks_have_values(old(self).model()) ==> crate::laws::marks_have_values(
                final(self).model(),
            ),
    {
        let root = String::new();
        self.merge_recursive(layer, source, root.as_str());
        proof {
            if old(self).wf() {
                lemma_apply_keeps_table(old(self).model(), writes(layer@), source);
            }
            if old(self).model().tree.is_mapping() && layer@.is_mapping() {
                crate::mapping_laws::law_merge_keeps_mapping(old(self).model(), layer@, source);
            }
            if crate::laws::marks_have_values(old(self).model()) {
                crate::laws::law_marks_have_values(old(self).model(), layer@, source);
            }
        }
    }

    /// Merges the entries of the table `layer`, which sits at `path`.
    fn merge_recursive(&mut self, layer: &Node, source: ConfigSource, path: &str)
        ensures
            final(self).model() == old(self).model().apply(
                writes_upto(layer@, path@, layer@.entries().len() as int),
                source,
            ),
        decreases layer,
    {
        match layer {
            Node::Table(entries) => {
                proof {
                    lemma_table_view(*entries);
                }
                let mut i: usize = 0;
                while i < entries.len()
                    invariant
                        layer is Table,
                        layer->Table_0 == *entries,
                        i <= entries.len(),
                        self.model() == old(self).model().apply(
                            writes_upto(layer@, path@, i as int),
                            source,
                        ),
                    decreases entries.len() - i,
                {
                    let key = &entries[i].0;
                    let value = &entries[i].1;
                    let full_path = if path.is_empty() {
                        owned(key.as_str())
                    } else {
                        proof {
                            reveal_strlit(".");
                            assert("."@ =~= seq!['.']);
                        }
                        concat3(path, ".", key.as_str())
                    };
                    let ghost before = self.model();
                    let ghost done = writes_upto(layer@, path@, i as int);
                    let ghost here = writes_upto(layer@, path@, i as int + 1).subrange(
                        done.len() as int,
                        writes_upto(layer@, path@, i as int + 1).len() as int,
                    );
                    proof {
                        lemma_table_view(*entries);
                        assert(layer@->Table_0[i as int] == (key@, value@));
                        assert(full_path@ == child_path(path@, key@));
                        assert(writes_upto(layer@, path@, i as int + 1) =~= done + here);
                    }
                    if value.is_table() {
                        proof {
                            assert(decreases_to!(layer => layer->Table_0));
                            assert(decreases_to!(layer->Table_0 => layer->Table_0@));
                            assert(decreases_to!(layer->Table_0@ => layer->Table_0@[i as int]));
                            assert(decreases_to!(layer->Table_0@[i as int] => layer->Table_0@[i as int].1));
                            assert(here =~= writes_upto(
                                value@,
                                full_path@,
                                value@.entries().len() as int,
                            ));
                        }
                        self.merge_recursive(value, source, full_path.as_str());
                    } else if !value.is_null() {
                        let copy = value.duplicate();
                        self.sources.remove_across(full_path.as_str());
                        self.sources.insert(full_path.clone(), source);
                        self.config.set_nested_value(full_path.as_str(), copy);
                        proof {
                            let w = Write { path: full_path@, value: value@ };
                            assert(here =~= seq![w]);
                            lemma_apply_one(before, w, source);
                        }
                    } else {
                        proof {
                            assert(here =~= Seq::<Write>::empty());
                        }
                    }
                    proof {
                        lemma_apply_concat(old(self).model(), done, here, source);
                    }
                    i = i + 1;
                }
            },
            _ => {},
        }
    }

    /// The layer that supplied the value at `path`.
    pub fn get_source(&self, path: &str) -> (r: ConfigSource)
        ensures
            r == self.model().source_of(path@),
    {
        match self.sources.get(path) {
            Some(s) => *s,
            None => ConfigSource::Default,
        }
    }

    /// The merged tree.
    pub fn config(&self) -> (r: &Node)
        ensures
            r@ == self.model().tree,
    {
        &self.config
    }

    /// Gives up the builder for its record of sources.
    pub fn into_sources(self) -> (r: PathMap<ConfigSource>)
        ensures
            r.map() == self.model().sources,
    {
        self.sources
    }
}

} // verus!
