//! The law of rebuilding: merged into nothing, a layer of leaves and of
//! sections of leaves comes back as it is.

use crate::builder::child_path;
use crate::builder::writes;
use crate::builder::writes_upto;
use crate::builder::Merged;
use crate::builder::Write;
use crate::default_laws::distinct_keys;
use crate::default_laws::plain_keys;
use crate::names::lemma_split_concat;
use crate::names::lemma_split_dotless;
use crate::source::ConfigSource;
use crate::text::split_dots;
use crate::tree::lemma_key_index_is;
use crate::tree::Tree;
use vstd::prelude::*;

verus! {

/// Whether a tree is a section: a table of leaves under distinct keys,
/// none of them empty or with a dot in it.
pub open spec fn is_section(t: Tree) -> bool {
    &&& t is Table
    &&& distinct_keys(t.entries())
    &&& plain_keys(t.entries())
    &&& forall|a: int| 0 <= a < t.entries().len() ==> (#[trigger] t.entries()[a]).1.is_leaf()
}

/// Whether a tree is a layer of two levels: a table under distinct keys,
/// none of them empty or with a dot in it, each entry a leaf or a section
/// that is not empty.
pub open spec fn is_two_level(t: Tree) -> bool {
    &&& t is Table
    &&& distinct_keys(t.entries())
    &&& plain_keys(t.entries())
    &&& forall|a: int|
        0 <= a < t.entries().len() ==> (#[trigger] t.entries()[a]).1.is_leaf() || (is_section(
            t.entries()[a].1,
        ) && t.entries()[a].1.entries().len() > 0)
}

/// The tree after the writes `ws`, performed in order.
pub open spec fn written(base: Tree, ws: Seq<Write>) -> Tree
    decreases ws.len(),
{
    if ws.len() == 0 {
        base
    } else {
        written(base, ws.drop_last()).with(split_dots(ws.last().path), ws.last().value)
    }
}

/// The tree of a merge is the tree after its writes.
pub proof fn lemma_apply_writes(m: Merged, ws: Seq<Write>, source: ConfigSource)
    ensures
        m.apply(ws, source).tree == written(m.tree, ws),
    decreases ws.len(),
{
    if ws.len() > 0 {
        lemma_apply_writes(m, ws.drop_last(), source);
    }
}

/// Writes performed one batch after another are the writes of the two
/// batches in a row.
pub proof fn lemma_written_concat(base: Tree, a: Seq<Write>, b: Seq<Write>)
    ensures
        written(base, a + b) == written(written(base, a), b),
    decreases b.len(),
{
    if b.len() == 0 {
        assert(a + b =~= a);
    } else {
        assert((a + b).drop_last() =~= a + b.drop_last());
        assert((a + b).last() == b.last());
        lemma_written_concat(base, a, b.drop_last());
    }
}

/// Binding a new key twice is binding it to the later value.
proof fn lemma_put_again(t: Tree, key: Seq<char>, first: Tree, second: Tree)
    requires
        t is Table,
        t.field(key) is None,
    ensures
        t.put(key, first).put(key, second) == t.put(key, second),
        t.put(key, second) == Tree::Table(t.entries().push((key, second))),
        t.put(key, first).field(key) == Some(first),
{
    let e = t.entries();
    let once = e.push((key, first));
    crate::tree::lemma_key_index(e, key);
    assert(crate::tree::key_index(e, key) == e.len());
    lemma_key_index_is(once, key, e.len() as int);
    assert(once.update(e.len() as int, (key, second)) =~= e.push((key, second)));
}

/// The writes of the first entries of a section, performed on a table
/// that does not bind the section's name, bind the name to those entries.
proof fn lemma_section_rebuilds(base: Tree, name: Seq<char>, section: Tree, n: int)
    requires
        base is Table,
        base.field(name) is None,
        crate::text::dotless(name),
        name.len() > 0,
        is_section(section),
        1 <= n <= section.entries().len(),
    ensures
        written(base, writes_upto(section, name, n)) == base.put(
            name,
            Tree::Table(section.entries().take(n)),
        ),
    decreases n,
{
    let e = section.entries();
    let entry = e[n - 1];
    let path = child_path(name, entry.0);
    let head = writes_upto(section, name, n - 1);
    let w = Write { path, value: entry.1 };
    assert(entry.1.is_leaf());
    assert(writes_upto(section, name, n) =~= head + seq![w]);
    assert((head + seq![w]).drop_last() =~= head);
    lemma_split_dotless(name);
    lemma_split_dotless(entry.0);
    lemma_split_concat(name, entry.0);
    let parts = seq![name, entry.0];
    assert(split_dots(path) =~= parts);
    assert(parts.drop_first() =~= seq![entry.0]);
    let before = e.take(n - 1);
    assert(crate::tree::key_index(before, entry.0) == before.len()) by {
        assert forall|j: int| 0 <= j < before.len() implies (#[trigger] before[j]).0
            != entry.0 by {
            assert(before[j] == e[j]);
        }
        lemma_key_index_is(before, entry.0, before.len() as int);
    }
    assert(before.push((entry.0, entry.1)) =~= e.take(n));
    if n == 1 {
        assert(head =~= Seq::<Write>::empty());
        assert(written(base, head) == base);
        assert(before =~= Seq::<(Seq<char>, Tree)>::empty());
        let child = Tree::empty();
        assert(child.with(seq![entry.0], entry.1) == child.put(entry.0, entry.1));
        assert(child.put(entry.0, entry.1) == Tree::Table(e.take(n)));
        assert(base.with(parts, entry.1) == base.put(name, Tree::Table(e.take(n))));
    } else {
        lemma_section_rebuilds(base, name, section, n - 1);
        let earlier = Tree::Table(before);
        let state = base.put(name, earlier);
        lemma_put_again(base, name, earlier, Tree::Table(e.take(n)));
        assert(state.field(name) == Some(earlier));
        assert(earlier.with(seq![entry.0], entry.1) == earlier.put(entry.0, entry.1));
        assert(earlier.put(entry.0, entry.1) == Tree::Table(e.take(n)));
        assert(state.with(parts, entry.1) == state.put(name, Tree::Table(e.take(n))));
    }
}

/// The writes of the first entries of a layer of two levels, performed on
/// an empty table, give the table of those entries.
proof fn lemma_layer_rebuilds(layer: Tree, n: int)
    requires
        is_two_level(layer),
        0 <= n <= layer.entries().len(),
    ensures
        written(Tree::empty(), writes_upto(layer, Seq::empty(), n)) == Tree::Table(
            layer.entries().take(n),
        ),
    decreases n,
{
    let e = layer.entries();
    if n == 0 {
        assert(e.take(0) =~= Seq::<(Seq<char>, Tree)>::empty());
    } else {
        lemma_layer_rebuilds(layer, n - 1);
        let entry = e[n - 1];
        let path = child_path(Seq::empty(), entry.0);
        assert(path == entry.0);
        let head = writes_upto(layer, Seq::empty(), n - 1);
        let before = e.take(n - 1);
        let state = Tree::Table(before);
        assert(crate::tree::key_index(before, entry.0) == before.len()) by {
            assert forall|j: int| 0 <= j < before.len() implies (#[trigger] before[j]).0
                != entry.0 by {
                assert(before[j] == e[j]);
            }
            lemma_key_index_is(before, entry.0, before.len() as int);
        }
        assert(before.push((entry.0, entry.1)) =~= e.take(n));
        assert(state.put(entry.0, entry.1) == Tree::Table(e.take(n)));
        if entry.1.is_leaf() {
            let w = Write { path, value: entry.1 };
            assert(writes_upto(layer, Seq::empty(), n) =~= head + seq![w]);
            assert((head + seq![w]).drop_last() =~= head);
            lemma_split_dotless(entry.0);
            assert(state.with(seq![entry.0], entry.1) == state.put(entry.0, entry.1));
        } else {
            let section = entry.1;
            let m = section.entries().len() as int;
            let here = writes_upto(section, path, m);
            assert(writes_upto(layer, Seq::empty(), n) =~= head + here);
            lemma_written_concat(Tree::empty(), head, here);
            lemma_section_rebuilds(state, entry.0, section, m);
            assert(section.entries().take(m) =~= section.entries());
        }
    }
}

/// Merging rebuilds. A layer of two levels, merged into nothing, comes
/// back as it is: the merged tree is the layer, entry for entry and in the
/// same order.
pub proof fn law_merge_rebuilds(layer: Tree, source: ConfigSource)
    requires
        is_two_level(layer),
    ensures
        Merged::start().merge(layer, source).tree == layer,
{
    lemma_apply_writes(Merged::start(), writes(layer), source);
    lemma_layer_rebuilds(layer, layer.entries().len() as int);
    assert(layer.entries().take(layer.entries().len() as int) =~= layer.entries());
}

} // verus!
