//! The laws of merging: a later layer wins where it writes, what it does not
//! touch stays, and empty tables change nothing.

use crate::builder::child_path;
use crate::builder::clear_of;
use crate::builder::writes;
use crate::builder::writes_upto;
use crate::builder::Merged;
use crate::builder::Write;
use crate::source::ConfigSource;
use crate::text::lemma_split_dots_shape;
use crate::text::split_dots;
use crate::tree::Tree;
use crate::tree_laws::apart;
use crate::tree_laws::lemma_with_apart;
use crate::tree_laws::lemma_with_is_table;
use crate::tree_laws::lemma_with_same;
use vstd::prelude::*;

verus! {

/// Whether the write at position `k` is the last one at `path`.
pub open spec fn last_write(ws: Seq<Write>, path: Seq<char>, k: int) -> bool {
    &&& 0 <= k < ws.len()
    &&& ws[k].path == path
    &&& forall|j: int| k < j < ws.len() ==> (#[trigger] ws[j]).path != path
}

/// Whether every write after position `k` is clear of `path`.
pub open spec fn clear_after(ws: Seq<Write>, path: Seq<char>, k: int) -> bool {
    forall|j: int| k < j < ws.len() ==> clear_of((#[trigger] ws[j]).path, path)
}

/// Whether every write is clear of `path`.
pub open spec fn spares(ws: Seq<Write>, path: Seq<char>) -> bool {
    forall|i: int| 0 <= i < ws.len() ==> clear_of((#[trigger] ws[i]).path, path)
}

/// Whether every write is a leaf.
pub open spec fn all_leaves(ws: Seq<Write>) -> bool {
    forall|i: int| 0 <= i < ws.len() ==> (#[trigger] ws[i]).value.is_leaf()
}

/// Whether `layer` sets `path` to `value`: the last of its writes at the
/// path writes the value, and none of its writes after that one goes above
/// or below the path.
pub open spec fn sets(layer: Tree, path: Seq<char>, value: Tree) -> bool {
    exists|k: int|
        {
            &&& #[trigger] last_write(writes(layer), path, k)
            &&& writes(layer)[k].value == value
            &&& clear_after(writes(layer), path, k)
        }
}

/// Whether `layer` leaves `path` alone: it writes neither at the path nor
/// above it nor below it.
pub open spec fn leaves_alone(layer: Tree, path: Seq<char>) -> bool {
    spares(writes(layer), path)
}

/// What a layer writes are leaves.
pub proof fn lemma_writes_are_leaves(layer: Tree, prefix: Seq<char>, n: int)
    ensures
        all_leaves(writes_upto(layer, prefix, n)),
    decreases layer, n,
{
    if layer is Table && 0 < n <= layer->Table_0.len() {
        let entry = layer->Table_0[n - 1];
        let path = child_path(prefix, entry.0);
        lemma_writes_are_leaves(layer, prefix, n - 1);
        if entry.1 is Table {
            lemma_writes_are_leaves(entry.1, path, entry.1->Table_0.len() as int);
        }
        let head = writes_upto(layer, prefix, n - 1);
        let all = writes_upto(layer, prefix, n);
        assert forall|i: int| 0 <= i < all.len() implies (#[trigger] all[i]).value.is_leaf() by {
            if i < head.len() {
                assert(all[i] == head[i]);
            } else {
                if entry.1 is Table {
                    let sub = writes_upto(entry.1, path, entry.1->Table_0.len() as int);
                    assert(all[i] == sub[i - head.len()]);
                }
            }
        }
    }
}

/// After a write, a batch of writes leaves a table.
pub proof fn lemma_apply_is_table(m: Merged, ws: Seq<Write>, source: ConfigSource)
    requires
        ws.len() > 0,
    ensures
        m.apply(ws, source).tree is Table,
{
    lemma_split_dots_shape(ws.last().path);
    lemma_with_is_table(
        m.apply(ws.drop_last(), source).tree,
        split_dots(ws.last().path),
        ws.last().value,
    );
}

/// Every single write is read back: after it the tree holds the written
/// value at the written path, and the path is marked with the layer.
pub proof fn law_write_is_read_back(m: Merged, w: Write, source: ConfigSource)
    ensures
        m.write(w, source).tree.lookup(w.path) == Some(w.value),
        m.write(w, source).source_of(w.path) == source,
{
    lemma_split_dots_shape(w.path);
    lemma_with_same(m.tree, split_dots(w.path), w.value);
}

/// After a batch of writes, a path holds what the last write at it wrote and
/// is marked with the layer of the batch, provided that every write after
/// that one is clear of the path.
pub proof fn lemma_apply_sets(m: Merged, ws: Seq<Write>, source: ConfigSource, path: Seq<char>, k: int)
    requires
        last_write(ws, path, k),
        clear_after(ws, path, k),
    ensures
        m.apply(ws, source).tree.lookup(path) == Some(ws[k].value),
        m.apply(ws, source).source_of(path) == source,
    decreases ws.len(),
{
    let head = ws.drop_last();
    let w = ws.last();
    let before = m.apply(head, source);
    assert(w == ws[ws.len() - 1]);
    lemma_split_dots_shape(w.path);
    lemma_split_dots_shape(path);
    if k == ws.len() - 1 {
        lemma_with_same(before.tree, split_dots(path), w.value);
    } else {
        assert(last_write(head, path, k)) by {
            assert(head[k] == ws[k]);
            assert forall|j: int| k < j < head.len() implies (#[trigger] head[j]).path != path by {
                assert(head[j] == ws[j]);
            }
        }
        assert(clear_after(head, path, k)) by {
            assert forall|j: int| k < j < head.len() implies clear_of(
                (#[trigger] head[j]).path,
                path,
            ) by {
                assert(head[j] == ws[j]);
            }
        }
        lemma_apply_sets(m, head, source, path, k);
        assert(head[k] == ws[k]);
        assert(clear_of(w.path, path));
        assert(w.path != path) by {
            if w.path == path {
                assert(split_dots(path).take(split_dots(path).len() as int) =~= split_dots(path));
            }
        }
        lemma_with_apart(before.tree, split_dots(w.path), w.value, split_dots(path));
    }
}

/// A batch of writes that spares a path leaves the value at the path, the
/// layer it is marked with and the variable on record for it as they were.
pub proof fn lemma_apply_keeps(m: Merged, ws: Seq<Write>, source: ConfigSource, path: Seq<char>)
    requires
        spares(ws, path),
    ensures
        m.apply(ws, source).tree.lookup(path) == m.tree.lookup(path),
        m.apply(ws, source).source_of(path) == m.source_of(path),
        m.apply(ws, source).sources.contains_key(path) == m.sources.contains_key(path),
        m.apply(ws, source).env_var_of(path) == m.env_var_of(path),
    decreases ws.len(),
{
    if ws.len() > 0 {
        let head = ws.drop_last();
        let w = ws.last();
        assert(w == ws[ws.len() - 1]);
        assert(spares(head, path)) by {
            assert forall|i: int| 0 <= i < head.len() implies clear_of(
                (#[trigger] head[i]).path,
                path,
            ) by {
                assert(head[i] == ws[i]);
            }
        }
        lemma_apply_keeps(m, head, source, path);
        let before = m.apply(head, source);
        lemma_split_dots_shape(w.path);
        lemma_split_dots_shape(path);
        assert(clear_of(w.path, path));
        assert(w.path != path) by {
            if w.path == path {
                assert(split_dots(path).take(split_dots(path).len() as int) =~= split_dots(path));
            }
        }
        lemma_with_apart(before.tree, split_dots(w.path), w.value, split_dots(path));
    }
}

/// Where a layer sets a path, the merged state holds the layer's value at
/// the path and marks the path with the layer, whatever was merged before.
pub proof fn lemma_merge_sets(m: Merged, layer: Tree, source: ConfigSource, path: Seq<char>, value: Tree)
    requires
        sets(layer, path, value),
    ensures
        m.merge(layer, source).tree.lookup(path) == Some(value),
        m.merge(layer, source).source_of(path) == source,
        m.merge(layer, source).tree is Table,
        value.is_leaf(),
{
    let ws = writes(layer);
    let k = choose|k: int|
        {
            &&& #[trigger] last_write(ws, path, k)
            &&& ws[k].value == value
            &&& clear_after(ws, path, k)
        };
    lemma_writes_are_leaves(layer, Seq::empty(), layer.entries().len() as int);
    lemma_apply_sets(m, ws, source, path, k);
    lemma_apply_is_table(m, ws, source);
}

/// Where a layer leaves a path alone, the value at the path and the layer it
/// is marked with stay as they were.
pub proof fn lemma_merge_keeps(m: Merged, layer: Tree, source: ConfigSource, path: Seq<char>)
    requires
        leaves_alone(layer, path),
    ensures
        m.merge(layer, source).tree.lookup(path) == m.tree.lookup(path),
        m.merge(layer, source).source_of(path) == m.source_of(path),
        m.merge(layer, source).sources.contains_key(path) == m.sources.contains_key(path),
        m.merge(layer, source).env_var_of(path) == m.env_var_of(path),
{
    lemma_apply_keeps(m, writes(layer), source, path);
}

/// The later layer wins. Where two layers both set a path and are merged one
/// after the other, the path holds the value of the later layer and is
/// marked with the later layer, whatever had been merged before.
pub proof fn law_later_layer_wins(
    m: Merged,
    earlier: Tree,
    earlier_source: ConfigSource,
    later: Tree,
    later_source: ConfigSource,
    path: Seq<char>,
    earlier_value: Tree,
    later_value: Tree,
)
    requires
        sets(earlier, path, earlier_value),
        sets(later, path, later_value),
    ensures
        m.merge(earlier, earlier_source).tree.lookup(path) == Some(earlier_value),
        m.merge(earlier, earlier_source).source_of(path) == earlier_source,
        m.merge(earlier, earlier_source).merge(later, later_source).tree.lookup(path) == Some(
            later_value,
        ),
        m.merge(earlier, earlier_source).merge(later, later_source).source_of(path)
            == later_source,
{
    lemma_merge_sets(m, earlier, earlier_source, path, earlier_value);
    lemma_merge_sets(m.merge(earlier, earlier_source), later, later_source, path, later_value);
}

/// What a layer set stays while the layers after it leave the path alone:
/// merging such a layer changes neither the value at the path nor the layer
/// that the path is marked with.
pub proof fn law_untouched_value_stays(
    m: Merged,
    setter: Tree,
    setter_source: ConfigSource,
    other: Tree,
    other_source: ConfigSource,
    path: Seq<char>,
    value: Tree,
)
    requires
        sets(setter, path, value),
        leaves_alone(other, path),
    ensures
        m.merge(setter, setter_source).merge(other, other_source).tree.lookup(path) == Some(value),
        m.merge(setter, setter_source).merge(other, other_source).source_of(path)
            == setter_source,
{
    lemma_merge_sets(m, setter, setter_source, path, value);
    lemma_merge_keeps(m.merge(setter, setter_source), other, other_source, path);
}

/// A layer that leaves a path alone changes nothing at the path: what the
/// tree holds there, or that it holds nothing there, and the layer that the
/// path is marked with stay as they were.
pub proof fn law_spared_path_stays(m: Merged, layer: Tree, source: ConfigSource, path: Seq<char>)
    requires
        leaves_alone(layer, path),
    ensures
        m.merge(layer, source).tree.lookup(path) == m.tree.lookup(path),
        m.merge(layer, source).source_of(path) == m.source_of(path),
{
    lemma_merge_keeps(m, layer, source, path);
}

/// A table that holds nothing but the table `inner`, nested under the keys
/// `keys`, the first key outermost.
pub open spec fn nested(keys: Seq<Seq<char>>, inner: Tree) -> Tree
    decreases keys.len(),
{
    if keys.len() == 0 {
        inner
    } else {
        Tree::Table(seq![(keys[0], nested(keys.drop_first(), inner))])
    }
}

/// An empty table, however deeply it is nested, gives rise to no write.
pub proof fn lemma_nested_empty_writes_nothing(keys: Seq<Seq<char>>, prefix: Seq<char>)
    ensures
        writes_upto(
            nested(keys, Tree::empty()),
            prefix,
            nested(keys, Tree::empty()).entries().len() as int,
        ) == Seq::<Write>::empty(),
    decreases keys.len(),
{
    if keys.len() > 0 {
        let inner = nested(keys.drop_first(), Tree::empty());
        let t = nested(keys, Tree::empty());
        let path = child_path(prefix, keys[0]);
        lemma_nested_empty_writes_nothing(keys.drop_first(), path);
        assert(t->Table_0[0] == (keys[0], inner));
        assert(inner is Table) by {
            if keys.drop_first().len() == 0 {
            }
        }
        assert(writes_upto(t, prefix, 0) =~= Seq::<Write>::empty());
        assert(writes_upto(t, prefix, 1) =~= writes_upto(t, prefix, 0) + writes_upto(
            inner,
            path,
            inner->Table_0.len() as int,
        ));
    }
}

/// Merging an empty table, at the root or nested under any keys, is no
/// change: every value, every mark and every record stays as it was.
pub proof fn law_empty_table_changes_nothing(m: Merged, keys: Seq<Seq<char>>, source: ConfigSource)
    ensures
        m.merge(nested(keys, Tree::empty()), source) == m,
{
    lemma_nested_empty_writes_nothing(keys, Seq::empty());
}

/// An entry that holds an empty table or an absent value adds nothing to
/// what a layer writes: the layer with the entry merges as the layer without.
pub proof fn law_empty_entry_changes_nothing(
    m: Merged,
    entries: Seq<(Seq<char>, Tree)>,
    key: Seq<char>,
    hollow: Tree,
    source: ConfigSource,
)
    requires
        hollow == Tree::empty() || hollow is Null,
    ensures
        m.merge(Tree::Table(entries.push((key, hollow))), source) == m.merge(
            Tree::Table(entries),
            source,
        ),
{
    let with_entry = Tree::Table(entries.push((key, hollow)));
    let without = Tree::Table(entries);
    let n = entries.len() as int;
    lemma_writes_prefix(with_entry, without, Seq::empty(), n);
    assert(with_entry->Table_0[n] == (key, hollow));
    assert(writes_upto(hollow, child_path(Seq::empty(), key), 0) =~= Seq::<Write>::empty());
    assert(writes_upto(with_entry, Seq::empty(), n + 1) =~= writes_upto(
        with_entry,
        Seq::empty(),
        n,
    ));
}

/// Two tables that agree on their first `n` entries give rise to the same
/// writes from those entries.
pub proof fn lemma_writes_prefix(a: Tree, b: Tree, prefix: Seq<char>, n: int)
    requires
        a is Table,
        b is Table,
        0 <= n <= a->Table_0.len(),
        n <= b->Table_0.len(),
        forall|i: int| 0 <= i < n ==> a->Table_0[i] == b->Table_0[i],
    ensures
        writes_upto(a, prefix, n) == writes_upto(b, prefix, n),
    decreases n,
{
    if n > 0 {
        lemma_writes_prefix(a, b, prefix, n - 1);
    }
}

/// The state after a row of layers is merged, the first layer first.
pub open spec fn merge_all(m: Merged, layers: Seq<(Tree, ConfigSource)>) -> Merged
    decreases layers.len(),
{
    if layers.len() == 0 {
        m
    } else {
        merge_all(m, layers.drop_last()).merge(layers.last().0, layers.last().1)
    }
}

/// Among layers merged in a row, the last one that sets a path wins: where
/// every layer after position `j` leaves the path alone, the path holds the
/// value that layer `j` set and is marked with layer `j`, whatever the
/// layers before it hold. With the layers in their order of precedence,
/// this is the layer of the highest precedence that sets the path.
pub proof fn law_last_setter_wins(
    m: Merged,
    layers: Seq<(Tree, ConfigSource)>,
    path: Seq<char>,
    j: int,
    value: Tree,
)
    requires
        0 <= j < layers.len(),
        sets(layers[j].0, path, value),
        forall|k: int| j < k < layers.len() ==> leaves_alone((#[trigger] layers[k]).0, path),
    ensures
        merge_all(m, layers).tree.lookup(path) == Some(value),
        merge_all(m, layers).source_of(path) == layers[j].1,
    decreases layers.len(),
{
    let head = layers.drop_last();
    let last = layers.last();
    assert(last == layers[layers.len() - 1]);
    if j == layers.len() - 1 {
        lemma_merge_sets(merge_all(m, head), last.0, last.1, path, value);
    } else {
        assert(head[j] == layers[j]);
        assert forall|k: int| j < k < head.len() implies leaves_alone(
            (#[trigger] head[k]).0,
            path,
        ) by {
            assert(head[k] == layers[k]);
        }
        law_last_setter_wins(m, head, path, j, value);
        lemma_merge_keeps(merge_all(m, head), last.0, last.1, path);
    }
}

/// Among layers merged in a row that all leave a path alone, nothing
/// changes at the path.
pub proof fn law_spared_by_all(m: Merged, layers: Seq<(Tree, ConfigSource)>, path: Seq<char>)
    requires
        forall|k: int| 0 <= k < layers.len() ==> leaves_alone((#[trigger] layers[k]).0, path),
    ensures
        merge_all(m, layers).tree.lookup(path) == m.tree.lookup(path),
        merge_all(m, layers).source_of(path) == m.source_of(path),
    decreases layers.len(),
{
    if layers.len() > 0 {
        let head = layers.drop_last();
        let last = layers.last();
        assert(last == layers[layers.len() - 1]);
        assert forall|k: int| 0 <= k < head.len() implies leaves_alone(
            (#[trigger] head[k]).0,
            path,
        ) by {
            assert(head[k] == layers[k]);
        }
        law_spared_by_all(m, head, path);
        lemma_merge_keeps(merge_all(m, head), last.0, last.1, path);
    }
}

/// The first layer shows through. Among layers merged in a row of which
/// all but the first leave a path alone, the path holds what it held after
/// the first layer was merged, and is marked as it was then.
pub proof fn law_first_layer_shows_through(
    m: Merged,
    layers: Seq<(Tree, ConfigSource)>,
    path: Seq<char>,
)
    requires
        layers.len() >= 1,
        forall|k: int| 1 <= k < layers.len() ==> leaves_alone((#[trigger] layers[k]).0, path),
    ensures
        merge_all(m, layers).tree.lookup(path) == m.merge(layers[0].0, layers[0].1).tree.lookup(
            path,
        ),
        merge_all(m, layers).source_of(path) == m.merge(layers[0].0, layers[0].1).source_of(path),
    decreases layers.len(),
{
    let head = layers.drop_last();
    let last = layers.last();
    assert(last == layers[layers.len() - 1]);
    if layers.len() == 1 {
        assert(head.len() == 0);
        assert(merge_all(m, head) == m);
    } else {
        assert(head[0] == layers[0]);
        assert forall|k: int| 1 <= k < head.len() implies leaves_alone(
            (#[trigger] head[k]).0,
            path,
        ) by {
            assert(head[k] == layers[k]);
        }
        law_first_layer_shows_through(m, head, path);
        lemma_merge_keeps(merge_all(m, head), last.0, last.1, path);
    }
}

/// Whether every mark has its value: at every path that is marked, the
/// tree holds a leaf.
pub open spec fn marks_have_values(m: Merged) -> bool {
    forall|path: Seq<char>| #[trigger]
        m.sources.contains_key(path) ==> m.tree.lookup(path) is Some && m.tree.lookup(
            path,
        )->0.is_leaf()
}

/// A write of a leaf keeps every mark with its value.
pub proof fn lemma_write_keeps_marks(m: Merged, w: Write, source: ConfigSource)
    requires
        marks_have_values(m),
        w.value.is_leaf(),
    ensures
        marks_have_values(m.write(w, source)),
{
    let after = m.write(w, source);
    lemma_split_dots_shape(w.path);
    lemma_with_same(m.tree, split_dots(w.path), w.value);
    assert forall|path: Seq<char>| #[trigger] after.sources.contains_key(path) implies after.tree.lookup(
        path,
    ) is Some && after.tree.lookup(path)->0.is_leaf() by {
        if path != w.path {
            assert(m.sources.contains_key(path) && clear_of(path, w.path));
            lemma_split_dots_shape(path);
            assert(apart(split_dots(w.path), split_dots(path)));
            lemma_with_apart(m.tree, split_dots(w.path), w.value, split_dots(path));
        }
    }
}

/// Writes of leaves keep every mark with its value.
pub proof fn lemma_apply_keeps_marks(m: Merged, ws: Seq<Write>, source: ConfigSource)
    requires
        marks_have_values(m),
        all_leaves(ws),
    ensures
        marks_have_values(m.apply(ws, source)),
    decreases ws.len(),
{
    if ws.len() > 0 {
        let head = ws.drop_last();
        assert(all_leaves(head)) by {
            assert forall|i: int| 0 <= i < head.len() implies (#[trigger] head[i]).value.is_leaf() by {
                assert(head[i] == ws[i]);
            }
        }
        lemma_apply_keeps_marks(m, head, source);
        assert(ws.last() == ws[ws.len() - 1]);
        lemma_write_keeps_marks(m.apply(head, source), ws.last(), source);
    }
}

/// Every mark has its value. Where the tree holds a leaf at every marked
/// path, it does so after a layer is merged, whatever the layer holds: a
/// path is marked only where the tree holds a value that a layer wrote
/// there.
pub proof fn law_marks_have_values(m: Merged, layer: Tree, source: ConfigSource)
    requires
        marks_have_values(m),
    ensures
        marks_have_values(m.merge(layer, source)),
{
    lemma_writes_are_leaves(layer, Seq::empty(), layer.entries().len() as int);
    lemma_apply_keeps_marks(m, writes(layer), source);
}

/// Whether the dotted path `a` lies strictly above the dotted path `b`.
pub open spec fn above(a: Seq<char>, b: Seq<char>) -> bool {
    crate::tree_laws::begins(split_dots(a), split_dots(b)) && split_dots(a).len() < split_dots(
        b,
    ).len()
}

/// Whether none of the writes goes to `path` itself.
pub open spec fn writes_elsewhere(ws: Seq<Write>, path: Seq<char>) -> bool {
    forall|i: int| 0 <= i < ws.len() ==> (#[trigger] ws[i]).path != path
}

/// Whether none of the writes goes to a path above `path`.
pub open spec fn writes_not_above(ws: Seq<Write>, path: Seq<char>) -> bool {
    forall|i: int| 0 <= i < ws.len() ==> !above((#[trigger] ws[i]).path, path)
}

/// Whether `layer` holds no leaf at `path`: none of its writes goes to the
/// path itself. It may write above and below it.
pub open spec fn never_writes(layer: Tree, path: Seq<char>) -> bool {
    writes_elsewhere(writes(layer), path)
}

/// Whether `layer` holds no leaf above `path`.
pub open spec fn never_writes_above(layer: Tree, path: Seq<char>) -> bool {
    writes_not_above(writes(layer), path)
}

/// Whether the tree holds at `path` what `held` says, or a table.
pub open spec fn held_or_table(t: Tree, path: Seq<char>, held: Option<Tree>) -> bool {
    t.lookup(path) == held || (t.lookup(path) is Some && t.lookup(path)->0 is Table)
}

/// A write that goes elsewhere leaves at a path what was held there, or a
/// table, and leaves the path to the defaults: provided that the write does
/// not go above the path, or that nothing was held and a leaf is written.
pub proof fn lemma_write_elsewhere(
    m: Merged,
    w: Write,
    source: ConfigSource,
    path: Seq<char>,
    held: Option<Tree>,
)
    requires
        held_or_table(m.tree, path, held),
        m.source_of(path) == ConfigSource::Default,
        w.path != path,
        !above(w.path, path) || (held is None && !(w.value is Table)),
    ensures
        held_or_table(m.write(w, source).tree, path, held),
        m.write(w, source).source_of(path) == ConfigSource::Default,
{
    let p = split_dots(path);
    let r = split_dots(w.path);
    lemma_split_dots_shape(path);
    lemma_split_dots_shape(w.path);
    if apart(r, p) {
        lemma_with_apart(m.tree, r, w.value, p);
    } else if crate::tree_laws::begins(p, r) {
        if p.len() == r.len() {
            assert(r.take(p.len() as int) =~= r);
            crate::text::law_names_tell_paths_apart(w.path, path);
        }
        crate::tree_laws::lemma_with_below(m.tree, r, w.value, p);
    } else {
        if p.len() == r.len() {
            assert(p.take(r.len() as int) =~= p);
            crate::text::law_names_tell_paths_apart(w.path, path);
        }
        assert(above(w.path, path));
        crate::tree_laws::lemma_with_above(m.tree, r, w.value, p);
    }
}

/// Writes that go elsewhere leave at a path what was held there, or a
/// table, and leave the path to the defaults.
pub proof fn lemma_apply_elsewhere(
    m: Merged,
    ws: Seq<Write>,
    source: ConfigSource,
    path: Seq<char>,
    held: Option<Tree>,
)
    requires
        held_or_table(m.tree, path, held),
        m.source_of(path) == ConfigSource::Default,
        writes_elsewhere(ws, path),
        writes_not_above(ws, path) || (held is None && all_leaves(ws)),
    ensures
        held_or_table(m.apply(ws, source).tree, path, held),
        m.apply(ws, source).source_of(path) == ConfigSource::Default,
    decreases ws.len(),
{
    if ws.len() > 0 {
        let head = ws.drop_last();
        let w = ws.last();
        assert(w == ws[ws.len() - 1]);
        assert(writes_elsewhere(head, path)) by {
            assert forall|i: int| 0 <= i < head.len() implies (#[trigger] head[i]).path != path by {
                assert(head[i] == ws[i]);
            }
        }
        if writes_not_above(ws, path) {
            assert(writes_not_above(head, path)) by {
                assert forall|i: int| 0 <= i < head.len() implies !above(
                    (#[trigger] head[i]).path,
                    path,
                ) by {
                    assert(head[i] == ws[i]);
                }
            }
        } else {
            assert(all_leaves(head)) by {
                assert forall|i: int| 0 <= i < head.len() implies (#[trigger] head[i]).value.is_leaf() by {
                    assert(head[i] == ws[i]);
                }
            }
            assert(w.value.is_leaf());
        }
        lemma_apply_elsewhere(m, head, source, path, held);
        lemma_write_elsewhere(m.apply(head, source), w, source, path, held);
    }
}

/// A layer that holds no leaf at a path leaves the path as it is, or
/// leaves a table there. Where the tree holds something at a path that is
/// left to the defaults, and a layer is merged that holds no leaf at the
/// path and none above it, the tree holds the same at the path afterwards,
/// or a table, and the path is still left to the defaults. Where the tree
/// holds nothing at the path, the layer may hold leaves above the path as
/// well.
pub proof fn law_unwritten_path_keeps_what_it_held(
    m: Merged,
    layer: Tree,
    source: ConfigSource,
    path: Seq<char>,
    held: Option<Tree>,
)
    requires
        held_or_table(m.tree, path, held),
        m.source_of(path) == ConfigSource::Default,
        never_writes(layer, path),
        never_writes_above(layer, path) || held is None,
    ensures
        held_or_table(m.merge(layer, source).tree, path, held),
        m.merge(layer, source).source_of(path) == ConfigSource::Default,
{
    lemma_writes_are_leaves(layer, Seq::empty(), layer.entries().len() as int);
    lemma_apply_elsewhere(m, writes(layer), source, path, held);
}

/// Among layers merged in a row of which all but the first hold no leaf at
/// a path and none above it, the path holds what it held after the first
/// layer was merged, or a table, and is left to the defaults where it was
/// then. Where the path held nothing then, the layers may hold leaves above
/// it as well.
pub proof fn law_unwritten_by_the_rest(
    m: Merged,
    layers: Seq<(Tree, ConfigSource)>,
    path: Seq<char>,
    held: Option<Tree>,
)
    requires
        layers.len() >= 1,
        held_or_table(m.merge(layers[0].0, layers[0].1).tree, path, held),
        m.merge(layers[0].0, layers[0].1).source_of(path) == ConfigSource::Default,
        forall|k: int| 1 <= k < layers.len() ==> never_writes((#[trigger] layers[k]).0, path),
        held is None || forall|k: int|
            1 <= k < layers.len() ==> never_writes_above((#[trigger] layers[k]).0, path),
    ensures
        held_or_table(merge_all(m, layers).tree, path, held),
        merge_all(m, layers).source_of(path) == ConfigSource::Default,
    decreases layers.len(),
{
    let head = layers.drop_last();
    let last = layers.last();
    assert(last == layers[layers.len() - 1]);
    if layers.len() == 1 {
        assert(head.len() == 0);
        assert(merge_all(m, head) == m);
    } else {
        assert(head[0] == layers[0]);
        assert forall|k: int| 1 <= k < head.len() implies never_writes(
            (#[trigger] head[k]).0,
            path,
        ) by {
            assert(head[k] == layers[k]);
        }
        if held is Some {
            assert forall|k: int| 1 <= k < head.len() implies never_writes_above(
                (#[trigger] head[k]).0,
                path,
            ) by {
                assert(head[k] == layers[k]);
            }
        }
        law_unwritten_by_the_rest(m, head, path, held);
        law_unwritten_path_keeps_what_it_held(merge_all(m, head), last.0, last.1, path, held);
    }
}

} // verus!
