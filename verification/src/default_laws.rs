//! The law of defaults: a default shows through wherever no stronger layer
//! supplies a value.

use crate::builder::child_path;
use crate::builder::writes;
use crate::builder::writes_upto;
use crate::builder::Write;
use crate::catalog::global_settings;
use crate::catalog::provider_spec;
use crate::kinds::Provider;
use crate::laws::clear_after;
use crate::builder::clear_of;
use crate::laws::last_write;
use crate::laws::leaves_alone;
use crate::laws::sets;
use crate::layers::cli_layer;
use crate::layers::default_leaf;
use crate::layers::defaults_tree;
use crate::layers::defaults_upto;
use crate::layers::fields_defaults;
use crate::layers::CliSpec;
use crate::literal::is_non_finite_word;
use crate::load::merged_layers;
use crate::meta::FieldSpec;
use crate::names::lemma_global_names;
use crate::names::lemma_provider_names;
use crate::names::lemma_split_dotless;
use crate::names::mark;
use crate::pipeline_laws::env_layer;
use crate::pipeline_laws::file_layer;
use crate::pipeline_laws::law_precedence;
use crate::pipeline_laws::pipeline;
use crate::source::ConfigSource;
use crate::text::dotless;
use crate::text::lemma_split_dots_shape;
use crate::text::split_dots;
use crate::tree::key_index;
use crate::tree::lemma_key_index;
use crate::tree::Tree;
use crate::tree_laws::lemma_put_other;
use crate::tree_laws::lemma_put_same;
use vstd::prelude::*;

verus! {

/// Whether no two entries have the same key.
pub open spec fn distinct_keys(entries: Seq<(Seq<char>, Tree)>) -> bool {
    forall|a: int, b: int|
        0 <= a < entries.len() && 0 <= b < entries.len() && a != b ==> (#[trigger] entries[a]).0
            != (#[trigger] entries[b]).0
}

/// Whether every entry that holds a table has a key that is not empty.
pub open spec fn tables_are_named(entries: Seq<(Seq<char>, Tree)>) -> bool {
    forall|a: int| 0 <= a < entries.len() && (#[trigger] entries[a]).1 is Table ==> entries[a].0.len() > 0
}

/// Binding a key keeps the keys of a table distinct, and keeps its tables
/// named where the new entry is no table or has a key that is not empty.
pub proof fn lemma_put_keeps_shape(t: Tree, key: Seq<char>, value: Tree)
    requires
        t is Table,
        distinct_keys(t.entries()),
        tables_are_named(t.entries()),
        value is Table ==> key.len() > 0,
    ensures
        t.put(key, value) is Table,
        distinct_keys(t.put(key, value).entries()),
        tables_are_named(t.put(key, value).entries()),
{
    let e = t->Table_0;
    let i = key_index(e, key);
    lemma_key_index(e, key);
    let e2 = t.put(key, value).entries();
    if i < e.len() {
        assert(e2 =~= e.update(i, (key, value)));
        assert forall|a: int, b: int| 0 <= a < e2.len() && 0 <= b < e2.len() && a != b implies (
        #[trigger] e2[a]).0 != (#[trigger] e2[b]).0 by {
            assert(e2[a].0 == e[a].0);
            assert(e2[b].0 == e[b].0);
        }
        assert forall|a: int| 0 <= a < e2.len() && (#[trigger] e2[a]).1 is Table implies e2[a].0.len()
            > 0 by {
            if a != i {
                assert(e2[a] == e[a]);
            }
        }
    } else {
        assert(e2 =~= e.push((key, value)));
        assert forall|a: int, b: int| 0 <= a < e2.len() && 0 <= b < e2.len() && a != b implies (
        #[trigger] e2[a]).0 != (#[trigger] e2[b]).0 by {
            if a < e.len() {
                assert(e2[a] == e[a]);
            }
            if b < e.len() {
                assert(e2[b] == e[b]);
            }
        }
        assert forall|a: int| 0 <= a < e2.len() && (#[trigger] e2[a]).1 is Table implies e2[a].0.len()
            > 0 by {
            if a < e.len() {
                assert(e2[a] == e[a]);
            }
        }
    }
}

/// What a default stands for is never a table.
pub proof fn lemma_default_leaf_is_no_table(text: Seq<char>)
    ensures
        !(default_leaf(text) is Table),
        default_leaf(text) is Null ==> is_non_finite_word(text),
{
}

/// A table of defaults has distinct keys, and none of its entries is a table.
pub proof fn lemma_fields_defaults_shape(fields: Seq<FieldSpec>, skip_virtual: bool)
    ensures
        fields_defaults(fields, skip_virtual) is Table,
        distinct_keys(fields_defaults(fields, skip_virtual).entries()),
        tables_are_named(fields_defaults(fields, skip_virtual).entries()),
        forall|a: int|
            0 <= a < fields_defaults(fields, skip_virtual).entries().len() ==> !((
            #[trigger] fields_defaults(fields, skip_virtual).entries()[a]).1 is Table),
    decreases fields.len(),
{
    if fields.len() > 0 {
        let head = fields_defaults(fields.drop_last(), skip_virtual);
        lemma_fields_defaults_shape(fields.drop_last(), skip_virtual);
        let f = fields.last();
        if !((skip_virtual && f.virtual_field) || f.default is None) {
            let leaf = default_leaf(f.default->0);
            lemma_put_keeps_shape(head, f.name, leaf);
            let e = head->Table_0;
            let i = key_index(e, f.name);
            lemma_key_index(e, f.name);
            let e2 = head.put(f.name, leaf).entries();
            assert forall|a: int| 0 <= a < e2.len() implies !((#[trigger] e2[a]).1 is Table) by {
                if i < e.len() {
                    assert(e2 =~= e.update(i, (f.name, leaf)));
                    if a != i {
                        assert(e2[a] == e[a]);
                    }
                } else {
                    assert(e2 =~= e.push((f.name, leaf)));
                    if a < e.len() {
                        assert(e2[a] == e[a]);
                    }
                }
            }
        }
    }
}

/// In a table of the defaults of fields with names that differ, a field
/// that has a default and is not left out is bound to what its default
/// stands for.
pub proof fn lemma_fields_defaults_hit(fields: Seq<FieldSpec>, skip_virtual: bool, i: int)
    requires
        0 <= i < fields.len(),
        forall|a: int, b: int|
            0 <= a < fields.len() && 0 <= b < fields.len() && a != b ==> (#[trigger] fields[a]).name
                != (#[trigger] fields[b]).name,
        fields[i].default is Some,
        !(skip_virtual && fields[i].virtual_field),
    ensures
        fields_defaults(fields, skip_virtual).field(fields[i].name) == Some(
            default_leaf(fields[i].default->0),
        ),
    decreases fields.len(),
{
    let head = fields.drop_last();
    let last = fields.last();
    let prev = fields_defaults(head, skip_virtual);
    lemma_fields_defaults_shape(head, skip_virtual);
    assert(last == fields[fields.len() - 1]);
    if i == fields.len() - 1 {
        lemma_put_same(prev, last.name, default_leaf(last.default->0));
    } else {
        assert(head[i] == fields[i]);
        assert forall|a: int, b: int| 0 <= a < head.len() && 0 <= b < head.len() && a != b implies (
        #[trigger] head[a]).name != (#[trigger] head[b]).name by {
            assert(head[a] == fields[a]);
            assert(head[b] == fields[b]);
        }
        lemma_fields_defaults_hit(head, skip_virtual, i);
        assert(last.name != fields[i].name);
        if !((skip_virtual && last.virtual_field) || last.default is None) {
            lemma_put_other(prev, last.name, default_leaf(last.default->0), fields[i].name);
        }
    }
}

/// The layer of defaults, as far as the first `n` providers, has distinct
/// keys and named tables, and binds the global settings as the table of
/// their defaults does.
pub proof fn lemma_defaults_upto_shape(n: int, i: int)
    requires
        0 <= i < global_settings().len(),
    ensures
        defaults_upto(n) is Table,
        distinct_keys(defaults_upto(n).entries()),
        tables_are_named(defaults_upto(n).entries()),
        defaults_upto(n).field(global_settings()[i].name) == fields_defaults(
            global_settings(),
            true,
        ).field(global_settings()[i].name),
    decreases n,
{
    lemma_fields_defaults_shape(global_settings(), true);
    if 0 < n <= Provider::every().len() {
        lemma_defaults_upto_shape(n - 1, i);
        let head = defaults_upto(n - 1);
        let p = provider_spec(Provider::every()[n - 1]);
        let section = fields_defaults(p.all_fields(), false);
        lemma_provider_names();
        if section.entries().len() != 0 {
            lemma_put_keeps_shape(head, p.name, section);
            lemma_put_other(head, p.name, section, global_settings()[i].name);
        }
    }
}

/// Every write that comes from below a path that is not empty goes to a
/// path that continues it with a dot.
pub proof fn lemma_writes_below_prefix(layer: Tree, prefix: Seq<char>, n: int)
    requires
        prefix.len() > 0,
    ensures
        forall|k: int|
            0 <= k < writes_upto(layer, prefix, n).len() ==> (#[trigger] writes_upto(
                layer,
                prefix,
                n,
            )[k]).path.len() > prefix.len() && writes_upto(layer, prefix, n)[k].path[prefix.len() as int]
                == '.',
    decreases layer, n,
{
    if layer is Table && 0 < n <= layer->Table_0.len() {
        let entry = layer->Table_0[n - 1];
        let path = child_path(prefix, entry.0);
        lemma_writes_below_prefix(layer, prefix, n - 1);
        let head = writes_upto(layer, prefix, n - 1);
        let all = writes_upto(layer, prefix, n);
        assert(path[prefix.len() as int] == '.');
        if entry.1 is Table {
            lemma_writes_below_prefix(entry.1, path, entry.1->Table_0.len() as int);
        }
        assert forall|k: int| 0 <= k < all.len() implies (#[trigger] all[k]).path.len()
            > prefix.len() && all[k].path[prefix.len() as int] == '.' by {
            if k < head.len() {
                assert(all[k] == head[k]);
            } else if entry.1 is Table {
                let sub = writes_upto(entry.1, path, entry.1->Table_0.len() as int);
                assert(all[k] == sub[k - head.len()]);
                assert(sub[k - head.len()].path.len() > path.len());
                assert(sub[k - head.len()].path[path.len() as int] == '.');
                assert(all[k].path.len() > prefix.len());
                assert(all[k].path.take(path.len() as int) == path) by {
                    lemma_writes_keep_prefix(entry.1, path, entry.1->Table_0.len() as int);
                }
                assert(all[k].path[prefix.len() as int] == all[k].path.take(path.len() as int)[prefix.len() as int]);
            }
        }
    }
}

/// Every write that comes from below a path that is not empty goes to a
/// path that begins with it.
pub proof fn lemma_writes_keep_prefix(layer: Tree, prefix: Seq<char>, n: int)
    requires
        prefix.len() > 0,
    ensures
        forall|k: int|
            0 <= k < writes_upto(layer, prefix, n).len() ==> (#[trigger] writes_upto(
                layer,
                prefix,
                n,
            )[k]).path.len() > prefix.len() && writes_upto(layer, prefix, n)[k].path.take(
                prefix.len() as int,
            ) == prefix,
    decreases layer, n,
{
    if layer is Table && 0 < n <= layer->Table_0.len() {
        let entry = layer->Table_0[n - 1];
        let path = child_path(prefix, entry.0);
        lemma_writes_keep_prefix(layer, prefix, n - 1);
        let head = writes_upto(layer, prefix, n - 1);
        let all = writes_upto(layer, prefix, n);
        assert(path.take(prefix.len() as int) =~= prefix);
        if entry.1 is Table {
            lemma_writes_keep_prefix(entry.1, path, entry.1->Table_0.len() as int);
        }
        assert forall|k: int| 0 <= k < all.len() implies (#[trigger] all[k]).path.len()
            > prefix.len() && all[k].path.take(prefix.len() as int) == prefix by {
            if k < head.len() {
                assert(all[k] == head[k]);
            } else if entry.1 is Table {
                let sub = writes_upto(entry.1, path, entry.1->Table_0.len() as int);
                assert(all[k] == sub[k - head.len()]);
                assert(all[k].path.take(path.len() as int) == path);
                assert(all[k].path.take(prefix.len() as int) =~= all[k].path.take(
                    path.len() as int,
                ).take(prefix.len() as int));
            }
        }
    }
}

/// Among the writes of the first `n` entries of a table with distinct keys
/// and named tables, the writes at a name without a dot are these: none
/// before the entry of that name, and after it exactly the one that writes
/// the entry's leaf.
proof fn lemma_entry_writes(t: Tree, name: Seq<char>, value: Tree, n: int)
    requires
        t is Table,
        distinct_keys(t.entries()),
        tables_are_named(t.entries()),
        t.field(name) == Some(value),
        value.is_leaf(),
        dotless(name),
        0 <= n <= t.entries().len(),
    ensures
        n <= key_index(t.entries(), name) ==> forall|k: int|
            0 <= k < writes_upto(t, Seq::empty(), n).len() ==> (#[trigger] writes_upto(
                t,
                Seq::empty(),
                n,
            )[k]).path != name,
        n > key_index(t.entries(), name) ==> exists|k: int|
            {
                &&& #[trigger] last_write(writes_upto(t, Seq::empty(), n), name, k)
                &&& writes_upto(t, Seq::empty(), n)[k].value == value
            },
    decreases n,
{
    let e = t.entries();
    let at = key_index(e, name);
    lemma_key_index(e, name);
    if n > 0 {
        lemma_entry_writes(t, name, value, n - 1);
        let entry = e[n - 1];
        let path = child_path(Seq::empty(), entry.0);
        assert(path == entry.0);
        let head = writes_upto(t, Seq::empty(), n - 1);
        let all = writes_upto(t, Seq::empty(), n);
        let here = match entry.1 {
            Tree::Table(sub) => writes_upto(entry.1, path, sub.len() as int),
            Tree::Null => Seq::empty(),
            _ => seq![Write { path, value: entry.1 }],
        };
        assert(all == head + here);
        if n - 1 == at {
            assert(entry.1 == value);
            assert(here =~= seq![Write { path: name, value }]);
            let k = head.len() as int;
            assert(all[k] == Write { path: name, value });
            assert(last_write(all, name, k));
        } else {
            assert(entry.0 != name) by {
                assert(e[at].0 == name);
            }
            assert forall|j: int| 0 <= j < here.len() implies (#[trigger] here[j]).path
                != name by {
                if entry.1 is Table {
                    lemma_writes_below_prefix(entry.1, path, entry.1->Table_0.len() as int);
                    if here[j].path == name {
                        assert(name[path.len() as int] == '.');
                    }
                }
            }
            if n - 1 < at {
                assert forall|k: int| 0 <= k < all.len() implies (#[trigger] all[k]).path
                    != name by {
                    if k < head.len() {
                        assert(all[k] == head[k]);
                    } else {
                        assert(all[k] == here[k - head.len()]);
                    }
                }
            } else {
                let k = choose|k: int|
                    {
                        &&& #[trigger] last_write(head, name, k)
                        &&& head[k].value == value
                    };
                assert(all[k] == head[k]);
                assert(last_write(all, name, k)) by {
                    assert forall|j: int| k < j < all.len() implies (#[trigger] all[j]).path
                        != name by {
                        if j < head.len() {
                            assert(all[j] == head[j]);
                        } else {
                            assert(all[j] == here[j - head.len()]);
                        }
                    }
                }
            }
        }
    }
}

/// Whether the write `w` comes from the entry at position `j` of the table
/// `t` at the root: it writes the entry's leaf at the entry's key, or it is
/// one of the writes of the entry's table.
pub open spec fn from_entry(t: Tree, j: int, w: Write) -> bool {
    let entry = t.entries()[j];
    if entry.1 is Table {
        writes_upto(entry.1, entry.0, entry.1.entries().len() as int).contains(w)
    } else {
        w.path == entry.0
    }
}

/// Whether the write `w` comes from one of the first `n` entries of the
/// table `t` at the root.
pub open spec fn from_entries(t: Tree, n: int, w: Write) -> bool {
    exists|j: int| 0 <= j < n && #[trigger] from_entry(t, j, w)
}

/// Every write of the first `n` entries of a table at the root comes from
/// one of those entries.
pub proof fn lemma_writes_come_from_entries(t: Tree, n: int)
    requires
        t is Table,
        0 <= n <= t.entries().len(),
    ensures
        forall|k: int|
            0 <= k < writes_upto(t, Seq::empty(), n).len() ==> from_entries(
                t,
                n,
                #[trigger] writes_upto(t, Seq::empty(), n)[k],
            ),
    decreases n,
{
    if n > 0 {
        lemma_writes_come_from_entries(t, n - 1);
        let entry = t.entries()[n - 1];
        let path = child_path(Seq::empty(), entry.0);
        assert(path == entry.0);
        let head = writes_upto(t, Seq::empty(), n - 1);
        let all = writes_upto(t, Seq::empty(), n);
        let here = match entry.1 {
            Tree::Table(sub) => writes_upto(entry.1, path, sub.len() as int),
            Tree::Null => Seq::empty(),
            _ => seq![Write { path, value: entry.1 }],
        };
        assert(all == head + here);
        assert forall|k: int| 0 <= k < all.len() implies from_entries(t, n, #[trigger] all[k]) by {
            if k < head.len() {
                assert(all[k] == head[k]);
                assert(from_entries(t, n - 1, head[k]));
                let j = choose|j: int| 0 <= j < n - 1 && #[trigger] from_entry(t, j, head[k]);
                assert(0 <= j < n && from_entry(t, j, all[k]));
            } else if entry.1 is Table {
                let sub = writes_upto(entry.1, path, entry.1->Table_0.len() as int);
                assert(all[k] == sub[k - head.len()]);
                assert(sub.contains(all[k]));
                assert(from_entry(t, n - 1, all[k]));
            } else {
                assert(all[k] == here[k - head.len()]);
                assert(all[k].path == entry.0);
                assert(from_entry(t, n - 1, all[k]));
            }
        }
    }
}

/// Paths whose first names differ are apart.
pub proof fn lemma_apart_by_head(p: Seq<Seq<char>>, q: Seq<Seq<char>>)
    requires
        p.len() >= 1,
        q.len() >= 1,
        p[0] != q[0],
    ensures
        crate::tree_laws::apart(p, q),
{
    if crate::tree_laws::begins(p, q) {
        assert(q.take(p.len() as int)[0] == p[0]);
    }
    if crate::tree_laws::begins(q, p) {
        assert(p.take(q.len() as int)[0] == q[0]);
    }
}

/// A write that comes from an entry with a plain key goes to a path whose
/// first name is the key; and to the key itself where the entry is no
/// table.
pub proof fn lemma_write_head(t: Tree, j: int, w: Write)
    requires
        t is Table,
        0 <= j < t.entries().len(),
        dotless(t.entries()[j].0),
        t.entries()[j].0.len() > 0,
        from_entry(t, j, w),
    ensures
        split_dots(w.path).len() >= 1,
        split_dots(w.path)[0] == t.entries()[j].0,
        !(t.entries()[j].1 is Table) ==> w.path == t.entries()[j].0,
        t.entries()[j].1 is Table ==> split_dots(w.path).len() >= 2,
{
    let entry = t.entries()[j];
    if entry.1 is Table {
        let sub = writes_upto(entry.1, entry.0, entry.1.entries().len() as int);
        let idx = choose|idx: int| 0 <= idx < sub.len() && sub[idx] == w;
        lemma_writes_keep_prefix(entry.1, entry.0, entry.1.entries().len() as int);
        lemma_writes_below_prefix(entry.1, entry.0, entry.1.entries().len() as int);
        let n = entry.0.len() as int;
        let rest = w.path.skip(n + 1);
        assert(w.path =~= entry.0 + seq!['.'] + rest) by {
            assert(w.path.take(n) == entry.0);
            assert(w.path[n] == '.');
        }
        lemma_split_head(entry.0, rest);
    } else {
        lemma_split_dotless(entry.0);
    }
}

/// The first name of a path that begins with a name without a dot and
/// a dot is that name, and the path has further names.
pub proof fn lemma_split_head(head: Seq<char>, rest: Seq<char>)
    requires
        dotless(head),
    ensures
        split_dots(head + seq!['.'] + rest).len() >= 2,
        split_dots(head + seq!['.'] + rest)[0] == head,
{
    crate::names::lemma_split_concat(head, rest);
    lemma_split_dotless(head);
    lemma_split_dots_shape(rest);
}

/// A table with plain keys leaves alone every name without a dot that it
/// does not bind.
pub proof fn lemma_unbound_is_left_alone(t: Tree, name: Seq<char>)
    requires
        t is Table,
        plain_keys(t.entries()),
        t.field(name) is None,
        dotless(name),
    ensures
        leaves_alone(t, name),
{
    let ws = writes(t);
    let n = t.entries().len() as int;
    lemma_writes_come_from_entries(t, n);
    lemma_key_index(t.entries(), name);
    lemma_split_dotless(name);
    assert forall|i: int| 0 <= i < ws.len() implies clear_of((#[trigger] ws[i]).path, name) by {
        assert(from_entries(t, n, ws[i]));
        let j = choose|j: int| 0 <= j < n && #[trigger] from_entry(t, j, ws[i]);
        lemma_write_head(t, j, ws[i]);
        assert(t.entries()[j].0 != name);
        lemma_apart_by_head(split_dots(ws[i].path), split_dots(name));
    }
}

/// A table with distinct plain keys sets every name without a dot that it
/// binds to a leaf.
pub proof fn lemma_bound_leaf_is_set(t: Tree, name: Seq<char>, value: Tree)
    requires
        t is Table,
        distinct_keys(t.entries()),
        plain_keys(t.entries()),
        tables_are_named(t.entries()),
        t.field(name) == Some(value),
        value.is_leaf(),
        dotless(name),
    ensures
        sets(t, name, value),
{
    let n = t.entries().len() as int;
    lemma_key_index(t.entries(), name);
    lemma_entry_writes(t, name, value, n);
    let ws = writes(t);
    let k = choose|k: int|
        {
            &&& #[trigger] last_write(ws, name, k)
            &&& ws[k].value == value
        };
    lemma_split_dotless(name);
    lemma_writes_come_from_entries(t, n);
    let at = key_index(t.entries(), name);
    assert(clear_after(ws, name, k)) by {
        assert forall|i: int| k < i < ws.len() implies clear_of((#[trigger] ws[i]).path, name) by {
            assert(from_entries(t, n, ws[i]));
            let j = choose|j: int| 0 <= j < n && #[trigger] from_entry(t, j, ws[i]);
            lemma_write_head(t, j, ws[i]);
            if t.entries()[j].0 == name {
                assert(j == at);
            }
            lemma_apart_by_head(split_dots(ws[i].path), split_dots(name));
        }
    }
    assert(last_write(ws, name, k) && ws[k].value == value && clear_after(ws, name, k));
}

/// The defaults of the global settings stand for leaves.
pub proof fn lemma_global_defaults_are_leaves()
    ensures
        forall|i: int|
            0 <= i < global_settings().len() && (#[trigger] global_settings()[i]).default is Some
                ==> default_leaf(global_settings()[i].default->0).is_leaf(),
{
    reveal_strlit("0.05");
    reveal_strlit("3");
    reveal_strlit("false");
    reveal_strlit("dialog");
    reveal_strlit("human");
    reveal_strlit("262144");
    assert(mark("0.05"@) == (4nat, '0'));
    assert(mark("3"@) == (1nat, '3'));
    assert(mark("false"@) == (5nat, 'f'));
    assert(mark("dialog"@) == (6nat, 'd'));
    assert(mark("human"@) == (5nat, 'h'));
    assert(mark("262144"@) == (6nat, '2'));
    let gs = global_settings();
    assert forall|i: int| 0 <= i < gs.len() && (#[trigger] gs[i]).default is Some implies default_leaf(
        gs[i].default->0,
    ).is_leaf() by {
        let d = gs[i].default->0;
        lemma_default_leaf_is_no_table(d);
        assert(!is_non_finite_word(d)) by {
            if i == 2 {
                assert(d == "0.05"@);
            }
            if i == 3 {
                assert(d == "3"@);
            }
            if i == 4 {
                assert(d == "false"@);
            }
            if i == 5 {
                assert(d == "dialog"@);
            }
            if i == 6 {
                assert(d == "human"@);
            }
            if i == 7 {
                assert(d == "262144"@);
            }
        }
    }
}

/// The layer of defaults sets every global setting that has a default and
/// is no run-time switch to what its default stands for.
pub proof fn lemma_defaults_set_globals(i: int)
    requires
        0 <= i < global_settings().len(),
        global_settings()[i].default is Some,
        !global_settings()[i].virtual_field,
    ensures
        sets(defaults_tree(), global_settings()[i].name, default_leaf(global_settings()[i].default->0)),
{
    let f = global_settings()[i];
    lemma_global_names();
    lemma_global_defaults_are_leaves();
    lemma_fields_defaults_hit(global_settings(), true, i);
    lemma_defaults_upto_shape(Provider::every().len() as int, i);
    lemma_defaults_upto_plain(Provider::every().len() as int);
    lemma_bound_leaf_is_set(defaults_tree(), f.name, default_leaf(f.default->0));
}

/// Defaults show through. For every global setting that has a default and
/// is no run-time switch: where the two files, the environment and the
/// command line all leave the setting's path alone, the loaded tree holds
/// at the path what the declared default stands for, and the path is marked
/// as a default.
pub proof fn law_default_shows_through(
    toml: Option<Tree>,
    json: Option<Tree>,
    env: Map<Seq<char>, Seq<char>>,
    cli: CliSpec,
    i: int,
)
    requires
        0 <= i < global_settings().len(),
        global_settings()[i].default is Some,
        !global_settings()[i].virtual_field,
        leaves_alone(file_layer(toml), global_settings()[i].name),
        leaves_alone(file_layer(json), global_settings()[i].name),
        leaves_alone(env_layer(env), global_settings()[i].name),
        leaves_alone(cli_layer(cli), global_settings()[i].name),
    ensures
        merged_layers(toml, json, env, cli).tree.lookup(global_settings()[i].name) == Some(
            default_leaf(global_settings()[i].default->0),
        ),
        merged_layers(toml, json, env, cli).source_of(global_settings()[i].name)
            == ConfigSource::Default,
{
    let f = global_settings()[i];
    lemma_defaults_set_globals(i);
    let layers = pipeline(toml, json, env, cli);
    assert(layers[0].0 == defaults_tree());
    assert forall|k: int| 0 < k < 5 implies leaves_alone((#[trigger] layers[k]).0, f.name) by {
        if k == 1 {
        } else if k == 2 {
        } else if k == 3 {
        } else {
        }
    }
    law_precedence(toml, json, env, cli, f.name, 0, default_leaf(f.default->0));
}

/// Whether every key is a name without a dot that is not empty.
pub open spec fn plain_keys(entries: Seq<(Seq<char>, Tree)>) -> bool {
    forall|a: int| 0 <= a < entries.len() ==> dotless((#[trigger] entries[a]).0) && entries[a].0.len() > 0
}

/// Whether no entry is a table.
pub open spec fn flat(entries: Seq<(Seq<char>, Tree)>) -> bool {
    forall|a: int| 0 <= a < entries.len() ==> !((#[trigger] entries[a]).1 is Table)
}

/// Binding a plain key keeps the keys of a table plain.
pub proof fn lemma_put_keeps_plain(t: Tree, key: Seq<char>, value: Tree)
    requires
        t is Table,
        plain_keys(t.entries()),
        dotless(key),
        key.len() > 0,
    ensures
        plain_keys(t.put(key, value).entries()),
{
    let e = t->Table_0;
    let i = key_index(e, key);
    lemma_key_index(e, key);
    let e2 = t.put(key, value).entries();
    assert forall|a: int| 0 <= a < e2.len() implies dotless((#[trigger] e2[a]).0) && e2[a].0.len()
        > 0 by {
        if i < e.len() {
            assert(e2 =~= e.update(i, (key, value)));
            if a != i {
                assert(e2[a] == e[a]);
            }
        } else {
            assert(e2 =~= e.push((key, value)));
            if a < e.len() {
                assert(e2[a] == e[a]);
            }
        }
    }
}

/// A table of the defaults of fields with plain names has plain keys.
pub proof fn lemma_fields_defaults_plain(fields: Seq<FieldSpec>, skip_virtual: bool)
    requires
        forall|i: int| 0 <= i < fields.len() ==> dotless((#[trigger] fields[i]).name) && fields[i].name.len() > 0,
    ensures
        plain_keys(fields_defaults(fields, skip_virtual).entries()),
    decreases fields.len(),
{
    if fields.len() > 0 {
        let head = fields.drop_last();
        assert forall|i: int| 0 <= i < head.len() implies dotless((#[trigger] head[i]).name)
            && head[i].name.len() > 0 by {
            assert(head[i] == fields[i]);
        }
        lemma_fields_defaults_plain(head, skip_virtual);
        lemma_fields_defaults_shape(head, skip_virtual);
        let f = fields.last();
        assert(f == fields[fields.len() - 1]);
        if !((skip_virtual && f.virtual_field) || f.default is None) {
            lemma_put_keeps_plain(
                fields_defaults(head, skip_virtual),
                f.name,
                default_leaf(f.default->0),
            );
        }
    }
}

/// The layer of defaults, as far as the first `n` providers, has plain keys,
/// and binds every one of those providers that has a default to the table of
/// its defaults.
pub proof fn lemma_defaults_upto_sections(n: int, k: int)
    requires
        0 <= k < n <= Provider::every().len(),
        fields_defaults(provider_spec(Provider::every()[k]).all_fields(), false).entries().len() > 0,
    ensures
        plain_keys(defaults_upto(n).entries()),
        defaults_upto(n).field(provider_spec(Provider::every()[k]).name) == Some(
            fields_defaults(provider_spec(Provider::every()[k]).all_fields(), false),
        ),
    decreases n,
{
    lemma_defaults_upto_plain(n - 1);
    lemma_defaults_upto_shape(n - 1, 0);
    lemma_provider_names();
    let head = defaults_upto(n - 1);
    let p = provider_spec(Provider::every()[n - 1]);
    let section = fields_defaults(p.all_fields(), false);
    lemma_defaults_upto_plain(n);
    if k == n - 1 {
        lemma_put_same(head, p.name, section);
    } else {
        lemma_defaults_upto_sections(n - 1, k);
        if section.entries().len() != 0 {
            crate::names::lemma_provider_names_differ(Provider::every()[n - 1], Provider::every()[k]);
            lemma_put_other(head, p.name, section, provider_spec(Provider::every()[k]).name);
        }
    }
}

/// The layer of defaults, as far as the first `n` providers, has plain keys.
pub proof fn lemma_defaults_upto_plain(n: int)
    ensures
        plain_keys(defaults_upto(n).entries()),
    decreases n,
{
    lemma_global_names();
    lemma_fields_defaults_plain(global_settings(), true);
    if 0 < n <= Provider::every().len() {
        lemma_defaults_upto_plain(n - 1);
        lemma_defaults_upto_shape(n - 1, 0);
        lemma_provider_names();
        let p = provider_spec(Provider::every()[n - 1]);
        let section = fields_defaults(p.all_fields(), false);
        if section.entries().len() != 0 {
            lemma_put_keeps_plain(defaults_upto(n - 1), p.name, section);
        }
    }
}

/// Among the writes of the first `n` entries of a flat table with distinct
/// keys that sits at a path, the writes at the path of a name it binds to a
/// leaf are these: none before the entry of that name, and after it exactly
/// the one that writes the leaf.
proof fn lemma_flat_entry_writes(t: Tree, prefix: Seq<char>, name: Seq<char>, value: Tree, n: int)
    requires
        t is Table,
        distinct_keys(t.entries()),
        flat(t.entries()),
        t.field(name) == Some(value),
        value.is_leaf(),
        prefix.len() > 0,
        0 <= n <= t.entries().len(),
    ensures
        n <= key_index(t.entries(), name) ==> forall|k: int|
            0 <= k < writes_upto(t, prefix, n).len() ==> (#[trigger] writes_upto(t, prefix, n)[k]).path
                != child_path(prefix, name),
        n > key_index(t.entries(), name) ==> exists|k: int|
            {
                &&& #[trigger] last_write(writes_upto(t, prefix, n), child_path(prefix, name), k)
                &&& writes_upto(t, prefix, n)[k].value == value
            },
    decreases n,
{
    let e = t.entries();
    let at = key_index(e, name);
    let target = child_path(prefix, name);
    lemma_key_index(e, name);
    if n > 0 {
        lemma_flat_entry_writes(t, prefix, name, value, n - 1);
        let entry = e[n - 1];
        let path = child_path(prefix, entry.0);
        let head = writes_upto(t, prefix, n - 1);
        let all = writes_upto(t, prefix, n);
        let here = match entry.1 {
            Tree::Table(sub) => writes_upto(entry.1, path, sub.len() as int),
            Tree::Null => Seq::empty(),
            _ => seq![Write { path, value: entry.1 }],
        };
        assert(all == head + here);
        assert(!(entry.1 is Table));
        if n - 1 == at {
            assert(entry.1 == value);
            assert(here =~= seq![Write { path: target, value }]);
            let k = head.len() as int;
            assert(all[k] == Write { path: target, value });
            assert(last_write(all, target, k));
        } else {
            assert(entry.0 != name) by {
                assert(e[at].0 == name);
            }
            assert(path != target) by {
                if path == target {
                    assert(path.skip(prefix.len() as int + 1) =~= entry.0);
                    assert(target.skip(prefix.len() as int + 1) =~= name);
                }
            }
            if n - 1 < at {
                assert forall|k: int| 0 <= k < all.len() implies (#[trigger] all[k]).path
                    != target by {
                    if k < head.len() {
                        assert(all[k] == head[k]);
                    } else {
                        assert(all[k] == here[k - head.len()]);
                    }
                }
            } else {
                let k = choose|k: int|
                    {
                        &&& #[trigger] last_write(head, target, k)
                        &&& head[k].value == value
                    };
                assert(all[k] == head[k]);
                assert(last_write(all, target, k)) by {
                    assert forall|j: int| k < j < all.len() implies (#[trigger] all[j]).path
                        != target by {
                        if j < head.len() {
                            assert(all[j] == head[j]);
                        } else {
                            assert(all[j] == here[j - head.len()]);
                        }
                    }
                }
            }
        }
    }
}

/// Among the writes of the first `n` entries of a table with distinct and
/// plain keys, where the key `section` is bound to a flat table that binds
/// `name` to a leaf: no write goes to the path of the section itself; no
/// write goes to the path of the name before the entry of the section; and
/// after it exactly one does, which writes the leaf.
proof fn lemma_section_entry_writes(
    t: Tree,
    section: Seq<char>,
    inner: Tree,
    name: Seq<char>,
    value: Tree,
    n: int,
)
    requires
        t is Table,
        distinct_keys(t.entries()),
        plain_keys(t.entries()),
        t.field(section) == Some(inner),
        inner is Table,
        distinct_keys(inner.entries()),
        flat(inner.entries()),
        inner.field(name) == Some(value),
        value.is_leaf(),
        0 <= n <= t.entries().len(),
    ensures
        forall|k: int|
            0 <= k < writes_upto(t, Seq::empty(), n).len() ==> (#[trigger] writes_upto(
                t,
                Seq::empty(),
                n,
            )[k]).path != section,
        n <= key_index(t.entries(), section) ==> forall|k: int|
            0 <= k < writes_upto(t, Seq::empty(), n).len() ==> (#[trigger] writes_upto(
                t,
                Seq::empty(),
                n,
            )[k]).path != child_path(section, name),
        n > key_index(t.entries(), section) ==> exists|k: int|
            {
                &&& #[trigger] last_write(
                    writes_upto(t, Seq::empty(), n),
                    child_path(section, name),
                    k,
                )
                &&& writes_upto(t, Seq::empty(), n)[k].value == value
            },
    decreases n,
{
    let e = t.entries();
    let at = key_index(e, section);
    lemma_key_index(e, section);
    assert(e[at] == (section, inner));
    assert(dotless(section) && section.len() > 0);
    let target = child_path(section, name);
    assert(target[section.len() as int] == '.');
    if n > 0 {
        lemma_section_entry_writes(t, section, inner, name, value, n - 1);
        let entry = e[n - 1];
        let path = child_path(Seq::empty(), entry.0);
        assert(path == entry.0);
        assert(dotless(entry.0) && entry.0.len() > 0);
        let head = writes_upto(t, Seq::empty(), n - 1);
        let all = writes_upto(t, Seq::empty(), n);
        let here = match entry.1 {
            Tree::Table(sub) => writes_upto(entry.1, path, sub.len() as int),
            Tree::Null => Seq::empty(),
            _ => seq![Write { path, value: entry.1 }],
        };
        assert(all == head + here);
        if entry.1 is Table {
            lemma_writes_below_prefix(entry.1, path, entry.1->Table_0.len() as int);
            lemma_writes_keep_prefix(entry.1, path, entry.1->Table_0.len() as int);
        }
        assert forall|j: int| 0 <= j < here.len() implies (#[trigger] here[j]).path != section by {
            if entry.1 is Table {
                if here[j].path == section {
                    assert(section[path.len() as int] == '.');
                }
            } else {
                if n - 1 != at {
                    assert(e[at].0 == section);
                }
            }
        }
        assert forall|k: int| 0 <= k < all.len() implies (#[trigger] all[k]).path != section by {
            if k < head.len() {
                assert(all[k] == head[k]);
            } else {
                assert(all[k] == here[k - head.len()]);
            }
        }
        if n - 1 == at {
            assert(entry.1 == inner);
            lemma_flat_entry_writes(inner, section, name, value, inner.entries().len() as int);
            lemma_key_index(inner.entries(), name);
            let k2 = choose|k: int|
                {
                    &&& #[trigger] last_write(here, target, k)
                    &&& here[k].value == value
                };
            let k = head.len() + k2;
            assert(all[k] == here[k2]);
            assert(last_write(all, target, k)) by {
                assert forall|j: int| k < j < all.len() implies (#[trigger] all[j]).path
                    != target by {
                    assert(all[j] == here[j - head.len()]);
                }
            }
        } else {
            assert(entry.0 != section) by {
                assert(e[at].0 == section);
            }
            assert forall|j: int| 0 <= j < here.len() implies (#[trigger] here[j]).path
                != target by {
                if here[j].path == target {
                    if entry.1 is Table {
                        let w = here[j].path;
                        assert(w[path.len() as int] == '.');
                        assert(w.take(path.len() as int) == path);
                        if path.len() < section.len() {
                            assert(target[path.len() as int] == section[path.len() as int]);
                        } else if path.len() > section.len() {
                            assert(w.take(path.len() as int)[section.len() as int] == w[section.len() as int]);
                        } else {
                            assert(target.take(section.len() as int) =~= section);
                        }
                    } else {
                        assert(entry.0[section.len() as int] == '.');
                    }
                }
            }
            if n - 1 < at {
                assert forall|k: int| 0 <= k < all.len() implies (#[trigger] all[k]).path
                    != target by {
                    if k < head.len() {
                        assert(all[k] == head[k]);
                    } else {
                        assert(all[k] == here[k - head.len()]);
                    }
                }
            } else {
                let k = choose|k: int|
                    {
                        &&& #[trigger] last_write(head, target, k)
                        &&& head[k].value == value
                    };
                assert(all[k] == head[k]);
                assert(last_write(all, target, k)) by {
                    assert forall|j: int| k < j < all.len() implies (#[trigger] all[j]).path
                        != target by {
                        if j < head.len() {
                            assert(all[j] == head[j]);
                        } else {
                            assert(all[j] == here[j - head.len()]);
                        }
                    }
                }
            }
        }
    }
}

/// Every write of the first `n` entries of a flat table that sits at a path
/// goes to the path of one of those entries.
pub proof fn lemma_flat_writes_paths(t: Tree, prefix: Seq<char>, n: int)
    requires
        t is Table,
        flat(t.entries()),
        0 <= n <= t.entries().len(),
    ensures
        forall|k: int|
            0 <= k < writes_upto(t, prefix, n).len() ==> exists|l: int|
                0 <= l < n && (#[trigger] writes_upto(t, prefix, n)[k]).path == child_path(
                    prefix,
                    t.entries()[l].0,
                ),
    decreases n,
{
    if n > 0 {
        lemma_flat_writes_paths(t, prefix, n - 1);
        let entry = t.entries()[n - 1];
        assert(!(entry.1 is Table));
        let head = writes_upto(t, prefix, n - 1);
        let all = writes_upto(t, prefix, n);
        assert forall|k: int| 0 <= k < all.len() implies exists|l: int|
            0 <= l < n && (#[trigger] all[k]).path == child_path(prefix, t.entries()[l].0) by {
            if k < head.len() {
                assert(all[k] == head[k]);
                let l = choose|l: int|
                    0 <= l < n - 1 && head[k].path == child_path(prefix, t.entries()[l].0);
                assert(0 <= l < n && all[k].path == child_path(prefix, t.entries()[l].0));
            } else {
                assert(all[k].path == child_path(prefix, t.entries()[n - 1].0));
            }
        }
    }
}

/// A table with distinct and plain keys sets the path of every name without
/// a dot that one of its flat sections with plain keys binds to a leaf.
pub proof fn lemma_section_leaf_is_set(
    t: Tree,
    section: Seq<char>,
    inner: Tree,
    name: Seq<char>,
    value: Tree,
)
    requires
        t is Table,
        distinct_keys(t.entries()),
        plain_keys(t.entries()),
        t.field(section) == Some(inner),
        inner is Table,
        distinct_keys(inner.entries()),
        plain_keys(inner.entries()),
        flat(inner.entries()),
        inner.field(name) == Some(value),
        value.is_leaf(),
        dotless(name),
    ensures
        sets(t, child_path(section, name), value),
{
    let n = t.entries().len() as int;
    lemma_key_index(t.entries(), section);
    lemma_section_entry_writes(t, section, inner, name, value, n);
    let ws = writes(t);
    let target = child_path(section, name);
    let k = choose|k: int|
        {
            &&& #[trigger] last_write(ws, target, k)
            &&& ws[k].value == value
        };
    let at = key_index(t.entries(), section);
    assert(dotless(section) && section.len() > 0) by {
        assert(t.entries()[at].0 == section);
    }
    crate::names::lemma_split_concat(section, name);
    lemma_split_dotless(section);
    lemma_split_dotless(name);
    assert(split_dots(target) =~= seq![section, name]);
    lemma_writes_come_from_entries(t, n);
    assert(clear_after(ws, target, k)) by {
        assert forall|i: int| k < i < ws.len() implies clear_of((#[trigger] ws[i]).path, target) by {
            assert(from_entries(t, n, ws[i]));
            let j = choose|j: int| 0 <= j < n && #[trigger] from_entry(t, j, ws[i]);
            lemma_write_head(t, j, ws[i]);
            if t.entries()[j].0 != section {
                lemma_apart_by_head(split_dots(ws[i].path), split_dots(target));
            } else {
                assert(j == at);
                let m = inner.entries().len() as int;
                let sub = writes_upto(inner, section, m);
                let idx = choose|idx: int| 0 <= idx < sub.len() && sub[idx] == ws[i];
                lemma_flat_writes_paths(inner, section, m);
                let l = choose|l: int|
                    0 <= l < m && sub[idx].path == child_path(section, inner.entries()[l].0);
                let key = inner.entries()[l].0;
                crate::names::lemma_split_concat(section, key);
                lemma_split_dotless(key);
                let parts = split_dots(ws[i].path);
                assert(parts =~= seq![section, key]);
                assert(key != name);
                if crate::tree_laws::begins(parts, split_dots(target)) {
                    assert(split_dots(target).take(2)[1] == parts[1]);
                }
                if crate::tree_laws::begins(split_dots(target), parts) {
                    assert(parts.take(2)[1] == split_dots(target)[1]);
                }
            }
        }
    }
    assert(last_write(ws, target, k) && ws[k].value == value && clear_after(ws, target, k));
}

/// The layer of defaults sets the path of every field of a provider that
/// has a default to what the default stands for.
pub proof fn lemma_defaults_set_provider_fields(p: Provider, i: int)
    requires
        0 <= i < provider_spec(p).all_fields().len(),
        provider_spec(p).all_fields()[i].default is Some,
    ensures
        sets(
            defaults_tree(),
            crate::catalog::field_path(provider_spec(p).name, provider_spec(p).all_fields()[i].name),
            default_leaf(provider_spec(p).all_fields()[i].default->0),
        ),
{
    let spec = provider_spec(p);
    let fields = spec.all_fields();
    let f = fields[i];
    let section = fields_defaults(fields, false);
    crate::field_names::lemma_provider_fields(p);
    crate::field_names::lemma_field_names(f.name, f.name);
    lemma_fields_defaults_shape(fields, false);
    lemma_fields_defaults_hit(fields, false, i);
    assert(section.entries().len() > 0) by {
        lemma_key_index(section.entries(), f.name);
    }
    let n = Provider::every().len() as int;
    let k = p.ordinal();
    assert(Provider::every()[k] == p);
    lemma_defaults_upto_sections(n, k);
    lemma_defaults_upto_shape(n, 0);
    lemma_provider_names();
    assert forall|a: int| 0 <= a < fields.len() implies dotless((#[trigger] fields[a]).name)
        && fields[a].name.len() > 0 by {
        crate::field_names::lemma_field_names(fields[a].name, fields[a].name);
    }
    lemma_fields_defaults_plain(fields, false);
    lemma_section_leaf_is_set(defaults_tree(), spec.name, section, f.name, default_leaf(f.default->0));
}

/// Defaults of providers show through. For every field of a provider that
/// has a default: where the two files, the environment and the command line
/// all leave the field's path alone, the loaded tree holds at the path what
/// the declared default stands for, and the path is marked as a default.
pub proof fn law_provider_default_shows_through(
    toml: Option<Tree>,
    json: Option<Tree>,
    env: Map<Seq<char>, Seq<char>>,
    cli: CliSpec,
    p: Provider,
    i: int,
)
    requires
        0 <= i < provider_spec(p).all_fields().len(),
        provider_spec(p).all_fields()[i].default is Some,
        leaves_alone(
            file_layer(toml),
            crate::catalog::field_path(provider_spec(p).name, provider_spec(p).all_fields()[i].name),
        ),
        leaves_alone(
            file_layer(json),
            crate::catalog::field_path(provider_spec(p).name, provider_spec(p).all_fields()[i].name),
        ),
        leaves_alone(
            env_layer(env),
            crate::catalog::field_path(provider_spec(p).name, provider_spec(p).all_fields()[i].name),
        ),
        leaves_alone(
            cli_layer(cli),
            crate::catalog::field_path(provider_spec(p).name, provider_spec(p).all_fields()[i].name),
        ),
    ensures
        merged_layers(toml, json, env, cli).tree.lookup(
            crate::catalog::field_path(provider_spec(p).name, provider_spec(p).all_fields()[i].name),
        ) == Some(default_leaf(provider_spec(p).all_fields()[i].default->0)),
        merged_layers(toml, json, env, cli).source_of(
            crate::catalog::field_path(provider_spec(p).name, provider_spec(p).all_fields()[i].name),
        ) == ConfigSource::Default,
{
    let f = provider_spec(p).all_fields()[i];
    let path = crate::catalog::field_path(provider_spec(p).name, f.name);
    lemma_defaults_set_provider_fields(p, i);
    let layers = pipeline(toml, json, env, cli);
    assert(layers[0].0 == defaults_tree());
    assert forall|k: int| 0 < k < 5 implies leaves_alone((#[trigger] layers[k]).0, path) by {
        if k == 1 {
        } else if k == 2 {
        } else if k == 3 {
        } else {
        }
    }
    law_precedence(toml, json, env, cli, path, 0, default_leaf(f.default->0));
}

} // verus!
