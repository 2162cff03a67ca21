//! The law of mappings: the layers are mappings, with every key bound once
//! in every table, and merging keeps a mapping a mapping.

use crate::builder::child_path;
use crate::builder::writes;
use crate::builder::writes_upto;
use crate::builder::Merged;
use crate::builder::Write;
use crate::catalog::field_path;
use crate::catalog::global_settings;
use crate::catalog::provider_spec;
use crate::default_laws::distinct_keys;
use crate::kinds::Provider;
use crate::layers::cli_layer;
use crate::layers::default_leaf;
use crate::layers::defaults_tree;
use crate::layers::defaults_upto;
use crate::layers::env_scan;
use crate::layers::fields_defaults;
use crate::layers::first_set;
use crate::layers::own_set;
use crate::layers::put_some;
use crate::layers::scan_fields;
use crate::layers::scan_globals;
use crate::layers::scan_providers;
use crate::layers::text_leaf;
use crate::layers::CliSpec;
use crate::layers::EnvScan;
use crate::literal::digits_of;
use crate::meta::FieldSpec;
use crate::source::ConfigSource;
use crate::text::lemma_split_dots_shape;
use crate::text::split_dots;
use crate::tree::key_index;
use crate::tree::lemma_key_index;
use crate::tree::Tree;
use vstd::prelude::*;

verus! {

/// What a mapping binds a key to is a mapping.
pub proof fn lemma_field_is_mapping(t: Tree, key: Seq<char>)
    requires
        t.is_mapping(),
    ensures
        t.field(key) is Some ==> t.field(key)->0.is_mapping(),
{
    lemma_key_index(t.entries(), key);
}

/// Binding a key to a mapping keeps a mapping a mapping.
pub proof fn lemma_put_keeps_mapping(t: Tree, key: Seq<char>, value: Tree)
    requires
        t.is_mapping(),
        value.is_mapping(),
    ensures
        t.put(key, value).is_mapping(),
{
    if t is Table {
        let e = t->Table_0;
        let i = key_index(e, key);
        lemma_key_index(e, key);
        let e2 = t.put(key, value)->Table_0;
        if i < e.len() {
            assert(e2 =~= e.update(i, (key, value)));
            assert forall|a: int, b: int|
                0 <= a < e2.len() && 0 <= b < e2.len() && a != b implies (#[trigger] e2[a]).0 != (
                #[trigger] e2[b]).0 by {
                assert(e2[a].0 == e[a].0);
                assert(e2[b].0 == e[b].0);
            }
            assert forall|a: int| 0 <= a < e2.len() implies (#[trigger] e2[a]).1.is_mapping() by {
                if a != i {
                    assert(e2[a] == e[a]);
                }
            }
        } else {
            assert(e2 =~= e.push((key, value)));
            assert forall|a: int, b: int|
                0 <= a < e2.len() && 0 <= b < e2.len() && a != b implies (#[trigger] e2[a]).0 != (
                #[trigger] e2[b]).0 by {
                if a < e.len() {
                    assert(e2[a] == e[a]);
                }
                if b < e.len() {
                    assert(e2[b] == e[b]);
                }
            }
            assert forall|a: int| 0 <= a < e2.len() implies (#[trigger] e2[a]).1.is_mapping() by {
                if a < e.len() {
                    assert(e2[a] == e[a]);
                }
            }
        }
    }
}

/// Writing a mapping at a path keeps a mapping a mapping.
pub proof fn lemma_with_keeps_mapping(t: Tree, parts: Seq<Seq<char>>, value: Tree)
    requires
        t.is_mapping(),
        value.is_mapping(),
    ensures
        t.with(parts, value).is_mapping(),
    decreases parts.len(),
{
    if parts.len() == 0 {
    } else {
        let base = t.as_table();
        assert(base.is_mapping());
        if parts.len() == 1 {
            lemma_put_keeps_mapping(base, parts[0], value);
        } else {
            let child = match t.field(parts[0]) {
                Some(c) => c,
                None => Tree::empty(),
            };
            lemma_field_is_mapping(t, parts[0]);
            lemma_with_keeps_mapping(child, parts.drop_first(), value);
            lemma_put_keeps_mapping(base, parts[0], child.with(parts.drop_first(), value));
        }
    }
}

/// Whether every write writes a mapping.
pub open spec fn all_mappings(ws: Seq<Write>) -> bool {
    forall|i: int| 0 <= i < ws.len() ==> (#[trigger] ws[i]).value.is_mapping()
}

/// What a mapping writes are mappings.
pub proof fn lemma_writes_are_mappings(layer: Tree, prefix: Seq<char>, n: int)
    requires
        layer.is_mapping(),
    ensures
        all_mappings(writes_upto(layer, prefix, n)),
    decreases layer, n,
{
    if layer is Table && 0 < n <= layer->Table_0.len() {
        let entry = layer->Table_0[n - 1];
        let path = child_path(prefix, entry.0);
        lemma_writes_are_mappings(layer, prefix, n - 1);
        assert(entry.1.is_mapping());
        if entry.1 is Table {
            lemma_writes_are_mappings(entry.1, path, entry.1->Table_0.len() as int);
        }
        let head = writes_upto(layer, prefix, n - 1);
        let all = writes_upto(layer, prefix, n);
        assert forall|i: int| 0 <= i < all.len() implies (#[trigger] all[i]).value.is_mapping() by {
            if i < head.len() {
                assert(all[i] == head[i]);
            } else {
                if entry.1 is Table {
                    let sub = writes_upto(entry.1, path, entry.1->Table_0.len() as int);
                    assert(all[i] == sub[i - head.len()]);
                }
            }
        }
    }
}

/// Writes of mappings keep a mapping a mapping.
pub proof fn lemma_apply_keeps_mapping(m: Merged, ws: Seq<Write>, source: ConfigSource)
    requires
        m.tree.is_mapping(),
        all_mappings(ws),
    ensures
        m.apply(ws, source).tree.is_mapping(),
    decreases ws.len(),
{
    if ws.len() > 0 {
        let head = ws.drop_last();
        assert(all_mappings(head)) by {
            assert forall|i: int| 0 <= i < head.len() implies (#[trigger] head[i]).value.is_mapping() by {
                assert(head[i] == ws[i]);
            }
        }
        lemma_apply_keeps_mapping(m, head, source);
        assert(ws.last() == ws[ws.len() - 1]);
        lemma_with_keeps_mapping(
            m.apply(head, source).tree,
            split_dots(ws.last().path),
            ws.last().value,
        );
    }
}

/// Merging keeps a mapping. Where the merged tree is a mapping and a layer
/// is, the tree after the layer is merged is a mapping: no table in it binds
/// a key twice.
pub proof fn law_merge_keeps_mapping(m: Merged, layer: Tree, source: ConfigSource)
    requires
        m.tree.is_mapping(),
        layer.is_mapping(),
    ensures
        m.merge(layer, source).tree.is_mapping(),
{
    lemma_writes_are_mappings(layer, Seq::empty(), layer.entries().len() as int);
    lemma_apply_keeps_mapping(m, writes(layer), source);
}

/// What a default stands for is a mapping.
pub proof fn lemma_default_leaf_is_mapping(text: Seq<char>)
    ensures
        default_leaf(text).is_mapping(),
{
}

/// A table of defaults is a mapping.
pub proof fn lemma_fields_defaults_mapping(fields: Seq<FieldSpec>, skip_virtual: bool)
    ensures
        fields_defaults(fields, skip_virtual).is_mapping(),
    decreases fields.len(),
{
    if fields.len() == 0 {
        assert(Tree::empty().is_mapping());
    } else {
        lemma_fields_defaults_mapping(fields.drop_last(), skip_virtual);
        let f = fields.last();
        if !((skip_virtual && f.virtual_field) || f.default is None) {
            lemma_default_leaf_is_mapping(f.default->0);
            lemma_put_keeps_mapping(
                fields_defaults(fields.drop_last(), skip_virtual),
                f.name,
                default_leaf(f.default->0),
            );
        }
    }
}

/// The layer of defaults, as far as the first `n` providers, is a mapping.
pub proof fn lemma_defaults_upto_mapping(n: int)
    ensures
        defaults_upto(n).is_mapping(),
    decreases n,
{
    if n <= 0 || n > Provider::every().len() {
        lemma_fields_defaults_mapping(global_settings(), true);
    } else {
        lemma_defaults_upto_mapping(n - 1);
        let p = provider_spec(Provider::every()[n - 1]);
        lemma_fields_defaults_mapping(p.all_fields(), false);
        lemma_put_keeps_mapping(defaults_upto(n - 1), p.name, fields_defaults(p.all_fields(), false));
    }
}

/// The layer of defaults is a mapping.
pub proof fn lemma_defaults_mapping()
    ensures
        defaults_tree().is_mapping(),
{
    lemma_defaults_upto_mapping(Provider::every().len() as int);
}

proof fn lemma_scan_globals_mapping(env: Map<Seq<char>, Seq<char>>, fields: Seq<FieldSpec>, start: EnvScan)
    requires
        start.layer.is_mapping(),
    ensures
        scan_globals(env, fields, start).layer.is_mapping(),
    decreases fields.len(),
{
    if fields.len() > 0 {
        lemma_scan_globals_mapping(env, fields.drop_last(), start);
        let prev = scan_globals(env, fields.drop_last(), start);
        let f = fields.last();
        if first_set(env, f) is Some && !f.virtual_field {
            lemma_put_keeps_mapping(prev.layer, f.name, Tree::Text(env[first_set(env, f)->0]));
        }
    }
}

proof fn lemma_scan_fields_mapping(
    env: Map<Seq<char>, Seq<char>>,
    provider: Seq<char>,
    fields: Seq<FieldSpec>,
    start: EnvScan,
)
    requires
        start.layer.is_mapping(),
    ensures
        scan_fields(env, provider, fields, start).layer.is_mapping(),
    decreases fields.len(),
{
    if fields.len() > 0 {
        lemma_scan_fields_mapping(env, provider, fields.drop_last(), start);
        let prev = scan_fields(env, provider, fields.drop_last(), start);
        let f = fields.last();
        if own_set(env, f) is Some {
            lemma_with_keeps_mapping(
                prev.layer,
                split_dots(field_path(provider, f.name)),
                Tree::Text(env[own_set(env, f)->0]),
            );
        }
    }
}

proof fn lemma_scan_providers_mapping(env: Map<Seq<char>, Seq<char>>, n: int, start: EnvScan)
    requires
        start.layer.is_mapping(),
    ensures
        scan_providers(env, n, start).layer.is_mapping(),
    decreases n,
{
    if 0 < n <= Provider::every().len() {
        lemma_scan_providers_mapping(env, n - 1, start);
        let p = provider_spec(Provider::every()[n - 1]);
        lemma_scan_fields_mapping(env, p.name, p.all_fields(), scan_providers(env, n - 1, start));
    }
}

/// The layer of the environment is a mapping.
pub proof fn lemma_env_layer_mapping(env: Map<Seq<char>, Seq<char>>, known: Map<Seq<char>, Seq<char>>)
    ensures
        env_scan(env, known).layer.is_mapping(),
{
    let start = EnvScan { layer: Tree::empty(), vars: known };
    assert(Tree::empty().is_mapping());
    lemma_scan_globals_mapping(env, global_settings(), start);
    let after_globals = scan_globals(env, global_settings(), start);
    lemma_scan_providers_mapping(env, Provider::every().len() as int, after_globals);
    let after_providers = scan_providers(env, Provider::every().len() as int, after_globals);
    lemma_put_keeps_mapping(after_providers.layer, "frontend"@, Tree::Text("noninteractive"@));
}

/// Binding a key to a leaf where there is one keeps a mapping a mapping.
proof fn lemma_put_some_mapping(t: Tree, key: Seq<char>, value: Option<Tree>)
    requires
        t.is_mapping(),
        value is Some ==> value->0.is_mapping(),
    ensures
        put_some(t, key, value).is_mapping(),
{
    if value is Some {
        lemma_put_keeps_mapping(t, key, value->0);
    }
}

/// The layer of the command line is a mapping.
pub proof fn lemma_cli_layer_mapping(c: CliSpec)
    ensures
        cli_layer(c).is_mapping(),
{
    let v3 = match c.max_tokens {
        Some(n) => Some(Tree::Number(digits_of(n as nat))),
        None => None,
    };
    let v4 = match c.temperature {
        Some(t) => Some(Tree::Number(t)),
        None => None,
    };
    let v7 = match c.debug {
        Some(d) => Some(Tree::Text(d.label())),
        None => None,
    };
    let t0 = Tree::empty();
    assert(t0.is_mapping());
    let t1 = put_some(t0, "provider"@, text_leaf(c.provider));
    let t2 = put_some(t1, "model"@, text_leaf(c.model));
    let t3 = put_some(t2, "max_tokens"@, v3);
    let t4 = put_some(t3, "temperature"@, v4);
    let t5 = put_some(t4, "frontend"@, text_leaf(c.frontend));
    let t6 = put_some(t5, "output_format"@, text_leaf(c.output_format));
    let t7 = put_some(t6, "debug"@, v7);
    lemma_put_some_mapping(t0, "provider"@, text_leaf(c.provider));
    lemma_put_some_mapping(t1, "model"@, text_leaf(c.model));
    lemma_put_some_mapping(t2, "max_tokens"@, v3);
    lemma_put_some_mapping(t3, "temperature"@, v4);
    lemma_put_some_mapping(t4, "frontend"@, text_leaf(c.frontend));
    lemma_put_some_mapping(t5, "output_format"@, text_leaf(c.output_format));
    lemma_put_some_mapping(t6, "debug"@, v7);
    lemma_put_some_mapping(t7, "locale"@, text_leaf(c.locale));
}

} // verus!
