//! The law of the environment: the first variable of a setting wins over
//! its further variables.

use crate::builder::writes;
use crate::builder::Merged;
use crate::builder::Write;
use crate::builder::writes_upto;
use crate::catalog::field_path;
use crate::default_laws::distinct_keys;
use crate::default_laws::flat;
use crate::default_laws::plain_keys;
use crate::default_laws::lemma_bound_leaf_is_set;
use crate::default_laws::lemma_put_keeps_shape;
use crate::default_laws::tables_are_named;
use crate::flag_laws::lemma_cli_layer;
use crate::flag_laws::lemma_cli_layer_plain;
use crate::laws::last_write;
use crate::laws::leaves_alone;
use crate::laws::sets;
use crate::layers::cli_layer;
use crate::layers::CliSpec;
use crate::load::merged_layers;
use crate::pipeline_laws::env_layer;
use crate::pipeline_laws::law_precedence;
use crate::pipeline_laws::pipeline;
use crate::source::ConfigSource;
use crate::tree::key_index;
use crate::tree::lemma_key_index;
use crate::catalog::global_settings;
use crate::catalog::provider_spec;
use crate::kinds::Provider;
use crate::layers::env_scan;
use crate::layers::first_set;
use crate::layers::is_set;
use crate::layers::own_set;
use crate::layers::scan_fields;
use crate::layers::scan_globals;
use crate::layers::scan_providers;
use crate::layers::skip_confirm_on;
use crate::layers::EnvScan;
use crate::meta::FieldSpec;
use crate::names::lemma_global_names;
use crate::names::lemma_provider_names;
use crate::names::lemma_split_dotless;
use crate::text::dotless;
use crate::text::split_dots;
use crate::tree::Tree;
use crate::tree_laws::lemma_put_other;
use crate::tree_laws::lemma_put_same;
use vstd::prelude::*;

verus! {

/// The first component of a path that begins with a name without a dot and
/// a dot is that name, and the path has more than one component.
pub proof fn lemma_split_first(head: Seq<char>, rest: Seq<char>)
    requires
        dotless(head),
    ensures
        split_dots(head + seq!['.'] + rest).len() >= 2,
        split_dots(head + seq!['.'] + rest)[0] == head,
    decreases rest.len(),
{
    let s = head + seq!['.'] + rest;
    if rest.len() == 0 {
        assert(s.drop_last() =~= head);
        assert(s.last() == '.');
        lemma_split_dotless(head);
    } else {
        let shorter = rest.drop_last();
        lemma_split_first(head, shorter);
        assert(s.drop_last() =~= head + seq!['.'] + shorter);
        assert(s.last() == rest.last());
    }
}

/// A write leaves alone the top-level entries under other keys.
pub proof fn lemma_with_other_field(t: Tree, parts: Seq<Seq<char>>, value: Tree, key: Seq<char>)
    requires
        parts.len() >= 1,
        parts[0] != key,
    ensures
        t.with(parts, value).field(key) == t.field(key),
{
    let base = t.as_table();
    crate::tree_laws::lemma_field_of_table(t, key);
    if parts.len() == 1 {
        lemma_put_other(base, parts[0], value, key);
    } else {
        let child = match t.field(parts[0]) {
            Some(c) => c,
            None => Tree::empty(),
        };
        lemma_put_other(base, parts[0], child.with(parts.drop_first(), value), key);
    }
}

/// The path of a provider's field is no name without a dot.
pub proof fn lemma_field_path_has_dot(provider: Seq<char>, field: Seq<char>, name: Seq<char>)
    requires
        dotless(name),
    ensures
        field_path(provider, field) != name,
{
    let path = field_path(provider, field);
    assert(path[provider.len() as int] == '.');
}

/// A scan of global settings leaves the layer a table.
pub proof fn lemma_scan_globals_is_table(
    env: Map<Seq<char>, Seq<char>>,
    fields: Seq<FieldSpec>,
    start: EnvScan,
)
    requires
        start.layer is Table,
    ensures
        scan_globals(env, fields, start).layer is Table,
    decreases fields.len(),
{
    if fields.len() > 0 {
        lemma_scan_globals_is_table(env, fields.drop_last(), start);
    }
}

/// After a scan of global settings with names that differ, a setting that
/// is read and has a variable that supplies it holds the value of that
/// variable, and the variable is recorded for it.
pub proof fn lemma_scan_globals_hit(
    env: Map<Seq<char>, Seq<char>>,
    fields: Seq<FieldSpec>,
    start: EnvScan,
    i: int,
)
    requires
        start.layer is Table,
        0 <= i < fields.len(),
        forall|a: int, b: int|
            0 <= a < fields.len() && 0 <= b < fields.len() && a != b ==> (#[trigger] fields[a]).name
                != (#[trigger] fields[b]).name,
        !fields[i].virtual_field,
        first_set(env, fields[i]) is Some,
    ensures
        scan_globals(env, fields, start).layer.field(fields[i].name) == Some(
            Tree::Text(env[first_set(env, fields[i])->0]),
        ),
        scan_globals(env, fields, start).vars.contains_key(fields[i].name),
        scan_globals(env, fields, start).vars[fields[i].name] == first_set(env, fields[i])->0,
    decreases fields.len(),
{
    let head = fields.drop_last();
    let last = fields.last();
    let prev = scan_globals(env, head, start);
    lemma_scan_globals_is_table(env, head, start);
    assert(last == fields[fields.len() - 1]);
    if i == fields.len() - 1 {
        lemma_put_same(prev.layer, last.name, Tree::Text(env[first_set(env, last)->0]));
    } else {
        assert(head[i] == fields[i]);
        assert forall|a: int, b: int| 0 <= a < head.len() && 0 <= b < head.len() && a != b implies (
        #[trigger] head[a]).name != (#[trigger] head[b]).name by {
            assert(head[a] == fields[a]);
            assert(head[b] == fields[b]);
        }
        lemma_scan_globals_hit(env, head, start, i);
        assert(last.name != fields[i].name);
        if first_set(env, last) is Some && !last.virtual_field {
            lemma_put_other(
                prev.layer,
                last.name,
                Tree::Text(env[first_set(env, last)->0]),
                fields[i].name,
            );
        }
    }
}

/// A scan of a provider's fields leaves alone the entry and the record of a
/// name without a dot that is not the provider's.
pub proof fn lemma_scan_fields_keeps(
    env: Map<Seq<char>, Seq<char>>,
    provider: Seq<char>,
    fields: Seq<FieldSpec>,
    start: EnvScan,
    name: Seq<char>,
)
    requires
        dotless(name),
        dotless(provider),
        provider != name,
    ensures
        scan_fields(env, provider, fields, start).layer.field(name) == start.layer.field(name),
        scan_fields(env, provider, fields, start).vars.contains_key(name)
            == start.vars.contains_key(name),
        scan_fields(env, provider, fields, start).vars[name] == start.vars[name],
    decreases fields.len(),
{
    if fields.len() > 0 {
        let head = fields.drop_last();
        let f = fields.last();
        lemma_scan_fields_keeps(env, provider, head, start, name);
        let prev = scan_fields(env, provider, head, start);
        let path = field_path(provider, f.name);
        if own_set(env, f) is Some {
            lemma_split_first(provider, f.name);
            lemma_field_path_has_dot(provider, f.name, name);
            lemma_with_other_field(
                prev.layer,
                split_dots(path),
                Tree::Text(env[own_set(env, f)->0]),
                name,
            );
        }
    }
}

/// A scan of the providers leaves alone the entry and the record of the
/// name of a global setting.
pub proof fn lemma_scan_providers_keeps(
    env: Map<Seq<char>, Seq<char>>,
    n: int,
    start: EnvScan,
    i: int,
)
    requires
        0 <= i < global_settings().len(),
    ensures
        scan_providers(env, n, start).layer.field(global_settings()[i].name) == start.layer.field(
            global_settings()[i].name,
        ),
        scan_providers(env, n, start).vars.contains_key(global_settings()[i].name)
            == start.vars.contains_key(global_settings()[i].name),
        scan_providers(env, n, start).vars[global_settings()[i].name]
            == start.vars[global_settings()[i].name],
    decreases n,
{
    if 0 < n <= Provider::every().len() {
        lemma_scan_providers_keeps(env, n - 1, start, i);
        let p = provider_spec(Provider::every()[n - 1]);
        lemma_global_names();
        lemma_provider_names();
        lemma_scan_fields_keeps(
            env,
            p.name,
            p.all_fields(),
            scan_providers(env, n - 1, start),
            global_settings()[i].name,
        );
    }
}

/// What the layer of the environment binds a global setting to: where some
/// variable supplies the setting, the value of the first of its variables
/// that does, top-level in the layer, with that variable recorded. This
/// holds of the frontend where its own variable supplies it.
pub proof fn lemma_env_layer_binds(
    env: Map<Seq<char>, Seq<char>>,
    known: Map<Seq<char>, Seq<char>>,
    i: int,
)
    requires
        0 <= i < global_settings().len(),
        !global_settings()[i].virtual_field,
        first_set(env, global_settings()[i]) is Some,
    ensures
        env_scan(env, known).layer.field(global_settings()[i].name) == Some(
            Tree::Text(env[first_set(env, global_settings()[i])->0]),
        ),
        env_scan(env, known).vars.contains_key(global_settings()[i].name),
        env_scan(env, known).vars[global_settings()[i].name] == first_set(
            env,
            global_settings()[i],
        )->0,
{
    let f = global_settings()[i];
    let v = first_set(env, f)->0;
    let start = EnvScan { layer: Tree::empty(), vars: known };
    lemma_global_names();
    lemma_scan_globals_hit(env, global_settings(), start, i);
    let after_globals = scan_globals(env, global_settings(), start);
    lemma_scan_providers_keeps(env, Provider::every().len() as int, after_globals, i);
    let after_providers = scan_providers(env, Provider::every().len() as int, after_globals);
    if i == 5 {
        reveal_strlit("SHAI_FRONTEND");
        assert(f.env_var == Some("SHAI_FRONTEND"@));
        assert(f.env_aliases.len() == 0);
        assert(first_set(env, f) == Some("SHAI_FRONTEND"@)) by {
            if !is_set(env, "SHAI_FRONTEND"@) {
                crate::search::lemma_first_where_none(
                    f.env_aliases,
                    |a: Seq<char>| is_set(env, a),
                );
            }
        }
        assert(env.contains_key("SHAI_FRONTEND"@));
    } else {
        assert(global_settings()[5].name == "frontend"@);
        assert(f.name != "frontend"@);
        lemma_put_other(after_providers.layer, "frontend"@, Tree::Text("noninteractive"@), f.name);
    }
}

/// The first variable wins. For every global setting that is read from the
/// environment: where its first variable is set to a text that is not
/// empty, the layer of the environment holds the value of that variable at
/// the setting's path, and that variable is recorded as the one that
/// supplied it, whatever its further variables are set to.
pub proof fn law_primary_variable_wins(
    env: Map<Seq<char>, Seq<char>>,
    known: Map<Seq<char>, Seq<char>>,
    i: int,
)
    requires
        0 <= i < global_settings().len(),
        !global_settings()[i].virtual_field,
        global_settings()[i].env_var is Some,
        is_set(env, global_settings()[i].env_var->0),
    ensures
        env_scan(env, known).layer.lookup(global_settings()[i].name) == Some(
            Tree::Text(env[global_settings()[i].env_var->0]),
        ),
        env_scan(env, known).vars.contains_key(global_settings()[i].name),
        env_scan(env, known).vars[global_settings()[i].name] == global_settings()[i].env_var->0,
{
    let f = global_settings()[i];
    let primary = f.env_var->0;
    assert(first_set(env, f) == Some(primary));
    lemma_env_layer_binds(env, known, i);
    lemma_global_names();
    lemma_split_dotless(f.name);
    let leaf = Tree::Text(env[primary]);
    let parts = split_dots(f.name);
    assert(parts.drop_first().len() == 0);
    assert(leaf.at(parts.drop_first()) == Some(leaf));
}

/// A further variable is read where the first is not set: for every global
/// setting that is read from the environment, where some variable supplies
/// it, the layer holds the value of the first of its variables that is set
/// to a text that is not empty, the first variable before the further ones.
pub proof fn law_first_set_variable_supplies(
    env: Map<Seq<char>, Seq<char>>,
    known: Map<Seq<char>, Seq<char>>,
    i: int,
)
    requires
        0 <= i < global_settings().len(),
        !global_settings()[i].virtual_field,
        first_set(env, global_settings()[i]) is Some,
    ensures
        env_scan(env, known).layer.lookup(global_settings()[i].name) == Some(
            Tree::Text(env[first_set(env, global_settings()[i])->0]),
        ),
        env_scan(env, known).vars[global_settings()[i].name] == first_set(
            env,
            global_settings()[i],
        )->0,
{
    let f = global_settings()[i];
    lemma_env_layer_binds(env, known, i);
    lemma_global_names();
    lemma_split_dotless(f.name);
    let leaf = Tree::Text(env[first_set(env, f)->0]);
    let parts = split_dots(f.name);
    assert(parts.drop_first().len() == 0);
    assert(leaf.at(parts.drop_first()) == Some(leaf));
}

/// A write keeps the keys of a table distinct and its tables named, where
/// the first component of its path is not empty.
pub proof fn lemma_with_keeps_shape(t: Tree, parts: Seq<Seq<char>>, value: Tree)
    requires
        t is Table,
        distinct_keys(t.entries()),
        tables_are_named(t.entries()),
        parts.len() >= 1,
        parts[0].len() > 0,
    ensures
        t.with(parts, value) is Table,
        distinct_keys(t.with(parts, value).entries()),
        tables_are_named(t.with(parts, value).entries()),
{
    if parts.len() == 1 {
        lemma_put_keeps_shape(t, parts[0], value);
    } else {
        let child = match t.field(parts[0]) {
            Some(c) => c,
            None => Tree::empty(),
        };
        lemma_put_keeps_shape(t, parts[0], child.with(parts.drop_first(), value));
    }
}

proof fn lemma_scan_globals_shape(
    env: Map<Seq<char>, Seq<char>>,
    fields: Seq<FieldSpec>,
    start: EnvScan,
)
    requires
        start.layer is Table,
        distinct_keys(start.layer.entries()),
        tables_are_named(start.layer.entries()),
    ensures
        scan_globals(env, fields, start).layer is Table,
        distinct_keys(scan_globals(env, fields, start).layer.entries()),
        tables_are_named(scan_globals(env, fields, start).layer.entries()),
    decreases fields.len(),
{
    if fields.len() > 0 {
        lemma_scan_globals_shape(env, fields.drop_last(), start);
        let prev = scan_globals(env, fields.drop_last(), start);
        let f = fields.last();
        if first_set(env, f) is Some && !f.virtual_field {
            lemma_put_keeps_shape(prev.layer, f.name, Tree::Text(env[first_set(env, f)->0]));
        }
    }
}

proof fn lemma_scan_fields_shape(
    env: Map<Seq<char>, Seq<char>>,
    provider: Seq<char>,
    fields: Seq<FieldSpec>,
    start: EnvScan,
)
    requires
        start.layer is Table,
        distinct_keys(start.layer.entries()),
        tables_are_named(start.layer.entries()),
        dotless(provider),
        provider.len() > 0,
    ensures
        scan_fields(env, provider, fields, start).layer is Table,
        distinct_keys(scan_fields(env, provider, fields, start).layer.entries()),
        tables_are_named(scan_fields(env, provider, fields, start).layer.entries()),
    decreases fields.len(),
{
    if fields.len() > 0 {
        lemma_scan_fields_shape(env, provider, fields.drop_last(), start);
        let prev = scan_fields(env, provider, fields.drop_last(), start);
        let f = fields.last();
        if own_set(env, f) is Some {
            lemma_split_first(provider, f.name);
            lemma_with_keeps_shape(
                prev.layer,
                split_dots(field_path(provider, f.name)),
                Tree::Text(env[own_set(env, f)->0]),
            );
        }
    }
}

proof fn lemma_scan_providers_shape(env: Map<Seq<char>, Seq<char>>, n: int, start: EnvScan)
    requires
        start.layer is Table,
        distinct_keys(start.layer.entries()),
        tables_are_named(start.layer.entries()),
    ensures
        scan_providers(env, n, start).layer is Table,
        distinct_keys(scan_providers(env, n, start).layer.entries()),
        tables_are_named(scan_providers(env, n, start).layer.entries()),
    decreases n,
{
    if 0 < n <= Provider::every().len() {
        lemma_scan_providers_shape(env, n - 1, start);
        let p = provider_spec(Provider::every()[n - 1]);
        lemma_provider_names();
        lemma_scan_fields_shape(env, p.name, p.all_fields(), scan_providers(env, n - 1, start));
    }
}

/// A write keeps the keys of a table plain, where the first name of its
/// path is plain.
pub proof fn lemma_with_keeps_plain(t: Tree, parts: Seq<Seq<char>>, value: Tree)
    requires
        t is Table,
        plain_keys(t.entries()),
        parts.len() >= 1,
        dotless(parts[0]),
        parts[0].len() > 0,
    ensures
        t.with(parts, value) is Table,
        plain_keys(t.with(parts, value).entries()),
{
    if parts.len() == 1 {
        crate::default_laws::lemma_put_keeps_plain(t, parts[0], value);
        lemma_put_same(t, parts[0], value);
    } else {
        let child = match t.field(parts[0]) {
            Some(c) => c,
            None => Tree::empty(),
        };
        crate::default_laws::lemma_put_keeps_plain(t, parts[0], child.with(parts.drop_first(), value));
        lemma_put_same(t, parts[0], child.with(parts.drop_first(), value));
    }
}

proof fn lemma_scan_globals_plain(
    env: Map<Seq<char>, Seq<char>>,
    fields: Seq<FieldSpec>,
    start: EnvScan,
)
    requires
        start.layer is Table,
        plain_keys(start.layer.entries()),
        forall|i: int|
            0 <= i < fields.len() ==> dotless((#[trigger] fields[i]).name) && fields[i].name.len()
                > 0,
    ensures
        scan_globals(env, fields, start).layer is Table,
        plain_keys(scan_globals(env, fields, start).layer.entries()),
    decreases fields.len(),
{
    if fields.len() > 0 {
        let head = fields.drop_last();
        assert forall|i: int| 0 <= i < head.len() implies dotless((#[trigger] head[i]).name)
            && head[i].name.len() > 0 by {
            assert(head[i] == fields[i]);
        }
        lemma_scan_globals_plain(env, head, start);
        let prev = scan_globals(env, head, start);
        let f = fields.last();
        assert(f == fields[fields.len() - 1]);
        if first_set(env, f) is Some && !f.virtual_field {
            crate::default_laws::lemma_put_keeps_plain(
                prev.layer,
                f.name,
                Tree::Text(env[first_set(env, f)->0]),
            );
            lemma_put_same(prev.layer, f.name, Tree::Text(env[first_set(env, f)->0]));
        }
    }
}

proof fn lemma_scan_fields_plain(
    env: Map<Seq<char>, Seq<char>>,
    provider: Seq<char>,
    fields: Seq<FieldSpec>,
    start: EnvScan,
)
    requires
        start.layer is Table,
        plain_keys(start.layer.entries()),
        dotless(provider),
        provider.len() > 0,
    ensures
        scan_fields(env, provider, fields, start).layer is Table,
        plain_keys(scan_fields(env, provider, fields, start).layer.entries()),
    decreases fields.len(),
{
    if fields.len() > 0 {
        lemma_scan_fields_plain(env, provider, fields.drop_last(), start);
        let prev = scan_fields(env, provider, fields.drop_last(), start);
        let f = fields.last();
        if own_set(env, f) is Some {
            lemma_split_first(provider, f.name);
            lemma_with_keeps_plain(
                prev.layer,
                split_dots(field_path(provider, f.name)),
                Tree::Text(env[own_set(env, f)->0]),
            );
        }
    }
}

proof fn lemma_scan_providers_plain(env: Map<Seq<char>, Seq<char>>, n: int, start: EnvScan)
    requires
        start.layer is Table,
        plain_keys(start.layer.entries()),
    ensures
        scan_providers(env, n, start).layer is Table,
        plain_keys(scan_providers(env, n, start).layer.entries()),
    decreases n,
{
    if 0 < n <= Provider::every().len() {
        lemma_scan_providers_plain(env, n - 1, start);
        let p = provider_spec(Provider::every()[n - 1]);
        lemma_provider_names();
        lemma_scan_fields_plain(env, p.name, p.all_fields(), scan_providers(env, n - 1, start));
    }
}

/// The keys of the layer of the environment are names without a dot.
pub proof fn lemma_env_layer_plain(env: Map<Seq<char>, Seq<char>>, known: Map<Seq<char>, Seq<char>>)
    ensures
        plain_keys(env_scan(env, known).layer.entries()),
{
    let start = EnvScan { layer: Tree::empty(), vars: known };
    lemma_global_names();
    lemma_scan_globals_plain(env, global_settings(), start);
    let after_globals = scan_globals(env, global_settings(), start);
    lemma_scan_providers_plain(env, Provider::every().len() as int, after_globals);
    let after_providers = scan_providers(env, Provider::every().len() as int, after_globals);
    crate::default_laws::lemma_put_keeps_plain(
        after_providers.layer,
        "frontend"@,
        Tree::Text("noninteractive"@),
    );
}

/// The layer of the environment is a table with distinct keys in which
/// every nested table has a name.
pub proof fn lemma_env_layer_shape(env: Map<Seq<char>, Seq<char>>, known: Map<Seq<char>, Seq<char>>)
    ensures
        env_scan(env, known).layer is Table,
        distinct_keys(env_scan(env, known).layer.entries()),
        tables_are_named(env_scan(env, known).layer.entries()),
{
    let start = EnvScan { layer: Tree::empty(), vars: known };
    lemma_scan_globals_shape(env, global_settings(), start);
    let after_globals = scan_globals(env, global_settings(), start);
    lemma_scan_providers_shape(env, Provider::every().len() as int, after_globals);
    let after_providers = scan_providers(env, Provider::every().len() as int, after_globals);
    lemma_put_keeps_shape(after_providers.layer, "frontend"@, Tree::Text("noninteractive"@));
}

/// Every write of the first `n` entries of a flat table at the root goes to
/// the key of one of those entries.
proof fn lemma_flat_writes_are_keys(t: Tree, n: int)
    requires
        t is Table,
        flat(t.entries()),
        0 <= n <= t.entries().len(),
    ensures
        forall|k: int|
            0 <= k < writes_upto(t, Seq::empty(), n).len() ==> exists|j: int|
                0 <= j < n && t.entries()[j].0 == (#[trigger] writes_upto(t, Seq::empty(), n)[k]).path,
    decreases n,
{
    if n > 0 {
        lemma_flat_writes_are_keys(t, n - 1);
        let entry = t.entries()[n - 1];
        let head = writes_upto(t, Seq::empty(), n - 1);
        let all = writes_upto(t, Seq::empty(), n);
        assert(!(entry.1 is Table));
        assert forall|k: int| 0 <= k < all.len() implies exists|j: int|
            0 <= j < n && t.entries()[j].0 == (#[trigger] all[k]).path by {
            if k < head.len() {
                assert(all[k] == head[k]);
                let j = choose|j: int| 0 <= j < n - 1 && t.entries()[j].0 == head[k].path;
                assert(0 <= j < n && t.entries()[j].0 == all[k].path);
            } else {
                assert(t.entries()[n - 1].0 == all[k].path);
            }
        }
    }
}

/// A flag that is not given leaves its name alone: the layer of the
/// command line writes nothing at, above or below a name without a dot that
/// it does not bind.
pub proof fn lemma_flag_not_given(cli: CliSpec, name: Seq<char>)
    requires
        dotless(name),
        cli_layer(cli).field(name) is None,
    ensures
        leaves_alone(cli_layer(cli), name),
{
    lemma_cli_layer(cli);
    lemma_cli_layer_plain(cli);
    crate::default_laws::lemma_unbound_is_left_alone(cli_layer(cli), name);
}

/// The environment wins over the files. For every global setting that is
/// read from the environment: where some variable supplies it and no flag
/// is given for it, the loaded tree holds the value of the first of its
/// variables that is set, marked as coming from the environment, whatever
/// the files say.
pub proof fn law_environment_wins_over_files(
    toml: Option<Tree>,
    json: Option<Tree>,
    env: Map<Seq<char>, Seq<char>>,
    cli: CliSpec,
    i: int,
)
    requires
        0 <= i < global_settings().len(),
        !global_settings()[i].virtual_field,
        first_set(env, global_settings()[i]) is Some,
        cli_layer(cli).field(global_settings()[i].name) is None,
    ensures
        merged_layers(toml, json, env, cli).tree.lookup(global_settings()[i].name) == Some(
            Tree::Text(env[first_set(env, global_settings()[i])->0]),
        ),
        merged_layers(toml, json, env, cli).source_of(global_settings()[i].name)
            == ConfigSource::Environment,
{
    let f = global_settings()[i];
    let value = Tree::Text(env[first_set(env, f)->0]);
    lemma_global_names();
    lemma_env_layer_binds(env, Map::empty(), i);
    lemma_env_layer_shape(env, Map::empty());
    lemma_env_layer_plain(env, Map::empty());
    lemma_bound_leaf_is_set(env_layer(env), f.name, value);
    lemma_flag_not_given(cli, f.name);
    let layers = pipeline(toml, json, env, cli);
    assert(layers[3].0 == env_layer(env));
    assert(layers[4].0 == cli_layer(cli));
    assert forall|k: int| 3 < k < 5 implies leaves_alone((#[trigger] layers[k]).0, f.name) by {
        assert(k == 4);
    }
    law_precedence(toml, json, env, cli, f.name, 3, value);
}

/// Writes leave the record of variables as it is.
pub proof fn lemma_apply_keeps_vars(m: Merged, ws: Seq<Write>, source: ConfigSource)
    ensures
        m.apply(ws, source).env_vars == m.env_vars,
    decreases ws.len(),
{
    if ws.len() > 0 {
        lemma_apply_keeps_vars(m, ws.drop_last(), source);
    }
}

/// The variable that supplied a setting is on record after a load. For
/// every global setting that is read from the environment: where some
/// variable supplies it, the first of its variables that is set is recorded
/// for the setting's path, the first variable before the further ones,
/// whatever the files and the command line hold.
pub proof fn law_supplying_variable_is_recorded(
    toml: Option<Tree>,
    json: Option<Tree>,
    env: Map<Seq<char>, Seq<char>>,
    cli: CliSpec,
    i: int,
)
    requires
        0 <= i < global_settings().len(),
        !global_settings()[i].virtual_field,
        first_set(env, global_settings()[i]) is Some,
    ensures
        merged_layers(toml, json, env, cli).env_var_of(global_settings()[i].name) == Some(
            first_set(env, global_settings()[i])->0,
        ),
        global_settings()[i].env_var is Some && is_set(env, global_settings()[i].env_var->0)
            ==> merged_layers(toml, json, env, cli).env_var_of(global_settings()[i].name)
            == global_settings()[i].env_var,
{
    let start = Merged::start();
    let defaults = start.merge(crate::layers::defaults_tree(), ConfigSource::Default);
    lemma_apply_keeps_vars(start, writes(crate::layers::defaults_tree()), ConfigSource::Default);
    let with_toml = crate::load::merge_some(defaults, toml, ConfigSource::TomlFile);
    if toml is Some {
        lemma_apply_keeps_vars(defaults, writes(toml->0), ConfigSource::TomlFile);
    }
    let files = crate::load::merge_some(with_toml, json, ConfigSource::JsonFile);
    if json is Some {
        lemma_apply_keeps_vars(with_toml, writes(json->0), ConfigSource::JsonFile);
    }
    let scan = env_scan(env, files.env_vars);
    let recorded = Merged { env_vars: scan.vars, ..files };
    lemma_apply_keeps_vars(recorded, writes(scan.layer), ConfigSource::Environment);
    let with_env = crate::load::merge_env(files, env);
    lemma_apply_keeps_vars(with_env, writes(cli_layer(cli)), ConfigSource::Cli);
    lemma_env_layer_binds(env, files.env_vars, i);
}

/// The legacy switch sets the frontend. Where the switch that skips
/// confirmation is on and the frontend variable is not set at all, the
/// layer of the environment holds `noninteractive` as the frontend, and the
/// switch is recorded as the variable that supplied it.
pub proof fn law_legacy_switch_sets_frontend(
    env: Map<Seq<char>, Seq<char>>,
    known: Map<Seq<char>, Seq<char>>,
)
    requires
        skip_confirm_on(env),
        !env.contains_key("SHAI_FRONTEND"@),
    ensures
        env_scan(env, known).layer.field("frontend"@) == Some(Tree::Text("noninteractive"@)),
        env_scan(env, known).layer.lookup("frontend"@) == Some(Tree::Text("noninteractive"@)),
        env_scan(env, known).vars.contains_key("frontend"@),
        env_scan(env, known).vars["frontend"@] == "SHAI_SKIP_CONFIRM"@,
{
    let start = EnvScan { layer: Tree::empty(), vars: known };
    lemma_scan_globals_shape(env, global_settings(), start);
    let after_globals = scan_globals(env, global_settings(), start);
    lemma_scan_providers_shape(env, Provider::every().len() as int, after_globals);
    let after_providers = scan_providers(env, Provider::every().len() as int, after_globals);
    lemma_put_same(after_providers.layer, "frontend"@, Tree::Text("noninteractive"@));
    lemma_global_names();
    lemma_split_dotless("frontend"@);
    let layer = env_scan(env, known).layer;
    let parts = seq!["frontend"@];
    assert(parts.drop_first() =~= Seq::<Seq<char>>::empty());
    assert(Tree::Text("noninteractive"@).at(parts.drop_first()) == Some(
        Tree::Text("noninteractive"@),
    ));
    assert(layer.at(parts) == Some(Tree::Text("noninteractive"@)));
}

/// The legacy switch decides the frontend of a load. Where the switch that
/// skips confirmation is on, the frontend variable is not set at all and no
/// frontend is given on the command line, the loaded tree holds
/// `noninteractive` as the frontend, marked as coming from the environment,
/// with the switch on record as the variable that supplied it, whatever the
/// files say.
pub proof fn law_legacy_switch_wins_over_files(
    toml: Option<Tree>,
    json: Option<Tree>,
    env: Map<Seq<char>, Seq<char>>,
    cli: CliSpec,
)
    requires
        skip_confirm_on(env),
        !env.contains_key("SHAI_FRONTEND"@),
        cli_layer(cli).field("frontend"@) is None,
    ensures
        merged_layers(toml, json, env, cli).tree.lookup("frontend"@) == Some(
            Tree::Text("noninteractive"@),
        ),
        merged_layers(toml, json, env, cli).source_of("frontend"@) == ConfigSource::Environment,
        merged_layers(toml, json, env, cli).env_var_of("frontend"@) == Some("SHAI_SKIP_CONFIRM"@),
{
    let value = Tree::Text("noninteractive"@);
    lemma_global_names();
    law_legacy_switch_sets_frontend(env, Map::empty());
    lemma_env_layer_shape(env, Map::empty());
    lemma_env_layer_plain(env, Map::empty());
    lemma_bound_leaf_is_set(env_layer(env), "frontend"@, value);
    lemma_flag_not_given(cli, "frontend"@);
    let layers = pipeline(toml, json, env, cli);
    assert(layers[3].0 == env_layer(env));
    assert(layers[4].0 == cli_layer(cli));
    assert forall|k: int| 3 < k < 5 implies leaves_alone((#[trigger] layers[k]).0, "frontend"@) by {
        assert(k == 4);
    }
    law_precedence(toml, json, env, cli, "frontend"@, 3, value);

    let start = Merged::start();
    let defaults = start.merge(crate::layers::defaults_tree(), ConfigSource::Default);
    lemma_apply_keeps_vars(start, writes(crate::layers::defaults_tree()), ConfigSource::Default);
    let with_toml = crate::load::merge_some(defaults, toml, ConfigSource::TomlFile);
    if toml is Some {
        lemma_apply_keeps_vars(defaults, writes(toml->0), ConfigSource::TomlFile);
    }
    let files = crate::load::merge_some(with_toml, json, ConfigSource::JsonFile);
    if json is Some {
        lemma_apply_keeps_vars(with_toml, writes(json->0), ConfigSource::JsonFile);
    }
    let scan = env_scan(env, files.env_vars);
    let recorded = Merged { env_vars: scan.vars, ..files };
    lemma_apply_keeps_vars(recorded, writes(scan.layer), ConfigSource::Environment);
    let with_env = crate::load::merge_env(files, env);
    lemma_apply_keeps_vars(with_env, writes(cli_layer(cli)), ConfigSource::Cli);
    law_legacy_switch_sets_frontend(env, files.env_vars);
}

} // verus!
