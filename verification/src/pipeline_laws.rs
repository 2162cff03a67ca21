//! The laws of merging, said of the five layers of a load.

use crate::builder::writes;
use crate::builder::Merged;
use crate::builder::Write;
use crate::catalog::global_settings;
use crate::catalog::provider_spec;
use crate::kinds::Provider;
use crate::laws::law_last_setter_wins;
use crate::laws::leaves_alone;
use crate::laws::merge_all;
use crate::laws::sets;
use crate::layers::cli_layer;
use crate::layers::defaults_tree;
use crate::layers::env_scan;
use crate::layers::scan_fields;
use crate::layers::scan_globals;
use crate::layers::scan_providers;
use crate::layers::CliSpec;
use crate::layers::EnvScan;
use crate::load::merge_env;
use crate::load::merge_some;
use crate::load::merged_layers;
use crate::meta::FieldSpec;
use crate::source::ConfigSource;
use crate::text::split_dots;
use crate::tree::lemma_key_index;
use crate::tree::Tree;
use vstd::prelude::*;

verus! {

/// The layer that the environment gives rise to.
pub open spec fn env_layer(env: Map<Seq<char>, Seq<char>>) -> Tree {
    env_scan(env, Map::empty()).layer
}

/// A file's layer, where an absent file counts as an empty table.
pub open spec fn file_layer(o: Option<Tree>) -> Tree {
    match o {
        Some(t) => t,
        None => Tree::empty(),
    }
}

/// The five layers of a load, the weakest first, each with its mark.
pub open spec fn pipeline(
    toml: Option<Tree>,
    json: Option<Tree>,
    env: Map<Seq<char>, Seq<char>>,
    cli: CliSpec,
) -> Seq<(Tree, ConfigSource)> {
    seq![
        (defaults_tree(), ConfigSource::Default),
        (file_layer(toml), ConfigSource::TomlFile),
        (file_layer(json), ConfigSource::JsonFile),
        (env_layer(env), ConfigSource::Environment),
        (cli_layer(cli), ConfigSource::Cli),
    ]
}

/// What a batch of writes does to the tree and the marks does not depend on
/// the record of variables.
pub proof fn lemma_apply_ignores_records(a: Merged, b: Merged, ws: Seq<Write>, source: ConfigSource)
    requires
        a.tree == b.tree,
        a.sources == b.sources,
    ensures
        a.apply(ws, source).tree == b.apply(ws, source).tree,
        a.apply(ws, source).sources == b.apply(ws, source).sources,
    decreases ws.len(),
{
    if ws.len() > 0 {
        lemma_apply_ignores_records(a, b, ws.drop_last(), source);
    }
}

proof fn lemma_scan_globals_layer(
    env: Map<Seq<char>, Seq<char>>,
    fields: Seq<FieldSpec>,
    a: EnvScan,
    b: EnvScan,
)
    requires
        a.layer == b.layer,
    ensures
        scan_globals(env, fields, a).layer == scan_globals(env, fields, b).layer,
    decreases fields.len(),
{
    if fields.len() > 0 {
        lemma_scan_globals_layer(env, fields.drop_last(), a, b);
    }
}

proof fn lemma_scan_fields_layer(
    env: Map<Seq<char>, Seq<char>>,
    provider: Seq<char>,
    fields: Seq<FieldSpec>,
    a: EnvScan,
    b: EnvScan,
)
    requires
        a.layer == b.layer,
    ensures
        scan_fields(env, provider, fields, a).layer == scan_fields(env, provider, fields, b).layer,
    decreases fields.len(),
{
    if fields.len() > 0 {
        lemma_scan_fields_layer(env, provider, fields.drop_last(), a, b);
    }
}

proof fn lemma_scan_providers_layer(env: Map<Seq<char>, Seq<char>>, n: int, a: EnvScan, b: EnvScan)
    requires
        a.layer == b.layer,
    ensures
        scan_providers(env, n, a).layer == scan_providers(env, n, b).layer,
    decreases n,
{
    if 0 < n <= Provider::every().len() {
        lemma_scan_providers_layer(env, n - 1, a, b);
        let p = provider_spec(Provider::every()[n - 1]);
        lemma_scan_fields_layer(
            env,
            p.name,
            p.all_fields(),
            scan_providers(env, n - 1, a),
            scan_providers(env, n - 1, b),
        );
    }
}

/// The layer that a scan of the environment gives does not depend on what
/// was recorded before the scan.
pub proof fn lemma_env_layer(env: Map<Seq<char>, Seq<char>>, known: Map<Seq<char>, Seq<char>>)
    ensures
        env_scan(env, known).layer == env_layer(env),
{
    let a = EnvScan { layer: Tree::empty(), vars: known };
    let b = EnvScan { layer: Tree::empty(), vars: Map::empty() };
    lemma_scan_globals_layer(env, global_settings(), a, b);
    lemma_scan_providers_layer(
        env,
        Provider::every().len() as int,
        scan_globals(env, global_settings(), a),
        scan_globals(env, global_settings(), b),
    );
}

/// A load merges its five layers in a row: the tree and the marks of a load
/// are those of the row.
pub proof fn lemma_load_is_a_row(
    toml: Option<Tree>,
    json: Option<Tree>,
    env: Map<Seq<char>, Seq<char>>,
    cli: CliSpec,
)
    ensures
        merged_layers(toml, json, env, cli).tree == merge_all(
            Merged::start(),
            pipeline(toml, json, env, cli),
        ).tree,
        merged_layers(toml, json, env, cli).sources == merge_all(
            Merged::start(),
            pipeline(toml, json, env, cli),
        ).sources,
{
    let layers = pipeline(toml, json, env, cli);
    let l4 = layers.drop_last();
    let l3 = l4.drop_last();
    let l2 = l3.drop_last();
    let l1 = l2.drop_last();
    let l0 = l1.drop_last();
    assert(l0.len() == 0);
    let s = Merged::start();
    let r0 = merge_all(s, l0);
    let r1 = merge_all(s, l1);
    let r2 = merge_all(s, l2);
    let r3 = merge_all(s, l3);
    let r4 = merge_all(s, l4);
    let r5 = merge_all(s, layers);
    assert(r0 == s);
    assert(l1.last() == layers[0]);
    assert(l2.last() == layers[1]);
    assert(l3.last() == layers[2]);
    assert(l4.last() == layers[3]);
    assert(layers.last() == layers[4]);
    assert(r1 == s.merge(defaults_tree(), ConfigSource::Default));
    assert(r2 == r1.merge(file_layer(toml), ConfigSource::TomlFile));
    assert(r3 == r2.merge(file_layer(json), ConfigSource::JsonFile));
    assert(r4 == r3.merge(env_layer(env), ConfigSource::Environment));
    assert(r5 == r4.merge(cli_layer(cli), ConfigSource::Cli));
    assert(writes(Tree::empty()) =~= Seq::<Write>::empty());
    let m1 = r1;
    let m2 = merge_some(m1, toml, ConfigSource::TomlFile);
    assert(m2 == r2);
    let m3 = merge_some(m2, json, ConfigSource::JsonFile);
    assert(m3 == r3);
    let m4 = merge_env(m3, env);
    lemma_env_layer(env, m3.env_vars);
    let scan = env_scan(env, m3.env_vars);
    lemma_apply_ignores_records(
        Merged { env_vars: scan.vars, ..m3 },
        r3,
        writes(env_layer(env)),
        ConfigSource::Environment,
    );
    assert(m4.tree == r4.tree);
    assert(m4.sources == r4.sources);
    lemma_apply_ignores_records(m4, r4, writes(cli_layer(cli)), ConfigSource::Cli);
}

/// Precedence. Among the five layers of a load, the strongest layer that
/// sets a path decides it: where every layer stronger than layer `j` leaves
/// the path alone, the loaded tree holds at the path the value that layer
/// `j` set, and the path is marked with layer `j`, whatever the weaker
/// layers hold.
pub proof fn law_precedence(
    toml: Option<Tree>,
    json: Option<Tree>,
    env: Map<Seq<char>, Seq<char>>,
    cli: CliSpec,
    path: Seq<char>,
    j: int,
    value: Tree,
)
    requires
        0 <= j < 5,
        sets(pipeline(toml, json, env, cli)[j].0, path, value),
        forall|k: int|
            j < k < 5 ==> leaves_alone((#[trigger] pipeline(toml, json, env, cli)[k]).0, path),
    ensures
        merged_layers(toml, json, env, cli).tree.lookup(path) == Some(value),
        merged_layers(toml, json, env, cli).source_of(path) == pipeline(toml, json, env, cli)[j].1,
        pipeline(toml, json, env, cli)[j].1.rank() == j,
{
    lemma_load_is_a_row(toml, json, env, cli);
    law_last_setter_wins(Merged::start(), pipeline(toml, json, env, cli), path, j, value);
}

/// The command line on which no flag is given.
pub open spec fn no_flags() -> CliSpec {
    CliSpec {
        provider: None,
        model: None,
        max_tokens: None,
        temperature: None,
        frontend: None,
        output_format: None,
        debug: None,
        locale: None,
    }
}

/// In an environment in which no variable is set, a scan of global
/// settings finds nothing.
proof fn lemma_scan_globals_of_nothing(fields: Seq<FieldSpec>, start: EnvScan)
    ensures
        scan_globals(Map::empty(), fields, start) == start,
    decreases fields.len(),
{
    if fields.len() > 0 {
        lemma_scan_globals_of_nothing(fields.drop_last(), start);
        let f = fields.last();
        let env = Map::<Seq<char>, Seq<char>>::empty();
        crate::search::lemma_first_where_none(
            f.env_aliases,
            |a: Seq<char>| crate::layers::is_set(env, a),
        );
    }
}

/// In an environment in which no variable is set, a scan of the fields of
/// a provider finds nothing.
proof fn lemma_scan_fields_of_nothing(provider: Seq<char>, fields: Seq<FieldSpec>, start: EnvScan)
    ensures
        scan_fields(Map::empty(), provider, fields, start) == start,
    decreases fields.len(),
{
    if fields.len() > 0 {
        lemma_scan_fields_of_nothing(provider, fields.drop_last(), start);
    }
}

/// In an environment in which no variable is set, a scan of the providers
/// finds nothing.
proof fn lemma_scan_providers_of_nothing(n: int, start: EnvScan)
    ensures
        scan_providers(Map::empty(), n, start) == start,
    decreases n,
{
    if 0 < n <= Provider::every().len() {
        lemma_scan_providers_of_nothing(n - 1, start);
        let p = provider_spec(Provider::every()[n - 1]);
        lemma_scan_fields_of_nothing(p.name, p.all_fields(), start);
    }
}

/// With no variable set, the layer of the environment is an empty table,
/// and nothing is added to the record of variables.
pub proof fn lemma_environment_of_nothing(known: Map<Seq<char>, Seq<char>>)
    ensures
        env_scan(Map::empty(), known) == (EnvScan { layer: Tree::empty(), vars: known }),
{
    let start = EnvScan { layer: Tree::empty(), vars: known };
    lemma_scan_globals_of_nothing(global_settings(), start);
    lemma_scan_providers_of_nothing(Provider::every().len() as int, start);
}

/// Nothing given, nothing changed. With no files, an environment in which
/// no variable is set and no flag on the command line, a load holds what
/// the defaults hold and nothing else: every path that is written is a
/// default, and no variable is on record.
pub proof fn law_nothing_given_is_the_defaults()
    ensures
        merged_layers(None, None, Map::empty(), no_flags()) == Merged::start().merge(
            defaults_tree(),
            ConfigSource::Default,
        ),
        forall|path: Seq<char>|
            #[trigger] merged_layers(None, None, Map::empty(), no_flags()).source_of(path)
                == ConfigSource::Default,
        forall|path: Seq<char>|
            #[trigger] merged_layers(None, None, Map::empty(), no_flags()).env_var_of(path)
                is None,
{
    let defaults = Merged::start().merge(defaults_tree(), ConfigSource::Default);
    lemma_environment_of_nothing(defaults.env_vars);
    let scan = env_scan(Map::empty(), defaults.env_vars);
    assert((Merged { env_vars: scan.vars, ..defaults }) == defaults);
    assert(writes(Tree::empty()) =~= Seq::<Write>::empty());
    assert(cli_layer(no_flags()) == Tree::empty());
    assert(merge_env(defaults, Map::empty()) == defaults);
    lemma_only_marks(Merged::start(), writes(defaults_tree()), ConfigSource::Default);
    assert forall|path: Seq<char>| #[trigger]
        merged_layers(None, None, Map::empty(), no_flags()).source_of(path)
            == ConfigSource::Default by {
        if defaults.sources.contains_key(path) {
            assert(defaults.sources[path] == ConfigSource::Default);
        }
    }
}

/// Where every mark is that of one layer, writes of that layer leave it
/// so, and they leave the record of variables as it is.
pub proof fn lemma_only_marks(m: Merged, ws: Seq<Write>, source: ConfigSource)
    requires
        forall|path: Seq<char>| #[trigger]
            m.sources.contains_key(path) ==> m.sources[path] == source,
    ensures
        forall|path: Seq<char>| #[trigger]
            m.apply(ws, source).sources.contains_key(path) ==> m.apply(ws, source).sources[path]
                == source,
        m.apply(ws, source).env_vars == m.env_vars,
    decreases ws.len(),
{
    if ws.len() > 0 {
        lemma_only_marks(m, ws.drop_last(), source);
    }
}

/// After a load every mark has its value: at every path that the load
/// attributes to a layer, the loaded tree holds a leaf.
pub proof fn law_loaded_marks_have_values(
    toml: Option<Tree>,
    json: Option<Tree>,
    env: Map<Seq<char>, Seq<char>>,
    cli: CliSpec,
)
    ensures
        crate::laws::marks_have_values(merged_layers(toml, json, env, cli)),
{
    let start = Merged::start();
    assert(crate::laws::marks_have_values(start));
    crate::laws::law_marks_have_values(start, defaults_tree(), ConfigSource::Default);
    let defaults = start.merge(defaults_tree(), ConfigSource::Default);
    let with_toml = merge_some(defaults, toml, ConfigSource::TomlFile);
    if toml is Some {
        crate::laws::law_marks_have_values(defaults, toml->0, ConfigSource::TomlFile);
    }
    let files = merge_some(with_toml, json, ConfigSource::JsonFile);
    if json is Some {
        crate::laws::law_marks_have_values(with_toml, json->0, ConfigSource::JsonFile);
    }
    let scan = env_scan(env, files.env_vars);
    let recorded = Merged { env_vars: scan.vars, ..files };
    assert(crate::laws::marks_have_values(recorded));
    crate::laws::law_marks_have_values(recorded, scan.layer, ConfigSource::Environment);
    crate::laws::law_marks_have_values(merge_env(files, env), cli_layer(cli), ConfigSource::Cli);
}

} // verus!
