//! The law of unwritten settings: a setting at whose path no file, no
//! variable and no flag puts a value resolves to its declared default.

use crate::catalog::field_path;
use crate::catalog::global_settings;
use crate::catalog::provider_spec;
use crate::config::creds_or_blank;
use crate::config::resolved;
use crate::config::ConfigSpec;
use crate::decode::parsed_of;
use crate::kinds::DebugLevel;
use crate::kinds::Frontend;
use crate::kinds::OutputFormat;
use crate::kinds::Provider;
use crate::laws::held_or_table;
use crate::laws::never_writes;
use crate::laws::never_writes_above;
use crate::layers::cli_layer;
use crate::layers::defaults_tree;
use crate::layers::fields_defaults;
use crate::layers::CliSpec;
use crate::literal::u32_literal;
use crate::literal::IntError;
use crate::load::merged_layers;
use crate::load::resolution;
use crate::names::lemma_global_names;
use crate::names::lemma_provider_names;
use crate::pipeline_laws::env_layer;
use crate::pipeline_laws::file_layer;
use crate::pipeline_laws::pipeline;
use crate::resolve_laws::lemma_lookup_top;
use crate::sound_defaults::lemma_lookup_two;
use crate::source::ConfigSource;
use crate::source::ConfigValue;
use crate::tree::Tree;
use crate::validate::ErrorSpec;
use vstd::prelude::*;

verus! {

/// Whether neither of the two files, nor the environment, nor the command
/// line holds a leaf at `path`. They may hold leaves above and below it.
pub open spec fn unwritten(
    toml: Option<Tree>,
    json: Option<Tree>,
    env: Map<Seq<char>, Seq<char>>,
    cli: CliSpec,
    path: Seq<char>,
) -> bool {
    never_writes(file_layer(toml), path) && never_writes(file_layer(json), path) && never_writes(
        env_layer(env),
        path,
    ) && never_writes(cli_layer(cli), path)
}

/// Whether neither of the two files, nor the environment, nor the command
/// line holds a leaf above `path`.
pub open spec fn unwritten_above(
    toml: Option<Tree>,
    json: Option<Tree>,
    env: Map<Seq<char>, Seq<char>>,
    cli: CliSpec,
    path: Seq<char>,
) -> bool {
    never_writes_above(file_layer(toml), path) && never_writes_above(file_layer(json), path)
        && never_writes_above(env_layer(env), path) && never_writes_above(cli_layer(cli), path)
}

/// An unwritten path holds the default, or a table. Where neither file, nor
/// the environment, nor the command line holds a leaf at a path, and none
/// holds a leaf above it where the defaults hold something at it, the
/// loaded tree holds at the path what the layer of defaults holds there, or
/// a table that a layer put there by a leaf below the path; and the path is
/// attributed to the defaults.
pub proof fn law_unwritten_path_holds_the_default(
    toml: Option<Tree>,
    json: Option<Tree>,
    env: Map<Seq<char>, Seq<char>>,
    cli: CliSpec,
    path: Seq<char>,
)
    requires
        unwritten(toml, json, env, cli, path),
        defaults_tree().lookup(path) is None || unwritten_above(toml, json, env, cli, path),
    ensures
        held_or_table(
            merged_layers(toml, json, env, cli).tree,
            path,
            defaults_tree().lookup(path),
        ),
        merged_layers(toml, json, env, cli).source_of(path) == ConfigSource::Default,
{
    let layers = pipeline(toml, json, env, cli);
    let start = crate::builder::Merged::start();
    let held = defaults_tree().lookup(path);
    crate::pipeline_laws::lemma_load_is_a_row(toml, json, env, cli);
    assert(layers[0] == (defaults_tree(), ConfigSource::Default));
    crate::sound_defaults::lemma_defaults_two_level();
    crate::rebuild_laws::law_merge_rebuilds(defaults_tree(), ConfigSource::Default);
    crate::pipeline_laws::lemma_only_marks(
        start,
        crate::builder::writes(defaults_tree()),
        ConfigSource::Default,
    );
    let defaults = start.merge(defaults_tree(), ConfigSource::Default);
    if defaults.sources.contains_key(path) {
        assert(defaults.sources[path] == ConfigSource::Default);
    }
    assert forall|k: int| 1 <= k < layers.len() implies never_writes(
        (#[trigger] layers[k]).0,
        path,
    ) by {
        if k == 1 {
        } else if k == 2 {
        } else if k == 3 {
        } else {
        }
    }
    if held is Some {
        assert forall|k: int| 1 <= k < layers.len() implies never_writes_above(
            (#[trigger] layers[k]).0,
            path,
        ) by {
            if k == 1 {
            } else if k == 2 {
            } else if k == 3 {
            } else {
            }
        }
    }
    crate::laws::law_unwritten_by_the_rest(start, layers, path, held);
}

/// Nothing lies above a name without a dot.
pub proof fn lemma_nothing_above_a_name(layer: Tree, name: Seq<char>)
    requires
        crate::text::dotless(name),
    ensures
        never_writes_above(layer, name),
{
    crate::names::lemma_split_dotless(name);
    let ws = crate::builder::writes(layer);
    assert forall|i: int| 0 <= i < ws.len() implies !crate::laws::above(
        (#[trigger] ws[i]).path,
        name,
    ) by {
        crate::text::lemma_split_dots_shape(ws[i].path);
    }
}

/// What a global setting holds in a loaded tree at whose name no stronger
/// layer puts a leaf: what the defaults hold there, since a tree with a
/// table there cannot be decoded.
proof fn lemma_unwritten_global(
    toml: Option<Tree>,
    json: Option<Tree>,
    env: Map<Seq<char>, Seq<char>>,
    cli: CliSpec,
    i: int,
)
    requires
        0 <= i < global_settings().len(),
        unwritten(toml, json, env, cli, global_settings()[i].name),
    ensures
        held_or_table(
            merged_layers(toml, json, env, cli).tree,
            global_settings()[i].name,
            defaults_tree().field(global_settings()[i].name),
        ),
        merged_layers(toml, json, env, cli).tree.lookup(global_settings()[i].name)
            == merged_layers(toml, json, env, cli).tree.field(global_settings()[i].name),
        merged_layers(toml, json, env, cli).source_of(global_settings()[i].name)
            == ConfigSource::Default,
{
    let name = global_settings()[i].name;
    lemma_global_names();
    lemma_nothing_above_a_name(file_layer(toml), name);
    lemma_nothing_above_a_name(file_layer(json), name);
    lemma_nothing_above_a_name(env_layer(env), name);
    lemma_nothing_above_a_name(cli_layer(cli), name);
    law_unwritten_path_holds_the_default(toml, json, env, cli, name);
    lemma_lookup_top(defaults_tree(), name);
    lemma_lookup_top(merged_layers(toml, json, env, cli).tree, name);
}

/// Unwritten settings resolve to their defaults. Where the merged layers
/// can be decoded, every global setting at whose name neither file, nor the
/// environment, nor the command line holds a leaf resolves to its declared
/// default, and to nothing where it has none, attributed to the defaults,
/// whatever the layers hold elsewhere. The declared defaults are those of
/// the catalogue: a text as it is declared, a number as the declared text
/// spells it, a frontend and an output format as the declared text names
/// them.
pub proof fn law_unwritten_settings_resolve(
    toml: Option<Tree>,
    json: Option<Tree>,
    env: Map<Seq<char>, Seq<char>>,
    cli: CliSpec,
    toml_path: Option<Seq<char>>,
    json_path: Option<Seq<char>>,
    c: ConfigSpec,
)
    requires
        resolution(merged_layers(toml, json, env, cli), toml_path, json_path) == Ok::<
            ConfigSpec,
            ErrorSpec,
        >(c),
    ensures
        global_settings()[0].default is None && global_settings()[1].default is None
            && global_settings()[2].default == Some("0.05"@) && u32_literal(
            global_settings()[3].default->0,
        ) == Ok::<u32, IntError>(3u32) && Frontend::named(global_settings()[5].default->0) == Some(
            Frontend::Dialog,
        ) && OutputFormat::named(global_settings()[6].default->0) == Some(OutputFormat::Human)
            && u32_literal(global_settings()[7].default->0) == Ok::<u32, IntError>(262144u32)
            && global_settings()[8].default is None && global_settings()[9].default is None,
        unwritten(toml, json, env, cli, "provider"@) ==> c.provider == (ConfigValue {
            value: None::<Provider>,
            source: ConfigSource::Default,
        }),
        unwritten(toml, json, env, cli, "model"@) ==> c.model == (ConfigValue {
            value: Seq::<char>::empty(),
            source: ConfigSource::Default,
        }),
        unwritten(toml, json, env, cli, "temperature"@) ==> c.temperature == (ConfigValue {
            value: "0.05"@,
            source: ConfigSource::Default,
        }),
        unwritten(toml, json, env, cli, "suggestion_count"@) ==> c.suggestion_count == (ConfigValue {
            value: 3u32,
            source: ConfigSource::Default,
        }),
        unwritten(toml, json, env, cli, "frontend"@) ==> c.frontend == (ConfigValue {
            value: Frontend::Dialog,
            source: ConfigSource::Default,
        }),
        unwritten(toml, json, env, cli, "output_format"@) ==> c.output_format == (ConfigValue {
            value: OutputFormat::Human,
            source: ConfigSource::Default,
        }),
        unwritten(toml, json, env, cli, "max_reference_chars"@) ==> c.max_reference_chars == (
        ConfigValue { value: 262144u32, source: ConfigSource::Default }),
        unwritten(toml, json, env, cli, "max_tokens"@) ==> c.max_tokens == (ConfigValue {
            value: None::<u32>,
            source: ConfigSource::Default,
        }),
        unwritten(toml, json, env, cli, "debug"@) ==> c.debug == (ConfigValue {
            value: None::<DebugLevel>,
            source: ConfigSource::Default,
        }),
{
    let m = merged_layers(toml, json, env, cli);
    lemma_global_names();
    crate::sound_defaults::lemma_default_globals_decode();
    crate::resolve_laws::lemma_declared_defaults();
    let parsed = parsed_of(m.tree)->Ok_0;
    assert(c == resolved(parsed, m.sources, toml_path, json_path));
    crate::decode::law_failure_whatever_the_order(m.tree);
    assert(crate::decode::globals_failure(m.tree) is None);
    reveal_strlit("dialog");
    reveal_strlit("human");
    if unwritten(toml, json, env, cli, "provider"@) {
        lemma_unwritten_global(toml, json, env, cli, 0);
    }
    if unwritten(toml, json, env, cli, "model"@) {
        lemma_unwritten_global(toml, json, env, cli, 1);
    }
    if unwritten(toml, json, env, cli, "temperature"@) {
        lemma_unwritten_global(toml, json, env, cli, 2);
    }
    if unwritten(toml, json, env, cli, "suggestion_count"@) {
        lemma_unwritten_global(toml, json, env, cli, 3);
    }
    if unwritten(toml, json, env, cli, "frontend"@) {
        lemma_unwritten_global(toml, json, env, cli, 5);
    }
    if unwritten(toml, json, env, cli, "output_format"@) {
        lemma_unwritten_global(toml, json, env, cli, 6);
    }
    if unwritten(toml, json, env, cli, "max_reference_chars"@) {
        lemma_unwritten_global(toml, json, env, cli, 7);
    }
    if unwritten(toml, json, env, cli, "max_tokens"@) {
        lemma_unwritten_global(toml, json, env, cli, 8);
    }
    if unwritten(toml, json, env, cli, "debug"@) {
        lemma_unwritten_global(toml, json, env, cli, 9);
    }
}

/// What the layer of defaults holds at the path of a provider's field:
/// the declared default as a text, and nothing where there is none.
pub proof fn lemma_defaults_at_field(p: Provider, i: int)
    requires
        0 <= i < provider_spec(p).all_fields().len(),
    ensures
        defaults_tree().lookup(
            field_path(provider_spec(p).name, provider_spec(p).all_fields()[i].name),
        ) == (match provider_spec(p).all_fields()[i].default {
            Some(d) => Some(Tree::Text(d)),
            None => None,
        }),
{
    let fields = provider_spec(p).all_fields();
    let f = fields[i];
    if f.default is None {
        crate::sound_defaults::lemma_no_default_no_entry(p, i);
    } else {
        let section = fields_defaults(fields, false);
        lemma_provider_names();
        crate::field_names::lemma_provider_fields(p);
        crate::field_names::lemma_field_names(f.name, f.name);
        lemma_lookup_two(defaults_tree(), provider_spec(p).name, f.name);
        crate::sound_defaults::lemma_defaults_at_provider(Provider::every().len() as int, p);
        crate::default_laws::lemma_fields_defaults_hit(fields, false, i);
        crate::resolve_laws::lemma_field_default_texts(f.default->0);
        crate::tree::lemma_key_index(section.entries(), f.name);
    }
}

/// Unwritten fields of providers resolve to their defaults. Where the
/// merged layers can be decoded, every field of a provider at whose path
/// neither file, nor the environment, nor the command line holds a leaf
/// resolves to its declared default, and to nothing where it has none, and
/// its path is attributed to the defaults; provided, for a field with a
/// default, that none of them holds a leaf at the place of the provider's
/// section, which would put the section's defaults away.
pub proof fn law_unwritten_provider_fields_resolve(
    toml: Option<Tree>,
    json: Option<Tree>,
    env: Map<Seq<char>, Seq<char>>,
    cli: CliSpec,
    toml_path: Option<Seq<char>>,
    json_path: Option<Seq<char>>,
    c: ConfigSpec,
    p: Provider,
    i: int,
)
    requires
        resolution(merged_layers(toml, json, env, cli), toml_path, json_path) == Ok::<
            ConfigSpec,
            ErrorSpec,
        >(c),
        0 <= i < provider_spec(p).all_fields().len(),
        unwritten(
            toml,
            json,
            env,
            cli,
            field_path(provider_spec(p).name, provider_spec(p).all_fields()[i].name),
        ),
        provider_spec(p).all_fields()[i].default is Some ==> unwritten_above(
            toml,
            json,
            env,
            cli,
            field_path(provider_spec(p).name, provider_spec(p).all_fields()[i].name),
        ),
    ensures
        c.creds(p).field(provider_spec(p).all_fields()[i].name) == provider_spec(
            p,
        ).all_fields()[i].default,
        c.source_of(field_path(provider_spec(p).name, provider_spec(p).all_fields()[i].name))
            == ConfigSource::Default,
{
    let m = merged_layers(toml, json, env, cli);
    let section = provider_spec(p).name;
    let f = provider_spec(p).all_fields()[i];
    let path = field_path(section, f.name);
    let parsed = parsed_of(m.tree)->Ok_0;
    assert(c == resolved(parsed, m.sources, toml_path, json_path));
    lemma_defaults_at_field(p, i);
    law_unwritten_path_holds_the_default(toml, json, env, cli, path);
    lemma_provider_names();
    crate::field_names::lemma_provider_fields(p);
    crate::field_names::lemma_field_names(f.name, f.name);
    lemma_lookup_two(m.tree, section, f.name);
    crate::decode::law_failure_whatever_the_order(m.tree);
    reveal_strlit("openai");
    reveal_strlit("groq");
    reveal_strlit("azure");
    reveal_strlit("ollama");
    reveal_strlit("mistral");
    assert(crate::decode::section_failure(m.tree.field(section), section) is None) by {
        match p {
            Provider::OpenAI => {},
            Provider::Groq => {},
            Provider::Azure => {},
            Provider::Ollama => {},
            Provider::Mistral => {},
        }
    }
    assert(c.creds(p) == creds_or_blank(crate::decode::section_value(m.tree.field(section), section)))
        by {
        match p {
            Provider::OpenAI => {},
            Provider::Groq => {},
            Provider::Azure => {},
            Provider::Ollama => {},
            Provider::Mistral => {},
        }
    }
    crate::field_names::lemma_field_names(f.name, "api_key"@);
    crate::field_names::lemma_field_names(f.name, "api_base"@);
    crate::field_names::lemma_field_names(f.name, "model"@);
    crate::field_names::lemma_field_names(f.name, "max_tokens"@);
    crate::field_names::lemma_field_names(f.name, "organization"@);
    crate::field_names::lemma_field_names(f.name, "deployment_name"@);
    crate::field_names::lemma_field_names(f.name, "api_version"@);
    crate::field_names::lemma_lengths();
    if f.default is Some {
        crate::resolve_laws::lemma_field_default_texts(f.default->0);
        if f.name == "max_tokens"@ {
            crate::sound_defaults::lemma_no_default_limit(p, i);
        }
    }
}

} // verus!
