//! The law of resolved defaults: a setting that only the defaults supply
//! resolves to its declared default, attributed to the defaults.

use crate::builder::Merged;
use crate::catalog::field_path;
use crate::catalog::global_settings;
use crate::catalog::provider_spec;
use crate::config::resolved;
use crate::config::ConfigSpec;
use crate::default_laws::law_default_shows_through;
use crate::default_laws::law_provider_default_shows_through;
use crate::field_names::is_field_default;
use crate::field_names::lemma_field_names;
use crate::decode::parsed_of;
use crate::env_laws::law_environment_wins_over_files;
use crate::kinds::DebugLevel;
use crate::kinds::Frontend;
use crate::kinds::OutputFormat;
use crate::kinds::Provider;
use crate::laws::leaves_alone;
use crate::layers::cli_layer;
use crate::layers::default_leaf;
use crate::layers::first_set;
use crate::layers::CliSpec;
use crate::literal::decimal;
use crate::literal::digit_run;
use crate::literal::digits_of;
use crate::literal::i64_literal;
use crate::literal::is_float_literal;
use crate::literal::is_non_finite_word;
use crate::literal::u32_literal;
use crate::literal::IntError;
use crate::load::merged_layers;
use crate::load::resolution;
use crate::names::lemma_global_names;
use crate::names::lemma_split_dotless;
use crate::pipeline_laws::env_layer;
use crate::pipeline_laws::file_layer;
use crate::source::ConfigSource;
use crate::source::ConfigValue;
use crate::tree::Tree;
use crate::validate::ErrorSpec;
use vstd::prelude::*;

verus! {

/// Whether the two files, the environment and the command line all leave
/// `path` alone.
pub open spec fn only_defaults_supply(
    toml: Option<Tree>,
    json: Option<Tree>,
    env: Map<Seq<char>, Seq<char>>,
    cli: CliSpec,
    path: Seq<char>,
) -> bool {
    leaves_alone(file_layer(toml), path) && leaves_alone(file_layer(json), path) && leaves_alone(
        env_layer(env),
        path,
    ) && leaves_alone(cli_layer(cli), path)
}

/// At a name without a dot stands the field of that name.
pub proof fn lemma_lookup_top(t: Tree, name: Seq<char>)
    requires
        crate::text::dotless(name),
    ensures
        t.lookup(name) == t.field(name),
{
    lemma_split_dotless(name);
    let parts = seq![name];
    assert(parts.drop_first() =~= Seq::<Seq<char>>::empty());
    match t.field(name) {
        Some(child) => {
            assert(child.at(parts.drop_first()) == Some(child));
            assert(t.at(parts) == Some(child));
        },
        None => {
            assert(t.at(parts) is None);
        },
    }
}

/// The declared defaults of the global settings, as leaves.
pub proof fn lemma_declared_defaults()
    ensures
        global_settings()[2].default == Some("0.05"@),
        global_settings()[3].default == Some("3"@),
        global_settings()[5].default == Some("dialog"@),
        global_settings()[6].default == Some("human"@),
        global_settings()[7].default == Some("262144"@),
        default_leaf("0.05"@) == Tree::Number("0.05"@),
        default_leaf("3"@) == Tree::Number("3"@),
        default_leaf("dialog"@) == Tree::Text("dialog"@),
        default_leaf("human"@) == Tree::Text("human"@),
        default_leaf("262144"@) == Tree::Number("262144"@),
        u32_literal("3"@) == Ok::<u32, IntError>(3u32),
        u32_literal("262144"@) == Ok::<u32, IntError>(262144u32),
{
    reveal_strlit("0.05");
    reveal_strlit("3");
    reveal_strlit("dialog");
    reveal_strlit("human");
    reveal_strlit("262144");
    reveal_strlit("true");
    reveal_strlit("false");
    let t = "0.05"@;
    assert(t.len() == 4 && t[0] == '0' && t[1] == '.' && t[2] == '0' && t[3] == '5');
    assert(i64_literal(t) is None);
    assert(!is_non_finite_word(t));
    assert(is_float_literal(t)) by {
        reveal_with_fuel(digit_run, 4);
        assert(digit_run(t, 0) == 1);
        assert(digit_run(t, 2) == 2);
    }
    let d = "dialog"@;
    assert(d.len() == 6 && d[0] == 'd');
    assert(i64_literal(d) is None);
    assert(!is_float_literal(d)) by {
        reveal_with_fuel(digit_run, 2);
        assert(digit_run(d, 0) == 0);
    }
    assert(d != "true"@ && d != "false"@);
    let h = "human"@;
    assert(h.len() == 5 && h[0] == 'h');
    assert(i64_literal(h) is None);
    assert(!is_float_literal(h)) by {
        reveal_with_fuel(digit_run, 2);
        assert(digit_run(h, 0) == 0);
    }
    assert("false"@[0] == 'f');
    assert(h != "true"@ && h != "false"@);
    crate::literal::law_u32_text_round_trip(3u32);
    crate::literal::law_i64_text_round_trip(3i64);
    assert(digits_of(3) =~= "3"@);
    crate::literal::law_u32_text_round_trip(262144u32);
    crate::literal::law_i64_text_round_trip(262144i64);
    assert(digits_of(262144) =~= "262144"@) by {
        reveal_with_fuel(digits_of, 7);
    }
}

/// The declared defaults of the fields of providers stand for texts, and
/// none of them spells a number.
pub proof fn lemma_field_default_texts(d: Seq<char>)
    requires
        is_field_default(d),
    ensures
        default_leaf(d) == Tree::Text(d),
        u32_literal(d) is Err,
{
    reveal_strlit("https://api.openai.com");
    reveal_strlit("gpt-5");
    reveal_strlit("https://api.groq.com/openai");
    reveal_strlit("openai/gpt-oss-120b");
    reveal_strlit("2023-05-15");
    reveal_strlit("http://localhost:11434");
    reveal_strlit("gpt-oss:120b-cloud");
    reveal_strlit("https://api.mistral.ai");
    reveal_strlit("codestral-2508");
    reveal_strlit("true");
    reveal_strlit("false");
    assert("false"@[0] == 'f' && "false"@.len() == 5 && "true"@.len() == 4);
    if d == "2023-05-15"@ {
        assert(d.len() == 10 && d[0] == '2' && d[1] == '0' && d[2] == '2' && d[3] == '3' && d[4]
            == '-');
        assert(!crate::literal::is_digit(d[4]));
        assert(digit_run(d, 0) == 4) by {
            reveal_with_fuel(digit_run, 6);
        }
    } else {
        assert(d.len() >= 5 && !crate::literal::is_digit(d[0]) && d[0] != '.' && d[0] != '+'
            && d[0] != '-' && d[0] != 'f');
        assert(d.len() != 8 || d[0] != 'i');
        assert(digit_run(d, 0) == 0) by {
            reveal_with_fuel(digit_run, 2);
        }
    }
    assert(i64_literal(d) is None);
    assert(!is_non_finite_word(d));
    assert(!is_float_literal(d));
    assert(d != "true"@ && d != "false"@);
}

/// What resolves is what was merged: where the merged layers can be
/// decoded, the configuration attributes every path to the layer that the
/// merge marked it with, and a path that no layer wrote to the defaults.
pub proof fn law_resolution_keeps_marks(
    m: Merged,
    toml_path: Option<Seq<char>>,
    json_path: Option<Seq<char>>,
    c: ConfigSpec,
)
    requires
        resolution(m, toml_path, json_path) == Ok::<ConfigSpec, ErrorSpec>(c),
    ensures
        forall|path: Seq<char>| #[trigger] c.source_of(path) == m.source_of(path),
        c.provider.source == m.source_of("provider"@),
        c.model.source == m.source_of("model"@),
        c.temperature.source == m.source_of("temperature"@),
        c.frontend.source == m.source_of("frontend"@),
        c.output_format.source == m.source_of("output_format"@),
        c.suggestion_count.source == m.source_of("suggestion_count"@),
        c.max_reference_chars.source == m.source_of("max_reference_chars"@),
        c.max_tokens.source == m.source_of("max_tokens"@),
        c.debug.source == m.source_of("debug"@),
{
    let parsed = parsed_of(m.tree)->Ok_0;
    assert(c == resolved(parsed, m.sources, toml_path, json_path));
}

/// The model flag resolves. Where a model is given on the command line and
/// the merged layers can be decoded, the global model is that model,
/// attributed to the command line; and where it is not empty, it is the
/// effective model, whatever the files and the environment say of the
/// models of providers.
pub proof fn law_model_flag_resolves(
    toml: Option<Tree>,
    json: Option<Tree>,
    env: Map<Seq<char>, Seq<char>>,
    cli: CliSpec,
    toml_path: Option<Seq<char>>,
    json_path: Option<Seq<char>>,
    c: ConfigSpec,
)
    requires
        resolution(merged_layers(toml, json, env, cli), toml_path, json_path) == Ok::<
            ConfigSpec,
            ErrorSpec,
        >(c),
        cli.model is Some,
    ensures
        c.model == (ConfigValue { value: cli.model->0, source: ConfigSource::Cli }),
        cli.model->0.len() > 0 ==> c.effective_model() == cli.model->0
            && c.effective_model_source() == ConfigSource::Cli,
{
    let m = merged_layers(toml, json, env, cli);
    let parsed = parsed_of(m.tree)->Ok_0;
    assert(c == resolved(parsed, m.sources, toml_path, json_path));
    crate::flag_laws::law_model_flag_wins(toml, json, env, cli);
    lemma_global_names();
    lemma_lookup_top(m.tree, "model"@);
}

/// Whether the environment supplies the global setting at position `i`
/// and no flag is given for it.
pub open spec fn environment_supplies(env: Map<Seq<char>, Seq<char>>, cli: CliSpec, i: int) -> bool {
    first_set(env, global_settings()[i]) is Some && cli_layer(cli).field(global_settings()[i].name)
        is None
}

/// The text that the environment supplies for the global setting at
/// position `i`: the value of the first of its variables that is set.
pub open spec fn supplied_text(env: Map<Seq<char>, Seq<char>>, i: int) -> Seq<char> {
    env[first_set(env, global_settings()[i])->0]
}

/// The environment resolves. Where the merged layers can be decoded, every
/// global setting that the environment supplies, and for which no flag is
/// given, resolves to what the first of its variables that is set spells,
/// attributed to the environment, whatever the files hold: a text as it
/// is, a number as the number that the text spells, and a provider, a
/// frontend, an output format and a debug level as what the text names.
pub proof fn law_environment_resolves(
    toml: Option<Tree>,
    json: Option<Tree>,
    env: Map<Seq<char>, Seq<char>>,
    cli: CliSpec,
    toml_path: Option<Seq<char>>,
    json_path: Option<Seq<char>>,
    c: ConfigSpec,
)
    requires
        resolution(merged_layers(toml, json, env, cli), toml_path, json_path) == Ok::<
            ConfigSpec,
            ErrorSpec,
        >(c),
    ensures
        environment_supplies(env, cli, 0) ==> c.provider.source == ConfigSource::Environment
            && c.provider.value is Some && c.provider.value == Provider::named(
            supplied_text(env, 0),
        ),
        environment_supplies(env, cli, 1) ==> c.model == (ConfigValue {
            value: supplied_text(env, 1),
            source: ConfigSource::Environment,
        }),
        environment_supplies(env, cli, 2) ==> c.temperature == (ConfigValue {
            value: supplied_text(env, 2),
            source: ConfigSource::Environment,
        }) && is_float_literal(supplied_text(env, 2)),
        environment_supplies(env, cli, 3) ==> c.suggestion_count.source == ConfigSource::Environment
            && u32_literal(supplied_text(env, 3)) == Ok::<u32, IntError>(c.suggestion_count.value),
        environment_supplies(env, cli, 5) ==> c.frontend.source == ConfigSource::Environment
            && Frontend::named(supplied_text(env, 5)) == Some(c.frontend.value),
        environment_supplies(env, cli, 6) ==> c.output_format.source == ConfigSource::Environment
            && OutputFormat::named(supplied_text(env, 6)) == Some(c.output_format.value),
        environment_supplies(env, cli, 7) ==> c.max_reference_chars.source
            == ConfigSource::Environment && u32_literal(supplied_text(env, 7)) == Ok::<
            u32,
            IntError,
        >(c.max_reference_chars.value),
        environment_supplies(env, cli, 8) ==> c.max_tokens.source == ConfigSource::Environment
            && c.max_tokens.value is Some && u32_literal(supplied_text(env, 8)) == Ok::<
            u32,
            IntError,
        >(c.max_tokens.value->0),
        environment_supplies(env, cli, 9) ==> c.debug.source == ConfigSource::Environment
            && c.debug.value is Some && c.debug.value == DebugLevel::named(supplied_text(env, 9)),
{
    let m = merged_layers(toml, json, env, cli);
    lemma_global_names();
    let parsed = parsed_of(m.tree)->Ok_0;
    assert(c == resolved(parsed, m.sources, toml_path, json_path));
    assert(crate::decode::first_failure(m.tree) is None);
    assert(crate::decode::globals_failure(m.tree) is None);
    if environment_supplies(env, cli, 0) {
        law_environment_wins_over_files(toml, json, env, cli, 0);
        lemma_lookup_top(m.tree, "provider"@);
    }
    if environment_supplies(env, cli, 1) {
        law_environment_wins_over_files(toml, json, env, cli, 1);
        lemma_lookup_top(m.tree, "model"@);
    }
    if environment_supplies(env, cli, 2) {
        law_environment_wins_over_files(toml, json, env, cli, 2);
        lemma_lookup_top(m.tree, "temperature"@);
    }
    if environment_supplies(env, cli, 3) {
        law_environment_wins_over_files(toml, json, env, cli, 3);
        lemma_lookup_top(m.tree, "suggestion_count"@);
    }
    if environment_supplies(env, cli, 5) {
        law_environment_wins_over_files(toml, json, env, cli, 5);
        lemma_lookup_top(m.tree, "frontend"@);
    }
    if environment_supplies(env, cli, 6) {
        law_environment_wins_over_files(toml, json, env, cli, 6);
        lemma_lookup_top(m.tree, "output_format"@);
    }
    if environment_supplies(env, cli, 7) {
        law_environment_wins_over_files(toml, json, env, cli, 7);
        lemma_lookup_top(m.tree, "max_reference_chars"@);
    }
    if environment_supplies(env, cli, 8) {
        law_environment_wins_over_files(toml, json, env, cli, 8);
        lemma_lookup_top(m.tree, "max_tokens"@);
    }
    if environment_supplies(env, cli, 9) {
        law_environment_wins_over_files(toml, json, env, cli, 9);
        lemma_lookup_top(m.tree, "debug"@);
    }
}

/// The legacy switch resolves. Where the merged layers can be decoded, the
/// switch that skips confirmation is on, the frontend variable is not set
/// at all and no frontend is given on the command line, the frontend is
/// `noninteractive`, attributed to the environment.
pub proof fn law_legacy_switch_resolves(
    toml: Option<Tree>,
    json: Option<Tree>,
    env: Map<Seq<char>, Seq<char>>,
    cli: CliSpec,
    toml_path: Option<Seq<char>>,
    json_path: Option<Seq<char>>,
    c: ConfigSpec,
)
    requires
        resolution(merged_layers(toml, json, env, cli), toml_path, json_path) == Ok::<
            ConfigSpec,
            ErrorSpec,
        >(c),
        crate::layers::skip_confirm_on(env),
        !env.contains_key("SHAI_FRONTEND"@),
        cli_layer(cli).field("frontend"@) is None,
    ensures
        c.frontend == (ConfigValue {
            value: Frontend::Noninteractive,
            source: ConfigSource::Environment,
        }),
{
    let m = merged_layers(toml, json, env, cli);
    let parsed = parsed_of(m.tree)->Ok_0;
    assert(c == resolved(parsed, m.sources, toml_path, json_path));
    crate::env_laws::law_legacy_switch_wins_over_files(toml, json, env, cli);
    lemma_global_names();
    lemma_lookup_top(m.tree, "frontend"@);
    reveal_strlit("noninteractive");
    reveal_strlit("dialog");
    reveal_strlit("readline");
    assert("noninteractive"@.len() == 14 && "dialog"@.len() == 6 && "readline"@.len() == 8);
    assert(Frontend::named("noninteractive"@) == Some(Frontend::Noninteractive));
}

} // verus!
