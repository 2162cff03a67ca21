//! The law of the provider variable: with nothing given but the variable
//! that names the provider, the load decodes to the defaults and the
//! provider, and groq validates.

use crate::builder::writes;
use crate::builder::Merged;
use crate::builder::Write;
use crate::catalog::global_settings;
use crate::catalog::provider_spec;
use crate::kinds::Frontend;
use crate::kinds::OutputFormat;
use crate::kinds::Provider;
use crate::decode::parsed_of;
use crate::layers::cli_layer;
use crate::layers::defaults_tree;
use crate::load::merged_layers;
use crate::load::resolution;
use crate::names::lemma_global_names;
use crate::pipeline_laws::no_flags;
use crate::source::ConfigSource;
use crate::source::ConfigValue;
use crate::validate::conflict;
use crate::validate::verdict;
use crate::layers::env_scan;
use crate::layers::first_set;
use crate::layers::is_set;
use crate::layers::own_set;
use crate::layers::scan_fields;
use crate::layers::scan_globals;
use crate::layers::scan_providers;
use crate::layers::EnvScan;
use crate::meta::common_fields;
use crate::meta::FieldSpec;
use crate::sound_defaults::lemma_shared_are_resolved;
use crate::tree::Tree;
use vstd::prelude::*;

verus! {

/// The variables of the fields of providers do not begin with `S`, as the
/// variables of the global settings do.
pub proof fn lemma_field_variables(p: Provider, i: int)
    requires
        0 <= i < provider_spec(p).all_fields().len(),
        provider_spec(p).all_fields()[i].env_var is Some,
    ensures
        provider_spec(p).all_fields()[i].env_var->0.len() > 0,
        provider_spec(p).all_fields()[i].env_var->0[0] != 'S',
{
    let spec = provider_spec(p);
    let shared = spec.resolved_commons(common_fields());
    let all = spec.all_fields();
    reveal_strlit("OPENAI_API_KEY");
    reveal_strlit("OPENAI_API_BASE");
    reveal_strlit("OPENAI_MODEL");
    reveal_strlit("OPENAI_MAX_TOKENS");
    reveal_strlit("OPENAI_ORGANIZATION");
    reveal_strlit("GROQ_API_KEY");
    reveal_strlit("GROQ_MODEL");
    reveal_strlit("GROQ_MAX_TOKENS");
    reveal_strlit("AZURE_API_KEY");
    reveal_strlit("AZURE_API_BASE");
    reveal_strlit("AZURE_MAX_TOKENS");
    reveal_strlit("AZURE_DEPLOYMENT_NAME");
    reveal_strlit("OPENAI_API_VERSION");
    reveal_strlit("OLLAMA_API_BASE");
    reveal_strlit("OLLAMA_MODEL");
    reveal_strlit("OLLAMA_MAX_TOKENS");
    reveal_strlit("MISTRAL_API_KEY");
    reveal_strlit("MISTRAL_API_BASE");
    reveal_strlit("MISTRAL_MODEL");
    reveal_strlit("MISTRAL_MAX_TOKENS");
    if i < shared.len() {
        assert(all[i] == shared[i]);
        lemma_shared_are_resolved(spec, common_fields());
        let j = choose|j: int|
            0 <= j < common_fields().len() && shared[i] == spec.resolve(common_fields()[j]);
        crate::require_laws::lemma_overrides_by_name(p, j);
        let o = spec.field_overrides;
        match p {
            Provider::OpenAI => {
                assert(o[0].env_var->0[0] == 'O' && o[1].env_var->0[0] == 'O' && o[2].env_var->0[0]
                    == 'O' && o[3].env_var->0[0] == 'O');
            },
            Provider::Groq => {
                assert(o[0].env_var->0[0] == 'G' && o[1].env_var is None && o[2].env_var->0[0]
                    == 'G' && o[3].env_var->0[0] == 'G');
            },
            Provider::Azure => {
                assert(o[0].env_var->0[0] == 'A' && o[1].env_var->0[0] == 'A' && o[2].env_var
                    is None && o[3].env_var->0[0] == 'A');
            },
            Provider::Ollama => {
                assert(o[0].env_var is None && o[1].env_var->0[0] == 'O' && o[2].env_var->0[0]
                    == 'O' && o[3].env_var->0[0] == 'O');
            },
            Provider::Mistral => {
                assert(o[0].env_var->0[0] == 'M' && o[1].env_var->0[0] == 'M' && o[2].env_var->0[0]
                    == 'M' && o[3].env_var->0[0] == 'M');
            },
        }
    } else {
        let extra = spec.extra_fields;
        assert(all[i] == extra[i - shared.len()]);
        match p {
            Provider::OpenAI => {
                assert(extra[0].env_var->0[0] == 'O');
            },
            Provider::Azure => {
                assert(extra[0].env_var->0[0] == 'A');
                assert(extra[1].env_var->0[0] == 'O');
            },
            _ => {},
        }
    }
}

/// Where no variable supplies any of the global settings, a scan of them
/// finds nothing.
pub proof fn lemma_scan_globals_unset(
    env: Map<Seq<char>, Seq<char>>,
    fields: Seq<FieldSpec>,
    start: EnvScan,
)
    requires
        forall|i: int| 0 <= i < fields.len() ==> first_set(env, #[trigger] fields[i]) is None,
    ensures
        scan_globals(env, fields, start) == start,
    decreases fields.len(),
{
    if fields.len() > 0 {
        let head = fields.drop_last();
        assert forall|i: int| 0 <= i < head.len() implies first_set(env, #[trigger] head[i])
            is None by {
            assert(head[i] == fields[i]);
        }
        lemma_scan_globals_unset(env, head, start);
        assert(fields.last() == fields[fields.len() - 1]);
    }
}

/// Where a variable supplies the first of the global settings and none
/// supplies another, a scan of them binds the first setting and nothing
/// else.
pub proof fn lemma_scan_globals_first_only(
    env: Map<Seq<char>, Seq<char>>,
    fields: Seq<FieldSpec>,
    start: EnvScan,
)
    requires
        fields.len() >= 1,
        first_set(env, fields[0]) is Some,
        !fields[0].virtual_field,
        forall|i: int| 1 <= i < fields.len() ==> first_set(env, #[trigger] fields[i]) is None,
    ensures
        scan_globals(env, fields, start) == (EnvScan {
            layer: start.layer.put(fields[0].name, Tree::Text(env[first_set(env, fields[0])->0])),
            vars: start.vars.insert(fields[0].name, first_set(env, fields[0])->0),
        }),
    decreases fields.len(),
{
    let head = fields.drop_last();
    assert(fields.last() == fields[fields.len() - 1]);
    if fields.len() == 1 {
        assert(head.len() == 0);
        assert(scan_globals(env, head, start) == start);
    } else {
        assert(head[0] == fields[0]);
        assert forall|i: int| 1 <= i < head.len() implies first_set(env, #[trigger] head[i])
            is None by {
            assert(head[i] == fields[i]);
        }
        lemma_scan_globals_first_only(env, head, start);
    }
}

/// Where no variable supplies any of the fields, a scan of them finds
/// nothing.
pub proof fn lemma_scan_fields_unset(
    env: Map<Seq<char>, Seq<char>>,
    provider: Seq<char>,
    fields: Seq<FieldSpec>,
    start: EnvScan,
)
    requires
        forall|i: int| 0 <= i < fields.len() ==> own_set(env, #[trigger] fields[i]) is None,
    ensures
        scan_fields(env, provider, fields, start) == start,
    decreases fields.len(),
{
    if fields.len() > 0 {
        let head = fields.drop_last();
        assert forall|i: int| 0 <= i < head.len() implies own_set(env, #[trigger] head[i])
            is None by {
            assert(head[i] == fields[i]);
        }
        lemma_scan_fields_unset(env, provider, head, start);
        assert(fields.last() == fields[fields.len() - 1]);
    }
}

/// Where no variable supplies any field of any provider, a scan of the
/// providers finds nothing.
pub proof fn lemma_scan_providers_unset(env: Map<Seq<char>, Seq<char>>, n: int, start: EnvScan)
    requires
        forall|p: Provider, i: int|
            0 <= i < provider_spec(p).all_fields().len() ==> own_set(
                env,
                #[trigger] provider_spec(p).all_fields()[i],
            ) is None,
    ensures
        scan_providers(env, n, start) == start,
    decreases n,
{
    if 0 < n <= Provider::every().len() {
        lemma_scan_providers_unset(env, n - 1, start);
        let q = Provider::every()[n - 1];
        let p = provider_spec(q);
        assert forall|i: int| 0 <= i < p.all_fields().len() implies own_set(
            env,
            #[trigger] p.all_fields()[i],
        ) is None by {
            assert(own_set(env, provider_spec(q).all_fields()[i]) is None);
        }
        lemma_scan_fields_unset(env, p.name, p.all_fields(), start);
    }
}

/// Whether the variable that names the provider is set, to a text that is
/// not empty, and no other variable is.
pub open spec fn names_the_provider_alone(env: Map<Seq<char>, Seq<char>>) -> bool {
    env.dom() =~= set!["SHAI_API_PROVIDER"@] && env["SHAI_API_PROVIDER"@].len() > 0
}

/// Where the variable that names the provider is set and no other is, the
/// layer of the environment binds the provider and nothing else, and the
/// variable is put on record for it.
pub proof fn lemma_environment_of_the_provider(
    env: Map<Seq<char>, Seq<char>>,
    known: Map<Seq<char>, Seq<char>>,
)
    requires
        names_the_provider_alone(env),
    ensures
        env_scan(env, known) == (EnvScan {
            layer: Tree::empty().put("provider"@, Tree::Text(env["SHAI_API_PROVIDER"@])),
            vars: known.insert("provider"@, "SHAI_API_PROVIDER"@),
        }),
{
    let name = "SHAI_API_PROVIDER"@;
    let start = EnvScan { layer: Tree::empty(), vars: known };
    let gs = global_settings();
    reveal_strlit("SHAI_API_PROVIDER");
    reveal_strlit("SHAI_PROVIDER");
    reveal_strlit("SHAI_MODEL");
    reveal_strlit("SHAI_TEMPERATURE");
    reveal_strlit("SHAI_SUGGESTION_COUNT");
    reveal_strlit("SHAI_SKIP_CONFIRM");
    reveal_strlit("SHAI_FRONTEND");
    reveal_strlit("SHAI_OUTPUT_FORMAT");
    reveal_strlit("SHAI_MAX_REFERENCE_CHARS");
    reveal_strlit("SHAI_MAX_TOKENS");
    reveal_strlit("SHAI_DEBUG");
    assert(name.len() == 17 && name[0] == 'S' && name[5] == 'A');
    assert(env.contains_key(name));
    assert(is_set(env, name));
    assert(gs[0].env_var == Some(name));
    assert(first_set(env, gs[0]) == Some(name));
    assert forall|i: int| 1 <= i < gs.len() implies first_set(env, #[trigger] gs[i]) is None by {
        let f = gs[i];
        assert(f.env_aliases.len() == 0);
        assert(f.env_var is Some);
        let v = f.env_var->0;
        assert(v != name) by {
            if i == 4 {
                assert(v[5] == 'S');
            } else {
                assert(v.len() != 17);
            }
        }
        assert(!env.contains_key(v));
        assert(crate::search::first_where(f.env_aliases, |a: Seq<char>| is_set(env, a)) is None);
    }
    lemma_scan_globals_first_only(env, gs, start);
    let after_globals = scan_globals(env, gs, start);
    assert forall|p: Provider, i: int| 0 <= i < provider_spec(p).all_fields().len() implies own_set(
        env,
        #[trigger] provider_spec(p).all_fields()[i],
    ) is None by {
        let f = provider_spec(p).all_fields()[i];
        if f.env_var is Some {
            lemma_field_variables(p, i);
            assert(f.env_var->0 != name);
            assert(!env.contains_key(f.env_var->0));
        }
    }
    lemma_scan_providers_unset(env, Provider::every().len() as int, after_globals);
    assert("SHAI_SKIP_CONFIRM"@[5] == 'S');
    assert(!env.contains_key("SHAI_SKIP_CONFIRM"@));
}

/// The load with nothing given but the environment `env`.
pub open spec fn load_of(env: Map<Seq<char>, Seq<char>>) -> Merged {
    merged_layers(None, None, env, no_flags())
}

/// With nothing given but the variable that names the provider, the merged
/// tree is the layer of defaults with the provider bound in it; the
/// provider is marked as coming from the environment and every other path
/// as a default; and the variable is on record for the provider.
pub proof fn lemma_load_of_the_provider(env: Map<Seq<char>, Seq<char>>)
    requires
        names_the_provider_alone(env),
    ensures
        load_of(env).tree == defaults_tree().put(
            "provider"@,
            Tree::Text(env["SHAI_API_PROVIDER"@]),
        ),
        load_of(env).source_of("provider"@) == ConfigSource::Environment,
        forall|path: Seq<char>|
            path != "provider"@ ==> #[trigger] load_of(env).source_of(path) == ConfigSource::Default,
        load_of(env).env_var_of("provider"@) == Some("SHAI_API_PROVIDER"@),
{
    let v = Tree::Text(env["SHAI_API_PROVIDER"@]);
    let start = Merged::start();
    let defaults = start.merge(defaults_tree(), ConfigSource::Default);
    crate::sound_defaults::lemma_defaults_two_level();
    crate::rebuild_laws::law_merge_rebuilds(defaults_tree(), ConfigSource::Default);
    crate::pipeline_laws::lemma_only_marks(start, writes(defaults_tree()), ConfigSource::Default);
    lemma_environment_of_the_provider(env, defaults.env_vars);
    let scan = env_scan(env, defaults.env_vars);
    let layer = scan.layer;
    crate::tree::lemma_key_index(Seq::<(Seq<char>, Tree)>::empty(), "provider"@);
    assert(layer == Tree::Table(seq![("provider"@, v)])) by {
        assert(Seq::<(Seq<char>, Tree)>::empty().push(("provider"@, v)) =~= seq![("provider"@, v)]);
    }
    let w = Write { path: "provider"@, value: v };
    assert(writes(layer) =~= seq![w]) by {
        assert(layer.entries().len() == 1);
        assert(layer.entries()[0] == ("provider"@, v));
        assert(crate::builder::child_path(Seq::empty(), "provider"@) == "provider"@);
        assert(crate::builder::writes_upto(layer, Seq::empty(), 0) =~= Seq::<Write>::empty());
    }
    let recorded = Merged { env_vars: scan.vars, ..defaults };
    crate::builder::lemma_apply_one(recorded, w, ConfigSource::Environment);
    let with_env = recorded.write(w, ConfigSource::Environment);
    assert(crate::load::merge_env(defaults, env) == with_env);
    assert(writes(Tree::empty()) =~= Seq::<Write>::empty());
    assert(cli_layer(no_flags()) == Tree::empty());
    assert(load_of(env) == with_env);
    lemma_global_names();
    crate::names::lemma_split_dotless("provider"@);
    assert(with_env.tree == defaults_tree().put("provider"@, v));
    assert forall|path: Seq<char>| path != "provider"@ implies #[trigger] load_of(env).source_of(
        path,
    ) == ConfigSource::Default by {
        if with_env.sources.contains_key(path) {
            assert(defaults.sources.contains_key(path));
            assert(defaults.sources[path] == ConfigSource::Default);
        }
    }
}

/// The provider variable alone. With no files, no flags and no variable
/// set but the one that names the provider, the load decodes: the provider
/// is the one that is named, attributed to the environment, and every
/// other setting and every field of every provider has its declared
/// default, and nothing where it has none, attributed to the defaults.
pub proof fn law_provider_variable_alone(
    env: Map<Seq<char>, Seq<char>>,
    toml_path: Option<Seq<char>>,
    json_path: Option<Seq<char>>,
    p: Provider,
)
    requires
        names_the_provider_alone(env),
        Provider::named(env["SHAI_API_PROVIDER"@]) == Some(p),
    ensures
        resolution(load_of(env), toml_path, json_path) is Ok,
        conflict(env) is None,
        ({
            let c = resolution(load_of(env), toml_path, json_path)->Ok_0;
            &&& c.provider == (ConfigValue { value: Some(p), source: ConfigSource::Environment })
            &&& c.model == (ConfigValue {
                value: Seq::<char>::empty(),
                source: ConfigSource::Default,
            })
            &&& c.temperature == (ConfigValue { value: "0.05"@, source: ConfigSource::Default })
            &&& c.suggestion_count == (ConfigValue { value: 3u32, source: ConfigSource::Default })
            &&& c.frontend == (ConfigValue {
                value: Frontend::Dialog,
                source: ConfigSource::Default,
            })
            &&& c.output_format == (ConfigValue {
                value: OutputFormat::Human,
                source: ConfigSource::Default,
            })
            &&& c.max_reference_chars == (ConfigValue {
                value: 262144u32,
                source: ConfigSource::Default,
            })
            &&& c.max_tokens == (ConfigValue { value: None::<u32>, source: ConfigSource::Default })
            &&& c.debug == (ConfigValue {
                value: None::<crate::kinds::DebugLevel>,
                source: ConfigSource::Default,
            })
            &&& forall|q: Provider, i: int|
                0 <= i < provider_spec(q).all_fields().len() ==> c.creds(q).field(
                    (#[trigger] provider_spec(q).all_fields()[i]).name,
                ) == provider_spec(q).all_fields()[i].default
            &&& forall|q: Provider| (#[trigger] c.creds(q)).max_tokens is None
            &&& forall|path: Seq<char>|
                path != "provider"@ ==> #[trigger] c.source_of(path) == ConfigSource::Default
        }),
{
    let m = load_of(env);
    let t = m.tree;
    let d = defaults_tree();
    let v = Tree::Text(env["SHAI_API_PROVIDER"@]);
    lemma_load_of_the_provider(env);
    lemma_global_names();
    crate::names::lemma_provider_names();
    crate::sound_defaults::lemma_defaults_two_level();
    crate::tree_laws::lemma_put_same(d, "provider"@, v);
    assert forall|i: int| 1 <= i < 10 implies t.field((#[trigger] global_settings()[i]).name)
        == d.field(global_settings()[i].name) by {
        crate::tree_laws::lemma_put_other(d, "provider"@, v, global_settings()[i].name);
    }
    assert forall|q: Provider| t.field((#[trigger] provider_spec(q)).name) == d.field(
        provider_spec(q).name,
    ) by {
        assert(provider_spec(q).name != global_settings()[0].name);
        crate::tree_laws::lemma_put_other(d, "provider"@, v, provider_spec(q).name);
    }
    assert(t.field(provider_spec(Provider::OpenAI).name) == d.field("openai"@));
    assert(t.field(provider_spec(Provider::Groq).name) == d.field("groq"@));
    assert(t.field(provider_spec(Provider::Azure).name) == d.field("azure"@));
    assert(t.field(provider_spec(Provider::Ollama).name) == d.field("ollama"@));
    assert(t.field(provider_spec(Provider::Mistral).name) == d.field("mistral"@));
    crate::sound_defaults::law_defaults_decode();
    crate::sound_defaults::lemma_default_globals_decode();
    crate::decode::law_failure_whatever_the_order(d);
    crate::decode::law_failure_whatever_the_order(t);
    assert(crate::decode::first_failure(d) is None);
    assert(crate::decode::first_failure(t) is None);
    let parsed = parsed_of(t)->Ok_0;
    let plain = parsed_of(d)->Ok_0;
    let c = resolution(m, toml_path, json_path)->Ok_0;
    assert(c == crate::config::resolved(parsed, m.sources, toml_path, json_path));
    assert forall|q: Provider| c.creds(q) == crate::config::creds_or_blank(
        #[trigger] crate::sound_defaults::parsed_section(plain, q),
    ) by {
        match q {
            Provider::OpenAI => {},
            Provider::Groq => {},
            Provider::Azure => {},
            Provider::Ollama => {},
            Provider::Mistral => {},
        }
    }
    assert forall|q: Provider, i: int| 0 <= i < provider_spec(q).all_fields().len() implies c.creds(
        q,
    ).field((#[trigger] provider_spec(q).all_fields()[i]).name) == provider_spec(
        q,
    ).all_fields()[i].default by {
        assert(c.creds(q) == crate::config::creds_or_blank(
            crate::sound_defaults::parsed_section(plain, q),
        ));
    }
    assert forall|q: Provider| (#[trigger] c.creds(q)).max_tokens is None by {
        assert(c.creds(q) == crate::config::creds_or_blank(
            crate::sound_defaults::parsed_section(plain, q),
        ));
    }
    assert forall|path: Seq<char>| path != "provider"@ implies #[trigger] c.source_of(path)
        == ConfigSource::Default by {
        assert(c.source_of(path) == m.source_of(path));
    }
    assert(c.provider.source == m.source_of("provider"@));
    assert(c.model.source == c.source_of("model"@));
    assert(c.temperature.source == c.source_of("temperature"@));
    assert(c.suggestion_count.source == c.source_of("suggestion_count"@));
    assert(c.frontend.source == c.source_of("frontend"@));
    assert(c.output_format.source == c.source_of("output_format"@));
    assert(c.max_reference_chars.source == c.source_of("max_reference_chars"@));
    assert(c.max_tokens.source == c.source_of("max_tokens"@));
    assert(c.debug.source == c.source_of("debug"@));
    reveal_strlit("SHAI_API_PROVIDER");
    reveal_strlit("SHAI_SKIP_CONFIRM");
    assert("SHAI_SKIP_CONFIRM"@[5] == 'S' && "SHAI_API_PROVIDER"@[5] == 'A');
    assert(!env.contains_key("SHAI_SKIP_CONFIRM"@));
}

/// Groq alone validates. With no files, no flags and no variable set but
/// the one that names the provider, set to `groq`, the load decodes and
/// passes validation: the provider is groq, attributed to the environment,
/// and the effective model is groq's default model, attributed to the
/// defaults.
pub proof fn law_groq_alone_validates(
    env: Map<Seq<char>, Seq<char>>,
    toml_path: Option<Seq<char>>,
    json_path: Option<Seq<char>>,
)
    requires
        env =~= Map::<Seq<char>, Seq<char>>::empty().insert("SHAI_API_PROVIDER"@, "groq"@),
    ensures
        resolution(load_of(env), toml_path, json_path) is Ok,
        ({
            let c = resolution(load_of(env), toml_path, json_path)->Ok_0;
            &&& verdict(c, env) is None
            &&& c.provider == (ConfigValue {
                value: Some(Provider::Groq),
                source: ConfigSource::Environment,
            })
            &&& c.effective_model() == "openai/gpt-oss-120b"@
            &&& c.effective_model_source() == ConfigSource::Default
        }),
{
    reveal_strlit("groq");
    reveal_strlit("openai");
    reveal_strlit("SHAI_API_PROVIDER");
    reveal_strlit("openai/gpt-oss-120b");
    reveal_strlit("model");
    reveal_strlit("provider");
    assert("groq"@.len() == 4);
    assert(names_the_provider_alone(env));
    assert(Provider::named("groq"@) == Some(Provider::Groq));
    law_provider_variable_alone(env, toml_path, json_path, Provider::Groq);
    let c = resolution(load_of(env), toml_path, json_path)->Ok_0;
    crate::require_laws::law_groq_validates(c, env);
    let spec = provider_spec(Provider::Groq);
    let fields = spec.all_fields();
    let k = lemma_model_of_groq();
    assert(fields[k].name == "model"@ && fields[k].default == Some("openai/gpt-oss-120b"@));
    crate::field_names::lemma_lengths();
    assert(c.creds(Provider::Groq).field("model"@) == c.creds(Provider::Groq).model);
    assert(c.creds(Provider::Groq).model == Some("openai/gpt-oss-120b"@));
    assert("openai/gpt-oss-120b"@.len() == 19);
    crate::names::lemma_provider_names();
    assert("model"@.len() != "provider"@.len());
    assert(crate::catalog::field_path(spec.name, "model"@) != "provider"@) by {
        crate::env_laws::lemma_field_path_has_dot(spec.name, "model"@, "provider"@);
        lemma_global_names();
    }
}

/// Where groq has its model among its fields.
pub proof fn lemma_model_of_groq() -> (k: int)
    ensures
        0 <= k < provider_spec(Provider::Groq).all_fields().len(),
        provider_spec(Provider::Groq).all_fields()[k].name == "model"@,
        provider_spec(Provider::Groq).all_fields()[k].default == Some("openai/gpt-oss-120b"@),
{
    let spec = provider_spec(Provider::Groq);
    let cs = common_fields();
    let c3 = cs.drop_last();
    let c2 = c3.drop_last();
    let c1 = c2.drop_last();
    let c0 = c1.drop_last();
    assert(c0.len() == 0);
    assert(spec.skip_common.len() == 0);
    assert(forall|n: Seq<char>| !spec.skips(n));
    assert(spec.resolved_commons(c0) =~= Seq::<FieldSpec>::empty());
    assert(c1.last() == cs[0] && c2.last() == cs[1] && c3.last() == cs[2] && cs.last() == cs[3]);
    assert(spec.resolved_commons(c1) =~= seq![spec.resolve(cs[0])]);
    assert(spec.resolved_commons(c2) =~= seq![spec.resolve(cs[0]), spec.resolve(cs[1])]);
    assert(spec.resolved_commons(c3) =~= seq![
        spec.resolve(cs[0]),
        spec.resolve(cs[1]),
        spec.resolve(cs[2]),
    ]);
    assert(spec.resolved_commons(cs) =~= seq![
        spec.resolve(cs[0]),
        spec.resolve(cs[1]),
        spec.resolve(cs[2]),
        spec.resolve(cs[3]),
    ]);
    assert(spec.extra_fields.len() == 0);
    assert(spec.all_fields() =~= spec.resolved_commons(cs));
    crate::require_laws::lemma_overrides_by_name(Provider::Groq, 2);
    assert(spec.field_overrides[2].default == Some("openai/gpt-oss-120b"@));
    2
}

} // verus!
