//! The law of sound defaults: the layer of defaults decodes, every setting
//! to its declared default, and a load with nothing given resolves to it.

use crate::catalog::global_settings;
use crate::catalog::provider_spec;
use crate::config::creds_or_blank;
use crate::decode::creds_failure;
use crate::decode::creds_values;
use crate::decode::globals_failure;
use crate::decode::globals_values;
use crate::decode::parsed_of;
use crate::decode::CredsSpec;
use crate::decode::ParsedSpec;
use crate::decode::GlobalsSpec;
use crate::default_laws::lemma_fields_defaults_shape;
use crate::field_names::lemma_lengths;
use crate::kinds::Frontend;
use crate::kinds::OutputFormat;
use crate::kinds::Provider;
use crate::layers::default_leaf;
use crate::layers::defaults_tree;
use crate::layers::defaults_upto;
use crate::layers::fields_defaults;
use crate::meta::common_fields;
use crate::meta::CommonSpec;
use crate::meta::FieldSpec;
use crate::meta::OverrideSpec;
use crate::meta::ProviderSpec;
use crate::names::lemma_global_names;
use crate::names::lemma_provider_names;
use crate::names::lemma_provider_names_differ;
use crate::search::lemma_first_where_is_member;
use crate::builder::Merged;
use crate::config::ConfigSpec;
use crate::laws::leaves_alone;
use crate::layers::CliSpec;
use crate::load::merged_layers;
use crate::resolve_laws::only_defaults_supply;
use crate::validate::ErrorSpec;
use crate::load::resolution;
use crate::pipeline_laws::no_flags;
use crate::rebuild_laws::is_section;
use crate::rebuild_laws::is_two_level;
use crate::source::ConfigSource;
use crate::source::ConfigValue;
use crate::tree::Tree;
use crate::tree_laws::lemma_put_other;
use crate::tree_laws::lemma_put_same;
use vstd::prelude::*;

verus! {

/// Whether `value` is what the default of a field called `key` among
/// `fields` stands for.
pub open spec fn is_default_of(fields: Seq<FieldSpec>, key: Seq<char>, value: Tree) -> bool {
    exists|i: int|
        0 <= i < fields.len() && (#[trigger] fields[i]).name == key && fields[i].default is Some
            && value == default_leaf(fields[i].default->0)
}

/// Every binding of a table of defaults is the default of a field of that
/// name.
pub proof fn lemma_defaults_bindings(fields: Seq<FieldSpec>, skip_virtual: bool, key: Seq<char>)
    ensures
        fields_defaults(fields, skip_virtual).field(key) is Some ==> is_default_of(
            fields,
            key,
            fields_defaults(fields, skip_virtual).field(key)->0,
        ),
    decreases fields.len(),
{
    if fields.len() > 0 {
        let head = fields.drop_last();
        let f = fields.last();
        let t = fields_defaults(head, skip_virtual);
        lemma_defaults_bindings(head, skip_virtual, key);
        lemma_fields_defaults_shape(head, skip_virtual);
        let all = fields_defaults(fields, skip_virtual);
        if all.field(key) is Some {
            let value = all.field(key)->0;
            if (skip_virtual && f.virtual_field) || f.default is None {
                assert(all == t);
                let i = choose|i: int|
                    0 <= i < head.len() && (#[trigger] head[i]).name == key && head[i].default
                        is Some && value == default_leaf(head[i].default->0);
                assert(fields[i] == head[i]);
            } else if key == f.name {
                lemma_put_same(t, f.name, default_leaf(f.default->0));
                assert(fields[fields.len() - 1] == f);
            } else {
                lemma_put_other(t, f.name, default_leaf(f.default->0), key);
                let i = choose|i: int|
                    0 <= i < head.len() && (#[trigger] head[i]).name == key && head[i].default
                        is Some && value == default_leaf(head[i].default->0);
                assert(fields[i] == head[i]);
            }
        }
    }
}

/// Every shared field that a provider has is a shared field resolved.
pub proof fn lemma_shared_are_resolved(p: ProviderSpec, commons: Seq<CommonSpec>)
    ensures
        forall|a: int|
            0 <= a < p.resolved_commons(commons).len() ==> exists|j: int|
                0 <= j < commons.len() && (#[trigger] p.resolved_commons(commons)[a]) == p.resolve(
                    commons[j],
                ),
    decreases commons.len(),
{
    if commons.len() > 0 {
        let head = commons.drop_last();
        lemma_shared_are_resolved(p, head);
        let before = p.resolved_commons(head);
        let all = p.resolved_commons(commons);
        assert forall|a: int| 0 <= a < all.len() implies exists|j: int|
            0 <= j < commons.len() && (#[trigger] all[a]) == p.resolve(commons[j]) by {
            if a < before.len() {
                assert(all[a] == before[a]);
                let j = choose|j: int| 0 <= j < head.len() && before[a] == p.resolve(head[j]);
                assert(head[j] == commons[j]);
            } else {
                assert(all[a] == p.resolve(commons[commons.len() - 1]));
            }
        }
    }
}

/// No provider declares a default for the limit of tokens.
pub proof fn lemma_no_default_limit(p: Provider, i: int)
    requires
        0 <= i < provider_spec(p).all_fields().len(),
        provider_spec(p).all_fields()[i].name == "max_tokens"@,
    ensures
        provider_spec(p).all_fields()[i].default is None,
{
    let spec = provider_spec(p);
    let shared = spec.resolved_commons(common_fields());
    let extra = spec.extra_fields;
    let all = spec.all_fields();
    lemma_lengths();
    if i < shared.len() {
        assert(all[i] == shared[i]);
        lemma_shared_are_resolved(spec, common_fields());
        let j = choose|j: int|
            0 <= j < common_fields().len() && shared[i] == spec.resolve(common_fields()[j]);
        let common = common_fields()[j];
        assert(common.name == "max_tokens"@);
        let found = spec.override_of(common.name);
        if found is Some {
            lemma_first_where_is_member(
                spec.field_overrides,
                |o: OverrideSpec| o.name == common.name,
            );
            let o = spec.field_overrides;
            let k = choose|k: int| 0 <= k < o.len() && o[k] == found->0;
            assert(o.len() == 4);
            assert(o[0].name == "api_key"@ && o[1].name == "api_base"@ && o[2].name == "model"@);
            assert(k == 3);
            assert(o[3].default is None);
        }
    } else {
        assert(all[i] == extra[i - shared.len()]);
        match p {
            Provider::OpenAI => {
                assert(extra[0].name == "organization"@);
            },
            Provider::Azure => {
                assert(extra[0].name == "deployment_name"@);
                assert(extra[1].name == "api_version"@);
            },
            _ => {},
        }
    }
}

/// The table of the defaults of the global settings binds no name of a
/// provider.
pub proof fn lemma_globals_bind_no_provider(p: Provider)
    ensures
        fields_defaults(global_settings(), true).field(provider_spec(p).name) is None,
{
    lemma_defaults_bindings(global_settings(), true, provider_spec(p).name);
    lemma_provider_names();
}

/// Under a name that is no name of a provider, the layer of defaults
/// holds what the table of the defaults of the global settings holds.
pub proof fn lemma_defaults_at_other_names(n: int, key: Seq<char>)
    requires
        forall|p: Provider| (#[trigger] provider_spec(p)).name != key,
    ensures
        defaults_upto(n).field(key) == fields_defaults(global_settings(), true).field(key),
    decreases n,
{
    if 0 < n <= Provider::every().len() {
        lemma_defaults_at_other_names(n - 1, key);
        let p = provider_spec(Provider::every()[n - 1]);
        let section = fields_defaults(p.all_fields(), false);
        lemma_put_other(defaults_upto(n - 1), p.name, section, key);
    }
}

/// The section of a provider in the layer of defaults: the table of the
/// defaults of its fields, where it has any.
pub open spec fn section_in_defaults(p: Provider) -> Option<Tree> {
    let section = fields_defaults(provider_spec(p).all_fields(), false);
    if section.entries().len() > 0 {
        Some(section)
    } else {
        None
    }
}

/// Under the name of a provider, the layer of defaults, as far as the
/// first `n` providers, holds the section of that provider where the
/// provider is among them, and nothing otherwise.
pub proof fn lemma_defaults_at_provider(n: int, p: Provider)
    requires
        0 <= n <= Provider::every().len(),
    ensures
        defaults_upto(n).field(provider_spec(p).name) == (if p.ordinal() < n {
            section_in_defaults(p)
        } else {
            None
        }),
    decreases n,
{
    let key = provider_spec(p).name;
    if n == 0 {
        lemma_globals_bind_no_provider(p);
    } else {
        lemma_defaults_at_provider(n - 1, p);
        let q = Provider::every()[n - 1];
        let section = fields_defaults(provider_spec(q).all_fields(), false);
        assert(Provider::every()[p.ordinal() as int] == p);
        if q == p {
            assert(p.ordinal() == n - 1);
            if section.entries().len() > 0 {
                crate::default_laws::lemma_defaults_upto_shape(n - 1, 0);
                lemma_put_same(defaults_upto(n - 1), key, section);
            }
        } else {
            assert(p.ordinal() != n - 1);
            lemma_provider_names_differ(p, q);
            if section.entries().len() > 0 {
                lemma_put_other(defaults_upto(n - 1), provider_spec(q).name, section, key);
            }
        }
    }
}

/// What the table of the defaults of a provider binds: every binding is
/// the declared default of a field of that name, as a text, and the limit
/// of tokens is not bound.
pub proof fn lemma_section_binding(p: Provider, key: Seq<char>)
    ensures
        fields_defaults(provider_spec(p).all_fields(), false).field(key) is Some ==> key
            != "max_tokens"@ && exists|i: int|
            0 <= i < provider_spec(p).all_fields().len() && (#[trigger] provider_spec(
                p,
            ).all_fields()[i]).name == key && provider_spec(p).all_fields()[i].default is Some
                && fields_defaults(provider_spec(p).all_fields(), false).field(key) == Some(
                Tree::Text(provider_spec(p).all_fields()[i].default->0),
            ),
{
    let fields = provider_spec(p).all_fields();
    let section = fields_defaults(fields, false);
    lemma_defaults_bindings(fields, false, key);
    if section.field(key) is Some {
        let value = section.field(key)->0;
        let i = choose|i: int|
            0 <= i < fields.len() && (#[trigger] fields[i]).name == key && fields[i].default
                is Some && value == default_leaf(fields[i].default->0);
        crate::field_names::lemma_provider_fields(p);
        crate::resolve_laws::lemma_field_default_texts(fields[i].default->0);
        if key == "max_tokens"@ {
            lemma_no_default_limit(p, i);
        }
    }
}

/// The table of the defaults of a provider decodes, and every field of the
/// provider decodes to its declared default: to nothing where it has none.
pub proof fn lemma_default_section_decodes(p: Provider, at: Seq<char>)
    ensures
        creds_failure(fields_defaults(provider_spec(p).all_fields(), false), at) is None,
        creds_values(fields_defaults(provider_spec(p).all_fields(), false)).max_tokens is None,
        forall|i: int|
            0 <= i < provider_spec(p).all_fields().len() ==> creds_values(
                fields_defaults(provider_spec(p).all_fields(), false),
            ).field((#[trigger] provider_spec(p).all_fields()[i]).name) == provider_spec(
                p,
            ).all_fields()[i].default,
{
    let fields = provider_spec(p).all_fields();
    let section = fields_defaults(fields, false);
    lemma_section_binding(p, "api_key"@);
    lemma_section_binding(p, "api_base"@);
    lemma_section_binding(p, "model"@);
    lemma_section_binding(p, "max_tokens"@);
    lemma_section_binding(p, "organization"@);
    lemma_section_binding(p, "deployment_name"@);
    lemma_section_binding(p, "api_version"@);
    lemma_lengths();
    crate::field_names::lemma_provider_fields(p);
    assert forall|i: int| 0 <= i < fields.len() implies creds_values(section).field(
        (#[trigger] fields[i]).name,
    ) == fields[i].default by {
        let f = fields[i];
        crate::field_names::lemma_field_names(f.name, "api_key"@);
        crate::field_names::lemma_field_names(f.name, "api_base"@);
        crate::field_names::lemma_field_names(f.name, "model"@);
        crate::field_names::lemma_field_names(f.name, "max_tokens"@);
        crate::field_names::lemma_field_names(f.name, "organization"@);
        crate::field_names::lemma_field_names(f.name, "deployment_name"@);
        crate::field_names::lemma_field_names(f.name, "api_version"@);
        if f.default is Some {
            crate::default_laws::lemma_fields_defaults_hit(fields, false, i);
            crate::resolve_laws::lemma_field_default_texts(f.default->0);
            if f.name == "max_tokens"@ {
                lemma_no_default_limit(p, i);
            }
        } else {
            lemma_section_binding(p, f.name);
            if section.field(f.name) is Some {
                let j = choose|j: int|
                    0 <= j < fields.len() && (#[trigger] fields[j]).name == f.name
                        && fields[j].default is Some;
                assert(j == i);
            }
        }
    }
}

/// The defaults of the global settings decode: the settings with a
/// declared default to what it spells or names, the others to nothing. The
/// layer of defaults binds the former to what their defaults stand for, and
/// does not bind the latter.
pub proof fn lemma_default_globals_decode()
    ensures
        globals_failure(defaults_tree()) is None,
        globals_values(defaults_tree()) == (GlobalsSpec {
            provider: None,
            model: None,
            temperature: Some("0.05"@),
            suggestion_count: Some(3u32),
            frontend: Some(Frontend::Dialog),
            output_format: Some(OutputFormat::Human),
            max_reference_chars: Some(262144u32),
            max_tokens: None,
            debug: None,
        }),
        defaults_tree().field("provider"@) is None,
        defaults_tree().field("model"@) is None,
        defaults_tree().field("temperature"@) == Some(Tree::Number("0.05"@)),
        defaults_tree().field("suggestion_count"@) == Some(Tree::Number("3"@)),
        defaults_tree().field("frontend"@) == Some(Tree::Text("dialog"@)),
        defaults_tree().field("output_format"@) == Some(Tree::Text("human"@)),
        defaults_tree().field("max_reference_chars"@) == Some(Tree::Number("262144"@)),
        defaults_tree().field("max_tokens"@) is None,
        defaults_tree().field("debug"@) is None,
{
    let t = defaults_tree();
    let g = fields_defaults(global_settings(), true);
    let n = Provider::every().len() as int;
    lemma_global_names();
    lemma_provider_names();
    crate::resolve_laws::lemma_declared_defaults();
    assert forall|i: int| 0 <= i < 10 implies t.field((#[trigger] global_settings()[i]).name)
        == g.field(global_settings()[i].name) by {
        lemma_defaults_at_other_names(n, global_settings()[i].name);
    }
    assert forall|i: int| 0 <= i < 10 && (#[trigger] global_settings()[i]).default
        is None implies g.field(global_settings()[i].name) is None by {
        let key = global_settings()[i].name;
        lemma_defaults_bindings(global_settings(), true, key);
        if g.field(key) is Some {
            let j = choose|j: int|
                0 <= j < global_settings().len() && (#[trigger] global_settings()[j]).name == key
                    && global_settings()[j].default is Some;
            assert(j == i);
        }
    }
    assert(global_settings()[0].default is None);
    assert(global_settings()[1].default is None);
    assert(global_settings()[8].default is None);
    assert(global_settings()[9].default is None);
    crate::default_laws::lemma_fields_defaults_hit(global_settings(), true, 2);
    crate::default_laws::lemma_fields_defaults_hit(global_settings(), true, 3);
    crate::default_laws::lemma_fields_defaults_hit(global_settings(), true, 5);
    crate::default_laws::lemma_fields_defaults_hit(global_settings(), true, 6);
    crate::default_laws::lemma_fields_defaults_hit(global_settings(), true, 7);
    assert(t.field("provider"@) is None);
    assert(t.field("model"@) is None);
    assert(t.field("temperature"@) == Some(Tree::Number("0.05"@)));
    assert(t.field("suggestion_count"@) == Some(Tree::Number("3"@)));
    assert(t.field("frontend"@) == Some(Tree::Text("dialog"@)));
    assert(t.field("output_format"@) == Some(Tree::Text("human"@)));
    assert(t.field("max_reference_chars"@) == Some(Tree::Number("262144"@)));
    assert(t.field("max_tokens"@) is None);
    assert(t.field("debug"@) is None);
    reveal_strlit("dialog");
    reveal_strlit("human");
}

/// The section of the provider `p` among decoded settings.
pub open spec fn parsed_section(parsed: ParsedSpec, p: Provider) -> Option<CredsSpec> {
    match p {
        Provider::OpenAI => parsed.openai,
        Provider::Groq => parsed.groq,
        Provider::Azure => parsed.azure,
        Provider::Ollama => parsed.ollama,
        Provider::Mistral => parsed.mistral,
    }
}

/// The section of a provider in the layer of defaults decodes to the
/// declared defaults of the provider's fields.
proof fn lemma_default_section(p: Provider)
    ensures
        crate::decode::section_failure(
            defaults_tree().field(provider_spec(p).name),
            provider_spec(p).name,
        ) is None,
        creds_or_blank(
            crate::decode::section_value(
                defaults_tree().field(provider_spec(p).name),
                provider_spec(p).name,
            ),
        ).max_tokens is None,
        forall|i: int|
            0 <= i < provider_spec(p).all_fields().len() ==> creds_or_blank(
                crate::decode::section_value(
                    defaults_tree().field(provider_spec(p).name),
                    provider_spec(p).name,
                ),
            ).field((#[trigger] provider_spec(p).all_fields()[i]).name) == provider_spec(
                p,
            ).all_fields()[i].default,
{
    let fields = provider_spec(p).all_fields();
    let section = fields_defaults(fields, false);
    let name = provider_spec(p).name;
    lemma_defaults_at_provider(Provider::every().len() as int, p);
    lemma_fields_defaults_shape(fields, false);
    lemma_default_section_decodes(p, name);
    if section.entries().len() == 0 {
        assert forall|i: int| 0 <= i < fields.len() implies CredsSpec::blank().field(
            (#[trigger] fields[i]).name,
        ) == fields[i].default by {
            if fields[i].default is Some {
                crate::field_names::lemma_provider_fields(p);
                crate::default_laws::lemma_fields_defaults_hit(fields, false, i);
                crate::tree::lemma_key_index(section.entries(), fields[i].name);
            }
        }
    }
}

/// The declared defaults are sound. The layer of defaults decodes without
/// a failure: every global setting to what its declared default spells or
/// names, and to nothing where it has none; and every field of every
/// provider to its declared default, and to nothing where it has none.
pub proof fn law_defaults_decode()
    ensures
        parsed_of(defaults_tree()) is Ok,
        parsed_of(defaults_tree())->Ok_0.globals == (GlobalsSpec {
            provider: None,
            model: None,
            temperature: Some("0.05"@),
            suggestion_count: Some(3u32),
            frontend: Some(Frontend::Dialog),
            output_format: Some(OutputFormat::Human),
            max_reference_chars: Some(262144u32),
            max_tokens: None,
            debug: None,
        }),
        forall|p: Provider, i: int|
            0 <= i < provider_spec(p).all_fields().len() ==> creds_or_blank(
                parsed_section(parsed_of(defaults_tree())->Ok_0, p),
            ).field((#[trigger] provider_spec(p).all_fields()[i]).name) == provider_spec(
                p,
            ).all_fields()[i].default,
        forall|p: Provider|
            creds_or_blank(
                #[trigger] parsed_section(parsed_of(defaults_tree())->Ok_0, p),
            ).max_tokens is None,
{
    let t = defaults_tree();
    lemma_default_globals_decode();
    lemma_default_section(Provider::OpenAI);
    lemma_default_section(Provider::Groq);
    lemma_default_section(Provider::Azure);
    lemma_default_section(Provider::Ollama);
    lemma_default_section(Provider::Mistral);
    assert(crate::decode::first_failure(t) is None);
    let parsed = parsed_of(t)->Ok_0;
    assert forall|p: Provider, i: int| 0 <= i < provider_spec(p).all_fields().len() implies creds_or_blank(
        parsed_section(parsed, p),
    ).field((#[trigger] provider_spec(p).all_fields()[i]).name) == provider_spec(
        p,
    ).all_fields()[i].default by {
        match p {
            Provider::OpenAI => {},
            Provider::Groq => {},
            Provider::Azure => {},
            Provider::Ollama => {},
            Provider::Mistral => {},
        }
    }
    assert forall|p: Provider|
        creds_or_blank(#[trigger] parsed_section(parsed, p)).max_tokens is None by {
        match p {
            Provider::OpenAI => {},
            Provider::Groq => {},
            Provider::Azure => {},
            Provider::Ollama => {},
            Provider::Mistral => {},
        }
    }
}

/// Every entry of a table of defaults holds what the default of a field
/// stands for.
proof fn lemma_defaults_entries(fields: Seq<FieldSpec>, skip_virtual: bool, a: int)
    requires
        0 <= a < fields_defaults(fields, skip_virtual).entries().len(),
    ensures
        is_default_of(
            fields,
            fields_defaults(fields, skip_virtual).entries()[a].0,
            fields_defaults(fields, skip_virtual).entries()[a].1,
        ),
{
    let t = fields_defaults(fields, skip_virtual);
    let e = t.entries();
    lemma_fields_defaults_shape(fields, skip_virtual);
    crate::tree::lemma_key_index_is(e, e[a].0, a);
    lemma_defaults_bindings(fields, skip_virtual, e[a].0);
}

/// The table of the defaults of a provider's fields is a section.
proof fn lemma_defaults_section(p: Provider)
    ensures
        is_section(fields_defaults(provider_spec(p).all_fields(), false)),
{
    let fields = provider_spec(p).all_fields();
    let t = fields_defaults(fields, false);
    lemma_fields_defaults_shape(fields, false);
    crate::field_names::lemma_provider_fields(p);
    assert forall|i: int| 0 <= i < fields.len() implies crate::text::dotless(
        (#[trigger] fields[i]).name,
    ) && fields[i].name.len() > 0 by {
        crate::field_names::lemma_field_names(fields[i].name, fields[i].name);
    }
    crate::default_laws::lemma_fields_defaults_plain(fields, false);
    assert forall|a: int| 0 <= a < t.entries().len() implies (#[trigger] t.entries()[a]).1.is_leaf() by {
        lemma_defaults_entries(fields, false, a);
    }
}

/// Whether every entry is a leaf or a section that is not empty.
spec fn leaves_and_sections(entries: Seq<(Seq<char>, Tree)>) -> bool {
    forall|a: int|
        0 <= a < entries.len() ==> (#[trigger] entries[a]).1.is_leaf() || (is_section(entries[a].1)
            && entries[a].1.entries().len() > 0)
}

/// The layer of defaults, as far as the first `n` providers, holds leaves
/// and sections that are not empty.
proof fn lemma_defaults_entries_upto(n: int)
    ensures
        leaves_and_sections(defaults_upto(n).entries()),
    decreases n,
{
    if n <= 0 || n > Provider::every().len() {
        let t = fields_defaults(global_settings(), true);
        crate::default_laws::lemma_global_defaults_are_leaves();
        assert forall|a: int| 0 <= a < t.entries().len() implies (#[trigger] t.entries()[a]).1.is_leaf() by {
            lemma_defaults_entries(global_settings(), true, a);
        }
    } else {
        lemma_defaults_entries_upto(n - 1);
        let head = defaults_upto(n - 1);
        let p = Provider::every()[n - 1];
        let section = fields_defaults(provider_spec(p).all_fields(), false);
        if section.entries().len() > 0 {
            lemma_defaults_section(p);
            crate::default_laws::lemma_defaults_upto_shape(n - 1, 0);
            let e = head.entries();
            let after = head.put(provider_spec(p).name, section).entries();
            crate::tree::lemma_key_index(e, provider_spec(p).name);
            assert forall|a: int| 0 <= a < after.len() implies (#[trigger] after[a]).1.is_leaf() || (
            is_section(after[a].1) && after[a].1.entries().len() > 0) by {
                if a < e.len() && after[a] == e[a] {
                } else {
                    assert(after[a] == (provider_spec(p).name, section));
                }
            }
        }
    }
}

/// The layer of defaults is a layer of two levels.
pub proof fn lemma_defaults_two_level()
    ensures
        is_two_level(defaults_tree()),
{
    let n = Provider::every().len() as int;
    crate::default_laws::lemma_defaults_upto_shape(n, 0);
    crate::default_laws::lemma_defaults_upto_plain(n);
    lemma_defaults_entries_upto(n);
}

/// A bare load resolves to the defaults. With no files, an environment in
/// which no variable is set and no flag on the command line, the merged
/// tree is the layer of defaults, and it resolves: no provider is selected
/// and no model is given; the other global settings have what their
/// declared defaults spell or name; every field of every provider has its
/// declared default, and nothing where it has none; and every setting is
/// attributed to the defaults.
pub proof fn law_bare_load_resolves(toml_path: Option<Seq<char>>, json_path: Option<Seq<char>>)
    ensures
        merged_layers(None, None, Map::empty(), no_flags()).tree == defaults_tree(),
        resolution(merged_layers(None, None, Map::empty(), no_flags()), toml_path, json_path)
            is Ok,
        ({
            let c = resolution(
                merged_layers(None, None, Map::empty(), no_flags()),
                toml_path,
                json_path,
            )->Ok_0;
            &&& c.provider == (ConfigValue {
                value: None::<Provider>,
                source: ConfigSource::Default,
            })
            &&& c.model == (ConfigValue {
                value: Seq::<char>::empty(),
                source: ConfigSource::Default,
            })
            &&& c.temperature == (ConfigValue { value: "0.05"@, source: ConfigSource::Default })
            &&& c.suggestion_count == (ConfigValue { value: 3u32, source: ConfigSource::Default })
            &&& c.frontend == (ConfigValue {
                value: Frontend::Dialog,
                source: ConfigSource::Default,
            })
            &&& c.output_format == (ConfigValue {
                value: OutputFormat::Human,
                source: ConfigSource::Default,
            })
            &&& c.max_reference_chars == (ConfigValue {
                value: 262144u32,
                source: ConfigSource::Default,
            })
            &&& c.max_tokens == (ConfigValue { value: None::<u32>, source: ConfigSource::Default })
            &&& c.debug == (ConfigValue {
                value: None::<crate::kinds::DebugLevel>,
                source: ConfigSource::Default,
            })
            &&& forall|p: Provider, i: int|
                0 <= i < provider_spec(p).all_fields().len() ==> c.creds(p).field(
                    (#[trigger] provider_spec(p).all_fields()[i]).name,
                ) == provider_spec(p).all_fields()[i].default
            &&& forall|p: Provider| (#[trigger] c.creds(p)).max_tokens is None
            &&& forall|path: Seq<char>| #[trigger] c.source_of(path) == ConfigSource::Default
            &&& c.effective_model() == Seq::<char>::empty()
            &&& c.effective_max_tokens() is None
        }),
{
    let m = merged_layers(None, None, Map::empty(), no_flags());
    crate::pipeline_laws::law_nothing_given_is_the_defaults();
    lemma_defaults_two_level();
    crate::rebuild_laws::law_merge_rebuilds(defaults_tree(), ConfigSource::Default);
    law_defaults_decode();
    let parsed = parsed_of(defaults_tree())->Ok_0;
    let c = resolution(m, toml_path, json_path)->Ok_0;
    assert(c == crate::config::resolved(parsed, m.sources, toml_path, json_path));
    assert forall|path: Seq<char>| #[trigger] c.source_of(path) == ConfigSource::Default by {
        assert(c.source_of(path) == m.source_of(path));
    }
    assert(c.provider.source == c.source_of("provider"@));
    assert(c.model.source == c.source_of("model"@));
    assert(c.temperature.source == c.source_of("temperature"@));
    assert(c.suggestion_count.source == c.source_of("suggestion_count"@));
    assert(c.frontend.source == c.source_of("frontend"@));
    assert(c.output_format.source == c.source_of("output_format"@));
    assert(c.max_reference_chars.source == c.source_of("max_reference_chars"@));
    assert(c.max_tokens.source == c.source_of("max_tokens"@));
    assert(c.debug.source == c.source_of("debug"@));
    assert forall|p: Provider| c.creds(p) == creds_or_blank(
        #[trigger] parsed_section(parsed, p),
    ) by {
        match p {
            Provider::OpenAI => {},
            Provider::Groq => {},
            Provider::Azure => {},
            Provider::Ollama => {},
            Provider::Mistral => {},
        }
    }
    assert forall|p: Provider, i: int| 0 <= i < provider_spec(p).all_fields().len() implies c.creds(
        p,
    ).field((#[trigger] provider_spec(p).all_fields()[i]).name) == provider_spec(
        p,
    ).all_fields()[i].default by {
        assert(c.creds(p) == creds_or_blank(parsed_section(parsed, p)));
    }
    assert forall|p: Provider| (#[trigger] c.creds(p)).max_tokens is None by {
        assert(c.creds(p) == creds_or_blank(parsed_section(parsed, p)));
    }
}

/// A path that the stronger layers leave alone holds the default. Where
/// the two files, the environment and the command line all leave a path
/// alone, the loaded tree holds at the path what the layer of defaults
/// holds there, or nothing where that layer holds nothing there, and the
/// path is attributed to the defaults.
pub proof fn law_spared_path_holds_the_default(
    toml: Option<Tree>,
    json: Option<Tree>,
    env: Map<Seq<char>, Seq<char>>,
    cli: CliSpec,
    path: Seq<char>,
)
    requires
        only_defaults_supply(toml, json, env, cli, path),
    ensures
        merged_layers(toml, json, env, cli).tree.lookup(path) == defaults_tree().lookup(path),
        merged_layers(toml, json, env, cli).source_of(path) == ConfigSource::Default,
{
    let layers = crate::pipeline_laws::pipeline(toml, json, env, cli);
    let start = Merged::start();
    crate::pipeline_laws::lemma_load_is_a_row(toml, json, env, cli);
    assert(layers[0] == (defaults_tree(), ConfigSource::Default));
    assert forall|k: int| 1 <= k < layers.len() implies leaves_alone(
        (#[trigger] layers[k]).0,
        path,
    ) by {
        if k == 1 {
        } else if k == 2 {
        } else if k == 3 {
        } else {
        }
    }
    crate::laws::law_first_layer_shows_through(start, layers, path);
    lemma_defaults_two_level();
    crate::rebuild_laws::law_merge_rebuilds(defaults_tree(), ConfigSource::Default);
    crate::pipeline_laws::lemma_only_marks(
        start,
        crate::builder::writes(defaults_tree()),
        ConfigSource::Default,
    );
    let defaults = start.merge(defaults_tree(), ConfigSource::Default);
    if defaults.sources.contains_key(path) {
        assert(defaults.sources[path] == ConfigSource::Default);
    }
}

/// At the path of two names stands the field of the field.
pub proof fn lemma_lookup_two(t: Tree, section: Seq<char>, name: Seq<char>)
    requires
        crate::text::dotless(section),
        crate::text::dotless(name),
    ensures
        t.lookup(crate::catalog::field_path(section, name)) == (match t.field(section) {
            Some(inner) => inner.field(name),
            None => None,
        }),
{
    crate::names::lemma_split_concat(section, name);
    crate::names::lemma_split_dotless(section);
    crate::names::lemma_split_dotless(name);
    let parts = seq![section, name];
    assert(crate::text::split_dots(crate::catalog::field_path(section, name)) =~= parts);
    assert(parts.drop_first() =~= seq![name]);
    assert(seq![name].drop_first() =~= Seq::<Seq<char>>::empty());
    match t.field(section) {
        Some(inner) => {
            match inner.field(name) {
                Some(leaf) => {
                    assert(leaf.at(Seq::<Seq<char>>::empty()) == Some(leaf));
                    assert(inner.at(seq![name]) == Some(leaf));
                },
                None => {
                    assert(inner.at(seq![name]) is None);
                },
            }
            assert(t.at(parts) == inner.at(seq![name]));
        },
        None => {
            assert(t.at(parts) is None);
        },
    }
}

/// The layer of defaults holds nothing at the path of a field of a
/// provider that has no declared default.
pub proof fn lemma_no_default_no_entry(p: Provider, i: int)
    requires
        0 <= i < provider_spec(p).all_fields().len(),
        provider_spec(p).all_fields()[i].default is None,
    ensures
        defaults_tree().lookup(
            crate::catalog::field_path(provider_spec(p).name, provider_spec(p).all_fields()[i].name),
        ) is None,
{
    let fields = provider_spec(p).all_fields();
    let f = fields[i];
    let section = fields_defaults(fields, false);
    lemma_provider_names();
    crate::field_names::lemma_provider_fields(p);
    crate::field_names::lemma_field_names(f.name, f.name);
    lemma_lookup_two(defaults_tree(), provider_spec(p).name, f.name);
    lemma_defaults_at_provider(Provider::every().len() as int, p);
    lemma_section_binding(p, f.name);
    if section.field(f.name) is Some {
        let j = choose|j: int|
            0 <= j < fields.len() && (#[trigger] fields[j]).name == f.name && fields[j].default
                is Some;
        assert(j == i);
    }
}

} // verus!
