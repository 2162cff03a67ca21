//! The tables themselves: the global settings and the providers.

use crate::kinds::Provider;
use crate::meta::field_views;
use crate::meta::opt_text;
use crate::meta::texts;
use crate::meta::FieldMeta;
use crate::meta::FieldOverride;
use crate::meta::FieldSpec;
use crate::meta::OverrideSpec;
use crate::meta::ProviderMeta;
use crate::meta::ProviderSpec;
use crate::meta::Section;
use crate::search::first_where;
use crate::search::lemma_first_where_found;
use crate::search::lemma_first_where_none;
use crate::text::concat3;
use vstd::prelude::*;

verus! {

/// A global setting; none of them is sensitive.
pub open spec fn setting(
    name: Seq<char>,
    env_var: Option<Seq<char>>,
    env_aliases: Seq<Seq<char>>,
    description: Seq<char>,
    default: Option<Seq<char>>,
    required: bool,
    section: Section,
    deprecated: bool,
    virtual_field: bool,
) -> FieldSpec {
    FieldSpec {
        name,
        env_var,
        env_aliases,
        description,
        default,
        required,
        section,
        deprecated,
        sensitive: false,
        virtual_field,
    }
}

/// A field that one provider has on its own.
pub open spec fn own_field(
    name: Seq<char>,
    env_var: Option<Seq<char>>,
    description: Seq<char>,
    default: Option<Seq<char>>,
    required: bool,
) -> FieldSpec {
    setting(
        name,
        env_var,
        Seq::empty(),
        description,
        default,
        required,
        Section::ProviderSpecific,
        false,
        false,
    )
}

fn setting_meta(
    name: &'static str,
    env_var: Option<&'static str>,
    env_aliases: Vec<&'static str>,
    description: &'static str,
    default: Option<&'static str>,
    required: bool,
    section: Section,
    deprecated: bool,
    virtual_field: bool,
) -> (r: FieldMeta)
    ensures
        r@ == setting(
            name@,
            opt_text(env_var),
            texts(env_aliases@),
            description@,
            opt_text(default),
            required,
            section,
            deprecated,
            virtual_field,
        ),
{
    FieldMeta {
        name,
        env_var,
        env_aliases,
        description,
        default,
        required,
        section,
        deprecated,
        sensitive: false,
        virtual_field,
    }
}

fn own_field_meta(
    name: &'static str,
    env_var: Option<&'static str>,
    description: &'static str,
    default: Option<&'static str>,
    required: bool,
) -> (r: FieldMeta)
    ensures
        r@ == own_field(name@, opt_text(env_var), description@, opt_text(default), required),
{
    let aliases: Vec<&'static str> = Vec::new();
    proof {
        assert(texts(aliases@) =~= Seq::<Seq<char>>::empty());
    }
    setting_meta(
        name,
        env_var,
        aliases,
        description,
        default,
        required,
        Section::ProviderSpecific,
        false,
        false,
    )
}

fn names1(a: &'static str) -> (r: Vec<&'static str>)
    ensures
        texts(r@) == seq![a@],
{
    let mut r: Vec<&'static str> = Vec::new();
    r.push(a);
    proof {
        assert(texts(r@) =~= seq![a@]);
    }
    r
}

fn names0() -> (r: Vec<&'static str>)
    ensures
        texts(r@) == Seq::<Seq<char>>::empty(),
{
    let r: Vec<&'static str> = Vec::new();
    proof {
        assert(texts(r@) =~= Seq::<Seq<char>>::empty());
    }
    r
}

/// The global settings, in the order in which they are read and shown.
pub open spec fn global_settings() -> Seq<FieldSpec> {
    seq![
        setting("provider"@, Some("SHAI_API_PROVIDER"@), seq!["SHAI_PROVIDER"@], "Provider to use"@, None, true, Section::Provider, false, false),
        setting("model"@, Some("SHAI_MODEL"@), Seq::empty(), "Override model (takes precedence over provider-specific)"@, None, false, Section::Provider, false, false),
        setting("temperature"@, Some("SHAI_TEMPERATURE"@), Seq::empty(), "Sampling temperature (0.0 = deterministic, 1.0 = creative)"@, Some("0.05"@), false, Section::Provider, false, false),
        setting("suggestion_count"@, Some("SHAI_SUGGESTION_COUNT"@), Seq::empty(), "Number of suggestions to generate"@, Some("3"@), false, Section::Suggest, false, false),
        setting("skip_confirm"@, Some("SHAI_SKIP_CONFIRM"@), Seq::empty(), "Legacy: skip confirmation (implies frontend=noninteractive)"@, Some("false"@), false, Section::Ui, true, true),
        setting("frontend"@, Some("SHAI_FRONTEND"@), Seq::empty(), "UI mode: dialog, readline, or noninteractive"@, Some("dialog"@), false, Section::Ui, false, false),
        setting("output_format"@, Some("SHAI_OUTPUT_FORMAT"@), Seq::empty(), "Output format: human or json"@, Some("human"@), false, Section::Ui, false, false),
        setting("max_reference_chars"@, Some("SHAI_MAX_REFERENCE_CHARS"@), Seq::empty(), "Max characters for man page references in explain"@, Some("262144"@), false, Section::Explain, false, false),
        setting("max_tokens"@, Some("SHAI_MAX_TOKENS"@), Seq::empty(), "Max tokens for an AI completion (optional, API auto-calculates when omitted)"@, None, false, Section::Provider, false, false),
        setting("debug"@, Some("SHAI_DEBUG"@), Seq::empty(), "Debug log level"@, None, false, Section::Ui, false, false),
    ]
}

/// The global settings, in the order in which they are read and shown.
pub fn global_settings_metadata() -> (r: Vec<FieldMeta>)
    ensures
        field_views(r@) == global_settings(),
{
    let mut r: Vec<FieldMeta> = Vec::new();
    r.push(setting_meta("provider", Some("SHAI_API_PROVIDER"), names1("SHAI_PROVIDER"), "Provider to use", None, true, Section::Provider, false, false));
    r.push(setting_meta("model", Some("SHAI_MODEL"), names0(), "Override model (takes precedence over provider-specific)", None, false, Section::Provider, false, false));
    r.push(setting_meta("temperature", Some("SHAI_TEMPERATURE"), names0(), "Sampling temperature (0.0 = deterministic, 1.0 = creative)", Some("0.05"), false, Section::Provider, false, false));
    r.push(setting_meta("suggestion_count", Some("SHAI_SUGGESTION_COUNT"), names0(), "Number of suggestions to generate", Some("3"), false, Section::Suggest, false, false));
    r.push(setting_meta("skip_confirm", Some("SHAI_SKIP_CONFIRM"), names0(), "Legacy: skip confirmation (implies frontend=noninteractive)", Some("false"), false, Section::Ui, true, true));
    r.push(setting_meta("frontend", Some("SHAI_FRONTEND"), names0(), "UI mode: dialog, readline, or noninteractive", Some("dialog"), false, Section::Ui, false, false));
    r.push(setting_meta("output_format", Some("SHAI_OUTPUT_FORMAT"), names0(), "Output format: human or json", Some("human"), false, Section::Ui, false, false));
    r.push(setting_meta("max_reference_chars", Some("SHAI_MAX_REFERENCE_CHARS"), names0(), "Max characters for man page references in explain", Some("262144"), false, Section::Explain, false, false));
    r.push(setting_meta("max_tokens", Some("SHAI_MAX_TOKENS"), names0(), "Max tokens for an AI completion (optional, API auto-calculates when omitted)", None, false, Section::Provider, false, false));
    r.push(setting_meta("debug", Some("SHAI_DEBUG"), names0(), "Debug log level", None, false, Section::Ui, false, false));
    proof {
        assert(field_views(r@) =~= global_settings());
    }
    r
}

/// What is known about the provider `p`.
pub open spec fn provider_spec(p: Provider) -> ProviderSpec {
    match p {
        Provider::OpenAI => ProviderSpec {
            name: "openai"@,
            display_name: "OpenAI"@,
            description: "OpenAI API (GPT-3.5, GPT-4, etc.)"@,
            field_overrides: seq![
                OverrideSpec { name: "api_key"@, env_var: Some("OPENAI_API_KEY"@), default: None, required: None },
                OverrideSpec { name: "api_base"@, env_var: Some("OPENAI_API_BASE"@), default: Some("https://api.openai.com"@), required: None },
                OverrideSpec { name: "model"@, env_var: Some("OPENAI_MODEL"@), default: Some("gpt-5"@), required: None },
                OverrideSpec { name: "max_tokens"@, env_var: Some("OPENAI_MAX_TOKENS"@), default: None, required: None },
            ],
            extra_fields: seq![
                own_field("organization"@, Some("OPENAI_ORGANIZATION"@), "Organization ID for API billing (for multi-org accounts)"@, None, false),
            ],
            skip_common: Seq::empty(),
        },
        Provider::Groq => ProviderSpec {
            name: "groq"@,
            display_name: "Groq"@,
            description: "Groq API (fast inference)"@,
            field_overrides: seq![
                OverrideSpec { name: "api_key"@, env_var: Some("GROQ_API_KEY"@), default: None, required: Some(false) },
                OverrideSpec { name: "api_base"@, env_var: None, default: Some("https://api.groq.com/openai"@), required: None },
                OverrideSpec { name: "model"@, env_var: Some("GROQ_MODEL"@), default: Some("openai/gpt-oss-120b"@), required: None },
                OverrideSpec { name: "max_tokens"@, env_var: Some("GROQ_MAX_TOKENS"@), default: None, required: None },
            ],
            extra_fields: Seq::empty(),
            skip_common: Seq::empty(),
        },
        Provider::Azure => ProviderSpec {
            name: "azure"@,
            display_name: "Azure OpenAI"@,
            description: "Azure OpenAI Service"@,
            field_overrides: seq![
                OverrideSpec { name: "api_key"@, env_var: Some("AZURE_API_KEY"@), default: None, required: Some(false) },
                OverrideSpec { name: "api_base"@, env_var: Some("AZURE_API_BASE"@), default: None, required: Some(true) },
                OverrideSpec { name: "model"@, env_var: None, default: None, required: None },
                OverrideSpec { name: "max_tokens"@, env_var: Some("AZURE_MAX_TOKENS"@), default: None, required: None },
            ],
            extra_fields: seq![
                own_field("deployment_name"@, Some("AZURE_DEPLOYMENT_NAME"@), "Deployment name for your model"@, None, true),
                own_field("api_version"@, Some("OPENAI_API_VERSION"@), "Azure API version"@, Some("2023-05-15"@), false),
            ],
            skip_common: seq!["model"@],
        },
        Provider::Ollama => ProviderSpec {
            name: "ollama"@,
            display_name: "Ollama"@,
            description: "Local Ollama instance (no API key required)"@,
            field_overrides: seq![
                OverrideSpec { name: "api_key"@, env_var: None, default: None, required: None },
                OverrideSpec { name: "api_base"@, env_var: Some("OLLAMA_API_BASE"@), default: Some("http://localhost:11434"@), required: None },
                OverrideSpec { name: "model"@, env_var: Some("OLLAMA_MODEL"@), default: Some("gpt-oss:120b-cloud"@), required: None },
                OverrideSpec { name: "max_tokens"@, env_var: Some("OLLAMA_MAX_TOKENS"@), default: None, required: None },
            ],
            extra_fields: Seq::empty(),
            skip_common: seq!["api_key"@],
        },
        Provider::Mistral => ProviderSpec {
            name: "mistral"@,
            display_name: "Mistral AI"@,
            description: "Mistral AI API"@,
            field_overrides: seq![
                OverrideSpec { name: "api_key"@, env_var: Some("MISTRAL_API_KEY"@), default: None, required: None },
                OverrideSpec { name: "api_base"@, env_var: Some("MISTRAL_API_BASE"@), default: Some("https://api.mistral.ai"@), required: None },
                OverrideSpec { name: "model"@, env_var: Some("MISTRAL_MODEL"@), default: Some("codestral-2508"@), required: None },
                OverrideSpec { name: "max_tokens"@, env_var: Some("MISTRAL_MAX_TOKENS"@), default: None, required: None },
            ],
            extra_fields: Seq::empty(),
            skip_common: Seq::empty(),
        },
    }
}

impl Provider {
    /// What is known about this provider.
    pub fn metadata(&self) -> (r: ProviderMeta)
        ensures
            r@ == provider_spec(*self),
    {
        match self {
            Provider::OpenAI => {
                let mut field_overrides: Vec<FieldOverride> = Vec::new();
                field_overrides.push(FieldOverride { name: "api_key", env_var: Some("OPENAI_API_KEY"), default: None, required: None });
                field_overrides.push(FieldOverride { name: "api_base", env_var: Some("OPENAI_API_BASE"), default: Some("https://api.openai.com"), required: None });
                field_overrides.push(FieldOverride { name: "model", env_var: Some("OPENAI_MODEL"), default: Some("gpt-5"), required: None });
                field_overrides.push(FieldOverride { name: "max_tokens", env_var: Some("OPENAI_MAX_TOKENS"), default: None, required: None });
                let mut extra_fields: Vec<FieldMeta> = Vec::new();
                extra_fields.push(own_field_meta("organization", Some("OPENAI_ORGANIZATION"), "Organization ID for API billing (for multi-org accounts)", None, false));
                let r = ProviderMeta {
                    name: "openai",
                    display_name: "OpenAI",
                    description: "OpenAI API (GPT-3.5, GPT-4, etc.)",
                    field_overrides,
                    extra_fields,
                    skip_common: names0(),
                };
                proof {
                    assert(r@.field_overrides =~= provider_spec(*self).field_overrides);
                    assert(r@.extra_fields =~= provider_spec(*self).extra_fields);
                }
                r
            },
            Provider::Groq => {
                let mut field_overrides: Vec<FieldOverride> = Vec::new();
                field_overrides.push(FieldOverride { name: "api_key", env_var: Some("GROQ_API_KEY"), default: None, required: Some(false) });
                field_overrides.push(FieldOverride { name: "api_base", env_var: None, default: Some("https://api.groq.com/openai"), required: None });
                field_overrides.push(FieldOverride { name: "model", env_var: Some("GROQ_MODEL"), default: Some("openai/gpt-oss-120b"), required: None });
                field_overrides.push(FieldOverride { name: "max_tokens", env_var: Some("GROQ_MAX_TOKENS"), default: None, required: None });
                let mut extra_fields: Vec<FieldMeta> = Vec::new();
                let r = ProviderMeta {
                    name: "groq",
                    display_name: "Groq",
                    description: "Groq API (fast inference)",
                    field_overrides,
                    extra_fields,
                    skip_common: names0(),
                };
                proof {
                    assert(r@.field_overrides =~= provider_spec(*self).field_overrides);
                    assert(r@.extra_fields =~= provider_spec(*self).extra_fields);
                }
                r
            },
            Provider::Azure => {
                let mut field_overrides: Vec<FieldOverride> = Vec::new();
                field_overrides.push(FieldOverride { name: "api_key", env_var: Some("AZURE_API_KEY"), default: None, required: Some(false) });
                field_overrides.push(FieldOverride { name: "api_base", env_var: Some("AZURE_API_BASE"), default: None, required: Some(true) });
                field_overrides.push(FieldOverride { name: "model", env_var: None, default: None, required: None });
                field_overrides.push(FieldOverride { name: "max_tokens", env_var: Some("AZURE_MAX_TOKENS"), default: None, required: None });
                let mut extra_fields: Vec<FieldMeta> = Vec::new();
                extra_fields.push(own_field_meta("deployment_name", Some("AZURE_DEPLOYMENT_NAME"), "Deployment name for your model", None, true));
                extra_fields.push(own_field_meta("api_version", Some("OPENAI_API_VERSION"), "Azure API version", Some("2023-05-15"), false));
                let r = ProviderMeta {
                    name: "azure",
                    display_name: "Azure OpenAI",
                    description: "Azure OpenAI Service",
                    field_overrides,
                    extra_fields,
                    skip_common: names1("model"),
                };
                proof {
                    assert(r@.field_overrides =~= provider_spec(*self).field_overrides);
                    assert(r@.extra_fields =~= provider_spec(*self).extra_fields);
                }
                r
            },
            Provider::Ollama => {
                let mut field_overrides: Vec<FieldOverride> = Vec::new();
                field_overrides.push(FieldOverride { name: "api_key", env_var: None, default: None, required: None });
                field_overrides.push(FieldOverride { name: "api_base", env_var: Some("OLLAMA_API_BASE"), default: Some("http://localhost:11434"), required: None });
                field_overrides.push(FieldOverride { name: "model", env_var: Some("OLLAMA_MODEL"), default: Some("gpt-oss:120b-cloud"), required: None });
                field_overrides.push(FieldOverride { name: "max_tokens", env_var: Some("OLLAMA_MAX_TOKENS"), default: None, required: None });
                let mut extra_fields: Vec<FieldMeta> = Vec::new();
                let r = ProviderMeta {
                    name: "ollama",
                    display_name: "Ollama",
                    description: "Local Ollama instance (no API key required)",
                    field_overrides,
                    extra_fields,
                    skip_common: names1("api_key"),
                };
                proof {
                    assert(r@.field_overrides =~= provider_spec(*self).field_overrides);
                    assert(r@.extra_fields =~= provider_spec(*self).extra_fields);
                }
                r
            },
            Provider::Mistral => {
                let mut field_overrides: Vec<FieldOverride> = Vec::new();
                field_overrides.push(FieldOverride { name: "api_key", env_var: Some("MISTRAL_API_KEY"), default: None, required: None });
                field_overrides.push(FieldOverride { name: "api_base", env_var: Some("MISTRAL_API_BASE"), default: Some("https://api.mistral.ai"), required: None });
                field_overrides.push(FieldOverride { name: "model", env_var: Some("MISTRAL_MODEL"), default: Some("codestral-2508"), required: None });
                field_overrides.push(FieldOverride { name: "max_tokens", env_var: Some("MISTRAL_MAX_TOKENS"), default: None, required: None });
                let mut extra_fields: Vec<FieldMeta> = Vec::new();
                let r = ProviderMeta {
                    name: "mistral",
                    display_name: "Mistral AI",
                    description: "Mistral AI API",
                    field_overrides,
                    extra_fields,
                    skip_common: names0(),
                };
                proof {
                    assert(r@.field_overrides =~= provider_spec(*self).field_overrides);
                    assert(r@.extra_fields =~= provider_spec(*self).extra_fields);
                }
                r
            },
        }
    }
}

/// What is known about every provider, in table order.
pub fn provider_metadata() -> (r: Vec<ProviderMeta>)
    ensures
        r@.len() == Provider::every().len(),
        forall|i: int| 0 <= i < r@.len() ==> (#[trigger] r@[i])@ == provider_spec(Provider::every()[i]),
{
    let all = Provider::all();
    let mut r: Vec<ProviderMeta> = Vec::new();
    let mut i: usize = 0;
    while i < all.len()
        invariant
            i <= all.len(),
            all@ == Provider::every(),
            r@.len() == i,
            forall|k: int| 0 <= k < i ==> (#[trigger] r@[k])@ == provider_spec(Provider::every()[k]),
        decreases all.len() - i,
    {
        let meta = all[i].metadata();
        r.push(meta);
        i = i + 1;
    }
    r
}

/// The dotted path of a provider's field.
pub open spec fn field_path(provider: Seq<char>, field: Seq<char>) -> Seq<char> {
    provider + seq!['.'] + field
}

/// The variable of the first field at `path` among the providers from
/// position `i` on, each provider's fields taken in order.
pub open spec fn provider_env_var_for(path: Seq<char>, i: int) -> Option<Seq<char>>
    decreases Provider::every().len() - i,
{
    if i < 0 || i >= Provider::every().len() {
        None
    } else {
        let p = provider_spec(Provider::every()[i]);
        match first_where(p.all_fields(), |f: FieldSpec| field_path(p.name, f.name) == path) {
            Some(f) => f.env_var,
            None => provider_env_var_for(path, i + 1),
        }
    }
}

/// The environment variable that feeds the setting at `path`: that of the
/// global setting of that name, else that of the first provider field at that
/// path.
pub open spec fn env_var_for(path: Seq<char>) -> Option<Seq<char>> {
    match first_where(global_settings(), |f: FieldSpec| f.name == path) {
        Some(f) => f.env_var,
        None => provider_env_var_for(path, 0),
    }
}

/// The environment variable that feeds the setting at `field_path`.
pub fn env_var_for_field(field_path: &str) -> (r: Option<&'static str>)
    ensures
        opt_text(r) == env_var_for(field_path@),
{
    let globals = global_settings_metadata();
    let ghost gviews = field_views(globals@);
    let ghost named = |f: FieldSpec| f.name == field_path@;
    let mut i: usize = 0;
    while i < globals.len()
        invariant
            i <= globals.len(),
            gviews == field_views(globals@),
            gviews == global_settings(),
            named == (|f: FieldSpec| f.name == field_path@),
            forall|j: int| 0 <= j < i ==> !named(#[trigger] gviews[j]),
        decreases globals.len() - i,
    {
        proof {
            assert(gviews[i as int] == globals@[i as int]@);
        }
        if globals[i].name.eq(field_path) {
            proof {
                lemma_first_where_found(gviews, named, i as int);
            }
            return globals[i].env_var;
        }
        i = i + 1;
    }
    proof {
        lemma_first_where_none(gviews, named);
    }
    let providers = provider_metadata();
    let mut p: usize = 0;
    while p < providers.len()
        invariant
            p <= providers.len(),
            providers@.len() == Provider::every().len(),
            forall|k: int|
                0 <= k < providers@.len() ==> (#[trigger] providers@[k])@ == provider_spec(
                    Provider::every()[k],
                ),
            env_var_for(field_path@) == provider_env_var_for(field_path@, p as int),
        decreases providers.len() - p,
    {
        let provider = &providers[p];
        let ghost spec = provider_spec(Provider::every()[p as int]);
        let ghost at_path = |f: FieldSpec| self::field_path(spec.name, f.name) == field_path@;
        let fields = provider.all_fields();
        let ghost fviews = field_views(fields@);
        let mut j: usize = 0;
        while j < fields.len()
            invariant
                j <= fields.len(),
                provider@ == spec,
                fviews == field_views(fields@),
                fviews == spec.all_fields(),
                at_path == (|f: FieldSpec| self::field_path(spec.name, f.name) == field_path@),
                forall|k: int| 0 <= k < j ==> !at_path(#[trigger] fviews[k]),
                0 <= p < Provider::every().len(),
                spec == provider_spec(Provider::every()[p as int]),
                env_var_for(field_path@) == provider_env_var_for(field_path@, p as int),
            decreases fields.len() - j,
        {
            proof {
                assert(fviews[j as int] == fields@[j as int]@);
                reveal_strlit(".");
                assert("."@ =~= seq!['.']);
            }
            let path = concat3(provider.name, ".", fields[j].name);
            if path.as_str().eq(field_path) {
                proof {
                    lemma_first_where_found(fviews, at_path, j as int);
                }
                return fields[j].env_var;
            }
            j = j + 1;
        }
        proof {
            lemma_first_where_none(fviews, at_path);
        }
        p = p + 1;
    }
    None
}

} // verus!
