//! The resolved configuration: typed settings with their sources, the
//! effective values that fall back from one level to the next, and
//! validation of the selected provider.

use crate::builder::ConfigBuilder;
use crate::catalog::field_path;
use crate::catalog::provider_spec;
use crate::decode::opt_creds;
use crate::decode::CredsSpec;
use crate::decode::ParsedSpec;
use crate::decode::ProviderCredentials;
use crate::decode::TomlConfig;
use crate::kinds::DebugLevel;
use crate::kinds::Frontend;
use crate::kinds::OutputFormat;
use crate::kinds::Provider;
use crate::layers::opt_view;
use crate::meta::field_views;
use crate::meta::FieldMeta;
use crate::meta::FieldSpec;
use crate::pathmap::PathMap;
use crate::source::ConfigSource;
use crate::source::ConfigValue;
use crate::text::owned;
use vstd::prelude::*;

verus! {

/// A required setting that the selected provider lacks.
#[derive(Debug, PartialEq, Eq)]
pub struct ValidationError {
    pub field: String,
    pub description: String,
    /// How to supply the setting.
    pub hint: String,
}

/// The mathematical value of a [`ValidationError`].
pub ghost struct Problem {
    pub field: Seq<char>,
    pub description: Seq<char>,
    pub hint: Seq<char>,
}

impl View for ValidationError {
    type V = Problem;

    open spec fn view(&self) -> Problem {
        Problem { field: self.field@, description: self.description@, hint: self.hint@ }
    }
}

/// The views of a list of validation errors.
pub open spec fn problem_views(errors: Seq<ValidationError>) -> Seq<Problem> {
    errors.map_values(|e: ValidationError| e@)
}

/// The settings of every provider.
#[derive(Debug)]
pub struct ProviderTable {
    pub openai: ProviderCredentials,
    pub groq: ProviderCredentials,
    pub azure: ProviderCredentials,
    pub ollama: ProviderCredentials,
    pub mistral: ProviderCredentials,
}

impl ProviderTable {
    /// The settings of the provider `p`.
    pub open spec fn creds(self, p: Provider) -> CredsSpec {
        match p {
            Provider::OpenAI => self.openai@,
            Provider::Groq => self.groq@,
            Provider::Azure => self.azure@,
            Provider::Ollama => self.ollama@,
            Provider::Mistral => self.mistral@,
        }
    }

    /// The settings of the provider `p`.
    pub fn get(&self, p: &Provider) -> (r: &ProviderCredentials)
        ensures
            r@ == self.creds(*p),
    {
        match p {
            Provider::OpenAI => &self.openai,
            Provider::Groq => &self.groq,
            Provider::Azure => &self.azure,
            Provider::Ollama => &self.ollama,
            Provider::Mistral => &self.mistral,
        }
    }
}

/// The resolved configuration. Every setting carries the layer that supplied it.
#[derive(Debug)]
pub struct AppConfig {
    pub provider: ConfigValue<Option<Provider>>,
    pub model: ConfigValue<String>,
    /// The sampling temperature, as the text of the number.
    pub temperature: ConfigValue<String>,
    pub frontend: ConfigValue<Frontend>,
    pub output_format: ConfigValue<OutputFormat>,
    pub suggestion_count: ConfigValue<u32>,
    pub max_reference_chars: ConfigValue<u32>,
    pub max_tokens: ConfigValue<Option<u32>>,
    pub debug: ConfigValue<Option<DebugLevel>>,
    /// The settings of every provider, blank where nothing was given.
    pub providers: ProviderTable,
    /// For every path that a layer wrote, the layer that wrote last.
    pub sources: PathMap<ConfigSource>,
    /// The TOML file that was loaded, if one was.
    pub toml_path: Option<String>,
    /// The JSON file that was loaded, if one was.
    pub json_path: Option<String>,
}

/// The mathematical value of an [`AppConfig`].
pub ghost struct ConfigSpec {
    pub provider: ConfigValue<Option<Provider>>,
    pub model: ConfigValue<Seq<char>>,
    pub temperature: ConfigValue<Seq<char>>,
    pub frontend: ConfigValue<Frontend>,
    pub output_format: ConfigValue<OutputFormat>,
    pub suggestion_count: ConfigValue<u32>,
    pub max_reference_chars: ConfigValue<u32>,
    pub max_tokens: ConfigValue<Option<u32>>,
    pub debug: ConfigValue<Option<DebugLevel>>,
    pub openai: CredsSpec,
    pub groq: CredsSpec,
    pub azure: CredsSpec,
    pub ollama: CredsSpec,
    pub mistral: CredsSpec,
    /// For every path that a layer wrote, the layer that wrote last.
    pub sources: Map<Seq<char>, ConfigSource>,
    pub toml_path: Option<Seq<char>>,
    pub json_path: Option<Seq<char>>,
}

/// The layer that `sources` names for `path`; a path without a record counts
/// as a default.
pub open spec fn source_in(sources: Map<Seq<char>, ConfigSource>, path: Seq<char>) -> ConfigSource {
    if sources.contains_key(path) {
        sources[path]
    } else {
        ConfigSource::Default
    }
}

/// A setting is missing when it is absent or empty.
pub open spec fn missing(v: Option<Seq<char>>) -> bool {
    match v {
        Some(s) => s.len() == 0,
        None => true,
    }
}

/// How to supply the field `f` of the provider called `provider`: by its
/// variable, where it has one, or in the file.
pub open spec fn hint_for(provider: Seq<char>, f: FieldSpec) -> Seq<char> {
    match f.env_var {
        Some(v) => "Set "@ + v + " or add ["@ + provider + "]."@ + f.name + " to config.toml"@,
        None => "Add ["@ + provider + "]."@ + f.name + " to config.toml"@,
    }
}

/// One problem for every field among `fields` that is required and missing
/// from `creds`, in the order of the fields.
pub open spec fn problems(creds: CredsSpec, provider: Seq<char>, fields: Seq<FieldSpec>) -> Seq<
    Problem,
>
    decreases fields.len(),
{
    if fields.len() == 0 {
        Seq::empty()
    } else {
        let head = problems(creds, provider, fields.drop_last());
        let f = fields.last();
        if f.required && missing(creds.field(f.name)) {
            head.push(
                Problem { field: f.name, description: f.description, hint: hint_for(provider, f) },
            )
        } else {
            head
        }
    }
}

impl ConfigSpec {
    /// The settings of the provider `p`.
    pub open spec fn creds(self, p: Provider) -> CredsSpec {
        match p {
            Provider::OpenAI => self.openai,
            Provider::Groq => self.groq,
            Provider::Azure => self.azure,
            Provider::Ollama => self.ollama,
            Provider::Mistral => self.mistral,
        }
    }

    /// The layer that supplied `path`.
    pub open spec fn source_of(self, path: Seq<char>) -> ConfigSource {
        source_in(self.sources, path)
    }

    /// The default model of the provider `p`, or the empty text.
    pub open spec fn default_model(p: Provider) -> Seq<char> {
        match provider_spec(p).resolved_field("model"@) {
            Some(f) => match f.default {
                Some(d) => d,
                None => Seq::empty(),
            },
            None => Seq::empty(),
        }
    }

    /// The model to use: the global model where it is not empty, else the
    /// model of the selected provider where that is given and not empty, else
    /// the default model of the selected provider, else the empty text.
    pub open spec fn effective_model(self) -> Seq<char> {
        if self.model.value.len() > 0 {
            self.model.value
        } else {
            match self.provider.value {
                Some(p) => match self.creds(p).model {
                    Some(m) if m.len() > 0 => m,
                    _ => Self::default_model(p),
                },
                None => Seq::empty(),
            }
        }
    }

    /// The layer that the effective model is attributed to, which is the
    /// layer that supplied it: that of the global model where it is not
    /// empty; else the layer that wrote the model of the selected provider,
    /// where that model is given and not empty; else the defaults, which
    /// supply the provider's default model, or nothing.
    pub open spec fn effective_model_source(self) -> ConfigSource {
        if self.model.value.len() > 0 {
            self.model.source
        } else {
            match self.provider.value {
                Some(p) => if missing(self.creds(p).model) {
                    ConfigSource::Default
                } else {
                    self.source_of(field_path(provider_spec(p).name, "model"@))
                },
                None => ConfigSource::Default,
            }
        }
    }

    /// The token limit to use: the global limit where it is given, else the
    /// limit of the selected provider.
    pub open spec fn effective_max_tokens(self) -> Option<u32> {
        if self.max_tokens.value is Some {
            self.max_tokens.value
        } else {
            match self.provider.value {
                Some(p) => self.creds(p).max_tokens,
                None => None,
            }
        }
    }

    /// The layer that the effective token limit is attributed to, which is
    /// the layer that supplied it: that of the global limit where it is
    /// given; else the layer that wrote the limit of the selected provider,
    /// where that limit is given; else the defaults, which supply nothing.
    pub open spec fn effective_max_tokens_source(self) -> ConfigSource {
        if self.max_tokens.value is Some {
            self.max_tokens.source
        } else {
            match self.provider.value {
                Some(p) => if self.creds(p).max_tokens is Some {
                    self.source_of(field_path(provider_spec(p).name, "max_tokens"@))
                } else {
                    ConfigSource::Default
                },
                None => ConfigSource::Default,
            }
        }
    }

    /// What the selected provider lacks; nothing where no provider is selected.
    pub open spec fn validation_errors(self) -> Seq<Problem> {
        match self.provider.value {
            Some(p) => problems(self.creds(p), provider_spec(p).name, provider_spec(p).all_fields()),
            None => Seq::empty(),
        }
    }
}

/// The text of an optional setting, or `fallback` where it is absent.
pub open spec fn text_or(o: Option<Seq<char>>, fallback: Seq<char>) -> Seq<char> {
    match o {
        Some(s) => s,
        None => fallback,
    }
}

/// An optional setting, or `fallback` where it is absent.
pub open spec fn value_or<T>(o: Option<T>, fallback: T) -> T {
    match o {
        Some(v) => v,
        None => fallback,
    }
}

/// Decoded credentials, or blank ones where the section is absent.
pub open spec fn creds_or_blank(o: Option<CredsSpec>) -> CredsSpec {
    match o {
        Some(c) => c,
        None => CredsSpec::blank(),
    }
}

/// The configuration that decoded settings and the record of sources
/// resolve to. A setting that was not given takes its built-in fallback, and
/// every setting is attributed to the layer that wrote its path last.
pub open spec fn resolved(
    parsed: ParsedSpec,
    sources: Map<Seq<char>, ConfigSource>,
    toml_path: Option<Seq<char>>,
    json_path: Option<Seq<char>>,
) -> ConfigSpec {
    let g = parsed.globals;
    ConfigSpec {
        provider: ConfigValue { value: g.provider, source: source_in(sources, "provider"@) },
        model: ConfigValue {
            value: text_or(g.model, Seq::empty()),
            source: source_in(sources, "model"@),
        },
        temperature: ConfigValue {
            value: text_or(g.temperature, "0.05"@),
            source: source_in(sources, "temperature"@),
        },
        frontend: ConfigValue {
            value: value_or(g.frontend, Frontend::Dialog),
            source: source_in(sources, "frontend"@),
        },
        output_format: ConfigValue {
            value: value_or(g.output_format, OutputFormat::Human),
            source: source_in(sources, "output_format"@),
        },
        suggestion_count: ConfigValue {
            value: value_or(g.suggestion_count, 3u32),
            source: source_in(sources, "suggestion_count"@),
        },
        max_reference_chars: ConfigValue {
            value: value_or(g.max_reference_chars, 262144u32),
            source: source_in(sources, "max_reference_chars"@),
        },
        max_tokens: ConfigValue { value: g.max_tokens, source: source_in(sources, "max_tokens"@) },
        debug: ConfigValue { value: g.debug, source: source_in(sources, "debug"@) },
        openai: creds_or_blank(parsed.openai),
        groq: creds_or_blank(parsed.groq),
        azure: creds_or_blank(parsed.azure),
        ollama: creds_or_blank(parsed.ollama),
        mistral: creds_or_blank(parsed.mistral),
        sources,
        toml_path,
        json_path,
    }
}

impl View for AppConfig {
    type V = ConfigSpec;

    open spec fn view(&self) -> ConfigSpec {
        ConfigSpec {
            provider: self.provider,
            model: ConfigValue { value: self.model.value@, source: self.model.source },
            temperature: ConfigValue {
                value: self.temperature.value@,
                source: self.temperature.source,
            },
            frontend: self.frontend,
            output_format: self.output_format,
            suggestion_count: self.suggestion_count,
            max_reference_chars: self.max_reference_chars,
            max_tokens: self.max_tokens,
            debug: self.debug,
            openai: self.providers.openai@,
            groq: self.providers.groq@,
            azure: self.providers.azure@,
            ollama: self.providers.ollama@,
            mistral: self.providers.mistral@,
            sources: self.sources.map(),
            toml_path: opt_view(self.toml_path),
            json_path: opt_view(self.json_path),
        }
    }
}

/// The layer that `sources` names for `path`.
fn source_at(sources: &PathMap<ConfigSource>, path: &str) -> (r: ConfigSource)
    ensures
        r == source_in(sources.map(), path@),
{
    match sources.get(path) {
        Some(s) => *s,
        None => ConfigSource::Default,
    }
}

fn or_blank(o: Option<ProviderCredentials>) -> (r: ProviderCredentials)
    ensures
        r@ == creds_or_blank(opt_creds(o)),
{
    match o {
        Some(c) => c,
        None => ProviderCredentials::blank(),
    }
}

/// The problem that the field `f` of the provider called `provider` is missing.
fn problem_for(provider: &str, f: &FieldMeta) -> (r: ValidationError)
    ensures
        r@ == (Problem {
            field: f@.name,
            description: f@.description,
            hint: hint_for(provider@, f@),
        }),
{
    let mut hint = String::new();
    match f.env_var {
        Some(v) => {
            hint.push_str("Set ");
            hint.push_str(v);
            hint.push_str(" or add [");
        },
        None => {
            hint.push_str("Add [");
        },
    }
    hint.push_str(provider);
    hint.push_str("].");
    hint.push_str(f.name);
    hint.push_str(" to config.toml");
    proof {
        assert(hint@ =~= hint_for(provider@, f@));
    }
    ValidationError { field: owned(f.name), description: owned(f.description), hint }
}

impl AppConfig {
    /// Resolves decoded settings against the record of sources that the
    /// builder kept; see [`resolved`].
    pub fn from_parsed(
        parsed: TomlConfig,
        builder: ConfigBuilder,
        toml_path: Option<String>,
        json_path: Option<String>,
    ) -> (r: Self)
        ensures
            r@ == resolved(
                parsed@,
                builder.model().sources,
                opt_view(toml_path),
                opt_view(json_path),
            ),
    {
        let sources = builder.into_sources();
        let providers = ProviderTable {
            openai: or_blank(parsed.openai),
            groq: or_blank(parsed.groq),
            azure: or_blank(parsed.azure),
            ollama: or_blank(parsed.ollama),
            mistral: or_blank(parsed.mistral),
        };
        let model = match parsed.model {
            Some(m) => m,
            None => String::new(),
        };
        let temperature = match parsed.temperature {
            Some(t) => t,
            None => owned("0.05"),
        };
        let frontend = match parsed.frontend {
            Some(f) => f,
            None => Frontend::Dialog,
        };
        let output_format = match parsed.output_format {
            Some(f) => f,
            None => OutputFormat::Human,
        };
        let suggestion_count = match parsed.suggestion_count {
            Some(n) => n,
            None => 3,
        };
        let max_reference_chars = match parsed.max_reference_chars {
            Some(n) => n,
            None => 262144,
        };
        AppConfig {
            provider: ConfigValue::new(parsed.provider, source_at(&sources, "provider")),
            model: ConfigValue::new(model, source_at(&sources, "model")),
            temperature: ConfigValue::new(temperature, source_at(&sources, "temperature")),
            frontend: ConfigValue::new(frontend, source_at(&sources, "frontend")),
            output_format: ConfigValue::new(output_format, source_at(&sources, "output_format")),
            suggestion_count: ConfigValue::new(
                suggestion_count,
                source_at(&sources, "suggestion_count"),
            ),
            max_reference_chars: ConfigValue::new(
                max_reference_chars,
                source_at(&sources, "max_reference_chars"),
            ),
            max_tokens: ConfigValue::new(parsed.max_tokens, source_at(&sources, "max_tokens")),
            debug: ConfigValue::new(parsed.debug, source_at(&sources, "debug")),
            providers,
            sources,
            toml_path,
            json_path,
        }
    }

    /// The settings of the selected provider, if one is selected.
    pub fn current_provider_credentials(&self) -> (r: Option<&ProviderCredentials>)
        ensures
            match self@.provider.value {
                Some(p) => r is Some && r->0@ == self@.creds(p),
                None => r is None,
            },
    {
        match &self.provider.value {
            Some(p) => Some(self.providers.get(p)),
            None => None,
        }
    }

    /// The settings of `provider`; every provider has settings.
    pub fn get_credentials_for(&self, provider: &Provider) -> (r: Option<&ProviderCredentials>)
        ensures
            r is Some,
            r->0@ == self@.creds(*provider),
    {
        Some(self.providers.get(provider))
    }

    /// The layer that supplied the value at `path`.
    pub fn get_source(&self, path: &str) -> (r: ConfigSource)
        ensures
            r == self@.source_of(path@),
    {
        source_at(&self.sources, path)
    }

    /// The model to use; see [`ConfigSpec::effective_model`].
    pub fn effective_model(&self) -> (r: String)
        ensures
            r@ == self@.effective_model(),
    {
        if !self.model.value.as_str().is_empty() {
            return self.model.value.clone();
        }
        match &self.provider.value {
            Some(p) => {
                let creds = self.providers.get(p);
                match &creds.model {
                    Some(m) => {
                        if !m.as_str().is_empty() {
                            return m.clone();
                        }
                    },
                    None => {},
                }
                match p.metadata().resolved_field("model") {
                    Some(field) => match field.default {
                        Some(d) => owned(d),
                        None => String::new(),
                    },
                    None => String::new(),
                }
            },
            None => String::new(),
        }
    }

    /// The token limit to use; see [`ConfigSpec::effective_max_tokens`].
    pub fn effective_max_tokens(&self) -> (r: Option<u32>)
        ensures
            r == self@.effective_max_tokens(),
    {
        if self.max_tokens.value.is_some() {
            return self.max_tokens.value;
        }
        match &self.provider.value {
            Some(p) => self.providers.get(p).max_tokens,
            None => None,
        }
    }

    /// Lists what the selected provider lacks: one error for every required
    /// field that is absent or empty, in the order of the provider's fields.
    pub fn validate_provider(&self) -> (r: Vec<ValidationError>)
        ensures
            problem_views(r@) == self@.validation_errors(),
    {
        let provider = match &self.provider.value {
            Some(p) => p,
            None => {
                let r: Vec<ValidationError> = Vec::new();
                proof {
                    assert(problem_views(r@) =~= Seq::<Problem>::empty());
                }
                return r;
            },
        };
        let meta = provider.metadata();
        let creds = self.providers.get(provider);
        let fields = meta.all_fields();
        let ghost views = field_views(fields@);
        let mut errors: Vec<ValidationError> = Vec::new();
        let mut i: usize = 0;
        proof {
            assert(views.take(0) =~= Seq::<FieldSpec>::empty());
            assert(problem_views(errors@) =~= Seq::<Problem>::empty());
        }
        while i < fields.len()
            invariant
                i <= fields.len(),
                views == field_views(fields@),
                meta@ == provider_spec(*provider),
                problem_views(errors@) == problems(creds@, meta@.name, views.take(i as int)),
            decreases fields.len() - i,
        {
            proof {
                let next = views.take(i as int + 1);
                assert(next.drop_last() =~= views.take(i as int));
                assert(next.last() == fields@[i as int]@);
            }
            let field = &fields[i];
            if field.required {
                let is_missing = match creds.get_field(field.name) {
                    Some(v) => v.as_str().is_empty(),
                    None => true,
                };
                if is_missing {
                    let ghost before = problem_views(errors@);
                    let e = problem_for(meta.name, field);
                    errors.push(e);
                    proof {
                        assert(problem_views(errors@) =~= before.push(e@));
                    }
                }
            }
            i = i + 1;
        }
        proof {
            assert(views.take(fields@.len() as int) =~= views);
        }
        errors
    }
}

} // verus!
