//! Checking a resolved configuration before it is used for a request, and
//! the errors that stop a run.

use crate::catalog::provider_spec;
use crate::config::problem_views;
use crate::config::AppConfig;
use crate::config::ConfigSpec;
use crate::config::Problem;
use crate::config::ValidationError;
use crate::decode::CredsSpec;
use crate::decode::ProviderCredentials;
use crate::kinds::Provider;
use crate::layers::skip_confirm_on;
use crate::layers::Environment;
use crate::source::ConfigSource;
use crate::text::join;
use crate::text::joined;
use crate::text::lowered;
use crate::text::owned;
use crate::text::slices;
use crate::text::to_lowercase;
use vstd::prelude::*;

verus! {

/// Why a run cannot go on. Every one of these ends the run before any
/// request is made.
#[derive(Debug, PartialEq, Eq)]
pub enum ConfigError {
    /// A configuration file is there but cannot be parsed.
    LayerParse { file: ConfigSource, path: String, message: String },
    /// A merged value cannot be decoded; the message names its origin.
    Decode { message: String },
    /// The selected provider lacks required settings.
    Validation { provider: Provider, errors: Vec<ValidationError> },
    /// No provider is selected.
    NoProvider,
    /// The legacy switch that skips confirmation is on while the frontend
    /// variable asks for an interactive frontend.
    Conflict { frontend: String },
}

/// The mathematical value of a [`ConfigError`].
pub ghost enum ErrorSpec {
    LayerParse { file: ConfigSource, path: Seq<char>, message: Seq<char> },
    Decode { message: Seq<char> },
    Validation { provider: Provider, errors: Seq<Problem> },
    NoProvider,
    Conflict { frontend: Seq<char> },
}

impl View for ConfigError {
    type V = ErrorSpec;

    open spec fn view(&self) -> ErrorSpec {
        match self {
            ConfigError::LayerParse { file, path, message } => ErrorSpec::LayerParse {
                file: *file,
                path: path@,
                message: message@,
            },
            ConfigError::Decode { message } => ErrorSpec::Decode { message: message@ },
            ConfigError::Validation { provider, errors } => ErrorSpec::Validation {
                provider: *provider,
                errors: problem_views(errors@),
            },
            ConfigError::NoProvider => ErrorSpec::NoProvider,
            ConfigError::Conflict { frontend } => ErrorSpec::Conflict { frontend: frontend@ },
        }
    }
}

/// The names of all providers, with commas between them.
pub open spec fn supported_providers() -> Seq<char> {
    joined(Provider::every().map_values(|p: Provider| p.label()), ", "@)
}

/// The lines that list what a provider lacks.
pub open spec fn problem_lines(errors: Seq<Problem>) -> Seq<char>
    decreases errors.len(),
{
    if errors.len() == 0 {
        Seq::empty()
    } else {
        let e = errors.last();
        problem_lines(errors.drop_last()) + "\n  - "@ + e.field + ": "@ + e.description
            + "\n    Hint: "@ + e.hint
    }
}

impl ErrorSpec {
    /// What the error says to the user.
    pub open spec fn text(self) -> Seq<char> {
        match self {
            ErrorSpec::LayerParse { file, path, message } => (if file == ConfigSource::JsonFile {
                "Failed to parse JSON config file: "@
            } else {
                "Failed to parse config file: "@
            }) + path + "\n\n"@ + message
                + "\n\nHint: Fix the syntax error above, or delete the file to use defaults."@,
            ErrorSpec::Decode { message } => "Configuration error:\n\n"@ + message,
            ErrorSpec::Validation { provider, errors } => "Configuration incomplete for "@
                + provider_spec(provider).display_name + " provider:"@ + problem_lines(errors),
            ErrorSpec::NoProvider => "No provider configured.\n\nQuick start (choose one):\n  1. Set environment variable:  export SHAI_API_PROVIDER=groq\n  2. Generate config file:      shell-ai config init\n  3. View all options:          shell-ai config schema\n\nSupported providers: "@
                + supported_providers(),
            ErrorSpec::Conflict { frontend } =>
                "Configuration conflict: SHAI_SKIP_CONFIRM=true and SHAI_FRONTEND="@ + frontend
                + " are mutually exclusive.\nEither unset SHAI_SKIP_CONFIRM or set SHAI_FRONTEND=noninteractive."@,
        }
    }
}

/// The names of all providers, with commas between them.
fn supported_provider_names() -> (r: String)
    ensures
        r@ == supported_providers(),
{
    let all = Provider::all();
    let mut names: Vec<&str> = Vec::new();
    let mut i: usize = 0;
    while i < all.len()
        invariant
            i <= all.len(),
            all@ == Provider::every(),
            names.len() == i,
            forall|j: int| 0 <= j < i ==> (#[trigger] names@[j])@ == Provider::every()[j].label(),
        decreases all.len() - i,
    {
        names.push(all[i].name());
        i = i + 1;
    }
    proof {
        assert(slices(names@) =~= Provider::every().map_values(|p: Provider| p.label()));
    }
    join(&names, ", ")
}

impl ConfigError {
    /// What the error says to the user.
    pub fn message(&self) -> (r: String)
        ensures
            r@ == self@.text(),
    {
        match self {
            ConfigError::LayerParse { file, path, message } => {
                let mut r = match file {
                    ConfigSource::JsonFile => owned("Failed to parse JSON config file: "),
                    _ => owned("Failed to parse config file: "),
                };
                r.push_str(path.as_str());
                r.push_str("\n\n");
                r.push_str(message.as_str());
                r.push_str(
                    "\n\nHint: Fix the syntax error above, or delete the file to use defaults.",
                );
                r
            },
            ConfigError::Decode { message } => {
                let mut r = owned("Configuration error:\n\n");
                r.push_str(message.as_str());
                r
            },
            ConfigError::Validation { provider, errors } => {
                let meta = provider.metadata();
                let mut r = owned("Configuration incomplete for ");
                r.push_str(meta.display_name);
                r.push_str(" provider:");
                let ghost head = r@;
                let ghost views = problem_views(errors@);
                let mut i: usize = 0;
                proof {
                    assert(views.take(0) =~= Seq::<Problem>::empty());
                    assert(r@ =~= head + problem_lines(views.take(0)));
                }
                while i < errors.len()
                    invariant
                        i <= errors.len(),
                        views == problem_views(errors@),
                        r@ == head + problem_lines(views.take(i as int)),
                    decreases errors.len() - i,
                {
                    proof {
                        let next = views.take(i as int + 1);
                        assert(next.drop_last() =~= views.take(i as int));
                        assert(next.last() == errors@[i as int]@);
                    }
                    let ghost before = r@;
                    r.push_str("\n  - ");
                    r.push_str(errors[i].field.as_str());
                    r.push_str(": ");
                    r.push_str(errors[i].description.as_str());
                    r.push_str("\n    Hint: ");
                    r.push_str(errors[i].hint.as_str());
                    proof {
                        assert(r@ =~= head + problem_lines(views.take(i as int + 1)));
                    }
                    i = i + 1;
                }
                proof {
                    assert(views.take(errors@.len() as int) =~= views);
                }
                r
            },
            ConfigError::NoProvider => {
                let mut r = owned(
                    "No provider configured.\n\nQuick start (choose one):\n  1. Set environment variable:  export SHAI_API_PROVIDER=groq\n  2. Generate config file:      shell-ai config init\n  3. View all options:          shell-ai config schema\n\nSupported providers: ",
                );
                let names = supported_provider_names();
                r.push_str(names.as_str());
                r
            },
            ConfigError::Conflict { frontend } => {
                let mut r = owned(
                    "Configuration conflict: SHAI_SKIP_CONFIRM=true and SHAI_FRONTEND=",
                );
                r.push_str(frontend.as_str());
                r.push_str(
                    " are mutually exclusive.\nEither unset SHAI_SKIP_CONFIRM or set SHAI_FRONTEND=noninteractive.",
                );
                r
            },
        }
    }
}

/// The frontend that the environment asks for against the legacy switch:
/// the switch is on, and the frontend variable is set to a text that is not
/// empty and is not `noninteractive` in any case.
pub open spec fn conflict(env: Map<Seq<char>, Seq<char>>) -> Option<Seq<char>> {
    if env.contains_key("SHAI_SKIP_CONFIRM"@) && env.contains_key("SHAI_FRONTEND"@) {
        against_switch(
            lowered(env["SHAI_SKIP_CONFIRM"@]),
            env["SHAI_FRONTEND"@],
            lowered(env["SHAI_FRONTEND"@]),
        )
    } else {
        None
    }
}

/// The frontend that stands against the legacy switch, given the switch in
/// lower case, and the frontend as it is set and in lower case: the switch
/// is `true`, and the frontend is not empty and is not `noninteractive`.
pub open spec fn against_switch(
    switch_lowered: Seq<char>,
    frontend: Seq<char>,
    frontend_lowered: Seq<char>,
) -> Option<Seq<char>> {
    if crate::layers::switch_on(switch_lowered) && frontend.len() > 0 && frontend_lowered
        != "noninteractive"@ {
        Some(frontend)
    } else {
        None
    }
}

/// Finds the frontend that stands against the legacy switch; see
/// [`against_switch`].
pub fn frontend_against_switch(switch_lowered: &str, frontend: &str, frontend_lowered: &str) -> (r:
    Option<String>)
    ensures
        crate::layers::opt_view(r) == against_switch(
            switch_lowered@,
            frontend@,
            frontend_lowered@,
        ),
{
    let chars = crate::text::chars_of(frontend);
    if switch_lowered.eq("true") && chars.len() > 0 && !frontend_lowered.eq("noninteractive") {
        Some(owned(frontend))
    } else {
        None
    }
}

/// What stands against the use of a configuration in an environment, if
/// anything does. The first of these decides: the legacy switch contradicts
/// the frontend variable; no provider is selected; the selected provider
/// lacks a setting that it requires.
pub open spec fn verdict(c: crate::config::ConfigSpec, env: Map<Seq<char>, Seq<char>>) -> Option<
    ErrorSpec,
> {
    match conflict(env) {
        Some(f) => Some(ErrorSpec::Conflict { frontend: f }),
        None => match c.provider.value {
            None => Some(ErrorSpec::NoProvider),
            Some(p) => if c.validation_errors().len() > 0 {
                Some(ErrorSpec::Validation { provider: p, errors: c.validation_errors() })
            } else {
                None
            },
        },
    }
}

/// A configuration that has passed validation: a provider is selected and
/// has every setting that it requires.
pub struct ValidatedConfig<'a> {
    config: &'a AppConfig,
    pub provider: &'a Provider,
    pub credentials: &'a ProviderCredentials,
}

impl<'a> ValidatedConfig<'a> {
    /// The configuration that was validated.
    pub closed spec fn app(&self) -> AppConfig {
        *self.config
    }

    /// The provider that is selected.
    pub closed spec fn selected(&self) -> Provider {
        *self.provider
    }

    /// The settings of the selected provider.
    pub closed spec fn creds(&self) -> CredsSpec {
        self.credentials@
    }

    /// What validation has established: the provider is the one that the
    /// configuration selects, the settings are that provider's, and the
    /// provider lacks nothing that it requires.
    pub open spec fn wf(&self) -> bool {
        &&& self.app()@.provider.value == Some(self.selected())
        &&& self.creds() == self.app()@.creds(self.selected())
        &&& self.app()@.validation_errors().len() == 0
    }

    /// The provider that is selected.
    pub fn selected_provider(&self) -> (r: &'a Provider)
        ensures
            *r == self.selected(),
    {
        self.provider
    }

    /// The settings of the selected provider.
    pub fn selected_credentials(&self) -> (r: &'a ProviderCredentials)
        ensures
            r@ == self.creds(),
    {
        self.credentials
    }

    /// The configuration that was validated.
    pub fn app_config(&self) -> (r: &'a AppConfig)
        ensures
            *r == self.app(),
    {
        self.config
    }

    /// The model to use; see [`ConfigSpec::effective_model`].
    pub fn effective_model(&self) -> (r: String)
        ensures
            r@ == self.app()@.effective_model(),
    {
        self.config.effective_model()
    }

    /// The sampling temperature, as the text of the number.
    pub fn temperature(&self) -> (r: &'a str)
        ensures
            r@ == self.app()@.temperature.value,
    {
        self.config.temperature.value.as_str()
    }

    /// The token limit to use; see [`ConfigSpec::effective_max_tokens`].
    pub fn effective_max_tokens(&self) -> (r: Option<u32>)
        ensures
            r == self.app()@.effective_max_tokens(),
    {
        self.config.effective_max_tokens()
    }
}

/// The frontend that the environment asks for against the legacy switch.
fn find_conflict(env: &Environment) -> (r: Option<String>)
    ensures
        match r {
            Some(f) => conflict(env@) == Some(f@),
            None => conflict(env@) is None,
        },
{
    match env.var("SHAI_SKIP_CONFIRM") {
        Some(skip) => match env.var("SHAI_FRONTEND") {
            Some(frontend) => {
                let lowered = to_lowercase(skip);
                let low = to_lowercase(frontend);
                frontend_against_switch(lowered.as_str(), frontend, low.as_str())
            },
            None => None,
        },
        None => None,
    }
}

impl AppConfig {
    /// Validates the configuration against the environment it was loaded
    /// from. The checks are made in this order and the first that fails
    /// decides the error: the legacy switch must not contradict the frontend
    /// variable, a provider must be selected, and the selected provider must
    /// have every setting that it requires.
    pub fn validate<'a>(&'a self, env: &Environment) -> (r: Result<ValidatedConfig<'a>, ConfigError>)
        ensures
            match r {
                Ok(v) => {
                    &&& verdict(self@, env@) is None
                    &&& v.app() == *self
                    &&& v.wf()
                    &&& Some(v.selected()) == self@.provider.value
                },
                Err(e) => verdict(self@, env@) == Some(e@),
            },
    {
        match find_conflict(env) {
            Some(frontend) => {
                return Err(ConfigError::Conflict { frontend });
            },
            None => {},
        }
        let provider = match &self.provider.value {
            Some(p) => p,
            None => {
                return Err(ConfigError::NoProvider);
            },
        };
        let errors = self.validate_provider();
        if errors.len() > 0 {
            return Err(ConfigError::Validation { provider: *provider, errors });
        }
        let credentials = self.providers.get(provider);
        Ok(ValidatedConfig { config: self, provider, credentials })
    }
}

} // verus!
