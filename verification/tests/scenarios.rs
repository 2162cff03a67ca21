use shell_ai::config::AppConfig;
use shell_ai::kinds::Frontend;
use shell_ai::kinds::OutputFormat;
use shell_ai::kinds::Provider;
use shell_ai::layers::CliOverrides;
use shell_ai::layers::Environment;
use shell_ai::load::merge_layers;
use shell_ai::load::ConfigFile;
use shell_ai::source::ConfigSource;
use shell_ai::validate::ConfigError;

fn env_of(pairs: &[(&str, &str)]) -> Environment {
    let mut env = Environment::new();
    for (name, value) in pairs {
        env.set(name, value);
    }
    env
}

fn toml_file(text: &str) -> Option<ConfigFile> {
    Some(ConfigFile { path: "/etc/shell-ai/config.toml".to_string(), text: text.to_string() })
}

fn json_file(text: &str) -> Option<ConfigFile> {
    Some(ConfigFile { path: "/etc/shell-ai/config.json".to_string(), text: text.to_string() })
}

fn load(
    cli: CliOverrides,
    toml: Option<ConfigFile>,
    json: Option<ConfigFile>,
    env: &Environment,
) -> AppConfig {
    match AppConfig::load_with_cli(cli, toml, json, env) {
        Ok(c) => c,
        Err(e) => panic!("load failed: {}", e.message()),
    }
}

#[test]
fn nothing_given_resolves_to_defaults() {
    let env = Environment::new();
    let cfg = load(CliOverrides::default(), None, None, &env);
    assert_eq!(cfg.provider.value, None);
    assert_eq!(cfg.provider.source, ConfigSource::Default);
    assert_eq!(cfg.model.value, "");
    assert_eq!(cfg.temperature.value, "0.05");
    assert_eq!(cfg.temperature.source, ConfigSource::Default);
    assert_eq!(cfg.frontend.value, Frontend::Dialog);
    assert_eq!(cfg.frontend.source, ConfigSource::Default);
    assert_eq!(cfg.output_format.value, OutputFormat::Human);
    assert_eq!(cfg.suggestion_count.value, 3);
    assert_eq!(cfg.suggestion_count.source, ConfigSource::Default);
    assert_eq!(cfg.max_reference_chars.value, 262144);
    assert_eq!(cfg.max_tokens.value, None);
    assert_eq!(cfg.debug.value, None);
    assert_eq!(cfg.toml_path, None);
    assert_eq!(cfg.json_path, None);
    assert_eq!(cfg.providers.openai.model.as_deref(), Some("gpt-5"));
    assert_eq!(cfg.providers.openai.api_base.as_deref(), Some("https://api.openai.com"));
    assert_eq!(cfg.providers.azure.api_version.as_deref(), Some("2023-05-15"));
    assert_eq!(cfg.providers.azure.model, None);
    assert_eq!(cfg.providers.ollama.api_base.as_deref(), Some("http://localhost:11434"));
    assert_eq!(cfg.get_source("openai.model"), ConfigSource::Default);
    assert_eq!(cfg.effective_model(), "");
}

#[test]
fn no_provider_is_reported_with_the_known_providers() {
    let env = Environment::new();
    let cfg = load(CliOverrides::default(), None, None, &env);
    match cfg.validate(&env) {
        Err(ConfigError::NoProvider) => {}
        _ => panic!("expected the error for a missing provider"),
    }
    let message = ConfigError::NoProvider.message();
    assert!(message.starts_with("No provider configured.\n\nQuick start (choose one):\n  1. Set environment variable:  export SHAI_API_PROVIDER=groq\n"));
    assert!(message.ends_with("Supported providers: openai, groq, azure, ollama, mistral"));
}

#[test]
fn provider_from_the_environment_selects_groq() {
    let env = env_of(&[("SHAI_API_PROVIDER", "groq")]);
    let cfg = load(CliOverrides::default(), None, None, &env);
    assert_eq!(cfg.provider.value, Some(Provider::Groq));
    assert_eq!(cfg.provider.source, ConfigSource::Environment);
    assert_eq!(cfg.effective_model(), "openai/gpt-oss-120b");
    assert_eq!(cfg.effective_model_source(), ConfigSource::Default);
    // Groq can be used as it comes: no key is required.
    assert_eq!(cfg.providers.groq.api_key, None);
    assert_eq!(cfg.validate_provider(), vec![]);
    let validated = match cfg.validate(&env) {
        Ok(v) => v,
        Err(e) => panic!("validation failed: {}", e.message()),
    };
    assert_eq!(*validated.provider, Provider::Groq);
    assert_eq!(validated.credentials.api_key, None);
    assert_eq!(validated.effective_model(), "openai/gpt-oss-120b");
    assert_eq!(validated.app_config().provider.source, ConfigSource::Environment);
}

#[test]
fn groq_with_a_key_validates() {
    let env = env_of(&[("SHAI_API_PROVIDER", "groq"), ("GROQ_API_KEY", "gsk-1234567890")]);
    let cfg = load(CliOverrides::default(), None, None, &env);
    let validated = match cfg.validate(&env) {
        Ok(v) => v,
        Err(e) => panic!("validation failed: {}", e.message()),
    };
    assert_eq!(*validated.provider, Provider::Groq);
    assert_eq!(validated.credentials.api_key.as_deref(), Some("gsk-1234567890"));
    assert_eq!(validated.effective_model(), "openai/gpt-oss-120b");
    assert_eq!(validated.temperature(), "0.05");
    assert_eq!(validated.effective_max_tokens(), None);
    assert_eq!(validated.app_config().provider.source, ConfigSource::Environment);
}

#[test]
fn azure_without_a_deployment_name_fails_on_that_field() {
    let env = env_of(&[("SHAI_API_PROVIDER", "azure"), ("AZURE_API_KEY", "secret-key")]);
    let cfg = load(
        CliOverrides::default(),
        toml_file("[azure]\napi_base = \"https://x\"\n"),
        None,
        &env,
    );
    assert_eq!(cfg.providers.azure.api_base.as_deref(), Some("https://x"));
    assert_eq!(cfg.get_source("azure.api_base"), ConfigSource::TomlFile);
    let errors = cfg.validate_provider();
    assert_eq!(errors.len(), 1);
    assert_eq!(errors[0].field, "deployment_name");
    assert_eq!(errors[0].description, "Deployment name for your model");
    assert_eq!(
        errors[0].hint,
        "Set AZURE_DEPLOYMENT_NAME or add [azure].deployment_name to config.toml"
    );
    match cfg.validate(&env) {
        Err(e) => {
            assert_eq!(
                e.message(),
                "Configuration incomplete for Azure OpenAI provider:\n  - deployment_name: Deployment name for your model\n    Hint: Set AZURE_DEPLOYMENT_NAME or add [azure].deployment_name to config.toml"
            );
        }
        Ok(_) => panic!("expected a validation error"),
    }
}

#[test]
fn azure_with_only_a_base_address_fails_on_the_deployment_name_alone() {
    let env = env_of(&[("SHAI_API_PROVIDER", "azure")]);
    let cfg = load(
        CliOverrides::default(),
        toml_file("[azure]\napi_base = \"https://x\"\n"),
        None,
        &env,
    );
    assert_eq!(cfg.providers.azure.api_key, None);
    assert_eq!(cfg.providers.azure.api_version.as_deref(), Some("2023-05-15"));
    let errors = cfg.validate_provider();
    assert_eq!(errors.len(), 1);
    assert_eq!(errors[0].field, "deployment_name");
    match cfg.validate(&env) {
        Err(ConfigError::Validation { provider, errors }) => {
            assert_eq!(provider, Provider::Azure);
            assert_eq!(errors.len(), 1);
            assert_eq!(errors[0].field, "deployment_name");
        }
        _ => panic!("expected a validation error"),
    }
}

#[test]
fn azure_without_a_base_address_fails_on_it_too() {
    let env = env_of(&[("SHAI_API_PROVIDER", "azure"), ("AZURE_DEPLOYMENT_NAME", "d")]);
    let cfg = load(CliOverrides::default(), None, None, &env);
    let errors = cfg.validate_provider();
    assert_eq!(errors.len(), 1);
    assert_eq!(errors[0].field, "api_base");
    assert_eq!(errors[0].hint, "Set AZURE_API_BASE or add [azure].api_base to config.toml");
    let env = env_of(&[("SHAI_API_PROVIDER", "azure")]);
    let cfg = load(CliOverrides::default(), None, None, &env);
    let fields: Vec<String> = cfg.validate_provider().into_iter().map(|e| e.field).collect();
    assert_eq!(fields, vec!["api_base", "deployment_name"]);
}

#[test]
fn openai_and_mistral_still_need_a_key() {
    for name in ["openai", "mistral"] {
        let env = env_of(&[("SHAI_API_PROVIDER", name)]);
        let cfg = load(CliOverrides::default(), None, None, &env);
        let errors = cfg.validate_provider();
        assert_eq!(errors.len(), 1, "{}", name);
        assert_eq!(errors[0].field, "api_key");
        assert!(cfg.validate(&env).is_err());
    }
}

#[test]
fn skip_confirm_against_an_interactive_frontend_is_a_conflict() {
    let env = env_of(&[
        ("SHAI_SKIP_CONFIRM", "true"),
        ("SHAI_FRONTEND", "readline"),
        ("SHAI_API_PROVIDER", "ollama"),
    ]);
    let cfg = load(CliOverrides::default(), None, None, &env);
    assert_eq!(cfg.frontend.value, Frontend::Readline);
    match cfg.validate(&env) {
        Err(ConfigError::Conflict { frontend }) => {
            assert_eq!(frontend, "readline");
            let message = ConfigError::Conflict { frontend }.message();
            assert_eq!(
                message,
                "Configuration conflict: SHAI_SKIP_CONFIRM=true and SHAI_FRONTEND=readline are mutually exclusive.\nEither unset SHAI_SKIP_CONFIRM or set SHAI_FRONTEND=noninteractive."
            );
        }
        _ => panic!("expected a conflict"),
    }
}

#[test]
fn skip_confirm_with_a_noninteractive_frontend_is_no_conflict() {
    let env = env_of(&[
        ("SHAI_SKIP_CONFIRM", "TRUE"),
        ("SHAI_FRONTEND", "NonInteractive"),
        ("SHAI_API_PROVIDER", "ollama"),
    ]);
    let cli = CliOverrides { frontend: Some("noninteractive".to_string()), ..CliOverrides::default() };
    let cfg = load(cli, None, None, &env);
    assert!(cfg.validate(&env).is_ok());
}

#[test]
fn skip_confirm_alone_implies_the_noninteractive_frontend() {
    let env = env_of(&[("SHAI_SKIP_CONFIRM", "true"), ("SHAI_API_PROVIDER", "ollama")]);
    let cfg = load(CliOverrides::default(), None, None, &env);
    assert_eq!(cfg.frontend.value, Frontend::Noninteractive);
    assert_eq!(cfg.frontend.source, ConfigSource::Environment);
    let builder = merge_layers(None, None, &env, &CliOverrides::default());
    assert_eq!(builder.get_env_var_used("frontend"), Some("SHAI_SKIP_CONFIRM"));
    assert_eq!(builder.get_source("frontend"), ConfigSource::Environment);
    assert!(cfg.validate(&env).is_ok());
}

#[test]
fn skip_confirm_with_an_empty_frontend_variable_changes_nothing() {
    let env = env_of(&[("SHAI_SKIP_CONFIRM", "true"), ("SHAI_FRONTEND", "")]);
    let cfg = load(CliOverrides::default(), None, None, &env);
    assert_eq!(cfg.frontend.value, Frontend::Dialog);
    assert_eq!(cfg.frontend.source, ConfigSource::Default);
}

#[test]
fn model_flag_wins_over_the_provider_model_in_the_file() {
    let env = env_of(&[("SHAI_API_PROVIDER", "openai")]);
    let cli = CliOverrides { model: Some("gpt-5-mini".to_string()), ..CliOverrides::default() };
    let cfg = load(cli, toml_file("[openai]\nmodel = \"gpt-5\"\n"), None, &env);
    assert_eq!(cfg.effective_model(), "gpt-5-mini");
    assert_eq!(cfg.effective_model_source(), ConfigSource::Cli);
    assert_eq!(cfg.model.source, ConfigSource::Cli);
    assert_eq!(cfg.providers.openai.model.as_deref(), Some("gpt-5"));
    assert_eq!(cfg.get_source("openai.model"), ConfigSource::TomlFile);
}

#[test]
fn effective_model_falls_back_level_by_level() {
    let env = env_of(&[("SHAI_API_PROVIDER", "mistral")]);
    // nothing but the provider: the provider's default model
    let cfg = load(CliOverrides::default(), None, None, &env);
    assert_eq!(cfg.effective_model(), "codestral-2508");
    assert_eq!(cfg.effective_model_source(), ConfigSource::Default);
    // the provider's own model
    let cfg = load(
        CliOverrides::default(),
        None,
        json_file("{\"mistral\": {\"model\": \"mistral-large\"}}"),
        &env,
    );
    assert_eq!(cfg.effective_model(), "mistral-large");
    assert_eq!(cfg.effective_model_source(), ConfigSource::JsonFile);
    // an empty provider model falls through to the provider's default
    let cfg = load(
        CliOverrides::default(),
        toml_file("[mistral]\nmodel = \"\"\n"),
        None,
        &env,
    );
    assert_eq!(cfg.effective_model(), "codestral-2508");
    // the global model
    let env = env_of(&[("SHAI_API_PROVIDER", "mistral"), ("SHAI_MODEL", "tiny")]);
    let cfg = load(
        CliOverrides::default(),
        None,
        json_file("{\"mistral\": {\"model\": \"mistral-large\"}}"),
        &env,
    );
    assert_eq!(cfg.effective_model(), "tiny");
    assert_eq!(cfg.effective_model_source(), ConfigSource::Environment);
    // azure has no model at all
    let env = env_of(&[("SHAI_API_PROVIDER", "azure")]);
    let cfg = load(CliOverrides::default(), None, None, &env);
    assert_eq!(cfg.effective_model(), "");
}

#[test]
fn effective_max_tokens_prefers_the_global_limit() {
    let env = env_of(&[("SHAI_API_PROVIDER", "openai"), ("OPENAI_MAX_TOKENS", "512")]);
    let cfg = load(CliOverrides::default(), None, None, &env);
    assert_eq!(cfg.effective_max_tokens(), Some(512));
    assert_eq!(cfg.effective_max_tokens_source(), ConfigSource::Environment);
    let cli = CliOverrides { max_tokens: Some(64), ..CliOverrides::default() };
    let cfg = load(cli, None, None, &env);
    assert_eq!(cfg.effective_max_tokens(), Some(64));
    assert_eq!(cfg.effective_max_tokens_source(), ConfigSource::Cli);
}

#[test]
fn each_layer_overrides_the_ones_below_it() {
    let toml = "suggestion_count = 4\ntemperature = 0.5\nfrontend = \"readline\"\noutput_format = \"json\"\n";
    let json = "{\"suggestion_count\": 5, \"temperature\": 0.6, \"frontend\": \"dialog\"}";
    let env = env_of(&[("SHAI_SUGGESTION_COUNT", "6"), ("SHAI_TEMPERATURE", "0.7")]);
    let cli = CliOverrides { temperature: Some("0.8".to_string()), ..CliOverrides::default() };
    let cfg = load(cli, toml_file(toml), json_file(json), &env);
    assert_eq!(cfg.temperature.value, "0.8");
    assert_eq!(cfg.temperature.source, ConfigSource::Cli);
    assert_eq!(cfg.suggestion_count.value, 6);
    assert_eq!(cfg.suggestion_count.source, ConfigSource::Environment);
    assert_eq!(cfg.frontend.value, Frontend::Dialog);
    assert_eq!(cfg.frontend.source, ConfigSource::JsonFile);
    assert_eq!(cfg.output_format.value, OutputFormat::Json);
    assert_eq!(cfg.output_format.source, ConfigSource::TomlFile);
    assert_eq!(cfg.max_reference_chars.value, 262144);
    assert_eq!(cfg.max_reference_chars.source, ConfigSource::Default);
    assert_eq!(cfg.toml_path.as_deref(), Some("/etc/shell-ai/config.toml"));
    assert_eq!(cfg.json_path.as_deref(), Some("/etc/shell-ai/config.json"));
}

#[test]
fn primary_variable_wins_over_its_alias() {
    let env = env_of(&[("SHAI_PROVIDER", "openai"), ("SHAI_API_PROVIDER", "groq")]);
    let cfg = load(CliOverrides::default(), None, None, &env);
    assert_eq!(cfg.provider.value, Some(Provider::Groq));
    let builder = merge_layers(None, None, &env, &CliOverrides::default());
    assert_eq!(builder.get_env_var_used("provider"), Some("SHAI_API_PROVIDER"));
}

#[test]
fn alias_is_read_when_the_primary_variable_is_unset_or_empty() {
    let env = env_of(&[("SHAI_PROVIDER", "openai")]);
    let cfg = load(CliOverrides::default(), None, None, &env);
    assert_eq!(cfg.provider.value, Some(Provider::OpenAI));
    let builder = merge_layers(None, None, &env, &CliOverrides::default());
    assert_eq!(builder.get_env_var_used("provider"), Some("SHAI_PROVIDER"));
    let env = env_of(&[("SHAI_PROVIDER", "mistral"), ("SHAI_API_PROVIDER", "")]);
    let cfg = load(CliOverrides::default(), None, None, &env);
    assert_eq!(cfg.provider.value, Some(Provider::Mistral));
}

#[test]
fn provider_variables_fill_the_provider_sections() {
    let env = env_of(&[
        ("OPENAI_API_KEY", "sk-abc"),
        ("OPENAI_ORGANIZATION", "org-1"),
        ("OPENAI_API_VERSION", "2024-02-01"),
        ("AZURE_DEPLOYMENT_NAME", "dep"),
        ("OLLAMA_MODEL", "llama3"),
    ]);
    let cfg = load(CliOverrides::default(), None, None, &env);
    assert_eq!(cfg.providers.openai.api_key.as_deref(), Some("sk-abc"));
    assert_eq!(cfg.providers.openai.organization.as_deref(), Some("org-1"));
    assert_eq!(cfg.providers.azure.api_version.as_deref(), Some("2024-02-01"));
    assert_eq!(cfg.providers.azure.deployment_name.as_deref(), Some("dep"));
    assert_eq!(cfg.providers.ollama.model.as_deref(), Some("llama3"));
    assert_eq!(cfg.get_source("openai.api_key"), ConfigSource::Environment);
    assert_eq!(cfg.get_source("azure.api_version"), ConfigSource::Environment);
    assert_eq!(cfg.get_source("ollama.api_base"), ConfigSource::Default);
    let builder = merge_layers(None, None, &env, &CliOverrides::default());
    assert_eq!(builder.get_env_var_used("azure.api_version"), Some("OPENAI_API_VERSION"));
    assert_eq!(builder.get_env_var_used("ollama.api_base"), None);
}

#[test]
fn ollama_needs_no_key() {
    let env = env_of(&[("SHAI_API_PROVIDER", "ollama")]);
    let cfg = load(CliOverrides::default(), None, None, &env);
    assert_eq!(cfg.validate_provider().len(), 0);
    let validated = match cfg.validate(&env) {
        Ok(v) => v,
        Err(e) => panic!("validation failed: {}", e.message()),
    };
    assert_eq!(validated.effective_model(), "gpt-oss:120b-cloud");
}

#[test]
fn unparsable_files_end_the_load_with_their_path() {
    let env = Environment::new();
    match AppConfig::load_with_cli(CliOverrides::default(), toml_file("provider = "), None, &env) {
        Err(ConfigError::LayerParse { file, path, message }) => {
            assert_eq!(file, ConfigSource::TomlFile);
            assert_eq!(path, "/etc/shell-ai/config.toml");
            assert!(!message.is_empty());
            let text = ConfigError::LayerParse { file, path, message }.message();
            assert!(text.starts_with("Failed to parse config file: /etc/shell-ai/config.toml\n\n"));
            assert!(text.ends_with("\n\nHint: Fix the syntax error above, or delete the file to use defaults."));
        }
        _ => panic!("expected a parse error"),
    }
    match AppConfig::load_with_cli(CliOverrides::default(), None, json_file("{\"a\": "), &env) {
        Err(ConfigError::LayerParse { file, path, message }) => {
            assert_eq!(file, ConfigSource::JsonFile);
            assert_eq!(path, "/etc/shell-ai/config.json");
            let text = ConfigError::LayerParse { file, path, message }.message();
            assert!(text.starts_with("Failed to parse JSON config file: /etc/shell-ai/config.json\n\n"));
        }
        _ => panic!("expected a parse error"),
    }
    // the TOML file is looked at first
    match AppConfig::load_with_cli(
        CliOverrides::default(),
        toml_file("= 1"),
        json_file("{"),
        &env,
    ) {
        Err(ConfigError::LayerParse { file, .. }) => assert_eq!(file, ConfigSource::TomlFile),
        _ => panic!("expected a parse error"),
    }
}

#[test]
fn decode_errors_name_the_origin_of_the_value() {
    let env = env_of(&[("SHAI_FRONTEND", "fancy")]);
    match AppConfig::load_with_cli(CliOverrides::default(), None, None, &env) {
        Err(ConfigError::Decode { message }) => {
            assert_eq!(
                message,
                "SHAI_FRONTEND: unknown variant `fancy`, expected one of `dialog`, `readline`, `noninteractive`"
            );
        }
        _ => panic!("expected a decode error"),
    }
    let env = Environment::new();
    let cli = CliOverrides { output_format: Some("xml".to_string()), ..CliOverrides::default() };
    match AppConfig::load_with_cli(cli, None, None, &env) {
        Err(ConfigError::Decode { message }) => {
            assert_eq!(message, "--output_format: unknown variant `xml`, expected `human` or `json`");
            assert_eq!(
                ConfigError::Decode { message }.message(),
                "Configuration error:\n\n--output_format: unknown variant `xml`, expected `human` or `json`"
            );
        }
        _ => panic!("expected a decode error"),
    }
    match AppConfig::load_with_cli(
        CliOverrides::default(),
        toml_file("[openai]\nmax_tokens = \"many\"\n"),
        None,
        &env,
    ) {
        Err(ConfigError::Decode { message }) => {
            assert_eq!(
                message,
                "config.toml: invalid value \"many\": invalid digit found in string"
            );
        }
        _ => panic!("expected a decode error"),
    }
    match AppConfig::load_with_cli(
        CliOverrides::default(),
        None,
        json_file("{\"suggestion_count\": true}"),
        &env,
    ) {
        Err(ConfigError::Decode { message }) => {
            assert_eq!(
                message,
                "config.json: invalid type: boolean `true`, expected a 32-bit unsigned integer or a string that spells one"
            );
        }
        _ => panic!("expected a decode error"),
    }
    let env = env_of(&[("SHAI_PROVIDER", "nobody")]);
    match AppConfig::load_with_cli(CliOverrides::default(), None, None, &env) {
        Err(ConfigError::Decode { message }) => {
            assert_eq!(
                message,
                "SHAI_PROVIDER: unknown variant `nobody`, expected one of `openai`, `groq`, `azure`, `ollama`, `mistral`"
            );
        }
        _ => panic!("expected a decode error"),
    }
}

#[test]
fn numbers_may_come_as_numbers_or_as_texts() {
    let env = env_of(&[("SHAI_MAX_TOKENS", "2048"), ("SHAI_MAX_REFERENCE_CHARS", "+100")]);
    let cfg = load(
        CliOverrides::default(),
        toml_file("suggestion_count = \"7\"\ntemperature = \"1e-1\"\n[groq]\nmax_tokens = 99\n"),
        None,
        &env,
    );
    assert_eq!(cfg.suggestion_count.value, 7);
    assert_eq!(cfg.temperature.value, "1e-1");
    assert_eq!(cfg.max_tokens.value, Some(2048));
    assert_eq!(cfg.max_reference_chars.value, 100);
    assert_eq!(cfg.providers.groq.max_tokens, Some(99));
    assert_eq!(cfg.providers.groq.get_field("max_tokens").as_deref(), Some("99"));
}

#[test]
fn locale_flag_is_merged_and_passed_over_by_the_typed_settings() {
    let env = Environment::new();
    let cli = CliOverrides { locale: Some("de_DE".to_string()), ..CliOverrides::default() };
    let builder = merge_layers(None, None, &env, &cli);
    assert_eq!(builder.get_source("locale"), ConfigSource::Cli);
    let cfg = load(cli, None, None, &env);
    assert_eq!(cfg.get_source("locale"), ConfigSource::Cli);
}

#[test]
fn an_empty_provider_model_leaves_the_default_model_to_the_defaults() {
    let env = env_of(&[("SHAI_API_PROVIDER", "openai")]);
    let cfg = load(
        CliOverrides::default(),
        toml_file("[openai]\nmodel = \"\"\nmax_tokens = 9\n"),
        None,
        &env,
    );
    assert_eq!(cfg.providers.openai.model.as_deref(), Some(""));
    assert_eq!(cfg.get_source("openai.model"), ConfigSource::TomlFile);
    assert_eq!(cfg.effective_model(), "gpt-5");
    assert_eq!(cfg.effective_model_source(), ConfigSource::Default);
    assert_eq!(
        cfg.get_global_field_display("model", &env),
        Some(("gpt-5".to_string(), ConfigSource::Default))
    );
    assert_eq!(cfg.effective_max_tokens(), Some(9));
    assert_eq!(cfg.effective_max_tokens_source(), ConfigSource::TomlFile);
}
