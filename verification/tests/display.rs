use shell_ai::config::AppConfig;
use shell_ai::display::ReportLine;
use shell_ai::documents::read_json;
use shell_ai::kinds::Provider;
use shell_ai::layers::CliOverrides;
use shell_ai::layers::Environment;
use shell_ai::load::ConfigFile;
use shell_ai::meta::Section;
use shell_ai::provider::ProviderConfig;
use shell_ai::report::schema_report;
use shell_ai::source::ConfigSource;
use shell_ai::tree::Node;

fn env_of(pairs: &[(&str, &str)]) -> Environment {
    let mut env = Environment::new();
    for (name, value) in pairs {
        env.set(name, value);
    }
    env
}

fn load_with(env: &Environment, toml: Option<&str>, cli: CliOverrides) -> AppConfig {
    let file = toml.map(|t| ConfigFile { path: "config.toml".to_string(), text: t.to_string() });
    match AppConfig::load_with_cli(cli, file, None, env) {
        Ok(c) => c,
        Err(e) => panic!("load failed: {}", e.message()),
    }
}

fn line(name: &str, value: &str, source: ConfigSource, deprecated: bool) -> ReportLine {
    ReportLine { name: name.to_string(), value: value.to_string(), source, deprecated }
}

#[test]
fn global_settings_are_shown_with_their_sources() {
    let env = env_of(&[("SHAI_API_PROVIDER", "groq"), ("SHAI_MAX_TOKENS", "100")]);
    let cfg = load_with(&env, Some("temperature = 0.7\n"), CliOverrides::default());
    let shown = |name: &str| cfg.get_global_field_display(name, &env);
    assert_eq!(shown("provider"), Some(("groq".to_string(), ConfigSource::Environment)));
    assert_eq!(shown("model"), Some(("openai/gpt-oss-120b".to_string(), ConfigSource::Default)));
    assert_eq!(shown("temperature"), Some(("0.7".to_string(), ConfigSource::TomlFile)));
    assert_eq!(shown("suggestion_count"), Some(("3".to_string(), ConfigSource::Default)));
    assert_eq!(shown("skip_confirm"), Some(("false".to_string(), ConfigSource::Default)));
    assert_eq!(shown("frontend"), Some(("dialog".to_string(), ConfigSource::Default)));
    assert_eq!(shown("output_format"), Some(("human".to_string(), ConfigSource::Default)));
    assert_eq!(shown("max_reference_chars"), Some(("262144".to_string(), ConfigSource::Default)));
    assert_eq!(shown("max_tokens"), Some(("100".to_string(), ConfigSource::Environment)));
    assert_eq!(shown("debug"), Some(("(not set)".to_string(), ConfigSource::Default)));
    assert_eq!(shown("nothing"), None);
}

#[test]
fn unset_settings_are_shown_as_not_set() {
    let env = Environment::new();
    let cfg = load_with(&env, None, CliOverrides::default());
    let shown = |name: &str| cfg.get_global_field_display(name, &env);
    assert_eq!(shown("provider"), Some(("(not set)".to_string(), ConfigSource::Default)));
    assert_eq!(shown("model"), Some(("(not set)".to_string(), ConfigSource::Default)));
    assert_eq!(shown("max_tokens"), Some(("(not set)".to_string(), ConfigSource::Default)));
}

#[test]
fn the_legacy_switch_is_shown_from_the_environment() {
    let env = env_of(&[("SHAI_SKIP_CONFIRM", "True")]);
    let cfg = load_with(&env, None, CliOverrides::default());
    assert_eq!(
        cfg.get_global_field_display("skip_confirm", &env),
        Some(("true".to_string(), ConfigSource::Environment))
    );
    let ui = cfg.global_report(&env, Some(Section::Ui));
    assert_eq!(
        ui,
        vec![
            line("skip_confirm", "true", ConfigSource::Environment, true),
            line("frontend", "noninteractive", ConfigSource::Environment, false),
            line("output_format", "human", ConfigSource::Default, false),
            line("debug", "(not set)", ConfigSource::Default, false),
        ]
    );
}

#[test]
fn a_deprecated_setting_at_its_default_is_not_listed() {
    let env = Environment::new();
    let cfg = load_with(&env, None, CliOverrides::default());
    let all = cfg.global_report(&env, None);
    let names: Vec<&str> = all.iter().map(|l| l.name.as_str()).collect();
    assert_eq!(
        names,
        vec![
            "provider",
            "model",
            "temperature",
            "suggestion_count",
            "frontend",
            "output_format",
            "max_reference_chars",
            "max_tokens",
            "debug"
        ]
    );
    let provider = cfg.global_report(&env, Some(Section::Provider));
    let names: Vec<&str> = provider.iter().map(|l| l.name.as_str()).collect();
    assert_eq!(names, vec!["provider", "model", "temperature", "max_tokens"]);
    assert_eq!(cfg.global_report(&env, Some(Section::Suggest)).len(), 1);
    assert_eq!(cfg.global_report(&env, Some(Section::Explain)).len(), 1);
    assert_eq!(cfg.global_report(&env, Some(Section::ProviderSpecific)).len(), 0);
}

#[test]
fn provider_settings_are_shown_masked_where_sensitive() {
    let env = env_of(&[("SHAI_API_PROVIDER", "openai"), ("OPENAI_API_KEY", "sk-abcdefghij")]);
    let cfg = load_with(&env, Some("[openai]\norganization = \"org\"\nmodel = \"\"\n"), CliOverrides::default());
    let lines = cfg.provider_report(&Provider::OpenAI);
    assert_eq!(
        lines,
        vec![
            line("api_key", "****efghij", ConfigSource::Environment, false),
            line("api_base", "https://api.openai.com", ConfigSource::Default, false),
            line("model", "(not set)", ConfigSource::Default, false),
            line("max_tokens", "(not set)", ConfigSource::Default, false),
            line("organization", "org", ConfigSource::TomlFile, false),
        ]
    );
    let meta = Provider::OpenAI.metadata();
    let field = meta.resolved_field("api_key").unwrap();
    assert_eq!(
        cfg.get_provider_field_display(&field, &cfg.providers.openai, "openai"),
        ("sk-abcdefghij".to_string(), ConfigSource::Environment)
    );
}

#[test]
fn providers_with_settings_of_their_own_are_shown_after_the_selected_one() {
    let env = env_of(&[("SHAI_API_PROVIDER", "ollama"), ("GROQ_API_KEY", "k")]);
    let cfg = load_with(&env, Some("[mistral]\nmodel = \"other\"\n[azure]\napi_version = \"2023-05-15\"\n"), CliOverrides::default());
    assert_eq!(
        cfg.get_providers_to_display(),
        vec![Provider::Ollama, Provider::Groq, Provider::Mistral]
    );
    assert!(cfg.has_non_default_credentials(&Provider::Groq, &cfg.providers.groq));
    assert!(cfg.has_non_default_credentials(&Provider::Mistral, &cfg.providers.mistral));
    assert!(!cfg.has_non_default_credentials(&Provider::Azure, &cfg.providers.azure));
    assert!(!cfg.has_non_default_credentials(&Provider::OpenAI, &cfg.providers.openai));
    let none = load_with(&Environment::new(), None, CliOverrides::default());
    assert_eq!(none.get_providers_to_display(), vec![]);
}

#[test]
fn the_report_for_readers_is_grouped() {
    let env = env_of(&[("SHAI_API_PROVIDER", "azure"), ("MISTRAL_API_KEY", "k")]);
    let cfg = load_with(&env, None, CliOverrides::default());
    let report = cfg.human_report(&env);
    let titles: Vec<&str> = report.iter().map(|s| s.title.as_str()).collect();
    assert_eq!(
        titles,
        vec![
            "Provider Settings",
            "UI Settings",
            "Suggest Settings",
            "Explain Settings",
            "Azure OpenAI Settings",
            "Mistral AI Settings"
        ]
    );
    assert_eq!(report[0].lines, cfg.global_report(&env, Some(Section::Provider)));
    assert_eq!(report[2].lines, vec![line("suggestion_count", "3", ConfigSource::Default, false)]);
    assert_eq!(report[4].lines, cfg.provider_report(&Provider::Azure));
    assert_eq!(report[5].lines[0], line("api_key", "****", ConfigSource::Environment, false));
}

#[test]
fn the_report_as_a_tree_has_three_parts() {
    let env = env_of(&[("SHAI_API_PROVIDER", "ollama")]);
    let cfg = load_with(&env, Some("debug = \"info\"\n"), CliOverrides::default());
    let tree = cfg.json_report(&env, Some("/home/u/.config/shell-ai/config.toml"), None);
    let expected_file_part = read_json(
        "{\"toml\": {\"path\": \"/home/u/.config/shell-ai/config.toml\", \"exists\": true}, \"json\": {\"path\": null, \"exists\": false}}",
    )
    .unwrap();
    assert_eq!(tree.entry_count(), 3);
    let files = tree.get("config_files").unwrap();
    assert_eq!(files.lookup("toml.path"), expected_file_part.lookup("toml.path"));
    assert_eq!(files.lookup("toml.exists"), Some(&Node::Bool(true)));
    assert_eq!(files.lookup("json.path"), Some(&Node::Null));
    assert_eq!(files.lookup("json.exists"), Some(&Node::Bool(false)));
    let global = tree.get("global").unwrap();
    assert_eq!(global.entry_count(), 9);
    assert_eq!(global.lookup("debug.value"), Some(&Node::Text("info".to_string())));
    assert_eq!(global.lookup("debug.source"), Some(&Node::Text("toml".to_string())));
    assert_eq!(global.lookup("debug.deprecated"), Some(&Node::Bool(false)));
    assert_eq!(global.lookup("provider.source"), Some(&Node::Text("env".to_string())));
    assert_eq!(global.get("skip_confirm"), None);
    let providers = tree.get("providers").unwrap();
    assert_eq!(providers.entry_count(), 1);
    assert_eq!(
        providers.lookup("ollama.model.value"),
        Some(&Node::Text("gpt-oss:120b-cloud".to_string()))
    );
    assert_eq!(providers.lookup("ollama.model.source"), Some(&Node::Text("default".to_string())));
    assert_eq!(providers.lookup("ollama.model.deprecated"), None);
    assert_eq!(providers.get("ollama").unwrap().entry_count(), 3);
}

#[test]
fn the_schema_describes_settings_and_providers() {
    let schema = schema_report();
    assert_eq!(schema.entry_count(), 3);
    match schema.get("global_settings") {
        Some(Node::List(items)) => {
            assert_eq!(items.len(), 9);
            assert_eq!(items[0].get("name"), Some(&Node::Text("provider".to_string())));
            assert_eq!(items[0].get("env_var"), Some(&Node::Text("SHAI_API_PROVIDER".to_string())));
            assert_eq!(items[0].get("default"), Some(&Node::Null));
            assert_eq!(items[0].get("required"), Some(&Node::Bool(true)));
            assert_eq!(items[2].get("default"), Some(&Node::Text("0.05".to_string())));
            assert_eq!(items[4].get("name"), Some(&Node::Text("frontend".to_string())));
        }
        _ => panic!("expected a list of global settings"),
    }
    let valid = schema.get("valid_values").unwrap();
    assert_eq!(
        valid.get("provider"),
        Some(&Node::List(
            ["openai", "groq", "azure", "ollama", "mistral"]
                .iter()
                .map(|n| Node::Text(n.to_string()))
                .collect()
        ))
    );
    assert_eq!(
        valid.get("output_format"),
        Some(&Node::List(vec![Node::Text("human".to_string()), Node::Text("json".to_string())]))
    );
    match schema.get("providers") {
        Some(Node::List(items)) => {
            assert_eq!(items.len(), 5);
            assert_eq!(items[2].get("display_name"), Some(&Node::Text("Azure OpenAI".to_string())));
            match items[2].get("fields") {
                Some(Node::List(fields)) => {
                    assert_eq!(fields.len(), 5);
                    assert_eq!(fields[3].get("name"), Some(&Node::Text("deployment_name".to_string())));
                    assert_eq!(fields[3].get("required"), Some(&Node::Bool(true)));
                }
                _ => panic!("expected a list of fields"),
            }
        }
        _ => panic!("expected a list of providers"),
    }
}

#[test]
fn the_example_file_documents_every_setting() {
    let text = AppConfig::generate_init_config();
    assert!(text.starts_with("# Shell-AI Configuration\n# Generated by: shell-ai config init\n#\n# Configuration precedence (highest to lowest):\n#   1. CLI flags (--provider, --model, etc.)\n#   2. Environment variables\n#   3. This config file\n#   4. Built-in defaults\n\n# ===========================================================================\n# Global Settings\n# ===========================================================================\n\n# Provider to use (env: SHAI_API_PROVIDER)\n# provider = \"\"\n\n# Override model (takes precedence over provider-specific) (env: SHAI_MODEL)\n# model = \"\"\n\n# Sampling temperature (0.0 = deterministic, 1.0 = creative) (env: SHAI_TEMPERATURE)\n# temperature = \"0.05\"\n\n"));
    assert!(!text.contains("skip_confirm"));
    assert!(text.contains("# ===========================================================================\n# Provider Configurations\n# ===========================================================================\n# Uncomment and configure the provider(s) you want to use.\n\n# ---------------------------------------------------------------------------\n# OpenAI - OpenAI API (GPT-3.5, GPT-4, etc.)\n# ---------------------------------------------------------------------------\n[openai]\n# API key for authentication (env: OPENAI_API_KEY)\n# REQUIRED\n# api_key = \"your-api-key-here\"\n\n# API base URL (env: OPENAI_API_BASE)\n# api_base = \"https://api.openai.com\"\n\n"));
    assert!(text.contains("[groq]\n# API key for authentication (env: GROQ_API_KEY)\n# api_key = \"your-api-key-here\"\n\n# API base URL\n# api_base = \"https://api.groq.com/openai\"\n\n"));
    assert!(text.contains("[azure]\n# API key for authentication (env: AZURE_API_KEY)\n# api_key = \"your-api-key-here\"\n\n# API base URL (env: AZURE_API_BASE)\n# REQUIRED\n# api_base = \"\"\n\n"));
    assert!(text.contains("# Deployment name for your model (env: AZURE_DEPLOYMENT_NAME)\n# REQUIRED\n# deployment_name = \"\"\n\n# Azure API version (env: OPENAI_API_VERSION)\n# api_version = \"2023-05-15\"\n\n\n"));
    assert!(text.contains("[ollama]\n# API base URL (env: OLLAMA_API_BASE)\n# api_base = \"http://localhost:11434\"\n\n"));
    assert!(text.ends_with("# Max tokens for AI completion (env: MISTRAL_MAX_TOKENS)\n# max_tokens = \"\"\n\n\n"));
    // what it documents is a configuration file that loads
    assert!(shell_ai::documents::read_toml(&text).is_ok());
}

#[test]
fn requests_are_addressed_per_provider() {
    let env = env_of(&[
        ("SHAI_API_PROVIDER", "openai"),
        ("OPENAI_API_KEY", "sk-1"),
        ("OPENAI_ORGANIZATION", "org-9"),
        ("OPENAI_API_BASE", "https://proxy.example/"),
    ]);
    let cli = CliOverrides { max_tokens: Some(77), ..CliOverrides::default() };
    let cfg = load_with(&env, None, cli);
    let validated = cfg.validate(&env).unwrap();
    let request = ProviderConfig::from_validated(&validated);
    assert_eq!(
        request,
        ProviderConfig {
            base_url: "https://proxy.example/".to_string(),
            model: "gpt-5".to_string(),
            api_key: Some("sk-1".to_string()),
            temperature: "0.05".to_string(),
            extra_headers: vec![("OpenAI-Organization".to_string(), "org-9".to_string())],
            max_tokens: Some(77),
        }
    );
    assert_eq!(request.chat_completions_url(), "https://proxy.example/v1/chat/completions");
    assert_eq!(request.extra_headers_ref(), vec![("OpenAI-Organization", "org-9")]);
}

#[test]
fn azure_is_addressed_by_its_deployment() {
    let env = env_of(&[
        ("SHAI_API_PROVIDER", "azure"),
        ("OPENAI_API_KEY", "borrowed"),
        ("AZURE_API_KEY", "own-key"),
        ("AZURE_API_BASE", "https://res.azure.example//"),
        ("AZURE_DEPLOYMENT_NAME", "gpt"),
    ]);
    let cfg = load_with(&env, None, CliOverrides::default());
    let validated = cfg.validate(&env).unwrap();
    let request = ProviderConfig::from_validated(&validated);
    assert_eq!(
        request.base_url,
        "https://res.azure.example/openai/deployments/gpt/chat/completions?api-version=2023-05-15"
    );
    assert_eq!(request.model, "");
    assert_eq!(request.api_key.as_deref(), Some("own-key"));
    assert_eq!(request.extra_headers, vec![("api-key".to_string(), "own-key".to_string())]);
    assert_eq!(request.chat_completions_url(), request.base_url);
}

#[test]
fn other_providers_have_their_own_addresses() {
    let env = env_of(&[("SHAI_API_PROVIDER", "ollama")]);
    let cfg = load_with(&env, None, CliOverrides::default());
    let validated = cfg.validate(&env).unwrap();
    let request = ProviderConfig::from_validated(&validated);
    assert_eq!(request.base_url, "http://localhost:11434");
    assert_eq!(request.api_key.as_deref(), Some("ollama"));
    assert_eq!(request.model, "gpt-oss:120b-cloud");
    assert!(request.extra_headers.is_empty());
    assert_eq!(request.chat_completions_url(), "http://localhost:11434/v1/chat/completions");
    let env = env_of(&[("SHAI_API_PROVIDER", "groq"), ("GROQ_API_KEY", "g")]);
    let cfg = load_with(&env, None, CliOverrides::default());
    let validated = cfg.validate(&env).unwrap();
    let request = ProviderConfig::from_validated(&validated);
    assert_eq!(request.chat_completions_url(), "https://api.groq.com/openai/v1/chat/completions");
    let env = env_of(&[("SHAI_API_PROVIDER", "mistral"), ("MISTRAL_API_KEY", "m")]);
    let cfg = load_with(&env, None, CliOverrides::default());
    let validated = cfg.validate(&env).unwrap();
    let request = ProviderConfig::from_validated(&validated);
    assert_eq!(request.base_url, "https://api.mistral.ai");
    assert_eq!(request.api_key.as_deref(), Some("m"));
    assert_eq!(cfg.get_credentials_for(&Provider::Mistral).unwrap().api_key.as_deref(), Some("m"));
    assert_eq!(cfg.current_provider_credentials().unwrap().api_key.as_deref(), Some("m"));
}
