use shell_ai::catalog::env_var_for_field;
use shell_ai::catalog::global_settings_metadata;
use shell_ai::catalog::provider_metadata;
use shell_ai::kinds::DebugLevel;
use shell_ai::kinds::Frontend;
use shell_ai::kinds::LevelFilter;
use shell_ai::kinds::OutputFormat;
use shell_ai::kinds::Provider;
use shell_ai::meta::common_provider_fields;
use shell_ai::meta::contains_name;
use shell_ai::meta::Section;
use shell_ai::source::ConfigSource;
use shell_ai::source::ConfigValue;
use shell_ai::tree::Node;

#[test]
fn global_settings_are_listed_in_order() {
    let names: Vec<&str> = global_settings_metadata().iter().map(|f| f.name).collect();
    assert_eq!(
        names,
        vec![
            "provider",
            "model",
            "temperature",
            "suggestion_count",
            "skip_confirm",
            "frontend",
            "output_format",
            "max_reference_chars",
            "max_tokens",
            "debug"
        ]
    );
    let fields = global_settings_metadata();
    assert_eq!(fields[0].env_var, Some("SHAI_API_PROVIDER"));
    assert_eq!(fields[0].env_aliases, vec!["SHAI_PROVIDER"]);
    assert!(fields[0].required);
    assert_eq!(fields[0].section, Section::Provider);
    assert_eq!(fields[2].default, Some("0.05"));
    assert!(fields[4].deprecated);
    assert!(fields[4].virtual_field);
    assert_eq!(fields[4].section, Section::Ui);
    assert_eq!(fields[7].default, Some("262144"));
    assert_eq!(fields[7].section, Section::Explain);
    assert_eq!(fields[3].section, Section::Suggest);
    assert!(fields.iter().all(|f| !f.sensitive));
}

#[test]
fn sections_have_titles() {
    assert_eq!(Section::Provider.title(), "Provider Settings");
    assert_eq!(Section::Ui.title(), "UI Settings");
    assert_eq!(Section::Suggest.title(), "Suggest Settings");
    assert_eq!(Section::Explain.title(), "Explain Settings");
    assert_eq!(Section::ProviderSpecific.title(), "");
}

#[test]
fn common_fields_are_the_four_shared_ones() {
    let commons = common_provider_fields();
    let names: Vec<&str> = commons.iter().map(|c| c.name).collect();
    assert_eq!(names, vec!["api_key", "api_base", "model", "max_tokens"]);
    assert!(commons[0].required);
    assert!(commons[0].sensitive);
    assert!(!commons[1].required);
}

#[test]
fn all_fields_are_shared_fields_then_own_fields() {
    let names = |p: Provider| -> Vec<&'static str> {
        p.metadata().all_fields().iter().map(|f| f.name).collect()
    };
    assert_eq!(
        names(Provider::OpenAI),
        vec!["api_key", "api_base", "model", "max_tokens", "organization"]
    );
    assert_eq!(names(Provider::Groq), vec!["api_key", "api_base", "model", "max_tokens"]);
    assert_eq!(
        names(Provider::Azure),
        vec!["api_key", "api_base", "max_tokens", "deployment_name", "api_version"]
    );
    assert_eq!(names(Provider::Ollama), vec!["api_base", "model", "max_tokens"]);
    assert_eq!(names(Provider::Mistral), vec!["api_key", "api_base", "model", "max_tokens"]);
    // the order is the same on every call
    assert_eq!(names(Provider::Azure), names(Provider::Azure));
}

#[test]
fn overrides_bend_the_shared_fields() {
    let openai = Provider::OpenAI.metadata();
    let key = openai.resolved_field("api_key").unwrap();
    assert_eq!(key.env_var, Some("OPENAI_API_KEY"));
    assert_eq!(key.default, None);
    assert!(key.required);
    assert!(key.sensitive);
    assert_eq!(key.description, "API key for authentication");
    assert_eq!(key.section, Section::ProviderSpecific);
    assert!(key.env_aliases.is_empty());
    let model = openai.resolved_field("model").unwrap();
    assert_eq!(model.default, Some("gpt-5"));
    assert!(!model.required);
    let azure = Provider::Azure.metadata();
    let base = azure.resolved_field("api_base").unwrap();
    assert!(base.required);
    assert_eq!(base.env_var, Some("AZURE_API_BASE"));
    assert!(azure.resolved_field("model").is_none());
    assert!(azure.resolved_field("deployment_name").unwrap().required);
    assert_eq!(azure.resolved_field("api_version").unwrap().default, Some("2023-05-15"));
    assert_eq!(azure.resolved_field("api_version").unwrap().env_var, Some("OPENAI_API_VERSION"));
    let groq = Provider::Groq.metadata();
    assert_eq!(groq.resolved_field("api_base").unwrap().env_var, None);
    assert_eq!(groq.resolved_field("api_base").unwrap().default, Some("https://api.groq.com/openai"));
    let ollama = Provider::Ollama.metadata();
    assert!(ollama.resolved_field("api_key").is_none());
    assert!(ollama.resolved_field("organization").is_none());
    assert!(openai.resolved_field("nothing").is_none());
}

#[test]
fn a_skipped_field_resolves_as_not_required() {
    let ollama = Provider::Ollama.metadata();
    let commons = common_provider_fields();
    let key = ollama.resolve_common_field(&commons[0]);
    assert_eq!(key.name, "api_key");
    assert!(!key.required);
    assert_eq!(key.env_var, None);
    // An override that speaks of the requirement wins over the shared field.
    let groq = Provider::Groq.metadata();
    assert!(!groq.resolve_common_field(&commons[0]).required);
    let azure = Provider::Azure.metadata();
    assert!(!azure.resolve_common_field(&commons[0]).required);
    assert!(azure.resolve_common_field(&commons[1]).required);
    // Where the override is silent, the shared field decides.
    let openai = Provider::OpenAI.metadata();
    assert!(openai.resolve_common_field(&commons[0]).required);
    let mistral = Provider::Mistral.metadata();
    assert!(mistral.resolve_common_field(&commons[0]).required);
    assert!(!mistral.resolve_common_field(&commons[1]).required);
}

#[test]
fn providers_are_listed_in_table_order() {
    let metas = provider_metadata();
    let names: Vec<&str> = metas.iter().map(|m| m.name).collect();
    assert_eq!(names, vec!["openai", "groq", "azure", "ollama", "mistral"]);
    let display: Vec<&str> = metas.iter().map(|m| m.display_name).collect();
    assert_eq!(display, vec!["OpenAI", "Groq", "Azure OpenAI", "Ollama", "Mistral AI"]);
    assert_eq!(metas[2].skip_common, vec!["model"]);
    assert_eq!(metas[3].skip_common, vec!["api_key"]);
    assert_eq!(metas[3].description, "Local Ollama instance (no API key required)");
    assert_eq!(Provider::all(), vec![
        Provider::OpenAI,
        Provider::Groq,
        Provider::Azure,
        Provider::Ollama,
        Provider::Mistral
    ]);
    assert_eq!(Provider::Azure.index(), 2);
}

#[test]
fn variables_are_found_by_path() {
    assert_eq!(env_var_for_field("provider"), Some("SHAI_API_PROVIDER"));
    assert_eq!(env_var_for_field("skip_confirm"), Some("SHAI_SKIP_CONFIRM"));
    assert_eq!(env_var_for_field("openai.api_key"), Some("OPENAI_API_KEY"));
    assert_eq!(env_var_for_field("azure.api_version"), Some("OPENAI_API_VERSION"));
    assert_eq!(env_var_for_field("groq.api_base"), None);
    assert_eq!(env_var_for_field("azure.model"), None);
    assert_eq!(env_var_for_field("ollama.api_key"), None);
    assert_eq!(env_var_for_field("nothing"), None);
    assert_eq!(env_var_for_field("openai"), None);
}

#[test]
fn names_are_matched_exactly() {
    assert!(contains_name(&vec!["model", "api_key"], "api_key"));
    assert!(!contains_name(&vec!["model", "api_key"], "api"));
    assert!(!contains_name(&vec![], "api_key"));
    assert_eq!(Provider::from_name("openai"), Some(Provider::OpenAI));
    assert_eq!(Provider::from_name("OpenAI"), None);
    assert_eq!(Provider::from_name("mistral"), Some(Provider::Mistral));
    assert_eq!(Provider::Groq.name(), "groq");
    assert_eq!(Frontend::from_name("noninteractive"), Some(Frontend::Noninteractive));
    assert_eq!(Frontend::from_name("Dialog"), None);
    assert_eq!(Frontend::Readline.name(), "readline");
    assert_eq!(Frontend::all().len(), 3);
    assert_eq!(Frontend::default(), Frontend::Dialog);
    assert_eq!(OutputFormat::from_name("json"), Some(OutputFormat::Json));
    assert_eq!(OutputFormat::from_name(""), None);
    assert_eq!(OutputFormat::all(), vec![OutputFormat::Human, OutputFormat::Json]);
    assert_eq!(OutputFormat::default(), OutputFormat::Human);
    assert_eq!(DebugLevel::from_name("trace"), Some(DebugLevel::Trace));
    assert_eq!(DebugLevel::from_name("verbose"), None);
    assert_eq!(DebugLevel::Warn.name(), "warn");
}

#[test]
fn debug_levels_map_to_filters() {
    assert_eq!(DebugLevel::Error.to_level_filter(), LevelFilter::Error);
    assert_eq!(DebugLevel::Warn.to_level_filter(), LevelFilter::Warn);
    assert_eq!(DebugLevel::Info.to_level_filter(), LevelFilter::Info);
    assert_eq!(DebugLevel::Debug.to_level_filter(), LevelFilter::Debug);
    assert_eq!(DebugLevel::Trace.to_level_filter(), LevelFilter::Trace);
}

#[test]
fn sources_have_labels_and_ranks() {
    assert_eq!(ConfigSource::Default.name(), "default");
    assert_eq!(ConfigSource::TomlFile.name(), "toml");
    assert_eq!(ConfigSource::JsonFile.name(), "json");
    assert_eq!(ConfigSource::Environment.name(), "env");
    assert_eq!(ConfigSource::Cli.name(), "cli");
    let ranks: Vec<u8> = vec![
        ConfigSource::Default,
        ConfigSource::TomlFile,
        ConfigSource::JsonFile,
        ConfigSource::Environment,
        ConfigSource::Cli,
    ]
    .into_iter()
    .map(|s| s.precedence())
    .collect();
    assert_eq!(ranks, vec![0, 1, 2, 3, 4]);
    let value = ConfigValue::new(7u32, ConfigSource::Cli);
    assert_eq!(value.value, 7);
    assert_eq!(value.source, ConfigSource::Cli);
}

#[test]
fn defaults_are_read_as_loosely_typed_literals() {
    let fields = global_settings_metadata();
    assert_eq!(fields[0].default_json_value(), None);
    assert_eq!(fields[2].default_json_value(), Some(Node::Number("0.05".to_string())));
    assert_eq!(fields[3].default_json_value(), Some(Node::Number("3".to_string())));
    assert_eq!(fields[4].default_json_value(), Some(Node::Bool(false)));
    assert_eq!(fields[5].default_json_value(), Some(Node::Text("dialog".to_string())));
    let azure = Provider::Azure.metadata();
    let version = azure.resolved_field("api_version").unwrap();
    assert_eq!(version.default_json_value(), Some(Node::Text("2023-05-15".to_string())));
    let mut made_up = fields[3].copy();
    made_up.default = Some("+007");
    assert_eq!(made_up.default_json_value(), Some(Node::Number("7".to_string())));
    made_up.default = Some("-12");
    assert_eq!(made_up.default_json_value(), Some(Node::Number("-12".to_string())));
    made_up.default = Some("1e3");
    assert_eq!(made_up.default_json_value(), Some(Node::Number("1e3".to_string())));
    made_up.default = Some("-inf");
    assert_eq!(made_up.default_json_value(), Some(Node::Null));
    made_up.default = Some("NaN");
    assert_eq!(made_up.default_json_value(), Some(Node::Null));
    made_up.default = Some("true");
    assert_eq!(made_up.default_json_value(), Some(Node::Bool(true)));
    made_up.default = Some("True");
    assert_eq!(made_up.default_json_value(), Some(Node::Text("True".to_string())));
    made_up.default = Some("");
    assert_eq!(made_up.default_json_value(), Some(Node::Text("".to_string())));
}

#[test]
fn a_shared_field_that_is_left_out_is_not_found_among_the_own_fields() {
    let mut ollama = Provider::Ollama.metadata();
    assert!(ollama.resolved_field("api_key").is_none());
    let own = ollama.resolved_field("api_base").unwrap();
    // An own field under the name of a shared field that is left out.
    ollama.extra_fields.push(shell_ai::meta::FieldMeta {
        name: "api_key",
        ..own
    });
    assert!(ollama.resolved_field("api_key").is_none());
    // An own field under another name is found.
    let other = ollama.resolved_field("api_base").unwrap();
    ollama.extra_fields.push(shell_ai::meta::FieldMeta {
        name: "flavour",
        ..other
    });
    assert_eq!(ollama.resolved_field("flavour").unwrap().name, "flavour");
    assert!(ollama.resolved_field("unknown").is_none());
}
