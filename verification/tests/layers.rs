use shell_ai::builder::ConfigBuilder;
use shell_ai::kinds::DebugLevel;
use shell_ai::layers::cli_to_json;
use shell_ai::layers::defaults_to_json;
use shell_ai::layers::env_to_json;
use shell_ai::layers::CliOverrides;
use shell_ai::layers::Environment;
use shell_ai::tree::Node;

fn text(s: &str) -> Node {
    Node::Text(s.to_string())
}

fn number(s: &str) -> Node {
    Node::Number(s.to_string())
}

fn entry(key: &str, value: Node) -> (String, Node) {
    (key.to_string(), value)
}

#[test]
fn defaults_come_from_the_catalogue() {
    let expected = Node::Table(vec![
        entry("temperature", number("0.05")),
        entry("suggestion_count", number("3")),
        entry("frontend", text("dialog")),
        entry("output_format", text("human")),
        entry("max_reference_chars", number("262144")),
        entry(
            "openai",
            Node::Table(vec![
                entry("api_base", text("https://api.openai.com")),
                entry("model", text("gpt-5")),
            ]),
        ),
        entry(
            "groq",
            Node::Table(vec![
                entry("api_base", text("https://api.groq.com/openai")),
                entry("model", text("openai/gpt-oss-120b")),
            ]),
        ),
        entry("azure", Node::Table(vec![entry("api_version", text("2023-05-15"))])),
        entry(
            "ollama",
            Node::Table(vec![
                entry("api_base", text("http://localhost:11434")),
                entry("model", text("gpt-oss:120b-cloud")),
            ]),
        ),
        entry(
            "mistral",
            Node::Table(vec![
                entry("api_base", text("https://api.mistral.ai")),
                entry("model", text("codestral-2508")),
            ]),
        ),
    ]);
    assert_eq!(defaults_to_json(), expected);
}

#[test]
fn an_empty_environment_gives_an_empty_layer() {
    let mut builder = ConfigBuilder::new();
    let layer = env_to_json(&mut builder, &Environment::new());
    assert_eq!(layer, Node::Table(vec![]));
    assert_eq!(builder.get_env_var_used("provider"), None);
}

#[test]
fn the_environment_is_read_by_the_catalogue() {
    let mut env = Environment::new();
    env.set("SHAI_MODEL", "m");
    env.set("SHAI_DEBUG", "trace");
    env.set("SHAI_SKIP_CONFIRM", "yes");
    env.set("SHAI_TEMPERATURE", "");
    env.set("MISTRAL_API_KEY", "k");
    env.set("GROQ_MAX_TOKENS", "10");
    env.set("UNRELATED", "x");
    assert_eq!(env.var("SHAI_MODEL"), Some("m"));
    assert_eq!(env.var("SHAI_TEMPERATURE"), Some(""));
    assert_eq!(env.var("MISSING"), None);
    let mut builder = ConfigBuilder::new();
    let layer = env_to_json(&mut builder, &env);
    let expected = Node::Table(vec![
        entry("model", text("m")),
        entry("debug", text("trace")),
        entry("groq", Node::Table(vec![entry("max_tokens", text("10"))])),
        entry("mistral", Node::Table(vec![entry("api_key", text("k"))])),
    ]);
    assert_eq!(layer, expected);
    assert_eq!(builder.get_env_var_used("model"), Some("SHAI_MODEL"));
    assert_eq!(builder.get_env_var_used("groq.max_tokens"), Some("GROQ_MAX_TOKENS"));
    assert_eq!(builder.get_env_var_used("temperature"), None);
    assert_eq!(builder.get_env_var_used("skip_confirm"), None);
    // reading the environment writes nothing into the builder's tree
    assert_eq!(*builder.config(), Node::Table(vec![]));
}

#[test]
fn a_variable_set_twice_has_its_last_value() {
    let mut env = Environment::new();
    env.set("SHAI_MODEL", "first");
    env.set("SHAI_MODEL", "second");
    assert_eq!(env.var("SHAI_MODEL"), Some("second"));
}

#[test]
fn the_legacy_switch_is_read_in_any_case() {
    let mut env = Environment::new();
    env.set("SHAI_SKIP_CONFIRM", "TrUe");
    let mut builder = ConfigBuilder::new();
    let layer = env_to_json(&mut builder, &env);
    assert_eq!(layer, Node::Table(vec![entry("frontend", text("noninteractive"))]));
    assert_eq!(builder.get_env_var_used("frontend"), Some("SHAI_SKIP_CONFIRM"));
    // an explicit frontend wins over the switch
    env.set("SHAI_FRONTEND", "dialog");
    let mut builder = ConfigBuilder::new();
    let layer = env_to_json(&mut builder, &env);
    assert_eq!(layer, Node::Table(vec![entry("frontend", text("dialog"))]));
    assert_eq!(builder.get_env_var_used("frontend"), Some("SHAI_FRONTEND"));
}

#[test]
fn flags_that_were_not_given_are_left_out() {
    assert_eq!(cli_to_json(&CliOverrides::default()), Node::Table(vec![]));
    let cli = CliOverrides {
        provider: Some("groq".to_string()),
        max_tokens: Some(0),
        debug: Some(DebugLevel::Info),
        ..CliOverrides::default()
    };
    let expected = Node::Table(vec![
        entry("provider", text("groq")),
        entry("max_tokens", number("0")),
        entry("debug", text("info")),
    ]);
    assert_eq!(cli_to_json(&cli), expected);
}

#[test]
fn every_flag_has_its_entry() {
    let cli = CliOverrides {
        provider: Some("openai".to_string()),
        model: Some("".to_string()),
        max_tokens: Some(4294967295),
        temperature: Some("0.699999988079071".to_string()),
        frontend: Some("readline".to_string()),
        output_format: Some("json".to_string()),
        debug: Some(DebugLevel::Trace),
        locale: Some("fr".to_string()),
    };
    let expected = Node::Table(vec![
        entry("provider", text("openai")),
        entry("model", text("")),
        entry("max_tokens", number("4294967295")),
        entry("temperature", number("0.699999988079071")),
        entry("frontend", text("readline")),
        entry("output_format", text("json")),
        entry("debug", text("trace")),
        entry("locale", text("fr")),
    ]);
    assert_eq!(cli_to_json(&cli), expected);
}

#[test]
fn the_legacy_switch_decides_only_without_a_frontend_variable() {
    assert!(shell_ai::layers::legacy_switch_on("true"));
    assert!(!shell_ai::layers::legacy_switch_on("True"));
    assert!(!shell_ai::layers::legacy_switch_on("1"));
    assert!(!shell_ai::layers::legacy_switch_on(""));
    assert!(shell_ai::layers::legacy_switch_decides("true", false));
    assert!(!shell_ai::layers::legacy_switch_decides("true", true));
    assert!(!shell_ai::layers::legacy_switch_decides("false", false));
    assert!(!shell_ai::layers::legacy_switch_decides("yes", false));
}
