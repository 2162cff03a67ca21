use shell_ai::builder::ConfigBuilder;
use shell_ai::decode::DecodeError;
use shell_ai::documents::read_json;
use shell_ai::hints::format_decode_error;
use shell_ai::hints::mask_value;
use shell_ai::hints::source_to_hint;
use shell_ai::hints::strip_json_location;
use shell_ai::source::ConfigSource;

#[test]
fn flags_are_named_with_two_dashes_and_hyphens_for_dots() {
    assert_eq!(source_to_hint(ConfigSource::Cli, "model", None), "--model");
    assert_eq!(source_to_hint(ConfigSource::Cli, "openai.api_key", None), "--openai-api_key");
    assert_eq!(source_to_hint(ConfigSource::Cli, "a.b.c", Some("IGNORED")), "--a-b-c");
    assert_eq!(source_to_hint(ConfigSource::Cli, "", None), "--");
}

#[test]
fn variables_are_named_as_recorded_then_by_the_catalogue_then_in_upper_case() {
    assert_eq!(
        source_to_hint(ConfigSource::Environment, "provider", Some("SHAI_PROVIDER")),
        "SHAI_PROVIDER"
    );
    assert_eq!(source_to_hint(ConfigSource::Environment, "provider", None), "SHAI_API_PROVIDER");
    assert_eq!(
        source_to_hint(ConfigSource::Environment, "azure.deployment_name", None),
        "AZURE_DEPLOYMENT_NAME"
    );
    assert_eq!(source_to_hint(ConfigSource::Environment, "groq.api_base", None), "GROQ.API_BASE");
    assert_eq!(source_to_hint(ConfigSource::Environment, "locale", None), "LOCALE");
    assert_eq!(source_to_hint(ConfigSource::Environment, "straße", None), "STRASSE");
}

#[test]
fn files_and_defaults_have_fixed_names() {
    assert_eq!(source_to_hint(ConfigSource::TomlFile, "model", None), "config.toml");
    assert_eq!(source_to_hint(ConfigSource::JsonFile, "model", Some("X")), "config.json");
    assert_eq!(source_to_hint(ConfigSource::Default, "model", None), "default");
}

#[test]
fn the_place_in_the_document_is_stripped_from_messages() {
    assert_eq!(
        strip_json_location("unknown variant `x` at line 1 column 20".to_string()),
        "unknown variant `x`"
    );
    assert_eq!(strip_json_location("no place here".to_string()), "no place here");
    assert_eq!(
        strip_json_location("a at line 1 b at line 2 column 3".to_string()),
        "a at line 1 b"
    );
    assert_eq!(strip_json_location(" at line ".to_string()), "");
    assert_eq!(strip_json_location("".to_string()), "");
    assert_eq!(strip_json_location("at line 5".to_string()), "at line 5");
    assert_eq!(strip_json_location("x at line".to_string()), "x at line");
    assert_eq!(strip_json_location("é at line 1".to_string()), "é");
}

#[test]
fn decode_errors_are_reported_with_their_origin() {
    let mut builder = ConfigBuilder::new();
    builder.merge_layer(&read_json("{\"frontend\": \"x\", \"openai\": {\"max_tokens\": \"y\"}}").unwrap(), ConfigSource::TomlFile);
    builder.merge_layer(&read_json("{\"frontend\": \"z\"}").unwrap(), ConfigSource::Environment);
    builder.record_env_var("frontend", "SHAI_SKIP_CONFIRM");
    let report = format_decode_error(
        DecodeError { path: "frontend".to_string(), message: "bad at line 1 column 2".to_string() },
        &builder,
    );
    assert_eq!(report, "SHAI_SKIP_CONFIRM: bad");
    let report = format_decode_error(
        DecodeError { path: "openai.max_tokens".to_string(), message: "worse".to_string() },
        &builder,
    );
    assert_eq!(report, "config.toml: worse");
    let report = format_decode_error(
        DecodeError { path: "debug".to_string(), message: "odd".to_string() },
        &builder,
    );
    assert_eq!(report, "default: odd");
    let report = format_decode_error(
        DecodeError { path: "".to_string(), message: "whole at line 3 column 1".to_string() },
        &builder,
    );
    assert_eq!(report, "whole");
}

#[test]
fn sensitive_values_are_masked() {
    assert_eq!(mask_value(""), "");
    assert_eq!(mask_value("(not set)"), "(not set)");
    assert_eq!(mask_value("abc"), "****");
    assert_eq!(mask_value("abcdef"), "****");
    assert_eq!(mask_value("abcdefg"), "****bcdefg");
    assert_eq!(mask_value("sk-1234567890"), "****567890");
    assert_eq!(mask_value("(not set) "), "**** set) ");
}
