use shell_ai::decode::decode;
use shell_ai::decode::decode_format;
use shell_ai::decode::decode_frontend;
use shell_ai::decode::decode_level;
use shell_ai::decode::decode_provider;
use shell_ai::decode::decode_text;
use shell_ai::decode::deserialize_flexible;
use shell_ai::decode::deserialize_flexible_float;
use shell_ai::decode::DecodeError;
use shell_ai::decode::ProviderCredentials;
use shell_ai::documents::read_json;
use shell_ai::kinds::DebugLevel;
use shell_ai::kinds::Frontend;
use shell_ai::kinds::OutputFormat;
use shell_ai::kinds::Provider;
use shell_ai::literal::float_literal;
use shell_ai::literal::parse_i64;
use shell_ai::literal::parse_u32;
use shell_ai::literal::render_i64;
use shell_ai::literal::render_u32;
use shell_ai::literal::render_u64;
use shell_ai::literal::IntError;
use shell_ai::tree::Node;

fn json(text: &str) -> Node {
    read_json(text).unwrap()
}

fn failure(path: &str, message: &str) -> DecodeError {
    DecodeError { path: path.to_string(), message: message.to_string() }
}

#[test]
fn an_empty_tree_decodes_to_nothing_given() {
    let parsed = decode(&json("{}")).unwrap();
    assert_eq!(parsed.provider, None);
    assert_eq!(parsed.model, None);
    assert_eq!(parsed.temperature, None);
    assert_eq!(parsed.suggestion_count, None);
    assert_eq!(parsed.frontend, None);
    assert_eq!(parsed.output_format, None);
    assert_eq!(parsed.max_reference_chars, None);
    assert_eq!(parsed.max_tokens, None);
    assert_eq!(parsed.debug, None);
    assert!(parsed.openai.is_none());
    assert!(parsed.mistral.is_none());
}

#[test]
fn a_full_tree_decodes_field_by_field() {
    let parsed = decode(&json(
        "{\"provider\": \"azure\", \"model\": \"m\", \"temperature\": 1, \"suggestion_count\": \"2\", \"frontend\": \"readline\", \"output_format\": \"json\", \"max_reference_chars\": 0, \"max_tokens\": 4294967295, \"debug\": \"warn\", \"unknown\": [1], \"azure\": {\"api_key\": \"k\", \"api_base\": \"b\", \"model\": \"x\", \"max_tokens\": \"5\", \"organization\": \"o\", \"deployment_name\": \"d\", \"api_version\": \"v\", \"extra\": {}}, \"groq\": null, \"ollama\": {}}",
    ))
    .unwrap();
    assert_eq!(parsed.provider, Some(Provider::Azure));
    assert_eq!(parsed.model.as_deref(), Some("m"));
    assert_eq!(parsed.temperature.as_deref(), Some("1"));
    assert_eq!(parsed.suggestion_count, Some(2));
    assert_eq!(parsed.frontend, Some(Frontend::Readline));
    assert_eq!(parsed.output_format, Some(OutputFormat::Json));
    assert_eq!(parsed.max_reference_chars, Some(0));
    assert_eq!(parsed.max_tokens, Some(4294967295));
    assert_eq!(parsed.debug, Some(DebugLevel::Warn));
    let azure = parsed.azure.unwrap();
    assert_eq!(
        azure,
        ProviderCredentials {
            api_key: Some("k".to_string()),
            api_base: Some("b".to_string()),
            model: Some("x".to_string()),
            max_tokens: Some(5),
            organization: Some("o".to_string()),
            deployment_name: Some("d".to_string()),
            api_version: Some("v".to_string()),
        }
    );
    assert!(parsed.groq.is_none());
    assert_eq!(parsed.ollama, Some(ProviderCredentials::blank()));
    assert!(parsed.openai.is_none());
}

#[test]
fn the_first_failure_in_the_order_of_the_names_is_reported() {
    // `debug` comes before `frontend`, and both before `openai`.
    let err = decode(&json("{\"frontend\": 3, \"debug\": \"loud\", \"openai\": {\"api_key\": 1}}"))
        .unwrap_err();
    assert_eq!(
        err,
        failure(
            "debug",
            "unknown variant `loud`, expected one of `error`, `warn`, `info`, `debug`, `trace`"
        )
    );
    // A section is read to its end before what follows it: `azure` before `debug`.
    let err = decode(&json("{\"debug\": \"loud\", \"azure\": {\"model\": 1}}")).unwrap_err();
    assert_eq!(err, failure("azure.model", "invalid type: number `1`, expected a string"));
    // Within a section: `api_key` before `model`.
    let err = decode(&json("{\"openai\": {\"model\": [], \"api_key\": true}, \"temperature\": []}"))
        .unwrap_err();
    assert_eq!(err, failure("openai.api_key", "invalid type: boolean `true`, expected a string"));
    // `groq` before `mistral`, `mistral` before `model`, `model` before `provider`.
    let err = decode(&json("{\"mistral\": {\"max_tokens\": -1}, \"groq\": 1}")).unwrap_err();
    assert_eq!(
        err,
        failure("groq", "invalid type: number `1`, expected a table of provider settings")
    );
    let err = decode(&json("{\"model\": 1, \"mistral\": {\"max_tokens\": -1}}")).unwrap_err();
    assert_eq!(
        err,
        failure(
            "mistral.max_tokens",
            "invalid type: number `-1`, expected a 32-bit unsigned integer or a string that spells one"
        )
    );
    let err = decode(&json("{\"provider\": \"x\", \"model\": 1}")).unwrap_err();
    assert_eq!(err, failure("model", "invalid type: number `1`, expected a string"));
    let err = decode(&json("{\"temperature\": [], \"suggestion_count\": []}")).unwrap_err();
    assert_eq!(
        err,
        failure(
            "suggestion_count",
            "invalid type: a sequence, expected a 32-bit unsigned integer or a string that spells one"
        )
    );
}

#[test]
fn every_kind_of_field_has_its_errors() {
    let cases: Vec<(&str, &str, &str)> = vec![
        ("{\"provider\": \"x\"}", "provider", "unknown variant `x`, expected one of `openai`, `groq`, `azure`, `ollama`, `mistral`"),
        ("{\"provider\": {}}", "provider", "invalid type: a map, expected a provider name"),
        ("{\"model\": 1.5}", "model", "invalid type: number `1.5`, expected a string"),
        ("{\"model\": [\"a\"]}", "model", "invalid type: a sequence, expected a string"),
        ("{\"temperature\": \"warm\"}", "temperature", "invalid value \"warm\": invalid float literal"),
        ("{\"temperature\": \"\"}", "temperature", "invalid value \"\": cannot parse float from empty string"),
        ("{\"temperature\": false}", "temperature", "invalid type: boolean `false`, expected a number or a string that spells one"),
        ("{\"suggestion_count\": \"\"}", "suggestion_count", "invalid value \"\": cannot parse integer from empty string"),
        ("{\"suggestion_count\": \"3 \"}", "suggestion_count", "invalid value \"3 \": invalid digit found in string"),
        ("{\"suggestion_count\": \"4294967296\"}", "suggestion_count", "invalid value \"4294967296\": number too large to fit in target type"),
        ("{\"suggestion_count\": 4294967296}", "suggestion_count", "invalid type: number `4294967296`, expected a 32-bit unsigned integer or a string that spells one"),
        ("{\"suggestion_count\": 1.5}", "suggestion_count", "invalid type: number `1.5`, expected a 32-bit unsigned integer or a string that spells one"),
        ("{\"frontend\": \"Dialog\"}", "frontend", "unknown variant `Dialog`, expected one of `dialog`, `readline`, `noninteractive`"),
        ("{\"output_format\": \"yaml\"}", "output_format", "unknown variant `yaml`, expected `human` or `json`"),
        ("{\"output_format\": true}", "output_format", "invalid type: boolean `true`, expected an output format name"),
        ("{\"max_reference_chars\": []}", "max_reference_chars", "invalid type: a sequence, expected a 32-bit unsigned integer or a string that spells one"),
        ("{\"max_tokens\": \"-5\"}", "max_tokens", "invalid value \"-5\": invalid digit found in string"),
        ("{\"debug\": \"all\"}", "debug", "unknown variant `all`, expected one of `error`, `warn`, `info`, `debug`, `trace`"),
        ("{\"debug\": 1}", "debug", "invalid type: number `1`, expected a debug level name"),
        ("{\"ollama\": \"x\"}", "ollama", "invalid type: string \"x\", expected a table of provider settings"),
    ];
    for (document, path, message) in cases {
        assert_eq!(decode(&json(document)).unwrap_err(), failure(path, message), "{}", document);
    }
}

#[test]
fn single_fields_decode_on_their_own() {
    let n = Node::Null;
    assert_eq!(decode_text(None), Ok(None));
    assert_eq!(decode_text(Some(&n)), Ok(None));
    assert_eq!(decode_text(Some(&Node::Text("a".to_string()))), Ok(Some("a".to_string())));
    assert_eq!(decode_provider(Some(&Node::Text("ollama".to_string()))), Ok(Some(Provider::Ollama)));
    assert_eq!(decode_provider(Some(&n)), Ok(None));
    assert_eq!(decode_frontend(None), Ok(None));
    assert_eq!(decode_format(Some(&Node::Text("human".to_string()))), Ok(Some(OutputFormat::Human)));
    assert_eq!(decode_level(Some(&Node::Text("error".to_string()))), Ok(Some(DebugLevel::Error)));
    assert_eq!(deserialize_flexible(Some(&Node::Number("12".to_string()))), Ok(Some(12)));
    assert_eq!(deserialize_flexible(Some(&Node::Text("+12".to_string()))), Ok(Some(12)));
    assert_eq!(deserialize_flexible(Some(&n)), Ok(None));
    assert_eq!(
        deserialize_flexible_float(Some(&Node::Number("2.5e3".to_string()))),
        Ok(Some("2.5e3".to_string()))
    );
    assert_eq!(
        deserialize_flexible_float(Some(&Node::Text("-Infinity".to_string()))),
        Ok(Some("-Infinity".to_string()))
    );
    assert!(deserialize_flexible_float(Some(&Node::Text("1.".to_string()))).is_ok());
    assert!(deserialize_flexible_float(Some(&Node::Text(".".to_string()))).is_err());
}

#[test]
fn unsigned_integers_are_read_as_rust_reads_them() {
    assert_eq!(parse_u32("0"), Ok(0));
    assert_eq!(parse_u32("+0"), Ok(0));
    assert_eq!(parse_u32("007"), Ok(7));
    assert_eq!(parse_u32("4294967295"), Ok(4294967295));
    assert_eq!(parse_u32("4294967296"), Err(IntError::TooLarge));
    assert_eq!(parse_u32("99999999999999999999999999"), Err(IntError::TooLarge));
    assert_eq!(parse_u32(""), Err(IntError::Empty));
    assert_eq!(parse_u32("+"), Err(IntError::InvalidDigit));
    assert_eq!(parse_u32("-1"), Err(IntError::InvalidDigit));
    assert_eq!(parse_u32("1_000"), Err(IntError::InvalidDigit));
    assert_eq!(parse_u32(" 1"), Err(IntError::InvalidDigit));
    assert_eq!(parse_u32("١"), Err(IntError::InvalidDigit));
    for text in ["0", "+0", "007", "4294967295", "4294967296", "", "+", "-1", "1_000", " 1"] {
        assert_eq!(parse_u32(text).is_ok(), text.parse::<u32>().is_ok(), "{}", text);
        if let Ok(n) = text.parse::<u32>() {
            assert_eq!(parse_u32(text), Ok(n));
        }
    }
    assert_eq!(IntError::Empty.message(), "cannot parse integer from empty string");
    assert_eq!(IntError::InvalidDigit.message(), "invalid digit found in string");
    assert_eq!(IntError::TooLarge.message(), "number too large to fit in target type");
}

#[test]
fn signed_integers_are_read_as_rust_reads_them() {
    for text in [
        "0", "-0", "+5", "-5", "9223372036854775807", "9223372036854775808",
        "-9223372036854775808", "-9223372036854775809", "", "-", "+", "--1", "1.0", "0x10",
    ] {
        assert_eq!(parse_i64(text), text.parse::<i64>().ok(), "{}", text);
    }
}

#[test]
fn floating_point_literals_are_recognised_as_rust_recognises_them() {
    for text in [
        "0", "1.5", "-1.5", "+.5", "5.", ".", "", "+", "1e5", "1E5", "1e", "1e+", "1e+5", "1.e-3",
        ".e3", "e3", "inf", "-inf", "+INF", "Infinity", "-INFINITY", "infinit", "nan", "NaN",
        "-nan", "nano", "1_0", " 1", "1 ", "0x10", "1.5.2", "--1", "1e5.0", "١",
    ] {
        assert_eq!(float_literal(text), text.parse::<f32>().is_ok(), "{}", text);
    }
}

#[test]
fn integers_are_written_in_decimal() {
    assert_eq!(render_u32(0), "0");
    assert_eq!(render_u32(10), "10");
    assert_eq!(render_u32(4294967295), "4294967295");
    assert_eq!(render_u64(18446744073709551615), "18446744073709551615");
    assert_eq!(render_i64(0), "0");
    assert_eq!(render_i64(-1), "-1");
    assert_eq!(render_i64(9223372036854775807), "9223372036854775807");
    assert_eq!(render_i64(i64::MIN), "-9223372036854775808");
    for n in [0u32, 7, 19, 100, 65535, 4000000000] {
        assert_eq!(render_u32(n), n.to_string());
    }
}

#[test]
fn credentials_hand_out_their_fields_by_name() {
    let creds = ProviderCredentials {
        api_key: Some("k".to_string()),
        api_base: None,
        model: Some("".to_string()),
        max_tokens: Some(1024),
        organization: Some("o".to_string()),
        deployment_name: Some("d".to_string()),
        api_version: Some("v".to_string()),
    };
    assert_eq!(creds.get_field("api_key").as_deref(), Some("k"));
    assert_eq!(creds.get_field("api_base"), None);
    assert_eq!(creds.get_field("model").as_deref(), Some(""));
    assert_eq!(creds.get_field("max_tokens").as_deref(), Some("1024"));
    assert_eq!(creds.get_field("organization").as_deref(), Some("o"));
    assert_eq!(creds.get_field("deployment_name").as_deref(), Some("d"));
    assert_eq!(creds.get_field("api_version").as_deref(), Some("v"));
    assert_eq!(creds.get_field("API_KEY"), None);
    assert_eq!(creds.get_field(""), None);
    assert_eq!(creds.copy(), creds);
    assert_eq!(ProviderCredentials::blank().get_field("max_tokens"), None);
}

#[test]
fn float_literals_are_those_that_the_standard_library_reads() {
    let alphabet: Vec<char> = "+-.eE019infaNty_ ".chars().collect();
    let mut level: Vec<String> = vec![String::new()];
    let mut count = 0;
    for _ in 0..4 {
        let mut next = Vec::new();
        for text in &level {
            for c in &alphabet {
                let mut longer = text.clone();
                longer.push(*c);
                assert_eq!(
                    float_literal(&longer),
                    longer.parse::<f32>().is_ok(),
                    "{:?}",
                    longer
                );
                count += 1;
                next.push(longer);
            }
        }
        level = next;
    }
    assert_eq!(count, 17 + 289 + 4913 + 83521);
    let digits: Vec<char> = "+-.e5".chars().collect();
    let mut level: Vec<String> = vec![String::new()];
    for _ in 0..7 {
        let mut next = Vec::new();
        for text in &level {
            for c in &digits {
                let mut longer = text.clone();
                longer.push(*c);
                assert_eq!(
                    float_literal(&longer),
                    longer.parse::<f32>().is_ok(),
                    "{:?}",
                    longer
                );
                next.push(longer);
            }
        }
        level = next;
    }
    for text in [
        "infinity", "Infinity", "INFINITY", "+infinity", "-InFiNiTy", "infinit", "infinityy",
        "nan", "NaN", "-nan", "+NAN", "nane", "1e400", "1e-400", "0x10", "1_000", "١٢٣", "1.5f32",
        "1e+5", "1E-5", ".5e1", "5.e1", "e1", "1e", "1e+", "٠.٥",
    ] {
        assert_eq!(float_literal(text), text.parse::<f32>().is_ok(), "{:?}", text);
    }
}

#[test]
fn integer_literals_are_those_that_the_standard_library_reads() {
    let alphabet: Vec<char> = "+-0159 a.".chars().collect();
    let mut level: Vec<String> = vec![String::new()];
    for _ in 0..5 {
        let mut next = Vec::new();
        for text in &level {
            for c in &alphabet {
                let mut longer = text.clone();
                longer.push(*c);
                assert_eq!(parse_u32(&longer).ok(), longer.parse::<u32>().ok(), "{:?}", longer);
                assert_eq!(parse_i64(&longer), longer.parse::<i64>().ok(), "{:?}", longer);
                next.push(longer);
            }
        }
        level = next;
    }
    for text in [
        "4294967295", "4294967296", "+4294967295", "9223372036854775807", "9223372036854775808",
        "-9223372036854775808", "-9223372036854775809", "00000000000000000000000001", "١٢٣",
    ] {
        assert_eq!(parse_u32(text).ok(), text.parse::<u32>().ok(), "{:?}", text);
        assert_eq!(parse_i64(text), text.parse::<i64>().ok(), "{:?}", text);
    }
}
