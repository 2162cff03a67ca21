use shell_ai::builder::ConfigBuilder;
use shell_ai::documents::read_json;
use shell_ai::documents::read_toml;
use shell_ai::source::ConfigSource;
use shell_ai::tree::Node;

fn json(text: &str) -> Node {
    match read_json(text) {
        Ok(n) => n,
        Err(e) => panic!("not JSON: {}", e),
    }
}

fn toml(text: &str) -> Node {
    match read_toml(text) {
        Ok(n) => n,
        Err(e) => panic!("not TOML: {}", e),
    }
}

fn text(s: &str) -> Node {
    Node::Text(s.to_string())
}

fn number(s: &str) -> Node {
    Node::Number(s.to_string())
}

#[test]
fn a_new_builder_holds_an_empty_table() {
    let builder = ConfigBuilder::new();
    assert_eq!(*builder.config(), Node::Table(vec![]));
    assert_eq!(builder.get_source("anything"), ConfigSource::Default);
    assert_eq!(builder.get_env_var_used("anything"), None);
}

#[test]
fn leaves_are_written_at_their_dotted_paths() {
    let mut builder = ConfigBuilder::new();
    builder.merge_layer(&json("{\"a\": 1, \"b\": {\"c\": \"x\", \"d\": {\"e\": true}}}"), ConfigSource::JsonFile);
    assert_eq!(builder.config().lookup("a"), Some(&number("1")));
    assert_eq!(builder.config().lookup("b.c"), Some(&text("x")));
    assert_eq!(builder.config().lookup("b.d.e"), Some(&Node::Bool(true)));
    assert_eq!(builder.get_source("a"), ConfigSource::JsonFile);
    assert_eq!(builder.get_source("b.c"), ConfigSource::JsonFile);
    assert_eq!(builder.get_source("b.d.e"), ConfigSource::JsonFile);
    assert_eq!(builder.get_source("b"), ConfigSource::Default);
    assert_eq!(builder.get_source("b.d"), ConfigSource::Default);
}

#[test]
fn a_later_layer_overrides_value_and_source() {
    let mut builder = ConfigBuilder::new();
    builder.merge_layer(&json("{\"model\": \"a\", \"openai\": {\"model\": \"m1\", \"api_key\": \"k\"}}"), ConfigSource::TomlFile);
    builder.merge_layer(&json("{\"openai\": {\"model\": \"m2\"}}"), ConfigSource::Environment);
    assert_eq!(builder.config().lookup("openai.model"), Some(&text("m2")));
    assert_eq!(builder.get_source("openai.model"), ConfigSource::Environment);
    assert_eq!(builder.config().lookup("openai.api_key"), Some(&text("k")));
    assert_eq!(builder.get_source("openai.api_key"), ConfigSource::TomlFile);
    assert_eq!(builder.config().lookup("model"), Some(&text("a")));
    assert_eq!(builder.get_source("model"), ConfigSource::TomlFile);
}

#[test]
fn empty_tables_are_no_tombstones() {
    let mut builder = ConfigBuilder::new();
    builder.merge_layer(&json("{\"openai\": {\"model\": \"m1\"}, \"x\": 1}"), ConfigSource::TomlFile);
    let before = builder.config().duplicate();
    builder.merge_layer(&json("{\"openai\": {}}"), ConfigSource::Cli);
    builder.merge_layer(&json("{}"), ConfigSource::Cli);
    builder.merge_layer(&json("{\"openai\": {\"model\": {}}}"), ConfigSource::Cli);
    builder.merge_layer(&json("{\"x\": {}}"), ConfigSource::Cli);
    builder.merge_layer(&json("{\"a\": {\"b\": {\"c\": {}}}}"), ConfigSource::Cli);
    assert_eq!(*builder.config(), before);
    assert_eq!(builder.get_source("openai.model"), ConfigSource::TomlFile);
    assert_eq!(builder.get_source("openai"), ConfigSource::Default);
    assert_eq!(builder.get_source("x"), ConfigSource::TomlFile);
    assert_eq!(builder.config().lookup("a"), None);
}

#[test]
fn absent_values_are_skipped() {
    let mut builder = ConfigBuilder::new();
    builder.merge_layer(&json("{\"model\": \"m\", \"openai\": {\"api_key\": \"k\"}}"), ConfigSource::TomlFile);
    builder.merge_layer(&json("{\"model\": null, \"openai\": {\"api_key\": null}, \"fresh\": null}"), ConfigSource::Cli);
    assert_eq!(builder.config().lookup("model"), Some(&text("m")));
    assert_eq!(builder.get_source("model"), ConfigSource::TomlFile);
    assert_eq!(builder.config().lookup("openai.api_key"), Some(&text("k")));
    assert_eq!(builder.config().lookup("fresh"), None);
    assert_eq!(builder.get_source("fresh"), ConfigSource::Default);
}

#[test]
fn lists_are_leaves() {
    let mut builder = ConfigBuilder::new();
    builder.merge_layer(&json("{\"tags\": [1, \"two\", [3], {\"k\": null}]}"), ConfigSource::JsonFile);
    let expected = Node::List(vec![
        number("1"),
        text("two"),
        Node::List(vec![number("3")]),
        Node::Table(vec![("k".to_string(), Node::Null)]),
    ]);
    assert_eq!(builder.config().lookup("tags"), Some(&expected));
    assert_eq!(builder.get_source("tags"), ConfigSource::JsonFile);
    builder.merge_layer(&json("{\"tags\": []}"), ConfigSource::Cli);
    assert_eq!(builder.config().lookup("tags"), Some(&Node::List(vec![])));
    assert_eq!(builder.get_source("tags"), ConfigSource::Cli);
}

#[test]
fn a_write_below_a_leaf_replaces_the_leaf_by_a_table() {
    let mut builder = ConfigBuilder::new();
    builder.merge_layer(&json("{\"openai\": \"oops\"}"), ConfigSource::TomlFile);
    builder.merge_layer(&json("{\"openai\": {\"model\": \"m\"}}"), ConfigSource::Cli);
    assert_eq!(builder.config().lookup("openai.model"), Some(&text("m")));
    assert_eq!(builder.get_source("openai.model"), ConfigSource::Cli);
    assert_eq!(
        builder.config().lookup("openai"),
        Some(&Node::Table(vec![("model".to_string(), text("m"))]))
    );
    // The leaf went, and so did its mark.
    assert_eq!(builder.get_source("openai"), ConfigSource::Default);
}

#[test]
fn marks_of_paths_apart_stay_when_a_path_is_written() {
    let mut builder = ConfigBuilder::new();
    builder.merge_layer(
        &json("{\"a\": {\"b\": 1, \"c\": 2}, \"ab\": 3, \"d\": 4}"),
        ConfigSource::TomlFile,
    );
    builder.merge_layer(&json("{\"a\": {\"b\": {\"x\": 9}}}"), ConfigSource::Environment);
    assert_eq!(builder.get_source("a.b.x"), ConfigSource::Environment);
    assert_eq!(builder.get_source("a.b"), ConfigSource::Default);
    assert_eq!(builder.get_source("a.c"), ConfigSource::TomlFile);
    assert_eq!(builder.get_source("ab"), ConfigSource::TomlFile);
    assert_eq!(builder.get_source("d"), ConfigSource::TomlFile);
    assert_eq!(builder.config().lookup("a.c"), Some(&number("2")));
    let sources = builder.into_sources();
    assert_eq!(sources.get("a.b"), None);
    assert_eq!(sources.get("a.c"), Some(&ConfigSource::TomlFile));
}

#[test]
fn every_write_is_read_back_at_its_path() {
    let mut builder = ConfigBuilder::new();
    builder.merge_layer(&json("{\"openai\": \"x\", \"a\": {\"b\": 1}}"), ConfigSource::TomlFile);
    builder.merge_layer(
        &json("{\"openai\": {\"api_key\": \"k\"}, \"a\": {\"b\": {\"c\": true}}}"),
        ConfigSource::Environment,
    );
    assert_eq!(builder.config().lookup("openai.api_key"), Some(&text("k")));
    assert_eq!(builder.get_source("openai.api_key"), ConfigSource::Environment);
    assert_eq!(builder.config().lookup("a.b.c"), Some(&Node::Bool(true)));
    assert_eq!(builder.get_source("a.b.c"), ConfigSource::Environment);

    let mut node = Node::text("scalar");
    node.set_nested_value("x.y", number("1"));
    assert_eq!(node.lookup("x.y"), Some(&number("1")));
}

#[test]
fn a_leaf_written_over_a_table_replaces_it() {
    let mut builder = ConfigBuilder::new();
    builder.merge_layer(&json("{\"openai\": {\"model\": \"m\"}}"), ConfigSource::TomlFile);
    builder.merge_layer(&json("{\"openai\": 5}"), ConfigSource::Cli);
    assert_eq!(builder.config().lookup("openai"), Some(&number("5")));
    assert_eq!(builder.get_source("openai"), ConfigSource::Cli);
    // The model went with the table, and so did its mark.
    assert_eq!(builder.config().lookup("openai.model"), None);
    assert_eq!(builder.get_source("openai.model"), ConfigSource::Default);
}

#[test]
fn keys_with_dots_are_paths() {
    let mut builder = ConfigBuilder::new();
    builder.merge_layer(&json("{\"a.b\": 1}"), ConfigSource::JsonFile);
    assert_eq!(builder.config().lookup("a.b"), Some(&number("1")));
    assert_eq!(builder.config().get("a").and_then(|a| a.get("b")), Some(&number("1")));
    assert_eq!(builder.config().get("a.b"), None);
    assert_eq!(builder.get_source("a.b"), ConfigSource::JsonFile);
}

#[test]
fn entries_under_an_empty_key_are_written_at_the_top() {
    let mut builder = ConfigBuilder::new();
    builder.merge_layer(&json("{\"\": {\"x\": 1}}"), ConfigSource::JsonFile);
    assert_eq!(builder.config().lookup("x"), Some(&number("1")));
    assert_eq!(builder.get_source("x"), ConfigSource::JsonFile);
}

#[test]
fn tables_keep_the_order_of_first_writes() {
    let mut builder = ConfigBuilder::new();
    builder.merge_layer(&toml("b = 1\na = 2\n"), ConfigSource::TomlFile);
    builder.merge_layer(&toml("c = 3\na = 4\n"), ConfigSource::Cli);
    let expected = Node::Table(vec![
        ("a".to_string(), number("4")),
        ("b".to_string(), number("1")),
        ("c".to_string(), number("3")),
    ]);
    assert_eq!(*builder.config(), expected);
}

#[test]
fn set_nested_value_creates_tables_on_the_way() {
    let mut root = Node::empty_table();
    root.set_nested_value("a.b.c", text("deep"));
    root.set_nested_value("a.x", Node::Bool(false));
    root.set_nested_value("top", Node::Null);
    let expected = Node::Table(vec![
        (
            "a".to_string(),
            Node::Table(vec![
                ("b".to_string(), Node::Table(vec![("c".to_string(), text("deep"))])),
                ("x".to_string(), Node::Bool(false)),
            ]),
        ),
        ("top".to_string(), Node::Null),
    ]);
    assert_eq!(root, expected);
    assert_eq!(root.lookup("a.b.c"), Some(&text("deep")));
    assert_eq!(root.lookup("a.b"), Some(&Node::Table(vec![("c".to_string(), text("deep"))])));
    assert_eq!(root.lookup("a.b.c.d"), None);
    assert_eq!(root.lookup("nope"), None);
    assert_eq!(root.entry_count(), 2);
    assert!(root.is_table());
    assert!(!root.is_null());
}

#[test]
fn set_nested_value_puts_a_table_in_place_of_what_is_none() {
    let mut leaf = text("leaf");
    leaf.set_nested_value("a", Node::Bool(true));
    assert_eq!(leaf, Node::Table(vec![("a".to_string(), Node::Bool(true))]));
    let mut root = Node::empty_table();
    root.insert("a".to_string(), number("1"));
    root.insert("z".to_string(), number("9"));
    root.set_nested_value("a.b", Node::Bool(true));
    assert_eq!(
        root,
        Node::Table(vec![
            (
                "a".to_string(),
                Node::Table(vec![("b".to_string(), Node::Bool(true))])
            ),
            ("z".to_string(), number("9")),
        ])
    );
    root.insert("a".to_string(), number("2"));
    assert_eq!(
        root,
        Node::Table(vec![("a".to_string(), number("2")), ("z".to_string(), number("9"))])
    );
}

#[test]
fn recorded_variables_are_read_back() {
    let mut builder = ConfigBuilder::new();
    builder.record_env_var("provider", "SHAI_PROVIDER");
    builder.record_env_var("openai.api_key", "OPENAI_API_KEY");
    builder.record_env_var("provider", "SHAI_API_PROVIDER");
    assert_eq!(builder.get_env_var_used("provider"), Some("SHAI_API_PROVIDER"));
    assert_eq!(builder.get_env_var_used("openai.api_key"), Some("OPENAI_API_KEY"));
    assert_eq!(builder.get_env_var_used("openai"), None);
    let sources = builder.into_sources();
    assert_eq!(sources.get("provider"), None);
}

#[test]
fn a_layer_merged_into_nothing_comes_back_as_it_is() {
    let defaults = shell_ai::layers::defaults_to_json();
    let mut builder = ConfigBuilder::new();
    builder.merge_layer(&defaults, ConfigSource::Default);
    assert_eq!(builder.config(), &defaults);

    let mut layer = Node::empty_table();
    layer.insert("model".to_string(), Node::text("m"));
    let mut section = Node::empty_table();
    section.insert("api_key".to_string(), Node::text("k"));
    section.insert("max_tokens".to_string(), Node::number("7"));
    layer.insert("groq".to_string(), section);
    layer.insert("debug".to_string(), Node::Bool(true));
    let mut builder = ConfigBuilder::new();
    builder.merge_layer(&layer, ConfigSource::TomlFile);
    assert_eq!(builder.config(), &layer);
    assert_eq!(builder.get_source("groq.max_tokens"), ConfigSource::TomlFile);
    assert_eq!(builder.get_source("groq"), ConfigSource::Default);
}

#[test]
fn readers_and_merges_give_mappings() {
    fn keys_differ(node: &Node) -> bool {
        match node {
            Node::Table(entries) => {
                entries.iter().enumerate().all(|(i, (key, value))| {
                    entries.iter().skip(i + 1).all(|(other, _)| other != key) && keys_differ(value)
                })
            }
            Node::List(items) => items.iter().all(keys_differ),
            _ => true,
        }
    }
    // A JSON object that names a key twice keeps the later value once.
    let doubled = json("{\"a\": 1, \"a\": {\"b\": 2, \"b\": 3}, \"l\": [{\"x\": 1, \"x\": 2}]}");
    assert!(keys_differ(&doubled));
    assert_eq!(doubled.lookup("a.b"), Some(&number("3")));
    let file = toml("[openai]\nmodel = \"m\"\n[groq]\nmodel = \"g\"\n");
    assert!(keys_differ(&file));
    let mut builder = ConfigBuilder::new();
    builder.merge_layer(&shell_ai::layers::defaults_to_json(), ConfigSource::Default);
    builder.merge_layer(&file, ConfigSource::TomlFile);
    builder.merge_layer(&doubled, ConfigSource::JsonFile);
    builder.merge_layer(&json("{\"a\": {\"b\": {\"c\": 1}}}"), ConfigSource::Cli);
    assert!(keys_differ(builder.config()));
}
