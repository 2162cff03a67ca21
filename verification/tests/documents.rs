use shell_ai::documents::json_to_node;
use shell_ai::documents::read_json;
use shell_ai::documents::read_toml;
use shell_ai::documents::toml_to_json;
use shell_ai::tree::Node;

fn text(s: &str) -> Node {
    Node::Text(s.to_string())
}

fn number(s: &str) -> Node {
    Node::Number(s.to_string())
}

fn entry(key: &str, value: Node) -> (String, Node) {
    (key.to_string(), value)
}

#[test]
fn json_documents_keep_their_shape() {
    let tree = read_json("{\"s\": \"x\", \"n\": -12, \"f\": 0.25, \"big\": 18446744073709551615, \"t\": true, \"z\": null, \"l\": [1, {\"k\": []}], \"o\": {}}").unwrap();
    let expected = Node::Table(vec![
        entry("big", number("18446744073709551615")),
        entry("f", number("0.25")),
        entry("l", Node::List(vec![number("1"), Node::Table(vec![entry("k", Node::List(vec![]))])])),
        entry("n", number("-12")),
        entry("o", Node::Table(vec![])),
        entry("s", text("x")),
        entry("t", Node::Bool(true)),
        entry("z", Node::Null),
    ]);
    assert_eq!(tree, expected);
}

#[test]
fn json_scalars_are_documents_too() {
    assert_eq!(read_json("3").unwrap(), number("3"));
    assert_eq!(read_json("\"a\\nb\"").unwrap(), text("a\nb"));
    assert_eq!(read_json(" null ").unwrap(), Node::Null);
    assert_eq!(read_json("1e2").unwrap(), number("100.0"));
}

#[test]
fn broken_json_gives_the_message_of_the_parser() {
    let message = read_json("{\"a\": }").unwrap_err();
    assert_eq!(message, "expected value at line 1 column 7");
    assert!(read_json("").is_err());
}

#[test]
fn toml_documents_are_normalised() {
    let tree = read_toml(
        "title = \"t\"\ncount = -3\nratio = 0.5\nwhole = 2.0\non = false\nwhen = 1979-05-27T07:32:00Z\nlist = [1, \"a\"]\n\n[section]\nkey = \"v\"\n\n[section.inner]\nn = 1\n",
    )
    .unwrap();
    let expected = Node::Table(vec![
        entry("count", number("-3")),
        entry("list", Node::List(vec![number("1"), text("a")])),
        entry("on", Node::Bool(false)),
        entry("ratio", number("0.5")),
        entry(
            "section",
            Node::Table(vec![
                entry("inner", Node::Table(vec![entry("n", number("1"))])),
                entry("key", text("v")),
            ]),
        ),
        entry("title", text("t")),
        entry("when", text("1979-05-27T07:32:00Z")),
        entry("whole", number("2.0")),
    ]);
    assert_eq!(tree, expected);
}

#[test]
fn toml_floats_that_are_no_numbers_become_absent() {
    let tree = read_toml("a = nan\nb = inf\nc = -inf\nd = 1.5\n").unwrap();
    let expected = Node::Table(vec![
        entry("a", Node::Null),
        entry("b", Node::Null),
        entry("c", Node::Null),
        entry("d", number("1.5")),
    ]);
    assert_eq!(tree, expected);
}

#[test]
fn toml_integers_are_written_in_decimal() {
    let tree = read_toml("a = 0x10\nb = 1_000\nc = -9223372036854775808\nd = +7\n").unwrap();
    let expected = Node::Table(vec![
        entry("a", number("16")),
        entry("b", number("1000")),
        entry("c", number("-9223372036854775808")),
        entry("d", number("7")),
    ]);
    assert_eq!(tree, expected);
}

#[test]
fn broken_toml_gives_the_message_of_the_parser() {
    let message = read_toml("a = ").unwrap_err();
    assert!(message.contains("line 1"));
    assert!(read_toml("[a]\n[a]\n").is_err());
    assert_eq!(read_toml("").unwrap(), Node::Table(vec![]));
}

#[test]
fn values_of_the_parsers_convert_directly() {
    let value: serde_json::Value = serde_json::from_str("{\"a\": [true, 1.5]}").unwrap();
    assert_eq!(
        json_to_node(&value),
        Node::Table(vec![entry("a", Node::List(vec![Node::Bool(true), number("1.5")]))])
    );
    let value: toml::Value = toml::from_str("a = [true, 1.5]").unwrap();
    assert_eq!(
        toml_to_json(&value),
        Node::Table(vec![entry("a", Node::List(vec![Node::Bool(true), number("1.5")]))])
    );
}

#[test]
fn duplicate_keeps_the_whole_tree() {
    let tree = read_json("{\"a\": {\"b\": [1, null, \"x\"]}, \"c\": false}").unwrap();
    assert_eq!(tree.duplicate(), tree);
}
