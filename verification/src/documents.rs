//! Reading TOML and JSON documents into configuration trees.
//!
//! The documents are parsed by the `toml` and `serde_json` crates. What those
//! crates return is taken on trust; turning it into a [`Node`] is verified.

use crate::default_laws::distinct_keys;
use crate::literal::render_i64;
use crate::literal::signed_digits;
use crate::tree::lemma_list_view;
use crate::tree::lemma_table_view;
use crate::tree::items_view;
use crate::tree::entries_view;
use crate::tree::Node;
use crate::tree::Tree;
use vstd::prelude::*;

verus! {

/// `serde_json::Value`, taken as it is: nothing is known of what a value
/// holds but what [`json_tree`] names.
#[verifier::external_type_specification]
#[verifier::external_body]
pub struct ExJsonValue(serde_json::Value);

/// `toml::Value`, taken as it is: nothing is known of what a value holds
/// but what [`toml_doc`] names.
#[verifier::external_type_specification]
#[verifier::external_body]
pub struct ExTomlValue(toml::Value);

/// What a `serde_json::Value` holds: a JSON number is known by its text, an
/// object by its entries in the order in which the value hands them out.
pub uninterp spec fn json_tree(v: serde_json::Value) -> Tree;

/// What `serde_json::from_str` makes of a text: the value it parses to, or
/// the message of the error it ends with.
pub uninterp spec fn json_document(text: Seq<char>) -> Result<Tree, Seq<char>>;

/// What a `toml::Value` holds, as a mathematical value.
pub ghost enum TomlDoc {
    Str(Seq<char>),
    Integer(int),
    /// A float, as the JSON value that `serde_json` makes of it.
    Float(Tree),
    Boolean(bool),
    /// A date or a time, as it is written.
    Datetime(Seq<char>),
    Array(Seq<TomlDoc>),
    Table(Seq<(Seq<char>, TomlDoc)>),
}

/// What a `toml::Value` holds: a table is known by its entries in the order
/// in which the value hands them out.
pub uninterp spec fn toml_doc(v: toml::Value) -> TomlDoc;

/// What `toml::from_str` makes of a text: the value it parses to, or the
/// message of the error it ends with.
pub uninterp spec fn toml_document(text: Seq<char>) -> Result<TomlDoc, Seq<char>>;

/// The top of a JSON value, with what lies below left as it is.
pub enum JsonShape<'a> {
    Null,
    Bool(bool),
    Number(String),
    Text(String),
    List(Vec<&'a serde_json::Value>),
    Table(Vec<(String, &'a serde_json::Value)>),
}

/// The tree that a shape stands for.
pub open spec fn json_shape_tree(s: JsonShape) -> Tree {
    match s {
        JsonShape::Null => Tree::Null,
        JsonShape::Bool(b) => Tree::Bool(b),
        JsonShape::Number(t) => Tree::Number(t@),
        JsonShape::Text(t) => Tree::Text(t@),
        JsonShape::List(items) => Tree::List(
            items@.map_values(|v: &serde_json::Value| json_tree(*v)),
        ),
        JsonShape::Table(entries) => Tree::Table(
            entries@.map_values(|e: (String, &serde_json::Value)| (e.0@, json_tree(*e.1))),
        ),
    }
}

/// Tells the variants of `serde_json::Value` apart and hands out what each
/// holds: a number as the text that its `Display` prints, a string as it is,
/// the items of an array and the entries of an object by reference. An
/// object is a map, so no two of its entries have the same key.
#[verifier::external_body]
fn json_shape(v: &serde_json::Value) -> (s: JsonShape<'_>)
    ensures
        json_shape_tree(s) == json_tree(*v),
        distinct_keys(json_shape_tree(s).entries()),
{
    match v {
        serde_json::Value::Null => JsonShape::Null,
        serde_json::Value::Bool(b) => JsonShape::Bool(*b),
        serde_json::Value::Number(n) => JsonShape::Number(n.to_string()),
        serde_json::Value::String(t) => JsonShape::Text(t.clone()),
        serde_json::Value::Array(a) => JsonShape::List(a.iter().collect()),
        serde_json::Value::Object(m) => JsonShape::Table(
            m.iter().map(|(k, v)| (k.clone(), v)).collect(),
        ),
    }
}

/// Calls `serde_json::from_str` for a `serde_json::Value`. An error is
/// handed out as the message that its `Display` prints.
#[verifier::external_body]
fn parse_json(text: &str) -> (r: Result<serde_json::Value, String>)
    ensures
        match r {
            Ok(v) => json_document(text@) == Ok::<Tree, Seq<char>>(json_tree(v)),
            Err(e) => json_document(text@) == Err::<Tree, Seq<char>>(e@),
        },
{
    serde_json::from_str::<serde_json::Value>(text).map_err(|e| e.to_string())
}

/// Turns a JSON value into a configuration tree, which is a mapping.
pub fn json_to_node(v: &serde_json::Value) -> (n: Node)
    ensures
        n@ == json_tree(*v),
        n@.is_mapping(),
    decreases json_tree(*v),
{
    match json_shape(v) {
        JsonShape::Null => Node::Null,
        JsonShape::Bool(b) => Node::Bool(b),
        JsonShape::Number(t) => Node::Number(t),
        JsonShape::Text(t) => Node::Text(t),
        JsonShape::List(items) => {
            let ghost below = json_tree(*v)->List_0;
            let mut out: Vec<Node> = Vec::new();
            let mut i: usize = 0;
            while i < items.len()
                invariant
                    i <= items.len(),
                    json_tree(*v) == Tree::List(below),
                    below == items@.map_values(|v: &serde_json::Value| json_tree(*v)),
                    out.len() == i,
                    forall|j: int| 0 <= j < i ==> (#[trigger] out@[j])@ == below[j],
                    forall|j: int| 0 <= j < i ==> (#[trigger] out@[j])@.is_mapping(),
                decreases items.len() - i,
            {
                proof {
                    assert(below[i as int] == json_tree(*items@[i as int]));
                    assert(decreases_to!(json_tree(*v) => json_tree(*v)->List_0));
                    assert(decreases_to!(below => below[i as int]));
                }
                let item = json_to_node(items[i]);
                out.push(item);
                i = i + 1;
            }
            proof {
                lemma_list_view(out);
                assert(items_view(out@) =~= below);
                assert forall|j: int| 0 <= j < below.len() implies (#[trigger] below[j]).is_mapping() by {
                    assert(out@[j]@ == below[j]);
                }
            }
            Node::List(out)
        },
        JsonShape::Table(entries) => {
            let ghost below = json_tree(*v)->Table_0;
            let mut out: Vec<(String, Node)> = Vec::new();
            let mut i: usize = 0;
            while i < entries.len()
                invariant
                    i <= entries.len(),
                    json_tree(*v) == Tree::Table(below),
                    below == entries@.map_values(
                        |e: (String, &serde_json::Value)| (e.0@, json_tree(*e.1)),
                    ),
                    out.len() == i,
                    forall|j: int|
                        0 <= j < i ==> (#[trigger] out@[j]).0@ == below[j].0 && out@[j].1@
                            == below[j].1,
                    forall|j: int| 0 <= j < i ==> (#[trigger] out@[j]).1@.is_mapping(),
                decreases entries.len() - i,
            {
                proof {
                    assert(below[i as int] == (
                        entries@[i as int].0@,
                        json_tree(*entries@[i as int].1),
                    ));
                    assert(decreases_to!(json_tree(*v) => json_tree(*v)->Table_0));
                    assert(decreases_to!(below => below[i as int]));
                    assert(decreases_to!(below[i as int] => below[i as int].1));
                }
                let value = json_to_node(entries[i].1);
                out.push((entries[i].0.clone(), value));
                i = i + 1;
            }
            proof {
                lemma_table_view(out);
                assert(entries_view(out@) =~= below);
                assert forall|j: int| 0 <= j < below.len() implies (#[trigger] below[j]).1.is_mapping() by {
                    assert(out@[j].1@ == below[j].1);
                }
            }
            Node::Table(out)
        },
    }
}

/// The tree that a JSON text stands for, which is a mapping, or the
/// message of the parser.
pub fn read_json(text: &str) -> (r: Result<Node, String>)
    ensures
        match r {
            Ok(n) => json_document(text@) == Ok::<Tree, Seq<char>>(n@) && n@.is_mapping(),
            Err(e) => json_document(text@) == Err::<Tree, Seq<char>>(e@),
        },
{
    match parse_json(text) {
        Ok(v) => Ok(json_to_node(&v)),
        Err(e) => Err(e),
    }
}

/// The top of a TOML value, with what lies below left as it is.
pub enum TomlShape<'a> {
    Str(String),
    Integer(i64),
    Float(serde_json::Value),
    Boolean(bool),
    Datetime(String),
    Array(Vec<&'a toml::Value>),
    Table(Vec<(String, &'a toml::Value)>),
}

/// The value that a shape stands for.
pub open spec fn toml_shape_doc(s: TomlShape) -> TomlDoc {
    match s {
        TomlShape::Str(t) => TomlDoc::Str(t@),
        TomlShape::Integer(i) => TomlDoc::Integer(i as int),
        TomlShape::Float(j) => TomlDoc::Float(json_tree(j)),
        TomlShape::Boolean(b) => TomlDoc::Boolean(b),
        TomlShape::Datetime(t) => TomlDoc::Datetime(t@),
        TomlShape::Array(items) => TomlDoc::Array(
            items@.map_values(|v: &toml::Value| toml_doc(*v)),
        ),
        TomlShape::Table(entries) => TomlDoc::Table(
            entries@.map_values(|e: (String, &toml::Value)| (e.0@, toml_doc(*e.1))),
        ),
    }
}

/// Whether no two entries of a table have the same key; anything but a
/// table has no entries.
pub open spec fn doc_keys_differ(d: TomlDoc) -> bool {
    match d {
        TomlDoc::Table(entries) => forall|a: int, b: int|
            0 <= a < entries.len() && 0 <= b < entries.len() && a != b ==> (#[trigger] entries[a]).0
                != (#[trigger] entries[b]).0,
        _ => true,
    }
}

/// Tells the variants of `toml::Value` apart and hands out what each holds:
/// a float as the JSON value that `serde_json::Value::from` makes of it, a
/// date or time as the text that its `Display` prints, the items of an array
/// and the entries of a table by reference. A table is a map, so no two of
/// its entries have the same key.
#[verifier::external_body]
fn toml_shape(v: &toml::Value) -> (s: TomlShape<'_>)
    ensures
        toml_shape_doc(s) == toml_doc(*v),
        doc_keys_differ(toml_shape_doc(s)),
{
    match v {
        toml::Value::String(t) => TomlShape::Str(t.clone()),
        toml::Value::Integer(i) => TomlShape::Integer(*i),
        toml::Value::Float(f) => TomlShape::Float(serde_json::Value::from(*f)),
        toml::Value::Boolean(b) => TomlShape::Boolean(*b),
        toml::Value::Datetime(d) => TomlShape::Datetime(d.to_string()),
        toml::Value::Array(a) => TomlShape::Array(a.iter().collect()),
        toml::Value::Table(t) => TomlShape::Table(t.iter().map(|(k, v)| (k.clone(), v)).collect()),
    }
}

/// Calls `toml::from_str` for a `toml::Value`. An error is handed out as the
/// message that its `Display` prints.
#[verifier::external_body]
fn parse_toml(text: &str) -> (r: Result<toml::Value, String>)
    ensures
        match r {
            Ok(v) => toml_document(text@) == Ok::<TomlDoc, Seq<char>>(toml_doc(v)),
            Err(e) => toml_document(text@) == Err::<TomlDoc, Seq<char>>(e@),
        },
{
    toml::from_str::<toml::Value>(text).map_err(|e| e.to_string())
}

/// The configuration tree of a TOML value: strings, dates and times become
/// texts, integers become numbers in decimal, a float becomes what JSON makes
/// of it, and arrays and tables keep their shape.
pub open spec fn toml_as_tree(d: TomlDoc) -> Tree
    decreases d,
{
    match d {
        TomlDoc::Str(s) => Tree::Text(s),
        TomlDoc::Integer(i) => Tree::Number(signed_digits(i)),
        TomlDoc::Float(t) => t,
        TomlDoc::Boolean(b) => Tree::Bool(b),
        TomlDoc::Datetime(s) => Tree::Text(s),
        TomlDoc::Array(items) => Tree::List(
            Seq::new(
                items.len(),
                |i: int|
                    if 0 <= i < items.len() {
                        toml_as_tree(items[i])
                    } else {
                        Tree::Null
                    },
            ),
        ),
        TomlDoc::Table(entries) => Tree::Table(
            Seq::new(
                entries.len(),
                |i: int|
                    if 0 <= i < entries.len() {
                        (entries[i].0, toml_as_tree(entries[i].1))
                    } else {
                        (Seq::<char>::empty(), Tree::Null)
                    },
            ),
        ),
    }
}

/// Turns a TOML value into a configuration tree, which is a mapping; see
/// [`toml_as_tree`].
pub fn toml_to_json(toml: &toml::Value) -> (n: Node)
    ensures
        n@ == toml_as_tree(toml_doc(*toml)),
        n@.is_mapping(),
    decreases toml_doc(*toml),
{
    match toml_shape(toml) {
        TomlShape::Str(s) => Node::Text(s),
        TomlShape::Integer(i) => Node::Number(render_i64(i)),
        TomlShape::Float(j) => json_to_node(&j),
        TomlShape::Boolean(b) => Node::Bool(b),
        TomlShape::Datetime(s) => Node::Text(s),
        TomlShape::Array(items) => {
            let ghost below = toml_doc(*toml)->Array_0;
            let ghost want = toml_as_tree(toml_doc(*toml))->List_0;
            let mut out: Vec<Node> = Vec::new();
            let mut i: usize = 0;
            while i < items.len()
                invariant
                    i <= items.len(),
                    toml_doc(*toml) == TomlDoc::Array(below),
                    toml_as_tree(toml_doc(*toml)) == Tree::List(want),
                    below == items@.map_values(|v: &toml::Value| toml_doc(*v)),
                    want.len() == below.len(),
                    forall|j: int| 0 <= j < below.len() ==> want[j] == toml_as_tree(below[j]),
                    out.len() == i,
                    forall|j: int| 0 <= j < i ==> (#[trigger] out@[j])@ == want[j],
                    forall|j: int| 0 <= j < i ==> (#[trigger] out@[j])@.is_mapping(),
                decreases items.len() - i,
            {
                proof {
                    assert(below[i as int] == toml_doc(*items@[i as int]));
                    assert(decreases_to!(toml_doc(*toml) => toml_doc(*toml)->Array_0));
                    assert(decreases_to!(below => below[i as int]));
                }
                let item = toml_to_json(items[i]);
                out.push(item);
                i = i + 1;
            }
            proof {
                lemma_list_view(out);
                assert(items_view(out@) =~= want);
                assert forall|j: int| 0 <= j < want.len() implies (#[trigger] want[j]).is_mapping() by {
                    assert(out@[j]@ == want[j]);
                }
            }
            Node::List(out)
        },
        TomlShape::Table(entries) => {
            let ghost below = toml_doc(*toml)->Table_0;
            let ghost want = toml_as_tree(toml_doc(*toml))->Table_0;
            let mut out: Vec<(String, Node)> = Vec::new();
            let mut i: usize = 0;
            while i < entries.len()
                invariant
                    i <= entries.len(),
                    toml_doc(*toml) == TomlDoc::Table(below),
                    toml_as_tree(toml_doc(*toml)) == Tree::Table(want),
                    below == entries@.map_values(
                        |e: (String, &toml::Value)| (e.0@, toml_doc(*e.1)),
                    ),
                    want.len() == below.len(),
                    forall|j: int|
                        0 <= j < below.len() ==> want[j] == (below[j].0, toml_as_tree(below[j].1)),
                    out.len() == i,
                    forall|j: int|
                        0 <= j < i ==> (#[trigger] out@[j]).0@ == want[j].0 && out@[j].1@
                            == want[j].1,
                    forall|j: int| 0 <= j < i ==> (#[trigger] out@[j]).1@.is_mapping(),
                decreases entries.len() - i,
            {
                proof {
                    assert(below[i as int] == (
                        entries@[i as int].0@,
                        toml_doc(*entries@[i as int].1),
                    ));
                    assert(decreases_to!(toml_doc(*toml) => toml_doc(*toml)->Table_0));
                    assert(decreases_to!(below => below[i as int]));
                    assert(decreases_to!(below[i as int] => below[i as int].1));
                }
                let value = toml_to_json(entries[i].1);
                out.push((entries[i].0.clone(), value));
                i = i + 1;
            }
            proof {
                lemma_table_view(out);
                assert(entries_view(out@) =~= want);
                assert forall|j: int| 0 <= j < want.len() implies (#[trigger] want[j]).1.is_mapping() by {
                    assert(out@[j].1@ == want[j].1);
                }
                assert forall|a: int, b: int|
                    0 <= a < want.len() && 0 <= b < want.len() && a != b implies (
                #[trigger] want[a]).0 != (#[trigger] want[b]).0 by {
                    assert(want[a].0 == below[a].0);
                    assert(want[b].0 == below[b].0);
                }
            }
            Node::Table(out)
        },
    }
}

/// The tree that a TOML text stands for, which is a mapping, or the message
/// of the parser.
pub fn read_toml(text: &str) -> (r: Result<Node, String>)
    ensures
        match r {
            Ok(n) => toml_document(text@) is Ok && n@ == toml_as_tree(toml_document(text@)->Ok_0)
                && n@.is_mapping(),
            Err(e) => toml_document(text@) == Err::<TomlDoc, Seq<char>>(e@),
        },
{
    match parse_toml(text) {
        Ok(v) => Ok(toml_to_json(&v)),
        Err(e) => Err(e),
    }
}

} // verus!
