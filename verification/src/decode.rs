//! Decoding the merged tree into typed settings, with the path of the value
//! that could not be decoded.

use crate::catalog::field_path;
use crate::kinds::DebugLevel;
use crate::kinds::Frontend;
use crate::kinds::OutputFormat;
use crate::kinds::Provider;
use crate::layers::opt_view;
use crate::literal::digits_of;
use crate::literal::float_literal;
use crate::literal::is_float_literal;
use crate::literal::parse_u32;
use crate::literal::render_u32;
use crate::literal::u32_literal;
use crate::text::concat3;
use crate::text::owned;
use crate::tree::Node;
use crate::tree::Tree;
use vstd::prelude::*;

verus! {

/// The settings of one provider, as far as they were given.
#[derive(Debug, Default, PartialEq, Eq)]
pub struct ProviderCredentials {
    pub api_key: Option<String>,
    pub api_base: Option<String>,
    pub model: Option<String>,
    pub max_tokens: Option<u32>,
    pub organization: Option<String>,
    pub deployment_name: Option<String>,
    pub api_version: Option<String>,
}

/// The mathematical value of [`ProviderCredentials`].
pub ghost struct CredsSpec {
    pub api_key: Option<Seq<char>>,
    pub api_base: Option<Seq<char>>,
    pub model: Option<Seq<char>>,
    pub max_tokens: Option<u32>,
    pub organization: Option<Seq<char>>,
    pub deployment_name: Option<Seq<char>>,
    pub api_version: Option<Seq<char>>,
}

impl View for ProviderCredentials {
    type V = CredsSpec;

    open spec fn view(&self) -> CredsSpec {
        CredsSpec {
            api_key: opt_view(self.api_key),
            api_base: opt_view(self.api_base),
            model: opt_view(self.model),
            max_tokens: self.max_tokens,
            organization: opt_view(self.organization),
            deployment_name: opt_view(self.deployment_name),
            api_version: opt_view(self.api_version),
        }
    }
}

impl CredsSpec {
    /// Credentials in which nothing is given.
    pub open spec fn blank() -> CredsSpec {
        CredsSpec {
            api_key: None,
            api_base: None,
            model: None,
            max_tokens: None,
            organization: None,
            deployment_name: None,
            api_version: None,
        }
    }

    /// The value of the field called `name` as text. A name that is no field
    /// has no value.
    pub open spec fn field(self, name: Seq<char>) -> Option<Seq<char>> {
        if name == "api_key"@ {
            self.api_key
        } else if name == "api_base"@ {
            self.api_base
        } else if name == "model"@ {
            self.model
        } else if name == "organization"@ {
            self.organization
        } else if name == "max_tokens"@ {
            match self.max_tokens {
                Some(n) => Some(digits_of(n as nat)),
                None => None,
            }
        } else if name == "deployment_name"@ {
            self.deployment_name
        } else if name == "api_version"@ {
            self.api_version
        } else {
            None
        }
    }
}

/// A copy of an optional string.
pub fn copy_text(o: &Option<String>) -> (r: Option<String>)
    ensures
        opt_view(r) == opt_view(*o),
{
    match o {
        Some(s) => Some(s.clone()),
        None => None,
    }
}

impl ProviderCredentials {
    /// Credentials in which nothing is given.
    pub fn blank() -> (r: Self)
        ensures
            r@ == CredsSpec::blank(),
    {
        ProviderCredentials {
            api_key: None,
            api_base: None,
            model: None,
            max_tokens: None,
            organization: None,
            deployment_name: None,
            api_version: None,
        }
    }

    /// A copy of the credentials.
    pub fn copy(&self) -> (r: Self)
        ensures
            r@ == self@,
    {
        ProviderCredentials {
            api_key: copy_text(&self.api_key),
            api_base: copy_text(&self.api_base),
            model: copy_text(&self.model),
            max_tokens: self.max_tokens,
            organization: copy_text(&self.organization),
            deployment_name: copy_text(&self.deployment_name),
            api_version: copy_text(&self.api_version),
        }
    }

    /// The value of the field called `name` as text; see [`CredsSpec::field`].
    pub fn get_field(&self, name: &str) -> (r: Option<String>)
        ensures
            opt_view(r) == self@.field(name@),
    {
        if name.eq("api_key") {
            copy_text(&self.api_key)
        } else if name.eq("api_base") {
            copy_text(&self.api_base)
        } else if name.eq("model") {
            copy_text(&self.model)
        } else if name.eq("organization") {
            copy_text(&self.organization)
        } else if name.eq("max_tokens") {
            match self.max_tokens {
                Some(n) => Some(render_u32(n)),
                None => None,
            }
        } else if name.eq("deployment_name") {
            copy_text(&self.deployment_name)
        } else if name.eq("api_version") {
            copy_text(&self.api_version)
        } else {
            None
        }
    }
}

/// The settings as they are decoded from the merged tree, before defaults
/// are filled in.
#[derive(Debug, Default)]
pub struct TomlConfig {
    pub provider: Option<Provider>,
    pub model: Option<String>,
    /// The sampling temperature, as the text of the number.
    pub temperature: Option<String>,
    pub suggestion_count: Option<u32>,
    pub frontend: Option<Frontend>,
    pub output_format: Option<OutputFormat>,
    pub max_reference_chars: Option<u32>,
    pub max_tokens: Option<u32>,
    pub debug: Option<DebugLevel>,
    pub openai: Option<ProviderCredentials>,
    pub groq: Option<ProviderCredentials>,
    pub azure: Option<ProviderCredentials>,
    pub ollama: Option<ProviderCredentials>,
    pub mistral: Option<ProviderCredentials>,
}

/// The global part of the decoded settings.
pub ghost struct GlobalsSpec {
    pub provider: Option<Provider>,
    pub model: Option<Seq<char>>,
    pub temperature: Option<Seq<char>>,
    pub suggestion_count: Option<u32>,
    pub frontend: Option<Frontend>,
    pub output_format: Option<OutputFormat>,
    pub max_reference_chars: Option<u32>,
    pub max_tokens: Option<u32>,
    pub debug: Option<DebugLevel>,
}

/// The mathematical value of [`TomlConfig`].
pub ghost struct ParsedSpec {
    pub globals: GlobalsSpec,
    pub openai: Option<CredsSpec>,
    pub groq: Option<CredsSpec>,
    pub azure: Option<CredsSpec>,
    pub ollama: Option<CredsSpec>,
    pub mistral: Option<CredsSpec>,
}

/// The view of optional credentials.
pub open spec fn opt_creds(o: Option<ProviderCredentials>) -> Option<CredsSpec> {
    match o {
        Some(c) => Some(c@),
        None => None,
    }
}

impl View for TomlConfig {
    type V = ParsedSpec;

    open spec fn view(&self) -> ParsedSpec {
        ParsedSpec {
            globals: GlobalsSpec {
                provider: self.provider,
                model: opt_view(self.model),
                temperature: opt_view(self.temperature),
                suggestion_count: self.suggestion_count,
                frontend: self.frontend,
                output_format: self.output_format,
                max_reference_chars: self.max_reference_chars,
                max_tokens: self.max_tokens,
                debug: self.debug,
            },
            openai: opt_creds(self.openai),
            groq: opt_creds(self.groq),
            azure: opt_creds(self.azure),
            ollama: opt_creds(self.ollama),
            mistral: opt_creds(self.mistral),
        }
    }
}

impl ParsedSpec {
    /// The decoded section of the provider `p`.
    pub open spec fn section(self, p: Provider) -> Option<CredsSpec> {
        match p {
            Provider::OpenAI => self.openai,
            Provider::Groq => self.groq,
            Provider::Azure => self.azure,
            Provider::Ollama => self.ollama,
            Provider::Mistral => self.mistral,
        }
    }
}

/// A value that could not be decoded: where it sits and what is wrong with it.
#[derive(Debug, PartialEq, Eq)]
pub struct DecodeError {
    /// The dotted path of the value.
    pub path: String,
    pub message: String,
}

/// The mathematical value of a [`DecodeError`].
pub ghost struct Failure {
    pub path: Seq<char>,
    pub message: Seq<char>,
}

impl View for DecodeError {
    type V = Failure;

    open spec fn view(&self) -> Failure {
        Failure { path: self.path@, message: self.message@ }
    }
}

/// A value in words, for an error message: its kind, and for a boolean, a
/// number or a text the value itself.
pub open spec fn described(t: Tree) -> Seq<char> {
    match t {
        Tree::Null => "null"@,
        Tree::Bool(b) => if b {
            "boolean `true`"@
        } else {
            "boolean `false`"@
        },
        Tree::Number(n) => "number `"@ + n + "`"@,
        Tree::Text(s) => "string \""@ + s + "\""@,
        Tree::List(_) => "a sequence"@,
        Tree::Table(_) => "a map"@,
    }
}

/// The message for a value of the wrong kind.
pub open spec fn wrong_type(t: Tree, expected: Seq<char>) -> Seq<char> {
    "invalid type: "@ + described(t) + ", expected "@ + expected
}

/// The message for a name that is none of the names of an enumeration.
pub open spec fn unknown_variant(name: Seq<char>, expected: Seq<char>) -> Seq<char> {
    "unknown variant `"@ + name + "`, expected "@ + expected
}

/// The message for a text that does not spell a value of the expected type.
pub open spec fn invalid_value(literal: Seq<char>, why: Seq<char>) -> Seq<char> {
    "invalid value \""@ + literal + "\": "@ + why
}

/// What an unsigned setting is expected to be.
pub open spec fn unsigned_words() -> Seq<char> {
    "a 32-bit unsigned integer or a string that spells one"@
}

/// What a floating-point setting is expected to be.
pub open spec fn float_words() -> Seq<char> {
    "a number or a string that spells one"@
}

/// The view of an optional node.
pub open spec fn opt_tree(o: Option<&Node>) -> Option<Tree> {
    match o {
        Some(n) => Some(n@),
        None => None,
    }
}

/// An optional text setting: absent where nothing or an absent value is
/// given, the text where a text is given, and an error otherwise.
pub open spec fn text_field(v: Option<Tree>) -> Result<Option<Seq<char>>, Seq<char>> {
    match v {
        None => Ok(None),
        Some(Tree::Null) => Ok(None),
        Some(Tree::Text(s)) => Ok(Some(s)),
        Some(other) => Err(wrong_type(other, "a string"@)),
    }
}

/// The names of the providers, as an error message lists them.
pub open spec fn provider_names() -> Seq<char> {
    "one of `openai`, `groq`, `azure`, `ollama`, `mistral`"@
}

/// The names of the frontends, as an error message lists them.
pub open spec fn frontend_names() -> Seq<char> {
    "one of `dialog`, `readline`, `noninteractive`"@
}

/// The names of the output formats, as an error message lists them.
pub open spec fn format_names() -> Seq<char> {
    "`human` or `json`"@
}

/// The names of the debug levels, as an error message lists them.
pub open spec fn level_names() -> Seq<char> {
    "one of `error`, `warn`, `info`, `debug`, `trace`"@
}

/// An optional setting that names a provider.
pub open spec fn provider_field(v: Option<Tree>) -> Result<Option<Provider>, Seq<char>> {
    match v {
        None => Ok(None),
        Some(Tree::Null) => Ok(None),
        Some(Tree::Text(s)) => match Provider::named(s) {
            Some(p) => Ok(Some(p)),
            None => Err(unknown_variant(s, provider_names())),
        },
        Some(other) => Err(wrong_type(other, "a provider name"@)),
    }
}

/// An optional setting that names a frontend.
pub open spec fn frontend_field(v: Option<Tree>) -> Result<Option<Frontend>, Seq<char>> {
    match v {
        None => Ok(None),
        Some(Tree::Null) => Ok(None),
        Some(Tree::Text(s)) => match Frontend::named(s) {
            Some(p) => Ok(Some(p)),
            None => Err(unknown_variant(s, frontend_names())),
        },
        Some(other) => Err(wrong_type(other, "a frontend name"@)),
    }
}

/// An optional setting that names an output format.
pub open spec fn format_field(v: Option<Tree>) -> Result<Option<OutputFormat>, Seq<char>> {
    match v {
        None => Ok(None),
        Some(Tree::Null) => Ok(None),
        Some(Tree::Text(s)) => match OutputFormat::named(s) {
            Some(p) => Ok(Some(p)),
            None => Err(unknown_variant(s, format_names())),
        },
        Some(other) => Err(wrong_type(other, "an output format name"@)),
    }
}

/// An optional setting that names a debug level.
pub open spec fn level_field(v: Option<Tree>) -> Result<Option<DebugLevel>, Seq<char>> {
    match v {
        None => Ok(None),
        Some(Tree::Null) => Ok(None),
        Some(Tree::Text(s)) => match DebugLevel::named(s) {
            Some(p) => Ok(Some(p)),
            None => Err(unknown_variant(s, level_names())),
        },
        Some(other) => Err(wrong_type(other, "a debug level name"@)),
    }
}

/// An optional unsigned setting that may be given as a number or as a text
/// that spells one. A number that is no 32-bit unsigned integer is refused,
/// and so is a text that spells none, and any other kind of value; the
/// message names the value that was given.
pub open spec fn flexible_u32(v: Option<Tree>) -> Result<Option<u32>, Seq<char>> {
    match v {
        None => Ok(None),
        Some(Tree::Null) => Ok(None),
        Some(Tree::Number(t)) => match u32_literal(t) {
            Ok(n) => Ok(Some(n)),
            Err(_) => Err(wrong_type(Tree::Number(t), unsigned_words())),
        },
        Some(Tree::Text(s)) => match u32_literal(s) {
            Ok(n) => Ok(Some(n)),
            Err(e) => Err(invalid_value(s, e.text())),
        },
        Some(other) => Err(wrong_type(other, unsigned_words())),
    }
}

/// A number that is written out in decimal decodes to itself, as a number
/// and as a text.
pub proof fn law_written_number_decodes(n: u32)
    ensures
        flexible_u32(Some(Tree::Number(digits_of(n as nat)))) == Ok::<Option<u32>, Seq<char>>(
            Some(n),
        ),
        flexible_u32(Some(Tree::Text(digits_of(n as nat)))) == Ok::<Option<u32>, Seq<char>>(
            Some(n),
        ),
{
    crate::literal::law_u32_text_round_trip(n);
}

/// Why a text is no floating-point literal.
pub open spec fn float_error(s: Seq<char>) -> Seq<char> {
    if s.len() == 0 {
        "cannot parse float from empty string"@
    } else {
        "invalid float literal"@
    }
}

/// An optional floating-point setting that may be given as a number or as a
/// text that spells one. The value is kept as it is written.
pub open spec fn flexible_float(v: Option<Tree>) -> Result<Option<Seq<char>>, Seq<char>> {
    match v {
        None => Ok(None),
        Some(Tree::Null) => Ok(None),
        Some(Tree::Number(t)) => Ok(Some(t)),
        Some(Tree::Text(s)) => if is_float_literal(s) {
            Ok(Some(s))
        } else {
            Err(invalid_value(s, float_error(s)))
        },
        Some(other) => Err(wrong_type(other, float_words())),
    }
}

/// The words for `node` in an error message.
fn describe(node: &Node) -> (r: String)
    ensures
        r@ == described(node@),
{
    match node {
        Node::Null => owned("null"),
        Node::Bool(b) => if *b {
            owned("boolean `true`")
        } else {
            owned("boolean `false`")
        },
        Node::Number(n) => concat3("number `", n.as_str(), "`"),
        Node::Text(s) => concat3("string \"", s.as_str(), "\""),
        Node::List(_) => owned("a sequence"),
        Node::Table(_) => owned("a map"),
    }
}

fn wrong_type_message(node: &Node, expected: &str) -> (r: String)
    ensures
        r@ == wrong_type(node@, expected@),
{
    let mut r = owned("invalid type: ");
    let words = describe(node);
    r.push_str(words.as_str());
    r.push_str(", expected ");
    r.push_str(expected);
    r
}

fn unknown_variant_message(name: &str, expected: &str) -> (r: String)
    ensures
        r@ == unknown_variant(name@, expected@),
{
    let mut r = owned("unknown variant `");
    r.push_str(name);
    r.push_str("`, expected ");
    r.push_str(expected);
    r
}

fn invalid_value_message(literal: &str, why: &str) -> (r: String)
    ensures
        r@ == invalid_value(literal@, why@),
{
    let mut r = owned("invalid value \"");
    r.push_str(literal);
    r.push_str("\": ");
    r.push_str(why);
    r
}

/// The view of the outcome of decoding an optional text.
pub open spec fn text_outcome(r: Result<Option<String>, String>) -> Result<
    Option<Seq<char>>,
    Seq<char>,
> {
    match r {
        Ok(o) => Ok(opt_view(o)),
        Err(m) => Err(m@),
    }
}

/// The view of the outcome of decoding an optional plain value.
pub open spec fn plain_outcome<T>(r: Result<Option<T>, String>) -> Result<Option<T>, Seq<char>> {
    match r {
        Ok(o) => Ok(o),
        Err(m) => Err(m@),
    }
}

/// Decodes an optional text setting; see [`text_field`].
pub fn decode_text(v: Option<&Node>) -> (r: Result<Option<String>, String>)
    ensures
        text_outcome(r) == text_field(opt_tree(v)),
{
    match v {
        None => Ok(None),
        Some(node) => match node {
            Node::Null => Ok(None),
            Node::Text(s) => Ok(Some(s.clone())),
            _ => Err(wrong_type_message(node, "a string")),
        },
    }
}

/// Decodes an optional provider name; see [`provider_field`].
pub fn decode_provider(v: Option<&Node>) -> (r: Result<Option<Provider>, String>)
    ensures
        plain_outcome(r) == provider_field(opt_tree(v)),
{
    match v {
        None => Ok(None),
        Some(node) => match node {
            Node::Null => Ok(None),
            Node::Text(s) => match Provider::from_name(s.as_str()) {
                Some(p) => Ok(Some(p)),
                None => Err(
                    unknown_variant_message(
                        s.as_str(),
                        "one of `openai`, `groq`, `azure`, `ollama`, `mistral`",
                    ),
                ),
            },
            _ => Err(wrong_type_message(node, "a provider name")),
        },
    }
}

/// Decodes an optional frontend name; see [`frontend_field`].
pub fn decode_frontend(v: Option<&Node>) -> (r: Result<Option<Frontend>, String>)
    ensures
        plain_outcome(r) == frontend_field(opt_tree(v)),
{
    match v {
        None => Ok(None),
        Some(node) => match node {
            Node::Null => Ok(None),
            Node::Text(s) => match Frontend::from_name(s.as_str()) {
                Some(p) => Ok(Some(p)),
                None => Err(
                    unknown_variant_message(
                        s.as_str(),
                        "one of `dialog`, `readline`, `noninteractive`",
                    ),
                ),
            },
            _ => Err(wrong_type_message(node, "a frontend name")),
        },
    }
}

/// Decodes an optional output format name; see [`format_field`].
pub fn decode_format(v: Option<&Node>) -> (r: Result<Option<OutputFormat>, String>)
    ensures
        plain_outcome(r) == format_field(opt_tree(v)),
{
    match v {
        None => Ok(None),
        Some(node) => match node {
            Node::Null => Ok(None),
            Node::Text(s) => match OutputFormat::from_name(s.as_str()) {
                Some(p) => Ok(Some(p)),
                None => Err(unknown_variant_message(s.as_str(), "`human` or `json`")),
            },
            _ => Err(wrong_type_message(node, "an output format name")),
        },
    }
}

/// Decodes an optional debug level name; see [`level_field`].
pub fn decode_level(v: Option<&Node>) -> (r: Result<Option<DebugLevel>, String>)
    ensures
        plain_outcome(r) == level_field(opt_tree(v)),
{
    match v {
        None => Ok(None),
        Some(node) => match node {
            Node::Null => Ok(None),
            Node::Text(s) => match DebugLevel::from_name(s.as_str()) {
                Some(p) => Ok(Some(p)),
                None => Err(
                    unknown_variant_message(
                        s.as_str(),
                        "one of `error`, `warn`, `info`, `debug`, `trace`",
                    ),
                ),
            },
            _ => Err(wrong_type_message(node, "a debug level name")),
        },
    }
}

/// Decodes an optional unsigned setting that may come as a number or as a
/// text; see [`flexible_u32`].
pub fn deserialize_flexible(v: Option<&Node>) -> (r: Result<Option<u32>, String>)
    ensures
        plain_outcome(r) == flexible_u32(opt_tree(v)),
{
    match v {
        None => Ok(None),
        Some(node) => match node {
            Node::Null => Ok(None),
            Node::Number(t) => match parse_u32(t.as_str()) {
                Ok(n) => Ok(Some(n)),
                Err(_) => Err(
                    wrong_type_message(
                        node,
                        "a 32-bit unsigned integer or a string that spells one",
                    ),
                ),
            },
            Node::Text(s) => match parse_u32(s.as_str()) {
                Ok(n) => Ok(Some(n)),
                Err(e) => Err(invalid_value_message(s.as_str(), e.message())),
            },
            _ => Err(
                wrong_type_message(node, "a 32-bit unsigned integer or a string that spells one"),
            ),
        },
    }
}

/// Decodes an optional floating-point setting that may come as a number or
/// as a text; see [`flexible_float`].
pub fn deserialize_flexible_float(v: Option<&Node>) -> (r: Result<Option<String>, String>)
    ensures
        text_outcome(r) == flexible_float(opt_tree(v)),
{
    match v {
        None => Ok(None),
        Some(node) => match node {
            Node::Null => Ok(None),
            Node::Number(t) => Ok(Some(t.clone())),
            Node::Text(s) => if float_literal(s.as_str()) {
                Ok(Some(s.clone()))
            } else {
                let why = if s.as_str().is_empty() {
                    "cannot parse float from empty string"
                } else {
                    "invalid float literal"
                };
                Err(invalid_value_message(s.as_str(), why))
            },
            _ => Err(wrong_type_message(node, "a number or a string that spells one")),
        },
    }
}

/// The failure to decode the value at `path`, where `r` is one.
pub open spec fn failed<T>(r: Result<T, Seq<char>>, path: Seq<char>) -> Option<Failure> {
    match r {
        Err(m) => Some(Failure { path, message: m }),
        Ok(_) => None,
    }
}

/// The first of two possible failures.
pub open spec fn or_failure(a: Option<Failure>, b: Option<Failure>) -> Option<Failure> {
    match a {
        Some(f) => Some(f),
        None => b,
    }
}

/// What was decoded, and nothing where decoding failed.
pub open spec fn decoded<T>(r: Result<Option<T>, Seq<char>>) -> Option<T> {
    match r {
        Ok(v) => v,
        Err(_) => None,
    }
}

/// The first field of a provider's table `t` that cannot be decoded, the
/// fields taken in the order of their names, which is the order in which a
/// table with sorted keys is read. `section` is the path of the table.
pub open spec fn creds_failure(t: Tree, section: Seq<char>) -> Option<Failure> {
    or_failure(
        failed(text_field(t.field("api_base"@)), field_path(section, "api_base"@)),
        or_failure(
            failed(text_field(t.field("api_key"@)), field_path(section, "api_key"@)),
            or_failure(
                failed(text_field(t.field("api_version"@)), field_path(section, "api_version"@)),
                or_failure(
                    failed(text_field(t.field("deployment_name"@)), field_path(section, "deployment_name"@)),
                    or_failure(
                        failed(flexible_u32(t.field("max_tokens"@)), field_path(section, "max_tokens"@)),
                        or_failure(
                            failed(text_field(t.field("model"@)), field_path(section, "model"@)),
                            failed(text_field(t.field("organization"@)), field_path(section, "organization"@)),
                        ),
                    ),
                ),
            ),
        ),
    )
}

/// The fields of a provider's table `t`, each decoded on its own.
pub open spec fn creds_values(t: Tree) -> CredsSpec {
    CredsSpec {
        api_key: decoded(text_field(t.field("api_key"@))),
        api_base: decoded(text_field(t.field("api_base"@))),
        model: decoded(text_field(t.field("model"@))),
        max_tokens: decoded(flexible_u32(t.field("max_tokens"@))),
        organization: decoded(text_field(t.field("organization"@))),
        deployment_name: decoded(text_field(t.field("deployment_name"@))),
        api_version: decoded(text_field(t.field("api_version"@))),
    }
}

/// A provider's section: absent where nothing or an absent value is given,
/// decoded field by field where a table is given, and an error at the path
/// of the section otherwise.
pub open spec fn section_of(v: Option<Tree>, section: Seq<char>) -> Result<Option<CredsSpec>, Failure> {
    match v {
        None => Ok(None),
        Some(Tree::Null) => Ok(None),
        Some(Tree::Table(e)) => match creds_failure(Tree::Table(e), section) {
            Some(f) => Err(f),
            None => Ok(Some(creds_values(Tree::Table(e)))),
        },
        Some(other) => Err(
            Failure { path: section, message: wrong_type(other, "a table of provider settings"@) },
        ),
    }
}

/// The failure to decode a section, where there is one.
pub open spec fn section_failure(v: Option<Tree>, section: Seq<char>) -> Option<Failure> {
    match section_of(v, section) {
        Err(f) => Some(f),
        Ok(_) => None,
    }
}

/// A decoded section, and nothing where decoding failed.
pub open spec fn section_value(v: Option<Tree>, section: Seq<char>) -> Option<CredsSpec> {
    match section_of(v, section) {
        Ok(c) => c,
        Err(_) => None,
    }
}

/// The first global setting of the tree `t` that cannot be decoded, the
/// settings taken in the order of their names.
pub open spec fn globals_failure(t: Tree) -> Option<Failure> {
    or_failure(
        failed(level_field(t.field("debug"@)), "debug"@),
        or_failure(
            failed(frontend_field(t.field("frontend"@)), "frontend"@),
            or_failure(
                failed(flexible_u32(t.field("max_reference_chars"@)), "max_reference_chars"@),
                or_failure(
                    failed(flexible_u32(t.field("max_tokens"@)), "max_tokens"@),
                    or_failure(
                        failed(text_field(t.field("model"@)), "model"@),
                        or_failure(
                            failed(format_field(t.field("output_format"@)), "output_format"@),
                            or_failure(
                                failed(provider_field(t.field("provider"@)), "provider"@),
                                or_failure(
                                    failed(flexible_u32(t.field("suggestion_count"@)), "suggestion_count"@),
                                    failed(flexible_float(t.field("temperature"@)), "temperature"@),
                                ),
                            ),
                        ),
                    ),
                ),
            ),
        ),
    )
}

/// The global settings of the tree `t`, each decoded on its own.
pub open spec fn globals_values(t: Tree) -> GlobalsSpec {
    GlobalsSpec {
        provider: decoded(provider_field(t.field("provider"@))),
        model: decoded(text_field(t.field("model"@))),
        temperature: decoded(flexible_float(t.field("temperature"@))),
        suggestion_count: decoded(flexible_u32(t.field("suggestion_count"@))),
        frontend: decoded(frontend_field(t.field("frontend"@))),
        output_format: decoded(format_field(t.field("output_format"@))),
        max_reference_chars: decoded(flexible_u32(t.field("max_reference_chars"@))),
        max_tokens: decoded(flexible_u32(t.field("max_tokens"@))),
        debug: decoded(level_field(t.field("debug"@))),
    }
}

/// The first value that cannot be decoded among the settings and sections
/// of the tree `t` whose names come before `model`, taken in the order of
/// their names.
pub open spec fn early_failure(t: Tree) -> Option<Failure> {
    or_failure(
        section_failure(t.field("azure"@), "azure"@),
        or_failure(
            failed(level_field(t.field("debug"@)), "debug"@),
            or_failure(
                failed(frontend_field(t.field("frontend"@)), "frontend"@),
                or_failure(
                    section_failure(t.field("groq"@), "groq"@),
                    or_failure(
                        failed(flexible_u32(t.field("max_reference_chars"@)), "max_reference_chars"@),
                        or_failure(
                            failed(flexible_u32(t.field("max_tokens"@)), "max_tokens"@),
                            section_failure(t.field("mistral"@), "mistral"@),
                        ),
                    ),
                ),
            ),
        ),
    )
}

/// The first value that cannot be decoded among the settings and sections
/// of the tree `t` from `model` on, taken in the order of their names.
pub open spec fn late_failure(t: Tree) -> Option<Failure> {
    or_failure(
        failed(text_field(t.field("model"@)), "model"@),
        or_failure(
            section_failure(t.field("ollama"@), "ollama"@),
            or_failure(
                section_failure(t.field("openai"@), "openai"@),
                or_failure(
                    failed(format_field(t.field("output_format"@)), "output_format"@),
                    or_failure(
                        failed(provider_field(t.field("provider"@)), "provider"@),
                        or_failure(
                            failed(flexible_u32(t.field("suggestion_count"@)), "suggestion_count"@),
                            failed(flexible_float(t.field("temperature"@)), "temperature"@),
                        ),
                    ),
                ),
            ),
        ),
    )
}

/// The first value of the tree `t` that cannot be decoded. The settings and
/// the sections of the providers are taken in the order of their names,
/// which is the order in which a document with sorted keys is read, and the
/// fields of a section are taken in that order before what follows the
/// section.
pub open spec fn first_failure(t: Tree) -> Option<Failure> {
    or_failure(early_failure(t), late_failure(t))
}

/// Whether decoding fails does not depend on the order in which the values
/// are taken: no value fails to decode exactly when no global setting and
/// no section does.
pub proof fn law_failure_whatever_the_order(t: Tree)
    ensures
        first_failure(t) is None <==> (globals_failure(t) is None && section_failure(
            t.field("openai"@),
            "openai"@,
        ) is None && section_failure(t.field("groq"@), "groq"@) is None && section_failure(
            t.field("azure"@),
            "azure"@,
        ) is None && section_failure(t.field("ollama"@), "ollama"@) is None && section_failure(
            t.field("mistral"@),
            "mistral"@,
        ) is None),
{
}

/// The typed settings that the tree `t` decodes to. Keys that the settings
/// do not know are passed over.
pub open spec fn parsed_of(t: Tree) -> Result<ParsedSpec, Failure> {
    match first_failure(t) {
        Some(f) => Err(f),
        None => Ok(
            ParsedSpec {
                globals: globals_values(t),
                openai: section_value(t.field("openai"@), "openai"@),
                groq: section_value(t.field("groq"@), "groq"@),
                azure: section_value(t.field("azure"@), "azure"@),
                ollama: section_value(t.field("ollama"@), "ollama"@),
                mistral: section_value(t.field("mistral"@), "mistral"@),
            },
        ),
    }
}

/// Decodes the table of one provider, which sits at `section`.
fn decode_credentials(table: &Node, section: &str) -> (r: Result<ProviderCredentials, DecodeError>)
    ensures
        match r {
            Ok(c) => creds_failure(table@, section@) is None && c@ == creds_values(table@),
            Err(e) => creds_failure(table@, section@) == Some(e@),
        },
{
    proof {
        reveal_strlit(".");
        assert("."@ =~= seq!['.']);
    }
    let api_base = match decode_text(table.get("api_base")) {
        Ok(v) => v,
        Err(message) => {
            return Err(DecodeError { path: concat3(section, ".", "api_base"), message });
        },
    };
    let api_key = match decode_text(table.get("api_key")) {
        Ok(v) => v,
        Err(message) => {
            return Err(DecodeError { path: concat3(section, ".", "api_key"), message });
        },
    };
    let api_version = match decode_text(table.get("api_version")) {
        Ok(v) => v,
        Err(message) => {
            return Err(DecodeError { path: concat3(section, ".", "api_version"), message });
        },
    };
    let deployment_name = match decode_text(table.get("deployment_name")) {
        Ok(v) => v,
        Err(message) => {
            return Err(DecodeError { path: concat3(section, ".", "deployment_name"), message });
        },
    };
    let max_tokens = match deserialize_flexible(table.get("max_tokens")) {
        Ok(v) => v,
        Err(message) => {
            return Err(DecodeError { path: concat3(section, ".", "max_tokens"), message });
        },
    };
    let model = match decode_text(table.get("model")) {
        Ok(v) => v,
        Err(message) => {
            return Err(DecodeError { path: concat3(section, ".", "model"), message });
        },
    };
    let organization = match decode_text(table.get("organization")) {
        Ok(v) => v,
        Err(message) => {
            return Err(DecodeError { path: concat3(section, ".", "organization"), message });
        },
    };
    Ok(ProviderCredentials { api_key, api_base, model, max_tokens, organization, deployment_name, api_version })
}

/// Decodes the section of one provider; see [`section_of`].
fn decode_section(v: Option<&Node>, section: &str) -> (r: Result<
    Option<ProviderCredentials>,
    DecodeError,
>)
    ensures
        match r {
            Ok(c) => section_of(opt_tree(v), section@) == Ok::<Option<CredsSpec>, Failure>(
                opt_creds(c),
            ),
            Err(e) => section_of(opt_tree(v), section@) == Err::<Option<CredsSpec>, Failure>(e@),
        },
{
    match v {
        None => Ok(None),
        Some(node) => match node {
            Node::Null => Ok(None),
            Node::Table(_) => match decode_credentials(node, section) {
                Ok(c) => Ok(Some(c)),
                Err(e) => Err(e),
            },
            _ => Err(
                DecodeError {
                    path: owned(section),
                    message: wrong_type_message(node, "a table of provider settings"),
                },
            ),
        },
    }
}

/// What is decoded of the settings and sections whose names come before
/// `model`.
struct EarlySettings {
    azure: Option<ProviderCredentials>,
    debug: Option<DebugLevel>,
    frontend: Option<Frontend>,
    groq: Option<ProviderCredentials>,
    max_reference_chars: Option<u32>,
    max_tokens: Option<u32>,
    mistral: Option<ProviderCredentials>,
}

/// What is decoded of the settings and sections from `model` on.
struct LateSettings {
    model: Option<String>,
    ollama: Option<ProviderCredentials>,
    openai: Option<ProviderCredentials>,
    output_format: Option<OutputFormat>,
    provider: Option<Provider>,
    suggestion_count: Option<u32>,
    temperature: Option<String>,
}

/// Decodes the settings and sections whose names come before `model`, in
/// the order of their names.
fn decode_early(tree: &Node) -> (r: Result<EarlySettings, DecodeError>)
    ensures
        match r {
            Ok(p) => {
                &&& early_failure(tree@) is None
                &&& opt_creds(p.azure) == section_value(tree@.field("azure"@), "azure"@)
                &&& p.debug == globals_values(tree@).debug
                &&& p.frontend == globals_values(tree@).frontend
                &&& opt_creds(p.groq) == section_value(tree@.field("groq"@), "groq"@)
                &&& p.max_reference_chars == globals_values(tree@).max_reference_chars
                &&& p.max_tokens == globals_values(tree@).max_tokens
                &&& opt_creds(p.mistral) == section_value(tree@.field("mistral"@), "mistral"@)
            },
            Err(e) => early_failure(tree@) == Some(e@),
        },
{
    let azure = match decode_section(tree.get("azure"), "azure") {
        Ok(v) => v,
        Err(e) => {
            return Err(e);
        },
    };
    let debug = match decode_level(tree.get("debug")) {
        Ok(v) => v,
        Err(message) => {
            return Err(DecodeError { path: owned("debug"), message });
        },
    };
    let frontend = match decode_frontend(tree.get("frontend")) {
        Ok(v) => v,
        Err(message) => {
            return Err(DecodeError { path: owned("frontend"), message });
        },
    };
    let groq = match decode_section(tree.get("groq"), "groq") {
        Ok(v) => v,
        Err(e) => {
            return Err(e);
        },
    };
    let max_reference_chars = match deserialize_flexible(tree.get("max_reference_chars")) {
        Ok(v) => v,
        Err(message) => {
            return Err(DecodeError { path: owned("max_reference_chars"), message });
        },
    };
    let max_tokens = match deserialize_flexible(tree.get("max_tokens")) {
        Ok(v) => v,
        Err(message) => {
            return Err(DecodeError { path: owned("max_tokens"), message });
        },
    };
    let mistral = match decode_section(tree.get("mistral"), "mistral") {
        Ok(v) => v,
        Err(e) => {
            return Err(e);
        },
    };
    Ok(EarlySettings { azure, debug, frontend, groq, max_reference_chars, max_tokens, mistral })
}

/// Decodes the settings and sections from `model` on, in the order of
/// their names.
fn decode_late(tree: &Node) -> (r: Result<LateSettings, DecodeError>)
    ensures
        match r {
            Ok(p) => {
                &&& late_failure(tree@) is None
                &&& opt_view(p.model) == globals_values(tree@).model
                &&& opt_creds(p.ollama) == section_value(tree@.field("ollama"@), "ollama"@)
                &&& opt_creds(p.openai) == section_value(tree@.field("openai"@), "openai"@)
                &&& p.output_format == globals_values(tree@).output_format
                &&& p.provider == globals_values(tree@).provider
                &&& p.suggestion_count == globals_values(tree@).suggestion_count
                &&& opt_view(p.temperature) == globals_values(tree@).temperature
            },
            Err(e) => late_failure(tree@) == Some(e@),
        },
{
    let model = match decode_text(tree.get("model")) {
        Ok(v) => v,
        Err(message) => {
            return Err(DecodeError { path: owned("model"), message });
        },
    };
    let ollama = match decode_section(tree.get("ollama"), "ollama") {
        Ok(v) => v,
        Err(e) => {
            return Err(e);
        },
    };
    let openai = match decode_section(tree.get("openai"), "openai") {
        Ok(v) => v,
        Err(e) => {
            return Err(e);
        },
    };
    let output_format = match decode_format(tree.get("output_format")) {
        Ok(v) => v,
        Err(message) => {
            return Err(DecodeError { path: owned("output_format"), message });
        },
    };
    let provider = match decode_provider(tree.get("provider")) {
        Ok(v) => v,
        Err(message) => {
            return Err(DecodeError { path: owned("provider"), message });
        },
    };
    let suggestion_count = match deserialize_flexible(tree.get("suggestion_count")) {
        Ok(v) => v,
        Err(message) => {
            return Err(DecodeError { path: owned("suggestion_count"), message });
        },
    };
    let temperature = match deserialize_flexible_float(tree.get("temperature")) {
        Ok(v) => v,
        Err(message) => {
            return Err(DecodeError { path: owned("temperature"), message });
        },
    };
    Ok(LateSettings { model, ollama, openai, output_format, provider, suggestion_count, temperature })
}

/// Decodes the merged tree into typed settings. The outcome is the one that
/// [`parsed_of`] describes: the settings where every value can be decoded,
/// and otherwise the first value that cannot, with its dotted path.
pub fn decode(tree: &Node) -> (r: Result<TomlConfig, DecodeError>)
    ensures
        match r {
            Ok(p) => parsed_of(tree@) == Ok::<ParsedSpec, Failure>(p@),
            Err(e) => parsed_of(tree@) == Err::<ParsedSpec, Failure>(e@),
        },
{
    let early = match decode_early(tree) {
        Ok(p) => p,
        Err(e) => {
            return Err(e);
        },
    };
    let late = match decode_late(tree) {
        Ok(p) => p,
        Err(e) => {
            return Err(e);
        },
    };
    Ok(
        TomlConfig {
            provider: late.provider,
            model: late.model,
            temperature: late.temperature,
            suggestion_count: late.suggestion_count,
            frontend: early.frontend,
            output_format: late.output_format,
            max_reference_chars: early.max_reference_chars,
            max_tokens: early.max_tokens,
            debug: early.debug,
            openai: late.openai,
            groq: early.groq,
            azure: early.azure,
            ollama: late.ollama,
            mistral: early.mistral,
        },
    )
}

} // verus!
