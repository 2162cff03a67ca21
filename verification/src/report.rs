//! The configuration and its schema as trees, ready to be printed as JSON.

use crate::catalog::global_settings;
use crate::catalog::global_settings_metadata;
use crate::catalog::provider_metadata;
use crate::catalog::provider_spec;
use crate::config::AppConfig;
use crate::config::ConfigSpec;
use crate::display::global_rows;
use crate::display::provider_rows;
use crate::display::providers_to_show;
use crate::display::rows;
use crate::display::ReportLine;
use crate::display::Row;
use crate::hints::opt_str;
use crate::kinds::Frontend;
use crate::kinds::OutputFormat;
use crate::kinds::Provider;
use crate::layers::Environment;
use crate::meta::field_views;
use crate::meta::FieldMeta;
use crate::meta::FieldSpec;
use crate::meta::ProviderMeta;
use crate::meta::ProviderSpec;
use crate::text::owned;
use crate::tree::entries_view;
use crate::tree::items_view;
use crate::tree::lemma_list_view;
use crate::tree::lemma_table_view;
use crate::tree::Node;
use crate::tree::Tree;
use vstd::prelude::*;

verus! {

/// An optional text as a leaf: the text, or an absent value.
pub open spec fn text_or_null(o: Option<Seq<char>>) -> Tree {
    match o {
        Some(s) => Tree::Text(s),
        None => Tree::Null,
    }
}

/// The entry of a report line: its value and the label of its source, and
/// whether it is deprecated where that is asked for.
pub open spec fn row_tree(r: Row, with_deprecated: bool) -> Tree {
    if with_deprecated {
        Tree::Table(
            seq![
                ("value"@, Tree::Text(r.value)),
                ("source"@, Tree::Text(r.source.label())),
                ("deprecated"@, Tree::Bool(r.deprecated)),
            ],
        )
    } else {
        Tree::Table(seq![("value"@, Tree::Text(r.value)), ("source"@, Tree::Text(r.source.label()))])
    }
}

/// The table of report lines, each under its name.
pub open spec fn rows_tree(lines: Seq<Row>, with_deprecated: bool) -> Tree
    decreases lines.len(),
{
    if lines.len() == 0 {
        Tree::empty()
    } else {
        rows_tree(lines.drop_last(), with_deprecated).put(
            lines.last().name,
            row_tree(lines.last(), with_deprecated),
        )
    }
}

/// The table of the settings of the providers `shown`, each provider under
/// its name.
pub open spec fn providers_tree(c: ConfigSpec, shown: Seq<Provider>) -> Tree
    decreases shown.len(),
{
    if shown.len() == 0 {
        Tree::empty()
    } else {
        let p = shown.last();
        providers_tree(c, shown.drop_last()).put(
            provider_spec(p).name,
            rows_tree(
                provider_rows(c, c.creds(p), provider_spec(p).name, provider_spec(p).all_fields()),
                false,
            ),
        )
    }
}

/// The entry of a configuration file: where it is looked for, and whether
/// it was loaded.
pub open spec fn file_tree(path: Option<Seq<char>>, loaded: bool) -> Tree {
    Tree::Table(seq![("path"@, text_or_null(path)), ("exists"@, Tree::Bool(loaded))])
}

/// The report of a configuration as a tree: the global settings, the
/// settings of the providers that are shown, and the two configuration
/// files with the places where they are looked for.
pub open spec fn report_tree(
    c: ConfigSpec,
    env: Map<Seq<char>, Seq<char>>,
    toml_path: Option<Seq<char>>,
    json_path: Option<Seq<char>>,
) -> Tree {
    Tree::Table(
        seq![
            ("global"@, rows_tree(global_rows(c, env, global_settings(), None), true)),
            ("providers"@, providers_tree(c, providers_to_show(c))),
            (
                "config_files"@,
                Tree::Table(
                    seq![
                        ("toml"@, file_tree(toml_path, c.toml_path is Some)),
                        ("json"@, file_tree(json_path, c.json_path is Some)),
                    ],
                ),
            ),
        ],
    )
}

/// A table with the entries `a` and `b`.
fn table2(a: (String, Node), b: (String, Node)) -> (r: Node)
    ensures
        r@ == Tree::Table(seq![(a.0@, a.1@), (b.0@, b.1@)]),
{
    let mut entries: Vec<(String, Node)> = Vec::new();
    entries.push(a);
    entries.push(b);
    proof {
        lemma_table_view(entries);
        assert(entries_view(entries@) =~= seq![(a.0@, a.1@), (b.0@, b.1@)]);
    }
    Node::Table(entries)
}

/// A table with the entries `a`, `b` and `c`.
fn table3(a: (String, Node), b: (String, Node), c: (String, Node)) -> (r: Node)
    ensures
        r@ == Tree::Table(seq![(a.0@, a.1@), (b.0@, b.1@), (c.0@, c.1@)]),
{
    let mut entries: Vec<(String, Node)> = Vec::new();
    entries.push(a);
    entries.push(b);
    entries.push(c);
    proof {
        lemma_table_view(entries);
        assert(entries_view(entries@) =~= seq![(a.0@, a.1@), (b.0@, b.1@), (c.0@, c.1@)]);
    }
    Node::Table(entries)
}

fn text_or_null_node(o: Option<&str>) -> (r: Node)
    ensures
        r@ == text_or_null(opt_str(o)),
{
    match o {
        Some(s) => Node::text(s),
        None => Node::Null,
    }
}

fn row_node(line: &ReportLine, with_deprecated: bool) -> (r: Node)
    ensures
        r@ == row_tree(line@, with_deprecated),
{
    if with_deprecated {
        table3(
            (owned("value"), Node::text(line.value.as_str())),
            (owned("source"), Node::text(line.source.name())),
            (owned("deprecated"), Node::Bool(line.deprecated)),
        )
    } else {
        table2(
            (owned("value"), Node::text(line.value.as_str())),
            (owned("source"), Node::text(line.source.name())),
        )
    }
}

fn rows_node(lines: &Vec<ReportLine>, with_deprecated: bool) -> (r: Node)
    ensures
        r@ == rows_tree(rows(lines@), with_deprecated),
{
    let ghost views = rows(lines@);
    let mut out = Node::empty_table();
    let mut i: usize = 0;
    proof {
        assert(views.take(0) =~= Seq::<Row>::empty());
    }
    while i < lines.len()
        invariant
            i <= lines.len(),
            views == rows(lines@),
            out@ == rows_tree(views.take(i as int), with_deprecated),
        decreases lines.len() - i,
    {
        proof {
            let next = views.take(i as int + 1);
            assert(next.drop_last() =~= views.take(i as int));
            assert(next.last() == lines@[i as int]@);
        }
        out.insert(lines[i].name.clone(), row_node(&lines[i], with_deprecated));
        i = i + 1;
    }
    proof {
        assert(views.take(lines@.len() as int) =~= views);
    }
    out
}

fn file_node(path: Option<&str>, loaded: bool) -> (r: Node)
    ensures
        r@ == file_tree(opt_str(path), loaded),
{
    table2((owned("path"), text_or_null_node(path)), (owned("exists"), Node::Bool(loaded)))
}

impl AppConfig {
    /// The report of the configuration as a tree; see [`report_tree`].
    /// `toml_path` and `json_path` are the places where the two files are
    /// looked for, as far as they can be told.
    pub fn json_report(&self, env: &Environment, toml_path: Option<&str>, json_path: Option<&str>) -> (r:
        Node)
        ensures
            r@ == report_tree(self@, env@, opt_str(toml_path), opt_str(json_path)),
    {
        let global_lines = self.global_report(env, None);
        let global = rows_node(&global_lines, true);
        let shown = self.get_providers_to_display();
        let mut providers = Node::empty_table();
        let mut i: usize = 0;
        proof {
            assert(shown@.take(0) =~= Seq::<Provider>::empty());
        }
        while i < shown.len()
            invariant
                i <= shown.len(),
                providers@ == providers_tree(self@, shown@.take(i as int)),
            decreases shown.len() - i,
        {
            proof {
                let next = shown@.take(i as int + 1);
                assert(next.drop_last() =~= shown@.take(i as int));
                assert(next.last() == shown@[i as int]);
            }
            let provider = shown[i];
            let lines = self.provider_report(&provider);
            providers.insert(owned(provider.metadata().name), rows_node(&lines, false));
            i = i + 1;
        }
        proof {
            assert(shown@.take(shown@.len() as int) =~= shown@);
        }
        let files = table2(
            (owned("toml"), file_node(toml_path, self.toml_path.is_some())),
            (owned("json"), file_node(json_path, self.json_path.is_some())),
        );
        table3(
            (owned("global"), global),
            (owned("providers"), providers),
            (owned("config_files"), files),
        )
    }
}

/// The description of a field in the schema.
pub open spec fn field_schema(f: FieldSpec) -> Tree {
    Tree::Table(
        seq![
            ("name"@, Tree::Text(f.name)),
            ("description"@, Tree::Text(f.description)),
            ("env_var"@, text_or_null(f.env_var)),
            ("default"@, text_or_null(f.default)),
            ("required"@, Tree::Bool(f.required)),
        ],
    )
}

/// The descriptions of the fields `fields`; run-time switches are left out
/// where `skip_virtual` is set.
pub open spec fn fields_schema(fields: Seq<FieldSpec>, skip_virtual: bool) -> Seq<Tree>
    decreases fields.len(),
{
    if fields.len() == 0 {
        Seq::empty()
    } else {
        let head = fields_schema(fields.drop_last(), skip_virtual);
        if skip_virtual && fields.last().virtual_field {
            head
        } else {
            head.push(field_schema(fields.last()))
        }
    }
}

/// The description of a provider in the schema.
pub open spec fn provider_schema(p: ProviderSpec) -> Tree {
    Tree::Table(
        seq![
            ("name"@, Tree::Text(p.name)),
            ("display_name"@, Tree::Text(p.display_name)),
            ("description"@, Tree::Text(p.description)),
            ("fields"@, Tree::List(fields_schema(p.all_fields(), false))),
        ],
    )
}

/// The descriptions of the first `n` providers.
pub open spec fn providers_schema(n: int) -> Seq<Tree>
    decreases n,
{
    if n <= 0 || n > Provider::every().len() {
        Seq::empty()
    } else {
        providers_schema(n - 1).push(provider_schema(provider_spec(Provider::every()[n - 1])))
    }
}

/// A list of text leaves.
pub open spec fn text_list(names: Seq<Seq<char>>) -> Tree {
    Tree::List(names.map_values(|n: Seq<char>| Tree::Text(n)))
}

/// The values that the enumerated settings can take.
pub open spec fn valid_values() -> Tree {
    Tree::Table(
        seq![
            ("provider"@, text_list(Provider::every().map_values(|p: Provider| p.label()))),
            (
                "frontend"@,
                text_list(
                    seq![
                        Frontend::Dialog.label(),
                        Frontend::Readline.label(),
                        Frontend::Noninteractive.label(),
                    ],
                ),
            ),
            (
                "output_format"@,
                text_list(seq![OutputFormat::Human.label(), OutputFormat::Json.label()]),
            ),
        ],
    )
}

/// The schema of the configuration as a tree: the global settings, the
/// values of the enumerated settings, and the providers with their fields.
pub open spec fn schema_tree() -> Tree {
    Tree::Table(
        seq![
            ("global_settings"@, Tree::List(fields_schema(global_settings(), true))),
            ("valid_values"@, valid_values()),
            ("providers"@, Tree::List(providers_schema(Provider::every().len() as int))),
        ],
    )
}

fn field_schema_node(f: &FieldMeta) -> (r: Node)
    ensures
        r@ == field_schema(f@),
{
    let mut entries: Vec<(String, Node)> = Vec::new();
    entries.push((owned("name"), Node::text(f.name)));
    entries.push((owned("description"), Node::text(f.description)));
    entries.push((owned("env_var"), text_or_null_node(f.env_var)));
    entries.push((owned("default"), text_or_null_node(f.default)));
    entries.push((owned("required"), Node::Bool(f.required)));
    proof {
        lemma_table_view(entries);
        assert(entries_view(entries@) =~= field_schema(f@)->Table_0);
    }
    Node::Table(entries)
}

fn fields_schema_node(fields: &Vec<FieldMeta>, skip_virtual: bool) -> (r: Node)
    ensures
        r@ == Tree::List(fields_schema(field_views(fields@), skip_virtual)),
{
    let ghost views = field_views(fields@);
    let mut out: Vec<Node> = Vec::new();
    let mut i: usize = 0;
    proof {
        assert(views.take(0) =~= Seq::<FieldSpec>::empty());
        assert(items_view(out@) =~= Seq::<Tree>::empty());
    }
    while i < fields.len()
        invariant
            i <= fields.len(),
            views == field_views(fields@),
            items_view(out@) == fields_schema(views.take(i as int), skip_virtual),
        decreases fields.len() - i,
    {
        proof {
            let next = views.take(i as int + 1);
            assert(next.drop_last() =~= views.take(i as int));
            assert(next.last() == fields@[i as int]@);
        }
        if !(skip_virtual && fields[i].virtual_field) {
            let ghost before = items_view(out@);
            let node = field_schema_node(&fields[i]);
            out.push(node);
            proof {
                assert(items_view(out@) =~= before.push(node@));
            }
        }
        i = i + 1;
    }
    proof {
        assert(views.take(fields@.len() as int) =~= views);
        lemma_list_view(out);
    }
    Node::List(out)
}

fn provider_schema_node(p: &ProviderMeta) -> (r: Node)
    ensures
        r@ == provider_schema(p@),
{
    let fields = p.all_fields();
    let mut entries: Vec<(String, Node)> = Vec::new();
    entries.push((owned("name"), Node::text(p.name)));
    entries.push((owned("display_name"), Node::text(p.display_name)));
    entries.push((owned("description"), Node::text(p.description)));
    entries.push((owned("fields"), fields_schema_node(&fields, false)));
    proof {
        lemma_table_view(entries);
        assert(entries_view(entries@) =~= provider_schema(p@)->Table_0);
    }
    Node::Table(entries)
}

fn text_list_node(names: &Vec<&'static str>) -> (r: Node)
    ensures
        r@ == text_list(crate::meta::texts(names@)),
{
    let mut out: Vec<Node> = Vec::new();
    let mut i: usize = 0;
    while i < names.len()
        invariant
            i <= names.len(),
            out@.len() == i,
            forall|j: int| 0 <= j < i ==> (#[trigger] out@[j])@ == Tree::Text(names@[j]@),
        decreases names.len() - i,
    {
        out.push(Node::text(names[i]));
        i = i + 1;
    }
    proof {
        lemma_list_view(out);
        assert(items_view(out@) =~= crate::meta::texts(names@).map_values(
            |n: Seq<char>| Tree::Text(n),
        ));
    }
    Node::List(out)
}

fn valid_values_node() -> (r: Node)
    ensures
        r@ == valid_values(),
{
    let mut providers: Vec<&'static str> = Vec::new();
    providers.push(Provider::OpenAI.name());
    providers.push(Provider::Groq.name());
    providers.push(Provider::Azure.name());
    providers.push(Provider::Ollama.name());
    providers.push(Provider::Mistral.name());
    let mut frontends: Vec<&'static str> = Vec::new();
    frontends.push(Frontend::Dialog.name());
    frontends.push(Frontend::Readline.name());
    frontends.push(Frontend::Noninteractive.name());
    let mut formats: Vec<&'static str> = Vec::new();
    formats.push(OutputFormat::Human.name());
    formats.push(OutputFormat::Json.name());
    proof {
        assert(crate::meta::texts(providers@) =~= Provider::every().map_values(
            |p: Provider| p.label(),
        ));
        assert(crate::meta::texts(frontends@) =~= seq![
            Frontend::Dialog.label(),
            Frontend::Readline.label(),
            Frontend::Noninteractive.label(),
        ]);
        assert(crate::meta::texts(formats@) =~= seq![
            OutputFormat::Human.label(),
            OutputFormat::Json.label(),
        ]);
    }
    table3(
        (owned("provider"), text_list_node(&providers)),
        (owned("frontend"), text_list_node(&frontends)),
        (owned("output_format"), text_list_node(&formats)),
    )
}

/// The schema of the configuration as a tree; see [`schema_tree`].
pub fn schema_report() -> (r: Node)
    ensures
        r@ == schema_tree(),
{
    let globals = global_settings_metadata();
    let global_settings = fields_schema_node(&globals, true);
    let metas = provider_metadata();
    let mut providers: Vec<Node> = Vec::new();
    let mut i: usize = 0;
    proof {
        assert(items_view(providers@) =~= providers_schema(0));
    }
    while i < metas.len()
        invariant
            i <= metas.len(),
            metas@.len() == Provider::every().len(),
            forall|k: int|
                0 <= k < metas@.len() ==> (#[trigger] metas@[k])@ == provider_spec(
                    Provider::every()[k],
                ),
            items_view(providers@) == providers_schema(i as int),
        decreases metas.len() - i,
    {
        let ghost before = items_view(providers@);
        let node = provider_schema_node(&metas[i]);
        providers.push(node);
        proof {
            assert(items_view(providers@) =~= before.push(node@));
        }
        i = i + 1;
    }
    proof {
        lemma_list_view(providers);
    }
    table3(
        (owned("global_settings"), global_settings),
        (owned("valid_values"), valid_values_node()),
        (owned("providers"), Node::List(providers)),
    )
}

} // verus!
