//! The law of the command line: a flag that is given overrides everything.

use crate::builder::writes;
use crate::builder::Write;
use crate::default_laws::distinct_keys;
use crate::default_laws::flat;
use crate::default_laws::lemma_bound_leaf_is_set;
use crate::default_laws::lemma_put_keeps_shape;
use crate::default_laws::plain_keys;
use crate::default_laws::tables_are_named;
use crate::laws::last_write;
use crate::laws::leaves_alone;
use crate::laws::sets;
use crate::layers::cli_layer;
use crate::layers::put_some;
use crate::layers::text_leaf;
use crate::layers::CliSpec;
use crate::literal::digits_of;
use crate::load::merged_layers;
use crate::names::dotless_upto;
use crate::names::lemma_dotless_upto;
use crate::names::lemma_split_dotless;
use crate::names::mark;
use crate::pipeline_laws::law_precedence;
use crate::pipeline_laws::pipeline;
use crate::source::ConfigSource;
use crate::text::dotless;
use crate::text::lemma_split_dots_shape;
use crate::text::split_dots;
use crate::tree::key_index;
use crate::tree::lemma_key_index;
use crate::tree::Tree;
use crate::tree_laws::lemma_put_other;
use crate::tree_laws::lemma_put_same;
use vstd::prelude::*;

verus! {

/// Binding a key where there is a value keeps a table flat where the value
/// is no table.
proof fn lemma_put_some_shape(t: Tree, key: Seq<char>, value: Option<Tree>)
    requires
        t is Table,
        distinct_keys(t.entries()),
        flat(t.entries()),
        value is Some ==> !(value->0 is Table),
    ensures
        put_some(t, key, value) is Table,
        distinct_keys(put_some(t, key, value).entries()),
        flat(put_some(t, key, value).entries()),
{
    if value is Some {
        assert(tables_are_named(t.entries()));
        lemma_put_keeps_shape(t, key, value->0);
        let e = t->Table_0;
        let i = key_index(e, key);
        lemma_key_index(e, key);
        let e2 = t.put(key, value->0).entries();
        assert forall|a: int| 0 <= a < e2.len() implies !((#[trigger] e2[a]).1 is Table) by {
            if i < e.len() {
                assert(e2 =~= e.update(i, (key, value->0)));
                if a != i {
                    assert(e2[a] == e[a]);
                }
            } else {
                assert(e2 =~= e.push((key, value->0)));
                if a < e.len() {
                    assert(e2[a] == e[a]);
                }
            }
        }
    }
}

/// The layer of the command line is a flat table with distinct keys, and
/// binds the model to the model that was given.
pub proof fn lemma_cli_layer(c: CliSpec)
    ensures
        cli_layer(c) is Table,
        distinct_keys(cli_layer(c).entries()),
        flat(cli_layer(c).entries()),
        tables_are_named(cli_layer(c).entries()),
        c.model is Some ==> cli_layer(c).field("model"@) == Some(Tree::Text(c.model->0)),
        c.provider is Some ==> cli_layer(c).field("provider"@) == Some(Tree::Text(c.provider->0)),
        c.frontend is Some ==> cli_layer(c).field("frontend"@) == Some(Tree::Text(c.frontend->0)),
        c.output_format is Some ==> cli_layer(c).field("output_format"@) == Some(
            Tree::Text(c.output_format->0),
        ),
        c.temperature is Some ==> cli_layer(c).field("temperature"@) == Some(
            Tree::Number(c.temperature->0),
        ),
        c.max_tokens is Some ==> cli_layer(c).field("max_tokens"@) == Some(
            Tree::Number(digits_of(c.max_tokens->0 as nat)),
        ),
        c.debug is Some ==> cli_layer(c).field("debug"@) == Some(Tree::Text(c.debug->0.label())),
{
    reveal_strlit("provider");
    reveal_strlit("model");
    reveal_strlit("max_tokens");
    reveal_strlit("temperature");
    reveal_strlit("frontend");
    reveal_strlit("output_format");
    reveal_strlit("debug");
    reveal_strlit("locale");
    assert(mark("provider"@) == (8nat, 'p'));
    assert(mark("model"@) == (5nat, 'm'));
    assert(mark("max_tokens"@) == (10nat, 'm'));
    assert(mark("temperature"@) == (11nat, 't'));
    assert(mark("frontend"@) == (8nat, 'f'));
    assert(mark("output_format"@) == (13nat, 'o'));
    assert(mark("debug"@) == (5nat, 'd'));
    assert(mark("locale"@) == (6nat, 'l'));
    let v3 = match c.max_tokens {
        Some(n) => Some(Tree::Number(digits_of(n as nat))),
        None => None,
    };
    let v4 = match c.temperature {
        Some(t) => Some(Tree::Number(t)),
        None => None,
    };
    let v7 = match c.debug {
        Some(d) => Some(Tree::Text(d.label())),
        None => None,
    };
    let t0 = Tree::empty();
    let t1 = put_some(t0, "provider"@, text_leaf(c.provider));
    let t2 = put_some(t1, "model"@, text_leaf(c.model));
    let t3 = put_some(t2, "max_tokens"@, v3);
    let t4 = put_some(t3, "temperature"@, v4);
    let t5 = put_some(t4, "frontend"@, text_leaf(c.frontend));
    let t6 = put_some(t5, "output_format"@, text_leaf(c.output_format));
    let t7 = put_some(t6, "debug"@, v7);
    let t8 = put_some(t7, "locale"@, text_leaf(c.locale));
    assert(t8 == cli_layer(c));
    lemma_put_some_shape(t0, "provider"@, text_leaf(c.provider));
    lemma_put_some_shape(t1, "model"@, text_leaf(c.model));
    lemma_put_some_shape(t2, "max_tokens"@, v3);
    lemma_put_some_shape(t3, "temperature"@, v4);
    lemma_put_some_shape(t4, "frontend"@, text_leaf(c.frontend));
    lemma_put_some_shape(t5, "output_format"@, text_leaf(c.output_format));
    lemma_put_some_shape(t6, "debug"@, v7);
    lemma_put_some_shape(t7, "locale"@, text_leaf(c.locale));
    lemma_field_through(t0, t1, t2, t3, t4, t5, t6, t7, t8, c, v3, v4, v7);
}

/// Binding a plain key where there is a value keeps the keys of a table
/// plain.
proof fn lemma_put_some_plain(t: Tree, key: Seq<char>, value: Option<Tree>)
    requires
        t is Table,
        plain_keys(t.entries()),
        dotless(key),
        key.len() > 0,
    ensures
        put_some(t, key, value) is Table,
        plain_keys(put_some(t, key, value).entries()),
{
    if value is Some {
        crate::default_laws::lemma_put_keeps_plain(t, key, value->0);
        lemma_put_same(t, key, value->0);
    }
}

/// The keys of the layer of the command line are names without a dot.
pub proof fn lemma_cli_layer_plain(c: CliSpec)
    ensures
        plain_keys(cli_layer(c).entries()),
{
    crate::names::lemma_global_names();
    reveal_strlit("locale");
    assert(dotless("locale"@) && "locale"@.len() > 0) by {
        reveal_with_fuel(dotless_upto, 8);
        assert(dotless_upto("locale"@, 6));
        lemma_dotless_upto("locale"@, 6);
    }
    let gs = crate::catalog::global_settings();
    assert(dotless(gs[0].name) && dotless(gs[1].name) && dotless(gs[2].name) && dotless(gs[5].name)
        && dotless(gs[6].name) && dotless(gs[8].name) && dotless(gs[9].name));
    assert(gs[0].name.len() > 0 && gs[1].name.len() > 0 && gs[2].name.len() > 0 && gs[5].name.len()
        > 0 && gs[6].name.len() > 0 && gs[8].name.len() > 0 && gs[9].name.len() > 0);
    let v3 = match c.max_tokens {
        Some(n) => Some(Tree::Number(digits_of(n as nat))),
        None => None,
    };
    let v4 = match c.temperature {
        Some(t) => Some(Tree::Number(t)),
        None => None,
    };
    let v7 = match c.debug {
        Some(d) => Some(Tree::Text(d.label())),
        None => None,
    };
    let t0 = Tree::empty();
    let t1 = put_some(t0, "provider"@, text_leaf(c.provider));
    let t2 = put_some(t1, "model"@, text_leaf(c.model));
    let t3 = put_some(t2, "max_tokens"@, v3);
    let t4 = put_some(t3, "temperature"@, v4);
    let t5 = put_some(t4, "frontend"@, text_leaf(c.frontend));
    let t6 = put_some(t5, "output_format"@, text_leaf(c.output_format));
    let t7 = put_some(t6, "debug"@, v7);
    lemma_put_some_plain(t0, "provider"@, text_leaf(c.provider));
    lemma_put_some_plain(t1, "model"@, text_leaf(c.model));
    lemma_put_some_plain(t2, "max_tokens"@, v3);
    lemma_put_some_plain(t3, "temperature"@, v4);
    lemma_put_some_plain(t4, "frontend"@, text_leaf(c.frontend));
    lemma_put_some_plain(t5, "output_format"@, text_leaf(c.output_format));
    lemma_put_some_plain(t6, "debug"@, v7);
    lemma_put_some_plain(t7, "locale"@, text_leaf(c.locale));
}

/// What a flag binds stays bound while the flags after it are bound.
proof fn lemma_field_through(
    t0: Tree,
    t1: Tree,
    t2: Tree,
    t3: Tree,
    t4: Tree,
    t5: Tree,
    t6: Tree,
    t7: Tree,
    t8: Tree,
    c: CliSpec,
    v3: Option<Tree>,
    v4: Option<Tree>,
    v7: Option<Tree>,
)
    requires
        t0 is Table,
        t1 is Table,
        t2 is Table,
        t3 is Table,
        t4 is Table,
        t5 is Table,
        t6 is Table,
        t7 is Table,
        t1 == put_some(t0, "provider"@, text_leaf(c.provider)),
        t2 == put_some(t1, "model"@, text_leaf(c.model)),
        t3 == put_some(t2, "max_tokens"@, v3),
        t4 == put_some(t3, "temperature"@, v4),
        t5 == put_some(t4, "frontend"@, text_leaf(c.frontend)),
        t6 == put_some(t5, "output_format"@, text_leaf(c.output_format)),
        t7 == put_some(t6, "debug"@, v7),
        t8 == put_some(t7, "locale"@, text_leaf(c.locale)),
        mark("provider"@) == (8nat, 'p'),
        mark("model"@) == (5nat, 'm'),
        mark("max_tokens"@) == (10nat, 'm'),
        mark("temperature"@) == (11nat, 't'),
        mark("frontend"@) == (8nat, 'f'),
        mark("output_format"@) == (13nat, 'o'),
        mark("debug"@) == (5nat, 'd'),
        mark("locale"@) == (6nat, 'l'),
    ensures
        c.provider is Some ==> t8.field("provider"@) == text_leaf(c.provider),
        c.model is Some ==> t8.field("model"@) == text_leaf(c.model),
        v3 is Some ==> t8.field("max_tokens"@) == v3,
        v4 is Some ==> t8.field("temperature"@) == v4,
        c.frontend is Some ==> t8.field("frontend"@) == text_leaf(c.frontend),
        c.output_format is Some ==> t8.field("output_format"@) == text_leaf(c.output_format),
        v7 is Some ==> t8.field("debug"@) == v7,
{
    let names = seq![
        "provider"@,
        "model"@,
        "max_tokens"@,
        "temperature"@,
        "frontend"@,
        "output_format"@,
        "debug"@,
        "locale"@,
    ];
    let values = seq![
        text_leaf(c.provider),
        text_leaf(c.model),
        v3,
        v4,
        text_leaf(c.frontend),
        text_leaf(c.output_format),
        v7,
        text_leaf(c.locale),
    ];
    let trees = seq![t0, t1, t2, t3, t4, t5, t6, t7, t8];
    assert forall|i: int, j: int| 0 <= i < 8 && 0 <= j < 8 && i != j implies names[i]
        != names[j] by {
        assert(mark(names[i]) != mark(names[j]));
    }
    assert forall|i: int, j: int| 0 <= i < j <= 8 && values[i] is Some implies (
    #[trigger] trees[j]).field(#[trigger] names[i]) == values[i] by {
        lemma_field_kept(trees, names, values, i, j);
    }
    assert(trees[8].field(names[0]) == values[0] || values[0] is None);
    assert(trees[8].field(names[1]) == values[1] || values[1] is None);
    assert(trees[8].field(names[2]) == values[2] || values[2] is None);
    assert(trees[8].field(names[3]) == values[3] || values[3] is None);
    assert(trees[8].field(names[4]) == values[4] || values[4] is None);
    assert(trees[8].field(names[5]) == values[5] || values[5] is None);
    assert(trees[8].field(names[6]) == values[6] || values[6] is None);
}

/// In a row of tables of which each is the one before it with one more
/// name bound, where the names differ, what a name is bound to stays.
proof fn lemma_field_kept(
    trees: Seq<Tree>,
    names: Seq<Seq<char>>,
    values: Seq<Option<Tree>>,
    i: int,
    j: int,
)
    requires
        trees.len() == names.len() + 1,
        values.len() == names.len(),
        0 <= i < j <= names.len(),
        values[i] is Some,
        forall|k: int| 0 <= k < names.len() ==> (#[trigger] trees[k]) is Table && trees[k + 1]
            == put_some(trees[k], names[k], values[k]),
        forall|a: int, b: int|
            0 <= a < names.len() && 0 <= b < names.len() && a != b ==> names[a] != names[b],
    ensures
        trees[j].field(names[i]) == values[i],
    decreases j - i,
{
    if j == i + 1 {
        assert(trees[i] is Table);
        assert(trees[i + 1] == put_some(trees[i], names[i], values[i]));
        lemma_put_same(trees[i], names[i], values[i]->0);
    } else {
        lemma_field_kept(trees, names, values, i, j - 1);
        assert(trees[j - 1] is Table);
        assert(trees[j] == put_some(trees[j - 1], names[j - 1], values[j - 1]));
        if values[j - 1] is Some {
            lemma_put_other(trees[j - 1], names[j - 1], values[j - 1]->0, names[i]);
        }
    }
}

/// A flag overrides everything. Whatever the files and the environment
/// hold: where the layer of the command line binds a name without a dot to
/// a value, the loaded tree holds that value at the name, and the name is
/// marked as coming from the command line.
pub proof fn law_flag_wins(
    toml: Option<Tree>,
    json: Option<Tree>,
    env: Map<Seq<char>, Seq<char>>,
    cli: CliSpec,
    name: Seq<char>,
    value: Tree,
)
    requires
        dotless(name),
        cli_layer(cli).field(name) == Some(value),
    ensures
        merged_layers(toml, json, env, cli).tree.lookup(name) == Some(value),
        merged_layers(toml, json, env, cli).source_of(name) == ConfigSource::Cli,
{
    lemma_cli_layer(cli);
    let layer = cli_layer(cli);
    let e = layer.entries();
    let i = key_index(e, name);
    lemma_key_index(e, name);
    assert(e[i].1 == value);
    assert(value.is_leaf()) by {
        assert(!(e[i].1 is Table));
        lemma_cli_values(cli, i);
    }
    lemma_cli_layer_plain(cli);
    lemma_bound_leaf_is_set(layer, name, value);
    let layers = pipeline(toml, json, env, cli);
    assert(layers[4].0 == layer);
    law_precedence(toml, json, env, cli, name, 4, value);
}

/// No entry of the layer of the command line is an absent value.
proof fn lemma_cli_values(c: CliSpec, i: int)
    requires
        0 <= i < cli_layer(c).entries().len(),
    ensures
        !(cli_layer(c).entries()[i].1 is Null),
{
    let v3 = match c.max_tokens {
        Some(n) => Some(Tree::Number(digits_of(n as nat))),
        None => None,
    };
    let v4 = match c.temperature {
        Some(t) => Some(Tree::Number(t)),
        None => None,
    };
    let v7 = match c.debug {
        Some(d) => Some(Tree::Text(d.label())),
        None => None,
    };
    let t0 = Tree::empty();
    let t1 = put_some(t0, "provider"@, text_leaf(c.provider));
    let t2 = put_some(t1, "model"@, text_leaf(c.model));
    let t3 = put_some(t2, "max_tokens"@, v3);
    let t4 = put_some(t3, "temperature"@, v4);
    let t5 = put_some(t4, "frontend"@, text_leaf(c.frontend));
    let t6 = put_some(t5, "output_format"@, text_leaf(c.output_format));
    let t7 = put_some(t6, "debug"@, v7);
    let t8 = put_some(t7, "locale"@, text_leaf(c.locale));
    lemma_put_some_present(t0, "provider"@, text_leaf(c.provider));
    lemma_put_some_present(t1, "model"@, text_leaf(c.model));
    lemma_put_some_present(t2, "max_tokens"@, v3);
    lemma_put_some_present(t3, "temperature"@, v4);
    lemma_put_some_present(t4, "frontend"@, text_leaf(c.frontend));
    lemma_put_some_present(t5, "output_format"@, text_leaf(c.output_format));
    lemma_put_some_present(t6, "debug"@, v7);
    lemma_put_some_present(t7, "locale"@, text_leaf(c.locale));
}

/// Whether no entry is an absent value.
pub open spec fn all_present(entries: Seq<(Seq<char>, Tree)>) -> bool {
    forall|a: int| 0 <= a < entries.len() ==> !((#[trigger] entries[a]).1 is Null)
}

/// Binding a key to a value that is there keeps every entry present.
proof fn lemma_put_some_present(t: Tree, key: Seq<char>, value: Option<Tree>)
    requires
        all_present(t.entries()),
        value is Some ==> !(value->0 is Null),
    ensures
        all_present(put_some(t, key, value).entries()),
{
    if value is Some && t is Table {
        let e = t->Table_0;
        let i = key_index(e, key);
        lemma_key_index(e, key);
        let e2 = t.put(key, value->0).entries();
        assert forall|a: int| 0 <= a < e2.len() implies !((#[trigger] e2[a]).1 is Null) by {
            if i < e.len() {
                assert(e2 =~= e.update(i, (key, value->0)));
                if a != i {
                    assert(e2[a] == e[a]);
                }
            } else {
                assert(e2 =~= e.push((key, value->0)));
                if a < e.len() {
                    assert(e2[a] == e[a]);
                }
            }
        }
    }
}

/// The model flag wins: where a model is given on the command line, the
/// loaded tree holds it as the global model, marked as coming from the
/// command line, whatever the files and the environment say.
pub proof fn law_model_flag_wins(
    toml: Option<Tree>,
    json: Option<Tree>,
    env: Map<Seq<char>, Seq<char>>,
    cli: CliSpec,
)
    requires
        cli.model is Some,
    ensures
        merged_layers(toml, json, env, cli).tree.lookup("model"@) == Some(
            Tree::Text(cli.model->0),
        ),
        merged_layers(toml, json, env, cli).source_of("model"@) == ConfigSource::Cli,
{
    lemma_cli_layer(cli);
    reveal_strlit("model");
    reveal_with_fuel(dotless_upto, 6);
    assert(dotless_upto("model"@, 5));
    lemma_dotless_upto("model"@, 5);
    law_flag_wins(toml, json, env, cli, "model"@, Tree::Text(cli.model->0));
}

} // verus!
