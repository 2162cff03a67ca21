//! Turning each source of settings into a layer: the built-in defaults, the
//! environment, and the command-line flags.

use crate::builder::ConfigBuilder;
use crate::builder::Merged;
use crate::catalog::field_path;
use crate::catalog::global_settings;
use crate::catalog::global_settings_metadata;
use crate::catalog::provider_metadata;
use crate::catalog::provider_spec;
use crate::kinds::DebugLevel;
use crate::kinds::Provider;
use crate::literal::float_literal;
use crate::literal::i64_literal;
use crate::literal::is_float_literal;
use crate::literal::is_non_finite_word;
use crate::literal::non_finite_word;
use crate::literal::parse_i64;
use crate::literal::render_i64;
use crate::literal::render_u32;
use crate::literal::digits_of;
use crate::literal::signed_digits;
use crate::meta::field_views;
use crate::meta::texts;
use crate::meta::FieldMeta;
use crate::meta::FieldSpec;
use crate::pathmap::PathMap;
use crate::search::first_where;
use crate::search::lemma_first_where_found;
use crate::search::lemma_first_where_none;
use crate::text::concat3;
use crate::text::lowered;
use crate::text::owned;
use crate::text::split_dots;
use crate::text::to_lowercase;
use crate::tree::Node;
use crate::tree::Tree;
use vstd::prelude::*;

verus! {

/// The leaf that a default stands for. A default is written as text: an
/// integer becomes a number in its plainest spelling, any other decimal
/// number is kept as it is written, the words for infinity and not-a-number
/// become an absent value, `true` and `false` become booleans, and anything
/// else stays a text.
pub open spec fn default_leaf(text: Seq<char>) -> Tree {
    match i64_literal(text) {
        Some(v) => Tree::Number(signed_digits(v as int)),
        None => if is_non_finite_word(text) {
            Tree::Null
        } else if is_float_literal(text) {
            Tree::Number(text)
        } else if text == "true"@ {
            Tree::Bool(true)
        } else if text == "false"@ {
            Tree::Bool(false)
        } else {
            Tree::Text(text)
        },
    }
}

impl FieldSpec {
    /// The default of the field as a leaf.
    pub open spec fn default_value(self) -> Option<Tree> {
        match self.default {
            Some(t) => Some(default_leaf(t)),
            None => None,
        }
    }
}

impl FieldMeta {
    /// The default of the field as a leaf; see [`default_leaf`].
    pub fn default_json_value(&self) -> (r: Option<Node>)
        ensures
            match r {
                Some(n) => self@.default_value() == Some(n@),
                None => self@.default_value() is None,
            },
    {
        match self.default {
            None => None,
            Some(s) => {
                match parse_i64(s) {
                    Some(v) => Some(Node::Number(render_i64(v))),
                    None => {
                        if non_finite_word(s) {
                            Some(Node::Null)
                        } else if float_literal(s) {
                            Some(Node::number(s))
                        } else if s.eq("true") {
                            Some(Node::Bool(true))
                        } else if s.eq("false") {
                            Some(Node::Bool(false))
                        } else {
                            Some(Node::text(s))
                        }
                    },
                }
            },
        }
    }
}

/// The table of the defaults of `fields`, in order. Fields without a default
/// have no entry; run-time switches are left out where `skip_virtual` is set.
pub open spec fn fields_defaults(fields: Seq<FieldSpec>, skip_virtual: bool) -> Tree
    decreases fields.len(),
{
    if fields.len() == 0 {
        Tree::empty()
    } else {
        let head = fields_defaults(fields.drop_last(), skip_virtual);
        let f = fields.last();
        if (skip_virtual && f.virtual_field) || f.default is None {
            head
        } else {
            head.put(f.name, default_leaf(f.default->0))
        }
    }
}

/// The defaults of the global settings and of the first `n` providers. A
/// provider without any default has no section.
pub open spec fn defaults_upto(n: int) -> Tree
    decreases n,
{
    if n <= 0 || n > Provider::every().len() {
        fields_defaults(global_settings(), true)
    } else {
        let head = defaults_upto(n - 1);
        let p = provider_spec(Provider::every()[n - 1]);
        let section = fields_defaults(p.all_fields(), false);
        if section.entries().len() == 0 {
            head
        } else {
            head.put(p.name, section)
        }
    }
}

/// The layer of built-in defaults.
pub open spec fn defaults_tree() -> Tree {
    defaults_upto(Provider::every().len() as int)
}

/// The table of the defaults of `fields`.
fn defaults_of(fields: &Vec<FieldMeta>, skip_virtual: bool) -> (r: Node)
    ensures
        r@ == fields_defaults(field_views(fields@), skip_virtual),
{
    let ghost views = field_views(fields@);
    let mut obj = Node::empty_table();
    let mut i: usize = 0;
    proof {
        assert(views.take(0) =~= Seq::<FieldSpec>::empty());
    }
    while i < fields.len()
        invariant
            i <= fields.len(),
            views == field_views(fields@),
            obj@ == fields_defaults(views.take(i as int), skip_virtual),
        decreases fields.len() - i,
    {
        proof {
            let next = views.take(i as int + 1);
            assert(next.drop_last() =~= views.take(i as int));
            assert(next.last() == fields@[i as int]@);
        }
        let f = &fields[i];
        if !(skip_virtual && f.virtual_field) {
            match f.default_json_value() {
                Some(val) => {
                    obj.insert(owned(f.name), val);
                },
                None => {},
            }
        }
        i = i + 1;
    }
    proof {
        assert(views.take(fields@.len() as int) =~= views);
    }
    obj
}

/// Builds the layer of built-in defaults from the catalogue; it is a
/// mapping.
pub fn defaults_to_json() -> (r: Node)
    ensures
        r@ == defaults_tree(),
        r@.is_mapping(),
{
    proof {
        crate::mapping_laws::lemma_defaults_mapping();
    }
    let globals = global_settings_metadata();
    let mut obj = defaults_of(&globals, true);
    let providers = provider_metadata();
    let mut p: usize = 0;
    while p < providers.len()
        invariant
            p <= providers.len(),
            providers@.len() == Provider::every().len(),
            forall|k: int|
                0 <= k < providers@.len() ==> (#[trigger] providers@[k])@ == provider_spec(
                    Provider::every()[k],
                ),
            obj@ == defaults_upto(p as int),
        decreases providers.len() - p,
    {
        let provider = &providers[p];
        let fields = provider.all_fields();
        let section = defaults_of(&fields, false);
        if section.entry_count() != 0 {
            obj.insert(owned(provider.name), section);
        }
        p = p + 1;
    }
    obj
}

/// A snapshot of the process environment: the variables that are set, with
/// their values.
pub struct Environment {
    vars: PathMap<String>,
}

impl View for Environment {
    type V = Map<Seq<char>, Seq<char>>;

    closed spec fn view(&self) -> Map<Seq<char>, Seq<char>> {
        self.vars.texts()
    }
}

impl Environment {
    /// An environment in which no variable is set.
    pub fn new() -> (r: Self)
        ensures
            r@ == Map::<Seq<char>, Seq<char>>::empty(),
    {
        let vars: PathMap<String> = PathMap::new();
        proof {
            vars.lemma_texts();
            assert(vars.texts() =~= Map::<Seq<char>, Seq<char>>::empty());
        }
        Environment { vars }
    }

    /// Sets the variable `name` to `value`.
    pub fn set(&mut self, name: &str, value: &str)
        ensures
            final(self)@ == old(self)@.insert(name@, value@),
    {
        self.vars.insert_text(owned(name), owned(value));
    }

    /// The value of the variable `name`, if it is set.
    pub fn var(&self, name: &str) -> (r: Option<&str>)
        ensures
            match r {
                Some(v) => self@.contains_key(name@) && self@[name@] == v@,
                None => !self@.contains_key(name@),
            },
    {
        self.vars.get_text(name)
    }
}

/// A variable counts as supplying a value when it is set to a text that is
/// not empty.
pub open spec fn is_set(env: Map<Seq<char>, Seq<char>>, var: Seq<char>) -> bool {
    env.contains_key(var) && env[var].len() > 0
}

/// The variable that supplies a global setting: its first variable when that
/// is set, else the first of its further variables that is.
pub open spec fn first_set(env: Map<Seq<char>, Seq<char>>, f: FieldSpec) -> Option<Seq<char>> {
    match f.env_var {
        Some(v) if is_set(env, v) => Some(v),
        _ => first_where(f.env_aliases, |a: Seq<char>| is_set(env, a)),
    }
}

/// The variable that supplies a provider's field: its one variable, when set.
pub open spec fn own_set(env: Map<Seq<char>, Seq<char>>, f: FieldSpec) -> Option<Seq<char>> {
    match f.env_var {
        Some(v) if is_set(env, v) => Some(v),
        _ => None,
    }
}

/// What a scan of the environment has found so far.
pub ghost struct EnvScan {
    /// The layer of values read from the environment.
    pub layer: Tree,
    /// For every path with a value, the variable that supplied it.
    pub vars: Map<Seq<char>, Seq<char>>,
}

/// The scan after the global settings `fields` have been read, in order.
/// Run-time switches are not read.
pub open spec fn scan_globals(
    env: Map<Seq<char>, Seq<char>>,
    fields: Seq<FieldSpec>,
    start: EnvScan,
) -> EnvScan
    decreases fields.len(),
{
    if fields.len() == 0 {
        start
    } else {
        let prev = scan_globals(env, fields.drop_last(), start);
        let f = fields.last();
        match first_set(env, f) {
            Some(v) if !f.virtual_field => EnvScan {
                layer: prev.layer.put(f.name, Tree::Text(env[v])),
                vars: prev.vars.insert(f.name, v),
            },
            _ => prev,
        }
    }
}

/// The scan after the fields `fields` of the provider called `provider` have
/// been read, in order.
pub open spec fn scan_fields(
    env: Map<Seq<char>, Seq<char>>,
    provider: Seq<char>,
    fields: Seq<FieldSpec>,
    start: EnvScan,
) -> EnvScan
    decreases fields.len(),
{
    if fields.len() == 0 {
        start
    } else {
        let prev = scan_fields(env, provider, fields.drop_last(), start);
        let f = fields.last();
        let path = field_path(provider, f.name);
        match own_set(env, f) {
            Some(v) => EnvScan {
                layer: prev.layer.with(split_dots(path), Tree::Text(env[v])),
                vars: prev.vars.insert(path, v),
            },
            None => prev,
        }
    }
}

/// The scan after the first `n` providers have been read.
pub open spec fn scan_providers(env: Map<Seq<char>, Seq<char>>, n: int, start: EnvScan) -> EnvScan
    decreases n,
{
    if n <= 0 || n > Provider::every().len() {
        start
    } else {
        let p = provider_spec(Provider::every()[n - 1]);
        scan_fields(env, p.name, p.all_fields(), scan_providers(env, n - 1, start))
    }
}

/// Whether the legacy switch, given in lower case, is on: it reads `true`.
pub open spec fn switch_on(switch_lowered: Seq<char>) -> bool {
    switch_lowered == "true"@
}

/// Tells whether the legacy switch, given in lower case, is on.
pub fn legacy_switch_on(switch_lowered: &str) -> (r: bool)
    ensures
        r == switch_on(switch_lowered@),
{
    switch_lowered.eq("true")
}

/// Whether the legacy switch, given in lower case, decides the frontend:
/// it is on, and the frontend variable is not set at all.
pub open spec fn switch_decides(switch_lowered: Seq<char>, frontend_is_set: bool) -> bool {
    switch_on(switch_lowered) && !frontend_is_set
}

/// Tells whether the legacy switch, given in lower case, decides the
/// frontend; see [`switch_decides`].
pub fn legacy_switch_decides(switch_lowered: &str, frontend_is_set: bool) -> (r: bool)
    ensures
        r == switch_decides(switch_lowered@, frontend_is_set),
{
    legacy_switch_on(switch_lowered) && !frontend_is_set
}

/// Whether the legacy switch that skips confirmation is on.
pub open spec fn skip_confirm_on(env: Map<Seq<char>, Seq<char>>) -> bool {
    env.contains_key("SHAI_SKIP_CONFIRM"@) && switch_on(lowered(env["SHAI_SKIP_CONFIRM"@]))
}

/// The scan after the legacy switch has been read: where it is on and the
/// frontend variable is not set at all, the frontend becomes
/// `noninteractive`, supplied by the switch.
pub open spec fn scan_legacy(env: Map<Seq<char>, Seq<char>>, start: EnvScan) -> EnvScan {
    if skip_confirm_on(env) && !env.contains_key("SHAI_FRONTEND"@) {
        EnvScan {
            layer: start.layer.put("frontend"@, Tree::Text("noninteractive"@)),
            vars: start.vars.insert("frontend"@, "SHAI_SKIP_CONFIRM"@),
        }
    } else {
        start
    }
}

/// The whole scan of the environment: global settings, then the providers,
/// then the legacy switch. `known` is what was recorded before the scan.
pub open spec fn env_scan(env: Map<Seq<char>, Seq<char>>, known: Map<Seq<char>, Seq<char>>) -> EnvScan {
    scan_legacy(
        env,
        scan_providers(
            env,
            Provider::every().len() as int,
            scan_globals(env, global_settings(), EnvScan { layer: Tree::empty(), vars: known }),
        ),
    )
}

/// The value of `var` when the variable supplies one.
fn supplied<'a>(env: &'a Environment, var: &str) -> (r: Option<&'a str>)
    ensures
        match r {
            Some(v) => is_set(env@, var@) && v@ == env@[var@],
            None => !is_set(env@, var@),
        },
{
    match env.var(var) {
        Some(v) => if v.is_empty() {
            None
        } else {
            Some(v)
        },
        None => None,
    }
}

/// The variable that supplies the global setting `f`, with its value.
fn first_supplied<'a>(env: &'a Environment, f: &FieldMeta) -> (r: Option<(&'static str, &'a str)>)
    ensures
        match r {
            Some((var, value)) => first_set(env@, f@) == Some(var@) && value@ == env@[var@],
            None => first_set(env@, f@) is None,
        },
{
    match f.env_var {
        Some(v) => match supplied(env, v) {
            Some(value) => {
                return Some((v, value));
            },
            None => {},
        },
        None => {},
    }
    let ghost aliases = texts(f.env_aliases@);
    let ghost set = |a: Seq<char>| is_set(env@, a);
    let mut i: usize = 0;
    while i < f.env_aliases.len()
        invariant
            i <= f.env_aliases.len(),
            aliases == texts(f.env_aliases@),
            set == (|a: Seq<char>| is_set(env@, a)),
            first_set(env@, f@) == first_where(aliases, set),
            forall|j: int| 0 <= j < i ==> !set(#[trigger] aliases[j]),
        decreases f.env_aliases.len() - i,
    {
        let alias = f.env_aliases[i];
        proof {
            assert(aliases[i as int] == alias@);
        }
        match supplied(env, alias) {
            Some(value) => {
                proof {
                    lemma_first_where_found(aliases, set, i as int);
                }
                return Some((alias, value));
            },
            None => {},
        }
        i = i + 1;
    }
    proof {
        lemma_first_where_none(aliases, set);
    }
    None
}

/// Reads the environment into a layer: for every setting, the value of the
/// first of its variables that is set to a non-empty text. The variable that
/// supplied a path is recorded in `builder`. The layer is a mapping.
pub fn env_to_json(builder: &mut ConfigBuilder, env: &Environment) -> (r: Node)
    ensures
        r@ == env_scan(env@, old(builder).model().env_vars).layer,
        r@.is_mapping(),
        final(builder).model() == (Merged {
            env_vars: env_scan(env@, old(builder).model().env_vars).vars,
            ..old(builder).model()
        }),
{
    let ghost known = builder.model().env_vars;
    let ghost start = EnvScan { layer: Tree::empty(), vars: known };
    proof {
        crate::mapping_laws::lemma_env_layer_mapping(env@, known);
    }
    let mut obj = Node::empty_table();
    let globals = global_settings_metadata();
    let ghost gviews = field_views(globals@);
    let mut i: usize = 0;
    proof {
        assert(gviews.take(0) =~= Seq::<FieldSpec>::empty());
    }
    while i < globals.len()
        invariant
            i <= globals.len(),
            gviews == field_views(globals@),
            gviews == global_settings(),
            builder.model().tree == old(builder).model().tree,
            builder.model().sources == old(builder).model().sources,
            (EnvScan { layer: obj@, vars: builder.model().env_vars }) == scan_globals(
                env@,
                gviews.take(i as int),
                start,
            ),
        decreases globals.len() - i,
    {
        proof {
            let next = gviews.take(i as int + 1);
            assert(next.drop_last() =~= gviews.take(i as int));
            assert(next.last() == globals@[i as int]@);
        }
        let f = &globals[i];
        if !f.virtual_field {
            match first_supplied(env, f) {
                Some((var, value)) => {
                    obj.insert(owned(f.name), Node::text(value));
                    builder.record_env_var(f.name, var);
                },
                None => {},
            }
        }
        i = i + 1;
    }
    proof {
        assert(gviews.take(globals@.len() as int) =~= gviews);
    }
    let ghost after_globals = scan_globals(env@, global_settings(), start);
    let providers = provider_metadata();
    let mut p: usize = 0;
    while p < providers.len()
        invariant
            p <= providers.len(),
            providers@.len() == Provider::every().len(),
            forall|k: int|
                0 <= k < providers@.len() ==> (#[trigger] providers@[k])@ == provider_spec(
                    Provider::every()[k],
                ),
            builder.model().tree == old(builder).model().tree,
            builder.model().sources == old(builder).model().sources,
            (EnvScan { layer: obj@, vars: builder.model().env_vars }) == scan_providers(
                env@,
                p as int,
                after_globals,
            ),
        decreases providers.len() - p,
    {
        let provider = &providers[p];
        let ghost spec = provider_spec(Provider::every()[p as int]);
        let ghost before = scan_providers(env@, p as int, after_globals);
        let fields = provider.all_fields();
        let ghost fviews = field_views(fields@);
        let mut j: usize = 0;
        proof {
            assert(fviews.take(0) =~= Seq::<FieldSpec>::empty());
        }
        while j < fields.len()
            invariant
                j <= fields.len(),
                provider@ == spec,
                fviews == field_views(fields@),
                builder.model().tree == old(builder).model().tree,
                builder.model().sources == old(builder).model().sources,
                (EnvScan { layer: obj@, vars: builder.model().env_vars }) == scan_fields(
                    env@,
                    spec.name,
                    fviews.take(j as int),
                    before,
                ),
            decreases fields.len() - j,
        {
            proof {
                let next = fviews.take(j as int + 1);
                assert(next.drop_last() =~= fviews.take(j as int));
                assert(next.last() == fields@[j as int]@);
            }
            let f = &fields[j];
            match f.env_var {
                Some(var) => {
                    match supplied(env, var) {
                        Some(value) => {
                            proof {
                                reveal_strlit(".");
                                assert("."@ =~= seq!['.']);
                            }
                            let path = concat3(provider.name, ".", f.name);
                            obj.set_nested_value(path.as_str(), Node::text(value));
                            builder.record_env_var(path.as_str(), var);
                        },
                        None => {},
                    }
                },
                None => {},
            }
            j = j + 1;
        }
        proof {
            assert(fviews.take(fields@.len() as int) =~= fviews);
        }
        p = p + 1;
    }
    match env.var("SHAI_SKIP_CONFIRM") {
        Some(v) => {
            let lowered = to_lowercase(v);
            let frontend_is_set = env.var("SHAI_FRONTEND").is_some();
            if legacy_switch_decides(lowered.as_str(), frontend_is_set) {
                obj.insert(owned("frontend"), Node::text("noninteractive"));
                builder.record_env_var("frontend", "SHAI_SKIP_CONFIRM");
            }
        },
        None => {},
    }
    obj
}

/// What the command line asks for. A flag that was not given is `None`.
#[derive(Debug, Default)]
pub struct CliOverrides {
    pub provider: Option<String>,
    pub model: Option<String>,
    pub max_tokens: Option<u32>,
    /// The sampling temperature, as the decimal text of the number.
    pub temperature: Option<String>,
    pub frontend: Option<String>,
    pub output_format: Option<String>,
    pub debug: Option<DebugLevel>,
    pub locale: Option<String>,
}

/// The mathematical value of [`CliOverrides`].
pub ghost struct CliSpec {
    pub provider: Option<Seq<char>>,
    pub model: Option<Seq<char>>,
    pub max_tokens: Option<u32>,
    pub temperature: Option<Seq<char>>,
    pub frontend: Option<Seq<char>>,
    pub output_format: Option<Seq<char>>,
    pub debug: Option<DebugLevel>,
    pub locale: Option<Seq<char>>,
}

/// The text of an optional string.
pub open spec fn opt_view(o: Option<String>) -> Option<Seq<char>> {
    match o {
        Some(s) => Some(s@),
        None => None,
    }
}

impl View for CliOverrides {
    type V = CliSpec;

    open spec fn view(&self) -> CliSpec {
        CliSpec {
            provider: opt_view(self.provider),
            model: opt_view(self.model),
            max_tokens: self.max_tokens,
            temperature: opt_view(self.temperature),
            frontend: opt_view(self.frontend),
            output_format: opt_view(self.output_format),
            debug: self.debug,
            locale: opt_view(self.locale),
        }
    }
}

/// The table with `key` bound to `value`, or the table as it is where there
/// is no value.
pub open spec fn put_some(t: Tree, key: Seq<char>, value: Option<Tree>) -> Tree {
    match value {
        Some(v) => t.put(key, v),
        None => t,
    }
}

/// An optional text as an optional text leaf.
pub open spec fn text_leaf(o: Option<Seq<char>>) -> Option<Tree> {
    match o {
        Some(s) => Some(Tree::Text(s)),
        None => None,
    }
}

/// The layer of the command line: one entry for every flag that was given,
/// and none for a flag that was not.
pub open spec fn cli_layer(c: CliSpec) -> Tree {
    let t0 = Tree::empty();
    let t1 = put_some(t0, "provider"@, text_leaf(c.provider));
    let t2 = put_some(t1, "model"@, text_leaf(c.model));
    let t3 = put_some(
        t2,
        "max_tokens"@,
        match c.max_tokens {
            Some(n) => Some(Tree::Number(digits_of(n as nat))),
            None => None,
        },
    );
    let t4 = put_some(
        t3,
        "temperature"@,
        match c.temperature {
            Some(t) => Some(Tree::Number(t)),
            None => None,
        },
    );
    let t5 = put_some(t4, "frontend"@, text_leaf(c.frontend));
    let t6 = put_some(t5, "output_format"@, text_leaf(c.output_format));
    let t7 = put_some(
        t6,
        "debug"@,
        match c.debug {
            Some(d) => Some(Tree::Text(d.label())),
            None => None,
        },
    );
    put_some(t7, "locale"@, text_leaf(c.locale))
}

/// Binds `key` to a text leaf where there is a text.
fn put_text(obj: &mut Node, key: &str, value: &Option<String>)
    ensures
        final(obj)@ == put_some(old(obj)@, key@, text_leaf(opt_view(*value))),
{
    match value {
        Some(s) => {
            obj.insert(owned(key), Node::text(s.as_str()));
        },
        None => {},
    }
}

/// Turns the command-line flags into a layer, which is a mapping.
pub fn cli_to_json(overrides: &CliOverrides) -> (r: Node)
    ensures
        r@ == cli_layer(overrides@),
        r@.is_mapping(),
{
    proof {
        crate::mapping_laws::lemma_cli_layer_mapping(overrides@);
    }
    let mut obj = Node::empty_table();
    put_text(&mut obj, "provider", &overrides.provider);
    put_text(&mut obj, "model", &overrides.model);
    match overrides.max_tokens {
        Some(n) => {
            obj.insert(owned("max_tokens"), Node::Number(render_u32(n)));
        },
        None => {},
    }
    match &overrides.temperature {
        Some(t) => {
            obj.insert(owned("temperature"), Node::number(t.as_str()));
        },
        None => {},
    }
    put_text(&mut obj, "frontend", &overrides.frontend);
    put_text(&mut obj, "output_format", &overrides.output_format);
    match overrides.debug {
        Some(d) => {
            obj.insert(owned("debug"), Node::text(d.name()));
        },
        None => {},
    }
    put_text(&mut obj, "locale", &overrides.locale);
    obj
}

} // verus!
