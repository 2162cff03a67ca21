//! What a report of the configuration shows: every setting with its value,
//! masked where it is sensitive, and with the layer that supplied it.

use crate::catalog::field_path;
use crate::catalog::global_settings;
use crate::catalog::global_settings_metadata;
use crate::catalog::provider_spec;
use crate::config::missing;
use crate::config::AppConfig;
use crate::config::ConfigSpec;
use crate::decode::CredsSpec;
use crate::decode::ProviderCredentials;
use crate::hints::mask_value;
use crate::hints::masked;
use crate::kinds::Provider;
use crate::layers::skip_confirm_on;
use crate::layers::Environment;
use crate::literal::digits_of;
use crate::literal::render_u32;
use crate::meta::field_views;
use crate::meta::FieldMeta;
use crate::meta::FieldSpec;
use crate::meta::Section;
use crate::source::ConfigSource;
use crate::text::concat3;
use crate::text::owned;
use crate::text::to_lowercase;
use vstd::prelude::*;

verus! {

/// The words that stand for a setting without a value.
pub open spec fn not_set() -> Seq<char> {
    "(not set)"@
}

/// A text, or the words for no value where the text is empty.
pub open spec fn shown(text: Seq<char>) -> Seq<char> {
    if text.len() == 0 {
        not_set()
    } else {
        text
    }
}

/// What is shown for the global setting called `name`, with the layer it is
/// attributed to. The model and the token limit are shown as they take
/// effect; the legacy switch is read from the environment. The temperature
/// is shown as it is written. A name that is no global setting shows nothing.
pub open spec fn global_display(c: ConfigSpec, env: Map<Seq<char>, Seq<char>>, name: Seq<char>) -> Option<
    (Seq<char>, ConfigSource),
> {
    if name == "provider"@ {
        Some(
            (
                match c.provider.value {
                    Some(p) => p.label(),
                    None => not_set(),
                },
                c.provider.source,
            ),
        )
    } else if name == "model"@ {
        Some((shown(c.effective_model()), c.effective_model_source()))
    } else if name == "temperature"@ {
        Some((c.temperature.value, c.temperature.source))
    } else if name == "suggestion_count"@ {
        Some((digits_of(c.suggestion_count.value as nat), c.suggestion_count.source))
    } else if name == "skip_confirm"@ {
        if skip_confirm_on(env) {
            Some(("true"@, ConfigSource::Environment))
        } else {
            Some(("false"@, ConfigSource::Default))
        }
    } else if name == "frontend"@ {
        Some((c.frontend.value.label(), c.frontend.source))
    } else if name == "output_format"@ {
        Some((c.output_format.value.label(), c.output_format.source))
    } else if name == "max_reference_chars"@ {
        Some((digits_of(c.max_reference_chars.value as nat), c.max_reference_chars.source))
    } else if name == "max_tokens"@ {
        Some(
            (
                match c.effective_max_tokens() {
                    Some(n) => digits_of(n as nat),
                    None => not_set(),
                },
                c.effective_max_tokens_source(),
            ),
        )
    } else if name == "debug"@ {
        Some(
            (
                match c.debug.value {
                    Some(d) => d.label(),
                    None => not_set(),
                },
                c.debug.source,
            ),
        )
    } else {
        None
    }
}

/// What is shown for the field `f` of a provider with the settings `creds`:
/// the value and the layer that wrote it, or the words for no value, as a
/// default, where the value is absent or empty.
pub open spec fn provider_display(c: ConfigSpec, f: FieldSpec, creds: CredsSpec, provider: Seq<char>) -> (
    Seq<char>,
    ConfigSource,
) {
    if missing(creds.field(f.name)) {
        (not_set(), ConfigSource::Default)
    } else {
        (creds.field(f.name)->0, c.source_of(field_path(provider, f.name)))
    }
}

/// Whether some field among `fields` departs from its default in `creds`: it
/// has a value that is not empty where there is no default, or a value other
/// than the default.
pub open spec fn departs(creds: CredsSpec, fields: Seq<FieldSpec>) -> bool {
    exists|i: int| 0 <= i < fields.len() && #[trigger] field_departs(creds, fields[i])
}

/// Whether the field `f` departs from its default in `creds`.
pub open spec fn field_departs(creds: CredsSpec, f: FieldSpec) -> bool {
    match (creds.field(f.name), f.default) {
        (Some(v), None) => v.len() > 0,
        (Some(v), Some(d)) => v != d,
        _ => false,
    }
}

/// The providers to show besides the selected one among the first `n`: those
/// with settings that depart from their defaults, in table order.
pub open spec fn others_to_show(c: ConfigSpec, n: int) -> Seq<Provider>
    decreases n,
{
    if n <= 0 || n > Provider::every().len() {
        Seq::empty()
    } else {
        let head = others_to_show(c, n - 1);
        let p = Provider::every()[n - 1];
        if c.provider.value != Some(p) && departs(c.creds(p), provider_spec(p).all_fields()) {
            head.push(p)
        } else {
            head
        }
    }
}

/// The providers to show: the selected one first, then the others whose
/// settings depart from their defaults.
pub open spec fn providers_to_show(c: ConfigSpec) -> Seq<Provider> {
    (match c.provider.value {
        Some(p) => seq![p],
        None => Seq::empty(),
    }) + others_to_show(c, Provider::every().len() as int)
}

/// One line of a report.
#[derive(Debug, PartialEq, Eq)]
pub struct ReportLine {
    pub name: String,
    /// The value as it is shown: masked where the setting is sensitive.
    pub value: String,
    pub source: ConfigSource,
    pub deprecated: bool,
}

/// The mathematical value of a [`ReportLine`].
pub ghost struct Row {
    pub name: Seq<char>,
    pub value: Seq<char>,
    pub source: ConfigSource,
    pub deprecated: bool,
}

impl View for ReportLine {
    type V = Row;

    open spec fn view(&self) -> Row {
        Row {
            name: self.name@,
            value: self.value@,
            source: self.source,
            deprecated: self.deprecated,
        }
    }
}

/// The views of a list of lines.
pub open spec fn rows(lines: Seq<ReportLine>) -> Seq<Row> {
    lines.map_values(|l: ReportLine| l@)
}

/// A value as a report shows it for the field `f`.
pub open spec fn as_shown(f: FieldSpec, value: Seq<char>) -> Seq<char> {
    if f.sensitive {
        masked(value)
    } else {
        value
    }
}

/// The line of the global setting `f`, if it has one: a deprecated setting
/// that is left at its default is not shown.
pub open spec fn global_row(c: ConfigSpec, env: Map<Seq<char>, Seq<char>>, f: FieldSpec) -> Option<
    Row,
> {
    match global_display(c, env, f.name) {
        Some((value, source)) => if f.deprecated && source == ConfigSource::Default {
            None
        } else {
            Some(Row { name: f.name, value: as_shown(f, value), source, deprecated: f.deprecated })
        },
        None => None,
    }
}

/// The lines of the global settings among `fields`, in order. With a
/// section, only the settings of that section are listed.
pub open spec fn global_rows(
    c: ConfigSpec,
    env: Map<Seq<char>, Seq<char>>,
    fields: Seq<FieldSpec>,
    section: Option<Section>,
) -> Seq<Row>
    decreases fields.len(),
{
    if fields.len() == 0 {
        Seq::empty()
    } else {
        let head = global_rows(c, env, fields.drop_last(), section);
        let f = fields.last();
        if section is Some && section != Some(f.section) {
            head
        } else {
            match global_row(c, env, f) {
                Some(row) => head.push(row),
                None => head,
            }
        }
    }
}

/// The lines of the fields `fields` of the provider called `provider`.
pub open spec fn provider_rows(c: ConfigSpec, creds: CredsSpec, provider: Seq<char>, fields: Seq<FieldSpec>) -> Seq<
    Row,
>
    decreases fields.len(),
{
    if fields.len() == 0 {
        Seq::empty()
    } else {
        let f = fields.last();
        let shown = provider_display(c, f, creds, provider);
        provider_rows(c, creds, provider, fields.drop_last()).push(
            Row { name: f.name, value: as_shown(f, shown.0), source: shown.1, deprecated: false },
        )
    }
}

/// A titled group of lines in the report for readers.
#[derive(Debug, PartialEq, Eq)]
pub struct ReportSection {
    pub title: String,
    pub lines: Vec<ReportLine>,
}

/// The mathematical value of a [`ReportSection`].
pub ghost struct Group {
    pub title: Seq<char>,
    pub rows: Seq<Row>,
}

impl View for ReportSection {
    type V = Group;

    open spec fn view(&self) -> Group {
        Group { title: self.title@, rows: rows(self.lines@) }
    }
}

/// The views of a list of sections.
pub open spec fn groups(sections: Seq<ReportSection>) -> Seq<Group> {
    sections.map_values(|s: ReportSection| s@)
}

/// The group of the global settings of one section, under its title.
pub open spec fn global_group(c: ConfigSpec, env: Map<Seq<char>, Seq<char>>, section: Section) -> Group {
    Group { title: section.heading(), rows: global_rows(c, env, global_settings(), Some(section)) }
}

/// The group of the settings of one provider, under the provider's name.
pub open spec fn provider_group(c: ConfigSpec, p: Provider) -> Group {
    Group {
        title: provider_spec(p).display_name + " Settings"@,
        rows: provider_rows(c, c.creds(p), provider_spec(p).name, provider_spec(p).all_fields()),
    }
}

/// The groups of the providers `shown`, in order.
pub open spec fn provider_groups(c: ConfigSpec, shown: Seq<Provider>) -> Seq<Group>
    decreases shown.len(),
{
    if shown.len() == 0 {
        Seq::empty()
    } else {
        provider_groups(c, shown.drop_last()).push(provider_group(c, shown.last()))
    }
}

/// The report for readers: the global settings in four groups, then one
/// group for every provider that is shown.
pub open spec fn report_groups(c: ConfigSpec, env: Map<Seq<char>, Seq<char>>) -> Seq<Group> {
    seq![
        global_group(c, env, Section::Provider),
        global_group(c, env, Section::Ui),
        global_group(c, env, Section::Suggest),
        global_group(c, env, Section::Explain),
    ] + provider_groups(c, providers_to_show(c))
}

impl AppConfig {
    /// The group of the global settings of one section.
    fn global_section(&self, env: &Environment, section: Section) -> (r: ReportSection)
        ensures
            r@ == global_group(self@, env@, section),
    {
        ReportSection { title: owned(section.title()), lines: self.global_report(env, Some(section)) }
    }

    /// The report for readers, group by group; see [`report_groups`].
    pub fn human_report(&self, env: &Environment) -> (r: Vec<ReportSection>)
        ensures
            groups(r@) == report_groups(self@, env@),
    {
        let mut out: Vec<ReportSection> = Vec::new();
        out.push(self.global_section(env, Section::Provider));
        out.push(self.global_section(env, Section::Ui));
        out.push(self.global_section(env, Section::Suggest));
        out.push(self.global_section(env, Section::Explain));
        let ghost head = groups(out@);
        proof {
            assert(head =~= seq![
                global_group(self@, env@, Section::Provider),
                global_group(self@, env@, Section::Ui),
                global_group(self@, env@, Section::Suggest),
                global_group(self@, env@, Section::Explain),
            ]);
        }
        let shown = self.get_providers_to_display();
        let mut i: usize = 0;
        proof {
            assert(shown@.take(0) =~= Seq::<Provider>::empty());
            assert(groups(out@) =~= head + provider_groups(self@, shown@.take(0)));
        }
        while i < shown.len()
            invariant
                i <= shown.len(),
                groups(out@) == head + provider_groups(self@, shown@.take(i as int)),
            decreases shown.len() - i,
        {
            proof {
                let next = shown@.take(i as int + 1);
                assert(next.drop_last() =~= shown@.take(i as int));
                assert(next.last() == shown@[i as int]);
            }
            let provider = shown[i];
            let mut title = owned(provider.metadata().display_name);
            title.push_str(" Settings");
            let section = ReportSection { title, lines: self.provider_report(&provider) };
            let ghost before = groups(out@);
            out.push(section);
            proof {
                assert(groups(out@) =~= before.push(section@));
                assert(groups(out@) =~= head + provider_groups(self@, shown@.take(i as int + 1)));
            }
            i = i + 1;
        }
        proof {
            assert(shown@.take(shown@.len() as int) =~= shown@);
        }
        out
    }

    /// The layer that the effective model is attributed to; see
    /// [`ConfigSpec::effective_model_source`].
    pub fn effective_model_source(&self) -> (r: ConfigSource)
        ensures
            r == self@.effective_model_source(),
    {
        if !self.model.value.as_str().is_empty() {
            self.model.source
        } else {
            match &self.provider.value {
                Some(p) => {
                    let given = match &self.providers.get(p).model {
                        Some(m) => !m.as_str().is_empty(),
                        None => false,
                    };
                    if given {
                        proof {
                            reveal_strlit(".");
                            assert("."@ =~= seq!['.']);
                        }
                        let path = concat3(p.metadata().name, ".", "model");
                        self.get_source(path.as_str())
                    } else {
                        ConfigSource::Default
                    }
                },
                None => ConfigSource::Default,
            }
        }
    }

    /// The layer that the effective token limit is attributed to; see
    /// [`ConfigSpec::effective_max_tokens_source`].
    pub fn effective_max_tokens_source(&self) -> (r: ConfigSource)
        ensures
            r == self@.effective_max_tokens_source(),
    {
        if self.max_tokens.value.is_some() {
            self.max_tokens.source
        } else {
            match &self.provider.value {
                Some(p) => {
                    if self.providers.get(p).max_tokens.is_some() {
                        proof {
                            reveal_strlit(".");
                            assert("."@ =~= seq!['.']);
                        }
                        let path = concat3(p.metadata().name, ".", "max_tokens");
                        self.get_source(path.as_str())
                    } else {
                        ConfigSource::Default
                    }
                },
                None => ConfigSource::Default,
            }
        }
    }

    /// What is shown for the global setting called `name`; see
    /// [`global_display`].
    pub fn get_global_field_display(&self, name: &str, env: &Environment) -> (r: Option<
        (String, ConfigSource),
    >)
        ensures
            match r {
                Some((value, source)) => global_display(self@, env@, name@) == Some((value@, source)),
                None => global_display(self@, env@, name@) is None,
            },
    {
        if name.eq("provider") {
            let value = match self.provider.value {
                Some(p) => owned(p.name()),
                None => owned("(not set)"),
            };
            Some((value, self.provider.source))
        } else if name.eq("model") {
            let model = self.effective_model();
            let value = if model.as_str().is_empty() {
                owned("(not set)")
            } else {
                model
            };
            Some((value, self.effective_model_source()))
        } else if name.eq("temperature") {
            Some((self.temperature.value.clone(), self.temperature.source))
        } else if name.eq("suggestion_count") {
            Some((render_u32(self.suggestion_count.value), self.suggestion_count.source))
        } else if name.eq("skip_confirm") {
            let on = match env.var("SHAI_SKIP_CONFIRM") {
                Some(v) => crate::layers::legacy_switch_on(to_lowercase(v).as_str()),
                None => false,
            };
            if on {
                Some((owned("true"), ConfigSource::Environment))
            } else {
                Some((owned("false"), ConfigSource::Default))
            }
        } else if name.eq("frontend") {
            Some((owned(self.frontend.value.name()), self.frontend.source))
        } else if name.eq("output_format") {
            Some((owned(self.output_format.value.name()), self.output_format.source))
        } else if name.eq("max_reference_chars") {
            Some((render_u32(self.max_reference_chars.value), self.max_reference_chars.source))
        } else if name.eq("max_tokens") {
            let value = match self.effective_max_tokens() {
                Some(n) => render_u32(n),
                None => owned("(not set)"),
            };
            Some((value, self.effective_max_tokens_source()))
        } else if name.eq("debug") {
            let value = match self.debug.value {
                Some(d) => owned(d.name()),
                None => owned("(not set)"),
            };
            Some((value, self.debug.source))
        } else {
            None
        }
    }

    /// What is shown for a provider's field; see [`provider_display`].
    pub fn get_provider_field_display(
        &self,
        field: &FieldMeta,
        creds: &ProviderCredentials,
        provider_name: &str,
    ) -> (r: (String, ConfigSource))
        ensures
            (r.0@, r.1) == provider_display(self@, field@, creds@, provider_name@),
    {
        match creds.get_field(field.name) {
            Some(v) => {
                if !v.as_str().is_empty() {
                    proof {
                        reveal_strlit(".");
                        assert("."@ =~= seq!['.']);
                    }
                    let path = concat3(provider_name, ".", field.name);
                    let source = self.get_source(path.as_str());
                    (v, source)
                } else {
                    (owned("(not set)"), ConfigSource::Default)
                }
            },
            None => (owned("(not set)"), ConfigSource::Default),
        }
    }

    /// Whether the settings `creds` of `provider` depart from the provider's
    /// defaults; see [`departs`].
    pub fn has_non_default_credentials(&self, provider: &Provider, creds: &ProviderCredentials) -> (r:
        bool)
        ensures
            r == departs(creds@, provider_spec(*provider).all_fields()),
    {
        let meta = provider.metadata();
        let fields = meta.all_fields();
        let ghost views = field_views(fields@);
        let mut i: usize = 0;
        while i < fields.len()
            invariant
                i <= fields.len(),
                views == field_views(fields@),
                views == provider_spec(*provider).all_fields(),
                forall|j: int| 0 <= j < i ==> !field_departs(creds@, #[trigger] views[j]),
            decreases fields.len() - i,
        {
            proof {
                assert(views[i as int] == fields@[i as int]@);
            }
            let field = &fields[i];
            let current = creds.get_field(field.name);
            let differs = match (&current, field.default) {
                (Some(val), None) => !val.as_str().is_empty(),
                (Some(val), Some(def)) => !val.as_str().eq(def),
                _ => false,
            };
            if differs {
                assert(field_departs(creds@, views[i as int]));
                return true;
            }
            i = i + 1;
        }
        false
    }

    /// The providers whose settings a report shows; see [`providers_to_show`].
    pub fn get_providers_to_display(&self) -> (r: Vec<Provider>)
        ensures
            r@ == providers_to_show(self@),
    {
        let mut result: Vec<Provider> = Vec::new();
        match self.provider.value {
            Some(active) => {
                result.push(active);
            },
            None => {},
        }
        let ghost first = result@;
        let all = Provider::all();
        let mut i: usize = 0;
        proof {
            assert(result@ =~= first + others_to_show(self@, 0));
        }
        while i < all.len()
            invariant
                i <= all.len(),
                all@ == Provider::every(),
                result@ == first + others_to_show(self@, i as int),
            decreases all.len() - i,
        {
            let provider = all[i];
            let is_active = match self.provider.value {
                Some(active) => active == provider,
                None => false,
            };
            if !is_active {
                let creds = self.providers.get(&provider);
                if self.has_non_default_credentials(&provider, creds) {
                    result.push(provider);
                }
            }
            proof {
                assert(result@ =~= first + others_to_show(self@, i as int + 1));
            }
            i = i + 1;
        }
        result
    }

    /// The lines of the global settings, in catalogue order: all of them, or
    /// those of one section; see [`global_rows`].
    pub fn global_report(&self, env: &Environment, section: Option<Section>) -> (r: Vec<ReportLine>)
        ensures
            rows(r@) == global_rows(self@, env@, global_settings(), section),
    {
        let fields = global_settings_metadata();
        let ghost views = field_views(fields@);
        let mut out: Vec<ReportLine> = Vec::new();
        let mut i: usize = 0;
        proof {
            assert(views.take(0) =~= Seq::<FieldSpec>::empty());
            assert(rows(out@) =~= Seq::<Row>::empty());
        }
        while i < fields.len()
            invariant
                i <= fields.len(),
                views == field_views(fields@),
                rows(out@) == global_rows(self@, env@, views.take(i as int), section),
            decreases fields.len() - i,
        {
            proof {
                let next = views.take(i as int + 1);
                assert(next.drop_last() =~= views.take(i as int));
                assert(next.last() == fields@[i as int]@);
            }
            let field = &fields[i];
            let wanted = match section {
                Some(s) => s == field.section,
                None => true,
            };
            if wanted {
                match self.get_global_field_display(field.name, env) {
                    Some((value, source)) => {
                        if !(field.deprecated && source == ConfigSource::Default) {
                            let display_value = if field.sensitive {
                                mask_value(value.as_str())
                            } else {
                                value
                            };
                            let ghost before = rows(out@);
                            let line = ReportLine {
                                name: owned(field.name),
                                value: display_value,
                                source,
                                deprecated: field.deprecated,
                            };
                            out.push(line);
                            proof {
                                assert(rows(out@) =~= before.push(line@));
                            }
                        }
                    },
                    None => {},
                }
            }
            i = i + 1;
        }
        proof {
            assert(views.take(fields@.len() as int) =~= views);
        }
        out
    }

    /// The lines of the settings of `provider`, in the order of its fields;
    /// see [`provider_rows`].
    pub fn provider_report(&self, provider: &Provider) -> (r: Vec<ReportLine>)
        ensures
            rows(r@) == provider_rows(
                self@,
                self@.creds(*provider),
                provider_spec(*provider).name,
                provider_spec(*provider).all_fields(),
            ),
    {
        let meta = provider.metadata();
        let creds = self.providers.get(provider);
        let fields = meta.all_fields();
        let ghost views = field_views(fields@);
        let mut out: Vec<ReportLine> = Vec::new();
        let mut i: usize = 0;
        proof {
            assert(views.take(0) =~= Seq::<FieldSpec>::empty());
            assert(rows(out@) =~= Seq::<Row>::empty());
        }
        while i < fields.len()
            invariant
                i <= fields.len(),
                views == field_views(fields@),
                meta@ == provider_spec(*provider),
                creds@ == self@.creds(*provider),
                rows(out@) == provider_rows(self@, creds@, meta@.name, views.take(i as int)),
            decreases fields.len() - i,
        {
            proof {
                let next = views.take(i as int + 1);
                assert(next.drop_last() =~= views.take(i as int));
                assert(next.last() == fields@[i as int]@);
            }
            let field = &fields[i];
            let (value, source) = self.get_provider_field_display(field, creds, meta.name);
            let display_value = if field.sensitive {
                mask_value(value.as_str())
            } else {
                value
            };
            let ghost before = rows(out@);
            let line = ReportLine {
                name: owned(field.name),
                value: display_value,
                source,
                deprecated: false,
            };
            out.push(line);
            proof {
                assert(rows(out@) =~= before.push(line@));
            }
            i = i + 1;
        }
        proof {
            assert(views.take(fields@.len() as int) =~= views);
        }
        out
    }
}

/// The fallback of the effective model. The global model wins where it is
/// not empty, and the effective model is then attributed to the layer of
/// the global model. Else the model of the selected provider wins where it
/// is given and not empty, attributed to the layer that wrote the
/// provider's model. Else the provider's default model wins, attributed to
/// the defaults. Without a provider the effective model is empty and
/// counts as a default.
pub proof fn law_effective_model_fallback(c: ConfigSpec)
    ensures
        c.model.value.len() > 0 ==> c.effective_model() == c.model.value
            && c.effective_model_source() == c.model.source,
        c.model.value.len() == 0 && c.provider.value is None ==> c.effective_model()
            == Seq::<char>::empty() && c.effective_model_source() == ConfigSource::Default,
        forall|p: Provider|
            c.model.value.len() == 0 && c.provider.value == Some(p) && !missing(
                #[trigger] c.creds(p).model,
            ) ==> c.effective_model() == c.creds(p).model->0 && c.effective_model_source()
                == c.source_of(field_path(provider_spec(p).name, "model"@)),
        forall|p: Provider|
            c.model.value.len() == 0 && c.provider.value == Some(p) && missing(
                #[trigger] c.creds(p).model,
            ) ==> c.effective_model() == ConfigSpec::default_model(p) && c.effective_model_source()
                == ConfigSource::Default,
{
}

} // verus!
