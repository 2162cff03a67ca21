//! The catalogue of settings: what every field is called, which environment
//! variables feed it, what it defaults to, and how each provider bends the
//! fields that all providers share.

use crate::kinds::Provider;
use crate::search::first_where;
use crate::search::lemma_first_where_found;
use crate::search::lemma_first_where_none;
use vstd::prelude::*;

verus! {

/// The group under which a setting is shown.
#[derive(Debug, Clone, Copy, PartialEq, Eq, PartialOrd, Ord, Structural)]
pub enum Section {
    Provider,
    Ui,
    Suggest,
    Explain,
    ProviderSpecific,
}

impl Section {
    /// The heading of the group; provider sections are headed by the provider.
    pub open spec fn heading(self) -> Seq<char> {
        match self {
            Section::Provider => "Provider Settings"@,
            Section::Ui => "UI Settings"@,
            Section::Suggest => "Suggest Settings"@,
            Section::Explain => "Explain Settings"@,
            Section::ProviderSpecific => ""@,
        }
    }

    pub fn title(&self) -> (r: &'static str)
        ensures
            r@ == self.heading(),
    {
        match self {
            Section::Provider => "Provider Settings",
            Section::Ui => "UI Settings",
            Section::Suggest => "Suggest Settings",
            Section::Explain => "Explain Settings",
            Section::ProviderSpecific => "",
        }
    }
}

/// The text of an optional string.
pub open spec fn opt_text(o: Option<&'static str>) -> Option<Seq<char>> {
    match o {
        Some(s) => Some(s@),
        None => None,
    }
}

/// The texts of a list of strings.
pub open spec fn texts(v: Seq<&'static str>) -> Seq<Seq<char>> {
    v.map_values(|s: &'static str| s@)
}

/// What is known about one setting.
#[derive(Debug)]
pub struct FieldMeta {
    pub name: &'static str,
    /// The variable that is read first.
    pub env_var: Option<&'static str>,
    /// Further variables, read in order when the first is not set.
    pub env_aliases: Vec<&'static str>,
    pub description: &'static str,
    /// The default, written as it would be in a file.
    pub default: Option<&'static str>,
    pub required: bool,
    pub section: Section,
    pub deprecated: bool,
    /// The value is masked when it is shown.
    pub sensitive: bool,
    /// The field is a run-time switch and has no place in the typed settings.
    pub virtual_field: bool,
}

/// The mathematical value of a [`FieldMeta`].
pub ghost struct FieldSpec {
    pub name: Seq<char>,
    pub env_var: Option<Seq<char>>,
    pub env_aliases: Seq<Seq<char>>,
    pub description: Seq<char>,
    pub default: Option<Seq<char>>,
    pub required: bool,
    pub section: Section,
    pub deprecated: bool,
    pub sensitive: bool,
    pub virtual_field: bool,
}

impl View for FieldMeta {
    type V = FieldSpec;

    open spec fn view(&self) -> FieldSpec {
        FieldSpec {
            name: self.name@,
            env_var: opt_text(self.env_var),
            env_aliases: texts(self.env_aliases@),
            description: self.description@,
            default: opt_text(self.default),
            required: self.required,
            section: self.section,
            deprecated: self.deprecated,
            sensitive: self.sensitive,
            virtual_field: self.virtual_field,
        }
    }
}

impl FieldSpec {
    /// The variables that feed the field, in the order in which they are read.
    pub open spec fn variables(self) -> Seq<Seq<char>> {
        match self.env_var {
            Some(v) => seq![v] + self.env_aliases,
            None => self.env_aliases,
        }
    }
}

/// The views of a list of fields.
pub open spec fn field_views(fields: Seq<FieldMeta>) -> Seq<FieldSpec> {
    fields.map_values(|f: FieldMeta| f@)
}

impl FieldMeta {
    /// A copy of the descriptor.
    pub fn copy(&self) -> (r: FieldMeta)
        ensures
            r@ == self@,
    {
        let mut aliases: Vec<&'static str> = Vec::new();
        let mut i: usize = 0;
        while i < self.env_aliases.len()
            invariant
                i <= self.env_aliases.len(),
                aliases@ == self.env_aliases@.take(i as int),
            decreases self.env_aliases.len() - i,
        {
            aliases.push(self.env_aliases[i]);
            proof {
                assert(self.env_aliases@.take(i as int + 1) =~= self.env_aliases@.take(i as int).push(
                    self.env_aliases@[i as int],
                ));
            }
            i = i + 1;
        }
        proof {
            assert(self.env_aliases@.take(self.env_aliases@.len() as int) =~= self.env_aliases@);
        }
        FieldMeta {
            name: self.name,
            env_var: self.env_var,
            env_aliases: aliases,
            description: self.description,
            default: self.default,
            required: self.required,
            section: self.section,
            deprecated: self.deprecated,
            sensitive: self.sensitive,
            virtual_field: self.virtual_field,
        }
    }
}

/// A field that every provider has, before a provider bends it.
#[derive(Debug, Clone, Copy)]
pub struct CommonFieldMeta {
    pub name: &'static str,
    pub description: &'static str,
    pub required: bool,
    pub sensitive: bool,
}

/// The mathematical value of a [`CommonFieldMeta`].
pub ghost struct CommonSpec {
    pub name: Seq<char>,
    pub description: Seq<char>,
    pub required: bool,
    pub sensitive: bool,
}

impl View for CommonFieldMeta {
    type V = CommonSpec;

    open spec fn view(&self) -> CommonSpec {
        CommonSpec {
            name: self.name@,
            description: self.description@,
            required: self.required,
            sensitive: self.sensitive,
        }
    }
}

/// How one provider bends a shared field: its variable, its default, and
/// whether it is required. What is left out of `required` is inherited.
#[derive(Debug, Clone, Copy)]
pub struct FieldOverride {
    pub name: &'static str,
    pub env_var: Option<&'static str>,
    pub default: Option<&'static str>,
    pub required: Option<bool>,
}

/// The mathematical value of a [`FieldOverride`].
pub ghost struct OverrideSpec {
    pub name: Seq<char>,
    pub env_var: Option<Seq<char>>,
    pub default: Option<Seq<char>>,
    pub required: Option<bool>,
}

impl View for FieldOverride {
    type V = OverrideSpec;

    open spec fn view(&self) -> OverrideSpec {
        OverrideSpec {
            name: self.name@,
            env_var: opt_text(self.env_var),
            default: opt_text(self.default),
            required: self.required,
        }
    }
}

/// What is known about one provider.
#[derive(Debug)]
pub struct ProviderMeta {
    pub name: &'static str,
    pub display_name: &'static str,
    pub description: &'static str,
    pub field_overrides: Vec<FieldOverride>,
    /// Fields that only this provider has.
    pub extra_fields: Vec<FieldMeta>,
    /// Shared fields that this provider does not have.
    pub skip_common: Vec<&'static str>,
}

/// The mathematical value of a [`ProviderMeta`].
pub ghost struct ProviderSpec {
    pub name: Seq<char>,
    pub display_name: Seq<char>,
    pub description: Seq<char>,
    pub field_overrides: Seq<OverrideSpec>,
    pub extra_fields: Seq<FieldSpec>,
    pub skip_common: Seq<Seq<char>>,
}

impl View for ProviderMeta {
    type V = ProviderSpec;

    open spec fn view(&self) -> ProviderSpec {
        ProviderSpec {
            name: self.name@,
            display_name: self.display_name@,
            description: self.description@,
            field_overrides: self.field_overrides@.map_values(|o: FieldOverride| o@),
            extra_fields: field_views(self.extra_fields@),
            skip_common: texts(self.skip_common@),
        }
    }
}

impl ProviderSpec {
    /// The provider's override of the shared field `name`, if it has one.
    pub open spec fn override_of(self, name: Seq<char>) -> Option<OverrideSpec> {
        first_where(self.field_overrides, |o: OverrideSpec| o.name == name)
    }

    /// Whether the provider leaves out the shared field `name`.
    pub open spec fn skips(self, name: Seq<char>) -> bool {
        self.skip_common.contains(name)
    }

    /// The shared field `common` as this provider has it. The variable and
    /// the default come from the provider's override and are absent without
    /// one. The field is required as the override says; where the override is
    /// silent, it is required when the shared field is and the provider does
    /// not leave it out.
    pub open spec fn resolve(self, common: CommonSpec) -> FieldSpec {
        let o = self.override_of(common.name);
        FieldSpec {
            name: common.name,
            env_var: match o {
                Some(ov) => ov.env_var,
                None => None,
            },
            env_aliases: Seq::empty(),
            description: common.description,
            default: match o {
                Some(ov) => ov.default,
                None => None,
            },
            required: match o {
                Some(OverrideSpec { required: Some(r), .. }) => r,
                _ => common.required && !self.skips(common.name),
            },
            section: Section::ProviderSpecific,
            deprecated: false,
            sensitive: common.sensitive,
            virtual_field: false,
        }
    }

    /// The shared fields among `commons` that the provider has, resolved, in order.
    pub open spec fn resolved_commons(self, commons: Seq<CommonSpec>) -> Seq<FieldSpec>
        decreases commons.len(),
    {
        if commons.len() == 0 {
            Seq::empty()
        } else {
            let head = self.resolved_commons(commons.drop_last());
            if self.skips(commons.last().name) {
                head
            } else {
                head.push(self.resolve(commons.last()))
            }
        }
    }

    /// Every field of the provider: the shared fields it has, resolved, then
    /// its own fields.
    pub open spec fn all_fields(self) -> Seq<FieldSpec> {
        self.resolved_commons(common_fields()) + self.extra_fields
    }

    /// The provider's field called `name`. Where a shared field has the
    /// name, it is that field as the provider has it, and nothing where the
    /// provider leaves it out. Where no shared field has the name, it is the
    /// first of the provider's own fields of that name.
    pub open spec fn resolved_field(self, name: Seq<char>) -> Option<FieldSpec> {
        match first_where(common_fields(), |c: CommonSpec| c.name == name) {
            Some(c) => if self.skips(c.name) {
                None
            } else {
                Some(self.resolve(c))
            },
            None => first_where(self.extra_fields, |f: FieldSpec| f.name == name),
        }
    }
}

/// The fields that all providers share.
pub open spec fn common_fields() -> Seq<CommonSpec> {
    seq![
        CommonSpec {
            name: "api_key"@,
            description: "API key for authentication"@,
            required: true,
            sensitive: true,
        },
        CommonSpec {
            name: "api_base"@,
            description: "API base URL"@,
            required: false,
            sensitive: false,
        },
        CommonSpec {
            name: "model"@,
            description: "Model to use"@,
            required: false,
            sensitive: false,
        },
        CommonSpec {
            name: "max_tokens"@,
            description: "Max tokens for AI completion"@,
            required: false,
            sensitive: false,
        },
    ]
}

/// The fields that all providers share.
pub fn common_provider_fields() -> (r: Vec<CommonFieldMeta>)
    ensures
        r@.map_values(|c: CommonFieldMeta| c@) == common_fields(),
{
    let mut r: Vec<CommonFieldMeta> = Vec::new();
    r.push(
        CommonFieldMeta {
            name: "api_key",
            description: "API key for authentication",
            required: true,
            sensitive: true,
        },
    );
    r.push(
        CommonFieldMeta {
            name: "api_base",
            description: "API base URL",
            required: false,
            sensitive: false,
        },
    );
    r.push(
        CommonFieldMeta {
            name: "model",
            description: "Model to use",
            required: false,
            sensitive: false,
        },
    );
    r.push(
        CommonFieldMeta {
            name: "max_tokens",
            description: "Max tokens for AI completion",
            required: false,
            sensitive: false,
        },
    );
    proof {
        assert(r@.map_values(|c: CommonFieldMeta| c@) =~= common_fields());
    }
    r
}

/// Whether `name` is among `list`.
pub fn contains_name(list: &Vec<&'static str>, name: &str) -> (b: bool)
    ensures
        b == texts(list@).contains(name@),
{
    let mut i: usize = 0;
    while i < list.len()
        invariant
            i <= list.len(),
            forall|j: int| 0 <= j < i ==> (#[trigger] texts(list@)[j]) != name@,
        decreases list.len() - i,
    {
        if list[i].eq(name) {
            assert(texts(list@)[i as int] == name@);
            return true;
        }
        i = i + 1;
    }
    false
}

impl ProviderMeta {
    /// The provider's override of the shared field `name`, if it has one.
    fn find_override(&self, name: &str) -> (r: Option<FieldOverride>)
        ensures
            match r {
                Some(o) => self@.override_of(name@) == Some(o@),
                None => self@.override_of(name@) is None,
            },
    {
        let ghost views = self@.field_overrides;
        let ghost pred = |o: OverrideSpec| o.name == name@;
        let mut i: usize = 0;
        while i < self.field_overrides.len()
            invariant
                i <= self.field_overrides.len(),
                views == self@.field_overrides,
                pred == (|o: OverrideSpec| o.name == name@),
                forall|j: int| 0 <= j < i ==> !pred(#[trigger] views[j]),
            decreases self.field_overrides.len() - i,
        {
            if self.field_overrides[i].name.eq(name) {
                proof {
                    assert(views[i as int] == self.field_overrides@[i as int]@);
                    assert(pred(views[i as int]));
                    lemma_first_where_found(views, pred, i as int);
                }
                return Some(self.field_overrides[i]);
            }
            proof {
                assert(views[i as int] == self.field_overrides@[i as int]@);
            }
            i = i + 1;
        }
        proof {
            lemma_first_where_none(views, pred);
        }
        None
    }

    /// The shared field `common` as this provider has it; see
    /// [`ProviderSpec::resolve`].
    pub fn resolve_common_field(&self, common: &CommonFieldMeta) -> (r: FieldMeta)
        ensures
            r@ == self@.resolve(common@),
    {
        let found = self.find_override(common.name);
        let required = match found {
            Some(FieldOverride { required: Some(r), .. }) => r,
            _ => common.required && !contains_name(&self.skip_common, common.name),
        };
        let env_var = match found {
            Some(o) => o.env_var,
            None => None,
        };
        let default = match found {
            Some(o) => o.default,
            None => None,
        };
        let r = FieldMeta {
            name: common.name,
            env_var,
            env_aliases: Vec::new(),
            description: common.description,
            default,
            required,
            section: Section::ProviderSpecific,
            deprecated: false,
            sensitive: common.sensitive,
            virtual_field: false,
        };
        proof {
            assert(r@.env_aliases =~= Seq::<Seq<char>>::empty());
        }
        r
    }

    /// Every field of the provider, in a fixed order: the shared fields it
    /// has, with its overrides applied, then its own fields.
    pub fn all_fields(&self) -> (r: Vec<FieldMeta>)
        ensures
            field_views(r@) == self@.all_fields(),
    {
        let commons = common_provider_fields();
        let ghost common_views = commons@.map_values(|c: CommonFieldMeta| c@);
        let mut out: Vec<FieldMeta> = Vec::new();
        let mut i: usize = 0;
        proof {
            assert(common_views.take(0) =~= Seq::<CommonSpec>::empty());
            assert(field_views(out@) =~= Seq::<FieldSpec>::empty());
        }
        while i < commons.len()
            invariant
                i <= commons.len(),
                common_views == commons@.map_values(|c: CommonFieldMeta| c@),
                field_views(out@) == self@.resolved_commons(common_views.take(i as int)),
            decreases commons.len() - i,
        {
            let ghost before = field_views(out@);
            proof {
                let next = common_views.take(i as int + 1);
                assert(next.drop_last() =~= common_views.take(i as int));
                assert(next.last() == commons@[i as int]@);
            }
            if !contains_name(&self.skip_common, commons[i].name) {
                let field = self.resolve_common_field(&commons[i]);
                out.push(field);
                proof {
                    assert(field_views(out@) =~= before.push(field@));
                }
            }
            i = i + 1;
        }
        proof {
            assert(common_views.take(commons@.len() as int) =~= common_views);
        }
        let ghost shared = field_views(out@);
        let mut j: usize = 0;
        proof {
            assert(shared + self@.extra_fields.take(0) =~= shared);
        }
        while j < self.extra_fields.len()
            invariant
                j <= self.extra_fields.len(),
                shared == self@.resolved_commons(common_fields()),
                field_views(out@) == shared + self@.extra_fields.take(j as int),
            decreases self.extra_fields.len() - j,
        {
            let ghost before = field_views(out@);
            let field = self.extra_fields[j].copy();
            out.push(field);
            proof {
                assert(field_views(out@) =~= before.push(field@));
                assert(self@.extra_fields[j as int] == self.extra_fields@[j as int]@);
                assert(shared + self@.extra_fields.take(j as int + 1) =~= (shared
                    + self@.extra_fields.take(j as int)).push(self@.extra_fields[j as int]));
            }
            j = j + 1;
        }
        proof {
            assert(self@.extra_fields.take(self@.extra_fields.len() as int) =~= self@.extra_fields);
        }
        out
    }

    /// The provider's field called `name`; see [`ProviderSpec::resolved_field`].
    pub fn resolved_field(&self, name: &str) -> (r: Option<FieldMeta>)
        ensures
            match r {
                Some(f) => self@.resolved_field(name@) == Some(f@),
                None => self@.resolved_field(name@) is None,
            },
    {
        let commons = common_provider_fields();
        let ghost common_views = commons@.map_values(|c: CommonFieldMeta| c@);
        let ghost pred = |c: CommonSpec| c.name == name@;
        let mut found: Option<CommonFieldMeta> = None;
        let mut i: usize = 0;
        while i < commons.len() && found.is_none()
            invariant
                i <= commons.len(),
                common_views == common_fields(),
                common_views == commons@.map_values(|c: CommonFieldMeta| c@),
                pred == (|c: CommonSpec| c.name == name@),
                match found {
                    Some(c) => first_where(common_views, pred) == Some(c@),
                    None => forall|j: int| 0 <= j < i ==> !pred(#[trigger] common_views[j]),
                },
            decreases commons.len() - i + (if found is None { 1int } else { 0int }),
        {
            if commons[i].name.eq(name) {
                proof {
                    assert(common_views[i as int] == commons@[i as int]@);
                    lemma_first_where_found(common_views, pred, i as int);
                }
                found = Some(commons[i]);
            } else {
                proof {
                    assert(common_views[i as int] == commons@[i as int]@);
                }
                i = i + 1;
            }
        }
        proof {
            if found is None {
                lemma_first_where_none(common_views, pred);
            }
        }
        match found {
            Some(c) => {
                if contains_name(&self.skip_common, c.name) {
                    return None;
                }
                return Some(self.resolve_common_field(&c));
            },
            None => {},
        }
        let ghost extra = self@.extra_fields;
        let ghost named = |f: FieldSpec| f.name == name@;
        let mut j: usize = 0;
        while j < self.extra_fields.len()
            invariant
                j <= self.extra_fields.len(),
                extra == self@.extra_fields,
                named == (|f: FieldSpec| f.name == name@),
                pred == (|c: CommonSpec| c.name == name@),
                first_where(common_fields(), pred) is None,
                forall|k: int| 0 <= k < j ==> !named(#[trigger] extra[k]),
            decreases self.extra_fields.len() - j,
        {
            proof {
                assert(extra[j as int] == self.extra_fields@[j as int]@);
            }
            if self.extra_fields[j].name.eq(name) {
                proof {
                    lemma_first_where_found(extra, named, j as int);
                }
                return Some(self.extra_fields[j].copy());
            }
            j = j + 1;
        }
        proof {
            lemma_first_where_none(extra, named);
        }
        None
    }
}

} // verus!
