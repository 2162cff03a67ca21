//! The laws of what providers require: groq can be used as it comes, and
//! azure lacks nothing but what has to be said of every deployment.

use crate::catalog::provider_spec;
use crate::config::missing;
use crate::config::problems;
use crate::config::hint_for;
use crate::config::ConfigSpec;
use crate::config::Problem;
use crate::decode::CredsSpec;
use crate::field_names::lemma_lengths;
use crate::kinds::Provider;
use crate::meta::common_fields;
use crate::meta::CommonSpec;
use crate::meta::FieldSpec;
use crate::meta::OverrideSpec;
use crate::search::lemma_first_where_found;
use crate::validate::conflict;
use crate::validate::verdict;
use crate::validate::ErrorSpec;
use crate::sound_defaults::lemma_shared_are_resolved;
use vstd::prelude::*;

verus! {

/// Whether the field `f` is a problem for `creds`: it is required and
/// missing.
pub open spec fn is_lacking(creds: CredsSpec, f: FieldSpec) -> bool {
    f.required && missing(creds.field(f.name))
}

/// Where no field is lacking there is no problem.
pub proof fn lemma_no_problems(creds: CredsSpec, provider: Seq<char>, fields: Seq<FieldSpec>)
    requires
        forall|i: int| 0 <= i < fields.len() ==> !is_lacking(creds, #[trigger] fields[i]),
    ensures
        problems(creds, provider, fields) == Seq::<Problem>::empty(),
    decreases fields.len(),
{
    if fields.len() > 0 {
        let head = fields.drop_last();
        assert forall|i: int| 0 <= i < head.len() implies !is_lacking(creds, #[trigger] head[i]) by {
            assert(head[i] == fields[i]);
        }
        lemma_no_problems(creds, provider, head);
        assert(fields.last() == fields[fields.len() - 1]);
    }
}

/// Where one field is lacking and no other, the one problem is that
/// field's.
pub proof fn lemma_one_problem(creds: CredsSpec, provider: Seq<char>, fields: Seq<FieldSpec>, i: int)
    requires
        0 <= i < fields.len(),
        is_lacking(creds, fields[i]),
        forall|j: int| 0 <= j < fields.len() && j != i ==> !is_lacking(creds, #[trigger] fields[j]),
    ensures
        problems(creds, provider, fields) == seq![
            (Problem {
                field: fields[i].name,
                description: fields[i].description,
                hint: hint_for(provider, fields[i]),
            }),
        ],
    decreases fields.len(),
{
    let head = fields.drop_last();
    assert(fields.last() == fields[fields.len() - 1]);
    if i == fields.len() - 1 {
        assert forall|j: int| 0 <= j < head.len() implies !is_lacking(creds, #[trigger] head[j]) by {
            assert(head[j] == fields[j]);
        }
        lemma_no_problems(creds, provider, head);
        assert(problems(creds, provider, fields) =~= seq![
            (Problem {
                field: fields[i].name,
                description: fields[i].description,
                hint: hint_for(provider, fields[i]),
            }),
        ]);
    } else {
        assert(head[i] == fields[i]);
        assert forall|j: int| 0 <= j < head.len() && j != i implies !is_lacking(
            creds,
            #[trigger] head[j],
        ) by {
            assert(head[j] == fields[j]);
        }
        lemma_one_problem(creds, provider, head, i);
    }
}

/// What a provider with the usual four overrides makes of the shared
/// fields: each shared field takes what the override of its name says.
pub proof fn lemma_overrides_by_name(p: Provider, j: int)
    requires
        0 <= j < 4,
    ensures
        provider_spec(p).override_of(common_fields()[j].name) == Some(
            provider_spec(p).field_overrides[j],
        ),
        provider_spec(p).field_overrides[j].name == common_fields()[j].name,
{
    let o = provider_spec(p).field_overrides;
    let name = common_fields()[j].name;
    lemma_lengths();
    assert(o.len() == 4);
    assert(o[0].name == "api_key"@ && o[1].name == "api_base"@ && o[2].name == "model"@ && o[3].name
        == "max_tokens"@);
    assert(common_fields()[0].name == "api_key"@ && common_fields()[1].name == "api_base"@
        && common_fields()[2].name == "model"@ && common_fields()[3].name == "max_tokens"@);
    lemma_first_where_found(o, |x: OverrideSpec| x.name == name, j);
}

/// Groq requires none of its fields.
pub proof fn lemma_groq_requires_nothing(i: int)
    requires
        0 <= i < provider_spec(Provider::Groq).all_fields().len(),
    ensures
        !provider_spec(Provider::Groq).all_fields()[i].required,
{
    let spec = provider_spec(Provider::Groq);
    let shared = spec.resolved_commons(common_fields());
    assert(spec.extra_fields.len() == 0);
    assert(spec.all_fields() =~= shared);
    lemma_shared_are_resolved(spec, common_fields());
    let j = choose|j: int|
        0 <= j < common_fields().len() && shared[i] == spec.resolve(common_fields()[j]);
    lemma_overrides_by_name(Provider::Groq, j);
    let o = spec.field_overrides;
    assert(o[0].required == Some(false));
    assert(o[1].required is None && o[2].required is None && o[3].required is None);
    assert(!common_fields()[1].required && !common_fields()[2].required
        && !common_fields()[3].required);
}

/// Of the fields of azure, the base address and the name of the deployment
/// are required, and no other.
pub proof fn lemma_azure_requires(i: int)
    requires
        0 <= i < provider_spec(Provider::Azure).all_fields().len(),
    ensures
        provider_spec(Provider::Azure).all_fields()[i].required <==> (provider_spec(
            Provider::Azure,
        ).all_fields()[i].name == "api_base"@ || provider_spec(Provider::Azure).all_fields()[i].name
            == "deployment_name"@),
{
    let spec = provider_spec(Provider::Azure);
    let shared = spec.resolved_commons(common_fields());
    let all = spec.all_fields();
    lemma_lengths();
    if i < shared.len() {
        assert(all[i] == shared[i]);
        lemma_shared_are_resolved(spec, common_fields());
        let j = choose|j: int|
            0 <= j < common_fields().len() && shared[i] == spec.resolve(common_fields()[j]);
        lemma_overrides_by_name(Provider::Azure, j);
        let o = spec.field_overrides;
        assert(o[0].required == Some(false));
        assert(o[1].required == Some(true));
        assert(o[2].required is None && o[3].required is None);
        assert(!common_fields()[2].required && !common_fields()[3].required);
        assert(common_fields()[0].name == "api_key"@ && common_fields()[1].name == "api_base"@
            && common_fields()[2].name == "model"@ && common_fields()[3].name == "max_tokens"@);
    } else {
        let extra = spec.extra_fields;
        assert(all[i] == extra[i - shared.len()]);
        assert(extra.len() == 2);
        assert(extra[0].name == "deployment_name"@ && extra[0].required);
        assert(extra[1].name == "api_version"@ && !extra[1].required);
    }
}

/// Groq lacks nothing. Whatever is given for it, a configuration that
/// selects groq has no validation error: groq can be used with its
/// defaults alone, without a key.
pub proof fn law_groq_lacks_nothing(c: ConfigSpec)
    requires
        c.provider.value == Some(Provider::Groq),
    ensures
        c.validation_errors() == Seq::<Problem>::empty(),
{
    let fields = provider_spec(Provider::Groq).all_fields();
    let creds = c.creds(Provider::Groq);
    assert forall|i: int| 0 <= i < fields.len() implies !is_lacking(creds, #[trigger] fields[i]) by {
        lemma_groq_requires_nothing(i);
    }
    lemma_no_problems(creds, provider_spec(Provider::Groq).name, fields);
}

/// The problem that azure has without the name of a deployment.
pub open spec fn deployment_problem() -> Problem {
    Problem {
        field: "deployment_name"@,
        description: "Deployment name for your model"@,
        hint: "Set AZURE_DEPLOYMENT_NAME or add [azure].deployment_name to config.toml"@,
    }
}

/// Azure lacks the name of a deployment and nothing else. A configuration
/// that selects azure and gives its base address, but no name of a
/// deployment, has exactly one validation error, which is for the name of
/// the deployment, whether a key is given or not.
pub proof fn law_azure_lacks_a_deployment_only(c: ConfigSpec)
    requires
        c.provider.value == Some(Provider::Azure),
        !missing(c.creds(Provider::Azure).api_base),
        missing(c.creds(Provider::Azure).deployment_name),
    ensures
        c.validation_errors() == seq![deployment_problem()],
{
    let spec = provider_spec(Provider::Azure);
    let fields = spec.all_fields();
    let shared = spec.resolved_commons(common_fields());
    let creds = c.creds(Provider::Azure);
    let at = shared.len() as int;
    lemma_lengths();
    assert(fields[at] == spec.extra_fields[0]);
    assert(fields[at].name == "deployment_name"@);
    crate::field_names::lemma_provider_fields(Provider::Azure);
    assert forall|j: int| 0 <= j < fields.len() && j != at implies !is_lacking(
        creds,
        #[trigger] fields[j],
    ) by {
        lemma_azure_requires(j);
        assert(fields[j].name != fields[at].name);
    }
    lemma_azure_requires(at);
    lemma_one_problem(creds, spec.name, fields, at);
    let f = fields[at];
    assert(f.env_var == Some("AZURE_DEPLOYMENT_NAME"@));
    assert(hint_for(spec.name, f) =~= deployment_problem().hint) by {
        reveal_strlit("Set ");
        reveal_strlit("AZURE_DEPLOYMENT_NAME");
        reveal_strlit(" or add [");
        reveal_strlit("azure");
        reveal_strlit("].");
        reveal_strlit("deployment_name");
        reveal_strlit(" to config.toml");
        reveal_strlit("Set AZURE_DEPLOYMENT_NAME or add [azure].deployment_name to config.toml");
    }
}

/// Groq validates. A configuration that selects groq passes validation in
/// every environment in which the legacy switch does not contradict the
/// frontend variable, whatever is given for groq and though no key is.
pub proof fn law_groq_validates(c: ConfigSpec, env: Map<Seq<char>, Seq<char>>)
    requires
        c.provider.value == Some(Provider::Groq),
        conflict(env) is None,
    ensures
        verdict(c, env) is None,
{
    law_groq_lacks_nothing(c);
}

/// Azure without the name of a deployment fails on that name alone: where
/// the legacy switch does not contradict the frontend variable, validation
/// ends with the one problem for the name of the deployment.
pub proof fn law_azure_fails_on_the_deployment(c: ConfigSpec, env: Map<Seq<char>, Seq<char>>)
    requires
        c.provider.value == Some(Provider::Azure),
        !missing(c.creds(Provider::Azure).api_base),
        missing(c.creds(Provider::Azure).deployment_name),
        conflict(env) is None,
    ensures
        verdict(c, env) == Some(
            ErrorSpec::Validation { provider: Provider::Azure, errors: seq![deployment_problem()] },
        ),
{
    law_azure_lacks_a_deployment_only(c);
}

/// A conflict comes first. Where the legacy switch contradicts the
/// frontend variable, validation ends with the conflict, which names the
/// frontend that was asked for, whether a provider is selected or not and
/// whatever the provider lacks; and what it says names both variables.
pub proof fn law_conflict_comes_first(c: ConfigSpec, env: Map<Seq<char>, Seq<char>>)
    requires
        conflict(env) is Some,
    ensures
        verdict(c, env) == Some(ErrorSpec::Conflict { frontend: conflict(env)->0 }),
        crate::text::has_part(verdict(c, env)->0.text(), "SHAI_SKIP_CONFIRM"@),
        crate::text::has_part(verdict(c, env)->0.text(), "SHAI_FRONTEND"@),
{
    let text = verdict(c, env)->0.text();
    reveal_strlit("Configuration conflict: SHAI_SKIP_CONFIRM=true and SHAI_FRONTEND=");
    reveal_strlit("SHAI_SKIP_CONFIRM");
    reveal_strlit("SHAI_FRONTEND");
    let head = "Configuration conflict: SHAI_SKIP_CONFIRM=true and SHAI_FRONTEND="@;
    assert(head.len() == 65);
    assert(text.len() >= 65);
    assert(text.subrange(0, 65) =~= head);
    assert(crate::text::occurs_at(text, "SHAI_SKIP_CONFIRM"@, 24)) by {
        assert(text.subrange(24, 41) =~= head.subrange(24, 41));
        assert(head.subrange(24, 41) =~= "SHAI_SKIP_CONFIRM"@);
    }
    assert(crate::text::occurs_at(text, "SHAI_FRONTEND"@, 51)) by {
        assert(text.subrange(51, 64) =~= head.subrange(51, 64));
        assert(head.subrange(51, 64) =~= "SHAI_FRONTEND"@);
    }
}

} // verus!
