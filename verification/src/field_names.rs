//! Facts about the fields of the providers: their names hold no dot and
//! differ within a provider, and their defaults stand for leaves.

use crate::catalog::provider_spec;
use crate::kinds::Provider;
use crate::layers::default_leaf;
use crate::literal::is_non_finite_word;
use crate::meta::common_fields;
use crate::meta::CommonSpec;
use crate::meta::OverrideSpec;
use crate::meta::ProviderSpec;
use crate::names::dotless_upto;
use crate::names::lemma_dotless_upto;
use crate::names::mark;
use crate::search::first_where;
use crate::search::lemma_first_where_is_member;
use crate::text::dotless;
use vstd::prelude::*;

verus! {

/// Whether a text is one of the names that fields of providers have.
pub open spec fn is_field_name(s: Seq<char>) -> bool {
    s == "api_key"@ || s == "api_base"@ || s == "model"@ || s == "max_tokens"@ || s == "organization"@ || s == "deployment_name"@ || s == "api_version"@
}

/// Whether a text is one of the defaults that fields of providers have.
pub open spec fn is_field_default(s: Seq<char>) -> bool {
    s == "https://api.openai.com"@
        || s == "gpt-5"@
        || s == "https://api.groq.com/openai"@
        || s == "openai/gpt-oss-120b"@
        || s == "2023-05-15"@
        || s == "http://localhost:11434"@
        || s == "gpt-oss:120b-cloud"@
        || s == "https://api.mistral.ai"@
        || s == "codestral-2508"@
}

/// The names of the fields of providers hold no dot, are not empty, and are
/// told apart by their lengths.
pub proof fn lemma_field_names(a: Seq<char>, b: Seq<char>)
    requires
        is_field_name(a),
        is_field_name(b),
    ensures
        dotless(a),
        a.len() > 0,
        a.len() == b.len() ==> a == b,
{
    reveal_strlit("api_key");
    reveal_strlit("api_base");
    reveal_strlit("model");
    reveal_strlit("max_tokens");
    reveal_strlit("organization");
    reveal_strlit("deployment_name");
    reveal_strlit("api_version");
    reveal_with_fuel(dotless_upto, 20);
    assert(dotless_upto("api_key"@, 7));
    lemma_dotless_upto("api_key"@, 7);
    assert(dotless_upto("api_base"@, 8));
    lemma_dotless_upto("api_base"@, 8);
    assert(dotless_upto("model"@, 5));
    lemma_dotless_upto("model"@, 5);
    assert(dotless_upto("max_tokens"@, 10));
    lemma_dotless_upto("max_tokens"@, 10);
    assert(dotless_upto("organization"@, 12));
    lemma_dotless_upto("organization"@, 12);
    assert(dotless_upto("deployment_name"@, 15));
    lemma_dotless_upto("deployment_name"@, 15);
    assert(dotless_upto("api_version"@, 11));
    lemma_dotless_upto("api_version"@, 11);
}

/// The defaults of the fields of providers stand for leaves.
pub proof fn lemma_field_defaults(d: Seq<char>)
    requires
        is_field_default(d),
    ensures
        default_leaf(d).is_leaf(),
{
    reveal_strlit("https://api.openai.com");
    reveal_strlit("gpt-5");
    reveal_strlit("https://api.groq.com/openai");
    reveal_strlit("openai/gpt-oss-120b");
    reveal_strlit("2023-05-15");
    reveal_strlit("http://localhost:11434");
    reveal_strlit("gpt-oss:120b-cloud");
    reveal_strlit("https://api.mistral.ai");
    reveal_strlit("codestral-2508");
    assert(mark("https://api.openai.com"@) == (22nat, 'h'));
    assert(mark("gpt-5"@) == (5nat, 'g'));
    assert(mark("https://api.groq.com/openai"@) == (27nat, 'h'));
    assert(mark("openai/gpt-oss-120b"@) == (19nat, 'o'));
    assert(mark("2023-05-15"@) == (10nat, '2'));
    assert(mark("http://localhost:11434"@) == (22nat, 'h'));
    assert(mark("gpt-oss:120b-cloud"@) == (18nat, 'g'));
    assert(mark("https://api.mistral.ai"@) == (22nat, 'h'));
    assert(mark("codestral-2508"@) == (14nat, 'c'));
    assert(!is_non_finite_word(d));
}

/// The shared fields have names of fields, all different.
pub proof fn lemma_common_names()
    ensures
        common_fields().len() == 4,
        forall|i: int| 0 <= i < 4 ==> is_field_name(#[trigger] common_fields()[i].name),
        forall|i: int, j: int|
            0 <= i < 4 && 0 <= j < 4 && i != j ==> (#[trigger] common_fields()[i]).name != (
            #[trigger] common_fields()[j]).name,
{
    let cs = common_fields();
    assert(cs[0].name == "api_key"@);
    assert(cs[1].name == "api_base"@);
    assert(cs[2].name == "model"@);
    assert(cs[3].name == "max_tokens"@);
    assert forall|i: int, j: int| 0 <= i < 4 && 0 <= j < 4 && i != j implies (#[trigger] cs[i]).name
        != (#[trigger] cs[j]).name by {
        lemma_field_names(cs[i].name, cs[j].name);
        lemma_lengths();
    }
}

/// The lengths of the names of fields.
pub proof fn lemma_lengths()
    ensures
        "api_key"@.len() == 7,
        "api_base"@.len() == 8,
        "model"@.len() == 5,
        "max_tokens"@.len() == 10,
        "organization"@.len() == 12,
        "deployment_name"@.len() == 15,
        "api_version"@.len() == 11,
{
    reveal_strlit("api_key");
    reveal_strlit("api_base");
    reveal_strlit("model");
    reveal_strlit("max_tokens");
    reveal_strlit("organization");
    reveal_strlit("deployment_name");
    reveal_strlit("api_version");
}

/// What a provider makes of shared fields keeps their names, in order, and
/// takes its defaults from the provider's overrides.
pub proof fn lemma_resolved_commons(p: ProviderSpec, commons: Seq<CommonSpec>)
    requires
        forall|i: int, j: int|
            0 <= i < commons.len() && 0 <= j < commons.len() && i != j ==> (#[trigger] commons[i]).name
                != (#[trigger] commons[j]).name,
    ensures
        forall|a: int|
            0 <= a < p.resolved_commons(commons).len() ==> exists|j: int|
                0 <= j < commons.len() && commons[j].name == (#[trigger] p.resolved_commons(
                    commons,
                )[a]).name,
        forall|a: int, b: int|
            0 <= a < p.resolved_commons(commons).len() && 0 <= b < p.resolved_commons(commons).len()
                && a != b ==> (#[trigger] p.resolved_commons(commons)[a]).name != (
            #[trigger] p.resolved_commons(commons)[b]).name,
        forall|a: int|
            0 <= a < p.resolved_commons(commons).len() && (#[trigger] p.resolved_commons(
                commons,
            )[a]).default is Some ==> exists|k: int|
                0 <= k < p.field_overrides.len() && p.field_overrides[k].default
                    == p.resolved_commons(commons)[a].default,
    decreases commons.len(),
{
    if commons.len() > 0 {
        let head_commons = commons.drop_last();
        assert forall|i: int, j: int|
            0 <= i < head_commons.len() && 0 <= j < head_commons.len() && i != j implies (
        #[trigger] head_commons[i]).name != (#[trigger] head_commons[j]).name by {
            assert(head_commons[i] == commons[i]);
            assert(head_commons[j] == commons[j]);
        }
        lemma_resolved_commons(p, head_commons);
        let head = p.resolved_commons(head_commons);
        let all = p.resolved_commons(commons);
        let last = commons.last();
        assert(last == commons[commons.len() - 1]);
        let resolved = p.resolve(last);
        assert forall|a: int| 0 <= a < all.len() implies exists|j: int|
            0 <= j < commons.len() && commons[j].name == (#[trigger] all[a]).name by {
            if a < head.len() {
                assert(all[a] == head[a]);
                let j = choose|j: int|
                    0 <= j < head_commons.len() && head_commons[j].name == head[a].name;
                assert(commons[j] == head_commons[j]);
            } else {
                assert(all[a] == resolved);
                assert(commons[commons.len() - 1].name == all[a].name);
            }
        }
        assert forall|a: int, b: int|
            0 <= a < all.len() && 0 <= b < all.len() && a != b implies (#[trigger] all[a]).name != (
        #[trigger] all[b]).name by {
            if a < head.len() {
                assert(all[a] == head[a]);
                let j = choose|j: int|
                    0 <= j < head_commons.len() && head_commons[j].name == head[a].name;
                assert(commons[j] == head_commons[j]);
            }
            if b < head.len() {
                assert(all[b] == head[b]);
                let j = choose|j: int|
                    0 <= j < head_commons.len() && head_commons[j].name == head[b].name;
                assert(commons[j] == head_commons[j]);
            }
        }
        assert forall|a: int| 0 <= a < all.len() && (#[trigger] all[a]).default is Some implies exists|
            k: int,
        |
            0 <= k < p.field_overrides.len() && p.field_overrides[k].default == all[a].default by {
            if a < head.len() {
                assert(all[a] == head[a]);
            } else {
                assert(all[a] == resolved);
                let pred = |o: OverrideSpec| o.name == last.name;
                lemma_first_where_is_member(p.field_overrides, pred);
                let found = first_where(p.field_overrides, pred)->0;
                let k = choose|k: int|
                    0 <= k < p.field_overrides.len() && p.field_overrides[k] == found;
                assert(p.field_overrides[k].default == resolved.default);
            }
        }
    }
}

/// The fields of every provider have names of fields, all different within
/// the provider, and defaults among the known ones, which stand for leaves.
pub proof fn lemma_provider_fields(p: Provider)
    ensures
        forall|a: int|
            0 <= a < provider_spec(p).all_fields().len() ==> is_field_name(
                (#[trigger] provider_spec(p).all_fields()[a]).name,
            ),
        forall|a: int, b: int|
            0 <= a < provider_spec(p).all_fields().len() && 0 <= b < provider_spec(
                p,
            ).all_fields().len() && a != b ==> (#[trigger] provider_spec(p).all_fields()[a]).name
                != (#[trigger] provider_spec(p).all_fields()[b]).name,
        forall|a: int|
            0 <= a < provider_spec(p).all_fields().len() && (#[trigger] provider_spec(
                p,
            ).all_fields()[a]).default is Some ==> default_leaf(
                provider_spec(p).all_fields()[a].default->0,
            ).is_leaf() && is_field_default(provider_spec(p).all_fields()[a].default->0),
{
    let spec = provider_spec(p);
    lemma_common_names();
    lemma_lengths();
    lemma_resolved_commons(spec, common_fields());
    let shared = spec.resolved_commons(common_fields());
    let all = spec.all_fields();
    let extra = spec.extra_fields;
    assert(all == shared + extra);
    assert forall|a: int| 0 <= a < shared.len() implies is_field_name((#[trigger] shared[a]).name)
        && (shared[a].name.len() == 7 || shared[a].name.len() == 8 || shared[a].name.len() == 5
        || shared[a].name.len() == 10) by {
        let j = choose|j: int|
            0 <= j < common_fields().len() && common_fields()[j].name == shared[a].name;
        assert(is_field_name(common_fields()[j].name));
    }
    assert forall|a: int| 0 <= a < extra.len() implies is_field_name((#[trigger] extra[a]).name) && (
    extra[a].name.len() == 12 || extra[a].name.len() == 15 || extra[a].name.len() == 11) by {
        match p {
            Provider::OpenAI => {
                assert(extra[0].name == "organization"@);
            },
            Provider::Azure => {
                assert(extra[0].name == "deployment_name"@);
                assert(extra[1].name == "api_version"@);
            },
            _ => {},
        }
    }
    assert forall|a: int, b: int| 0 <= a < extra.len() && 0 <= b < extra.len() && a != b implies (
    #[trigger] extra[a]).name != (#[trigger] extra[b]).name by {
        match p {
            Provider::Azure => {
                assert(extra[0].name == "deployment_name"@);
                assert(extra[1].name == "api_version"@);
            },
            _ => {},
        }
    }
    assert forall|a: int| 0 <= a < all.len() implies is_field_name((#[trigger] all[a]).name) by {
        if a < shared.len() {
            assert(all[a] == shared[a]);
        } else {
            assert(all[a] == extra[a - shared.len()]);
        }
    }
    assert forall|a: int, b: int| 0 <= a < all.len() && 0 <= b < all.len() && a != b implies (
    #[trigger] all[a]).name != (#[trigger] all[b]).name by {
        if a < shared.len() {
            assert(all[a] == shared[a]);
        } else {
            assert(all[a] == extra[a - shared.len()]);
        }
        if b < shared.len() {
            assert(all[b] == shared[b]);
        } else {
            assert(all[b] == extra[b - shared.len()]);
        }
    }
    assert forall|a: int| 0 <= a < all.len() && (#[trigger] all[a]).default is Some implies default_leaf(
        all[a].default->0,
    ).is_leaf() && is_field_default(all[a].default->0) by {
        let d = all[a].default->0;
        assert(is_field_default(d)) by {
            if a < shared.len() {
                assert(all[a] == shared[a]);
                let k = choose|k: int|
                    0 <= k < spec.field_overrides.len() && spec.field_overrides[k].default
                        == shared[a].default;
                let o = spec.field_overrides;
                match p {
                    Provider::OpenAI => {
                        assert(o[0].default is None && o[3].default is None);
                    },
                    Provider::Groq => {
                        assert(o[0].default is None && o[3].default is None);
                    },
                    Provider::Azure => {
                        assert(o[0].default is None && o[1].default is None && o[2].default is None
                            && o[3].default is None);
                    },
                    Provider::Ollama => {
                        assert(o[0].default is None && o[3].default is None);
                    },
                    Provider::Mistral => {
                        assert(o[0].default is None && o[3].default is None);
                    },
                }
            } else {
                assert(all[a] == extra[a - shared.len()]);
                match p {
                    Provider::OpenAI => {
                        assert(extra[0].default is None);
                    },
                    Provider::Azure => {
                        assert(extra[0].default is None);
                        assert(extra[1].default == Some("2023-05-15"@));
                    },
                    _ => {},
                }
            }
        }
        lemma_field_defaults(d);
    }
}

} // verus!
