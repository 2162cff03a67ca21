//! Facts about the names in the catalogue: they hold no dot, and no two of
//! them are the same.

use crate::catalog::global_settings;
use crate::catalog::provider_spec;
use crate::kinds::Provider;
use crate::text::dotless;
use crate::text::split_dots;
use vstd::prelude::*;

verus! {

/// Whether the first `n` characters of `s` hold no dot.
pub open spec fn dotless_upto(s: Seq<char>, n: int) -> bool
    decreases n,
{
    n <= 0 || (s[n - 1] != '.' && dotless_upto(s, n - 1))
}

/// A text whose characters hold no dot, one by one, is without a dot.
pub proof fn lemma_dotless_upto(s: Seq<char>, n: int)
    requires
        dotless_upto(s, n),
    ensures
        forall|i: int| 0 <= i < n ==> s[i] != '.',
    decreases n,
{
    if n > 0 {
        lemma_dotless_upto(s, n - 1);
    }
}

/// A text without a dot is its own single component.
pub proof fn lemma_split_dotless(s: Seq<char>)
    requires
        dotless(s),
    ensures
        split_dots(s) == seq![s],
    decreases s.len(),
{
    if s.len() == 0 {
        assert(s =~= Seq::<char>::empty());
        assert(split_dots(s) =~= seq![s]);
    } else {
        let head = s.drop_last();
        assert(dotless(head)) by {
            assert forall|i: int| 0 <= i < head.len() implies head[i] != '.' by {
                assert(head[i] == s[i]);
            }
        }
        lemma_split_dotless(head);
        assert(s.last() == s[s.len() - 1]);
        assert(head.push(s.last()) =~= s);
        assert(split_dots(s) =~= seq![s]);
    }
}

/// A mark by which two names can be told apart: the length and the first
/// character.
pub open spec fn mark(s: Seq<char>) -> (nat, char) {
    (s.len(), s[0])
}

/// The names of the global settings hold no dot, are not empty, and are
/// told apart by their marks.
pub proof fn lemma_global_names()
    ensures
        global_settings().len() == 10,
        global_settings()[0].name == "provider"@,
        global_settings()[1].name == "model"@,
        global_settings()[2].name == "temperature"@,
        global_settings()[3].name == "suggestion_count"@,
        global_settings()[4].name == "skip_confirm"@,
        global_settings()[5].name == "frontend"@,
        global_settings()[6].name == "output_format"@,
        global_settings()[7].name == "max_reference_chars"@,
        global_settings()[8].name == "max_tokens"@,
        global_settings()[9].name == "debug"@,
        forall|i: int| 0 <= i < global_settings().len() ==> dotless(#[trigger] global_settings()[i].name),
        forall|i: int| 0 <= i < global_settings().len() ==> (#[trigger] global_settings()[i]).name.len() > 0,
        forall|i: int, j: int|
            0 <= i < global_settings().len() && 0 <= j < global_settings().len() && i != j ==> (
            #[trigger] global_settings()[i]).name != (#[trigger] global_settings()[j]).name,
{
    reveal_strlit("provider");
    reveal_strlit("model");
    reveal_strlit("temperature");
    reveal_strlit("suggestion_count");
    reveal_strlit("skip_confirm");
    reveal_strlit("frontend");
    reveal_strlit("output_format");
    reveal_strlit("max_reference_chars");
    reveal_strlit("max_tokens");
    reveal_strlit("debug");
    reveal_with_fuel(dotless_upto, 20);
    assert(dotless_upto("provider"@, 8));
    lemma_dotless_upto("provider"@, 8);
    assert(mark("provider"@) == (8nat, 'p'));
    assert(dotless_upto("model"@, 5));
    lemma_dotless_upto("model"@, 5);
    assert(mark("model"@) == (5nat, 'm'));
    assert(dotless_upto("temperature"@, 11));
    lemma_dotless_upto("temperature"@, 11);
    assert(mark("temperature"@) == (11nat, 't'));
    assert(dotless_upto("suggestion_count"@, 16));
    lemma_dotless_upto("suggestion_count"@, 16);
    assert(mark("suggestion_count"@) == (16nat, 's'));
    assert(dotless_upto("skip_confirm"@, 12));
    lemma_dotless_upto("skip_confirm"@, 12);
    assert(mark("skip_confirm"@) == (12nat, 's'));
    assert(dotless_upto("frontend"@, 8));
    lemma_dotless_upto("frontend"@, 8);
    assert(mark("frontend"@) == (8nat, 'f'));
    assert(dotless_upto("output_format"@, 13));
    lemma_dotless_upto("output_format"@, 13);
    assert(mark("output_format"@) == (13nat, 'o'));
    assert(dotless_upto("max_reference_chars"@, 19));
    lemma_dotless_upto("max_reference_chars"@, 19);
    assert(mark("max_reference_chars"@) == (19nat, 'm'));
    assert(dotless_upto("max_tokens"@, 10));
    lemma_dotless_upto("max_tokens"@, 10);
    assert(mark("max_tokens"@) == (10nat, 'm'));
    assert(dotless_upto("debug"@, 5));
    lemma_dotless_upto("debug"@, 5);
    assert(mark("debug"@) == (5nat, 'd'));
    let gs = global_settings();
    assert forall|i: int| 0 <= i < gs.len() implies dotless(#[trigger] gs[i].name) && gs[i].name.len() > 0 by {
        if i == 0 {
            assert(gs[i].name == "provider"@);
        }
        if i == 1 {
            assert(gs[i].name == "model"@);
        }
        if i == 2 {
            assert(gs[i].name == "temperature"@);
        }
        if i == 3 {
            assert(gs[i].name == "suggestion_count"@);
        }
        if i == 4 {
            assert(gs[i].name == "skip_confirm"@);
        }
        if i == 5 {
            assert(gs[i].name == "frontend"@);
        }
        if i == 6 {
            assert(gs[i].name == "output_format"@);
        }
        if i == 7 {
            assert(gs[i].name == "max_reference_chars"@);
        }
        if i == 8 {
            assert(gs[i].name == "max_tokens"@);
        }
        if i == 9 {
            assert(gs[i].name == "debug"@);
        }
    }
    assert forall|i: int, j: int| 0 <= i < gs.len() && 0 <= j < gs.len() && i != j implies (
    #[trigger] gs[i]).name != (#[trigger] gs[j]).name by {
        assert(mark(gs[i].name) != mark(gs[j].name)) by {
            if i == 0 {
                assert(gs[i].name == "provider"@);
            }
            if j == 0 {
                assert(gs[j].name == "provider"@);
            }
            if i == 1 {
                assert(gs[i].name == "model"@);
            }
            if j == 1 {
                assert(gs[j].name == "model"@);
            }
            if i == 2 {
                assert(gs[i].name == "temperature"@);
            }
            if j == 2 {
                assert(gs[j].name == "temperature"@);
            }
            if i == 3 {
                assert(gs[i].name == "suggestion_count"@);
            }
            if j == 3 {
                assert(gs[j].name == "suggestion_count"@);
            }
            if i == 4 {
                assert(gs[i].name == "skip_confirm"@);
            }
            if j == 4 {
                assert(gs[j].name == "skip_confirm"@);
            }
            if i == 5 {
                assert(gs[i].name == "frontend"@);
            }
            if j == 5 {
                assert(gs[j].name == "frontend"@);
            }
            if i == 6 {
                assert(gs[i].name == "output_format"@);
            }
            if j == 6 {
                assert(gs[j].name == "output_format"@);
            }
            if i == 7 {
                assert(gs[i].name == "max_reference_chars"@);
            }
            if j == 7 {
                assert(gs[j].name == "max_reference_chars"@);
            }
            if i == 8 {
                assert(gs[i].name == "max_tokens"@);
            }
            if j == 8 {
                assert(gs[j].name == "max_tokens"@);
            }
            if i == 9 {
                assert(gs[i].name == "debug"@);
            }
            if j == 9 {
                assert(gs[j].name == "debug"@);
            }
        }
    }
}

/// The names of the providers hold no dot, are not empty, and are none of
/// the names of the global settings.
pub proof fn lemma_provider_names()
    ensures
        forall|p: Provider| dotless(#[trigger] provider_spec(p).name),
        forall|p: Provider| (#[trigger] provider_spec(p)).name.len() > 0,
        forall|p: Provider, i: int|
            0 <= i < global_settings().len() ==> (#[trigger] provider_spec(p)).name != (
            #[trigger] global_settings()[i]).name,
{
    lemma_global_names();
    reveal_strlit("provider");
    reveal_strlit("model");
    reveal_strlit("temperature");
    reveal_strlit("suggestion_count");
    reveal_strlit("skip_confirm");
    reveal_strlit("frontend");
    reveal_strlit("output_format");
    reveal_strlit("max_reference_chars");
    reveal_strlit("max_tokens");
    reveal_strlit("debug");
    reveal_strlit("openai");
    reveal_strlit("groq");
    reveal_strlit("azure");
    reveal_strlit("ollama");
    reveal_strlit("mistral");
    reveal_with_fuel(dotless_upto, 20);
    assert(dotless_upto("openai"@, 6));
    lemma_dotless_upto("openai"@, 6);
    assert(mark("openai"@) == (6nat, 'o'));
    assert(dotless_upto("groq"@, 4));
    lemma_dotless_upto("groq"@, 4);
    assert(mark("groq"@) == (4nat, 'g'));
    assert(dotless_upto("azure"@, 5));
    lemma_dotless_upto("azure"@, 5);
    assert(mark("azure"@) == (5nat, 'a'));
    assert(dotless_upto("ollama"@, 6));
    lemma_dotless_upto("ollama"@, 6);
    assert(mark("ollama"@) == (6nat, 'o'));
    assert(dotless_upto("mistral"@, 7));
    lemma_dotless_upto("mistral"@, 7);
    assert(mark("mistral"@) == (7nat, 'm'));
    assert(mark("provider"@) == (8nat, 'p'));
    assert(mark("model"@) == (5nat, 'm'));
    assert(mark("temperature"@) == (11nat, 't'));
    assert(mark("suggestion_count"@) == (16nat, 's'));
    assert(mark("skip_confirm"@) == (12nat, 's'));
    assert(mark("frontend"@) == (8nat, 'f'));
    assert(mark("output_format"@) == (13nat, 'o'));
    assert(mark("max_reference_chars"@) == (19nat, 'm'));
    assert(mark("max_tokens"@) == (10nat, 'm'));
    assert(mark("debug"@) == (5nat, 'd'));
    assert forall|p: Provider| dotless(#[trigger] provider_spec(p).name) && provider_spec(p).name.len() > 0 by {
        match p {
            Provider::OpenAI => {
                assert(provider_spec(p).name == "openai"@);
            },
            Provider::Groq => {
                assert(provider_spec(p).name == "groq"@);
            },
            Provider::Azure => {
                assert(provider_spec(p).name == "azure"@);
            },
            Provider::Ollama => {
                assert(provider_spec(p).name == "ollama"@);
            },
            Provider::Mistral => {
                assert(provider_spec(p).name == "mistral"@);
            },
        }
    }
    let gs = global_settings();
    assert forall|p: Provider, i: int| 0 <= i < gs.len() implies (#[trigger] provider_spec(p)).name != (
    #[trigger] gs[i]).name by {
        assert(mark(provider_spec(p).name) != mark(gs[i].name)) by {
            match p {
                Provider::OpenAI => {
                    assert(provider_spec(p).name == "openai"@);
                },
                Provider::Groq => {
                    assert(provider_spec(p).name == "groq"@);
                },
                Provider::Azure => {
                    assert(provider_spec(p).name == "azure"@);
                },
                Provider::Ollama => {
                    assert(provider_spec(p).name == "ollama"@);
                },
                Provider::Mistral => {
                    assert(provider_spec(p).name == "mistral"@);
                },
            }
            if i == 0 {
                assert(gs[i].name == "provider"@);
            }
            if i == 1 {
                assert(gs[i].name == "model"@);
            }
            if i == 2 {
                assert(gs[i].name == "temperature"@);
            }
            if i == 3 {
                assert(gs[i].name == "suggestion_count"@);
            }
            if i == 4 {
                assert(gs[i].name == "skip_confirm"@);
            }
            if i == 5 {
                assert(gs[i].name == "frontend"@);
            }
            if i == 6 {
                assert(gs[i].name == "output_format"@);
            }
            if i == 7 {
                assert(gs[i].name == "max_reference_chars"@);
            }
            if i == 8 {
                assert(gs[i].name == "max_tokens"@);
            }
            if i == 9 {
                assert(gs[i].name == "debug"@);
            }
        }
    }
}

/// The components of two texts with a dot between them are the components
/// of the one followed by the components of the other.
pub proof fn lemma_split_concat(a: Seq<char>, b: Seq<char>)
    ensures
        split_dots(a + seq!['.'] + b) == split_dots(a) + split_dots(b),
    decreases b.len(),
{
    let s = a + seq!['.'] + b;
    crate::text::lemma_split_dots_shape(a);
    if b.len() == 0 {
        assert(s.drop_last() =~= a);
        assert(s.last() == '.');
        assert(split_dots(s) =~= split_dots(a) + split_dots(b));
    } else {
        let shorter = b.drop_last();
        lemma_split_concat(a, shorter);
        crate::text::lemma_split_dots_shape(shorter);
        assert(s.drop_last() =~= a + seq!['.'] + shorter);
        assert(s.last() == b.last());
        assert(split_dots(s) =~= split_dots(a) + split_dots(b));
    }
}

/// The names of the providers differ from each other.
pub proof fn lemma_provider_names_differ(p: Provider, q: Provider)
    requires
        p != q,
    ensures
        provider_spec(p).name != provider_spec(q).name,
{
    reveal_strlit("openai");
    reveal_strlit("groq");
    reveal_strlit("azure");
    reveal_strlit("ollama");
    reveal_strlit("mistral");
    assert("openai"@.len() == 6 && "openai"@[1] == 'p');
    assert("groq"@.len() == 4);
    assert("azure"@.len() == 5);
    assert("ollama"@.len() == 6 && "ollama"@[1] == 'l');
    assert("mistral"@.len() == 7);
}

} // verus!
