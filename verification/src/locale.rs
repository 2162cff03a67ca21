//! The language in which the model is asked to answer.

use crate::layers::Environment;
use crate::text::owned;
use crate::text::pieces;
use crate::text::split_on;
use vstd::prelude::*;

verus! {

/// The language that the value of a locale variable names: what stands
/// before its first dot.
pub open spec fn language_of(value: Seq<char>) -> Seq<char> {
    pieces(value, '.')[0]
}

/// Whether the value of a locale variable names a language: `C` and `POSIX`
/// name none, nor does a value that begins with a dot or is empty.
pub open spec fn names_language(value: Seq<char>) -> bool {
    let language = language_of(value);
    language.len() > 0 && language != "C"@ && language != "POSIX"@
}

/// The language of the first of the variables `names` that is set to a
/// value that names one.
pub open spec fn language_in(env: Map<Seq<char>, Seq<char>>, names: Seq<Seq<char>>) -> Option<
    Seq<char>,
>
    decreases names.len(),
{
    if names.len() == 0 {
        None
    } else if env.contains_key(names[0]) && names_language(env[names[0]]) {
        Some(language_of(env[names[0]]))
    } else {
        language_in(env, names.skip(1))
    }
}

/// The language to answer in: the one that is asked for, unless it is
/// empty, which asks for none; where nothing is asked for, the language of
/// `LC_ALL`, `LC_MESSAGES` or `LANG`, whichever names one first.
pub open spec fn locale_for(requested: Option<Seq<char>>, env: Map<Seq<char>, Seq<char>>) -> Option<
    Seq<char>,
> {
    match requested {
        Some(locale) => if locale.len() == 0 {
            None
        } else {
            Some(locale)
        },
        None => language_in(env, seq!["LC_ALL"@, "LC_MESSAGES"@, "LANG"@]),
    }
}

/// The language that the variable `name` names, if it names one.
fn language_from(env: &Environment, name: &str) -> (r: Option<String>)
    ensures
        match r {
            Some(language) => env@.contains_key(name@) && names_language(env@[name@])
                && language@ == language_of(env@[name@]),
            None => !(env@.contains_key(name@) && names_language(env@[name@])),
        },
{
    match env.var(name) {
        None => None,
        Some(value) => {
            let mut parts = split_on(value, '.');
            let language = parts.swap_remove(0);
            if language.as_str().eq("") || language.as_str().eq("C") || language.as_str().eq(
                "POSIX",
            ) {
                proof {
                    assert(language@.len() == 0 <==> language@ == ""@) by {
                        reveal_strlit("");
                        assert(language@.len() == 0 ==> language@ =~= ""@);
                    }
                }
                None
            } else {
                proof {
                    reveal_strlit("");
                    assert(language@.len() == 0 ==> language@ =~= ""@);
                }
                Some(language)
            }
        },
    }
}

/// Picks the language to answer in; see [`locale_for`].
pub fn resolve_locale(requested: Option<&str>, env: &Environment) -> (r: Option<String>)
    ensures
        crate::layers::opt_view(r) == locale_for(crate::hints::opt_str(requested), env@),
{
    match requested {
        Some(locale) => {
            if locale.eq("") {
                proof {
                    reveal_strlit("");
                }
                None
            } else {
                proof {
                    reveal_strlit("");
                    assert(locale@.len() == 0 ==> locale@ =~= ""@);
                }
                Some(owned(locale))
            }
        },
        None => {
            let ghost names = seq!["LC_ALL"@, "LC_MESSAGES"@, "LANG"@];
            proof {
                assert(names.skip(1) =~= seq!["LC_MESSAGES"@, "LANG"@]);
                assert(names.skip(1).skip(1) =~= seq!["LANG"@]);
                assert(names.skip(1).skip(1).skip(1) =~= Seq::<Seq<char>>::empty());
                reveal_with_fuel(language_in, 4);
            }
            match language_from(env, "LC_ALL") {
                Some(language) => Some(language),
                None => match language_from(env, "LC_MESSAGES") {
                    Some(language) => Some(language),
                    None => language_from(env, "LANG"),
                },
            }
        },
    }
}

} // verus!
