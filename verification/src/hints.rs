//! Saying where a value came from in the user's own terms: the flag, the
//! variable or the file to look at.

use crate::builder::ConfigBuilder;
use crate::builder::Merged;
use crate::catalog::env_var_for;
use crate::catalog::env_var_for_field;
use crate::decode::DecodeError;
use crate::decode::Failure;
use crate::source::ConfigSource;
use crate::text::chars_of;
use crate::text::matches_at;
use crate::text::occurs_at;
use crate::text::owned;
use crate::text::text_of_range;
use crate::text::to_uppercase;
use crate::text::raised;
use vstd::prelude::*;

verus! {

/// A dotted path with every dot turned into a hyphen.
pub open spec fn dashed(path: Seq<char>) -> Seq<char> {
    path.map_values(
        |c: char|
            if c == '.' {
                '-'
            } else {
                c
            },
    )
}

/// The origin of the value at `path` as the user knows it. A flag is the
/// path with hyphens behind two dashes. A variable is the one that was
/// recorded for the path, else the one that the catalogue names for it, else
/// the path in upper case. A file is its fixed name, and a default is the
/// word `default`.
pub open spec fn origin(source: ConfigSource, path: Seq<char>, actual: Option<Seq<char>>) -> Seq<
    char,
> {
    match source {
        ConfigSource::Cli => "--"@ + dashed(path),
        ConfigSource::Environment => match actual {
            Some(v) => v,
            None => match env_var_for(path) {
                Some(v) => v,
                None => raised(path),
            },
        },
        ConfigSource::JsonFile => "config.json"@,
        ConfigSource::TomlFile => "config.toml"@,
        ConfigSource::Default => "default"@,
    }
}

/// The view of an optional string slice.
pub open spec fn opt_str(o: Option<&str>) -> Option<Seq<char>> {
    match o {
        Some(s) => Some(s@),
        None => None,
    }
}

/// Names the origin of the value at `field_path`; see [`origin`].
pub fn source_to_hint(source: ConfigSource, field_path: &str, actual_env_var: Option<&str>) -> (r:
    String)
    ensures
        r@ == origin(source, field_path@, opt_str(actual_env_var)),
{
    match source {
        ConfigSource::Cli => {
            let chars = chars_of(field_path);
            let mut r = owned("--");
            let ghost head = r@;
            let mut i: usize = 0;
            while i < chars.len()
                invariant
                    i <= chars.len(),
                    chars@ == field_path@,
                    r@ == head + dashed(chars@.take(i as int)),
                decreases chars.len() - i,
            {
                let c = chars[i];
                proof {
                    assert(dashed(chars@.take(i as int + 1)) =~= dashed(chars@.take(i as int)).push(
                        if c == '.' {
                            '-'
                        } else {
                            c
                        },
                    ));
                }
                if c == '.' {
                    r.push('-');
                } else {
                    r.push(c);
                }
                proof {
                    assert(r@ =~= head + dashed(chars@.take(i as int + 1)));
                }
                i = i + 1;
            }
            proof {
                assert(chars@.take(chars@.len() as int) =~= chars@);
            }
            r
        },
        ConfigSource::Environment => match actual_env_var {
            Some(v) => owned(v),
            None => match env_var_for_field(field_path) {
                Some(v) => owned(v),
                None => to_uppercase(field_path),
            },
        },
        ConfigSource::JsonFile => owned("config.json"),
        ConfigSource::TomlFile => owned("config.toml"),
        ConfigSource::Default => owned("default"),
    }
}

/// The words that open the place of an error in a document.
pub open spec fn location_marker() -> Seq<char> {
    " at line "@
}

/// Whether `r` is `msg` without its place: cut before the last ` at line `,
/// or whole where `msg` has none.
pub open spec fn is_stripped(msg: Seq<char>, r: Seq<char>) -> bool {
    ||| (r == msg && forall|i: int| !occurs_at(msg, location_marker(), i))
    ||| exists|i: int|
        {
            &&& #[trigger] occurs_at(msg, location_marker(), i)
            &&& forall|j: int| i < j ==> !occurs_at(msg, location_marker(), j)
            &&& r == msg.take(i)
        }
}

/// A message has one stripped form.
pub proof fn lemma_stripped_unique(msg: Seq<char>, a: Seq<char>, b: Seq<char>)
    requires
        is_stripped(msg, a),
        is_stripped(msg, b),
    ensures
        a == b,
{
    let m = location_marker();
    if exists|i: int| occurs_at(msg, m, i) {
        let i = choose|i: int|
            {
                &&& #[trigger] occurs_at(msg, m, i)
                &&& forall|j: int| i < j ==> !occurs_at(msg, m, j)
                &&& a == msg.take(i)
            };
        let k = choose|k: int|
            {
                &&& #[trigger] occurs_at(msg, m, k)
                &&& forall|j: int| k < j ==> !occurs_at(msg, m, j)
                &&& b == msg.take(k)
            };
        if i < k {
            assert(!occurs_at(msg, m, k));
        } else if k < i {
            assert(!occurs_at(msg, m, i));
        }
    }
}

/// A message without its place; see [`is_stripped`].
pub open spec fn stripped(msg: Seq<char>) -> Seq<char> {
    choose|r: Seq<char>| is_stripped(msg, r)
}

/// Takes the place of an error out of a message; see [`is_stripped`].
pub fn strip_json_location(msg: String) -> (r: String)
    ensures
        is_stripped(msg@, r@),
        r@ == stripped(msg@),
{
    let r = strip_marker(msg);
    proof {
        lemma_stripped_unique(msg@, r@, stripped(msg@));
    }
    r
}

fn strip_marker(msg: String) -> (r: String)
    ensures
        is_stripped(msg@, r@),
{
    let chars = chars_of(msg.as_str());
    let pat = chars_of(" at line ");
    proof {
        reveal_strlit(" at line ");
        assert(pat@.len() == 9);
    }
    if pat.len() > chars.len() {
        proof {
            assert forall|i: int| !occurs_at(msg@, location_marker(), i) by {}
        }
        return msg;
    }
    let mut i: usize = chars.len() - pat.len() + 1;
    while i > 0
        invariant
            chars@ == msg@,
            pat@ == location_marker(),
            pat.len() <= chars.len(),
            i <= chars.len() - pat.len() + 1,
            forall|j: int| i <= j ==> !occurs_at(chars@, pat@, j),
        decreases i,
    {
        i = i - 1;
        if matches_at(&chars, &pat, i) {
            let r = text_of_range(&chars, 0, i);
            proof {
                assert(r@ =~= msg@.take(i as int));
                assert(occurs_at(msg@, location_marker(), i as int));
            }
            return r;
        }
    }
    msg
}

/// The one-line report of a value that could not be decoded: the origin of
/// the value, a colon, and what is wrong with it, the place in the document
/// left out. A failure without a path is reported by its message alone.
pub open spec fn report(m: Merged, f: Failure) -> Seq<char> {
    if f.path.len() == 0 {
        stripped(f.message)
    } else {
        origin(m.source_of(f.path), f.path, m.env_var_of(f.path)) + ": "@ + stripped(f.message)
    }
}

/// Reports a value that could not be decoded; see [`report`].
pub fn format_decode_error(err: DecodeError, builder: &ConfigBuilder) -> (r: String)
    ensures
        r@ == report(builder.model(), err@),
{
    let path = err.path;
    let inner = strip_json_location(err.message);
    if path.as_str().is_empty() {
        inner
    } else {
        let source = builder.get_source(path.as_str());
        let mut r = source_to_hint(source, path.as_str(), builder.get_env_var_used(path.as_str()));
        r.push_str(": ");
        r.push_str(inner.as_str());
        r
    }
}

/// A value with all but its last six characters hidden. An empty value and
/// the words `(not set)` are shown as they are; a value of six characters or
/// fewer is hidden whole.
pub open spec fn masked(value: Seq<char>) -> Seq<char> {
    if value.len() == 0 || value == "(not set)"@ {
        value
    } else if value.len() > 6 {
        "****"@ + value.subrange(value.len() - 6, value.len() as int)
    } else {
        "****"@
    }
}

/// Hides a sensitive value; see [`masked`].
pub fn mask_value(value: &str) -> (r: String)
    ensures
        r@ == masked(value@),
{
    if value.is_empty() || value.eq("(not set)") {
        return owned(value);
    }
    let chars = chars_of(value);
    if chars.len() > 6 {
        let tail = text_of_range(&chars, chars.len() - 6, chars.len());
        let mut r = owned("****");
        r.push_str(tail.as_str());
        r
    } else {
        owned("****")
    }
}

} // verus!
