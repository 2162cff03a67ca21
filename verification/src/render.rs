//! How a piece of an explanation is shown: which text stands for the piece
//! of the command, and how the line is put together.

use crate::hints::opt_str;
use crate::layers::opt_view;
use crate::text::concat3;
use crate::text::contains_text;
use crate::text::has_part;
use crate::text::owned;
use vstd::prelude::*;

verus! {

/// What `serde_json::from_str` makes of a text when a `String` is asked
/// for: the string that the text spells as a JSON string, or nothing
/// where the text spells none.
pub uninterp spec fn json_string(text: Seq<char>) -> Option<Seq<char>>;

/// Calls `serde_json::from_str` for a `String`; an error is handed out as
/// nothing. The result is what this crate refers to as [`json_string`],
/// without spelling out the rules of JSON strings.
#[verifier::external_body]
fn parse_json_string(text: &str) -> (r: Option<String>)
    ensures
        opt_view(r) == json_string(text@),
{
    serde_json::from_str::<String>(text).ok()
}

/// The text that stands for a piece of the command `command`: the piece as
/// the model gave it where the command holds it; else the piece decoded
/// once more, where there is such a text and the command holds that; else
/// the piece as the model gave it.
pub open spec fn chosen_segment(
    command: Seq<char>,
    segment: Seq<char>,
    decoded: Option<Seq<char>>,
) -> Seq<char> {
    if has_part(command, segment) {
        segment
    } else {
        match decoded {
            Some(d) => if has_part(command, d) {
                d
            } else {
                segment
            },
            None => segment,
        }
    }
}

/// Chooses the text that stands for a piece of the command, given the
/// piece decoded once more; see [`chosen_segment`].
pub fn choose_segment(command: &str, segment: &str, decoded: Option<&str>) -> (r: String)
    ensures
        r@ == chosen_segment(command@, segment@, opt_str(decoded)),
{
    if contains_text(command, segment) {
        owned(segment)
    } else {
        match decoded {
            Some(d) => if contains_text(command, d) {
                owned(d)
            } else {
                owned(segment)
            },
            None => owned(segment),
        }
    }
}

/// The text that stands for a piece of the command: a model may escape a
/// piece twice, so a piece that the command does not hold is read once
/// more as the inside of a JSON string. See [`chosen_segment`].
pub open spec fn shown_segment(command: Seq<char>, segment: Seq<char>) -> Seq<char> {
    chosen_segment(command, segment, json_string("\""@ + segment + "\""@))
}

/// Finds the text that stands for a piece of the command; see
/// [`shown_segment`].
pub fn segment_to_show(command: &str, segment: &str) -> (r: String)
    ensures
        r@ == shown_segment(command@, segment@),
{
    if contains_text(command, segment) {
        owned(segment)
    } else {
        let quoted = concat3("\"", segment, "\"");
        let decoded = parse_json_string(quoted.as_str());
        match decoded {
            Some(d) => choose_segment(command, segment, Some(d.as_str())),
            None => choose_segment(command, segment, None),
        }
    }
}

/// `n` times two blanks.
pub open spec fn indentation(n: nat) -> Seq<char>
    decreases n,
{
    if n == 0 {
        Seq::empty()
    } else {
        indentation((n - 1) as nat) + "  "@
    }
}

/// A text that is given and not empty, with `before` and `after` around
/// it; nothing otherwise.
pub open spec fn framed(before: Seq<char>, text: Option<Seq<char>>, after: Seq<char>) -> Seq<char> {
    match text {
        Some(t) => if t.len() > 0 {
            before + t + after
        } else {
            Seq::empty()
        },
        None => Seq::empty(),
    }
}

/// A line of an explanation: the indentation, a bullet, the words before
/// the piece where there are any, the piece, and the words after it where
/// there are any, with single blanks between them.
pub open spec fn explanation_line(
    indent: nat,
    prefix: Option<Seq<char>>,
    segment: Seq<char>,
    suffix: Option<Seq<char>>,
) -> Seq<char> {
    indentation(indent) + "• "@ + framed(Seq::empty(), prefix, " "@) + segment + framed(
        " "@,
        suffix,
        Seq::empty(),
    )
}

/// Puts a line of an explanation together; see [`explanation_line`].
pub fn render_line(indent: usize, prefix: Option<&str>, segment: &str, suffix: Option<&str>) -> (r:
    String)
    ensures
        r@ == explanation_line(indent as nat, opt_str(prefix), segment@, opt_str(suffix)),
{
    let mut r = String::new();
    let mut i: usize = 0;
    while i < indent
        invariant
            i <= indent,
            r@ == indentation(i as nat),
        decreases indent - i,
    {
        r.push_str("  ");
        i = i + 1;
    }
    r.push_str("• ");
    let ghost head = r@;
    match prefix {
        Some(p) => {
            let chars = crate::text::chars_of(p);
            if chars.len() > 0 {
                r.push_str(p);
                r.push_str(" ");
            }
        },
        None => {},
    }
    proof {
        assert(r@ =~= head + framed(Seq::empty(), opt_str(prefix), " "@));
    }
    r.push_str(segment);
    let ghost middle = r@;
    match suffix {
        Some(s) => {
            let chars = crate::text::chars_of(s);
            if chars.len() > 0 {
                r.push_str(" ");
                r.push_str(s);
            }
        },
        None => {},
    }
    proof {
        assert(r@ =~= middle + framed(" "@, opt_str(suffix), Seq::empty()));
    }
    r
}

} // verus!
