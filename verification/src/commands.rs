//! Finding the names of the commands in a line of shell.

use crate::literal::all_digits;
use crate::literal::digit_of;
use crate::text::begins_with;
use crate::text::chars_of;
use crate::text::has_part;
use crate::text::is_white;
use crate::text::contains_text;
use crate::text::starts_with;
use crate::text::trim;
use crate::text::trimmed;
use crate::text::views;
use vstd::prelude::*;

verus! {

/// The words of a text: its longest runs of characters that are no white
/// space, in order. A text of nothing but white space has no words.
pub open spec fn words_of(s: Seq<char>) -> Seq<Seq<char>>
    decreases s.len(),
{
    if s.len() == 0 {
        Seq::empty()
    } else {
        let before = words_of(s.drop_last());
        if is_white(s.last()) {
            before
        } else if s.len() >= 2 && !is_white(s[s.len() - 2]) && before.len() > 0 {
            before.update(before.len() - 1, before.last().push(s.last()))
        } else {
            before.push(seq![s.last()])
        }
    }
}

/// Splits a text into its words, as `str::split_whitespace` gives them;
/// see [`words_of`].
pub fn split_whitespace(s: &str) -> (r: Vec<String>)
    ensures
        views(r@) == words_of(s@),
{
    let chars = chars_of(s);
    let mut parts: Vec<String> = Vec::new();
    let mut cur = String::new();
    let mut in_word = false;
    let mut i: usize = 0;
    proof {
        assert(chars@.take(0) =~= Seq::<char>::empty());
        assert(views(parts@) =~= Seq::<Seq<char>>::empty());
    }
    while i < chars.len()
        invariant
            i <= chars.len(),
            chars@ == s@,
            in_word <==> (i > 0 && !is_white(chars@[i as int - 1])),
            in_word ==> words_of(chars@.take(i as int)) == views(parts@).push(cur@),
            !in_word ==> words_of(chars@.take(i as int)) == views(parts@),
        decreases chars.len() - i,
    {
        let c = chars[i];
        let ghost before = words_of(chars@.take(i as int));
        let ghost done = views(parts@);
        proof {
            let next = chars@.take(i as int + 1);
            assert(next.drop_last() =~= chars@.take(i as int));
            assert(next.last() == c);
            if i > 0 {
                assert(next[next.len() - 2] == chars@[i as int - 1]);
            }
        }
        if crate::text::is_white_space(c) {
            if in_word {
                parts.push(cur);
                cur = String::new();
                proof {
                    assert(views(parts@) =~= before);
                }
            }
            in_word = false;
        } else if in_word {
            let ghost word = cur@;
            cur.push(c);
            proof {
                assert(before.len() > 0);
                assert(before.last() == word);
                assert(views(parts@).push(cur@) =~= before.update(
                    before.len() - 1,
                    before.last().push(c),
                ));
            }
        } else {
            cur = String::new();
            cur.push(c);
            in_word = true;
            proof {
                assert(cur@ =~= seq![c]);
                assert(views(parts@).push(cur@) =~= before.push(seq![c]));
            }
        }
        i = i + 1;
    }
    proof {
        assert(chars@.take(chars@.len() as int) =~= chars@);
    }
    if in_word {
        let ghost before = views(parts@).push(cur@);
        parts.push(cur);
        proof {
            assert(views(parts@) =~= before);
        }
    }
    parts
}

/// Whether a character ends a command in a line of shell.
pub open spec fn is_separator(c: char) -> bool {
    c == '|' || c == '&' || c == ';' || c == '(' || c == ')' || c == '`' || c == '\n'
}

/// The segments of a line of shell between the characters that end a
/// command, empty segments included.
pub open spec fn segments_of(s: Seq<char>) -> Seq<Seq<char>>
    decreases s.len(),
{
    if s.len() == 0 {
        seq![Seq::<char>::empty()]
    } else {
        let rest = segments_of(s.drop_last());
        if is_separator(s.last()) {
            rest.push(Seq::<char>::empty())
        } else {
            rest.update(rest.len() - 1, rest.last().push(s.last()))
        }
    }
}

/// There is always at least one segment.
pub proof fn lemma_segments_len(s: Seq<char>)
    ensures
        segments_of(s).len() >= 1,
    decreases s.len(),
{
    if s.len() > 0 {
        lemma_segments_len(s.drop_last());
    }
}

fn separator(c: char) -> (r: bool)
    ensures
        r == is_separator(c),
{
    c == '|' || c == '&' || c == ';' || c == '(' || c == ')' || c == '`' || c == '\n'
}

/// Splits a line of shell into its segments.
pub fn split_segments(s: &str) -> (parts: Vec<String>)
    ensures
        views(parts@) == segments_of(s@),
{
    let chars = chars_of(s);
    let mut parts: Vec<String> = Vec::new();
    let mut cur = String::new();
    let mut i: usize = 0;
    proof {
        assert(chars@.take(0) =~= Seq::<char>::empty());
        assert(views(parts@).push(cur@) =~= segments_of(chars@.take(0)));
    }
    while i < chars.len()
        invariant
            i <= chars.len(),
            chars@ == s@,
            views(parts@).push(cur@) == segments_of(chars@.take(i as int)),
        decreases chars.len() - i,
    {
        let c = chars[i];
        proof {
            let next = chars@.take(i + 1);
            assert(next.drop_last() =~= chars@.take(i as int));
            assert(next.last() == c);
            lemma_segments_len(chars@.take(i as int));
        }
        let ghost before = views(parts@).push(cur@);
        if separator(c) {
            parts.push(cur);
            cur = String::new();
            proof {
                assert(views(parts@) =~= before);
            }
        } else {
            cur.push(c);
            proof {
                assert(views(parts@).push(cur@) =~= before.update(
                    before.len() - 1,
                    before.last().push(c),
                ));
            }
        }
        i = i + 1;
    }
    proof {
        assert(chars@.take(chars@.len() as int) =~= chars@);
    }
    let ghost before = views(parts@).push(cur@);
    parts.push(cur);
    proof {
        assert(views(parts@) =~= before);
    }
    parts
}

/// A word without the `./` at its beginning, however often it is repeated.
pub open spec fn without_dot_slashes(word: Seq<char>) -> Seq<char>
    decreases word.len(),
{
    if begins_with(word, "./"@) && "./"@.len() == 2 {
        without_dot_slashes(word.skip(2))
    } else {
        word
    }
}

/// Whether a word is passed over in the search for a command: an
/// assignment, a redirection, or a number.
pub open spec fn is_passed_over(word: Seq<char>) -> bool {
    ||| (has_part(word, "="@) && !begins_with(word, "-"@))
    ||| begins_with(word, "<"@)
    ||| begins_with(word, ">"@)
    ||| all_digits(word)
}

/// The command that a word names, if it names one: the word without `./`
/// at its beginning, unless the word is passed over, or nothing or an
/// option is left.
pub open spec fn command_in(word: Seq<char>) -> Option<Seq<char>> {
    let cmd = without_dot_slashes(word);
    if is_passed_over(word) || cmd.len() == 0 || begins_with(cmd, "-"@) {
        None
    } else {
        Some(cmd)
    }
}

/// The command of the first word that names one.
pub open spec fn first_command(words: Seq<Seq<char>>) -> Option<Seq<char>>
    decreases words.len(),
{
    if words.len() == 0 {
        None
    } else {
        match command_in(words[0]) {
            Some(c) => Some(c),
            None => first_command(words.drop_first()),
        }
    }
}

/// The command of a segment: that of its first word that names one. An
/// empty segment has none, nor has one that begins with a dollar sign.
pub open spec fn command_of(segment: Seq<char>) -> Option<Seq<char>> {
    let t = trimmed(segment);
    if t.len() == 0 || begins_with(t, "$"@) {
        None
    } else {
        first_command(words_of(t))
    }
}

/// The commands of the segments `segments`, in order, each named once: a
/// command that was named before is not named again.
pub open spec fn commands_of(segments: Seq<Seq<char>>) -> Seq<Seq<char>>
    decreases segments.len(),
{
    if segments.len() == 0 {
        Seq::empty()
    } else {
        let head = commands_of(segments.drop_last());
        match command_of(segments.last()) {
            Some(c) => if head.contains(c) {
                head
            } else {
                head.push(c)
            },
            None => head,
        }
    }
}

fn digits_only(chars: &Vec<char>) -> (r: bool)
    ensures
        r == all_digits(chars@),
{
    let mut i: usize = 0;
    while i < chars.len()
        invariant
            i <= chars.len(),
            forall|j: int| 0 <= j < i ==> crate::literal::is_digit(#[trigger] chars@[j]),
        decreases chars.len() - i,
    {
        if digit_of(chars[i]).is_none() {
            return false;
        }
        i = i + 1;
    }
    true
}

fn strip_dot_slashes(word: &str) -> (r: String)
    ensures
        r@ == without_dot_slashes(word@),
{
    let chars = chars_of(word);
    proof {
        reveal_strlit("./");
    }
    let mut from: usize = 0;
    proof {
        assert(chars@.skip(0) =~= chars@);
    }
    while chars.len() - from >= 2 && chars[from] == '.' && chars[from + 1] == '/'
        invariant
            from <= chars.len(),
            chars@ == word@,
            "./"@.len() == 2,
            "./"@[0] == '.',
            "./"@[1] == '/',
            without_dot_slashes(chars@.skip(from as int)) == without_dot_slashes(word@),
        decreases chars.len() - from,
    {
        proof {
            let rest = chars@.skip(from as int);
            assert(rest.take(2) =~= "./"@);
            assert(rest.skip(2) =~= chars@.skip(from as int + 2));
        }
        from = from + 2;
    }
    proof {
        let rest = chars@.skip(from as int);
        if begins_with(rest, "./"@) {
            assert(rest.take(2)[0] == '.');
            assert(rest.take(2)[1] == '/');
        }
    }
    let r = crate::text::text_of_range(&chars, from, chars.len());
    proof {
        assert(r@ =~= chars@.skip(from as int));
    }
    r
}

/// The command that a word names, if it names one; see [`command_in`].
pub fn command_in_word(word: &str) -> (r: Option<String>)
    ensures
        crate::layers::opt_view(r) == command_in(word@),
{
    if contains_text(word, "=") && !starts_with(word, "-") {
        return None;
    }
    if starts_with(word, "<") || starts_with(word, ">") {
        return None;
    }
    let chars = chars_of(word);
    if digits_only(&chars) {
        return None;
    }
    let cmd = strip_dot_slashes(word);
    if !cmd.as_str().is_empty() && !starts_with(cmd.as_str(), "-") {
        Some(cmd)
    } else {
        None
    }
}

/// The command of the first of the words that names one; see
/// [`first_command`].
pub fn first_command_in(words: &Vec<String>) -> (r: Option<String>)
    ensures
        crate::layers::opt_view(r) == first_command(views(words@)),
{
    let ghost all = views(words@);
    let mut i: usize = 0;
    proof {
        assert(all.skip(0) =~= all);
    }
    while i < words.len()
        invariant
            i <= words.len(),
            all == views(words@),
            first_command(all.skip(i as int)) == first_command(all),
        decreases words.len() - i,
    {
        proof {
            assert(all.skip(i as int)[0] == words@[i as int]@);
            assert(all.skip(i as int).drop_first() =~= all.skip(i as int + 1));
        }
        match command_in_word(words[i].as_str()) {
            Some(c) => {
                return Some(c);
            },
            None => {},
        }
        i = i + 1;
    }
    proof {
        assert(all.skip(words@.len() as int).len() == 0);
    }
    None
}

/// Whether a segment, trimmed, is one that names no command: an empty one,
/// or one that begins with a dollar sign.
pub fn names_no_command(trimmed_segment: &str) -> (r: bool)
    ensures
        r == (trimmed_segment@.len() == 0 || begins_with(trimmed_segment@, "$"@)),
{
    let chars = chars_of(trimmed_segment);
    chars.len() == 0 || starts_with(trimmed_segment, "$")
}

fn command_of_segment(segment: &str) -> (r: Option<String>)
    ensures
        crate::layers::opt_view(r) == command_of(segment@),
{
    let t = trim(segment);
    if names_no_command(t.as_str()) {
        return None;
    }
    let words = split_whitespace(t.as_str());
    first_command_in(&words)
}

fn has_name(names: &Vec<String>, name: &str) -> (r: bool)
    ensures
        r == views(names@).contains(name@),
{
    let mut i: usize = 0;
    while i < names.len()
        invariant
            i <= names.len(),
            forall|j: int| 0 <= j < i ==> views(names@)[j] != name@,
        decreases names.len() - i,
    {
        if names[i].as_str().eq(name) {
            assert(views(names@)[i as int] == name@);
            return true;
        }
        i = i + 1;
    }
    false
}

/// The commands named so far with one more that may have been found: a
/// command that was named before is not named again.
pub open spec fn with_command(commands: Seq<Seq<char>>, found: Option<Seq<char>>) -> Seq<Seq<char>> {
    match found {
        Some(c) => if commands.contains(c) {
            commands
        } else {
            commands.push(c)
        },
        None => commands,
    }
}

/// Adds a command that may have been found to the commands named so far;
/// see [`with_command`].
pub fn add_command(commands: &mut Vec<String>, found: Option<String>)
    ensures
        views(final(commands)@) == with_command(views(old(commands)@), crate::layers::opt_view(found)),
{
    match found {
        Some(c) => {
            if !has_name(commands, c.as_str()) {
                let ghost before = views(commands@);
                commands.push(c);
                proof {
                    assert(views(commands@) =~= before.push(c@));
                }
            }
        },
        None => {},
    }
}

/// The names of the commands in a line of shell: for every segment between
/// pipes, semicolons and the like, the first word that can be a command,
/// each name once, in the order in which they come.
pub fn extract_command_names(shell_cmd: &str) -> (r: Vec<String>)
    ensures
        views(r@) == commands_of(segments_of(shell_cmd@)),
{
    let segments = split_segments(shell_cmd);
    let ghost all = views(segments@);
    let mut commands: Vec<String> = Vec::new();
    let mut i: usize = 0;
    proof {
        assert(all.take(0) =~= Seq::<Seq<char>>::empty());
        assert(views(commands@) =~= Seq::<Seq<char>>::empty());
    }
    while i < segments.len()
        invariant
            i <= segments.len(),
            all == views(segments@),
            views(commands@) == commands_of(all.take(i as int)),
        decreases segments.len() - i,
    {
        proof {
            let next = all.take(i as int + 1);
            assert(next.drop_last() =~= all.take(i as int));
            assert(next.last() == segments@[i as int]@);
        }
        let found = command_of_segment(segments[i].as_str());
        add_command(&mut commands, found);
        i = i + 1;
    }
    proof {
        assert(all.take(segments@.len() as int) =~= all);
    }
    commands
}

} // verus!
