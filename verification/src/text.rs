//! Strings viewed as sequences of characters, and the few operations on them
//! that the rest of the crate needs.

use vstd::prelude::*;

verus! {

/// `String::push` appends one character to the end of the string.
pub assume_specification[ String::push ](s: &mut String, c: char)
    ensures
        final(s)@ == old(s)@.push(c),
;

/// `String::push_str` appends the whole slice to the end of the string.
pub assume_specification[ String::push_str ](s: &mut String, t: &str)
    ensures
        final(s)@ == old(s)@ + t@,
;

/// `str::eq` (the `==` of string slices, from `PartialEq`) holds exactly when
/// the two slices spell the same characters.
pub assume_specification[ <str as PartialEq<str>>::eq ](a: &str, b: &str) -> (r: bool)
    ensures
        r == (a@ == b@),
;

/// What `str::to_lowercase` returns for a given text (Unicode lower-casing).
pub uninterp spec fn lowercase(s: Seq<char>) -> Seq<char>;

/// What `str::to_uppercase` returns for a given text (Unicode upper-casing).
pub uninterp spec fn uppercase(s: Seq<char>) -> Seq<char>;

/// Calls `str::to_lowercase`; the result is the Unicode lower-casing of `s`,
/// which this crate refers to as [`lowercase`] without spelling it out.
#[verifier::external_body]
fn unicode_lowercase(s: &str) -> (r: String)
    ensures
        r@ == lowercase(s@),
{
    s.to_lowercase()
}

/// Calls `str::to_uppercase`; the result is the Unicode upper-casing of `s`,
/// which this crate refers to as [`uppercase`] without spelling it out.
#[verifier::external_body]
fn unicode_uppercase(s: &str) -> (r: String)
    ensures
        r@ == uppercase(s@),
{
    s.to_uppercase()
}

/// Whether a character is one of the 128 characters of ASCII.
pub open spec fn is_ascii_char(c: char) -> bool {
    (c as u32) < 128
}

/// Whether a text holds characters of ASCII only.
pub open spec fn all_ascii(s: Seq<char>) -> bool {
    forall|i: int| 0 <= i < s.len() ==> is_ascii_char(#[trigger] s[i])
}

/// A character of ASCII in lower case: a capital letter becomes the small
/// one, anything else stays.
pub open spec fn lower_char(c: char) -> char {
    if 'A' <= c && c <= 'Z' {
        ((c as u8 + 32) as u8) as char
    } else {
        c
    }
}

/// A character of ASCII in upper case: a small letter becomes the capital
/// one, anything else stays.
pub open spec fn upper_char(c: char) -> char {
    if 'a' <= c && c <= 'z' {
        ((c as u8 - 32) as u8) as char
    } else {
        c
    }
}

/// A text in lower case. A text of ASCII has its capital letters replaced
/// by the small ones; any other text is lower-cased as Unicode has it.
pub open spec fn lowered(s: Seq<char>) -> Seq<char> {
    if all_ascii(s) {
        s.map_values(|c: char| lower_char(c))
    } else {
        lowercase(s)
    }
}

/// A text in upper case. A text of ASCII has its small letters replaced by
/// the capital ones; any other text is upper-cased as Unicode has it.
pub open spec fn raised(s: Seq<char>) -> Seq<char> {
    if all_ascii(s) {
        s.map_values(|c: char| upper_char(c))
    } else {
        uppercase(s)
    }
}

/// Tells whether a text holds characters of ASCII only.
fn only_ascii(chars: &Vec<char>) -> (r: bool)
    ensures
        r == all_ascii(chars@),
{
    let mut i: usize = 0;
    while i < chars.len()
        invariant
            i <= chars.len(),
            forall|j: int| 0 <= j < i ==> is_ascii_char(#[trigger] chars@[j]),
        decreases chars.len() - i,
    {
        if chars[i] as u32 >= 128 {
            return false;
        }
        i = i + 1;
    }
    true
}

/// Puts a text into lower case; see [`lowered`].
pub fn to_lowercase(s: &str) -> (r: String)
    ensures
        r@ == lowered(s@),
{
    let chars = chars_of(s);
    if !only_ascii(&chars) {
        return unicode_lowercase(s);
    }
    let mut r = String::new();
    let mut i: usize = 0;
    while i < chars.len()
        invariant
            i <= chars.len(),
            chars@ == s@,
            all_ascii(chars@),
            r@ == chars@.take(i as int).map_values(|c: char| lower_char(c)),
        decreases chars.len() - i,
    {
        let c = chars[i];
        let low = if 'A' <= c && c <= 'Z' {
            ((c as u8) + 32) as char
        } else {
            c
        };
        r.push(low);
        proof {
            assert(r@ =~= chars@.take(i as int + 1).map_values(|c: char| lower_char(c)));
        }
        i = i + 1;
    }
    proof {
        assert(chars@.take(chars@.len() as int) =~= chars@);
    }
    r
}

/// Puts a text into upper case; see [`raised`].
pub fn to_uppercase(s: &str) -> (r: String)
    ensures
        r@ == raised(s@),
{
    let chars = chars_of(s);
    if !only_ascii(&chars) {
        return unicode_uppercase(s);
    }
    let mut r = String::new();
    let mut i: usize = 0;
    while i < chars.len()
        invariant
            i <= chars.len(),
            chars@ == s@,
            all_ascii(chars@),
            r@ == chars@.take(i as int).map_values(|c: char| upper_char(c)),
        decreases chars.len() - i,
    {
        let c = chars[i];
        let up = if 'a' <= c && c <= 'z' {
            ((c as u8) - 32) as char
        } else {
            c
        };
        r.push(up);
        proof {
            assert(r@ =~= chars@.take(i as int + 1).map_values(|c: char| upper_char(c)));
        }
        i = i + 1;
    }
    proof {
        assert(chars@.take(chars@.len() as int) =~= chars@);
    }
    r
}

/// The characters of `s`, in order.
pub fn chars_of(s: &str) -> (v: Vec<char>)
    ensures
        v@ == s@,
{
    let mut v: Vec<char> = Vec::new();
    for c in it: s.chars()
        invariant
            v@ == it.seq().take(it.index() as int),
    {
        v.push(c);
    }
    v
}

/// The string spelled by `v[from..to]`.
pub fn text_of_range(v: &Vec<char>, from: usize, to: usize) -> (s: String)
    requires
        from <= to <= v.len(),
    ensures
        s@ == v@.subrange(from as int, to as int),
{
    let mut s = String::new();
    let mut i: usize = from;
    while i < to
        invariant
            from <= i <= to <= v.len(),
            s@ == v@.subrange(from as int, i as int),
        decreases to - i,
    {
        s.push(v[i]);
        i = i + 1;
    }
    s
}

/// The string spelled by `v`.
pub fn text_of(v: &Vec<char>) -> (s: String)
    ensures
        s@ == v@,
{
    let s = text_of_range(v, 0, v.len());
    assert(v@.subrange(0, v@.len() as int) == v@);
    s
}

/// An owned copy of `s`.
pub fn owned(s: &str) -> (r: String)
    ensures
        r@ == s@,
{
    let mut r = String::new();
    r.push_str(s);
    r
}

/// `a` followed by `b`.
pub fn concat2(a: &str, b: &str) -> (r: String)
    ensures
        r@ == a@ + b@,
{
    let mut r = String::new();
    r.push_str(a);
    r.push_str(b);
    r
}

/// `a`, `b` and `c` in a row.
pub fn concat3(a: &str, b: &str, c: &str) -> (r: String)
    ensures
        r@ == a@ + b@ + c@,
{
    let mut r = String::new();
    r.push_str(a);
    r.push_str(b);
    r.push_str(c);
    r
}

/// The views of a list of strings.
pub open spec fn views(parts: Seq<String>) -> Seq<Seq<char>> {
    parts.map_values(|p: String| p@)
}

/// The pieces of a text between the occurrences of `sep`, empty pieces
/// included. A text without `sep` is its own single piece.
pub open spec fn pieces(s: Seq<char>, sep: char) -> Seq<Seq<char>>
    decreases s.len(),
{
    if s.len() == 0 {
        seq![Seq::<char>::empty()]
    } else {
        let rest = pieces(s.drop_last(), sep);
        if s.last() == sep {
            rest.push(Seq::<char>::empty())
        } else {
            rest.update(rest.len() - 1, rest.last().push(s.last()))
        }
    }
}

/// There is always at least one piece.
pub proof fn lemma_pieces_len(s: Seq<char>, sep: char)
    ensures
        pieces(s, sep).len() >= 1,
    decreases s.len(),
{
    if s.len() > 0 {
        lemma_pieces_len(s.drop_last(), sep);
    }
}

/// Splits the characters `chars` at every `sep`.
pub fn split_chars(chars: &Vec<char>, sep: char) -> (parts: Vec<String>)
    ensures
        views(parts@) == pieces(chars@, sep),
        parts@.len() >= 1,
{
    let mut parts: Vec<String> = Vec::new();
    let mut cur = String::new();
    let mut i: usize = 0;
    proof {
        assert(chars@.take(0) =~= Seq::<char>::empty());
        assert(views(parts@).push(cur@) =~= pieces(chars@.take(0), sep));
    }
    while i < chars.len()
        invariant
            i <= chars.len(),
            views(parts@).push(cur@) == pieces(chars@.take(i as int), sep),
        decreases chars.len() - i,
    {
        let c = chars[i];
        proof {
            let next = chars@.take(i + 1);
            assert(next.drop_last() =~= chars@.take(i as int));
            assert(next.last() == c);
            lemma_pieces_len(chars@.take(i as int), sep);
        }
        let ghost before = views(parts@).push(cur@);
        if c == sep {
            parts.push(cur);
            cur = String::new();
            proof {
                assert(views(parts@) =~= before);
            }
        } else {
            cur.push(c);
            proof {
                assert(views(parts@).push(cur@) =~= before.update(
                    before.len() - 1,
                    before.last().push(c),
                ));
            }
        }
        i = i + 1;
    }
    proof {
        assert(chars@.take(chars@.len() as int) =~= chars@);
    }
    let ghost before = views(parts@).push(cur@);
    parts.push(cur);
    proof {
        assert(views(parts@) =~= before);
    }
    parts
}

/// Splits a text at every `sep`.
pub fn split_on(s: &str, sep: char) -> (parts: Vec<String>)
    ensures
        views(parts@) == pieces(s@, sep),
        parts@.len() >= 1,
{
    let chars = chars_of(s);
    split_chars(&chars, sep)
}

/// The components of a dotted path: the pieces between the dots, empty pieces
/// included. A text without a dot is its own single component.
pub open spec fn split_dots(s: Seq<char>) -> Seq<Seq<char>> {
    pieces(s, '.')
}

/// The components joined with single dots.
pub open spec fn join_dots(parts: Seq<Seq<char>>) -> Seq<char>
    decreases parts.len(),
{
    if parts.len() == 0 {
        Seq::<char>::empty()
    } else if parts.len() == 1 {
        parts[0]
    } else {
        join_dots(parts.drop_last()) + seq!['.'] + parts.last()
    }
}

/// A component is a text without a dot.
pub open spec fn dotless(s: Seq<char>) -> bool {
    forall|i: int| 0 <= i < s.len() ==> s[i] != '.'
}

/// Splitting always yields at least one component, and none holds a dot.
pub proof fn lemma_split_dots_shape(s: Seq<char>)
    ensures
        split_dots(s).len() >= 1,
        forall|k: int| 0 <= k < split_dots(s).len() ==> dotless(#[trigger] split_dots(s)[k]),
    decreases s.len(),
{
    if s.len() > 0 {
        lemma_split_dots_shape(s.drop_last());
    }
}

/// Joining the components of a text gives the text back.
pub proof fn law_join_undoes_split(s: Seq<char>)
    ensures
        join_dots(split_dots(s)) == s,
    decreases s.len(),
{
    if s.len() == 0 {
        assert(join_dots(split_dots(s)) =~= s);
    } else {
        let head = s.drop_last();
        let rest = split_dots(head);
        lemma_split_dots_shape(head);
        law_join_undoes_split(head);
        if s.last() == '.' {
            let parts = rest.push(Seq::<char>::empty());
            assert(parts.drop_last() =~= rest);
            assert(join_dots(parts) =~= join_dots(rest) + seq!['.'] + Seq::<char>::empty());
            assert(join_dots(parts) =~= s);
        } else {
            let parts = rest.update(rest.len() - 1, rest.last().push(s.last()));
            assert(s =~= head.push(s.last()));
            if rest.len() == 1 {
                assert(join_dots(parts) =~= s);
            } else {
                assert(parts.drop_last() =~= rest.drop_last());
                assert(join_dots(parts) =~= join_dots(rest.drop_last()) + seq!['.'] + rest.last().push(
                    s.last(),
                ));
                assert(join_dots(rest) =~= join_dots(rest.drop_last()) + seq!['.'] + rest.last());
                assert(join_dots(parts) =~= s);
            }
        }
    }
}

/// A text is determined by its components.
pub proof fn law_names_tell_paths_apart(a: Seq<char>, b: Seq<char>)
    requires
        split_dots(a) == split_dots(b),
    ensures
        a == b,
{
    law_join_undoes_split(a);
    law_join_undoes_split(b);
}


/// Splits a dotted path into its components.
pub fn split_path(path: &str) -> (parts: Vec<String>)
    ensures
        views(parts@) == split_dots(path@),
        parts@.len() >= 1,
{
    split_on(path, '.')
}

/// The texts in a row with `sep` between every two.
pub open spec fn joined(parts: Seq<Seq<char>>, sep: Seq<char>) -> Seq<char>
    decreases parts.len(),
{
    if parts.len() == 0 {
        Seq::<char>::empty()
    } else if parts.len() == 1 {
        parts[0]
    } else {
        joined(parts.drop_last(), sep) + sep + parts.last()
    }
}

/// The texts of a list of string slices.
pub open spec fn slices(parts: Seq<&str>) -> Seq<Seq<char>> {
    parts.map_values(|p: &str| p@)
}

/// Joins string slices with a separator.
pub fn join(parts: &Vec<&str>, sep: &str) -> (r: String)
    ensures
        r@ == joined(slices(parts@), sep@),
{
    let mut r = String::new();
    let mut i: usize = 0;
    proof {
        assert(slices(parts@).take(0) =~= Seq::<Seq<char>>::empty());
    }
    while i < parts.len()
        invariant
            i <= parts.len(),
            r@ == joined(slices(parts@).take(i as int), sep@),
        decreases parts.len() - i,
    {
        proof {
            let next = slices(parts@).take(i as int + 1);
            assert(next.drop_last() =~= slices(parts@).take(i as int));
            assert(next.last() == parts@[i as int]@);
        }
        if i > 0 {
            r.push_str(sep);
        }
        r.push_str(parts[i]);
        proof {
            if i == 0 {
                assert(r@ =~= parts@[0]@);
            }
        }
        i = i + 1;
    }
    proof {
        assert(slices(parts@).take(parts@.len() as int) =~= slices(parts@));
    }
    r
}

/// Whether `pat` stands in `s` at position `i`.
pub open spec fn occurs_at(s: Seq<char>, pat: Seq<char>, i: int) -> bool {
    0 <= i && i + pat.len() <= s.len() && s.subrange(i, i + pat.len()) == pat
}

/// Whether `pat` stands in `chars` at position `at`.
pub fn matches_at(chars: &Vec<char>, pat: &Vec<char>, at: usize) -> (r: bool)
    requires
        at + pat.len() <= chars.len(),
    ensures
        r == occurs_at(chars@, pat@, at as int),
{
    let mut k: usize = 0;
    while k < pat.len()
        invariant
            k <= pat.len(),
            at + pat.len() <= chars.len(),
            forall|j: int| 0 <= j < k ==> chars@[at + j] == pat@[j],
        decreases pat.len() - k,
    {
        if chars[at + k] != pat[k] {
            proof {
                assert(chars@.subrange(at as int, at + pat.len())[k as int] != pat@[k as int]);
            }
            return false;
        }
        k = k + 1;
    }
    proof {
        assert(chars@.subrange(at as int, at + pat.len()) =~= pat@);
    }
    true
}

/// Whether `pat` stands somewhere in `s`.
pub open spec fn has_part(s: Seq<char>, pat: Seq<char>) -> bool {
    exists|i: int| occurs_at(s, pat, i)
}

/// Tells whether `pat` stands somewhere in `s`.
pub fn contains_text(s: &str, pat: &str) -> (r: bool)
    ensures
        r == has_part(s@, pat@),
{
    let chars = chars_of(s);
    let part = chars_of(pat);
    if part.len() > chars.len() {
        return false;
    }
    let last: usize = chars.len() - part.len();
    let mut i: usize = 0;
    while i < last
        invariant
            part.len() <= chars.len(),
            last == chars.len() - part.len(),
            i <= last,
            chars@ == s@,
            part@ == pat@,
            forall|j: int| 0 <= j < i ==> !occurs_at(chars@, part@, j),
        decreases last - i,
    {
        if matches_at(&chars, &part, i) {
            return true;
        }
        i = i + 1;
    }
    matches_at(&chars, &part, last)
}

/// A text without the slashes at its end.
pub open spec fn without_trailing_slashes(s: Seq<char>) -> Seq<char>
    decreases s.len(),
{
    if s.len() > 0 && s.last() == '/' {
        without_trailing_slashes(s.drop_last())
    } else {
        s
    }
}

/// Takes the slashes off the end of a text.
pub fn trim_trailing_slashes(s: &str) -> (r: String)
    ensures
        r@ == without_trailing_slashes(s@),
{
    let chars = chars_of(s);
    let mut end: usize = chars.len();
    proof {
        assert(chars@.take(end as int) =~= chars@);
    }
    while end > 0 && chars[end - 1] == '/'
        invariant
            end <= chars.len(),
            chars@ == s@,
            without_trailing_slashes(chars@.take(end as int)) == without_trailing_slashes(s@),
        decreases end,
    {
        proof {
            assert(chars@.take(end as int).drop_last() =~= chars@.take(end as int - 1));
        }
        end = end - 1;
    }
    let r = text_of_range(&chars, 0, end);
    proof {
        assert(r@ =~= chars@.take(end as int));
    }
    r
}

/// Whether `s` begins with `prefix`.
pub open spec fn begins_with(s: Seq<char>, prefix: Seq<char>) -> bool {
    prefix.len() <= s.len() && s.take(prefix.len() as int) == prefix
}

/// Tells whether `s` begins with `prefix`.
pub fn starts_with(s: &str, prefix: &str) -> (r: bool)
    ensures
        r == begins_with(s@, prefix@),
{
    let chars = chars_of(s);
    let head = chars_of(prefix);
    if head.len() > chars.len() {
        return false;
    }
    let r = matches_at(&chars, &head, 0);
    proof {
        assert(chars@.subrange(0, head@.len() as int) =~= chars@.take(head@.len() as int));
    }
    r
}

/// What is left of `s` after `prefix`, where `s` begins with it.
pub open spec fn after_prefix(s: Seq<char>, prefix: Seq<char>) -> Option<Seq<char>> {
    if begins_with(s, prefix) {
        Some(s.skip(prefix.len() as int))
    } else {
        None
    }
}

/// Takes `prefix` off the beginning of `s`.
pub fn strip_prefix(s: &str, prefix: &str) -> (r: Option<String>)
    ensures
        match r {
            Some(rest) => after_prefix(s@, prefix@) == Some(rest@),
            None => after_prefix(s@, prefix@) is None,
        },
{
    let chars = chars_of(s);
    let head = chars_of(prefix);
    if head.len() > chars.len() {
        return None;
    }
    if matches_at(&chars, &head, 0) {
        proof {
            assert(chars@.subrange(0, head@.len() as int) =~= chars@.take(head@.len() as int));
        }
        let rest = text_of_range(&chars, head.len(), chars.len());
        proof {
            assert(rest@ =~= s@.skip(prefix@.len() as int));
        }
        Some(rest)
    } else {
        proof {
            assert(chars@.subrange(0, head@.len() as int) =~= chars@.take(head@.len() as int));
        }
        None
    }
}

/// Whether a character is white space as Unicode has it, by the property
/// `White_Space`: the controls from tab to carriage return, the blank, the
/// next-line control, the no-break blank, the Ogham space mark, the blanks
/// of fixed width from the en quad to the hair space, the line and the
/// paragraph separator, the narrow no-break blank, the medium mathematical
/// blank and the ideographic blank.
pub open spec fn is_white(c: char) -> bool {
    let n = c as u32;
    (0x09 <= n <= 0x0d) || n == 0x20 || n == 0x85 || n == 0xa0 || n == 0x1680 || (0x2000 <= n
        <= 0x200a) || n == 0x2028 || n == 0x2029 || n == 0x202f || n == 0x205f || n == 0x3000
}

/// Tells whether a character is white space; see [`is_white`].
pub fn is_white_space(c: char) -> (r: bool)
    ensures
        r == is_white(c),
{
    let n = c as u32;
    (0x09 <= n && n <= 0x0d) || n == 0x20 || n == 0x85 || n == 0xa0 || n == 0x1680 || (0x2000 <= n
        && n <= 0x200a) || n == 0x2028 || n == 0x2029 || n == 0x202f || n == 0x205f || n == 0x3000
}

/// The number of white-space characters at the beginning of a text.
pub open spec fn leading_white(s: Seq<char>) -> nat
    decreases s.len(),
{
    if s.len() > 0 && is_white(s[0]) {
        1 + leading_white(s.drop_first())
    } else {
        0
    }
}

/// The number of white-space characters at the end of a text.
pub open spec fn trailing_white(s: Seq<char>) -> nat
    decreases s.len(),
{
    if s.len() > 0 && is_white(s.last()) {
        1 + trailing_white(s.drop_last())
    } else {
        0
    }
}

/// A text without the white space at its two ends; a text of nothing but
/// white space leaves nothing.
pub open spec fn trimmed(s: Seq<char>) -> Seq<char> {
    if leading_white(s) >= s.len() {
        Seq::empty()
    } else {
        s.subrange(leading_white(s) as int, s.len() - trailing_white(s))
    }
}

/// Trims a text: the text without the white space at its two ends, as
/// `str::trim` gives it; see [`trimmed`].
pub fn trim(s: &str) -> (r: String)
    ensures
        r@ == trimmed(s@),
{
    let chars = chars_of(s);
    let mut from: usize = 0;
    proof {
        assert(chars@.skip(0) =~= chars@);
    }
    while from < chars.len() && is_white_space(chars[from])
        invariant
            from <= chars.len(),
            chars@ == s@,
            leading_white(chars@) == from + leading_white(chars@.skip(from as int)),
        decreases chars.len() - from,
    {
        proof {
            let rest = chars@.skip(from as int);
            assert(rest[0] == chars@[from as int]);
            assert(rest.drop_first() =~= chars@.skip(from as int + 1));
        }
        from = from + 1;
    }
    proof {
        let rest = chars@.skip(from as int);
        if from < chars.len() {
            assert(rest[0] == chars@[from as int]);
        }
        assert(leading_white(rest) == 0);
    }
    if from == chars.len() {
        return String::new();
    }
    let mut to: usize = chars.len();
    proof {
        assert(chars@.take(to as int) =~= chars@);
    }
    while to > from + 1 && is_white_space(chars[to - 1])
        invariant
            from < to <= chars.len(),
            from < chars.len(),
            !is_white(chars@[from as int]),
            trailing_white(chars@) == (chars.len() - to) + trailing_white(chars@.take(to as int)),
        decreases to,
    {
        proof {
            let head = chars@.take(to as int);
            assert(head.last() == chars@[to as int - 1]);
            assert(head.drop_last() =~= chars@.take(to as int - 1));
        }
        to = to - 1;
    }
    proof {
        let head = chars@.take(to as int);
        assert(head.last() == chars@[to as int - 1]);
        assert(trailing_white(head) == 0);
    }
    text_of_range(&chars, from, to)
}

/// A piece of a text that ended in a line feed, without a carriage return
/// at its end.
pub open spec fn without_return(line: Seq<char>) -> Seq<char> {
    if line.len() > 0 && line.last() == '\r' {
        line.drop_last()
    } else {
        line
    }
}

/// The lines of a text. Lines end in a line feed, or in a carriage return
/// and a line feed; the last line need not end at all, and then keeps a
/// carriage return at its end.
pub open spec fn lines_of(s: Seq<char>) -> Seq<Seq<char>> {
    let parts = pieces(s, '\n');
    let ended = parts.drop_last().map_values(|p: Seq<char>| without_return(p));
    if parts.last().len() == 0 {
        ended
    } else {
        ended.push(parts.last())
    }
}

/// Splits a text into its lines; see [`lines_of`].
pub fn lines(s: &str) -> (r: Vec<String>)
    ensures
        views(r@) == lines_of(s@),
{
    let mut parts = split_on(s, '\n');
    let ghost all = views(parts@);
    let last = match parts.pop() {
        Some(l) => l,
        None => String::new(),
    };
    proof {
        assert(views(parts@) =~= all.drop_last());
        assert(last@ == all.last());
    }
    let mut out: Vec<String> = Vec::new();
    let mut i: usize = 0;
    while i < parts.len()
        invariant
            i <= parts.len(),
            out@.len() == i,
            forall|j: int| 0 <= j < i ==> (#[trigger] out@[j])@ == without_return(parts@[j]@),
        decreases parts.len() - i,
    {
        let chars = chars_of(parts[i].as_str());
        let n = chars.len();
        let line = if n > 0 && chars[n - 1] == '\r' {
            let l = text_of_range(&chars, 0, n - 1);
            proof {
                assert(l@ =~= chars@.drop_last());
            }
            l
        } else {
            parts[i].clone()
        };
        out.push(line);
        i = i + 1;
    }
    proof {
        assert(views(out@) =~= views(parts@).map_values(|p: Seq<char>| without_return(p)));
    }
    if !last.as_str().is_empty() {
        let ghost before = views(out@);
        out.push(last);
        proof {
            assert(views(out@) =~= before.push(last@));
        }
    }
    out
}

/// Whether the list of names `p` is the beginning of the list `q`.
fn names_begin(p: &Vec<String>, q: &Vec<String>) -> (r: bool)
    ensures
        r == crate::tree_laws::begins(views(p@), views(q@)),
{
    if p.len() > q.len() {
        return false;
    }
    let ghost pv = views(p@);
    let ghost qv = views(q@);
    let mut i: usize = 0;
    while i < p.len()
        invariant
            i <= p.len(),
            p.len() <= q.len(),
            pv == views(p@),
            qv == views(q@),
            forall|j: int| 0 <= j < i ==> pv[j] == qv[j],
        decreases p.len() - i,
    {
        if !p[i].as_str().eq(q[i].as_str()) {
            proof {
                assert(pv[i as int] == p@[i as int]@);
                assert(qv[i as int] == q@[i as int]@);
                assert(qv.take(pv.len() as int)[i as int] == qv[i as int]);
            }
            return false;
        }
        proof {
            assert(pv[i as int] == p@[i as int]@);
            assert(qv[i as int] == q@[i as int]@);
        }
        i = i + 1;
    }
    proof {
        assert(qv.take(pv.len() as int) =~= pv);
    }
    true
}

/// Tells whether two dotted paths are clear of each other: neither is the
/// other, and neither lies above the other.
pub fn paths_clear(a: &str, b: &str) -> (r: bool)
    ensures
        r == crate::builder::clear_of(a@, b@),
{
    let p = split_path(a);
    let q = split_path(b);
    !names_begin(&p, &q) && !names_begin(&q, &p)
}

} // verus!
