//! Editing one line of text with the keys of a terminal.

use crate::text::chars_of;
use crate::text::text_of;
use vstd::prelude::*;

verus! {

/// A key as the line editor sees it.
#[derive(Debug, Clone, Copy, PartialEq, Eq, Structural)]
pub enum EditKey {
    Char(char),
    Enter,
    Esc,
    Home,
    End,
    Backspace,
    Delete,
    Left,
    Right,
    /// Any key that the editor does not react to.
    Other,
}

/// How a key press leaves the editing.
#[derive(Debug, Clone, Copy, PartialEq, Eq, Structural)]
pub enum EditOutcome {
    /// The editing goes on.
    Continue,
    /// The line is given up.
    Cancel,
    /// The line is accepted as it stands.
    Confirm,
}

/// A line that is being edited, with the cursor before the character at
/// its position.
pub ghost struct Line {
    pub text: Seq<char>,
    pub cursor: int,
}

/// Whether a character is ASCII white space.
pub open spec fn is_blank(c: char) -> bool {
    c == ' ' || c == '\t' || c == '\n' || c == '\x0c' || c == '\r'
}

/// Where a move one word back from `from` ends: the white space before
/// `from` is skipped, then the word before that.
pub open spec fn word_start(text: Seq<char>, from: int) -> int
    decreases from,
{
    if from <= 0 || from > text.len() {
        0
    } else if is_blank(text[from - 1]) {
        word_start(text, from - 1)
    } else {
        word_body_start(text, from)
    }
}

/// Where the word that ends before `from` begins.
pub open spec fn word_body_start(text: Seq<char>, from: int) -> int
    decreases from,
{
    if from <= 0 || from > text.len() || is_blank(text[from - 1]) {
        if from < 0 {
            0
        } else {
            from
        }
    } else {
        word_body_start(text, from - 1)
    }
}

/// Where the white space that begins at `from` ends.
pub open spec fn blanks_end(text: Seq<char>, from: int) -> int
    decreases text.len() - from,
{
    if from < 0 || from >= text.len() || !is_blank(text[from]) {
        if from > text.len() {
            text.len() as int
        } else {
            from
        }
    } else {
        blanks_end(text, from + 1)
    }
}

/// Where a move one word on from `from` ends: the rest of the word at
/// `from` is skipped, then the white space after it.
pub open spec fn word_end(text: Seq<char>, from: int) -> int
    decreases text.len() - from,
{
    if from < 0 || from >= text.len() {
        text.len() as int
    } else if !is_blank(text[from]) {
        word_end(text, from + 1)
    } else {
        blanks_end(text, from)
    }
}

/// A text without the characters from `from` up to `to`.
pub open spec fn without(text: Seq<char>, from: int, to: int) -> Seq<char> {
    text.take(from) + text.skip(to)
}

/// The line after a key press, and how the key press leaves the editing.
/// Keys are read as a shell reads them: control or alt with a letter moves
/// and deletes by characters, words and whole halves of the line; a plain
/// character is put in at the cursor.
pub open spec fn edited(line: Line, key: EditKey, ctrl: bool, alt: bool) -> (Line, EditOutcome) {
    let text = line.text;
    let cursor = line.cursor;
    let len = text.len() as int;
    if (key == EditKey::Char('c') && ctrl) || key == EditKey::Esc {
        (line, EditOutcome::Cancel)
    } else if key == EditKey::Enter {
        (line, EditOutcome::Confirm)
    } else if (key == EditKey::Char('a') && ctrl) || key == EditKey::Home {
        (Line { text, cursor: 0 }, EditOutcome::Continue)
    } else if (key == EditKey::Char('e') && ctrl) || key == EditKey::End {
        (Line { text, cursor: len }, EditOutcome::Continue)
    } else if key == EditKey::Char('u') && ctrl {
        (Line { text: text.skip(cursor), cursor: 0 }, EditOutcome::Continue)
    } else if key == EditKey::Char('k') && ctrl {
        (Line { text: text.take(cursor), cursor }, EditOutcome::Continue)
    } else if (key == EditKey::Char('w') && ctrl) || (key == EditKey::Backspace && alt) {
        (
            Line { text: without(text, word_start(text, cursor), cursor), cursor: word_start(text, cursor) },
            EditOutcome::Continue,
        )
    } else if key == EditKey::Char('d') && alt {
        (Line { text: without(text, cursor, word_end(text, cursor)), cursor }, EditOutcome::Continue)
    } else if (key == EditKey::Left && ctrl) || (key == EditKey::Char('b') && alt) {
        (Line { text, cursor: word_start(text, cursor) }, EditOutcome::Continue)
    } else if (key == EditKey::Right && ctrl) || (key == EditKey::Char('f') && alt) {
        (Line { text, cursor: word_end(text, cursor) }, EditOutcome::Continue)
    } else if key == EditKey::Backspace {
        if cursor > 0 {
            (Line { text: without(text, cursor - 1, cursor), cursor: cursor - 1 }, EditOutcome::Continue)
        } else {
            (line, EditOutcome::Continue)
        }
    } else if key == EditKey::Delete || (key == EditKey::Char('d') && ctrl) {
        if cursor < len {
            (Line { text: without(text, cursor, cursor + 1), cursor }, EditOutcome::Continue)
        } else {
            (line, EditOutcome::Continue)
        }
    } else if key == EditKey::Left || (key == EditKey::Char('b') && ctrl) {
        (
            Line {
                text,
                cursor: if cursor > 0 {
                    cursor - 1
                } else {
                    cursor
                },
            },
            EditOutcome::Continue,
        )
    } else if key == EditKey::Right || (key == EditKey::Char('f') && ctrl) {
        (
            Line {
                text,
                cursor: if cursor < len {
                    cursor + 1
                } else {
                    cursor
                },
            },
            EditOutcome::Continue,
        )
    } else {
        match key {
            EditKey::Char(c) => if !ctrl && !alt {
                (Line { text: text.insert(cursor, c), cursor: cursor + 1 }, EditOutcome::Continue)
            } else {
                (line, EditOutcome::Continue)
            },
            _ => (line, EditOutcome::Continue),
        }
    }
}

/// A line editor: the characters of the line and the position of the cursor.
#[derive(Debug)]
pub struct LineEditor {
    chars: Vec<char>,
    cursor: usize,
}

fn blank(c: char) -> (r: bool)
    ensures
        r == is_blank(c),
{
    c == ' ' || c == '\t' || c == '\n' || c == '\x0c' || c == '\r'
}

/// Finds where a move one word back from `from` ends; see [`word_start`].
pub fn word_boundary_backward(chars: &Vec<char>, from: usize) -> (r: usize)
    requires
        from <= chars.len(),
    ensures
        r == word_start(chars@, from as int),
        r <= from,
{
    let mut pos = from;
    while pos > 0 && blank(chars[pos - 1])
        invariant
            pos <= from <= chars.len(),
            word_start(chars@, pos as int) == word_start(chars@, from as int),
        decreases pos,
    {
        pos = pos - 1;
    }
    let mid = pos;
    while pos > 0 && !blank(chars[pos - 1])
        invariant
            pos <= mid <= chars.len(),
            word_body_start(chars@, pos as int) == word_body_start(chars@, mid as int),
        decreases pos,
    {
        pos = pos - 1;
    }
    pos
}

/// Finds where a move one word on from `from` ends; see [`word_end`].
pub fn word_boundary_forward(chars: &Vec<char>, from: usize) -> (r: usize)
    requires
        from <= chars.len(),
    ensures
        r == word_end(chars@, from as int),
        from <= r <= chars.len(),
{
    let len = chars.len();
    let mut pos = from;
    while pos < len && !blank(chars[pos])
        invariant
            from <= pos <= len,
            len == chars.len(),
            word_end(chars@, pos as int) == word_end(chars@, from as int),
        decreases len - pos,
    {
        pos = pos + 1;
    }
    let mid = pos;
    while pos < len && blank(chars[pos])
        invariant
            mid <= pos <= len,
            len == chars.len(),
            blanks_end(chars@, pos as int) == blanks_end(chars@, mid as int),
        decreases len - pos,
    {
        pos = pos + 1;
    }
    pos
}

/// Takes the characters from `from` up to `to` out of `chars`.
fn delete_range(chars: &mut Vec<char>, from: usize, to: usize)
    requires
        from <= to <= old(chars).len(),
    ensures
        final(chars)@ == without(old(chars)@, from as int, to as int),
{
    let mut out: Vec<char> = Vec::new();
    let mut i: usize = 0;
    while i < from
        invariant
            i <= from <= to <= chars.len(),
            chars@ == old(chars)@,
            out@ == chars@.take(i as int),
        decreases from - i,
    {
        out.push(chars[i]);
        proof {
            assert(chars@.take(i as int + 1) =~= chars@.take(i as int).push(chars@[i as int]));
        }
        i = i + 1;
    }
    let mut j: usize = to;
    proof {
        assert(chars@.subrange(to as int, to as int) =~= Seq::<char>::empty());
        assert(out@ =~= chars@.take(from as int) + chars@.subrange(to as int, j as int));
    }
    while j < chars.len()
        invariant
            from <= to <= j <= chars.len(),
            chars@ == old(chars)@,
            out@ == chars@.take(from as int) + chars@.subrange(to as int, j as int),
        decreases chars.len() - j,
    {
        out.push(chars[j]);
        proof {
            assert(chars@.subrange(to as int, j as int + 1) =~= chars@.subrange(
                to as int,
                j as int,
            ).push(chars@[j as int]));
            assert(out@ =~= chars@.take(from as int) + chars@.subrange(to as int, j as int + 1));
        }
        j = j + 1;
    }
    proof {
        assert(chars@.subrange(to as int, chars@.len() as int) =~= chars@.skip(to as int));
    }
    *chars = out;
}

impl LineEditor {
    /// The line as it stands.
    pub closed spec fn line(&self) -> Line {
        Line { text: self.chars@, cursor: self.cursor as int }
    }

    /// Whether the cursor is within the line.
    pub open spec fn wf(&self) -> bool {
        0 <= self.line().cursor <= self.line().text.len()
    }

    /// An editor that starts with `initial` and the cursor at its end.
    pub fn new(initial: &str) -> (r: Self)
        ensures
            r.wf(),
            r.line() == (Line { text: initial@, cursor: initial@.len() as int }),
    {
        let chars = chars_of(initial);
        let cursor = chars.len();
        LineEditor { chars, cursor }
    }

    /// The text of the line.
    pub fn text(&self) -> (r: String)
        ensures
            r@ == self.line().text,
    {
        text_of(&self.chars)
    }

    /// The position of the cursor, counted in characters.
    pub fn cursor(&self) -> (r: usize)
        ensures
            r == self.line().cursor,
    {
        self.cursor
    }

    /// Applies a key press; see [`edited`].
    pub fn apply(&mut self, key: EditKey, ctrl: bool, alt: bool) -> (r: EditOutcome)
        requires
            old(self).wf(),
        ensures
            final(self).wf(),
            (final(self).line(), r) == edited(old(self).line(), key, ctrl, alt),
    {
        let len = self.chars.len();
        let cursor = self.cursor;
        let ghost text = self.chars@;
        match key {
            EditKey::Esc => EditOutcome::Cancel,
            EditKey::Enter => EditOutcome::Confirm,
            EditKey::Home => {
                self.cursor = 0;
                EditOutcome::Continue
            },
            EditKey::End => {
                self.cursor = len;
                EditOutcome::Continue
            },
            EditKey::Backspace => {
                if alt {
                    let start = word_boundary_backward(&self.chars, cursor);
                    delete_range(&mut self.chars, start, cursor);
                    self.cursor = start;
                } else if cursor > 0 {
                    delete_range(&mut self.chars, cursor - 1, cursor);
                    self.cursor = cursor - 1;
                }
                EditOutcome::Continue
            },
            EditKey::Delete => {
                if cursor < len {
                    delete_range(&mut self.chars, cursor, cursor + 1);
                }
                EditOutcome::Continue
            },
            EditKey::Left => {
                if ctrl {
                    self.cursor = word_boundary_backward(&self.chars, cursor);
                } else if cursor > 0 {
                    self.cursor = cursor - 1;
                }
                EditOutcome::Continue
            },
            EditKey::Right => {
                if ctrl {
                    self.cursor = word_boundary_forward(&self.chars, cursor);
                } else if cursor < len {
                    self.cursor = cursor + 1;
                }
                EditOutcome::Continue
            },
            EditKey::Other => EditOutcome::Continue,
            EditKey::Char(c) => {
                if ctrl && c == 'c' {
                    EditOutcome::Cancel
                } else if ctrl && c == 'a' {
                    self.cursor = 0;
                    EditOutcome::Continue
                } else if ctrl && c == 'e' {
                    self.cursor = len;
                    EditOutcome::Continue
                } else if ctrl && c == 'u' {
                    delete_range(&mut self.chars, 0, cursor);
                    self.cursor = 0;
                    proof {
                        assert(self.chars@ =~= text.skip(cursor as int));
                    }
                    EditOutcome::Continue
                } else if ctrl && c == 'k' {
                    delete_range(&mut self.chars, cursor, len);
                    proof {
                        assert(self.chars@ =~= text.take(cursor as int));
                    }
                    EditOutcome::Continue
                } else if ctrl && c == 'w' {
                    let start = word_boundary_backward(&self.chars, cursor);
                    delete_range(&mut self.chars, start, cursor);
                    self.cursor = start;
                    EditOutcome::Continue
                } else if alt && c == 'd' {
                    let end = word_boundary_forward(&self.chars, cursor);
                    delete_range(&mut self.chars, cursor, end);
                    EditOutcome::Continue
                } else if alt && c == 'b' {
                    self.cursor = word_boundary_backward(&self.chars, cursor);
                    EditOutcome::Continue
                } else if alt && c == 'f' {
                    self.cursor = word_boundary_forward(&self.chars, cursor);
                    EditOutcome::Continue
                } else if ctrl && c == 'd' {
                    if cursor < len {
                        delete_range(&mut self.chars, cursor, cursor + 1);
                    }
                    EditOutcome::Continue
                } else if ctrl && c == 'b' {
                    if cursor > 0 {
                        self.cursor = cursor - 1;
                    }
                    EditOutcome::Continue
                } else if ctrl && c == 'f' {
                    if cursor < len {
                        self.cursor = cursor + 1;
                    }
                    EditOutcome::Continue
                } else if !ctrl && !alt {
                    self.chars.insert(cursor, c);
                    let grown = self.chars.len();
                    assert(grown == len + 1);
                    self.cursor = cursor + 1;
                    EditOutcome::Continue
                } else {
                    EditOutcome::Continue
                }
            },
        }
    }
}

} // verus!
