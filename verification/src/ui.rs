//! The decisions behind the terminal widgets: which option a key selects,
//! where the highlight moves, how many lines a text takes, and where words
//! begin and end in a line that is being edited.

use crate::references::byte_len;
use crate::text::owned;
use vstd::prelude::*;
use vstd::slice::slice_index_get;
use vstd::string::StringSliceAdditionalSpecFns;

verus! {

/// An option in a select menu.
#[derive(Debug, PartialEq, Eq)]
pub struct SelectOption {
    /// The key to press for this option.
    pub key: char,
    /// The label shown for this option.
    pub label: String,
}

impl SelectOption {
    pub fn new(key: char, label: &str) -> (r: Self)
        ensures
            r.key == key,
            r.label@ == label@,
    {
        SelectOption { key, label: owned(label) }
    }
}

/// A key as a widget sees it.
#[derive(Debug, Clone, Copy, PartialEq, Eq, Structural)]
pub enum Key {
    Char(char),
    Up,
    Down,
    Enter,
    Esc,
    /// Any key that the menu does not react to.
    Other,
}

/// What a key press asks a menu to do.
#[derive(Debug, Clone, Copy, PartialEq, Eq, Structural)]
pub enum KeyAction {
    /// Choose the option with this key.
    Select(char),
    Cancel,
    MoveUp,
    MoveDown,
    Ignore,
}

/// A select menu: a prompt, options in order, and a highlighted position.
#[derive(Debug)]
pub struct InteractiveSelect {
    prompt: String,
    options: Vec<SelectOption>,
    selected: usize,
}

/// The keys of a list of options.
pub open spec fn option_keys(options: Seq<SelectOption>) -> Seq<char> {
    options.map_values(|o: SelectOption| o.key)
}

/// The labels of a list of options.
pub open spec fn option_labels(options: Seq<SelectOption>) -> Seq<Seq<char>> {
    options.map_values(|o: SelectOption| o.label@)
}

/// What a key press asks of a menu with the option keys `keys` and the
/// highlight at `selected`. Control-C and escape cancel; the up arrow and `k`
/// move up, the down arrow and `j` move down; enter chooses the highlighted
/// option, if there is one; any other character chooses the option with that
/// key, if there is one.
pub open spec fn key_action(keys: Seq<char>, selected: int, key: Key, ctrl: bool) -> KeyAction {
    if ctrl && key == Key::Char('c') {
        KeyAction::Cancel
    } else {
        match key {
            Key::Up => KeyAction::MoveUp,
            Key::Down => KeyAction::MoveDown,
            Key::Enter => if 0 <= selected < keys.len() {
                KeyAction::Select(keys[selected])
            } else {
                KeyAction::Ignore
            },
            Key::Esc => KeyAction::Cancel,
            Key::Char(c) => if c == 'k' {
                KeyAction::MoveUp
            } else if c == 'j' {
                KeyAction::MoveDown
            } else if keys.contains(c) {
                KeyAction::Select(c)
            } else {
                KeyAction::Ignore
            },
            Key::Other => KeyAction::Ignore,
        }
    }
}

/// Where the highlight goes on a move: up and down by one, around the ends.
pub open spec fn moved(count: int, selected: int, action: KeyAction) -> int {
    let last = if count > 0 {
        count - 1
    } else {
        0
    };
    match action {
        KeyAction::MoveUp => if selected > 0 {
            selected - 1
        } else {
            last
        },
        KeyAction::MoveDown => if selected < last {
            selected + 1
        } else {
            0
        },
        _ => selected,
    }
}

/// The number of terminal lines that a text of `len` bytes takes at the
/// given width: one for an empty text or a width of zero, else as many as it
/// takes to hold every byte.
pub open spec fn lines_for(len: int, width: int) -> int {
    if len <= 0 || width <= 0 {
        1
    } else {
        (len - 1) / width + 1
    }
}

/// The line of help under a menu.
pub const HELP_TEXT: &'static str = "↑↓/jk navigate • key/Enter select • Esc cancel";

/// A count of lines, held at the largest count that the machine can hold.
pub open spec fn clipped(n: int) -> int {
    if n > usize::MAX {
        usize::MAX as int
    } else {
        n
    }
}

/// The number of terminal lines that an option takes whose label has `len`
/// bytes: the label stands behind a mark of six columns, and every begun
/// width of the terminal is a line.
pub open spec fn option_line_count(len: int, width: int) -> int {
    (len + 5) / width + 1
}

/// The number of terminal lines that the options take together.
pub open spec fn option_lines(options: Seq<SelectOption>, width: int) -> int
    decreases options.len(),
{
    if options.len() == 0 {
        0
    } else {
        option_lines(options.drop_last(), width) + option_line_count(
            byte_len(options.last().label@) as int,
            width,
        )
    }
}

/// The number of terminal lines that a menu takes: its prompt, its options,
/// an empty line and the line of help.
pub open spec fn menu_lines(prompt: Seq<char>, options: Seq<SelectOption>, width: int) -> int {
    lines_for(byte_len(prompt) as int, width) + option_lines(options, width) + 1 + lines_for(
        byte_len(HELP_TEXT@) as int,
        width,
    )
}

/// Adds two counts of lines and holds the sum at the largest count.
fn add_lines(a: usize, b: usize) -> (r: usize)
    ensures
        r == clipped(a + b),
{
    if a > usize::MAX - b {
        usize::MAX
    } else {
        a + b
    }
}

/// Counts the lines of one option; see [`option_line_count`].
fn lines_of_option(len: usize, term_width: usize) -> (r: usize)
    requires
        term_width >= 1,
    ensures
        r == clipped(option_line_count(len as int, term_width as int)),
{
    let wide: u128 = len as u128;
    let width: u128 = term_width as u128;
    let lines: u128 = (wide + 5) / width + 1;
    if lines > usize::MAX as u128 {
        usize::MAX
    } else {
        lines as usize
    }
}

impl InteractiveSelect {
    pub closed spec fn prompt_text(&self) -> Seq<char> {
        self.prompt@
    }

    pub closed spec fn choices(&self) -> Seq<SelectOption> {
        self.options@
    }

    pub closed spec fn highlighted(&self) -> int {
        self.selected as int
    }

    /// A menu without options.
    pub fn new(prompt: &str) -> (r: Self)
        ensures
            r.prompt_text() == prompt@,
            r.choices().len() == 0,
            r.highlighted() == 0,
    {
        InteractiveSelect { prompt: owned(prompt), options: Vec::new(), selected: 0 }
    }

    /// The menu with one more option at the end.
    pub fn option(self, key: char, label: &str) -> (r: Self)
        ensures
            r.prompt_text() == self.prompt_text(),
            r.highlighted() == self.highlighted(),
            option_keys(r.choices()) == option_keys(self.choices()).push(key),
            option_labels(r.choices()) == option_labels(self.choices()).push(label@),
    {
        let mut menu = self;
        let ghost before = menu.options@;
        menu.options.push(SelectOption::new(key, label));
        proof {
            assert(option_keys(menu.options@) =~= option_keys(before).push(key));
            assert(option_labels(menu.options@) =~= option_labels(before).push(label@));
        }
        menu
    }

    /// The prompt of the menu.
    pub fn prompt(&self) -> (r: &str)
        ensures
            r@ == self.prompt_text(),
    {
        self.prompt.as_str()
    }

    /// The options of the menu, in order.
    pub fn options(&self) -> (r: &Vec<SelectOption>)
        ensures
            r@ == self.choices(),
    {
        &self.options
    }

    /// The position of the highlight.
    pub fn selected(&self) -> (r: usize)
        ensures
            r == self.highlighted(),
    {
        self.selected
    }

    /// What a key press asks of the menu; see [`key_action`].
    pub fn handle_key(&self, key: Key, ctrl: bool) -> (r: KeyAction)
        ensures
            r == key_action(option_keys(self.choices()), self.highlighted(), key, ctrl),
    {
        let ghost keys = option_keys(self.options@);
        match key {
            Key::Char(c) => {
                if ctrl && c == 'c' {
                    return KeyAction::Cancel;
                }
                if c == 'k' {
                    return KeyAction::MoveUp;
                }
                if c == 'j' {
                    return KeyAction::MoveDown;
                }
                let mut i: usize = 0;
                while i < self.options.len()
                    invariant
                        i <= self.options.len(),
                        keys == option_keys(self.options@),
                        key == Key::Char(c),
                        c != 'k',
                        c != 'j',
                        !(ctrl && c == 'c'),
                        forall|j: int| 0 <= j < i ==> keys[j] != c,
                    decreases self.options.len() - i,
                {
                    if self.options[i].key == c {
                        assert(keys[i as int] == c);
                        return KeyAction::Select(c);
                    }
                    i = i + 1;
                }
                KeyAction::Ignore
            },
            Key::Up => KeyAction::MoveUp,
            Key::Down => KeyAction::MoveDown,
            Key::Enter => {
                if self.selected < self.options.len() {
                    KeyAction::Select(self.options[self.selected].key)
                } else {
                    KeyAction::Ignore
                }
            },
            Key::Esc => KeyAction::Cancel,
            Key::Other => KeyAction::Ignore,
        }
    }

    /// Moves the highlight as `action` asks; see [`moved`].
    pub fn move_highlight(&mut self, action: KeyAction)
        ensures
            final(self).prompt_text() == old(self).prompt_text(),
            final(self).choices() == old(self).choices(),
            final(self).highlighted() == moved(
                old(self).choices().len() as int,
                old(self).highlighted(),
                action,
            ),
    {
        let last: usize = if self.options.len() > 0 {
            self.options.len() - 1
        } else {
            0
        };
        match action {
            KeyAction::MoveUp => {
                if self.selected > 0 {
                    self.selected = self.selected - 1;
                } else {
                    self.selected = last;
                }
            },
            KeyAction::MoveDown => {
                if self.selected < last {
                    self.selected = self.selected + 1;
                } else {
                    self.selected = 0;
                }
            },
            _ => {},
        }
    }

    /// The number of terminal lines that `s` takes; see [`lines_for`].
    pub fn lines_needed(s: &str, term_width: usize) -> (r: usize)
        ensures
            r == lines_for(s.len() as int, term_width as int),
    {
        let len = s.len();
        if len == 0 || term_width == 0 {
            return 1;
        }
        (len - 1) / term_width + 1
    }

    /// The number of terminal lines that the menu takes at the given width,
    /// wrapped lines counted; see [`menu_lines`]. A count beyond the largest
    /// that the machine can hold is held at that.
    pub fn calculate_total_lines(&self, term_width: usize) -> (r: usize)
        requires
            term_width >= 1,
        ensures
            r == clipped(menu_lines(self.prompt_text(), self.choices(), term_width as int)),
    {
        let ghost width = term_width as int;
        let mut total: usize = Self::lines_needed(self.prompt.as_str(), term_width);
        let ghost first = total as int;
        let mut i: usize = 0;
        proof {
            assert(self.options@.take(0) =~= Seq::<SelectOption>::empty());
        }
        while i < self.options.len()
            invariant
                i <= self.options.len(),
                width == term_width as int,
                term_width >= 1,
                first >= 1,
                total == clipped(first + option_lines(self.options@.take(i as int), width)),
                option_lines(self.options@.take(i as int), width) >= 0,
            decreases self.options.len() - i,
        {
            proof {
                let next = self.options@.take(i as int + 1);
                assert(next.drop_last() =~= self.options@.take(i as int));
                assert(next.last() == self.options@[i as int]);
                assert(option_line_count(byte_len(next.last().label@) as int, width) >= 1) by {
                    assert((byte_len(next.last().label@) as int + 5) / width >= 0)
                        by (nonlinear_arith)
                        requires
                            byte_len(next.last().label@) as int + 5 >= 0,
                            width >= 1,
                    ;
                }
            }
            let lines = lines_of_option(self.options[i].label.as_str().len(), term_width);
            total = add_lines(total, lines);
            i = i + 1;
        }
        proof {
            assert(self.options@.take(self.options@.len() as int) =~= self.options@);
        }
        total = add_lines(total, 1);
        total = add_lines(total, Self::lines_needed(HELP_TEXT, term_width));
        total
    }
}

/// A one-line text prompt.
#[derive(Debug)]
pub struct TextInput {
    prompt: String,
    initial_value: String,
}

impl TextInput {
    pub closed spec fn prompt_text(&self) -> Seq<char> {
        self.prompt@
    }

    pub closed spec fn initial_text(&self) -> Seq<char> {
        self.initial_value@
    }

    /// A prompt that starts with an empty line.
    pub fn new(prompt: &str) -> (r: Self)
        ensures
            r.prompt_text() == prompt@,
            r.initial_text() == Seq::<char>::empty(),
    {
        TextInput { prompt: owned(prompt), initial_value: String::new() }
    }

    /// The prompt with `value` as the line to start with.
    pub fn with_initial_value(self, value: &str) -> (r: Self)
        ensures
            r.prompt_text() == self.prompt_text(),
            r.initial_text() == value@,
    {
        let mut input = self;
        input.initial_value = owned(value);
        input
    }

    /// The prompt.
    pub fn prompt(&self) -> (r: &str)
        ensures
            r@ == self.prompt_text(),
    {
        self.prompt.as_str()
    }

    /// The line to start with.
    pub fn initial_value(&self) -> (r: &str)
        ensures
            r@ == self.initial_text(),
    {
        self.initial_value.as_str()
    }
}

/// Whether a byte is ASCII white space: a space, a tab, a line feed, a form
/// feed or a carriage return.
pub open spec fn is_space(b: u8) -> bool {
    b == 0x20 || b == 0x09 || b == 0x0a || b == 0x0c || b == 0x0d
}

fn space(b: u8) -> (r: bool)
    ensures
        r == is_space(b),
{
    b == 0x20 || b == 0x09 || b == 0x0a || b == 0x0c || b == 0x0d
}

/// Whether a move one word back from `from` skips white space down to
/// `mid` and then a word down to `to`, where it stops at the start of the
/// line or after white space.
pub open spec fn steps_back(bytes: Seq<u8>, from: int, mid: int, to: int) -> bool {
    &&& 0 <= to <= mid <= from
    &&& forall|i: int| mid <= i < from ==> is_space(#[trigger] bytes[i])
    &&& forall|i: int| to <= i < mid ==> !is_space(#[trigger] bytes[i])
    &&& (mid == 0 || !is_space(bytes[mid - 1]))
    &&& (to == 0 || is_space(bytes[to - 1]))
}

/// Whether `to` is where a move one word back from `from` ends.
pub open spec fn is_word_start(bytes: Seq<u8>, from: int, to: int) -> bool {
    exists|mid: int| steps_back(bytes, from, mid, to)
}

/// Whether a move one word on from `from` skips the rest of a word up to
/// `mid` and then white space up to `to`, where it stops at the end of the
/// line or before the next word.
pub open spec fn steps_on(bytes: Seq<u8>, from: int, mid: int, to: int) -> bool {
    &&& from <= mid <= to <= bytes.len()
    &&& forall|i: int| from <= i < mid ==> !is_space(#[trigger] bytes[i])
    &&& forall|i: int| mid <= i < to ==> is_space(#[trigger] bytes[i])
    &&& (mid == bytes.len() || is_space(bytes[mid]))
    &&& (to == bytes.len() || !is_space(bytes[to]))
}

/// Whether `to` is where a move one word on from `from` ends.
pub open spec fn is_word_end(bytes: Seq<u8>, from: int, to: int) -> bool {
    exists|mid: int| steps_on(bytes, from, mid, to)
}

/// The position of the start of the word before `from`; see [`is_word_start`].
pub fn find_word_boundary_backward(s: &str, from: usize) -> (r: usize)
    requires
        from <= s.len(),
    ensures
        is_word_start(s.spec_bytes(), from as int, r as int),
{
    let bytes = s.as_bytes();
    let mut pos = from;
    while pos > 0 && space(*slice_index_get(bytes, pos - 1))
        invariant
            pos <= from <= bytes@.len(),
            forall|i: int| pos <= i < from ==> is_space(#[trigger] bytes@[i]),
        decreases pos,
    {
        pos = pos - 1;
    }
    let mid = pos;
    while pos > 0 && !space(*slice_index_get(bytes, pos - 1))
        invariant
            pos <= mid <= from <= bytes@.len(),
            forall|i: int| pos <= i < mid ==> !is_space(#[trigger] bytes@[i]),
        decreases pos,
    {
        pos = pos - 1;
    }
    proof {
        assert(steps_back(s.spec_bytes(), from as int, mid as int, pos as int));
    }
    pos
}

/// The position of the end of the word at `from` and of the white space
/// after it; see [`is_word_end`]. A position at or past the end of the line
/// stays at the end.
pub fn find_word_boundary_forward(s: &str, from: usize) -> (r: usize)
    ensures
        from >= s.len() ==> r == s.len(),
        from < s.len() ==> is_word_end(s.spec_bytes(), from as int, r as int),
{
    let bytes = s.as_bytes();
    let len = bytes.len();
    if from >= len {
        return len;
    }
    let mut pos = from;
    while pos < len && !space(*slice_index_get(bytes, pos))
        invariant
            from <= pos <= len,
            len == bytes@.len(),
            forall|i: int| from <= i < pos ==> !is_space(#[trigger] bytes@[i]),
        decreases len - pos,
    {
        pos = pos + 1;
    }
    let mid = pos;
    while pos < len && space(*slice_index_get(bytes, pos))
        invariant
            from <= mid <= pos <= len,
            len == bytes@.len(),
            forall|i: int| mid <= i < pos ==> is_space(#[trigger] bytes@[i]),
        decreases len - pos,
    {
        pos = pos + 1;
    }
    proof {
        assert(steps_on(s.spec_bytes(), from as int, mid as int, pos as int));
    }
    pos
}

} // verus!
