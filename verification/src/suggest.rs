//! Suggesting commands: the messages for the model, what to keep of its
//! answers, and what the keys and lines of the menus mean.

use crate::literal::digit_char;
use crate::literal::digit_of;
use crate::literal::digit_value;
use crate::literal::is_digit;
use crate::literal::parse_u32;
use crate::literal::u32_literal;
use crate::text::after_prefix;
use crate::text::begins_with;
use crate::text::chars_of;
use crate::text::lowered;
use crate::text::owned;
use crate::text::starts_with;
use crate::text::strip_prefix;
use crate::text::text_of_range;
use crate::text::to_lowercase;
use crate::text::trim;
use crate::text::trimmed;
use crate::text::views;
use vstd::prelude::*;

verus! {

/// How many suggestions to ask for: as many as configured, and at least one.
pub fn suggestion_count(configured: u32) -> (r: u32)
    ensures
        r == if configured == 0 {
            1
        } else {
            configured
        },
{
    if configured == 0 {
        1
    } else {
        configured
    }
}

/// The request to the model, with the words of the user.
pub open spec fn user_message_text(prompt: Seq<char>) -> Seq<char> {
    "Generate a shell command that satisfies this user request: "@ + prompt
}

/// Writes the request to the model.
pub fn user_message(prompt: &str) -> (r: String)
    ensures
        r@ == user_message_text(prompt@),
{
    crate::text::concat2("Generate a shell command that satisfies this user request: ", prompt)
}

/// The instructions for the model: what it is, the output of the previous
/// command where there is some, and the system that the command is for.
pub open spec fn system_message_text(ctx: Seq<char>, os: Seq<char>, arch: Seq<char>) -> Seq<char> {
    "You are an expert at using shell commands. Respond with a JSON object only, matching the provided JSON schema. The command will be directly executed in a shell as a single executable line of code."@
        + (if ctx.len() > 0 {
        " Between [], these are the last 1500 characters from the previous command's output, you can use them as context: ["@
            + ctx + "]"@
    } else {
        Seq::empty()
    }) + " The system the shell command will be executed on is "@ + os + " "@ + arch + "."@
}

/// Writes the instructions for the model; see [`system_message_text`].
pub fn system_message(ctx_buffer: &str, os: &str, arch: &str) -> (r: String)
    ensures
        r@ == system_message_text(ctx_buffer@, os@, arch@),
{
    let mut r = owned(
        "You are an expert at using shell commands. Respond with a JSON object only, matching the provided JSON schema. The command will be directly executed in a shell as a single executable line of code.",
    );
    let ghost head = r@;
    if !ctx_buffer.is_empty() {
        r.push_str(
            " Between [], these are the last 1500 characters from the previous command's output, you can use them as context: [",
        );
        r.push_str(ctx_buffer);
        r.push_str("]");
    }
    let ghost middle = r@;
    r.push_str(" The system the shell command will be executed on is ");
    r.push_str(os);
    r.push_str(" ");
    r.push_str(arch);
    r.push_str(".");
    proof {
        assert(middle =~= head + (if ctx_buffer@.len() > 0 {
            " Between [], these are the last 1500 characters from the previous command's output, you can use them as context: ["@
                + ctx_buffer@ + "]"@
        } else {
            Seq::empty()
        }));
        assert(r@ =~= system_message_text(ctx_buffer@, os@, arch@));
    }
    r
}

/// The answer to one request for a suggestion, as far as it goes: a
/// command, nothing, or the message of a failure.
pub ghost enum Answer {
    Command(Seq<char>),
    Nothing,
    Failed(Seq<char>),
}

/// The view of an answer.
pub open spec fn answer_view(a: Result<Option<String>, String>) -> Answer {
    match a {
        Ok(Some(c)) => Answer::Command(c@),
        Ok(None) => Answer::Nothing,
        Err(e) => Answer::Failed(e@),
    }
}

/// The views of a list of answers.
pub open spec fn answer_views(answers: Seq<Result<Option<String>, String>>) -> Seq<Answer> {
    answers.map_values(|a: Result<Option<String>, String>| answer_view(a))
}

/// The commands among the answers, in order, each once; blank commands are
/// left out.
pub open spec fn gathered(answers: Seq<Answer>) -> Seq<Seq<char>>
    decreases answers.len(),
{
    if answers.len() == 0 {
        Seq::empty()
    } else {
        let head = gathered(answers.drop_last());
        match answers.last() {
            Answer::Command(c) => if trimmed(c).len() == 0 || head.contains(c) {
                head
            } else {
                head.push(c)
            },
            _ => head,
        }
    }
}

/// The message of the last failure among the answers.
pub open spec fn last_failure(answers: Seq<Answer>) -> Option<Seq<char>>
    decreases answers.len(),
{
    if answers.len() == 0 {
        None
    } else {
        match answers.last() {
            Answer::Failed(e) => Some(e),
            _ => last_failure(answers.drop_last()),
        }
    }
}

/// What the answers come to: the commands, or where there is none, a
/// message with the reason of the last failure.
pub open spec fn collected(answers: Seq<Answer>) -> Result<Seq<Seq<char>>, Seq<char>> {
    if gathered(answers).len() == 0 {
        Err(
            "No suggestions could be generated.\nReason: "@ + (match last_failure(answers) {
                Some(e) => e,
                None => "unknown error"@,
            }),
        )
    } else {
        Ok(gathered(answers))
    }
}

fn has_command(commands: &Vec<String>, command: &str) -> (r: bool)
    ensures
        r == views(commands@).contains(command@),
{
    let mut i: usize = 0;
    while i < commands.len()
        invariant
            i <= commands.len(),
            forall|j: int| 0 <= j < i ==> views(commands@)[j] != command@,
        decreases commands.len() - i,
    {
        if commands[i].as_str().eq(command) {
            assert(views(commands@)[i as int] == command@);
            return true;
        }
        i = i + 1;
    }
    false
}

/// Gathers the commands of the answers; see [`collected`].
pub fn collect_suggestions(answers: &Vec<Result<Option<String>, String>>) -> (r: Result<
    Vec<String>,
    String,
>)
    ensures
        match r {
            Ok(commands) => collected(answer_views(answers@)) == Ok::<Seq<Seq<char>>, Seq<char>>(
                views(commands@),
            ),
            Err(e) => collected(answer_views(answers@)) == Err::<Seq<Seq<char>>, Seq<char>>(e@),
        },
{
    let ghost all = answer_views(answers@);
    let mut results: Vec<String> = Vec::new();
    let mut last_error: Option<String> = None;
    let mut i: usize = 0;
    proof {
        assert(all.take(0) =~= Seq::<Answer>::empty());
        assert(views(results@) =~= Seq::<Seq<char>>::empty());
    }
    while i < answers.len()
        invariant
            i <= answers.len(),
            all == answer_views(answers@),
            views(results@) == gathered(all.take(i as int)),
            crate::layers::opt_view(last_error) == last_failure(all.take(i as int)),
        decreases answers.len() - i,
    {
        proof {
            let next = all.take(i as int + 1);
            assert(next.drop_last() =~= all.take(i as int));
            assert(next.last() == answer_view(answers@[i as int]));
        }
        match &answers[i] {
            Ok(Some(command)) => {
                let t = trim(command.as_str());
                if !t.as_str().is_empty() && !has_command(&results, command.as_str()) {
                    let ghost before = views(results@);
                    results.push(command.clone());
                    proof {
                        assert(views(results@) =~= before.push(command@));
                    }
                }
            },
            Ok(None) => {},
            Err(e) => {
                last_error = Some(e.clone());
            },
        }
        i = i + 1;
    }
    proof {
        assert(all.take(answers@.len() as int) =~= all);
    }
    if results.len() == 0 {
        let mut m = owned("No suggestions could be generated.\nReason: ");
        match &last_error {
            Some(e) => {
                m.push_str(e.as_str());
            },
            None => {
                m.push_str("unknown error");
            },
        }
        Err(m)
    } else {
        Ok(results)
    }
}

/// How a command is run when its output is kept as context.
#[derive(Debug, PartialEq, Eq)]
pub enum CommandKind {
    /// An editor: it is run without capturing what it prints.
    Editor,
    /// A change of directory, to the given path.
    ChangeDir(String),
    /// Anything else: it is run and what it prints is kept.
    Capture,
}

/// The mathematical value of a [`CommandKind`].
pub ghost enum KindSpec {
    Editor,
    ChangeDir(Seq<char>),
    Capture,
}

impl View for CommandKind {
    type V = KindSpec;

    open spec fn view(&self) -> KindSpec {
        match self {
            CommandKind::Editor => KindSpec::Editor,
            CommandKind::ChangeDir(p) => KindSpec::ChangeDir(p@),
            CommandKind::Capture => KindSpec::Capture,
        }
    }
}

/// Whether a command begins with the name of an editor.
pub open spec fn names_editor(command: Seq<char>) -> bool {
    begins_with(command, "vi"@) || begins_with(command, "vim"@) || begins_with(command, "emacs"@)
        || begins_with(command, "nano"@) || begins_with(command, "ed"@) || begins_with(
        command,
        "micro"@,
    ) || begins_with(command, "joe"@) || begins_with(command, "nvim"@) || begins_with(
        command,
        "code"@,
    )
}

/// The kind of a command: an editor where it begins with the name of one,
/// a change of directory where it begins with `cd` and a blank, with what
/// follows as the path, and a command to capture otherwise.
pub open spec fn kind_of(command: Seq<char>) -> KindSpec {
    if names_editor(command) {
        KindSpec::Editor
    } else {
        match after_prefix(command, "cd "@) {
            Some(rest) => KindSpec::ChangeDir(trimmed(rest)),
            None => KindSpec::Capture,
        }
    }
}

/// Tells the kind of a command; see [`kind_of`].
pub fn classify_command(command: &str) -> (r: CommandKind)
    ensures
        r@ == kind_of(command@),
{
    if starts_with(command, "vi") || starts_with(command, "vim") || starts_with(command, "emacs")
        || starts_with(command, "nano") || starts_with(command, "ed") || starts_with(
        command,
        "micro",
    ) || starts_with(command, "joe") || starts_with(command, "nvim") || starts_with(
        command,
        "code",
    ) {
        return CommandKind::Editor;
    }
    match strip_prefix(command, "cd ") {
        Some(rest) => CommandKind::ChangeDir(trim(rest.as_str())),
        None => CommandKind::Capture,
    }
}

/// The end of a text: its last 1500 characters, or all of it where it is
/// shorter.
pub open spec fn tail_of(text: Seq<char>) -> Seq<char> {
    if text.len() > 1500 {
        text.skip(text.len() - 1500)
    } else {
        text
    }
}

/// Keeps the end of what a command printed; see [`tail_of`].
pub fn context_tail(stdout: &str) -> (r: String)
    ensures
        r@ == tail_of(stdout@),
{
    let chars = chars_of(stdout);
    if chars.len() > 1500 {
        let r = text_of_range(&chars, chars.len() - 1500, chars.len());
        proof {
            assert(r@ =~= stdout@.skip(stdout@.len() - 1500));
        }
        r
    } else {
        owned(stdout)
    }
}

/// What a user chooses in the menu of suggestions.
#[derive(Debug, Clone, Copy, PartialEq, Eq, Structural)]
pub enum Choice {
    Quit,
    Regenerate,
    NewPrompt,
    /// The suggestion at this position, counted from zero.
    Select(usize),
    /// Nothing that the menu offers.
    Invalid,
}

/// The key of the suggestion at a position, counted from zero: its number,
/// counted from one, for the first nine, and a question mark after that.
pub open spec fn key_of(index: int) -> char {
    if 0 <= index < 9 {
        digit_char((index + 1) as nat)
    } else {
        '?'
    }
}

/// The key of the suggestion at a position; see [`key_of`].
pub fn option_key(index: usize) -> (r: char)
    ensures
        r == key_of(index as int),
{
    if index == 0 {
        '1'
    } else if index == 1 {
        '2'
    } else if index == 2 {
        '3'
    } else if index == 3 {
        '4'
    } else if index == 4 {
        '5'
    } else if index == 5 {
        '6'
    } else if index == 6 {
        '7'
    } else if index == 7 {
        '8'
    } else if index == 8 {
        '9'
    } else {
        '?'
    }
}

/// What a key means in the menu of `count` suggestions: `q` or no key at
/// all quits, `n` asks for a new prompt, `g` for new suggestions, and a
/// digit chooses the suggestion of that number.
pub open spec fn key_choice(key: Option<char>, count: int) -> Choice {
    match key {
        None => Choice::Quit,
        Some(c) => if c == 'q' {
            Choice::Quit
        } else if c == 'n' {
            Choice::NewPrompt
        } else if c == 'g' {
            Choice::Regenerate
        } else if is_digit(c) && 1 <= digit_value(c) <= count {
            Choice::Select((digit_value(c) - 1) as usize)
        } else {
            Choice::Invalid
        },
    }
}

/// Reads a key of the menu of suggestions; see [`key_choice`].
pub fn dialog_choice(key: Option<char>, count: usize) -> (r: Choice)
    ensures
        r == key_choice(key, count as int),
{
    match key {
        None => Choice::Quit,
        Some(c) => {
            if c == 'q' {
                Choice::Quit
            } else if c == 'n' {
                Choice::NewPrompt
            } else if c == 'g' {
                Choice::Regenerate
            } else {
                match digit_of(c) {
                    Some(d) => {
                        if d >= 1 && (d as usize) <= count {
                            Choice::Select((d - 1) as usize)
                        } else {
                            Choice::Invalid
                        }
                    },
                    None => Choice::Invalid,
                }
            }
        },
    }
}

/// What a line means in the list of `count` suggestions: trimmed and in
/// lower case, `q` quits, `g` asks for new suggestions, `n` for a new
/// prompt, and a number chooses the suggestion of that number.
pub open spec fn line_choice(input: Seq<char>, count: int) -> Choice {
    word_choice(lowered(trimmed(input)), count)
}

/// What a word means in the list of `count` suggestions: `q` quits, `g`
/// asks for new suggestions, `n` for a new prompt, and a number chooses the
/// suggestion of that number.
pub open spec fn word_choice(word: Seq<char>, count: int) -> Choice {
    if word == "q"@ {
        Choice::Quit
    } else if word == "g"@ {
        Choice::Regenerate
    } else if word == "n"@ {
        Choice::NewPrompt
    } else {
        match u32_literal(word) {
            Ok(n) => if 1 <= n <= count {
                Choice::Select((n - 1) as usize)
            } else {
                Choice::Invalid
            },
            Err(_) => Choice::Invalid,
        }
    }
}

/// Reads a line of the list of suggestions; see [`line_choice`].
pub fn readline_choice(input: &str, count: usize) -> (r: Choice)
    ensures
        r == line_choice(input@, count as int),
{
    let t = trim(input);
    let word = to_lowercase(t.as_str());
    choice_of_word(word.as_str(), count)
}

/// Reads a word of the list of suggestions; see [`word_choice`].
pub fn choice_of_word(word: &str, count: usize) -> (r: Choice)
    ensures
        r == word_choice(word@, count as int),
{
    if word.eq("q") {
        Choice::Quit
    } else if word.eq("g") {
        Choice::Regenerate
    } else if word.eq("n") {
        Choice::NewPrompt
    } else {
        match parse_u32(word) {
            Ok(n) => {
                if n >= 1 && (n as usize) <= count {
                    Choice::Select((n - 1) as usize)
                } else {
                    Choice::Invalid
                }
            },
            Err(_) => Choice::Invalid,
        }
    }
}

/// What a user does with a chosen command.
#[derive(Debug, Clone, Copy, PartialEq, Eq, Structural)]
pub enum Action {
    Copy,
    Explain,
    Execute,
    Revise,
    Back,
    Quit,
    /// Nothing that the menu offers: the menu is shown again.
    Stay,
}

/// What a key means in the menu of actions; no key at all quits.
pub open spec fn key_action(key: Option<char>) -> Action {
    match key {
        None => Action::Quit,
        Some(c) => if c == 'c' {
            Action::Copy
        } else if c == 'e' {
            Action::Explain
        } else if c == 'x' {
            Action::Execute
        } else if c == 'r' {
            Action::Revise
        } else if c == 'b' {
            Action::Back
        } else if c == 'q' {
            Action::Quit
        } else {
            Action::Stay
        },
    }
}

/// Reads a key of the menu of actions; see [`key_action`].
pub fn dialog_action(key: Option<char>) -> (r: Action)
    ensures
        r == key_action(key),
{
    match key {
        None => Action::Quit,
        Some(c) => {
            if c == 'c' {
                Action::Copy
            } else if c == 'e' {
                Action::Explain
            } else if c == 'x' {
                Action::Execute
            } else if c == 'r' {
                Action::Revise
            } else if c == 'b' {
                Action::Back
            } else if c == 'q' {
                Action::Quit
            } else {
                Action::Stay
            }
        },
    }
}

/// What a line means in the list of actions: trimmed and in lower case, a
/// letter names its action, and anything else quits.
pub open spec fn line_action(input: Seq<char>) -> Action {
    word_action(lowered(trimmed(input)))
}

/// What a word means in the list of actions: a letter names its action,
/// and anything else quits.
pub open spec fn word_action(word: Seq<char>) -> Action {
    if word == "c"@ {
        Action::Copy
    } else if word == "e"@ {
        Action::Explain
    } else if word == "x"@ {
        Action::Execute
    } else if word == "r"@ {
        Action::Revise
    } else if word == "b"@ {
        Action::Back
    } else {
        Action::Quit
    }
}

/// Reads a line of the list of actions; see [`line_action`].
pub fn readline_action(input: &str) -> (r: Action)
    ensures
        r == line_action(input@),
{
    let t = trim(input);
    let word = to_lowercase(t.as_str());
    action_of_word(word.as_str())
}

/// Reads a word of the list of actions; see [`word_action`].
pub fn action_of_word(word: &str) -> (r: Action)
    ensures
        r == word_action(word@),
{
    if word.eq("c") {
        Action::Copy
    } else if word.eq("e") {
        Action::Explain
    } else if word.eq("x") {
        Action::Execute
    } else if word.eq("r") {
        Action::Revise
    } else if word.eq("b") {
        Action::Back
    } else {
        Action::Quit
    }
}

} // verus!
