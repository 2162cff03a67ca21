use shell_ai::editor::word_boundary_backward;
use shell_ai::editor::word_boundary_forward;
use shell_ai::editor::EditKey;
use shell_ai::editor::EditOutcome;
use shell_ai::editor::LineEditor;
use shell_ai::options::ExplainOptions;
use shell_ai::options::SuggestOptions;
use shell_ai::ui::find_word_boundary_backward;
use shell_ai::ui::find_word_boundary_forward;
use shell_ai::ui::InteractiveSelect;
use shell_ai::ui::Key;
use shell_ai::ui::KeyAction;
use shell_ai::ui::SelectOption;
use shell_ai::ui::TextInput;

fn menu() -> InteractiveSelect {
    InteractiveSelect::new("Select a command:")
        .option('1', "ls -la")
        .option('2', "ls")
        .option('g', "Generate new suggestions")
        .option('q', "Dismiss")
}

#[test]
fn options_are_made_of_a_key_and_a_label() {
    let option = SelectOption::new('x', "Execute command");
    assert_eq!(option.key, 'x');
    assert_eq!(option.label, "Execute command");
    let input = TextInput::new("New prompt:").with_initial_value("ls");
    assert_eq!(input.prompt(), "New prompt:");
    assert_eq!(input.initial_value(), "ls");
    assert_eq!(TextInput::new("p").initial_value(), "");
    let explain = ExplainOptions { command: vec!["ls".to_string()] };
    assert_eq!(explain.command.len(), 1);
    let suggest = SuggestOptions { ctx: true, prompt: vec![] };
    assert!(suggest.ctx && suggest.prompt.is_empty());
}

#[test]
fn keys_select_cancel_and_move() {
    let m = menu();
    assert_eq!(m.handle_key(Key::Char('2'), false), KeyAction::Select('2'));
    assert_eq!(m.handle_key(Key::Char('g'), false), KeyAction::Select('g'));
    assert_eq!(m.handle_key(Key::Char('z'), false), KeyAction::Ignore);
    assert_eq!(m.handle_key(Key::Char('c'), true), KeyAction::Cancel);
    assert_eq!(m.handle_key(Key::Char('c'), false), KeyAction::Ignore);
    assert_eq!(m.handle_key(Key::Esc, false), KeyAction::Cancel);
    assert_eq!(m.handle_key(Key::Up, false), KeyAction::MoveUp);
    assert_eq!(m.handle_key(Key::Char('k'), false), KeyAction::MoveUp);
    assert_eq!(m.handle_key(Key::Down, true), KeyAction::MoveDown);
    assert_eq!(m.handle_key(Key::Char('j'), false), KeyAction::MoveDown);
    assert_eq!(m.handle_key(Key::Enter, false), KeyAction::Select('1'));
    assert_eq!(m.handle_key(Key::Other, false), KeyAction::Ignore);
    let empty = InteractiveSelect::new("nothing");
    assert_eq!(empty.handle_key(Key::Enter, false), KeyAction::Ignore);
    // a key that is both a move and an option moves
    let odd = InteractiveSelect::new("odd").option('k', "kay");
    assert_eq!(odd.handle_key(Key::Char('k'), false), KeyAction::MoveUp);
}

#[test]
fn the_highlight_wraps_around() {
    let mut m = menu();
    m.move_highlight(KeyAction::MoveUp);
    assert_eq!(m.handle_key(Key::Enter, false), KeyAction::Select('q'));
    m.move_highlight(KeyAction::MoveDown);
    assert_eq!(m.handle_key(Key::Enter, false), KeyAction::Select('1'));
    m.move_highlight(KeyAction::MoveDown);
    m.move_highlight(KeyAction::MoveDown);
    assert_eq!(m.handle_key(Key::Enter, false), KeyAction::Select('g'));
    m.move_highlight(KeyAction::Cancel);
    assert_eq!(m.handle_key(Key::Enter, false), KeyAction::Select('g'));
    let mut empty = InteractiveSelect::new("nothing");
    empty.move_highlight(KeyAction::MoveDown);
    empty.move_highlight(KeyAction::MoveUp);
    assert_eq!(empty.handle_key(Key::Enter, false), KeyAction::Ignore);
}

#[test]
fn lines_are_counted_by_the_width_of_the_terminal() {
    assert_eq!(InteractiveSelect::lines_needed("", 80), 1);
    assert_eq!(InteractiveSelect::lines_needed("abc", 0), 1);
    assert_eq!(InteractiveSelect::lines_needed("abc", 80), 1);
    assert_eq!(InteractiveSelect::lines_needed("abcd", 4), 1);
    assert_eq!(InteractiveSelect::lines_needed("abcde", 4), 2);
    assert_eq!(InteractiveSelect::lines_needed("abcdefgh", 4), 2);
    assert_eq!(InteractiveSelect::lines_needed("abcdefghi", 4), 3);
    assert_eq!(InteractiveSelect::lines_needed("é", 1), 2);
}

#[test]
fn word_boundaries_in_bytes() {
    let s = "git  commit -m";
    assert_eq!(find_word_boundary_backward(s, 0), 0);
    assert_eq!(find_word_boundary_backward(s, 3), 0);
    assert_eq!(find_word_boundary_backward(s, 5), 0);
    assert_eq!(find_word_boundary_backward(s, 8), 5);
    assert_eq!(find_word_boundary_backward(s, 12), 5);
    assert_eq!(find_word_boundary_backward(s, 14), 12);
    assert_eq!(find_word_boundary_forward(s, 0), 5);
    assert_eq!(find_word_boundary_forward(s, 3), 5);
    assert_eq!(find_word_boundary_forward(s, 6), 12);
    assert_eq!(find_word_boundary_forward(s, 12), 14);
    assert_eq!(find_word_boundary_forward(s, 14), 14);
    assert_eq!(find_word_boundary_forward(s, 99), 14);
    assert_eq!(find_word_boundary_forward("a\tb\nc", 0), 2);
    assert_eq!(find_word_boundary_backward("   ", 3), 0);
}

#[test]
fn word_boundaries_in_characters() {
    let chars: Vec<char> = "été  là".chars().collect();
    assert_eq!(word_boundary_backward(&chars, 7), 5);
    assert_eq!(word_boundary_backward(&chars, 5), 0);
    assert_eq!(word_boundary_backward(&chars, 0), 0);
    assert_eq!(word_boundary_forward(&chars, 0), 5);
    assert_eq!(word_boundary_forward(&chars, 4), 5);
    assert_eq!(word_boundary_forward(&chars, 5), 7);
    assert_eq!(word_boundary_forward(&chars, 7), 7);
}

fn typed(editor: &mut LineEditor, text: &str) {
    for c in text.chars() {
        assert_eq!(editor.apply(EditKey::Char(c), false, false), EditOutcome::Continue);
    }
}

#[test]
fn a_line_is_edited_key_by_key() {
    let mut e = LineEditor::new("");
    typed(&mut e, "ls -la /tmp");
    assert_eq!(e.text(), "ls -la /tmp");
    assert_eq!(e.cursor(), 11);
    assert_eq!(e.apply(EditKey::Backspace, false, false), EditOutcome::Continue);
    assert_eq!(e.text(), "ls -la /tm");
    assert_eq!(e.apply(EditKey::Char('w'), true, false), EditOutcome::Continue);
    assert_eq!(e.text(), "ls -la ");
    assert_eq!(e.cursor(), 7);
    assert_eq!(e.apply(EditKey::Home, false, false), EditOutcome::Continue);
    assert_eq!(e.cursor(), 0);
    assert_eq!(e.apply(EditKey::Backspace, false, false), EditOutcome::Continue);
    assert_eq!(e.text(), "ls -la ");
    assert_eq!(e.apply(EditKey::Delete, false, false), EditOutcome::Continue);
    assert_eq!(e.text(), "s -la ");
    typed(&mut e, "l");
    assert_eq!(e.text(), "ls -la ");
    assert_eq!(e.cursor(), 1);
    assert_eq!(e.apply(EditKey::Right, true, false), EditOutcome::Continue);
    assert_eq!(e.cursor(), 3);
    assert_eq!(e.apply(EditKey::Char('d'), false, true), EditOutcome::Continue);
    assert_eq!(e.text(), "ls ");
    assert_eq!(e.apply(EditKey::End, false, false), EditOutcome::Continue);
    typed(&mut e, "é ü");
    assert_eq!(e.text(), "ls é ü");
    assert_eq!(e.apply(EditKey::Left, false, false), EditOutcome::Continue);
    assert_eq!(e.apply(EditKey::Left, true, false), EditOutcome::Continue);
    assert_eq!(e.cursor(), 3);
    assert_eq!(e.apply(EditKey::Char('k'), true, false), EditOutcome::Continue);
    assert_eq!(e.text(), "ls ");
    assert_eq!(e.apply(EditKey::Char('u'), true, false), EditOutcome::Continue);
    assert_eq!(e.text(), "");
    assert_eq!(e.cursor(), 0);
}

#[test]
fn control_and_alt_keys_move_and_delete() {
    let mut e = LineEditor::new("one two three");
    assert_eq!(e.cursor(), 13);
    assert_eq!(e.apply(EditKey::Char('b'), false, true), EditOutcome::Continue);
    assert_eq!(e.cursor(), 8);
    assert_eq!(e.apply(EditKey::Char('b'), true, false), EditOutcome::Continue);
    assert_eq!(e.cursor(), 7);
    assert_eq!(e.apply(EditKey::Char('f'), true, false), EditOutcome::Continue);
    assert_eq!(e.cursor(), 8);
    assert_eq!(e.apply(EditKey::Char('a'), true, false), EditOutcome::Continue);
    assert_eq!(e.cursor(), 0);
    assert_eq!(e.apply(EditKey::Char('f'), false, true), EditOutcome::Continue);
    assert_eq!(e.cursor(), 4);
    assert_eq!(e.apply(EditKey::Char('d'), true, false), EditOutcome::Continue);
    assert_eq!(e.text(), "one wo three");
    assert_eq!(e.apply(EditKey::Char('e'), true, false), EditOutcome::Continue);
    assert_eq!(e.cursor(), 12);
    assert_eq!(e.apply(EditKey::Backspace, false, true), EditOutcome::Continue);
    assert_eq!(e.text(), "one wo ");
    assert_eq!(e.apply(EditKey::Right, false, false), EditOutcome::Continue);
    assert_eq!(e.cursor(), 7);
    assert_eq!(e.apply(EditKey::Delete, false, false), EditOutcome::Continue);
    assert_eq!(e.apply(EditKey::Other, true, true), EditOutcome::Continue);
    assert_eq!(e.apply(EditKey::Char('x'), true, false), EditOutcome::Continue);
    assert_eq!(e.apply(EditKey::Char('x'), false, true), EditOutcome::Continue);
    assert_eq!(e.text(), "one wo ");
}

#[test]
fn a_line_is_confirmed_or_given_up() {
    let mut e = LineEditor::new("keep");
    assert_eq!(e.apply(EditKey::Enter, false, false), EditOutcome::Confirm);
    assert_eq!(e.apply(EditKey::Esc, false, false), EditOutcome::Cancel);
    assert_eq!(e.apply(EditKey::Char('c'), true, false), EditOutcome::Cancel);
    assert_eq!(e.apply(EditKey::Char('c'), true, true), EditOutcome::Cancel);
    assert_eq!(e.text(), "keep");
    assert_eq!(e.cursor(), 4);
}

#[test]
fn a_menu_counts_its_wrapped_lines() {
    // The help line holds 46 characters in 54 bytes.
    let m = InteractiveSelect::new("Pick")
        .option('1', "ls -la")
        .option('2', "a label that is longer than the others");
    assert_eq!(m.calculate_total_lines(80), 1 + 1 + 1 + 1 + 1);
    // At ten columns: prompt 1, options (6 + 6) -> 2 and (6 + 38) -> 5,
    // the empty line, and the help of 54 bytes -> 6.
    assert_eq!(m.calculate_total_lines(10), 1 + 2 + 5 + 1 + 6);
    assert_eq!(InteractiveSelect::new("").calculate_total_lines(80), 3);
    assert_eq!(InteractiveSelect::new("").calculate_total_lines(1), 1 + 1 + 54);
}
