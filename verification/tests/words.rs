use shell_ai::commands::{add_command, command_in_word, first_command_in, names_no_command};
use shell_ai::explain::is_heading_line;
use shell_ai::integration::{Feature, Preset, ShellType};
use shell_ai::suggest::{action_of_word, choice_of_word, Action, Choice};
use shell_ai::validate::frontend_against_switch;

fn words(items: &[&str]) -> Vec<String> {
    items.iter().map(|w| w.to_string()).collect()
}

#[test]
fn names_in_lower_case_are_read_exactly() {
    assert_eq!(ShellType::from_lowercase_name("zsh"), Some(ShellType::Zsh));
    assert_eq!(ShellType::from_lowercase_name("powershell"), Some(ShellType::PowerShell));
    assert_eq!(ShellType::from_lowercase_name("Zsh"), None);
    assert_eq!(ShellType::from_lowercase_name(""), None);
    assert_eq!(Feature::from_lowercase_name("aliases"), Some(Feature::Aliases));
    assert_eq!(Feature::from_lowercase_name("keybinding"), Some(Feature::Keybinding));
    assert_eq!(Feature::from_lowercase_name("ALIASES"), None);
    assert_eq!(Preset::from_lowercase_name("full"), Some(Preset::Full));
    assert_eq!(Preset::from_lowercase_name("minimal"), Some(Preset::Minimal));
    assert_eq!(Preset::from_lowercase_name("fullest"), None);
}

#[test]
fn a_word_names_a_command_unless_it_is_passed_over() {
    assert_eq!(command_in_word("ls"), Some("ls".to_string()));
    assert_eq!(command_in_word("./run.sh"), Some("run.sh".to_string()));
    assert_eq!(command_in_word("././x"), Some("x".to_string()));
    assert_eq!(command_in_word("FOO=bar"), None);
    assert_eq!(command_in_word("--color=auto"), None);
    assert_eq!(command_in_word("-l"), None);
    assert_eq!(command_in_word(">out"), None);
    assert_eq!(command_in_word("<in"), None);
    assert_eq!(command_in_word("2"), None);
    assert_eq!(command_in_word("./"), None);
    assert_eq!(command_in_word(""), None);
}

#[test]
fn the_first_word_that_names_a_command_is_taken() {
    assert_eq!(
        first_command_in(&words(&["A=1", "B=2", "make", "all"])),
        Some("make".to_string())
    );
    assert_eq!(first_command_in(&words(&["-x", "2", ">f"])), None);
    assert_eq!(first_command_in(&words(&[])), None);
}

#[test]
fn empty_segments_and_expansions_name_no_command() {
    assert!(names_no_command(""));
    assert!(names_no_command("$HOME/bin/x"));
    assert!(!names_no_command("ls $HOME"));
    assert!(!names_no_command(" "));
}

#[test]
fn a_command_is_named_once() {
    let mut commands = words(&["ls"]);
    add_command(&mut commands, Some("grep".to_string()));
    add_command(&mut commands, None);
    add_command(&mut commands, Some("ls".to_string()));
    add_command(&mut commands, Some("wc".to_string()));
    assert_eq!(commands, words(&["ls", "grep", "wc"]));
}

#[test]
fn a_word_chooses_a_suggestion() {
    assert_eq!(choice_of_word("q", 3), Choice::Quit);
    assert_eq!(choice_of_word("g", 3), Choice::Regenerate);
    assert_eq!(choice_of_word("n", 3), Choice::NewPrompt);
    assert_eq!(choice_of_word("1", 3), Choice::Select(0));
    assert_eq!(choice_of_word("3", 3), Choice::Select(2));
    assert_eq!(choice_of_word("+2", 3), Choice::Select(1));
    assert_eq!(choice_of_word("4", 3), Choice::Invalid);
    assert_eq!(choice_of_word("0", 3), Choice::Invalid);
    assert_eq!(choice_of_word("Q", 3), Choice::Invalid);
    assert_eq!(choice_of_word("", 3), Choice::Invalid);
    assert_eq!(choice_of_word("12", 12), Choice::Select(11));
}

#[test]
fn a_word_names_an_action() {
    assert_eq!(action_of_word("c"), Action::Copy);
    assert_eq!(action_of_word("e"), Action::Explain);
    assert_eq!(action_of_word("x"), Action::Execute);
    assert_eq!(action_of_word("r"), Action::Revise);
    assert_eq!(action_of_word("b"), Action::Back);
    assert_eq!(action_of_word("q"), Action::Quit);
    assert_eq!(action_of_word("C"), Action::Quit);
    assert_eq!(action_of_word(""), Action::Quit);
}

#[test]
fn a_heading_begins_at_the_margin_with_a_capital() {
    assert!(is_heading_line("OPTIONS", "OPTIONS"));
    assert!(is_heading_line("Name  ", "Name"));
    assert!(!is_heading_line("  OPTIONS", "OPTIONS"));
    assert!(!is_heading_line("\tOPTIONS", "OPTIONS"));
    assert!(!is_heading_line("options", "options"));
    assert!(!is_heading_line("", ""));
    assert!(!is_heading_line("-x", "-x"));
}

#[test]
fn a_frontend_stands_against_the_switch_unless_it_is_noninteractive() {
    assert_eq!(
        frontend_against_switch("true", "Readline", "readline"),
        Some("Readline".to_string())
    );
    assert_eq!(frontend_against_switch("true", "NonInteractive", "noninteractive"), None);
    assert_eq!(frontend_against_switch("true", "", ""), None);
    assert_eq!(frontend_against_switch("false", "dialog", "dialog"), None);
    assert_eq!(frontend_against_switch("1", "dialog", "dialog"), None);
}

#[test]
fn white_space_is_what_the_standard_library_takes_for_it() {
    let mut count = 0;
    for n in 0..=0x10FFFFu32 {
        if let Some(c) = char::from_u32(n) {
            assert_eq!(shell_ai::text::is_white_space(c), c.is_whitespace(), "U+{:04X}", n);
            if c.is_whitespace() {
                count += 1;
            }
        }
    }
    assert_eq!(count, 25);
}

#[test]
fn words_and_trimming_follow_every_kind_of_white_space() {
    assert_eq!(
        shell_ai::commands::extract_command_names("\u{2003}ls\u{3000}-l\u{a0}| \u{1680}wc\u{85}-l"),
        words(&["ls", "wc"])
    );
    // A zero-width space is no white space: it stays part of the word.
    assert_eq!(
        shell_ai::commands::extract_command_names("ls\u{200b}x -l"),
        words(&["ls\u{200b}x"])
    );
    assert_eq!(action_of_word("c"), Action::Copy);
    assert_eq!(shell_ai::suggest::readline_action("\u{3000}C\u{2028}\n"), Action::Copy);
    assert_eq!(shell_ai::suggest::readline_action("\u{200b}c"), Action::Quit);
    assert_eq!(shell_ai::suggest::readline_choice("\t 2 \u{205f}", 3), Choice::Select(1));
}

#[test]
fn trimming_and_splitting_are_those_of_the_standard_library() {
    let alphabet = [' ', '\u{3000}', 'a', '\u{200b}', '\n', 'é'];
    let mut texts: Vec<String> = vec![String::new()];
    let mut level: Vec<String> = vec![String::new()];
    for _ in 0..5 {
        let mut next = Vec::new();
        for text in &level {
            for c in alphabet {
                let mut longer = text.clone();
                longer.push(c);
                next.push(longer);
            }
        }
        texts.extend(next.iter().cloned());
        level = next;
    }
    assert_eq!(texts.len(), 1 + 6 + 36 + 216 + 1296 + 7776);
    for text in &texts {
        assert_eq!(shell_ai::text::trim(text), text.trim(), "{:?}", text);
        let words: Vec<String> = text.split_whitespace().map(|w| w.to_string()).collect();
        assert_eq!(shell_ai::commands::split_whitespace(text), words, "{:?}", text);
    }
    assert_eq!(shell_ai::text::trim("\t ls -la \r\n"), "ls -la");
    assert_eq!(shell_ai::text::trim("\u{2003}"), "");
    assert_eq!(
        shell_ai::commands::split_whitespace("  git\tcommit \u{a0}-m\n"),
        words(&["git", "commit", "-m"])
    );
}

#[test]
fn lower_and_upper_case_are_those_of_the_standard_library() {
    // Every text of one or two characters of ASCII.
    for a in 0u8..128 {
        let one = (a as char).to_string();
        assert_eq!(shell_ai::text::to_lowercase(&one), one.to_lowercase(), "{:?}", one);
        assert_eq!(shell_ai::text::to_uppercase(&one), one.to_uppercase(), "{:?}", one);
        for b in 0u8..128 {
            let mut two = one.clone();
            two.push(b as char);
            assert_eq!(shell_ai::text::to_lowercase(&two), two.to_lowercase(), "{:?}", two);
            assert_eq!(shell_ai::text::to_uppercase(&two), two.to_uppercase(), "{:?}", two);
        }
    }
    // Longer texts, and texts beyond ASCII, where Unicode decides.
    for text in [
        "",
        "TRUE",
        "NonInteractive",
        "openai.api_key",
        "PowerShell 7.4 [x64] {ÄÖÜ}",
        "ΌΣΟΣ ΣΑΣ",
        "Straße",
        "\u{212a}eybinding",
        "İstanbul",
        "ǅ",
    ] {
        assert_eq!(shell_ai::text::to_lowercase(text), text.to_lowercase(), "{:?}", text);
        assert_eq!(shell_ai::text::to_uppercase(text), text.to_uppercase(), "{:?}", text);
    }
    assert_eq!(shell_ai::text::to_lowercase("TRUE"), "true");
    assert_eq!(shell_ai::text::to_uppercase("openai.api_key"), "OPENAI.API_KEY");
    // The Kelvin sign is lower-cased to the letter k, as Unicode has it.
    assert_eq!(
        shell_ai::integration::Feature::from_name("\u{212a}eybinding"),
        Ok(Feature::Keybinding)
    );
}
