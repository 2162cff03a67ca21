use shell_ai::render::{choose_segment, render_line, segment_to_show};

#[test]
fn a_piece_that_the_command_holds_is_shown_as_it_is() {
    assert_eq!(segment_to_show("ls -la /tmp", "-la"), "-la");
    assert_eq!(segment_to_show("grep \"a b\" f", "\"a b\""), "\"a b\"");
    assert_eq!(segment_to_show("ls", ""), "");
}

#[test]
fn a_piece_that_was_escaped_twice_is_decoded_once_more() {
    // The command holds a quote; the model gave it with a backslash before it.
    assert_eq!(segment_to_show("echo \"hi\"", "\\\"hi\\\""), "\"hi\"");
    assert_eq!(segment_to_show("printf 'a\tb'", "'a\\tb'"), "'a\tb'");
    assert_eq!(segment_to_show("echo é", "\\u00e9"), "é");
}

#[test]
fn a_piece_that_cannot_be_found_is_shown_as_it_was_given() {
    // Decodes, but the command does not hold what it decodes to.
    assert_eq!(segment_to_show("ls", "\\\"hi\\\""), "\\\"hi\\\"");
    // Does not decode: a quote of its own ends the string early.
    assert_eq!(segment_to_show("ls", "a\"b"), "a\"b");
    assert_eq!(segment_to_show("ls", "cat"), "cat");
}

#[test]
fn the_choice_among_the_piece_and_its_decoding() {
    assert_eq!(choose_segment("ls -l", "-l", Some("x")), "-l");
    assert_eq!(choose_segment("ls -l", "-x", Some("-l")), "-l");
    assert_eq!(choose_segment("ls -l", "-x", Some("-y")), "-x");
    assert_eq!(choose_segment("ls -l", "-x", None), "-x");
}

#[test]
fn a_line_is_put_together_with_single_blanks() {
    assert_eq!(
        render_line(1, Some("The flag"), "-l", Some("lists in long format")),
        "  • The flag -l lists in long format"
    );
    assert_eq!(render_line(0, None, "ls", None), "• ls");
    assert_eq!(render_line(2, Some(""), "ls", Some("")), "    • ls");
    assert_eq!(render_line(3, None, "ls", Some("lists")), "      • ls lists");
    assert_eq!(render_line(1, Some("Runs"), "ls", None), "  • Runs ls");
}
