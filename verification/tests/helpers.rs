use shell_ai::commands::extract_command_names;
use shell_ai::commands::split_segments;
use shell_ai::documents::read_json;
use shell_ai::explain::build_explain_schema;
use shell_ai::explain::build_system_prompt;
use shell_ai::explain::extract_options_section;
use shell_ai::explain::extract_section;
use shell_ai::explain::truncate_to_limit;
use shell_ai::http::after_failure;
use shell_ai::http::extract_api_error;
use shell_ai::http::extract_content_from_response;
use shell_ai::http::is_truncated;
use shell_ai::http::status_description;
use shell_ai::http::Failure;
use shell_ai::http::NextStep;
use shell_ai::kinds::DebugLevel;
use shell_ai::kinds::LevelFilter;
use shell_ai::logging::enabled;
use shell_ai::logging::prefix;
use shell_ai::logging::set_debug;
use shell_ai::logging::DebugSetting;
use shell_ai::logging::Level;
use shell_ai::references::after_response;
use shell_ai::references::gather_man_references;
use shell_ai::references::man_page_text;
use shell_ai::references::select_references;
use shell_ai::references::sort_references;
use shell_ai::references::ExplainStep;
use shell_ai::references::ManReference;
use shell_ai::suggest::classify_command;
use shell_ai::suggest::collect_suggestions;
use shell_ai::suggest::context_tail;
use shell_ai::suggest::dialog_action;
use shell_ai::suggest::dialog_choice;
use shell_ai::suggest::option_key;
use shell_ai::suggest::readline_action;
use shell_ai::suggest::readline_choice;
use shell_ai::suggest::suggestion_count;
use shell_ai::suggest::system_message;
use shell_ai::suggest::user_message;
use shell_ai::suggest::Action;
use shell_ai::suggest::Choice;
use shell_ai::suggest::CommandKind;
use shell_ai::text::contains_text;
use shell_ai::text::join;
use shell_ai::text::lines;
use shell_ai::text::split_on;
use shell_ai::text::split_path;
use shell_ai::text::starts_with;
use shell_ai::text::strip_prefix;
use shell_ai::text::trim_trailing_slashes;
use shell_ai::tree::Node;

#[test]
fn texts_are_split_and_joined() {
    assert_eq!(split_path("a.b.c"), vec!["a", "b", "c"]);
    assert_eq!(split_path(""), vec![""]);
    assert_eq!(split_path("."), vec!["", ""]);
    assert_eq!(split_path("a..b."), vec!["a", "", "b", ""]);
    assert_eq!(split_on("x,y,,z", ','), vec!["x", "y", "", "z"]);
    assert_eq!(join(&vec!["a", "b", "c"], ", "), "a, b, c");
    assert_eq!(join(&vec![], ", "), "");
    assert_eq!(join(&vec!["only"], ", "), "only");
    for text in ["", "a", "a\n", "a\nb", "a\r\nb\r\n", "\n", "\n\n", "a\r", "a\r\n\r", "\r\n"] {
        let expected: Vec<&str> = text.lines().collect();
        assert_eq!(lines(text), expected, "{:?}", text);
    }
    assert!(starts_with("abc", "ab"));
    assert!(starts_with("abc", ""));
    assert!(!starts_with("ab", "abc"));
    assert_eq!(strip_prefix("# @shell: zsh", "# @shell: "), Some("zsh".to_string()));
    assert_eq!(strip_prefix("zsh", "# "), None);
    assert!(contains_text("a/chat/completions?x", "/chat/completions"));
    assert!(contains_text("abc", ""));
    assert!(!contains_text("abc", "abcd"));
    assert!(!contains_text("/chat/completion", "/chat/completions"));
    assert_eq!(trim_trailing_slashes("http://x///"), "http://x");
    assert_eq!(trim_trailing_slashes("///"), "");
    assert_eq!(trim_trailing_slashes("a/b"), "a/b");
}

#[test]
fn commands_are_found_in_a_line_of_shell() {
    assert_eq!(extract_command_names("ls -la"), vec!["ls"]);
    assert_eq!(
        extract_command_names("cat file.txt | grep -i foo && ./run.sh; ls"),
        vec!["cat", "grep", "run.sh", "ls"]
    );
    assert_eq!(extract_command_names("FOO=bar  make -j4 2>&1 | tee log"), vec!["make", "tee"]);
    assert_eq!(extract_command_names("echo $(date) `whoami`"), vec!["echo", "date", "whoami"]);
    assert_eq!(extract_command_names("ls | ls | ls"), vec!["ls"]);
    assert_eq!(extract_command_names("$HOME/bin/x; < in cat"), vec!["in"]);
    assert_eq!(extract_command_names("<in >out 42 cat"), vec!["cat"]);
    assert_eq!(extract_command_names("./././x --flag"), vec!["x"]);
    assert_eq!(extract_command_names("   "), Vec::<String>::new());
    assert_eq!(extract_command_names("--help"), Vec::<String>::new());
    assert_eq!(extract_command_names("a\nb"), vec!["a", "b"]);
    assert_eq!(split_segments("a|b&&c"), vec!["a", "b", "", "c"]);
}

#[test]
fn texts_are_cut_at_the_end_of_a_line() {
    assert_eq!(truncate_to_limit("short", 10), "short");
    assert_eq!(truncate_to_limit("exact", 5), "exact");
    assert_eq!(truncate_to_limit("line one\nline two\nline three", 20), "line one\nline two...\n[truncated]");
    assert_eq!(truncate_to_limit("no line feed at all", 7), "no line...\n[truncated]");
    assert_eq!(truncate_to_limit("\nabc", 2), "...\n[truncated]");
    assert_eq!(truncate_to_limit("abc", 0), "...\n[truncated]");
    assert_eq!(truncate_to_limit("a\nb\nc", 4), "a\nb...\n[truncated]");
}

const PAGE: &str = "LS(1)\n\nNAME\n       ls - list directory contents\n\nDESCRIPTION\n       List information.\n\n       -a     do not ignore entries\n\nOPTIONS\n       -l     long listing\n\n   Indented heading\n       more\nOPTIONS EXTRA\n       continued\nAUTHOR\n       Someone\n";

#[test]
fn sections_are_found_in_a_manual_page() {
    assert_eq!(
        extract_section(PAGE, "OPTIONS").as_deref(),
        Some("OPTIONS\n       -l     long listing\n\n   Indented heading\n       more\nOPTIONS EXTRA\n       continued")
    );
    assert_eq!(
        extract_section(PAGE, "NAME").as_deref(),
        Some("NAME\n       ls - list directory contents\n")
    );
    assert_eq!(extract_section(PAGE, "AUTHOR").as_deref(), Some("AUTHOR\n       Someone"));
    assert_eq!(extract_section(PAGE, "SEE ALSO"), None);
    assert_eq!(extract_section("", "OPTIONS"), None);
    assert_eq!(extract_options_section(PAGE), extract_section(PAGE, "OPTIONS"));
    assert_eq!(
        extract_options_section("DESCRIPTION\n  text\n").as_deref(),
        Some("DESCRIPTION\n  text")
    );
    assert_eq!(extract_options_section("nothing here"), None);
}

#[test]
fn the_prompt_depends_on_citations_and_locale() {
    let plain = build_system_prompt(false, None);
    assert!(plain.starts_with("You are a shell command explainer. The user will provide a shell command, and you will explain it by breaking it down into its components.\n\nOutput format: JSON with \"synopsis\" and \"explanations\" array.\n\n"));
    assert!(!plain.contains("citation"));
    assert!(plain.contains("\nExample:\n{\n  \"segment\": \"-x\",\n  \"prefix\": null,\n"));
    assert!(plain.ends_with("4. Keep explanations concise\n"));
    let cited = build_system_prompt(true, Some("de_DE"));
    assert!(cited.contains("components.\n\nRespond in the user's preferred locale/language: de_DE\n\nFor each segment, you MUST:\n"));
    assert!(cited.contains("  \"citation_confidence\": 1.0,\n"));
    assert!(cited.ends_with("5. USE the provided documentation - cite verbatim and base explanation on it\n"));
    assert!(cited.contains("The rendered output is: \"{prefix} {segment} {suffix}\" - this MUST be a natural sentence.\n\n"));
}

#[test]
fn the_schema_of_the_answer_has_citations_on_demand() {
    let plain = build_explain_schema(false);
    assert_eq!(plain.lookup("type"), Some(&Node::Text("object".to_string())));
    assert_eq!(plain.lookup("additionalProperties"), Some(&Node::Bool(false)));
    let explanation = plain.get("$defs").unwrap().get("explanation").unwrap();
    assert_eq!(explanation.get("properties").unwrap().entry_count(), 4);
    assert_eq!(
        explanation.get("required"),
        Some(&Node::List(
            ["segment", "prefix", "suffix", "children"].iter().map(|n| Node::Text(n.to_string())).collect()
        ))
    );
    let cited = build_explain_schema(true);
    let explanation = cited.get("$defs").unwrap().get("explanation").unwrap();
    let properties = explanation.get("properties").unwrap();
    assert_eq!(properties.entry_count(), 6);
    assert_eq!(
        properties.get("citation_confidence").unwrap().get("maximum"),
        Some(&Node::Number("1.0".to_string()))
    );
    assert_eq!(
        properties.get("children").unwrap().get("items").unwrap().get("$ref"),
        Some(&Node::Text("#/$defs/explanation".to_string()))
    );
    let expected = read_json("[\"segment\", \"prefix\", \"suffix\", \"children\", \"citation\", \"citation_confidence\"]").unwrap();
    assert_eq!(explanation.get("required"), Some(&expected));
}

fn reference(command: &str, size: usize) -> ManReference {
    ManReference { command: command.to_string(), content: "x".repeat(size), char_count: size }
}

#[test]
fn references_are_kept_smallest_first() {
    let refs = vec![reference("big", 60), reference("small", 10), reference("mid", 30), reference("same", 30)];
    let sorted: Vec<String> = sort_references(&refs).into_iter().map(|r| r.command).collect();
    assert_eq!(sorted, vec!["small", "mid", "same", "big"]);
    let kept: Vec<String> = select_references(&refs, 75).into_iter().map(|r| r.command).collect();
    assert_eq!(kept, vec!["small", "mid", "same"]);
    let kept: Vec<String> = select_references(&refs, 100).into_iter().map(|r| r.command).collect();
    assert_eq!(kept, vec!["small", "mid", "same"]);
    let kept: Vec<String> = select_references(&refs, 130).into_iter().map(|r| r.command).collect();
    assert_eq!(kept, vec!["small", "mid", "same", "big"]);
    let kept: Vec<String> = select_references(&refs, 45).into_iter().map(|r| r.command).collect();
    assert_eq!(kept, vec!["small", "mid"]);
    assert_eq!(select_references(&refs, 9).len(), 0);
    assert_eq!(select_references(&vec![], 100).len(), 0);
}

#[test]
fn manual_pages_become_references() {
    assert_eq!(
        man_page_text("ls", "OPTIONS\n  -l long\n", 1000).as_deref(),
        Some("# ls(1)\n\nOPTIONS\n  -l long")
    );
    assert_eq!(man_page_text("ls", "", 1000), None);
    assert_eq!(
        man_page_text("ls", "plain text without sections", 11).as_deref(),
        Some("# ls(1)\n\nplain text ...\n[truncated]")
    );
    let pages = vec![
        ("ls".to_string(), "OPTIONS\n  -l long\n".to_string()),
        ("nothing".to_string(), "".to_string()),
        ("cat".to_string(), "OPTIONS\n  -n\n".to_string()),
    ];
    let refs = gather_man_references(&pages, 1000);
    let names: Vec<&str> = refs.iter().map(|r| r.command.as_str()).collect();
    assert_eq!(names, vec!["cat", "ls"]);
    assert_eq!(refs[0].content, "# cat(1)\n\nOPTIONS\n  -n");
    assert_eq!(refs[0].char_count, refs[0].content.len());
    let refs = gather_man_references(&pages, 30);
    let names: Vec<&str> = refs.iter().map(|r| r.command.as_str()).collect();
    assert_eq!(names, vec!["cat"]);
}

#[test]
fn answers_to_explain_requests_are_sorted_out() {
    assert_eq!(after_response(200, "{}", 0), ExplainStep::Parse);
    assert_eq!(after_response(299, "", 3), ExplainStep::Parse);
    assert_eq!(after_response(413, "too big", 2), ExplainStep::DropAndRetry);
    assert_eq!(
        after_response(413, "too big", 0),
        ExplainStep::Fail("Request too large (HTTP 413): too big".to_string())
    );
    assert_eq!(
        after_response(413, "", 0),
        ExplainStep::Fail("Request too large (HTTP 413): context length exceeded".to_string())
    );
    assert_eq!(
        after_response(500, "", 1),
        ExplainStep::Fail("HTTP 500 error: Unknown error".to_string())
    );
    assert_eq!(
        after_response(199, "early", 0),
        ExplainStep::Fail("HTTP 199 error: early".to_string())
    );
    assert_eq!(
        after_response(300, "moved", 0),
        ExplainStep::Fail("HTTP 300 error: moved".to_string())
    );
}

#[test]
fn statuses_are_described() {
    assert_eq!(status_description(401), "Unauthorized - check your API key");
    assert_eq!(status_description(403), "Forbidden - check your API key permissions");
    assert_eq!(status_description(404), "Not found - check the API endpoint URL");
    assert_eq!(status_description(429), "Rate limited - too many requests");
    assert_eq!(status_description(500), "Server error - the API is having issues");
    assert_eq!(status_description(599), "Server error - the API is having issues");
    assert_eq!(status_description(600), "HTTP error");
    assert_eq!(status_description(400), "HTTP error");
}

#[test]
fn transient_failures_are_retried_with_a_growing_wait() {
    assert_eq!(after_failure(0, Failure::Status(429)), NextStep::RetryAfter(1000));
    assert_eq!(after_failure(1, Failure::Status(503)), NextStep::RetryAfter(2000));
    assert_eq!(after_failure(2, Failure::Network), NextStep::RetryAfter(4000));
    assert_eq!(after_failure(3, Failure::Network), NextStep::GiveUp);
    assert_eq!(after_failure(3, Failure::Status(500)), NextStep::GiveUp);
    assert_eq!(after_failure(0, Failure::Status(401)), NextStep::GiveUp);
    assert_eq!(after_failure(0, Failure::Status(600)), NextStep::GiveUp);
    assert_eq!(after_failure(0, Failure::Status(499)), NextStep::GiveUp);
}

#[test]
fn responses_are_taken_apart() {
    let ok = read_json("{\"choices\": [{\"message\": {\"content\": \"{\\\"command\\\": \\\"ls\\\"}\"}, \"finish_reason\": \"stop\"}]}").unwrap();
    assert_eq!(extract_content_from_response(&ok), Ok("{\"command\": \"ls\"}"));
    assert!(!is_truncated(&ok));
    assert_eq!(extract_api_error(&ok), None);
    let cut = read_json("{\"choices\": [{\"message\": {\"content\": 5}, \"finish_reason\": \"length\"}]}").unwrap();
    assert_eq!(
        extract_content_from_response(&cut),
        Err("API response missing choices[0].message.content".to_string())
    );
    assert!(is_truncated(&cut));
    for broken in ["{}", "{\"choices\": []}", "{\"choices\": {}}", "{\"choices\": [{}]}", "[]"] {
        let response = read_json(broken).unwrap();
        assert!(extract_content_from_response(&response).is_err());
        assert!(!is_truncated(&response));
    }
    let err = read_json("{\"error\": {\"message\": \"bad key\", \"error\": \"other\"}}").unwrap();
    assert_eq!(extract_api_error(&err), Some("bad key".to_string()));
    let err = read_json("{\"error\": {\"error\": \"other\"}}").unwrap();
    assert_eq!(extract_api_error(&err), Some("other".to_string()));
    let err = read_json("{\"error\": {\"message\": 5, \"error\": \"other\"}}").unwrap();
    assert_eq!(extract_api_error(&err), None);
    let err = read_json("{\"error\": \"plain\"}").unwrap();
    assert_eq!(extract_api_error(&err), None);
}

#[test]
fn the_logger_shows_what_the_level_allows() {
    assert!(enabled(Level::Error, false));
    assert!(enabled(Level::Warn, false));
    assert!(enabled(Level::Info, false));
    assert!(!enabled(Level::Debug, false));
    assert!(!enabled(Level::Trace, false));
    assert!(enabled(Level::Debug, true));
    assert!(enabled(Level::Trace, true));
    assert_eq!(prefix(Level::Error), "[error]");
    assert_eq!(prefix(Level::Trace), "[trace]");
    assert_eq!(set_debug(None), DebugSetting { switch_on: false, filter: LevelFilter::Info });
    assert_eq!(
        set_debug(Some(DebugLevel::Warn)),
        DebugSetting { switch_on: false, filter: LevelFilter::Warn }
    );
    assert_eq!(
        set_debug(Some(DebugLevel::Debug)),
        DebugSetting { switch_on: true, filter: LevelFilter::Debug }
    );
    assert_eq!(
        set_debug(Some(DebugLevel::Trace)),
        DebugSetting { switch_on: true, filter: LevelFilter::Trace }
    );
}

#[test]
fn suggestions_are_gathered_without_repeats() {
    let answers = vec![
        Ok(Some("ls".to_string())),
        Err("timeout".to_string()),
        Ok(Some("  ".to_string())),
        Ok(None),
        Ok(Some("ls -la".to_string())),
        Ok(Some("ls".to_string())),
        Err("rate limit".to_string()),
    ];
    assert_eq!(collect_suggestions(&answers), Ok(vec!["ls".to_string(), "ls -la".to_string()]));
    let answers = vec![Err("timeout".to_string()), Ok(None), Err("rate limit".to_string()), Ok(Some("".to_string()))];
    assert_eq!(
        collect_suggestions(&answers),
        Err("No suggestions could be generated.\nReason: rate limit".to_string())
    );
    assert_eq!(
        collect_suggestions(&vec![]),
        Err("No suggestions could be generated.\nReason: unknown error".to_string())
    );
    assert_eq!(suggestion_count(0), 1);
    assert_eq!(suggestion_count(5), 5);
}

#[test]
fn messages_for_the_model_are_assembled() {
    assert_eq!(
        user_message("list files"),
        "Generate a shell command that satisfies this user request: list files"
    );
    assert_eq!(
        system_message("", "linux", "x86_64"),
        "You are an expert at using shell commands. Respond with a JSON object only, matching the provided JSON schema. The command will be directly executed in a shell as a single executable line of code. The system the shell command will be executed on is linux x86_64."
    );
    assert_eq!(
        system_message("out", "macos", "aarch64"),
        "You are an expert at using shell commands. Respond with a JSON object only, matching the provided JSON schema. The command will be directly executed in a shell as a single executable line of code. Between [], these are the last 1500 characters from the previous command's output, you can use them as context: [out] The system the shell command will be executed on is macos aarch64."
    );
}

#[test]
fn commands_are_classified_for_context_mode() {
    assert_eq!(classify_command("vim notes.txt"), CommandKind::Editor);
    assert_eq!(classify_command("code ."), CommandKind::Editor);
    assert_eq!(classify_command("editor"), CommandKind::Editor);
    assert_eq!(classify_command("cd  ~/src  "), CommandKind::ChangeDir("~/src".to_string()));
    assert_eq!(classify_command("cd"), CommandKind::Capture);
    assert_eq!(classify_command("ls"), CommandKind::Capture);
    assert_eq!(context_tail("short"), "short");
    let long: String = "ab".repeat(1000);
    assert_eq!(context_tail(&long).len(), 1500);
    assert!(context_tail(&long).starts_with("ab"));
    let exact: String = "x".repeat(1500);
    assert_eq!(context_tail(&exact), exact);
    let long: String = format!("{}{}", "é".repeat(10), "z".repeat(1495));
    assert_eq!(context_tail(&long), format!("{}{}", "é".repeat(5), "z".repeat(1495)));
}

#[test]
fn menus_are_read_by_key_and_by_line() {
    assert_eq!(option_key(0), '1');
    assert_eq!(option_key(8), '9');
    assert_eq!(option_key(9), '?');
    assert_eq!(dialog_choice(None, 3), Choice::Quit);
    assert_eq!(dialog_choice(Some('q'), 3), Choice::Quit);
    assert_eq!(dialog_choice(Some('n'), 3), Choice::NewPrompt);
    assert_eq!(dialog_choice(Some('g'), 3), Choice::Regenerate);
    assert_eq!(dialog_choice(Some('1'), 3), Choice::Select(0));
    assert_eq!(dialog_choice(Some('3'), 3), Choice::Select(2));
    assert_eq!(dialog_choice(Some('4'), 3), Choice::Invalid);
    assert_eq!(dialog_choice(Some('0'), 3), Choice::Invalid);
    assert_eq!(dialog_choice(Some('?'), 3), Choice::Invalid);
    assert_eq!(readline_choice(" Q \n", 3), Choice::Quit);
    assert_eq!(readline_choice("g", 3), Choice::Regenerate);
    assert_eq!(readline_choice("N", 3), Choice::NewPrompt);
    assert_eq!(readline_choice("2\n", 3), Choice::Select(1));
    assert_eq!(readline_choice("12", 12), Choice::Select(11));
    assert_eq!(readline_choice("0", 3), Choice::Invalid);
    assert_eq!(readline_choice("4", 3), Choice::Invalid);
    assert_eq!(readline_choice("two", 3), Choice::Invalid);
    assert_eq!(readline_choice("", 3), Choice::Invalid);
    assert_eq!(dialog_action(Some('c')), Action::Copy);
    assert_eq!(dialog_action(Some('e')), Action::Explain);
    assert_eq!(dialog_action(Some('x')), Action::Execute);
    assert_eq!(dialog_action(Some('r')), Action::Revise);
    assert_eq!(dialog_action(Some('b')), Action::Back);
    assert_eq!(dialog_action(Some('q')), Action::Quit);
    assert_eq!(dialog_action(None), Action::Quit);
    assert_eq!(dialog_action(Some('z')), Action::Stay);
    assert_eq!(readline_action(" C "), Action::Copy);
    assert_eq!(readline_action("e"), Action::Explain);
    assert_eq!(readline_action("x"), Action::Execute);
    assert_eq!(readline_action("r"), Action::Revise);
    assert_eq!(readline_action("b"), Action::Back);
    assert_eq!(readline_action("q"), Action::Quit);
    assert_eq!(readline_action("anything"), Action::Quit);
}

#[test]
fn the_command_to_explain_is_trimmed_and_may_not_be_empty() {
    assert_eq!(
        shell_ai::explain::command_to_explain("  ls -la \n"),
        Ok("ls -la".to_string())
    );
    assert_eq!(
        shell_ai::explain::command_to_explain(""),
        Err("Command to explain is empty".to_string())
    );
    assert_eq!(
        shell_ai::explain::command_to_explain(" \t\u{3000}\n"),
        Err("Command to explain is empty".to_string())
    );
}

#[test]
fn paths_are_clear_of_each_other_unless_one_is_above_the_other() {
    let clear = shell_ai::text::paths_clear;
    assert!(clear("a.b", "a.c"));
    assert!(clear("a", "ab"));
    assert!(clear("a.b.c", "a.bc"));
    assert!(!clear("a", "a"));
    assert!(!clear("a", "a.b"));
    assert!(!clear("a.b.c", "a.b"));
    assert!(!clear("", ""));
    assert!(clear("", "a"));
    assert!(!clear("a.", "a"));
}
