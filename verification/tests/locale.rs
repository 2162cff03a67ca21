use shell_ai::layers::Environment;
use shell_ai::locale::resolve_locale;

fn env(vars: &[(&str, &str)]) -> Environment {
    let mut e = Environment::new();
    for (name, value) in vars {
        e.set(name, value);
    }
    e
}

#[test]
fn a_locale_that_is_asked_for_is_taken() {
    let e = env(&[("LANG", "de_DE.UTF-8")]);
    assert_eq!(resolve_locale(Some("fr"), &e), Some("fr".to_string()));
    assert_eq!(resolve_locale(Some("C"), &e), Some("C".to_string()));
}

#[test]
fn an_empty_locale_asks_for_none() {
    let e = env(&[("LANG", "de_DE.UTF-8")]);
    assert_eq!(resolve_locale(Some(""), &e), None);
}

#[test]
fn the_environment_names_the_language_where_none_is_asked_for() {
    assert_eq!(
        resolve_locale(None, &env(&[("LANG", "de_DE.UTF-8")])),
        Some("de_DE".to_string())
    );
    assert_eq!(
        resolve_locale(
            None,
            &env(&[("LANG", "de_DE.UTF-8"), ("LC_MESSAGES", "ja_JP"), ("LC_ALL", "pt_BR.UTF-8")])
        ),
        Some("pt_BR".to_string())
    );
    assert_eq!(
        resolve_locale(None, &env(&[("LANG", "de_DE.UTF-8"), ("LC_MESSAGES", "ja_JP")])),
        Some("ja_JP".to_string())
    );
}

#[test]
fn values_that_name_no_language_are_passed_over() {
    assert_eq!(
        resolve_locale(
            None,
            &env(&[("LC_ALL", "C"), ("LC_MESSAGES", "POSIX"), ("LANG", "nl_NL.ISO-8859-1")])
        ),
        Some("nl_NL".to_string())
    );
    assert_eq!(
        resolve_locale(None, &env(&[("LC_ALL", "C.UTF-8"), ("LC_MESSAGES", ""), ("LANG", ".utf8")])),
        None
    );
    assert_eq!(resolve_locale(None, &env(&[])), None);
    assert_eq!(
        resolve_locale(None, &env(&[("LANG", "Cs")])),
        Some("Cs".to_string())
    );
}
