use shell_ai::install::{
    check_selection, existing_file_message, feature_names, installed_integration,
    integration_file_name, listed_features, listed_presets, listed_shells, shells_to_update,
    sourcing_line, stored_preferences, InstalledIntegration,
};
use shell_ai::integration::{Feature, FeatureSet, Preset, ShellType};
use shell_ai::script::generate_header;

#[test]
fn feature_names_come_in_the_order_of_the_alphabet() {
    assert_eq!(
        feature_names(&Preset::Full.features()),
        vec!["aliases", "completions", "keybinding"]
    );
    assert_eq!(
        feature_names(&Preset::Standard.features()),
        vec!["aliases", "completions"]
    );
    assert_eq!(feature_names(&Preset::Minimal.features()), vec!["completions"]);
    assert_eq!(feature_names(&FeatureSet::empty()), Vec::<&str>::new());
}

#[test]
fn the_script_of_a_shell_is_named_by_its_extension() {
    assert_eq!(integration_file_name(ShellType::Bash), "integration.bash");
    assert_eq!(integration_file_name(ShellType::PowerShell), "integration.ps1");
}

#[test]
fn the_sourcing_line_tests_for_the_file() {
    assert_eq!(
        sourcing_line(ShellType::Zsh, "$HOME/.config/shell-ai/integration.zsh"),
        "  [ -f \"$HOME/.config/shell-ai/integration.zsh\" ] && source \"$HOME/.config/shell-ai/integration.zsh\""
    );
    assert_eq!(
        sourcing_line(ShellType::Fish, "a"),
        "  [ -f \"a\" ] && source \"a\""
    );
    assert_eq!(
        sourcing_line(ShellType::PowerShell, "C:\\x.ps1"),
        "  if (Test-Path \"C:\\x.ps1\") { . \"C:\\x.ps1\" }"
    );
}

#[test]
fn a_selection_without_features_is_refused() {
    assert_eq!(
        check_selection(Preset::Minimal, &vec![], &vec![Feature::Completions]),
        Err("No features selected. The preset 'minimal' with your modifiers results in an empty feature set.\nAvailable features: completions, aliases, keybinding".to_string())
    );
    assert_eq!(
        check_selection(Preset::Minimal, &vec![Feature::Keybinding], &vec![Feature::Completions]),
        Ok(FeatureSet {
            completions: false,
            aliases: false,
            keybinding: true
        })
    );
    assert_eq!(
        check_selection(Preset::Standard, &vec![], &vec![]),
        Ok(Preset::Standard.features())
    );
}

#[test]
fn an_existing_script_is_set_beside_the_new_one() {
    let header = generate_header(
        "1.0.0",
        ShellType::Bash,
        Preset::Minimal,
        &vec![Feature::Keybinding],
        &vec![],
    );
    assert_eq!(
        existing_file_message("/c/integration.bash", Some(&header), Preset::Full, &vec![], &vec![Feature::Aliases]),
        "Integration file already exists: /c/integration.bash\n\nCurrent: preset=minimal, features=[completions, keybinding]\nNew:     preset=full, features=[completions, keybinding]\n\nUse --overwrite to replace, or 'shell-ai integration update' to regenerate with existing preferences."
    );
    assert_eq!(
        existing_file_message("/c/integration.bash", Some("echo hi\n"), Preset::Full, &vec![], &vec![]),
        "Integration file already exists: /c/integration.bash\nUse --overwrite to replace."
    );
    assert_eq!(
        existing_file_message("p", None, Preset::Full, &vec![], &vec![]),
        "Integration file already exists: p\nUse --overwrite to replace."
    );
}

#[test]
fn stored_preferences_are_read_from_the_header() {
    let header = generate_header(
        "1.0.0",
        ShellType::Fish,
        Preset::Standard,
        &vec![],
        &vec![Feature::Aliases],
    );
    let prefs = stored_preferences("/c/integration.fish", &header).unwrap();
    assert_eq!(prefs.shell, ShellType::Fish);
    assert_eq!(prefs.preset, Preset::Standard);
    assert_eq!(prefs.add, vec![]);
    assert_eq!(prefs.remove, vec![Feature::Aliases]);
    assert_eq!(
        stored_preferences("/c/integration.fish", "set -x A 1\n"),
        Err("Could not parse preferences from /c/integration.fish: Not a shell-ai integration file\nWas this file generated by shell-ai?".to_string())
    );
}

#[test]
fn an_update_takes_the_shell_asked_for_or_every_script() {
    assert_eq!(
        shells_to_update(Some(ShellType::Fish), &vec![]),
        vec![ShellType::Fish]
    );
    assert_eq!(
        shells_to_update(None, &vec![ShellType::PowerShell, ShellType::Bash, ShellType::Bash]),
        vec![ShellType::Bash, ShellType::PowerShell]
    );
    assert_eq!(shells_to_update(None, &vec![]), vec![]);
}

#[test]
fn an_installed_script_is_reported_under_the_shell_of_its_file() {
    let header = generate_header(
        "1.0.0",
        ShellType::Bash,
        Preset::Full,
        &vec![],
        &vec![Feature::Completions],
    );
    assert_eq!(
        installed_integration(ShellType::Zsh, &header, "/c/integration.zsh"),
        Some(InstalledIntegration {
            shell: "zsh",
            preset: "full",
            features: vec!["aliases", "keybinding"],
            path: "/c/integration.zsh".to_string(),
        })
    );
    assert_eq!(installed_integration(ShellType::Zsh, "", "/c/integration.zsh"), None);
}

#[test]
fn the_listing_names_features_presets_and_shells() {
    let features = listed_features();
    assert_eq!(
        features.iter().map(|f| f.name).collect::<Vec<_>>(),
        vec!["completions", "aliases", "keybinding"]
    );
    for (info, feature) in features.iter().zip(Feature::all()) {
        assert_eq!(info.description, shell_ai::integration::feature_description(feature));
        assert!(!info.description.is_empty());
    }
    let presets = listed_presets();
    assert_eq!(
        presets.iter().map(|p| p.name).collect::<Vec<_>>(),
        vec!["minimal", "standard", "full"]
    );
    assert_eq!(presets[0].features, vec!["completions"]);
    assert_eq!(presets[1].features, vec!["aliases", "completions"]);
    assert_eq!(presets[2].features, vec!["aliases", "completions", "keybinding"]);
    assert_eq!(listed_shells(), vec!["bash", "zsh", "fish", "powershell"]);
}
