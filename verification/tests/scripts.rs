use shell_ai::integration::feature_description;
use shell_ai::integration::resolve_features;
use shell_ai::integration::run;
use shell_ai::integration::run_list;
use shell_ai::integration::Feature;
use shell_ai::integration::FeatureSet;
use shell_ai::integration::IntegrationAction;
use shell_ai::integration::IntegrationArgs;
use shell_ai::integration::IntegrationGenerateArgs;
use shell_ai::integration::IntegrationStep;
use shell_ai::integration::IntegrationUpdateArgs;
use shell_ai::integration::Preset;
use shell_ai::integration::ShellType;
use shell_ai::kinds::OutputFormat;
use shell_ai::script::format_modifiers;
use shell_ai::script::generate_header;
use shell_ai::script::generate_integration_file;
use shell_ai::script::parse_header;
use shell_ai::script::parse_modifiers;
use shell_ai::script::IntegrationPreferences;
use shell_ai::script::BASH_ALIASES;
use shell_ai::script::FISH_ALIASES;
use shell_ai::script::FISH_KEYBINDING;
use shell_ai::script::POWERSHELL_KEYBINDING;
use shell_ai::script::ZSH_KEYBINDING;

#[test]
fn shells_have_extensions_and_startup_files() {
    assert_eq!(ShellType::Bash.extension(), "bash");
    assert_eq!(ShellType::Zsh.extension(), "zsh");
    assert_eq!(ShellType::Fish.extension(), "fish");
    assert_eq!(ShellType::PowerShell.extension(), "ps1");
    assert_eq!(ShellType::Bash.rc_file(), "~/.bashrc");
    assert_eq!(ShellType::Zsh.rc_file(), "~/.zshrc");
    assert_eq!(ShellType::Fish.rc_file(), "~/.config/fish/config.fish");
    assert_eq!(ShellType::PowerShell.rc_file(), "$PROFILE");
    assert_eq!(ShellType::PowerShell.name(), "powershell");
    assert_eq!(ShellType::all().len(), 4);
}

#[test]
fn names_are_read_in_any_case() {
    assert_eq!(ShellType::from_name("BASH"), Ok(ShellType::Bash));
    assert_eq!(ShellType::from_name("PowerShell"), Ok(ShellType::PowerShell));
    assert_eq!(ShellType::from_name("ps1"), Err("Unknown shell: ps1".to_string()));
    assert_eq!(Preset::from_name("Full"), Ok(Preset::Full));
    assert_eq!(Preset::from_name("standard"), Ok(Preset::Standard));
    assert_eq!(Preset::from_name("max"), Err("Unknown preset: max".to_string()));
    assert_eq!(Feature::from_name("Aliases"), Ok(Feature::Aliases));
    assert_eq!(Feature::from_name("keys"), Err("Unknown feature: keys".to_string()));
    assert_eq!(Feature::Keybinding.name(), "keybinding");
    assert_eq!(Preset::Minimal.name(), "minimal");
    assert_eq!(Feature::all(), vec![Feature::Completions, Feature::Aliases, Feature::Keybinding]);
    assert_eq!(Preset::all(), vec![Preset::Minimal, Preset::Standard, Preset::Full]);
}

#[test]
fn features_are_described() {
    assert_eq!(feature_description(Feature::Completions), "Tab completion for shell-ai commands");
    assert_eq!(
        feature_description(Feature::Aliases),
        "?? for suggest, explain for explain (Fish: abbreviations)"
    );
    assert_eq!(
        feature_description(Feature::Keybinding),
        "Ctrl+G transform with animated progress indicator"
    );
}

#[test]
fn presets_grow_from_minimal_to_full() {
    assert_eq!(
        Preset::Minimal.features(),
        FeatureSet { completions: true, aliases: false, keybinding: false }
    );
    assert_eq!(
        Preset::Standard.features(),
        FeatureSet { completions: true, aliases: true, keybinding: false }
    );
    assert_eq!(
        Preset::Full.features(),
        FeatureSet { completions: true, aliases: true, keybinding: true }
    );
    assert!(Preset::Standard.features().contains(&Feature::Aliases));
    assert!(!Preset::Standard.features().contains(&Feature::Keybinding));
    assert!(FeatureSet::empty().is_empty());
    assert!(!Preset::Minimal.features().is_empty());
}

#[test]
fn modifiers_add_to_and_take_from_a_preset() {
    let set = resolve_features(Preset::Minimal, &vec![Feature::Keybinding], &vec![]);
    assert_eq!(set, FeatureSet { completions: true, aliases: false, keybinding: true });
    let set = resolve_features(Preset::Full, &vec![], &vec![Feature::Completions, Feature::Aliases]);
    assert_eq!(set, FeatureSet { completions: false, aliases: false, keybinding: true });
    // removing wins over adding
    let set = resolve_features(Preset::Minimal, &vec![Feature::Aliases], &vec![Feature::Aliases]);
    assert_eq!(set, FeatureSet { completions: true, aliases: false, keybinding: false });
    let set = resolve_features(Preset::Minimal, &vec![], &vec![Feature::Completions]);
    assert!(set.is_empty());
    let mut set = FeatureSet::empty();
    set.insert(Feature::Aliases);
    set.insert(Feature::Aliases);
    assert!(set.contains(&Feature::Aliases));
    set.remove(&Feature::Aliases);
    assert!(set.is_empty());
}

#[test]
fn modifiers_are_written_in_the_order_of_their_names() {
    assert_eq!(format_modifiers(&vec![], &vec![]), "");
    assert_eq!(
        format_modifiers(&vec![Feature::Keybinding, Feature::Aliases], &vec![Feature::Completions]),
        "+aliases,+keybinding,-completions"
    );
    assert_eq!(
        format_modifiers(
            &vec![Feature::Completions, Feature::Completions],
            &vec![Feature::Keybinding, Feature::Aliases, Feature::Completions]
        ),
        "+completions,+completions,-aliases,-completions,-keybinding"
    );
}

#[test]
fn modifiers_are_read_back() {
    assert_eq!(parse_modifiers(""), Ok((vec![], vec![])));
    assert_eq!(
        parse_modifiers("+aliases, -completions ,,+KEYBINDING,junk"),
        Ok((vec![Feature::Aliases, Feature::Keybinding], vec![Feature::Completions]))
    );
    assert_eq!(
        parse_modifiers("+aliases,+colors,-nothing"),
        Err("Unknown feature in modifiers: colors".to_string())
    );
    assert_eq!(parse_modifiers("-"), Err("Unknown feature in modifiers: ".to_string()));
    let add = vec![Feature::Keybinding];
    let remove = vec![Feature::Aliases, Feature::Completions];
    assert_eq!(
        parse_modifiers(&format_modifiers(&add, &remove)),
        Ok((add, vec![Feature::Aliases, Feature::Completions]))
    );
}

#[test]
fn the_header_stores_the_preferences() {
    let header = generate_header("1.2.3", ShellType::Zsh, Preset::Standard, &vec![Feature::Keybinding], &vec![]);
    assert_eq!(
        header,
        "# shell-ai integration\n# Generated by shell-ai v1.2.3\n#\n# DO NOT EDIT THIS FILE MANUALLY\n# Regenerate with: shell-ai integration update zsh\n#\n# @shell: zsh\n# @preset: standard\n# @modifiers: +keybinding\n#\n"
    );
    assert_eq!(
        parse_header(&header),
        Ok(IntegrationPreferences {
            shell: ShellType::Zsh,
            preset: Preset::Standard,
            add: vec![Feature::Keybinding],
            remove: vec![],
        })
    );
}

#[test]
fn headers_are_read_leniently_but_not_blindly() {
    assert_eq!(parse_header("#!/bin/sh\n"), Err("Not a shell-ai integration file".to_string()));
    assert_eq!(
        parse_header("# shell-ai integration\n"),
        Err("Missing @shell in header".to_string())
    );
    assert_eq!(
        parse_header("# shell-ai integration\r\n# @shell:  Fish \r\n"),
        Err("Missing @preset in header".to_string())
    );
    assert_eq!(
        parse_header("# shell-ai integration\n# @preset: full\n# @shell: fish\n# @shell: bash"),
        Ok(IntegrationPreferences {
            shell: ShellType::Bash,
            preset: Preset::Full,
            add: vec![],
            remove: vec![],
        })
    );
    assert_eq!(
        parse_header("# shell-ai integration\n# @shell: tcsh\n# @preset: nope\n"),
        Err("Invalid shell: Unknown shell: tcsh".to_string())
    );
    assert_eq!(
        parse_header("# shell-ai integration\n# @shell: bash\n# @preset: nope\n"),
        Err("Invalid preset: Unknown preset: nope".to_string())
    );
    assert_eq!(
        parse_header("# shell-ai integration\n# @shell: bash\n# @preset: full\n# @modifiers: +x\n"),
        Err("Unknown feature in modifiers: x".to_string())
    );
    // only the first fifteen lines are looked at
    let mut late = String::from("# shell-ai integration\n");
    for _ in 0..14 {
        late.push_str("#\n");
    }
    late.push_str("# @shell: bash\n# @preset: full\n");
    assert_eq!(parse_header(&late), Err("Missing @shell in header".to_string()));
    let mut in_time = String::from("# shell-ai integration\n");
    for _ in 0..12 {
        in_time.push_str("#\n");
    }
    in_time.push_str("# @shell: bash\n# @preset: full\n# @modifiers: +x\n");
    assert_eq!(
        parse_header(&in_time),
        Ok(IntegrationPreferences {
            shell: ShellType::Bash,
            preset: Preset::Full,
            add: vec![],
            remove: vec![],
        })
    );
}

#[test]
fn scripts_hold_the_parts_of_their_features() {
    let script = generate_integration_file("0.1.0", "COMPLETIONS\n", ShellType::Bash, Preset::Standard, &vec![], &vec![]);
    let header = generate_header("0.1.0", ShellType::Bash, Preset::Standard, &vec![], &vec![]);
    assert_eq!(script, format!("{}\n# === Completions ===\nCOMPLETIONS\n{}", header, BASH_ALIASES));
    assert!(BASH_ALIASES.contains("alias '??'='shell-ai suggest --'"));
    let script = generate_integration_file(
        "0.1.0",
        "C",
        ShellType::Fish,
        Preset::Full,
        &vec![],
        &vec![Feature::Completions],
    );
    let header = generate_header("0.1.0", ShellType::Fish, Preset::Full, &vec![], &vec![Feature::Completions]);
    assert_eq!(script, format!("{}{}{}", header, FISH_ALIASES, FISH_KEYBINDING));
    assert!(FISH_KEYBINDING.contains("bind \\cg _shai_transform"));
    let script = generate_integration_file(
        "0.1.0",
        "C",
        ShellType::PowerShell,
        Preset::Minimal,
        &vec![Feature::Keybinding],
        &vec![Feature::Completions],
    );
    assert!(script.ends_with(POWERSHELL_KEYBINDING));
    assert!(!script.contains("=== Completions ==="));
    assert!(ZSH_KEYBINDING.contains("bindkey '^G' _shai_transform"));
    // a script stores what it was made with
    assert_eq!(
        parse_header(&script),
        Ok(IntegrationPreferences {
            shell: ShellType::PowerShell,
            preset: Preset::Minimal,
            add: vec![Feature::Keybinding],
            remove: vec![Feature::Completions],
        })
    );
}

#[test]
fn the_integration_command_is_dispatched() {
    match run_list(OutputFormat::Json) {
        IntegrationStep::ListJson => {}
        _ => panic!("expected the listing as JSON"),
    }
    match run(IntegrationArgs { action: IntegrationAction::List }, OutputFormat::Human) {
        IntegrationStep::ListHuman => {}
        _ => panic!("expected the listing for a reader"),
    }
    let args = IntegrationArgs {
        action: IntegrationAction::Update(IntegrationUpdateArgs { shell: Some(ShellType::Zsh) }),
    };
    match run(args, OutputFormat::Json) {
        IntegrationStep::Update(u) => assert_eq!(u.shell, Some(ShellType::Zsh)),
        _ => panic!("expected an update"),
    }
    let args = IntegrationArgs {
        action: IntegrationAction::Generate(IntegrationGenerateArgs {
            shell: ShellType::Fish,
            preset: Preset::Full,
            add_features: vec![],
            remove_features: vec![Feature::Aliases],
            stdout: true,
            overwrite: false,
        }),
    };
    match run(args, OutputFormat::Human) {
        IntegrationStep::Generate(g) => {
            assert_eq!(g.shell, ShellType::Fish);
            assert_eq!(g.remove_features, vec![Feature::Aliases]);
            assert!(g.stdout);
        }
        _ => panic!("expected a generation"),
    }
}
