//! What the integration command tells its user: the names of the features
//! of a set, the file of a shell and the line that sources it, why a script
//! is not written, and what is installed.

use crate::integration::feature_description;
use crate::integration::resolve_features;
use crate::integration::resolved_features;
use crate::integration::Feature;
use crate::integration::FeatureSet;
use crate::integration::Preset;
use crate::integration::ShellType;
use crate::script::parse_header;
use crate::script::parsed_header;
use crate::script::IntegrationPreferences;
use crate::script::Preferences;
use crate::text::join;
use crate::text::joined;
use crate::text::owned;
use crate::text::slices;
use vstd::prelude::*;

verus! {

/// The name of a feature if the set holds it, else nothing.
pub open spec fn name_if(set: Set<Feature>, feature: Feature) -> Seq<Seq<char>> {
    if set.contains(feature) {
        seq![feature.label()]
    } else {
        Seq::empty()
    }
}

/// The names of the features of a set, in the order of the alphabet.
pub open spec fn names_in(set: Set<Feature>) -> Seq<Seq<char>> {
    name_if(set, Feature::Aliases) + name_if(set, Feature::Completions) + name_if(
        set,
        Feature::Keybinding,
    )
}

/// Names the features of a set; see [`names_in`].
pub fn feature_names(set: &FeatureSet) -> (r: Vec<&'static str>)
    ensures
        slices(r@) == names_in(set@),
{
    let mut r: Vec<&'static str> = Vec::new();
    if set.contains(&Feature::Aliases) {
        r.push(Feature::Aliases.name());
    }
    proof {
        assert(slices(r@) =~= name_if(set@, Feature::Aliases));
    }
    let ghost first = slices(r@);
    if set.contains(&Feature::Completions) {
        r.push(Feature::Completions.name());
    }
    proof {
        assert(slices(r@) =~= first + name_if(set@, Feature::Completions));
    }
    let ghost second = slices(r@);
    if set.contains(&Feature::Keybinding) {
        r.push(Feature::Keybinding.name());
    }
    proof {
        assert(slices(r@) =~= second + name_if(set@, Feature::Keybinding));
    }
    r
}

/// The names of the features of a set as one text, with a comma and a
/// blank between them.
pub open spec fn names_text(set: Set<Feature>) -> Seq<char> {
    joined(names_in(set), ", "@)
}

/// The name of the file that holds the integration script of a shell.
pub open spec fn script_file_name(shell: ShellType) -> Seq<char> {
    "integration."@ + shell.suffix()
}

/// Names the file that holds the integration script of a shell.
pub fn integration_file_name(shell: ShellType) -> (r: String)
    ensures
        r@ == script_file_name(shell),
{
    let mut r = owned("integration.");
    r.push_str(shell.extension());
    r
}

/// The line for the start-up file of a shell that sources the script at
/// `path` where it exists.
pub open spec fn sourcing_text(shell: ShellType, path: Seq<char>) -> Seq<char> {
    match shell {
        ShellType::PowerShell => "  if (Test-Path \""@ + path + "\") { . \""@ + path + "\" }"@,
        _ => "  [ -f \""@ + path + "\" ] && source \""@ + path + "\""@,
    }
}

/// Writes the line that sources the script; see [`sourcing_text`].
pub fn sourcing_line(shell: ShellType, path: &str) -> (r: String)
    ensures
        r@ == sourcing_text(shell, path@),
{
    match shell {
        ShellType::PowerShell => {
            let mut r = owned("  if (Test-Path \"");
            r.push_str(path);
            r.push_str("\") { . \"");
            r.push_str(path);
            r.push_str("\" }");
            r
        },
        _ => {
            let mut r = owned("  [ -f \"");
            r.push_str(path);
            r.push_str("\" ] && source \"");
            r.push_str(path);
            r.push_str("\"");
            r
        },
    }
}

/// What is said where a preset and its modifiers leave no feature.
pub open spec fn no_features_text(preset: Preset) -> Seq<char> {
    "No features selected. The preset '"@ + preset.label()
        + "' with your modifiers results in an empty feature set.\nAvailable features: "@
        + joined(
        seq![Feature::Completions.label(), Feature::Aliases.label(), Feature::Keybinding.label()],
        ", "@,
    )
}

/// The features that a preset and its modifiers select, or, where they
/// select none, what to tell the user.
pub fn check_selection(preset: Preset, add: &Vec<Feature>, remove: &Vec<Feature>) -> (r: Result<
    FeatureSet,
    String,
>)
    ensures
        match r {
            Ok(features) => features@ == resolved_features(preset, add@, remove@) && features@
                != Set::<Feature>::empty(),
            Err(e) => resolved_features(preset, add@, remove@) == Set::<Feature>::empty() && e@
                == no_features_text(preset),
        },
{
    let features = resolve_features(preset, add, remove);
    if features.is_empty() {
        let mut names: Vec<&str> = Vec::new();
        names.push(Feature::Completions.name());
        names.push(Feature::Aliases.name());
        names.push(Feature::Keybinding.name());
        proof {
            assert(slices(names@) =~= seq![
                Feature::Completions.label(),
                Feature::Aliases.label(),
                Feature::Keybinding.label(),
            ]);
        }
        let mut e = owned("No features selected. The preset '");
        e.push_str(preset.name());
        e.push_str(
            "' with your modifiers results in an empty feature set.\nAvailable features: ",
        );
        e.push_str(join(&names, ", ").as_str());
        Err(e)
    } else {
        Ok(features)
    }
}

/// What is said where a script is already there and may not be replaced.
/// Where the file can be read and its header understood, the preset and the
/// features that it was made with are set beside the new ones.
pub open spec fn existing_file_text(
    path: Seq<char>,
    existing: Option<Seq<char>>,
    preset: Preset,
    add: Seq<Feature>,
    remove: Seq<Feature>,
) -> Seq<char> {
    let short = "Integration file already exists: "@ + path + "\nUse --overwrite to replace."@;
    match existing {
        None => short,
        Some(content) => match parsed_header(content) {
            Err(_) => short,
            Ok(prefs) => "Integration file already exists: "@ + path + "\n\nCurrent: preset="@
                + prefs.preset.label() + ", features=["@ + names_text(
                resolved_features(prefs.preset, prefs.add, prefs.remove),
            ) + "]\nNew:     preset="@ + preset.label() + ", features=["@ + names_text(
                resolved_features(preset, add, remove),
            )
                + "]\n\nUse --overwrite to replace, or 'shell-ai integration update' to regenerate with existing preferences."@,
        },
    }
}

/// Says why the script at `path` is not replaced; `existing` is what the
/// file holds, where it could be read. See [`existing_file_text`].
pub fn existing_file_message(
    path: &str,
    existing: Option<&str>,
    preset: Preset,
    add: &Vec<Feature>,
    remove: &Vec<Feature>,
) -> (r: String)
    ensures
        r@ == existing_file_text(path@, crate::hints::opt_str(existing), preset, add@, remove@),
{
    if let Some(content) = existing {
        if let Ok(prefs) = parse_header(content) {
            let current = resolve_features(prefs.preset, &prefs.add, &prefs.remove);
            let wanted = resolve_features(preset, add, remove);
            let mut r = owned("Integration file already exists: ");
            r.push_str(path);
            r.push_str("\n\nCurrent: preset=");
            r.push_str(prefs.preset.name());
            r.push_str(", features=[");
            r.push_str(join(&feature_names(&current), ", ").as_str());
            r.push_str("]\nNew:     preset=");
            r.push_str(preset.name());
            r.push_str(", features=[");
            r.push_str(join(&feature_names(&wanted), ", ").as_str());
            r.push_str(
                "]\n\nUse --overwrite to replace, or 'shell-ai integration update' to regenerate with existing preferences.",
            );
            return r;
        }
    }
    let mut r = owned("Integration file already exists: ");
    r.push_str(path);
    r.push_str("\nUse --overwrite to replace.");
    r
}

/// The preferences that the script at `path` was made with, or what is
/// said where its header is not understood.
pub open spec fn stored(path: Seq<char>, content: Seq<char>) -> Result<Preferences, Seq<char>> {
    match parsed_header(content) {
        Ok(prefs) => Ok(prefs),
        Err(e) => Err(
            "Could not parse preferences from "@ + path + ": "@ + e
                + "\nWas this file generated by shell-ai?"@,
        ),
    }
}

/// Reads the preferences that a script was made with; see [`stored`].
pub fn stored_preferences(path: &str, content: &str) -> (r: Result<IntegrationPreferences, String>)
    ensures
        crate::script::header_outcome(r) == stored(path@, content@),
{
    match parse_header(content) {
        Ok(prefs) => Ok(prefs),
        Err(e) => {
            let mut r = owned("Could not parse preferences from ");
            r.push_str(path);
            r.push_str(": ");
            r.push_str(e.as_str());
            r.push_str("\nWas this file generated by shell-ai?");
            Err(r)
        },
    }
}

/// The shells whose scripts an update rewrites: the one that is asked for,
/// else every shell that has a script.
pub open spec fn update_targets(asked: Option<ShellType>, present: Set<ShellType>) -> Seq<
    ShellType,
> {
    match asked {
        Some(shell) => seq![shell],
        None => seq![ShellType::Bash, ShellType::Zsh, ShellType::Fish, ShellType::PowerShell].filter(
            |s: ShellType| present.contains(s),
        ),
    }
}

/// Whether `shell` is among `shells`.
fn has_shell(shells: &Vec<ShellType>, shell: ShellType) -> (r: bool)
    ensures
        r == shells@.to_set().contains(shell),
{
    let mut i: usize = 0;
    while i < shells.len()
        invariant
            i <= shells.len(),
            forall|j: int| 0 <= j < i ==> shells@[j] != shell,
        decreases shells.len() - i,
    {
        if shells[i] == shell {
            assert(shells@.contains(shell));
            return true;
        }
        i = i + 1;
    }
    assert(!shells@.contains(shell));
    false
}

/// Picks the shells whose scripts an update rewrites; `present` holds the
/// shells that have a script. See [`update_targets`].
pub fn shells_to_update(asked: Option<ShellType>, present: &Vec<ShellType>) -> (r: Vec<ShellType>)
    ensures
        r@ == update_targets(asked, present@.to_set()),
{
    let mut r: Vec<ShellType> = Vec::new();
    match asked {
        Some(shell) => {
            r.push(shell);
            assert(r@ =~= seq![shell]);
        },
        None => {
            let all = ShellType::all();
            let ghost keep = |s: ShellType| present@.to_set().contains(s);
            let mut i: usize = 0;
            proof {
                assert(all@.take(0) =~= Seq::<ShellType>::empty());
                assert(all@.take(0).filter(keep) =~= Seq::<ShellType>::empty());
            }
            while i < all.len()
                invariant
                    i <= all.len(),
                    keep == (|s: ShellType| present@.to_set().contains(s)),
                    r@ == all@.take(i as int).filter(keep),
                decreases all.len() - i,
            {
                proof {
                    let next = all@.take(i as int + 1);
                    assert(next.drop_last() =~= all@.take(i as int));
                    assert(next.last() == all@[i as int]);
                    reveal(Seq::filter);
                }
                if has_shell(present, all[i]) {
                    r.push(all[i]);
                }
                i = i + 1;
            }
            proof {
                assert(all@.take(all@.len() as int) =~= all@);
            }
        },
    }
    r
}

/// A script that is installed for a shell.
#[derive(Debug, PartialEq, Eq)]
pub struct InstalledIntegration {
    pub shell: &'static str,
    pub preset: &'static str,
    pub features: Vec<&'static str>,
    pub path: String,
}

/// What an [`InstalledIntegration`] holds.
pub ghost struct Installed {
    pub shell: Seq<char>,
    pub preset: Seq<char>,
    pub features: Seq<Seq<char>>,
    pub path: Seq<char>,
}

impl View for InstalledIntegration {
    type V = Installed;

    open spec fn view(&self) -> Installed {
        Installed {
            shell: self.shell@,
            preset: self.preset@,
            features: slices(self.features@),
            path: self.path@,
        }
    }
}

/// What is reported of the script of `shell` at `path` that holds
/// `content`: the preset and the features that its header names. A script
/// whose header is not understood is not reported.
pub open spec fn installed_of(shell: ShellType, content: Seq<char>, path: Seq<char>) -> Option<
    Installed,
> {
    match parsed_header(content) {
        Err(_) => None,
        Ok(prefs) => Some(
            Installed {
                shell: shell.label(),
                preset: prefs.preset.label(),
                features: names_in(resolved_features(prefs.preset, prefs.add, prefs.remove)),
                path,
            },
        ),
    }
}

/// Reports the script of a shell; see [`installed_of`].
pub fn installed_integration(shell: ShellType, content: &str, path: &str) -> (r: Option<
    InstalledIntegration,
>)
    ensures
        match r {
            Some(i) => installed_of(shell, content@, path@) == Some(i@),
            None => installed_of(shell, content@, path@) is None,
        },
{
    match parse_header(content) {
        Err(_) => None,
        Ok(prefs) => {
            let resolved = resolve_features(prefs.preset, &prefs.add, &prefs.remove);
            Some(
                InstalledIntegration {
                    shell: shell.name(),
                    preset: prefs.preset.name(),
                    features: feature_names(&resolved),
                    path: owned(path),
                },
            )
        },
    }
}

/// A feature as the listing shows it.
#[derive(Debug, PartialEq, Eq)]
pub struct FeatureInfo {
    pub name: &'static str,
    pub description: &'static str,
}

/// A preset as the listing shows it.
#[derive(Debug, PartialEq, Eq)]
pub struct PresetInfo {
    pub name: &'static str,
    pub features: Vec<&'static str>,
}

/// How the listing shows a feature.
fn feature_info(feature: Feature) -> (r: FeatureInfo)
    ensures
        r.name@ == feature.label(),
        r.description@ == feature.summary(),
{
    FeatureInfo { name: feature.name(), description: feature_description(feature) }
}

/// How the listing shows a preset.
fn preset_info(preset: Preset) -> (r: PresetInfo)
    ensures
        r.name@ == preset.label(),
        slices(r.features@) == names_in(preset.members()),
{
    PresetInfo { name: preset.name(), features: feature_names(&preset.features()) }
}

/// The features that the listing shows, each with what it does.
pub fn listed_features() -> (r: Vec<FeatureInfo>)
    ensures
        r@.len() == 3,
        forall|i: int|
            0 <= i < 3 ==> (#[trigger] r@[i]).name@ == seq![
                Feature::Completions,
                Feature::Aliases,
                Feature::Keybinding,
            ][i].label() && r@[i].description@ == seq![
                Feature::Completions,
                Feature::Aliases,
                Feature::Keybinding,
            ][i].summary(),
{
    let mut r: Vec<FeatureInfo> = Vec::new();
    r.push(feature_info(Feature::Completions));
    r.push(feature_info(Feature::Aliases));
    r.push(feature_info(Feature::Keybinding));
    r
}

/// The presets that the listing shows, each with the names of its features.
pub fn listed_presets() -> (r: Vec<PresetInfo>)
    ensures
        r@.len() == 3,
        forall|i: int|
            0 <= i < 3 ==> (#[trigger] r@[i]).name@ == seq![
                Preset::Minimal,
                Preset::Standard,
                Preset::Full,
            ][i].label() && slices(r@[i].features@) == names_in(
                seq![Preset::Minimal, Preset::Standard, Preset::Full][i].members(),
            ),
{
    let mut r: Vec<PresetInfo> = Vec::new();
    r.push(preset_info(Preset::Minimal));
    r.push(preset_info(Preset::Standard));
    r.push(preset_info(Preset::Full));
    r
}

/// The names of the shells that the listing shows.
pub fn listed_shells() -> (r: Vec<&'static str>)
    ensures
        slices(r@) == seq![
            ShellType::Bash.label(),
            ShellType::Zsh.label(),
            ShellType::Fish.label(),
            ShellType::PowerShell.label(),
        ],
{
    let mut r: Vec<&'static str> = Vec::new();
    r.push(ShellType::Bash.name());
    r.push(ShellType::Zsh.name());
    r.push(ShellType::Fish.name());
    r.push(ShellType::PowerShell.name());
    proof {
        assert(slices(r@) =~= seq![
            ShellType::Bash.label(),
            ShellType::Zsh.label(),
            ShellType::Fish.label(),
            ShellType::PowerShell.label(),
        ]);
    }
    r
}

} // verus!
