//! Shell integration: which shells are supported, which features a script
//! can hold, and how presets and modifiers resolve to a set of features.

use crate::kinds::OutputFormat;
use crate::text::lowered;
use crate::text::to_lowercase;
use vstd::prelude::*;

verus! {

/// The shells for which an integration script can be written.
#[derive(Clone, Copy, Debug, PartialEq, Eq, Structural)]
pub enum ShellType {
    Bash,
    Zsh,
    Fish,
    PowerShell,
}

impl ShellType {
    /// The name of the shell on the command line and in script headers.
    pub open spec fn label(self) -> Seq<char> {
        match self {
            ShellType::Bash => "bash"@,
            ShellType::Zsh => "zsh"@,
            ShellType::Fish => "fish"@,
            ShellType::PowerShell => "powershell"@,
        }
    }

    /// The ending of the names of the shell's script files.
    pub open spec fn suffix(self) -> Seq<char> {
        match self {
            ShellType::Bash => "bash"@,
            ShellType::Zsh => "zsh"@,
            ShellType::Fish => "fish"@,
            ShellType::PowerShell => "ps1"@,
        }
    }

    /// The start-up file in which the shell's users source the script.
    pub open spec fn startup_file(self) -> Seq<char> {
        match self {
            ShellType::Bash => "~/.bashrc"@,
            ShellType::Zsh => "~/.zshrc"@,
            ShellType::Fish => "~/.config/fish/config.fish"@,
            ShellType::PowerShell => "$PROFILE"@,
        }
    }

    /// The shell that a lower-case name stands for.
    pub open spec fn named(name: Seq<char>) -> Option<ShellType> {
        if name == "bash"@ {
            Some(ShellType::Bash)
        } else if name == "zsh"@ {
            Some(ShellType::Zsh)
        } else if name == "fish"@ {
            Some(ShellType::Fish)
        } else if name == "powershell"@ {
            Some(ShellType::PowerShell)
        } else {
            None
        }
    }

    pub fn name(self) -> (r: &'static str)
        ensures
            r@ == self.label(),
    {
        match self {
            ShellType::Bash => "bash",
            ShellType::Zsh => "zsh",
            ShellType::Fish => "fish",
            ShellType::PowerShell => "powershell",
        }
    }

    /// The file extension for this shell.
    pub fn extension(&self) -> (r: &'static str)
        ensures
            r@ == self.suffix(),
    {
        match self {
            ShellType::Bash => "bash",
            ShellType::Zsh => "zsh",
            ShellType::Fish => "fish",
            ShellType::PowerShell => "ps1",
        }
    }

    /// The start-up file to suggest for this shell.
    pub fn rc_file(&self) -> (r: &'static str)
        ensures
            r@ == self.startup_file(),
    {
        match self {
            ShellType::Bash => "~/.bashrc",
            ShellType::Zsh => "~/.zshrc",
            ShellType::Fish => "~/.config/fish/config.fish",
            ShellType::PowerShell => "$PROFILE",
        }
    }

    /// Reads a shell from its name in any case. The error names the text
    /// that is no shell.
    pub fn from_name(s: &str) -> (r: Result<ShellType, String>)
        ensures
            match r {
                Ok(shell) => ShellType::named(lowered(s@)) == Some(shell),
                Err(e) => ShellType::named(lowered(s@)) is None && e@ == "Unknown shell: "@ + s@,
            },
    {
        let low = to_lowercase(s);
        match ShellType::from_lowercase_name(low.as_str()) {
            Some(shell) => Ok(shell),
            None => Err(crate::text::concat2("Unknown shell: ", s)),
        }
    }

    /// Reads a shell from its name in lower case.
    pub fn from_lowercase_name(name: &str) -> (r: Option<ShellType>)
        ensures
            r == ShellType::named(name@),
    {
        if name.eq("bash") {
            Some(ShellType::Bash)
        } else if name.eq("zsh") {
            Some(ShellType::Zsh)
        } else if name.eq("fish") {
            Some(ShellType::Fish)
        } else if name.eq("powershell") {
            Some(ShellType::PowerShell)
        } else {
            None
        }
    }

    /// Every shell, in declaration order.
    pub fn all() -> (r: Vec<ShellType>)
        ensures
            r@ == seq![ShellType::Bash, ShellType::Zsh, ShellType::Fish, ShellType::PowerShell],
    {
        let mut r: Vec<ShellType> = Vec::new();
        r.push(ShellType::Bash);
        r.push(ShellType::Zsh);
        r.push(ShellType::Fish);
        r.push(ShellType::PowerShell);
        r
    }
}

/// What an integration script can hold.
#[derive(Clone, Copy, Debug, PartialEq, Eq, Hash, Structural)]
pub enum Feature {
    /// Tab completion for the commands.
    Completions,
    /// Aliases or abbreviations for the two main commands.
    Aliases,
    /// A key binding that rewrites the current line.
    Keybinding,
}

impl Feature {
    pub open spec fn label(self) -> Seq<char> {
        match self {
            Feature::Completions => "completions"@,
            Feature::Aliases => "aliases"@,
            Feature::Keybinding => "keybinding"@,
        }
    }

    /// What the feature does, in a line.
    pub open spec fn summary(self) -> Seq<char> {
        match self {
            Feature::Completions => "Tab completion for shell-ai commands"@,
            Feature::Aliases => "?? for suggest, explain for explain (Fish: abbreviations)"@,
            Feature::Keybinding => "Ctrl+G transform with animated progress indicator"@,
        }
    }

    /// The feature that a lower-case name stands for.
    pub open spec fn named(name: Seq<char>) -> Option<Feature> {
        if name == "completions"@ {
            Some(Feature::Completions)
        } else if name == "aliases"@ {
            Some(Feature::Aliases)
        } else if name == "keybinding"@ {
            Some(Feature::Keybinding)
        } else {
            None
        }
    }

    pub fn name(self) -> (r: &'static str)
        ensures
            r@ == self.label(),
    {
        match self {
            Feature::Completions => "completions",
            Feature::Aliases => "aliases",
            Feature::Keybinding => "keybinding",
        }
    }

    /// Reads a feature from its name in any case.
    pub fn from_name(s: &str) -> (r: Result<Feature, String>)
        ensures
            match r {
                Ok(f) => Feature::named(lowered(s@)) == Some(f),
                Err(e) => Feature::named(lowered(s@)) is None && e@ == "Unknown feature: "@
                    + s@,
            },
    {
        let low = to_lowercase(s);
        match Feature::from_lowercase_name(low.as_str()) {
            Some(feature) => Ok(feature),
            None => Err(crate::text::concat2("Unknown feature: ", s)),
        }
    }

    /// Reads a feature from its name in lower case.
    pub fn from_lowercase_name(name: &str) -> (r: Option<Feature>)
        ensures
            r == Feature::named(name@),
    {
        if name.eq("completions") {
            Some(Feature::Completions)
        } else if name.eq("aliases") {
            Some(Feature::Aliases)
        } else if name.eq("keybinding") {
            Some(Feature::Keybinding)
        } else {
            None
        }
    }

    /// Every feature, in declaration order.
    pub fn all() -> (r: Vec<Feature>)
        ensures
            r@ == seq![Feature::Completions, Feature::Aliases, Feature::Keybinding],
    {
        let mut r: Vec<Feature> = Vec::new();
        r.push(Feature::Completions);
        r.push(Feature::Aliases);
        r.push(Feature::Keybinding);
        r
    }
}

/// What the feature does, in a line.
pub fn feature_description(feature: Feature) -> (r: &'static str)
    ensures
        r@ == feature.summary(),
{
    match feature {
        Feature::Completions => "Tab completion for shell-ai commands",
        Feature::Aliases => "?? for suggest, explain for explain (Fish: abbreviations)",
        Feature::Keybinding => "Ctrl+G transform with animated progress indicator",
    }
}

/// A set of features.
#[derive(Clone, Copy, Debug, PartialEq, Eq, Structural)]
pub struct FeatureSet {
    pub completions: bool,
    pub aliases: bool,
    pub keybinding: bool,
}

impl View for FeatureSet {
    type V = Set<Feature>;

    open spec fn view(&self) -> Set<Feature> {
        Set::new(
            |f: Feature|
                match f {
                    Feature::Completions => self.completions,
                    Feature::Aliases => self.aliases,
                    Feature::Keybinding => self.keybinding,
                },
        )
    }
}

impl FeatureSet {
    pub fn empty() -> (r: Self)
        ensures
            r@ == Set::<Feature>::empty(),
    {
        let r = FeatureSet { completions: false, aliases: false, keybinding: false };
        assert(r@ =~= Set::<Feature>::empty());
        r
    }

    pub fn contains(&self, f: &Feature) -> (r: bool)
        ensures
            r == self@.contains(*f),
    {
        match f {
            Feature::Completions => self.completions,
            Feature::Aliases => self.aliases,
            Feature::Keybinding => self.keybinding,
        }
    }

    pub fn insert(&mut self, f: Feature)
        ensures
            final(self)@ == old(self)@.insert(f),
    {
        match f {
            Feature::Completions => {
                self.completions = true;
            },
            Feature::Aliases => {
                self.aliases = true;
            },
            Feature::Keybinding => {
                self.keybinding = true;
            },
        }
        assert(self@ =~= old(self)@.insert(f));
    }

    pub fn remove(&mut self, f: &Feature)
        ensures
            final(self)@ == old(self)@.remove(*f),
    {
        match f {
            Feature::Completions => {
                self.completions = false;
            },
            Feature::Aliases => {
                self.aliases = false;
            },
            Feature::Keybinding => {
                self.keybinding = false;
            },
        }
        assert(self@ =~= old(self)@.remove(*f));
    }

    pub fn is_empty(&self) -> (r: bool)
        ensures
            r == (self@ == Set::<Feature>::empty()),
    {
        let r = !self.completions && !self.aliases && !self.keybinding;
        proof {
            if r {
                assert(self@ =~= Set::<Feature>::empty());
            } else {
                if self.completions {
                    assert(self@.contains(Feature::Completions));
                } else if self.aliases {
                    assert(self@.contains(Feature::Aliases));
                } else {
                    assert(self@.contains(Feature::Keybinding));
                }
            }
        }
        r
    }
}

/// Named starting points for a set of features.
#[derive(Clone, Copy, Debug, PartialEq, Eq, Structural)]
pub enum Preset {
    /// Completions only.
    Minimal,
    /// Completions and aliases.
    Standard,
    /// Completions, aliases and the key binding.
    Full,
}

impl Preset {
    pub open spec fn label(self) -> Seq<char> {
        match self {
            Preset::Minimal => "minimal"@,
            Preset::Standard => "standard"@,
            Preset::Full => "full"@,
        }
    }

    /// The preset that a lower-case name stands for.
    pub open spec fn named(name: Seq<char>) -> Option<Preset> {
        if name == "minimal"@ {
            Some(Preset::Minimal)
        } else if name == "standard"@ {
            Some(Preset::Standard)
        } else if name == "full"@ {
            Some(Preset::Full)
        } else {
            None
        }
    }

    /// The features of the preset.
    pub open spec fn members(self) -> Set<Feature> {
        match self {
            Preset::Minimal => set![Feature::Completions],
            Preset::Standard => set![Feature::Completions, Feature::Aliases],
            Preset::Full => set![Feature::Completions, Feature::Aliases, Feature::Keybinding],
        }
    }

    pub fn name(self) -> (r: &'static str)
        ensures
            r@ == self.label(),
    {
        match self {
            Preset::Minimal => "minimal",
            Preset::Standard => "standard",
            Preset::Full => "full",
        }
    }

    /// Reads a preset from its name in any case.
    pub fn from_name(s: &str) -> (r: Result<Preset, String>)
        ensures
            match r {
                Ok(p) => Preset::named(lowered(s@)) == Some(p),
                Err(e) => Preset::named(lowered(s@)) is None && e@ == "Unknown preset: "@ + s@,
            },
    {
        let low = to_lowercase(s);
        match Preset::from_lowercase_name(low.as_str()) {
            Some(preset) => Ok(preset),
            None => Err(crate::text::concat2("Unknown preset: ", s)),
        }
    }

    /// Reads a preset from its name in lower case.
    pub fn from_lowercase_name(name: &str) -> (r: Option<Preset>)
        ensures
            r == Preset::named(name@),
    {
        if name.eq("minimal") {
            Some(Preset::Minimal)
        } else if name.eq("standard") {
            Some(Preset::Standard)
        } else if name.eq("full") {
            Some(Preset::Full)
        } else {
            None
        }
    }

    /// The set of features included in this preset.
    pub fn features(&self) -> (r: FeatureSet)
        ensures
            r@ == self.members(),
    {
        let r = match self {
            Preset::Minimal => FeatureSet { completions: true, aliases: false, keybinding: false },
            Preset::Standard => FeatureSet { completions: true, aliases: true, keybinding: false },
            Preset::Full => FeatureSet { completions: true, aliases: true, keybinding: true },
        };
        assert(r@ =~= self.members());
        r
    }

    /// Every preset, in declaration order.
    pub fn all() -> (r: Vec<Preset>)
        ensures
            r@ == seq![Preset::Minimal, Preset::Standard, Preset::Full],
    {
        let mut r: Vec<Preset> = Vec::new();
        r.push(Preset::Minimal);
        r.push(Preset::Standard);
        r.push(Preset::Full);
        r
    }
}

/// The features that a preset with modifiers comes to: the features of the
/// preset and the added ones, without the removed ones. A feature that is
/// both added and removed is left out.
pub open spec fn resolved_features(preset: Preset, add: Seq<Feature>, remove: Seq<Feature>) -> Set<
    Feature,
> {
    (preset.members() + add.to_set()) - remove.to_set()
}

/// Resolves a preset with its modifiers; see [`resolved_features`].
pub fn resolve_features(preset: Preset, add: &Vec<Feature>, remove: &Vec<Feature>) -> (r:
    FeatureSet)
    ensures
        r@ == resolved_features(preset, add@, remove@),
{
    let mut features = preset.features();
    let mut i: usize = 0;
    while i < add.len()
        invariant
            i <= add.len(),
            features@ == preset.members() + add@.take(i as int).to_set(),
        decreases add.len() - i,
    {
        features.insert(add[i]);
        proof {
            let before = add@.take(i as int);
            let after = add@.take(i as int + 1);
            assert(after =~= before.push(add@[i as int]));
            assert forall|f: Feature| #[trigger] after.to_set().contains(f) <==> (
            before.to_set().contains(f) || f == add@[i as int]) by {
                if before.to_set().contains(f) {
                    let k = choose|k: int| 0 <= k < before.len() && before[k] == f;
                    assert(after[k] == f);
                }
                if f == add@[i as int] {
                    assert(after[i as int] == f);
                }
                if after.to_set().contains(f) {
                    let k = choose|k: int| 0 <= k < after.len() && after[k] == f;
                    if k < before.len() {
                        assert(before[k] == f);
                    }
                }
            }
            assert(features@ =~= preset.members() + after.to_set());
        }
        i = i + 1;
    }
    proof {
        assert(add@.take(add@.len() as int) =~= add@);
    }
    let ghost added = features@;
    let mut j: usize = 0;
    while j < remove.len()
        invariant
            j <= remove.len(),
            added == preset.members() + add@.to_set(),
            features@ == added - remove@.take(j as int).to_set(),
        decreases remove.len() - j,
    {
        features.remove(&remove[j]);
        proof {
            let before = remove@.take(j as int);
            let after = remove@.take(j as int + 1);
            assert(after =~= before.push(remove@[j as int]));
            assert forall|f: Feature| #[trigger] after.to_set().contains(f) <==> (
            before.to_set().contains(f) || f == remove@[j as int]) by {
                if before.to_set().contains(f) {
                    let k = choose|k: int| 0 <= k < before.len() && before[k] == f;
                    assert(after[k] == f);
                }
                if f == remove@[j as int] {
                    assert(after[j as int] == f);
                }
                if after.to_set().contains(f) {
                    let k = choose|k: int| 0 <= k < after.len() && after[k] == f;
                    if k < before.len() {
                        assert(before[k] == f);
                    }
                }
            }
            assert(features@ =~= added - after.to_set());
        }
        j = j + 1;
    }
    proof {
        assert(remove@.take(remove@.len() as int) =~= remove@);
    }
    features
}

/// What the integration command is asked to do.
#[derive(Debug)]
pub struct IntegrationArgs {
    pub action: IntegrationAction,
}

/// The actions of the integration command.
#[derive(Debug)]
pub enum IntegrationAction {
    /// Write a new integration script.
    Generate(IntegrationGenerateArgs),
    /// Rewrite existing scripts with the preferences stored in them.
    Update(IntegrationUpdateArgs),
    /// Show the features, the presets and the installed scripts.
    List,
}

#[derive(Debug)]
pub struct IntegrationGenerateArgs {
    pub shell: ShellType,
    pub preset: Preset,
    /// Features to add to the preset.
    pub add_features: Vec<Feature>,
    /// Features to take out of the preset.
    pub remove_features: Vec<Feature>,
    /// Print the script instead of writing it to its file.
    pub stdout: bool,
    /// Replace an existing file without asking.
    pub overwrite: bool,
}

#[derive(Debug)]
pub struct IntegrationUpdateArgs {
    /// The shell to update; all shells with a script where it is absent.
    pub shell: Option<ShellType>,
}

/// What the integration command has to do next.
#[derive(Debug)]
pub enum IntegrationStep {
    Generate(IntegrationGenerateArgs),
    Update(IntegrationUpdateArgs),
    /// Print the listing as JSON.
    ListJson,
    /// Print the listing for a reader.
    ListHuman,
}

/// Which listing to print for the given output format.
pub fn run_list(output_format: OutputFormat) -> (r: IntegrationStep)
    ensures
        output_format == OutputFormat::Json ==> r is ListJson,
        output_format == OutputFormat::Human ==> r is ListHuman,
{
    match output_format {
        OutputFormat::Json => IntegrationStep::ListJson,
        OutputFormat::Human => IntegrationStep::ListHuman,
    }
}

/// What the integration command has to do for the given arguments: the
/// action they name, with its own arguments, and for a listing the kind of
/// listing that the output format asks for.
pub fn run(args: IntegrationArgs, output_format: OutputFormat) -> (r: IntegrationStep)
    ensures
        match args.action {
            IntegrationAction::Generate(g) => r == IntegrationStep::Generate(g),
            IntegrationAction::Update(u) => r == IntegrationStep::Update(u),
            IntegrationAction::List => if output_format == OutputFormat::Json {
                r is ListJson
            } else {
                r is ListHuman
            },
        },
{
    match args.action {
        IntegrationAction::Generate(gen_args) => IntegrationStep::Generate(gen_args),
        IntegrationAction::Update(update_args) => IntegrationStep::Update(update_args),
        IntegrationAction::List => run_list(output_format),
    }
}

} // verus!
