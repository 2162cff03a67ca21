//! Writing and reading integration scripts: the header that stores the
//! preferences a script was made with, and the script itself.

use crate::integration::Feature;
use crate::integration::Preset;
use crate::integration::ShellType;
use crate::integration::resolve_features;
use crate::integration::resolved_features;
use crate::text::after_prefix;
use crate::text::begins_with;
use crate::text::concat2;
use crate::text::join;
use crate::text::joined;
use crate::text::lines;
use crate::text::lines_of;
use crate::text::lowered;
use crate::text::owned;
use crate::text::pieces;
use crate::text::slices;
use crate::text::split_on;
use crate::text::starts_with;
use crate::text::strip_prefix;
use crate::text::trim;
use crate::text::trimmed;
use crate::text::views;
use vstd::prelude::*;

verus! {

pub const BASH_ALIASES: &'static str = "\n# === Aliases ===\nalias '??'='shell-ai suggest --'\nalias 'explain'='shell-ai explain --'\n";

pub const BASH_KEYBINDING: &'static str = "\n# === Keybinding ===\n# Ctrl+G: Transform current line into a shell command\n_shai_transform() {\n    if [[ -n \"$READLINE_LINE\" ]]; then\n        local original=\"$READLINE_LINE\"\n        local len=${#original}\n        local tmpfile=$(mktemp)\n        local had_monitor=0\n        local pid\n        local spinner=(⠋ ⠙ ⠹ ⠸ ⠼ ⠴ ⠦ ⠧ ⠇ ⠏)\n        [[ $- == *m* ]] && had_monitor=1\n\n        set +m\n        trap 'kill $pid 2>/dev/null; (( had_monitor )) && set -m; rm -f \"$tmpfile\"; printf \"\\r\\033[K\"; trap - INT TERM; return' INT TERM\n\n        { shell-ai --frontend=noninteractive suggest -- \"$original\" 2>/dev/null | head -1 > \"$tmpfile\" & } 2>/dev/null\n        pid=$!\n\n        local pos=0\n        while kill -0 $pid 2>/dev/null; do\n            local highlighted=\"\"\n            for ((j=0; j<len; j++)); do\n                local dist=$(( j - pos ))\n                (( dist < 0 )) && dist=$(( -dist ))\n                local wrap_dist=$(( len - dist ))\n                (( pos > 2 && wrap_dist < dist )) && dist=$wrap_dist\n                if (( dist == 0 )); then\n                    highlighted+=\"\\033[1;96m${original:j:1}\"\n                elif (( dist <= 2 )); then\n                    highlighted+=\"\\033[0;36m${original:j:1}\"\n                else\n                    highlighted+=\"\\033[2;36m${original:j:1}\"\n                fi\n            done\n            printf '\\r\\033[K\\033[1;36m%s\\033[0m %b\\033[0m' \"${spinner[pos % ${#spinner[@]}]}\" \"$highlighted\"\n            sleep 0.08\n            pos=$(( (pos + 1) % len ))\n        done\n\n        trap - INT TERM\n        (( had_monitor )) && set -m\n        READLINE_LINE=$(< \"$tmpfile\")\n        READLINE_POINT=${#READLINE_LINE}\n        rm -f \"$tmpfile\"\n        printf '\\r\\033[K'\n    fi\n}\nbind -x '\"\\C-g\": _shai_transform'\n";

pub const ZSH_ALIASES: &'static str = "\n# === Aliases ===\nalias '??'='shell-ai suggest --'\nalias 'explain'='shell-ai explain --'\n";

pub const ZSH_KEYBINDING: &'static str = "\n# === Keybinding ===\n# Ctrl+G: Transform current line into a shell command\n_shai_transform() {\n    if [[ -n \"$BUFFER\" ]]; then\n        local original=\"$BUFFER\"\n        local len=${#original}\n        local tmpfile=$(mktemp)\n        local spinner=(⠋ ⠙ ⠹ ⠸ ⠼ ⠴ ⠦ ⠧ ⠇ ⠏)\n        local pid\n\n        setopt LOCAL_OPTIONS NO_NOTIFY NO_MONITOR LOCAL_TRAPS\n        trap 'kill $pid 2>/dev/null; rm -f \"$tmpfile\"; printf \"\\r\\033[K\"; zle reset-prompt; return' INT TERM\n\n        (shell-ai --frontend=noninteractive suggest -- \"$original\" 2>/dev/null | head -1 > \"$tmpfile\") &!\n        pid=$!\n\n        local pos=0\n        while kill -0 $pid 2>/dev/null; do\n            local highlighted=\"\"\n            for ((j=1; j<=len; j++)); do\n                local dist=$(( j - 1 - pos ))\n                (( dist < 0 )) && dist=$(( -dist ))\n                local wrap_dist=$(( len - dist ))\n                (( pos > 2 && wrap_dist < dist )) && dist=$wrap_dist\n                if (( dist == 0 )); then\n                    highlighted+=\"\\033[1;96m${original[j]}\"\n                elif (( dist <= 2 )); then\n                    highlighted+=\"\\033[0;36m${original[j]}\"\n                else\n                    highlighted+=\"\\033[2;36m${original[j]}\"\n                fi\n            done\n            printf '\\r\\033[K\\033[1;36m%s\\033[0m %b\\033[0m' \"${spinner[pos % ${#spinner[@]} + 1]}\" \"$highlighted\"\n            sleep 0.08\n            pos=$(( (pos + 1) % len ))\n        done\n\n        BUFFER=$(< \"$tmpfile\")\n        rm -f \"$tmpfile\"\n        printf '\\r\\033[K'\n        zle reset-prompt\n        zle end-of-line\n    fi\n}\nzle -N _shai_transform\nbindkey '^G' _shai_transform\n";

pub const FISH_ALIASES: &'static str = "\n# === Abbreviations ===\n# Fish uses abbreviations instead of aliases for better integration\nabbr -a '??' 'shell-ai suggest --'\nabbr -a 'explain' 'shell-ai explain --'\n";

pub const FISH_KEYBINDING: &'static str = "\n# === Keybinding ===\n# Ctrl+G: Transform current line into a shell command\nfunction _shai_transform\n    set -l cmd (commandline)\n    test -z \"$cmd\"; and return\n\n    set -g __shai_cmd $cmd\n    set -g __shai_tmp (mktemp)\n    set -g __shai_pid\n    set -g __shai_cancelled 0\n    set -l spinner ⠋ ⠙ ⠹ ⠸ ⠼ ⠴ ⠦ ⠧ ⠇ ⠏\n    set -l len (string length \"$cmd\")\n\n    function __shai_cancel --on-event fish_cancel --on-signal INT\n        set -g __shai_cancelled 1\n        kill $__shai_pid 2>/dev/null\n    end\n\n    sh -c 'shell-ai --frontend=noninteractive suggest -- \"$1\" 2>/dev/null | head -1 > \"$2\"' _ \"$cmd\" \"$__shai_tmp\" &\n    set __shai_pid $last_pid\n\n    set -l pos 0\n    while kill -0 $__shai_pid 2>/dev/null; and test $__shai_cancelled -eq 0\n        set -l highlighted \"\"\n        for j in (seq $len)\n            set -l dist (math \"abs($j - 1 - $pos)\")\n            set -l wrap_dist (math \"$len - $dist\")\n            test $pos -gt 2 -a $wrap_dist -lt $dist; and set dist $wrap_dist\n            if test $dist -eq 0\n                set highlighted \"$highlighted\"\\e\"[1;96m\"(string sub -s $j -l 1 \"$cmd\")\n            else if test $dist -le 2\n                set highlighted \"$highlighted\"\\e\"[0;36m\"(string sub -s $j -l 1 \"$cmd\")\n            else\n                set highlighted \"$highlighted\"\\e\"[2;36m\"(string sub -s $j -l 1 \"$cmd\")\n            end\n        end\n        printf '\\r\\033[K\\033[1;36m%s\\033[0m %b\\033[0m' $spinner[(math \"$pos % 10 + 1\")] \"$highlighted\"\n        sleep 0.08 &; wait $last_pid; or break\n        set pos (math \"($pos + 1) % $len\")\n    end\n\n    functions -e __shai_cancel\n    printf '\\r\\033[K'\n    if test $__shai_cancelled -eq 1\n        commandline -r $__shai_cmd\n    else\n        commandline -r (cat $__shai_tmp)\n    end\n    rm -f $__shai_tmp\n    set -e __shai_pid __shai_tmp __shai_cmd __shai_cancelled\n    commandline -f repaint\n    commandline -f end-of-line\nend\nbind \\cg _shai_transform\n";

pub const POWERSHELL_ALIASES: &'static str = "\n# === Functions (PowerShell equivalent of aliases) ===\nfunction ?? { shell-ai suggest -- @args }\nfunction explain { shell-ai explain -- @args }\n";

pub const POWERSHELL_KEYBINDING: &'static str = "\n# === Keybinding ===\n# Ctrl+G: Transform current line into a shell command\nSet-PSReadLineKeyHandler -Chord 'Ctrl+g' -ScriptBlock {\n    $line = $null\n    [Microsoft.PowerShell.PSConsoleReadLine]::GetBufferState([ref]$line, [ref]$null)\n    if ($line) {\n        $len = $line.Length\n        $spinner = @('⠋', '⠙', '⠹', '⠸', '⠼', '⠴', '⠦', '⠧', '⠇', '⠏')\n        $cancelled = $false\n\n        $job = Start-Job -ScriptBlock {\n            param($l)\n            shell-ai --frontend=noninteractive suggest -- $l 2>$null | Select-Object -First 1\n        } -ArgumentList $line\n\n        $pos = 0\n        while ($job.State -eq 'Running') {\n            if ([Console]::KeyAvailable) {\n                $key = [Console]::ReadKey($true)\n                if ($key.Key -eq 'C' -and $key.Modifiers -eq 'Control') {\n                    $cancelled = $true\n                    break\n                }\n            }\n            $highlighted = \"\"\n            for ($j = 0; $j -lt $len; $j++) {\n                $dist = [Math]::Abs($j - $pos)\n                $wrapDist = $len - $dist\n                if ($pos -gt 2 -and $wrapDist -lt $dist) { $dist = $wrapDist }\n                if ($dist -eq 0) {\n                    $highlighted += \"`e[1;96m$($line[$j])\"\n                } elseif ($dist -le 2) {\n                    $highlighted += \"`e[0;36m$($line[$j])\"\n                } else {\n                    $highlighted += \"`e[2;36m$($line[$j])\"\n                }\n            }\n            $spin = $spinner[$pos % $spinner.Length]\n            [Console]::Write(\"`r`e[K`e[1;36m$spin`e[0m $highlighted`e[0m\")\n            Start-Sleep -Milliseconds 80\n            $pos = ($pos + 1) % $len\n        }\n\n        if ($cancelled) {\n            Stop-Job $job\n            Remove-Job $job\n            [Console]::Write(\"`r`e[K\")\n            [Microsoft.PowerShell.PSConsoleReadLine]::InvokePrompt()\n        } else {\n            $result = Receive-Job $job\n            Remove-Job $job\n            [Console]::Write(\"`r`e[K\")\n            [Microsoft.PowerShell.PSConsoleReadLine]::Replace(0, $line.Length, $result)\n            [Microsoft.PowerShell.PSConsoleReadLine]::InvokePrompt()\n        }\n    }\n}\n";
/// The features among `fs` that are `which`, as often as they occur.
pub open spec fn only(fs: Seq<Feature>, which: Feature) -> Seq<Feature>
    decreases fs.len(),
{
    if fs.len() == 0 {
        Seq::empty()
    } else if fs.last() == which {
        only(fs.drop_last(), which).push(which)
    } else {
        only(fs.drop_last(), which)
    }
}

/// The features `fs` in the order of their names.
pub open spec fn by_name(fs: Seq<Feature>) -> Seq<Feature> {
    only(fs, Feature::Aliases) + only(fs, Feature::Completions) + only(fs, Feature::Keybinding)
}

/// The names of the features `fs`, each behind `sign`.
pub open spec fn signed(fs: Seq<Feature>, sign: char) -> Seq<Seq<char>> {
    fs.map_values(|f: Feature| seq![sign] + f.label())
}

/// The modifiers as a header stores them: the added features behind a plus,
/// then the removed ones behind a minus, each group in the order of the
/// names, with commas between.
pub open spec fn modifiers_text(add: Seq<Feature>, remove: Seq<Feature>) -> Seq<char> {
    joined(signed(by_name(add), '+') + signed(by_name(remove), '-'), ","@)
}

/// Appends to `parts` the features among `fs` that are `which`, behind `sign`.
fn push_signed(parts: &mut Vec<String>, fs: &Vec<Feature>, which: Feature, sign: char)
    ensures
        views(final(parts)@) == views(old(parts)@) + signed(only(fs@, which), sign),
{
    let ghost start = views(parts@);
    let mut i: usize = 0;
    proof {
        assert(fs@.take(0) =~= Seq::<Feature>::empty());
        assert(views(parts@) =~= start + signed(only(fs@.take(0), which), sign));
    }
    while i < fs.len()
        invariant
            i <= fs.len(),
            views(parts@) == start + signed(only(fs@.take(i as int), which), sign),
        decreases fs.len() - i,
    {
        proof {
            let next = fs@.take(i as int + 1);
            assert(next.drop_last() =~= fs@.take(i as int));
            assert(next.last() == fs@[i as int]);
        }
        if fs[i] == which {
            let mut part = String::new();
            part.push(sign);
            part.push_str(which.name());
            let ghost before = views(parts@);
            parts.push(part);
            proof {
                assert(part@ =~= seq![sign] + which.label());
                assert(views(parts@) =~= before.push(part@));
                assert(views(parts@) =~= start + signed(only(fs@.take(i as int + 1), which), sign));
            }
        }
        i = i + 1;
    }
    proof {
        assert(fs@.take(fs@.len() as int) =~= fs@);
    }
}

/// Writes the modifiers as a header stores them; see [`modifiers_text`].
pub fn format_modifiers(add: &Vec<Feature>, remove: &Vec<Feature>) -> (r: String)
    ensures
        r@ == modifiers_text(add@, remove@),
{
    let mut parts: Vec<String> = Vec::new();
    proof {
        assert(views(parts@) =~= Seq::<Seq<char>>::empty());
    }
    push_signed(&mut parts, add, Feature::Aliases, '+');
    push_signed(&mut parts, add, Feature::Completions, '+');
    push_signed(&mut parts, add, Feature::Keybinding, '+');
    proof {
        assert(views(parts@) =~= signed(by_name(add@), '+'));
    }
    push_signed(&mut parts, remove, Feature::Aliases, '-');
    push_signed(&mut parts, remove, Feature::Completions, '-');
    push_signed(&mut parts, remove, Feature::Keybinding, '-');
    proof {
        assert(views(parts@) =~= signed(by_name(add@), '+') + signed(by_name(remove@), '-'));
    }
    let mut refs: Vec<&str> = Vec::new();
    let mut i: usize = 0;
    while i < parts.len()
        invariant
            i <= parts.len(),
            refs@.len() == i,
            forall|j: int| 0 <= j < i ==> (#[trigger] refs@[j])@ == parts@[j]@,
        decreases parts.len() - i,
    {
        refs.push(parts[i].as_str());
        i = i + 1;
    }
    proof {
        assert(slices(refs@) =~= views(parts@));
    }
    join(&refs, ",")
}

/// The header of a script: a notice, and the preferences that the script
/// was made with, so that it can be made again.
pub open spec fn header_text(
    version: Seq<char>,
    shell: ShellType,
    preset: Preset,
    add: Seq<Feature>,
    remove: Seq<Feature>,
) -> Seq<char> {
    "# shell-ai integration\n# Generated by shell-ai v"@ + version
        + "\n#\n# DO NOT EDIT THIS FILE MANUALLY\n# Regenerate with: shell-ai integration update "@
        + shell.label() + "\n#\n# @shell: "@ + shell.label() + "\n# @preset: "@ + preset.label()
        + "\n# @modifiers: "@ + modifiers_text(add, remove) + "\n#\n"@
}

/// Writes the header of a script for the given version of the program; see
/// [`header_text`].
pub fn generate_header(
    version: &str,
    shell: ShellType,
    preset: Preset,
    add: &Vec<Feature>,
    remove: &Vec<Feature>,
) -> (r: String)
    ensures
        r@ == header_text(version@, shell, preset, add@, remove@),
{
    let modifiers = format_modifiers(add, remove);
    let mut r = owned("# shell-ai integration\n# Generated by shell-ai v");
    r.push_str(version);
    r.push_str(
        "\n#\n# DO NOT EDIT THIS FILE MANUALLY\n# Regenerate with: shell-ai integration update ",
    );
    r.push_str(shell.name());
    r.push_str("\n#\n# @shell: ");
    r.push_str(shell.name());
    r.push_str("\n# @preset: ");
    r.push_str(preset.name());
    r.push_str("\n# @modifiers: ");
    r.push_str(modifiers.as_str());
    r.push_str("\n#\n");
    r
}

/// The aliases of a shell, as they stand in its script.
pub open spec fn aliases_of(shell: ShellType) -> Seq<char> {
    match shell {
        ShellType::Bash => BASH_ALIASES@,
        ShellType::Zsh => ZSH_ALIASES@,
        ShellType::Fish => FISH_ALIASES@,
        ShellType::PowerShell => POWERSHELL_ALIASES@,
    }
}

/// The key binding of a shell, as it stands in its script.
pub open spec fn keybinding_of(shell: ShellType) -> Seq<char> {
    match shell {
        ShellType::Bash => BASH_KEYBINDING@,
        ShellType::Zsh => ZSH_KEYBINDING@,
        ShellType::Fish => FISH_KEYBINDING@,
        ShellType::PowerShell => POWERSHELL_KEYBINDING@,
    }
}

/// The whole script: the header, and then the part of every feature that
/// the preset and the modifiers come to. The completions are handed in, as
/// they depend on the commands of the program.
pub open spec fn script_text(
    version: Seq<char>,
    completions: Seq<char>,
    shell: ShellType,
    preset: Preset,
    add: Seq<Feature>,
    remove: Seq<Feature>,
) -> Seq<char> {
    let features = resolved_features(preset, add, remove);
    header_text(version, shell, preset, add, remove) + (if features.contains(
        Feature::Completions,
    ) {
        "\n# === Completions ===\n"@ + completions
    } else {
        Seq::empty()
    }) + (if features.contains(Feature::Aliases) {
        aliases_of(shell)
    } else {
        Seq::empty()
    }) + (if features.contains(Feature::Keybinding) {
        keybinding_of(shell)
    } else {
        Seq::empty()
    })
}

/// Writes the whole script; see [`script_text`].
pub fn generate_integration_file(
    version: &str,
    completions: &str,
    shell: ShellType,
    preset: Preset,
    add: &Vec<Feature>,
    remove: &Vec<Feature>,
) -> (r: String)
    ensures
        r@ == script_text(version@, completions@, shell, preset, add@, remove@),
{
    let features = resolve_features(preset, add, remove);
    let mut output = generate_header(version, shell, preset, add, remove);
    let ghost header = output@;
    if features.contains(&Feature::Completions) {
        output.push_str("\n# === Completions ===\n");
        output.push_str(completions);
    }
    let ghost first = output@;
    if features.contains(&Feature::Aliases) {
        let aliases = match shell {
            ShellType::Bash => BASH_ALIASES,
            ShellType::Zsh => ZSH_ALIASES,
            ShellType::Fish => FISH_ALIASES,
            ShellType::PowerShell => POWERSHELL_ALIASES,
        };
        output.push_str(aliases);
    }
    let ghost second = output@;
    if features.contains(&Feature::Keybinding) {
        let keybinding = match shell {
            ShellType::Bash => BASH_KEYBINDING,
            ShellType::Zsh => ZSH_KEYBINDING,
            ShellType::Fish => FISH_KEYBINDING,
            ShellType::PowerShell => POWERSHELL_KEYBINDING,
        };
        output.push_str(keybinding);
    }
    proof {
        assert(first =~= header + (if features@.contains(Feature::Completions) {
            "\n# === Completions ===\n"@ + completions@
        } else {
            Seq::empty()
        }));
        assert(second =~= first + (if features@.contains(Feature::Aliases) {
            aliases_of(shell)
        } else {
            Seq::empty()
        }));
        assert(output@ =~= second + (if features@.contains(Feature::Keybinding) {
            keybinding_of(shell)
        } else {
            Seq::empty()
        }));
    }
    output
}

/// What one part of a list of modifiers asks for.
pub ghost enum PartEffect {
    /// The part is empty or has no sign.
    Nothing,
    Add(Feature),
    Remove(Feature),
    /// The part has a sign, but what follows names no feature.
    Unknown(Seq<char>),
}

/// The feature that a name stands for, in any case.
pub open spec fn feature_named(name: Seq<char>) -> Option<Feature> {
    Feature::named(lowered(name))
}

/// What one part of a list of modifiers asks for: the part is trimmed; a
/// plus adds the feature that follows it, a minus removes it.
pub open spec fn part_effect(part: Seq<char>) -> PartEffect {
    let t = trimmed(part);
    if t.len() == 0 {
        PartEffect::Nothing
    } else {
        match after_prefix(t, "+"@) {
            Some(name) => match feature_named(name) {
                Some(f) => PartEffect::Add(f),
                None => PartEffect::Unknown(name),
            },
            None => match after_prefix(t, "-"@) {
                Some(name) => match feature_named(name) {
                    Some(f) => PartEffect::Remove(f),
                    None => PartEffect::Unknown(name),
                },
                None => PartEffect::Nothing,
            },
        }
    }
}

/// The message for a modifier that names no feature.
pub open spec fn unknown_modifier(name: Seq<char>) -> Seq<char> {
    "Unknown feature in modifiers: "@ + name
}

/// The features that the parts of a list of modifiers add and remove, in
/// the order of the parts, or the message for the first part that names no
/// feature.
pub open spec fn parsed_modifiers(parts: Seq<Seq<char>>) -> Result<
    (Seq<Feature>, Seq<Feature>),
    Seq<char>,
>
    decreases parts.len(),
{
    if parts.len() == 0 {
        Ok((Seq::empty(), Seq::empty()))
    } else {
        match parsed_modifiers(parts.drop_last()) {
            Err(e) => Err(e),
            Ok((add, remove)) => match part_effect(parts.last()) {
                PartEffect::Nothing => Ok((add, remove)),
                PartEffect::Add(f) => Ok((add.push(f), remove)),
                PartEffect::Remove(f) => Ok((add, remove.push(f))),
                PartEffect::Unknown(name) => Err(unknown_modifier(name)),
            },
        }
    }
}

/// The view of the outcome of reading modifiers.
pub open spec fn modifiers_outcome(r: Result<(Vec<Feature>, Vec<Feature>), String>) -> Result<
    (Seq<Feature>, Seq<Feature>),
    Seq<char>,
> {
    match r {
        Ok((add, remove)) => Ok((add@, remove@)),
        Err(e) => Err(e@),
    }
}

/// Reads a list of modifiers as a header stores them: parts with commas
/// between, each a plus or a minus and the name of a feature; see
/// [`parsed_modifiers`].
pub fn parse_modifiers(value: &str) -> (r: Result<(Vec<Feature>, Vec<Feature>), String>)
    ensures
        modifiers_outcome(r) == parsed_modifiers(pieces(value@, ',')),
{
    let parts = split_on(value, ',');
    let ghost all = views(parts@);
    let mut add: Vec<Feature> = Vec::new();
    let mut remove: Vec<Feature> = Vec::new();
    let mut i: usize = 0;
    proof {
        assert(all.take(0) =~= Seq::<Seq<char>>::empty());
    }
    while i < parts.len()
        invariant
            i <= parts.len(),
            all == views(parts@),
            all == pieces(value@, ','),
            parsed_modifiers(all.take(i as int)) == Ok::<(Seq<Feature>, Seq<Feature>), Seq<char>>(
                (add@, remove@),
            ),
        decreases parts.len() - i,
    {
        proof {
            let next = all.take(i as int + 1);
            assert(next.drop_last() =~= all.take(i as int));
            assert(next.last() == parts@[i as int]@);
        }
        let part = trim(parts[i].as_str());
        if !part.as_str().is_empty() {
            match strip_prefix(part.as_str(), "+") {
                Some(name) => match Feature::from_name(name.as_str()) {
                    Ok(f) => {
                        add.push(f);
                    },
                    Err(_) => {
                        proof {
                            assert(all.take(parts@.len() as int) =~= all);
                            lemma_modifiers_error(all, i as int + 1);
                        }
                        return Err(concat2("Unknown feature in modifiers: ", name.as_str()));
                    },
                },
                None => match strip_prefix(part.as_str(), "-") {
                    Some(name) => match Feature::from_name(name.as_str()) {
                        Ok(f) => {
                            remove.push(f);
                        },
                        Err(_) => {
                            proof {
                                assert(all.take(parts@.len() as int) =~= all);
                                lemma_modifiers_error(all, i as int + 1);
                            }
                            return Err(concat2("Unknown feature in modifiers: ", name.as_str()));
                        },
                    },
                    None => {},
                },
            }
        }
        i = i + 1;
    }
    proof {
        assert(all.take(parts@.len() as int) =~= all);
    }
    Ok((add, remove))
}

/// An error among the first parts is the error of the whole list.
pub proof fn lemma_modifiers_error(parts: Seq<Seq<char>>, n: int)
    requires
        0 <= n <= parts.len(),
        parsed_modifiers(parts.take(n)) is Err,
    ensures
        parsed_modifiers(parts) == parsed_modifiers(parts.take(n)),
    decreases parts.len() - n,
{
    if n == parts.len() {
        assert(parts.take(n) =~= parts);
    } else {
        assert(parts.drop_last().take(n) =~= parts.take(n));
        lemma_modifiers_error(parts.drop_last(), n);
    }
}

/// The preferences that a script was made with.
#[derive(Debug, PartialEq, Eq)]
pub struct IntegrationPreferences {
    pub shell: ShellType,
    pub preset: Preset,
    pub add: Vec<Feature>,
    pub remove: Vec<Feature>,
}

/// What has been read of a header.
pub ghost struct HeaderState {
    pub shell: Option<ShellType>,
    pub preset: Option<Preset>,
    pub add: Seq<Feature>,
    pub remove: Seq<Feature>,
}

/// What a line of a header adds to what has been read: the shell, the
/// preset or the modifiers where the line stores one of them, and nothing
/// otherwise. A line that stores something unreadable is an error.
pub open spec fn line_effect(state: HeaderState, line: Seq<char>) -> Result<HeaderState, Seq<char>> {
    match after_prefix(line, "# @shell: "@) {
        Some(v) => match ShellType::named(lowered(trimmed(v))) {
            Some(s) => Ok(HeaderState { shell: Some(s), ..state }),
            None => Err("Invalid shell: "@ + ("Unknown shell: "@ + trimmed(v))),
        },
        None => match after_prefix(line, "# @preset: "@) {
            Some(v) => match Preset::named(lowered(trimmed(v))) {
                Some(p) => Ok(HeaderState { preset: Some(p), ..state }),
                None => Err("Invalid preset: "@ + ("Unknown preset: "@ + trimmed(v))),
            },
            None => match after_prefix(line, "# @modifiers: "@) {
                Some(v) => match parsed_modifiers(pieces(v, ',')) {
                    Ok((add, remove)) => Ok(HeaderState { add, remove, ..state }),
                    Err(e) => Err(e),
                },
                None => Ok(state),
            },
        },
    }
}

/// What the lines `lines` of a header come to, read in order; the first
/// error ends the reading.
pub open spec fn scan_header(lines: Seq<Seq<char>>) -> Result<HeaderState, Seq<char>>
    decreases lines.len(),
{
    if lines.len() == 0 {
        Ok(HeaderState { shell: None, preset: None, add: Seq::empty(), remove: Seq::empty() })
    } else {
        match scan_header(lines.drop_last()) {
            Err(e) => Err(e),
            Ok(state) => line_effect(state, lines.last()),
        }
    }
}

/// The lines of a text in which a header is looked for: the first fifteen.
pub open spec fn header_lines(content: Seq<char>) -> Seq<Seq<char>> {
    let all = lines_of(content);
    if all.len() > 15 {
        all.take(15)
    } else {
        all
    }
}

/// The mathematical value of [`IntegrationPreferences`].
pub ghost struct Preferences {
    pub shell: ShellType,
    pub preset: Preset,
    pub add: Seq<Feature>,
    pub remove: Seq<Feature>,
}

impl View for IntegrationPreferences {
    type V = Preferences;

    open spec fn view(&self) -> Preferences {
        Preferences { shell: self.shell, preset: self.preset, add: self.add@, remove: self.remove@ }
    }
}

/// The preferences that the header of a script stores. A text that does not
/// begin as a script is refused; so is a header with an unreadable line, and
/// one that stores no shell or no preset.
pub open spec fn parsed_header(content: Seq<char>) -> Result<Preferences, Seq<char>> {
    if !begins_with(content, "# shell-ai integration"@) {
        Err("Not a shell-ai integration file"@)
    } else {
        match scan_header(header_lines(content)) {
            Err(e) => Err(e),
            Ok(state) => match state.shell {
                None => Err("Missing @shell in header"@),
                Some(shell) => match state.preset {
                    None => Err("Missing @preset in header"@),
                    Some(preset) => Ok(
                        Preferences { shell, preset, add: state.add, remove: state.remove },
                    ),
                },
            },
        }
    }
}

/// The view of the outcome of reading a header.
pub open spec fn header_outcome(r: Result<IntegrationPreferences, String>) -> Result<
    Preferences,
    Seq<char>,
> {
    match r {
        Ok(p) => Ok(p@),
        Err(e) => Err(e@),
    }
}

/// An error among the first lines is the error of all the lines.
pub proof fn lemma_scan_error(lines: Seq<Seq<char>>, n: int)
    requires
        0 <= n <= lines.len(),
        scan_header(lines.take(n)) is Err,
    ensures
        scan_header(lines) == scan_header(lines.take(n)),
    decreases lines.len() - n,
{
    if n == lines.len() {
        assert(lines.take(n) =~= lines);
    } else {
        assert(lines.drop_last().take(n) =~= lines.take(n));
        lemma_scan_error(lines.drop_last(), n);
    }
}

/// Reads the preferences from the header of a script; see [`parsed_header`].
pub fn parse_header(content: &str) -> (r: Result<IntegrationPreferences, String>)
    ensures
        header_outcome(r) == parsed_header(content@),
{
    if !starts_with(content, "# shell-ai integration") {
        return Err(owned("Not a shell-ai integration file"));
    }
    let all = lines(content);
    let limit: usize = if all.len() > 15 {
        15
    } else {
        all.len()
    };
    let ghost wanted = header_lines(content@);
    proof {
        if all.len() <= 15 {
            assert(views(all@).take(limit as int) =~= views(all@));
        }
        assert(wanted == views(all@).take(limit as int));
        assert(wanted.take(0) =~= Seq::<Seq<char>>::empty());
    }
    let mut shell: Option<ShellType> = None;
    let mut preset: Option<Preset> = None;
    let mut add: Vec<Feature> = Vec::new();
    let mut remove: Vec<Feature> = Vec::new();
    let mut i: usize = 0;
    while i < limit
        invariant
            i <= limit <= all.len(),
            wanted == views(all@).take(limit as int),
            wanted == header_lines(content@),
            begins_with(content@, "# shell-ai integration"@),
            scan_header(wanted.take(i as int)) == Ok::<HeaderState, Seq<char>>(
                HeaderState { shell, preset, add: add@, remove: remove@ },
            ),
        decreases limit - i,
    {
        proof {
            let next = wanted.take(i as int + 1);
            assert(next.drop_last() =~= wanted.take(i as int));
            assert(next.last() == all@[i as int]@);
        }
        let line = all[i].as_str();
        match strip_prefix(line, "# @shell: ") {
            Some(value) => {
                let name = trim(value.as_str());
                match ShellType::from_name(name.as_str()) {
                    Ok(s) => {
                        shell = Some(s);
                    },
                    Err(e) => {
                        proof {
                            lemma_scan_error(wanted, i as int + 1);
                        }
                        return Err(concat2("Invalid shell: ", e.as_str()));
                    },
                }
            },
            None => match strip_prefix(line, "# @preset: ") {
                Some(value) => {
                    let name = trim(value.as_str());
                    match Preset::from_name(name.as_str()) {
                        Ok(p) => {
                            preset = Some(p);
                        },
                        Err(e) => {
                            proof {
                                lemma_scan_error(wanted, i as int + 1);
                            }
                            return Err(concat2("Invalid preset: ", e.as_str()));
                        },
                    }
                },
                None => match strip_prefix(line, "# @modifiers: ") {
                    Some(value) => match parse_modifiers(value.as_str()) {
                        Ok((a, r)) => {
                            add = a;
                            remove = r;
                        },
                        Err(e) => {
                            proof {
                                lemma_scan_error(wanted, i as int + 1);
                            }
                            return Err(e);
                        },
                    },
                    None => {},
                },
            },
        }
        i = i + 1;
    }
    proof {
        assert(wanted.take(limit as int) =~= wanted);
    }
    match shell {
        None => Err(owned("Missing @shell in header")),
        Some(shell) => match preset {
            None => Err(owned("Missing @preset in header")),
            Some(preset) => Ok(IntegrationPreferences { shell, preset, add, remove }),
        },
    }
}

} // verus!
