//! What the benchmark of the integration scripts needs to know of shells,
//! files and samples.

use crate::literal::parse_u32;
use crate::literal::u32_literal;
use crate::text::owned;
use crate::text::views;
use vstd::prelude::*;

verus! {

/// The shells that are benchmarked.
#[derive(Debug, Clone, Copy, PartialEq, Eq, Structural)]
pub enum Shell {
    Bash,
    Zsh,
    Fish,
    PowerShell,
}

impl Shell {
    /// The name of the shell in file names and on the command line.
    pub open spec fn label(self) -> Seq<char> {
        match self {
            Shell::Bash => "bash"@,
            Shell::Zsh => "zsh"@,
            Shell::Fish => "fish"@,
            Shell::PowerShell => "powershell"@,
        }
    }

    /// The name of the shell in a report.
    pub open spec fn title(self) -> Seq<char> {
        match self {
            Shell::Bash => "Bash"@,
            Shell::Zsh => "Zsh"@,
            Shell::Fish => "Fish"@,
            Shell::PowerShell => "PowerShell"@,
        }
    }

    /// The program that runs the shell.
    pub open spec fn program(self) -> Seq<char> {
        match self {
            Shell::Bash => "bash"@,
            Shell::Zsh => "zsh"@,
            Shell::Fish => "fish"@,
            Shell::PowerShell => "pwsh"@,
        }
    }

    /// The ending of the names of the shell's script files.
    pub open spec fn suffix(self) -> Seq<char> {
        match self {
            Shell::Bash => "bash"@,
            Shell::Zsh => "zsh"@,
            Shell::Fish => "fish"@,
            Shell::PowerShell => "ps1"@,
        }
    }

    pub fn name(&self) -> (r: &'static str)
        ensures
            r@ == self.label(),
    {
        match self {
            Shell::Bash => "bash",
            Shell::Zsh => "zsh",
            Shell::Fish => "fish",
            Shell::PowerShell => "powershell",
        }
    }

    pub fn display_name(&self) -> (r: &'static str)
        ensures
            r@ == self.title(),
    {
        match self {
            Shell::Bash => "Bash",
            Shell::Zsh => "Zsh",
            Shell::Fish => "Fish",
            Shell::PowerShell => "PowerShell",
        }
    }

    pub fn command(&self) -> (r: &'static str)
        ensures
            r@ == self.program(),
    {
        match self {
            Shell::Bash => "bash",
            Shell::Zsh => "zsh",
            Shell::Fish => "fish",
            Shell::PowerShell => "pwsh",
        }
    }

    pub fn extension(&self) -> (r: &'static str)
        ensures
            r@ == self.suffix(),
    {
        match self {
            Shell::Bash => "bash",
            Shell::Zsh => "zsh",
            Shell::Fish => "fish",
            Shell::PowerShell => "ps1",
        }
    }

    /// Every shell, in the order in which they are benchmarked.
    pub fn all() -> (r: Vec<Shell>)
        ensures
            r@ == seq![Shell::Bash, Shell::Zsh, Shell::Fish, Shell::PowerShell],
    {
        let mut r: Vec<Shell> = Vec::new();
        r.push(Shell::Bash);
        r.push(Shell::Zsh);
        r.push(Shell::Fish);
        r.push(Shell::PowerShell);
        r
    }
}

/// The name of the file that is sourced in a scenario: the empty file of
/// the shell for the blank scenario, else the script of the preset.
pub open spec fn scenario_file_name(shell: Shell, scenario: Seq<char>) -> Seq<char> {
    if scenario == "blank"@ {
        "blank."@ + shell.suffix()
    } else {
        shell.label() + "_"@ + scenario + "."@ + shell.suffix()
    }
}

/// Names the file that is sourced in a scenario; see [`scenario_file_name`].
pub fn scenario_file(shell: Shell, scenario: &str) -> (r: String)
    ensures
        r@ == scenario_file_name(shell, scenario@),
{
    if scenario.eq("blank") {
        crate::text::concat2("blank.", shell.extension())
    } else {
        let mut r = owned(shell.name());
        r.push_str("_");
        r.push_str(scenario);
        r.push_str(".");
        r.push_str(shell.extension());
        r
    }
}

/// The places of the quartiles among `n` sorted samples.
#[derive(Debug, Clone, Copy, PartialEq, Eq, Structural)]
pub struct Quartiles {
    pub q1: usize,
    pub median: usize,
    pub q3: usize,
}

/// Finds the places of the quartiles among `n` sorted samples: a quarter,
/// a half and three quarters of the way, rounded down.
pub fn quartile_positions(n: usize) -> (r: Quartiles)
    ensures
        r.q1 == n / 4,
        r.median == n / 2,
        r.q3 == 3 * n / 4,
        n > 0 ==> r.q1 < n && r.median < n && r.q3 < n,
{
    let q = n / 4;
    let rest = n % 4;
    let q3 = q * 3 + (rest * 3) / 4;
    assert(q3 == 3 * n / 4) by {
        assert(n == 4 * q + rest);
        assert(3 * n == 12 * q + 3 * rest);
    }
    Quartiles { q1: q, median: n / 2, q3 }
}

/// What the benchmark is asked for.
#[derive(Debug, Clone, Copy, PartialEq, Eq, Structural)]
pub struct BenchOptions {
    /// How many samples to take of every scenario.
    pub samples: usize,
    /// Whether to keep the files that the benchmark wrote.
    pub keep_results: bool,
}

/// The options after one more argument: `--keep` or `-k` keeps the results,
/// a count that fits in 32 bits sets the number of samples, and anything
/// else is passed over.
pub open spec fn with_argument(options: BenchOptions, arg: Seq<char>) -> BenchOptions {
    if arg == "--keep"@ || arg == "-k"@ {
        BenchOptions { keep_results: true, ..options }
    } else {
        match u32_literal(arg) {
            Ok(n) => BenchOptions { samples: n as usize, ..options },
            Err(_) => options,
        }
    }
}

/// The options that the arguments `args` come to, read in order from a
/// hundred samples and no keeping.
pub open spec fn options_of(args: Seq<Seq<char>>) -> BenchOptions
    decreases args.len(),
{
    if args.len() == 0 {
        BenchOptions { samples: 100, keep_results: false }
    } else {
        with_argument(options_of(args.drop_last()), args.last())
    }
}

/// Reads the options of the benchmark; see [`options_of`].
pub fn bench_options(args: &Vec<String>) -> (r: BenchOptions)
    ensures
        r == options_of(views(args@)),
{
    let ghost all = views(args@);
    let mut options = BenchOptions { samples: 100, keep_results: false };
    let mut i: usize = 0;
    proof {
        assert(all.take(0) =~= Seq::<Seq<char>>::empty());
    }
    while i < args.len()
        invariant
            i <= args.len(),
            all == views(args@),
            options == options_of(all.take(i as int)),
        decreases args.len() - i,
    {
        proof {
            let next = all.take(i as int + 1);
            assert(next.drop_last() =~= all.take(i as int));
            assert(next.last() == args@[i as int]@);
        }
        let arg = args[i].as_str();
        if arg.eq("--keep") || arg.eq("-k") {
            options.keep_results = true;
        } else {
            match parse_u32(arg) {
                Ok(n) => {
                    options.samples = n as usize;
                },
                Err(_) => {},
            }
        }
        i = i + 1;
    }
    proof {
        assert(all.take(args@.len() as int) =~= all);
    }
    options
}

/// The line of shell that times the sourcing of a file and prints the time
/// in nanoseconds.
pub open spec fn timing_script_text(shell: Shell, file: Seq<char>) -> Seq<char> {
    match shell {
        Shell::Bash | Shell::Zsh => "start=$(date +%s%N); [ -f \""@ + file + "\" ] && source \""@
            + file + "\"; end=$(date +%s%N); echo $((end - start))"@,
        Shell::Fish => "set start (date +%s%N); [ -f \""@ + file + "\" ] && source \""@ + file
            + "\"; set end (date +%s%N); echo (math $end - $start)"@,
        Shell::PowerShell => "$sw = [System.Diagnostics.Stopwatch]::StartNew(); if (Test-Path '"@
            + file + "') { . '"@ + file
            + "' }; $sw.Stop(); Write-Output $sw.Elapsed.TotalNanoseconds"@,
    }
}

/// Writes the line of shell that times the sourcing of a file; see
/// [`timing_script_text`].
pub fn timing_script(shell: Shell, file: &str) -> (r: String)
    ensures
        r@ == timing_script_text(shell, file@),
{
    match shell {
        Shell::Bash | Shell::Zsh => {
            let mut r = owned("start=$(date +%s%N); [ -f \"");
            r.push_str(file);
            r.push_str("\" ] && source \"");
            r.push_str(file);
            r.push_str("\"; end=$(date +%s%N); echo $((end - start))");
            r
        },
        Shell::Fish => {
            let mut r = owned("set start (date +%s%N); [ -f \"");
            r.push_str(file);
            r.push_str("\" ] && source \"");
            r.push_str(file);
            r.push_str("\"; set end (date +%s%N); echo (math $end - $start)");
            r
        },
        Shell::PowerShell => {
            let mut r = owned("$sw = [System.Diagnostics.Stopwatch]::StartNew(); if (Test-Path '");
            r.push_str(file);
            r.push_str("') { . '");
            r.push_str(file);
            r.push_str("' }; $sw.Stop(); Write-Output $sw.Elapsed.TotalNanoseconds");
            r
        },
    }
}

} // verus!
