use shell_ai::bench::{
    bench_options, quartile_positions, scenario_file, timing_script, BenchOptions, Quartiles, Shell,
};

fn args(words: &[&str]) -> Vec<String> {
    words.iter().map(|w| w.to_string()).collect()
}

#[test]
fn shells_are_named_for_files_and_reports() {
    assert_eq!(
        Shell::all(),
        vec![Shell::Bash, Shell::Zsh, Shell::Fish, Shell::PowerShell]
    );
    assert_eq!(Shell::PowerShell.name(), "powershell");
    assert_eq!(Shell::PowerShell.display_name(), "PowerShell");
    assert_eq!(Shell::PowerShell.command(), "pwsh");
    assert_eq!(Shell::PowerShell.extension(), "ps1");
    assert_eq!(Shell::Zsh.name(), "zsh");
    assert_eq!(Shell::Zsh.display_name(), "Zsh");
    assert_eq!(Shell::Fish.command(), "fish");
    assert_eq!(Shell::Bash.extension(), "bash");
}

#[test]
fn scenario_files_are_named_by_shell_and_preset() {
    assert_eq!(scenario_file(Shell::Bash, "blank"), "blank.bash");
    assert_eq!(scenario_file(Shell::PowerShell, "blank"), "blank.ps1");
    assert_eq!(scenario_file(Shell::Fish, "minimal"), "fish_minimal.fish");
    assert_eq!(
        scenario_file(Shell::PowerShell, "full"),
        "powershell_full.ps1"
    );
}

#[test]
fn quartiles_round_down() {
    assert_eq!(
        quartile_positions(100),
        Quartiles {
            q1: 25,
            median: 50,
            q3: 75
        }
    );
    assert_eq!(
        quartile_positions(7),
        Quartiles {
            q1: 1,
            median: 3,
            q3: 5
        }
    );
    assert_eq!(
        quartile_positions(1),
        Quartiles {
            q1: 0,
            median: 0,
            q3: 0
        }
    );
    assert_eq!(
        quartile_positions(usize::MAX),
        Quartiles {
            q1: usize::MAX / 4,
            median: usize::MAX / 2,
            q3: usize::MAX / 4 * 3 + 2
        }
    );
}

#[test]
fn bench_options_default_to_a_hundred_samples() {
    assert_eq!(
        bench_options(&args(&[])),
        BenchOptions {
            samples: 100,
            keep_results: false
        }
    );
}

#[test]
fn bench_options_read_flags_and_counts_in_order() {
    assert_eq!(
        bench_options(&args(&["--keep", "20"])),
        BenchOptions {
            samples: 20,
            keep_results: true
        }
    );
    assert_eq!(
        bench_options(&args(&["5", "-k", "7", "seven", "-3"])),
        BenchOptions {
            samples: 7,
            keep_results: true
        }
    );
    assert_eq!(
        bench_options(&args(&["+12"])),
        BenchOptions {
            samples: 12,
            keep_results: false
        }
    );
}

#[test]
fn timing_scripts_source_the_file_and_print_the_time() {
    assert_eq!(
        timing_script(Shell::Bash, "/tmp/a.bash"),
        "start=$(date +%s%N); [ -f \"/tmp/a.bash\" ] && source \"/tmp/a.bash\"; end=$(date +%s%N); echo $((end - start))"
    );
    assert_eq!(
        timing_script(Shell::Zsh, "x"),
        timing_script(Shell::Bash, "x")
    );
    assert_eq!(
        timing_script(Shell::Fish, "/tmp/a.fish"),
        "set start (date +%s%N); [ -f \"/tmp/a.fish\" ] && source \"/tmp/a.fish\"; set end (date +%s%N); echo (math $end - $start)"
    );
    assert_eq!(
        timing_script(Shell::PowerShell, "a.ps1"),
        "$sw = [System.Diagnostics.Stopwatch]::StartNew(); if (Test-Path 'a.ps1') { . 'a.ps1' }; $sw.Stop(); Write-Output $sw.Elapsed.TotalNanoseconds"
    );
}
