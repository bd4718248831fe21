use toolboxer::text::base_name;
use toolboxer::text::eq_ignore_ascii_case_exec;
use toolboxer::text::has_suffix;
use toolboxer::text::pad_right;
use toolboxer::text::str_contains;
use toolboxer::text::str_eq;
use toolboxer::text::tokenize;
use toolboxer::text::u64_to_string;
use toolboxer::utils::classify_name;
use toolboxer::utils::colorize_name;
use toolboxer::utils::format_time;
use toolboxer::utils::hidden_by_name;
use toolboxer::utils::log_command_metrics;
use toolboxer::utils::mode_permissions;
use toolboxer::utils::readonly_permissions;
use toolboxer::utils::NameStyle;

#[test]
fn format_time_prints_the_seconds_in_decimal() {
    assert_eq!(format_time(Some(0)), "0");
    assert_eq!(format_time(Some(7)), "7");
    assert_eq!(format_time(Some(1234567890)), "1234567890");
    assert_eq!(format_time(Some(u64::MAX)), "18446744073709551615");
}

#[test]
fn format_time_degrades_to_unknown() {
    assert_eq!(format_time(None), "Unknown");
}

#[test]
fn metrics_hook_is_a_no_op() {
    log_command_metrics("portown", 12, "success", None);
    log_command_metrics("tree", 0, "failure", Some(100));
}

#[test]
fn mode_permissions_reads_the_unix_bits() {
    assert_eq!(mode_permissions(0o754), "rwxr-xr--");
    assert_eq!(mode_permissions(0o644), "rw-r--r--");
    assert_eq!(mode_permissions(0o000), "---------");
    assert_eq!(mode_permissions(0o777), "rwxrwxrwx");
}

#[test]
fn readonly_permissions_reads_the_flag() {
    assert_eq!(readonly_permissions(false), "rw-------");
    assert_eq!(readonly_permissions(true), "---------");
}

#[test]
fn dot_names_count_as_hidden() {
    assert!(hidden_by_name(".git"));
    assert!(hidden_by_name("."));
    assert!(!hidden_by_name("src"));
    assert!(!hidden_by_name(""));
    assert!(!hidden_by_name("a.hidden"));
}

#[test]
fn names_classify_by_kind_and_suffix() {
    assert_eq!(classify_name("src", true), NameStyle::Directory);
    assert_eq!(classify_name("tool.exe", false), NameStyle::Executable);
    assert_eq!(classify_name("run.bat", false), NameStyle::Executable);
    assert_eq!(classify_name("run.cmd", false), NameStyle::Executable);
    assert_eq!(classify_name("main.rs", false), NameStyle::Source);
    assert_eq!(classify_name("Cargo.toml", false), NameStyle::Source);
    assert_eq!(classify_name("README.md", false), NameStyle::Plain);
    assert_eq!(classify_name("exe", false), NameStyle::Plain);
}

#[test]
fn plain_names_are_returned_unchanged() {
    assert_eq!(colorize_name("README.md", false), "README.md");
    assert_eq!(colorize_name("notes.txt", false), "notes.txt");
}

#[test]
fn styled_names_keep_their_text() {
    colored::control::set_override(true);
    let styled = colorize_name("main.rs", false);
    assert!(styled.contains("main.rs"));
    let dir = colorize_name("src", true);
    assert!(dir.contains("src"));
    colored::control::unset_override();
}

#[test]
fn unstyled_environment_passes_names_through() {
    colored::control::set_override(false);
    assert_eq!(colorize_name("main.rs", false), "main.rs");
    assert_eq!(colorize_name("src", true), "src");
    colored::control::unset_override();
}

#[test]
fn decimal_formatting_is_exact() {
    assert_eq!(u64_to_string(0), "0");
    assert_eq!(u64_to_string(9), "9");
    assert_eq!(u64_to_string(10), "10");
    assert_eq!(u64_to_string(105), "105");
    assert_eq!(u64_to_string(90210), "90210");
}

#[test]
fn padding_left_justifies_and_keeps_long_text() {
    assert_eq!(pad_right("abc", 6), "abc   ");
    assert_eq!(pad_right("abc", 3), "abc");
    assert_eq!(pad_right("abcdef", 3), "abcdef");
    assert_eq!(pad_right("", 2), "  ");
}

#[test]
fn substring_search_finds_needles() {
    assert!(str_contains("  TCP  1.2.3.4", "TCP"));
    assert!(!str_contains("  UDP  1.2.3.4", "TCP"));
    assert!(str_contains("anything", ""));
    assert!(!str_contains("ab", "abc"));
}

#[test]
fn string_equality_is_exact() {
    assert!(str_eq("LISTENING", "LISTENING"));
    assert!(!str_eq("LISTENING", "LISTENIN"));
    assert!(!str_eq("LISTENING", "listening"));
}

#[test]
fn case_insensitive_comparison_folds_ascii_only() {
    assert!(eq_ignore_ascii_case_exec("Name", "name"));
    assert!(eq_ignore_ascii_case_exec("EXECUTABLEPATH", "executablepath"));
    assert!(!eq_ignore_ascii_case_exec("Name", "names"));
}

#[test]
fn suffix_test_matches_exact_endings() {
    assert!(has_suffix("tool.exe", ".exe"));
    assert!(!has_suffix("tool.exes", ".exe"));
    assert!(!has_suffix("exe", ".exe"));
}

#[test]
fn base_name_takes_the_text_after_the_last_backslash() {
    assert_eq!(base_name("C:\\Windows\\system32\\svchost.exe"), "svchost.exe");
    assert_eq!(base_name("svchost.exe"), "svchost.exe");
    assert_eq!(base_name("C:\\trailing\\"), "");
    assert_eq!(base_name(""), "");
}

#[test]
fn tokenizing_splits_on_runs_of_whitespace() {
    let toks = tokenize("  TCP    0.0.0.0:135   0.0.0.0:0  LISTENING   672  ");
    let expected: Vec<String> = ["TCP", "0.0.0.0:135", "0.0.0.0:0", "LISTENING", "672"]
        .iter()
        .map(|s| s.to_string())
        .collect();
    assert_eq!(toks, expected);
    assert!(tokenize("   ").is_empty());
    assert!(tokenize("").is_empty());
}
