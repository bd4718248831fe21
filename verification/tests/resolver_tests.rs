use toolboxer::resolve::identity_from_image_path;
use toolboxer::resolve::parse_identity_table;
use toolboxer::resolve::ProcessIdentity;
use toolboxer::resolve::Resolver;

#[test]
fn uncached_pid_needs_a_lookup() {
    let resolver = Resolver::new();
    assert!(resolver.needs_lookup("672"));
}

#[test]
fn stored_pid_needs_no_second_lookup() {
    let mut resolver = Resolver::new();
    assert!(resolver.needs_lookup("672"));
    resolver.store(
        "672",
        Some(ProcessIdentity {
            name: "svchost.exe".to_string(),
            path: "C:\\Windows\\system32\\svchost.exe".to_string(),
        }),
    );
    assert!(!resolver.needs_lookup("672"));
}

#[test]
fn both_resolutions_of_one_pid_are_identical() {
    let mut resolver = Resolver::new();
    resolver.store(
        "672",
        Some(ProcessIdentity {
            name: "svchost.exe".to_string(),
            path: "C:\\Windows\\system32\\svchost.exe".to_string(),
        }),
    );
    let first = resolver.identity_for("672");
    let second = resolver.identity_for("672");
    assert_eq!(first.name, second.name);
    assert_eq!(first.path, second.path);
    assert_eq!(first.name, "svchost.exe");
    assert_eq!(first.path, "C:\\Windows\\system32\\svchost.exe");
}

#[test]
fn a_second_store_does_not_overwrite_the_first() {
    let mut resolver = Resolver::new();
    resolver.store(
        "672",
        Some(ProcessIdentity { name: "first.exe".to_string(), path: "C:\\first.exe".to_string() }),
    );
    resolver.store(
        "672",
        Some(ProcessIdentity { name: "second.exe".to_string(), path: "C:\\second.exe".to_string() }),
    );
    let id = resolver.identity_for("672");
    assert_eq!(id.name, "first.exe");
    assert_eq!(id.path, "C:\\first.exe");
}

#[test]
fn failed_lookup_degrades_to_unknown() {
    let mut resolver = Resolver::new();
    resolver.store("9999", None);
    let id = resolver.identity_for("9999");
    assert_eq!(id.name, "Unknown");
    assert_eq!(id.path, "Unknown");
    assert!(!resolver.needs_lookup("9999"));
}

#[test]
fn pid_with_nothing_recorded_resolves_to_unknown() {
    let resolver = Resolver::new();
    let id = resolver.identity_for("31337");
    assert_eq!(id.name, "Unknown");
    assert_eq!(id.path, "Unknown");
}

#[test]
fn unknown_placeholder_value() {
    let id = ProcessIdentity::unknown();
    assert_eq!(id.name, "Unknown");
    assert_eq!(id.path, "Unknown");
}

#[test]
fn identity_table_reads_columns_by_header_name() {
    let output = "Name              ExecutablePath\nsvchost.exe       C:\\Windows\\system32\\svchost.exe\n";
    let id = parse_identity_table(output).expect("both columns are present");
    assert_eq!(id.name, "svchost.exe");
    assert_eq!(id.path, "C:\\Windows\\system32\\svchost.exe");
}

#[test]
fn identity_table_headers_match_case_insensitively() {
    let output = "NAME EXECUTABLEPATH\nnotepad.exe C:\\Windows\\notepad.exe\n";
    let id = parse_identity_table(output).expect("header case must not matter");
    assert_eq!(id.name, "notepad.exe");
    assert_eq!(id.path, "C:\\Windows\\notepad.exe");
}

#[test]
fn identity_table_column_order_does_not_matter() {
    let output = "ExecutablePath Name\nC:\\Windows\\notepad.exe notepad.exe\n";
    let id = parse_identity_table(output).expect("columns are found by name");
    assert_eq!(id.name, "notepad.exe");
    assert_eq!(id.path, "C:\\Windows\\notepad.exe");
}

#[test]
fn identity_table_without_needed_columns_yields_nothing() {
    assert!(parse_identity_table("Caption CommandLine\nfoo bar\n").is_none());
    assert!(parse_identity_table("Name\nsvchost.exe\n").is_none());
}

#[test]
fn identity_table_without_a_data_row_yields_nothing() {
    assert!(parse_identity_table("Name ExecutablePath\n").is_none());
    assert!(parse_identity_table("").is_none());
}

#[test]
fn identity_table_with_short_data_row_yields_nothing() {
    assert!(parse_identity_table("Name ExecutablePath\nsvchost.exe\n").is_none());
}

#[test]
fn image_path_identity_takes_the_final_component() {
    let id = identity_from_image_path("C:\\Windows\\system32\\svchost.exe");
    assert_eq!(id.name, "svchost.exe");
    assert_eq!(id.path, "C:\\Windows\\system32\\svchost.exe");
}

#[test]
fn image_path_identity_without_separators_is_the_whole_path() {
    let id = identity_from_image_path("svchost.exe");
    assert_eq!(id.name, "svchost.exe");
    assert_eq!(id.path, "svchost.exe");
}
