use toolboxer::tree::child_prefix;
use toolboxer::tree::size_annotation;
use toolboxer::tree::compose_entry_line;
use toolboxer::tree::entry_prefix;
use toolboxer::tree::entry_visible;

#[test]
fn hidden_entries_show_only_when_requested() {
    assert!(!entry_visible(false, true, Some(".git"), &None));
    assert!(entry_visible(true, true, Some(".git"), &None));
    assert!(entry_visible(false, false, Some("src"), &None));
}

#[test]
fn pattern_filters_by_substring_of_the_name() {
    let pattern = Some("rs".to_string());
    assert!(entry_visible(false, false, Some("main.rs"), &pattern));
    assert!(entry_visible(false, false, Some("parse.rs"), &pattern));
    assert!(!entry_visible(false, false, Some("Cargo.toml"), &pattern));
}

#[test]
fn unreadable_names_fail_a_pattern_filter() {
    let pattern = Some("rs".to_string());
    assert!(!entry_visible(false, false, None, &pattern));
    assert!(entry_visible(false, false, None, &None));
}

#[test]
fn connectors_mark_position_in_the_tree() {
    assert_eq!(entry_prefix("", 0, false), "");
    assert_eq!(entry_prefix("", 0, true), "");
    assert_eq!(entry_prefix("", 1, false), "├── ");
    assert_eq!(entry_prefix("", 1, true), "└── ");
    assert_eq!(entry_prefix("│   ", 2, false), "│   ├── ");
    assert_eq!(entry_prefix("│   ", 2, true), "│   └── ");
}

#[test]
fn child_prefixes_extend_the_indentation() {
    assert_eq!(child_prefix("", 0, false), "");
    assert_eq!(child_prefix("", 1, false), "│   ");
    assert_eq!(child_prefix("", 1, true), "    ");
    assert_eq!(child_prefix("│   ", 2, true), "│       ");
}

#[test]
fn size_annotations_appear_for_files_when_requested() {
    assert_eq!(size_annotation(true, false, 4096), Some("4 KiB".to_string()));
    assert_eq!(size_annotation(true, false, 1536), Some("1.50 KiB".to_string()));
    assert_eq!(size_annotation(true, false, 0), Some("0 B".to_string()));
    assert_eq!(size_annotation(true, true, 4096), None);
    assert_eq!(size_annotation(false, false, 4096), None);
}

#[test]
fn entry_lines_compose_in_display_order() {
    assert_eq!(compose_entry_line("├── main.rs", &None, &None, &None), "├── main.rs");
    assert_eq!(
        compose_entry_line(
            "├── main.rs",
            &Some("rw-r--r--".to_string()),
            &Some("4.2 KiB".to_string()),
            &Some("1700000000".to_string()),
        ),
        "rw-r--r-- ├── main.rs 4.2 KiB 1700000000"
    );
    assert_eq!(
        compose_entry_line("name", &None, &Some("1 KiB".to_string()), &None),
        "name 1 KiB"
    );
}
