use toolboxer::cli::PortownArgs;
use toolboxer::portown::parse_connections;
use toolboxer::portown::Protocol;
use toolboxer::render::protocol_color;
use toolboxer::render::protocol_label;
use toolboxer::render::render_connection_row;
use toolboxer::render::render_header;
use toolboxer::render::render_rows;
use toolboxer::render::render_separator;
use toolboxer::render::state_color;
use toolboxer::render::PaletteColor;
use toolboxer::resolve::ProcessIdentity;
use toolboxer::resolve::Resolver;

#[test]
fn recognized_states_have_their_fixed_colors() {
    assert_eq!(state_color("LISTENING"), PaletteColor::Yellow);
    assert_eq!(state_color("ESTABLISHED"), PaletteColor::Green);
    assert_eq!(state_color("CLOSE_WAIT"), PaletteColor::Red);
    assert_eq!(state_color("TIME_WAIT"), PaletteColor::Magenta);
}

#[test]
fn unrecognized_states_fall_back_to_the_default_color() {
    assert_eq!(state_color("SYN_SENT"), PaletteColor::White);
    assert_eq!(state_color("-"), PaletteColor::White);
    assert_eq!(state_color(""), PaletteColor::White);
    assert_eq!(state_color("listening"), PaletteColor::White);
    assert_eq!(state_color("completely made up"), PaletteColor::White);
}

#[test]
fn protocols_have_their_fixed_colors_and_labels() {
    assert_eq!(protocol_color(&Protocol::Tcp), PaletteColor::Green);
    assert_eq!(protocol_color(&Protocol::Udp), PaletteColor::Yellow);
    assert_eq!(protocol_label(&Protocol::Tcp), "TCP");
    assert_eq!(protocol_label(&Protocol::Udp), "UDP");
}

#[test]
fn header_line_carries_every_column_title() {
    let header = render_header();
    assert!(header.starts_with('\n'));
    assert!(header.ends_with('\n'));
    for title in ["PROTOCOL", "LOCAL ADDRESS", "FOREIGN ADDRESS", "STATE", "PID", "PROCESS", "PATH"] {
        assert!(header.contains(title), "missing column title {title}");
    }
}

#[test]
fn header_columns_are_left_justified_to_their_widths() {
    let header = render_header();
    let expected = format!(
        "\n{:<10} {:<25} {:<25} {:<15} {:<8} {:<20} {}\n",
        "PROTOCOL", "LOCAL ADDRESS", "FOREIGN ADDRESS", "STATE", "PID", "PROCESS", "PATH"
    );
    assert_eq!(header, expected);
}

#[test]
fn separator_is_a_full_width_rule() {
    let sep = render_separator();
    assert_eq!(sep.chars().count(), 121);
    assert!(sep.chars().take(120).all(|c| c == '─'));
    assert!(sep.ends_with('\n'));
}

fn sample_record() -> toolboxer::portown::ConnectionRecord {
    parse_line_sample("  TCP    0.0.0.0:135           0.0.0.0:0              LISTENING       672")
}

fn parse_line_sample(line: &str) -> toolboxer::portown::ConnectionRecord {
    toolboxer::portown::parse_line(line).expect("sample line parses")
}

#[test]
fn row_spans_carry_padded_texts_and_colors() {
    let rec = sample_record();
    let id = ProcessIdentity {
        name: "svchost.exe".to_string(),
        path: "C:\\Windows\\system32\\svchost.exe".to_string(),
    };
    let spans = render_connection_row(&rec, &id, 0);
    assert_eq!(spans.len(), 7);
    assert_eq!(spans[0].text, format!("{:<10} ", "TCP"));
    assert_eq!(spans[0].color, PaletteColor::Green);
    assert!(spans[0].bold);
    assert_eq!(spans[1].text, format!("{:<25} ", "0.0.0.0:135"));
    assert_eq!(spans[1].color, PaletteColor::Cyan);
    assert_eq!(spans[2].text, format!("{:<25} ", "0.0.0.0:0"));
    assert_eq!(spans[2].color, PaletteColor::Blue);
    assert_eq!(spans[3].text, format!("{:<15} ", "LISTENING"));
    assert_eq!(spans[3].color, PaletteColor::Yellow);
    assert_eq!(spans[4].text, format!("{:<8} ", "672"));
    assert_eq!(spans[4].color, PaletteColor::White);
    assert_eq!(spans[5].text, format!("{:<20} ", "svchost.exe"));
    assert_eq!(spans[5].color, PaletteColor::Yellow);
    assert_eq!(spans[6].text, "C:\\Windows\\system32\\svchost.exe\n");
    assert_eq!(spans[6].color, PaletteColor::White);
    assert!(spans.iter().all(|s| !s.shaded));
}

#[test]
fn long_values_are_kept_whole_not_truncated() {
    let rec = parse_line_sample(
        "  TCP    [fe80::1234:5678:9abc:def0%12]:49731    [2603:1020:201:10::10f]:443    ESTABLISHED    31337",
    );
    let id = ProcessIdentity { name: "a-very-long-process-name.exe".to_string(), path: "p".to_string() };
    let spans = render_connection_row(&rec, &id, 0);
    assert_eq!(spans[1].text, "[fe80::1234:5678:9abc:def0%12]:49731 ");
    assert_eq!(spans[5].text, "a-very-long-process-name.exe ");
}

#[test]
fn alternate_rows_carry_the_tint() {
    let rec = sample_record();
    let id = ProcessIdentity { name: "n".to_string(), path: "p".to_string() };
    assert!(render_connection_row(&rec, &id, 0).iter().all(|s| !s.shaded));
    assert!(render_connection_row(&rec, &id, 1).iter().all(|s| s.shaded));
    assert!(render_connection_row(&rec, &id, 2).iter().all(|s| !s.shaded));
    assert!(render_connection_row(&rec, &id, 3).iter().all(|s| s.shaded));
}

#[test]
fn rows_join_each_record_with_its_resolved_identity() {
    let args = PortownArgs {
        listen: false,
        tcp_only: false,
        udp_only: false,
        depth: None,
        established_only: false,
    };
    let text = "  TCP  0.0.0.0:135  0.0.0.0:0  LISTENING  672\n  UDP  0.0.0.0:500  *:*  1288\n";
    let records = parse_connections(&args, text);
    assert_eq!(records.len(), 2);
    let mut resolver = Resolver::new();
    resolver.store(
        "672",
        Some(ProcessIdentity { name: "svchost.exe".to_string(), path: "C:\\svchost.exe".to_string() }),
    );
    let rows = render_rows(&records, &resolver);
    assert_eq!(rows.len(), 2);
    assert_eq!(rows[0][5].text, format!("{:<20} ", "svchost.exe"));
    assert_eq!(rows[1][5].text, format!("{:<20} ", "Unknown"));
    assert_eq!(rows[1][6].text, "Unknown\n");
    assert!(rows[1].iter().all(|s| s.shaded));
}
