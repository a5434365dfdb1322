use wrp_native::sinks::{parse_sink_line, parse_sinks};
use wrp_native::volume::Volume;

#[test]
fn default_sink_line_with_volume() {
    let sink = parse_sink_line(" \u{2502}  *   34. Headset [vol: 0.60]").unwrap();
    assert_eq!(sink.id, 34);
    assert_eq!(sink.name, "Headset");
    assert_eq!(sink.description, "");
    assert_eq!(sink.volume, Some(Volume { mantissa: 60, scale: 2 }));
    assert!(sink.is_default);
}

#[test]
fn plain_sink_line_without_volume() {
    let sink = parse_sink_line(" \u{2502}      2. Speakers").unwrap();
    assert_eq!(sink.id, 2);
    assert_eq!(sink.name, "Speakers");
    assert_eq!(sink.volume, None);
    assert!(!sink.is_default);
}

#[test]
fn line_without_digits_is_no_sink() {
    assert!(parse_sink_line(" \u{2502} (no devices)").is_none());
}

#[test]
fn line_with_digits_but_no_dot_is_no_sink() {
    assert!(parse_sink_line(" \u{2502}      7 Speakers").is_none());
}

#[test]
fn id_too_large_is_no_sink() {
    assert!(parse_sink_line("  99999999999. Big").is_none());
}

#[test]
fn unparsable_volume_is_absent_but_line_kept() {
    let sink = parse_sink_line("   3. Dock [vol: abc]").unwrap();
    assert_eq!(sink.id, 3);
    assert_eq!(sink.name, "Dock");
    assert_eq!(sink.volume, None);
}

#[test]
fn muted_suffix_spoils_the_volume_only() {
    let sink = parse_sink_line("   4. Bay [vol: 0.74 MUTED]").unwrap();
    assert_eq!(sink.id, 4);
    assert_eq!(sink.name, "Bay");
    assert_eq!(sink.volume, None);
}

#[test]
fn volume_without_closing_bracket_still_reads() {
    let sink = parse_sink_line("   6. Open [vol: 0.5").unwrap();
    assert_eq!(sink.volume, Some(Volume { mantissa: 5, scale: 1 }));
}

#[test]
fn integer_volume_reads_with_scale_zero() {
    let sink = parse_sink_line("   5. Plain [vol: 1]").unwrap();
    assert_eq!(sink.volume, Some(Volume { mantissa: 1, scale: 0 }));
}

#[test]
fn volume_with_bare_leading_point_reads() {
    let sink = parse_sink_line("   5. Short [vol: .25]").unwrap();
    assert_eq!(sink.volume, Some(Volume { mantissa: 25, scale: 2 }));
}

#[test]
fn whole_report_in_order() {
    let report = "Audio\n \u{251c}\u{2500} Sinks:\n \u{2502}  *   34. Headset [vol: 0.60]\n \u{2502}      2. Speakers\n \u{2502}      5. Monitor [vol: 1.00]\n \u{251c}\u{2500} Sources:\n \u{2502}      7. Mic [vol: 0.80]\n";
    let sinks = parse_sinks(report);
    assert_eq!(sinks.len(), 3);
    assert_eq!(sinks[0].id, 34);
    assert_eq!(sinks[0].name, "Headset");
    assert_eq!(sinks[0].volume, Some(Volume { mantissa: 60, scale: 2 }));
    assert!(sinks[0].is_default);
    assert_eq!(sinks[1].id, 2);
    assert_eq!(sinks[1].name, "Speakers");
    assert_eq!(sinks[1].volume, None);
    assert!(!sinks[1].is_default);
    assert_eq!(sinks[2].id, 5);
    assert_eq!(sinks[2].name, "Monitor");
    assert_eq!(sinks[2].volume, Some(Volume { mantissa: 100, scale: 2 }));
    assert!(!sinks[2].is_default);
}

#[test]
fn malformed_lines_do_not_abort_the_scan() {
    let report = "Sinks:\ngarbage line\n 12 monitors attached\n   8. Kept\nStreams:\n   9. Gone\n";
    let sinks = parse_sinks(report);
    assert_eq!(sinks.len(), 1);
    assert_eq!(sinks[0].id, 8);
    assert_eq!(sinks[0].name, "Kept");
}

#[test]
fn nothing_before_the_sink_section_counts() {
    let report = "   1. Early\nSinks:\n   2. Counted\n";
    let sinks = parse_sinks(report);
    assert_eq!(sinks.len(), 1);
    assert_eq!(sinks[0].id, 2);
}

#[test]
fn report_without_sink_section_yields_nothing() {
    let sinks = parse_sinks("Sources:\n   7. Mic\n");
    assert!(sinks.is_empty());
}

#[test]
fn crlf_report_lines_are_handled() {
    let sinks = parse_sinks("Sinks:\r\n   3. CrLf\r\nSources:\r\n");
    assert_eq!(sinks.len(), 1);
    assert_eq!(sinks[0].id, 3);
    assert_eq!(sinks[0].name, "CrLf");
}
