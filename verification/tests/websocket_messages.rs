use webxr_graph::websocket_messages::format_color;

#[test]
fn test_color_formatting() {
    assert_eq!(format_color("0xFF0000"), "#FF0000");
    assert_eq!(format_color("\"0xFF0000\""), "#FF0000");
    assert_eq!(format_color("#FF0000"), "#FF0000");
    assert_eq!(format_color("\"#FF0000\""), "#FF0000");
}

#[test]
fn format_color_is_idempotent() {
    for c in ["0x1A0B31", "\"#abc\"", "0x#0xAB", "\"0x", "##12", "", "FFD700"] {
        let once = format_color(c);
        assert!(once.starts_with('#'));
        assert_eq!(format_color(&once), once);
    }
}

#[test]
fn format_color_edge_cases() {
    assert_eq!(format_color(""), "#");
    assert_eq!(format_color("0x0xFF"), "#FF");
    assert_eq!(format_color("##00FF00"), "#00FF00");
    assert_eq!(format_color("0x#0xAB"), "#0xAB");
}
