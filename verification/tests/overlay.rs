use subtitle_overlay_desktop::model::{OverlayBounds, SubtitleEntry};
use subtitle_overlay_desktop::overlay::{
    BoundsDebounce,
    configure_linux_webkit, hex_color_cut_splits_char_check, initial_position, normalized_bounds,
    parse_hex_rgb, should_use_native_overlay, subtitle_rows, OverlayRow,
};

#[test]
fn bounds_are_raised_to_minimum() {
    let b = normalized_bounds(&OverlayBounds { x: Some(3), y: None, width: 10, height: 500 });
    assert_eq!(b, OverlayBounds { x: Some(3), y: None, width: 280, height: 500 });
    assert_eq!(normalized_bounds(&b), b);
}

#[test]
fn initial_position_centres_above_bottom() {
    assert_eq!(initial_position(0, 0, 1920, 1080, 920, 260), (500, 748));
    assert_eq!(initial_position(10, 20, 100, 100, 920, 260), (10, 20));
}

#[test]
fn rows_have_dividers_between_subtitles() {
    let subs = vec![
        SubtitleEntry::new("1", "a", "b"),
        SubtitleEntry::new("2", "", "c"),
        SubtitleEntry::new("3", "d", ""),
    ];
    let rows = subtitle_rows(&subs);
    assert_eq!(
        rows,
        vec![
            OverlayRow::Original("a".to_string()),
            OverlayRow::Translated("b".to_string()),
            OverlayRow::Divider,
            OverlayRow::Translated("c".to_string()),
            OverlayRow::Divider,
            OverlayRow::Original("d".to_string()),
        ]
    );
    assert!(subtitle_rows(&Vec::new()).is_empty());
}

#[test]
fn hex_colours() {
    assert_eq!(parse_hex_rgb("#81D4FA"), Some((0x81, 0xd4, 0xfa)));
    assert_eq!(parse_hex_rgb("  ffd54f "), Some((0xff, 0xd5, 0x4f)));
    assert_eq!(parse_hex_rgb("+f+f+f"), Some((15, 15, 15)));
    assert_eq!(parse_hex_rgb("#12345"), None);
    assert_eq!(parse_hex_rgb("#12345g"), None);
    assert_eq!(parse_hex_rgb("##123456"), None);
    assert_eq!(parse_hex_rgb("-1-1-1"), None);
    assert_eq!(parse_hex_rgb("abécd"), None);
    assert!(!hex_color_cut_splits_char_check("abécd"));
    assert!(hex_color_cut_splits_char_check("aébcd"));
    assert!(!hex_color_cut_splits_char_check("#81D4FA"));
}

#[test]
fn native_overlay_choice() {
    assert!(should_use_native_overlay("X11", false, true));
    assert!(should_use_native_overlay("", true, false));
    assert!(!should_use_native_overlay("", true, true));
    assert!(!should_use_native_overlay("wayland", true, false));
    assert!(!should_use_native_overlay("x111", true, false));
    assert_eq!(
        configure_linux_webkit(false),
        Some(("WEBKIT_DISABLE_COMPOSITING_MODE".to_string(), "1".to_string()))
    );
    assert_eq!(configure_linux_webkit(true), None);
}

#[test]
fn bounds_debounce_keeps_the_last_report() {
    let mut d = BoundsDebounce::new();
    assert_eq!(d.timer_fired(), None);
    assert!(d.configure(false, 1, 2, 300, 100));
    assert!(!d.configure(true, 9, 9, 9, 9));
    assert!(d.configure(false, 5, 6, 400, 120));
    assert_eq!(d.timer_fired(), Some(OverlayBounds { x: Some(5), y: Some(6), width: 400, height: 120 }));
    assert_eq!(d.timer_fired(), None);
}

#[test]
fn bounds_burst_saves_last_unapplied_report_once() {
    let mut d = BoundsDebounce::new();
    assert!(d.configure(false, 0, 0, 300, 90));
    assert!(d.configure(false, 10, 20, 310, 95));
    assert!(!d.configure(true, 99, 99, 999, 999));
    assert_eq!(d.timer_fired(), Some(OverlayBounds { x: Some(10), y: Some(20), width: 310, height: 95 }));
    assert_eq!(d.timer_fired(), None);
    assert!(!d.configure(true, 1, 1, 1, 1));
    assert_eq!(d.timer_fired(), None);
}
