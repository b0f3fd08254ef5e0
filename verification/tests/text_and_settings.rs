use subtitle_overlay_desktop::fonts::system_font_families;
use subtitle_overlay_desktop::model::{OverlayBounds, RuntimeState, Settings, DEFAULT_FONT_SIZE_BITS};
use subtitle_overlay_desktop::settings::{
    collapse_spaces, normalize_font_family, normalize_server_url, normalize_settings,
};
use subtitle_overlay_desktop::text::{chars_of, string_of, trimmed, white_space};

#[test]
fn white_space_matches_std_for_every_char() {
    for u in 0u32..=0x10ffff {
        if let Some(c) = char::from_u32(u) {
            assert_eq!(white_space(c), c.is_whitespace(), "U+{u:04X}");
        }
    }
}

#[test]
fn trimming_matches_std() {
    for s in ["", "  ", " a ", "\u{3000}全形\u{3000}", "\t\nx y\r\n", "abc", "\u{85}z\u{a0}"] {
        let t = trimmed(&chars_of(s));
        assert_eq!(string_of(&t), s.trim());
    }
}

#[test]
fn collapsing_matches_split_whitespace_join() {
    for s in ["", "   ", "a  b", "  Noto   Sans\tCJK ", "x\u{2003}y", "one"] {
        let expected = s.split_whitespace().collect::<Vec<_>>().join(" ");
        assert_eq!(string_of(&collapse_spaces(&chars_of(s))), expected);
    }
}

#[test]
fn font_family_is_collapsed_and_cut() {
    assert_eq!(normalize_font_family("  Noto   Sans  CJK "), "Noto Sans CJK");
    assert_eq!(normalize_font_family(" \t "), "Sans");
    let long = "x".repeat(130);
    assert_eq!(normalize_font_family(&long).chars().count(), 120);
    // Normalising again changes nothing.
    let once = normalize_font_family("  Noto   Sans ");
    assert_eq!(normalize_font_family(&once), once);
}

#[test]
fn font_family_cut_after_a_space_is_not_stable() {
    let name = format!("{} tail", "w".repeat(119));
    let once = normalize_font_family(&name);
    assert!(once.ends_with(' '));
    assert_ne!(normalize_font_family(&once), once);
}

#[test]
fn server_url_cases() {
    assert_eq!(normalize_server_url("example.com///"), "http://example.com");
    assert_eq!(normalize_server_url("http://a/"), "http://a");
    assert_eq!(normalize_server_url(" / "), "http://192.168.1.100:8765");
    assert_eq!(normalize_server_url("ftp://x"), "http://ftp://x");
    let once = normalize_server_url(" https://h:1/ ");
    assert_eq!(normalize_server_url(&once), once);
    // White space before the cut slashes survives one normalisation.
    assert_eq!(normalize_server_url("a /"), "http://a ");
    assert_eq!(normalize_server_url("http://a "), "http://a");
}

#[test]
fn normalize_keeps_colours_and_font_size() {
    let mut s = Settings {
        server_url: "srv:1".to_string(),
        original_text_color: "#123456".to_string(),
        background_opacity: 40,
        max_subtitle_count: 0,
        font_size_bits: 20.5f32.to_bits(),
        overlay_bounds: OverlayBounds { x: Some(-5), y: None, width: 500, height: 300 },
        ..Settings::default()
    };
    normalize_settings(&mut s);
    assert_eq!(s.server_url, "http://srv:1");
    assert_eq!(s.original_text_color, "#123456");
    assert_eq!(s.background_opacity, 40);
    assert_eq!(s.max_subtitle_count, 1);
    assert_eq!(f32::from_bits(s.font_size_bits), 20.5);
    assert_eq!(s.overlay_bounds, OverlayBounds { x: Some(-5), y: None, width: 500, height: 300 });
}

#[test]
fn defaults() {
    let s = Settings::default();
    assert_eq!(s.server_url, "http://192.168.1.100:8765");
    assert_eq!(s.original_text_color, "#81D4FA");
    assert_eq!(s.translated_text_color, "#FFD54F");
    assert_eq!(s.background_color, "#000000");
    assert_eq!(s.background_opacity, 70);
    assert_eq!(f32::from_bits(DEFAULT_FONT_SIZE_BITS), 16.0);
    assert_eq!(s.font_family, "Sans");
    assert_eq!(s.max_subtitle_count, 3);
    assert_eq!(s.overlay_bounds, OverlayBounds { x: None, y: None, width: 920, height: 260 });
    let r = RuntimeState::default();
    assert!(!r.running);
    assert_eq!(r.connection_state, "disconnected");
    assert!(r.subtitles.is_empty() && r.logs.is_empty() && r.last_error.is_none());
}

#[test]
fn font_list_is_sorted_and_unique() {
    let installed = vec![
        "Noto  Sans".to_string(),
        "Sans".to_string(),
        "  ".to_string(),
        "Arial".to_string(),
        "Noto Sans".to_string(),
        "émoji".to_string(),
    ];
    let list = system_font_families(&installed);
    let mut expected: Vec<String> = ["Sans", "Serif", "Monospace", "Noto Sans", "Arial", "émoji"]
        .iter()
        .map(|s| s.to_string())
        .collect::<std::collections::BTreeSet<_>>()
        .into_iter()
        .collect();
    expected.dedup();
    assert_eq!(list, expected);
}

#[test]
fn normalizing_settings_twice_is_normalizing_once() {
    let mut s = Settings {
        server_url: "  example.org:9/ ".to_string(),
        font_family: "  DejaVu \t Sans  ".to_string(),
        background_opacity: 255,
        max_subtitle_count: 42,
        overlay_bounds: OverlayBounds { x: None, y: Some(7), width: 0, height: 1000 },
        ..Settings::default()
    };
    normalize_settings(&mut s);
    let once = s.clone();
    normalize_settings(&mut s);
    assert_eq!(s.server_url, once.server_url);
    assert_eq!(s.font_family, once.font_family);
    assert_eq!(s.background_opacity, once.background_opacity);
    assert_eq!(s.max_subtitle_count, once.max_subtitle_count);
    assert_eq!(s.overlay_bounds, once.overlay_bounds);
    assert_eq!(once.server_url, "http://example.org:9");
    assert_eq!(once.font_family, "DejaVu Sans");
}
