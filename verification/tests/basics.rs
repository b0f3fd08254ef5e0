use subtitle_overlay_desktop::events::parse_subtitle;
use subtitle_overlay_desktop::model::{
    default_font_family, default_server_url, OverlayBounds, Settings, SubtitleEntry,
};
use subtitle_overlay_desktop::settings::{normalize_server_url, normalize_settings};
use subtitle_overlay_desktop::subtitles::try_update_existing;

fn entry(timestamp: &str, original: &str, translated: &str) -> SubtitleEntry {
    SubtitleEntry {
        timestamp: timestamp.to_string(),
        original: original.to_string(),
        translated: translated.to_string(),
    }
}

#[test]
fn normalizes_server_url() {
    assert_eq!(
        normalize_server_url(" 192.168.1.100:8765/ "),
        "http://192.168.1.100:8765"
    );
    assert_eq!(
        normalize_server_url("https://example.com:8765/"),
        "https://example.com:8765"
    );
    assert_eq!(normalize_server_url(""), default_server_url());
}

#[test]
fn clamps_settings_to_supported_ranges() {
    let mut settings = Settings {
        background_opacity: 180,
        font_size_bits: 4.0f32.to_bits(),
        font_family: "   ".to_string(),
        max_subtitle_count: 99,
        overlay_bounds: OverlayBounds {
            x: Some(1),
            y: Some(2),
            width: 100,
            height: 20,
        },
        ..Settings::default()
    };

    normalize_settings(&mut settings);
    // The library passes the font size through untouched: the float clamp to
    // 10..=32 points is done by the program around it.
    assert_eq!(settings.font_size_bits, 4.0f32.to_bits());
    let font_size = f32::from_bits(settings.font_size_bits).clamp(10.0, 32.0);

    assert_eq!(settings.background_opacity, 100);
    assert_eq!(font_size, 10.0);
    assert_eq!(settings.font_family, default_font_family());
    assert_eq!(settings.max_subtitle_count, 10);
    assert_eq!(settings.overlay_bounds.width, 280);
    assert_eq!(settings.overlay_bounds.height, 88);
}

#[test]
fn updates_subtitle_by_timestamp() {
    let mut entries = vec![entry("01", "hello", "old")];
    let updated = entry("01", "hello", "new");

    assert!(try_update_existing(&mut entries, &updated));
    assert_eq!(entries[0].translated, "new");
}

#[test]
fn updates_last_subtitle_by_original() {
    let mut entries = vec![entry("", "same", "old")];
    let updated = entry("", "same", "new");

    assert!(try_update_existing(&mut entries, &updated));
    assert_eq!(entries[0].translated, "new");
}

#[test]
fn parses_subtitle_event_payload() {
    let entry =
        parse_subtitle(r#"{"timestamp":"12:00","original":"こんにちは","translated":"你好"}"#)
            .expect("subtitle payload should parse");

    assert_eq!(entry.timestamp, "12:00");
    assert_eq!(entry.original, "こんにちは");
    assert_eq!(entry.translated, "你好");
}
