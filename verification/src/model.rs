//! The data the overlay works on: subtitle entries, overlay bounds, settings and
//! the runtime state shown to the user.
use vstd::prelude::*;
use vstd::string::StringExecFns;

verus! {

/// One subtitle: the time stamp the server gave it, the recognised text and its translation.
#[derive(Debug, PartialEq, Eq)]
pub struct SubtitleEntry {
    pub timestamp: String,
    pub original: String,
    pub translated: String,
}

impl Clone for SubtitleEntry {
    fn clone(&self) -> (r: Self)
        ensures
            r == *self,
    {
        SubtitleEntry {
            timestamp: self.timestamp.clone(),
            original: self.original.clone(),
            translated: self.translated.clone(),
        }
    }
}

impl SubtitleEntry {
    /// A subtitle made of the three texts.
    pub fn new(timestamp: &str, original: &str, translated: &str) -> (r: Self)
        ensures
            r.timestamp@ == timestamp@,
            r.original@ == original@,
            r.translated@ == translated@,
    {
        SubtitleEntry {
            timestamp: String::from_str(timestamp),
            original: String::from_str(original),
            translated: String::from_str(translated),
        }
    }
}

/// Position and size of the overlay window, in physical pixels; no position means
/// "let the overlay choose".
#[derive(Debug, Clone, Copy, PartialEq, Eq)]
pub struct OverlayBounds {
    pub x: Option<i32>,
    pub y: Option<i32>,
    pub width: u32,
    pub height: u32,
}

/// Default overlay width.
pub const DEFAULT_OVERLAY_WIDTH: u32 = 920;

/// Default overlay height.
pub const DEFAULT_OVERLAY_HEIGHT: u32 = 260;

impl Default for OverlayBounds {
    fn default() -> (r: Self)
        ensures
            r.x is None,
            r.y is None,
            r.width == DEFAULT_OVERLAY_WIDTH,
            r.height == DEFAULT_OVERLAY_HEIGHT,
    {
        OverlayBounds { x: None, y: None, width: DEFAULT_OVERLAY_WIDTH, height: DEFAULT_OVERLAY_HEIGHT }
    }
}

/// The user's settings. The font size is a 32-bit float, carried here as its
/// IEEE-754 bit pattern (`f32::to_bits`): this library never computes with it.
#[derive(Debug)]
pub struct Settings {
    pub server_url: String,
    pub original_text_color: String,
    pub translated_text_color: String,
    pub background_color: String,
    pub background_opacity: u8,
    pub font_size_bits: u32,
    pub font_family: String,
    pub max_subtitle_count: usize,
    pub overlay_bounds: OverlayBounds,
}

impl Clone for Settings {
    fn clone(&self) -> (r: Self)
        ensures
            r == *self,
    {
        Settings {
            server_url: self.server_url.clone(),
            original_text_color: self.original_text_color.clone(),
            translated_text_color: self.translated_text_color.clone(),
            background_color: self.background_color.clone(),
            background_opacity: self.background_opacity,
            font_size_bits: self.font_size_bits,
            font_family: self.font_family.clone(),
            max_subtitle_count: self.max_subtitle_count,
            overlay_bounds: self.overlay_bounds,
        }
    }
}

/// The server address used when none is set.
pub open spec fn default_server_url_spec() -> Seq<char> {
    "http://192.168.1.100:8765"@
}

/// The server address used when none is set.
pub fn default_server_url() -> (r: String)
    ensures
        r@ == default_server_url_spec(),
{
    String::from_str("http://192.168.1.100:8765")
}

/// The font family used when none is set.
pub open spec fn default_font_family_spec() -> Seq<char> {
    "Sans"@
}

/// The font family used when none is set.
pub fn default_font_family() -> (r: String)
    ensures
        r@ == default_font_family_spec(),
{
    String::from_str("Sans")
}

/// Bit pattern of the default font size, 16.0 as an `f32`.
pub const DEFAULT_FONT_SIZE_BITS: u32 = 0x4180_0000;

/// Default opacity of the overlay background, in percent.
pub const DEFAULT_BACKGROUND_OPACITY: u8 = 70;

/// Default number of subtitles kept on screen.
pub const DEFAULT_MAX_SUBTITLE_COUNT: usize = 3;

impl Default for Settings {
    fn default() -> (r: Self)
        ensures
            r.server_url@ == default_server_url_spec(),
            r.original_text_color@ == "#81D4FA"@,
            r.translated_text_color@ == "#FFD54F"@,
            r.background_color@ == "#000000"@,
            r.background_opacity == DEFAULT_BACKGROUND_OPACITY,
            r.font_size_bits == DEFAULT_FONT_SIZE_BITS,
            r.font_family@ == default_font_family_spec(),
            r.max_subtitle_count == DEFAULT_MAX_SUBTITLE_COUNT,
            r.overlay_bounds == (OverlayBounds {
                x: None,
                y: None,
                width: DEFAULT_OVERLAY_WIDTH,
                height: DEFAULT_OVERLAY_HEIGHT,
            }),
    {
        Settings {
            server_url: default_server_url(),
            original_text_color: String::from_str("#81D4FA"),
            translated_text_color: String::from_str("#FFD54F"),
            background_color: String::from_str("#000000"),
            background_opacity: DEFAULT_BACKGROUND_OPACITY,
            font_size_bits: DEFAULT_FONT_SIZE_BITS,
            font_family: default_font_family(),
            max_subtitle_count: DEFAULT_MAX_SUBTITLE_COUNT,
            overlay_bounds: OverlayBounds::default(),
        }
    }
}

/// What the settings window shows of the running stream.
#[derive(Debug)]
pub struct RuntimeState {
    pub running: bool,
    pub connection_state: String,
    pub subtitles: Vec<SubtitleEntry>,
    pub logs: Vec<String>,
    pub last_error: Option<String>,
}

impl Default for RuntimeState {
    fn default() -> (r: Self)
        ensures
            !r.running,
            r.connection_state@ == "disconnected"@,
            r.subtitles@.len() == 0,
            r.logs@.len() == 0,
            r.last_error is None,
    {
        RuntimeState {
            running: false,
            connection_state: String::from_str("disconnected"),
            subtitles: Vec::new(),
            logs: Vec::new(),
            last_error: None,
        }
    }
}

} // verus!
