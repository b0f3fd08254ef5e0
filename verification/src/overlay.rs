//! Decisions of the native overlay window: its bounds, its initial position, the
//! rows it draws, the colours it parses, and when it is used at all.
use vstd::prelude::*;
use vstd::string::StringExecFns;
use vstd::utf8::{
    encode_utf8, is_ascii_chars, is_ascii_chars_encode_utf8, is_char_boundary, pop_first_scalar,
    valid_utf8,
};
use crate::model::{OverlayBounds, SubtitleEntry};
use crate::settings::{MIN_OVERLAY_HEIGHT, MIN_OVERLAY_WIDTH};
use crate::text::{chars_of, is_white_space, string_of, sub_chars, trim, trimmed};

verus! {

/// `bounds` with the width and height raised to the overlay's minimum, 280 by 88.
pub open spec fn normalized_bounds_spec(bounds: OverlayBounds) -> OverlayBounds {
    OverlayBounds {
        width: if bounds.width < MIN_OVERLAY_WIDTH {
            MIN_OVERLAY_WIDTH
        } else {
            bounds.width
        },
        height: if bounds.height < MIN_OVERLAY_HEIGHT {
            MIN_OVERLAY_HEIGHT
        } else {
            bounds.height
        },
        ..bounds
    }
}

/// `bounds` with the width and height raised to the overlay's minimum.
pub fn normalized_bounds(bounds: &OverlayBounds) -> (r: OverlayBounds)
    ensures
        r == normalized_bounds_spec(*bounds),
{
    OverlayBounds {
        x: bounds.x,
        y: bounds.y,
        width: if bounds.width < MIN_OVERLAY_WIDTH {
            MIN_OVERLAY_WIDTH
        } else {
            bounds.width
        },
        height: if bounds.height < MIN_OVERLAY_HEIGHT {
            MIN_OVERLAY_HEIGHT
        } else {
            bounds.height
        },
    }
}

/// Normalising bounds twice is normalising them once, and keeps the position.
pub proof fn law_normalized_bounds_is_stable(bounds: OverlayBounds)
    ensures
        normalized_bounds_spec(normalized_bounds_spec(bounds)) == normalized_bounds_spec(bounds),
        normalized_bounds_spec(bounds).x == bounds.x,
        normalized_bounds_spec(bounds).y == bounds.y,
        normalized_bounds_spec(bounds).width >= MIN_OVERLAY_WIDTH,
        normalized_bounds_spec(bounds).height >= MIN_OVERLAY_HEIGHT,
{
}

/// Gap kept between the overlay and the bottom of the work area, in pixels.
pub const BOTTOM_MARGIN: i32 = 72;

/// `v` if it is positive, else 0.
pub open spec fn at_least_zero(v: int) -> int {
    if v > 0 {
        v
    } else {
        0
    }
}

/// Where an overlay without a saved position goes: centred horizontally in the
/// work area, 72 pixels above its bottom (never above its top). Sizes are taken
/// as `i32` the way `as i32` converts them.
pub open spec fn initial_position_spec(
    area_x: i32,
    area_y: i32,
    area_width: i32,
    area_height: i32,
    width: u32,
    height: u32,
) -> (int, int) {
    (
        area_x + at_least_zero(area_width - (#[verifier::truncate] (width as i32))) / 2,
        area_y + at_least_zero(area_height - (#[verifier::truncate] (height as i32)) - BOTTOM_MARGIN),
    )
}

/// Where an overlay without a saved position goes (see [`initial_position_spec`]).
/// The arithmetic must stay within `i32`.
pub fn initial_position(
    area_x: i32,
    area_y: i32,
    area_width: i32,
    area_height: i32,
    width: u32,
    height: u32,
) -> (r: (i32, i32))
    requires
        i32::MIN <= area_height - (#[verifier::truncate] (height as i32)) <= i32::MAX,
        i32::MIN <= area_width - (#[verifier::truncate] (width as i32)) <= i32::MAX,
        i32::MIN <= area_height - (#[verifier::truncate] (height as i32)) - BOTTOM_MARGIN <= i32::MAX,
        i32::MIN <= area_x + at_least_zero(area_width - (#[verifier::truncate] (width as i32))) / 2 <= i32::MAX,
        i32::MIN <= area_y + at_least_zero(area_height - (#[verifier::truncate] (height as i32)) - BOTTOM_MARGIN)
            <= i32::MAX,
    ensures
        (r.0 as int, r.1 as int) == initial_position_spec(
            area_x,
            area_y,
            area_width,
            area_height,
            width,
            height,
        ),
{
    let w = width as i32;
    let h = height as i32;
    let spare_x = area_width - w;
    let spare_y = area_height - h - BOTTOM_MARGIN;
    let free_x = if spare_x > 0 {
        spare_x
    } else {
        0
    };
    let free_y = if spare_y > 0 {
        spare_y
    } else {
        0
    };
    (area_x + free_x / 2, area_y + free_y)
}

/// One row the overlay draws.
#[derive(Debug, PartialEq, Eq)]
pub enum OverlayRow {
    /// An original text, in the original-text colour.
    Original(String),
    /// A translation, in the translation colour.
    Translated(String),
    /// A thin line between two subtitles.
    Divider,
}

/// A row as a value.
pub ghost enum RowView {
    Original(Seq<char>),
    Translated(Seq<char>),
    Divider,
}

/// Rows as values.
pub open spec fn rows_view(rows: Seq<OverlayRow>) -> Seq<RowView> {
    rows.map_values(
        |r: OverlayRow|
            match r {
                OverlayRow::Original(s) => RowView::Original(s@),
                OverlayRow::Translated(s) => RowView::Translated(s@),
                OverlayRow::Divider => RowView::Divider,
            },
    )
}

/// The rows of one subtitle: its non-empty original text, then its non-empty
/// translation.
pub open spec fn entry_rows(e: SubtitleEntry) -> Seq<RowView> {
    (if e.original@.len() > 0 {
        seq![RowView::Original(e.original@)]
    } else {
        Seq::empty()
    }) + (if e.translated@.len() > 0 {
        seq![RowView::Translated(e.translated@)]
    } else {
        Seq::empty()
    })
}

/// The rows the overlay draws for `s`: each subtitle's rows, with a divider
/// between consecutive subtitles.
pub open spec fn rows_spec(s: Seq<SubtitleEntry>) -> Seq<RowView>
    decreases s.len(),
{
    if s.len() == 0 {
        Seq::empty()
    } else {
        rows_spec(s.drop_last()) + (if s.len() > 1 {
            seq![RowView::Divider]
        } else {
            Seq::empty()
        }) + entry_rows(s.last())
    }
}

/// The rows the overlay draws for `subtitles` (see [`rows_spec`]).
pub fn subtitle_rows(subtitles: &Vec<SubtitleEntry>) -> (rows: Vec<OverlayRow>)
    ensures
        rows_view(rows@) == rows_spec(subtitles@),
{
    let mut rows: Vec<OverlayRow> = Vec::new();
    for i in 0..subtitles.len()
        invariant
            rows_view(rows@) == rows_spec(subtitles@.take(i as int)),
    {
        let ghost before = rows_view(rows@);
        let e = &subtitles[i];
        if i > 0 {
            rows.push(OverlayRow::Divider);
        }
        let ghost mid = rows_view(rows@);
        if !e.original.as_str().is_empty() {
            rows.push(OverlayRow::Original(e.original.clone()));
        }
        let ghost mid2 = rows_view(rows@);
        if !e.translated.as_str().is_empty() {
            rows.push(OverlayRow::Translated(e.translated.clone()));
        }
        proof {
            let t = subtitles@.take(i + 1);
            assert(t.drop_last() =~= subtitles@.take(i as int));
            assert(t.last() == subtitles@[i as int]);
            assert(mid =~= before + (if i > 0 {
                seq![RowView::Divider]
            } else {
                Seq::empty()
            }));
            assert(mid2 =~= mid + (if e.original@.len() > 0 {
                seq![RowView::Original(e.original@)]
            } else {
                Seq::empty()
            }));
            assert(rows_view(rows@) =~= mid2 + (if e.translated@.len() > 0 {
                seq![RowView::Translated(e.translated@)]
            } else {
                Seq::empty()
            }));
            assert(rows_view(rows@) =~= rows_spec(t));
        }
    }
    assert(subtitles@.take(subtitles@.len() as int) =~= subtitles@);
    rows
}

/// The rows of the subtitles of `s` then those of `t` are the rows of `s`, one
/// divider, then the rows of `t`; a single subtitle gives its original text, when
/// it has one, then its translation, when it has one, and no divider.
pub proof fn law_rows_concatenate(s: Seq<SubtitleEntry>, t: Seq<SubtitleEntry>, e: SubtitleEntry)
    ensures
        s.len() > 0 && t.len() > 0 ==> rows_spec(s + t) == rows_spec(s) + seq![RowView::Divider]
            + rows_spec(t),
        rows_spec(seq![e]) == entry_rows(e),
        entry_rows(e).len() == (if e.original@.len() > 0 { 1int } else { 0 }) + (if e.translated@.len() > 0 { 1int } else { 0 }),
        e.original@.len() > 0 ==> entry_rows(e)[0] == RowView::Original(e.original@),
        e.translated@.len() > 0 ==> entry_rows(e).last() == RowView::Translated(e.translated@),
    decreases t.len(),
{
    let one = seq![e];
    assert(one.drop_last() =~= Seq::<SubtitleEntry>::empty());
    assert(rows_spec(one.drop_last()) =~= Seq::<RowView>::empty());
    assert(one.last() == e);
    assert(rows_spec(one) =~= entry_rows(e));
    if s.len() > 0 && t.len() > 0 {
        let u = s + t;
        assert(u.drop_last() =~= s + t.drop_last());
        assert(u.last() == t.last());
        if t.len() == 1 {
            assert(t.drop_last() =~= Seq::<SubtitleEntry>::empty());
            assert(s + t.drop_last() =~= s);
            assert(rows_spec(u) =~= rows_spec(s) + seq![RowView::Divider] + rows_spec(t));
        } else {
            law_rows_concatenate(s, t.drop_last(), e);
            assert(rows_spec(u) =~= rows_spec(s) + seq![RowView::Divider] + rows_spec(t));
        }
    }
}

/// The value of an ASCII hexadecimal digit.
pub open spec fn hex_digit(b: u8) -> Option<u8> {
    if 0x30 <= b && b <= 0x39 {
        Some((b - 0x30) as u8)
    } else if 0x61 <= b && b <= 0x66 {
        Some((b - 0x61 + 10) as u8)
    } else if 0x41 <= b && b <= 0x46 {
        Some((b - 0x41 + 10) as u8)
    } else {
        None
    }
}

/// What `u8::from_str_radix(_, 16)` makes of the two bytes `b0 b1`: two hex digits,
/// or a `+` sign and one digit.
pub open spec fn hex_pair(b0: u8, b1: u8) -> Option<u8> {
    if b0 == 0x2b {
        hex_digit(b1)
    } else {
        match (hex_digit(b0), hex_digit(b1)) {
            (Some(h), Some(l)) => Some((h * 16 + l) as u8),
            _ => None,
        }
    }
}

/// The colour text without surrounding white space and without one leading `#`.
pub open spec fn hex_body(value: Seq<char>) -> Seq<char> {
    let t = trim(value);
    if t.len() > 0 && t[0] == '#' {
        t.drop_first()
    } else {
        t
    }
}

/// The colour text is six bytes long but cutting it into byte pairs splits a
/// character, where slicing the string panics.
pub open spec fn hex_color_cut_splits_char(value: Seq<char>) -> bool {
    let b = encode_utf8(hex_body(value));
    b.len() == 6 && (!is_char_boundary(b, 2) || !is_char_boundary(b, 4))
}

/// The red, green and blue components of a colour written `#rrggbb` (the `#` is
/// optional, surrounding white space ignored): none unless the text is six bytes
/// whose pairs each parse as a hexadecimal byte.
pub open spec fn hex_rgb_spec(value: Seq<char>) -> Option<(u8, u8, u8)> {
    let b = encode_utf8(hex_body(value));
    if b.len() != 6 {
        None
    } else {
        match (hex_pair(b[0], b[1]), hex_pair(b[2], b[3]), hex_pair(b[4], b[5])) {
            (Some(r), Some(g), Some(bl)) => Some((r, g, bl)),
            _ => None,
        }
    }
}

fn hex_digit_value(b: u8) -> (r: Option<u8>)
    ensures
        r == hex_digit(b),
{
    if 0x30 <= b && b <= 0x39 {
        Some(b - 0x30)
    } else if 0x61 <= b && b <= 0x66 {
        Some(b - 0x61 + 10)
    } else if 0x41 <= b && b <= 0x46 {
        Some(b - 0x41 + 10)
    } else {
        None
    }
}

fn hex_pair_value(b0: u8, b1: u8) -> (r: Option<u8>)
    ensures
        r == hex_pair(b0, b1),
{
    if b0 == 0x2b {
        return hex_digit_value(b1);
    }
    match (hex_digit_value(b0), hex_digit_value(b1)) {
        (Some(h), Some(l)) => Some(h * 16 + l),
        _ => None,
    }
}

/// The colour text as a string (see [`hex_body`]).
fn hex_body_string(value: &str) -> (r: String)
    ensures
        r@ == hex_body(value@),
{
    let t = trimmed(&chars_of(value));
    if t.len() > 0 && t[0] == '#' {
        let rest = sub_chars(&t, 1, t.len());
        assert(rest@ =~= t@.drop_first());
        string_of(&rest)
    } else {
        string_of(&t)
    }
}

/// Whether cutting the colour text into byte pairs would split a character (see
/// [`hex_color_cut_splits_char`]).
pub fn hex_color_cut_splits_char_check(value: &str) -> (r: bool)
    ensures
        r == hex_color_cut_splits_char(value@),
{
    let body = hex_body_string(value);
    let s = body.as_str();
    s.as_bytes().len() == 6 && (!s.is_char_boundary(2) || !s.is_char_boundary(4))
}

/// The components of a colour written `#rrggbb` (see [`hex_rgb_spec`]).
pub fn parse_hex_rgb(value: &str) -> (r: Option<(u8, u8, u8)>)
    requires
        !hex_color_cut_splits_char(value@),
    ensures
        r == hex_rgb_spec(value@),
{
    let body = hex_body_string(value);
    let b = body.as_str().as_bytes();
    if b.len() != 6 {
        return None;
    }
    match (hex_pair_value(b[0], b[1]), hex_pair_value(b[2], b[3]), hex_pair_value(b[4], b[5])) {
        (Some(r), Some(g), Some(bl)) => Some((r, g, bl)),
        _ => None,
    }
}

/// The session type names X11, compared case-insensitively for ASCII.
pub open spec fn names_x11(session: Seq<char>) -> bool {
    session.len() == 3 && (session[0] == 'x' || session[0] == 'X') && session[1] == '1'
        && session[2] == '1'
}

/// The native overlay is used in an X11 session: when the session type says so,
/// or when no session type is set, `DISPLAY` is set and `WAYLAND_DISPLAY` is not.
pub open spec fn native_overlay_spec(session_type: Seq<char>, display: bool, wayland: bool) -> bool {
    names_x11(session_type) || (session_type.len() == 0 && display && !wayland)
}

/// Whether to draw the overlay natively, given the session type (empty when
/// unset) and whether `DISPLAY` and `WAYLAND_DISPLAY` are set.
pub fn should_use_native_overlay(session_type: &str, display: bool, wayland: bool) -> (r: bool)
    ensures
        r == native_overlay_spec(session_type@, display, wayland),
{
    let s = chars_of(session_type);
    let x11 = s.len() == 3 && (s[0] == 'x' || s[0] == 'X') && s[1] == '1' && s[2] == '1';
    x11 || (s.len() == 0 && display && !wayland)
}

/// The environment variable set for WebKitGTK when the user has not set it: its
/// name and value (compositing off, so the transparent overlay is not drawn white).
pub fn configure_linux_webkit(already_set: bool) -> (r: Option<(String, String)>)
    ensures
        already_set ==> r is None,
        !already_set ==> (r matches Some((n, v)) && n@ == "WEBKIT_DISABLE_COMPOSITING_MODE"@
            && v@ == "1"@),
{
    if already_set {
        None
    } else {
        Some((String::from_str("WEBKIT_DISABLE_COMPOSITING_MODE"), String::from_str("1")))
    }
}

/// Debounce of the bounds the overlay window reports while it is moved or resized:
/// only the last report before a quiet spell is saved.
pub struct BoundsDebounce {
    pending: Option<OverlayBounds>,
}

impl View for BoundsDebounce {
    type V = Option<OverlayBounds>;

    /// The bounds waiting to be saved.
    closed spec fn view(&self) -> Option<OverlayBounds> {
        self.pending
    }
}

/// One report from the window: whether the overlay was applying bounds itself at
/// the time, and the position and size reported.
pub type BoundsReport = (bool, OverlayBounds);

/// The bounds a window reports at position (x, y) with size (width, height).
pub open spec fn reported_bounds(x: i32, y: i32, width: u32, height: u32) -> OverlayBounds {
    OverlayBounds { x: Some(x), y: Some(y), width, height }
}

/// The waiting bounds after one report: unchanged while bounds are being
/// applied, else the reported bounds.
pub open spec fn after_report(pending: Option<OverlayBounds>, report: BoundsReport) -> Option<
    OverlayBounds,
> {
    if report.0 {
        pending
    } else {
        Some(report.1)
    }
}

/// The waiting bounds after a sequence of reports, in order.
pub open spec fn after_reports(pending: Option<OverlayBounds>, reports: Seq<BoundsReport>) -> Option<
    OverlayBounds,
>
    decreases reports.len(),
{
    if reports.len() == 0 {
        pending
    } else {
        after_report(after_reports(pending, reports.drop_last()), reports.last())
    }
}

impl BoundsDebounce {
    /// Nothing waiting.
    pub fn new() -> (d: Self)
        ensures
            d@ is None,
    {
        BoundsDebounce { pending: None }
    }

    /// The window reported its position and size. While the overlay is applying
    /// bounds itself the report is ignored; otherwise it becomes the bounds waiting
    /// to be saved, and the save timer is to be restarted (`true`).
    pub fn configure(&mut self, applying: bool, x: i32, y: i32, width: u32, height: u32) -> (restart_timer: bool)
        ensures
            restart_timer == !applying,
            final(self)@ == after_report(old(self)@, (applying, reported_bounds(x, y, width, height))),
    {
        if applying {
            return false;
        }
        self.pending = Some(OverlayBounds { x: Some(x), y: Some(y), width, height });
        true
    }

    /// The save timer fired: the bounds to save, if any, which are no longer waiting.
    pub fn timer_fired(&mut self) -> (r: Option<OverlayBounds>)
        ensures
            r == old(self)@,
            final(self)@ is None,
    {
        self.pending.take()
    }
}

/// The last report of `reports` made while no bounds were being applied, if any.
pub open spec fn last_unapplied(reports: Seq<BoundsReport>) -> Option<OverlayBounds>
    decreases reports.len(),
{
    if reports.len() == 0 {
        None
    } else if !reports.last().0 {
        Some(reports.last().1)
    } else {
        last_unapplied(reports.drop_last())
    }
}

/// A burst of reports, then a quiet spell: the bounds the timer then hands out
/// ([`BoundsDebounce::timer_fired`], which leaves nothing waiting, so the firing
/// after it gives nothing) are the last report made while no bounds were being
/// applied; reports made while bounds were applied change nothing. When no bounds
/// were applied during the burst, that is the burst's last report.
pub proof fn law_burst_saves_last_report(pending: Option<OverlayBounds>, reports: Seq<BoundsReport>)
    ensures
        after_reports(pending, reports) == match last_unapplied(reports) {
            Some(b) => Some(b),
            None => pending,
        },
        reports.len() > 0 && (forall|i: int| 0 <= i < reports.len() ==> !(#[trigger] reports[i]).0)
            ==> after_reports(pending, reports) == Some(reports.last().1),
        (forall|i: int| 0 <= i < reports.len() ==> (#[trigger] reports[i]).0) ==> after_reports(
            pending,
            reports,
        ) == pending,
    decreases reports.len(),
{
    if reports.len() > 0 {
        let d = reports.drop_last();
        law_burst_saves_last_report(pending, d);
        if forall|i: int| 0 <= i < reports.len() ==> (#[trigger] reports[i]).0 {
            assert forall|i: int| 0 <= i < d.len() implies (#[trigger] d[i]).0 by {
                assert(d[i] == reports[i]);
            }
            assert(reports[reports.len() - 1].0);
        }
        if forall|i: int| 0 <= i < reports.len() ==> !(#[trigger] reports[i]).0 {
            assert(!reports[reports.len() - 1].0);
        }
    }
}

/// The overlay first opens inside the work area: its x is the area's x plus half
/// the width left over (none when the overlay is wider), and its y is the area's y
/// plus whatever height is left over after the overlay and a 72-pixel gap.
pub proof fn law_initial_position_in_work_area(
    area_x: i32,
    area_y: i32,
    area_width: i32,
    area_height: i32,
    width: u32,
    height: u32,
)
    ensures
        ({
            let (x, y) = initial_position_spec(area_x, area_y, area_width, area_height, width, height);
            let w = (#[verifier::truncate] (width as i32)) as int;
            let h = (#[verifier::truncate] (height as i32)) as int;
            &&& x >= area_x
            &&& y >= area_y
            &&& area_width - w > 0 ==> x - area_x == (area_width - w) / 2
            &&& area_width - w <= 0 ==> x == area_x
            &&& 2 * (x - area_x) <= area_width - w || x == area_x
            &&& area_height - h - 72 > 0 ==> y - area_y == area_height - h - 72
            &&& area_height - h - 72 <= 0 ==> y == area_y
        }),
{
}

/// A session type of `x11`, in either case, always selects the native overlay,
/// whatever `DISPLAY` and `WAYLAND_DISPLAY` are, and any other non-empty session
/// type (a Wayland session among them) never does; with no session type it is used
/// exactly when `DISPLAY` is set and `WAYLAND_DISPLAY` is not.
pub proof fn law_native_overlay_choice(session_type: Seq<char>, display: bool, wayland: bool)
    ensures
        native_overlay_spec("x11"@, display, wayland),
        native_overlay_spec("X11"@, display, wayland),
        native_overlay_spec(Seq::empty(), display, wayland) == (display && !wayland),
        !native_overlay_spec("wayland"@, display, wayland),
        session_type.len() > 0 ==> (native_overlay_spec(session_type, display, wayland) <==> (
        session_type == "x11"@ || session_type == "X11"@)),
{
    reveal_strlit("x11");
    reveal_strlit("X11");
    reveal_strlit("wayland");
    if session_type.len() > 0 && names_x11(session_type) {
        if session_type[0] == 'x' {
            assert(session_type =~= "x11"@);
        } else {
            assert(session_type =~= "X11"@);
        }
    }
}

/// The usual spelling of hexadecimal digit `d` (0 to 15): `0`-`9`, then `a`-`f`,
/// or `A`-`F` when `upper`.
pub open spec fn hex_spelling(d: int, upper: bool) -> char {
    if d == 0 {
        '0'
    } else if d == 1 {
        '1'
    } else if d == 2 {
        '2'
    } else if d == 3 {
        '3'
    } else if d == 4 {
        '4'
    } else if d == 5 {
        '5'
    } else if d == 6 {
        '6'
    } else if d == 7 {
        '7'
    } else if d == 8 {
        '8'
    } else if d == 9 {
        '9'
    } else if d == 10 {
        if upper { 'A' } else { 'a' }
    } else if d == 11 {
        if upper { 'B' } else { 'b' }
    } else if d == 12 {
        if upper { 'C' } else { 'c' }
    } else if d == 13 {
        if upper { 'D' } else { 'd' }
    } else if d == 14 {
        if upper { 'E' } else { 'e' }
    } else {
        if upper { 'F' } else { 'f' }
    }
}

/// `#` followed by the two-digit hexadecimal spellings of `r`, `g` and `b`.
pub open spec fn hex_color_text(r: u8, g: u8, b: u8, upper: bool) -> Seq<char> {
    seq![
        '#',
        hex_spelling(r as int / 16, upper),
        hex_spelling(r as int % 16, upper),
        hex_spelling(g as int / 16, upper),
        hex_spelling(g as int % 16, upper),
        hex_spelling(b as int / 16, upper),
        hex_spelling(b as int % 16, upper),
    ]
}

proof fn lemma_hex_spelling_value(d: int, upper: bool)
    requires
        0 <= d < 16,
    ensures
        (hex_spelling(d, upper) as u32) < 0x80,
        hex_digit(hex_spelling(d, upper) as u8) == Some(d as u8),
        !is_white_space(hex_spelling(d, upper)),
{
}

/// The hexadecimal digits are exactly `0`-`9`, `a`-`f` and `A`-`F`, each read as
/// its usual value: every digit's spelling, in either case, is read as that digit,
/// and a byte that is read as a digit is one of its two spellings.
pub proof fn law_hex_digits(c: u8, d: int, upper: bool)
    ensures
        0 <= d < 16 ==> hex_digit(hex_spelling(d, upper) as u8) == Some(d as u8),
        hex_digit(c) matches Some(v) ==> v < 16 && (c == hex_spelling(v as int, false) as u8
            || c == hex_spelling(v as int, true) as u8),
{
    if 0 <= d < 16 {
        lemma_hex_spelling_value(d, upper);
    }
}

proof fn lemma_ascii_bytes_boundaries(b: Seq<u8>)
    requires
        forall|i: int| 0 <= i < b.len() ==> #[trigger] b[i] <= 0x7f,
    ensures
        valid_utf8(b),
        forall|i: int| 0 <= i <= b.len() ==> is_char_boundary(b, i),
    decreases b.len(),
{
    if b.len() > 0 {
        let b0 = b[0];
        assert(b0 & 0x7f <= 0x7f) by (bit_vector);
        let rest = b.subrange(1, b.len() as int);
        assert forall|i: int| 0 <= i < rest.len() implies #[trigger] rest[i] <= 0x7f by {
            assert(rest[i] == b[i + 1]);
        }
        lemma_ascii_bytes_boundaries(rest);
        assert(pop_first_scalar(b) == rest);
        assert(valid_utf8(b));
        assert forall|i: int| 0 <= i <= b.len() implies is_char_boundary(b, i) by {
            if i > 0 {
                assert(is_char_boundary(rest, i - 1));
            }
        }
    }
}

/// Every colour written `#rrggbb`, with lower-case or upper-case hexadecimal
/// digits, is read back as its three bytes, and cutting it into byte pairs splits
/// no character.
pub proof fn law_hex_color_round_trip(r: u8, g: u8, b: u8, upper: bool)
    ensures
        hex_rgb_spec(hex_color_text(r, g, b, upper)) == Some((r, g, b)),
        !hex_color_cut_splits_char(hex_color_text(r, g, b, upper)),
{
    let t = hex_color_text(r, g, b, upper);
    lemma_hex_spelling_value(r as int / 16, upper);
    lemma_hex_spelling_value(r as int % 16, upper);
    lemma_hex_spelling_value(g as int / 16, upper);
    lemma_hex_spelling_value(g as int % 16, upper);
    lemma_hex_spelling_value(b as int / 16, upper);
    lemma_hex_spelling_value(b as int % 16, upper);
    assert(!is_white_space(t[0]));
    assert(!is_white_space(t.last()));
    assert(trim(t) == t) by {
        assert(crate::text::trim_start(t) == t);
        assert(crate::text::trim_end(t) == t);
    }
    let body = hex_body(t);
    assert(body =~= t.drop_first());
    assert(is_ascii_chars(body));
    is_ascii_chars_encode_utf8(body);
    let bytes = encode_utf8(body);
    assert(bytes.len() == 6);
    assert forall|i: int| 0 <= i < 6 implies #[trigger] bytes[i] == body[i] as u8 by {}
    assert forall|i: int| 0 <= i < bytes.len() implies #[trigger] bytes[i] <= 0x7f by {}
    lemma_ascii_bytes_boundaries(bytes);
    assert(hex_pair(bytes[0], bytes[1]) == Some(r)) by {
        assert(bytes[0] != 0x2b);
    }
    assert(hex_pair(bytes[2], bytes[3]) == Some(g)) by {
        assert(bytes[2] != 0x2b);
    }
    assert(hex_pair(bytes[4], bytes[5]) == Some(b)) by {
        assert(bytes[4] != 0x2b);
    }
}

} // verus!
