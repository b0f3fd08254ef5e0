//! Normalisation of user settings: the server address, the font family and the
//! ranges of the numeric settings.
use vstd::prelude::*;
use vstd::string::StringExecFns;
use crate::model::{
    Settings, default_font_family, default_font_family_spec, default_server_url,
    default_server_url_spec,
};
use crate::text::{
    chars_of, has_prefix, is_white_space, starts_with, string_of, sub_chars, trim,
    trim_end_char, trimmed, trimmed_end_char, white_space,
};

verus! {

/// The words of `s`: its maximal runs of non-white-space characters, in order.
pub open spec fn words(s: Seq<char>) -> Seq<Seq<char>>
    decreases s.len(),
{
    if s.len() == 0 {
        Seq::empty()
    } else {
        let w = words(s.drop_last());
        let c = s.last();
        if is_white_space(c) {
            w
        } else if s.len() > 1 && !is_white_space(s[s.len() - 2]) {
            w.update(w.len() - 1, w.last().push(c))
        } else {
            w.push(seq![c])
        }
    }
}

/// The words joined by single spaces.
pub open spec fn join_words(w: Seq<Seq<char>>) -> Seq<char>
    decreases w.len(),
{
    if w.len() == 0 {
        Seq::empty()
    } else if w.len() == 1 {
        w[0]
    } else {
        join_words(w.drop_last()) + seq![' '] + w.last()
    }
}

/// `s` with its white-space runs collapsed to single spaces and its ends trimmed,
/// as `s.split_whitespace().collect::<Vec<_>>().join(" ")` gives it.
pub open spec fn collapse_white_space(s: Seq<char>) -> Seq<char> {
    join_words(words(s))
}

/// Most characters kept of a font family name.
pub const MAX_FONT_FAMILY_CHARS: usize = 120;

/// The font family name that `value` stands for: its words joined by single
/// spaces and cut to 120 characters, or the default family when it has no word.
pub open spec fn font_family_spec(value: Seq<char>) -> Seq<char> {
    let c = collapse_white_space(value);
    if c.len() == 0 {
        default_font_family_spec()
    } else if c.len() > MAX_FONT_FAMILY_CHARS {
        c.take(MAX_FONT_FAMILY_CHARS as int)
    } else {
        c
    }
}

/// The server address that `value` stands for: trimmed of white space and of
/// trailing slashes, with `http://` put in front unless it starts with `http://`
/// or `https://`; the default address when nothing is left.
pub open spec fn server_url_spec(value: Seq<char>) -> Seq<char> {
    let t = trim_end_char(trim(value), '/');
    if t.len() == 0 {
        default_server_url_spec()
    } else if has_prefix(t, "http://"@) || has_prefix(t, "https://"@) {
        t
    } else {
        "http://"@ + t
    }
}

proof fn lemma_words_nonempty(s: Seq<char>)
    requires
        s.len() > 0,
        !is_white_space(s.last()),
    ensures
        words(s).len() > 0,
    decreases s.len(),
{
    if s.len() > 1 && !is_white_space(s[s.len() - 2]) {
        assert(s.drop_last().last() == s[s.len() - 2]);
        lemma_words_nonempty(s.drop_last());
    }
}

proof fn lemma_join_update_last(w: Seq<Seq<char>>, c: char)
    requires
        w.len() > 0,
    ensures
        join_words(w.update(w.len() - 1, w.last().push(c))) == join_words(w).push(c),
{
    let u = w.update(w.len() - 1, w.last().push(c));
    if w.len() == 1 {
        assert(u[0] == w[0].push(c));
    } else {
        assert(u.drop_last() =~= w.drop_last());
        assert(join_words(w.drop_last()) + seq![' '] + w.last().push(c) =~= (join_words(
            w.drop_last(),
        ) + seq![' '] + w.last()).push(c));
    }
}

/// Collapses white space as [`collapse_white_space`] states.
pub fn collapse_spaces(v: &[char]) -> (r: Vec<char>)
    ensures
        r@ == collapse_white_space(v@),
{
    let mut out: Vec<char> = Vec::new();
    let mut space_due = false;
    for i in 0..v.len()
        invariant
            out@ == join_words(words(v@.take(i as int))),
            out@.len() == 0 <==> words(v@.take(i as int)).len() == 0,
            space_due == (i > 0 && is_white_space(v@[i - 1]) && words(v@.take(i as int)).len()
                > 0),
            i > 0 && !is_white_space(v@[i - 1]) ==> words(v@.take(i as int)).len() > 0,
    {
        let c = v[i];
        let ghost p = v@.take(i as int);
        let ghost q = v@.take(i + 1);
        proof {
            assert(q.drop_last() =~= p);
            assert(q.last() == c);
            if i > 0 {
                assert(q[q.len() - 2] == v@[i - 1]);
            }
        }
        if white_space(c) {
            space_due = out.len() > 0;
        } else {
            if i > 0 && !white_space(v[i - 1]) {
                proof {
                    lemma_join_update_last(words(p), c);
                }
                out.push(c);
            } else {
                if space_due {
                    out.push(' ');
                    out.push(c);
                    assert(words(p).push(seq![c]).drop_last() =~= words(p));
                    assert(out@ =~= join_words(words(p)) + seq![' '] + seq![c]);
                } else {
                    out.push(c);
                    assert(words(q) =~= seq![seq![c]]);
                }
                space_due = false;
            }
        }
    }
    proof {
        assert(v@.take(v@.len() as int) =~= v@);
    }
    out
}

/// The font family name that `value` stands for (see [`font_family_spec`]).
pub fn normalize_font_family(value: &str) -> (r: String)
    ensures
        r@ == font_family_spec(value@),
{
    let chars = chars_of(value);
    let collapsed = collapse_spaces(&chars);
    if collapsed.len() == 0 {
        default_font_family()
    } else if collapsed.len() > MAX_FONT_FAMILY_CHARS {
        let cut = sub_chars(&collapsed, 0, MAX_FONT_FAMILY_CHARS);
        assert(cut@ =~= collapsed@.take(MAX_FONT_FAMILY_CHARS as int));
        string_of(&cut)
    } else {
        string_of(&collapsed)
    }
}

/// The server address that `value` stands for (see [`server_url_spec`]).
pub fn normalize_server_url(value: &str) -> (r: String)
    ensures
        r@ == server_url_spec(value@),
{
    let chars = chars_of(value);
    let t = trimmed_end_char(&trimmed(&chars), '/');
    if t.len() == 0 {
        return default_server_url();
    }
    let http = chars_of("http://");
    let https = chars_of("https://");
    if starts_with(&t, &http) || starts_with(&t, &https) {
        string_of(&t)
    } else {
        let mut s = String::from_str("http://");
        s.append(string_of(&t).as_str());
        s
    }
}

/// Most opacity, in percent.
pub const MAX_OPACITY: u8 = 100;

/// Fewest subtitles kept on screen.
pub const MIN_SUBTITLES: usize = 1;

/// Most subtitles kept on screen.
pub const MAX_SUBTITLES: usize = 10;

/// Smallest overlay width.
pub const MIN_OVERLAY_WIDTH: u32 = 280;

/// Smallest overlay height.
pub const MIN_OVERLAY_HEIGHT: u32 = 88;

/// `n` brought into `lo..=hi`.
pub open spec fn clamp_nat(n: int, lo: int, hi: int) -> int {
    if n < lo {
        lo
    } else if n > hi {
        hi
    } else {
        n
    }
}

/// `s` normalised: the server address and font family as above, the opacity at
/// most 100, between 1 and 10 subtitles, and an overlay of at least 280 by 88.
/// Colours, position and the font size are kept.
pub open spec fn settings_normalized(old_s: Settings, new_s: Settings) -> bool {
    &&& new_s.server_url@ == server_url_spec(old_s.server_url@)
    &&& new_s.original_text_color == old_s.original_text_color
    &&& new_s.translated_text_color == old_s.translated_text_color
    &&& new_s.background_color == old_s.background_color
    &&& new_s.background_opacity == if old_s.background_opacity > MAX_OPACITY {
        MAX_OPACITY
    } else {
        old_s.background_opacity
    }
    &&& new_s.font_size_bits == old_s.font_size_bits
    &&& new_s.font_family@ == font_family_spec(old_s.font_family@)
    &&& new_s.max_subtitle_count == clamp_nat(
        old_s.max_subtitle_count as int,
        MIN_SUBTITLES as int,
        MAX_SUBTITLES as int,
    )
    &&& new_s.overlay_bounds.x == old_s.overlay_bounds.x
    &&& new_s.overlay_bounds.y == old_s.overlay_bounds.y
    &&& new_s.overlay_bounds.width == if old_s.overlay_bounds.width < MIN_OVERLAY_WIDTH {
        MIN_OVERLAY_WIDTH
    } else {
        old_s.overlay_bounds.width
    }
    &&& new_s.overlay_bounds.height == if old_s.overlay_bounds.height < MIN_OVERLAY_HEIGHT {
        MIN_OVERLAY_HEIGHT
    } else {
        old_s.overlay_bounds.height
    }
}

/// Brings every setting but the font size into its supported range (see
/// [`settings_normalized`]); the font size is a float, which the caller clamps.
pub fn normalize_settings(settings: &mut Settings)
    ensures
        settings_normalized(*old(settings), *final(settings)),
{
    settings.server_url = normalize_server_url(settings.server_url.as_str());
    if settings.background_opacity > MAX_OPACITY {
        settings.background_opacity = MAX_OPACITY;
    }
    settings.font_family = normalize_font_family(settings.font_family.as_str());
    if settings.max_subtitle_count < MIN_SUBTITLES {
        settings.max_subtitle_count = MIN_SUBTITLES;
    } else if settings.max_subtitle_count > MAX_SUBTITLES {
        settings.max_subtitle_count = MAX_SUBTITLES;
    }
    if settings.overlay_bounds.width < MIN_OVERLAY_WIDTH {
        settings.overlay_bounds.width = MIN_OVERLAY_WIDTH;
    }
    if settings.overlay_bounds.height < MIN_OVERLAY_HEIGHT {
        settings.overlay_bounds.height = MIN_OVERLAY_HEIGHT;
    }
}

/// Every white-space character of `s` is a space that follows a character that is
/// not white space (so `s` has no leading white space and no double spaces).
pub open spec fn single_spaced(s: Seq<char>) -> bool {
    forall|i: int|
        0 <= i < s.len() && is_white_space(#[trigger] s[i]) ==> s[i] == ' ' && i > 0
            && !is_white_space(s[i - 1])
}

/// Each word is non-empty and free of white space.
pub open spec fn proper_words(w: Seq<Seq<char>>) -> bool {
    forall|k: int|
        0 <= k < w.len() ==> (#[trigger] w[k]).len() > 0 && forall|j: int|
            0 <= j < w[k].len() ==> !is_white_space(#[trigger] w[k][j])
}

proof fn lemma_words_proper(s: Seq<char>)
    ensures
        proper_words(words(s)),
    decreases s.len(),
{
    if s.len() > 0 {
        lemma_words_proper(s.drop_last());
        let w = words(s.drop_last());
        let c = s.last();
        if !is_white_space(c) {
            if s.len() > 1 && !is_white_space(s[s.len() - 2]) {
                assert(s.drop_last().last() == s[s.len() - 2]);
                lemma_words_nonempty(s.drop_last());
                let u = w.update(w.len() - 1, w.last().push(c));
                assert forall|k: int| 0 <= k < u.len() implies (#[trigger] u[k]).len() > 0
                    && forall|j: int| 0 <= j < u[k].len() ==> !is_white_space(#[trigger] u[k][j]) by {
                    if k == w.len() - 1 {
                        assert forall|j: int| 0 <= j < u[k].len() implies !is_white_space(
                            #[trigger] u[k][j],
                        ) by {
                            if j < w[k].len() {
                                assert(u[k][j] == w[k][j]);
                            }
                        }
                    }
                }
            } else {
                let u = w.push(seq![c]);
                assert forall|k: int| 0 <= k < u.len() implies (#[trigger] u[k]).len() > 0
                    && forall|j: int| 0 <= j < u[k].len() ==> !is_white_space(#[trigger] u[k][j]) by {
                    if k < w.len() {
                        assert(u[k] == w[k]);
                    }
                }
            }
        }
    }
}

proof fn lemma_join_shape(w: Seq<Seq<char>>)
    requires
        proper_words(w),
    ensures
        single_spaced(join_words(w)),
        join_words(w).len() == 0 <==> w.len() == 0,
        join_words(w).len() > 0 ==> !is_white_space(join_words(w).last()),
    decreases w.len(),
{
    if w.len() == 1 {
        assert(w[0].len() > 0);
        assert(!is_white_space(w[0].last()));
        assert forall|i: int| 0 <= i < w[0].len() implies !is_white_space(#[trigger] w[0][i]) by {}
    } else if w.len() > 1 {
        let d = w.drop_last();
        assert forall|k: int| 0 <= k < d.len() implies (#[trigger] d[k]).len() > 0 && forall|
            j: int,
        | 0 <= j < d[k].len() ==> !is_white_space(#[trigger] d[k][j]) by {
            assert(d[k] == w[k]);
        }
        lemma_join_shape(d);
        let a = join_words(d);
        let b = w.last();
        assert(w[w.len() - 1] == b);
        let r = a + seq![' '] + b;
        assert(b.len() > 0);
        assert(r.last() == b.last());
        assert forall|i: int| 0 <= i < r.len() && is_white_space(#[trigger] r[i]) implies r[i]
            == ' ' && i > 0 && !is_white_space(r[i - 1]) by {
            if i < a.len() {
                assert(r[i] == a[i]);
                assert(r[i - 1] == a[i - 1]);
            } else if i == a.len() {
                assert(r[i - 1] == a.last());
            } else {
                assert(r[i] == b[i - a.len() - 1]);
            }
        }
    }
}

proof fn lemma_collapse_single_spaced(s: Seq<char>)
    requires
        single_spaced(s),
    ensures
        collapse_white_space(s) == if s.len() > 0 && is_white_space(s.last()) {
            s.drop_last()
        } else {
            s
        },
    decreases s.len(),
{
    if s.len() > 0 {
        let t = s.drop_last();
        let c = s.last();
        assert forall|i: int| 0 <= i < t.len() && is_white_space(#[trigger] t[i]) implies t[i]
            == ' ' && i > 0 && !is_white_space(t[i - 1]) by {
            assert(t[i] == s[i]);
            assert(t[i - 1] == s[i - 1]);
        }
        lemma_collapse_single_spaced(t);
        if is_white_space(c) {
            assert(s[s.len() - 1] == c);
            assert(t.last() == s[s.len() - 2]);
        } else if s.len() > 1 && !is_white_space(s[s.len() - 2]) {
            assert(t.last() == s[s.len() - 2]);
            lemma_words_nonempty(t);
            lemma_join_update_last(words(t), c);
            assert(t.push(c) =~= s);
        } else if s.len() == 1 {
            assert(words(s) =~= seq![seq![c]]);
            assert(seq![c] =~= s);
        } else {
            // `t` ends with a space that follows a word.
            let u = t.drop_last();
            assert(t.last() == s[s.len() - 2]);
            assert(s[s.len() - 2] == ' ');
            assert(u.last() == s[s.len() - 3]);
            lemma_words_nonempty(u);
            assert(words(t) == words(u));
            assert(words(s).drop_last() =~= words(t));
            assert(collapse_white_space(t) == t.drop_last());
            assert(t.drop_last() + seq![' '] + seq![c] =~= s);
        }
    }
}

/// Normalising a font family name twice gives what normalising it once gives,
/// unless the cut at 120 characters falls just after a space.
pub proof fn law_font_family_normalization_is_stable(value: Seq<char>)
    requires
        !(collapse_white_space(value).len() > MAX_FONT_FAMILY_CHARS && collapse_white_space(
            value,
        )[MAX_FONT_FAMILY_CHARS - 1] == ' '),
    ensures
        font_family_spec(font_family_spec(value)) == font_family_spec(value),
{
    let c = collapse_white_space(value);
    lemma_words_proper(value);
    lemma_join_shape(words(value));
    let r = font_family_spec(value);
    if c.len() == 0 {
        reveal_strlit("Sans");
        assert(single_spaced(r));
    } else if c.len() > MAX_FONT_FAMILY_CHARS {
        assert forall|i: int| 0 <= i < r.len() && is_white_space(#[trigger] r[i]) implies r[i]
            == ' ' && i > 0 && !is_white_space(r[i - 1]) by {
            assert(r[i] == c[i]);
            assert(r[i - 1] == c[i - 1]);
        }
        assert(r.last() == c[MAX_FONT_FAMILY_CHARS - 1]);
        if is_white_space(r.last()) {
            assert(r.last() == ' ');
        }
    }
    lemma_collapse_single_spaced(r);
}

proof fn lemma_trim_end_char_prefix(s: Seq<char>, c: char)
    ensures
        trim_end_char(s, c).len() <= s.len(),
        trim_end_char(s, c) == s.take(trim_end_char(s, c).len() as int),
        trim_end_char(s, c).len() > 0 ==> trim_end_char(s, c).last() != c,
    decreases s.len(),
{
    if s.len() > 0 && s.last() == c {
        lemma_trim_end_char_prefix(s.drop_last(), c);
        assert(s.drop_last().take(trim_end_char(s, c).len() as int) =~= s.take(
            trim_end_char(s, c).len() as int,
        ));
    } else {
        assert(s.take(s.len() as int) =~= s);
    }
}

proof fn lemma_trim_fixed(s: Seq<char>)
    requires
        s.len() > 0,
        !is_white_space(s[0]),
        !is_white_space(s.last()),
    ensures
        trim(s) == s,
{
}

/// Normalising a server address twice gives what normalising it once gives,
/// unless white space is left in front of the trailing slashes that were cut.
pub proof fn law_server_url_normalization_is_stable(value: Seq<char>)
    requires
        trim_end_char(trim(value), '/').len() > 0 ==> !is_white_space(
            trim_end_char(trim(value), '/').last(),
        ),
    ensures
        server_url_spec(server_url_spec(value)) == server_url_spec(value),
{
    reveal_strlit("http://192.168.1.100:8765");
    reveal_strlit("http://");
    reveal_strlit("https://");
    let t = trim_end_char(trim(value), '/');
    let r = server_url_spec(value);
    crate::text::lemma_trim_ends(value);
    lemma_trim_end_char_prefix(trim(value), '/');
    if t.len() == 0 {
        let d = default_server_url_spec();
        lemma_trim_fixed(d);
        assert(trim_end_char(d, '/') == d);
        assert(d.take(7) =~= "http://"@);
    } else {
        assert(t[0] == trim(value)[0]);
        if has_prefix(t, "http://"@) || has_prefix(t, "https://"@) {
            lemma_trim_fixed(t);
            assert(trim_end_char(t, '/') == t);
        } else {
            let p = "http://"@;
            assert(r == p + t);
            assert(r[0] == 'h');
            assert(r.last() == t.last());
            lemma_trim_fixed(r);
            assert(trim_end_char(r, '/') == r);
            assert(r.take(7) =~= p);
        }
    }
}

/// Normalising settings twice gives what normalising them once gives, unless one
/// of the two text normalisations is unstable on its input (see
/// [`law_server_url_normalization_is_stable`] and
/// [`law_font_family_normalization_is_stable`]).
pub proof fn law_settings_normalization_is_stable(s: Settings, once: Settings, twice: Settings)
    requires
        settings_normalized(s, once),
        settings_normalized(once, twice),
        trim_end_char(trim(s.server_url@), '/').len() > 0 ==> !is_white_space(
            trim_end_char(trim(s.server_url@), '/').last(),
        ),
        !(collapse_white_space(s.font_family@).len() > MAX_FONT_FAMILY_CHARS
            && collapse_white_space(s.font_family@)[MAX_FONT_FAMILY_CHARS - 1] == ' '),
    ensures
        twice.server_url@ == once.server_url@,
        twice.font_family@ == once.font_family@,
        twice.original_text_color == once.original_text_color,
        twice.translated_text_color == once.translated_text_color,
        twice.background_color == once.background_color,
        twice.background_opacity == once.background_opacity,
        twice.font_size_bits == once.font_size_bits,
        twice.max_subtitle_count == once.max_subtitle_count,
        twice.overlay_bounds == once.overlay_bounds,
{
    law_server_url_normalization_is_stable(s.server_url@);
    law_font_family_normalization_is_stable(s.font_family@);
}

/// Normalisation keeps every number already in its range and brings every other
/// one to the nearest end: the subtitle count into 1..=10, the opacity to at most
/// 100, the overlay to at least 280 by 88. The overlay's position and the colours
/// are kept as they are.
pub proof fn law_normalized_ranges(old_s: Settings, new_s: Settings)
    requires
        settings_normalized(old_s, new_s),
    ensures
        1 <= old_s.max_subtitle_count <= 10 ==> new_s.max_subtitle_count == old_s.max_subtitle_count,
        old_s.max_subtitle_count < 1 ==> new_s.max_subtitle_count == 1,
        old_s.max_subtitle_count > 10 ==> new_s.max_subtitle_count == 10,
        1 <= new_s.max_subtitle_count <= 10,
        old_s.background_opacity <= 100 ==> new_s.background_opacity == old_s.background_opacity,
        old_s.background_opacity > 100 ==> new_s.background_opacity == 100,
        old_s.overlay_bounds.width >= 280 ==> new_s.overlay_bounds.width == old_s.overlay_bounds.width,
        old_s.overlay_bounds.width < 280 ==> new_s.overlay_bounds.width == 280,
        old_s.overlay_bounds.height >= 88 ==> new_s.overlay_bounds.height
            == old_s.overlay_bounds.height,
        old_s.overlay_bounds.height < 88 ==> new_s.overlay_bounds.height == 88,
        new_s.overlay_bounds.x == old_s.overlay_bounds.x,
        new_s.overlay_bounds.y == old_s.overlay_bounds.y,
        new_s.original_text_color == old_s.original_text_color,
        new_s.translated_text_color == old_s.translated_text_color,
        new_s.background_color == old_s.background_color,
{
}

/// How an address is normalised, over its text: an address with a scheme
/// (`http://` or `https://`), no surrounding white space and no trailing slash is
/// kept as it is; one with neither scheme nor surrounding white space nor trailing
/// slash gets `http://` in front; nothing but white space and slashes gives the
/// default address.
pub proof fn law_server_url_shape(value: Seq<char>)
    ensures
        value.len() > 0 && !is_white_space(value[0]) && !is_white_space(value.last())
            && value.last() != '/' && (has_prefix(value, "http://"@) || has_prefix(
            value,
            "https://"@,
        )) ==> server_url_spec(value) == value,
        value.len() > 0 && !is_white_space(value[0]) && !is_white_space(value.last())
            && value.last() != '/' && !has_prefix(value, "http://"@) && !has_prefix(
            value,
            "https://"@,
        ) ==> server_url_spec(value) == "http://"@ + value,
        trim_end_char(trim(value), '/').len() == 0 ==> server_url_spec(value)
            == default_server_url_spec(),
{
    crate::text::lemma_trim_ends(value);
    lemma_trim_end_char_prefix(trim(value), '/');
    if value.len() > 0 && !is_white_space(value[0]) && !is_white_space(value.last()) && value.last() != '/' {
        lemma_trim_fixed(value);
    }
}

/// Collapsing white space leaves no white space at either end and only single
/// spaces between words; text already in that form is kept as it is.
pub proof fn law_collapse_white_space(value: Seq<char>)
    ensures
        single_spaced(collapse_white_space(value)),
        collapse_white_space(value).len() > 0 ==> !is_white_space(
            collapse_white_space(value).last(),
        ),
        single_spaced(value) && (value.len() > 0 ==> !is_white_space(value.last()))
            ==> collapse_white_space(value) == value,
{
    lemma_words_proper(value);
    lemma_join_shape(words(value));
    if single_spaced(value) {
        lemma_collapse_single_spaced(value);
    }
}

/// A family name already normalised (no surrounding white space, single spaces,
/// at most 120 characters) is kept; one of only white space gives the default.
pub proof fn law_font_family_shape(value: Seq<char>)
    ensures
        value.len() > 0 && value.len() <= MAX_FONT_FAMILY_CHARS && single_spaced(value)
            && !is_white_space(value.last()) ==> font_family_spec(value) == value,
        (forall|i: int| 0 <= i < value.len() ==> is_white_space(#[trigger] value[i]))
            ==> font_family_spec(value) == default_font_family_spec(),
        font_family_spec(value).len() <= MAX_FONT_FAMILY_CHARS,
{
    law_collapse_white_space(value);
    if forall|i: int| 0 <= i < value.len() ==> is_white_space(#[trigger] value[i]) {
        lemma_words_all_white(value);
    }
    reveal_strlit("Sans");
}

proof fn lemma_words_all_white(s: Seq<char>)
    requires
        forall|i: int| 0 <= i < s.len() ==> is_white_space(#[trigger] s[i]),
    ensures
        words(s).len() == 0,
    decreases s.len(),
{
    if s.len() > 0 {
        assert forall|i: int| 0 <= i < s.drop_last().len() implies is_white_space(
            #[trigger] s.drop_last()[i],
        ) by {
            assert(s.drop_last()[i] == s[i]);
        }
        lemma_words_all_white(s.drop_last());
        assert(is_white_space(s[s.len() - 1]));
    }
}

} // verus!
