//! Decoder for a server-sent-event stream: text arrives in chunks, is cut into
//! lines at `\n`, and `event:` / `data:` fields are gathered until a blank line
//! dispatches them as one message.
use vstd::prelude::*;
use vstd::utf8::{decode_utf8, valid_utf8};
use crate::text::{
    append_chars, chars_of, has_prefix, starts_with, string_of, sub_chars, trim, trimmed,
};

verus! {

/// One dispatched event: its name (empty when the stream gave none) and its data.
#[derive(Debug, PartialEq, Eq)]
pub struct SseMessage {
    pub event: String,
    pub data: String,
}

/// The decoder as a mathematical value: the text of the line not yet ended, and
/// the event name and data gathered since the last dispatch.
pub ghost struct SseView {
    pub pending: Seq<char>,
    pub event: Seq<char>,
    pub data: Seq<char>,
}

/// A dispatched message as a value: (event name, data).
pub type MessageView = (Seq<char>, Seq<char>);

/// The decoder state between chunks.
pub struct SseDecoder {
    pending: Vec<char>,
    event: Vec<char>,
    data: Vec<char>,
}

impl View for SseDecoder {
    type V = SseView;

    closed spec fn view(&self) -> SseView {
        SseView { pending: self.pending@, event: self.event@, data: self.data@ }
    }
}

/// The empty decoder state.
pub open spec fn initial_state() -> SseView {
    SseView { pending: Seq::empty(), event: Seq::empty(), data: Seq::empty() }
}

/// The messages as values.
pub open spec fn messages_view(m: Seq<SseMessage>) -> Seq<MessageView> {
    m.map_values(|x: SseMessage| (x.event@, x.data@))
}

/// `line` without one trailing carriage return.
pub open spec fn strip_cr(line: Seq<char>) -> Seq<char> {
    if line.len() > 0 && line.last() == '\r' {
        line.drop_last()
    } else {
        line
    }
}

/// The effect of one complete line: a comment (`:` first) is skipped, `event:` sets
/// the event name, `data:` adds a data line (joined to earlier ones by `\n`), and a
/// blank line dispatches the gathered message when there is data; anything else is
/// ignored. Field values are trimmed of white space.
pub open spec fn line_step(st: SseView, line: Seq<char>) -> (SseView, Option<MessageView>) {
    if line.len() > 0 && line[0] == ':' {
        (st, None)
    } else if has_prefix(line, "event:"@) {
        (SseView { event: trim(line.skip("event:"@.len() as int)), ..st }, None)
    } else if has_prefix(line, "data:"@) {
        let value = trim(line.skip("data:"@.len() as int));
        (
            SseView {
                data: if st.data.len() > 0 {
                    st.data.push('\n') + value
                } else {
                    value
                },
                ..st
            },
            None,
        )
    } else if line.len() == 0 && st.data.len() > 0 {
        (SseView { event: Seq::empty(), data: Seq::empty(), ..st }, Some((st.event, st.data)))
    } else {
        (st, None)
    }
}

/// The effect of one character: `\n` ends the pending line (without a trailing
/// `\r`), any other character extends it.
pub open spec fn char_step(st: SseView, c: char) -> (SseView, Seq<MessageView>) {
    if c == '\n' {
        let (next, m) = line_step(SseView { pending: Seq::empty(), ..st }, strip_cr(st.pending));
        (
            next,
            match m {
                Some(x) => seq![x],
                None => Seq::empty(),
            },
        )
    } else {
        (SseView { pending: st.pending.push(c), ..st }, Seq::empty())
    }
}

/// The state after `text`, and the messages dispatched on the way.
pub open spec fn feed_spec(st: SseView, text: Seq<char>) -> (SseView, Seq<MessageView>)
    decreases text.len(),
{
    if text.len() == 0 {
        (st, Seq::empty())
    } else {
        let (s1, m1) = feed_spec(st, text.drop_last());
        let (s2, m2) = char_step(s1, text.last());
        (s2, m1 + m2)
    }
}

/// What `String::from_utf8_lossy` makes of `bytes`.
pub uninterp spec fn utf8_lossy(bytes: Seq<u8>) -> Seq<char>;

/// Decodes one chunk with `String::from_utf8_lossy`, which replaces each invalid
/// sequence by U+FFFD. The contract names the result and states the documented
/// case of valid UTF-8, which is decoded as it is.
#[verifier::external_body]
fn decode_chunk(bytes: &[u8]) -> (s: String)
    ensures
        s@ == utf8_lossy(bytes@),
        valid_utf8(bytes@) ==> s@ == decode_utf8(bytes@),
{
    String::from_utf8_lossy(bytes).into_owned()
}

impl SseDecoder {
    /// A decoder that has seen nothing.
    pub fn new() -> (d: Self)
        ensures
            d@ == initial_state(),
    {
        SseDecoder { pending: Vec::new(), event: Vec::new(), data: Vec::new() }
    }

    /// Applies one complete line.
    fn take_line(&mut self, line: &[char]) -> (m: Option<SseMessage>)
        requires
            old(self)@.pending.len() == 0,
        ensures
            (final(self)@, match m {
                Some(x) => Some((x.event@, x.data@)),
                None => None,
            }) == line_step(
                old(self)@,
                line@,
            ),
    {
        let event_field = chars_of("event:");
        let data_field = chars_of("data:");
        if line.len() > 0 && line[0] == ':' {
            return None;
        }
        if starts_with(line, &event_field) {
            let rest = sub_chars(line, event_field.len(), line.len());
            self.event = trimmed(&rest);
            assert(rest@ == line@.skip("event:"@.len() as int));
            return None;
        }
        if starts_with(line, &data_field) {
            let rest = sub_chars(line, data_field.len(), line.len());
            let value = trimmed(&rest);
            assert(rest@ == line@.skip("data:"@.len() as int));
            if self.data.len() > 0 {
                self.data.push('\n');
            }
            append_chars(&mut self.data, &value);
            return None;
        }
        if line.len() == 0 && self.data.len() > 0 {
            let message = SseMessage { event: string_of(&self.event), data: string_of(&self.data) };
            self.event = Vec::new();
            self.data = Vec::new();
            return Some(message);
        }
        None
    }

    /// Applies one character.
    fn take_char(&mut self, c: char) -> (m: Option<SseMessage>)
        ensures
            (final(self)@, match m {
                Some(x) => seq![(x.event@, x.data@)],
                None => Seq::empty(),
            }) == char_step(old(self)@, c),
    {
        if c == '\n' {
            let mut line = Vec::new();
            std::mem::swap(&mut line, &mut self.pending);
            if line.len() > 0 && line[line.len() - 1] == '\r' {
                line.pop();
            }
            self.take_line(&line)
        } else {
            self.pending.push(c);
            None
        }
    }

    /// Feeds a chunk of text and returns the messages it completes, in order.
    pub fn feed_text(&mut self, text: &str) -> (msgs: Vec<SseMessage>)
        ensures
            (final(self)@, messages_view(msgs@)) == feed_spec(old(self)@, text@),
    {
        let chars = chars_of(text);
        let mut msgs: Vec<SseMessage> = Vec::new();
        for i in 0..chars.len()
            invariant
                chars@ == text@,
                (self@, messages_view(msgs@)) == feed_spec(old(self)@, chars@.take(i as int)),
        {
            let ghost before = msgs@;
            let m = self.take_char(chars[i]);
            proof {
                assert(chars@.take(i + 1).drop_last() =~= chars@.take(i as int));
                assert(chars@.take(i + 1).last() == chars@[i as int]);
            }
            match m {
                Some(x) => {
                    msgs.push(x);
                    assert(messages_view(msgs@) =~= messages_view(before) + seq![
                        (x.event@, x.data@),
                    ]);
                },
                None => {
                    assert(messages_view(msgs@) =~= messages_view(before) + Seq::empty());
                },
            }
        }
        proof {
            assert(chars@.take(chars@.len() as int) =~= chars@);
        }
        msgs
    }

    /// Feeds a chunk of bytes, decoded on its own as `String::from_utf8_lossy` does,
    /// and returns the messages it completes.
    pub fn feed(&mut self, chunk: &[u8]) -> (msgs: Vec<SseMessage>)
        ensures
            (final(self)@, messages_view(msgs@)) == feed_spec(old(self)@, utf8_lossy(chunk@)),
    {
        let text = decode_chunk(chunk);
        self.feed_text(text.as_str())
    }
}

/// Cutting the text into chunks does not matter: feeding `a` and then `b` leaves the
/// same state and dispatches the same messages as feeding `a + b` at once.
pub proof fn law_chunking_is_invisible(st: SseView, a: Seq<char>, b: Seq<char>)
    ensures
        ({
            let (s1, m1) = feed_spec(st, a);
            let (s2, m2) = feed_spec(s1, b);
            feed_spec(st, a + b) == (s2, m1 + m2)
        }),
    decreases b.len(),
{
    if b.len() == 0 {
        assert(a + b =~= a);
        let (s1, m1) = feed_spec(st, a);
        assert(m1 + Seq::<MessageView>::empty() =~= m1);
    } else {
        law_chunking_is_invisible(st, a, b.drop_last());
        assert((a + b).drop_last() =~= a + b.drop_last());
        assert((a + b).last() == b.last());
        let (s1, m1) = feed_spec(st, a);
        let (s2, m2) = feed_spec(s1, b.drop_last());
        let (s3, m3) = char_step(s2, b.last());
        assert(m1 + m2 + m3 =~= m1 + (m2 + m3));
    }
}

/// The pending text never holds a line break, and every dispatched message has data.
pub proof fn law_decoder_shape(st: SseView, text: Seq<char>)
    requires
        !st.pending.contains('\n'),
    ensures
        !feed_spec(st, text).0.pending.contains('\n'),
        forall|i: int|
            0 <= i < feed_spec(st, text).1.len() ==> (#[trigger] feed_spec(st, text).1[i]).1.len()
                > 0,
    decreases text.len(),
{
    if text.len() > 0 {
        law_decoder_shape(st, text.drop_last());
        let (s1, m1) = feed_spec(st, text.drop_last());
        let (s2, m2) = char_step(s1, text.last());
        if text.last() != '\n' {
            assert forall|c: char| s2.pending.contains(c) implies c != '\n' by {
                let k = choose|k: int| 0 <= k < s2.pending.len() && s2.pending[k] == c;
                if k < s1.pending.len() {
                    assert(s1.pending[k] == c);
                }
            }
        } else {
            assert(s2.pending =~= Seq::<char>::empty());
        }
        assert forall|i: int| 0 <= i < (m1 + m2).len() implies (#[trigger] (m1 + m2)[i]).1.len()
            > 0 by {
            if i >= m1.len() {
                assert(m2[i - m1.len()] == (m1 + m2)[i]);
            }
        }
    }
}

proof fn lemma_feed_without_newline(st: SseView, text: Seq<char>)
    requires
        !text.contains('\n'),
    ensures
        feed_spec(st, text) == (SseView { pending: st.pending + text, ..st }, Seq::<MessageView>::empty()),
    decreases text.len(),
{
    if text.len() == 0 {
        assert(st.pending + text =~= st.pending);
    } else {
        let t = text.drop_last();
        assert(!t.contains('\n')) by {
            if t.contains('\n') {
                let k = choose|k: int| 0 <= k < t.len() && t[k] == '\n';
                assert(text[k] == '\n');
            }
        }
        lemma_feed_without_newline(st, t);
        assert(text.last() == text[text.len() - 1]);
        assert(text.last() != '\n');
        assert((st.pending + t).push(text.last()) =~= st.pending + text);
        assert(Seq::<MessageView>::empty() + Seq::<MessageView>::empty() =~= Seq::<MessageView>::empty());
    }
}

proof fn lemma_feed_line(st: SseView, line: Seq<char>)
    requires
        !line.contains('\n'),
    ensures
        feed_spec(st, line.push('\n')) == char_step(
            SseView { pending: st.pending + line, ..st },
            '\n',
        ),
{
    lemma_feed_without_newline(st, line);
    assert(line.push('\n').drop_last() =~= line);
    let (s1, m1) = feed_spec(st, line);
    let (s2, m2) = char_step(s1, '\n');
    assert(m1 + m2 =~= m2);
}

/// The text of one event as a server frames it: an `event:` line, a `data:` line
/// and a blank line.
pub open spec fn framed_event(event: Seq<char>, data: Seq<char>) -> Seq<char> {
    "event:"@ + seq![' '] + event + seq!['\n'] + "data:"@ + seq![' '] + data + seq!['\n', '\n']
}

proof fn lemma_trim_space_prefix(s: Seq<char>)
    requires
        trim(s) == s,
    ensures
        trim(seq![' '] + s) == s,
{
    let t = seq![' '] + s;
    assert(t[0] == ' ');
    assert(t.drop_first() =~= s);
    assert(crate::text::trim_start(t) == crate::text::trim_start(s));
    crate::text::lemma_trim_ends(s);
    if s.len() == 0 {
        assert(crate::text::trim_start(s) =~= s);
    }
}

/// An event framed with one data line reaches the decoder intact: fed from the
/// start, its text dispatches exactly that event and data, and leaves the decoder
/// as it began. The name and data hold no line break and no surrounding white
/// space, and the data is not empty.
pub proof fn law_framed_event_is_delivered(event: Seq<char>, data: Seq<char>)
    requires
        !event.contains('\n'),
        !data.contains('\n'),
        trim(event) == event,
        trim(data) == data,
        data.len() > 0,
    ensures
        feed_spec(initial_state(), framed_event(event, data)) == (
            initial_state(),
            seq![(event, data)],
        ),
{
    reveal_strlit("event:");
    reveal_strlit("data:");
    let e_line = "event:"@ + seq![' '] + event;
    let d_line = "data:"@ + seq![' '] + data;
    let empty_line = Seq::<char>::empty();
    assert(!e_line.contains('\n')) by {
        if e_line.contains('\n') {
            let k = choose|k: int| 0 <= k < e_line.len() && e_line[k] == '\n';
            if k >= 7 {
                assert(event[k - 7] == '\n');
            }
        }
    }
    assert(!d_line.contains('\n')) by {
        if d_line.contains('\n') {
            let k = choose|k: int| 0 <= k < d_line.len() && d_line[k] == '\n';
            if k >= 6 {
                assert(data[k - 6] == '\n');
            }
        }
    }
    assert(!empty_line.contains('\n'));
    let a = e_line.push('\n');
    let b = d_line.push('\n');
    let c = empty_line.push('\n');
    assert(framed_event(event, data) =~= a + (b + c));
    let st0 = initial_state();
    // The event line.
    lemma_feed_line(st0, e_line);
    assert(st0.pending + e_line =~= e_line);
    assert(strip_cr(e_line) == e_line) by {
        if event.len() > 0 {
            crate::text::lemma_trim_ends(event);
            assert(e_line.last() == event.last());
        }
    }
    assert(e_line.take(6) =~= "event:"@);
    assert(e_line.skip(6) =~= seq![' '] + event);
    lemma_trim_space_prefix(event);
    let st1 = SseView { pending: Seq::empty(), event: event, data: Seq::empty() };
    assert(feed_spec(st0, a) == (st1, Seq::<MessageView>::empty()));
    // The data line.
    lemma_feed_line(st1, d_line);
    assert(st1.pending + d_line =~= d_line);
    assert(strip_cr(d_line) == d_line) by {
        crate::text::lemma_trim_ends(data);
        assert(d_line.last() == data.last());
    }
    assert(d_line[0] == 'd');
    assert(!has_prefix(d_line, "event:"@)) by {
        assert(d_line.take(6)[0] == 'd');
    }
    assert(d_line.take(5) =~= "data:"@);
    assert(d_line.skip(5) =~= seq![' '] + data);
    lemma_trim_space_prefix(data);
    let st2 = SseView { pending: Seq::empty(), event: event, data: data };
    assert(feed_spec(st1, b) == (st2, Seq::<MessageView>::empty()));
    // The blank line.
    lemma_feed_line(st2, empty_line);
    assert(st2.pending + empty_line =~= empty_line);
    assert(feed_spec(st2, c) == (st0, seq![(event, data)]));
    law_chunking_is_invisible(st1, b, c);
    law_chunking_is_invisible(st0, a, b + c);
    assert(Seq::<MessageView>::empty() + (Seq::<MessageView>::empty() + seq![(event, data)])
        =~= seq![(event, data)]);
}

} // verus!
