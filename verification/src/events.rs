//! What the overlay does with the payloads the translation server sends: subtitle,
//! status and error events, and the answer to the active-task query.
use vstd::prelude::*;
use vstd::string::StringExecFns;
use crate::json::{
    JsonMember, JsonValueView, flag_member, json_document, member_flag, member_text,
    members_view, parse_json, text_member, text_or,
};
use crate::model::SubtitleEntry;
use crate::text::{chars_of, same_chars, string_of, trim, trimmed};

verus! {

/// A JSON document as read here: its (key, value) members.
pub type DocView = Seq<(Seq<char>, JsonValueView)>;

/// A subtitle as a value: (time stamp, original, translated).
pub type EntryView = (Seq<char>, Seq<char>, Seq<char>);

/// A subtitle entry as a value.
pub open spec fn entry_view(e: SubtitleEntry) -> EntryView {
    (e.timestamp@, e.original@, e.translated@)
}

/// The subtitle a payload carries: its `original`, `translated` and `timestamp`
/// strings (empty when missing or not strings); none when both texts are empty.
pub open spec fn subtitle_spec(doc: DocView) -> Option<EntryView> {
    let original = text_or(doc, "original"@, Seq::empty());
    let translated = text_or(doc, "translated"@, Seq::empty());
    if original.len() == 0 && translated.len() == 0 {
        None
    } else {
        Some((text_or(doc, "timestamp"@, Seq::empty()), original, translated))
    }
}

/// The subtitle of a payload that is `data`: none when `data` is not JSON.
pub open spec fn parsed_subtitle_spec(data: Seq<char>) -> Option<EntryView> {
    match json_document(data) {
        Some(doc) => subtitle_spec(doc),
        None => None,
    }
}

/// An optional entry as a value.
pub open spec fn opt_entry_view(e: Option<SubtitleEntry>) -> Option<EntryView> {
    match e {
        Some(x) => Some(entry_view(x)),
        None => None,
    }
}

/// An optional string as a value.
pub open spec fn opt_view(s: Option<String>) -> Option<Seq<char>> {
    match s {
        Some(x) => Some(x@),
        None => None,
    }
}

/// The string member `key`, or the empty string.
fn text_or_empty(members: &Vec<JsonMember>, key: &str) -> (r: String)
    ensures
        r@ == text_or(members_view(members@), key@, Seq::empty()),
{
    match text_member(members, key) {
        Some(s) => s,
        None => String::new(),
    }
}

/// The subtitle that the members of a payload carry (see [`subtitle_spec`]).
pub fn subtitle_from_members(members: &Vec<JsonMember>) -> (r: Option<SubtitleEntry>)
    ensures
        opt_entry_view(r) == subtitle_spec(members_view(members@)),
{
    let original = text_or_empty(members, "original");
    let translated = text_or_empty(members, "translated");
    if original.as_str().is_empty() && translated.as_str().is_empty() {
        return None;
    }
    let timestamp = text_or_empty(members, "timestamp");
    Some(SubtitleEntry { timestamp, original, translated })
}

/// The subtitle that the JSON payload `data` carries, if it is JSON and carries one.
pub fn parse_subtitle(data: &str) -> (r: Option<SubtitleEntry>)
    ensures
        opt_entry_view(r) == parsed_subtitle_spec(data@),
{
    match parse_json(data) {
        Some(members) => subtitle_from_members(&members),
        None => None,
    }
}

/// The task named by an active-task answer: its `task_id` string, trimmed, when
/// `success` is `true` and the id is neither empty nor `null`.
pub open spec fn active_task_spec(doc: DocView) -> Option<Seq<char>> {
    let id = trim(text_or(doc, "task_id"@, Seq::empty()));
    if member_flag(doc, "success"@) != Some(true) {
        None
    } else if id.len() == 0 || id == "null"@ {
        None
    } else {
        Some(id)
    }
}

/// The task named by the members of an active-task answer (see [`active_task_spec`]).
pub fn active_task_from_members(members: &Vec<JsonMember>) -> (r: Option<String>)
    ensures
        opt_view(r) == active_task_spec(members_view(members@)),
{
    let success = flag_member(members, "success");
    let raw = text_or_empty(members, "task_id");
    let id = trimmed(&chars_of(raw.as_str()));
    match success {
        Some(true) => {},
        _ => return None,
    }
    if id.len() == 0 || same_chars(&id, &chars_of("null")) {
        None
    } else {
        Some(string_of(&id))
    }
}

/// The body of an active-task answer is not JSON.
#[derive(Debug, PartialEq, Eq)]
pub struct NotJson;

/// The task named by the active-task answer `body`; an error when `body` is not JSON.
pub fn active_task_from_body(body: &str) -> (r: Result<Option<String>, NotJson>)
    ensures
        match json_document(body@) {
            None => r is Err,
            Some(doc) => r is Ok && opt_view(r->Ok_0) == active_task_spec(doc),
        },
{
    match parse_json(body) {
        Some(members) => Ok(active_task_from_members(&members)),
        None => Err(NotJson),
    }
}

/// What to do with one dispatched event.
#[derive(Debug, PartialEq, Eq)]
pub enum EventAction {
    /// Take this subtitle into the buffer.
    AddSubtitle(SubtitleEntry),
    /// Record and show this error.
    ReportError(String),
    /// Forward the status payload and log this status value.
    Status(String),
    /// Nothing to do.
    Ignore,
}

/// An action as a value.
pub ghost enum ActionView {
    AddSubtitle(EntryView),
    ReportError(Seq<char>),
    Status(Seq<char>),
    Ignore,
}

/// An action as a value.
pub open spec fn action_view(a: EventAction) -> ActionView {
    match a {
        EventAction::AddSubtitle(e) => ActionView::AddSubtitle(entry_view(e)),
        EventAction::ReportError(m) => ActionView::ReportError(m@),
        EventAction::Status(s) => ActionView::Status(s@),
        EventAction::Ignore => ActionView::Ignore,
    }
}

/// Message recorded when a `subtitle` event carries no subtitle.
pub open spec fn subtitle_parse_failure_spec() -> Seq<char> {
    "解析字幕事件失敗"@
}

/// Message recorded when an `error` event names no message.
pub open spec fn unknown_error_spec() -> Seq<char> {
    "未知錯誤"@
}

/// What an event named `event` with payload `data` calls for:
/// - `subtitle`: add its subtitle, or report that it carried none;
/// - `status`: when the payload is JSON, log its `status` string (`unknown` if none);
/// - `error`: report its `message` string, or an unknown error;
/// - any other name: add its subtitle if it carries one.
pub open spec fn event_action_spec(event: Seq<char>, data: Seq<char>) -> ActionView {
    if event == "subtitle"@ {
        match parsed_subtitle_spec(data) {
            Some(e) => ActionView::AddSubtitle(e),
            None => ActionView::ReportError(subtitle_parse_failure_spec()),
        }
    } else if event == "status"@ {
        match json_document(data) {
            Some(doc) => ActionView::Status(text_or(doc, "status"@, "unknown"@)),
            None => ActionView::Ignore,
        }
    } else if event == "error"@ {
        match json_document(data) {
            Some(doc) => ActionView::ReportError(text_or(doc, "message"@, unknown_error_spec())),
            None => ActionView::ReportError(unknown_error_spec()),
        }
    } else {
        match parsed_subtitle_spec(data) {
            Some(e) => ActionView::AddSubtitle(e),
            None => ActionView::Ignore,
        }
    }
}

/// Decides what an event calls for (see [`event_action_spec`]).
pub fn event_action(event: &str, data: &str) -> (r: EventAction)
    ensures
        action_view(r) == event_action_spec(event@, data@),
{
    let name = chars_of(event);
    if same_chars(&name, &chars_of("subtitle")) {
        match parse_subtitle(data) {
            Some(e) => EventAction::AddSubtitle(e),
            None => EventAction::ReportError(String::from_str("解析字幕事件失敗")),
        }
    } else if same_chars(&name, &chars_of("status")) {
        match parse_json(data) {
            Some(members) => {
                let status = match text_member(&members, "status") {
                    Some(s) => s,
                    None => String::from_str("unknown"),
                };
                EventAction::Status(status)
            },
            None => EventAction::Ignore,
        }
    } else if same_chars(&name, &chars_of("error")) {
        match parse_json(data) {
            Some(members) => match text_member(&members, "message") {
                Some(m) => EventAction::ReportError(m),
                None => EventAction::ReportError(String::from_str("未知錯誤")),
            },
            None => EventAction::ReportError(String::from_str("未知錯誤")),
        }
    } else {
        match parse_subtitle(data) {
            Some(e) => EventAction::AddSubtitle(e),
            None => EventAction::Ignore,
        }
    }
}

/// The log line for a status event.
pub fn status_log_message(status: &str) -> (r: String)
    ensures
        r@ == "[狀態] status="@ + status@,
{
    let mut line = String::from_str("[狀態] status=");
    line.append(status);
    line
}

/// The path of the event stream of task `task_id`.
pub fn stream_path(task_id: &str) -> (r: String)
    ensures
        r@ == "/api/translation/stream/"@ + task_id@,
{
    let mut path = String::from_str("/api/translation/stream/");
    path.append(task_id);
    path
}

/// The character of decimal digit `d`.
pub open spec fn digit_char(d: int) -> char {
    if d == 0 {
        '0'
    } else if d == 1 {
        '1'
    } else if d == 2 {
        '2'
    } else if d == 3 {
        '3'
    } else if d == 4 {
        '4'
    } else if d == 5 {
        '5'
    } else if d == 6 {
        '6'
    } else if d == 7 {
        '7'
    } else if d == 8 {
        '8'
    } else {
        '9'
    }
}

/// `n` written in decimal, without leading zeros.
pub open spec fn decimal(n: nat) -> Seq<char>
    decreases n,
{
    if n < 10 {
        seq![digit_char(n as int)]
    } else {
        decimal(n / 10).push(digit_char((n % 10) as int))
    }
}

/// The number that the decimal digits `s` spell.
pub open spec fn decimal_value(s: Seq<char>) -> int
    decreases s.len(),
{
    if s.len() == 0 {
        0
    } else {
        decimal_value(s.drop_last()) * 10 + (s.last() as u32 - '0' as u32)
    }
}

/// The decimal spelling of `n` is made of the digits `0` to `9` only, reads back
/// as `n`, and starts with `0` only for zero itself.
pub proof fn law_decimal_reads_back(n: nat)
    ensures
        decimal(n).len() > 0,
        forall|i: int| 0 <= i < decimal(n).len() ==> '0' <= #[trigger] decimal(n)[i] <= '9',
        decimal_value(decimal(n)) == n,
        decimal(n)[0] == '0' ==> n == 0,
    decreases n,
{
    lemma_digit_char_value((n % 10) as int);
    if n < 10 {
        let d = decimal(n);
        assert(d.drop_last() =~= Seq::<char>::empty());
        assert(decimal_value(d.drop_last()) == 0);
        assert(d.last() == digit_char(n as int));
    } else {
        law_decimal_reads_back(n / 10);
        let d = decimal(n);
        assert(d.drop_last() =~= decimal(n / 10));
        assert(d[0] == decimal(n / 10)[0]);
        assert forall|i: int| 0 <= i < d.len() implies '0' <= #[trigger] d[i] <= '9' by {
            if i < d.len() - 1 {
                assert(d[i] == decimal(n / 10)[i]);
            }
        }
        assert(d.last() == digit_char((n % 10) as int));
        assert(n == (n / 10) * 10 + n % 10);
    }
}

proof fn lemma_digit_char_value(d: int)
    requires
        0 <= d < 10,
    ensures
        '0' <= digit_char(d) <= '9',
        digit_char(d) as u32 - '0' as u32 == d,
{
}

fn digit(d: u16) -> (c: char)
    requires
        d < 10,
    ensures
        c == digit_char(d as int),
{
    if d == 0 {
        '0'
    } else if d == 1 {
        '1'
    } else if d == 2 {
        '2'
    } else if d == 3 {
        '3'
    } else if d == 4 {
        '4'
    } else if d == 5 {
        '5'
    } else if d == 6 {
        '6'
    } else if d == 7 {
        '7'
    } else if d == 8 {
        '8'
    } else {
        '9'
    }
}

fn push_decimal(out: &mut Vec<char>, n: u16)
    ensures
        final(out)@ == old(out)@ + decimal(n as nat),
    decreases n,
{
    if n >= 10 {
        push_decimal(out, n / 10);
        out.push(digit(n % 10));
        assert(old(out)@ + decimal((n / 10) as nat) + seq![digit_char((n % 10) as int)]
            =~= old(out)@ + decimal(n as nat));
    } else {
        out.push(digit(n));
        assert(old(out)@.push(digit_char(n as int)) =~= old(out)@ + decimal(n as nat));
    }
}

/// An HTTP status in the success range, 200 to 299.
pub open spec fn is_success_status(code: u16) -> bool {
    200 <= code < 300
}

/// Whether an active-task answer with this HTTP status is read at all; any other
/// status means no task is active.
pub fn task_lookup_proceeds(code: u16) -> (r: bool)
    ensures
        r == is_success_status(code),
{
    200 <= code && code < 300
}

/// The error for an event-stream answer with this HTTP status: none for a
/// success status, otherwise `SSE 連線失敗: HTTP ` and the status in decimal.
pub fn stream_status_error(code: u16) -> (r: Option<String>)
    ensures
        is_success_status(code) ==> r is None,
        !is_success_status(code) ==> (r matches Some(m) && m@ == "SSE 連線失敗: HTTP "@ + decimal(
            code as nat,
        )),
{
    if 200 <= code && code < 300 {
        return None;
    }
    let mut digits: Vec<char> = Vec::new();
    push_decimal(&mut digits, code);
    assert(digits@ =~= decimal(code as nat));
    let mut m = String::from_str("SSE 連線失敗: HTTP ");
    m.append(string_of(&digits).as_str());
    Some(m)
}

} // verus!
