use subtitle_overlay_desktop::endpoint::{active_task_path, endpoint};
use subtitle_overlay_desktop::events::{
    active_task_from_body, event_action, parse_subtitle, status_log_message, stream_path,
    stream_status_error, subtitle_from_members, task_lookup_proceeds, EventAction, NotJson,
};
use subtitle_overlay_desktop::json::{JsonMember, JsonValue};
use subtitle_overlay_desktop::model::{RuntimeState, SubtitleEntry};
use subtitle_overlay_desktop::runtime::{
    connection_label, log_line, subtitle_log_message, LookupStep, StreamLoop, TaskLookup,
    MAX_LOG_LINES,
};
use subtitle_overlay_desktop::sse::{SseDecoder, SseMessage};
use subtitle_overlay_desktop::subtitles::add_subtitle;

fn entry(timestamp: &str, original: &str, translated: &str) -> SubtitleEntry {
    SubtitleEntry::new(timestamp, original, translated)
}

fn message(event: &str, data: &str) -> SseMessage {
    SseMessage { event: event.to_string(), data: data.to_string() }
}

#[test]
fn sse_dispatches_on_blank_line() {
    let mut d = SseDecoder::new();
    let text = ": comment\nevent: subtitle\ndata: {\"a\":1}\ndata:  second \r\n\r\nevent: x\n\n";
    let msgs = d.feed_text(text);
    assert_eq!(msgs, vec![message("subtitle", "{\"a\":1}\nsecond")]);
    // A blank line with no data dispatches nothing; the event name stays.
    let msgs = d.feed_text("data: y\n\n");
    assert_eq!(msgs, vec![message("x", "y")]);
}

#[test]
fn sse_chunking_does_not_matter() {
    let text = "event: status\ndata: {\"status\":\"ok\"}\n\ndata: 1\r\ndata: 2\n\nignored line\n";
    let mut whole = SseDecoder::new();
    let all = whole.feed_text(text);
    for cut in 0..=text.len() {
        if !text.is_char_boundary(cut) {
            continue;
        }
        let mut d = SseDecoder::new();
        let mut got = d.feed_text(&text[..cut]);
        got.extend(d.feed_text(&text[cut..]));
        assert_eq!(got, all, "cut at {cut}");
    }
    assert_eq!(all.len(), 2);
}

#[test]
fn sse_bytes_are_decoded_lossily_per_chunk() {
    let mut d = SseDecoder::new();
    let msgs = d.feed(b"data: \xff ok\n\n");
    assert_eq!(msgs, vec![message("", "\u{fffd} ok")]);
}

#[test]
fn subtitle_payloads() {
    assert_eq!(parse_subtitle("not json"), None);
    assert_eq!(parse_subtitle("[1,2]"), None);
    assert_eq!(parse_subtitle(r#"{"original":"","translated":""}"#), None);
    assert_eq!(
        parse_subtitle(r#"{"original":5,"translated":"t"}"#),
        Some(entry("", "", "t"))
    );
    assert_eq!(
        parse_subtitle(r#"{"timestamp":3,"original":"o"}"#),
        Some(entry("", "o", ""))
    );
    let members = vec![
        JsonMember { key: "original".to_string(), value: JsonValue::Text("o".to_string()) },
        JsonMember { key: "timestamp".to_string(), value: JsonValue::Flag(true) },
    ];
    assert_eq!(subtitle_from_members(&members), Some(entry("", "o", "")));
}

#[test]
fn event_actions() {
    let data = r#"{"timestamp":"1","original":"a","translated":"b"}"#;
    assert_eq!(event_action("subtitle", data), EventAction::AddSubtitle(entry("1", "a", "b")));
    assert_eq!(event_action("", data), EventAction::AddSubtitle(entry("1", "a", "b")));
    assert_eq!(
        event_action("subtitle", "{}"),
        EventAction::ReportError("解析字幕事件失敗".to_string())
    );
    assert_eq!(event_action("other", "{}"), EventAction::Ignore);
    assert_eq!(event_action("status", r#"{"status":"running"}"#), EventAction::Status("running".to_string()));
    assert_eq!(event_action("status", r#"{"x":1}"#), EventAction::Status("unknown".to_string()));
    assert_eq!(event_action("status", "oops"), EventAction::Ignore);
    assert_eq!(event_action("error", r#"{"message":"boom"}"#), EventAction::ReportError("boom".to_string()));
    assert_eq!(event_action("error", "oops"), EventAction::ReportError("未知錯誤".to_string()));
    assert_eq!(status_log_message("ok"), "[狀態] status=ok");
}

#[test]
fn active_task_answers() {
    assert_eq!(active_task_from_body(r#"{"success":true,"task_id":" t1 "}"#), Ok(Some("t1".to_string())));
    assert_eq!(active_task_from_body(r#"{"success":true,"task_id":"null"}"#), Ok(None));
    assert_eq!(active_task_from_body(r#"{"success":true,"task_id":"  "}"#), Ok(None));
    assert_eq!(active_task_from_body(r#"{"success":"true","task_id":"t"}"#), Ok(None));
    assert_eq!(active_task_from_body(r#"{"success":false,"task_id":"t"}"#), Ok(None));
    assert_eq!(active_task_from_body("<html>"), Err(NotJson));
}

#[test]
fn endpoints() {
    assert_eq!(
        endpoint(" 192.168.1.100:8765/ ", &active_task_path()),
        Ok("http://192.168.1.100:8765/api/translation/active-task".to_string())
    );
    assert_eq!(
        endpoint("https://h.example/base/", &stream_path("t 1")),
        Ok("https://h.example/api/translation/stream/t%201".to_string())
    );
    let err = endpoint("http://[::1", "/x").unwrap_err();
    assert!(err.starts_with("伺服器位址無效: "), "{err}");
}

#[test]
fn subtitle_buffer_keeps_newest() {
    let mut entries = Vec::new();
    for i in 0..5 {
        let ts = i.to_string();
        assert!(!add_subtitle(&mut entries, entry(&ts, &format!("o{i}"), "t"), 3));
    }
    let stamps: Vec<_> = entries.iter().map(|e| e.timestamp.clone()).collect();
    assert_eq!(stamps, vec!["2", "3", "4"]);
    // A revision replaces in place and keeps the length.
    assert!(add_subtitle(&mut entries, entry("3", "o3", "new"), 3));
    assert_eq!(entries[1].translated, "new");
    assert_eq!(entries.len(), 3);
    // The same subtitle twice leaves the buffer as once did.
    let before = entries.clone();
    assert!(add_subtitle(&mut entries, entry("3", "o3", "new"), 3));
    assert_eq!(entries, before);
    // Nothing kept at all.
    let mut none = Vec::new();
    add_subtitle(&mut none, entry("", "a", ""), 0);
    assert!(none.is_empty());
}

#[test]
fn latest_timestamp_match_wins() {
    let mut entries = vec![entry("1", "a", "x"), entry("1", "b", "y"), entry("2", "c", "z")];
    assert!(add_subtitle(&mut entries, entry("1", "q", "r"), 10));
    assert_eq!(entries[0].translated, "x");
    assert_eq!(entries[1], entry("1", "q", "r"));
    // No match: appended.
    assert!(!add_subtitle(&mut entries, entry("", "", "t"), 10));
    assert_eq!(entries.len(), 4);
}

#[test]
fn runtime_state_transitions_and_log() {
    let mut r = RuntimeState::default();
    r.begin_stream();
    assert!(r.running);
    assert_eq!(r.connection_state, "connecting");
    assert_eq!(r.set_connection_state("reconnecting"), "[連線] 重新連線中...");
    assert_eq!(r.set_connection_state("weird"), "[連線] weird");
    assert_eq!(r.record_error("bad"), "[錯誤] bad");
    assert_eq!(r.last_error.as_deref(), Some("bad"));
    r.end_stream();
    assert!(!r.running);
    assert_eq!(r.connection_state, "disconnected");
    for i in 0..(MAX_LOG_LINES + 5) {
        let line = r.push_log(&format!("m{i}"));
        let b = line.as_bytes();
        assert_eq!(b[0], b'[');
        assert_eq!(&line[9..], format!("] m{i}"));
        assert!(line[1..9].chars().enumerate().all(|(k, c)| if k == 2 || k == 5 { c == ':' } else { c.is_ascii_digit() }));
    }
    assert_eq!(r.logs.len(), MAX_LOG_LINES);
    assert!(r.logs[0].ends_with("] m5"));
    assert_eq!(log_line("01:02:03", "x"), "[01:02:03] x");
    assert_eq!(connection_label("connected"), "已連線");
    assert_eq!(
        subtitle_log_message(&entry("t", "o", "tr"), true),
        "[字幕/更新] ts=t | o | tr"
    );
}

#[test]
fn retry_backoff() {
    let mut l = StreamLoop::new();
    let mut waits = Vec::new();
    for _ in 0..7 {
        waits.push(l.before_retry(true).unwrap());
    }
    assert_eq!(waits, vec![1, 2, 4, 8, 16, 30, 30]);
    assert_eq!(l.before_retry(false), None);
    assert_eq!(l.after_lookup(TaskLookup::Found("t".to_string())), LookupStep::Connect("t".to_string()));
    assert_eq!(l.retry_secs(), 1);
    assert_eq!(
        l.after_lookup(TaskLookup::NoTask),
        LookupStep::Report("沒有進行中的翻譯任務".to_string())
    );
    assert_eq!(
        l.after_lookup(TaskLookup::Failed("timeout".to_string())),
        LookupStep::Report("連線錯誤: timeout".to_string())
    );
}

#[test]
fn ping_events_are_ignored() {
    assert_eq!(event_action("ping", ""), EventAction::Ignore);
    assert_eq!(event_action("ping", "{}"), EventAction::Ignore);
    let mut d = SseDecoder::new();
    let msgs = d.feed_text("event: ping\ndata: {}\n\n");
    assert_eq!(msgs, vec![message("ping", "{}")]);
    assert_eq!(event_action(&msgs[0].event, &msgs[0].data), EventAction::Ignore);
}

#[test]
fn http_status_decisions() {
    assert!(task_lookup_proceeds(200));
    assert!(task_lookup_proceeds(299));
    assert!(!task_lookup_proceeds(199));
    assert!(!task_lookup_proceeds(404));
    assert_eq!(stream_status_error(204), None);
    assert_eq!(stream_status_error(404), Some("SSE 連線失敗: HTTP 404".to_string()));
    assert_eq!(stream_status_error(0), Some("SSE 連線失敗: HTTP 0".to_string()));
    assert_eq!(stream_status_error(65535), Some("SSE 連線失敗: HTTP 65535".to_string()));
    assert_eq!(stream_status_error(1000), Some("SSE 連線失敗: HTTP 1000".to_string()));
}
