//! The runtime state and the decisions of the stream loop: connection states and
//! their log lines, errors, the capped log, settings changes, and the back-off
//! between reconnection attempts.
use vstd::prelude::*;
use vstd::string::StringExecFns;
use crate::model::{OverlayBounds, RuntimeState, Settings, SubtitleEntry};
use crate::settings::{normalize_settings, settings_normalized};
use crate::subtitles::{add_subtitle, newest, retain_newest, revision_target, with_subtitle};
use crate::text::{chars_of, same_chars};

verus! {

/// Most log lines kept.
pub const MAX_LOG_LINES: usize = 200;

/// The label logged for a connection state.
pub open spec fn connection_label_spec(state: Seq<char>) -> Seq<char> {
    if state == "connecting"@ {
        "連線中..."@
    } else if state == "connected"@ {
        "已連線"@
    } else if state == "reconnecting"@ {
        "重新連線中..."@
    } else if state == "disconnected"@ {
        "已斷線"@
    } else {
        state
    }
}

/// The label logged for a connection state (see [`connection_label_spec`]).
pub fn connection_label(state: &str) -> (r: String)
    ensures
        r@ == connection_label_spec(state@),
{
    let s = chars_of(state);
    if same_chars(&s, &chars_of("connecting")) {
        String::from_str("連線中...")
    } else if same_chars(&s, &chars_of("connected")) {
        String::from_str("已連線")
    } else if same_chars(&s, &chars_of("reconnecting")) {
        String::from_str("重新連線中...")
    } else if same_chars(&s, &chars_of("disconnected")) {
        String::from_str("已斷線")
    } else {
        String::from_str(state)
    }
}

/// `s` is a clock reading `HH:MM:SS`: eight characters, digits but for the colons.
pub open spec fn clock_shaped(s: Seq<char>) -> bool {
    &&& s.len() == 8
    &&& s[2] == ':' && s[5] == ':'
    &&& forall|i: int|
        0 <= i < 8 && i != 2 && i != 5 ==> '0' <= #[trigger] s[i] && s[i] <= '9'
}

/// Reads the local time with `chrono::Local::now` and formats it with
/// `"%H:%M:%S"`. Which time it is, nothing states; chrono documents the shape:
/// zero-padded two-digit hour, minute and second, separated by colons.
#[verifier::external_body]
fn clock_time() -> (t: String)
    ensures
        clock_shaped(t@),
{
    chrono::Local::now().format("%H:%M:%S").to_string()
}

/// A log line: the clock reading in brackets, a space, the message.
pub open spec fn log_line_spec(clock: Seq<char>, message: Seq<char>) -> Seq<char> {
    "["@ + clock + "] "@ + message
}

/// The log line for a message logged at `clock`.
pub fn log_line(clock: &str, message: &str) -> (r: String)
    ensures
        r@ == log_line_spec(clock@, message@),
{
    let mut line = String::from_str("[");
    line.append(clock);
    line.append("] ");
    line.append(message);
    line
}

/// The message that goes with a failed connection.
pub fn connection_error_message(err: &str) -> (r: String)
    ensures
        r@ == "連線錯誤: "@ + err@,
{
    let mut m = String::from_str("連線錯誤: ");
    m.append(err);
    m
}

impl RuntimeState {
    /// Marks the stream as started and connecting, with no error.
    pub fn begin_stream(&mut self)
        ensures
            final(self).running,
            final(self).connection_state@ == "connecting"@,
            final(self).last_error is None,
            final(self).subtitles == old(self).subtitles,
            final(self).logs == old(self).logs,
    {
        self.running = true;
        self.connection_state = String::from_str("connecting");
        self.last_error = None;
    }

    /// Marks the stream as stopped and disconnected.
    pub fn end_stream(&mut self)
        ensures
            !final(self).running,
            final(self).connection_state@ == "disconnected"@,
            final(self).last_error == old(self).last_error,
            final(self).subtitles == old(self).subtitles,
            final(self).logs == old(self).logs,
    {
        self.running = false;
        self.connection_state = String::from_str("disconnected");
    }

    /// Sets the connection state and returns the message to log for it.
    pub fn set_connection_state(&mut self, state: &str) -> (message: String)
        ensures
            final(self).connection_state@ == state@,
            message@ == "[連線] "@ + connection_label_spec(state@),
            final(self).running == old(self).running,
            final(self).last_error == old(self).last_error,
            final(self).subtitles == old(self).subtitles,
            final(self).logs == old(self).logs,
    {
        self.connection_state = String::from_str(state);
        let mut message = String::from_str("[連線] ");
        message.append(connection_label(state).as_str());
        message
    }

    /// Records an error and returns the message to log for it.
    pub fn record_error(&mut self, error: &str) -> (message: String)
        ensures
            final(self).last_error matches Some(e) && e@ == error@,
            message@ == "[錯誤] "@ + error@,
            final(self).running == old(self).running,
            final(self).connection_state == old(self).connection_state,
            final(self).subtitles == old(self).subtitles,
            final(self).logs == old(self).logs,
    {
        self.last_error = Some(String::from_str(error));
        let mut message = String::from_str("[錯誤] ");
        message.append(error);
        message
    }

    /// Appends `line` to the log, keeping the newest 200 lines.
    pub fn append_log(&mut self, line: String)
        ensures
            final(self).logs@ == newest(old(self).logs@.push(line), MAX_LOG_LINES as nat),
            final(self).running == old(self).running,
            final(self).connection_state == old(self).connection_state,
            final(self).last_error == old(self).last_error,
            final(self).subtitles == old(self).subtitles,
    {
        self.logs.push(line);
        retain_newest(&mut self.logs, MAX_LOG_LINES);
    }

    /// Logs `message` stamped with the local time and returns the line logged.
    pub fn push_log(&mut self, message: &str) -> (line: String)
        ensures
            exists|clock: Seq<char>| clock_shaped(clock) && line@ == log_line_spec(clock, message@),
            final(self).logs@ == newest(old(self).logs@.push(line), MAX_LOG_LINES as nat),
            final(self).running == old(self).running,
            final(self).connection_state == old(self).connection_state,
            final(self).last_error == old(self).last_error,
            final(self).subtitles == old(self).subtitles,
    {
        let clock = clock_time();
        let line = log_line(clock.as_str(), message);
        self.append_log(line.clone());
        line
    }

    /// Takes a subtitle into the buffer (see [`with_subtitle`]); tells whether it
    /// revised an entry already shown.
    pub fn add_subtitle(&mut self, entry: SubtitleEntry, max_count: usize) -> (updated: bool)
        ensures
            updated == revision_target(old(self).subtitles@, entry) is Some,
            final(self).subtitles@ == with_subtitle(old(self).subtitles@, entry, max_count as nat),
            final(self).running == old(self).running,
            final(self).connection_state == old(self).connection_state,
            final(self).last_error == old(self).last_error,
            final(self).logs == old(self).logs,
    {
        add_subtitle(&mut self.subtitles, entry, max_count)
    }
}

/// The log message for a subtitle taken in: whether it was new or a revision,
/// then its time stamp and texts.
pub fn subtitle_log_message(entry: &SubtitleEntry, updated: bool) -> (r: String)
    ensures
        r@ == "[字幕/"@ + (if updated {
            "更新"@
        } else {
            "新增"@
        }) + "] ts="@ + entry.timestamp@ + " | "@ + entry.original@ + " | "@ + entry.translated@,
{
    let mut m = String::from_str("[字幕/");
    if updated {
        m.append("更新");
    } else {
        m.append("新增");
    }
    m.append("] ts=");
    m.append(entry.timestamp.as_str());
    m.append(" | ");
    m.append(entry.original.as_str());
    m.append(" | ");
    m.append(entry.translated.as_str());
    m
}

/// Saves new settings: they are normalised; the overlay bounds stay as they were
/// when `keep_bounds` (an overlay that tracks its own bounds is showing); the
/// subtitle buffer is cut to the new limit.
pub fn apply_settings(
    current: &mut Settings,
    runtime: &mut RuntimeState,
    new_settings: Settings,
    keep_bounds: bool,
)
    ensures
        ({
            let n = *final(current);
            exists|s: Settings|
                settings_normalized(new_settings, s) && n == (Settings {
                    overlay_bounds: if keep_bounds {
                        old(current).overlay_bounds
                    } else {
                        s.overlay_bounds
                    },
                    ..s
                })
        }),
        final(runtime).subtitles@ == newest(
            old(runtime).subtitles@,
            final(current).max_subtitle_count as nat,
        ),
        final(runtime).running == old(runtime).running,
        final(runtime).connection_state == old(runtime).connection_state,
        final(runtime).last_error == old(runtime).last_error,
        final(runtime).logs == old(runtime).logs,
{
    let mut settings = new_settings;
    normalize_settings(&mut settings);
    let ghost normalized = settings;
    if keep_bounds {
        settings.overlay_bounds = current.overlay_bounds;
    }
    *current = settings;
    retain_newest(&mut runtime.subtitles, current.max_subtitle_count);
    assert(settings_normalized(new_settings, normalized));
}

/// Saves bounds that the overlay reported.
pub fn apply_overlay_bounds(current: &mut Settings, bounds: OverlayBounds)
    ensures
        *final(current) == (Settings { overlay_bounds: bounds, ..*old(current) }),
{
    current.overlay_bounds = bounds;
}

/// First wait before reconnecting, in seconds.
pub const INITIAL_RETRY_SECS: u64 = 1;

/// Longest wait before reconnecting, in seconds.
pub const MAX_RETRY_SECS: u64 = 30;

/// What the server said when asked for its active task.
#[derive(Debug, PartialEq, Eq)]
pub enum TaskLookup {
    /// A task is running, with this id.
    Found(String),
    /// No task is running.
    NoTask,
    /// The question failed, with this error text.
    Failed(String),
}

/// What the stream loop does after asking for the active task.
#[derive(Debug, PartialEq, Eq)]
pub enum LookupStep {
    /// Connect to the event stream of the task with this id.
    Connect(String),
    /// Report this error.
    Report(String),
}

/// The back-off of the stream loop: the wait before the next reconnection.
pub struct StreamLoop {
    retry_secs: u64,
}

impl View for StreamLoop {
    type V = u64;

    closed spec fn view(&self) -> u64 {
        self.retry_secs
    }
}

/// The wait after `d`: doubled, at most 30 seconds.
pub open spec fn next_retry_spec(d: u64) -> u64 {
    if 2 * d > MAX_RETRY_SECS {
        MAX_RETRY_SECS
    } else {
        (2 * d) as u64
    }
}

impl StreamLoop {
    /// The wait lies between one and thirty seconds.
    pub open spec fn wf(&self) -> bool {
        INITIAL_RETRY_SECS <= self@ <= MAX_RETRY_SECS
    }

    /// A loop that has not yet waited.
    pub fn new() -> (l: Self)
        ensures
            l@ == INITIAL_RETRY_SECS,
            l.wf(),
    {
        StreamLoop { retry_secs: INITIAL_RETRY_SECS }
    }

    /// The current wait, in seconds.
    pub fn retry_secs(&self) -> (r: u64)
        ensures
            r == self@,
    {
        self.retry_secs
    }

    /// Decides what follows an active-task answer: a found task resets the wait
    /// and is connected to; otherwise the matching error is reported.
    pub fn after_lookup(&mut self, lookup: TaskLookup) -> (step: LookupStep)
        requires
            old(self).wf(),
        ensures
            final(self).wf(),
            match lookup {
                TaskLookup::Found(id) => final(self)@ == INITIAL_RETRY_SECS && step == LookupStep::Connect(id),
                TaskLookup::NoTask => final(self)@ == old(self)@ && (step matches LookupStep::Report(
                    m,
                ) && m@ == "沒有進行中的翻譯任務"@),
                TaskLookup::Failed(e) => final(self)@ == old(self)@ && (step matches LookupStep::Report(
                    m,
                ) && m@ == "連線錯誤: "@ + e@),
            },
    {
        match lookup {
            TaskLookup::Found(id) => {
                self.retry_secs = INITIAL_RETRY_SECS;
                LookupStep::Connect(id)
            },
            TaskLookup::NoTask => LookupStep::Report(String::from_str("沒有進行中的翻譯任務")),
            TaskLookup::Failed(e) => LookupStep::Report(connection_error_message(e.as_str())),
        }
    }

    /// Decides what follows an attempt: stop when the stream is no longer running;
    /// otherwise wait the current time, and double the next wait (at most 30 s).
    pub fn before_retry(&mut self, running: bool) -> (wait: Option<u64>)
        requires
            old(self).wf(),
        ensures
            final(self).wf(),
            running ==> wait == Some(old(self)@) && final(self)@ == next_retry_spec(old(self)@),
            !running ==> wait is None && final(self)@ == old(self)@,
    {
        if !running {
            return None;
        }
        let wait = self.retry_secs;
        self.retry_secs = if wait > MAX_RETRY_SECS / 2 {
            MAX_RETRY_SECS
        } else {
            wait * 2
        };
        Some(wait)
    }
}

/// Waits never fall below a second or exceed thirty, and never shrink until a
/// task is found again.
pub proof fn law_retry_waits_grow_to_cap(d: u64)
    requires
        INITIAL_RETRY_SECS <= d <= MAX_RETRY_SECS,
    ensures
        INITIAL_RETRY_SECS <= next_retry_spec(d) <= MAX_RETRY_SECS,
        d <= next_retry_spec(d),
        d == MAX_RETRY_SECS ==> next_retry_spec(d) == MAX_RETRY_SECS,
        2 * d <= MAX_RETRY_SECS ==> next_retry_spec(d) == 2 * d,
        2 * d > MAX_RETRY_SECS ==> next_retry_spec(d) == MAX_RETRY_SECS,
{
}

/// The wait before the `k`-th reconnection of a loop that has found no task since
/// it started (the first is `k == 0`).
pub open spec fn wait_after(k: nat) -> u64
    decreases k,
{
    if k == 0 {
        INITIAL_RETRY_SECS
    } else {
        next_retry_spec(wait_after((k - 1) as nat))
    }
}

/// A loop that keeps failing waits 1, 2, 4, 8 and 16 seconds, then 30 seconds
/// every time after.
pub proof fn law_retry_schedule(k: nat)
    ensures
        wait_after(k) == if k == 0 {
            1
        } else if k == 1 {
            2
        } else if k == 2 {
            4
        } else if k == 3 {
            8
        } else if k == 4 {
            16
        } else {
            30u64
        },
    decreases k,
{
    if k > 0 {
        law_retry_schedule((k - 1) as nat);
    }
}

} // verus!
