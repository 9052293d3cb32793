//! The messages that the scanner sends to the interface: log events with
//! their severity and kind, progress of the initialisation, completion.

use vstd::prelude::*;

use crate::text::{decimal, push_decimal, two_digits};
use crate::text::chars_of;
use crate::util::{
    lemma_text_le_antisymmetric, lemma_text_le_reflexive, lemma_text_le_transitive, text_le,
    text_le_exec,
};

verus! {

/// Severity of a log entry, from most to least severe.
#[derive(Clone, Copy, Debug, PartialEq, Eq, Structural)]
pub enum LogLevel {
    Alert,
    Error,
    Warning,
    Notice,
    Info,
    Debug,
}

/// What a log event reports.
#[derive(Clone, Copy, Debug, PartialEq, Eq, Structural)]
pub enum EventType {
    /// A file matched a signature or an indicator.
    FileMatch,
    /// A running process matched.
    ProcessMatch,
    /// The scan ended.
    ScanEnd,
    /// Any other message.
    Message,
}

/// Earliest second that a UTC date-time can hold.
pub const MIN_UTC_SECONDS: i64 = -8334601228800i64;

/// Latest second that a UTC date-time can hold.
pub const MAX_UTC_SECONDS: i64 = 8210266876799i64;

/// The `HH:MM:SS` wall-clock time of the second `secs` since the Unix
/// epoch, in UTC.
pub open spec fn hms_of(secs: int) -> Seq<char> {
    let day_second = secs % 86400;
    two_digits((day_second / 3600) as nat) + ":"@ + two_digits(((day_second % 3600) / 60) as nat)
        + ":"@ + two_digits((day_second % 60) as nat)
}

/// `chrono::DateTime::<Utc>::from_timestamp(secs, 0)` formatted with
/// `"%H:%M:%S"`: hour, minute and second of the day, each on two digits.
/// `from_timestamp` gives a date-time for every second from
/// `MIN_UTC_SECONDS` to `MAX_UTC_SECONDS`, which `requires` asks for.
#[verifier::external_body]
fn chrono_hms(secs: i64) -> (s: String)
    requires
        MIN_UTC_SECONDS <= secs <= MAX_UTC_SECONDS,
    ensures
        s@ == hms_of(secs as int),
{
    chrono::DateTime::from_timestamp(secs, 0).map(|t| t.format("%H:%M:%S").to_string()).unwrap_or_default()
}

/// A second of UTC time, within the range that a date-time can hold.
#[derive(Clone, Copy, Debug, PartialEq, Eq)]
pub struct UtcTimestamp {
    secs: i64,
}

impl UtcTimestamp {
    #[verifier::type_invariant]
    spec fn in_range(self) -> bool {
        MIN_UTC_SECONDS <= self.secs <= MAX_UTC_SECONDS
    }

    /// Seconds since the Unix epoch.
    pub closed spec fn seconds(self) -> int {
        self.secs as int
    }

    /// The timestamp of `secs` seconds since the Unix epoch, when a UTC
    /// date-time can hold it.
    pub fn from_unix_seconds(secs: i64) -> (t: Option<UtcTimestamp>)
        ensures
            t is Some <==> MIN_UTC_SECONDS <= secs <= MAX_UTC_SECONDS,
            t matches Some(t) ==> t.seconds() == secs,
    {
        if MIN_UTC_SECONDS <= secs && secs <= MAX_UTC_SECONDS {
            Some(UtcTimestamp { secs })
        } else {
            None
        }
    }

    /// Seconds since the Unix epoch.
    pub fn unix_seconds(&self) -> (s: i64)
        ensures
            s == self.seconds(),
            MIN_UTC_SECONDS <= s <= MAX_UTC_SECONDS,
    {
        proof {
            use_type_invariant(self);
        }
        self.secs
    }

    /// The time of day as `HH:MM:SS`.
    pub fn hms(&self) -> (s: String)
        ensures
            s@ == hms_of(self.seconds()),
    {
        proof {
            use_type_invariant(self);
        }
        chrono_hms(self.secs)
    }
}

/// One event of the scan log, with what the interface shows of it.
pub struct LogEvent {
    pub timestamp: UtcTimestamp,
    pub level: LogLevel,
    pub event_type: EventType,
    pub message: String,
    /// Key and value pairs, in the order in which they are shown. They come
    /// from a map walked in key order, so the keys are unique and ascending
    /// (`LogEvent::wf`).
    pub context: Vec<(String, String)>,
    pub file_path: Option<String>,
    pub pid: Option<u32>,
    pub process_name: Option<String>,
    /// The score, rounded to a whole number as it is shown.
    pub score: Option<String>,
    /// The messages of the reasons for a match, the first one shown.
    pub reasons: Option<Vec<String>>,
}

/// A message from the scanner to the interface.
pub enum TuiMessage {
    Log(LogEvent),
    ScanComplete,
    InitProgress(String),
    InitComplete { yara_rules_count: usize, ioc_count: usize },
}

/// The text of an optional string, or `default`.
pub open spec fn text_or(o: Option<String>, default: Seq<char>) -> Seq<char> {
    match o {
        Some(s) => s@,
        None => default,
    }
}

/// The first reason of a match, or nothing.
pub open spec fn first_reason(reasons: Option<Vec<String>>) -> Seq<char> {
    match reasons {
        Some(r) => if r@.len() > 0 { r@[0]@ } else { Seq::empty() },
        None => Seq::empty(),
    }
}

/// The context keys are strictly ascending, as a map holds them.
pub open spec fn context_keys_ascending(ctx: Seq<(String, String)>) -> bool {
    forall|i: int, j: int|
        0 <= i < j < ctx.len() ==> text_le(ctx[i].0@, ctx[j].0@) && ctx[i].0@ != ctx[j].0@
}

impl LogEvent {
    /// The event's context is a map: its keys are unique and ascending.
    pub open spec fn wf(self) -> bool {
        context_keys_ascending(self.context@)
    }

    /// Whether the context's keys are unique and ascending (see `wf`).
    pub fn has_map_context(&self) -> (b: bool)
        ensures
            b == self.wf(),
    {
        let n = self.context.len();
        if n == 0 {
            return true;
        }
        let mut k: usize = 1;
        while k < n
            invariant
                1 <= k <= n == self.context@.len(),
                context_keys_ascending(self.context@.take(k as int)),
            decreases n - k,
        {
            let a = chars_of(self.context[k - 1].0.as_str());
            let b = chars_of(self.context[k].0.as_str());
            let le = text_le_exec(&a, &b);
            let ge = text_le_exec(&b, &a);
            let ghost ctx = self.context@;
            if !le || ge {
                proof {
                    if le {
                        lemma_text_le_antisymmetric(a@, b@);
                    }
                    assert(!(text_le(ctx[k - 1].0@, ctx[k as int].0@) && ctx[k - 1].0@ != ctx[k as int].0@));
                }
                return false;
            }
            proof {
                lemma_text_le_reflexive(a@);
                let t = ctx.take(k + 1);
                assert forall|i: int, j: int| 0 <= i < j < t.len() implies text_le(t[i].0@, t[j].0@)
                    && t[i].0@ != t[j].0@ by {
                    if j < k {
                        assert(t[i] == ctx.take(k as int)[i] && t[j] == ctx.take(k as int)[j]);
                    } else if i < k - 1 {
                        assert(t[i] == ctx.take(k as int)[i]);
                        assert(ctx.take(k as int)[k - 1] == ctx[k - 1]);
                        lemma_text_le_transitive(t[i].0@, a@, b@);
                        if t[i].0@ == b@ {
                            lemma_text_le_antisymmetric(a@, b@);
                        }
                    }
                }
            }
            k = k + 1;
        }
        assert(self.context@.take(n as int) =~= self.context@);
        true
    }
}

impl TuiMessage {
    /// A log message carries a well-formed event.
    pub open spec fn wf(self) -> bool {
        match self {
            TuiMessage::Log(e) => e.wf(),
            _ => true,
        }
    }

    /// Whether the message is well formed (see `wf`).
    pub fn is_well_formed(&self) -> (b: bool)
        ensures
            b == self.wf(),
    {
        match self {
            TuiMessage::Log(e) => e.has_map_context(),
            _ => true,
        }
    }
}

/// Each context pair as ` key=value`, in order.
pub open spec fn context_suffix(ctx: Seq<(String, String)>) -> Seq<char>
    decreases ctx.len(),
{
    if ctx.len() == 0 {
        Seq::empty()
    } else {
        context_suffix(ctx.drop_last()) + " "@ + ctx.last().0@ + "="@ + ctx.last().1@
    }
}

/// The line of text that the log shows for an event.
pub open spec fn event_text(e: LogEvent) -> Seq<char> {
    match e.event_type {
        EventType::FileMatch => text_or(e.file_path, "unknown"@) + " SCORE:"@ + text_or(e.score, "0"@)
            + " "@ + first_reason(e.reasons),
        EventType::ProcessMatch => text_or(e.process_name, "unknown"@) + " PID:"@ + decimal(
            match e.pid {
                Some(p) => p as nat,
                None => 0,
            },
        ) + " SCORE:"@ + text_or(e.score, "0"@) + " "@ + first_reason(e.reasons),
        _ => e.message@ + context_suffix(e.context@),
    }
}

fn push_text_or(s: &mut String, o: &Option<String>, default: &str)
    ensures
        final(s)@ == old(s)@ + text_or(*o, default@),
{
    match o {
        Some(t) => s.append(t.as_str()),
        None => s.append(default),
    }
}

fn push_first_reason(s: &mut String, reasons: &Option<Vec<String>>)
    ensures
        final(s)@ == old(s)@ + first_reason(*reasons),
{
    match reasons {
        Some(r) => {
            if r.len() > 0 {
                s.append(r[0].as_str());
            } else {
                assert(s@ =~= old(s)@ + Seq::<char>::empty());
            }
        },
        None => {
            assert(s@ =~= old(s)@ + Seq::<char>::empty());
        },
    }
}

/// The line of text that the log shows for `e`: for a file match its path,
/// score and first reason; for a process match its name, PID, score and first
/// reason; otherwise the message followed by each context pair.
pub fn event_line(e: &LogEvent) -> (s: String)
    requires
        e.wf(),
    ensures
        s@ == event_text(*e),
{
    let mut s = String::new();
    match e.event_type {
        EventType::FileMatch => {
            push_text_or(&mut s, &e.file_path, "unknown");
            s.append(" SCORE:");
            push_text_or(&mut s, &e.score, "0");
            s.append(" ");
            push_first_reason(&mut s, &e.reasons);
        },
        EventType::ProcessMatch => {
            push_text_or(&mut s, &e.process_name, "unknown");
            s.append(" PID:");
            let pid: u32 = match e.pid {
                Some(p) => p,
                None => 0,
            };
            push_decimal(&mut s, pid as u64);
            s.append(" SCORE:");
            push_text_or(&mut s, &e.score, "0");
            s.append(" ");
            push_first_reason(&mut s, &e.reasons);
        },
        _ => {
            s.append(e.message.as_str());
            let mut i: usize = 0;
            while i < e.context.len()
                invariant
                    i <= e.context@.len(),
                    s@ == e.message@ + context_suffix(e.context@.take(i as int)),
                decreases e.context@.len() - i,
            {
                assert(e.context@.take(i + 1).drop_last() =~= e.context@.take(i as int));
                s.append(" ");
                s.append(e.context[i].0.as_str());
                s.append("=");
                s.append(e.context[i].1.as_str());
                i = i + 1;
            }
            assert(e.context@.take(e.context@.len() as int) =~= e.context@);
        },
    }
    assert(s@ =~= event_text(*e));
    s
}

} // verus!
