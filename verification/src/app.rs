//! The state of the terminal interface: the log it shows, where the view is
//! scrolled to, the loading indicator, and how keys, mouse wheel and scanner
//! messages change it.

use vstd::prelude::*;

use crate::events::{event_line, event_text, hms_of, LogEvent, LogLevel, TuiMessage, UtcTimestamp};
use crate::settings::{size_text, ScanConfig, SettingsDisplay};
use crate::styles::{severity_color, severity_tag_style, style, Hue, SpanStyle};
use crate::text::{chars_of, pad_right, push_char, push_padded_right, push_range};
use crate::view::{
    empty_row, push_span, rows_view, status_line, status_view, sv, Row, ScanStats, SpanView,
};

verus! {

/// The most entries that the log keeps; older ones are dropped.
pub const MAX_LOGS: usize = 1000usize;

/// How long the interface stays open after the scan completed.
pub const AUTO_EXIT_MS: u64 = 3000u64;

/// The text shown while signatures are loading.
pub open spec fn initial_loading_message() -> Seq<char> {
    "Loading IOCs and signatures ..."@
}

/// The message logged when the scan completes.
pub open spec fn scan_complete_message() -> Seq<char> {
    "Scan complete. Exiting..."@
}

/// A log entry as the interface shows it.
pub struct LogEntry {
    pub level: LogLevel,
    pub message: String,
    pub timestamp: String,
}

/// What a log entry shows: severity, text, time of day.
pub struct EntryView {
    pub level: LogLevel,
    pub message: Seq<char>,
    pub timestamp: Seq<char>,
}

impl View for LogEntry {
    type V = EntryView;

    open spec fn view(&self) -> EntryView {
        EntryView { level: self.level, message: self.message@, timestamp: self.timestamp@ }
    }
}

/// The entry that the log shows for an event.
pub open spec fn entry_of(e: LogEvent) -> EntryView {
    EntryView {
        level: e.level,
        message: event_text(e),
        timestamp: hms_of(e.timestamp.seconds()),
    }
}

/// The label of a severity.
pub open spec fn level_name(level: LogLevel) -> Seq<char> {
    match level {
        LogLevel::Alert => "ALERT"@,
        LogLevel::Error => "ERROR"@,
        LogLevel::Warning => "WARN"@,
        LogLevel::Notice => "NOTICE"@,
        LogLevel::Info => "INFO"@,
        LogLevel::Debug => "DEBUG"@,
    }
}

impl LogEntry {
    /// The entry for `event`: its severity, its line of text and its time
    /// of day.
    pub fn from_event(event: &LogEvent) -> (e: LogEntry)
        requires
            event.wf(),
        ensures
            e@ == entry_of(*event),
    {
        LogEntry { level: event.level, message: event_line(event), timestamp: event.timestamp.hms() }
    }

    /// Colour of the entry's text.
    pub fn level_color(&self) -> (c: Hue)
        ensures
            c == severity_color(self.level),
    {
        match self.level {
            LogLevel::Alert => Hue::Red,
            LogLevel::Error => Hue::Green,
            LogLevel::Warning => Hue::Rgb(204, 153, 0),
            LogLevel::Notice => Hue::Cyan,
            LogLevel::Info => Hue::Green,
            LogLevel::Debug => Hue::White,
        }
    }

    /// Label of the entry's severity.
    pub fn level_str(&self) -> (s: &'static str)
        ensures
            s@ == level_name(self.level),
    {
        match self.level {
            LogLevel::Alert => "ALERT",
            LogLevel::Error => "ERROR",
            LogLevel::Warning => "WARN",
            LogLevel::Notice => "NOTICE",
            LogLevel::Info => "INFO",
            LogLevel::Debug => "DEBUG",
        }
    }
}

/// A key as the interface distinguishes keys.
#[derive(Clone, Copy, Debug, PartialEq, Eq, Structural)]
pub enum Key {
    Char(char),
    Up,
    Down,
    PageUp,
    PageDown,
    Home,
    End,
    Esc,
    Other,
}

/// A mouse event as the interface distinguishes them.
#[derive(Clone, Copy, Debug, PartialEq, Eq, Structural)]
pub enum MouseKind {
    ScrollUp,
    ScrollDown,
    Other,
}

/// What the scanner is asked to do after a key press.
#[derive(Clone, Copy, Debug, PartialEq, Eq, Structural)]
pub enum KeyOutcome {
    /// Nothing.
    Continue,
    /// Stop the scan and leave the interface.
    Quit,
    /// Change the CPU limit by this many percent; the new limit is then
    /// handed back with `apply_cpu_limit`.
    AdjustCpuLimit(i32),
    /// Pause a running scan, resume a paused one.
    TogglePause,
    /// Skip the elements that the scan threads are working on.
    RequestSkip,
}

/// The times that the interface reads when the scan completes.
#[derive(Clone, Copy, Debug)]
pub struct Clock {
    /// The current UTC time.
    pub now: UtcTimestamp,
    /// A monotonic clock, in milliseconds.
    pub monotonic_ms: u64,
    /// How long the scan has been running, in seconds.
    pub scan_elapsed_secs: u64,
}

/// The state of the interface.
pub struct TuiApp {
    logs: std::collections::VecDeque<LogEntry>,
    max_logs: usize,
    scroll_offset: usize,
    auto_scroll: bool,
    last_visible_height: usize,
    settings: SettingsDisplay,
    scan_complete: bool,
    completed_at_ms: Option<u64>,
    show_threads_overlay: bool,
    final_duration_secs: Option<u64>,
    is_loading: bool,
    loading_message: String,
    spinner_frame: usize,
    quit_pending: bool,
}

/// What the interface state holds.
pub struct AppState {
    pub logs: Seq<EntryView>,
    pub max_logs: usize,
    /// Index of the first shown entry; `usize::MAX` pins the view to the
    /// bottom until the next layout.
    pub scroll_offset: usize,
    pub auto_scroll: bool,
    pub last_visible_height: usize,
    pub settings: SettingsDisplay,
    pub scan_complete: bool,
    pub completed_at_ms: Option<u64>,
    pub show_threads_overlay: bool,
    pub final_duration_secs: Option<u64>,
    pub is_loading: bool,
    pub loading_message: Seq<char>,
    pub spinner_frame: usize,
    /// Whether `q` was pressed and the interface waits for `Y` to quit.
    pub quit_pending: bool,
}

impl View for TuiApp {
    type V = AppState;

    closed spec fn view(&self) -> AppState {
        AppState {
            logs: self.logs@.map_values(|e: LogEntry| e@),
            max_logs: self.max_logs,
            scroll_offset: self.scroll_offset,
            auto_scroll: self.auto_scroll,
            last_visible_height: self.last_visible_height,
            settings: self.settings,
            scan_complete: self.scan_complete,
            completed_at_ms: self.completed_at_ms,
            show_threads_overlay: self.show_threads_overlay,
            final_duration_secs: self.final_duration_secs,
            is_loading: self.is_loading,
            loading_message: self.loading_message@,
            spinner_frame: self.spinner_frame,
            quit_pending: self.quit_pending,
        }
    }
}

impl AppState {
    /// The log holds at most `MAX_LOGS` entries.
    pub open spec fn wf(self) -> bool {
        &&& self.max_logs == MAX_LOGS
        &&& self.logs.len() <= self.max_logs
    }

    /// The furthest the view can be scrolled: the entries that do not fit
    /// in the last known height.
    pub open spec fn max_scroll(self) -> nat {
        if self.logs.len() > self.last_visible_height {
            (self.logs.len() - self.last_visible_height) as nat
        } else {
            0
        }
    }

    /// Pins the view to the bottom and follows new entries.
    pub open spec fn to_bottom(self) -> AppState {
        AppState { scroll_offset: usize::MAX, auto_scroll: true, ..self }
    }

    /// Shows the first entry and stops following new ones.
    pub open spec fn to_top(self) -> AppState {
        AppState { scroll_offset: 0, auto_scroll: false, ..self }
    }

    /// Scrolls `amount` entries towards the start and stops following new
    /// entries.
    pub open spec fn scrolled_up(self, amount: nat) -> AppState {
        AppState {
            scroll_offset: if self.scroll_offset >= amount {
                (self.scroll_offset - amount) as usize
            } else {
                0
            },
            auto_scroll: false,
            ..self
        }
    }

    /// Scrolls `amount` entries towards the end, no further than
    /// `max_scroll`; following resumes when the end is reached.
    pub open spec fn scrolled_down(self, amount: nat) -> AppState {
        let max = self.max_scroll();
        let offset: nat = if self.scroll_offset + amount <= max {
            (self.scroll_offset + amount) as nat
        } else {
            max
        };
        AppState {
            scroll_offset: offset as usize,
            auto_scroll: if max == 0 || offset >= max {
                true
            } else {
                self.auto_scroll
            },
            ..self
        }
    }

    /// Appends an entry, drops the oldest one beyond `max_logs` (moving the
    /// view up with it), and follows the end when following.
    pub open spec fn with_log(self, e: EntryView) -> AppState {
        let pushed = self.logs.push(e);
        let trimmed = if pushed.len() > self.max_logs {
            AppState {
                logs: pushed.drop_first(),
                scroll_offset: if self.scroll_offset > 0 {
                    (self.scroll_offset - 1) as usize
                } else {
                    0
                },
                ..self
            }
        } else {
            AppState { logs: pushed, ..self }
        };
        if self.auto_scroll {
            trimmed.to_bottom()
        } else {
            trimmed
        }
    }

    /// The effect of one scanner message.
    pub open spec fn with_message(self, m: TuiMessage, clock: Clock) -> AppState {
        match m {
            TuiMessage::Log(e) => self.with_log(entry_of(e)),
            TuiMessage::ScanComplete => AppState {
                scan_complete: true,
                completed_at_ms: Some(clock.monotonic_ms),
                final_duration_secs: Some(clock.scan_elapsed_secs),
                ..self
            }.with_log(
                EntryView {
                    level: LogLevel::Info,
                    message: scan_complete_message(),
                    timestamp: hms_of(clock.now.seconds()),
                },
            ),
            TuiMessage::InitProgress(msg) => AppState { loading_message: msg@, ..self },
            TuiMessage::InitComplete { yara_rules_count, ioc_count } => AppState {
                is_loading: false,
                loading_message: Seq::empty(),
                settings: SettingsDisplay { yara_rules_count, ioc_count, ..self.settings },
                ..self
            },
        }
    }

    /// The effect of the messages, in order.
    pub open spec fn with_messages(self, ms: Seq<TuiMessage>, clock: Clock) -> AppState
        decreases ms.len(),
    {
        if ms.len() == 0 {
            self
        } else {
            self.with_messages(ms.drop_last(), clock).with_message(ms.last(), clock)
        }
    }

    /// The spinner moves on one frame while loading.
    pub open spec fn spun(self) -> AppState {
        if self.is_loading {
            AppState {
                spinner_frame: if self.spinner_frame == usize::MAX {
                    0
                } else {
                    (self.spinner_frame + 1) as usize
                },
                ..self
            }
        } else {
            self
        }
    }
}

/// How far a key scrolls down.
pub open spec fn key_down_amount(s: AppState, key: Key, ctrl: bool) -> nat {
    if s.quit_pending || is_quit_key(key, ctrl) {
        0
    } else {
        match key {
            Key::Down => 1,
            Key::Char('j') => 1,
            Key::PageDown => 10,
            _ => 0,
        }
    }
}

/// The keys that ask to quit: `q`, `Q` and Ctrl+C.
pub open spec fn is_quit_key(key: Key, ctrl: bool) -> bool {
    key == Key::Char('q') || key == Key::Char('Q') || (ctrl && key == Key::Char('c'))
}

/// The keys that confirm quitting: `Y`, in either case.
pub open spec fn is_confirm_key(key: Key) -> bool {
    key == Key::Char('Y') || key == Key::Char('y')
}

/// The state after a key press, and what the scanner is asked to do.
///
/// Quitting takes two presses: a quit key (`q`, `Q`, or Ctrl+C, which asks
/// the same question rather than quitting at once) opens the confirmation,
/// and `Y` then quits, leaving the state as it is. While the confirmation is
/// open any other key only closes it.
pub open spec fn key_step(s: AppState, key: Key, ctrl: bool) -> (AppState, KeyOutcome) {
    if s.quit_pending {
        if is_confirm_key(key) {
            (s, KeyOutcome::Quit)
        } else {
            (AppState { quit_pending: false, ..s }, KeyOutcome::Continue)
        }
    } else if is_quit_key(key, ctrl) {
        (AppState { quit_pending: true, ..s }, KeyOutcome::Continue)
    } else {
        match key {
            Key::Up | Key::Char('k') => (s.scrolled_up(1), KeyOutcome::Continue),
            Key::Down | Key::Char('j') => (s.scrolled_down(1), KeyOutcome::Continue),
            Key::PageUp => (s.scrolled_up(10), KeyOutcome::Continue),
            Key::PageDown => (s.scrolled_down(10), KeyOutcome::Continue),
            Key::Home | Key::Char('g') => (s.to_top(), KeyOutcome::Continue),
            Key::End | Key::Char('G') => (s.to_bottom(), KeyOutcome::Continue),
            Key::Esc => if s.show_threads_overlay {
                (AppState { show_threads_overlay: false, ..s }, KeyOutcome::Continue)
            } else {
                (s.to_bottom(), KeyOutcome::Continue)
            },
            Key::Char('-') | Key::Char('_') => (s, KeyOutcome::AdjustCpuLimit(-10i32)),
            Key::Char('+') | Key::Char('=') => (s, KeyOutcome::AdjustCpuLimit(10i32)),
            Key::Char('p') | Key::Char('P') => (s, KeyOutcome::TogglePause),
            Key::Char('s') | Key::Char('S') => (s, KeyOutcome::RequestSkip),
            Key::Char('t') | Key::Char('T') => (
                AppState { show_threads_overlay: !s.show_threads_overlay, ..s },
                KeyOutcome::Continue,
            ),
            _ => (s, KeyOutcome::Continue),
        }
    }
}

/// The state after the key presses (each a key and whether Ctrl was held),
/// in order, and whether one of them quit; presses after the one that quit
/// have no effect.
pub open spec fn key_steps(s: AppState, keys: Seq<(Key, bool)>) -> (AppState, bool)
    decreases keys.len(),
{
    if keys.len() == 0 {
        (s, false)
    } else {
        let before = key_steps(s, keys.drop_last());
        if before.1 {
            before
        } else {
            let after = key_step(before.0, keys.last().0, keys.last().1);
            (after.0, after.1 == KeyOutcome::Quit)
        }
    }
}

/// The state after a mouse event.
pub open spec fn mouse_step(s: AppState, kind: MouseKind) -> AppState {
    match kind {
        MouseKind::ScrollUp => s.scrolled_up(3),
        MouseKind::ScrollDown => s.scrolled_down(3),
        MouseKind::Other => s,
    }
}


impl AppState {
    /// The state after laying the log out in `visible_height` rows: the
    /// height is remembered, and the offset is moved to the last screenful
    /// when following the end or when it is beyond it.
    pub open spec fn laid_out(self, visible_height: usize) -> AppState {
        let s = AppState { last_visible_height: visible_height, ..self };
        let max = s.max_scroll();
        AppState {
            scroll_offset: if self.auto_scroll || self.scroll_offset > max {
                max as usize
            } else {
                self.scroll_offset
            },
            ..s
        }
    }
}

/// The frames of the loading spinner.
pub open spec fn spinner_char(frame: usize) -> char {
    let k = frame % 4;
    if k == 0 {
        '|'
    } else if k == 1 {
        '/'
    } else if k == 2 {
        '-'
    } else {
        '\\'
    }
}

/// A message shortened to the width less 18 columns, ending in `...` when
/// shortened.
pub open spec fn message_cell(m: Seq<char>, width: nat) -> Seq<char> {
    let max: nat = if width >= 18 { (width - 18) as nat } else { 0 };
    if m.len() > max {
        m.take(if max >= 3 { max - 3 } else { 0 }) + seq!['.', '.', '.']
    } else {
        m
    }
}

/// The row of a log entry: the severity tag padded to seven columns, the
/// time, the message in the severity colour.
pub open spec fn entry_row(e: EntryView, width: nat) -> Seq<SpanView> {
    seq![
        sv(pad_right(level_name(e.level), 7), severity_tag_style(e.level)),
        sv(" "@ + e.timestamp + " "@, style(Some(Hue::DarkGray), None, false, false)),
        sv(message_cell(e.message, width), style(Some(severity_color(e.level)), None, false, false)),
    ]
}

/// The rows of the log panel: the spinner and loading message while
/// loading, then the entries from the scroll offset that fit in the height.
pub open spec fn log_panel_view(s: AppState, width: nat) -> Seq<Seq<SpanView>> {
    let start = s.scroll_offset as int;
    let end = if start + s.last_visible_height <= s.logs.len() {
        start + s.last_visible_height
    } else {
        s.logs.len() as int
    };
    (if s.is_loading {
        seq![
            seq![
                sv("  "@ + seq![spinner_char(s.spinner_frame)] + " "@, style(Some(Hue::Green), None, true, false)),
                sv(s.loading_message, style(Some(Hue::White), None, false, false)),
            ],
        ]
    } else {
        Seq::empty()
    }) + s.logs.subrange(start, end).map_values(|e: EntryView| entry_row(e, width))
}

/// The question shown in the status bar while the confirmation to quit is
/// open.
pub open spec fn quit_prompt_view() -> Seq<SpanView> {
    seq![
        sv(
            " Quit the scan? Press Y to confirm, any other key to cancel "@,
            style(Some(Hue::Black), Some(Hue::Yellow), true, false),
        ),
    ]
}

/// Why the interface closes.
#[derive(Clone, Copy, Debug, PartialEq, Eq, Structural)]
pub enum LoopExit {
    /// The user confirmed quitting.
    UserQuit,
    /// The scan completed `AUTO_EXIT_MS` ago.
    AutoExit,
    /// The terminal could not be drawn on.
    DrawFailed,
}

impl TuiApp {
    /// The log never holds more than `MAX_LOGS` entries.
    #[verifier::type_invariant]
    spec fn log_within_capacity(self) -> bool {
        &&& self.max_logs == MAX_LOGS
        &&& self.logs@.len() <= self.max_logs
    }

    /// The interface for a scan of `target_folder` with `config`, following
    /// the end of an empty log, and loading signatures when `start_loading`.
    pub fn new(config: &ScanConfig, target_folder: &str, start_loading: bool) -> (app: TuiApp)
        ensures
            app@.wf(),
            app@.logs.len() == 0,
            app@.scroll_offset == 0,
            app@.auto_scroll,
            app@.last_visible_height == 20,
            app@.settings.target_folder@ == target_folder@,
            app@.settings.threads == config.threads,
            app@.settings.cpu_limit == config.cpu_limit,
            app@.settings.max_file_size@ == size_text(config.max_file_size as nat),
            app@.settings.scan_all_types == config.scan_all_types,
            app@.settings.scan_hard_drives == config.scan_hard_drives,
            app@.settings.scan_all_drives == config.scan_all_drives,
            app@.settings.is_elevated == config.is_elevated,
            app@.settings.exclusion_count == config.exclusion_count,
            app@.settings.yara_rules_count == config.yara_rules_count,
            app@.settings.ioc_count == config.ioc_count,
            !app@.scan_complete,
            app@.completed_at_ms is None,
            !app@.show_threads_overlay,
            app@.final_duration_secs is None,
            app@.is_loading == start_loading,
            app@.loading_message == (if start_loading {
                initial_loading_message()
            } else {
                Seq::empty()
            }),
            app@.spinner_frame == 0,
            !app@.quit_pending,
    {
        let app = TuiApp {
            logs: std::collections::VecDeque::with_capacity(1000),
            max_logs: MAX_LOGS,
            scroll_offset: 0,
            auto_scroll: true,
            last_visible_height: 20,
            settings: SettingsDisplay::from_config(config, target_folder),
            scan_complete: false,
            completed_at_ms: None,
            show_threads_overlay: false,
            final_duration_secs: None,
            is_loading: start_loading,
            loading_message: if start_loading {
                String::from_str("Loading IOCs and signatures ...")
            } else {
                String::new()
            },
            spinner_frame: 0,
            quit_pending: false,
        };
        assert(app@.logs =~= Seq::<EntryView>::empty());
        app
    }

    /// Appends the entry of `event` to the log (see `AppState::with_log`).
    pub fn add_log(&mut self, event: LogEvent)
        requires
            event.wf(),
        ensures
            final(self)@ == old(self)@.with_log(entry_of(event)),
            final(self)@.wf(),
    {
        proof {
            use_type_invariant(&*self);
        }
        let entry = LogEntry::from_event(&event);
        let ghost e = entry@;
        let ghost pre = self@;
        let ghost pushed = pre.logs.push(e);
        let mut logs: std::collections::VecDeque<LogEntry> = std::collections::VecDeque::new();
        std::mem::swap(&mut logs, &mut self.logs);
        assert(logs@.map_values(|x: LogEntry| x@) =~= pre.logs);
        logs.push_back(entry);
        assert(logs@.map_values(|x: LogEntry| x@) =~= pushed);
        let mut offset = self.scroll_offset;
        while logs.len() > MAX_LOGS
            invariant
                pre.logs.len() <= MAX_LOGS,
                pushed == pre.logs.push(e),
                (logs@.map_values(|x: LogEntry| x@) == pushed && offset == pre.scroll_offset) || (
                pushed.len() > MAX_LOGS && logs@.map_values(|x: LogEntry| x@) == pushed.drop_first()
                    && offset == (if pre.scroll_offset > 0 {
                    (pre.scroll_offset - 1) as usize
                } else {
                    0
                })),
            decreases logs.len(),
        {
            let ghost before = logs@;
            logs.pop_front();
            assert(logs@.map_values(|x: LogEntry| x@) =~= before.map_values(
                |x: LogEntry| x@,
            ).drop_first());
            offset = offset.saturating_sub(1);
        }
        self.logs = logs;
        self.scroll_offset = offset;
        if self.auto_scroll {
            self.scroll_to_bottom();
        }
    }

    /// Scrolls `amount` entries up and stops following the end.
    pub fn scroll_up(&mut self, amount: usize)
        ensures
            final(self)@ == old(self)@.scrolled_up(amount as nat),
    {
        proof {
            use_type_invariant(&*self);
        }
        self.scroll_offset = self.scroll_offset.saturating_sub(amount);
        self.auto_scroll = false;
    }

    /// Scrolls `amount` entries down, no further than the last screenful,
    /// and follows the end again when it is reached.
    pub fn scroll_down(&mut self, amount: usize)
        requires
            old(self)@.scroll_offset + amount <= usize::MAX,
        ensures
            final(self)@ == old(self)@.scrolled_down(amount as nat),
    {
        proof {
            use_type_invariant(&*self);
        }
        let max_scroll = self.logs.len().saturating_sub(self.last_visible_height);
        let target = self.scroll_offset + amount;
        self.scroll_offset = if target < max_scroll {
            target
        } else {
            max_scroll
        };
        if max_scroll == 0 || self.scroll_offset >= max_scroll {
            self.auto_scroll = true;
        }
    }

    /// Pins the view to the end and follows new entries; the offset is
    /// resolved on the next layout.
    pub fn scroll_to_bottom(&mut self)
        ensures
            final(self)@ == old(self)@.to_bottom(),
    {
        proof {
            use_type_invariant(&*self);
        }
        self.scroll_offset = usize::MAX;
        self.auto_scroll = true;
    }

    /// Shows the first entry and stops following the end.
    pub fn scroll_to_top(&mut self)
        ensures
            final(self)@ == old(self)@.to_top(),
    {
        proof {
            use_type_invariant(&*self);
        }
        self.scroll_offset = 0;
        self.auto_scroll = false;
    }

    fn process_message(&mut self, msg: TuiMessage, clock: Clock)
        requires
            msg.wf(),
        ensures
            final(self)@ == old(self)@.with_message(msg, clock),
            final(self)@.wf(),
    {
        proof {
            use_type_invariant(&*self);
        }
        match msg {
            TuiMessage::Log(event) => self.add_log(event),
            TuiMessage::ScanComplete => {
                self.scan_complete = true;
                self.completed_at_ms = Some(clock.monotonic_ms);
                self.final_duration_secs = Some(clock.scan_elapsed_secs);
                let event = LogEvent {
                    timestamp: clock.now,
                    level: LogLevel::Info,
                    event_type: crate::events::EventType::ScanEnd,
                    message: String::from_str("Scan complete. Exiting..."),
                    context: Vec::new(),
                    file_path: None,
                    pid: None,
                    process_name: None,
                    score: None,
                    reasons: None,
                };
                assert(event.context@.take(0) =~= event.context@);
                assert(event_text(event) =~= scan_complete_message());
                self.add_log(event);
            },
            TuiMessage::InitProgress(message) => {
                self.loading_message = message;
            },
            TuiMessage::InitComplete { yara_rules_count, ioc_count } => {
                self.is_loading = false;
                self.loading_message = String::new();
                self.settings.yara_rules_count = yara_rules_count;
                self.settings.ioc_count = ioc_count;
            },
        }
    }

    /// Applies the scanner's pending messages in order, then moves the
    /// loading spinner on one frame while loading.
    pub fn process_messages(&mut self, messages: Vec<TuiMessage>, clock: Clock)
        requires
            forall|i: int| 0 <= i < messages@.len() ==> (#[trigger] messages@[i]).wf(),
        ensures
            final(self)@ == old(self)@.with_messages(messages@, clock).spun(),
            final(self)@.wf(),
    {
        proof {
            use_type_invariant(&*self);
        }
        let ghost pre = self@;
        let ghost all = messages@;
        for msg in it: messages.into_iter()
            invariant
                all == it.seq(),
                forall|i: int| 0 <= i < all.len() ==> (#[trigger] all[i]).wf(),
                self@.wf(),
                self@ == pre.with_messages(all.take(it.index() as int), clock),
        {
            proof {
                assert(all.take(it.index() + 1).drop_last() =~= all.take(it.index() as int));
            }
            self.process_message(msg, clock);
        }
        assert(all.take(all.len() as int) =~= all);
        if self.is_loading {
            self.spinner_frame = self.spinner_frame.wrapping_add(1);
        }
    }

    /// Sets the CPU limit shown, as the scanner reports it after a change.
    pub fn apply_cpu_limit(&mut self, limit: u8)
        ensures
            final(self)@ == (AppState {
                settings: SettingsDisplay { cpu_limit: limit, ..old(self)@.settings },
                ..old(self)@
            }),
    {
        proof {
            use_type_invariant(&*self);
        }
        self.settings.cpu_limit = limit;
    }

    /// Handles a key press: `q`, `Q` or Ctrl+C ask to quit and `Y` then
    /// confirms (see `key_step`); arrows, `j`/`k`, page keys, Home/End and
    /// `g`/`G` scroll; Esc closes the thread overlay or follows the end;
    /// `-`/`+` ask for a lower or higher CPU limit; `p` pauses or resumes;
    /// `s` skips; `t` toggles the thread overlay.
    pub fn handle_key(&mut self, key: Key, ctrl: bool) -> (outcome: KeyOutcome)
        requires
            old(self)@.scroll_offset + key_down_amount(old(self)@, key, ctrl) <= usize::MAX,
        ensures
            (final(self)@, outcome) == key_step(old(self)@, key, ctrl),
    {
        proof {
            use_type_invariant(&*self);
        }
        if self.quit_pending {
            if key == Key::Char('Y') || key == Key::Char('y') {
                return KeyOutcome::Quit;
            }
            self.quit_pending = false;
            return KeyOutcome::Continue;
        }
        if key == Key::Char('q') || key == Key::Char('Q') || (ctrl && key == Key::Char('c')) {
            self.quit_pending = true;
            return KeyOutcome::Continue;
        }
        match key {
            Key::Up | Key::Char('k') => {
                self.scroll_up(1);
                KeyOutcome::Continue
            },
            Key::Down | Key::Char('j') => {
                self.scroll_down(1);
                KeyOutcome::Continue
            },
            Key::PageUp => {
                self.scroll_up(10);
                KeyOutcome::Continue
            },
            Key::PageDown => {
                self.scroll_down(10);
                KeyOutcome::Continue
            },
            Key::Home | Key::Char('g') => {
                self.scroll_to_top();
                KeyOutcome::Continue
            },
            Key::End | Key::Char('G') => {
                self.scroll_to_bottom();
                KeyOutcome::Continue
            },
            Key::Esc => {
                if self.show_threads_overlay {
                    self.show_threads_overlay = false;
                } else {
                    self.scroll_to_bottom();
                }
                KeyOutcome::Continue
            },
            Key::Char('-') | Key::Char('_') => KeyOutcome::AdjustCpuLimit(-10),
            Key::Char('+') | Key::Char('=') => KeyOutcome::AdjustCpuLimit(10),
            Key::Char('p') | Key::Char('P') => KeyOutcome::TogglePause,
            Key::Char('s') | Key::Char('S') => KeyOutcome::RequestSkip,
            Key::Char('t') | Key::Char('T') => {
                self.show_threads_overlay = !self.show_threads_overlay;
                KeyOutcome::Continue
            },
            _ => KeyOutcome::Continue,
        }
    }

    /// How far a key press would scroll down (see `key_down_amount`), so
    /// that a caller can check `handle_key`'s bound.
    pub fn key_down_step(&self, key: Key, ctrl: bool) -> (n: usize)
        ensures
            n == key_down_amount(self@, key, ctrl),
    {
        if self.quit_pending || key == Key::Char('q') || key == Key::Char('Q') || (ctrl && key
            == Key::Char('c')) {
            return 0;
        }
        match key {
            Key::Down | Key::Char('j') => 1,
            Key::PageDown => 10,
            _ => 0,
        }
    }

    /// Whether the interface waits for `Y` to confirm quitting.
    pub fn quit_pending(&self) -> (b: bool)
        ensures
            b == self@.quit_pending,
    {
        self.quit_pending
    }

    /// Scrolls three entries up or down for the mouse wheel.
    pub fn handle_mouse(&mut self, kind: MouseKind)
        requires
            kind == MouseKind::ScrollDown ==> old(self)@.scroll_offset + 3 <= usize::MAX,
        ensures
            final(self)@ == mouse_step(old(self)@, kind),
    {
        proof {
            use_type_invariant(&*self);
        }
        match kind {
            MouseKind::ScrollUp => self.scroll_up(3),
            MouseKind::ScrollDown => self.scroll_down(3),
            MouseKind::Other => {},
        }
    }

    /// Whether the interface should close at monotonic time `now_ms`: the
    /// scan completed at least `AUTO_EXIT_MS` before.
    pub fn should_auto_exit(&self, now_ms: u64) -> (b: bool)
        ensures
            b == (self@.completed_at_ms matches Some(t) && now_ms >= t + AUTO_EXIT_MS),
    {
        match self.completed_at_ms {
            Some(t) => now_ms.saturating_sub(t) >= AUTO_EXIT_MS,
            None => false,
        }
    }

    /// Whether the scanner reported the end of the scan.
    pub fn scan_complete(&self) -> (b: bool)
        ensures
            b == self@.scan_complete,
    {
        self.scan_complete
    }

    /// Whether the thread overlay is open.
    pub fn show_threads_overlay(&self) -> (b: bool)
        ensures
            b == self@.show_threads_overlay,
    {
        self.show_threads_overlay
    }

    /// The current index of the first shown entry.
    pub fn scroll_offset(&self) -> (n: usize)
        ensures
            n == self@.scroll_offset,
    {
        self.scroll_offset
    }

    /// Whether the view follows new entries.
    pub fn auto_scroll(&self) -> (b: bool)
        ensures
            b == self@.auto_scroll,
    {
        self.auto_scroll
    }

    fn entry_row(entry: &LogEntry, width: usize) -> (row: Row)
        ensures
            row@ == entry_row(entry@, width as nat),
    {
        let mut row = empty_row();
        let mut tag = String::new();
        push_padded_right(&mut tag, entry.level_str(), 7);
        push_span(&mut row, tag, crate::styles::get_severity_tag_style(entry.level));
        let mut time = String::from_str(" ");
        time.append(entry.timestamp.as_str());
        time.append(" ");
        push_span(&mut row, time, SpanStyle::fg(Hue::DarkGray));
        let max_msg_len = width.saturating_sub(18);
        let chars = chars_of(entry.message.as_str());
        let mut msg = String::new();
        if chars.len() > max_msg_len {
            push_range(&mut msg, &chars, 0, max_msg_len.saturating_sub(3));
            push_char(&mut msg, '.');
            push_char(&mut msg, '.');
            push_char(&mut msg, '.');
        } else {
            push_range(&mut msg, &chars, 0, chars.len());
        }
        assert(msg@ =~= message_cell(entry.message@, width as nat));
        push_span(&mut row, msg, SpanStyle::fg(entry.level_color()));
        assert(row@ =~= entry_row(entry@, width as nat));
        row
    }

    /// Lays the log out in `visible_height` rows of `width` columns: settles
    /// the scroll offset (see `AppState::laid_out`) and returns the rows to
    /// show (see `log_panel_view`).
    pub fn layout_logs(&mut self, visible_height: usize, width: usize) -> (rows: Vec<Row>)
        ensures
            final(self)@ == old(self)@.laid_out(visible_height),
            final(self)@.wf(),
            rows_view(rows@) == log_panel_view(final(self)@, width as nat),
    {
        proof {
            use_type_invariant(&*self);
        }
        let total_logs = self.logs.len();
        self.last_visible_height = visible_height;
        let max_scroll = total_logs.saturating_sub(visible_height);
        if self.auto_scroll {
            self.scroll_offset = max_scroll;
        } else if self.scroll_offset > max_scroll {
            self.scroll_offset = max_scroll;
        }
        let mut rows: Vec<Row> = Vec::new();
        if self.is_loading {
            let mut row = empty_row();
            let mut spin = String::from_str("  ");
            let k = self.spinner_frame % 4;
            let c = if k == 0 {
                '|'
            } else if k == 1 {
                '/'
            } else if k == 2 {
                '-'
            } else {
                '\\'
            };
            push_char(&mut spin, c);
            spin.append(" ");
            assert(spin@ =~= "  "@ + seq![c] + " "@);
            push_span(&mut row, spin, SpanStyle::fg_bold(Hue::Green));
            push_span(&mut row, self.loading_message.clone(), SpanStyle::fg(Hue::White));
            let ghost rv = row@;
            assert(c == spinner_char(self.spinner_frame));
            assert(rv =~= seq![
                sv("  "@ + seq![spinner_char(self@.spinner_frame)] + " "@, style(Some(Hue::Green), None, true, false)),
                sv(self@.loading_message, style(Some(Hue::White), None, false, false)),
            ]);
            rows.push(row);
            assert(rows_view(rows@) =~= seq![rv]);
        } else {
            assert(rows_view(rows@) =~= Seq::<Seq<SpanView>>::empty());
        }
        let ghost head = rows_view(rows@);
        assert(head =~= (if self@.is_loading {
            seq![
                seq![
                    sv("  "@ + seq![spinner_char(self@.spinner_frame)] + " "@, style(Some(Hue::Green), None, true, false)),
                    sv(self@.loading_message, style(Some(Hue::White), None, false, false)),
                ],
            ]
        } else {
            Seq::empty()
        }));
        let start = self.scroll_offset;
        let end = if visible_height <= total_logs - start {
            start + visible_height
        } else {
            total_logs
        };
        let mut i = start;
        while i < end
            invariant
                start <= i <= end <= total_logs == self.logs@.len(),
                end == (if start + visible_height <= total_logs {
                    start + visible_height
                } else {
                    total_logs as int
                }),
                rows_view(rows@) == head + self@.logs.subrange(start as int, i as int).map_values(
                    |e: EntryView| entry_row(e, width as nat),
                ),
            decreases end - i,
        {
            let row = Self::entry_row(&self.logs[i], width);
            let ghost prev = rows_view(rows@);
            rows.push(row);
            assert(self@.logs[i as int] == self.logs@[i as int]@);
            assert(self@.logs.subrange(start as int, i + 1) =~= self@.logs.subrange(
                start as int,
                i as int,
            ).push(self@.logs[i as int]));
            assert(rows_view(rows@) =~= prev.push(entry_row(self@.logs[i as int], width as nat)));
            i = i + 1;
        }
        assert(rows_view(rows@) =~= log_panel_view(self@, width as nat));
        rows
    }

    /// The status bar: the question to confirm quitting while it is open,
    /// otherwise the scan's status (see `status_view`).
    pub fn status_row(&self, stats: &ScanStats) -> (row: Row)
        ensures
            row@ == (if self@.quit_pending {
                quit_prompt_view()
            } else {
                status_view(self@.scan_complete, self@.final_duration_secs, *stats)
            }),
    {
        if self.quit_pending {
            let mut row = empty_row();
            push_span(
                &mut row,
                String::from_str(" Quit the scan? Press Y to confirm, any other key to cancel "),
                SpanStyle::on_bold(Hue::Black, Hue::Yellow),
            );
            assert(row@ =~= quit_prompt_view());
            row
        } else {
            status_line(self.scan_complete, self.final_duration_secs, stats)
        }
    }

    /// Handles a key event: a press as `handle_key` does; a release (which
    /// some terminals also report) changes nothing.
    pub fn handle_key_event(&mut self, key: Key, ctrl: bool, pressed: bool) -> (outcome: KeyOutcome)
        requires
            pressed ==> old(self)@.scroll_offset + key_down_amount(old(self)@, key, ctrl) <= usize::MAX,
        ensures
            pressed ==> (final(self)@, outcome) == key_step(old(self)@, key, ctrl),
            !pressed ==> final(self)@ == old(self)@ && outcome == KeyOutcome::Continue,
    {
        if pressed {
            self.handle_key(key, ctrl)
        } else {
            KeyOutcome::Continue
        }
    }

    /// What the interface reports when it closes: whether the user quit,
    /// and whether the scan had completed (an automatic exit only comes
    /// after completion).
    pub fn exit_status(&self, reason: LoopExit) -> (r: (bool, bool))
        ensures
            r == (match reason {
                LoopExit::UserQuit => (true, self@.scan_complete),
                LoopExit::AutoExit => (false, true),
                LoopExit::DrawFailed => (false, self@.scan_complete),
            }),
    {
        match reason {
            LoopExit::UserQuit => (true, self.scan_complete),
            LoopExit::AutoExit => (false, true),
            LoopExit::DrawFailed => (false, self.scan_complete),
        }
    }

    /// The settings shown in the banner.
    pub fn settings(&self) -> (s: &SettingsDisplay)
        ensures
            *s == self@.settings,
    {
        &self.settings
    }

    /// How long the scan took, once it completed.
    pub fn final_duration_secs(&self) -> (d: Option<u64>)
        ensures
            d == self@.final_duration_secs,
    {
        self.final_duration_secs
    }

    /// The number of entries in the log.
    pub fn log_count(&self) -> (n: usize)
        ensures
            n == self@.logs.len(),
    {
        self.logs.len()
    }
}

} // verus!
