//! What each part of the screen shows, as rows of styled text: the banner
//! with the settings, the status bar and the thread overlay.

use vstd::prelude::*;

use crate::settings::SettingsDisplay;
use crate::styles::{deep_yellow, style, warning_yellow, Hue, SpanStyle};
use crate::text::{
    decimal, group_thousands, pad_left, push_decimal, push_decimal_padded_left, push_spaces,
    push_two_digits, spaces, truncate_path, truncated_middle, two_digits,
};

verus! {

/// A piece of text in one style.
pub struct StyledSpan {
    pub text: String,
    pub style: SpanStyle,
}

/// What a span shows.
pub struct SpanView {
    pub text: Seq<char>,
    pub style: SpanStyle,
}

impl View for StyledSpan {
    type V = SpanView;

    open spec fn view(&self) -> SpanView {
        SpanView { text: self.text@, style: self.style }
    }
}

/// One line of the screen.
pub struct Row {
    pub spans: Vec<StyledSpan>,
}

impl View for Row {
    type V = Seq<SpanView>;

    open spec fn view(&self) -> Seq<SpanView> {
        self.spans@.map_values(|s: StyledSpan| s@)
    }
}

/// The views of rows.
pub open spec fn rows_view(rows: Seq<Row>) -> Seq<Seq<SpanView>> {
    rows.map_values(|r: Row| r@)
}

pub open spec fn sv(text: Seq<char>, st: SpanStyle) -> SpanView {
    SpanView { text, style: st }
}

/// Appends a span to a row.
pub fn push_span(row: &mut Row, text: String, st: SpanStyle)
    ensures
        final(row)@ == old(row)@.push(sv(text@, st)),
{
    row.spans.push(StyledSpan { text, style: st });
    assert(row@ =~= old(row)@.push(sv(text@, st)));
}

/// A row with no span.
pub fn empty_row() -> (r: Row)
    ensures
        r@ == Seq::<SpanView>::empty(),
{
    let r = Row { spans: Vec::new() };
    assert(r@ =~= Seq::<SpanView>::empty());
    r
}

pub open spec fn on_off(b: bool) -> Seq<char> {
    if b {
        "ON"@
    } else {
        "OFF"@
    }
}

pub open spec fn switch_style(b: bool) -> SpanStyle {
    style(Some(if b { Hue::Green } else { Hue::DarkGray }), None, false, false)
}

/// The four banner lines: name and version; target, threads, CPU limit,
/// rule and indicator counts, exclusions; elevation, scan switches, skipped
/// elements and progress; a muted rule of `inner_width - 2` spaces.
pub open spec fn banner_view(
    s: SettingsDisplay,
    inner_width: nat,
    version: Seq<char>,
    skipped: nat,
    progress: Seq<char>,
) -> Seq<Seq<SpanView>> {
    let white = style(Some(Hue::White), None, false, false);
    let muted = style(Some(Hue::DarkGray), None, false, false);
    let gold = style(Some(deep_yellow()), None, true, false);
    let plain = style(None, None, false, false);
    let max_path: nat = if inner_width >= 14 { (inner_width - 14) as nat } else { 0 };
    seq![
        seq![
            sv("  YaScan "@, style(Some(Hue::Green), None, true, false)),
            sv("v"@ + version, muted),
        ],
        seq![
            sv("  "@, plain),
            sv("Target: "@ + truncated_middle(s.target_folder@, max_path) + "  "@, white),
            sv("Threads: "@ + decimal(s.threads as nat) + "  "@, white),
            sv("CPU: "@ + decimal(s.cpu_limit as nat) + "%  "@, white),
            sv("YARA: "@ + decimal(s.yara_rules_count as nat) + "  "@, gold),
            sv("IOCs: "@ + decimal(s.ioc_count as nat) + "  "@, gold),
            sv("Excl: "@ + decimal(s.exclusion_count as nat), white),
        ],
        seq![
            sv("  "@, plain),
            sv(
                "Elevated: "@ + (if s.is_elevated { "YES"@ } else { "NO"@ }) + "  "@,
                style(Some(if s.is_elevated { Hue::Green } else { Hue::Red }), None, true, false),
            ),
            sv("AllTypes: "@ + on_off(s.scan_all_types) + "  "@, switch_style(s.scan_all_types)),
            sv("HardDrv: "@ + on_off(s.scan_hard_drives) + "  "@, switch_style(s.scan_hard_drives)),
            sv("AllDrv: "@ + on_off(s.scan_all_drives) + "  "@, switch_style(s.scan_all_drives)),
            sv("Skipped: "@ + decimal(skipped) + "  "@, muted),
            sv("Progress: "@ + progress + "%"@, gold),
        ],
        seq![
            sv("  "@, plain),
            sv(spaces((inner_width - 2) as nat), style(Some(Hue::DarkGray), Some(Hue::DarkGray), false, false)),
        ],
    ]
}

fn text_with(prefix: &str, body: &str, suffix: &str) -> (s: String)
    ensures
        s@ == prefix@ + body@ + suffix@,
{
    let mut s = String::from_str(prefix);
    s.append(body);
    s.append(suffix);
    s
}

fn number_text(prefix: &str, n: u64, suffix: &str) -> (s: String)
    ensures
        s@ == prefix@ + decimal(n as nat) + suffix@,
{
    let mut s = String::from_str(prefix);
    push_decimal(&mut s, n);
    s.append(suffix);
    s
}

fn on_off_text(prefix: &str, b: bool) -> (s: String)
    ensures
        s@ == prefix@ + on_off(b) + "  "@,
{
    if b {
        text_with(prefix, "ON", "  ")
    } else {
        text_with(prefix, "OFF", "  ")
    }
}

fn switch(b: bool) -> (st: SpanStyle)
    ensures
        st == switch_style(b),
{
    SpanStyle::fg(if b { Hue::Green } else { Hue::DarkGray })
}

/// The banner of the interface (see `banner_view`); `progress` is the scan
/// progress in percent as it is shown, `skipped` the number of skipped
/// elements.
pub fn banner_lines(
    settings: &SettingsDisplay,
    inner_width: usize,
    version: &str,
    skipped: usize,
    progress: &str,
) -> (rows: Vec<Row>)
    requires
        inner_width >= 2,
    ensures
        rows_view(rows@) == banner_view(
            *settings,
            inner_width as nat,
            version@,
            skipped as nat,
            progress@,
        ),
{
    let white = SpanStyle::fg(Hue::White);
    let muted = SpanStyle::fg(Hue::DarkGray);
    let gold = SpanStyle::fg_bold(warning_yellow());
    let plain = SpanStyle::plain();

    let mut first = empty_row();
    push_span(&mut first, String::from_str("  YaScan "), SpanStyle::fg_bold(Hue::Green));
    let mut v = String::from_str("v");
    v.append(version);
    push_span(&mut first, v, muted);

    let mut second = empty_row();
    push_span(&mut second, String::from_str("  "), plain);
    let target = settings.truncate_path(inner_width.saturating_sub(14));
    push_span(&mut second, text_with("Target: ", target.as_str(), "  "), white);
    push_span(&mut second, number_text("Threads: ", settings.threads as u64, "  "), white);
    push_span(&mut second, number_text("CPU: ", settings.cpu_limit as u64, "%  "), white);
    push_span(&mut second, number_text("YARA: ", settings.yara_rules_count as u64, "  "), gold);
    push_span(&mut second, number_text("IOCs: ", settings.ioc_count as u64, "  "), gold);
    let mut excl = String::from_str("Excl: ");
    push_decimal(&mut excl, settings.exclusion_count as u64);
    push_span(&mut second, excl, white);

    let mut third = empty_row();
    push_span(&mut third, String::from_str("  "), plain);
    if settings.is_elevated {
        push_span(&mut third, text_with("Elevated: ", "YES", "  "), SpanStyle::fg_bold(Hue::Green));
    } else {
        push_span(&mut third, text_with("Elevated: ", "NO", "  "), SpanStyle::fg_bold(Hue::Red));
    }
    push_span(&mut third, on_off_text("AllTypes: ", settings.scan_all_types), switch(settings.scan_all_types));
    push_span(&mut third, on_off_text("HardDrv: ", settings.scan_hard_drives), switch(settings.scan_hard_drives));
    push_span(&mut third, on_off_text("AllDrv: ", settings.scan_all_drives), switch(settings.scan_all_drives));
    push_span(&mut third, number_text("Skipped: ", skipped as u64, "  "), muted);
    push_span(&mut third, text_with("Progress: ", progress, "%"), gold);

    let mut fourth = empty_row();
    push_span(&mut fourth, String::from_str("  "), plain);
    let mut rule = String::new();
    push_spaces(&mut rule, inner_width - 2);
    push_span(&mut fourth, rule, SpanStyle { fg: Some(Hue::DarkGray), bg: Some(Hue::DarkGray), bold: false, italic: false });

    let ghost b = banner_view(*settings, inner_width as nat, version@, skipped as nat, progress@);
    assert(first@ =~= b[0]);
    assert(second@ =~= b[1]);
    assert(third@ =~= b[2]);
    assert(fourth@ =~= b[3]);
    let mut rows: Vec<Row> = Vec::new();
    rows.push(first);
    rows.push(second);
    rows.push(third);
    rows.push(fourth);
    assert(rows_view(rows@) =~= banner_view(
        *settings,
        inner_width as nat,
        version@,
        skipped as nat,
        progress@,
    ));
    rows
}


/// What the status bar shows of the running scan.
#[derive(Debug)]
pub struct ScanStats {
    pub files_scanned: usize,
    pub processes_scanned: usize,
    pub alerts: usize,
    pub warnings: usize,
    pub notices: usize,
    pub cpu_limit: u8,
    pub is_paused: bool,
    /// Elements scanned per second, as shown (a whole number).
    pub scan_rate: String,
    /// Estimated seconds left, when known.
    pub eta_secs: Option<u64>,
    /// Seconds since the scan started.
    pub elapsed_secs: u64,
}

/// `HH:MM:SS` of a number of seconds, hours not bounded.
pub open spec fn clock_text(secs: nat) -> Seq<char> {
    two_digits(secs / 3600) + ":"@ + two_digits((secs % 3600) / 60) + ":"@ + two_digits(secs % 60)
}

/// The status bar: a state indicator (done, paused or running), files and
/// processes scanned with grouped digits, rate, estimated time left, alert,
/// warning and notice counts, time spent (frozen when the scan completed),
/// CPU limit and the key help.
pub open spec fn status_view(
    scan_complete: bool,
    final_duration_secs: Option<u64>,
    stats: ScanStats,
) -> Seq<SpanView> {
    let white = style(Some(Hue::White), None, false, false);
    let white_bold = style(Some(Hue::White), None, true, false);
    let muted = style(Some(Hue::DarkGray), None, false, false);
    let indicator = if scan_complete {
        sv("[DONE] "@, style(Some(Hue::Black), Some(Hue::Green), true, false))
    } else if stats.is_paused {
        sv("[PAUSED] "@, style(Some(Hue::Black), Some(deep_yellow()), true, false))
    } else {
        sv("[RUN] "@, style(Some(Hue::Green), None, true, false))
    };
    let eta = match stats.eta_secs {
        Some(e) => clock_text(e as nat),
        None => "--:--:--"@,
    };
    let duration = match final_duration_secs {
        Some(d) => d,
        None => stats.elapsed_secs,
    };
    seq![
        indicator,
        sv("Files:"@, white_bold),
        sv(group_thousands(decimal(stats.files_scanned as nat)) + " "@, white),
        sv("Procs:"@, white_bold),
        sv(group_thousands(decimal(stats.processes_scanned as nat)) + " "@, white),
        sv("| "@, muted),
        sv("Rate:"@, white_bold),
        sv(stats.scan_rate@ + "/s "@, style(Some(Hue::Green), None, true, false)),
        sv("| "@, muted),
        sv("ETA:"@, white_bold),
        sv(eta + " "@, white),
        sv("| "@, muted),
        sv("ALERT:"@, style(Some(Hue::Black), Some(Hue::Red), true, false)),
        sv(decimal(stats.alerts as nat) + " "@, style(Some(Hue::Red), None, true, false)),
        sv("WARN:"@, style(Some(Hue::Black), Some(deep_yellow()), true, false)),
        sv(decimal(stats.warnings as nat) + " "@, style(Some(deep_yellow()), None, false, false)),
        sv("NOTICE:"@, style(Some(Hue::Black), Some(Hue::Cyan), true, false)),
        sv(decimal(stats.notices as nat) + " "@, style(Some(Hue::Cyan), None, false, false)),
        sv("| "@, muted),
        sv(clock_text(duration as nat), style(Some(Hue::Green), None, false, false)),
        sv(" | "@, muted),
        sv("CPU:"@ + decimal(stats.cpu_limit as nat) + "% "@, white),
        sv("[+/-] "@, muted),
        sv("[p]ause [s]kip [t]hreads [q]uit"@, muted),
    ]
}

/// Appends `HH:MM:SS` of `secs` (see `clock_text`).
fn push_clock(s: &mut String, secs: u64)
    ensures
        final(s)@ == old(s)@ + clock_text(secs as nat),
{
    push_two_digits(s, secs / 3600);
    s.append(":");
    push_two_digits(s, (secs % 3600) / 60);
    s.append(":");
    push_two_digits(s, secs % 60);
    assert(s@ =~= old(s)@ + clock_text(secs as nat));
}

fn grouped_text(n: usize, suffix: &str) -> (s: String)
    ensures
        s@ == group_thousands(decimal(n as nat)) + suffix@,
{
    let mut s = crate::text::format_number(n);
    s.append(suffix);
    s
}

/// The status bar (see `status_view`).
pub fn status_line(scan_complete: bool, final_duration_secs: Option<u64>, stats: &ScanStats) -> (row: Row)
    ensures
        row@ == status_view(scan_complete, final_duration_secs, *stats),
{
    let white = SpanStyle::fg(Hue::White);
    let white_bold = SpanStyle::fg_bold(Hue::White);
    let muted = SpanStyle::fg(Hue::DarkGray);
    proof {
        reveal_strlit("");
        assert(""@ =~= Seq::<char>::empty());
    }
    let mut row = empty_row();
    if scan_complete {
        push_span(&mut row, String::from_str("[DONE] "), SpanStyle::on_bold(Hue::Black, Hue::Green));
    } else if stats.is_paused {
        push_span(&mut row, String::from_str("[PAUSED] "), SpanStyle::on_bold(Hue::Black, warning_yellow()));
    } else {
        push_span(&mut row, String::from_str("[RUN] "), SpanStyle::fg_bold(Hue::Green));
    }
    push_span(&mut row, String::from_str("Files:"), white_bold);
    push_span(&mut row, grouped_text(stats.files_scanned, " "), white);
    push_span(&mut row, String::from_str("Procs:"), white_bold);
    push_span(&mut row, grouped_text(stats.processes_scanned, " "), white);
    push_span(&mut row, String::from_str("| "), muted);
    push_span(&mut row, String::from_str("Rate:"), white_bold);
    push_span(&mut row, text_with("", stats.scan_rate.as_str(), "/s "), SpanStyle::fg_bold(Hue::Green));
    push_span(&mut row, String::from_str("| "), muted);
    push_span(&mut row, String::from_str("ETA:"), white_bold);
    let mut eta = String::new();
    match stats.eta_secs {
        Some(e) => push_clock(&mut eta, e),
        None => eta.append("--:--:--"),
    }
    eta.append(" ");
    push_span(&mut row, eta, white);
    push_span(&mut row, String::from_str("| "), muted);
    push_span(&mut row, String::from_str("ALERT:"), SpanStyle::on_bold(Hue::Black, Hue::Red));
    push_span(&mut row, number_text("", stats.alerts as u64, " "), SpanStyle::fg_bold(Hue::Red));
    push_span(&mut row, String::from_str("WARN:"), SpanStyle::on_bold(Hue::Black, warning_yellow()));
    push_span(&mut row, number_text("", stats.warnings as u64, " "), SpanStyle::fg(warning_yellow()));
    push_span(&mut row, String::from_str("NOTICE:"), SpanStyle::on_bold(Hue::Black, Hue::Cyan));
    push_span(&mut row, number_text("", stats.notices as u64, " "), SpanStyle::fg(Hue::Cyan));
    push_span(&mut row, String::from_str("| "), muted);
    let duration = match final_duration_secs {
        Some(d) => d,
        None => stats.elapsed_secs,
    };
    let mut clock = String::new();
    push_clock(&mut clock, duration);
    push_span(&mut row, clock, SpanStyle::fg(Hue::Green));
    push_span(&mut row, String::from_str(" | "), muted);
    push_span(&mut row, number_text("CPU:", stats.cpu_limit as u64, "% "), white);
    push_span(&mut row, String::from_str("[+/-] "), muted);
    push_span(&mut row, String::from_str("[p]ause [s]kip [t]hreads [q]uit"), muted);
    assert(row@ =~= status_view(scan_complete, final_duration_secs, *stats));
    row
}


/// Where the thread overlay goes on a screen of `width` by `height`: four
/// fifths of the width (rounded down) but at most 100 columns; a row per
/// thread plus four, bounded by the height less four, but at least 8 rows;
/// centred. The row count is taken modulo 65536, as a 16-bit count.
pub open spec fn overlay_rect(width: nat, height: nat, count: nat) -> (nat, nat, nat, nat) {
    let w: nat = if width * 4 / 5 <= 100 { width * 4 / 5 } else { 100 };
    let wanted: nat = count % 65536 + 4;
    let room: nat = if height >= 4 { (height - 4) as nat } else { 0 };
    let bounded: nat = if wanted <= room { wanted } else { room };
    let h: nat = if bounded >= 8 { bounded } else { 8 };
    let x: nat = (if width >= w { (width - w) as nat } else { 0 }) / 2;
    let y: nat = (if height >= h { (height - h) as nat } else { 0 }) / 2;
    (x, y, w, h)
}

/// The area of the thread overlay: `(x, y, width, height)` (see
/// `overlay_rect`).
pub fn overlay_area(width: u16, height: u16, entry_count: usize) -> (r: (u16, u16, u16, u16))
    requires
        entry_count % 65536 + 4 <= u16::MAX,
    ensures
        (r.0 as nat, r.1 as nat, r.2 as nat, r.3 as nat) == overlay_rect(
            width as nat,
            height as nat,
            entry_count as nat,
        ),
{
    let four_fifths: u32 = (width as u32) * 4 / 5;
    let w: u16 = if four_fifths <= 100 {
        four_fifths as u16
    } else {
        100
    };
    let wanted: u16 = (entry_count % 65536) as u16 + 4;
    let room = height.saturating_sub(4);
    let bounded = if wanted <= room {
        wanted
    } else {
        room
    };
    let h: u16 = if bounded >= 8 {
        bounded
    } else {
        8
    };
    let x = width.saturating_sub(w) / 2;
    let y = height.saturating_sub(h) / 2;
    (x, y, w, h)
}

/// The entries are in increasing order of thread number.
pub open spec fn sorted_by_thread(s: Seq<(usize, String)>) -> bool {
    forall|i: int, j: int| 0 <= i <= j < s.len() ==> s[i].0 <= s[j].0
}

/// Whether an entry belongs to thread `k`.
pub open spec fn of_thread(k: usize) -> spec_fn((usize, String)) -> bool {
    |e: (usize, String)| e.0 == k
}

proof fn lemma_filter_single(e: (usize, String), p: spec_fn((usize, String)) -> bool)
    ensures
        seq![e].filter(p) == (if p(e) {
            seq![e]
        } else {
            Seq::<(usize, String)>::empty()
        }),
{
    reveal_with_fuel(Seq::filter, 2);
    assert(seq![e].drop_last() =~= Seq::<(usize, String)>::empty());
    assert(seq![e].last() == e);
    assert(Seq::<(usize, String)>::empty().push(e) =~= seq![e]);
}

/// The entries in increasing order of thread number; the entries of each
/// thread keep their order.
pub fn sort_thread_entries(entries: Vec<(usize, String)>) -> (sorted: Vec<(usize, String)>)
    ensures
        sorted_by_thread(sorted@),
        sorted@.to_multiset() == entries@.to_multiset(),
        forall|k: usize| #[trigger] sorted@.filter(of_thread(k)) == entries@.filter(of_thread(k)),
{
    broadcast use vstd::seq_lib::group_to_multiset_ensures;

    let ghost all = entries@;
    let mut res: Vec<(usize, String)> = Vec::new();
    proof {
        assert forall|k: usize| #[trigger] res@.filter(of_thread(k)) == all.take(0).filter(
            of_thread(k),
        ) by {
            reveal(Seq::filter);
            assert(all.take(0) =~= res@);
        }
    }
    for e in it: entries.into_iter()
        invariant
            all == it.seq(),
            sorted_by_thread(res@),
            res@.to_multiset() == all.take(it.index() as int).to_multiset(),
            forall|k: usize| #[trigger] res@.filter(of_thread(k)) == all.take(it.index() as int).filter(
                of_thread(k),
            ),
    {
        let mut pos: usize = 0;
        while pos < res.len() && res[pos].0 <= e.0
            invariant
                pos <= res@.len(),
                sorted_by_thread(res@),
                forall|k: int| 0 <= k < pos ==> res@[k].0 <= e.0,
            decreases res@.len() - pos,
        {
            pos = pos + 1;
        }
        let ghost before = res@;
        let ghost i = it.index() as int;
        proof {
            vstd::seq_lib::to_multiset_insert(before, pos as int, e);
            assert(all.take(i + 1) =~= all.take(i).push(e));
            all.take(i).to_multiset_ensures();
        }
        res.insert(pos, e);
        proof {
            let left = before.take(pos as int);
            let right = before.skip(pos as int);
            assert(before =~= left + right);
            assert(res@ =~= left + seq![e] + right);
            assert(all.take(i + 1) =~= all.take(i) + seq![e]);
            assert forall|j: int| 0 <= j < right.len() implies right[j].0 > e.0 by {
                assert(right[j] == before[pos + j]);
                assert(before[pos as int].0 <= before[pos + j].0);
            }
            assert forall|k: usize| #[trigger] res@.filter(of_thread(k)) == all.take(i + 1).filter(
                of_thread(k),
            ) by {
                let p = of_thread(k);
                Seq::filter_distributes_over_add(left + seq![e], right, p);
                Seq::filter_distributes_over_add(left, seq![e], p);
                Seq::filter_distributes_over_add(left, right, p);
                Seq::filter_distributes_over_add(all.take(i), seq![e], p);
                lemma_filter_single(e, p);
                if k == e.0 {
                    assert(right.all(|x: (usize, String)| !p(x)));
                    right.lemma_all_neg_filter_empty(p);
                    assert(right.filter(p) =~= Seq::<(usize, String)>::empty());
                    assert(left.filter(p) + right.filter(p) =~= left.filter(p));
                    assert(left.filter(p) + seq![e].filter(p) + right.filter(p) =~= left.filter(p)
                        + seq![e]);
                } else {
                    assert(left.filter(p) + seq![e].filter(p) =~= left.filter(p));
                }
            }
        }
        assert(sorted_by_thread(res@)) by {
            assert forall|a: int, b: int| 0 <= a <= b < res@.len() implies res@[a].0 <= res@[b].0 by {
                if a < pos && b > pos {
                    assert(res@[a] == before[a]);
                    assert(res@[b] == before[b - 1]);
                } else if a < pos && b < pos {
                    assert(res@[a] == before[a]);
                    assert(res@[b] == before[b]);
                } else if a > pos {
                    assert(res@[a] == before[a - 1]);
                    assert(res@[b] == before[b - 1]);
                } else if a == pos && b > pos {
                    assert(res@[b] == before[b - 1]);
                    assert(pos < before.len());
                    assert(before[pos as int].0 > e.0);
                } else if b == pos && a < pos {
                    assert(res@[a] == before[a]);
                }
            }
        }
    }
    assert(all.take(all.len() as int) =~= all);
    res
}

/// The title of the thread overlay.
pub open spec fn overlay_title_view(active: nat, is_paused: bool) -> Seq<SpanView> {
    seq![
        sv(" THREAD ACTIVITY "@, style(Some(Hue::White), None, true, false)),
        if is_paused {
            sv(" [PAUSED] "@, style(Some(Hue::Black), Some(deep_yellow()), true, false))
        } else {
            sv(" [SCANNING] "@, style(Some(Hue::Black), Some(Hue::Green), true, false))
        },
        sv(" ("@ + decimal(active) + " active) "@, style(Some(Hue::White), None, false, false)),
    ]
}

/// The title of the thread overlay: paused or scanning, and how many threads
/// are active.
pub fn overlay_title(active: usize, is_paused: bool) -> (row: Row)
    ensures
        row@ == overlay_title_view(active as nat, is_paused),
{
    let mut row = empty_row();
    push_span(&mut row, String::from_str(" THREAD ACTIVITY "), SpanStyle::fg_bold(Hue::White));
    if is_paused {
        push_span(&mut row, String::from_str(" [PAUSED] "), SpanStyle::on_bold(Hue::Black, warning_yellow()));
    } else {
        push_span(&mut row, String::from_str(" [SCANNING] "), SpanStyle::on_bold(Hue::Black, Hue::Green));
    }
    push_span(&mut row, number_text(" (", active as u64, " active) "), SpanStyle::fg(Hue::White));
    assert(row@ =~= overlay_title_view(active as nat, is_paused));
    row
}

/// The row of one thread: its number from 1, right-aligned on two columns,
/// and its element shortened to the width less 12.
pub open spec fn thread_row_view(entry: (usize, String), inner_width: nat) -> Seq<SpanView> {
    seq![
        sv(" ["@ + pad_left(decimal((entry.0 + 1) as nat), 2) + "] "@, style(Some(Hue::Yellow), None, true, false)),
        sv(
            truncated_middle(entry.1@, if inner_width >= 12 { (inner_width - 12) as nat } else { 0 }),
            style(Some(Hue::White), None, false, false),
        ),
    ]
}

/// The key help at the bottom of the overlay.
pub open spec fn overlay_help_view() -> Seq<SpanView> {
    let key = style(Some(Hue::Green), None, true, false);
    let muted = style(Some(Hue::DarkGray), None, false, false);
    seq![
        sv(" "@, style(None, None, false, false)),
        sv("[s]"@, key),
        sv(" skip all  "@, muted),
        sv("[p]"@, key),
        sv(" pause/resume  "@, muted),
        sv("[Esc/t]"@, key),
        sv(" close"@, muted),
    ]
}

/// The rows of the thread overlay: one per thread, or a note when no thread
/// is active; then a blank row and the key help.
pub open spec fn overlay_rows_view(entries: Seq<(usize, String)>, is_paused: bool, inner_width: nat) -> Seq<Seq<SpanView>> {
    let body = if entries.len() == 0 {
        seq![
            seq![
                sv("  "@, style(None, None, false, false)),
                sv(
                    if is_paused {
                        "Scan is paused. Press [p] to resume."@
                    } else {
                        "(No active scans)"@
                    },
                    style(Some(Hue::DarkGray), None, false, true),
                ),
            ],
        ]
    } else {
        entries.map_values(|e: (usize, String)| thread_row_view(e, inner_width))
    };
    body + seq![Seq::<SpanView>::empty(), overlay_help_view()]
}

/// The rows of the thread overlay (see `overlay_rows_view`).
pub fn overlay_rows(entries: &Vec<(usize, String)>, is_paused: bool, inner_width: usize) -> (rows: Vec<Row>)
    requires
        forall|i: int| 0 <= i < entries@.len() ==> entries@[i].0 < usize::MAX,
    ensures
        rows_view(rows@) == overlay_rows_view(entries@, is_paused, inner_width as nat),
{
    let mut rows: Vec<Row> = Vec::new();
    let max_path_len = inner_width.saturating_sub(12);
    if entries.len() == 0 {
        let mut row = empty_row();
        push_span(&mut row, String::from_str("  "), SpanStyle::plain());
        let note = if is_paused {
            String::from_str("Scan is paused. Press [p] to resume.")
        } else {
            String::from_str("(No active scans)")
        };
        push_span(&mut row, note, SpanStyle { fg: Some(Hue::DarkGray), bg: None, bold: false, italic: true });
        let ghost rv = row@;
        assert(rv =~= seq![
            sv("  "@, style(None, None, false, false)),
            sv(
                if is_paused {
                    "Scan is paused. Press [p] to resume."@
                } else {
                    "(No active scans)"@
                },
                style(Some(Hue::DarkGray), None, false, true),
            ),
        ]);
        rows.push(row);
        assert(rows_view(rows@) =~= seq![rv]);
    } else {
        let mut i: usize = 0;
        while i < entries.len()
            invariant
                i <= entries@.len(),
                max_path_len == (if inner_width >= 12 { (inner_width - 12) as nat } else { 0 }),
                forall|k: int| 0 <= k < entries@.len() ==> entries@[k].0 < usize::MAX,
                rows_view(rows@) == entries@.take(i as int).map_values(
                    |e: (usize, String)| thread_row_view(e, inner_width as nat),
                ),
            decreases entries@.len() - i,
        {
            let mut row = empty_row();
            let mut label = String::from_str(" [");
            push_decimal_padded_left(&mut label, (entries[i].0 + 1) as u64, 2);
            label.append("] ");
            push_span(&mut row, label, SpanStyle::fg_bold(Hue::Yellow));
            push_span(&mut row, truncate_path(entries[i].1.as_str(), max_path_len), SpanStyle::fg(Hue::White));
            assert(row@ =~= thread_row_view(entries@[i as int], inner_width as nat));
            let ghost prev = rows@;
            rows.push(row);
            assert(rows_view(rows@) =~= entries@.take(i + 1).map_values(
                |e: (usize, String)| thread_row_view(e, inner_width as nat),
            )) by {
                assert(rows_view(rows@) =~= rows_view(prev).push(thread_row_view(entries@[i as int], inner_width as nat)));
                assert(entries@.take(i + 1) =~= entries@.take(i as int).push(entries@[i as int]));
            }
            i = i + 1;
        }
        assert(entries@.take(entries@.len() as int) =~= entries@);
    }
    let ghost body = rows_view(rows@);
    assert(body =~= (if entries@.len() == 0 {
        seq![
            seq![
                sv("  "@, style(None, None, false, false)),
                sv(
                    if is_paused {
                        "Scan is paused. Press [p] to resume."@
                    } else {
                        "(No active scans)"@
                    },
                    style(Some(Hue::DarkGray), None, false, true),
                ),
            ],
        ]
    } else {
        entries@.map_values(|e: (usize, String)| thread_row_view(e, inner_width as nat))
    }));
    rows.push(empty_row());
    assert(rows_view(rows@) =~= body.push(Seq::<SpanView>::empty()));
    let mut help = empty_row();
    push_span(&mut help, String::from_str(" "), SpanStyle::plain());
    push_span(&mut help, String::from_str("[s]"), SpanStyle::fg_bold(Hue::Green));
    push_span(&mut help, String::from_str(" skip all  "), SpanStyle::fg(Hue::DarkGray));
    push_span(&mut help, String::from_str("[p]"), SpanStyle::fg_bold(Hue::Green));
    push_span(&mut help, String::from_str(" pause/resume  "), SpanStyle::fg(Hue::DarkGray));
    push_span(&mut help, String::from_str("[Esc/t]"), SpanStyle::fg_bold(Hue::Green));
    push_span(&mut help, String::from_str(" close"), SpanStyle::fg(Hue::DarkGray));
    assert(help@ =~= overlay_help_view());
    rows.push(help);
    assert(rows_view(rows@) =~= body.push(Seq::<SpanView>::empty()).push(overlay_help_view()));
    assert(rows_view(rows@) =~= overlay_rows_view(entries@, is_paused, inner_width as nat));
    rows
}

} // verus!
