//! Properties that hold across the operations of the interface.

use vstd::prelude::*;

use crate::app::{
    entry_of, entry_row, is_confirm_key, is_quit_key, key_step, key_steps, level_name,
    log_panel_view, message_cell, AppState, EntryView, Key, KeyOutcome,
};
use crate::events::LogLevel;
use crate::styles::{severity_color, severity_tag_style};
use crate::events::{hms_of, TuiMessage};
use crate::app::Clock;
use crate::text::{decimal, group_thousands, truncated_middle, two_digits};
use crate::view::{
    banner_view, clock_text, overlay_rect, overlay_rows_view, overlay_title_view, status_view, ScanStats,
};
use crate::settings::{rounded_div, size_text};
use crate::text::{pad_left, digit_char};
use crate::settings::SettingsDisplay;
use crate::styles::{style, Hue};
use crate::events::{event_text, EventType, LogEvent};
use crate::util::{base_name, read_args, no_args, ArgsOutcome, ArgsSoFar};
use crate::events::context_suffix;

verus! {

/// Adding an entry to a log within its capacity keeps it within capacity:
/// the new entry comes last, after the earlier entries in their order, and
/// the oldest entry is dropped when the log was full.
pub proof fn lemma_add_log_keeps_newest(s: AppState, e: EntryView)
    requires
        s.wf(),
    ensures
        s.with_log(e).wf(),
        s.with_log(e).logs.last() == e,
        s.with_log(e).logs == (if s.logs.len() < s.max_logs {
            s.logs.push(e)
        } else {
            s.logs.push(e).drop_first()
        }),
{
}

/// After a layout the view starts within the log: at most at the last
/// screenful.
pub proof fn lemma_layout_bounds_offset(s: AppState, visible_height: usize)
    ensures
        s.laid_out(visible_height).scroll_offset <= s.laid_out(visible_height).max_scroll(),
        s.laid_out(visible_height).max_scroll() <= s.logs.len(),
        s.laid_out(visible_height).logs == s.logs,
{
}

/// While the view follows the end, a new entry is on screen after the next
/// layout of at least one row: it lies between the first shown entry and
/// the last row.
pub proof fn lemma_following_shows_newest(s: AppState, e: EntryView, visible_height: usize)
    requires
        s.wf(),
        s.auto_scroll,
        visible_height > 0,
    ensures
        ({
            let t = s.with_log(e).laid_out(visible_height);
            &&& t.auto_scroll
            &&& t.scroll_offset <= t.logs.len() - 1 < t.scroll_offset + visible_height
        }),
{
}

/// Scrolling down stays within the last screenful and follows the end again
/// exactly when it reaches it (or already followed); scrolling up always
/// stops following.
pub proof fn lemma_scroll_follows_only_at_end(s: AppState, amount: nat)
    requires
        s.wf(),
        s.scroll_offset <= s.max_scroll(),
    ensures
        s.scrolled_down(amount).scroll_offset <= s.max_scroll(),
        s.scrolled_down(amount).auto_scroll == (s.auto_scroll || s.scrolled_down(amount).scroll_offset
            == s.max_scroll()),
        !s.scrolled_up(amount).auto_scroll,
        s.scrolled_up(amount).scroll_offset <= s.scroll_offset,
{
}

/// A key press quits exactly when the confirmation is open and the key is
/// `Y`, and then leaves the state as it was. `q`, `Q` and Ctrl+C open the
/// confirmation without quitting; while it is open any other key closes it
/// and does nothing else; and it is open after a press only when that press
/// opened it or confirmed.
pub proof fn lemma_quit_needs_confirmation(s: AppState, key: Key, ctrl: bool)
    ensures
        (key_step(s, key, ctrl).1 == KeyOutcome::Quit) <==> (s.quit_pending && is_confirm_key(key)),
        key_step(s, key, ctrl).1 == KeyOutcome::Quit ==> key_step(s, key, ctrl).0 == s,
        !s.quit_pending && is_quit_key(key, ctrl) ==> key_step(s, key, ctrl) == (
        AppState { quit_pending: true, ..s },
        KeyOutcome::Continue,
        ),
        s.quit_pending && !is_confirm_key(key) ==> key_step(s, key, ctrl) == (
        AppState { quit_pending: false, ..s },
        KeyOutcome::Continue,
        ),
        key_step(s, key, ctrl).0.quit_pending ==> (!s.quit_pending && is_quit_key(key, ctrl)) || (
        s.quit_pending && is_confirm_key(key)),
{
}

/// Of two presses in a row where the first does not quit, the second quits
/// exactly when the first was `q`, `Q` or Ctrl+C with no confirmation open
/// and the second is `Y`.
pub proof fn lemma_quit_is_q_then_y(s: AppState, k1: Key, c1: bool, k2: Key, c2: bool)
    requires
        key_step(s, k1, c1).1 != KeyOutcome::Quit,
    ensures
        key_step(key_step(s, k1, c1).0, k2, c2).1 == KeyOutcome::Quit <==> (!s.quit_pending
            && is_quit_key(k1, c1) && is_confirm_key(k2)),
{
    lemma_quit_needs_confirmation(s, k1, c1);
    lemma_quit_needs_confirmation(key_step(s, k1, c1).0, k2, c2);
}

/// From a state with no confirmation open (as the interface starts), a
/// sequence of presses quits only where a quit key is directly followed by
/// `Y`; and when it has not quit and the confirmation is open, the last
/// press was a quit key.
pub proof fn lemma_key_sequence_quits_only_on_q_then_y(s: AppState, keys: Seq<(Key, bool)>)
    requires
        !s.quit_pending,
    ensures
        key_steps(s, keys).1 ==> exists|i: int|
            0 < i < keys.len() && is_quit_key(keys[i - 1].0, keys[i - 1].1) && #[trigger] is_confirm_key(
                keys[i].0,
            ),
        !key_steps(s, keys).1 && key_steps(s, keys).0.quit_pending ==> keys.len() > 0
            && is_quit_key(keys.last().0, keys.last().1),
    decreases keys.len(),
{
    if keys.len() > 0 {
        let p = keys.drop_last();
        lemma_key_sequence_quits_only_on_q_then_y(s, p);
        let before = key_steps(s, p);
        if before.1 {
            let i = choose|i: int|
                0 < i < p.len() && is_quit_key(p[i - 1].0, p[i - 1].1) && #[trigger] is_confirm_key(
                    p[i].0,
                );
            assert(keys[i] == p[i] && keys[i - 1] == p[i - 1]);
        } else {
            lemma_quit_needs_confirmation(before.0, keys.last().0, keys.last().1);
            if key_steps(s, keys).1 {
                let i = keys.len() - 1;
                assert(keys[i - 1] == p.last());
                assert(is_confirm_key(keys[i].0));
            }
        }
    }
}

/// Pressing `t` twice, with no confirmation open, leaves the state as it was.
pub proof fn lemma_overlay_toggle_twice(s: AppState, ctrl: bool)
    requires
        !s.quit_pending,
    ensures
        key_step(key_step(s, Key::Char('t'), ctrl).0, Key::Char('t'), ctrl).0 == s,
{
}

/// Handling messages in two batches has the effect of handling them in one.
pub proof fn lemma_messages_in_batches(s: AppState, a: Seq<TuiMessage>, b: Seq<TuiMessage>, clock: Clock)
    ensures
        s.with_messages(a + b, clock) == s.with_messages(a, clock).with_messages(b, clock),
    decreases b.len(),
{
    if b.len() == 0 {
        assert(a + b =~= a);
    } else {
        lemma_messages_in_batches(s, a, b.drop_last(), clock);
        assert((a + b).drop_last() =~= a + b.drop_last());
        assert((a + b).last() == b.last());
    }
}

/// Grouping adds one comma per group of three beyond the first.
pub proof fn lemma_grouped_length(s: Seq<char>)
    requires
        s.len() > 0,
    ensures
        group_thousands(s).len() == s.len() + (s.len() - 1) / 3,
    decreases s.len(),
{
    if s.len() > 3 {
        lemma_grouped_length(s.subrange(0, s.len() - 3));
    }
}

/// A decimal has no comma.
pub proof fn lemma_decimal_has_no_comma(n: nat)
    ensures
        !decimal(n).contains(','),
        decimal(n).len() > 0,
    decreases n,
{
    if n >= 10 {
        lemma_decimal_has_no_comma(n / 10);
        assert forall|i: int| 0 <= i < decimal(n).len() implies decimal(n)[i] != ',' by {
            if i < decimal(n / 10).len() {
                assert(decimal(n)[i] == decimal(n / 10)[i]);
            }
        }
    }
}

/// Whether a character is no comma.
pub open spec fn not_comma() -> spec_fn(char) -> bool {
    |c: char| c != ','
}

/// The characters of `s` that are no comma, in order.
pub open spec fn without_commas(s: Seq<char>) -> Seq<char> {
    s.filter(not_comma())
}

proof fn lemma_filter_push(s: Seq<char>, c: char)
    ensures
        s.push(c).filter(not_comma()) == (if c != ',' {
            s.filter(not_comma()).push(c)
        } else {
            s.filter(not_comma())
        }),
{
    reveal(Seq::filter);
    assert(s.push(c).drop_last() =~= s);
}

proof fn lemma_filter_keeps(s: Seq<char>)
    requires
        !s.contains(','),
    ensures
        s.filter(not_comma()) == s,
    decreases s.len(),
{
    if s.len() > 0 {
        assert(!s.drop_last().contains(',')) by {
            assert forall|i: int| 0 <= i < s.drop_last().len() implies s.drop_last()[i] != ',' by {
                assert(s.drop_last()[i] == s[i]);
            }
        }
        lemma_filter_keeps(s.drop_last());
        assert(s.drop_last().push(s.last()) =~= s);
        lemma_filter_push(s.drop_last(), s.last());
    } else {
        reveal(Seq::filter);
    }
}

/// Dropping the commas of a grouped text without commas gives it back.
pub proof fn lemma_grouping_keeps_digits(s: Seq<char>)
    requires
        !s.contains(','),
    ensures
        without_commas(group_thousands(s)) == s,
    decreases s.len(),
{
    if s.len() <= 3 {
        lemma_filter_keeps(s);
    } else {
        let head = s.subrange(0, s.len() - 3);
        let tail = s.subrange(s.len() - 3, s.len() as int);
        assert(!head.contains(',')) by {
            assert forall|i: int| 0 <= i < head.len() implies head[i] != ',' by {
                assert(head[i] == s[i]);
            }
        }
        assert(!tail.contains(',')) by {
            assert forall|i: int| 0 <= i < tail.len() implies tail[i] != ',' by {
                assert(tail[i] == s[s.len() - 3 + i]);
            }
        }
        lemma_grouping_keeps_digits(head);
        lemma_filter_keeps(tail);
        let g = group_thousands(head);
        Seq::filter_distributes_over_add(g.push(','), tail, not_comma());
        lemma_filter_push(g, ',');
        assert(s =~= head + tail);
    }
}

/// The number of commas in a text.
pub open spec fn comma_count(s: Seq<char>) -> nat
    decreases s.len(),
{
    if s.len() == 0 {
        0
    } else {
        comma_count(s.drop_last()) + if s.last() == ',' {
            1nat
        } else {
            0nat
        }
    }
}

/// A text grouped by threes: commas stand exactly at the positions that are
/// a multiple of four from the end, never first, and the length is no
/// multiple of four; so the first group has one to three characters and
/// every later group three.
pub open spec fn grouped_by_threes(g: Seq<char>) -> bool {
    &&& g.len() % 4 != 0
    &&& forall|i: int| 0 <= i < g.len() ==> ((g[i] == ',') <==> (i > 0 && (g.len() - i) % 4 == 0))
}

proof fn lemma_comma_count_add(a: Seq<char>, b: Seq<char>)
    ensures
        comma_count(a + b) == comma_count(a) + comma_count(b),
    decreases b.len(),
{
    if b.len() > 0 {
        lemma_comma_count_add(a, b.drop_last());
        assert((a + b).drop_last() =~= a + b.drop_last());
        assert((a + b).last() == b.last());
    } else {
        assert(a + b =~= a);
    }
}

proof fn lemma_no_comma_count(s: Seq<char>)
    requires
        !s.contains(','),
    ensures
        comma_count(s) == 0,
    decreases s.len(),
{
    if s.len() > 0 {
        assert(!s.drop_last().contains(',')) by {
            assert forall|i: int| 0 <= i < s.drop_last().len() implies s.drop_last()[i] != ',' by {
                assert(s.drop_last()[i] == s[i]);
            }
        }
        lemma_no_comma_count(s.drop_last());
        assert(s.last() == s[s.len() - 1]);
    }
}

/// Grouping a text of digits puts commas exactly where `grouped_by_threes`
/// says, one per group of three beyond the first.
pub proof fn lemma_grouped_shape(s: Seq<char>)
    requires
        s.len() > 0,
        !s.contains(','),
    ensures
        grouped_by_threes(group_thousands(s)),
        comma_count(group_thousands(s)) == (s.len() - 1) / 3,
    decreases s.len(),
{
    lemma_grouped_length(s);
    if s.len() <= 3 {
        lemma_no_comma_count(s);
        assert forall|i: int| 0 <= i < s.len() implies ((s[i] == ',') <==> (i > 0 && (s.len() - i)
            % 4 == 0)) by {
            assert(s[i] != ',');
        }
    } else {
        let head = s.subrange(0, s.len() - 3);
        let tail = s.subrange(s.len() - 3, s.len() as int);
        assert(!head.contains(',')) by {
            assert forall|i: int| 0 <= i < head.len() implies head[i] != ',' by {
                assert(head[i] == s[i]);
            }
        }
        assert(!tail.contains(',')) by {
            assert forall|i: int| 0 <= i < tail.len() implies tail[i] != ',' by {
                assert(tail[i] == s[s.len() - 3 + i]);
            }
        }
        lemma_grouped_shape(head);
        let h = group_thousands(head);
        let g = group_thousands(s);
        assert(g == h.push(',') + tail);
        lemma_grouped_length(head);
        assert(g.len() == h.len() + 4);
        assert forall|i: int| 0 <= i < g.len() implies ((g[i] == ',') <==> (i > 0 && (g.len() - i)
            % 4 == 0)) by {
            if i < h.len() {
                assert(g[i] == h[i]);
                assert((g.len() - i) % 4 == (h.len() - i) % 4);
            } else if i == h.len() {
                assert(g[i] == ',');
            } else {
                assert(g[i] == tail[i - h.len() - 1]);
            }
        }
        lemma_comma_count_add(h.push(','), tail);
        lemma_no_comma_count(tail);
        assert(h.push(',').drop_last() =~= h);
    }
}

/// A number shown with grouped digits reads back as its decimal once the
/// commas are dropped; its first group has one to three digits and every
/// later group three, with one comma per group beyond the first.
pub proof fn lemma_format_number_digits(n: nat)
    ensures
        without_commas(group_thousands(decimal(n))) == decimal(n),
        group_thousands(decimal(n)).len() == decimal(n).len() + (decimal(n).len() - 1) / 3,
        grouped_by_threes(group_thousands(decimal(n))),
        comma_count(group_thousands(decimal(n))) == (decimal(n).len() - 1) / 3,
{
    lemma_decimal_has_no_comma(n);
    lemma_grouping_keeps_digits(decimal(n));
    lemma_grouped_length(decimal(n));
    lemma_grouped_shape(decimal(n));
}

/// A path shortened to `max_len` characters fits in them once `max_len` is
/// at least 3 (below that it is `...`), is the path itself when it fits, and
/// otherwise keeps equally many characters of its start and of its end.
pub proof fn lemma_truncated_fits(s: Seq<char>, max_len: nat)
    ensures
        max_len >= 3 ==> truncated_middle(s, max_len).len() <= max_len,
        s.len() <= max_len ==> truncated_middle(s, max_len) == s,
        s.len() > max_len && max_len >= 5 ==> ({
            let keep = ((max_len - 3) as nat) / 2;
            &&& truncated_middle(s, max_len).take(keep as int) == s.take(keep as int)
            &&& truncated_middle(s, max_len).skip((keep + 3) as int) == s.skip(s.len() - keep)
        }),
{
    if s.len() > max_len && max_len >= 5 {
        let keep = ((max_len - 3) as nat) / 2;
        let t = truncated_middle(s, max_len);
        assert(t.take(keep as int) =~= s.take(keep as int));
        assert(t.skip((keep + 3) as int) =~= s.skip(s.len() - keep));
    }
}

/// The thread overlay lies within the width of the screen, and within its
/// height when the screen has at least 8 rows.
pub proof fn lemma_overlay_within_screen(width: nat, height: nat, count: nat)
    ensures
        overlay_rect(width, height, count).0 + overlay_rect(width, height, count).2 <= width,
        height >= 8 ==> overlay_rect(width, height, count).1 + overlay_rect(width, height, count).3
            <= height,
{
    assert(width * 4 / 5 <= width) by (nonlinear_arith);
}

proof fn lemma_two_digits_len(n: nat)
    requires
        n < 100,
    ensures
        two_digits(n).len() == 2,
{
    if n >= 10 {
        assert(n / 10 < 10);
        assert(decimal(n / 10).len() == 1);
    }
}

/// The time of day has the shape `HH:MM:SS`: eight characters, colons at
/// the third and sixth place.
pub proof fn lemma_hms_shape(secs: int)
    ensures
        hms_of(secs).len() == 8,
        hms_of(secs)[2] == ':',
        hms_of(secs)[5] == ':',
{
    let d = secs % 86400;
    lemma_two_digits_len((d / 3600) as nat);
    lemma_two_digits_len(((d % 3600) / 60) as nat);
    lemma_two_digits_len((d % 60) as nat);
    reveal_strlit(":");
}

/// Laying the log out settles the offset without moving a view the user
/// scrolled: a view that does not follow the end and lies within the last
/// screenful for the new height stays where it is; a following view goes to
/// the last screenful; a view beyond it is pulled back to it. Nothing else
/// changes but the remembered height.
pub proof fn lemma_layout_keeps_scrolled_view(s: AppState, h: usize)
    requires
        s.wf(),
    ensures
        ({
            let max: int = if s.logs.len() > h { s.logs.len() - h } else { 0 };
            let t = s.laid_out(h);
            &&& !s.auto_scroll && s.scroll_offset <= max ==> t.scroll_offset == s.scroll_offset
            &&& s.auto_scroll ==> t.scroll_offset == max
            &&& s.scroll_offset > max ==> t.scroll_offset == max
            &&& t.last_visible_height == h
            &&& (AppState { scroll_offset: s.scroll_offset, last_visible_height: s.last_visible_height, ..t }) == s
        }),
{
}

/// Adding an entry keeps a view that does not follow the end on the same
/// entries: while the log is not full the offset does not move; when the
/// oldest entry is dropped the offset moves up by one with it, so the first
/// shown entry stays the same. A following view is pinned to the end.
/// Nothing else changes but the log.
pub proof fn lemma_add_log_keeps_view(s: AppState, e: EntryView)
    requires
        s.wf(),
    ensures
        ({
            let t = s.with_log(e);
            &&& !s.auto_scroll && s.logs.len() < s.max_logs ==> t.scroll_offset == s.scroll_offset
            &&& !s.auto_scroll && s.logs.len() == s.max_logs ==> t.scroll_offset == (if s.scroll_offset
                > 0 {
                s.scroll_offset - 1
            } else {
                0
            })
            &&& !s.auto_scroll ==> !t.auto_scroll
            &&& !s.auto_scroll && s.scroll_offset < s.logs.len() && (s.logs.len() < s.max_logs
                || s.scroll_offset > 0) ==> t.logs[t.scroll_offset as int] == s.logs[s.scroll_offset as int]
            &&& s.auto_scroll ==> t.auto_scroll && t.scroll_offset == usize::MAX
            &&& (AppState { logs: s.logs, scroll_offset: s.scroll_offset, auto_scroll: s.auto_scroll, ..t }) == s
        }),
{
}

/// The long and the short form of an option are names of one option.
pub open spec fn option_forms(long: Seq<char>, short: Seq<char>) -> bool {
    ||| long == "--input"@ && short == "-i"@
    ||| long == "--output"@ && short == "-o"@
    ||| long == "--combine"@ && short == "-c"@
    ||| long == "--title"@ && short == "-t"@
    ||| long == "--host"@ && short == "-h"@
}

proof fn lemma_option_names_differ()
    ensures
        "--input"@ != "-i"@,
        "--input"@ != "--output"@,
        "--input"@ != "-o"@,
        "--input"@ != "--combine"@,
        "--input"@ != "-c"@,
        "--input"@ != "--title"@,
        "--input"@ != "-t"@,
        "--input"@ != "--host"@,
        "--input"@ != "-h"@,
        "-i"@ != "--output"@,
        "-i"@ != "-o"@,
        "-i"@ != "--combine"@,
        "-i"@ != "-c"@,
        "-i"@ != "--title"@,
        "-i"@ != "-t"@,
        "-i"@ != "--host"@,
        "-i"@ != "-h"@,
        "--output"@ != "-o"@,
        "--output"@ != "--combine"@,
        "--output"@ != "-c"@,
        "--output"@ != "--title"@,
        "--output"@ != "-t"@,
        "--output"@ != "--host"@,
        "--output"@ != "-h"@,
        "-o"@ != "--combine"@,
        "-o"@ != "-c"@,
        "-o"@ != "--title"@,
        "-o"@ != "-t"@,
        "-o"@ != "--host"@,
        "-o"@ != "-h"@,
        "--combine"@ != "-c"@,
        "--combine"@ != "--title"@,
        "--combine"@ != "-t"@,
        "--combine"@ != "--host"@,
        "--combine"@ != "-h"@,
        "-c"@ != "--title"@,
        "-c"@ != "-t"@,
        "-c"@ != "--host"@,
        "-c"@ != "-h"@,
        "--title"@ != "-t"@,
        "--title"@ != "--host"@,
        "--title"@ != "-h"@,
        "-t"@ != "--host"@,
        "-t"@ != "-h"@,
        "--host"@ != "-h"@,
{
    reveal_strlit("--input");
    reveal_strlit("-i");
    reveal_strlit("--output");
    reveal_strlit("-o");
    reveal_strlit("--combine");
    reveal_strlit("-c");
    reveal_strlit("--title");
    reveal_strlit("-t");
    reveal_strlit("--host");
    reveal_strlit("-h");
    assert("--input"@ != "-i"@) by { assert("--input"@.len() != "-i"@.len()); }
    assert("--input"@ != "--output"@) by { assert("--input"@.len() != "--output"@.len()); }
    assert("--input"@ != "-o"@) by { assert("--input"@.len() != "-o"@.len()); }
    assert("--input"@ != "--combine"@) by { assert("--input"@.len() != "--combine"@.len()); }
    assert("--input"@ != "-c"@) by { assert("--input"@.len() != "-c"@.len()); }
    assert("--input"@ != "--title"@) by { assert("--input"@[2] != "--title"@[2]); }
    assert("--input"@ != "-t"@) by { assert("--input"@.len() != "-t"@.len()); }
    assert("--input"@ != "--host"@) by { assert("--input"@.len() != "--host"@.len()); }
    assert("--input"@ != "-h"@) by { assert("--input"@.len() != "-h"@.len()); }
    assert("-i"@ != "--output"@) by { assert("-i"@.len() != "--output"@.len()); }
    assert("-i"@ != "-o"@) by { assert("-i"@[1] != "-o"@[1]); }
    assert("-i"@ != "--combine"@) by { assert("-i"@.len() != "--combine"@.len()); }
    assert("-i"@ != "-c"@) by { assert("-i"@[1] != "-c"@[1]); }
    assert("-i"@ != "--title"@) by { assert("-i"@.len() != "--title"@.len()); }
    assert("-i"@ != "-t"@) by { assert("-i"@[1] != "-t"@[1]); }
    assert("-i"@ != "--host"@) by { assert("-i"@.len() != "--host"@.len()); }
    assert("-i"@ != "-h"@) by { assert("-i"@[1] != "-h"@[1]); }
    assert("--output"@ != "-o"@) by { assert("--output"@.len() != "-o"@.len()); }
    assert("--output"@ != "--combine"@) by { assert("--output"@.len() != "--combine"@.len()); }
    assert("--output"@ != "-c"@) by { assert("--output"@.len() != "-c"@.len()); }
    assert("--output"@ != "--title"@) by { assert("--output"@.len() != "--title"@.len()); }
    assert("--output"@ != "-t"@) by { assert("--output"@.len() != "-t"@.len()); }
    assert("--output"@ != "--host"@) by { assert("--output"@.len() != "--host"@.len()); }
    assert("--output"@ != "-h"@) by { assert("--output"@.len() != "-h"@.len()); }
    assert("-o"@ != "--combine"@) by { assert("-o"@.len() != "--combine"@.len()); }
    assert("-o"@ != "-c"@) by { assert("-o"@[1] != "-c"@[1]); }
    assert("-o"@ != "--title"@) by { assert("-o"@.len() != "--title"@.len()); }
    assert("-o"@ != "-t"@) by { assert("-o"@[1] != "-t"@[1]); }
    assert("-o"@ != "--host"@) by { assert("-o"@.len() != "--host"@.len()); }
    assert("-o"@ != "-h"@) by { assert("-o"@[1] != "-h"@[1]); }
    assert("--combine"@ != "-c"@) by { assert("--combine"@.len() != "-c"@.len()); }
    assert("--combine"@ != "--title"@) by { assert("--combine"@.len() != "--title"@.len()); }
    assert("--combine"@ != "-t"@) by { assert("--combine"@.len() != "-t"@.len()); }
    assert("--combine"@ != "--host"@) by { assert("--combine"@.len() != "--host"@.len()); }
    assert("--combine"@ != "-h"@) by { assert("--combine"@.len() != "-h"@.len()); }
    assert("-c"@ != "--title"@) by { assert("-c"@.len() != "--title"@.len()); }
    assert("-c"@ != "-t"@) by { assert("-c"@[1] != "-t"@[1]); }
    assert("-c"@ != "--host"@) by { assert("-c"@.len() != "--host"@.len()); }
    assert("-c"@ != "-h"@) by { assert("-c"@[1] != "-h"@[1]); }
    assert("--title"@ != "-t"@) by { assert("--title"@.len() != "-t"@.len()); }
    assert("--title"@ != "--host"@) by { assert("--title"@.len() != "--host"@.len()); }
    assert("--title"@ != "-h"@) by { assert("--title"@.len() != "-h"@.len()); }
    assert("-t"@ != "--host"@) by { assert("-t"@.len() != "--host"@.len()); }
    assert("-t"@ != "-h"@) by { assert("-t"@[1] != "-h"@[1]); }
    assert("--host"@ != "-h"@) by { assert("--host"@.len() != "-h"@.len()); }
}

proof fn lemma_read_args_reads_from(a: Seq<String>, b: Seq<String>, i: nat, st: ArgsSoFar)
    requires
        a.len() == b.len(),
        forall|k: int| i <= k < a.len() ==> (#[trigger] a[k])@ == b[k]@,
    ensures
        read_args(a, i, st) == read_args(b, i, st),
    decreases a.len() - i,
{
    if i < a.len() {
        let x = a[i as int]@;
        let has = i + 1 < a.len();
        let v = if has { a[(i + 1) as int]@ } else { Seq::empty() };
        assert(b[i as int]@ == x);
        if has {
            assert(b[(i + 1) as int]@ == v);
        }
        if x == "--input"@ || x == "-i"@ {
            if has {
                lemma_read_args_reads_from(a, b, i + 2, ArgsSoFar { input: Some(v), ..st });
            }
        } else if x == "--output"@ || x == "-o"@ {
            if has {
                lemma_read_args_reads_from(a, b, i + 2, ArgsSoFar { output: Some(v), ..st });
            }
        } else if x == "--combine"@ || x == "-c"@ {
            lemma_read_args_reads_from(a, b, i + 1, ArgsSoFar { combine: true, ..st });
        } else if x == "--title"@ || x == "-t"@ {
            if has {
                lemma_read_args_reads_from(a, b, i + 2, ArgsSoFar { title: Some(v), ..st });
            }
        } else if x == "--host"@ || x == "-h"@ {
            if has {
                lemma_read_args_reads_from(a, b, i + 2, ArgsSoFar { host: Some(v), ..st });
            }
        }
    }
}

/// Each option reads the same in its long and its short form: where an
/// argument is read as an option, `--input`/`-i`, `--output`/`-o`,
/// `--combine`/`-c`, `--title`/`-t` and `--host`/`-h` lead to the same
/// outcome, whatever the other arguments are.
pub proof fn lemma_option_forms_agree(args: Seq<String>, i: nat, st: ArgsSoFar, long: String, short: String)
    requires
        i < args.len(),
        option_forms(long@, short@),
    ensures
        read_args(args.update(i as int, long), i, st) == read_args(args.update(i as int, short), i, st),
{
    lemma_option_names_differ();
    let a = args.update(i as int, long);
    let b = args.update(i as int, short);
    assert forall|k: int| i + 1 <= k < a.len() implies (#[trigger] a[k])@ == b[k]@ by {}
    let has = i + 1 < a.len();
    let v = if has { a[(i + 1) as int]@ } else { Seq::empty() };
    if has {
        assert(b[(i + 1) as int]@ == v);
    }
    assert(a[i as int]@ == long@ && b[i as int]@ == short@);
    if long@ == "--input"@ {
        if has {
            lemma_read_args_reads_from(a, b, i + 2, ArgsSoFar { input: Some(v), ..st });
        }
    } else if long@ == "--output"@ {
        if has {
            lemma_read_args_reads_from(a, b, i + 2, ArgsSoFar { output: Some(v), ..st });
        }
    } else if long@ == "--combine"@ {
        lemma_read_args_reads_from(a, b, i + 1, ArgsSoFar { combine: true, ..st });
    } else if long@ == "--title"@ {
        if has {
            lemma_read_args_reads_from(a, b, i + 2, ArgsSoFar { title: Some(v), ..st });
        }
    } else {
        if has {
            lemma_read_args_reads_from(a, b, i + 2, ArgsSoFar { host: Some(v), ..st });
        }
    }
}

/// `--input x --output y` reads input `x` and output `y`, and nothing else,
/// whatever `x` and `y` are.
pub proof fn lemma_input_then_output(i_flag: String, x: String, o_flag: String, y: String)
    requires
        i_flag@ == "--input"@,
        o_flag@ == "--output"@,
    ensures
        read_args(seq![i_flag, x, o_flag, y], 0, no_args()) == ArgsOutcome::Read(
            ArgsSoFar { input: Some(x@), output: Some(y@), combine: false, title: None, host: None },
        ),
{
    lemma_option_names_differ();
    let args = seq![i_flag, x, o_flag, y];
    assert(args[0]@ == "--input"@ && args[1]@ == x@);
    assert(args[2]@ == "--output"@ && args[3]@ == y@);
    let s1 = ArgsSoFar { input: Some(x@), ..no_args() };
    let s2 = ArgsSoFar { output: Some(y@), ..s1 };
    assert(read_args(args, 4, s2) == ArgsOutcome::Read(s2));
    assert(read_args(args, 2, s1) == read_args(args, 4, s2));
    assert(read_args(args, 0, no_args()) == read_args(args, 2, s1));
}

/// The banner's elevation field shows whether the scan runs elevated, and
/// nothing else: `Elevated: YES` in bold green exactly when it does,
/// `Elevated: NO` in bold red otherwise; settings that agree on elevation
/// show the same field.
pub proof fn lemma_banner_elevation(
    s: SettingsDisplay,
    t: SettingsDisplay,
    w: nat,
    version: Seq<char>,
    skipped: nat,
    progress: Seq<char>,
)
    ensures
        banner_view(s, w, version, skipped, progress)[2][1].text == "Elevated: "@ + (if s.is_elevated {
            "YES"@
        } else {
            "NO"@
        }) + "  "@,
        banner_view(s, w, version, skipped, progress)[2][1].style == style(
            Some(if s.is_elevated { Hue::Green } else { Hue::Red }),
            None,
            true,
            false,
        ),
        t.is_elevated == s.is_elevated ==> banner_view(t, w, version, skipped, progress)[2][1]
            == banner_view(s, w, version, skipped, progress)[2][1],
{
}

/// Each banner field shows its own setting: threads, CPU limit, rule and
/// indicator counts and exclusions in decimal, each scan switch as `ON` or
/// `OFF`, the skipped count and the progress.
pub proof fn lemma_banner_fields(
    s: SettingsDisplay,
    w: nat,
    version: Seq<char>,
    skipped: nat,
    progress: Seq<char>,
)
    ensures
        ({
            let b = banner_view(s, w, version, skipped, progress);
            &&& b.len() == 4 && b[1].len() == 7 && b[2].len() == 7
            &&& b[0][1].text == "v"@ + version
            &&& b[1][1].text == "Target: "@ + truncated_middle(
                s.target_folder@,
                if w >= 14 { (w - 14) as nat } else { 0 },
            ) + "  "@
            &&& b[1][2].text == "Threads: "@ + decimal(s.threads as nat) + "  "@
            &&& b[1][3].text == "CPU: "@ + decimal(s.cpu_limit as nat) + "%  "@
            &&& b[1][4].text == "YARA: "@ + decimal(s.yara_rules_count as nat) + "  "@
            &&& b[1][5].text == "IOCs: "@ + decimal(s.ioc_count as nat) + "  "@
            &&& b[1][6].text == "Excl: "@ + decimal(s.exclusion_count as nat)
            &&& b[2][2].text == "AllTypes: "@ + (if s.scan_all_types { "ON"@ } else { "OFF"@ }) + "  "@
            &&& b[2][3].text == "HardDrv: "@ + (if s.scan_hard_drives { "ON"@ } else { "OFF"@ }) + "  "@
            &&& b[2][4].text == "AllDrv: "@ + (if s.scan_all_drives { "ON"@ } else { "OFF"@ }) + "  "@
            &&& b[2][5].text == "Skipped: "@ + decimal(skipped) + "  "@
            &&& b[2][6].text == "Progress: "@ + progress + "%"@
        }),
{
}

/// The first reason of a match, if any.
pub open spec fn leading_reason(reasons: Option<Vec<String>>) -> Seq<char> {
    match reasons {
        Some(r) => if r@.len() > 0 { r@[0]@ } else { Seq::empty() },
        None => Seq::empty(),
    }
}

/// The line of a match ends with its first reason: a process match reads
/// name, `PID:`, PID, `SCORE:`, score and the first reason; a file match
/// path, `SCORE:`, score and the first reason (missing parts read `unknown`
/// and `0`). Any other event starts with its message, and is just the
/// message when it has no context.
pub proof fn lemma_event_lines(e: LogEvent)
    ensures
        e.event_type == EventType::ProcessMatch ==> event_text(e) == (match e.process_name {
            Some(n) => n@,
            None => "unknown"@,
        }) + " PID:"@ + decimal(
            match e.pid {
                Some(p) => p as nat,
                None => 0,
            },
        ) + " SCORE:"@ + (match e.score {
            Some(x) => x@,
            None => "0"@,
        }) + " "@ + leading_reason(e.reasons),
        e.event_type == EventType::FileMatch ==> event_text(e) == (match e.file_path {
            Some(f) => f@,
            None => "unknown"@,
        }) + " SCORE:"@ + (match e.score {
            Some(x) => x@,
            None => "0"@,
        }) + " "@ + leading_reason(e.reasons),
        e.event_type != EventType::ProcessMatch && e.event_type != EventType::FileMatch ==> event_text(
            e,
        ).take(e.message@.len() as int) == e.message@,
        e.event_type != EventType::ProcessMatch && e.event_type != EventType::FileMatch
            && e.context@.len() == 0 ==> event_text(e) == e.message@,
{
    if e.event_type != EventType::ProcessMatch && e.event_type != EventType::FileMatch {
        let c = crate::events::context_suffix(e.context@);
        assert((e.message@ + c).take(e.message@.len() as int) =~= e.message@);
        if e.context@.len() == 0 {
            assert(e.message@ + c =~= e.message@);
        }
    }
}

/// With no confirmation open, each key does what the help says: `k`/Up
/// scroll one entry up and `j`/Down one down, the page keys ten, `g`/Home
/// go to the first entry, `G`/End follow the end, `-`/`_` and `+`/`=` ask
/// for ten percent less or more CPU, `p` pauses or resumes, `s` skips, and
/// none of these quits.
pub proof fn lemma_keys_do_what_they_say(s: AppState, ctrl: bool)
    requires
        !s.quit_pending,
    ensures
        key_step(s, Key::Up, ctrl) == (s.scrolled_up(1), KeyOutcome::Continue),
        key_step(s, Key::Char('k'), ctrl) == (s.scrolled_up(1), KeyOutcome::Continue),
        key_step(s, Key::Down, ctrl) == (s.scrolled_down(1), KeyOutcome::Continue),
        key_step(s, Key::Char('j'), ctrl) == (s.scrolled_down(1), KeyOutcome::Continue),
        key_step(s, Key::PageUp, ctrl) == (s.scrolled_up(10), KeyOutcome::Continue),
        key_step(s, Key::PageDown, ctrl) == (s.scrolled_down(10), KeyOutcome::Continue),
        key_step(s, Key::Home, ctrl).0.scroll_offset == 0 && !key_step(s, Key::Home, ctrl).0.auto_scroll,
        key_step(s, Key::Char('g'), ctrl) == key_step(s, Key::Home, ctrl),
        key_step(s, Key::End, ctrl).0.auto_scroll && key_step(s, Key::End, ctrl).1 == KeyOutcome::Continue,
        key_step(s, Key::Char('G'), ctrl) == key_step(s, Key::End, ctrl),
        key_step(s, Key::Char('-'), ctrl) == (s, KeyOutcome::AdjustCpuLimit(-10i32)),
        key_step(s, Key::Char('_'), ctrl) == (s, KeyOutcome::AdjustCpuLimit(-10i32)),
        key_step(s, Key::Char('+'), ctrl) == (s, KeyOutcome::AdjustCpuLimit(10i32)),
        key_step(s, Key::Char('='), ctrl) == (s, KeyOutcome::AdjustCpuLimit(10i32)),
        key_step(s, Key::Char('p'), ctrl) == (s, KeyOutcome::TogglePause),
        key_step(s, Key::Char('P'), ctrl) == (s, KeyOutcome::TogglePause),
        key_step(s, Key::Char('s'), ctrl) == (s, KeyOutcome::RequestSkip),
        key_step(s, Key::Char('S'), ctrl) == (s, KeyOutcome::RequestSkip),
        key_step(s, Key::Esc, ctrl).1 == KeyOutcome::Continue,
        s.show_threads_overlay ==> key_step(s, Key::Esc, ctrl).0 == (AppState {
            show_threads_overlay: false,
            ..s
        }),
        !s.show_threads_overlay ==> key_step(s, Key::Esc, ctrl).0 == key_step(s, Key::End, ctrl).0,
{
}

/// Scrolling moves by the amount asked: up by exactly that many entries
/// (stopping at the first), down by exactly that many (stopping at the last
/// screenful); scrolling up by one and then down by one from within the last
/// screenful comes back to the same entry.
pub proof fn lemma_scroll_amounts(s: AppState, amount: nat)
    requires
        s.wf(),
        s.scroll_offset <= s.max_scroll(),
    ensures
        s.scrolled_up(amount).scroll_offset == (if s.scroll_offset >= amount {
            s.scroll_offset - amount
        } else {
            0
        }),
        s.scrolled_down(amount).scroll_offset == (if s.scroll_offset + amount <= s.max_scroll() {
            s.scroll_offset + amount
        } else {
            s.max_scroll() as int
        }),
        s.scroll_offset >= 1 ==> s.scrolled_up(1).scrolled_down(1).scroll_offset == s.scroll_offset,
        s.scrolled_up(amount).logs == s.logs && s.scrolled_down(amount).logs == s.logs,
{
}

/// What each scanner message does: a log message appends its entry last; the
/// end of the scan records when it ended and how long it took and logs
/// `Scan complete. Exiting...` as information; progress replaces the loading
/// text; the end of loading stops the spinner and shows the rule and
/// indicator counts it reports. Nothing else changes.
pub proof fn lemma_messages_do_what_they_say(s: AppState, m: TuiMessage, clock: Clock)
    requires
        s.wf(),
    ensures
        ({
            let t = s.with_message(m, clock);
            match m {
                TuiMessage::Log(e) => {
                    &&& t.logs.last() == entry_of(e)
                    &&& t.logs.last().level == e.level
                    &&& t.logs.last().message == event_text(e)
                    &&& t.logs.last().timestamp == hms_of(e.timestamp.seconds())
                    &&& t.scan_complete == s.scan_complete
                },
                TuiMessage::ScanComplete => {
                    &&& t.scan_complete
                    &&& t.completed_at_ms == Some(clock.monotonic_ms)
                    &&& t.final_duration_secs == Some(clock.scan_elapsed_secs)
                    &&& t.logs.last().message == "Scan complete. Exiting..."@
                    &&& t.logs.last().level == LogLevel::Info
                    &&& t.logs.last().timestamp == hms_of(clock.now.seconds())
                    &&& t.is_loading == s.is_loading && t.settings == s.settings
                },
                TuiMessage::InitProgress(msg) => t == (AppState { loading_message: msg@, ..s }),
                TuiMessage::InitComplete { yara_rules_count, ioc_count } => {
                    &&& !t.is_loading
                    &&& t.loading_message.len() == 0
                    &&& t.settings.yara_rules_count == yara_rules_count
                    &&& t.settings.ioc_count == ioc_count
                    &&& t.settings.threads == s.settings.threads
                    &&& t.settings.cpu_limit == s.settings.cpu_limit
                    &&& t.settings.is_elevated == s.settings.is_elevated
                    &&& t.logs == s.logs && t.scroll_offset == s.scroll_offset
                    &&& t.scan_complete == s.scan_complete
                },
            }
        }),
{
}

/// A message fits in the width less 18 columns: it is shown whole when it
/// fits, and otherwise as its start followed by `...`, exactly filling the
/// room (three characters at least).
pub proof fn lemma_message_cell(m: Seq<char>, width: nat)
    ensures
        ({
            let room: nat = if width >= 18 { (width - 18) as nat } else { 0 };
            let c = message_cell(m, width);
            &&& m.len() <= room ==> c == m
            &&& m.len() > room ==> c.len() == (if room >= 3 { room } else { 3 })
            &&& m.len() > room ==> c.take(c.len() - 3) == m.take(c.len() - 3)
            &&& m.len() > room ==> c.skip(c.len() - 3) == seq!['.', '.', '.']
        }),
{
    let room: nat = if width >= 18 { (width - 18) as nat } else { 0 };
    if m.len() > room {
        let c = message_cell(m, width);
        assert(c.take(c.len() - 3) =~= m.take(c.len() - 3));
        assert(c.skip(c.len() - 3) =~= seq!['.', '.', '.']);
    }
}

/// A log row shows the entry's severity label padded to seven columns in
/// the severity's tag style, then its time between spaces, then its message
/// cut to the width in the severity's colour.
pub proof fn lemma_entry_row(e: EntryView, width: nat)
    ensures
        entry_row(e, width).len() == 3,
        entry_row(e, width)[0].text.take(level_name(e.level).len() as int) == level_name(e.level),
        entry_row(e, width)[0].text.len() == (if level_name(e.level).len() >= 7 {
            level_name(e.level).len()
        } else {
            7
        }),
        entry_row(e, width)[0].style == severity_tag_style(e.level),
        entry_row(e, width)[1].text == seq![' '] + e.timestamp + seq![' '],
        entry_row(e, width)[2].text == message_cell(e.message, width),
        entry_row(e, width)[2].style.fg == Some(severity_color(e.level)),
{
    reveal_strlit(" ");
    let t = entry_row(e, width)[0].text;
    assert(t.take(level_name(e.level).len() as int) =~= level_name(e.level));
}

/// The log panel shows, after the loading row while loading, the entries
/// from the scroll offset on, in order, as many as fit in the height.
pub proof fn lemma_log_panel_rows(s: AppState, width: nat)
    requires
        s.scroll_offset <= s.logs.len(),
    ensures
        ({
            let rows = log_panel_view(s, width);
            let head: int = if s.is_loading { 1 } else { 0 };
            let shown: int = if s.scroll_offset + s.last_visible_height <= s.logs.len() {
                s.last_visible_height as int
            } else {
                s.logs.len() - s.scroll_offset
            };
            &&& rows.len() == head + shown
            &&& forall|k: int| 0 <= k < shown ==> #[trigger] rows[head + k] == entry_row(
                s.logs[s.scroll_offset + k],
                width,
            )
            &&& s.is_loading ==> rows[0][1].text == s.loading_message
        }),
{
}

/// The number that a text of decimal digits stands for.
pub open spec fn digits_value(s: Seq<char>) -> int
    decreases s.len(),
{
    if s.len() == 0 {
        0
    } else {
        digits_value(s.drop_last()) * 10 + ((s.last() as int) - ('0' as int))
    }
}

/// Every character is a decimal digit.
pub open spec fn all_digits(s: Seq<char>) -> bool {
    forall|i: int| 0 <= i < s.len() ==> '0' <= #[trigger] s[i] <= '9'
}

proof fn lemma_digit_char(d: nat)
    requires
        d < 10,
    ensures
        digit_char(d) as int == '0' as int + d,
        '0' <= digit_char(d) <= '9',
{
    assert(('0' as u32 + d) as int == 48 + d);
}

/// A number's decimal text is made of digits, reads back as the number,
/// and has no leading zero.
pub proof fn lemma_decimal_reads_back(n: nat)
    ensures
        decimal(n).len() > 0,
        all_digits(decimal(n)),
        digits_value(decimal(n)) == n,
        decimal(n)[0] == '0' ==> n == 0,
    decreases n,
{
    if n < 10 {
        lemma_digit_char(n);
        assert(decimal(n).drop_last() =~= Seq::<char>::empty());
        assert(digits_value(Seq::<char>::empty()) == 0);
        assert(digits_value(decimal(n)) == digits_value(decimal(n).drop_last()) * 10 + ((decimal(
            n,
        ).last() as int) - ('0' as int)));
    } else {
        lemma_decimal_reads_back(n / 10);
        lemma_digit_char(n % 10);
        let d = decimal(n);
        assert(d.drop_last() =~= decimal(n / 10));
        assert(d[0] == decimal(n / 10)[0]);
        assert(d.last() == digit_char(n % 10));
        assert(digits_value(d) == (n / 10) * 10 + n % 10);
        assert forall|i: int| 0 <= i < d.len() implies '0' <= #[trigger] d[i] <= '9' by {
            if i < d.len() - 1 {
                assert(d[i] == decimal(n / 10)[i]);
            }
        }
    }
}

/// Two-digit text of a number below a hundred: two digits that read back
/// as the number.
pub proof fn lemma_two_digits_reads_back(n: nat)
    requires
        n < 100,
    ensures
        two_digits(n).len() == 2,
        all_digits(two_digits(n)),
        digits_value(two_digits(n)) == n,
{
    lemma_two_digits_len(n);
    lemma_decimal_reads_back(n);
    if n < 10 {
        lemma_digit_char(n);
        let t = two_digits(n);
        assert(t.drop_last() =~= seq!['0']);
        assert(seq!['0'].drop_last() =~= Seq::<char>::empty());
        assert(digits_value(Seq::<char>::empty()) == 0);
        assert(digits_value(seq!['0']) == digits_value(seq!['0'].drop_last()) * 10 + (('0' as int)
            - ('0' as int)));
        assert(digits_value(seq!['0']) == 0);
        assert(t.last() == digit_char(n));
        assert(digits_value(t) == digits_value(t.drop_last()) * 10 + ((t.last() as int) - ('0' as int)));
    }
}

/// The time of day reads back as the second of the day: its hours, minutes
/// and seconds are below 24, 60 and 60, and hours times 3600 plus minutes
/// times 60 plus seconds is the second of the day.
pub proof fn lemma_hms_reads_back(secs: int)
    ensures
        ({
            let t = hms_of(secs);
            let h = digits_value(t.subrange(0, 2));
            let m = digits_value(t.subrange(3, 5));
            let x = digits_value(t.subrange(6, 8));
            &&& h < 24 && m < 60 && x < 60
            &&& h * 3600 + m * 60 + x == secs % 86400
        }),
{
    let d = secs % 86400;
    let hh = (d / 3600) as nat;
    let mm = ((d % 3600) / 60) as nat;
    let ss = (d % 60) as nat;
    lemma_two_digits_reads_back(hh);
    lemma_two_digits_reads_back(mm);
    lemma_two_digits_reads_back(ss);
    reveal_strlit(":");
    let t = hms_of(secs);
    assert(t.subrange(0, 2) =~= two_digits(hh));
    assert(t.subrange(3, 5) =~= two_digits(mm));
    assert(t.subrange(6, 8) =~= two_digits(ss));
    assert(hh * 3600 + mm * 60 + ss == d) by (nonlinear_arith)
        requires
            0 <= d < 86400,
            hh == d / 3600,
            mm == (d % 3600) / 60,
            ss == d % 60,
    ;
}

/// Rounding to whole units gives the nearest whole number of units: it is
/// off by at most half a unit, and a tie goes to the even number.
pub proof fn lemma_rounded_div_nearest(v: nat, d: nat)
    requires
        d > 0,
    ensures
        2 * (rounded_div(v, d) * d - v) <= d,
        2 * (v - rounded_div(v, d) * d) <= d,
        2 * v == (2 * rounded_div(v, d) - 1) * d || 2 * v == (2 * rounded_div(v, d) + 1) * d
            ==> rounded_div(v, d) % 2 == 0,
{
    let q = v / d;
    let r = v % d;
    assert(v == q * d + r && 0 <= r < d) by (nonlinear_arith)
        requires
            d > 0,
            q == v / d,
            r == v % d,
    ;
    let k = rounded_div(v, d);
    if k == q + 1 {
        assert(k * d == q * d + d) by (nonlinear_arith)
            requires
                k == q + 1,
        ;
    }
    assert(2 * v == (2 * k - 1) * d ==> 2 * r == d) by (nonlinear_arith)
        requires
            v == q * d + r,
            0 <= r < d,
            k == q || k == q + 1,
    ;
    assert(2 * v == (2 * k + 1) * d ==> 2 * r == d) by (nonlinear_arith)
        requires
            v == q * d + r,
            0 <= r < d,
            k == q || k == q + 1,
    ;
}

/// A size is shown in bytes below a thousand, in kilobytes below a
/// million and in megabytes from there, as the nearest whole number of the
/// unit.
pub proof fn lemma_size_units(v: nat)
    ensures
        v < 1000 ==> size_text(v) == decimal(v) + " B"@,
        1000 <= v < 1_000_000 ==> size_text(v) == decimal(rounded_div(v, 1000)) + " KB"@,
        v >= 1_000_000 ==> size_text(v) == decimal(rounded_div(v, 1_000_000)) + " MB"@,
{
}

/// The status bar shows the scan state (done when complete, else paused or
/// running), the file and process counts with grouped digits, the rate, the
/// time left when known, the alert, warning and notice counts, the time spent
/// (the final duration once known) and the CPU limit.
pub proof fn lemma_status_bar(scan_complete: bool, final_duration_secs: Option<u64>, st: ScanStats)
    ensures
        ({
            let r = status_view(scan_complete, final_duration_secs, st);
            &&& r.len() == 24
            &&& r[0].text == (if scan_complete {
                "[DONE] "@
            } else if st.is_paused {
                "[PAUSED] "@
            } else {
                "[RUN] "@
            })
            &&& r[2].text == group_thousands(decimal(st.files_scanned as nat)) + " "@
            &&& r[4].text == group_thousands(decimal(st.processes_scanned as nat)) + " "@
            &&& r[7].text == st.scan_rate@ + "/s "@
            &&& r[10].text == (match st.eta_secs {
                Some(e) => clock_text(e as nat),
                None => "--:--:--"@,
            }) + " "@
            &&& r[13].text == decimal(st.alerts as nat) + " "@
            &&& r[15].text == decimal(st.warnings as nat) + " "@
            &&& r[17].text == decimal(st.notices as nat) + " "@
            &&& r[19].text == clock_text(
                match final_duration_secs {
                    Some(d) => d as nat,
                    None => st.elapsed_secs as nat,
                },
            )
            &&& r[21].text == "CPU:"@ + decimal(st.cpu_limit as nat) + "% "@
        }),
{
}

/// A clock text reads back as the time: hours times 3600 plus minutes times
/// 60 plus seconds, minutes and seconds below 60.
pub proof fn lemma_clock_text_reads_back(secs: nat)
    requires
        secs < 360000,
    ensures
        ({
            let t = clock_text(secs);
            &&& t.len() == 8
            &&& digits_value(t.subrange(0, 2)) * 3600 + digits_value(t.subrange(3, 5)) * 60
                + digits_value(t.subrange(6, 8)) == secs
        }),
{
    let hh = secs / 3600;
    let mm = (secs % 3600) / 60;
    let ss = secs % 60;
    lemma_two_digits_reads_back(hh);
    lemma_two_digits_reads_back(mm);
    lemma_two_digits_reads_back(ss);
    reveal_strlit(":");
    let t = clock_text(secs);
    assert(t.subrange(0, 2) =~= two_digits(hh));
    assert(t.subrange(3, 5) =~= two_digits(mm));
    assert(t.subrange(6, 8) =~= two_digits(ss));
    assert(hh * 3600 + mm * 60 + ss == secs) by (nonlinear_arith)
        requires
            hh == secs / 3600,
            mm == (secs % 3600) / 60,
            ss == secs % 60,
    ;
}

/// The thread overlay shows one row per entry, in order, each with the
/// thread's number counted from one and its element; with no entry a single
/// note, telling whether the scan is paused; then a blank row and the key
/// help. Its title tells whether the scan is paused and how many threads
/// are active.
pub proof fn lemma_overlay_rows(entries: Seq<(usize, String)>, is_paused: bool, w: nat, active: nat)
    ensures
        ({
            let rows = overlay_rows_view(entries, is_paused, w);
            let body: int = if entries.len() == 0 { 1 } else { entries.len() as int };
            &&& rows.len() == body + 2
            &&& rows[body].len() == 0
            &&& forall|i: int| 0 <= i < entries.len() ==> (#[trigger] rows[i])[0].text == " ["@ + pad_left(
                decimal((entries[i].0 + 1) as nat),
                2,
            ) + "] "@ && rows[i][1].text == truncated_middle(
                entries[i].1@,
                if w >= 12 { (w - 12) as nat } else { 0 },
            )
            &&& entries.len() == 0 ==> rows[0][1].text == (if is_paused {
                "Scan is paused. Press [p] to resume."@
            } else {
                "(No active scans)"@
            })
        }),
        overlay_title_view(active, is_paused)[1].text == (if is_paused {
            " [PAUSED] "@
        } else {
            " [SCANNING] "@
        }),
        overlay_title_view(active, is_paused)[2].text == " ("@ + decimal(active) + " active) "@,
{
}

/// The context of a message line lists each pair as ` key=value`, in the
/// order given: adding a pair at the end adds its text at the end.
pub proof fn lemma_context_pairs(ctx: Seq<(String, String)>, p: (String, String))
    ensures
        context_suffix(Seq::empty()) == Seq::<char>::empty(),
        context_suffix(ctx.push(p)) == context_suffix(ctx) + seq![' '] + p.0@ + seq!['='] + p.1@,
{
    reveal_strlit(" ");
    reveal_strlit("=");
    assert(ctx.push(p).drop_last() =~= ctx);
}

/// An archive entry's file name is the part of its name after the last
/// `/`: it holds no `/`, and the name is that file name after a prefix that
/// is empty or ends with `/`.
pub proof fn lemma_base_name(name: Seq<char>)
    ensures
        !base_name(name).contains('/'),
        name.len() >= base_name(name).len(),
        name.skip(name.len() - base_name(name).len()) == base_name(name),
        name.len() > base_name(name).len() ==> name[name.len() - base_name(name).len() - 1] == '/',
    decreases name.len(),
{
    if name.len() > 0 && name.last() != '/' {
        let p = name.drop_last();
        lemma_base_name(p);
        let b = base_name(p);
        assert(base_name(name) == b.push(name.last()));
        assert forall|i: int| 0 <= i < b.len() + 1 implies b.push(name.last())[i] != '/' by {
            if i < b.len() {
                assert(!b.contains('/'));
                assert(b.push(name.last())[i] == b[i]);
            }
        }
        assert(name.skip(name.len() - b.len() - 1) =~= p.skip(p.len() - b.len()).push(name.last()));
        if name.len() > b.len() + 1 {
            assert(name[name.len() - b.len() - 2] == p[p.len() - b.len() - 1]);
        }
    } else if name.len() > 0 {
        assert(name.skip(name.len() as int) =~= Seq::<char>::empty());
    } else {
        assert(name.skip(0) =~= name);
    }
}

/// While loading, each round of messages moves the spinner on one frame
/// (wrapping around); otherwise it stays.
pub proof fn lemma_spinner_moves_while_loading(s: AppState)
    ensures
        s.is_loading && s.spinner_frame < usize::MAX ==> s.spun().spinner_frame == s.spinner_frame + 1,
        s.is_loading && s.spinner_frame == usize::MAX ==> s.spun().spinner_frame == 0,
        !s.is_loading ==> s.spun() == s,
        (AppState { spinner_frame: s.spinner_frame, ..s.spun() }) == s,
{
}

/// The thread overlay is centred: four fifths of the width but at most 100
/// columns, at least 8 rows, and as far from the left edge as from the
/// right (within a column), likewise from top and bottom.
pub proof fn lemma_overlay_centred(width: nat, height: nat, count: nat)
    ensures
        ({
            let (x, y, w, h) = overlay_rect(width, height, count);
            &&& w == (if width * 4 / 5 <= 100 { width * 4 / 5 } else { 100 })
            &&& h >= 8
            &&& h <= (if count % 65536 + 4 >= 8 { count % 65536 + 4 } else { 8 })
            &&& w <= width ==> (x * 2 == width - w || x * 2 + 1 == width - w)
            &&& h <= height ==> (y * 2 == height - h || y * 2 + 1 == height - h)
        }),
{
    assert(width * 4 / 5 <= width) by (nonlinear_arith);
}

/// Each severity has its own label, and its tag is dark text on the
/// severity's colour, bold but for debug.
pub proof fn lemma_severity_labels_and_tags(a: LogLevel, b: LogLevel)
    ensures
        a != b ==> level_name(a) != level_name(b),
        level_name(LogLevel::Alert) == "ALERT"@,
        level_name(LogLevel::Error) == "ERROR"@,
        level_name(LogLevel::Warning) == "WARN"@,
        level_name(LogLevel::Notice) == "NOTICE"@,
        level_name(LogLevel::Info) == "INFO"@,
        level_name(LogLevel::Debug) == "DEBUG"@,
        severity_tag_style(a).fg == Some(Hue::Black),
        severity_tag_style(a).bg == Some(severity_color(a)),
        severity_tag_style(a).bold == (a != LogLevel::Debug),
        severity_color(LogLevel::Alert) == Hue::Red,
{
    reveal_strlit("ALERT");
    reveal_strlit("ERROR");
    reveal_strlit("WARN");
    reveal_strlit("NOTICE");
    reveal_strlit("INFO");
    reveal_strlit("DEBUG");
    if a != b {
        let x = level_name(a);
        let y = level_name(b);
        if x.len() == y.len() {
            assert(x[0] != y[0] || x[1] != y[1]);
        }
    }
}

} // verus!
