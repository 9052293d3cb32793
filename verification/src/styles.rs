//! The colour scheme of the terminal interface: colours and span styles as
//! plain values, which the front end turns into terminal styles.

use vstd::prelude::*;

use crate::events::LogLevel;

verus! {

/// A terminal colour.
#[derive(Clone, Copy, Debug, PartialEq, Eq, Structural)]
pub enum Hue {
    Black,
    Red,
    Green,
    Yellow,
    Cyan,
    White,
    DarkGray,
    Rgb(u8, u8, u8),
}

/// How a span of text is drawn: foreground, background, bold, italic.
/// `SpanStyle::plain()` leaves everything to the terminal's defaults.
#[derive(Clone, Copy, Debug, PartialEq, Eq, Structural)]
pub struct SpanStyle {
    pub fg: Option<Hue>,
    pub bg: Option<Hue>,
    pub bold: bool,
    pub italic: bool,
}

/// The deep yellow used for warnings.
pub open spec fn deep_yellow() -> Hue {
    Hue::Rgb(204, 153, 0)
}

pub open spec fn style(fg: Option<Hue>, bg: Option<Hue>, bold: bool, italic: bool) -> SpanStyle {
    SpanStyle { fg, bg, bold, italic }
}

impl SpanStyle {
    /// The style with no colour and no modifier.
    pub fn plain() -> (s: SpanStyle)
        ensures
            s == style(None, None, false, false),
    {
        SpanStyle { fg: None, bg: None, bold: false, italic: false }
    }

    /// Only a foreground colour.
    pub fn fg(c: Hue) -> (s: SpanStyle)
        ensures
            s == style(Some(c), None, false, false),
    {
        SpanStyle { fg: Some(c), bg: None, bold: false, italic: false }
    }

    /// A foreground colour, bold.
    pub fn fg_bold(c: Hue) -> (s: SpanStyle)
        ensures
            s == style(Some(c), None, true, false),
    {
        SpanStyle { fg: Some(c), bg: None, bold: true, italic: false }
    }

    /// Foreground on background, bold.
    pub fn on_bold(fg: Hue, bg: Hue) -> (s: SpanStyle)
        ensures
            s == style(Some(fg), Some(bg), true, false),
    {
        SpanStyle { fg: Some(fg), bg: Some(bg), bold: true, italic: false }
    }
}

/// The deep yellow used for warnings.
pub fn warning_yellow() -> (c: Hue)
    ensures
        c == deep_yellow(),
{
    Hue::Rgb(204, 153, 0)
}

/// Foreground colour of log text for each severity.
pub open spec fn severity_color(level: LogLevel) -> Hue {
    match level {
        LogLevel::Alert => Hue::Red,
        LogLevel::Error => Hue::Green,
        LogLevel::Warning => deep_yellow(),
        LogLevel::Notice => Hue::Cyan,
        LogLevel::Info => Hue::Green,
        LogLevel::Debug => Hue::White,
    }
}

/// Header style for titles: bright white, bold.
pub fn header_style() -> (s: SpanStyle)
    ensures
        s == style(Some(Hue::White), None, true, false),
{
    SpanStyle::fg_bold(Hue::White)
}

/// Panel border style.
pub fn panel_border_style() -> (s: SpanStyle)
    ensures
        s == style(Some(Hue::DarkGray), None, false, false),
{
    SpanStyle::fg(Hue::DarkGray)
}

/// Active or focused border style.
pub fn active_border_style() -> (s: SpanStyle)
    ensures
        s == style(Some(Hue::White), None, true, false),
{
    SpanStyle::fg_bold(Hue::White)
}

/// Highlight style for important information.
pub fn highlight_style() -> (s: SpanStyle)
    ensures
        s == style(Some(Hue::White), None, true, false),
{
    SpanStyle::fg_bold(Hue::White)
}

/// Dim, muted text.
pub fn muted_style() -> (s: SpanStyle)
    ensures
        s == style(Some(Hue::DarkGray), None, false, false),
{
    SpanStyle::fg(Hue::DarkGray)
}

/// Labels: green, bold.
pub fn label_style() -> (s: SpanStyle)
    ensures
        s == style(Some(Hue::Green), None, true, false),
{
    SpanStyle::fg_bold(Hue::Green)
}

/// Values: primary foreground.
pub fn value_style() -> (s: SpanStyle)
    ensures
        s == style(Some(Hue::White), None, false, false),
{
    SpanStyle::fg(Hue::White)
}

/// Status indicator of a running scan.
pub fn status_running_style() -> (s: SpanStyle)
    ensures
        s == style(Some(Hue::Green), None, true, false),
{
    SpanStyle::fg_bold(Hue::Green)
}

/// Status indicator of a paused scan.
pub fn status_paused_style() -> (s: SpanStyle)
    ensures
        s == style(Some(Hue::Black), Some(deep_yellow()), true, false),
{
    SpanStyle::on_bold(Hue::Black, warning_yellow())
}

/// Status indicator of a finished scan.
pub fn status_complete_style() -> (s: SpanStyle)
    ensures
        s == style(Some(Hue::Black), Some(Hue::Green), true, false),
{
    SpanStyle::on_bold(Hue::Black, Hue::Green)
}

/// Foreground style of log text: the severity colour, bold for alerts,
/// errors and warnings.
pub fn get_severity_style(level: LogLevel) -> (s: SpanStyle)
    ensures
        s == style(
            Some(severity_color(level)),
            None,
            level == LogLevel::Alert || level == LogLevel::Error || level == LogLevel::Warning,
            false,
        ),
{
    match level {
        LogLevel::Alert => SpanStyle::fg_bold(Hue::Red),
        LogLevel::Error => SpanStyle::fg_bold(Hue::Green),
        LogLevel::Warning => SpanStyle::fg_bold(warning_yellow()),
        LogLevel::Notice => SpanStyle::fg(Hue::Cyan),
        LogLevel::Info => SpanStyle::fg(Hue::Green),
        LogLevel::Debug => SpanStyle::fg(Hue::White),
    }
}

/// The inverted tag of a severity: dark text on the severity colour, bold
/// except for debug.
pub open spec fn severity_tag_style(level: LogLevel) -> SpanStyle {
    style(
        Some(Hue::Black),
        Some(severity_color(level)),
        level != LogLevel::Debug,
        false,
    )
}

/// Inverted tag style of a severity (for `ALERT`, `WARN` and so on).
pub fn get_severity_tag_style(level: LogLevel) -> (s: SpanStyle)
    ensures
        s == severity_tag_style(level),
{
    match level {
        LogLevel::Alert => SpanStyle::on_bold(Hue::Black, Hue::Red),
        LogLevel::Error => SpanStyle::on_bold(Hue::Black, Hue::Green),
        LogLevel::Warning => SpanStyle::on_bold(Hue::Black, warning_yellow()),
        LogLevel::Notice => SpanStyle::on_bold(Hue::Black, Hue::Cyan),
        LogLevel::Info => SpanStyle::on_bold(Hue::Black, Hue::Green),
        LogLevel::Debug => SpanStyle { fg: Some(Hue::Black), bg: Some(Hue::White), bold: false, italic: false },
    }
}

/// The colour of a severity.
pub fn get_severity_color(level: LogLevel) -> (c: Hue)
    ensures
        c == severity_color(level),
{
    match level {
        LogLevel::Alert => Hue::Red,
        LogLevel::Error => Hue::Green,
        LogLevel::Warning => warning_yellow(),
        LogLevel::Notice => Hue::Cyan,
        LogLevel::Info => Hue::Green,
        LogLevel::Debug => Hue::White,
    }
}

/// Badge style for counts: dark text on `color`, bold.
pub fn badge_style(color: Hue) -> (s: SpanStyle)
    ensures
        s == style(Some(Hue::Black), Some(color), true, false),
{
    SpanStyle::on_bold(Hue::Black, color)
}

/// Border style of an animated panel; the same muted style on every frame.
pub fn pulsing_border_style(frame: usize) -> (s: SpanStyle)
    ensures
        s == style(Some(Hue::DarkGray), None, false, false),
{
    SpanStyle::fg(Hue::DarkGray)
}

} // verus!
