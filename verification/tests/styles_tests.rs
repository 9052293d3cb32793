use yascan::events::LogLevel;
use yascan::styles::{
    active_border_style, badge_style, get_severity_color, get_severity_style, get_severity_tag_style,
    header_style, highlight_style, label_style, muted_style, panel_border_style, pulsing_border_style,
    status_complete_style, status_paused_style, status_running_style, value_style, Hue, SpanStyle,
};

fn st(fg: Option<Hue>, bg: Option<Hue>, bold: bool, italic: bool) -> SpanStyle {
    SpanStyle { fg, bg, bold, italic }
}

#[test]
fn fixed_styles() {
    assert_eq!(header_style(), st(Some(Hue::White), None, true, false));
    assert_eq!(panel_border_style(), st(Some(Hue::DarkGray), None, false, false));
    assert_eq!(active_border_style(), st(Some(Hue::White), None, true, false));
    assert_eq!(highlight_style(), st(Some(Hue::White), None, true, false));
    assert_eq!(muted_style(), st(Some(Hue::DarkGray), None, false, false));
    assert_eq!(label_style(), st(Some(Hue::Green), None, true, false));
    assert_eq!(value_style(), st(Some(Hue::White), None, false, false));
    assert_eq!(status_running_style(), st(Some(Hue::Green), None, true, false));
    assert_eq!(status_paused_style(), st(Some(Hue::Black), Some(Hue::Rgb(204, 153, 0)), true, false));
    assert_eq!(status_complete_style(), st(Some(Hue::Black), Some(Hue::Green), true, false));
    assert_eq!(badge_style(Hue::Cyan), st(Some(Hue::Black), Some(Hue::Cyan), true, false));
    assert_eq!(pulsing_border_style(0), pulsing_border_style(17));
    assert_eq!(pulsing_border_style(3), st(Some(Hue::DarkGray), None, false, false));
}

#[test]
fn severity_styles() {
    assert_eq!(get_severity_color(LogLevel::Alert), Hue::Red);
    assert_eq!(get_severity_color(LogLevel::Error), Hue::Green);
    assert_eq!(get_severity_color(LogLevel::Warning), Hue::Rgb(204, 153, 0));
    assert_eq!(get_severity_color(LogLevel::Notice), Hue::Cyan);
    assert_eq!(get_severity_color(LogLevel::Info), Hue::Green);
    assert_eq!(get_severity_color(LogLevel::Debug), Hue::White);

    assert_eq!(get_severity_style(LogLevel::Alert), st(Some(Hue::Red), None, true, false));
    assert_eq!(get_severity_style(LogLevel::Notice), st(Some(Hue::Cyan), None, false, false));
    assert_eq!(get_severity_style(LogLevel::Debug), st(Some(Hue::White), None, false, false));

    assert_eq!(get_severity_tag_style(LogLevel::Alert), st(Some(Hue::Black), Some(Hue::Red), true, false));
    for l in [LogLevel::Alert, LogLevel::Error, LogLevel::Warning, LogLevel::Notice, LogLevel::Info, LogLevel::Debug] {
        assert_eq!(get_severity_tag_style(l).fg, Some(Hue::Black));
        assert_eq!(get_severity_tag_style(l).bg, Some(get_severity_color(l)));
    }
    assert_eq!(get_severity_tag_style(LogLevel::Warning), st(Some(Hue::Black), Some(Hue::Rgb(204, 153, 0)), true, false));
    assert_eq!(get_severity_tag_style(LogLevel::Debug), st(Some(Hue::Black), Some(Hue::White), false, false));
}
