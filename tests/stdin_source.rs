use cclv::live_indicator::{IndicatorStyle, InputMode, LiveIndicator};
use cclv::source::StdinSource;

#[test]
fn poll_returns_line_when_data_available() {
    let mut source = StdinSource::new();
    assert_eq!(source.poll("{\"line\": 1}\n".to_string()), Some("{\"line\": 1}".to_string()));
    assert_eq!(source.poll("{\"line\": 2}\n".to_string()), Some("{\"line\": 2}".to_string()));
}

#[test]
fn poll_returns_none_at_eof() {
    let mut source = StdinSource::new();
    source.poll("{\"line\": 1}\n".to_string());
    assert_eq!(source.poll(String::new()), None);
}

#[test]
fn is_complete_true_after_eof() {
    let mut source = StdinSource::new();
    assert!(!source.is_complete());
    source.poll("{\"line\": 1}\n".to_string());
    assert!(!source.is_complete());
    source.poll(String::new());
    assert!(source.is_complete());
}

#[test]
fn poll_handles_partial_lines() {
    let mut source = StdinSource::new();
    assert_eq!(source.poll("{\"line\": 1}\n".to_string()), Some("{\"line\": 1}".to_string()));
    assert_eq!(source.poll("{\"partial".to_string()), None);
    assert!(!source.is_complete());
}

#[test]
fn poll_strips_trailing_whitespace() {
    let mut source = StdinSource::new();
    let line = source.poll("line with newline \r\n".to_string());
    assert_eq!(line, Some("line with newline".to_string()));
}

#[test]
fn live_indicator_styles() {
    assert_eq!(LiveIndicator::new(InputMode::Static, false, true).style(), IndicatorStyle::Muted);
    assert_eq!(LiveIndicator::new(InputMode::Eof, true, false).style(), IndicatorStyle::Muted);
    assert_eq!(LiveIndicator::new(InputMode::Streaming, true, true).style(), IndicatorStyle::Live);
    assert_eq!(LiveIndicator::new(InputMode::Streaming, false, true).style(), IndicatorStyle::Hidden);
    assert_eq!(LiveIndicator::new(InputMode::Streaming, true, false).style(), IndicatorStyle::Hidden);
    assert_eq!(LiveIndicator::new(InputMode::Streaming, true, true).text(), "[LIVE] ");
    assert_eq!(LiveIndicator::new(InputMode::Streaming, false, true).text(), "");
}
