//! The status-bar indicator of live streaming input.
use vstd::prelude::*;

verus! {

/// Where the transcript comes from.
#[derive(Debug, Clone, Copy, PartialEq, Eq, Structural)]
pub enum InputMode {
    /// A complete file.
    Static,
    /// Lines still arriving on standard input.
    Streaming,
    /// Standard input has ended.
    Eof,
}

/// How the indicator is drawn.
#[derive(Debug, Clone, Copy, PartialEq, Eq, Structural)]
pub enum IndicatorStyle {
    /// Muted "[LIVE] " text.
    Muted,
    /// Green "[LIVE] " text.
    Live,
    /// Nothing shown.
    Hidden,
}

/// The indicator: muted when not streaming, blinking green while streaming and
/// following the tail, hidden while streaming but viewing an older session.
#[derive(Debug, Clone, Copy, PartialEq, Eq, Structural)]
pub struct LiveIndicator {
    pub mode: InputMode,
    pub blink_on: bool,
    pub tailing_enabled: bool,
}

pub open spec fn indicator_style(mode: InputMode, blink_on: bool, tailing_enabled: bool) -> IndicatorStyle {
    match mode {
        InputMode::Static | InputMode::Eof => IndicatorStyle::Muted,
        InputMode::Streaming => if tailing_enabled && blink_on {
            IndicatorStyle::Live
        } else {
            IndicatorStyle::Hidden
        },
    }
}

impl LiveIndicator {
    pub fn new(mode: InputMode, blink_on: bool, tailing_enabled: bool) -> (r: Self)
        ensures
            r == (LiveIndicator { mode, blink_on, tailing_enabled }),
    {
        LiveIndicator { mode, blink_on, tailing_enabled }
    }

    /// How the indicator is drawn now.
    pub fn style(&self) -> (r: IndicatorStyle)
        ensures
            r == indicator_style(self.mode, self.blink_on, self.tailing_enabled),
    {
        match self.mode {
            InputMode::Static | InputMode::Eof => IndicatorStyle::Muted,
            InputMode::Streaming => if self.tailing_enabled && self.blink_on {
                IndicatorStyle::Live
            } else {
                IndicatorStyle::Hidden
            },
        }
    }

    /// The text to draw: "[LIVE] " unless hidden.
    pub fn text(&self) -> (r: String)
        ensures
            indicator_style(self.mode, self.blink_on, self.tailing_enabled) is Hidden ==> r@.len() == 0,
            !(indicator_style(self.mode, self.blink_on, self.tailing_enabled) is Hidden) ==> r@ == "[LIVE] "@,
    {
        match self.style() {
            IndicatorStyle::Hidden => String::new(),
            _ => String::from_str("[LIVE] "),
        }
    }
}

} // verus!
