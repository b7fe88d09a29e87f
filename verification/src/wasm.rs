//! What is handed to the browser: messages with the places they speak of.

use vstd::prelude::*;
use vstd::string::*;
use crate::text::{column_at, line_and_column_at_offset, line_at};

verus! {

/// How grave a message is.
#[derive(Debug, Clone, Copy, PartialEq, Eq, Structural)]
pub enum MessageLevel {
    Echo,
    Warning,
    Error,
}

/// How grave a message is, as the browser is told.
#[derive(Debug, Clone, Copy, PartialEq, Eq, Structural)]
pub enum WasmMessageLevel {
    Echo,
    Warning,
    Error,
}

impl WasmMessageLevel {
    /// What the browser is told for `level`.
    pub open spec fn of(level: MessageLevel) -> WasmMessageLevel {
        match level {
            MessageLevel::Echo => WasmMessageLevel::Echo,
            MessageLevel::Warning => WasmMessageLevel::Warning,
            MessageLevel::Error => WasmMessageLevel::Error,
        }
    }

    /// The level for the browser.
    pub fn from(value: &MessageLevel) -> (level: WasmMessageLevel)
        ensures
            level == WasmMessageLevel::of(*value),
    {
        match value {
            MessageLevel::Echo => WasmMessageLevel::Echo,
            MessageLevel::Warning => WasmMessageLevel::Warning,
            MessageLevel::Error => WasmMessageLevel::Error,
        }
    }
}

/// A place in a source, as the browser is told: its offsets, the line and
/// column of its start where it lies inside the text, and the name of the
/// source.
#[derive(Debug, PartialEq)]
pub struct WasmPosition {
    pub start: usize,
    pub end: usize,
    pub start_line: Option<usize>,
    pub start_column: Option<usize>,
    pub filename: String,
}

/// What a [`WasmPosition`] holds.
pub struct WasmPositionView {
    pub start: usize,
    pub end: usize,
    pub start_line: Option<usize>,
    pub start_column: Option<usize>,
    pub filename: Seq<char>,
}

impl View for WasmPosition {
    type V = WasmPositionView;

    open spec fn view(&self) -> WasmPositionView {
        WasmPositionView {
            start: self.start,
            end: self.end,
            start_line: self.start_line,
            start_column: self.start_column,
            filename: self.filename@,
        }
    }
}

/// The place between `start` and `end` in the source called `filename`
/// whose text is `code`.
pub open spec fn position_in(
    code: Seq<char>,
    filename: Seq<char>,
    start: usize,
    end: usize,
) -> WasmPositionView {
    WasmPositionView {
        start,
        end,
        start_line: if start <= code.len() {
            Some(line_at(code, start as int) as usize)
        } else {
            None
        },
        start_column: if start <= code.len() {
            Some(column_at(code, start as int) as usize)
        } else {
            None
        },
        filename,
    }
}

impl WasmPosition {
    /// The place between `start` and `end` in the source called `filename`
    /// whose text is `code`.
    pub fn new(code: &str, filename: &str, start: usize, end: usize) -> (position: WasmPosition)
        requires
            code@.len() < usize::MAX,
        ensures
            position@ == position_in(code@, filename@, start, end),
    {
        let line_column = line_and_column_at_offset(code, start);
        WasmPosition {
            start,
            end,
            start_line: match line_column {
                Some(place) => Some(place.0),
                None => None,
            },
            start_column: match line_column {
                Some(place) => Some(place.1),
                None => None,
            },
            filename: filename.to_owned(),
        }
    }
}

/// A message, as the browser is told.
#[derive(Debug, PartialEq)]
pub struct WasmMessage {
    pub level: WasmMessageLevel,
    pub message: String,
    pub position: WasmPosition,
}

impl WasmMessage {
    /// The message `message` of level `level` about `position`.
    pub fn new(level: &MessageLevel, message: &str, position: WasmPosition) -> (result:
        WasmMessage)
        ensures
            result.level == WasmMessageLevel::of(*level),
            result.message@ == message@,
            result.position == position,
    {
        WasmMessage { level: WasmMessageLevel::from(level), message: message.to_owned(), position }
    }
}

} // verus!
