//! The decoded units of terminal input, and their mathematical view.

use crate::attr::Attributes;
use vstd::prelude::*;

verus! {

/// One decoded unit of terminal input. The order of events produced by the
/// interpreter equals the order in which their bytes appeared in the input.
///
/// `SetMode` and `ResetMode` carry every numeric value from every parameter
/// group, flattened in order, so ANSI and private `?`-prefixed modes are
/// carried uniformly. `UnhandledCsi` and `UnhandledEsc` report sequences this
/// core does not interpret, for forward compatibility. `Osc` carries the raw
/// parameter byte-strings unparsed.
#[derive(Clone, Debug, PartialEq)]
pub enum TerminalEvent {
    Print { ch: char, attrs: Attributes },
    Linefeed,
    CarriageReturn,
    Backspace,
    Tab,
    Bell,
    CursorPosition { row: u16, col: u16 },
    CursorUp(u16),
    CursorDown(u16),
    CursorForward(u16),
    CursorBack(u16),
    EraseDisplay(u16),
    EraseLine(u16),
    SetMode(Vec<u16>),
    ResetMode(Vec<u16>),
    UnhandledCsi { action: char, params: Vec<u16> },
    UnhandledEsc(u8),
    Osc(Vec<Vec<u8>>),
}

/// The mathematical value of a [`TerminalEvent`]: the same tagged union with
/// every vector replaced by the sequence it holds.
pub enum EventV {
    Print { ch: char, attrs: Attributes },
    Linefeed,
    CarriageReturn,
    Backspace,
    Tab,
    Bell,
    CursorPosition { row: u16, col: u16 },
    CursorUp(u16),
    CursorDown(u16),
    CursorForward(u16),
    CursorBack(u16),
    EraseDisplay(u16),
    EraseLine(u16),
    SetMode(Seq<u16>),
    ResetMode(Seq<u16>),
    UnhandledCsi { action: char, params: Seq<u16> },
    UnhandledEsc(u8),
    Osc(Seq<Seq<u8>>),
}

impl View for TerminalEvent {
    type V = EventV;

    open spec fn view(&self) -> EventV {
        match self {
            TerminalEvent::Print { ch, attrs } => EventV::Print { ch: *ch, attrs: *attrs },
            TerminalEvent::Linefeed => EventV::Linefeed,
            TerminalEvent::CarriageReturn => EventV::CarriageReturn,
            TerminalEvent::Backspace => EventV::Backspace,
            TerminalEvent::Tab => EventV::Tab,
            TerminalEvent::Bell => EventV::Bell,
            TerminalEvent::CursorPosition { row, col } => EventV::CursorPosition {
                row: *row,
                col: *col,
            },
            TerminalEvent::CursorUp(n) => EventV::CursorUp(*n),
            TerminalEvent::CursorDown(n) => EventV::CursorDown(*n),
            TerminalEvent::CursorForward(n) => EventV::CursorForward(*n),
            TerminalEvent::CursorBack(n) => EventV::CursorBack(*n),
            TerminalEvent::EraseDisplay(m) => EventV::EraseDisplay(*m),
            TerminalEvent::EraseLine(m) => EventV::EraseLine(*m),
            TerminalEvent::SetMode(m) => EventV::SetMode(m@),
            TerminalEvent::ResetMode(m) => EventV::ResetMode(m@),
            TerminalEvent::UnhandledCsi { action, params } => EventV::UnhandledCsi {
                action: *action,
                params: params@,
            },
            TerminalEvent::UnhandledEsc(b) => EventV::UnhandledEsc(*b),
            TerminalEvent::Osc(p) => EventV::Osc(p.deep_view()),
        }
    }
}

/// The views of a sequence of events, element by element.
pub open spec fn events_view(s: Seq<TerminalEvent>) -> Seq<EventV> {
    s.map_values(|e: TerminalEvent| e@)
}

} // verus!
