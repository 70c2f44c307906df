//! Core of a terminal emulator: an escape-sequence interpreter that decodes a
//! raw byte stream (ECMA-48 / ANSI control sequences intermixed with UTF-8
//! text) into a sequence of semantic events, and a fixed-size character grid
//! that applies print and cursor-motion operations while keeping the cursor
//! inside its bounds.
//!
//! The interpreter ([`interp::Parser`]) is a pure state machine: bytes go in,
//! [`event::TerminalEvent`]s come out, and chunk boundaries carry no meaning.
//! The grid ([`grid::Terminal`]) is a pure in-memory state machine. Neither
//! component performs any I/O; feeding bytes from a child process and writing
//! bytes back belong to the surrounding application.

pub mod attr;
pub mod digits;
pub mod event;
pub mod grid;
pub mod interp;
pub mod machine;
