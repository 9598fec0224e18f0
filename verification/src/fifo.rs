//! Copying the log FIFO into a writer: when to keep reading, when to write,
//! and when the copy is over.

use vstd::prelude::*;

verus! {

/// How long, in milliseconds, the FIFO may stay empty after data has been
/// seen before the copy ends.
pub const FIFO_IDLE_LIMIT_MS: u64 = 100;

/// What happened on one turn of the copy loop.
#[derive(Debug, Clone, Copy, PartialEq, Eq)]
pub enum FifoEvent {
    /// The machine signalled its exit.
    ExitRequested,
    /// A read gave bytes.
    Data,
    /// A read gave nothing (end of data or would block).
    NoData,
    /// A read failed.
    ReadFailed,
}

/// What the copy loop does next.
#[derive(Debug, Clone, Copy, PartialEq, Eq)]
pub enum FifoAction {
    /// Write the bytes just read, then read again.
    Write,
    /// Wait a little, then read again.
    Wait,
    /// The copy is over; remove the FIFO and report success.
    Finish,
    /// The copy failed; remove the FIFO and report the error.
    Abort,
}

/// State of a FIFO copy: whether data has been seen, and since when (in
/// milliseconds) the FIFO has been empty after it.
#[derive(Debug, Clone, Copy, PartialEq, Eq, Default)]
pub struct FifoCapture {
    pub seen_data: bool,
    pub idle_since_ms: Option<u64>,
}

/// The state and action after `event` at time `now_ms`: an exit request ends
/// the copy; data is written and resets the idle clock; an empty read after
/// data starts the idle clock if it is not running and ends the copy once
/// it has run for the idle limit; before any data the copy just waits; a
/// failed read aborts.
pub open spec fn capture_step(s: FifoCapture, event: FifoEvent, now_ms: u64) -> (FifoCapture, FifoAction) {
    match event {
        FifoEvent::ExitRequested => (s, FifoAction::Finish),
        FifoEvent::ReadFailed => (s, FifoAction::Abort),
        FifoEvent::Data => (FifoCapture { seen_data: true, idle_since_ms: None }, FifoAction::Write),
        FifoEvent::NoData => if !s.seen_data {
            (s, FifoAction::Wait)
        } else {
            let start = match s.idle_since_ms {
                Some(t) => t,
                None => now_ms,
            };
            let idle = if now_ms >= start {
                now_ms - start
            } else {
                0
            };
            (
                FifoCapture { seen_data: true, idle_since_ms: Some(start) },
                if idle >= FIFO_IDLE_LIMIT_MS {
                    FifoAction::Finish
                } else {
                    FifoAction::Wait
                },
            )
        },
    }
}

impl FifoCapture {
    /// A copy that has seen nothing yet.
    pub fn new() -> (r: Self)
        ensures
            !r.seen_data && r.idle_since_ms is None,
    {
        FifoCapture { seen_data: false, idle_since_ms: None }
    }

    /// Takes what happened on one turn at time `now_ms` and says what to do.
    pub fn on_event(&mut self, event: FifoEvent, now_ms: u64) -> (a: FifoAction)
        ensures
            (*final(self), a) == capture_step(*old(self), event, now_ms),
    {
        match event {
            FifoEvent::ExitRequested => FifoAction::Finish,
            FifoEvent::ReadFailed => FifoAction::Abort,
            FifoEvent::Data => {
                self.seen_data = true;
                self.idle_since_ms = None;
                FifoAction::Write
            },
            FifoEvent::NoData => {
                if !self.seen_data {
                    return FifoAction::Wait;
                }
                let start = match self.idle_since_ms {
                    Some(t) => t,
                    None => now_ms,
                };
                self.idle_since_ms = Some(start);
                let idle = if now_ms >= start {
                    now_ms - start
                } else {
                    0
                };
                if idle >= FIFO_IDLE_LIMIT_MS {
                    FifoAction::Finish
                } else {
                    FifoAction::Wait
                }
            },
        }
    }
}

} // verus!
