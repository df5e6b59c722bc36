//! The driver of one connection.
//!
//! A connection is driven by a job of its own. The job first waits for the
//! dial to end and reports the outcome, so that the slot of a failed dial is
//! free again. Then, round after round, it offers the protocol engine what
//! the transport has read and a buffer to write into, and acts on what the
//! engine reports back: it sends what was written, moves the read cursor
//! past what was consumed, and suspends until there is something to do.
//!
//! Instants and durations are counted in the ticks of one clock.

use crate::network::WRITE_BUFFER_SIZE;
use vstd::prelude::*;

verus! {

/// What is reported to the engine when a dial has ended.
#[derive(Clone, Copy, Debug, PartialEq, Eq, Structural)]
pub enum DialReport {
    /// The peer was reached: the pending dial becomes a connection.
    Reached,
    /// The peer was not reached: the pending dial is given up and its slot
    /// freed, to be tried again on a later round of the dialer.
    Failed,
}

/// How loudly a problem on a connection is logged.
#[derive(Clone, Copy, Debug, PartialEq, Eq, Structural)]
pub enum LogLevel {
    Warn,
    Debug,
}

/// What the transport's read side holds at the start of a round.
#[derive(Clone, Copy, Debug, PartialEq, Eq, Structural)]
pub enum ReadState {
    /// The read side is closed: no data will come any more.
    Closed,
    /// The read side is open and this many bytes are there to be read. With
    /// no byte there, no data has come yet.
    Open { available: usize },
}

/// What the protocol engine reports of one round.
#[derive(Clone, Copy, Debug, PartialEq, Eq, Structural)]
pub struct ReadWrite {
    /// Number of bytes of the read buffer that the engine consumed.
    pub read_bytes: usize,
    /// Number of bytes that the engine wrote into the write buffer.
    pub written_bytes: usize,
    /// The instant at which the engine wants another round at the latest.
    pub wake_up_after: Option<u64>,
    /// Whether the engine has closed the writing side.
    pub write_close: bool,
}

/// What a driver waits for between two rounds. The engine's own wake-up
/// signal ends the wait in every case.
#[derive(Clone, Copy, Debug, PartialEq, Eq, Structural)]
pub enum Suspension {
    /// No wait: the next round starts at once.
    NoWait,
    /// Wait for the earliest of the engine's signal, the timer where there is
    /// one, and new readable bytes where the driver listens for them.
    Until { timer: Option<u64>, readable: bool },
}

/// What a driver does at the end of a round.
#[derive(Clone, Copy, Debug, PartialEq, Eq, Structural)]
pub enum ConnectionStep {
    /// Both sides are done: the driver ends.
    CloseGracefully,
    /// The driver sends the first `send` bytes of the write buffer, moves
    /// the read cursor by `advance` bytes, suspends, and starts another
    /// round.
    Continue { send: usize, advance: usize, suspension: Suspension },
}

/// What is reported when a dial has ended.
pub open spec fn dial_report_for(reached: bool) -> DialReport {
    if reached {
        DialReport::Reached
    } else {
        DialReport::Failed
    }
}

/// What is reported when a dial has ended.
#[verifier::when_used_as_spec(dial_report_for)]
pub fn dial_report(reached: bool) -> (report: DialReport)
    ensures
        report == dial_report_for(reached),
{
    if reached {
        DialReport::Reached
    } else {
        DialReport::Failed
    }
}

/// The level at which an error on a connection is logged: a warning for a
/// bootstrap node, a debug line for any other peer.
pub open spec fn error_level_for(is_important_peer: bool) -> LogLevel {
    if is_important_peer {
        LogLevel::Warn
    } else {
        LogLevel::Debug
    }
}

/// The level at which an error on a connection is logged.
#[verifier::when_used_as_spec(error_level_for)]
pub fn error_level(is_important_peer: bool) -> (level: LogLevel)
    ensures
        level == error_level_for(is_important_peer),
{
    if is_important_peer {
        LogLevel::Warn
    } else {
        LogLevel::Debug
    }
}

/// Whether the driver listens for new readable bytes while it is suspended.
/// It does not where the read side is closed, nor where data is there that
/// the engine did not touch: that data would end the wait at once, round
/// after round.
pub open spec fn listens_for_data(read: ReadState, outcome: ReadWrite) -> bool {
    match read {
        ReadState::Closed => false,
        ReadState::Open { available } => !(available > 0 && outcome.read_bytes == 0),
    }
}

/// What the driver waits for after a round that was run at `now`.
pub open spec fn suspension_after(read: ReadState, outcome: ReadWrite, now: u64) -> Suspension {
    match outcome.wake_up_after {
        Some(wake_up) => {
            if wake_up > now {
                Suspension::Until {
                    timer: Some((wake_up - now) as u64),
                    readable: listens_for_data(read, outcome),
                }
            } else {
                Suspension::NoWait
            }
        },
        None => Suspension::Until { timer: None, readable: listens_for_data(read, outcome) },
    }
}

/// What the driver does at the end of a round that was run at `now`.
pub open spec fn step_after(read: ReadState, outcome: ReadWrite, now: u64) -> ConnectionStep {
    if outcome.write_close && read == ReadState::Closed {
        ConnectionStep::CloseGracefully
    } else {
        ConnectionStep::Continue {
            send: outcome.written_bytes,
            advance: outcome.read_bytes,
            suspension: suspension_after(read, outcome, now),
        }
    }
}

/// Whether the engine's report fits the buffers that it was given: it did
/// not write more than the write buffer holds nor consume more than was
/// there to read. A report that does not fit is not to be acted on.
pub open spec fn fits_buffers(read: ReadState, outcome: ReadWrite) -> bool {
    &&& outcome.written_bytes <= WRITE_BUFFER_SIZE
    &&& match read {
        ReadState::Closed => outcome.read_bytes == 0,
        ReadState::Open { available } => outcome.read_bytes <= available,
    }
}

/// Tells whether the engine's report fits the buffers that it was given.
pub fn report_fits(read: ReadState, outcome: ReadWrite) -> (r: bool)
    ensures
        r == fits_buffers(read, outcome),
{
    outcome.written_bytes <= WRITE_BUFFER_SIZE && match read {
        ReadState::Closed => outcome.read_bytes == 0,
        ReadState::Open { available } => outcome.read_bytes <= available,
    }
}

/// Decides what the driver does at the end of a round.
pub fn connection_step(read: ReadState, outcome: ReadWrite, now: u64) -> (step: ConnectionStep)
    ensures
        step == step_after(read, outcome, now),
{
    let closed = match read {
        ReadState::Closed => true,
        ReadState::Open { .. } => false,
    };
    if outcome.write_close && closed {
        return ConnectionStep::CloseGracefully;
    }
    let readable = match read {
        ReadState::Closed => false,
        ReadState::Open { available } => !(available > 0 && outcome.read_bytes == 0),
    };
    let suspension = match outcome.wake_up_after {
        Some(wake_up) => {
            if wake_up > now {
                Suspension::Until { timer: Some(wake_up - now), readable }
            } else {
                Suspension::NoWait
            }
        },
        None => Suspension::Until { timer: None, readable },
    };
    ConnectionStep::Continue {
        send: outcome.written_bytes,
        advance: outcome.read_bytes,
        suspension,
    }
}

/// A driver never spins: a round whose wake-up instant is still to come, or
/// that has none, is followed by a wait.
pub proof fn lemma_no_busy_polling(read: ReadState, outcome: ReadWrite, now: u64)
    requires
        match outcome.wake_up_after {
            Some(wake_up) => wake_up > now,
            None => true,
        },
    ensures
        suspension_after(read, outcome, now) != Suspension::NoWait,
        step_after(read, outcome, now) matches ConnectionStep::Continue { suspension, .. }
            ==> suspension != Suspension::NoWait,
{
}

} // verus!
