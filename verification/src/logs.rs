//! Following the client log: where to start reading it, and what to do with each line.

use vstd::prelude::*;
use crate::clock::rfc3339_text;
use crate::events::{message_of, parse_client_line, reported, GameEvent};

verus! {

/// How much of the log is read again when the companion connects to it.
pub const REPLAY_BYTES: u64 = 262_144;

/// How long the one who follows the log waits for it to grow.
pub const WAIT_MILLIS: u64 = 250;

/// Where reading starts in a log of the given length: at most [`REPLAY_BYTES`] before its end.
pub open spec fn replayed_from(file_length: u64) -> int {
    if file_length > REPLAY_BYTES {
        file_length - REPLAY_BYTES
    } else {
        0
    }
}

/// Whether reading may start inside a line, which is then passed over.
pub open spec fn starts_inside(start: u64) -> bool {
    start > 0
}

/// Where reading starts in a log of the given length: at most [`REPLAY_BYTES`] before its end.
pub fn replay_start(file_length: u64) -> (r: u64)
    ensures
        r == replayed_from(file_length),
{
    file_length.saturating_sub(REPLAY_BYTES)
}

/// Whether reading may start inside a line, which is then passed over.
pub fn skips_first_line(start: u64) -> (r: bool)
    ensures
        r == starts_inside(start),
{
    start > 0
}

/// What happened last to the one who follows the log.
pub enum TailInput {
    /// A stop was asked for before the next line was read.
    StopRequested,
    /// There was no further line.
    EndReached,
    /// A line was read.
    Line(String),
    /// The event of the last line was taken.
    Delivered,
    /// Nobody takes events any more.
    ReceiverGone,
}

/// What the one who follows the log does next.
pub enum TailAction {
    /// Leave the log.
    Finish,
    /// Wait [`WAIT_MILLIS`] for the log to grow, then look for a stop and read on.
    Wait,
    /// Hand the event over.
    Deliver(GameEvent),
    /// Look for a stop and read on.
    Continue,
}

/// Whether what is done follows from what happened.
pub open spec fn follows(input: TailInput, action: TailAction) -> bool {
    match input {
        TailInput::StopRequested | TailInput::ReceiverGone => action is Finish,
        TailInput::EndReached => action is Wait,
        TailInput::Delivered => action is Continue,
        TailInput::Line(line) => match reported(message_of(line@)) {
            Some((kind, message)) => action matches TailAction::Deliver(event) && event.kind == kind
                && event.message@ == message && rfc3339_text(
                event.occurred_at.seconds as int,
                event.occurred_at.nanos as int,
                event.occurred_at.offset as int,
            ) is Some,
            None => action is Continue,
        },
    }
}

/// The step from what happened to what is done: a line that reports an event has it delivered, any
/// other line is passed over; a stop and a missing receiver end the work. The moment of an event can
/// be written out.
pub fn tail_step(input: TailInput) -> (r: TailAction)
    ensures
        follows(input, r),
{
    match input {
        TailInput::StopRequested | TailInput::ReceiverGone => TailAction::Finish,
        TailInput::EndReached => TailAction::Wait,
        TailInput::Delivered => TailAction::Continue,
        TailInput::Line(line) => match parse_client_line(line.as_str()) {
            Some(event) => TailAction::Deliver(event),
            None => TailAction::Continue,
        },
    }
}

} // verus!
