//! What the event history keeps of an event.

use vstd::prelude::*;
use crate::clock::rfc3339_text;
use crate::events::{kind_name, GameEvent};

verus! {

/// A row of the event history.
#[derive(Debug, Clone, PartialEq, Eq)]
pub struct EventRow {
    pub occurred_at: String,
    pub kind: String,
    pub message: String,
}

/// Whether a row records an event; none does where its moment cannot be written out.
pub open spec fn records(row: Option<EventRow>, event: GameEvent) -> bool {
    let moment = rfc3339_text(
        event.occurred_at.seconds as int,
        event.occurred_at.nanos as int,
        event.occurred_at.offset as int,
    );
    match row {
        Some(row) => moment == Some(row.occurred_at@) && row.kind@ == kind_name(event.kind)
            && row.message@ == event.message@,
        None => moment is None,
    }
}

/// The row that records an event; none where the moment of the event cannot be written out, which
/// does not happen to an event of [`GameEvent::new`].
pub fn event_row(event: &GameEvent) -> (r: Option<EventRow>)
    ensures
        records(r, *event),
{
    match event.occurred_at.rfc3339() {
        Some(occurred_at) => Some(
            EventRow {
                occurred_at,
                kind: event.kind.name().to_string(),
                message: event.message.clone(),
            },
        ),
        None => None,
    }
}

} // verus!
