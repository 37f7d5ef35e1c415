//! ## /last_event
//!
//! This command is used to display the latest event (not necessarily active).
use vstd::prelude::*;

use super::last_borders::{last_something, requested_event_spec, EventQuery};

verus! {

/// The event that the command asks for (by default the last one), without
/// borders.
pub fn handler(command: &str) -> (r: EventQuery)
    ensures
        !r.with_border,
        r.event == requested_event_spec(command@),
{
    last_something(command, false)
}

} // verus!
