//! ## /curr_event
//!
//! This command is used to display the current event.
use vstd::prelude::*;

use super::last_borders::EventQuery;

verus! {

/// The current event, without borders.
pub fn handler() -> (r: EventQuery)
    ensures
        r == (EventQuery { with_border: false, event: 0 }),
{
    EventQuery { with_border: false, event: 0 }
}

} // verus!
