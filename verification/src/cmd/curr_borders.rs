//! ## /curr_borders
//!
//! This command is used to display the score metrics for current event.
//!
//! Use [`/last_borders`](super::last_borders) for historical event data.
use vstd::prelude::*;

use super::last_borders::EventQuery;

verus! {

/// The borders of the current event.
pub fn handler() -> (r: EventQuery)
    ensures
        r == (EventQuery { with_border: true, event: 0 }),
{
    EventQuery { with_border: true, event: 0 }
}

} // verus!
