//! The route that triggers a schedule by hand.

use vstd::prelude::*;

verus! {
/// Body of the route that triggers a schedule.
#[derive(Clone, Copy, Debug)]
pub struct Payload {
    pub skip_condition: bool,
}

} // verus!
