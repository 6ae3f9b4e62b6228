use vstd::prelude::*;

verus! {

/// The place where views that combine groups with what other services know
/// of them (events, members, stars, labels, boosts) will be put together.
/// Nothing is combined yet.
#[derive(Clone, Copy, Debug, PartialEq, Eq)]
pub struct CombineStore;

impl CombineStore {
    /// Combines nothing yet.
    pub fn get_groups() {
    }

    /// Counts nothing yet.
    pub fn get_event_count_for_groups() {
    }
}

} // verus!
