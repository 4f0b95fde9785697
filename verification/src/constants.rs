use vstd::prelude::*;

verus! {

/// Number of winner slots that every raffle record holds.
pub const MAX_WINNERS: usize = 50;

/// Number of entrant slots that every raffle record holds. A raffle's own
/// ticket cap may be lower, never higher.
pub const MAX_ENTRANTS: usize = 2000;

} // verus!
