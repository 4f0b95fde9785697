use vstd::prelude::*;

verus! {

/// Why an operation on a pool was refused. A refused operation leaves the
/// record exactly as it was.
#[derive(Debug, Clone, Copy, PartialEq, Eq, Structural)]
pub enum RaffleError {
    /// No ticket is left under the raffle's cap, or a cap was asked for that
    /// the record cannot hold.
    CapacityExceeded,
    /// A time outside the ticket-sale window, or a window that ends before it
    /// starts.
    InvalidWindow,
    /// Winners have already been recorded for this raffle.
    AlreadyDrawn,
    /// The raffle forbids repeats and two drawn positions belong to the same
    /// identity.
    DuplicateWinner,
    /// A position or winner slot outside its valid range.
    InvalidSlot,
    /// The prize of this winner slot has already been claimed.
    AlreadyClaimed,
    /// The authorization check turned the caller down.
    Unauthorized,
}

} // verus!
