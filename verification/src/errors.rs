use vstd::prelude::*;

verus! {

/// Every way an operation on the ledger can fail. All of these are
/// caller-correctable: none indicates internal corruption, and an operation
/// that returns one of them leaves the state exactly as it was.
#[derive(Clone, Copy, Debug, PartialEq, Eq, Structural)]
pub enum Error {
    /// The caller is not the administrator.
    Unauthorized,
    /// The occasion id is zero or larger than the number of listed occasions.
    NotFound,
    /// A new occasion was given a capacity of zero seats.
    InvalidCapacity,
    /// The seat number is zero or larger than the occasion's capacity.
    InvalidSeat,
    /// The payment offered is below the occasion's cost.
    InsufficientPayment,
    /// The seat was already sold to some buyer.
    SeatTaken,
    /// The occasion has no tickets remaining.
    SoldOut,
}

} // verus!
