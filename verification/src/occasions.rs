use vstd::prelude::*;

verus! {

/// One listed occasion: an event with a declared seat capacity and price.
///
/// `id` is a positive integer assigned sequentially from 1 when the occasion
/// is listed. `tickets` counts the tickets still unsold; it starts at
/// `max_tickets` and decreases by exactly one per successful purchase.
/// All other fields never change after listing.
#[derive(Debug, Clone)]
pub struct Occasion {
    pub id: u64,
    pub name: String,
    pub cost: u64,
    pub tickets: u64,
    pub max_tickets: u64,
    pub date: String,
    pub time: String,
    pub location: String,
}

} // verus!
