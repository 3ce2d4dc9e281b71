use vstd::prelude::*;
use vstd::set_lib::{lemma_int_range, lemma_len_subset, set_int_range};

use crate::errors::Error;
use crate::master::{supply_sum, TokenMaster};

verus! {

/// In every well-formed state, each occasion's remaining tickets lie between
/// zero and its capacity, and the tickets no longer remaining are exactly the
/// seats sold for that occasion.
pub proof fn lemma_tickets_account_for_sales(m: TokenMaster, i: int)
    requires
        m.wf(),
        0 <= i < m.occasions@.len(),
    ensures
        0 <= m.occasions@[i].tickets <= m.occasions@[i].max_tickets,
        m.occasions@[i].max_tickets - m.occasions@[i].tickets == m.seats_of(i).len(),
{
    assert(m.entry_wf(i));
}

/// In every well-formed state, no seat of an occasion is ever recorded as
/// sold twice: the sale record assigns each `(occasion, seat)` pair at most
/// once, so a seat's owner never changes.
pub proof fn lemma_seat_assigned_at_most_once(m: TokenMaster, i: int, j: int, k: int)
    requires
        m.wf(),
        0 <= i < m.sales@.len(),
        0 <= j < m.sales@[i]@.len(),
        0 <= k < m.sales@[i]@.len(),
        j != k,
    ensures
        m.sales@[i]@[j].0 != m.sales@[i]@[k].0,
{
    assert(m.entry_wf(i));
}

/// Once a purchase has assigned a seat, every further attempt on the same
/// `(occasion, seat)` pair is refused with `SeatTaken`, however much is
/// offered for it — and `mint`'s contract then leaves the state unchanged.
/// Together with `lemma_seat_assigned_at_most_once` this is the guarantee
/// that no seat is ever sold twice.
pub proof fn lemma_second_purchase_of_a_seat_fails(
    pre: TokenMaster,
    post: TokenMaster,
    caller: u64,
    value: u64,
    id: u64,
    seat: u64,
)
    requires
        pre.wf(),
        pre.occasion_exists(id),
        1 <= seat <= pre.occasions@[id - 1].max_tickets,
        pre.mint_applied(post, caller, id, seat),
        value >= pre.occasions@[id - 1].cost,
    ensures
        post.mint_outcome(value, id, seat) == Err::<u64, Error>(Error::SeatTaken),
{
    let n = pre.sales@[id - 1]@.len() as int;
    assert(post.sales@[id - 1]@[n] == (seat, caller));
    assert(post.seat_sold(id - 1, seat));
    assert(post.occasions@[id - 1].cost == pre.occasions@[id - 1].cost);
    assert(post.occasions@[id - 1].max_tickets == pre.occasions@[id - 1].max_tickets);
}

/// The serial issued by a successful purchase equals the number of sales
/// then on record across all occasions: the N-th ticket ever sold bears
/// serial N, so the serials issued are exactly `1 ..= total_supply`, with
/// no gaps and no repeats.
pub proof fn lemma_serial_is_the_sale_count(
    pre: TokenMaster,
    post: TokenMaster,
    caller: u64,
    id: u64,
    seat: u64,
    serial: u64,
)
    requires
        pre.wf(),
        post.wf(),
        pre.mint_applied(post, caller, id, seat),
        serial == pre.total_supply + 1,
    ensures
        serial == supply_sum(post.sales@),
{
}

/// The `SoldOut` refusal is purely defensive: in a well-formed state an
/// occasion that still has a free seat within its capacity also still has a
/// ticket remaining, so a purchase that passes the seat checks is never
/// turned away for want of tickets. By pigeonhole: the seats sold are
/// distinct values among `1 ..= max_tickets` that avoid the free seat, so at
/// most `max_tickets - 1` are sold, and the tickets remaining make up the
/// difference.
pub proof fn lemma_free_seat_means_tickets_remain(m: TokenMaster, id: u64, seat: u64)
    requires
        m.wf(),
        m.occasion_exists(id),
        1 <= seat <= m.occasions@[id - 1].max_tickets,
        !m.seat_sold(id - 1, seat),
    ensures
        m.occasions@[id - 1].tickets >= 1,
{
    broadcast use vstd::seq_lib::seq_to_set_is_finite;

    let record = m.sales@[id - 1]@;
    let max = m.occasions@[id - 1].max_tickets as int;
    let sold = record.map_values(|p: (u64, u64)| p.0 as int);
    assert(m.entry_wf(id - 1));
    assert(sold.no_duplicates()) by {
        assert forall|j: int, k: int| 0 <= j < sold.len() && 0 <= k < sold.len() && j != k implies
            sold[j] != sold[k] by {
            if j < k {
                assert(record[j].0 != record[k].0);
            } else {
                assert(record[k].0 != record[j].0);
            }
        }
    }
    let free = set_int_range(1, max + 1).remove(seat as int);
    assert(sold.to_set().subset_of(free)) by {
        assert forall|x: int| sold.to_set().contains(x) implies free.contains(x) by {
            let j = choose|j: int| 0 <= j < sold.len() && sold[j] == x;
            assert(record[j].0 as int == x);
            assert(1 <= record[j].0 <= m.occasions@[id - 1].max_tickets);
            assert(record[j].0 != seat);
        }
    }
    sold.unique_seq_to_set();
    lemma_int_range(1, max + 1);
    assert(set_int_range(1, max + 1).contains(seat as int));
    assert(free.len() == max - 1);
    lemma_len_subset(sold.to_set(), free);
    assert(record.len() <= max - 1);
}

/// Corollary: starting from a well-formed state, `mint` never answers
/// `SoldOut`, whatever the caller asks for — every earlier check already
/// rules the case out.
pub proof fn lemma_mint_never_answers_sold_out(m: TokenMaster, value: u64, id: u64, seat: u64)
    requires
        m.wf(),
    ensures
        m.mint_outcome(value, id, seat) != Err::<u64, Error>(Error::SoldOut),
{
    if m.occasion_exists(id) && value >= m.occasions@[id - 1].cost && 1 <= seat
        <= m.occasions@[id - 1].max_tickets && !m.seat_sold(id - 1, seat) {
        lemma_free_seat_means_tickets_remain(m, id, seat);
    }
}

/// In every well-formed state, the total supply of issued tickets equals the
/// number of sales recorded across all occasions; since each successful
/// purchase appends exactly one sale and issues the serial `total_supply +
/// 1`, the serials ever issued are exactly `1 ..= total_supply`, without
/// gaps or repeats.
pub proof fn lemma_supply_counts_every_sale(m: TokenMaster)
    requires
        m.wf(),
    ensures
        m.total_supply == supply_sum(m.sales@),
{
}

} // verus!
