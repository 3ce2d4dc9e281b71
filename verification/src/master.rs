use vstd::prelude::*;

use crate::errors::Error;
use crate::occasions::Occasion;

verus! {

/// The reservation ledger and occasion registry.
///
/// `occasions` holds the catalog: the occasion with id `i` is stored at index
/// `i - 1`, so ids are dense and start at 1. `sales[i]` records, in purchase
/// order, every seat sold for the occasion at index `i` together with the
/// buyer that bought it; the record is append-only, so a seat's owner never
/// changes. `total_supply` counts the tickets ever issued across all
/// occasions and equals each ticket serial at the moment it is issued.
pub struct TokenMaster {
    /// The administrative identity, fixed at construction.
    pub owner: u64,
    pub name: String,
    pub symbol: String,
    /// Count of occasions ever listed; equals `occasions.len()`.
    pub total_occasions: u64,
    /// Count of tickets ever issued across all occasions.
    pub total_supply: u64,
    pub occasions: Vec<Occasion>,
    /// Per occasion, the `(seat, buyer)` pairs in purchase order.
    pub sales: Vec<Vec<(u64, u64)>>,
}

/// The total number of `(seat, buyer)` pairs recorded across all occasions.
pub open spec fn supply_sum(s: Seq<Vec<(u64, u64)>>) -> int
    decreases s.len(),
{
    if s.len() == 0 {
        0
    } else {
        supply_sum(s.drop_last()) + s.last()@.len()
    }
}

/// Appending one more sale record adds its length to the total.
pub proof fn lemma_supply_sum_push(s: Seq<Vec<(u64, u64)>>, v: Vec<(u64, u64)>)
    ensures
        supply_sum(s.push(v)) == supply_sum(s) + v@.len(),
{
    assert(s.push(v).drop_last() =~= s);
    assert(s.push(v).last() == v);
}

/// Replacing the record at one index changes the total by the difference of
/// the two lengths.
pub proof fn lemma_supply_sum_update(s: Seq<Vec<(u64, u64)>>, i: int, v: Vec<(u64, u64)>)
    requires
        0 <= i < s.len(),
    ensures
        supply_sum(s.update(i, v)) == supply_sum(s) + v@.len() - s[i]@.len(),
    decreases s.len(),
{
    if i == s.len() - 1 {
        assert(s.update(i, v).drop_last() =~= s.drop_last());
        assert(s.update(i, v).last() == v);
    } else {
        assert(s.update(i, v).drop_last() =~= s.drop_last().update(i, v));
        assert(s.update(i, v).last() == s.last());
        lemma_supply_sum_update(s.drop_last(), i, v);
    }
}

impl TokenMaster {
    /// The well-formedness of the catalog entry and sale record at index `i`:
    /// the id matches the index, the capacity is positive, sold seats are
    /// distinct and within capacity, and the tickets remaining account
    /// exactly for the seats sold.
    pub open spec fn entry_wf(self, i: int) -> bool {
        &&& self.occasions@[i].id == i + 1
        &&& self.occasions@[i].max_tickets >= 1
        &&& self.occasions@[i].tickets + self.sales@[i]@.len() == self.occasions@[i].max_tickets
        &&& forall|j: int, k: int|
            0 <= j < k < self.sales@[i]@.len() ==> self.sales@[i]@[j].0 != self.sales@[i]@[k].0
        &&& forall|j: int|
            0 <= j < self.sales@[i]@.len() ==> 1 <= (#[trigger] self.sales@[i]@[j]).0
                <= self.occasions@[i].max_tickets
    }

    /// The global invariant: counters agree with the catalog and the sale
    /// records, and every entry is well formed.
    pub open spec fn wf(self) -> bool {
        &&& self.total_occasions == self.occasions@.len()
        &&& self.sales@.len() == self.occasions@.len()
        &&& forall|i: int| 0 <= i < self.occasions@.len() ==> #[trigger] self.entry_wf(i)
        &&& self.total_supply == supply_sum(self.sales@)
    }

    /// Whether the occasion id names a listed occasion.
    pub open spec fn occasion_exists(self, id: u64) -> bool {
        1 <= id <= self.occasions@.len()
    }

    /// The seats sold for the occasion at index `i`, in purchase order.
    pub open spec fn seats_of(self, i: int) -> Seq<u64> {
        self.sales@[i]@.map_values(|p: (u64, u64)| p.0)
    }

    /// Whether `seat` of the occasion at index `i` has been sold.
    pub open spec fn seat_sold(self, i: int, seat: u64) -> bool {
        exists|j: int| 0 <= j < self.sales@[i]@.len() && (#[trigger] self.sales@[i]@[j]).0 == seat
    }

    /// Whether `buyer` has bought at least one seat of the occasion named by
    /// `id`; false for an id that names no occasion.
    pub open spec fn spec_has_purchased(self, id: u64, buyer: u64) -> bool {
        &&& self.occasion_exists(id)
        &&& exists|j: int|
            0 <= j < self.sales@[id - 1]@.len() && (#[trigger] self.sales@[id - 1]@[j]).1 == buyer
    }

    /// The exact result `list` must return, given the caller and the
    /// requested capacity.
    pub open spec fn list_outcome(self, caller: u64, max_tickets: u64) -> Result<u64, Error> {
        if caller != self.owner {
            Err(Error::Unauthorized)
        } else if max_tickets == 0 {
            Err(Error::InvalidCapacity)
        } else {
            Ok((self.total_occasions + 1) as u64)
        }
    }

    /// The exact result `mint` must return, given the payment, the occasion
    /// id and the seat. The checks apply in this order: the occasion must
    /// exist, the payment must cover the cost, the seat must lie within
    /// capacity, the seat must be free, and a ticket must remain.
    pub open spec fn mint_outcome(self, value: u64, id: u64, seat: u64) -> Result<u64, Error> {
        if !self.occasion_exists(id) {
            Err(Error::NotFound)
        } else if value < self.occasions@[id - 1].cost {
            Err(Error::InsufficientPayment)
        } else if seat < 1 || seat > self.occasions@[id - 1].max_tickets {
            Err(Error::InvalidSeat)
        } else if self.seat_sold(id - 1, seat) {
            Err(Error::SeatTaken)
        } else if self.occasions@[id - 1].tickets == 0 {
            Err(Error::SoldOut)
        } else {
            Ok((self.total_supply + 1) as u64)
        }
    }

    /// How a successful `list` call changes the state: one occasion is
    /// appended with the next sequential id and all tickets available, an
    /// empty sale record is opened for it, and nothing else changes.
    pub open spec fn list_applied(
        self,
        post: TokenMaster,
        name: String,
        cost: u64,
        max_tickets: u64,
        date: String,
        time: String,
        location: String,
    ) -> bool {
        let occ = Occasion {
            id: (self.total_occasions + 1) as u64,
            name,
            cost,
            tickets: max_tickets,
            max_tickets,
            date,
            time,
            location,
        };
        &&& post.total_occasions == self.total_occasions + 1
        &&& post.occasions@ == self.occasions@.push(occ)
        &&& post.sales@.len() == self.sales@.len() + 1
        &&& post.sales@.last()@ == Seq::<(u64, u64)>::empty()
        &&& forall|i: int| 0 <= i < self.sales@.len() ==> post.sales@[i] == self.sales@[i]
        &&& post.total_supply == self.total_supply
        &&& post.owner == self.owner
        &&& post.name == self.name
        &&& post.symbol == self.symbol
    }

    /// How a successful `mint` call changes the state: the sale `(seat,
    /// caller)` is appended to the occasion's record, its remaining tickets
    /// drop by one, one more ticket is issued in total, and nothing else
    /// changes.
    pub open spec fn mint_applied(self, post: TokenMaster, caller: u64, id: u64, seat: u64) -> bool {
        let occ = self.occasions@[id - 1];
        &&& post.total_supply == self.total_supply + 1
        &&& post.occasions@ == self.occasions@.update(
            id - 1,
            (Occasion { tickets: (occ.tickets - 1) as u64, ..occ }),
        )
        &&& post.sales@.len() == self.sales@.len()
        &&& post.sales@[id - 1]@ == self.sales@[id - 1]@.push((seat, caller))
        &&& forall|i: int|
            0 <= i < self.sales@.len() && i != id - 1 ==> post.sales@[i] == self.sales@[i]
        &&& post.total_occasions == self.total_occasions
        &&& post.owner == self.owner
        &&& post.name == self.name
        &&& post.symbol == self.symbol
    }

    /// Creates an empty system whose administrator is `owner`: no occasions
    /// listed, no tickets issued.
    pub fn new(owner: u64, name: String, symbol: String) -> (m: TokenMaster)
        ensures
            m.wf(),
            m.owner == owner,
            m.name == name,
            m.symbol == symbol,
            m.total_occasions == 0,
            m.total_supply == 0,
            m.occasions@.len() == 0,
            m.sales@.len() == 0,
    {
        TokenMaster {
            owner,
            name,
            symbol,
            total_occasions: 0,
            total_supply: 0,
            occasions: Vec::new(),
            sales: Vec::new(),
        }
    }

    /// Lists a new occasion. Only the administrator may list; the capacity
    /// must be positive. On success the occasion gets the next sequential id
    /// (ids are dense and start at 1), all its tickets are available, and the
    /// id is returned. On failure nothing changes.
    pub fn list(
        &mut self,
        caller: u64,
        name: String,
        cost: u64,
        max_tickets: u64,
        date: String,
        time: String,
        location: String,
    ) -> (r: Result<u64, Error>)
        requires
            old(self).wf(),
            old(self).total_occasions < u64::MAX,
        ensures
            final(self).wf(),
            r == old(self).list_outcome(caller, max_tickets),
            r is Err ==> *final(self) == *old(self),
            r is Ok ==> old(self).list_applied(
                *final(self),
                name,
                cost,
                max_tickets,
                date,
                time,
                location,
            ),
    {
        if caller != self.owner {
            return Err(Error::Unauthorized);
        }
        if max_tickets == 0 {
            return Err(Error::InvalidCapacity);
        }
        let id = self.total_occasions + 1;
        let occasion = Occasion {
            id,
            name,
            cost,
            tickets: max_tickets,
            max_tickets,
            date,
            time,
            location,
        };
        self.occasions.push(occasion);
        self.sales.push(Vec::new());
        self.total_occasions = id;
        proof {
            lemma_supply_sum_push(old(self).sales@, final(self).sales@.last());
            assert(final(self).sales@.drop_last() =~= old(self).sales@);
            assert forall|i: int| 0 <= i < final(self).occasions@.len() implies
                #[trigger] final(self).entry_wf(i) by {
                if i < old(self).occasions@.len() {
                    assert(old(self).entry_wf(i));
                    assert(final(self).occasions@[i] == old(self).occasions@[i]);
                    assert(final(self).sales@[i] == old(self).sales@[i]);
                }
            }
        }
        Ok(id)
    }

    /// Purchases a seat: `caller` pays `value` for seat `seat` of the
    /// occasion named by `id`. The checks run in order — the occasion must
    /// exist, the payment must cover the cost, the seat number must lie in
    /// `1 ..= max_tickets`, the seat must still be free, and a ticket must
    /// remain — and no state changes on any failure. On success the seat is
    /// assigned to `caller`, the occasion's remaining tickets drop by one,
    /// and the returned ticket serial is the new `total_supply`.
    pub fn mint(&mut self, caller: u64, value: u64, id: u64, seat: u64) -> (r: Result<u64, Error>)
        requires
            old(self).wf(),
            old(self).total_supply < u64::MAX,
        ensures
            final(self).wf(),
            r == old(self).mint_outcome(value, id, seat),
            r is Err ==> *final(self) == *old(self),
            r is Ok ==> old(self).mint_applied(*final(self), caller, id, seat),
    {
        if id < 1 || id > self.total_occasions {
            return Err(Error::NotFound);
        }
        proof {
            assert(self.occasions.len() == self.occasions@.len());
            assert(id - 1 < self.occasions@.len());
        }
        let idx = (id - 1) as usize;
        if value < self.occasions[idx].cost {
            return Err(Error::InsufficientPayment);
        }
        if seat < 1 || seat > self.occasions[idx].max_tickets {
            return Err(Error::InvalidSeat);
        }
        if seat_in_record(&self.sales[idx], seat) {
            return Err(Error::SeatTaken);
        }
        if self.occasions[idx].tickets == 0 {
            return Err(Error::SoldOut);
        }
        let serial = self.total_supply + 1;
        let occ = &mut self.occasions[idx];
        occ.tickets = occ.tickets - 1;
        self.sales[idx].push((seat, caller));
        self.total_supply = serial;
        proof {
            lemma_supply_sum_update(
                old(self).sales@,
                id - 1,
                final(self).sales@[id - 1],
            );
            assert(final(self).sales@ =~= old(self).sales@.update(
                id - 1,
                final(self).sales@[id - 1],
            ));
            assert forall|i: int| 0 <= i < final(self).occasions@.len() implies
                #[trigger] final(self).entry_wf(i) by {
                assert(old(self).entry_wf(i));
                if i != id - 1 {
                    assert(final(self).occasions@[i] == old(self).occasions@[i]);
                    assert(final(self).sales@[i] == old(self).sales@[i]);
                }
            }
        }
        Ok(serial)
    }

    /// Returns a copy of the occasion named by `id`, exactly as stored, or
    /// `NotFound` if `id` is zero or beyond the last listed occasion.
    pub fn get_occasion(&self, id: u64) -> (r: Result<Occasion, Error>)
        requires
            self.wf(),
        ensures
            self.occasion_exists(id) ==> r == Ok::<Occasion, Error>(self.occasions@[id - 1]),
            !self.occasion_exists(id) ==> r == Err::<Occasion, Error>(Error::NotFound),
    {
        if id < 1 || id > self.total_occasions {
            return Err(Error::NotFound);
        }
        proof {
            assert(self.occasions.len() == self.occasions@.len());
            assert(id - 1 < self.occasions@.len());
        }
        let occ = &self.occasions[(id - 1) as usize];
        Ok(
            Occasion {
                id: occ.id,
                name: occ.name.clone(),
                cost: occ.cost,
                tickets: occ.tickets,
                max_tickets: occ.max_tickets,
                date: occ.date.clone(),
                time: occ.time.clone(),
                location: occ.location.clone(),
            },
        )
    }

    /// Returns the seats sold for the occasion named by `id`, in purchase
    /// order (empty if none sold yet), or `NotFound` if the occasion does
    /// not exist.
    pub fn get_seats_taken(&self, id: u64) -> (r: Result<Vec<u64>, Error>)
        requires
            self.wf(),
        ensures
            self.occasion_exists(id) ==> r is Ok && r->Ok_0@ == self.seats_of(id - 1),
            !self.occasion_exists(id) ==> r == Err::<Vec<u64>, Error>(Error::NotFound),
    {
        if id < 1 || id > self.total_occasions {
            return Err(Error::NotFound);
        }
        proof {
            assert(self.sales.len() == self.sales@.len());
            assert(id - 1 < self.sales@.len());
        }
        let record = &self.sales[(id - 1) as usize];
        let n = record.len();
        let mut seats: Vec<u64> = Vec::new();
        let mut k: usize = 0;
        while k < n
            invariant
                n == record@.len(),
                k <= n,
                seats@.len() == k,
                forall|j: int| 0 <= j < k ==> seats@[j] == (#[trigger] record@[j]).0,
            decreases n - k,
        {
            seats.push(record[k].0);
            k = k + 1;
        }
        proof {
            assert(seats@ =~= self.seats_of(id - 1));
        }
        Ok(seats)
    }

    /// Whether `buyer` has bought at least one seat of the occasion named by
    /// `id`. A pure lookup: false both for an unknown occasion and for a
    /// buyer with no purchase there.
    pub fn has_purchased(&self, id: u64, buyer: u64) -> (b: bool)
        requires
            self.wf(),
        ensures
            b == self.spec_has_purchased(id, buyer),
    {
        if id < 1 || id > self.total_occasions {
            return false;
        }
        proof {
            assert(self.sales.len() == self.sales@.len());
            assert(id - 1 < self.sales@.len());
        }
        let record = &self.sales[(id - 1) as usize];
        let n = record.len();
        let mut k: usize = 0;
        while k < n
            invariant
                self.occasion_exists(id),
                id - 1 < self.sales@.len(),
                record@ == self.sales@[id - 1]@,
                n == record@.len(),
                k <= n,
                forall|j: int| 0 <= j < k ==> (#[trigger] record@[j]).1 != buyer,
            decreases n - k,
        {
            if record[k].1 == buyer {
                proof {
                    assert(self.sales@[id - 1]@[k as int].1 == buyer);
                }
                return true;
            }
            k = k + 1;
        }
        false
    }

    /// The administrative gate on fund withdrawal: succeeds exactly when the
    /// caller is the administrator. Moving the funds themselves is the
    /// hosting environment's business; the ledger state never changes here.
    pub fn withdraw(&self, caller: u64) -> (r: Result<(), Error>)
        ensures
            caller == self.owner ==> r == Ok::<(), Error>(()),
            caller != self.owner ==> r == Err::<(), Error>(Error::Unauthorized),
    {
        if caller != self.owner {
            return Err(Error::Unauthorized);
        }
        Ok(())
    }
}

/// Whether `seat` occurs among the seats of the given sale record.
fn seat_in_record(record: &Vec<(u64, u64)>, seat: u64) -> (b: bool)
    ensures
        b == exists|j: int| 0 <= j < record@.len() && (#[trigger] record@[j]).0 == seat,
{
    let n = record.len();
    let mut k: usize = 0;
    while k < n
        invariant
            n == record@.len(),
            k <= n,
            forall|j: int| 0 <= j < k ==> (#[trigger] record@[j]).0 != seat,
        decreases n - k,
    {
        if record[k].0 == seat {
            return true;
        }
        k = k + 1;
    }
    false
}

} // verus!
