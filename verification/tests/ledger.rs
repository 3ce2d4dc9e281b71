use token_master::{Error, Occasion, TokenMaster};

const ADMIN: u64 = 1;
const CARL: u64 = 200;
const DANA: u64 = 201;

fn fresh() -> TokenMaster {
    TokenMaster::new(ADMIN, String::from("TokenMaster"), String::from("TM"))
}

fn list_three_seats(m: &mut TokenMaster) -> u64 {
    m.list(
        ADMIN,
        String::from("Play"),
        25,
        3,
        String::from("Jul 4"),
        String::from("8:00PM"),
        String::from("Stage Left"),
    )
    .unwrap()
}

#[test]
fn a_new_system_is_empty() {
    let m = fresh();
    assert_eq!(m.owner, ADMIN);
    assert_eq!(m.total_occasions, 0);
    assert_eq!(m.total_supply, 0);
    assert_eq!(m.name, "TokenMaster");
    assert_eq!(m.symbol, "TM");
}

#[test]
fn minting_on_a_missing_occasion_fails() {
    let mut m = fresh();
    assert_eq!(m.mint(CARL, 100, 0, 1), Err(Error::NotFound));
    assert_eq!(m.mint(CARL, 100, 1, 1), Err(Error::NotFound));
    let id = list_three_seats(&mut m);
    assert_eq!(m.mint(CARL, 100, id + 1, 1), Err(Error::NotFound));
}

#[test]
fn seat_zero_is_never_valid() {
    let mut m = fresh();
    let id = list_three_seats(&mut m);
    assert_eq!(m.mint(CARL, 25, id, 0), Err(Error::InvalidSeat));
}

#[test]
fn overpaying_is_accepted() {
    let mut m = fresh();
    let id = list_three_seats(&mut m);
    assert_eq!(m.mint(CARL, 26, id, 2), Ok(1));
}

#[test]
fn seats_taken_lists_sales_in_purchase_order() {
    let mut m = fresh();
    let id = list_three_seats(&mut m);
    assert_eq!(m.get_seats_taken(id).unwrap(), Vec::<u64>::new());
    assert_eq!(m.mint(CARL, 25, id, 3), Ok(1));
    assert_eq!(m.mint(DANA, 25, id, 1), Ok(2));
    assert_eq!(m.get_seats_taken(id).unwrap(), vec![3, 1]);
    assert_eq!(m.get_seats_taken(id + 1), Err(Error::NotFound));
    assert_eq!(m.get_seats_taken(0), Err(Error::NotFound));
}

#[test]
fn has_purchased_tracks_buyers_per_occasion() {
    let mut m = fresh();
    let id = list_three_seats(&mut m);
    assert!(!m.has_purchased(id, CARL));
    assert_eq!(m.mint(CARL, 25, id, 1), Ok(1));
    assert!(m.has_purchased(id, CARL));
    assert!(!m.has_purchased(id, DANA));
    // Unknown occasions simply answer false.
    assert!(!m.has_purchased(0, CARL));
    assert!(!m.has_purchased(id + 1, CARL));
    // A buyer may take more than one seat; the flag stays set.
    assert_eq!(m.mint(CARL, 25, id, 2), Ok(2));
    assert!(m.has_purchased(id, CARL));
}

#[test]
fn withdraw_is_gated_on_the_administrator() {
    let m = fresh();
    assert_eq!(m.withdraw(ADMIN), Ok(()));
    assert_eq!(m.withdraw(CARL), Err(Error::Unauthorized));
}

#[test]
fn the_registry_reasserts_sold_out_as_a_second_line_of_defense() {
    // A state the public operations can never produce: the occasion claims
    // no tickets remain although a seat is still free. The registry's own
    // check must then refuse the decrement.
    let broken = Occasion {
        id: 1,
        name: String::from("Oversold"),
        cost: 10,
        tickets: 0,
        max_tickets: 2,
        date: String::from("Aug 9"),
        time: String::from("6:00PM"),
        location: String::from("Pit"),
    };
    let mut m = TokenMaster {
        owner: ADMIN,
        name: String::from("TokenMaster"),
        symbol: String::from("TM"),
        total_occasions: 1,
        total_supply: 1,
        occasions: vec![broken],
        sales: vec![vec![(1, CARL)]],
    };
    assert_eq!(m.mint(DANA, 10, 1, 2), Err(Error::SoldOut));
    assert_eq!(m.get_occasion(1).unwrap().tickets, 0);
    assert_eq!(m.total_supply, 1);
}
