use position_ledger::listing::{list_positions, PAGE_SIZE};
use position_ledger::position::{LedgerError, PositionRow, Status, StoreError};

fn row(id: &str, created_at: i64) -> PositionRow {
    PositionRow {
        id: String::from(id),
        user_id: String::from("user-1"),
        symbol: String::from("BTCUSDT"),
        side: String::from("long"),
        size_usdt: 1_000_000,
        leverage: 1,
        entry_price: 1_000_000,
        initial_margin: 1_000_000,
        created_at,
        status: Status::Open,
        exit_price: None,
        realized_pnl: None,
        closed_at: None,
    }
}

fn ids(rows: &[PositionRow]) -> Vec<String> {
    rows.iter().map(|r| r.id.clone()).collect()
}

#[test]
fn page_size_is_one_hundred() {
    assert_eq!(PAGE_SIZE, 100);
}

#[test]
fn listing_nothing_is_empty() {
    assert_eq!(list_positions(Ok(vec![])), Ok(vec![]));
}

#[test]
fn listing_after_a_failed_read_is_a_persistence_failure() {
    assert_eq!(list_positions(Err(StoreError)), Err(LedgerError::PersistenceFailure));
}

#[test]
fn listing_puts_the_most_recent_first() {
    let page = list_positions(Ok(vec![row("a", 10), row("b", 30), row("c", 20)])).unwrap();
    assert_eq!(ids(&page), ["b", "c", "a"]);
}

#[test]
fn listing_keeps_records_of_one_time_in_their_order() {
    let page = list_positions(Ok(vec![
        row("a", 10),
        row("b", 20),
        row("c", 10),
        row("d", 20),
        row("e", 10),
        row("f", 30),
    ]))
    .unwrap();
    assert_eq!(ids(&page), ["f", "b", "d", "a", "c", "e"]);
}

#[test]
fn listing_leaves_an_ordered_page_as_it_is() {
    let rows = vec![row("d", 40), row("c", 30), row("b", 30), row("a", -5)];
    assert_eq!(list_positions(Ok(rows.clone())), Ok(rows));
}

#[test]
fn listing_reverses_records_in_creation_order() {
    let rows: Vec<PositionRow> = (0..10).map(|i| row(&format!("r{}", i), i)).collect();
    let page = list_positions(Ok(rows)).unwrap();
    assert_eq!(ids(&page), ["r9", "r8", "r7", "r6", "r5", "r4", "r3", "r2", "r1", "r0"]);
}

#[test]
fn listing_of_exactly_one_page_keeps_every_record() {
    let rows: Vec<PositionRow> = (0..100).map(|i| row(&format!("r{}", i), i)).collect();
    let page = list_positions(Ok(rows)).unwrap();
    assert_eq!(page.len(), 100);
    assert_eq!(page[0].id, "r99");
    assert_eq!(page[99].id, "r0");
}

#[test]
fn listing_stops_at_one_page_and_keeps_the_most_recent() {
    let rows: Vec<PositionRow> = (0..250).map(|i| row(&format!("r{}", i), i)).collect();
    let page = list_positions(Ok(rows)).unwrap();
    assert_eq!(page.len(), PAGE_SIZE);
    for (k, r) in page.iter().enumerate() {
        assert_eq!(r.created_at, 249 - k as i64);
        assert_eq!(r.id, format!("r{}", 249 - k));
    }
}

#[test]
fn listing_cuts_a_run_of_equal_times_after_the_first_ones() {
    let rows: Vec<PositionRow> = (0..150).map(|i| row(&format!("r{}", i), 7)).collect();
    let page = list_positions(Ok(rows)).unwrap();
    assert_eq!(page.len(), PAGE_SIZE);
    for (k, r) in page.iter().enumerate() {
        assert_eq!(r.id, format!("r{}", k));
    }
}

#[test]
fn listing_handles_the_extreme_times() {
    let page =
        list_positions(Ok(vec![row("min", i64::MIN), row("max", i64::MAX), row("zero", 0)]))
            .unwrap();
    assert_eq!(ids(&page), ["max", "zero", "min"]);
}

#[test]
fn listing_returns_closed_and_open_records_alike() {
    let mut closed = row("c", 5);
    closed.status = Status::Closed;
    closed.exit_price = Some(2_000_000);
    closed.realized_pnl = Some(1_000_000);
    closed.closed_at = Some(6);
    let page = list_positions(Ok(vec![row("o", 1), closed.clone()])).unwrap();
    assert_eq!(page, vec![closed, row("o", 1)]);
}
