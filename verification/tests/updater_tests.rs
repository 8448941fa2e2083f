//! Tests of the per-instrument book updater: validation of snapshots and
//! deltas, full update application, and the end-to-end sequence scenarios.

use bookfeed::book::OrderBook;
use bookfeed::error::DataError;
use bookfeed::message::SubscriptionId;
use bookfeed::side::{Level, OrderBookSide, Side};
use bookfeed::updater::{
    BybitBookUpdate, BybitBookUpdater, BybitLevel, BybitOrderBookInner, BybitOrderBookL2Delta,
    BybitOrderBookL2Snapshot,
};

fn keyed_snapshot_payload(key: &str, update_id: u64, seq: u64, time: u64, bids: Vec<BybitLevel>, asks: Vec<BybitLevel>) -> BybitOrderBookL2Snapshot {
    BybitOrderBookL2Snapshot {
        subscription_id: SubscriptionId::from(key),
        message_type: String::from("snapshot"),
        time,
        data: BybitOrderBookInner { bids, asks, update_id, seq },
        _phantom: core::marker::PhantomData,
    }
}

fn snapshot_payload(update_id: u64, seq: u64, time: u64, bids: Vec<BybitLevel>, asks: Vec<BybitLevel>) -> BybitOrderBookL2Snapshot {
    keyed_snapshot_payload("orderbook.50|ETHUSDT", update_id, seq, time, bids, asks)
}

fn keyed_delta_payload(key: &str, update_id: u64, seq: u64, time: u64, bids: Vec<BybitLevel>, asks: Vec<BybitLevel>) -> BybitOrderBookL2Delta {
    BybitOrderBookL2Delta {
        subscription_id: SubscriptionId::from(key),
        message_type: String::from("delta"),
        time,
        data: BybitOrderBookInner { bids, asks, update_id, seq },
        _phantom: core::marker::PhantomData,
    }
}

fn delta_payload(update_id: u64, seq: u64, time: u64, bids: Vec<BybitLevel>, asks: Vec<BybitLevel>) -> BybitOrderBookL2Delta {
    keyed_delta_payload("orderbook.50|ETHUSDT", update_id, seq, time, bids, asks)
}

fn lv(price: u64, amount: u64) -> BybitLevel {
    BybitLevel { price, amount }
}

#[test]
fn test_construction_and_validation() {
    let snapshot = keyed_snapshot_payload(
        "@depth@100ms|ETHUSDT",
        60559109,
        71512462685,
        1730955107459,
        vec![lv(283609000000, 51761000), lv(283586000000, 15423000)],
        vec![],
    );
    assert!(snapshot.validate_type(), "Snapshot type validation failed");
}

#[test]
fn test_is_first_update() {
    // TC0: is first update
    assert_eq!(BybitBookUpdater::new().is_first_update(), true, "TC0 failed");
    // TC1: is not first update
    let updater = BybitBookUpdater { updates_processed: 10, last_update_id: 100, initialized: true };
    assert_eq!(updater.is_first_update(), false, "TC1 failed");
}

#[test]
fn test_validate_snapshot_update() {
    // TC0: valid snapshot update
    let updater = BybitBookUpdater::new();
    let input = snapshot_payload(60559109, 71512462685, 1730955107459, vec![], vec![]);
    assert_eq!(updater.validate_snapshot_update(&input), Ok(()), "TC0 failed");
}

#[test]
fn test_validate_delta_update() {
    // TC0: invalid delta update with update_id == 1 (reserved for the
    // initial snapshot)
    let updater = BybitBookUpdater::new();
    let input = delta_payload(1, 71512462685, 1730955107459, vec![], vec![]);
    assert!(
        matches!(
            updater.validate_delta_update(&input),
            Err(DataError::InvalidSequence { prev_last_update_id: 0, first_update_id: 1 })
        ),
        "TC0 failed"
    );

    // TC1: valid first delta update (any update_id except 1)
    let updater = BybitBookUpdater::new();
    let input = delta_payload(2, 71512462685, 1730955107459, vec![], vec![]);
    assert_eq!(updater.validate_delta_update(&input), Ok(()), "TC1 failed");

    // TC2: valid non-first delta update (update_id is sequential)
    let updater = BybitBookUpdater { updates_processed: 1, last_update_id: 2, initialized: true };
    let input = delta_payload(3, 71512462685, 1730955107459, vec![], vec![]);
    assert_eq!(updater.validate_delta_update(&input), Ok(()), "TC2 failed");

    // TC3: invalid non-first delta update (update_id is not sequential)
    let updater = BybitBookUpdater { updates_processed: 1, last_update_id: 3, initialized: true };
    let input = delta_payload(2, 71512462685, 1730955107459, vec![], vec![]);
    assert!(
        matches!(
            updater.validate_delta_update(&input),
            Err(DataError::InvalidSequence { prev_last_update_id: 3, first_update_id: 2 })
        ),
        "TC3 failed"
    );
}

#[test]
fn test_apply_update() {
    let time: u64 = 1730955107459;

    // TC0: snapshot update, overwriting the existing book
    let mut updater = BybitBookUpdater { updates_processed: 10, last_update_id: 103, initialized: true };
    let mut book = OrderBook {
        last_update_time: time,
        bids: OrderBookSide::new(Side::Buy, vec![Level::new(50, 1)]),
        asks: OrderBookSide::new(Side::Sell, vec![Level::new(100, 1)]),
    };
    let input = BybitBookUpdate::Snapshot(snapshot_payload(
        1,
        71512462781,
        time,
        vec![lv(50, 10), lv(60, 20)],
        vec![lv(150, 1)],
    ));
    let expected = OrderBook {
        last_update_time: time,
        bids: OrderBookSide::new(Side::Buy, vec![Level::new(60, 20), Level::new(50, 10)]),
        asks: OrderBookSide::new(Side::Sell, vec![Level::new(150, 1)]),
    };
    match updater.update(&mut book, input) {
        Ok(Some(actual)) => assert_eq!(actual, expected, "TC0 failed"),
        other => panic!("TC0 failed: {:?}", other),
    }

    // TC1: valid delta update with a sorted snapshot generated
    let mut updater = BybitBookUpdater { updates_processed: 100, last_update_id: 100, initialized: true };
    let mut book = OrderBook {
        last_update_time: time,
        bids: OrderBookSide::new(
            Side::Buy,
            vec![Level::new(80, 1), Level::new(100, 1), Level::new(90, 1)],
        ),
        asks: OrderBookSide::new(
            Side::Sell,
            vec![Level::new(150, 1), Level::new(110, 1), Level::new(120, 1)],
        ),
    };
    let input = BybitBookUpdate::Delta(keyed_delta_payload(
        "subscription_id",
        101,
        71512462781,
        time,
        vec![
            // Level exists & new value is 0 => remove Level
            lv(80, 0),
            // Level exists & new value is > 0 => replace Level
            lv(90, 10),
        ],
        vec![
            // Level does not exist & new value > 0 => insert new Level
            lv(200, 1),
            // Level does not exist & new value is 0 => no change
            lv(500, 0),
        ],
    ));
    let expected = OrderBook {
        last_update_time: time,
        bids: OrderBookSide::new(Side::Buy, vec![Level::new(100, 1), Level::new(90, 10)]),
        asks: OrderBookSide::new(
            Side::Sell,
            vec![
                Level::new(110, 1),
                Level::new(120, 1),
                Level::new(150, 1),
                Level::new(200, 1),
            ],
        ),
    };
    match updater.update(&mut book, input) {
        Ok(Some(actual)) => assert_eq!(actual, expected, "TC1 failed"),
        other => panic!("TC1 failed: {:?}", other),
    }
}

#[test]
fn fresh_subscription_snapshot_then_two_deltas() {
    let mut updater = BybitBookUpdater::new();
    let mut book = OrderBook::new_empty(0);

    // snapshot update_id=100
    let snap = BybitBookUpdate::Snapshot(snapshot_payload(
        100,
        1,
        10,
        vec![lv(50, 1), lv(60, 2)],
        vec![lv(150, 1)],
    ));
    match updater.update(&mut book, snap) {
        Ok(Some(emitted)) => {
            assert_eq!(
                *emitted.bids.levels(),
                vec![Level::new(60, 2), Level::new(50, 1)]
            );
            assert_eq!(*emitted.asks.levels(), vec![Level::new(150, 1)]);
        }
        other => panic!("snapshot not applied: {:?}", other),
    }

    // delta update_id=101
    let d1 = BybitBookUpdate::Delta(delta_payload(
        101,
        2,
        11,
        vec![lv(60, 0), lv(70, 3)],
        vec![lv(150, 0), lv(140, 5)],
    ));
    match updater.update(&mut book, d1) {
        Ok(Some(emitted)) => {
            assert_eq!(
                *emitted.bids.levels(),
                vec![Level::new(70, 3), Level::new(50, 1)]
            );
            assert_eq!(*emitted.asks.levels(), vec![Level::new(140, 5)]);
        }
        other => panic!("first delta not applied: {:?}", other),
    }

    // delta update_id=102
    let d2 = BybitBookUpdate::Delta(delta_payload(102, 3, 12, vec![], vec![lv(140, 0)]));
    match updater.update(&mut book, d2) {
        Ok(Some(emitted)) => {
            assert_eq!(
                *emitted.bids.levels(),
                vec![Level::new(70, 3), Level::new(50, 1)]
            );
            assert_eq!(*emitted.asks.levels(), Vec::<Level>::new());
        }
        other => panic!("second delta not applied: {:?}", other),
    }
    assert_eq!(updater.last_update_id, 102);
    assert_eq!(updater.updates_processed, 2);
}

#[test]
fn reserved_update_id_rejection() {
    let mut updater = BybitBookUpdater::new();
    let mut book = OrderBook::new_empty(0);
    let d = BybitBookUpdate::Delta(delta_payload(1, 1, 5, vec![lv(10, 1)], vec![]));
    let r = updater.update(&mut book, d);
    assert!(matches!(
        r,
        Err(DataError::InvalidSequence { prev_last_update_id: 0, first_update_id: 1 })
    ));
    assert!(book.bids.levels().is_empty());
    assert!(book.asks.levels().is_empty());
    assert!(!updater.initialized);
}

#[test]
fn out_of_order_delta_rejection() {
    let mut updater = BybitBookUpdater::new();
    let mut book = OrderBook::new_empty(0);
    let snap = BybitBookUpdate::Snapshot(snapshot_payload(100, 1, 10, vec![lv(50, 1)], vec![]));
    updater.update(&mut book, snap).unwrap();

    // delta with a gap: update_id=102 after 100
    let d = BybitBookUpdate::Delta(delta_payload(102, 2, 11, vec![lv(60, 1)], vec![]));
    let r = updater.update(&mut book, d);
    assert!(matches!(
        r,
        Err(DataError::InvalidSequence { prev_last_update_id: 100, first_update_id: 102 })
    ));
    // the book is unchanged and the updater awaits a snapshot again
    assert_eq!(*book.bids.levels(), vec![Level::new(50, 1)]);
    assert!(!updater.initialized);

    // a further in-sequence-looking delta is still dropped until a
    // snapshot arrives
    let d = BybitBookUpdate::Delta(delta_payload(101, 3, 12, vec![lv(61, 1)], vec![]));
    assert!(matches!(updater.update(&mut book, d), Err(DataError::SnapshotMissing)));
}

#[test]
fn snapshot_reseed_while_live() {
    let mut updater = BybitBookUpdater::new();
    let mut book = OrderBook::new_empty(0);
    let snap = BybitBookUpdate::Snapshot(snapshot_payload(100, 1, 10, vec![lv(50, 1)], vec![lv(150, 2)]));
    updater.update(&mut book, snap).unwrap();
    let d = BybitBookUpdate::Delta(delta_payload(101, 2, 11, vec![lv(55, 4)], vec![]));
    updater.update(&mut book, d).unwrap();
    assert_eq!(updater.updates_processed, 1);

    // re-seed with disjoint levels
    let reseed = BybitBookUpdate::Snapshot(snapshot_payload(
        200,
        3,
        12,
        vec![lv(70, 7)],
        vec![lv(170, 9)],
    ));
    match updater.update(&mut book, reseed) {
        Ok(Some(emitted)) => {
            assert_eq!(*emitted.bids.levels(), vec![Level::new(70, 7)]);
            assert_eq!(*emitted.asks.levels(), vec![Level::new(170, 9)]);
        }
        other => panic!("re-seed not applied: {:?}", other),
    }
    assert_eq!(*book.bids.levels(), vec![Level::new(70, 7)]);
    assert_eq!(*book.asks.levels(), vec![Level::new(170, 9)]);
    assert_eq!(updater.last_update_id, 200);
    assert_eq!(updater.updates_processed, 0);
}

#[test]
fn empty_delta_advances_without_emitting() {
    let mut updater = BybitBookUpdater::new();
    let mut book = OrderBook::new_empty(0);
    let snap = BybitBookUpdate::Snapshot(snapshot_payload(100, 1, 10, vec![lv(50, 1)], vec![]));
    updater.update(&mut book, snap).unwrap();
    let d = BybitBookUpdate::Delta(delta_payload(101, 2, 11, vec![], vec![]));
    assert_eq!(updater.update(&mut book, d), Ok(None));
    assert_eq!(updater.last_update_id, 101);
    assert_eq!(updater.updates_processed, 1);
    assert_eq!(*book.bids.levels(), vec![Level::new(50, 1)]);
}

#[test]
fn init_opens_an_empty_book() {
    let opened = BybitBookUpdater::init(String::from("ETHUSDT")).unwrap();
    assert_eq!(opened.instrument, String::from("ETHUSDT"));
    assert_eq!(opened.updater, BybitBookUpdater::new());
    assert!(opened.book.bids.levels().is_empty());
    assert!(opened.book.asks.levels().is_empty());
}

#[test]
fn first_update_range_rule() {
    let updater = BybitBookUpdater { updates_processed: 0, last_update_id: 100, initialized: true };
    // the first delta must straddle revision 101
    assert_eq!(updater.validate_first_update(99, 101), Ok(()));
    assert_eq!(updater.validate_first_update(101, 101), Ok(()));
    assert!(matches!(
        updater.validate_first_update(102, 110),
        Err(DataError::InvalidSequence { prev_last_update_id: 100, first_update_id: 102 })
    ));
    assert!(matches!(
        updater.validate_first_update(95, 100),
        Err(DataError::InvalidSequence { prev_last_update_id: 100, first_update_id: 95 })
    ));
}
