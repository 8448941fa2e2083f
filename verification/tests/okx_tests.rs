//! Tests of the OKX decoders and their conversion into normalized
//! market events.

use bookfeed::book::OrderBookL1;
use bookfeed::event::ExchangeId;
use bookfeed::message::SubscriptionId;
use bookfeed::okx::{
    decode_okx_order_book, decode_okx_trades, market_iter_from_okx_order_book,
    market_iter_from_okx_trades, OkxOrderBook, OkxOrderBookInner, OkxTrade, OkxTrades, OxkLevel,
};
use bookfeed::side::{Level, Side};

#[test]
fn test_okx_message_order_book_l1() {
    // TC0: a single-level snapshot
    let input = r#"{
    "arg": {
        "channel": "books",
        "instId": "BTC-USDT"
    },
    "action": "snapshot",
    "data": [
    {
        "asks": [
            ["8476.98", "415", "0", "13"]
        ],
        "bids": [
            ["8476.97", "256", "0", "12"]
        ],
        "ts": "1597026383085",
        "checksum": -855196043,
        "prevSeqId": -1,
        "seqId": 123456
    }
    ]
}"#;
    let expected = OkxOrderBook {
        subscription_id: SubscriptionId::from("books|BTC-USDT"),
        data: vec![OkxOrderBookInner {
            asks: vec![
                OxkLevel { price: 847698000000, amount: 41500000000, deprecated: 0, no_orders: 1300000000 },
            ],
            bids: vec![
                OxkLevel { price: 847697000000, amount: 25600000000, deprecated: 0, no_orders: 1200000000 },
            ],
            ts: 1597026383085,
            checksum: Some(-855196043),
            seq_id: 123456,
        }],
    };
    match decode_okx_order_book(input) {
        Ok(actual) => assert_eq!(actual, expected, "TC0 failed"),
        Err(err) => panic!("TC0 failed to decode: {:?}", err),
    }

    // TC1: a deeper snapshot
    let input = r#"{
    "arg": {
        "channel": "books",
        "instId": "BTC-USDT"
    },
    "action": "snapshot",
    "data": [
    {
        "asks": [
            ["8476.98", "415", "0", "13"],
            ["8477", "7", "0", "2"],
            ["8477.34", "85", "0", "1"],
            ["8477.56", "1", "0", "1"],
            ["8505.84", "8", "0", "1"],
            ["8506.37", "85", "0", "1"],
            ["8506.49", "2", "0", "1"],
            ["8506.96", "100", "0", "2"]
        ],
        "bids": [
            ["8476.97", "256", "0", "12"],
            ["8475.55", "101", "0", "1"],
            ["8475.54", "100", "0", "1"],
            ["8475.3", "1", "0", "1"],
            ["8447.32", "6", "0", "1"],
            ["8447.02", "246", "0", "1"],
            ["8446.83", "24", "0", "1"],
            ["8446", "95", "0", "3"]
        ],
        "ts": "1597026383085",
        "checksum": -855196043,
        "prevSeqId": -1,
        "seqId": 123456
    }
    ]
}"#;
    let expected = OkxOrderBook {
        subscription_id: SubscriptionId::from("books|BTC-USDT"),
        data: vec![OkxOrderBookInner {
            asks: vec![
                OxkLevel { price: 847698000000, amount: 41500000000, deprecated: 0, no_orders: 1300000000 },
                OxkLevel { price: 847700000000, amount: 700000000, deprecated: 0, no_orders: 200000000 },
                OxkLevel { price: 847734000000, amount: 8500000000, deprecated: 0, no_orders: 100000000 },
                OxkLevel { price: 847756000000, amount: 100000000, deprecated: 0, no_orders: 100000000 },
                OxkLevel { price: 850584000000, amount: 800000000, deprecated: 0, no_orders: 100000000 },
                OxkLevel { price: 850637000000, amount: 8500000000, deprecated: 0, no_orders: 100000000 },
                OxkLevel { price: 850649000000, amount: 200000000, deprecated: 0, no_orders: 100000000 },
                OxkLevel { price: 850696000000, amount: 10000000000, deprecated: 0, no_orders: 200000000 },
            ],
            bids: vec![
                OxkLevel { price: 847697000000, amount: 25600000000, deprecated: 0, no_orders: 1200000000 },
                OxkLevel { price: 847555000000, amount: 10100000000, deprecated: 0, no_orders: 100000000 },
                OxkLevel { price: 847554000000, amount: 10000000000, deprecated: 0, no_orders: 100000000 },
                OxkLevel { price: 847530000000, amount: 100000000, deprecated: 0, no_orders: 100000000 },
                OxkLevel { price: 844732000000, amount: 600000000, deprecated: 0, no_orders: 100000000 },
                OxkLevel { price: 844702000000, amount: 24600000000, deprecated: 0, no_orders: 100000000 },
                OxkLevel { price: 844683000000, amount: 2400000000, deprecated: 0, no_orders: 100000000 },
                OxkLevel { price: 844600000000, amount: 9500000000, deprecated: 0, no_orders: 300000000 },
            ],
            ts: 1597026383085,
            checksum: Some(-855196043),
            seq_id: 123456,
        }],
    };
    match decode_okx_order_book(input) {
        Ok(actual) => assert_eq!(actual, expected, "TC1 failed"),
        Err(err) => panic!("TC1 failed to decode: {:?}", err),
    }
}

#[test]
fn test_okx_message_trades() {
    let input = r#"
    {
        "arg": {
            "channel": "trades",
            "instId": "BTC-USDT"
        },
        "data": [
            {
                "instId": "BTC-USDT",
                "tradeId": "130639474",
                "px": "42219.9",
                "sz": "0.12060306",
                "side": "buy",
                "ts": "1630048897897"
            }
        ]
    }
    "#;
    let expected = OkxTrades {
        subscription_id: SubscriptionId::from("trades|BTC-USDT"),
        data: vec![OkxTrade {
            id: String::from("130639474"),
            price: 4221990000000,
            amount: 12060306,
            side: Side::Buy,
            time: 1630048897897,
        }],
    };
    match decode_okx_trades(input) {
        Ok(actual) => assert_eq!(actual, expected, "TC failed"),
        Err(err) => panic!("TC failed to decode: {:?}", err),
    }
}

#[test]
fn okx_trades_become_public_trade_events() {
    let trades = OkxTrades {
        subscription_id: SubscriptionId::from("trades|BTC-USDT"),
        data: vec![OkxTrade {
            id: String::from("t1"),
            price: 100,
            amount: 3,
            side: Side::Sell,
            time: 55,
        }],
    };
    let instrument = String::from("BTC-USDT");
    let iter = market_iter_from_okx_trades(ExchangeId::Okx, &instrument, trades, 77);
    assert_eq!(iter.0.len(), 1);
    let ev = iter.0[0].as_ref().unwrap();
    assert_eq!(ev.exchange_time, 55);
    assert_eq!(ev.received_time, 77);
    assert_eq!(ev.exchange, ExchangeId::Okx);
    assert_eq!(ev.instrument, String::from("BTC-USDT"));
    assert_eq!(ev.kind.id, String::from("t1"));
    assert_eq!(ev.kind.price, 100);
    assert_eq!(ev.kind.amount, 3);
    assert_eq!(ev.kind.side, Side::Sell);
}

#[test]
fn okx_books_become_sorted_l1_events() {
    // levels arrive unsorted on purpose: the core sorts, it does not
    // trust the delivery order
    let book_msg = OkxOrderBook {
        subscription_id: SubscriptionId::from("books|BTC-USDT"),
        data: vec![OkxOrderBookInner {
            asks: vec![
                OxkLevel { price: 150, amount: 1, deprecated: 0, no_orders: 1 },
                OxkLevel { price: 140, amount: 5, deprecated: 0, no_orders: 1 },
            ],
            bids: vec![
                OxkLevel { price: 50, amount: 1, deprecated: 0, no_orders: 1 },
                OxkLevel { price: 60, amount: 2, deprecated: 0, no_orders: 1 },
            ],
            ts: 9,
            checksum: None,
            seq_id: 4,
        }],
    };
    let instrument = String::from("BTC-USDT");
    let iter = market_iter_from_okx_order_book(ExchangeId::Okx, &instrument, book_msg, 11);
    assert_eq!(iter.0.len(), 1);
    let ev = iter.0[0].as_ref().unwrap();
    assert_eq!(
        ev.kind,
        OrderBookL1 {
            last_update_time: 9,
            best_bid: Level::new(60, 2),
            best_ask: Level::new(140, 5),
        }
    );
}
