//! Tests of the Bybit frame decoders: full snapshot and delta frames,
//! control responses, and the derivation of subscription keys.

use bookfeed::decode::{decode_bybit_book_update, decode_bybit_response};
use bookfeed::error::DataError;
use bookfeed::message::{
    de_message_subscription_id, de_ob_l2_subscription_id, BybitPayload, BybitResponse,
    BybitReturnMessage, SubscriptionId,
};
use bookfeed::updater::{
    BybitBookUpdate, BybitLevel, BybitOrderBookInner, BybitOrderBookL2Delta,
    BybitOrderBookL2Snapshot,
};

#[test]
fn test_bybit_order_book_l2_snapshot() {
    let input = r#"{
    "topic": "orderbook.50.ETHUSDT",
    "ts": 1730955107459,
    "type": "snapshot",
    "data": {
        "s": "ETHUSDT",
        "b": [
            ["2836.09", "0.51761"],
            ["2835.86", "0.15423"],
            ["2835.84", "0.13661"],
            ["2835.83", "0.12095"],
            ["2835.71", "0.03483"],
            ["2835.68", "0.3526"],
            ["2835.64", "0.02709"],
            ["2835.61", "0.25792"],
            ["2835.6", "0.28117"],
            ["2835.57", "0.00094"],
            ["2835.5", "1.57287"],
            ["2835.49", "0.03708"],
            ["2835.48", "0.42837"],
            ["2835.46", "3.5886"],
            ["2835.45", "1.66"],
            ["2835.44", "0.03707"],
            ["2835.41", "0.03486"],
            ["2835.4", "0.53622"],
            ["2835.38", "0.70012"],
            ["2835.37", "0.11534"],
            ["2835.36", "0.03707"],
            ["2835.35", "0.13554"],
            ["2835.34", "0.48606"],
            ["2835.33", "0.11125"],
            ["2835.32", "0.06184"],
            ["2835.3", "0.01593"],
            ["2835.29", "0.63897"],
            ["2835.27", "0.04132"],
            ["2835.24", "0.03715"],
            ["2835.23", "0.14065"],
            ["2835.2", "2.3083"],
            ["2835.19", "1.10422"],
            ["2835.18", "1.05798"],
            ["2835.16", "6.77828"],
            ["2835.12", "16.32594"],
            ["2835.11", "0.35271"],
            ["2835.1", "0.05614"],
            ["2835.08", "0.64923"],
            ["2835.06", "0.03709"],
            ["2835.05", "0.49821"],
            ["2835.03", "1.81531"],
            ["2835.01", "4.4807"],
            ["2835", "52.29645"],
            ["2834.92", "0.79707"],
            ["2834.9", "0.05229"],
            ["2834.85", "1.5121"],
            ["2834.84", "0.44199"],
            ["2834.83", "1.02541"],
            ["2834.81", "1.81358"],
            ["2834.8", "0.56199"]
        ],
        "a": [
            ["2836.1", "0.60857"],
            ["2836.24", "0.03709"],
            ["2836.26", "0.06667"],
            ["2836.29", "0.42129"],
            ["2836.3", "0.03"],
            ["2836.36", "0.18"],
            ["2836.37", "0.35262"],
            ["2836.38", "0.63785"],
            ["2836.4", "0.73782"],
            ["2836.44", "0.53459"],
            ["2836.45", "0.70125"],
            ["2836.49", "0.01942"],
            ["2836.5", "0.06246"],
            ["2836.52", "0.73897"],
            ["2836.55", "0.51833"],
            ["2836.56", "0.44199"],
            ["2836.58", "0.59643"],
            ["2836.6", "0.06"],
            ["2836.62", "0.22636"],
            ["2836.63", "0.00093"],
            ["2836.64", "0.26681"],
            ["2836.68", "4.82671"],
            ["2836.69", "5.775"],
            ["2836.7", "0.06"],
            ["2836.72", "2.21358"],
            ["2836.75", "8.82"],
            ["2836.8", "0.06851"],
            ["2836.81", "0.58613"],
            ["2836.84", "0.68768"],
            ["2836.85", "0.2"],
            ["2836.86", "0.04964"],
            ["2836.87", "1.60443"],
            ["2836.88", "2.60805"],
            ["2836.89", "2.14599"],
            ["2836.9", "0.06"],
            ["2836.91", "0.7057"],
            ["2836.94", "0.1763"],
            ["2836.97", "1.03508"],
            ["2837", "0.06246"],
            ["2837.03", "1.05492"],
            ["2837.05", "0.70477"],
            ["2837.06", "0.35262"],
            ["2837.08", "0.35262"],
            ["2837.09", "1.21444"],
            ["2837.1", "1.88624"],
            ["2837.14", "2.52011"],
            ["2837.15", "0.62875"],
            ["2837.19", "0.00093"],
            ["2837.2", "0.06"],
            ["2837.23", "4.2424"]
        ],
        "u": 60559109,
        "seq": 71512462685
    },
    "cts": 1730955107457
}"#;
    let expected = BybitBookUpdate::Snapshot(BybitOrderBookL2Snapshot {
        subscription_id: SubscriptionId::from("orderbook.50|ETHUSDT"),
        message_type: String::from("snapshot"),
        time: 1730955107459,
        data: BybitOrderBookInner {
            update_id: 60559109,
            seq: 71512462685,
            bids: vec![
                BybitLevel { price: 283609000000, amount: 51761000 },
                BybitLevel { price: 283586000000, amount: 15423000 },
                BybitLevel { price: 283584000000, amount: 13661000 },
                BybitLevel { price: 283583000000, amount: 12095000 },
                BybitLevel { price: 283571000000, amount: 3483000 },
                BybitLevel { price: 283568000000, amount: 35260000 },
                BybitLevel { price: 283564000000, amount: 2709000 },
                BybitLevel { price: 283561000000, amount: 25792000 },
                BybitLevel { price: 283560000000, amount: 28117000 },
                BybitLevel { price: 283557000000, amount: 94000 },
                BybitLevel { price: 283550000000, amount: 157287000 },
                BybitLevel { price: 283549000000, amount: 3708000 },
                BybitLevel { price: 283548000000, amount: 42837000 },
                BybitLevel { price: 283546000000, amount: 358860000 },
                BybitLevel { price: 283545000000, amount: 166000000 },
                BybitLevel { price: 283544000000, amount: 3707000 },
                BybitLevel { price: 283541000000, amount: 3486000 },
                BybitLevel { price: 283540000000, amount: 53622000 },
                BybitLevel { price: 283538000000, amount: 70012000 },
                BybitLevel { price: 283537000000, amount: 11534000 },
                BybitLevel { price: 283536000000, amount: 3707000 },
                BybitLevel { price: 283535000000, amount: 13554000 },
                BybitLevel { price: 283534000000, amount: 48606000 },
                BybitLevel { price: 283533000000, amount: 11125000 },
                BybitLevel { price: 283532000000, amount: 6184000 },
                BybitLevel { price: 283530000000, amount: 1593000 },
                BybitLevel { price: 283529000000, amount: 63897000 },
                BybitLevel { price: 283527000000, amount: 4132000 },
                BybitLevel { price: 283524000000, amount: 3715000 },
                BybitLevel { price: 283523000000, amount: 14065000 },
                BybitLevel { price: 283520000000, amount: 230830000 },
                BybitLevel { price: 283519000000, amount: 110422000 },
                BybitLevel { price: 283518000000, amount: 105798000 },
                BybitLevel { price: 283516000000, amount: 677828000 },
                BybitLevel { price: 283512000000, amount: 1632594000 },
                BybitLevel { price: 283511000000, amount: 35271000 },
                BybitLevel { price: 283510000000, amount: 5614000 },
                BybitLevel { price: 283508000000, amount: 64923000 },
                BybitLevel { price: 283506000000, amount: 3709000 },
                BybitLevel { price: 283505000000, amount: 49821000 },
                BybitLevel { price: 283503000000, amount: 181531000 },
                BybitLevel { price: 283501000000, amount: 448070000 },
                BybitLevel { price: 283500000000, amount: 5229645000 },
                BybitLevel { price: 283492000000, amount: 79707000 },
                BybitLevel { price: 283490000000, amount: 5229000 },
                BybitLevel { price: 283485000000, amount: 151210000 },
                BybitLevel { price: 283484000000, amount: 44199000 },
                BybitLevel { price: 283483000000, amount: 102541000 },
                BybitLevel { price: 283481000000, amount: 181358000 },
                BybitLevel { price: 283480000000, amount: 56199000 },
            ],
            asks: vec![
                BybitLevel { price: 283610000000, amount: 60857000 },
                BybitLevel { price: 283624000000, amount: 3709000 },
                BybitLevel { price: 283626000000, amount: 6667000 },
                BybitLevel { price: 283629000000, amount: 42129000 },
                BybitLevel { price: 283630000000, amount: 3000000 },
                BybitLevel { price: 283636000000, amount: 18000000 },
                BybitLevel { price: 283637000000, amount: 35262000 },
                BybitLevel { price: 283638000000, amount: 63785000 },
                BybitLevel { price: 283640000000, amount: 73782000 },
                BybitLevel { price: 283644000000, amount: 53459000 },
                BybitLevel { price: 283645000000, amount: 70125000 },
                BybitLevel { price: 283649000000, amount: 1942000 },
                BybitLevel { price: 283650000000, amount: 6246000 },
                BybitLevel { price: 283652000000, amount: 73897000 },
                BybitLevel { price: 283655000000, amount: 51833000 },
                BybitLevel { price: 283656000000, amount: 44199000 },
                BybitLevel { price: 283658000000, amount: 59643000 },
                BybitLevel { price: 283660000000, amount: 6000000 },
                BybitLevel { price: 283662000000, amount: 22636000 },
                BybitLevel { price: 283663000000, amount: 93000 },
                BybitLevel { price: 283664000000, amount: 26681000 },
                BybitLevel { price: 283668000000, amount: 482671000 },
                BybitLevel { price: 283669000000, amount: 577500000 },
                BybitLevel { price: 283670000000, amount: 6000000 },
                BybitLevel { price: 283672000000, amount: 221358000 },
                BybitLevel { price: 283675000000, amount: 882000000 },
                BybitLevel { price: 283680000000, amount: 6851000 },
                BybitLevel { price: 283681000000, amount: 58613000 },
                BybitLevel { price: 283684000000, amount: 68768000 },
                BybitLevel { price: 283685000000, amount: 20000000 },
                BybitLevel { price: 283686000000, amount: 4964000 },
                BybitLevel { price: 283687000000, amount: 160443000 },
                BybitLevel { price: 283688000000, amount: 260805000 },
                BybitLevel { price: 283689000000, amount: 214599000 },
                BybitLevel { price: 283690000000, amount: 6000000 },
                BybitLevel { price: 283691000000, amount: 70570000 },
                BybitLevel { price: 283694000000, amount: 17630000 },
                BybitLevel { price: 283697000000, amount: 103508000 },
                BybitLevel { price: 283700000000, amount: 6246000 },
                BybitLevel { price: 283703000000, amount: 105492000 },
                BybitLevel { price: 283705000000, amount: 70477000 },
                BybitLevel { price: 283706000000, amount: 35262000 },
                BybitLevel { price: 283708000000, amount: 35262000 },
                BybitLevel { price: 283709000000, amount: 121444000 },
                BybitLevel { price: 283710000000, amount: 188624000 },
                BybitLevel { price: 283714000000, amount: 252011000 },
                BybitLevel { price: 283715000000, amount: 62875000 },
                BybitLevel { price: 283719000000, amount: 93000 },
                BybitLevel { price: 283720000000, amount: 6000000 },
                BybitLevel { price: 283723000000, amount: 424240000 },
            ],
        },
        _phantom: core::marker::PhantomData,
    });
    match decode_bybit_book_update(input) {
        Ok(actual) => assert_eq!(actual, expected, "TC0 failed"),
        Err(err) => panic!("TC0 failed to decode: {:?}", err),
    }
}

#[test]
fn test_bybit_order_book_l2_delta() {
    let input = r#"{
    "topic": "orderbook.50.ETHUSDT",
    "ts": 1730955107479,
    "type": "delta",
    "data": {
        "s": "ETHUSDT",
        "b": [
            ["2835.86", "0.02504"],
            ["2835.84", "0"],
            ["2835.61", "0"],
            ["2835.6", "0"],
            ["2835.48", "0"],
            ["2835.34", "0.0687"],
            ["2835.29", "0.00093"],
            ["2835.16", "5.776"],
            ["2835.08", "0"],
            ["2834.83", "0"],
            ["2834.76", "1.05792"],
            ["2834.73", "0.00093"],
            ["2834.71", "0.03"],
            ["2834.7", "3.0072"],
            ["2834.68", "1.40538"],
            ["2834.67", "4.2424"]
        ],
        "a": [
            ["2836.29", "0.27911"],
            ["2836.38", "0.4983"],
            ["2836.64", "0"],
            ["2836.84", "0"],
            ["2836.89", "1.75681"],
            ["2836.97", "0"],
            ["2837.15", "0"],
            ["2837.25", "1.75681"],
            ["2837.3", "0.06"],
            ["2837.36", "0.27773"],
            ["2837.42", "0.21489"]
        ],
        "u": 60559110,
        "seq": 71512462781
    },
    "cts": 1730955107476
}"#;
    let expected = BybitBookUpdate::Delta(BybitOrderBookL2Delta {
        subscription_id: SubscriptionId::from("orderbook.50|ETHUSDT"),
        message_type: String::from("delta"),
        time: 1730955107479,
        data: BybitOrderBookInner {
            update_id: 60559110,
            seq: 71512462781,
            bids: vec![
                BybitLevel { price: 283586000000, amount: 2504000 },
                BybitLevel { price: 283584000000, amount: 0 },
                BybitLevel { price: 283561000000, amount: 0 },
                BybitLevel { price: 283560000000, amount: 0 },
                BybitLevel { price: 283548000000, amount: 0 },
                BybitLevel { price: 283534000000, amount: 6870000 },
                BybitLevel { price: 283529000000, amount: 93000 },
                BybitLevel { price: 283516000000, amount: 577600000 },
                BybitLevel { price: 283508000000, amount: 0 },
                BybitLevel { price: 283483000000, amount: 0 },
                BybitLevel { price: 283476000000, amount: 105792000 },
                BybitLevel { price: 283473000000, amount: 93000 },
                BybitLevel { price: 283471000000, amount: 3000000 },
                BybitLevel { price: 283470000000, amount: 300720000 },
                BybitLevel { price: 283468000000, amount: 140538000 },
                BybitLevel { price: 283467000000, amount: 424240000 },
            ],
            asks: vec![
                BybitLevel { price: 283629000000, amount: 27911000 },
                BybitLevel { price: 283638000000, amount: 49830000 },
                BybitLevel { price: 283664000000, amount: 0 },
                BybitLevel { price: 283684000000, amount: 0 },
                BybitLevel { price: 283689000000, amount: 175681000 },
                BybitLevel { price: 283697000000, amount: 0 },
                BybitLevel { price: 283715000000, amount: 0 },
                BybitLevel { price: 283725000000, amount: 175681000 },
                BybitLevel { price: 283730000000, amount: 6000000 },
                BybitLevel { price: 283736000000, amount: 27773000 },
                BybitLevel { price: 283742000000, amount: 21489000 },
            ],
        },
        _phantom: core::marker::PhantomData,
    });
    match decode_bybit_book_update(input) {
        Ok(actual) => assert_eq!(actual, expected, "TC0 failed"),
        Err(err) => panic!("TC0 failed to decode: {:?}", err),
    }
}

#[test]
fn test_bybit_pong() {
    let input = r#"
        {
            "success": true,
            "ret_msg": "pong",
            "conn_id": "0970e817-426e-429a-a679-ff7f55e0b16a",
            "op": "ping"
        }
    "#;
    let expected = BybitResponse { success: true, ret_msg: BybitReturnMessage::Pong };
    match decode_bybit_response(input) {
        Ok(actual) => assert_eq!(actual, expected, "TC0 failed"),
        Err(err) => panic!("TC0 failed to decode: {:?}", err),
    }
}

#[test]
fn key_decoding_maps_topics_to_canonical_keys() {
    let id = de_message_subscription_id("orderbook.50.ETHUSDT").unwrap();
    assert_eq!(id, SubscriptionId::from("orderbook.50|ETHUSDT"));
    let id = de_message_subscription_id("publicTrade.BTCUSDT").unwrap();
    assert_eq!(id, SubscriptionId::from("publicTrade|BTCUSDT"));
    let err = de_message_subscription_id("orderbook").unwrap_err();
    assert!(matches!(err, DataError::DecodeError { .. }));
}

#[test]
fn ob_l2_subscription_id_uses_the_deepest_channel() {
    let id = de_ob_l2_subscription_id("BTCUSDT");
    assert_eq!(id, SubscriptionId::from("orderbook.200|BTCUSDT"));
}

#[test]
fn decode_rejects_malformed_frames() {
    assert!(matches!(
        decode_bybit_book_update("this is not json"),
        Err(DataError::DecodeError { .. })
    ));
    assert!(matches!(
        decode_bybit_book_update(r#"{"ts": 1, "type": "snapshot"}"#),
        Err(DataError::DecodeError { .. })
    ));
    assert!(matches!(
        decode_bybit_book_update(
            r#"{"topic": "orderbook.50.X", "ts": 1, "type": "trim",
                "data": {"u": 2, "seq": 3, "b": [], "a": []}}"#
        ),
        Err(DataError::DecodeError { .. })
    ));
    assert!(matches!(
        decode_bybit_book_update(
            r#"{"topic": "orderbook.50.X", "ts": 1, "type": "delta",
                "data": {"u": 2, "seq": 3, "b": [["-5", "1"]], "a": []}}"#
        ),
        Err(DataError::DecodeError { .. })
    ));
}

#[test]
fn decode_reads_level_strings_as_ticks() {
    // a frame whose price would collapse to the wrong level if the
    // decimal strings were handed through unscaled
    let input = r#"{"topic": "orderbook.50.X", "ts": 7, "type": "delta",
        "data": {"u": 9, "seq": 3, "b": [["2836.09", "0.51761"]], "a": []}}"#;
    match decode_bybit_book_update(input) {
        Ok(BybitBookUpdate::Delta(d)) => {
            assert_eq!(d.data.bids.len(), 1);
            assert_eq!(d.data.bids[0], BybitLevel { price: 283609000000, amount: 51761000 });
        }
        other => panic!("expected a delta, got {:?}", other),
    }
}
