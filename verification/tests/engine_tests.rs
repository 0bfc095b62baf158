use predmarket::engine::{
    book_from_feed, execution_loop_control, feed_loop_control, fill_from_trade, LoopControl,
    TradingEngineStatus,
};
use predmarket::types::{MarketId, Side};

const A: &str = "00000000-0000-0000-0000-000000000001";
const B: &str = "00000000-0000-0000-0000-000000000002";
const C: &str = "00000000-0000-0000-0000-000000000003";

#[test]
fn feed_loops_stop_on_breaker_or_shutdown() {
    assert_eq!(feed_loop_control(true, false), LoopControl::Continue);
    assert_eq!(feed_loop_control(true, true), LoopControl::Stop);
    assert_eq!(feed_loop_control(false, false), LoopControl::Stop);
}

#[test]
fn execution_loop_cancels_on_breaker() {
    assert_eq!(execution_loop_control(true, false), LoopControl::Continue);
    assert_eq!(execution_loop_control(true, true), LoopControl::CancelAllThenStop);
    assert_eq!(execution_loop_control(false, true), LoopControl::Stop);
}

#[test]
fn status_is_plain_data() {
    let s = TradingEngineStatus { running: true, connected: false, ws_connected: true, circuit_breaker_active: false };
    assert!(s.running && !s.connected && s.ws_connected && !s.circuit_breaker_active);
}

#[test]
fn book_from_feed_levels() {
    let b = book_from_feed(A, &vec![(500_000, 10), (490_000, 20)], &vec![(510_000, 5)]).unwrap();
    assert_eq!(b.market_id, MarketId(1));
    assert_eq!(b.bids.len(), 2);
    assert_eq!(b.bids[1].price.0, 490_000);
    assert_eq!(b.bids[1].quantity.0, 20);
    assert_eq!(b.bids[1].count, 1);
    assert_eq!(b.asks[0].price.0, 510_000);
    assert_eq!(b.sequence, 0);
    assert!(book_from_feed("nope", &vec![], &vec![]).is_none());
}

#[test]
fn fill_from_trade_parses_ids() {
    let f = fill_from_trade(A, B, C, 420_000, 7, Side::Sell, 99).unwrap();
    assert_eq!(f.id.0, 1);
    assert_eq!(f.market_id.0, 2);
    assert_eq!(f.taker_order_id.0, 3);
    assert_eq!(f.maker_order_id.0, 0);
    assert_eq!(f.maker_user_id.0, 0);
    assert_eq!(f.taker_user_id.0, 0);
    assert_eq!(f.price.0, 420_000);
    assert_eq!(f.quantity.0, 7);
    assert_eq!(f.aggressor, Side::Sell);
    assert_eq!(f.filled_at, 99);
    assert_eq!(f.sequence, 0);
    assert!(f.transaction_id.is_none());
    assert!(fill_from_trade("x", B, C, 1, 1, Side::Buy, 0).is_none());
    assert!(fill_from_trade(A, "x", C, 1, 1, Side::Buy, 0).is_none());
    assert!(fill_from_trade(A, B, "x", 1, 1, Side::Buy, 0).is_none());
}
