use predmarket::reconcile::{position_delta, OrderReconciler, PendingOrder};

fn order(id: &str) -> PendingOrder {
    PendingOrder { order_id: id.into(), market_id: "m".into(), quantity_bits: 2.5f64.to_bits(), timestamp: 1 }
}

#[test]
fn register_and_finalize() {
    let mut r = OrderReconciler::new();
    assert_eq!(r.pending.len(), 0);
    r.register(order("a"));
    r.register(order("b"));
    r.register(order("a"));
    assert_eq!(r.pending.len(), 2);
    assert_eq!(f64::from_bits(r.pending.get("a").unwrap().quantity_bits), 2.5);
    r.finalize("a");
    assert_eq!(r.pending.len(), 1);
    assert!(r.pending.get("a").is_none());
    r.finalize("zzz");
    assert_eq!(r.pending.len(), 1);
}

#[test]
fn process_fill_settles_taker_order() {
    let mut r = OrderReconciler::new();
    r.register(order("t"));
    assert_eq!(r.process_fill("t", "buy", 40), 40);
    assert!(r.pending.get("t").is_none());
    assert_eq!(r.process_fill("t", "sell", 40), -40);
}

#[test]
fn delta_sign_follows_side() {
    assert_eq!(position_delta("buy", 5), 5);
    assert_eq!(position_delta("sell", 5), -5);
    assert_eq!(position_delta("BUY", 5), -5);
}

#[test]
fn quantities_are_read_as_signed_64_bit() {
    assert_eq!(position_delta("buy", u64::MAX), -1);
    assert_eq!(position_delta("sell", u64::MAX), 1);
    assert_eq!(position_delta("buy", 0x8000_0000_0000_0000), i64::MIN);
}
