use predmarket::decimal::Dec;
use predmarket::types::{
    Fill, FillRecord, MarketId, Order, OrderId, OrderKind, OrderRecord, OrderStatus, Position,
    PositionId, Price, Quantity, Side, UserId,
};

/// Whether two decimals stand for the same number.
fn same(a: Dec, b: Dec) -> bool {
    let (x, y) = if a.scale >= b.scale {
        (a.mantissa, b.mantissa * 10i128.pow(a.scale - b.scale))
    } else {
        (a.mantissa * 10i128.pow(b.scale - a.scale), b.mantissa)
    };
    x == y
}

#[test]
fn decimal_arithmetic() {
    let a = Dec::new(15, 1);
    let b = Dec::new(25, 2);
    assert!(same(a.checked_add(&b).unwrap(), Dec::new(175, 2)));
    assert!(same(a.checked_sub(&b).unwrap(), Dec::new(125, 2)));
    assert!(same(a.checked_mul(&b).unwrap(), Dec::new(375, 3)));
    assert!(same(a.checked_div(&b).unwrap(), Dec::new(6, 0)));
    assert_eq!(a.checked_div(&Dec::zero()), None);
    assert!(b.lt(&a));
    assert!(!a.lt(&b));
    assert!(a.le(&a));
    assert!(a.gt(&b));
    assert!(same(a.min(&b), b));
    assert!(same(a.max(&b), a));
    assert!(same(Dec::new(-3, 0).abs(), Dec::new(3, 0)));
    assert!(same(a.neg(), Dec::new(-15, 1)));
}

#[test]
fn decimal_rounding_and_conversion() {
    assert_eq!(Dec::new(25, 1).round(), Dec { mantissa: 2, scale: 0 });
    assert_eq!(Dec::new(35, 1).round(), Dec { mantissa: 4, scale: 0 });
    assert_eq!(Dec::new(-25, 1).round(), Dec { mantissa: -2, scale: 0 });
    assert_eq!(Dec::new(99, 1).to_u64(), Some(9));
    assert_eq!(Dec::new(-1, 0).to_u64(), None);
    assert!(same(Dec::new(4, 0).sqrt().unwrap(), Dec::new(2, 0)));
    assert_eq!(Dec::new(-4, 0).sqrt(), None);
    assert!(same(Dec::from_u64(7), Dec::new(7, 0)));
    assert!(same(Dec::from_i64(-7), Dec::new(-7, 0)));
    assert!(same(Dec::one(), Dec::new(10, 1)));
}

#[test]
fn price_from_decimal_rounds_to_millionths() {
    assert_eq!(Price::from_decimal(Dec::new(5, 1)), Some(Price(500_000)));
    assert_eq!(Price::from_decimal(Dec::new(12345675, 10)), Some(Price(1_235)));
    assert_eq!(Price::from_decimal(Dec::new(12345, 7)), Some(Price(1_234)));
    assert_eq!(Price::from_decimal(Dec::new(0, 0)), None);
    assert_eq!(Price::from_decimal(Dec::new(-1, 1)), None);
    assert_eq!(Price::from_decimal(Dec::new(1, 6)), None);
    assert_eq!(Price::from_decimal(Dec::new(10, 0)), None);
}

#[test]
fn price_helpers() {
    assert!(same(Price(250_000).to_decimal(), Dec::new(25, 2)));
    assert_eq!(Price(3_000_000).complement(), Price(7_000_000));
    assert_eq!(Price(5).saturating_sub(Price(7)), Price(0));
    assert_eq!(Price(7).saturating_sub(Price(5)), Price(2));
}

#[test]
fn quantity_helpers() {
    assert_eq!(Quantity::from_decimal(Dec::new(15, 1)), Quantity(1_500_000));
    assert_eq!(Quantity::from_decimal(Dec::new(-15, 1)), Quantity(0));
    assert!(same(Quantity(2_000_000).to_decimal(), Dec::new(2, 0)));
    assert!(Quantity(0).is_zero());
    assert!(!Quantity(1).is_zero());
    assert_eq!(Quantity(5).saturating_sub(Quantity(7)), Quantity(0));
}

#[test]
fn side_helpers() {
    assert_eq!(Side::Buy.opposite(), Side::Sell);
    assert_eq!(Side::Sell.opposite(), Side::Buy);
    assert_eq!(Side::Buy.as_str(), "buy");
    assert_eq!(Side::Sell.as_str(), "sell");
}

#[test]
fn ids_print_as_uuids() {
    assert_eq!(UserId(1).to_string(), "00000000-0000-0000-0000-000000000001");
    assert_eq!(MarketId(255).to_string(), "00000000-0000-0000-0000-0000000000ff");
    let a = UserId::new();
    let b = UserId::new();
    assert_ne!(a, b);
    assert_eq!(a.to_string().len(), 36);
    assert_eq!(PositionId::new().to_string().len(), 36);
}

fn record() -> OrderRecord {
    OrderRecord {
        id: 1,
        market_id: 2,
        user_id: 3,
        side: Side::Buy,
        kind: OrderKind::Limit,
        price: Some(-1),
        quantity: 10,
        filled_quantity: 4,
        status: OrderStatus::Partial,
        sequence: 8,
        created_at: 100,
        updated_at: 200,
    }
}

#[test]
fn order_from_record_and_remaining() {
    let o = Order::from_record(record());
    assert_eq!(o.id, OrderId(1));
    assert_eq!(o.price, Some(Price(u32::MAX)));
    assert_eq!(o.quantity, Quantity(10));
    assert_eq!(o.remaining(), Quantity(6));
    assert_eq!(o.sequence, 8);
    assert_eq!(o.updated_at, 200);
    let mut r = record();
    r.filled_quantity = 40;
    assert_eq!(Order::from_record(r).remaining(), Quantity(0));
}

#[test]
fn fill_from_record() {
    let f = Fill::from_record(FillRecord {
        id: 1,
        market_id: 2,
        maker_order_id: 3,
        taker_order_id: 4,
        maker_user_id: 5,
        taker_user_id: 6,
        price: 500_000,
        quantity: -1,
        aggressor: Side::Sell,
        sequence: 9,
        filled_at: 10,
        transaction_id: Some("tx".into()),
    });
    assert_eq!(f.quantity, Quantity(u64::MAX));
    assert_eq!(f.price, Price(500_000));
    assert_eq!(f.transaction_id.as_deref(), Some("tx"));
    let g = f.duplicate();
    assert_eq!(g.id, f.id);
    assert_eq!(g.sequence, 9);
}

#[test]
fn position_value_and_total_pnl() {
    let p = Position {
        id: PositionId(1),
        user_id: UserId(1),
        market_id: MarketId(1),
        side: Side::Buy,
        entry_price: Price(400_000),
        current_price: Price(500_000),
        quantity: Quantity(3),
        unrealized_pnl: 300_000,
        realized_pnl: -100_000,
        opened_at: 0,
        updated_at: 0,
    };
    assert_eq!(p.market_value(), 1_500_000);
    assert_eq!(p.total_pnl(), 200_000);
}

#[test]
fn fresh_ids_are_version_four() {
    for v in [UserId::new().0, MarketId::new().0, PositionId::new().0] {
        assert_eq!((v >> 76) & 0xf, 4);
        assert_eq!((v >> 62) & 0x3, 2);
    }
    assert_eq!((predmarket::types::OrderId::new().0 >> 76) & 0xf, 4);
    assert_eq!((predmarket::types::FillId::new().0 >> 62) & 0x3, 2);
    assert_eq!((predmarket::types::SignalId::new().0 >> 76) & 0xf, 4);
}

#[test]
fn clock_seconds_follow_milliseconds() {
    let ms = predmarket::clock::now_millis();
    let s = predmarket::clock::now_secs();
    assert!(s >= ms.div_euclid(1000));
    assert!(s - ms.div_euclid(1000) <= 5);
}

#[test]
fn price_to_decimal_keeps_the_quotient_parts() {
    let d = Price(500_000).to_decimal();
    assert_eq!((d.mantissa, d.scale), (50, 2));
    let q = Quantity(2_000_000).to_decimal();
    assert_eq!((q.mantissa, q.scale), (2, 0));
}

#[test]
fn square_roots_end_across_magnitudes_and_scales() {
    // The square root stops after at most 1000 rounds; across every scale
    // and a spread of magnitudes it ends with a non-negative root.
    let mantissas: [i128; 14] = [
        0,
        1,
        2,
        3,
        7,
        10,
        99,
        12_345,
        1_000_000,
        123_456_789_012,
        4_294_967_296,
        18_446_744_073_709_551_615,
        39_614_081_257_132_168_796_771_975_167,
        79_228_162_514_264_337_593_543_950_335,
    ];
    for m in mantissas {
        for scale in 0..=28u32 {
            let d = Dec { mantissa: m, scale };
            let r = d.sqrt().unwrap();
            assert!(r.mantissa >= 0);
        }
    }
    assert!(Dec::new(-1, 0).sqrt().is_none());
}

#[test]
fn prices_come_back_from_their_decimals() {
    let mut p: u32 = 1_000;
    while p <= 9_999_999 {
        assert_eq!(Price::checked_from_decimal(Price(p).to_decimal()), Some(Some(Price(p))));
        assert_eq!(Price::from_decimal(Price(p).to_decimal()), Some(Price(p)));
        p += 997;
    }
    assert_eq!(Price::from_decimal(Price(9_999_999).to_decimal()), Some(Price(9_999_999)));
    assert_eq!(Price::checked_from_decimal(Dec { mantissa: 79_228_162_514_264_337_593_543_950_335, scale: 0 }), None);
    assert_eq!(Quantity::checked_from_decimal(Dec::new(-1, 0)), Some(Quantity(0)));
}
