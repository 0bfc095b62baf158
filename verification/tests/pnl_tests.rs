use predmarket::decimal::Dec;
use predmarket::pnl::PnLTracker;
use predmarket::types::{Fill, FillId, MarketId, OrderId, Price, Quantity, Side, UserId};

fn same(a: Dec, b: Dec) -> bool {
    let (x, y) = if a.scale >= b.scale {
        (a.mantissa, b.mantissa * 10i128.pow(a.scale - b.scale))
    } else {
        (a.mantissa * 10i128.pow(b.scale - a.scale), b.mantissa)
    };
    x == y
}

fn fill(qty: u64, price: u32, side: Side) -> Fill {
    Fill {
        id: FillId(1),
        market_id: MarketId(2),
        maker_order_id: OrderId(3),
        taker_order_id: OrderId(4),
        maker_user_id: UserId(5),
        taker_user_id: UserId(6),
        price: Price(price),
        quantity: Quantity(qty),
        aggressor: side,
        sequence: 0,
        filled_at: 0,
        transaction_id: None,
    }
}

const DAY: i64 = 86_400_000;

#[test]
fn buys_open_lots_and_sells_close_them_first_in_first_out() {
    let mut t = PnLTracker::new();
    let (u, m) = (UserId(1), MarketId(2));
    assert!(t.try_record_fill_at(u, m, &fill(10, 500_000, Side::Buy), Dec::new(6, 1), DAY));
    assert!(t.try_record_fill_at(u, m, &fill(10, 600_000, Side::Buy), Dec::new(6, 1), DAY));
    let (realized, unrealized) = t.get_market_pnl(u, m);
    assert!(same(realized, Dec::new(0, 0)));
    assert!(same(unrealized, Dec::new(1, 0)));
    // Selling 15 at 0.7 closes the first lot and half the second.
    assert!(t.try_record_fill_at(u, m, &fill(15, 700_000, Side::Sell), Dec::new(7, 1), DAY + 1));
    let lots = &t.positions[&u.0][&m.0];
    assert_eq!(lots.len(), 1);
    assert_eq!(lots[0].quantity, 5);
    assert!(same(lots[0].entry_price, Dec::new(6, 1)));
    assert!(same(t.user_balances[&u.0], Dec::new(25, 1)));
}

#[test]
fn revaluing_updates_unrealized_profit() {
    let mut t = PnLTracker::new();
    let (u, m) = (UserId(1), MarketId(2));
    assert!(t.try_record_fill_at(u, m, &fill(10, 500_000, Side::Buy), Dec::new(5, 1), DAY));
    assert!(t.try_update_prices_at(m, Dec::new(9, 1), DAY + 5));
    let (_, unrealized) = t.get_market_pnl(u, m);
    assert!(same(unrealized, Dec::new(4, 0)));
    let (r, un) = t.get_user_pnl(u).unwrap();
    assert!(same(r, Dec::new(0, 0)));
    assert!(same(un, Dec::new(4, 0)));
    assert_eq!(t.positions[&u.0][&m.0][0].last_updated, DAY + 5);
}

#[test]
fn unknown_user_has_zero_pnl() {
    let t = PnLTracker::new();
    let (r, u) = t.get_user_pnl(UserId(99)).unwrap();
    assert!(same(r, Dec::new(0, 0)));
    assert!(same(u, Dec::new(0, 0)));
}

#[test]
fn each_fill_appends_a_daily_record() {
    let mut t = PnLTracker::new();
    let (u, m) = (UserId(1), MarketId(2));
    assert!(t.try_record_fill_at(u, m, &fill(10, 500_000, Side::Buy), Dec::new(6, 1), 3 * DAY + 10));
    assert!(t.try_record_fill_at(u, m, &fill(10, 500_000, Side::Buy), Dec::new(6, 1), 3 * DAY + 20));
    let recs = t.get_daily_summary(3).unwrap();
    assert_eq!(recs.len(), 2);
    assert_eq!(recs[1].timestamp, 3 * DAY + 20);
    assert_eq!(recs[1].market_id, m);
    assert!(t.get_daily_summary(4).is_none());
}

#[test]
fn closing_the_day_records_performance() {
    let mut t = PnLTracker::new();
    let (u, m) = (UserId(1), MarketId(2));
    assert!(t.try_record_fill_at(u, m, &fill(10, 500_000, Side::Buy), Dec::new(6, 1), DAY));
    assert!(t.get_performance_metrics(u).is_none());
    assert!(t.try_end_trading_day_at(DAY + 100));
    let hist = &t.historical_performance[&u.0];
    assert_eq!(hist.len(), 1);
    assert_eq!(hist[0].date, 1);
    assert_eq!(hist[0].num_trades, 1);
    let pm = t.get_performance_metrics(u).unwrap();
    assert_eq!(pm.num_trading_days, 1);
    assert_eq!(pm.total_trades, 1);
    // One day: no spread around the mean, so no volatility and no Sharpe ratio.
    assert_eq!(pm.volatility_pct.mantissa, 0);
    assert_eq!(pm.sharpe_ratio.mantissa, 0);
}
