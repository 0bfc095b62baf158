use predmarket::monitor::{
    concentration_alert, AlertSeverity, AlertType, DrawdownFinding, PositionMonitor,
};
use predmarket::types::{FillId, MarketId, UserId};

const HOUR: i64 = 3_600_000;

#[test]
fn buys_add_lots_and_sells_remove_them_in_order() {
    let mut m = PositionMonitor::new();
    let (u, k) = (UserId(1), MarketId(2));
    assert!(m.try_update_position_at(u, k, 100, 10, 1, 0));
    assert!(m.try_update_position_at(u, k, 200, 5, 1, 1));
    let d = m.get(u, k).unwrap();
    assert_eq!(d.net_quantity, 15);
    assert_eq!(d.entry_prices, vec![(100, 10), (200, 5)]);
    assert_eq!(d.current_value, 15 * 200);
    assert_eq!(d.max_observed_value, 3000);
    assert_eq!(d.last_fill_time, 1);
    // Selling 4 uses part of the first lot, which is kept whole.
    assert!(m.try_update_position_at(u, k, 150, 4, -1, 2));
    let d = m.get(u, k).unwrap();
    assert_eq!(d.net_quantity, 11);
    assert_eq!(d.entry_prices, vec![(100, 10), (200, 5)]);
    assert_eq!(d.current_value, 11 * 150);
    assert_eq!(d.max_observed_value, 3000);
    // Selling 12 uses the first lot entirely and the second in part.
    assert!(m.try_update_position_at(u, k, 150, 12, -1, 3));
    let d = m.get(u, k).unwrap();
    assert_eq!(d.net_quantity, -1);
    assert_eq!(d.entry_prices, vec![(200, 5)]);
}

#[test]
fn flat_positions_are_dropped() {
    let mut m = PositionMonitor::new();
    let (u, k) = (UserId(1), MarketId(2));
    assert!(m.try_update_position_at(u, k, 100, 10, 1, 0));
    assert!(m.try_update_position_at(u, k, 120, 10, -1, 1));
    assert!(m.get(u, k).is_none());
    assert!(m.positions.is_empty());
    assert_eq!(m.calculate_unrealized_pnl(u, k, 150), None);
    assert!(m.check_all_at(1_000_000_000, &vec![]).is_empty());
}

#[test]
fn other_positions_are_untouched() {
    let mut m = PositionMonitor::new();
    assert!(m.try_update_position_at(UserId(1), MarketId(1), 100, 10, 1, 0));
    assert!(m.try_update_position_at(UserId(2), MarketId(1), 300, 3, 1, 0));
    assert!(m.try_update_position_at(UserId(1), MarketId(1), 100, 10, -1, 0));
    let d = m.get(UserId(2), MarketId(1)).unwrap();
    assert_eq!(d.net_quantity, 3);
    assert_eq!(m.positions.len(), 1);
}

#[test]
fn overflow_changes_nothing() {
    let mut m = PositionMonitor::new();
    assert!(m.try_update_position_at(UserId(1), MarketId(1), 10, i64::MAX as u64, 1, 0) == false);
    assert!(m.positions.is_empty());
}

#[test]
fn alerts_for_old_large_and_drawn_down_positions() {
    let mut m = PositionMonitor::new();
    let (u, k) = (UserId(0x2a), MarketId(0x2b));
    assert!(m.try_update_position_at(u, k, 1, 2_000_000_000, 1, 0));
    let alerts = m.check_all_at(30 * HOUR, &vec![DrawdownFinding::Critical("Drawdown 10.0% exceeds max loss".into())]);
    assert_eq!(alerts.len(), 3);
    assert_eq!(alerts[0].alert_type, AlertType::PositionExpired);
    assert_eq!(alerts[0].message, "Position held for 30 hours");
    assert_eq!(alerts[0].entry_price, Some(1));
    assert_eq!(alerts[0].severity, AlertSeverity::Warning);
    assert_eq!(alerts[0].user_id, "00000000-0000-0000-0000-00000000002a");
    assert_eq!(alerts[0].market_id, "00000000-0000-0000-0000-00000000002b");
    assert_eq!(alerts[1].alert_type, AlertType::UnusualSize);
    assert_eq!(alerts[1].message, "Position size 2000000000 exceeds threshold");
    assert_eq!(alerts[2].alert_type, AlertType::MaxDrawdown);
    assert_eq!(alerts[2].severity, AlertSeverity::Critical);
    assert_eq!(alerts[2].unrealized_pnl, Some(0));
    assert_eq!(alerts[2].timestamp, 30 * HOUR);
}

#[test]
fn no_alerts_for_a_fresh_small_position() {
    let mut m = PositionMonitor::new();
    assert!(m.try_update_position_at(UserId(1), MarketId(1), 10, 10, 1, 0));
    assert!(m.check_all_at(24 * HOUR, &vec![DrawdownFinding::Clear]).is_empty());
    let w = m.check_all_at(0, &vec![DrawdownFinding::Warning("Drawdown 4.0% warning".into())]);
    assert_eq!(w.len(), 1);
    assert_eq!(w[0].severity, AlertSeverity::Warning);
    assert_eq!(w[0].message, "Drawdown 4.0% warning");
}

#[test]
fn unrealized_pnl_against_weighted_average_entry() {
    let mut m = PositionMonitor::new();
    let (u, k) = (UserId(1), MarketId(2));
    assert!(m.try_update_position_at(u, k, 100, 10, 1, 0));
    assert!(m.try_update_position_at(u, k, 200, 30, 1, 0));
    // Average entry (1000 + 6000) / 40 = 175.
    assert_eq!(m.calculate_unrealized_pnl(u, k, 180), Some(5 * 40));
    assert_eq!(m.calculate_unrealized_pnl(u, k, 170), Some(-5 * 40));
    assert_eq!(m.calculate_unrealized_pnl(u, MarketId(9), 170), None);
}

#[test]
fn concentration_over_half_of_the_portfolio() {
    let mut m = PositionMonitor::new();
    let u = UserId(1);
    assert!(m.try_update_position_at(u, MarketId(1), 10, 60, 1, 0));
    assert!(m.try_update_position_at(u, MarketId(2), 10, 30, -1, 0));
    assert!(m.try_update_position_at(u, MarketId(3), 10, 10, 1, 0));
    assert!(m.try_update_position_at(UserId(2), MarketId(1), 10, 1000, 1, 0));
    let (sizes, total) = m.user_position_sizes(u);
    assert_eq!(sizes, vec![(MarketId(1), 60), (MarketId(2), 30), (MarketId(3), 10)]);
    assert_eq!(total, 100);
    let (over, total) = m.concentrated_positions(u);
    assert_eq!(over, vec![(MarketId(1), 60)]);
    assert_eq!(total, 100);
    let a = concentration_alert(u, MarketId(1), 60, 5, "60.0% of portfolio concentrated here".into());
    assert_eq!(a.alert_type, AlertType::ConcentrationRisk);
    assert_eq!(a.position_size, 60);
    assert_eq!(a.timestamp, 5);
    assert!(m.concentrated_positions(UserId(77)).0.is_empty());
}

#[test]
fn update_position_now_and_check_all_now() {
    let mut m = PositionMonitor::new();
    assert!(m.update_position(UserId(1), MarketId(2), FillId(3), 10, 10, 1));
    assert_eq!(m.get(UserId(1), MarketId(2)).unwrap().net_quantity, 10);
    assert!(m.check_all(&vec![DrawdownFinding::Clear]).is_empty());
}
