use predmarket::analytics::{
    book_figures, book_spread, flow_volumes, momentum_sums, pair_key, push_bounded, FillData,
};
use predmarket::types::{MarketId, OrderBook, Price, PriceLevel, Quantity, Side};
use std::collections::VecDeque;
use predmarket::analytics::{MarketRegimeDetector, SignalGenerator, SIGNAL_WINDOW, TREND_WINDOW};
use predmarket::types::{Fill, FillId, OrderId, UserId};
use predmarket::analytics::{PairWatch, LOOKBACK_WINDOW};

fn fd(price: u32, quantity: u64, side: Side) -> FillData {
    FillData { price, quantity, side, timestamp: 0 }
}

#[test]
fn bounded_window_keeps_the_latest() {
    let mut w: VecDeque<u32> = VecDeque::new();
    for i in 0..5 {
        push_bounded(&mut w, i, 3);
    }
    assert_eq!(w.iter().copied().collect::<Vec<_>>(), vec![2, 3, 4]);
}

#[test]
fn pairs_are_keyed_in_order() {
    assert_eq!(pair_key(MarketId(2), MarketId(1)), (MarketId(1), MarketId(2)));
    assert_eq!(pair_key(MarketId(1), MarketId(2)), (MarketId(1), MarketId(2)));
}

#[test]
fn flow_volumes_over_last_twenty() {
    let mut w: VecDeque<FillData> = VecDeque::new();
    for _ in 0..9 {
        w.push_back(fd(1, 5, Side::Buy));
    }
    assert_eq!(flow_volumes(&w), None);
    w.push_back(fd(1, 7, Side::Sell));
    assert_eq!(flow_volumes(&w), Some((45, 7)));
    for _ in 0..20 {
        w.push_back(fd(1, 2, Side::Sell));
    }
    assert_eq!(flow_volumes(&w), Some((0, 40)));
}

#[test]
fn momentum_sums_of_two_decades() {
    let mut w: VecDeque<FillData> = VecDeque::new();
    for i in 0..19u32 {
        w.push_back(fd(i, 1, Side::Buy));
    }
    assert_eq!(momentum_sums(&w), None);
    w.push_back(fd(19, 1, Side::Buy));
    // Last ten are 10..19, the ten before 0..9.
    assert_eq!(momentum_sums(&w), Some((145, 45)));
}

#[test]
fn book_figures_for_pressure() {
    let bids = vec![(490, 10), (480, 30)];
    let asks = vec![(495, 5)];
    assert_eq!(book_figures(&bids, &asks), Some((490, 495, 5, 40, 5)));
    assert_eq!(book_figures(&vec![(500, 1)], &vec![(400, 1)]), Some((500, 400, 0, 1, 1)));
    assert_eq!(book_figures(&vec![], &asks), None);
    assert_eq!(book_figures(&vec![(1, 0)], &asks), None);
}

#[test]
fn spread_of_a_book() {
    let lvl = |p: u32| PriceLevel { price: Price(p), quantity: Quantity(1), count: 1 };
    let b = OrderBook { market_id: MarketId(1), bids: vec![lvl(100)], asks: vec![lvl(130)], sequence: 0 };
    assert_eq!(book_spread(&b), Some(30));
    let e = OrderBook { market_id: MarketId(1), bids: vec![], asks: vec![lvl(130)], sequence: 0 };
    assert_eq!(book_spread(&e), None);
}

fn trade(market: u128, price: u32, qty: u64, side: Side) -> Fill {
    Fill {
        id: FillId(1),
        market_id: MarketId(market),
        maker_order_id: OrderId(0),
        taker_order_id: OrderId(0),
        maker_user_id: UserId(0),
        taker_user_id: UserId(0),
        price: Price(price),
        quantity: Quantity(qty),
        aggressor: side,
        sequence: 0,
        filled_at: 0,
        transaction_id: None,
    }
}

#[test]
fn signal_window_holds_the_latest_hundred_fills() {
    let mut g = SignalGenerator::new();
    for i in 0..150u32 {
        g.on_fill_at(&trade(1, i, 1, Side::Buy), i as i64);
    }
    let d = &g.data[&1];
    assert_eq!(d.fills.len(), SIGNAL_WINDOW);
    assert_eq!(d.fills.front().unwrap().price, 50);
    assert_eq!(d.fills.back().unwrap().price, 149);
    assert_eq!(d.last_update, 149);
    assert!(g.data.get(&2).is_none());
}

#[test]
fn signal_book_update_keeps_fills() {
    let mut g = SignalGenerator::new();
    g.on_fill_at(&trade(1, 5, 1, Side::Sell), 1);
    let lvl = |p: u32, q: u64| PriceLevel { price: Price(p), quantity: Quantity(q), count: 2 };
    let book = OrderBook { market_id: MarketId(1), bids: vec![lvl(10, 3)], asks: vec![lvl(12, 4), lvl(13, 5)], sequence: 7 };
    g.on_book_update_at(MarketId(1), &book, 9);
    let d = &g.data[&1];
    assert_eq!(d.bids, vec![(10, 3)]);
    assert_eq!(d.asks, vec![(12, 4), (13, 5)]);
    assert_eq!(d.fills.len(), 1);
    assert_eq!(d.last_update, 9);
}

#[test]
fn regime_windows() {
    let mut r = MarketRegimeDetector::new();
    for i in 0..120u32 {
        r.on_fill_at(&trade(3, i, i as u64, Side::Buy), 0);
    }
    let s = &r.data[&3];
    assert_eq!(s.prices.len(), TREND_WINDOW);
    assert_eq!(*s.prices.front().unwrap(), 20);
    assert_eq!(*s.volumes.back().unwrap(), 119);
    let lvl = |p: u32| PriceLevel { price: Price(p), quantity: Quantity(1), count: 1 };
    let book = OrderBook { market_id: MarketId(3), bids: vec![lvl(100)], asks: vec![lvl(104)], sequence: 0 };
    r.on_book_update_at(MarketId(3), &book, 5);
    let empty = OrderBook { market_id: MarketId(3), bids: vec![], asks: vec![lvl(104)], sequence: 0 };
    r.on_book_update_at(MarketId(3), &empty, 6);
    let s = &r.data[&3];
    assert_eq!(s.spreads.iter().copied().collect::<Vec<_>>(), vec![4]);
    assert_eq!(s.last_update, 6);
}

#[test]
fn pairs_register_once_and_take_prices() {
    let mut w = PairWatch::new();
    w.register_pair(MarketId(2), MarketId(1), 0);
    w.register_pair(MarketId(1), MarketId(2), 5);
    w.register_pair(MarketId(1), MarketId(3), 5);
    assert_eq!(w.pairs.len(), 2);
    assert_eq!((w.pairs[0].market_a, w.pairs[0].market_b), (MarketId(1), MarketId(2)));
    assert_eq!(w.pairs[0].last_update, 0);
    w.on_price_update(MarketId(1), 500, 9);
    w.on_price_update(MarketId(2), 700, 10);
    assert_eq!(w.pairs[0].prices_a.iter().copied().collect::<Vec<_>>(), vec![500]);
    assert_eq!(w.pairs[0].prices_b.iter().copied().collect::<Vec<_>>(), vec![700]);
    assert_eq!(w.pairs[1].prices_a.iter().copied().collect::<Vec<_>>(), vec![500]);
    assert!(w.pairs[1].prices_b.is_empty());
    assert_eq!(w.pairs[1].last_update, 10);
    for i in 0..250u32 {
        w.on_price_update(MarketId(3), i, 11);
    }
    assert_eq!(w.pairs[1].prices_b.len(), LOOKBACK_WINDOW);
    assert_eq!(*w.pairs[1].prices_b.front().unwrap(), 50);
}

#[test]
fn clocked_updates_match_the_timed_ones() {
    let mut g = SignalGenerator::new();
    g.on_fill(&trade(4, 9, 1, Side::Buy));
    assert_eq!(g.data[&4].fills.len(), 1);
    let book = OrderBook { market_id: MarketId(4), bids: vec![], asks: vec![], sequence: 0 };
    g.on_book_update(MarketId(4), &book);
    assert!(g.data[&4].bids.is_empty());
    let mut r = MarketRegimeDetector::new();
    r.on_fill(&trade(4, 9, 2, Side::Sell));
    r.on_book_update(MarketId(4), &book);
    assert_eq!(r.data[&4].prices.len(), 1);
    assert!(r.data[&4].spreads.is_empty());
}
