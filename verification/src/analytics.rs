//! The integer side of the market analytics: bounded windows of recent
//! prices and fills, the sums and book figures the signal, regime and
//! arbitrage checks read, and the labels those checks produce.
//!
//! The checks themselves compare floating-point ratios and statistics; the
//! caller makes them from the figures computed here.
use crate::types::{Fill, MarketId, OrderBook, PriceLevel, Side};
use std::collections::{HashMap, VecDeque};
use vstd::prelude::*;
use vstd::std_specs::hash::*;

verus! {

broadcast use vstd::std_specs::hash::group_hash_axioms;

/// Fills kept per market for signals.
pub const SIGNAL_WINDOW: usize = 100usize;

/// Prices and volumes kept per market for regime detection.
pub const TREND_WINDOW: usize = 100usize;

/// Spreads kept per market for regime detection.
pub const VOLATILITY_WINDOW: usize = 50usize;

/// Prices kept per market of a pair for arbitrage.
pub const LOOKBACK_WINDOW: usize = 200usize;

#[allow(non_camel_case_types)]
#[derive(Clone, Copy, Debug, PartialEq, Eq, Structural)]
pub enum ArbAction {
    BuyA_SellB,
    SellA_BuyB,
    Hold,
}

#[derive(Clone, Copy, Debug, PartialEq, Eq, Structural)]
pub enum MarketRegime {
    TrendingUp,
    TrendingDown,
    Ranging,
    HighVolatility,
    LowLiquidity,
    Normal,
}

#[derive(Clone, Copy, Debug, PartialEq, Eq, Structural)]
pub enum VolatilityRegime {
    Low,
    Medium,
    High,
    Extreme,
}

#[derive(Clone, Copy, Debug, PartialEq, Eq, Structural)]
pub enum TradingSignalType {
    Buy,
    Sell,
    Hold,
}

#[derive(Clone, Copy, Debug, PartialEq, Eq, Structural)]
pub enum SignalStrength {
    Strong,
    Moderate,
    Weak,
}

/// A window after appending `x`: the oldest item leaves once the window
/// holds more than `cap`.
pub open spec fn bounded_push<T>(s: Seq<T>, x: T, cap: usize) -> Seq<T> {
    if s.len() + 1 > cap {
        s.push(x).drop_first()
    } else {
        s.push(x)
    }
}

/// Appends `x` to a window of at most `cap` items, dropping the oldest.
pub fn push_bounded<T>(w: &mut VecDeque<T>, x: T, cap: usize)
    ensures
        final(w)@ == bounded_push(old(w)@, x, cap),
{
    w.push_back(x);
    if w.len() > cap {
        let _ = w.pop_front();
        assert(w@ =~= old(w)@.push(x).drop_first());
    }
}

/// A window fed only through `push_bounded` never holds more than `cap`
/// items, and holds exactly the latest ones fed to it.
pub proof fn law_window_keeps_latest<T>(s: Seq<T>, x: T, cap: usize)
    requires
        cap >= 1,
        s.len() <= cap,
    ensures
        bounded_push(s, x, cap).len() <= cap,
        bounded_push(s, x, cap) == s.push(x).subrange(
            s.len() + 1 - bounded_push(s, x, cap).len(),
            s.len() + 1 as int,
        ),
        bounded_push(s, x, cap).last() == x,
{
    let r = bounded_push(s, x, cap);
    if s.len() + 1 > cap {
        assert(r =~= s.push(x).subrange(1, s.len() + 1 as int));
    } else {
        assert(r =~= s.push(x).subrange(0, s.len() + 1 as int));
    }
}

/// The key of a market pair: the two markets in increasing order.
pub fn pair_key(a: MarketId, b: MarketId) -> (r: (MarketId, MarketId))
    ensures
        a.0 < b.0 ==> r == (a, b),
        a.0 >= b.0 ==> r == (b, a),
{
    if a.0 < b.0 {
        (a, b)
    } else {
        (b, a)
    }
}

/// A fill as the signal checks remember it.
#[derive(Clone, Copy, Debug, PartialEq, Eq, Structural)]
pub struct FillData {
    pub price: u32,
    pub quantity: u64,
    pub side: Side,
    pub timestamp: i64,
}

/// The last `k` items of `s` (all of them where there are fewer).
pub open spec fn last_items<T>(s: Seq<T>, k: int) -> Seq<T> {
    if s.len() <= k {
        s
    } else {
        s.subrange(s.len() - k, s.len() as int)
    }
}

/// Total quantity of the fills on `side`.
pub open spec fn side_volume(fs: Seq<FillData>, side: Side) -> int
    decreases fs.len(),
{
    if fs.len() == 0 {
        0
    } else {
        side_volume(fs.drop_last(), side) + if fs.last().side == side {
            fs.last().quantity as int
        } else {
            0
        }
    }
}

/// The buy and sell volume of the last 20 fills, where there are at least
/// 10 fills.
pub open spec fn flow_volumes_of(fs: Seq<FillData>) -> Option<(int, int)> {
    let recent = last_items(fs, 20);
    if recent.len() < 10 {
        None
    } else {
        Some((side_volume(recent, Side::Buy), side_volume(recent, Side::Sell)))
    }
}

/// The buy and sell volume over the last 20 fills (the order-flow
/// imbalance check's figures); `None` with fewer than 10 fills.
pub fn flow_volumes(fills: &VecDeque<FillData>) -> (r: Option<(u128, u128)>)
    ensures
        match flow_volumes_of(fills@) {
            Some((b, s)) => r == Some((b as u128, s as u128)),
            None => r is None,
        },
{
    let n = fills.len();
    let start: usize = if n > 20 {
        n - 20
    } else {
        0
    };
    if n - start < 10 {
        return None;
    }
    let ghost recent = last_items(fills@, 20);
    assert(recent == fills@.subrange(start as int, n as int));
    let mut buy: u128 = 0;
    let mut sell: u128 = 0;
    let mut i: usize = start;
    while i < n
        invariant
            start <= i <= n,
            n == fills@.len(),
            n - start <= 20,
            buy == side_volume(fills@.subrange(start as int, i as int), Side::Buy),
            sell == side_volume(fills@.subrange(start as int, i as int), Side::Sell),
            buy <= (i - start) * (u64::MAX as int),
            sell <= (i - start) * (u64::MAX as int),
        decreases n - i,
    {
        let f = fills[i];
        assert(fills@.subrange(start as int, i + 1).drop_last() == fills@.subrange(start as int, i as int));
        match f.side {
            Side::Buy => {
                buy = buy + f.quantity as u128;
            },
            Side::Sell => {
                sell = sell + f.quantity as u128;
            },
        }
        i = i + 1;
    }
    Some((buy, sell))
}

/// Sum of the prices of some fills.
pub open spec fn price_total(fs: Seq<FillData>) -> int
    decreases fs.len(),
{
    if fs.len() == 0 {
        0
    } else {
        price_total(fs.drop_last()) + fs.last().price
    }
}

/// The sums of the prices of the last 10 fills and of the 10 before them,
/// where there are at least 20 fills.
pub open spec fn momentum_sums_of(fs: Seq<FillData>) -> Option<(int, int)> {
    let n = fs.len() as int;
    if n < 20 {
        None
    } else {
        Some((price_total(fs.subrange(n - 10, n)), price_total(fs.subrange(n - 20, n - 10))))
    }
}

fn price_sum(fills: &VecDeque<FillData>, from: usize, to: usize) -> (r: u64)
    requires
        from <= to <= fills@.len(),
        to - from <= 10,
    ensures
        r == price_total(fills@.subrange(from as int, to as int)),
{
    let mut t: u64 = 0;
    let mut i: usize = from;
    while i < to
        invariant
            from <= i <= to <= fills@.len(),
            to - from <= 10,
            t == price_total(fills@.subrange(from as int, i as int)),
            t <= (i - from) * (u32::MAX as int),
        decreases to - i,
    {
        assert(fills@.subrange(from as int, i + 1).drop_last() == fills@.subrange(from as int, i as int));
        t = t + fills[i].price as u64;
        i = i + 1;
    }
    t
}

/// The price sums the momentum check compares: the last 10 fills and the
/// 10 before them; `None` with fewer than 20 fills.
pub fn momentum_sums(fills: &VecDeque<FillData>) -> (r: Option<(u64, u64)>)
    ensures
        match momentum_sums_of(fills@) {
            Some((a, b)) => r == Some((a as u64, b as u64)),
            None => r is None,
        },
{
    let n = fills.len();
    if n < 20 {
        return None;
    }
    let recent = price_sum(fills, n - 10, n);
    let older = price_sum(fills, n - 20, n - 10);
    Some((recent, older))
}

/// Total quantity of some book levels.
pub open spec fn level_total(ls: Seq<(u32, u64)>) -> int
    decreases ls.len(),
{
    if ls.len() == 0 {
        0
    } else {
        level_total(ls.drop_last()) + ls.last().1
    }
}

fn level_sum(ls: &Vec<(u32, u64)>) -> (r: u128)
    requires
        ls@.len() <= u32::MAX,
    ensures
        r == level_total(ls@),
{
    let mut t: u128 = 0;
    let mut i: usize = 0;
    while i < ls.len()
        invariant
            i <= ls@.len() <= u32::MAX,
            t == level_total(ls@.take(i as int)),
            t <= i * (u64::MAX as int),
        decreases ls.len() - i,
    {
        assert(ls@.take(i + 1).drop_last() == ls@.take(i as int));
        assert(t + ls[i as int].1 <= (i + 1) * (u64::MAX as int)) by (nonlinear_arith)
            requires
                t <= i * (u64::MAX as int),
                ls[i as int].1 <= u64::MAX,
        ;
        assert((i + 1) * (u64::MAX as int) <= 0x1_0000_0000 * 0xffff_ffff_ffff_ffff) by (nonlinear_arith)
            requires
                i + 1 <= 0x1_0000_0000,
        ;
        t = t + ls[i].1 as u128;
        i = i + 1;
    }
    assert(ls@.take(ls@.len() as int) == ls@);
    t
}

/// The figures of a book the support/resistance check reads: best bid,
/// best ask, the spread between them (floored at zero) and the total bid
/// and ask quantity; `None` where a side is empty or holds no quantity.
pub open spec fn book_figures_of(bids: Seq<(u32, u64)>, asks: Seq<(u32, u64)>) -> Option<
    (u32, u32, u32, int, int),
> {
    if bids.len() == 0 || asks.len() == 0 {
        None
    } else if level_total(bids) == 0 || level_total(asks) == 0 {
        None
    } else {
        let bb = bids[0].0;
        let ba = asks[0].0;
        let spread: u32 = if ba >= bb {
            (ba - bb) as u32
        } else {
            0
        };
        Some((bb, ba, spread, level_total(bids), level_total(asks)))
    }
}

/// The book figures of the support/resistance check; see
/// `book_figures_of`.
pub fn book_figures(bids: &Vec<(u32, u64)>, asks: &Vec<(u32, u64)>) -> (r: Option<
    (u32, u32, u32, u128, u128),
>)
    requires
        bids@.len() <= u32::MAX,
        asks@.len() <= u32::MAX,
    ensures
        match book_figures_of(bids@, asks@) {
            Some((bb, ba, sp, tb, ta)) => r == Some((bb, ba, sp, tb as u128, ta as u128)),
            None => r is None,
        },
{
    if bids.len() == 0 || asks.len() == 0 {
        return None;
    }
    let tb = level_sum(bids);
    let ta = level_sum(asks);
    if tb == 0 || ta == 0 {
        return None;
    }
    let bb = bids[0].0;
    let ba = asks[0].0;
    let spread = ba.saturating_sub(bb);
    Some((bb, ba, spread, tb, ta))
}

/// The spread a book shows: best ask less best bid, floored at zero;
/// `None` where a side is empty.
pub fn book_spread(book: &OrderBook) -> (r: Option<u32>)
    ensures
        (book.bids@.len() == 0 || book.asks@.len() == 0) ==> r is None,
        (book.bids@.len() > 0 && book.asks@.len() > 0) ==> r == Some(
            (if book.asks@[0].price.0 >= book.bids@[0].price.0 {
                book.asks@[0].price.0 - book.bids@[0].price.0
            } else {
                0
            }) as u32,
        ),
{
    if book.bids.len() == 0 || book.asks.len() == 0 {
        None
    } else {
        Some(book.asks[0].price.0.saturating_sub(book.bids[0].price.0))
    }
}

/// What the signal checks remember of a market.
pub struct MarketData {
    /// The latest fills, oldest first, at most `SIGNAL_WINDOW` of them.
    pub fills: VecDeque<FillData>,
    /// The book's bid and ask levels `(price, quantity)`, best first.
    pub bids: Vec<(u32, u64)>,
    pub asks: Vec<(u32, u64)>,
    pub last_update: i64,
}

/// The plain contents of a market's signal data.
pub open spec fn market_data_view(d: MarketData) -> (Seq<FillData>, Seq<(u32, u64)>, Seq<(u32, u64)>, i64) {
    (d.fills@, d.bids@, d.asks@, d.last_update)
}

/// The levels of a book side as `(price, quantity)`.
pub open spec fn level_pairs(ls: Seq<PriceLevel>) -> Seq<(u32, u64)> {
    ls.map_values(|l: PriceLevel| (l.price.0, l.quantity.0))
}

fn pairs_of(ls: &Vec<PriceLevel>) -> (r: Vec<(u32, u64)>)
    ensures
        r@ == level_pairs(ls@),
{
    let mut out: Vec<(u32, u64)> = Vec::new();
    let mut i: usize = 0;
    while i < ls.len()
        invariant
            i <= ls@.len(),
            out@.len() == i,
            forall|k: int| 0 <= k < i ==> #[trigger] out@[k] == (ls@[k].price.0, ls@[k].quantity.0),
        decreases ls.len() - i,
    {
        out.push((ls[i].price.0, ls[i].quantity.0));
        i = i + 1;
    }
    assert(out@ =~= level_pairs(ls@));
    out
}

/// Recent fills and the latest book of each market, for trading signals.
pub struct SignalGenerator {
    pub data: HashMap<u128, MarketData>,
}

impl SignalGenerator {
    /// A market's data as a fill at `now` leaves it.
    pub open spec fn after_fill(&self, fill: Fill, now: i64) -> (Seq<FillData>, Seq<(u32, u64)>, Seq<(u32, u64)>, i64) {
        let f = FillData { price: fill.price.0, quantity: fill.quantity.0, side: fill.aggressor, timestamp: now };
        if self.data@.contains_key(fill.market_id.0) {
            let d = self.data@[fill.market_id.0];
            (bounded_push(d.fills@, f, SIGNAL_WINDOW), d.bids@, d.asks@, now)
        } else {
            (seq![f], Seq::empty(), Seq::empty(), now)
        }
    }

    pub fn new() -> (r: SignalGenerator)
        ensures
            r.data@ == Map::<u128, MarketData>::empty(),
    {
        SignalGenerator { data: HashMap::new() }
    }

    /// Remembers a fill at time `now`: it joins its market's window of the
    /// latest `SIGNAL_WINDOW` fills.
    pub fn on_fill_at(&mut self, fill: &Fill, now: i64)
        ensures
            final(self).data@.dom() == old(self).data@.dom().insert(fill.market_id.0),
            market_data_view(final(self).data@[fill.market_id.0]) == old(self).after_fill(*fill, now),
            forall|k: u128|
                k != fill.market_id.0 && #[trigger] old(self).data@.contains_key(k) ==> final(self).data@[k]
                    == old(self).data@[k],
    {
        let key = fill.market_id.0;
        let f = FillData { price: fill.price.0, quantity: fill.quantity.0, side: fill.aggressor, timestamp: now };
        let mut d = match self.data.remove(&key) {
            Some(d) => d,
            None => MarketData { fills: VecDeque::new(), bids: Vec::new(), asks: Vec::new(), last_update: now },
        };
        push_bounded(&mut d.fills, f, SIGNAL_WINDOW);
        d.last_update = now;
        self.data.insert(key, d);
    }

    /// Remembers a fill now; see `on_fill_at`.
    pub fn on_fill(&mut self, fill: &Fill)
        ensures
            final(self).data@.dom() == old(self).data@.dom().insert(fill.market_id.0),
            exists|now: i64|
                market_data_view(final(self).data@[fill.market_id.0]) == #[trigger] old(self).after_fill(
                    *fill,
                    now,
                ),
            forall|k: u128|
                k != fill.market_id.0 && #[trigger] old(self).data@.contains_key(k) ==> final(self).data@[k]
                    == old(self).data@[k],
    {
        let now = crate::clock::now_millis();
        self.on_fill_at(fill, now);
    }

    /// Takes a market's book now; see `on_book_update_at`.
    pub fn on_book_update(&mut self, market_id: MarketId, book: &OrderBook)
        ensures
            final(self).data@.dom() == old(self).data@.dom().insert(market_id.0),
            final(self).data@[market_id.0].bids@ == level_pairs(book.bids@),
            final(self).data@[market_id.0].asks@ == level_pairs(book.asks@),
            final(self).data@[market_id.0].fills@ == (if old(self).data@.contains_key(market_id.0) {
                old(self).data@[market_id.0].fills@
            } else {
                Seq::empty()
            }),
            forall|k: u128|
                k != market_id.0 && #[trigger] old(self).data@.contains_key(k) ==> final(self).data@[k]
                    == old(self).data@[k],
    {
        let now = crate::clock::now_millis();
        self.on_book_update_at(market_id, book, now);
    }

    /// Takes a market's book at time `now`: its levels replace the ones
    /// remembered; the fills are kept.
    pub fn on_book_update_at(&mut self, market_id: MarketId, book: &OrderBook, now: i64)
        ensures
            final(self).data@.dom() == old(self).data@.dom().insert(market_id.0),
            final(self).data@[market_id.0].bids@ == level_pairs(book.bids@),
            final(self).data@[market_id.0].asks@ == level_pairs(book.asks@),
            final(self).data@[market_id.0].last_update == now,
            final(self).data@[market_id.0].fills@ == (if old(self).data@.contains_key(market_id.0) {
                old(self).data@[market_id.0].fills@
            } else {
                Seq::empty()
            }),
            forall|k: u128|
                k != market_id.0 && #[trigger] old(self).data@.contains_key(k) ==> final(self).data@[k]
                    == old(self).data@[k],
    {
        let key = market_id.0;
        let mut d = match self.data.remove(&key) {
            Some(d) => d,
            None => MarketData { fills: VecDeque::new(), bids: Vec::new(), asks: Vec::new(), last_update: now },
        };
        d.bids = pairs_of(&book.bids);
        d.asks = pairs_of(&book.asks);
        d.last_update = now;
        self.data.insert(key, d);
    }
}

/// What regime detection remembers of a market.
pub struct MarketStats {
    /// The latest fill prices and volumes, at most `TREND_WINDOW` each.
    pub prices: VecDeque<u32>,
    pub volumes: VecDeque<u64>,
    /// The latest book spreads, at most `VOLATILITY_WINDOW`.
    pub spreads: VecDeque<u32>,
    pub last_update: i64,
}

/// Recent prices, volumes and spreads of each market, for regimes.
pub struct MarketRegimeDetector {
    pub data: HashMap<u128, MarketStats>,
}

impl MarketRegimeDetector {
    pub fn new() -> (r: MarketRegimeDetector)
        ensures
            r.data@ == Map::<u128, MarketStats>::empty(),
    {
        MarketRegimeDetector { data: HashMap::new() }
    }

    /// Remembers a fill's price and volume at time `now`.
    pub fn on_fill_at(&mut self, fill: &Fill, now: i64)
        ensures
            final(self).data@.dom() == old(self).data@.dom().insert(fill.market_id.0),
            ({
                let s = final(self).data@[fill.market_id.0];
                let had = old(self).data@.contains_key(fill.market_id.0);
                let o = old(self).data@[fill.market_id.0];
                &&& s.prices@ == bounded_push(if had { o.prices@ } else { Seq::empty() }, fill.price.0, TREND_WINDOW)
                &&& s.volumes@ == bounded_push(if had { o.volumes@ } else { Seq::empty() }, fill.quantity.0, TREND_WINDOW)
                &&& s.spreads@ == (if had { o.spreads@ } else { Seq::empty() })
                &&& s.last_update == now
            }),
            forall|k: u128|
                k != fill.market_id.0 && #[trigger] old(self).data@.contains_key(k) ==> final(self).data@[k]
                    == old(self).data@[k],
    {
        let key = fill.market_id.0;
        let mut st = match self.data.remove(&key) {
            Some(s) => s,
            None => MarketStats { prices: VecDeque::new(), volumes: VecDeque::new(), spreads: VecDeque::new(), last_update: now },
        };
        push_bounded(&mut st.prices, fill.price.0, TREND_WINDOW);
        push_bounded(&mut st.volumes, fill.quantity.0, TREND_WINDOW);
        st.last_update = now;
        self.data.insert(key, st);
    }

    /// Remembers a fill's price and volume now; see `on_fill_at`.
    pub fn on_fill(&mut self, fill: &Fill)
        ensures
            final(self).data@.dom() == old(self).data@.dom().insert(fill.market_id.0),
            ({
                let s = final(self).data@[fill.market_id.0];
                let had = old(self).data@.contains_key(fill.market_id.0);
                let o = old(self).data@[fill.market_id.0];
                &&& s.prices@ == bounded_push(if had { o.prices@ } else { Seq::empty() }, fill.price.0, TREND_WINDOW)
                &&& s.volumes@ == bounded_push(if had { o.volumes@ } else { Seq::empty() }, fill.quantity.0, TREND_WINDOW)
                &&& s.spreads@ == (if had { o.spreads@ } else { Seq::empty() })
            }),
            forall|k: u128|
                k != fill.market_id.0 && #[trigger] old(self).data@.contains_key(k) ==> final(self).data@[k]
                    == old(self).data@[k],
    {
        let now = crate::clock::now_millis();
        self.on_fill_at(fill, now);
    }

    /// Remembers a book's spread now; see `on_book_update_at`.
    pub fn on_book_update(&mut self, market_id: MarketId, book: &OrderBook)
        ensures
            final(self).data@.dom() == old(self).data@.dom().insert(market_id.0),
            ({
                let s = final(self).data@[market_id.0];
                let had = old(self).data@.contains_key(market_id.0);
                let o = old(self).data@[market_id.0];
                let spreads = if had { o.spreads@ } else { Seq::empty() };
                &&& s.prices@ == (if had { o.prices@ } else { Seq::empty() })
                &&& s.volumes@ == (if had { o.volumes@ } else { Seq::empty() })
                &&& (book.bids@.len() > 0 && book.asks@.len() > 0) ==> s.spreads@ == bounded_push(
                    spreads,
                    (if book.asks@[0].price.0 >= book.bids@[0].price.0 {
                        book.asks@[0].price.0 - book.bids@[0].price.0
                    } else {
                        0
                    }) as u32,
                    VOLATILITY_WINDOW,
                )
                &&& !(book.bids@.len() > 0 && book.asks@.len() > 0) ==> s.spreads@ == spreads
            }),
            forall|k: u128|
                k != market_id.0 && #[trigger] old(self).data@.contains_key(k) ==> final(self).data@[k]
                    == old(self).data@[k],
    {
        let now = crate::clock::now_millis();
        self.on_book_update_at(market_id, book, now);
    }

    /// Remembers a book's spread at time `now`, where both sides quote.
    pub fn on_book_update_at(&mut self, market_id: MarketId, book: &OrderBook, now: i64)
        ensures
            final(self).data@.dom() == old(self).data@.dom().insert(market_id.0),
            ({
                let s = final(self).data@[market_id.0];
                let had = old(self).data@.contains_key(market_id.0);
                let o = old(self).data@[market_id.0];
                let spreads = if had { o.spreads@ } else { Seq::empty() };
                &&& s.prices@ == (if had { o.prices@ } else { Seq::empty() })
                &&& s.volumes@ == (if had { o.volumes@ } else { Seq::empty() })
                &&& (book.bids@.len() > 0 && book.asks@.len() > 0) ==> s.spreads@ == bounded_push(
                    spreads,
                    (if book.asks@[0].price.0 >= book.bids@[0].price.0 {
                        book.asks@[0].price.0 - book.bids@[0].price.0
                    } else {
                        0
                    }) as u32,
                    VOLATILITY_WINDOW,
                )
                &&& !(book.bids@.len() > 0 && book.asks@.len() > 0) ==> s.spreads@ == spreads
                &&& s.last_update == now
            }),
            forall|k: u128|
                k != market_id.0 && #[trigger] old(self).data@.contains_key(k) ==> final(self).data@[k]
                    == old(self).data@[k],
    {
        let key = market_id.0;
        let mut st = match self.data.remove(&key) {
            Some(s) => s,
            None => MarketStats { prices: VecDeque::new(), volumes: VecDeque::new(), spreads: VecDeque::new(), last_update: now },
        };
        if let Some(spread) = book_spread(book) {
            push_bounded(&mut st.spreads, spread, VOLATILITY_WINDOW);
        }
        st.last_update = now;
        self.data.insert(key, st);
    }
}

/// The recent prices of a pair of markets watched for arbitrage.
pub struct PairPrices {
    pub market_a: MarketId,
    pub market_b: MarketId,
    /// The latest prices of each market, at most `LOOKBACK_WINDOW` each.
    pub prices_a: VecDeque<u32>,
    pub prices_b: VecDeque<u32>,
    pub last_update: i64,
}

/// The pairs of markets watched for arbitrage, each pair once, in the order
/// registered.
pub struct PairWatch {
    pub pairs: Vec<PairPrices>,
}

/// The pair's prices after a price of `market`: each side quoting that
/// market takes it into its window.
pub open spec fn pair_after_price(p: PairPrices, market: MarketId, price: u32) -> (Seq<u32>, Seq<u32>) {
    (
        if p.market_a == market {
            bounded_push(p.prices_a@, price, LOOKBACK_WINDOW)
        } else {
            p.prices_a@
        },
        if p.market_b == market {
            bounded_push(p.prices_b@, price, LOOKBACK_WINDOW)
        } else {
            p.prices_b@
        },
    )
}

/// Whether some watched pair has this key.
pub open spec fn watches(pairs: Seq<PairPrices>, key: (MarketId, MarketId)) -> bool {
    exists|i: int| 0 <= i < pairs.len() && (#[trigger] pairs[i].market_a, pairs[i].market_b) == key
}

impl PairWatch {
    /// No pair is registered twice.
    pub open spec fn inv(&self) -> bool {
        forall|i: int, j: int|
            0 <= i < j < self.pairs@.len() ==> (#[trigger] self.pairs@[i].market_a, self.pairs@[i].market_b) != (
                #[trigger] self.pairs@[j].market_a,
                self.pairs@[j].market_b,
            )
    }

    pub fn new() -> (r: PairWatch)
        ensures
            r.inv(),
            r.pairs@.len() == 0,
    {
        PairWatch { pairs: Vec::new() }
    }

    /// Watches a pair (in either order) from time `now`; a pair already
    /// watched is left as it is.
    pub fn register_pair(&mut self, a: MarketId, b: MarketId, now: i64)
        requires
            old(self).inv(),
        ensures
            final(self).inv(),
            ({
                let key = if a.0 < b.0 { (a, b) } else { (b, a) };
                let present = watches(old(self).pairs@, key);
                &&& present ==> final(self).pairs@ == old(self).pairs@
                &&& !present ==> {
                    &&& final(self).pairs@.len() == old(self).pairs@.len() + 1
                    &&& final(self).pairs@.drop_last() == old(self).pairs@
                    &&& final(self).pairs@.last().market_a == key.0
                    &&& final(self).pairs@.last().market_b == key.1
                    &&& final(self).pairs@.last().prices_a@.len() == 0
                    &&& final(self).pairs@.last().prices_b@.len() == 0
                    &&& final(self).pairs@.last().last_update == now
                }
            }),
    {
        let (ka, kb) = pair_key(a, b);
        let mut i: usize = 0;
        while i < self.pairs.len()
            invariant
                i <= self.pairs@.len(),
                self.pairs@ == old(self).pairs@,
                old(self).inv(),
                (ka, kb) == (if a.0 < b.0 { (a, b) } else { (b, a) }),
                forall|k: int| 0 <= k < i ==> (#[trigger] self.pairs@[k].market_a, self.pairs@[k].market_b) != (ka, kb),
            decreases self.pairs.len() - i,
        {
            if self.pairs[i].market_a == ka && self.pairs[i].market_b == kb {
                assert((old(self).pairs@[i as int].market_a, old(self).pairs@[i as int].market_b) == (ka, kb));
                assert(watches(old(self).pairs@, (ka, kb)));
                return;
            }
            i = i + 1;
        }
        let ghost before = self.pairs@;
        assert forall|k: int| 0 <= k < old(self).pairs@.len() implies (#[trigger] old(self).pairs@[k].market_a, old(
            self,
        ).pairs@[k].market_b) != (ka, kb) by {
            assert(self.pairs@[k] == old(self).pairs@[k]);
        }
        self.pairs.push(
            PairPrices { market_a: ka, market_b: kb, prices_a: VecDeque::new(), prices_b: VecDeque::new(), last_update: now },
        );
        assert(self.pairs@.drop_last() =~= before);
        assert forall|i: int, j: int| 0 <= i < j < self.pairs@.len() implies (#[trigger] self.pairs@[i].market_a, self.pairs@[i].market_b) != (
            #[trigger] self.pairs@[j].market_a,
            self.pairs@[j].market_b,
        ) by {
            if j < before.len() {
                assert(self.pairs@[i] == before[i] && self.pairs@[j] == before[j]);
            } else {
                assert(self.pairs@[i] == before[i]);
            }
        }
    }

    /// Takes a market price at time `now` into every watched pair that
    /// holds the market; every pair's last update becomes `now`.
    pub fn on_price_update(&mut self, market_id: MarketId, price: u32, now: i64)
        requires
            old(self).inv(),
        ensures
            final(self).inv(),
            final(self).pairs@.len() == old(self).pairs@.len(),
            forall|i: int|
                0 <= i < old(self).pairs@.len() ==> {
                    let p = #[trigger] final(self).pairs@[i];
                    let o = old(self).pairs@[i];
                    &&& p.market_a == o.market_a
                    &&& p.market_b == o.market_b
                    &&& (p.prices_a@, p.prices_b@) == pair_after_price(o, market_id, price)
                    &&& p.last_update == now
                },
    {
        let ghost before = self.pairs@;
        let mut rest: Vec<PairPrices> = Vec::new();
        std::mem::swap(&mut rest, &mut self.pairs);
        let mut done: Vec<PairPrices> = Vec::new();
        while rest.len() > 0
            invariant
                done@.len() + rest@.len() == before.len(),
                rest@ == before.skip(done@.len() as int),
                forall|k: int|
                    0 <= k < done@.len() ==> {
                        let p = #[trigger] done@[k];
                        let o = before[k];
                        &&& p.market_a == o.market_a
                        &&& p.market_b == o.market_b
                        &&& (p.prices_a@, p.prices_b@) == pair_after_price(o, market_id, price)
                        &&& p.last_update == now
                    },
            decreases rest@.len(),
        {
            let ghost k = done@.len() as int;
            let mut p = rest.remove(0);
            assert(p == before[k]);
            assert(rest@ =~= before.skip(k + 1));
            if p.market_a == market_id {
                push_bounded(&mut p.prices_a, price, LOOKBACK_WINDOW);
            }
            if p.market_b == market_id {
                push_bounded(&mut p.prices_b, price, LOOKBACK_WINDOW);
            }
            p.last_update = now;
            done.push(p);
        }
        self.pairs = done;
        assert forall|i: int, j: int| 0 <= i < j < self.pairs@.len() implies (#[trigger] self.pairs@[i].market_a, self.pairs@[i].market_b) != (
            #[trigger] self.pairs@[j].market_a,
            self.pairs@[j].market_b,
        ) by {
            assert(self.pairs@[i].market_a == before[i].market_a);
            assert(self.pairs@[j].market_a == before[j].market_a);
        }
    }
}

} // verus!
