//! Profit-and-loss bookkeeping: open lots per user and market, first-in
//! first-out closing on sells, balances, daily records and performance.
//!
//! Decimal steps are stated over the named results of `rust_decimal`'s
//! operations; `try_*` functions report a refused step as failure without
//! changing anything, the plain ones require that none is refused.
use crate::decimal::{Dec, decimal_add, decimal_sub, decimal_mul, decimal_div, decimal_sqrt};
use crate::types::{UserId, MarketId, Fill, Side};
use crate::maps::{collect_keys, lists_keys};
use crate::clock::{day_of, day_of_millis, now_millis};
use std::collections::HashMap;
use vstd::prelude::*;

verus! {

broadcast use vstd::std_specs::hash::group_hash_axioms;

/// `dec!(0)`.
pub open spec fn zero() -> Dec {
    Dec::of_int(0)
}

/// One million (`dec!(1_000_000)`), the price scale.
pub open spec fn million() -> Dec {
    Dec::of_int(1_000_000)
}

/// A fill's price in units: its raw price divided by one million.
pub open spec fn unit_price(fill: Fill) -> Option<Dec> {
    decimal_div(Dec::of_int(fill.price.0 as int), million())
}

#[derive(Clone, Copy, Debug)]
pub struct PnLRecord {
    pub timestamp: i64,
    pub market_id: MarketId,
    pub realized_pnl_usd: Dec,
    pub unrealized_pnl_usd: Dec,
    pub total_pnl_usd: Dec,
    pub volume_traded: Dec,
    pub num_trades: u64,
    pub avg_trade_size: Dec,
    pub sharpe_ratio: Option<Dec>,
}

/// An open lot.
#[derive(Clone, Copy, Debug, PartialEq, Eq, Structural)]
pub struct PositionPnL {
    pub market_id: MarketId,
    pub side: Side,
    pub entry_price: Dec,
    pub current_price: Dec,
    pub quantity: u64,
    pub realized_pnl: Dec,
    pub unrealized_pnl: Dec,
    pub opened_at: i64,
    pub last_updated: i64,
}

impl PositionPnL {
    pub open spec fn wf(&self) -> bool {
        &&& self.entry_price.wf()
        &&& self.current_price.wf()
        &&& self.realized_pnl.wf()
        &&& self.unrealized_pnl.wf()
    }
}

pub open spec fn lots_wf(s: Seq<PositionPnL>) -> bool {
    forall|i: int| 0 <= i < s.len() ==> #[trigger] s[i].wf()
}

#[derive(Clone, Copy, Debug)]
pub struct DailyPerformance {
    pub date: i64,
    pub starting_balance: Dec,
    pub ending_balance: Dec,
    pub total_pnl: Dec,
    pub return_pct: Dec,
    pub num_trades: u64,
    pub win_rate: Dec,
    pub avg_win: Dec,
    pub avg_loss: Dec,
    pub max_drawdown_pct: Dec,
    pub sharpe_ratio: Dec,
}

impl DailyPerformance {
    pub open spec fn wf(&self) -> bool {
        &&& self.starting_balance.wf()
        &&& self.ending_balance.wf()
        &&& self.total_pnl.wf()
        &&& self.return_pct.wf()
        &&& self.win_rate.wf()
        &&& self.avg_win.wf()
        &&& self.avg_loss.wf()
        &&& self.max_drawdown_pct.wf()
        &&& self.sharpe_ratio.wf()
    }
}

#[derive(Clone, Copy, Debug)]
pub struct PerformanceMetrics {
    pub total_return_pct: Dec,
    pub avg_daily_return_pct: Dec,
    pub volatility_pct: Dec,
    pub sharpe_ratio: Dec,
    pub total_trades: u64,
    pub win_rate_pct: Dec,
    pub max_drawdown_pct: Dec,
    pub num_trading_days: usize,
}

/// The profit of `qty` at `price` on a lot entered at `entry`, with the sign
/// of `side`.
pub open spec fn lot_pnl(side: Side, entry: Dec, price: Dec, qty: u64) -> Option<Dec> {
    match if side == Side::Buy {
        decimal_sub(price, entry)
    } else {
        decimal_sub(entry, price)
    } {
        Some(d) => decimal_mul(d, Dec::of_int(qty as int)),
        None => None,
    }
}

/// Closing `rem` on the lots in order (first in, first out) at `price`: each
/// buy lot gives up to what remains, adding `(price - entry) * closed` to the
/// running total `acc`; a lot closed in full leaves.  Sell lots and lots met
/// once nothing remains are kept as they are.
pub open spec fn close_fifo(lots: Seq<PositionPnL>, rem: u64, price: Dec, acc: Dec) -> Option<
    (Seq<PositionPnL>, Dec),
>
    decreases lots.len(),
{
    if lots.len() == 0 {
        Some((Seq::empty(), acc))
    } else {
        let l = lots[0];
        if rem == 0 || l.side != Side::Buy {
            match close_fifo(lots.drop_first(), rem, price, acc) {
                Some((r, t)) => Some((seq![l] + r, t)),
                None => None,
            }
        } else {
            let c: u64 = if rem < l.quantity {
                rem
            } else {
                l.quantity
            };
            match decimal_sub(price, l.entry_price) {
                None => None,
                Some(d) => match decimal_mul(d, Dec::of_int(c as int)) {
                    None => None,
                    Some(realized) => match decimal_add(acc, realized) {
                        None => None,
                        Some(acc2) => {
                            let kept = if c < l.quantity {
                                seq![PositionPnL { quantity: (l.quantity - c) as u64, ..l }]
                            } else {
                                Seq::empty()
                            };
                            match close_fifo(lots.drop_first(), (rem - c) as u64, price, acc2) {
                                Some((r, t)) => Some((kept + r, t)),
                                None => None,
                            }
                        },
                    },
                },
            }
        }
    }
}

/// The lots of a market after a fill, and for a sell the realized total.
/// A buy opens a new lot at the fill's unit price, valued at `cur`; a sell
/// closes lots first in, first out.
pub open spec fn lots_after_fill(
    lots: Seq<PositionPnL>,
    market: MarketId,
    fill: Fill,
    cur: Dec,
    now: i64,
) -> Option<(Seq<PositionPnL>, Option<Dec>)> {
    match unit_price(fill) {
        None => None,
        Some(fp) => if fill.aggressor == Side::Buy {
            match lot_pnl(Side::Buy, fp, cur, fill.quantity.0) {
                None => None,
                Some(u) => Some(
                    (
                        lots.push(
                            PositionPnL {
                                market_id: market,
                                side: Side::Buy,
                                entry_price: fp,
                                current_price: cur,
                                quantity: fill.quantity.0,
                                realized_pnl: zero(),
                                unrealized_pnl: u,
                                opened_at: now,
                                last_updated: now,
                            },
                        ),
                        None,
                    ),
                ),
            }
        } else {
            match close_fifo(lots, fill.quantity.0, fp, zero()) {
                None => None,
                Some((r, t)) => Some((r, Some(t))),
            }
        },
    }
}

/// Sum from `dec!(0)` of the lots' realized profits.
pub open spec fn sum_realized(s: Seq<PositionPnL>) -> Option<Dec>
    decreases s.len(),
{
    if s.len() == 0 {
        Some(zero())
    } else {
        match sum_realized(s.drop_last()) {
            Some(a) => decimal_add(a, s.last().realized_pnl),
            None => None,
        }
    }
}

/// Sum from `dec!(0)` of the lots' unrealized profits.
pub open spec fn sum_unrealized(s: Seq<PositionPnL>) -> Option<Dec>
    decreases s.len(),
{
    if s.len() == 0 {
        Some(zero())
    } else {
        match sum_unrealized(s.drop_last()) {
            Some(a) => decimal_add(a, s.last().unrealized_pnl),
            None => None,
        }
    }
}

/// The day's record for a market whose lots are `s`.
pub open spec fn record_of(s: Seq<PositionPnL>, market: MarketId, now: i64) -> Option<
    (Dec, Dec, Dec),
> {
    match (sum_realized(s), sum_unrealized(s)) {
        (Some(r), Some(u)) => match decimal_add(r, u) {
            Some(t) => Some((r, u, t)),
            None => None,
        },
        _ => None,
    }
}

pub struct PnLTracker {
    /// Records per calendar day (days since the epoch).
    pub daily_records: HashMap<i64, Vec<PnLRecord>>,
    /// Open lots per user, then per market.
    pub positions: HashMap<u128, HashMap<u128, Vec<PositionPnL>>>,
    pub user_balances: HashMap<u128, Dec>,
    pub historical_performance: HashMap<u128, Vec<DailyPerformance>>,
}

impl PnLTracker {
    pub open spec fn wf(&self) -> bool {
        &&& forall|u: u128, m: u128|
            #![trigger self.positions@[u]@[m]]
            self.positions@.contains_key(u) && self.positions@[u]@.contains_key(m) ==> lots_wf(
                self.positions@[u]@[m]@,
            )
        &&& forall|u: u128| #[trigger]
            self.user_balances@.contains_key(u) ==> self.user_balances@[u].wf()
        &&& forall|u: u128, i: int|
            #![trigger self.historical_performance@[u]@[i]]
            self.historical_performance@.contains_key(u) && 0 <= i
                < self.historical_performance@[u]@.len()
                ==> self.historical_performance@[u]@[i].wf()
    }

    /// The lots a user holds in a market (none when absent).
    pub open spec fn lots_of(&self, user: UserId, market: MarketId) -> Seq<PositionPnL> {
        if self.positions@.contains_key(user.0) && self.positions@[user.0]@.contains_key(
            market.0,
        ) {
            self.positions@[user.0]@[market.0]@
        } else {
            Seq::empty()
        }
    }

    /// A user's balance (`dec!(0)` when absent).
    pub open spec fn balance_of(&self, user: UserId) -> Dec {
        if self.user_balances@.contains_key(user.0) {
            self.user_balances@[user.0]
        } else {
            zero()
        }
    }

    /// The records of a day (none when absent).
    pub open spec fn records_of(&self, day: i64) -> Seq<PnLRecord> {
        if self.daily_records@.contains_key(day) {
            self.daily_records@[day]@
        } else {
            Seq::empty()
        }
    }

    /// Everything a fill changes, or `None` where a decimal step is
    /// refused: the market's new lots, the user's new balance after a sell,
    /// and the day record's realized, unrealized and total amounts.
    pub open spec fn fill_effect(&self, user: UserId, market: MarketId, fill: Fill, cur: Dec, now: i64) -> Option<
        (Seq<PositionPnL>, Option<Dec>, (Dec, Dec, Dec)),
    > {
        match lots_after_fill(self.lots_of(user, market), market, fill, cur, now) {
            None => None,
            Some((lots, realized)) => match realized {
                Some(t) => match decimal_add(self.balance_of(user), t) {
                    None => None,
                    Some(b) => match record_of(lots, market, now) {
                        Some(rec) => Some((lots, Some(b), rec)),
                        None => None,
                    },
                },
                None => match record_of(lots, market, now) {
                    Some(rec) => Some((lots, None, rec)),
                    None => None,
                },
            },
        }
    }

    pub fn new() -> (r: PnLTracker)
        ensures
            r.wf(),
            r.daily_records@ == Map::<i64, Vec<PnLRecord>>::empty(),
            r.positions@ == Map::<u128, HashMap<u128, Vec<PositionPnL>>>::empty(),
            r.user_balances@ == Map::<u128, Dec>::empty(),
            r.historical_performance@ == Map::<u128, Vec<DailyPerformance>>::empty(),
    {
        PnLTracker {
            daily_records: HashMap::new(),
            positions: HashMap::new(),
            user_balances: HashMap::new(),
            historical_performance: HashMap::new(),
        }
    }
}

/// A copy of the lots.
fn copy_lots(v: &Vec<PositionPnL>) -> (r: Vec<PositionPnL>)
    ensures
        r@ == v@,
{
    let mut r: Vec<PositionPnL> = Vec::new();
    let mut i: usize = 0;
    while i < v.len()
        invariant
            i <= v.len(),
            r@ == v@.take(i as int),
        decreases v.len() - i,
    {
        r.push(v[i]);
        assert(r@ =~= v@.take(i + 1));
        i = i + 1;
    }
    assert(v@.take(v.len() as int) == v@);
    r
}

/// `lot_pnl` by computation.
fn compute_lot_pnl(side: Side, entry: &Dec, price: &Dec, qty: u64) -> (r: Option<Dec>)
    requires
        entry.wf(),
        price.wf(),
    ensures
        r == lot_pnl(side, *entry, *price, qty),
        r matches Some(x) ==> x.wf(),
{
    let d = if side == Side::Buy {
        price.checked_sub(entry)?
    } else {
        entry.checked_sub(price)?
    };
    d.checked_mul(&Dec::from_u64(qty))
}

/// Closes `qty` on the lots first in, first out at `price`; see `close_fifo`.
fn compute_close_fifo(lots: &Vec<PositionPnL>, qty: u64, price: &Dec) -> (r: Option<(Vec<PositionPnL>, Dec)>)
    requires
        price.wf(),
        lots_wf(lots@),
    ensures
        match r {
            Some((v, t)) => close_fifo(lots@, qty, *price, zero()) == Some((v@, t)) && lots_wf(v@)
                && t.wf(),
            None => close_fifo(lots@, qty, *price, zero()) is None,
        },
{
    let mut kept: Vec<PositionPnL> = Vec::new();
    let mut rem: u64 = qty;
    let mut acc: Dec = Dec::zero();
    let mut i: usize = 0;
    proof {
        assert(lots@.skip(0) =~= lots@);
        assert forall|rr: Seq<PositionPnL>| kept@ + rr =~= rr by {}
    }
    while i < lots.len()
        invariant
            i <= lots.len(),
            price.wf(),
            acc.wf(),
            lots_wf(lots@),
            lots_wf(kept@),
            close_fifo(lots@, qty, *price, zero()) == match close_fifo(lots@.skip(i as int), rem, *price, acc) {
                Some((rr, t)) => Some((kept@ + rr, t)),
                None => None,
            },
        decreases lots.len() - i,
    {
        let l = lots[i];
        assert(lots@[i as int].wf());
        let ghost tail = lots@.skip(i as int);
        assert(tail[0] == l);
        assert(tail.drop_first() == lots@.skip(i + 1));
        if rem == 0 || l.side != Side::Buy {
            kept.push(l);
            proof {
                assert forall|rr: Seq<PositionPnL>| (kept@.drop_last() + (seq![l] + rr)) =~= (kept@ + rr) by {}
            }
        } else {
            let c: u64 = if rem < l.quantity { rem } else { l.quantity };
            let d = match price.checked_sub(&l.entry_price) {
                Some(d) => d,
                None => { return None; },
            };
            let realized = match d.checked_mul(&Dec::from_u64(c)) {
                Some(x) => x,
                None => { return None; },
            };
            acc = match acc.checked_add(&realized) {
                Some(x) => x,
                None => { return None; },
            };
            rem = rem - c;
            if c < l.quantity {
                let nl = PositionPnL { quantity: l.quantity - c, ..l };
                kept.push(nl);
                proof {
                    assert forall|rr: Seq<PositionPnL>| (kept@.drop_last() + (seq![nl] + rr)) =~= (kept@ + rr) by {}
                }
            } else {
                proof {
                    assert forall|rr: Seq<PositionPnL>| (kept@ + (Seq::<PositionPnL>::empty() + rr)) =~= (kept@ + rr) by {}
                }
            }
        }
        i = i + 1;
    }
    proof {
        assert(lots@.skip(lots.len() as int) =~= Seq::<PositionPnL>::empty());
        assert(kept@ + Seq::<PositionPnL>::empty() =~= kept@);
    }
    Some((kept, acc))
}

/// The lots after a fill; see `lots_after_fill`.
fn compute_lots_after_fill(
    lots: &Vec<PositionPnL>,
    market: MarketId,
    fill: &Fill,
    cur: &Dec,
    now: i64,
) -> (r: Option<(Vec<PositionPnL>, Option<Dec>)>)
    requires
        cur.wf(),
        lots_wf(lots@),
    ensures
        match r {
            Some((v, t)) => lots_after_fill(lots@, market, *fill, *cur, now) == Some((v@, t))
                && lots_wf(v@) && (t matches Some(x) ==> x.wf()),
            None => lots_after_fill(lots@, market, *fill, *cur, now) is None,
        },
{
    let fp = Dec::from_u64(fill.price.0 as u64).checked_div(&Dec::from_u64(1_000_000))?;
    if fill.aggressor == Side::Buy {
        let u = compute_lot_pnl(Side::Buy, &fp, cur, fill.quantity.0)?;
        let mut v = copy_lots(lots);
        v.push(
            PositionPnL {
                market_id: market,
                side: Side::Buy,
                entry_price: fp,
                current_price: *cur,
                quantity: fill.quantity.0,
                realized_pnl: Dec::zero(),
                unrealized_pnl: u,
                opened_at: now,
                last_updated: now,
            },
        );
        Some((v, None))
    } else {
        match compute_close_fifo(lots, fill.quantity.0, &fp) {
            Some((v, t)) => Some((v, Some(t))),
            None => None,
        }
    }
}

/// The realized, unrealized and total sums of the lots; see `record_of`.
fn compute_record(v: &Vec<PositionPnL>, market: MarketId, now: i64) -> (r: Option<(Dec, Dec, Dec)>)
    requires
        lots_wf(v@),
    ensures
        r == record_of(v@, market, now),
        r matches Some(x) ==> x.0.wf() && x.1.wf() && x.2.wf(),
{
    let mut rs: Option<Dec> = Some(Dec::zero());
    let mut us: Option<Dec> = Some(Dec::zero());
    let mut i: usize = 0;
    while i < v.len()
        invariant
            i <= v.len(),
            lots_wf(v@),
            rs == sum_realized(v@.take(i as int)),
            us == sum_unrealized(v@.take(i as int)),
            rs matches Some(x) ==> x.wf(),
            us matches Some(x) ==> x.wf(),
        decreases v.len() - i,
    {
        assert(v@.take(i + 1).drop_last() == v@.take(i as int));
        assert(v@[i as int].wf());
        rs = match rs {
            Some(a) => a.checked_add(&v[i].realized_pnl),
            None => None,
        };
        us = match us {
            Some(a) => a.checked_add(&v[i].unrealized_pnl),
            None => None,
        };
        i = i + 1;
    }
    assert(v@.take(v.len() as int) == v@);
    let r = rs?;
    let u = us?;
    let t = r.checked_add(&u)?;
    Some((r, u, t))
}

impl PnLTracker {
    fn copy_lots_of(&self, user: UserId, market: MarketId) -> (r: Vec<PositionPnL>)
        requires
            self.wf(),
        ensures
            r@ == self.lots_of(user, market),
            lots_wf(r@),
    {
        match self.positions.get(&user.0) {
            Some(inner) => match inner.get(&market.0) {
                Some(v) => copy_lots(v),
                None => Vec::new(),
            },
            None => Vec::new(),
        }
    }

    fn balance(&self, user: UserId) -> (r: Dec)
        requires
            self.wf(),
        ensures
            r == self.balance_of(user),
            r.wf(),
    {
        match self.user_balances.get(&user.0) {
            Some(b) => *b,
            None => Dec::zero(),
        }
    }

    /// What recording a fill at time `now` does; see `try_record_fill_at`.
    pub open spec fn fill_recorded(before: PnLTracker, after: PnLTracker, user_id: UserId, market_id: MarketId, fill: Fill, current_price: Dec, now: i64, ok: bool) -> bool {
        &&& (ok == before.fill_effect(user_id, market_id, fill, current_price, now) is Some)
        &&& (after.historical_performance@ == before.historical_performance@)
        &&& (!ok ==> after.positions@ == before.positions@ && after.user_balances@
                == before.user_balances@ && after.daily_records@ == before.daily_records@)
        &&& (ok ==> ({
                let (lots, bal, (r, u, t)) = before.fill_effect(
                    user_id,
                    market_id,
                    fill,
                    current_price,
                    now,
                )->0;
                let day = day_of(now as int) as i64;
                &&& after.lots_of(user_id, market_id) =~= lots
                &&& after.positions@.dom() =~= before.positions@.dom().insert(user_id.0)
                &&& forall|k: u128|
                    k != user_id.0 && #[trigger] before.positions@.contains_key(k)
                        ==> after.positions@[k] == before.positions@[k]
                &&& forall|m: u128|
                    m != market_id.0 ==> (#[trigger] after.positions@[user_id.0]@.contains_key(m)
                        <==> before.positions@.contains_key(user_id.0) && before.positions@[user_id.0]@.contains_key(m))
                &&& forall|m: u128|
                    m != market_id.0 && #[trigger] after.positions@[user_id.0]@.contains_key(m)
                        ==> after.positions@[user_id.0]@[m] == before.positions@[user_id.0]@[m]
                &&& after.positions@[user_id.0]@.contains_key(market_id.0)
                &&& (match bal {
                    Some(b) => after.user_balances@ =~= before.user_balances@.insert(
                        user_id.0,
                        b,
                    ),
                    None => after.user_balances@ == before.user_balances@,
                })
                &&& after.daily_records@.dom() =~= before.daily_records@.dom().insert(day)
                &&& forall|d: i64|
                    d != day && #[trigger] before.daily_records@.contains_key(d)
                        ==> after.daily_records@[d] == before.daily_records@[d]
                &&& after.records_of(day) =~= before.records_of(day).push(
                    PnLRecord {
                        timestamp: now,
                        market_id,
                        realized_pnl_usd: r,
                        unrealized_pnl_usd: u,
                        total_pnl_usd: t,
                        volume_traded: zero(),
                        num_trades: 1,
                        avg_trade_size: zero(),
                        sharpe_ratio: None,
                    },
                )
            }))
    }

    /// What revaluing a market at time `now` does; see `try_update_prices_at`.
    pub open spec fn prices_revalued(before: PnLTracker, after: PnLTracker, market_id: MarketId, new_price: Dec, now: i64, ok: bool) -> bool {
        &&& (ok == before.revaluable(market_id, new_price, now))
        &&& (after.daily_records@ == before.daily_records@)
        &&& (after.user_balances@ == before.user_balances@)
        &&& (after.historical_performance@ == before.historical_performance@)
        &&& (!ok ==> after.positions@ == before.positions@)
        &&& (ok ==> after.positions@.dom() == before.positions@.dom())
        &&& (ok ==> forall|u: u128| #[trigger]
                before.positions@.contains_key(u) ==> if before.positions@[u]@.contains_key(
                    market_id.0,
                ) {
                    &&& after.positions@[u]@.dom() == before.positions@[u]@.dom()
                    &&& after.positions@[u]@[market_id.0]@ == revalue_lots(
                        before.positions@[u]@[market_id.0]@,
                        new_price,
                        now,
                    ).unwrap()
                    &&& forall|m: u128|
                        m != market_id.0 && #[trigger] before.positions@[u]@.contains_key(m)
                            ==> after.positions@[u]@[m] == before.positions@[u]@[m]
                } else {
                    after.positions@[u] == before.positions@[u]
                })
    }

    /// What closing the trading day of `now` does; see `try_end_trading_day_at`.
    pub open spec fn day_closed(before: PnLTracker, after: PnLTracker, now: i64, ok: bool) -> bool {
        &&& (after.positions@ == before.positions@)
        &&& (after.user_balances@ == before.user_balances@)
        &&& (after.daily_records@ == before.daily_records@)
        &&& (before.day_closable(day_of(now as int) as i64) ==> ok)
        &&& (!ok ==> after.historical_performance@ == before.historical_performance@)
        &&& (ok ==> forall|u: u128| #[trigger]
                after.historical_performance@.contains_key(u) <==> before.historical_performance@.contains_key(u) || before.positions@.contains_key(u))
        &&& (ok ==> forall|u: u128| #[trigger]
                before.historical_performance@.contains_key(u) && !before.positions@.contains_key(u)
                    ==> after.historical_performance@[u] == before.historical_performance@[u])
        &&& (ok ==> forall|u: u128| #[trigger]
                before.positions@.contains_key(u) ==> exists|ks: Seq<u128>|
                    lists_keys(ks, before.positions@[u]@) && before.user_day_performance(
                        u,
                        ks,
                        day_of(now as int) as i64,
                    ) is Some && after.historical_performance@[u]@ == (if before.historical_performance@.contains_key(u) {
                        before.historical_performance@[u]@
                    } else {
                        Seq::empty()
                    }).push(
                        before.user_day_performance(u, ks, day_of(now as int) as i64).unwrap(),
                    ))
    }

    /// Records a fill of `user` in `market` at time `now`, valuing at
    /// `current_price`: a buy opens a lot, a sell closes lots first in,
    /// first out and adds the realized profit to the user's balance; then
    /// the day's record of the market's profit is appended.  Returns `false`,
    /// changing nothing, where a decimal step is refused.
    pub fn try_record_fill_at(
        &mut self,
        user_id: UserId,
        market_id: MarketId,
        fill: &Fill,
        current_price: Dec,
        now: i64,
    ) -> (ok: bool)
        requires
            old(self).wf(),
            current_price.wf(),
        ensures
            PnLTracker::fill_recorded(*old(self), *final(self), user_id, market_id, *fill, current_price, now, ok),
            final(self).wf(),
            ok == old(self).fill_effect(user_id, market_id, *fill, current_price, now) is Some,
            final(self).historical_performance@ == old(self).historical_performance@,
            !ok ==> final(self).positions@ == old(self).positions@ && final(self).user_balances@
                == old(self).user_balances@ && final(self).daily_records@ == old(
                self,
            ).daily_records@,
            ok ==> ({
                let (lots, bal, (r, u, t)) = old(self).fill_effect(
                    user_id,
                    market_id,
                    *fill,
                    current_price,
                    now,
                )->0;
                let day = day_of(now as int) as i64;
                &&& final(self).lots_of(user_id, market_id) == lots
                &&& final(self).positions@.dom() == old(self).positions@.dom().insert(user_id.0)
                &&& forall|k: u128|
                    k != user_id.0 && #[trigger] old(self).positions@.contains_key(k)
                        ==> final(self).positions@[k] == old(self).positions@[k]
                &&& forall|m: u128|
                    m != market_id.0 ==> (#[trigger] final(self).positions@[user_id.0]@.contains_key(m)
                        <==> old(self).positions@.contains_key(user_id.0) && old(
                        self,
                    ).positions@[user_id.0]@.contains_key(m))
                &&& forall|m: u128|
                    m != market_id.0 && #[trigger] final(self).positions@[user_id.0]@.contains_key(m)
                        ==> final(self).positions@[user_id.0]@[m] == old(
                        self,
                    ).positions@[user_id.0]@[m]
                &&& final(self).positions@[user_id.0]@.contains_key(market_id.0)
                &&& (match bal {
                    Some(b) => final(self).user_balances@ == old(self).user_balances@.insert(
                        user_id.0,
                        b,
                    ),
                    None => final(self).user_balances@ == old(self).user_balances@,
                })
                &&& final(self).daily_records@.dom() == old(self).daily_records@.dom().insert(day)
                &&& forall|d: i64|
                    d != day && #[trigger] old(self).daily_records@.contains_key(d)
                        ==> final(self).daily_records@[d] == old(self).daily_records@[d]
                &&& final(self).records_of(day) == old(self).records_of(day).push(
                    PnLRecord {
                        timestamp: now,
                        market_id,
                        realized_pnl_usd: r,
                        unrealized_pnl_usd: u,
                        total_pnl_usd: t,
                        volume_traded: zero(),
                        num_trades: 1,
                        avg_trade_size: zero(),
                        sharpe_ratio: None,
                    },
                )
            }),
    {
        let lots = self.copy_lots_of(user_id, market_id);
        let (new_lots, realized) = match compute_lots_after_fill(&lots, market_id, fill, &current_price, now) {
            Some(x) => x,
            None => {
                return false;
            },
        };
        let new_balance = match realized {
            Some(t) => match self.balance(user_id).checked_add(&t) {
                Some(b) => Some(b),
                None => {
                    return false;
                },
            },
            None => None,
        };
        let (r, u, t) = match compute_record(&new_lots, market_id, now) {
            Some(x) => x,
            None => {
                return false;
            },
        };
        let mut inner = match self.positions.remove(&user_id.0) {
            Some(m) => m,
            None => HashMap::new(),
        };
        inner.insert(market_id.0, new_lots);
        self.positions.insert(user_id.0, inner);
        match new_balance {
            Some(b) => {
                self.user_balances.insert(user_id.0, b);
            },
            None => {},
        }
        let day = day_of_millis(now);
        let mut records = match self.daily_records.remove(&day) {
            Some(v) => v,
            None => Vec::new(),
        };
        records.push(
            PnLRecord {
                timestamp: now,
                market_id,
                realized_pnl_usd: r,
                unrealized_pnl_usd: u,
                total_pnl_usd: t,
                volume_traded: Dec::zero(),
                num_trades: 1,
                avg_trade_size: Dec::zero(),
                sharpe_ratio: None,
            },
        );
        self.daily_records.insert(day, records);
        true
    }

    /// Records a fill at the current time; see `try_record_fill_at`.  Returns
    /// `false`, changing nothing, where a decimal step is refused.
    pub fn try_record_fill(
        &mut self,
        user_id: UserId,
        market_id: MarketId,
        fill: &Fill,
        current_price: Dec,
    ) -> (ok: bool)
        requires
            old(self).wf(),
            current_price.wf(),
        ensures
            final(self).wf(),
            exists|now: i64| #[trigger]
                PnLTracker::fill_recorded(*old(self), *final(self), user_id, market_id, *fill, current_price, now, ok),
    {
        let now = now_millis();
        self.try_record_fill_at(user_id, market_id, fill, current_price, now)
    }
}

/// The lots of the markets `ks` of `inner`, one market after another.
pub open spec fn concat_lots(inner: Map<u128, Vec<PositionPnL>>, ks: Seq<u128>) -> Seq<PositionPnL>
    decreases ks.len(),
{
    if ks.len() == 0 {
        Seq::empty()
    } else {
        concat_lots(inner, ks.drop_last()) + inner[ks.last()]@
    }
}

/// A lot's revaluation at `price` and time `now`.
pub open spec fn revalue_lot(l: PositionPnL, price: Dec, now: i64) -> Option<PositionPnL> {
    match lot_pnl(l.side, l.entry_price, price, l.quantity) {
        Some(u) => Some(PositionPnL { current_price: price, last_updated: now, unrealized_pnl: u, ..l }),
        None => None,
    }
}

/// Every lot revalued at `price` and time `now`, in order.
pub open spec fn revalue_lots(s: Seq<PositionPnL>, price: Dec, now: i64) -> Option<Seq<PositionPnL>>
    decreases s.len(),
{
    if s.len() == 0 {
        Some(Seq::empty())
    } else {
        match (revalue_lots(s.drop_last(), price, now), revalue_lot(s.last(), price, now)) {
            (Some(a), Some(l)) => Some(a.push(l)),
            _ => None,
        }
    }
}

/// The day's tallies over lots: total profit, lots counted, wins, losses,
/// sum of winning profits, sum of losing amounts.  `None` where a decimal
/// step is refused or a count passes 64 bits.
pub open spec fn day_tally(s: Seq<PositionPnL>) -> Option<(Dec, u64, u64, u64, Dec, Dec)>
    decreases s.len(),
{
    if s.len() == 0 {
        Some((zero(), 0u64, 0u64, 0u64, zero(), zero()))
    } else {
        match day_tally(s.drop_last()) {
            None => None,
            Some((total, n, wins, losses, wt, lt)) => {
                let l = s.last();
                match decimal_add(l.realized_pnl, l.unrealized_pnl) {
                    None => None,
                    Some(tp) => match decimal_add(total, tp) {
                        None => None,
                        Some(total2) => if n == u64::MAX {
                            None
                        } else if zero().spec_lt(tp) {
                            match decimal_add(wt, tp) {
                                Some(wt2) => Some(
                                    (total2, (n + 1) as u64, (wins + 1) as u64, losses, wt2, lt),
                                ),
                                None => None,
                            }
                        } else if tp.spec_lt(zero()) {
                            match decimal_add(lt, tp.spec_neg()) {
                                Some(lt2) => Some(
                                    (total2, (n + 1) as u64, wins, (losses + 1) as u64, wt, lt2),
                                ),
                                None => None,
                            }
                        } else {
                            Some((total2, (n + 1) as u64, wins, losses, wt, lt))
                        },
                    },
                }
            },
        }
    }
}

/// `a / b` where `b` is positive, else `dec!(0)`.
pub open spec fn ratio_or_zero(a: Dec, b: u64) -> Option<Dec> {
    if b > 0 {
        decimal_div(a, Dec::of_int(b as int))
    } else {
        Some(zero())
    }
}

/// A user's performance for the day from the lots `s`, starting balance
/// `start` and calendar day `day`.
pub open spec fn day_performance(s: Seq<PositionPnL>, start: Dec, day: i64) -> Option<DailyPerformance> {
    match day_tally(s) {
        None => None,
        Some((total, n, wins, losses, wt, lt)) => match (
            ratio_or_zero(Dec::of_int(wins as int), n),
            ratio_or_zero(wt, wins),
            ratio_or_zero(lt, losses),
            decimal_add(start, total),
            if zero().spec_lt(start) {
                decimal_div(total, start)
            } else {
                Some(zero())
            },
        ) {
            (Some(win_rate), Some(avg_win), Some(avg_loss), Some(end), Some(ret)) => Some(
                DailyPerformance {
                    date: day,
                    starting_balance: start,
                    ending_balance: end,
                    total_pnl: total,
                    return_pct: ret,
                    num_trades: n,
                    win_rate,
                    avg_win,
                    avg_loss,
                    max_drawdown_pct: zero(),
                    sharpe_ratio: zero(),
                },
            ),
            _ => None,
        },
    }
}

impl PnLTracker {
    /// The realized and unrealized sums of a user's lots in a market.
    pub open spec fn market_pnl_of(&self, user: UserId, market: MarketId) -> Option<(Dec, Dec)> {
        match (sum_realized(self.lots_of(user, market)), sum_unrealized(self.lots_of(user, market))) {
            (Some(r), Some(u)) => Some((r, u)),
            _ => None,
        }
    }

    /// A user's realized and unrealized profit in one market (`0` when the
    /// user holds nothing there).
    pub fn get_market_pnl(&self, user_id: UserId, market_id: MarketId) -> (r: (Dec, Dec))
        requires
            self.wf(),
            self.market_pnl_of(user_id, market_id) is Some,
        ensures
            Some(r) == self.market_pnl_of(user_id, market_id),
    {
        let lots = self.copy_lots_of(user_id, market_id);
        sum_lots(&lots)
    }

    /// A user's realized and unrealized profit over all markets, summed
    /// market by market in the map's order of markets.
    pub fn get_user_pnl(&self, user_id: UserId) -> (r: Option<(Dec, Dec)>)
        requires
            self.wf(),
        ensures
            !self.positions@.contains_key(user_id.0) ==> r == Some((zero(), zero())),
            self.positions@.contains_key(user_id.0) ==> exists|ks: Seq<u128>|
                lists_keys(ks, self.positions@[user_id.0]@) && r == match (
                    sum_realized(concat_lots(self.positions@[user_id.0]@, ks)),
                    sum_unrealized(concat_lots(self.positions@[user_id.0]@, ks)),
                ) {
                    (Some(a), Some(b)) => Some((a, b)),
                    _ => None,
                },
    {
        match self.positions.get(&user_id.0) {
            None => Some((Dec::zero(), Dec::zero())),
            Some(inner) => {
                let ks = collect_keys(inner);
                let all = gather_lots(inner, &ks);
                let res = sum_lots_opt(&all);
                proof {
                    assert(lists_keys(ks@, self.positions@[user_id.0]@));
                }
                res
            },
        }
    }

    /// A copy of a day's records.
    pub fn get_daily_summary(&self, day: i64) -> (r: Option<Vec<PnLRecord>>)
        ensures
            match r {
                Some(v) => self.daily_records@.contains_key(day) && v@ == self.daily_records@[day]@,
                None => !self.daily_records@.contains_key(day),
            },
    {
        match self.daily_records.get(&day) {
            Some(v) => {
                let mut c: Vec<PnLRecord> = Vec::new();
                let mut i: usize = 0;
                while i < v.len()
                    invariant
                        i <= v.len(),
                        c@ == v@.take(i as int),
                    decreases v.len() - i,
                {
                    c.push(v[i]);
                    assert(c@ =~= v@.take(i + 1));
                    i = i + 1;
                }
                assert(v@.take(v.len() as int) == v@);
                Some(c)
            },
            None => None,
        }
    }
}

/// The realized and unrealized sums, where both exist.
fn sum_lots(v: &Vec<PositionPnL>) -> (r: (Dec, Dec))
    requires
        lots_wf(v@),
        sum_realized(v@) is Some,
        sum_unrealized(v@) is Some,
    ensures
        r == (sum_realized(v@).unwrap(), sum_unrealized(v@).unwrap()),
{
    match sum_lots_opt(v) {
        Some(x) => x,
        None => (Dec::zero(), Dec::zero()),
    }
}

/// The realized and unrealized sums, or `None` where either is refused.
fn sum_lots_opt(v: &Vec<PositionPnL>) -> (r: Option<(Dec, Dec)>)
    requires
        lots_wf(v@),
    ensures
        r == match (sum_realized(v@), sum_unrealized(v@)) {
            (Some(a), Some(b)) => Some((a, b)),
            _ => None,
        },
{
    let mut rs: Option<Dec> = Some(Dec::zero());
    let mut us: Option<Dec> = Some(Dec::zero());
    let mut i: usize = 0;
    while i < v.len()
        invariant
            i <= v.len(),
            lots_wf(v@),
            rs == sum_realized(v@.take(i as int)),
            us == sum_unrealized(v@.take(i as int)),
            rs matches Some(x) ==> x.wf(),
            us matches Some(x) ==> x.wf(),
        decreases v.len() - i,
    {
        assert(v@.take(i + 1).drop_last() == v@.take(i as int));
        assert(v@[i as int].wf());
        rs = match rs {
            Some(a) => a.checked_add(&v[i].realized_pnl),
            None => None,
        };
        us = match us {
            Some(a) => a.checked_add(&v[i].unrealized_pnl),
            None => None,
        };
        i = i + 1;
    }
    assert(v@.take(v.len() as int) == v@);
    match (rs, us) {
        (Some(a), Some(b)) => Some((a, b)),
        _ => None,
    }
}

/// The lots of the markets `ks` of `inner`, one market after another.
fn gather_lots(inner: &HashMap<u128, Vec<PositionPnL>>, ks: &Vec<u128>) -> (r: Vec<PositionPnL>)
    requires
        forall|k: u128| #[trigger] ks@.contains(k) ==> inner@.contains_key(k),
        forall|m: u128| #[trigger] inner@.contains_key(m) ==> lots_wf(inner@[m]@),
    ensures
        r@ == concat_lots(inner@, ks@),
        lots_wf(r@),
{
    let mut all: Vec<PositionPnL> = Vec::new();
    let mut i: usize = 0;
    while i < ks.len()
        invariant
            i <= ks.len(),
            forall|k: u128| #[trigger] ks@.contains(k) ==> inner@.contains_key(k),
            forall|m: u128| #[trigger] inner@.contains_key(m) ==> lots_wf(inner@[m]@),
            all@ == concat_lots(inner@, ks@.take(i as int)),
            lots_wf(all@),
        decreases ks.len() - i,
    {
        assert(ks@.take(i + 1).drop_last() == ks@.take(i as int));
        assert(ks@.contains(ks@[i as int]));
        let v = inner.get(&ks[i]).unwrap();
        let ghost before = all@;
        let mut j: usize = 0;
        while j < v.len()
            invariant
                j <= v.len(),
                lots_wf(v@),
                all@ == before + v@.take(j as int),
                lots_wf(before),
            decreases v.len() - j,
        {
            all.push(v[j]);
            assert(all@ =~= before + v@.take(j + 1));
            j = j + 1;
        }
        assert(v@.take(v.len() as int) == v@);
        assert(lots_wf(all@)) by {
            assert forall|x: int| 0 <= x < all@.len() implies #[trigger] all@[x].wf() by {
                if x < before.len() {
                    assert(all@[x] == before[x]);
                } else {
                    assert(all@[x] == v@[x - before.len()]);
                }
            }
        }
        i = i + 1;
    }
    assert(ks@.take(ks.len() as int) == ks@);
    all
}

/// Revalues the lots; see `revalue_lots`.
fn compute_revalue_lots(v: &Vec<PositionPnL>, price: &Dec, now: i64) -> (r: Option<Vec<PositionPnL>>)
    requires
        lots_wf(v@),
        price.wf(),
    ensures
        match r {
            Some(x) => revalue_lots(v@, *price, now) == Some(x@) && lots_wf(x@),
            None => revalue_lots(v@, *price, now) is None,
        },
{
    let mut out: Vec<PositionPnL> = Vec::new();
    let mut i: usize = 0;
    while i < v.len()
        invariant
            i <= v.len(),
            lots_wf(v@),
            price.wf(),
            revalue_lots(v@.take(i as int), *price, now) == Some(out@),
            lots_wf(out@),
        decreases v.len() - i,
    {
        assert(v@.take(i + 1).drop_last() == v@.take(i as int));
        assert(v@[i as int].wf());
        let l = v[i];
        match compute_lot_pnl(l.side, &l.entry_price, price, l.quantity) {
            Some(u) => {
                out.push(PositionPnL { current_price: *price, last_updated: now, unrealized_pnl: u, ..l });
            },
            None => {
                proof {
                    lemma_revalue_none_stays(v@, *price, now, i as int + 1);
                }
                return None;
            },
        }
        i = i + 1;
    }
    assert(v@.take(v.len() as int) == v@);
    Some(out)
}

proof fn lemma_revalue_none_stays(s: Seq<PositionPnL>, price: Dec, now: i64, n: int)
    requires
        0 <= n <= s.len(),
        revalue_lots(s.take(n), price, now) is None,
    ensures
        revalue_lots(s, price, now) is None,
    decreases s.len() - n,
{
    if n < s.len() {
        assert(s.take(n + 1).drop_last() == s.take(n));
        lemma_revalue_none_stays(s, price, now, n + 1);
    } else {
        assert(s.take(n) == s);
    }
}

impl PnLTracker {
    /// Every user's lots in `market` can be revalued at `price`.
    pub open spec fn revaluable(&self, market: MarketId, price: Dec, now: i64) -> bool {
        forall|u: u128| #[trigger]
            self.positions@.contains_key(u) && self.positions@[u]@.contains_key(market.0)
                ==> revalue_lots(self.positions@[u]@[market.0]@, price, now) is Some
    }

    /// Revalues every user's lots in `market` at `new_price` and time `now`:
    /// current price, time and unrealized profit (signed by the lot's side)
    /// are updated.  Returns `false`, changing nothing, where a decimal step
    /// is refused.
    pub fn try_update_prices_at(&mut self, market_id: MarketId, new_price: Dec, now: i64) -> (ok: bool)
        requires
            old(self).wf(),
            new_price.wf(),
        ensures
            PnLTracker::prices_revalued(*old(self), *final(self), market_id, new_price, now, ok),
            final(self).wf(),
            ok == old(self).revaluable(market_id, new_price, now),
            final(self).daily_records@ == old(self).daily_records@,
            final(self).user_balances@ == old(self).user_balances@,
            final(self).historical_performance@ == old(self).historical_performance@,
            !ok ==> final(self).positions@ == old(self).positions@,
            ok ==> final(self).positions@.dom() == old(self).positions@.dom(),
            ok ==> forall|u: u128| #[trigger]
                old(self).positions@.contains_key(u) ==> if old(self).positions@[u]@.contains_key(
                    market_id.0,
                ) {
                    &&& final(self).positions@[u]@.dom() == old(self).positions@[u]@.dom()
                    &&& final(self).positions@[u]@[market_id.0]@ == revalue_lots(
                        old(self).positions@[u]@[market_id.0]@,
                        new_price,
                        now,
                    ).unwrap()
                    &&& forall|m: u128|
                        m != market_id.0 && #[trigger] old(self).positions@[u]@.contains_key(m)
                            ==> final(self).positions@[u]@[m] == old(self).positions@[u]@[m]
                } else {
                    final(self).positions@[u] == old(self).positions@[u]
                },
    {
        let ghost old_pos = self.positions@;
        let users = collect_keys(&self.positions);
        let mut updates: Vec<(u128, Vec<PositionPnL>)> = Vec::new();
        let mut i: usize = 0;
        while i < users.len()
            invariant
                i <= users.len(),
                self.positions@ == old_pos,
                self.user_balances@ == old(self).user_balances@,
                self.historical_performance@ == old(self).historical_performance@,
                self.daily_records@ == old(self).daily_records@,
                old(self).positions@ == old_pos,
                self.wf(),
                new_price.wf(),
                lists_keys(users@, old_pos),
                forall|j: int| 0 <= j < updates@.len() ==> {
                    let u = #[trigger] updates@[j].0;
                    &&& old_pos.contains_key(u)
                    &&& old_pos[u]@.contains_key(market_id.0)
                    &&& revalue_lots(old_pos[u]@[market_id.0]@, new_price, now) == Some(updates@[j].1@)
                    &&& lots_wf(updates@[j].1@)
                },
                forall|j1: int, j2: int| 0 <= j1 < j2 < updates@.len() ==> #[trigger] updates@[j1].0 != #[trigger] updates@[j2].0,
                forall|j: int| 0 <= j < updates@.len() ==> #[trigger] users@.take(i as int).contains(updates@[j].0),
                forall|u: u128| #[trigger] users@.take(i as int).contains(u) && old_pos[u]@.contains_key(market_id.0)
                    ==> exists|j: int| 0 <= j < updates@.len() && #[trigger] updates@[j].0 == u,
                forall|u: u128| #[trigger] users@.take(i as int).contains(u) && old_pos[u]@.contains_key(market_id.0)
                    ==> revalue_lots(old_pos[u]@[market_id.0]@, new_price, now) is Some,
            decreases users.len() - i,
        {
            let ghost upd0 = updates@;
            let u = users[i];
            assert(users@.contains(u));
            assert(users@.take(i + 1) == users@.take(i as int).push(u));
            assert(!users@.take(i as int).contains(u)) by {
                if users@.take(i as int).contains(u) {
                    let j = choose|j: int| 0 <= j < i && #[trigger] users@.take(i as int)[j] == u;
                    assert(users@[j] == users@[i as int]);
                }
            }
            let inner = self.positions.get(&u).unwrap();
            match inner.get(&market_id.0) {
                Some(v) => {
                    assert(lots_wf(old_pos[u]@[market_id.0]@));
                    match compute_revalue_lots(v, &new_price, now) {
                        Some(nv) => {
                            updates.push((u, nv));
                            assert(updates@[updates@.len() - 1].0 == u);
                        },
                        None => {
                            assert(old_pos.contains_key(u));
                            return false;
                        },
                    }
                },
                None => {},
            }
            proof {
                let ghost lenu = updates@.len();
                assert forall|u2: u128| #[trigger] users@.take(i + 1).contains(u2) && old_pos[u2]@.contains_key(market_id.0)
                    implies exists|j: int| 0 <= j < updates@.len() && #[trigger] updates@[j].0 == u2 by {
                    if u2 != u {
                        lemma_take_next_contains(users@, i as int, u2);
                        let j = choose|j: int| 0 <= j < upd0.len() && #[trigger] upd0[j].0 == u2;
                        assert(updates@[j] == upd0[j]);
                    } else {
                        assert(updates@[updates@.len() - 1].0 == u);
                    }
                }
                assert forall|u2: u128| #[trigger] users@.take(i + 1).contains(u2) && old_pos[u2]@.contains_key(market_id.0)
                    implies revalue_lots(old_pos[u2]@[market_id.0]@, new_price, now) is Some by {
                    if u2 != u {
                        lemma_take_next_contains(users@, i as int, u2);
                    }
                }
                assert forall|j: int| 0 <= j < updates@.len() implies #[trigger] users@.take(i + 1).contains(updates@[j].0) by {
                    if j < updates@.len() - 1 || !old_pos[u]@.contains_key(market_id.0) {
                        assert(users@.take(i as int).contains(updates@[j].0));
                    } else {
                        assert(users@.take(i + 1)[i as int] == u);
                    }
                }
            }
            i = i + 1;
        }
        proof {
            assert(users@.take(users@.len() as int) == users@);
        }
        let mut k: usize = 0;
        while k < updates.len()
            invariant
                k <= updates.len(),
                self.positions@.dom() == old_pos.dom(),
                self.user_balances@ == old(self).user_balances@,
                self.historical_performance@ == old(self).historical_performance@,
                self.daily_records@ == old(self).daily_records@,
                forall|j: int| 0 <= j < updates@.len() ==> {
                    let u = #[trigger] updates@[j].0;
                    &&& old_pos.contains_key(u)
                    &&& old_pos[u]@.contains_key(market_id.0)
                    &&& revalue_lots(old_pos[u]@[market_id.0]@, new_price, now) == Some(updates@[j].1@)
                    &&& lots_wf(updates@[j].1@)
                },
                forall|j1: int, j2: int| 0 <= j1 < j2 < updates@.len() ==> #[trigger] updates@[j1].0 != #[trigger] updates@[j2].0,
                forall|u: u128| #[trigger] old_pos.contains_key(u) ==> if (exists|j: int| 0 <= j < k && #[trigger] updates@[j].0 == u) {
                    &&& self.positions@[u]@.dom() == old_pos[u]@.dom()
                    &&& self.positions@[u]@[market_id.0]@ == revalue_lots(old_pos[u]@[market_id.0]@, new_price, now).unwrap()
                    &&& forall|m: u128| m != market_id.0 && #[trigger] old_pos[u]@.contains_key(m)
                        ==> self.positions@[u]@[m] == old_pos[u]@[m]
                } else {
                    self.positions@[u] == old_pos[u]
                },
                forall|u: u128, m: u128|
                    #![trigger self.positions@[u]@[m]]
                    self.positions@.contains_key(u) && self.positions@[u]@.contains_key(m) ==> lots_wf(self.positions@[u]@[m]@),
                old(self).wf(),
                old(self).positions@ == old_pos,
            decreases updates.len() - k,
        {
            let u = updates[k].0;
            let ghost before = self.positions@;
            let lots = copy_lots(&updates[k].1);
            let mut inner = self.positions.remove(&u).unwrap();
            inner.insert(market_id.0, lots);
            self.positions.insert(u, inner);
            proof {
                assert forall|u2: u128| #[trigger] old_pos.contains_key(u2) implies if (exists|j: int| 0 <= j < k + 1 && #[trigger] updates@[j].0 == u2) {
                    &&& self.positions@[u2]@.dom() == old_pos[u2]@.dom()
                    &&& self.positions@[u2]@[market_id.0]@ == revalue_lots(old_pos[u2]@[market_id.0]@, new_price, now).unwrap()
                    &&& forall|m: u128| m != market_id.0 && #[trigger] old_pos[u2]@.contains_key(m)
                        ==> self.positions@[u2]@[m] == old_pos[u2]@[m]
                } else {
                    self.positions@[u2] == old_pos[u2]
                } by {
                    if u2 == u {
                        assert(updates@[k as int].0 == u);
                        assert(!(exists|j: int| 0 <= j < k && #[trigger] updates@[j].0 == u));
                        assert(self.positions@[u2]@.dom() =~= old_pos[u2]@.dom());
                    } else {
                        if exists|j: int| 0 <= j < k + 1 && #[trigger] updates@[j].0 == u2 {
                            let j = choose|j: int| 0 <= j < k + 1 && #[trigger] updates@[j].0 == u2;
                            assert(j < k);
                        }
                    }
                }
                assert(self.positions@.dom() =~= old_pos.dom());
            }
            k = k + 1;
        }
        proof {
            assert forall|u: u128| #[trigger] old_pos.contains_key(u) && old_pos[u]@.contains_key(market_id.0)
                implies revalue_lots(old_pos[u]@[market_id.0]@, new_price, now) is Some by {
                assert(users@.contains(u));
                assert(users@.take(users@.len() as int) == users@);
            }
            assert forall|u: u128| #[trigger] old_pos.contains_key(u) implies if old_pos[u]@.contains_key(market_id.0) {
                &&& self.positions@[u]@.dom() == old_pos[u]@.dom()
                &&& self.positions@[u]@[market_id.0]@ == revalue_lots(old_pos[u]@[market_id.0]@, new_price, now).unwrap()
                &&& forall|m: u128| m != market_id.0 && #[trigger] old_pos[u]@.contains_key(m)
                    ==> self.positions@[u]@[m] == old_pos[u]@[m]
            } else {
                self.positions@[u] == old_pos[u]
            } by {
                assert(users@.contains(u));
                if old_pos[u]@.contains_key(market_id.0) {
                    let j = choose|j: int| 0 <= j < updates@.len() && #[trigger] updates@[j].0 == u;
                } else {
                    if exists|j: int| 0 <= j < updates@.len() && #[trigger] updates@[j].0 == u {
                        let j = choose|j: int| 0 <= j < updates@.len() && #[trigger] updates@[j].0 == u;
                    }
                }
            }
        }
        true
    }
}

/// An element of the first `i + 1` items other than item `i` is among the first `i`.
pub proof fn lemma_take_next_contains<A>(s: Seq<A>, i: int, x: A)
    requires
        0 <= i < s.len(),
        s.take(i + 1).contains(x),
        x != s[i],
    ensures
        s.take(i).contains(x),
{
    let j = choose|j: int| 0 <= j < i + 1 && #[trigger] s.take(i + 1)[j] == x;
    assert(s.take(i)[j] == x);
}

/// The day's tallies over the lots; see `day_tally`.
fn compute_day_tally(v: &Vec<PositionPnL>) -> (r: Option<(Dec, u64, u64, u64, Dec, Dec)>)
    requires
        lots_wf(v@),
    ensures
        r == day_tally(v@),
        r matches Some(x) ==> x.0.wf() && x.4.wf() && x.5.wf(),
{
    let mut total = Dec::zero();
    let mut n: u64 = 0;
    let mut wins: u64 = 0;
    let mut losses: u64 = 0;
    let mut wt = Dec::zero();
    let mut lt = Dec::zero();
    let mut i: usize = 0;
    while i < v.len()
        invariant
            i <= v.len(),
            lots_wf(v@),
            day_tally(v@.take(i as int)) == Some((total, n, wins, losses, wt, lt)),
            total.wf(),
            wt.wf(),
            lt.wf(),
            wins <= n,
            losses <= n,
        decreases v.len() - i,
    {
        assert(v@.take(i + 1).drop_last() == v@.take(i as int));
        assert(v@[i as int].wf());
        let l = v[i];
        let tp = match l.realized_pnl.checked_add(&l.unrealized_pnl) {
            Some(x) => x,
            None => {
                proof { lemma_tally_none_stays(v@, i as int + 1); }
                return None;
            },
        };
        total = match total.checked_add(&tp) {
            Some(x) => x,
            None => {
                proof { lemma_tally_none_stays(v@, i as int + 1); }
                return None;
            },
        };
        if n == u64::MAX {
            proof { lemma_tally_none_stays(v@, i as int + 1); }
            return None;
        }
        let zero = Dec::zero();
        if zero.lt(&tp) {
            wt = match wt.checked_add(&tp) {
                Some(x) => x,
                None => {
                    proof { lemma_tally_none_stays(v@, i as int + 1); }
                    return None;
                },
            };
            wins = wins + 1;
        } else if tp.lt(&zero) {
            lt = match lt.checked_add(&tp.neg()) {
                Some(x) => x,
                None => {
                    proof { lemma_tally_none_stays(v@, i as int + 1); }
                    return None;
                },
            };
            losses = losses + 1;
        }
        n = n + 1;
        i = i + 1;
    }
    assert(v@.take(v.len() as int) == v@);
    Some((total, n, wins, losses, wt, lt))
}

proof fn lemma_tally_none_stays(s: Seq<PositionPnL>, n: int)
    requires
        0 <= n <= s.len(),
        day_tally(s.take(n)) is None,
    ensures
        day_tally(s) is None,
    decreases s.len() - n,
{
    if n < s.len() {
        assert(s.take(n + 1).drop_last() == s.take(n));
        lemma_tally_none_stays(s, n + 1);
    } else {
        assert(s.take(n) == s);
    }
}

/// `a / b`, or `dec!(0)` when `b` is zero; see `ratio_or_zero`.
fn compute_ratio_or_zero(a: &Dec, b: u64) -> (r: Option<Dec>)
    requires
        a.wf(),
    ensures
        r == ratio_or_zero(*a, b),
        r matches Some(x) ==> x.wf(),
{
    if b > 0 {
        a.checked_div(&Dec::from_u64(b))
    } else {
        Some(Dec::zero())
    }
}

/// A user's performance for the day; see `day_performance`.
fn compute_day_performance(v: &Vec<PositionPnL>, start: &Dec, day: i64) -> (r: Option<DailyPerformance>)
    requires
        lots_wf(v@),
        start.wf(),
    ensures
        r == day_performance(v@, *start, day),
        r matches Some(x) ==> x.wf(),
{
    let (total, n, wins, losses, wt, lt) = compute_day_tally(v)?;
    let win_rate = compute_ratio_or_zero(&Dec::from_u64(wins), n)?;
    let avg_win = compute_ratio_or_zero(&wt, wins)?;
    let avg_loss = compute_ratio_or_zero(&lt, losses)?;
    let end = start.checked_add(&total)?;
    let zero = Dec::zero();
    let ret = if zero.lt(start) {
        total.checked_div(start)?
    } else {
        zero
    };
    Some(
        DailyPerformance {
            date: day,
            starting_balance: *start,
            ending_balance: end,
            total_pnl: total,
            return_pct: ret,
            num_trades: n,
            win_rate,
            avg_win,
            avg_loss,
            max_drawdown_pct: zero,
            sharpe_ratio: zero,
        },
    )
}

impl PnLTracker {
    /// The performance a user's lots give for `day`, taking the markets in
    /// the order `ks`.
    pub open spec fn user_day_performance(&self, u: u128, ks: Seq<u128>, day: i64) -> Option<DailyPerformance> {
        day_performance(concat_lots(self.positions@[u]@, ks), self.balance_of(UserId(u)), day)
    }

    /// `p` is the performance of user `u` for `day`, in some order of the
    /// user's markets.
    pub open spec fn perf_for(&self, u: u128, p: DailyPerformance, day: i64) -> bool {
        exists|ks: Seq<u128>|
            lists_keys(ks, self.positions@[u]@) && self.user_day_performance(u, ks, day) == Some(p)
    }

    /// The day's performance can be computed for every user with lots, in
    /// any order of their markets.
    pub open spec fn day_closable(&self, day: i64) -> bool {
        forall|u: u128, ks: Seq<u128>|
            #![trigger self.user_day_performance(u, ks, day)]
            self.positions@.contains_key(u) && lists_keys(ks, self.positions@[u]@)
                ==> self.user_day_performance(u, ks, day) is Some
    }

    /// Closes the trading day of `now`: for every user with lots, the day's
    /// total profit, trade count, win rate, average win and loss, balances
    /// and return are appended to the user's history.  Returns `false`,
    /// changing nothing, where a decimal step is refused.
    pub fn try_end_trading_day_at(&mut self, now: i64) -> (ok: bool)
        requires
            old(self).wf(),
        ensures
            PnLTracker::day_closed(*old(self), *final(self), now, ok),
            final(self).wf(),
            final(self).positions@ == old(self).positions@,
            final(self).user_balances@ == old(self).user_balances@,
            final(self).daily_records@ == old(self).daily_records@,
            old(self).day_closable(day_of(now as int) as i64) ==> ok,
            !ok ==> final(self).historical_performance@ == old(self).historical_performance@,
            ok ==> forall|u: u128| #[trigger]
                final(self).historical_performance@.contains_key(u) <==> old(
                    self,
                ).historical_performance@.contains_key(u) || old(self).positions@.contains_key(u),
            ok ==> forall|u: u128| #[trigger]
                old(self).historical_performance@.contains_key(u) && !old(self).positions@.contains_key(u)
                    ==> final(self).historical_performance@[u] == old(self).historical_performance@[u],
            ok ==> forall|u: u128| #[trigger]
                old(self).positions@.contains_key(u) ==> exists|ks: Seq<u128>|
                    lists_keys(ks, old(self).positions@[u]@) && old(self).user_day_performance(
                        u,
                        ks,
                        day_of(now as int) as i64,
                    ) is Some && final(self).historical_performance@[u]@ == (if old(
                        self,
                    ).historical_performance@.contains_key(u) {
                        old(self).historical_performance@[u]@
                    } else {
                        Seq::empty()
                    }).push(
                        old(self).user_day_performance(u, ks, day_of(now as int) as i64).unwrap(),
                    ),
    {
        let day = day_of_millis(now);
        let ghost old_self_hist = self.historical_performance@;
        let users = collect_keys(&self.positions);
        let mut perfs: Vec<(u128, DailyPerformance)> = Vec::new();
        let mut i: usize = 0;
        while i < users.len()
            invariant
                i <= users.len(),
                self.wf(),
                self.historical_performance@ == old_self_hist,
                self.positions@ == old(self).positions@,
                self.user_balances@ == old(self).user_balances@,
                self.daily_records@ == old(self).daily_records@,
                self.historical_performance@ == old(self).historical_performance@,
                lists_keys(users@, self.positions@),
                day as int == day_of(now as int),
                perfs@.len() == i,
                forall|j: int| 0 <= j < i ==> #[trigger] perfs@[j].0 == users@[j],
                forall|j: int| 0 <= j < i ==> self.perf_for(users@[j], #[trigger] perfs@[j].1, day),
                forall|j: int| 0 <= j < i ==> (#[trigger] perfs@[j]).1.wf(),
            decreases users.len() - i,
        {
            let ghost perfs0 = perfs@;
            let u = users[i];
            assert(users@.contains(u));
            let inner = self.positions.get(&u).unwrap();
            let ks = collect_keys(inner);
            assert forall|m: u128| #[trigger] inner@.contains_key(m) implies lots_wf(inner@[m]@) by {
                assert(self.positions@[u]@[m] == inner@[m]);
            }
            let all = gather_lots(inner, &ks);
            let start = self.balance(UserId(u));
            match compute_day_performance(&all, &start, day) {
                Some(p) => {
                    perfs.push((u, p));
                    assert(perfs@[i as int].1 == p);
                    assert(self.user_day_performance(u, ks@, day) == Some(p));
                    assert(self.perf_for(u, p, day)) by {
                        assert(lists_keys(ks@, self.positions@[u]@));
                    }
                    assert forall|j: int| 0 <= j < i + 1 implies self.perf_for(users@[j], #[trigger] perfs@[j].1, day) by {
                        if j < i {
                            assert(perfs@[j] == perfs0[j]);
                        }
                    }
                },
                None => {
                    assert(self.user_day_performance(u, ks@, day) is None);
                    assert(old(self).user_day_performance(u, ks@, day) is None);
                    assert(day as int == day_of(now as int));
                    assert(i64::MIN <= day_of(now as int) <= i64::MAX);
                    assert(day == day_of(now as int) as i64);
                    assert(lists_keys(ks@, old(self).positions@[u]@));
                    return false;
                },
            }
            i = i + 1;
        }
        let mut k: usize = 0;
        while k < perfs.len()
            invariant
                k <= perfs.len(),
                perfs@.len() == users@.len(),
                lists_keys(users@, old(self).positions@),
                self.positions@ == old(self).positions@,
                self.user_balances@ == old(self).user_balances@,
                self.daily_records@ == old(self).daily_records@,
                old(self).wf(),
                forall|j: int| 0 <= j < perfs@.len() ==> #[trigger] perfs@[j].0 == users@[j],
                forall|j: int| 0 <= j < perfs@.len() ==> (#[trigger] perfs@[j]).1.wf(),
                forall|u: u128| #[trigger]
                    self.historical_performance@.contains_key(u) <==> old(
                        self,
                    ).historical_performance@.contains_key(u) || users@.take(k as int).contains(u),
                forall|u: u128| #[trigger]
                    self.historical_performance@.contains_key(u) && !users@.take(k as int).contains(u)
                        ==> self.historical_performance@[u] == old(self).historical_performance@[u],
                forall|j: int| 0 <= j < k ==> #[trigger] self.historical_performance@[users@[j]]@ == (if old(
                    self,
                ).historical_performance@.contains_key(users@[j]) {
                    old(self).historical_performance@[users@[j]]@
                } else {
                    Seq::empty()
                }).push(perfs@[j].1),
                forall|u: u128, x: int|
                    #![trigger self.historical_performance@[u]@[x]]
                    self.historical_performance@.contains_key(u) && 0 <= x
                        < self.historical_performance@[u]@.len()
                        ==> self.historical_performance@[u]@[x].wf(),
            decreases perfs.len() - k,
        {
            let u = perfs[k].0;
            let p = perfs[k].1;
            let ghost before = self.historical_performance@;
            let mut h = match self.historical_performance.remove(&u) {
                Some(h) => h,
                None => Vec::new(),
            };
            h.push(p);
            self.historical_performance.insert(u, h);
            proof {
                assert(users@[k as int] == u);
                assert(!users@.take(k as int).contains(u)) by {
                    if users@.take(k as int).contains(u) {
                        let j = choose|j: int| 0 <= j < k && #[trigger] users@.take(k as int)[j] == u;
                        assert(users@[j] == users@[k as int]);
                    }
                }
                assert(users@.take(k + 1) == users@.take(k as int).push(u));
                assert forall|u2: u128| #[trigger]
                    self.historical_performance@.contains_key(u2) <==> old(
                        self,
                    ).historical_performance@.contains_key(u2) || users@.take(k + 1).contains(u2) by {
                    if u2 != u && users@.take(k + 1).contains(u2) {
                        lemma_take_next_contains(users@, k as int, u2);
                    }
                    if users@.take(k as int).contains(u2) {
                        let j = choose|j: int| 0 <= j < k && #[trigger] users@.take(k as int)[j] == u2;
                        assert(users@.take(k + 1)[j] == u2);
                    }
                    if u2 == u {
                        assert(users@.take(k + 1)[k as int] == u);
                    }
                }
                assert forall|u2: u128| #[trigger]
                    self.historical_performance@.contains_key(u2) && !users@.take(k + 1).contains(u2)
                        implies self.historical_performance@[u2] == old(self).historical_performance@[u2] by {
                    assert(users@.take(k + 1)[k as int] == u);
                    assert(u2 != u);
                    if users@.take(k as int).contains(u2) {
                        let j = choose|j: int| 0 <= j < k && #[trigger] users@.take(k as int)[j] == u2;
                        assert(users@.take(k + 1)[j] == u2);
                    }
                }
                assert forall|j: int| 0 <= j < k + 1 implies #[trigger] self.historical_performance@[users@[j]]@ == (if old(
                    self,
                ).historical_performance@.contains_key(users@[j]) {
                    old(self).historical_performance@[users@[j]]@
                } else {
                    Seq::empty()
                }).push(perfs@[j].1) by {
                    if j < k {
                        assert(users@[j] != users@[k as int]);
                    } else {
                        if before.contains_key(u) {
                            assert(!users@.take(k as int).contains(u));
                        }
                    }
                }
            }
            k = k + 1;
        }
        proof {
            assert(users@.take(users@.len() as int) == users@);
            assert forall|u: u128| #[trigger] self.historical_performance@.contains_key(u) <==> old(
                self,
            ).historical_performance@.contains_key(u) || old(self).positions@.contains_key(u) by {
                if old(self).positions@.contains_key(u) {
                    assert(users@.contains(u));
                }
            }
            assert forall|u: u128| #[trigger] old(self).historical_performance@.contains_key(u)
                && !old(self).positions@.contains_key(u) implies self.historical_performance@[u]
                == old(self).historical_performance@[u] by {
                assert(!users@.contains(u));
                assert(self.historical_performance@.contains_key(u));
            }
            assert forall|u: u128| #[trigger] old(self).positions@.contains_key(u) implies exists|ks: Seq<u128>|
                lists_keys(ks, old(self).positions@[u]@) && old(self).user_day_performance(
                    u,
                    ks,
                    day,
                ) is Some && self.historical_performance@[u]@ == (if old(
                    self,
                ).historical_performance@.contains_key(u) {
                    old(self).historical_performance@[u]@
                } else {
                    Seq::empty()
                }).push(old(self).user_day_performance(u, ks, day).unwrap()) by {
                assert(users@.contains(u));
                let j = choose|j: int| 0 <= j < users@.len() && users@[j] == u;
                assert(perfs@[j].0 == u);
                assert(old(self).perf_for(users@[j], perfs@[j].1, day));
                let ks = choose|ks: Seq<u128>|
                    lists_keys(ks, old(self).positions@[users@[j]]@) && old(self).user_day_performance(
                        users@[j],
                        ks,
                        day,
                    ) == Some(perfs@[j].1);
                assert(self.historical_performance@[users@[j]]@ == (if old(
                    self,
                ).historical_performance@.contains_key(users@[j]) {
                    old(self).historical_performance@[users@[j]]@
                } else {
                    Seq::empty()
                }).push(perfs@[j].1));
            }
        }
        true
    }

    /// Closes the trading day of the current time; see `try_end_trading_day_at`.
    pub fn try_end_trading_day(&mut self) -> (ok: bool)
        requires
            old(self).wf(),
        ensures
            final(self).wf(),
            exists|now: i64| #[trigger] PnLTracker::day_closed(*old(self), *final(self), now, ok),
    {
        let now = now_millis();
        self.try_end_trading_day_at(now)
    }
}

/// Sum from `dec!(0)` of the days' returns.
pub open spec fn sum_returns(h: Seq<DailyPerformance>) -> Option<Dec>
    decreases h.len(),
{
    if h.len() == 0 {
        Some(zero())
    } else {
        match sum_returns(h.drop_last()) {
            Some(a) => decimal_add(a, h.last().return_pct),
            None => None,
        }
    }
}

/// Sum from `dec!(0)` of the days' win rates.
pub open spec fn sum_win_rates(h: Seq<DailyPerformance>) -> Option<Dec>
    decreases h.len(),
{
    if h.len() == 0 {
        Some(zero())
    } else {
        match sum_win_rates(h.drop_last()) {
            Some(a) => decimal_add(a, h.last().win_rate),
            None => None,
        }
    }
}

/// Sum from `dec!(0)` of the squared deviations of the returns from `avg`.
pub open spec fn sum_sq_dev(h: Seq<DailyPerformance>, avg: Dec) -> Option<Dec>
    decreases h.len(),
{
    if h.len() == 0 {
        Some(zero())
    } else {
        match sum_sq_dev(h.drop_last(), avg) {
            Some(a) => match decimal_sub(h.last().return_pct, avg) {
                Some(d) => match decimal_mul(d, d) {
                    Some(sq) => decimal_add(a, sq),
                    None => None,
                },
                None => None,
            },
            None => None,
        }
    }
}

/// Total trades of the days.
pub open spec fn sum_trades(h: Seq<DailyPerformance>) -> int
    decreases h.len(),
{
    if h.len() == 0 {
        0
    } else {
        sum_trades(h.drop_last()) + h.last().num_trades
    }
}

/// The largest drawdown, folded with `max` from `dec!(0)`.
pub open spec fn max_drawdown(h: Seq<DailyPerformance>) -> Dec
    decreases h.len(),
{
    if h.len() == 0 {
        zero()
    } else {
        let a = max_drawdown(h.drop_last());
        let b = h.last().max_drawdown_pct;
        if b.spec_lt(a) {
            a
        } else {
            b
        }
    }
}

/// The performance over a non-empty history: total and average return,
/// volatility (square root of the variance; `0` where it has none),
/// Sharpe ratio (average over volatility, `0` without volatility), trades,
/// average win rate, largest drawdown and number of days.
pub open spec fn metrics_of(h: Seq<DailyPerformance>) -> Option<PerformanceMetrics> {
    let n = Dec::of_int(h.len() as int);
    match sum_returns(h) {
        None => None,
        Some(total) => match decimal_div(total, n) {
            None => None,
            Some(avg) => match sum_sq_dev(h, avg) {
                None => None,
                Some(sq) => match decimal_div(sq, n) {
                    None => None,
                    Some(variance) => {
                        let vol = match decimal_sqrt(variance) {
                            Some(v) => v,
                            None => zero(),
                        };
                        match (
                            if zero().spec_lt(vol) {
                                decimal_div(avg, vol)
                            } else {
                                Some(zero())
                            },
                            sum_win_rates(h),
                        ) {
                            (Some(sharpe), Some(wr)) => match decimal_div(wr, n) {
                                Some(win) => if sum_trades(h) > u64::MAX {
                                    None
                                } else {
                                    Some(
                                        PerformanceMetrics {
                                            total_return_pct: total,
                                            avg_daily_return_pct: avg,
                                            volatility_pct: vol,
                                            sharpe_ratio: sharpe,
                                            total_trades: sum_trades(h) as u64,
                                            win_rate_pct: win,
                                            max_drawdown_pct: max_drawdown(h),
                                            num_trading_days: h.len() as usize,
                                        },
                                    )
                                },
                                None => None,
                            },
                            _ => None,
                        }
                    },
                },
            },
        },
    }
}

/// The performance over a history; see `metrics_of`.
fn compute_metrics(h: &Vec<DailyPerformance>) -> (r: Option<PerformanceMetrics>)
    requires
        h@.len() > 0,
        forall|i: int| 0 <= i < h@.len() ==> #[trigger] h@[i].wf(),
    ensures
        r == metrics_of(h@),
        r matches Some(m) ==> {
            &&& m.num_trading_days == h@.len()
            &&& m.volatility_pct.mantissa >= 0
            &&& !zero().spec_lt(m.volatility_pct) ==> m.sharpe_ratio == zero()
        },
{
    let len = h.len();
    let n = Dec::from_u64(len as u64);
    let mut total: Option<Dec> = Some(Dec::zero());
    let mut wr: Option<Dec> = Some(Dec::zero());
    let mut trades: u128 = 0;
    let mut mdd: Dec = Dec::zero();
    let mut i: usize = 0;
    while i < len
        invariant
            i <= len,
            len == h@.len(),
            forall|x: int| 0 <= x < h@.len() ==> #[trigger] h@[x].wf(),
            total == sum_returns(h@.take(i as int)),
            total matches Some(x) ==> x.wf(),
            wr == sum_win_rates(h@.take(i as int)),
            wr matches Some(x) ==> x.wf(),
            trades == sum_trades(h@.take(i as int)),
            trades <= i * (u64::MAX as int),
            mdd == max_drawdown(h@.take(i as int)),
            mdd.wf(),
        decreases len - i,
    {
        assert(h@.take(i + 1).drop_last() == h@.take(i as int));
        assert(h@[i as int].wf());
        let d = h[i];
        total = match total {
            Some(a) => a.checked_add(&d.return_pct),
            None => None,
        };
        wr = match wr {
            Some(a) => a.checked_add(&d.win_rate),
            None => None,
        };
        trades = trades + d.num_trades as u128;
        mdd = mdd.max(&d.max_drawdown_pct);
        i = i + 1;
    }
    assert(h@.take(len as int) == h@);
    let total = total?;
    let avg = total.checked_div(&n)?;
    let mut sq: Option<Dec> = Some(Dec::zero());
    let mut j: usize = 0;
    while j < len
        invariant
            j <= len,
            len == h@.len(),
            avg.wf(),
            forall|x: int| 0 <= x < h@.len() ==> #[trigger] h@[x].wf(),
            sq == sum_sq_dev(h@.take(j as int), avg),
            sq matches Some(x) ==> x.wf(),
        decreases len - j,
    {
        assert(h@.take(j + 1).drop_last() == h@.take(j as int));
        assert(h@[j as int].wf());
        sq = match sq {
            Some(a) => match h[j].return_pct.checked_sub(&avg) {
                Some(dv) => match dv.checked_mul(&dv) {
                    Some(s2) => a.checked_add(&s2),
                    None => None,
                },
                None => None,
            },
            None => None,
        };
        j = j + 1;
    }
    assert(h@.take(len as int) == h@);
    let sq = sq?;
    let variance = sq.checked_div(&n)?;
    let vol = match variance.sqrt() {
        Some(v) => v,
        None => Dec::zero(),
    };
    let zero = Dec::zero();
    let sharpe = if zero.lt(&vol) {
        avg.checked_div(&vol)?
    } else {
        zero
    };
    let wr = wr?;
    let win = wr.checked_div(&n)?;
    if trades > u64::MAX as u128 {
        return None;
    }
    Some(
        PerformanceMetrics {
            total_return_pct: total,
            avg_daily_return_pct: avg,
            volatility_pct: vol,
            sharpe_ratio: sharpe,
            total_trades: trades as u64,
            win_rate_pct: win,
            max_drawdown_pct: mdd,
            num_trading_days: len,
        },
    )
}

impl PnLTracker {
    /// A user's history (empty when absent).
    pub open spec fn history_of(&self, user: UserId) -> Seq<DailyPerformance> {
        if self.historical_performance@.contains_key(user.0) {
            self.historical_performance@[user.0]@
        } else {
            Seq::empty()
        }
    }

    /// A user's performance over the recorded days: `Ok(None)` without
    /// history, `Err(())` where a decimal step is refused.
    pub fn try_get_performance_metrics(&self, user_id: UserId) -> (r: Result<Option<PerformanceMetrics>, ()>)
        requires
            self.wf(),
        ensures
            self.history_of(user_id).len() == 0 ==> r == Ok::<Option<PerformanceMetrics>, ()>(None),
            self.history_of(user_id).len() > 0 ==> match metrics_of(self.history_of(user_id)) {
                Some(m) => r == Ok::<Option<PerformanceMetrics>, ()>(Some(m)),
                None => r is Err,
            },
            r matches Ok(Some(m)) ==> {
                &&& m.num_trading_days == self.history_of(user_id).len()
                &&& m.volatility_pct.mantissa >= 0
                &&& !zero().spec_lt(m.volatility_pct) ==> m.sharpe_ratio == zero()
            },
    {
        match self.historical_performance.get(&user_id.0) {
            None => Ok(None),
            Some(h) => {
                if h.len() == 0 {
                    return Ok(None);
                }
                assert forall|i: int| 0 <= i < h@.len() implies #[trigger] h@[i].wf() by {
                    assert(self.historical_performance@[user_id.0]@[i].wf());
                }
                match compute_metrics(h) {
                    Some(m) => Ok(Some(m)),
                    None => Err(()),
                }
            },
        }
    }

    /// A user's performance over the recorded days, `None` without history.
    pub fn get_performance_metrics(&self, user_id: UserId) -> (r: Option<PerformanceMetrics>)
        requires
            self.wf(),
            self.history_of(user_id).len() > 0 ==> metrics_of(self.history_of(user_id)) is Some,
        ensures
            self.history_of(user_id).len() == 0 ==> r is None,
            self.history_of(user_id).len() > 0 ==> r == metrics_of(self.history_of(user_id)),
            r matches Some(m) ==> {
                &&& m.num_trading_days == self.history_of(user_id).len()
                &&& m.volatility_pct.mantissa >= 0
                &&& !zero().spec_lt(m.volatility_pct) ==> m.sharpe_ratio == zero()
            },
    {
        match self.try_get_performance_metrics(user_id) {
            Ok(m) => m,
            Err(_) => None,
        }
    }
}

/// Quantity held in buy lots.
pub open spec fn buy_qty(s: Seq<PositionPnL>) -> int
    decreases s.len(),
{
    if s.len() == 0 {
        0
    } else {
        (if s[0].side == Side::Buy {
            s[0].quantity as int
        } else {
            0
        }) + buy_qty(s.drop_first())
    }
}

/// Sell lots, in order.
pub open spec fn sell_lots(s: Seq<PositionPnL>) -> Seq<PositionPnL>
    decreases s.len(),
{
    if s.len() == 0 {
        Seq::empty()
    } else if s[0].side == Side::Buy {
        sell_lots(s.drop_first())
    } else {
        seq![s[0]] + sell_lots(s.drop_first())
    }
}

/// Closing first in, first out takes exactly `min(qty, held)` off the buy
/// lots, keeps every sell lot in place, and never leaves an empty buy lot
/// behind one it touched.
pub proof fn law_fifo_close_conserves(lots: Seq<PositionPnL>, qty: u64, price: Dec, acc: Dec)
    requires
        close_fifo(lots, qty, price, acc) is Some,
    ensures
        buy_qty(close_fifo(lots, qty, price, acc).unwrap().0) == buy_qty(lots) - (if (qty as int) < buy_qty(
            lots,
        ) {
            qty as int
        } else {
            buy_qty(lots)
        }),
        sell_lots(close_fifo(lots, qty, price, acc).unwrap().0) == sell_lots(lots),
    decreases lots.len(),
{
    if lots.len() > 0 {
        let l = lots[0];
        lemma_buy_qty_nonneg(lots.drop_first());
        if qty == 0 || l.side != Side::Buy {
            law_fifo_close_conserves(lots.drop_first(), qty, price, acc);
            let (r, t) = close_fifo(lots.drop_first(), qty, price, acc).unwrap();
            assert((seq![l] + r)[0] == l);
            assert((seq![l] + r).drop_first() =~= r);
        } else {
            let c: u64 = if qty < l.quantity { qty } else { l.quantity };
            let d = decimal_sub(price, l.entry_price).unwrap();
            let realized = decimal_mul(d, Dec::of_int(c as int)).unwrap();
            let acc2 = decimal_add(acc, realized).unwrap();
            law_fifo_close_conserves(lots.drop_first(), (qty - c) as u64, price, acc2);
            let (r, t) = close_fifo(lots.drop_first(), (qty - c) as u64, price, acc2).unwrap();
            if c < l.quantity {
                let nl = PositionPnL { quantity: (l.quantity - c) as u64, ..l };
                assert((seq![nl] + r)[0] == nl);
                assert((seq![nl] + r).drop_first() =~= r);
            } else {
                assert(Seq::<PositionPnL>::empty() + r =~= r);
            }
        }
    }
}

/// Revaluing keeps every lot's market, side, entry price, quantity, opening
/// time and realized profit; only the current price, time and unrealized
/// profit change.
pub proof fn law_revalue_keeps_lots(s: Seq<PositionPnL>, price: Dec, now: i64)
    requires
        revalue_lots(s, price, now) is Some,
    ensures
        revalue_lots(s, price, now)->0.len() == s.len(),
        forall|i: int|
            0 <= i < s.len() ==> {
                let l = #[trigger] revalue_lots(s, price, now)->0[i];
                &&& l.market_id == s[i].market_id
                &&& l.side == s[i].side
                &&& l.entry_price == s[i].entry_price
                &&& l.quantity == s[i].quantity
                &&& l.opened_at == s[i].opened_at
                &&& l.realized_pnl == s[i].realized_pnl
                &&& l.current_price == price
                &&& l.last_updated == now
            },
    decreases s.len(),
{
    if s.len() > 0 {
        law_revalue_keeps_lots(s.drop_last(), price, now);
    }
}

proof fn lemma_buy_qty_nonneg(s: Seq<PositionPnL>)
    ensures
        buy_qty(s) >= 0,
    decreases s.len(),
{
    if s.len() > 0 {
        lemma_buy_qty_nonneg(s.drop_first());
    }
}

impl PnLTracker {
    /// Records a fill at the current time; see `try_record_fill_at`.  The
    /// fill's decimal steps must succeed at every time; where that is not
    /// known, call `try_record_fill`, which tests it and changes nothing
    /// where a step is refused.
    pub fn record_fill(&mut self, user_id: UserId, market_id: MarketId, fill: &Fill, current_price: Dec)
        requires
            old(self).wf(),
            current_price.wf(),
            forall|t: i64| #[trigger]
                old(self).fill_effect(user_id, market_id, *fill, current_price, t) is Some,
        ensures
            final(self).wf(),
            exists|now: i64| #[trigger]
                PnLTracker::fill_recorded(*old(self), *final(self), user_id, market_id, *fill, current_price, now, true),
    {
        let now = now_millis();
        let ok = self.try_record_fill_at(user_id, market_id, fill, current_price, now);
        assert(old(self).fill_effect(user_id, market_id, *fill, current_price, now) is Some);
        assert(ok);
    }

    /// Revalues every user's lots in `market_id` at the current time; see
    /// `try_update_prices_at`.
    pub fn update_prices(&mut self, market_id: MarketId, new_price: Dec)
        requires
            old(self).wf(),
            new_price.wf(),
            forall|t: i64| #[trigger] old(self).revaluable(market_id, new_price, t),
        ensures
            final(self).wf(),
            exists|now: i64| #[trigger] PnLTracker::prices_revalued(*old(self), *final(self), market_id, new_price, now, true),
    {
        let now = now_millis();
        let ok = self.try_update_prices_at(market_id, new_price, now);
        assert(old(self).revaluable(market_id, new_price, now));
    }

    /// Closes the trading day at the current time; see `try_end_trading_day_at`.
    /// Every user's day must be computable whatever the date; where that is
    /// not known, call `try_end_trading_day`, which tests it and changes
    /// nothing where a decimal step is refused.
    pub fn end_trading_day(&mut self)
        requires
            old(self).wf(),
            forall|d: i64| #[trigger] old(self).day_closable(d),
        ensures
            final(self).wf(),
            exists|now: i64| #[trigger] PnLTracker::day_closed(*old(self), *final(self), now, true),
    {
        let now = now_millis();
        assert(old(self).day_closable(day_of(now as int) as i64));
        let ok = self.try_end_trading_day_at(now);
        assert(ok);
    }
}


/// A lot's profit: realized plus unrealized.
pub open spec fn lot_profit(l: PositionPnL) -> Option<Dec> {
    decimal_add(l.realized_pnl, l.unrealized_pnl)
}

/// The number of lots whose profit is positive.
pub open spec fn winning_lots(s: Seq<PositionPnL>) -> int
    decreases s.len(),
{
    if s.len() == 0 {
        0
    } else {
        winning_lots(s.drop_last()) + if lot_profit(s.last()) matches Some(tp) && zero().spec_lt(tp) {
            1int
        } else {
            0
        }
    }
}

/// The number of lots whose profit is negative.
pub open spec fn losing_lots(s: Seq<PositionPnL>) -> int
    decreases s.len(),
{
    if s.len() == 0 {
        0
    } else {
        losing_lots(s.drop_last()) + if lot_profit(s.last()) matches Some(tp) && tp.spec_lt(zero()) {
            1int
        } else {
            0
        }
    }
}

/// The sum (from zero) of the lots' profits.
pub open spec fn profit_total(s: Seq<PositionPnL>) -> Option<Dec>
    decreases s.len(),
{
    if s.len() == 0 {
        Some(zero())
    } else {
        match (profit_total(s.drop_last()), lot_profit(s.last())) {
            (Some(a), Some(tp)) => decimal_add(a, tp),
            _ => None,
        }
    }
}

/// The sum (from zero) of the profits of the lots in profit.
pub open spec fn winning_total(s: Seq<PositionPnL>) -> Option<Dec>
    decreases s.len(),
{
    if s.len() == 0 {
        Some(zero())
    } else {
        match winning_total(s.drop_last()) {
            None => None,
            Some(a) => match lot_profit(s.last()) {
                Some(tp) => if zero().spec_lt(tp) {
                    decimal_add(a, tp)
                } else {
                    Some(a)
                },
                None => Some(a),
            },
        }
    }
}

/// The sum (from zero) of the amounts lost by the lots at a loss.
pub open spec fn losing_total(s: Seq<PositionPnL>) -> Option<Dec>
    decreases s.len(),
{
    if s.len() == 0 {
        Some(zero())
    } else {
        match losing_total(s.drop_last()) {
            None => None,
            Some(a) => match lot_profit(s.last()) {
                Some(tp) => if tp.spec_lt(zero()) {
                    decimal_add(a, tp.spec_neg())
                } else {
                    Some(a)
                },
                None => Some(a),
            },
        }
    }
}

proof fn lemma_day_tally_counts(s: Seq<PositionPnL>)
    ensures
        day_tally(s) matches Some(t) ==> {
            &&& t.1 == s.len()
            &&& t.2 == winning_lots(s)
            &&& t.3 == losing_lots(s)
            &&& t.2 + t.3 <= t.1
            &&& profit_total(s) == Some(t.0)
            &&& winning_total(s) == Some(t.4)
            &&& losing_total(s) == Some(t.5)
        },
    decreases s.len(),
{
    if s.len() > 0 {
        lemma_day_tally_counts(s.drop_last());
        if zero().spec_lt(lot_profit(s.last()).unwrap_or(zero())) {
            assert(!lot_profit(s.last()).unwrap_or(zero()).spec_lt(zero()));
        }
    }
}

/// A closed day's figures follow the day's lots: the trade count is the
/// number of lots; the win rate is the number of lots in profit over the
/// number of lots (zero with no lots), so a day whose lots are all in
/// profit has the rate `n / n`; wins and losses together never exceed the
/// lots; the total is the sum of the lots' profits; the average win is the
/// winners' total over their number and the average loss the losers'
/// amount over theirs (zero without any); the return is the total over a
/// positive starting balance (zero otherwise); the ending balance is the
/// starting balance plus the total; and the day, starting balance,
/// drawdown and Sharpe ratio are as given.
pub proof fn law_day_win_rate(s: Seq<PositionPnL>, start: Dec, day: i64)
    ensures
        day_performance(s, start, day) matches Some(p) ==> {
            &&& p.num_trades == s.len()
            &&& s.len() == 0 ==> p.win_rate == zero()
            &&& s.len() > 0 ==> Some(p.win_rate) == decimal_div(
                Dec::of_int(winning_lots(s)),
                Dec::of_int(s.len() as int),
            )
            &&& winning_lots(s) == s.len() && s.len() > 0 ==> Some(p.win_rate) == decimal_div(
                Dec::of_int(s.len() as int),
                Dec::of_int(s.len() as int),
            )
            &&& winning_lots(s) + losing_lots(s) <= s.len()
            &&& Some(p.total_pnl) == profit_total(s)
            &&& winning_lots(s) == 0 ==> p.avg_win == zero()
            &&& winning_lots(s) > 0 ==> (winning_total(s) matches Some(w) && Some(p.avg_win) == decimal_div(
                w,
                Dec::of_int(winning_lots(s)),
            ))
            &&& losing_lots(s) == 0 ==> p.avg_loss == zero()
            &&& losing_lots(s) > 0 ==> (losing_total(s) matches Some(l) && Some(p.avg_loss) == decimal_div(
                l,
                Dec::of_int(losing_lots(s)),
            ))
            &&& zero().spec_lt(start) ==> Some(p.return_pct) == decimal_div(p.total_pnl, start)
            &&& !zero().spec_lt(start) ==> p.return_pct == zero()
            &&& Some(p.ending_balance) == decimal_add(start, p.total_pnl)
            &&& p.date == day
            &&& p.starting_balance == start
            &&& p.max_drawdown_pct == zero()
            &&& p.sharpe_ratio == zero()
        },
{
    lemma_day_tally_counts(s);
}

/// The performance metrics over a history follow its days: the number of
/// days is the history's length; the total return is the sum of the days'
/// returns and the average return that sum over the number of days; the
/// win rate is the sum of the days' win rates over the number of days (an
/// average, not a sum); the trade count is the sum of the days' trades; the
/// drawdown is the largest day's drawdown, at least zero.
pub proof fn law_metrics_average_the_days(h: Seq<DailyPerformance>)
    ensures
        metrics_of(h) is Some ==> h.len() <= usize::MAX ==> metrics_of(h)->0.num_trading_days == h.len(),
        metrics_of(h) is Some ==> Some(metrics_of(h)->0.total_return_pct) == sum_returns(h),
        metrics_of(h) is Some ==> Some(metrics_of(h)->0.avg_daily_return_pct) == decimal_div(
            metrics_of(h)->0.total_return_pct,
            Dec::of_int(h.len() as int),
        ),
        metrics_of(h) is Some ==> sum_win_rates(h) is Some && Some(metrics_of(h)->0.win_rate_pct)
            == decimal_div(sum_win_rates(h)->0, Dec::of_int(h.len() as int)),
        metrics_of(h) is Some ==> metrics_of(h)->0.total_trades == sum_trades(h),
        metrics_of(h) is Some ==> metrics_of(h)->0.max_drawdown_pct == max_drawdown(h),
{
    lemma_sum_trades_nonneg(h);
}

proof fn lemma_sum_trades_nonneg(h: Seq<DailyPerformance>)
    ensures
        sum_trades(h) >= 0,
    decreases h.len(),
{
    if h.len() > 0 {
        lemma_sum_trades_nonneg(h.drop_last());
    }
}

/// Every daily record a fill appends holds the market's profit after the
/// fill: realized is the sum of the market's lots' realized profits,
/// unrealized the sum of their unrealized profits, and the total is
/// realized plus unrealized; the record is for the fill's market and time
/// and counts one trade.
pub proof fn law_fill_record_totals(
    before: PnLTracker,
    after: PnLTracker,
    user: UserId,
    market: MarketId,
    fill: Fill,
    cur: Dec,
    now: i64,
)
    requires
        PnLTracker::fill_recorded(before, after, user, market, fill, cur, now, true),
    ensures
        ({
            let day = day_of(now as int) as i64;
            let recs = after.records_of(day);
            let rec = recs.last();
            &&& recs.len() == before.records_of(day).len() + 1
            &&& rec.market_id == market
            &&& rec.timestamp == now
            &&& rec.num_trades == 1
            &&& Some(rec.realized_pnl_usd) == sum_realized(after.lots_of(user, market))
            &&& Some(rec.unrealized_pnl_usd) == sum_unrealized(after.lots_of(user, market))
            &&& Some(rec.total_pnl_usd) == decimal_add(rec.realized_pnl_usd, rec.unrealized_pnl_usd)
        }),
{
}
} // verus!
