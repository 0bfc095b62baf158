//! Pre-trade risk checks and per-user risk state.
//!
//! Amounts are decimal dollars.  Every step that `rust_decimal` could refuse
//! (overflow, division by zero) is stated over the named results of its
//! operations; `try_*` functions report such a refusal as `None`, while the
//! plain functions require that none happens.
use crate::decimal::{Dec, decimal_add, decimal_sub, decimal_mul, decimal_div, pow10};
use crate::types::{UserId, MarketId, Order, Fill, Position, Side};
use std::collections::HashMap;
use crate::text::{int_text, u64_text};
use vstd::prelude::*;
use vstd::std_specs::hash::*;
use vstd::std_specs::iter::IteratorSpec;

verus! {

broadcast use vstd::std_specs::hash::group_hash_axioms;

/// The display text of a decimal.
pub uninterp spec fn decimal_text(d: Dec) -> Seq<char>;

/// Calls `<Decimal as ToString>::to_string`.  Trusted: the text is named.
#[verifier::external_body]
pub(crate) fn decimal_to_string(d: Dec) -> (r: String)
    requires
        d.wf(),
    ensures
        r@ == decimal_text(d),
{
    rust_decimal::Decimal::from_i128_with_scale(d.mantissa, d.scale).to_string()
}

/// `Dec` literals used by the risk rules (`dec!(..)` in their decimal form).
pub open spec fn dec_lit(m: int, s: nat) -> Dec {
    Dec { mantissa: m as i128, scale: s as u32 }
}

#[derive(Clone, Copy, Debug)]
pub struct RiskLimits {
    pub max_position_size_usd: Dec,
    pub max_daily_loss_usd: Dec,
    pub max_total_exposure_usd: Dec,
    pub max_drawdown_pct: Dec,
    pub max_positions_per_market: usize,
    pub max_correlated_exposure: Dec,
}

impl RiskLimits {
    pub open spec fn wf(&self) -> bool {
        &&& self.max_position_size_usd.wf()
        &&& self.max_daily_loss_usd.wf()
        &&& self.max_total_exposure_usd.wf()
        &&& self.max_drawdown_pct.wf()
        &&& self.max_correlated_exposure.wf()
    }

    /// 100000.0 per position, 50000.0 daily loss, 500000.0 total exposure,
    /// 0.20 drawdown, 5 positions per market, 200000.0 correlated exposure.
    pub open spec fn spec_default() -> RiskLimits {
        RiskLimits {
            max_position_size_usd: dec_lit(1000000, 1),
            max_daily_loss_usd: dec_lit(500000, 1),
            max_total_exposure_usd: dec_lit(5000000, 1),
            max_drawdown_pct: dec_lit(20, 2),
            max_positions_per_market: 5,
            max_correlated_exposure: dec_lit(2000000, 1),
        }
    }

    pub fn new_default() -> (r: RiskLimits)
        ensures
            r == RiskLimits::spec_default(),
            r.wf(),
    {
        RiskLimits {
            max_position_size_usd: Dec { mantissa: 1000000, scale: 1 },
            max_daily_loss_usd: Dec { mantissa: 500000, scale: 1 },
            max_total_exposure_usd: Dec { mantissa: 5000000, scale: 1 },
            max_drawdown_pct: Dec { mantissa: 20, scale: 2 },
            max_positions_per_market: 5,
            max_correlated_exposure: Dec { mantissa: 2000000, scale: 1 },
        }
    }
}

impl Default for RiskLimits {
    fn default() -> (r: RiskLimits)
        ensures
            r == RiskLimits::spec_default(),
    {
        RiskLimits::new_default()
    }
}

/// The outcome of a pre-trade check.
#[derive(Clone, Debug)]
pub struct RiskCheckResult {
    pub allowed: bool,
    pub reason: Option<String>,
    pub risk_score: Dec,
}

/// The plain contents of a check outcome: allowed, reason text, score.
pub type Verdict = (bool, Option<Seq<char>>, Dec);

pub open spec fn reason_view(r: Option<String>) -> Option<Seq<char>> {
    match r {
        Some(s) => Some(s@),
        None => None,
    }
}

impl RiskCheckResult {
    pub open spec fn verdict(&self) -> Verdict {
        (self.allowed, reason_view(self.reason), self.risk_score)
    }
}

/// A user's running risk state.
#[derive(Debug)]
pub struct UserRiskState {
    pub user_id: UserId,
    pub daily_pnl_usd: Dec,
    pub total_exposure_usd: Dec,
    pub max_drawdown_pct: Dec,
    /// Positions per market, keyed by the market's identifier.
    pub positions: HashMap<u128, Vec<Position>>,
    pub fills_today: Vec<Fill>,
    pub peak_balance_usd: Dec,
    pub current_balance_usd: Dec,
}

impl UserRiskState {
    pub open spec fn wf(&self) -> bool {
        &&& self.daily_pnl_usd.wf()
        &&& self.total_exposure_usd.wf()
        &&& self.max_drawdown_pct.wf()
        &&& self.peak_balance_usd.wf()
        &&& self.current_balance_usd.wf()
    }

    /// The positions held in a market.
    pub open spec fn positions_in(&self, market: MarketId) -> int {
        if self.positions@.contains_key(market.0) {
            self.positions@[market.0].len() as int
        } else {
            0
        }
    }

    /// A fresh state: all amounts zero (`dec!(0.0)`), no positions, no fills.
    pub fn fresh(user_id: UserId) -> (r: UserRiskState)
        ensures
            r.wf(),
            r.user_id == user_id,
            r.daily_pnl_usd == dec_lit(0, 1),
            r.total_exposure_usd == dec_lit(0, 1),
            r.max_drawdown_pct == dec_lit(0, 1),
            r.positions@ == Map::<u128, Vec<Position>>::empty(),
            r.fills_today@ == Seq::<Fill>::empty(),
            r.peak_balance_usd == dec_lit(0, 1),
            r.current_balance_usd == dec_lit(0, 1),
    {
        UserRiskState {
            user_id,
            daily_pnl_usd: Dec { mantissa: 0, scale: 1 },
            total_exposure_usd: Dec { mantissa: 0, scale: 1 },
            max_drawdown_pct: Dec { mantissa: 0, scale: 1 },
            positions: HashMap::new(),
            fills_today: Vec::new(),
            peak_balance_usd: Dec { mantissa: 0, scale: 1 },
            current_balance_usd: Dec { mantissa: 0, scale: 1 },
        }
    }
}

pub open spec fn msg_breaker() -> Seq<char> {
    "Global circuit breaker is active"@
}

pub open spec fn msg_order_value(v: Dec, max: Dec) -> Seq<char> {
    "Order value $"@ + decimal_text(v) + " exceeds max position size $"@ + decimal_text(max)
}

pub open spec fn msg_exposure(e: Dec, max: Dec) -> Seq<char> {
    "Total exposure $"@ + decimal_text(e) + " would exceed limit $"@ + decimal_text(max)
}

pub open spec fn msg_positions(n: usize) -> Seq<char> {
    "Max positions ("@ + int_text(n as int) + ") reached for this market"@
}

pub open spec fn msg_daily_loss(p: Dec) -> Seq<char> {
    "Daily loss limit exceeded: $"@ + decimal_text(p)
}

pub open spec fn msg_drawdown(p: Dec) -> Seq<char> {
    "Max drawdown exceeded: "@ + decimal_text(p) + "%"@
}

pub open spec fn msg_score() -> Seq<char> {
    "Risk score too high"@
}

/// `(peak - current) / peak` when the peak is positive, else `0.0`.
pub open spec fn drawdown_of(peak: Dec, current: Dec) -> Option<Dec> {
    if dec_lit(0, 1).spec_lt(peak) {
        match decimal_sub(peak, current) {
            Some(d) => decimal_div(d, peak),
            None => None,
        }
    } else {
        Some(dec_lit(0, 1))
    }
}

/// The weighted risk score of adding an order worth `v`, capped at 1.0:
/// 0.3 exposure ratio + 0.3 drawdown ratio + 0.2 concentration + 0.2 loss ratio.
pub open spec fn risk_score_of(limits: RiskLimits, st: UserRiskState, v: Dec) -> Option<Dec> {
    match (
        decimal_add(st.total_exposure_usd, v),
        decimal_div(st.max_drawdown_pct, limits.max_drawdown_pct),
    ) {
        (Some(ev), Some(drawdown_ratio)) => match (
            decimal_div(ev, limits.max_total_exposure_usd),
            decimal_add(ev, dec_lit(10, 1)),
        ) {
            (Some(exposure_ratio), Some(ev1)) => match (
                decimal_div(v, ev1),
                if st.daily_pnl_usd.spec_lt(dec_lit(0, 1)) {
                    decimal_div(st.daily_pnl_usd.spec_neg(), limits.max_daily_loss_usd)
                } else {
                    Some(dec_lit(0, 1))
                },
            ) {
                (Some(concentration), Some(pnl_ratio)) => match (
                    decimal_mul(exposure_ratio, dec_lit(3, 1)),
                    decimal_mul(drawdown_ratio, dec_lit(3, 1)),
                    decimal_mul(concentration, dec_lit(2, 1)),
                    decimal_mul(pnl_ratio, dec_lit(2, 1)),
                ) {
                    (Some(a), Some(b), Some(c), Some(d)) => match decimal_add(a, b) {
                        Some(ab) => match decimal_add(ab, c) {
                            Some(abc) => match decimal_add(abc, d) {
                                Some(s) => Some(
                                    if dec_lit(10, 1).spec_lt(s) {
                                        dec_lit(10, 1)
                                    } else {
                                        s
                                    },
                                ),
                                None => None,
                            },
                            None => None,
                        },
                        None => None,
                    },
                    _ => None,
                },
                _ => None,
            },
            _ => None,
        },
        _ => None,
    }
}

/// The outcome for a user with a risk state, given the order's value `v`.
pub open spec fn user_verdict(limits: RiskLimits, st: UserRiskState, order: Order, v: Dec) -> Option<
    Verdict,
> {
    match decimal_add(st.total_exposure_usd, v) {
        None => None,
        Some(ne) => if limits.max_total_exposure_usd.spec_lt(ne) {
            Some((false, Some(msg_exposure(ne, limits.max_total_exposure_usd)), dec_lit(10, 1)))
        } else if st.positions_in(order.market_id) >= limits.max_positions_per_market {
            Some((false, Some(msg_positions(limits.max_positions_per_market)), dec_lit(10, 1)))
        } else if st.daily_pnl_usd.spec_lt(limits.max_daily_loss_usd.spec_neg()) {
            Some((false, Some(msg_daily_loss(st.daily_pnl_usd)), dec_lit(10, 1)))
        } else {
            match drawdown_of(st.peak_balance_usd, st.current_balance_usd) {
                None => None,
                Some(dd) => if limits.max_drawdown_pct.spec_lt(dd) {
                    match decimal_mul(dd, dec_lit(1000, 1)) {
                        Some(p) => Some((false, Some(msg_drawdown(p)), dec_lit(10, 1))),
                        None => None,
                    }
                } else {
                    match risk_score_of(limits, st, v) {
                        None => None,
                        Some(s) => if dec_lit(8, 1).spec_lt(s) {
                            Some((false, Some(msg_score()), s))
                        } else {
                            Some((true, None, s))
                        },
                    }
                },
            }
        },
    }
}

/// The grouping key of a fill: its market and aggressor side.
pub open spec fn fill_key(f: Fill) -> (u128, Side) {
    (f.market_id.0, f.aggressor)
}

/// The distinct keys of the fills, in order of first appearance.
pub open spec fn group_keys(fs: Seq<Fill>) -> Seq<(u128, Side)>
    decreases fs.len(),
{
    if fs.len() == 0 {
        Seq::empty()
    } else {
        let ks = group_keys(fs.drop_last());
        if ks.contains(fill_key(fs.last())) {
            ks
        } else {
            ks.push(fill_key(fs.last()))
        }
    }
}

/// Sum (from `Decimal::ZERO`) of the raw prices of the fills with key `k`.
pub open spec fn group_price_sum(fs: Seq<Fill>, k: (u128, Side)) -> Option<Dec>
    decreases fs.len(),
{
    if fs.len() == 0 {
        Some(Dec::of_int(0))
    } else {
        match group_price_sum(fs.drop_last(), k) {
            None => None,
            Some(s) => if fill_key(fs.last()) == k {
                decimal_add(s, Dec::of_int(fs.last().price.0 as int))
            } else {
                Some(s)
            },
        }
    }
}

/// Total quantity of the fills with key `k`.
pub open spec fn group_qty(fs: Seq<Fill>, k: (u128, Side)) -> int
    decreases fs.len(),
{
    if fs.len() == 0 {
        0
    } else {
        group_qty(fs.drop_last(), k) + if fill_key(fs.last()) == k {
            fs.last().quantity.0 as int
        } else {
            0
        }
    }
}

/// Number of fills with key `k`.
pub open spec fn group_count(fs: Seq<Fill>, k: (u128, Side)) -> int
    decreases fs.len(),
{
    if fs.len() == 0 {
        0
    } else {
        group_count(fs.drop_last(), k) + if fill_key(fs.last()) == k {
            1int
        } else {
            0
        }
    }
}

/// The profit of one group at price `cur`: against the average raw price,
/// times the group's quantity, with the sign of the side.
pub open spec fn group_pnl(fs: Seq<Fill>, k: (u128, Side), cur: Dec) -> Option<Dec> {
    if group_qty(fs, k) > u64::MAX {
        None
    } else {
        match group_price_sum(fs, k) {
            None => None,
            Some(s) => {
                let n = if group_count(fs, k) > 1 {
                    group_count(fs, k)
                } else {
                    1
                };
                match decimal_div(s, Dec::of_int(n)) {
                    None => None,
                    Some(avg) => match if k.1 == Side::Buy {
                        decimal_sub(cur, avg)
                    } else {
                        decimal_sub(avg, cur)
                    } {
                        None => None,
                        Some(d) => decimal_mul(d, Dec::of_int(group_qty(fs, k))),
                    },
                }
            },
        }
    }
}

/// The sum (from `dec!(0)`) of the groups' profits, in key order.
pub open spec fn realized_over(fs: Seq<Fill>, ks: Seq<(u128, Side)>, cur: Dec) -> Option<Dec>
    decreases ks.len(),
{
    if ks.len() == 0 {
        Some(Dec::of_int(0))
    } else {
        match realized_over(fs, ks.drop_last(), cur) {
            None => None,
            Some(r) => match group_pnl(fs, ks.last(), cur) {
                None => None,
                Some(p) => decimal_add(r, p),
            },
        }
    }
}

/// The profit of the day's fills at price `cur`.
pub open spec fn day_pnl(fs: Seq<Fill>, cur: Dec) -> Option<Dec> {
    realized_over(fs, group_keys(fs), cur)
}

/// The amounts after revaluing the day's fills at `cur`: daily profit,
/// balance, peak and drawdown.
pub open spec fn revalued(
    daily: Dec,
    current: Dec,
    peak: Dec,
    mdd: Dec,
    fs: Seq<Fill>,
    cur: Dec,
) -> Option<(Dec, Dec, Dec, Dec)> {
    match day_pnl(fs, cur) {
        None => None,
        Some(realized) => match decimal_add(current, realized) {
            None => None,
            Some(cur_bal) => {
                let new_peak = if peak.spec_lt(cur_bal) {
                    cur_bal
                } else {
                    peak
                };
                if dec_lit(0, 1).spec_lt(new_peak) {
                    match decimal_sub(new_peak, cur_bal) {
                        None => None,
                        Some(d) => match decimal_div(d, new_peak) {
                            None => None,
                            Some(m) => Some((realized, cur_bal, new_peak, m)),
                        },
                    }
                } else {
                    Some((realized, cur_bal, new_peak, mdd))
                }
            },
        }
    }
}

pub struct RiskManager {
    pub limits: RiskLimits,
    /// Risk state per user, keyed by the user's identifier.
    pub user_states: HashMap<u128, UserRiskState>,
    /// Set when a user's daily loss reaches the limit; cleared by the daily reset.
    pub circuit_breaker: bool,
}

impl RiskManager {
    pub open spec fn wf(&self) -> bool {
        &&& self.limits.wf()
        &&& forall|k: u128| #[trigger] self.user_states@.contains_key(k) ==> self.user_states@[k].wf()
    }

    /// The outcome of checking `order` for `user` at `price`; `None` where a
    /// decimal operation is refused.
    pub open spec fn order_verdict(&self, user: UserId, order: Order, price: Dec) -> Option<Verdict> {
        if self.circuit_breaker {
            Some((false, Some(msg_breaker()), dec_lit(10, 1)))
        } else {
            match decimal_mul(Dec::of_int(order.quantity.0 as int), price) {
                None => None,
                Some(v) => if self.limits.max_position_size_usd.spec_lt(v) {
                    Some(
                        (
                            false,
                            Some(msg_order_value(v, self.limits.max_position_size_usd)),
                            dec_lit(10, 1),
                        ),
                    )
                } else if !self.user_states@.contains_key(user.0) {
                    Some((true, None, dec_lit(0, 1)))
                } else {
                    user_verdict(self.limits, self.user_states@[user.0], order, v)
                },
            }
        }
    }

    pub fn new(limits: RiskLimits) -> (r: RiskManager)
        requires
            limits.wf(),
        ensures
            r.wf(),
            r.limits == limits,
            r.user_states@ == Map::<u128, UserRiskState>::empty(),
            !r.circuit_breaker,
    {
        RiskManager { limits, user_states: HashMap::new(), circuit_breaker: false }
    }

    fn risk_score(&self, st: &UserRiskState, v: &Dec) -> (r: Option<Dec>)
        requires
            self.limits.wf(),
            st.wf(),
            v.wf(),
        ensures
            r == risk_score_of(self.limits, *st, *v),
            r matches Some(x) ==> x.wf(),
    {
        let ev = st.total_exposure_usd.checked_add(v)?;
        let drawdown_ratio = st.max_drawdown_pct.checked_div(&self.limits.max_drawdown_pct)?;
        let exposure_ratio = ev.checked_div(&self.limits.max_total_exposure_usd)?;
        let ev1 = ev.checked_add(&Dec { mantissa: 10, scale: 1 })?;
        let concentration = v.checked_div(&ev1)?;
        let zero = Dec { mantissa: 0, scale: 1 };
        let pnl_ratio = if st.daily_pnl_usd.lt(&zero) {
            st.daily_pnl_usd.neg().checked_div(&self.limits.max_daily_loss_usd)?
        } else {
            zero
        };
        let three = Dec { mantissa: 3, scale: 1 };
        let two = Dec { mantissa: 2, scale: 1 };
        let a = exposure_ratio.checked_mul(&three)?;
        let b = drawdown_ratio.checked_mul(&three)?;
        let c = concentration.checked_mul(&two)?;
        let d = pnl_ratio.checked_mul(&two)?;
        let ab = a.checked_add(&b)?;
        let abc = ab.checked_add(&c)?;
        let s = abc.checked_add(&d)?;
        Some(s.min(&Dec { mantissa: 10, scale: 1 }))
    }

    fn drawdown(peak: &Dec, current: &Dec) -> (r: Option<Dec>)
        requires
            peak.wf(),
            current.wf(),
        ensures
            r == drawdown_of(*peak, *current),
            r matches Some(x) ==> x.wf(),
    {
        let zero = Dec { mantissa: 0, scale: 1 };
        if zero.lt(peak) {
            let d = peak.checked_sub(current)?;
            d.checked_div(peak)
        } else {
            Some(zero)
        }
    }

    fn rejection(reason: String, score: Dec) -> (r: RiskCheckResult)
        ensures
            r.verdict() == (false, Some(reason@), score),
    {
        RiskCheckResult { allowed: false, reason: Some(reason), risk_score: score }
    }

    fn user_check(&self, st: &UserRiskState, order: &Order, v: &Dec) -> (r: Option<RiskCheckResult>)
        requires
            self.limits.wf(),
            st.wf(),
            v.wf(),
        ensures
            match r {
                Some(x) => user_verdict(self.limits, *st, *order, *v) == Some(x.verdict()),
                None => user_verdict(self.limits, *st, *order, *v) is None,
            },
    {
        let one = Dec { mantissa: 10, scale: 1 };
        let ne = st.total_exposure_usd.checked_add(v)?;
        if self.limits.max_total_exposure_usd.lt(&ne) {
            let mut s = String::from_str("Total exposure $");
            s.append(decimal_to_string(ne).as_str());
            s.append(" would exceed limit $");
            s.append(decimal_to_string(self.limits.max_total_exposure_usd).as_str());
            return Some(Self::rejection(s, one));
        }
        let count: usize = match st.positions.get(&order.market_id.0) {
            Some(p) => p.len(),
            None => 0,
        };
        if count >= self.limits.max_positions_per_market {
            let mut s = String::from_str("Max positions (");
            s.append(u64_text(self.limits.max_positions_per_market as u64).as_str());
            s.append(") reached for this market");
            return Some(Self::rejection(s, one));
        }
        if st.daily_pnl_usd.lt(&self.limits.max_daily_loss_usd.neg()) {
            let mut s = String::from_str("Daily loss limit exceeded: $");
            s.append(decimal_to_string(st.daily_pnl_usd).as_str());
            return Some(Self::rejection(s, one));
        }
        let dd = Self::drawdown(&st.peak_balance_usd, &st.current_balance_usd)?;
        if self.limits.max_drawdown_pct.lt(&dd) {
            let pct = dd.checked_mul(&Dec { mantissa: 1000, scale: 1 })?;
            let mut s = String::from_str("Max drawdown exceeded: ");
            s.append(decimal_to_string(pct).as_str());
            s.append("%");
            return Some(Self::rejection(s, one));
        }
        let score = self.risk_score(st, v)?;
        if (Dec { mantissa: 8, scale: 1 }).lt(&score) {
            return Some(Self::rejection(String::from_str("Risk score too high"), score));
        }
        Some(RiskCheckResult { allowed: true, reason: None, risk_score: score })
    }

    /// Checks an order for `user` at `current_price`; `None` where a decimal
    /// operation is refused.
    pub fn try_check_order_risk(&self, user_id: UserId, order: &Order, current_price: Dec) -> (r:
        Option<RiskCheckResult>)
        requires
            self.wf(),
            current_price.wf(),
        ensures
            match r {
                Some(x) => self.order_verdict(user_id, *order, current_price) == Some(x.verdict()),
                None => self.order_verdict(user_id, *order, current_price) is None,
            },
    {
        if self.circuit_breaker {
            return Some(
                Self::rejection(
                    String::from_str("Global circuit breaker is active"),
                    Dec { mantissa: 10, scale: 1 },
                ),
            );
        }
        let qty = Dec::from_u64(order.quantity.0);
        let v = qty.checked_mul(&current_price)?;
        if self.limits.max_position_size_usd.lt(&v) {
            let mut s = String::from_str("Order value $");
            s.append(decimal_to_string(v).as_str());
            s.append(" exceeds max position size $");
            s.append(decimal_to_string(self.limits.max_position_size_usd).as_str());
            return Some(Self::rejection(s, Dec { mantissa: 10, scale: 1 }));
        }
        match self.user_states.get(&user_id.0) {
            Some(st) => self.user_check(st, order, &v),
            None => Some(RiskCheckResult { allowed: true, reason: None, risk_score: Dec { mantissa: 0, scale: 1 } }),
        }
    }

    /// Checks an order for `user` at `current_price`.
    pub fn check_order_risk(&self, user_id: UserId, order: &Order, current_price: Dec) -> (r:
        RiskCheckResult)
        requires
            self.wf(),
            current_price.wf(),
            self.order_verdict(user_id, *order, current_price) is Some,
        ensures
            self.order_verdict(user_id, *order, current_price) == Some(r.verdict()),
    {
        self.try_check_order_risk(user_id, order, current_price).unwrap()
    }

    /// The user's total exposure, `0.0` for an unknown user.
    pub fn get_user_exposure(&self, user_id: UserId) -> (r: Dec)
        ensures
            r == (if self.user_states@.contains_key(user_id.0) {
                self.user_states@[user_id.0].total_exposure_usd
            } else {
                dec_lit(0, 1)
            }),
    {
        match self.user_states.get(&user_id.0) {
            Some(s) => s.total_exposure_usd,
            None => Dec { mantissa: 0, scale: 1 },
        }
    }

    /// The user's profit for the day, `0.0` for an unknown user.
    pub fn get_user_pnl(&self, user_id: UserId) -> (r: Dec)
        ensures
            r == (if self.user_states@.contains_key(user_id.0) {
                self.user_states@[user_id.0].daily_pnl_usd
            } else {
                dec_lit(0, 1)
            }),
    {
        match self.user_states.get(&user_id.0) {
            Some(s) => s.daily_pnl_usd,
            None => Dec { mantissa: 0, scale: 1 },
        }
    }
}

/// A copy of the fills.
fn copy_fills(v: &Vec<Fill>) -> (r: Vec<Fill>)
    ensures
        r@ == v@,
{
    let mut r: Vec<Fill> = Vec::new();
    let mut i: usize = 0;
    while i < v.len()
        invariant
            i <= v.len(),
            r@ == v@.take(i as int),
        decreases v.len() - i,
    {
        r.push(v[i].duplicate());
        assert(r@ =~= v@.take(i + 1));
        i = i + 1;
    }
    assert(v@.take(v.len() as int) == v@);
    r
}

/// Whether `k` is among `keys`.
fn keys_contain(keys: &Vec<(u128, Side)>, k: (u128, Side)) -> (r: bool)
    ensures
        r == keys@.contains(k),
{
    let mut i: usize = 0;
    while i < keys.len()
        invariant
            i <= keys.len(),
            forall|j: int| 0 <= j < i ==> keys@[j] != k,
        decreases keys.len() - i,
    {
        if keys[i].0 == k.0 && keys[i].1 == k.1 {
            assert(keys@[i as int] == k);
            return true;
        }
        i = i + 1;
    }
    false
}

/// The distinct grouping keys of the fills, in order of first appearance.
fn collect_group_keys(fills: &Vec<Fill>) -> (r: Vec<(u128, Side)>)
    ensures
        r@ == group_keys(fills@),
{
    let mut keys: Vec<(u128, Side)> = Vec::new();
    let mut j: usize = 0;
    while j < fills.len()
        invariant
            j <= fills.len(),
            keys@ == group_keys(fills@.take(j as int)),
        decreases fills.len() - j,
    {
        assert(fills@.take(j + 1).drop_last() == fills@.take(j as int));
        let k = (fills[j].market_id.0, fills[j].aggressor);
        if !keys_contain(&keys, k) {
            keys.push(k);
        }
        j = j + 1;
    }
    assert(fills@.take(fills.len() as int) == fills@);
    keys
}

/// The profit of the fills with key `k` at price `cur`.
fn compute_group_pnl(fills: &Vec<Fill>, k: (u128, Side), cur: &Dec) -> (r: Option<Dec>)
    requires
        cur.wf(),
    ensures
        r == group_pnl(fills@, k, *cur),
        r matches Some(x) ==> x.wf(),
{
    let mut sum: Option<Dec> = Some(Dec::zero());
    let mut qty: u128 = 0;
    let mut count: usize = 0;
    let mut j: usize = 0;
    while j < fills.len()
        invariant
            j <= fills.len(),
            sum == group_price_sum(fills@.take(j as int), k),
            sum matches Some(x) ==> x.wf(),
            qty == group_qty(fills@.take(j as int), k),
            qty <= j * (u64::MAX as int),
            count == group_count(fills@.take(j as int), k),
            count <= j,
        decreases fills.len() - j,
    {
        assert(fills@.take(j + 1).drop_last() == fills@.take(j as int));
        let f = &fills[j];
        if f.market_id.0 == k.0 && f.aggressor == k.1 {
            sum = match sum {
                Some(s) => s.checked_add(&Dec::from_u64(f.price.0 as u64)),
                None => None,
            };
            qty = qty + f.quantity.0 as u128;
            count = count + 1;
        }
        j = j + 1;
    }
    assert(fills@.take(fills.len() as int) == fills@);
    if qty > u64::MAX as u128 {
        return None;
    }
    let s = sum?;
    let n: u64 = if count > 1 { count as u64 } else { 1 };
    let avg = s.checked_div(&Dec::from_u64(n))?;
    let d = if k.1 == Side::Buy {
        cur.checked_sub(&avg)?
    } else {
        avg.checked_sub(cur)?
    };
    d.checked_mul(&Dec::from_u64(qty as u64))
}

/// The profit of the day's fills at price `cur`.
fn compute_day_pnl(fills: &Vec<Fill>, cur: &Dec) -> (r: Option<Dec>)
    requires
        cur.wf(),
    ensures
        r == day_pnl(fills@, *cur),
        r matches Some(x) ==> x.wf(),
{
    let keys = collect_group_keys(fills);
    let mut acc: Dec = Dec::zero();
    let mut i: usize = 0;
    while i < keys.len()
        invariant
            i <= keys.len(),
            keys@ == group_keys(fills@),
            cur.wf(),
            acc.wf(),
            realized_over(fills@, keys@.take(i as int), *cur) == Some(acc),
        decreases keys.len() - i,
    {
        assert(keys@.take(i + 1).drop_last() == keys@.take(i as int));
        let p = compute_group_pnl(fills, keys[i], cur);
        match p {
            Some(p) => {
                match acc.checked_add(&p) {
                    Some(a) => {
                        acc = a;
                    },
                    None => {
                        proof {
                            lemma_realized_none_stays(fills@, keys@, *cur, i as int + 1);
                        }
                        assert(keys@.take(keys@.len() as int) == keys@);
                        return None;
                    },
                }
            },
            None => {
                proof {
                    lemma_realized_none_stays(fills@, keys@, *cur, i as int + 1);
                }
                assert(keys@.take(keys@.len() as int) == keys@);
                return None;
            },
        }
        i = i + 1;
    }
    assert(keys@.take(keys.len() as int) == keys@);
    Some(acc)
}

/// Once a prefix of the groups fails, the whole sum fails.
proof fn lemma_realized_none_stays(fs: Seq<Fill>, ks: Seq<(u128, Side)>, cur: Dec, n: int)
    requires
        0 <= n <= ks.len(),
        realized_over(fs, ks.take(n), cur) is None,
    ensures
        realized_over(fs, ks, cur) is None,
    decreases ks.len() - n,
{
    if n < ks.len() {
        assert(ks.take(n + 1).drop_last() == ks.take(n));
        lemma_realized_none_stays(fs, ks, cur, n + 1);
    } else {
        assert(ks.take(n) == ks);
    }
}

/// The amounts after revaluing `fills` at `cur`; see `revalued`.
fn compute_revalued(
    daily: Dec,
    current: Dec,
    peak: Dec,
    mdd: Dec,
    fills: &Vec<Fill>,
    cur: &Dec,
) -> (r: Option<(Dec, Dec, Dec, Dec)>)
    requires
        daily.wf(),
        current.wf(),
        peak.wf(),
        mdd.wf(),
        cur.wf(),
    ensures
        r == revalued(daily, current, peak, mdd, fills@, *cur),
        r matches Some(x) ==> x.0.wf() && x.1.wf() && x.2.wf() && x.3.wf(),
{
    let realized = compute_day_pnl(fills, cur)?;
    let cur_bal = current.checked_add(&realized)?;
    let new_peak = if peak.lt(&cur_bal) {
        cur_bal
    } else {
        peak
    };
    if (Dec { mantissa: 0, scale: 1 }).lt(&new_peak) {
        let d = new_peak.checked_sub(&cur_bal)?;
        let m = d.checked_div(&new_peak)?;
        Some((realized, cur_bal, new_peak, m))
    } else {
        Some((realized, cur_bal, new_peak, mdd))
    }
}

impl RiskManager {
    /// The state a fill for `user` starts from: the user's state, or a fresh one.
    pub open spec fn base_exposure(&self, user: UserId) -> Dec {
        if self.user_states@.contains_key(user.0) {
            self.user_states@[user.0].total_exposure_usd
        } else {
            dec_lit(0, 1)
        }
    }

    pub open spec fn base_fills(&self, user: UserId) -> Seq<Fill> {
        if self.user_states@.contains_key(user.0) {
            self.user_states@[user.0].fills_today@
        } else {
            Seq::empty()
        }
    }

    /// Daily profit, balance, peak and drawdown a fill for `user` starts from.
    pub open spec fn base_amounts(&self, user: UserId) -> (Dec, Dec, Dec, Dec) {
        if self.user_states@.contains_key(user.0) {
            let s = self.user_states@[user.0];
            (s.daily_pnl_usd, s.current_balance_usd, s.peak_balance_usd, s.max_drawdown_pct)
        } else {
            (dec_lit(0, 1), dec_lit(0, 1), dec_lit(0, 1), dec_lit(0, 1))
        }
    }

    /// The new exposure and amounts after a fill for `user` at `price`;
    /// `None` where a decimal operation is refused.  A buy adds the fill's
    /// value `quantity * price` to the exposure, a sell takes it off; the
    /// day's fills (this one included) are then revalued at `price`.
    pub open spec fn fill_outcome(&self, user: UserId, fill: Fill, price: Dec) -> Option<
        (Dec, (Dec, Dec, Dec, Dec)),
    > {
        match decimal_mul(Dec::of_int(fill.quantity.0 as int), price) {
            None => None,
            Some(fv) => match if fill.aggressor == Side::Buy {
                decimal_add(self.base_exposure(user), fv)
            } else {
                decimal_sub(self.base_exposure(user), fv)
            } {
                None => None,
                Some(e) => {
                    let (d, c, p, m) = self.base_amounts(user);
                    match revalued(d, c, p, m, self.base_fills(user).push(fill), price) {
                        None => None,
                        Some(amounts) => Some((e, amounts)),
                    }
                },
            }
        }
    }

    /// Records a fill for `user` at `current_price`: the user's exposure,
    /// fills and profit are updated, and the global breaker is set once the
    /// day's profit is at or below minus the daily loss limit.  Returns
    /// `false`, changing nothing, where a decimal operation is refused.
    pub fn try_update_on_fill(&mut self, user_id: UserId, fill: &Fill, current_price: Dec) -> (ok:
        bool)
        requires
            old(self).wf(),
            current_price.wf(),
        ensures
            final(self).wf(),
            final(self).limits == old(self).limits,
            ok == old(self).fill_outcome(user_id, *fill, current_price) is Some,
            !ok ==> final(self).user_states@ == old(self).user_states@ && final(self).circuit_breaker
                == old(self).circuit_breaker,
            ok ==> ({
                let (e, (d, c, p, m)) = old(self).fill_outcome(user_id, *fill, current_price)->0;
                let s = final(self).user_states@[user_id.0];
                &&& final(self).user_states@.dom() == old(self).user_states@.dom().insert(user_id.0)
                &&& forall|k: u128|
                    k != user_id.0 && #[trigger] old(self).user_states@.contains_key(k)
                        ==> final(self).user_states@[k] == old(self).user_states@[k]
                &&& s.user_id == (if old(self).user_states@.contains_key(user_id.0) {
                    old(self).user_states@[user_id.0].user_id
                } else {
                    user_id
                })
                &&& s.total_exposure_usd == e
                &&& s.daily_pnl_usd == d
                &&& s.current_balance_usd == c
                &&& s.peak_balance_usd == p
                &&& s.max_drawdown_pct == m
                &&& s.fills_today@ == old(self).base_fills(user_id).push(*fill)
                &&& s.positions@ == (if old(self).user_states@.contains_key(user_id.0) {
                    old(self).user_states@[user_id.0].positions@
                } else {
                    Map::empty()
                })
                &&& final(self).circuit_breaker == (old(self).circuit_breaker || d.spec_le(
                    old(self).limits.max_daily_loss_usd.spec_neg(),
                ))
            }),
    {
        let ghost old_map = self.user_states@;
        let existed = self.user_states.remove(&user_id.0);
        let had = existed.is_some();
        let mut st = match existed {
            Some(s) => s,
            None => UserRiskState::fresh(user_id),
        };
        let qty = Dec::from_u64(fill.quantity.0);
        let fv = match qty.checked_mul(&current_price) {
            Some(v) => v,
            None => {
                if had {
                    self.user_states.insert(user_id.0, st);
                    assert(self.user_states@ =~= old_map);
                }
                return false;
            },
        };
        let e = if fill.aggressor == Side::Buy {
            st.total_exposure_usd.checked_add(&fv)
        } else {
            st.total_exposure_usd.checked_sub(&fv)
        };
        let e = match e {
            Some(e) => e,
            None => {
                if had {
                    self.user_states.insert(user_id.0, st);
                    assert(self.user_states@ =~= old_map);
                }
                return false;
            },
        };
        let mut fills_after = copy_fills(&st.fills_today);
        fills_after.push(fill.duplicate());
        let amounts = compute_revalued(
            st.daily_pnl_usd,
            st.current_balance_usd,
            st.peak_balance_usd,
            st.max_drawdown_pct,
            &fills_after,
            &current_price,
        );
        match amounts {
            Some((d, c, p, m)) => {
                st.total_exposure_usd = e;
                st.daily_pnl_usd = d;
                st.current_balance_usd = c;
                st.peak_balance_usd = p;
                st.max_drawdown_pct = m;
                st.fills_today.push(fill.duplicate());
                self.user_states.insert(user_id.0, st);
                if d.le(&self.limits.max_daily_loss_usd.neg()) {
                    self.circuit_breaker = true;
                }
                true
            },
            None => {
                if had {
                    self.user_states.insert(user_id.0, st);
                    assert(self.user_states@ =~= old_map);
                }
                false
            },
        }
    }

    /// Records a fill for `user` at `current_price`; see `try_update_on_fill`.
    pub fn update_on_fill(&mut self, user_id: UserId, fill: &Fill, current_price: Dec)
        requires
            old(self).wf(),
            current_price.wf(),
            old(self).fill_outcome(user_id, *fill, current_price) is Some,
        ensures
            final(self).wf(),
            final(self).limits == old(self).limits,
            ({
                let (e, (d, c, p, m)) = old(self).fill_outcome(user_id, *fill, current_price)->0;
                let s = final(self).user_states@[user_id.0];
                &&& final(self).user_states@.dom() == old(self).user_states@.dom().insert(user_id.0)
                &&& forall|k: u128|
                    k != user_id.0 && #[trigger] old(self).user_states@.contains_key(k)
                        ==> final(self).user_states@[k] == old(self).user_states@[k]
                &&& s.total_exposure_usd == e
                &&& s.daily_pnl_usd == d
                &&& s.current_balance_usd == c
                &&& s.peak_balance_usd == p
                &&& s.max_drawdown_pct == m
                &&& s.fills_today@ == old(self).base_fills(user_id).push(*fill)
                &&& final(self).circuit_breaker == (old(self).circuit_breaker || d.spec_le(
                    old(self).limits.max_daily_loss_usd.spec_neg(),
                ))
            }),
    {
        self.try_update_on_fill(user_id, fill, current_price);
    }
}

/// `after` is `before` with its daily figures reset: profit `0.0`, no fills,
/// peak brought down (or up) to the current balance; all else kept.
pub open spec fn daily_reset_of(after: UserRiskState, before: UserRiskState) -> bool {
    &&& after.user_id == before.user_id
    &&& after.daily_pnl_usd == dec_lit(0, 1)
    &&& after.fills_today@ == Seq::<Fill>::empty()
    &&& after.peak_balance_usd == before.current_balance_usd
    &&& after.current_balance_usd == before.current_balance_usd
    &&& after.total_exposure_usd == before.total_exposure_usd
    &&& after.max_drawdown_pct == before.max_drawdown_pct
    &&& after.positions@ == before.positions@
}

impl RiskManager {
    /// Starts a new trading day: every user's daily profit and fills are
    /// cleared, peaks are set to the current balances, and the global
    /// breaker is released.
    pub fn reset_daily_stats(&mut self)
        requires
            old(self).wf(),
        ensures
            final(self).wf(),
            final(self).limits == old(self).limits,
            !final(self).circuit_breaker,
            final(self).user_states@.dom() == old(self).user_states@.dom(),
            forall|k: u128| #[trigger]
                old(self).user_states@.contains_key(k) ==> daily_reset_of(
                    final(self).user_states@[k],
                    old(self).user_states@[k],
                ),
    {
        let ghost old_map = self.user_states@;
        let mut keys: Vec<u128> = Vec::new();
        for k in it: self.user_states.keys()
            invariant
                keys@.len() == it.index(),
                forall|i: int| 0 <= i < keys@.len() ==> keys@[i] == *it.seq()[i],
        {
            keys.push(*k);
        }
        proof {
            assert forall|k: u128| old_map.contains_key(k) implies #[trigger] keys@.contains(k) by {
                let ks = spec_keys_iter(&self.user_states).remaining();
                assert(ks.unref().to_set() == old_map.dom());
                assert(ks.unref().to_set().contains(k));
                let j = choose|j: int| 0 <= j < ks.unref().len() && ks.unref()[j] == k;
                assert(keys@[j] == k);
            }
            assert forall|j: int| 0 <= j < keys@.len() implies old_map.contains_key(
                #[trigger] keys@[j],
            ) by {
                let ks = spec_keys_iter(&self.user_states).remaining();
                assert(ks.unref().to_set() == old_map.dom());
                assert(ks.unref()[j] == keys@[j]);
                assert(ks.unref().contains(keys@[j]));
                assert(ks.unref().to_set().contains(keys@[j]));
            }
        }
        let mut i: usize = 0;
        while i < keys.len()
            invariant
                i <= keys.len(),
                self.limits == old(self).limits,
                self.limits.wf(),
                forall|k: u128| old_map.contains_key(k) ==> #[trigger] keys@.contains(k),
                forall|j: int| 0 <= j < keys@.len() ==> old_map.contains_key(#[trigger] keys@[j]),
                self.user_states@.dom() == old_map.dom(),
                forall|k: u128| #[trigger]
                    old_map.contains_key(k) ==> self.user_states@[k].wf(),
                forall|k: u128| #[trigger]
                    old_map.contains_key(k) ==> if keys@.take(i as int).contains(k) {
                        daily_reset_of(self.user_states@[k], old_map[k])
                    } else {
                        self.user_states@[k] == old_map[k]
                    },
            decreases keys.len() - i,
        {
            let k = keys[i];
            let ghost before = self.user_states@;
            let mut st = self.user_states.remove(&k).unwrap();
            st.daily_pnl_usd = Dec { mantissa: 0, scale: 1 };
            st.fills_today = Vec::new();
            st.peak_balance_usd = st.current_balance_usd;
            self.user_states.insert(k, st);
            proof {
                assert(keys@.take(i + 1) == keys@.take(i as int).push(k));
                assert forall|k2: u128| #[trigger]
                    old_map.contains_key(k2) implies if keys@.take(i + 1).contains(k2) {
                        daily_reset_of(self.user_states@[k2], old_map[k2])
                    } else {
                        self.user_states@[k2] == old_map[k2]
                    } by {
                    assert(keys@.take(i + 1)[i as int] == k);
                    if k2 == k {
                        if keys@.take(i as int).contains(k) {
                            assert(daily_reset_of(before[k], old_map[k]));
                        } else {
                            assert(before[k] == old_map[k]);
                        }
                    }
                    if k2 != k {
                        assert(self.user_states@[k2] == before[k2]);
                        if keys@.take(i + 1).contains(k2) {
                            let j = choose|j: int| 0 <= j < i + 1 && #[trigger] keys@.take(i + 1)[j] == k2;
                            assert(keys@.take(i as int)[j] == k2);
                        }
                    }
                }
                assert(self.user_states@.dom() =~= old_map.dom());
            }
            i = i + 1;
        }
        proof {
            assert(keys@.take(keys@.len() as int) == keys@);
        }
        self.circuit_breaker = false;
    }
}

/// While the global breaker is set, every order is refused with the
/// breaker's reason and the highest score.
pub proof fn law_breaker_refuses_all(m: RiskManager, user: UserId, order: Order, price: Dec)
    requires
        m.circuit_breaker,
    ensures
        m.order_verdict(user, order, price) == Some((false, Some(msg_breaker()), dec_lit(10, 1))),
{
}

/// An order from a user with no risk state, within the position limit, is
/// allowed with score `0.0`.
pub proof fn law_unknown_user_allowed(m: RiskManager, user: UserId, order: Order, price: Dec, v: Dec)
    requires
        !m.circuit_breaker,
        decimal_mul(Dec::of_int(order.quantity.0 as int), price) == Some(v),
        !m.limits.max_position_size_usd.spec_lt(v),
        !m.user_states@.contains_key(user.0),
    ensures
        m.order_verdict(user, order, price) == Some((true, None::<Seq<char>>, dec_lit(0, 1))),
{
}

/// The risk score never exceeds 1.0, and an allowed order's score never
/// exceeds 0.8.
pub proof fn law_score_bounds(m: RiskManager, user: UserId, order: Order, price: Dec)
    ensures
        m.order_verdict(user, order, price) matches Some(v) ==> v.2.spec_le(dec_lit(10, 1)),
        m.order_verdict(user, order, price) matches Some(v) ==> (v.0 ==> v.2.spec_le(dec_lit(8, 1))),
{
    assert(pow10(1) == 10) by {
        reveal_with_fuel(pow10, 2);
    }
    assert(pow10(0) == 1);
    if !m.circuit_breaker {
        match decimal_mul(Dec::of_int(order.quantity.0 as int), price) {
            Some(v) => {
                if !m.limits.max_position_size_usd.spec_lt(v) && m.user_states@.contains_key(user.0) {
                    let st = m.user_states@[user.0];
                    lemma_user_verdict_bounds(m.limits, st, order, v);
                }
            },
            None => {},
        }
    }
}

proof fn lemma_user_verdict_bounds(limits: RiskLimits, st: UserRiskState, order: Order, v: Dec)
    ensures
        user_verdict(limits, st, order, v) matches Some(x) ==> x.2.spec_le(dec_lit(10, 1)),
        user_verdict(limits, st, order, v) matches Some(x) ==> (x.0 ==> x.2.spec_le(dec_lit(8, 1))),
{
    assert(pow10(1) == 10) by {
        reveal_with_fuel(pow10, 2);
    }
    match risk_score_of(limits, st, v) {
        Some(s) => {
            lemma_score_capped(limits, st, v);
            crate::decimal::lemma_pow10_positive(s.scale as nat);
            if !dec_lit(8, 1).spec_lt(s) {
                assert(s.spec_le(dec_lit(8, 1)));
            }
        },
        None => {},
    }
}

proof fn lemma_score_capped(limits: RiskLimits, st: UserRiskState, v: Dec)
    ensures
        risk_score_of(limits, st, v) matches Some(s) ==> s.spec_le(dec_lit(10, 1)),
{
    match risk_score_of(limits, st, v) {
        Some(s) => {
            assert(pow10(1) == 10) by {
                reveal_with_fuel(pow10, 2);
            }
            crate::decimal::lemma_pow10_positive(s.scale as nat);
        },
        None => {},
    }
}


/// With the breaker off, an order worth more than the position limit
/// (quantity times price) is refused with the order-value reason and the
/// highest score, whether or not the user has a risk state: the order-size
/// limit is applied before any user state is read.
pub proof fn law_oversized_order_refused(m: RiskManager, user: UserId, order: Order, price: Dec, v: Dec)
    requires
        !m.circuit_breaker,
        decimal_mul(Dec::of_int(order.quantity.0 as int), price) == Some(v),
        m.limits.max_position_size_usd.spec_lt(v),
    ensures
        m.order_verdict(user, order, price) == Some(
            (false, Some(msg_order_value(v, m.limits.max_position_size_usd)), dec_lit(10, 1)),
        ),
        forall|other: UserId| #[trigger] m.order_verdict(other, order, price) == m.order_verdict(user, order, price),
{
}

/// The mean raw price of the fills with key `k` (their count, at least
/// one, dividing the sum of their prices).
pub open spec fn group_avg(fs: Seq<Fill>, k: (u128, Side)) -> Option<Dec> {
    match group_price_sum(fs, k) {
        None => None,
        Some(s) => decimal_div(s, Dec::of_int(if group_count(fs, k) > 1 { group_count(fs, k) } else { 1 })),
    }
}

/// A group's contribution to the day's profit takes the direction of its
/// side: for buys, (current price - average entry) times the group's
/// quantity; for sells, (average entry - current price) times the
/// quantity, the operands swapped.  So the buy and the sell group of a
/// market at the same average price are valued with opposite differences.
pub proof fn law_group_pnl_direction(fs: Seq<Fill>, market: u128, cur: Dec)
    ensures
        ({
            let kb = (market, Side::Buy);
            let ks = (market, Side::Sell);
            &&& group_avg(fs, kb) matches Some(a) ==> (group_qty(fs, kb) <= u64::MAX ==> group_pnl(fs, kb, cur)
                == match decimal_sub(cur, a) {
                Some(d) => decimal_mul(d, Dec::of_int(group_qty(fs, kb))),
                None => None,
            })
            &&& group_avg(fs, ks) matches Some(a) ==> (group_qty(fs, ks) <= u64::MAX ==> group_pnl(fs, ks, cur)
                == match decimal_sub(a, cur) {
                Some(d) => decimal_mul(d, Dec::of_int(group_qty(fs, ks))),
                None => None,
            })
            &&& group_avg(fs, kb) is None || group_qty(fs, kb) > u64::MAX ==> group_pnl(fs, kb, cur) is None
            &&& group_avg(fs, ks) is None || group_qty(fs, ks) > u64::MAX ==> group_pnl(fs, ks, cur) is None
        }),
{
}

/// The day's profit from a single fill `f` valued at `cur`: the fill's raw
/// price is the group's average entry, and the profit is (entry - current)
/// times the quantity for a sell, (current - entry) times the quantity for a
/// buy, added to zero.
pub proof fn law_single_fill_day_pnl(f: Fill, cur: Dec)
    ensures
        group_avg(seq![f], fill_key(f)) == match decimal_add(Dec::of_int(0), Dec::of_int(f.price.0 as int)) {
            Some(s) => decimal_div(s, Dec::of_int(1)),
            None => None,
        },
        day_pnl(seq![f], cur) == match group_avg(seq![f], fill_key(f)) {
            Some(entry) => match if f.aggressor == Side::Sell {
                decimal_sub(entry, cur)
            } else {
                decimal_sub(cur, entry)
            } {
                Some(d) => match decimal_mul(d, Dec::of_int(f.quantity.0 as int)) {
                    Some(p) => decimal_add(Dec::of_int(0), p),
                    None => None,
                },
                None => None,
            },
            None => None,
        },
{
    let fs = seq![f];
    let k = fill_key(f);
    assert(fs.drop_last() =~= Seq::<Fill>::empty());
    assert(fs.last() == f);
    assert(group_keys(Seq::<Fill>::empty()) =~= Seq::<(u128, Side)>::empty());
    assert(group_keys(fs) =~= seq![k]);
    let e = Seq::<Fill>::empty();
    assert(group_qty(e, k) == 0);
    assert(group_count(e, k) == 0);
    assert(group_price_sum(e, k) == Some(Dec::of_int(0)));
    assert(group_qty(fs, k) == group_qty(e, k) + f.quantity.0);
    assert(group_count(fs, k) == group_count(e, k) + 1);
    assert(group_price_sum(fs, k) == decimal_add(Dec::of_int(0), Dec::of_int(f.price.0 as int)));
    let ks = group_keys(fs);
    assert(ks.drop_last() =~= Seq::<(u128, Side)>::empty());
    assert(ks.last() == k);
    assert(f.aggressor == Side::Sell <==> k.1 != Side::Buy) by {
        match f.aggressor {
            Side::Buy => {},
            Side::Sell => {},
        }
    }
    assert(realized_over(fs, ks.drop_last(), cur) == Some(Dec::of_int(0)));
    let g = match group_avg(fs, k) {
        Some(entry) => match if k.1 == Side::Buy {
            decimal_sub(cur, entry)
        } else {
            decimal_sub(entry, cur)
        } {
            Some(d) => decimal_mul(d, Dec::of_int(f.quantity.0 as int)),
            None => None,
        },
        None => None,
    };
    assert(group_pnl(fs, k, cur) == g);
    assert(day_pnl(fs, cur) == realized_over(fs, ks, cur));
    assert(realized_over(fs, ks, cur) == match g {
        Some(p) => decimal_add(Dec::of_int(0), p),
        None => None,
    });
}
} // verus!
