//! Position monitoring: net position and entry lots per user and market,
//! with alerts for stale, oversized, drawn-down and concentrated positions.
//!
//! Decisions that compare floating-point ratios (drawdown and concentration
//! thresholds) are made by the caller and handed in as plain findings; all
//! integer bookkeeping is done here.
use crate::types::{FillId, UserId, MarketId, uuid_text, uuid_to_string};
use crate::clock::{whole_hours, hours_between};
use crate::text::{int_text, i64_text};
use vstd::prelude::*;

verus! {

/// Hours after which a position is reported as held too long.
pub const MAX_POSITION_AGE_HOURS: i64 = 24i64;

/// Net size beyond which a position is reported as unusual.
pub const UNUSUAL_SIZE: i64 = 1_000_000_000i64;

#[derive(Clone, Copy, Debug, PartialEq, Eq, Structural)]
pub enum AlertType {
    StopLoss,
    TakeProfit,
    MaxDrawdown,
    PositionExpired,
    UnusualSize,
    ConcentrationRisk,
}

#[derive(Clone, Copy, Debug, PartialEq, Eq, Structural)]
pub enum AlertSeverity {
    Info,
    Warning,
    Critical,
}

#[derive(Clone, Debug)]
pub struct PositionAlert {
    pub user_id: String,
    pub market_id: String,
    pub alert_type: AlertType,
    pub message: String,
    pub severity: AlertSeverity,
    pub position_size: i64,
    pub unrealized_pnl: Option<i64>,
    pub entry_price: Option<u32>,
    pub current_price: Option<u32>,
    pub timestamp: i64,
}

/// The plain contents of an alert.
pub struct AlertView {
    pub user_id: Seq<char>,
    pub market_id: Seq<char>,
    pub alert_type: AlertType,
    pub message: Seq<char>,
    pub severity: AlertSeverity,
    pub position_size: i64,
    pub unrealized_pnl: Option<i64>,
    pub entry_price: Option<u32>,
    pub current_price: Option<u32>,
    pub timestamp: i64,
}

impl PositionAlert {
    pub open spec fn view(&self) -> AlertView {
        AlertView {
            user_id: self.user_id@,
            market_id: self.market_id@,
            alert_type: self.alert_type,
            message: self.message@,
            severity: self.severity,
            position_size: self.position_size,
            unrealized_pnl: self.unrealized_pnl,
            entry_price: self.entry_price,
            current_price: self.current_price,
            timestamp: self.timestamp,
        }
    }
}

/// The caller's reading of a position's drawdown from its peak value.
#[derive(Clone, Debug)]
pub enum DrawdownFinding {
    /// Beyond the maximum loss, with the alert's message.
    Critical(String),
    /// Beyond the warning level, with the alert's message.
    Warning(String),
    /// Within limits.
    Clear,
}


/// Net position and entry lots `(price, quantity)` of one user in one market.
#[derive(Clone, Debug)]
pub struct PositionData {
    pub net_quantity: i64,
    pub entry_prices: Vec<(u32, u64)>,
    pub last_fill_time: i64,
    pub max_observed_value: i64,
    pub current_value: i64,
}

pub struct PositionEntry {
    pub user: UserId,
    pub market: MarketId,
    pub data: PositionData,
}

/// The plain contents of a position.
pub type PositionState = (i64, Seq<(u32, u64)>, i64, i64, i64);

impl PositionData {
    pub open spec fn state(&self) -> PositionState {
        (
            self.net_quantity,
            self.entry_prices@,
            self.last_fill_time,
            self.max_observed_value,
            self.current_value,
        )
    }
}

/// `q` reinterpreted as a signed 64-bit integer (`q as i64`).
pub open spec fn as_signed(q: u64) -> int {
    if q <= i64::MAX {
        q as int
    } else {
        q - 0x1_0000_0000_0000_0000int
    }
}

/// Total quantity of the lots.
pub open spec fn lots_total(es: Seq<(u32, u64)>) -> int
    decreases es.len(),
{
    if es.len() == 0 {
        0
    } else {
        lots_total(es.drop_last()) + es.last().1
    }
}

/// Removing `rem` from the lots in order, as a `retain` pass: a lot is
/// dropped when it is used up entirely; a lot used in part is kept whole.
pub open spec fn retain_after_removal(es: Seq<(u32, u64)>, rem: u64) -> Seq<(u32, u64)>
    decreases es.len(),
{
    if es.len() == 0 {
        Seq::empty()
    } else if rem == 0 {
        seq![es[0]] + retain_after_removal(es.drop_first(), rem)
    } else {
        let q = es[0].1;
        let used: u64 = if q < rem {
            q
        } else {
            rem
        };
        (if used < q {
            seq![es[0]]
        } else {
            Seq::empty()
        }) + retain_after_removal(es.drop_first(), (rem - used) as u64)
    }
}

/// A position after a fill of `quantity` at `price` on `side` (positive for
/// a buy) at time `now`; `None` where a step overflows 64 bits.
pub open spec fn position_after_fill(
    st: PositionState,
    price: u32,
    quantity: u64,
    side: i64,
    now: i64,
) -> Option<PositionState> {
    let (net, es, _last, max_v, _cur) = st;
    let signed = as_signed(quantity);
    if side <= 0 && signed == i64::MIN {
        None
    } else {
        let delta = if side > 0 {
            signed
        } else {
            -signed
        };
        let net2 = net + delta;
        if net2 < i64::MIN || net2 > i64::MAX {
            None
        } else {
            let es2 = if delta > 0 {
                Some(es.push((price, quantity)))
            } else if lots_total(es) > u64::MAX {
                None
            } else {
                let to_remove: u64 = if (quantity as int) < lots_total(es) {
                    quantity
                } else {
                    lots_total(es) as u64
                };
                Some(retain_after_removal(es, to_remove))
            };
            match es2 {
                None => None,
                Some(es2) => {
                    let cur = net2 * price;
                    if cur < i64::MIN || cur > i64::MAX {
                        None
                    } else {
                        let max2 = if max_v >= cur {
                            max_v as int
                        } else {
                            cur
                        };
                        Some((net2 as i64, es2, now, max2 as i64, cur as i64))
                    }
                },
            }
        }
    }
}

/// The alert of a position held too long, if it is.
pub open spec fn expiry_alert(u: UserId, m: MarketId, st: PositionState, now: i64) -> Option<AlertView> {
    let hours = whole_hours(now - st.2);
    if hours > MAX_POSITION_AGE_HOURS {
        Some(
            AlertView {
                user_id: uuid_text(u.0),
                market_id: uuid_text(m.0),
                alert_type: AlertType::PositionExpired,
                message: "Position held for "@ + int_text(hours) + " hours"@,
                severity: AlertSeverity::Warning,
                position_size: st.0,
                unrealized_pnl: None,
                entry_price: if st.1.len() > 0 {
                    Some(st.1[0].0)
                } else {
                    None
                },
                current_price: None,
                timestamp: now,
            },
        )
    } else {
        None
    }
}

/// The alert of an unusually large position, if it is.
pub open spec fn size_alert(u: UserId, m: MarketId, st: PositionState, now: i64) -> Option<AlertView> {
    let size = if st.0 < 0 {
        -st.0
    } else {
        st.0 as int
    };
    if size > UNUSUAL_SIZE {
        Some(
            AlertView {
                user_id: uuid_text(u.0),
                market_id: uuid_text(m.0),
                alert_type: AlertType::UnusualSize,
                message: "Position size "@ + int_text(st.0 as int) + " exceeds threshold"@,
                severity: AlertSeverity::Warning,
                position_size: st.0,
                unrealized_pnl: None,
                entry_price: None,
                current_price: None,
                timestamp: now,
            },
        )
    } else {
        None
    }
}

/// The drawdown alert given the caller's finding, for a position with a
/// positive peak value.
pub open spec fn drawdown_alert(
    u: UserId,
    m: MarketId,
    st: PositionState,
    now: i64,
    finding: DrawdownFinding,
) -> Option<AlertView> {
    if st.3 <= 0 {
        None
    } else {
        match finding {
            DrawdownFinding::Critical(msg) => Some(
                AlertView {
                    user_id: uuid_text(u.0),
                    market_id: uuid_text(m.0),
                    alert_type: AlertType::MaxDrawdown,
                    message: msg@,
                    severity: AlertSeverity::Critical,
                    position_size: st.0,
                    unrealized_pnl: Some(st.4.wrapping_sub(st.3)),
                    entry_price: None,
                    current_price: None,
                    timestamp: now,
                },
            ),
            DrawdownFinding::Warning(msg) => Some(
                AlertView {
                    user_id: uuid_text(u.0),
                    market_id: uuid_text(m.0),
                    alert_type: AlertType::MaxDrawdown,
                    message: msg@,
                    severity: AlertSeverity::Warning,
                    position_size: st.0,
                    unrealized_pnl: Some(st.4.wrapping_sub(st.3)),
                    entry_price: None,
                    current_price: None,
                    timestamp: now,
                },
            ),
            DrawdownFinding::Clear => None,
        }
    }
}

pub open spec fn opt_seq(a: Option<AlertView>) -> Seq<AlertView> {
    match a {
        Some(x) => seq![x],
        None => Seq::empty(),
    }
}

/// The alerts of one position, in the order: held too long, unusual size,
/// drawdown.
pub open spec fn alerts_for(
    u: UserId,
    m: MarketId,
    st: PositionState,
    now: i64,
    finding: DrawdownFinding,
) -> Seq<AlertView> {
    opt_seq(expiry_alert(u, m, st, now)) + opt_seq(size_alert(u, m, st, now)) + opt_seq(
        drawdown_alert(u, m, st, now, finding),
    )
}

pub open spec fn views_of(v: Seq<PositionAlert>) -> Seq<AlertView> {
    v.map_values(|a: PositionAlert| a.view())
}

/// The alerts of positions `0..n`, one position after another.
pub open spec fn alerts_upto(
    entries: Seq<PositionEntry>,
    findings: Seq<DrawdownFinding>,
    now: i64,
    n: int,
) -> Seq<AlertView>
    decreases n,
{
    if n <= 0 {
        Seq::empty()
    } else {
        alerts_upto(entries, findings, now, n - 1) + alerts_for(
            entries[n - 1].user,
            entries[n - 1].market,
            entries[n - 1].data.state(),
            now,
            findings[n - 1],
        )
    }
}

/// The sum over the lots of price times quantity.
pub open spec fn weighted_sum(es: Seq<(u32, u64)>) -> int
    decreases es.len(),
{
    if es.len() == 0 {
        0
    } else {
        weighted_sum(es.drop_last()) + es.last().0 * es.last().1
    }
}

/// The profit of a position at `price` against the quantity-weighted
/// average price of its lots (truncated to a whole price); `None` without
/// lots or where a step overflows 64 bits.
pub open spec fn unrealized_of(st: PositionState, price: u32) -> Option<i64> {
    let es = st.1;
    if es.len() == 0 {
        None
    } else if lots_total(es) > u64::MAX || weighted_sum(es) > u64::MAX {
        None
    } else {
        let total = lots_total(es);
        let avg: u32 = if total > 0 {
            ((weighted_sum(es) / total) % 0x1_0000_0000) as u32
        } else {
            0
        };
        let pnl = (price - avg) * st.0;
        if pnl < i64::MIN || pnl > i64::MAX {
            None
        } else {
            Some(pnl as i64)
        }
    }
}

/// No user and market appears twice.
pub open spec fn keys_unique(ps: Seq<PositionEntry>) -> bool {
    forall|i: int, j: int|
        0 <= i < j < ps.len() ==> !(#[trigger] ps[i].user == #[trigger] ps[j].user && ps[i].market
            == ps[j].market)
}

/// The position of a user in a market among the entries, if any.
#[verifier::opaque]
pub open spec fn state_in(ps: Seq<PositionEntry>, u: UserId, m: MarketId) -> Option<PositionState> {
    if exists|i: int| 0 <= i < ps.len() && ps[i].user == u && ps[i].market == m {
        let i = choose|i: int| 0 <= i < ps.len() && ps[i].user == u && ps[i].market == m;
        Some(ps[i].data.state())
    } else {
        None
    }
}

pub proof fn lemma_state_in_at(ps: Seq<PositionEntry>, i: int)
    requires
        keys_unique(ps),
        0 <= i < ps.len(),
    ensures
        state_in(ps, ps[i].user, ps[i].market) == Some(ps[i].data.state()),
{
    reveal(state_in);
    let u = ps[i].user;
    let m = ps[i].market;
    let k = choose|k: int| 0 <= k < ps.len() && ps[k].user == u && ps[k].market == m;
    if k != i {
        if k < i {
            assert(!(ps[k].user == ps[i].user && ps[k].market == ps[i].market));
        } else {
            assert(!(ps[i].user == ps[k].user && ps[i].market == ps[k].market));
        }
    }
}

pub proof fn lemma_state_in_absent(ps: Seq<PositionEntry>, u: UserId, m: MarketId)
    requires
        forall|i: int| 0 <= i < ps.len() ==> !(#[trigger] ps[i].user == u && ps[i].market == m),
    ensures
        state_in(ps, u, m) is None,
{
    reveal(state_in);
}

proof fn lemma_state_in_other(ps: Seq<PositionEntry>, ps2: Seq<PositionEntry>, u: UserId, m: MarketId)
    requires
        keys_unique(ps),
        keys_unique(ps2),
        forall|i: int| 0 <= i < ps.len() && #[trigger] ps[i].user == u && ps[i].market == m ==> exists|j: int|
            0 <= j < ps2.len() && #[trigger] ps2[j] == ps[i],
        forall|j: int| 0 <= j < ps2.len() && #[trigger] ps2[j].user == u && ps2[j].market == m ==> exists|i: int|
            0 <= i < ps.len() && #[trigger] ps[i] == ps2[j],
    ensures
        state_in(ps2, u, m) == state_in(ps, u, m),
{
    if exists|i: int| 0 <= i < ps.len() && #[trigger] ps[i].user == u && ps[i].market == m {
        let i = choose|i: int| 0 <= i < ps.len() && #[trigger] ps[i].user == u && ps[i].market == m;
        let j = choose|j: int| 0 <= j < ps2.len() && #[trigger] ps2[j] == ps[i];
        lemma_state_in_at(ps, i);
        lemma_state_in_at(ps2, j);
    } else {
        assert forall|j: int| 0 <= j < ps2.len() implies !(#[trigger] ps2[j].user == u && ps2[j].market == m) by {
            if ps2[j].user == u && ps2[j].market == m {
                let i = choose|i: int| 0 <= i < ps.len() && #[trigger] ps[i] == ps2[j];
                assert(ps[i].user == u && ps[i].market == m);
            }
        }
        lemma_state_in_absent(ps, u, m);
        lemma_state_in_absent(ps2, u, m);
    }
}

pub struct PositionMonitor {
    /// Positions in order of first fill; each user and market appears once.
    pub positions: Vec<PositionEntry>,
}

impl PositionMonitor {
    /// No user and market appears twice, and no position kept is flat.
    pub open spec fn inv(&self) -> bool {
        &&& keys_unique(self.positions@)
        &&& forall|i: int| 0 <= i < self.positions@.len() ==> #[trigger] self.positions@[i].data.net_quantity != 0
    }

    /// The position of a user in a market, if any.
    pub open spec fn state_of(&self, u: UserId, m: MarketId) -> Option<PositionState> {
        state_in(self.positions@, u, m)
    }

    pub fn new() -> (r: PositionMonitor)
        ensures
            r.inv(),
            r.positions@.len() == 0,
    {
        PositionMonitor { positions: Vec::new() }
    }

    fn find(&self, u: UserId, m: MarketId) -> (r: Option<usize>)
        requires
            self.inv(),
        ensures
            match r {
                Some(i) => i < self.positions@.len() && self.positions@[i as int].user == u
                    && self.positions@[i as int].market == m,
                None => forall|i: int|
                    0 <= i < self.positions@.len() ==> !(self.positions@[i].user == u
                        && self.positions@[i].market == m),
            },
    {
        let mut i: usize = 0;
        while i < self.positions.len()
            invariant
                i <= self.positions@.len(),
                forall|j: int|
                    0 <= j < i ==> !(self.positions@[j].user == u && self.positions@[j].market == m),
            decreases self.positions.len() - i,
        {
            if self.positions[i].user == u && self.positions[i].market == m {
                return Some(i);
            }
            i = i + 1;
        }
        None
    }

    /// The position of a user in a market, if any.
    pub fn get(&self, u: UserId, m: MarketId) -> (r: Option<&PositionData>)
        requires
            self.inv(),
        ensures
            match r {
                Some(d) => self.state_of(u, m) == Some(d.state()),
                None => self.state_of(u, m) is None,
            },
    {
        match self.find(u, m) {
            Some(i) => {
                proof {
                    self.lemma_state_at(u, m, i as int);
                }
                Some(&self.positions[i].data)
            },
            None => {
                proof {
                    lemma_state_in_absent(self.positions@, u, m);
                }
                None
            },
        }
    }

    proof fn lemma_state_at(&self, u: UserId, m: MarketId, i: int)
        requires
            self.inv(),
            0 <= i < self.positions@.len(),
            self.positions@[i].user == u,
            self.positions@[i].market == m,
        ensures
            self.state_of(u, m) == Some(self.positions@[i].data.state()),
    {
        lemma_state_in_at(self.positions@, i);
    }

    proof fn lemma_removed(&self, old_pos: Seq<PositionEntry>, i: int, u: UserId, m: MarketId)
        requires
            keys_unique(old_pos),
            0 <= i < old_pos.len(),
            old_pos[i].user == u,
            old_pos[i].market == m,
            self.positions@ == old_pos.remove(i),
        ensures
            keys_unique(self.positions@),
            self.state_of(u, m) is None,
            forall|u2: UserId, m2: MarketId| #![trigger self.state_of(u2, m2)]
                !(u2 == u && m2 == m) ==> self.state_of(u2, m2) == state_in(old_pos, u2, m2),
    {
        let ps2 = self.positions@;
        assert forall|a: int, b: int| 0 <= a < b < ps2.len() implies !(#[trigger] ps2[a].user
            == #[trigger] ps2[b].user && ps2[a].market == ps2[b].market) by {
            let a0 = if a < i { a } else { a + 1 };
            let b0 = if b < i { b } else { b + 1 };
            assert(ps2[a] == old_pos[a0]);
            assert(ps2[b] == old_pos[b0]);
        }
        assert forall|j: int| 0 <= j < ps2.len() implies !(ps2[j].user == u && ps2[j].market == m) by {
            let j0 = if j < i { j } else { j + 1 };
            assert(ps2[j] == old_pos[j0]);
            if j0 < i {
                assert(!(old_pos[j0].user == old_pos[i].user && old_pos[j0].market == old_pos[i].market));
            } else {
                assert(!(old_pos[i].user == old_pos[j0].user && old_pos[i].market == old_pos[j0].market));
            }
        }
        lemma_state_in_absent(ps2, u, m);
        assert forall|u2: UserId, m2: MarketId| #![trigger self.state_of(u2, m2)]
            !(u2 == u && m2 == m) implies self.state_of(u2, m2) == state_in(old_pos, u2, m2) by {
            assert forall|k: int| 0 <= k < old_pos.len() && old_pos[k].user == u2 && old_pos[k].market == m2
                implies exists|j: int| 0 <= j < ps2.len() && #[trigger] ps2[j] == old_pos[k] by {
                if k < i {
                    assert(ps2[k] == old_pos[k]);
                } else {
                    assert(k != i);
                    assert(ps2[k - 1] == old_pos[k]);
                }
            }
            assert forall|j: int| 0 <= j < ps2.len() && ps2[j].user == u2 && ps2[j].market == m2
                implies exists|k: int| 0 <= k < old_pos.len() && #[trigger] old_pos[k] == ps2[j] by {
                let j0 = if j < i { j } else { j + 1 };
                assert(ps2[j] == old_pos[j0]);
            }
            lemma_state_in_other(old_pos, ps2, u2, m2);
        }
    }

    proof fn lemma_replaced(&self, old_pos: Seq<PositionEntry>, i: int, u: UserId, m: MarketId)
        requires
            keys_unique(old_pos),
            0 <= i < old_pos.len(),
            old_pos[i].user == u,
            old_pos[i].market == m,
            self.positions@.len() == old_pos.len(),
            self.positions@[i].user == u,
            self.positions@[i].market == m,
            forall|j: int| 0 <= j < old_pos.len() && j != i ==> self.positions@[j] == old_pos[j],
        ensures
            keys_unique(self.positions@),
            self.state_of(u, m) == Some(self.positions@[i].data.state()),
            forall|u2: UserId, m2: MarketId| #![trigger self.state_of(u2, m2)]
                !(u2 == u && m2 == m) ==> self.state_of(u2, m2) == state_in(old_pos, u2, m2),
    {
        let ps2 = self.positions@;
        assert forall|a: int, b: int| 0 <= a < b < ps2.len() implies !(#[trigger] ps2[a].user
            == #[trigger] ps2[b].user && ps2[a].market == ps2[b].market) by {
            if a != i && b != i {
                assert(ps2[a] == old_pos[a] && ps2[b] == old_pos[b]);
            } else if a == i {
                assert(ps2[b] == old_pos[b]);
                assert(!(old_pos[a].user == old_pos[b].user && old_pos[a].market == old_pos[b].market));
            } else {
                assert(ps2[a] == old_pos[a]);
                assert(!(old_pos[a].user == old_pos[b].user && old_pos[a].market == old_pos[b].market));
            }
        }
        lemma_state_in_at(ps2, i);
        assert forall|u2: UserId, m2: MarketId| #![trigger self.state_of(u2, m2)]
            !(u2 == u && m2 == m) implies self.state_of(u2, m2) == state_in(old_pos, u2, m2) by {
            assert forall|k: int| 0 <= k < old_pos.len() && old_pos[k].user == u2 && old_pos[k].market == m2
                implies exists|j: int| 0 <= j < ps2.len() && #[trigger] ps2[j] == old_pos[k] by {
                assert(k != i);
                assert(ps2[k] == old_pos[k]);
            }
            assert forall|j: int| 0 <= j < ps2.len() && ps2[j].user == u2 && ps2[j].market == m2
                implies exists|k: int| 0 <= k < old_pos.len() && #[trigger] old_pos[k] == ps2[j] by {
                assert(j != i);
                assert(ps2[j] == old_pos[j]);
            }
            lemma_state_in_other(old_pos, ps2, u2, m2);
        }
    }

    proof fn lemma_pushed(&self, old_pos: Seq<PositionEntry>, u: UserId, m: MarketId)
        requires
            keys_unique(old_pos),
            forall|j: int| 0 <= j < old_pos.len() ==> !(old_pos[j].user == u && old_pos[j].market == m),
            self.positions@.len() == old_pos.len() + 1,
            self.positions@.last().user == u,
            self.positions@.last().market == m,
            forall|j: int| 0 <= j < old_pos.len() ==> self.positions@[j] == old_pos[j],
        ensures
            keys_unique(self.positions@),
            self.state_of(u, m) == Some(self.positions@.last().data.state()),
            forall|u2: UserId, m2: MarketId| #![trigger self.state_of(u2, m2)]
                !(u2 == u && m2 == m) ==> self.state_of(u2, m2) == state_in(old_pos, u2, m2),
    {
        let ps2 = self.positions@;
        let n = old_pos.len() as int;
        assert forall|a: int, b: int| 0 <= a < b < ps2.len() implies !(#[trigger] ps2[a].user
            == #[trigger] ps2[b].user && ps2[a].market == ps2[b].market) by {
            assert(ps2[a] == old_pos[a]);
            if b < n {
                assert(ps2[b] == old_pos[b]);
            }
        }
        lemma_state_in_at(ps2, n);
        assert forall|u2: UserId, m2: MarketId| #![trigger self.state_of(u2, m2)]
            !(u2 == u && m2 == m) implies self.state_of(u2, m2) == state_in(old_pos, u2, m2) by {
            assert forall|k: int| 0 <= k < old_pos.len() && old_pos[k].user == u2 && old_pos[k].market == m2
                implies exists|j: int| 0 <= j < ps2.len() && #[trigger] ps2[j] == old_pos[k] by {
                assert(ps2[k] == old_pos[k]);
            }
            assert forall|j: int| 0 <= j < ps2.len() && ps2[j].user == u2 && ps2[j].market == m2
                implies exists|k: int| 0 <= k < old_pos.len() && #[trigger] old_pos[k] == ps2[j] by {
                assert(j != n);
                assert(ps2[j] == old_pos[j]);
            }
            lemma_state_in_other(old_pos, ps2, u2, m2);
        }
    }
}

/// Total quantity of the lots, where it fits in 64 bits.
fn total_lots(es: &Vec<(u32, u64)>) -> (r: Option<u64>)
    ensures
        match r {
            Some(t) => t == lots_total(es@),
            None => lots_total(es@) > u64::MAX,
        },
{
    let mut t: u128 = 0;
    let mut i: usize = 0;
    while i < es.len()
        invariant
            i <= es.len(),
            t == lots_total(es@.take(i as int)),
            t <= i * (u64::MAX as int),
        decreases es.len() - i,
    {
        assert(es@.take(i + 1).drop_last() == es@.take(i as int));
        t = t + es[i].1 as u128;
        i = i + 1;
    }
    assert(es@.take(es.len() as int) == es@);
    if t > u64::MAX as u128 {
        None
    } else {
        Some(t as u64)
    }
}

/// The lots after removing `rem` in order; see `retain_after_removal`.
fn remove_in_order(es: &Vec<(u32, u64)>, rem: u64) -> (r: Vec<(u32, u64)>)
    ensures
        r@ == retain_after_removal(es@, rem),
{
    let mut kept: Vec<(u32, u64)> = Vec::new();
    let mut remaining = rem;
    let mut i: usize = 0;
    proof {
        assert(es@.skip(0) =~= es@);
        assert forall|rr: Seq<(u32, u64)>| kept@ + rr =~= rr by {}
    }
    while i < es.len()
        invariant
            i <= es.len(),
            retain_after_removal(es@, rem) == kept@ + retain_after_removal(es@.skip(i as int), remaining),
        decreases es.len() - i,
    {
        let e = es[i];
        let ghost tail = es@.skip(i as int);
        assert(tail[0] == e);
        assert(tail.drop_first() == es@.skip(i + 1));
        if remaining == 0 {
            kept.push(e);
            assert(kept@.drop_last() + (seq![e] + retain_after_removal(es@.skip(i + 1), remaining)) =~= kept@ + retain_after_removal(es@.skip(i + 1), remaining));
        } else {
            let used: u64 = if e.1 < remaining { e.1 } else { remaining };
            if used < e.1 {
                kept.push(e);
                assert(kept@.drop_last() + (seq![e] + retain_after_removal(es@.skip(i + 1), (remaining - used) as u64)) =~= kept@ + retain_after_removal(es@.skip(i + 1), (remaining - used) as u64));
            } else {
                assert(kept@ + (Seq::<(u32, u64)>::empty() + retain_after_removal(es@.skip(i + 1), (remaining - used) as u64)) =~= kept@ + retain_after_removal(es@.skip(i + 1), (remaining - used) as u64));
            }
            remaining = remaining - used;
        }
        i = i + 1;
    }
    assert(es@.skip(es.len() as int) =~= Seq::<(u32, u64)>::empty());
    assert(kept@ + Seq::<(u32, u64)>::empty() =~= kept@);
    kept
}

/// A copy of the lots.
fn copy_entries(es: &Vec<(u32, u64)>) -> (r: Vec<(u32, u64)>)
    ensures
        r@ == es@,
{
    let mut r: Vec<(u32, u64)> = Vec::new();
    let mut i: usize = 0;
    while i < es.len()
        invariant
            i <= es.len(),
            r@ == es@.take(i as int),
        decreases es.len() - i,
    {
        r.push(es[i]);
        assert(r@ =~= es@.take(i + 1));
        i = i + 1;
    }
    assert(es@.take(es.len() as int) == es@);
    r
}

/// A position after a fill; see `position_after_fill`.
fn compute_after_fill(st: &PositionData, price: u32, quantity: u64, side: i64, now: i64) -> (r: Option<PositionData>)
    ensures
        match r {
            Some(d) => position_after_fill(st.state(), price, quantity, side, now) == Some(d.state()),
            None => position_after_fill(st.state(), price, quantity, side, now) is None,
        },
{
    let signed: i64 = quantity as i64;
    assert(signed == as_signed(quantity)) by (bit_vector)
        requires signed == quantity as i64;
    if side <= 0 && signed == i64::MIN {
        return None;
    }
    let delta: i64 = if side > 0 { signed } else { -signed };
    let net2: i64 = match st.net_quantity.checked_add(delta) {
        Some(n) => n,
        None => { return None; },
    };
    let es2 = if delta > 0 {
        let mut v = copy_entries(&st.entry_prices);
        v.push((price, quantity));
        v
    } else {
        let total = match total_lots(&st.entry_prices) {
            Some(t) => t,
            None => { return None; },
        };
        let to_remove: u64 = if quantity < total { quantity } else { total };
        remove_in_order(&st.entry_prices, to_remove)
    };
    let cur: i64 = match net2.checked_mul(price as i64) {
        Some(c) => c,
        None => { return None; },
    };
    let max2: i64 = if st.max_observed_value >= cur { st.max_observed_value } else { cur };
    Some(PositionData {
        net_quantity: net2,
        entry_prices: es2,
        last_fill_time: now,
        max_observed_value: max2,
        current_value: cur,
    })
}

impl PositionMonitor {
    /// The position a fill starts from: the current one, or an empty one.
    pub open spec fn base_state(&self, u: UserId, m: MarketId, now: i64) -> PositionState {
        match self.state_of(u, m) {
            Some(st) => st,
            None => (0i64, Seq::empty(), now, 0i64, 0i64),
        }
    }

    /// What recording a fill at time `now` does; see `try_update_position_at`.
    pub open spec fn position_updated(
        before: PositionMonitor,
        after: PositionMonitor,
        u: UserId,
        m: MarketId,
        price: u32,
        quantity: u64,
        side: i64,
        now: i64,
        ok: bool,
    ) -> bool {
        &&& ok == position_after_fill(before.base_state(u, m, now), price, quantity, side, now) is Some
        &&& !ok ==> after.positions@ == before.positions@
        &&& ok ==> ({
            let st = position_after_fill(before.base_state(u, m, now), price, quantity, side, now).unwrap();
            &&& st.0 == 0 ==> after.state_of(u, m) is None
            &&& st.0 != 0 ==> after.state_of(u, m) == Some(st)
        })
        &&& ok ==> forall|u2: UserId, m2: MarketId| #![trigger after.state_of(u2, m2)]
            !(u2 == u && m2 == m) ==> after.state_of(u2, m2) == before.state_of(u2, m2)
    }

    /// Records a fill of `quantity` at `price` for user `u` in market `m`
    /// at time `now`; `side > 0` is a buy.  A buy adds an entry lot; a sell
    /// removes up to `quantity` from the lots in order (a partly used lot is
    /// kept whole).  The value is recomputed at `price`, the peak value
    /// raised, and a position whose net size reaches zero is dropped.
    /// Returns `false`, changing nothing, where the arithmetic overflows.
    pub fn try_update_position_at(
        &mut self,
        u: UserId,
        m: MarketId,
        price: u32,
        quantity: u64,
        side: i64,
        now: i64,
    ) -> (ok: bool)
        requires
            old(self).inv(),
        ensures
            final(self).inv(),
            PositionMonitor::position_updated(*old(self), *final(self), u, m, price, quantity, side, now, ok),
            ok == position_after_fill(old(self).base_state(u, m, now), price, quantity, side, now) is Some,
            !ok ==> final(self).positions@ == old(self).positions@,
            ok ==> ({
                let st = position_after_fill(old(self).base_state(u, m, now), price, quantity, side, now).unwrap();
                &&& st.0 == 0 ==> final(self).state_of(u, m) is None
                &&& st.0 != 0 ==> final(self).state_of(u, m) == Some(st)
            }),
            ok ==> forall|u2: UserId, m2: MarketId| #![trigger final(self).state_of(u2, m2)]
                !(u2 == u && m2 == m) ==> final(self).state_of(u2, m2) == old(self).state_of(u2, m2),
    {
        let found = self.find(u, m);
        let base = match found {
            Some(i) => {
                proof { self.lemma_state_at(u, m, i as int); }
                let d = &self.positions[i].data;
                PositionData {
                    net_quantity: d.net_quantity,
                    entry_prices: copy_entries(&d.entry_prices),
                    last_fill_time: d.last_fill_time,
                    max_observed_value: d.max_observed_value,
                    current_value: d.current_value,
                }
            },
            None => {
                proof {
                    lemma_state_in_absent(self.positions@, u, m);
                }
                PositionData {
                    net_quantity: 0,
                    entry_prices: Vec::new(),
                    last_fill_time: now,
                    max_observed_value: 0,
                    current_value: 0,
                }
            },
        };
        assert(base.state() == old(self).base_state(u, m, now));
        let nd = match compute_after_fill(&base, price, quantity, side, now) {
            Some(d) => d,
            None => { return false; },
        };
        let ghost old_pos = self.positions@;
        match found {
            Some(i) => {
                if nd.net_quantity == 0 {
                    self.positions.remove(i);
                    proof {
                        self.lemma_removed(old_pos, i as int, u, m);
                        assert forall|j: int| 0 <= j < self.positions@.len() implies #[trigger] self.positions@[j].data.net_quantity != 0 by {
                            let j0 = if j < i { j } else { j + 1 };
                            assert(self.positions@[j] == old_pos[j0]);
                        }
                    }
                } else {
                    self.positions.set(i, PositionEntry { user: u, market: m, data: nd });
                    proof {
                        self.lemma_replaced(old_pos, i as int, u, m);
                        assert forall|j: int| 0 <= j < self.positions@.len() implies #[trigger] self.positions@[j].data.net_quantity != 0 by {
                            if j != i {
                                assert(self.positions@[j] == old_pos[j]);
                            }
                        }
                    }
                }
            },
            None => {
                if nd.net_quantity != 0 {
                    self.positions.push(PositionEntry { user: u, market: m, data: nd });
                    proof {
                        self.lemma_pushed(old_pos, u, m);
                        assert forall|j: int| 0 <= j < self.positions@.len() implies #[trigger] self.positions@[j].data.net_quantity != 0 by {
                            if j < old_pos.len() {
                                assert(self.positions@[j] == old_pos[j]);
                            }
                        }
                    }
                } else {
                    assert(self.positions@ == old_pos);
                }
            },
        }
        true
    }
}


fn expiry_alert_of(u: UserId, m: MarketId, d: &PositionData, now: i64) -> (r: Option<PositionAlert>)
    ensures
        match r {
            Some(a) => expiry_alert(u, m, d.state(), now) == Some(a.view()),
            None => expiry_alert(u, m, d.state(), now) is None,
        },
{
    let hours = hours_between(d.last_fill_time, now);
    if hours > MAX_POSITION_AGE_HOURS {
        let mut s = String::from_str("Position held for ");
        s.append(i64_text(hours).as_str());
        s.append(" hours");
        let entry_price = if d.entry_prices.len() > 0 {
            Some(d.entry_prices[0].0)
        } else {
            None
        };
        Some(
            PositionAlert {
                user_id: uuid_to_string(u.0),
                market_id: uuid_to_string(m.0),
                alert_type: AlertType::PositionExpired,
                message: s,
                severity: AlertSeverity::Warning,
                position_size: d.net_quantity,
                unrealized_pnl: None,
                entry_price,
                current_price: None,
                timestamp: now,
            },
        )
    } else {
        None
    }
}

fn size_alert_of(u: UserId, m: MarketId, d: &PositionData, now: i64) -> (r: Option<PositionAlert>)
    ensures
        match r {
            Some(a) => size_alert(u, m, d.state(), now) == Some(a.view()),
            None => size_alert(u, m, d.state(), now) is None,
        },
{
    if d.net_quantity > UNUSUAL_SIZE || d.net_quantity < -UNUSUAL_SIZE {
        let mut s = String::from_str("Position size ");
        s.append(i64_text(d.net_quantity).as_str());
        s.append(" exceeds threshold");
        Some(
            PositionAlert {
                user_id: uuid_to_string(u.0),
                market_id: uuid_to_string(m.0),
                alert_type: AlertType::UnusualSize,
                message: s,
                severity: AlertSeverity::Warning,
                position_size: d.net_quantity,
                unrealized_pnl: None,
                entry_price: None,
                current_price: None,
                timestamp: now,
            },
        )
    } else {
        None
    }
}

fn drawdown_alert_of(
    u: UserId,
    m: MarketId,
    d: &PositionData,
    now: i64,
    finding: &DrawdownFinding,
) -> (r: Option<PositionAlert>)
    ensures
        match r {
            Some(a) => drawdown_alert(u, m, d.state(), now, *finding) == Some(a.view()),
            None => drawdown_alert(u, m, d.state(), now, *finding) is None,
        },
{
    if d.max_observed_value <= 0 {
        return None;
    }
    let (msg, severity) = match finding {
        DrawdownFinding::Critical(msg) => (msg.clone(), AlertSeverity::Critical),
        DrawdownFinding::Warning(msg) => (msg.clone(), AlertSeverity::Warning),
        DrawdownFinding::Clear => {
            return None;
        },
    };
    Some(
        PositionAlert {
            user_id: uuid_to_string(u.0),
            market_id: uuid_to_string(m.0),
            alert_type: AlertType::MaxDrawdown,
            message: msg,
            severity,
            position_size: d.net_quantity,
            unrealized_pnl: Some(d.current_value.wrapping_sub(d.max_observed_value)),
            entry_price: None,
            current_price: None,
            timestamp: now,
        },
    )
}

fn push_opt(out: &mut Vec<PositionAlert>, a: Option<PositionAlert>)
    ensures
        views_of(final(out)@) == views_of(old(out)@) + opt_seq(
            match a {
                Some(x) => Some(x.view()),
                None => None,
            },
        ),
{
    let ghost before = out@;
    match a {
        Some(x) => {
            out.push(x);
            assert(views_of(out@) =~= views_of(before) + seq![x.view()]);
        },
        None => {
            assert(views_of(out@) =~= views_of(before) + Seq::<AlertView>::empty());
        },
    }
}

impl PositionMonitor {
    /// The alerts of every position at time `now`, position after position;
    /// for each: held too long, unusual size, then the drawdown alert that
    /// `findings` (one per position, in order) calls for.
    pub fn check_all_at(&self, now: i64, findings: &Vec<DrawdownFinding>) -> (r: Vec<PositionAlert>)
        requires
            findings@.len() == self.positions@.len(),
        ensures
            views_of(r@) == alerts_upto(self.positions@, findings@, now, self.positions@.len() as int),
    {
        let mut out: Vec<PositionAlert> = Vec::new();
        let mut i: usize = 0;
        assert(views_of(out@) =~= Seq::<AlertView>::empty());
        while i < self.positions.len()
            invariant
                i <= self.positions@.len(),
                findings@.len() == self.positions@.len(),
                views_of(out@) == alerts_upto(self.positions@, findings@, now, i as int),
            decreases self.positions.len() - i,
        {
            let e = &self.positions[i];
            let ghost before = views_of(out@);
            push_opt(&mut out, expiry_alert_of(e.user, e.market, &e.data, now));
            push_opt(&mut out, size_alert_of(e.user, e.market, &e.data, now));
            push_opt(&mut out, drawdown_alert_of(e.user, e.market, &e.data, now, &findings[i]));
            assert(views_of(out@) =~= alerts_upto(self.positions@, findings@, now, i + 1));
            i = i + 1;
        }
        out
    }
}


/// The size of a net position, `|n|`.
pub open spec fn abs_size(n: i64) -> u64 {
    if n < 0 {
        (-n) as u64
    } else {
        n as u64
    }
}

/// The markets of user `u` among the entries, in order, with the size of
/// each net position.
pub open spec fn user_sizes(ps: Seq<PositionEntry>, u: UserId) -> Seq<(MarketId, u64)>
    decreases ps.len(),
{
    if ps.len() == 0 {
        Seq::empty()
    } else {
        user_sizes(ps.drop_last(), u) + if ps.last().user == u {
            seq![(ps.last().market, abs_size(ps.last().data.net_quantity))]
        } else {
            Seq::empty()
        }
    }
}

/// Total of the sizes.
pub open spec fn sizes_total(s: Seq<(MarketId, u64)>) -> int
    decreases s.len(),
{
    if s.len() == 0 {
        0
    } else {
        sizes_total(s.drop_last()) + s.last().1
    }
}

/// The entries holding more than half of `total`, in order.
pub open spec fn over_half(s: Seq<(MarketId, u64)>, total: int) -> Seq<(MarketId, u64)>
    decreases s.len(),
{
    if s.len() == 0 {
        Seq::empty()
    } else {
        over_half(s.drop_last(), total) + if 2 * s.last().1 > total {
            seq![s.last()]
        } else {
            Seq::empty()
        }
    }
}

/// The concentration alert for a position of `size` that holds the share
/// of the user's portfolio that `message` states.
pub open spec fn concentration_view(u: UserId, m: MarketId, size: i64, now: i64, message: Seq<char>) -> AlertView {
    AlertView {
        user_id: uuid_text(u.0),
        market_id: uuid_text(m.0),
        alert_type: AlertType::ConcentrationRisk,
        message,
        severity: AlertSeverity::Warning,
        position_size: size,
        unrealized_pnl: None,
        entry_price: None,
        current_price: None,
        timestamp: now,
    }
}

pub proof fn lemma_weighted_prefix(es: Seq<(u32, u64)>, i: int)
    requires
        0 <= i <= es.len(),
    ensures
        weighted_sum(es.take(i)) <= weighted_sum(es),
        lots_total(es.take(i)) <= lots_total(es),
    decreases es.len(),
{
    if i < es.len() {
        assert(es.drop_last().take(i) == es.take(i));
        lemma_weighted_prefix(es.drop_last(), i);
        assert(es.last().0 * es.last().1 >= 0) by (nonlinear_arith);
    } else {
        assert(es.take(i) == es);
    }
}

/// The quantity-weighted sum of the entry prices, where it fits in 64 bits.
fn weighted_total(es: &Vec<(u32, u64)>) -> (r: Option<u64>)
    ensures
        match r {
            Some(t) => t == weighted_sum(es@),
            None => weighted_sum(es@) > u64::MAX,
        },
{
    let mut t: u64 = 0;
    let mut i: usize = 0;
    while i < es.len()
        invariant
            i <= es.len(),
            t == weighted_sum(es@.take(i as int)),
        decreases es.len() - i,
    {
        assert(es@.take(i + 1).drop_last() == es@.take(i as int));
        let (p, q) = es[i];
        assert(p as int * q as int <= 0xffff_ffff * 0xffff_ffff_ffff_ffff) by (nonlinear_arith)
            requires
                p <= 0xffff_ffffu32,
                q <= 0xffff_ffff_ffff_ffffu64,
        ;
        let term: u128 = p as u128 * q as u128;
        if t as u128 + term > u64::MAX as u128 {
            proof {
                lemma_weighted_prefix(es@, i + 1);
            }
            return None;
        }
        t = (t as u128 + term) as u64;
        i = i + 1;
    }
    assert(es@.take(es.len() as int) == es@);
    Some(t)
}

impl PositionMonitor {
    /// The profit of the position of `u` in `m` at `price`, against the
    /// quantity-weighted average of its entry lots (truncated to a whole
    /// price): `(price - average) * net`.  `None` where there is no
    /// position, it has no entry lots, or the arithmetic overflows.
    pub fn calculate_unrealized_pnl(&self, u: UserId, m: MarketId, price: u32) -> (r: Option<i64>)
        requires
            self.inv(),
        ensures
            r == match self.state_of(u, m) {
                Some(st) => unrealized_of(st, price),
                None => None,
            },
    {
        let d = self.get(u, m)?;
        if d.entry_prices.len() == 0 {
            return None;
        }
        let total = total_lots(&d.entry_prices)?;
        let ws = weighted_total(&d.entry_prices)?;
        let avg: u32 = if total > 0 {
            let q: u64 = ws / total;
            let a: u32 = q as u32;
            assert(a == q % 0x1_0000_0000) by (bit_vector)
                requires a == q as u32;
            a
        } else {
            0
        };
        let diff: i64 = price as i64 - avg as i64;
        diff.checked_mul(d.net_quantity)
    }

    /// The markets of user `u`, in order, with the size of each net
    /// position, and the total of the sizes.
    pub fn user_position_sizes(&self, u: UserId) -> (r: (Vec<(MarketId, u64)>, u128))
        ensures
            r.0@ == user_sizes(self.positions@, u),
            r.1 == sizes_total(r.0@),
    {
        let mut out: Vec<(MarketId, u64)> = Vec::new();
        let mut total: u128 = 0;
        let mut i: usize = 0;
        while i < self.positions.len()
            invariant
                i <= self.positions@.len(),
                out@ == user_sizes(self.positions@.take(i as int), u),
                total == sizes_total(out@),
                out@.len() <= i,
                total <= i * (u64::MAX as int),
            decreases self.positions.len() - i,
        {
            assert(self.positions@.take(i + 1).drop_last() == self.positions@.take(i as int));
            let e = &self.positions[i];
            if e.user == u {
                let n = e.data.net_quantity;
                let size: u64 = if n < 0 {
                    (-(n as i128)) as u64
                } else {
                    n as u64
                };
                let ghost before = out@;
                out.push((e.market, size));
                assert(out@.drop_last() == before);
                total = total + size as u128;
            } else {
                assert(out@ =~= out@ + Seq::<(MarketId, u64)>::empty());
            }
            i = i + 1;
        }
        assert(self.positions@.take(self.positions@.len() as int) == self.positions@);
        (out, total)
    }

    /// The positions of user `u` that hold more than half of the total size
    /// of the user's positions, in order, with their sizes, and that total.
    pub fn concentrated_positions(&self, u: UserId) -> (r: (Vec<(MarketId, u64)>, u128))
        ensures
            r.1 == sizes_total(user_sizes(self.positions@, u)),
            r.0@ == over_half(user_sizes(self.positions@, u), r.1 as int),
    {
        let (sizes, total) = self.user_position_sizes(u);
        let mut out: Vec<(MarketId, u64)> = Vec::new();
        let mut i: usize = 0;
        while i < sizes.len()
            invariant
                i <= sizes@.len(),
                out@ == over_half(sizes@.take(i as int), total as int),
            decreases sizes.len() - i,
        {
            assert(sizes@.take(i + 1).drop_last() == sizes@.take(i as int));
            let (m, size) = sizes[i];
            if 2 * (size as u128) > total {
                let ghost before = out@;
                out.push((m, size));
                assert(out@.drop_last() == before);
            } else {
                assert(out@ =~= out@ + Seq::<(MarketId, u64)>::empty());
            }
            i = i + 1;
        }
        assert(sizes@.take(sizes@.len() as int) == sizes@);
        (out, total)
    }
}

/// The concentration alert for the position of `u` in `m` of `size`, with
/// the caller's statement of its share of the portfolio.
pub fn concentration_alert(u: UserId, m: MarketId, size: i64, now: i64, message: String) -> (r: PositionAlert)
    ensures
        r.view() == concentration_view(u, m, size, now, message@),
{
    PositionAlert {
        user_id: uuid_to_string(u.0),
        market_id: uuid_to_string(m.0),
        alert_type: AlertType::ConcentrationRisk,
        message,
        severity: AlertSeverity::Warning,
        position_size: size,
        unrealized_pnl: None,
        entry_price: None,
        current_price: None,
        timestamp: now,
    }
}

/// The concentration alerts of user `u` at `now`: one per position in
/// `over` (the positions holding more than half of the user's total), in
/// order, with the message given for it.
pub open spec fn concentration_views(
    u: UserId,
    over: Seq<(MarketId, u64)>,
    now: i64,
    messages: Seq<String>,
) -> Seq<AlertView> {
    Seq::new(
        over.len(),
        |k: int| concentration_view(u, over[k].0, over[k].1 as i64, now, messages[k]@),
    )
}

impl PositionMonitor {
    /// The positions of `u` holding more than half of the user's total.
    pub open spec fn concentrated_of(&self, u: UserId) -> Seq<(MarketId, u64)> {
        over_half(user_sizes(self.positions@, u), sizes_total(user_sizes(self.positions@, u)))
    }

    /// The concentration alerts of user `u` at time `now`: one warning for
    /// each of the user's positions that holds more than half of the total
    /// size of the user's positions (so at most one; none without
    /// positions), in order, with the size of the position and the message
    /// `messages` gives for it (the share as a percentage, which is written
    /// with floating point).  Other users' positions do not count.  The
    /// total must fit in 64 signed bits, as the sizes are summed there.
    pub fn check_concentration_at(&self, u: UserId, now: i64, messages: &Vec<String>) -> (r: Vec<PositionAlert>)
        requires
            sizes_total(user_sizes(self.positions@, u)) <= i64::MAX,
            messages@.len() == self.concentrated_of(u).len(),
        ensures
            views_of(r@) == concentration_views(u, self.concentrated_of(u), now, messages@),
            r@.len() <= 1,
    {
        let (over, total) = self.concentrated_positions(u);
        proof {
            law_at_most_one_concentrated(self.positions@, u, vstd::pervasive::arbitrary());
            lemma_over_half_parts(user_sizes(self.positions@, u), total as int);
            lemma_over_half_total(user_sizes(self.positions@, u), total as int);
        }
        let mut out: Vec<PositionAlert> = Vec::new();
        let mut k: usize = 0;
        while k < over.len()
            invariant
                k <= over@.len(),
                over@ == self.concentrated_of(u),
                messages@.len() == over@.len(),
                forall|j: int| 0 <= j < over@.len() ==> (#[trigger] over@[j]).1 <= i64::MAX,
                views_of(out@) == concentration_views(u, over@, now, messages@).take(k as int),
            decreases over.len() - k,
        {
            let (m, size) = over[k];
            let a = concentration_alert(u, m, size as i64, now, messages[k].clone());
            let ghost before = out@;
            out.push(a);
            assert(views_of(out@) =~= concentration_views(u, over@, now, messages@).take(k + 1)) by {
                let cv = concentration_views(u, over@, now, messages@);
                assert(out@ == before.push(a));
                assert(views_of(before.push(a)) =~= views_of(before).push(a.view()));
                assert(a.view() == cv[k as int]);
                assert(cv.take(k + 1) =~= cv.take(k as int).push(cv[k as int]));
            }
            k = k + 1;
        }
        assert(concentration_views(u, over@, now, messages@).take(over@.len() as int) =~= concentration_views(
            u,
            over@,
            now,
            messages@,
        ));
        out
    }

    /// The concentration alerts of user `u` now; see `check_concentration_at`.
    pub fn check_concentration(&self, u: UserId, messages: &Vec<String>) -> (r: Vec<PositionAlert>)
        requires
            sizes_total(user_sizes(self.positions@, u)) <= i64::MAX,
            messages@.len() == self.concentrated_of(u).len(),
        ensures
            exists|now: i64|
                views_of(r@) == #[trigger] concentration_views(u, self.concentrated_of(u), now, messages@),
            r@.len() <= 1,
    {
        let now = crate::clock::now_millis();
        self.check_concentration_at(u, now, messages)
    }
}

proof fn lemma_over_half_total(s: Seq<(MarketId, u64)>, total: int)
    ensures
        forall|k: int|
            0 <= k < over_half(s, total).len() ==> (#[trigger] over_half(s, total)[k]).1 <= sizes_total(s),
    decreases s.len(),
{
    if s.len() > 0 {
        lemma_over_half_total(s.drop_last(), total);
        lemma_sizes_total_nonneg(s.drop_last());
        let prev = over_half(s.drop_last(), total);
        if 2 * s.last().1 > total {
            assert(over_half(s, total) =~= prev.push(s.last()));
        } else {
            assert(over_half(s, total) =~= prev);
        }
    }
}

proof fn lemma_sizes_total_nonneg(s: Seq<(MarketId, u64)>)
    ensures
        sizes_total(s) >= 0,
    decreases s.len(),
{
    if s.len() > 0 {
        lemma_sizes_total_nonneg(s.drop_last());
    }
}

/// Buying a quantity into a flat position and then selling the same
/// quantity leaves the position flat (so the monitor drops it), with no
/// entry lots left.
pub proof fn law_round_trip_flattens(
    p1: u32,
    p2: u32,
    q: u64,
    t1: i64,
    t2: i64,
)
    requires
        0 < q <= i64::MAX,
        q * p1 <= i64::MAX,
    ensures
        position_after_fill((0i64, Seq::empty(), t1, 0i64, 0i64), p1, q, 1i64, t1) matches Some(st)
            && position_after_fill(st, p2, q, -1i64, t2) matches Some(st2) && st2.0 == 0 && st2.1.len()
            == 0,
{
    let st0: PositionState = (0i64, Seq::empty(), t1, 0i64, 0i64);
    let es1 = Seq::<(u32, u64)>::empty().push((p1, q));
    assert(as_signed(q) == q);
    assert(q * p1 >= 0) by (nonlinear_arith)
        requires
            q >= 0,
            p1 >= 0,
    ;
    let st = position_after_fill(st0, p1, q, 1i64, t1).unwrap();
    assert(st.1 == es1);
    assert(st.0 == q);
    assert(es1.drop_last() == Seq::<(u32, u64)>::empty());
    assert(lots_total(Seq::<(u32, u64)>::empty()) == 0);
    assert(es1.last() == (p1, q));
    assert(lots_total(es1) == q);
    let es2 = retain_after_removal(es1, q);
    assert(es1.drop_first() == Seq::<(u32, u64)>::empty());
    assert(retain_after_removal(Seq::<(u32, u64)>::empty(), 0) == Seq::<(u32, u64)>::empty());
    assert(es1[0] == (p1, q));
    assert(es2 =~= Seq::<(u32, u64)>::empty());
    assert(0 * p2 == 0);
    let st2 = position_after_fill(st, p2, q, -1i64, t2);
    assert(st2 is Some);
    assert(st2.unwrap().0 == 0);
    assert(st2.unwrap().1 == es2);
}

impl PositionMonitor {
    /// Records a fill now; see `try_update_position_at`.  The fill's id is
    /// not used.
    pub fn update_position(
        &mut self,
        u: UserId,
        m: MarketId,
        fill_id: FillId,
        price: u32,
        quantity: u64,
        side: i64,
    ) -> (ok: bool)
        requires
            old(self).inv(),
        ensures
            final(self).inv(),
            exists|now: i64| #[trigger]
                PositionMonitor::position_updated(*old(self), *final(self), u, m, price, quantity, side, now, ok),
            exists|now: i64| {
                &&& ok == (#[trigger] position_after_fill(old(self).base_state(u, m, now), price, quantity, side, now)) is Some
                &&& !ok ==> final(self).positions@ == old(self).positions@
                &&& ok ==> ({
                    let st = position_after_fill(old(self).base_state(u, m, now), price, quantity, side, now).unwrap();
                    &&& st.0 == 0 ==> final(self).state_of(u, m) is None
                    &&& st.0 != 0 ==> final(self).state_of(u, m) == Some(st)
                })
            },
            ok ==> forall|u2: UserId, m2: MarketId| #![trigger final(self).state_of(u2, m2)]
                !(u2 == u && m2 == m) ==> final(self).state_of(u2, m2) == old(self).state_of(u2, m2),
    {
        let now = crate::clock::now_millis();
        self.try_update_position_at(u, m, price, quantity, side, now)
    }

    /// The alerts of every position now; see `check_all_at`.
    pub fn check_all(&self, findings: &Vec<DrawdownFinding>) -> (r: Vec<PositionAlert>)
        requires
            findings@.len() == self.positions@.len(),
        ensures
            exists|now: i64|
                views_of(r@) == #[trigger] alerts_upto(self.positions@, findings@, now, self.positions@.len() as int),
    {
        let now = crate::clock::now_millis();
        self.check_all_at(now, findings)
    }
}

/// Whether the alert names the user and market of the entry.
pub open spec fn alert_from(a: AlertView, e: PositionEntry) -> bool {
    a.user_id == uuid_text(e.user.0) && a.market_id == uuid_text(e.market.0)
}

proof fn lemma_alerts_for_name(u: UserId, m: MarketId, st: PositionState, now: i64, f: DrawdownFinding)
    ensures
        forall|k: int|
            0 <= k < alerts_for(u, m, st, now, f).len() ==> {
                let a = #[trigger] alerts_for(u, m, st, now, f)[k];
                a.user_id == uuid_text(u.0) && a.market_id == uuid_text(m.0)
            },
{
    let s1 = opt_seq(expiry_alert(u, m, st, now));
    let s2 = opt_seq(size_alert(u, m, st, now));
    let s3 = opt_seq(drawdown_alert(u, m, st, now, f));
    assert forall|k: int| 0 <= k < s1.len() implies s1[k].user_id == uuid_text(u.0) && s1[k].market_id
        == uuid_text(m.0) by {}
    assert forall|k: int| 0 <= k < s2.len() implies s2[k].user_id == uuid_text(u.0) && s2[k].market_id
        == uuid_text(m.0) by {}
    assert forall|k: int| 0 <= k < s3.len() implies s3[k].user_id == uuid_text(u.0) && s3[k].market_id
        == uuid_text(m.0) by {}
}

proof fn lemma_alerts_from_entries(entries: Seq<PositionEntry>, findings: Seq<DrawdownFinding>, now: i64, n: int)
    requires
        0 <= n <= entries.len(),
    ensures
        forall|k: int|
            0 <= k < alerts_upto(entries, findings, now, n).len() ==> exists|i: int|
                0 <= i < n && alert_from(#[trigger] alerts_upto(entries, findings, now, n)[k], entries[i]),
    decreases n,
{
    if n > 0 {
        lemma_alerts_from_entries(entries, findings, now, n - 1);
        let prev = alerts_upto(entries, findings, now, n - 1);
        let e = entries[n - 1];
        let last = alerts_for(e.user, e.market, e.data.state(), now, findings[n - 1]);
        lemma_alerts_for_name(e.user, e.market, e.data.state(), now, findings[n - 1]);
        let all = alerts_upto(entries, findings, now, n);
        assert(all == prev + last);
        assert forall|k: int| 0 <= k < all.len() implies exists|i: int|
            0 <= i < n && alert_from(#[trigger] all[k], entries[i]) by {
            if k < prev.len() {
                assert(all[k] == prev[k]);
                let i = choose|i: int| 0 <= i < n - 1 && alert_from(prev[k], entries[i]);
                assert(alert_from(all[k], entries[i]));
            } else {
                assert(all[k] == last[k - prev.len()]);
                assert(alert_from(all[k], entries[n - 1]));
            }
        }
    }
}

/// A position that a fill brings to a net size of zero is no longer
/// tracked: after the update the monitor holds no entry for that user and
/// market, so their profit is `None` at every price, and every alert of a
/// check of all positions names another tracked position.
pub proof fn law_flat_position_untracked(
    before: PositionMonitor,
    after: PositionMonitor,
    u: UserId,
    m: MarketId,
    price: u32,
    quantity: u64,
    side: i64,
    now: i64,
    later_price: u32,
    findings: Seq<DrawdownFinding>,
    t: i64,
)
    requires
        after.inv(),
        PositionMonitor::position_updated(before, after, u, m, price, quantity, side, now, true),
        position_after_fill(before.base_state(u, m, now), price, quantity, side, now).unwrap().0 == 0,
        findings.len() == after.positions@.len(),
    ensures
        after.state_of(u, m) is None,
        forall|i: int|
            0 <= i < after.positions@.len() ==> !(#[trigger] after.positions@[i].user == u
                && after.positions@[i].market == m),
        match after.state_of(u, m) {
            Some(st) => unrealized_of(st, later_price),
            None => None,
        } is None,
        forall|k: int|
            0 <= k < alerts_upto(after.positions@, findings, t, after.positions@.len() as int).len()
                ==> exists|i: int|
                0 <= i < after.positions@.len() && !(after.positions@[i].user == u
                    && after.positions@[i].market == m) && alert_from(
                    #[trigger] alerts_upto(after.positions@, findings, t, after.positions@.len() as int)[k],
                    after.positions@[i],
                ),
{
    let ps = after.positions@;
    assert forall|i: int| 0 <= i < ps.len() implies !(#[trigger] ps[i].user == u && ps[i].market == m) by {
        if ps[i].user == u && ps[i].market == m {
            lemma_state_in_at(ps, i);
        }
    }
    let n = ps.len() as int;
    lemma_alerts_from_entries(ps, findings, t, n);
    let al = alerts_upto(ps, findings, t, n);
    assert forall|k: int| 0 <= k < al.len() implies exists|i: int|
        0 <= i < ps.len() && !(ps[i].user == u && ps[i].market == m) && alert_from(#[trigger] al[k], ps[i]) by {
        let i = choose|i: int| 0 <= i < n && alert_from(al[k], ps[i]);
        assert(!(ps[i].user == u && ps[i].market == m));
    }
}

proof fn lemma_over_half_parts(s: Seq<(MarketId, u64)>, total: int)
    ensures
        sizes_total(over_half(s, total)) <= sizes_total(s),
        forall|k: int|
            0 <= k < over_half(s, total).len() ==> 2 * (#[trigger] over_half(s, total)[k]).1 > total,
    decreases s.len(),
{
    if s.len() > 0 {
        lemma_over_half_parts(s.drop_last(), total);
        let prev = over_half(s.drop_last(), total);
        if 2 * s.last().1 > total {
            assert(over_half(s, total) =~= prev.push(s.last()));
            assert(over_half(s, total).drop_last() =~= prev);
        } else {
            assert(over_half(s, total) =~= prev);
        }
    }
}

proof fn lemma_big_parts_exceed(x: Seq<(MarketId, u64)>, total: int)
    requires
        forall|k: int| 0 <= k < x.len() ==> 2 * (#[trigger] x[k]).1 > total,
    ensures
        x.len() >= 1 ==> 2 * sizes_total(x) > total,
        x.len() >= 2 ==> sizes_total(x) > total,
    decreases x.len(),
{
    if x.len() > 0 {
        let d = x.drop_last();
        assert forall|k: int| 0 <= k < d.len() implies 2 * (#[trigger] d[k]).1 > total by {
            assert(d[k] == x[k]);
        }
        lemma_big_parts_exceed(d, total);
        assert(2 * x[x.len() - 1].1 > total);
        assert(sizes_total(x) == sizes_total(d) + x.last().1);
        if d.len() == 0 {
            assert(sizes_total(d) == 0);
        }
    }
}

/// At most one market holds more than half of a user's portfolio, so a
/// user gets at most one concentration alert; a user without positions
/// gets none; and another user's position does not count.
pub proof fn law_at_most_one_concentrated(ps: Seq<PositionEntry>, u: UserId, e: PositionEntry)
    ensures
        over_half(user_sizes(ps, u), sizes_total(user_sizes(ps, u))).len() <= 1,
        (forall|i: int| 0 <= i < ps.len() ==> (#[trigger] ps[i]).user != u) ==> user_sizes(ps, u).len() == 0,
        e.user != u ==> user_sizes(ps.push(e), u) == user_sizes(ps, u),
    decreases ps.len(),
{
    let s = user_sizes(ps, u);
    let t = sizes_total(s);
    lemma_over_half_parts(s, t);
    lemma_big_parts_exceed(over_half(s, t), t);
    if ps.len() > 0 {
        law_at_most_one_concentrated(ps.drop_last(), u, e);
        if forall|i: int| 0 <= i < ps.len() ==> (#[trigger] ps[i]).user != u {
            assert forall|i: int| 0 <= i < ps.drop_last().len() implies (#[trigger] ps.drop_last()[i]).user != u by {
                assert(ps.drop_last()[i] == ps[i]);
            }
            assert(ps.last() == ps[ps.len() - 1]);
        }
    }
    assert(ps.push(e).drop_last() =~= ps);
    if e.user != u {
        assert(user_sizes(ps.push(e), u) =~= user_sizes(ps, u) + Seq::<(MarketId, u64)>::empty());
    }
}

} // verus!
