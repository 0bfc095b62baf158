//! Settling a fill: what a new fill costs, how it moves the two users'
//! balances and positions and the two orders, retrying failed fills, and
//! the checks made when an order is placed.
use crate::error::AppError;
use crate::monitor::as_signed;
use crate::text::u64_text;
use crate::text::int_text;
use crate::types::{Fill, MarketId, OrderId, OrderStatus, Price, Quantity, UserId, uuid_text};
use vstd::prelude::*;

verus! {

/// Attempts a failed fill gets before it is dropped.
pub const DLQ_RETRY_COUNT: usize = 3usize;

/// What storing a fill found: new, or already stored under its market and
/// sequence number.
#[derive(Clone, Copy, Debug, PartialEq, Eq, Structural)]
pub enum InsertFillOutcome {
    Inserted,
    Duplicate,
}

/// A user's balance in cents: free to spend and held for open orders.
#[derive(Clone, Copy, Debug, PartialEq, Eq, Structural)]
pub struct BalanceRow {
    pub available: i64,
    pub reserved: i64,
}

impl Default for BalanceRow {
    /// A user with no balance row holds nothing.
    fn default() -> (r: BalanceRow)
        ensures
            r.available == 0 && r.reserved == 0,
    {
        BalanceRow { available: 0, reserved: 0 }
    }
}

/// `a / b` rounded toward zero, as integer division does.
pub open spec fn div_toward_zero(a: int, b: int) -> int {
    if a >= 0 {
        a / b
    } else {
        -((-a) / b)
    }
}

/// The cost of a fill: price times quantity (the quantity read as a signed
/// 64-bit number) over 10 000, rounded toward zero; zero where the product
/// overflows 64 bits.
pub open spec fn fill_cost_of(price: Price, quantity: Quantity) -> i64 {
    let m = price.0 * as_signed(quantity.0);
    if i64::MIN <= m <= i64::MAX {
        div_toward_zero(m, 10_000) as i64
    } else {
        0
    }
}

/// The cost of a fill; see `fill_cost_of`.
pub fn fill_cost(price: Price, quantity: Quantity) -> (r: i64)
    ensures
        r == fill_cost_of(price, quantity),
{
    let raw: u64 = quantity.0;
    let q: i64 = raw as i64;
    assert(q == as_signed(raw)) by (bit_vector)
        requires
            q == raw as i64,
    ;
    match (price.0 as i64).checked_mul(q) {
        Some(m) => m / 10_000,
        None => 0,
    }
}

/// What settling a new fill does.
#[derive(Clone, Copy, Debug, PartialEq, Eq, Structural)]
pub struct FillPlan {
    /// The cost moved from the taker's reservation to the maker.
    pub cost: i64,
    pub taker: UserId,
    pub maker: UserId,
    pub market: MarketId,
    /// The taker's position change.
    pub taker_delta: i64,
    /// The maker's position change.
    pub maker_delta: i64,
    /// The orders to update, maker first.
    pub maker_order: OrderId,
    pub taker_order: OrderId,
}

/// The plan for a fill given what storing it found: nothing for a
/// duplicate; otherwise the taker pays the fill's cost to the maker, gains
/// the quantity, and the maker gives it up.
pub fn plan_fill(fill: &Fill, outcome: InsertFillOutcome) -> (r: Option<FillPlan>)
    requires
        outcome == InsertFillOutcome::Inserted ==> fill.quantity.0 != 0x8000_0000_0000_0000u64,
    ensures
        outcome == InsertFillOutcome::Duplicate ==> r is None,
        r matches Some(p) ==> p.taker_delta + p.maker_delta == 0,
        outcome == InsertFillOutcome::Inserted ==> r == Some(
            FillPlan {
                cost: fill_cost_of(fill.price, fill.quantity),
                taker: fill.taker_user_id,
                maker: fill.maker_user_id,
                market: fill.market_id,
                taker_delta: as_signed(fill.quantity.0) as i64,
                maker_delta: (-as_signed(fill.quantity.0)) as i64,
                maker_order: fill.maker_order_id,
                taker_order: fill.taker_order_id,
            },
        ),
{
    match outcome {
        InsertFillOutcome::Duplicate => None,
        InsertFillOutcome::Inserted => {
            let raw: u64 = fill.quantity.0;
            let q: i64 = raw as i64;
            assert(q == as_signed(raw) && q != i64::MIN) by (bit_vector)
                requires
                    q == raw as i64,
                    raw != 0x8000_0000_0000_0000u64,
            ;
            Some(
                FillPlan {
                    cost: fill_cost(fill.price, fill.quantity),
                    taker: fill.taker_user_id,
                    maker: fill.maker_user_id,
                    market: fill.market_id,
                    taker_delta: q,
                    maker_delta: -q,
                    maker_order: fill.maker_order_id,
                    taker_order: fill.taker_order_id,
                },
            )
        },
    }
}

/// An order's filled quantity and status after a fill of `fill_qty`: the
/// filled quantity grows (saturating) and the order is filled once it
/// reaches the order's quantity, partly filled before.
pub fn order_after_fill(order_qty: Quantity, filled: Quantity, fill_qty: Quantity) -> (r: (
    OrderStatus,
    Quantity,
))
    ensures
        r.1.0 == (if filled.0 + fill_qty.0 > u64::MAX {
            u64::MAX as int
        } else {
            filled.0 + fill_qty.0
        }),
        r.0 == (if r.1.0 >= order_qty.0 {
            OrderStatus::Filled
        } else {
            OrderStatus::Partial
        }),
{
    let new_filled = Quantity(filled.0.saturating_add(fill_qty.0));
    let status = if new_filled.0 >= order_qty.0 {
        OrderStatus::Filled
    } else {
        OrderStatus::Partial
    };
    (status, new_filled)
}

/// What to do with a failed fill that has been retried `retries` times.
#[derive(Clone, Copy, Debug, PartialEq, Eq, Structural)]
pub enum DlqStep {
    /// Give up on the fill.
    Drop,
    /// Wait this many milliseconds, then process it again; if that fails,
    /// queue it again with one more retry counted.
    RetryAfter(u64),
}

/// A failed fill is retried after 100 ms per attempt so far plus one, and
/// dropped once it has been retried `DLQ_RETRY_COUNT` times.
pub fn dlq_step(retries: usize) -> (r: DlqStep)
    ensures
        retries >= DLQ_RETRY_COUNT ==> r == DlqStep::Drop,
        retries < DLQ_RETRY_COUNT ==> r == DlqStep::RetryAfter((100 * (retries + 1)) as u64),
{
    if retries >= DLQ_RETRY_COUNT {
        DlqStep::Drop
    } else {
        DlqStep::RetryAfter(100 * (retries as u64 + 1))
    }
}

/// The market status check made when an order is placed: only an open
/// market takes orders.
pub fn market_gate(status: Option<&str>, market_id: MarketId) -> (r: Result<(), AppError>)
    ensures
        match status {
            None => r matches Err(AppError::MarketNotFound(m)) && m@ == uuid_text(market_id.0),
            Some(s) => if s@ == "open"@ {
                r is Ok
            } else {
                r == Err::<(), AppError>(AppError::MarketNotOpen)
            },
        },
{
    match status {
        None => Err(AppError::MarketNotFound(market_id.to_string())),
        Some(s) => {
            let st = String::from_str(s);
            if st == String::from_str("open") {
                Ok(())
            } else {
                Err(AppError::MarketNotOpen)
            }
        },
    }
}

/// The refusal of a reservation the balance cannot cover: both amounts as
/// the unsigned numbers the error reports.
pub fn insufficient_balance(needed: i64, available: i64) -> (r: AppError)
    ensures
        r == (AppError::InsufficientBalance { needed: needed as u64, available: available as u64 }),
{
    AppError::InsufficientBalance { needed: needed as u64, available: available as u64 }
}

/// The subject a fill worker listens on: the base subject, a dot, and the
/// worker's number.
pub fn partition_subject(base: &str, worker_id: usize) -> (r: String)
    ensures
        r@ == base@ + seq!['.'] + int_text(worker_id as int),
{
    let mut s = String::from_str(base);
    s.append(".");
    proof {
        reveal_strlit(".");
    }
    s.append(u64_text(worker_id as u64).as_str());
    s
}

} // verus!
