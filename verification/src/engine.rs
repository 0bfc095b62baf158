//! Decisions of the trading engine's loops: whether each loop goes on, and
//! how a market-data event becomes a book update or a fill.
use crate::types::{
    Fill, FillId, MarketId, OrderBook, OrderId, Price, PriceLevel, Quantity, Side, UserId,
    parse_uuid, uuid_parse,
};
use vstd::prelude::*;

verus! {

/// What a loop of the engine does next.
#[derive(Clone, Copy, Debug, PartialEq, Eq, Structural)]
pub enum LoopControl {
    /// Do one more round.
    Continue,
    /// Leave the loop.
    Stop,
    /// Cancel every open order, then leave the loop.
    CancelAllThenStop,
}

/// The market-data and signal loops run while the engine runs and stop
/// when the risk circuit breaker trips.
pub fn feed_loop_control(running: bool, breaker_active: bool) -> (r: LoopControl)
    ensures
        r == (if !running || breaker_active {
            LoopControl::Stop
        } else {
            LoopControl::Continue
        }),
{
    if !running || breaker_active {
        LoopControl::Stop
    } else {
        LoopControl::Continue
    }
}

/// The order-execution loop runs while the engine runs; when the risk
/// circuit breaker trips it cancels every open order and stops.
pub fn execution_loop_control(running: bool, breaker_active: bool) -> (r: LoopControl)
    ensures
        r == (if !running {
            LoopControl::Stop
        } else if breaker_active {
            LoopControl::CancelAllThenStop
        } else {
            LoopControl::Continue
        }),
{
    if !running {
        LoopControl::Stop
    } else if breaker_active {
        LoopControl::CancelAllThenStop
    } else {
        LoopControl::Continue
    }
}

/// What the engine reports of itself.
#[derive(Clone, Copy, Debug, PartialEq, Eq, Structural)]
pub struct TradingEngineStatus {
    pub running: bool,
    pub connected: bool,
    pub ws_connected: bool,
    pub circuit_breaker_active: bool,
}

/// The book a feed update describes: the market named by a UUID, each level
/// counted once, sequence 0.
pub open spec fn book_of(market: u128, bids: Seq<(u32, u64)>, asks: Seq<(u32, u64)>) -> (
    MarketId,
    Seq<(u32, u64, u32)>,
    Seq<(u32, u64, u32)>,
    u64,
) {
    (
        MarketId(market),
        bids.map_values(|l: (u32, u64)| (l.0, l.1, 1u32)),
        asks.map_values(|l: (u32, u64)| (l.0, l.1, 1u32)),
        0,
    )
}

/// The plain contents of a book.
pub open spec fn book_view(b: OrderBook) -> (
    MarketId,
    Seq<(u32, u64, u32)>,
    Seq<(u32, u64, u32)>,
    u64,
) {
    (
        b.market_id,
        b.bids@.map_values(|l: PriceLevel| (l.price.0, l.quantity.0, l.count)),
        b.asks@.map_values(|l: PriceLevel| (l.price.0, l.quantity.0, l.count)),
        b.sequence,
    )
}

fn levels_of(ls: &Vec<(u32, u64)>) -> (r: Vec<PriceLevel>)
    ensures
        r@.map_values(|l: PriceLevel| (l.price.0, l.quantity.0, l.count)) == ls@.map_values(
            |l: (u32, u64)| (l.0, l.1, 1u32),
        ),
{
    let mut out: Vec<PriceLevel> = Vec::new();
    let mut i: usize = 0;
    while i < ls.len()
        invariant
            i <= ls@.len(),
            out@.len() == i,
            forall|k: int|
                0 <= k < i ==> #[trigger] out@[k].price.0 == ls@[k].0 && out@[k].quantity.0
                    == ls@[k].1 && out@[k].count == 1,
        decreases ls.len() - i,
    {
        let (p, q) = ls[i];
        out.push(PriceLevel { price: Price(p), quantity: Quantity(q), count: 1 });
        i = i + 1;
    }
    assert(out@.map_values(|l: PriceLevel| (l.price.0, l.quantity.0, l.count)) =~= ls@.map_values(
        |l: (u32, u64)| (l.0, l.1, 1u32),
    ));
    out
}

/// The book of a feed update with levels `(price, size)` already in
/// millionths; `None` where the market id is no UUID.
pub fn book_from_feed(market_id: &str, bids: &Vec<(u32, u64)>, asks: &Vec<(u32, u64)>) -> (r:
    Option<OrderBook>)
    ensures
        match uuid_parse(market_id@) {
            Some(m) => r matches Some(b) && book_view(b) == book_of(m, bids@, asks@),
            None => r is None,
        },
{
    let m = parse_uuid(market_id)?;
    Some(OrderBook { market_id: MarketId(m), bids: levels_of(bids), asks: levels_of(asks), sequence: 0 })
}

/// The fill a public trade stands for, taken at time `now`: its id, market
/// and taker order from their UUID texts (checked in that order), the
/// maker's order and both users unknown (the nil UUID), sequence 0.
pub open spec fn trade_fill(
    trade_id: Seq<char>,
    market_id: Seq<char>,
    taker_order_id: Seq<char>,
    price: u32,
    size: u64,
    side: Side,
    now: i64,
) -> Option<Fill> {
    match (uuid_parse(trade_id), uuid_parse(market_id), uuid_parse(taker_order_id)) {
        (Some(t), Some(m), Some(o)) => Some(
            Fill {
                id: FillId(t),
                market_id: MarketId(m),
                maker_order_id: OrderId(0),
                taker_order_id: OrderId(o),
                maker_user_id: UserId(0),
                taker_user_id: UserId(0),
                price: Price(price),
                quantity: Quantity(size),
                aggressor: side,
                sequence: 0,
                filled_at: now,
                transaction_id: None,
            },
        ),
        _ => None,
    }
}

/// The fill a public trade stands for; see `trade_fill`.
pub fn fill_from_trade(
    trade_id: &str,
    market_id: &str,
    taker_order_id: &str,
    price: u32,
    size: u64,
    side: Side,
    now: i64,
) -> (r: Option<Fill>)
    ensures
        r == trade_fill(trade_id@, market_id@, taker_order_id@, price, size, side, now),
{
    let t = parse_uuid(trade_id)?;
    let m = parse_uuid(market_id)?;
    let o = parse_uuid(taker_order_id)?;
    Some(
        Fill {
            id: FillId(t),
            market_id: MarketId(m),
            maker_order_id: OrderId(0),
            taker_order_id: OrderId(o),
            maker_user_id: UserId(0),
            taker_user_id: UserId(0),
            price: Price(price),
            quantity: Quantity(size),
            aggressor: side,
            sequence: 0,
            filled_at: now,
            transaction_id: None,
        },
    )
}

} // verus!
