//! Orders sent to the exchange and not yet settled, keyed by order id, and
//! the position change a fill reported by the exchange makes.
use crate::monitor::as_signed;
use dashmap::DashMap;
use vstd::prelude::*;

verus! {

/// An order waiting for its fill.  The quantity is the bit pattern of the
/// 64-bit float the exchange reported.
#[derive(Clone, Debug)]
pub struct PendingOrder {
    pub order_id: String,
    pub market_id: String,
    pub quantity_bits: u64,
    pub timestamp: i64,
}

/// The plain contents of a pending order.
pub open spec fn pending_view(p: PendingOrder) -> (Seq<char>, Seq<char>, u64, i64) {
    (p.order_id@, p.market_id@, p.quantity_bits, p.timestamp)
}

#[verifier::external_type_specification]
#[verifier::external_body]
#[verifier::reject_recursive_types(K)]
#[verifier::reject_recursive_types(V)]
#[verifier::reject_recursive_types(S)]
pub struct ExDashMap<K, V, S>(DashMap<K, V, S>);

/// The concurrent map of pending orders by order id.
pub type PendingMap = DashMap<String, PendingOrder>;

/// What the map holds: the view of each order under its id.
pub uninterp spec fn pending_contents(m: PendingMap) -> Map<
    Seq<char>,
    (Seq<char>, Seq<char>, u64, i64),
>;

/// Calls `DashMap::new`.  Trusted: a new map holds nothing.
#[verifier::external_body]
fn pending_map_new() -> (r: PendingMap)
    ensures
        pending_contents(r).dom() == Set::<Seq<char>>::empty(),
{
    DashMap::new()
}

/// Calls `DashMap::insert`.  Trusted: the key now maps to the value, any
/// earlier value under it replaced; other keys are untouched.
#[verifier::external_body]
fn pending_map_insert(m: &mut PendingMap, key: String, value: PendingOrder)
    ensures
        pending_contents(*final(m)) == pending_contents(*old(m)).insert(key@, pending_view(value)),
{
    m.insert(key, value);
}

/// Calls `DashMap::remove`.  Trusted: the key no longer maps to anything;
/// other keys are untouched.
#[verifier::external_body]
fn pending_map_remove(m: &mut PendingMap, key: &str)
    ensures
        pending_contents(*final(m)) == pending_contents(*old(m)).remove(key@),
{
    m.remove(key);
}

/// Orders awaiting their fills.
pub struct OrderReconciler {
    pub pending: PendingMap,
}

impl OrderReconciler {
    /// The orders awaiting fills, by order id.
    pub open spec fn view(&self) -> Map<Seq<char>, (Seq<char>, Seq<char>, u64, i64)> {
        pending_contents(self.pending)
    }

    pub fn new() -> (r: OrderReconciler)
        ensures
            r.view() == Map::<Seq<char>, (Seq<char>, Seq<char>, u64, i64)>::empty(),
    {
        let r = OrderReconciler { pending: pending_map_new() };
        assert(r.view() =~= Map::<Seq<char>, (Seq<char>, Seq<char>, u64, i64)>::empty());
        r
    }

    /// Records an order as awaiting its fill, under its order id.
    pub fn register(&mut self, order: PendingOrder)
        ensures
            final(self).view() == old(self).view().insert(order.order_id@, pending_view(order)),
    {
        let key = order.order_id.clone();
        pending_map_insert(&mut self.pending, key, order);
    }

    /// Forgets the order with this id.
    pub fn finalize(&mut self, order_id: &str)
        ensures
            final(self).view() == old(self).view().remove(order_id@),
    {
        pending_map_remove(&mut self.pending, order_id);
    }

    /// Settles a reported fill of the taker's order: the order is no longer
    /// pending, and the taker's position changes by the fill's quantity read
    /// as a signed 64-bit integer, positive for a buy (side `"buy"`) and
    /// negated otherwise.
    pub fn process_fill(&mut self, taker_order_id: &str, aggressor_side: &str, quantity: u64) -> (r: i64)
        requires
            aggressor_side@ != "buy"@ ==> quantity != 0x8000_0000_0000_0000u64,
        ensures
            r == fill_delta(aggressor_side@, quantity),
            final(self).view() == old(self).view().remove(taker_order_id@),
    {
        let delta = position_delta(aggressor_side, quantity);
        self.finalize(taker_order_id);
        delta
    }
}

/// The position change of a fill of `quantity` (read as a signed 64-bit
/// integer, as `as i64` does), negated unless the aggressor side is `"buy"`.
pub open spec fn fill_delta(aggressor_side: Seq<char>, quantity: u64) -> int {
    if aggressor_side == "buy"@ {
        as_signed(quantity)
    } else {
        -as_signed(quantity)
    }
}

/// The position change of a fill; see `fill_delta`.  Negating the one
/// quantity whose signed reading is the smallest 64-bit integer overflows,
/// so a sell of it is excluded.
pub fn position_delta(aggressor_side: &str, quantity: u64) -> (r: i64)
    requires
        aggressor_side@ != "buy"@ ==> quantity != 0x8000_0000_0000_0000u64,
    ensures
        r == fill_delta(aggressor_side@, quantity),
{
    let q: i64 = quantity as i64;
    assert(q == as_signed(quantity) && (quantity != 0x8000_0000_0000_0000u64 ==> q != i64::MIN)) by (bit_vector)
        requires
            q == quantity as i64,
    ;
    let side = String::from_str(aggressor_side);
    if side == String::from_str("buy") {
        q
    } else {
        -q
    }
}

} // verus!
