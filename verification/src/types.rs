//! Identifiers, fixed-point prices and quantities, and the market records.
//!
//! Identifiers are 128-bit UUID values; timestamps are milliseconds since the
//! Unix epoch.  A price is in millionths of a unit (so `1_000_000` is 1.0) and
//! a quantity in millionths of a share.
use crate::decimal::{Dec, decimal_div, decimal_mul, trunc_to_u64, round_half_even, pow10, lemma_pow10_positive};
use vstd::prelude::*;

verus! {

/// A version-4 UUID: the version field (bits 76 to 79) holds 4 and the
/// variant field (bits 62 and 63) holds the RFC 4122 variant `0b10`; the
/// other 122 bits are free.
pub open spec fn is_v4_uuid(u: u128) -> bool {
    &&& (u >> 76u128) & 0xfu128 == 4u128
    &&& (u >> 62u128) & 0x3u128 == 2u128
}

/// A fresh random (version 4) UUID, as its 128-bit value.  Trusted: calls
/// `uuid::Uuid::new_v4`, which sets the version and variant fields over
/// random bits; the random bits are not stated.
#[verifier::external_body]
fn random_uuid() -> (r: u128)
    ensures
        is_v4_uuid(r),
{
    uuid::Uuid::new_v4().as_u128()
}

/// The hyphenated lower-case text of a UUID.
pub uninterp spec fn uuid_text(u: u128) -> Seq<char>;

/// Calls `uuid::Uuid::to_string` (hyphenated form).  Trusted: the text is
/// named, is the 36 characters of the hyphenated form, and parses back to
/// the same UUID.
#[verifier::external_body]
pub(crate) fn uuid_to_string(u: u128) -> (r: String)
    ensures
        r@ == uuid_text(u),
        r@.len() == 36,
        uuid_parse(r@) == Some(u),
{
    uuid::Uuid::from_u128(u).to_string()
}

/// The value of a UUID in text form, `None` where the text is no UUID.
pub uninterp spec fn uuid_parse(s: Seq<char>) -> Option<u128>;

/// Calls `uuid::Uuid::parse_str`.  Trusted: the result is named; an error
/// becomes `None`.
#[verifier::external_body]
pub(crate) fn parse_uuid(s: &str) -> (r: Option<u128>)
    ensures
        r == uuid_parse(s@),
{
    match uuid::Uuid::parse_str(s) {
        Ok(u) => Some(u.as_u128()),
        Err(_) => None,
    }
}

/// A user.
#[derive(Clone, Copy, Debug, PartialEq, Eq, Hash, Structural)]
pub struct UserId(pub u128);

/// A market.
#[derive(Clone, Copy, Debug, PartialEq, Eq, Hash, Structural)]
pub struct MarketId(pub u128);

/// An order.
#[derive(Clone, Copy, Debug, PartialEq, Eq, Hash, Structural)]
pub struct OrderId(pub u128);

/// A fill.
#[derive(Clone, Copy, Debug, PartialEq, Eq, Hash, Structural)]
pub struct FillId(pub u128);

/// A position.
#[derive(Clone, Copy, Debug, PartialEq, Eq, Hash, Structural)]
pub struct PositionId(pub u128);

/// A trading signal.
#[derive(Clone, Copy, Debug, PartialEq, Eq, Hash, Structural)]
pub struct SignalId(pub u128);

impl UserId {
    /// A fresh random (version 4) identifier.
    pub fn new() -> (r: Self)
        ensures
            is_v4_uuid(r.0),
    {
        UserId(random_uuid())
    }

    /// The hyphenated text of the identifier.
    pub fn to_string(&self) -> (r: String)
        ensures
            r@ == uuid_text(self.0),
    {
        uuid_to_string(self.0)
    }
}

impl MarketId {
    /// A fresh random (version 4) identifier.
    pub fn new() -> (r: Self)
        ensures
            is_v4_uuid(r.0),
    {
        MarketId(random_uuid())
    }

    /// The hyphenated text of the identifier.
    pub fn to_string(&self) -> (r: String)
        ensures
            r@ == uuid_text(self.0),
    {
        uuid_to_string(self.0)
    }
}

impl OrderId {
    /// A fresh random (version 4) identifier.
    pub fn new() -> (r: Self)
        ensures
            is_v4_uuid(r.0),
    {
        OrderId(random_uuid())
    }

    /// The hyphenated text of the identifier.
    pub fn to_string(&self) -> (r: String)
        ensures
            r@ == uuid_text(self.0),
    {
        uuid_to_string(self.0)
    }
}

impl FillId {
    /// A fresh random (version 4) identifier.
    pub fn new() -> (r: Self)
        ensures
            is_v4_uuid(r.0),
    {
        FillId(random_uuid())
    }

    /// The hyphenated text of the identifier.
    pub fn to_string(&self) -> (r: String)
        ensures
            r@ == uuid_text(self.0),
    {
        uuid_to_string(self.0)
    }
}

impl PositionId {
    /// A fresh random (version 4) identifier.
    pub fn new() -> (r: Self)
        ensures
            is_v4_uuid(r.0),
    {
        PositionId(random_uuid())
    }

    /// The hyphenated text of the identifier.
    pub fn to_string(&self) -> (r: String)
        ensures
            r@ == uuid_text(self.0),
    {
        uuid_to_string(self.0)
    }
}

impl SignalId {
    /// A fresh random (version 4) identifier.
    pub fn new() -> (r: Self)
        ensures
            is_v4_uuid(r.0),
    {
        SignalId(random_uuid())
    }

    /// The hyphenated text of the identifier.
    pub fn to_string(&self) -> (r: String)
        ensures
            r@ == uuid_text(self.0),
    {
        uuid_to_string(self.0)
    }
}

/// Millionths in one unit of price or quantity.
pub const SCALE_FACTOR: u64 = 1_000_000u64;

/// Smallest price accepted from a decimal (0.001).
pub const PRICE_MIN: u32 = 1_000u32;

/// Largest price accepted from a decimal (9.999999).
pub const PRICE_MAX: u32 = 9_999_999u32;

/// Smallest quantity (0.001).
pub const QUANTITY_MIN: u64 = 1_000u64;

/// A price in millionths.
#[derive(Clone, Copy, Debug, PartialEq, Eq, PartialOrd, Ord, Structural)]
pub struct Price(pub u32);

/// A quantity in millionths.
#[derive(Clone, Copy, Debug, PartialEq, Eq, PartialOrd, Ord, Structural)]
pub struct Quantity(pub u64);

/// The decimal `d` scaled to millionths, as `Decimal` multiplication gives it.
pub open spec fn scaled_by_million(d: Dec) -> Option<Dec> {
    decimal_mul(d, Dec::of_int(1_000_000))
}

/// The raw millionths that `d` rounds to, where `to_u64` gives them.
pub open spec fn rounded_millionths(d: Dec) -> Option<u64> {
    match scaled_by_million(d) {
        Some(x) => trunc_to_u64(
            Dec { mantissa: round_half_even(x.mantissa as int, pow10(x.scale as nat)) as i128, scale: 0 },
        ),
        None => None,
    }
}

/// The price a decimal stands for: positive, rounded to millionths, and
/// within `[PRICE_MIN, PRICE_MAX]`.
pub open spec fn price_of_decimal(d: Dec) -> Option<Price> {
    if !d.is_pos() {
        None
    } else {
        match rounded_millionths(d) {
            Some(raw) => if raw < PRICE_MIN || raw > PRICE_MAX {
                None
            } else {
                Some(Price(raw as u32))
            },
            None => None,
        }
    }
}

/// The quantity a decimal stands for: rounded to millionths, zero where the
/// rounded value is negative or does not fit.
pub open spec fn quantity_of_decimal(d: Dec) -> Quantity {
    match rounded_millionths(d) {
        Some(raw) => Quantity(raw),
        None => Quantity(0),
    }
}

/// The number of millionths a decimal stands for, where it is a positive
/// whole number of them written with at most nine decimal places.
pub open spec fn exact_millionths(d: Dec) -> Option<int> {
    if d.mantissa > 0 && d.scale <= 9 && (d.mantissa * 1_000_000) % pow10(d.scale as nat) == 0 {
        Some((d.mantissa * 1_000_000) / pow10(d.scale as nat))
    } else {
        None
    }
}

proof fn lemma_exact_quotient(m: int, k: int, p: int)
    requires
        p > 0,
        m == k * p,
    ensures
        m % p == 0,
        m / p == k,
        round_half_even(m, p) == k,
{
    vstd::arithmetic::div_mod::lemma_mod_multiples_basic(k, p);
    vstd::arithmetic::div_mod::lemma_div_multiples_vanish(k, p);
    assert(k * p == p * k) by (nonlinear_arith);
    if m >= 0 {
        assert(m - (m / p) * p == 0);
    } else {
        vstd::arithmetic::div_mod::lemma_mod_multiples_basic(-k, p);
        vstd::arithmetic::div_mod::lemma_div_multiples_vanish(-k, p);
        assert(-m == (-k) * p) by (nonlinear_arith)
            requires
                m == k * p,
        ;
        assert((-k) * p == p * (-k)) by (nonlinear_arith);
        assert(m - (-((-m) / p)) * p == 0);
    }
}

proof fn lemma_pow10_le_nine(n: nat)
    requires
        n <= 9,
    ensures
        pow10(n) <= 1_000_000_000,
{
    reveal_with_fuel(pow10, 10);
    lemma_pow10_mono(n, 9);
    assert(pow10(9) == 1_000_000_000);
}

proof fn lemma_pow10_mono(a: nat, b: nat)
    requires
        a <= b,
    ensures
        pow10(a) <= pow10(b),
    decreases b,
{
    if a < b {
        lemma_pow10_mono(a, (b - 1) as nat);
        lemma_pow10_positive((b - 1) as nat);
    }
}

/// `d * 10^6` rounded, as an unsigned integer.
fn decimal_to_millionths(d: &Dec) -> (r: Option<u64>)
    requires
        d.wf(),
        scaled_by_million(*d) is Some,
    ensures
        r == rounded_millionths(*d),
{
    let million = Dec::from_u64(SCALE_FACTOR);
    let scaled = d.checked_mul(&million).unwrap();
    let rounded = scaled.round();
    rounded.to_u64()
}

impl Price {
    /// The price for a decimal amount; `None` unless the amount is positive
    /// and rounds to a price within `[PRICE_MIN, PRICE_MAX]`.
    pub fn from_decimal(d: Dec) -> (r: Option<Price>)
        requires
            d.wf(),
            d.is_pos() ==> scaled_by_million(d) is Some,
        ensures
            r == price_of_decimal(d),
    {
        let zero = Dec::zero();
        if !zero.lt(&d) {
            return None;
        }
        match decimal_to_millionths(&d) {
            Some(raw) => {
                if raw < PRICE_MIN as u64 || raw > PRICE_MAX as u64 {
                    None
                } else {
                    Some(Price(raw as u32))
                }
            },
            None => None,
        }
    }

    /// `from_decimal` where scaling to millionths is not known to fit: the
    /// product is computed and tested first, and `None` is returned where it
    /// overflows (where `from_decimal` cannot be called).
    pub fn checked_from_decimal(d: Dec) -> (r: Option<Option<Price>>)
        requires
            d.wf(),
        ensures
            r is None <==> (d.is_pos() && scaled_by_million(d) is None),
            r matches Some(x) ==> x == price_of_decimal(d),
            exact_millionths(d) matches Some(k) ==> (PRICE_MIN <= k <= PRICE_MAX ==> r == Some(
                Some(Price(k as u32)),
            )),
    {
        let zero = Dec::zero();
        if zero.lt(&d) {
            let scaled = d.checked_mul(&Dec::from_u64(SCALE_FACTOR));
            proof {
                if exact_millionths(d) is Some {
                    let k = exact_millionths(d)->0;
                    let pw = pow10(d.scale as nat);
                    lemma_pow10_positive(d.scale as nat);
                    let m = d.mantissa * 1_000_000;
                    vstd::arithmetic::div_mod::lemma_fundamental_div_mod(m, pw);
                    assert(m == k * pw) by (nonlinear_arith)
                        requires
                            m == pw * (m / pw) + m % pw,
                            m % pw == 0,
                            k == m / pw,
                    ;
                    lemma_exact_quotient(m, k, pw);
                    if PRICE_MIN <= k <= PRICE_MAX {
                        reveal_with_fuel(pow10, 10);
                        assert(pw <= 1_000_000_000) by {
                            lemma_pow10_le_nine(d.scale as nat);
                        }
                        assert(m <= 10_000_000_000_000_000) by (nonlinear_arith)
                            requires
                                m == k * pw,
                                0 < k <= 9_999_999,
                                0 < pw <= 1_000_000_000,
                        ;
                        assert(scaled == Some(Dec { mantissa: m as i128, scale: d.scale }));
                        assert(round_half_even(m, pw) == k);
                        assert(pow10(0) == 1);
                        assert(scaled_by_million(d) == Some(Dec { mantissa: m as i128, scale: d.scale }));
                        assert((k as i128) as int == k);
                        assert(k / 1 == k);
                        assert(trunc_to_u64(Dec { mantissa: k as i128, scale: 0 }) == Some(k as u64));
                        assert(rounded_millionths(d) == Some(k as u64));
                        assert(d.is_pos());
                        assert(price_of_decimal(d) == Some(Price(k as u32)));
                    }
                }
            }
            if scaled.is_none() {
                return None;
            }
        }
        Some(Price::from_decimal(d))
    }

    /// The price as a decimal number of units.
    ///
    /// The quotient is exact: a positive price's decimal stands for exactly
    /// its number of millionths, so `checked_from_decimal` gives the price
    /// back.
    pub fn to_decimal(self) -> (r: Dec)
        ensures
            r == decimal_div(Dec::of_int(self.0 as int), Dec::of_int(1_000_000)).unwrap(),
            r.wf(),
            self.0 > 0 ==> exact_millionths(r) == Some(self.0 as int),
    {
        let r = Dec::from_u64(self.0 as u64).checked_div(&Dec::from_u64(1_000_000)).unwrap();
        proof {
            if self.0 > 0 {
                let pw = pow10(r.scale as nat);
                lemma_pow10_positive(r.scale as nat);
                assert(1_000_000_000int % 1_000_000int == 0);
                let m = r.mantissa * 1_000_000;
                assert(m == self.0 * pw);
                lemma_exact_quotient(m, self.0 as int, pw);
                assert(r.mantissa > 0) by (nonlinear_arith)
                    requires
                        r.mantissa * 1_000_000 == self.0 * pw,
                        self.0 > 0,
                        pw > 0,
                ;
            }
        }
        r
    }

    /// The price of the opposite outcome: `10_000_000 - p`.
    pub fn complement(self) -> (r: Price)
        requires
            self.0 <= 10_000_000,
        ensures
            r.0 == 10_000_000 - self.0,
    {
        Price(10_000_000 - self.0)
    }

    /// The difference, floored at zero.
    pub fn saturating_sub(self, rhs: Price) -> (r: Price)
        ensures
            r.0 == (if self.0 >= rhs.0 { self.0 - rhs.0 } else { 0 }),
    {
        if self.0 >= rhs.0 {
            Price(self.0 - rhs.0)
        } else {
            Price(0)
        }
    }
}

impl Quantity {
    /// The quantity for a decimal amount, rounded to millionths; zero where
    /// the amount rounds below zero or beyond 64 bits.
    pub fn from_decimal(d: Dec) -> (r: Quantity)
        requires
            d.wf(),
            scaled_by_million(d) is Some,
        ensures
            r == quantity_of_decimal(d),
    {
        match decimal_to_millionths(&d) {
            Some(raw) => Quantity(raw),
            None => Quantity(0),
        }
    }

    /// `from_decimal` where scaling to millionths is not known to fit: the
    /// product is computed and tested first, and `None` is returned where it
    /// overflows (where `from_decimal` cannot be called).
    pub fn checked_from_decimal(d: Dec) -> (r: Option<Quantity>)
        requires
            d.wf(),
        ensures
            r is None <==> scaled_by_million(d) is None,
            r matches Some(q) ==> q == quantity_of_decimal(d),
    {
        if d.checked_mul(&Dec::from_u64(SCALE_FACTOR)).is_none() {
            return None;
        }
        Some(Quantity::from_decimal(d))
    }

    /// The quantity as a decimal number of units.
    pub fn to_decimal(self) -> (r: Dec)
        ensures
            r == decimal_div(Dec::of_int(self.0 as int), Dec::of_int(1_000_000)).unwrap(),
            r.wf(),
    {
        Dec::from_u64(self.0).checked_div(&Dec::from_u64(1_000_000)).unwrap()
    }

    pub fn is_zero(self) -> (r: bool)
        ensures
            r == (self.0 == 0),
    {
        self.0 == 0
    }

    /// The difference, floored at zero.
    pub fn saturating_sub(self, rhs: Quantity) -> (r: Quantity)
        ensures
            r.0 == (if self.0 >= rhs.0 { self.0 - rhs.0 } else { 0 }),
    {
        if self.0 >= rhs.0 {
            Quantity(self.0 - rhs.0)
        } else {
            Quantity(0)
        }
    }
}

/// The side of an order or of the aggressor of a fill.
#[derive(Clone, Copy, Debug, PartialEq, Eq, Hash, Structural)]
pub enum Side {
    Buy,
    Sell,
}

impl Side {
    pub fn opposite(self) -> (r: Side)
        ensures
            r != self,
    {
        match self {
            Side::Buy => Side::Sell,
            Side::Sell => Side::Buy,
        }
    }

    /// The lower-case name, as displayed.
    pub fn as_str(self) -> (r: &'static str)
        ensures
            self == Side::Buy ==> r@ == "buy"@,
            self == Side::Sell ==> r@ == "sell"@,
    {
        match self {
            Side::Buy => "buy",
            Side::Sell => "sell",
        }
    }
}

#[derive(Clone, Copy, Debug, PartialEq, Eq, Structural)]
pub enum OrderKind {
    Limit,
    Market,
}

#[derive(Clone, Copy, Debug, PartialEq, Eq, Structural)]
pub enum OrderStatus {
    Open,
    Partial,
    Filled,
    Cancelled,
    Rejected,
}

#[derive(Clone, Copy, Debug, PartialEq, Eq, Structural)]
pub enum MarketStatus {
    Open,
    Paused,
    Settled,
    Cancelled,
}

#[derive(Clone, Copy, Debug, PartialEq, Eq, Structural)]
pub enum Outcome {
    Yes,
    No,
}

#[derive(Clone, Copy, Debug, PartialEq, Eq, Structural)]
pub enum SignalType {
    Buy,
    Sell,
    Hold,
    Close,
}

/// A market; times in milliseconds since the epoch.
#[derive(Clone, Debug)]
pub struct Market {
    pub id: MarketId,
    pub title: String,
    pub description: String,
    pub status: MarketStatus,
    pub created_at: i64,
    pub resolves_at: Option<i64>,
    pub settled_at: Option<i64>,
    pub outcome: Option<Outcome>,
}

/// An order; times in milliseconds since the epoch.
#[derive(Clone, Copy, Debug)]
pub struct Order {
    pub id: OrderId,
    pub market_id: MarketId,
    pub user_id: UserId,
    pub side: Side,
    pub kind: OrderKind,
    pub price: Option<Price>,
    pub quantity: Quantity,
    pub filled_quantity: Quantity,
    pub status: OrderStatus,
    pub sequence: u64,
    pub created_at: i64,
    pub updated_at: i64,
}

impl Order {
    /// What is left to fill, floored at zero.
    pub fn remaining(&self) -> (r: Quantity)
        ensures
            r.0 == (if self.quantity.0 >= self.filled_quantity.0 {
                self.quantity.0 - self.filled_quantity.0
            } else {
                0
            }),
    {
        self.quantity.saturating_sub(self.filled_quantity)
    }
}

/// A trade between a resting (maker) and an incoming (taker) order.
#[derive(Clone, Debug)]
pub struct Fill {
    pub id: FillId,
    pub market_id: MarketId,
    pub maker_order_id: OrderId,
    pub taker_order_id: OrderId,
    pub maker_user_id: UserId,
    pub taker_user_id: UserId,
    pub price: Price,
    pub quantity: Quantity,
    pub aggressor: Side,
    pub sequence: u64,
    pub filled_at: i64,
    pub transaction_id: Option<String>,
}

impl Fill {
    /// A field-by-field copy.
    pub fn duplicate(&self) -> (r: Fill)
        ensures
            r == *self,
    {
        Fill {
            id: self.id,
            market_id: self.market_id,
            maker_order_id: self.maker_order_id,
            taker_order_id: self.taker_order_id,
            maker_user_id: self.maker_user_id,
            taker_user_id: self.taker_user_id,
            price: self.price,
            quantity: self.quantity,
            aggressor: self.aggressor,
            sequence: self.sequence,
            filled_at: self.filled_at,
            transaction_id: match &self.transaction_id {
                Some(t) => Some(t.clone()),
                None => None,
            },
        }
    }
}

/// A request to place an order.
#[derive(Clone, Copy, Debug)]
pub struct OrderRequest {
    pub market_id: MarketId,
    pub side: Side,
    pub kind: OrderKind,
    pub price: Option<Price>,
    pub quantity: Quantity,
}

/// One level of an order book.
#[derive(Clone, Copy, Debug)]
pub struct PriceLevel {
    pub price: Price,
    pub quantity: Quantity,
    pub count: u32,
}

/// Bids and asks of a market, best first.
#[derive(Clone, Debug)]
pub struct OrderBook {
    pub market_id: MarketId,
    pub bids: Vec<PriceLevel>,
    pub asks: Vec<PriceLevel>,
    pub sequence: u64,
}

/// A user's position in a market.
#[derive(Clone, Copy, Debug)]
pub struct Position {
    pub id: PositionId,
    pub user_id: UserId,
    pub market_id: MarketId,
    pub side: Side,
    pub entry_price: Price,
    pub current_price: Price,
    pub quantity: Quantity,
    pub unrealized_pnl: i64,
    pub realized_pnl: i64,
    pub opened_at: i64,
    pub updated_at: i64,
}

impl Position {
    /// The position's value at the current price: price times quantity
    /// (the quantity read as a signed 64-bit number).
    pub fn market_value(&self) -> (r: i64)
        requires
            i64::MIN <= self.current_price.0 * (self.quantity.0 as i64) <= i64::MAX,
        ensures
            r == self.current_price.0 * (self.quantity.0 as i64),
    {
        self.current_price.0 as i64 * self.quantity.0 as i64
    }

    /// Realized plus unrealized profit.
    pub fn total_pnl(&self) -> (r: i64)
        requires
            i64::MIN <= self.realized_pnl + self.unrealized_pnl <= i64::MAX,
        ensures
            r == self.realized_pnl + self.unrealized_pnl,
    {
        self.realized_pnl + self.unrealized_pnl
    }
}

/// An order as the database stores it: prices as 32-bit and quantities and
/// sequence numbers as 64-bit signed integers.
#[derive(Clone, Copy, Debug)]
pub struct OrderRecord {
    pub id: u128,
    pub market_id: u128,
    pub user_id: u128,
    pub side: Side,
    pub kind: OrderKind,
    pub price: Option<i32>,
    pub quantity: i64,
    pub filled_quantity: i64,
    pub status: OrderStatus,
    pub sequence: i64,
    pub created_at: i64,
    pub updated_at: i64,
}

impl Order {
    /// The order a stored record holds, each stored integer reinterpreted
    /// as the unsigned width of its field.
    pub fn from_record(r: OrderRecord) -> (o: Order)
        ensures
            o.id == OrderId(r.id),
            o.market_id == MarketId(r.market_id),
            o.user_id == UserId(r.user_id),
            o.side == r.side,
            o.kind == r.kind,
            o.price == (match r.price {
                Some(p) => Some(Price(p as u32)),
                None => None,
            }),
            o.quantity == Quantity(r.quantity as u64),
            o.filled_quantity == Quantity(r.filled_quantity as u64),
            o.status == r.status,
            o.sequence == r.sequence as u64,
            o.created_at == r.created_at,
            o.updated_at == r.updated_at,
    {
        Order {
            id: OrderId(r.id),
            market_id: MarketId(r.market_id),
            user_id: UserId(r.user_id),
            side: r.side,
            kind: r.kind,
            price: match r.price {
                Some(p) => Some(Price(p as u32)),
                None => None,
            },
            quantity: Quantity(r.quantity as u64),
            filled_quantity: Quantity(r.filled_quantity as u64),
            status: r.status,
            sequence: r.sequence as u64,
            created_at: r.created_at,
            updated_at: r.updated_at,
        }
    }
}

/// A fill as the database stores it.
#[derive(Clone, Debug)]
pub struct FillRecord {
    pub id: u128,
    pub market_id: u128,
    pub maker_order_id: u128,
    pub taker_order_id: u128,
    pub maker_user_id: u128,
    pub taker_user_id: u128,
    pub price: i32,
    pub quantity: i64,
    pub aggressor: Side,
    pub sequence: i64,
    pub filled_at: i64,
    pub transaction_id: Option<String>,
}

impl Fill {
    /// The fill a stored record holds, each stored integer reinterpreted as
    /// the unsigned width of its field.
    pub fn from_record(r: FillRecord) -> (f: Fill)
        ensures
            f.id == FillId(r.id),
            f.market_id == MarketId(r.market_id),
            f.maker_order_id == OrderId(r.maker_order_id),
            f.taker_order_id == OrderId(r.taker_order_id),
            f.maker_user_id == UserId(r.maker_user_id),
            f.taker_user_id == UserId(r.taker_user_id),
            f.price == Price(r.price as u32),
            f.quantity == Quantity(r.quantity as u64),
            f.aggressor == r.aggressor,
            f.sequence == r.sequence as u64,
            f.filled_at == r.filled_at,
            f.transaction_id == r.transaction_id,
    {
        Fill {
            id: FillId(r.id),
            market_id: MarketId(r.market_id),
            maker_order_id: OrderId(r.maker_order_id),
            taker_order_id: OrderId(r.taker_order_id),
            maker_user_id: UserId(r.maker_user_id),
            taker_user_id: UserId(r.taker_user_id),
            price: Price(r.price as u32),
            quantity: Quantity(r.quantity as u64),
            aggressor: r.aggressor,
            sequence: r.sequence as u64,
            filled_at: r.filled_at,
            transaction_id: r.transaction_id,
        }
    }
}

} // verus!
