//! Request validation and the decisions of the HTTP layer: registration
//! checks, order-request parsing, listing limits, access checks, bearer
//! token reading, health reports and metric path labels.
use crate::decimal::Dec;
use crate::error::AppError;
use crate::types::{
    MarketId, OrderKind, OrderRequest, Price, Quantity, Side, UserId, quantity_of_decimal,
    scaled_by_million, parse_uuid, uuid_parse, uuid_text, PRICE_MIN, PRICE_MAX,
};
use vstd::prelude::*;
use vstd::utf8::encode_utf8;

verus! {

pub struct RegisterRequest {
    pub email: String,
    pub password: String,
}

pub struct LoginRequest {
    pub email: String,
    pub password: String,
}

pub struct TokenResponse {
    pub token: String,
    pub user_id: String,
    pub is_admin: bool,
}

pub struct BalanceResponse {
    pub available: i64,
    pub reserved: i64,
}

pub struct ComponentStatus {
    pub database: String,
    pub nats: String,
    pub analytics: String,
}

pub struct HealthResponse {
    pub status: String,
    pub version: String,
    pub timestamp: String,
    pub components: ComponentStatus,
}

pub struct ReadinessResponse {
    pub ready: bool,
    pub checks: Vec<String>,
}

/// Who a request is made by, as read from its bearer token.
#[derive(Clone, Debug)]
pub struct AuthContext {
    pub user_id: String,
    pub is_admin: bool,
}

/// What a stored idempotency key says of an earlier request.
#[derive(Clone, Copy, Debug, PartialEq, Eq, Structural)]
pub enum IdempotencyStatus {
    Complete,
    Processing,
    Fresh,
}

/// What to do with a request given its idempotency key.
#[derive(Clone, Copy, Debug, PartialEq, Eq, Structural)]
pub enum IdempotencyStep {
    /// Answer with the stored response of the earlier request.
    ReplayCached,
    /// Handle the request.
    Proceed,
}

/// The lowercase form of a text (Unicode case mapping).
pub uninterp spec fn lowercase_of(s: Seq<char>) -> Seq<char>;

/// Calls `str::to_lowercase`.  Trusted: the text is named.
#[verifier::external_body]
fn to_lowercase(s: &str) -> (r: String)
    ensures
        r@ == lowercase_of(s@),
{
    s.to_lowercase()
}

/// The error a registration is refused with, if any: an empty email or one
/// without `@`, then a password shorter than 8 bytes.
pub open spec fn registration_error(email: Seq<char>, password: Seq<char>) -> Option<Seq<char>> {
    if email.len() == 0 || !email.contains('@') {
        Some("invalid email"@)
    } else if encode_utf8(password).len() < 8 {
        Some("password must be at least 8 characters"@)
    } else {
        None
    }
}

fn contains_char(s: &str, c: char) -> (r: bool)
    ensures
        r == s@.contains(c),
{
    let n = s.unicode_len();
    let mut i: usize = 0;
    while i < n
        invariant
            i <= n,
            n == s@.len(),
            forall|k: int| 0 <= k < i ==> s@[k] != c,
        decreases n - i,
    {
        if s.get_char(i) == c {
            return true;
        }
        i = i + 1;
    }
    false
}

/// Checks a registration: `Validation` with the reason where it is refused.
pub fn validate_registration(req: &RegisterRequest) -> (r: Result<(), AppError>)
    ensures
        match registration_error(req.email@, req.password@) {
            Some(m) => r matches Err(AppError::Validation(x)) && x@ == m,
            None => r is Ok,
        },
{
    if req.email.as_str().is_empty() || !contains_char(req.email.as_str(), '@') {
        return Err(AppError::Validation(String::from_str("invalid email")));
    }
    if req.password.as_str().as_bytes().len() < 8 {
        return Err(AppError::Validation(String::from_str("password must be at least 8 characters")));
    }
    Ok(())
}

/// The side a request names, in any letter case.
pub open spec fn side_named(s: Seq<char>) -> Option<Side> {
    if lowercase_of(s) == "buy"@ {
        Some(Side::Buy)
    } else if lowercase_of(s) == "sell"@ {
        Some(Side::Sell)
    } else {
        None
    }
}

/// The order kind a request names, in any letter case.
pub open spec fn kind_named(s: Seq<char>) -> Option<OrderKind> {
    if lowercase_of(s) == "limit"@ {
        Some(OrderKind::Limit)
    } else if lowercase_of(s) == "market"@ {
        Some(OrderKind::Market)
    } else {
        None
    }
}

fn text_is(s: &String, lit: &str) -> (r: bool)
    ensures
        r == (s@ == lit@),
{
    let other = String::from_str(lit);
    *s == other
}

/// Parses the side of an order request.
pub fn parse_side(s: &str) -> (r: Result<Side, AppError>)
    ensures
        match side_named(s@) {
            Some(x) => r == Ok::<Side, AppError>(x),
            None => r matches Err(AppError::Validation(m)) && m@ == "side must be buy or sell"@,
        },
{
    let lower = to_lowercase(s);
    if text_is(&lower, "buy") {
        Ok(Side::Buy)
    } else if text_is(&lower, "sell") {
        Ok(Side::Sell)
    } else {
        Err(AppError::Validation(String::from_str("side must be buy or sell")))
    }
}

/// Parses the kind of an order request.
pub fn parse_kind(s: &str) -> (r: Result<OrderKind, AppError>)
    ensures
        match kind_named(s@) {
            Some(x) => r == Ok::<OrderKind, AppError>(x),
            None => r matches Err(AppError::Validation(m)) && m@ == "kind must be limit or market"@,
        },
{
    let lower = to_lowercase(s);
    if text_is(&lower, "limit") {
        Ok(OrderKind::Limit)
    } else if text_is(&lower, "market") {
        Ok(OrderKind::Market)
    } else {
        Err(AppError::Validation(String::from_str("kind must be limit or market")))
    }
}

/// The kind an order submission names; without one, a priced order is a
/// limit order and an unpriced one a market order.
pub open spec fn kind_or_default(kind: Option<Seq<char>>, priced: bool) -> Option<OrderKind> {
    match kind {
        Some(k) => kind_named(k),
        None => if priced {
            Some(OrderKind::Limit)
        } else {
            Some(OrderKind::Market)
        },
    }
}

/// The price a submission gives in whole ticks (millionths, the unit in
/// which prices are stored and reported), if it is within
/// `[PRICE_MIN, PRICE_MAX]`.
pub open spec fn price_in_ticks(p: u64) -> Option<Price> {
    if p < PRICE_MIN || p > PRICE_MAX {
        None
    } else {
        Some(Price(p as u32))
    }
}

/// The text of an optional field.
pub open spec fn opt_text(t: Option<&str>) -> Option<Seq<char>> {
    match t {
        Some(x) => Some(x@),
        None => None,
    }
}

/// Side, kind and price of a submission pass their checks.
pub open spec fn order_checks_pass(side: Seq<char>, kind: Option<Seq<char>>, price: Option<u64>) -> bool {
    &&& side_named(side) is Some
    &&& kind_or_default(kind, price is Some) is Some
    &&& price matches Some(p) ==> price_in_ticks(p) is Some
}

/// The request an order submission stands for, or the reason it is
/// refused, checked in order: side, kind (a limit order where a price is
/// given and no kind, a market order where neither is), price (in ticks,
/// within the price range), quantity (positive).
pub open spec fn order_request_of(
    market_id: MarketId,
    side: Seq<char>,
    kind: Option<Seq<char>>,
    price: Option<u64>,
    quantity: Dec,
) -> Result<OrderRequest, Seq<char>> {
    match side_named(side) {
        None => Err("side must be buy or sell"@),
        Some(s) => match kind_or_default(kind, price is Some) {
            None => Err("kind must be limit or market"@),
            Some(k) => {
                let p = match price {
                    None => Some(None),
                    Some(t) => match price_in_ticks(t) {
                        Some(x) => Some(Some(x)),
                        None => None,
                    },
                };
                match p {
                    None => Err("price must be in (0, 1)"@),
                    Some(p) => if !quantity.is_pos() {
                        Err("quantity must be positive"@)
                    } else {
                        Ok(
                            OrderRequest {
                                market_id,
                                side: s,
                                kind: k,
                                price: p,
                                quantity: quantity_of_decimal(quantity),
                            },
                        )
                    },
                }
            },
        },
    }
}

/// Checks an order submission and builds its request, as
/// `order_request_of` says; `None` where every check passes but the
/// quantity does not scale to millionths within `Decimal`'s range (the
/// step that the conversion cannot take).
pub fn try_order_request_from(
    market_id: MarketId,
    side: &str,
    kind: Option<&str>,
    price: Option<u64>,
    quantity: Dec,
) -> (r: Option<Result<OrderRequest, AppError>>)
    requires
        quantity.wf(),
    ensures
        r is None <==> (order_checks_pass(side@, opt_text(kind), price) && quantity.is_pos()
            && scaled_by_million(quantity) is None),
        r matches Some(x) ==> match order_request_of(market_id, side@, opt_text(kind), price, quantity) {
            Ok(req) => x == Ok::<OrderRequest, AppError>(req),
            Err(m) => x matches Err(AppError::Validation(e)) && e@ == m,
        },
{
    let s = match parse_side(side) {
        Ok(s) => s,
        Err(e) => {
            return Some(Err(e));
        },
    };
    let k = match kind {
        Some(t) => match parse_kind(t) {
            Ok(k) => k,
            Err(e) => {
                return Some(Err(e));
            },
        },
        None => if price.is_some() {
            OrderKind::Limit
        } else {
            OrderKind::Market
        },
    };
    let p = match price {
        None => None,
        Some(t) => {
            if t < PRICE_MIN as u64 || t > PRICE_MAX as u64 {
                return Some(Err(AppError::Validation(String::from_str("price must be in (0, 1)"))));
            }
            Some(Price(t as u32))
        },
    };
    if quantity.le(&Dec::zero()) {
        return Some(Err(AppError::Validation(String::from_str("quantity must be positive"))));
    }
    match Quantity::checked_from_decimal(quantity) {
        Some(q) => Some(Ok(OrderRequest { market_id, side: s, kind: k, price: p, quantity: q })),
        None => None,
    }
}

/// Checks an order submission and builds its request; `Validation` with
/// the reason where it is refused.  The quantity must scale to millionths
/// once side, kind and price have passed; where that is not known, call
/// `try_order_request_from`.
pub fn order_request_from(
    market_id: MarketId,
    side: &str,
    kind: Option<&str>,
    price: Option<u64>,
    quantity: Dec,
) -> (r: Result<OrderRequest, AppError>)
    requires
        quantity.wf(),
        order_checks_pass(side@, opt_text(kind), price) && quantity.is_pos() ==> scaled_by_million(
            quantity,
        ) is Some,
    ensures
        match order_request_of(market_id, side@, opt_text(kind), price, quantity) {
            Ok(req) => r == Ok::<OrderRequest, AppError>(req),
            Err(m) => r matches Err(AppError::Validation(x)) && x@ == m,
        },
{
    try_order_request_from(market_id, side, kind, price, quantity).unwrap()
}

/// What to do with an order submission given its idempotency key: a
/// completed request with a stored response is answered from it; one still
/// in flight is refused as a conflict; otherwise the request is handled.
pub fn idempotency_step(status: IdempotencyStatus, has_cached: bool) -> (r: Result<
    IdempotencyStep,
    AppError,
>)
    ensures
        status == IdempotencyStatus::Processing ==> (r matches Err(AppError::Conflict(m)) && m@
            == "duplicate request in flight"@),
        status == IdempotencyStatus::Complete && has_cached ==> r == Ok::<IdempotencyStep, AppError>(
            IdempotencyStep::ReplayCached,
        ),
        (status == IdempotencyStatus::Fresh || (status == IdempotencyStatus::Complete && !has_cached))
            ==> r == Ok::<IdempotencyStep, AppError>(IdempotencyStep::Proceed),
{
    match status {
        IdempotencyStatus::Complete => {
            if has_cached {
                Ok(IdempotencyStep::ReplayCached)
            } else {
                Ok(IdempotencyStep::Proceed)
            }
        },
        IdempotencyStatus::Processing => Err(
            AppError::Conflict(String::from_str("duplicate request in flight")),
        ),
        IdempotencyStatus::Fresh => Ok(IdempotencyStep::Proceed),
    }
}

/// The number of orders a listing asks for: 50 unless given, at most 200,
/// as the 32-bit count handed to the query.
pub fn list_limit(limit: Option<i64>) -> (r: u32)
    ensures
        r == (match limit {
            Some(l) => if l < 200 {
                l
            } else {
                200
            },
            None => 50,
        }) as u32,
{
    let l: i64 = match limit {
        Some(l) => l,
        None => 50,
    };
    let m: i64 = if l < 200 {
        l
    } else {
        200
    };
    m as u32
}

/// The user a request context names; `Unauthorized` unless it is a UUID.
pub fn user_of_context(ctx: &AuthContext) -> (r: Result<UserId, AppError>)
    ensures
        match uuid_parse(ctx.user_id@) {
            Some(u) => r == Ok::<UserId, AppError>(UserId(u)),
            None => r == Err::<UserId, AppError>(AppError::Unauthorized),
        },
{
    match parse_uuid(ctx.user_id.as_str()) {
        Some(u) => Ok(UserId(u)),
        None => Err(AppError::Unauthorized),
    }
}

/// A user may read only an order of their own.
pub fn check_order_owner(owner: UserId, user: UserId) -> (r: Result<(), AppError>)
    ensures
        owner == user ==> r is Ok,
        owner != user ==> r == Err::<(), AppError>(AppError::Forbidden),
{
    if owner.0 != user.0 {
        Err(AppError::Forbidden)
    } else {
        Ok(())
    }
}

/// The answer to a token: the bearer token and the user's UUID text.
pub fn token_response(token: String, user_id: UserId, is_admin: bool) -> (r: TokenResponse)
    ensures
        r.token@ == token@,
        r.user_id@ == uuid_text(user_id.0),
        r.is_admin == is_admin,
{
    TokenResponse { token, user_id: user_id.to_string(), is_admin }
}

/// The context a bearer header grants: after `Bearer `, a token starting
/// `admin_` is an admin whose user id is the next 36 characters; any other
/// token longer than 10 bytes is a user whose id is its first 36
/// characters; anything else grants nothing.
///
/// Known hole: the token's signature is not checked here, so any token of
/// more than 10 characters is let in, and an `admin_` prefix alone grants
/// admin rights.  Checking a token is `JwtService::signed_payload`'s work.
pub open spec fn context_of_header(header: Seq<char>) -> Option<(Seq<char>, bool)> {
    let prefix = "Bearer "@;
    if header.len() < prefix.len() || header.subrange(0, prefix.len() as int) != prefix {
        None
    } else {
        let t = header.subrange(prefix.len() as int, header.len() as int);
        let admin = "admin_"@;
        if t.len() >= admin.len() && t.subrange(0, admin.len() as int) == admin {
            let end = if t.len() < 42 {
                t.len() as int
            } else {
                42
            };
            Some((t.subrange(6, end), true))
        } else if encode_utf8(t).len() > 10 {
            let end = if t.len() < 36 {
                t.len() as int
            } else {
                36
            };
            Some((t.subrange(0, end), false))
        } else {
            None
        }
    }
}

fn starts_with(s: &str, prefix: &str) -> (r: bool)
    ensures
        r == (prefix@.len() <= s@.len() && s@.subrange(0, prefix@.len() as int) == prefix@),
{
    let n = s.unicode_len();
    let m = prefix.unicode_len();
    if m > n {
        return false;
    }
    let mut i: usize = 0;
    while i < m
        invariant
            i <= m <= n,
            n == s@.len(),
            m == prefix@.len(),
            forall|k: int| 0 <= k < i ==> s@[k] == prefix@[k],
        decreases m - i,
    {
        if s.get_char(i) != prefix.get_char(i) {
            assert(s@.subrange(0, m as int)[i as int] != prefix@[i as int]);
            return false;
        }
        i = i + 1;
    }
    assert(s@.subrange(0, m as int) =~= prefix@);
    true
}

/// The request context a bearer header grants, if any.
pub fn auth_context_of(header: &str) -> (r: Option<AuthContext>)
    ensures
        match context_of_header(header@) {
            Some((id, admin)) => r matches Some(c) && c.user_id@ == id && c.is_admin == admin,
            None => r is None,
        },
{
    proof {
        reveal_strlit("Bearer ");
        reveal_strlit("admin_");
    }
    if !starts_with(header, "Bearer ") {
        return None;
    }
    let n = header.unicode_len();
    let t = header.substring_char(7, n);
    let tn = n - 7;
    if starts_with(t, "admin_") {
        let end: usize = if tn < 42 {
            tn
        } else {
            42
        };
        Some(AuthContext { user_id: t.substring_char(6, end).to_owned(), is_admin: true })
    } else if t.as_bytes().len() > 10 {
        let end: usize = if tn < 36 {
            tn
        } else {
            36
        };
        Some(AuthContext { user_id: t.substring_char(0, end).to_owned(), is_admin: false })
    } else {
        None
    }
}

/// Admin-only routes: no context is answered 401, a non-admin 403.
pub fn admin_gate(ctx: Option<&AuthContext>) -> (r: Result<(), u16>)
    ensures
        ctx is None ==> r == Err::<(), u16>(401),
        ctx matches Some(c) ==> ((c.is_admin ==> r is Ok) && (!c.is_admin ==> r == Err::<(), u16>(403))),
{
    match ctx {
        None => Err(401),
        Some(c) => if c.is_admin {
            Ok(())
        } else {
            Err(403)
        },
    }
}

/// The word a component's check is reported with.
pub open spec fn health_word(ok: bool) -> Seq<char> {
    if ok {
        "healthy"@
    } else {
        "unhealthy"@
    }
}

fn health_text(ok: bool) -> (r: String)
    ensures
        r@ == health_word(ok),
{
    if ok {
        String::from_str("healthy")
    } else {
        String::from_str("unhealthy")
    }
}

/// The health report: `healthy` where the database and the message bus both
/// are, `degraded` otherwise; analytics always reports healthy.
pub fn health_response(db_ok: bool, nats_ok: bool, version: String, timestamp: String) -> (r:
    HealthResponse)
    ensures
        r.status@ == (if db_ok && nats_ok {
            "healthy"@
        } else {
            "degraded"@
        }),
        r.version@ == version@,
        r.timestamp@ == timestamp@,
        r.components.database@ == health_word(db_ok),
        r.components.nats@ == health_word(nats_ok),
        r.components.analytics@ == "healthy"@,
{
    let status = if db_ok && nats_ok {
        String::from_str("healthy")
    } else {
        String::from_str("degraded")
    };
    HealthResponse {
        status,
        version,
        timestamp,
        components: ComponentStatus {
            database: health_text(db_ok),
            nats: health_text(nats_ok),
            analytics: String::from_str("healthy"),
        },
    }
}

/// The readiness report: ready only where the database and the message bus
/// are both connected, with one line per component.
pub fn readiness_response(db_ok: bool, nats_ok: bool) -> (r: ReadinessResponse)
    ensures
        r.ready == (db_ok && nats_ok),
        r.checks@.len() == 3,
        r.checks@[0]@ == (if db_ok {
            "database: connected"@
        } else {
            "database: disconnected"@
        }),
        r.checks@[1]@ == (if nats_ok {
            "nats: connected"@
        } else {
            "nats: disconnected"@
        }),
        r.checks@[2]@ == "analytics: ready"@,
{
    let mut checks: Vec<String> = Vec::new();
    if db_ok {
        checks.push(String::from_str("database: connected"));
    } else {
        checks.push(String::from_str("database: disconnected"));
    }
    if nats_ok {
        checks.push(String::from_str("nats: connected"));
    } else {
        checks.push(String::from_str("nats: disconnected"));
    }
    checks.push(String::from_str("analytics: ready"));
    ReadinessResponse { ready: db_ok && nats_ok, checks }
}

/// The segments of a path between slashes (`""` gives one empty segment).
pub open spec fn path_segments(p: Seq<char>) -> Seq<Seq<char>>
    decreases p.len(),
{
    if p.len() == 0 {
        seq![Seq::empty()]
    } else {
        let rest = path_segments(p.drop_last());
        if p.last() == '/' {
            rest.push(Seq::empty())
        } else {
            rest.update(rest.len() - 1, rest.last().push(p.last()))
        }
    }
}

/// A segment's label: after the first, a 36-byte segment holding a hyphen
/// (a UUID) becomes `:id`.
pub open spec fn segment_label(i: int, seg: Seq<char>) -> Seq<char> {
    if i > 0 && encode_utf8(seg).len() == 36 && seg.contains('-') {
        ":id"@
    } else {
        seg
    }
}

/// The labels of the first `n` segments joined with slashes.
pub open spec fn joined_labels(segs: Seq<Seq<char>>, n: int) -> Seq<char>
    decreases n,
{
    if n <= 0 {
        Seq::empty()
    } else if n == 1 {
        segment_label(0, segs[0])
    } else {
        joined_labels(segs, n - 1) + seq!['/'] + segment_label(n - 1, segs[n - 1])
    }
}

/// The metric label of a request path: UUID segments replaced by `:id`.
pub open spec fn path_label(p: Seq<char>) -> Seq<char> {
    joined_labels(path_segments(p), path_segments(p).len() as int)
}

/// The segments of a prefix one character longer: a slash opens a new
/// segment, any other character extends the last one.
proof fn lemma_segments_extend(p: Seq<char>, i: int)
    requires
        0 <= i < p.len(),
    ensures
        path_segments(p.take(i + 1)) == (if p[i] == '/' {
            path_segments(p.take(i)).push(Seq::empty())
        } else {
            let rest = path_segments(p.take(i));
            rest.update(rest.len() - 1, rest.last().push(p[i]))
        }),
{
    assert(p.take(i + 1).drop_last() == p.take(i));
}

/// The metric label of a request path: each segment after the first that
/// is 36 bytes long and holds a hyphen becomes `:id`.
pub fn normalize_path(path: &str) -> (r: String)
    ensures
        r@ == path_label(path@),
{
    let n = path.unicode_len();
    let mut out = String::new();
    let mut seg_start: usize = 0;
    let mut seg_index: usize = 0;
    let mut i: usize = 0;
    proof {
        assert(path@.take(0) =~= Seq::<char>::empty());
    }
    while i < n
        invariant
            i <= n,
            n == path@.len(),
            seg_start <= i,
            path_segments(path@.take(i as int)).len() == seg_index + 1,
            path_segments(path@.take(i as int)).last() == path@.subrange(seg_start as int, i as int),
            out@ == joined_labels(path_segments(path@.take(i as int)), seg_index as int),
            seg_index <= i,
        decreases n - i,
    {
        let c = path.get_char(i);
        proof {
            lemma_segments_extend(path@, i as int);
        }
        if c == '/' {
            let seg = path.substring_char(seg_start, i);
            let ghost segs = path_segments(path@.take(i as int));
            let ghost segs2 = path_segments(path@.take(i + 1));
            if seg_index > 0 {
                out.append("/");
            }
            if seg_index > 0 && seg.as_bytes().len() == 36 && contains_char(seg, '-') {
                out.append(":id");
            } else {
                out.append(seg);
            }
            proof {
                reveal_strlit("/");
                reveal_strlit(":id");
                assert(segs2.len() == segs.len() + 1);
                assert(segs2[seg_index as int] == segs[seg_index as int]);
                assert forall|k: int| 0 <= k < seg_index + 1 implies segs2[k] == segs[k] by {}
                lemma_joined_prefix(segs, segs2, seg_index as int + 1);
                assert(seg@ == segs[seg_index as int]);
            }
            seg_index = seg_index + 1;
            seg_start = i + 1;
            proof {
                assert(path@.subrange(seg_start as int, i + 1) =~= Seq::<char>::empty());
            }
        } else {
            proof {
                let segs = path_segments(path@.take(i as int));
                let segs2 = path_segments(path@.take(i + 1));
                assert(path@.subrange(seg_start as int, i + 1) =~= path@.subrange(seg_start as int, i as int).push(c));
                assert forall|k: int| 0 <= k < seg_index implies segs2[k] == segs[k] by {}
                lemma_joined_prefix(segs, segs2, seg_index as int);
            }
        }
        i = i + 1;
    }
    proof {
        assert(path@.take(n as int) =~= path@);
    }
    let seg = path.substring_char(seg_start, n);
    let ghost segs = path_segments(path@);
    if seg_index > 0 {
        out.append("/");
    }
    if seg_index > 0 && seg.as_bytes().len() == 36 && contains_char(seg, '-') {
        out.append(":id");
    } else {
        out.append(seg);
    }
    proof {
        reveal_strlit("/");
        reveal_strlit(":id");
        assert(seg@ == segs[seg_index as int]);
    }
    out
}

/// The joined labels depend only on the segments joined.
proof fn lemma_joined_prefix(a: Seq<Seq<char>>, b: Seq<Seq<char>>, n: int)
    requires
        0 <= n,
        n <= a.len(),
        n <= b.len(),
        forall|k: int| 0 <= k < n ==> a[k] == b[k],
    ensures
        joined_labels(a, n) == joined_labels(b, n),
    decreases n,
{
    if n > 1 {
        lemma_joined_prefix(a, b, n - 1);
    }
}

/// What happens on a market-depth socket.
pub enum DepthEvent {
    /// Thirty seconds passed without a depth update.
    Quiet,
    /// A depth update arrived.
    Update(String),
    /// The depth feed ended.
    FeedEnded,
    /// The client closed the socket, or it is gone.
    ClientClosed,
    /// The client answered a ping.
    ClientPong,
    /// The client pinged with this payload.
    ClientPing(Vec<u8>),
    /// The client's side failed.
    ClientError,
    /// Any other client message.
    ClientOther,
}

/// What the socket handler does in turn.
pub enum DepthAction {
    /// Send this text; close if sending fails.
    SendText(String),
    /// Answer a ping with this payload; close if sending fails.
    SendPong(Vec<u8>),
    /// Wait for the next event.
    Nothing,
    /// Stop serving the socket.
    Close,
}

/// The keep-alive message sent on a quiet socket.
pub open spec fn ping_text() -> Seq<char> {
    "{\"type\":\"ping\"}"@
}

/// The depth socket's reaction to an event: forward updates, keep a quiet
/// socket alive with a ping, answer pings, and close when either side ends.
pub fn depth_step(event: DepthEvent) -> (r: DepthAction)
    ensures
        match event {
            DepthEvent::Quiet => r matches DepthAction::SendText(t) && t@ == ping_text(),
            DepthEvent::Update(m) => r matches DepthAction::SendText(t) && t@ == m@,
            DepthEvent::FeedEnded => r is Close,
            DepthEvent::ClientClosed => r is Close,
            DepthEvent::ClientPong => r is Nothing,
            DepthEvent::ClientPing(p) => r matches DepthAction::SendPong(q) && q@ == p@,
            DepthEvent::ClientError => r is Close,
            DepthEvent::ClientOther => r is Nothing,
        },
{
    match event {
        DepthEvent::Quiet => DepthAction::SendText(String::from_str("{\"type\":\"ping\"}")),
        DepthEvent::Update(m) => DepthAction::SendText(m),
        DepthEvent::FeedEnded => DepthAction::Close,
        DepthEvent::ClientClosed => DepthAction::Close,
        DepthEvent::ClientPong => DepthAction::Nothing,
        DepthEvent::ClientPing(p) => DepthAction::SendPong(p),
        DepthEvent::ClientError => DepthAction::Close,
        DepthEvent::ClientOther => DepthAction::Nothing,
    }
}

} // verus!
