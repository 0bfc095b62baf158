//! The service's error kinds, the HTTP status each is answered with, the
//! text of the answer, and the error's own description.
use crate::text::{int_text, u64_text};
use vstd::prelude::*;

verus! {

#[derive(Debug, Clone, PartialEq, Eq)]
pub enum AppError {
    Internal(String),
    External(String),
    Validation(String),
    RiskLimitExceeded(String),
    SlippageExceeded,
    CircuitBreakerOpen,
    Database(String),
    Blockchain(String),
    Messaging(String),
    InsufficientBalance { needed: u64, available: u64 },
    MarketNotFound(String),
    OrderNotFound(String),
    MarketNotOpen,
    NotFound(String),
    Unauthorized,
    Forbidden,
    Conflict(String),
    BadRequest(String),
}

impl AppError {
    /// The HTTP status an error is answered with.
    pub open spec fn status_spec(&self) -> u16 {
        match self {
            AppError::Internal(_) => 500,
            AppError::External(_) => 502,
            AppError::Validation(_) => 400,
            AppError::RiskLimitExceeded(_) => 403,
            AppError::SlippageExceeded => 400,
            AppError::CircuitBreakerOpen => 503,
            AppError::Database(_) => 500,
            AppError::Blockchain(_) => 502,
            AppError::Messaging(_) => 503,
            AppError::InsufficientBalance { .. } => 400,
            AppError::MarketNotFound(_) => 404,
            AppError::OrderNotFound(_) => 404,
            AppError::MarketNotOpen => 400,
            AppError::NotFound(_) => 404,
            AppError::Unauthorized => 401,
            AppError::Forbidden => 403,
            AppError::Conflict(_) => 409,
            AppError::BadRequest(_) => 400,
        }
    }

    /// The text of the error answer's `error` field.
    pub open spec fn body_spec(&self) -> Seq<char> {
        match self {
            AppError::Internal(m) => m@,
            AppError::External(m) => m@,
            AppError::Validation(m) => m@,
            AppError::RiskLimitExceeded(m) => m@,
            AppError::SlippageExceeded => "Slippage limit exceeded"@,
            AppError::CircuitBreakerOpen => "Circuit breaker is open"@,
            AppError::Database(m) => m@,
            AppError::Blockchain(m) => m@,
            AppError::Messaging(m) => m@,
            AppError::InsufficientBalance { needed, available } => "Insufficient balance: needed="@
                + int_text(*needed as int) + ", available="@ + int_text(*available as int),
            AppError::MarketNotFound(m) => m@,
            AppError::OrderNotFound(m) => m@,
            AppError::MarketNotOpen => "Market is not open"@,
            AppError::NotFound(m) => m@,
            AppError::Unauthorized => "Unauthorized"@,
            AppError::Forbidden => "Forbidden"@,
            AppError::Conflict(m) => m@,
            AppError::BadRequest(m) => m@,
        }
    }

    /// The error's description.
    pub open spec fn describe_spec(&self) -> Seq<char> {
        match self {
            AppError::Internal(m) => "Internal error: "@ + m@,
            AppError::External(m) => "External exchange error: "@ + m@,
            AppError::Validation(m) => "Validation failed: "@ + m@,
            AppError::RiskLimitExceeded(m) => "Risk limit exceeded: "@ + m@,
            AppError::SlippageExceeded => "Slippage limit exceeded"@,
            AppError::CircuitBreakerOpen => "Circuit breaker is open"@,
            AppError::Database(m) => "DB error: "@ + m@,
            AppError::Blockchain(m) => "Chain error: "@ + m@,
            AppError::Messaging(m) => "NATS error: "@ + m@,
            AppError::InsufficientBalance { needed, available } => "Insufficient balance: needed "@
                + int_text(*needed as int) + ", available "@ + int_text(*available as int),
            AppError::MarketNotFound(m) => "Market not found: "@ + m@,
            AppError::OrderNotFound(m) => "Order not found: "@ + m@,
            AppError::MarketNotOpen => "Market closed"@,
            AppError::NotFound(m) => "Resource missing: "@ + m@,
            AppError::Unauthorized => "Unauthorized"@,
            AppError::Forbidden => "Access forbidden"@,
            AppError::Conflict(m) => "Conflict: "@ + m@,
            AppError::BadRequest(m) => "Invalid request: "@ + m@,
        }
    }

    /// The HTTP status the error is answered with.
    pub fn status_code(&self) -> (r: u16)
        ensures
            r == self.status_spec(),
    {
        match self {
            AppError::Internal(_) => 500,
            AppError::External(_) => 502,
            AppError::Validation(_) => 400,
            AppError::RiskLimitExceeded(_) => 403,
            AppError::SlippageExceeded => 400,
            AppError::CircuitBreakerOpen => 503,
            AppError::Database(_) => 500,
            AppError::Blockchain(_) => 502,
            AppError::Messaging(_) => 503,
            AppError::InsufficientBalance { .. } => 400,
            AppError::MarketNotFound(_) => 404,
            AppError::OrderNotFound(_) => 404,
            AppError::MarketNotOpen => 400,
            AppError::NotFound(_) => 404,
            AppError::Unauthorized => 401,
            AppError::Forbidden => 403,
            AppError::Conflict(_) => 409,
            AppError::BadRequest(_) => 400,
        }
    }

    /// The text of the error answer's `error` field.
    pub fn body_text(&self) -> (r: String)
        ensures
            r@ == self.body_spec(),
    {
        match self {
            AppError::Internal(m) => m.clone(),
            AppError::External(m) => m.clone(),
            AppError::Validation(m) => m.clone(),
            AppError::RiskLimitExceeded(m) => m.clone(),
            AppError::SlippageExceeded => String::from_str("Slippage limit exceeded"),
            AppError::CircuitBreakerOpen => String::from_str("Circuit breaker is open"),
            AppError::Database(m) => m.clone(),
            AppError::Blockchain(m) => m.clone(),
            AppError::Messaging(m) => m.clone(),
            AppError::InsufficientBalance { needed, available } => {
                let mut s = String::from_str("Insufficient balance: needed=");
                s.append(u64_text(*needed).as_str());
                s.append(", available=");
                s.append(u64_text(*available).as_str());
                s
            },
            AppError::MarketNotFound(m) => m.clone(),
            AppError::OrderNotFound(m) => m.clone(),
            AppError::MarketNotOpen => String::from_str("Market is not open"),
            AppError::NotFound(m) => m.clone(),
            AppError::Unauthorized => String::from_str("Unauthorized"),
            AppError::Forbidden => String::from_str("Forbidden"),
            AppError::Conflict(m) => m.clone(),
            AppError::BadRequest(m) => m.clone(),
        }
    }

    /// The error's description.
    pub fn describe(&self) -> (r: String)
        ensures
            r@ == self.describe_spec(),
    {
        let (prefix, m): (&str, &String) = match self {
            AppError::Internal(m) => ("Internal error: ", m),
            AppError::External(m) => ("External exchange error: ", m),
            AppError::Validation(m) => ("Validation failed: ", m),
            AppError::RiskLimitExceeded(m) => ("Risk limit exceeded: ", m),
            AppError::Database(m) => ("DB error: ", m),
            AppError::Blockchain(m) => ("Chain error: ", m),
            AppError::Messaging(m) => ("NATS error: ", m),
            AppError::MarketNotFound(m) => ("Market not found: ", m),
            AppError::OrderNotFound(m) => ("Order not found: ", m),
            AppError::NotFound(m) => ("Resource missing: ", m),
            AppError::Conflict(m) => ("Conflict: ", m),
            AppError::BadRequest(m) => ("Invalid request: ", m),
            AppError::SlippageExceeded => {
                return String::from_str("Slippage limit exceeded");
            },
            AppError::CircuitBreakerOpen => {
                return String::from_str("Circuit breaker is open");
            },
            AppError::InsufficientBalance { needed, available } => {
                let mut s = String::from_str("Insufficient balance: needed ");
                s.append(u64_text(*needed).as_str());
                s.append(", available ");
                s.append(u64_text(*available).as_str());
                return s;
            },
            AppError::MarketNotOpen => {
                return String::from_str("Market closed");
            },
            AppError::Unauthorized => {
                return String::from_str("Unauthorized");
            },
            AppError::Forbidden => {
                return String::from_str("Access forbidden");
            },
        };
        let mut s = String::from_str(prefix);
        s.append(m.as_str());
        s
    }
}

} // verus!
