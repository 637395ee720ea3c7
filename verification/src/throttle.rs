//! Rate throttle: decides, from one response's rate-budget metadata, whether
//! to pause before the next listing request.
//!
//! Policy: pause for a fixed delay when the remaining budget is unknown
//! (header absent or unreadable) or exhausted (zero); proceed immediately
//! otherwise. The throttle gates successive listing requests only — it never
//! touches the download stage.

use crate::text::{dec_value, is_u32_numeral, numeral_digits, parse_u32};
use vstd::prelude::*;

verus! {

/// How long to pause, in milliseconds, when the budget is unknown or spent.
pub const PAUSE_MILLIS: u64 = 3000;

/// The value a rate header denotes: the number it spells as a decimal `u32`
/// numeral (an optional leading `+`, then digits), or `None` when the header
/// is absent or is no such numeral.
pub open spec fn header_budget(header: Option<Seq<char>>) -> Option<u32> {
    match header {
        Some(s) => if is_u32_numeral(s) {
            Some(dec_value(numeral_digits(s)) as u32)
        } else {
            None
        },
        None => None,
    }
}

/// The view of an optional header value.
pub open spec fn header_view(header: Option<&str>) -> Option<Seq<char>> {
    match header {
        Some(s) => Some(s@),
        None => None,
    }
}

/// Server-supplied request budget, derived from one response's metadata and
/// holding no identity beyond it. `None` stands for "unknown": the header was
/// absent or unreadable, which the throttle treats as exhausted.
pub struct RateStatus {
    pub limit: Option<u32>,
    pub remaining: Option<u32>,
}

impl RateStatus {
    /// Derives the rate budget from the `x-ratelimit-limit` and
    /// `x-ratelimit-remaining` header values of one response.
    pub fn from_headers(limit: Option<&str>, remaining: Option<&str>) -> (status: RateStatus)
        ensures
            status.limit == header_budget(header_view(limit)),
            status.remaining == header_budget(header_view(remaining)),
    {
        let parsed_limit = match limit {
            Some(s) => parse_u32(s),
            None => None,
        };
        let parsed_remaining = match remaining {
            Some(s) => parse_u32(s),
            None => None,
        };
        RateStatus { limit: parsed_limit, remaining: parsed_remaining }
    }

    /// Whether to pause before the next listing request: exactly when the
    /// remaining budget is unknown or zero.
    pub fn should_pause(&self) -> (pause: bool)
        ensures
            pause == !(self.remaining matches Some(n) && n > 0),
    {
        match self.remaining {
            Some(n) => n == 0,
            None => true,
        }
    }
}

/// Whether the raw `x-ratelimit-remaining` header value shows budget left:
/// true exactly when the value parses as a `u32` greater than zero.
pub fn should_continue(remaining: Option<&str>) -> (go_on: bool)
    ensures
        go_on == (header_budget(header_view(remaining)) matches Some(n) && n > 0),
{
    match remaining {
        Some(s) => match parse_u32(s) {
            Some(n) => n > 0,
            None => false,
        },
        None => false,
    }
}

} // verus!
