//! Core of a token-sniping pipeline: a deduplicated, capacity-bounded store of
//! token opportunities, a pure scoring and filtering engine, and an append-only
//! trade ledger with per-day rollups and derived performance metrics.
//!
//! All amounts of money and liquidity are integers in base units; timestamps
//! are Unix seconds. Every function that depends on the current time takes it
//! as an explicit argument, so results are reproducible.
use vstd::prelude::*;

pub mod dates;
pub mod decimal;
pub mod filters;
pub mod logger;
pub mod scanner;

verus! {

use vstd::arithmetic::div_mod::{
    lemma_div_is_ordered,
    lemma_div_pos_is_pos,
    lemma_multiply_divide_le,
    lemma_multiply_divide_lt,
};

/// Truncating division (toward zero) of `a` by a positive divisor `b`,
/// matching the semantics of signed integer division in Rust.
pub open spec fn trunc_div(a: int, b: int) -> int
    recommends
        b > 0,
{
    if a >= 0 {
        a / b
    } else {
        -((-a) / b)
    }
}

/// Truncating division is monotonic in the numerator.
pub proof fn lemma_trunc_div_monotonic(a1: int, a2: int, b: int)
    requires
        a1 <= a2,
        b > 0,
    ensures
        trunc_div(a1, b) <= trunc_div(a2, b),
{
    if a1 >= 0 {
        lemma_div_is_ordered(a1, a2, b);
    } else if a2 < 0 {
        lemma_div_is_ordered(-a2, -a1, b);
    } else {
        lemma_div_pos_is_pos(-a1, b);
        lemma_div_pos_is_pos(a2, b);
    }
}

/// Divides `a` by `b`, truncating toward zero. The quotient must fit in an
/// `i64`, which the bound on `a` guarantees.
pub fn div_toward_zero(a: i128, b: u64) -> (r: i64)
    requires
        b > 0,
        -((b as int) * 0x8000_0000_0000_0000) <= a as int,
        (a as int) < (b as int) * 0x8000_0000_0000_0000,
    ensures
        r as int == trunc_div(a as int, b as int),
{
    if a >= 0 {
        let q: u128 = (a as u128) / (b as u128);
        proof {
            lemma_multiply_divide_lt(a as int, b as int, 0x8000_0000_0000_0000);
        }
        q as i64
    } else {
        let m: u128 = (-a) as u128;
        let q: u128 = m / (b as u128);
        proof {
            lemma_multiply_divide_le(m as int, b as int, 0x8000_0000_0000_0000);
        }
        let qi: i128 = -(q as i128);
        qi as i64
    }
}

} // verus!
