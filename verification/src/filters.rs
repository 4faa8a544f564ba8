//! Policy configuration, the hard filter, and the 0-100 safety score.
//!
//! Both outputs are pure functions of one opportunity, one settings snapshot
//! and one injected "now" timestamp: the hard filter is the conjunction of six
//! independent predicates, and the score starts at 100 and subtracts risk
//! penalties, clamped to [0, 100].
use vstd::prelude::*;

verus! {

use crate::scanner::TokenOpportunity;
use crate::trunc_div;
use crate::lemma_trunc_div_monotonic;
use crate::div_toward_zero;

/// Policy thresholds for validating opportunities. Immutable per evaluation;
/// the engine never mutates it.
#[derive(Debug)]
pub struct FilterSettings {
    pub min_liquidity: u64,
    pub min_holders: u32,
    pub max_buy_tax: u8,
    pub max_sell_tax: u8,
    pub require_lp_lock: bool,
    pub min_lp_lock_days: u32,
    pub min_token_age_minutes: u32,
    pub max_similar_tokens: u8,
    pub blacklisted_creators: Vec<String>,
    pub min_score: u8,
}

/// Two settings snapshots carry the same policy.
pub open spec fn same_settings(a: FilterSettings, b: FilterSettings) -> bool {
    &&& a.min_liquidity == b.min_liquidity
    &&& a.min_holders == b.min_holders
    &&& a.max_buy_tax == b.max_buy_tax
    &&& a.max_sell_tax == b.max_sell_tax
    &&& a.require_lp_lock == b.require_lp_lock
    &&& a.min_lp_lock_days == b.min_lp_lock_days
    &&& a.min_token_age_minutes == b.min_token_age_minutes
    &&& a.max_similar_tokens == b.max_similar_tokens
    &&& a.blacklisted_creators@ == b.blacklisted_creators@
    &&& a.min_score == b.min_score
}

/// The default policy.
pub open spec fn is_default_settings(s: FilterSettings) -> bool {
    &&& s.min_liquidity == 25
    &&& s.min_holders == 50
    &&& s.max_buy_tax == 10
    &&& s.max_sell_tax == 10
    &&& s.require_lp_lock == true
    &&& s.min_lp_lock_days == 30
    &&& s.min_token_age_minutes == 3
    &&& s.max_similar_tokens == 3
    &&& s.blacklisted_creators@ == Seq::<String>::empty()
    &&& s.min_score == 75
}

impl Clone for FilterSettings {
    fn clone(&self) -> (res: Self)
        ensures
            same_settings(res, *self),
    {
        let res = FilterSettings {
            min_liquidity: self.min_liquidity,
            min_holders: self.min_holders,
            max_buy_tax: self.max_buy_tax,
            max_sell_tax: self.max_sell_tax,
            require_lp_lock: self.require_lp_lock,
            min_lp_lock_days: self.min_lp_lock_days,
            min_token_age_minutes: self.min_token_age_minutes,
            max_similar_tokens: self.max_similar_tokens,
            blacklisted_creators: self.blacklisted_creators.clone(),
            min_score: self.min_score,
        };
        proof {
            assert(res.blacklisted_creators@ =~= self.blacklisted_creators@);
        }
        res
    }
}

impl Default for FilterSettings {
    fn default() -> (r: Self)
        ensures
            is_default_settings(r),
    {
        let r = FilterSettings {
            min_liquidity: 25,
            min_holders: 50,
            max_buy_tax: 10,
            max_sell_tax: 10,
            require_lp_lock: true,
            min_lp_lock_days: 30,
            min_token_age_minutes: 3,
            max_similar_tokens: 3,
            blacklisted_creators: Vec::new(),
            min_score: 75,
        };
        proof {
            assert(r.blacklisted_creators@ =~= Seq::<String>::empty());
        }
        r
    }
}

/// Days of LP lock remaining at `now`, truncated toward zero (negative once
/// the lock has expired by a full day).
pub open spec fn days_remaining(now: int, lock_end: int) -> int {
    trunc_div(lock_end - now, 86400)
}

/// Age of a token in whole minutes at `now`, truncated toward zero.
pub open spec fn minutes_age(created_at: int, now: int) -> int {
    trunc_div(now - created_at, 60)
}

/// Liquidity penalty: 20 below the minimum, 10 below twice the minimum.
pub open spec fn liquidity_deduction(liquidity: u64, min_liquidity: u64) -> int {
    if (liquidity as int) < min_liquidity as int {
        20
    } else if (liquidity as int) < 2 * (min_liquidity as int) {
        10
    } else {
        0
    }
}

/// Holder-count penalty: 15 below the minimum, 7 below twice the minimum.
pub open spec fn holders_deduction(holders: u32, min_holders: u32) -> int {
    if (holders as int) < min_holders as int {
        15
    } else if (holders as int) < 2 * (min_holders as int) {
        7
    } else {
        0
    }
}

/// Tax penalty: two and a half times the average of the two taxes, truncated,
/// capped at 25.
pub open spec fn tax_deduction(buy_tax: u8, sell_tax: u8) -> int {
    vstd::math::min(25, (buy_tax as int + sell_tax as int) * 5 / 4)
}

/// LP-lock penalty: 30 when not locked; when locked with a known end date,
/// graded by the days remaining; when locked with no end date, nothing.
pub open spec fn lp_deduction(lp_locked: bool, lp_lock_end: Option<i64>, now: int) -> int {
    if !lp_locked {
        30
    } else {
        match lp_lock_end {
            Some(end) => {
                let d = days_remaining(now, end as int);
                if d < 30 {
                    25
                } else if d < 90 {
                    15
                } else if d < 180 {
                    5
                } else {
                    0
                }
            },
            None => 0,
        }
    }
}

/// Age penalty: 10 for a token younger than the configured minimum.
pub open spec fn age_deduction(created_at: int, now: int, min_age_minutes: u32) -> int {
    if minutes_age(created_at, now) < min_age_minutes as int {
        10
    } else {
        0
    }
}

/// Sum of all risk penalties of one opportunity under one policy.
pub open spec fn total_deduction(t: TokenOpportunity, s: FilterSettings, now: int) -> int {
    liquidity_deduction(t.liquidity, s.min_liquidity)
        + holders_deduction(t.holders, s.min_holders)
        + tax_deduction(t.buy_tax, t.sell_tax)
        + lp_deduction(t.lp_locked, t.lp_lock_end, now)
        + age_deduction(t.created_at as int, now, s.min_token_age_minutes)
}

/// The safety score: 100 minus the penalties, clamped to [0, 100].
/// Higher is safer.
pub open spec fn spec_score(t: TokenOpportunity, s: FilterSettings, now: int) -> int {
    vstd::math::min(vstd::math::max(100 - total_deduction(t, s, now), 0), 100)
}

/// Hard-filter predicate: liquidity reaches the minimum.
pub open spec fn check_liquidity_spec(t: TokenOpportunity, s: FilterSettings) -> bool {
    t.liquidity >= s.min_liquidity
}

/// Hard-filter predicate: holder count reaches the minimum.
pub open spec fn check_holders_spec(t: TokenOpportunity, s: FilterSettings) -> bool {
    t.holders >= s.min_holders
}

/// Hard-filter predicate: both taxes are within their caps.
pub open spec fn check_taxes_spec(t: TokenOpportunity, s: FilterSettings) -> bool {
    t.buy_tax <= s.max_buy_tax && t.sell_tax <= s.max_sell_tax
}

/// Hard-filter predicate: when the policy requires an LP lock, the token is
/// locked with a known end date far enough away; without the requirement it
/// always passes.
pub open spec fn check_lp_lock_spec(t: TokenOpportunity, s: FilterSettings, now: int) -> bool {
    if !s.require_lp_lock {
        true
    } else if !t.lp_locked {
        false
    } else {
        match t.lp_lock_end {
            Some(end) => days_remaining(now, end as int) >= s.min_lp_lock_days as int,
            None => false,
        }
    }
}

/// Hard-filter predicate: the token is old enough.
pub open spec fn check_token_age_spec(t: TokenOpportunity, s: FilterSettings, now: int) -> bool {
    minutes_age(t.created_at as int, now) >= s.min_token_age_minutes as int
}

/// Hard-filter predicate: the address is not blacklisted.
pub open spec fn check_blacklist_spec(t: TokenOpportunity, s: FilterSettings) -> bool {
    forall|i: int|
        0 <= i < s.blacklisted_creators@.len() ==> (#[trigger] s.blacklisted_creators@[i])@
            != t.address@
}

/// Hard-filter predicate: the stored score reaches the minimum.
pub open spec fn check_score_spec(t: TokenOpportunity, s: FilterSettings) -> bool {
    t.score >= s.min_score
}

/// The hard filter: the conjunction of all six predicates. Independent of
/// the continuous score above.
pub open spec fn spec_validate(t: TokenOpportunity, s: FilterSettings, now: int) -> bool {
    &&& check_liquidity_spec(t, s)
    &&& check_holders_spec(t, s)
    &&& check_taxes_spec(t, s)
    &&& check_lp_lock_spec(t, s, now)
    &&& check_token_age_spec(t, s, now)
    &&& check_blacklist_spec(t, s)
    &&& check_score_spec(t, s)
}

/// The penalties always total between 0 and 100, so the clamp never moves the
/// score outside what the subtraction alone gives.
pub proof fn lemma_total_deduction_bounds(t: TokenOpportunity, s: FilterSettings, now: int)
    ensures
        0 <= total_deduction(t, s, now) <= 100,
        spec_score(t, s, now) == 100 - total_deduction(t, s, now),
{
}

/// The score is always within [0, 100], for every input.
pub proof fn lemma_score_in_range(t: TokenOpportunity, s: FilterSettings, now: int)
    ensures
        0 <= spec_score(t, s, now) <= 100,
{
}

/// With every other field fixed, a lower liquidity never yields a higher
/// score; in particular, dropping liquidity below the minimum cannot raise it.
pub proof fn lemma_score_monotonic_in_liquidity(
    t1: TokenOpportunity,
    t2: TokenOpportunity,
    s: FilterSettings,
    now: int,
)
    requires
        t1.liquidity <= t2.liquidity,
        t1 == (TokenOpportunity { liquidity: t1.liquidity, ..t2 }),
    ensures
        spec_score(t1, s, now) <= spec_score(t2, s, now),
{
}

/// With every other field fixed, extending a known LP-lock end date never
/// lowers the score.
pub proof fn lemma_score_monotonic_in_lock_end(
    t1: TokenOpportunity,
    t2: TokenOpportunity,
    s: FilterSettings,
    now: int,
    e1: i64,
    e2: i64,
)
    requires
        t1.lp_locked,
        t1.lp_lock_end == Some(e1),
        t2.lp_lock_end == Some(e2),
        e1 <= e2,
        t1 == (TokenOpportunity { lp_lock_end: Some(e1), ..t2 }),
    ensures
        spec_score(t1, s, now) <= spec_score(t2, s, now),
{
    lemma_trunc_div_monotonic(e1 - now, e2 - now, 86400);
}

/// An opportunity can pass the hard filter only when its stored score already
/// reaches the policy's minimum: the sixth predicate demands it.
pub proof fn lemma_validate_requires_min_score(
    t: TokenOpportunity,
    s: FilterSettings,
    now: int,
)
    requires
        spec_validate(t, s, now),
    ensures
        t.score >= s.min_score,
{
}

/// The hard filter reads only the policy's content, so two snapshots that
/// carry the same policy validate the same opportunities.
pub proof fn lemma_validate_same_settings(
    t: TokenOpportunity,
    a: FilterSettings,
    b: FilterSettings,
    now: int,
)
    requires
        same_settings(a, b),
    ensures
        spec_validate(t, a, now) == spec_validate(t, b, now),
{
}

/// Days of LP lock remaining, computed without overflow for any pair of
/// timestamps.
pub(crate) fn days_remaining_exec(now: i64, lock_end: i64) -> (r: i64)
    ensures
        r as int == days_remaining(now as int, lock_end as int),
{
    let diff: i128 = (lock_end as i128) - (now as i128);
    div_toward_zero(diff, 86400)
}

/// Age in whole minutes, computed without overflow for any pair of
/// timestamps.
pub(crate) fn minutes_age_exec(created_at: i64, now: i64) -> (r: i64)
    ensures
        r as int == minutes_age(created_at as int, now as int),
{
    let diff: i128 = (now as i128) - (created_at as i128);
    div_toward_zero(diff, 60)
}

/// The scoring and filter engine: a settings snapshot plus pure evaluation
/// methods.
pub struct TokenFilter {
    pub settings: FilterSettings,
}

impl TokenFilter {
    /// A filter holding the default policy.
    pub fn new() -> (r: Self)
        ensures
            is_default_settings(r.settings),
    {
        TokenFilter { settings: FilterSettings::default() }
    }

    /// Replaces the whole policy snapshot at once: no partial application.
    pub fn update_settings(&mut self, settings: FilterSettings)
        ensures
            final(self).settings == settings,
    {
        self.settings = settings;
    }

    /// A copy of the current policy.
    pub fn get_settings(&self) -> (r: FilterSettings)
        ensures
            same_settings(r, self.settings),
    {
        self.settings.clone()
    }

    fn check_liquidity(&self, token: &TokenOpportunity) -> (r: bool)
        ensures
            r == check_liquidity_spec(*token, self.settings),
    {
        token.liquidity >= self.settings.min_liquidity
    }

    fn check_holders(&self, token: &TokenOpportunity) -> (r: bool)
        ensures
            r == check_holders_spec(*token, self.settings),
    {
        token.holders >= self.settings.min_holders
    }

    fn check_taxes(&self, token: &TokenOpportunity) -> (r: bool)
        ensures
            r == check_taxes_spec(*token, self.settings),
    {
        token.buy_tax <= self.settings.max_buy_tax && token.sell_tax <= self.settings.max_sell_tax
    }

    fn check_lp_lock(&self, token: &TokenOpportunity, now: i64) -> (r: bool)
        ensures
            r == check_lp_lock_spec(*token, self.settings, now as int),
    {
        if !self.settings.require_lp_lock {
            return true;
        }
        if !token.lp_locked {
            return false;
        }
        match token.lp_lock_end {
            Some(end) => {
                let d = days_remaining_exec(now, end);
                d >= self.settings.min_lp_lock_days as i64
            },
            None => false,
        }
    }

    fn check_token_age(&self, token: &TokenOpportunity, now: i64) -> (r: bool)
        ensures
            r == check_token_age_spec(*token, self.settings, now as int),
    {
        let age = minutes_age_exec(token.created_at, now);
        age >= self.settings.min_token_age_minutes as i64
    }

    fn check_blacklist(&self, token: &TokenOpportunity) -> (r: bool)
        ensures
            r == check_blacklist_spec(*token, self.settings),
    {
        let n = self.settings.blacklisted_creators.len();
        let mut i: usize = 0;
        while i < n
            invariant
                0 <= i <= n,
                n == self.settings.blacklisted_creators@.len(),
                forall|k: int|
                    0 <= k < i ==> (#[trigger] self.settings.blacklisted_creators@[k])@
                        != token.address@,
            decreases n - i,
        {
            if self.settings.blacklisted_creators[i].eq(&token.address) {
                return false;
            }
            i = i + 1;
        }
        true
    }

    fn check_score(&self, token: &TokenOpportunity) -> (r: bool)
        ensures
            r == check_score_spec(*token, self.settings),
    {
        token.score >= self.settings.min_score
    }

    /// The hard filter: all six predicates must hold.
    pub fn validate(&self, token: &TokenOpportunity, now: i64) -> (r: bool)
        ensures
            r == spec_validate(*token, self.settings, now as int),
    {
        self.check_liquidity(token) && self.check_holders(token) && self.check_taxes(token)
            && self.check_lp_lock(token, now) && self.check_token_age(token, now)
            && self.check_blacklist(token) && self.check_score(token)
    }

    /// The safety score of one opportunity at `now`: 100 minus the risk
    /// penalties, clamped to [0, 100].
    pub fn calculate_score(&self, token: &TokenOpportunity, now: i64) -> (score: u8)
        ensures
            score as int == spec_score(*token, self.settings, now as int),
    {
        let mut deduction: u32 = 0;

        if token.liquidity < self.settings.min_liquidity {
            deduction = deduction + 20;
        } else if (token.liquidity as u128) < 2 * (self.settings.min_liquidity as u128) {
            deduction = deduction + 10;
        }
        if token.holders < self.settings.min_holders {
            deduction = deduction + 15;
        } else if (token.holders as u64) < 2 * (self.settings.min_holders as u64) {
            deduction = deduction + 7;
        }

        let tax_raw: u32 = (token.buy_tax as u32 + token.sell_tax as u32) * 5 / 4;
        let tax: u32 = if tax_raw > 25 {
            25
        } else {
            tax_raw
        };
        deduction = deduction + tax;

        if !token.lp_locked {
            deduction = deduction + 30;
        } else {
            match token.lp_lock_end {
                Some(end) => {
                    let d = days_remaining_exec(now, end);
                    if d < 30 {
                        deduction = deduction + 25;
                    } else if d < 90 {
                        deduction = deduction + 15;
                    } else if d < 180 {
                        deduction = deduction + 5;
                    }
                },
                None => {},
            }
        }

        let age = minutes_age_exec(token.created_at, now);
        if age < self.settings.min_token_age_minutes as i64 {
            deduction = deduction + 10;
        }

        assert(deduction as int == total_deduction(*token, self.settings, now as int));
        proof {
            lemma_total_deduction_bounds(*token, self.settings, now as int);
        }
        (100 - deduction) as u8
    }
}

} // verus!

