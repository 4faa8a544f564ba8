use wolf63x_sniper::filters::{FilterSettings, TokenFilter};
use wolf63x_sniper::scanner::TokenOpportunity;

fn opportunity() -> TokenOpportunity {
    TokenOpportunity {
        address: String::from("mint-1"),
        symbol: String::from("TKN"),
        name: String::from("Token"),
        price: 1,
        market_cap: 0,
        volume_24h: 0,
        liquidity: 10,
        holders: 100,
        created_at: -600,
        lp_locked: true,
        lp_lock_end: Some(200 * 86400),
        buy_tax: 0,
        sell_tax: 0,
        score: 80,
        source: String::from("pump.fun"),
    }
}

fn settings() -> FilterSettings {
    FilterSettings {
        min_liquidity: 25,
        min_holders: 50,
        max_buy_tax: 10,
        max_sell_tax: 10,
        require_lp_lock: true,
        min_lp_lock_days: 30,
        min_token_age_minutes: 3,
        max_similar_tokens: 3,
        blacklisted_creators: Vec::new(),
        min_score: 75,
    }
}

fn filter_with(settings: FilterSettings) -> TokenFilter {
    let mut f = TokenFilter::new();
    f.update_settings(settings);
    f
}

#[test]
fn scenario_liquidity_below_minimum() {
    // liquidity 10 < 25 costs 20 points and fails the hard filter; every
    // other threshold is met, so the score is exactly 80.
    let f = filter_with(settings());
    let t = opportunity();
    assert_eq!(f.calculate_score(&t, 0), 80);
    assert!(!f.validate(&t, 0));
}

#[test]
fn scenario_all_thresholds_met() {
    // Raising liquidity to 60 clears both liquidity bands: no deduction at
    // all, and the hard filter passes.
    let f = filter_with(settings());
    let mut t = opportunity();
    t.liquidity = 60;
    assert_eq!(f.calculate_score(&t, 0), 100);
    assert!(f.validate(&t, 0));
}

#[test]
fn score_stays_in_range_at_worst() {
    // Everything wrong at once: the penalties total exactly 100.
    let f = filter_with(settings());
    let t = TokenOpportunity {
        address: String::from("bad"),
        symbol: String::from("BAD"),
        name: String::from("Bad"),
        price: 0,
        market_cap: 0,
        volume_24h: 0,
        liquidity: 0,
        holders: 0,
        created_at: 0,
        lp_locked: false,
        lp_lock_end: None,
        buy_tax: 100,
        sell_tax: 100,
        score: 0,
        source: String::from("pump.fun"),
    };
    assert_eq!(f.calculate_score(&t, 0), 0);
}

#[test]
fn liquidity_between_one_and_two_minimums() {
    let f = filter_with(settings());
    let mut t = opportunity();
    t.liquidity = 30; // 25 <= 30 < 50
    assert_eq!(f.calculate_score(&t, 0), 90);
}

#[test]
fn holder_deductions() {
    let f = filter_with(settings());
    let mut t = opportunity();
    t.liquidity = 60;
    t.holders = 10; // below 50
    assert_eq!(f.calculate_score(&t, 0), 85);
    t.holders = 60; // below 100 = 2 * 50
    assert_eq!(f.calculate_score(&t, 0), 93);
}

#[test]
fn tax_deduction_truncates_and_caps() {
    let f = filter_with(settings());
    let mut t = opportunity();
    t.liquidity = 60;
    // (3 + 0) * 5 / 4 = 3.75 truncated to 3
    t.buy_tax = 3;
    assert_eq!(f.calculate_score(&t, 0), 97);
    // (10 + 10) * 5 / 4 = 25, exactly the cap
    t.buy_tax = 10;
    t.sell_tax = 10;
    assert_eq!(f.calculate_score(&t, 0), 75);
    // (90 + 90) * 5 / 4 = 225, capped at 25
    t.buy_tax = 90;
    t.sell_tax = 90;
    assert_eq!(f.calculate_score(&t, 0), 75);
}

#[test]
fn lp_lock_deductions() {
    let f = filter_with(settings());
    let mut t = opportunity();
    t.liquidity = 60;
    t.lp_locked = false;
    assert_eq!(f.calculate_score(&t, 0), 70);
    t.lp_locked = true;
    t.lp_lock_end = None; // locked, unknown end: no extra deduction
    assert_eq!(f.calculate_score(&t, 0), 100);
    t.lp_lock_end = Some(10 * 86400); // 10 days left
    assert_eq!(f.calculate_score(&t, 0), 75);
    t.lp_lock_end = Some(50 * 86400); // 50 days left
    assert_eq!(f.calculate_score(&t, 0), 85);
    t.lp_lock_end = Some(120 * 86400); // 120 days left
    assert_eq!(f.calculate_score(&t, 0), 95);
}

#[test]
fn young_token_deduction() {
    let f = filter_with(settings());
    let mut t = opportunity();
    t.liquidity = 60;
    t.created_at = -60; // one minute old, minimum is three
    assert_eq!(f.calculate_score(&t, 0), 90);
    assert!(!f.validate(&t, 0));
}

#[test]
fn score_monotonic_in_liquidity() {
    let f = filter_with(settings());
    let mut low = opportunity();
    let mut prev = None;
    for liquidity in [0u64, 10, 24, 25, 40, 49, 50, 1000] {
        low.liquidity = liquidity;
        let s = f.calculate_score(&low, 0);
        if let Some(p) = prev {
            assert!(p <= s);
        }
        prev = Some(s);
    }
}

#[test]
fn score_monotonic_in_lock_days() {
    let f = filter_with(settings());
    let mut t = opportunity();
    t.liquidity = 60;
    let mut prev = None;
    for days in [0i64, 29, 30, 89, 90, 179, 180, 400] {
        t.lp_lock_end = Some(days * 86400);
        let s = f.calculate_score(&t, 0);
        if let Some(p) = prev {
            assert!(p <= s);
        }
        prev = Some(s);
    }
}

#[test]
fn filter_fails_while_score_is_high() {
    // The hard filter and the score are independent: predicate 1 fails here
    // while the score is well above zero.
    let f = filter_with(settings());
    let t = opportunity();
    assert!(!f.validate(&t, 0));
    assert!(f.calculate_score(&t, 0) > 0);
}

#[test]
fn validate_requires_stored_min_score() {
    let f = filter_with(settings());
    let mut t = opportunity();
    t.liquidity = 60;
    t.score = 74; // one below the minimum
    assert!(!f.validate(&t, 0));
    t.score = 75;
    assert!(f.validate(&t, 0));
}

#[test]
fn blacklisted_address_fails_filter() {
    let mut s = settings();
    s.blacklisted_creators.push(String::from("mint-1"));
    let f = filter_with(s);
    let mut t = opportunity();
    t.liquidity = 60;
    assert!(!f.validate(&t, 0));
    // The score itself ignores the blacklist.
    assert_eq!(f.calculate_score(&t, 0), 100);
}

#[test]
fn lp_lock_not_required_passes_unlocked() {
    let mut s = settings();
    s.require_lp_lock = false;
    let f = filter_with(s);
    let mut t = opportunity();
    t.liquidity = 60;
    t.lp_locked = false;
    t.lp_lock_end = None;
    assert!(f.validate(&t, 0));
}

#[test]
fn lp_lock_required_unknown_end_fails() {
    let f = filter_with(settings());
    let mut t = opportunity();
    t.liquidity = 60;
    t.lp_lock_end = None;
    assert!(!f.validate(&t, 0));
}

#[test]
fn default_settings_values() {
    let f = TokenFilter::new();
    let s = f.get_settings();
    assert_eq!(s.min_liquidity, 25);
    assert_eq!(s.min_holders, 50);
    assert_eq!(s.max_buy_tax, 10);
    assert_eq!(s.max_sell_tax, 10);
    assert!(s.require_lp_lock);
    assert_eq!(s.min_lp_lock_days, 30);
    assert_eq!(s.min_token_age_minutes, 3);
    assert_eq!(s.max_similar_tokens, 3);
    assert!(s.blacklisted_creators.is_empty());
    assert_eq!(s.min_score, 75);
}

#[test]
fn update_settings_replaces_whole_snapshot() {
    let mut f = TokenFilter::new();
    let mut s = settings();
    s.min_liquidity = 99;
    s.min_score = 10;
    f.update_settings(s);
    let got = f.get_settings();
    assert_eq!(got.min_liquidity, 99);
    assert_eq!(got.min_score, 10);
}
