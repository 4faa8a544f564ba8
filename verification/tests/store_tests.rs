use wolf63x_sniper::decimal::{i64_text, parse_amount, u64_text};
use wolf63x_sniper::filters::FilterSettings;
use wolf63x_sniper::scanner::{NewTokenEvent, Scanner, ScannerConfig, TokenOpportunity};

fn record(address: &str, liquidity: u64) -> TokenOpportunity {
    TokenOpportunity {
        address: String::from(address),
        symbol: String::from("TKN"),
        name: String::from("Token"),
        price: 1,
        market_cap: 0,
        volume_24h: 0,
        liquidity,
        holders: 100,
        created_at: -600,
        lp_locked: true,
        lp_lock_end: Some(200 * 86400),
        buy_tax: 0,
        sell_tax: 0,
        score: 80,
        source: String::from("pump.fun"),
    }
}

fn settings() -> FilterSettings {
    FilterSettings {
        min_liquidity: 25,
        min_holders: 50,
        max_buy_tax: 10,
        max_sell_tax: 10,
        require_lp_lock: true,
        min_lp_lock_days: 30,
        min_token_age_minutes: 3,
        max_similar_tokens: 3,
        blacklisted_creators: Vec::new(),
        min_score: 75,
    }
}

#[test]
fn resubmission_keeps_first_seen_values() {
    let mut store = Scanner::new();
    store.submit(record("mint-1", 10));
    let mut changed = record("mint-1", 999);
    changed.symbol = String::from("OTHER");
    store.submit(changed);
    let snap = store.snapshot();
    assert_eq!(snap.len(), 1);
    assert_eq!(snap[0].liquidity, 10);
    assert_eq!(snap[0].symbol, "TKN");
}

#[test]
fn newest_submission_goes_to_front() {
    let mut store = Scanner::new();
    store.submit(record("a", 1));
    store.submit(record("b", 2));
    store.submit(record("c", 3));
    let snap = store.snapshot();
    assert_eq!(snap.len(), 3);
    assert_eq!(snap[0].address, "c");
    assert_eq!(snap[1].address, "b");
    assert_eq!(snap[2].address, "a");
}

#[test]
fn capacity_keeps_the_most_recent_thousand() {
    let mut store = Scanner::new();
    for i in 0..1005u32 {
        store.submit(record(&format!("mint-{i}"), 10));
    }
    let snap = store.snapshot();
    assert_eq!(snap.len(), 1000);
    // Most recent first; the five oldest were evicted.
    assert_eq!(snap[0].address, "mint-1004");
    assert_eq!(snap[999].address, "mint-5");
    assert!(!snap.iter().any(|t| t.address == "mint-4"));
}

#[test]
fn snapshot_is_a_copy() {
    let mut store = Scanner::new();
    store.submit(record("a", 1));
    let mut snap = store.snapshot();
    snap[0].liquidity = 777;
    snap.clear();
    assert_eq!(store.snapshot().len(), 1);
    assert_eq!(store.snapshot()[0].liquidity, 1);
}

#[test]
fn apply_filters_keeps_only_passing_records_in_order() {
    let mut store = Scanner::new();
    let mut fails_age = record("young", 60);
    fails_age.created_at = -60;
    store.submit(record("a", 60));
    store.submit(fails_age);
    store.submit(record("b", 10)); // fails liquidity
    store.submit(record("c", 60));
    let passing = store.apply_filters(&settings(), 0);
    assert_eq!(passing.len(), 2);
    assert_eq!(passing[0].address, "c");
    assert_eq!(passing[1].address, "a");
}

#[test]
fn apply_filters_consults_the_blacklist() {
    let mut store = Scanner::new();
    store.submit(record("a", 60));
    store.submit(record("b", 60));
    let mut s = settings();
    s.blacklisted_creators.push(String::from("a"));
    let passing = store.apply_filters(&s, 0);
    assert_eq!(passing.len(), 1);
    assert_eq!(passing[0].address, "b");
}

#[test]
fn configure_overrides_present_fields_only() {
    let mut store = Scanner::new();
    store.configure(ScannerConfig {
        sources: None,
        min_liquidity: Some(40),
        min_holders: None,
        max_buy_tax: Some(5),
        max_sell_tax: None,
        require_lp_lock: Some(false),
        min_score: None,
        scan_interval_ms: Some(1000),
    });
    assert_eq!(store.min_liquidity, 40);
    assert_eq!(store.min_holders, 50);
    assert_eq!(store.max_buy_tax, 5);
    assert_eq!(store.max_sell_tax, 10);
    assert!(!store.require_lp_lock);
    assert_eq!(store.min_score, 75);
    assert_eq!(store.scan_interval_ms, 1000);
    assert_eq!(store.sources, vec![String::from("pump.fun")]);
}

#[test]
fn start_and_stop_are_idempotent_toggles() {
    let mut store = Scanner::new();
    assert!(!store.active);
    store.start();
    assert!(store.active);
    store.start();
    assert!(store.active);
    store.stop();
    assert!(!store.active);
    store.stop();
    assert!(!store.active);
}

fn event(price_usd: &str, liquidity: &str) -> NewTokenEvent {
    NewTokenEvent {
        mint: String::from("mint-9"),
        name: String::from("Fresh Token"),
        symbol: String::from("FRS"),
        priceNative: String::from("0.001"),
        priceUsd: String::from(price_usd),
        liquidity: String::from(liquidity),
        createdAt: String::from("2024-01-01T00:00:00Z"),
    }
}

#[test]
fn event_normalization_fills_defaults() {
    let t = event("12.9", "345").to_opportunity(1700000000);
    assert_eq!(t.address, "mint-9");
    assert_eq!(t.symbol, "FRS");
    assert_eq!(t.name, "Fresh Token");
    assert_eq!(t.price, 12);
    assert_eq!(t.liquidity, 345);
    assert_eq!(t.market_cap, 0);
    assert_eq!(t.volume_24h, 0);
    assert_eq!(t.holders, 0);
    assert_eq!(t.created_at, 1700000000);
    assert!(!t.lp_locked);
    assert_eq!(t.lp_lock_end, None);
    assert_eq!(t.buy_tax, 0);
    assert_eq!(t.sell_tax, 0);
    assert_eq!(t.score, 0);
    assert_eq!(t.source, "pump.fun");
}

#[test]
fn malformed_numeric_text_defaults_to_zero() {
    let t = event("not-a-number", "").to_opportunity(0);
    assert_eq!(t.price, 0);
    assert_eq!(t.liquidity, 0);
}

#[test]
fn amount_parsing_rules() {
    assert_eq!(parse_amount("0"), 0);
    assert_eq!(parse_amount("123"), 123);
    assert_eq!(parse_amount("123.45"), 123);
    assert_eq!(parse_amount("7."), 7);
    assert_eq!(parse_amount(".5"), 0);
    assert_eq!(parse_amount("1e3"), 0);
    assert_eq!(parse_amount("-2"), 0);
    assert_eq!(parse_amount("12a"), 0);
    assert_eq!(parse_amount(""), 0);
    assert_eq!(parse_amount("18446744073709551615"), u64::MAX);
    assert_eq!(parse_amount("18446744073709551616"), u64::MAX);
    assert_eq!(parse_amount("99999999999999999999999999"), u64::MAX);
}

#[test]
fn decimal_rendering() {
    assert_eq!(u64_text(0), "0");
    assert_eq!(u64_text(7), "7");
    assert_eq!(u64_text(12345), "12345");
    assert_eq!(u64_text(u64::MAX), "18446744073709551615");
    assert_eq!(i64_text(0), "0");
    assert_eq!(i64_text(-1), "-1");
    assert_eq!(i64_text(-42), "-42");
    assert_eq!(i64_text(i64::MIN), "-9223372036854775808");
    assert_eq!(i64_text(i64::MAX), "9223372036854775807");
}
