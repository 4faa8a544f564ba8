//! Token opportunities: the canonical record, the raw feed event, and the
//! bounded, deduplicated store (most-recent-first, capacity 1000).
use vstd::prelude::*;

verus! {

use crate::decimal::amount_of_text;
use crate::decimal::parse_amount;
use crate::filters::same_settings;
use crate::filters::spec_validate;
use crate::filters::FilterSettings;
use vstd::string::StringExecFns;

/// One discovered tradable asset. Amounts are integers in base units;
/// timestamps are Unix seconds.
#[derive(Debug)]
pub struct TokenOpportunity {
    pub address: String,
    pub symbol: String,
    pub name: String,
    pub price: u64,
    pub market_cap: u64,
    pub volume_24h: u64,
    pub liquidity: u64,
    pub holders: u32,
    pub created_at: i64,
    pub lp_locked: bool,
    pub lp_lock_end: Option<i64>,
    pub buy_tax: u8,
    pub sell_tax: u8,
    pub score: u8,
    pub source: String,
}

impl Clone for TokenOpportunity {
    fn clone(&self) -> (res: Self)
        ensures
            res == *self,
    {
        TokenOpportunity {
            address: self.address.clone(),
            symbol: self.symbol.clone(),
            name: self.name.clone(),
            price: self.price,
            market_cap: self.market_cap,
            volume_24h: self.volume_24h,
            liquidity: self.liquidity,
            holders: self.holders,
            created_at: self.created_at,
            lp_locked: self.lp_locked,
            lp_lock_end: self.lp_lock_end,
            buy_tax: self.buy_tax,
            sell_tax: self.sell_tax,
            score: self.score,
            source: self.source.clone(),
        }
    }
}

/// One raw new-listing event as the feed delivers it: every numeric field is
/// still text. Field names follow the wire format.
#[allow(non_snake_case)]
#[derive(Debug)]
pub struct NewTokenEvent {
    pub mint: String,
    pub name: String,
    pub symbol: String,
    pub priceNative: String,
    pub priceUsd: String,
    pub liquidity: String,
    pub createdAt: String,
}

impl NewTokenEvent {
    /// Normalizes a raw feed event into a canonical record: price and
    /// liquidity are parsed from text (malformed text gives 0), every field
    /// the feed does not provide is defaulted, and `created_at` is the time
    /// of first sighting.
    pub fn to_opportunity(&self, now: i64) -> (t: TokenOpportunity)
        ensures
            t.address@ == self.mint@,
            t.symbol@ == self.symbol@,
            t.name@ == self.name@,
            t.price as int == amount_of_text(self.priceUsd@),
            t.market_cap == 0,
            t.volume_24h == 0,
            t.liquidity as int == amount_of_text(self.liquidity@),
            t.holders == 0,
            t.created_at == now,
            t.lp_locked == false,
            t.lp_lock_end == None::<i64>,
            t.buy_tax == 0,
            t.sell_tax == 0,
            t.score == 0,
            t.source@ == "pump.fun"@,
    {
        TokenOpportunity {
            address: self.mint.clone(),
            symbol: self.symbol.clone(),
            name: self.name.clone(),
            price: parse_amount(self.priceUsd.as_str()),
            market_cap: 0,
            volume_24h: 0,
            liquidity: parse_amount(self.liquidity.as_str()),
            holders: 0,
            created_at: now,
            lp_locked: false,
            lp_lock_end: None,
            buy_tax: 0,
            sell_tax: 0,
            score: 0,
            source: String::from_str("pump.fun"),
        }
    }
}

/// No two records in the sequence share an address.
pub open spec fn distinct_addresses(s: Seq<TokenOpportunity>) -> bool {
    forall|i: int, j: int|
        0 <= i < j < s.len() ==> (#[trigger] s[i]).address@ != (#[trigger] s[j]).address@
}

/// Some record in the sequence has this address.
pub open spec fn contains_address(s: Seq<TokenOpportunity>, addr: Seq<char>) -> bool {
    exists|i: int| 0 <= i < s.len() && (#[trigger] s[i]).address@ == addr
}

/// What one submission does to the stored sequence: a record whose address is
/// already present is dropped (first-seen wins); otherwise the record goes to
/// the front and the oldest records fall off beyond capacity 1000.
pub open spec fn submit_result(
    s: Seq<TokenOpportunity>,
    t: TokenOpportunity,
) -> Seq<TokenOpportunity> {
    if contains_address(s, t.address@) {
        s
    } else if s.len() < 1000 {
        seq![t] + s
    } else {
        (seq![t] + s).take(1000)
    }
}

/// The result of submitting a whole sequence of records in order, oldest
/// first.
pub open spec fn submit_all(
    s: Seq<TokenOpportunity>,
    ts: Seq<TokenOpportunity>,
) -> Seq<TokenOpportunity>
    decreases ts.len(),
{
    if ts.len() == 0 {
        s
    } else {
        submit_result(submit_all(s, ts.drop_last()), ts.last())
    }
}

/// Submitting an address a second time leaves the store exactly as the first
/// submission left it, whatever the other fields of the second record say:
/// first-seen wins.
pub proof fn lemma_submit_idempotent(
    s: Seq<TokenOpportunity>,
    t1: TokenOpportunity,
    t2: TokenOpportunity,
)
    requires
        t2.address@ == t1.address@,
    ensures
        submit_result(submit_result(s, t1), t2) == submit_result(s, t1),
{
    let s1 = submit_result(s, t1);
    if contains_address(s, t1.address@) {
        assert(contains_address(s1, t2.address@));
    } else {
        assert(s1[0] == t1);
        assert(contains_address(s1, t2.address@));
    }
}

/// Submitting records with pairwise-distinct addresses into an empty store
/// leaves exactly the most recent 1000 of them, most recent first.
pub proof fn lemma_submit_all_capacity(ts: Seq<TokenOpportunity>)
    requires
        distinct_addresses(ts),
    ensures
        submit_all(Seq::empty(), ts) == ts.reverse().take(
            vstd::math::min(1000, ts.len() as int),
        ),
    decreases ts.len(),
{
    let n = ts.len() as int;
    if n == 0 {
        assert(submit_all(Seq::empty(), ts) =~= ts.reverse().take(vstd::math::min(1000, 0)));
    } else {
        let butlast = ts.drop_last();
        let last = ts.last();
        assert(distinct_addresses(butlast)) by {
            assert(forall|i: int|
                0 <= i < butlast.len() ==> #[trigger] butlast[i] == ts[i]);
        }
        lemma_submit_all_capacity(butlast);
        let prev = submit_all(Seq::empty(), butlast);
        let m = vstd::math::min(1000, n - 1);
        assert(prev == butlast.reverse().take(m));
        assert(!contains_address(prev, last.address@)) by {
            if contains_address(prev, last.address@) {
                let i = choose|i: int|
                    0 <= i < prev.len() && (#[trigger] prev[i]).address@ == last.address@;
                assert(prev[i] == butlast.reverse()[i]);
                assert(butlast.reverse()[i] == ts[n - 2 - i]);
                assert(ts[n - 2 - i].address@ != ts[n - 1].address@);
            }
        }
        let expected = ts.reverse().take(vstd::math::min(1000, n));
        assert(forall|i: int| 0 <= i < n ==> #[trigger] ts.reverse()[i] == ts[n - 1 - i]);
        assert(submit_result(prev, last) =~= expected);
    }
}

/// Optional overrides for the store's configuration: an absent field leaves
/// the current value in place.
#[derive(Debug)]
pub struct ScannerConfig {
    pub sources: Option<Vec<String>>,
    pub min_liquidity: Option<u64>,
    pub min_holders: Option<u32>,
    pub max_buy_tax: Option<u8>,
    pub max_sell_tax: Option<u8>,
    pub require_lp_lock: Option<bool>,
    pub min_score: Option<u8>,
    pub scan_interval_ms: Option<u32>,
}

/// The opportunity store: a bounded, deduplicated, most-recent-first sequence
/// of canonical records, plus the feed configuration that fills it. Callers
/// that share a store across tasks guard it with a lock around each call.
#[derive(Debug)]
pub struct Scanner {
    pub sources: Vec<String>,
    pub min_liquidity: u64,
    pub min_holders: u32,
    pub max_buy_tax: u8,
    pub max_sell_tax: u8,
    pub require_lp_lock: bool,
    pub min_score: u8,
    pub active: bool,
    pub scan_interval_ms: u32,
    pub opportunities: Vec<TokenOpportunity>,
}

impl Scanner {
    /// The store's invariant: at most 1000 records, no two sharing an
    /// address.
    pub open spec fn wf(&self) -> bool {
        &&& self.opportunities@.len() <= 1000
        &&& distinct_addresses(self.opportunities@)
        &&& forall|i: int|
            0 <= i < self.opportunities@.len() ==> (#[trigger] self.opportunities@[i]).score
                <= 100
    }

    /// An empty store with the default configuration.
    pub fn new() -> (r: Self)
        ensures
            r.wf(),
            r.sources@.len() == 1,
            r.sources@[0]@ == "pump.fun"@,
            r.min_liquidity == 25,
            r.min_holders == 50,
            r.max_buy_tax == 10,
            r.max_sell_tax == 10,
            r.require_lp_lock == true,
            r.min_score == 75,
            r.active == false,
            r.scan_interval_ms == 5000,
            r.opportunities@ == Seq::<TokenOpportunity>::empty(),
    {
        let mut sources: Vec<String> = Vec::new();
        sources.push(String::from_str("pump.fun"));
        let r = Scanner {
            sources,
            min_liquidity: 25,
            min_holders: 50,
            max_buy_tax: 10,
            max_sell_tax: 10,
            require_lp_lock: true,
            min_score: 75,
            active: false,
            scan_interval_ms: 5000,
            opportunities: Vec::new(),
        };
        proof {
            assert(r.opportunities@ =~= Seq::<TokenOpportunity>::empty());
        }
        r
    }

    /// Inserts a record, deduplicating by address (first-seen wins) and
    /// evicting the oldest records beyond capacity 1000.
    pub fn submit(&mut self, token: TokenOpportunity)
        requires
            old(self).wf(),
            token.score <= 100,
        ensures
            final(self).wf(),
            final(self).opportunities@ == submit_result(old(self).opportunities@, token),
            *final(self) == (Scanner { opportunities: final(self).opportunities, ..*old(self) }),
    {
        let n = self.opportunities.len();
        let mut i: usize = 0;
        while i < n
            invariant
                0 <= i <= n,
                *self == *old(self),
                old(self).wf(),
                n == self.opportunities@.len(),
                forall|k: int|
                    0 <= k < i ==> (#[trigger] self.opportunities@[k]).address@ != token.address@,
            decreases n - i,
        {
            if self.opportunities[i].address.eq(&token.address) {
                proof {
                    assert(contains_address(self.opportunities@, token.address@));
                }
                return;
            }
            i = i + 1;
        }
        assert(!contains_address(self.opportunities@, token.address@));
        let ghost pre = self.opportunities@;
        self.opportunities.insert(0, token);
        proof {
            assert(self.opportunities@ =~= seq![token] + pre);
            assert(distinct_addresses(self.opportunities@)) by {
                assert(forall|j: int|
                    1 <= j < self.opportunities@.len() ==> #[trigger] self.opportunities@[j]
                        == pre[j - 1]);
            }
        }
        if self.opportunities.len() > 1000 {
            let ghost full = self.opportunities@;
            self.opportunities.truncate(1000);
            proof {
                assert(self.opportunities@ =~= full.take(1000));
                assert(forall|j: int|
                    0 <= j < 1000 ==> #[trigger] self.opportunities@[j] == full[j]);
            }
        }
    }

    /// A consistent point-in-time copy of the full ordered collection.
    pub fn snapshot(&self) -> (r: Vec<TokenOpportunity>)
        ensures
            r@ == self.opportunities@,
    {
        let mut r: Vec<TokenOpportunity> = Vec::new();
        let n = self.opportunities.len();
        let mut i: usize = 0;
        while i < n
            invariant
                0 <= i <= n,
                n == self.opportunities@.len(),
                r@ =~= self.opportunities@.take(i as int),
            decreases n - i,
        {
            r.push(self.opportunities[i].clone());
            proof {
                assert(r@ =~= self.opportunities@.take(i + 1 as int));
            }
            i = i + 1;
        }
        proof {
            assert(r@ =~= self.opportunities@);
        }
        r
    }

    /// The records of the current snapshot that pass the hard filter under
    /// the given policy, in store order.
    pub fn apply_filters(&self, settings: &FilterSettings, now: i64) -> (r: Vec<TokenOpportunity>)
        ensures
            r@ == self.opportunities@.filter(
                |t: TokenOpportunity| spec_validate(t, *settings, now as int),
            ),
    {
        let ghost pred = |t: TokenOpportunity| spec_validate(t, *settings, now as int);
        let filter = crate::filters::TokenFilter { settings: settings.clone() };
        let mut r: Vec<TokenOpportunity> = Vec::new();
        let n = self.opportunities.len();
        let mut i: usize = 0;
        proof {
            reveal(Seq::filter);
        }
        while i < n
            invariant
                0 <= i <= n,
                n == self.opportunities@.len(),
                same_settings(filter.settings, *settings),
                r@ == self.opportunities@.take(i as int).filter(pred),
                pred == (|t: TokenOpportunity| spec_validate(t, *settings, now as int)),
            decreases n - i,
        {
            let keep = filter.validate(&self.opportunities[i], now);
            proof {
                crate::filters::lemma_validate_same_settings(
                    self.opportunities@[i as int],
                    filter.settings,
                    *settings,
                    now as int,
                );
                reveal(Seq::filter);
                let pre = self.opportunities@.take(i + 1 as int);
                assert(pre.drop_last() =~= self.opportunities@.take(i as int));
                assert(pre.last() == self.opportunities@[i as int]);
            }
            if keep {
                r.push(self.opportunities[i].clone());
                proof {
                    assert(r@ =~= self.opportunities@.take(i as int).filter(pred).push(
                        self.opportunities@[i as int],
                    ));
                }
            }
            i = i + 1;
        }
        proof {
            assert(self.opportunities@.take(n as int) =~= self.opportunities@);
        }
        r
    }

    /// Applies a configuration change: each present field overrides, each
    /// absent field keeps its value. The stored records are untouched.
    pub fn configure(&mut self, config: ScannerConfig)
        ensures
            final(self).sources == (match config.sources {
                Some(v) => v,
                None => old(self).sources,
            }),
            final(self).min_liquidity == (match config.min_liquidity {
                Some(v) => v,
                None => old(self).min_liquidity,
            }),
            final(self).min_holders == (match config.min_holders {
                Some(v) => v,
                None => old(self).min_holders,
            }),
            final(self).max_buy_tax == (match config.max_buy_tax {
                Some(v) => v,
                None => old(self).max_buy_tax,
            }),
            final(self).max_sell_tax == (match config.max_sell_tax {
                Some(v) => v,
                None => old(self).max_sell_tax,
            }),
            final(self).require_lp_lock == (match config.require_lp_lock {
                Some(v) => v,
                None => old(self).require_lp_lock,
            }),
            final(self).min_score == (match config.min_score {
                Some(v) => v,
                None => old(self).min_score,
            }),
            final(self).scan_interval_ms == (match config.scan_interval_ms {
                Some(v) => v,
                None => old(self).scan_interval_ms,
            }),
            final(self).active == old(self).active,
            final(self).opportunities == old(self).opportunities,
    {
        let ScannerConfig {
            sources,
            min_liquidity,
            min_holders,
            max_buy_tax,
            max_sell_tax,
            require_lp_lock,
            min_score,
            scan_interval_ms,
        } = config;
        if let Some(v) = sources {
            self.sources = v;
        }
        if let Some(v) = min_liquidity {
            self.min_liquidity = v;
        }
        if let Some(v) = min_holders {
            self.min_holders = v;
        }
        if let Some(v) = max_buy_tax {
            self.max_buy_tax = v;
        }
        if let Some(v) = max_sell_tax {
            self.max_sell_tax = v;
        }
        if let Some(v) = require_lp_lock {
            self.require_lp_lock = v;
        }
        if let Some(v) = min_score {
            self.min_score = v;
        }
        if let Some(v) = scan_interval_ms {
            self.scan_interval_ms = v;
        }
    }

    /// Marks the feed active. Idempotent.
    pub fn start(&mut self)
        ensures
            *final(self) == (Scanner { active: true, ..*old(self) }),
    {
        if self.active {
            return;
        }
        self.active = true;
    }

    /// Marks the feed inactive. Idempotent.
    pub fn stop(&mut self)
        ensures
            *final(self) == (Scanner { active: false, ..*old(self) }),
    {
        if !self.active {
            return;
        }
        self.active = false;
    }
}

} // verus!
