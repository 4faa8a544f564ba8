//! The trade ledger: an append-only record of executed trades, per-day
//! rollups maintained incrementally, derived performance metrics, and a
//! delimited-text export.
//!
//! Each day bucket always equals the rollup of the trades recorded so far for
//! that calendar day; appending is the only mutation besides clearing.
use vstd::prelude::*;

verus! {

use crate::dates::datetime_text_of;
use crate::dates::day_key_of;
use crate::dates::day_of;
use crate::dates::format_datetime;
use crate::dates::format_day_key;
use crate::dates::MAX_TIMESTAMP;
use crate::decimal::dec_text_of;
use crate::decimal::i64_text;
use crate::decimal::signed_text_of;
use crate::decimal::u64_text;
use crate::trunc_div;
use vstd::string::StringExecFns;

/// Whether a trade bought or sold.
#[derive(Clone, Copy, Debug, PartialEq, Eq, Structural)]
pub enum TradeType {
    Buy,
    Sell,
}

/// One completed trade. Amounts are integers in base units; the timestamp is
/// Unix seconds. Once appended to the ledger a record is never mutated.
#[derive(Debug)]
pub struct TradeLog {
    pub id: String,
    pub token_address: String,
    pub token_symbol: String,
    pub token_name: String,
    pub trade_type: TradeType,
    pub amount_in: u64,
    pub amount_out: u64,
    pub price: u64,
    pub timestamp: i64,
    pub tx_signature: String,
    pub profit_loss: Option<i64>,
    pub profit_loss_percent: Option<i64>,
    pub time_held: Option<String>,
}

impl Clone for TradeLog {
    fn clone(&self) -> (res: Self)
        ensures
            res == *self,
    {
        TradeLog {
            id: self.id.clone(),
            token_address: self.token_address.clone(),
            token_symbol: self.token_symbol.clone(),
            token_name: self.token_name.clone(),
            trade_type: self.trade_type,
            amount_in: self.amount_in,
            amount_out: self.amount_out,
            price: self.price,
            timestamp: self.timestamp,
            tx_signature: self.tx_signature.clone(),
            profit_loss: self.profit_loss,
            profit_loss_percent: self.profit_loss_percent,
            time_held: match &self.time_held {
                Some(s) => Some(s.clone()),
                None => None,
            },
        }
    }
}

/// Structural shape the ledger expects of a record: a renderable timestamp,
/// and profit or loss populated only on sells.
pub open spec fn trade_wf(t: TradeLog) -> bool {
    &&& 0 <= t.timestamp <= MAX_TIMESTAMP
    &&& (t.profit_loss is Some ==> t.trade_type is Sell)
}

/// One calendar day's rollup of ledger activity.
#[derive(Debug)]
pub struct DailyStats {
    pub date: String,
    pub total_spent: u128,
    pub total_earned: u128,
    pub profit_loss: i128,
    pub trade_count: u64,
    pub win_count: u64,
    pub loss_count: u64,
}

impl Clone for DailyStats {
    fn clone(&self) -> (res: Self)
        ensures
            res == *self,
    {
        DailyStats {
            date: self.date.clone(),
            total_spent: self.total_spent,
            total_earned: self.total_earned,
            profit_loss: self.profit_loss,
            trade_count: self.trade_count,
            win_count: self.win_count,
            loss_count: self.loss_count,
        }
    }
}

/// The mathematical value of one day's rollup.
pub struct StatsModel {
    pub total_spent: int,
    pub total_earned: int,
    pub profit_loss: int,
    pub trade_count: int,
    pub win_count: int,
    pub loss_count: int,
}

/// The day number a trade falls in.
pub open spec fn trade_day(t: TradeLog) -> int {
    day_of(t.timestamp as int)
}

/// The `YYYY-MM-DD` key of the day a trade falls in.
pub open spec fn trade_day_key(t: TradeLog) -> Seq<char> {
    day_key_of(trade_day(t))
}

/// The rollup of no trades.
pub open spec fn empty_stats() -> StatsModel {
    StatsModel {
        total_spent: 0,
        total_earned: 0,
        profit_loss: 0,
        trade_count: 0,
        win_count: 0,
        loss_count: 0,
    }
}

/// How one trade moves a day's rollup: a buy adds to the spend, a sell adds
/// to the earnings, and a sell with a resolved profit or loss also moves the
/// profit sum and exactly one of the win and loss counters, a profit of zero
/// counting as a loss.
pub open spec fn stats_delta(m: StatsModel, t: TradeLog) -> StatsModel {
    match t.trade_type {
        TradeType::Buy => StatsModel {
            total_spent: m.total_spent + t.amount_in,
            trade_count: m.trade_count + 1,
            ..m
        },
        TradeType::Sell => match t.profit_loss {
            Some(p) => StatsModel {
                total_earned: m.total_earned + t.amount_out,
                trade_count: m.trade_count + 1,
                profit_loss: m.profit_loss + p,
                win_count: if p > 0 {
                    m.win_count + 1
                } else {
                    m.win_count
                },
                loss_count: if p > 0 {
                    m.loss_count
                } else {
                    m.loss_count + 1
                },
                ..m
            },
            None => StatsModel {
                total_earned: m.total_earned + t.amount_out,
                trade_count: m.trade_count + 1,
                ..m
            },
        },
    }
}

/// The rollup of every trade of the sequence that falls on the day `key`
/// names.
pub open spec fn stats_for_day(trades: Seq<TradeLog>, key: Seq<char>) -> StatsModel
    decreases trades.len(),
{
    if trades.len() == 0 {
        empty_stats()
    } else if trade_day_key(trades.last()) == key {
        stats_delta(stats_for_day(trades.drop_last(), key), trades.last())
    } else {
        stats_for_day(trades.drop_last(), key)
    }
}

/// A stored bucket carries exactly the numbers of a rollup.
pub open spec fn bucket_matches(b: DailyStats, m: StatsModel) -> bool {
    &&& b.total_spent as int == m.total_spent
    &&& b.total_earned as int == m.total_earned
    &&& b.profit_loss as int == m.profit_loss
    &&& b.trade_count as int == m.trade_count
    &&& b.win_count as int == m.win_count
    &&& b.loss_count as int == m.loss_count
}

/// Some bucket in the sequence carries this date.
pub open spec fn contains_date(s: Seq<DailyStats>, key: Seq<char>) -> bool {
    exists|j: int| 0 <= j < s.len() && (#[trigger] s[j]).date@ == key
}

/// Appending one trade changes the rollup of its own day by one delta and
/// leaves every other day's rollup alone.
pub proof fn lemma_stats_push(trades: Seq<TradeLog>, t: TradeLog, key: Seq<char>)
    ensures
        stats_for_day(trades.push(t), key) == (if trade_day_key(t) == key {
            stats_delta(stats_for_day(trades, key), t)
        } else {
            stats_for_day(trades, key)
        }),
{
    assert(trades.push(t).drop_last() =~= trades);
    assert(trades.push(t).last() == t);
}

/// A day no trade falls in rolls up to zero.
pub proof fn lemma_stats_no_match(trades: Seq<TradeLog>, key: Seq<char>)
    requires
        forall|i: int| 0 <= i < trades.len() ==> trade_day_key(#[trigger] trades[i]) != key,
    ensures
        stats_for_day(trades, key) == empty_stats(),
    decreases trades.len(),
{
    if trades.len() > 0 {
        let pre = trades.drop_last();
        assert(forall|i: int| 0 <= i < pre.len() ==> #[trigger] pre[i] == trades[i]);
        lemma_stats_no_match(pre, key);
        assert(trade_day_key(trades[trades.len() - 1]) != key);
    }
}

/// Every rollup is bounded by the number of trades behind it: at most one
/// count, one `u64` of money and one `i64` of profit or loss per trade.
pub proof fn lemma_stats_bounds(trades: Seq<TradeLog>, key: Seq<char>)
    ensures
        0 <= stats_for_day(trades, key).trade_count <= trades.len(),
        stats_for_day(trades, key).win_count >= 0,
        stats_for_day(trades, key).loss_count >= 0,
        stats_for_day(trades, key).win_count + stats_for_day(trades, key).loss_count
            <= stats_for_day(trades, key).trade_count,
        0 <= stats_for_day(trades, key).total_spent <= stats_for_day(trades, key).trade_count
            * 0xffff_ffff_ffff_ffff,
        0 <= stats_for_day(trades, key).total_earned <= stats_for_day(trades, key).trade_count
            * 0xffff_ffff_ffff_ffff,
        -(stats_for_day(trades, key).trade_count * 0x8000_0000_0000_0000) <= stats_for_day(
            trades,
            key,
        ).profit_loss,
        stats_for_day(trades, key).profit_loss <= stats_for_day(trades, key).trade_count
            * 0x7fff_ffff_ffff_ffff,
    decreases trades.len(),
{
    if trades.len() > 0 {
        lemma_stats_bounds(trades.drop_last(), key);
    }
}

/// For a day bucket fed only by sells with a resolved profit or loss, the
/// trade count splits exactly into wins plus losses.
pub proof fn lemma_day_additivity(trades: Seq<TradeLog>, key: Seq<char>)
    requires
        forall|i: int|
            0 <= i < trades.len() && trade_day_key(#[trigger] trades[i]) == key ==> trades[
                i
            ].trade_type is Sell && trades[i].profit_loss is Some,
    ensures
        stats_for_day(trades, key).trade_count == stats_for_day(trades, key).win_count
            + stats_for_day(trades, key).loss_count,
    decreases trades.len(),
{
    if trades.len() > 0 {
        let pre = trades.drop_last();
        assert(forall|i: int| 0 <= i < pre.len() ==> #[trigger] pre[i] == trades[i]);
        lemma_day_additivity(pre, key);
        assert(trades.last() == trades[trades.len() - 1]);
    }
}

/// Is the trade a sell?
pub open spec fn is_sell(t: TradeLog) -> bool {
    t.trade_type is Sell
}

/// The profit or loss a trade contributes to the totals: zero when
/// unresolved.
pub open spec fn sell_pl(t: TradeLog) -> int {
    match t.profit_loss {
        Some(p) => p as int,
        None => 0,
    }
}

/// A winning trade: a sell with a strictly positive resolved profit.
pub open spec fn is_win(t: TradeLog) -> bool {
    is_sell(t) && sell_pl(t) > 0
}

/// A sell whose profit or loss is resolved.
pub open spec fn pl_present(t: TradeLog) -> bool {
    is_sell(t) && t.profit_loss is Some
}

/// How many trades of the sequence are sells.
pub open spec fn sell_count(s: Seq<TradeLog>) -> int
    decreases s.len(),
{
    if s.len() == 0 {
        0
    } else {
        sell_count(s.drop_last()) + if is_sell(s.last()) {
            1int
        } else {
            0int
        }
    }
}

/// How many trades of the sequence are wins.
pub open spec fn win_count_of(s: Seq<TradeLog>) -> int
    decreases s.len(),
{
    if s.len() == 0 {
        0
    } else {
        win_count_of(s.drop_last()) + if is_win(s.last()) {
            1int
        } else {
            0int
        }
    }
}

/// How many trades of the sequence are sells with a resolved profit or loss.
pub open spec fn pl_count(s: Seq<TradeLog>) -> int
    decreases s.len(),
{
    if s.len() == 0 {
        0
    } else {
        pl_count(s.drop_last()) + if pl_present(s.last()) {
            1int
        } else {
            0int
        }
    }
}

/// The sum of profit or loss over the sells of the sequence.
pub open spec fn profit_total(s: Seq<TradeLog>) -> int
    decreases s.len(),
{
    if s.len() == 0 {
        0
    } else {
        profit_total(s.drop_last()) + if is_sell(s.last()) {
            sell_pl(s.last())
        } else {
            0int
        }
    }
}

/// The best resolved profit among the sells of the sequence; zero when none
/// is resolved.
pub open spec fn best_profit(s: Seq<TradeLog>) -> int
    decreases s.len(),
{
    if s.len() == 0 {
        0
    } else if pl_present(s.last()) {
        if pl_count(s.drop_last()) == 0 {
            sell_pl(s.last())
        } else {
            vstd::math::max(best_profit(s.drop_last()), sell_pl(s.last()))
        }
    } else {
        best_profit(s.drop_last())
    }
}

/// The worst resolved profit among the sells of the sequence; zero when none
/// is resolved.
pub open spec fn worst_profit(s: Seq<TradeLog>) -> int
    decreases s.len(),
{
    if s.len() == 0 {
        0
    } else if pl_present(s.last()) {
        if pl_count(s.drop_last()) == 0 {
            sell_pl(s.last())
        } else {
            vstd::math::min(worst_profit(s.drop_last()), sell_pl(s.last()))
        }
    } else {
        worst_profit(s.drop_last())
    }
}

/// The counters behind the metrics are bounded by the number of trades, and
/// the profit total by one `i64` per sell.
pub proof fn lemma_metric_counts(s: Seq<TradeLog>)
    ensures
        0 <= win_count_of(s) <= sell_count(s),
        0 <= pl_count(s) <= sell_count(s),
        sell_count(s) <= s.len(),
        -(sell_count(s) * 0x8000_0000_0000_0000) <= profit_total(s),
        profit_total(s) <= sell_count(s) * 0x7fff_ffff_ffff_ffff,
    decreases s.len(),
{
    if s.len() > 0 {
        lemma_metric_counts(s.drop_last());
    }
}

/// With no sells at all, every derived figure degenerates to zero.
pub proof fn lemma_metrics_degenerate(s: Seq<TradeLog>)
    requires
        sell_count(s) == 0,
    ensures
        win_count_of(s) == 0,
        pl_count(s) == 0,
        profit_total(s) == 0,
        best_profit(s) == 0,
        worst_profit(s) == 0,
    decreases s.len(),
{
    if s.len() > 0 {
        lemma_metric_counts(s.drop_last());
        lemma_metrics_degenerate(s.drop_last());
    }
}

/// Derived performance figures, recomputed on demand from the full ledger.
/// `win_rate` is a percentage truncated to a whole number; `avg_profit` is
/// the truncated mean profit over sells.
#[derive(Clone, Copy, Debug, PartialEq, Eq, Structural)]
pub struct PerformanceMetrics {
    pub total_trades: u64,
    pub win_trades: u64,
    pub loss_trades: u64,
    pub win_rate: u64,
    pub total_profit: i128,
    pub avg_profit: i64,
    pub best_trade: i64,
    pub worst_trade: i64,
}

/// The text of a trade type in the export.
pub open spec fn trade_type_text(ty: TradeType) -> Seq<char> {
    match ty {
        TradeType::Buy => "Buy"@,
        TradeType::Sell => "Sell"@,
    }
}

/// How an optional signed amount renders in the export: an absent value
/// renders as zero.
pub open spec fn opt_amount_text(o: Option<i64>) -> Seq<char> {
    signed_text_of(
        match o {
            Some(p) => p as int,
            None => 0,
        },
    )
}

/// How the optional holding time renders in the export: absent is empty.
pub open spec fn time_held_text(o: Option<String>) -> Seq<char> {
    match o {
        Some(s) => s@,
        None => Seq::<char>::empty(),
    }
}

/// The export's header row.
pub open spec fn csv_header() -> Seq<char> {
    "Date,Token,Type,Amount In,Amount Out,Price,Profit/Loss,Profit/Loss %,Time Held,Tx Signature\n"@
}

/// One trade's row in the export.
pub open spec fn csv_row(t: TradeLog) -> Seq<char> {
    datetime_text_of(t.timestamp as int) + ","@ + t.token_symbol@ + ","@ + trade_type_text(
        t.trade_type,
    ) + ","@ + dec_text_of(t.amount_in as int) + ","@ + dec_text_of(t.amount_out as int) + ","@
        + dec_text_of(t.price as int) + ","@ + opt_amount_text(t.profit_loss) + ","@
        + opt_amount_text(t.profit_loss_percent) + ","@ + time_held_text(t.time_held) + ","@
        + t.tx_signature@ + "\n"@
}

/// The whole export: the header, then one row per trade in insertion order.
pub open spec fn csv_text(trades: Seq<TradeLog>) -> Seq<char>
    decreases trades.len(),
{
    if trades.len() == 0 {
        csv_header()
    } else {
        csv_text(trades.drop_last()) + csv_row(trades.last())
    }
}

/// The ledger: every trade in insertion order, plus one rollup bucket per
/// calendar day that has seen a trade. Callers that share a ledger across
/// tasks guard it with a lock around each call.
#[derive(Debug)]
pub struct Logger {
    pub trade_logs: Vec<TradeLog>,
    pub daily_stats: Vec<DailyStats>,
}

impl Logger {
    /// The ledger's invariant: every stored trade is well-formed; bucket
    /// dates are distinct; every bucket carries exactly the rollup of the
    /// stored trades of its day; every stored trade has a bucket; and no
    /// bucket is empty.
    pub open spec fn wf(&self) -> bool {
        &&& forall|i: int|
            0 <= i < self.trade_logs@.len() ==> trade_wf(#[trigger] self.trade_logs@[i])
        &&& forall|i: int, j: int|
            0 <= i < j < self.daily_stats@.len() ==> (#[trigger] self.daily_stats@[i]).date@ != (
            #[trigger] self.daily_stats@[j]).date@
        &&& forall|j: int|
            0 <= j < self.daily_stats@.len() ==> bucket_matches(
                #[trigger] self.daily_stats@[j],
                stats_for_day(self.trade_logs@, self.daily_stats@[j].date@),
            )
        &&& forall|i: int|
            0 <= i < self.trade_logs@.len() ==> contains_date(
                self.daily_stats@,
                trade_day_key(#[trigger] self.trade_logs@[i]),
            )
        &&& forall|j: int|
            0 <= j < self.daily_stats@.len() ==> stats_for_day(
                self.trade_logs@,
                (#[trigger] self.daily_stats@[j]).date@,
            ).trade_count > 0
    }

    /// An empty ledger.
    pub fn new() -> (r: Self)
        ensures
            r.wf(),
            r.trade_logs@ == Seq::<TradeLog>::empty(),
            r.daily_stats@ == Seq::<DailyStats>::empty(),
    {
        let r = Logger { trade_logs: Vec::new(), daily_stats: Vec::new() };
        proof {
            assert(r.trade_logs@ =~= Seq::<TradeLog>::empty());
            assert(r.daily_stats@ =~= Seq::<DailyStats>::empty());
        }
        r
    }

    /// The index of the bucket carrying this date, if one exists.
    fn find_bucket(&self, key: &String) -> (r: Option<usize>)
        ensures
            match r {
                Some(j) => 0 <= j < self.daily_stats@.len() && self.daily_stats@[j as int].date@
                    == key@,
                None => !contains_date(self.daily_stats@, key@),
            },
    {
        let n = self.daily_stats.len();
        let mut j: usize = 0;
        while j < n
            invariant
                0 <= j <= n,
                n == self.daily_stats@.len(),
                forall|k: int| 0 <= k < j ==> (#[trigger] self.daily_stats@[k]).date@ != key@,
            decreases n - j,
        {
            if self.daily_stats[j].date.eq(key) {
                return Some(j);
            }
            j = j + 1;
        }
        None
    }

    /// Appends one trade and rolls it into its day's bucket, creating the
    /// bucket if the day is new. Duplicate appends of an identical trade are
    /// not detected and will double-count.
    pub fn log_trade(&mut self, trade: TradeLog)
        requires
            old(self).wf(),
            trade_wf(trade),
        ensures
            final(self).wf(),
            final(self).trade_logs@ == old(self).trade_logs@.push(trade),
            contains_date(old(self).daily_stats@, trade_day_key(trade))
                ==> final(self).daily_stats@.len() == old(self).daily_stats@.len(),
            !contains_date(old(self).daily_stats@, trade_day_key(trade))
                ==> final(self).daily_stats@.len() == old(self).daily_stats@.len() + 1
                && final(self).daily_stats@.last().date@ == trade_day_key(trade),
            forall|j: int|
                0 <= j < old(self).daily_stats@.len()
                    ==> (#[trigger] final(self).daily_stats@[j]).date@
                    == old(self).daily_stats@[j].date@,
    {
        let key = format_day_key(trade.timestamp);
        let pos = self.find_bucket(&key);
        let ghost old_logs = self.trade_logs@;
        let ghost old_daily = self.daily_stats@;
        let ghost k = trade_day_key(trade);
        let amount_in = trade.amount_in;
        let amount_out = trade.amount_out;
        let pl = trade.profit_loss;
        let tt = trade.trade_type;
        self.trade_logs.push(trade);
        let cap = self.trade_logs.len();
        proof {
            assert(self.trade_logs@ == old_logs.push(trade));
            lemma_stats_bounds(old_logs, k);
            assert forall|jj: int| 0 <= jj < old_daily.len() implies stats_for_day(
                self.trade_logs@,
                (#[trigger] old_daily[jj]).date@,
            ) == (if old_daily[jj].date@ == k {
                stats_delta(stats_for_day(old_logs, old_daily[jj].date@), trade)
            } else {
                stats_for_day(old_logs, old_daily[jj].date@)
            }) by {
                lemma_stats_push(old_logs, trade, old_daily[jj].date@);
            }
            lemma_stats_push(old_logs, trade, k);
        }
        match pos {
            Some(j) => {
                let date2 = self.daily_stats[j].date.clone();
                let spent = self.daily_stats[j].total_spent;
                let earned = self.daily_stats[j].total_earned;
                let pls = self.daily_stats[j].profit_loss;
                let tc = self.daily_stats[j].trade_count;
                let wc = self.daily_stats[j].win_count;
                let lc = self.daily_stats[j].loss_count;
                proof {
                    assert(bucket_matches(old_daily[j as int], stats_for_day(old_logs, k)));
                    assert(tc as int <= old_logs.len());
                    assert(old_logs.len() < cap <= usize::MAX);
                }
                let newb = match tt {
                    TradeType::Buy => DailyStats {
                        date: date2,
                        total_spent: spent + amount_in as u128,
                        total_earned: earned,
                        profit_loss: pls,
                        trade_count: tc + 1,
                        win_count: wc,
                        loss_count: lc,
                    },
                    TradeType::Sell => match pl {
                        Some(p) => DailyStats {
                            date: date2,
                            total_spent: spent,
                            total_earned: earned + amount_out as u128,
                            profit_loss: pls + p as i128,
                            trade_count: tc + 1,
                            win_count: if p > 0 {
                                wc + 1
                            } else {
                                wc
                            },
                            loss_count: if p > 0 {
                                lc
                            } else {
                                lc + 1
                            },
                        },
                        None => DailyStats {
                            date: date2,
                            total_spent: spent,
                            total_earned: earned + amount_out as u128,
                            profit_loss: pls,
                            trade_count: tc + 1,
                            win_count: wc,
                            loss_count: lc,
                        },
                    },
                };
                self.daily_stats[j] = newb;
                proof {
                    assert(self.daily_stats@ =~= old_daily.update(j as int, newb));
                    assert(bucket_matches(newb, stats_for_day(self.trade_logs@, k)));
                    assert forall|jj: int|
                        0 <= jj < self.daily_stats@.len() && jj != j implies bucket_matches(
                        #[trigger] self.daily_stats@[jj],
                        stats_for_day(self.trade_logs@, self.daily_stats@[jj].date@),
                    ) && stats_for_day(self.trade_logs@, self.daily_stats@[jj].date@).trade_count
                        > 0 by {
                        assert(self.daily_stats@[jj] == old_daily[jj]);
                        assert(old_daily[jj].date@ != k);
                    }
                    assert(stats_for_day(self.trade_logs@, k).trade_count > 0);
                    assert forall|i: int| 0 <= i < self.trade_logs@.len() implies contains_date(
                        self.daily_stats@,
                        trade_day_key(#[trigger] self.trade_logs@[i]),
                    ) by {
                        if i < old_logs.len() {
                            assert(contains_date(old_daily, trade_day_key(old_logs[i])));
                            let w = choose|w: int|
                                0 <= w < old_daily.len() && (#[trigger] old_daily[w]).date@
                                    == trade_day_key(old_logs[i]);
                            assert(self.daily_stats@[w].date@ == trade_day_key(old_logs[i]));
                        } else {
                            assert(self.daily_stats@[j as int].date@ == k);
                        }
                    }
                }
            },
            None => {
                proof {
                    assert forall|i: int| 0 <= i < old_logs.len() implies trade_day_key(
                        #[trigger] old_logs[i],
                    ) != k by {
                        assert(contains_date(old_daily, trade_day_key(old_logs[i])));
                    }
                    lemma_stats_no_match(old_logs, k);
                }
                let newb = match tt {
                    TradeType::Buy => DailyStats {
                        date: key,
                        total_spent: amount_in as u128,
                        total_earned: 0,
                        profit_loss: 0,
                        trade_count: 1,
                        win_count: 0,
                        loss_count: 0,
                    },
                    TradeType::Sell => match pl {
                        Some(p) => DailyStats {
                            date: key,
                            total_spent: 0,
                            total_earned: amount_out as u128,
                            profit_loss: p as i128,
                            trade_count: 1,
                            win_count: if p > 0 {
                                1
                            } else {
                                0
                            },
                            loss_count: if p > 0 {
                                0
                            } else {
                                1
                            },
                        },
                        None => DailyStats {
                            date: key,
                            total_spent: 0,
                            total_earned: amount_out as u128,
                            profit_loss: 0,
                            trade_count: 1,
                            win_count: 0,
                            loss_count: 0,
                        },
                    },
                };
                self.daily_stats.push(newb);
                proof {
                    assert(self.daily_stats@ =~= old_daily.push(newb));
                    assert(newb.date@ == k);
                    assert(bucket_matches(newb, stats_for_day(self.trade_logs@, k)));
                    assert forall|jj: int|
                        0 <= jj < old_daily.len() implies bucket_matches(
                        #[trigger] self.daily_stats@[jj],
                        stats_for_day(self.trade_logs@, self.daily_stats@[jj].date@),
                    ) && stats_for_day(self.trade_logs@, self.daily_stats@[jj].date@).trade_count
                        > 0 by {
                        assert(self.daily_stats@[jj] == old_daily[jj]);
                        assert(contains_date(old_daily, old_daily[jj].date@));
                        assert(old_daily[jj].date@ != k);
                    }
                    assert(stats_for_day(self.trade_logs@, k).trade_count > 0);
                    assert forall|i: int| 0 <= i < self.trade_logs@.len() implies contains_date(
                        self.daily_stats@,
                        trade_day_key(#[trigger] self.trade_logs@[i]),
                    ) by {
                        if i < old_logs.len() {
                            assert(contains_date(old_daily, trade_day_key(old_logs[i])));
                            let w = choose|w: int|
                                0 <= w < old_daily.len() && (#[trigger] old_daily[w]).date@
                                    == trade_day_key(old_logs[i]);
                            assert(self.daily_stats@[w].date@ == trade_day_key(old_logs[i]));
                        } else {
                            assert(self.daily_stats@.last().date@ == k);
                        }
                    }
                }
            },
        }
    }

    /// A copy of every trade, in insertion order.
    pub fn get_trade_logs(&self) -> (r: Vec<TradeLog>)
        ensures
            r@ == self.trade_logs@,
    {
        let mut r: Vec<TradeLog> = Vec::new();
        let n = self.trade_logs.len();
        let mut i: usize = 0;
        while i < n
            invariant
                0 <= i <= n,
                n == self.trade_logs@.len(),
                r@ =~= self.trade_logs@.take(i as int),
            decreases n - i,
        {
            r.push(self.trade_logs[i].clone());
            proof {
                assert(r@ =~= self.trade_logs@.take(i + 1 as int));
            }
            i = i + 1;
        }
        proof {
            assert(r@ =~= self.trade_logs@);
        }
        r
    }

    /// The trades of one token, in insertion order.
    pub fn get_token_logs(&self, token_address: &str) -> (r: Vec<TradeLog>)
        ensures
            r@ == self.trade_logs@.filter(|t: TradeLog| t.token_address@ == token_address@),
    {
        let ghost pred = |t: TradeLog| t.token_address@ == token_address@;
        let mut r: Vec<TradeLog> = Vec::new();
        let n = self.trade_logs.len();
        let mut i: usize = 0;
        proof {
            reveal(Seq::filter);
        }
        while i < n
            invariant
                0 <= i <= n,
                n == self.trade_logs@.len(),
                r@ == self.trade_logs@.take(i as int).filter(pred),
                pred == (|t: TradeLog| t.token_address@ == token_address@),
            decreases n - i,
        {
            proof {
                reveal(Seq::filter);
                let pre = self.trade_logs@.take(i + 1 as int);
                assert(pre.drop_last() =~= self.trade_logs@.take(i as int));
                assert(pre.last() == self.trade_logs@[i as int]);
            }
            if crate::decimal::str_eq(self.trade_logs[i].token_address.as_str(), token_address) {
                r.push(self.trade_logs[i].clone());
                proof {
                    assert(r@ =~= self.trade_logs@.take(i as int).filter(pred).push(
                        self.trade_logs@[i as int],
                    ));
                }
            }
            i = i + 1;
        }
        proof {
            assert(self.trade_logs@.take(n as int) =~= self.trade_logs@);
        }
        r
    }

    /// A copy of every day bucket.
    pub fn get_daily_stats(&self) -> (r: Vec<DailyStats>)
        ensures
            r@ == self.daily_stats@,
    {
        let mut r: Vec<DailyStats> = Vec::new();
        let n = self.daily_stats.len();
        let mut i: usize = 0;
        while i < n
            invariant
                0 <= i <= n,
                n == self.daily_stats@.len(),
                r@ =~= self.daily_stats@.take(i as int),
            decreases n - i,
        {
            r.push(self.daily_stats[i].clone());
            proof {
                assert(r@ =~= self.daily_stats@.take(i + 1 as int));
            }
            i = i + 1;
        }
        proof {
            assert(r@ =~= self.daily_stats@);
        }
        r
    }

    /// Recomputes the performance figures from the full ledger: win rate and
    /// averages over sells (zero when there is no sell), and the best and
    /// worst resolved profit (zero when none is resolved).
    pub fn get_performance_metrics(&self) -> (m: PerformanceMetrics)
        ensures
            m.total_trades as int == self.trade_logs@.len(),
            m.win_trades as int == win_count_of(self.trade_logs@),
            m.loss_trades as int == sell_count(self.trade_logs@) - win_count_of(self.trade_logs@),
            m.win_rate as int == (if sell_count(self.trade_logs@) == 0 {
                0int
            } else {
                win_count_of(self.trade_logs@) * 100 / sell_count(self.trade_logs@)
            }),
            m.total_profit as int == profit_total(self.trade_logs@),
            m.avg_profit as int == (if sell_count(self.trade_logs@) == 0 {
                0int
            } else {
                trunc_div(profit_total(self.trade_logs@), sell_count(self.trade_logs@))
            }),
            m.best_trade as int == best_profit(self.trade_logs@),
            m.worst_trade as int == worst_profit(self.trade_logs@),
    {
        let n = self.trade_logs.len();
        let mut sells: u64 = 0;
        let mut wins: u64 = 0;
        let mut total: i128 = 0;
        let mut have_pl: bool = false;
        let mut best: i64 = 0;
        let mut worst: i64 = 0;
        let mut i: usize = 0;
        while i < n
            invariant
                0 <= i <= n,
                n == self.trade_logs@.len(),
                sells as int == sell_count(self.trade_logs@.take(i as int)),
                wins as int == win_count_of(self.trade_logs@.take(i as int)),
                total as int == profit_total(self.trade_logs@.take(i as int)),
                have_pl <==> pl_count(self.trade_logs@.take(i as int)) > 0,
                best as int == best_profit(self.trade_logs@.take(i as int)),
                worst as int == worst_profit(self.trade_logs@.take(i as int)),
                sells <= i,
                wins <= sells,
                -((sells as int) * 0x8000_0000_0000_0000) <= total as int,
                total as int <= (sells as int) * 0x7fff_ffff_ffff_ffff,
            decreases n - i,
        {
            proof {
                let pre = self.trade_logs@.take(i + 1 as int);
                assert(pre.drop_last() =~= self.trade_logs@.take(i as int));
                assert(pre.last() == self.trade_logs@[i as int]);
                lemma_metric_counts(self.trade_logs@.take(i as int));
            }
            match self.trade_logs[i].trade_type {
                TradeType::Sell => {
                    sells = sells + 1;
                    let p: i64 = match self.trade_logs[i].profit_loss {
                        Some(p) => p,
                        None => 0,
                    };
                    if p > 0 {
                        wins = wins + 1;
                    }
                    total = total + p as i128;
                    match self.trade_logs[i].profit_loss {
                        Some(q) => {
                            if !have_pl {
                                best = q;
                                worst = q;
                                have_pl = true;
                            } else {
                                if q > best {
                                    best = q;
                                }
                                if q < worst {
                                    worst = q;
                                }
                            }
                        },
                        None => {},
                    }
                },
                TradeType::Buy => {},
            }
            i = i + 1;
        }
        proof {
            assert(self.trade_logs@.take(n as int) =~= self.trade_logs@);
            lemma_metric_counts(self.trade_logs@);
        }
        let win_rate: u64 = if sells == 0 {
            0
        } else {
            let wr: u128 = (wins as u128) * 100 / (sells as u128);
            proof {
                vstd::arithmetic::div_mod::lemma_multiply_divide_le(
                    (wins as int) * 100,
                    sells as int,
                    100,
                );
            }
            wr as u64
        };
        let avg: i64 = if sells == 0 {
            0
        } else {
            crate::div_toward_zero(total, sells)
        };
        PerformanceMetrics {
            total_trades: n as u64,
            win_trades: wins,
            loss_trades: sells - wins,
            win_rate,
            total_profit: total,
            avg_profit: avg,
            best_trade: best,
            worst_trade: worst,
        }
    }

    /// Serializes every trade to a fixed-column comma-separated table in
    /// insertion order: the same ledger content always yields the same bytes.
    /// One trade's row, built exactly as `csv_row` reads.
    fn csv_row_exec(t: &TradeLog) -> (r: String)
        requires
            trade_wf(*t),
        ensures
            r@ == csv_row(*t),
    {
        let mut r = format_datetime(t.timestamp);
        r.append(",");
        r.append(t.token_symbol.as_str());
        r.append(",");
        match t.trade_type {
            TradeType::Buy => r.append("Buy"),
            TradeType::Sell => r.append("Sell"),
        }
        r.append(",");
        let ain = u64_text(t.amount_in);
        r.append(ain.as_str());
        r.append(",");
        let aout = u64_text(t.amount_out);
        r.append(aout.as_str());
        r.append(",");
        let price = u64_text(t.price);
        r.append(price.as_str());
        r.append(",");
        let plv: i64 = match t.profit_loss {
            Some(p) => p,
            None => 0,
        };
        let pls = i64_text(plv);
        r.append(pls.as_str());
        r.append(",");
        let plp: i64 = match t.profit_loss_percent {
            Some(p) => p,
            None => 0,
        };
        let plps = i64_text(plp);
        r.append(plps.as_str());
        r.append(",");
        match &t.time_held {
            Some(h) => r.append(h.as_str()),
            None => {},
        }
        r.append(",");
        r.append(t.tx_signature.as_str());
        r.append("\n");
        r
    }

    /// Serializes every trade to a fixed-column comma-separated table in
    /// insertion order: the same ledger content always yields the same bytes.
    pub fn export_to_csv(&self) -> (r: String)
        requires
            self.wf(),
        ensures
            r@ == csv_text(self.trade_logs@),
    {
        let mut out = String::from_str(
            "Date,Token,Type,Amount In,Amount Out,Price,Profit/Loss,Profit/Loss %,Time Held,Tx Signature\n",
        );
        let n = self.trade_logs.len();
        let mut i: usize = 0;
        while i < n
            invariant
                0 <= i <= n,
                n == self.trade_logs@.len(),
                forall|k: int|
                    0 <= k < self.trade_logs@.len() ==> trade_wf(#[trigger] self.trade_logs@[k]),
                out@ == csv_text(self.trade_logs@.take(i as int)),
            decreases n - i,
        {
            let row = Self::csv_row_exec(&self.trade_logs[i]);
            out.append(row.as_str());
            proof {
                let pre = self.trade_logs@.take(i + 1 as int);
                assert(pre.drop_last() =~= self.trade_logs@.take(i as int));
                assert(pre.last() == self.trade_logs@[i as int]);
            }
            i = i + 1;
        }
        proof {
            assert(self.trade_logs@.take(n as int) =~= self.trade_logs@);
        }
        out
    }

    /// Empties the whole ledger: trades and day buckets together.
    pub fn clear_logs(&mut self)
        ensures
            final(self).wf(),
            final(self).trade_logs@ == Seq::<TradeLog>::empty(),
            final(self).daily_stats@ == Seq::<DailyStats>::empty(),
    {
        self.trade_logs.clear();
        self.daily_stats.clear();
        proof {
            assert(self.trade_logs@ =~= Seq::<TradeLog>::empty());
            assert(self.daily_stats@ =~= Seq::<DailyStats>::empty());
        }
    }
}

} // verus!
