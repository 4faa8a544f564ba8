use wolf63x_sniper::logger::{Logger, TradeLog, TradeType};

fn buy(ts: i64, amount_in: u64) -> TradeLog {
    TradeLog {
        id: String::from("id-b"),
        token_address: String::from("mint-1"),
        token_symbol: String::from("ABC"),
        token_name: String::from("Token"),
        trade_type: TradeType::Buy,
        amount_in,
        amount_out: 0,
        price: 2,
        timestamp: ts,
        tx_signature: String::from("sig1"),
        profit_loss: None,
        profit_loss_percent: None,
        time_held: None,
    }
}

fn sell(ts: i64, amount_out: u64, profit_loss: Option<i64>) -> TradeLog {
    TradeLog {
        id: String::from("id-s"),
        token_address: String::from("mint-1"),
        token_symbol: String::from("ABC"),
        token_name: String::from("Token"),
        trade_type: TradeType::Sell,
        amount_in: 0,
        amount_out,
        price: 3,
        timestamp: ts,
        tx_signature: String::from("sig2"),
        profit_loss,
        profit_loss_percent: None,
        time_held: Some(String::from("5m")),
    }
}

#[test]
fn buy_updates_spend_and_count_only() {
    let mut ledger = Logger::new();
    ledger.log_trade(buy(0, 100));
    let stats = ledger.get_daily_stats();
    assert_eq!(stats.len(), 1);
    assert_eq!(stats[0].date, "1970-01-01");
    assert_eq!(stats[0].total_spent, 100);
    assert_eq!(stats[0].total_earned, 0);
    assert_eq!(stats[0].profit_loss, 0);
    assert_eq!(stats[0].trade_count, 1);
    assert_eq!(stats[0].win_count, 0);
    assert_eq!(stats[0].loss_count, 0);
}

#[test]
fn sell_with_profit_counts_a_win() {
    let mut ledger = Logger::new();
    ledger.log_trade(sell(0, 150, Some(50)));
    let stats = ledger.get_daily_stats();
    assert_eq!(stats[0].total_earned, 150);
    assert_eq!(stats[0].profit_loss, 50);
    assert_eq!(stats[0].win_count, 1);
    assert_eq!(stats[0].loss_count, 0);
}

#[test]
fn zero_profit_counts_as_a_loss() {
    let mut ledger = Logger::new();
    ledger.log_trade(sell(0, 150, Some(0)));
    let stats = ledger.get_daily_stats();
    assert_eq!(stats[0].win_count, 0);
    assert_eq!(stats[0].loss_count, 1);
}

#[test]
fn unresolved_sell_moves_neither_counter() {
    let mut ledger = Logger::new();
    ledger.log_trade(sell(0, 150, None));
    let stats = ledger.get_daily_stats();
    assert_eq!(stats[0].trade_count, 1);
    assert_eq!(stats[0].total_earned, 150);
    assert_eq!(stats[0].win_count, 0);
    assert_eq!(stats[0].loss_count, 0);
}

#[test]
fn resolved_sells_split_count_into_wins_and_losses() {
    let mut ledger = Logger::new();
    ledger.log_trade(sell(0, 100, Some(10)));
    ledger.log_trade(sell(60, 100, Some(-5)));
    ledger.log_trade(sell(120, 100, Some(0)));
    ledger.log_trade(sell(180, 100, Some(7)));
    let stats = ledger.get_daily_stats();
    assert_eq!(stats.len(), 1);
    assert_eq!(stats[0].trade_count, 4);
    assert_eq!(stats[0].win_count + stats[0].loss_count, stats[0].trade_count);
    assert_eq!(stats[0].win_count, 2);
    assert_eq!(stats[0].loss_count, 2);
    assert_eq!(stats[0].profit_loss, 12);
}

#[test]
fn trades_bucket_by_calendar_day() {
    let mut ledger = Logger::new();
    ledger.log_trade(buy(86399, 10)); // last second of 1970-01-01
    ledger.log_trade(buy(86400, 20)); // first second of 1970-01-02
    ledger.log_trade(buy(0, 5)); // 1970-01-01 again
    let stats = ledger.get_daily_stats();
    assert_eq!(stats.len(), 2);
    assert_eq!(stats[0].date, "1970-01-01");
    assert_eq!(stats[0].total_spent, 15);
    assert_eq!(stats[0].trade_count, 2);
    assert_eq!(stats[1].date, "1970-01-02");
    assert_eq!(stats[1].total_spent, 20);
}

#[test]
fn duplicate_appends_double_count() {
    // The ledger has no idempotency key: re-delivery double-counts.
    let mut ledger = Logger::new();
    ledger.log_trade(buy(0, 100));
    ledger.log_trade(buy(0, 100));
    let stats = ledger.get_daily_stats();
    assert_eq!(stats[0].trade_count, 2);
    assert_eq!(stats[0].total_spent, 200);
}

#[test]
fn metrics_degenerate_without_sells() {
    let mut ledger = Logger::new();
    ledger.log_trade(buy(0, 100));
    ledger.log_trade(buy(60, 100));
    let m = ledger.get_performance_metrics();
    assert_eq!(m.total_trades, 2);
    assert_eq!(m.win_trades, 0);
    assert_eq!(m.loss_trades, 0);
    assert_eq!(m.win_rate, 0);
    assert_eq!(m.total_profit, 0);
    assert_eq!(m.avg_profit, 0);
    assert_eq!(m.best_trade, 0);
    assert_eq!(m.worst_trade, 0);
}

#[test]
fn metrics_over_mixed_ledger() {
    let mut ledger = Logger::new();
    ledger.log_trade(buy(0, 100));
    ledger.log_trade(sell(60, 100, Some(30)));
    ledger.log_trade(sell(120, 100, Some(-10)));
    ledger.log_trade(sell(180, 100, None));
    let m = ledger.get_performance_metrics();
    assert_eq!(m.total_trades, 4);
    assert_eq!(m.win_trades, 1);
    assert_eq!(m.loss_trades, 2); // sells minus wins, unresolved included
    assert_eq!(m.win_rate, 33); // 1 / 3 * 100, truncated
    assert_eq!(m.total_profit, 20);
    assert_eq!(m.avg_profit, 6); // 20 / 3, truncated
    assert_eq!(m.best_trade, 30);
    assert_eq!(m.worst_trade, -10);
}

#[test]
fn average_profit_truncates_toward_zero() {
    let mut ledger = Logger::new();
    ledger.log_trade(sell(0, 100, Some(-1)));
    ledger.log_trade(sell(60, 100, Some(-2)));
    let m = ledger.get_performance_metrics();
    assert_eq!(m.total_profit, -3);
    assert_eq!(m.avg_profit, -1); // -3 / 2 truncated toward zero
}

#[test]
fn best_and_worst_follow_resolved_profits_only() {
    let mut ledger = Logger::new();
    ledger.log_trade(sell(0, 100, Some(-20)));
    ledger.log_trade(sell(60, 100, Some(-5)));
    ledger.log_trade(sell(120, 100, None));
    let m = ledger.get_performance_metrics();
    // All resolved profits are negative: the best is still the largest of
    // them, not zero.
    assert_eq!(m.best_trade, -5);
    assert_eq!(m.worst_trade, -20);
}

#[test]
fn export_of_empty_ledger_is_only_the_header() {
    let ledger = Logger::new();
    assert_eq!(
        ledger.export_to_csv(),
        "Date,Token,Type,Amount In,Amount Out,Price,Profit/Loss,Profit/Loss %,Time Held,Tx Signature\n"
    );
}

#[test]
fn export_of_one_buy_has_one_row() {
    let mut ledger = Logger::new();
    ledger.log_trade(buy(0, 1));
    let csv = ledger.export_to_csv();
    let lines: Vec<&str> = csv.lines().collect();
    assert_eq!(lines.len(), 2);
    assert_eq!(lines[1], "1970-01-01 00:00:00,ABC,Buy,1,0,2,0,0,,sig1");
}

#[test]
fn export_is_stable_for_the_same_content() {
    let mut ledger = Logger::new();
    ledger.log_trade(buy(0, 1));
    ledger.log_trade(sell(90060, 3, Some(2)));
    let first = ledger.export_to_csv();
    let second = ledger.export_to_csv();
    assert_eq!(first, second);
    let lines: Vec<&str> = first.lines().collect();
    assert_eq!(lines.len(), 3);
    assert_eq!(lines[2], "1970-01-02 01:01:00,ABC,Sell,0,3,3,2,0,5m,sig2");
}

#[test]
fn modern_timestamps_render_as_calendar_dates() {
    let mut ledger = Logger::new();
    ledger.log_trade(buy(1700000000, 1)); // 2023-11-14 22:13:20 UTC
    let stats = ledger.get_daily_stats();
    assert_eq!(stats[0].date, "2023-11-14");
    let csv = ledger.export_to_csv();
    let lines: Vec<&str> = csv.lines().collect();
    assert_eq!(lines[1], "2023-11-14 22:13:20,ABC,Buy,1,0,2,0,0,,sig1");
}

#[test]
fn latest_renderable_timestamp() {
    let mut ledger = Logger::new();
    ledger.log_trade(buy(253402300799, 1)); // last second of year 9999
    let stats = ledger.get_daily_stats();
    assert_eq!(stats[0].date, "9999-12-31");
    let csv = ledger.export_to_csv();
    let lines: Vec<&str> = csv.lines().collect();
    assert_eq!(lines[1], "9999-12-31 23:59:59,ABC,Buy,1,0,2,0,0,,sig1");
}

#[test]
fn token_logs_filter_by_address() {
    let mut ledger = Logger::new();
    ledger.log_trade(buy(0, 1));
    let mut other = buy(60, 2);
    other.token_address = String::from("mint-2");
    ledger.log_trade(other);
    ledger.log_trade(buy(120, 3));
    let logs = ledger.get_token_logs("mint-1");
    assert_eq!(logs.len(), 2);
    assert_eq!(logs[0].amount_in, 1);
    assert_eq!(logs[1].amount_in, 3);
    assert_eq!(ledger.get_token_logs("mint-2").len(), 1);
    assert_eq!(ledger.get_token_logs("absent").len(), 0);
}

#[test]
fn trade_logs_keep_insertion_order() {
    let mut ledger = Logger::new();
    ledger.log_trade(buy(0, 1));
    ledger.log_trade(sell(60, 2, Some(1)));
    let logs = ledger.get_trade_logs();
    assert_eq!(logs.len(), 2);
    assert_eq!(logs[0].amount_in, 1);
    assert_eq!(logs[1].amount_out, 2);
}

#[test]
fn clear_empties_trades_and_stats_together() {
    let mut ledger = Logger::new();
    ledger.log_trade(buy(0, 1));
    ledger.log_trade(sell(60, 2, Some(1)));
    ledger.clear_logs();
    assert_eq!(ledger.get_trade_logs().len(), 0);
    assert_eq!(ledger.get_daily_stats().len(), 0);
    assert_eq!(
        ledger.export_to_csv(),
        "Date,Token,Type,Amount In,Amount Out,Price,Profit/Loss,Profit/Loss %,Time Held,Tx Signature\n"
    );
}
