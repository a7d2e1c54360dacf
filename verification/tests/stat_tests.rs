use druid::filter::{Filter, FilterContext};
use druid::stat::metrics::PoolMetrics;
use druid::stat::StatFilter;

#[test]
fn test_stat_collection() {
    let mut filter = StatFilter::new("test-ds", 1000);
    let ctx = FilterContext::new("test").with_sql("SELECT 1");

    filter.statement_execute_before(&ctx).unwrap();
    filter.statement_execute_after(&ctx, 50, 1);
    filter.statement_execute_before(&ctx).unwrap();
    filter.statement_execute_after(&ctx, 200, 10);

    let stats = filter.get_sql_stats();
    assert_eq!(stats.len(), 1);
    assert_eq!(stats[0].execute_count, 2);
    assert_eq!(stats[0].max_time_ms, 200);
}

#[test]
fn test_slow_sql_detection() {
    let mut filter = StatFilter::new("test-ds", 100);
    let ctx = FilterContext::new("test").with_sql("SELECT SLEEP(1)");
    filter.statement_execute_before(&ctx).unwrap();
    filter.statement_execute_after(&ctx, 500, 0);

    let slow = filter.get_slow_sql();
    assert_eq!(slow.len(), 1);
}

#[test]
fn test_datasource_stat() {
    let mut filter = StatFilter::new("ds1", 1000);
    filter.connection_created(&FilterContext::new("ds1"));
    filter.connection_borrowed(&FilterContext::new("ds1"), 10);

    let stat = filter.get_datasource_stat();
    assert_eq!(stat.create_count, 1);
    assert_eq!(stat.borrow_count, 1);
}

#[test]
fn stats_sorted_by_total_time() {
    let mut f = StatFilter::new("ds", 100);
    let a = FilterContext::new("ds").with_sql("SELECT a");
    let b = FilterContext::new("ds").with_sql("SELECT b");
    let c = FilterContext::new("ds");
    f.statement_execute_after(&a, 10, 1);
    f.statement_execute_after(&b, 300, 2);
    f.statement_execute_after(&c, 50, 0);
    f.statement_execute_after(&a, 20, 1);
    let s = f.get_sql_stats();
    assert_eq!(s.len(), 3);
    assert_eq!(s[0].sql, "SELECT b");
    assert_eq!(s[1].sql, "UNKNOWN");
    assert_eq!(s[2].sql, "SELECT a");
    assert_eq!(s[2].total_time_ms, 30);
    assert_eq!(s[2].rows_read, 2);
    assert!(s[2].last_execute_time.is_some());
    let slow = f.get_slow_sql();
    assert_eq!(slow.len(), 1);
    assert_eq!(slow[0].sql, "SELECT b");
}

#[test]
fn long_sql_is_cut_to_200_chars() {
    let mut f = StatFilter::new("ds", 100);
    let text = "x".repeat(250);
    let ctx = FilterContext::new("ds").with_sql(&text);
    f.statement_execute_after(&ctx, 1, 0);
    f.statement_execute_after(&ctx, 1, 0);
    let s = f.get_sql_stats();
    assert_eq!(s.len(), 1);
    assert_eq!(s[0].sql.chars().count(), 200);
    assert_eq!(s[0].execute_count, 2);
}

#[test]
fn connection_counters() {
    let mut f = StatFilter::new("ds", 100);
    let ctx = FilterContext::new("ds");
    f.connection_created(&ctx);
    f.connection_borrowed(&ctx, 7);
    f.connection_returned(&ctx);
    f.connection_closed(&ctx);
    f.connection_closed(&ctx);
    let d = f.get_datasource_stat();
    assert_eq!(d.name, "ds");
    assert_eq!(d.create_count, 1);
    assert_eq!(d.borrow_count, 1);
    assert_eq!(d.return_count, 1);
    assert_eq!(d.destroy_count, 2);
    assert_eq!(d.total_wait_time_ms, 7);
    assert_eq!(d.active_count, 0);
    assert_eq!(d.idle_count, 0);
    f.statement_execute_before(&ctx).unwrap();
    assert_eq!(f.execute_count(), 1);
}

#[test]
fn statement_error_counts() {
    let mut f = StatFilter::new("ds", 100);
    let ctx = FilterContext::new("ds").with_sql("SELECT 1");
    f.statement_execute_after(&ctx, 5, 1);
    f.statement_error(&ctx, &druid::base::error::DruidError::Database("x".to_string()));
    assert_eq!(f.get_datasource_stat().error_count, 1);
    assert_eq!(f.get_sql_stats()[0].error_count, 1);
}

#[test]
fn pool_metrics_counts() {
    let mut m = PoolMetrics::new();
    m.set_active(3);
    m.set_idle(2);
    m.inc_waiting();
    m.inc_waiting();
    m.dec_waiting();
    m.inc_borrow();
    m.inc_create();
    m.inc_destroy();
    m.add_wait_time_ns(2_000_000);
    assert_eq!(m.active(), 3);
    assert_eq!(m.idle(), 2);
    assert_eq!(m.waiting(), 1);
    assert_eq!(m.borrow_count(), 1);
    assert_eq!(m.create_count(), 1);
    assert_eq!(m.destroy_count(), 1);
    assert_eq!(m.total_wait_ns(), 2_000_000);
    let mut z = PoolMetrics::new();
    z.dec_waiting();
    assert_eq!(z.waiting(), u64::MAX);
}

#[test]
fn one_entry_per_sql_text_and_counted_executions() {
    let mut f = StatFilter::new("ds", 100);
    let a = FilterContext::new("ds").with_sql("SELECT a");
    let b = FilterContext::new("ds").with_sql("SELECT b");
    let none = FilterContext::new("ds");
    for _ in 0..3 {
        f.statement_execute_before(&a).unwrap();
        f.statement_execute_after(&a, 1, 0);
    }
    f.statement_execute_before(&b).unwrap();
    f.statement_execute_after(&b, 1, 0);
    f.statement_execute_after(&none, 1, 0);
    f.statement_execute_after(&none, 1, 0);
    f.resultset_open(&a);
    f.connection_borrow_before(&a);
    let stats = f.get_sql_stats();
    assert_eq!(stats.len(), 3);
    let a_stat = stats.iter().find(|s| s.sql == "SELECT a").unwrap();
    assert_eq!(a_stat.execute_count, 3);
    let unknown = stats.iter().find(|s| s.sql == "UNKNOWN").unwrap();
    assert_eq!(unknown.execute_count, 2);
    assert_eq!(f.execute_count(), 4);
    assert_eq!(f.get_datasource_stat().execute_count, 4);
}
