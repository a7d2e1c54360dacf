use druid::base::error::DruidError;
use druid::filter::{Filter, FilterContext};
use druid::sql::parser::parse_sql;
use druid::wall::checker::WallChecker;
use druid::wall::config::WallConfig;
use druid::wall::provider::WallProvider;
use druid::wall::WallFilter;

#[test]
fn checker_test_allow() {
    let c = WallChecker::new(WallConfig::default());
    let s = parse_sql("SELECT id FROM users WHERE id=1").unwrap();
    assert!(c.check("SELECT id FROM users WHERE id=1", &s[0]).allowed);
}

#[test]
fn test_deny_drop() {
    let c = WallChecker::new(WallConfig::default());
    let s = parse_sql("DROP TABLE users").unwrap();
    assert!(!c.check("DROP TABLE users", &s[0]).allowed);
}

#[test]
fn test_forbid() {
    let c = WallChecker::new(WallConfig::default());
    assert!(!c.quick_check("SELECT SLEEP(10)").allowed);
}

#[test]
fn test_disabled() {
    let cfg = WallConfig { enabled: false, ..Default::default() };
    assert!(WallChecker::new(cfg).quick_check("DROP TABLE x").allowed);
}

#[test]
fn checker_messages() {
    let c = WallChecker::new(WallConfig::default());
    let s = parse_sql("DELETE FROM users").unwrap();
    let r = c.check("DELETE FROM users", &s[0]);
    assert!(!r.allowed);
    assert_eq!(r.violations[0].message, "DELETE without WHERE");
    let s = parse_sql("SELECT BENCHMARK(1, 2)").unwrap();
    let r = c.check("SELECT BENCHMARK(1, 2)", &s[0]);
    assert_eq!(r.violations[0].message, "forbidden function: BENCHMARK");
    let r = c.quick_check("select sleep(1)");
    assert_eq!(r.violations[0].message, "forbidden: SLEEP");
}

#[test]
fn lib_test_allow() {
    let mut f = WallFilter::new(WallConfig::default());
    let c = FilterContext::new("t").with_sql("SELECT id FROM users WHERE id=1");
    assert!(f.statement_execute_before(&c).is_ok());
}

#[test]
fn test_deny() {
    let mut f = WallFilter::new(WallConfig::default());
    let c = FilterContext::new("t").with_sql("SELECT SLEEP(10)");
    assert!(matches!(f.statement_execute_before(&c), Err(DruidError::Wall(_))));
}

#[test]
fn wall_filter_message_and_counts() {
    let mut f = WallFilter::new(WallConfig::default());
    let c = FilterContext::new("t").with_sql("DROP TABLE x");
    let first = f.statement_execute_before(&c);
    assert!(matches!(first, Err(DruidError::Wall(ref m)) if m == "DROP TABLE denied"));
    let second = f.statement_execute_before(&c);
    assert!(matches!(second, Err(DruidError::Wall(ref m)) if m == "DROP TABLE denied"));
    assert_eq!(f.cache_counts(), (1, 2));
    let none = FilterContext::new("t");
    assert!(f.statement_execute_before(&none).is_ok());
    assert_eq!(f.cache_counts(), (1, 2));
}

#[test]
fn test_cache() {
    let c = WallChecker::new(WallConfig::default());
    let mut p = WallProvider::new(c, 100);
    p.check("SELECT 1");
    p.check("SELECT 1");
    assert_eq!(p.hit_count, 1);
}

#[test]
fn provider_answer_same_with_and_without_cache() {
    let mut p = WallProvider::new(WallChecker::new(WallConfig::default()), 2);
    let a = p.check("UPDATE t SET a = 1");
    let b = p.check("UPDATE t SET a = 1");
    assert_eq!(a.allowed, b.allowed);
    assert_eq!(a.violations[0].message, "UPDATE without WHERE");
    assert_eq!(b.violations[0].message, "UPDATE without WHERE");
    p.check("SELECT 1");
    p.check("SELECT 2");
    assert!(p.cache_size() <= 2);
    assert_eq!(p.check_count, 4);
}

#[test]
fn function_check_reaches_having() {
    let c = WallChecker::new(WallConfig::default());
    let s = parse_sql("SELECT id FROM users GROUP BY id HAVING SLEEP(1)").unwrap().remove(0);
    match c.check_functions(&s) {
        Some(r) => {
            assert!(!r.allowed);
            assert_eq!(r.violations.len(), 1);
            assert_eq!(r.violations[0].message, "forbidden function: SLEEP");
        }
        None => panic!("SLEEP in HAVING was not found"),
    }
}

#[test]
fn function_check_reaches_subquery_and_order_by() {
    let c = WallChecker::new(WallConfig::default());
    let s = parse_sql("SELECT a FROM (SELECT BENCHMARK(1, 2) AS a FROM t) x").unwrap().remove(0);
    assert!(c.check_functions(&s).is_some());
    let s = parse_sql("SELECT a FROM t ORDER BY SLEEP(1)").unwrap().remove(0);
    assert!(c.check_functions(&s).is_some());
    let s = parse_sql("SELECT a FROM t ORDER BY a").unwrap().remove(0);
    assert!(c.check_functions(&s).is_none());
}

#[test]
fn deny_keyword_matches_any_whole_word() {
    let c = WallChecker::new(WallConfig { deny_keywords: vec!["drop".into()], ..Default::default() });
    assert!(c.quick_check("SELECT dropped FROM t").allowed);
    assert!(!c.quick_check("SELECT dropped FROM t; DROP TABLE t").allowed);
}

#[test]
fn provider_refuses_multi_statements() {
    let mut p = WallProvider::new(WallChecker::new(WallConfig::default()), 512);
    let r = p.check("SELECT 1; SELECT 2");
    assert!(!r.allowed);
    assert_eq!(r.violations[0].message, "multi-statement not allowed");
    assert!(p.check("SELECT 1").allowed);
    let cfg = WallConfig { allow_multi_statements: true, ..Default::default() };
    let mut q = WallProvider::new(WallChecker::new(cfg), 512);
    assert!(q.check("SELECT 1; SELECT 2").allowed);
}

#[test]
fn provider_clear_cache_empties_it() {
    let mut p = WallProvider::new(WallChecker::new(WallConfig::default()), 512);
    p.check("SELECT 1");
    assert_eq!(p.cache_size(), 1);
    p.clear_cache();
    assert_eq!(p.cache_size(), 0);
}

#[test]
fn provider_hits_never_exceed_checks() {
    let mut p = WallProvider::new(WallChecker::new(WallConfig::default()), 2);
    for sql in ["SELECT 1", "SELECT 2", "SELECT 1", "SELECT 3", "SELECT 1", "SELECT 2"] {
        p.check(sql);
        assert!(p.hit_count <= p.check_count);
        assert!(p.cache_size() <= 2);
    }
    assert_eq!(p.check_count, 6);
}
