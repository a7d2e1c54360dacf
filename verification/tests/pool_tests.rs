use std::sync::atomic::{AtomicU64, Ordering};
use std::sync::Arc;

use druid::base::error::DruidError;
use druid::console::{html_escape, render_rows};
use druid::stat::SqlStat;
use druid::filter::chain::FilterChain;
use druid::ha::{next_status, HaNodes, NodeStatus};
use druid::pool::pscache::PSCache;
use druid::pool::state::{Lend, PoolState};
use druid::proxy::{ProxyConnection, RawConnection};

#[test]
fn test_pscache_get_put() {
    let mut cache = PSCache::new(3);
    assert!(!cache.get("SELECT 1"));
    cache.put("SELECT 1");
    assert!(cache.get("SELECT 1"));
    assert_eq!(cache.len(), 1);
}

#[test]
fn test_pscache_eviction() {
    let mut cache = PSCache::new(2);
    cache.put("A");
    cache.put("B");
    cache.get("A");
    cache.put("C");
    assert!(cache.get("A"));
    assert!(cache.get("C"));
    assert!(!cache.get("B"));
}

#[test]
fn pscache_put_twice_and_clear() {
    let mut cache = PSCache::new(5);
    cache.put("A");
    cache.put("A");
    assert_eq!(cache.len(), 1);
    assert!(!cache.is_empty());
    cache.clear();
    assert!(cache.is_empty());
    let mut zero = PSCache::new(0);
    zero.put("A");
    zero.put("B");
    assert_eq!(zero.len(), 1);
    assert!(zero.get("B"));
}

struct MockConn {
    id: u64,
    exec_count: AtomicU64,
}

impl RawConnection for MockConn {
    fn spec_id(&self) -> u64 {
        self.id
    }
    fn execution(&self, _sql: &str) -> Result<u64, DruidError> {
        Ok(1)
    }
    fn closing(&self) -> Result<(), DruidError> {
        Ok(())
    }
    fn reports_closed(&self) -> bool {
        false
    }
    fn execute(&self, _: &str) -> Result<u64, DruidError> {
        self.exec_count.fetch_add(1, Ordering::SeqCst);
        Ok(1)
    }
    fn close(&self) -> Result<(), DruidError> {
        Ok(())
    }
    fn id(&self) -> u64 {
        self.id
    }
    fn is_closed(&self) -> bool {
        false
    }
}

#[test]
fn test_proxy_execute() {
    let inner = Arc::new(MockConn { id: 1, exec_count: AtomicU64::new(0) });
    let fc = FilterChain::new("test");
    let mut conn = ProxyConnection::new(inner.clone(), fc);
    let mut stmt = conn.create_statement();
    assert!(stmt.execute("SELECT 1").is_ok());
    assert_eq!(inner.exec_count.load(Ordering::SeqCst), 1);
}

#[test]
fn test_proxy_close() {
    let inner = Arc::new(MockConn { id: 2, exec_count: AtomicU64::new(0) });
    let fc = FilterChain::new("test");
    let mut conn = ProxyConnection::new(inner, fc);
    assert!(conn.close().is_ok());
    assert!(conn.close().is_ok());
    assert_eq!(conn.id(), 2);
}

#[test]
fn ha_weighted_round_robin() {
    let mut ha = HaNodes::new();
    ha.add_node("node-1", 1);
    ha.add_node("node-2", 2);
    assert_eq!(ha.node_count(), 2);
    assert_eq!(ha.active_count(), 2);
    let picks: Vec<usize> = (0..6).map(|_| ha.next_active().unwrap()).collect();
    assert_eq!(picks, vec![0, 1, 1, 0, 1, 1]);
    ha.mark_down("node-2");
    assert_eq!(ha.active_count(), 1);
    assert_eq!(ha.next_active().unwrap(), 0);
    ha.mark_down("node-1");
    assert!(matches!(ha.next_active(), Err(DruidError::Pool(ref m)) if m == "no active datasource available"));
    ha.mark_up("node-2");
    assert_eq!(ha.next_active().unwrap(), 1);
    assert_eq!(ha.node_names(), vec!["node-1", "node-2"]);
}

#[test]
fn ha_health_transitions() {
    assert_eq!(next_status(NodeStatus::Active, false), NodeStatus::Down);
    assert_eq!(next_status(NodeStatus::Active, true), NodeStatus::Active);
    assert_eq!(next_status(NodeStatus::Down, true), NodeStatus::Active);
    assert_eq!(next_status(NodeStatus::Down, false), NodeStatus::Down);
    assert_eq!(next_status(NodeStatus::Testing, false), NodeStatus::Testing);
}

#[test]
fn test_mark_down_up() {
    let ha = HaNodes::new();
    assert_eq!(ha.node_count(), 0);
}

#[test]
fn test_html_escape_xss() {
    let escaped = html_escape("<script>alert('xss')</script>");
    assert!(!escaped.contains('<'));
    assert!(!escaped.contains('>'));
    assert!(escaped.contains("&lt;"));
    assert!(escaped.contains("&gt;"));
    assert_eq!(html_escape("a&\"b'"), "a&amp;&quot;b&#x27;");
}

#[test]
fn pool_state_lend_return_evict_close() {
    let mut p = PoolState::new();
    let a = p.take_id();
    p.add_idle(a, 0);
    let b = p.take_id();
    p.add_idle(b, 10);
    assert_eq!((a, b), (1, 2));
    assert_eq!(p.lend(), Lend::Reuse(1));
    assert_eq!(p.active_count(), 1);
    assert_eq!(p.idle_count(), 1);
    assert!(p.give_back(1, 100));
    assert_eq!(p.active_count(), 0);
    assert_eq!(p.idle_ids(), vec![2, 1]);
    assert_eq!(p.evict(200, 150, 0), vec![2]);
    assert_eq!(p.evict(200, 150, 0), Vec::<u64>::new());
    assert_eq!(p.evict(300, 150, 1), Vec::<u64>::new());
    assert_eq!(p.lend(), Lend::Reuse(1));
    assert_eq!(p.lend(), Lend::Open(3));
    assert_eq!(p.close(), Vec::<u64>::new());
    assert!(p.is_closed());
    assert!(!p.give_back(3, 400));
    assert_eq!(p.active_count(), 1);
    assert_eq!(p.idle_count(), 0);
}

#[test]
fn console_rows() {
    let s = SqlStat {
        sql: "SELECT '<x>'".to_string(),
        execute_count: 2,
        total_time_ms: 30,
        max_time_ms: 20,
        error_count: 0,
        last_execute_time: None,
        rows_read: 0,
    };
    assert_eq!(
        render_rows(&[s.clone()]),
        "<tr><td>SELECT &#x27;&lt;x&gt;&#x27;</td><td>2</td><td>30ms</td><td>20ms</td><td>0</td><td>-</td></tr>"
    );
    let many: Vec<SqlStat> = (0..25).map(|_| s.clone()).collect();
    assert_eq!(render_rows(&many).matches("<tr>").count(), 20);
    assert_eq!(render_rows(&[]), "");
}

#[test]
fn proxy_refusal_skips_driver() {
    let inner = Arc::new(MockConn { id: 4, exec_count: AtomicU64::new(0) });
    let mut fc = FilterChain::new("test");
    fc.add_filter(Box::new(druid::wall::WallFilter::new(druid::wall::config::WallConfig::default())));
    let mut conn = ProxyConnection::new(inner.clone(), fc);
    assert_eq!(conn.id(), 4);
    let mut stmt = conn.create_statement();
    assert!(stmt.execute("SELECT SLEEP(1)").is_err());
    assert_eq!(inner.exec_count.load(Ordering::SeqCst), 0);
    assert!(stmt.execute("SELECT 1").is_ok());
    assert_eq!(inner.exec_count.load(Ordering::SeqCst), 1);
}
