use druid::base::error::DruidError;
use druid::filter::adapter::FilterAdapter;
use druid::filter::chain::FilterChain;
use druid::filter::manager::FilterManager;
use druid::filter::{ContextView, Filter, FilterContext};

struct CountingFilter {
    borrow_count: u64,
    execute_count: u64,
}

impl CountingFilter {
    fn new() -> Self {
        CountingFilter { borrow_count: 0, execute_count: 0 }
    }
}

impl Filter for CountingFilter {
    fn spec_name(&self) -> &'static str {
        "CountingFilter"
    }

    fn admits(&self, _ctx: ContextView) -> bool {
        true
    }

    fn refuses_with(&self, _ctx: ContextView, _e: DruidError) -> bool {
        false
    }

    fn starts(&self) -> bool {
        true
    }

    fn fails_with(&self, _e: DruidError) -> bool {
        false
    }

    fn name(&self) -> &'static str {
        "CountingFilter"
    }

    fn init(&mut self) -> Result<(), DruidError> {
        Ok(())
    }

    fn statement_execute_before(&mut self, _ctx: &FilterContext) -> Result<(), DruidError> {
        Ok(())
    }

    fn connection_borrowed(&mut self, _ctx: &FilterContext, _wait_ms: u64) {
        self.borrow_count += 1;
    }

    fn statement_execute_after(&mut self, _ctx: &FilterContext, _elapsed_ms: u64, _rows: u64) {
        self.execute_count += 1;
    }
}

struct Refusing;

impl Filter for Refusing {
    fn spec_name(&self) -> &'static str {
        "refusing"
    }

    fn admits(&self, _ctx: ContextView) -> bool {
        false
    }

    fn refuses_with(&self, _ctx: ContextView, e: DruidError) -> bool {
        matches!(e, DruidError::Wall(ref m) if m == "no")
    }

    fn starts(&self) -> bool {
        false
    }

    fn fails_with(&self, e: DruidError) -> bool {
        matches!(e, DruidError::Config(ref m) if m == "bad")
    }

    fn name(&self) -> &'static str {
        "refusing"
    }

    fn statement_execute_before(&mut self, _ctx: &FilterContext) -> Result<(), DruidError> {
        Err(DruidError::Wall("no".to_string()))
    }

    fn init(&mut self) -> Result<(), DruidError> {
        Err(DruidError::Config("bad".to_string()))
    }
}

#[test]
fn test_filter_chain_calls() {
    let filter = CountingFilter::new();
    let mut chain = FilterChain::new("test-ds");
    chain.add_filter(Box::new(filter));

    chain.connection_borrowed(1, 0);
    chain.connection_borrowed(2, 5);
    chain.statement_execute_after("SELECT 1", 1, 10, 100);

    assert_eq!(chain.len(), 1);
}

#[test]
fn test_filter_chain_empty() {
    let mut chain = FilterChain::new("test");
    assert!(chain.is_empty());
    chain.connection_created(1);
    chain.statement_execute_before("SELECT 1", 1).unwrap();
}

#[test]
fn test_filter_names() {
    let mut chain = FilterChain::new("test");
    chain.add_filter(Box::new(FilterAdapter::new("filter_a")));
    chain.add_filter(Box::new(FilterAdapter::new("filter_b")));
    assert_eq!(chain.filter_names(), vec!["filter_a", "filter_b"]);
}

#[test]
fn chain_stops_at_first_refusal() {
    let mut chain = FilterChain::new("test");
    chain.add_filter(Box::new(FilterAdapter::new("a")));
    chain.add_filter(Box::new(Refusing));
    let r = chain.statement_execute_before("SELECT 1", 1);
    assert!(matches!(r, Err(DruidError::Wall(ref m)) if m == "no"));
    assert_eq!(chain.len(), 2);
}

#[test]
fn context_builders() {
    let c = FilterContext::new("ds").with_sql("SELECT 1").with_connection(7).with_statement(9);
    assert_eq!(c.data_source_name, "ds");
    assert_eq!(c.sql.as_deref(), Some("SELECT 1"));
    assert_eq!(c.connection_id, Some(7));
    assert_eq!(c.statement_id, Some(9));
    assert!(c.db_type.is_none());
}

#[test]
fn test_manager_create_chain() {
    let filters: Vec<Box<dyn Filter>> = vec![
        Box::new(FilterAdapter::new("f1")),
        Box::new(FilterAdapter::new("f2")),
    ];
    let chain = FilterManager::create_chain("ds1", filters);
    assert_eq!(chain.len(), 2);
    assert_eq!(chain.filter_names(), vec!["f1", "f2"]);
}

#[test]
fn test_manager_init_destroy() {
    let mut filters: Vec<Box<dyn Filter>> = vec![Box::new(FilterAdapter::new("f1"))];
    assert!(FilterManager::init_filters(&mut filters).is_ok());
    FilterManager::destroy_filters(&mut filters);
}

#[test]
fn manager_init_reports_failure() {
    let mut filters: Vec<Box<dyn Filter>> = vec![Box::new(FilterAdapter::new("f1")), Box::new(Refusing)];
    assert!(matches!(FilterManager::init_filters(&mut filters), Err(DruidError::Config(_))));
    assert_eq!(filters.len(), 2);
}

#[test]
fn chain_names_follow_registration_order() {
    let mut chain = FilterChain::new("ds");
    chain.add_filter(Box::new(FilterAdapter::new("x")));
    chain.add_filter(Box::new(Refusing));
    chain.add_filter(Box::new(FilterAdapter::new("z")));
    assert_eq!(chain.filter_names(), vec!["x", "refusing", "z"]);
    assert!(chain.statement_execute_before("SELECT 1", 3).is_err());
}
