//! The settings of a pooled data source.
use vstd::prelude::*;
use crate::text::{chars_of, string_of};

verus! {

/// The settings of a pooled data source, times in milliseconds unless the
/// name says seconds.
#[derive(Clone)]
pub struct DruidConfig {
    pub url: String,
    pub username: String,
    pub password: String,
    pub driver_class_name: Option<String>,
    pub initial_size: usize,
    pub min_idle: usize,
    pub max_active: usize,
    pub max_wait_ms: u64,
    pub time_between_eviction_runs_ms: u64,
    pub min_evictable_idle_time_ms: u64,
    pub max_evictable_idle_time_ms: u64,
    pub max_lifetime_ms: u64,
    pub test_on_borrow: bool,
    pub test_on_return: bool,
    pub test_while_idle: bool,
    pub validation_query: Option<String>,
    pub validation_query_timeout_secs: u64,
    pub pool_prepared_statements: bool,
    pub max_pool_prepared_statement_per_connection_size: usize,
    pub keep_alive: bool,
    pub keep_alive_between_time_ms: u64,
    pub filters: Vec<String>,
    pub connection_properties: Vec<String>,
    pub connect_timeout_secs: u64,
    pub socket_timeout_secs: u64,
}

/// The default values of every setting but the three given ones.
pub open spec fn has_default_settings(c: DruidConfig) -> bool {
    &&& c.driver_class_name is None
    &&& c.initial_size == 0
    &&& c.min_idle == 0
    &&& c.max_active == 8
    &&& c.max_wait_ms == 0
    &&& c.time_between_eviction_runs_ms == 60_000
    &&& c.min_evictable_idle_time_ms == 1_800_000
    &&& c.max_evictable_idle_time_ms == 25_200_000
    &&& c.max_lifetime_ms == 0
    &&& c.test_on_borrow
    &&& !c.test_on_return
    &&& !c.test_while_idle
    &&& c.validation_query is None
    &&& c.validation_query_timeout_secs == 0
    &&& !c.pool_prepared_statements
    &&& c.max_pool_prepared_statement_per_connection_size == 10
    &&& !c.keep_alive
    &&& c.keep_alive_between_time_ms == 120_000
    &&& c.filters@.len() == 0
    &&& c.connection_properties@.len() == 0
    &&& c.connect_timeout_secs == 30
    &&& c.socket_timeout_secs == 30
}

impl DruidConfig {
    /// Settings for a database at `url`, with the default pool settings.
    pub fn new(url: &str, username: &str, password: &str) -> (r: Self)
        ensures
            r.url@ == url@,
            r.username@ == username@,
            r.password@ == password@,
            has_default_settings(r),
    {
        DruidConfig {
            url: string_of(&chars_of(url)),
            username: string_of(&chars_of(username)),
            password: string_of(&chars_of(password)),
            driver_class_name: None,
            initial_size: 0,
            min_idle: 0,
            max_active: 8,
            max_wait_ms: 0,
            time_between_eviction_runs_ms: 60_000,
            min_evictable_idle_time_ms: 1_800_000,
            max_evictable_idle_time_ms: 25_200_000,
            max_lifetime_ms: 0,
            test_on_borrow: true,
            test_on_return: false,
            test_while_idle: false,
            validation_query: None,
            validation_query_timeout_secs: 0,
            pool_prepared_statements: false,
            max_pool_prepared_statement_per_connection_size: 10,
            keep_alive: false,
            keep_alive_between_time_ms: 120_000,
            filters: Vec::new(),
            connection_properties: Vec::new(),
            connect_timeout_secs: 30,
            socket_timeout_secs: 30,
        }
    }

    /// The longest wait for a connection, or `None` when waiting is not
    /// limited (a setting of 0).
    pub fn max_wait(&self) -> (r: Option<std::time::Duration>)
        ensures
            r == (if self.max_wait_ms > 0 {
                Some(millis_duration(self.max_wait_ms))
            } else {
                None
            }),
    {
        if self.max_wait_ms > 0 {
            Some(duration_from_millis(self.max_wait_ms))
        } else {
            None
        }
    }

    /// The time between two runs of idle-connection eviction.
    pub fn eviction_interval(&self) -> (r: std::time::Duration)
        ensures
            r == millis_duration(self.time_between_eviction_runs_ms),
    {
        duration_from_millis(self.time_between_eviction_runs_ms)
    }

    /// The time between two keep-alive rounds.
    pub fn keep_alive_interval(&self) -> (r: std::time::Duration)
        ensures
            r == millis_duration(self.keep_alive_between_time_ms),
    {
        duration_from_millis(self.keep_alive_between_time_ms)
    }

    /// How long opening a connection may take.
    pub fn connect_timeout(&self) -> (r: std::time::Duration)
        ensures
            r == secs_duration(self.connect_timeout_secs),
    {
        duration_from_secs(self.connect_timeout_secs)
    }
}

/// What `Duration::from_millis` gives for `ms`.
pub uninterp spec fn millis_duration(ms: u64) -> std::time::Duration;

/// What `Duration::from_secs` gives for `s`.
pub uninterp spec fn secs_duration(s: u64) -> std::time::Duration;

/// `std::time::Duration::from_millis`, which never fails.
#[verifier::external_body]
fn duration_from_millis(ms: u64) -> (r: std::time::Duration)
    ensures
        r == millis_duration(ms),
{
    std::time::Duration::from_millis(ms)
}

/// `std::time::Duration::from_secs`, which never fails.
#[verifier::external_body]
fn duration_from_secs(s: u64) -> (r: std::time::Duration)
    ensures
        r == secs_duration(s),
{
    std::time::Duration::from_secs(s)
}

impl Default for DruidConfig {
    fn default() -> (r: Self)
        ensures
            r.url@.len() == 0,
            r.username@.len() == 0,
            r.password@.len() == 0,
            has_default_settings(r),
    {
        let r = DruidConfig::new("", "", "");
        proof {
            reveal_strlit("");
        }
        r
    }
}

} // verus!
