//! Interceptors around pool and statement events.
pub mod adapter;
pub mod chain;
pub mod manager;

use vstd::prelude::*;
use crate::base::error::DruidError;
use crate::text::{chars_of, string_of};

verus! {

/// What an interceptor is told about an event.
#[derive(Debug, Clone)]
pub struct FilterContext {
    pub data_source_name: String,
    pub db_type: Option<String>,
    pub sql: Option<String>,
    pub connection_id: Option<u64>,
    pub statement_id: Option<u64>,
}

impl FilterContext {
    /// A context for data source `name`, with nothing else set.
    pub fn new(name: &str) -> (r: Self)
        ensures
            r.data_source_name@ == name@,
            r.db_type is None,
            r.sql is None,
            r.connection_id is None,
            r.statement_id is None,
    {
        FilterContext {
            data_source_name: string_of(&chars_of(name)),
            db_type: None,
            sql: None,
            connection_id: None,
            statement_id: None,
        }
    }

    /// This context, with its SQL text set.
    pub fn with_sql(self, sql: &str) -> (r: Self)
        ensures
            r.sql matches Some(s) && s@ == sql@,
            r.data_source_name == self.data_source_name,
            r.db_type == self.db_type,
            r.connection_id == self.connection_id,
            r.statement_id == self.statement_id,
    {
        let mut c = self;
        c.sql = Some(string_of(&chars_of(sql)));
        c
    }

    /// This context, with its connection set.
    pub fn with_connection(self, id: u64) -> (r: Self)
        ensures
            r.connection_id == Some(id),
            r.data_source_name == self.data_source_name,
            r.db_type == self.db_type,
            r.sql == self.sql,
            r.statement_id == self.statement_id,
    {
        let mut c = self;
        c.connection_id = Some(id);
        c
    }

    /// This context, with its statement set.
    pub fn with_statement(self, id: u64) -> (r: Self)
        ensures
            r.statement_id == Some(id),
            r.data_source_name == self.data_source_name,
            r.db_type == self.db_type,
            r.sql == self.sql,
            r.connection_id == self.connection_id,
    {
        let mut c = self;
        c.statement_id = Some(id);
        c
    }
}

/// What an event's context holds, as the contracts see it.
pub struct ContextView {
    pub name: Seq<char>,
    pub db_type: Option<Seq<char>>,
    pub sql: Option<Seq<char>>,
    pub connection_id: Option<u64>,
    pub statement_id: Option<u64>,
}

impl View for FilterContext {
    type V = ContextView;

    open spec fn view(&self) -> ContextView {
        ContextView {
            name: self.data_source_name@,
            db_type: match self.db_type {
                Some(t) => Some(t@),
                None => None,
            },
            sql: match self.sql {
                Some(t) => Some(t@),
                None => None,
            },
            connection_id: self.connection_id,
            statement_id: self.statement_id,
        }
    }
}

/// An interceptor of pool and statement events. Each interceptor states its
/// name, which statements it lets run and the errors it refuses the others
/// with, and whether starting it succeeds and with which error it fails;
/// the other hooks do nothing unless an interceptor overrides them.
pub trait Filter: Send + Sync {
    /// The name the interceptor gives.
    spec fn spec_name(&self) -> &'static str;

    /// Whether the interceptor lets a statement with this context run.
    spec fn admits(&self, ctx: ContextView) -> bool;

    /// Whether `e` is an error the interceptor refuses a statement with this
    /// context with.
    spec fn refuses_with(&self, ctx: ContextView, e: DruidError) -> bool;

    /// Whether starting the interceptor succeeds.
    spec fn starts(&self) -> bool;

    /// Whether `e` is an error that starting the interceptor fails with.
    spec fn fails_with(&self, e: DruidError) -> bool;

    /// The interceptor's name.
    fn name(&self) -> (r: &'static str)
        ensures
            r@ == self.spec_name()@,
    ;

    fn init(&mut self) -> (r: Result<(), DruidError>)
        ensures
            r is Ok <==> old(self).starts(),
            r matches Err(e) ==> old(self).fails_with(e),
    ;

    fn destroy(&mut self) {
    }

    fn connection_created(&mut self, ctx: &FilterContext) {
    }

    fn connection_borrow_before(&mut self, ctx: &FilterContext) {
    }

    fn connection_borrowed(&mut self, ctx: &FilterContext, wait_ms: u64) {
    }

    fn connection_return_before(&mut self, ctx: &FilterContext) {
    }

    fn connection_returned(&mut self, ctx: &FilterContext) {
    }

    fn connection_closed(&mut self, ctx: &FilterContext) {
    }

    fn connection_error(&mut self, ctx: &FilterContext, error: &DruidError) {
    }

    fn statement_created(&mut self, ctx: &FilterContext) {
    }

    fn statement_execute_before(&mut self, ctx: &FilterContext) -> (r: Result<(), DruidError>)
        ensures
            r is Ok <==> old(self).admits(ctx@),
            r matches Err(e) ==> old(self).refuses_with(ctx@, e),
    ;

    fn statement_execute_after(&mut self, ctx: &FilterContext, elapsed_ms: u64, rows: u64) {
    }

    fn statement_closed(&mut self, ctx: &FilterContext) {
    }

    fn statement_error(&mut self, ctx: &FilterContext, error: &DruidError) {
    }

    fn resultset_open(&mut self, ctx: &FilterContext) {
    }

    fn resultset_closed(&mut self, ctx: &FilterContext, rows_read: u64) {
    }

    fn data_source_inited(&mut self, ctx: &FilterContext) {
    }
}

} // verus!
