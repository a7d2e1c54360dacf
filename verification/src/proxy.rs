//! Connections and statements wrapped so that interceptors see their events.
use std::sync::Arc;
use vstd::prelude::*;
use crate::base::error::DruidError;
use crate::filter::chain::{first_refusal, ChainEvent, FilterChain};

verus! {

#[verifier::external_type_specification]
#[verifier::external_body]
pub struct ExInstant(std::time::Instant);

/// `std::time::Instant::now()`; the clock decides it.
#[verifier::external_body]
fn clock_start() -> std::time::Instant {
    std::time::Instant::now()
}

/// `Instant::elapsed`: the time since `start`; the clock decides it.
#[verifier::external_body]
fn elapsed_since(start: &std::time::Instant) -> std::time::Duration {
    start.elapsed()
}

/// `Duration::as_millis`: the whole milliseconds of `d`.
#[verifier::external_body]
fn whole_millis(d: &std::time::Duration) -> u128 {
    d.as_millis()
}

/// The whole milliseconds since `start`, cut to 64 bits.
fn millis_since(start: &std::time::Instant) -> u64 {
    let d = elapsed_since(start);
    let ms = whole_millis(&d);
    ms as u64
}

/// A connection of a database driver, as the proxy uses it. Each driver
/// states its identifier, what running a statement and closing give, and
/// whether it reports the connection closed.
pub trait RawConnection: Send + Sync {
    /// The connection's identifier.
    spec fn spec_id(&self) -> u64;

    /// What running `sql` gives: the number of rows it touched, or the
    /// driver's error.
    spec fn execution(&self, sql: &str) -> Result<u64, DruidError>;

    /// What closing the connection gives.
    spec fn closing(&self) -> Result<(), DruidError>;

    /// Whether the driver reports the connection closed.
    spec fn reports_closed(&self) -> bool;

    fn execute(&self, sql: &str) -> (r: Result<u64, DruidError>)
        ensures
            r == self.execution(sql),
    ;

    fn close(&self) -> (r: Result<(), DruidError>)
        ensures
            r == self.closing(),
    ;

    fn id(&self) -> (r: u64)
        ensures
            r == self.spec_id(),
    ;

    fn is_closed(&self) -> (r: bool)
        ensures
            r == self.reports_closed(),
    ;
}

/// `after` is `before` with the two events of a statement `sql` that ran on
/// connection `id` and touched `rows` rows: the check before it, then the
/// report after it, whatever time it took.
pub open spec fn told_ran(before: Seq<ChainEvent>, after: Seq<ChainEvent>, sql: Seq<char>, id: u64, rows: u64) -> bool {
    &&& after.len() == before.len() + 2
    &&& after.take(before.len() as int) == before
    &&& after[before.len() as int] == ChainEvent::Before(sql, id)
    &&& (after[before.len() + 1int] matches ChainEvent::After(s, i, _, n) && s == sql && i == id && n == rows)
}

/// A driver connection whose events go through an interceptor chain.
pub struct ProxyConnection<R: RawConnection> {
    inner: Arc<R>,
    filter_chain: FilterChain,
    conn_id: u64,
    closed: bool,
}

/// A statement on a proxied connection.
pub struct ProxyStatement<'a, R: RawConnection> {
    pub conn: &'a mut ProxyConnection<R>,
}

impl<R: RawConnection> ProxyConnection<R> {
    /// The identifier the driver gave the connection.
    pub closed spec fn spec_id(&self) -> u64 {
        self.conn_id
    }

    /// Whether the connection was closed through the proxy.
    pub closed spec fn is_closed_spec(&self) -> bool {
        self.closed
    }

    /// The number of interceptors on the connection's chain.
    pub closed spec fn chain_len(&self) -> nat {
        self.filter_chain.count()
    }

    /// The connection's interceptor chain.
    pub closed spec fn chain(&self) -> FilterChain {
        self.filter_chain
    }

    /// The driver connection.
    pub closed spec fn raw(&self) -> R {
        *self.inner
    }

    /// Wraps `inner`, telling the chain that the connection was created.
    pub fn new(inner: Arc<R>, filter_chain: FilterChain) -> (r: Self)
        ensures
            !r.is_closed_spec(),
            r.spec_id() == inner.spec_id(),
            r.raw() == *inner,
            r.chain_len() == filter_chain.count(),
            r.chain().source() == filter_chain.source(),
            r.chain().members().len() == filter_chain.members().len(),
            r.chain().events() == filter_chain.events().push(ChainEvent::Created(inner.spec_id())),
    {
        let id = inner.id();
        let mut chain = filter_chain;
        chain.connection_created(id);
        ProxyConnection { inner, filter_chain: chain, conn_id: id, closed: false }
    }

    /// A statement on this connection.
    pub fn create_statement(&mut self) -> (r: ProxyStatement<'_, R>)
        ensures
            *r.conn == *old(self),
            *final(self) == *final(r.conn),
    {
        ProxyStatement { conn: self }
    }

    /// Closes the connection once: the first call tells the chain and
    /// closes the driver connection, returning what the driver returns;
    /// later calls do nothing and succeed.
    pub fn close(&mut self) -> (r: Result<(), DruidError>)
        ensures
            final(self).is_closed_spec(),
            final(self).spec_id() == old(self).spec_id(),
            final(self).chain_len() == old(self).chain_len(),
            final(self).raw() == old(self).raw(),
            old(self).is_closed_spec() ==> r is Ok && *final(self) == *old(self),
            !old(self).is_closed_spec() ==> r == old(self).raw().closing(),
            !old(self).is_closed_spec() ==> final(self).chain().events() == old(self).chain().events().push(
                ChainEvent::Closed(old(self).spec_id()),
            ),
    {
        if self.closed {
            return Ok(());
        }
        self.closed = true;
        self.filter_chain.connection_closed(self.conn_id);
        self.inner.close()
    }

    pub fn id(&self) -> (r: u64)
        ensures
            r == self.spec_id(),
    {
        self.conn_id
    }
}

impl<'a, R: RawConnection> ProxyStatement<'a, R> {
    /// Runs `sql`: the chain is asked first and a refusal is returned
    /// without running it; after a successful run the chain is told how long
    /// it took and how many rows it touched.
    pub fn execute(&mut self, sql: &str) -> (r: Result<u64, DruidError>)
        ensures
            final(self).conn.spec_id() == old(self).conn.spec_id(),
            final(self).conn.is_closed_spec() == old(self).conn.is_closed_spec(),
            final(self).conn.chain_len() == old(self).conn.chain_len(),
            final(self).conn.raw() == old(self).conn.raw(),
            forall|j: int| #[trigger] first_refusal(
                old(self).conn.chain().members(),
                old(self).conn.chain().sql_context(sql@),
                j,
            ) ==> {
                &&& r matches Err(e) && old(self).conn.chain().members()[j].refuses_with(
                    old(self).conn.chain().sql_context(sql@),
                    e,
                )
                &&& final(self).conn.chain().events() == old(self).conn.chain().events().push(
                    ChainEvent::Before(sql@, old(self).conn.spec_id()),
                )
            },
            (forall|i: int| 0 <= i < old(self).conn.chain_len() ==> #[trigger] old(self).conn.chain().members()[i].admits(
                old(self).conn.chain().sql_context(sql@),
            )) ==> {
                &&& r == old(self).conn.raw().execution(sql)
                &&& match r {
                    Ok(rows) => told_ran(
                        old(self).conn.chain().events(),
                        final(self).conn.chain().events(),
                        sql@,
                        old(self).conn.spec_id(),
                        rows,
                    ),
                    Err(_) => final(self).conn.chain().events() == old(self).conn.chain().events().push(
                        ChainEvent::Before(sql@, old(self).conn.spec_id()),
                    ),
                }
            },
    {
        let id = self.conn.conn_id;
        match self.conn.filter_chain.statement_execute_before(sql, id) {
            Ok(()) => {},
            Err(e) => {
                return Err(e);
            },
        }
        let start = clock_start();
        let result = self.conn.inner.execute(sql);
        let elapsed = millis_since(&start);
        match &result {
            Ok(rows) => {
                let ghost mid = self.conn.filter_chain.events();
                self.conn.filter_chain.statement_execute_after(sql, id, elapsed, *rows);
                assert(self.conn.filter_chain.events().take(old(self).conn.chain().events().len() as int)
                    =~= old(self).conn.chain().events());
            },
            Err(_) => {},
        }
        result
    }
}

} // verus!
