//! An ordered list of interceptors that each event is handed to.
use vstd::prelude::*;
use crate::base::error::DruidError;
use crate::filter::{ContextView, Filter, FilterContext};
use crate::text::{chars_of, string_of};

verus! {

/// Pushing onto a sequence adds one to its length.
pub(crate) proof fn lemma_push_len<A>(s: Seq<A>, a: A)
    ensures
        s.push(a).len() == s.len() + 1,
{
}

/// The element pushed is last, and the others keep their places.
pub(crate) proof fn lemma_push_at<A>(s: Seq<A>, a: A)
    ensures
        s.push(a).len() == s.len() + 1,
        s.push(a)[s.len() as int] == a,
        forall|i: int| 0 <= i < s.len() ==> s.push(a)[i] == s[i],
{
}

/// Updating one place leaves the length and the other places as they were.
pub(crate) proof fn lemma_update_at<A>(s: Seq<A>, i: int, a: A)
    requires
        0 <= i < s.len(),
    ensures
        s.update(i, a).len() == s.len(),
        s.update(i, a)[i] == a,
        forall|k: int| 0 <= k < s.len() && k != i ==> s.update(i, a)[k] == s[k],
{
}

/// Moving the first element of `rest` to the end of `done` keeps their
/// concatenation.
pub(crate) proof fn lemma_move_first<A>(done: Seq<A>, rest: Seq<A>)
    requires
        rest.len() > 0,
    ensures
        done.push(rest[0]) + rest.remove(0) == done + rest,
        rest.remove(0).len() == rest.len() - 1,
{
    assert(done.push(rest[0]) + rest.remove(0) =~= done + rest);
}

/// Taking out the element at `i` and putting `a` in its place is an update.
pub(crate) proof fn lemma_remove_insert<A>(s: Seq<A>, i: int, a: A)
    requires
        0 <= i < s.len(),
    ensures
        s.remove(i).len() == s.len() - 1,
        s.remove(i).insert(i, a) == s.update(i, a),
{
    assert(s.remove(i).insert(i, a) =~= s.update(i, a));
}

/// Concatenating with nothing changes nothing.
pub(crate) proof fn lemma_add_empty<A>(s: Seq<A>, e: Seq<A>)
    requires
        e.len() == 0,
    ensures
        s + e == s,
        e + s == s,
{
    assert(s + e =~= s);
    assert(e + s =~= s);
}

/// Removing an element of a sequence takes one from its length.
pub(crate) proof fn lemma_remove_len<A>(s: Seq<A>, i: int)
    requires
        0 <= i < s.len(),
    ensures
        s.remove(i).len() == s.len() - 1,
{
}

/// The interceptor at `j` is the first of `fs` that refuses `ctx`.
pub open spec fn first_refusal(fs: Seq<Box<dyn Filter>>, ctx: ContextView, j: int) -> bool {
    &&& 0 <= j < fs.len()
    &&& !fs[j].admits(ctx)
    &&& forall|i: int| 0 <= i < j ==> #[trigger] fs[i].admits(ctx)
}

/// An event that a chain handed to its interceptors.
pub enum ChainEvent {
    /// The data source is ready.
    Inited,
    /// A connection was created.
    Created(u64),
    /// A connection was lent out after a wait of so many milliseconds.
    Borrowed(u64, u64),
    /// A connection came back.
    Returned(u64),
    /// A connection was closed.
    Closed(u64),
    /// A connection failed.
    Failed(u64),
    /// A statement with this text is about to run.
    Before(Seq<char>, u64),
    /// A statement with this text ran in so many milliseconds and touched so
    /// many rows.
    After(Seq<char>, u64, u64, u64),
    /// A result of this text was opened.
    ResultOpened(Seq<char>),
    /// A result of this text was closed after so many rows were read.
    ResultClosed(Seq<char>, u64),
}

/// Interceptors in the order they were added, for one data source.
pub struct FilterChain {
    filters: Vec<Box<dyn Filter>>,
    data_source_name: String,
    log: Ghost<Seq<ChainEvent>>,
}

impl FilterChain {
    /// The number of interceptors.
    pub open spec fn count(&self) -> nat {
        self.members().len()
    }

    /// The events handed to the interceptors so far, oldest first.
    pub closed spec fn events(&self) -> Seq<ChainEvent> {
        self.log@
    }

    /// The data source the chain serves.
    pub closed spec fn source(&self) -> Seq<char> {
        self.data_source_name@
    }

    /// The interceptors, in the order they were added.
    pub closed spec fn members(&self) -> Seq<Box<dyn Filter>> {
        self.filters@
    }

    /// The context the chain hands its interceptors for statement `sql`.
    pub open spec fn sql_context(&self, sql: Seq<char>) -> ContextView {
        ContextView { name: self.source(), db_type: None, sql: Some(sql), connection_id: None, statement_id: None }
    }

    pub fn new(name: &str) -> (r: Self)
        ensures
            r.members().len() == 0,
            r.source() == name@,
            r.events().len() == 0,
    {
        FilterChain {
            filters: Vec::new(),
            data_source_name: string_of(&chars_of(name)),
            log: Ghost(Seq::empty()),
        }
    }

    /// A chain for data source `name` holding `filters`, in order.
    pub(crate) fn with_members(name: &str, filters: Vec<Box<dyn Filter>>) -> (r: Self)
        ensures
            r.members() == filters@,
            r.source() == name@,
            r.events().len() == 0,
    {
        FilterChain {
            filters,
            data_source_name: string_of(&chars_of(name)),
            log: Ghost(Seq::empty()),
        }
    }

    /// Adds an interceptor at the end.
    pub fn add_filter(&mut self, filter: Box<dyn Filter>) -> (r: &mut Self)
        ensures
            (*r).source() == old(self).source(),
            (*r).members() == old(self).members().push(filter),
            (*r).members().len() == old(self).members().len() + 1,
            forall|k: int| 0 <= k < old(self).members().len() ==> #[trigger] (*r).members()[k].spec_name() == old(
                self,
            ).members()[k].spec_name(),
            (*r).events() == old(self).events(),
            *final(self) == *final(r),
    {
        let ghost before = self.filters@;
        let ghost g = filter;
        self.filters.push(filter);
        proof {
            lemma_push_at(before, g);
            assert(self.filters@ == before.push(g));
        }
        self
    }

    pub fn len(&self) -> (r: usize)
        ensures
            r == self.count(),
    {
        self.filters.len()
    }

    pub fn is_empty(&self) -> (r: bool)
        ensures
            r == (self.count() == 0),
    {
        self.filters.len() == 0
    }

    /// The names of the interceptors, in order.
    pub fn filter_names(&self) -> (r: Vec<String>)
        ensures
            r@.len() == self.count(),
            forall|i: int| 0 <= i < r@.len() ==> #[trigger] r@[i]@ == self.members()[i].spec_name()@,
    {
        let mut out: Vec<String> = Vec::new();
        let mut i: usize = 0;
        while i < self.filters.len()
            invariant
                i <= self.filters@.len(),
                out@.len() == i,
                forall|k: int| 0 <= k < i ==> #[trigger] out@[k]@ == self.filters@[k].spec_name()@,
            decreases self.filters.len() - i,
        {
            let n = self.filters[i].name();
            let ghost before = out@;
            out.push(string_of(&chars_of(n)));
            proof { lemma_push_at(before, out@[i as int]); }
            i = i + 1;
        }
        out
    }

    fn ctx(&self) -> (r: FilterContext)
        ensures
            r.data_source_name@ == self.source(),
            r.db_type is None,
            r.sql is None,
            r.connection_id is None,
            r.statement_id is None,
    {
        FilterContext::new(self.data_source_name.as_str())
    }

    /// Tells each interceptor, in order, that the data source is ready.
    pub fn data_source_inited(&mut self)
        ensures
            final(self).count() == old(self).count(),
            final(self).source() == old(self).source(),
            final(self).events() == old(self).events().push(ChainEvent::Inited),
    {
        self.log = Ghost(self.log@.push(ChainEvent::Inited));
        let ctx = self.ctx();
        let n = self.filters.len();
        let mut i: usize = 0;
        while i < n
            invariant
                i <= n,
                n == self.filters@.len(),
                self.filters@.len() == old(self).filters@.len(),
                self.data_source_name == old(self).data_source_name,
                self.log@ == old(self).log@.push(ChainEvent::Inited),
            decreases n - i,
        {
            self.filters[i].data_source_inited(&ctx);
            i = i + 1;
        }
    }
    /// Tells each interceptor, in order, that connection `conn_id` was created.
    pub fn connection_created(&mut self, conn_id: u64)
        ensures
            final(self).count() == old(self).count(),
            final(self).source() == old(self).source(),
            final(self).events() == old(self).events().push(ChainEvent::Created(conn_id)),
    {
        self.log = Ghost(self.log@.push(ChainEvent::Created(conn_id)));
        let ctx = self.ctx().with_connection(conn_id);
        let n = self.filters.len();
        let mut i: usize = 0;
        while i < n
            invariant
                i <= n,
                n == self.filters@.len(),
                self.filters@.len() == old(self).filters@.len(),
                self.data_source_name == old(self).data_source_name,
                self.log@ == old(self).log@.push(ChainEvent::Created(conn_id)),
            decreases n - i,
        {
            self.filters[i].connection_created(&ctx);
            i = i + 1;
        }
    }

    /// Tells each interceptor, in order, that connection `conn_id` was lent
    /// out after a wait of `wait_ms` milliseconds.
    pub fn connection_borrowed(&mut self, conn_id: u64, wait_ms: u64)
        ensures
            final(self).count() == old(self).count(),
            final(self).source() == old(self).source(),
            final(self).events() == old(self).events().push(ChainEvent::Borrowed(conn_id, wait_ms)),
    {
        self.log = Ghost(self.log@.push(ChainEvent::Borrowed(conn_id, wait_ms)));
        let ctx = self.ctx().with_connection(conn_id);
        let n = self.filters.len();
        let mut i: usize = 0;
        while i < n
            invariant
                i <= n,
                n == self.filters@.len(),
                self.filters@.len() == old(self).filters@.len(),
                self.data_source_name == old(self).data_source_name,
                self.log@ == old(self).log@.push(ChainEvent::Borrowed(conn_id, wait_ms)),
            decreases n - i,
        {
            self.filters[i].connection_borrowed(&ctx, wait_ms);
            i = i + 1;
        }
    }

    /// Tells each interceptor, in order, that connection `conn_id` came back.
    pub fn connection_returned(&mut self, conn_id: u64)
        ensures
            final(self).count() == old(self).count(),
            final(self).source() == old(self).source(),
            final(self).events() == old(self).events().push(ChainEvent::Returned(conn_id)),
    {
        self.log = Ghost(self.log@.push(ChainEvent::Returned(conn_id)));
        let ctx = self.ctx().with_connection(conn_id);
        let n = self.filters.len();
        let mut i: usize = 0;
        while i < n
            invariant
                i <= n,
                n == self.filters@.len(),
                self.filters@.len() == old(self).filters@.len(),
                self.data_source_name == old(self).data_source_name,
                self.log@ == old(self).log@.push(ChainEvent::Returned(conn_id)),
            decreases n - i,
        {
            self.filters[i].connection_returned(&ctx);
            i = i + 1;
        }
    }

    /// Tells each interceptor, in order, that connection `conn_id` was closed.
    pub fn connection_closed(&mut self, conn_id: u64)
        ensures
            final(self).count() == old(self).count(),
            final(self).source() == old(self).source(),
            final(self).events() == old(self).events().push(ChainEvent::Closed(conn_id)),
    {
        self.log = Ghost(self.log@.push(ChainEvent::Closed(conn_id)));
        let ctx = self.ctx().with_connection(conn_id);
        let n = self.filters.len();
        let mut i: usize = 0;
        while i < n
            invariant
                i <= n,
                n == self.filters@.len(),
                self.filters@.len() == old(self).filters@.len(),
                self.data_source_name == old(self).data_source_name,
                self.log@ == old(self).log@.push(ChainEvent::Closed(conn_id)),
            decreases n - i,
        {
            self.filters[i].connection_closed(&ctx);
            i = i + 1;
        }
    }

    /// Tells each interceptor, in order, that connection `conn_id` failed.
    pub fn connection_error(&mut self, conn_id: u64, error: &DruidError)
        ensures
            final(self).count() == old(self).count(),
            final(self).source() == old(self).source(),
            final(self).events() == old(self).events().push(ChainEvent::Failed(conn_id)),
    {
        self.log = Ghost(self.log@.push(ChainEvent::Failed(conn_id)));
        let ctx = self.ctx().with_connection(conn_id);
        let n = self.filters.len();
        let mut i: usize = 0;
        while i < n
            invariant
                i <= n,
                n == self.filters@.len(),
                self.filters@.len() == old(self).filters@.len(),
                self.data_source_name == old(self).data_source_name,
                self.log@ == old(self).log@.push(ChainEvent::Failed(conn_id)),
            decreases n - i,
        {
            self.filters[i].connection_error(&ctx, error);
            i = i + 1;
        }
    }

    /// Asks each interceptor, in order, whether `sql` may run; the first
    /// refusal is returned, with the error that interceptor gave, and the
    /// interceptors after it are not asked.
    /// A chain with no interceptors lets everything run.
    pub fn statement_execute_before(&mut self, sql: &str, stmt_id: u64) -> (r: Result<(), DruidError>)
        ensures
            final(self).count() == old(self).count(),
            final(self).source() == old(self).source(),
            final(self).events() == old(self).events().push(ChainEvent::Before(sql@, stmt_id)),
            old(self).count() == 0 ==> r is Ok,
            r is Ok <==> forall|i: int|
                0 <= i < old(self).count() ==> #[trigger] old(self).members()[i].admits(old(self).sql_context(sql@)),
            forall|j: int| #[trigger] first_refusal(old(self).members(), old(self).sql_context(sql@), j) ==> {
                &&& r matches Err(e) && old(self).members()[j].refuses_with(old(self).sql_context(sql@), e)
                &&& forall|k: int| j < k < old(self).count() ==> #[trigger] final(self).members()[k] == old(self).members()[k]
            },
    {
        self.log = Ghost(self.log@.push(ChainEvent::Before(sql@, stmt_id)));
        let ctx = self.ctx().with_sql(sql);
        let ghost cv = old(self).sql_context(sql@);
        assert(ctx@ == cv);
        let n = self.filters.len();
        let mut i: usize = 0;
        while i < n
            invariant
                i <= n,
                n == self.filters@.len(),
                n == old(self).filters@.len(),
                self.data_source_name == old(self).data_source_name,
                self.log@ == old(self).log@.push(ChainEvent::Before(sql@, stmt_id)),
                ctx@ == cv,
                cv == old(self).sql_context(sql@),
                forall|k: int| 0 <= k < i ==> #[trigger] old(self).filters@[k].admits(cv),
                forall|k: int| i <= k < n ==> #[trigger] self.filters@[k] == old(self).filters@[k],
            decreases n - i,
        {
            let ghost before = self.filters@;
            let mut f = self.filters.remove(i);
            assert(f == old(self).filters@[i as int]);
            let verdict = f.statement_execute_before(&ctx);
            let ghost after = f;
            self.filters.insert(i, f);
            proof {
                lemma_remove_insert(before, i as int, after);
                lemma_update_at(before, i as int, after);
            }
            match verdict {
                Ok(()) => {},
                Err(e) => {
                    proof {
                        assert(!old(self).filters@[i as int].admits(cv));
                        assert(old(self).filters@[i as int].refuses_with(cv, e));
                        assert(!old(self).members()[i as int].admits(old(self).sql_context(sql@)));
                        assert forall|k: int| i < k < old(self).count() implies #[trigger] self.members()[k]
                            == old(self).members()[k] by {
                            assert(self.filters@[k] == before[k]);
                        }
                        assert forall|j: int| #[trigger] first_refusal(old(self).members(), cv, j) implies j == i by {
                            if j < i {
                                assert(old(self).filters@[j].admits(cv));
                            } else if j > i {
                                assert(old(self).filters@[i as int].admits(cv));
                            }
                        }
                    }
                    return Err(e);
                },
            }
            i = i + 1;
        }
        proof {
            assert forall|j: int| !#[trigger] first_refusal(old(self).members(), cv, j) by {
                if 0 <= j < n {
                    assert(old(self).filters@[j].admits(cv));
                }
            }
        }
        Ok(())
    }

    /// Tells each interceptor, in order, that `sql` ran in `elapsed_ms`
    /// milliseconds and touched `rows` rows.
    pub fn statement_execute_after(&mut self, sql: &str, stmt_id: u64, elapsed_ms: u64, rows: u64)
        ensures
            final(self).count() == old(self).count(),
            final(self).source() == old(self).source(),
            final(self).events() == old(self).events().push(ChainEvent::After(sql@, stmt_id, elapsed_ms, rows)),
    {
        self.log = Ghost(self.log@.push(ChainEvent::After(sql@, stmt_id, elapsed_ms, rows)));
        let ctx = self.ctx().with_sql(sql);
        let n = self.filters.len();
        let mut i: usize = 0;
        while i < n
            invariant
                i <= n,
                n == self.filters@.len(),
                self.filters@.len() == old(self).filters@.len(),
                self.data_source_name == old(self).data_source_name,
                self.log@ == old(self).log@.push(ChainEvent::After(sql@, stmt_id, elapsed_ms, rows)),
            decreases n - i,
        {
            self.filters[i].statement_execute_after(&ctx, elapsed_ms, rows);
            i = i + 1;
        }
    }

    /// Tells each interceptor, in order, that a result of `sql` was opened.
    pub fn resultset_open(&mut self, sql: &str)
        ensures
            final(self).count() == old(self).count(),
            final(self).source() == old(self).source(),
            final(self).events() == old(self).events().push(ChainEvent::ResultOpened(sql@)),
    {
        self.log = Ghost(self.log@.push(ChainEvent::ResultOpened(sql@)));
        let ctx = self.ctx().with_sql(sql);
        let n = self.filters.len();
        let mut i: usize = 0;
        while i < n
            invariant
                i <= n,
                n == self.filters@.len(),
                self.filters@.len() == old(self).filters@.len(),
                self.data_source_name == old(self).data_source_name,
                self.log@ == old(self).log@.push(ChainEvent::ResultOpened(sql@)),
            decreases n - i,
        {
            self.filters[i].resultset_open(&ctx);
            i = i + 1;
        }
    }

    /// Tells each interceptor, in order, that a result of `sql` was closed
    /// after `rows_read` rows were read.
    pub fn resultset_closed(&mut self, sql: &str, rows_read: u64)
        ensures
            final(self).count() == old(self).count(),
            final(self).source() == old(self).source(),
            final(self).events() == old(self).events().push(ChainEvent::ResultClosed(sql@, rows_read)),
    {
        self.log = Ghost(self.log@.push(ChainEvent::ResultClosed(sql@, rows_read)));
        let ctx = self.ctx().with_sql(sql);
        let n = self.filters.len();
        let mut i: usize = 0;
        while i < n
            invariant
                i <= n,
                n == self.filters@.len(),
                self.filters@.len() == old(self).filters@.len(),
                self.data_source_name == old(self).data_source_name,
                self.log@ == old(self).log@.push(ChainEvent::ResultClosed(sql@, rows_read)),
            decreases n - i,
        {
            self.filters[i].resultset_closed(&ctx, rows_read);
            i = i + 1;
        }
    }
}

} // verus!
