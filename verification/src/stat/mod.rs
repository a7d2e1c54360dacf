//! Statistics on executed SQL and on a data source's connections.
pub mod metrics;

use vstd::prelude::*;
use vstd::multiset::Multiset;
use crate::base::error::DruidError;
use crate::filter::{ContextView, Filter, FilterContext};
use crate::text::{chars_of, string_of};
use crate::util::time::local_now_text;

verus! {

/// The longest SQL text, in characters, that a statistic keeps.
pub const SQL_TEXT_LIMIT: usize = 200;

/// What is known of one SQL text's executions.
#[derive(Debug, Clone)]
pub struct SqlStat {
    /// The SQL text, cut to its first [`SQL_TEXT_LIMIT`] characters.
    pub sql: String,
    pub execute_count: u64,
    pub total_time_ms: u64,
    pub max_time_ms: u64,
    pub error_count: u64,
    /// Local time of the last execution, `%Y-%m-%d %H:%M:%S`.
    pub last_execute_time: Option<String>,
    pub rows_read: u64,
}

/// What is known of one data source's connections and statements.
#[derive(Debug, Clone)]
pub struct DataSourceStat {
    pub name: String,
    pub create_count: u64,
    pub destroy_count: u64,
    pub borrow_count: u64,
    pub return_count: u64,
    pub total_wait_time_ms: u64,
    pub execute_count: u64,
    pub error_count: u64,
    pub active_count: usize,
    pub idle_count: usize,
}

/// The key under which an execution is counted: its SQL text, or
/// `UNKNOWN` where the event carries none.
pub open spec fn sql_key(ctx: FilterContext) -> Seq<char> {
    match ctx.sql {
        Some(s) => s@,
        None => "UNKNOWN"@,
    }
}

/// `key` cut to its first [`SQL_TEXT_LIMIT`] characters.
pub open spec fn kept_text(key: Seq<char>) -> Seq<char> {
    if key.len() <= 200 {
        key
    } else {
        key.take(200)
    }
}

/// `after` is `before` with one more execution of `elapsed` ms reading
/// `rows` rows (counters wrap at `u64::MAX`).
pub open spec fn recorded(before: SqlStat, after: SqlStat, elapsed: u64, rows: u64) -> bool {
    &&& after.sql == before.sql
    &&& after.execute_count == before.execute_count.wrapping_add(1)
    &&& after.total_time_ms == before.total_time_ms.wrapping_add(elapsed)
    &&& after.max_time_ms == (if before.max_time_ms >= elapsed { before.max_time_ms } else { elapsed })
    &&& after.error_count == before.error_count
    &&& after.rows_read == before.rows_read.wrapping_add(rows)
    &&& after.last_execute_time is Some
}

/// `after` is the statistic of a first execution of `key`, of `elapsed`
/// ms reading `rows` rows.
pub open spec fn recorded_first(key: Seq<char>, after: SqlStat, elapsed: u64, rows: u64) -> bool {
    &&& after.sql@ == kept_text(key)
    &&& after.execute_count == 1
    &&& after.total_time_ms == elapsed
    &&& after.max_time_ms == elapsed
    &&& after.error_count == 0
    &&& after.rows_read == rows
    &&& after.last_execute_time is Some
}

/// The entry at `i` is the first whose SQL text is `key`.
pub open spec fn first_key_at(e: Seq<(String, SqlStat)>, key: Seq<char>, i: int) -> bool {
    &&& 0 <= i < e.len()
    &&& e[i].0@ == key
    &&& forall|j: int| 0 <= j < i ==> e[j].0@ != key
}

/// No SQL text has two entries.
pub open spec fn keys_unique(e: Seq<(String, SqlStat)>) -> bool {
    forall|i: int, j: int| 0 <= i < j < e.len() ==> #[trigger] e[i].0@ != #[trigger] e[j].0@
}

/// The statistics, in the order of the entries.
pub open spec fn stat_values(e: Seq<(String, SqlStat)>) -> Seq<SqlStat> {
    e.map_values(|p: (String, SqlStat)| p.1)
}

/// Ordered from the largest total time down.
pub open spec fn by_total_time_desc(s: Seq<SqlStat>) -> bool {
    forall|i: int, j: int| 0 <= i < j < s.len() ==> s[i].total_time_ms >= s[j].total_time_ms
}

/// A copy of a statistic.
fn copy_stat(s: &SqlStat) -> (r: SqlStat)
    ensures
        r == *s,
{
    SqlStat {
        sql: s.sql.clone(),
        execute_count: s.execute_count,
        total_time_ms: s.total_time_ms,
        max_time_ms: s.max_time_ms,
        error_count: s.error_count,
        last_execute_time: match &s.last_execute_time {
            Some(t) => Some(t.clone()),
            None => None,
        },
        rows_read: s.rows_read,
    }
}

impl SqlStat {
    /// A statistic with no executions yet for `sql`.
    fn new(sql: &str) -> (r: Self)
        ensures
            r.sql@ == kept_text(sql@),
            r.execute_count == 0,
            r.total_time_ms == 0,
            r.max_time_ms == 0,
            r.error_count == 0,
            r.last_execute_time is None,
            r.rows_read == 0,
    {
        let all = chars_of(sql);
        let mut kept: Vec<char> = Vec::new();
        let mut i: usize = 0;
        while i < all.len() && i < SQL_TEXT_LIMIT
            invariant
                i <= all@.len(),
                i <= 200,
                kept@ == all@.take(i as int),
            decreases all@.len() - i,
        {
            kept.push(all[i]);
            assert(all@.take(i as int + 1) =~= all@.take(i as int).push(all@[i as int]));
            i = i + 1;
        }
        assert(all@.len() <= 200 ==> all@.take(all@.len() as int) =~= all@);
        SqlStat {
            sql: string_of(&kept),
            execute_count: 0,
            total_time_ms: 0,
            max_time_ms: 0,
            error_count: 0,
            last_execute_time: None,
            rows_read: 0,
        }
    }
}

/// Gathers statistics from the events of one data source.
pub struct StatFilter {
    name: String,
    sql_stats: Vec<(String, SqlStat)>,
    ds_stat: DataSourceStat,
    slow_sql_ms: u64,
}

impl StatFilter {
    /// Each SQL text has one entry.
    #[verifier::type_invariant]
    spec fn inv(&self) -> bool {
        keys_unique(self.sql_stats@)
    }

    /// One entry per SQL text seen, in the order first seen: the full text
    /// and its statistic.
    pub closed spec fn entries(&self) -> Seq<(String, SqlStat)> {
        self.sql_stats@
    }

    /// The data source's statistic.
    pub closed spec fn ds(&self) -> DataSourceStat {
        self.ds_stat
    }

    /// From how many milliseconds an execution counts as slow.
    pub closed spec fn slow_ms(&self) -> u64 {
        self.slow_sql_ms
    }

    /// `s` is the statistics of this filter, ordered from the largest
    /// total time down.
    pub open spec fn sorted_stats(&self, s: Seq<SqlStat>) -> bool {
        &&& by_total_time_desc(s)
        &&& s.to_multiset() == stat_values(self.entries()).to_multiset()
    }

    pub fn new(name: &str, slow_sql_ms: u64) -> (r: Self)
        ensures
            r.entries().len() == 0,
            r.ds().name@ == name@,
            r.ds().create_count == 0,
            r.ds().destroy_count == 0,
            r.ds().borrow_count == 0,
            r.ds().return_count == 0,
            r.ds().total_wait_time_ms == 0,
            r.ds().execute_count == 0,
            r.ds().error_count == 0,
            r.ds().active_count == 0,
            r.ds().idle_count == 0,
            r.slow_ms() == slow_sql_ms,
    {
        StatFilter {
            name: string_of(&chars_of(name)),
            sql_stats: Vec::new(),
            ds_stat: DataSourceStat {
                name: string_of(&chars_of(name)),
                create_count: 0,
                destroy_count: 0,
                borrow_count: 0,
                return_count: 0,
                total_wait_time_ms: 0,
                execute_count: 0,
                error_count: 0,
                active_count: 0,
                idle_count: 0,
            },
            slow_sql_ms,
        }
    }

    /// The index of the entry for `key`, if there is one.
    fn find(&self, key: &[char]) -> (r: Option<usize>)
        ensures
            match r {
                Some(i) => first_key_at(self.entries(), key@, i as int),
                None => forall|j: int| 0 <= j < self.entries().len() ==> self.entries()[j].0@ != key@,
            },
    {
        let mut i: usize = 0;
        while i < self.sql_stats.len()
            invariant
                i <= self.sql_stats@.len(),
                forall|j: int| 0 <= j < i ==> self.sql_stats@[j].0@ != key@,
            decreases self.sql_stats@.len() - i,
        {
            let k = chars_of(self.sql_stats[i].0.as_str());
            if crate::text::eq_chars(&k, key) {
                return Some(i);
            }
            i = i + 1;
        }
        None
    }

    /// All statistics, ordered from the largest total time down.
    pub fn get_sql_stats(&self) -> (r: Vec<SqlStat>)
        ensures
            self.sorted_stats(r@),
            keys_unique(self.entries()),
    {
        proof { use_type_invariant(self); }
        let ghost all = stat_values(self.entries());
        let mut rest: Vec<SqlStat> = Vec::new();
        let mut i: usize = 0;
        while i < self.sql_stats.len()
            invariant
                i <= self.sql_stats@.len(),
                all == stat_values(self.entries()),
                self.entries() == self.sql_stats@,
                rest@ == all.take(i as int),
            decreases self.sql_stats@.len() - i,
        {
            let s = copy_stat(&self.sql_stats[i].1);
            rest.push(s);
            assert(all.take(i as int + 1) =~= all.take(i as int).push(all[i as int]));
            i = i + 1;
        }
        assert(all.take(all.len() as int) =~= all);
        let mut out: Vec<SqlStat> = Vec::new();
        proof {
            broadcast use vstd::seq_lib::group_to_multiset_ensures;
            assert(out@.to_multiset() =~= Multiset::empty());
            assert(out@.to_multiset().add(rest@.to_multiset()) =~= all.to_multiset());
        }
        while rest.len() > 0
            invariant
                out@.to_multiset().add(rest@.to_multiset()) == all.to_multiset(),
                by_total_time_desc(out@),
                forall|a: int, b: int|
                    0 <= a < out@.len() && 0 <= b < rest@.len() ==> #[trigger] out@[a].total_time_ms
                        >= #[trigger] rest@[b].total_time_ms,
            decreases rest@.len(),
        {
            let mut best: usize = 0;
            let mut k: usize = 1;
            while k < rest.len()
                invariant
                    best < k <= rest@.len(),
                    forall|j: int| 0 <= j < k ==> #[trigger] rest@[j].total_time_ms <= rest@[best as int].total_time_ms,
                decreases rest@.len() - k,
            {
                if rest[k].total_time_ms > rest[best].total_time_ms {
                    best = k;
                }
                k = k + 1;
            }
            let ghost old_out = out@;
            let ghost old_rest = rest@;
            let x = rest.remove(best);
            out.push(x);
            proof {
                broadcast use vstd::seq_lib::group_to_multiset_ensures;
                assert(old_rest.remove(best as int).to_multiset() =~= old_rest.to_multiset().remove(x));
                assert(old_out.push(x).to_multiset() =~= old_out.to_multiset().insert(x));
                assert(old_rest.to_multiset().count(x) > 0) by {
                    assert(old_rest[best as int] == x);
                    assert(old_rest.contains(x));
                }
                assert(out@.to_multiset().add(rest@.to_multiset()) =~= all.to_multiset());
                assert forall|a: int, b: int| 0 <= a < out@.len() && 0 <= b < rest@.len() implies
                    #[trigger] out@[a].total_time_ms >= #[trigger] rest@[b].total_time_ms by {
                    let ob = if b < best { b } else { b + 1 };
                    assert(rest@[b] == old_rest[ob]);
                    if a < old_out.len() {
                        assert(out@[a] == old_out[a]);
                    }
                }
                assert forall|a: int, b: int| 0 <= a < b < out@.len() implies
                    out@[a].total_time_ms >= out@[b].total_time_ms by {
                    if b == old_out.len() {
                        assert(out@[b] == old_rest[best as int]);
                        assert(out@[a] == old_out[a]);
                    } else {
                        assert(out@[a] == old_out[a]);
                        assert(out@[b] == old_out[b]);
                    }
                }
            }
        }
        proof {
            assert(rest@.to_multiset() =~= Multiset::empty()) by {
                broadcast use vstd::seq_lib::group_to_multiset_ensures;
            }
            assert(out@.to_multiset() =~= all.to_multiset());
        }
        out
    }

    /// The statistics whose slowest execution took at least the slow-SQL
    /// threshold, ordered from the largest total time down.
    pub fn get_slow_sql(&self) -> (r: Vec<SqlStat>)
        ensures
            exists|s: Seq<SqlStat>|
                #[trigger] self.sorted_stats(s) && r@ == s.filter(|x: SqlStat| x.max_time_ms >= self.slow_ms()),
    {
        let all = self.get_sql_stats();
        let ghost pred = |x: SqlStat| x.max_time_ms >= self.slow_ms();
        let mut out: Vec<SqlStat> = Vec::new();
        let mut i: usize = 0;
        while i < all.len()
            invariant
                i <= all@.len(),
                pred == (|x: SqlStat| x.max_time_ms >= self.slow_ms()),
                self.slow_ms() == self.slow_sql_ms,
                out@ == all@.take(i as int).filter(pred),
            decreases all@.len() - i,
        {
            let ghost next = all@.take(i as int + 1);
            assert(next.drop_last() =~= all@.take(i as int));
            assert(next.last() == all@[i as int]);
            assert(next.filter(pred) == if pred(all@[i as int]) {
                all@.take(i as int).filter(pred).push(all@[i as int])
            } else {
                all@.take(i as int).filter(pred)
            }) by {
                reveal_with_fuel(Seq::<SqlStat>::filter, 2);
            }
            if all[i].max_time_ms >= self.slow_sql_ms {
                let s = copy_stat(&all[i]);
                out.push(s);
            }
            i = i + 1;
        }
        assert(all@.take(all@.len() as int) =~= all@);
        assert(self.sorted_stats(all@));
        out
    }

    /// A copy of the data source's statistic.
    pub fn get_datasource_stat(&self) -> (r: DataSourceStat)
        ensures
            r == self.ds(),
    {
        DataSourceStat {
            name: self.ds_stat.name.clone(),
            create_count: self.ds_stat.create_count,
            destroy_count: self.ds_stat.destroy_count,
            borrow_count: self.ds_stat.borrow_count,
            return_count: self.ds_stat.return_count,
            total_wait_time_ms: self.ds_stat.total_wait_time_ms,
            execute_count: self.ds_stat.execute_count,
            error_count: self.ds_stat.error_count,
            active_count: self.ds_stat.active_count,
            idle_count: self.ds_stat.idle_count,
        }
    }

    /// How many statements were announced.
    pub fn execute_count(&self) -> (r: u64)
        ensures
            r == self.ds().execute_count,
    {
        self.ds_stat.execute_count
    }
}

/// `after` is `before` with one more failed execution.
pub open spec fn errored(before: SqlStat, after: SqlStat) -> bool {
    after == (SqlStat { error_count: before.error_count.wrapping_add(1), ..before })
}

impl Filter for StatFilter {
    open spec fn spec_name(&self) -> &'static str {
        "stat"
    }

    /// It lets every statement run.
    open spec fn admits(&self, ctx: ContextView) -> bool {
        true
    }

    open spec fn refuses_with(&self, ctx: ContextView, e: DruidError) -> bool {
        false
    }

    /// Starting it always succeeds.
    open spec fn starts(&self) -> bool {
        true
    }

    open spec fn fails_with(&self, e: DruidError) -> bool {
        false
    }

    fn name(&self) -> (r: &'static str)
        ensures
            r@ == "stat"@,
    {
        "stat"
    }

    fn init(&mut self) -> (r: Result<(), DruidError>)
        ensures
            r is Ok,
            *final(self) == *old(self),
    {
        Ok(())
    }

    fn connection_created(&mut self, ctx: &FilterContext)
        ensures
            final(self).ds() == (DataSourceStat {
                create_count: old(self).ds().create_count.wrapping_add(1),
                idle_count: old(self).ds().idle_count.wrapping_add(1),
                ..old(self).ds()
            }),
            final(self).entries() == old(self).entries(),
            final(self).slow_ms() == old(self).slow_ms(),
    {
        proof { use_type_invariant(&*self); }
        self.ds_stat.create_count = self.ds_stat.create_count.wrapping_add(1);
        self.ds_stat.idle_count = self.ds_stat.idle_count.wrapping_add(1);
    }

    fn connection_borrowed(&mut self, ctx: &FilterContext, wait_ms: u64)
        ensures
            final(self).ds() == (DataSourceStat {
                borrow_count: old(self).ds().borrow_count.wrapping_add(1),
                total_wait_time_ms: old(self).ds().total_wait_time_ms.wrapping_add(wait_ms),
                active_count: old(self).ds().active_count.wrapping_add(1),
                idle_count: old(self).ds().idle_count.saturating_sub(1),
                ..old(self).ds()
            }),
            final(self).entries() == old(self).entries(),
            final(self).slow_ms() == old(self).slow_ms(),
    {
        proof { use_type_invariant(&*self); }
        self.ds_stat.borrow_count = self.ds_stat.borrow_count.wrapping_add(1);
        self.ds_stat.total_wait_time_ms = self.ds_stat.total_wait_time_ms.wrapping_add(wait_ms);
        self.ds_stat.active_count = self.ds_stat.active_count.wrapping_add(1);
        self.ds_stat.idle_count = self.ds_stat.idle_count.saturating_sub(1);
    }

    fn connection_returned(&mut self, ctx: &FilterContext)
        ensures
            final(self).ds() == (DataSourceStat {
                return_count: old(self).ds().return_count.wrapping_add(1),
                active_count: old(self).ds().active_count.saturating_sub(1),
                idle_count: old(self).ds().idle_count.wrapping_add(1),
                ..old(self).ds()
            }),
            final(self).entries() == old(self).entries(),
            final(self).slow_ms() == old(self).slow_ms(),
    {
        proof { use_type_invariant(&*self); }
        self.ds_stat.return_count = self.ds_stat.return_count.wrapping_add(1);
        self.ds_stat.active_count = self.ds_stat.active_count.saturating_sub(1);
        self.ds_stat.idle_count = self.ds_stat.idle_count.wrapping_add(1);
    }

    fn connection_closed(&mut self, ctx: &FilterContext)
        ensures
            final(self).ds() == (DataSourceStat {
                destroy_count: old(self).ds().destroy_count.wrapping_add(1),
                active_count: old(self).ds().active_count.saturating_sub(1),
                idle_count: old(self).ds().idle_count.saturating_sub(1),
                ..old(self).ds()
            }),
            final(self).entries() == old(self).entries(),
            final(self).slow_ms() == old(self).slow_ms(),
    {
        proof { use_type_invariant(&*self); }
        self.ds_stat.destroy_count = self.ds_stat.destroy_count.wrapping_add(1);
        self.ds_stat.active_count = self.ds_stat.active_count.saturating_sub(1);
        self.ds_stat.idle_count = self.ds_stat.idle_count.saturating_sub(1);
    }

    fn statement_execute_before(&mut self, ctx: &FilterContext) -> (r: Result<(), DruidError>)
        ensures
            r is Ok,
            final(self).ds() == (DataSourceStat {
                execute_count: old(self).ds().execute_count.wrapping_add(1),
                ..old(self).ds()
            }),
            final(self).entries() == old(self).entries(),
            final(self).slow_ms() == old(self).slow_ms(),
    {
        proof { use_type_invariant(&*self); }
        self.ds_stat.execute_count = self.ds_stat.execute_count.wrapping_add(1);
        Ok(())
    }

    fn statement_execute_after(&mut self, ctx: &FilterContext, elapsed_ms: u64, rows: u64)
        ensures
            final(self).ds() == old(self).ds(),
            final(self).slow_ms() == old(self).slow_ms(),
            forall|i: int| #[trigger] first_key_at(old(self).entries(), sql_key(*ctx), i) ==> {
                &&& final(self).entries().len() == old(self).entries().len()
                &&& final(self).entries()[i].0 == old(self).entries()[i].0
                &&& recorded(old(self).entries()[i].1, final(self).entries()[i].1, elapsed_ms, rows)
                &&& forall|j: int| 0 <= j < old(self).entries().len() && j != i ==> final(self).entries()[j] == old(self).entries()[j]
            },
            (forall|i: int| 0 <= i < old(self).entries().len() ==> #[trigger] old(self).entries()[i].0@ != sql_key(*ctx)) ==> {
                &&& final(self).entries().len() == old(self).entries().len() + 1
                &&& final(self).entries().take(old(self).entries().len() as int) == old(self).entries()
                &&& final(self).entries()[old(self).entries().len() as int].0@ == sql_key(*ctx)
                &&& recorded_first(sql_key(*ctx), final(self).entries()[old(self).entries().len() as int].1, elapsed_ms, rows)
            },
    {
        proof {
            use_type_invariant(&*self);
            reveal_strlit("UNKNOWN");
        }
        let key: Vec<char> = match &ctx.sql {
            Some(s) => chars_of(s.as_str()),
            None => chars_of("UNKNOWN"),
        };
        let found = self.find(&key);
        let now = local_now_text();
        match found {
            Some(i) => {
                let before = copy_stat(&self.sql_stats[i].1);
                let k = self.sql_stats[i].0.clone();
                let ghost old_stats = self.sql_stats@;
                let max_time_ms = if before.max_time_ms >= elapsed_ms { before.max_time_ms } else { elapsed_ms };
                let after = SqlStat {
                    sql: before.sql,
                    execute_count: before.execute_count.wrapping_add(1),
                    total_time_ms: before.total_time_ms.wrapping_add(elapsed_ms),
                    max_time_ms,
                    error_count: before.error_count,
                    last_execute_time: Some(now),
                    rows_read: before.rows_read.wrapping_add(rows),
                };
                let mut stats: Vec<(String, SqlStat)> = Vec::new();
                std::mem::swap(&mut stats, &mut self.sql_stats);
                stats.set(i, (k, after));
                proof {
                    assert forall|a: int, b: int| 0 <= a < b < stats@.len() implies #[trigger] stats@[a].0@
                        != #[trigger] stats@[b].0@ by {
                        assert(stats@[a].0@ == old_stats[a].0@);
                        assert(stats@[b].0@ == old_stats[b].0@);
                    }
                }
                self.sql_stats = stats;
            },
            None => {
                let text = string_of(&key);
                let first = SqlStat::new(text.as_str());
                let after = SqlStat {
                    sql: first.sql,
                    execute_count: 1,
                    total_time_ms: elapsed_ms,
                    max_time_ms: elapsed_ms,
                    error_count: 0,
                    last_execute_time: Some(now),
                    rows_read: rows,
                };
                let ghost before = self.sql_stats@;
                let mut stats: Vec<(String, SqlStat)> = Vec::new();
                std::mem::swap(&mut stats, &mut self.sql_stats);
                stats.push((text, after));
                proof {
                    assert(stats@.take(before.len() as int) =~= before);
                    assert forall|a: int, b: int| 0 <= a < b < stats@.len() implies #[trigger] stats@[a].0@
                        != #[trigger] stats@[b].0@ by {
                        if b == before.len() {
                            assert(stats@[a] == before[a]);
                        }
                    }
                }
                self.sql_stats = stats;
            },
        }
    }

    /// The statistics take no note of this event.
    fn destroy(&mut self)
        ensures
            *final(self) == *old(self),
    {
    }

    /// The statistics take no note of this event.
    fn connection_borrow_before(&mut self, ctx: &FilterContext)
        ensures
            *final(self) == *old(self),
    {
    }

    /// The statistics take no note of this event.
    fn connection_return_before(&mut self, ctx: &FilterContext)
        ensures
            *final(self) == *old(self),
    {
    }

    /// The statistics take no note of this event.
    fn connection_error(&mut self, ctx: &FilterContext, error: &DruidError)
        ensures
            *final(self) == *old(self),
    {
    }

    /// The statistics take no note of this event.
    fn statement_created(&mut self, ctx: &FilterContext)
        ensures
            *final(self) == *old(self),
    {
    }

    /// The statistics take no note of this event.
    fn statement_closed(&mut self, ctx: &FilterContext)
        ensures
            *final(self) == *old(self),
    {
    }

    /// The statistics take no note of this event.
    fn resultset_open(&mut self, ctx: &FilterContext)
        ensures
            *final(self) == *old(self),
    {
    }

    /// The statistics take no note of this event.
    fn resultset_closed(&mut self, ctx: &FilterContext, rows_read: u64)
        ensures
            *final(self) == *old(self),
    {
    }

    /// The statistics take no note of this event.
    fn data_source_inited(&mut self, ctx: &FilterContext)
        ensures
            *final(self) == *old(self),
    {
    }

    fn statement_error(&mut self, ctx: &FilterContext, error: &DruidError)
        ensures
            final(self).ds() == (DataSourceStat {
                error_count: old(self).ds().error_count.wrapping_add(1),
                ..old(self).ds()
            }),
            final(self).slow_ms() == old(self).slow_ms(),
            final(self).entries().len() == old(self).entries().len(),
            forall|i: int| ctx.sql is Some && #[trigger] first_key_at(old(self).entries(), ctx.sql->0@, i) ==> {
                &&& final(self).entries()[i].0 == old(self).entries()[i].0
                &&& errored(old(self).entries()[i].1, final(self).entries()[i].1)
                &&& forall|j: int| 0 <= j < old(self).entries().len() && j != i ==> final(self).entries()[j] == old(self).entries()[j]
            },
            (ctx.sql is None || forall|j: int| 0 <= j < old(self).entries().len() ==> old(self).entries()[j].0@ != ctx.sql->0@)
                ==> final(self).entries() == old(self).entries(),
    {
        proof { use_type_invariant(&*self); }
        self.ds_stat.error_count = self.ds_stat.error_count.wrapping_add(1);
        match &ctx.sql {
            Some(sql) => {
                let key = chars_of(sql.as_str());
                match self.find(&key) {
                    Some(i) => {
                        let before = copy_stat(&self.sql_stats[i].1);
                        let k = self.sql_stats[i].0.clone();
                        let ghost old_stats = self.sql_stats@;
                        let after = SqlStat { error_count: before.error_count.wrapping_add(1), ..before };
                        let mut stats: Vec<(String, SqlStat)> = Vec::new();
                        std::mem::swap(&mut stats, &mut self.sql_stats);
                        stats.set(i, (k, after));
                        proof {
                            assert forall|a: int, b: int| 0 <= a < b < stats@.len() implies #[trigger] stats@[a].0@
                                != #[trigger] stats@[b].0@ by {
                                assert(stats@[a].0@ == old_stats[a].0@);
                                assert(stats@[b].0@ == old_stats[b].0@);
                            }
                        }
                        self.sql_stats = stats;
                    },
                    None => {},
                }
            },
            None => {},
        }
    }
}

} // verus!
