//! The bookkeeping of a pool: which connections are idle and since when,
//! how many are lent out, and whether the pool is closed. The pool itself
//! awaits the driver and the clock and asks this state what to do.
use vstd::prelude::*;

verus! {

/// An idle connection: its identifier and when it was last given back, in
/// milliseconds of the pool's clock.
#[derive(Clone, Copy, Debug, PartialEq, Eq, Structural)]
pub struct IdleEntry {
    pub id: u64,
    pub last_used_ms: u64,
}

/// Where a lent connection comes from.
#[derive(Clone, Copy, Debug, PartialEq, Eq, Structural)]
pub enum Lend {
    /// The idle connection with this identifier.
    Reuse(u64),
    /// A connection still to be opened, under this identifier.
    Open(u64),
}

/// The pool's bookkeeping, as the contracts see it.
pub struct PoolView {
    pub idle: Seq<IdleEntry>,
    pub active: usize,
    pub closed: bool,
    pub next_id: u64,
}

/// The bookkeeping of one pool.
pub struct PoolState {
    idle: Vec<IdleEntry>,
    active_count: usize,
    closed: bool,
    next_id: u64,
}

/// The idle entries from `i` on whose idle time at `now_ms` exceeds
/// `max_idle_ms`, counted from the front while more than `min_idle` remain.
pub open spec fn evicted_count(idle: Seq<IdleEntry>, now_ms: u64, max_idle_ms: u64, min_idle: usize, i: int) -> int
    decreases idle.len() - i,
{
    if i < 0 || i >= idle.len() || idle.len() - i <= min_idle {
        0
    } else if now_ms >= idle[i].last_used_ms && now_ms - idle[i].last_used_ms > max_idle_ms {
        1 + evicted_count(idle, now_ms, max_idle_ms, min_idle, i + 1)
    } else {
        0
    }
}

/// An idle connection last used at a time after `now_ms` (the clock went
/// back) is not expired; otherwise it is when idle for more than
/// `max_idle_ms`.
pub open spec fn expired(e: IdleEntry, now_ms: u64, max_idle_ms: u64) -> bool {
    now_ms >= e.last_used_ms && now_ms - e.last_used_ms > max_idle_ms
}

/// Eviction takes expired entries only, and never goes below `min_idle`.
proof fn lemma_evicted_count(idle: Seq<IdleEntry>, now_ms: u64, max_idle_ms: u64, min_idle: usize, i: int)
    requires
        0 <= i <= idle.len(),
    ensures
        0 <= evicted_count(idle, now_ms, max_idle_ms, min_idle, i),
        idle.len() - i > min_idle ==> i + evicted_count(idle, now_ms, max_idle_ms, min_idle, i) <= idle.len() - min_idle,
        idle.len() - i <= min_idle ==> evicted_count(idle, now_ms, max_idle_ms, min_idle, i) == 0,
        forall|k: int| i <= k < i + evicted_count(idle, now_ms, max_idle_ms, min_idle, i) ==> expired(#[trigger] idle[k], now_ms, max_idle_ms),
    decreases idle.len() - i,
{
    if i < idle.len() && idle.len() - i > min_idle && expired(idle[i], now_ms, max_idle_ms) {
        lemma_evicted_count(idle, now_ms, max_idle_ms, min_idle, i + 1);
        assert forall|k: int| i <= k < i + evicted_count(idle, now_ms, max_idle_ms, min_idle, i) implies expired(#[trigger] idle[k], now_ms, max_idle_ms) by {
            if k > i {
                assert(i + 1 <= k < i + 1 + evicted_count(idle, now_ms, max_idle_ms, min_idle, i + 1));
            }
        }
    }
}

impl View for PoolState {
    type V = PoolView;

    closed spec fn view(&self) -> PoolView {
        PoolView { idle: self.idle@, active: self.active_count, closed: self.closed, next_id: self.next_id }
    }
}

impl PoolState {
    /// An open pool with nothing idle or lent, numbering connections from 1.
    pub fn new() -> (r: Self)
        ensures
            r@.idle.len() == 0,
            r@.active == 0,
            !r@.closed,
            r@.next_id == 1,
    {
        PoolState { idle: Vec::new(), active_count: 0, closed: false, next_id: 1 }
    }

    /// Takes an identifier for a connection about to be opened (numbers wrap
    /// at `u64::MAX`).
    pub fn take_id(&mut self) -> (r: u64)
        ensures
            r == old(self)@.next_id,
            final(self)@ == (PoolView { next_id: old(self)@.next_id.wrapping_add(1), ..old(self)@ }),
    {
        let id = self.next_id;
        self.next_id = self.next_id.wrapping_add(1);
        id
    }

    /// Keeps a newly opened connection as idle, last used at `now_ms`.
    pub fn add_idle(&mut self, id: u64, now_ms: u64)
        ensures
            final(self)@ == (PoolView { idle: old(self)@.idle.push(IdleEntry { id, last_used_ms: now_ms }), ..old(self)@ }),
    {
        self.idle.push(IdleEntry { id, last_used_ms: now_ms });
    }

    /// Lends a connection: the oldest idle one if there is one, else a new
    /// identifier; either way one more connection is lent.
    pub fn lend(&mut self) -> (r: Lend)
        requires
            old(self)@.active < usize::MAX,
        ensures
            final(self)@.active == old(self)@.active + 1,
            final(self)@.closed == old(self)@.closed,
            old(self)@.idle.len() > 0 ==> r == Lend::Reuse(old(self)@.idle[0].id)
                && final(self)@.idle == old(self)@.idle.drop_first()
                && final(self)@.next_id == old(self)@.next_id,
            old(self)@.idle.len() == 0 ==> r == Lend::Open(old(self)@.next_id)
                && final(self)@.idle == old(self)@.idle
                && final(self)@.next_id == old(self)@.next_id.wrapping_add(1),
    {
        self.active_count = self.active_count + 1;
        if self.idle.len() > 0 {
            let e = self.idle.remove(0);
            assert(self.idle@ =~= old(self).idle@.drop_first());
            Lend::Reuse(e.id)
        } else {
            let id = self.take_id();
            Lend::Open(id)
        }
    }

    /// Takes back lent connection `id` at `now_ms`: one fewer is lent; an
    /// open pool keeps it as idle and answers `true`, a closed pool answers
    /// `false` so that it is closed.
    pub fn give_back(&mut self, id: u64, now_ms: u64) -> (r: bool)
        ensures
            r == !old(self)@.closed,
            final(self)@.active == old(self)@.active.saturating_sub(1),
            final(self)@.closed == old(self)@.closed,
            final(self)@.next_id == old(self)@.next_id,
            final(self)@.idle == if r {
                old(self)@.idle.push(IdleEntry { id, last_used_ms: now_ms })
            } else {
                old(self)@.idle
            },
    {
        self.active_count = self.active_count.saturating_sub(1);
        if !self.closed {
            self.idle.push(IdleEntry { id, last_used_ms: now_ms });
            true
        } else {
            false
        }
    }

    /// Removes, from the front, the idle connections idle for more than
    /// `max_idle_ms` at `now_ms`, keeping at least `min_idle`; returns their
    /// identifiers in order.
    pub fn evict(&mut self, now_ms: u64, max_idle_ms: u64, min_idle: usize) -> (r: Vec<u64>)
        ensures
            r@.len() == evicted_count(old(self)@.idle, now_ms, max_idle_ms, min_idle, 0),
            forall|k: int| 0 <= k < r@.len() ==> #[trigger] r@[k] == old(self)@.idle[k].id,
            forall|k: int| 0 <= k < r@.len() ==> expired(#[trigger] old(self)@.idle[k], now_ms, max_idle_ms),
            old(self)@.idle.len() >= min_idle ==> final(self)@.idle.len() >= min_idle,
            old(self)@.idle.len() < min_idle ==> final(self)@.idle == old(self)@.idle,
            final(self)@.idle == old(self)@.idle.skip(r@.len() as int),
            final(self)@.active == old(self)@.active,
            final(self)@.closed == old(self)@.closed,
            final(self)@.next_id == old(self)@.next_id,
    {
        let mut out: Vec<u64> = Vec::new();
        let ghost start = self.idle@;
        proof { lemma_evicted_count(start, now_ms, max_idle_ms, min_idle, 0); }
        while self.idle.len() > min_idle
            invariant
                out@.len() <= start.len(),
                self.idle@ == start.skip(out@.len() as int),
                forall|k: int| 0 <= k < out@.len() ==> #[trigger] out@[k] == start[k].id,
                evicted_count(start, now_ms, max_idle_ms, min_idle, 0)
                    == out@.len() + evicted_count(start, now_ms, max_idle_ms, min_idle, out@.len() as int),
                self.active_count == old(self).active_count,
                self.closed == old(self).closed,
                self.next_id == old(self).next_id,
            ensures
                out@.len() <= start.len(),
                self.idle@ == start.skip(out@.len() as int),
                forall|k: int| 0 <= k < out@.len() ==> #[trigger] out@[k] == start[k].id,
                evicted_count(start, now_ms, max_idle_ms, min_idle, 0) == out@.len(),
                self.active_count == old(self).active_count,
                self.closed == old(self).closed,
                self.next_id == old(self).next_id,
            decreases self.idle@.len(),
        {
            let front = self.idle[0];
            let i = out.len();
            assert(start[i as int] == front);
            if now_ms >= front.last_used_ms && now_ms - front.last_used_ms > max_idle_ms {
                self.idle.remove(0);
                out.push(front.id);
                assert(self.idle@ =~= start.skip(out@.len() as int));
            } else {
                break;
            }
        }
        proof {
            assert(start.skip(out@.len() as int).len() == start.len() - out@.len());
        }
        out
    }

    /// Closes the pool: later returns are closed, and every idle connection
    /// leaves now; returns their identifiers in order.
    pub fn close(&mut self) -> (r: Vec<u64>)
        ensures
            final(self)@.closed,
            final(self)@.idle.len() == 0,
            final(self)@.active == old(self)@.active,
            final(self)@.next_id == old(self)@.next_id,
            r@.len() == old(self)@.idle.len(),
            forall|k: int| 0 <= k < r@.len() ==> #[trigger] r@[k] == old(self)@.idle[k].id,
    {
        self.closed = true;
        let mut out: Vec<u64> = Vec::new();
        let mut i: usize = 0;
        while i < self.idle.len()
            invariant
                i <= self.idle@.len(),
                self.idle@ == old(self).idle@,
                out@.len() == i,
                forall|k: int| 0 <= k < i ==> #[trigger] out@[k] == self.idle@[k].id,
            decreases self.idle@.len() - i,
        {
            out.push(self.idle[i].id);
            i = i + 1;
        }
        self.idle.clear();
        out
    }

    pub fn active_count(&self) -> (r: usize)
        ensures
            r == self@.active,
    {
        self.active_count
    }

    pub fn idle_count(&self) -> (r: usize)
        ensures
            r == self@.idle.len(),
    {
        self.idle.len()
    }

    pub fn is_closed(&self) -> (r: bool)
        ensures
            r == self@.closed,
    {
        self.closed
    }

    /// The identifiers of the idle connections, oldest first.
    pub fn idle_ids(&self) -> (r: Vec<u64>)
        ensures
            r@.len() == self@.idle.len(),
            forall|k: int| 0 <= k < r@.len() ==> #[trigger] r@[k] == self@.idle[k].id,
    {
        let mut out: Vec<u64> = Vec::new();
        let mut i: usize = 0;
        while i < self.idle.len()
            invariant
                i <= self.idle@.len(),
                out@.len() == i,
                forall|k: int| 0 <= k < i ==> #[trigger] out@[k] == self.idle@[k].id,
            decreases self.idle@.len() - i,
        {
            out.push(self.idle[i].id);
            i = i + 1;
        }
        out
    }
}

/// Lending and giving back leave the number of lent connections as it was,
/// and an open pool has the connection idle again.
pub proof fn lemma_lend_then_give_back(before: PoolView, lent: PoolView, after: PoolView, id: u64, now_ms: u64)
    requires
        before.active < usize::MAX,
        lent.active == before.active + 1,
        lent.closed == before.closed,
        after.active == lent.active.saturating_sub(1),
        after.closed == lent.closed,
        after.idle == if !lent.closed { lent.idle.push(IdleEntry { id, last_used_ms: now_ms }) } else { lent.idle },
    ensures
        after.active == before.active,
        !before.closed ==> after.idle.last() == (IdleEntry { id, last_used_ms: now_ms }),
{
}

} // verus!
