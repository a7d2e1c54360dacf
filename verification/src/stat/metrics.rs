//! Counters of a pool's connections.
use vstd::prelude::*;

verus! {

/// The values of the counters of a [`PoolMetrics`].
pub struct MetricsView {
    pub active: u64,
    pub idle: u64,
    pub waiting: u64,
    pub borrows: u64,
    pub creates: u64,
    pub destroys: u64,
    pub wait_ns: u64,
}

/// Counters of a pool: connections lent out and idle, callers waiting, and
/// running totals of loans, creations, closings and time spent waiting.
/// The running counters wrap at `u64::MAX`, as atomic additions do.
pub struct PoolMetrics {
    active_count: u64,
    idle_count: u64,
    waiting_count: u64,
    borrow_count: u64,
    create_count: u64,
    destroy_count: u64,
    total_wait_ns: u64,
}

impl View for PoolMetrics {
    type V = MetricsView;

    closed spec fn view(&self) -> MetricsView {
        MetricsView {
            active: self.active_count,
            idle: self.idle_count,
            waiting: self.waiting_count,
            borrows: self.borrow_count,
            creates: self.create_count,
            destroys: self.destroy_count,
            wait_ns: self.total_wait_ns,
        }
    }
}

impl PoolMetrics {
    /// All counters at zero.
    pub fn new() -> (r: Self)
        ensures
            r@ == (MetricsView { active: 0, idle: 0, waiting: 0, borrows: 0, creates: 0, destroys: 0, wait_ns: 0 }),
    {
        PoolMetrics {
            active_count: 0,
            idle_count: 0,
            waiting_count: 0,
            borrow_count: 0,
            create_count: 0,
            destroy_count: 0,
            total_wait_ns: 0,
        }
    }

    pub fn set_active(&mut self, n: usize)
        ensures
            final(self)@ == (MetricsView { active: n as u64, ..old(self)@ }),
    {
        self.active_count = n as u64;
    }

    pub fn set_idle(&mut self, n: usize)
        ensures
            final(self)@ == (MetricsView { idle: n as u64, ..old(self)@ }),
    {
        self.idle_count = n as u64;
    }

    pub fn inc_waiting(&mut self)
        ensures
            final(self)@ == (MetricsView { waiting: old(self)@.waiting.wrapping_add(1), ..old(self)@ }),
    {
        self.waiting_count = self.waiting_count.wrapping_add(1);
    }

    pub fn dec_waiting(&mut self)
        ensures
            final(self)@ == (MetricsView { waiting: old(self)@.waiting.wrapping_sub(1), ..old(self)@ }),
    {
        self.waiting_count = self.waiting_count.wrapping_sub(1);
    }

    pub fn inc_borrow(&mut self)
        ensures
            final(self)@ == (MetricsView { borrows: old(self)@.borrows.wrapping_add(1), ..old(self)@ }),
    {
        self.borrow_count = self.borrow_count.wrapping_add(1);
    }

    pub fn inc_create(&mut self)
        ensures
            final(self)@ == (MetricsView { creates: old(self)@.creates.wrapping_add(1), ..old(self)@ }),
    {
        self.create_count = self.create_count.wrapping_add(1);
    }

    pub fn inc_destroy(&mut self)
        ensures
            final(self)@ == (MetricsView { destroys: old(self)@.destroys.wrapping_add(1), ..old(self)@ }),
    {
        self.destroy_count = self.destroy_count.wrapping_add(1);
    }

    pub fn add_wait_time_ns(&mut self, ns: u64)
        ensures
            final(self)@ == (MetricsView { wait_ns: old(self)@.wait_ns.wrapping_add(ns), ..old(self)@ }),
    {
        self.total_wait_ns = self.total_wait_ns.wrapping_add(ns);
    }

    pub fn active(&self) -> (r: u64)
        ensures
            r == self@.active,
    {
        self.active_count
    }

    pub fn idle(&self) -> (r: u64)
        ensures
            r == self@.idle,
    {
        self.idle_count
    }

    pub fn waiting(&self) -> (r: u64)
        ensures
            r == self@.waiting,
    {
        self.waiting_count
    }

    pub fn borrow_count(&self) -> (r: u64)
        ensures
            r == self@.borrows,
    {
        self.borrow_count
    }

    pub fn create_count(&self) -> (r: u64)
        ensures
            r == self@.creates,
    {
        self.create_count
    }

    pub fn destroy_count(&self) -> (r: u64)
        ensures
            r == self@.destroys,
    {
        self.destroy_count
    }

    /// The time spent waiting for connections, in nanoseconds.
    pub fn total_wait_ns(&self) -> (r: u64)
        ensures
            r == self@.wait_ns,
    {
        self.total_wait_ns
    }
}

} // verus!
