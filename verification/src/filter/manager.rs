//! Building interceptor chains and starting and stopping interceptors.
use vstd::prelude::*;
use crate::base::error::DruidError;
use crate::filter::chain::{lemma_remove_insert, lemma_update_at, FilterChain};
use crate::filter::Filter;

verus! {

/// Builds chains of interceptors.
pub struct FilterManager;

/// The interceptor at `j` is the first of `fs` that fails to start.
pub open spec fn first_failing(fs: Seq<Box<dyn Filter>>, j: int) -> bool {
    &&& 0 <= j < fs.len()
    &&& !fs[j].starts()
    &&& forall|i: int| 0 <= i < j ==> #[trigger] fs[i].starts()
}

impl FilterManager {
    /// A chain for a data source holding `filters`, in order.
    pub fn create_chain(data_source_name: &str, filters: Vec<Box<dyn Filter>>) -> (r: FilterChain)
        ensures
            r.members() == filters@,
            r.source() == data_source_name@,
            r.events().len() == 0,
    {
        FilterChain::with_members(data_source_name, filters)
    }

    /// Starts each interceptor in order; stops at the first that fails and
    /// returns its error, leaving the interceptors after it unstarted.
    pub fn init_filters(filters: &mut Vec<Box<dyn Filter>>) -> (r: Result<(), DruidError>)
        ensures
            final(filters)@.len() == old(filters)@.len(),
            r is Ok <==> forall|i: int| 0 <= i < old(filters)@.len() ==> #[trigger] old(filters)@[i].starts(),
            forall|j: int| #[trigger] first_failing(old(filters)@, j) ==> {
                &&& r matches Err(e) && old(filters)@[j].fails_with(e)
                &&& forall|k: int| j < k < old(filters)@.len() ==> #[trigger] final(filters)@[k] == old(filters)@[k]
            },
    {
        let n = filters.len();
        let mut i: usize = 0;
        while i < n
            invariant
                i <= n,
                n == filters@.len(),
                n == old(filters)@.len(),
                forall|k: int| 0 <= k < i ==> #[trigger] old(filters)@[k].starts(),
                forall|k: int| i <= k < n ==> #[trigger] filters@[k] == old(filters)@[k],
            decreases n - i,
        {
            let ghost before = filters@;
            let mut f = filters.remove(i);
            assert(f == old(filters)@[i as int]);
            let started = f.init();
            let ghost after = f;
            filters.insert(i, f);
            proof {
                lemma_remove_insert(before, i as int, after);
                lemma_update_at(before, i as int, after);
            }
            match started {
                Ok(()) => {},
                Err(e) => {
                    proof {
                        assert(!old(filters)@[i as int].starts());
                        assert(old(filters)@[i as int].fails_with(e));
                        assert forall|k: int| i < k < n implies #[trigger] filters@[k] == old(filters)@[k] by {
                            assert(filters@[k] == before[k]);
                        }
                        assert forall|j: int| #[trigger] first_failing(old(filters)@, j) implies j == i by {
                            if j < i {
                                assert(old(filters)@[j].starts());
                            } else if j > i {
                                assert(old(filters)@[i as int].starts());
                            }
                        }
                    }
                    return Err(e);
                },
            }
            i = i + 1;
        }
        Ok(())
    }

    /// Stops each interceptor in order.
    pub fn destroy_filters(filters: &mut Vec<Box<dyn Filter>>)
        ensures
            final(filters)@.len() == old(filters)@.len(),
    {
        let n = filters.len();
        let mut i: usize = 0;
        while i < n
            invariant
                i <= n,
                n == filters@.len(),
                n == old(filters)@.len(),
            decreases n - i,
        {
            filters[i].destroy();
            i = i + 1;
        }
    }
}

} // verus!
