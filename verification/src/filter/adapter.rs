//! An interceptor that does nothing but carry a name.
use vstd::prelude::*;
use crate::base::error::DruidError;
use crate::filter::{ContextView, Filter, FilterContext};

verus! {

/// An interceptor whose hooks all do nothing.
pub struct FilterAdapter {
    name: &'static str,
}

impl FilterAdapter {
    pub fn new(name: &'static str) -> (r: Self)
        ensures
            r.spec_name() == name,
    {
        FilterAdapter { name }
    }
}

impl Filter for FilterAdapter {
    /// The name it was made with.
    closed spec fn spec_name(&self) -> &'static str {
        self.name
    }

    /// It lets every statement run.
    open spec fn admits(&self, ctx: ContextView) -> bool {
        true
    }

    open spec fn refuses_with(&self, ctx: ContextView, e: DruidError) -> bool {
        false
    }

    /// Starting it always succeeds.
    open spec fn starts(&self) -> bool {
        true
    }

    open spec fn fails_with(&self, e: DruidError) -> bool {
        false
    }

    fn init(&mut self) -> (r: Result<(), DruidError>) {
        Ok(())
    }

    fn statement_execute_before(&mut self, ctx: &FilterContext) -> (r: Result<(), DruidError>) {
        Ok(())
    }

    fn name(&self) -> (r: &'static str)
        ensures
            r@ == self.spec_name()@,
    {
        self.name
    }
}

} // verus!
