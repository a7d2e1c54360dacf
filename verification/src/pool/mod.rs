//! The pool's own bookkeeping: cached statements and connection state.
pub mod pscache;
pub mod state;
