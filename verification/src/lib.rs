//! Connection-pool companion tools: SQL lexing, parsing, formatting and
//! firewall checks, statistics, and the bookkeeping of a pooled data source.
pub mod text;
pub mod base;
pub mod sql;
pub mod wall;
pub mod util;
pub mod filter;
pub mod stat;
pub mod pool;
pub mod proxy;
pub mod ha;
pub mod console;
