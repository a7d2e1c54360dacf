//! The error type of the tools.
use vstd::prelude::*;
use crate::text::{chars_of, push_str, string_of};

verus! {

#[verifier::external_type_specification]
#[verifier::external_body]
pub struct ExIoError(std::io::Error);

/// What can go wrong in the pool and its companions.
#[derive(Debug)]
pub enum DruidError {
    /// A failure of the pool.
    Pool(String),
    /// SQL that does not parse.
    SqlParse(String),
    /// SQL that the firewall denies.
    Wall(String),
    /// A wrong setting.
    Config(String),
    /// A failure reported by the database driver.
    Database(String),
    /// A failure of input or output.
    Io(std::io::Error),
}

/// The message of an error whose text the library holds.
pub open spec fn error_message(e: DruidError) -> Option<Seq<char>> {
    match e {
        DruidError::Pool(m) => Some("pool error: "@ + m@),
        DruidError::SqlParse(m) => Some("sql parse error: "@ + m@),
        DruidError::Wall(m) => Some("wall error: "@ + m@),
        DruidError::Config(m) => Some("config error: "@ + m@),
        DruidError::Database(m) => Some("database error: "@ + m@),
        DruidError::Io(_) => None,
    }
}

/// Calls `Display::fmt` of `std::io::Error` (through `to_string`); what it
/// prints comes from the operating system and is not stated.
#[verifier::external_body]
fn io_error_text(e: &std::io::Error) -> String {
    e.to_string()
}

impl DruidError {
    /// The message of this error, as its `Display` form prints it.
    pub fn message(&self) -> (r: String)
        ensures
            error_message(*self) matches Some(m) ==> r@ == m,
            self is Io ==> r@.len() >= 10 && r@.subrange(0, 10) == "io error: "@,
    {
        let mut v: Vec<char> = Vec::new();
        match self {
            DruidError::Pool(m) => {
                push_str(&mut v, "pool error: ");
                push_str(&mut v, m.as_str());
            },
            DruidError::SqlParse(m) => {
                push_str(&mut v, "sql parse error: ");
                push_str(&mut v, m.as_str());
            },
            DruidError::Wall(m) => {
                push_str(&mut v, "wall error: ");
                push_str(&mut v, m.as_str());
            },
            DruidError::Config(m) => {
                push_str(&mut v, "config error: ");
                push_str(&mut v, m.as_str());
            },
            DruidError::Database(m) => {
                push_str(&mut v, "database error: ");
                push_str(&mut v, m.as_str());
            },
            DruidError::Io(e) => {
                push_str(&mut v, "io error: ");
                proof {
                    reveal_strlit("io error: ");
                }
                let ghost pre = v@;
                let t = io_error_text(e);
                push_str(&mut v, t.as_str());
                assert(v@.subrange(0, 10) =~= pre);
            },
        }
        string_of(&v)
    }
}

} // verus!
