//! The SQL firewall: rules, the checker, and a caching provider.
pub mod config;
pub mod checker;
pub mod provider;

use vstd::prelude::*;
use crate::base::error::DruidError;
use crate::filter::{ContextView, Filter, FilterContext};
use crate::text::{chars_of, string_of};
use crate::wall::checker::WallChecker;
use crate::wall::config::WallConfig;
use crate::wall::provider::{provider_verdict, WallProvider};

verus! {

/// How many answers the filter's provider keeps.
pub const WALL_CACHE_SIZE: usize = 512;

/// The length in bytes of the UTF-8 form of `s`, as `str::len` gives it.
pub open spec fn utf8_len(s: Seq<char>) -> nat {
    (vstd::utf8::encode_utf8(s).len() as usize) as nat
}

/// The firewall as an interceptor: each statement is checked before it runs.
pub struct WallFilter {
    provider: WallProvider,
}

/// Rules that deny nothing, for a provider that only holds a place.
fn no_rules() -> (r: WallConfig) {
    WallConfig {
        name: String::new(),
        enabled: false,
        deny_operations: Vec::new(),
        deny_functions: Vec::new(),
        deny_schemas: Vec::new(),
        max_sql_length: 0,
        allow_multi_statements: true,
        deny_keywords: Vec::new(),
        update_delete_require_where: false,
        select_into_outfile_allow: true,
    }
}

impl WallFilter {
    /// The rules the filter applies.
    pub closed spec fn rules(&self) -> WallConfig {
        self.provider.rules()
    }

    /// How many answers came from the provider's cache.
    pub closed spec fn hits(&self) -> u64 {
        self.provider.hits()
    }

    /// How many texts were checked.
    pub closed spec fn checks(&self) -> u64 {
        self.provider.checks()
    }

    /// The provider's answers are those of its rules.
    #[verifier::type_invariant]
    closed spec fn provider_sound(&self) -> bool {
        self.provider.wf()
    }

    pub fn new(config: WallConfig) -> (r: Self)
        ensures
            r.rules() == config,
            r.hits() == 0,
            r.checks() == 0,
    {
        let checker = WallChecker::new(config);
        WallFilter { provider: WallProvider::new(checker, WALL_CACHE_SIZE) }
    }

    /// How many answers came from the cache, and how many texts were
    /// checked.
    pub fn cache_counts(&self) -> (r: (u64, u64))
        ensures
            r == (self.hits(), self.checks()),
    {
        self.provider.counts()
    }
}

impl Filter for WallFilter {
    open spec fn spec_name(&self) -> &'static str {
        "wall"
    }

    /// A statement runs unless the rules deny its text.
    open spec fn admits(&self, ctx: ContextView) -> bool {
        match ctx.sql {
            Some(s) => provider_verdict(self.rules(), utf8_len(s), s) is None,
            None => true,
        }
    }

    /// A refusal is a firewall error with the firewall's message.
    open spec fn refuses_with(&self, ctx: ContextView, e: DruidError) -> bool {
        match ctx.sql {
            Some(s) => match provider_verdict(self.rules(), utf8_len(s), s) {
                Some(m) => e matches DruidError::Wall(w) && w@ == m,
                None => false,
            },
            None => false,
        }
    }

    /// Starting it always succeeds.
    open spec fn starts(&self) -> bool {
        true
    }

    open spec fn fails_with(&self, e: DruidError) -> bool {
        false
    }

    fn name(&self) -> (r: &'static str)
        ensures
            r@ == "wall"@,
    {
        "wall"
    }

    fn init(&mut self) -> (r: Result<(), DruidError>)
        ensures
            r is Ok,
            *final(self) == *old(self),
    {
        Ok(())
    }

    /// Refuses SQL that the rules deny, with the firewall's message.
    fn statement_execute_before(&mut self, ctx: &FilterContext) -> (r: Result<(), DruidError>)
        ensures
            final(self).rules() == old(self).rules(),
            ctx.sql is None ==> r is Ok && final(self).checks() == old(self).checks(),
            ctx.sql matches Some(s) ==> {
                &&& final(self).checks() == old(self).checks().wrapping_add(1)
                &&& match provider_verdict(old(self).rules(), utf8_len(s@), s@) {
                    None => r is Ok,
                    Some(m) => r matches Err(DruidError::Wall(w)) && w@ == m,
                }
            },
    {
        proof { use_type_invariant(&*self); }
        match &ctx.sql {
            Some(sql) => {
                let mut p = WallProvider::new(WallChecker::new(no_rules()), 0);
                std::mem::swap(&mut p, &mut self.provider);
                let text = sql.as_str();
                assert(text@ == sql@);
                assert(text.len() as nat == utf8_len(sql@));
                let result = p.check(text);
                std::mem::swap(&mut p, &mut self.provider);
                if !result.allowed {
                    let msg = if result.violations.len() > 0 {
                        string_of(&chars_of(result.violations[0].message.as_str()))
                    } else {
                        string_of(&chars_of("SQL denied"))
                    };
                    return Err(DruidError::Wall(msg));
                }
                Ok(())
            },
            None => Ok(()),
        }
    }
}

} // verus!
