//! A firewall front that remembers its answers per SQL text.
use vstd::prelude::*;
use crate::sql::ast::SpecStatement;
use crate::sql::grammar::MAX_SCRIPT_ROUNDS;
use crate::sql::lexer::spec_tokenize;
use crate::sql::grammar::g_script;
use crate::sql::parser::{parse_sql, stmts_v};
use crate::text::{chars_of, same_text, string_of};
use crate::wall::checker::{check_verdict, quick_verdict, result_is, WallCheckResult, WallChecker};
use crate::wall::config::WallConfig;
use crate::wall::checker::multi_check_result;

verus! {

/// The first statement from `i` that the checker denies, and its message.
pub open spec fn first_denied(c: WallConfig, len: nat, sql: Seq<char>, ss: Seq<SpecStatement>, i: int) -> Option<
    Seq<char>,
>
    decreases ss.len() - i,
{
    if i < 0 || i >= ss.len() {
        None
    } else {
        match check_verdict(c, len, sql, ss[i]) {
            Some(m) => Some(m),
            None => first_denied(c, len, sql, ss, i + 1),
        }
    }
}

/// What the provider answers for SQL text `sql`, `len` bytes long: the text
/// check first, then the number of statements, then each statement that
/// parses, in order.
#[verifier::opaque]
pub open spec fn provider_verdict(c: WallConfig, len: nat, sql: Seq<char>) -> Option<Seq<char>> {
    match quick_verdict(c, len, sql) {
        Some(m) => Some(m),
        None => match g_script(spec_tokenize(sql), 0, MAX_SCRIPT_ROUNDS as nat) {
            Ok(ss) => match multi_check_result(c, ss.len()) {
                Some(m) => Some(m),
                None => first_denied(c, len, sql, ss, 0),
            },
            Err(()) => None,
        },
    }
}

/// The kept texts once a full cache has dropped its least recently used
/// half: all of `k` when fewer than `cap` are kept, else all but the first
/// `cap / 2`.
pub open spec fn evicted(k: Seq<(Seq<char>, nat)>, cap: nat) -> Seq<(Seq<char>, nat)> {
    if k.len() >= cap {
        k.subrange((cap / 2) as int, k.len() as int)
    } else {
        k
    }
}

/// One remembered answer: the SQL text, its length in bytes, the answer.
pub struct CacheEntry {
    sql: String,
    len: usize,
    result: WallCheckResult,
}

/// A firewall front that remembers its answers per SQL text.
pub struct WallProvider {
    checker: WallChecker,
    cache: Vec<CacheEntry>,
    pub hit_count: u64,
    pub check_count: u64,
    max_cache_size: usize,
}

impl WallProvider {
    /// The rules this provider applies.
    pub closed spec fn rules(&self) -> WallConfig {
        self.checker.rules()
    }

    /// The most answers it keeps, when at least 2.
    pub closed spec fn capacity(&self) -> usize {
        self.max_cache_size
    }

    /// How many answers came from the cache.
    pub closed spec fn hits(&self) -> u64 {
        self.hit_count
    }

    /// How many texts were checked.
    pub closed spec fn checks(&self) -> u64 {
        self.check_count
    }

    /// The number of answers kept.
    pub closed spec fn cached_len(&self) -> nat {
        self.cache@.len()
    }

    /// The texts whose answers are kept, each with its length in bytes, from
    /// the least recently used to the most recently used.
    pub closed spec fn keys(&self) -> Seq<(Seq<char>, nat)> {
        Seq::new(self.cache@.len(), |i: int| (self.cache@[i].sql@, self.cache@[i].len as nat))
    }

    /// Whether an answer for this text is kept.
    pub closed spec fn is_cached(&self, sql: Seq<char>, len: nat) -> bool {
        exists|i: int| 0 <= i < self.cache@.len() && self.cache@[i].sql@ == sql && self.cache@[i].len == len
    }

    /// Every kept answer is the one the rules give, and the cache keeps to
    /// its bound when that is at least 2.
    pub closed spec fn wf(&self) -> bool {
        &&& forall|i: int|
            0 <= i < self.cache@.len() ==> result_is(
                #[trigger] self.cache@[i].result,
                provider_verdict(self.checker.rules(), self.cache@[i].len as nat, self.cache@[i].sql@),
            )
        &&& self.max_cache_size >= 2 ==> self.cache@.len() <= self.max_cache_size
    }

    pub fn new(checker: WallChecker, max_cache_size: usize) -> (r: Self)
        ensures
            r.wf(),
            r.rules() == checker.rules(),
            r.capacity() == max_cache_size,
            r.cached_len() == 0,
            r.keys() == Seq::<(Seq<char>, nat)>::empty(),
            r.hits() == 0,
            r.checks() == 0,
    {
        let r = WallProvider { checker, cache: Vec::new(), hit_count: 0, check_count: 0, max_cache_size };
        assert(r.keys() =~= Seq::<(Seq<char>, nat)>::empty());
        r
    }

    /// How many answers came from the cache, and how many texts were
    /// checked.
    pub fn counts(&self) -> (r: (u64, u64))
        ensures
            r == (self.hits(), self.checks()),
    {
        (self.hit_count, self.check_count)
    }

    /// The number of answers kept, which is within the cache's room when
    /// that is at least 2.
    pub fn cache_size(&self) -> (r: usize)
        requires
            self.wf(),
        ensures
            r == self.cached_len(),
            self.capacity() >= 2 ==> r <= self.capacity(),
    {
        self.cache.len()
    }

    /// Forgets every kept answer.
    pub fn clear_cache(&mut self)
        requires
            old(self).wf(),
        ensures
            final(self).wf(),
            final(self).cached_len() == 0,
            final(self).keys() == Seq::<(Seq<char>, nat)>::empty(),
            forall|t: Seq<char>, n: nat| !final(self).is_cached(t, n),
            final(self).rules() == old(self).rules(),
            final(self).capacity() == old(self).capacity(),
            final(self).hits() == old(self).hits(),
            final(self).checks() == old(self).checks(),
    {
        self.cache.clear();
        assert(self.keys() =~= Seq::<(Seq<char>, nat)>::empty());
    }

    fn lookup(&self, sql: &str) -> (r: Option<usize>)
        requires
            self.wf(),
        ensures
            r is Some == self.is_cached(sql@, sql.len() as nat),
            r matches Some(i) ==> i < self.keys().len() && self.keys()[i as int] == (sql@, sql.len() as nat),
    {
        let mut i: usize = 0;
        while i < self.cache.len()
            invariant
                i <= self.cache@.len(),
                self.wf(),
                forall|k: int| 0 <= k < i ==> !(self.cache@[k].sql@ == sql@ && self.cache@[k].len == sql.len()),
            decreases self.cache.len() - i,
        {
            if self.cache[i].len == sql.len() && same_text(self.cache[i].sql.as_str(), sql) {
                assert(self.is_cached(sql@, sql.len() as nat));
                return Some(i);
            }
            i = i + 1;
        }
        None
    }

    /// Answers from the kept answer at `i` and makes it the most recently
    /// used.
    fn take_hit(&mut self, i: usize, Ghost(sql): Ghost<Seq<char>>, Ghost(len): Ghost<nat>) -> (r: WallCheckResult)
        requires
            old(self).wf(),
            i < old(self).keys().len(),
            old(self).keys()[i as int] == (sql, len),
        ensures
            final(self).wf(),
            result_is(r, provider_verdict(old(self).rules(), len, sql)),
            final(self).keys() == old(self).keys().remove(i as int).push((sql, len)),
            final(self).rules() == old(self).rules(),
            final(self).capacity() == old(self).capacity(),
            final(self).hits() == old(self).hits(),
            final(self).checks() == old(self).checks(),
    {
        let ghost oc = self.cache@;
        let x = self.cache[i].result.duplicate();
        assert(result_is(oc[i as int].result, provider_verdict(self.rules(), len, sql)));
        let e = self.cache.remove(i);
        self.cache.push(e);
        assert(self.cache@ =~= oc.remove(i as int).push(oc[i as int]));
        assert forall|k: int| 0 <= k < self.cache@.len() implies result_is(
            #[trigger] self.cache@[k].result,
            provider_verdict(self.checker.rules(), self.cache@[k].len as nat, self.cache@[k].sql@),
        ) by {
            if k < i {
                assert(self.cache@[k] == oc[k]);
            } else if k < oc.len() - 1 {
                assert(self.cache@[k] == oc[k + 1]);
            } else {
                assert(self.cache@[k] == oc[i as int]);
            }
        }
        assert(self.keys() =~= old(self).keys().remove(i as int).push((sql, len)));
        x
    }

    /// Keeps an answer as the most recently used, first dropping the least
    /// recently used half of the kept answers when the cache is full.
    fn cache_insert(&mut self, sql: &str, result: WallCheckResult)
        requires
            old(self).wf(),
            result_is(result, provider_verdict(old(self).rules(), sql.len() as nat, sql@)),
        ensures
            final(self).wf(),
            final(self).is_cached(sql@, sql.len() as nat),
            final(self).keys() == evicted(old(self).keys(), old(self).capacity() as nat).push((sql@, sql.len() as nat)),
            final(self).rules() == old(self).rules(),
            final(self).capacity() == old(self).capacity(),
            final(self).hits() == old(self).hits(),
            final(self).checks() == old(self).checks(),
    {
        let ghost ok = self.keys();
        if self.cache.len() >= self.max_cache_size {
            let drop = self.max_cache_size / 2;
            let mut kept: Vec<CacheEntry> = Vec::new();
            let mut old_cache: Vec<CacheEntry> = Vec::new();
            std::mem::swap(&mut old_cache, &mut self.cache);
            let ghost oc = old_cache@;
            let mut i: usize = 0;
            let n = old_cache.len();
            while old_cache.len() > 0
                invariant
                    oc.len() == n,
                    i + old_cache@.len() == n,
                    old_cache@ == oc.subrange(i as int, n as int),
                    forall|k: int|
                        0 <= k < kept@.len() ==> result_is(
                            #[trigger] kept@[k].result,
                            provider_verdict(self.checker.rules(), kept@[k].len as nat, kept@[k].sql@),
                        ),
                    forall|k: int|
                        0 <= k < oc.len() ==> result_is(
                            #[trigger] oc[k].result,
                            provider_verdict(self.checker.rules(), oc[k].len as nat, oc[k].sql@),
                        ),
                    kept@ == if i <= drop { Seq::<CacheEntry>::empty() } else { oc.subrange(drop as int, i as int) },
                decreases old_cache@.len(),
            {
                let e = old_cache.remove(0);
                if i >= drop {
                    kept.push(e);
                    assert(kept@ =~= oc.subrange(drop as int, i + 1));
                }
                i = i + 1;
            }
            self.cache = kept;
            assert(self.keys() =~= ok.subrange(drop as int, ok.len() as int));
        }
        let ghost before = self.cache@;
        self.cache.push(CacheEntry { sql: string_of(&chars_of(sql)), len: sql.len(), result });
        assert(self.cache@[before.len() as int].sql@ == sql@ && self.cache@[before.len() as int].len == sql.len());
        assert(self.keys() =~= evicted(ok, self.max_cache_size as nat).push((sql@, sql.len() as nat)));
    }

    /// Answers for SQL text: a kept answer when there is one, else the text
    /// check and then each parsed statement's check, in order; the answer is
    /// kept.
    pub fn check(&mut self, sql: &str) -> (r: WallCheckResult)
        requires
            old(self).wf(),
        ensures
            final(self).wf(),
            result_is(r, provider_verdict(old(self).rules(), sql.len() as nat, sql@)),
            final(self).is_cached(sql@, sql.len() as nat),
            old(self).is_cached(sql@, sql.len() as nat) ==> final(self).cached_len() == old(self).cached_len(),
            old(self).is_cached(sql@, sql.len() as nat) ==> exists|i: int|
                0 <= i < old(self).keys().len() && old(self).keys()[i] == (sql@, sql.len() as nat)
                    && final(self).keys() == old(self).keys().remove(i).push((sql@, sql.len() as nat)),
            !old(self).is_cached(sql@, sql.len() as nat) ==> final(self).keys() == evicted(
                old(self).keys(),
                old(self).capacity() as nat,
            ).push((sql@, sql.len() as nat)),
            final(self).capacity() >= 2 ==> final(self).cached_len() <= final(self).capacity(),
            final(self).rules() == old(self).rules(),
            final(self).capacity() == old(self).capacity(),
            final(self).checks() == old(self).checks().wrapping_add(1),
            old(self).hits() <= old(self).checks() < u64::MAX ==> final(self).hits() <= final(self).checks(),
            final(self).hits() == if old(self).is_cached(sql@, sql.len() as nat) {
                old(self).hits().wrapping_add(1)
            } else {
                old(self).hits()
            },
    {
        proof {
            reveal(provider_verdict);
        }
        self.check_count = self.check_count.wrapping_add(1);
        match self.lookup(sql) {
            Some(i) => {
                let r = self.take_hit(i, Ghost(sql@), Ghost(sql.len() as nat));
                self.hit_count = self.hit_count.wrapping_add(1);
                proof {
                    let last = self.cache@.len() - 1;
                    assert(self.keys().len() == self.cache@.len());
                    assert(old(self).keys().len() == old(self).cache@.len());
                    assert(self.keys()[last] == (sql@, sql.len() as nat));
                    assert(self.cache@[last].sql@ == sql@ && self.cache@[last].len == sql.len());
                }
                return r;
            },
            None => {},
        }
        let r = self.checker.quick_check(sql);
        if !r.allowed {
            let kept = r.duplicate();
            self.cache_insert(sql, kept);
            return r;
        }
        let ghost c = self.rules();
        match parse_sql(sql) {
            Ok(stmts) => {
                let ghost ss = stmts_v(stmts@);
                assert(ss.len() == stmts@.len());
                match self.checker.check_statement_count(stmts.len()) {
                    Some(x) => {
                        let kept = x.duplicate();
                        self.cache_insert(sql, kept);
                        return x;
                    },
                    None => {},
                }
                let mut k: usize = 0;
                while k < stmts.len()
                    invariant
                        k <= stmts@.len(),
                        ss == stmts_v(stmts@),
                        c == self.rules(),
                        c == old(self).rules(),
                        self.wf(),
                        provider_verdict(c, sql.len() as nat, sql@) == first_denied(c, sql.len() as nat, sql@, ss, k as int),
                        self.checks() == old(self).checks().wrapping_add(1),
                        self.hits() == old(self).hits(),
                        self.capacity() == old(self).capacity(),
                        !old(self).is_cached(sql@, sql.len() as nat),
                        self.keys() == old(self).keys(),
                    decreases stmts.len() - k,
                {
                    let x = self.checker.check(sql, &stmts[k]);
                    if !x.allowed {
                        let kept = x.duplicate();
                        self.cache_insert(sql, kept);
                        return x;
                    }
                    k = k + 1;
                }
            },
            Err(_) => {},
        }
        let pass = WallCheckResult::pass();
        let kept = WallCheckResult::pass();
        self.cache_insert(sql, kept);
        pass
    }
}

} // verus!
