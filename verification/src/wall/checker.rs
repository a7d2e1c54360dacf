//! The firewall checker: which statements and SQL texts its rules deny.
use vstd::prelude::*;
use crate::sql::ast::{
    column_v, opt_text, create_v, delete_v, expr_v, insert_v, item_v, join_v, opt_expr_v, select_v, stmt_v, table_v, texts,
    update_v, SQLExpr, SQLStatement, SelectItem, SelectStatement, SpecExpr, SpecJoin, SpecOrderBy, SpecSelectItem,
    SpecStatement, SpecTableRef, SpecCte, SpecSelect, TableReference,
};
use crate::sql::parser::{ctes_v, exprs_v, items_v, joins_v, orders_v, rows_v, sets_v, whens_v};
use crate::text::{
    ascii_alnum, chars_of, decimal_text, find_chars, first_match, is_ascii_alnum, lowercase_text, match_at, push_chars,
    push_decimal, push_str, same_text, string_of, to_lowercase, to_uppercase, trim_chars, trimmed, uppercase_text,
};
use crate::wall::config::{op_name, DenyOperation, WallConfig};

verus! {

/// One finding of the firewall.
#[derive(Debug, Clone)]
pub struct Violation {
    pub message: String,
}

impl Violation {
    pub fn new(msg: &str) -> (r: Self)
        ensures
            r.message@ == msg@,
    {
        Violation { message: string_of(&chars_of(msg)) }
    }
}

/// The answer of the firewall for one statement or text.
#[derive(Debug, Clone)]
pub struct WallCheckResult {
    pub allowed: bool,
    pub violations: Vec<Violation>,
}

/// `r` is the answer `v`: allowed with no violation when `v` is `None`,
/// denied with the one message of `v` otherwise.
pub open spec fn result_is(r: WallCheckResult, v: Option<Seq<char>>) -> bool {
    match v {
        None => r.allowed && r.violations@.len() == 0,
        Some(m) => !r.allowed && r.violations@.len() == 1 && r.violations@[0].message@ == m,
    }
}

impl WallCheckResult {
    /// An answer that allows.
    pub fn pass() -> (r: Self)
        ensures
            result_is(r, None),
    {
        WallCheckResult { allowed: true, violations: Vec::new() }
    }

    /// An answer that denies, with one message.
    pub fn deny(msg: String) -> (r: Self)
        ensures
            result_is(r, Some(msg@)),
    {
        let mut v: Vec<Violation> = Vec::new();
        v.push(Violation { message: msg });
        WallCheckResult { allowed: false, violations: v }
    }

    /// A copy of this answer.
    pub fn duplicate(&self) -> (r: Self)
        ensures
            r.allowed == self.allowed,
            r.violations@.len() == self.violations@.len(),
            forall|i: int| 0 <= i < r.violations@.len() ==> r.violations@[i].message@ == self.violations@[i].message@,
    {
        let mut v: Vec<Violation> = Vec::new();
        let mut i: usize = 0;
        while i < self.violations.len()
            invariant
                i <= self.violations@.len(),
                v@.len() == i,
                forall|k: int| 0 <= k < i ==> v@[k].message@ == self.violations@[k].message@,
            decreases self.violations.len() - i,
        {
            let m = string_of(&chars_of(self.violations[i].message.as_str()));
            v.push(Violation { message: m });
            i = i + 1;
        }
        WallCheckResult { allowed: self.allowed, violations: v }
    }
}

/// Whether `name` is one of `deny`, compared in upper case.
pub open spec fn is_denied_fn(name: Seq<char>, deny: Seq<Seq<char>>) -> bool {
    exists|i: int| 0 <= i < deny.len() && uppercase_text(deny[i]) == uppercase_text(name)
}

/// `a` if it holds a value, else `b`.
pub open spec fn first_some(a: Option<Seq<char>>, b: Option<Seq<char>>) -> Option<Seq<char>> {
    if a is Some {
        a
    } else {
        b
    }
}

/// The name of the first forbidden function in an expression, in the order
/// the checker walks it; the arguments of a call are not walked.
#[verifier::opaque]
pub open spec fn fn_hit(e: SpecExpr, d: Seq<Seq<char>>) -> Option<Seq<char>>
    decreases e,
{
    match e {
        SpecExpr::Function { name, .. } => if is_denied_fn(name, d) {
            Some(name)
        } else {
            None
        },
        SpecExpr::Aggregate { name, .. } => if is_denied_fn(name, d) {
            Some(name)
        } else {
            None
        },
        SpecExpr::BinaryOp { left, right, .. } => first_some(fn_hit(*left, d), fn_hit(*right, d)),
        SpecExpr::UnaryOp { expr, .. } => fn_hit(*expr, d),
        SpecExpr::Nested(x) => fn_hit(*x, d),
        SpecExpr::IsNull { expr, .. } => fn_hit(*expr, d),
        SpecExpr::Cast { expr, .. } => fn_hit(*expr, d),
        SpecExpr::InList { expr, list, .. } => first_some(fn_hit(*expr, d), hits(list, d)),
        SpecExpr::Between { expr, low, high, .. } => first_some(
            fn_hit(*expr, d),
            first_some(fn_hit(*low, d), fn_hit(*high, d)),
        ),
        SpecExpr::Like { expr, pattern, .. } => first_some(fn_hit(*expr, d), fn_hit(*pattern, d)),
        SpecExpr::Case { expr, whens, else_expr } => first_some(
            match expr {
                Some(x) => fn_hit(*x, d),
                None => None,
            },
            first_some(
                when_hits(whens, d),
                match else_expr {
                    Some(x) => fn_hit(*x, d),
                    None => None,
                },
            ),
        ),
        SpecExpr::SubQuery(s) => stmt_hit(*s, d),
        SpecExpr::Exists(s, _) => stmt_hit(*s, d),
        SpecExpr::InSubQuery { query, .. } => stmt_hit(*query, d),
        SpecExpr::WindowFunction { function, partition_by, order_by } => first_some(
            fn_hit(*function, d),
            first_some(hits(partition_by, d), order_hits(order_by, d)),
        ),
        _ => None,
    }
}

#[verifier::opaque]
pub open spec fn hits(es: Seq<SpecExpr>, d: Seq<Seq<char>>) -> Option<Seq<char>>
    decreases es,
{
    if es.len() == 0 {
        None
    } else {
        first_some(hits(es.subrange(0, es.len() - 1), d), fn_hit(es[es.len() - 1], d))
    }
}

#[verifier::opaque]
pub open spec fn when_hits(ws: Seq<(SpecExpr, SpecExpr)>, d: Seq<Seq<char>>) -> Option<Seq<char>>
    decreases ws,
{
    if ws.len() == 0 {
        None
    } else {
        first_some(
            when_hits(ws.subrange(0, ws.len() - 1), d),
            first_some(fn_hit(ws[ws.len() - 1].0, d), fn_hit(ws[ws.len() - 1].1, d)),
        )
    }
}

#[verifier::opaque]
pub open spec fn order_hits(os: Seq<SpecOrderBy>, d: Seq<Seq<char>>) -> Option<Seq<char>>
    decreases os,
{
    if os.len() == 0 {
        None
    } else {
        first_some(order_hits(os.subrange(0, os.len() - 1), d), fn_hit(os[os.len() - 1].expr, d))
    }
}

#[verifier::opaque]
pub open spec fn item_hits(items: Seq<SpecSelectItem>, d: Seq<Seq<char>>) -> Option<Seq<char>>
    decreases items,
{
    if items.len() == 0 {
        None
    } else {
        first_some(
            item_hits(items.subrange(0, items.len() - 1), d),
            match items[items.len() - 1] {
                SpecSelectItem::Expr(e, _) => fn_hit(e, d),
                SpecSelectItem::Wildcard(_) => None,
            },
        )
    }
}

#[verifier::opaque]
pub open spec fn join_hits(js: Seq<SpecJoin>, d: Seq<Seq<char>>) -> Option<Seq<char>>
    decreases js,
{
    if js.len() == 0 {
        None
    } else {
        first_some(join_hits(js.subrange(0, js.len() - 1), d), fn_hit(js[js.len() - 1].on, d))
    }
}

#[verifier::opaque]
pub open spec fn row_hits(rows: Seq<Seq<SpecExpr>>, d: Seq<Seq<char>>) -> Option<Seq<char>>
    decreases rows,
{
    if rows.len() == 0 {
        None
    } else {
        first_some(row_hits(rows.subrange(0, rows.len() - 1), d), hits(rows[rows.len() - 1], d))
    }
}

#[verifier::opaque]
pub open spec fn set_hits(sets: Seq<(Seq<char>, SpecExpr)>, d: Seq<Seq<char>>) -> Option<Seq<char>>
    decreases sets,
{
    if sets.len() == 0 {
        None
    } else {
        first_some(set_hits(sets.subrange(0, sets.len() - 1), d), fn_hit(sets[sets.len() - 1].1, d))
    }
}

/// The forbidden function an optional expression calls, if any.
#[verifier::opaque]
pub open spec fn opt_hit(o: Option<SpecExpr>, d: Seq<Seq<char>>) -> Option<Seq<char>>
    decreases o,
{
    match o {
        Some(w) => fn_hit(w, d),
        None => None,
    }
}

/// The first forbidden function of a table reference: in a derived table's
/// query, or in a nested join's table and condition.
#[verifier::opaque]
pub open spec fn table_hit(t: SpecTableRef, d: Seq<Seq<char>>) -> Option<Seq<char>>
    decreases t,
{
    match t {
        SpecTableRef::SubQuery(q, _) => stmt_hit(*q, d),
        SpecTableRef::Join(j) => first_some(table_hit(j.table, d), fn_hit(j.on, d)),
        SpecTableRef::Table { .. } => None,
    }
}

/// The first forbidden function in the tables of joins, in order.
#[verifier::opaque]
pub open spec fn join_table_hits(js: Seq<SpecJoin>, d: Seq<Seq<char>>) -> Option<Seq<char>>
    decreases js,
{
    if js.len() == 0 {
        None
    } else {
        first_some(join_table_hits(js.subrange(0, js.len() - 1), d), table_hit(js[js.len() - 1].table, d))
    }
}

/// The first forbidden function in the queries of a `WITH` clause, in order.
#[verifier::opaque]
pub open spec fn cte_hits(cs: Seq<SpecCte>, d: Seq<Seq<char>>) -> Option<Seq<char>>
    decreases cs,
{
    if cs.len() == 0 {
        None
    } else {
        first_some(cte_hits(cs.subrange(0, cs.len() - 1), d), select_hit(*cs[cs.len() - 1].query, d))
    }
}

/// The first forbidden function of a `SELECT`, walking its select list,
/// `WHERE`, join conditions, `GROUP BY`, `HAVING`, `ORDER BY`, `LIMIT`,
/// `OFFSET`, the derived table of `FROM`, the tables of joins and the
/// queries of `WITH`, in that order.
#[verifier::opaque]
pub open spec fn select_hit(x: SpecSelect, d: Seq<Seq<char>>) -> Option<Seq<char>>
    decreases x,
{
    let from_hit = match x.from {
        Some(t) => table_hit(t, d),
        None => None,
    };
    let r = first_some(item_hits(x.columns, d), opt_hit(x.where_clause, d));
    let r = first_some(r, join_hits(x.joins, d));
    let r = first_some(r, hits(x.group_by, d));
    let r = first_some(r, opt_hit(x.having, d));
    let r = first_some(r, order_hits(x.order_by, d));
    let r = first_some(r, opt_hit(x.limit, d));
    let r = first_some(r, opt_hit(x.offset, d));
    let r = first_some(r, from_hit);
    let r = first_some(r, join_table_hits(x.joins, d));
    first_some(r, cte_hits(x.with_cte, d))
}

/// The name of the first forbidden function in a statement: every clause of
/// a `SELECT` and its subqueries; the values and `WHERE` of `INSERT`,
/// `UPDATE` and `DELETE`.
#[verifier::opaque]
pub open spec fn stmt_hit(s: SpecStatement, d: Seq<Seq<char>>) -> Option<Seq<char>>
    decreases s,
{
    match s {
        SpecStatement::Select(x) => select_hit(*x, d),
        SpecStatement::Insert(x) => row_hits(x.values, d),
        SpecStatement::Update(x) => first_some(set_hits(x.sets, d), opt_hit(x.where_clause, d)),
        SpecStatement::Delete(x) => opt_hit(x.where_clause, d),
        _ => None,
    }
}

/// The answer for a text holding `count` statements: more than one is
/// refused unless the rules allow it.
pub open spec fn multi_check_result(c: WallConfig, count: nat) -> Option<Seq<char>> {
    if c.enabled && !c.allow_multi_statements && count > 1 {
        Some("multi-statement not allowed"@)
    } else {
        None
    }
}

/// Whether the rules deny operation `op`.
pub open spec fn denies(c: WallConfig, op: DenyOperation) -> bool {
    c.deny_operations@.contains(op)
}

pub open spec fn op_verdict(c: WallConfig, op: DenyOperation) -> Option<Seq<char>> {
    if denies(c, op) {
        Some(op_name(op) + " denied"@)
    } else {
        None
    }
}

/// What the rules on operations say of a statement.
pub open spec fn statement_verdict(c: WallConfig, sql: Seq<char>, s: SpecStatement) -> Option<Seq<char>> {
    match s {
        SpecStatement::Select(_) => if denies(c, DenyOperation::Select) {
            Some("SELECT denied"@)
        } else if !c.select_into_outfile_allow && first_match(lowercase_text(sql), "into outfile"@) is Some {
            Some("INTO OUTFILE denied"@)
        } else {
            None
        },
        SpecStatement::Insert(_) => op_verdict(c, DenyOperation::Insert),
        SpecStatement::Update(u) => if denies(c, DenyOperation::Update) {
            Some("UPDATE denied"@)
        } else if c.update_delete_require_where && u.where_clause is None {
            Some("UPDATE without WHERE"@)
        } else {
            None
        },
        SpecStatement::Delete(x) => if denies(c, DenyOperation::Delete) {
            Some("DELETE denied"@)
        } else if c.update_delete_require_where && x.where_clause is None {
            Some("DELETE without WHERE"@)
        } else {
            None
        },
        SpecStatement::CreateTable(_) => op_verdict(c, DenyOperation::CreateTable),
        SpecStatement::DropObject(_) => op_verdict(c, DenyOperation::DropTable),
    }
}

/// What the checker answers for statement `s` of SQL text `sql`, `len`
/// bytes long.
#[verifier::opaque]
pub open spec fn check_verdict(c: WallConfig, len: nat, sql: Seq<char>, s: SpecStatement) -> Option<Seq<char>> {
    if !c.enabled {
        None
    } else if len > c.max_sql_length {
        Some("SQL len "@ + decimal_text(len) + " > max "@ + decimal_text(c.max_sql_length as nat))
    } else {
        match stmt_hit(s, texts(c.deny_functions@)) {
            Some(name) => Some("forbidden function: "@ + name),
            None => statement_verdict(c, sql, s),
        }
    }
}

/// The operation a statement performs, as the rules name it.
pub open spec fn op_of(s: SpecStatement) -> DenyOperation {
    match s {
        SpecStatement::Select(_) => DenyOperation::Select,
        SpecStatement::Insert(_) => DenyOperation::Insert,
        SpecStatement::Update(_) => DenyOperation::Update,
        SpecStatement::Delete(_) => DenyOperation::Delete,
        SpecStatement::CreateTable(_) => DenyOperation::CreateTable,
        SpecStatement::DropObject(_) => DenyOperation::DropTable,
    }
}

/// With the rules on, a statement whose operation the rules deny is always
/// refused; when the text is within the length limit and calls no forbidden
/// function, the refusal names the operation (`INSERT denied`). With the
/// rules off nothing is refused. An `INSERT`, `CREATE TABLE` or `DROP`
/// whose operation is allowed, within the limit and calling no forbidden
/// function, is let through.
pub proof fn lemma_denied_operation(c: WallConfig, len: nat, sql: Seq<char>, s: SpecStatement)
    ensures
        !c.enabled ==> check_verdict(c, len, sql, s) is None,
        c.enabled && denies(c, op_of(s)) ==> check_verdict(c, len, sql, s) is Some,
        c.enabled && len <= c.max_sql_length && stmt_hit(s, texts(c.deny_functions@)) is None && denies(c, op_of(s))
            ==> check_verdict(c, len, sql, s) == Some(op_name(op_of(s)) + " denied"@),
        c.enabled && len <= c.max_sql_length && stmt_hit(s, texts(c.deny_functions@)) is None && !denies(c, op_of(s))
            && (s is Insert || s is CreateTable || s is DropObject) ==> check_verdict(c, len, sql, s) is None,
        c.enabled && c.update_delete_require_where && (s matches SpecStatement::Update(u) && u.where_clause is None)
            ==> check_verdict(c, len, sql, s) is Some,
        c.enabled && c.update_delete_require_where && (s matches SpecStatement::Delete(d) && d.where_clause is None)
            ==> check_verdict(c, len, sql, s) is Some,
        c.enabled && stmt_hit(s, texts(c.deny_functions@)) is Some ==> check_verdict(c, len, sql, s) is Some,
{
    reveal(check_verdict);
    reveal_strlit("SELECT");
    reveal_strlit("UPDATE");
    reveal_strlit("DELETE");
    reveal_strlit("SELECT denied");
    reveal_strlit("UPDATE denied");
    reveal_strlit("DELETE denied");
    reveal_strlit(" denied");
    assert("SELECT"@ + " denied"@ =~= "SELECT denied"@);
    assert("UPDATE"@ + " denied"@ =~= "UPDATE denied"@);
    assert("DELETE"@ + " denied"@ =~= "DELETE denied"@);
}

/// A character that can be part of a word: an ASCII letter or digit, or `_`.
pub open spec fn word_char(c: char) -> bool {
    ascii_alnum(c) || c == '_'
}

/// `k` occurs in `s` at `pos` as a whole word.
pub open spec fn word_at(s: Seq<char>, k: Seq<char>, pos: int) -> bool {
    &&& match_at(s, k, pos)
    &&& (pos == 0 || !word_char(s[pos - 1]))
    &&& (pos + k.len() >= s.len() || !word_char(s[pos + k.len()]))
}

/// Whether `k` occurs somewhere in `s` as a whole word.
pub open spec fn word_hit(s: Seq<char>, k: Seq<char>) -> bool {
    exists|pos: int| #[trigger] word_at(s, k, pos)
}

/// Whether `k` occurs in `s` at `pos`.
fn occurs_at(s: &[char], k: &[char], pos: usize) -> (r: bool)
    requires
        pos + k@.len() <= s@.len(),
    ensures
        r == match_at(s@, k@, pos as int),
{
    let mut i: usize = 0;
    while i < k.len()
        invariant
            i <= k@.len(),
            pos + k@.len() <= s@.len(),
            s@.len() == s.len(),
            forall|t: int| 0 <= t < i ==> s@[pos + t] == k@[t],
        decreases k@.len() - i,
    {
        assert(pos + i < s@.len());
        let at = pos + i;
        if s[at] != k[i] {
            assert(s@.subrange(pos as int, pos + k@.len())[i as int] != k@[i as int]);
            return false;
        }
        i = i + 1;
    }
    assert(s@.subrange(pos as int, pos + k@.len()) =~= k@);
    true
}

/// Whether `k` occurs somewhere in `s` as a whole word.
fn has_word(s: &[char], k: &[char]) -> (r: bool)
    ensures
        r == word_hit(s@, k@),
{
    if k.len() > s.len() {
        assert forall|pos: int| !word_at(s@, k@, pos) by {}
        return false;
    }
    let last = s.len() - k.len();
    let mut pos: usize = 0;
    while pos <= last
        invariant
            last == s@.len() - k@.len(),
            forall|q: int| 0 <= q < pos ==> !word_at(s@, k@, q),
        decreases last + 1 - pos,
    {
        if occurs_at(s, k, pos) {
            let before = pos == 0 || !(is_ascii_alnum(s[pos - 1]) || s[pos - 1] == '_');
            let end = pos + k.len();
            let after = end >= s.len() || !(is_ascii_alnum(s[end]) || s[end] == '_');
            if before && after {
                assert(word_at(s@, k@, pos as int));
                return true;
            }
        }
        if pos == last {
            assert forall|q: int| !word_at(s@, k@, q) by {
                if q > last as int {
                    assert(!match_at(s@, k@, q));
                }
            }
            return false;
        }
        pos = pos + 1;
    }
    false
}

/// The first of `fs` from `i` that `s` calls: its lower-case name followed by `(`.
pub open spec fn first_called(s: Seq<char>, fs: Seq<Seq<char>>, i: int) -> Option<Seq<char>>
    decreases fs.len() - i,
{
    if i < 0 || i >= fs.len() {
        None
    } else if first_match(s, lowercase_text(fs[i]) + "("@) is Some {
        Some(fs[i])
    } else {
        first_called(s, fs, i + 1)
    }
}

/// The first of `ks` from `i` whose lower-case form stands as a word in `s`.
pub open spec fn first_word(s: Seq<char>, ks: Seq<Seq<char>>, i: int) -> Option<Seq<char>>
    decreases ks.len() - i,
{
    if i < 0 || i >= ks.len() {
        None
    } else if word_hit(s, lowercase_text(ks[i])) {
        Some(ks[i])
    } else {
        first_word(s, ks, i + 1)
    }
}

/// A list of deny words with one standing as a word in `s` at or after `i`
/// gives a first hit.
proof fn lemma_first_word_found(s: Seq<char>, ks: Seq<Seq<char>>, i: int, j: int)
    requires
        0 <= i <= j < ks.len(),
        word_hit(s, lowercase_text(ks[j])),
    ensures
        first_word(s, ks, i) is Some,
    decreases j - i,
{
    if !word_hit(s, lowercase_text(ks[i])) {
        lemma_first_word_found(s, ks, i + 1, j);
    }
}

/// A list of deny functions with one called in `s` at or after `i` gives a
/// first hit.
proof fn lemma_first_called_found(s: Seq<char>, fs: Seq<Seq<char>>, i: int, j: int)
    requires
        0 <= i <= j < fs.len(),
        first_match(s, lowercase_text(fs[j]) + "("@) is Some,
    ensures
        first_called(s, fs, i) is Some,
    decreases j - i,
{
    if first_match(s, lowercase_text(fs[i]) + "("@) is None {
        lemma_first_called_found(s, fs, i + 1, j);
    }
}

/// With the rules on and the text within the length limit, the text check
/// refuses a text in which any deny keyword stands as a whole word, or any
/// deny function is called, in any case; with the rules off it refuses
/// nothing, and a text over the limit is always refused.
pub proof fn lemma_quick_refuses(c: WallConfig, len: nat, sql: Seq<char>, j: int)
    ensures
        !c.enabled ==> quick_verdict(c, len, sql) is None,
        c.enabled && len > c.max_sql_length ==> quick_verdict(c, len, sql) is Some,
        c.enabled && 0 <= j < c.deny_keywords@.len() && word_hit(
            lowercase_text(trimmed(sql)),
            lowercase_text(texts(c.deny_keywords@)[j]),
        ) ==> quick_verdict(c, len, sql) is Some,
        c.enabled && 0 <= j < c.deny_functions@.len() && first_match(
            lowercase_text(trimmed(sql)),
            lowercase_text(texts(c.deny_functions@)[j]) + "("@,
        ) is Some ==> quick_verdict(c, len, sql) is Some,
{
    reveal(quick_verdict);
    let s = lowercase_text(trimmed(sql));
    if c.enabled && 0 <= j < c.deny_keywords@.len() && word_hit(s, lowercase_text(texts(c.deny_keywords@)[j])) {
        lemma_first_word_found(s, texts(c.deny_keywords@), 0, j);
    }
    if c.enabled && 0 <= j < c.deny_functions@.len() && first_match(s, lowercase_text(texts(c.deny_functions@)[j]) + "("@) is Some {
        lemma_first_called_found(s, texts(c.deny_functions@), 0, j);
    }
}

/// What the text-only check answers for SQL text `sql`, `len` bytes long.
#[verifier::opaque]
pub open spec fn quick_verdict(c: WallConfig, len: nat, sql: Seq<char>) -> Option<Seq<char>> {
    if !c.enabled {
        None
    } else if len > c.max_sql_length {
        Some("SQL too long"@)
    } else {
        let s = lowercase_text(trimmed(sql));
        match first_called(s, texts(c.deny_functions@), 0) {
            Some(f) => Some("forbidden: "@ + f),
            None => match first_word(s, texts(c.deny_keywords@), 0) {
                Some(k) => Some("forbidden: "@ + k),
                None => None,
            },
        }
    }
}

/// Whether `name` is one of `deny`, compared in upper case.
fn is_denied(name: &str, deny: &Vec<String>) -> (r: bool)
    ensures
        r == is_denied_fn(name@, texts(deny@)),
{
    let up = to_uppercase(name);
    let mut i: usize = 0;
    while i < deny.len()
        invariant
            i <= deny@.len(),
            up@ == uppercase_text(name@),
            forall|k: int| 0 <= k < i ==> uppercase_text(texts(deny@)[k]) != uppercase_text(name@),
        decreases deny.len() - i,
    {
        let du = to_uppercase(deny[i].as_str());
        if same_text(du.as_str(), up.as_str()) {
            assert(uppercase_text(texts(deny@)[i as int]) == uppercase_text(name@));
            return true;
        }
        i = i + 1;
    }
    false
}

fn copy_text(s: &String) -> (r: String)
    ensures
        r@ == s@,
{
    string_of(&chars_of(s.as_str()))
}

fn hit_exprs(xs: &Vec<SQLExpr>, d: &Vec<String>) -> (r: Option<String>)
    ensures
        opt_text(r) == hits(exprs_v(xs@), texts(d@)),
    decreases xs, 0int,
{
    proof {
        reveal(expr_v);
        reveal(opt_expr_v);
        reveal(stmt_v);
        reveal(select_v);
        reveal(item_v);
        reveal(table_v);
        reveal(join_v);
        reveal(insert_v);
        reveal(update_v);
        reveal(delete_v);
        reveal(column_v);
        reveal(create_v);
        reveal(fn_hit);
        reveal(hits);
        reveal(when_hits);
        reveal(order_hits);
        reveal(item_hits);
        reveal(join_hits);
        reveal(row_hits);
        reveal(set_hits);
        reveal(stmt_hit);
        reveal(opt_hit);
        reveal(table_hit);
        reveal(join_table_hits);
        reveal(cte_hits);
        reveal(select_hit);
    }
    let ghost ev = exprs_v(xs@);
    let mut r: Option<String> = None;
    let mut k: usize = 0;
    while k < xs.len()
        invariant
            k <= xs.len(),
            ev == exprs_v(xs@),
            opt_text(r) == hits(ev.subrange(0, k as int), texts(d@)),
        decreases xs.len() - k,
    {
        proof {
            reveal(expr_v);
            reveal(opt_expr_v);
            reveal(stmt_v);
            reveal(select_v);
            reveal(item_v);
            reveal(table_v);
            reveal(join_v);
            reveal(insert_v);
            reveal(update_v);
            reveal(delete_v);
            reveal(column_v);
            reveal(create_v);
            reveal(fn_hit);
            reveal(hits);
            reveal(when_hits);
            reveal(order_hits);
            reveal(item_hits);
            reveal(join_hits);
            reveal(row_hits);
            reveal(set_hits);
            reveal(stmt_hit);
            reveal(opt_hit);
            reveal(table_hit);
            reveal(join_table_hits);
            reveal(cte_hits);
            reveal(select_hit);
        reveal(opt_hit);
        reveal(table_hit);
        reveal(join_table_hits);
        reveal(cte_hits);
        reveal(select_hit);
        }
        if r.is_none() {
            r = hit_expr(&xs[k], d);
        }
        assert(ev.subrange(0, k + 1).subrange(0, k as int) =~= ev.subrange(0, k as int));
        k = k + 1;
    }
    assert(ev.subrange(0, xs.len() as int) =~= ev);
    r
}

fn hit_whens(xs: &Vec<(SQLExpr, SQLExpr)>, d: &Vec<String>) -> (r: Option<String>)
    ensures
        opt_text(r) == when_hits(whens_v(xs@), texts(d@)),
    decreases xs, 0int,
{
    proof {
        reveal(expr_v);
        reveal(opt_expr_v);
        reveal(stmt_v);
        reveal(select_v);
        reveal(item_v);
        reveal(table_v);
        reveal(join_v);
        reveal(insert_v);
        reveal(update_v);
        reveal(delete_v);
        reveal(column_v);
        reveal(create_v);
        reveal(fn_hit);
        reveal(hits);
        reveal(when_hits);
        reveal(order_hits);
        reveal(item_hits);
        reveal(join_hits);
        reveal(row_hits);
        reveal(set_hits);
        reveal(stmt_hit);
        reveal(opt_hit);
        reveal(table_hit);
        reveal(join_table_hits);
        reveal(cte_hits);
        reveal(select_hit);
    }
    let ghost ev = whens_v(xs@);
    let mut r: Option<String> = None;
    let mut k: usize = 0;
    while k < xs.len()
        invariant
            k <= xs.len(),
            ev == whens_v(xs@),
            opt_text(r) == when_hits(ev.subrange(0, k as int), texts(d@)),
        decreases xs.len() - k,
    {
        proof {
            reveal(expr_v);
            reveal(opt_expr_v);
            reveal(stmt_v);
            reveal(select_v);
            reveal(item_v);
            reveal(table_v);
            reveal(join_v);
            reveal(insert_v);
            reveal(update_v);
            reveal(delete_v);
            reveal(column_v);
            reveal(create_v);
            reveal(fn_hit);
            reveal(hits);
            reveal(when_hits);
            reveal(order_hits);
            reveal(item_hits);
            reveal(join_hits);
            reveal(row_hits);
            reveal(set_hits);
            reveal(stmt_hit);
            reveal(opt_hit);
            reveal(table_hit);
            reveal(join_table_hits);
            reveal(cte_hits);
            reveal(select_hit);
        reveal(opt_hit);
        reveal(table_hit);
        reveal(join_table_hits);
        reveal(cte_hits);
        reveal(select_hit);
        }
        if r.is_none() {
            r = hit_expr(&xs[k].0, d);
            if r.is_none() {
                r = hit_expr(&xs[k].1, d);
            }
        }
        assert(ev.subrange(0, k + 1).subrange(0, k as int) =~= ev.subrange(0, k as int));
        k = k + 1;
    }
    assert(ev.subrange(0, xs.len() as int) =~= ev);
    r
}

fn hit_orders(xs: &Vec<crate::sql::ast::OrderByExpr>, d: &Vec<String>) -> (r: Option<String>)
    ensures
        opt_text(r) == order_hits(orders_v(xs@), texts(d@)),
    decreases xs, 0int,
{
    proof {
        reveal(expr_v);
        reveal(opt_expr_v);
        reveal(stmt_v);
        reveal(select_v);
        reveal(item_v);
        reveal(table_v);
        reveal(join_v);
        reveal(insert_v);
        reveal(update_v);
        reveal(delete_v);
        reveal(column_v);
        reveal(create_v);
        reveal(fn_hit);
        reveal(hits);
        reveal(when_hits);
        reveal(order_hits);
        reveal(item_hits);
        reveal(join_hits);
        reveal(row_hits);
        reveal(set_hits);
        reveal(stmt_hit);
        reveal(opt_hit);
        reveal(table_hit);
        reveal(join_table_hits);
        reveal(cte_hits);
        reveal(select_hit);
    }
    let ghost ev = orders_v(xs@);
    let mut r: Option<String> = None;
    let mut k: usize = 0;
    while k < xs.len()
        invariant
            k <= xs.len(),
            ev == orders_v(xs@),
            opt_text(r) == order_hits(ev.subrange(0, k as int), texts(d@)),
        decreases xs.len() - k,
    {
        proof {
            reveal(expr_v);
            reveal(opt_expr_v);
            reveal(stmt_v);
            reveal(select_v);
            reveal(item_v);
            reveal(table_v);
            reveal(join_v);
            reveal(insert_v);
            reveal(update_v);
            reveal(delete_v);
            reveal(column_v);
            reveal(create_v);
            reveal(fn_hit);
            reveal(hits);
            reveal(when_hits);
            reveal(order_hits);
            reveal(item_hits);
            reveal(join_hits);
            reveal(row_hits);
            reveal(set_hits);
            reveal(stmt_hit);
            reveal(opt_hit);
            reveal(table_hit);
            reveal(join_table_hits);
            reveal(cte_hits);
            reveal(select_hit);
        reveal(opt_hit);
        reveal(table_hit);
        reveal(join_table_hits);
        reveal(cte_hits);
        reveal(select_hit);
        }
        if r.is_none() {
            r = hit_expr(&xs[k].expr, d);
        }
        assert(ev.subrange(0, k + 1).subrange(0, k as int) =~= ev.subrange(0, k as int));
        k = k + 1;
    }
    assert(ev.subrange(0, xs.len() as int) =~= ev);
    r
}

fn hit_items(xs: &Vec<SelectItem>, d: &Vec<String>) -> (r: Option<String>)
    ensures
        opt_text(r) == item_hits(items_v(xs@), texts(d@)),
    decreases xs, 0int,
{
    proof {
        reveal(expr_v);
        reveal(opt_expr_v);
        reveal(stmt_v);
        reveal(select_v);
        reveal(item_v);
        reveal(table_v);
        reveal(join_v);
        reveal(insert_v);
        reveal(update_v);
        reveal(delete_v);
        reveal(column_v);
        reveal(create_v);
        reveal(fn_hit);
        reveal(hits);
        reveal(when_hits);
        reveal(order_hits);
        reveal(item_hits);
        reveal(join_hits);
        reveal(row_hits);
        reveal(set_hits);
        reveal(stmt_hit);
        reveal(opt_hit);
        reveal(table_hit);
        reveal(join_table_hits);
        reveal(cte_hits);
        reveal(select_hit);
    }
    let ghost ev = items_v(xs@);
    let mut r: Option<String> = None;
    let mut k: usize = 0;
    while k < xs.len()
        invariant
            k <= xs.len(),
            ev == items_v(xs@),
            opt_text(r) == item_hits(ev.subrange(0, k as int), texts(d@)),
        decreases xs.len() - k,
    {
        proof {
            reveal(expr_v);
            reveal(opt_expr_v);
            reveal(stmt_v);
            reveal(select_v);
            reveal(item_v);
            reveal(table_v);
            reveal(join_v);
            reveal(insert_v);
            reveal(update_v);
            reveal(delete_v);
            reveal(column_v);
            reveal(create_v);
            reveal(fn_hit);
            reveal(hits);
            reveal(when_hits);
            reveal(order_hits);
            reveal(item_hits);
            reveal(join_hits);
            reveal(row_hits);
            reveal(set_hits);
            reveal(stmt_hit);
            reveal(opt_hit);
            reveal(table_hit);
            reveal(join_table_hits);
            reveal(cte_hits);
            reveal(select_hit);
        reveal(opt_hit);
        reveal(table_hit);
        reveal(join_table_hits);
        reveal(cte_hits);
        reveal(select_hit);
        }
        if r.is_none() {
            match &xs[k] {
                SelectItem::Expr(e, _) => {
                    r = hit_expr(e, d);
                },
                SelectItem::Wildcard(_) => {},
            }
        }
        assert(ev.subrange(0, k + 1).subrange(0, k as int) =~= ev.subrange(0, k as int));
        k = k + 1;
    }
    assert(ev.subrange(0, xs.len() as int) =~= ev);
    r
}

fn hit_joins(xs: &Vec<crate::sql::ast::JoinClause>, d: &Vec<String>) -> (r: Option<String>)
    ensures
        opt_text(r) == join_hits(joins_v(xs@), texts(d@)),
    decreases xs, 0int,
{
    proof {
        reveal(expr_v);
        reveal(opt_expr_v);
        reveal(stmt_v);
        reveal(select_v);
        reveal(item_v);
        reveal(table_v);
        reveal(join_v);
        reveal(insert_v);
        reveal(update_v);
        reveal(delete_v);
        reveal(column_v);
        reveal(create_v);
        reveal(fn_hit);
        reveal(hits);
        reveal(when_hits);
        reveal(order_hits);
        reveal(item_hits);
        reveal(join_hits);
        reveal(row_hits);
        reveal(set_hits);
        reveal(stmt_hit);
        reveal(opt_hit);
        reveal(table_hit);
        reveal(join_table_hits);
        reveal(cte_hits);
        reveal(select_hit);
    }
    let ghost ev = joins_v(xs@);
    let mut r: Option<String> = None;
    let mut k: usize = 0;
    while k < xs.len()
        invariant
            k <= xs.len(),
            ev == joins_v(xs@),
            opt_text(r) == join_hits(ev.subrange(0, k as int), texts(d@)),
        decreases xs.len() - k,
    {
        proof {
            reveal(expr_v);
            reveal(opt_expr_v);
            reveal(stmt_v);
            reveal(select_v);
            reveal(item_v);
            reveal(table_v);
            reveal(join_v);
            reveal(insert_v);
            reveal(update_v);
            reveal(delete_v);
            reveal(column_v);
            reveal(create_v);
            reveal(fn_hit);
            reveal(hits);
            reveal(when_hits);
            reveal(order_hits);
            reveal(item_hits);
            reveal(join_hits);
            reveal(row_hits);
            reveal(set_hits);
            reveal(stmt_hit);
            reveal(opt_hit);
            reveal(table_hit);
            reveal(join_table_hits);
            reveal(cte_hits);
            reveal(select_hit);
        reveal(opt_hit);
        reveal(table_hit);
        reveal(join_table_hits);
        reveal(cte_hits);
        reveal(select_hit);
        }
        if r.is_none() {
            r = hit_expr(&xs[k].on, d);
        }
        assert(ev.subrange(0, k + 1).subrange(0, k as int) =~= ev.subrange(0, k as int));
        k = k + 1;
    }
    assert(ev.subrange(0, xs.len() as int) =~= ev);
    r
}

fn hit_rows(xs: &Vec<Vec<SQLExpr>>, d: &Vec<String>) -> (r: Option<String>)
    ensures
        opt_text(r) == row_hits(rows_v(xs@), texts(d@)),
    decreases xs, 0int,
{
    proof {
        reveal(expr_v);
        reveal(opt_expr_v);
        reveal(stmt_v);
        reveal(select_v);
        reveal(item_v);
        reveal(table_v);
        reveal(join_v);
        reveal(insert_v);
        reveal(update_v);
        reveal(delete_v);
        reveal(column_v);
        reveal(create_v);
        reveal(fn_hit);
        reveal(hits);
        reveal(when_hits);
        reveal(order_hits);
        reveal(item_hits);
        reveal(join_hits);
        reveal(row_hits);
        reveal(set_hits);
        reveal(stmt_hit);
        reveal(opt_hit);
        reveal(table_hit);
        reveal(join_table_hits);
        reveal(cte_hits);
        reveal(select_hit);
    }
    let ghost ev = rows_v(xs@);
    let mut r: Option<String> = None;
    let mut k: usize = 0;
    while k < xs.len()
        invariant
            k <= xs.len(),
            ev == rows_v(xs@),
            opt_text(r) == row_hits(ev.subrange(0, k as int), texts(d@)),
        decreases xs.len() - k,
    {
        proof {
            reveal(expr_v);
            reveal(opt_expr_v);
            reveal(stmt_v);
            reveal(select_v);
            reveal(item_v);
            reveal(table_v);
            reveal(join_v);
            reveal(insert_v);
            reveal(update_v);
            reveal(delete_v);
            reveal(column_v);
            reveal(create_v);
            reveal(fn_hit);
            reveal(hits);
            reveal(when_hits);
            reveal(order_hits);
            reveal(item_hits);
            reveal(join_hits);
            reveal(row_hits);
            reveal(set_hits);
            reveal(stmt_hit);
            reveal(opt_hit);
            reveal(table_hit);
            reveal(join_table_hits);
            reveal(cte_hits);
            reveal(select_hit);
        reveal(opt_hit);
        reveal(table_hit);
        reveal(join_table_hits);
        reveal(cte_hits);
        reveal(select_hit);
        }
        if r.is_none() {
            r = hit_exprs(&xs[k], d);
        }
        assert(ev.subrange(0, k + 1).subrange(0, k as int) =~= ev.subrange(0, k as int));
        k = k + 1;
    }
    assert(ev.subrange(0, xs.len() as int) =~= ev);
    r
}

fn hit_sets(xs: &Vec<(String, SQLExpr)>, d: &Vec<String>) -> (r: Option<String>)
    ensures
        opt_text(r) == set_hits(sets_v(xs@), texts(d@)),
    decreases xs, 0int,
{
    proof {
        reveal(expr_v);
        reveal(opt_expr_v);
        reveal(stmt_v);
        reveal(select_v);
        reveal(item_v);
        reveal(table_v);
        reveal(join_v);
        reveal(insert_v);
        reveal(update_v);
        reveal(delete_v);
        reveal(column_v);
        reveal(create_v);
        reveal(fn_hit);
        reveal(hits);
        reveal(when_hits);
        reveal(order_hits);
        reveal(item_hits);
        reveal(join_hits);
        reveal(row_hits);
        reveal(set_hits);
        reveal(stmt_hit);
        reveal(opt_hit);
        reveal(table_hit);
        reveal(join_table_hits);
        reveal(cte_hits);
        reveal(select_hit);
    }
    let ghost ev = sets_v(xs@);
    let mut r: Option<String> = None;
    let mut k: usize = 0;
    while k < xs.len()
        invariant
            k <= xs.len(),
            ev == sets_v(xs@),
            opt_text(r) == set_hits(ev.subrange(0, k as int), texts(d@)),
        decreases xs.len() - k,
    {
        proof {
            reveal(expr_v);
            reveal(opt_expr_v);
            reveal(stmt_v);
            reveal(select_v);
            reveal(item_v);
            reveal(table_v);
            reveal(join_v);
            reveal(insert_v);
            reveal(update_v);
            reveal(delete_v);
            reveal(column_v);
            reveal(create_v);
            reveal(fn_hit);
            reveal(hits);
            reveal(when_hits);
            reveal(order_hits);
            reveal(item_hits);
            reveal(join_hits);
            reveal(row_hits);
            reveal(set_hits);
            reveal(stmt_hit);
            reveal(opt_hit);
            reveal(table_hit);
            reveal(join_table_hits);
            reveal(cte_hits);
            reveal(select_hit);
        reveal(opt_hit);
        reveal(table_hit);
        reveal(join_table_hits);
        reveal(cte_hits);
        reveal(select_hit);
        }
        if r.is_none() {
            r = hit_expr(&xs[k].1, d);
        }
        assert(ev.subrange(0, k + 1).subrange(0, k as int) =~= ev.subrange(0, k as int));
        k = k + 1;
    }
    assert(ev.subrange(0, xs.len() as int) =~= ev);
    r
}

fn hit_opt(e: &Option<SQLExpr>, d: &Vec<String>) -> (r: Option<String>)
    ensures
        opt_text(r) == opt_hit(opt_expr_v(e), texts(d@)),
    decreases e, 0int,
{
    proof {
        reveal(expr_v);
        reveal(opt_expr_v);
        reveal(stmt_v);
        reveal(select_v);
        reveal(item_v);
        reveal(table_v);
        reveal(join_v);
        reveal(insert_v);
        reveal(update_v);
        reveal(delete_v);
        reveal(column_v);
        reveal(create_v);
        reveal(fn_hit);
        reveal(hits);
        reveal(when_hits);
        reveal(order_hits);
        reveal(item_hits);
        reveal(join_hits);
        reveal(row_hits);
        reveal(set_hits);
        reveal(stmt_hit);
        reveal(opt_hit);
        reveal(table_hit);
        reveal(join_table_hits);
        reveal(cte_hits);
        reveal(select_hit);
    }
    match e {
        Some(x) => hit_expr(x, d),
        None => None,
    }
}

fn hit_case(e: &SQLExpr, d: &Vec<String>) -> (r: Option<String>)
    requires
        e is Case,
    ensures
        opt_text(r) == fn_hit(e@, texts(d@)),
    decreases e, 0int,
{
    proof {
        reveal(expr_v);
        reveal(opt_expr_v);
        reveal(stmt_v);
        reveal(select_v);
        reveal(item_v);
        reveal(table_v);
        reveal(join_v);
        reveal(insert_v);
        reveal(update_v);
        reveal(delete_v);
        reveal(column_v);
        reveal(create_v);
        reveal(fn_hit);
        reveal(hits);
        reveal(when_hits);
        reveal(order_hits);
        reveal(item_hits);
        reveal(join_hits);
        reveal(row_hits);
        reveal(set_hits);
        reveal(stmt_hit);
        reveal(opt_hit);
        reveal(table_hit);
        reveal(join_table_hits);
        reveal(cte_hits);
        reveal(select_hit);
    }
    match e {
        SQLExpr::Case { expr, whens, else_expr } => {
            assert(e@ matches SpecExpr::Case { whens: w, .. } && w =~= whens_v(whens@));
            let mut r = match expr {
                Some(x) => hit_expr(x, d),
                None => None,
            };
            if r.is_none() {
                r = hit_whens(whens, d);
                if r.is_none() {
                    r = match else_expr {
                        Some(x) => hit_expr(x, d),
                        None => None,
                    };
                }
            }
            r
        },
        _ => None,
    }
}

fn hit_window(e: &SQLExpr, d: &Vec<String>) -> (r: Option<String>)
    requires
        e is WindowFunction,
    ensures
        opt_text(r) == fn_hit(e@, texts(d@)),
    decreases e, 0int,
{
    proof {
        reveal(expr_v);
        reveal(opt_expr_v);
        reveal(stmt_v);
        reveal(select_v);
        reveal(item_v);
        reveal(table_v);
        reveal(join_v);
        reveal(insert_v);
        reveal(update_v);
        reveal(delete_v);
        reveal(column_v);
        reveal(create_v);
        reveal(fn_hit);
        reveal(hits);
        reveal(when_hits);
        reveal(order_hits);
        reveal(item_hits);
        reveal(join_hits);
        reveal(row_hits);
        reveal(set_hits);
        reveal(stmt_hit);
        reveal(opt_hit);
        reveal(table_hit);
        reveal(join_table_hits);
        reveal(cte_hits);
        reveal(select_hit);
    }
    match e {
        SQLExpr::WindowFunction { function, partition_by, order_by } => {
            assert(e@ matches SpecExpr::WindowFunction { partition_by: a, order_by: b, .. } && a =~= exprs_v(
                partition_by@,
            ) && b =~= orders_v(order_by@));
            let mut r = hit_expr(function, d);
            if r.is_none() {
                r = hit_exprs(partition_by, d);
                if r.is_none() {
                    r = hit_orders(order_by, d);
                }
            }
            r
        },
        _ => None,
    }
}

/// The first forbidden function of an expression, in walking order.
fn hit_expr(e: &SQLExpr, d: &Vec<String>) -> (r: Option<String>)
    ensures
        opt_text(r) == fn_hit(e@, texts(d@)),
    decreases e, 1int,
{
    proof {
        reveal(expr_v);
        reveal(opt_expr_v);
        reveal(stmt_v);
        reveal(select_v);
        reveal(item_v);
        reveal(table_v);
        reveal(join_v);
        reveal(insert_v);
        reveal(update_v);
        reveal(delete_v);
        reveal(column_v);
        reveal(create_v);
        reveal(fn_hit);
        reveal(hits);
        reveal(when_hits);
        reveal(order_hits);
        reveal(item_hits);
        reveal(join_hits);
        reveal(row_hits);
        reveal(set_hits);
        reveal(stmt_hit);
        reveal(opt_hit);
        reveal(table_hit);
        reveal(join_table_hits);
        reveal(cte_hits);
        reveal(select_hit);
    }
    match e {
        SQLExpr::Function { name, .. } => {
            if is_denied(name.as_str(), d) {
                Some(copy_text(name))
            } else {
                None
            }
        },
        SQLExpr::Aggregate { name, .. } => {
            if is_denied(name.as_str(), d) {
                Some(copy_text(name))
            } else {
                None
            }
        },
        SQLExpr::BinaryOp { left, right, .. } => {
            let r = hit_expr(left, d);
            if r.is_some() {
                r
            } else {
                hit_expr(right, d)
            }
        },
        SQLExpr::UnaryOp { expr, .. } => hit_expr(expr, d),
        SQLExpr::Nested(x) => hit_expr(x, d),
        SQLExpr::IsNull { expr, .. } => hit_expr(expr, d),
        SQLExpr::Cast { expr, .. } => hit_expr(expr, d),
        SQLExpr::InList { expr, list, .. } => {
            assert(e@ matches SpecExpr::InList { list: a, .. } && a =~= exprs_v(list@));
            let r = hit_expr(expr, d);
            if r.is_some() {
                r
            } else {
                hit_exprs(list, d)
            }
        },
        SQLExpr::Between { expr, low, high, .. } => {
            let r = hit_expr(expr, d);
            if r.is_some() {
                r
            } else {
                let r2 = hit_expr(low, d);
                if r2.is_some() {
                    r2
                } else {
                    hit_expr(high, d)
                }
            }
        },
        SQLExpr::Like { expr, pattern, .. } => {
            let r = hit_expr(expr, d);
            if r.is_some() {
                r
            } else {
                hit_expr(pattern, d)
            }
        },
        SQLExpr::Case { .. } => hit_case(e, d),
        SQLExpr::SubQuery(s) => hit_stmt(s, d),
        SQLExpr::Exists(s, _) => hit_stmt(s, d),
        SQLExpr::InSubQuery { query, .. } => hit_stmt(query, d),
        SQLExpr::WindowFunction { .. } => hit_window(e, d),
        _ => None,
    }
}

fn hit_table(t: &TableReference, d: &Vec<String>) -> (r: Option<String>)
    ensures
        opt_text(r) == table_hit(table_v(t), texts(d@)),
    decreases t, 0int,
{
    proof {
        reveal(expr_v);
        reveal(opt_expr_v);
        reveal(stmt_v);
        reveal(select_v);
        reveal(item_v);
        reveal(table_v);
        reveal(join_v);
        reveal(insert_v);
        reveal(update_v);
        reveal(delete_v);
        reveal(column_v);
        reveal(create_v);
        reveal(fn_hit);
        reveal(hits);
        reveal(when_hits);
        reveal(order_hits);
        reveal(item_hits);
        reveal(join_hits);
        reveal(row_hits);
        reveal(set_hits);
        reveal(stmt_hit);
        reveal(opt_hit);
        reveal(table_hit);
        reveal(join_table_hits);
        reveal(cte_hits);
        reveal(select_hit);
    }
    match t {
        TableReference::SubQuery(q, _) => hit_stmt(q, d),
        TableReference::Join(j) => {
            let r = hit_table(&j.table, d);
            if r.is_some() {
                r
            } else {
                hit_expr(&j.on, d)
            }
        },
        TableReference::Table { .. } => None,
    }
}

fn hit_join_tables(xs: &Vec<crate::sql::ast::JoinClause>, d: &Vec<String>) -> (r: Option<String>)
    ensures
        opt_text(r) == join_table_hits(joins_v(xs@), texts(d@)),
    decreases xs, 0int,
{
    proof {
        reveal(expr_v);
        reveal(opt_expr_v);
        reveal(stmt_v);
        reveal(select_v);
        reveal(item_v);
        reveal(table_v);
        reveal(join_v);
        reveal(insert_v);
        reveal(update_v);
        reveal(delete_v);
        reveal(column_v);
        reveal(create_v);
        reveal(fn_hit);
        reveal(hits);
        reveal(when_hits);
        reveal(order_hits);
        reveal(item_hits);
        reveal(join_hits);
        reveal(row_hits);
        reveal(set_hits);
        reveal(stmt_hit);
        reveal(opt_hit);
        reveal(table_hit);
        reveal(join_table_hits);
        reveal(cte_hits);
        reveal(select_hit);
    }
    let ghost ev = joins_v(xs@);
    let mut r: Option<String> = None;
    let mut k: usize = 0;
    while k < xs.len()
        invariant
            k <= xs.len(),
            ev == joins_v(xs@),
            opt_text(r) == join_table_hits(ev.subrange(0, k as int), texts(d@)),
        decreases xs.len() - k,
    {
        proof {
            reveal(expr_v);
            reveal(opt_expr_v);
            reveal(stmt_v);
            reveal(select_v);
            reveal(item_v);
            reveal(table_v);
            reveal(join_v);
            reveal(insert_v);
            reveal(update_v);
            reveal(delete_v);
            reveal(column_v);
            reveal(create_v);
            reveal(fn_hit);
            reveal(hits);
            reveal(when_hits);
            reveal(order_hits);
            reveal(item_hits);
            reveal(join_hits);
            reveal(row_hits);
            reveal(set_hits);
            reveal(stmt_hit);
            reveal(opt_hit);
            reveal(table_hit);
            reveal(join_table_hits);
            reveal(cte_hits);
            reveal(select_hit);
        }
        if r.is_none() {
            r = hit_table(&xs[k].table, d);
        }
        assert(ev.subrange(0, k + 1).subrange(0, k as int) =~= ev.subrange(0, k as int));
        k = k + 1;
    }
    assert(ev.subrange(0, xs.len() as int) =~= ev);
    r
}

fn hit_ctes(xs: &Vec<crate::sql::ast::CteDef>, d: &Vec<String>) -> (r: Option<String>)
    ensures
        opt_text(r) == cte_hits(ctes_v(xs@), texts(d@)),
    decreases xs, 0int,
{
    proof {
        reveal(expr_v);
        reveal(opt_expr_v);
        reveal(stmt_v);
        reveal(select_v);
        reveal(item_v);
        reveal(table_v);
        reveal(join_v);
        reveal(insert_v);
        reveal(update_v);
        reveal(delete_v);
        reveal(column_v);
        reveal(create_v);
        reveal(fn_hit);
        reveal(hits);
        reveal(when_hits);
        reveal(order_hits);
        reveal(item_hits);
        reveal(join_hits);
        reveal(row_hits);
        reveal(set_hits);
        reveal(stmt_hit);
        reveal(opt_hit);
        reveal(table_hit);
        reveal(join_table_hits);
        reveal(cte_hits);
        reveal(select_hit);
    }
    let ghost ev = ctes_v(xs@);
    let mut r: Option<String> = None;
    let mut k: usize = 0;
    while k < xs.len()
        invariant
            k <= xs.len(),
            ev == ctes_v(xs@),
            opt_text(r) == cte_hits(ev.subrange(0, k as int), texts(d@)),
        decreases xs.len() - k,
    {
        proof {
            reveal(expr_v);
            reveal(opt_expr_v);
            reveal(stmt_v);
            reveal(select_v);
            reveal(item_v);
            reveal(table_v);
            reveal(join_v);
            reveal(insert_v);
            reveal(update_v);
            reveal(delete_v);
            reveal(column_v);
            reveal(create_v);
            reveal(fn_hit);
            reveal(hits);
            reveal(when_hits);
            reveal(order_hits);
            reveal(item_hits);
            reveal(join_hits);
            reveal(row_hits);
            reveal(set_hits);
            reveal(stmt_hit);
            reveal(opt_hit);
            reveal(table_hit);
            reveal(join_table_hits);
            reveal(cte_hits);
            reveal(select_hit);
        }
        if r.is_none() {
            r = hit_select(&xs[k].query, d);
        }
        assert(ev.subrange(0, k + 1).subrange(0, k as int) =~= ev.subrange(0, k as int));
        k = k + 1;
    }
    assert(ev.subrange(0, xs.len() as int) =~= ev);
    r
}

fn hit_select(s: &SelectStatement, d: &Vec<String>) -> (r: Option<String>)
    ensures
        opt_text(r) == select_hit(s@, texts(d@)),
    decreases s, 0int,
{
    proof {
        reveal(expr_v);
        reveal(opt_expr_v);
        reveal(stmt_v);
        reveal(select_v);
        reveal(item_v);
        reveal(table_v);
        reveal(join_v);
        reveal(insert_v);
        reveal(update_v);
        reveal(delete_v);
        reveal(column_v);
        reveal(create_v);
        reveal(fn_hit);
        reveal(hits);
        reveal(when_hits);
        reveal(order_hits);
        reveal(item_hits);
        reveal(join_hits);
        reveal(row_hits);
        reveal(set_hits);
        reveal(stmt_hit);
        reveal(opt_hit);
        reveal(table_hit);
        reveal(join_table_hits);
        reveal(cte_hits);
        reveal(select_hit);
    }
    assert(s@.columns =~= items_v(s.columns@));
    assert(s@.joins =~= joins_v(s.joins@));
    assert(s@.group_by =~= exprs_v(s.group_by@));
    assert(s@.order_by =~= orders_v(s.order_by@));
    assert(s@.with_cte =~= ctes_v(s.with_cte@));
    let mut r = hit_items(&s.columns, d);
    if r.is_none() {
        r = hit_opt(&s.where_clause, d);
    }
    if r.is_none() {
        r = hit_joins(&s.joins, d);
    }
    if r.is_none() {
        r = hit_exprs(&s.group_by, d);
    }
    if r.is_none() {
        r = hit_opt(&s.having, d);
    }
    if r.is_none() {
        r = hit_orders(&s.order_by, d);
    }
    if r.is_none() {
        r = hit_opt(&s.limit, d);
    }
    if r.is_none() {
        r = hit_opt(&s.offset, d);
    }
    if r.is_none() {
        r = match &s.from {
            Some(t) => hit_table(t, d),
            None => None,
        };
    }
    if r.is_none() {
        r = hit_join_tables(&s.joins, d);
    }
    if r.is_none() {
        r = hit_ctes(&s.with_cte, d);
    }
    r
}

/// The first forbidden function of a statement, in walking order.
fn hit_stmt(s: &SQLStatement, d: &Vec<String>) -> (r: Option<String>)
    ensures
        opt_text(r) == stmt_hit(s@, texts(d@)),
    decreases s, 1int,
{
    proof {
        reveal(expr_v);
        reveal(opt_expr_v);
        reveal(stmt_v);
        reveal(select_v);
        reveal(item_v);
        reveal(table_v);
        reveal(join_v);
        reveal(insert_v);
        reveal(update_v);
        reveal(delete_v);
        reveal(column_v);
        reveal(create_v);
        reveal(fn_hit);
        reveal(hits);
        reveal(when_hits);
        reveal(order_hits);
        reveal(item_hits);
        reveal(join_hits);
        reveal(row_hits);
        reveal(set_hits);
        reveal(stmt_hit);
        reveal(opt_hit);
        reveal(table_hit);
        reveal(join_table_hits);
        reveal(cte_hits);
        reveal(select_hit);
    }
    match s {
        SQLStatement::Select(x) => hit_select(x, d),
        SQLStatement::Insert(x) => {
            assert(insert_v(x).values =~= rows_v(x.values@)) by {
                assert forall|i: int| 0 <= i < x.values@.len() implies insert_v(x).values[i] =~= exprs_v(
                    x.values@[i]@,
                ) by {}
            }
            hit_rows(&x.values, d)
        },
        SQLStatement::Update(x) => {
            assert(update_v(x).sets =~= sets_v(x.sets@));
            let r = hit_sets(&x.sets, d);
            if r.is_some() {
                r
            } else {
                hit_opt(&x.where_clause, d)
            }
        },
        SQLStatement::Delete(x) => hit_opt(&x.where_clause, d),
        _ => None,
    }
}

/// Checks SQL text and its statements against the rules.
pub struct WallChecker {
    config: WallConfig,
}

impl WallChecker {
    /// The rules of this checker.
    pub closed spec fn rules(&self) -> WallConfig {
        self.config
    }

    pub fn new(config: WallConfig) -> (r: Self)
        ensures
            r.rules() == config,
    {
        WallChecker { config }
    }

    fn denies_op(&self, op: DenyOperation) -> (r: bool)
        ensures
            r == denies(self.rules(), op),
    {
        let mut i: usize = 0;
        while i < self.config.deny_operations.len()
            invariant
                i <= self.config.deny_operations@.len(),
                forall|k: int| 0 <= k < i ==> self.config.deny_operations@[k] != op,
            decreases self.config.deny_operations.len() - i,
        {
            if self.config.deny_operations[i] == op {
                assert(self.config.deny_operations@[i as int] == op);
                return true;
            }
            i = i + 1;
        }
        false
    }

    fn check_op(&self, op: DenyOperation) -> (r: WallCheckResult)
        ensures
            result_is(r, op_verdict(self.rules(), op)),
    {
        if self.denies_op(op) {
            let mut m: Vec<char> = Vec::new();
            push_str(&mut m, op.to_text());
            push_str(&mut m, " denied");
            WallCheckResult::deny(string_of(&m))
        } else {
            WallCheckResult::pass()
        }
    }

    /// The refusal of a text holding `count` statements, when the rules allow
    /// only one.
    pub fn check_statement_count(&self, count: usize) -> (r: Option<WallCheckResult>)
        ensures
            match multi_check_result(self.rules(), count as nat) {
                Some(m) => r matches Some(x) && result_is(x, Some(m)),
                None => r is None,
            },
    {
        if self.config.enabled && !self.config.allow_multi_statements && count > 1 {
            Some(WallCheckResult::deny(string_of(&chars_of("multi-statement not allowed"))))
        } else {
            None
        }
    }

    /// The answer for the functions a statement calls, if one is forbidden.
    pub fn check_functions(&self, stmt: &SQLStatement) -> (r: Option<WallCheckResult>)
        ensures
            match stmt_hit(stmt@, texts(self.rules().deny_functions@)) {
                Some(name) => r matches Some(x) && result_is(x, Some("forbidden function: "@ + name)),
                None => r is None,
            },
    {
        match hit_stmt(stmt, &self.config.deny_functions) {
            Some(name) => {
                let mut m: Vec<char> = Vec::new();
                push_str(&mut m, "forbidden function: ");
                push_str(&mut m, name.as_str());
                Some(WallCheckResult::deny(string_of(&m)))
            },
            None => None,
        }
    }

    fn check_statement(&self, sql: &str, stmt: &SQLStatement) -> (r: WallCheckResult)
        ensures
            result_is(r, statement_verdict(self.rules(), sql@, stmt@)),
    {
        proof {
            reveal(expr_v);
            reveal(opt_expr_v);
            reveal(stmt_v);
            reveal(select_v);
            reveal(item_v);
            reveal(table_v);
            reveal(join_v);
            reveal(insert_v);
            reveal(update_v);
            reveal(delete_v);
            reveal(column_v);
            reveal(create_v);
            reveal(fn_hit);
            reveal(hits);
            reveal(when_hits);
            reveal(order_hits);
            reveal(item_hits);
            reveal(join_hits);
            reveal(row_hits);
            reveal(set_hits);
            reveal(stmt_hit);
            reveal(opt_hit);
            reveal(table_hit);
            reveal(join_table_hits);
            reveal(cte_hits);
            reveal(select_hit);
        reveal(opt_hit);
        reveal(table_hit);
        reveal(join_table_hits);
        reveal(cte_hits);
        reveal(select_hit);
    }
        match stmt {
            SQLStatement::Select(_) => {
                if self.denies_op(DenyOperation::Select) {
                    return WallCheckResult::deny(string_of(&chars_of("SELECT denied")));
                }
                if !self.config.select_into_outfile_allow {
                    let low = to_lowercase(sql);
                    let lc = chars_of(low.as_str());
                    let pat = chars_of("into outfile");
                    if find_chars(&lc, &pat).is_some() {
                        return WallCheckResult::deny(string_of(&chars_of("INTO OUTFILE denied")));
                    }
                }
                WallCheckResult::pass()
            },
            SQLStatement::Insert(_) => self.check_op(DenyOperation::Insert),
            SQLStatement::Update(s) => {
                if self.denies_op(DenyOperation::Update) {
                    return WallCheckResult::deny(string_of(&chars_of("UPDATE denied")));
                }
                if self.config.update_delete_require_where && s.where_clause.is_none() {
                    return WallCheckResult::deny(string_of(&chars_of("UPDATE without WHERE")));
                }
                WallCheckResult::pass()
            },
            SQLStatement::Delete(s) => {
                if self.denies_op(DenyOperation::Delete) {
                    return WallCheckResult::deny(string_of(&chars_of("DELETE denied")));
                }
                if self.config.update_delete_require_where && s.where_clause.is_none() {
                    return WallCheckResult::deny(string_of(&chars_of("DELETE without WHERE")));
                }
                WallCheckResult::pass()
            },
            SQLStatement::CreateTable(_) => self.check_op(DenyOperation::CreateTable),
            SQLStatement::DropObject(_) => self.check_op(DenyOperation::DropTable),
        }
    }

    /// Checks one statement of SQL text `sql` against the rules.
    pub fn check(&self, sql: &str, stmt: &SQLStatement) -> (r: WallCheckResult)
        ensures
            result_is(r, check_verdict(self.rules(), sql.len() as nat, sql@, stmt@)),
    {
        proof {
            reveal(check_verdict);
        }
        if !self.config.enabled {
            return WallCheckResult::pass();
        }
        if sql.len() > self.config.max_sql_length {
            let mut m: Vec<char> = Vec::new();
            push_str(&mut m, "SQL len ");
            crate::text::push_decimal_usize(&mut m, sql.len());
            push_str(&mut m, " > max ");
            crate::text::push_decimal_usize(&mut m, self.config.max_sql_length);
            return WallCheckResult::deny(string_of(&m));
        }
        match self.check_functions(stmt) {
            Some(v) => v,
            None => self.check_statement(sql, stmt),
        }
    }

    /// Checks SQL text alone against the rules on functions and keywords.
    pub fn quick_check(&self, sql: &str) -> (r: WallCheckResult)
        ensures
            result_is(r, quick_verdict(self.rules(), sql.len() as nat, sql@)),
    {
        proof {
            reveal(quick_verdict);
        }
        if !self.config.enabled {
            return WallCheckResult::pass();
        }
        if sql.len() > self.config.max_sql_length {
            return WallCheckResult::deny(string_of(&chars_of("SQL too long")));
        }
        let t = trim_chars(&chars_of(sql));
        let ts = string_of(&t);
        let low = to_lowercase(ts.as_str());
        let s = chars_of(low.as_str());
        let ghost sv = lowercase_text(trimmed(sql@));
        let ghost fs = texts(self.config.deny_functions@);
        let ghost ks = texts(self.config.deny_keywords@);
        let mut i: usize = 0;
        while i < self.config.deny_functions.len()
            invariant
                i <= self.config.deny_functions@.len(),
                self.config.enabled,
                sql.len() <= self.config.max_sql_length,
                sv == lowercase_text(trimmed(sql@)),
                s@ == sv,
                fs == texts(self.config.deny_functions@),
                first_called(sv, fs, 0) == first_called(sv, fs, i as int),
            decreases self.config.deny_functions.len() - i,
        {
            proof {
                reveal(quick_verdict);
            }
            let fl = to_lowercase(self.config.deny_functions[i].as_str());
            let mut pat = chars_of(fl.as_str());
            pat.push('(');
            assert(pat@ =~= lowercase_text(fs[i as int]) + "("@) by {
                reveal_strlit("(");
            }
            if find_chars(&s, &pat).is_some() {
                let mut m: Vec<char> = Vec::new();
                push_str(&mut m, "forbidden: ");
                push_str(&mut m, self.config.deny_functions[i].as_str());
                return WallCheckResult::deny(string_of(&m));
            }
            i = i + 1;
        }
        let mut j: usize = 0;
        while j < self.config.deny_keywords.len()
            invariant
                j <= self.config.deny_keywords@.len(),
                self.config.enabled,
                sql.len() <= self.config.max_sql_length,
                sv == lowercase_text(trimmed(sql@)),
                fs == texts(self.config.deny_functions@),
                s@ == sv,
                ks == texts(self.config.deny_keywords@),
                first_called(sv, fs, 0) is None,
                first_word(sv, ks, 0) == first_word(sv, ks, j as int),
            decreases self.config.deny_keywords.len() - j,
        {
            proof {
                reveal(quick_verdict);
            }
            let kl = to_lowercase(self.config.deny_keywords[j].as_str());
            let k = chars_of(kl.as_str());
            assert(k@ == lowercase_text(ks[j as int]));
            if has_word(&s, &k) {
                let mut m: Vec<char> = Vec::new();
                push_str(&mut m, "forbidden: ");
                push_str(&mut m, self.config.deny_keywords[j].as_str());
                return WallCheckResult::deny(string_of(&m));
            }
            assert(k@ == lowercase_text(ks[j as int]));
            j = j + 1;
        }
        WallCheckResult::pass()
    }
}

} // verus!
