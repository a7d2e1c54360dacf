//! Telling SQL text and connection URLs apart.
use vstd::prelude::*;
use crate::base::types::DbType;
use crate::text::{
    ascii_lower_chars, ascii_lower_text, chars_of, find_chars, first_match, is_whitespace, lead_end, lowercase_text,
    to_lowercase, trim_chars, trimmed, unicode_whitespace,
};

verus! {

/// `s` without its leading whitespace, as `str::trim_start` gives it.
pub open spec fn leading_trimmed(s: Seq<char>) -> Seq<char> {
    s.subrange(lead_end(s, 0), s.len() as int)
}

/// Whether `s` begins with `p`.
pub open spec fn starts_with(s: Seq<char>, p: Seq<char>) -> bool {
    s.len() >= p.len() && s.subrange(0, p.len() as int) == p
}

/// The number of bytes of `c` in UTF-8.
pub open spec fn utf8_width(c: char) -> nat {
    if (c as u32) < 0x80 {
        1
    } else if (c as u32) < 0x800 {
        2
    } else if (c as u32) < 0x10000 {
        3
    } else {
        4
    }
}

/// The number of bytes of `s` in UTF-8, as `str::len` counts them.
pub open spec fn byte_len(s: Seq<char>) -> nat
    decreases s.len(),
{
    if s.len() == 0 {
        0
    } else {
        byte_len(s.drop_last()) + utf8_width(s.last())
    }
}

/// Whether the scheme of URL `u` (the part before `://`) holds `pat`.
pub open spec fn scheme_contains(u: Seq<char>, pat: Seq<char>) -> bool {
    match first_match(u, "://"@) {
        Some(i) => first_match(u.subrange(0, i), pat) is Some,
        None => false,
    }
}

/// The database kind that a lower-case URL names.
pub open spec fn detected_db_type(u: Seq<char>) -> Option<DbType> {
    if scheme_contains(u, "mysql"@) {
        Some(DbType::MySQL)
    } else if scheme_contains(u, "postgresql"@) || scheme_contains(u, "postgres"@) {
        Some(DbType::PostgreSQL)
    } else if scheme_contains(u, "oracle"@) {
        Some(DbType::Oracle)
    } else if scheme_contains(u, "sqlserver"@) || scheme_contains(u, "mssql"@) {
        Some(DbType::SqlServer)
    } else if scheme_contains(u, "db2"@) && !(first_match(u, "not-db2"@) is Some) {
        Some(DbType::DB2)
    } else if starts_with(u, "jdbc:h2"@) {
        Some(DbType::H2)
    } else if scheme_contains(u, "clickhouse"@) {
        Some(DbType::ClickHouse)
    } else if scheme_contains(u, "doris"@) {
        Some(DbType::Doris)
    } else if scheme_contains(u, "starrocks"@) {
        Some(DbType::StarRocks)
    } else if scheme_contains(u, "hive"@) {
        Some(DbType::Hive)
    } else if scheme_contains(u, "presto"@) {
        Some(DbType::Presto)
    } else if scheme_contains(u, "impala"@) {
        Some(DbType::Impala)
    } else if scheme_contains(u, "snowflake"@) {
        Some(DbType::Snowflake)
    } else if scheme_contains(u, "bigquery"@) {
        Some(DbType::BigQuery)
    } else if scheme_contains(u, "redshift"@) {
        Some(DbType::Redshift)
    } else if scheme_contains(u, "spark"@) {
        Some(DbType::Spark)
    } else if scheme_contains(u, "phoenix"@) {
        Some(DbType::Phoenix)
    } else if scheme_contains(u, "teradata"@) {
        Some(DbType::Teradata)
    } else if scheme_contains(u, "informix"@) {
        Some(DbType::Informix)
    } else if scheme_contains(u, "athena"@) {
        Some(DbType::Athena)
    } else if scheme_contains(u, "gauss"@) {
        Some(DbType::GaussDB)
    } else if scheme_contains(u, "dameng"@) {
        Some(DbType::DM)
    } else if scheme_contains(u, "odps"@) || scheme_contains(u, "maxcompute"@) {
        Some(DbType::ODPS)
    } else if scheme_contains(u, "hologres"@) {
        Some(DbType::Hologres)
    } else {
        None
    }
}

fn starts_with_str(s: &[char], p: &str) -> (r: bool)
    ensures
        r == starts_with(s@, p@),
{
    let pv = chars_of(p);
    if pv.len() > s.len() {
        return false;
    }
    let mut i: usize = 0;
    while i < pv.len()
        invariant
            i <= pv@.len(),
            pv@ == p@,
            pv@.len() <= s@.len(),
            forall|k: int| 0 <= k < i ==> s@[k] == pv@[k],
        decreases pv.len() - i,
    {
        if s[i] != pv[i] {
            assert(s@.subrange(0, pv@.len() as int)[i as int] != pv@[i as int]);
            return false;
        }
        i = i + 1;
    }
    assert(s@.subrange(0, pv@.len() as int) =~= pv@);
    true
}

fn scheme_has(u: &[char], pat: &str) -> (r: bool)
    ensures
        r == scheme_contains(u@, pat@),
{
    let sep = chars_of("://");
    match find_chars(u, &sep) {
        Some(i) => {
            let mut head: Vec<char> = Vec::new();
            let mut k: usize = 0;
            while k < i
                invariant
                    k <= i,
                    i <= u@.len(),
                    head@ == u@.subrange(0, k as int),
                decreases i - k,
            {
                head.push(u[k]);
                k = k + 1;
            }
            let p = chars_of(pat);
            find_chars(&head, &p).is_some()
        },
        None => false,
    }
}

/// The database kind that a connection URL names, by the scheme it holds.
pub fn detect_db_type_from_url(url: &str) -> (r: Option<DbType>)
    ensures
        r == detected_db_type(lowercase_text(url@)),
{
    let low = to_lowercase(url);
    let u = chars_of(low.as_str());
    if scheme_has(&u, "mysql") {
        return Some(DbType::MySQL);
    }
    if scheme_has(&u, "postgresql") || scheme_has(&u, "postgres") {
        return Some(DbType::PostgreSQL);
    }
    if scheme_has(&u, "oracle") {
        return Some(DbType::Oracle);
    }
    if scheme_has(&u, "sqlserver") || scheme_has(&u, "mssql") {
        return Some(DbType::SqlServer);
    }
    if scheme_has(&u, "db2") && find_chars(&u, &chars_of("not-db2")).is_none() {
        return Some(DbType::DB2);
    }
    if starts_with_str(&u, "jdbc:h2") {
        return Some(DbType::H2);
    }
    if scheme_has(&u, "clickhouse") {
        return Some(DbType::ClickHouse);
    }
    if scheme_has(&u, "doris") {
        return Some(DbType::Doris);
    }
    if scheme_has(&u, "starrocks") {
        return Some(DbType::StarRocks);
    }
    if scheme_has(&u, "hive") {
        return Some(DbType::Hive);
    }
    if scheme_has(&u, "presto") {
        return Some(DbType::Presto);
    }
    if scheme_has(&u, "impala") {
        return Some(DbType::Impala);
    }
    if scheme_has(&u, "snowflake") {
        return Some(DbType::Snowflake);
    }
    if scheme_has(&u, "bigquery") {
        return Some(DbType::BigQuery);
    }
    if scheme_has(&u, "redshift") {
        return Some(DbType::Redshift);
    }
    if scheme_has(&u, "spark") {
        return Some(DbType::Spark);
    }
    if scheme_has(&u, "phoenix") {
        return Some(DbType::Phoenix);
    }
    if scheme_has(&u, "teradata") {
        return Some(DbType::Teradata);
    }
    if scheme_has(&u, "informix") {
        return Some(DbType::Informix);
    }
    if scheme_has(&u, "athena") {
        return Some(DbType::Athena);
    }
    if scheme_has(&u, "gauss") {
        return Some(DbType::GaussDB);
    }
    if scheme_has(&u, "dameng") {
        return Some(DbType::DM);
    }
    if scheme_has(&u, "odps") || scheme_has(&u, "maxcompute") {
        return Some(DbType::ODPS);
    }
    if scheme_has(&u, "hologres") {
        return Some(DbType::Hologres);
    }
    None
}

fn trim_start_chars(v: &[char]) -> (r: Vec<char>)
    ensures
        r@ == leading_trimmed(v@),
{
    let mut a: usize = 0;
    while a < v.len() && is_whitespace(v[a])
        invariant
            a <= v@.len(),
            lead_end(v@, 0) == lead_end(v@, a as int),
        decreases v.len() - a,
    {
        a = a + 1;
    }
    let mut r: Vec<char> = Vec::new();
    let mut k: usize = a;
    while k < v.len()
        invariant
            a <= k <= v@.len(),
            a == lead_end(v@, 0),
            r@ == v@.subrange(a as int, k as int),
        decreases v.len() - k,
    {
        r.push(v[k]);
        k = k + 1;
    }
    r
}

/// Whether SQL text reads data: it begins, after whitespace, with `select`
/// or `with` in any case.
pub fn is_select_sql(sql: &str) -> (r: bool)
    ensures
        r == (starts_with(ascii_lower_text(leading_trimmed(sql@)), "select"@) || starts_with(
            ascii_lower_text(leading_trimmed(sql@)),
            "with"@,
        )),
{
    let t = trim_start_chars(&chars_of(sql));
    let l = ascii_lower_chars(&t);
    starts_with_str(&l, "select") || starts_with_str(&l, "with")
}

/// Whether SQL text writes data.
pub fn is_write_sql(sql: &str) -> (r: bool)
    ensures
        r == {
            let l = ascii_lower_text(leading_trimmed(sql@));
            starts_with(l, "insert"@) || starts_with(l, "update"@) || starts_with(l, "delete"@) || starts_with(
                l,
                "replace"@,
            ) || starts_with(l, "merge"@)
        },
{
    let t = trim_start_chars(&chars_of(sql));
    let l = ascii_lower_chars(&t);
    starts_with_str(&l, "insert") || starts_with_str(&l, "update") || starts_with_str(&l, "delete")
        || starts_with_str(&l, "replace") || starts_with_str(&l, "merge")
}

/// Whether SQL text changes the schema.
pub fn is_ddl_sql(sql: &str) -> (r: bool)
    ensures
        r == {
            let l = ascii_lower_text(leading_trimmed(sql@));
            starts_with(l, "create"@) || starts_with(l, "alter"@) || starts_with(l, "drop"@) || starts_with(
                l,
                "truncate"@,
            ) || starts_with(l, "rename"@)
        },
{
    let t = trim_start_chars(&chars_of(sql));
    let l = ascii_lower_chars(&t);
    starts_with_str(&l, "create") || starts_with_str(&l, "alter") || starts_with_str(&l, "drop")
        || starts_with_str(&l, "truncate") || starts_with_str(&l, "rename")
}

/// The position of the first whitespace from `i`, or the end.
pub open spec fn word_end(s: Seq<char>, i: int) -> int
    decreases s.len() - i,
{
    if 0 <= i < s.len() && !unicode_whitespace(s[i]) {
        word_end(s, i + 1)
    } else {
        i
    }
}

/// The first word of `s`.
pub open spec fn first_word(s: Seq<char>) -> Seq<char> {
    s.subrange(0, word_end(s, 0))
}

/// The kind of statement that SQL text holds, by its first word.
pub open spec fn sql_type_of(sql: Seq<char>) -> Seq<char> {
    let t = trimmed(sql);
    let w = ascii_lower_text(first_word(t));
    if t.len() == 0 {
        "EMPTY"@
    } else if w == "select"@ || w == "with"@ {
        "SELECT"@
    } else if w == "insert"@ {
        "INSERT"@
    } else if w == "update"@ {
        "UPDATE"@
    } else if w == "delete"@ {
        "DELETE"@
    } else if w == "create"@ {
        "CREATE"@
    } else if w == "alter"@ {
        "ALTER"@
    } else if w == "drop"@ {
        "DROP"@
    } else if w == "truncate"@ {
        "TRUNCATE"@
    } else if w == "merge"@ || w == "replace"@ {
        "MERGE"@
    } else if w == "explain"@ || w == "desc"@ || w == "describe"@ {
        "EXPLAIN"@
    } else if w == "show"@ {
        "SHOW"@
    } else if w == "set"@ {
        "SET"@
    } else if w == "begin"@ {
        "TRANSACTION"@
    } else if w == "start"@ {
        if t.len() > 6 && starts_with(ascii_lower_text(leading_trimmed(t.subrange(6, t.len() as int))), "transaction"@) {
            "TRANSACTION"@
        } else {
            "OTHER"@
        }
    } else if w == "commit"@ {
        "COMMIT"@
    } else if w == "rollback"@ {
        "ROLLBACK"@
    } else if w == "grant"@ || w == "revoke"@ {
        "DCL"@
    } else if w == "call"@ || w == "execute"@ {
        "CALL"@
    } else {
        "OTHER"@
    }
}

fn eq_word(w: &[char], s: &str) -> (r: bool)
    ensures
        r == (w@ == s@),
{
    crate::text::eq_str(w, s)
}

/// The kind of statement that SQL text holds, by its first word.
pub fn get_sql_type(sql: &str) -> (r: &'static str)
    ensures
        r@ == sql_type_of(sql@),
{
    let t = trim_chars(&chars_of(sql));
    if t.len() == 0 {
        return "EMPTY";
    }
    let mut e: usize = 0;
    while e < t.len() && !is_whitespace(t[e])
        invariant
            e <= t@.len(),
            word_end(t@, 0) == word_end(t@, e as int),
        decreases t.len() - e,
    {
        e = e + 1;
    }
    let mut word: Vec<char> = Vec::new();
    let mut k: usize = 0;
    while k < e
        invariant
            k <= e <= t@.len(),
            word@ == t@.subrange(0, k as int),
        decreases e - k,
    {
        word.push(t[k]);
        k = k + 1;
    }
    let w = ascii_lower_chars(&word);
    if eq_word(&w, "select") || eq_word(&w, "with") {
        "SELECT"
    } else if eq_word(&w, "insert") {
        "INSERT"
    } else if eq_word(&w, "update") {
        "UPDATE"
    } else if eq_word(&w, "delete") {
        "DELETE"
    } else if eq_word(&w, "create") {
        "CREATE"
    } else if eq_word(&w, "alter") {
        "ALTER"
    } else if eq_word(&w, "drop") {
        "DROP"
    } else if eq_word(&w, "truncate") {
        "TRUNCATE"
    } else if eq_word(&w, "merge") || eq_word(&w, "replace") {
        "MERGE"
    } else if eq_word(&w, "explain") || eq_word(&w, "desc") || eq_word(&w, "describe") {
        "EXPLAIN"
    } else if eq_word(&w, "show") {
        "SHOW"
    } else if eq_word(&w, "set") {
        "SET"
    } else if eq_word(&w, "begin") {
        "TRANSACTION"
    } else if eq_word(&w, "start") {
        if t.len() > 6 {
            let mut rest: Vec<char> = Vec::new();
            let mut j: usize = 6;
            while j < t.len()
                invariant
                    6 <= j <= t@.len(),
                    rest@ == t@.subrange(6, j as int),
                decreases t.len() - j,
            {
                rest.push(t[j]);
                j = j + 1;
            }
            let rt = trim_start_chars(&rest);
            let rl = ascii_lower_chars(&rt);
            if starts_with_str(&rl, "transaction") {
                "TRANSACTION"
            } else {
                "OTHER"
            }
        } else {
            "OTHER"
        }
    } else if eq_word(&w, "commit") {
        "COMMIT"
    } else if eq_word(&w, "rollback") {
        "ROLLBACK"
    } else if eq_word(&w, "grant") || eq_word(&w, "revoke") {
        "DCL"
    } else if eq_word(&w, "call") || eq_word(&w, "execute") {
        "CALL"
    } else {
        "OTHER"
    }
}

} // verus!
