//! Text shown by the monitoring console.
use vstd::prelude::*;
use crate::stat::SqlStat;
use crate::text::{decimal_text, push_decimal, push_str, string_of};

verus! {

/// What one character becomes in HTML text: the five characters with a
/// meaning in markup become entities, the others stay.
pub open spec fn html_char(c: char) -> Seq<char> {
    if c == '&' {
        seq!['&', 'a', 'm', 'p', ';']
    } else if c == '<' {
        seq!['&', 'l', 't', ';']
    } else if c == '>' {
        seq!['&', 'g', 't', ';']
    } else if c == '"' {
        seq!['&', 'q', 'u', 'o', 't', ';']
    } else if c == '\'' {
        seq!['&', '#', 'x', '2', '7', ';']
    } else {
        seq![c]
    }
}

/// `s` with each character replaced as [`html_char`] says.
pub open spec fn html_text(s: Seq<char>) -> Seq<char>
    decreases s.len(),
{
    if s.len() == 0 {
        Seq::empty()
    } else {
        html_text(s.drop_last()) + html_char(s.last())
    }
}

/// `s` made safe to place in HTML text.
pub fn html_escape(s: &str) -> (r: String)
    ensures
        r@ == html_text(s@),
{
    let mut out: Vec<char> = Vec::new();
    let ghost src = s@;
    for c in it: s.chars()
        invariant
            it.seq() == src,
            out@ == html_text(src.take(it.index() as int)),
    {
        let ghost done = it.index() as int;
        assert(src.take(done + 1).drop_last() =~= src.take(done));
        if c == '&' {
            out.push('&');
            out.push('a');
            out.push('m');
            out.push('p');
            out.push(';');
        } else if c == '<' {
            out.push('&');
            out.push('l');
            out.push('t');
            out.push(';');
        } else if c == '>' {
            out.push('&');
            out.push('g');
            out.push('t');
            out.push(';');
        } else if c == '"' {
            out.push('&');
            out.push('q');
            out.push('u');
            out.push('o');
            out.push('t');
            out.push(';');
        } else if c == '\'' {
            out.push('&');
            out.push('#');
            out.push('x');
            out.push('2');
            out.push('7');
            out.push(';');
        } else {
            out.push(c);
        }
        assert(out@ =~= html_text(src.take(done + 1)));
    }
    assert(src.take(src.len() as int) =~= src);
    string_of(&out)
}

/// The most statements the console's table shows.
pub const TABLE_ROWS: usize = 20;

/// The table row of one statistic: its escaped text, executions, total and
/// largest time, errors, and last execution (`-` when there was none).
pub open spec fn row_text(s: SqlStat) -> Seq<char> {
    "<tr><td>"@ + html_text(s.sql@) + "</td><td>"@ + decimal_text(s.execute_count as nat) + "</td><td>"@
        + decimal_text(s.total_time_ms as nat) + "ms</td><td>"@ + decimal_text(s.max_time_ms as nat)
        + "ms</td><td>"@ + decimal_text(s.error_count as nat) + "</td><td>"@ + match s.last_execute_time {
        Some(t) => t@,
        None => "-"@,
    } + "</td></tr>"@
}

/// The rows of the first `n` statistics.
pub open spec fn rows_text(stats: Seq<SqlStat>, n: nat) -> Seq<char>
    decreases n,
{
    if n == 0 || n > stats.len() {
        Seq::empty()
    } else {
        rows_text(stats, (n - 1) as nat) + row_text(stats[n - 1])
    }
}

/// The console table's rows for the first [`TABLE_ROWS`] statistics.
pub fn render_rows(stats: &[SqlStat]) -> (r: String)
    ensures
        r@ == rows_text(stats@, if stats@.len() < 20 { stats@.len() } else { 20 }),
{
    let mut out: Vec<char> = Vec::new();
    let n = if stats.len() < TABLE_ROWS { stats.len() } else { TABLE_ROWS };
    let mut i: usize = 0;
    while i < n
        invariant
            n <= stats@.len(),
            n <= 20,
            i <= n,
            out@ == rows_text(stats@, i as nat),
        decreases n - i,
    {
        let s = &stats[i];
        let ghost before = out@;
        push_str(&mut out, "<tr><td>");
        let esc = html_escape(s.sql.as_str());
        push_str(&mut out, esc.as_str());
        push_str(&mut out, "</td><td>");
        push_decimal(&mut out, s.execute_count);
        push_str(&mut out, "</td><td>");
        push_decimal(&mut out, s.total_time_ms);
        push_str(&mut out, "ms</td><td>");
        push_decimal(&mut out, s.max_time_ms);
        push_str(&mut out, "ms</td><td>");
        push_decimal(&mut out, s.error_count);
        push_str(&mut out, "</td><td>");
        match &s.last_execute_time {
            Some(t) => push_str(&mut out, t.as_str()),
            None => push_str(&mut out, "-"),
        }
        push_str(&mut out, "</td></tr>");
        assert(out@ =~= before + row_text(stats@[i as int]));
        i = i + 1;
    }
    string_of(&out)
}

/// Escaped text holds none of the characters `<`, `>`, `"` and `'`.
pub proof fn lemma_html_text_has_no_markup(s: Seq<char>)
    ensures
        forall|i: int| 0 <= i < html_text(s).len() ==> {
            let c = #[trigger] html_text(s)[i];
            c != '<' && c != '>' && c != '"' && c != '\''
        },
    decreases s.len(),
{
    if s.len() > 0 {
        lemma_html_text_has_no_markup(s.drop_last());
        let a = html_text(s.drop_last());
        let b = html_char(s.last());
        assert forall|i: int| 0 <= i < html_text(s).len() implies {
            let c = #[trigger] html_text(s)[i];
            c != '<' && c != '>' && c != '"' && c != '\''
        } by {
            if i < a.len() {
                assert(html_text(s)[i] == a[i]);
            } else {
                assert(html_text(s)[i] == b[i - a.len()]);
            }
        }
    }
}

} // verus!
