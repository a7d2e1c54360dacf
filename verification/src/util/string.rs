//! Converting names between styles, filling in SQL parameters, reading
//! property lists and shortening SQL for logs.
use vstd::prelude::*;
use crate::text::{
    chars_of, decimal_text, find_chars, first_match, is_lowercase, is_uppercase, lower_first, push_chars,
    push_decimal_usize, push_str, same_text, string_of, to_lower_first, to_upper_first, trim_chars, trimmed,
    unicode_lowercase, unicode_uppercase, upper_first,
};
use crate::util::sql::{byte_len, utf8_width};

verus! {

/// What `camel_to_snake` writes for the character at `i`: a lower-case form
/// of an upper-case letter, after `_` where a new word begins.
pub open spec fn snake_piece(s: Seq<char>, i: int) -> Seq<char> {
    if unicode_uppercase(s[i]) {
        (if i > 0 && (!unicode_uppercase(s[i - 1]) || (i + 1 < s.len() && unicode_lowercase(s[i + 1]))) {
            seq!['_']
        } else {
            Seq::empty()
        }).push(lower_first(s[i]))
    } else {
        seq![s[i]]
    }
}

/// The pieces of the first `n` characters.
pub open spec fn snake_prefix(s: Seq<char>, n: int) -> Seq<char>
    decreases n,
{
    if n <= 0 {
        Seq::empty()
    } else {
        snake_prefix(s, n - 1) + snake_piece(s, n - 1)
    }
}

/// Converts `camelCase` to `snake_case`; a run of capitals is one word
/// (`URLParser` gives `url_parser`).
pub fn camel_to_snake(s: &str) -> (r: String)
    ensures
        r@ == snake_prefix(s@, s@.len() as int),
{
    let cs = chars_of(s);
    let mut out: Vec<char> = Vec::new();
    let mut i: usize = 0;
    while i < cs.len()
        invariant
            i <= cs@.len(),
            cs@ == s@,
            out@ == snake_prefix(s@, i as int),
        decreases cs.len() - i,
    {
        let c = cs[i];
        let ghost before = out@;
        if is_uppercase(c) {
            if i > 0 && (!is_uppercase(cs[i - 1]) || (i + 1 < cs.len() && is_lowercase(cs[i + 1]))) {
                out.push('_');
            }
            out.push(to_lower_first(c));
        } else {
            out.push(c);
        }
        assert(out@ =~= before + snake_piece(s@, i as int));
        i = i + 1;
    }
    string_of(&out)
}

/// The text of the first `n` characters converted, and whether the next
/// letter is to be capitalized.
pub open spec fn camel_prefix(s: Seq<char>, n: int) -> (Seq<char>, bool)
    decreases n,
{
    if n <= 0 {
        (Seq::empty(), false)
    } else {
        let (t, cap) = camel_prefix(s, n - 1);
        let c = s[n - 1];
        if c == '_' {
            (t, true)
        } else if cap {
            (t.push(upper_first(c)), false)
        } else {
            (t.push(c), false)
        }
    }
}

/// Converts `snake_case` to `camelCase`: each `_` is dropped and the letter
/// after it capitalized.
pub fn snake_to_camel(s: &str) -> (r: String)
    ensures
        r@ == camel_prefix(s@, s@.len() as int).0,
{
    let cs = chars_of(s);
    let mut out: Vec<char> = Vec::new();
    let mut cap = false;
    let mut i: usize = 0;
    while i < cs.len()
        invariant
            i <= cs@.len(),
            cs@ == s@,
            (out@, cap) == camel_prefix(s@, i as int),
        decreases cs.len() - i,
    {
        let c = cs[i];
        if c == '_' {
            cap = true;
        } else if cap {
            out.push(to_upper_first(c));
            cap = false;
        } else {
            out.push(c);
        }
        i = i + 1;
    }
    string_of(&out)
}

/// `s` with every occurrence of `p`, left to right and not overlapping,
/// replaced by `r`, as `str::replace` does for a pattern that is not empty.
pub open spec fn replace_all(s: Seq<char>, p: Seq<char>, r: Seq<char>) -> Seq<char>
    decreases s.len(),
{
    if p.len() == 0 {
        s
    } else {
        match first_match(s, p) {
            Some(i) => if 0 <= i && i + p.len() <= s.len() {
                s.subrange(0, i) + r + replace_all(s.subrange(i + p.len(), s.len() as int), p, r)
            } else {
                s
            },
            None => s,
        }
    }
}

/// Replaces every occurrence of a pattern that is not empty.
pub fn replace_chars(s: &[char], p: &[char], r: &[char]) -> (out: Vec<char>)
    requires
        p@.len() > 0,
    ensures
        out@ == replace_all(s@, p@, r@),
{
    let mut out: Vec<char> = Vec::new();
    let mut rest: Vec<char> = Vec::new();
    push_chars(&mut rest, s);
    loop
        invariant
            p@.len() > 0,
            out@ + replace_all(rest@, p@, r@) == replace_all(s@, p@, r@),
        decreases rest@.len(),
    {
        let found = find_chars(&rest, p);
        match found {
            Some(i) => {
                let ghost old_rest = rest@;
                let ghost o0 = out@;
                let rl = rest.len();
                assert(i + p@.len() <= rl);
                let mut k: usize = 0;
                while k < i
                    invariant
                        k <= i,
                        i + p@.len() <= rest@.len(),
                        rest@ == old_rest,
                        out@ == o0 + rest@.subrange(0, k as int),
                    decreases i - k,
                {
                    out.push(rest[k]);
                    k = k + 1;
                }
                push_chars(&mut out, r);
                let mut tail: Vec<char> = Vec::new();
                let mut j: usize = i + p.len();
                while j < rest.len()
                    invariant
                        i + p@.len() <= j <= rest@.len(),
                        tail@ == rest@.subrange(i + p@.len(), j as int),
                    decreases rest.len() - j,
                {
                    tail.push(rest[j]);
                    j = j + 1;
                }
                assert(replace_all(old_rest, p@, r@) == old_rest.subrange(0, i as int) + r@ + replace_all(
                    tail@,
                    p@,
                    r@,
                ));
                assert(out@ + replace_all(tail@, p@, r@) =~= o0 + replace_all(old_rest, p@, r@));
                rest = tail;
            },
            None => {
                assert(replace_all(rest@, p@, r@) == rest@);
                push_chars(&mut out, &rest);
                return out;
            },
        }
    }
}

/// The place holder that stands for parameter `i` while parameters are put in.
pub open spec fn param_marker(i: nat) -> Seq<char> {
    "\x00PARAM\x00"@ + decimal_text(i) + "\x00PARAM\x00"@
}

/// A parameter as an SQL string literal: in single quotes, each quote doubled.
pub open spec fn quoted_param(p: Seq<char>) -> Seq<char> {
    "'"@ + replace_all(p, "'"@, "''"@) + "'"@
}

/// The text with the first `n` `?` marks (while parameters last) replaced by
/// place holders, and how many were replaced.
pub open spec fn marked(s: Seq<char>, nparams: nat, n: int) -> (Seq<char>, nat)
    decreases n,
{
    if n <= 0 {
        (Seq::empty(), 0)
    } else {
        let (t, k) = marked(s, nparams, n - 1);
        if s[n - 1] == '?' && k < nparams {
            (t + param_marker(k), k + 1)
        } else {
            (t.push(s[n - 1]), k)
        }
    }
}

/// The text after the place holders of the first `n` parameters were
/// replaced by the parameters.
pub open spec fn filled(t: Seq<char>, ps: Seq<Seq<char>>, n: int) -> Seq<char>
    decreases n,
{
    if n <= 0 {
        t
    } else {
        replace_all(filled(t, ps, n - 1), param_marker((n - 1) as nat), quoted_param(ps[n - 1]))
    }
}

/// The result of `substitute_params`.
pub open spec fn substituted(sql: Seq<char>, ps: Seq<Seq<char>>) -> Seq<char> {
    let (t, k) = marked(sql, ps.len(), sql.len() as int);
    filled(t, ps, k as int)
}

fn marker_chars(i: usize) -> (r: Vec<char>)
    ensures
        r@ == param_marker(i as nat),
{
    let mut m: Vec<char> = Vec::new();
    push_str(&mut m, "\x00PARAM\x00");
    push_decimal_usize(&mut m, i);
    push_str(&mut m, "\x00PARAM\x00");
    m
}

/// Puts parameters in for `?` marks, in order, each as a quoted SQL string;
/// a `?` inside a parameter is not replaced again.
pub fn substitute_params(sql: &str, params: &[&str]) -> (r: String)
    ensures
        r@ == substituted(sql@, Seq::new(params@.len(), |i: int| params@[i]@)),
{
    let ghost ps = Seq::new(params@.len(), |i: int| params@[i]@);
    let cs = chars_of(sql);
    let mut t: Vec<char> = Vec::new();
    let mut k: usize = 0;
    let mut i: usize = 0;
    while i < cs.len()
        invariant
            i <= cs@.len(),
            cs@ == sql@,
            (t@, k as nat) == marked(sql@, ps.len(), i as int),
            k <= params@.len(),
            ps == Seq::new(params@.len(), |i: int| params@[i]@),
        decreases cs.len() - i,
    {
        if cs[i] == '?' && k < params.len() {
            let m = marker_chars(k);
            push_chars(&mut t, &m);
            k = k + 1;
        } else {
            t.push(cs[i]);
        }
        i = i + 1;
    }
    let mut j: usize = 0;
    while j < k
        invariant
            j <= k <= params@.len(),
            t@ == filled(marked(sql@, ps.len(), sql@.len() as int).0, ps, j as int),
            ps == Seq::new(params@.len(), |i: int| params@[i]@),
        decreases k - j,
    {
        let p = chars_of(params[j]);
        let quote = chars_of("'");
        let twice = chars_of("''");
        proof {
            reveal_strlit("'");
        }
        let inner = replace_chars(&p, &quote, &twice);
        let mut q: Vec<char> = Vec::new();
        q.push('\'');
        push_chars(&mut q, &inner);
        q.push('\'');
        assert(q@ =~= quoted_param(ps[j as int]));
        let m = marker_chars(j);
        proof {
            reveal_strlit("\x00PARAM\x00");
        }
        assert(m@.len() > 0);
        t = replace_chars(&t, &m, &q);
        j = j + 1;
    }
    string_of(&t)
}


/// The effect of one `key=value` item on the properties read so far: both
/// sides trimmed, split at the first `=`; an item without `=` is skipped.
pub open spec fn apply_item(m: Map<Seq<char>, Seq<char>>, item: Seq<char>) -> Map<Seq<char>, Seq<char>> {
    let t = trimmed(item);
    match first_match(t, "="@) {
        Some(j) => if 0 <= j < t.len() {
            m.insert(trimmed(t.subrange(0, j)), trimmed(t.subrange(j + 1, t.len() as int)))
        } else {
            m
        },
        None => m,
    }
}

/// The properties read from the items of `s`, separated by `;`, after `m`;
/// a later item with the same key wins.
pub open spec fn props_from(m: Map<Seq<char>, Seq<char>>, s: Seq<char>) -> Map<Seq<char>, Seq<char>>
    decreases s.len(),
{
    match first_match(s, ";"@) {
        Some(i) => if 0 <= i < s.len() {
            props_from(apply_item(m, s.subrange(0, i)), s.subrange(i + 1, s.len() as int))
        } else {
            apply_item(m, s)
        },
        None => apply_item(m, s),
    }
}

/// The map that a list of entries stands for: a later entry wins.
pub open spec fn entries_map(es: Seq<(String, String)>, n: int) -> Map<Seq<char>, Seq<char>>
    decreases n,
{
    if n <= 0 {
        Map::empty()
    } else {
        entries_map(es, n - 1).insert(es[n - 1].0@, es[n - 1].1@)
    }
}

/// Connection properties read from `key1=value1;key2=value2`.
pub struct Properties {
    entries: Vec<(String, String)>,
}

impl View for Properties {
    type V = Map<Seq<char>, Seq<char>>;

    closed spec fn view(&self) -> Map<Seq<char>, Seq<char>> {
        entries_map(self.entries@, self.entries@.len() as int)
    }
}

impl Properties {
    /// The value of a key, if it was given.
    pub fn get(&self, key: &str) -> (r: Option<String>)
        ensures
            match r {
                Some(v) => self@.dom().contains(key@) && v@ == self@[key@],
                None => !self@.dom().contains(key@),
            },
    {
        let ghost es = self.entries@;
        let mut i: usize = self.entries.len();
        while i > 0
            invariant
                i <= es.len(),
                es == self.entries@,
                entries_map(es, es.len() as int).dom().contains(key@) == entries_map(es, i as int).dom().contains(
                    key@,
                ),
                entries_map(es, i as int).dom().contains(key@) ==> entries_map(es, es.len() as int)[key@]
                    == entries_map(es, i as int)[key@],
            decreases i,
        {
            if same_text(self.entries[i - 1].0.as_str(), key) {
                return Some(string_of(&chars_of(self.entries[i - 1].1.as_str())));
            }
            i = i - 1;
        }
        None
    }
}

fn slice_of(v: &[char], a: usize, b: usize) -> (r: Vec<char>)
    requires
        a <= b <= v@.len(),
    ensures
        r@ == v@.subrange(a as int, b as int),
{
    let mut r: Vec<char> = Vec::new();
    let mut k: usize = a;
    while k < b
        invariant
            a <= k <= b <= v@.len(),
            r@ == v@.subrange(a as int, k as int),
        decreases b - k,
    {
        r.push(v[k]);
        k = k + 1;
    }
    r
}

fn add_item(out: &mut Vec<(String, String)>, item: &[char])
    ensures
        entries_map(final(out)@, final(out)@.len() as int) == apply_item(
            entries_map(old(out)@, old(out)@.len() as int),
            item@,
        ),
{
    let t = trim_chars(item);
    let eq = chars_of("=");
    proof {
        reveal_strlit("=");
    }
    let found = find_chars(&t, &eq);
    match found {
        Some(j) => {
            let k = trim_chars(&slice_of(&t, 0, j));
            let tl = t.len();
            assert(j + 1 <= tl);
            let v = trim_chars(&slice_of(&t, j + 1, tl));
            let ghost before = out@;
            out.push((string_of(&k), string_of(&v)));
            assert(out@.subrange(0, out@.len() - 1) =~= before);
            assert(entries_map(out@, out@.len() as int) == entries_map(before, before.len() as int).insert(
                k@,
                v@,
            )) by {
                assert(forall|n: int| 0 <= n <= before.len() ==> entries_map(out@, n) == entries_map(before, n)) by {
                    assert forall|n: int| 0 <= n <= before.len() implies entries_map(out@, n) == entries_map(
                        before,
                        n,
                    ) by {
                        lemma_entries_prefix(out@, before, n);
                    }
                }
            }
        },
        None => {},
    }
}

proof fn lemma_entries_prefix(a: Seq<(String, String)>, b: Seq<(String, String)>, n: int)
    requires
        0 <= n <= b.len() <= a.len(),
        forall|i: int| 0 <= i < b.len() ==> a[i] == b[i],
    ensures
        entries_map(a, n) == entries_map(b, n),
    decreases n,
{
    if n > 0 {
        lemma_entries_prefix(a, b, n - 1);
    }
}

/// Reads connection properties `key1=value1;key2=value2`: items separated by
/// `;`, each split at its first `=`, both sides trimmed; items without `=`
/// are skipped and a later item wins.
pub fn parse_properties(prop_str: &str) -> (r: Properties)
    ensures
        r@ == props_from(Map::empty(), prop_str@),
{
    let mut out: Vec<(String, String)> = Vec::new();
    let mut rest = chars_of(prop_str);
    let semi = chars_of(";");
    loop
        invariant
            semi@ == ";"@,
            props_from(entries_map(out@, out@.len() as int), rest@) == props_from(Map::empty(), prop_str@),
        decreases rest@.len(),
    {
        let found = find_chars(&rest, &semi);
        match found {
            Some(i) => {
                proof {
                    reveal_strlit(";");
                }
                let item = slice_of(&rest, 0, i);
                add_item(&mut out, &item);
                let rl = rest.len();
                assert(i + 1 <= rl);
                rest = slice_of(&rest, i + 1, rl);
            },
            None => {
                add_item(&mut out, &rest);
                return Properties { entries: out };
            },
        }
    }
}

/// The length of `c` in UTF-8.
fn utf8_width_of(c: char) -> (r: usize)
    ensures
        r == utf8_width(c),
{
    if (c as u32) < 0x80 {
        1
    } else if (c as u32) < 0x800 {
        2
    } else if (c as u32) < 0x10000 {
        3
    } else {
        4
    }
}

/// Shortens SQL for a log line: text longer than `max_len` bytes is cut to
/// its first `max_len` characters, followed by `...`.
pub fn truncate_sql(sql: &str, max_len: usize) -> (r: String)
    ensures
        r@ == (if byte_len(sql@) <= max_len {
            sql@
        } else {
            sql@.subrange(0, if max_len < sql@.len() { max_len as int } else { sql@.len() as int }) + "..."@
        }),
{
    let cs = chars_of(sql);
    let mut total: usize = 0;
    let mut i: usize = 0;
    let mut over = false;
    while i < cs.len()
        invariant_except_break
            !over,
        invariant
            i <= cs@.len(),
            cs@ == sql@,
            total == byte_len(sql@.subrange(0, i as int)),
            total <= max_len,
        ensures
            over ==> byte_len(sql@) > max_len,
            !over ==> i == cs@.len() && total == byte_len(sql@.subrange(0, i as int)) && total <= max_len,
        decreases cs.len() - i,
    {
        let w = utf8_width_of(cs[i]);
        assert(sql@.subrange(0, i + 1).drop_last() =~= sql@.subrange(0, i as int));
        if w > max_len - total {
            proof {
                lemma_byte_len_prefix(sql@, i + 1);
            }
            over = true;
            break;
        }
        total = total + w;
        i = i + 1;
    }
    if !over {
        assert(sql@.subrange(0, sql@.len() as int) =~= sql@);
        return string_of(&cs);
    }
    let n = if max_len < cs.len() {
        max_len
    } else {
        cs.len()
    };
    let mut out = slice_of(&cs, 0, n);
    push_str(&mut out, "...");
    string_of(&out)
}

/// A prefix has no more bytes than the whole.
proof fn lemma_byte_len_prefix(s: Seq<char>, k: int)
    requires
        0 <= k <= s.len(),
    ensures
        byte_len(s.subrange(0, k)) <= byte_len(s),
    decreases s.len() - k,
{
    if k < s.len() {
        lemma_byte_len_prefix(s, k + 1);
        assert(s.subrange(0, k + 1).drop_last() =~= s.subrange(0, k));
    } else {
        assert(s.subrange(0, k) =~= s);
    }
}

} // verus!
