//! Base64 text for stored secrets (standard alphabet, `=` padding).
use vstd::prelude::*;

verus! {

/// The character of the alphabet for a 6-bit value.
pub open spec fn b64_char(i: u32) -> char {
    if i < 26 {
        ((65 + i) as u8) as char
    } else if i < 52 {
        ((97 + i - 26) as u8) as char
    } else if i < 62 {
        ((48 + i - 52) as u8) as char
    } else if i == 62 {
        '+'
    } else {
        '/'
    }
}

/// The 6-bit value of a character of the alphabet.
pub open spec fn b64_value(c: char) -> Option<u32> {
    if 'A' <= c && c <= 'Z' {
        Some((c as u32 - 65) as u32)
    } else if 'a' <= c && c <= 'z' {
        Some((c as u32 - 97 + 26) as u32)
    } else if '0' <= c && c <= '9' {
        Some((c as u32 - 48 + 52) as u32)
    } else if c == '+' {
        Some(62)
    } else if c == '/' {
        Some(63)
    } else {
        None
    }
}

/// The 24-bit number made of the chunk of up to three bytes at `i`.
pub open spec fn chunk_number(d: Seq<u8>, i: int) -> u32 {
    let b0 = d[i] as u32;
    let b1 = if i + 1 < d.len() { d[i + 1] as u32 } else { 0 };
    let b2 = if i + 2 < d.len() { d[i + 2] as u32 } else { 0 };
    (b0 << 16) | (b1 << 8) | b2
}

/// The 6-bit values written for the chunk at `i`: four for three bytes,
/// three for two, two for one.
pub open spec fn chunk_values(d: Seq<u8>, i: int) -> Seq<u32> {
    let n = chunk_number(d, i);
    if i + 2 < d.len() {
        seq![(n >> 18) & 63, (n >> 12) & 63, (n >> 6) & 63, n & 63]
    } else if i + 1 < d.len() {
        seq![(n >> 18) & 63, (n >> 12) & 63, (n >> 6) & 63]
    } else {
        seq![(n >> 18) & 63, (n >> 12) & 63]
    }
}

/// The number of chunks of three bytes (the last may be shorter).
pub open spec fn chunk_count(len: nat) -> nat {
    (len + 2) / 3
}

/// The values written for the first `k` chunks.
pub open spec fn encoded_values(d: Seq<u8>, k: nat) -> Seq<u32>
    decreases k,
{
    if k == 0 {
        Seq::empty()
    } else {
        encoded_values(d, (k - 1) as nat) + chunk_values(d, 3 * (k - 1))
    }
}

/// The `=` signs that close the text: two after one leftover byte, one
/// after two.
pub open spec fn padding(len: nat) -> Seq<char> {
    if len % 3 == 1 {
        seq!['=', '=']
    } else if len % 3 == 2 {
        seq!['=']
    } else {
        Seq::empty()
    }
}

/// The Base64 text of `d`.
pub open spec fn b64_encode(d: Seq<u8>) -> Seq<char> {
    encoded_values(d, chunk_count(d.len())).map_values(|v: u32| b64_char(v)) + padding(d.len())
}

/// `s` without its trailing `=` signs.
pub open spec fn trim_padding(s: Seq<char>) -> Seq<char>
    decreases s.len(),
{
    if s.len() > 0 && s.last() == '=' {
        trim_padding(s.drop_last())
    } else {
        s
    }
}

/// The bytes of the group of up to four values at `i`: three for four
/// values, two for three, one for two, none for one.
pub open spec fn group_bytes(v: Seq<u32>, i: int) -> Seq<u8> {
    let r = v.len() - i;
    let b0 = (((v[i] << 2) | (v[i + 1] >> 4)) & 255) as u8;
    let b1 = ((((v[i + 1] & 15) << 4) | (v[i + 2] >> 2)) & 255) as u8;
    let b2 = ((((v[i + 2] & 3) << 6) | v[i + 3]) & 255) as u8;
    if r >= 4 {
        seq![b0, b1, b2]
    } else if r == 3 {
        seq![b0, b1]
    } else if r == 2 {
        seq![b0]
    } else {
        Seq::empty()
    }
}

/// The number of groups of four values (the last may be shorter).
pub open spec fn group_count(len: nat) -> nat {
    (len + 3) / 4
}

/// The bytes of the first `g` groups.
pub open spec fn decoded_groups(v: Seq<u32>, g: nat) -> Seq<u8>
    decreases g,
{
    if g == 0 {
        Seq::empty()
    } else {
        decoded_groups(v, (g - 1) as nat) + group_bytes(v, 4 * (g - 1))
    }
}

/// The bytes of Base64 text `s`, or `None` when, once the trailing `=`
/// signs are set aside, a character is not of the alphabet.
pub open spec fn b64_decode(s: Seq<char>) -> Option<Seq<u8>> {
    let t = trim_padding(s);
    if forall|i: int| 0 <= i < t.len() ==> (#[trigger] b64_value(t[i])) is Some {
        Some(decoded_groups(t.map_values(|c: char| b64_value(c)->0), group_count(t.len())))
    } else {
        None
    }
}

/// The character of the alphabet for a 6-bit value.
fn value_char(i: u32) -> (r: char)
    requires
        i < 64,
    ensures
        r == b64_char(i),
{
    if i < 26 {
        ((65 + i) as u8) as char
    } else if i < 52 {
        ((97 + i - 26) as u8) as char
    } else if i < 62 {
        ((48 + i - 52) as u8) as char
    } else if i == 62 {
        '+'
    } else {
        '/'
    }
}

/// The 6-bit value of a character, if it is of the alphabet.
fn char_value(c: char) -> (r: Option<u32>)
    ensures
        r == b64_value(c),
{
    if 'A' <= c && c <= 'Z' {
        Some(c as u32 - 65)
    } else if 'a' <= c && c <= 'z' {
        Some(c as u32 - 97 + 26)
    } else if '0' <= c && c <= '9' {
        Some(c as u32 - 48 + 52)
    } else if c == '+' {
        Some(62)
    } else if c == '/' {
        Some(63)
    } else {
        None
    }
}

proof fn lemma_chunk_value_bounds(n: u32)
    ensures
        (n >> 18) & 63 < 64,
        (n >> 12) & 63 < 64,
        (n >> 6) & 63 < 64,
        n & 63 < 64,
{
    assert((n >> 18) & 63 < 64) by (bit_vector);
    assert((n >> 12) & 63 < 64) by (bit_vector);
    assert((n >> 6) & 63 < 64) by (bit_vector);
    assert(n & 63 < 64) by (bit_vector);
}

proof fn lemma_chunk_bits(b0: u32, b1: u32, b2: u32)
    requires
        b0 < 256,
        b1 < 256,
        b2 < 256,
    ensures
        ((((((b0 << 16) | (b1 << 8) | b2) >> 18) & 63) << 2) | (((((b0 << 16) | (b1 << 8) | b2) >> 12) & 63) >> 4)) & 255 == b0,
        (((((((b0 << 16) | (b1 << 8) | b2) >> 12) & 63) & 15) << 4) | (((((b0 << 16) | (b1 << 8) | b2) >> 6) & 63) >> 2)) & 255 == b1,
        (((((((b0 << 16) | (b1 << 8) | b2) >> 6) & 63) & 3) << 6) | (((b0 << 16) | (b1 << 8) | b2) & 63)) & 255 == b2,
{
    assert(((((((b0 << 16) | (b1 << 8) | b2) >> 18) & 63) << 2) | (((((b0 << 16) | (b1 << 8) | b2) >> 12) & 63) >> 4)) & 255 == b0) by (bit_vector)
        requires b0 < 256, b1 < 256, b2 < 256;
    assert((((((((b0 << 16) | (b1 << 8) | b2) >> 12) & 63) & 15) << 4) | (((((b0 << 16) | (b1 << 8) | b2) >> 6) & 63) >> 2)) & 255 == b1) by (bit_vector)
        requires b0 < 256, b1 < 256, b2 < 256;
    assert((((((((b0 << 16) | (b1 << 8) | b2) >> 6) & 63) & 3) << 6) | (((b0 << 16) | (b1 << 8) | b2) & 63)) & 255 == b2) by (bit_vector)
        requires b0 < 256, b1 < 256, b2 < 256;
}

proof fn lemma_value_char(i: u32)
    requires
        i < 64,
    ensures
        b64_value(b64_char(i)) == Some(i),
        b64_char(i) != '=',
{
}

proof fn lemma_encoded_len(d: Seq<u8>, k: nat)
    requires
        3 * k <= d.len(),
    ensures
        encoded_values(d, k).len() == 4 * k,
    decreases k,
{
    if k > 0 {
        lemma_encoded_len(d, (k - 1) as nat);
    }
}

proof fn lemma_encoded_prefix(d: Seq<u8>, k1: nat, k2: nat)
    requires
        k1 <= k2,
    ensures
        encoded_values(d, k1).len() <= encoded_values(d, k2).len(),
        forall|i: int| 0 <= i < encoded_values(d, k1).len() ==> encoded_values(d, k2)[i] == encoded_values(d, k1)[i],
    decreases k2,
{
    if k1 < k2 {
        lemma_encoded_prefix(d, k1, (k2 - 1) as nat);
    }
}

proof fn lemma_encoded_small(d: Seq<u8>, k: nat)
    requires
        3 * k <= d.len() + 2,
    ensures
        forall|i: int| 0 <= i < encoded_values(d, k).len() ==> #[trigger] encoded_values(d, k)[i] < 64,
    decreases k,
{
    if k > 0 {
        let prev = encoded_values(d, (k - 1) as nat);
        let cv = chunk_values(d, 3 * (k - 1));
        lemma_encoded_small(d, (k - 1) as nat);
        lemma_chunk_value_bounds(chunk_number(d, 3 * (k - 1)));
        assert(forall|t: int| 0 <= t < cv.len() ==> #[trigger] cv[t] < 64);
        assert(encoded_values(d, k) == prev + cv);
        assert forall|i: int| 0 <= i < encoded_values(d, k).len() implies #[trigger] encoded_values(d, k)[i] < 64 by {
            if i < prev.len() {
                assert(encoded_values(d, k)[i] == prev[i]);
            } else {
                assert(encoded_values(d, k)[i] == cv[i - prev.len()]);
            }
        }
    }
}

proof fn lemma_trim_padding(a: Seq<char>, p: Seq<char>)
    requires
        a.len() == 0 || a.last() != '=',
        forall|i: int| 0 <= i < p.len() ==> p[i] == '=',
    ensures
        trim_padding(a + p) == a,
    decreases p.len(),
{
    if p.len() == 0 {
        assert(a + p =~= a);
    } else {
        assert((a + p).drop_last() =~= a + p.drop_last());
        lemma_trim_padding(a, p.drop_last());
    }
}

/// The bytes of the first `g` chunks come back from their values.
proof fn lemma_groups_of_chunks(d: Seq<u8>, g: nat)
    requires
        g <= chunk_count(d.len()),
    ensures
        decoded_groups(encoded_values(d, chunk_count(d.len())), g) == d.take(
            if 3 * g <= d.len() { 3 * g as int } else { d.len() as int },
        ),
    decreases g,
{
    let kk = chunk_count(d.len());
    let v = encoded_values(d, kk);
    if g == 0 {
        assert(d.take(0) =~= Seq::<u8>::empty());
    } else {
        let j = (g - 1) as nat;
        let ji = j as int;
        lemma_groups_of_chunks(d, j);
        lemma_encoded_len(d, j);
        lemma_encoded_prefix(d, j + 1, kk);
        let cv = chunk_values(d, 3 * ji);
        assert(encoded_values(d, j + 1) == encoded_values(d, j) + cv);
        let i = 4 * ji;
        assert(forall|t: int| 0 <= t < cv.len() ==> v[i + t] == #[trigger] cv[t]) by {
            assert forall|t: int| 0 <= t < cv.len() implies v[i + t] == #[trigger] cv[t] by {
                assert(encoded_values(d, j + 1)[i + t] == cv[t]);
            }
        }
        let b0 = d[3 * ji] as u32;
        let b1 = if 3 * ji + 1 < d.len() { d[3 * ji + 1] as u32 } else { 0 };
        let b2 = if 3 * ji + 2 < d.len() { d[3 * ji + 2] as u32 } else { 0 };
        lemma_chunk_bits(b0, b1, b2);
        let lo = 3 * j as int;
        let hi = if 3 * g <= d.len() { 3 * g as int } else { d.len() as int };
        if 3 * j + 2 < d.len() {
            assert(v.len() - i >= 4);
            assert(group_bytes(v, i) =~= d.subrange(lo, hi));
        } else {
            assert(g == kk);
            assert(v == encoded_values(d, j + 1));
            assert(group_bytes(v, i) =~= d.subrange(lo, hi));
        }
        assert(d.take(hi) =~= d.take(lo) + d.subrange(lo, hi));
    }
}

/// Decoding the Base64 text of any bytes gives those bytes back.
pub proof fn lemma_base64_roundtrip(d: Seq<u8>)
    ensures
        b64_decode(b64_encode(d)) == Some(d),
{
    let kk = chunk_count(d.len());
    let v = encoded_values(d, kk);
    let ch = |x: u32| b64_char(x);
    let a = v.map_values(ch);
    lemma_encoded_small(d, kk);
    assert forall|i: int| 0 <= i < a.len() implies #[trigger] a[i] != '=' && b64_value(a[i]) == Some(v[i]) by {
        lemma_value_char(v[i]);
    }
    lemma_trim_padding(a, padding(d.len()));
    let t = trim_padding(b64_encode(d));
    assert(t == a);
    assert(t.map_values(|c: char| b64_value(c)->0) =~= v);
    // the number of groups is the number of chunks
    if kk > 0 {
        let j = (kk - 1) as nat;
        lemma_encoded_len(d, j);
        assert(v == encoded_values(d, j) + chunk_values(d, 3 * (j as int)));
        assert(group_count(v.len()) == kk);
    } else {
        assert(v.len() == 0);
    }
    lemma_groups_of_chunks(d, kk);
    assert(d.take(d.len() as int) =~= d);
}

/// The Base64 text of `data`.
pub fn base64_encode(data: &[u8]) -> (r: String)
    ensures
        r@ == b64_encode(data@),
{
    let mut out: Vec<char> = Vec::new();
    let n = data.len();
    let mut i: usize = 0;
    let ghost d = data@;
    let ghost ch = |v: u32| b64_char(v);
    let ghost mut k: nat = 0;
    while i < n
        invariant
            d == data@,
            n == d.len(),
            i <= n,
            i < n ==> i == 3 * k,
            i == n ==> k == chunk_count(n as nat),
            ch == (|v: u32| b64_char(v)),
            out@ == encoded_values(d, k).map_values(ch) + if i == n { padding(n as nat) } else { Seq::empty() },
        decreases n - i,
    {
        let b0 = data[i] as u32;
        let b1 = if i + 1 < n { data[i + 1] as u32 } else { 0 };
        let b2 = if i + 2 < n { data[i + 2] as u32 } else { 0 };
        let num = (b0 << 16) | (b1 << 8) | b2;
        assert(num == chunk_number(d, i as int));
        proof { lemma_chunk_value_bounds(num); }
        let ghost before = out@;
        out.push(value_char((num >> 18) & 0x3f));
        out.push(value_char((num >> 12) & 0x3f));
        if i + 1 < n {
            out.push(value_char((num >> 6) & 0x3f));
        } else {
            out.push('=');
        }
        if i + 2 < n {
            out.push(value_char(num & 0x3f));
        } else {
            out.push('=');
        }
        proof {
            let cv = chunk_values(d, i as int);
            let ev = encoded_values(d, k);
            assert(encoded_values(d, k + 1) == ev + cv);
            assert((ev + cv).map_values(ch) =~= ev.map_values(ch) + cv.map_values(ch));
            if i + 3 < n {
                assert(out@ =~= (ev + cv).map_values(ch));
            } else {
                assert(out@ =~= (ev + cv).map_values(ch) + padding(n as nat));
            }
            k = k + 1;
        }
        if n - i > 3 {
            i = i + 3;
        } else {
            i = n;
        }
    }
    assert(out@ =~= b64_encode(data@));
    crate::text::string_of(&out)
}

/// The bytes of Base64 text `s`, or `None` when a character other than the
/// trailing `=` signs is not of the alphabet.
pub fn base64_decode(s: &str) -> (r: Option<Vec<u8>>)
    ensures
        match b64_decode(s@) {
            None => r is None,
            Some(b) => r matches Some(v) && v@ == b,
        },
{
    let chars = crate::text::chars_of(s);
    let mut end: usize = chars.len();
    assert(s@.take(end as int) =~= s@);
    while end > 0 && chars[end - 1] == '='
        invariant
            end <= chars@.len(),
            chars@ == s@,
            trim_padding(s@) == trim_padding(s@.take(end as int)),
        decreases end,
    {
        assert(s@.take(end as int).drop_last() =~= s@.take(end as int - 1));
        end = end - 1;
    }
    let ghost t = s@.take(end as int);
    assert(trim_padding(t) == t);
    let ghost val = |c: char| b64_value(c)->0;
    let mut vals: Vec<u32> = Vec::new();
    let mut i: usize = 0;
    while i < end
        invariant
            i <= end,
            end <= chars@.len(),
            chars@ == s@,
            t == s@.take(end as int),
            trim_padding(s@) == t,
            val == (|c: char| b64_value(c)->0),
            vals@ == t.take(i as int).map_values(val),
            forall|k: int| 0 <= k < i ==> (#[trigger] b64_value(t[k])) is Some,
            forall|k: int| 0 <= k < i ==> #[trigger] vals@[k] < 64,
        decreases end - i,
    {
        match char_value(chars[i]) {
            None => {
                assert(!(b64_value(t[i as int]) is Some));
                return None;
            },
            Some(v) => {
                assert(t.take(i as int + 1) =~= t.take(i as int).push(t[i as int]));
                vals.push(v);
                assert(t.take(i as int + 1).map_values(val) =~= t.take(i as int).map_values(val).push(v));
            },
        }
        i = i + 1;
    }
    assert(t.take(end as int) =~= t);
    let ghost vs = vals@;
    let m = vals.len();
    let mut out: Vec<u8> = Vec::new();
    let mut j: usize = 0;
    let ghost mut g: nat = 0;
    while j < m
        invariant
            vs == vals@,
            m == vs.len(),
            j <= m,
            j < m ==> j == 4 * g,
            j == m ==> g == group_count(m as nat),
            forall|k: int| 0 <= k < m ==> #[trigger] vs[k] < 64,
            out@ == decoded_groups(vs, g),
        decreases m - j,
    {
        let r = m - j;
        let v0 = vals[j];
        let v1 = if r >= 2 { vals[j + 1] } else { 0 };
        let v2 = if r >= 3 { vals[j + 2] } else { 0 };
        let v3 = if r >= 4 { vals[j + 3] } else { 0 };
        let ghost before = out@;
        if r >= 2 {
            out.push((((v0 << 2) | (v1 >> 4)) & 255) as u8);
        }
        if r >= 3 {
            out.push(((((v1 & 15) << 4) | (v2 >> 2)) & 255) as u8);
        }
        if r >= 4 {
            out.push(((((v2 & 3) << 6) | v3) & 255) as u8);
        }
        proof {
            assert(out@ =~= before + group_bytes(vs, j as int));
            g = g + 1;
        }
        if r > 4 {
            j = j + 4;
        } else {
            j = m;
        }
    }
    Some(out)
}

} // verus!
