//! The SQL lexer: characters in, tokens out.
use vstd::prelude::*;
use crate::text::{
    ascii_digit, chars_of, is_alphabetic, is_alphanumeric, is_ascii_digit, is_whitespace,
    string_of, unicode_alphabetic, unicode_alphanumeric, unicode_whitespace,
};
use crate::sql::token::{keyword_of, lookup_keyword, Kw, SpecToken, Token};

verus! {

/// The character at `i`, if `i` is inside the text.
pub open spec fn char_at(cs: Seq<char>, i: int) -> Option<char> {
    if 0 <= i < cs.len() {
        Some(cs[i])
    } else {
        None
    }
}

/// Where the run of whitespace that starts at `i` ends.
pub open spec fn ws_end(cs: Seq<char>, i: int) -> int
    decreases cs.len() - i,
{
    if 0 <= i < cs.len() && unicode_whitespace(cs[i]) {
        ws_end(cs, i + 1)
    } else {
        i
    }
}

proof fn lemma_ws_end(cs: Seq<char>, i: int)
    requires
        0 <= i <= cs.len(),
    ensures
        i <= ws_end(cs, i) <= cs.len(),
    decreases cs.len() - i,
{
    if i < cs.len() && unicode_whitespace(cs[i]) {
        lemma_ws_end(cs, i + 1);
    }
}

/// Characters that start a name or a keyword: a letter (in ASCII, `a` to
/// `z` and `A` to `Z`) or `_`.
pub open spec fn word_start(c: char) -> bool {
    if (c as u32) < 128 {
        ('a' <= c <= 'z') || ('A' <= c <= 'Z') || c == '_'
    } else {
        unicode_alphabetic(c) || c == '_'
    }
}

/// Characters that continue an identifier.
pub open spec fn ident_char(c: char) -> bool {
    unicode_alphanumeric(c) || c == '_'
}

proof fn lemma_number_end(cs: Seq<char>, i: int, dot: bool)
    requires
        0 <= i <= cs.len(),
    ensures
        i <= number_end(cs, i, dot) <= cs.len(),
    decreases cs.len() - i,
{
    if i < cs.len() && ascii_digit(cs[i]) {
        lemma_number_end(cs, i + 1, dot);
    } else if i < cs.len() && cs[i] == '.' && !dot {
        lemma_number_end(cs, i + 1, true);
    }
}

/// Where the run of identifier characters that starts at `i` ends.
pub open spec fn ident_end(cs: Seq<char>, i: int) -> int
    decreases cs.len() - i,
{
    if 0 <= i < cs.len() && ident_char(cs[i]) {
        ident_end(cs, i + 1)
    } else {
        i
    }
}

/// Where a number that continues at `i` ends: digits, and at most one dot.
pub open spec fn number_end(cs: Seq<char>, i: int, dot: bool) -> int
    decreases cs.len() - i,
{
    if 0 <= i < cs.len() && ascii_digit(cs[i]) {
        number_end(cs, i + 1, dot)
    } else if 0 <= i < cs.len() && cs[i] == '.' && !dot {
        number_end(cs, i + 1, true)
    } else {
        i
    }
}

/// The body of a quoted string that starts at `i` (after the opening quote),
/// with `\` escaping the next character, and the position after it.
pub open spec fn string_body(cs: Seq<char>, i: int, q: char) -> (Seq<char>, int)
    decreases cs.len() - i,
{
    if i < 0 || i >= cs.len() {
        (Seq::empty(), cs.len() as int)
    } else if cs[i] == '\\' {
        if i + 1 < cs.len() {
            let r = string_body(cs, i + 2, q);
            (seq![cs[i + 1]] + r.0, r.1)
        } else {
            (seq!['\\'], cs.len() as int)
        }
    } else if cs[i] == q {
        (Seq::empty(), i + 1)
    } else {
        let r = string_body(cs, i + 1, q);
        (seq![cs[i]] + r.0, r.1)
    }
}

/// The body of a quoted identifier that starts at `i`, where a doubled quote
/// stands for one quote, and the position after it.
pub open spec fn quoted_body(cs: Seq<char>, i: int, q: char) -> (Seq<char>, int)
    decreases cs.len() - i,
{
    if i < 0 || i >= cs.len() {
        (Seq::empty(), cs.len() as int)
    } else if cs[i] == q {
        if i + 1 < cs.len() && cs[i + 1] == q {
            let r = quoted_body(cs, i + 2, q);
            (seq![q] + r.0, r.1)
        } else {
            (Seq::empty(), i + 1)
        }
    } else {
        let r = quoted_body(cs, i + 1, q);
        (seq![cs[i]] + r.0, r.1)
    }
}

/// The rest of a line from `i`, without the line end, and the position after
/// the line end.
pub open spec fn line_body(cs: Seq<char>, i: int) -> (Seq<char>, int)
    decreases cs.len() - i,
{
    if i < 0 || i >= cs.len() {
        (Seq::empty(), cs.len() as int)
    } else if cs[i] == '\n' {
        (Seq::empty(), i + 1)
    } else {
        let r = line_body(cs, i + 1);
        (seq![cs[i]] + r.0, r.1)
    }
}

/// The body of a block comment from `i` at nesting `depth`: nested markers
/// are kept, the closing marker of the outermost level is not.
pub open spec fn block_body(cs: Seq<char>, i: int, depth: nat) -> (Seq<char>, int)
    decreases cs.len() - i,
{
    if i < 0 || i >= cs.len() {
        (Seq::empty(), cs.len() as int)
    } else if cs[i] == '/' && char_at(cs, i + 1) == Some('*') {
        let r = block_body(cs, i + 2, depth + 1);
        (seq!['/', '*'] + r.0, r.1)
    } else if cs[i] == '*' && char_at(cs, i + 1) == Some('/') {
        if depth <= 1 {
            (Seq::empty(), i + 2)
        } else {
            let r = block_body(cs, i + 2, (depth - 1) as nat);
            (seq!['*', '/'] + r.0, r.1)
        }
    } else {
        let r = block_body(cs, i + 1, depth);
        (seq![cs[i]] + r.0, r.1)
    }
}

/// The word at `q`: a keyword when it spells one, else an identifier.
pub open spec fn word_token(w: Seq<char>) -> SpecToken {
    match keyword_of(w) {
        Some(k) => SpecToken::Kw(k),
        None => SpecToken::Ident(w),
    }
}

/// Operators and punctuation at `q`, with the position after them.
pub open spec fn op_token(cs: Seq<char>, q: int) -> (SpecToken, int) {
    let c = cs[q];
    let n = char_at(cs, q + 1);
    if c == '?' {
        (SpecToken::Kw(Kw::Placeholder), q + 1)
    } else if c == '=' {
        (SpecToken::Kw(Kw::Eq), q + 1)
    } else if c == '<' {
        if n == Some('>') {
            (SpecToken::Kw(Kw::Neq), q + 2)
        } else if n == Some('=') {
            (SpecToken::Kw(Kw::Leq), q + 2)
        } else {
            (SpecToken::Kw(Kw::Lt), q + 1)
        }
    } else if c == '>' {
        if n == Some('=') {
            (SpecToken::Kw(Kw::Geq), q + 2)
        } else {
            (SpecToken::Kw(Kw::Gt), q + 1)
        }
    } else if c == '+' {
        (SpecToken::Kw(Kw::Plus), q + 1)
    } else if c == '-' {
        if n == Some('>') {
            (SpecToken::Kw(Kw::Arrow), q + 2)
        } else {
            (SpecToken::Kw(Kw::Minus), q + 1)
        }
    } else if c == '*' {
        (SpecToken::Kw(Kw::Mul), q + 1)
    } else if c == '/' {
        (SpecToken::Kw(Kw::Div), q + 1)
    } else if c == '%' {
        (SpecToken::Kw(Kw::Mod), q + 1)
    } else if c == '.' {
        (SpecToken::Kw(Kw::Dot), q + 1)
    } else if c == ',' {
        (SpecToken::Kw(Kw::Comma), q + 1)
    } else if c == ';' {
        (SpecToken::Kw(Kw::Semicolon), q + 1)
    } else if c == '(' {
        (SpecToken::Kw(Kw::LParen), q + 1)
    } else if c == ')' {
        (SpecToken::Kw(Kw::RParen), q + 1)
    } else if c == '[' {
        (SpecToken::Kw(Kw::LBracket), q + 1)
    } else if c == ']' {
        (SpecToken::Kw(Kw::RBracket), q + 1)
    } else if c == ':' {
        if n == Some(':') {
            (SpecToken::Kw(Kw::DoubleColon), q + 2)
        } else if n == Some('=') {
            (SpecToken::Kw(Kw::Assign), q + 2)
        } else {
            (SpecToken::Ident(seq![':']), q + 1)
        }
    } else if c == '|' {
        if n == Some('|') {
            (SpecToken::Kw(Kw::Concat), q + 2)
        } else {
            (SpecToken::Ident(seq!['|']), q + 1)
        }
    } else {
        (SpecToken::Ident(seq![c]), q + 1)
    }
}

/// The token that starts at or after position `p` (whitespace skipped), and
/// the position after it.
pub open spec fn lex(cs: Seq<char>, p: int) -> (SpecToken, int) {
    let q = ws_end(cs, p);
    if q < 0 || q >= cs.len() {
        (SpecToken::Kw(Kw::Eof), q)
    } else {
        let c = cs[q];
        let n = char_at(cs, q + 1);
        if c == '-' && n == Some('-') {
            let r = line_body(cs, q + 2);
            (SpecToken::Comment(r.0), r.1)
        } else if c == '/' && n == Some('*') {
            let r = block_body(cs, q + 2, 1);
            (SpecToken::BlockComment(r.0), r.1)
        } else if c == '\'' || (c == 'N' && n == Some('\'')) {
            let r = string_body(cs, if c == 'N' { q + 2 } else { q + 1 }, '\'');
            (SpecToken::StringLit(r.0), r.1)
        } else if c == 'X' && n == Some('\'') {
            let r = string_body(cs, q + 2, '\'');
            (SpecToken::HexString(r.0), r.1)
        } else if c == '"' || c == '`' {
            let r = quoted_body(cs, q + 1, c);
            (SpecToken::QuotedIdent(r.0), r.1)
        } else if ascii_digit(c) || (c == '.' && (n matches Some(d) && ascii_digit(d))) {
            let e = number_end(cs, q, false);
            (SpecToken::Number(cs.subrange(q, e)), e)
        } else if word_start(c) {
            let e = ident_end(cs, q);
            (word_token(cs.subrange(q, e)), e)
        } else {
            op_token(cs, q)
        }
    }
}

/// The tokens of the text from position `p`, up to and including `Eof`.
pub open spec fn tokens_from(cs: Seq<char>, p: int) -> Seq<SpecToken>
    decreases cs.len() - p,
{
    let r = lex(cs, p);
    if r.0 == SpecToken::Kw(Kw::Eof) {
        seq![r.0]
    } else if p < r.1 <= cs.len() {
        seq![r.0] + tokens_from(cs, r.1)
    } else {
        seq![r.0, SpecToken::Kw(Kw::Eof)]
    }
}

/// The token sequence read from `p` when the first character after the
/// whitespace is an operator mark: the operator's token comes first, and
/// reading goes on right after its marks. `<=`, `>=` and `<>` are single
/// tokens; `<` and `>` alone are the strict comparisons; `--` and `/*` open
/// comments and `->` is an arrow, so `-` and `/` alone are the arithmetic
/// operators.
pub proof fn lemma_operator_tokens(cs: Seq<char>, p: int)
    requires
        0 <= p <= cs.len(),
    ensures
        ({
            let q = ws_end(cs, p);
            let c = char_at(cs, q);
            let n = char_at(cs, q + 1);
            let one = |k: Kw| tokens_from(cs, p) == seq![SpecToken::Kw(k)] + tokens_from(cs, q + 1);
            let two = |k: Kw| tokens_from(cs, p) == seq![SpecToken::Kw(k)] + tokens_from(cs, q + 2);
            &&& (c == Some('<') && n == Some('=') ==> two(Kw::Leq))
            &&& (c == Some('>') && n == Some('=') ==> two(Kw::Geq))
            &&& (c == Some('<') && n == Some('>') ==> two(Kw::Neq))
            &&& (c == Some('|') && n == Some('|') ==> two(Kw::Concat))
            &&& (c == Some('<') && n != Some('=') && n != Some('>') ==> one(Kw::Lt))
            &&& (c == Some('>') && n != Some('=') ==> one(Kw::Gt))
            &&& (c == Some('=') ==> one(Kw::Eq))
            &&& (c == Some('+') ==> one(Kw::Plus))
            &&& (c == Some('-') && n != Some('-') && n != Some('>') ==> one(Kw::Minus))
            &&& (c == Some('*') ==> one(Kw::Mul))
            &&& (c == Some('/') && n != Some('*') ==> one(Kw::Div))
            &&& (c == Some('%') ==> one(Kw::Mod))
            &&& (c == Some(',') ==> one(Kw::Comma))
            &&& (c == Some('(') ==> one(Kw::LParen))
            &&& (c == Some(')') ==> one(Kw::RParen))
            &&& (c == Some(';') ==> one(Kw::Semicolon))
        }),
{
    lemma_ws_end(cs, p);
}

/// Every character of a number read from `i` is a digit or a dot, and the
/// character after it is not a digit.
proof fn lemma_number_chars(cs: Seq<char>, i: int, dot: bool)
    requires
        0 <= i <= cs.len(),
    ensures
        forall|j: int| i <= j < number_end(cs, i, dot) ==> ascii_digit(#[trigger] cs[j]) || cs[j] == '.',
        number_end(cs, i, dot) < cs.len() ==> !ascii_digit(cs[number_end(cs, i, dot)]),
    decreases cs.len() - i,
{
    lemma_number_end(cs, i, dot);
    if i < cs.len() && ascii_digit(cs[i]) {
        lemma_number_chars(cs, i + 1, dot);
    } else if i < cs.len() && cs[i] == '.' && !dot {
        lemma_number_chars(cs, i + 1, true);
    }
}

/// A quoted string with no quote and no backslash inside reads as its
/// characters, and ends after the closing quote.
proof fn lemma_plain_string(cs: Seq<char>, i: int, k: int, q: char)
    requires
        0 <= i <= k < cs.len(),
        cs[k] == q,
        q != '\\',
        forall|j: int| i <= j < k ==> #[trigger] cs[j] != q && cs[j] != '\\',
    ensures
        string_body(cs, i, q) == (cs.subrange(i, k), k + 1),
    decreases k - i,
{
    if i < k {
        assert(cs[i] != q && cs[i] != '\\');
        lemma_plain_string(cs, i + 1, k, q);
        assert(seq![cs[i]] + cs.subrange(i + 1, k) =~= cs.subrange(i, k));
    } else {
        assert(cs.subrange(i, k) =~= Seq::<char>::empty());
    }
}

/// Literals read as one token each. A digit starts a number: its text is the
/// run from there of digits (with at most one dot), it is not empty, the
/// character after it is not a digit, and reading goes on after it. A
/// string in single quotes with no quote or backslash inside reads as its
/// characters, and reading goes on after the closing quote.
pub proof fn lemma_literal_tokens(cs: Seq<char>, p: int, k: int)
    requires
        0 <= p <= cs.len(),
    ensures
        ({
            let q = ws_end(cs, p);
            q < cs.len() && ascii_digit(cs[q]) ==> (tokens_from(cs, p)[0] matches SpecToken::Number(t) && {
                &&& t.len() > 0
                &&& q + t.len() <= cs.len()
                &&& t == cs.subrange(q, q + t.len())
                &&& forall|j: int| 0 <= j < t.len() ==> ascii_digit(#[trigger] t[j]) || t[j] == '.'
                &&& q + t.len() < cs.len() ==> !ascii_digit(cs[q + t.len()])
                &&& tokens_from(cs, p) == seq![SpecToken::Number(t)] + tokens_from(cs, q + t.len())
            })
        }),
        ({
            let q = ws_end(cs, p);
            q < k < cs.len() && cs[q] == '\'' && cs[k] == '\'' && (forall|j: int| q < j < k ==> #[trigger] cs[j]
                != '\'' && cs[j] != '\\') ==> tokens_from(cs, p) == seq![SpecToken::StringLit(cs.subrange(q + 1, k))]
                + tokens_from(cs, k + 1)
        }),
{
    lemma_ws_end(cs, p);
    let q = ws_end(cs, p);
    if q < cs.len() && ascii_digit(cs[q]) {
        lemma_number_end(cs, q, false);
        lemma_number_chars(cs, q, false);
        let e = number_end(cs, q, false);
        let t = cs.subrange(q, e);
        assert(e > q);
        assert forall|j: int| 0 <= j < t.len() implies ascii_digit(#[trigger] t[j]) || t[j] == '.' by {
            assert(t[j] == cs[q + j]);
        }
    }
    if q < k < cs.len() && cs[q] == '\'' && cs[k] == '\'' && (forall|j: int| q < j < k ==> #[trigger] cs[j] != '\''
        && cs[j] != '\\') {
        lemma_plain_string(cs, q + 1, k, '\'');
    }
}

/// The token sequence of a whole text.
#[verifier::opaque]
pub open spec fn spec_tokenize(cs: Seq<char>) -> Seq<SpecToken> {
    tokens_from(cs, 0)
}

/// SQL lexer over the characters of a text.
pub struct Lexer {
    chars: Vec<char>,
    pos: usize,
}

impl Lexer {
    /// The text being read.
    pub closed spec fn text(&self) -> Seq<char> {
        self.chars@
    }

    /// How far the lexer has read.
    pub closed spec fn position(&self) -> int {
        self.pos as int
    }

    /// The lexer has not read past the end.
    pub closed spec fn wf(&self) -> bool {
        self.pos <= self.chars@.len()
    }

    pub fn new(sql: &str) -> (r: Self)
        ensures
            r.wf(),
            r.text() == sql@,
            r.position() == 0,
    {
        Lexer { chars: chars_of(sql), pos: 0 }
    }

    fn peek(&self) -> (r: Option<char>)
        ensures
            r == char_at(self.chars@, self.pos as int),
    {
        if self.pos < self.chars.len() {
            Some(self.chars[self.pos])
        } else {
            None
        }
    }

    fn peek_next(&self) -> (r: Option<char>)
        requires
            self.wf(),
        ensures
            r == char_at(self.chars@, self.pos + 1),
    {
        if self.pos < self.chars.len() && self.pos + 1 < self.chars.len() {
            Some(self.chars[self.pos + 1])
        } else {
            None
        }
    }

    fn advance(&mut self) -> (r: Option<char>)
        requires
            old(self).wf(),
        ensures
            final(self).wf(),
            final(self).chars@ == old(self).chars@,
            r == char_at(old(self).chars@, old(self).pos as int),
            final(self).pos == if old(self).pos < old(self).chars@.len() {
                old(self).pos + 1
            } else {
                old(self).pos as int
            },
    {
        if self.pos < self.chars.len() {
            let c = self.chars[self.pos];
            self.pos = self.pos + 1;
            Some(c)
        } else {
            None
        }
    }

    fn skip_whitespace(&mut self)
        requires
            old(self).wf(),
        ensures
            final(self).wf(),
            final(self).chars@ == old(self).chars@,
            final(self).pos == ws_end(old(self).chars@, old(self).pos as int),
    {
        while self.pos < self.chars.len() && is_whitespace(self.chars[self.pos])
            invariant
                self.wf(),
                self.chars@ == old(self).chars@,
                ws_end(self.chars@, self.pos as int) == ws_end(old(self).chars@, old(self).pos as int),
            decreases self.chars@.len() - self.pos,
        {
            self.pos = self.pos + 1;
        }
    }

    fn read_ident(&mut self) -> (r: Vec<char>)
        requires
            old(self).wf(),
        ensures
            final(self).wf(),
            final(self).chars@ == old(self).chars@,
            final(self).pos == ident_end(old(self).chars@, old(self).pos as int),
            r@ == old(self).chars@.subrange(old(self).pos as int, final(self).pos as int),
            (old(self).pos < old(self).chars@.len() && (unicode_alphabetic(old(self).chars@[old(self).pos as int])
                || old(self).chars@[old(self).pos as int] == '_')) ==> final(self).pos > old(self).pos,
    {
        let start = self.pos;
        let mut s: Vec<char> = Vec::new();
        loop
            invariant
                self.wf(),
                start <= self.pos,
                self.chars@ == old(self).chars@,
                start == old(self).pos,
                ident_end(self.chars@, self.pos as int) == ident_end(old(self).chars@, start as int),
                s@ == self.chars@.subrange(start as int, self.pos as int),
            ensures
                self.pos == ident_end(self.chars@, self.pos as int),
                (self.pos == start && start < self.chars@.len()) ==> !unicode_alphabetic(self.chars@[start as int]),
                (self.pos == start && start < self.chars@.len()) ==> self.chars@[start as int] != '_',
            decreases self.chars@.len() - self.pos,
        {
            if self.pos >= self.chars.len() {
                break;
            }
            let c = self.chars[self.pos];
            let a = is_alphanumeric(c);
            if !(a || c == '_') {
                break;
            }
            s.push(c);
            self.pos = self.pos + 1;
            assert(s@ =~= self.chars@.subrange(start as int, self.pos as int));
        }
        s
    }

    fn read_number(&mut self) -> (r: Vec<char>)
        requires
            old(self).wf(),
        ensures
            final(self).wf(),
            final(self).chars@ == old(self).chars@,
            final(self).pos == number_end(old(self).chars@, old(self).pos as int, false),
            r@ == old(self).chars@.subrange(old(self).pos as int, final(self).pos as int),
    {
        let start = self.pos;
        let mut s: Vec<char> = Vec::new();
        let mut has_dot = false;
        loop
            invariant
                self.wf(),
                start <= self.pos,
                self.chars@ == old(self).chars@,
                start == old(self).pos,
                number_end(self.chars@, self.pos as int, has_dot) == number_end(old(self).chars@, start as int, false),
                s@ == self.chars@.subrange(start as int, self.pos as int),
            ensures
                number_end(self.chars@, self.pos as int, has_dot) == self.pos,
            decreases self.chars@.len() - self.pos,
        {
            if self.pos >= self.chars.len() {
                break;
            }
            let c = self.chars[self.pos];
            if is_ascii_digit(c) {
            } else if c == '.' && !has_dot {
                has_dot = true;
            } else {
                assert(number_end(self.chars@, self.pos as int, has_dot) == self.pos);
                break;
            }
            s.push(c);
            self.pos = self.pos + 1;
            assert(s@ =~= self.chars@.subrange(start as int, self.pos as int));
        }
        s
    }

    fn read_string(&mut self, quote: char) -> (r: Vec<char>)
        requires
            old(self).wf(),
        ensures
            final(self).wf(),
            final(self).chars@ == old(self).chars@,
            (r@, final(self).pos as int) == string_body(
                old(self).chars@,
                if old(self).pos < old(self).chars@.len() { old(self).pos + 1 } else { old(self).pos as int },
                quote,
            ),
            old(self).pos < old(self).chars@.len() ==> final(self).pos > old(self).pos,
    {
        self.advance();
        let ghost start = self.pos as int;
        let mut s: Vec<char> = Vec::new();
        loop
            invariant_except_break
                string_body(self.chars@, start, quote).0 == s@ + string_body(self.chars@, self.pos as int, quote).0,
                string_body(self.chars@, start, quote).1 == string_body(self.chars@, self.pos as int, quote).1,
            invariant
                self.wf(),
                self.chars@ == old(self).chars@,
                self.pos >= start,
                old(self).pos < old(self).chars@.len() ==> start == old(self).pos + 1,
            ensures
                (s@, self.pos as int) == string_body(self.chars@, start, quote),
            decreases self.chars@.len() - self.pos,
        {
            let ghost p = self.pos as int;
            match self.advance() {
                None => {
                    assert(s@ =~= string_body(self.chars@, start, quote).0);
                    break;
                },
                Some(c) => {
                    if c == '\\' {
                        let d = self.advance();
                        match d {
                            Some(e) => {
                                s.push(e);
                            },
                            None => {
                                s.push('\\');
                                assert(string_body(self.chars@, p, quote) == (seq!['\\'], self.chars@.len() as int));
                                assert(s@ =~= string_body(self.chars@, start, quote).0);
                                break;
                            },
                        }
                        let ghost r = string_body(self.chars@, self.pos as int, quote);
                        assert(string_body(self.chars@, p, quote).0 =~= seq![self.chars@[p + 1]] + r.0);
                    } else if c == quote {
                        assert(s@ =~= string_body(self.chars@, start, quote).0);
                        break;
                    } else {
                        s.push(c);
                        let ghost r = string_body(self.chars@, self.pos as int, quote);
                        assert(string_body(self.chars@, p, quote).0 =~= seq![c] + r.0);
                    }
                },
            }
        }
        s
    }

    fn read_quoted_ident(&mut self, quote: char) -> (r: Vec<char>)
        requires
            old(self).wf(),
        ensures
            final(self).wf(),
            final(self).chars@ == old(self).chars@,
            (r@, final(self).pos as int) == quoted_body(
                old(self).chars@,
                if old(self).pos < old(self).chars@.len() { old(self).pos + 1 } else { old(self).pos as int },
                quote,
            ),
            old(self).pos < old(self).chars@.len() ==> final(self).pos > old(self).pos,
    {
        self.advance();
        let ghost start = self.pos as int;
        let mut s: Vec<char> = Vec::new();
        loop
            invariant_except_break
                quoted_body(self.chars@, start, quote).0 == s@ + quoted_body(self.chars@, self.pos as int, quote).0,
                quoted_body(self.chars@, start, quote).1 == quoted_body(self.chars@, self.pos as int, quote).1,
            invariant
                self.wf(),
                self.chars@ == old(self).chars@,
                self.pos >= start,
                old(self).pos < old(self).chars@.len() ==> start == old(self).pos + 1,
            ensures
                (s@, self.pos as int) == quoted_body(self.chars@, start, quote),
            decreases self.chars@.len() - self.pos,
        {
            let ghost p = self.pos as int;
            match self.advance() {
                None => {
                    assert(s@ =~= quoted_body(self.chars@, start, quote).0);
                    break;
                },
                Some(c) => {
                    if c == quote {
                        if self.peek() == Some(quote) {
                            self.advance();
                            s.push(quote);
                            let ghost r = quoted_body(self.chars@, self.pos as int, quote);
                            assert(quoted_body(self.chars@, p, quote).0 =~= seq![quote] + r.0);
                        } else {
                            assert(s@ =~= quoted_body(self.chars@, start, quote).0);
                            break;
                        }
                    } else {
                        s.push(c);
                        let ghost r = quoted_body(self.chars@, self.pos as int, quote);
                        assert(quoted_body(self.chars@, p, quote).0 =~= seq![c] + r.0);
                    }
                },
            }
        }
        s
    }

    fn read_line_comment(&mut self) -> (r: Vec<char>)
        requires
            old(self).wf(),
        ensures
            final(self).wf(),
            final(self).chars@ == old(self).chars@,
            (r@, final(self).pos as int) == line_body(old(self).chars@, old(self).pos as int),
            final(self).pos >= old(self).pos,
    {
        let ghost start = self.pos as int;
        let mut s: Vec<char> = Vec::new();
        loop
            invariant_except_break
                line_body(self.chars@, start).0 == s@ + line_body(self.chars@, self.pos as int).0,
                line_body(self.chars@, start).1 == line_body(self.chars@, self.pos as int).1,
            invariant
                self.wf(),
                self.chars@ == old(self).chars@,
                start == old(self).pos,
                self.pos >= start,
            ensures
                (s@, self.pos as int) == line_body(self.chars@, start),
            decreases self.chars@.len() - self.pos,
        {
            let ghost p = self.pos as int;
            match self.advance() {
                None => {
                    assert(s@ =~= line_body(self.chars@, start).0);
                    break;
                },
                Some(c) => {
                    if c == '\n' {
                        assert(s@ =~= line_body(self.chars@, start).0);
                        break;
                    }
                    s.push(c);
                    let ghost r = line_body(self.chars@, self.pos as int);
                    assert(line_body(self.chars@, p).0 =~= seq![c] + r.0);
                },
            }
        }
        s
    }

    fn read_block_comment(&mut self) -> (r: Vec<char>)
        requires
            old(self).wf(),
        ensures
            final(self).wf(),
            final(self).chars@ == old(self).chars@,
            (r@, final(self).pos as int) == block_body(old(self).chars@, old(self).pos as int, 1),
            final(self).pos >= old(self).pos,
    {
        let ghost start = self.pos as int;
        let mut s: Vec<char> = Vec::new();
        let mut depth: usize = 1;
        loop
            invariant_except_break
                block_body(self.chars@, start, 1).0 == s@ + block_body(self.chars@, self.pos as int, depth as nat).0,
                block_body(self.chars@, start, 1).1 == block_body(self.chars@, self.pos as int, depth as nat).1,
                1 <= depth <= self.pos + 1,
            invariant
                self.wf(),
                self.chars@ == old(self).chars@,
                start == old(self).pos,
                self.pos >= start,
            ensures
                (s@, self.pos as int) == block_body(self.chars@, start, 1),
            decreases self.chars@.len() - self.pos,
        {
            let ghost p = self.pos as int;
            match self.advance() {
                None => {
                    assert(s@ =~= block_body(self.chars@, start, 1).0);
                    break;
                },
                Some(c) => {
                    if c == '/' && self.peek() == Some('*') {
                        self.advance();
                        depth = depth + 1;
                        s.push('/');
                        s.push('*');
                        let ghost r = block_body(self.chars@, self.pos as int, depth as nat);
                        assert(block_body(self.chars@, p, (depth - 1) as nat).0 =~= seq!['/', '*'] + r.0);
                    } else if c == '*' && self.peek() == Some('/') {
                        self.advance();
                        depth = depth - 1;
                        if depth == 0 {
                            assert(s@ =~= block_body(self.chars@, start, 1).0);
                            break;
                        }
                        s.push('*');
                        s.push('/');
                        let ghost r = block_body(self.chars@, self.pos as int, depth as nat);
                        assert(block_body(self.chars@, p, (depth + 1) as nat).0 =~= seq!['*', '/'] + r.0);
                    } else {
                        s.push(c);
                        let ghost r = block_body(self.chars@, self.pos as int, depth as nat);
                        assert(block_body(self.chars@, p, depth as nat).0 =~= seq![c] + r.0);
                    }
                },
            }
        }
        s
    }

    fn text_token(k: u8, body: &Vec<char>) -> (r: Token)
        requires
            k < 7,
        ensures
            k == 0 ==> r@ == SpecToken::Ident(body@),
            k == 1 ==> r@ == SpecToken::QuotedIdent(body@),
            k == 2 ==> r@ == SpecToken::Number(body@),
            k == 3 ==> r@ == SpecToken::StringLit(body@),
            k == 4 ==> r@ == SpecToken::HexString(body@),
            k == 5 ==> r@ == SpecToken::Comment(body@),
            k == 6 ==> r@ == SpecToken::BlockComment(body@),
    {
        let t = string_of(body);
        if k == 0 {
            Token::Ident(t)
        } else if k == 1 {
            Token::QuotedIdent(t)
        } else if k == 2 {
            Token::Number(t)
        } else if k == 3 {
            Token::StringLit(t)
        } else if k == 4 {
            Token::HexString(t)
        } else if k == 5 {
            Token::Comment(t)
        } else {
            Token::BlockComment(t)
        }
    }

    fn read_op(&mut self, c: char) -> (r: Token)
        requires
            old(self).wf(),
            old(self).pos < old(self).chars@.len(),
            old(self).chars@[old(self).pos as int] == c,
        ensures
            final(self).wf(),
            final(self).chars@ == old(self).chars@,
            (r@, final(self).pos as int) == op_token(old(self).chars@, old(self).pos as int),
    {
        self.advance();
        if c == '?' {
            Token::Kw(Kw::Placeholder)
        } else if c == '=' {
            Token::Kw(Kw::Eq)
        } else if c == '<' {
            match self.peek() {
                Some('>') => {
                    self.advance();
                    Token::Kw(Kw::Neq)
                },
                Some('=') => {
                    self.advance();
                    Token::Kw(Kw::Leq)
                },
                _ => Token::Kw(Kw::Lt),
            }
        } else if c == '>' {
            match self.peek() {
                Some('=') => {
                    self.advance();
                    Token::Kw(Kw::Geq)
                },
                _ => Token::Kw(Kw::Gt),
            }
        } else if c == '+' {
            Token::Kw(Kw::Plus)
        } else if c == '-' {
            match self.peek() {
                Some('>') => {
                    self.advance();
                    Token::Kw(Kw::Arrow)
                },
                _ => Token::Kw(Kw::Minus),
            }
        } else if c == '*' {
            Token::Kw(Kw::Mul)
        } else if c == '/' {
            Token::Kw(Kw::Div)
        } else if c == '%' {
            Token::Kw(Kw::Mod)
        } else if c == '.' {
            Token::Kw(Kw::Dot)
        } else if c == ',' {
            Token::Kw(Kw::Comma)
        } else if c == ';' {
            Token::Kw(Kw::Semicolon)
        } else if c == '(' {
            Token::Kw(Kw::LParen)
        } else if c == ')' {
            Token::Kw(Kw::RParen)
        } else if c == '[' {
            Token::Kw(Kw::LBracket)
        } else if c == ']' {
            Token::Kw(Kw::RBracket)
        } else if c == ':' {
            match self.peek() {
                Some(':') => {
                    self.advance();
                    Token::Kw(Kw::DoubleColon)
                },
                Some('=') => {
                    self.advance();
                    Token::Kw(Kw::Assign)
                },
                _ => {
                    let mut v: Vec<char> = Vec::new();
                    v.push(':');
                    assert(v@ =~= seq![':']);
                    Self::text_token(0, &v)
                },
            }
        } else if c == '|' {
            if self.peek() == Some('|') {
                self.advance();
                Token::Kw(Kw::Concat)
            } else {
                let mut v: Vec<char> = Vec::new();
                v.push('|');
                assert(v@ =~= seq!['|']);
                Self::text_token(0, &v)
            }
        } else {
            let mut v: Vec<char> = Vec::new();
            v.push(c);
            assert(v@ =~= seq![c]);
            Self::text_token(0, &v)
        }
    }

    /// Reads the next token; at the end of the text it is `Eof`, again and
    /// again.
    pub fn next_token(&mut self) -> (r: Token)
        requires
            old(self).wf(),
        ensures
            final(self).wf(),
            final(self).text() == old(self).text(),
            (r@, final(self).position()) == lex(old(self).text(), old(self).position()),
            r@ != SpecToken::Kw(Kw::Eof) ==> final(self).position() > old(self).position(),
    {
        proof {
            lemma_ws_end(self.chars@, self.pos as int);
        }
        self.skip_whitespace();
        let q = self.pos;
        match self.peek() {
            None => Token::Kw(Kw::Eof),
            Some(c) => {
                let n = self.peek_next();
                if c == '-' && n == Some('-') {
                    self.advance();
                    self.advance();
                    let body = self.read_line_comment();
                    return Self::text_token(5, &body);
                }
                if c == '/' && n == Some('*') {
                    self.advance();
                    self.advance();
                    let body = self.read_block_comment();
                    return Self::text_token(6, &body);
                }
                if c == '\'' || (c == 'N' && n == Some('\'')) {
                    if c == 'N' {
                        self.advance();
                    }
                    let body = self.read_string('\'');
                    return Self::text_token(3, &body);
                }
                if c == 'X' && n == Some('\'') {
                    self.advance();
                    let body = self.read_string('\'');
                    return Self::text_token(4, &body);
                }
                if c == '"' || c == '`' {
                    let body = self.read_quoted_ident(c);
                    return Self::text_token(1, &body);
                }
                let digit_next = match n {
                    Some(d) => is_ascii_digit(d),
                    None => false,
                };
                if is_ascii_digit(c) || (c == '.' && digit_next) {
                    proof {
                        lemma_number_end(self.chars@, self.pos + 1, c == '.');
                    }
                    let body = self.read_number();
                    return Self::text_token(2, &body);
                }
                if is_alphabetic(c) || c == '_' {
                    let word = self.read_ident();
                    match lookup_keyword(&word) {
                        Some(k) => {
                            return Token::Kw(k);
                        },
                        None => {
                            return Self::text_token(0, &word);
                        },
                    }
                }
                self.read_op(c)
            },
        }
    }
}

/// The tokens of `sql`, ending with the first `Eof`.
pub fn tokenize(sql: &str) -> (r: Vec<Token>)
    ensures
        r@.map_values(|t: Token| t@) == spec_tokenize(sql@),
{
    proof {
        reveal(spec_tokenize);
    }
    let mut lexer = Lexer::new(sql);
    let mut tokens: Vec<Token> = Vec::new();
    loop
        invariant_except_break
            tokens@.map_values(|t: Token| t@) + tokens_from(sql@, lexer.position()) == spec_tokenize(sql@),
        invariant
            lexer.wf(),
            lexer.text() == sql@,
            0 <= lexer.position() <= sql@.len(),
        ensures
            tokens@.map_values(|t: Token| t@) == spec_tokenize(sql@),
        decreases sql@.len() - lexer.position(),
    {
        let ghost p = lexer.position();
        let token = lexer.next_token();
        let ghost t = token@;
        let ghost v = tokens@.map_values(|t: Token| t@);
        if token.is(Kw::Eof) {
            tokens.push(token);
            assert(tokens@.map_values(|t: Token| t@) =~= v.push(t));
            break;
        }
        tokens.push(token);
        assert(tokens@.map_values(|t: Token| t@) =~= v.push(t));
        assert(tokens_from(sql@, p) == seq![t] + tokens_from(sql@, lexer.position()));
        assert(v.push(t) + tokens_from(sql@, lexer.position()) =~= v + (seq![t] + tokens_from(sql@, lexer.position())));
    }
    tokens
}

/// The token sequence of any text ends with `Eof`, and `Eof` comes nowhere
/// before the end.
pub proof fn lemma_tokenize_wf(cs: Seq<char>)
    ensures
        crate::sql::grammar::wf_tokens(spec_tokenize(cs)),
{
    reveal(spec_tokenize);
    lemma_tokens_from_wf(cs, 0);
}

proof fn lemma_tokens_from_wf(cs: Seq<char>, p: int)
    ensures
        crate::sql::grammar::wf_tokens(tokens_from(cs, p)),
    decreases cs.len() - p,
{
    let r = lex(cs, p);
    if r.0 == SpecToken::Kw(Kw::Eof) {
    } else if p < r.1 <= cs.len() {
        lemma_tokens_from_wf(cs, r.1);
        let t = tokens_from(cs, r.1);
        assert(tokens_from(cs, p) == seq![r.0] + t);
        assert forall|i: int| 0 <= i < tokens_from(cs, p).len() - 1 implies tokens_from(cs, p)[i] != SpecToken::Kw(Kw::Eof) by {
            if i > 0 {
                assert(tokens_from(cs, p)[i] == t[i - 1]);
            }
        }
    } else {
    }
}

} // verus!
