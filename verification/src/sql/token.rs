//! Tokens of the SQL lexer: keywords, punctuation and text-carrying tokens.
use vstd::prelude::*;
use crate::text::{ascii_upper_chars, ascii_upper_text, chars_of, debug_escaped, eq_str, escape_debug, push_chars, push_str};

verus! {

/// Keywords, data-type names and punctuation: the tokens that carry no text.
#[derive(Debug, Clone, Copy, PartialEq, Eq, Structural)]
pub enum Kw {
    Select,
    With,
    Recursive,
    Insert,
    Replace,
    Update,
    Delete,
    Create,
    Drop,
    Distinct,
    From,
    Where,
    Group,
    By,
    Having,
    Order,
    Asc,
    Desc,
    Limit,
    Offset,
    As,
    Join,
    Inner,
    Left,
    Right,
    Full,
    Cross,
    Outer,
    On,
    Or,
    And,
    Not,
    Is,
    Null,
    Like,
    Between,
    In,
    Exists,
    Case,
    When,
    Then,
    Else,
    End,
    Count,
    Into,
    Values,
    SetKw,
    Table,
    If,
    Primary,
    Key,
    Constraint,
    Foreign,
    Unique,
    Check,
    Index,
    Default,
    View,
    Int,
    BigInt,
    SmallInt,
    TinyInt,
    VarChar,
    Char,
    Text,
    Boolean,
    Float,
    Double,
    Decimal,
    Real,
    Date,
    Time,
    Timestamp,
    Blob,
    Clob,
    Json,
    Jsonb,
    Xml,
    Uuid,
    Bytea,
    Placeholder,
    Eq,
    Neq,
    Lt,
    Leq,
    Gt,
    Geq,
    Plus,
    Minus,
    Arrow,
    Mul,
    Div,
    Mod,
    Dot,
    Comma,
    Semicolon,
    LParen,
    RParen,
    LBracket,
    RBracket,
    DoubleColon,
    Assign,
    Concat,
    Eof,
}

/// A lexical token of SQL text.
#[derive(Debug, Clone)]
pub enum Token {
    /// A keyword, type name, operator or punctuation mark.
    Kw(Kw),
    /// An identifier that is not a keyword.
    Ident(String),
    /// An identifier in double quotes or backquotes.
    QuotedIdent(String),
    /// A numeric literal, as written.
    Number(String),
    /// A string literal, quotes removed and escapes resolved.
    StringLit(String),
    /// A hexadecimal string `X'..'`.
    HexString(String),
    /// A `--` comment, without the marker and the line end.
    Comment(String),
    /// A `/* .. */` comment, without its outer markers.
    BlockComment(String),
}

/// The mathematical value of a `Token`: text as character sequences.
pub enum SpecToken {
    Kw(Kw),
    Ident(Seq<char>),
    QuotedIdent(Seq<char>),
    Number(Seq<char>),
    StringLit(Seq<char>),
    HexString(Seq<char>),
    Comment(Seq<char>),
    BlockComment(Seq<char>),
}

impl View for Token {
    type V = SpecToken;

    open spec fn view(&self) -> SpecToken {
        match self {
            Token::Kw(k) => SpecToken::Kw(*k),
            Token::Ident(s) => SpecToken::Ident(s@),
            Token::QuotedIdent(s) => SpecToken::QuotedIdent(s@),
            Token::Number(s) => SpecToken::Number(s@),
            Token::StringLit(s) => SpecToken::StringLit(s@),
            Token::HexString(s) => SpecToken::HexString(s@),
            Token::Comment(s) => SpecToken::Comment(s@),
            Token::BlockComment(s) => SpecToken::BlockComment(s@),
        }
    }
}

impl Token {
    /// Whether this token is the keyword or mark `k`.
    pub fn is(&self, k: Kw) -> (r: bool)
        ensures
            r == (self@ == SpecToken::Kw(k)),
    {
        match self {
            Token::Kw(x) => *x == k,
            _ => false,
        }
    }

    /// Whether this token is a plain identifier.
    pub fn is_ident(&self) -> (r: bool)
        ensures
            r == (self@ is Ident),
    {
        match self {
            Token::Ident(_) => true,
            _ => false,
        }
    }

    /// A copy of this token.
    pub fn duplicate(&self) -> (r: Token)
        ensures
            r@ == self@,
    {
        match self {
            Token::Kw(k) => Token::Kw(*k),
            Token::Ident(s) => Token::Ident(s.clone()),
            Token::QuotedIdent(s) => Token::QuotedIdent(s.clone()),
            Token::Number(s) => Token::Number(s.clone()),
            Token::StringLit(s) => Token::StringLit(s.clone()),
            Token::HexString(s) => Token::HexString(s.clone()),
            Token::Comment(s) => Token::Comment(s.clone()),
            Token::BlockComment(s) => Token::BlockComment(s.clone()),
        }
    }
}

/// The words that the lexer reads as keywords, in the order they are tried.
pub open spec fn keyword_list() -> Seq<Kw> {
    seq![Kw::Select, Kw::With, Kw::Recursive, Kw::Insert, Kw::Replace, Kw::Update, Kw::Delete, Kw::Create, Kw::Drop, Kw::Distinct, Kw::From, Kw::Where, Kw::Group, Kw::By, Kw::Having, Kw::Order, Kw::Asc, Kw::Desc, Kw::Limit, Kw::Offset, Kw::As, Kw::Join, Kw::Inner, Kw::Left, Kw::Right, Kw::Full, Kw::Cross, Kw::Outer, Kw::On, Kw::Or, Kw::And, Kw::Not, Kw::Is, Kw::Null, Kw::Like, Kw::Between, Kw::In, Kw::Exists, Kw::Case, Kw::When, Kw::Then, Kw::Else, Kw::End, Kw::Count, Kw::Into, Kw::Values, Kw::SetKw, Kw::Table, Kw::If, Kw::Primary, Kw::Key, Kw::Constraint, Kw::Foreign, Kw::Unique, Kw::Check, Kw::Index, Kw::Default, Kw::View, Kw::Int, Kw::BigInt, Kw::SmallInt, Kw::TinyInt, Kw::VarChar, Kw::Char, Kw::Text, Kw::Boolean, Kw::Float, Kw::Double, Kw::Decimal, Kw::Real, Kw::Date, Kw::Time, Kw::Timestamp, Kw::Blob, Kw::Clob, Kw::Json, Kw::Jsonb, Kw::Xml, Kw::Uuid, Kw::Bytea]
}

/// How each keyword is spelled (in upper case); other marks have no spelling.
pub open spec fn spelling(k: Kw) -> Seq<char> {
    match k {
        Kw::Select => "SELECT"@,
        Kw::With => "WITH"@,
        Kw::Recursive => "RECURSIVE"@,
        Kw::Insert => "INSERT"@,
        Kw::Replace => "REPLACE"@,
        Kw::Update => "UPDATE"@,
        Kw::Delete => "DELETE"@,
        Kw::Create => "CREATE"@,
        Kw::Drop => "DROP"@,
        Kw::Distinct => "DISTINCT"@,
        Kw::From => "FROM"@,
        Kw::Where => "WHERE"@,
        Kw::Group => "GROUP"@,
        Kw::By => "BY"@,
        Kw::Having => "HAVING"@,
        Kw::Order => "ORDER"@,
        Kw::Asc => "ASC"@,
        Kw::Desc => "DESC"@,
        Kw::Limit => "LIMIT"@,
        Kw::Offset => "OFFSET"@,
        Kw::As => "AS"@,
        Kw::Join => "JOIN"@,
        Kw::Inner => "INNER"@,
        Kw::Left => "LEFT"@,
        Kw::Right => "RIGHT"@,
        Kw::Full => "FULL"@,
        Kw::Cross => "CROSS"@,
        Kw::Outer => "OUTER"@,
        Kw::On => "ON"@,
        Kw::Or => "OR"@,
        Kw::And => "AND"@,
        Kw::Not => "NOT"@,
        Kw::Is => "IS"@,
        Kw::Null => "NULL"@,
        Kw::Like => "LIKE"@,
        Kw::Between => "BETWEEN"@,
        Kw::In => "IN"@,
        Kw::Exists => "EXISTS"@,
        Kw::Case => "CASE"@,
        Kw::When => "WHEN"@,
        Kw::Then => "THEN"@,
        Kw::Else => "ELSE"@,
        Kw::End => "END"@,
        Kw::Count => "COUNT"@,
        Kw::Into => "INTO"@,
        Kw::Values => "VALUES"@,
        Kw::SetKw => "SET"@,
        Kw::Table => "TABLE"@,
        Kw::If => "IF"@,
        Kw::Primary => "PRIMARY"@,
        Kw::Key => "KEY"@,
        Kw::Constraint => "CONSTRAINT"@,
        Kw::Foreign => "FOREIGN"@,
        Kw::Unique => "UNIQUE"@,
        Kw::Check => "CHECK"@,
        Kw::Index => "INDEX"@,
        Kw::Default => "DEFAULT"@,
        Kw::View => "VIEW"@,
        Kw::Int => "INT"@,
        Kw::BigInt => "BIGINT"@,
        Kw::SmallInt => "SMALLINT"@,
        Kw::TinyInt => "TINYINT"@,
        Kw::VarChar => "VARCHAR"@,
        Kw::Char => "CHAR"@,
        Kw::Text => "TEXT"@,
        Kw::Boolean => "BOOLEAN"@,
        Kw::Float => "FLOAT"@,
        Kw::Double => "DOUBLE"@,
        Kw::Decimal => "DECIMAL"@,
        Kw::Real => "REAL"@,
        Kw::Date => "DATE"@,
        Kw::Time => "TIME"@,
        Kw::Timestamp => "TIMESTAMP"@,
        Kw::Blob => "BLOB"@,
        Kw::Clob => "CLOB"@,
        Kw::Json => "JSON"@,
        Kw::Jsonb => "JSONB"@,
        Kw::Xml => "XML"@,
        Kw::Uuid => "UUID"@,
        Kw::Bytea => "BYTEA"@,
        _ => Seq::empty(),
    }
}

/// The first keyword of `ks` spelled as `u`.
pub open spec fn first_spelled(ks: Seq<Kw>, u: Seq<char>) -> Option<Kw>
    decreases ks.len(),
{
    if ks.len() == 0 {
        None
    } else if spelling(ks[0]) == u {
        Some(ks[0])
    } else {
        first_spelled(ks.drop_first(), u)
    }
}

/// The keyword that a word stands for: its spelling matches the word with
/// ASCII letters taken to upper case.
pub open spec fn keyword_of(word: Seq<char>) -> Option<Kw> {
    first_spelled(keyword_list(), ascii_upper_text(word))
}

fn keyword_list_exec() -> (r: Vec<Kw>)
    ensures
        r@ == keyword_list(),
{
    let r = vec![Kw::Select, Kw::With, Kw::Recursive, Kw::Insert, Kw::Replace, Kw::Update, Kw::Delete, Kw::Create, Kw::Drop, Kw::Distinct, Kw::From, Kw::Where, Kw::Group, Kw::By, Kw::Having, Kw::Order, Kw::Asc, Kw::Desc, Kw::Limit, Kw::Offset, Kw::As, Kw::Join, Kw::Inner, Kw::Left, Kw::Right, Kw::Full, Kw::Cross, Kw::Outer, Kw::On, Kw::Or, Kw::And, Kw::Not, Kw::Is, Kw::Null, Kw::Like, Kw::Between, Kw::In, Kw::Exists, Kw::Case, Kw::When, Kw::Then, Kw::Else, Kw::End, Kw::Count, Kw::Into, Kw::Values, Kw::SetKw, Kw::Table, Kw::If, Kw::Primary, Kw::Key, Kw::Constraint, Kw::Foreign, Kw::Unique, Kw::Check, Kw::Index, Kw::Default, Kw::View, Kw::Int, Kw::BigInt, Kw::SmallInt, Kw::TinyInt, Kw::VarChar, Kw::Char, Kw::Text, Kw::Boolean, Kw::Float, Kw::Double, Kw::Decimal, Kw::Real, Kw::Date, Kw::Time, Kw::Timestamp, Kw::Blob, Kw::Clob, Kw::Json, Kw::Jsonb, Kw::Xml, Kw::Uuid, Kw::Bytea];
    assert(r@ =~= keyword_list());
    r
}

/// The spelling of a keyword.
pub fn spell(k: Kw) -> (r: &'static str)
    ensures
        r@ == spelling(k),
{
    match k {
        Kw::Select => "SELECT",
        Kw::With => "WITH",
        Kw::Recursive => "RECURSIVE",
        Kw::Insert => "INSERT",
        Kw::Replace => "REPLACE",
        Kw::Update => "UPDATE",
        Kw::Delete => "DELETE",
        Kw::Create => "CREATE",
        Kw::Drop => "DROP",
        Kw::Distinct => "DISTINCT",
        Kw::From => "FROM",
        Kw::Where => "WHERE",
        Kw::Group => "GROUP",
        Kw::By => "BY",
        Kw::Having => "HAVING",
        Kw::Order => "ORDER",
        Kw::Asc => "ASC",
        Kw::Desc => "DESC",
        Kw::Limit => "LIMIT",
        Kw::Offset => "OFFSET",
        Kw::As => "AS",
        Kw::Join => "JOIN",
        Kw::Inner => "INNER",
        Kw::Left => "LEFT",
        Kw::Right => "RIGHT",
        Kw::Full => "FULL",
        Kw::Cross => "CROSS",
        Kw::Outer => "OUTER",
        Kw::On => "ON",
        Kw::Or => "OR",
        Kw::And => "AND",
        Kw::Not => "NOT",
        Kw::Is => "IS",
        Kw::Null => "NULL",
        Kw::Like => "LIKE",
        Kw::Between => "BETWEEN",
        Kw::In => "IN",
        Kw::Exists => "EXISTS",
        Kw::Case => "CASE",
        Kw::When => "WHEN",
        Kw::Then => "THEN",
        Kw::Else => "ELSE",
        Kw::End => "END",
        Kw::Count => "COUNT",
        Kw::Into => "INTO",
        Kw::Values => "VALUES",
        Kw::SetKw => "SET",
        Kw::Table => "TABLE",
        Kw::If => "IF",
        Kw::Primary => "PRIMARY",
        Kw::Key => "KEY",
        Kw::Constraint => "CONSTRAINT",
        Kw::Foreign => "FOREIGN",
        Kw::Unique => "UNIQUE",
        Kw::Check => "CHECK",
        Kw::Index => "INDEX",
        Kw::Default => "DEFAULT",
        Kw::View => "VIEW",
        Kw::Int => "INT",
        Kw::BigInt => "BIGINT",
        Kw::SmallInt => "SMALLINT",
        Kw::TinyInt => "TINYINT",
        Kw::VarChar => "VARCHAR",
        Kw::Char => "CHAR",
        Kw::Text => "TEXT",
        Kw::Boolean => "BOOLEAN",
        Kw::Float => "FLOAT",
        Kw::Double => "DOUBLE",
        Kw::Decimal => "DECIMAL",
        Kw::Real => "REAL",
        Kw::Date => "DATE",
        Kw::Time => "TIME",
        Kw::Timestamp => "TIMESTAMP",
        Kw::Blob => "BLOB",
        Kw::Clob => "CLOB",
        Kw::Json => "JSON",
        Kw::Jsonb => "JSONB",
        Kw::Xml => "XML",
        Kw::Uuid => "UUID",
        Kw::Bytea => "BYTEA",
        _ => {
            proof {
                reveal_strlit("");
            }
            ""
        },
    }
}

/// The keyword that `word` stands for, if any (ASCII case is ignored).
pub fn lookup_keyword(word: &[char]) -> (r: Option<Kw>)
    ensures
        r == keyword_of(word@),
{
    let u = ascii_upper_chars(word);
    let ks = keyword_list_exec();
    let mut i: usize = 0;
    assert(ks@.skip(0) =~= ks@);
    while i < ks.len()
        invariant
            ks@ == keyword_list(),
            i <= ks@.len(),
            u@ == ascii_upper_text(word@),
            first_spelled(keyword_list(), u@) == first_spelled(ks@.skip(i as int), u@),
        decreases ks@.len() - i,
    {
        let k = ks[i];
        assert(ks@.skip(i as int)[0] == k);
        assert(ks@.skip(i as int).drop_first() =~= ks@.skip(i as int + 1));
        if eq_str(&u, spell(k)) {
            return Some(k);
        }
        i = i + 1;
    }
    None
}

/// Whether `k` names a column data type.
pub open spec fn is_type_kw(k: Kw) -> bool {
    match k {
        Kw::Int | Kw::BigInt | Kw::SmallInt | Kw::TinyInt | Kw::VarChar | Kw::Char | Kw::Text | Kw::Boolean | Kw::Float | Kw::Double | Kw::Decimal | Kw::Real | Kw::Date | Kw::Time | Kw::Timestamp | Kw::Blob | Kw::Clob | Kw::Json | Kw::Jsonb | Kw::Xml | Kw::Uuid | Kw::Bytea => true,
        _ => false,
    }
}

/// Whether `k` names a column data type.
pub fn is_type_keyword(k: Kw) -> (r: bool)
    ensures
        r == is_type_kw(k),
{
    match k {
        Kw::Int | Kw::BigInt | Kw::SmallInt | Kw::TinyInt | Kw::VarChar | Kw::Char | Kw::Text | Kw::Boolean | Kw::Float | Kw::Double | Kw::Decimal | Kw::Real | Kw::Date | Kw::Time | Kw::Timestamp | Kw::Blob | Kw::Clob | Kw::Json | Kw::Jsonb | Kw::Xml | Kw::Uuid | Kw::Bytea => true,
        _ => false,
    }
}

/// The name of each variant, as `Debug` prints it.
pub open spec fn kw_name(k: Kw) -> Seq<char> {
    match k {
        Kw::Select => "Select"@,
        Kw::With => "With"@,
        Kw::Recursive => "Recursive"@,
        Kw::Insert => "Insert"@,
        Kw::Replace => "Replace"@,
        Kw::Update => "Update"@,
        Kw::Delete => "Delete"@,
        Kw::Create => "Create"@,
        Kw::Drop => "Drop"@,
        Kw::Distinct => "Distinct"@,
        Kw::From => "From"@,
        Kw::Where => "Where"@,
        Kw::Group => "Group"@,
        Kw::By => "By"@,
        Kw::Having => "Having"@,
        Kw::Order => "Order"@,
        Kw::Asc => "Asc"@,
        Kw::Desc => "Desc"@,
        Kw::Limit => "Limit"@,
        Kw::Offset => "Offset"@,
        Kw::As => "As"@,
        Kw::Join => "Join"@,
        Kw::Inner => "Inner"@,
        Kw::Left => "Left"@,
        Kw::Right => "Right"@,
        Kw::Full => "Full"@,
        Kw::Cross => "Cross"@,
        Kw::Outer => "Outer"@,
        Kw::On => "On"@,
        Kw::Or => "Or"@,
        Kw::And => "And"@,
        Kw::Not => "Not"@,
        Kw::Is => "Is"@,
        Kw::Null => "Null"@,
        Kw::Like => "Like"@,
        Kw::Between => "Between"@,
        Kw::In => "In"@,
        Kw::Exists => "Exists"@,
        Kw::Case => "Case"@,
        Kw::When => "When"@,
        Kw::Then => "Then"@,
        Kw::Else => "Else"@,
        Kw::End => "End"@,
        Kw::Count => "Count"@,
        Kw::Into => "Into"@,
        Kw::Values => "Values"@,
        Kw::SetKw => "Set"@,
        Kw::Table => "Table"@,
        Kw::If => "If"@,
        Kw::Primary => "Primary"@,
        Kw::Key => "Key"@,
        Kw::Constraint => "Constraint"@,
        Kw::Foreign => "Foreign"@,
        Kw::Unique => "Unique"@,
        Kw::Check => "Check"@,
        Kw::Index => "Index"@,
        Kw::Default => "Default"@,
        Kw::View => "View"@,
        Kw::Int => "Int"@,
        Kw::BigInt => "BigInt"@,
        Kw::SmallInt => "SmallInt"@,
        Kw::TinyInt => "TinyInt"@,
        Kw::VarChar => "VarChar"@,
        Kw::Char => "Char"@,
        Kw::Text => "Text"@,
        Kw::Boolean => "Boolean"@,
        Kw::Float => "Float"@,
        Kw::Double => "Double"@,
        Kw::Decimal => "Decimal"@,
        Kw::Real => "Real"@,
        Kw::Date => "Date"@,
        Kw::Time => "Time"@,
        Kw::Timestamp => "Timestamp"@,
        Kw::Blob => "Blob"@,
        Kw::Clob => "Clob"@,
        Kw::Json => "Json"@,
        Kw::Jsonb => "Jsonb"@,
        Kw::Xml => "Xml"@,
        Kw::Uuid => "Uuid"@,
        Kw::Bytea => "Bytea"@,
        Kw::Placeholder => "Placeholder"@,
        Kw::Eq => "Eq"@,
        Kw::Neq => "Neq"@,
        Kw::Lt => "Lt"@,
        Kw::Leq => "Leq"@,
        Kw::Gt => "Gt"@,
        Kw::Geq => "Geq"@,
        Kw::Plus => "Plus"@,
        Kw::Minus => "Minus"@,
        Kw::Arrow => "Arrow"@,
        Kw::Mul => "Mul"@,
        Kw::Div => "Div"@,
        Kw::Mod => "Mod"@,
        Kw::Dot => "Dot"@,
        Kw::Comma => "Comma"@,
        Kw::Semicolon => "Semicolon"@,
        Kw::LParen => "LParen"@,
        Kw::RParen => "RParen"@,
        Kw::LBracket => "LBracket"@,
        Kw::RBracket => "RBracket"@,
        Kw::DoubleColon => "DoubleColon"@,
        Kw::Assign => "Assign"@,
        Kw::Concat => "Concat"@,
        Kw::Eof => "Eof"@,
    }
}

/// The variant name of a keyword or mark.
pub fn kw_debug(k: Kw) -> (r: &'static str)
    ensures
        r@ == kw_name(k),
{
    match k {
        Kw::Select => "Select",
        Kw::With => "With",
        Kw::Recursive => "Recursive",
        Kw::Insert => "Insert",
        Kw::Replace => "Replace",
        Kw::Update => "Update",
        Kw::Delete => "Delete",
        Kw::Create => "Create",
        Kw::Drop => "Drop",
        Kw::Distinct => "Distinct",
        Kw::From => "From",
        Kw::Where => "Where",
        Kw::Group => "Group",
        Kw::By => "By",
        Kw::Having => "Having",
        Kw::Order => "Order",
        Kw::Asc => "Asc",
        Kw::Desc => "Desc",
        Kw::Limit => "Limit",
        Kw::Offset => "Offset",
        Kw::As => "As",
        Kw::Join => "Join",
        Kw::Inner => "Inner",
        Kw::Left => "Left",
        Kw::Right => "Right",
        Kw::Full => "Full",
        Kw::Cross => "Cross",
        Kw::Outer => "Outer",
        Kw::On => "On",
        Kw::Or => "Or",
        Kw::And => "And",
        Kw::Not => "Not",
        Kw::Is => "Is",
        Kw::Null => "Null",
        Kw::Like => "Like",
        Kw::Between => "Between",
        Kw::In => "In",
        Kw::Exists => "Exists",
        Kw::Case => "Case",
        Kw::When => "When",
        Kw::Then => "Then",
        Kw::Else => "Else",
        Kw::End => "End",
        Kw::Count => "Count",
        Kw::Into => "Into",
        Kw::Values => "Values",
        Kw::SetKw => "Set",
        Kw::Table => "Table",
        Kw::If => "If",
        Kw::Primary => "Primary",
        Kw::Key => "Key",
        Kw::Constraint => "Constraint",
        Kw::Foreign => "Foreign",
        Kw::Unique => "Unique",
        Kw::Check => "Check",
        Kw::Index => "Index",
        Kw::Default => "Default",
        Kw::View => "View",
        Kw::Int => "Int",
        Kw::BigInt => "BigInt",
        Kw::SmallInt => "SmallInt",
        Kw::TinyInt => "TinyInt",
        Kw::VarChar => "VarChar",
        Kw::Char => "Char",
        Kw::Text => "Text",
        Kw::Boolean => "Boolean",
        Kw::Float => "Float",
        Kw::Double => "Double",
        Kw::Decimal => "Decimal",
        Kw::Real => "Real",
        Kw::Date => "Date",
        Kw::Time => "Time",
        Kw::Timestamp => "Timestamp",
        Kw::Blob => "Blob",
        Kw::Clob => "Clob",
        Kw::Json => "Json",
        Kw::Jsonb => "Jsonb",
        Kw::Xml => "Xml",
        Kw::Uuid => "Uuid",
        Kw::Bytea => "Bytea",
        Kw::Placeholder => "Placeholder",
        Kw::Eq => "Eq",
        Kw::Neq => "Neq",
        Kw::Lt => "Lt",
        Kw::Leq => "Leq",
        Kw::Gt => "Gt",
        Kw::Geq => "Geq",
        Kw::Plus => "Plus",
        Kw::Minus => "Minus",
        Kw::Arrow => "Arrow",
        Kw::Mul => "Mul",
        Kw::Div => "Div",
        Kw::Mod => "Mod",
        Kw::Dot => "Dot",
        Kw::Comma => "Comma",
        Kw::Semicolon => "Semicolon",
        Kw::LParen => "LParen",
        Kw::RParen => "RParen",
        Kw::LBracket => "LBracket",
        Kw::RBracket => "RBracket",
        Kw::DoubleColon => "DoubleColon",
        Kw::Assign => "Assign",
        Kw::Concat => "Concat",
        Kw::Eof => "Eof",
    }
}

/// A text-carrying token as `Debug` prints it: `Name("text")`.
pub open spec fn wrapped_text(name: Seq<char>, s: Seq<char>) -> Seq<char> {
    name + seq!['(', '"'] + debug_escaped(s) + seq!['"', ')']
}

/// The text by which a token is shown in messages and, for unknown column
/// types, in a data-type name.
pub open spec fn token_text(t: SpecToken) -> Seq<char> {
    match t {
        SpecToken::Kw(k) => kw_name(k),
        SpecToken::Ident(s) => wrapped_text("Ident"@, s),
        SpecToken::QuotedIdent(s) => wrapped_text("QuotedIdent"@, s),
        SpecToken::Number(s) => wrapped_text("Number"@, s),
        SpecToken::StringLit(s) => wrapped_text("StringLit"@, s),
        SpecToken::HexString(s) => wrapped_text("HexString"@, s),
        SpecToken::Comment(s) => wrapped_text("Comment"@, s),
        SpecToken::BlockComment(s) => wrapped_text("BlockComment"@, s),
    }
}

fn wrap_text(name: &str, s: &String) -> (r: Vec<char>)
    ensures
        r@ == wrapped_text(name@, s@),
{
    let mut r: Vec<char> = Vec::new();
    push_str(&mut r, name);
    r.push('(');
    r.push('"');
    let e = escape_debug(s.as_str());
    push_chars(&mut r, &e);
    r.push('"');
    r.push(')');
    assert(r@ =~= wrapped_text(name@, s@));
    r
}

/// The text of a token as `token_text` gives it.
pub fn token_debug(t: &Token) -> (r: Vec<char>)
    ensures
        r@ == token_text(t@),
{
    match t {
        Token::Kw(k) => chars_of(kw_debug(*k)),
        Token::Ident(s) => wrap_text("Ident", s),
        Token::QuotedIdent(s) => wrap_text("QuotedIdent", s),
        Token::Number(s) => wrap_text("Number", s),
        Token::StringLit(s) => wrap_text("StringLit", s),
        Token::HexString(s) => wrap_text("HexString", s),
        Token::Comment(s) => wrap_text("Comment", s),
        Token::BlockComment(s) => wrap_text("BlockComment", s),
    }
}

} // verus!
