//! Laws that tie the printer to the lexer and the grammar: what is printed
//! for an operator or a join reads back as that operator or join.
use vstd::prelude::*;
use crate::sql::ast::{BinaryOpType, JoinType, SpecExpr, UnaryOpType};
use crate::sql::format::{bin_op_text, f_expr, join_type_text, unary_op_text};
use crate::sql::grammar::{add_op, cmp_op, g_join_type, mul_op};
use crate::sql::lexer::{lemma_operator_tokens, spec_tokenize, tokens_from, ws_end};
use crate::sql::token::{spelling, Kw, SpecToken};

verus! {

/// The keyword that opens a join of kind `jt`.
pub open spec fn join_keyword(jt: JoinType) -> Kw {
    match jt {
        JoinType::Inner => Kw::Inner,
        JoinType::Left => Kw::Left,
        JoinType::Right => Kw::Right,
        JoinType::Full => Kw::Full,
        JoinType::Cross => Kw::Cross,
    }
}

/// The words printed for joins and for the operators written as words are
/// the keywords that read back as them: a join of each kind prints as the
/// keyword that the grammar takes for that kind, then `JOIN`; `AND`, `OR`,
/// `LIKE` and `NOT` print as their keywords.
pub proof fn lemma_keyword_texts(jt: JoinType)
    ensures
        join_type_text(jt) == spelling(join_keyword(jt)) + " "@ + spelling(Kw::Join),
        g_join_type(seq![SpecToken::Kw(join_keyword(jt)), SpecToken::Kw(Kw::Join)], 0) == (jt, 2int),
        bin_op_text(BinaryOpType::And) == spelling(Kw::And),
        bin_op_text(BinaryOpType::Or) == spelling(Kw::Or),
        bin_op_text(BinaryOpType::Like) == spelling(Kw::Like),
        unary_op_text(UnaryOpType::Not) == spelling(Kw::Not) + " "@,
{
    reveal_strlit("INNER JOIN");
    reveal_strlit("LEFT JOIN");
    reveal_strlit("RIGHT JOIN");
    reveal_strlit("FULL JOIN");
    reveal_strlit("CROSS JOIN");
    reveal_strlit("INNER");
    reveal_strlit("LEFT");
    reveal_strlit("RIGHT");
    reveal_strlit("FULL");
    reveal_strlit("CROSS");
    reveal_strlit("JOIN");
    reveal_strlit(" ");
    reveal_strlit("NOT ");
    reveal_strlit("NOT");
    assert(join_type_text(jt) =~= spelling(join_keyword(jt)) + " "@ + spelling(Kw::Join));
    assert(unary_op_text(UnaryOpType::Not) =~= spelling(Kw::Not) + " "@);
}

/// The operator a token stands for between two operands, as the grammar
/// reads it: a comparison, an additive or a multiplicative operator.
pub open spec fn infix_op(t: SpecToken) -> Option<BinaryOpType> {
    match cmp_op(t) {
        Some(o) => Some(o),
        None => match add_op(t) {
            Some(o) => Some(o),
            None => mul_op(t),
        },
    }
}

/// Whether an operator is written with marks rather than a word.
pub open spec fn symbol_op(op: BinaryOpType) -> bool {
    !(op is And || op is Or || op is Like || op is Regex)
}

/// A binary expression prints as its left operand's text, the operator,
/// and its right operand's text, with single spaces between; and the text
/// printed for an operator written with marks reads back, through the
/// lexer, as one token that the grammar takes for that same operator. So a
/// `>=` comparison prints as `left >= right`.
pub proof fn lemma_binary_op_text(l: SpecExpr, op: BinaryOpType, r: SpecExpr)
    ensures
        f_expr(SpecExpr::BinaryOp { left: Box::new(l), op, right: Box::new(r) }) == f_expr(l) + " "@ + bin_op_text(op)
            + " "@ + f_expr(r),
        symbol_op(op) ==> spec_tokenize(bin_op_text(op)).len() == 2,
        symbol_op(op) ==> spec_tokenize(bin_op_text(op))[1] == SpecToken::Kw(Kw::Eof),
        symbol_op(op) ==> infix_op(spec_tokenize(bin_op_text(op))[0]) == Some(op),
{
    reveal(f_expr);
    reveal(spec_tokenize);
    let cs = bin_op_text(op);
    if symbol_op(op) {
        reveal_strlit("=");
        reveal_strlit("<>");
        reveal_strlit("<");
        reveal_strlit(">");
        reveal_strlit("<=");
        reveal_strlit(">=");
        reveal_strlit("+");
        reveal_strlit("-");
        reveal_strlit("*");
        reveal_strlit("/");
        reveal_strlit("%");
        reveal_strlit("||");
        reveal(crate::text::unicode_whitespace);
        assert(ws_end(cs, 0) == 0);
        lemma_operator_tokens(cs, 0);
        let e = cs.len() as int;
        assert(ws_end(cs, e) == e);
        assert(tokens_from(cs, e) == seq![SpecToken::Kw(Kw::Eof)]);
    }
}

} // verus!
