//! The grammar that the parser implements, as functions from a token
//! sequence and a position to a parsed value and the position after it.
//!
//! Positions range over `0..=ts.len()`; reading past the last token reads
//! `Eof`, and stepping over `Eof` stays in place.
use vstd::prelude::*;
use crate::sql::ast::{BinaryOpType, DropObjectType, JoinType, SpecColumnDef, SpecCreateTable, SpecDelete, SpecDrop, SpecInsert, SpecUpdate, SpecCte, SpecExpr, SpecJoin, SpecOrderBy, SpecSelect, SpecSelectItem, SpecStatement, SpecTableRef, UnaryOpType};
use crate::sql::token::{is_type_kw, spelling, token_text, Kw, SpecToken};

verus! {

/// A token sequence as the lexer produces it: `Eof` last and only last.
pub open spec fn wf_tokens(ts: Seq<SpecToken>) -> bool {
    &&& ts.len() > 0
    &&& ts.last() == SpecToken::Kw(Kw::Eof)
    &&& forall|i: int| 0 <= i < ts.len() - 1 ==> ts[i] != SpecToken::Kw(Kw::Eof)
}

/// The token at `i`; `Eof` outside the sequence.
pub open spec fn tok(ts: Seq<SpecToken>, i: int) -> SpecToken {
    if 0 <= i < ts.len() {
        ts[i]
    } else {
        SpecToken::Kw(Kw::Eof)
    }
}

/// Whether the token at `i` is the keyword or mark `k`.
pub open spec fn at_kw(ts: Seq<SpecToken>, i: int, k: Kw) -> bool {
    tok(ts, i) == SpecToken::Kw(k)
}

/// The position after the token at `i`; `Eof` is never stepped over.
pub open spec fn adv(ts: Seq<SpecToken>, i: int) -> int {
    if at_kw(ts, i, Kw::Eof) {
        i
    } else {
        i + 1
    }
}

/// `q` is a position at or after `p`.
pub open spec fn fwd(ts: Seq<SpecToken>, p: int, q: int) -> bool {
    p <= q <= ts.len()
}

/// Skips comment tokens.
pub open spec fn skip_comments(ts: Seq<SpecToken>, i: int) -> int
    decreases ts.len() - i,
{
    if 0 <= i < ts.len() && (ts[i] is Comment || ts[i] is BlockComment) {
        skip_comments(ts, i + 1)
    } else {
        i
    }
}

/// Requires the mark `k` and steps over it.
pub open spec fn g_expect(ts: Seq<SpecToken>, i: int, k: Kw) -> Result<int, ()> {
    if at_kw(ts, i, k) {
        Ok(adv(ts, i))
    } else {
        Err(())
    }
}

/// An identifier, plain or quoted.
pub open spec fn g_ident(ts: Seq<SpecToken>, i: int) -> Result<(Seq<char>, int), ()> {
    match tok(ts, i) {
        SpecToken::Ident(s) => Ok((s, adv(ts, i))),
        SpecToken::QuotedIdent(s) => Ok((s, adv(ts, i))),
        _ => Err(()),
    }
}

/// One or more identifiers separated by commas.
pub open spec fn g_ident_list(ts: Seq<SpecToken>, i: int) -> Result<(Seq<Seq<char>>, int), ()>
    decreases ts.len() - i,
{
    match g_ident(ts, i) {
        Err(()) => Err(()),
        Ok((n, p)) => if at_kw(ts, p, Kw::Comma) && fwd(ts, i, p) {
            match g_ident_list(ts, adv(ts, p)) {
                Err(()) => Err(()),
                Ok((r, e)) => Ok((seq![n] + r, e)),
            }
        } else {
            Ok((seq![n], p))
        },
    }
}

/// Whether the token at `i` begins a join.
pub open spec fn join_start(ts: Seq<SpecToken>, i: int) -> bool {
    at_kw(ts, i, Kw::Join) || at_kw(ts, i, Kw::Inner) || at_kw(ts, i, Kw::Left) || at_kw(ts, i, Kw::Right)
        || at_kw(ts, i, Kw::Full) || at_kw(ts, i, Kw::Cross)
}

/// The join type that starts at `i`, and where the table reference starts.
pub open spec fn g_join_type(ts: Seq<SpecToken>, i: int) -> (JoinType, int) {
    let q = adv(ts, i);
    let skip_outer = if at_kw(ts, q, Kw::Outer) { adv(ts, q) } else { q };
    let skip_join = |p: int| if at_kw(ts, p, Kw::Join) { adv(ts, p) } else { p };
    if at_kw(ts, i, Kw::Inner) {
        (JoinType::Inner, skip_join(q))
    } else if at_kw(ts, i, Kw::Left) {
        (JoinType::Left, skip_join(skip_outer))
    } else if at_kw(ts, i, Kw::Right) {
        (JoinType::Right, skip_join(skip_outer))
    } else if at_kw(ts, i, Kw::Full) {
        (JoinType::Full, skip_join(skip_outer))
    } else if at_kw(ts, i, Kw::Cross) {
        (JoinType::Cross, skip_join(q))
    } else {
        (JoinType::Inner, q)
    }
}

/// The comparison operator of a token, if it is one.
pub open spec fn cmp_op(t: SpecToken) -> Option<BinaryOpType> {
    match t {
        SpecToken::Kw(Kw::Eq) => Some(BinaryOpType::Eq),
        SpecToken::Kw(Kw::Neq) => Some(BinaryOpType::Neq),
        SpecToken::Kw(Kw::Lt) => Some(BinaryOpType::Lt),
        SpecToken::Kw(Kw::Gt) => Some(BinaryOpType::Gt),
        SpecToken::Kw(Kw::Leq) => Some(BinaryOpType::Leq),
        SpecToken::Kw(Kw::Geq) => Some(BinaryOpType::Geq),
        SpecToken::Kw(Kw::Like) => Some(BinaryOpType::Like),
        _ => None,
    }
}

/// The additive operator of a token, if it is one.
pub open spec fn add_op(t: SpecToken) -> Option<BinaryOpType> {
    match t {
        SpecToken::Kw(Kw::Plus) => Some(BinaryOpType::Plus),
        SpecToken::Kw(Kw::Minus) => Some(BinaryOpType::Minus),
        SpecToken::Kw(Kw::Concat) => Some(BinaryOpType::Concat),
        _ => None,
    }
}

/// The multiplicative operator of a token, if it is one.
pub open spec fn mul_op(t: SpecToken) -> Option<BinaryOpType> {
    match t {
        SpecToken::Kw(Kw::Mul) => Some(BinaryOpType::Mul),
        SpecToken::Kw(Kw::Div) => Some(BinaryOpType::Div),
        SpecToken::Kw(Kw::Mod) => Some(BinaryOpType::Mod),
        _ => None,
    }
}

pub open spec fn bin(l: SpecExpr, op: BinaryOpType, r: SpecExpr) -> SpecExpr {
    SpecExpr::BinaryOp { left: Box::new(l), op, right: Box::new(r) }
}

// The mutually recursive part of the grammar. Each function decreases the
// pair (tokens left, rank); a call at the same position goes to a lower rank.

/// `SELECT` statement, with an optional `WITH` clause first.
pub open spec fn g_select(ts: Seq<SpecToken>, i: int) -> Result<(SpecSelect, int), ()>
    decreases ts.len() - i, 60int,
{
    if at_kw(ts, i, Kw::With) {
        let j = adv(ts, i);
        let j2 = if at_kw(ts, j, Kw::Recursive) { adv(ts, j) } else { j };
        match g_cte_list(ts, j2) {
            Err(()) => Err(()),
            Ok((ctes, p)) => if fwd(ts, i, p) { g_select_body(ts, ctes, p) } else { Err(()) },
        }
    } else {
        g_select_body(ts, Seq::empty(), i)
    }
}

/// The optional column list of a common table expression.
pub open spec fn g_cte_cols(ts: Seq<SpecToken>, p: int) -> Result<(Seq<Seq<char>>, int), ()> {
    if at_kw(ts, p, Kw::LParen) {
        match g_ident_list(ts, adv(ts, p)) {
            Err(()) => Err(()),
            Ok((c, q)) => match g_expect(ts, q, Kw::RParen) {
                Err(()) => Err(()),
                Ok(q2) => Ok((c, q2)),
            },
        }
    } else {
        Ok((Seq::empty(), p))
    }
}

/// One common table expression: `name [(cols)] AS (select)`.
pub open spec fn g_cte(ts: Seq<SpecToken>, i: int) -> Result<(SpecCte, int), ()>
    decreases ts.len() - i, 58int,
{
    match g_ident(ts, i) {
        Err(()) => Err(()),
        Ok((name, p)) => match g_cte_cols(ts, p) {
            Err(()) => Err(()),
            Ok((c, q)) => match g_expect(ts, q, Kw::As) {
                Err(()) => Err(()),
                Ok(q2) => match g_expect(ts, q2, Kw::LParen) {
                    Err(()) => Err(()),
                    Ok(q3) => if !fwd(ts, i + 1, q3) { Err(()) } else {
                        match g_select(ts, q3) {
                            Err(()) => Err(()),
                            Ok((sel, q4)) => match g_expect(ts, q4, Kw::RParen) {
                                Err(()) => Err(()),
                                Ok(q5) => Ok((SpecCte { name, columns: c, query: Box::new(sel) }, q5)),
                            },
                        }
                    },
                },
            },
        },
    }
}

/// The common table expressions of a `WITH` clause.
pub open spec fn g_cte_list(ts: Seq<SpecToken>, i: int) -> Result<(Seq<SpecCte>, int), ()>
    decreases ts.len() - i, 59int,
{
    match g_cte(ts, i) {
        Err(()) => Err(()),
        Ok((cte, q)) => if at_kw(ts, q, Kw::Comma) && fwd(ts, i, q) {
            match g_cte_list(ts, adv(ts, q)) {
                Err(()) => Err(()),
                Ok((rest, e)) => Ok((seq![cte] + rest, e)),
            }
        } else {
            Ok((seq![cte], q))
        },
    }
}

/// The select list of a statement so far, with the clauses still empty.
pub open spec fn select_start(ctes: Seq<SpecCte>, distinct: bool, columns: Seq<SpecSelectItem>) -> SpecSelect {
    SpecSelect {
        with_cte: ctes,
        distinct,
        columns,
        from: None,
        joins: Seq::empty(),
        where_clause: None,
        group_by: Seq::empty(),
        having: None,
        order_by: Seq::empty(),
        limit: None,
        offset: None,
    }
}

/// The part of a `SELECT` statement from the `SELECT` keyword on.
pub open spec fn g_select_body(ts: Seq<SpecToken>, ctes: Seq<SpecCte>, p: int) -> Result<(SpecSelect, int), ()>
    decreases ts.len() - p, 57int,
{
    let q = adv(ts, p);
    let distinct = at_kw(ts, q, Kw::Distinct);
    let q2 = if distinct { adv(ts, q) } else { q };
    match g_select_items(ts, q2) {
        Err(()) => Err(()),
        Ok((columns, p1)) => if fwd(ts, p, p1) {
            g_sel_from(ts, select_start(ctes, distinct, columns), p1)
        } else {
            Err(())
        },
    }
}

pub open spec fn g_sel_from(ts: Seq<SpecToken>, s: SpecSelect, p: int) -> Result<(SpecSelect, int), ()>
    decreases ts.len() - p, 56int,
{
    match g_from(ts, p) {
        Err(()) => Err(()),
        Ok((from, q)) => if fwd(ts, p, q) { g_sel_joins(ts, SpecSelect { from, ..s }, q) } else { Err(()) },
    }
}

pub open spec fn g_sel_joins(ts: Seq<SpecToken>, s: SpecSelect, p: int) -> Result<(SpecSelect, int), ()>
    decreases ts.len() - p, 55int,
{
    match g_joins(ts, p) {
        Err(()) => Err(()),
        Ok((joins, q)) => if fwd(ts, p, q) { g_sel_where(ts, SpecSelect { joins, ..s }, q) } else { Err(()) },
    }
}

pub open spec fn g_sel_where(ts: Seq<SpecToken>, s: SpecSelect, p: int) -> Result<(SpecSelect, int), ()>
    decreases ts.len() - p, 54int,
{
    match g_opt_clause(ts, p, Kw::Where) {
        Err(()) => Err(()),
        Ok((w, q)) => if fwd(ts, p, q) { g_sel_group(ts, SpecSelect { where_clause: w, ..s }, q) } else { Err(()) },
    }
}

pub open spec fn g_sel_group(ts: Seq<SpecToken>, s: SpecSelect, p: int) -> Result<(SpecSelect, int), ()>
    decreases ts.len() - p, 53int,
{
    match g_group_by(ts, p) {
        Err(()) => Err(()),
        Ok((g, q)) => if fwd(ts, p, q) { g_sel_having(ts, SpecSelect { group_by: g, ..s }, q) } else { Err(()) },
    }
}

pub open spec fn g_sel_having(ts: Seq<SpecToken>, s: SpecSelect, p: int) -> Result<(SpecSelect, int), ()>
    decreases ts.len() - p, 52int,
{
    match g_opt_clause(ts, p, Kw::Having) {
        Err(()) => Err(()),
        Ok((h, q)) => if fwd(ts, p, q) { g_sel_order(ts, SpecSelect { having: h, ..s }, q) } else { Err(()) },
    }
}

pub open spec fn g_sel_order(ts: Seq<SpecToken>, s: SpecSelect, p: int) -> Result<(SpecSelect, int), ()>
    decreases ts.len() - p, 51int,
{
    match g_order_by(ts, p) {
        Err(()) => Err(()),
        Ok((o, q)) => if fwd(ts, p, q) { g_sel_limit(ts, SpecSelect { order_by: o, ..s }, q) } else { Err(()) },
    }
}

pub open spec fn g_sel_limit(ts: Seq<SpecToken>, s: SpecSelect, p: int) -> Result<(SpecSelect, int), ()>
    decreases ts.len() - p, 50int,
{
    match g_opt_clause(ts, p, Kw::Limit) {
        Err(()) => Err(()),
        Ok((l, q)) => if fwd(ts, p, q) { g_sel_offset(ts, SpecSelect { limit: l, ..s }, q) } else { Err(()) },
    }
}

pub open spec fn g_sel_offset(ts: Seq<SpecToken>, s: SpecSelect, p: int) -> Result<(SpecSelect, int), ()>
    decreases ts.len() - p, 49int,
{
    match g_opt_clause(ts, p, Kw::Offset) {
        Err(()) => Err(()),
        Ok((o, q)) => Ok((SpecSelect { offset: o, ..s }, q)),
    }
}

/// One item of a select list.
pub open spec fn g_select_item(ts: Seq<SpecToken>, i: int) -> Result<(SpecSelectItem, int), ()>
    decreases ts.len() - i, 33int,
{
    if at_kw(ts, i, Kw::Mul) {
        Ok((SpecSelectItem::Wildcard(None), adv(ts, i)))
    } else {
        match g_expr(ts, i) {
            Err(()) => Err(()),
            Ok((e, p)) => if at_kw(ts, p, Kw::As) {
                match g_ident(ts, adv(ts, p)) {
                    Err(()) => Err(()),
                    Ok((a, q)) => Ok((SpecSelectItem::Expr(e, Some(a)), q)),
                }
            } else if tok(ts, p) is Ident {
                match g_ident(ts, p) {
                    Err(()) => Err(()),
                    Ok((a, q)) => Ok((SpecSelectItem::Expr(e, Some(a)), q)),
                }
            } else {
                Ok((SpecSelectItem::Expr(e, None), p))
            },
        }
    }
}

/// The select list: items separated by commas.
pub open spec fn g_select_items(ts: Seq<SpecToken>, i: int) -> Result<(Seq<SpecSelectItem>, int), ()>
    decreases ts.len() - i, 34int,
{
    match g_select_item(ts, i) {
        Err(()) => Err(()),
        Ok((it, p)) => if at_kw(ts, p, Kw::Comma) && fwd(ts, i, p) {
            match g_select_items(ts, adv(ts, p)) {
                Err(()) => Err(()),
                Ok((rest, e)) => Ok((seq![it] + rest, e)),
            }
        } else {
            Ok((seq![it], p))
        },
    }
}

/// An optional `FROM` clause.
pub open spec fn g_from(ts: Seq<SpecToken>, i: int) -> Result<(Option<SpecTableRef>, int), ()>
    decreases ts.len() - i, 33int,
{
    if at_kw(ts, i, Kw::From) {
        match g_table_ref(ts, adv(ts, i)) {
            Err(()) => Err(()),
            Ok((t, p)) => Ok((Some(t), p)),
        }
    } else {
        Ok((None, i))
    }
}

/// A table reference: a subquery in parentheses, or a possibly qualified
/// table name with an optional alias.
pub open spec fn g_table_ref(ts: Seq<SpecToken>, i: int) -> Result<(SpecTableRef, int), ()>
    decreases ts.len() - i, 32int,
{
    if at_kw(ts, i, Kw::LParen) {
        match g_select(ts, adv(ts, i)) {
            Err(()) => Err(()),
            Ok((sub, p)) => match g_expect(ts, p, Kw::RParen) {
                Err(()) => Err(()),
                Ok(q) => if tok(ts, q) is Ident {
                    match g_ident(ts, q) {
                        Err(()) => Err(()),
                        Ok((a, e)) => Ok((SpecTableRef::SubQuery(Box::new(SpecStatement::Select(Box::new(sub))), a), e)),
                    }
                } else {
                    Ok((SpecTableRef::SubQuery(Box::new(SpecStatement::Select(Box::new(sub))), "sub"@), q))
                },
            },
        }
    } else {
        match g_ident(ts, i) {
            Err(()) => Err(()),
            Ok((name, p)) => if at_kw(ts, p, Kw::Dot) {
                match g_ident(ts, adv(ts, p)) {
                    Err(()) => Err(()),
                    Ok((name2, q)) => if tok(ts, q) is Ident {
                        match g_ident(ts, q) {
                            Err(()) => Err(()),
                            Ok((a, e)) => Ok((SpecTableRef::Table { name: name2, alias: Some(a), schema: Some(name) }, e)),
                        }
                    } else {
                        Ok((SpecTableRef::Table { name: name2, alias: None, schema: Some(name) }, q))
                    },
                }
            } else if tok(ts, p) is Ident {
                match g_ident(ts, p) {
                    Err(()) => Err(()),
                    Ok((a, e)) => Ok((SpecTableRef::Table { name, alias: Some(a), schema: None }, e)),
                }
            } else if at_kw(ts, p, Kw::As) {
                match g_ident(ts, adv(ts, p)) {
                    Err(()) => Err(()),
                    Ok((a, e)) => Ok((SpecTableRef::Table { name, alias: Some(a), schema: None }, e)),
                }
            } else {
                Ok((SpecTableRef::Table { name, alias: None, schema: None }, p))
            },
        }
    }
}

/// Zero or more joins.
pub open spec fn g_joins(ts: Seq<SpecToken>, i: int) -> Result<(Seq<SpecJoin>, int), ()>
    decreases ts.len() - i, 33int,
{
    if join_start(ts, i) {
        let (jt, q) = g_join_type(ts, i);
        if !fwd(ts, i + 1, q) {
            Err(())
        } else {
            match g_table_ref(ts, q) {
                Err(()) => Err(()),
                Ok((table, p)) => match g_expect(ts, p, Kw::On) {
                    Err(()) => Err(()),
                    Ok(p2) => if !fwd(ts, i + 1, p2) { Err(()) } else {
                        match g_expr(ts, p2) {
                            Err(()) => Err(()),
                            Ok((on, p3)) => if !fwd(ts, i + 1, p3) { Err(()) } else {
                                match g_joins(ts, p3) {
                                    Err(()) => Err(()),
                                    Ok((rest, e)) => Ok((seq![SpecJoin { join_type: jt, table, on }] + rest, e)),
                                }
                            },
                        }
                    },
                },
            }
        }
    } else {
        Ok((Seq::empty(), i))
    }
}

/// A join takes its kind from the keyword that opens it: `LEFT`, `RIGHT`,
/// `FULL` and `CROSS` give those kinds, `INNER` and a bare `JOIN` an inner
/// join. So a join list read at such a keyword starts with a join of that
/// kind, and the table of a `LEFT OUTER JOIN` (likewise `RIGHT` and `FULL`)
/// is read right after the three words.
pub proof fn lemma_join_kind(ts: Seq<SpecToken>, i: int)
    requires
        0 <= i,
    ensures
        g_joins(ts, i) matches Ok((js, _)) ==> {
            &&& at_kw(ts, i, Kw::Left) ==> js.len() > 0 && js[0].join_type == JoinType::Left
            &&& at_kw(ts, i, Kw::Right) ==> js.len() > 0 && js[0].join_type == JoinType::Right
            &&& at_kw(ts, i, Kw::Full) ==> js.len() > 0 && js[0].join_type == JoinType::Full
            &&& at_kw(ts, i, Kw::Cross) ==> js.len() > 0 && js[0].join_type == JoinType::Cross
            &&& at_kw(ts, i, Kw::Inner) ==> js.len() > 0 && js[0].join_type == JoinType::Inner
            &&& at_kw(ts, i, Kw::Join) ==> js.len() > 0 && js[0].join_type == JoinType::Inner
        },
        (at_kw(ts, i, Kw::Left) || at_kw(ts, i, Kw::Right) || at_kw(ts, i, Kw::Full)) && at_kw(ts, i + 1, Kw::Outer)
            && at_kw(ts, i + 2, Kw::Join) ==> g_join_type(ts, i).1 == i + 3,
        (at_kw(ts, i, Kw::Left) || at_kw(ts, i, Kw::Right) || at_kw(ts, i, Kw::Full) || at_kw(ts, i, Kw::Inner)
            || at_kw(ts, i, Kw::Cross)) && at_kw(ts, i + 1, Kw::Join) ==> g_join_type(ts, i).1 == i + 2,
{
}

/// Each order item is ascending unless `DESC` follows its expression: an
/// item read at `i` sorts by the expression there, downwards exactly when
/// `DESC` comes next.
pub proof fn lemma_order_direction(ts: Seq<SpecToken>, i: int)
    ensures
        g_order_items(ts, i) matches Ok((items, _)) ==> items.len() > 0 && (g_expr(ts, i) matches Ok((e, p))
            && items[0].expr == e && (at_kw(ts, p, Kw::Desc) ==> !items[0].asc) && (!at_kw(ts, p, Kw::Desc)
            ==> items[0].asc)),
{
}

/// `DROP TABLE`, `DROP VIEW` and `DROP INDEX` drop an object of that kind,
/// and `IF EXISTS` before the name sets the flag; a `DROP` that is read
/// names the object after those words.
pub proof fn lemma_drop_kind(ts: Seq<SpecToken>, i: int)
    ensures
        g_drop(ts, i) matches Ok((d, _)) ==> {
            &&& at_kw(ts, i + 1, Kw::Table) ==> d.object_type == DropObjectType::Table
            &&& at_kw(ts, i + 1, Kw::View) ==> d.object_type == DropObjectType::View
            &&& at_kw(ts, i + 1, Kw::Index) ==> d.object_type == DropObjectType::Index
            &&& (at_kw(ts, i + 1, Kw::Table) || at_kw(ts, i + 1, Kw::View) || at_kw(ts, i + 1, Kw::Index))
                ==> (d.if_exists <==> at_kw(ts, i + 2, Kw::If))
        },
        !at_kw(ts, i, Kw::Eof) && (at_kw(ts, i + 1, Kw::Table) || at_kw(ts, i + 1, Kw::View) || at_kw(ts, i + 1, Kw::Index))
            && at_kw(ts, i + 2, Kw::If) && at_kw(ts, i + 3, Kw::Exists) && tok(ts, i + 4) is Ident
            ==> g_drop(ts, i) == Ok::<(SpecDrop, int), ()>((SpecDrop {
                object_type: if at_kw(ts, i + 1, Kw::Table) {
                    DropObjectType::Table
                } else if at_kw(ts, i + 1, Kw::View) {
                    DropObjectType::View
                } else {
                    DropObjectType::Index
                },
                if_exists: true,
                name: tok(ts, i + 4)->Ident_0,
            }, i + 5)),
{
    reveal(g_drop);
}

/// An optional clause `k expr` (`WHERE`, `HAVING`, `LIMIT`, `OFFSET`).
pub open spec fn g_opt_clause(ts: Seq<SpecToken>, i: int, k: Kw) -> Result<(Option<SpecExpr>, int), ()>
    decreases ts.len() - i, 33int,
{
    if at_kw(ts, i, k) {
        match g_expr(ts, adv(ts, i)) {
            Err(()) => Err(()),
            Ok((e, p)) => Ok((Some(e), p)),
        }
    } else {
        Ok((None, i))
    }
}

/// An optional `GROUP BY` list.
pub open spec fn g_group_by(ts: Seq<SpecToken>, i: int) -> Result<(Seq<SpecExpr>, int), ()>
    decreases ts.len() - i, 33int,
{
    if at_kw(ts, i, Kw::Group) {
        match g_expect(ts, adv(ts, i), Kw::By) {
            Err(()) => Err(()),
            Ok(q) => g_expr_list(ts, q),
        }
    } else {
        Ok((Seq::empty(), i))
    }
}

/// An optional `ORDER BY` list.
pub open spec fn g_order_by(ts: Seq<SpecToken>, i: int) -> Result<(Seq<SpecOrderBy>, int), ()>
    decreases ts.len() - i, 33int,
{
    if at_kw(ts, i, Kw::Order) {
        match g_expect(ts, adv(ts, i), Kw::By) {
            Err(()) => Err(()),
            Ok(q) => g_order_items(ts, q),
        }
    } else {
        Ok((Seq::empty(), i))
    }
}

/// Order items separated by commas, each with an optional `ASC` or `DESC`.
pub open spec fn g_order_items(ts: Seq<SpecToken>, i: int) -> Result<(Seq<SpecOrderBy>, int), ()>
    decreases ts.len() - i, 31int,
{
    match g_expr(ts, i) {
        Err(()) => Err(()),
        Ok((e, p)) => {
            let asc = !at_kw(ts, p, Kw::Desc);
            let q = if at_kw(ts, p, Kw::Asc) || at_kw(ts, p, Kw::Desc) { adv(ts, p) } else { p };
            let item = SpecOrderBy { expr: e, asc };
            if at_kw(ts, q, Kw::Comma) && fwd(ts, i, q) {
                match g_order_items(ts, adv(ts, q)) {
                    Err(()) => Err(()),
                    Ok((rest, r)) => Ok((seq![item] + rest, r)),
                }
            } else {
                Ok((seq![item], q))
            }
        },
    }
}

/// Expressions separated by commas.
pub open spec fn g_expr_list(ts: Seq<SpecToken>, i: int) -> Result<(Seq<SpecExpr>, int), ()>
    decreases ts.len() - i, 31int,
{
    match g_expr(ts, i) {
        Err(()) => Err(()),
        Ok((e, p)) => if at_kw(ts, p, Kw::Comma) && fwd(ts, i, p) {
            match g_expr_list(ts, adv(ts, p)) {
                Err(()) => Err(()),
                Ok((rest, r)) => Ok((seq![e] + rest, r)),
            }
        } else {
            Ok((seq![e], p))
        },
    }
}

/// An expression.
pub open spec fn g_expr(ts: Seq<SpecToken>, i: int) -> Result<(SpecExpr, int), ()>
    decreases ts.len() - i, 30int,
{
    match g_and(ts, i) {
        Err(()) => Err(()),
        Ok((l, p)) => if fwd(ts, i, p) { g_or_tail(ts, l, p) } else { Err(()) },
    }
}

pub open spec fn g_or_tail(ts: Seq<SpecToken>, l: SpecExpr, p: int) -> Result<(SpecExpr, int), ()>
    decreases ts.len() - p, 29int,
{
    if at_kw(ts, p, Kw::Or) {
        match g_and(ts, adv(ts, p)) {
            Err(()) => Err(()),
            Ok((r, q)) => if fwd(ts, p + 1, q) { g_or_tail(ts, bin(l, BinaryOpType::Or, r), q) } else { Err(()) },
        }
    } else {
        Ok((l, p))
    }
}

pub open spec fn g_and(ts: Seq<SpecToken>, i: int) -> Result<(SpecExpr, int), ()>
    decreases ts.len() - i, 28int,
{
    match g_comparison(ts, i) {
        Err(()) => Err(()),
        Ok((l, p)) => if fwd(ts, i, p) { g_and_tail(ts, l, p) } else { Err(()) },
    }
}

pub open spec fn g_and_tail(ts: Seq<SpecToken>, l: SpecExpr, p: int) -> Result<(SpecExpr, int), ()>
    decreases ts.len() - p, 27int,
{
    if at_kw(ts, p, Kw::And) {
        match g_comparison(ts, adv(ts, p)) {
            Err(()) => Err(()),
            Ok((r, q)) => if fwd(ts, p + 1, q) { g_and_tail(ts, bin(l, BinaryOpType::And, r), q) } else { Err(()) },
        }
    } else {
        Ok((l, p))
    }
}

/// A comparison: a chain of comparison operators, then optionally
/// `IS [NOT] NULL`, `NOT BETWEEN/IN/LIKE/EXISTS`, `BETWEEN`, `IN`.
pub open spec fn g_comparison(ts: Seq<SpecToken>, i: int) -> Result<(SpecExpr, int), ()>
    decreases ts.len() - i, 26int,
{
    match g_additive(ts, i) {
        Err(()) => Err(()),
        Ok((l, p)) => if !fwd(ts, i, p) { Err(()) } else {
            match g_cmp_tail(ts, l, p) {
                Err(()) => Err(()),
                Ok((l2, p2)) => if !fwd(ts, i, p2) { Err(()) } else {
                    let (l3, p3) = g_is_null(ts, l2, p2);
                    match g_not_suffix(ts, l3, p3) {
                        Err(()) => Err(()),
                        Ok((l4, p4)) => if !fwd(ts, i, p4) { Err(()) } else {
                            match g_between(ts, l4, p4, false) {
                                Err(()) => Err(()),
                                Ok((l5, p5)) => if !fwd(ts, i, p5) { Err(()) } else {
                                    g_in(ts, l5, p5, false)
                                },
                            }
                        },
                    }
                },
            }
        },
    }
}

pub open spec fn g_cmp_tail(ts: Seq<SpecToken>, l: SpecExpr, p: int) -> Result<(SpecExpr, int), ()>
    decreases ts.len() - p, 25int,
{
    match cmp_op(tok(ts, p)) {
        None => Ok((l, p)),
        Some(op) => match g_additive(ts, adv(ts, p)) {
            Err(()) => Err(()),
            Ok((r, q)) => if fwd(ts, p + 1, q) { g_cmp_tail(ts, bin(l, op, r), q) } else { Err(()) },
        },
    }
}

/// A comparison mark between two operands makes a comparison with the
/// operator the mark stands for (`<=` the less-or-equal comparison), and
/// `IS NULL` and `IS NOT NULL` after an operand test it for null, the
/// second negated.
pub proof fn lemma_comparison_shape(ts: Seq<SpecToken>, l: SpecExpr, p: int, r: SpecExpr, q: int)
    requires
        0 <= p,
    ensures
        (cmp_op(tok(ts, p)) is Some && g_additive(ts, p + 1) == Ok::<(SpecExpr, int), ()>((r, q)) && p + 1 <= q
            <= ts.len() && cmp_op(tok(ts, q)) is None) ==> g_cmp_tail(ts, l, p) == Ok::<(SpecExpr, int), ()>(
            (bin(l, cmp_op(tok(ts, p))->Some_0, r), q),
        ),
        at_kw(ts, p, Kw::Is) && at_kw(ts, p + 1, Kw::Null) ==> g_is_null(ts, l, p) == (
            SpecExpr::IsNull { expr: Box::new(l), not: false },
            p + 2,
        ),
        at_kw(ts, p, Kw::Is) && at_kw(ts, p + 1, Kw::Not) && at_kw(ts, p + 2, Kw::Null) ==> g_is_null(ts, l, p) == (
            SpecExpr::IsNull { expr: Box::new(l), not: true },
            p + 3,
        ),
{
    if cmp_op(tok(ts, p)) is Some && g_additive(ts, p + 1) == Ok::<(SpecExpr, int), ()>((r, q)) && p + 1 <= q
        <= ts.len() && cmp_op(tok(ts, q)) is None {
        let op = cmp_op(tok(ts, p))->Some_0;
        assert(!at_kw(ts, p, Kw::Eof));
        assert(g_cmp_tail(ts, bin(l, op, r), q) == Ok::<(SpecExpr, int), ()>((bin(l, op, r), q)));
    }
}

/// `IS [NOT] NULL`; when `NULL` does not follow, the keywords are still read.
pub open spec fn g_is_null(ts: Seq<SpecToken>, l: SpecExpr, p: int) -> (SpecExpr, int) {
    if at_kw(ts, p, Kw::Is) {
        let q = adv(ts, p);
        let not = at_kw(ts, q, Kw::Not);
        let q2 = if not { adv(ts, q) } else { q };
        if at_kw(ts, q2, Kw::Null) {
            (SpecExpr::IsNull { expr: Box::new(l), not }, adv(ts, q2))
        } else {
            (l, q2)
        }
    } else {
        (l, p)
    }
}

/// `low AND high` after `BETWEEN`.
pub open spec fn g_range(ts: Seq<SpecToken>, l: SpecExpr, p: int, not: bool) -> Result<(SpecExpr, int), ()>
    decreases ts.len() - p, 24int,
{
    match g_additive(ts, p) {
        Err(()) => Err(()),
        Ok((low, q)) => match g_expect(ts, q, Kw::And) {
            Err(()) => Err(()),
            Ok(q2) => if !fwd(ts, p, q2) { Err(()) } else {
                match g_additive(ts, q2) {
                    Err(()) => Err(()),
                    Ok((high, e)) => Ok((SpecExpr::Between {
                        expr: Box::new(l),
                        low: Box::new(low),
                        high: Box::new(high),
                        not,
                    }, e)),
                }
            },
        },
    }
}

/// `(list)` after `IN`.
pub open spec fn g_in_list(ts: Seq<SpecToken>, l: SpecExpr, p: int, not: bool) -> Result<(SpecExpr, int), ()>
    decreases ts.len() - p, 24int,
{
    match g_expect(ts, p, Kw::LParen) {
        Err(()) => Err(()),
        Ok(q) => if !fwd(ts, p + 1, q) { Err(()) } else {
            match g_expr_list(ts, q) {
                Err(()) => Err(()),
                Ok((items, q2)) => match g_expect(ts, q2, Kw::RParen) {
                    Err(()) => Err(()),
                    Ok(e) => Ok((SpecExpr::InList { expr: Box::new(l), list: items, not }, e)),
                },
            }
        },
    }
}

/// `NOT BETWEEN`, `NOT IN`, `NOT LIKE`, `NOT EXISTS`; any other token after
/// `NOT` leaves the expression as it is, with `NOT` read.
pub open spec fn g_not_suffix(ts: Seq<SpecToken>, l: SpecExpr, p: int) -> Result<(SpecExpr, int), ()>
    decreases ts.len() - p, 25int,
{
    if at_kw(ts, p, Kw::Not) {
        let q = adv(ts, p);
        if at_kw(ts, q, Kw::Between) {
            g_range(ts, l, adv(ts, q), true)
        } else if at_kw(ts, q, Kw::In) {
            g_in_list(ts, l, adv(ts, q), true)
        } else if at_kw(ts, q, Kw::Like) {
            match g_additive(ts, adv(ts, q)) {
                Err(()) => Err(()),
                Ok((pat, e)) => Ok((SpecExpr::Like { expr: Box::new(l), pattern: Box::new(pat), not: true }, e)),
            }
        } else if at_kw(ts, q, Kw::Exists) {
            g_exists(ts, adv(ts, q), true)
        } else {
            Ok((l, q))
        }
    } else {
        Ok((l, p))
    }
}

/// `BETWEEN low AND high`.
pub open spec fn g_between(ts: Seq<SpecToken>, l: SpecExpr, p: int, not: bool) -> Result<(SpecExpr, int), ()>
    decreases ts.len() - p, 25int,
{
    if at_kw(ts, p, Kw::Between) {
        g_range(ts, l, adv(ts, p), not)
    } else {
        Ok((l, p))
    }
}

/// `IN (list)`.
pub open spec fn g_in(ts: Seq<SpecToken>, l: SpecExpr, p: int, not: bool) -> Result<(SpecExpr, int), ()>
    decreases ts.len() - p, 25int,
{
    if at_kw(ts, p, Kw::In) {
        g_in_list(ts, l, adv(ts, p), not)
    } else {
        Ok((l, p))
    }
}

pub open spec fn g_additive(ts: Seq<SpecToken>, i: int) -> Result<(SpecExpr, int), ()>
    decreases ts.len() - i, 23int,
{
    match g_multiplicative(ts, i) {
        Err(()) => Err(()),
        Ok((l, p)) => if fwd(ts, i, p) { g_add_tail(ts, l, p) } else { Err(()) },
    }
}

pub open spec fn g_add_tail(ts: Seq<SpecToken>, l: SpecExpr, p: int) -> Result<(SpecExpr, int), ()>
    decreases ts.len() - p, 22int,
{
    match add_op(tok(ts, p)) {
        None => Ok((l, p)),
        Some(op) => match g_multiplicative(ts, adv(ts, p)) {
            Err(()) => Err(()),
            Ok((r, q)) => if fwd(ts, p + 1, q) { g_add_tail(ts, bin(l, op, r), q) } else { Err(()) },
        },
    }
}

pub open spec fn g_multiplicative(ts: Seq<SpecToken>, i: int) -> Result<(SpecExpr, int), ()>
    decreases ts.len() - i, 21int,
{
    match g_primary(ts, i) {
        Err(()) => Err(()),
        Ok((l, p)) => if fwd(ts, i, p) { g_mul_tail(ts, l, p) } else { Err(()) },
    }
}

pub open spec fn g_mul_tail(ts: Seq<SpecToken>, l: SpecExpr, p: int) -> Result<(SpecExpr, int), ()>
    decreases ts.len() - p, 20int,
{
    match mul_op(tok(ts, p)) {
        None => Ok((l, p)),
        Some(op) => match g_primary(ts, adv(ts, p)) {
            Err(()) => Err(()),
            Ok((r, q)) => if fwd(ts, p + 1, q) { g_mul_tail(ts, bin(l, op, r), q) } else { Err(()) },
        },
    }
}

/// The arguments of a function call, after `(`: optional `DISTINCT`, then
/// expressions unless `)` follows, then `)`.
pub open spec fn g_call(ts: Seq<SpecToken>, name: Seq<char>, p: int) -> Result<(SpecExpr, int), ()>
    decreases ts.len() - p, 32int,
{
    let distinct = at_kw(ts, p, Kw::Distinct);
    let q = if distinct { adv(ts, p) } else { p };
    let args: Result<(Seq<SpecExpr>, int), ()> = if at_kw(ts, q, Kw::RParen) {
        Ok((Seq::empty(), q))
    } else {
        g_expr_list(ts, q)
    };
    match args {
        Err(()) => Err(()),
        Ok((a, q2)) => match g_expect(ts, q2, Kw::RParen) {
            Err(()) => Err(()),
            Ok(e) => Ok((SpecExpr::Function { name, args: a, distinct }, e)),
        },
    }
}

/// `( select )` after `EXISTS`.
pub open spec fn g_exists(ts: Seq<SpecToken>, p: int, not: bool) -> Result<(SpecExpr, int), ()>
    decreases ts.len() - p, 24int,
{
    if at_kw(ts, p, Kw::LParen) {
        match g_select(ts, p + 1) {
            Err(()) => Err(()),
            Ok((sub, q)) => match g_expect(ts, q, Kw::RParen) {
                Err(()) => Err(()),
                Ok(e) => Ok((SpecExpr::Exists(Box::new(SpecStatement::Select(Box::new(sub))), not), e)),
            },
        }
    } else {
        Err(())
    }
}

/// What follows an identifier `name` in an expression, from `q`: a column
/// after a dot, the arguments of a call, or nothing.
pub open spec fn g_name_expr(ts: Seq<SpecToken>, name: Seq<char>, q: int) -> Result<(SpecExpr, int), ()>
    decreases ts.len() - q, 17int,
{
    if at_kw(ts, q, Kw::Dot) {
        match g_ident(ts, adv(ts, q)) {
            Err(()) => Err(()),
            Ok((col, e)) => Ok((SpecExpr::Identifier(seq![name, col]), e)),
        }
    } else if at_kw(ts, q, Kw::LParen) {
        g_call(ts, name, q + 1)
    } else {
        Ok((SpecExpr::Identifier(seq![name]), q))
    }
}

/// A subquery or a nested expression in parentheses, from the `(` at `i`.
pub open spec fn g_paren(ts: Seq<SpecToken>, i: int) -> Result<(SpecExpr, int), ()>
    decreases ts.len() - i, 17int,
{
    let q = i + 1;
    if !(0 <= i < ts.len()) {
        Err(())
    } else if at_kw(ts, q, Kw::Select) {
        match g_select(ts, q) {
            Err(()) => Err(()),
            Ok((sub, p)) => match g_expect(ts, p, Kw::RParen) {
                Err(()) => Err(()),
                Ok(e) => Ok((SpecExpr::SubQuery(Box::new(SpecStatement::Select(Box::new(sub)))), e)),
            },
        }
    } else {
        match g_expr(ts, q) {
            Err(()) => Err(()),
            Ok((x, p)) => match g_expect(ts, p, Kw::RParen) {
                Err(()) => Err(()),
                Ok(e) => Ok((SpecExpr::Nested(Box::new(x)), e)),
            },
        }
    }
}

/// `(*)` or `(expr)` after `COUNT`.
pub open spec fn g_count(ts: Seq<SpecToken>, q: int) -> Result<(SpecExpr, int), ()>
    decreases ts.len() - q, 17int,
{
    if at_kw(ts, q, Kw::LParen) {
        let q2 = q + 1;
        let arg: Result<(SpecExpr, int), ()> = if at_kw(ts, q2, Kw::Mul) {
            Ok((SpecExpr::Wildcard, adv(ts, q2)))
        } else {
            g_expr(ts, q2)
        };
        match arg {
            Err(()) => Err(()),
            Ok((x, p)) => match g_expect(ts, p, Kw::RParen) {
                Err(()) => Err(()),
                Ok(e) => Ok((SpecExpr::Aggregate { name: "COUNT"@, expr: Box::new(x) }, e)),
            },
        }
    } else {
        Err(())
    }
}

/// A primary expression.
pub open spec fn g_primary(ts: Seq<SpecToken>, i: int) -> Result<(SpecExpr, int), ()>
    decreases ts.len() - i, 18int,
{
    let q = adv(ts, i);
    match tok(ts, i) {
        SpecToken::Ident(name) => g_name_expr(ts, name, i + 1),
        SpecToken::Number(n) => Ok((SpecExpr::NumberLiteral(n), q)),
        SpecToken::StringLit(s) => Ok((SpecExpr::StringLiteral(s), q)),
        SpecToken::Kw(Kw::Null) => Ok((SpecExpr::Null, q)),
        SpecToken::Kw(Kw::Placeholder) => Ok((SpecExpr::Placeholder, q)),
        SpecToken::Kw(Kw::Mul) => Ok((SpecExpr::Wildcard, q)),
        SpecToken::Kw(Kw::LParen) => g_paren(ts, i),
        SpecToken::Kw(Kw::Not) => match g_primary(ts, i + 1) {
            Err(()) => Err(()),
            Ok((x, e)) => Ok((SpecExpr::UnaryOp { op: UnaryOpType::Not, expr: Box::new(x) }, e)),
        },
        SpecToken::Kw(Kw::Minus) => match g_primary(ts, i + 1) {
            Err(()) => Err(()),
            Ok((x, e)) => Ok((SpecExpr::UnaryOp { op: UnaryOpType::Neg, expr: Box::new(x) }, e)),
        },
        SpecToken::Kw(Kw::Case) => g_case(ts, i),
        SpecToken::Kw(Kw::Exists) => g_exists(ts, i + 1, false),
        SpecToken::Kw(Kw::Count) => g_count(ts, i + 1),
        _ => Err(()),
    }
}

/// `CASE [expr] WHEN .. THEN .. [ELSE ..] END`, from the `CASE` keyword.
pub open spec fn g_case(ts: Seq<SpecToken>, i: int) -> Result<(SpecExpr, int), ()>
    decreases ts.len() - i, 17int,
{
    let q = adv(ts, i);
    if !fwd(ts, i + 1, q) {
        Err(())
    } else {
        let subject: Result<(Option<Box<SpecExpr>>, int), ()> = if !at_kw(ts, q, Kw::When) {
            match g_expr(ts, q) {
                Err(()) => Err(()),
                Ok((x, p)) => Ok((Some(Box::new(x)), p)),
            }
        } else {
            Ok((None, q))
        };
        match subject {
            Err(()) => Err(()),
            Ok((subj, p)) => if !fwd(ts, q, p) { Err(()) } else {
                match g_whens(ts, p) {
                    Err(()) => Err(()),
                    Ok((whens, p2)) => if !fwd(ts, q, p2) { Err(()) } else {
                        let els: Result<(Option<Box<SpecExpr>>, int), ()> = if at_kw(ts, p2, Kw::Else) {
                            match g_expr(ts, adv(ts, p2)) {
                                Err(()) => Err(()),
                                Ok((x, p3)) => Ok((Some(Box::new(x)), p3)),
                            }
                        } else {
                            Ok((None, p2))
                        };
                        match els {
                            Err(()) => Err(()),
                            Ok((e, p3)) => match g_expect(ts, p3, Kw::End) {
                                Err(()) => Err(()),
                                Ok(p4) => Ok((SpecExpr::Case { expr: subj, whens, else_expr: e }, p4)),
                            },
                        }
                    },
                }
            },
        }
    }
}

/// `WHEN cond THEN result` pairs, as many as follow.
pub open spec fn g_whens(ts: Seq<SpecToken>, p: int) -> Result<(Seq<(SpecExpr, SpecExpr)>, int), ()>
    decreases ts.len() - p, 16int,
{
    if at_kw(ts, p, Kw::When) {
        match g_expr(ts, adv(ts, p)) {
            Err(()) => Err(()),
            Ok((c, q)) => match g_expect(ts, q, Kw::Then) {
                Err(()) => Err(()),
                Ok(q2) => if !fwd(ts, p + 1, q2) { Err(()) } else {
                    match g_expr(ts, q2) {
                        Err(()) => Err(()),
                        Ok((r, q3)) => if !fwd(ts, p + 1, q3) { Err(()) } else {
                            match g_whens(ts, q3) {
                                Err(()) => Err(()),
                                Ok((rest, e)) => Ok((seq![(c, r)] + rest, e)),
                            }
                        },
                    }
                },
            },
        }
    } else {
        Ok((Seq::empty(), p))
    }
}

// Statements other than `SELECT`.

/// Rows of `VALUES`: parenthesized expression lists separated by commas.
pub open spec fn g_rows(ts: Seq<SpecToken>, p: int) -> Result<(Seq<Seq<SpecExpr>>, int), ()>
    decreases ts.len() - p,
{
    match g_expect(ts, p, Kw::LParen) {
        Err(()) => Err(()),
        Ok(q) => match g_expr_list(ts, q) {
            Err(()) => Err(()),
            Ok((row, q2)) => match g_expect(ts, q2, Kw::RParen) {
                Err(()) => Err(()),
                Ok(q3) => if at_kw(ts, q3, Kw::Comma) && fwd(ts, p, q3) {
                    match g_rows(ts, adv(ts, q3)) {
                        Err(()) => Err(()),
                        Ok((rest, e)) => Ok((seq![row] + rest, e)),
                    }
                } else {
                    Ok((seq![row], q3))
                },
            },
        },
    }
}

/// `INSERT` or `REPLACE INTO table [(cols)] VALUES rows`.
pub open spec fn g_insert(ts: Seq<SpecToken>, i: int) -> Result<(SpecInsert, int), ()> {
    let is_replace = at_kw(ts, i, Kw::Replace);
    match g_expect(ts, adv(ts, i), Kw::Into) {
        Err(()) => Err(()),
        Ok(q1) => match g_ident(ts, q1) {
            Err(()) => Err(()),
            Ok((table, q2)) => match g_cte_cols(ts, q2) {
                Err(()) => Err(()),
                Ok((columns, q3)) => match g_expect(ts, q3, Kw::Values) {
                    Err(()) => Err(()),
                    Ok(q4) => match g_rows(ts, q4) {
                        Err(()) => Err(()),
                        Ok((values, e)) => Ok((SpecInsert { table, columns, values, is_replace }, e)),
                    },
                },
            },
        },
    }
}

/// Assignments `col = expr` separated by commas.
pub open spec fn g_sets(ts: Seq<SpecToken>, p: int) -> Result<(Seq<(Seq<char>, SpecExpr)>, int), ()>
    decreases ts.len() - p,
{
    match g_ident(ts, p) {
        Err(()) => Err(()),
        Ok((col, q)) => match g_expect(ts, q, Kw::Eq) {
            Err(()) => Err(()),
            Ok(q2) => match g_expr(ts, q2) {
                Err(()) => Err(()),
                Ok((v, q3)) => if at_kw(ts, q3, Kw::Comma) && fwd(ts, p, q3) {
                    match g_sets(ts, adv(ts, q3)) {
                        Err(()) => Err(()),
                        Ok((rest, e)) => Ok((seq![(col, v)] + rest, e)),
                    }
                } else {
                    Ok((seq![(col, v)], q3))
                },
            },
        },
    }
}

/// `UPDATE table SET assignments [WHERE expr]`.
pub open spec fn g_update(ts: Seq<SpecToken>, i: int) -> Result<(SpecUpdate, int), ()> {
    match g_ident(ts, adv(ts, i)) {
        Err(()) => Err(()),
        Ok((table, q1)) => match g_expect(ts, q1, Kw::SetKw) {
            Err(()) => Err(()),
            Ok(q2) => match g_sets(ts, q2) {
                Err(()) => Err(()),
                Ok((sets, q3)) => match g_opt_clause(ts, q3, Kw::Where) {
                    Err(()) => Err(()),
                    Ok((where_clause, e)) => Ok((SpecUpdate { table, sets, where_clause }, e)),
                },
            },
        },
    }
}

/// `DELETE FROM table [WHERE expr]`.
pub open spec fn g_delete(ts: Seq<SpecToken>, i: int) -> Result<(SpecDelete, int), ()> {
    match g_expect(ts, adv(ts, i), Kw::From) {
        Err(()) => Err(()),
        Ok(q1) => match g_ident(ts, q1) {
            Err(()) => Err(()),
            Ok((table, q2)) => match g_opt_clause(ts, q2, Kw::Where) {
                Err(()) => Err(()),
                Ok((where_clause, e)) => Ok((SpecDelete { table, where_clause }, e)),
            },
        },
    }
}

/// Whether the token at `p` begins a table constraint, which is skipped.
pub open spec fn constraint_start(ts: Seq<SpecToken>, p: int) -> bool {
    at_kw(ts, p, Kw::Primary) || at_kw(ts, p, Kw::Constraint) || at_kw(ts, p, Kw::Foreign)
        || at_kw(ts, p, Kw::Unique) || at_kw(ts, p, Kw::Check) || at_kw(ts, p, Kw::Index)
}

/// The first position from `p` holding `,`, `)` or `Eof`.
pub open spec fn g_skip_to(ts: Seq<SpecToken>, p: int) -> int
    decreases ts.len() - p,
{
    if at_kw(ts, p, Kw::Comma) || at_kw(ts, p, Kw::RParen) || at_kw(ts, p, Kw::Eof) || p < 0 || p >= ts.len() {
        p
    } else {
        g_skip_to(ts, p + 1)
    }
}

/// The arguments of a data type, such as `10, 2` in `DECIMAL(10, 2)`:
/// numbers and names, joined by `, `.
pub open spec fn g_type_args(ts: Seq<SpecToken>, p: int) -> (Seq<char>, int)
    decreases ts.len() - p,
{
    match tok(ts, p) {
        SpecToken::Number(n) => g_type_arg(ts, n, p),
        SpecToken::Ident(n) => g_type_arg(ts, n, p),
        _ => (Seq::empty(), p),
    }
}

pub open spec fn g_type_arg(ts: Seq<SpecToken>, n: Seq<char>, p: int) -> (Seq<char>, int)
    decreases ts.len() - p, 1int,
{
    let q = adv(ts, p);
    if at_kw(ts, q, Kw::Comma) && p < q {
        let r = g_type_args(ts, adv(ts, q));
        (n + ", "@ + r.0, r.1)
    } else {
        (n, q)
    }
}

/// The text of the data-type token at `p`.
pub open spec fn type_base(t: SpecToken) -> Seq<char> {
    match t {
        SpecToken::Ident(s) => s,
        SpecToken::QuotedIdent(s) => s,
        SpecToken::Kw(k) => if is_type_kw(k) { spelling(k) } else { token_text(t) },
        _ => token_text(t),
    }
}

/// A column data type: a name, then optional arguments in parentheses.
pub open spec fn g_data_type(ts: Seq<SpecToken>, p: int) -> Result<(Seq<char>, int), ()> {
    let base = type_base(tok(ts, p));
    let q = adv(ts, p);
    if at_kw(ts, q, Kw::LParen) {
        let r = g_type_args(ts, adv(ts, q));
        match g_expect(ts, r.1, Kw::RParen) {
            Err(()) => Err(()),
            Ok(e) => Ok((base + "("@ + r.0 + ")"@, e)),
        }
    } else {
        Ok((base, q))
    }
}

/// Column attributes: `NOT NULL`, `NULL`, `PRIMARY [KEY]`, `DEFAULT expr`.
pub open spec fn g_attrs(ts: Seq<SpecToken>, p: int, nullable: bool, default: Option<SpecExpr>, pk: bool)
    -> Result<(bool, Option<SpecExpr>, bool, int), ()>
    decreases ts.len() - p,
{
    if at_kw(ts, p, Kw::Not) {
        let q = adv(ts, p);
        if at_kw(ts, q, Kw::Null) {
            g_attrs(ts, adv(ts, q), false, default, pk)
        } else {
            g_attrs(ts, q, nullable, default, pk)
        }
    } else if at_kw(ts, p, Kw::Null) {
        g_attrs(ts, adv(ts, p), true, default, pk)
    } else if at_kw(ts, p, Kw::Primary) {
        let q = adv(ts, p);
        let q2 = if at_kw(ts, q, Kw::Key) { adv(ts, q) } else { q };
        g_attrs(ts, q2, nullable, default, true)
    } else if at_kw(ts, p, Kw::Default) {
        match g_expr(ts, adv(ts, p)) {
            Err(()) => Err(()),
            Ok((e, q)) => if fwd(ts, p + 1, q) { g_attrs(ts, q, nullable, Some(e), pk) } else { Err(()) },
        }
    } else {
        Ok((nullable, default, pk, p))
    }
}

/// Column definitions of `CREATE TABLE`; table constraints are skipped.
pub open spec fn g_columns(ts: Seq<SpecToken>, p: int) -> Result<(Seq<SpecColumnDef>, int), ()>
    decreases ts.len() - p,
{
    if constraint_start(ts, p) {
        let q = g_skip_to(ts, p);
        let q2 = if at_kw(ts, q, Kw::Comma) { adv(ts, q) } else { q };
        if fwd(ts, p + 1, q2) { g_columns(ts, q2) } else { Err(()) }
    } else {
        match g_ident(ts, p) {
            Err(()) => Err(()),
            Ok((name, q)) => match g_data_type(ts, q) {
                Err(()) => Err(()),
                Ok((data_type, q2)) => match g_attrs(ts, q2, true, None, false) {
                    Err(()) => Err(()),
                    Ok((nullable, default_value, is_primary_key, q3)) => {
                        let col = SpecColumnDef { name, data_type, nullable, default_value, is_primary_key };
                        if at_kw(ts, q3, Kw::Comma) && fwd(ts, p, q3) {
                            match g_columns(ts, adv(ts, q3)) {
                                Err(()) => Err(()),
                                Ok((rest, e)) => Ok((seq![col] + rest, e)),
                            }
                        } else {
                            Ok((seq![col], q3))
                        }
                    },
                },
            },
        }
    }
}

/// `CREATE TABLE [IF NOT EXISTS] name (columns)`.
pub open spec fn g_create_table(ts: Seq<SpecToken>, i: int) -> Result<(SpecCreateTable, int), ()> {
    match g_expect(ts, adv(ts, i), Kw::Table) {
        Err(()) => Err(()),
        Ok(q1) => {
            let ine: Result<(bool, int), ()> = if at_kw(ts, q1, Kw::If) {
                match g_expect(ts, adv(ts, q1), Kw::Not) {
                    Err(()) => Err(()),
                    Ok(a) => match g_expect(ts, a, Kw::Exists) {
                        Err(()) => Err(()),
                        Ok(b) => Ok((true, b)),
                    },
                }
            } else {
                Ok((false, q1))
            };
            match ine {
                Err(()) => Err(()),
                Ok((if_not_exists, q2)) => match g_ident(ts, q2) {
                    Err(()) => Err(()),
                    Ok((table, q3)) => match g_expect(ts, q3, Kw::LParen) {
                        Err(()) => Err(()),
                        Ok(q4) => match g_columns(ts, q4) {
                            Err(()) => Err(()),
                            Ok((columns, q5)) => match g_expect(ts, q5, Kw::RParen) {
                                Err(()) => Err(()),
                                Ok(e) => Ok((SpecCreateTable { if_not_exists, table, columns }, e)),
                            },
                        },
                    },
                },
            }
        },
    }
}

/// `DROP`, the kind of object (any other word is stepped over and taken as
/// a table), `IF EXISTS`, then the name.
#[verifier::opaque]
pub open spec fn g_drop(ts: Seq<SpecToken>, i: int) -> Result<(SpecDrop, int), ()> {
    let q = adv(ts, i);
    let (object_type, q1) = if at_kw(ts, q, Kw::Table) {
        (DropObjectType::Table, adv(ts, q))
    } else if at_kw(ts, q, Kw::View) {
        (DropObjectType::View, adv(ts, q))
    } else if at_kw(ts, q, Kw::Index) {
        (DropObjectType::Index, adv(ts, q))
    } else {
        (DropObjectType::Table, adv(ts, q))
    };
    let ie: Result<(bool, int), ()> = if at_kw(ts, q1, Kw::If) {
        match g_expect(ts, adv(ts, q1), Kw::Exists) {
            Err(()) => Err(()),
            Ok(a) => Ok((true, a)),
        }
    } else {
        Ok((false, q1))
    };
    match ie {
        Err(()) => Err(()),
        Ok((if_exists, q2)) => match g_ident(ts, q2) {
            Err(()) => Err(()),
            Ok((name, e)) => Ok((SpecDrop { object_type, if_exists, name }, e)),
        },
    }
}

/// One statement, after any comments.
pub open spec fn g_statement(ts: Seq<SpecToken>, i: int) -> Result<(SpecStatement, int), ()> {
    let q = skip_comments(ts, i);
    if at_kw(ts, q, Kw::Select) || at_kw(ts, q, Kw::With) {
        match g_select(ts, q) {
            Err(()) => Err(()),
            Ok((s, e)) => Ok((SpecStatement::Select(Box::new(s)), e)),
        }
    } else if at_kw(ts, q, Kw::Insert) || at_kw(ts, q, Kw::Replace) {
        match g_insert(ts, q) {
            Err(()) => Err(()),
            Ok((s, e)) => Ok((SpecStatement::Insert(s), e)),
        }
    } else if at_kw(ts, q, Kw::Update) {
        match g_update(ts, q) {
            Err(()) => Err(()),
            Ok((s, e)) => Ok((SpecStatement::Update(s), e)),
        }
    } else if at_kw(ts, q, Kw::Delete) {
        match g_delete(ts, q) {
            Err(()) => Err(()),
            Ok((s, e)) => Ok((SpecStatement::Delete(s), e)),
        }
    } else if at_kw(ts, q, Kw::Create) {
        match g_create_table(ts, q) {
            Err(()) => Err(()),
            Ok((s, e)) => Ok((SpecStatement::CreateTable(s), e)),
        }
    } else if at_kw(ts, q, Kw::Drop) {
        match g_drop(ts, q) {
            Err(()) => Err(()),
            Ok((s, e)) => Ok((SpecStatement::DropObject(s), e)),
        }
    } else {
        Err(())
    }
}

/// The statements of a script from position `p`, with at most `n` more
/// rounds: each round skips comments and an empty statement or reads one
/// statement and its `;`.
#[verifier::opaque]
pub open spec fn g_script(ts: Seq<SpecToken>, p: int, n: nat) -> Result<Seq<SpecStatement>, ()>
    decreases n,
{
    if n == 0 {
        Ok(Seq::empty())
    } else {
        let q = skip_comments(ts, p);
        if at_kw(ts, q, Kw::Eof) || at_kw(ts, q, Kw::Semicolon) {
            let q2 = if at_kw(ts, q, Kw::Semicolon) { adv(ts, q) } else { q };
            if at_kw(ts, q2, Kw::Eof) {
                Ok(Seq::empty())
            } else {
                g_script(ts, q2, (n - 1) as nat)
            }
        } else {
            match g_statement(ts, q) {
                Err(()) => Err(()),
                Ok((st, r)) => {
                    let r2 = if at_kw(ts, r, Kw::Semicolon) { adv(ts, r) } else { r };
                    if at_kw(ts, r2, Kw::Eof) {
                        Ok(seq![st])
                    } else {
                        match g_script(ts, r2, (n - 1) as nat) {
                            Err(()) => Err(()),
                            Ok(rest) => Ok(seq![st] + rest),
                        }
                    }
                },
            }
        }
    }
}

/// The most statement rounds that a script is read for.
pub const MAX_SCRIPT_ROUNDS: usize = 10000;

} // verus!
