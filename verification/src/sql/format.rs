//! Printing a syntax tree back as SQL text.
//!
//! `f_expr`, `f_statement` and their helpers say, by the structure of the
//! tree, which text is printed; `format_expr` and `format_statement` print it.
use vstd::prelude::*;
use crate::sql::ast::{
    column_v,
    expr_v, stmt_v, create_v, delete_v, drop_v, insert_v, item_v, join_v, opt_expr_v, select_v, table_v, texts, update_v,
    BinaryOpType, ColumnDef, CreateTableStatement, CteDef, DeleteStatement, DropObjectType, DropStatement,
    InsertStatement, JoinClause, JoinType, OrderByExpr, SQLExpr, SQLStatement, SelectItem, SelectStatement,
    SpecColumnDef, SpecCreateTable, SpecCte, SpecDelete, SpecDrop, SpecExpr, SpecInsert, SpecJoin, SpecOrderBy, SpecSelect,
    SpecSelectItem, SpecStatement, SpecTableRef, SpecUpdate, TableReference, UnaryOpType, UpdateStatement,
};
use crate::sql::parser::{ctes_v, exprs_v, items_v, joins_v, orders_v, whens_v};
use crate::text::{push_str, string_of};

verus! {

/// `parts` joined by `sep`.
pub open spec fn joined(parts: Seq<Seq<char>>, sep: Seq<char>) -> Seq<char>
    decreases parts.len(),
{
    if parts.len() == 0 {
        Seq::empty()
    } else if parts.len() == 1 {
        parts[0]
    } else {
        joined(parts.subrange(0, parts.len() - 1), sep) + sep + parts.last()
    }
}

/// `s` when `flag` holds, else nothing.
pub open spec fn when(flag: bool, s: Seq<char>) -> Seq<char> {
    if flag {
        s
    } else {
        Seq::empty()
    }
}

pub open spec fn bin_op_text(op: BinaryOpType) -> Seq<char> {
    match op {
        BinaryOpType::Eq => "="@,
        BinaryOpType::Neq => "<>"@,
        BinaryOpType::Lt => "<"@,
        BinaryOpType::Gt => ">"@,
        BinaryOpType::Leq => "<="@,
        BinaryOpType::Geq => ">="@,
        BinaryOpType::And => "AND"@,
        BinaryOpType::Or => "OR"@,
        BinaryOpType::Plus => "+"@,
        BinaryOpType::Minus => "-"@,
        BinaryOpType::Mul => "*"@,
        BinaryOpType::Div => "/"@,
        BinaryOpType::Mod => "%"@,
        BinaryOpType::Concat => "||"@,
        BinaryOpType::Like => "LIKE"@,
        BinaryOpType::Regex => "REGEXP"@,
    }
}

pub open spec fn unary_op_text(op: UnaryOpType) -> Seq<char> {
    match op {
        UnaryOpType::Not => "NOT "@,
        UnaryOpType::Neg => "-"@,
        UnaryOpType::Plus => "+"@,
    }
}

pub open spec fn join_type_text(jt: JoinType) -> Seq<char> {
    match jt {
        JoinType::Inner => "INNER JOIN"@,
        JoinType::Left => "LEFT JOIN"@,
        JoinType::Right => "RIGHT JOIN"@,
        JoinType::Full => "FULL JOIN"@,
        JoinType::Cross => "CROSS JOIN"@,
    }
}

pub open spec fn drop_object_text(t: DropObjectType) -> Seq<char> {
    match t {
        DropObjectType::Table => "TABLE"@,
        DropObjectType::View => "VIEW"@,
        DropObjectType::Index => "INDEX"@,
        DropObjectType::Database => "DATABASE"@,
    }
}

/// The text of an expression.
#[verifier::opaque]
pub open spec fn f_expr(e: SpecExpr) -> Seq<char>
    decreases e,
{
    match e {
        SpecExpr::Identifier(parts) => joined(parts, "."@),
        SpecExpr::StringLiteral(s) => "'"@ + s + "'"@,
        SpecExpr::NumberLiteral(n) => n,
        SpecExpr::Null => "NULL"@,
        SpecExpr::Placeholder => "?"@,
        SpecExpr::Wildcard => "*"@,
        SpecExpr::BinaryOp { left, op, right } => f_expr(*left) + " "@ + bin_op_text(op) + " "@ + f_expr(*right),
        SpecExpr::UnaryOp { op, expr } => unary_op_text(op) + f_expr(*expr),
        SpecExpr::Function { name, args, distinct } => name + "("@ + when(distinct, "DISTINCT "@) + joined(expr_parts(args), ", "@)
            + ")"@,
        SpecExpr::Nested(x) => "("@ + f_expr(*x) + ")"@,
        SpecExpr::InList { expr, list, not } => f_expr(*expr) + " "@ + when(not, "NOT "@) + "IN ("@ + joined(expr_parts(list), ", "@)
            + ")"@,
        SpecExpr::Between { expr, low, high, not } => f_expr(*expr) + " "@ + when(not, "NOT "@) + "BETWEEN "@
            + f_expr(*low) + " AND "@ + f_expr(*high),
        SpecExpr::IsNull { expr, not } => f_expr(*expr) + " IS "@ + when(not, "NOT "@) + "NULL"@,
        SpecExpr::Like { expr, pattern, not } => f_expr(*expr) + " "@ + when(not, "NOT "@) + "LIKE "@ + f_expr(
            *pattern,
        ),
        SpecExpr::Exists(s, not) => when(not, "NOT "@) + "EXISTS ("@ + f_statement(*s) + ")"@,
        SpecExpr::SubQuery(s) => "("@ + f_statement(*s) + ")"@,
        SpecExpr::Case { expr, whens, else_expr } => "CASE"@ + (match expr {
            Some(x) => " "@ + f_expr(*x),
            None => Seq::empty(),
        }) + joined(when_parts(whens), Seq::empty()) + (match else_expr {
            Some(x) => " ELSE "@ + f_expr(*x),
            None => Seq::empty(),
        }) + " END"@,
        SpecExpr::Aggregate { name, expr } => name + "("@ + f_expr(*expr) + ")"@,
        SpecExpr::InSubQuery { expr, query, not } => f_expr(*expr) + " "@ + when(not, "NOT "@) + "IN ("@
            + f_statement(*query) + ")"@,
        SpecExpr::Cast { expr, data_type } => "CAST("@ + f_expr(*expr) + " AS "@ + data_type + ")"@,
        SpecExpr::WindowFunction { function, partition_by, order_by } => f_expr(*function) + (if partition_by.len()
            == 0 && order_by.len() == 0 {
            Seq::empty()
        } else if order_by.len() == 0 {
            " OVER (PARTITION BY "@ + joined(expr_parts(partition_by), ", "@) + ")"@
        } else if partition_by.len() == 0 {
            " OVER (ORDER BY "@ + joined(order_parts(order_by), ", "@) + ")"@
        } else {
            " OVER (PARTITION BY "@ + joined(expr_parts(partition_by), ", "@) + " ORDER BY "@ + joined(
                order_parts(order_by),
                ", "@,
            ) + ")"@
        }),
    }
}

/// The texts of expressions, in order.
pub open spec fn expr_parts(es: Seq<SpecExpr>) -> Seq<Seq<char>>
    decreases es,
{
    Seq::new(es.len(), |i: int| if 0 <= i < es.len() { f_expr(es[i]) } else { Seq::empty() })
}

/// ` WHEN c THEN r` for each pair.
pub open spec fn when_parts(ws: Seq<(SpecExpr, SpecExpr)>) -> Seq<Seq<char>>
    decreases ws,
{
    Seq::new(ws.len(), |i: int| if 0 <= i < ws.len() {
        " WHEN "@ + f_expr(ws[i].0) + " THEN "@ + f_expr(ws[i].1)
    } else {
        Seq::empty()
    })
}

/// Each order item, followed by ` DESC` when descending.
pub open spec fn order_parts(os: Seq<SpecOrderBy>) -> Seq<Seq<char>>
    decreases os,
{
    Seq::new(os.len(), |i: int| if 0 <= i < os.len() {
        f_expr(os[i].expr) + when(!os[i].asc, " DESC"@)
    } else {
        Seq::empty()
    })
}

/// The text of a statement.
#[verifier::opaque]
pub open spec fn f_statement(s: SpecStatement) -> Seq<char>
    decreases s,
{
    match s {
        SpecStatement::Select(x) => f_select(*x),
        SpecStatement::Insert(x) => f_insert(x),
        SpecStatement::Update(x) => f_update(x),
        SpecStatement::Delete(x) => f_delete(x),
        SpecStatement::CreateTable(x) => f_create(x),
        SpecStatement::DropObject(x) => f_drop(x),
    }
}

/// An optional clause: `kw` and the expression, or nothing.
#[verifier::opaque]
pub open spec fn f_clause(kw: Seq<char>, e: Option<SpecExpr>) -> Seq<char>
    decreases e,
{
    match e {
        Some(x) => kw + f_expr(x),
        None => Seq::empty(),
    }
}

/// The text of a `SELECT` statement.
#[verifier::opaque]
pub open spec fn f_select(s: SpecSelect) -> Seq<char>
    decreases s,
{
    (if s.with_cte.len() == 0 {
        Seq::empty()
    } else {
        "WITH "@ + joined(cte_parts(s.with_cte), ", "@) + " "@
    }) + "SELECT "@ + when(s.distinct, "DISTINCT "@) + joined(item_parts(s.columns), ", "@) + (match s.from {
        Some(t) => " FROM "@ + f_table(t),
        None => Seq::empty(),
    }) + joined(join_parts(s.joins), Seq::empty()) + f_clause(" WHERE "@, s.where_clause) + (if s.group_by.len() > 0 {
        " GROUP BY "@ + joined(expr_parts(s.group_by), ", "@)
    } else {
        Seq::empty()
    }) + f_clause(" HAVING "@, s.having) + (if s.order_by.len() > 0 {
        " ORDER BY "@ + joined(order_parts(s.order_by), ", "@)
    } else {
        Seq::empty()
    }) + f_clause(" LIMIT "@, s.limit) + f_clause(" OFFSET "@, s.offset)
}

pub open spec fn cte_parts(ctes: Seq<SpecCte>) -> Seq<Seq<char>>
    decreases ctes,
{
    Seq::new(ctes.len(), |i: int| if 0 <= i < ctes.len() { f_cte(ctes[i]) } else { Seq::empty() })
}

/// One common table expression: `name [(cols)] AS (query)`.
#[verifier::opaque]
pub open spec fn f_cte(c: SpecCte) -> Seq<char>
    decreases c,
{
    c.name + (if c.columns.len() > 0 {
        " ("@ + joined(c.columns, ", "@) + ")"@
    } else {
        Seq::empty()
    }) + " AS ("@ + f_select(*c.query) + ")"@
}

pub open spec fn item_parts(items: Seq<SpecSelectItem>) -> Seq<Seq<char>>
    decreases items,
{
    Seq::new(items.len(), |i: int| if 0 <= i < items.len() { f_item(items[i]) } else { Seq::empty() })
}

#[verifier::opaque]
pub open spec fn f_item(it: SpecSelectItem) -> Seq<char>
    decreases it,
{
    match it {
        SpecSelectItem::Expr(e, a) => f_expr(e) + (match a {
            Some(a) => " AS "@ + a,
            None => Seq::empty(),
        }),
        SpecSelectItem::Wildcard(Some(t)) => t + ".*"@,
        SpecSelectItem::Wildcard(None) => "*"@,
    }
}

#[verifier::opaque]
pub open spec fn f_table(t: SpecTableRef) -> Seq<char>
    decreases t,
{
    match t {
        SpecTableRef::Table { name, alias, schema } => (match schema {
            Some(sch) => sch + "."@ + name,
            None => name,
        }) + (match alias {
            Some(a) => " "@ + a,
            None => Seq::empty(),
        }),
        SpecTableRef::SubQuery(s, alias) => "("@ + f_statement(*s) + ") "@ + alias,
        SpecTableRef::Join(_) => "..."@,
    }
}

/// ` <join type> <table> ON <expr>` for each join.
pub open spec fn join_parts(js: Seq<SpecJoin>) -> Seq<Seq<char>>
    decreases js,
{
    Seq::new(js.len(), |i: int| if 0 <= i < js.len() {
        " "@ + join_type_text(js[i].join_type) + " "@ + f_table(js[i].table) + " ON "@ + f_expr(js[i].on)
    } else {
        Seq::empty()
    })
}

pub open spec fn row_parts(rows: Seq<Seq<SpecExpr>>) -> Seq<Seq<char>>
    decreases rows,
{
    Seq::new(rows.len(), |i: int| if 0 <= i < rows.len() {
        "("@ + joined(expr_parts(rows[i]), ", "@) + ")"@
    } else {
        Seq::empty()
    })
}

#[verifier::opaque]
pub open spec fn f_insert(x: SpecInsert) -> Seq<char>
    decreases x,
{
    (if x.is_replace {
        "REPLACE"@
    } else {
        "INSERT"@
    }) + " INTO "@ + x.table + (if x.columns.len() > 0 {
        " ("@ + joined(x.columns, ", "@) + ")"@
    } else {
        Seq::empty()
    }) + " VALUES "@ + joined(row_parts(x.values), ", "@)
}

pub open spec fn set_parts(sets: Seq<(Seq<char>, SpecExpr)>) -> Seq<Seq<char>>
    decreases sets,
{
    Seq::new(sets.len(), |i: int| if 0 <= i < sets.len() {
        sets[i].0 + " = "@ + f_expr(sets[i].1)
    } else {
        Seq::empty()
    })
}

#[verifier::opaque]
pub open spec fn f_update(x: SpecUpdate) -> Seq<char>
    decreases x,
{
    "UPDATE "@ + x.table + " SET "@ + joined(set_parts(x.sets), ", "@) + f_clause(" WHERE "@, x.where_clause)
}

#[verifier::opaque]
pub open spec fn f_delete(x: SpecDelete) -> Seq<char>
    decreases x,
{
    "DELETE FROM "@ + x.table + f_clause(" WHERE "@, x.where_clause)
}

/// A column definition as written: name, type, then `NOT NULL`, the
/// default and `PRIMARY KEY` where they apply.
pub open spec fn column_text(c: SpecColumnDef) -> Seq<char>
    decreases c,
{
    c.name + " "@ + c.data_type + when(!c.nullable, " NOT NULL"@) + match c.default_value {
        Some(e) => " DEFAULT "@ + f_expr(e),
        None => Seq::empty(),
    } + when(c.is_primary_key, " PRIMARY KEY"@)
}

pub open spec fn column_parts(cols: Seq<SpecColumnDef>) -> Seq<Seq<char>>
    decreases cols,
{
    Seq::new(cols.len(), |i: int| if 0 <= i < cols.len() {
        column_text(cols[i])
    } else {
        Seq::empty()
    })
}

pub open spec fn f_create(x: SpecCreateTable) -> Seq<char>
    decreases x,
{
    "CREATE TABLE "@ + when(x.if_not_exists, "IF NOT EXISTS "@) + x.table + " ("@ + joined(column_parts(x.columns), ", "@) + ")"@
}

pub open spec fn f_drop(x: SpecDrop) -> Seq<char> {
    "DROP "@ + drop_object_text(x.object_type) + " "@ + when(x.if_exists, "IF EXISTS "@) + x.name
}


/// The part of a `SELECT` statement's text up to its joins.
pub open spec fn select_head(s: SpecSelect) -> Seq<char> {
    (if s.with_cte.len() == 0 {
        Seq::empty()
    } else {
        "WITH "@ + joined(cte_parts(s.with_cte), ", "@) + " "@
    }) + "SELECT "@ + when(s.distinct, "DISTINCT "@) + joined(item_parts(s.columns), ", "@) + (match s.from {
        Some(t) => " FROM "@ + f_table(t),
        None => Seq::empty(),
    }) + joined(join_parts(s.joins), Seq::empty())
}

/// The part of a `SELECT` statement's text after its joins.
pub open spec fn select_tail(s: SpecSelect) -> Seq<char> {
    f_clause(" WHERE "@, s.where_clause) + (if s.group_by.len() > 0 {
        " GROUP BY "@ + joined(expr_parts(s.group_by), ", "@)
    } else {
        Seq::empty()
    }) + f_clause(" HAVING "@, s.having) + (if s.order_by.len() > 0 {
        " ORDER BY "@ + joined(order_parts(s.order_by), ", "@)
    } else {
        Seq::empty()
    }) + f_clause(" LIMIT "@, s.limit) + f_clause(" OFFSET "@, s.offset)
}

/// Joining one part more: the text so far, `sep`, and the new part.
pub proof fn lemma_joined_push(parts: Seq<Seq<char>>, sep: Seq<char>, k: int)
    requires
        0 <= k < parts.len(),
    ensures
        joined(parts.subrange(0, k + 1), sep) == if k == 0 {
            parts[0]
        } else {
            joined(parts.subrange(0, k), sep) + sep + parts[k]
        },
{
    assert(parts.subrange(0, k + 1).subrange(0, k) =~= parts.subrange(0, k));
}


/// Appends `sep` before every part but the first.
fn push_sep(out: &mut Vec<char>, k: usize, sep: &str)
    ensures
        final(out)@ == old(out)@ + (if k == 0 {
            Seq::empty()
        } else {
            sep@
        }),
{
    proof {
        reveal(expr_v);
        reveal(opt_expr_v);
        reveal(stmt_v);
        reveal(select_v);
        reveal(item_v);
        reveal(table_v);
        reveal(join_v);
        reveal(insert_v);
        reveal(update_v);
        reveal(delete_v);
        reveal(column_v);
        reveal(create_v);
        reveal(f_expr);
        reveal(f_statement);
        reveal(f_clause);
        reveal(f_select);
        reveal(f_cte);
        reveal(f_item);
        reveal(f_table);
        reveal(f_insert);
        reveal(f_update);
        reveal(f_delete);
    }
    if k > 0 {
        push_str(out, sep);
    } else {
        assert(out@ + Seq::<char>::empty() =~= out@);
    }
}

/// Appends names joined by `sep`.
fn fmt_names(v: &Vec<String>, sep: &str, out: &mut Vec<char>)
    ensures
        final(out)@ == old(out)@ + joined(texts(v@), sep@),
{
    proof {
        reveal(expr_v);
        reveal(opt_expr_v);
        reveal(stmt_v);
        reveal(select_v);
        reveal(item_v);
        reveal(table_v);
        reveal(join_v);
        reveal(insert_v);
        reveal(update_v);
        reveal(delete_v);
        reveal(column_v);
        reveal(create_v);
        reveal(f_expr);
        reveal(f_statement);
        reveal(f_clause);
        reveal(f_select);
        reveal(f_cte);
        reveal(f_item);
        reveal(f_table);
        reveal(f_insert);
        reveal(f_update);
        reveal(f_delete);
    }
    let ghost start = out@;
    let ghost parts = texts(v@);
    let mut k: usize = 0;
    while k < v.len()
        invariant
            k <= v.len(),
            parts == texts(v@),
            out@ == start + joined(parts.subrange(0, k as int), sep@),
        decreases v.len() - k,
    {
        proof {
            reveal(expr_v);
            reveal(opt_expr_v);
            reveal(stmt_v);
            reveal(select_v);
            reveal(item_v);
            reveal(table_v);
            reveal(join_v);
            reveal(insert_v);
            reveal(update_v);
            reveal(delete_v);
            reveal(column_v);
            reveal(create_v);
            reveal(f_expr);
            reveal(f_statement);
            reveal(f_clause);
            reveal(f_select);
            reveal(f_cte);
            reveal(f_item);
            reveal(f_table);
            reveal(f_insert);
            reveal(f_update);
            reveal(f_delete);
        }
        push_sep(out, k, sep);
        push_str(out, v[k].as_str());
        proof {
            lemma_joined_push(parts, sep@, k as int);
        }
        assert(out@ =~= start + joined(parts.subrange(0, k + 1), sep@));
        k = k + 1;
    }
    assert(parts.subrange(0, v.len() as int) =~= parts);
}

fn fmt_exprs(es: &Vec<SQLExpr>, out: &mut Vec<char>)
    ensures
        final(out)@ == old(out)@ + joined(expr_parts(exprs_v(es@)), ", "@),
    decreases es, 0int,
{
    proof {
        reveal(expr_v);
        reveal(opt_expr_v);
        reveal(stmt_v);
        reveal(select_v);
        reveal(item_v);
        reveal(table_v);
        reveal(join_v);
        reveal(insert_v);
        reveal(update_v);
        reveal(delete_v);
        reveal(column_v);
        reveal(create_v);
        reveal(f_expr);
        reveal(f_statement);
        reveal(f_clause);
        reveal(f_select);
        reveal(f_cte);
        reveal(f_item);
        reveal(f_table);
        reveal(f_insert);
        reveal(f_update);
        reveal(f_delete);
    }
    let ghost start = out@;
    let ghost parts = expr_parts(exprs_v(es@));
    let mut k: usize = 0;
    while k < es.len()
        invariant
            k <= es.len(),
            parts == expr_parts(exprs_v(es@)),
            out@ == start + joined(parts.subrange(0, k as int), ", "@),
        decreases es.len() - k,
    {
        proof {
            reveal(expr_v);
            reveal(opt_expr_v);
            reveal(stmt_v);
            reveal(select_v);
            reveal(item_v);
            reveal(table_v);
            reveal(join_v);
            reveal(insert_v);
            reveal(update_v);
            reveal(delete_v);
            reveal(column_v);
            reveal(create_v);
            reveal(f_expr);
            reveal(f_statement);
            reveal(f_clause);
            reveal(f_select);
            reveal(f_cte);
            reveal(f_item);
            reveal(f_table);
            reveal(f_insert);
            reveal(f_update);
            reveal(f_delete);
        }
        push_sep(out, k, ", ");
        fmt_expr(&es[k], out);
        proof {
            lemma_joined_push(parts, ", "@, k as int);
        }
        assert(out@ =~= start + joined(parts.subrange(0, k + 1), ", "@));
        k = k + 1;
    }
    assert(parts.subrange(0, es.len() as int) =~= parts);
}

fn fmt_whens(ws: &Vec<(SQLExpr, SQLExpr)>, out: &mut Vec<char>)
    ensures
        final(out)@ == old(out)@ + joined(when_parts(whens_v(ws@)), Seq::empty()),
    decreases ws, 0int,
{
    proof {
        reveal(expr_v);
        reveal(opt_expr_v);
        reveal(stmt_v);
        reveal(select_v);
        reveal(item_v);
        reveal(table_v);
        reveal(join_v);
        reveal(insert_v);
        reveal(update_v);
        reveal(delete_v);
        reveal(column_v);
        reveal(create_v);
        reveal(f_expr);
        reveal(f_statement);
        reveal(f_clause);
        reveal(f_select);
        reveal(f_cte);
        reveal(f_item);
        reveal(f_table);
        reveal(f_insert);
        reveal(f_update);
        reveal(f_delete);
    }
    let ghost start = out@;
    let ghost parts = when_parts(whens_v(ws@));
    let mut k: usize = 0;
    while k < ws.len()
        invariant
            k <= ws.len(),
            parts == when_parts(whens_v(ws@)),
            out@ == start + joined(parts.subrange(0, k as int), Seq::empty()),
        decreases ws.len() - k,
    {
        proof {
            reveal(expr_v);
            reveal(opt_expr_v);
            reveal(stmt_v);
            reveal(select_v);
            reveal(item_v);
            reveal(table_v);
            reveal(join_v);
            reveal(insert_v);
            reveal(update_v);
            reveal(delete_v);
            reveal(column_v);
            reveal(create_v);
            reveal(f_expr);
            reveal(f_statement);
            reveal(f_clause);
            reveal(f_select);
            reveal(f_cte);
            reveal(f_item);
            reveal(f_table);
            reveal(f_insert);
            reveal(f_update);
            reveal(f_delete);
        }
        let ghost before = out@;
        push_str(out, " WHEN ");
        fmt_expr(&ws[k].0, out);
        push_str(out, " THEN ");
        fmt_expr(&ws[k].1, out);
        proof {
            lemma_joined_push(parts, Seq::empty(), k as int);
        }
        assert(out@ =~= start + joined(parts.subrange(0, k + 1), Seq::empty()));
        k = k + 1;
    }
    assert(parts.subrange(0, ws.len() as int) =~= parts);
}

fn fmt_orders(os: &Vec<OrderByExpr>, out: &mut Vec<char>)
    ensures
        final(out)@ == old(out)@ + joined(order_parts(orders_v(os@)), ", "@),
    decreases os, 0int,
{
    proof {
        reveal(expr_v);
        reveal(opt_expr_v);
        reveal(stmt_v);
        reveal(select_v);
        reveal(item_v);
        reveal(table_v);
        reveal(join_v);
        reveal(insert_v);
        reveal(update_v);
        reveal(delete_v);
        reveal(column_v);
        reveal(create_v);
        reveal(f_expr);
        reveal(f_statement);
        reveal(f_clause);
        reveal(f_select);
        reveal(f_cte);
        reveal(f_item);
        reveal(f_table);
        reveal(f_insert);
        reveal(f_update);
        reveal(f_delete);
    }
    let ghost start = out@;
    let ghost parts = order_parts(orders_v(os@));
    let mut k: usize = 0;
    while k < os.len()
        invariant
            k <= os.len(),
            parts == order_parts(orders_v(os@)),
            out@ == start + joined(parts.subrange(0, k as int), ", "@),
        decreases os.len() - k,
    {
        proof {
            reveal(expr_v);
            reveal(opt_expr_v);
            reveal(stmt_v);
            reveal(select_v);
            reveal(item_v);
            reveal(table_v);
            reveal(join_v);
            reveal(insert_v);
            reveal(update_v);
            reveal(delete_v);
            reveal(column_v);
            reveal(create_v);
            reveal(f_expr);
            reveal(f_statement);
            reveal(f_clause);
            reveal(f_select);
            reveal(f_cte);
            reveal(f_item);
            reveal(f_table);
            reveal(f_insert);
            reveal(f_update);
            reveal(f_delete);
        }
        push_sep(out, k, ", ");
        fmt_expr(&os[k].expr, out);
        if !os[k].asc {
            push_str(out, " DESC");
        }
        proof {
            lemma_joined_push(parts, ", "@, k as int);
        }
        assert(out@ =~= start + joined(parts.subrange(0, k + 1), ", "@));
        k = k + 1;
    }
    assert(parts.subrange(0, os.len() as int) =~= parts);
}

fn bin_op_str(op: BinaryOpType) -> (r: &'static str)
    ensures
        r@ == bin_op_text(op),
{
    match op {
        BinaryOpType::Eq => "=",
        BinaryOpType::Neq => "<>",
        BinaryOpType::Lt => "<",
        BinaryOpType::Gt => ">",
        BinaryOpType::Leq => "<=",
        BinaryOpType::Geq => ">=",
        BinaryOpType::And => "AND",
        BinaryOpType::Or => "OR",
        BinaryOpType::Plus => "+",
        BinaryOpType::Minus => "-",
        BinaryOpType::Mul => "*",
        BinaryOpType::Div => "/",
        BinaryOpType::Mod => "%",
        BinaryOpType::Concat => "||",
        BinaryOpType::Like => "LIKE",
        BinaryOpType::Regex => "REGEXP",
    }
}

fn unary_op_str(op: UnaryOpType) -> (r: &'static str)
    ensures
        r@ == unary_op_text(op),
{
    match op {
        UnaryOpType::Not => "NOT ",
        UnaryOpType::Neg => "-",
        UnaryOpType::Plus => "+",
    }
}

fn join_type_str(jt: JoinType) -> (r: &'static str)
    ensures
        r@ == join_type_text(jt),
{
    match jt {
        JoinType::Inner => "INNER JOIN",
        JoinType::Left => "LEFT JOIN",
        JoinType::Right => "RIGHT JOIN",
        JoinType::Full => "FULL JOIN",
        JoinType::Cross => "CROSS JOIN",
    }
}

fn drop_object_str(t: DropObjectType) -> (r: &'static str)
    ensures
        r@ == drop_object_text(t),
{
    match t {
        DropObjectType::Table => "TABLE",
        DropObjectType::View => "VIEW",
        DropObjectType::Index => "INDEX",
        DropObjectType::Database => "DATABASE",
    }
}

/// Appends `NOT ` when `not` holds.
fn push_not(out: &mut Vec<char>, not: bool)
    ensures
        final(out)@ == old(out)@ + when(not, "NOT "@),
{
    if not {
        push_str(out, "NOT ");
    } else {
        assert(out@ + Seq::<char>::empty() =~= out@);
    }
}

#[verifier::spinoff_prover]
#[verifier::rlimit(100)]
fn fmt_expr(e: &SQLExpr, out: &mut Vec<char>)
    ensures
        final(out)@ == old(out)@ + f_expr(e@),
    decreases e, 1int,
{
    proof {
        reveal(expr_v);
        reveal(opt_expr_v);
        reveal(stmt_v);
        reveal(select_v);
        reveal(item_v);
        reveal(table_v);
        reveal(join_v);
        reveal(insert_v);
        reveal(update_v);
        reveal(delete_v);
        reveal(column_v);
        reveal(create_v);
        reveal(f_expr);
        reveal(f_statement);
        reveal(f_clause);
        reveal(f_select);
        reveal(f_cte);
        reveal(f_item);
        reveal(f_table);
        reveal(f_insert);
        reveal(f_update);
        reveal(f_delete);
    }
    let ghost s0 = out@;
    match e {
        SQLExpr::Identifier(parts) => {
            fmt_names(parts, ".", out);
            assert(out@ =~= s0 + f_expr(e@));
        },
        SQLExpr::StringLiteral(v) => {
            push_str(out, "'");
            push_str(out, v.as_str());
            push_str(out, "'");
            assert(out@ =~= s0 + f_expr(e@));
        },
        SQLExpr::NumberLiteral(n) => {
            push_str(out, n.as_str());
            assert(out@ =~= s0 + f_expr(e@));
        },
        SQLExpr::Null => {
            push_str(out, "NULL");
            assert(out@ =~= s0 + f_expr(e@));
        },
        SQLExpr::Placeholder => {
            push_str(out, "?");
            assert(out@ =~= s0 + f_expr(e@));
        },
        SQLExpr::Wildcard => {
            push_str(out, "*");
            assert(out@ =~= s0 + f_expr(e@));
        },
        SQLExpr::BinaryOp { left, op, right } => {
            fmt_expr(left, out);
            push_str(out, " ");
            push_str(out, bin_op_str(*op));
            push_str(out, " ");
            fmt_expr(right, out);
            assert(out@ =~= s0 + f_expr(e@));
        },
        SQLExpr::UnaryOp { op, expr } => {
            push_str(out, unary_op_str(*op));
            fmt_expr(expr, out);
            assert(out@ =~= s0 + f_expr(e@));
        },
        SQLExpr::Function { name, args, distinct } => {
            assert(e@ matches SpecExpr::Function { args: a, .. } && a =~= exprs_v(args@));
            push_str(out, name.as_str());
            push_str(out, "(");
            if *distinct {
                push_str(out, "DISTINCT ");
            }
            fmt_exprs(args, out);
            push_str(out, ")");
            assert(out@ =~= s0 + f_expr(e@));
        },
        SQLExpr::Nested(x) => {
            push_str(out, "(");
            fmt_expr(x, out);
            push_str(out, ")");
            assert(out@ =~= s0 + f_expr(e@));
        },
        SQLExpr::InList { expr, list, not } => {
            assert(e@ matches SpecExpr::InList { list: a, .. } && a =~= exprs_v(list@));
            fmt_expr(expr, out);
            push_str(out, " ");
            push_not(out, *not);
            push_str(out, "IN (");
            fmt_exprs(list, out);
            push_str(out, ")");
            assert(out@ =~= s0 + f_expr(e@));
        },
        SQLExpr::Between { expr, low, high, not } => {
            fmt_expr(expr, out);
            push_str(out, " ");
            push_not(out, *not);
            push_str(out, "BETWEEN ");
            fmt_expr(low, out);
            push_str(out, " AND ");
            fmt_expr(high, out);
            assert(out@ =~= s0 + f_expr(e@));
        },
        SQLExpr::IsNull { expr, not } => {
            fmt_expr(expr, out);
            push_str(out, " IS ");
            push_not(out, *not);
            push_str(out, "NULL");
            assert(out@ =~= s0 + f_expr(e@));
        },
        SQLExpr::Like { expr, pattern, not } => {
            fmt_expr(expr, out);
            push_str(out, " ");
            push_not(out, *not);
            push_str(out, "LIKE ");
            fmt_expr(pattern, out);
            assert(out@ =~= s0 + f_expr(e@));
        },
        SQLExpr::Exists(st, not) => {
            push_not(out, *not);
            push_str(out, "EXISTS (");
            fmt_statement(st, out);
            push_str(out, ")");
            assert(out@ =~= s0 + f_expr(e@));
        },
        SQLExpr::SubQuery(st) => {
            push_str(out, "(");
            fmt_statement(st, out);
            push_str(out, ")");
            assert(out@ =~= s0 + f_expr(e@));
        },
        SQLExpr::Case { .. } => {
            fmt_case(e, out);
        },
        SQLExpr::Aggregate { name, expr } => {
            push_str(out, name.as_str());
            push_str(out, "(");
            fmt_expr(expr, out);
            push_str(out, ")");
            assert(out@ =~= s0 + f_expr(e@));
        },
        SQLExpr::InSubQuery { expr, query, not } => {
            fmt_expr(expr, out);
            push_str(out, " ");
            push_not(out, *not);
            push_str(out, "IN (");
            fmt_statement(query, out);
            push_str(out, ")");
            assert(out@ =~= s0 + f_expr(e@));
        },
        SQLExpr::Cast { expr, data_type } => {
            push_str(out, "CAST(");
            fmt_expr(expr, out);
            push_str(out, " AS ");
            push_str(out, data_type.as_str());
            push_str(out, ")");
            assert(out@ =~= s0 + f_expr(e@));
        },
        SQLExpr::WindowFunction { .. } => {
            fmt_window(e, out);
        },
    }
    assert(out@ =~= s0 + f_expr(e@));
}

fn fmt_window(e: &SQLExpr, out: &mut Vec<char>)
    requires
        e is WindowFunction,
    ensures
        final(out)@ == old(out)@ + f_expr(e@),
    decreases e, 0int,
{
    proof {
        reveal(expr_v);
        reveal(opt_expr_v);
        reveal(stmt_v);
        reveal(select_v);
        reveal(item_v);
        reveal(table_v);
        reveal(join_v);
        reveal(insert_v);
        reveal(update_v);
        reveal(delete_v);
        reveal(column_v);
        reveal(create_v);
        reveal(f_expr);
        reveal(f_statement);
        reveal(f_clause);
        reveal(f_select);
        reveal(f_cte);
        reveal(f_item);
        reveal(f_table);
        reveal(f_insert);
        reveal(f_update);
        reveal(f_delete);
    }
    let ghost s0 = out@;
    match e {
        SQLExpr::WindowFunction { function, partition_by, order_by } => {
            assert(e@ matches SpecExpr::WindowFunction { partition_by: a, order_by: b, .. } && a =~= exprs_v(
                partition_by@,
            ) && b =~= orders_v(order_by@));
            fmt_expr(function, out);
            let ghost s1 = out@;
            if partition_by.len() == 0 && order_by.len() == 0 {
            } else if order_by.len() == 0 {
                push_str(out, " OVER (PARTITION BY ");
                fmt_exprs(partition_by, out);
                push_str(out, ")");
            } else if partition_by.len() == 0 {
                push_str(out, " OVER (ORDER BY ");
                fmt_orders(order_by, out);
                push_str(out, ")");
            } else {
                push_str(out, " OVER (PARTITION BY ");
                fmt_exprs(partition_by, out);
                push_str(out, " ORDER BY ");
                fmt_orders(order_by, out);
                push_str(out, ")");
            }
            assert(out@ =~= s0 + f_expr(e@));
        },
        _ => {},
    }
}

fn fmt_case(e: &SQLExpr, out: &mut Vec<char>)
    requires
        e is Case,
    ensures
        final(out)@ == old(out)@ + f_expr(e@),
    decreases e, 0int,
{
    proof {
        reveal(expr_v);
        reveal(opt_expr_v);
        reveal(stmt_v);
        reveal(select_v);
        reveal(item_v);
        reveal(table_v);
        reveal(join_v);
        reveal(insert_v);
        reveal(update_v);
        reveal(delete_v);
        reveal(column_v);
        reveal(create_v);
        reveal(f_expr);
        reveal(f_statement);
        reveal(f_clause);
        reveal(f_select);
        reveal(f_cte);
        reveal(f_item);
        reveal(f_table);
        reveal(f_insert);
        reveal(f_update);
        reveal(f_delete);
    }
    let ghost s0 = out@;
    match e {
        SQLExpr::Case { expr, whens, else_expr } => {
            assert(e@ matches SpecExpr::Case { whens: w, .. } && w =~= whens_v(whens@));
            push_str(out, "CASE");
            let ghost s1 = out@;
            match expr {
                Some(x) => {
                    push_str(out, " ");
                    fmt_expr(x, out);
                },
                None => {},
            }
            let ghost s2 = out@;
            fmt_whens(whens, out);
            let ghost s3 = out@;
            match else_expr {
                Some(x) => {
                    push_str(out, " ELSE ");
                    fmt_expr(x, out);
                },
                None => {},
            }
            let ghost s4 = out@;
            push_str(out, " END");
            assert(out@ =~= s0 + "CASE"@ + s2.subrange(s1.len() as int, s2.len() as int) + s3.subrange(
                s2.len() as int,
                s3.len() as int,
            ) + s4.subrange(s3.len() as int, s4.len() as int) + " END"@);
            assert(out@ =~= s0 + f_expr(e@));
        },
        _ => {},
    }
}

/// A `SELECT` statement's text is its head and then its tail.
proof fn lemma_select_split(sv: SpecSelect)
    ensures
        f_select(sv) == select_head(sv) + select_tail(sv),
{
    reveal(expr_v);
    reveal(opt_expr_v);
    reveal(stmt_v);
    reveal(select_v);
    reveal(item_v);
    reveal(table_v);
    reveal(join_v);
    reveal(insert_v);
    reveal(update_v);
    reveal(delete_v);
    reveal(column_v);
    reveal(create_v);
    reveal(f_expr);
    reveal(f_statement);
    reveal(f_clause);
    reveal(f_select);
    reveal(f_cte);
    reveal(f_item);
    reveal(f_table);
    reveal(f_insert);
    reveal(f_update);
    reveal(f_delete);
    let h = select_head(sv);
    let a7 = f_clause(" WHERE "@, sv.where_clause);
    let a8 = if sv.group_by.len() > 0 {
        " GROUP BY "@ + joined(expr_parts(sv.group_by), ", "@)
    } else {
        Seq::<char>::empty()
    };
    let a9 = f_clause(" HAVING "@, sv.having);
    let a10 = if sv.order_by.len() > 0 {
        " ORDER BY "@ + joined(order_parts(sv.order_by), ", "@)
    } else {
        Seq::<char>::empty()
    };
    let a11 = f_clause(" LIMIT "@, sv.limit);
    let a12 = f_clause(" OFFSET "@, sv.offset);
    assert(f_select(sv) == h + a7 + a8 + a9 + a10 + a11 + a12);
    assert(select_tail(sv) == a7 + a8 + a9 + a10 + a11 + a12);
    assert(h + a7 + a8 =~= h + (a7 + a8));
    assert(h + (a7 + a8) + a9 =~= h + (a7 + a8 + a9));
    assert(h + (a7 + a8 + a9) + a10 =~= h + (a7 + a8 + a9 + a10));
    assert(h + (a7 + a8 + a9 + a10) + a11 =~= h + (a7 + a8 + a9 + a10 + a11));
    assert(h + (a7 + a8 + a9 + a10 + a11) + a12 =~= h + (a7 + a8 + a9 + a10 + a11 + a12));
}

/// Appends the clause `kw expr` when there is an expression.
fn fmt_clause(kw: &str, e: &Option<SQLExpr>, out: &mut Vec<char>)
    ensures
        final(out)@ == old(out)@ + f_clause(kw@, opt_expr_v(e)),
    decreases e, 0int,
{
    proof {
        reveal(expr_v);
        reveal(opt_expr_v);
        reveal(stmt_v);
        reveal(select_v);
        reveal(item_v);
        reveal(table_v);
        reveal(join_v);
        reveal(insert_v);
        reveal(update_v);
        reveal(delete_v);
        reveal(column_v);
        reveal(create_v);
        reveal(f_expr);
        reveal(f_statement);
        reveal(f_clause);
        reveal(f_select);
        reveal(f_cte);
        reveal(f_item);
        reveal(f_table);
        reveal(f_insert);
        reveal(f_update);
        reveal(f_delete);
    }
    let ghost s0 = out@;
    match e {
        Some(x) => {
            push_str(out, kw);
            fmt_expr(x, out);
        },
        None => {},
    }
    assert(out@ =~= s0 + f_clause(kw@, opt_expr_v(e)));
}

fn fmt_statement(s: &SQLStatement, out: &mut Vec<char>)
    ensures
        final(out)@ == old(out)@ + f_statement(s@),
    decreases s, 0int,
{
    proof {
        reveal(expr_v);
        reveal(opt_expr_v);
        reveal(stmt_v);
        reveal(select_v);
        reveal(item_v);
        reveal(table_v);
        reveal(join_v);
        reveal(insert_v);
        reveal(update_v);
        reveal(delete_v);
        reveal(column_v);
        reveal(create_v);
        reveal(f_expr);
        reveal(f_statement);
        reveal(f_clause);
        reveal(f_select);
        reveal(f_cte);
        reveal(f_item);
        reveal(f_table);
        reveal(f_insert);
        reveal(f_update);
        reveal(f_delete);
    }
    match s {
        SQLStatement::Select(x) => fmt_select(x, out),
        SQLStatement::Insert(x) => fmt_insert(x, out),
        SQLStatement::Update(x) => fmt_update(x, out),
        SQLStatement::Delete(x) => fmt_delete(x, out),
        SQLStatement::CreateTable(x) => fmt_create(x, out),
        SQLStatement::DropObject(x) => fmt_drop(x, out),
    }
}

fn fmt_cte(c: &CteDef, out: &mut Vec<char>)
    ensures
        final(out)@ == old(out)@ + f_cte(SpecCte { name: c.name@, columns: texts(c.columns@), query: Box::new(c.query@) }),
    decreases c, 0int,
{
    proof {
        reveal(expr_v);
        reveal(opt_expr_v);
        reveal(stmt_v);
        reveal(select_v);
        reveal(item_v);
        reveal(table_v);
        reveal(join_v);
        reveal(insert_v);
        reveal(update_v);
        reveal(delete_v);
        reveal(column_v);
        reveal(create_v);
        reveal(f_expr);
        reveal(f_statement);
        reveal(f_clause);
        reveal(f_select);
        reveal(f_cte);
        reveal(f_item);
        reveal(f_table);
        reveal(f_insert);
        reveal(f_update);
        reveal(f_delete);
    }
    let ghost s0 = out@;
    push_str(out, c.name.as_str());
    let ghost s1 = out@;
    if c.columns.len() > 0 {
        push_str(out, " (");
        fmt_names(&c.columns, ", ", out);
        push_str(out, ")");
    }
    let ghost s2 = out@;
    push_str(out, " AS (");
    fmt_select(&c.query, out);
    push_str(out, ")");
    assert(out@ =~= s0 + c.name@ + s2.subrange(s1.len() as int, s2.len() as int) + " AS ("@ + f_select(c.query@)
        + ")"@);
}

fn fmt_with(ctes: &Vec<CteDef>, out: &mut Vec<char>)
    ensures
        final(out)@ == old(out)@ + (if ctes@.len() == 0 {
            Seq::empty()
        } else {
            "WITH "@ + joined(cte_parts(ctes_v(ctes@)), ", "@) + " "@
        }),
    decreases ctes, 0int,
{
    proof {
        reveal(expr_v);
        reveal(opt_expr_v);
        reveal(stmt_v);
        reveal(select_v);
        reveal(item_v);
        reveal(table_v);
        reveal(join_v);
        reveal(insert_v);
        reveal(update_v);
        reveal(delete_v);
        reveal(column_v);
        reveal(create_v);
        reveal(f_expr);
        reveal(f_statement);
        reveal(f_clause);
        reveal(f_select);
        reveal(f_cte);
        reveal(f_item);
        reveal(f_table);
        reveal(f_insert);
        reveal(f_update);
        reveal(f_delete);
    }
    let ghost start = out@;
    if ctes.len() == 0 {
        assert(out@ + Seq::<char>::empty() =~= out@);
        return;
    }
    push_str(out, "WITH ");
    let ghost s1 = out@;
    let ghost parts = cte_parts(ctes_v(ctes@));
    let mut k: usize = 0;
    while k < ctes.len()
        invariant
            k <= ctes.len(),
            parts == cte_parts(ctes_v(ctes@)),
            out@ == s1 + joined(parts.subrange(0, k as int), ", "@),
        decreases ctes.len() - k,
    {
        proof {
            reveal(expr_v);
            reveal(opt_expr_v);
            reveal(stmt_v);
            reveal(select_v);
            reveal(item_v);
            reveal(table_v);
            reveal(join_v);
            reveal(insert_v);
            reveal(update_v);
            reveal(delete_v);
            reveal(column_v);
            reveal(create_v);
            reveal(f_expr);
            reveal(f_statement);
            reveal(f_clause);
            reveal(f_select);
            reveal(f_cte);
            reveal(f_item);
            reveal(f_table);
            reveal(f_insert);
            reveal(f_update);
            reveal(f_delete);
        }
        push_sep(out, k, ", ");
        fmt_cte(&ctes[k], out);
        proof {
            lemma_joined_push(parts, ", "@, k as int);
        }
        assert(out@ =~= s1 + joined(parts.subrange(0, k + 1), ", "@));
        k = k + 1;
    }
    assert(parts.subrange(0, ctes.len() as int) =~= parts);
    push_str(out, " ");
    assert(out@ =~= start + ("WITH "@ + joined(cte_parts(ctes_v(ctes@)), ", "@) + " "@));
}

fn fmt_item(it: &SelectItem, out: &mut Vec<char>)
    ensures
        final(out)@ == old(out)@ + f_item(item_v(it)),
    decreases it, 0int,
{
    proof {
        reveal(expr_v);
        reveal(opt_expr_v);
        reveal(stmt_v);
        reveal(select_v);
        reveal(item_v);
        reveal(table_v);
        reveal(join_v);
        reveal(insert_v);
        reveal(update_v);
        reveal(delete_v);
        reveal(column_v);
        reveal(create_v);
        reveal(f_expr);
        reveal(f_statement);
        reveal(f_clause);
        reveal(f_select);
        reveal(f_cte);
        reveal(f_item);
        reveal(f_table);
        reveal(f_insert);
        reveal(f_update);
        reveal(f_delete);
    }
    let ghost s0 = out@;
    match it {
        SelectItem::Expr(e, a) => {
            fmt_expr(e, out);
            match a {
                Some(a) => {
                    push_str(out, " AS ");
                    push_str(out, a.as_str());
                },
                None => {},
            }
        },
        SelectItem::Wildcard(Some(t)) => {
            push_str(out, t.as_str());
            push_str(out, ".*");
        },
        SelectItem::Wildcard(None) => {
            push_str(out, "*");
        },
    }
    assert(out@ =~= s0 + f_item(item_v(it)));
}

fn fmt_items(items: &Vec<SelectItem>, out: &mut Vec<char>)
    ensures
        final(out)@ == old(out)@ + joined(item_parts(items_v(items@)), ", "@),
    decreases items, 0int,
{
    proof {
        reveal(expr_v);
        reveal(opt_expr_v);
        reveal(stmt_v);
        reveal(select_v);
        reveal(item_v);
        reveal(table_v);
        reveal(join_v);
        reveal(insert_v);
        reveal(update_v);
        reveal(delete_v);
        reveal(column_v);
        reveal(create_v);
        reveal(f_expr);
        reveal(f_statement);
        reveal(f_clause);
        reveal(f_select);
        reveal(f_cte);
        reveal(f_item);
        reveal(f_table);
        reveal(f_insert);
        reveal(f_update);
        reveal(f_delete);
    }
    let ghost start = out@;
    let ghost parts = item_parts(items_v(items@));
    let mut k: usize = 0;
    while k < items.len()
        invariant
            k <= items.len(),
            parts == item_parts(items_v(items@)),
            out@ == start + joined(parts.subrange(0, k as int), ", "@),
        decreases items.len() - k,
    {
        proof {
            reveal(expr_v);
            reveal(opt_expr_v);
            reveal(stmt_v);
            reveal(select_v);
            reveal(item_v);
            reveal(table_v);
            reveal(join_v);
            reveal(insert_v);
            reveal(update_v);
            reveal(delete_v);
            reveal(column_v);
            reveal(create_v);
            reveal(f_expr);
            reveal(f_statement);
            reveal(f_clause);
            reveal(f_select);
            reveal(f_cte);
            reveal(f_item);
            reveal(f_table);
            reveal(f_insert);
            reveal(f_update);
            reveal(f_delete);
        }
        push_sep(out, k, ", ");
        fmt_item(&items[k], out);
        proof {
            lemma_joined_push(parts, ", "@, k as int);
        }
        assert(out@ =~= start + joined(parts.subrange(0, k + 1), ", "@));
        k = k + 1;
    }
    assert(parts.subrange(0, items.len() as int) =~= parts);
}

fn fmt_table(t: &TableReference, out: &mut Vec<char>)
    ensures
        final(out)@ == old(out)@ + f_table(t@),
    decreases t, 0int,
{
    proof {
        reveal(expr_v);
        reveal(opt_expr_v);
        reveal(stmt_v);
        reveal(select_v);
        reveal(item_v);
        reveal(table_v);
        reveal(join_v);
        reveal(insert_v);
        reveal(update_v);
        reveal(delete_v);
        reveal(column_v);
        reveal(create_v);
        reveal(f_expr);
        reveal(f_statement);
        reveal(f_clause);
        reveal(f_select);
        reveal(f_cte);
        reveal(f_item);
        reveal(f_table);
        reveal(f_insert);
        reveal(f_update);
        reveal(f_delete);
    }
    let ghost s0 = out@;
    match t {
        TableReference::Table { name, alias, schema } => {
            match schema {
                Some(sch) => {
                    push_str(out, sch.as_str());
                    push_str(out, ".");
                },
                None => {},
            }
            push_str(out, name.as_str());
            let ghost s1 = out@;
            match alias {
                Some(a) => {
                    push_str(out, " ");
                    push_str(out, a.as_str());
                },
                None => {},
            }
            assert(out@ =~= s1 + out@.subrange(s1.len() as int, out@.len() as int));
        },
        TableReference::SubQuery(st, alias) => {
            push_str(out, "(");
            fmt_statement(st, out);
            push_str(out, ") ");
            push_str(out, alias.as_str());
        },
        TableReference::Join(_) => {
            push_str(out, "...");
        },
    }
    assert(out@ =~= s0 + f_table(t@));
}

fn fmt_joins(js: &Vec<JoinClause>, out: &mut Vec<char>)
    ensures
        final(out)@ == old(out)@ + joined(join_parts(joins_v(js@)), Seq::empty()),
    decreases js, 0int,
{
    proof {
        reveal(expr_v);
        reveal(opt_expr_v);
        reveal(stmt_v);
        reveal(select_v);
        reveal(item_v);
        reveal(table_v);
        reveal(join_v);
        reveal(insert_v);
        reveal(update_v);
        reveal(delete_v);
        reveal(column_v);
        reveal(create_v);
        reveal(f_expr);
        reveal(f_statement);
        reveal(f_clause);
        reveal(f_select);
        reveal(f_cte);
        reveal(f_item);
        reveal(f_table);
        reveal(f_insert);
        reveal(f_update);
        reveal(f_delete);
    }
    let ghost start = out@;
    let ghost parts = join_parts(joins_v(js@));
    let mut k: usize = 0;
    while k < js.len()
        invariant
            k <= js.len(),
            parts == join_parts(joins_v(js@)),
            out@ == start + joined(parts.subrange(0, k as int), Seq::empty()),
        decreases js.len() - k,
    {
        proof {
            reveal(expr_v);
            reveal(opt_expr_v);
            reveal(stmt_v);
            reveal(select_v);
            reveal(item_v);
            reveal(table_v);
            reveal(join_v);
            reveal(insert_v);
            reveal(update_v);
            reveal(delete_v);
            reveal(column_v);
            reveal(create_v);
            reveal(f_expr);
            reveal(f_statement);
            reveal(f_clause);
            reveal(f_select);
            reveal(f_cte);
            reveal(f_item);
            reveal(f_table);
            reveal(f_insert);
            reveal(f_update);
            reveal(f_delete);
        }
        push_str(out, " ");
        push_str(out, join_type_str(js[k].join_type));
        push_str(out, " ");
        fmt_table(&js[k].table, out);
        push_str(out, " ON ");
        fmt_expr(&js[k].on, out);
        proof {
            lemma_joined_push(parts, Seq::empty(), k as int);
        }
        assert(out@ =~= start + joined(parts.subrange(0, k + 1), Seq::empty()));
        k = k + 1;
    }
    assert(parts.subrange(0, js.len() as int) =~= parts);
}

fn fmt_select(s: &SelectStatement, out: &mut Vec<char>)
    ensures
        final(out)@ == old(out)@ + f_select(s@),
    decreases s, 1int,
{
    proof {
        reveal(expr_v);
        reveal(opt_expr_v);
        reveal(stmt_v);
        reveal(select_v);
        reveal(item_v);
        reveal(table_v);
        reveal(join_v);
        reveal(insert_v);
        reveal(update_v);
        reveal(delete_v);
        reveal(column_v);
        reveal(create_v);
        reveal(f_expr);
        reveal(f_statement);
        reveal(f_clause);
        reveal(f_select);
        reveal(f_cte);
        reveal(f_item);
        reveal(f_table);
        reveal(f_insert);
        reveal(f_update);
        reveal(f_delete);
    }
    let ghost s0 = out@;
    fmt_select_head(s, out);
    let ghost s1 = out@;
    fmt_select_tail(s, out);
    let ghost sv = s@;
    proof {
        lemma_select_split(sv);
    }
    assert(out@ =~= s0 + f_select(sv));
}

#[verifier::spinoff_prover]
#[verifier::rlimit(100)]
fn fmt_select_head(s: &SelectStatement, out: &mut Vec<char>)
    ensures
        final(out)@ == old(out)@ + select_head(s@),
    decreases s, 0int,
{
    proof {
        reveal(expr_v);
        reveal(opt_expr_v);
        reveal(stmt_v);
        reveal(select_v);
        reveal(item_v);
        reveal(table_v);
        reveal(join_v);
        reveal(insert_v);
        reveal(update_v);
        reveal(delete_v);
        reveal(column_v);
        reveal(create_v);
        reveal(f_expr);
        reveal(f_statement);
        reveal(f_clause);
        reveal(f_select);
        reveal(f_cte);
        reveal(f_item);
        reveal(f_table);
        reveal(f_insert);
        reveal(f_update);
        reveal(f_delete);
    }
    let ghost s0 = out@;
    assert(s@.with_cte =~= ctes_v(s.with_cte@));
    assert(s@.columns =~= items_v(s.columns@));
    assert(s@.joins =~= joins_v(s.joins@));
    fmt_with(&s.with_cte, out);
    let ghost a1 = out@;
    push_str(out, "SELECT ");
    if s.distinct {
        push_str(out, "DISTINCT ");
    }
    let ghost a2 = out@;
    fmt_items(&s.columns, out);
    let ghost a3 = out@;
    match &s.from {
        Some(t) => {
            push_str(out, " FROM ");
            fmt_table(t, out);
        },
        None => {},
    }
    let ghost a4 = out@;
    fmt_joins(&s.joins, out);
    let ghost sv = s@;
    assert(a2 =~= a1 + "SELECT "@ + when(sv.distinct, "DISTINCT "@));
    assert(a4 =~= a3 + (match sv.from {
        Some(t) => " FROM "@ + f_table(t),
        None => Seq::empty(),
    }));
    assert(out@ =~= s0 + select_head(sv));
}

#[verifier::rlimit(50)]
fn fmt_select_tail(s: &SelectStatement, out: &mut Vec<char>)
    ensures
        final(out)@ == old(out)@ + select_tail(s@),
    decreases s, 0int,
{
    proof {
        reveal(expr_v);
        reveal(opt_expr_v);
        reveal(stmt_v);
        reveal(select_v);
        reveal(item_v);
        reveal(table_v);
        reveal(join_v);
        reveal(insert_v);
        reveal(update_v);
        reveal(delete_v);
        reveal(column_v);
        reveal(create_v);
        reveal(f_expr);
        reveal(f_statement);
        reveal(f_clause);
        reveal(f_select);
        reveal(f_cte);
        reveal(f_item);
        reveal(f_table);
        reveal(f_insert);
        reveal(f_update);
        reveal(f_delete);
    }
    let ghost s0 = out@;
    assert(s@.group_by =~= exprs_v(s.group_by@));
    assert(s@.order_by =~= orders_v(s.order_by@));
    fmt_clause(" WHERE ", &s.where_clause, out);
    let ghost a6 = out@;
    if s.group_by.len() > 0 {
        push_str(out, " GROUP BY ");
        fmt_exprs(&s.group_by, out);
    }
    let ghost a7 = out@;
    fmt_clause(" HAVING ", &s.having, out);
    let ghost a8 = out@;
    if s.order_by.len() > 0 {
        push_str(out, " ORDER BY ");
        fmt_orders(&s.order_by, out);
    }
    let ghost a9 = out@;
    fmt_clause(" LIMIT ", &s.limit, out);
    fmt_clause(" OFFSET ", &s.offset, out);
    let ghost sv = s@;
    assert(a7 =~= a6 + (if sv.group_by.len() > 0 {
        " GROUP BY "@ + joined(expr_parts(sv.group_by), ", "@)
    } else {
        Seq::empty()
    }));
    assert(a9 =~= a8 + (if sv.order_by.len() > 0 {
        " ORDER BY "@ + joined(order_parts(sv.order_by), ", "@)
    } else {
        Seq::empty()
    }));
    assert(out@ =~= s0 + select_tail(sv));
}

#[verifier::spinoff_prover]
#[verifier::rlimit(100)]
fn fmt_insert(x: &InsertStatement, out: &mut Vec<char>)
    ensures
        final(out)@ == old(out)@ + f_insert(insert_v(x)),
    decreases x, 0int,
{
    proof {
        reveal(expr_v);
        reveal(opt_expr_v);
        reveal(stmt_v);
        reveal(select_v);
        reveal(item_v);
        reveal(table_v);
        reveal(join_v);
        reveal(insert_v);
        reveal(update_v);
        reveal(delete_v);
        reveal(column_v);
        reveal(create_v);
        reveal(f_expr);
        reveal(f_statement);
        reveal(f_clause);
        reveal(f_select);
        reveal(f_cte);
        reveal(f_item);
        reveal(f_table);
        reveal(f_insert);
        reveal(f_update);
        reveal(f_delete);
    }
    let ghost s0 = out@;
    if x.is_replace {
        push_str(out, "REPLACE");
    } else {
        push_str(out, "INSERT");
    }
    let ghost a1 = out@;
    push_str(out, " INTO ");
    push_str(out, x.table.as_str());
    let ghost a2 = out@;
    if x.columns.len() > 0 {
        push_str(out, " (");
        fmt_names(&x.columns, ", ", out);
        push_str(out, ")");
    }
    let ghost a3 = out@;
    push_str(out, " VALUES ");
    let ghost s1 = out@;
    let ghost parts = row_parts(insert_v(x).values);
    let mut k: usize = 0;
    while k < x.values.len()
        invariant
            k <= x.values.len(),
            parts == row_parts(insert_v(x).values),
            parts.len() == x.values.len(),
            out@ == s1 + joined(parts.subrange(0, k as int), ", "@),
        decreases x.values.len() - k,
    {
        proof {
            reveal(expr_v);
            reveal(opt_expr_v);
            reveal(stmt_v);
            reveal(select_v);
            reveal(item_v);
            reveal(table_v);
            reveal(join_v);
            reveal(insert_v);
            reveal(update_v);
            reveal(delete_v);
            reveal(column_v);
            reveal(create_v);
            reveal(f_expr);
            reveal(f_statement);
            reveal(f_clause);
            reveal(f_select);
            reveal(f_cte);
            reveal(f_item);
            reveal(f_table);
            reveal(f_insert);
            reveal(f_update);
            reveal(f_delete);
        }
        push_sep(out, k, ", ");
        push_str(out, "(");
        assert(insert_v(x).values[k as int] =~= exprs_v(x.values@[k as int]@));
        fmt_exprs(&x.values[k], out);
        push_str(out, ")");
        proof {
            lemma_joined_push(parts, ", "@, k as int);
        }
        assert(out@ =~= s1 + joined(parts.subrange(0, k + 1), ", "@));
        k = k + 1;
    }
    assert(parts.subrange(0, x.values.len() as int) =~= parts);
    assert(out@ =~= s0 + f_insert(insert_v(x)));
}

fn fmt_update(x: &UpdateStatement, out: &mut Vec<char>)
    ensures
        final(out)@ == old(out)@ + f_update(update_v(x)),
    decreases x, 0int,
{
    proof {
        reveal(expr_v);
        reveal(opt_expr_v);
        reveal(stmt_v);
        reveal(select_v);
        reveal(item_v);
        reveal(table_v);
        reveal(join_v);
        reveal(insert_v);
        reveal(update_v);
        reveal(delete_v);
        reveal(column_v);
        reveal(create_v);
        reveal(f_expr);
        reveal(f_statement);
        reveal(f_clause);
        reveal(f_select);
        reveal(f_cte);
        reveal(f_item);
        reveal(f_table);
        reveal(f_insert);
        reveal(f_update);
        reveal(f_delete);
    }
    let ghost s0 = out@;
    push_str(out, "UPDATE ");
    push_str(out, x.table.as_str());
    push_str(out, " SET ");
    let ghost s1 = out@;
    let ghost parts = set_parts(update_v(x).sets);
    let mut k: usize = 0;
    while k < x.sets.len()
        invariant
            k <= x.sets.len(),
            parts == set_parts(update_v(x).sets),
            parts.len() == x.sets.len(),
            out@ == s1 + joined(parts.subrange(0, k as int), ", "@),
        decreases x.sets.len() - k,
    {
        proof {
            reveal(expr_v);
            reveal(opt_expr_v);
            reveal(stmt_v);
            reveal(select_v);
            reveal(item_v);
            reveal(table_v);
            reveal(join_v);
            reveal(insert_v);
            reveal(update_v);
            reveal(delete_v);
            reveal(column_v);
            reveal(create_v);
            reveal(f_expr);
            reveal(f_statement);
            reveal(f_clause);
            reveal(f_select);
            reveal(f_cte);
            reveal(f_item);
            reveal(f_table);
            reveal(f_insert);
            reveal(f_update);
            reveal(f_delete);
        }
        push_sep(out, k, ", ");
        push_str(out, x.sets[k].0.as_str());
        push_str(out, " = ");
        fmt_expr(&x.sets[k].1, out);
        proof {
            lemma_joined_push(parts, ", "@, k as int);
        }
        assert(out@ =~= s1 + joined(parts.subrange(0, k + 1), ", "@));
        k = k + 1;
    }
    assert(parts.subrange(0, x.sets.len() as int) =~= parts);
    let ghost s2 = out@;
    fmt_clause(" WHERE ", &x.where_clause, out);
    assert(out@ =~= s0 + f_update(update_v(x)));
}

fn fmt_delete(x: &DeleteStatement, out: &mut Vec<char>)
    ensures
        final(out)@ == old(out)@ + f_delete(delete_v(x)),
    decreases x, 0int,
{
    proof {
        reveal(expr_v);
        reveal(opt_expr_v);
        reveal(stmt_v);
        reveal(select_v);
        reveal(item_v);
        reveal(table_v);
        reveal(join_v);
        reveal(insert_v);
        reveal(update_v);
        reveal(delete_v);
        reveal(column_v);
        reveal(create_v);
        reveal(f_expr);
        reveal(f_statement);
        reveal(f_clause);
        reveal(f_select);
        reveal(f_cte);
        reveal(f_item);
        reveal(f_table);
        reveal(f_insert);
        reveal(f_update);
        reveal(f_delete);
    }
    let ghost s0 = out@;
    push_str(out, "DELETE FROM ");
    push_str(out, x.table.as_str());
    fmt_clause(" WHERE ", &x.where_clause, out);
    assert(out@ =~= s0 + f_delete(delete_v(x)));
}

#[verifier::spinoff_prover]
#[verifier::rlimit(100)]
fn fmt_column(c: &ColumnDef, out: &mut Vec<char>)
    ensures
        final(out)@ == old(out)@ + column_text(column_v(c)),
    decreases c, 0int,
{
    proof {
        reveal(expr_v);
        reveal(opt_expr_v);
        reveal(stmt_v);
        reveal(select_v);
        reveal(item_v);
        reveal(table_v);
        reveal(join_v);
        reveal(insert_v);
        reveal(update_v);
        reveal(delete_v);
        reveal(column_v);
        reveal(create_v);
        reveal(f_expr);
        reveal(f_statement);
        reveal(f_clause);
        reveal(f_select);
        reveal(f_cte);
        reveal(f_item);
        reveal(f_table);
        reveal(f_insert);
        reveal(f_update);
        reveal(f_delete);
    }
    let ghost s0 = out@;
    push_str(out, c.name.as_str());
    push_str(out, " ");
    push_str(out, c.data_type.as_str());
    let ghost s1 = out@;
    if !c.nullable {
        push_str(out, " NOT NULL");
    }
    let ghost s2 = out@;
    assert(s2 =~= s1 + when(!c.nullable, " NOT NULL"@));
    match &c.default_value {
        Some(e) => {
            push_str(out, " DEFAULT ");
            fmt_expr(e, out);
        },
        None => {},
    }
    let ghost s3 = out@;
    if c.is_primary_key {
        push_str(out, " PRIMARY KEY");
    }
    assert(out@ =~= s3 + when(c.is_primary_key, " PRIMARY KEY"@));
    assert(out@ =~= s0 + column_text(column_v(c)));
}

fn fmt_create(x: &CreateTableStatement, out: &mut Vec<char>)
    ensures
        final(out)@ == old(out)@ + f_create(create_v(x)),
    decreases x, 0int,
{
    proof {
        reveal(expr_v);
        reveal(opt_expr_v);
        reveal(stmt_v);
        reveal(select_v);
        reveal(item_v);
        reveal(table_v);
        reveal(join_v);
        reveal(insert_v);
        reveal(update_v);
        reveal(delete_v);
        reveal(column_v);
        reveal(create_v);
        reveal(f_expr);
        reveal(f_statement);
        reveal(f_clause);
        reveal(f_select);
        reveal(f_cte);
        reveal(f_item);
        reveal(f_table);
        reveal(f_insert);
        reveal(f_update);
        reveal(f_delete);
    }
    let ghost s0 = out@;
    push_str(out, "CREATE TABLE ");
    if x.if_not_exists {
        push_str(out, "IF NOT EXISTS ");
    }
    let ghost a1 = out@;
    push_str(out, x.table.as_str());
    push_str(out, " (");
    let ghost s1 = out@;
    let ghost parts = column_parts(create_v(x).columns);
    let mut k: usize = 0;
    while k < x.columns.len()
        invariant
            k <= x.columns.len(),
            parts == column_parts(create_v(x).columns),
            parts.len() == x.columns.len(),
            out@ == s1 + joined(parts.subrange(0, k as int), ", "@),
        decreases x.columns.len() - k,
    {
        proof {
            reveal(expr_v);
            reveal(opt_expr_v);
            reveal(stmt_v);
            reveal(select_v);
            reveal(item_v);
            reveal(table_v);
            reveal(join_v);
            reveal(insert_v);
            reveal(update_v);
            reveal(delete_v);
            reveal(column_v);
            reveal(create_v);
            reveal(f_expr);
            reveal(f_statement);
            reveal(f_clause);
            reveal(f_select);
            reveal(f_cte);
            reveal(f_item);
            reveal(f_table);
            reveal(f_insert);
            reveal(f_update);
            reveal(f_delete);
        }
        push_sep(out, k, ", ");
        fmt_column(&x.columns[k], out);
        proof {
            lemma_joined_push(parts, ", "@, k as int);
        }
        assert(out@ =~= s1 + joined(parts.subrange(0, k + 1), ", "@));
        k = k + 1;
    }
    assert(parts.subrange(0, x.columns.len() as int) =~= parts);
    push_str(out, ")");
    assert(a1 =~= s0 + "CREATE TABLE "@ + when(x.if_not_exists, "IF NOT EXISTS "@));
    assert(out@ =~= s0 + f_create(create_v(x)));
}

fn fmt_drop(x: &DropStatement, out: &mut Vec<char>)
    ensures
        final(out)@ == old(out)@ + f_drop(drop_v(x)),
{
    proof {
        reveal(expr_v);
        reveal(opt_expr_v);
        reveal(stmt_v);
        reveal(select_v);
        reveal(item_v);
        reveal(table_v);
        reveal(join_v);
        reveal(insert_v);
        reveal(update_v);
        reveal(delete_v);
        reveal(column_v);
        reveal(create_v);
        reveal(f_expr);
        reveal(f_statement);
        reveal(f_clause);
        reveal(f_select);
        reveal(f_cte);
        reveal(f_item);
        reveal(f_table);
        reveal(f_insert);
        reveal(f_update);
        reveal(f_delete);
    }
    let ghost s0 = out@;
    push_str(out, "DROP ");
    push_str(out, drop_object_str(x.object_type));
    push_str(out, " ");
    let ghost a1 = out@;
    if x.if_exists {
        push_str(out, "IF EXISTS ");
    }
    assert(out@ =~= a1 + when(x.if_exists, "IF EXISTS "@));
    push_str(out, x.name.as_str());
    assert(out@ =~= s0 + f_drop(drop_v(x)));
}

/// Prints a statement as SQL text.
pub fn format_statement(stmt: &SQLStatement) -> (r: String)
    ensures
        r@ == f_statement(stmt@),
{
    let mut out: Vec<char> = Vec::new();
    fmt_statement(stmt, &mut out);
    assert(out@ =~= f_statement(stmt@));
    string_of(&out)
}

/// Prints an expression as SQL text.
pub fn format_expr(expr: &SQLExpr) -> (r: String)
    ensures
        r@ == f_expr(expr@),
{
    let mut out: Vec<char> = Vec::new();
    fmt_expr(expr, &mut out);
    assert(out@ =~= f_expr(expr@));
    string_of(&out)
}

} // verus!
