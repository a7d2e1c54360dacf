//! Collecting the tables and columns that SQL text refers to.
use vstd::prelude::*;
use crate::sql::ast::{
    column_v, create_v, delete_v, expr_v, insert_v, item_v, join_v, opt_expr_v, select_v, stmt_v, table_v, texts,
    update_v, CreateTableStatement, DeleteStatement, InsertStatement, SQLExpr, SQLStatement, SelectItem,
    SelectStatement, SpecCte, SpecExpr, SpecJoin, SpecOrderBy, SpecSelect, SpecSelectItem, SpecStatement,
    SpecTableRef, SpecCreateTable, SpecDelete, SpecDrop, SpecInsert, SpecUpdate, TableReference, UpdateStatement,
};
use crate::sql::parser::{ctes_v, exprs_v, items_v, joins_v, orders_v, whens_v};
use crate::text::{push_str, same_text, string_of};

verus! {

/// What a visitor learns: that a table is referred to, or a column of a table.
pub enum SchemaFact {
    Table(Seq<char>),
    Column(Seq<char>, Seq<char>),
}

/// The facts of referring to column `c` of table `t`.
pub open spec fn col_facts(t: Seq<char>, c: Seq<char>) -> Set<SchemaFact> {
    set![SchemaFact::Table(t), SchemaFact::Column(t, c)]
}

/// Table `t` and each of the columns `cs` of it.
pub open spec fn names_facts(t: Seq<char>, cs: Seq<Seq<char>>) -> Set<SchemaFact>
    decreases cs.len(),
{
    if cs.len() == 0 {
        set![SchemaFact::Table(t)]
    } else {
        names_facts(t, cs.subrange(0, cs.len() - 1)) + col_facts(t, cs.last())
    }
}

/// The facts of an expression; a bare column name belongs to `t` unless `t`
/// is empty.
#[verifier::opaque]
pub open spec fn facts_expr(e: SpecExpr, t: Seq<char>) -> Set<SchemaFact>
    decreases e,
{
    match e {
        SpecExpr::Identifier(parts) => if parts.len() == 2 {
            col_facts(parts[0], parts[1])
        } else if parts.len() == 1 && t.len() > 0 {
            col_facts(t, parts[0])
        } else {
            Set::empty()
        },
        SpecExpr::BinaryOp { left, right, .. } => facts_expr(*left, t) + facts_expr(*right, t),
        SpecExpr::Function { args, .. } => facts_exprs(args, t),
        SpecExpr::InList { expr, list, .. } => facts_expr(*expr, t) + facts_exprs(list, t),
        SpecExpr::Nested(x) => facts_expr(*x, t),
        SpecExpr::Case { expr, whens, else_expr } => (match expr {
            Some(x) => facts_expr(*x, t),
            None => Set::empty(),
        }) + facts_whens(whens, t) + (match else_expr {
            Some(x) => facts_expr(*x, t),
            None => Set::empty(),
        }),
        SpecExpr::Aggregate { expr, .. } => facts_expr(*expr, t),
        SpecExpr::SubQuery(s) => facts_stmt(*s),
        SpecExpr::Exists(s, _) => facts_stmt(*s),
        SpecExpr::UnaryOp { expr, .. } => facts_expr(*expr, t),
        SpecExpr::Between { expr, low, high, .. } => facts_expr(*expr, t) + facts_expr(*low, t) + facts_expr(*high, t),
        SpecExpr::IsNull { expr, .. } => facts_expr(*expr, t),
        SpecExpr::Like { expr, pattern, .. } => facts_expr(*expr, t) + facts_expr(*pattern, t),
        SpecExpr::Cast { expr, .. } => facts_expr(*expr, t),
        SpecExpr::InSubQuery { expr, query, .. } => facts_expr(*expr, t) + facts_stmt(*query),
        SpecExpr::WindowFunction { function, partition_by, order_by } => facts_expr(*function, t) + facts_exprs(
            partition_by,
            t,
        ) + facts_orders(order_by),
        _ => Set::empty(),
    }
}

#[verifier::opaque]
pub open spec fn facts_exprs(es: Seq<SpecExpr>, t: Seq<char>) -> Set<SchemaFact>
    decreases es,
{
    if es.len() == 0 {
        Set::empty()
    } else {
        facts_exprs(es.subrange(0, es.len() - 1), t) + facts_expr(es[es.len() - 1], t)
    }
}

#[verifier::opaque]
pub open spec fn facts_whens(ws: Seq<(SpecExpr, SpecExpr)>, t: Seq<char>) -> Set<SchemaFact>
    decreases ws,
{
    if ws.len() == 0 {
        Set::empty()
    } else {
        facts_whens(ws.subrange(0, ws.len() - 1), t) + facts_expr(ws[ws.len() - 1].0, t) + facts_expr(
            ws[ws.len() - 1].1,
            t,
        )
    }
}

#[verifier::opaque]
pub open spec fn facts_orders(os: Seq<SpecOrderBy>) -> Set<SchemaFact>
    decreases os,
{
    if os.len() == 0 {
        Set::empty()
    } else {
        facts_orders(os.subrange(0, os.len() - 1)) + facts_expr(os[os.len() - 1].expr, Seq::empty())
    }
}

#[verifier::opaque]
pub open spec fn facts_stmt(s: SpecStatement) -> Set<SchemaFact>
    decreases s,
{
    match s {
        SpecStatement::Select(x) => facts_select(*x),
        SpecStatement::Insert(x) => names_facts(x.table, x.columns),
        SpecStatement::Update(x) => set![SchemaFact::Table(x.table)] + facts_sets(x.sets, x.table) + (
        match x.where_clause {
            Some(w) => facts_expr(w, x.table),
            None => Set::empty(),
        }),
        SpecStatement::Delete(x) => set![SchemaFact::Table(x.table)] + (match x.where_clause {
            Some(w) => facts_expr(w, x.table),
            None => Set::empty(),
        }),
        SpecStatement::CreateTable(x) => names_facts(
            x.table,
            Seq::new(x.columns.len(), |i: int| x.columns[i].name),
        ),
        SpecStatement::DropObject(x) => set![SchemaFact::Table(x.name)],
    }
}

/// Each assignment's column of table `t`, and what its value refers to.
#[verifier::opaque]
pub open spec fn facts_sets(sets: Seq<(Seq<char>, SpecExpr)>, t: Seq<char>) -> Set<SchemaFact>
    decreases sets,
{
    if sets.len() == 0 {
        Set::empty()
    } else {
        facts_sets(sets.subrange(0, sets.len() - 1), t) + col_facts(t, sets[sets.len() - 1].0) + facts_expr(
            sets[sets.len() - 1].1,
            t,
        )
    }
}

/// The facts of a `SELECT` statement: its common table expressions, its
/// `FROM` table, its joined tables, its select list, `WHERE`, `GROUP BY` and
/// `ORDER BY`.
#[verifier::opaque]
pub open spec fn facts_select(s: SpecSelect) -> Set<SchemaFact>
    decreases s,
{
    facts_ctes(s.with_cte) + (match s.from {
        Some(t) => facts_table(t),
        None => Set::empty(),
    }) + facts_joins(s.joins) + facts_items(s.columns) + (match s.where_clause {
        Some(w) => facts_expr(w, Seq::empty()),
        None => Set::empty(),
    }) + facts_exprs(s.group_by, Seq::empty()) + facts_orders(s.order_by)
}

#[verifier::opaque]
pub open spec fn facts_ctes(cs: Seq<SpecCte>) -> Set<SchemaFact>
    decreases cs,
{
    if cs.len() == 0 {
        Set::empty()
    } else {
        facts_ctes(cs.subrange(0, cs.len() - 1)) + facts_select(*cs[cs.len() - 1].query)
    }
}

#[verifier::opaque]
pub open spec fn facts_joins(js: Seq<SpecJoin>) -> Set<SchemaFact>
    decreases js,
{
    if js.len() == 0 {
        Set::empty()
    } else {
        facts_joins(js.subrange(0, js.len() - 1)) + facts_table(js[js.len() - 1].table)
    }
}

#[verifier::opaque]
pub open spec fn facts_items(items: Seq<SpecSelectItem>) -> Set<SchemaFact>
    decreases items,
{
    if items.len() == 0 {
        Set::empty()
    } else {
        facts_items(items.subrange(0, items.len() - 1)) + match items[items.len() - 1] {
            SpecSelectItem::Expr(e, _) => facts_expr(e, Seq::empty()),
            SpecSelectItem::Wildcard(_) => Set::empty(),
        }
    }
}

/// A table reference names its table, `schema.name` when qualified; a
/// subquery gives the facts of its statement.
#[verifier::opaque]
pub open spec fn facts_table(t: SpecTableRef) -> Set<SchemaFact>
    decreases t,
{
    match t {
        SpecTableRef::Table { name, schema, .. } => set![
            SchemaFact::Table(
                match schema {
                    Some(sch) => sch + "."@ + name,
                    None => name,
                },
            ),
        ],
        SpecTableRef::SubQuery(s, _) => facts_stmt(*s),
        SpecTableRef::Join(_) => Set::empty(),
    }
}

/// Whether expression `e` names column `c` without a table, in an operand
/// of an operator, a comparison, `BETWEEN`, `LIKE`, `IS NULL`, a cast or
/// parentheses (not inside a subquery or a call).
pub open spec fn names_bare(e: SpecExpr, c: Seq<char>) -> bool
    decreases e,
{
    match e {
        SpecExpr::Identifier(parts) => parts.len() == 1 && parts[0] == c,
        SpecExpr::BinaryOp { left, right, .. } => names_bare(*left, c) || names_bare(*right, c),
        SpecExpr::UnaryOp { expr, .. } => names_bare(*expr, c),
        SpecExpr::Nested(x) => names_bare(*x, c),
        SpecExpr::IsNull { expr, .. } => names_bare(*expr, c),
        SpecExpr::Cast { expr, .. } => names_bare(*expr, c),
        SpecExpr::Between { expr, low, high, .. } => names_bare(*expr, c) || names_bare(*low, c) || names_bare(*high, c),
        SpecExpr::Like { expr, pattern, .. } => names_bare(*expr, c) || names_bare(*pattern, c),
        _ => false,
    }
}

/// Whether expression `e` names column `c` of table `t` as `t.c`, in the
/// same places as [`names_bare`].
pub open spec fn names_qualified(e: SpecExpr, t: Seq<char>, c: Seq<char>) -> bool
    decreases e,
{
    match e {
        SpecExpr::Identifier(parts) => parts.len() == 2 && parts[0] == t && parts[1] == c,
        SpecExpr::BinaryOp { left, right, .. } => names_qualified(*left, t, c) || names_qualified(*right, t, c),
        SpecExpr::UnaryOp { expr, .. } => names_qualified(*expr, t, c),
        SpecExpr::Nested(x) => names_qualified(*x, t, c),
        SpecExpr::IsNull { expr, .. } => names_qualified(*expr, t, c),
        SpecExpr::Cast { expr, .. } => names_qualified(*expr, t, c),
        SpecExpr::Between { expr, low, high, .. } => names_qualified(*expr, t, c) || names_qualified(*low, t, c)
            || names_qualified(*high, t, c),
        SpecExpr::Like { expr, pattern, .. } => names_qualified(*expr, t, c) || names_qualified(*pattern, t, c),
        _ => false,
    }
}

/// Every column an expression names is among its facts: a bare name as a
/// column of the table the expression belongs to, `t.c` as column `c` of
/// `t`, each with its table.
pub proof fn lemma_expr_columns(e: SpecExpr, t: Seq<char>, c: Seq<char>, u: Seq<char>)
    ensures
        names_bare(e, c) && t.len() > 0 ==> facts_expr(e, t).contains(SchemaFact::Column(t, c))
            && facts_expr(e, t).contains(SchemaFact::Table(t)),
        names_qualified(e, u, c) ==> facts_expr(e, t).contains(SchemaFact::Column(u, c))
            && facts_expr(e, t).contains(SchemaFact::Table(u)),
    decreases e,
{
    reveal(facts_expr);
    match e {
        SpecExpr::BinaryOp { left, right, .. } => {
            lemma_expr_columns(*left, t, c, u);
            lemma_expr_columns(*right, t, c, u);
        },
        SpecExpr::UnaryOp { expr, .. } => lemma_expr_columns(*expr, t, c, u),
        SpecExpr::Nested(x) => lemma_expr_columns(*x, t, c, u),
        SpecExpr::IsNull { expr, .. } => lemma_expr_columns(*expr, t, c, u),
        SpecExpr::Cast { expr, .. } => lemma_expr_columns(*expr, t, c, u),
        SpecExpr::Between { expr, low, high, .. } => {
            lemma_expr_columns(*expr, t, c, u);
            lemma_expr_columns(*low, t, c, u);
            lemma_expr_columns(*high, t, c, u);
        },
        SpecExpr::Like { expr, pattern, .. } => {
            lemma_expr_columns(*expr, t, c, u);
            lemma_expr_columns(*pattern, t, c, u);
        },
        _ => {},
    }
}

/// An `UPDATE` or a `DELETE` refers to its table and to every column its
/// `WHERE` clause names: a bare name as a column of that table, `t.c` as
/// column `c` of `t`.
pub proof fn lemma_where_columns(table: Seq<char>, w: SpecExpr, sets: Seq<(Seq<char>, SpecExpr)>, c: Seq<char>, u: Seq<char>)
    ensures
        ({
            let d = facts_stmt(SpecStatement::Delete(SpecDelete { table, where_clause: Some(w) }));
            &&& d.contains(SchemaFact::Table(table))
            &&& names_bare(w, c) && table.len() > 0 ==> d.contains(SchemaFact::Column(table, c))
            &&& names_qualified(w, u, c) ==> d.contains(SchemaFact::Column(u, c))
        }),
        ({
            let d = facts_stmt(SpecStatement::Update(SpecUpdate { table, sets, where_clause: Some(w) }));
            &&& d.contains(SchemaFact::Table(table))
            &&& names_bare(w, c) && table.len() > 0 ==> d.contains(SchemaFact::Column(table, c))
            &&& names_qualified(w, u, c) ==> d.contains(SchemaFact::Column(u, c))
        }),
{
    reveal(facts_expr);
    reveal(facts_exprs);
    reveal(facts_whens);
    reveal(facts_orders);
    reveal(facts_stmt);
    reveal(facts_sets);
    reveal(facts_select);
    reveal(facts_ctes);
    reveal(facts_joins);
    reveal(facts_items);
    reveal(facts_table);
    lemma_expr_columns(w, table, c, u);
    let tf = set![SchemaFact::Table(table)];
    assert(tf.contains(SchemaFact::Table(table)));
    let de = facts_stmt(SpecStatement::Delete(SpecDelete { table, where_clause: Some(w) }));
    assert(de == tf + facts_expr(w, table));
    let ue = facts_stmt(SpecStatement::Update(SpecUpdate { table, sets, where_clause: Some(w) }));
    assert(ue == tf + facts_sets(sets, table) + facts_expr(w, table));
}


/// Table `t` and every one of the columns `cs` are among their facts.
pub proof fn lemma_names_facts(t: Seq<char>, cs: Seq<Seq<char>>, i: int)
    ensures
        names_facts(t, cs).contains(SchemaFact::Table(t)),
        0 <= i < cs.len() ==> names_facts(t, cs).contains(SchemaFact::Column(t, cs[i])),
    decreases cs.len(),
{
    if cs.len() > 0 {
        let init = cs.subrange(0, cs.len() - 1);
        lemma_names_facts(t, init, i);
        if 0 <= i < cs.len() - 1 {
            assert(init[i] == cs[i]);
        }
    }
}

/// An `INSERT` refers to its table and to each column it lists; a
/// `CREATE TABLE` to its table and each column it defines; a `DROP` to the
/// object it drops.
pub proof fn lemma_insert_columns(x: SpecInsert, y: SpecCreateTable, d: SpecDrop, i: int)
    ensures
        facts_stmt(SpecStatement::Insert(x)).contains(SchemaFact::Table(x.table)),
        0 <= i < x.columns.len() ==> facts_stmt(SpecStatement::Insert(x)).contains(SchemaFact::Column(x.table, x.columns[i])),
        facts_stmt(SpecStatement::CreateTable(y)).contains(SchemaFact::Table(y.table)),
        0 <= i < y.columns.len() ==> facts_stmt(SpecStatement::CreateTable(y)).contains(
            SchemaFact::Column(y.table, y.columns[i].name),
        ),
        facts_stmt(SpecStatement::DropObject(d)).contains(SchemaFact::Table(d.name)),
{
    reveal(facts_stmt);
    lemma_names_facts(x.table, x.columns, i);
    let names = Seq::new(y.columns.len(), |k: int| y.columns[k].name);
    lemma_names_facts(y.table, names, i);
}


/// A visitor that gathers the table names and column names that statements
/// refer to.
pub struct SchemaVisitor {
    tables: Vec<String>,
    columns: Vec<(String, Vec<String>)>,
}




/// The parts of a `SELECT` statement's value.
proof fn lemma_select_parts(stmt: &SelectStatement)
    ensures
        stmt@.columns == items_v(stmt.columns@),
        stmt@.where_clause == opt_expr_v(&stmt.where_clause),
        stmt@.group_by == exprs_v(stmt.group_by@),
        stmt@.order_by == orders_v(stmt.order_by@),
{
    reveal(expr_v);
    reveal(opt_expr_v);
    reveal(stmt_v);
    reveal(select_v);
    reveal(item_v);
    reveal(table_v);
    reveal(join_v);
    reveal(insert_v);
    reveal(update_v);
    reveal(delete_v);
    reveal(column_v);
    reveal(create_v);
    reveal(facts_expr);
    reveal(facts_exprs);
    reveal(facts_whens);
    reveal(facts_orders);
    reveal(facts_stmt);
    reveal(facts_sets);
    reveal(facts_select);
    reveal(facts_ctes);
    reveal(facts_joins);
    reveal(facts_items);
    reveal(facts_table);
    assert(stmt@.columns =~= items_v(stmt.columns@));
    assert(stmt@.group_by =~= exprs_v(stmt.group_by@));
    assert(stmt@.order_by =~= orders_v(stmt.order_by@));
}

/// The value of an optional expression.
proof fn lemma_opt_expr(e: &Option<SQLExpr>)
    ensures
        opt_expr_v(e) == (match e {
            Some(x) => Some(x@),
            None => None,
        }),
{
    reveal(expr_v);
    reveal(opt_expr_v);
    reveal(stmt_v);
    reveal(select_v);
    reveal(item_v);
    reveal(table_v);
    reveal(join_v);
    reveal(insert_v);
    reveal(update_v);
    reveal(delete_v);
    reveal(column_v);
    reveal(create_v);
    reveal(facts_expr);
    reveal(facts_exprs);
    reveal(facts_whens);
    reveal(facts_orders);
    reveal(facts_stmt);
    reveal(facts_sets);
    reveal(facts_select);
    reveal(facts_ctes);
    reveal(facts_joins);
    reveal(facts_items);
    reveal(facts_table);
}

impl SchemaVisitor {
    /// Whether table `t` was seen.
    pub closed spec fn seen_table(&self, t: Seq<char>) -> bool {
        exists|i: int| 0 <= i < self.tables@.len() && self.tables@[i]@ == t
    }

    /// Whether column `c` of table `t` was seen.
    pub closed spec fn seen_column(&self, t: Seq<char>, c: Seq<char>) -> bool {
        exists|i: int|
            0 <= i < self.columns@.len() && self.columns@[i].0@ == t && self.columns@[i].1@.len() > 0
                && #[trigger] texts(self.columns@[i].1@).contains(c)
    }

    /// The facts gathered so far.
    pub closed spec fn facts(&self) -> Set<SchemaFact> {
        Set::new(
            |f: SchemaFact|
                match f {
                    SchemaFact::Table(t) => self.seen_table(t),
                    SchemaFact::Column(t, c) => self.seen_column(t, c),
                },
        )
    }

    /// An empty visitor.
    pub fn new() -> (r: Self)
        ensures
            r.facts() == Set::<SchemaFact>::empty(),
    {
        let r = SchemaVisitor { tables: Vec::new(), columns: Vec::new() };
        assert(r.facts() =~= Set::<SchemaFact>::empty());
        r
    }

    fn add_table(&mut self, t: &str)
        ensures
            final(self).facts() == old(self).facts() + set![SchemaFact::Table(t@)],
            final(self).columns@ == old(self).columns@,
    {
        let ghost old_facts = self.facts();
        let s = string_of(&crate::text::chars_of(t));
        self.tables.push(s);
        assert(self.tables@[self.tables@.len() - 1]@ == t@);
        assert forall|x: Seq<char>| #[trigger] self.seen_table(x) == (old(self).seen_table(x) || x == t@) by {
            if old(self).seen_table(x) {
                let i = choose|i: int| 0 <= i < old(self).tables@.len() && old(self).tables@[i]@ == x;
                assert(self.tables@[i] == old(self).tables@[i]);
            }
            if self.seen_table(x) && !(x == t@) {
                let i = choose|i: int| 0 <= i < self.tables@.len() && self.tables@[i]@ == x;
                assert(i < old(self).tables@.len());
                assert(self.tables@[i] == old(self).tables@[i]);
            }
        }
        assert forall|x: Seq<char>, y: Seq<char>| #[trigger] self.seen_column(x, y) == old(self).seen_column(x, y) by {}
        assert(self.facts() =~= old_facts + set![SchemaFact::Table(t@)]) by {
            assert forall|f: SchemaFact| self.facts().contains(f) == (old_facts + set![SchemaFact::Table(t@)]).contains(f) by {
                match f {
                    SchemaFact::Table(x) => {
                        assert(self.seen_table(x) == (old(self).seen_table(x) || x == t@));
                    },
                    SchemaFact::Column(x, y) => {
                        assert(self.seen_column(x, y) == old(self).seen_column(x, y));
                    },
                }
            }
        }
    }

    fn add_column(&mut self, t: &str, c: &str)
        ensures
            final(self).facts() == old(self).facts() + col_facts(t@, c@),
    {
        self.add_table(t);
        let ghost mid = self.facts();
        let ghost mid_self = *self;
        let ts = string_of(&crate::text::chars_of(t));
        let cs = string_of(&crate::text::chars_of(c));
        let mut v: Vec<String> = Vec::new();
        v.push(cs);
        self.columns.push((ts, v));
        let ghost n = self.columns@.len() - 1;
        assert(texts(self.columns@[n].1@).contains(c@)) by {
            assert(texts(self.columns@[n].1@)[0] == c@);
        }
        assert forall|x: Seq<char>, y: Seq<char>| #[trigger] self.seen_column(x, y) == (mid_self.seen_column(x, y) || (
        x == t@ && y == c@)) by {
            if mid_self.seen_column(x, y) {
                let i = choose|i: int|
                    0 <= i < mid_self.columns@.len() && mid_self.columns@[i].0@ == x && mid_self.columns@[i].1@.len() > 0
                        && #[trigger] texts(mid_self.columns@[i].1@).contains(y);
                assert(self.columns@[i] == mid_self.columns@[i]);
            }
            if self.seen_column(x, y) && !(x == t@ && y == c@) {
                let i = choose|i: int|
                    0 <= i < self.columns@.len() && self.columns@[i].0@ == x && self.columns@[i].1@.len() > 0
                        && #[trigger] texts(self.columns@[i].1@).contains(y);
                if i == n {
                    let j = choose|j: int| 0 <= j < texts(self.columns@[i].1@).len() && texts(self.columns@[i].1@)[j] == y;
                    assert(j == 0);
                }
                assert(i < mid_self.columns@.len());
                assert(self.columns@[i] == mid_self.columns@[i]);
            }
        }
        assert(self.tables@ == mid_self.tables@);
        assert forall|x: Seq<char>| #[trigger] self.seen_table(x) == mid_self.seen_table(x) by {
            assert(self.tables@ == mid_self.tables@);
        }
        assert(self.facts() =~= old(self).facts() + col_facts(t@, c@)) by {
            assert forall|f: SchemaFact| self.facts().contains(f) == (mid + col_facts(t@, c@)).contains(f) by {
                match f {
                    SchemaFact::Table(x) => {
                        assert(self.seen_table(x) == mid_self.seen_table(x));
                    },
                    SchemaFact::Column(x, y) => {
                        assert(self.seen_column(x, y) == (mid_self.seen_column(x, y) || (x == t@ && y == c@)));
                    },
                }
            }
        }
    }

    /// Whether a table of that name was seen.
    pub fn has_table(&self, name: &str) -> (r: bool)
        ensures
            r == self.facts().contains(SchemaFact::Table(name@)),
    {
        let mut i: usize = 0;
        while i < self.tables.len()
            invariant
                i <= self.tables@.len(),
                forall|k: int| 0 <= k < i ==> self.tables@[k]@ != name@,
            decreases self.tables.len() - i,
        {
            if same_text(self.tables[i].as_str(), name) {
                assert(self.tables@[i as int]@ == name@);
                return true;
            }
            i = i + 1;
        }
        false
    }

    /// Whether a column of that name was seen for that table.
    pub fn has_column(&self, table: &str, column: &str) -> (r: bool)
        ensures
            r == self.facts().contains(SchemaFact::Column(table@, column@)),
    {
        let mut i: usize = 0;
        while i < self.columns.len()
            invariant
                i <= self.columns@.len(),
                forall|k: int|
                    0 <= k < i ==> !(self.columns@[k].0@ == table@ && #[trigger] texts(self.columns@[k].1@).contains(
                        column@,
                    )),
            decreases self.columns.len() - i,
        {
            if same_text(self.columns[i].0.as_str(), table) {
                let mut j: usize = 0;
                while j < self.columns[i].1.len()
                    invariant
                        i < self.columns@.len(),
                        j <= self.columns@[i as int].1@.len(),
                        self.columns@[i as int].0@ == table@,
                        forall|k: int| 0 <= k < j ==> self.columns@[i as int].1@[k]@ != column@,
                    decreases self.columns[i as int].1@.len() - j,
                {
                    if same_text(self.columns[i].1[j].as_str(), column) {
                        assert(texts(self.columns@[i as int].1@)[j as int] == column@);
                        assert(texts(self.columns@[i as int].1@).contains(column@));
                        assert(self.columns@[i as int].0@ == table@);
                        assert(self.columns@[i as int].1@.len() > 0);
                        assert(self.seen_column(table@, column@));
                        assert(self.facts().contains(SchemaFact::Column(table@, column@)));
                        return true;
                    }
                    j = j + 1;
                }
                assert(!texts(self.columns@[i as int].1@).contains(column@)) by {
                    if texts(self.columns@[i as int].1@).contains(column@) {
                        let k = choose|k: int| 0 <= k < texts(self.columns@[i as int].1@).len() && texts(self.columns@[i as int].1@)[k] == column@;
                    }
                }
            }
            i = i + 1;
        }
        false
    }

    fn visit_exprs(&mut self, es: &Vec<SQLExpr>, t: &str)
        ensures
            final(self).facts() == old(self).facts() + facts_exprs(exprs_v(es@), t@),
        decreases es, 0int,
    {
        proof {
            reveal(expr_v);
            reveal(opt_expr_v);
            reveal(stmt_v);
            reveal(select_v);
            reveal(item_v);
            reveal(table_v);
            reveal(join_v);
            reveal(insert_v);
            reveal(update_v);
            reveal(delete_v);
            reveal(column_v);
            reveal(create_v);
            reveal(facts_expr);
            reveal(facts_exprs);
            reveal(facts_whens);
            reveal(facts_orders);
            reveal(facts_stmt);
            reveal(facts_sets);
            reveal(facts_select);
            reveal(facts_ctes);
            reveal(facts_joins);
            reveal(facts_items);
            reveal(facts_table);
        }
        let ghost start = self.facts();
        let ghost ev = exprs_v(es@);
        let mut k: usize = 0;
        while k < es.len()
            invariant
                k <= es.len(),
                ev == exprs_v(es@),
                self.facts() == start + facts_exprs(ev.subrange(0, k as int), t@),
            decreases es.len() - k,
        {
            proof {
                reveal(expr_v);
                reveal(opt_expr_v);
                reveal(stmt_v);
                reveal(select_v);
                reveal(item_v);
                reveal(table_v);
                reveal(join_v);
                reveal(insert_v);
                reveal(update_v);
                reveal(delete_v);
                reveal(column_v);
                reveal(create_v);
                reveal(facts_expr);
                reveal(facts_exprs);
                reveal(facts_whens);
                reveal(facts_orders);
                reveal(facts_stmt);
                reveal(facts_sets);
                reveal(facts_select);
                reveal(facts_ctes);
                reveal(facts_joins);
                reveal(facts_items);
                reveal(facts_table);
            }
            self.visit_expr(&es[k], t);
            assert(ev.subrange(0, k + 1).subrange(0, k as int) =~= ev.subrange(0, k as int));
            assert(self.facts() =~= start + facts_exprs(ev.subrange(0, k + 1), t@));
            k = k + 1;
        }
        assert(ev.subrange(0, es.len() as int) =~= ev);
    }

    fn visit_whens(&mut self, ws: &Vec<(SQLExpr, SQLExpr)>, t: &str)
        ensures
            final(self).facts() == old(self).facts() + facts_whens(whens_v(ws@), t@),
        decreases ws, 0int,
    {
        proof {
            reveal(expr_v);
            reveal(opt_expr_v);
            reveal(stmt_v);
            reveal(select_v);
            reveal(item_v);
            reveal(table_v);
            reveal(join_v);
            reveal(insert_v);
            reveal(update_v);
            reveal(delete_v);
            reveal(column_v);
            reveal(create_v);
            reveal(facts_expr);
            reveal(facts_exprs);
            reveal(facts_whens);
            reveal(facts_orders);
            reveal(facts_stmt);
            reveal(facts_sets);
            reveal(facts_select);
            reveal(facts_ctes);
            reveal(facts_joins);
            reveal(facts_items);
            reveal(facts_table);
        }
        let ghost start = self.facts();
        let ghost wv = whens_v(ws@);
        let mut k: usize = 0;
        while k < ws.len()
            invariant
                k <= ws.len(),
                wv == whens_v(ws@),
                self.facts() == start + facts_whens(wv.subrange(0, k as int), t@),
            decreases ws.len() - k,
        {
            proof {
                reveal(expr_v);
                reveal(opt_expr_v);
                reveal(stmt_v);
                reveal(select_v);
                reveal(item_v);
                reveal(table_v);
                reveal(join_v);
                reveal(insert_v);
                reveal(update_v);
                reveal(delete_v);
                reveal(column_v);
                reveal(create_v);
                reveal(facts_expr);
                reveal(facts_exprs);
                reveal(facts_whens);
                reveal(facts_orders);
                reveal(facts_stmt);
                reveal(facts_sets);
                reveal(facts_select);
                reveal(facts_ctes);
                reveal(facts_joins);
                reveal(facts_items);
                reveal(facts_table);
            }
            self.visit_expr(&ws[k].0, t);
            self.visit_expr(&ws[k].1, t);
            assert(wv.subrange(0, k + 1).subrange(0, k as int) =~= wv.subrange(0, k as int));
            assert(self.facts() =~= start + facts_whens(wv.subrange(0, k + 1), t@));
            k = k + 1;
        }
        assert(wv.subrange(0, ws.len() as int) =~= wv);
    }

    fn visit_expr(&mut self, e: &SQLExpr, t: &str)
        ensures
            final(self).facts() == old(self).facts() + facts_expr(e@, t@),
        decreases e, 1int,
    {
        proof {
            reveal(expr_v);
            reveal(opt_expr_v);
            reveal(stmt_v);
            reveal(select_v);
            reveal(item_v);
            reveal(table_v);
            reveal(join_v);
            reveal(insert_v);
            reveal(update_v);
            reveal(delete_v);
            reveal(column_v);
            reveal(create_v);
            reveal(facts_expr);
            reveal(facts_exprs);
            reveal(facts_whens);
            reveal(facts_orders);
            reveal(facts_stmt);
            reveal(facts_sets);
            reveal(facts_select);
            reveal(facts_ctes);
            reveal(facts_joins);
            reveal(facts_items);
            reveal(facts_table);
        }
        let ghost s0 = self.facts();
        match e {
            SQLExpr::Identifier(parts) => {
                if parts.len() == 2 {
                    self.add_column(parts[0].as_str(), parts[1].as_str());
                } else if parts.len() == 1 && !t.is_empty() {
                    self.add_column(t, parts[0].as_str());
                }
            },
            SQLExpr::BinaryOp { left, right, .. } => {
                self.visit_expr(left, t);
                self.visit_expr(right, t);
            },
            SQLExpr::Function { args, .. } => {
                assert(e@ matches SpecExpr::Function { args: a, .. } && a =~= exprs_v(args@));
                self.visit_exprs(args, t);
            },
            SQLExpr::InList { expr, list, .. } => {
                assert(e@ matches SpecExpr::InList { list: a, .. } && a =~= exprs_v(list@));
                self.visit_expr(expr, t);
                self.visit_exprs(list, t);
            },
            SQLExpr::Nested(inner) => {
                self.visit_expr(inner, t);
            },
            SQLExpr::Case { expr: operand, whens, else_expr } => {
                assert(e@ matches SpecExpr::Case { whens: w, .. } && w =~= whens_v(whens@));
                match operand {
                    Some(x) => {
                        self.visit_expr(x, t);
                    },
                    None => {},
                }
                self.visit_whens(whens, t);
                match else_expr {
                    Some(x) => {
                        self.visit_expr(x, t);
                    },
                    None => {},
                }
            },
            SQLExpr::Aggregate { expr: inner, .. } => {
                self.visit_expr(inner, t);
            },
            SQLExpr::SubQuery(st) => {
                self.visit_statement(st);
            },
            SQLExpr::Exists(st, _) => {
                self.visit_statement(st);
            },
            SQLExpr::UnaryOp { expr: inner, .. } => {
                self.visit_expr(inner, t);
            },
            SQLExpr::Between { expr: inner, low, high, .. } => {
                self.visit_expr(inner, t);
                self.visit_expr(low, t);
                self.visit_expr(high, t);
            },
            SQLExpr::IsNull { expr: inner, .. } => {
                self.visit_expr(inner, t);
            },
            SQLExpr::Like { expr: inner, pattern, .. } => {
                self.visit_expr(inner, t);
                self.visit_expr(pattern, t);
            },
            SQLExpr::Cast { expr: inner, .. } => {
                self.visit_expr(inner, t);
            },
            SQLExpr::InSubQuery { expr: inner, query, .. } => {
                self.visit_expr(inner, t);
                self.visit_statement(query);
            },
            SQLExpr::WindowFunction { function, partition_by, order_by } => {
                assert(e@ matches SpecExpr::WindowFunction { partition_by: p, order_by: o, .. } && p =~= exprs_v(
                    partition_by@,
                ) && o =~= orders_v(order_by@));
                self.visit_expr(function, t);
                self.visit_exprs(partition_by, t);
                self.visit_orders(order_by);
            },
            _ => {},
        }
        assert(self.facts() =~= s0 + facts_expr(e@, t@));
    }

    fn visit_orders(&mut self, os: &Vec<crate::sql::ast::OrderByExpr>)
        ensures
            final(self).facts() == old(self).facts() + facts_orders(orders_v(os@)),
        decreases os, 0int,
    {
        proof {
            reveal(expr_v);
            reveal(opt_expr_v);
            reveal(stmt_v);
            reveal(select_v);
            reveal(item_v);
            reveal(table_v);
            reveal(join_v);
            reveal(insert_v);
            reveal(update_v);
            reveal(delete_v);
            reveal(column_v);
            reveal(create_v);
            reveal(facts_expr);
            reveal(facts_exprs);
            reveal(facts_whens);
            reveal(facts_orders);
            reveal(facts_stmt);
            reveal(facts_sets);
            reveal(facts_select);
            reveal(facts_ctes);
            reveal(facts_joins);
            reveal(facts_items);
            reveal(facts_table);
        }
        let ghost start = self.facts();
        let ghost ov = orders_v(os@);
        let mut k: usize = 0;
        while k < os.len()
            invariant
                k <= os.len(),
                ov == orders_v(os@),
                self.facts() == start + facts_orders(ov.subrange(0, k as int)),
            decreases os.len() - k,
        {
            proof {
                reveal(expr_v);
                reveal(opt_expr_v);
                reveal(stmt_v);
                reveal(select_v);
                reveal(item_v);
                reveal(table_v);
                reveal(join_v);
                reveal(insert_v);
                reveal(update_v);
                reveal(delete_v);
                reveal(column_v);
                reveal(create_v);
                reveal(facts_expr);
                reveal(facts_exprs);
                reveal(facts_whens);
                reveal(facts_orders);
                reveal(facts_stmt);
                reveal(facts_sets);
                reveal(facts_select);
                reveal(facts_ctes);
                reveal(facts_joins);
                reveal(facts_items);
                reveal(facts_table);
            }
            proof {
                reveal_strlit("");
            }
            assert(""@ =~= Seq::<char>::empty());
            self.visit_expr(&os[k].expr, "");
            assert(ov.subrange(0, k + 1).subrange(0, k as int) =~= ov.subrange(0, k as int));
            assert(self.facts() =~= start + facts_orders(ov.subrange(0, k + 1)));
            k = k + 1;
        }
        assert(ov.subrange(0, os.len() as int) =~= ov);
    }

    fn visit_table_ref(&mut self, tr: &TableReference)
        ensures
            final(self).facts() == old(self).facts() + facts_table(tr@),
        decreases tr, 0int,
    {
        proof {
            reveal(expr_v);
            reveal(opt_expr_v);
            reveal(stmt_v);
            reveal(select_v);
            reveal(item_v);
            reveal(table_v);
            reveal(join_v);
            reveal(insert_v);
            reveal(update_v);
            reveal(delete_v);
            reveal(column_v);
            reveal(create_v);
            reveal(facts_expr);
            reveal(facts_exprs);
            reveal(facts_whens);
            reveal(facts_orders);
            reveal(facts_stmt);
            reveal(facts_sets);
            reveal(facts_select);
            reveal(facts_ctes);
            reveal(facts_joins);
            reveal(facts_items);
            reveal(facts_table);
        }
        let ghost s0 = self.facts();
        match tr {
            TableReference::Table { name, schema, .. } => {
                match schema {
                    Some(sch) => {
                        let mut v = crate::text::chars_of(sch.as_str());
                        push_str(&mut v, ".");
                        push_str(&mut v, name.as_str());
                        let full = string_of(&v);
                        self.add_table(full.as_str());
                    },
                    None => {
                        self.add_table(name.as_str());
                    },
                }
            },
            TableReference::SubQuery(st, _) => {
                self.visit_statement(st);
            },
            TableReference::Join(_) => {},
        }
        assert(self.facts() =~= s0 + facts_table(tr@));
    }

    fn visit_joins(&mut self, js: &Vec<crate::sql::ast::JoinClause>)
        ensures
            final(self).facts() == old(self).facts() + facts_joins(joins_v(js@)),
        decreases js, 0int,
    {
        proof {
            reveal(expr_v);
            reveal(opt_expr_v);
            reveal(stmt_v);
            reveal(select_v);
            reveal(item_v);
            reveal(table_v);
            reveal(join_v);
            reveal(insert_v);
            reveal(update_v);
            reveal(delete_v);
            reveal(column_v);
            reveal(create_v);
            reveal(facts_expr);
            reveal(facts_exprs);
            reveal(facts_whens);
            reveal(facts_orders);
            reveal(facts_stmt);
            reveal(facts_sets);
            reveal(facts_select);
            reveal(facts_ctes);
            reveal(facts_joins);
            reveal(facts_items);
            reveal(facts_table);
        }
        let ghost start = self.facts();
        let ghost jv = joins_v(js@);
        let mut k: usize = 0;
        while k < js.len()
            invariant
                k <= js.len(),
                jv == joins_v(js@),
                self.facts() == start + facts_joins(jv.subrange(0, k as int)),
            decreases js.len() - k,
        {
            proof {
                reveal(expr_v);
                reveal(opt_expr_v);
                reveal(stmt_v);
                reveal(select_v);
                reveal(item_v);
                reveal(table_v);
                reveal(join_v);
                reveal(insert_v);
                reveal(update_v);
                reveal(delete_v);
                reveal(column_v);
                reveal(create_v);
                reveal(facts_expr);
                reveal(facts_exprs);
                reveal(facts_whens);
                reveal(facts_orders);
                reveal(facts_stmt);
                reveal(facts_sets);
                reveal(facts_select);
                reveal(facts_ctes);
                reveal(facts_joins);
                reveal(facts_items);
                reveal(facts_table);
            }
            self.visit_table_ref(&js[k].table);
            assert(jv.subrange(0, k + 1).subrange(0, k as int) =~= jv.subrange(0, k as int));
            assert(self.facts() =~= start + facts_joins(jv.subrange(0, k + 1)));
            k = k + 1;
        }
        assert(jv.subrange(0, js.len() as int) =~= jv);
    }

    fn visit_items(&mut self, items: &Vec<SelectItem>)
        ensures
            final(self).facts() == old(self).facts() + facts_items(items_v(items@)),
        decreases items, 0int,
    {
        proof {
            reveal(expr_v);
            reveal(opt_expr_v);
            reveal(stmt_v);
            reveal(select_v);
            reveal(item_v);
            reveal(table_v);
            reveal(join_v);
            reveal(insert_v);
            reveal(update_v);
            reveal(delete_v);
            reveal(column_v);
            reveal(create_v);
            reveal(facts_expr);
            reveal(facts_exprs);
            reveal(facts_whens);
            reveal(facts_orders);
            reveal(facts_stmt);
            reveal(facts_sets);
            reveal(facts_select);
            reveal(facts_ctes);
            reveal(facts_joins);
            reveal(facts_items);
            reveal(facts_table);
        }
        let ghost start = self.facts();
        let ghost iv = items_v(items@);
        let mut k: usize = 0;
        while k < items.len()
            invariant
                k <= items.len(),
                iv == items_v(items@),
                self.facts() == start + facts_items(iv.subrange(0, k as int)),
            decreases items.len() - k,
        {
            proof {
                reveal(expr_v);
                reveal(opt_expr_v);
                reveal(stmt_v);
                reveal(select_v);
                reveal(item_v);
                reveal(table_v);
                reveal(join_v);
                reveal(insert_v);
                reveal(update_v);
                reveal(delete_v);
                reveal(column_v);
                reveal(create_v);
                reveal(facts_expr);
                reveal(facts_exprs);
                reveal(facts_whens);
                reveal(facts_orders);
                reveal(facts_stmt);
                reveal(facts_sets);
                reveal(facts_select);
                reveal(facts_ctes);
                reveal(facts_joins);
                reveal(facts_items);
                reveal(facts_table);
            }
            match &items[k] {
                SelectItem::Expr(e, _) => {
                    proof {
                        reveal_strlit("");
                    }
                    assert(""@ =~= Seq::<char>::empty());
                    self.visit_expr(e, "");
                },
                SelectItem::Wildcard(_) => {},
            }
            assert(iv.subrange(0, k + 1).subrange(0, k as int) =~= iv.subrange(0, k as int));
            assert(self.facts() =~= start + facts_items(iv.subrange(0, k + 1)));
            k = k + 1;
        }
        assert(iv.subrange(0, items.len() as int) =~= iv);
    }

    fn visit_ctes(&mut self, cs: &Vec<crate::sql::ast::CteDef>)
        ensures
            final(self).facts() == old(self).facts() + facts_ctes(ctes_v(cs@)),
        decreases cs, 0int,
    {
        proof {
            reveal(expr_v);
            reveal(opt_expr_v);
            reveal(stmt_v);
            reveal(select_v);
            reveal(item_v);
            reveal(table_v);
            reveal(join_v);
            reveal(insert_v);
            reveal(update_v);
            reveal(delete_v);
            reveal(column_v);
            reveal(create_v);
            reveal(facts_expr);
            reveal(facts_exprs);
            reveal(facts_whens);
            reveal(facts_orders);
            reveal(facts_stmt);
            reveal(facts_sets);
            reveal(facts_select);
            reveal(facts_ctes);
            reveal(facts_joins);
            reveal(facts_items);
            reveal(facts_table);
        }
        let ghost start = self.facts();
        let ghost cv = ctes_v(cs@);
        let mut k: usize = 0;
        while k < cs.len()
            invariant
                k <= cs.len(),
                cv == ctes_v(cs@),
                self.facts() == start + facts_ctes(cv.subrange(0, k as int)),
            decreases cs.len() - k,
        {
            proof {
                reveal(expr_v);
                reveal(opt_expr_v);
                reveal(stmt_v);
                reveal(select_v);
                reveal(item_v);
                reveal(table_v);
                reveal(join_v);
                reveal(insert_v);
                reveal(update_v);
                reveal(delete_v);
                reveal(column_v);
                reveal(create_v);
                reveal(facts_expr);
                reveal(facts_exprs);
                reveal(facts_whens);
                reveal(facts_orders);
                reveal(facts_stmt);
                reveal(facts_sets);
                reveal(facts_select);
                reveal(facts_ctes);
                reveal(facts_joins);
                reveal(facts_items);
                reveal(facts_table);
            }
            self.visit_select(&cs[k].query);
            assert(cv.subrange(0, k + 1).subrange(0, k as int) =~= cv.subrange(0, k as int));
            assert(self.facts() =~= start + facts_ctes(cv.subrange(0, k + 1)));
            k = k + 1;
        }
        assert(cv.subrange(0, cs.len() as int) =~= cv);
    }

    /// Visits a `SELECT` statement.
    pub fn visit_select(&mut self, stmt: &SelectStatement)
        ensures
            final(self).facts() == old(self).facts() + facts_select(stmt@),
        decreases stmt, 2int,
    {
        proof {
            reveal(expr_v);
            reveal(opt_expr_v);
            reveal(stmt_v);
            reveal(select_v);
            reveal(item_v);
            reveal(table_v);
            reveal(join_v);
            reveal(insert_v);
            reveal(update_v);
            reveal(delete_v);
            reveal(column_v);
            reveal(create_v);
            reveal(facts_expr);
            reveal(facts_exprs);
            reveal(facts_whens);
            reveal(facts_orders);
            reveal(facts_stmt);
            reveal(facts_sets);
            reveal(facts_select);
            reveal(facts_ctes);
            reveal(facts_joins);
            reveal(facts_items);
            reveal(facts_table);
        }
        let ghost s0 = self.facts();
        let ghost sv = stmt@;
        self.visit_sources(stmt);
        self.visit_references(stmt);
        assert(self.facts() =~= s0 + facts_select(sv));
    }

    /// The tables a `SELECT` statement reads: its common table expressions,
    /// its `FROM` table and its joined tables.
    fn visit_sources(&mut self, stmt: &SelectStatement)
        ensures
            final(self).facts() == old(self).facts() + facts_ctes(stmt@.with_cte) + (match stmt@.from {
                Some(t) => facts_table(t),
                None => Set::empty(),
            }) + facts_joins(stmt@.joins),
        decreases stmt, 1int,
    {
        proof {
            reveal(expr_v);
            reveal(opt_expr_v);
            reveal(stmt_v);
            reveal(select_v);
            reveal(item_v);
            reveal(table_v);
            reveal(join_v);
            reveal(insert_v);
            reveal(update_v);
            reveal(delete_v);
            reveal(column_v);
            reveal(create_v);
            reveal(facts_expr);
            reveal(facts_exprs);
            reveal(facts_whens);
            reveal(facts_orders);
            reveal(facts_stmt);
            reveal(facts_sets);
            reveal(facts_select);
            reveal(facts_ctes);
            reveal(facts_joins);
            reveal(facts_items);
            reveal(facts_table);
        }
        let ghost s0 = self.facts();
        let ghost sv = stmt@;
        assert(sv.with_cte =~= ctes_v(stmt.with_cte@));
        assert(sv.joins =~= joins_v(stmt.joins@));
        self.visit_ctes(&stmt.with_cte);
        match &stmt.from {
            Some(from) => {
                self.visit_table_ref(from);
            },
            None => {},
        }
        self.visit_joins(&stmt.joins);
    }

    /// The columns a `SELECT` statement refers to: in its select list,
    /// `WHERE`, `GROUP BY` and `ORDER BY`.
    /// The columns a `SELECT` statement refers to: in its select list,
    /// `WHERE`, `GROUP BY` and `ORDER BY`.
    fn visit_references(&mut self, stmt: &SelectStatement)
        ensures
            final(self).facts() == old(self).facts() + facts_items(stmt@.columns) + (match stmt@.where_clause {
                Some(w) => facts_expr(w, Seq::empty()),
                None => Set::empty(),
            }) + facts_exprs(stmt@.group_by, Seq::empty()) + facts_orders(stmt@.order_by),
        decreases stmt, 1int,
    {
        let ghost s0 = self.facts();
        self.visit_filters(stmt);
        self.visit_groups(stmt);
        assert(self.facts() =~= s0 + facts_items(stmt@.columns) + (match stmt@.where_clause {
            Some(w) => facts_expr(w, Seq::empty()),
            None => Set::empty(),
        }) + facts_exprs(stmt@.group_by, Seq::empty()) + facts_orders(stmt@.order_by));
    }

    #[verifier::spinoff_prover]
    #[verifier::rlimit(100)]
    fn visit_filters(&mut self, stmt: &SelectStatement)
        ensures
            final(self).facts() == old(self).facts() + facts_items(stmt@.columns) + (match stmt@.where_clause {
                Some(w) => facts_expr(w, Seq::empty()),
                None => Set::empty(),
            }),
        decreases stmt, 0int,
    {
        proof {
            lemma_select_parts(stmt);
            lemma_opt_expr(&stmt.where_clause);
        }
        let ghost s0 = self.facts();
        proof {
            reveal_strlit("");
        }
        assert(""@ =~= Seq::<char>::empty());
        self.visit_items(&stmt.columns);
        let ghost s1 = self.facts();
        match &stmt.where_clause {
            Some(w) => {
                assert(stmt@.where_clause == Some(w@));
                self.visit_expr(w, "");
            },
            None => {
                assert(stmt@.where_clause == None::<SpecExpr>);
            },
        }
        assert(s1 == s0 + facts_items(stmt@.columns));
        assert(self.facts() =~= s0 + facts_items(stmt@.columns) + (match stmt@.where_clause {
            Some(w) => facts_expr(w, Seq::empty()),
            None => Set::empty(),
        }));
    }

    #[verifier::spinoff_prover]
    #[verifier::rlimit(100)]
    fn visit_groups(&mut self, stmt: &SelectStatement)
        ensures
            final(self).facts() == old(self).facts() + facts_exprs(stmt@.group_by, Seq::empty()) + facts_orders(
                stmt@.order_by,
            ),
        decreases stmt, 0int,
    {
        proof {
            reveal(expr_v);
            reveal(opt_expr_v);
            reveal(stmt_v);
            reveal(select_v);
            reveal(item_v);
            reveal(table_v);
            reveal(join_v);
            reveal(insert_v);
            reveal(update_v);
            reveal(delete_v);
            reveal(column_v);
            reveal(create_v);
            reveal(facts_expr);
            reveal(facts_exprs);
            reveal(facts_whens);
            reveal(facts_orders);
            reveal(facts_stmt);
            reveal(facts_sets);
            reveal(facts_select);
            reveal(facts_ctes);
            reveal(facts_joins);
            reveal(facts_items);
            reveal(facts_table);
        }
        assert(stmt@.group_by =~= exprs_v(stmt.group_by@));
        assert(stmt@.order_by =~= orders_v(stmt.order_by@));
        proof {
            reveal_strlit("");
        }
        assert(""@ =~= Seq::<char>::empty());
        self.visit_exprs(&stmt.group_by, "");
        self.visit_orders(&stmt.order_by);
    }

    /// Visits an `INSERT` statement: its table and its column list.
    pub fn visit_insert(&mut self, stmt: &InsertStatement)
        ensures
            final(self).facts() == old(self).facts() + names_facts(stmt.table@, texts(stmt.columns@)),
    {
        let ghost s0 = self.facts();
        let ghost cv = texts(stmt.columns@);
        self.add_table(stmt.table.as_str());
        let mut k: usize = 0;
        while k < stmt.columns.len()
            invariant
                k <= stmt.columns@.len(),
                cv == texts(stmt.columns@),
                self.facts() == s0 + names_facts(stmt.table@, cv.subrange(0, k as int)),
            decreases stmt.columns.len() - k,
        {
            self.add_column(stmt.table.as_str(), stmt.columns[k].as_str());
            assert(cv.subrange(0, k + 1).subrange(0, k as int) =~= cv.subrange(0, k as int));
            assert(self.facts() =~= s0 + names_facts(stmt.table@, cv.subrange(0, k + 1)));
            k = k + 1;
        }
        assert(cv.subrange(0, stmt.columns.len() as int) =~= cv);
    }

    fn visit_sets(&mut self, stmt: &UpdateStatement)
        ensures
            final(self).facts() == old(self).facts() + facts_sets(update_v(stmt).sets, stmt.table@),
        decreases stmt, 0int,
    {
        proof {
            reveal(expr_v);
            reveal(opt_expr_v);
            reveal(stmt_v);
            reveal(select_v);
            reveal(item_v);
            reveal(table_v);
            reveal(join_v);
            reveal(insert_v);
            reveal(update_v);
            reveal(delete_v);
            reveal(column_v);
            reveal(create_v);
            reveal(facts_expr);
            reveal(facts_exprs);
            reveal(facts_whens);
            reveal(facts_orders);
            reveal(facts_stmt);
            reveal(facts_sets);
            reveal(facts_select);
            reveal(facts_ctes);
            reveal(facts_joins);
            reveal(facts_items);
            reveal(facts_table);
        }
        let ghost start = self.facts();
        let ghost sv = update_v(stmt).sets;
        let mut k: usize = 0;
        while k < stmt.sets.len()
            invariant
                k <= stmt.sets.len(),
                sv == update_v(stmt).sets,
                sv.len() == stmt.sets@.len(),
                self.facts() == start + facts_sets(sv.subrange(0, k as int), stmt.table@),
            decreases stmt.sets.len() - k,
        {
            proof {
                reveal(expr_v);
                reveal(opt_expr_v);
                reveal(stmt_v);
                reveal(select_v);
                reveal(item_v);
                reveal(table_v);
                reveal(join_v);
                reveal(insert_v);
                reveal(update_v);
                reveal(delete_v);
                reveal(column_v);
                reveal(create_v);
                reveal(facts_expr);
                reveal(facts_exprs);
                reveal(facts_whens);
                reveal(facts_orders);
                reveal(facts_stmt);
                reveal(facts_sets);
                reveal(facts_select);
                reveal(facts_ctes);
                reveal(facts_joins);
                reveal(facts_items);
                reveal(facts_table);
            }
            self.add_column(stmt.table.as_str(), stmt.sets[k].0.as_str());
            self.visit_expr(&stmt.sets[k].1, stmt.table.as_str());
            assert(sv.subrange(0, k + 1).subrange(0, k as int) =~= sv.subrange(0, k as int));
            assert(self.facts() =~= start + facts_sets(sv.subrange(0, k + 1), stmt.table@));
            k = k + 1;
        }
        assert(sv.subrange(0, stmt.sets.len() as int) =~= sv);
    }

    /// Visits an `UPDATE` statement.
    pub fn visit_update(&mut self, stmt: &UpdateStatement)
        ensures
            final(self).facts() == old(self).facts() + facts_stmt(SpecStatement::Update(update_v(stmt))),
            final(self).seen_table(stmt.table@),
            forall|c: Seq<char>|
                stmt.table@.len() > 0 && update_v(stmt).where_clause is Some && names_bare(
                    update_v(stmt).where_clause->Some_0,
                    c,
                ) ==> #[trigger] final(self).seen_column(stmt.table@, c),
        decreases stmt, 1int,
    {
        proof {
            reveal(expr_v);
            reveal(opt_expr_v);
            reveal(stmt_v);
            reveal(select_v);
            reveal(item_v);
            reveal(table_v);
            reveal(join_v);
            reveal(insert_v);
            reveal(update_v);
            reveal(delete_v);
            reveal(column_v);
            reveal(create_v);
            reveal(facts_expr);
            reveal(facts_exprs);
            reveal(facts_whens);
            reveal(facts_orders);
            reveal(facts_stmt);
            reveal(facts_sets);
            reveal(facts_select);
            reveal(facts_ctes);
            reveal(facts_joins);
            reveal(facts_items);
            reveal(facts_table);
        }
        let ghost s0 = self.facts();
        self.add_table(stmt.table.as_str());
        self.visit_sets(stmt);
        match &stmt.where_clause {
            Some(w) => {
                self.visit_expr(w, stmt.table.as_str());
            },
            None => {},
        }
        assert(self.facts() =~= s0 + facts_stmt(SpecStatement::Update(update_v(stmt))));
        proof {
            let d = update_v(stmt);
            assert(d.table == stmt.table@);
            lemma_where_columns(d.table, d.where_clause->Some_0, d.sets, Seq::empty(), Seq::empty());
            assert(self.facts().contains(SchemaFact::Table(stmt.table@)));
            assert forall|c: Seq<char>|
                stmt.table@.len() > 0 && d.where_clause is Some && names_bare(d.where_clause->Some_0, c)
                    implies #[trigger] self.seen_column(stmt.table@, c) by {
                let w = d.where_clause->Some_0;
                lemma_where_columns(d.table, w, d.sets, c, c);
                assert(SpecStatement::Update(d) == SpecStatement::Update(
                    SpecUpdate { table: d.table, sets: d.sets, where_clause: Some(w) },
                ));
                assert(self.facts().contains(SchemaFact::Column(stmt.table@, c)));
            }
        }
    }

    /// Visits a `DELETE` statement.
    pub fn visit_delete(&mut self, stmt: &DeleteStatement)
        ensures
            final(self).facts() == old(self).facts() + facts_stmt(SpecStatement::Delete(delete_v(stmt))),
            final(self).seen_table(stmt.table@),
            forall|c: Seq<char>|
                stmt.table@.len() > 0 && delete_v(stmt).where_clause is Some && names_bare(
                    delete_v(stmt).where_clause->Some_0,
                    c,
                ) ==> #[trigger] final(self).seen_column(stmt.table@, c),
        decreases stmt, 0int,
    {
        proof {
            reveal(expr_v);
            reveal(opt_expr_v);
            reveal(stmt_v);
            reveal(select_v);
            reveal(item_v);
            reveal(table_v);
            reveal(join_v);
            reveal(insert_v);
            reveal(update_v);
            reveal(delete_v);
            reveal(column_v);
            reveal(create_v);
            reveal(facts_expr);
            reveal(facts_exprs);
            reveal(facts_whens);
            reveal(facts_orders);
            reveal(facts_stmt);
            reveal(facts_sets);
            reveal(facts_select);
            reveal(facts_ctes);
            reveal(facts_joins);
            reveal(facts_items);
            reveal(facts_table);
        }
        let ghost s0 = self.facts();
        self.add_table(stmt.table.as_str());
        match &stmt.where_clause {
            Some(w) => {
                self.visit_expr(w, stmt.table.as_str());
            },
            None => {},
        }
        assert(self.facts() =~= s0 + facts_stmt(SpecStatement::Delete(delete_v(stmt))));
        proof {
            let d = delete_v(stmt);
            assert(d.table == stmt.table@);
            assert(self.facts().contains(SchemaFact::Table(stmt.table@)));
            assert forall|c: Seq<char>|
                stmt.table@.len() > 0 && d.where_clause is Some && names_bare(d.where_clause->Some_0, c)
                    implies #[trigger] self.seen_column(stmt.table@, c) by {
                let w = d.where_clause->Some_0;
                lemma_where_columns(d.table, w, Seq::empty(), c, c);
                assert(SpecStatement::Delete(d) == SpecStatement::Delete(SpecDelete { table: d.table, where_clause: Some(w) }));
                assert(self.facts().contains(SchemaFact::Column(stmt.table@, c)));
            }
        }
    }

    fn visit_create(&mut self, stmt: &CreateTableStatement)
        ensures
            final(self).facts() == old(self).facts() + facts_stmt(SpecStatement::CreateTable(create_v(stmt))),
    {
        proof {
            reveal(expr_v);
            reveal(opt_expr_v);
            reveal(stmt_v);
            reveal(select_v);
            reveal(item_v);
            reveal(table_v);
            reveal(join_v);
            reveal(insert_v);
            reveal(update_v);
            reveal(delete_v);
            reveal(column_v);
            reveal(create_v);
            reveal(facts_expr);
            reveal(facts_exprs);
            reveal(facts_whens);
            reveal(facts_orders);
            reveal(facts_stmt);
            reveal(facts_sets);
            reveal(facts_select);
            reveal(facts_ctes);
            reveal(facts_joins);
            reveal(facts_items);
            reveal(facts_table);
        }
        let ghost s0 = self.facts();
        let ghost cv = Seq::new(create_v(stmt).columns.len(), |i: int| create_v(stmt).columns[i].name);
        self.add_table(stmt.table.as_str());
        let mut k: usize = 0;
        while k < stmt.columns.len()
            invariant
                k <= stmt.columns@.len(),
                cv == Seq::new(create_v(stmt).columns.len(), |i: int| create_v(stmt).columns[i].name),
                cv.len() == stmt.columns@.len(),
                forall|i: int| 0 <= i < cv.len() ==> cv[i] == stmt.columns@[i].name@,
                self.facts() == s0 + names_facts(stmt.table@, cv.subrange(0, k as int)),
            decreases stmt.columns.len() - k,
        {
            self.add_column(stmt.table.as_str(), stmt.columns[k].name.as_str());
            assert(cv.subrange(0, k + 1).subrange(0, k as int) =~= cv.subrange(0, k as int));
            assert(self.facts() =~= s0 + names_facts(stmt.table@, cv.subrange(0, k + 1)));
            k = k + 1;
        }
        assert(cv.subrange(0, stmt.columns.len() as int) =~= cv);
        assert(self.facts() =~= s0 + facts_stmt(SpecStatement::CreateTable(create_v(stmt))));
    }

    /// Visits any statement.
    pub fn visit_statement(&mut self, stmt: &SQLStatement)
        ensures
            final(self).facts() == old(self).facts() + facts_stmt(stmt@),
        decreases stmt, 3int,
    {
        proof {
            reveal(expr_v);
            reveal(opt_expr_v);
            reveal(stmt_v);
            reveal(select_v);
            reveal(item_v);
            reveal(table_v);
            reveal(join_v);
            reveal(insert_v);
            reveal(update_v);
            reveal(delete_v);
            reveal(column_v);
            reveal(create_v);
            reveal(facts_expr);
            reveal(facts_exprs);
            reveal(facts_whens);
            reveal(facts_orders);
            reveal(facts_stmt);
            reveal(facts_sets);
            reveal(facts_select);
            reveal(facts_ctes);
            reveal(facts_joins);
            reveal(facts_items);
            reveal(facts_table);
        }
        let ghost s0 = self.facts();
        match stmt {
            SQLStatement::Select(s) => self.visit_select(s),
            SQLStatement::Insert(s) => self.visit_insert(s),
            SQLStatement::Update(s) => self.visit_update(s),
            SQLStatement::Delete(s) => self.visit_delete(s),
            SQLStatement::CreateTable(s) => self.visit_create(s),
            SQLStatement::DropObject(s) => self.add_table(s.name.as_str()),
        }
        assert(self.facts() =~= s0 + facts_stmt(stmt@));
    }
}

} // verus!
