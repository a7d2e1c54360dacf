//! The syntax tree of parsed SQL, and its mathematical value.
use vstd::prelude::*;

verus! {

/// Binary operators of expressions.
#[derive(Debug, Clone, Copy, PartialEq, Eq, Structural)]
pub enum BinaryOpType {
    Eq,
    Neq,
    Lt,
    Gt,
    Leq,
    Geq,
    And,
    Or,
    Plus,
    Minus,
    Mul,
    Div,
    Mod,
    Concat,
    Like,
    Regex,
}

/// Unary operators of expressions.
#[derive(Debug, Clone, Copy, PartialEq, Eq, Structural)]
pub enum UnaryOpType {
    Not,
    Neg,
    Plus,
}

/// The kinds of join.
#[derive(Debug, Clone, Copy, PartialEq, Eq, Structural)]
pub enum JoinType {
    Inner,
    Left,
    Right,
    Full,
    Cross,
}

/// The kinds of object that `DROP` removes.
#[derive(Debug, Clone, Copy, PartialEq, Eq, Structural)]
pub enum DropObjectType {
    Table,
    View,
    Index,
    Database,
}

/// An SQL expression.
#[derive(Debug, PartialEq)]
pub enum SQLExpr {
    /// `table.column` or a single name.
    Identifier(Vec<String>),
    StringLiteral(String),
    NumberLiteral(String),
    Null,
    /// A `?` placeholder.
    Placeholder,
    BinaryOp { left: Box<SQLExpr>, op: BinaryOpType, right: Box<SQLExpr> },
    UnaryOp { op: UnaryOpType, expr: Box<SQLExpr> },
    Function { name: String, args: Vec<SQLExpr>, distinct: bool },
    SubQuery(Box<SQLStatement>),
    InList { expr: Box<SQLExpr>, list: Vec<SQLExpr>, not: bool },
    InSubQuery { expr: Box<SQLExpr>, query: Box<SQLStatement>, not: bool },
    Between { expr: Box<SQLExpr>, low: Box<SQLExpr>, high: Box<SQLExpr>, not: bool },
    Like { expr: Box<SQLExpr>, pattern: Box<SQLExpr>, not: bool },
    IsNull { expr: Box<SQLExpr>, not: bool },
    Exists(Box<SQLStatement>, bool),
    Case { expr: Option<Box<SQLExpr>>, whens: Vec<(SQLExpr, SQLExpr)>, else_expr: Option<Box<SQLExpr>> },
    Nested(Box<SQLExpr>),
    Wildcard,
    Cast { expr: Box<SQLExpr>, data_type: String },
    WindowFunction { function: Box<SQLExpr>, partition_by: Vec<SQLExpr>, order_by: Vec<OrderByExpr> },
    Aggregate { name: String, expr: Box<SQLExpr> },
}

/// An `ORDER BY` item.
#[derive(Debug, PartialEq)]
pub struct OrderByExpr {
    pub expr: SQLExpr,
    pub asc: bool,
}

/// A statement.
#[derive(Debug, PartialEq)]
pub enum SQLStatement {
    Select(Box<SelectStatement>),
    Insert(InsertStatement),
    Update(UpdateStatement),
    Delete(DeleteStatement),
    CreateTable(CreateTableStatement),
    DropObject(DropStatement),
}

/// A common table expression of a `WITH` clause.
#[derive(Debug, PartialEq)]
pub struct CteDef {
    pub name: String,
    pub columns: Vec<String>,
    pub query: Box<SelectStatement>,
}

#[derive(Debug, PartialEq)]
pub struct SelectStatement {
    pub with_cte: Vec<CteDef>,
    pub distinct: bool,
    pub columns: Vec<SelectItem>,
    pub from: Option<TableReference>,
    pub joins: Vec<JoinClause>,
    pub where_clause: Option<SQLExpr>,
    pub group_by: Vec<SQLExpr>,
    pub having: Option<SQLExpr>,
    pub order_by: Vec<OrderByExpr>,
    pub limit: Option<SQLExpr>,
    pub offset: Option<SQLExpr>,
}

#[derive(Debug, PartialEq)]
pub enum SelectItem {
    /// An expression with an optional alias.
    Expr(SQLExpr, Option<String>),
    /// `*` or `table.*`.
    Wildcard(Option<String>),
}

#[derive(Debug, PartialEq)]
pub enum TableReference {
    Table { name: String, alias: Option<String>, schema: Option<String> },
    /// A subquery, which always has an alias.
    SubQuery(Box<SQLStatement>, String),
    Join(Box<JoinClause>),
}

#[derive(Debug, PartialEq)]
pub struct JoinClause {
    pub join_type: JoinType,
    pub table: TableReference,
    pub on: SQLExpr,
}

#[derive(Debug, PartialEq)]
pub struct InsertStatement {
    pub table: String,
    pub columns: Vec<String>,
    pub values: Vec<Vec<SQLExpr>>,
    pub is_replace: bool,
}

#[derive(Debug, PartialEq)]
pub struct UpdateStatement {
    pub table: String,
    pub sets: Vec<(String, SQLExpr)>,
    pub where_clause: Option<SQLExpr>,
}

#[derive(Debug, PartialEq)]
pub struct DeleteStatement {
    pub table: String,
    pub where_clause: Option<SQLExpr>,
}

#[derive(Debug, PartialEq)]
pub struct CreateTableStatement {
    pub if_not_exists: bool,
    pub table: String,
    pub columns: Vec<ColumnDef>,
}

#[derive(Debug, PartialEq)]
pub struct ColumnDef {
    pub name: String,
    pub data_type: String,
    pub nullable: bool,
    pub default_value: Option<SQLExpr>,
    pub is_primary_key: bool,
}

#[derive(Debug, PartialEq)]
pub struct DropStatement {
    pub object_type: DropObjectType,
    pub if_exists: bool,
    pub name: String,
}

// ---------------------------------------------------------------------------
// Mathematical values of the tree: text as character sequences, lists as
// sequences.

pub enum SpecExpr {
    Identifier(Seq<Seq<char>>),
    StringLiteral(Seq<char>),
    NumberLiteral(Seq<char>),
    Null,
    Placeholder,
    BinaryOp { left: Box<SpecExpr>, op: BinaryOpType, right: Box<SpecExpr> },
    UnaryOp { op: UnaryOpType, expr: Box<SpecExpr> },
    Function { name: Seq<char>, args: Seq<SpecExpr>, distinct: bool },
    SubQuery(Box<SpecStatement>),
    InList { expr: Box<SpecExpr>, list: Seq<SpecExpr>, not: bool },
    InSubQuery { expr: Box<SpecExpr>, query: Box<SpecStatement>, not: bool },
    Between { expr: Box<SpecExpr>, low: Box<SpecExpr>, high: Box<SpecExpr>, not: bool },
    Like { expr: Box<SpecExpr>, pattern: Box<SpecExpr>, not: bool },
    IsNull { expr: Box<SpecExpr>, not: bool },
    Exists(Box<SpecStatement>, bool),
    Case { expr: Option<Box<SpecExpr>>, whens: Seq<(SpecExpr, SpecExpr)>, else_expr: Option<Box<SpecExpr>> },
    Nested(Box<SpecExpr>),
    Wildcard,
    Cast { expr: Box<SpecExpr>, data_type: Seq<char> },
    WindowFunction { function: Box<SpecExpr>, partition_by: Seq<SpecExpr>, order_by: Seq<SpecOrderBy> },
    Aggregate { name: Seq<char>, expr: Box<SpecExpr> },
}

pub struct SpecOrderBy {
    pub expr: SpecExpr,
    pub asc: bool,
}

pub enum SpecStatement {
    Select(Box<SpecSelect>),
    Insert(SpecInsert),
    Update(SpecUpdate),
    Delete(SpecDelete),
    CreateTable(SpecCreateTable),
    DropObject(SpecDrop),
}

pub struct SpecCte {
    pub name: Seq<char>,
    pub columns: Seq<Seq<char>>,
    pub query: Box<SpecSelect>,
}

pub struct SpecSelect {
    pub with_cte: Seq<SpecCte>,
    pub distinct: bool,
    pub columns: Seq<SpecSelectItem>,
    pub from: Option<SpecTableRef>,
    pub joins: Seq<SpecJoin>,
    pub where_clause: Option<SpecExpr>,
    pub group_by: Seq<SpecExpr>,
    pub having: Option<SpecExpr>,
    pub order_by: Seq<SpecOrderBy>,
    pub limit: Option<SpecExpr>,
    pub offset: Option<SpecExpr>,
}

pub enum SpecSelectItem {
    Expr(SpecExpr, Option<Seq<char>>),
    Wildcard(Option<Seq<char>>),
}

pub enum SpecTableRef {
    Table { name: Seq<char>, alias: Option<Seq<char>>, schema: Option<Seq<char>> },
    SubQuery(Box<SpecStatement>, Seq<char>),
    Join(Box<SpecJoin>),
}

pub struct SpecJoin {
    pub join_type: JoinType,
    pub table: SpecTableRef,
    pub on: SpecExpr,
}

pub struct SpecInsert {
    pub table: Seq<char>,
    pub columns: Seq<Seq<char>>,
    pub values: Seq<Seq<SpecExpr>>,
    pub is_replace: bool,
}

pub struct SpecUpdate {
    pub table: Seq<char>,
    pub sets: Seq<(Seq<char>, SpecExpr)>,
    pub where_clause: Option<SpecExpr>,
}

pub struct SpecDelete {
    pub table: Seq<char>,
    pub where_clause: Option<SpecExpr>,
}

pub struct SpecCreateTable {
    pub if_not_exists: bool,
    pub table: Seq<char>,
    pub columns: Seq<SpecColumnDef>,
}

pub struct SpecColumnDef {
    pub name: Seq<char>,
    pub data_type: Seq<char>,
    pub nullable: bool,
    pub default_value: Option<SpecExpr>,
    pub is_primary_key: bool,
}

pub struct SpecDrop {
    pub object_type: DropObjectType,
    pub if_exists: bool,
    pub name: Seq<char>,
}

/// The texts of a list of strings.
pub open spec fn texts(v: Seq<String>) -> Seq<Seq<char>> {
    Seq::new(v.len(), |i: int| v[i]@)
}

pub open spec fn opt_text(o: Option<String>) -> Option<Seq<char>> {
    match o {
        Some(s) => Some(s@),
        None => None,
    }
}

#[verifier::opaque]
pub open spec fn expr_v(e: &SQLExpr) -> SpecExpr
    decreases e,
{
    match e {
        SQLExpr::Identifier(parts) => SpecExpr::Identifier(texts(parts@)),
        SQLExpr::StringLiteral(s) => SpecExpr::StringLiteral(s@),
        SQLExpr::NumberLiteral(s) => SpecExpr::NumberLiteral(s@),
        SQLExpr::Null => SpecExpr::Null,
        SQLExpr::Placeholder => SpecExpr::Placeholder,
        SQLExpr::BinaryOp { left, op, right } => SpecExpr::BinaryOp {
            left: Box::new(expr_v(left)),
            op: *op,
            right: Box::new(expr_v(right)),
        },
        SQLExpr::UnaryOp { op, expr } => SpecExpr::UnaryOp { op: *op, expr: Box::new(expr_v(expr)) },
        SQLExpr::Function { name, args, distinct } => SpecExpr::Function {
            name: name@,
            args: Seq::new(args@.len(), |i: int| if 0 <= i < args@.len() { expr_v(&args@[i]) } else { SpecExpr::Null }),
            distinct: *distinct,
        },
        SQLExpr::SubQuery(s) => SpecExpr::SubQuery(Box::new(stmt_v(s))),
        SQLExpr::InList { expr, list, not } => SpecExpr::InList {
            expr: Box::new(expr_v(expr)),
            list: Seq::new(list@.len(), |i: int| if 0 <= i < list@.len() { expr_v(&list@[i]) } else { SpecExpr::Null }),
            not: *not,
        },
        SQLExpr::InSubQuery { expr, query, not } => SpecExpr::InSubQuery {
            expr: Box::new(expr_v(expr)),
            query: Box::new(stmt_v(query)),
            not: *not,
        },
        SQLExpr::Between { expr, low, high, not } => SpecExpr::Between {
            expr: Box::new(expr_v(expr)),
            low: Box::new(expr_v(low)),
            high: Box::new(expr_v(high)),
            not: *not,
        },
        SQLExpr::Like { expr, pattern, not } => SpecExpr::Like {
            expr: Box::new(expr_v(expr)),
            pattern: Box::new(expr_v(pattern)),
            not: *not,
        },
        SQLExpr::IsNull { expr, not } => SpecExpr::IsNull { expr: Box::new(expr_v(expr)), not: *not },
        SQLExpr::Exists(s, not) => SpecExpr::Exists(Box::new(stmt_v(s)), *not),
        SQLExpr::Case { expr, whens, else_expr } => SpecExpr::Case {
            expr: match expr {
                Some(x) => Some(Box::new(expr_v(x))),
                None => None,
            },
            whens: Seq::new(whens@.len(), |i: int| if 0 <= i < whens@.len() {
                (expr_v(&whens@[i].0), expr_v(&whens@[i].1))
            } else {
                (SpecExpr::Null, SpecExpr::Null)
            }),
            else_expr: match else_expr {
                Some(x) => Some(Box::new(expr_v(x))),
                None => None,
            },
        },
        SQLExpr::Nested(x) => SpecExpr::Nested(Box::new(expr_v(x))),
        SQLExpr::Wildcard => SpecExpr::Wildcard,
        SQLExpr::Cast { expr, data_type } => SpecExpr::Cast { expr: Box::new(expr_v(expr)), data_type: data_type@ },
        SQLExpr::WindowFunction { function, partition_by, order_by } => SpecExpr::WindowFunction {
            function: Box::new(expr_v(function)),
            partition_by: Seq::new(partition_by@.len(), |i: int| if 0 <= i < partition_by@.len() {
                expr_v(&partition_by@[i])
            } else {
                SpecExpr::Null
            }),
            order_by: Seq::new(order_by@.len(), |i: int| if 0 <= i < order_by@.len() {
                SpecOrderBy { expr: expr_v(&order_by@[i].expr), asc: order_by@[i].asc }
            } else {
                SpecOrderBy { expr: SpecExpr::Null, asc: true }
            }),
        },
        SQLExpr::Aggregate { name, expr } => SpecExpr::Aggregate { name: name@, expr: Box::new(expr_v(expr)) },
    }
}

#[verifier::opaque]
pub open spec fn opt_expr_v(o: &Option<SQLExpr>) -> Option<SpecExpr>
    decreases o,
{
    match o {
        Some(e) => Some(expr_v(e)),
        None => None,
    }
}

#[verifier::opaque]
pub open spec fn stmt_v(s: &SQLStatement) -> SpecStatement
    decreases s,
{
    match s {
        SQLStatement::Select(x) => SpecStatement::Select(Box::new(select_v(x))),
        SQLStatement::Insert(x) => SpecStatement::Insert(insert_v(x)),
        SQLStatement::Update(x) => SpecStatement::Update(update_v(x)),
        SQLStatement::Delete(x) => SpecStatement::Delete(delete_v(x)),
        SQLStatement::CreateTable(x) => SpecStatement::CreateTable(create_v(x)),
        SQLStatement::DropObject(x) => SpecStatement::DropObject(drop_v(x)),
    }
}

#[verifier::opaque]
pub open spec fn insert_v(x: &InsertStatement) -> SpecInsert
    decreases x,
{
    SpecInsert {
        table: x.table@,
        columns: texts(x.columns@),
        values: Seq::new(x.values@.len(), |i: int| if 0 <= i < x.values@.len() {
            Seq::new(x.values@[i]@.len(), |j: int| if 0 <= j < x.values@[i]@.len() {
                expr_v(&x.values@[i]@[j])
            } else {
                SpecExpr::Null
            })
        } else {
            Seq::empty()
        }),
        is_replace: x.is_replace,
    }
}

#[verifier::opaque]
pub open spec fn update_v(x: &UpdateStatement) -> SpecUpdate
    decreases x,
{
    SpecUpdate {
        table: x.table@,
        sets: Seq::new(x.sets@.len(), |i: int| if 0 <= i < x.sets@.len() {
            (x.sets@[i].0@, expr_v(&x.sets@[i].1))
        } else {
            (Seq::empty(), SpecExpr::Null)
        }),
        where_clause: opt_expr_v(&x.where_clause),
    }
}

#[verifier::opaque]
pub open spec fn delete_v(x: &DeleteStatement) -> SpecDelete
    decreases x,
{
    SpecDelete { table: x.table@, where_clause: opt_expr_v(&x.where_clause) }
}

#[verifier::opaque]
pub open spec fn column_v(c: &ColumnDef) -> SpecColumnDef
    decreases c,
{
    SpecColumnDef {
        name: c.name@,
        data_type: c.data_type@,
        nullable: c.nullable,
        default_value: opt_expr_v(&c.default_value),
        is_primary_key: c.is_primary_key,
    }
}

#[verifier::opaque]
pub open spec fn create_v(x: &CreateTableStatement) -> SpecCreateTable
    decreases x,
{
    SpecCreateTable {
        if_not_exists: x.if_not_exists,
        table: x.table@,
        columns: Seq::new(x.columns@.len(), |i: int| if 0 <= i < x.columns@.len() {
            column_v(&x.columns@[i])
        } else {
            SpecColumnDef {
                name: Seq::empty(),
                data_type: Seq::empty(),
                nullable: true,
                default_value: None,
                is_primary_key: false,
            }
        }),
    }
}

pub open spec fn drop_v(x: &DropStatement) -> SpecDrop {
    SpecDrop { object_type: x.object_type, if_exists: x.if_exists, name: x.name@ }
}

#[verifier::opaque]
pub open spec fn select_v(s: &SelectStatement) -> SpecSelect
    decreases s,
{
    SpecSelect {
        with_cte: Seq::new(s.with_cte@.len(), |i: int| if 0 <= i < s.with_cte@.len() {
            SpecCte {
                name: s.with_cte@[i].name@,
                columns: texts(s.with_cte@[i].columns@),
                query: Box::new(select_v(&s.with_cte@[i].query)),
            }
        } else {
            arbitrary()
        }),
        distinct: s.distinct,
        columns: Seq::new(s.columns@.len(), |i: int| if 0 <= i < s.columns@.len() {
            item_v(&s.columns@[i])
        } else {
            SpecSelectItem::Wildcard(None)
        }),
        from: match &s.from {
            Some(t) => Some(table_v(t)),
            None => None,
        },
        joins: Seq::new(s.joins@.len(), |i: int| if 0 <= i < s.joins@.len() {
            join_v(&s.joins@[i])
        } else {
            SpecJoin { join_type: JoinType::Inner, table: SpecTableRef::Table { name: Seq::empty(), alias: None, schema: None }, on: SpecExpr::Null }
        }),
        where_clause: opt_expr_v(&s.where_clause),
        group_by: Seq::new(s.group_by@.len(), |i: int| if 0 <= i < s.group_by@.len() {
            expr_v(&s.group_by@[i])
        } else {
            SpecExpr::Null
        }),
        having: opt_expr_v(&s.having),
        order_by: Seq::new(s.order_by@.len(), |i: int| if 0 <= i < s.order_by@.len() {
            SpecOrderBy { expr: expr_v(&s.order_by@[i].expr), asc: s.order_by@[i].asc }
        } else {
            SpecOrderBy { expr: SpecExpr::Null, asc: true }
        }),
        limit: opt_expr_v(&s.limit),
        offset: opt_expr_v(&s.offset),
    }
}

#[verifier::opaque]
pub open spec fn item_v(it: &SelectItem) -> SpecSelectItem
    decreases it,
{
    match it {
        SelectItem::Expr(e, a) => SpecSelectItem::Expr(expr_v(e), opt_text(*a)),
        SelectItem::Wildcard(t) => SpecSelectItem::Wildcard(opt_text(*t)),
    }
}

#[verifier::opaque]
pub open spec fn table_v(t: &TableReference) -> SpecTableRef
    decreases t,
{
    match t {
        TableReference::Table { name, alias, schema } => SpecTableRef::Table {
            name: name@,
            alias: opt_text(*alias),
            schema: opt_text(*schema),
        },
        TableReference::SubQuery(s, a) => SpecTableRef::SubQuery(Box::new(stmt_v(s)), a@),
        TableReference::Join(j) => SpecTableRef::Join(Box::new(join_v(j))),
    }
}

#[verifier::opaque]
pub open spec fn join_v(j: &JoinClause) -> SpecJoin
    decreases j,
{
    SpecJoin { join_type: j.join_type, table: table_v(&j.table), on: expr_v(&j.on) }
}


impl View for SQLExpr {
    type V = SpecExpr;

    open spec fn view(&self) -> SpecExpr {
        expr_v(self)
    }
}

impl View for SQLStatement {
    type V = SpecStatement;

    open spec fn view(&self) -> SpecStatement {
        stmt_v(self)
    }
}

impl View for SelectStatement {
    type V = SpecSelect;

    open spec fn view(&self) -> SpecSelect {
        select_v(self)
    }
}

impl View for TableReference {
    type V = SpecTableRef;

    open spec fn view(&self) -> SpecTableRef {
        table_v(self)
    }
}

} // verus!
