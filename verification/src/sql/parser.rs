//! The recursive-descent SQL parser. It reads the token sequence of the
//! lexer and follows the grammar of `grammar.rs` step by step.
use vstd::prelude::*;
use crate::sql::ast::{
    column_v, create_v, delete_v, drop_v, expr_v, insert_v, item_v, join_v, opt_expr_v, select_v, stmt_v, table_v,
    texts, update_v, BinaryOpType, ColumnDef, CreateTableStatement,
    CteDef, DeleteStatement, DropObjectType, DropStatement, InsertStatement, JoinClause, JoinType, OrderByExpr,
    SQLExpr, SQLStatement, SelectItem, SelectStatement, SpecColumnDef, SpecCte, SpecExpr, SpecJoin, SpecOrderBy,
    SpecSelect, SpecSelectItem, SpecStatement, SpecTableRef, TableReference, UnaryOpType, UpdateStatement,
};
use crate::sql::grammar::{
    add_op, adv, at_kw, bin, cmp_op, constraint_start, fwd, g_and, g_and_tail, g_attrs, g_between, g_call, g_case,
    g_cmp_tail, g_columns, g_comparison, g_create_table, g_cte, g_cte_cols, g_cte_list, g_data_type, g_delete,
    g_count, g_drop, g_exists, g_expect, g_expr, g_expr_list, g_name_expr, g_paren, g_from, g_group_by, g_ident, g_ident_list, g_in, g_in_list, g_insert,
    g_is_null, g_join_type, g_joins, g_mul_tail, g_multiplicative, g_add_tail, g_additive, g_not_suffix,
    g_opt_clause, g_or_tail, g_order_by, g_order_items, g_primary, g_range, g_rows, g_script, g_sel_from,
    g_sel_group, g_sel_having, g_sel_joins, g_sel_limit, g_sel_offset, g_sel_order, g_sel_where, g_select,
    g_select_body, g_select_item, g_select_items, g_sets, g_skip_to, g_statement, g_table_ref, g_type_arg,
    g_type_args, g_update, g_whens, join_start, mul_op, select_start, skip_comments, tok, type_base, wf_tokens,
    MAX_SCRIPT_ROUNDS,
};
use crate::sql::lexer::{spec_tokenize, tokenize};
use crate::sql::token::{is_type_keyword, is_type_kw, spell, token_debug, token_text, Kw, SpecToken, Token};
use crate::text::{chars_of, push_chars, push_str, string_of};

verus! {

pub open spec fn exprs_v(s: Seq<SQLExpr>) -> Seq<SpecExpr> {
    Seq::new(s.len(), |i: int| s[i]@)
}

pub open spec fn items_v(s: Seq<SelectItem>) -> Seq<SpecSelectItem> {
    Seq::new(s.len(), |i: int| item_v(&s[i]))
}

pub open spec fn joins_v(s: Seq<JoinClause>) -> Seq<SpecJoin> {
    Seq::new(s.len(), |i: int| join_v(&s[i]))
}

pub open spec fn orders_v(s: Seq<OrderByExpr>) -> Seq<SpecOrderBy> {
    Seq::new(s.len(), |i: int| SpecOrderBy { expr: s[i].expr@, asc: s[i].asc })
}

pub open spec fn whens_v(s: Seq<(SQLExpr, SQLExpr)>) -> Seq<(SpecExpr, SpecExpr)> {
    Seq::new(s.len(), |i: int| (s[i].0@, s[i].1@))
}

pub open spec fn ctes_v(s: Seq<CteDef>) -> Seq<SpecCte> {
    Seq::new(s.len(), |i: int| SpecCte { name: s[i].name@, columns: texts(s[i].columns@), query: Box::new(s[i].query@) })
}

pub open spec fn rows_v(s: Seq<Vec<SQLExpr>>) -> Seq<Seq<SpecExpr>> {
    Seq::new(s.len(), |i: int| exprs_v(s[i]@))
}

pub open spec fn sets_v(s: Seq<(String, SQLExpr)>) -> Seq<(Seq<char>, SpecExpr)> {
    Seq::new(s.len(), |i: int| (s[i].0@, s[i].1@))
}

pub open spec fn columns_v(s: Seq<ColumnDef>) -> Seq<SpecColumnDef> {
    Seq::new(s.len(), |i: int| column_v(&s[i]))
}

/// The tokens of a parser, taken by their values.
pub open spec fn token_values(v: Seq<Token>) -> Seq<SpecToken> {
    v.map_values(|t: Token| t@)
}

/// The core SQL parser, not specific to a dialect.
pub struct Parser {
    tokens: Vec<Token>,
    idx: usize,
}

impl Parser {
    /// The token sequence being parsed.
    pub closed spec fn toks(&self) -> Seq<SpecToken> {
        token_values(self.tokens@)
    }

    /// The position of the current token.
    pub closed spec fn pos(&self) -> int {
        self.idx as int
    }

    pub closed spec fn wf(&self) -> bool {
        &&& wf_tokens(self.toks())
        &&& self.idx < self.tokens@.len()
    }

    /// A parser at the first token of `sql`.
    pub fn new(sql: &str) -> (r: Self)
        ensures
            r.wf(),
            r.toks() == spec_tokenize(sql@),
            r.pos() == 0,
    {
        proof {
            reveal(expr_v);
            reveal(opt_expr_v);
            reveal(stmt_v);
            reveal(select_v);
            reveal(item_v);
            reveal(table_v);
            reveal(join_v);
            reveal(insert_v);
            reveal(update_v);
            reveal(delete_v);
            reveal(column_v);
            reveal(create_v);
        }
        let tokens = tokenize(sql);
        proof {
            crate::sql::lexer::lemma_tokenize_wf(sql@);
        }
        Parser { tokens, idx: 0 }
    }

    fn cur(&self) -> (r: &Token)
        requires
            self.wf(),
        ensures
            r@ == tok(self.toks(), self.pos()),
    {
        proof {
            reveal(expr_v);
            reveal(opt_expr_v);
            reveal(stmt_v);
            reveal(select_v);
            reveal(item_v);
            reveal(table_v);
            reveal(join_v);
            reveal(insert_v);
            reveal(update_v);
            reveal(delete_v);
            reveal(column_v);
            reveal(create_v);
        }
        &self.tokens[self.idx]
    }

    fn at(&self, k: Kw) -> (r: bool)
        requires
            self.wf(),
        ensures
            r == at_kw(self.toks(), self.pos(), k),
    {
        proof {
            reveal(expr_v);
            reveal(opt_expr_v);
            reveal(stmt_v);
            reveal(select_v);
            reveal(item_v);
            reveal(table_v);
            reveal(join_v);
            reveal(insert_v);
            reveal(update_v);
            reveal(delete_v);
            reveal(column_v);
            reveal(create_v);
        }
        self.tokens[self.idx].is(k)
    }

    fn advance(&mut self)
        requires
            old(self).wf(),
        ensures
            final(self).wf(),
            final(self).toks() == old(self).toks(),
            final(self).pos() == adv(old(self).toks(), old(self).pos()),
    {
        proof {
            reveal(expr_v);
            reveal(opt_expr_v);
            reveal(stmt_v);
            reveal(select_v);
            reveal(item_v);
            reveal(table_v);
            reveal(join_v);
            reveal(insert_v);
            reveal(update_v);
            reveal(delete_v);
            reveal(column_v);
            reveal(create_v);
        }
        assert(self.toks()[self.idx as int] == self.tokens@[self.idx as int]@);
        let n = self.tokens.len();
        if !self.tokens[self.idx].is(Kw::Eof) {
            assert(self.idx + 1 < n);
            self.idx = self.idx + 1;
        }
    }

    /// A message naming what was expected and the token found instead.
    fn unexpected(&self, what: &str) -> String
        requires
            self.wf(),
    {
        proof {
            reveal(expr_v);
            reveal(opt_expr_v);
            reveal(stmt_v);
            reveal(select_v);
            reveal(item_v);
            reveal(table_v);
            reveal(join_v);
            reveal(insert_v);
            reveal(update_v);
            reveal(delete_v);
            reveal(column_v);
            reveal(create_v);
        }
        let mut m: Vec<char> = Vec::new();
        push_str(&mut m, "expected ");
        push_str(&mut m, what);
        push_str(&mut m, ", got ");
        let t = token_debug(self.cur());
        push_chars(&mut m, &t);
        string_of(&m)
    }

    fn expect(&mut self, k: Kw) -> (r: Result<(), String>)
        requires
            old(self).wf(),
        ensures
            final(self).wf(),
            final(self).toks() == old(self).toks(),
            final(self).pos() >= old(self).pos(),
            match g_expect(old(self).toks(), old(self).pos(), k) {
                Ok(e) => r is Ok && final(self).pos() == e,
                Err(()) => r is Err,
            },
    {
        proof {
            reveal(expr_v);
            reveal(opt_expr_v);
            reveal(stmt_v);
            reveal(select_v);
            reveal(item_v);
            reveal(table_v);
            reveal(join_v);
            reveal(insert_v);
            reveal(update_v);
            reveal(delete_v);
            reveal(column_v);
            reveal(create_v);
        }
        if self.at(k) {
            self.advance();
            Ok(())
        } else {
            Err(self.unexpected(crate::sql::token::kw_debug(k)))
        }
    }

    fn skip_comments(&mut self)
        requires
            old(self).wf(),
        ensures
            final(self).wf(),
            final(self).toks() == old(self).toks(),
            final(self).pos() == skip_comments(old(self).toks(), old(self).pos()),
            final(self).pos() >= old(self).pos(),
            skip_comments(final(self).toks(), final(self).pos()) == final(self).pos(),
    {
        proof {
            reveal(expr_v);
            reveal(opt_expr_v);
            reveal(stmt_v);
            reveal(select_v);
            reveal(item_v);
            reveal(table_v);
            reveal(join_v);
            reveal(insert_v);
            reveal(update_v);
            reveal(delete_v);
            reveal(column_v);
            reveal(create_v);
        }
        loop
            invariant
                self.wf(),
                self.toks() == old(self).toks(),
                skip_comments(self.toks(), self.pos()) == skip_comments(old(self).toks(), old(self).pos()),
                self.pos() >= old(self).pos(),
            ensures
                skip_comments(self.toks(), self.pos()) == self.pos(),
            decreases self.tokens@.len() - self.idx,
        {
            proof {
                reveal(expr_v);
                reveal(opt_expr_v);
                reveal(stmt_v);
                reveal(select_v);
                reveal(item_v);
                reveal(table_v);
                reveal(join_v);
                reveal(insert_v);
                reveal(update_v);
                reveal(delete_v);
                reveal(column_v);
                reveal(create_v);
            }
            assert(self.toks()[self.idx as int] == self.tokens@[self.idx as int]@);
            let c = match self.cur() {
                Token::Comment(_) => true,
                Token::BlockComment(_) => true,
                _ => false,
            };
            if !c {
                break;
            }
            self.advance();
        }
    }

    fn parse_ident(&mut self) -> (r: Result<String, String>)
        requires
            old(self).wf(),
        ensures
            final(self).wf(),
            final(self).toks() == old(self).toks(),
            final(self).pos() >= old(self).pos(),
            match g_ident(old(self).toks(), old(self).pos()) {
                Ok((v, e)) => r matches Ok(s) && s@ == v && final(self).pos() == e,
                Err(()) => r is Err,
            },
    {
        proof {
            reveal(expr_v);
            reveal(opt_expr_v);
            reveal(stmt_v);
            reveal(select_v);
            reveal(item_v);
            reveal(table_v);
            reveal(join_v);
            reveal(insert_v);
            reveal(update_v);
            reveal(delete_v);
            reveal(column_v);
            reveal(create_v);
        }
        let s = match self.cur() {
            Token::Ident(s) => s.clone(),
            Token::QuotedIdent(s) => s.clone(),
            _ => {
                return Err(self.unexpected("identifier"));
            },
        };
        self.advance();
        Ok(s)
    }

    fn parse_ident_list(&mut self) -> (r: Result<Vec<String>, String>)
        requires
            old(self).wf(),
        ensures
            final(self).wf(),
            final(self).toks() == old(self).toks(),
            final(self).pos() >= old(self).pos(),
            match g_ident_list(old(self).toks(), old(self).pos()) {
                Ok((v, e)) => r matches Ok(s) && texts(s@) == v && final(self).pos() == e,
                Err(()) => r is Err,
            },
    {
        proof {
            reveal(expr_v);
            reveal(opt_expr_v);
            reveal(stmt_v);
            reveal(select_v);
            reveal(item_v);
            reveal(table_v);
            reveal(join_v);
            reveal(insert_v);
            reveal(update_v);
            reveal(delete_v);
            reveal(column_v);
            reveal(create_v);
        }
        let ghost ts = self.toks();
        let ghost start = self.pos();
        let mut out: Vec<String> = Vec::new();
        loop
            invariant
                self.wf(),
                self.toks() == ts,
                ts == old(self).toks(),
                start == old(self).pos(),
                self.pos() >= start,
                match g_ident_list(ts, start) {
                    Ok((v, e)) => match g_ident_list(ts, self.pos()) {
                        Ok((w, e2)) => v == texts(out@) + w && e == e2,
                        Err(()) => false,
                    },
                    Err(()) => g_ident_list(ts, self.pos()) is Err,
                },
            decreases self.tokens@.len() - self.idx,
        {
            proof {
                reveal(expr_v);
                reveal(opt_expr_v);
                reveal(stmt_v);
                reveal(select_v);
                reveal(item_v);
                reveal(table_v);
                reveal(join_v);
                reveal(insert_v);
                reveal(update_v);
                reveal(delete_v);
                reveal(column_v);
                reveal(create_v);
            }
            let ghost p = self.pos();
            let n = self.parse_ident()?;
            let ghost old_out = out@;
            out.push(n);
            assert(texts(out@) =~= texts(old_out) + seq![n@]);
            if self.at(Kw::Comma) {
                self.advance();
            } else {
                return Ok(out);
            }
        }
    }

    fn parse_or_expr(&mut self) -> (r: Result<SQLExpr, String>)
        requires
            old(self).wf(),
        ensures
            final(self).wf(),
            final(self).toks() == old(self).toks(),
            final(self).pos() >= old(self).pos(),
            match g_expr(old(self).toks(), old(self).pos()) {
                Ok((v, e)) => r matches Ok(x) && x@ == v && final(self).pos() == e,
                Err(()) => r is Err,
            },
        decreases old(self).tokens@.len() - old(self).idx, 30int,
    {
        proof {
            reveal(expr_v);
            reveal(opt_expr_v);
            reveal(stmt_v);
            reveal(select_v);
            reveal(item_v);
            reveal(table_v);
            reveal(join_v);
            reveal(insert_v);
            reveal(update_v);
            reveal(delete_v);
            reveal(column_v);
            reveal(create_v);
        }
        let ghost ts = self.toks();
        let ghost i0 = self.pos();
        let l = self.parse_and_expr()?;
        self.parse_or_tail(l)
    }
    fn parse_or_tail(&mut self, left: SQLExpr) -> (r: Result<SQLExpr, String>)
        requires
            old(self).wf(),
        ensures
            final(self).wf(),
            final(self).toks() == old(self).toks(),
            final(self).pos() >= old(self).pos(),
            match g_or_tail(old(self).toks(), left@, old(self).pos()) {
                Ok((v, e)) => r matches Ok(x) && x@ == v && final(self).pos() == e,
                Err(()) => r is Err,
            },
        decreases old(self).tokens@.len() - old(self).idx, 29int,
    {
        proof {
            reveal(expr_v);
            reveal(opt_expr_v);
            reveal(stmt_v);
            reveal(select_v);
            reveal(item_v);
            reveal(table_v);
            reveal(join_v);
            reveal(insert_v);
            reveal(update_v);
            reveal(delete_v);
            reveal(column_v);
            reveal(create_v);
        }
        let ghost ts = self.toks();
        let ghost i0 = self.pos();
        let mut cur = left;
        loop
            invariant
                self.wf(),
                self.toks() == ts,
                ts == old(self).toks(),
                i0 == old(self).pos(),
                self.pos() >= i0,
                g_or_tail(ts, left@, i0) == g_or_tail(ts, cur@, self.pos()),
            decreases self.tokens@.len() - self.idx,
        {
            proof {
                reveal(expr_v);
                reveal(opt_expr_v);
                reveal(stmt_v);
                reveal(select_v);
                reveal(item_v);
                reveal(table_v);
                reveal(join_v);
                reveal(insert_v);
                reveal(update_v);
                reveal(delete_v);
                reveal(column_v);
                reveal(create_v);
            }
            if !self.at(Kw::Or) {
                return Ok(cur);
            }
            let op = BinaryOpType::Or;
            self.advance();
            let right = self.parse_and_expr()?;
            cur = SQLExpr::BinaryOp { left: Box::new(cur), op, right: Box::new(right) };
        }
    }
    fn parse_and_expr(&mut self) -> (r: Result<SQLExpr, String>)
        requires
            old(self).wf(),
        ensures
            final(self).wf(),
            final(self).toks() == old(self).toks(),
            final(self).pos() >= old(self).pos(),
            match g_and(old(self).toks(), old(self).pos()) {
                Ok((v, e)) => r matches Ok(x) && x@ == v && final(self).pos() == e,
                Err(()) => r is Err,
            },
        decreases old(self).tokens@.len() - old(self).idx, 28int,
    {
        proof {
            reveal(expr_v);
            reveal(opt_expr_v);
            reveal(stmt_v);
            reveal(select_v);
            reveal(item_v);
            reveal(table_v);
            reveal(join_v);
            reveal(insert_v);
            reveal(update_v);
            reveal(delete_v);
            reveal(column_v);
            reveal(create_v);
        }
        let ghost ts = self.toks();
        let ghost i0 = self.pos();
        let l = self.parse_comparison()?;
        self.parse_and_tail(l)
    }
    fn parse_and_tail(&mut self, left: SQLExpr) -> (r: Result<SQLExpr, String>)
        requires
            old(self).wf(),
        ensures
            final(self).wf(),
            final(self).toks() == old(self).toks(),
            final(self).pos() >= old(self).pos(),
            match g_and_tail(old(self).toks(), left@, old(self).pos()) {
                Ok((v, e)) => r matches Ok(x) && x@ == v && final(self).pos() == e,
                Err(()) => r is Err,
            },
        decreases old(self).tokens@.len() - old(self).idx, 27int,
    {
        proof {
            reveal(expr_v);
            reveal(opt_expr_v);
            reveal(stmt_v);
            reveal(select_v);
            reveal(item_v);
            reveal(table_v);
            reveal(join_v);
            reveal(insert_v);
            reveal(update_v);
            reveal(delete_v);
            reveal(column_v);
            reveal(create_v);
        }
        let ghost ts = self.toks();
        let ghost i0 = self.pos();
        let mut cur = left;
        loop
            invariant
                self.wf(),
                self.toks() == ts,
                ts == old(self).toks(),
                i0 == old(self).pos(),
                self.pos() >= i0,
                g_and_tail(ts, left@, i0) == g_and_tail(ts, cur@, self.pos()),
            decreases self.tokens@.len() - self.idx,
        {
            proof {
                reveal(expr_v);
                reveal(opt_expr_v);
                reveal(stmt_v);
                reveal(select_v);
                reveal(item_v);
                reveal(table_v);
                reveal(join_v);
                reveal(insert_v);
                reveal(update_v);
                reveal(delete_v);
                reveal(column_v);
                reveal(create_v);
            }
            if !self.at(Kw::And) {
                return Ok(cur);
            }
            let op = BinaryOpType::And;
            self.advance();
            let right = self.parse_comparison()?;
            cur = SQLExpr::BinaryOp { left: Box::new(cur), op, right: Box::new(right) };
        }
    }
    fn parse_cmp_tail(&mut self, left: SQLExpr) -> (r: Result<SQLExpr, String>)
        requires
            old(self).wf(),
        ensures
            final(self).wf(),
            final(self).toks() == old(self).toks(),
            final(self).pos() >= old(self).pos(),
            match g_cmp_tail(old(self).toks(), left@, old(self).pos()) {
                Ok((v, e)) => r matches Ok(x) && x@ == v && final(self).pos() == e,
                Err(()) => r is Err,
            },
        decreases old(self).tokens@.len() - old(self).idx, 25int,
    {
        proof {
            reveal(expr_v);
            reveal(opt_expr_v);
            reveal(stmt_v);
            reveal(select_v);
            reveal(item_v);
            reveal(table_v);
            reveal(join_v);
            reveal(insert_v);
            reveal(update_v);
            reveal(delete_v);
            reveal(column_v);
            reveal(create_v);
        }
        let ghost ts = self.toks();
        let ghost i0 = self.pos();
        let mut cur = left;
        loop
            invariant
                self.wf(),
                self.toks() == ts,
                ts == old(self).toks(),
                i0 == old(self).pos(),
                self.pos() >= i0,
                g_cmp_tail(ts, left@, i0) == g_cmp_tail(ts, cur@, self.pos()),
            decreases self.tokens@.len() - self.idx,
        {
            proof {
                reveal(expr_v);
                reveal(opt_expr_v);
                reveal(stmt_v);
                reveal(select_v);
                reveal(item_v);
                reveal(table_v);
                reveal(join_v);
                reveal(insert_v);
                reveal(update_v);
                reveal(delete_v);
                reveal(column_v);
                reveal(create_v);
            }
            let op = match self.cur_cmp_op() {
                None => {
                    return Ok(cur);
                },
                Some(op) => op,
            };
            self.advance();
            let right = self.parse_additive()?;
            cur = SQLExpr::BinaryOp { left: Box::new(cur), op, right: Box::new(right) };
        }
    }
    fn parse_additive(&mut self) -> (r: Result<SQLExpr, String>)
        requires
            old(self).wf(),
        ensures
            final(self).wf(),
            final(self).toks() == old(self).toks(),
            final(self).pos() >= old(self).pos(),
            match g_additive(old(self).toks(), old(self).pos()) {
                Ok((v, e)) => r matches Ok(x) && x@ == v && final(self).pos() == e,
                Err(()) => r is Err,
            },
        decreases old(self).tokens@.len() - old(self).idx, 23int,
    {
        proof {
            reveal(expr_v);
            reveal(opt_expr_v);
            reveal(stmt_v);
            reveal(select_v);
            reveal(item_v);
            reveal(table_v);
            reveal(join_v);
            reveal(insert_v);
            reveal(update_v);
            reveal(delete_v);
            reveal(column_v);
            reveal(create_v);
        }
        let ghost ts = self.toks();
        let ghost i0 = self.pos();
        let l = self.parse_multiplicative()?;
        self.parse_add_tail(l)
    }
    fn parse_add_tail(&mut self, left: SQLExpr) -> (r: Result<SQLExpr, String>)
        requires
            old(self).wf(),
        ensures
            final(self).wf(),
            final(self).toks() == old(self).toks(),
            final(self).pos() >= old(self).pos(),
            match g_add_tail(old(self).toks(), left@, old(self).pos()) {
                Ok((v, e)) => r matches Ok(x) && x@ == v && final(self).pos() == e,
                Err(()) => r is Err,
            },
        decreases old(self).tokens@.len() - old(self).idx, 22int,
    {
        proof {
            reveal(expr_v);
            reveal(opt_expr_v);
            reveal(stmt_v);
            reveal(select_v);
            reveal(item_v);
            reveal(table_v);
            reveal(join_v);
            reveal(insert_v);
            reveal(update_v);
            reveal(delete_v);
            reveal(column_v);
            reveal(create_v);
        }
        let ghost ts = self.toks();
        let ghost i0 = self.pos();
        let mut cur = left;
        loop
            invariant
                self.wf(),
                self.toks() == ts,
                ts == old(self).toks(),
                i0 == old(self).pos(),
                self.pos() >= i0,
                g_add_tail(ts, left@, i0) == g_add_tail(ts, cur@, self.pos()),
            decreases self.tokens@.len() - self.idx,
        {
            proof {
                reveal(expr_v);
                reveal(opt_expr_v);
                reveal(stmt_v);
                reveal(select_v);
                reveal(item_v);
                reveal(table_v);
                reveal(join_v);
                reveal(insert_v);
                reveal(update_v);
                reveal(delete_v);
                reveal(column_v);
                reveal(create_v);
            }
            let op = match self.cur_add_op() {
                None => {
                    return Ok(cur);
                },
                Some(op) => op,
            };
            self.advance();
            let right = self.parse_multiplicative()?;
            cur = SQLExpr::BinaryOp { left: Box::new(cur), op, right: Box::new(right) };
        }
    }
    fn parse_multiplicative(&mut self) -> (r: Result<SQLExpr, String>)
        requires
            old(self).wf(),
        ensures
            final(self).wf(),
            final(self).toks() == old(self).toks(),
            final(self).pos() >= old(self).pos(),
            match g_multiplicative(old(self).toks(), old(self).pos()) {
                Ok((v, e)) => r matches Ok(x) && x@ == v && final(self).pos() == e,
                Err(()) => r is Err,
            },
        decreases old(self).tokens@.len() - old(self).idx, 21int,
    {
        proof {
            reveal(expr_v);
            reveal(opt_expr_v);
            reveal(stmt_v);
            reveal(select_v);
            reveal(item_v);
            reveal(table_v);
            reveal(join_v);
            reveal(insert_v);
            reveal(update_v);
            reveal(delete_v);
            reveal(column_v);
            reveal(create_v);
        }
        let ghost ts = self.toks();
        let ghost i0 = self.pos();
        let l = self.parse_primary()?;
        self.parse_mul_tail(l)
    }
    fn parse_mul_tail(&mut self, left: SQLExpr) -> (r: Result<SQLExpr, String>)
        requires
            old(self).wf(),
        ensures
            final(self).wf(),
            final(self).toks() == old(self).toks(),
            final(self).pos() >= old(self).pos(),
            match g_mul_tail(old(self).toks(), left@, old(self).pos()) {
                Ok((v, e)) => r matches Ok(x) && x@ == v && final(self).pos() == e,
                Err(()) => r is Err,
            },
        decreases old(self).tokens@.len() - old(self).idx, 20int,
    {
        proof {
            reveal(expr_v);
            reveal(opt_expr_v);
            reveal(stmt_v);
            reveal(select_v);
            reveal(item_v);
            reveal(table_v);
            reveal(join_v);
            reveal(insert_v);
            reveal(update_v);
            reveal(delete_v);
            reveal(column_v);
            reveal(create_v);
        }
        let ghost ts = self.toks();
        let ghost i0 = self.pos();
        let mut cur = left;
        loop
            invariant
                self.wf(),
                self.toks() == ts,
                ts == old(self).toks(),
                i0 == old(self).pos(),
                self.pos() >= i0,
                g_mul_tail(ts, left@, i0) == g_mul_tail(ts, cur@, self.pos()),
            decreases self.tokens@.len() - self.idx,
        {
            proof {
                reveal(expr_v);
                reveal(opt_expr_v);
                reveal(stmt_v);
                reveal(select_v);
                reveal(item_v);
                reveal(table_v);
                reveal(join_v);
                reveal(insert_v);
                reveal(update_v);
                reveal(delete_v);
                reveal(column_v);
                reveal(create_v);
            }
            let op = match self.cur_mul_op() {
                None => {
                    return Ok(cur);
                },
                Some(op) => op,
            };
            self.advance();
            let right = self.parse_primary()?;
            cur = SQLExpr::BinaryOp { left: Box::new(cur), op, right: Box::new(right) };
        }
    }
    fn cur_cmp_op(&self) -> (r: Option<BinaryOpType>)
        requires
            self.wf(),
        ensures
            r == cmp_op(tok(self.toks(), self.pos())),
    {
        proof {
            reveal(expr_v);
            reveal(opt_expr_v);
            reveal(stmt_v);
            reveal(select_v);
            reveal(item_v);
            reveal(table_v);
            reveal(join_v);
            reveal(insert_v);
            reveal(update_v);
            reveal(delete_v);
            reveal(column_v);
            reveal(create_v);
        }
        match self.cur() {
            Token::Kw(Kw::Eq) => Some(BinaryOpType::Eq),
            Token::Kw(Kw::Neq) => Some(BinaryOpType::Neq),
            Token::Kw(Kw::Lt) => Some(BinaryOpType::Lt),
            Token::Kw(Kw::Gt) => Some(BinaryOpType::Gt),
            Token::Kw(Kw::Leq) => Some(BinaryOpType::Leq),
            Token::Kw(Kw::Geq) => Some(BinaryOpType::Geq),
            Token::Kw(Kw::Like) => Some(BinaryOpType::Like),
            _ => None,
        }
    }
    fn cur_add_op(&self) -> (r: Option<BinaryOpType>)
        requires
            self.wf(),
        ensures
            r == add_op(tok(self.toks(), self.pos())),
    {
        proof {
            reveal(expr_v);
            reveal(opt_expr_v);
            reveal(stmt_v);
            reveal(select_v);
            reveal(item_v);
            reveal(table_v);
            reveal(join_v);
            reveal(insert_v);
            reveal(update_v);
            reveal(delete_v);
            reveal(column_v);
            reveal(create_v);
        }
        match self.cur() {
            Token::Kw(Kw::Plus) => Some(BinaryOpType::Plus),
            Token::Kw(Kw::Minus) => Some(BinaryOpType::Minus),
            Token::Kw(Kw::Concat) => Some(BinaryOpType::Concat),
            _ => None,
        }
    }
    fn cur_mul_op(&self) -> (r: Option<BinaryOpType>)
        requires
            self.wf(),
        ensures
            r == mul_op(tok(self.toks(), self.pos())),
    {
        proof {
            reveal(expr_v);
            reveal(opt_expr_v);
            reveal(stmt_v);
            reveal(select_v);
            reveal(item_v);
            reveal(table_v);
            reveal(join_v);
            reveal(insert_v);
            reveal(update_v);
            reveal(delete_v);
            reveal(column_v);
            reveal(create_v);
        }
        match self.cur() {
            Token::Kw(Kw::Mul) => Some(BinaryOpType::Mul),
            Token::Kw(Kw::Div) => Some(BinaryOpType::Div),
            Token::Kw(Kw::Mod) => Some(BinaryOpType::Mod),
            _ => None,
        }
    }
    #[verifier::spinoff_prover]
    #[verifier::rlimit(100)]
    fn parse_comparison(&mut self) -> (r: Result<SQLExpr, String>)
        requires
            old(self).wf(),
        ensures
            final(self).wf(),
            final(self).toks() == old(self).toks(),
            final(self).pos() >= old(self).pos(),
            match g_comparison(old(self).toks(), old(self).pos()) {
                Ok((v, e)) => r matches Ok(x) && x@ == v && final(self).pos() == e,
                Err(()) => r is Err,
            },
        decreases old(self).tokens@.len() - old(self).idx, 26int,
    {
        proof {
            reveal(expr_v);
            reveal(opt_expr_v);
            reveal(stmt_v);
            reveal(select_v);
            reveal(item_v);
            reveal(table_v);
            reveal(join_v);
            reveal(insert_v);
            reveal(update_v);
            reveal(delete_v);
            reveal(column_v);
            reveal(create_v);
        }
        let ghost ts = self.toks();
        let ghost i0 = self.pos();
        let l = self.parse_additive()?;
        let l = self.parse_cmp_tail(l)?;
        let l = self.parse_is_null(l);
        let l = self.parse_not_suffix(l)?;
        let l = self.parse_between(l)?;
        self.parse_in(l)
    }
    fn parse_is_null(&mut self, left: SQLExpr) -> (r: SQLExpr)
        requires
            old(self).wf(),
        ensures
            final(self).wf(),
            final(self).toks() == old(self).toks(),
            final(self).pos() >= old(self).pos(),
            (r@, final(self).pos()) == g_is_null(old(self).toks(), left@, old(self).pos()),
    {
        proof {
            reveal(expr_v);
            reveal(opt_expr_v);
            reveal(stmt_v);
            reveal(select_v);
            reveal(item_v);
            reveal(table_v);
            reveal(join_v);
            reveal(insert_v);
            reveal(update_v);
            reveal(delete_v);
            reveal(column_v);
            reveal(create_v);
        }
        if !self.at(Kw::Is) {
            return left;
        }
        self.advance();
        let not = self.at(Kw::Not);
        if not {
            self.advance();
        }
        if self.at(Kw::Null) {
            self.advance();
            SQLExpr::IsNull { expr: Box::new(left), not }
        } else {
            left
        }
    }
    fn parse_range(&mut self, left: SQLExpr, not: bool) -> (r: Result<SQLExpr, String>)
        requires
            old(self).wf(),
        ensures
            final(self).wf(),
            final(self).toks() == old(self).toks(),
            final(self).pos() >= old(self).pos(),
            match g_range(old(self).toks(), left@, old(self).pos(), not) {
                Ok((v, e)) => r matches Ok(x) && x@ == v && final(self).pos() == e,
                Err(()) => r is Err,
            },
        decreases old(self).tokens@.len() - old(self).idx, 24int,
    {
        proof {
            reveal(expr_v);
            reveal(opt_expr_v);
            reveal(stmt_v);
            reveal(select_v);
            reveal(item_v);
            reveal(table_v);
            reveal(join_v);
            reveal(insert_v);
            reveal(update_v);
            reveal(delete_v);
            reveal(column_v);
            reveal(create_v);
        }
        let low = self.parse_additive()?;
        self.expect(Kw::And)?;
        let high = self.parse_additive()?;
        Ok(SQLExpr::Between { expr: Box::new(left), low: Box::new(low), high: Box::new(high), not })
    }
    fn parse_in_list(&mut self, left: SQLExpr, not: bool) -> (r: Result<SQLExpr, String>)
        requires
            old(self).wf(),
        ensures
            final(self).wf(),
            final(self).toks() == old(self).toks(),
            final(self).pos() >= old(self).pos(),
            match g_in_list(old(self).toks(), left@, old(self).pos(), not) {
                Ok((v, e)) => r matches Ok(x) && x@ == v && final(self).pos() == e,
                Err(()) => r is Err,
            },
        decreases old(self).tokens@.len() - old(self).idx, 24int,
    {
        proof {
            reveal(expr_v);
            reveal(opt_expr_v);
            reveal(stmt_v);
            reveal(select_v);
            reveal(item_v);
            reveal(table_v);
            reveal(join_v);
            reveal(insert_v);
            reveal(update_v);
            reveal(delete_v);
            reveal(column_v);
            reveal(create_v);
        }
        self.expect(Kw::LParen)?;
        let items = self.parse_expr_list()?;
        self.expect(Kw::RParen)?;
        let r = SQLExpr::InList { expr: Box::new(left), list: items, not };
        assert(r@ matches SpecExpr::InList { list, .. } && list =~= exprs_v(items@));
        Ok(r)
    }
    #[verifier::spinoff_prover]
    #[verifier::rlimit(100)]
    fn parse_not_suffix(&mut self, left: SQLExpr) -> (r: Result<SQLExpr, String>)
        requires
            old(self).wf(),
        ensures
            final(self).wf(),
            final(self).toks() == old(self).toks(),
            final(self).pos() >= old(self).pos(),
            match g_not_suffix(old(self).toks(), left@, old(self).pos()) {
                Ok((v, e)) => r matches Ok(x) && x@ == v && final(self).pos() == e,
                Err(()) => r is Err,
            },
        decreases old(self).tokens@.len() - old(self).idx, 25int,
    {
        proof {
            reveal(expr_v);
            reveal(opt_expr_v);
            reveal(stmt_v);
            reveal(select_v);
            reveal(item_v);
            reveal(table_v);
            reveal(join_v);
            reveal(insert_v);
            reveal(update_v);
            reveal(delete_v);
            reveal(column_v);
            reveal(create_v);
        }
        if !self.at(Kw::Not) {
            return Ok(left);
        }
        self.advance();
        if self.at(Kw::Between) {
            self.advance();
            return self.parse_range(left, true);
        }
        if self.at(Kw::In) {
            self.advance();
            return self.parse_in_list(left, true);
        }
        if self.at(Kw::Like) {
            self.advance();
            let pattern = self.parse_additive()?;
            return Ok(SQLExpr::Like { expr: Box::new(left), pattern: Box::new(pattern), not: true });
        }
        if self.at(Kw::Exists) {
            self.advance();
            return self.parse_exists(true);
        }
        Ok(left)
    }
    fn parse_between(&mut self, left: SQLExpr) -> (r: Result<SQLExpr, String>)
        requires
            old(self).wf(),
        ensures
            final(self).wf(),
            final(self).toks() == old(self).toks(),
            final(self).pos() >= old(self).pos(),
            match g_between(old(self).toks(), left@, old(self).pos(), false) {
                Ok((v, e)) => r matches Ok(x) && x@ == v && final(self).pos() == e,
                Err(()) => r is Err,
            },
        decreases old(self).tokens@.len() - old(self).idx, 25int,
    {
        proof {
            reveal(expr_v);
            reveal(opt_expr_v);
            reveal(stmt_v);
            reveal(select_v);
            reveal(item_v);
            reveal(table_v);
            reveal(join_v);
            reveal(insert_v);
            reveal(update_v);
            reveal(delete_v);
            reveal(column_v);
            reveal(create_v);
        }
        if self.at(Kw::Between) {
            self.advance();
            self.parse_range(left, false)
        } else {
            Ok(left)
        }
    }
    fn parse_in(&mut self, left: SQLExpr) -> (r: Result<SQLExpr, String>)
        requires
            old(self).wf(),
        ensures
            final(self).wf(),
            final(self).toks() == old(self).toks(),
            final(self).pos() >= old(self).pos(),
            match g_in(old(self).toks(), left@, old(self).pos(), false) {
                Ok((v, e)) => r matches Ok(x) && x@ == v && final(self).pos() == e,
                Err(()) => r is Err,
            },
        decreases old(self).tokens@.len() - old(self).idx, 25int,
    {
        proof {
            reveal(expr_v);
            reveal(opt_expr_v);
            reveal(stmt_v);
            reveal(select_v);
            reveal(item_v);
            reveal(table_v);
            reveal(join_v);
            reveal(insert_v);
            reveal(update_v);
            reveal(delete_v);
            reveal(column_v);
            reveal(create_v);
        }
        if self.at(Kw::In) {
            self.advance();
            self.parse_in_list(left, false)
        } else {
            Ok(left)
        }
    }
    fn parse_expr_list(&mut self) -> (r: Result<Vec<SQLExpr>, String>)
        requires
            old(self).wf(),
        ensures
            final(self).wf(),
            final(self).toks() == old(self).toks(),
            final(self).pos() >= old(self).pos(),
            match g_expr_list(old(self).toks(), old(self).pos()) {
                Ok((v, e)) => r matches Ok(x) && exprs_v(x@) == v && final(self).pos() == e,
                Err(()) => r is Err,
            },
        decreases old(self).tokens@.len() - old(self).idx, 31int,
    {
        proof {
            reveal(expr_v);
            reveal(opt_expr_v);
            reveal(stmt_v);
            reveal(select_v);
            reveal(item_v);
            reveal(table_v);
            reveal(join_v);
            reveal(insert_v);
            reveal(update_v);
            reveal(delete_v);
            reveal(column_v);
            reveal(create_v);
        }
        let ghost ts = self.toks();
        let ghost i0 = self.pos();
        let mut out: Vec<SQLExpr> = Vec::new();
        loop
            invariant
                self.wf(),
                self.toks() == ts,
                ts == old(self).toks(),
                i0 == old(self).pos(),
                self.pos() >= i0,
                match g_expr_list(ts, i0) {
                    Ok((v, e)) => match g_expr_list(ts, self.pos()) {
                        Ok((w, e2)) => v == exprs_v(out@) + w && e == e2,
                        Err(()) => false,
                    },
                    Err(()) => g_expr_list(ts, self.pos()) is Err,
                },
            decreases self.tokens@.len() - self.idx,
        {
            proof {
                reveal(expr_v);
                reveal(opt_expr_v);
                reveal(stmt_v);
                reveal(select_v);
                reveal(item_v);
                reveal(table_v);
                reveal(join_v);
                reveal(insert_v);
                reveal(update_v);
                reveal(delete_v);
                reveal(column_v);
                reveal(create_v);
            }
            let e = self.parse_or_expr()?;
            let ghost old_out = out@;
            let ghost ev = e@;
            out.push(e);
            assert(exprs_v(out@) =~= exprs_v(old_out) + seq![ev]);
            if self.at(Kw::Comma) {
                self.advance();
            } else {
                return Ok(out);
            }
        }
    }
    fn parse_call(&mut self, name: String) -> (r: Result<SQLExpr, String>)
        requires
            old(self).wf(),
        ensures
            final(self).wf(),
            final(self).toks() == old(self).toks(),
            final(self).pos() >= old(self).pos(),
            match g_call(old(self).toks(), name@, old(self).pos()) {
                Ok((v, e)) => r matches Ok(x) && x@ == v && final(self).pos() == e,
                Err(()) => r is Err,
            },
        decreases old(self).tokens@.len() - old(self).idx, 32int,
    {
        proof {
            reveal(expr_v);
            reveal(opt_expr_v);
            reveal(stmt_v);
            reveal(select_v);
            reveal(item_v);
            reveal(table_v);
            reveal(join_v);
            reveal(insert_v);
            reveal(update_v);
            reveal(delete_v);
            reveal(column_v);
            reveal(create_v);
        }
        let distinct = self.at(Kw::Distinct);
        if distinct {
            self.advance();
        }
        let args = if self.at(Kw::RParen) {
            let v: Vec<SQLExpr> = Vec::new();
            assert(exprs_v(v@) =~= Seq::<SpecExpr>::empty());
            v
        } else {
            self.parse_expr_list()?
        };
        self.expect(Kw::RParen)?;
        let r = SQLExpr::Function { name, args, distinct };
        assert(r@ matches SpecExpr::Function { args: a, .. } && a =~= exprs_v(args@));
        Ok(r)
    }
    fn parse_whens(&mut self) -> (r: Result<Vec<(SQLExpr, SQLExpr)>, String>)
        requires
            old(self).wf(),
        ensures
            final(self).wf(),
            final(self).toks() == old(self).toks(),
            final(self).pos() >= old(self).pos(),
            match g_whens(old(self).toks(), old(self).pos()) {
                Ok((v, e)) => r matches Ok(x) && whens_v(x@) == v && final(self).pos() == e,
                Err(()) => r is Err,
            },
        decreases old(self).tokens@.len() - old(self).idx, 16int,
    {
        proof {
            reveal(expr_v);
            reveal(opt_expr_v);
            reveal(stmt_v);
            reveal(select_v);
            reveal(item_v);
            reveal(table_v);
            reveal(join_v);
            reveal(insert_v);
            reveal(update_v);
            reveal(delete_v);
            reveal(column_v);
            reveal(create_v);
        }
        let ghost ts = self.toks();
        let ghost i0 = self.pos();
        let mut out: Vec<(SQLExpr, SQLExpr)> = Vec::new();
        loop
            invariant
                self.wf(),
                self.toks() == ts,
                ts == old(self).toks(),
                i0 == old(self).pos(),
                self.pos() >= i0,
                match g_whens(ts, i0) {
                    Ok((v, e)) => match g_whens(ts, self.pos()) {
                        Ok((w, e2)) => v == whens_v(out@) + w && e == e2,
                        Err(()) => false,
                    },
                    Err(()) => g_whens(ts, self.pos()) is Err,
                },
            decreases self.tokens@.len() - self.idx,
        {
            proof {
                reveal(expr_v);
                reveal(opt_expr_v);
                reveal(stmt_v);
                reveal(select_v);
                reveal(item_v);
                reveal(table_v);
                reveal(join_v);
                reveal(insert_v);
                reveal(update_v);
                reveal(delete_v);
                reveal(column_v);
                reveal(create_v);
            }
            if !self.at(Kw::When) {
                assert(whens_v(out@) + Seq::<(SpecExpr, SpecExpr)>::empty() =~= whens_v(out@));
                return Ok(out);
            }
            self.advance();
            let c = self.parse_or_expr()?;
            self.expect(Kw::Then)?;
            let v = self.parse_or_expr()?;
            let ghost old_out = out@;
            let ghost pair = (c@, v@);
            out.push((c, v));
            assert(whens_v(out@) =~= whens_v(old_out) + seq![pair]);
        }
    }
    #[verifier::spinoff_prover]
    #[verifier::rlimit(100)]
    fn parse_case(&mut self) -> (r: Result<SQLExpr, String>)
        requires
            old(self).wf(),
            at_kw(old(self).toks(), old(self).pos(), Kw::Case),
        ensures
            final(self).wf(),
            final(self).toks() == old(self).toks(),
            final(self).pos() >= old(self).pos(),
            match g_case(old(self).toks(), old(self).pos()) {
                Ok((v, e)) => r matches Ok(x) && x@ == v && final(self).pos() == e,
                Err(()) => r is Err,
            },
        decreases old(self).tokens@.len() - old(self).idx, 17int,
    {
        proof {
            reveal(expr_v);
            reveal(opt_expr_v);
            reveal(stmt_v);
            reveal(select_v);
            reveal(item_v);
            reveal(table_v);
            reveal(join_v);
            reveal(insert_v);
            reveal(update_v);
            reveal(delete_v);
            reveal(column_v);
            reveal(create_v);
        }
        let ghost ts = self.toks();
        let ghost i0 = self.pos();
        self.advance();
        let subject = if !self.at(Kw::When) {
            Some(Box::new(self.parse_or_expr()?))
        } else {
            None
        };
        let whens = self.parse_whens()?;
        let else_expr = if self.at(Kw::Else) {
            self.advance();
            Some(Box::new(self.parse_or_expr()?))
        } else {
            None
        };
        self.expect(Kw::End)?;
        let r = SQLExpr::Case { expr: subject, whens, else_expr };
        assert(r@ matches SpecExpr::Case { whens: w, .. } && w =~= whens_v(whens@));
        Ok(r)
    }
    #[verifier::spinoff_prover]
    #[verifier::rlimit(100)]
    fn parse_exists(&mut self, not: bool) -> (r: Result<SQLExpr, String>)
        requires
            old(self).wf(),
        ensures
            final(self).wf(),
            final(self).toks() == old(self).toks(),
            final(self).pos() >= old(self).pos(),
            match g_exists(old(self).toks(), old(self).pos(), not) {
                Ok((v, e)) => r matches Ok(x) && x@ == v && final(self).pos() == e,
                Err(()) => r is Err,
            },
        decreases old(self).tokens@.len() - old(self).idx, 24int,
    {
        proof {
            reveal(expr_v);
            reveal(opt_expr_v);
            reveal(stmt_v);
            reveal(select_v);
            reveal(item_v);
            reveal(table_v);
            reveal(join_v);
            reveal(insert_v);
            reveal(update_v);
            reveal(delete_v);
            reveal(column_v);
            reveal(create_v);
        }
        let ghost ts = self.toks();
        let ghost i0 = self.pos();
        if !self.at(Kw::LParen) {
            return Err(self.unexpected("("));
        }
        self.advance();
        assert(self.pos() == i0 + 1);
        let sub = self.parse_select()?;
        let ghost q2 = self.pos();
        assert(g_select(ts, i0 + 1) == Ok::<(SpecSelect, int), ()>((sub@, q2)));
        self.expect(Kw::RParen)?;
        let ghost e = self.pos();
        assert(g_expect(ts, q2, Kw::RParen) == Ok::<int, ()>(e));
        let ghost sv = sub@;
        let st = SQLStatement::Select(Box::new(sub));
        assert(st@ == SpecStatement::Select(Box::new(sv)));
        let ghost stv = st@;
        let r = SQLExpr::Exists(Box::new(st), not);
        assert(r@ == SpecExpr::Exists(Box::new(stv), not));
        assert(g_exists(ts, i0, not) == Ok::<(SpecExpr, int), ()>((r@, e)));
        Ok(r)
    }

    fn parse_name_expr(&mut self, name: String) -> (r: Result<SQLExpr, String>)
        requires
            old(self).wf(),
        ensures
            final(self).wf(),
            final(self).toks() == old(self).toks(),
            final(self).pos() >= old(self).pos(),
            match g_name_expr(old(self).toks(), name@, old(self).pos()) {
                Ok((v, e)) => r matches Ok(x) && x@ == v && final(self).pos() == e,
                Err(()) => r is Err,
            },
        decreases old(self).tokens@.len() - old(self).idx, 17int,
    {
        proof {
            reveal(expr_v);
            reveal(opt_expr_v);
            reveal(stmt_v);
            reveal(select_v);
            reveal(item_v);
            reveal(table_v);
            reveal(join_v);
            reveal(insert_v);
            reveal(update_v);
            reveal(delete_v);
            reveal(column_v);
            reveal(create_v);
        }
        let ghost ts = self.toks();
        let ghost i0 = self.pos();
        if self.at(Kw::Dot) {
            self.advance();
            let col = self.parse_ident()?;
            let mut v: Vec<String> = Vec::new();
            let ghost nv = name@;
            let ghost cv = col@;
            v.push(name);
            v.push(col);
            assert(texts(v@) =~= seq![nv, cv]);
            Ok(SQLExpr::Identifier(v))
        } else if self.at(Kw::LParen) {
            self.advance();
            self.parse_call(name)
        } else {
            let mut v: Vec<String> = Vec::new();
            let ghost nv = name@;
            v.push(name);
            assert(texts(v@) =~= seq![nv]);
            Ok(SQLExpr::Identifier(v))
        }
    }

    #[verifier::spinoff_prover]
    #[verifier::rlimit(100)]
    fn parse_paren(&mut self) -> (r: Result<SQLExpr, String>)
        requires
            old(self).wf(),
            at_kw(old(self).toks(), old(self).pos(), Kw::LParen),
        ensures
            final(self).wf(),
            final(self).toks() == old(self).toks(),
            final(self).pos() >= old(self).pos(),
            match g_paren(old(self).toks(), old(self).pos()) {
                Ok((v, e)) => r matches Ok(x) && x@ == v && final(self).pos() == e,
                Err(()) => r is Err,
            },
        decreases old(self).tokens@.len() - old(self).idx, 17int,
    {
        proof {
            reveal(expr_v);
            reveal(opt_expr_v);
            reveal(stmt_v);
            reveal(select_v);
            reveal(item_v);
            reveal(table_v);
            reveal(join_v);
            reveal(insert_v);
            reveal(update_v);
            reveal(delete_v);
            reveal(column_v);
            reveal(create_v);
        }
        let ghost ts = self.toks();
        let ghost i0 = self.pos();
        self.advance();
        assert(self.pos() == i0 + 1);
        if self.at(Kw::Select) {
            let sub = self.parse_select()?;
            let ghost q2 = self.pos();
            assert(g_select(ts, i0 + 1) == Ok::<(SpecSelect, int), ()>((sub@, q2)));
            self.expect(Kw::RParen)?;
            let ghost e = self.pos();
            let ghost sv = sub@;
            let st = SQLStatement::Select(Box::new(sub));
            assert(st@ == SpecStatement::Select(Box::new(sv)));
            let ghost stv = st@;
            let r = SQLExpr::SubQuery(Box::new(st));
            assert(r@ == SpecExpr::SubQuery(Box::new(stv)));
            assert(g_paren(ts, i0) == Ok::<(SpecExpr, int), ()>((r@, e)));
            Ok(r)
        } else {
            let x = self.parse_or_expr()?;
            self.expect(Kw::RParen)?;
            Ok(SQLExpr::Nested(Box::new(x)))
        }
    }

    fn parse_count(&mut self) -> (r: Result<SQLExpr, String>)
        requires
            old(self).wf(),
        ensures
            final(self).wf(),
            final(self).toks() == old(self).toks(),
            final(self).pos() >= old(self).pos(),
            match g_count(old(self).toks(), old(self).pos()) {
                Ok((v, e)) => r matches Ok(x) && x@ == v && final(self).pos() == e,
                Err(()) => r is Err,
            },
        decreases old(self).tokens@.len() - old(self).idx, 17int,
    {
        proof {
            reveal(expr_v);
            reveal(opt_expr_v);
            reveal(stmt_v);
            reveal(select_v);
            reveal(item_v);
            reveal(table_v);
            reveal(join_v);
            reveal(insert_v);
            reveal(update_v);
            reveal(delete_v);
            reveal(column_v);
            reveal(create_v);
        }
        let ghost ts = self.toks();
        let ghost i0 = self.pos();
        if !self.at(Kw::LParen) {
            return Err(self.unexpected("("));
        }
        self.advance();
        let ghost q2 = self.pos();
        assert(q2 == i0 + 1);
        let x = if self.at(Kw::Mul) {
            self.advance();
            SQLExpr::Wildcard
        } else {
            self.parse_or_expr()?
        };
        let ghost p = self.pos();
        assert((if at_kw(ts, q2, Kw::Mul) {
            Ok::<(SpecExpr, int), ()>((SpecExpr::Wildcard, adv(ts, q2)))
        } else {
            g_expr(ts, q2)
        }) == Ok::<(SpecExpr, int), ()>((x@, p)));
        self.expect(Kw::RParen)?;
        let name = string_of(&['C', 'O', 'U', 'N', 'T']);
        proof {
            reveal_strlit("COUNT");
        }
        assert(name@ =~= "COUNT"@);
        Ok(SQLExpr::Aggregate { name, expr: Box::new(x) })
    }

    fn parse_primary(&mut self) -> (r: Result<SQLExpr, String>)
        requires
            old(self).wf(),
        ensures
            final(self).wf(),
            final(self).toks() == old(self).toks(),
            final(self).pos() >= old(self).pos(),
            match g_primary(old(self).toks(), old(self).pos()) {
                Ok((v, e)) => r matches Ok(x) && x@ == v && final(self).pos() == e,
                Err(()) => r is Err,
            },
        decreases old(self).tokens@.len() - old(self).idx, 18int,
    {
        proof {
            reveal(expr_v);
            reveal(opt_expr_v);
            reveal(stmt_v);
            reveal(select_v);
            reveal(item_v);
            reveal(table_v);
            reveal(join_v);
            reveal(insert_v);
            reveal(update_v);
            reveal(delete_v);
            reveal(column_v);
            reveal(create_v);
        }
        let ghost ts = self.toks();
        let ghost i0 = self.pos();
        match self.cur() {
            Token::Ident(name) => {
                let name = name.clone();
                self.advance();
                self.parse_name_expr(name)
            },
            Token::Number(n) => {
                let n = n.clone();
                self.advance();
                Ok(SQLExpr::NumberLiteral(n))
            },
            Token::StringLit(s) => {
                let s = s.clone();
                self.advance();
                Ok(SQLExpr::StringLiteral(s))
            },
            Token::Kw(Kw::Null) => {
                self.advance();
                Ok(SQLExpr::Null)
            },
            Token::Kw(Kw::Placeholder) => {
                self.advance();
                Ok(SQLExpr::Placeholder)
            },
            Token::Kw(Kw::Mul) => {
                self.advance();
                Ok(SQLExpr::Wildcard)
            },
            Token::Kw(Kw::LParen) => self.parse_paren(),
            Token::Kw(Kw::Not) => {
                self.advance();
                let x = self.parse_primary()?;
                Ok(SQLExpr::UnaryOp { op: UnaryOpType::Not, expr: Box::new(x) })
            },
            Token::Kw(Kw::Minus) => {
                self.advance();
                let x = self.parse_primary()?;
                Ok(SQLExpr::UnaryOp { op: UnaryOpType::Neg, expr: Box::new(x) })
            },
            Token::Kw(Kw::Case) => self.parse_case(),
            Token::Kw(Kw::Exists) => {
                self.advance();
                self.parse_exists(false)
            },
            Token::Kw(Kw::Count) => {
                self.advance();
                self.parse_count()
            },
            _ => Err(self.unexpected("expression")),
        }
    }

    fn parse_select(&mut self) -> (r: Result<SelectStatement, String>)
        requires
            old(self).wf(),
        ensures
            final(self).wf(),
            final(self).toks() == old(self).toks(),
            final(self).pos() >= old(self).pos(),
            match g_select(old(self).toks(), old(self).pos()) {
                Ok((v, e)) => r matches Ok(x) && x@ == v && final(self).pos() == e,
                Err(()) => r is Err,
            },
        decreases old(self).tokens@.len() - old(self).idx, 60int,
    {
        proof {
            reveal(expr_v);
            reveal(opt_expr_v);
            reveal(stmt_v);
            reveal(select_v);
            reveal(item_v);
            reveal(table_v);
            reveal(join_v);
            reveal(insert_v);
            reveal(update_v);
            reveal(delete_v);
            reveal(column_v);
            reveal(create_v);
        }
        let ghost ts = self.toks();
        let ghost i0 = self.pos();
        if self.at(Kw::With) {
            self.advance();
            if self.at(Kw::Recursive) {
                self.advance();
            }
            let ctes = self.parse_cte_list()?;
            self.parse_select_body(ctes)
        } else {
            let ctes: Vec<CteDef> = Vec::new();
            assert(ctes_v(ctes@) =~= Seq::<SpecCte>::empty());
            self.parse_select_body(ctes)
        }
    }

    fn parse_cte_list(&mut self) -> (r: Result<Vec<CteDef>, String>)
        requires
            old(self).wf(),
        ensures
            final(self).wf(),
            final(self).toks() == old(self).toks(),
            final(self).pos() >= old(self).pos(),
            match g_cte_list(old(self).toks(), old(self).pos()) {
                Ok((v, e)) => r matches Ok(x) && ctes_v(x@) == v && final(self).pos() == e,
                Err(()) => r is Err,
            },
        decreases old(self).tokens@.len() - old(self).idx, 59int,
    {
        proof {
            reveal(expr_v);
            reveal(opt_expr_v);
            reveal(stmt_v);
            reveal(select_v);
            reveal(item_v);
            reveal(table_v);
            reveal(join_v);
            reveal(insert_v);
            reveal(update_v);
            reveal(delete_v);
            reveal(column_v);
            reveal(create_v);
        }
        let ghost ts = self.toks();
        let ghost i0 = self.pos();
        let mut out: Vec<CteDef> = Vec::new();
        loop
            invariant
                self.wf(),
                self.toks() == ts,
                ts == old(self).toks(),
                i0 == old(self).pos(),
                self.pos() >= i0,
                match g_cte_list(ts, i0) {
                    Ok((v, e)) => match g_cte_list(ts, self.pos()) {
                        Ok((w, e2)) => v == ctes_v(out@) + w && e == e2,
                        Err(()) => false,
                    },
                    Err(()) => g_cte_list(ts, self.pos()) is Err,
                },
            decreases self.tokens@.len() - self.idx,
        {
            proof {
                reveal(expr_v);
                reveal(opt_expr_v);
                reveal(stmt_v);
                reveal(select_v);
                reveal(item_v);
                reveal(table_v);
                reveal(join_v);
                reveal(insert_v);
                reveal(update_v);
                reveal(delete_v);
                reveal(column_v);
                reveal(create_v);
            }
            let c = self.parse_cte()?;
            let ghost old_out = out@;
            let ghost cv = SpecCte { name: c.name@, columns: texts(c.columns@), query: Box::new(c.query@) };
            out.push(c);
            assert(ctes_v(out@) =~= ctes_v(old_out) + seq![cv]);
            if self.at(Kw::Comma) {
                self.advance();
            } else {
                return Ok(out);
            }
        }
    }

    fn parse_cte(&mut self) -> (r: Result<CteDef, String>)
        requires
            old(self).wf(),
        ensures
            final(self).wf(),
            final(self).toks() == old(self).toks(),
            final(self).pos() >= old(self).pos(),
            match g_cte(old(self).toks(), old(self).pos()) {
                Ok((v, e)) => r matches Ok(x) && SpecCte { name: x.name@, columns: texts(x.columns@), query: Box::new(x.query@) } == v && final(self).pos() == e,
                Err(()) => r is Err,
            },
        decreases old(self).tokens@.len() - old(self).idx, 58int,
    {
        proof {
            reveal(expr_v);
            reveal(opt_expr_v);
            reveal(stmt_v);
            reveal(select_v);
            reveal(item_v);
            reveal(table_v);
            reveal(join_v);
            reveal(insert_v);
            reveal(update_v);
            reveal(delete_v);
            reveal(column_v);
            reveal(create_v);
        }
        let ghost ts = self.toks();
        let ghost i0 = self.pos();
        let name = self.parse_ident()?;
        let columns = self.parse_cte_cols()?;
        self.expect(Kw::As)?;
        self.expect(Kw::LParen)?;
        let query = self.parse_select()?;
        self.expect(Kw::RParen)?;
        Ok(CteDef { name, columns, query: Box::new(query) })
    }

    fn parse_cte_cols(&mut self) -> (r: Result<Vec<String>, String>)
        requires
            old(self).wf(),
        ensures
            final(self).wf(),
            final(self).toks() == old(self).toks(),
            final(self).pos() >= old(self).pos(),
            match g_cte_cols(old(self).toks(), old(self).pos()) {
                Ok((v, e)) => r matches Ok(x) && texts(x@) == v && final(self).pos() == e,
                Err(()) => r is Err,
            },
    {
        proof {
            reveal(expr_v);
            reveal(opt_expr_v);
            reveal(stmt_v);
            reveal(select_v);
            reveal(item_v);
            reveal(table_v);
            reveal(join_v);
            reveal(insert_v);
            reveal(update_v);
            reveal(delete_v);
            reveal(column_v);
            reveal(create_v);
        }
        let ghost ts = self.toks();
        let ghost i0 = self.pos();
        if self.at(Kw::LParen) {
            self.advance();
            let c = self.parse_ident_list()?;
            self.expect(Kw::RParen)?;
            Ok(c)
        } else {
            let c: Vec<String> = Vec::new();
            assert(texts(c@) =~= Seq::<Seq<char>>::empty());
            Ok(c)
        }
    }

    #[verifier::spinoff_prover]
    #[verifier::rlimit(100)]
    fn parse_select_body(&mut self, ctes: Vec<CteDef>) -> (r: Result<SelectStatement, String>)
        requires
            old(self).wf(),
        ensures
            final(self).wf(),
            final(self).toks() == old(self).toks(),
            final(self).pos() >= old(self).pos(),
            match g_select_body(old(self).toks(), ctes_v(ctes@), old(self).pos()) {
                Ok((v, e)) => r matches Ok(x) && x@ == v && final(self).pos() == e,
                Err(()) => r is Err,
            },
        decreases old(self).tokens@.len() - old(self).idx, 57int,
    {
        proof {
            reveal(expr_v);
            reveal(opt_expr_v);
            reveal(stmt_v);
            reveal(select_v);
            reveal(item_v);
            reveal(table_v);
            reveal(join_v);
            reveal(insert_v);
            reveal(update_v);
            reveal(delete_v);
            reveal(column_v);
            reveal(create_v);
        }
        let ghost ts = self.toks();
        let ghost p = self.pos();
        let ghost cv = ctes_v(ctes@);
        self.advance();
        let distinct = self.at(Kw::Distinct);
        if distinct {
            self.advance();
        }
        let columns = self.parse_select_items()?;
        let ghost s0 = select_start(cv, distinct, items_v(columns@));
        let ghost p1 = self.pos();
        assert(g_select_body(ts, cv, p) == g_sel_from(ts, s0, p1));
        let from = self.parse_from()?;
        let ghost fv = match &from { Some(t) => Some(t@), None => None::<SpecTableRef> };
        let ghost s1 = SpecSelect { from: fv, ..s0 };
        let ghost p2 = self.pos();
        assert(g_sel_from(ts, s0, p1) == g_sel_joins(ts, s1, p2));
        let joins = self.parse_joins()?;
        let ghost s2 = SpecSelect { joins: joins_v(joins@), ..s1 };
        let ghost p3 = self.pos();
        assert(g_sel_joins(ts, s1, p2) == g_sel_where(ts, s2, p3));
        let where_clause = self.parse_opt_clause(Kw::Where)?;
        let ghost s3 = SpecSelect { where_clause: opt_expr_v(&where_clause), ..s2 };
        let ghost p4 = self.pos();
        assert(g_sel_where(ts, s2, p3) == g_sel_group(ts, s3, p4));
        let group_by = self.parse_group_by()?;
        let ghost s4 = SpecSelect { group_by: exprs_v(group_by@), ..s3 };
        let ghost p5 = self.pos();
        assert(g_sel_group(ts, s3, p4) == g_sel_having(ts, s4, p5));
        let having = self.parse_opt_clause(Kw::Having)?;
        let ghost s5 = SpecSelect { having: opt_expr_v(&having), ..s4 };
        let ghost p6 = self.pos();
        assert(g_sel_having(ts, s4, p5) == g_sel_order(ts, s5, p6));
        let order_by = self.parse_order_by()?;
        let ghost s6 = SpecSelect { order_by: orders_v(order_by@), ..s5 };
        let ghost p7 = self.pos();
        assert(g_sel_order(ts, s5, p6) == g_sel_limit(ts, s6, p7));
        let limit = self.parse_opt_clause(Kw::Limit)?;
        let ghost s7 = SpecSelect { limit: opt_expr_v(&limit), ..s6 };
        let ghost p8 = self.pos();
        assert(g_sel_limit(ts, s6, p7) == g_sel_offset(ts, s7, p8));
        let offset = self.parse_opt_clause(Kw::Offset)?;
        let r = SelectStatement {
            with_cte: ctes,
            distinct,
            columns,
            from,
            joins,
            where_clause,
            group_by,
            having,
            order_by,
            limit,
            offset,
        };
        assert(r@.with_cte =~= cv);
        assert(r@.columns =~= items_v(r.columns@));
        assert(r@.joins =~= joins_v(r.joins@));
        assert(r@.group_by =~= exprs_v(r.group_by@));
        assert(r@.order_by =~= orders_v(r.order_by@));
        Ok(r)
    }

    fn parse_select_items(&mut self) -> (r: Result<Vec<SelectItem>, String>)
        requires
            old(self).wf(),
        ensures
            final(self).wf(),
            final(self).toks() == old(self).toks(),
            final(self).pos() >= old(self).pos(),
            match g_select_items(old(self).toks(), old(self).pos()) {
                Ok((v, e)) => r matches Ok(x) && items_v(x@) == v && final(self).pos() == e,
                Err(()) => r is Err,
            },
        decreases old(self).tokens@.len() - old(self).idx, 34int,
    {
        proof {
            reveal(expr_v);
            reveal(opt_expr_v);
            reveal(stmt_v);
            reveal(select_v);
            reveal(item_v);
            reveal(table_v);
            reveal(join_v);
            reveal(insert_v);
            reveal(update_v);
            reveal(delete_v);
            reveal(column_v);
            reveal(create_v);
        }
        let ghost ts = self.toks();
        let ghost i0 = self.pos();
        let mut out: Vec<SelectItem> = Vec::new();
        loop
            invariant
                self.wf(),
                self.toks() == ts,
                ts == old(self).toks(),
                i0 == old(self).pos(),
                self.pos() >= i0,
                match g_select_items(ts, i0) {
                    Ok((v, e)) => match g_select_items(ts, self.pos()) {
                        Ok((w, e2)) => v == items_v(out@) + w && e == e2,
                        Err(()) => false,
                    },
                    Err(()) => g_select_items(ts, self.pos()) is Err,
                },
            decreases self.tokens@.len() - self.idx,
        {
            proof {
                reveal(expr_v);
                reveal(opt_expr_v);
                reveal(stmt_v);
                reveal(select_v);
                reveal(item_v);
                reveal(table_v);
                reveal(join_v);
                reveal(insert_v);
                reveal(update_v);
                reveal(delete_v);
                reveal(column_v);
                reveal(create_v);
            }
            let it = self.parse_select_item()?;
            let ghost old_out = out@;
            let ghost iv = item_v(&it);
            out.push(it);
            assert(items_v(out@) =~= items_v(old_out) + seq![iv]);
            if self.at(Kw::Comma) {
                self.advance();
            } else {
                return Ok(out);
            }
        }
    }

    fn parse_select_item(&mut self) -> (r: Result<SelectItem, String>)
        requires
            old(self).wf(),
        ensures
            final(self).wf(),
            final(self).toks() == old(self).toks(),
            final(self).pos() >= old(self).pos(),
            match g_select_item(old(self).toks(), old(self).pos()) {
                Ok((v, e)) => r matches Ok(x) && item_v(&x) == v && final(self).pos() == e,
                Err(()) => r is Err,
            },
        decreases old(self).tokens@.len() - old(self).idx, 33int,
    {
        proof {
            reveal(expr_v);
            reveal(opt_expr_v);
            reveal(stmt_v);
            reveal(select_v);
            reveal(item_v);
            reveal(table_v);
            reveal(join_v);
            reveal(insert_v);
            reveal(update_v);
            reveal(delete_v);
            reveal(column_v);
            reveal(create_v);
        }
        let ghost ts = self.toks();
        let ghost i0 = self.pos();
        if self.at(Kw::Mul) {
            self.advance();
            return Ok(SelectItem::Wildcard(None));
        }
        let e = self.parse_or_expr()?;
        if self.at(Kw::As) {
            self.advance();
            let a = self.parse_ident()?;
            Ok(SelectItem::Expr(e, Some(a)))
        } else if self.cur().is_ident() {
            let a = self.parse_ident()?;
            Ok(SelectItem::Expr(e, Some(a)))
        } else {
            Ok(SelectItem::Expr(e, None))
        }
    }

    fn parse_from(&mut self) -> (r: Result<Option<TableReference>, String>)
        requires
            old(self).wf(),
        ensures
            final(self).wf(),
            final(self).toks() == old(self).toks(),
            final(self).pos() >= old(self).pos(),
            match g_from(old(self).toks(), old(self).pos()) {
                Ok((v, e)) => r matches Ok(x) && (match x { Some(t) => Some(t@), None => None::<SpecTableRef> }) == v && final(self).pos() == e,
                Err(()) => r is Err,
            },
        decreases old(self).tokens@.len() - old(self).idx, 33int,
    {
        proof {
            reveal(expr_v);
            reveal(opt_expr_v);
            reveal(stmt_v);
            reveal(select_v);
            reveal(item_v);
            reveal(table_v);
            reveal(join_v);
            reveal(insert_v);
            reveal(update_v);
            reveal(delete_v);
            reveal(column_v);
            reveal(create_v);
        }
        let ghost ts = self.toks();
        let ghost i0 = self.pos();
        if self.at(Kw::From) {
            self.advance();
            let t = self.parse_table_ref()?;
            Ok(Some(t))
        } else {
            Ok(None)
        }
    }

    fn parse_table_ref(&mut self) -> (r: Result<TableReference, String>)
        requires
            old(self).wf(),
        ensures
            final(self).wf(),
            final(self).toks() == old(self).toks(),
            final(self).pos() >= old(self).pos(),
            match g_table_ref(old(self).toks(), old(self).pos()) {
                Ok((v, e)) => r matches Ok(x) && x@ == v && final(self).pos() == e,
                Err(()) => r is Err,
            },
        decreases old(self).tokens@.len() - old(self).idx, 32int,
    {
        proof {
            reveal(expr_v);
            reveal(opt_expr_v);
            reveal(stmt_v);
            reveal(select_v);
            reveal(item_v);
            reveal(table_v);
            reveal(join_v);
            reveal(insert_v);
            reveal(update_v);
            reveal(delete_v);
            reveal(column_v);
            reveal(create_v);
        }
        let ghost ts = self.toks();
        let ghost i0 = self.pos();
        if self.at(Kw::LParen) {
            self.advance();
            let sub = self.parse_select()?;
            self.expect(Kw::RParen)?;
            let alias = if self.cur().is_ident() {
                self.parse_ident()?
            } else {
                proof {
                    reveal_strlit("sub");
                }
                let a = string_of(&['s', 'u', 'b']);
                assert(a@ =~= "sub"@);
                a
            };
            return Ok(TableReference::SubQuery(Box::new(SQLStatement::Select(Box::new(sub))), alias));
        }
        let name = self.parse_ident()?;
        if self.at(Kw::Dot) {
            self.advance();
            let name2 = self.parse_ident()?;
            let alias = if self.cur().is_ident() {
                Some(self.parse_ident()?)
            } else {
                None
            };
            Ok(TableReference::Table { name: name2, alias, schema: Some(name) })
        } else if self.cur().is_ident() {
            let a = self.parse_ident()?;
            Ok(TableReference::Table { name, alias: Some(a), schema: None })
        } else if self.at(Kw::As) {
            self.advance();
            let a = self.parse_ident()?;
            Ok(TableReference::Table { name, alias: Some(a), schema: None })
        } else {
            Ok(TableReference::Table { name, alias: None, schema: None })
        }
    }

    fn at_join_start(&self) -> (r: bool)
        requires
            self.wf(),
        ensures
            r == join_start(self.toks(), self.pos()),
    {
        proof {
            reveal(expr_v);
            reveal(opt_expr_v);
            reveal(stmt_v);
            reveal(select_v);
            reveal(item_v);
            reveal(table_v);
            reveal(join_v);
            reveal(insert_v);
            reveal(update_v);
            reveal(delete_v);
            reveal(column_v);
            reveal(create_v);
        }
        self.at(Kw::Join) || self.at(Kw::Inner) || self.at(Kw::Left) || self.at(Kw::Right) || self.at(Kw::Full)
            || self.at(Kw::Cross)
    }

    fn parse_join_type(&mut self) -> (r: JoinType)
        requires
            old(self).wf(),
            join_start(old(self).toks(), old(self).pos()),
        ensures
            final(self).wf(),
            final(self).toks() == old(self).toks(),
            final(self).pos() >= old(self).pos(),
            (r, final(self).pos()) == g_join_type(old(self).toks(), old(self).pos()),
    {
        proof {
            reveal(expr_v);
            reveal(opt_expr_v);
            reveal(stmt_v);
            reveal(select_v);
            reveal(item_v);
            reveal(table_v);
            reveal(join_v);
            reveal(insert_v);
            reveal(update_v);
            reveal(delete_v);
            reveal(column_v);
            reveal(create_v);
        }
        let jt = if self.at(Kw::Inner) {
            JoinType::Inner
        } else if self.at(Kw::Left) {
            JoinType::Left
        } else if self.at(Kw::Right) {
            JoinType::Right
        } else if self.at(Kw::Full) {
            JoinType::Full
        } else if self.at(Kw::Cross) {
            JoinType::Cross
        } else {
            JoinType::Inner
        };
        let outer_ok = self.at(Kw::Left) || self.at(Kw::Right) || self.at(Kw::Full);
        let join_ok = !self.at(Kw::Join);
        self.advance();
        if outer_ok && self.at(Kw::Outer) {
            self.advance();
        }
        if join_ok && self.at(Kw::Join) {
            self.advance();
        }
        jt
    }

    fn parse_joins(&mut self) -> (r: Result<Vec<JoinClause>, String>)
        requires
            old(self).wf(),
        ensures
            final(self).wf(),
            final(self).toks() == old(self).toks(),
            final(self).pos() >= old(self).pos(),
            match g_joins(old(self).toks(), old(self).pos()) {
                Ok((v, e)) => r matches Ok(x) && joins_v(x@) == v && final(self).pos() == e,
                Err(()) => r is Err,
            },
        decreases old(self).tokens@.len() - old(self).idx, 33int,
    {
        proof {
            reveal(expr_v);
            reveal(opt_expr_v);
            reveal(stmt_v);
            reveal(select_v);
            reveal(item_v);
            reveal(table_v);
            reveal(join_v);
            reveal(insert_v);
            reveal(update_v);
            reveal(delete_v);
            reveal(column_v);
            reveal(create_v);
        }
        let ghost ts = self.toks();
        let ghost i0 = self.pos();
        let mut out: Vec<JoinClause> = Vec::new();
        loop
            invariant
                self.wf(),
                self.toks() == ts,
                ts == old(self).toks(),
                i0 == old(self).pos(),
                self.pos() >= i0,
                match g_joins(ts, i0) {
                    Ok((v, e)) => match g_joins(ts, self.pos()) {
                        Ok((w, e2)) => v == joins_v(out@) + w && e == e2,
                        Err(()) => false,
                    },
                    Err(()) => g_joins(ts, self.pos()) is Err,
                },
            decreases self.tokens@.len() - self.idx,
        {
            proof {
                reveal(expr_v);
                reveal(opt_expr_v);
                reveal(stmt_v);
                reveal(select_v);
                reveal(item_v);
                reveal(table_v);
                reveal(join_v);
                reveal(insert_v);
                reveal(update_v);
                reveal(delete_v);
                reveal(column_v);
                reveal(create_v);
            }
            if !self.at_join_start() {
                assert(joins_v(out@) + Seq::<SpecJoin>::empty() =~= joins_v(out@));
                return Ok(out);
            }
            let join_type = self.parse_join_type();
            let table = self.parse_table_ref()?;
            self.expect(Kw::On)?;
            let on = self.parse_or_expr()?;
            let j = JoinClause { join_type, table, on };
            let ghost old_out = out@;
            let ghost jv = join_v(&j);
            out.push(j);
            assert(joins_v(out@) =~= joins_v(old_out) + seq![jv]);
        }
    }

    fn parse_opt_clause(&mut self, k: Kw) -> (r: Result<Option<SQLExpr>, String>)
        requires
            old(self).wf(),
        ensures
            final(self).wf(),
            final(self).toks() == old(self).toks(),
            final(self).pos() >= old(self).pos(),
            match g_opt_clause(old(self).toks(), old(self).pos(), k) {
                Ok((v, e)) => r matches Ok(x) && opt_expr_v(&x) == v && final(self).pos() == e,
                Err(()) => r is Err,
            },
        decreases old(self).tokens@.len() - old(self).idx, 33int,
    {
        proof {
            reveal(expr_v);
            reveal(opt_expr_v);
            reveal(stmt_v);
            reveal(select_v);
            reveal(item_v);
            reveal(table_v);
            reveal(join_v);
            reveal(insert_v);
            reveal(update_v);
            reveal(delete_v);
            reveal(column_v);
            reveal(create_v);
        }
        let ghost ts = self.toks();
        let ghost i0 = self.pos();
        if self.at(k) {
            self.advance();
            let e = self.parse_or_expr()?;
            Ok(Some(e))
        } else {
            Ok(None)
        }
    }

    fn parse_group_by(&mut self) -> (r: Result<Vec<SQLExpr>, String>)
        requires
            old(self).wf(),
        ensures
            final(self).wf(),
            final(self).toks() == old(self).toks(),
            final(self).pos() >= old(self).pos(),
            match g_group_by(old(self).toks(), old(self).pos()) {
                Ok((v, e)) => r matches Ok(x) && exprs_v(x@) == v && final(self).pos() == e,
                Err(()) => r is Err,
            },
        decreases old(self).tokens@.len() - old(self).idx, 33int,
    {
        proof {
            reveal(expr_v);
            reveal(opt_expr_v);
            reveal(stmt_v);
            reveal(select_v);
            reveal(item_v);
            reveal(table_v);
            reveal(join_v);
            reveal(insert_v);
            reveal(update_v);
            reveal(delete_v);
            reveal(column_v);
            reveal(create_v);
        }
        let ghost ts = self.toks();
        let ghost i0 = self.pos();
        if self.at(Kw::Group) {
            self.advance();
            self.expect(Kw::By)?;
            self.parse_expr_list()
        } else {
            let v: Vec<SQLExpr> = Vec::new();
            assert(exprs_v(v@) =~= Seq::<SpecExpr>::empty());
            Ok(v)
        }
    }

    fn parse_order_by(&mut self) -> (r: Result<Vec<OrderByExpr>, String>)
        requires
            old(self).wf(),
        ensures
            final(self).wf(),
            final(self).toks() == old(self).toks(),
            final(self).pos() >= old(self).pos(),
            match g_order_by(old(self).toks(), old(self).pos()) {
                Ok((v, e)) => r matches Ok(x) && orders_v(x@) == v && final(self).pos() == e,
                Err(()) => r is Err,
            },
        decreases old(self).tokens@.len() - old(self).idx, 33int,
    {
        proof {
            reveal(expr_v);
            reveal(opt_expr_v);
            reveal(stmt_v);
            reveal(select_v);
            reveal(item_v);
            reveal(table_v);
            reveal(join_v);
            reveal(insert_v);
            reveal(update_v);
            reveal(delete_v);
            reveal(column_v);
            reveal(create_v);
        }
        let ghost ts = self.toks();
        let ghost i0 = self.pos();
        if self.at(Kw::Order) {
            self.advance();
            self.expect(Kw::By)?;
            self.parse_order_items()
        } else {
            let v: Vec<OrderByExpr> = Vec::new();
            assert(orders_v(v@) =~= Seq::<SpecOrderBy>::empty());
            Ok(v)
        }
    }

    fn parse_order_items(&mut self) -> (r: Result<Vec<OrderByExpr>, String>)
        requires
            old(self).wf(),
        ensures
            final(self).wf(),
            final(self).toks() == old(self).toks(),
            final(self).pos() >= old(self).pos(),
            match g_order_items(old(self).toks(), old(self).pos()) {
                Ok((v, e)) => r matches Ok(x) && orders_v(x@) == v && final(self).pos() == e,
                Err(()) => r is Err,
            },
        decreases old(self).tokens@.len() - old(self).idx, 31int,
    {
        proof {
            reveal(expr_v);
            reveal(opt_expr_v);
            reveal(stmt_v);
            reveal(select_v);
            reveal(item_v);
            reveal(table_v);
            reveal(join_v);
            reveal(insert_v);
            reveal(update_v);
            reveal(delete_v);
            reveal(column_v);
            reveal(create_v);
        }
        let ghost ts = self.toks();
        let ghost i0 = self.pos();
        let mut out: Vec<OrderByExpr> = Vec::new();
        loop
            invariant
                self.wf(),
                self.toks() == ts,
                ts == old(self).toks(),
                i0 == old(self).pos(),
                self.pos() >= i0,
                match g_order_items(ts, i0) {
                    Ok((v, e)) => match g_order_items(ts, self.pos()) {
                        Ok((w, e2)) => v == orders_v(out@) + w && e == e2,
                        Err(()) => false,
                    },
                    Err(()) => g_order_items(ts, self.pos()) is Err,
                },
            decreases self.tokens@.len() - self.idx,
        {
            proof {
                reveal(expr_v);
                reveal(opt_expr_v);
                reveal(stmt_v);
                reveal(select_v);
                reveal(item_v);
                reveal(table_v);
                reveal(join_v);
                reveal(insert_v);
                reveal(update_v);
                reveal(delete_v);
                reveal(column_v);
                reveal(create_v);
            }
            let expr = self.parse_or_expr()?;
            let asc = !self.at(Kw::Desc);
            if self.at(Kw::Asc) || self.at(Kw::Desc) {
                self.advance();
            }
            let item = OrderByExpr { expr, asc };
            let ghost old_out = out@;
            let ghost iv = SpecOrderBy { expr: item.expr@, asc };
            out.push(item);
            assert(orders_v(out@) =~= orders_v(old_out) + seq![iv]);
            if self.at(Kw::Comma) {
                self.advance();
            } else {
                return Ok(out);
            }
        }
    }


    fn parse_rows(&mut self) -> (r: Result<Vec<Vec<SQLExpr>>, String>)
        requires
            old(self).wf(),
        ensures
            final(self).wf(),
            final(self).toks() == old(self).toks(),
            final(self).pos() >= old(self).pos(),
            match g_rows(old(self).toks(), old(self).pos()) {
                Ok((v, e)) => r matches Ok(x) && rows_v(x@) == v && final(self).pos() == e,
                Err(()) => r is Err,
            },
    {
        proof {
            reveal(expr_v);
            reveal(opt_expr_v);
            reveal(stmt_v);
            reveal(select_v);
            reveal(item_v);
            reveal(table_v);
            reveal(join_v);
            reveal(insert_v);
            reveal(update_v);
            reveal(delete_v);
            reveal(column_v);
            reveal(create_v);
        }
        let ghost ts = self.toks();
        let ghost i0 = self.pos();
        let mut out: Vec<Vec<SQLExpr>> = Vec::new();
        loop
            invariant
                self.wf(),
                self.toks() == ts,
                ts == old(self).toks(),
                i0 == old(self).pos(),
                self.pos() >= i0,
                match g_rows(ts, i0) {
                    Ok((v, e)) => match g_rows(ts, self.pos()) {
                        Ok((w, e2)) => v == rows_v(out@) + w && e == e2,
                        Err(()) => false,
                    },
                    Err(()) => g_rows(ts, self.pos()) is Err,
                },
            decreases self.tokens@.len() - self.idx,
        {
            proof {
                reveal(expr_v);
                reveal(opt_expr_v);
                reveal(stmt_v);
                reveal(select_v);
                reveal(item_v);
                reveal(table_v);
                reveal(join_v);
                reveal(insert_v);
                reveal(update_v);
                reveal(delete_v);
                reveal(column_v);
                reveal(create_v);
            }
            self.expect(Kw::LParen)?;
            let row = self.parse_expr_list()?;
            self.expect(Kw::RParen)?;
            let ghost old_out = out@;
            let ghost rv = exprs_v(row@);
            out.push(row);
            assert(rows_v(out@) =~= rows_v(old_out) + seq![rv]);
            if self.at(Kw::Comma) {
                self.advance();
            } else {
                return Ok(out);
            }
        }
    }

    fn parse_insert(&mut self) -> (r: Result<InsertStatement, String>)
        requires
            old(self).wf(),
        ensures
            final(self).wf(),
            final(self).toks() == old(self).toks(),
            final(self).pos() >= old(self).pos(),
            match g_insert(old(self).toks(), old(self).pos()) {
                Ok((v, e)) => r matches Ok(x) && insert_v(&x) == v && final(self).pos() == e,
                Err(()) => r is Err,
            },
    {
        proof {
            reveal(expr_v);
            reveal(opt_expr_v);
            reveal(stmt_v);
            reveal(select_v);
            reveal(item_v);
            reveal(table_v);
            reveal(join_v);
            reveal(insert_v);
            reveal(update_v);
            reveal(delete_v);
            reveal(column_v);
            reveal(create_v);
        }
        let ghost ts = self.toks();
        let ghost i0 = self.pos();
        let is_replace = self.at(Kw::Replace);
        self.advance();
        self.expect(Kw::Into)?;
        let table = self.parse_ident()?;
        let columns = self.parse_cte_cols()?;
        self.expect(Kw::Values)?;
        let values = self.parse_rows()?;
        let r = InsertStatement { table, columns, values, is_replace };
        assert(insert_v(&r).values =~= rows_v(r.values@)) by {
            assert forall|i: int| 0 <= i < r.values@.len() implies insert_v(&r).values[i] =~= exprs_v(
                r.values@[i]@,
            ) by {}
        }
        Ok(r)
    }

    fn parse_sets(&mut self) -> (r: Result<Vec<(String, SQLExpr)>, String>)
        requires
            old(self).wf(),
        ensures
            final(self).wf(),
            final(self).toks() == old(self).toks(),
            final(self).pos() >= old(self).pos(),
            match g_sets(old(self).toks(), old(self).pos()) {
                Ok((v, e)) => r matches Ok(x) && sets_v(x@) == v && final(self).pos() == e,
                Err(()) => r is Err,
            },
    {
        proof {
            reveal(expr_v);
            reveal(opt_expr_v);
            reveal(stmt_v);
            reveal(select_v);
            reveal(item_v);
            reveal(table_v);
            reveal(join_v);
            reveal(insert_v);
            reveal(update_v);
            reveal(delete_v);
            reveal(column_v);
            reveal(create_v);
        }
        let ghost ts = self.toks();
        let ghost i0 = self.pos();
        let mut out: Vec<(String, SQLExpr)> = Vec::new();
        loop
            invariant
                self.wf(),
                self.toks() == ts,
                ts == old(self).toks(),
                i0 == old(self).pos(),
                self.pos() >= i0,
                match g_sets(ts, i0) {
                    Ok((v, e)) => match g_sets(ts, self.pos()) {
                        Ok((w, e2)) => v == sets_v(out@) + w && e == e2,
                        Err(()) => false,
                    },
                    Err(()) => g_sets(ts, self.pos()) is Err,
                },
            decreases self.tokens@.len() - self.idx,
        {
            proof {
                reveal(expr_v);
                reveal(opt_expr_v);
                reveal(stmt_v);
                reveal(select_v);
                reveal(item_v);
                reveal(table_v);
                reveal(join_v);
                reveal(insert_v);
                reveal(update_v);
                reveal(delete_v);
                reveal(column_v);
                reveal(create_v);
            }
            let col = self.parse_ident()?;
            self.expect(Kw::Eq)?;
            let val = self.parse_or_expr()?;
            let ghost old_out = out@;
            let ghost pv = (col@, val@);
            out.push((col, val));
            assert(sets_v(out@) =~= sets_v(old_out) + seq![pv]);
            if self.at(Kw::Comma) {
                self.advance();
            } else {
                return Ok(out);
            }
        }
    }

    fn parse_update(&mut self) -> (r: Result<UpdateStatement, String>)
        requires
            old(self).wf(),
        ensures
            final(self).wf(),
            final(self).toks() == old(self).toks(),
            final(self).pos() >= old(self).pos(),
            match g_update(old(self).toks(), old(self).pos()) {
                Ok((v, e)) => r matches Ok(x) && update_v(&x) == v && final(self).pos() == e,
                Err(()) => r is Err,
            },
    {
        proof {
            reveal(expr_v);
            reveal(opt_expr_v);
            reveal(stmt_v);
            reveal(select_v);
            reveal(item_v);
            reveal(table_v);
            reveal(join_v);
            reveal(insert_v);
            reveal(update_v);
            reveal(delete_v);
            reveal(column_v);
            reveal(create_v);
        }
        let ghost ts = self.toks();
        let ghost i0 = self.pos();
        self.advance();
        let table = self.parse_ident()?;
        self.expect(Kw::SetKw)?;
        let sets = self.parse_sets()?;
        let where_clause = self.parse_opt_clause(Kw::Where)?;
        let r = UpdateStatement { table, sets, where_clause };
        assert(update_v(&r).sets =~= sets_v(r.sets@));
        Ok(r)
    }

    fn parse_delete(&mut self) -> (r: Result<DeleteStatement, String>)
        requires
            old(self).wf(),
        ensures
            final(self).wf(),
            final(self).toks() == old(self).toks(),
            final(self).pos() >= old(self).pos(),
            match g_delete(old(self).toks(), old(self).pos()) {
                Ok((v, e)) => r matches Ok(x) && delete_v(&x) == v && final(self).pos() == e,
                Err(()) => r is Err,
            },
    {
        proof {
            reveal(expr_v);
            reveal(opt_expr_v);
            reveal(stmt_v);
            reveal(select_v);
            reveal(item_v);
            reveal(table_v);
            reveal(join_v);
            reveal(insert_v);
            reveal(update_v);
            reveal(delete_v);
            reveal(column_v);
            reveal(create_v);
        }
        let ghost ts = self.toks();
        let ghost i0 = self.pos();
        self.advance();
        self.expect(Kw::From)?;
        let table = self.parse_ident()?;
        let where_clause = self.parse_opt_clause(Kw::Where)?;
        Ok(DeleteStatement { table, where_clause })
    }

    fn at_constraint_start(&self) -> (r: bool)
        requires
            self.wf(),
        ensures
            r == constraint_start(self.toks(), self.pos()),
    {
        proof {
            reveal(expr_v);
            reveal(opt_expr_v);
            reveal(stmt_v);
            reveal(select_v);
            reveal(item_v);
            reveal(table_v);
            reveal(join_v);
            reveal(insert_v);
            reveal(update_v);
            reveal(delete_v);
            reveal(column_v);
            reveal(create_v);
        }
        self.at(Kw::Primary) || self.at(Kw::Constraint) || self.at(Kw::Foreign) || self.at(Kw::Unique)
            || self.at(Kw::Check) || self.at(Kw::Index)
    }

    fn skip_to_separator(&mut self)
        requires
            old(self).wf(),
        ensures
            final(self).wf(),
            final(self).toks() == old(self).toks(),
            final(self).pos() == g_skip_to(old(self).toks(), old(self).pos()),
            final(self).pos() >= old(self).pos(),
    {
        proof {
            reveal(expr_v);
            reveal(opt_expr_v);
            reveal(stmt_v);
            reveal(select_v);
            reveal(item_v);
            reveal(table_v);
            reveal(join_v);
            reveal(insert_v);
            reveal(update_v);
            reveal(delete_v);
            reveal(column_v);
            reveal(create_v);
        }
        loop
            invariant
                self.wf(),
                self.toks() == old(self).toks(),
                g_skip_to(self.toks(), self.pos()) == g_skip_to(old(self).toks(), old(self).pos()),
                self.pos() >= old(self).pos(),
            ensures
                g_skip_to(self.toks(), self.pos()) == self.pos(),
            decreases self.tokens@.len() - self.idx,
        {
            proof {
                reveal(expr_v);
                reveal(opt_expr_v);
                reveal(stmt_v);
                reveal(select_v);
                reveal(item_v);
                reveal(table_v);
                reveal(join_v);
                reveal(insert_v);
                reveal(update_v);
                reveal(delete_v);
                reveal(column_v);
                reveal(create_v);
            }
            if self.at(Kw::Comma) || self.at(Kw::RParen) || self.at(Kw::Eof) {
                break;
            }
            self.advance();
        }
    }

    fn parse_type_args(&mut self) -> (r: Vec<char>)
        requires
            old(self).wf(),
        ensures
            final(self).wf(),
            final(self).toks() == old(self).toks(),
            (r@, final(self).pos()) == g_type_args(old(self).toks(), old(self).pos()),
            final(self).pos() >= old(self).pos(),
    {
        proof {
            reveal(expr_v);
            reveal(opt_expr_v);
            reveal(stmt_v);
            reveal(select_v);
            reveal(item_v);
            reveal(table_v);
            reveal(join_v);
            reveal(insert_v);
            reveal(update_v);
            reveal(delete_v);
            reveal(column_v);
            reveal(create_v);
        }
        let ghost ts = self.toks();
        let ghost i0 = self.pos();
        let mut acc: Vec<char> = Vec::new();
        loop
            invariant
                self.wf(),
                self.toks() == ts,
                ts == old(self).toks(),
                i0 == old(self).pos(),
                g_type_args(ts, i0) == (acc@ + g_type_args(ts, self.pos()).0, g_type_args(ts, self.pos()).1),
                self.pos() >= i0,
            decreases self.tokens@.len() - self.idx,
        {
            proof {
                reveal(expr_v);
                reveal(opt_expr_v);
                reveal(stmt_v);
                reveal(select_v);
                reveal(item_v);
                reveal(table_v);
                reveal(join_v);
                reveal(insert_v);
                reveal(update_v);
                reveal(delete_v);
                reveal(column_v);
                reveal(create_v);
            }
            let n = match self.cur() {
                Token::Number(n) => n.clone(),
                Token::Ident(n) => n.clone(),
                _ => {
                    assert(acc@ + Seq::<char>::empty() =~= acc@);
                    return acc;
                },
            };
            let ghost p = self.pos();
            let ghost ov = acc@;
            push_str(&mut acc, n.as_str());
            self.advance();
            if self.at(Kw::Comma) {
                push_str(&mut acc, ", ");
                self.advance();
                proof {
                    reveal_strlit(", ");
                }
                assert(ov + (n@ + ", "@ + g_type_args(ts, self.pos()).0) =~= acc@ + g_type_args(ts, self.pos()).0);
            } else {
                return acc;
            }
        }
    }

    fn parse_data_type(&mut self) -> (r: Result<String, String>)
        requires
            old(self).wf(),
        ensures
            final(self).wf(),
            final(self).toks() == old(self).toks(),
            final(self).pos() >= old(self).pos(),
            match g_data_type(old(self).toks(), old(self).pos()) {
                Ok((v, e)) => r matches Ok(x) && x@ == v && final(self).pos() == e,
                Err(()) => r is Err,
            },
    {
        proof {
            reveal(expr_v);
            reveal(opt_expr_v);
            reveal(stmt_v);
            reveal(select_v);
            reveal(item_v);
            reveal(table_v);
            reveal(join_v);
            reveal(insert_v);
            reveal(update_v);
            reveal(delete_v);
            reveal(column_v);
            reveal(create_v);
        }
        let ghost ts = self.toks();
        let ghost i0 = self.pos();
        let mut dt: Vec<char> = match self.cur() {
            Token::Ident(s) => chars_of(s.as_str()),
            Token::QuotedIdent(s) => chars_of(s.as_str()),
            Token::Kw(k) => if is_type_keyword(*k) {
                chars_of(spell(*k))
            } else {
                token_debug(self.cur())
            },
            t => token_debug(t),
        };
        self.advance();
        if self.at(Kw::LParen) {
            self.advance();
            let args = self.parse_type_args();
            self.expect(Kw::RParen)?;
            let ghost b = dt@;
            dt.push('(');
            push_chars(&mut dt, &args);
            dt.push(')');
            proof {
                reveal_strlit("(");
                reveal_strlit(")");
            }
            assert(dt@ =~= b + "("@ + args@ + ")"@);
        }
        Ok(string_of(&dt))
    }

    fn parse_attrs(&mut self) -> (r: Result<(bool, Option<SQLExpr>, bool), String>)
        requires
            old(self).wf(),
        ensures
            final(self).wf(),
            final(self).toks() == old(self).toks(),
            final(self).pos() >= old(self).pos(),
            match g_attrs(old(self).toks(), old(self).pos(), true, None, false) {
                Ok((n, d, k, e)) => r matches Ok(x) && x.0 == n && opt_expr_v(&x.1) == d && x.2 == k
                    && final(self).pos() == e,
                Err(()) => r is Err,
            },
    {
        proof {
            reveal(expr_v);
            reveal(opt_expr_v);
            reveal(stmt_v);
            reveal(select_v);
            reveal(item_v);
            reveal(table_v);
            reveal(join_v);
            reveal(insert_v);
            reveal(update_v);
            reveal(delete_v);
            reveal(column_v);
            reveal(create_v);
        }
        let ghost ts = self.toks();
        let ghost i0 = self.pos();
        let mut nullable = true;
        let mut default_value: Option<SQLExpr> = None;
        let mut pk = false;
        loop
            invariant
                self.wf(),
                self.toks() == ts,
                ts == old(self).toks(),
                i0 == old(self).pos(),
                self.pos() >= i0,
                g_attrs(ts, i0, true, None, false) == g_attrs(ts, self.pos(), nullable, opt_expr_v(&default_value), pk),
            decreases self.tokens@.len() - self.idx,
        {
            proof {
                reveal(expr_v);
                reveal(opt_expr_v);
                reveal(stmt_v);
                reveal(select_v);
                reveal(item_v);
                reveal(table_v);
                reveal(join_v);
                reveal(insert_v);
                reveal(update_v);
                reveal(delete_v);
                reveal(column_v);
                reveal(create_v);
            }
            if self.at(Kw::Not) {
                self.advance();
                if self.at(Kw::Null) {
                    self.advance();
                    nullable = false;
                }
            } else if self.at(Kw::Null) {
                self.advance();
                nullable = true;
            } else if self.at(Kw::Primary) {
                self.advance();
                if self.at(Kw::Key) {
                    self.advance();
                }
                pk = true;
            } else if self.at(Kw::Default) {
                self.advance();
                let e = self.parse_or_expr()?;
                default_value = Some(e);
            } else {
                return Ok((nullable, default_value, pk));
            }
        }
    }

    fn parse_columns(&mut self) -> (r: Result<Vec<ColumnDef>, String>)
        requires
            old(self).wf(),
        ensures
            final(self).wf(),
            final(self).toks() == old(self).toks(),
            final(self).pos() >= old(self).pos(),
            match g_columns(old(self).toks(), old(self).pos()) {
                Ok((v, e)) => r matches Ok(x) && columns_v(x@) == v && final(self).pos() == e,
                Err(()) => r is Err,
            },
    {
        proof {
            reveal(expr_v);
            reveal(opt_expr_v);
            reveal(stmt_v);
            reveal(select_v);
            reveal(item_v);
            reveal(table_v);
            reveal(join_v);
            reveal(insert_v);
            reveal(update_v);
            reveal(delete_v);
            reveal(column_v);
            reveal(create_v);
        }
        let ghost ts = self.toks();
        let ghost i0 = self.pos();
        let mut out: Vec<ColumnDef> = Vec::new();
        loop
            invariant
                self.wf(),
                self.toks() == ts,
                ts == old(self).toks(),
                i0 == old(self).pos(),
                self.pos() >= i0,
                match g_columns(ts, i0) {
                    Ok((v, e)) => match g_columns(ts, self.pos()) {
                        Ok((w, e2)) => v == columns_v(out@) + w && e == e2,
                        Err(()) => false,
                    },
                    Err(()) => g_columns(ts, self.pos()) is Err,
                },
            decreases self.tokens@.len() - self.idx,
        {
            proof {
                reveal(expr_v);
                reveal(opt_expr_v);
                reveal(stmt_v);
                reveal(select_v);
                reveal(item_v);
                reveal(table_v);
                reveal(join_v);
                reveal(insert_v);
                reveal(update_v);
                reveal(delete_v);
                reveal(column_v);
                reveal(create_v);
            }
            if self.at_constraint_start() {
                let ghost p = self.pos();
                self.advance();
                assert(g_skip_to(ts, p) == g_skip_to(ts, p + 1));
                self.skip_to_separator();
                if self.at(Kw::Comma) {
                    self.advance();
                }
                assert(g_columns(ts, p) == g_columns(ts, self.pos()));
            } else {
                let name = self.parse_ident()?;
                let data_type = self.parse_data_type()?;
                let (nullable, default_value, is_primary_key) = self.parse_attrs()?;
                let col = ColumnDef { name, data_type, nullable, default_value, is_primary_key };
                let ghost old_out = out@;
                let ghost cv = column_v(&col);
                out.push(col);
                assert(columns_v(out@) =~= columns_v(old_out) + seq![cv]);
                if self.at(Kw::Comma) {
                    self.advance();
                } else {
                    return Ok(out);
                }
            }
        }
    }

    fn parse_create_table(&mut self) -> (r: Result<CreateTableStatement, String>)
        requires
            old(self).wf(),
        ensures
            final(self).wf(),
            final(self).toks() == old(self).toks(),
            final(self).pos() >= old(self).pos(),
            match g_create_table(old(self).toks(), old(self).pos()) {
                Ok((v, e)) => r matches Ok(x) && create_v(&x) == v && final(self).pos() == e,
                Err(()) => r is Err,
            },
    {
        proof {
            reveal(expr_v);
            reveal(opt_expr_v);
            reveal(stmt_v);
            reveal(select_v);
            reveal(item_v);
            reveal(table_v);
            reveal(join_v);
            reveal(insert_v);
            reveal(update_v);
            reveal(delete_v);
            reveal(column_v);
            reveal(create_v);
        }
        let ghost ts = self.toks();
        let ghost i0 = self.pos();
        self.advance();
        self.expect(Kw::Table)?;
        let if_not_exists = if self.at(Kw::If) {
            self.advance();
            self.expect(Kw::Not)?;
            self.expect(Kw::Exists)?;
            true
        } else {
            false
        };
        let table = self.parse_ident()?;
        self.expect(Kw::LParen)?;
        let columns = self.parse_columns()?;
        self.expect(Kw::RParen)?;
        let r = CreateTableStatement { if_not_exists, table, columns };
        assert(create_v(&r).columns =~= columns_v(r.columns@));
        Ok(r)
    }

    fn parse_drop(&mut self) -> (r: Result<DropStatement, String>)
        requires
            old(self).wf(),
        ensures
            final(self).wf(),
            final(self).toks() == old(self).toks(),
            final(self).pos() >= old(self).pos(),
            match g_drop(old(self).toks(), old(self).pos()) {
                Ok((v, e)) => r matches Ok(x) && drop_v(&x) == v && final(self).pos() == e,
                Err(()) => r is Err,
            },
    {
        proof {
            reveal(g_drop);
            reveal(expr_v);
            reveal(opt_expr_v);
            reveal(stmt_v);
            reveal(select_v);
            reveal(item_v);
            reveal(table_v);
            reveal(join_v);
            reveal(insert_v);
            reveal(update_v);
            reveal(delete_v);
            reveal(column_v);
            reveal(create_v);
        }
        let ghost ts = self.toks();
        let ghost i0 = self.pos();
        self.advance();
        let object_type = if self.at(Kw::Table) {
            self.advance();
            DropObjectType::Table
        } else if self.at(Kw::View) {
            self.advance();
            DropObjectType::View
        } else if self.at(Kw::Index) {
            self.advance();
            DropObjectType::Index
        } else {
            self.advance();
            DropObjectType::Table
        };
        let if_exists = if self.at(Kw::If) {
            self.advance();
            self.expect(Kw::Exists)?;
            true
        } else {
            false
        };
        let name = self.parse_ident()?;
        Ok(DropStatement { object_type, if_exists, name })
    }

    /// Parses one statement, after any comments.
    #[verifier::spinoff_prover]
    #[verifier::rlimit(100)]
    fn parse_statement_tail(&mut self) -> (r: Result<SQLStatement, String>)
        requires
            old(self).wf(),
            skip_comments(old(self).toks(), old(self).pos()) == old(self).pos(),
            !at_kw(old(self).toks(), old(self).pos(), Kw::Select),
            !at_kw(old(self).toks(), old(self).pos(), Kw::With),
            !at_kw(old(self).toks(), old(self).pos(), Kw::Insert),
            !at_kw(old(self).toks(), old(self).pos(), Kw::Replace),
            !at_kw(old(self).toks(), old(self).pos(), Kw::Update),
        ensures
            final(self).wf(),
            final(self).toks() == old(self).toks(),
            final(self).pos() >= old(self).pos(),
            match g_statement(old(self).toks(), old(self).pos()) {
                Ok((v, e)) => r matches Ok(x) && x@ == v && final(self).pos() == e,
                Err(()) => r is Err,
            },
    {
        if self.at(Kw::Delete) {
            let s = self.parse_delete()?;
            proof {
                lemma_stmt_delete(&s);
            }
            Ok(SQLStatement::Delete(s))
        } else if self.at(Kw::Create) {
            let s = self.parse_create_table()?;
            proof {
                lemma_stmt_create(&s);
            }
            Ok(SQLStatement::CreateTable(s))
        } else if self.at(Kw::Drop) {
            let s = self.parse_drop()?;
            proof {
                lemma_stmt_drop(&s);
            }
            Ok(SQLStatement::DropObject(s))
        } else {
            let mut m: Vec<char> = Vec::new();
            push_str(&mut m, "unexpected token: ");
            let t = token_debug(self.cur());
            push_chars(&mut m, &t);
            Err(string_of(&m))
        }
    }

    /// One round of a script: skips comments, then either steps over an
    /// empty statement or reads one statement; then steps over its `;`. The
    /// flag tells whether the end of the text follows.
    fn parse_round(&mut self) -> (r: Result<(Option<SQLStatement>, bool), String>)
        requires
            old(self).wf(),
        ensures
            final(self).wf(),
            final(self).toks() == old(self).toks(),
            ({
                let ts = old(self).toks();
                let q = skip_comments(ts, old(self).pos());
                if at_kw(ts, q, Kw::Eof) || at_kw(ts, q, Kw::Semicolon) {
                    let q2 = if at_kw(ts, q, Kw::Semicolon) { adv(ts, q) } else { q };
                    r matches Ok((None, done)) && final(self).pos() == q2 && done == at_kw(ts, q2, Kw::Eof)
                } else {
                    match g_statement(ts, q) {
                        Err(()) => r is Err,
                        Ok((v, e)) => {
                            let e2 = if at_kw(ts, e, Kw::Semicolon) { adv(ts, e) } else { e };
                            r matches Ok((Some(x), done)) && x@ == v && final(self).pos() == e2 && done == at_kw(
                                ts,
                                e2,
                                Kw::Eof,
                            )
                        },
                    }
                }
            }),
    {
        self.skip_comments();
        if self.at(Kw::Eof) || self.at(Kw::Semicolon) {
            if self.at(Kw::Semicolon) {
                self.advance();
            }
            let done = self.at(Kw::Eof);
            Ok((None, done))
        } else {
            let st = match self.parse_statement() {
                Ok(x) => x,
                Err(m) => {
                    return Err(m);
                },
            };
            if self.at(Kw::Semicolon) {
                self.advance();
            }
            let done = self.at(Kw::Eof);
            Ok((Some(st), done))
        }
    }

    #[verifier::spinoff_prover]
    #[verifier::rlimit(100)]
    pub fn parse_statement(&mut self) -> (r: Result<SQLStatement, String>)
        requires
            old(self).wf(),
        ensures
            final(self).wf(),
            final(self).toks() == old(self).toks(),
            final(self).pos() >= old(self).pos(),
            match g_statement(old(self).toks(), old(self).pos()) {
                Ok((v, e)) => r matches Ok(x) && x@ == v && final(self).pos() == e,
                Err(()) => r is Err,
            },
    {
        let ghost ts = self.toks();
        let ghost i0 = self.pos();
        self.skip_comments();
        if self.at(Kw::Select) || self.at(Kw::With) {
            let s = self.parse_select()?;
            proof {
                lemma_stmt_select(&s);
            }
            Ok(SQLStatement::Select(Box::new(s)))
        } else if self.at(Kw::Insert) || self.at(Kw::Replace) {
            let s = self.parse_insert()?;
            proof {
                lemma_stmt_insert(&s);
            }
            Ok(SQLStatement::Insert(s))
        } else if self.at(Kw::Update) {
            let s = self.parse_update()?;
            proof {
                lemma_stmt_update(&s);
            }
            Ok(SQLStatement::Update(s))
        } else {
            self.parse_statement_tail()
        }
    }

    /// Parses one expression.
    pub fn parse_expr(&mut self) -> (r: Result<SQLExpr, String>)
        requires
            old(self).wf(),
        ensures
            final(self).wf(),
            final(self).toks() == old(self).toks(),
            final(self).pos() >= old(self).pos(),
            match g_expr(old(self).toks(), old(self).pos()) {
                Ok((v, e)) => r matches Ok(x) && x@ == v && final(self).pos() == e,
                Err(()) => r is Err,
            },
    {
        proof {
            reveal(expr_v);
            reveal(opt_expr_v);
            reveal(stmt_v);
            reveal(select_v);
            reveal(item_v);
            reveal(table_v);
            reveal(join_v);
            reveal(insert_v);
            reveal(update_v);
            reveal(delete_v);
            reveal(column_v);
            reveal(create_v);
        }
        let ghost ts = self.toks();
        let ghost i0 = self.pos();
        self.parse_or_expr()
    }
}

proof fn lemma_stmt_select(x: &SelectStatement)
    ensures
        SQLStatement::Select(Box::new(*x))@ == SpecStatement::Select(Box::new(x@)),
{
    reveal(expr_v);
    reveal(opt_expr_v);
    reveal(stmt_v);
    reveal(select_v);
    reveal(item_v);
    reveal(table_v);
    reveal(join_v);
    reveal(insert_v);
    reveal(update_v);
    reveal(delete_v);
    reveal(column_v);
    reveal(create_v);
}

/// Changing only the limit and offset of a `SELECT` changes only those of
/// its view.
proof fn lemma_select_limit(a: &SelectStatement, b: &SelectStatement)
    requires
        b.with_cte == a.with_cte,
        b.distinct == a.distinct,
        b.columns == a.columns,
        b.from == a.from,
        b.joins == a.joins,
        b.where_clause == a.where_clause,
        b.group_by == a.group_by,
        b.having == a.having,
        b.order_by == a.order_by,
    ensures
        select_v(b) == (SpecSelect { limit: opt_expr_v(&b.limit), offset: opt_expr_v(&b.offset), ..select_v(a) }),
{
    reveal(expr_v);
    reveal(opt_expr_v);
    reveal(stmt_v);
    reveal(select_v);
    reveal(item_v);
    reveal(table_v);
    reveal(join_v);
    reveal(insert_v);
    reveal(update_v);
    reveal(delete_v);
    reveal(column_v);
    reveal(create_v);
    assert(select_v(b) =~= (SpecSelect { limit: opt_expr_v(&b.limit), offset: opt_expr_v(&b.offset), ..select_v(a) }));
}

proof fn lemma_stmt_insert(x: &InsertStatement)
    ensures
        SQLStatement::Insert(*x)@ == SpecStatement::Insert(insert_v(x)),
{
    reveal(expr_v);
    reveal(opt_expr_v);
    reveal(stmt_v);
    reveal(select_v);
    reveal(item_v);
    reveal(table_v);
    reveal(join_v);
    reveal(insert_v);
    reveal(update_v);
    reveal(delete_v);
    reveal(column_v);
    reveal(create_v);
}

proof fn lemma_stmt_update(x: &UpdateStatement)
    ensures
        SQLStatement::Update(*x)@ == SpecStatement::Update(update_v(x)),
{
    reveal(expr_v);
    reveal(opt_expr_v);
    reveal(stmt_v);
    reveal(select_v);
    reveal(item_v);
    reveal(table_v);
    reveal(join_v);
    reveal(insert_v);
    reveal(update_v);
    reveal(delete_v);
    reveal(column_v);
    reveal(create_v);
}

proof fn lemma_stmt_delete(x: &DeleteStatement)
    ensures
        SQLStatement::Delete(*x)@ == SpecStatement::Delete(delete_v(x)),
{
    reveal(expr_v);
    reveal(opt_expr_v);
    reveal(stmt_v);
    reveal(select_v);
    reveal(item_v);
    reveal(table_v);
    reveal(join_v);
    reveal(insert_v);
    reveal(update_v);
    reveal(delete_v);
    reveal(column_v);
    reveal(create_v);
}

proof fn lemma_stmt_create(x: &CreateTableStatement)
    ensures
        SQLStatement::CreateTable(*x)@ == SpecStatement::CreateTable(create_v(x)),
{
    reveal(expr_v);
    reveal(opt_expr_v);
    reveal(stmt_v);
    reveal(select_v);
    reveal(item_v);
    reveal(table_v);
    reveal(join_v);
    reveal(insert_v);
    reveal(update_v);
    reveal(delete_v);
    reveal(column_v);
    reveal(create_v);
}

proof fn lemma_stmt_drop(x: &DropStatement)
    ensures
        SQLStatement::DropObject(*x)@ == SpecStatement::DropObject(drop_v(x)),
{
    reveal(expr_v);
    reveal(opt_expr_v);
    reveal(stmt_v);
    reveal(select_v);
    reveal(item_v);
    reveal(table_v);
    reveal(join_v);
    reveal(insert_v);
    reveal(update_v);
    reveal(delete_v);
    reveal(column_v);
    reveal(create_v);
}

/// One round of `g_script` at `p` with `n > 0` rounds left.
proof fn lemma_script_step(ts: Seq<SpecToken>, p: int, n: nat)
    requires
        n > 0,
    ensures
        g_script(ts, p, n) == ({
            let q = skip_comments(ts, p);
            if at_kw(ts, q, Kw::Eof) || at_kw(ts, q, Kw::Semicolon) {
                let q2 = if at_kw(ts, q, Kw::Semicolon) { adv(ts, q) } else { q };
                if at_kw(ts, q2, Kw::Eof) {
                    Ok(Seq::empty())
                } else {
                    g_script(ts, q2, (n - 1) as nat)
                }
            } else {
                match g_statement(ts, q) {
                    Err(()) => Err(()),
                    Ok((st, r)) => {
                        let r2 = if at_kw(ts, r, Kw::Semicolon) { adv(ts, r) } else { r };
                        if at_kw(ts, r2, Kw::Eof) {
                            Ok(seq![st])
                        } else {
                            match g_script(ts, r2, (n - 1) as nat) {
                                Err(()) => Err(()),
                                Ok(rest) => Ok(seq![st] + rest),
                            }
                        }
                    },
                }
            }
        }),
{
    reveal_with_fuel(g_script, 1);
}

/// The statements of a list, taken by their values.
pub open spec fn stmts_v(s: Seq<SQLStatement>) -> Seq<SpecStatement> {
    Seq::new(s.len(), |i: int| s[i]@)
}

/// Parses SQL text into its statements: at most `MAX_SCRIPT_ROUNDS` rounds,
/// each reading one statement or skipping an empty one; what is left after
/// the last round is not read.
#[verifier::spinoff_prover]
#[verifier::rlimit(100)]
pub fn parse_sql(sql: &str) -> (r: Result<Vec<SQLStatement>, String>)
    ensures
        match g_script(spec_tokenize(sql@), 0, MAX_SCRIPT_ROUNDS as nat) {
            Ok(v) => r matches Ok(x) && stmts_v(x@) == v,
            Err(()) => r is Err,
        },
{
    let mut parser = Parser::new(sql);
    let ghost ts = parser.toks();
    let mut stmts: Vec<SQLStatement> = Vec::new();
    let mut i: usize = 0;
    while i < MAX_SCRIPT_ROUNDS
        invariant_except_break
            i <= MAX_SCRIPT_ROUNDS,
            parser.wf(),
            parser.toks() == ts,
            ts == spec_tokenize(sql@),
            match g_script(ts, 0, MAX_SCRIPT_ROUNDS as nat) {
                Ok(v) => match g_script(ts, parser.pos(), (MAX_SCRIPT_ROUNDS - i) as nat) {
                    Ok(w) => v == stmts_v(stmts@) + w,
                    Err(()) => false,
                },
                Err(()) => g_script(ts, parser.pos(), (MAX_SCRIPT_ROUNDS - i) as nat) is Err,
            },
        ensures
            i <= MAX_SCRIPT_ROUNDS,
            i < MAX_SCRIPT_ROUNDS ==> match g_script(spec_tokenize(sql@), 0, MAX_SCRIPT_ROUNDS as nat) {
                Ok(v) => v == stmts_v(stmts@),
                Err(()) => false,
            },
            i >= MAX_SCRIPT_ROUNDS ==> match g_script(spec_tokenize(sql@), 0, MAX_SCRIPT_ROUNDS as nat) {
                Ok(v) => match g_script(spec_tokenize(sql@), parser.pos(), 0) {
                    Ok(w) => v == stmts_v(stmts@) + w,
                    Err(()) => false,
                },
                Err(()) => g_script(spec_tokenize(sql@), parser.pos(), 0) is Err,
            },
        decreases MAX_SCRIPT_ROUNDS - i,
    {
        let ghost p = parser.pos();
        let ghost n = (MAX_SCRIPT_ROUNDS - i) as nat;
        let ghost old_s = stmts@;
        proof {
            lemma_script_step(ts, p, n);
        }
        let (st, done) = match parser.parse_round() {
            Ok(x) => x,
            Err(m) => {
                return Err(m);
            },
        };
        match st {
            Some(x) => {
                let ghost sv = x@;
                stmts.push(x);
                assert(stmts_v(stmts@) =~= stmts_v(old_s) + seq![sv]);
                if done {
                    break;
                }
                i = i + 1;
                assert(stmts_v(old_s) + (seq![sv] + g_script(ts, parser.pos(), (MAX_SCRIPT_ROUNDS - i) as nat)->Ok_0)
                    =~= stmts_v(stmts@) + g_script(ts, parser.pos(), (MAX_SCRIPT_ROUNDS - i) as nat)->Ok_0);
            },
            None => {
                if done {
                    assert(stmts_v(stmts@) + Seq::<SpecStatement>::empty() =~= stmts_v(stmts@));
                    break;
                }
                i = i + 1;
            },
        }
    }
    if i >= MAX_SCRIPT_ROUNDS {
        proof {
            reveal_with_fuel(g_script, 1);
            assert(g_script(spec_tokenize(sql@), parser.pos(), 0) == Ok::<Seq<SpecStatement>, ()>(Seq::empty()));
        }
        assert(stmts_v(stmts@) + Seq::<SpecStatement>::empty() =~= stmts_v(stmts@));
    }
    Ok(stmts)
}

/// A parser of SQL statements and expressions.
pub trait SQLParser {
    /// Whether the parser is in a state its methods accept.
    spec fn ready(&self) -> bool;

    fn parse_statement(&mut self) -> (r: Result<SQLStatement, String>)
        requires
            old(self).ready(),
        ensures
            final(self).ready(),
    ;

    fn parse_select(&mut self) -> (r: Result<SelectStatement, String>)
        requires
            old(self).ready(),
        ensures
            final(self).ready(),
    ;

    fn parse_expr(&mut self) -> (r: Result<SQLExpr, String>)
        requires
            old(self).ready(),
        ensures
            final(self).ready(),
    ;
}

impl SQLParser for Parser {
    open spec fn ready(&self) -> bool {
        self.wf()
    }

    fn parse_statement(&mut self) -> (r: Result<SQLStatement, String>)
        ensures
            final(self).toks() == old(self).toks(),
            match g_statement(old(self).toks(), old(self).pos()) {
                Ok((v, e)) => r matches Ok(x) && x@ == v && final(self).pos() == e,
                Err(()) => r is Err,
            },
    {
        Parser::parse_statement(self)
    }

    fn parse_select(&mut self) -> (r: Result<SelectStatement, String>)
        ensures
            final(self).toks() == old(self).toks(),
            match g_select(old(self).toks(), old(self).pos()) {
                Ok((v, e)) => r matches Ok(x) && x@ == v && final(self).pos() == e,
                Err(()) => r is Err,
            },
    {
        Parser::parse_select(self)
    }

    fn parse_expr(&mut self) -> (r: Result<SQLExpr, String>)
        ensures
            final(self).toks() == old(self).toks(),
            match g_expr(old(self).toks(), old(self).pos()) {
                Ok((v, e)) => r matches Ok(x) && x@ == v && final(self).pos() == e,
                Err(()) => r is Err,
            },
    {
        Parser::parse_expr(self)
    }
}

/// What the MySQL parser reads at `p`: a statement of the core grammar, and
/// for a `SELECT` with a limit and no offset, `, count` after it turns the
/// limit into the offset and `count` into the limit.
pub open spec fn g_mysql_statement(ts: Seq<SpecToken>, p: int) -> Result<(SpecStatement, int), ()> {
    match g_statement(ts, p) {
        Ok((SpecStatement::Select(x), e)) => g_mysql_limit(ts, e, *x),
        other => other,
    }
}

/// A `SELECT` read up to `e`, with MySQL's `, count` after its limit.
pub open spec fn g_mysql_limit(ts: Seq<SpecToken>, e: int, x: SpecSelect) -> Result<(SpecStatement, int), ()> {
    if x.limit is Some && x.offset is None && at_kw(ts, e, Kw::Comma) {
        match g_expr(ts, adv(ts, e)) {
            Ok((b, q)) => Ok((SpecStatement::Select(Box::new(SpecSelect { limit: Some(b), offset: x.limit, ..x })), q)),
            Err(()) => Err(()),
        }
    } else {
        Ok((SpecStatement::Select(Box::new(x)), e))
    }
}

/// The MySQL dialect parser: the core grammar, with MySQL's
/// `LIMIT offset, count`.
pub struct MySQLParser {
    inner: Parser,
}

impl MySQLParser {
    pub closed spec fn wf(&self) -> bool {
        self.inner.wf()
    }

    /// The token sequence being parsed.
    pub closed spec fn toks(&self) -> Seq<SpecToken> {
        self.inner.toks()
    }

    /// The position of the current token.
    pub closed spec fn pos(&self) -> int {
        self.inner.pos()
    }

    pub fn new(sql: &str) -> (r: Self)
        ensures
            r.wf(),
            r.toks() == spec_tokenize(sql@),
            r.pos() == 0,
    {
        proof {
            reveal(expr_v);
            reveal(opt_expr_v);
            reveal(stmt_v);
            reveal(select_v);
            reveal(item_v);
            reveal(table_v);
            reveal(join_v);
            reveal(insert_v);
            reveal(update_v);
            reveal(delete_v);
            reveal(column_v);
            reveal(create_v);
        }
        MySQLParser { inner: Parser::new(sql) }
    }

    /// Parses one statement, as `Parser::parse_statement` does.
    /// Parses one statement as `Parser::parse_statement` does, then reads
    /// MySQL's `LIMIT offset, count`: a comma after the limit of a `SELECT`
    /// makes that limit the offset and the expression after the comma the
    /// limit.
    pub fn parse_statement(&mut self) -> (r: Result<SQLStatement, String>)
        requires
            old(self).wf(),
        ensures
            final(self).wf(),
            final(self).toks() == old(self).toks(),
            final(self).pos() >= old(self).pos(),
            match g_mysql_statement(old(self).toks(), old(self).pos()) {
                Ok((v, e)) => r matches Ok(x) && x@ == v && final(self).pos() == e,
                Err(()) => r is Err,
            },
    {
        proof {
            reveal(expr_v);
            reveal(opt_expr_v);
            reveal(stmt_v);
            reveal(select_v);
            reveal(item_v);
            reveal(table_v);
            reveal(join_v);
            reveal(insert_v);
            reveal(update_v);
            reveal(delete_v);
            reveal(column_v);
            reveal(create_v);
        }
        let r = self.inner.parse_statement();
        match r {
            Ok(SQLStatement::Select(sel)) => {
                proof { lemma_stmt_select(&*sel); }
                self.limit_tail(*sel)
            },
            other => other,
        }
    }

    #[verifier::spinoff_prover]
    #[verifier::rlimit(100)]
    fn limit_tail(&mut self, s0: SelectStatement) -> (r: Result<SQLStatement, String>)
        requires
            old(self).wf(),
        ensures
            final(self).wf(),
            final(self).toks() == old(self).toks(),
            final(self).pos() >= old(self).pos(),
            match g_mysql_limit(old(self).toks(), old(self).pos(), select_v(&s0)) {
                Ok((v, e)) => r matches Ok(x) && x@ == v && final(self).pos() == e,
                Err(()) => r is Err,
            },
    {
        proof {
            reveal(expr_v);
            reveal(opt_expr_v);
            reveal(stmt_v);
            reveal(select_v);
            reveal(item_v);
            reveal(table_v);
            reveal(join_v);
            reveal(insert_v);
            reveal(update_v);
            reveal(delete_v);
            reveal(column_v);
            reveal(create_v);
        }
        if s0.limit.is_some() && s0.offset.is_none() && self.inner.at(Kw::Comma) {
            self.inner.advance();
            match self.inner.parse_expr() {
                Ok(b) => {
                    let ghost g0 = s0;
                    let mut s1 = s0;
                    let a = s1.limit.take();
                    s1.offset = a;
                    s1.limit = Some(b);
                    proof {
                        lemma_select_limit(&g0, &s1);
                        lemma_stmt_select(&s1);
                        reveal(opt_expr_v);
                    }
                    Ok(SQLStatement::Select(Box::new(s1)))
                },
                Err(m) => Err(m),
            }
        } else {
            proof { lemma_stmt_select(&s0); }
            Ok(SQLStatement::Select(Box::new(s0)))
        }
    }
}

} // verus!
