use druid::sql::format::{format_expr, format_statement};
use druid::sql::lexer::tokenize;
use druid::sql::ast::{DropObjectType, SQLExpr, SQLStatement};
use druid::sql::parser::{parse_sql, MySQLParser, Parser, SQLParser};
use druid::sql::token::{Kw, Token};
use druid::sql::visitor::SchemaVisitor;

fn has_kw(tokens: &[Token], k: Kw) -> bool {
    tokens.iter().any(|t| t.is(k))
}

fn has_ident(tokens: &[Token], name: &str) -> bool {
    tokens.iter().any(|t| matches!(t, Token::Ident(s) if s == name))
}

#[test]
fn test_simple_select() {
    let tokens = tokenize("SELECT id, name FROM users");
    assert!(has_kw(&tokens, Kw::Select));
    assert!(has_ident(&tokens, "id"));
    assert!(has_ident(&tokens, "name"));
    assert!(has_kw(&tokens, Kw::From));
    assert!(has_ident(&tokens, "users"));
}

#[test]
fn test_string() {
    let tokens = tokenize("'hello world'");
    assert!(matches!(&tokens[0], Token::StringLit(s) if s == "hello world"));
}

#[test]
fn test_where_clause() {
    let tokens = tokenize("WHERE age > 18 AND name LIKE '%foo%'");
    assert!(has_kw(&tokens, Kw::Where));
    assert!(has_kw(&tokens, Kw::Gt));
    assert!(has_kw(&tokens, Kw::And));
    assert!(has_kw(&tokens, Kw::Like));
}

#[test]
fn test_comment_skip() {
    let tokens = tokenize("SELECT 1 -- inline comment\nSELECT 2");
    assert_eq!(tokens.iter().filter(|t| t.is(Kw::Select)).count(), 2);
}

#[test]
fn tokenize_ends_with_one_eof() {
    let tokens = tokenize("SELECT a FROM t");
    assert!(tokens.last().unwrap().is(Kw::Eof));
    assert_eq!(tokens.iter().filter(|t| t.is(Kw::Eof)).count(), 1);
    let empty = tokenize("");
    assert_eq!(empty.len(), 1);
    assert!(empty[0].is(Kw::Eof));
}

#[test]
fn test_format_select() {
    let sql = "SELECT id, name FROM users WHERE age > 18";
    let stmts = parse_sql(sql).unwrap();
    let formatted = format_statement(&stmts[0]);
    assert!(formatted.contains("SELECT"));
    assert!(formatted.contains("FROM users"));
    assert!(formatted.contains("WHERE"));
}

#[test]
fn test_format_roundtrip_simple() {
    let sql = "SELECT id, name FROM users";
    let stmts = parse_sql(sql).unwrap();
    let formatted = format_statement(&stmts[0]);
    let reparsed = parse_sql(&formatted);
    assert!(reparsed.is_ok());
}

#[test]
fn format_exact_text() {
    let stmts = parse_sql("select a, b from t where a = 1 order by b desc limit 10").unwrap();
    assert_eq!(format_statement(&stmts[0]), "SELECT a, b FROM t WHERE a = 1 ORDER BY b DESC LIMIT 10");
    let stmts = parse_sql("DELETE FROM t WHERE id IN (1, 2)").unwrap();
    assert_eq!(format_statement(&stmts[0]), "DELETE FROM t WHERE id IN (1, 2)");
    let stmts = parse_sql("UPDATE t SET a = 'x' WHERE b IS NOT NULL").unwrap();
    assert_eq!(format_statement(&stmts[0]), "UPDATE t SET a = 'x' WHERE b IS NOT NULL");
}

#[test]
fn format_expression() {
    let mut p = Parser::new("a BETWEEN 1 AND 2");
    let e = p.parse_expr().unwrap();
    assert_eq!(format_expr(&e), "a BETWEEN 1 AND 2");
}

#[test]
fn parse_errors() {
    assert!(parse_sql("SELECT FROM").is_err());
    assert!(parse_sql("FOO BAR").is_err());
    assert_eq!(parse_sql("SELECT 1; SELECT 2").unwrap().len(), 2);
}

#[test]
fn test_schema_visitor_select() {
    let sql = "SELECT u.id, u.name, o.total FROM users u JOIN orders o ON u.id = o.user_id WHERE u.age > 18";
    let stmts = parse_sql(sql).unwrap();
    let mut visitor = SchemaVisitor::new();
    for stmt in &stmts {
        visitor.visit_statement(stmt);
    }
    assert!(visitor.has_table("users"));
    assert!(visitor.has_table("orders"));
    assert!(visitor.has_column("u", "id"));
    assert!(visitor.has_column("u", "name"));
    assert!(visitor.has_column("o", "total"));
}

#[test]
fn test_schema_visitor_insert() {
    let sql = "INSERT INTO products (name, price) VALUES ('a', 10)";
    let stmts = parse_sql(sql).unwrap();
    let mut visitor = SchemaVisitor::new();
    for stmt in &stmts {
        visitor.visit_statement(stmt);
    }
    assert!(visitor.has_table("products"));
    assert!(visitor.has_column("products", "name"));
    assert!(visitor.has_column("products", "price"));
}

#[test]
fn visitor_update_and_delete() {
    let stmts = parse_sql("UPDATE accounts SET balance = 0 WHERE id = 3").unwrap();
    let mut v = SchemaVisitor::new();
    v.visit_statement(&stmts[0]);
    assert!(v.has_table("accounts"));
    assert!(v.has_column("accounts", "balance"));
    assert!(v.has_column("accounts", "id"));
    assert!(!v.has_table("orders"));
}

#[test]
fn parser_through_trait() {
    let mut p = Parser::new("SELECT a FROM t");
    let s = SQLParser::parse_select(&mut p).unwrap();
    assert!(s.from.is_some());
    let mut q = Parser::new("1 + 2");
    let e = SQLParser::parse_expr(&mut q).unwrap();
    assert_eq!(format_expr(&e), "1 + 2");
}

#[test]
fn visitor_collects_between_and_is_null_operands() {
    let stmts = parse_sql("SELECT a FROM t WHERE t.x BETWEEN 1 AND 2 AND t.y IS NULL").unwrap();
    let mut v = SchemaVisitor::new();
    v.visit_statement(&stmts[0]);
    assert!(v.has_table("t"));
    assert!(v.has_column("t", "x"));
    assert!(v.has_column("t", "y"));
}

#[test]
fn format_create_table_keeps_column_constraints() {
    let sql = "CREATE TABLE users (id INT NOT NULL PRIMARY KEY, name VARCHAR(20) DEFAULT 'x')";
    let stmts = parse_sql(sql).unwrap();
    let text = format_statement(&stmts[0]);
    assert!(text.contains("NOT NULL"));
    assert!(text.contains("DEFAULT 'x'"));
    assert!(text.contains("PRIMARY KEY"));
    let again = parse_sql(&text).unwrap();
    assert_eq!(again, stmts);
}

#[test]
fn mysql_limit_offset_count() {
    let mut p = MySQLParser::new("SELECT a FROM t LIMIT 10, 20");
    match p.parse_statement().unwrap() {
        SQLStatement::Select(s) => {
            assert_eq!(s.limit, Some(SQLExpr::NumberLiteral("20".to_string())));
            assert_eq!(s.offset, Some(SQLExpr::NumberLiteral("10".to_string())));
        }
        _ => panic!("not a select"),
    }
}

#[test]
fn drop_of_other_kind_steps_over_the_kind() {
    let stmts = parse_sql("DROP SCHEMA s1").unwrap();
    match &stmts[0] {
        SQLStatement::DropObject(d) => {
            assert_eq!(d.object_type, DropObjectType::Table);
            assert_eq!(d.name, "s1");
        }
        _ => panic!("not a drop"),
    }
}
