//! The rules of the SQL firewall.
use vstd::prelude::*;
use crate::text::string_of;

verus! {

/// The kinds of statement that the firewall can deny.
#[derive(Debug, Clone, Copy, PartialEq, Eq, Structural)]
pub enum DenyOperation {
    Select,
    Insert,
    Update,
    Delete,
    Truncate,
    DropTable,
    AlterTable,
    CreateTable,
    CreateIndex,
    Grant,
    Revoke,
    Call,
    Execute,
}

/// The name of an operation in messages.
pub open spec fn op_name(op: DenyOperation) -> Seq<char> {
    match op {
        DenyOperation::Select => "SELECT"@,
        DenyOperation::Insert => "INSERT"@,
        DenyOperation::Update => "UPDATE"@,
        DenyOperation::Delete => "DELETE"@,
        DenyOperation::Truncate => "TRUNCATE"@,
        DenyOperation::DropTable => "DROP TABLE"@,
        DenyOperation::AlterTable => "ALTER TABLE"@,
        DenyOperation::CreateTable => "CREATE TABLE"@,
        DenyOperation::CreateIndex => "CREATE INDEX"@,
        DenyOperation::Grant => "GRANT"@,
        DenyOperation::Revoke => "REVOKE"@,
        DenyOperation::Call => "CALL"@,
        DenyOperation::Execute => "EXECUTE"@,
    }
}

impl DenyOperation {
    /// The name of this operation, as messages print it.
    pub fn to_text(&self) -> (r: &'static str)
        ensures
            r@ == op_name(*self),
    {
        match self {
            DenyOperation::Select => "SELECT",
            DenyOperation::Insert => "INSERT",
            DenyOperation::Update => "UPDATE",
            DenyOperation::Delete => "DELETE",
            DenyOperation::Truncate => "TRUNCATE",
            DenyOperation::DropTable => "DROP TABLE",
            DenyOperation::AlterTable => "ALTER TABLE",
            DenyOperation::CreateTable => "CREATE TABLE",
            DenyOperation::CreateIndex => "CREATE INDEX",
            DenyOperation::Grant => "GRANT",
            DenyOperation::Revoke => "REVOKE",
            DenyOperation::Call => "CALL",
            DenyOperation::Execute => "EXECUTE",
        }
    }
}

/// The firewall's rules.
#[derive(Debug, Clone)]
pub struct WallConfig {
    pub name: String,
    pub enabled: bool,
    pub deny_operations: Vec<DenyOperation>,
    pub deny_functions: Vec<String>,
    pub deny_schemas: Vec<String>,
    pub max_sql_length: usize,
    pub allow_multi_statements: bool,
    pub deny_keywords: Vec<String>,
    pub update_delete_require_where: bool,
    pub select_into_outfile_allow: bool,
}

/// The largest SQL text, in bytes, that the default rules accept.
pub const DEFAULT_MAX_SQL_LENGTH: usize = 8192;

/// The default rules: enabled; `TRUNCATE`, `DROP TABLE` and `ALTER TABLE`
/// denied; `SLEEP`, `BENCHMARK` and `LOAD_FILE` forbidden; SQL texts up to
/// 8192 bytes; one statement at a time; `UPDATE` and `DELETE` need `WHERE`;
/// `INTO OUTFILE` denied.
pub open spec fn is_default_config(c: WallConfig) -> bool {
    &&& c.name@ == "wall"@
    &&& c.enabled
    &&& c.deny_operations@ == seq![DenyOperation::Truncate, DenyOperation::DropTable, DenyOperation::AlterTable]
    &&& c.deny_functions@.len() == 3
    &&& c.deny_functions@[0]@ == "SLEEP"@
    &&& c.deny_functions@[1]@ == "BENCHMARK"@
    &&& c.deny_functions@[2]@ == "LOAD_FILE"@
    &&& c.deny_schemas@.len() == 0
    &&& c.max_sql_length == DEFAULT_MAX_SQL_LENGTH
    &&& !c.allow_multi_statements
    &&& c.deny_keywords@.len() == 0
    &&& c.update_delete_require_where
    &&& !c.select_into_outfile_allow
}

fn text_of(s: &str) -> (r: String)
    ensures
        r@ == s@,
{
    string_of(&crate::text::chars_of(s))
}

impl Default for WallConfig {
    fn default() -> (r: Self)
        ensures
            is_default_config(r),
    {
        let mut funcs: Vec<String> = Vec::new();
        funcs.push(text_of("SLEEP"));
        funcs.push(text_of("BENCHMARK"));
        funcs.push(text_of("LOAD_FILE"));
        let ops = vec![DenyOperation::Truncate, DenyOperation::DropTable, DenyOperation::AlterTable];
        let r = WallConfig {
            name: text_of("wall"),
            enabled: true,
            deny_operations: ops,
            deny_functions: funcs,
            deny_schemas: Vec::new(),
            max_sql_length: DEFAULT_MAX_SQL_LENGTH,
            allow_multi_statements: false,
            deny_keywords: Vec::new(),
            update_delete_require_where: true,
            select_into_outfile_allow: false,
        };
        assert(r.deny_operations@ =~= seq![DenyOperation::Truncate, DenyOperation::DropTable, DenyOperation::AlterTable]);
        r
    }
}

} // verus!
