//! The database kinds that the tools know.
use vstd::prelude::*;
use crate::text::{all_ascii, ascii_lower_text, ascii_upper_text, chars_of, eq_str, lowercase_text, to_lowercase};

verus! {

/// The database kinds: the SQL dialects that are told apart.
#[derive(Debug, Clone, Copy, PartialEq, Eq, Hash, Structural)]
#[non_exhaustive]
pub enum DbType {
    MySQL,
    PostgreSQL,
    Oracle,
    SqlServer,
    DB2,
    H2,
    Informix,
    DM,
    Oscar,
    GaussDB,
    ClickHouse,
    Doris,
    StarRocks,
    Teradata,
    Redshift,
    BigQuery,
    Snowflake,
    Synapse,
    Hologres,
    ODPS,
    Hive,
    Spark,
    Presto,
    Impala,
    Athena,
    Blink,
    Databricks,
    Phoenix,
    SuperSQL,
    TransactSql,
    Other,
}

/// The kind that a lower-case name stands for.
pub open spec fn db_type_of_lower(w: Seq<char>) -> DbType {
    if false {
        DbType::Other
    } else if w == "mysql"@ {
        DbType::MySQL
    } else if w == "postgresql"@ {
        DbType::PostgreSQL
    } else if w == "postgres"@ {
        DbType::PostgreSQL
    } else if w == "pgsql"@ {
        DbType::PostgreSQL
    } else if w == "oracle"@ {
        DbType::Oracle
    } else if w == "sqlserver"@ {
        DbType::SqlServer
    } else if w == "mssql"@ {
        DbType::SqlServer
    } else if w == "sql server"@ {
        DbType::SqlServer
    } else if w == "db2"@ {
        DbType::DB2
    } else if w == "h2"@ {
        DbType::H2
    } else if w == "informix"@ {
        DbType::Informix
    } else if w == "dm"@ {
        DbType::DM
    } else if w == "dameng"@ {
        DbType::DM
    } else if w == "oscar"@ {
        DbType::Oscar
    } else if w == "gaussdb"@ {
        DbType::GaussDB
    } else if w == "gauss"@ {
        DbType::GaussDB
    } else if w == "clickhouse"@ {
        DbType::ClickHouse
    } else if w == "doris"@ {
        DbType::Doris
    } else if w == "starrocks"@ {
        DbType::StarRocks
    } else if w == "teradata"@ {
        DbType::Teradata
    } else if w == "redshift"@ {
        DbType::Redshift
    } else if w == "bigquery"@ {
        DbType::BigQuery
    } else if w == "snowflake"@ {
        DbType::Snowflake
    } else if w == "synapse"@ {
        DbType::Synapse
    } else if w == "hologres"@ {
        DbType::Hologres
    } else if w == "odps"@ {
        DbType::ODPS
    } else if w == "maxcompute"@ {
        DbType::ODPS
    } else if w == "hive"@ {
        DbType::Hive
    } else if w == "spark"@ {
        DbType::Spark
    } else if w == "presto"@ {
        DbType::Presto
    } else if w == "impala"@ {
        DbType::Impala
    } else if w == "athena"@ {
        DbType::Athena
    } else if w == "blink"@ {
        DbType::Blink
    } else if w == "databricks"@ {
        DbType::Databricks
    } else if w == "phoenix"@ {
        DbType::Phoenix
    } else if w == "supersql"@ {
        DbType::SuperSQL
    } else if w == "transact-sql"@ {
        DbType::TransactSql
    } else if w == "tsql"@ {
        DbType::TransactSql
    } else {
        DbType::Other
    }
}

/// The kind that a lower-case name stands for.
pub fn from_lower(w: &[char]) -> (r: DbType)
    ensures
        r == db_type_of_lower(w@),
{
    if eq_str(w, "mysql") {
        return DbType::MySQL;
    }
    if eq_str(w, "postgresql") {
        return DbType::PostgreSQL;
    }
    if eq_str(w, "postgres") {
        return DbType::PostgreSQL;
    }
    if eq_str(w, "pgsql") {
        return DbType::PostgreSQL;
    }
    if eq_str(w, "oracle") {
        return DbType::Oracle;
    }
    if eq_str(w, "sqlserver") {
        return DbType::SqlServer;
    }
    if eq_str(w, "mssql") {
        return DbType::SqlServer;
    }
    if eq_str(w, "sql server") {
        return DbType::SqlServer;
    }
    if eq_str(w, "db2") {
        return DbType::DB2;
    }
    if eq_str(w, "h2") {
        return DbType::H2;
    }
    if eq_str(w, "informix") {
        return DbType::Informix;
    }
    if eq_str(w, "dm") {
        return DbType::DM;
    }
    if eq_str(w, "dameng") {
        return DbType::DM;
    }
    if eq_str(w, "oscar") {
        return DbType::Oscar;
    }
    if eq_str(w, "gaussdb") {
        return DbType::GaussDB;
    }
    if eq_str(w, "gauss") {
        return DbType::GaussDB;
    }
    if eq_str(w, "clickhouse") {
        return DbType::ClickHouse;
    }
    if eq_str(w, "doris") {
        return DbType::Doris;
    }
    if eq_str(w, "starrocks") {
        return DbType::StarRocks;
    }
    if eq_str(w, "teradata") {
        return DbType::Teradata;
    }
    if eq_str(w, "redshift") {
        return DbType::Redshift;
    }
    if eq_str(w, "bigquery") {
        return DbType::BigQuery;
    }
    if eq_str(w, "snowflake") {
        return DbType::Snowflake;
    }
    if eq_str(w, "synapse") {
        return DbType::Synapse;
    }
    if eq_str(w, "hologres") {
        return DbType::Hologres;
    }
    if eq_str(w, "odps") {
        return DbType::ODPS;
    }
    if eq_str(w, "maxcompute") {
        return DbType::ODPS;
    }
    if eq_str(w, "hive") {
        return DbType::Hive;
    }
    if eq_str(w, "spark") {
        return DbType::Spark;
    }
    if eq_str(w, "presto") {
        return DbType::Presto;
    }
    if eq_str(w, "impala") {
        return DbType::Impala;
    }
    if eq_str(w, "athena") {
        return DbType::Athena;
    }
    if eq_str(w, "blink") {
        return DbType::Blink;
    }
    if eq_str(w, "databricks") {
        return DbType::Databricks;
    }
    if eq_str(w, "phoenix") {
        return DbType::Phoenix;
    }
    if eq_str(w, "supersql") {
        return DbType::SuperSQL;
    }
    if eq_str(w, "transact-sql") {
        return DbType::TransactSql;
    }
    if eq_str(w, "tsql") {
        return DbType::TransactSql;
    }
    DbType::Other
}

/// The display name of each kind.
pub open spec fn db_type_name(t: DbType) -> Seq<char> {
    match t {
        DbType::MySQL => "MySQL"@,
        DbType::PostgreSQL => "PostgreSQL"@,
        DbType::Oracle => "Oracle"@,
        DbType::SqlServer => "SQL Server"@,
        DbType::DB2 => "DB2"@,
        DbType::H2 => "H2"@,
        DbType::Informix => "Informix"@,
        DbType::DM => "达梦"@,
        DbType::Oscar => "Oscar"@,
        DbType::GaussDB => "GaussDB"@,
        DbType::ClickHouse => "ClickHouse"@,
        DbType::Doris => "Doris"@,
        DbType::StarRocks => "StarRocks"@,
        DbType::Teradata => "Teradata"@,
        DbType::Redshift => "Redshift"@,
        DbType::BigQuery => "BigQuery"@,
        DbType::Snowflake => "Snowflake"@,
        DbType::Synapse => "Synapse"@,
        DbType::Hologres => "Hologres"@,
        DbType::ODPS => "ODPS(MaxCompute)"@,
        DbType::Hive => "Hive"@,
        DbType::Spark => "Spark"@,
        DbType::Presto => "Presto"@,
        DbType::Impala => "Impala"@,
        DbType::Athena => "Athena"@,
        DbType::Blink => "Blink"@,
        DbType::Databricks => "Databricks"@,
        DbType::Phoenix => "Phoenix"@,
        DbType::SuperSQL => "SuperSQL"@,
        DbType::TransactSql => "Transact-SQL"@,
        DbType::Other => "Other"@,
    }
}

/// Every kind but `DM` and `ODPS` is read back from its display name: the
/// name is ASCII, and its lower-case form, which is also that of its
/// upper-case form, stands for that kind.
pub proof fn lemma_name_parses_back(t: DbType)
    requires
        t != DbType::DM,
        t != DbType::ODPS,
    ensures
        all_ascii(db_type_name(t)),
        all_ascii(ascii_upper_text(db_type_name(t))),
        db_type_of_lower(ascii_lower_text(db_type_name(t))) == t,
        db_type_of_lower(ascii_lower_text(ascii_upper_text(db_type_name(t)))) == t,
{
    lemma_lower_of_upper(db_type_name(t));
    reveal_strlit("mysql");
    reveal_strlit("postgresql");
    reveal_strlit("postgres");
    reveal_strlit("pgsql");
    reveal_strlit("oracle");
    reveal_strlit("sqlserver");
    reveal_strlit("mssql");
    reveal_strlit("sql server");
    reveal_strlit("db2");
    reveal_strlit("h2");
    reveal_strlit("informix");
    reveal_strlit("dm");
    reveal_strlit("dameng");
    reveal_strlit("oscar");
    reveal_strlit("gaussdb");
    reveal_strlit("gauss");
    reveal_strlit("clickhouse");
    reveal_strlit("doris");
    reveal_strlit("starrocks");
    reveal_strlit("teradata");
    reveal_strlit("redshift");
    reveal_strlit("bigquery");
    reveal_strlit("snowflake");
    reveal_strlit("synapse");
    reveal_strlit("hologres");
    reveal_strlit("odps");
    reveal_strlit("maxcompute");
    reveal_strlit("hive");
    reveal_strlit("spark");
    reveal_strlit("presto");
    reveal_strlit("impala");
    reveal_strlit("athena");
    reveal_strlit("blink");
    reveal_strlit("databricks");
    reveal_strlit("phoenix");
    reveal_strlit("supersql");
    reveal_strlit("transact-sql");
    reveal_strlit("tsql");
    reveal_strlit("MySQL");
    reveal_strlit("PostgreSQL");
    reveal_strlit("Oracle");
    reveal_strlit("SQL Server");
    reveal_strlit("DB2");
    reveal_strlit("H2");
    reveal_strlit("Informix");
    reveal_strlit("Oscar");
    reveal_strlit("GaussDB");
    reveal_strlit("ClickHouse");
    reveal_strlit("Doris");
    reveal_strlit("StarRocks");
    reveal_strlit("Teradata");
    reveal_strlit("Redshift");
    reveal_strlit("BigQuery");
    reveal_strlit("Snowflake");
    reveal_strlit("Synapse");
    reveal_strlit("Hologres");
    reveal_strlit("Hive");
    reveal_strlit("Spark");
    reveal_strlit("Presto");
    reveal_strlit("Impala");
    reveal_strlit("Athena");
    reveal_strlit("Blink");
    reveal_strlit("Databricks");
    reveal_strlit("Phoenix");
    reveal_strlit("SuperSQL");
    reveal_strlit("Transact-SQL");
    reveal_strlit("Other");
    reveal_strlit("other");
    match t {
        DbType::MySQL => {
            assert(ascii_lower_text("MySQL"@) =~= "mysql"@);
            assert(db_type_name(t) == "MySQL"@);
            assert(db_type_of_lower("mysql"@) == t);
        },
        DbType::PostgreSQL => {
            assert(ascii_lower_text("PostgreSQL"@) =~= "postgresql"@);
            assert(db_type_name(t) == "PostgreSQL"@);
            assert(db_type_of_lower("postgresql"@) == t);
        },
        DbType::Oracle => {
            assert(ascii_lower_text("Oracle"@) =~= "oracle"@);
            assert(db_type_name(t) == "Oracle"@);
            assert(db_type_of_lower("oracle"@) == t);
        },
        DbType::SqlServer => {
            assert(ascii_lower_text("SQL Server"@) =~= "sql server"@);
            assert(db_type_name(t) == "SQL Server"@);
            assert("sql server"@[0] != "postgresql"@[0]);
            assert(db_type_of_lower("sql server"@) == t);
        },
        DbType::DB2 => {
            assert(ascii_lower_text("DB2"@) =~= "db2"@);
            assert(db_type_name(t) == "DB2"@);
            assert(db_type_of_lower("db2"@) == t);
        },
        DbType::H2 => {
            assert(ascii_lower_text("H2"@) =~= "h2"@);
            assert(db_type_name(t) == "H2"@);
            assert(db_type_of_lower("h2"@) == t);
        },
        DbType::Informix => {
            assert(ascii_lower_text("Informix"@) =~= "informix"@);
            assert(db_type_name(t) == "Informix"@);
            assert("informix"@[0] != "postgres"@[0]);
            assert(db_type_of_lower("informix"@) == t);
        },
        DbType::DM => {},
        DbType::Oscar => {
            assert(ascii_lower_text("Oscar"@) =~= "oscar"@);
            assert(db_type_name(t) == "Oscar"@);
            assert("oscar"@[0] != "mysql"@[0]);
            assert("oscar"@[0] != "pgsql"@[0]);
            assert("oscar"@[0] != "mssql"@[0]);
            assert(db_type_of_lower("oscar"@) == t);
        },
        DbType::GaussDB => {
            assert(ascii_lower_text("GaussDB"@) =~= "gaussdb"@);
            assert(db_type_name(t) == "GaussDB"@);
            assert(db_type_of_lower("gaussdb"@) == t);
        },
        DbType::ClickHouse => {
            assert(ascii_lower_text("ClickHouse"@) =~= "clickhouse"@);
            assert(db_type_name(t) == "ClickHouse"@);
            assert("clickhouse"@[0] != "postgresql"@[0]);
            assert("clickhouse"@[0] != "sql server"@[0]);
            assert(db_type_of_lower("clickhouse"@) == t);
        },
        DbType::Doris => {
            assert(ascii_lower_text("Doris"@) =~= "doris"@);
            assert(db_type_name(t) == "Doris"@);
            assert("doris"@[0] != "mysql"@[0]);
            assert("doris"@[0] != "pgsql"@[0]);
            assert("doris"@[0] != "mssql"@[0]);
            assert("doris"@[0] != "oscar"@[0]);
            assert("doris"@[0] != "gauss"@[0]);
            assert(db_type_of_lower("doris"@) == t);
        },
        DbType::StarRocks => {
            assert(ascii_lower_text("StarRocks"@) =~= "starrocks"@);
            assert(db_type_name(t) == "StarRocks"@);
            assert("starrocks"@[1] != "sqlserver"@[1]);
            assert(db_type_of_lower("starrocks"@) == t);
        },
        DbType::Teradata => {
            assert(ascii_lower_text("Teradata"@) =~= "teradata"@);
            assert(db_type_name(t) == "Teradata"@);
            assert("teradata"@[0] != "postgres"@[0]);
            assert("teradata"@[0] != "informix"@[0]);
            assert(db_type_of_lower("teradata"@) == t);
        },
        DbType::Redshift => {
            assert(ascii_lower_text("Redshift"@) =~= "redshift"@);
            assert(db_type_name(t) == "Redshift"@);
            assert("redshift"@[0] != "postgres"@[0]);
            assert("redshift"@[0] != "informix"@[0]);
            assert("redshift"@[0] != "teradata"@[0]);
            assert(db_type_of_lower("redshift"@) == t);
        },
        DbType::BigQuery => {
            assert(ascii_lower_text("BigQuery"@) =~= "bigquery"@);
            assert(db_type_name(t) == "BigQuery"@);
            assert("bigquery"@[0] != "postgres"@[0]);
            assert("bigquery"@[0] != "informix"@[0]);
            assert("bigquery"@[0] != "teradata"@[0]);
            assert("bigquery"@[0] != "redshift"@[0]);
            assert(db_type_of_lower("bigquery"@) == t);
        },
        DbType::Snowflake => {
            assert(ascii_lower_text("Snowflake"@) =~= "snowflake"@);
            assert(db_type_name(t) == "Snowflake"@);
            assert("snowflake"@[1] != "sqlserver"@[1]);
            assert("snowflake"@[1] != "starrocks"@[1]);
            assert(db_type_of_lower("snowflake"@) == t);
        },
        DbType::Synapse => {
            assert(ascii_lower_text("Synapse"@) =~= "synapse"@);
            assert(db_type_name(t) == "Synapse"@);
            assert("synapse"@[0] != "gaussdb"@[0]);
            assert(db_type_of_lower("synapse"@) == t);
        },
        DbType::Hologres => {
            assert(ascii_lower_text("Hologres"@) =~= "hologres"@);
            assert(db_type_name(t) == "Hologres"@);
            assert("hologres"@[0] != "postgres"@[0]);
            assert("hologres"@[0] != "informix"@[0]);
            assert("hologres"@[0] != "teradata"@[0]);
            assert("hologres"@[0] != "redshift"@[0]);
            assert("hologres"@[0] != "bigquery"@[0]);
            assert(db_type_of_lower("hologres"@) == t);
        },
        DbType::ODPS => {},
        DbType::Hive => {
            assert(ascii_lower_text("Hive"@) =~= "hive"@);
            assert(db_type_name(t) == "Hive"@);
            assert("hive"@[0] != "odps"@[0]);
            assert(db_type_of_lower("hive"@) == t);
        },
        DbType::Spark => {
            assert(ascii_lower_text("Spark"@) =~= "spark"@);
            assert(db_type_name(t) == "Spark"@);
            assert("spark"@[0] != "mysql"@[0]);
            assert("spark"@[0] != "pgsql"@[0]);
            assert("spark"@[0] != "mssql"@[0]);
            assert("spark"@[0] != "oscar"@[0]);
            assert("spark"@[0] != "gauss"@[0]);
            assert("spark"@[0] != "doris"@[0]);
            assert(db_type_of_lower("spark"@) == t);
        },
        DbType::Presto => {
            assert(ascii_lower_text("Presto"@) =~= "presto"@);
            assert(db_type_name(t) == "Presto"@);
            assert("presto"@[0] != "oracle"@[0]);
            assert("presto"@[0] != "dameng"@[0]);
            assert(db_type_of_lower("presto"@) == t);
        },
        DbType::Impala => {
            assert(ascii_lower_text("Impala"@) =~= "impala"@);
            assert(db_type_name(t) == "Impala"@);
            assert("impala"@[0] != "oracle"@[0]);
            assert("impala"@[0] != "dameng"@[0]);
            assert("impala"@[0] != "presto"@[0]);
            assert(db_type_of_lower("impala"@) == t);
        },
        DbType::Athena => {
            assert(ascii_lower_text("Athena"@) =~= "athena"@);
            assert(db_type_name(t) == "Athena"@);
            assert("athena"@[0] != "oracle"@[0]);
            assert("athena"@[0] != "dameng"@[0]);
            assert("athena"@[0] != "presto"@[0]);
            assert("athena"@[0] != "impala"@[0]);
            assert(db_type_of_lower("athena"@) == t);
        },
        DbType::Blink => {
            assert(ascii_lower_text("Blink"@) =~= "blink"@);
            assert(db_type_name(t) == "Blink"@);
            assert("blink"@[0] != "mysql"@[0]);
            assert("blink"@[0] != "pgsql"@[0]);
            assert("blink"@[0] != "mssql"@[0]);
            assert("blink"@[0] != "oscar"@[0]);
            assert("blink"@[0] != "gauss"@[0]);
            assert("blink"@[0] != "doris"@[0]);
            assert("blink"@[0] != "spark"@[0]);
            assert(db_type_of_lower("blink"@) == t);
        },
        DbType::Databricks => {
            assert(ascii_lower_text("Databricks"@) =~= "databricks"@);
            assert(db_type_name(t) == "Databricks"@);
            assert("databricks"@[0] != "postgresql"@[0]);
            assert("databricks"@[0] != "sql server"@[0]);
            assert("databricks"@[0] != "clickhouse"@[0]);
            assert("databricks"@[0] != "maxcompute"@[0]);
            assert(db_type_of_lower("databricks"@) == t);
        },
        DbType::Phoenix => {
            assert(ascii_lower_text("Phoenix"@) =~= "phoenix"@);
            assert(db_type_name(t) == "Phoenix"@);
            assert("phoenix"@[0] != "gaussdb"@[0]);
            assert("phoenix"@[0] != "synapse"@[0]);
            assert(db_type_of_lower("phoenix"@) == t);
        },
        DbType::SuperSQL => {
            assert(ascii_lower_text("SuperSQL"@) =~= "supersql"@);
            assert(db_type_name(t) == "SuperSQL"@);
            assert("supersql"@[0] != "postgres"@[0]);
            assert("supersql"@[0] != "informix"@[0]);
            assert("supersql"@[0] != "teradata"@[0]);
            assert("supersql"@[0] != "redshift"@[0]);
            assert("supersql"@[0] != "bigquery"@[0]);
            assert("supersql"@[0] != "hologres"@[0]);
            assert(db_type_of_lower("supersql"@) == t);
        },
        DbType::TransactSql => {
            assert(ascii_lower_text("Transact-SQL"@) =~= "transact-sql"@);
            assert(db_type_name(t) == "Transact-SQL"@);
            assert(db_type_of_lower("transact-sql"@) == t);
        },
        DbType::Other => {
            assert(ascii_lower_text("Other"@) =~= "other"@);
            assert(db_type_name(t) == "Other"@);
            assert("other"@[0] != "mysql"@[0]);
            assert("other"@[0] != "pgsql"@[0]);
            assert("other"@[0] != "mssql"@[0]);
            assert("other"@[1] != "oscar"@[1]);
            assert("other"@[0] != "gauss"@[0]);
            assert("other"@[0] != "doris"@[0]);
            assert("other"@[0] != "spark"@[0]);
            assert("other"@[0] != "blink"@[0]);
            assert(db_type_of_lower("other"@) == t);
        },
    }
}

/// Lower-casing the upper-case form of ASCII text gives its lower-case
/// form.
pub proof fn lemma_lower_of_upper(s: Seq<char>)
    ensures
        all_ascii(s) ==> all_ascii(ascii_upper_text(s)),
        ascii_lower_text(ascii_upper_text(s)) == ascii_lower_text(s),
{
    assert(ascii_lower_text(ascii_upper_text(s)) =~= ascii_lower_text(s));
}

impl DbType {
    /// The kind that a name stands for, compared in lower case; `Other`
    /// for a name that none stands for.
    pub fn parse(s: &str) -> (r: DbType)
        ensures
            r == db_type_of_lower(lowercase_text(s@)),
            all_ascii(s@) ==> r == db_type_of_lower(ascii_lower_text(s@)),
    {
        let low = to_lowercase(s);
        let w = chars_of(low.as_str());
        from_lower(&w)
    }

    /// The display name of this kind.
    pub fn name(&self) -> (r: &'static str)
        ensures
            r@ == db_type_name(*self),
    {
        match self {
            DbType::MySQL => "MySQL",
            DbType::PostgreSQL => "PostgreSQL",
            DbType::Oracle => "Oracle",
            DbType::SqlServer => "SQL Server",
            DbType::DB2 => "DB2",
            DbType::H2 => "H2",
            DbType::Informix => "Informix",
            DbType::DM => "达梦",
            DbType::Oscar => "Oscar",
            DbType::GaussDB => "GaussDB",
            DbType::ClickHouse => "ClickHouse",
            DbType::Doris => "Doris",
            DbType::StarRocks => "StarRocks",
            DbType::Teradata => "Teradata",
            DbType::Redshift => "Redshift",
            DbType::BigQuery => "BigQuery",
            DbType::Snowflake => "Snowflake",
            DbType::Synapse => "Synapse",
            DbType::Hologres => "Hologres",
            DbType::ODPS => "ODPS(MaxCompute)",
            DbType::Hive => "Hive",
            DbType::Spark => "Spark",
            DbType::Presto => "Presto",
            DbType::Impala => "Impala",
            DbType::Athena => "Athena",
            DbType::Blink => "Blink",
            DbType::Databricks => "Databricks",
            DbType::Phoenix => "Phoenix",
            DbType::SuperSQL => "SuperSQL",
            DbType::TransactSql => "Transact-SQL",
            DbType::Other => "Other",
        }
    }
}

} // verus!
