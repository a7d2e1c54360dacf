use druid::base::config::DruidConfig;
use druid::base::error::DruidError;
use druid::base::types::DbType;
use druid::util::base64::{base64_decode, base64_encode};
use druid::util::crypto::{decrypt_with_key, encrypt_with_key, key_from_text, process_key};
use druid::util::sql::{detect_db_type_from_url, get_sql_type, is_select_sql, is_write_sql};
use druid::util::string::{camel_to_snake, parse_properties, snake_to_camel, substitute_params, truncate_sql};
use druid::util::time::{current_time_millis, duration_between, elapsed_between, elapsed_millis, format_timestamp, timestamp_text};

#[test]
fn test_detect_db_type() {
    assert_eq!(detect_db_type_from_url("jdbc:mysql://localhost/test"), Some(DbType::MySQL));
    assert_eq!(detect_db_type_from_url("jdbc:postgresql://localhost/test"), Some(DbType::PostgreSQL));
    assert!(detect_db_type_from_url("jdbc:unknown://localhost/test").is_none());
}

#[test]
fn test_sql_types() {
    assert_eq!(get_sql_type("SELECT * FROM users"), "SELECT");
    assert_eq!(get_sql_type("INSERT INTO users VALUES (1)"), "INSERT");
    assert_eq!(get_sql_type(""), "EMPTY");
}

#[test]
fn test_is_select() {
    assert!(is_select_sql("SELECT * FROM t"));
    assert!(is_select_sql("WITH cte AS (SELECT 1) SELECT * FROM cte"));
    assert!(!is_select_sql("INSERT INTO t VALUES (1)"));
}

#[test]
fn test_is_write() {
    assert!(is_write_sql("INSERT INTO t VALUES (1)"));
    assert!(!is_write_sql("SELECT * FROM t"));
}

#[test]
fn test_camel_to_snake() {
    assert_eq!(camel_to_snake("DruidDataSource"), "druid_data_source");
    assert_eq!(camel_to_snake("maxActive"), "max_active");
    assert_eq!(camel_to_snake("URL"), "url");
}

#[test]
fn test_snake_to_camel() {
    assert_eq!(snake_to_camel("druid_data_source"), "druidDataSource");
    assert_eq!(snake_to_camel("max_active"), "maxActive");
}

#[test]
fn test_substitute_params() {
    let sql = "SELECT * FROM users WHERE id = ? AND name = ?";
    let result = substitute_params(sql, &["1", "Alice"]);
    assert_eq!(result, "SELECT * FROM users WHERE id = '1' AND name = 'Alice'");
}

#[test]
fn substitute_params_quotes_and_leftovers() {
    assert_eq!(substitute_params("a = ? AND b = ?", &["O'Brien"]), "a = 'O''Brien' AND b = ?");
    assert_eq!(substitute_params("x = ?", &["?", "z"]), "x = '?'");
}

#[test]
fn test_parse_properties() {
    let props = parse_properties("key1=val1;key2=val2");
    assert_eq!(props.get("key1").unwrap(), "val1");
    assert_eq!(props.get("key2").unwrap(), "val2");
}

#[test]
fn test_truncate() {
    assert_eq!(truncate_sql("hello world", 5), "hello...");
    assert_eq!(truncate_sql("hi", 10), "hi");
}

#[test]
fn test_current_time_is_reasonable() {
    let ts = current_time_millis();
    assert!(ts > 1700000000000);
}

#[test]
fn test_elapsed() {
    let past = current_time_millis() - 1000;
    let elapsed = elapsed_millis(past);
    assert!(elapsed >= 1000);
}

#[test]
fn elapsed_is_clamped() {
    assert_eq!(elapsed_between(100, 40), 60);
    assert_eq!(elapsed_between(40, 100), 0);
    assert_eq!(elapsed_between(i64::MAX, i64::MIN), u64::MAX);
}

#[test]
fn timestamp_text_for_missing_value() {
    assert_eq!(timestamp_text(None), "N/A");
    assert_eq!(timestamp_text(Some("x".to_string())), "x");
    assert_eq!(format_timestamp(i64::MAX), "N/A");
    assert!(format_timestamp(0).len() >= 19);
}

#[test]
fn config_durations() {
    let mut c = DruidConfig::new("jdbc:mysql://h/db", "u", "p");
    assert_eq!(c.max_wait(), None);
    c.max_wait_ms = 250;
    assert_eq!(c.max_wait(), Some(std::time::Duration::from_millis(250)));
    assert_eq!(c.eviction_interval(), std::time::Duration::from_millis(60_000));
    assert_eq!(c.keep_alive_interval(), std::time::Duration::from_millis(120_000));
    assert_eq!(c.connect_timeout(), std::time::Duration::from_secs(30));
}

#[test]
fn base64_known_values() {
    assert_eq!(base64_encode(b""), "");
    assert_eq!(base64_encode(b"f"), "Zg==");
    assert_eq!(base64_encode(b"fo"), "Zm8=");
    assert_eq!(base64_encode(b"foo"), "Zm9v");
    assert_eq!(base64_encode(b"foobar"), "Zm9vYmFy");
    assert_eq!(base64_decode("Zm9vYmE=").unwrap(), b"fooba".to_vec());
    assert!(base64_decode("Zm9v!").is_none());
    let all: Vec<u8> = (0..=255u8).collect();
    assert_eq!(base64_decode(&base64_encode(&all)).unwrap(), all);
}

const KEY: [u8; 32] = [7u8; 32];

#[test]
fn test_encrypt_decrypt() {
    let plain = "my_secret_password";
    let encrypted = encrypt_with_key(&KEY, plain);
    assert_ne!(encrypted, plain);
    let decrypted = decrypt_with_key(&KEY, &encrypted).unwrap();
    assert_eq!(decrypted, plain);
}

#[test]
fn test_encrypt_empty() {
    let encrypted = encrypt_with_key(&KEY, "");
    let decrypted = decrypt_with_key(&KEY, &encrypted).unwrap();
    assert_eq!(decrypted, "");
}

#[test]
fn test_decrypt_invalid() {
    assert!(decrypt_with_key(&KEY, "!!!invalid!!!").is_none());
}

#[test]
fn decrypt_with_other_key_fails() {
    let encrypted = encrypt_with_key(&KEY, "pw");
    assert!(decrypt_with_key(&[9u8; 32], &encrypted).is_none());
    assert!(decrypt_with_key(&KEY, "AAAA").is_none());
}

#[test]
fn duration_between_values() {
    assert_eq!(duration_between(1000, 3500), chrono::TimeDelta::milliseconds(2500));
    assert_eq!(duration_between(3500, 1000), chrono::TimeDelta::milliseconds(-2500));
}

#[test]
fn db_type_names() {
    assert_eq!(DbType::parse("MySQL"), DbType::MySQL);
    assert_eq!(DbType::parse("PGSQL"), DbType::PostgreSQL);
    assert_eq!(DbType::parse("nothing"), DbType::Other);
    assert_eq!(DbType::MySQL.name(), "MySQL");
    assert_eq!(DbType::SqlServer.name(), "SQL Server");
}

#[test]
fn error_messages() {
    assert_eq!(DruidError::Pool("x".to_string()).message(), "pool error: x");
    assert_eq!(DruidError::Wall("no".to_string()).message(), "wall error: no");
    let io = DruidError::Io(std::io::Error::new(std::io::ErrorKind::Other, "disk"));
    assert_eq!(io.message(), "io error: disk");
}

#[test]
fn sql_kind_of_text_with_wide_letters() {
    assert!(!is_select_sql("abcé"));
    assert!(!is_select_sql("wité"));
    assert!(is_select_sql("  select é"));
    assert_eq!(get_sql_type("start\u{3000}transaction"), "TRANSACTION");
    assert_eq!(get_sql_type("start transaction"), "TRANSACTION");
}

#[test]
fn db_type_names_parse_back() {
    let all = [
        DbType::MySQL, DbType::PostgreSQL, DbType::Oracle, DbType::SqlServer, DbType::DB2, DbType::H2,
        DbType::Informix, DbType::Oscar, DbType::GaussDB, DbType::ClickHouse, DbType::Doris,
        DbType::StarRocks, DbType::Teradata, DbType::Redshift, DbType::BigQuery, DbType::Snowflake,
        DbType::Synapse, DbType::Hologres, DbType::Hive, DbType::Spark, DbType::Presto, DbType::Impala,
        DbType::Athena, DbType::Blink, DbType::Databricks, DbType::Phoenix, DbType::SuperSQL,
        DbType::TransactSql, DbType::Other,
    ];
    for t in all {
        assert_eq!(DbType::parse(t.name()), t);
        assert_eq!(DbType::parse(&t.name().to_uppercase()), t);
    }
    assert_eq!(DbType::parse(DbType::DM.name()), DbType::Other);
    assert_eq!(DbType::parse(DbType::ODPS.name()), DbType::Other);
    assert_eq!(DbType::parse("nosuchdb"), DbType::Other);
}

#[test]
fn key_text_is_cut_or_padded() {
    let k = key_from_text("abc");
    assert_eq!(k.len(), 32);
    assert_eq!(&k[..3], b"abc");
    assert!(k[3..].iter().all(|b| *b == 0));
    let long = "x".repeat(40);
    assert_eq!(key_from_text(&long), vec![b'x'; 32]);
    assert_eq!(process_key(Some("abc")), k);
    assert_eq!(process_key(None).len(), 32);
}

#[test]
fn white_space_is_the_unicode_set() {
    assert_eq!(get_sql_type("\u{3000}select x"), "SELECT");
    assert_eq!(get_sql_type("\u{85}\u{a0}insert into t"), "INSERT");
    assert_eq!(get_sql_type("\u{200b}select x"), "OTHER");
    assert!(is_select_sql("\u{2028}\tselect 1"));
}
