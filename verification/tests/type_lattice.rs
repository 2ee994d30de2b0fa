//! Unit tests for the type lattice, the SQL type-name parser, and the
//! code-generation helpers.
use sql_check::codegen::{count_placeholders, sanitize_field_name};
use sql_check::error::Error;
use sql_check::types::{PostgresType, RustType};

#[test]
fn test_postgres_type_parsing() {
    assert_eq!(
        PostgresType::from_sql_name("integer"),
        PostgresType::Integer
    );
    assert_eq!(PostgresType::from_sql_name("int4"), PostgresType::Integer);
    assert_eq!(PostgresType::from_sql_name("text"), PostgresType::Text);
    assert_eq!(PostgresType::from_sql_name("jsonb"), PostgresType::Jsonb);
    assert_eq!(PostgresType::from_sql_name("uuid"), PostgresType::Uuid);
    assert_eq!(
        PostgresType::from_sql_name("timestamp with time zone"),
        PostgresType::TimestampTz
    );
}

#[test]
fn test_array_types() {
    assert_eq!(
        PostgresType::from_sql_name("text[]"),
        PostgresType::Array(Box::new(PostgresType::Text))
    );
    assert_eq!(
        PostgresType::from_sql_name("integer[]"),
        PostgresType::Array(Box::new(PostgresType::Integer))
    );
}

#[test]
fn test_rust_type_mapping() {
    assert_eq!(PostgresType::Integer.to_rust_type(), RustType::I32);
    assert_eq!(PostgresType::Text.to_rust_type(), RustType::String);
    assert_eq!(PostgresType::Jsonb.to_rust_type(), RustType::JsonValue);
    assert_eq!(PostgresType::Uuid.to_rust_type(), RustType::Uuid);
}

#[test]
fn test_rust_type_path() {
    assert_eq!(RustType::I32.type_path(), "i32");
    assert_eq!(RustType::String.type_path(), "String");
    assert_eq!(RustType::JsonValue.type_path(), "serde_json::Value");
    assert_eq!(RustType::Uuid.type_path(), "uuid::Uuid");
    assert_eq!(
        RustType::Option(Box::new(RustType::String)).type_path(),
        "Option<String>"
    );
}

#[test]
fn test_type_parsing_is_case_insensitive() {
    assert_eq!(
        PostgresType::from_sql_name("INTEGER"),
        PostgresType::Integer
    );
    assert_eq!(
        PostgresType::from_sql_name("Timestamp With Time Zone"),
        PostgresType::TimestampTz
    );
    assert_eq!(PostgresType::from_sql_name("TEXT[]"),
        PostgresType::Array(Box::new(PostgresType::Text)));
}

#[test]
fn test_type_parsing_trims_whitespace() {
    assert_eq!(
        PostgresType::from_sql_name("  bigint  "),
        PostgresType::BigInt
    );
}

#[test]
fn test_varchar_length_parsing() {
    assert_eq!(
        PostgresType::from_sql_name("varchar(255)"),
        PostgresType::Varchar(Some(255))
    );
    assert_eq!(
        PostgresType::from_sql_name("character varying"),
        PostgresType::Varchar(None)
    );
    assert_eq!(
        PostgresType::from_sql_name("char(10)"),
        PostgresType::Char(Some(10))
    );
}

#[test]
fn test_array_keyword_suffix() {
    assert_eq!(
        PostgresType::from_sql_name("integer array"),
        PostgresType::Array(Box::new(PostgresType::Integer))
    );
}

#[test]
fn test_unknown_type_becomes_custom() {
    assert_eq!(
        PostgresType::from_sql_name("my_enum"),
        PostgresType::Custom(String::from("my_enum"))
    );
    assert_eq!(
        PostgresType::from_sql_name("MOOD"),
        PostgresType::Custom(String::from("mood"))
    );
}

#[test]
fn test_network_type_mapping() {
    assert_eq!(PostgresType::from_sql_name("inet"), PostgresType::Inet);
    assert_eq!(PostgresType::Inet.to_rust_type(), RustType::IpAddr);
    assert_eq!(PostgresType::MacAddr.to_rust_type(), RustType::String);
}

#[test]
fn test_nullable_wraps_once() {
    assert_eq!(
        RustType::String.nullable(),
        RustType::Option(Box::new(RustType::String))
    );
}

#[test]
fn test_nullable_is_normalizing() {
    let once = RustType::I32.nullable();
    let twice = RustType::I32.nullable().nullable();
    assert_eq!(once, twice);
}

#[test]
fn test_vec_type_path() {
    assert_eq!(
        RustType::Vec(Box::new(RustType::I32)).type_path(),
        "Vec<i32>"
    );
    assert_eq!(
        RustType::Option(Box::new(RustType::Vec(Box::new(RustType::String)))).type_path(),
        "Option<Vec<String>>"
    );
}

#[test]
fn test_count_placeholders_basic() {
    assert_eq!(count_placeholders("SELECT id FROM users WHERE id = $1"), 1);
    assert_eq!(
        count_placeholders("SELECT id FROM users WHERE name = $1 AND email = $2"),
        2
    );
}

#[test]
fn test_count_placeholders_takes_maximum() {
    assert_eq!(count_placeholders("$2 then $1"), 2);
    assert_eq!(count_placeholders("$10"), 10);
}

#[test]
fn test_count_placeholders_none() {
    assert_eq!(count_placeholders("SELECT id FROM users"), 0);
    assert_eq!(count_placeholders(""), 0);
    assert_eq!(count_placeholders("$"), 0);
    assert_eq!(count_placeholders("a$b"), 0);
}

#[test]
fn test_sanitize_keywords() {
    assert_eq!(sanitize_field_name("type"), "r#type");
    assert_eq!(sanitize_field_name("match"), "r#match");
}

#[test]
fn test_sanitize_replaces_foreign_characters() {
    assert_eq!(sanitize_field_name("user name"), "user_name");
    assert_eq!(sanitize_field_name("a-b!c"), "a_b_c");
}

#[test]
fn test_sanitize_leading_digit_and_empty() {
    assert_eq!(sanitize_field_name("1abc"), "_1abc");
    assert_eq!(sanitize_field_name(""), "_unnamed");
}

#[test]
fn test_count_placeholders_overflow_ignored() {
    // A number too large to parse is not a placeholder.
    assert_eq!(count_placeholders("$99999999999999999999999999"), 0);
    assert_eq!(count_placeholders("$99999999999999999999999999 and $3"), 3);
}

#[test]
fn test_error_describe() {
    assert_eq!(
        Error::UnknownTable(String::from("ghosts")).describe(),
        "Unknown table: ghosts"
    );
    assert_eq!(
        Error::UnknownColumn {
            table: String::from("users"),
            column: String::from("fake")
        }
        .describe(),
        "Unknown column 'fake' in table 'users'"
    );
    assert_eq!(
        Error::AmbiguousColumn(String::from("id")).describe(),
        "Ambiguous column 'id' - exists in multiple tables"
    );
}
