//! The type lattice: SQL column types, host-side logical types, the total
//! case-insensitive parser for SQL type names, and the fixed mapping between
//! the two enumerations.
use vstd::prelude::*;
use crate::text::{
    fold_seq, trim_seq, starts_with, ends_with, parse_u32_spec, lemma_fold_seq_len,
    lemma_trim_len, fold_string, trim_str, eq_str, starts_with_str, ends_with_str,
    parse_u32_range,
};

verus! {

/// PostgreSQL data types understood by the catalog.
#[derive(Debug, PartialEq, Eq)]
pub enum PostgresType {
    SmallInt,
    Integer,
    BigInt,
    Real,
    DoublePrecision,
    Numeric,
    Text,
    Varchar(Option<u32>),
    Char(Option<u32>),
    Bytea,
    Boolean,
    Timestamp,
    TimestampTz,
    Date,
    Time,
    TimeTz,
    Interval,
    Uuid,
    Json,
    Jsonb,
    Inet,
    Cidr,
    MacAddr,
    Array(Box<PostgresType>),
    Custom(String),
}

/// Mathematical value of a `PostgresType`: the same shape with names as
/// character sequences.
pub enum STy {
    SmallInt,
    Integer,
    BigInt,
    Real,
    DoublePrecision,
    Numeric,
    Text,
    Varchar(Option<u32>),
    Char(Option<u32>),
    Bytea,
    Boolean,
    Timestamp,
    TimestampTz,
    Date,
    Time,
    TimeTz,
    Interval,
    Uuid,
    Json,
    Jsonb,
    Inet,
    Cidr,
    MacAddr,
    Array(Box<STy>),
    Custom(Seq<char>),
}

/// Mathematical value of a `PostgresType`.
pub open spec fn sty_of(t: PostgresType) -> STy
    decreases t,
{
    match t {
            PostgresType::SmallInt => STy::SmallInt,
            PostgresType::Integer => STy::Integer,
            PostgresType::BigInt => STy::BigInt,
            PostgresType::Real => STy::Real,
            PostgresType::DoublePrecision => STy::DoublePrecision,
            PostgresType::Numeric => STy::Numeric,
            PostgresType::Text => STy::Text,
            PostgresType::Varchar(n) => STy::Varchar(n),
            PostgresType::Char(n) => STy::Char(n),
            PostgresType::Bytea => STy::Bytea,
            PostgresType::Boolean => STy::Boolean,
            PostgresType::Timestamp => STy::Timestamp,
            PostgresType::TimestampTz => STy::TimestampTz,
            PostgresType::Date => STy::Date,
            PostgresType::Time => STy::Time,
            PostgresType::TimeTz => STy::TimeTz,
            PostgresType::Interval => STy::Interval,
            PostgresType::Uuid => STy::Uuid,
            PostgresType::Json => STy::Json,
            PostgresType::Jsonb => STy::Jsonb,
            PostgresType::Inet => STy::Inet,
            PostgresType::Cidr => STy::Cidr,
            PostgresType::MacAddr => STy::MacAddr,
            PostgresType::Array(inner) => STy::Array(Box::new(sty_of(*inner))),
            PostgresType::Custom(name) => STy::Custom(name@),
        }
    }

impl View for PostgresType {
    type V = STy;

    open spec fn view(&self) -> STy {
        sty_of(*self)
    }
}

/// Host-side logical types assigned to query result columns.
#[derive(Debug, PartialEq, Eq)]
pub enum RustType {
    I16,
    I32,
    I64,
    F32,
    F64,
    Decimal,
    String,
    VecU8,
    Bool,
    DateTime,
    Date,
    Time,
    Duration,
    Uuid,
    JsonValue,
    IpAddr,
    Vec(Box<RustType>),
    Option(Box<RustType>),
    Custom(String),
}

/// Mathematical value of a `RustType`.
pub enum LTy {
    I16,
    I32,
    I64,
    F32,
    F64,
    Decimal,
    String,
    VecU8,
    Bool,
    DateTime,
    Date,
    Time,
    Duration,
    Uuid,
    JsonValue,
    IpAddr,
    Vec(Box<LTy>),
    Option(Box<LTy>),
    Custom(Seq<char>),
}

/// Mathematical value of a `RustType`.
pub open spec fn lty_of(t: RustType) -> LTy
    decreases t,
{
    match t {
            RustType::I16 => LTy::I16,
            RustType::I32 => LTy::I32,
            RustType::I64 => LTy::I64,
            RustType::F32 => LTy::F32,
            RustType::F64 => LTy::F64,
            RustType::Decimal => LTy::Decimal,
            RustType::String => LTy::String,
            RustType::VecU8 => LTy::VecU8,
            RustType::Bool => LTy::Bool,
            RustType::DateTime => LTy::DateTime,
            RustType::Date => LTy::Date,
            RustType::Time => LTy::Time,
            RustType::Duration => LTy::Duration,
            RustType::Uuid => LTy::Uuid,
            RustType::JsonValue => LTy::JsonValue,
            RustType::IpAddr => LTy::IpAddr,
            RustType::Vec(inner) => LTy::Vec(Box::new(lty_of(*inner))),
            RustType::Option(inner) => LTy::Option(Box::new(lty_of(*inner))),
            RustType::Custom(name) => LTy::Custom(name@),
        }
    }

impl View for RustType {
    type V = LTy;

    open spec fn view(&self) -> LTy {
        lty_of(*self)
    }
}

/// First position of `c` in `s`, if any.
pub open spec fn find_char_spec(s: Seq<char>, c: char) -> Option<int>
    decreases s.len(),
{
    if s.len() == 0 {
        None
    } else if s[0] == c {
        Some(0)
    } else {
        match find_char_spec(s.drop_first(), c) {
            Some(i) => Some(i + 1),
            None => None,
        }
    }
}

proof fn lemma_find_char(s: Seq<char>, c: char, i: int)
    requires
        0 <= i <= s.len(),
        forall|j: int| 0 <= j < i ==> s[j] != c,
        i == s.len() || s[i] == c,
    ensures find_char_spec(s, c) == if i == s.len() { None } else { Some(i) },
    decreases i,
{
    if s.len() == 0 {
    } else if i == 0 {
    } else {
        lemma_find_char(s.drop_first(), c, i - 1);
    }
}

/// First position of `c` in `s`, searching executable text.
pub fn find_char(s: &str, c: char) -> (r: Option<usize>)
    ensures
        r matches Some(i) ==> find_char_spec(s@, c) == Some(i as int),
        r is None ==> find_char_spec(s@, c) is None,
{
    let n = s.unicode_len();
    let mut i: usize = 0;
    while i < n
        invariant
            i <= n,
            n == s@.len(),
            forall|j: int| 0 <= j < i ==> s@[j] != c,
        decreases n - i,
    {
        if s.get_char(i) == c {
            proof {
                lemma_find_char(s@, c, i as int);
            }
            return Some(i);
        }
        i = i + 1;
    }
    proof {
        lemma_find_char(s@, c, n as int);
    }
    None
}

/// The length argument of a type name such as `varchar(255)`: the digits
/// between the first `(` and the first `)`, when both exist in that order.
pub open spec fn parse_length_spec(s: Seq<char>) -> Option<u32> {
    match find_char_spec(s, '(') {
        Some(lp) => match find_char_spec(s, ')') {
            Some(rp) => if lp + 1 <= rp {
                parse_u32_spec(s.subrange(lp + 1, rp))
            } else {
                None
            },
            None => None,
        },
        None => None,
    }
}

/// Parse a length qualifier out of a textual type name.
fn parse_length(s: &str) -> (r: Option<u32>)
    ensures r == parse_length_spec(s@),
{
    match find_char(s, '(') {
        Some(start) => match find_char(s, ')') {
            Some(end) => {
                proof {
                    lemma_find_char_bound(s@, '(', start as int);
                    lemma_find_char_bound(s@, ')', end as int);
                }
                if start < end {
                    parse_u32_range(s, start + 1, end)
                } else {
                    None
                }
            }
            None => None,
        },
        None => None,
    }
}

proof fn lemma_find_char_bound(s: Seq<char>, c: char, i: int)
    requires find_char_spec(s, c) == Some(i),
    ensures 0 <= i < s.len(),
    decreases s.len(),
{
    if s.len() == 0 {
    } else if s[0] == c {
    } else {
        match find_char_spec(s.drop_first(), c) {
            Some(j) => lemma_find_char_bound(s.drop_first(), c, j),
            None => {},
        }
    }
}

/// What the SQL type-name parser yields: a total function of the folded,
/// trimmed spelling. Unknown names become `Custom`.
pub open spec fn from_sql_name_spec(s: Seq<char>) -> STy
    decreases s.len(),
    via from_sql_name_spec_dec
{
    let t = trim_seq(fold_seq(s));
    if ends_with(t, "[]"@) {
        STy::Array(Box::new(from_sql_name_spec(t.take(t.len() - 2))))
    } else if ends_with(t, " array"@) {
        STy::Array(Box::new(from_sql_name_spec(t.take(t.len() - 6))))
    } else if t == "smallint"@ || t == "int2"@ {
        STy::SmallInt
    } else if t == "integer"@ || t == "int"@ || t == "int4"@ {
        STy::Integer
    } else if t == "bigint"@ || t == "int8"@ {
        STy::BigInt
    } else if t == "real"@ || t == "float4"@ {
        STy::Real
    } else if t == "double precision"@ || t == "float8"@ {
        STy::DoublePrecision
    } else if t == "numeric"@ || t == "decimal"@ {
        STy::Numeric
    } else if t == "text"@ {
        STy::Text
    } else if t == "character varying"@ || t == "varchar"@ {
        STy::Varchar(None)
    } else if t == "character"@ || t == "char"@ {
        STy::Char(None)
    } else if t == "bytea"@ {
        STy::Bytea
    } else if t == "boolean"@ || t == "bool"@ {
        STy::Boolean
    } else if t == "timestamp without time zone"@ || t == "timestamp"@ {
        STy::Timestamp
    } else if t == "timestamp with time zone"@ || t == "timestamptz"@ {
        STy::TimestampTz
    } else if t == "date"@ {
        STy::Date
    } else if t == "time without time zone"@ || t == "time"@ {
        STy::Time
    } else if t == "time with time zone"@ || t == "timetz"@ {
        STy::TimeTz
    } else if t == "interval"@ {
        STy::Interval
    } else if t == "uuid"@ {
        STy::Uuid
    } else if t == "json"@ {
        STy::Json
    } else if t == "jsonb"@ {
        STy::Jsonb
    } else if t == "inet"@ {
        STy::Inet
    } else if t == "cidr"@ {
        STy::Cidr
    } else if t == "macaddr"@ {
        STy::MacAddr
    } else if starts_with(t, "character varying"@) || starts_with(t, "varchar"@) {
        STy::Varchar(parse_length_spec(t))
    } else if starts_with(t, "character"@) || starts_with(t, "char"@) {
        STy::Char(parse_length_spec(t))
    } else {
        STy::Custom(t)
    }
}

#[via_fn]
proof fn from_sql_name_spec_dec(s: Seq<char>) {
    reveal_strlit("[]");
    reveal_strlit(" array");
    lemma_fold_seq_len(s);
    lemma_trim_len(fold_seq(s));
}

/// The fixed mapping from SQL types to logical types.
pub open spec fn sty_to_lty(t: STy) -> LTy
    decreases t,
{
    match t {
        STy::SmallInt => LTy::I16,
        STy::Integer => LTy::I32,
        STy::BigInt => LTy::I64,
        STy::Real => LTy::F32,
        STy::DoublePrecision => LTy::F64,
        STy::Numeric => LTy::Decimal,
        STy::Text => LTy::String,
        STy::Varchar(_) => LTy::String,
        STy::Char(_) => LTy::String,
        STy::Bytea => LTy::VecU8,
        STy::Boolean => LTy::Bool,
        STy::Timestamp => LTy::DateTime,
        STy::TimestampTz => LTy::DateTime,
        STy::Date => LTy::Date,
        STy::Time => LTy::Time,
        STy::TimeTz => LTy::Time,
        STy::Interval => LTy::Duration,
        STy::Uuid => LTy::Uuid,
        STy::Json => LTy::JsonValue,
        STy::Jsonb => LTy::JsonValue,
        STy::Inet => LTy::IpAddr,
        STy::Cidr => LTy::IpAddr,
        STy::MacAddr => LTy::String,
        STy::Array(elem) => LTy::Vec(Box::new(sty_to_lty(*elem))),
        STy::Custom(name) => LTy::Custom(name),
    }
}

/// `Nullable(t)`, normalized so that a type already nullable stays as it is.
pub open spec fn wrap_nullable(t: LTy) -> LTy {
    match t {
        LTy::Option(_) => t,
        _ => LTy::Option(Box::new(t)),
    }
}

/// `t` with one outer `Nullable` removed, if present.
pub open spec fn strip_nullable(t: LTy) -> LTy {
    match t {
        LTy::Option(inner) => *inner,
        _ => t,
    }
}

impl PostgresType {
    /// Parse a textual PostgreSQL type name. Case-insensitive and total:
    /// unknown names yield `Custom`.
    pub fn from_sql_name(name: &str) -> (r: PostgresType)
        ensures r@ == from_sql_name_spec(name@),
        decreases name@.len(),
    {
        let folded = fold_string(name);
        let t = trim_str(folded.as_str());
        proof {
            lemma_fold_seq_len(name@);
            lemma_trim_len(fold_seq(name@));
        }
        let tl = t.unicode_len();

        if ends_with_str(t, "[]") {
            proof {
                reveal_strlit("[]");
            }
            let base = t.substring_char(0, tl - 2);
            let elem = PostgresType::from_sql_name(base);
            return PostgresType::Array(Box::new(elem));
        }
        if ends_with_str(t, " array") {
            proof {
                reveal_strlit(" array");
            }
            let base = t.substring_char(0, tl - 6);
            let elem = PostgresType::from_sql_name(base);
            return PostgresType::Array(Box::new(elem));
        }

        if eq_str(t, "smallint") || eq_str(t, "int2") {
            PostgresType::SmallInt
        } else if eq_str(t, "integer") || eq_str(t, "int") || eq_str(t, "int4") {
            PostgresType::Integer
        } else if eq_str(t, "bigint") || eq_str(t, "int8") {
            PostgresType::BigInt
        } else if eq_str(t, "real") || eq_str(t, "float4") {
            PostgresType::Real
        } else if eq_str(t, "double precision") || eq_str(t, "float8") {
            PostgresType::DoublePrecision
        } else if eq_str(t, "numeric") || eq_str(t, "decimal") {
            PostgresType::Numeric
        } else if eq_str(t, "text") {
            PostgresType::Text
        } else if eq_str(t, "character varying") || eq_str(t, "varchar") {
            PostgresType::Varchar(None)
        } else if eq_str(t, "character") || eq_str(t, "char") {
            PostgresType::Char(None)
        } else if eq_str(t, "bytea") {
            PostgresType::Bytea
        } else if eq_str(t, "boolean") || eq_str(t, "bool") {
            PostgresType::Boolean
        } else if eq_str(t, "timestamp without time zone") || eq_str(t, "timestamp") {
            PostgresType::Timestamp
        } else if eq_str(t, "timestamp with time zone") || eq_str(t, "timestamptz") {
            PostgresType::TimestampTz
        } else if eq_str(t, "date") {
            PostgresType::Date
        } else if eq_str(t, "time without time zone") || eq_str(t, "time") {
            PostgresType::Time
        } else if eq_str(t, "time with time zone") || eq_str(t, "timetz") {
            PostgresType::TimeTz
        } else if eq_str(t, "interval") {
            PostgresType::Interval
        } else if eq_str(t, "uuid") {
            PostgresType::Uuid
        } else if eq_str(t, "json") {
            PostgresType::Json
        } else if eq_str(t, "jsonb") {
            PostgresType::Jsonb
        } else if eq_str(t, "inet") {
            PostgresType::Inet
        } else if eq_str(t, "cidr") {
            PostgresType::Cidr
        } else if eq_str(t, "macaddr") {
            PostgresType::MacAddr
        } else if starts_with_str(t, "character varying") || starts_with_str(t, "varchar") {
            PostgresType::Varchar(parse_length(t))
        } else if starts_with_str(t, "character") || starts_with_str(t, "char") {
            PostgresType::Char(parse_length(t))
        } else {
            let owned = t.to_owned();
            PostgresType::Custom(owned)
        }
    }

    /// A fresh value with the same mathematical content.
    pub fn duplicate(&self) -> (r: PostgresType)
        ensures r@ == self@,
        decreases self,
    {
        match self {
            PostgresType::SmallInt => PostgresType::SmallInt,
            PostgresType::Integer => PostgresType::Integer,
            PostgresType::BigInt => PostgresType::BigInt,
            PostgresType::Real => PostgresType::Real,
            PostgresType::DoublePrecision => PostgresType::DoublePrecision,
            PostgresType::Numeric => PostgresType::Numeric,
            PostgresType::Text => PostgresType::Text,
            PostgresType::Varchar(n) => PostgresType::Varchar(*n),
            PostgresType::Char(n) => PostgresType::Char(*n),
            PostgresType::Bytea => PostgresType::Bytea,
            PostgresType::Boolean => PostgresType::Boolean,
            PostgresType::Timestamp => PostgresType::Timestamp,
            PostgresType::TimestampTz => PostgresType::TimestampTz,
            PostgresType::Date => PostgresType::Date,
            PostgresType::Time => PostgresType::Time,
            PostgresType::TimeTz => PostgresType::TimeTz,
            PostgresType::Interval => PostgresType::Interval,
            PostgresType::Uuid => PostgresType::Uuid,
            PostgresType::Json => PostgresType::Json,
            PostgresType::Jsonb => PostgresType::Jsonb,
            PostgresType::Inet => PostgresType::Inet,
            PostgresType::Cidr => PostgresType::Cidr,
            PostgresType::MacAddr => PostgresType::MacAddr,
            PostgresType::Array(inner) => PostgresType::Array(Box::new(inner.duplicate())),
            PostgresType::Custom(name) => PostgresType::Custom(name.clone()),
        }
    }

    /// The logical type this SQL type maps to.
    pub fn to_rust_type(&self) -> (r: RustType)
        ensures r@ == sty_to_lty(self@),
        decreases self,
    {
        match self {
            PostgresType::SmallInt => RustType::I16,
            PostgresType::Integer => RustType::I32,
            PostgresType::BigInt => RustType::I64,
            PostgresType::Real => RustType::F32,
            PostgresType::DoublePrecision => RustType::F64,
            PostgresType::Numeric => RustType::Decimal,
            PostgresType::Text => RustType::String,
            PostgresType::Varchar(_) => RustType::String,
            PostgresType::Char(_) => RustType::String,
            PostgresType::Bytea => RustType::VecU8,
            PostgresType::Boolean => RustType::Bool,
            PostgresType::Timestamp => RustType::DateTime,
            PostgresType::TimestampTz => RustType::DateTime,
            PostgresType::Date => RustType::Date,
            PostgresType::Time => RustType::Time,
            PostgresType::TimeTz => RustType::Time,
            PostgresType::Interval => RustType::Duration,
            PostgresType::Uuid => RustType::Uuid,
            PostgresType::Json => RustType::JsonValue,
            PostgresType::Jsonb => RustType::JsonValue,
            PostgresType::Inet => RustType::IpAddr,
            PostgresType::Cidr => RustType::IpAddr,
            PostgresType::MacAddr => RustType::String,
            PostgresType::Array(elem) => RustType::Vec(Box::new(elem.to_rust_type())),
            PostgresType::Custom(name) => RustType::Custom(name.clone()),
        }
    }
}

/// The textual host type for each logical type, as emitted into generated
/// row structs.
pub open spec fn type_path_spec(t: LTy) -> Seq<char>
    decreases t,
{
    match t {
        LTy::I16 => "i16"@,
        LTy::I32 => "i32"@,
        LTy::I64 => "i64"@,
        LTy::F32 => "f32"@,
        LTy::F64 => "f64"@,
        LTy::Decimal => "rust_decimal::Decimal"@,
        LTy::String => "String"@,
        LTy::VecU8 => "Vec<u8>"@,
        LTy::Bool => "bool"@,
        LTy::DateTime => "chrono::DateTime<chrono::Utc>"@,
        LTy::Date => "chrono::NaiveDate"@,
        LTy::Time => "chrono::NaiveTime"@,
        LTy::Duration => "chrono::Duration"@,
        LTy::Uuid => "uuid::Uuid"@,
        LTy::JsonValue => "serde_json::Value"@,
        LTy::IpAddr => "std::net::IpAddr"@,
        LTy::Vec(inner) => "Vec<"@ + type_path_spec(*inner) + ">"@,
        LTy::Option(inner) => "Option<"@ + type_path_spec(*inner) + ">"@,
        LTy::Custom(name) => name,
    }
}

impl RustType {
    /// Wrap in `Nullable`, normalizing so a nullable type stays unchanged.
    pub fn nullable(self) -> (r: RustType)
        ensures r@ == wrap_nullable(self@),
    {
        match self {
            RustType::Option(inner) => RustType::Option(inner),
            other => RustType::Option(Box::new(other)),
        }
    }

    /// A fresh value with the same mathematical content.
    pub fn duplicate(&self) -> (r: RustType)
        ensures r@ == self@,
        decreases self,
    {
        match self {
            RustType::I16 => RustType::I16,
            RustType::I32 => RustType::I32,
            RustType::I64 => RustType::I64,
            RustType::F32 => RustType::F32,
            RustType::F64 => RustType::F64,
            RustType::Decimal => RustType::Decimal,
            RustType::String => RustType::String,
            RustType::VecU8 => RustType::VecU8,
            RustType::Bool => RustType::Bool,
            RustType::DateTime => RustType::DateTime,
            RustType::Date => RustType::Date,
            RustType::Time => RustType::Time,
            RustType::Duration => RustType::Duration,
            RustType::Uuid => RustType::Uuid,
            RustType::JsonValue => RustType::JsonValue,
            RustType::IpAddr => RustType::IpAddr,
            RustType::Vec(inner) => RustType::Vec(Box::new(inner.duplicate())),
            RustType::Option(inner) => RustType::Option(Box::new(inner.duplicate())),
            RustType::Custom(name) => RustType::Custom(name.clone()),
        }
    }

    /// The Rust type path used by code generation.
    pub fn type_path(&self) -> (r: String)
        ensures r@ == type_path_spec(self@),
        decreases self,
    {
        match self {
            RustType::I16 => String::from_str("i16"),
            RustType::I32 => String::from_str("i32"),
            RustType::I64 => String::from_str("i64"),
            RustType::F32 => String::from_str("f32"),
            RustType::F64 => String::from_str("f64"),
            RustType::Decimal => String::from_str("rust_decimal::Decimal"),
            RustType::String => String::from_str("String"),
            RustType::VecU8 => String::from_str("Vec<u8>"),
            RustType::Bool => String::from_str("bool"),
            RustType::DateTime => String::from_str("chrono::DateTime<chrono::Utc>"),
            RustType::Date => String::from_str("chrono::NaiveDate"),
            RustType::Time => String::from_str("chrono::NaiveTime"),
            RustType::Duration => String::from_str("chrono::Duration"),
            RustType::Uuid => String::from_str("uuid::Uuid"),
            RustType::JsonValue => String::from_str("serde_json::Value"),
            RustType::IpAddr => String::from_str("std::net::IpAddr"),
            RustType::Vec(inner) => {
                let mut out = String::from_str("Vec<");
                let ip = inner.type_path();
                out.append(ip.as_str());
                out.append(">");
                out
            }
            RustType::Option(inner) => {
                let mut out = String::from_str("Option<");
                let ip = inner.type_path();
                out.append(ip.as_str());
                out.append(">");
                out
            }
            RustType::Custom(name) => name.clone(),
        }
    }
}

} // verus!
