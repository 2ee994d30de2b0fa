//! The closed error taxonomy surfaced by schema loading and query
//! validation.
use vstd::prelude::*;

verus! {

/// The one-line diagnostic an error renders to.
pub open spec fn describe_spec(e: ErrV) -> Seq<char> {
    match e {
        ErrV::SchemaParse(m) => "Failed to parse schema: "@ + m,
        ErrV::QueryParse(m) => "Failed to parse query: "@ + m,
        ErrV::UnknownTable(m) => "Unknown table: "@ + m,
        ErrV::UnknownColumn { table, column } => "Unknown column '"@ + column + "' in table '"@
            + table + "'"@,
        ErrV::AmbiguousColumn(m) => "Ambiguous column '"@ + m
            + "' - exists in multiple tables"@,
        ErrV::TypeMismatch { expected, actual } => "Type mismatch: expected "@ + expected
            + ", got "@ + actual,
        ErrV::InvalidQuery(m) => "Invalid query: "@ + m,
        ErrV::Io(m) => "IO error: "@ + m,
    }
}

impl Error {
    /// The diagnostic for this error, as shown to a user.
    pub fn describe(&self) -> (r: String)
        ensures r@ == describe_spec(self@),
    {
        match self {
            Error::SchemaParse(m) => {
                let mut out = String::from_str("Failed to parse schema: ");
                out.append(m.as_str());
                out
            }
            Error::QueryParse(m) => {
                let mut out = String::from_str("Failed to parse query: ");
                out.append(m.as_str());
                out
            }
            Error::UnknownTable(m) => {
                let mut out = String::from_str("Unknown table: ");
                out.append(m.as_str());
                out
            }
            Error::UnknownColumn { table, column } => {
                let mut out = String::from_str("Unknown column '");
                out.append(column.as_str());
                out.append("' in table '");
                out.append(table.as_str());
                out.append("'");
                out
            }
            Error::AmbiguousColumn(m) => {
                let mut out = String::from_str("Ambiguous column '");
                out.append(m.as_str());
                out.append("' - exists in multiple tables");
                out
            }
            Error::TypeMismatch { expected, actual } => {
                let mut out = String::from_str("Type mismatch: expected ");
                out.append(expected.as_str());
                out.append(", got ");
                out.append(actual.as_str());
                out
            }
            Error::InvalidQuery(m) => {
                let mut out = String::from_str("Invalid query: ");
                out.append(m.as_str());
                out
            }
            Error::Io(m) => {
                let mut out = String::from_str("IO error: ");
                out.append(m.as_str());
                out
            }
        }
    }
}

/// Everything that schema loading or query validation can reject.
#[derive(Debug, PartialEq, Eq)]
pub enum Error {
    /// The schema DDL could not be parsed or holds an impossible shape.
    SchemaParse(String),
    /// The query string could not be parsed.
    QueryParse(String),
    /// A referenced table, alias or CTE is not in scope.
    UnknownTable(String),
    /// A column is not present in the named relation.
    UnknownColumn { table: String, column: String },
    /// An unqualified column name matches more than one relation in scope.
    AmbiguousColumn(String),
    /// Reserved for a future typing pass; never produced today.
    TypeMismatch { expected: String, actual: String },
    /// The statement has an unsupported kind or a structurally invalid shape.
    InvalidQuery(String),
    /// Reading the schema file failed; carries the cause's message.
    Io(String),
}

/// Mathematical value of an `Error`.
pub enum ErrV {
    SchemaParse(Seq<char>),
    QueryParse(Seq<char>),
    UnknownTable(Seq<char>),
    UnknownColumn { table: Seq<char>, column: Seq<char> },
    AmbiguousColumn(Seq<char>),
    TypeMismatch { expected: Seq<char>, actual: Seq<char> },
    InvalidQuery(Seq<char>),
    Io(Seq<char>),
}

impl View for Error {
    type V = ErrV;

    open spec fn view(&self) -> ErrV {
        match self {
            Error::SchemaParse(m) => ErrV::SchemaParse(m@),
            Error::QueryParse(m) => ErrV::QueryParse(m@),
            Error::UnknownTable(m) => ErrV::UnknownTable(m@),
            Error::UnknownColumn { table, column } => ErrV::UnknownColumn {
                table: table@,
                column: column@,
            },
            Error::AmbiguousColumn(m) => ErrV::AmbiguousColumn(m@),
            Error::TypeMismatch { expected, actual } => ErrV::TypeMismatch {
                expected: expected@,
                actual: actual@,
            },
            Error::InvalidQuery(m) => ErrV::InvalidQuery(m@),
            Error::Io(m) => ErrV::Io(m@),
        }
    }
}

} // verus!
