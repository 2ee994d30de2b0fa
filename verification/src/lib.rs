//! Static validation of SQL statements against a declared relational
//! schema, with nullable-aware result typing for code generation.
//!
//! The crate works on plain statement shapes (`ast`): a catalog is built
//! from `CREATE TABLE` statements (`schema`), a per-statement scope maps
//! aliases to relations and tracks outer-join nullability (`scope`), the
//! expression typer assigns each projected expression a name and a
//! logical type (`infer`, `types`), and the statement validator enforces
//! the shape rules for `SELECT`, set operations, `INSERT`, `UPDATE` and
//! `DELETE` (`validate`). Every function carries a contract against a
//! specification of the same rules, and `laws` states and proves the
//! properties that hold of them. Parsing SQL text into the statement
//! shapes is left to the caller.

use vstd::prelude::*;

pub mod ast;
pub mod casefold;
pub mod codegen;
pub mod error;
pub mod infer;
pub mod laws;
pub mod schema;
pub mod scope;
pub mod text;
pub mod types;
pub mod validate;

pub use error::Error;
pub use schema::{Column, Schema, Table};
pub use scope::{QueryColumn, QueryResult};
pub use types::{PostgresType, RustType};
pub use validate::validate_query;

verus! {

} // verus!
