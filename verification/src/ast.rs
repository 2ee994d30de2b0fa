//! The statement shapes the validator works on.
//!
//! These types hold, as plain values, exactly what validation reads from a
//! parsed statement: identifiers, the statement structure, join kinds,
//! projection items and the expression forms with their own typing rules.
//! A qualified name is a list of parts; a part that is not a plain
//! identifier is `None`.
use vstd::prelude::*;

verus! {

// ---------------------------------------------------------------------------
// Schema definition statements
// ---------------------------------------------------------------------------

/// A column type as spelled in DDL.
#[derive(Debug)]
pub enum DeclaredType {
    SmallInt,
    Integer,
    BigInt,
    Real,
    DoublePrecision,
    Numeric,
    Text,
    Varchar(Option<u32>),
    Char(Option<u32>),
    Bytea,
    Boolean,
    /// `timestamp`, with or without time zone.
    Timestamp { with_tz: bool },
    Date,
    /// `time`, with or without time zone.
    Time { with_tz: bool },
    Interval,
    Uuid,
    Json,
    Jsonb,
    Inet,
    Cidr,
    MacAddr,
    /// An array type; `None` when the element type is absent.
    Array(Option<Box<DeclaredType>>),
    /// A user-defined type, by name.
    Custom(String),
    /// Any other type, carried by its rendered spelling.
    Other(String),
}

/// One option on a column definition.
#[derive(Debug)]
pub enum ColumnOptionAst {
    NotNull,
    Null,
    Default,
    PrimaryKey,
    Unique,
    Other,
}

/// One column of a `CREATE TABLE`.
#[derive(Debug)]
pub struct ColumnDefAst {
    pub name: String,
    pub data_type: DeclaredType,
    pub options: Vec<ColumnOptionAst>,
}

/// An out-of-line table constraint.
#[derive(Debug)]
pub enum TableConstraintAst {
    PrimaryKey { columns: Vec<Option<String>> },
    Unique { columns: Vec<Option<String>> },
    Other,
}

/// A `CREATE TABLE` statement.
#[derive(Debug)]
pub struct CreateTableAst {
    pub name_parts: Vec<Option<String>>,
    pub columns: Vec<ColumnDefAst>,
    pub constraints: Vec<TableConstraintAst>,
}

/// One top-level DDL statement; everything but `CREATE TABLE` is ignored.
#[derive(Debug)]
pub enum DdlStatement {
    CreateTable(CreateTableAst),
    Other,
}

// ---------------------------------------------------------------------------
// Query statements
// ---------------------------------------------------------------------------

/// A literal, by kind; validation needs no payloads.
#[derive(Debug)]
pub enum SqlValue {
    Number,
    SingleQuotedString,
    Boolean,
    Null,
    Other,
}

/// An expression, reduced to the forms the typing rules distinguish.
#[derive(Debug)]
pub enum SqlExpr {
    /// An unqualified column name.
    Identifier(String),
    /// A qualified name such as `alias.column`.
    CompoundIdentifier(Vec<String>),
    /// A function call; only the first plain expression argument matters
    /// for typing.
    Function { name_parts: Vec<Option<String>>, first_arg: Option<Box<SqlExpr>> },
    /// A literal value.
    Value(SqlValue),
    /// `CAST(e AS T)`, with the target type's rendered spelling.
    Cast { expr: Box<SqlExpr>, target_text: String },
    /// A binary operation; typed after its left operand.
    BinaryOp { left: Box<SqlExpr> },
    /// A parenthesized expression.
    Nested(Box<SqlExpr>),
    Extract,
    Ceil,
    Floor,
    Position,
    Substring,
    Trim,
    Overlay,
    /// Any other expression form.
    Other,
}

/// One item of a projection (`SELECT` or `RETURNING` list).
#[derive(Debug)]
pub enum SelectItemAst {
    UnnamedExpr(SqlExpr),
    ExprWithAlias { expr: SqlExpr, alias: String },
    Wildcard,
    QualifiedWildcard { name_parts: Vec<Option<String>> },
    /// A qualified wildcard whose qualifier is an expression.
    WildcardExpr,
}

/// The join operator, as written.
#[derive(Debug)]
pub enum JoinKindAst {
    Inner,
    Left,
    LeftOuter,
    LeftSemi,
    LeftAnti,
    Right,
    RightOuter,
    RightSemi,
    RightAnti,
    FullOuter,
    CrossJoin,
    Other,
}

/// One relation in a `FROM` clause.
#[derive(Debug)]
pub enum TableFactorAst {
    Table { name_parts: Vec<Option<String>>, alias: Option<String> },
    /// A derived table (subquery), tracked by alias only.
    Derived { alias: Option<String> },
    Other,
}

/// One join following the leading relation.
#[derive(Debug)]
pub struct JoinAst {
    pub relation: TableFactorAst,
    pub operator: JoinKindAst,
}

/// A leading relation with its chain of joins.
#[derive(Debug)]
pub struct TableWithJoinsAst {
    pub relation: TableFactorAst,
    pub joins: Vec<JoinAst>,
}

/// The body of a plain `SELECT`.
#[derive(Debug)]
pub struct SelectAst {
    pub projection: Vec<SelectItemAst>,
    pub from: Vec<TableWithJoinsAst>,
}

/// A set operator between two query bodies.
#[derive(Debug)]
pub enum SetOperatorAst {
    Union,
    Intersect,
    Except,
    Minus,
}

/// A query body: a `SELECT`, a set operation, or a nested query.
#[derive(Debug)]
pub enum SetExprAst {
    Select(Box<SelectAst>),
    SetOperation { op: SetOperatorAst, left: Box<SetExprAst>, right: Box<SetExprAst> },
    Query(Box<QueryAst>),
    Other,
}

/// One CTE of a `WITH` clause.
#[derive(Debug)]
pub struct CteAst {
    pub name: String,
    pub column_aliases: Vec<String>,
    pub query: Box<QueryAst>,
}

/// A full query: optional `WITH` clause and a body.
#[derive(Debug)]
pub struct QueryAst {
    pub ctes: Vec<CteAst>,
    pub body: SetExprAst,
}

/// The target of one `SET` assignment in an `UPDATE`.
#[derive(Debug)]
pub enum AssignTargetAst {
    ColumnName(Vec<Option<String>>),
    Tuple(Vec<Vec<Option<String>>>),
}

/// An `INSERT` statement.
#[derive(Debug)]
pub struct InsertAst {
    pub table_parts: Vec<Option<String>>,
    pub columns: Vec<String>,
    pub returning: Option<Vec<SelectItemAst>>,
}

/// An `UPDATE` statement.
#[derive(Debug)]
pub struct UpdateAst {
    pub table: TableFactorAst,
    pub assignments: Vec<AssignTargetAst>,
    pub returning: Option<Vec<SelectItemAst>>,
}

/// A `DELETE` statement.
#[derive(Debug)]
pub struct DeleteAst {
    pub from: Vec<TableWithJoinsAst>,
    pub returning: Option<Vec<SelectItemAst>>,
}

/// One parsed statement handed to the validator.
#[derive(Debug)]
pub enum SqlStatement {
    Query(Box<QueryAst>),
    Insert(InsertAst),
    Update(UpdateAst),
    Delete(DeleteAst),
    Other,
}

// ---------------------------------------------------------------------------
// Qualified-name helpers
// ---------------------------------------------------------------------------

/// The last part of a qualified name, when it is a plain identifier.
pub open spec fn last_ident_spec(parts: Seq<Option<String>>) -> Option<Seq<char>> {
    if parts.len() == 0 {
        None
    } else {
        match parts.last() {
            Some(s) => Some(s@),
            None => None,
        }
    }
}

/// The first part of a qualified name, when it is a plain identifier.
pub open spec fn first_ident_spec(parts: Seq<Option<String>>) -> Option<Seq<char>> {
    if parts.len() == 0 {
        None
    } else {
        match parts.first() {
            Some(s) => Some(s@),
            None => None,
        }
    }
}

/// The last identifier part of a qualified name.
pub fn last_ident<'a>(parts: &'a Vec<Option<String>>) -> (r: Option<&'a String>)
    ensures
        r matches Some(s) ==> last_ident_spec(parts@) == Some(s@),
        r is None ==> last_ident_spec(parts@) is None,
{
    if parts.len() == 0 {
        None
    } else {
        match &parts[parts.len() - 1] {
            Some(s) => Some(s),
            None => None,
        }
    }
}

/// The first identifier part of a qualified name.
pub fn first_ident<'a>(parts: &'a Vec<Option<String>>) -> (r: Option<&'a String>)
    ensures
        r matches Some(s) ==> first_ident_spec(parts@) == Some(s@),
        r is None ==> first_ident_spec(parts@) is None,
{
    if parts.len() == 0 {
        None
    } else {
        match &parts[0] {
            Some(s) => Some(s),
            None => None,
        }
    }
}

// ---------------------------------------------------------------------------
// Sizes, for termination of the recursive validator
// ---------------------------------------------------------------------------

/// Size of an expression tree.
pub open spec fn expr_size(e: SqlExpr) -> nat
    decreases e,
{
    match e {
        SqlExpr::Function { name_parts: _, first_arg: Some(b) } => 1 + expr_size(*b),
        SqlExpr::Cast { expr, target_text: _ } => 1 + expr_size(*expr),
        SqlExpr::BinaryOp { left } => 1 + expr_size(*left),
        SqlExpr::Nested(inner) => 1 + expr_size(*inner),
        _ => 1,
    }
}

/// Size of a query, counting its CTE bodies.
pub open spec fn query_size(q: QueryAst) -> nat
    decreases q,
{
    1 + cte_seq_size(q.ctes@) + set_expr_size(q.body)
}

/// Combined size of a sequence of CTEs.
pub open spec fn cte_seq_size(s: Seq<CteAst>) -> nat
    decreases s,
{
    if s.len() == 0 {
        0
    } else {
        1 + query_size(*s[0].query) + cte_seq_size(s.drop_first())
    }
}

/// Size of a query body.
pub open spec fn set_expr_size(e: SetExprAst) -> nat
    decreases e,
{
    match e {
        SetExprAst::Select(_) => 1,
        SetExprAst::SetOperation { op: _, left, right } => {
            1 + set_expr_size(*left) + set_expr_size(*right)
        }
        SetExprAst::Query(q) => 1 + query_size(*q),
        SetExprAst::Other => 1,
    }
}

/// Every CTE's body is smaller than the whole CTE list.
pub proof fn lemma_cte_seq_size_elem(s: Seq<CteAst>, i: int)
    requires 0 <= i < s.len(),
    ensures query_size(*s[i].query) < cte_seq_size(s),
    decreases i,
{
    if i == 0 {
    } else {
        lemma_cte_seq_size_elem(s.drop_first(), i - 1);
        assert(s.drop_first()[i - 1] == s[i]);
    }
}

} // verus!
