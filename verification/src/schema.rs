//! The catalog: tables and columns built from `CREATE TABLE` statements,
//! with case-insensitive lookup.
//!
//! Table names are unique under case folding; a later definition of the
//! same name replaces the earlier one. A column that belongs to a primary
//! key is never nullable, whatever its inline options said.
use vstd::prelude::*;
use crate::ast::{
    ColumnDefAst, ColumnOptionAst, CreateTableAst, DdlStatement, DeclaredType,
    TableConstraintAst, last_ident_spec, last_ident,
};
use crate::error::{Error, ErrV};
use crate::text::{same_ident, eq_fold};
use crate::types::{PostgresType, STy, sty_of};

verus! {

/// A table column.
#[derive(Debug)]
pub struct Column {
    pub name: String,
    pub data_type: PostgresType,
    pub nullable: bool,
    pub has_default: bool,
    pub is_primary_key: bool,
    pub is_unique: bool,
}

/// Mathematical value of a `Column`.
pub struct ColumnV {
    pub name: Seq<char>,
    pub data_type: STy,
    pub nullable: bool,
    pub has_default: bool,
    pub is_primary_key: bool,
    pub is_unique: bool,
}

impl View for Column {
    type V = ColumnV;

    open spec fn view(&self) -> ColumnV {
        ColumnV {
            name: self.name@,
            data_type: sty_of(self.data_type),
            nullable: self.nullable,
            has_default: self.has_default,
            is_primary_key: self.is_primary_key,
            is_unique: self.is_unique,
        }
    }
}

/// A database table: its name and its columns, in declaration order.
#[derive(Debug)]
pub struct Table {
    pub name: String,
    pub columns: Vec<Column>,
}

/// Mathematical value of a `Table`.
pub struct TableV {
    pub name: Seq<char>,
    pub columns: Seq<ColumnV>,
}

/// The views of a sequence of columns.
pub open spec fn cols_view(cols: Seq<Column>) -> Seq<ColumnV> {
    cols.map_values(|c: Column| c@)
}

impl View for Table {
    type V = TableV;

    open spec fn view(&self) -> TableV {
        TableV { name: self.name@, columns: cols_view(self.columns@) }
    }
}

/// A schema: the tables loaded from DDL.
#[derive(Debug)]
pub struct Schema {
    tables: Vec<Table>,
}

/// The views of a sequence of tables.
pub open spec fn tables_view(tables: Seq<Table>) -> Seq<TableV> {
    tables.map_values(|t: Table| t@)
}

impl View for Schema {
    type V = Seq<TableV>;

    closed spec fn view(&self) -> Seq<TableV> {
        tables_view(self.tables@)
    }
}

// ---------------------------------------------------------------------------
// Lookup
// ---------------------------------------------------------------------------

/// First column whose name folds to the same identifier, if any.
pub open spec fn find_col_spec(cols: Seq<ColumnV>, name: Seq<char>) -> Option<int>
    decreases cols.len(),
{
    if cols.len() == 0 {
        None
    } else if same_ident(cols[0].name, name) {
        Some(0)
    } else {
        match find_col_spec(cols.drop_first(), name) {
            Some(i) => Some(i + 1),
            None => None,
        }
    }
}

/// First table whose name folds to the same identifier, if any.
pub open spec fn find_table_spec(tables: Seq<TableV>, name: Seq<char>) -> Option<int>
    decreases tables.len(),
{
    if tables.len() == 0 {
        None
    } else if same_ident(tables[0].name, name) {
        Some(0)
    } else {
        match find_table_spec(tables.drop_first(), name) {
            Some(i) => Some(i + 1),
            None => None,
        }
    }
}

pub proof fn lemma_find_col_props(cols: Seq<ColumnV>, name: Seq<char>)
    ensures
        find_col_spec(cols, name) matches Some(i) ==> 0 <= i < cols.len()
            && same_ident(cols[i].name, name),
        find_col_spec(cols, name) is None ==> forall|j: int|
            0 <= j < cols.len() ==> !same_ident(#[trigger] cols[j].name, name),
    decreases cols.len(),
{
    if cols.len() > 0 && !same_ident(cols[0].name, name) {
        lemma_find_col_props(cols.drop_first(), name);
        if find_col_spec(cols, name) is None {
            assert forall|j: int| 0 <= j < cols.len() implies !same_ident(
                #[trigger] cols[j].name,
                name,
            ) by {
                if j > 0 {
                    assert(cols.drop_first()[j - 1] == cols[j]);
                }
            }
        }
    }
}

pub proof fn lemma_find_table_props(tables: Seq<TableV>, name: Seq<char>)
    ensures
        find_table_spec(tables, name) matches Some(i) ==> 0 <= i < tables.len()
            && same_ident(tables[i].name, name),
        find_table_spec(tables, name) is None ==> forall|j: int|
            0 <= j < tables.len() ==> !same_ident(#[trigger] tables[j].name, name),
    decreases tables.len(),
{
    if tables.len() > 0 && !same_ident(tables[0].name, name) {
        lemma_find_table_props(tables.drop_first(), name);
        if find_table_spec(tables, name) is None {
            assert forall|j: int| 0 <= j < tables.len() implies !same_ident(
                #[trigger] tables[j].name,
                name,
            ) by {
                if j > 0 {
                    assert(tables.drop_first()[j - 1] == tables[j]);
                }
            }
        }
    }
}

proof fn lemma_find_col_iter(cols: Seq<ColumnV>, name: Seq<char>, i: int)
    requires
        0 <= i <= cols.len(),
        forall|j: int| 0 <= j < i ==> !same_ident(#[trigger] cols[j].name, name),
        i == cols.len() || same_ident(cols[i].name, name),
    ensures find_col_spec(cols, name) == if i == cols.len() { None } else { Some(i) },
    decreases i,
{
    if cols.len() == 0 {
    } else if i == 0 {
    } else {
        lemma_find_col_iter(cols.drop_first(), name, i - 1);
    }
}

proof fn lemma_find_table_iter(tables: Seq<TableV>, name: Seq<char>, i: int)
    requires
        0 <= i <= tables.len(),
        forall|j: int| 0 <= j < i ==> !same_ident(#[trigger] tables[j].name, name),
        i == tables.len() || same_ident(tables[i].name, name),
    ensures find_table_spec(tables, name) == if i == tables.len() { None } else { Some(i) },
    decreases i,
{
    if tables.len() == 0 {
    } else if i == 0 {
    } else {
        lemma_find_table_iter(tables.drop_first(), name, i - 1);
    }
}

/// Index of the first column named `name` (case-insensitive).
pub fn find_column_index(columns: &Vec<Column>, name: &str) -> (r: Option<usize>)
    ensures
        r matches Some(i) ==> find_col_spec(cols_view(columns@), name@) == Some(i as int),
        r is None ==> find_col_spec(cols_view(columns@), name@) is None,
{
    let n = columns.len();
    let mut i: usize = 0;
    while i < n
        invariant
            i <= n,
            n == columns@.len(),
            forall|j: int| 0 <= j < i ==> !same_ident(#[trigger] cols_view(columns@)[j].name, name@),
        decreases n - i,
    {
        if eq_fold(columns[i].name.as_str(), name) {
            proof {
                lemma_find_col_iter(cols_view(columns@), name@, i as int);
            }
            return Some(i);
        }
        i = i + 1;
    }
    proof {
        lemma_find_col_iter(cols_view(columns@), name@, n as int);
    }
    None
}

/// Index of the first table named `name` (case-insensitive).
fn find_table_index(tables: &Vec<Table>, name: &str) -> (r: Option<usize>)
    ensures
        r matches Some(i) ==> find_table_spec(tables_view(tables@), name@) == Some(i as int),
        r is None ==> find_table_spec(tables_view(tables@), name@) is None,
{
    let n = tables.len();
    let mut i: usize = 0;
    while i < n
        invariant
            i <= n,
            n == tables@.len(),
            forall|j: int| 0 <= j < i ==> !same_ident(#[trigger] tables_view(tables@)[j].name, name@),
        decreases n - i,
    {
        if eq_fold(tables[i].name.as_str(), name) {
            proof {
                lemma_find_table_iter(tables_view(tables@), name@, i as int);
            }
            return Some(i);
        }
        i = i + 1;
    }
    proof {
        lemma_find_table_iter(tables_view(tables@), name@, n as int);
    }
    None
}

// ---------------------------------------------------------------------------
// Building columns
// ---------------------------------------------------------------------------

/// The four column flags, as set by the options walk.
pub struct FlagsV {
    pub nullable: bool,
    pub has_default: bool,
    pub is_primary_key: bool,
    pub is_unique: bool,
}

/// One option applied to the flags.
pub open spec fn apply_option(f: FlagsV, o: ColumnOptionAst) -> FlagsV {
    match o {
        ColumnOptionAst::NotNull => FlagsV { nullable: false, ..f },
        ColumnOptionAst::Null => FlagsV { nullable: true, ..f },
        ColumnOptionAst::Default => FlagsV { has_default: true, ..f },
        ColumnOptionAst::PrimaryKey => FlagsV { is_primary_key: true, nullable: false, ..f },
        ColumnOptionAst::Unique => FlagsV { is_unique: true, ..f },
        ColumnOptionAst::Other => f,
    }
}

/// The flags after applying all options in declaration order. A column
/// starts nullable, with no default, key or uniqueness.
pub open spec fn spec_column_flags(opts: Seq<ColumnOptionAst>) -> FlagsV
    decreases opts.len(),
{
    if opts.len() == 0 {
        FlagsV { nullable: true, has_default: false, is_primary_key: false, is_unique: false }
    } else {
        apply_option(spec_column_flags(opts.drop_last()), opts.last())
    }
}

/// The SQL type a declared DDL type denotes; an array without an element
/// type cannot be loaded.
pub open spec fn declared_to_sty(d: DeclaredType) -> Result<STy, ErrV>
    decreases d,
{
    match d {
        DeclaredType::SmallInt => Ok(STy::SmallInt),
        DeclaredType::Integer => Ok(STy::Integer),
        DeclaredType::BigInt => Ok(STy::BigInt),
        DeclaredType::Real => Ok(STy::Real),
        DeclaredType::DoublePrecision => Ok(STy::DoublePrecision),
        DeclaredType::Numeric => Ok(STy::Numeric),
        DeclaredType::Text => Ok(STy::Text),
        DeclaredType::Varchar(n) => Ok(STy::Varchar(n)),
        DeclaredType::Char(n) => Ok(STy::Char(n)),
        DeclaredType::Bytea => Ok(STy::Bytea),
        DeclaredType::Boolean => Ok(STy::Boolean),
        DeclaredType::Timestamp { with_tz } => if with_tz {
            Ok(STy::TimestampTz)
        } else {
            Ok(STy::Timestamp)
        },
        DeclaredType::Date => Ok(STy::Date),
        DeclaredType::Time { with_tz } => if with_tz {
            Ok(STy::TimeTz)
        } else {
            Ok(STy::Time)
        },
        DeclaredType::Interval => Ok(STy::Interval),
        DeclaredType::Uuid => Ok(STy::Uuid),
        DeclaredType::Json => Ok(STy::Json),
        DeclaredType::Jsonb => Ok(STy::Jsonb),
        DeclaredType::Inet => Ok(STy::Inet),
        DeclaredType::Cidr => Ok(STy::Cidr),
        DeclaredType::MacAddr => Ok(STy::MacAddr),
        DeclaredType::Array(Some(inner)) => match declared_to_sty(*inner) {
            Ok(t) => Ok(STy::Array(Box::new(t))),
            Err(e) => Err(e),
        },
        DeclaredType::Array(None) => Err(ErrV::SchemaParse("Array with no element type"@)),
        DeclaredType::Custom(name) => Ok(STy::Custom(name@)),
        DeclaredType::Other(text) => Ok(STy::Custom(text@)),
    }
}

/// The column a definition yields.
pub open spec fn spec_column_from_def(cd: ColumnDefAst) -> Result<ColumnV, ErrV> {
    match declared_to_sty(cd.data_type) {
        Err(e) => Err(e),
        Ok(ty) => {
            let f = spec_column_flags(cd.options@);
            Ok(ColumnV {
                name: cd.name@,
                data_type: ty,
                nullable: f.nullable,
                has_default: f.has_default,
                is_primary_key: f.is_primary_key,
                is_unique: f.is_unique,
            })
        }
    }
}

/// The columns of a table, in declaration order; the first failure wins.
pub open spec fn spec_columns_from_defs(defs: Seq<ColumnDefAst>) -> Result<Seq<ColumnV>, ErrV>
    decreases defs.len(),
{
    if defs.len() == 0 {
        Ok(Seq::empty())
    } else {
        match spec_columns_from_defs(defs.drop_last()) {
            Err(e) => Err(e),
            Ok(cols) => match spec_column_from_def(defs.last()) {
                Err(e) => Err(e),
                Ok(c) => Ok(cols.push(c)),
            },
        }
    }
}

proof fn lemma_columns_err(defs: Seq<ColumnDefAst>, i: int)
    requires
        0 <= i <= defs.len(),
        spec_columns_from_defs(defs.take(i)) is Err,
    ensures spec_columns_from_defs(defs) == spec_columns_from_defs(defs.take(i)),
    decreases defs.len() - i,
{
    if i == defs.len() {
        assert(defs.take(i) =~= defs);
    } else {
        assert(defs.take(i + 1).drop_last() =~= defs.take(i));
        lemma_columns_err(defs, i + 1);
    }
}

// ---------------------------------------------------------------------------
// Out-of-line constraints
// ---------------------------------------------------------------------------

/// Mark the column called `name` as primary key, hence not nullable.
pub open spec fn mark_pk(cols: Seq<ColumnV>, name: Seq<char>) -> Seq<ColumnV> {
    match find_col_spec(cols, name) {
        Some(i) => cols.update(
            i,
            ColumnV { is_primary_key: true, nullable: false, ..cols[i] },
        ),
        None => cols,
    }
}

/// Mark the column called `name` as unique.
pub open spec fn mark_unique(cols: Seq<ColumnV>, name: Seq<char>) -> Seq<ColumnV> {
    match find_col_spec(cols, name) {
        Some(i) => cols.update(i, ColumnV { is_unique: true, ..cols[i] }),
        None => cols,
    }
}

/// Apply a primary-key column list, skipping parts that are not plain
/// identifiers.
pub open spec fn apply_pk_names(cols: Seq<ColumnV>, names: Seq<Option<String>>) -> Seq<ColumnV>
    decreases names.len(),
{
    if names.len() == 0 {
        cols
    } else {
        let prev = apply_pk_names(cols, names.drop_last());
        match names.last() {
            Some(n) => mark_pk(prev, n@),
            None => prev,
        }
    }
}

/// Apply a unique-constraint column list.
pub open spec fn apply_unique_names(cols: Seq<ColumnV>, names: Seq<Option<String>>) -> Seq<ColumnV>
    decreases names.len(),
{
    if names.len() == 0 {
        cols
    } else {
        let prev = apply_unique_names(cols, names.drop_last());
        match names.last() {
            Some(n) => mark_unique(prev, n@),
            None => prev,
        }
    }
}

/// Apply one out-of-line constraint.
pub open spec fn apply_constraint(cols: Seq<ColumnV>, c: TableConstraintAst) -> Seq<ColumnV> {
    match c {
        TableConstraintAst::PrimaryKey { columns } => apply_pk_names(cols, columns@),
        TableConstraintAst::Unique { columns } => apply_unique_names(cols, columns@),
        TableConstraintAst::Other => cols,
    }
}

/// Apply all out-of-line constraints in order.
pub open spec fn apply_constraints(cols: Seq<ColumnV>, cs: Seq<TableConstraintAst>) -> Seq<ColumnV>
    decreases cs.len(),
{
    if cs.len() == 0 {
        cols
    } else {
        apply_constraint(apply_constraints(cols, cs.drop_last()), cs.last())
    }
}

// ---------------------------------------------------------------------------
// Building tables and the schema
// ---------------------------------------------------------------------------

/// The table a `CREATE TABLE` statement yields. The name is the last
/// identifier part of the qualified name: schema qualification is dropped.
pub open spec fn spec_table_from_create(ct: CreateTableAst) -> Result<TableV, ErrV> {
    let name = match last_ident_spec(ct.name_parts@) {
        Some(n) => n,
        None => Seq::<char>::empty(),
    };
    match spec_columns_from_defs(ct.columns@) {
        Err(e) => Err(e),
        Ok(cols) => Ok(TableV { name: name, columns: apply_constraints(cols, ct.constraints@) }),
    }
}

/// Insert a table, replacing any table with the same folded name.
pub open spec fn spec_insert_table(tables: Seq<TableV>, t: TableV) -> Seq<TableV> {
    match find_table_spec(tables, t.name) {
        Some(i) => tables.update(i, t),
        None => tables.push(t),
    }
}

/// The schema a list of DDL statements yields: `CREATE TABLE` statements
/// in order, everything else ignored.
pub open spec fn spec_schema_from_statements(stmts: Seq<DdlStatement>) -> Result<Seq<TableV>, ErrV>
    decreases stmts.len(),
{
    if stmts.len() == 0 {
        Ok(Seq::empty())
    } else {
        match spec_schema_from_statements(stmts.drop_last()) {
            Err(e) => Err(e),
            Ok(tables) => match stmts.last() {
                DdlStatement::CreateTable(ct) => match spec_table_from_create(ct) {
                    Err(e) => Err(e),
                    Ok(t) => Ok(spec_insert_table(tables, t)),
                },
                DdlStatement::Other => Ok(tables),
            },
        }
    }
}

proof fn lemma_schema_err(stmts: Seq<DdlStatement>, i: int)
    requires
        0 <= i <= stmts.len(),
        spec_schema_from_statements(stmts.take(i)) is Err,
    ensures spec_schema_from_statements(stmts) == spec_schema_from_statements(stmts.take(i)),
    decreases stmts.len() - i,
{
    if i == stmts.len() {
        assert(stmts.take(i) =~= stmts);
    } else {
        assert(stmts.take(i + 1).drop_last() =~= stmts.take(i));
        lemma_schema_err(stmts, i + 1);
    }
}

/// Build one column from its definition.
fn column_from_def(cd: &ColumnDefAst) -> (r: Result<Column, Error>)
    ensures
        r matches Ok(c) ==> spec_column_from_def(*cd) == Result::<ColumnV, ErrV>::Ok(c@),
        r matches Err(e) ==> spec_column_from_def(*cd) == Result::<ColumnV, ErrV>::Err(e@),
{
    let data_type = match declared_to_postgres(&cd.data_type) {
        Ok(t) => t,
        Err(e) => {
            return Err(e);
        }
    };
    let n = cd.options.len();
    let mut nullable = true;
    let mut has_default = false;
    let mut is_primary_key = false;
    let mut is_unique = false;
    let mut i: usize = 0;
    while i < n
        invariant
            i <= n,
            n == cd.options@.len(),
            spec_column_flags(cd.options@.take(i as int)) == (FlagsV {
                nullable,
                has_default,
                is_primary_key,
                is_unique,
            }),
        decreases n - i,
    {
        proof {
            assert(cd.options@.take(i + 1).drop_last() =~= cd.options@.take(i as int));
        }
        match cd.options[i] {
            ColumnOptionAst::NotNull => {
                nullable = false;
            }
            ColumnOptionAst::Null => {
                nullable = true;
            }
            ColumnOptionAst::Default => {
                has_default = true;
            }
            ColumnOptionAst::PrimaryKey => {
                is_primary_key = true;
                nullable = false;
            }
            ColumnOptionAst::Unique => {
                is_unique = true;
            }
            ColumnOptionAst::Other => {}
        }
        i = i + 1;
    }
    proof {
        assert(cd.options@.take(n as int) =~= cd.options@);
    }
    Ok(Column {
        name: cd.name.clone(),
        data_type,
        nullable,
        has_default,
        is_primary_key,
        is_unique,
    })
}

/// Map a declared DDL type to a catalog type.
fn declared_to_postgres(d: &DeclaredType) -> (r: Result<PostgresType, Error>)
    ensures
        r matches Ok(t) ==> declared_to_sty(*d) == Result::<STy, ErrV>::Ok(sty_of(t)),
        r matches Err(e) ==> declared_to_sty(*d) == Result::<STy, ErrV>::Err(e@),
    decreases *d,
{
    match d {
        DeclaredType::SmallInt => Ok(PostgresType::SmallInt),
        DeclaredType::Integer => Ok(PostgresType::Integer),
        DeclaredType::BigInt => Ok(PostgresType::BigInt),
        DeclaredType::Real => Ok(PostgresType::Real),
        DeclaredType::DoublePrecision => Ok(PostgresType::DoublePrecision),
        DeclaredType::Numeric => Ok(PostgresType::Numeric),
        DeclaredType::Text => Ok(PostgresType::Text),
        DeclaredType::Varchar(n) => Ok(PostgresType::Varchar(*n)),
        DeclaredType::Char(n) => Ok(PostgresType::Char(*n)),
        DeclaredType::Bytea => Ok(PostgresType::Bytea),
        DeclaredType::Boolean => Ok(PostgresType::Boolean),
        DeclaredType::Timestamp { with_tz } => if *with_tz {
            Ok(PostgresType::TimestampTz)
        } else {
            Ok(PostgresType::Timestamp)
        },
        DeclaredType::Date => Ok(PostgresType::Date),
        DeclaredType::Time { with_tz } => if *with_tz {
            Ok(PostgresType::TimeTz)
        } else {
            Ok(PostgresType::Time)
        },
        DeclaredType::Interval => Ok(PostgresType::Interval),
        DeclaredType::Uuid => Ok(PostgresType::Uuid),
        DeclaredType::Json => Ok(PostgresType::Json),
        DeclaredType::Jsonb => Ok(PostgresType::Jsonb),
        DeclaredType::Inet => Ok(PostgresType::Inet),
        DeclaredType::Cidr => Ok(PostgresType::Cidr),
        DeclaredType::MacAddr => Ok(PostgresType::MacAddr),
        DeclaredType::Array(Some(inner)) => match declared_to_postgres(inner) {
            Ok(t) => Ok(PostgresType::Array(Box::new(t))),
            Err(e) => Err(e),
        },
        DeclaredType::Array(None) => Err(Error::SchemaParse(
            String::from_str("Array with no element type"),
        )),
        DeclaredType::Custom(name) => Ok(PostgresType::Custom(name.clone())),
        DeclaredType::Other(text) => Ok(PostgresType::Custom(text.clone())),
    }
}

/// Build a table from a `CREATE TABLE` statement.
pub fn table_from_create(ct: &CreateTableAst) -> (r: Result<Table, Error>)
    ensures
        r matches Ok(t) ==> spec_table_from_create(*ct) == Result::<TableV, ErrV>::Ok(t@),
        r matches Err(e) ==> spec_table_from_create(*ct) == Result::<TableV, ErrV>::Err(e@),
{
    let name: String = match last_ident(&ct.name_parts) {
        Some(s) => s.clone(),
        None => String::new(),
    };

    let n = ct.columns.len();
    let mut columns: Vec<Column> = Vec::new();
    proof {
        assert(ct.columns@.take(0) =~= Seq::<ColumnDefAst>::empty());
        assert(cols_view(columns@) =~= Seq::<ColumnV>::empty());
    }
    let mut i: usize = 0;
    while i < n
        invariant
            i <= n,
            n == ct.columns@.len(),
            spec_columns_from_defs(ct.columns@.take(i as int))
                == Result::<Seq<ColumnV>, ErrV>::Ok(cols_view(columns@)),
        decreases n - i,
    {
        proof {
            assert(ct.columns@.take(i + 1).drop_last() =~= ct.columns@.take(i as int));
            assert(ct.columns@.take(i + 1).last() == ct.columns@[i as int]);
        }
        match column_from_def(&ct.columns[i]) {
            Ok(c) => {
                let ghost prev = columns@;
                let ghost cv = c@;
                columns.push(c);
                proof {
                    assert(columns@ == prev.push(columns@.last()));
                    assert(cols_view(columns@) =~= cols_view(prev).push(cv));
                }
            }
            Err(e) => {
                proof {
                    lemma_columns_err(ct.columns@, i + 1);
                }
                return Err(e);
            }
        }
        i = i + 1;
    }
    proof {
        assert(ct.columns@.take(n as int) =~= ct.columns@);
    }

    let ghost base = cols_view(columns@);
    let m = ct.constraints.len();
    let mut k: usize = 0;
    while k < m
        invariant
            k <= m,
            m == ct.constraints@.len(),
            spec_columns_from_defs(ct.columns@) == Result::<Seq<ColumnV>, ErrV>::Ok(base),
            cols_view(columns@) == apply_constraints(base, ct.constraints@.take(k as int)),
        decreases m - k,
    {
        proof {
            assert(ct.constraints@.take(k + 1).drop_last() =~= ct.constraints@.take(k as int));
        }
        match &ct.constraints[k] {
            TableConstraintAst::PrimaryKey { columns: names } => {
                apply_pk_list(&mut columns, names);
            }
            TableConstraintAst::Unique { columns: names } => {
                apply_unique_list(&mut columns, names);
            }
            TableConstraintAst::Other => {}
        }
        k = k + 1;
    }
    proof {
        assert(ct.constraints@.take(m as int) =~= ct.constraints@);
    }

    Ok(Table { name, columns })
}

/// Mark every named column of a primary-key constraint.
fn apply_pk_list(columns: &mut Vec<Column>, names: &Vec<Option<String>>)
    ensures cols_view(final(columns)@) == apply_pk_names(cols_view(old(columns)@), names@),
{
    let n = names.len();
    let mut i: usize = 0;
    while i < n
        invariant
            i <= n,
            n == names@.len(),
            cols_view(columns@) == apply_pk_names(cols_view(old(columns)@), names@.take(i as int)),
            columns@.len() == old(columns)@.len(),
        decreases n - i,
    {
        proof {
            assert(names@.take(i + 1).drop_last() =~= names@.take(i as int));
        }
        match &names[i] {
            Some(name) => {
                match find_column_index(columns, name.as_str()) {
                    Some(idx) => {
                        proof {
                            lemma_find_col_props(cols_view(columns@), name@);
                        }
                        columns[idx].is_primary_key = true;
                        columns[idx].nullable = false;
                        proof {
                            assert(cols_view(columns@) =~= mark_pk(
                                apply_pk_names(cols_view(old(columns)@), names@.take(i as int)),
                                name@,
                            ));
                        }
                    }
                    None => {}
                }
            }
            None => {}
        }
        i = i + 1;
    }
    proof {
        assert(names@.take(n as int) =~= names@);
    }
}

/// Mark every named column of a unique constraint.
fn apply_unique_list(columns: &mut Vec<Column>, names: &Vec<Option<String>>)
    ensures cols_view(final(columns)@) == apply_unique_names(cols_view(old(columns)@), names@),
{
    let n = names.len();
    let mut i: usize = 0;
    while i < n
        invariant
            i <= n,
            n == names@.len(),
            cols_view(columns@) == apply_unique_names(
                cols_view(old(columns)@),
                names@.take(i as int),
            ),
            columns@.len() == old(columns)@.len(),
        decreases n - i,
    {
        proof {
            assert(names@.take(i + 1).drop_last() =~= names@.take(i as int));
        }
        match &names[i] {
            Some(name) => {
                match find_column_index(columns, name.as_str()) {
                    Some(idx) => {
                        proof {
                            lemma_find_col_props(cols_view(columns@), name@);
                        }
                        columns[idx].is_unique = true;
                        proof {
                            assert(cols_view(columns@) =~= mark_unique(
                                apply_unique_names(
                                    cols_view(old(columns)@),
                                    names@.take(i as int),
                                ),
                                name@,
                            ));
                        }
                    }
                    None => {}
                }
            }
            None => {}
        }
        i = i + 1;
    }
    proof {
        assert(names@.take(n as int) =~= names@);
    }
}

impl Schema {
    /// An empty schema.
    pub fn new() -> (r: Schema)
        ensures r@ == Seq::<TableV>::empty(),
    {
        proof {
            assert(tables_view(Seq::empty()) =~= Seq::<TableV>::empty());
        }
        Schema { tables: Vec::new() }
    }

    /// Build the catalog from DDL statements: `CREATE TABLE` statements in
    /// order, everything else ignored; a repeated table name (under case
    /// folding) replaces the earlier table.
    pub fn from_statements(stmts: &Vec<DdlStatement>) -> (r: Result<Schema, Error>)
        ensures
            r matches Ok(s) ==> spec_schema_from_statements(stmts@)
                == Result::<Seq<TableV>, ErrV>::Ok(s@),
            r matches Err(e) ==> spec_schema_from_statements(stmts@)
                == Result::<Seq<TableV>, ErrV>::Err(e@),
    {
        let n = stmts.len();
        let mut tables: Vec<Table> = Vec::new();
        proof {
            assert(stmts@.take(0) =~= Seq::<DdlStatement>::empty());
            assert(tables_view(tables@) =~= Seq::<TableV>::empty());
        }
        let mut i: usize = 0;
        while i < n
            invariant
                i <= n,
                n == stmts@.len(),
                spec_schema_from_statements(stmts@.take(i as int))
                    == Result::<Seq<TableV>, ErrV>::Ok(tables_view(tables@)),
            decreases n - i,
        {
            proof {
                assert(stmts@.take(i + 1).drop_last() =~= stmts@.take(i as int));
                assert(stmts@.take(i + 1).last() == stmts@[i as int]);
            }
            match &stmts[i] {
                DdlStatement::CreateTable(ct) => {
                    match table_from_create(ct) {
                        Ok(t) => {
                            let ghost pre = tables_view(tables@);
                            let ghost tv = t@;
                            match find_table_index(&tables, t.name.as_str()) {
                                Some(idx) => {
                                    proof {
                                        lemma_find_table_props(pre, tv.name);
                                    }
                                    tables[idx] = t;
                                    proof {
                                        assert(tables_view(tables@) =~= pre.update(idx as int, tv));
                                        assert(spec_insert_table(pre, tv) == pre.update(
                                            idx as int,
                                            tv,
                                        ));
                                    }
                                }
                                None => {
                                    tables.push(t);
                                    proof {
                                        assert(tables_view(tables@) =~= pre.push(tv));
                                        assert(spec_insert_table(pre, tv) == pre.push(tv));
                                    }
                                }
                            }
                        }
                        Err(e) => {
                            proof {
                                lemma_schema_err(stmts@, i + 1);
                            }
                            return Err(e);
                        }
                    }
                }
                DdlStatement::Other => {}
            }
            i = i + 1;
        }
        proof {
            assert(stmts@.take(n as int) =~= stmts@);
        }
        Ok(Schema { tables })
    }

    /// Look a table up by name, case-insensitively.
    pub fn get_table<'a>(&'a self, name: &str) -> (r: Option<&'a Table>)
        ensures
            r matches Some(t) ==> (find_table_spec(self@, name@) matches Some(i)
                && t@ == self@[i]),
            r is None ==> find_table_spec(self@, name@) is None,
    {
        match find_table_index(&self.tables, name) {
            Some(i) => {
                proof {
                    lemma_find_table_props(self@, name@);
                }
                Some(&self.tables[i])
            }
            None => None,
        }
    }

    /// Does a table of this name exist?
    pub fn has_table(&self, name: &str) -> (r: bool)
        ensures r == (find_table_spec(self@, name@) is Some),
    {
        match self.get_table(name) {
            Some(_) => true,
            None => false,
        }
    }

    /// The names of all tables, in catalog order.
    pub fn table_names(&self) -> (r: Vec<String>)
        ensures
            r@.len() == self@.len(),
            forall|i: int| 0 <= i < r@.len() ==> #[trigger] r@[i]@ == self@[i].name,
    {
        let n = self.tables.len();
        let mut out: Vec<String> = Vec::new();
        let mut i: usize = 0;
        while i < n
            invariant
                i <= n,
                n == self.tables@.len(),
                out@.len() == i,
                forall|j: int| 0 <= j < i ==> #[trigger] out@[j]@ == tables_view(self.tables@)[j].name,
            decreases n - i,
        {
            out.push(self.tables[i].name.clone());
            i = i + 1;
        }
        out
    }
}

// ---------------------------------------------------------------------------
// Dumping a catalog back to DDL statements
// ---------------------------------------------------------------------------

/// Does this declared DDL type denote exactly this SQL type?
pub open spec fn declared_denotes(d: DeclaredType, t: STy) -> bool
    decreases d,
{
    match d {
        DeclaredType::SmallInt => t is SmallInt,
        DeclaredType::Integer => t is Integer,
        DeclaredType::BigInt => t is BigInt,
        DeclaredType::Real => t is Real,
        DeclaredType::DoublePrecision => t is DoublePrecision,
        DeclaredType::Numeric => t is Numeric,
        DeclaredType::Text => t is Text,
        DeclaredType::Varchar(n) => t matches STy::Varchar(m) && m == n,
        DeclaredType::Char(n) => t matches STy::Char(m) && m == n,
        DeclaredType::Bytea => t is Bytea,
        DeclaredType::Boolean => t is Boolean,
        DeclaredType::Timestamp { with_tz } => if with_tz {
            t is TimestampTz
        } else {
            t is Timestamp
        },
        DeclaredType::Date => t is Date,
        DeclaredType::Time { with_tz } => if with_tz {
            t is TimeTz
        } else {
            t is Time
        },
        DeclaredType::Interval => t is Interval,
        DeclaredType::Uuid => t is Uuid,
        DeclaredType::Json => t is Json,
        DeclaredType::Jsonb => t is Jsonb,
        DeclaredType::Inet => t is Inet,
        DeclaredType::Cidr => t is Cidr,
        DeclaredType::MacAddr => t is MacAddr,
        DeclaredType::Array(Some(inner)) => t matches STy::Array(bt) && declared_denotes(
            *inner,
            *bt,
        ),
        DeclaredType::Array(None) => false,
        DeclaredType::Custom(nm) => t matches STy::Custom(c) && nm@ == c,
        DeclaredType::Other(_) => false,
    }
}

/// The canonical option list a dumped column definition carries: it
/// reproduces the column's flags when applied in order.
pub open spec fn canon_opts(c: ColumnV) -> Seq<ColumnOptionAst> {
    (if !c.nullable {
        seq![ColumnOptionAst::NotNull]
    } else {
        Seq::<ColumnOptionAst>::empty()
    }) + (if c.has_default {
        seq![ColumnOptionAst::Default]
    } else {
        Seq::<ColumnOptionAst>::empty()
    }) + (if c.is_primary_key {
        seq![ColumnOptionAst::PrimaryKey]
    } else {
        Seq::<ColumnOptionAst>::empty()
    }) + (if c.is_unique {
        seq![ColumnOptionAst::Unique]
    } else {
        Seq::<ColumnOptionAst>::empty()
    }) + (if c.nullable && c.is_primary_key {
        seq![ColumnOptionAst::Null]
    } else {
        Seq::<ColumnOptionAst>::empty()
    })
}

/// Does this column definition denote exactly this column?
pub open spec fn def_denotes(cd: ColumnDefAst, c: ColumnV) -> bool {
    cd.name@ == c.name && declared_denotes(cd.data_type, c.data_type) && cd.options@
        == canon_opts(c)
}

/// Does this `CREATE TABLE` statement denote exactly this table?
pub open spec fn create_denotes(ct: CreateTableAst, t: TableV) -> bool {
    ct.name_parts@.len() == 1 && (ct.name_parts@[0] matches Some(s) && s@ == t.name)
        && ct.constraints@.len() == 0 && ct.columns@.len() == t.columns.len() && forall|k: int|
        0 <= k < t.columns.len() ==> def_denotes(#[trigger] ct.columns@[k], t.columns[k])
}

/// Is this statement list a dump of this catalog: one `CREATE TABLE` per
/// table, in catalog order?
pub open spec fn is_dump_of(stmts: Seq<DdlStatement>, s: Seq<TableV>) -> bool {
    stmts.len() == s.len() && forall|i: int|
        0 <= i < s.len() ==> (#[trigger] stmts[i] matches DdlStatement::CreateTable(ct)
            && create_denotes(ct, s[i]))
}

/// A declared DDL type denoting this catalog type.
fn postgres_to_declared(t: &PostgresType) -> (r: DeclaredType)
    ensures declared_denotes(r, t@),
    decreases *t,
{
    match t {
        PostgresType::SmallInt => DeclaredType::SmallInt,
        PostgresType::Integer => DeclaredType::Integer,
        PostgresType::BigInt => DeclaredType::BigInt,
        PostgresType::Real => DeclaredType::Real,
        PostgresType::DoublePrecision => DeclaredType::DoublePrecision,
        PostgresType::Numeric => DeclaredType::Numeric,
        PostgresType::Text => DeclaredType::Text,
        PostgresType::Varchar(n) => DeclaredType::Varchar(*n),
        PostgresType::Char(n) => DeclaredType::Char(*n),
        PostgresType::Bytea => DeclaredType::Bytea,
        PostgresType::Boolean => DeclaredType::Boolean,
        PostgresType::Timestamp => DeclaredType::Timestamp { with_tz: false },
        PostgresType::TimestampTz => DeclaredType::Timestamp { with_tz: true },
        PostgresType::Date => DeclaredType::Date,
        PostgresType::Time => DeclaredType::Time { with_tz: false },
        PostgresType::TimeTz => DeclaredType::Time { with_tz: true },
        PostgresType::Interval => DeclaredType::Interval,
        PostgresType::Uuid => DeclaredType::Uuid,
        PostgresType::Json => DeclaredType::Json,
        PostgresType::Jsonb => DeclaredType::Jsonb,
        PostgresType::Inet => DeclaredType::Inet,
        PostgresType::Cidr => DeclaredType::Cidr,
        PostgresType::MacAddr => DeclaredType::MacAddr,
        PostgresType::Array(inner) => DeclaredType::Array(Some(Box::new(postgres_to_declared(
            inner,
        )))),
        PostgresType::Custom(name) => DeclaredType::Custom(name.clone()),
    }
}

/// The canonical option list for one column.
fn dump_column_options(c: &Column) -> (r: Vec<ColumnOptionAst>)
    ensures r@ == canon_opts(c@),
{
    let mut out: Vec<ColumnOptionAst> = Vec::new();
    let ghost s0 = out@;
    if !c.nullable {
        out.push(ColumnOptionAst::NotNull);
    }
    let ghost s1 = out@;
    proof {
        if !c.nullable {
            assert(s1 =~= s0 + seq![ColumnOptionAst::NotNull]);
        } else {
            assert(s1 =~= s0 + Seq::<ColumnOptionAst>::empty());
        }
    }
    if c.has_default {
        out.push(ColumnOptionAst::Default);
    }
    let ghost s2 = out@;
    proof {
        if c.has_default {
            assert(s2 =~= s1 + seq![ColumnOptionAst::Default]);
        } else {
            assert(s2 =~= s1 + Seq::<ColumnOptionAst>::empty());
        }
    }
    if c.is_primary_key {
        out.push(ColumnOptionAst::PrimaryKey);
    }
    let ghost s3 = out@;
    proof {
        if c.is_primary_key {
            assert(s3 =~= s2 + seq![ColumnOptionAst::PrimaryKey]);
        } else {
            assert(s3 =~= s2 + Seq::<ColumnOptionAst>::empty());
        }
    }
    if c.is_unique {
        out.push(ColumnOptionAst::Unique);
    }
    let ghost s4 = out@;
    proof {
        if c.is_unique {
            assert(s4 =~= s3 + seq![ColumnOptionAst::Unique]);
        } else {
            assert(s4 =~= s3 + Seq::<ColumnOptionAst>::empty());
        }
    }
    if c.nullable && c.is_primary_key {
        out.push(ColumnOptionAst::Null);
    }
    proof {
        if c.nullable && c.is_primary_key {
            assert(out@ =~= s4 + seq![ColumnOptionAst::Null]);
        } else {
            assert(out@ =~= s4 + Seq::<ColumnOptionAst>::empty());
        }
    }
    out
}

impl Schema {
    /// Render the catalog back into DDL statements: one `CREATE TABLE`
    /// per table with canonical column options, in catalog order.
    pub fn dump_statements(&self) -> (r: Vec<DdlStatement>)
        ensures is_dump_of(r@, self@),
    {
        let n = self.tables.len();
        let mut out: Vec<DdlStatement> = Vec::new();
        let mut i: usize = 0;
        while i < n
            invariant
                i <= n,
                n == self.tables@.len(),
                out@.len() == i,
                forall|j: int| 0 <= j < i ==> (#[trigger] out@[j] matches
                    DdlStatement::CreateTable(ct) && create_denotes(
                    ct,
                    tables_view(self.tables@)[j],
                )),
            decreases n - i,
        {
            let t = &self.tables[i];
            let m = t.columns.len();
            let mut defs: Vec<ColumnDefAst> = Vec::new();
            let mut k: usize = 0;
            while k < m
                invariant
                    k <= m,
                    m == t.columns@.len(),
                    defs@.len() == k,
                    forall|j: int| 0 <= j < k ==> def_denotes(
                        #[trigger] defs@[j],
                        cols_view(t.columns@)[j],
                    ),
                decreases m - k,
            {
                let col = &t.columns[k];
                let def = ColumnDefAst {
                    name: col.name.clone(),
                    data_type: postgres_to_declared(&col.data_type),
                    options: dump_column_options(col),
                };
                defs.push(def);
                k = k + 1;
            }
            let mut name_parts: Vec<Option<String>> = Vec::new();
            name_parts.push(Some(t.name.clone()));
            let ct = CreateTableAst { name_parts, columns: defs, constraints: Vec::new() };
            proof {
                assert(ct.constraints@ =~= Seq::<TableConstraintAst>::empty());
                assert(create_denotes(ct, tables_view(self.tables@)[i as int]));
            }
            out.push(DdlStatement::CreateTable(ct));
            i = i + 1;
        }
        out
    }
}

impl Column {
    /// A fresh column with the same mathematical content.
    pub fn duplicate(&self) -> (r: Column)
        ensures r@ == self@,
    {
        Column {
            name: self.name.clone(),
            data_type: self.data_type.duplicate(),
            nullable: self.nullable,
            has_default: self.has_default,
            is_primary_key: self.is_primary_key,
            is_unique: self.is_unique,
        }
    }
}

impl Table {
    /// Look a column up by name, case-insensitively.
    pub fn get_column<'a>(&'a self, name: &str) -> (r: Option<&'a Column>)
        ensures
            r matches Some(c) ==> (find_col_spec(self@.columns, name@) matches Some(i)
                && c@ == self@.columns[i]),
            r is None ==> find_col_spec(self@.columns, name@) is None,
    {
        match find_column_index(&self.columns, name) {
            Some(i) => {
                proof {
                    lemma_find_col_props(self@.columns, name@);
                }
                Some(&self.columns[i])
            }
            None => None,
        }
    }

    /// Does a column of this name exist?
    pub fn has_column(&self, name: &str) -> (r: bool)
        ensures r == (find_col_spec(self@.columns, name@) is Some),
    {
        match self.get_column(name) {
            Some(_) => true,
            None => false,
        }
    }

    /// The names of all columns, in declaration order.
    pub fn column_names(&self) -> (r: Vec<String>)
        ensures
            r@.len() == self@.columns.len(),
            forall|i: int| 0 <= i < r@.len() ==> #[trigger] r@[i]@ == self@.columns[i].name,
    {
        let n = self.columns.len();
        let mut out: Vec<String> = Vec::new();
        let mut i: usize = 0;
        while i < n
            invariant
                i <= n,
                n == self.columns@.len(),
                out@.len() == i,
                forall|j: int| 0 <= j < i ==> #[trigger] out@[j]@ == cols_view(self.columns@)[j].name,
            decreases n - i,
        {
            out.push(self.columns[i].name.clone());
            i = i + 1;
        }
        out
    }
}

} // verus!
