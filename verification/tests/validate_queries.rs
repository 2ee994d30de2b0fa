//! End-to-end validation tests: SQL text is parsed with the real
//! PostgreSQL-dialect parser, converted to the crate's statement shapes,
//! and validated against a catalog.
use sql_check::ast::{
    AssignTargetAst, ColumnDefAst, ColumnOptionAst, CreateTableAst, CteAst, DdlStatement,
    DeclaredType, DeleteAst, InsertAst, JoinAst, JoinKindAst, QueryAst, SelectAst,
    SelectItemAst, SetExprAst, SetOperatorAst, SqlExpr, SqlStatement, SqlValue,
    TableConstraintAst, TableFactorAst, TableWithJoinsAst, UpdateAst,
};
use sql_check::error::Error;
use sql_check::schema::Schema;
use sql_check::scope::QueryResult;
use sql_check::types::RustType;
use sql_check::validate::validate_query;
use sqlparser::ast as sp;
use sqlparser::dialect::PostgreSqlDialect;
use sqlparser::parser::Parser;

fn ident_part(p: &sp::ObjectNamePart) -> Option<String> {
    p.as_ident().map(|i| i.value.clone())
}

fn name_parts(n: &sp::ObjectName) -> Vec<Option<String>> {
    n.0.iter().map(ident_part).collect()
}

fn last_part_string(n: &sp::ObjectName) -> String {
    n.0.last()
        .and_then(|p| p.as_ident())
        .map(|i| i.value.clone())
        .unwrap_or_default()
}

fn conv_char_len(l: &Option<sp::CharacterLength>) -> Option<u32> {
    match l {
        Some(sp::CharacterLength::IntegerLength { length, .. }) => Some(*length as u32),
        _ => None,
    }
}

fn conv_data_type(dt: &sp::DataType) -> DeclaredType {
    match dt {
        sp::DataType::SmallInt(_) => DeclaredType::SmallInt,
        sp::DataType::Int(_) | sp::DataType::Integer(_) => DeclaredType::Integer,
        sp::DataType::BigInt(_) => DeclaredType::BigInt,
        sp::DataType::Real => DeclaredType::Real,
        sp::DataType::Double(_) | sp::DataType::DoublePrecision => DeclaredType::DoublePrecision,
        sp::DataType::Numeric(_) | sp::DataType::Decimal(_) => DeclaredType::Numeric,
        sp::DataType::Text => DeclaredType::Text,
        sp::DataType::Varchar(l) | sp::DataType::CharacterVarying(l) => {
            DeclaredType::Varchar(conv_char_len(l))
        }
        sp::DataType::Char(l) | sp::DataType::Character(l) => {
            DeclaredType::Char(conv_char_len(l))
        }
        sp::DataType::Bytea => DeclaredType::Bytea,
        sp::DataType::Boolean | sp::DataType::Bool => DeclaredType::Boolean,
        sp::DataType::Timestamp(_, tz) => DeclaredType::Timestamp {
            with_tz: matches!(tz, sp::TimezoneInfo::WithTimeZone | sp::TimezoneInfo::Tz),
        },
        sp::DataType::Date => DeclaredType::Date,
        sp::DataType::Time(_, tz) => DeclaredType::Time {
            with_tz: matches!(tz, sp::TimezoneInfo::WithTimeZone | sp::TimezoneInfo::Tz),
        },
        sp::DataType::Interval { .. } => DeclaredType::Interval,
        sp::DataType::Uuid => DeclaredType::Uuid,
        sp::DataType::JSON => DeclaredType::Json,
        sp::DataType::JSONB => DeclaredType::Jsonb,
        sp::DataType::Array(inner) => match inner {
            sp::ArrayElemTypeDef::AngleBracket(d)
            | sp::ArrayElemTypeDef::SquareBracket(d, _)
            | sp::ArrayElemTypeDef::Parenthesis(d)
            | sp::ArrayElemTypeDef::Qualified(d, _) => {
                DeclaredType::Array(Some(Box::new(conv_data_type(d))))
            }
            sp::ArrayElemTypeDef::None => DeclaredType::Array(None),
        },
        sp::DataType::Custom(name, _) => DeclaredType::Custom(last_part_string(name)),
        other => DeclaredType::Other(format!("{:?}", other)),
    }
}

fn conv_column_option(o: &sp::ColumnOption) -> ColumnOptionAst {
    match o {
        sp::ColumnOption::NotNull => ColumnOptionAst::NotNull,
        sp::ColumnOption::Null => ColumnOptionAst::Null,
        sp::ColumnOption::Default(_) => ColumnOptionAst::Default,
        sp::ColumnOption::PrimaryKey(_) => ColumnOptionAst::PrimaryKey,
        sp::ColumnOption::Unique(_) => ColumnOptionAst::Unique,
        _ => ColumnOptionAst::Other,
    }
}

fn index_column_names(cols: &[sp::IndexColumn]) -> Vec<Option<String>> {
    cols.iter()
        .map(|c| match &c.column.expr {
            sp::Expr::Identifier(i) => Some(i.value.clone()),
            _ => None,
        })
        .collect()
}

fn conv_constraint(c: &sp::TableConstraint) -> TableConstraintAst {
    match c {
        sp::TableConstraint::PrimaryKey(pk) => TableConstraintAst::PrimaryKey {
            columns: index_column_names(&pk.columns),
        },
        sp::TableConstraint::Unique(u) => TableConstraintAst::Unique {
            columns: index_column_names(&u.columns),
        },
        _ => TableConstraintAst::Other,
    }
}

fn conv_ddl(stmt: &sp::Statement) -> DdlStatement {
    match stmt {
        sp::Statement::CreateTable(ct) => DdlStatement::CreateTable(CreateTableAst {
            name_parts: name_parts(&ct.name),
            columns: ct
                .columns
                .iter()
                .map(|cd| ColumnDefAst {
                    name: cd.name.value.clone(),
                    data_type: conv_data_type(&cd.data_type),
                    options: cd.options.iter().map(|o| conv_column_option(&o.option)).collect(),
                })
                .collect(),
            constraints: ct.constraints.iter().map(conv_constraint).collect(),
        }),
        _ => DdlStatement::Other,
    }
}

fn schema_of(sql: &str) -> Result<Schema, Error> {
    let dialect = PostgreSqlDialect {};
    let stmts = Parser::parse_sql(&dialect, sql)
        .map_err(|e| Error::SchemaParse(e.to_string()))?;
    let conv: Vec<DdlStatement> = stmts.iter().map(conv_ddl).collect();
    Schema::from_statements(&conv)
}

fn conv_expr(e: &sp::Expr) -> SqlExpr {
    match e {
        sp::Expr::Identifier(i) => SqlExpr::Identifier(i.value.clone()),
        sp::Expr::CompoundIdentifier(parts) => {
            SqlExpr::CompoundIdentifier(parts.iter().map(|i| i.value.clone()).collect())
        }
        sp::Expr::Function(f) => {
            let first_arg = match &f.args {
                sp::FunctionArguments::List(list) => match list.args.first() {
                    Some(sp::FunctionArg::Unnamed(sp::FunctionArgExpr::Expr(inner))) => {
                        Some(Box::new(conv_expr(inner)))
                    }
                    _ => None,
                },
                _ => None,
            };
            SqlExpr::Function { name_parts: name_parts(&f.name), first_arg }
        }
        sp::Expr::Value(v) => SqlExpr::Value(match &v.value {
            sp::Value::Number(_, _) => SqlValue::Number,
            sp::Value::SingleQuotedString(_) => SqlValue::SingleQuotedString,
            sp::Value::Boolean(_) => SqlValue::Boolean,
            sp::Value::Null => SqlValue::Null,
            _ => SqlValue::Other,
        }),
        sp::Expr::Cast { expr, data_type, .. } => SqlExpr::Cast {
            expr: Box::new(conv_expr(expr)),
            target_text: format!("{}", data_type),
        },
        sp::Expr::BinaryOp { left, .. } => SqlExpr::BinaryOp { left: Box::new(conv_expr(left)) },
        sp::Expr::Nested(inner) => SqlExpr::Nested(Box::new(conv_expr(inner))),
        sp::Expr::Extract { .. } => SqlExpr::Extract,
        sp::Expr::Ceil { .. } => SqlExpr::Ceil,
        sp::Expr::Floor { .. } => SqlExpr::Floor,
        sp::Expr::Position { .. } => SqlExpr::Position,
        sp::Expr::Substring { .. } => SqlExpr::Substring,
        sp::Expr::Trim { .. } => SqlExpr::Trim,
        sp::Expr::Overlay { .. } => SqlExpr::Overlay,
        _ => SqlExpr::Other,
    }
}

fn conv_item(item: &sp::SelectItem) -> SelectItemAst {
    match item {
        sp::SelectItem::UnnamedExpr(e) => SelectItemAst::UnnamedExpr(conv_expr(e)),
        sp::SelectItem::ExprWithAlias { expr, alias } => SelectItemAst::ExprWithAlias {
            expr: conv_expr(expr),
            alias: alias.value.clone(),
        },
        sp::SelectItem::Wildcard(_) => SelectItemAst::Wildcard,
        sp::SelectItem::QualifiedWildcard(kind, _) => match kind {
            sp::SelectItemQualifiedWildcardKind::ObjectName(n) => {
                SelectItemAst::QualifiedWildcard { name_parts: name_parts(n) }
            }
            sp::SelectItemQualifiedWildcardKind::Expr(_) => SelectItemAst::WildcardExpr,
        },
        _ => SelectItemAst::UnnamedExpr(SqlExpr::Other),
    }
}

fn conv_factor(f: &sp::TableFactor) -> TableFactorAst {
    match f {
        sp::TableFactor::Table { name, alias, .. } => TableFactorAst::Table {
            name_parts: name_parts(name),
            alias: alias.as_ref().map(|a| a.name.value.clone()),
        },
        sp::TableFactor::Derived { alias, .. } => TableFactorAst::Derived {
            alias: alias.as_ref().map(|a| a.name.value.clone()),
        },
        _ => TableFactorAst::Other,
    }
}

fn conv_join_op(o: &sp::JoinOperator) -> JoinKindAst {
    match o {
        sp::JoinOperator::Join(_) | sp::JoinOperator::Inner(_) => JoinKindAst::Inner,
        sp::JoinOperator::Left(_) => JoinKindAst::Left,
        sp::JoinOperator::LeftOuter(_) => JoinKindAst::LeftOuter,
        sp::JoinOperator::LeftSemi(_) => JoinKindAst::LeftSemi,
        sp::JoinOperator::LeftAnti(_) => JoinKindAst::LeftAnti,
        sp::JoinOperator::Right(_) => JoinKindAst::Right,
        sp::JoinOperator::RightOuter(_) => JoinKindAst::RightOuter,
        sp::JoinOperator::RightSemi(_) => JoinKindAst::RightSemi,
        sp::JoinOperator::RightAnti(_) => JoinKindAst::RightAnti,
        sp::JoinOperator::FullOuter(_) => JoinKindAst::FullOuter,
        sp::JoinOperator::CrossJoin(_) => JoinKindAst::CrossJoin,
        _ => JoinKindAst::Other,
    }
}

fn conv_twj(twj: &sp::TableWithJoins) -> TableWithJoinsAst {
    TableWithJoinsAst {
        relation: conv_factor(&twj.relation),
        joins: twj
            .joins
            .iter()
            .map(|j| JoinAst {
                relation: conv_factor(&j.relation),
                operator: conv_join_op(&j.join_operator),
            })
            .collect(),
    }
}

fn conv_set_expr(se: &sp::SetExpr) -> SetExprAst {
    match se {
        sp::SetExpr::Select(sel) => SetExprAst::Select(Box::new(SelectAst {
            projection: sel.projection.iter().map(conv_item).collect(),
            from: sel.from.iter().map(conv_twj).collect(),
        })),
        sp::SetExpr::SetOperation { op, left, right, .. } => SetExprAst::SetOperation {
            op: match op {
                sp::SetOperator::Union => SetOperatorAst::Union,
                sp::SetOperator::Intersect => SetOperatorAst::Intersect,
                sp::SetOperator::Except => SetOperatorAst::Except,
                sp::SetOperator::Minus => SetOperatorAst::Minus,
            },
            left: Box::new(conv_set_expr(left)),
            right: Box::new(conv_set_expr(right)),
        },
        sp::SetExpr::Query(q) => SetExprAst::Query(Box::new(conv_query(q))),
        _ => SetExprAst::Other,
    }
}

fn conv_query(q: &sp::Query) -> QueryAst {
    let ctes = match &q.with {
        Some(w) => w
            .cte_tables
            .iter()
            .map(|cte| CteAst {
                name: cte.alias.name.value.clone(),
                column_aliases: cte.alias.columns.iter().map(|c| c.name.value.clone()).collect(),
                query: Box::new(conv_query(&cte.query)),
            })
            .collect(),
        None => Vec::new(),
    };
    QueryAst { ctes, body: conv_set_expr(&q.body) }
}

fn conv_assign_target(t: &sp::AssignmentTarget) -> AssignTargetAst {
    match t {
        sp::AssignmentTarget::ColumnName(n) => AssignTargetAst::ColumnName(name_parts(n)),
        sp::AssignmentTarget::Tuple(ns) => {
            AssignTargetAst::Tuple(ns.iter().map(name_parts).collect())
        }
    }
}

fn conv_stmt(s: &sp::Statement) -> SqlStatement {
    match s {
        sp::Statement::Query(q) => SqlStatement::Query(Box::new(conv_query(q))),
        sp::Statement::Insert(ins) => SqlStatement::Insert(InsertAst {
            table_parts: match &ins.table {
                sp::TableObject::TableName(n) => name_parts(n),
                _ => Vec::new(),
            },
            columns: ins.columns.iter().map(last_part_string).collect(),
            returning: ins
                .returning
                .as_ref()
                .map(|items| items.iter().map(conv_item).collect()),
        }),
        sp::Statement::Update(u) => SqlStatement::Update(UpdateAst {
            table: conv_factor(&u.table.relation),
            assignments: u.assignments.iter().map(|a| conv_assign_target(&a.target)).collect(),
            returning: u
                .returning
                .as_ref()
                .map(|items| items.iter().map(conv_item).collect()),
        }),
        sp::Statement::Delete(d) => SqlStatement::Delete(DeleteAst {
            from: match &d.from {
                sp::FromTable::WithFromKeyword(v) | sp::FromTable::WithoutKeyword(v) => {
                    v.iter().map(conv_twj).collect()
                }
            },
            returning: d
                .returning
                .as_ref()
                .map(|items| items.iter().map(conv_item).collect()),
        }),
        _ => SqlStatement::Other,
    }
}

fn check(schema: &Schema, sql: &str) -> Result<QueryResult, Error> {
    let dialect = PostgreSqlDialect {};
    let stmts =
        Parser::parse_sql(&dialect, sql).map_err(|e| Error::QueryParse(e.to_string()))?;
    let conv: Vec<SqlStatement> = stmts.iter().map(conv_stmt).collect();
    validate_query(schema, &conv)
}

fn test_schema() -> Schema {
    schema_of(
        r#"
        CREATE TABLE users (
            id uuid NOT NULL,
            name text NOT NULL,
            email text NOT NULL,
            metadata jsonb NOT NULL DEFAULT '{}',
            CONSTRAINT users_pkey PRIMARY KEY (id)
        );

        CREATE TABLE profiles (
            id uuid NOT NULL,
            user_id uuid NOT NULL,
            bio text,
            avatar_url text,
            CONSTRAINT profiles_pkey PRIMARY KEY (id)
        );
    "#,
    )
    .unwrap()
}

#[test]
fn test_validate_simple_select() {
    let schema = test_schema();
    let result = check(&schema, "SELECT id, name FROM users").unwrap();

    assert_eq!(result.columns.len(), 2);
    assert_eq!(result.columns[0].name, "id");
    assert_eq!(result.columns[0].rust_type, RustType::Uuid);
    assert_eq!(result.columns[1].name, "name");
    assert_eq!(result.columns[1].rust_type, RustType::String);
}

#[test]
fn test_validate_select_with_alias() {
    let schema = test_schema();
    let result = check(&schema, "SELECT u.id, u.name as user_name FROM users u").unwrap();

    assert_eq!(result.columns.len(), 2);
    assert_eq!(result.columns[0].name, "id");
    assert_eq!(result.columns[1].name, "user_name");
}

#[test]
fn test_validate_left_join_nullability() {
    let schema = test_schema();
    let result = check(
        &schema,
        r#"
        SELECT u.id, u.name, p.bio
        FROM users u
        LEFT JOIN profiles p ON p.user_id = u.id
        "#,
    )
    .unwrap();

    assert_eq!(result.columns.len(), 3);
    assert_eq!(result.columns[0].rust_type, RustType::Uuid);
    assert_eq!(result.columns[1].rust_type, RustType::String);
    assert_eq!(
        result.columns[2].rust_type,
        RustType::Option(Box::new(RustType::String))
    );
}

#[test]
fn test_validate_count_aggregate() {
    let schema = test_schema();
    let result = check(&schema, "SELECT COUNT(*) FROM users").unwrap();

    assert_eq!(result.columns.len(), 1);
    assert_eq!(result.columns[0].rust_type, RustType::I64);
}

#[test]
fn test_validate_jsonb_column() {
    let schema = test_schema();
    let result = check(&schema, "SELECT id, metadata FROM users").unwrap();

    assert_eq!(result.columns.len(), 2);
    assert_eq!(result.columns[1].name, "metadata");
    assert_eq!(result.columns[1].rust_type, RustType::JsonValue);
}

#[test]
fn test_validate_unknown_table() {
    let schema = test_schema();
    let result = check(&schema, "SELECT * FROM nonexistent");

    assert!(matches!(result, Err(Error::UnknownTable(_))));
}

#[test]
fn test_validate_unknown_column() {
    let schema = test_schema();
    let result = check(&schema, "SELECT fake_column FROM users");

    assert!(matches!(result, Err(Error::UnknownColumn { .. })));
}

#[test]
fn test_validate_insert_returning() {
    let schema = test_schema();
    let result = check(
        &schema,
        "INSERT INTO users (id, name, email, metadata) VALUES ($1, $2, $3, $4) RETURNING id, name",
    )
    .unwrap();

    assert_eq!(result.columns.len(), 2);
    assert_eq!(result.columns[0].name, "id");
    assert_eq!(result.columns[0].rust_type, RustType::Uuid);
    assert_eq!(result.columns[1].name, "name");
    assert_eq!(result.columns[1].rust_type, RustType::String);
}

#[test]
fn test_validate_right_join_nullability() {
    let schema = test_schema();
    let result = check(
        &schema,
        r#"
        SELECT u.id, u.name, p.bio
        FROM users u
        RIGHT JOIN profiles p ON p.user_id = u.id
        "#,
    )
    .unwrap();

    assert_eq!(result.columns.len(), 3);
    assert_eq!(
        result.columns[0].rust_type,
        RustType::Option(Box::new(RustType::Uuid))
    );
    assert_eq!(
        result.columns[1].rust_type,
        RustType::Option(Box::new(RustType::String))
    );
    assert_eq!(
        result.columns[2].rust_type,
        RustType::Option(Box::new(RustType::String))
    );
}

#[test]
fn test_validate_right_join_non_nullable_column() {
    let schema = test_schema();
    let result = check(
        &schema,
        r#"
        SELECT u.id, p.id as profile_id
        FROM users u
        RIGHT JOIN profiles p ON p.user_id = u.id
        "#,
    )
    .unwrap();

    assert_eq!(result.columns.len(), 2);
    assert_eq!(
        result.columns[0].rust_type,
        RustType::Option(Box::new(RustType::Uuid))
    );
    assert_eq!(result.columns[1].rust_type, RustType::Uuid);
}

#[test]
fn test_validate_full_outer_join_nullability() {
    let schema = test_schema();
    let result = check(
        &schema,
        r#"
        SELECT u.id, u.name, p.id as profile_id, p.bio
        FROM users u
        FULL OUTER JOIN profiles p ON p.user_id = u.id
        "#,
    )
    .unwrap();

    assert_eq!(result.columns.len(), 4);
    assert_eq!(
        result.columns[0].rust_type,
        RustType::Option(Box::new(RustType::Uuid))
    );
    assert_eq!(
        result.columns[1].rust_type,
        RustType::Option(Box::new(RustType::String))
    );
    assert_eq!(
        result.columns[2].rust_type,
        RustType::Option(Box::new(RustType::Uuid))
    );
    assert_eq!(
        result.columns[3].rust_type,
        RustType::Option(Box::new(RustType::String))
    );
}

#[test]
fn test_validate_cross_join() {
    let schema = test_schema();
    let result = check(
        &schema,
        r#"
        SELECT u.id, u.name, p.id as profile_id
        FROM users u
        CROSS JOIN profiles p
        "#,
    )
    .unwrap();

    assert_eq!(result.columns.len(), 3);
    assert_eq!(result.columns[0].rust_type, RustType::Uuid);
    assert_eq!(result.columns[1].rust_type, RustType::String);
    assert_eq!(result.columns[2].rust_type, RustType::Uuid);
}

#[test]
fn test_validate_inner_join_not_nullable() {
    let schema = test_schema();
    let result = check(
        &schema,
        r#"
        SELECT u.id, u.name, p.id as profile_id
        FROM users u
        INNER JOIN profiles p ON p.user_id = u.id
        "#,
    )
    .unwrap();

    assert_eq!(result.columns.len(), 3);
    assert_eq!(result.columns[0].rust_type, RustType::Uuid);
    assert_eq!(result.columns[1].rust_type, RustType::String);
    assert_eq!(result.columns[2].rust_type, RustType::Uuid);
}

#[test]
fn test_validate_update_simple() {
    let schema = test_schema();
    let result = check(&schema, "UPDATE users SET name = 'Alice'").unwrap();

    assert_eq!(result.columns.len(), 0);
}

#[test]
fn test_validate_update_with_where() {
    let schema = test_schema();
    let result = check(&schema, "UPDATE users SET name = $1 WHERE id = $2").unwrap();

    assert_eq!(result.columns.len(), 0);
}

#[test]
fn test_validate_update_returning() {
    let schema = test_schema();
    let result = check(
        &schema,
        "UPDATE users SET name = $1 WHERE id = $2 RETURNING id, name",
    )
    .unwrap();

    assert_eq!(result.columns.len(), 2);
    assert_eq!(result.columns[0].name, "id");
    assert_eq!(result.columns[0].rust_type, RustType::Uuid);
    assert_eq!(result.columns[1].name, "name");
    assert_eq!(result.columns[1].rust_type, RustType::String);
}

#[test]
fn test_validate_update_returning_all() {
    let schema = test_schema();
    let result = check(
        &schema,
        "UPDATE users SET name = $1 WHERE id = $2 RETURNING *",
    )
    .unwrap();

    assert_eq!(result.columns.len(), 4);
    assert_eq!(result.columns[0].name, "id");
    assert_eq!(result.columns[1].name, "name");
    assert_eq!(result.columns[2].name, "email");
    assert_eq!(result.columns[3].name, "metadata");
}

#[test]
fn test_validate_update_unknown_column() {
    let schema = test_schema();
    let result = check(&schema, "UPDATE users SET nonexistent = 'value'");

    assert!(matches!(result, Err(Error::UnknownColumn { .. })));
}

#[test]
fn test_validate_update_unknown_table() {
    let schema = test_schema();
    let result = check(&schema, "UPDATE nonexistent SET name = 'value'");

    assert!(matches!(result, Err(Error::UnknownTable(_))));
}

#[test]
fn test_validate_delete_simple() {
    let schema = test_schema();
    let result = check(&schema, "DELETE FROM users").unwrap();

    assert_eq!(result.columns.len(), 0);
}

#[test]
fn test_validate_delete_with_where() {
    let schema = test_schema();
    let result = check(&schema, "DELETE FROM users WHERE id = $1").unwrap();

    assert_eq!(result.columns.len(), 0);
}

#[test]
fn test_validate_delete_returning() {
    let schema = test_schema();
    let result = check(
        &schema,
        "DELETE FROM users WHERE id = $1 RETURNING id, name",
    )
    .unwrap();

    assert_eq!(result.columns.len(), 2);
    assert_eq!(result.columns[0].name, "id");
    assert_eq!(result.columns[0].rust_type, RustType::Uuid);
    assert_eq!(result.columns[1].name, "name");
    assert_eq!(result.columns[1].rust_type, RustType::String);
}

#[test]
fn test_validate_delete_returning_all() {
    let schema = test_schema();
    let result = check(&schema, "DELETE FROM users WHERE id = $1 RETURNING *").unwrap();

    assert_eq!(result.columns.len(), 4);
}

#[test]
fn test_validate_delete_unknown_table() {
    let schema = test_schema();
    let result = check(&schema, "DELETE FROM nonexistent WHERE id = $1");

    assert!(matches!(result, Err(Error::UnknownTable(_))));
}

#[test]
fn test_validate_simple_cte() {
    let schema = test_schema();
    let result = check(
        &schema,
        r#"
        WITH active_users AS (
            SELECT id, name FROM users
        )
        SELECT id, name FROM active_users
        "#,
    )
    .unwrap();

    assert_eq!(result.columns.len(), 2);
    assert_eq!(result.columns[0].name, "id");
    assert_eq!(result.columns[0].rust_type, RustType::Uuid);
    assert_eq!(result.columns[1].name, "name");
    assert_eq!(result.columns[1].rust_type, RustType::String);
}

#[test]
fn test_validate_cte_with_alias() {
    let schema = test_schema();
    let result = check(
        &schema,
        r#"
        WITH active_users AS (
            SELECT id, name FROM users
        )
        SELECT au.id, au.name FROM active_users au
        "#,
    )
    .unwrap();

    assert_eq!(result.columns.len(), 2);
    assert_eq!(result.columns[0].name, "id");
    assert_eq!(result.columns[0].rust_type, RustType::Uuid);
    assert_eq!(result.columns[1].name, "name");
    assert_eq!(result.columns[1].rust_type, RustType::String);
}

#[test]
fn test_validate_cte_with_explicit_column_names() {
    let schema = test_schema();
    let result = check(
        &schema,
        r#"
        WITH user_info(user_id, user_name) AS (
            SELECT id, name FROM users
        )
        SELECT user_id, user_name FROM user_info
        "#,
    )
    .unwrap();

    assert_eq!(result.columns.len(), 2);
    assert_eq!(result.columns[0].name, "user_id");
    assert_eq!(result.columns[0].rust_type, RustType::Uuid);
    assert_eq!(result.columns[1].name, "user_name");
    assert_eq!(result.columns[1].rust_type, RustType::String);
}

#[test]
fn test_validate_cte_wildcard() {
    let schema = test_schema();
    let result = check(
        &schema,
        r#"
        WITH active_users AS (
            SELECT id, name FROM users
        )
        SELECT * FROM active_users
        "#,
    )
    .unwrap();

    assert_eq!(result.columns.len(), 2);
    assert_eq!(result.columns[0].name, "id");
    assert_eq!(result.columns[1].name, "name");
}

#[test]
fn test_validate_cte_qualified_wildcard() {
    let schema = test_schema();
    let result = check(
        &schema,
        r#"
        WITH active_users AS (
            SELECT id, name FROM users
        )
        SELECT active_users.* FROM active_users
        "#,
    )
    .unwrap();

    assert_eq!(result.columns.len(), 2);
    assert_eq!(result.columns[0].name, "id");
    assert_eq!(result.columns[1].name, "name");
}

#[test]
fn test_validate_cte_with_join() {
    let schema = test_schema();
    let result = check(
        &schema,
        r#"
        WITH user_profiles AS (
            SELECT u.id, u.name, p.bio
            FROM users u
            LEFT JOIN profiles p ON p.user_id = u.id
        )
        SELECT id, name, bio FROM user_profiles
        "#,
    )
    .unwrap();

    assert_eq!(result.columns.len(), 3);
    assert_eq!(result.columns[0].name, "id");
    assert_eq!(result.columns[0].rust_type, RustType::Uuid);
    assert_eq!(result.columns[1].name, "name");
    assert_eq!(result.columns[1].rust_type, RustType::String);
    assert_eq!(result.columns[2].name, "bio");
    assert_eq!(
        result.columns[2].rust_type,
        RustType::Option(Box::new(RustType::String))
    );
}

#[test]
fn test_validate_multiple_ctes() {
    let schema = test_schema();
    let result = check(
        &schema,
        r#"
        WITH
            user_data AS (SELECT id, name FROM users),
            profile_data AS (SELECT user_id, bio FROM profiles)
        SELECT u.id, u.name, p.bio
        FROM user_data u
        LEFT JOIN profile_data p ON p.user_id = u.id
        "#,
    )
    .unwrap();

    assert_eq!(result.columns.len(), 3);
    assert_eq!(result.columns[0].name, "id");
    assert_eq!(result.columns[0].rust_type, RustType::Uuid);
    assert_eq!(result.columns[1].name, "name");
    assert_eq!(result.columns[1].rust_type, RustType::String);
    // bio is nullable from its column and from the left join; nullability
    // is normalized to a single wrapper.
    assert_eq!(result.columns[2].name, "bio");
    assert_eq!(
        result.columns[2].rust_type,
        RustType::Option(Box::new(RustType::String))
    );
}

#[test]
fn test_validate_cte_unknown_column() {
    let schema = test_schema();
    let result = check(
        &schema,
        r#"
        WITH active_users AS (
            SELECT id, name FROM users
        )
        SELECT nonexistent FROM active_users
        "#,
    );

    assert!(matches!(result, Err(Error::UnknownColumn { .. })));
}

#[test]
fn test_validate_sum_returns_decimal() {
    let schema = schema_of(
        r#"
        CREATE TABLE items (
            id uuid NOT NULL,
            quantity integer NOT NULL
        );
        "#,
    )
    .unwrap();

    let result = check(&schema, "SELECT SUM(quantity) FROM items").unwrap();

    assert_eq!(result.columns.len(), 1);
    assert_eq!(
        result.columns[0].rust_type,
        RustType::Option(Box::new(RustType::Decimal))
    );
}

#[test]
fn test_validate_avg_returns_decimal() {
    let schema = schema_of(
        r#"
        CREATE TABLE items (
            id uuid NOT NULL,
            quantity integer NOT NULL
        );
        "#,
    )
    .unwrap();

    let result = check(&schema, "SELECT AVG(quantity) FROM items").unwrap();

    assert_eq!(result.columns.len(), 1);
    assert_eq!(
        result.columns[0].rust_type,
        RustType::Option(Box::new(RustType::Decimal))
    );
}

#[test]
fn test_validate_sum_on_decimal_column() {
    let schema = schema_of(
        r#"
        CREATE TABLE products (
            id uuid NOT NULL,
            price numeric(10,2) NOT NULL
        );
        "#,
    )
    .unwrap();

    let result = check(&schema, "SELECT SUM(price) FROM products").unwrap();

    assert_eq!(result.columns.len(), 1);
    assert_eq!(
        result.columns[0].rust_type,
        RustType::Option(Box::new(RustType::Decimal))
    );
}

#[test]
fn test_validate_upper_lower() {
    let schema = test_schema();
    let result = check(
        &schema,
        "SELECT UPPER(name) as upper_name, LOWER(name) as lower_name FROM users",
    )
    .unwrap();

    assert_eq!(result.columns.len(), 2);
    assert_eq!(result.columns[0].name, "upper_name");
    assert_eq!(result.columns[0].rust_type, RustType::String);
    assert_eq!(result.columns[1].name, "lower_name");
    assert_eq!(result.columns[1].rust_type, RustType::String);
}

#[test]
fn test_validate_concat() {
    let schema = test_schema();
    let result = check(&schema, "SELECT CONCAT(name, email) as combined FROM users").unwrap();

    assert_eq!(result.columns.len(), 1);
    assert_eq!(result.columns[0].name, "combined");
    assert_eq!(result.columns[0].rust_type, RustType::String);
}

#[test]
fn test_validate_length_returns_i32() {
    let schema = test_schema();
    let result = check(&schema, "SELECT LENGTH(name) as name_len FROM users").unwrap();

    assert_eq!(result.columns.len(), 1);
    assert_eq!(result.columns[0].name, "name_len");
    assert_eq!(result.columns[0].rust_type, RustType::I32);
}

#[test]
fn test_validate_substring() {
    let schema = test_schema();
    let result = check(&schema, "SELECT SUBSTRING(name, 1, 3) as short FROM users").unwrap();

    assert_eq!(result.columns.len(), 1);
    assert_eq!(result.columns[0].name, "short");
    assert_eq!(result.columns[0].rust_type, RustType::String);
}

#[test]
fn test_validate_strpos_returns_i32() {
    let schema = test_schema();
    let result = check(&schema, "SELECT STRPOS(email, '@') as pos FROM users").unwrap();

    assert_eq!(result.columns.len(), 1);
    assert_eq!(result.columns[0].name, "pos");
    assert_eq!(result.columns[0].rust_type, RustType::I32);
}

#[test]
fn test_validate_char_length_returns_i32() {
    let schema = test_schema();
    let result = check(&schema, "SELECT CHAR_LENGTH(name) as len FROM users").unwrap();

    assert_eq!(result.columns.len(), 1);
    assert_eq!(result.columns[0].name, "len");
    assert_eq!(result.columns[0].rust_type, RustType::I32);
}

#[test]
fn test_validate_trim_functions() {
    let schema = test_schema();
    let result = check(
        &schema,
        "SELECT TRIM(name) as t, LTRIM(name) as lt, RTRIM(name) as rt FROM users",
    )
    .unwrap();

    assert_eq!(result.columns.len(), 3);
    assert_eq!(result.columns[0].rust_type, RustType::String);
    assert_eq!(result.columns[1].rust_type, RustType::String);
    assert_eq!(result.columns[2].rust_type, RustType::String);
}

#[test]
fn test_validate_replace() {
    let schema = test_schema();
    let result = check(
        &schema,
        "SELECT REPLACE(name, 'a', 'b') as replaced FROM users",
    )
    .unwrap();

    assert_eq!(result.columns.len(), 1);
    assert_eq!(result.columns[0].rust_type, RustType::String);
}

fn test_schema_with_timestamps() -> Schema {
    schema_of(
        r#"
        CREATE TABLE orders (
            id uuid NOT NULL,
            user_id uuid NOT NULL,
            created_at timestamp with time zone NOT NULL DEFAULT now(),
            updated_at timestamp with time zone NOT NULL DEFAULT now()
        );
        "#,
    )
    .unwrap()
}

#[test]
fn test_validate_extract_returns_f64() {
    let schema = test_schema_with_timestamps();
    let result = check(
        &schema,
        "SELECT id, EXTRACT(YEAR FROM created_at) as year FROM orders",
    )
    .unwrap();

    assert_eq!(result.columns.len(), 2);
    assert_eq!(result.columns[0].name, "id");
    assert_eq!(result.columns[0].rust_type, RustType::Uuid);
    assert_eq!(result.columns[1].name, "year");
    assert_eq!(result.columns[1].rust_type, RustType::F64);
}

#[test]
fn test_validate_extract_month() {
    let schema = test_schema_with_timestamps();
    let result = check(
        &schema,
        "SELECT EXTRACT(MONTH FROM created_at) as month FROM orders",
    )
    .unwrap();

    assert_eq!(result.columns.len(), 1);
    assert_eq!(result.columns[0].name, "month");
    assert_eq!(result.columns[0].rust_type, RustType::F64);
}

#[test]
fn test_validate_date_trunc_returns_datetime() {
    let schema = test_schema_with_timestamps();
    let result = check(
        &schema,
        "SELECT DATE_TRUNC('day', created_at) as day FROM orders",
    )
    .unwrap();

    assert_eq!(result.columns.len(), 1);
    assert_eq!(result.columns[0].name, "day");
    assert_eq!(result.columns[0].rust_type, RustType::DateTime);
}

#[test]
fn test_validate_date_part_returns_f64() {
    let schema = test_schema_with_timestamps();
    let result = check(
        &schema,
        "SELECT DATE_PART('hour', created_at) as hour FROM orders",
    )
    .unwrap();

    assert_eq!(result.columns.len(), 1);
    assert_eq!(result.columns[0].name, "hour");
    assert_eq!(result.columns[0].rust_type, RustType::F64);
}

#[test]
fn test_validate_age_returns_duration() {
    let schema = test_schema_with_timestamps();
    let result = check(
        &schema,
        "SELECT AGE(updated_at, created_at) as duration FROM orders",
    )
    .unwrap();

    assert_eq!(result.columns.len(), 1);
    assert_eq!(result.columns[0].name, "duration");
    assert_eq!(result.columns[0].rust_type, RustType::Duration);
}

#[test]
fn test_validate_to_char_returns_string() {
    let schema = test_schema_with_timestamps();
    let result = check(
        &schema,
        "SELECT TO_CHAR(created_at, 'YYYY-MM-DD') as formatted FROM orders",
    )
    .unwrap();

    assert_eq!(result.columns.len(), 1);
    assert_eq!(result.columns[0].name, "formatted");
    assert_eq!(result.columns[0].rust_type, RustType::String);
}

#[test]
fn test_validate_now_returns_datetime() {
    let schema = test_schema_with_timestamps();
    let result = check(&schema, "SELECT NOW() as current_time FROM orders").unwrap();

    assert_eq!(result.columns.len(), 1);
    assert_eq!(result.columns[0].name, "current_time");
    assert_eq!(result.columns[0].rust_type, RustType::DateTime);
}

#[test]
fn test_validate_position_returns_i32() {
    let schema = test_schema();
    let result = check(&schema, "SELECT POSITION('@' IN email) as pos FROM users").unwrap();

    assert_eq!(result.columns.len(), 1);
    assert_eq!(result.columns[0].name, "pos");
    assert_eq!(result.columns[0].rust_type, RustType::I32);
}

#[test]
fn test_validate_union() {
    let schema = test_schema();
    let result = check(&schema, "SELECT id FROM users UNION SELECT id FROM profiles").unwrap();

    assert_eq!(result.columns.len(), 1);
    assert_eq!(result.columns[0].name, "id");
    assert_eq!(result.columns[0].rust_type, RustType::Uuid);
}

#[test]
fn test_validate_union_with_different_column_names() {
    let schema = test_schema();
    let result = check(
        &schema,
        "SELECT name FROM users UNION SELECT bio FROM profiles",
    )
    .unwrap();

    assert_eq!(result.columns.len(), 1);
    assert_eq!(result.columns[0].name, "name");
    assert_eq!(result.columns[0].rust_type, RustType::String);
}

#[test]
fn test_validate_union_all() {
    let schema = test_schema();
    let result = check(
        &schema,
        "SELECT id FROM users UNION ALL SELECT id FROM profiles",
    )
    .unwrap();

    assert_eq!(result.columns.len(), 1);
    assert_eq!(result.columns[0].name, "id");
}

#[test]
fn test_validate_intersect() {
    let schema = test_schema();
    let result = check(
        &schema,
        "SELECT id FROM users INTERSECT SELECT id FROM profiles",
    )
    .unwrap();

    assert_eq!(result.columns.len(), 1);
    assert_eq!(result.columns[0].name, "id");
    assert_eq!(result.columns[0].rust_type, RustType::Uuid);
}

#[test]
fn test_validate_except() {
    let schema = test_schema();
    let result = check(
        &schema,
        "SELECT id FROM users EXCEPT SELECT id FROM profiles",
    )
    .unwrap();

    assert_eq!(result.columns.len(), 1);
    assert_eq!(result.columns[0].name, "id");
    assert_eq!(result.columns[0].rust_type, RustType::Uuid);
}

#[test]
fn test_validate_union_column_count_mismatch() {
    let schema = test_schema();
    let result = check(
        &schema,
        "SELECT id, name FROM users UNION SELECT id FROM profiles",
    );

    assert!(matches!(result, Err(Error::InvalidQuery(_))));
    if let Err(Error::InvalidQuery(msg)) = result {
        assert!(msg.contains("UNION"));
        assert!(msg.contains("same number of columns"));
    }
}

#[test]
fn test_validate_multiple_unions() {
    let schema = test_schema();
    let result = check(
        &schema,
        r#"
        SELECT id FROM users
        UNION
        SELECT id FROM profiles
        UNION
        SELECT user_id FROM profiles
        "#,
    )
    .unwrap();

    assert_eq!(result.columns.len(), 1);
    assert_eq!(result.columns[0].name, "id");
}

#[test]
fn test_validate_union_with_where() {
    let schema = test_schema();
    let result = check(
        &schema,
        r#"
        SELECT id, name FROM users WHERE name = 'Alice'
        UNION
        SELECT id, bio FROM profiles WHERE bio IS NOT NULL
        "#,
    )
    .unwrap();

    assert_eq!(result.columns.len(), 2);
    assert_eq!(result.columns[0].name, "id");
    assert_eq!(result.columns[1].name, "name");
}

#[test]
fn test_parse_simple_table() {
    let schema = schema_of(
        r#"
        CREATE TABLE users (
            id uuid NOT NULL,
            name text NOT NULL,
            email text NOT NULL,
            created_at timestamp with time zone NOT NULL DEFAULT now(),
            CONSTRAINT users_pkey PRIMARY KEY (id)
        );
    "#,
    )
    .unwrap();
    let table = schema.get_table("users").unwrap();

    assert_eq!(table.name, "users");
    assert_eq!(table.columns.len(), 4);

    let id_col = table.get_column("id").unwrap();
    assert_eq!(id_col.data_type, sql_check::types::PostgresType::Uuid);
    assert!(!id_col.nullable);
    assert!(id_col.is_primary_key);

    let name_col = table.get_column("name").unwrap();
    assert_eq!(name_col.data_type, sql_check::types::PostgresType::Text);
    assert!(!name_col.nullable);

    let created_col = table.get_column("created_at").unwrap();
    assert_eq!(
        created_col.data_type,
        sql_check::types::PostgresType::TimestampTz
    );
    assert!(created_col.has_default);
}

#[test]
fn test_parse_jsonb_column() {
    let schema = schema_of(
        r#"
        CREATE TABLE items (
            id integer NOT NULL,
            metadata jsonb NOT NULL DEFAULT '{}'
        );
    "#,
    )
    .unwrap();
    let table = schema.get_table("items").unwrap();

    let metadata_col = table.get_column("metadata").unwrap();
    assert_eq!(metadata_col.data_type, sql_check::types::PostgresType::Jsonb);
}

#[test]
fn test_parse_nullable_columns() {
    let schema = schema_of(
        r#"
        CREATE TABLE profiles (
            id uuid NOT NULL,
            bio text,
            avatar_url text
        );
    "#,
    )
    .unwrap();
    let table = schema.get_table("profiles").unwrap();

    let bio_col = table.get_column("bio").unwrap();
    assert!(bio_col.nullable);

    let avatar_col = table.get_column("avatar_url").unwrap();
    assert!(avatar_col.nullable);
}

#[test]
fn test_empty_projection_rejected() {
    // A SELECT whose projection list is empty is a structural error.
    let schema = test_schema();
    let stmt = SqlStatement::Query(Box::new(QueryAst {
        ctes: Vec::new(),
        body: SetExprAst::Select(Box::new(SelectAst {
            projection: Vec::new(),
            from: vec![TableWithJoinsAst {
                relation: TableFactorAst::Table {
                    name_parts: vec![Some(String::from("users"))],
                    alias: None,
                },
                joins: Vec::new(),
            }],
        })),
    }));
    let result = validate_query(&schema, &vec![stmt]);
    assert!(matches!(result, Err(Error::InvalidQuery(_))));
}

#[test]
fn test_two_aliases_independent_nullability() {
    // Two aliases of the same table carry independent nullability marks.
    let schema = test_schema();
    let result = check(
        &schema,
        r#"
        SELECT a.id, b.id AS other_id
        FROM users a
        LEFT JOIN users b ON b.id = a.id
        "#,
    )
    .unwrap();

    assert_eq!(result.columns.len(), 2);
    assert_eq!(result.columns[0].rust_type, RustType::Uuid);
    assert_eq!(
        result.columns[1].rust_type,
        RustType::Option(Box::new(RustType::Uuid))
    );
}

#[test]
fn test_left_join_wildcard_wraps_all_columns() {
    // Every column of the left-joined alias is wrapped, the already
    // nullable ones only once.
    let schema = test_schema();
    let result = check(
        &schema,
        "SELECT p.* FROM users u LEFT JOIN profiles p ON p.user_id = u.id",
    )
    .unwrap();

    assert_eq!(result.columns.len(), 4);
    assert_eq!(
        result.columns[0].rust_type,
        RustType::Option(Box::new(RustType::Uuid))
    );
    assert_eq!(
        result.columns[1].rust_type,
        RustType::Option(Box::new(RustType::Uuid))
    );
    // bio is nullable in the schema as well; a single wrapper remains.
    assert_eq!(result.columns[2].name, "bio");
    assert_eq!(
        result.columns[2].rust_type,
        RustType::Option(Box::new(RustType::String))
    );
    assert_eq!(
        result.columns[3].rust_type,
        RustType::Option(Box::new(RustType::String))
    );
}

#[test]
fn test_min_max_strip_then_wrap() {
    // min/max yield Nullable(T) with T stripped of any Nullable, whether
    // or not the argument column was nullable.
    let schema = test_schema();
    let result = check(
        &schema,
        "SELECT MIN(name) AS first_name, MAX(name) AS last_name FROM users",
    )
    .unwrap();
    assert_eq!(
        result.columns[0].rust_type,
        RustType::Option(Box::new(RustType::String))
    );
    assert_eq!(
        result.columns[1].rust_type,
        RustType::Option(Box::new(RustType::String))
    );

    let result = check(&schema, "SELECT MIN(bio) AS b FROM profiles").unwrap();
    assert_eq!(
        result.columns[0].rust_type,
        RustType::Option(Box::new(RustType::String))
    );
}

#[test]
fn test_count_star_and_sum_literal() {
    let schema = test_schema();
    let result = check(&schema, "SELECT COUNT(*) AS n FROM users").unwrap();
    assert_eq!(result.columns.len(), 1);
    assert_eq!(result.columns[0].name, "n");
    assert_eq!(result.columns[0].rust_type, RustType::I64);

    let result = check(&schema, "SELECT SUM(1) FROM users").unwrap();
    assert_eq!(result.columns.len(), 1);
    assert_eq!(result.columns[0].name, "sum");
    assert_eq!(
        result.columns[0].rust_type,
        RustType::Option(Box::new(RustType::Decimal))
    );
}

#[test]
fn test_union_mismatch_reports_counts() {
    let schema = test_schema();
    let result = check(&schema, "SELECT id FROM users UNION SELECT id, name FROM users");
    match result {
        Err(Error::InvalidQuery(msg)) => {
            assert!(msg.contains("UNION"));
            assert!(msg.contains("1"));
            assert!(msg.contains("2"));
        }
        other => panic!("expected InvalidQuery, got {:?}", other),
    }
}

#[test]
fn test_unknown_names_and_ambiguity() {
    let schema = test_schema();

    let result = check(&schema, "SELECT fake FROM users");
    assert!(matches!(result, Err(Error::UnknownColumn { .. })));

    let result = check(&schema, "SELECT id FROM ghosts");
    match result {
        Err(Error::UnknownTable(name)) => assert_eq!(name, "ghosts"),
        other => panic!("expected UnknownTable, got {:?}", other),
    }

    let result = check(&schema, "SELECT id FROM users, profiles");
    match result {
        Err(Error::AmbiguousColumn(name)) => assert_eq!(name, "id"),
        other => panic!("expected AmbiguousColumn, got {:?}", other),
    }
}

#[test]
fn test_case_permuted_query_stays_valid() {
    // Identifier resolution is case-insensitive; the projection's own
    // spelling is what the result carries.
    let schema = test_schema();
    let result = check(&schema, "SELECT ID, NAME FROM USERS").unwrap();

    assert_eq!(result.columns.len(), 2);
    assert_eq!(result.columns[0].name, "ID");
    assert_eq!(result.columns[0].rust_type, RustType::Uuid);
    assert_eq!(result.columns[1].name, "NAME");
    assert_eq!(result.columns[1].rust_type, RustType::String);
}

#[test]
fn test_dump_and_reload_roundtrip() {
    // Loading the dump of a loaded catalog yields the same catalog.
    let schema = test_schema();
    let dumped = schema.dump_statements();
    let reloaded = Schema::from_statements(&dumped).unwrap();

    let names = schema.table_names();
    let renames = reloaded.table_names();
    assert_eq!(names, renames);
    for name in names {
        let t1 = schema.get_table(&name).unwrap();
        let t2 = reloaded.get_table(&name).unwrap();
        assert_eq!(t1.columns.len(), t2.columns.len());
        for (c1, c2) in t1.columns.iter().zip(t2.columns.iter()) {
            assert_eq!(c1.name, c2.name);
            assert_eq!(c1.data_type, c2.data_type);
            assert_eq!(c1.nullable, c2.nullable);
            assert_eq!(c1.has_default, c2.has_default);
            assert_eq!(c1.is_primary_key, c2.is_primary_key);
            assert_eq!(c1.is_unique, c2.is_unique);
        }
    }
}

#[test]
fn test_array_without_element_type_rejected() {
    let stmt = DdlStatement::CreateTable(CreateTableAst {
        name_parts: vec![Some(String::from("broken"))],
        columns: vec![ColumnDefAst {
            name: String::from("xs"),
            data_type: DeclaredType::Array(None),
            options: Vec::new(),
        }],
        constraints: Vec::new(),
    });
    let result = Schema::from_statements(&vec![stmt]);
    assert!(matches!(result, Err(Error::SchemaParse(_))));
}

#[test]
fn test_schema_parse_error_surfaces() {
    let result = schema_of("CREATE TABLE (");
    assert!(matches!(result, Err(Error::SchemaParse(_))));
}

#[test]
fn test_query_parse_error_surfaces() {
    let schema = test_schema();
    let result = check(&schema, "SELEKT id FROM users");
    assert!(matches!(result, Err(Error::QueryParse(_))));
}

#[test]
fn test_multi_statement_rejected() {
    let schema = test_schema();
    let result = check(&schema, "SELECT id FROM users; SELECT name FROM users");
    assert!(matches!(result, Err(Error::InvalidQuery(_))));
}

#[test]
fn test_unsupported_statement_rejected() {
    let schema = test_schema();
    let result = check(&schema, "DROP TABLE users");
    match result {
        Err(Error::InvalidQuery(msg)) => {
            assert!(msg.contains("SELECT, INSERT, UPDATE"));
        }
        other => panic!("expected InvalidQuery, got {:?}", other),
    }
}

#[test]
fn test_insert_unknown_column_rejected() {
    let schema = test_schema();
    let result = check(
        &schema,
        "INSERT INTO users (id, wrong) VALUES ($1, $2)",
    );
    match result {
        Err(Error::UnknownColumn { table, column }) => {
            assert_eq!(table, "users");
            assert_eq!(column, "wrong");
        }
        other => panic!("expected UnknownColumn, got {:?}", other),
    }
}

#[test]
fn test_cast_changes_type_keeps_name() {
    let schema = test_schema();
    let result = check(&schema, "SELECT CAST(name AS integer) FROM users").unwrap();
    assert_eq!(result.columns.len(), 1);
    assert_eq!(result.columns[0].name, "name");
    assert_eq!(result.columns[0].rust_type, RustType::I32);
}

#[test]
fn test_coalesce_strips_nullable() {
    let schema = test_schema();
    let result = check(
        &schema,
        "SELECT COALESCE(bio, 'none') AS bio FROM profiles",
    )
    .unwrap();
    assert_eq!(result.columns.len(), 1);
    assert_eq!(result.columns[0].rust_type, RustType::String);
}

#[test]
fn test_unknown_function_becomes_custom() {
    let schema = test_schema();
    let result = check(&schema, "SELECT frobnicate(name) FROM users").unwrap();
    assert_eq!(result.columns.len(), 1);
    assert_eq!(result.columns[0].name, "frobnicate");
    assert_eq!(
        result.columns[0].rust_type,
        RustType::Custom(String::from("frobnicate"))
    );
}

#[test]
fn test_literal_typing() {
    let schema = test_schema();
    let result = check(&schema, "SELECT 1, 'x', true FROM users").unwrap();
    assert_eq!(result.columns.len(), 3);
    assert_eq!(result.columns[0].name, "?column?");
    assert_eq!(result.columns[0].rust_type, RustType::I64);
    assert_eq!(result.columns[1].rust_type, RustType::String);
    assert_eq!(result.columns[2].rust_type, RustType::Bool);
}

#[test]
fn test_later_cte_sees_earlier_cte() {
    // The second CTE's body refers to the first.
    let schema = test_schema();
    let result = check(
        &schema,
        r#"
        WITH
            base AS (SELECT id, name FROM users),
            narrowed AS (SELECT name FROM base)
        SELECT name FROM narrowed
        "#,
    )
    .unwrap();
    assert_eq!(result.columns.len(), 1);
    assert_eq!(result.columns[0].name, "name");
    assert_eq!(result.columns[0].rust_type, RustType::String);
}

#[test]
fn test_cte_does_not_see_itself() {
    // A CTE body referring to its own name fails to resolve.
    let schema = test_schema();
    let result = check(
        &schema,
        r#"
        WITH looping AS (SELECT id FROM looping)
        SELECT id FROM looping
        "#,
    );
    assert!(matches!(result, Err(Error::UnknownTable(_))));
}

#[test]
fn test_select_without_from() {
    let schema = test_schema();
    let result = check(&schema, "SELECT 1").unwrap();
    assert_eq!(result.columns.len(), 1);
    assert_eq!(result.columns[0].name, "?column?");
    assert_eq!(result.columns[0].rust_type, RustType::I64);
}

#[test]
fn test_duplicate_alias_rebinds() {
    // A second relation under the same alias replaces the first binding.
    let schema = test_schema();
    let result = check(&schema, "SELECT user_id FROM users u, profiles u").unwrap();
    assert_eq!(result.columns.len(), 1);
    assert_eq!(result.columns[0].name, "user_id");
    assert_eq!(result.columns[0].rust_type, RustType::Uuid);
}

#[test]
fn test_derived_table_is_opaque() {
    let schema = test_schema();

    let result = check(&schema, "SELECT x FROM (SELECT id FROM users) sub");
    assert!(matches!(result, Err(Error::UnknownColumn { .. })));

    let result = check(&schema, "SELECT sub.* FROM (SELECT id FROM users) sub");
    match result {
        Err(Error::UnknownTable(name)) => assert_eq!(name, "sub"),
        other => panic!("expected UnknownTable, got {:?}", other),
    }
}

#[test]
fn test_min_integer_type() {
    let schema = schema_of(
        r#"
        CREATE TABLE items (
            id uuid NOT NULL,
            quantity integer NOT NULL
        );
        "#,
    )
    .unwrap();
    let result = check(&schema, "SELECT MIN(quantity) AS least FROM items").unwrap();
    assert_eq!(
        result.columns[0].rust_type,
        RustType::Option(Box::new(RustType::I32))
    );
}

#[test]
fn test_update_tuple_assignment() {
    let schema = test_schema();
    let result = check(
        &schema,
        "UPDATE users SET (name, email) = ('a', 'b') WHERE id = $1",
    )
    .unwrap();
    assert_eq!(result.columns.len(), 0);

    let result = check(&schema, "UPDATE users SET (name, wrong) = ('a', 'b')");
    match result {
        Err(Error::UnknownColumn { table, column }) => {
            assert_eq!(table, "users");
            assert_eq!(column, "wrong");
        }
        other => panic!("expected UnknownColumn, got {:?}", other),
    }
}

#[test]
fn test_three_part_identifier_rejected() {
    let schema = test_schema();
    let result = check(&schema, "SELECT db.users.id FROM users");
    match result {
        Err(Error::InvalidQuery(msg)) => {
            assert!(msg.contains("table.column"));
            assert!(msg.contains("3"));
        }
        other => panic!("expected InvalidQuery, got {:?}", other),
    }
}

#[test]
fn test_qualified_wildcard_unknown_alias() {
    let schema = test_schema();
    let result = check(&schema, "SELECT missing.* FROM users u");
    match result {
        Err(Error::UnknownTable(name)) => assert_eq!(name, "missing"),
        other => panic!("expected UnknownTable, got {:?}", other),
    }
}

#[test]
fn test_insert_without_returning_is_empty() {
    let schema = test_schema();
    let result = check(
        &schema,
        "INSERT INTO users (id, name, email, metadata) VALUES ($1, $2, $3, $4)",
    )
    .unwrap();
    assert_eq!(result.columns.len(), 0);
}

#[test]
fn test_qualified_identifier_through_alias() {
    let schema = test_schema();
    let result = check(&schema, "SELECT u.email FROM users AS u").unwrap();
    assert_eq!(result.columns.len(), 1);
    assert_eq!(result.columns[0].name, "email");
    assert_eq!(result.columns[0].rust_type, RustType::String);

    // The bare table name does not shadow the alias.
    let result = check(&schema, "SELECT users.email FROM users AS u");
    assert!(matches!(result, Err(Error::UnknownTable(_))));
}

#[test]
fn test_wildcard_over_join_in_from_order() {
    let schema = test_schema();
    let result = check(
        &schema,
        "SELECT * FROM users u INNER JOIN profiles p ON p.user_id = u.id",
    )
    .unwrap();
    assert_eq!(result.columns.len(), 8);
    assert_eq!(result.columns[0].name, "id");
    assert_eq!(result.columns[3].name, "metadata");
    assert_eq!(result.columns[4].name, "id");
    assert_eq!(result.columns[6].name, "bio");
}
