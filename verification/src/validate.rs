//! The statement validator: resolves the `FROM` clause into a scope,
//! types every projected item, and enforces the shape rules for `SELECT`,
//! set operations, `INSERT`, `UPDATE` and `DELETE`.
//!
//! A `WITH` clause is processed in declaration order; each CTE body sees
//! the CTEs declared before it, and the statement body sees them all. Set
//! operations validate each side against a fresh scope and require equal
//! column counts; the left side's names and types prevail.
use vstd::prelude::*;
use crate::ast::{
    AssignTargetAst, CteAst, DeleteAst, InsertAst, JoinAst, JoinKindAst, QueryAst, SelectAst,
    SelectItemAst, SetExprAst, SetOperatorAst, SqlStatement, TableFactorAst, TableWithJoinsAst,
    UpdateAst, cte_seq_size, lemma_cte_seq_size_elem, query_size, set_expr_size,
    first_ident_spec, first_ident, last_ident_spec, last_ident,
};
use crate::error::{Error, ErrV};
use crate::infer::{spec_infer, infer_expr_type};
use crate::schema::{
    Schema, Table, Column, TableV, ColumnV, find_table_spec, find_col_spec, cols_view,
    find_column_index, lemma_find_table_props, lemma_find_col_props,
};
use crate::scope::{
    ABV, CBV, CtxV, CteBinding, QColV, QueryColumn, QueryResult, RelV, RelationRef,
    ResolveContext, add_alias_spec, add_cte_spec, ctes_view, duplicate_ctes,
    is_marked_nullable, lookup_alias_spec, lookup_cte_spec, mark_nullable_spec, qcols_view,
};
use crate::text::{dec_str, eq_str, fold_seq, fold_string, usize_to_string};
use crate::types::{LTy, sty_to_lty, wrap_nullable};

verus! {

// ---------------------------------------------------------------------------
// Scope shapes
// ---------------------------------------------------------------------------

/// A scope with nothing in it.
pub open spec fn empty_ctx() -> CtxV {
    CtxV { aliases: Seq::empty(), nullable: Seq::empty(), ctes: Seq::empty() }
}

/// A scope holding only CTE definitions.
pub open spec fn ctx_of_ctes(ctes: Seq<CBV>) -> CtxV {
    CtxV { aliases: Seq::empty(), nullable: Seq::empty(), ctes: ctes }
}

/// The scope a `RETURNING` clause is typed in: the target table alone,
/// with no nullability marks.
pub open spec fn returning_ctx(tname: Seq<char>) -> CtxV {
    CtxV {
        aliases: seq![ABV { key: fold_seq(tname), target: RelV::SchemaTable(tname) }],
        nullable: Seq::empty(),
        ctes: Seq::empty(),
    }
}

// ---------------------------------------------------------------------------
// Wildcard expansion
// ---------------------------------------------------------------------------

/// The type a CTE column contributes, given whether its alias was marked
/// nullable by an outer join.
pub open spec fn cte_output_type(t: LTy, marked: bool) -> LTy {
    if marked {
        wrap_nullable(t)
    } else {
        t
    }
}

/// The type a schema column contributes: its lattice mapping, wrapped
/// when the column is nullable in the schema or its alias was marked
/// nullable by an outer join.
pub open spec fn column_output_type(c: ColumnV, marked: bool) -> LTy {
    if c.nullable || marked {
        wrap_nullable(sty_to_lty(c.data_type))
    } else {
        sty_to_lty(c.data_type)
    }
}

/// CTE columns as projected by a wildcard: wrapped when the alias is
/// nullable.
pub open spec fn wrapped_cte_cols(cols: Seq<QColV>, marked: bool) -> Seq<QColV> {
    cols.map_values(
        |c: QColV| QColV { name: c.name, rust_type: cte_output_type(c.rust_type, marked) },
    )
}

/// Table columns as projected by a wildcard: mapped to logical types and
/// wrapped when the column or the alias is nullable.
pub open spec fn wrapped_table_cols(cols: Seq<ColumnV>, marked: bool) -> Seq<QColV> {
    cols.map_values(
        |c: ColumnV| QColV { name: c.name, rust_type: column_output_type(c, marked) },
    )
}

/// The columns one alias contributes to `*`: its relation's columns, or
/// nothing when the alias is opaque or dangling.
pub open spec fn alias_wildcard_cols(
    schema: Seq<TableV>,
    a: ABV,
    ctes: Seq<CBV>,
    nullable: Seq<Seq<char>>,
) -> Seq<QColV> {
    match a.target {
        RelV::Cte(cname) => match lookup_cte_spec(ctes, cname) {
            Some(j) => wrapped_cte_cols(ctes[j].columns, is_marked_nullable(nullable, a.key)),
            None => Seq::empty(),
        },
        RelV::SchemaTable(tname) => match find_table_spec(schema, tname) {
            Some(ti) => wrapped_table_cols(
                schema[ti].columns,
                is_marked_nullable(nullable, a.key),
            ),
            None => Seq::empty(),
        },
        RelV::Opaque => Seq::empty(),
    }
}

/// `*`: every alias's columns, in scope order.
pub open spec fn wildcard_all(
    schema: Seq<TableV>,
    aliases: Seq<ABV>,
    ctes: Seq<CBV>,
    nullable: Seq<Seq<char>>,
) -> Seq<QColV>
    decreases aliases.len(),
{
    if aliases.len() == 0 {
        Seq::empty()
    } else {
        alias_wildcard_cols(schema, aliases[0], ctes, nullable) + wildcard_all(
            schema,
            aliases.drop_first(),
            ctes,
            nullable,
        )
    }
}

/// `alias.*`: that alias's columns, or an error when the alias does not
/// name a relation whose columns are known.
pub open spec fn spec_qualified_wildcard(
    schema: Seq<TableV>,
    ctx: CtxV,
    parts: Seq<Option<String>>,
) -> Result<Seq<QColV>, ErrV> {
    match first_ident_spec(parts) {
        None => Err(ErrV::InvalidQuery("Empty qualified wildcard"@)),
        Some(alias) => match lookup_alias_spec(ctx.aliases, alias) {
            None => Err(ErrV::UnknownTable(alias)),
            Some(ai) => match ctx.aliases[ai].target {
                RelV::Opaque => Err(ErrV::UnknownTable(alias)),
                RelV::Cte(cname) => match lookup_cte_spec(ctx.ctes, cname) {
                    None => Err(ErrV::UnknownTable(cname)),
                    Some(j) => Ok(wrapped_cte_cols(
                        ctx.ctes[j].columns,
                        is_marked_nullable(ctx.nullable, alias),
                    )),
                },
                RelV::SchemaTable(tname) => match find_table_spec(schema, tname) {
                    None => Err(ErrV::UnknownTable(tname)),
                    Some(ti) => Ok(wrapped_table_cols(
                        schema[ti].columns,
                        is_marked_nullable(ctx.nullable, alias),
                    )),
                },
            },
        },
    }
}

// ---------------------------------------------------------------------------
// Projection
// ---------------------------------------------------------------------------

/// The result columns one projection item contributes.
pub open spec fn spec_item_cols(
    schema: Seq<TableV>,
    ctx: CtxV,
    item: SelectItemAst,
) -> Result<Seq<QColV>, ErrV> {
    match item {
        SelectItemAst::UnnamedExpr(e) => match spec_infer(schema, ctx, e) {
            Ok(p) => Ok(seq![QColV { name: p.0, rust_type: p.1 }]),
            Err(er) => Err(er),
        },
        SelectItemAst::ExprWithAlias { expr, alias } => match spec_infer(schema, ctx, expr) {
            Ok(p) => Ok(seq![QColV { name: alias@, rust_type: p.1 }]),
            Err(er) => Err(er),
        },
        SelectItemAst::Wildcard => Ok(wildcard_all(schema, ctx.aliases, ctx.ctes, ctx.nullable)),
        SelectItemAst::QualifiedWildcard { name_parts } => spec_qualified_wildcard(
            schema,
            ctx,
            name_parts@,
        ),
        SelectItemAst::WildcardExpr => Err(ErrV::InvalidQuery(
            "Expression wildcards not supported"@,
        )),
    }
}

/// The whole projection, left to right; the first failing item wins.
pub open spec fn spec_project(
    schema: Seq<TableV>,
    ctx: CtxV,
    items: Seq<SelectItemAst>,
) -> Result<Seq<QColV>, ErrV>
    decreases items.len(),
{
    if items.len() == 0 {
        Ok(Seq::empty())
    } else {
        match spec_item_cols(schema, ctx, items[0]) {
            Err(e) => Err(e),
            Ok(cs) => match spec_project(schema, ctx, items.drop_first()) {
                Err(e) => Err(e),
                Ok(rest) => Ok(cs + rest),
            },
        }
    }
}

// ---------------------------------------------------------------------------
// FROM-clause resolution
// ---------------------------------------------------------------------------

/// The alias a table factor is known by: its `AS` alias, else its table
/// name's last identifier part.
pub open spec fn get_table_alias_spec(f: TableFactorAst) -> Option<Seq<char>> {
    match f {
        TableFactorAst::Table { name_parts, alias } => match alias {
            Some(a) => Some(a@),
            None => last_ident_spec(name_parts@),
        },
        TableFactorAst::Derived { alias: Some(a) } => Some(a@),
        _ => None,
    }
}

/// Bind one table factor in the scope: a CTE name binds to the CTE, a
/// schema table to the table, a derived table to an opaque relation; an
/// unknown name is an error.
pub open spec fn spec_resolve_factor(
    schema: Seq<TableV>,
    c: CtxV,
    f: TableFactorAst,
) -> Result<CtxV, ErrV> {
    match f {
        TableFactorAst::Table { name_parts, alias } => match last_ident_spec(name_parts@) {
            None => Err(ErrV::InvalidQuery("Empty table name"@)),
            Some(tname) => {
                let alias_name = match alias {
                    Some(a) => a@,
                    None => tname,
                };
                if lookup_cte_spec(c.ctes, tname) is Some {
                    Ok(CtxV {
                        aliases: add_alias_spec(c.aliases, alias_name, RelV::Cte(fold_seq(tname))),
                        ..c
                    })
                } else if find_table_spec(schema, tname) is Some {
                    Ok(CtxV {
                        aliases: add_alias_spec(c.aliases, alias_name, RelV::SchemaTable(tname)),
                        ..c
                    })
                } else {
                    Err(ErrV::UnknownTable(tname))
                }
            }
        },
        TableFactorAst::Derived { alias: Some(a) } => Ok(CtxV {
            aliases: add_alias_spec(c.aliases, a@, RelV::Opaque),
            ..c
        }),
        TableFactorAst::Derived { alias: None } => Ok(c),
        TableFactorAst::Other => Ok(c),
    }
}

/// The nullability marks one join adds: a left join marks the joined
/// relation, a right join marks the leading relation, a full outer join
/// marks both, anything else marks nothing.
pub open spec fn apply_join_nullability(c: CtxV, fa: Option<Seq<char>>, j: JoinAst) -> CtxV {
    match j.operator {
        JoinKindAst::Left | JoinKindAst::LeftOuter | JoinKindAst::LeftSemi
            | JoinKindAst::LeftAnti => match get_table_alias_spec(j.relation) {
            Some(a) => CtxV { nullable: mark_nullable_spec(c.nullable, a), ..c },
            None => c,
        },
        JoinKindAst::Right | JoinKindAst::RightOuter | JoinKindAst::RightSemi
            | JoinKindAst::RightAnti => match fa {
            Some(a) => CtxV { nullable: mark_nullable_spec(c.nullable, a), ..c },
            None => c,
        },
        JoinKindAst::FullOuter => {
            let c1 = match fa {
                Some(a) => CtxV { nullable: mark_nullable_spec(c.nullable, a), ..c },
                None => c,
            };
            match get_table_alias_spec(j.relation) {
                Some(a) => CtxV { nullable: mark_nullable_spec(c1.nullable, a), ..c1 },
                None => c1,
            }
        }
        _ => c,
    }
}

/// Resolve a chain of joins, left to right. `fa` is the leading
/// relation's alias.
pub open spec fn spec_resolve_joins(
    schema: Seq<TableV>,
    c: CtxV,
    fa: Option<Seq<char>>,
    joins: Seq<JoinAst>,
) -> Result<CtxV, ErrV>
    decreases joins.len(),
{
    if joins.len() == 0 {
        Ok(c)
    } else {
        match spec_resolve_factor(schema, c, joins[0].relation) {
            Err(e) => Err(e),
            Ok(c1) => spec_resolve_joins(
                schema,
                apply_join_nullability(c1, fa, joins[0]),
                fa,
                joins.drop_first(),
            ),
        }
    }
}

/// Resolve one leading relation with its joins.
pub open spec fn spec_resolve_twj(
    schema: Seq<TableV>,
    c: CtxV,
    twj: TableWithJoinsAst,
) -> Result<CtxV, ErrV> {
    match spec_resolve_factor(schema, c, twj.relation) {
        Err(e) => Err(e),
        Ok(c1) => spec_resolve_joins(schema, c1, get_table_alias_spec(twj.relation), twj.joins@),
    }
}

/// Resolve the whole `FROM` clause, left to right.
pub open spec fn spec_resolve_from(
    schema: Seq<TableV>,
    c: CtxV,
    tables: Seq<TableWithJoinsAst>,
) -> Result<CtxV, ErrV>
    decreases tables.len(),
{
    if tables.len() == 0 {
        Ok(c)
    } else {
        match spec_resolve_twj(schema, c, tables[0]) {
            Err(e) => Err(e),
            Ok(c1) => spec_resolve_from(schema, c1, tables.drop_first()),
        }
    }
}

// ---------------------------------------------------------------------------
// Statement validation
// ---------------------------------------------------------------------------

/// A `SELECT` body: resolve its `FROM` clause, then type its projection.
/// An empty projection list is rejected.
pub open spec fn spec_select_body(
    schema: Seq<TableV>,
    c: CtxV,
    sel: SelectAst,
) -> Result<Seq<QColV>, ErrV> {
    match spec_resolve_from(schema, c, sel.from@) {
        Err(e) => Err(e),
        Ok(c1) => if sel.projection@.len() == 0 {
            Err(ErrV::InvalidQuery("Empty projection list"@))
        } else {
            spec_project(schema, c1, sel.projection@)
        },
    }
}

/// The spelled name of a set operator, for diagnostics.
pub open spec fn set_op_name_spec(op: SetOperatorAst) -> Seq<char> {
    match op {
        SetOperatorAst::Union => "UNION"@,
        SetOperatorAst::Intersect => "INTERSECT"@,
        SetOperatorAst::Except => "EXCEPT"@,
        SetOperatorAst::Minus => "MINUS"@,
    }
}

/// The diagnostic for a set operation whose sides disagree on width.
pub open spec fn set_op_mismatch_msg(op: SetOperatorAst, l: nat, r: nat) -> Seq<char> {
    set_op_name_spec(op) + " requires both sides to have the same number of columns (left: "@
        + dec_str(l) + ", right: "@ + dec_str(r) + ")"@
}

/// A query body: a plain `SELECT` uses the scope; a set operation
/// validates both sides against fresh scopes, requires equal column
/// counts, and yields the left side's columns.
pub open spec fn spec_validate_set_expr(
    schema: Seq<TableV>,
    se: SetExprAst,
    c: CtxV,
) -> Result<Seq<QColV>, ErrV>
    decreases set_expr_size(se),
{
    match se {
        SetExprAst::Select(sel) => spec_select_body(schema, c, *sel),
        SetExprAst::SetOperation { op, left, right } => {
            match spec_validate_set_expr(schema, *left, empty_ctx()) {
                Err(e) => Err(e),
                Ok(lc) => match spec_validate_set_expr(schema, *right, empty_ctx()) {
                    Err(e) => Err(e),
                    Ok(rc) => if lc.len() != rc.len() {
                        Err(ErrV::InvalidQuery(set_op_mismatch_msg(op, lc.len(), rc.len())))
                    } else {
                        Ok(lc)
                    },
                },
            }
        }
        SetExprAst::Query(q) => spec_validate_select(schema, *q, Seq::empty()),
        SetExprAst::Other => Err(ErrV::InvalidQuery(
            "Only SELECT and set operations (UNION/INTERSECT/EXCEPT) are supported"@,
        )),
    }
}

/// CTE column aliases applied position-wise; extra columns or extra
/// aliases are dropped.
pub open spec fn rename_cols(cols: Seq<QColV>, names: Seq<String>) -> Seq<QColV> {
    Seq::new(
        if cols.len() <= names.len() {
            cols.len()
        } else {
            names.len()
        },
        |i: int| QColV { name: names[i]@, rust_type: cols[i].rust_type },
    )
}

/// Process a `WITH` clause in declaration order. Each CTE body is
/// validated with the CTEs recorded so far in scope, so later CTEs see
/// earlier ones and none sees itself or a later one.
pub open spec fn spec_process_ctes(
    schema: Seq<TableV>,
    ctes_ast: Seq<CteAst>,
    acc: Seq<CBV>,
) -> Result<Seq<CBV>, ErrV>
    decreases cte_seq_size(ctes_ast),
{
    if ctes_ast.len() == 0 {
        Ok(acc)
    } else {
        match spec_validate_select(schema, *ctes_ast[0].query, acc) {
            Err(e) => Err(e),
            Ok(cols) => {
                let named = if ctes_ast[0].column_aliases@.len() > 0 {
                    rename_cols(cols, ctes_ast[0].column_aliases@)
                } else {
                    cols
                };
                spec_process_ctes(
                    schema,
                    ctes_ast.drop_first(),
                    add_cte_spec(acc, ctes_ast[0].name@, named),
                )
            }
        }
    }
}

/// A full query: its `WITH` clause extends the inherited CTE scope, then
/// its body is validated with those CTEs in scope.
pub open spec fn spec_validate_select(
    schema: Seq<TableV>,
    q: QueryAst,
    inherited: Seq<CBV>,
) -> Result<Seq<QColV>, ErrV>
    decreases query_size(q),
{
    match spec_process_ctes(schema, q.ctes@, inherited) {
        Err(e) => Err(e),
        Ok(all) => spec_validate_set_expr(schema, q.body, ctx_of_ctes(all)),
    }
}

/// Check that each named insert column exists; the first unknown one is
/// the error.
pub open spec fn spec_check_insert_columns(
    schema_cols: Seq<ColumnV>,
    tname: Seq<char>,
    cols: Seq<String>,
) -> Option<ErrV>
    decreases cols.len(),
{
    if cols.len() == 0 {
        None
    } else if find_col_spec(schema_cols, cols[0]@) is None {
        Some(ErrV::UnknownColumn { table: tname, column: cols[0]@ })
    } else {
        spec_check_insert_columns(schema_cols, tname, cols.drop_first())
    }
}

/// A `RETURNING` clause, typed like a projection against the target
/// table alone; absent, the statement returns no rows.
pub open spec fn spec_returning(
    schema: Seq<TableV>,
    tname: Seq<char>,
    returning: Option<Vec<SelectItemAst>>,
) -> Result<Seq<QColV>, ErrV> {
    match returning {
        Some(items) => spec_project(schema, returning_ctx(tname), items@),
        None => Ok(Seq::empty()),
    }
}

/// An `INSERT`: the target table must exist and every named column must
/// belong to it; `RETURNING` is typed against the table.
pub open spec fn spec_validate_insert(
    schema: Seq<TableV>,
    ins: InsertAst,
) -> Result<Seq<QColV>, ErrV> {
    match last_ident_spec(ins.table_parts@) {
        None => Err(ErrV::InvalidQuery("Empty table name"@)),
        Some(tname) => match find_table_spec(schema, tname) {
            None => Err(ErrV::UnknownTable(tname)),
            Some(ti) => match spec_check_insert_columns(schema[ti].columns, tname, ins.columns@) {
                Some(e) => Err(e),
                None => spec_returning(schema, tname, ins.returning),
            },
        },
    }
}

/// The table an `UPDATE` or `DELETE` addresses: a plain table factor's
/// last name part.
pub open spec fn spec_target_table_name(f: TableFactorAst) -> Result<Seq<char>, ErrV> {
    match f {
        TableFactorAst::Table { name_parts, alias: _ } => match last_ident_spec(name_parts@) {
            Some(n) => Ok(n),
            None => Err(ErrV::InvalidQuery("Empty table name"@)),
        },
        _ => Err(ErrV::InvalidQuery("Complex table expressions not supported in UPDATE"@)),
    }
}

/// Check the columns of a tuple assignment target.
pub open spec fn spec_check_tuple_columns(
    schema_cols: Seq<ColumnV>,
    tname: Seq<char>,
    list: Seq<Vec<Option<String>>>,
) -> Option<ErrV>
    decreases list.len(),
{
    if list.len() == 0 {
        None
    } else {
        match last_ident_spec(list[0]@) {
            None => Some(ErrV::InvalidQuery("Empty column name in tuple assignment"@)),
            Some(col) => if find_col_spec(schema_cols, col) is None {
                Some(ErrV::UnknownColumn { table: tname, column: col })
            } else {
                spec_check_tuple_columns(schema_cols, tname, list.drop_first())
            },
        }
    }
}

/// Check every `SET` assignment target against the table's columns.
pub open spec fn spec_check_assignments(
    schema_cols: Seq<ColumnV>,
    tname: Seq<char>,
    targets: Seq<AssignTargetAst>,
) -> Option<ErrV>
    decreases targets.len(),
{
    if targets.len() == 0 {
        None
    } else {
        let head = match targets[0] {
            AssignTargetAst::ColumnName(parts) => match last_ident_spec(parts@) {
                None => Some(ErrV::InvalidQuery("Empty column name in assignment"@)),
                Some(col) => if find_col_spec(schema_cols, col) is None {
                    Some(ErrV::UnknownColumn { table: tname, column: col })
                } else {
                    None
                },
            },
            AssignTargetAst::Tuple(list) => spec_check_tuple_columns(schema_cols, tname, list@),
        };
        match head {
            Some(e) => Some(e),
            None => spec_check_assignments(schema_cols, tname, targets.drop_first()),
        }
    }
}

/// An `UPDATE`: the target table must exist, every assignment target
/// column must belong to it; `RETURNING` is typed against the table.
pub open spec fn spec_validate_update(
    schema: Seq<TableV>,
    upd: UpdateAst,
) -> Result<Seq<QColV>, ErrV> {
    match spec_target_table_name(upd.table) {
        Err(e) => Err(e),
        Ok(tname) => match find_table_spec(schema, tname) {
            None => Err(ErrV::UnknownTable(tname)),
            Some(ti) => match spec_check_assignments(
                schema[ti].columns,
                tname,
                upd.assignments@,
            ) {
                Some(e) => Err(e),
                None => spec_returning(schema, tname, upd.returning),
            },
        },
    }
}

/// A `DELETE`: it must name a table, the table must exist; `RETURNING`
/// is typed against the table.
pub open spec fn spec_validate_delete(
    schema: Seq<TableV>,
    del: DeleteAst,
) -> Result<Seq<QColV>, ErrV> {
    if del.from@.len() == 0 {
        Err(ErrV::InvalidQuery("DELETE requires at least one table"@))
    } else {
        match spec_target_table_name(del.from@[0].relation) {
            Err(e) => Err(e),
            Ok(tname) => match find_table_spec(schema, tname) {
                None => Err(ErrV::UnknownTable(tname)),
                Some(_) => spec_returning(schema, tname, del.returning),
            },
        }
    }
}

/// Validation of a statement list: exactly one statement of a supported
/// kind, dispatched on its kind.
pub open spec fn spec_validate_query(
    schema: Seq<TableV>,
    stmts: Seq<SqlStatement>,
) -> Result<Seq<QColV>, ErrV> {
    if stmts.len() != 1 {
        Err(ErrV::InvalidQuery("Expected exactly one statement"@))
    } else {
        match stmts[0] {
            SqlStatement::Query(q) => spec_validate_select(schema, *q, Seq::empty()),
            SqlStatement::Insert(i) => spec_validate_insert(schema, i),
            SqlStatement::Update(u) => spec_validate_update(schema, u),
            SqlStatement::Delete(d) => spec_validate_delete(schema, d),
            SqlStatement::Other => Err(ErrV::InvalidQuery(
                "Only SELECT, INSERT, UPDATE, and DELETE are supported"@,
            )),
        }
    }
}

// ---------------------------------------------------------------------------
// Executable wildcard expansion
// ---------------------------------------------------------------------------

/// CTE columns as contributed by a wildcard.
fn wrap_cte_columns(cols: &Vec<QueryColumn>, marked: bool) -> (r: Vec<QueryColumn>)
    ensures qcols_view(r@) == wrapped_cte_cols(qcols_view(cols@), marked),
{
    let ghost target = wrapped_cte_cols(qcols_view(cols@), marked);
    let n = cols.len();
    let mut out: Vec<QueryColumn> = Vec::new();
    proof {
        assert(qcols_view(out@) =~= target.take(0));
    }
    let mut i: usize = 0;
    while i < n
        invariant
            i <= n,
            n == cols@.len(),
            target == wrapped_cte_cols(qcols_view(cols@), marked),
            target.len() == n,
            qcols_view(out@) == target.take(i as int),
        decreases n - i,
    {
        let base = cols[i].rust_type.duplicate();
        let ty = if marked {
            base.nullable()
        } else {
            base
        };
        let c = QueryColumn { name: cols[i].name.clone(), rust_type: ty };
        let ghost prev = out@;
        let ghost cv = c@;
        out.push(c);
        proof {
            assert(cv == target[i as int]);
            assert(qcols_view(out@) =~= qcols_view(prev).push(cv));
            assert(target.take(i + 1) =~= target.take(i as int).push(target[i as int]));
        }
        i = i + 1;
    }
    proof {
        assert(target.take(n as int) =~= target);
    }
    out
}

/// Schema-table columns as contributed by a wildcard.
fn wrap_table_columns(cols: &Vec<Column>, marked: bool) -> (r: Vec<QueryColumn>)
    ensures qcols_view(r@) == wrapped_table_cols(cols_view(cols@), marked),
{
    let ghost target = wrapped_table_cols(cols_view(cols@), marked);
    let n = cols.len();
    let mut out: Vec<QueryColumn> = Vec::new();
    proof {
        assert(qcols_view(out@) =~= target.take(0));
    }
    let mut i: usize = 0;
    while i < n
        invariant
            i <= n,
            n == cols@.len(),
            target == wrapped_table_cols(cols_view(cols@), marked),
            target.len() == n,
            qcols_view(out@) == target.take(i as int),
        decreases n - i,
    {
        let base = cols[i].data_type.to_rust_type();
        let ty = if cols[i].nullable || marked {
            base.nullable()
        } else {
            base
        };
        let c = QueryColumn { name: cols[i].name.clone(), rust_type: ty };
        let ghost prev = out@;
        let ghost cv = c@;
        out.push(c);
        proof {
            assert(cv == target[i as int]);
            assert(qcols_view(out@) =~= qcols_view(prev).push(cv));
            assert(target.take(i + 1) =~= target.take(i as int).push(target[i as int]));
        }
        i = i + 1;
    }
    proof {
        assert(target.take(n as int) =~= target);
    }
    out
}

/// Expand `*` over every alias in scope, in order.
fn expand_wildcard_all(schema: &Schema, ctx: &ResolveContext) -> (r: Vec<QueryColumn>)
    ensures qcols_view(r@) == wildcard_all(schema@, ctx@.aliases, ctx@.ctes, ctx@.nullable),
{
    let ghost target = wildcard_all(schema@, ctx@.aliases, ctx@.ctes, ctx@.nullable);
    let n = ctx.aliases.len();
    let mut out: Vec<QueryColumn> = Vec::new();
    proof {
        assert(ctx@.aliases.skip(0) =~= ctx@.aliases);
        assert(qcols_view(out@) + wildcard_all(
            schema@,
            ctx@.aliases.skip(0),
            ctx@.ctes,
            ctx@.nullable,
        ) =~= target);
    }
    let mut i: usize = 0;
    while i < n
        invariant
            i <= n,
            n == ctx.aliases@.len(),
            ctx@.aliases.len() == n,
            target == wildcard_all(schema@, ctx@.aliases, ctx@.ctes, ctx@.nullable),
            target == qcols_view(out@) + wildcard_all(
                schema@,
                ctx@.aliases.skip(i as int),
                ctx@.ctes,
                ctx@.nullable,
            ),
        decreases n - i,
    {
        let ghost tail = ctx@.aliases.skip(i as int);
        proof {
            assert(tail[0] == ctx@.aliases[i as int]);
            assert(tail.drop_first() =~= ctx@.aliases.skip(i + 1));
        }
        let mut chunk: Vec<QueryColumn>;
        match &ctx.aliases[i].target {
            RelationRef::Cte(cname) => {
                match ctx.get_cte(cname.as_str()) {
                    Some(cte) => {
                        let marked = ctx.is_nullable_table(ctx.aliases[i].key.as_str());
                        chunk = wrap_cte_columns(&cte.columns, marked);
                    }
                    None => {
                        chunk = Vec::new();
                    }
                }
            }
            RelationRef::SchemaTable(tname) => {
                match schema.get_table(tname.as_str()) {
                    Some(t) => {
                        let marked = ctx.is_nullable_table(ctx.aliases[i].key.as_str());
                        chunk = wrap_table_columns(&t.columns, marked);
                    }
                    None => {
                        chunk = Vec::new();
                    }
                }
            }
            RelationRef::Opaque => {
                chunk = Vec::new();
            }
        }
        proof {
            assert(qcols_view(chunk@) =~= alias_wildcard_cols(
                schema@,
                ctx@.aliases[i as int],
                ctx@.ctes,
                ctx@.nullable,
            ));
        }
        let ghost pre = out@;
        let ghost chunkv = qcols_view(chunk@);
        out.append(&mut chunk);
        proof {
            assert(qcols_view(out@) =~= qcols_view(pre) + chunkv);
            assert(qcols_view(pre) + (chunkv + wildcard_all(
                schema@,
                ctx@.aliases.skip(i + 1),
                ctx@.ctes,
                ctx@.nullable,
            )) =~= qcols_view(out@) + wildcard_all(
                schema@,
                ctx@.aliases.skip(i + 1),
                ctx@.ctes,
                ctx@.nullable,
            ));
        }
        i = i + 1;
    }
    proof {
        assert(ctx@.aliases.skip(n as int) =~= Seq::<ABV>::empty());
        assert(target =~= qcols_view(out@));
    }
    out
}

/// Expand `alias.*`.
fn expand_qualified_wildcard(
    schema: &Schema,
    ctx: &ResolveContext,
    parts: &Vec<Option<String>>,
) -> (r: Result<Vec<QueryColumn>, Error>)
    ensures
        r matches Ok(v) ==> spec_qualified_wildcard(schema@, ctx@, parts@)
            == Result::<Seq<QColV>, ErrV>::Ok(qcols_view(v@)),
        r matches Err(e) ==> spec_qualified_wildcard(schema@, ctx@, parts@)
            == Result::<Seq<QColV>, ErrV>::Err(e@),
{
    let alias = match first_ident(parts) {
        Some(a) => a,
        None => {
            return Err(Error::InvalidQuery(String::from_str("Empty qualified wildcard")));
        }
    };
    match ctx.lookup_alias(alias.as_str()) {
        None => Err(Error::UnknownTable(alias.clone())),
        Some(rel) => match rel {
            RelationRef::Opaque => Err(Error::UnknownTable(alias.clone())),
            RelationRef::Cte(cname) => {
                match ctx.get_cte(cname.as_str()) {
                    None => Err(Error::UnknownTable(cname.clone())),
                    Some(cte) => {
                        let marked = ctx.is_nullable_table(alias.as_str());
                        Ok(wrap_cte_columns(&cte.columns, marked))
                    }
                }
            }
            RelationRef::SchemaTable(tname) => {
                match schema.get_table(tname.as_str()) {
                    None => Err(Error::UnknownTable(tname.clone())),
                    Some(t) => {
                        let marked = ctx.is_nullable_table(alias.as_str());
                        Ok(wrap_table_columns(&t.columns, marked))
                    }
                }
            }
        },
    }
}

// ---------------------------------------------------------------------------
// Executable projection
// ---------------------------------------------------------------------------

/// The result columns one projection item contributes.
fn item_columns(
    schema: &Schema,
    ctx: &ResolveContext,
    item: &SelectItemAst,
) -> (r: Result<Vec<QueryColumn>, Error>)
    ensures
        r matches Ok(v) ==> spec_item_cols(schema@, ctx@, *item)
            == Result::<Seq<QColV>, ErrV>::Ok(qcols_view(v@)),
        r matches Err(e) ==> spec_item_cols(schema@, ctx@, *item)
            == Result::<Seq<QColV>, ErrV>::Err(e@),
{
    match item {
        SelectItemAst::UnnamedExpr(e) => {
            match infer_expr_type(schema, ctx, e) {
                Err(er) => Err(er),
                Ok(p) => {
                    let mut v: Vec<QueryColumn> = Vec::new();
                    v.push(QueryColumn { name: p.0, rust_type: p.1 });
                    proof {
                        assert(qcols_view(v@) =~= seq![v@[0]@]);
                    }
                    Ok(v)
                }
            }
        }
        SelectItemAst::ExprWithAlias { expr, alias } => {
            match infer_expr_type(schema, ctx, expr) {
                Err(er) => Err(er),
                Ok(p) => {
                    let mut v: Vec<QueryColumn> = Vec::new();
                    v.push(QueryColumn { name: alias.clone(), rust_type: p.1 });
                    proof {
                        assert(qcols_view(v@) =~= seq![v@[0]@]);
                    }
                    Ok(v)
                }
            }
        }
        SelectItemAst::Wildcard => Ok(expand_wildcard_all(schema, ctx)),
        SelectItemAst::QualifiedWildcard { name_parts } => expand_qualified_wildcard(
            schema,
            ctx,
            name_parts,
        ),
        SelectItemAst::WildcardExpr => Err(Error::InvalidQuery(
            String::from_str("Expression wildcards not supported"),
        )),
    }
}

/// Type a whole projection against a resolved scope.
pub fn project_items(
    schema: &Schema,
    ctx: &ResolveContext,
    items: &Vec<SelectItemAst>,
) -> (r: Result<Vec<QueryColumn>, Error>)
    ensures
        r matches Ok(v) ==> spec_project(schema@, ctx@, items@)
            == Result::<Seq<QColV>, ErrV>::Ok(qcols_view(v@)),
        r matches Err(e) ==> spec_project(schema@, ctx@, items@)
            == Result::<Seq<QColV>, ErrV>::Err(e@),
{
    let ghost full = spec_project(schema@, ctx@, items@);
    let n = items.len();
    let mut out: Vec<QueryColumn> = Vec::new();
    proof {
        assert(items@.skip(0) =~= items@);
        assert(qcols_view(out@) =~= Seq::<QColV>::empty());
        match spec_project(schema@, ctx@, items@.skip(0)) {
            Ok(rest) => {
                assert(qcols_view(out@) + rest =~= rest);
            }
            Err(_) => {}
        }
    }
    let mut i: usize = 0;
    while i < n
        invariant
            i <= n,
            n == items@.len(),
            full == spec_project(schema@, ctx@, items@),
            (match spec_project(schema@, ctx@, items@.skip(i as int)) {
                Ok(rest) => full == Result::<Seq<QColV>, ErrV>::Ok(qcols_view(out@) + rest),
                Err(e) => full == Result::<Seq<QColV>, ErrV>::Err(e),
            }),
        decreases n - i,
    {
        let ghost tail = items@.skip(i as int);
        proof {
            assert(tail[0] == items@[i as int]);
            assert(tail.drop_first() =~= items@.skip(i + 1));
        }
        match item_columns(schema, ctx, &items[i]) {
            Err(e) => {
                return Err(e);
            }
            Ok(mut chunk) => {
                let ghost pre = out@;
                let ghost chunkv = qcols_view(chunk@);
                out.append(&mut chunk);
                proof {
                    assert(qcols_view(out@) =~= qcols_view(pre) + chunkv);
                    match spec_project(schema@, ctx@, items@.skip(i + 1)) {
                        Ok(rest) => {
                            assert(qcols_view(pre) + (chunkv + rest) =~= qcols_view(out@) + rest);
                        }
                        Err(_) => {}
                    }
                }
            }
        }
        i = i + 1;
    }
    proof {
        assert(items@.skip(n as int) =~= Seq::<SelectItemAst>::empty());
        assert(qcols_view(out@) + Seq::<QColV>::empty() =~= qcols_view(out@));
    }
    Ok(out)
}

// ---------------------------------------------------------------------------
// Executable FROM-clause resolution
// ---------------------------------------------------------------------------

/// The alias a table factor is known by.
pub fn get_table_alias(f: &TableFactorAst) -> (r: Option<String>)
    ensures
        r matches Some(s) ==> get_table_alias_spec(*f) == Some(s@),
        r is None ==> get_table_alias_spec(*f) is None,
{
    match f {
        TableFactorAst::Table { name_parts, alias } => match alias {
            Some(a) => Some(a.clone()),
            None => match last_ident(name_parts) {
                Some(s) => Some(s.clone()),
                None => None,
            },
        },
        TableFactorAst::Derived { alias: Some(a) } => Some(a.clone()),
        _ => None,
    }
}

/// Bind one table factor in the scope.
pub fn resolve_table_factor(
    schema: &Schema,
    f: &TableFactorAst,
    ctx: &mut ResolveContext,
) -> (r: Result<(), Error>)
    ensures
        r matches Ok(_) ==> spec_resolve_factor(schema@, old(ctx)@, *f)
            == Result::<CtxV, ErrV>::Ok(final(ctx)@),
        r matches Err(e) ==> spec_resolve_factor(schema@, old(ctx)@, *f)
            == Result::<CtxV, ErrV>::Err(e@),
{
    match f {
        TableFactorAst::Table { name_parts, alias } => {
            let tname = match last_ident(name_parts) {
                Some(s) => s,
                None => {
                    return Err(Error::InvalidQuery(String::from_str("Empty table name")));
                }
            };
            let alias_name = match alias {
                Some(a) => a,
                None => tname,
            };
            let is_cte = match ctx.get_cte(tname.as_str()) {
                Some(_) => true,
                None => false,
            };
            if is_cte {
                let folded = fold_string(tname.as_str());
                ctx.add_alias(alias_name.as_str(), RelationRef::Cte(folded));
                proof {
                    assert(final(ctx)@ =~= (CtxV {
                        aliases: add_alias_spec(
                            old(ctx)@.aliases,
                            alias_name@,
                            RelV::Cte(fold_seq(tname@)),
                        ),
                        ..old(ctx)@
                    }));
                }
                Ok(())
            } else if schema.has_table(tname.as_str()) {
                ctx.add_alias(alias_name.as_str(), RelationRef::SchemaTable(tname.clone()));
                proof {
                    assert(final(ctx)@ =~= (CtxV {
                        aliases: add_alias_spec(
                            old(ctx)@.aliases,
                            alias_name@,
                            RelV::SchemaTable(tname@),
                        ),
                        ..old(ctx)@
                    }));
                }
                Ok(())
            } else {
                Err(Error::UnknownTable(tname.clone()))
            }
        }
        TableFactorAst::Derived { alias } => match alias {
            Some(a) => {
                ctx.add_alias(a.as_str(), RelationRef::Opaque);
                proof {
                    assert(final(ctx)@ =~= (CtxV {
                        aliases: add_alias_spec(old(ctx)@.aliases, a@, RelV::Opaque),
                        ..old(ctx)@
                    }));
                }
                Ok(())
            }
            None => Ok(()),
        },
        TableFactorAst::Other => Ok(()),
    }
}

/// Resolve one leading relation and its joins, recording outer-join
/// nullability as the table of spec `apply_join_nullability` says.
#[verifier::loop_isolation(false)]
pub fn resolve_table_refs(
    schema: &Schema,
    twj: &TableWithJoinsAst,
    ctx: &mut ResolveContext,
) -> (r: Result<(), Error>)
    ensures
        r matches Ok(_) ==> spec_resolve_twj(schema@, old(ctx)@, *twj)
            == Result::<CtxV, ErrV>::Ok(final(ctx)@),
        r matches Err(e) ==> spec_resolve_twj(schema@, old(ctx)@, *twj)
            == Result::<CtxV, ErrV>::Err(e@),
{
    let first_alias = get_table_alias(&twj.relation);
    let ghost fa = get_table_alias_spec(twj.relation);
    match resolve_table_factor(schema, &twj.relation, ctx) {
        Err(e) => {
            return Err(e);
        }
        Ok(_) => {}
    }
    let ghost c1 = ctx@;
    proof {
        assert(twj.joins@.skip(0) =~= twj.joins@);
    }
    let n = twj.joins.len();
    let mut i: usize = 0;
    while i < n
        invariant
            i <= n,
            n == twj.joins@.len(),
            spec_resolve_joins(schema@, c1, fa, twj.joins@)
                == spec_resolve_joins(schema@, ctx@, fa, twj.joins@.skip(i as int)),
            (first_alias matches Some(s) ==> fa == Some(s@)),
            (first_alias is None ==> fa is None),
        decreases n - i,
    {
        let ghost tail = twj.joins@.skip(i as int);
        proof {
            assert(tail[0] == twj.joins@[i as int]);
            assert(tail.drop_first() =~= twj.joins@.skip(i + 1));
        }
        match resolve_table_factor(schema, &twj.joins[i].relation, ctx) {
            Err(e) => {
                return Err(e);
            }
            Ok(_) => {}
        }
        let ghost c2 = ctx@;
        match &twj.joins[i].operator {
            JoinKindAst::Left | JoinKindAst::LeftOuter | JoinKindAst::LeftSemi
                | JoinKindAst::LeftAnti => {
                match get_table_alias(&twj.joins[i].relation) {
                    Some(a) => {
                        ctx.mark_nullable(a.as_str());
                    }
                    None => {}
                }
            }
            JoinKindAst::Right | JoinKindAst::RightOuter | JoinKindAst::RightSemi
                | JoinKindAst::RightAnti => {
                match &first_alias {
                    Some(a) => {
                        ctx.mark_nullable(a.as_str());
                    }
                    None => {}
                }
            }
            JoinKindAst::FullOuter => {
                match &first_alias {
                    Some(a) => {
                        ctx.mark_nullable(a.as_str());
                    }
                    None => {}
                }
                match get_table_alias(&twj.joins[i].relation) {
                    Some(a) => {
                        ctx.mark_nullable(a.as_str());
                    }
                    None => {}
                }
            }
            _ => {}
        }
        proof {
            assert(ctx@ =~= apply_join_nullability(c2, fa, twj.joins@[i as int]));
        }
        i = i + 1;
    }
    proof {
        assert(twj.joins@.skip(n as int) =~= Seq::<JoinAst>::empty());
    }
    Ok(())
}

// ---------------------------------------------------------------------------
// Executable statement validation
// ---------------------------------------------------------------------------

/// Validate a `SELECT` body against a scope already holding the CTEs.
#[verifier::loop_isolation(false)]
pub fn validate_select_body_with_ctx(
    schema: &Schema,
    sel: &SelectAst,
    ctx: ResolveContext,
) -> (r: Result<QueryResult, Error>)
    ensures
        r matches Ok(q) ==> spec_select_body(schema@, ctx@, *sel)
            == Result::<Seq<QColV>, ErrV>::Ok(q@),
        r matches Err(e) ==> spec_select_body(schema@, ctx@, *sel)
            == Result::<Seq<QColV>, ErrV>::Err(e@),
{
    let ghost c0 = ctx@;
    let mut c = ctx;
    let n = sel.from.len();
    proof {
        assert(sel.from@.skip(0) =~= sel.from@);
    }
    let mut i: usize = 0;
    while i < n
        invariant
            i <= n,
            n == sel.from@.len(),
            spec_resolve_from(schema@, c0, sel.from@)
                == spec_resolve_from(schema@, c@, sel.from@.skip(i as int)),
        decreases n - i,
    {
        let ghost tail = sel.from@.skip(i as int);
        proof {
            assert(tail[0] == sel.from@[i as int]);
            assert(tail.drop_first() =~= sel.from@.skip(i + 1));
        }
        match resolve_table_refs(schema, &sel.from[i], &mut c) {
            Err(e) => {
                return Err(e);
            }
            Ok(_) => {}
        }
        i = i + 1;
    }
    proof {
        assert(sel.from@.skip(n as int) =~= Seq::<TableWithJoinsAst>::empty());
    }
    if sel.projection.len() == 0 {
        return Err(Error::InvalidQuery(String::from_str("Empty projection list")));
    }
    match project_items(schema, &c, &sel.projection) {
        Err(e) => Err(e),
        Ok(columns) => Ok(QueryResult { columns }),
    }
}

/// The spelled name of a set operator.
pub fn set_op_name(op: &SetOperatorAst) -> (r: &'static str)
    ensures r@ == set_op_name_spec(*op),
{
    match op {
        SetOperatorAst::Union => "UNION",
        SetOperatorAst::Intersect => "INTERSECT",
        SetOperatorAst::Except => "EXCEPT",
        SetOperatorAst::Minus => "MINUS",
    }
}

/// Validate a query body against a scope.
pub fn validate_set_expr(
    schema: &Schema,
    se: &SetExprAst,
    ctx: ResolveContext,
) -> (r: Result<QueryResult, Error>)
    ensures
        r matches Ok(q) ==> spec_validate_set_expr(schema@, *se, ctx@)
            == Result::<Seq<QColV>, ErrV>::Ok(q@),
        r matches Err(e) ==> spec_validate_set_expr(schema@, *se, ctx@)
            == Result::<Seq<QColV>, ErrV>::Err(e@),
    decreases set_expr_size(*se),
{
    match se {
        SetExprAst::Select(sel) => validate_select_body_with_ctx(schema, sel, ctx),
        SetExprAst::SetOperation { op, left, right } => {
            let lctx = ResolveContext::new();
            proof {
                assert(lctx@ =~= empty_ctx());
            }
            let lres = match validate_set_expr(schema, left, lctx) {
                Err(e) => {
                    return Err(e);
                }
                Ok(q) => q,
            };
            let rctx = ResolveContext::new();
            proof {
                assert(rctx@ =~= empty_ctx());
            }
            let rres = match validate_set_expr(schema, right, rctx) {
                Err(e) => {
                    return Err(e);
                }
                Ok(q) => q,
            };
            if lres.columns.len() != rres.columns.len() {
                let mut msg = String::from_str(set_op_name(op));
                msg.append(" requires both sides to have the same number of columns (left: ");
                let ln = usize_to_string(lres.columns.len());
                msg.append(ln.as_str());
                msg.append(", right: ");
                let rn = usize_to_string(rres.columns.len());
                msg.append(rn.as_str());
                msg.append(")");
                Err(Error::InvalidQuery(msg))
            } else {
                Ok(lres)
            }
        }
        SetExprAst::Query(q) => {
            let none: Vec<CteBinding> = Vec::new();
            proof {
                assert(ctes_view(none@) =~= Seq::<CBV>::empty());
            }
            validate_select(schema, q, &none)
        }
        SetExprAst::Other => Err(Error::InvalidQuery(String::from_str(
            "Only SELECT and set operations (UNION/INTERSECT/EXCEPT) are supported",
        ))),
    }
}

/// Apply CTE column aliases position-wise.
fn rename_columns(cols: &Vec<QueryColumn>, names: &Vec<String>) -> (r: Vec<QueryColumn>)
    ensures qcols_view(r@) == rename_cols(qcols_view(cols@), names@),
{
    let ghost target = rename_cols(qcols_view(cols@), names@);
    let n = if cols.len() <= names.len() {
        cols.len()
    } else {
        names.len()
    };
    let mut out: Vec<QueryColumn> = Vec::new();
    proof {
        assert(qcols_view(out@) =~= target.take(0));
    }
    let mut i: usize = 0;
    while i < n
        invariant
            i <= n,
            n <= cols@.len(),
            n <= names@.len(),
            target == rename_cols(qcols_view(cols@), names@),
            target.len() == n,
            qcols_view(out@) == target.take(i as int),
        decreases n - i,
    {
        let c = QueryColumn {
            name: names[i].clone(),
            rust_type: cols[i].rust_type.duplicate(),
        };
        let ghost prev = out@;
        let ghost cv = c@;
        out.push(c);
        proof {
            assert(cv == target[i as int]);
            assert(qcols_view(out@) =~= qcols_view(prev).push(cv));
            assert(target.take(i + 1) =~= target.take(i as int).push(target[i as int]));
        }
        i = i + 1;
    }
    proof {
        assert(target.take(n as int) =~= target);
    }
    out
}

/// Validate a full query, with `inherited` CTEs already in scope.
pub fn validate_select(
    schema: &Schema,
    q: &QueryAst,
    inherited: &Vec<CteBinding>,
) -> (r: Result<QueryResult, Error>)
    ensures
        r matches Ok(qr) ==> spec_validate_select(schema@, *q, ctes_view(inherited@))
            == Result::<Seq<QColV>, ErrV>::Ok(qr@),
        r matches Err(e) ==> spec_validate_select(schema@, *q, ctes_view(inherited@))
            == Result::<Seq<QColV>, ErrV>::Err(e@),
    decreases query_size(*q),
{
    let ghost full = spec_process_ctes(schema@, q.ctes@, ctes_view(inherited@));
    let mut ctx = ResolveContext {
        aliases: Vec::new(),
        nullable_aliases: Vec::new(),
        ctes: duplicate_ctes(inherited),
    };
    proof {
        assert(ctx@.aliases =~= Seq::<ABV>::empty());
        assert(ctx@.nullable =~= Seq::<Seq<char>>::empty());
        assert(q.ctes@.skip(0) =~= q.ctes@);
    }
    let n = q.ctes.len();
    let mut i: usize = 0;
    while i < n
        invariant
            i <= n,
            n == q.ctes@.len(),
            full == spec_process_ctes(schema@, q.ctes@, ctes_view(inherited@)),
            full == spec_process_ctes(schema@, q.ctes@.skip(i as int), ctx@.ctes),
            ctx@.aliases == Seq::<ABV>::empty(),
            ctx@.nullable == Seq::<Seq<char>>::empty(),
        decreases n - i,
    {
        let ghost tail = q.ctes@.skip(i as int);
        proof {
            assert(tail[0] == q.ctes@[i as int]);
            assert(tail.drop_first() =~= q.ctes@.skip(i + 1));
            lemma_cte_seq_size_elem(q.ctes@, i as int);
        }
        let sub = match validate_select(schema, &q.ctes[i].query, &ctx.ctes) {
            Err(e) => {
                return Err(e);
            }
            Ok(s) => s,
        };
        let cols = if q.ctes[i].column_aliases.len() > 0 {
            rename_columns(&sub.columns, &q.ctes[i].column_aliases)
        } else {
            sub.columns
        };
        ctx.add_cte(q.ctes[i].name.as_str(), cols);
        i = i + 1;
    }
    proof {
        assert(q.ctes@.skip(n as int) =~= Seq::<CteAst>::empty());
        assert(ctx@ =~= ctx_of_ctes(ctx@.ctes));
    }
    validate_set_expr(schema, &q.body, ctx)
}

/// Build the scope a `RETURNING` clause is typed in.
fn make_returning_ctx(tname: &String) -> (r: ResolveContext)
    ensures r@ == returning_ctx(tname@),
{
    let mut ctx = ResolveContext::new();
    ctx.add_alias(tname.as_str(), RelationRef::SchemaTable(tname.clone()));
    proof {
        assert(ctx@ =~= returning_ctx(tname@));
    }
    ctx
}

/// Validate an `INSERT` statement.
#[verifier::loop_isolation(false)]
pub fn validate_insert(schema: &Schema, ins: &InsertAst) -> (r: Result<QueryResult, Error>)
    ensures
        r matches Ok(q) ==> spec_validate_insert(schema@, *ins)
            == Result::<Seq<QColV>, ErrV>::Ok(q@),
        r matches Err(e) ==> spec_validate_insert(schema@, *ins)
            == Result::<Seq<QColV>, ErrV>::Err(e@),
{
    let tname = match last_ident(&ins.table_parts) {
        Some(s) => s,
        None => {
            return Err(Error::InvalidQuery(String::from_str("Empty table name")));
        }
    };
    let table = match schema.get_table(tname.as_str()) {
        Some(t) => t,
        None => {
            return Err(Error::UnknownTable(tname.clone()));
        }
    };
    let n = ins.columns.len();
    proof {
        assert(ins.columns@.skip(0) =~= ins.columns@);
    }
    let mut i: usize = 0;
    while i < n
        invariant
            i <= n,
            n == ins.columns@.len(),
            table@.columns == cols_view(table.columns@),
            spec_check_insert_columns(table@.columns, tname@, ins.columns@)
                == spec_check_insert_columns(table@.columns, tname@, ins.columns@.skip(i as int)),
        decreases n - i,
    {
        let ghost tail = ins.columns@.skip(i as int);
        proof {
            assert(tail[0] == ins.columns@[i as int]);
            assert(tail.drop_first() =~= ins.columns@.skip(i + 1));
        }
        if !table.has_column(ins.columns[i].as_str()) {
            return Err(Error::UnknownColumn {
                table: tname.clone(),
                column: ins.columns[i].clone(),
            });
        }
        i = i + 1;
    }
    proof {
        assert(ins.columns@.skip(n as int) =~= Seq::<String>::empty());
    }
    match &ins.returning {
        Some(items) => {
            let rctx = make_returning_ctx(tname);
            match project_items(schema, &rctx, items) {
                Err(e) => Err(e),
                Ok(columns) => Ok(QueryResult { columns }),
            }
        }
        None => {
            let columns: Vec<QueryColumn> = Vec::new();
            proof {
                assert(qcols_view(columns@) =~= Seq::<QColV>::empty());
            }
            Ok(QueryResult { columns })
        }
    }
}

/// The table an `UPDATE` or `DELETE` addresses.
fn target_table_name(f: &TableFactorAst) -> (r: Result<String, Error>)
    ensures
        r matches Ok(s) ==> spec_target_table_name(*f) == Result::<Seq<char>, ErrV>::Ok(s@),
        r matches Err(e) ==> spec_target_table_name(*f) == Result::<Seq<char>, ErrV>::Err(e@),
{
    match f {
        TableFactorAst::Table { name_parts, alias: _ } => match last_ident(name_parts) {
            Some(s) => Ok(s.clone()),
            None => Err(Error::InvalidQuery(String::from_str("Empty table name"))),
        },
        _ => Err(Error::InvalidQuery(String::from_str(
            "Complex table expressions not supported in UPDATE",
        ))),
    }
}

/// Validate an `UPDATE` statement.
#[verifier::loop_isolation(false)]
pub fn validate_update(schema: &Schema, upd: &UpdateAst) -> (r: Result<QueryResult, Error>)
    ensures
        r matches Ok(q) ==> spec_validate_update(schema@, *upd)
            == Result::<Seq<QColV>, ErrV>::Ok(q@),
        r matches Err(e) ==> spec_validate_update(schema@, *upd)
            == Result::<Seq<QColV>, ErrV>::Err(e@),
{
    let tname = match target_table_name(&upd.table) {
        Ok(s) => s,
        Err(e) => {
            return Err(e);
        }
    };
    let table = match schema.get_table(tname.as_str()) {
        Some(t) => t,
        None => {
            return Err(Error::UnknownTable(tname));
        }
    };
    let n = upd.assignments.len();
    proof {
        assert(upd.assignments@.skip(0) =~= upd.assignments@);
    }
    let mut i: usize = 0;
    while i < n
        invariant
            i <= n,
            n == upd.assignments@.len(),
            table@.columns == cols_view(table.columns@),
            spec_check_assignments(table@.columns, tname@, upd.assignments@)
                == spec_check_assignments(
                table@.columns,
                tname@,
                upd.assignments@.skip(i as int),
            ),
        decreases n - i,
    {
        let ghost tail = upd.assignments@.skip(i as int);
        proof {
            assert(tail[0] == upd.assignments@[i as int]);
            assert(tail.drop_first() =~= upd.assignments@.skip(i + 1));
        }
        match &upd.assignments[i] {
            AssignTargetAst::ColumnName(parts) => {
                let col = match last_ident(parts) {
                    Some(s) => s,
                    None => {
                        return Err(Error::InvalidQuery(String::from_str(
                            "Empty column name in assignment",
                        )));
                    }
                };
                if !table.has_column(col.as_str()) {
                    return Err(Error::UnknownColumn {
                        table: tname.clone(),
                        column: col.clone(),
                    });
                }
            }
            AssignTargetAst::Tuple(list) => {
                let m = list.len();
                proof {
                    assert(list@.skip(0) =~= list@);
                }
                let mut k: usize = 0;
                while k < m
                    invariant
                        k <= m,
                        m == list@.len(),
                        table@.columns == cols_view(table.columns@),
                        spec_check_tuple_columns(table@.columns, tname@, list@)
                            == spec_check_tuple_columns(
                            table@.columns,
                            tname@,
                            list@.skip(k as int),
                        ),
                    decreases m - k,
                {
                    let ghost tl = list@.skip(k as int);
                    proof {
                        assert(tl[0] == list@[k as int]);
                        assert(tl.drop_first() =~= list@.skip(k + 1));
                    }
                    let col = match last_ident(&list[k]) {
                        Some(s) => s,
                        None => {
                            return Err(Error::InvalidQuery(String::from_str(
                                "Empty column name in tuple assignment",
                            )));
                        }
                    };
                    if !table.has_column(col.as_str()) {
                        return Err(Error::UnknownColumn {
                            table: tname.clone(),
                            column: col.clone(),
                        });
                    }
                    k = k + 1;
                }
                proof {
                    assert(list@.skip(m as int) =~= Seq::<Vec<Option<String>>>::empty());
                }
            }
        }
        i = i + 1;
    }
    proof {
        assert(upd.assignments@.skip(n as int) =~= Seq::<AssignTargetAst>::empty());
    }
    match &upd.returning {
        Some(items) => {
            let rctx = make_returning_ctx(&tname);
            match project_items(schema, &rctx, items) {
                Err(e) => Err(e),
                Ok(columns) => Ok(QueryResult { columns }),
            }
        }
        None => {
            let columns: Vec<QueryColumn> = Vec::new();
            proof {
                assert(qcols_view(columns@) =~= Seq::<QColV>::empty());
            }
            Ok(QueryResult { columns })
        }
    }
}

/// Validate a `DELETE` statement.
pub fn validate_delete(schema: &Schema, del: &DeleteAst) -> (r: Result<QueryResult, Error>)
    ensures
        r matches Ok(q) ==> spec_validate_delete(schema@, *del)
            == Result::<Seq<QColV>, ErrV>::Ok(q@),
        r matches Err(e) ==> spec_validate_delete(schema@, *del)
            == Result::<Seq<QColV>, ErrV>::Err(e@),
{
    if del.from.len() == 0 {
        return Err(Error::InvalidQuery(String::from_str(
            "DELETE requires at least one table",
        )));
    }
    let tname = match target_table_name(&del.from[0].relation) {
        Ok(s) => s,
        Err(e) => {
            return Err(e);
        }
    };
    if !schema.has_table(tname.as_str()) {
        return Err(Error::UnknownTable(tname));
    }
    match &del.returning {
        Some(items) => {
            let rctx = make_returning_ctx(&tname);
            match project_items(schema, &rctx, items) {
                Err(e) => Err(e),
                Ok(columns) => Ok(QueryResult { columns }),
            }
        }
        None => {
            let columns: Vec<QueryColumn> = Vec::new();
            proof {
                assert(qcols_view(columns@) =~= Seq::<QColV>::empty());
            }
            Ok(QueryResult { columns })
        }
    }
}

/// Validate one parsed statement list against a schema and return the
/// typed result columns. Exactly one statement is expected; its tables,
/// columns and clauses are checked against the catalog and each projected
/// expression receives a nullable-aware logical type.
pub fn validate_query(schema: &Schema, stmts: &Vec<SqlStatement>) -> (r: Result<
    QueryResult,
    Error,
>)
    ensures
        r matches Ok(q) ==> spec_validate_query(schema@, stmts@)
            == Result::<Seq<QColV>, ErrV>::Ok(q@),
        r matches Err(e) ==> spec_validate_query(schema@, stmts@)
            == Result::<Seq<QColV>, ErrV>::Err(e@),
{
    if stmts.len() != 1 {
        return Err(Error::InvalidQuery(String::from_str("Expected exactly one statement")));
    }
    match &stmts[0] {
        SqlStatement::Query(q) => {
            let none: Vec<CteBinding> = Vec::new();
            proof {
                assert(ctes_view(none@) =~= Seq::<CBV>::empty());
            }
            validate_select(schema, q, &none)
        }
        SqlStatement::Insert(i) => validate_insert(schema, i),
        SqlStatement::Update(u) => validate_update(schema, u),
        SqlStatement::Delete(d) => validate_delete(schema, d),
        SqlStatement::Other => Err(Error::InvalidQuery(String::from_str(
            "Only SELECT, INSERT, UPDATE, and DELETE are supported",
        ))),
    }
}

} // verus!
