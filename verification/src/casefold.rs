//! Case insensitivity of validation, in full: two statements that differ
//! only in the spelling of their identifiers validate alike — the same
//! one succeeds or fails, the result types are identical, and the result
//! names follow each statement's own projection spelling.
//!
//! `rel_*` define when two values are the same up to case folding of
//! identifiers; the lemmas carry that relation through every layer of the
//! validator.
use vstd::prelude::*;
use crate::ast::{
    AssignTargetAst, CteAst, DeleteAst, InsertAst, JoinAst, QueryAst, SelectAst, SelectItemAst,
    SetExprAst, SqlExpr, SqlStatement, TableFactorAst, TableWithJoinsAst, UpdateAst,
    cte_seq_size, expr_size, first_ident_spec, last_ident_spec, query_size, set_expr_size,
};
use crate::error::ErrV;
use crate::infer::{builtin_function_type, cte_matches, spec_infer, table_matches};
use crate::laws::{
    lemma_find_col_case_insensitive, lemma_find_qcol_case_insensitive,
    lemma_find_table_case_insensitive, lemma_nullable_mark_case_insensitive,
};
use crate::schema::{TableV, find_table_spec, find_col_spec};
use crate::scope::{
    ABV, CBV, CtxV, QColV, RelV, add_alias_spec, add_cte_spec, find_qcol, is_marked_nullable,
    lookup_alias_spec, lookup_cte_spec, mark_nullable_spec,
};
use crate::text::{fold_seq, lemma_fold_idempotent, same_ident};
use crate::types::from_sql_name_spec;
use crate::validate::{
    alias_wildcard_cols, apply_join_nullability, ctx_of_ctes, empty_ctx, get_table_alias_spec,
    rename_cols, returning_ctx, spec_check_assignments, spec_check_insert_columns,
    spec_check_tuple_columns, spec_item_cols, spec_process_ctes, spec_project,
    spec_qualified_wildcard, spec_resolve_factor, spec_resolve_from, spec_resolve_joins,
    spec_resolve_twj, spec_returning, spec_select_body, spec_target_table_name,
    spec_validate_delete, spec_validate_insert, spec_validate_query, spec_validate_select,
    spec_validate_set_expr, spec_validate_update, wildcard_all, wrapped_cte_cols,
    wrapped_table_cols,
};

verus! {

// ---------------------------------------------------------------------------
// Fold equivalence of statements
// ---------------------------------------------------------------------------

/// Optional identifiers that agree up to folding.
pub open spec fn rel_opt_string(a: Option<String>, b: Option<String>) -> bool {
    match (a, b) {
        (Option::None, Option::None) => true,
        (Option::Some(x), Option::Some(y)) => same_ident(x@, y@),
        _ => false,
    }
}

/// Qualified-name part lists that agree up to folding.
pub open spec fn rel_parts(a: Seq<Option<String>>, b: Seq<Option<String>>) -> bool {
    a.len() == b.len() && forall|i: int| 0 <= i < a.len() ==> rel_opt_string(
        #[trigger] a[i],
        b[i],
    )
}

/// Identifier lists that agree up to folding.
pub open spec fn rel_idents(a: Seq<String>, b: Seq<String>) -> bool {
    a.len() == b.len() && forall|i: int| 0 <= i < a.len() ==> same_ident(
        (#[trigger] a[i])@,
        b[i]@,
    )
}

/// Expressions that agree up to the spelling of their identifiers.
pub open spec fn rel_expr(a: SqlExpr, b: SqlExpr) -> bool
    decreases expr_size(a),
{
    match (a, b) {
        (SqlExpr::Identifier(x), SqlExpr::Identifier(y)) => same_ident(x@, y@),
        (SqlExpr::CompoundIdentifier(xs), SqlExpr::CompoundIdentifier(ys)) => rel_idents(
            xs@,
            ys@,
        ),
        (
            SqlExpr::Function { name_parts: np1, first_arg: fa1 },
            SqlExpr::Function { name_parts: np2, first_arg: fa2 },
        ) => rel_parts(np1@, np2@) && (match (fa1, fa2) {
            (Option::None, Option::None) => true,
            (Option::Some(x), Option::Some(y)) => rel_expr(*x, *y),
            _ => false,
        }),
        (SqlExpr::Value(v1), SqlExpr::Value(v2)) => v1 == v2,
        (
            SqlExpr::Cast { expr: e1, target_text: t1 },
            SqlExpr::Cast { expr: e2, target_text: t2 },
        ) => rel_expr(*e1, *e2) && same_ident(t1@, t2@),
        (SqlExpr::BinaryOp { left: l1 }, SqlExpr::BinaryOp { left: l2 }) => rel_expr(*l1, *l2),
        (SqlExpr::Nested(i1), SqlExpr::Nested(i2)) => rel_expr(*i1, *i2),
        _ => a == b,
    }
}

/// Projection items that agree up to folding.
pub open spec fn rel_item(a: SelectItemAst, b: SelectItemAst) -> bool {
    match (a, b) {
        (SelectItemAst::UnnamedExpr(e1), SelectItemAst::UnnamedExpr(e2)) => rel_expr(e1, e2),
        (
            SelectItemAst::ExprWithAlias { expr: e1, alias: a1 },
            SelectItemAst::ExprWithAlias { expr: e2, alias: a2 },
        ) => rel_expr(e1, e2) && same_ident(a1@, a2@),
        (SelectItemAst::Wildcard, SelectItemAst::Wildcard) => true,
        (
            SelectItemAst::QualifiedWildcard { name_parts: p1 },
            SelectItemAst::QualifiedWildcard { name_parts: p2 },
        ) => rel_parts(p1@, p2@),
        (SelectItemAst::WildcardExpr, SelectItemAst::WildcardExpr) => true,
        _ => false,
    }
}

pub open spec fn rel_items(a: Seq<SelectItemAst>, b: Seq<SelectItemAst>) -> bool {
    a.len() == b.len() && forall|i: int| 0 <= i < a.len() ==> rel_item(#[trigger] a[i], b[i])
}

/// Table factors that agree up to folding.
pub open spec fn rel_factor(a: TableFactorAst, b: TableFactorAst) -> bool {
    match (a, b) {
        (
            TableFactorAst::Table { name_parts: p1, alias: a1 },
            TableFactorAst::Table { name_parts: p2, alias: a2 },
        ) => rel_parts(p1@, p2@) && rel_opt_string(a1, a2),
        (TableFactorAst::Derived { alias: a1 }, TableFactorAst::Derived { alias: a2 }) =>
            rel_opt_string(a1, a2),
        (TableFactorAst::Other, TableFactorAst::Other) => true,
        _ => false,
    }
}

pub open spec fn rel_join(a: JoinAst, b: JoinAst) -> bool {
    rel_factor(a.relation, b.relation) && a.operator == b.operator
}

pub open spec fn rel_twj(a: TableWithJoinsAst, b: TableWithJoinsAst) -> bool {
    rel_factor(a.relation, b.relation) && a.joins@.len() == b.joins@.len() && forall|i: int|
        0 <= i < a.joins@.len() ==> rel_join(#[trigger] a.joins@[i], b.joins@[i])
}

pub open spec fn rel_from(a: Seq<TableWithJoinsAst>, b: Seq<TableWithJoinsAst>) -> bool {
    a.len() == b.len() && forall|i: int| 0 <= i < a.len() ==> rel_twj(#[trigger] a[i], b[i])
}

pub open spec fn rel_select(a: SelectAst, b: SelectAst) -> bool {
    rel_items(a.projection@, b.projection@) && rel_from(a.from@, b.from@)
}

/// Query bodies that agree up to folding.
pub open spec fn rel_set_expr(a: SetExprAst, b: SetExprAst) -> bool
    decreases set_expr_size(a),
{
    match (a, b) {
        (SetExprAst::Select(s1), SetExprAst::Select(s2)) => rel_select(*s1, *s2),
        (
            SetExprAst::SetOperation { op: o1, left: l1, right: r1 },
            SetExprAst::SetOperation { op: o2, left: l2, right: r2 },
        ) => o1 == o2 && rel_set_expr(*l1, *l2) && rel_set_expr(*r1, *r2),
        (SetExprAst::Query(q1), SetExprAst::Query(q2)) => rel_query(*q1, *q2),
        (SetExprAst::Other, SetExprAst::Other) => true,
        _ => false,
    }
}

pub open spec fn rel_ctes(a: Seq<CteAst>, b: Seq<CteAst>) -> bool
    decreases cte_seq_size(a),
{
    a.len() == b.len() && (a.len() == 0 || (same_ident(a[0].name@, b[0].name@) && rel_idents(
        a[0].column_aliases@,
        b[0].column_aliases@,
    ) && rel_query(*a[0].query, *b[0].query) && rel_ctes(a.drop_first(), b.drop_first())))
}

/// Queries that agree up to folding.
pub open spec fn rel_query(a: QueryAst, b: QueryAst) -> bool
    decreases query_size(a),
{
    rel_ctes(a.ctes@, b.ctes@) && rel_set_expr(a.body, b.body)
}

pub open spec fn rel_target(a: AssignTargetAst, b: AssignTargetAst) -> bool {
    match (a, b) {
        (AssignTargetAst::ColumnName(p1), AssignTargetAst::ColumnName(p2)) => rel_parts(
            p1@,
            p2@,
        ),
        (AssignTargetAst::Tuple(t1), AssignTargetAst::Tuple(t2)) => t1@.len() == t2@.len()
            && forall|i: int| 0 <= i < t1@.len() ==> rel_parts((#[trigger] t1@[i])@, t2@[i]@),
        _ => false,
    }
}

pub open spec fn rel_returning(
    a: Option<Vec<SelectItemAst>>,
    b: Option<Vec<SelectItemAst>>,
) -> bool {
    match (a, b) {
        (Option::None, Option::None) => true,
        (Option::Some(x), Option::Some(y)) => rel_items(x@, y@),
        _ => false,
    }
}

/// Statements that agree up to the spelling of their identifiers.
pub open spec fn rel_stmt(a: SqlStatement, b: SqlStatement) -> bool {
    match (a, b) {
        (SqlStatement::Query(q1), SqlStatement::Query(q2)) => rel_query(*q1, *q2),
        (SqlStatement::Insert(i1), SqlStatement::Insert(i2)) => rel_parts(
            i1.table_parts@,
            i2.table_parts@,
        ) && rel_idents(i1.columns@, i2.columns@) && rel_returning(i1.returning, i2.returning),
        (SqlStatement::Update(u1), SqlStatement::Update(u2)) => rel_factor(u1.table, u2.table)
            && u1.assignments@.len() == u2.assignments@.len() && (forall|i: int|
            0 <= i < u1.assignments@.len() ==> rel_target(
                #[trigger] u1.assignments@[i],
                u2.assignments@[i],
            )) && rel_returning(u1.returning, u2.returning),
        (SqlStatement::Delete(d1), SqlStatement::Delete(d2)) => rel_from(d1.from@, d2.from@)
            && rel_returning(d1.returning, d2.returning),
        (SqlStatement::Other, SqlStatement::Other) => true,
        _ => false,
    }
}

pub open spec fn rel_stmts(a: Seq<SqlStatement>, b: Seq<SqlStatement>) -> bool {
    a.len() == b.len() && forall|i: int| 0 <= i < a.len() ==> rel_stmt(#[trigger] a[i], b[i])
}

// ---------------------------------------------------------------------------
// Fold equivalence of scopes and results
// ---------------------------------------------------------------------------

/// Result columns with fold-equal names and identical types.
pub open spec fn rel_qcol(a: QColV, b: QColV) -> bool {
    same_ident(a.name, b.name) && a.rust_type == b.rust_type
}

pub open spec fn rel_qcols(a: Seq<QColV>, b: Seq<QColV>) -> bool {
    a.len() == b.len() && forall|i: int| 0 <= i < a.len() ==> rel_qcol(#[trigger] a[i], b[i])
}

pub open spec fn rel_relv(a: RelV, b: RelV) -> bool {
    match (a, b) {
        (RelV::SchemaTable(x), RelV::SchemaTable(y)) => same_ident(x, y),
        (RelV::Cte(x), RelV::Cte(y)) => x == y,
        (RelV::Opaque, RelV::Opaque) => true,
        _ => false,
    }
}

pub open spec fn rel_abv(a: ABV, b: ABV) -> bool {
    a.key == b.key && rel_relv(a.target, b.target)
}

pub open spec fn rel_cbv(a: CBV, b: CBV) -> bool {
    a.name == b.name && rel_qcols(a.columns, b.columns)
}

/// Scopes that agree up to folding: keys and marks are stored folded, so
/// they are equal outright; bound relations and CTE columns are related.
pub open spec fn rel_ctx(a: CtxV, b: CtxV) -> bool {
    &&& a.aliases.len() == b.aliases.len()
    &&& forall|i: int| 0 <= i < a.aliases.len() ==> rel_abv(#[trigger] a.aliases[i], b.aliases[i])
    &&& a.nullable == b.nullable
    &&& a.ctes.len() == b.ctes.len()
    &&& forall|i: int| 0 <= i < a.ctes.len() ==> rel_cbv(#[trigger] a.ctes[i], b.ctes[i])
}

/// Validation outcomes that agree: the same one succeeds, and then the
/// columns are related.
pub open spec fn rel_outcome(a: Result<Seq<QColV>, ErrV>, b: Result<Seq<QColV>, ErrV>) -> bool {
    ((a is Ok) <==> (b is Ok)) && (a is Ok ==> rel_qcols(a->Ok_0, b->Ok_0))
}

/// Scope outcomes that agree.
pub open spec fn rel_ctx_outcome(a: Result<CtxV, ErrV>, b: Result<CtxV, ErrV>) -> bool {
    ((a is Ok) <==> (b is Ok)) && (a is Ok ==> rel_ctx(a->Ok_0, b->Ok_0))
}

// ---------------------------------------------------------------------------
// Congruence of the lookups
// ---------------------------------------------------------------------------

proof fn lemma_find_col_same(cols: Seq<crate::schema::ColumnV>, n1: Seq<char>, n2: Seq<char>)
    requires same_ident(n1, n2),
    ensures find_col_spec(cols, n1) == find_col_spec(cols, n2),
{
    lemma_find_col_case_insensitive(cols, n1);
    lemma_find_col_case_insensitive(cols, n2);
}

proof fn lemma_find_table_same(tables: Seq<TableV>, n1: Seq<char>, n2: Seq<char>)
    requires same_ident(n1, n2),
    ensures find_table_spec(tables, n1) == find_table_spec(tables, n2),
{
    lemma_find_table_case_insensitive(tables, n1);
    lemma_find_table_case_insensitive(tables, n2);
}

proof fn lemma_marked_same(nullable: Seq<Seq<char>>, n1: Seq<char>, n2: Seq<char>)
    requires same_ident(n1, n2),
    ensures is_marked_nullable(nullable, n1) == is_marked_nullable(nullable, n2),
{
    lemma_nullable_mark_case_insensitive(nullable, n1);
    lemma_nullable_mark_case_insensitive(nullable, n2);
}

proof fn lemma_rel_find_qcol(c1: Seq<QColV>, c2: Seq<QColV>, n1: Seq<char>, n2: Seq<char>)
    requires rel_qcols(c1, c2), same_ident(n1, n2),
    ensures find_qcol(c1, n1) == find_qcol(c2, n2),
    decreases c1.len(),
{
    if c1.len() > 0 {
        assert(rel_qcol(c1[0], c2[0]));
        assert(same_ident(c1[0].name, n1) == same_ident(c2[0].name, n2));
        assert forall|i: int| 0 <= i < c1.drop_first().len() implies rel_qcol(
            #[trigger] c1.drop_first()[i],
            c2.drop_first()[i],
        ) by {
            assert(c1.drop_first()[i] == c1[i + 1]);
            assert(c2.drop_first()[i] == c2[i + 1]);
        }
        lemma_rel_find_qcol(c1.drop_first(), c2.drop_first(), n1, n2);
    }
}

proof fn lemma_rel_lookup_alias(a1: Seq<ABV>, a2: Seq<ABV>, n1: Seq<char>, n2: Seq<char>)
    requires
        a1.len() == a2.len(),
        forall|i: int| 0 <= i < a1.len() ==> rel_abv(#[trigger] a1[i], a2[i]),
        same_ident(n1, n2),
    ensures lookup_alias_spec(a1, n1) == lookup_alias_spec(a2, n2),
    decreases a1.len(),
{
    if a1.len() > 0 {
        assert(rel_abv(a1[0], a2[0]));
        assert(same_ident(a1[0].key, n1) == same_ident(a2[0].key, n2));
        assert forall|i: int| 0 <= i < a1.drop_first().len() implies rel_abv(
            #[trigger] a1.drop_first()[i],
            a2.drop_first()[i],
        ) by {
            assert(a1.drop_first()[i] == a1[i + 1]);
            assert(a2.drop_first()[i] == a2[i + 1]);
        }
        lemma_rel_lookup_alias(a1.drop_first(), a2.drop_first(), n1, n2);
    }
}

proof fn lemma_rel_lookup_cte(c1: Seq<CBV>, c2: Seq<CBV>, n1: Seq<char>, n2: Seq<char>)
    requires
        c1.len() == c2.len(),
        forall|i: int| 0 <= i < c1.len() ==> rel_cbv(#[trigger] c1[i], c2[i]),
        same_ident(n1, n2),
    ensures lookup_cte_spec(c1, n1) == lookup_cte_spec(c2, n2),
    decreases c1.len(),
{
    if c1.len() > 0 {
        assert(rel_cbv(c1[0], c2[0]));
        assert(same_ident(c1[0].name, n1) == same_ident(c2[0].name, n2));
        assert forall|i: int| 0 <= i < c1.drop_first().len() implies rel_cbv(
            #[trigger] c1.drop_first()[i],
            c2.drop_first()[i],
        ) by {
            assert(c1.drop_first()[i] == c1[i + 1]);
            assert(c2.drop_first()[i] == c2[i + 1]);
        }
        lemma_rel_lookup_cte(c1.drop_first(), c2.drop_first(), n1, n2);
    }
}

// ---------------------------------------------------------------------------
// Congruence of the unqualified-column search
// ---------------------------------------------------------------------------

proof fn lemma_rel_matches(
    schema: Seq<TableV>,
    x: CtxV,
    y: CtxV,
    n1: Seq<char>,
    n2: Seq<char>,
)
    requires rel_ctx(x, y), same_ident(n1, n2),
    ensures
        cte_matches(x.aliases, x.ctes, n1) == cte_matches(y.aliases, y.ctes, n2),
        table_matches(schema, x.aliases, n1) == table_matches(schema, y.aliases, n2),
    decreases x.aliases.len(),
{
    if x.aliases.len() > 0 {
        assert(rel_abv(x.aliases[0], y.aliases[0]));
        let xr = CtxV { aliases: x.aliases.drop_first(), ..x };
        let yr = CtxV { aliases: y.aliases.drop_first(), ..y };
        assert forall|i: int| 0 <= i < xr.aliases.len() implies rel_abv(
            #[trigger] xr.aliases[i],
            yr.aliases[i],
        ) by {
            assert(xr.aliases[i] == x.aliases[i + 1]);
            assert(yr.aliases[i] == y.aliases[i + 1]);
        }
        lemma_rel_matches(schema, xr, yr, n1, n2);
        match x.aliases[0].target {
            RelV::Cte(cn1) => {
                match y.aliases[0].target {
                    RelV::Cte(cn2) => {
                        lemma_rel_lookup_cte(x.ctes, y.ctes, cn1, cn2);
                        match lookup_cte_spec(x.ctes, cn1) {
                            Some(j) => {
                                crate::scope::lemma_lookup_cte_props(x.ctes, cn1);
                                assert(rel_cbv(x.ctes[j], y.ctes[j]));
                                lemma_rel_find_qcol(
                                    x.ctes[j].columns,
                                    y.ctes[j].columns,
                                    n1,
                                    n2,
                                );
                                match find_qcol(x.ctes[j].columns, n1) {
                                    Some(k) => {
                                        crate::scope::lemma_find_qcol_props(
                                            x.ctes[j].columns,
                                            n1,
                                        );
                                        assert(rel_qcol(
                                            x.ctes[j].columns[k],
                                            y.ctes[j].columns[k],
                                        ));
                                    }
                                    None => {}
                                }
                            }
                            None => {}
                        }
                    }
                    _ => {}
                }
            }
            RelV::SchemaTable(tn1) => {
                match y.aliases[0].target {
                    RelV::SchemaTable(tn2) => {
                        lemma_find_table_same(schema, tn1, tn2);
                        match find_table_spec(schema, tn1) {
                            Some(ti) => {
                                lemma_find_col_same(schema[ti].columns, n1, n2);
                            }
                            None => {}
                        }
                    }
                    _ => {}
                }
            }
            RelV::Opaque => {}
        }
        assert(cte_matches(x.aliases, x.ctes, n1) == cte_matches(y.aliases, y.ctes, n2));
        assert(table_matches(schema, x.aliases, n1) == table_matches(schema, y.aliases, n2));
    }
}

// ---------------------------------------------------------------------------
// Congruence of the typer
// ---------------------------------------------------------------------------

proof fn lemma_from_sql_name_same(t1: Seq<char>, t2: Seq<char>)
    requires same_ident(t1, t2),
    ensures from_sql_name_spec(t1) == from_sql_name_spec(t2),
{
    assert(crate::text::trim_seq(fold_seq(t1)) == crate::text::trim_seq(fold_seq(t2)));
}

/// Typing outcomes that agree: the same one succeeds, with a fold-equal
/// name and an identical type.
pub open spec fn rel_typing(
    a: Result<(Seq<char>, crate::types::LTy), ErrV>,
    b: Result<(Seq<char>, crate::types::LTy), ErrV>,
) -> bool {
    ((a is Ok) <==> (b is Ok)) && (a is Ok ==> same_ident(a->Ok_0.0, b->Ok_0.0) && a->Ok_0.1
        == b->Ok_0.1)
}

proof fn lemma_rel_last_ident(p1: Seq<Option<String>>, p2: Seq<Option<String>>)
    requires rel_parts(p1, p2),
    ensures
        ({
            let a = last_ident_spec(p1);
            let b = last_ident_spec(p2);
            ((a is Some) <==> (b is Some)) && (a is Some ==> same_ident(a->0, b->0))
        }),
{
    if p1.len() > 0 {
        assert(rel_opt_string(p1[p1.len() - 1], p2[p2.len() - 1]));
    }
}

proof fn lemma_rel_first_ident(p1: Seq<Option<String>>, p2: Seq<Option<String>>)
    requires rel_parts(p1, p2),
    ensures
        ({
            let a = first_ident_spec(p1);
            let b = first_ident_spec(p2);
            ((a is Some) <==> (b is Some)) && (a is Some ==> same_ident(a->0, b->0))
        }),
{
    if p1.len() > 0 {
        assert(rel_opt_string(p1[0], p2[0]));
    }
}

proof fn lemma_rel_infer(schema: Seq<TableV>, x: CtxV, y: CtxV, e1: SqlExpr, e2: SqlExpr)
    requires rel_ctx(x, y), rel_expr(e1, e2),
    ensures rel_typing(spec_infer(schema, x, e1), spec_infer(schema, y, e2)),
    decreases expr_size(e1),
{
    match e1 {
        SqlExpr::Identifier(n1) => {
            match e2 {
                SqlExpr::Identifier(n2) => {
                    lemma_rel_matches(schema, x, y, n1@, n2@);
                    let cm = cte_matches(x.aliases, x.ctes, n1@);
                    if cm.len() == 1 {
                        lemma_marked_same(x.nullable, cm[0].0, cm[0].0);
                    } else {
                        let tm = table_matches(schema, x.aliases, n1@);
                        if tm.len() == 1 {
                            lemma_marked_same(x.nullable, tm[0].0, tm[0].0);
                        }
                    }
                }
                _ => {}
            }
        }
        SqlExpr::CompoundIdentifier(i1) => {
            match e2 {
                SqlExpr::CompoundIdentifier(i2) => {
                    if i1@.len() == 2 {
                        let al1 = i1@[0]@;
                        let al2 = i2@[0]@;
                        let co1 = i1@[1]@;
                        let co2 = i2@[1]@;
                        assert(same_ident(al1, al2));
                        assert(same_ident(co1, co2));
                        lemma_rel_lookup_alias(x.aliases, y.aliases, al1, al2);
                        match lookup_alias_spec(x.aliases, al1) {
                            None => {}
                            Some(ai) => {
                                crate::scope::lemma_lookup_alias_props(x.aliases, al1);
                                assert(rel_abv(x.aliases[ai], y.aliases[ai]));
                                match x.aliases[ai].target {
                                    RelV::Opaque => {}
                                    RelV::Cte(cn1) => {
                                        match y.aliases[ai].target {
                                            RelV::Cte(cn2) => {
                                                lemma_rel_lookup_cte(x.ctes, y.ctes, cn1, cn2);
                                                match lookup_cte_spec(x.ctes, cn1) {
                                                    None => {}
                                                    Some(j) => {
                                                        crate::scope::lemma_lookup_cte_props(
                                                            x.ctes,
                                                            cn1,
                                                        );
                                                        assert(rel_cbv(x.ctes[j], y.ctes[j]));
                                                        lemma_rel_find_qcol(
                                                            x.ctes[j].columns,
                                                            y.ctes[j].columns,
                                                            co1,
                                                            co2,
                                                        );
                                                        match find_qcol(
                                                            x.ctes[j].columns,
                                                            co1,
                                                        ) {
                                                            None => {}
                                                            Some(k) => {
                                                                crate::scope::lemma_find_qcol_props(
                                                                    x.ctes[j].columns,
                                                                    co1,
                                                                );
                                                                assert(rel_qcol(
                                                                    x.ctes[j].columns[k],
                                                                    y.ctes[j].columns[k],
                                                                ));
                                                                lemma_marked_same(
                                                                    x.nullable,
                                                                    al1,
                                                                    al2,
                                                                );
                                                            }
                                                        }
                                                    }
                                                }
                                            }
                                            _ => {}
                                        }
                                    }
                                    RelV::SchemaTable(tn1) => {
                                        match y.aliases[ai].target {
                                            RelV::SchemaTable(tn2) => {
                                                lemma_find_table_same(schema, tn1, tn2);
                                                match find_table_spec(schema, tn1) {
                                                    None => {}
                                                    Some(ti) => {
                                                        lemma_find_col_same(
                                                            schema[ti].columns,
                                                            co1,
                                                            co2,
                                                        );
                                                        lemma_marked_same(
                                                            x.nullable,
                                                            al1,
                                                            al2,
                                                        );
                                                    }
                                                }
                                            }
                                            _ => {}
                                        }
                                    }
                                }
                            }
                        }
                    }
                }
                _ => {}
            }
        }
        SqlExpr::Function { name_parts: p1, first_arg: fa1 } => {
            match e2 {
                SqlExpr::Function { name_parts: p2, first_arg: fa2 } => {
                    lemma_rel_last_ident(p1@, p2@);
                    let fn1 = match last_ident_spec(p1@) {
                        Some(n) => fold_seq(n),
                        None => Seq::<char>::empty(),
                    };
                    let fn2 = match last_ident_spec(p2@) {
                        Some(n) => fold_seq(n),
                        None => Seq::<char>::empty(),
                    };
                    assert(fn1 == fn2);
                    match fa1 {
                        Some(b1) => {
                            match fa2 {
                                Some(b2) => {
                                    lemma_rel_infer(schema, x, y, *b1, *b2);
                                }
                                None => {}
                            }
                        }
                        None => {}
                    }
                }
                _ => {}
            }
        }
        SqlExpr::Cast { expr: i1, target_text: t1 } => {
            match e2 {
                SqlExpr::Cast { expr: i2, target_text: t2 } => {
                    lemma_rel_infer(schema, x, y, *i1, *i2);
                    lemma_from_sql_name_same(t1@, t2@);
                }
                _ => {}
            }
        }
        SqlExpr::BinaryOp { left: l1 } => {
            match e2 {
                SqlExpr::BinaryOp { left: l2 } => {
                    lemma_rel_infer(schema, x, y, *l1, *l2);
                }
                _ => {}
            }
        }
        SqlExpr::Nested(i1) => {
            match e2 {
                SqlExpr::Nested(i2) => {
                    lemma_rel_infer(schema, x, y, *i1, *i2);
                }
                _ => {}
            }
        }
        _ => {}
    }
}

// ---------------------------------------------------------------------------
// Congruence of projection
// ---------------------------------------------------------------------------

proof fn lemma_rel_qcols_concat(a1: Seq<QColV>, b1: Seq<QColV>, a2: Seq<QColV>, b2: Seq<QColV>)
    requires rel_qcols(a1, b1), rel_qcols(a2, b2),
    ensures rel_qcols(a1 + a2, b1 + b2),
{
    assert forall|i: int| 0 <= i < (a1 + a2).len() implies rel_qcol(
        #[trigger] (a1 + a2)[i],
        (b1 + b2)[i],
    ) by {
        if i < a1.len() {
            assert((a1 + a2)[i] == a1[i]);
            assert((b1 + b2)[i] == b1[i]);
        } else {
            assert((a1 + a2)[i] == a2[i - a1.len()]);
            assert((b1 + b2)[i] == b2[i - a1.len()]);
        }
    }
}

proof fn lemma_rel_wrapped_cte(c1: Seq<QColV>, c2: Seq<QColV>, marked: bool)
    requires rel_qcols(c1, c2),
    ensures rel_qcols(wrapped_cte_cols(c1, marked), wrapped_cte_cols(c2, marked)),
{
    assert forall|i: int| 0 <= i < wrapped_cte_cols(c1, marked).len() implies rel_qcol(
        #[trigger] wrapped_cte_cols(c1, marked)[i],
        wrapped_cte_cols(c2, marked)[i],
    ) by {
        assert(rel_qcol(c1[i], c2[i]));
    }
}

proof fn lemma_rel_qcols_refl(c: Seq<QColV>)
    ensures rel_qcols(c, c),
{
    assert forall|i: int| 0 <= i < c.len() implies rel_qcol(#[trigger] c[i], c[i]) by {}
}

proof fn lemma_rel_wildcard_all(schema: Seq<TableV>, x: CtxV, y: CtxV)
    requires rel_ctx(x, y),
    ensures
        rel_qcols(
            wildcard_all(schema, x.aliases, x.ctes, x.nullable),
            wildcard_all(schema, y.aliases, y.ctes, y.nullable),
        ),
    decreases x.aliases.len(),
{
    if x.aliases.len() > 0 {
        assert(rel_abv(x.aliases[0], y.aliases[0]));
        let xr = CtxV { aliases: x.aliases.drop_first(), ..x };
        let yr = CtxV { aliases: y.aliases.drop_first(), ..y };
        assert forall|i: int| 0 <= i < xr.aliases.len() implies rel_abv(
            #[trigger] xr.aliases[i],
            yr.aliases[i],
        ) by {
            assert(xr.aliases[i] == x.aliases[i + 1]);
            assert(yr.aliases[i] == y.aliases[i + 1]);
        }
        lemma_rel_wildcard_all(schema, xr, yr);
        let h1 = alias_wildcard_cols(schema, x.aliases[0], x.ctes, x.nullable);
        let h2 = alias_wildcard_cols(schema, y.aliases[0], y.ctes, y.nullable);
        match x.aliases[0].target {
            RelV::Cte(cn1) => {
                match y.aliases[0].target {
                    RelV::Cte(cn2) => {
                        lemma_rel_lookup_cte(x.ctes, y.ctes, cn1, cn2);
                        match lookup_cte_spec(x.ctes, cn1) {
                            Some(j) => {
                                crate::scope::lemma_lookup_cte_props(x.ctes, cn1);
                                assert(rel_cbv(x.ctes[j], y.ctes[j]));
                                lemma_rel_wrapped_cte(
                                    x.ctes[j].columns,
                                    y.ctes[j].columns,
                                    is_marked_nullable(x.nullable, x.aliases[0].key),
                                );
                            }
                            None => {}
                        }
                    }
                    _ => {}
                }
            }
            RelV::SchemaTable(tn1) => {
                match y.aliases[0].target {
                    RelV::SchemaTable(tn2) => {
                        lemma_find_table_same(schema, tn1, tn2);
                        match find_table_spec(schema, tn1) {
                            Some(_) => {
                                lemma_rel_qcols_refl(h1);
                            }
                            None => {}
                        }
                    }
                    _ => {}
                }
            }
            RelV::Opaque => {}
        }
        assert(rel_qcols(h1, h2));
        lemma_rel_qcols_concat(
            h1,
            h2,
            wildcard_all(schema, xr.aliases, x.ctes, x.nullable),
            wildcard_all(schema, yr.aliases, y.ctes, y.nullable),
        );
    }
}

proof fn lemma_rel_qualified_wildcard(
    schema: Seq<TableV>,
    x: CtxV,
    y: CtxV,
    p1: Seq<Option<String>>,
    p2: Seq<Option<String>>,
)
    requires rel_ctx(x, y), rel_parts(p1, p2),
    ensures
        rel_outcome(
            spec_qualified_wildcard(schema, x, p1),
            spec_qualified_wildcard(schema, y, p2),
        ),
{
    lemma_rel_first_ident(p1, p2);
    match first_ident_spec(p1) {
        None => {}
        Some(al1) => {
            let al2 = first_ident_spec(p2)->0;
            lemma_rel_lookup_alias(x.aliases, y.aliases, al1, al2);
            match lookup_alias_spec(x.aliases, al1) {
                None => {}
                Some(ai) => {
                    crate::scope::lemma_lookup_alias_props(x.aliases, al1);
                    assert(rel_abv(x.aliases[ai], y.aliases[ai]));
                    lemma_marked_same(x.nullable, al1, al2);
                    match x.aliases[ai].target {
                        RelV::Opaque => {}
                        RelV::Cte(cn1) => {
                            match y.aliases[ai].target {
                                RelV::Cte(cn2) => {
                                    lemma_rel_lookup_cte(x.ctes, y.ctes, cn1, cn2);
                                    match lookup_cte_spec(x.ctes, cn1) {
                                        None => {}
                                        Some(j) => {
                                            crate::scope::lemma_lookup_cte_props(x.ctes, cn1);
                                            assert(rel_cbv(x.ctes[j], y.ctes[j]));
                                            lemma_rel_wrapped_cte(
                                                x.ctes[j].columns,
                                                y.ctes[j].columns,
                                                is_marked_nullable(x.nullable, al1),
                                            );
                                        }
                                    }
                                }
                                _ => {}
                            }
                        }
                        RelV::SchemaTable(tn1) => {
                            match y.aliases[ai].target {
                                RelV::SchemaTable(tn2) => {
                                    lemma_find_table_same(schema, tn1, tn2);
                                    match find_table_spec(schema, tn1) {
                                        None => {}
                                        Some(ti) => {
                                            lemma_rel_qcols_refl(wrapped_table_cols(
                                                schema[ti].columns,
                                                is_marked_nullable(x.nullable, al1),
                                            ));
                                        }
                                    }
                                }
                                _ => {}
                            }
                        }
                    }
                }
            }
        }
    }
}

proof fn lemma_rel_item_cols(
    schema: Seq<TableV>,
    x: CtxV,
    y: CtxV,
    i1: SelectItemAst,
    i2: SelectItemAst,
)
    requires rel_ctx(x, y), rel_item(i1, i2),
    ensures rel_outcome(spec_item_cols(schema, x, i1), spec_item_cols(schema, y, i2)),
{
    match i1 {
        SelectItemAst::UnnamedExpr(e1) => {
            match i2 {
                SelectItemAst::UnnamedExpr(e2) => {
                    lemma_rel_infer(schema, x, y, e1, e2);
                }
                _ => {}
            }
        }
        SelectItemAst::ExprWithAlias { expr: e1, alias: _ } => {
            match i2 {
                SelectItemAst::ExprWithAlias { expr: e2, alias: _ } => {
                    lemma_rel_infer(schema, x, y, e1, e2);
                }
                _ => {}
            }
        }
        SelectItemAst::Wildcard => {
            lemma_rel_wildcard_all(schema, x, y);
        }
        SelectItemAst::QualifiedWildcard { name_parts: p1 } => {
            match i2 {
                SelectItemAst::QualifiedWildcard { name_parts: p2 } => {
                    lemma_rel_qualified_wildcard(schema, x, y, p1@, p2@);
                }
                _ => {}
            }
        }
        SelectItemAst::WildcardExpr => {}
    }
}

proof fn lemma_rel_project(
    schema: Seq<TableV>,
    x: CtxV,
    y: CtxV,
    it1: Seq<SelectItemAst>,
    it2: Seq<SelectItemAst>,
)
    requires rel_ctx(x, y), rel_items(it1, it2),
    ensures rel_outcome(spec_project(schema, x, it1), spec_project(schema, y, it2)),
    decreases it1.len(),
{
    if it1.len() > 0 {
        assert(rel_item(it1[0], it2[0]));
        lemma_rel_item_cols(schema, x, y, it1[0], it2[0]);
        assert forall|i: int| 0 <= i < it1.drop_first().len() implies rel_item(
            #[trigger] it1.drop_first()[i],
            it2.drop_first()[i],
        ) by {
            assert(it1.drop_first()[i] == it1[i + 1]);
            assert(it2.drop_first()[i] == it2[i + 1]);
        }
        lemma_rel_project(schema, x, y, it1.drop_first(), it2.drop_first());
        match spec_item_cols(schema, x, it1[0]) {
            Ok(cs1) => {
                match spec_project(schema, x, it1.drop_first()) {
                    Ok(rest1) => {
                        lemma_rel_qcols_concat(
                            cs1,
                            spec_item_cols(schema, y, it2[0])->Ok_0,
                            rest1,
                            spec_project(schema, y, it2.drop_first())->Ok_0,
                        );
                    }
                    Err(_) => {}
                }
            }
            Err(_) => {}
        }
    }
}

// ---------------------------------------------------------------------------
// Congruence of FROM-clause resolution
// ---------------------------------------------------------------------------

proof fn lemma_rel_add_alias(
    a1: Seq<ABV>,
    a2: Seq<ABV>,
    n1: Seq<char>,
    n2: Seq<char>,
    t1: RelV,
    t2: RelV,
)
    requires
        a1.len() == a2.len(),
        forall|i: int| 0 <= i < a1.len() ==> rel_abv(#[trigger] a1[i], a2[i]),
        same_ident(n1, n2),
        rel_relv(t1, t2),
    ensures
        ({
            let r1 = add_alias_spec(a1, n1, t1);
            let r2 = add_alias_spec(a2, n2, t2);
            r1.len() == r2.len() && forall|i: int| 0 <= i < r1.len() ==> rel_abv(
                #[trigger] r1[i],
                r2[i],
            )
        }),
{
    lemma_rel_lookup_alias(a1, a2, n1, n2);
    let b1 = ABV { key: fold_seq(n1), target: t1 };
    let b2 = ABV { key: fold_seq(n2), target: t2 };
    assert(rel_abv(b1, b2));
    match lookup_alias_spec(a1, n1) {
        Some(i) => {
            crate::scope::lemma_lookup_alias_props(a1, n1);
            assert forall|k: int| 0 <= k < a1.update(i, b1).len() implies rel_abv(
                #[trigger] a1.update(i, b1)[k],
                a2.update(i, b2)[k],
            ) by {
                if k != i {
                    assert(a1.update(i, b1)[k] == a1[k]);
                    assert(a2.update(i, b2)[k] == a2[k]);
                }
            }
        }
        None => {
            assert forall|k: int| 0 <= k < a1.push(b1).len() implies rel_abv(
                #[trigger] a1.push(b1)[k],
                a2.push(b2)[k],
            ) by {
                if k < a1.len() {
                    assert(a1.push(b1)[k] == a1[k]);
                    assert(a2.push(b2)[k] == a2[k]);
                }
            }
        }
    }
}

proof fn lemma_rel_get_alias(f1: TableFactorAst, f2: TableFactorAst)
    requires rel_factor(f1, f2),
    ensures
        ({
            let a = get_table_alias_spec(f1);
            let b = get_table_alias_spec(f2);
            ((a is Some) <==> (b is Some)) && (a is Some ==> same_ident(a->0, b->0))
        }),
{
    match f1 {
        TableFactorAst::Table { name_parts: p1, alias: al1 } => {
            match f2 {
                TableFactorAst::Table { name_parts: p2, alias: _ } => {
                    match al1 {
                        Some(_) => {}
                        None => {
                            lemma_rel_last_ident(p1@, p2@);
                        }
                    }
                }
                _ => {}
            }
        }
        _ => {}
    }
}

proof fn lemma_rel_resolve_factor(
    schema: Seq<TableV>,
    x: CtxV,
    y: CtxV,
    f1: TableFactorAst,
    f2: TableFactorAst,
)
    requires rel_ctx(x, y), rel_factor(f1, f2),
    ensures
        rel_ctx_outcome(spec_resolve_factor(schema, x, f1), spec_resolve_factor(schema, y, f2)),
{
    match f1 {
        TableFactorAst::Table { name_parts: p1, alias: al1 } => {
            match f2 {
                TableFactorAst::Table { name_parts: p2, alias: al2 } => {
                    lemma_rel_last_ident(p1@, p2@);
                    match last_ident_spec(p1@) {
                        None => {}
                        Some(tn1) => {
                            let tn2 = last_ident_spec(p2@)->0;
                            let an1 = match al1 {
                                Some(a) => a@,
                                None => tn1,
                            };
                            let an2 = match al2 {
                                Some(a) => a@,
                                None => tn2,
                            };
                            assert(same_ident(an1, an2));
                            lemma_rel_lookup_cte(x.ctes, y.ctes, tn1, tn2);
                            lemma_find_table_same(schema, tn1, tn2);
                            if lookup_cte_spec(x.ctes, tn1) is Some {
                                lemma_rel_add_alias(
                                    x.aliases,
                                    y.aliases,
                                    an1,
                                    an2,
                                    RelV::Cte(fold_seq(tn1)),
                                    RelV::Cte(fold_seq(tn2)),
                                );
                            } else if find_table_spec(schema, tn1) is Some {
                                lemma_rel_add_alias(
                                    x.aliases,
                                    y.aliases,
                                    an1,
                                    an2,
                                    RelV::SchemaTable(tn1),
                                    RelV::SchemaTable(tn2),
                                );
                            }
                        }
                    }
                }
                _ => {}
            }
        }
        TableFactorAst::Derived { alias: al1 } => {
            match f2 {
                TableFactorAst::Derived { alias: al2 } => {
                    match al1 {
                        Some(a1) => {
                            match al2 {
                                Some(a2) => {
                                    lemma_rel_add_alias(
                                        x.aliases,
                                        y.aliases,
                                        a1@,
                                        a2@,
                                        RelV::Opaque,
                                        RelV::Opaque,
                                    );
                                }
                                None => {}
                            }
                        }
                        None => {}
                    }
                }
                _ => {}
            }
        }
        TableFactorAst::Other => {}
    }
}

proof fn lemma_rel_mark(
    x: CtxV,
    y: CtxV,
    n1: Seq<char>,
    n2: Seq<char>,
)
    requires rel_ctx(x, y), same_ident(n1, n2),
    ensures
        mark_nullable_spec(x.nullable, n1) == mark_nullable_spec(y.nullable, n2),
{
    lemma_marked_same(x.nullable, n1, n2);
}

proof fn lemma_rel_apply_join(x: CtxV, y: CtxV, fa1: Option<Seq<char>>, fa2: Option<Seq<char>>, j1: JoinAst, j2: JoinAst)
    requires
        rel_ctx(x, y),
        rel_join(j1, j2),
        ((fa1 is Some) <==> (fa2 is Some)) && (fa1 is Some ==> same_ident(fa1->0, fa2->0)),
    ensures rel_ctx(apply_join_nullability(x, fa1, j1), apply_join_nullability(y, fa2, j2)),
{
    lemma_rel_get_alias(j1.relation, j2.relation);
    match get_table_alias_spec(j1.relation) {
        Some(a1) => {
            lemma_rel_mark(x, y, a1, get_table_alias_spec(j2.relation)->0);
        }
        None => {}
    }
    match fa1 {
        Some(a1) => {
            lemma_rel_mark(x, y, a1, fa2->0);
            match get_table_alias_spec(j1.relation) {
                Some(r1) => {
                    let xm = CtxV { nullable: mark_nullable_spec(x.nullable, a1), ..x };
                    let ym = CtxV { nullable: mark_nullable_spec(y.nullable, fa2->0), ..y };
                    lemma_rel_mark(xm, ym, r1, get_table_alias_spec(j2.relation)->0);
                }
                None => {}
            }
        }
        None => {}
    }
}

proof fn lemma_rel_resolve_joins(
    schema: Seq<TableV>,
    x: CtxV,
    y: CtxV,
    fa1: Option<Seq<char>>,
    fa2: Option<Seq<char>>,
    j1: Seq<JoinAst>,
    j2: Seq<JoinAst>,
)
    requires
        rel_ctx(x, y),
        j1.len() == j2.len(),
        forall|i: int| 0 <= i < j1.len() ==> rel_join(#[trigger] j1[i], j2[i]),
        ((fa1 is Some) <==> (fa2 is Some)) && (fa1 is Some ==> same_ident(fa1->0, fa2->0)),
    ensures
        rel_ctx_outcome(
            spec_resolve_joins(schema, x, fa1, j1),
            spec_resolve_joins(schema, y, fa2, j2),
        ),
    decreases j1.len(),
{
    if j1.len() > 0 {
        assert(rel_join(j1[0], j2[0]));
        lemma_rel_resolve_factor(schema, x, y, j1[0].relation, j2[0].relation);
        match spec_resolve_factor(schema, x, j1[0].relation) {
            Err(_) => {}
            Ok(c1) => {
                let c2 = spec_resolve_factor(schema, y, j2[0].relation)->Ok_0;
                lemma_rel_apply_join(c1, c2, fa1, fa2, j1[0], j2[0]);
                assert forall|i: int| 0 <= i < j1.drop_first().len() implies rel_join(
                    #[trigger] j1.drop_first()[i],
                    j2.drop_first()[i],
                ) by {
                    assert(j1.drop_first()[i] == j1[i + 1]);
                    assert(j2.drop_first()[i] == j2[i + 1]);
                }
                lemma_rel_resolve_joins(
                    schema,
                    apply_join_nullability(c1, fa1, j1[0]),
                    apply_join_nullability(c2, fa2, j2[0]),
                    fa1,
                    fa2,
                    j1.drop_first(),
                    j2.drop_first(),
                );
            }
        }
    }
}

proof fn lemma_rel_resolve_twj(
    schema: Seq<TableV>,
    x: CtxV,
    y: CtxV,
    t1: TableWithJoinsAst,
    t2: TableWithJoinsAst,
)
    requires rel_ctx(x, y), rel_twj(t1, t2),
    ensures rel_ctx_outcome(spec_resolve_twj(schema, x, t1), spec_resolve_twj(schema, y, t2)),
{
    lemma_rel_resolve_factor(schema, x, y, t1.relation, t2.relation);
    lemma_rel_get_alias(t1.relation, t2.relation);
    match spec_resolve_factor(schema, x, t1.relation) {
        Err(_) => {}
        Ok(c1) => {
            let c2 = spec_resolve_factor(schema, y, t2.relation)->Ok_0;
            lemma_rel_resolve_joins(
                schema,
                c1,
                c2,
                get_table_alias_spec(t1.relation),
                get_table_alias_spec(t2.relation),
                t1.joins@,
                t2.joins@,
            );
        }
    }
}

proof fn lemma_rel_resolve_from(
    schema: Seq<TableV>,
    x: CtxV,
    y: CtxV,
    f1: Seq<TableWithJoinsAst>,
    f2: Seq<TableWithJoinsAst>,
)
    requires rel_ctx(x, y), rel_from(f1, f2),
    ensures
        rel_ctx_outcome(spec_resolve_from(schema, x, f1), spec_resolve_from(schema, y, f2)),
    decreases f1.len(),
{
    if f1.len() > 0 {
        assert(rel_twj(f1[0], f2[0]));
        lemma_rel_resolve_twj(schema, x, y, f1[0], f2[0]);
        match spec_resolve_twj(schema, x, f1[0]) {
            Err(_) => {}
            Ok(c1) => {
                assert forall|i: int| 0 <= i < f1.drop_first().len() implies rel_twj(
                    #[trigger] f1.drop_first()[i],
                    f2.drop_first()[i],
                ) by {
                    assert(f1.drop_first()[i] == f1[i + 1]);
                    assert(f2.drop_first()[i] == f2[i + 1]);
                }
                lemma_rel_resolve_from(
                    schema,
                    c1,
                    spec_resolve_twj(schema, y, f2[0])->Ok_0,
                    f1.drop_first(),
                    f2.drop_first(),
                );
            }
        }
    }
}

// ---------------------------------------------------------------------------
// Congruence of statement validation
// ---------------------------------------------------------------------------

/// CTE binding lists that agree up to folding.
pub open spec fn rel_cbvs(a: Seq<CBV>, b: Seq<CBV>) -> bool {
    a.len() == b.len() && forall|i: int| 0 <= i < a.len() ==> rel_cbv(#[trigger] a[i], b[i])
}

proof fn lemma_rel_select_body(
    schema: Seq<TableV>,
    x: CtxV,
    y: CtxV,
    s1: SelectAst,
    s2: SelectAst,
)
    requires rel_ctx(x, y), rel_select(s1, s2),
    ensures rel_outcome(spec_select_body(schema, x, s1), spec_select_body(schema, y, s2)),
{
    lemma_rel_resolve_from(schema, x, y, s1.from@, s2.from@);
    match spec_resolve_from(schema, x, s1.from@) {
        Err(_) => {}
        Ok(c1) => {
            lemma_rel_project(
                schema,
                c1,
                spec_resolve_from(schema, y, s2.from@)->Ok_0,
                s1.projection@,
                s2.projection@,
            );
        }
    }
}

proof fn lemma_rel_rename(
    c1: Seq<QColV>,
    c2: Seq<QColV>,
    n1: Seq<String>,
    n2: Seq<String>,
)
    requires rel_qcols(c1, c2), rel_idents(n1, n2),
    ensures rel_qcols(rename_cols(c1, n1), rename_cols(c2, n2)),
{
    assert forall|i: int| 0 <= i < rename_cols(c1, n1).len() implies rel_qcol(
        #[trigger] rename_cols(c1, n1)[i],
        rename_cols(c2, n2)[i],
    ) by {
        assert(rel_qcol(c1[i], c2[i]));
        assert(same_ident(n1[i]@, n2[i]@));
    }
}

proof fn lemma_rel_add_cte(
    c1: Seq<CBV>,
    c2: Seq<CBV>,
    n1: Seq<char>,
    n2: Seq<char>,
    cols1: Seq<QColV>,
    cols2: Seq<QColV>,
)
    requires rel_cbvs(c1, c2), same_ident(n1, n2), rel_qcols(cols1, cols2),
    ensures rel_cbvs(add_cte_spec(c1, n1, cols1), add_cte_spec(c2, n2, cols2)),
{
    lemma_rel_lookup_cte(c1, c2, n1, n2);
    let b1 = CBV { name: fold_seq(n1), columns: cols1 };
    let b2 = CBV { name: fold_seq(n2), columns: cols2 };
    assert(rel_cbv(b1, b2));
    match lookup_cte_spec(c1, n1) {
        Some(i) => {
            crate::scope::lemma_lookup_cte_props(c1, n1);
            assert forall|k: int| 0 <= k < c1.update(i, b1).len() implies rel_cbv(
                #[trigger] c1.update(i, b1)[k],
                c2.update(i, b2)[k],
            ) by {
                if k != i {
                    assert(c1.update(i, b1)[k] == c1[k]);
                    assert(c2.update(i, b2)[k] == c2[k]);
                }
            }
        }
        None => {
            assert forall|k: int| 0 <= k < c1.push(b1).len() implies rel_cbv(
                #[trigger] c1.push(b1)[k],
                c2.push(b2)[k],
            ) by {
                if k < c1.len() {
                    assert(c1.push(b1)[k] == c1[k]);
                    assert(c2.push(b2)[k] == c2[k]);
                }
            }
        }
    }
}

proof fn lemma_rel_process_ctes(
    schema: Seq<TableV>,
    ca1: Seq<CteAst>,
    ca2: Seq<CteAst>,
    acc1: Seq<CBV>,
    acc2: Seq<CBV>,
)
    requires rel_ctes(ca1, ca2), rel_cbvs(acc1, acc2),
    ensures
        ({
            let r1 = spec_process_ctes(schema, ca1, acc1);
            let r2 = spec_process_ctes(schema, ca2, acc2);
            ((r1 is Ok) <==> (r2 is Ok)) && (r1 is Ok ==> rel_cbvs(r1->Ok_0, r2->Ok_0))
        }),
    decreases cte_seq_size(ca1),
{
    if ca1.len() > 0 {
        lemma_rel_validate_select(schema, *ca1[0].query, *ca2[0].query, acc1, acc2);
        match spec_validate_select(schema, *ca1[0].query, acc1) {
            Err(_) => {}
            Ok(cols1) => {
                let cols2 = spec_validate_select(schema, *ca2[0].query, acc2)->Ok_0;
                let named1 = if ca1[0].column_aliases@.len() > 0 {
                    rename_cols(cols1, ca1[0].column_aliases@)
                } else {
                    cols1
                };
                let named2 = if ca2[0].column_aliases@.len() > 0 {
                    rename_cols(cols2, ca2[0].column_aliases@)
                } else {
                    cols2
                };
                if ca1[0].column_aliases@.len() > 0 {
                    lemma_rel_rename(cols1, cols2, ca1[0].column_aliases@, ca2[0].column_aliases@);
                }
                assert(rel_qcols(named1, named2));
                lemma_rel_add_cte(acc1, acc2, ca1[0].name@, ca2[0].name@, named1, named2);
                lemma_rel_process_ctes(
                    schema,
                    ca1.drop_first(),
                    ca2.drop_first(),
                    add_cte_spec(acc1, ca1[0].name@, named1),
                    add_cte_spec(acc2, ca2[0].name@, named2),
                );
            }
        }
    }
}

proof fn lemma_rel_validate_select(
    schema: Seq<TableV>,
    q1: QueryAst,
    q2: QueryAst,
    inh1: Seq<CBV>,
    inh2: Seq<CBV>,
)
    requires rel_query(q1, q2), rel_cbvs(inh1, inh2),
    ensures
        rel_outcome(
            spec_validate_select(schema, q1, inh1),
            spec_validate_select(schema, q2, inh2),
        ),
    decreases query_size(q1),
{
    lemma_rel_process_ctes(schema, q1.ctes@, q2.ctes@, inh1, inh2);
    match spec_process_ctes(schema, q1.ctes@, inh1) {
        Err(_) => {}
        Ok(all1) => {
            let all2 = spec_process_ctes(schema, q2.ctes@, inh2)->Ok_0;
            assert(rel_ctx(ctx_of_ctes(all1), ctx_of_ctes(all2)));
            lemma_rel_set_expr(schema, q1.body, q2.body, ctx_of_ctes(all1), ctx_of_ctes(all2));
        }
    }
}

proof fn lemma_rel_set_expr(
    schema: Seq<TableV>,
    s1: SetExprAst,
    s2: SetExprAst,
    x: CtxV,
    y: CtxV,
)
    requires rel_set_expr(s1, s2), rel_ctx(x, y),
    ensures
        rel_outcome(spec_validate_set_expr(schema, s1, x), spec_validate_set_expr(schema, s2, y)),
    decreases set_expr_size(s1),
{
    match s1 {
        SetExprAst::Select(b1) => {
            match s2 {
                SetExprAst::Select(b2) => {
                    lemma_rel_select_body(schema, x, y, *b1, *b2);
                }
                _ => {}
            }
        }
        SetExprAst::SetOperation { op: _, left: l1, right: r1 } => {
            match s2 {
                SetExprAst::SetOperation { op: _, left: l2, right: r2 } => {
                    assert(rel_ctx(empty_ctx(), empty_ctx()));
                    lemma_rel_set_expr(schema, *l1, *l2, empty_ctx(), empty_ctx());
                    lemma_rel_set_expr(schema, *r1, *r2, empty_ctx(), empty_ctx());
                }
                _ => {}
            }
        }
        SetExprAst::Query(q1) => {
            match s2 {
                SetExprAst::Query(q2) => {
                    assert(rel_cbvs(Seq::empty(), Seq::empty()));
                    lemma_rel_validate_select(schema, *q1, *q2, Seq::empty(), Seq::empty());
                }
                _ => {}
            }
        }
        SetExprAst::Other => {}
    }
}

proof fn lemma_rel_check_columns(
    cols: Seq<crate::schema::ColumnV>,
    tn1: Seq<char>,
    tn2: Seq<char>,
    l1: Seq<String>,
    l2: Seq<String>,
)
    requires rel_idents(l1, l2),
    ensures
        (spec_check_insert_columns(cols, tn1, l1) is Some) == (spec_check_insert_columns(
            cols,
            tn2,
            l2,
        ) is Some),
    decreases l1.len(),
{
    if l1.len() > 0 {
        assert(same_ident(l1[0]@, l2[0]@));
        lemma_find_col_same(cols, l1[0]@, l2[0]@);
        assert forall|i: int| 0 <= i < l1.drop_first().len() implies same_ident(
            (#[trigger] l1.drop_first()[i])@,
            l2.drop_first()[i]@,
        ) by {
            assert(l1.drop_first()[i] == l1[i + 1]);
            assert(l2.drop_first()[i] == l2[i + 1]);
        }
        lemma_rel_check_columns(cols, tn1, tn2, l1.drop_first(), l2.drop_first());
    }
}

proof fn lemma_rel_check_tuple(
    cols: Seq<crate::schema::ColumnV>,
    tn1: Seq<char>,
    tn2: Seq<char>,
    l1: Seq<Vec<Option<String>>>,
    l2: Seq<Vec<Option<String>>>,
)
    requires
        l1.len() == l2.len(),
        forall|i: int| 0 <= i < l1.len() ==> rel_parts((#[trigger] l1[i])@, l2[i]@),
    ensures
        (spec_check_tuple_columns(cols, tn1, l1) is Some) == (spec_check_tuple_columns(
            cols,
            tn2,
            l2,
        ) is Some),
    decreases l1.len(),
{
    if l1.len() > 0 {
        assert(rel_parts(l1[0]@, l2[0]@));
        lemma_rel_last_ident(l1[0]@, l2[0]@);
        match last_ident_spec(l1[0]@) {
            None => {}
            Some(c1) => {
                lemma_find_col_same(cols, c1, last_ident_spec(l2[0]@)->0);
            }
        }
        assert forall|i: int| 0 <= i < l1.drop_first().len() implies rel_parts(
            (#[trigger] l1.drop_first()[i])@,
            l2.drop_first()[i]@,
        ) by {
            assert(l1.drop_first()[i] == l1[i + 1]);
            assert(l2.drop_first()[i] == l2[i + 1]);
        }
        lemma_rel_check_tuple(cols, tn1, tn2, l1.drop_first(), l2.drop_first());
    }
}

proof fn lemma_rel_check_assignments(
    cols: Seq<crate::schema::ColumnV>,
    tn1: Seq<char>,
    tn2: Seq<char>,
    t1: Seq<AssignTargetAst>,
    t2: Seq<AssignTargetAst>,
)
    requires
        t1.len() == t2.len(),
        forall|i: int| 0 <= i < t1.len() ==> rel_target(#[trigger] t1[i], t2[i]),
    ensures
        (spec_check_assignments(cols, tn1, t1) is Some) == (spec_check_assignments(
            cols,
            tn2,
            t2,
        ) is Some),
    decreases t1.len(),
{
    if t1.len() > 0 {
        assert(rel_target(t1[0], t2[0]));
        match t1[0] {
            AssignTargetAst::ColumnName(p1) => {
                match t2[0] {
                    AssignTargetAst::ColumnName(p2) => {
                        lemma_rel_last_ident(p1@, p2@);
                        match last_ident_spec(p1@) {
                            None => {}
                            Some(c1) => {
                                lemma_find_col_same(cols, c1, last_ident_spec(p2@)->0);
                            }
                        }
                    }
                    _ => {}
                }
            }
            AssignTargetAst::Tuple(x1) => {
                match t2[0] {
                    AssignTargetAst::Tuple(x2) => {
                        lemma_rel_check_tuple(cols, tn1, tn2, x1@, x2@);
                    }
                    _ => {}
                }
            }
        }
        assert forall|i: int| 0 <= i < t1.drop_first().len() implies rel_target(
            #[trigger] t1.drop_first()[i],
            t2.drop_first()[i],
        ) by {
            assert(t1.drop_first()[i] == t1[i + 1]);
            assert(t2.drop_first()[i] == t2[i + 1]);
        }
        lemma_rel_check_assignments(cols, tn1, tn2, t1.drop_first(), t2.drop_first());
    }
}

proof fn lemma_rel_returning(
    schema: Seq<TableV>,
    tn1: Seq<char>,
    tn2: Seq<char>,
    r1: Option<Vec<SelectItemAst>>,
    r2: Option<Vec<SelectItemAst>>,
)
    requires same_ident(tn1, tn2), rel_returning(r1, r2),
    ensures
        rel_outcome(spec_returning(schema, tn1, r1), spec_returning(schema, tn2, r2)),
{
    match r1 {
        None => {
            assert(rel_qcols(Seq::empty(), Seq::empty()));
        }
        Some(items1) => {
            match r2 {
                Some(items2) => {
                    assert(rel_ctx(returning_ctx(tn1), returning_ctx(tn2)));
                    lemma_rel_project(
                        schema,
                        returning_ctx(tn1),
                        returning_ctx(tn2),
                        items1@,
                        items2@,
                    );
                }
                None => {}
            }
        }
    }
}

/// Case insensitivity, in full: two statement lists whose identifiers
/// agree up to case folding validate alike — the same one succeeds, the
/// result types are identical, and the result names agree up to folding,
/// each following its own projection's spelling.
pub proof fn lemma_case_insensitive_validation(
    schema: Seq<TableV>,
    s1: Seq<SqlStatement>,
    s2: Seq<SqlStatement>,
)
    requires rel_stmts(s1, s2),
    ensures
        rel_outcome(spec_validate_query(schema, s1), spec_validate_query(schema, s2)),
{
    if s1.len() == 1 {
        assert(rel_stmt(s1[0], s2[0]));
        match s1[0] {
            SqlStatement::Query(q1) => {
                match s2[0] {
                    SqlStatement::Query(q2) => {
                        assert(rel_cbvs(Seq::empty(), Seq::empty()));
                        lemma_rel_validate_select(schema, *q1, *q2, Seq::empty(), Seq::empty());
                    }
                    _ => {}
                }
            }
            SqlStatement::Insert(i1) => {
                match s2[0] {
                    SqlStatement::Insert(i2) => {
                        lemma_rel_last_ident(i1.table_parts@, i2.table_parts@);
                        match last_ident_spec(i1.table_parts@) {
                            None => {}
                            Some(tn1) => {
                                let tn2 = last_ident_spec(i2.table_parts@)->0;
                                lemma_find_table_same(schema, tn1, tn2);
                                match find_table_spec(schema, tn1) {
                                    None => {}
                                    Some(ti) => {
                                        lemma_rel_check_columns(
                                            schema[ti].columns,
                                            tn1,
                                            tn2,
                                            i1.columns@,
                                            i2.columns@,
                                        );
                                        if spec_check_insert_columns(
                                            schema[ti].columns,
                                            tn1,
                                            i1.columns@,
                                        ) is None {
                                            lemma_rel_returning(
                                                schema,
                                                tn1,
                                                tn2,
                                                i1.returning,
                                                i2.returning,
                                            );
                                        }
                                    }
                                }
                            }
                        }
                    }
                    _ => {}
                }
            }
            SqlStatement::Update(u1) => {
                match s2[0] {
                    SqlStatement::Update(u2) => {
                        match u1.table {
                            TableFactorAst::Table { name_parts: p1, alias: _ } => {
                                match u2.table {
                                    TableFactorAst::Table { name_parts: p2, alias: _ } => {
                                        lemma_rel_last_ident(p1@, p2@);
                                        match last_ident_spec(p1@) {
                                            None => {}
                                            Some(tn1) => {
                                                let tn2 = last_ident_spec(p2@)->0;
                                                lemma_find_table_same(schema, tn1, tn2);
                                                match find_table_spec(schema, tn1) {
                                                    None => {}
                                                    Some(ti) => {
                                                        lemma_rel_check_assignments(
                                                            schema[ti].columns,
                                                            tn1,
                                                            tn2,
                                                            u1.assignments@,
                                                            u2.assignments@,
                                                        );
                                                        if spec_check_assignments(
                                                            schema[ti].columns,
                                                            tn1,
                                                            u1.assignments@,
                                                        ) is None {
                                                            lemma_rel_returning(
                                                                schema,
                                                                tn1,
                                                                tn2,
                                                                u1.returning,
                                                                u2.returning,
                                                            );
                                                        }
                                                    }
                                                }
                                            }
                                        }
                                    }
                                    _ => {}
                                }
                            }
                            _ => {}
                        }
                    }
                    _ => {}
                }
            }
            SqlStatement::Delete(d1) => {
                match s2[0] {
                    SqlStatement::Delete(d2) => {
                        if d1.from@.len() > 0 {
                            assert(rel_twj(d1.from@[0], d2.from@[0]));
                            match d1.from@[0].relation {
                                TableFactorAst::Table { name_parts: p1, alias: _ } => {
                                    match d2.from@[0].relation {
                                        TableFactorAst::Table {
                                            name_parts: p2,
                                            alias: _,
                                        } => {
                                            lemma_rel_last_ident(p1@, p2@);
                                            match last_ident_spec(p1@) {
                                                None => {}
                                                Some(tn1) => {
                                                    let tn2 = last_ident_spec(p2@)->0;
                                                    lemma_find_table_same(schema, tn1, tn2);
                                                    match find_table_spec(schema, tn1) {
                                                        None => {}
                                                        Some(_) => {
                                                            lemma_rel_returning(
                                                                schema,
                                                                tn1,
                                                                tn2,
                                                                d1.returning,
                                                                d2.returning,
                                                            );
                                                        }
                                                    }
                                                }
                                            }
                                        }
                                        _ => {}
                                    }
                                }
                                _ => {}
                            }
                        }
                    }
                    _ => {}
                }
            }
            SqlStatement::Other => {}
        }
    }
}

} // verus!
