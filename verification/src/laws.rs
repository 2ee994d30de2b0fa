//! The crate's stated laws: properties of the validator proved once and
//! for all over its specification functions.
use vstd::prelude::*;
use crate::ast::{
    ColumnDefAst, ColumnOptionAst, CreateTableAst, CteAst, DdlStatement, DeclaredType, QueryAst,
    SelectItemAst, SetExprAst, SetOperatorAst, SqlExpr, expr_size, first_ident_spec,
    last_ident_spec,
};
use crate::error::ErrV;
use crate::schema::{
    ColumnV, FlagsV, TableV, apply_constraints, apply_option, canon_opts, create_denotes,
    declared_denotes, declared_to_sty, def_denotes, find_col_spec, find_table_spec, is_dump_of,
    spec_column_flags, spec_column_from_def, spec_columns_from_defs,
    spec_schema_from_statements, spec_table_from_create,
};
use crate::infer::{cte_matches, table_matches, spec_infer};
use crate::scope::{
    ABV, CBV, CtxV, QColV, RelV, add_cte_spec, find_qcol, is_marked_nullable, lookup_alias_spec,
    lookup_cte_spec,
};
use crate::text::{fold_seq, lemma_fold_idempotent, same_ident};
use crate::types::{LTy, STy, wrap_nullable};
use crate::validate::{
    alias_wildcard_cols, column_output_type, cte_output_type, ctx_of_ctes, empty_ctx,
    rename_cols, spec_item_cols, spec_process_ctes, spec_validate_select,
    spec_validate_set_expr, set_op_mismatch_msg, wildcard_all, wrapped_cte_cols,
    wrapped_table_cols,
};

verus! {

/// Is this logical type nullable at its outer level?
pub open spec fn is_nullable_lty(t: LTy) -> bool {
    t is Option
}

/// Wrapping in `Nullable` is normalizing: a wrapped type is nullable, and
/// wrapping twice is the same as wrapping once, so `Nullable(Nullable(t))`
/// never appears in a validator output.
pub proof fn lemma_wrap_nullable_normalizes(t: LTy)
    ensures
        is_nullable_lty(wrap_nullable(t)),
        wrap_nullable(wrap_nullable(t)) == wrap_nullable(t),
{
}

/// Nullability monotonicity, for the per-column typing rule every
/// projection path uses. Marking an alias nullable never removes
/// `Nullable` from a column it contributes, and a column that is `NOT
/// NULL` in the schema is typed `Nullable` exactly when its alias was
/// marked by an outer join.
pub proof fn lemma_nullability_monotonicity(c: ColumnV, t: LTy)
    ensures
        is_nullable_lty(column_output_type(c, true)),
        is_nullable_lty(column_output_type(c, false)) ==> is_nullable_lty(
            column_output_type(c, true),
        ),
        !c.nullable ==> forall|marked: bool|
            is_nullable_lty(#[trigger] column_output_type(c, marked)) <==> marked,
        is_nullable_lty(cte_output_type(t, false)) ==> is_nullable_lty(cte_output_type(t, true)),
        is_nullable_lty(cte_output_type(t, true)) == (is_nullable_lty(t) || true),
{
}

/// Set-operation conformance: a set operation validates exactly when both
/// sides validate against fresh scopes and their column counts agree, and
/// then its result is the left side's.
pub proof fn lemma_set_operation_conformance(
    schema: Seq<TableV>,
    op: SetOperatorAst,
    left: SetExprAst,
    right: SetExprAst,
    c: CtxV,
)
    ensures
        ({
            let whole = spec_validate_set_expr(
                schema,
                SetExprAst::SetOperation { op, left: Box::new(left), right: Box::new(right) },
                c,
            );
            let l = spec_validate_set_expr(schema, left, empty_ctx());
            let r = spec_validate_set_expr(schema, right, empty_ctx());
            &&& ((whole is Ok) <==> (l is Ok && r is Ok && l->Ok_0.len() == r->Ok_0.len()))
            &&& (whole is Ok ==> whole == l)
            &&& (l is Ok && r is Ok && l->Ok_0.len() != r->Ok_0.len() ==> whole
                == Result::<Seq<QColV>, ErrV>::Err(ErrV::InvalidQuery(set_op_mismatch_msg(
                op,
                l->Ok_0.len(),
                r->Ok_0.len(),
            ))))
        }),
{
}

/// CTE visibility. For `WITH c1 AS (Q1), c2 AS (Q2) Q3`: `Q1` is
/// validated with only the inherited CTEs in scope, `Q2` with `c1`
/// recorded as well but not `c2`, and the statement body `Q3` with both.
pub proof fn lemma_cte_visibility(schema: Seq<TableV>, q: QueryAst, inherited: Seq<CBV>)
    requires q.ctes@.len() == 2,
    ensures
        ({
            let c1 = q.ctes@[0];
            let c2 = q.ctes@[1];
            spec_validate_select(schema, q, inherited) == (match spec_validate_select(
                schema,
                *c1.query,
                inherited,
            ) {
                Err(e) => Result::<Seq<QColV>, ErrV>::Err(e),
                Ok(cols1) => {
                    let named1 = if c1.column_aliases@.len() > 0 {
                        rename_cols(cols1, c1.column_aliases@)
                    } else {
                        cols1
                    };
                    let scope1 = add_cte_spec(inherited, c1.name@, named1);
                    match spec_validate_select(schema, *c2.query, scope1) {
                        Err(e) => Result::<Seq<QColV>, ErrV>::Err(e),
                        Ok(cols2) => {
                            let named2 = if c2.column_aliases@.len() > 0 {
                                rename_cols(cols2, c2.column_aliases@)
                            } else {
                                cols2
                            };
                            let scope2 = add_cte_spec(scope1, c2.name@, named2);
                            spec_validate_set_expr(schema, q.body, ctx_of_ctes(scope2))
                        }
                    }
                }
            })
        }),
{
    reveal_with_fuel(spec_process_ctes, 4);
    let ctes = q.ctes@;
    assert(ctes.drop_first()[0] == ctes[1]);
    assert(ctes.drop_first().drop_first() =~= Seq::<CteAst>::empty());
    let r1 = spec_validate_select(schema, *ctes[0].query, inherited);
    match r1 {
        Err(e) => {
            assert(spec_process_ctes(schema, ctes, inherited)
                == Result::<Seq<CBV>, ErrV>::Err(e));
        }
        Ok(cols1) => {
            let named1 = if ctes[0].column_aliases@.len() > 0 {
                rename_cols(cols1, ctes[0].column_aliases@)
            } else {
                cols1
            };
            let scope1 = add_cte_spec(inherited, ctes[0].name@, named1);
            assert(spec_process_ctes(schema, ctes, inherited) == spec_process_ctes(
                schema,
                ctes.drop_first(),
                scope1,
            ));
            let r2 = spec_validate_select(schema, *ctes[1].query, scope1);
            match r2 {
                Err(e) => {
                    assert(spec_process_ctes(schema, ctes.drop_first(), scope1)
                        == Result::<Seq<CBV>, ErrV>::Err(e));
                }
                Ok(cols2) => {
                    let named2 = if ctes[1].column_aliases@.len() > 0 {
                        rename_cols(cols2, ctes[1].column_aliases@)
                    } else {
                        cols2
                    };
                    let scope2 = add_cte_spec(scope1, ctes[1].name@, named2);
                    assert(spec_process_ctes(schema, ctes.drop_first(), scope1)
                        == Result::<Seq<CBV>, ErrV>::Ok(scope2));
                }
            }
        }
    }
}

/// Case insensitivity of catalog and scope lookups: a name and its
/// case-folded spelling resolve alike, so a query stays valid when its
/// identifiers are case-permuted wherever resolution is concerned.
pub proof fn lemma_find_table_case_insensitive(tables: Seq<TableV>, name: Seq<char>)
    ensures find_table_spec(tables, name) == find_table_spec(tables, fold_seq(name)),
    decreases tables.len(),
{
    lemma_fold_idempotent(name);
    if tables.len() > 0 {
        lemma_find_table_case_insensitive(tables.drop_first(), name);
    }
}

/// Columns resolve case-insensitively.
pub proof fn lemma_find_col_case_insensitive(cols: Seq<ColumnV>, name: Seq<char>)
    ensures find_col_spec(cols, name) == find_col_spec(cols, fold_seq(name)),
    decreases cols.len(),
{
    lemma_fold_idempotent(name);
    if cols.len() > 0 {
        lemma_find_col_case_insensitive(cols.drop_first(), name);
    }
}

/// Result columns resolve case-insensitively.
pub proof fn lemma_find_qcol_case_insensitive(qcols: Seq<QColV>, name: Seq<char>)
    ensures find_qcol(qcols, name) == find_qcol(qcols, fold_seq(name)),
    decreases qcols.len(),
{
    lemma_fold_idempotent(name);
    if qcols.len() > 0 {
        lemma_find_qcol_case_insensitive(qcols.drop_first(), name);
    }
}

/// Aliases resolve case-insensitively.
pub proof fn lemma_lookup_alias_case_insensitive(aliases: Seq<ABV>, name: Seq<char>)
    ensures lookup_alias_spec(aliases, name) == lookup_alias_spec(aliases, fold_seq(name)),
    decreases aliases.len(),
{
    lemma_fold_idempotent(name);
    if aliases.len() > 0 {
        lemma_lookup_alias_case_insensitive(aliases.drop_first(), name);
    }
}

/// CTE names resolve case-insensitively.
pub proof fn lemma_lookup_cte_case_insensitive(ctes: Seq<CBV>, name: Seq<char>)
    ensures lookup_cte_spec(ctes, name) == lookup_cte_spec(ctes, fold_seq(name)),
    decreases ctes.len(),
{
    lemma_fold_idempotent(name);
    if ctes.len() > 0 {
        lemma_lookup_cte_case_insensitive(ctes.drop_first(), name);
    }
}

/// Nullability marks apply case-insensitively.
pub proof fn lemma_nullable_mark_case_insensitive(nullable: Seq<Seq<char>>, name: Seq<char>)
    ensures is_marked_nullable(nullable, name) == is_marked_nullable(nullable, fold_seq(name)),
    decreases nullable.len(),
{
    lemma_fold_idempotent(name);
    if nullable.len() > 0 {
        lemma_nullable_mark_case_insensitive(nullable.drop_first(), name);
    }
}

/// The search for an unqualified column finds the same matches for a name
/// and its case-folded spelling.
pub proof fn lemma_matches_case_insensitive(
    schema: Seq<TableV>,
    aliases: Seq<ABV>,
    ctes: Seq<CBV>,
    col: Seq<char>,
)
    ensures
        cte_matches(aliases, ctes, col) == cte_matches(aliases, ctes, fold_seq(col)),
        table_matches(schema, aliases, col) == table_matches(schema, aliases, fold_seq(col)),
    decreases aliases.len(),
{
    if aliases.len() > 0 {
        lemma_matches_case_insensitive(schema, aliases.drop_first(), ctes, col);
        match aliases[0].target {
            RelV::Cte(cname) => {
                match lookup_cte_spec(ctes, cname) {
                    Some(j) => {
                        crate::scope::lemma_lookup_cte_props(ctes, cname);
                        lemma_find_qcol_case_insensitive(ctes[j].columns, col);
                    }
                    None => {}
                }
            }
            RelV::SchemaTable(tname) => {
                match find_table_spec(schema, tname) {
                    Some(ti) => {
                        crate::schema::lemma_find_table_props(schema, tname);
                        lemma_find_col_case_insensitive(schema[ti].columns, col);
                    }
                    None => {}
                }
            }
            RelV::Opaque => {}
        }
    }
}

// ---------------------------------------------------------------------------
// Idempotence of schema loading
// ---------------------------------------------------------------------------

/// Table names are pairwise distinct under case folding.
pub open spec fn tables_unique(s: Seq<TableV>) -> bool {
    forall|i: int, j: int| 0 <= i < j < s.len() ==> !same_ident(
        #[trigger] s[i].name,
        #[trigger] s[j].name,
    )
}

proof fn lemma_flags_push(xs: Seq<ColumnOptionAst>, o: ColumnOptionAst)
    ensures spec_column_flags(xs.push(o)) == apply_option(spec_column_flags(xs), o),
{
    assert(xs.push(o).drop_last() =~= xs);
}

/// The canonical option list reproduces the column's flags.
proof fn lemma_flags_of_canon(c: ColumnV)
    ensures
        spec_column_flags(canon_opts(c)) == (FlagsV {
            nullable: c.nullable,
            has_default: c.has_default,
            is_primary_key: c.is_primary_key,
            is_unique: c.is_unique,
        }),
{
    let e = Seq::<ColumnOptionAst>::empty();
    let s1 = if !c.nullable {
        seq![ColumnOptionAst::NotNull]
    } else {
        e
    };
    let s2 = s1 + (if c.has_default {
        seq![ColumnOptionAst::Default]
    } else {
        e
    });
    let s3 = s2 + (if c.is_primary_key {
        seq![ColumnOptionAst::PrimaryKey]
    } else {
        e
    });
    let s4 = s3 + (if c.is_unique {
        seq![ColumnOptionAst::Unique]
    } else {
        e
    });
    let s5 = s4 + (if c.nullable && c.is_primary_key {
        seq![ColumnOptionAst::Null]
    } else {
        e
    });
    assert(canon_opts(c) == s5);
    if !c.nullable {
        assert(s1 =~= e.push(ColumnOptionAst::NotNull));
        lemma_flags_push(e, ColumnOptionAst::NotNull);
    } else {
        assert(s1 =~= e);
    }
    if c.has_default {
        assert(s2 =~= s1.push(ColumnOptionAst::Default));
        lemma_flags_push(s1, ColumnOptionAst::Default);
    } else {
        assert(s2 =~= s1);
    }
    if c.is_primary_key {
        assert(s3 =~= s2.push(ColumnOptionAst::PrimaryKey));
        lemma_flags_push(s2, ColumnOptionAst::PrimaryKey);
    } else {
        assert(s3 =~= s2);
    }
    if c.is_unique {
        assert(s4 =~= s3.push(ColumnOptionAst::Unique));
        lemma_flags_push(s3, ColumnOptionAst::Unique);
    } else {
        assert(s4 =~= s3);
    }
    if c.nullable && c.is_primary_key {
        assert(s5 =~= s4.push(ColumnOptionAst::Null));
        lemma_flags_push(s4, ColumnOptionAst::Null);
    } else {
        assert(s5 =~= s4);
    }
}

proof fn lemma_declared_roundtrip(d: DeclaredType, t: STy)
    requires declared_denotes(d, t),
    ensures declared_to_sty(d) == Result::<STy, ErrV>::Ok(t),
    decreases d,
{
    match d {
        DeclaredType::Array(Some(inner)) => {
            match t {
                STy::Array(bt) => {
                    lemma_declared_roundtrip(*inner, *bt);
                }
                _ => {}
            }
        }
        _ => {}
    }
}

proof fn lemma_column_roundtrip(cd: ColumnDefAst, c: ColumnV)
    requires def_denotes(cd, c),
    ensures spec_column_from_def(cd) == Result::<ColumnV, ErrV>::Ok(c),
{
    lemma_declared_roundtrip(cd.data_type, c.data_type);
    lemma_flags_of_canon(c);
}

proof fn lemma_columns_roundtrip(defs: Seq<ColumnDefAst>, cols: Seq<ColumnV>)
    requires
        defs.len() == cols.len(),
        forall|k: int| 0 <= k < cols.len() ==> def_denotes(#[trigger] defs[k], cols[k]),
    ensures spec_columns_from_defs(defs) == Result::<Seq<ColumnV>, ErrV>::Ok(cols),
    decreases defs.len(),
{
    if defs.len() > 0 {
        assert(defs.drop_last().len() == cols.drop_last().len());
        assert forall|k: int| 0 <= k < cols.drop_last().len() implies def_denotes(
            #[trigger] defs.drop_last()[k],
            cols.drop_last()[k],
        ) by {
            assert(defs.drop_last()[k] == defs[k]);
        }
        lemma_columns_roundtrip(defs.drop_last(), cols.drop_last());
        lemma_column_roundtrip(defs.last(), cols.last());
        assert(cols.drop_last().push(cols.last()) =~= cols);
    } else {
        assert(cols =~= Seq::<ColumnV>::empty());
    }
}

proof fn lemma_table_roundtrip(ct: CreateTableAst, t: TableV)
    requires create_denotes(ct, t),
    ensures spec_table_from_create(ct) == Result::<TableV, ErrV>::Ok(t),
{
    lemma_columns_roundtrip(ct.columns@, t.columns);
    assert(apply_constraints(t.columns, ct.constraints@) == t.columns) by {
        assert(ct.constraints@.len() == 0);
    }
    assert(spec_table_from_create(ct) matches Ok(tv) && tv.name == t.name && tv.columns
        == t.columns);
}

/// Loading preserves name uniqueness: any catalog built from DDL has
/// pairwise distinct table names under case folding.
pub proof fn lemma_loaded_schema_unique(stmts: Seq<DdlStatement>, s: Seq<TableV>)
    requires spec_schema_from_statements(stmts) == Result::<Seq<TableV>, ErrV>::Ok(s),
    ensures tables_unique(s),
    decreases stmts.len(),
{
    if stmts.len() == 0 {
    } else {
        match spec_schema_from_statements(stmts.drop_last()) {
            Err(_) => {}
            Ok(prev) => {
                lemma_loaded_schema_unique(stmts.drop_last(), prev);
                match stmts.last() {
                    DdlStatement::CreateTable(ct) => {
                        match spec_table_from_create(ct) {
                            Err(_) => {}
                            Ok(t) => {
                                match find_table_spec(prev, t.name) {
                                    Some(i) => {
                                        crate::schema::lemma_find_table_props(prev, t.name);
                                        let after = prev.update(i, t);
                                        assert(s == after);
                                        assert forall|a: int, b: int|
                                            0 <= a < b < after.len() implies !same_ident(
                                            #[trigger] after[a].name,
                                            #[trigger] after[b].name,
                                        ) by {
                                            if a != i && b != i {
                                                assert(after[a] == prev[a]);
                                                assert(after[b] == prev[b]);
                                            }
                                        }
                                    }
                                    None => {
                                        crate::schema::lemma_find_table_props(prev, t.name);
                                        let after = prev.push(t);
                                        assert(s == after);
                                        assert forall|a: int, b: int|
                                            0 <= a < b < after.len() implies !same_ident(
                                            #[trigger] after[a].name,
                                            #[trigger] after[b].name,
                                        ) by {
                                            if b < prev.len() {
                                                assert(after[a] == prev[a]);
                                                assert(after[b] == prev[b]);
                                            } else {
                                                assert(after[a] == prev[a]);
                                                assert(after[b] == t);
                                            }
                                        }
                                    }
                                }
                            }
                        }
                    }
                    DdlStatement::Other => {}
                }
            }
        }
    }
}

proof fn lemma_load_dump(stmts: Seq<DdlStatement>, s: Seq<TableV>)
    requires is_dump_of(stmts, s), tables_unique(s),
    ensures spec_schema_from_statements(stmts) == Result::<Seq<TableV>, ErrV>::Ok(s),
    decreases stmts.len(),
{
    if stmts.len() == 0 {
        assert(s =~= Seq::<TableV>::empty());
    } else {
        let prev = s.drop_last();
        assert(stmts.drop_last().len() == prev.len());
        assert forall|i: int| 0 <= i < prev.len() implies (#[trigger] stmts.drop_last()[i]
            matches DdlStatement::CreateTable(ct) && create_denotes(ct, prev[i])) by {
            assert(stmts.drop_last()[i] == stmts[i]);
            assert(prev[i] == s[i]);
        }
        lemma_load_dump(stmts.drop_last(), prev);
        let t = s.last();
        assert(stmts.last() matches DdlStatement::CreateTable(ct) && create_denotes(ct, t)) by {
            assert(stmts.last() == stmts[stmts.len() - 1]);
        }
        match stmts.last() {
            DdlStatement::CreateTable(ct) => {
                lemma_table_roundtrip(ct, t);
                crate::schema::lemma_find_table_props(prev, t.name);
                match find_table_spec(prev, t.name) {
                    Some(i) => {
                        assert(prev[i] == s[i]);
                        assert(same_ident(s[i].name, s[s.len() - 1].name));
                        assert(false);
                    }
                    None => {}
                }
                assert(prev.push(t) =~= s);
            }
            DdlStatement::Other => {}
        }
    }
}

/// Idempotence of schema loading: dumping a loaded catalog and loading
/// the dump yields the same catalog, table for table and column for
/// column.
pub proof fn lemma_schema_load_idempotent(
    stmts: Seq<DdlStatement>,
    s: Seq<TableV>,
    dumped: Seq<DdlStatement>,
)
    requires
        spec_schema_from_statements(stmts) == Result::<Seq<TableV>, ErrV>::Ok(s),
        is_dump_of(dumped, s),
    ensures spec_schema_from_statements(dumped) == Result::<Seq<TableV>, ErrV>::Ok(s),
{
    lemma_loaded_schema_unique(stmts, s);
    lemma_load_dump(dumped, s);
}

// ---------------------------------------------------------------------------
// Soundness of column resolution
// ---------------------------------------------------------------------------

/// A result-column name is accounted for when it names a column of some
/// CTE or schema table in scope, or is produced by one of the fixed
/// naming rules for the expression that was typed.
pub open spec fn name_accounted(
    schema: Seq<TableV>,
    ctx: CtxV,
    e: SqlExpr,
    nm: Seq<char>,
) -> bool
    decreases expr_size(e),
{
    cte_matches(ctx.aliases, ctx.ctes, nm).len() > 0
        || table_matches(schema, ctx.aliases, nm).len() > 0
        || (match e {
        SqlExpr::Function { name_parts, first_arg: _ } => nm == (
        match last_ident_spec(name_parts@) {
            Some(n) => fold_seq(n),
            None => Seq::<char>::empty(),
        }),
        SqlExpr::Value(_) => nm == "?column?"@,
        SqlExpr::Cast { expr, target_text: _ } => name_accounted(schema, ctx, *expr, nm),
        SqlExpr::BinaryOp { left } => name_accounted(schema, ctx, *left, nm),
        SqlExpr::Nested(inner) => name_accounted(schema, ctx, *inner, nm),
        SqlExpr::Extract => nm == "extract"@,
        SqlExpr::Ceil => nm == "ceil"@,
        SqlExpr::Floor => nm == "floor"@,
        SqlExpr::Position => nm == "position"@,
        SqlExpr::Substring => nm == "substring"@,
        SqlExpr::Trim => nm == "trim"@,
        SqlExpr::Overlay => nm == "overlay"@,
        SqlExpr::Other => nm == "?column?"@,
        _ => false,
    })
}

/// Searching for a column never finds fewer matches in a longer alias
/// list.
proof fn lemma_matches_len_cons(
    schema: Seq<TableV>,
    aliases: Seq<ABV>,
    ctes: Seq<CBV>,
    col: Seq<char>,
)
    requires aliases.len() > 0,
    ensures
        cte_matches(aliases, ctes, col).len() >= cte_matches(
            aliases.drop_first(),
            ctes,
            col,
        ).len(),
        table_matches(schema, aliases, col).len() >= table_matches(
            schema,
            aliases.drop_first(),
            col,
        ).len(),
{
}

/// An alias bound to a CTE holding the column contributes a match.
proof fn lemma_cte_match_from_alias(
    aliases: Seq<ABV>,
    ctes: Seq<CBV>,
    col: Seq<char>,
    ai: int,
)
    requires
        0 <= ai < aliases.len(),
        aliases[ai].target matches RelV::Cte(cname) && (lookup_cte_spec(ctes, cname) matches
        Some(j) && find_qcol(ctes[j].columns, col) is Some),
    ensures cte_matches(aliases, ctes, col).len() > 0,
    decreases ai,
{
    if ai == 0 {
    } else {
        assert(aliases.drop_first()[ai - 1] == aliases[ai]);
        lemma_cte_match_from_alias(aliases.drop_first(), ctes, col, ai - 1);
        lemma_matches_len_cons(Seq::empty(), aliases, ctes, col);
    }
}

/// An alias bound to a schema table holding the column contributes a
/// match.
proof fn lemma_table_match_from_alias(
    schema: Seq<TableV>,
    aliases: Seq<ABV>,
    col: Seq<char>,
    ai: int,
)
    requires
        0 <= ai < aliases.len(),
        aliases[ai].target matches RelV::SchemaTable(tname) && (find_table_spec(schema, tname)
            matches Some(ti) && find_col_spec(schema[ti].columns, col) is Some),
    ensures table_matches(schema, aliases, col).len() > 0,
    decreases ai,
{
    if ai == 0 {
    } else {
        assert(aliases.drop_first()[ai - 1] == aliases[ai]);
        lemma_table_match_from_alias(schema, aliases.drop_first(), col, ai - 1);
        lemma_matches_len_cons(schema, aliases, Seq::empty(), col);
    }
}

/// Searching a column list for one of its own names succeeds.
proof fn lemma_find_col_reflexive(cols: Seq<ColumnV>, k: int)
    requires 0 <= k < cols.len(),
    ensures find_col_spec(cols, cols[k].name) is Some,
    decreases k,
{
    if cols.len() > 0 && !same_ident(cols[0].name, cols[k].name) {
        assert(k != 0);
        assert(cols.drop_first()[k - 1] == cols[k]);
        lemma_find_col_reflexive(cols.drop_first(), k - 1);
    }
}

/// Searching a result-column list for one of its own names succeeds.
proof fn lemma_find_qcol_reflexive(cols: Seq<QColV>, k: int)
    requires 0 <= k < cols.len(),
    ensures find_qcol(cols, cols[k].name) is Some,
    decreases k,
{
    if cols.len() > 0 && !same_ident(cols[0].name, cols[k].name) {
        assert(k != 0);
        assert(cols.drop_first()[k - 1] == cols[k]);
        lemma_find_qcol_reflexive(cols.drop_first(), k - 1);
    }
}

/// Soundness of column resolution for one typed expression: when typing
/// succeeds, the returned name either names a column of a CTE or schema
/// table in scope, or comes from the fixed naming rule of the expression
/// form. (A projection alias chosen with `AS` names its column itself.)
pub proof fn lemma_column_resolution_sound(schema: Seq<TableV>, ctx: CtxV, e: SqlExpr)
    ensures
        spec_infer(schema, ctx, e) matches Ok(p) ==> name_accounted(schema, ctx, e, p.0),
    decreases expr_size(e),
{
    match e {
        SqlExpr::Identifier(_) => {}
        SqlExpr::CompoundIdentifier(idents) => {
            if idents@.len() == 2 {
                let alias = idents@[0]@;
                let col = idents@[1]@;
                match lookup_alias_spec(ctx.aliases, alias) {
                    None => {}
                    Some(ai) => {
                        crate::scope::lemma_lookup_alias_props(ctx.aliases, alias);
                        match ctx.aliases[ai].target {
                            RelV::Opaque => {}
                            RelV::Cte(cname) => {
                                match lookup_cte_spec(ctx.ctes, cname) {
                                    None => {}
                                    Some(j) => {
                                        if find_qcol(ctx.ctes[j].columns, col) is Some {
                                            lemma_cte_match_from_alias(
                                                ctx.aliases,
                                                ctx.ctes,
                                                col,
                                                ai,
                                            );
                                        }
                                    }
                                }
                            }
                            RelV::SchemaTable(tname) => {
                                match find_table_spec(schema, tname) {
                                    None => {}
                                    Some(ti) => {
                                        if find_col_spec(schema[ti].columns, col) is Some {
                                            lemma_table_match_from_alias(
                                                schema,
                                                ctx.aliases,
                                                col,
                                                ai,
                                            );
                                        }
                                    }
                                }
                            }
                        }
                    }
                }
            }
        }
        SqlExpr::Cast { expr, target_text: _ } => {
            lemma_column_resolution_sound(schema, ctx, *expr);
        }
        SqlExpr::BinaryOp { left } => {
            lemma_column_resolution_sound(schema, ctx, *left);
        }
        SqlExpr::Nested(inner) => {
            lemma_column_resolution_sound(schema, ctx, *inner);
        }
        _ => {}
    }
}

/// Soundness of column resolution for wildcard expansion: every column a
/// wildcard contributes carries the name of a column of some in-scope
/// relation.
pub proof fn lemma_wildcard_names_sound(
    schema: Seq<TableV>,
    aliases: Seq<ABV>,
    ctes: Seq<CBV>,
    nullable: Seq<Seq<char>>,
)
    ensures
        forall|i: int| 0 <= i < wildcard_all(schema, aliases, ctes, nullable).len() ==> {
            let nm = #[trigger] wildcard_all(schema, aliases, ctes, nullable)[i].name;
            cte_matches(aliases, ctes, nm).len() > 0 || table_matches(schema, aliases, nm).len()
                > 0
        },
    decreases aliases.len(),
{
    if aliases.len() > 0 {
        lemma_wildcard_names_sound(schema, aliases.drop_first(), ctes, nullable);
        let head = alias_wildcard_cols(schema, aliases[0], ctes, nullable);
        let rest = wildcard_all(schema, aliases.drop_first(), ctes, nullable);
        assert forall|i: int| 0 <= i < wildcard_all(schema, aliases, ctes, nullable).len()
            implies {
            let nm = #[trigger] wildcard_all(schema, aliases, ctes, nullable)[i].name;
            cte_matches(aliases, ctes, nm).len() > 0 || table_matches(schema, aliases, nm).len()
                > 0
        } by {
            let nm = wildcard_all(schema, aliases, ctes, nullable)[i].name;
            if i < head.len() {
                match aliases[0].target {
                    RelV::Cte(cname) => {
                        match lookup_cte_spec(ctes, cname) {
                            Some(j) => {
                                assert(nm == ctes[j].columns[i].name);
                                lemma_find_qcol_reflexive(ctes[j].columns, i);
                                lemma_cte_match_from_alias(aliases, ctes, nm, 0);
                            }
                            None => {}
                        }
                    }
                    RelV::SchemaTable(tname) => {
                        match find_table_spec(schema, tname) {
                            Some(ti) => {
                                assert(nm == schema[ti].columns[i].name);
                                lemma_find_col_reflexive(schema[ti].columns, i);
                                lemma_table_match_from_alias(schema, aliases, nm, 0);
                            }
                            None => {}
                        }
                    }
                    RelV::Opaque => {}
                }
            } else {
                assert(nm == rest[i - head.len()].name);
                lemma_matches_len_cons(schema, aliases, ctes, nm);
            }
        }
    }
}

/// Soundness of column resolution for a whole projection item: every
/// result column's name either names a column of a CTE or schema table in
/// scope, comes from the typed expression's fixed naming rule, or is the
/// alias the projection chose with `AS`.
pub proof fn lemma_item_names_sound(schema: Seq<TableV>, ctx: CtxV, item: SelectItemAst)
    ensures
        spec_item_cols(schema, ctx, item) matches Ok(cols) ==> forall|i: int|
            0 <= i < cols.len() ==> {
                let nm = (#[trigger] cols[i]).name;
                cte_matches(ctx.aliases, ctx.ctes, nm).len() > 0 || table_matches(
                    schema,
                    ctx.aliases,
                    nm,
                ).len() > 0 || (item matches SelectItemAst::UnnamedExpr(e) && name_accounted(
                    schema,
                    ctx,
                    e,
                    nm,
                )) || (item matches SelectItemAst::ExprWithAlias { expr: _, alias } && nm
                    == alias@)
            },
{
    match item {
        SelectItemAst::UnnamedExpr(e) => {
            lemma_column_resolution_sound(schema, ctx, e);
        }
        SelectItemAst::ExprWithAlias { .. } => {}
        SelectItemAst::Wildcard => {
            lemma_wildcard_names_sound(schema, ctx.aliases, ctx.ctes, ctx.nullable);
        }
        SelectItemAst::QualifiedWildcard { name_parts } => {
            match first_ident_spec(name_parts@) {
                None => {}
                Some(alias) => {
                    match lookup_alias_spec(ctx.aliases, alias) {
                        None => {}
                        Some(ai) => {
                            crate::scope::lemma_lookup_alias_props(ctx.aliases, alias);
                            match ctx.aliases[ai].target {
                                RelV::Opaque => {}
                                RelV::Cte(cname) => {
                                    match lookup_cte_spec(ctx.ctes, cname) {
                                        None => {}
                                        Some(j) => {
                                            let cols = wrapped_cte_cols(
                                                ctx.ctes[j].columns,
                                                is_marked_nullable(ctx.nullable, alias),
                                            );
                                            assert forall|i: int| 0 <= i < cols.len() implies
                                                cte_matches(
                                                ctx.aliases,
                                                ctx.ctes,
                                                (#[trigger] cols[i]).name,
                                            ).len() > 0 by {
                                                assert(cols[i].name
                                                    == ctx.ctes[j].columns[i].name);
                                                lemma_find_qcol_reflexive(
                                                    ctx.ctes[j].columns,
                                                    i,
                                                );
                                                lemma_cte_match_from_alias(
                                                    ctx.aliases,
                                                    ctx.ctes,
                                                    cols[i].name,
                                                    ai,
                                                );
                                            }
                                        }
                                    }
                                }
                                RelV::SchemaTable(tname) => {
                                    match find_table_spec(schema, tname) {
                                        None => {}
                                        Some(ti) => {
                                            let cols = wrapped_table_cols(
                                                schema[ti].columns,
                                                is_marked_nullable(ctx.nullable, alias),
                                            );
                                            assert forall|i: int| 0 <= i < cols.len() implies
                                                table_matches(
                                                schema,
                                                ctx.aliases,
                                                (#[trigger] cols[i]).name,
                                            ).len() > 0 by {
                                                assert(cols[i].name
                                                    == schema[ti].columns[i].name);
                                                lemma_find_col_reflexive(
                                                    schema[ti].columns,
                                                    i,
                                                );
                                                lemma_table_match_from_alias(
                                                    schema,
                                                    ctx.aliases,
                                                    cols[i].name,
                                                    ai,
                                                );
                                            }
                                        }
                                    }
                                }
                            }
                        }
                    }
                }
            }
        }
        SelectItemAst::WildcardExpr => {}
    }
}

} // verus!
