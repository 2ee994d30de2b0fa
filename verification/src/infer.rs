//! The expression typer: assigns each projected expression a result name
//! and a nullable-aware logical type, resolving identifiers through the
//! scope.
//!
//! CTE-bound aliases are searched before schema-bound aliases; an
//! unqualified name matching columns of two relations in the same stage is
//! ambiguous. A column's type is wrapped in `Nullable` when the column is
//! nullable in its source or its alias was made nullable by an outer join.
use vstd::prelude::*;
use crate::ast::{SqlExpr, SqlValue, last_ident_spec, last_ident, expr_size};
use crate::error::{Error, ErrV};
use crate::schema::{
    Schema, Column, TableV, ColumnV, find_table_spec, find_col_spec,
};
use crate::scope::{
    ResolveContext, CtxV, ABV, CBV, RelV, RelationRef, qcols_view,
    lookup_alias_spec, lookup_cte_spec, is_marked_nullable, find_qcol, find_query_column,
};
use crate::text::{fold_seq, dec_str, eq_str, fold_string, usize_to_string};
use crate::types::{
    RustType, LTy, PostgresType, sty_to_lty, wrap_nullable, strip_nullable, from_sql_name_spec,
};

verus! {

// ---------------------------------------------------------------------------
// Unqualified column search
// ---------------------------------------------------------------------------

/// The CTE columns an unqualified name matches: one entry per alias bound
/// to a CTE holding a column of that name, in scope order. Each entry is
/// the alias key and the column's type.
pub open spec fn cte_matches(
    aliases: Seq<ABV>,
    ctes: Seq<CBV>,
    col: Seq<char>,
) -> Seq<(Seq<char>, LTy)>
    decreases aliases.len(),
{
    if aliases.len() == 0 {
        Seq::empty()
    } else {
        let rest = cte_matches(aliases.drop_first(), ctes, col);
        match aliases[0].target {
            RelV::Cte(cname) => match lookup_cte_spec(ctes, cname) {
                Some(j) => match find_qcol(ctes[j].columns, col) {
                    Some(k) => seq![(aliases[0].key, ctes[j].columns[k].rust_type)] + rest,
                    None => rest,
                },
                None => rest,
            },
            _ => rest,
        }
    }
}

/// The schema columns an unqualified name matches: one entry per alias
/// bound to a schema table holding a column of that name. Each entry is
/// the alias key and the column.
pub open spec fn table_matches(
    schema: Seq<TableV>,
    aliases: Seq<ABV>,
    col: Seq<char>,
) -> Seq<(Seq<char>, ColumnV)>
    decreases aliases.len(),
{
    if aliases.len() == 0 {
        Seq::empty()
    } else {
        let rest = table_matches(schema, aliases.drop_first(), col);
        match aliases[0].target {
            RelV::SchemaTable(tname) => match find_table_spec(schema, tname) {
                Some(ti) => match find_col_spec(schema[ti].columns, col) {
                    Some(ci) => seq![(aliases[0].key, schema[ti].columns[ci])] + rest,
                    None => rest,
                },
                None => rest,
            },
            _ => rest,
        }
    }
}

// ---------------------------------------------------------------------------
// The typing rules
// ---------------------------------------------------------------------------

/// The result type of a built-in function, given its folded name and the
/// typing outcome of its first argument (when it has one). Only `min`,
/// `max` and `coalesce` consult the argument; an unknown name yields
/// `Custom`.
pub open spec fn builtin_function_type(
    fname: Seq<char>,
    arg: Option<Result<(Seq<char>, LTy), ErrV>>,
) -> Result<LTy, ErrV> {
    if fname == "count"@ {
        Ok(LTy::I64)
    } else if fname == "sum"@ || fname == "avg"@ {
        Ok(LTy::Option(Box::new(LTy::Decimal)))
    } else if fname == "min"@ || fname == "max"@ {
        match arg {
            None => Ok(LTy::Option(Box::new(LTy::String))),
            Some(Err(e)) => Err(e),
            Some(Ok(p)) => Ok(LTy::Option(Box::new(strip_nullable(p.1)))),
        }
    } else if fname == "coalesce"@ {
        match arg {
            None => Ok(LTy::String),
            Some(Err(e)) => Err(e),
            Some(Ok(p)) => Ok(strip_nullable(p.1)),
        }
    } else if fname == "now"@ {
        Ok(LTy::DateTime)
    } else if fname == "upper"@ || fname == "lower"@ || fname == "initcap"@
        || fname == "concat"@ || fname == "concat_ws"@
        || fname == "substring"@ || fname == "substr"@ || fname == "left"@ || fname == "right"@
        || fname == "trim"@ || fname == "ltrim"@ || fname == "rtrim"@ || fname == "btrim"@
        || fname == "replace"@ || fname == "translate"@ || fname == "reverse"@
        || fname == "repeat"@ || fname == "lpad"@ || fname == "rpad"@ || fname == "split_part"@
        || fname == "overlay"@ || fname == "format"@ || fname == "quote_ident"@
        || fname == "quote_literal"@ || fname == "quote_nullable"@ || fname == "encode"@
        || fname == "decode"@ || fname == "md5"@ || fname == "sha256"@ || fname == "sha384"@
        || fname == "sha512"@ || fname == "to_hex"@ || fname == "chr"@
        || fname == "regexp_replace"@ || fname == "regexp_substr"@ || fname == "regexp_match"@ {
        Ok(LTy::String)
    } else if fname == "length"@ || fname == "char_length"@ || fname == "character_length"@
        || fname == "octet_length"@ || fname == "bit_length"@ || fname == "position"@
        || fname == "strpos"@ || fname == "ascii"@ {
        Ok(LTy::I32)
    } else if fname == "extract"@ || fname == "date_part"@ {
        Ok(LTy::F64)
    } else if fname == "date_trunc"@ {
        Ok(LTy::DateTime)
    } else if fname == "age"@ {
        Ok(LTy::Duration)
    } else if fname == "to_char"@ {
        Ok(LTy::String)
    } else if fname == "to_date"@ {
        Ok(LTy::Date)
    } else if fname == "to_timestamp"@ {
        Ok(LTy::DateTime)
    } else if fname == "current_date"@ {
        Ok(LTy::Date)
    } else if fname == "current_time"@ {
        Ok(LTy::Time)
    } else if fname == "current_timestamp"@ || fname == "localtimestamp"@
        || fname == "localtime"@ {
        Ok(LTy::DateTime)
    } else if fname == "make_date"@ {
        Ok(LTy::Date)
    } else if fname == "make_time"@ {
        Ok(LTy::Time)
    } else if fname == "make_timestamp"@ || fname == "make_timestamptz"@ {
        Ok(LTy::DateTime)
    } else if fname == "make_interval"@ {
        Ok(LTy::Duration)
    } else {
        Ok(LTy::Custom(fname))
    }
}

/// What typing an expression yields: its result name and logical type, or
/// the first resolution error.
pub open spec fn spec_infer(
    schema: Seq<TableV>,
    ctx: CtxV,
    e: SqlExpr,
) -> Result<(Seq<char>, LTy), ErrV>
    decreases expr_size(e),
{
    match e {
        SqlExpr::Identifier(name) => {
            let cm = cte_matches(ctx.aliases, ctx.ctes, name@);
            if cm.len() == 1 {
                let ty = if is_marked_nullable(ctx.nullable, cm[0].0) {
                    wrap_nullable(cm[0].1)
                } else {
                    cm[0].1
                };
                Ok((name@, ty))
            } else {
                let tm = table_matches(schema, ctx.aliases, name@);
                if tm.len() >= 2 {
                    Err(ErrV::AmbiguousColumn(name@))
                } else if tm.len() == 1 {
                    let col = tm[0].1;
                    let base = sty_to_lty(col.data_type);
                    let ty = if col.nullable || is_marked_nullable(ctx.nullable, tm[0].0) {
                        wrap_nullable(base)
                    } else {
                        base
                    };
                    Ok((name@, ty))
                } else {
                    Err(ErrV::UnknownColumn { table: "<unknown>"@, column: name@ })
                }
            }
        }
        SqlExpr::CompoundIdentifier(idents) => {
            if idents@.len() != 2 {
                Err(ErrV::InvalidQuery(
                    "Expected table.column, got "@ + dec_str(idents@.len() as nat) + " parts"@,
                ))
            } else {
                let alias = idents@[0]@;
                let col = idents@[1]@;
                match lookup_alias_spec(ctx.aliases, alias) {
                    None => Err(ErrV::UnknownTable(alias)),
                    Some(ai) => match ctx.aliases[ai].target {
                        RelV::Opaque => Err(ErrV::UnknownTable(alias)),
                        RelV::Cte(cname) => match lookup_cte_spec(ctx.ctes, cname) {
                            None => Err(ErrV::UnknownTable(cname)),
                            Some(j) => match find_qcol(ctx.ctes[j].columns, col) {
                                None => Err(ErrV::UnknownColumn { table: cname, column: col }),
                                Some(k) => {
                                    let base = ctx.ctes[j].columns[k].rust_type;
                                    let ty = if is_marked_nullable(ctx.nullable, alias) {
                                        wrap_nullable(base)
                                    } else {
                                        base
                                    };
                                    Ok((col, ty))
                                }
                            },
                        },
                        RelV::SchemaTable(tname) => match find_table_spec(schema, tname) {
                            None => Err(ErrV::UnknownTable(tname)),
                            Some(ti) => match find_col_spec(schema[ti].columns, col) {
                                None => Err(ErrV::UnknownColumn { table: tname, column: col }),
                                Some(ci) => {
                                    let c = schema[ti].columns[ci];
                                    let base = sty_to_lty(c.data_type);
                                    let ty = if c.nullable || is_marked_nullable(
                                        ctx.nullable,
                                        alias,
                                    ) {
                                        wrap_nullable(base)
                                    } else {
                                        base
                                    };
                                    Ok((col, ty))
                                }
                            },
                        },
                    },
                }
            }
        }
        SqlExpr::Function { name_parts, first_arg } => {
            let fname = match last_ident_spec(name_parts@) {
                Some(n) => fold_seq(n),
                None => Seq::<char>::empty(),
            };
            let arg = match first_arg {
                Some(b) => Some(spec_infer(schema, ctx, *b)),
                None => None,
            };
            match builtin_function_type(fname, arg) {
                Ok(t) => Ok((fname, t)),
                Err(e) => Err(e),
            }
        }
        SqlExpr::Value(v) => {
            let ty = match v {
                SqlValue::Number => LTy::I64,
                SqlValue::SingleQuotedString => LTy::String,
                SqlValue::Boolean => LTy::Bool,
                SqlValue::Null => LTy::Option(Box::new(LTy::String)),
                SqlValue::Other => LTy::String,
            };
            Ok(("?column?"@, ty))
        }
        SqlExpr::Cast { expr, target_text } => {
            match spec_infer(schema, ctx, *expr) {
                Err(e) => Err(e),
                Ok(p) => Ok((p.0, sty_to_lty(from_sql_name_spec(target_text@)))),
            }
        }
        SqlExpr::BinaryOp { left } => spec_infer(schema, ctx, *left),
        SqlExpr::Nested(inner) => spec_infer(schema, ctx, *inner),
        SqlExpr::Extract => Ok(("extract"@, LTy::F64)),
        SqlExpr::Ceil => Ok(("ceil"@, LTy::F64)),
        SqlExpr::Floor => Ok(("floor"@, LTy::F64)),
        SqlExpr::Position => Ok(("position"@, LTy::I32)),
        SqlExpr::Substring => Ok(("substring"@, LTy::String)),
        SqlExpr::Trim => Ok(("trim"@, LTy::String)),
        SqlExpr::Overlay => Ok(("overlay"@, LTy::String)),
        SqlExpr::Other => Ok(("?column?"@, LTy::String)),
    }
}

// ---------------------------------------------------------------------------
// Executable search
// ---------------------------------------------------------------------------

/// Outcome of searching CTE-bound aliases for an unqualified column.
pub enum CteLookup {
    NotFound,
    One { alias: String, ty: RustType },
    Many,
}

/// Outcome of searching schema-bound aliases for an unqualified column.
pub enum TableLookup {
    NotFound,
    One { alias: String, column: Column },
    Many,
}

/// Search every CTE-bound alias for a column named `col`.
pub fn find_column_in_ctes(ctx: &ResolveContext, col: &str) -> (r: CteLookup)
    ensures
        r is NotFound ==> cte_matches(ctx@.aliases, ctx@.ctes, col@).len() == 0,
        r matches CteLookup::One { alias, ty } ==> cte_matches(ctx@.aliases, ctx@.ctes, col@).len() == 1
            && alias@ == cte_matches(ctx@.aliases, ctx@.ctes, col@)[0].0
            && ty@ == cte_matches(ctx@.aliases, ctx@.ctes, col@)[0].1,
        r is Many ==> cte_matches(ctx@.aliases, ctx@.ctes, col@).len() >= 2,
{
    let ghost m = cte_matches(ctx@.aliases, ctx@.ctes, col@);
    let n = ctx.aliases.len();
    let mut first: Option<(String, RustType)> = None;
    let ghost mut found: Seq<(Seq<char>, LTy)> = Seq::empty();
    proof {
        assert(ctx@.aliases.skip(0) =~= ctx@.aliases);
        assert(m == found + cte_matches(ctx@.aliases.skip(0), ctx@.ctes, col@));
    }
    let mut i: usize = 0;
    while i < n
        invariant
            i <= n,
            n == ctx.aliases@.len(),
            ctx@.aliases.len() == n,
            m == cte_matches(ctx@.aliases, ctx@.ctes, col@),
            m == found + cte_matches(ctx@.aliases.skip(i as int), ctx@.ctes, col@),
            match first {
                None => found.len() == 0,
                Some(p) => found.len() == 1 && p.0@ == found[0].0 && p.1@ == found[0].1,
            },
        decreases n - i,
    {
        let ghost tail = ctx@.aliases.skip(i as int);
        proof {
            assert(tail.len() > 0);
            assert(tail[0] == ctx@.aliases[i as int]);
            assert(tail.drop_first() =~= ctx@.aliases.skip(i + 1));
        }
        let target = &ctx.aliases[i].target;
        match target {
            RelationRef::Cte(cname) => {
                match ctx.get_cte(cname.as_str()) {
                    Some(cte) => {
                        match find_query_column(&cte.columns, col) {
                            Some(k) => {
                                proof {
                                    crate::scope::lemma_find_qcol_props(
                                        qcols_view(cte.columns@),
                                        col@,
                                    );
                                }
                                let entry_alias = ctx.aliases[i].key.clone();
                                let entry_ty = cte.columns[k].rust_type.duplicate();
                                proof {
                                    found = found.push((entry_alias@, entry_ty@));
                                }
                                match first {
                                    Some(_) => {
                                        proof {
                                            assert(m.len() >= found.len());
                                        }
                                        return CteLookup::Many;
                                    }
                                    None => {
                                        first = Some((entry_alias, entry_ty));
                                    }
                                }
                            }
                            None => {}
                        }
                    }
                    None => {}
                }
            }
            _ => {}
        }
        i = i + 1;
    }
    proof {
        assert(ctx@.aliases.skip(n as int) =~= Seq::<ABV>::empty());
        assert(m =~= found);
    }
    match first {
        Some(p) => CteLookup::One { alias: p.0, ty: p.1 },
        None => CteLookup::NotFound,
    }
}

/// Search every schema-bound alias for a column named `col`.
pub fn find_column_in_tables(schema: &Schema, ctx: &ResolveContext, col: &str) -> (r: TableLookup)
    ensures
        r is NotFound ==> table_matches(schema@, ctx@.aliases, col@).len() == 0,
        r matches TableLookup::One { alias, column } ==> table_matches(schema@, ctx@.aliases, col@).len() == 1
            && alias@ == table_matches(schema@, ctx@.aliases, col@)[0].0
            && column@ == table_matches(schema@, ctx@.aliases, col@)[0].1,
        r is Many ==> table_matches(schema@, ctx@.aliases, col@).len() >= 2,
{
    let ghost m = table_matches(schema@, ctx@.aliases, col@);
    let n = ctx.aliases.len();
    let mut first: Option<(String, Column)> = None;
    let ghost mut found: Seq<(Seq<char>, ColumnV)> = Seq::empty();
    proof {
        assert(ctx@.aliases.skip(0) =~= ctx@.aliases);
        assert(m == found + table_matches(schema@, ctx@.aliases.skip(0), col@));
    }
    let mut i: usize = 0;
    while i < n
        invariant
            i <= n,
            n == ctx.aliases@.len(),
            ctx@.aliases.len() == n,
            m == table_matches(schema@, ctx@.aliases, col@),
            m == found + table_matches(schema@, ctx@.aliases.skip(i as int), col@),
            match first {
                None => found.len() == 0,
                Some(p) => found.len() == 1 && p.0@ == found[0].0 && p.1@ == found[0].1,
            },
        decreases n - i,
    {
        let ghost tail = ctx@.aliases.skip(i as int);
        proof {
            assert(tail.len() > 0);
            assert(tail[0] == ctx@.aliases[i as int]);
            assert(tail.drop_first() =~= ctx@.aliases.skip(i + 1));
        }
        let target = &ctx.aliases[i].target;
        match target {
            RelationRef::SchemaTable(tname) => {
                match schema.get_table(tname.as_str()) {
                    Some(table) => {
                        match table.get_column(col) {
                            Some(c) => {
                                let entry_alias = ctx.aliases[i].key.clone();
                                let entry_col = c.duplicate();
                                proof {
                                    found = found.push((entry_alias@, entry_col@));
                                }
                                match first {
                                    Some(_) => {
                                        proof {
                                            assert(m.len() >= found.len());
                                        }
                                        return TableLookup::Many;
                                    }
                                    None => {
                                        first = Some((entry_alias, entry_col));
                                    }
                                }
                            }
                            None => {}
                        }
                    }
                    None => {}
                }
            }
            _ => {}
        }
        i = i + 1;
    }
    proof {
        assert(ctx@.aliases.skip(n as int) =~= Seq::<ABV>::empty());
        assert(m =~= found);
    }
    match first {
        Some(p) => TableLookup::One { alias: p.0, column: p.1 },
        None => TableLookup::NotFound,
    }
}

// ---------------------------------------------------------------------------
// The typer
// ---------------------------------------------------------------------------

/// Infer the result name and logical type of one expression.
#[verifier::rlimit(60)]
pub fn infer_expr_type(schema: &Schema, ctx: &ResolveContext, e: &SqlExpr) -> (r: Result<
    (String, RustType),
    Error,
>)
    ensures
        r matches Ok(p) ==> spec_infer(schema@, ctx@, *e)
            == Result::<(Seq<char>, LTy), ErrV>::Ok((p.0@, p.1@)),
        r matches Err(er) ==> spec_infer(schema@, ctx@, *e)
            == Result::<(Seq<char>, LTy), ErrV>::Err(er@),
    decreases expr_size(*e),
{
    proof {
        reveal_with_fuel(crate::types::lty_of, 3);
    }
    match e {
        SqlExpr::Identifier(name) => {
            match find_column_in_ctes(ctx, name.as_str()) {
                CteLookup::One { alias, ty } => {
                    let wrapped = if ctx.is_nullable_table(alias.as_str()) {
                        ty.nullable()
                    } else {
                        ty
                    };
                    Ok((name.clone(), wrapped))
                }
                _ => {
                    match find_column_in_tables(schema, ctx, name.as_str()) {
                        TableLookup::Many => Err(Error::AmbiguousColumn(name.clone())),
                        TableLookup::One { alias, column } => {
                            let base = column.data_type.to_rust_type();
                            let wrapped = if column.nullable || ctx.is_nullable_table(
                                alias.as_str(),
                            ) {
                                base.nullable()
                            } else {
                                base
                            };
                            Ok((name.clone(), wrapped))
                        }
                        TableLookup::NotFound => Err(Error::UnknownColumn {
                            table: String::from_str("<unknown>"),
                            column: name.clone(),
                        }),
                    }
                }
            }
        }
        SqlExpr::CompoundIdentifier(idents) => {
            if idents.len() != 2 {
                let mut msg = String::from_str("Expected table.column, got ");
                let num = usize_to_string(idents.len());
                msg.append(num.as_str());
                msg.append(" parts");
                return Err(Error::InvalidQuery(msg));
            }
            let alias = &idents[0];
            let col = &idents[1];
            match ctx.lookup_alias(alias.as_str()) {
                None => Err(Error::UnknownTable(alias.clone())),
                Some(rel) => match rel {
                    RelationRef::Opaque => Err(Error::UnknownTable(alias.clone())),
                    RelationRef::Cte(cname) => {
                        match ctx.get_cte(cname.as_str()) {
                            None => Err(Error::UnknownTable(cname.clone())),
                            Some(cte) => {
                                match find_query_column(&cte.columns, col.as_str()) {
                                    None => Err(Error::UnknownColumn {
                                        table: cname.clone(),
                                        column: col.clone(),
                                    }),
                                    Some(k) => {
                                        proof {
                                            crate::scope::lemma_find_qcol_props(
                                                qcols_view(cte.columns@),
                                                col@,
                                            );
                                        }
                                        let base = cte.columns[k].rust_type.duplicate();
                                        let wrapped = if ctx.is_nullable_table(alias.as_str()) {
                                            base.nullable()
                                        } else {
                                            base
                                        };
                                        Ok((col.clone(), wrapped))
                                    }
                                }
                            }
                        }
                    }
                    RelationRef::SchemaTable(tname) => {
                        match schema.get_table(tname.as_str()) {
                            None => Err(Error::UnknownTable(tname.clone())),
                            Some(table) => {
                                match table.get_column(col.as_str()) {
                                    None => Err(Error::UnknownColumn {
                                        table: tname.clone(),
                                        column: col.clone(),
                                    }),
                                    Some(c) => {
                                        let base = c.data_type.to_rust_type();
                                        let wrapped = if c.nullable || ctx.is_nullable_table(
                                            alias.as_str(),
                                        ) {
                                            base.nullable()
                                        } else {
                                            base
                                        };
                                        Ok((col.clone(), wrapped))
                                    }
                                }
                            }
                        }
                    }
                },
            }
        }
        SqlExpr::Function { name_parts, first_arg } => {
            let fname: String = match last_ident(name_parts) {
                Some(s) => fold_string(s.as_str()),
                None => String::new(),
            };
            infer_function_type(schema, ctx, fname, first_arg, e)
        }
        SqlExpr::Value(v) => {
            let ty = match v {
                SqlValue::Number => RustType::I64,
                SqlValue::SingleQuotedString => RustType::String,
                SqlValue::Boolean => RustType::Bool,
                SqlValue::Null => RustType::Option(Box::new(RustType::String)),
                SqlValue::Other => RustType::String,
            };
            Ok((String::from_str("?column?"), ty))
        }
        SqlExpr::Cast { expr, target_text } => {
            let cast_ty = PostgresType::from_sql_name(target_text.as_str()).to_rust_type();
            match infer_expr_type(schema, ctx, expr) {
                Err(er) => Err(er),
                Ok(p) => Ok((p.0, cast_ty)),
            }
        }
        SqlExpr::BinaryOp { left } => infer_expr_type(schema, ctx, left),
        SqlExpr::Nested(inner) => infer_expr_type(schema, ctx, inner),
        SqlExpr::Extract => Ok((String::from_str("extract"), RustType::F64)),
        SqlExpr::Ceil => Ok((String::from_str("ceil"), RustType::F64)),
        SqlExpr::Floor => Ok((String::from_str("floor"), RustType::F64)),
        SqlExpr::Position => Ok((String::from_str("position"), RustType::I32)),
        SqlExpr::Substring => Ok((String::from_str("substring"), RustType::String)),
        SqlExpr::Trim => Ok((String::from_str("trim"), RustType::String)),
        SqlExpr::Overlay => Ok((String::from_str("overlay"), RustType::String)),
        SqlExpr::Other => Ok((String::from_str("?column?"), RustType::String)),
    }
}

/// Type a function call after its name has been folded. `e` is the whole
/// call, for the specification.
#[verifier::rlimit(60)]
fn infer_function_type(
    schema: &Schema,
    ctx: &ResolveContext,
    fname: String,
    first_arg: &Option<Box<SqlExpr>>,
    e: &SqlExpr,
) -> (r: Result<(String, RustType), Error>)
    requires
        *e matches SqlExpr::Function { name_parts, first_arg: fa }
            && fa == *first_arg
            && fname@ == (match last_ident_spec(name_parts@) {
                Some(n) => fold_seq(n),
                None => Seq::<char>::empty(),
            }),
        expr_size(*e) >= 1,
        (*first_arg matches Some(b) ==> expr_size(*b) < expr_size(*e)),
    ensures
        r matches Ok(p) ==> spec_infer(schema@, ctx@, *e)
            == Result::<(Seq<char>, LTy), ErrV>::Ok((p.0@, p.1@)),
        r matches Err(er) ==> spec_infer(schema@, ctx@, *e)
            == Result::<(Seq<char>, LTy), ErrV>::Err(er@),
    decreases expr_size(*e), 0nat,
{
    proof {
        reveal_with_fuel(crate::types::lty_of, 3);
    }
    let ghost argspec: Option<Result<(Seq<char>, LTy), ErrV>> = match first_arg {
        Some(b) => Some(spec_infer(schema@, ctx@, **b)),
        None => None,
    };
    let f = fname.as_str();
    if eq_str(f, "count") {
        Ok((fname, RustType::I64))
    } else if eq_str(f, "sum") || eq_str(f, "avg") {
        Ok((fname, RustType::Option(Box::new(RustType::Decimal))))
    } else if eq_str(f, "min") || eq_str(f, "max") {
        match first_arg {
            None => Ok((fname, RustType::Option(Box::new(RustType::String)))),
            Some(b) => match infer_expr_type(schema, ctx, b) {
                Err(er) => Err(er),
                Ok(p) => {
                    let ghost pv = p.1@;
                    let stripped = match p.1 {
                        RustType::Option(inner) => *inner,
                        other => other,
                    };
                    proof {
                        assert(stripped@ == strip_nullable(pv));
                    }
                    Ok((fname, RustType::Option(Box::new(stripped))))
                }
            },
        }
    } else if eq_str(f, "coalesce") {
        match first_arg {
            None => Ok((fname, RustType::String)),
            Some(b) => match infer_expr_type(schema, ctx, b) {
                Err(er) => Err(er),
                Ok(p) => {
                    let ghost pv = p.1@;
                    let stripped = match p.1 {
                        RustType::Option(inner) => *inner,
                        other => other,
                    };
                    proof {
                        assert(stripped@ == strip_nullable(pv));
                    }
                    Ok((fname, stripped))
                }
            },
        }
    } else if eq_str(f, "now") {
        Ok((fname, RustType::DateTime))
    } else if eq_str(f, "upper") || eq_str(f, "lower") || eq_str(f, "initcap")
        || eq_str(f, "concat") || eq_str(f, "concat_ws")
        || eq_str(f, "substring") || eq_str(f, "substr") || eq_str(f, "left")
        || eq_str(f, "right") || eq_str(f, "trim") || eq_str(f, "ltrim") || eq_str(f, "rtrim")
        || eq_str(f, "btrim") || eq_str(f, "replace") || eq_str(f, "translate")
        || eq_str(f, "reverse") || eq_str(f, "repeat") || eq_str(f, "lpad") || eq_str(f, "rpad")
        || eq_str(f, "split_part") || eq_str(f, "overlay") || eq_str(f, "format")
        || eq_str(f, "quote_ident") || eq_str(f, "quote_literal") || eq_str(f, "quote_nullable")
        || eq_str(f, "encode") || eq_str(f, "decode") || eq_str(f, "md5") || eq_str(f, "sha256")
        || eq_str(f, "sha384") || eq_str(f, "sha512") || eq_str(f, "to_hex") || eq_str(f, "chr")
        || eq_str(f, "regexp_replace") || eq_str(f, "regexp_substr")
        || eq_str(f, "regexp_match") {
        Ok((fname, RustType::String))
    } else if eq_str(f, "length") || eq_str(f, "char_length") || eq_str(f, "character_length")
        || eq_str(f, "octet_length") || eq_str(f, "bit_length") || eq_str(f, "position")
        || eq_str(f, "strpos") || eq_str(f, "ascii") {
        Ok((fname, RustType::I32))
    } else if eq_str(f, "extract") || eq_str(f, "date_part") {
        Ok((fname, RustType::F64))
    } else if eq_str(f, "date_trunc") {
        Ok((fname, RustType::DateTime))
    } else if eq_str(f, "age") {
        Ok((fname, RustType::Duration))
    } else if eq_str(f, "to_char") {
        Ok((fname, RustType::String))
    } else if eq_str(f, "to_date") {
        Ok((fname, RustType::Date))
    } else if eq_str(f, "to_timestamp") {
        Ok((fname, RustType::DateTime))
    } else if eq_str(f, "current_date") {
        Ok((fname, RustType::Date))
    } else if eq_str(f, "current_time") {
        Ok((fname, RustType::Time))
    } else if eq_str(f, "current_timestamp") || eq_str(f, "localtimestamp")
        || eq_str(f, "localtime") {
        Ok((fname, RustType::DateTime))
    } else if eq_str(f, "make_date") {
        Ok((fname, RustType::Date))
    } else if eq_str(f, "make_time") {
        Ok((fname, RustType::Time))
    } else if eq_str(f, "make_timestamp") || eq_str(f, "make_timestamptz") {
        Ok((fname, RustType::DateTime))
    } else if eq_str(f, "make_interval") {
        Ok((fname, RustType::Duration))
    } else {
        Ok((fname.clone(), RustType::Custom(fname)))
    }
}

} // verus!
