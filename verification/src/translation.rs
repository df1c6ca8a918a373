//! Specification of the translation of M expressions to SQL expressions.
use vstd::prelude::*;
use crate::ast::{BinOp, MExprV, MLiteralV, MTypeV, UnOp};
use crate::cast::cleaned_type_name;
use crate::context::{EnvV, LogV, OnError, log_warn, untranslatable_log};
use crate::dialect::{spec_dialect_name, spec_map_type};
use crate::resolver::{fmt_expr, fmt_exprs};
use crate::sql::{SqlBinOp, SqlExprV, SqlLiteralV, SqlUnOp};
use crate::syntax::{m_type_name, type_of_name};
use crate::text::{contains_seq, join_seqs, nat_decimal, replace_char};

verus! {

/// The SQL operator of an M binary operator.
pub open spec fn sql_binop(op: BinOp) -> SqlBinOp {
    match op {
        BinOp::Eq => SqlBinOp::Eq,
        BinOp::Neq => SqlBinOp::Neq,
        BinOp::Lt => SqlBinOp::Lt,
        BinOp::Lte => SqlBinOp::Lte,
        BinOp::Gt => SqlBinOp::Gt,
        BinOp::Gte => SqlBinOp::Gte,
        BinOp::And => SqlBinOp::And,
        BinOp::Or => SqlBinOp::Or,
        BinOp::Add => SqlBinOp::Add,
        BinOp::Sub => SqlBinOp::Sub,
        BinOp::Mul => SqlBinOp::Mul,
        BinOp::Div => SqlBinOp::Div,
        BinOp::Concat => SqlBinOp::Concat,
    }
}

/// An `OR` expression in parentheses; any other expression as it is.
pub open spec fn wrap_or(e: SqlExprV) -> SqlExprV {
    if e matches SqlExprV::BinaryOp { op: SqlBinOp::Or, .. } {
        SqlExprV::Parens(Box::new(e))
    } else {
        e
    }
}

/// The SQL literal of an M literal.
pub open spec fn lit_sql(l: MLiteralV) -> SqlLiteralV {
    match l {
        MLiteralV::Text(s) => SqlLiteralV::String(s),
        MLiteralV::Integer(n) => SqlLiteralV::Integer(n),
        MLiteralV::Number(s) => SqlLiteralV::Float(s),
        MLiteralV::Bool(b) => SqlLiteralV::Boolean(b),
        MLiteralV::Null => SqlLiteralV::Null,
    }
}

/// A text from an M expression: a text literal's text, an identifier's name, or else
/// the expression's short text.
pub open spec fn extract_str(e: MExprV) -> Seq<char> {
    match e {
        MExprV::Literal(MLiteralV::Text(s)) => s,
        MExprV::Identifier(s) => s,
        _ => fmt_expr(e),
    }
}

/// Whether an expression is the `Comparer.OrdinalIgnoreCase` comparer.
pub open spec fn ordinal_ignore_case(e: MExprV) -> bool {
    e matches MExprV::Identifier(n) && n == "Comparer.OrdinalIgnoreCase"@
}

/// A text with the LIKE wildcards `%` and `_` escaped by a backslash.
pub open spec fn escape_like_text(s: Seq<char>) -> Seq<char> {
    replace_char(replace_char(s, '%', "\\%"@), '_', "\\_"@)
}

/// The placeholder of a parameter.
pub open spec fn param_placeholder(name: Seq<char>) -> Seq<char> {
    "/* PARAM: "@ + name + " */"@
}

/// A raw placeholder for an untranslatable fragment, and the log after reporting it.
pub open spec fn untranslatable_raw(env: EnvV, log: LogV, fragment: Seq<char>, reason: Seq<char>) -> (SqlExprV, LogV) {
    let (p, l) = untranslatable_log(log, env, 0, fragment, reason);
    (SqlExprV::Raw(p), l)
}

/// Whether a mapped SQL type marks an unsupported type.
pub open spec fn unsupported_type(sql_type: Seq<char>) -> bool {
    contains_seq(sql_type, "UNSUPPORTED"@)
}

/// The aggregate function an M list function stands for, and whether it counts distinct values.
pub open spec fn aggregate_of(name: Seq<char>) -> Option<(Seq<char>, bool)> {
    if name == "List.Sum"@ {
        Some(("SUM"@, false))
    } else if name == "List.Average"@ {
        Some(("AVG"@, false))
    } else if name == "List.Count"@ {
        Some(("COUNT"@, false))
    } else if name == "List.Min"@ {
        Some(("MIN"@, false))
    } else if name == "List.Max"@ {
        Some(("MAX"@, false))
    } else if name == "List.CountDistinct"@ {
        Some(("COUNT"@, true))
    } else {
        None
    }
}

/// Whether a function is one of the text-matching functions, and where its pattern puts `%`.
pub open spec fn like_wildcards(name: Seq<char>) -> Option<(bool, bool)> {
    if name == "Text.StartsWith"@ {
        Some((false, true))
    } else if name == "Text.EndsWith"@ {
        Some((true, false))
    } else if name == "Text.Contains"@ {
        Some((true, true))
    } else {
        None
    }
}

/// The SQL expression an M expression translates to in expression context, with the log after.
pub closed spec fn tr_expr(env: EnvV, log: LogV, e: MExprV) -> (SqlExprV, LogV)
    decreases e, 0int,
{
    match e {
        MExprV::Literal(l) => (SqlExprV::Literal(lit_sql(l)), log),
        MExprV::Identifier(name) => if name == "_"@ {
            (SqlExprV::Raw("*"@), log)
        } else if env.params.contains(name) {
            (SqlExprV::Raw(param_placeholder(name)), log)
        } else {
            (SqlExprV::Column { table: None, name }, log)
        },
        MExprV::RowField(name) => (SqlExprV::Column { table: None, name }, log),
        MExprV::BinaryOp { op, left, right } => {
            let (l, log1) = tr_expr(env, log, *left);
            let (r, log2) = tr_expr(env, log1, *right);
            let lw = if op == BinOp::And { wrap_or(l) } else { l };
            let rw = if op == BinOp::And { wrap_or(r) } else { r };
            (SqlExprV::BinaryOp { op: sql_binop(op), left: Box::new(lw), right: Box::new(rw) }, log2)
        },
        MExprV::UnaryOp { op, expr } => {
            let (x, log1) = tr_expr(env, log, *expr);
            (SqlExprV::UnaryOp {
                op: match op {
                    UnOp::Not => SqlUnOp::Not,
                    UnOp::Neg => SqlUnOp::Neg,
                },
                expr: Box::new(x),
            }, log1)
        },
        MExprV::EachExpr(inner) => tr_expr(env, log, *inner),
        MExprV::FunctionCall { name, args } => tr_func(env, log, name, args),
        MExprV::FieldAccess { expr, field } => (SqlExprV::Column {
            table: match *expr {
                MExprV::Identifier(t) => Some(t),
                _ => None,
            },
            name: field,
        }, log),
        MExprV::TypeAnnotation { expr, ty } => {
            let (x, log1) = tr_expr(env, log, *expr);
            let sql_type = spec_map_type(env.dialect, ty);
            if unsupported_type(sql_type) {
                (x, log_warn(
                    log1,
                    env,
                    0,
                    "UNSUPPORTED_TYPE"@,
                    "type "@ + m_type_name(ty) + " is not supported in "@ + spec_dialect_name(env.dialect),
                    None,
                ))
            } else {
                (SqlExprV::Cast { expr: Box::new(x), ty: sql_type }, log1)
            }
        },
        MExprV::List(items) => if items.len() == 0 {
            (SqlExprV::Raw("()"@), log)
        } else {
            tr_expr(env, log, items[0])
        },
        MExprV::Record(fields) => (SqlExprV::Raw(
            "/* RECORD: "@ + join_seqs(Seq::new(fields.len(), |i: int| fields[i].0), ", "@) + " */"@,
        ), log),
        _ => untranslatable_raw(
            env,
            log,
            fmt_expr(e),
            fmt_expr(e) + " is not translatable in expression context"@,
        ),
    }
}

/// The SQL expressions of M expressions, translated in order, with the log after.
pub closed spec fn tr_exprs(env: EnvV, log: LogV, s: Seq<MExprV>) -> (Seq<SqlExprV>, LogV)
    decreases s, 0int,
{
    if s.len() == 0 {
        (Seq::empty(), log)
    } else {
        let (xs, log1) = tr_exprs(env, log, s.subrange(0, s.len() - 1));
        let (x, log2) = tr_expr(env, log1, s[s.len() - 1]);
        (xs.push(x), log2)
    }
}

/// The SQL expression of a function call in expression context, with the log after.
pub closed spec fn tr_func(env: EnvV, log: LogV, name: Seq<char>, args: Seq<MExprV>) -> (SqlExprV, LogV)
    decreases args, 2int,
{
    if like_wildcards(name) is Some {
        tr_like(env, log, name, args)
    } else if name == "List.Contains"@ {
        tr_list_contains(env, log, args)
    } else if name == "Date.From"@ || name == "DateTime.From"@ {
        tr_date_from(env, log, name, args)
    } else if name == "Value.ReplaceType"@ {
        tr_replace_type(env, log, args)
    } else if aggregate_of(name) is Some {
        tr_aggregate(env, log, name, args)
    } else if name == "Table.RowCount"@ {
        (SqlExprV::FunctionCall { name: "COUNT"@, args: seq![SqlExprV::Raw("*"@)], distinct: false }, log)
    } else {
        untranslatable_raw(
            env,
            log,
            name + "("@ + join_seqs(fmt_exprs(args), ", "@) + ")"@,
            name + " is not in the v1 feature set"@,
        )
    }
}

/// The log after a text comparison's comparer argument: a comparer other than
/// `Comparer.OrdinalIgnoreCase` is reported by one warning, and the comparison falls back to
/// a case-sensitive LIKE.
pub open spec fn comparer_log(env: EnvV, log: LogV, name: Seq<char>, args: Seq<MExprV>) -> LogV {
    if args.len() > 2 && !ordinal_ignore_case(args[2]) {
        log_warn(
            log,
            env,
            0,
            "UNSUPPORTED_COMPARER"@,
            name + ": comparer "@ + fmt_expr(args[2]) + " is not supported; using case-sensitive LIKE"@,
            None,
        )
    } else {
        log
    }
}

/// `Text.StartsWith`, `Text.EndsWith`, `Text.Contains`: a LIKE with the escaped text; a
/// comparer other than `Comparer.OrdinalIgnoreCase` gives a case-sensitive LIKE and a warning.
pub closed spec fn tr_like(env: EnvV, log: LogV, name: Seq<char>, args: Seq<MExprV>) -> (SqlExprV, LogV)
    decreases args, 1int,
{
    let (pre, post) = like_wildcards(name)->0;
    if args.len() >= 2 {
        let (c, log1) = tr_expr(env, log, args[0]);
        let pattern = (if pre { "%"@ } else { Seq::empty() }) + escape_like_text(extract_str(args[1])) + (if post {
            "%"@
        } else {
            Seq::empty()
        });
        (SqlExprV::Like {
            expr: Box::new(c),
            pattern,
            negated: false,
            case_insensitive: args.len() > 2 && ordinal_ignore_case(args[2]),
        }, comparer_log(env, log1, name, args))
    } else {
        untranslatable_raw(
            env,
            log,
            name + "("@ + nat_decimal(args.len()) + " args)"@,
            name + " requires 2 arguments"@,
        )
    }
}

/// `List.Contains({..}, x)`: `x IN (..)`.
pub closed spec fn tr_list_contains(env: EnvV, log: LogV, args: Seq<MExprV>) -> (SqlExprV, LogV)
    decreases args, 1int,
{
    if args.len() >= 2 {
        let (item, log1) = tr_expr(env, log, args[1]);
        match args[0] {
            MExprV::List(items) => {
                let (xs, log2) = tr_exprs(env, log1, items);
                (SqlExprV::InList { expr: Box::new(item), list: xs, negated: false }, log2)
            },
            _ => untranslatable_raw(
                env,
                log1,
                "List.Contains with non-list first arg"@,
                "List.Contains expects a list literal"@,
            ),
        }
    } else {
        untranslatable_raw(env, log, "List.Contains"@, "List.Contains requires 2 arguments"@)
    }
}

/// `Date.From(x)`, `DateTime.From(x)`: a cast.
pub closed spec fn tr_date_from(env: EnvV, log: LogV, name: Seq<char>, args: Seq<MExprV>) -> (SqlExprV, LogV)
    decreases args, 1int,
{
    if args.len() > 0 {
        let (x, log1) = tr_expr(env, log, args[0]);
        let ty = if name == "Date.From"@ { MTypeV::Date } else { MTypeV::DateTime };
        (SqlExprV::Cast { expr: Box::new(x), ty: spec_map_type(env.dialect, ty) }, log1)
    } else {
        untranslatable_raw(env, log, name, name + " requires an argument"@)
    }
}

/// `Value.ReplaceType(x, type t)`: a cast when the type is named.
pub closed spec fn tr_replace_type(env: EnvV, log: LogV, args: Seq<MExprV>) -> (SqlExprV, LogV)
    decreases args, 1int,
{
    if args.len() >= 2 {
        let (x, log1) = tr_expr(env, log, args[0]);
        match args[1] {
            MExprV::Identifier(tn) => (SqlExprV::Cast {
                expr: Box::new(x),
                ty: spec_map_type(env.dialect, type_of_name(cleaned_type_name(tn))),
            }, log1),
            _ => (x, log1),
        }
    } else {
        untranslatable_raw(env, log, "Value.ReplaceType"@, "requires 2 arguments"@)
    }
}

/// An aggregate over the first argument, or over `*`.
pub closed spec fn tr_aggregate(env: EnvV, log: LogV, name: Seq<char>, args: Seq<MExprV>) -> (SqlExprV, LogV)
    decreases args, 1int,
{
    let (fname, distinct) = aggregate_of(name)->0;
    if args.len() > 0 {
        let (x, log1) = tr_expr(env, log, args[0]);
        (SqlExprV::FunctionCall { name: fname, args: seq![x], distinct }, log1)
    } else {
        (SqlExprV::FunctionCall { name: fname, args: seq![SqlExprV::Raw("*"@)], distinct }, log)
    }
}

/// Unfolds `tr_expr` once.
pub proof fn lemma_tr_expr(env: EnvV, log: LogV, e: MExprV)
    ensures
        tr_expr(env, log, e) == ({
            match e {
                MExprV::Literal(l) => (SqlExprV::Literal(lit_sql(l)), log),
                MExprV::Identifier(name) => if name == "_"@ {
                    (SqlExprV::Raw("*"@), log)
                } else if env.params.contains(name) {
                    (SqlExprV::Raw(param_placeholder(name)), log)
                } else {
                    (SqlExprV::Column { table: None, name }, log)
                },
                MExprV::RowField(name) => (SqlExprV::Column { table: None, name }, log),
                MExprV::BinaryOp { op, left, right } => {
                    let (l, log1) = tr_expr(env, log, *left);
                    let (r, log2) = tr_expr(env, log1, *right);
                    let lw = if op == BinOp::And { wrap_or(l) } else { l };
                    let rw = if op == BinOp::And { wrap_or(r) } else { r };
                    (SqlExprV::BinaryOp { op: sql_binop(op), left: Box::new(lw), right: Box::new(rw) }, log2)
                },
                MExprV::UnaryOp { op, expr } => {
                    let (x, log1) = tr_expr(env, log, *expr);
                    (SqlExprV::UnaryOp {
                        op: match op {
                            UnOp::Not => SqlUnOp::Not,
                            UnOp::Neg => SqlUnOp::Neg,
                        },
                        expr: Box::new(x),
                    }, log1)
                },
                MExprV::EachExpr(inner) => tr_expr(env, log, *inner),
                MExprV::FunctionCall { name, args } => tr_func(env, log, name, args),
                MExprV::FieldAccess { expr, field } => (SqlExprV::Column {
                    table: match *expr {
                        MExprV::Identifier(t) => Some(t),
                        _ => None,
                    },
                    name: field,
                }, log),
                MExprV::TypeAnnotation { expr, ty } => {
                    let (x, log1) = tr_expr(env, log, *expr);
                    let sql_type = spec_map_type(env.dialect, ty);
                    if unsupported_type(sql_type) {
                        (x, log_warn(
                            log1,
                            env,
                            0,
                            "UNSUPPORTED_TYPE"@,
                            "type "@ + m_type_name(ty) + " is not supported in "@ + spec_dialect_name(env.dialect),
                            None,
                        ))
                    } else {
                        (SqlExprV::Cast { expr: Box::new(x), ty: sql_type }, log1)
                    }
                },
                MExprV::List(items) => if items.len() == 0 {
                    (SqlExprV::Raw("()"@), log)
                } else {
                    tr_expr(env, log, items[0])
                },
                MExprV::Record(fields) => (SqlExprV::Raw(
                    "/* RECORD: "@ + join_seqs(Seq::new(fields.len(), |i: int| fields[i].0), ", "@) + " */"@,
                ), log),
                _ => untranslatable_raw(
                    env,
                    log,
                    fmt_expr(e),
                    fmt_expr(e) + " is not translatable in expression context"@,
                ),
            }
        }),
{
}

/// Unfolds `tr_exprs` once.
pub proof fn lemma_tr_exprs(env: EnvV, log: LogV, s: Seq<MExprV>)
    ensures
        tr_exprs(env, log, s) == ({
            if s.len() == 0 {
                (Seq::empty(), log)
            } else {
                let (xs, log1) = tr_exprs(env, log, s.subrange(0, s.len() - 1));
                let (x, log2) = tr_expr(env, log1, s[s.len() - 1]);
                (xs.push(x), log2)
            }
        }),
{
}

/// Unfolds `tr_func` once.
pub proof fn lemma_tr_func(env: EnvV, log: LogV, name: Seq<char>, args: Seq<MExprV>)
    ensures
        tr_func(env, log, name, args) == ({
            if like_wildcards(name) is Some {
                tr_like(env, log, name, args)
            } else if name == "List.Contains"@ {
                tr_list_contains(env, log, args)
            } else if name == "Date.From"@ || name == "DateTime.From"@ {
                tr_date_from(env, log, name, args)
            } else if name == "Value.ReplaceType"@ {
                tr_replace_type(env, log, args)
            } else if aggregate_of(name) is Some {
                tr_aggregate(env, log, name, args)
            } else if name == "Table.RowCount"@ {
                (SqlExprV::FunctionCall { name: "COUNT"@, args: seq![SqlExprV::Raw("*"@)], distinct: false }, log)
            } else {
                untranslatable_raw(
                    env,
                    log,
                    name + "("@ + join_seqs(fmt_exprs(args), ", "@) + ")"@,
                    name + " is not in the v1 feature set"@,
                )
            }
        }),
{
}

/// Unfolds `tr_like` once.
pub proof fn lemma_tr_like(env: EnvV, log: LogV, name: Seq<char>, args: Seq<MExprV>)
    ensures
        tr_like(env, log, name, args) == ({
            let (pre, post) = like_wildcards(name)->0;
            if args.len() >= 2 {
                let (c, log1) = tr_expr(env, log, args[0]);
                let pattern = (if pre { "%"@ } else { Seq::empty() }) + escape_like_text(extract_str(args[1])) + (if post {
                    "%"@
                } else {
                    Seq::empty()
                });
                (SqlExprV::Like {
                    expr: Box::new(c),
                    pattern,
                    negated: false,
                    case_insensitive: args.len() > 2 && ordinal_ignore_case(args[2]),
                }, comparer_log(env, log1, name, args))
            } else {
                untranslatable_raw(
                    env,
                    log,
                    name + "("@ + nat_decimal(args.len()) + " args)"@,
                    name + " requires 2 arguments"@,
                )
            }
        }),
{
}

/// Unfolds `tr_list_contains` once.
pub proof fn lemma_tr_list_contains(env: EnvV, log: LogV, args: Seq<MExprV>)
    ensures
        tr_list_contains(env, log, args) == ({
            if args.len() >= 2 {
                let (item, log1) = tr_expr(env, log, args[1]);
                match args[0] {
                    MExprV::List(items) => {
                        let (xs, log2) = tr_exprs(env, log1, items);
                        (SqlExprV::InList { expr: Box::new(item), list: xs, negated: false }, log2)
                    },
                    _ => untranslatable_raw(
                        env,
                        log1,
                        "List.Contains with non-list first arg"@,
                        "List.Contains expects a list literal"@,
                    ),
                }
            } else {
                untranslatable_raw(env, log, "List.Contains"@, "List.Contains requires 2 arguments"@)
            }
        }),
{
}

/// Unfolds `tr_date_from` once.
pub proof fn lemma_tr_date_from(env: EnvV, log: LogV, name: Seq<char>, args: Seq<MExprV>)
    ensures
        tr_date_from(env, log, name, args) == ({
            if args.len() > 0 {
                let (x, log1) = tr_expr(env, log, args[0]);
                let ty = if name == "Date.From"@ { MTypeV::Date } else { MTypeV::DateTime };
                (SqlExprV::Cast { expr: Box::new(x), ty: spec_map_type(env.dialect, ty) }, log1)
            } else {
                untranslatable_raw(env, log, name, name + " requires an argument"@)
            }
        }),
{
}

/// Unfolds `tr_replace_type` once.
pub proof fn lemma_tr_replace_type(env: EnvV, log: LogV, args: Seq<MExprV>)
    ensures
        tr_replace_type(env, log, args) == ({
            if args.len() >= 2 {
                let (x, log1) = tr_expr(env, log, args[0]);
                match args[1] {
                    MExprV::Identifier(tn) => (SqlExprV::Cast {
                        expr: Box::new(x),
                        ty: spec_map_type(env.dialect, type_of_name(cleaned_type_name(tn))),
                    }, log1),
                    _ => (x, log1),
                }
            } else {
                untranslatable_raw(env, log, "Value.ReplaceType"@, "requires 2 arguments"@)
            }
        }),
{
}

/// Unfolds `tr_aggregate` once.
pub proof fn lemma_tr_aggregate(env: EnvV, log: LogV, name: Seq<char>, args: Seq<MExprV>)
    ensures
        tr_aggregate(env, log, name, args) == ({
            let (fname, distinct) = aggregate_of(name)->0;
            if args.len() > 0 {
                let (x, log1) = tr_expr(env, log, args[0]);
                (SqlExprV::FunctionCall { name: fname, args: seq![x], distinct }, log1)
            } else {
                (SqlExprV::FunctionCall { name: fname, args: seq![SqlExprV::Raw("*"@)], distinct }, log)
            }
        }),
{
}

/// Outside the `fail` mode, translating an expression reports no error.
pub proof fn lemma_tr_expr_keeps_errors(env: EnvV, log: LogV, e: MExprV)
    requires
        env.on_error != OnError::Fail,
    ensures
        tr_expr(env, log, e).1.has_errors == log.has_errors,
    decreases e, 0int,
{
    match e {
        MExprV::BinaryOp { left, right, .. } => {
            lemma_tr_expr_keeps_errors(env, log, *left);
            lemma_tr_expr_keeps_errors(env, tr_expr(env, log, *left).1, *right);
        },
        MExprV::UnaryOp { expr, .. } => lemma_tr_expr_keeps_errors(env, log, *expr),
        MExprV::EachExpr(inner) => lemma_tr_expr_keeps_errors(env, log, *inner),
        MExprV::FunctionCall { name, args } => lemma_tr_func_keeps_errors(env, log, name, args),
        MExprV::TypeAnnotation { expr, .. } => lemma_tr_expr_keeps_errors(env, log, *expr),
        MExprV::List(items) => if items.len() > 0 {
            lemma_tr_expr_keeps_errors(env, log, items[0]);
        },
        _ => {},
    }
}

/// Outside the `fail` mode, translating expressions reports no error.
pub proof fn lemma_tr_exprs_keeps_errors(env: EnvV, log: LogV, s: Seq<MExprV>)
    requires
        env.on_error != OnError::Fail,
    ensures
        tr_exprs(env, log, s).1.has_errors == log.has_errors,
    decreases s, 0int,
{
    if s.len() > 0 {
        lemma_tr_exprs_keeps_errors(env, log, s.subrange(0, s.len() - 1));
        lemma_tr_expr_keeps_errors(env, tr_exprs(env, log, s.subrange(0, s.len() - 1)).1, s[s.len() - 1]);
    }
}

/// Outside the `fail` mode, translating a function call reports no error.
pub proof fn lemma_tr_func_keeps_errors(env: EnvV, log: LogV, name: Seq<char>, args: Seq<MExprV>)
    requires
        env.on_error != OnError::Fail,
    ensures
        tr_func(env, log, name, args).1.has_errors == log.has_errors,
    decreases args, 2int,
{
    if like_wildcards(name) is Some {
        if args.len() >= 2 {
            lemma_tr_expr_keeps_errors(env, log, args[0]);
        }
    } else if name == "List.Contains"@ {
        if args.len() >= 2 {
            lemma_tr_expr_keeps_errors(env, log, args[1]);
            if let MExprV::List(items) = args[0] {
                lemma_tr_exprs_keeps_errors(env, tr_expr(env, log, args[1]).1, items);
            }
        }
    } else if name == "Date.From"@ || name == "DateTime.From"@ {
        if args.len() > 0 {
            lemma_tr_expr_keeps_errors(env, log, args[0]);
        }
    } else if name == "Value.ReplaceType"@ {
        if args.len() >= 2 {
            lemma_tr_expr_keeps_errors(env, log, args[0]);
        }
    } else if aggregate_of(name) is Some {
        if args.len() > 0 {
            lemma_tr_expr_keeps_errors(env, log, args[0]);
        }
    }
}

} // verus!
