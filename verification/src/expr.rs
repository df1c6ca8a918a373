//! M expression to SQL expression translation.
use vstd::prelude::*;
use crate::ast::{BinOp, MExpr, MExprV, MLiteral, MType, UnOp};
use crate::cast::resolve_m_type;
use crate::context::TranslationContext;
use crate::dialect::Dialect;
use crate::grammar::{exprs_v, fields_v, type_to_string};
use crate::resolver::{format_expr, params_contains};
use crate::sql::{SqlBinOp, SqlExpr, SqlExprV, SqlLiteral, SqlUnOp, sql_exprs_view};
use crate::text::{copy_string, join_strings, owned, push_replaced, str_contains, str_eq, strings_view, usize_to_string};
use crate::translation::{
    escape_like_text, extract_str, lemma_tr_aggregate, lemma_tr_date_from, lemma_tr_expr, lemma_tr_exprs,
    lemma_tr_func, lemma_tr_like, lemma_tr_list_contains, lemma_tr_replace_type, like_wildcards, lit_sql,
    ordinal_ignore_case, sql_binop, tr_aggregate, tr_date_from, tr_expr, tr_exprs, tr_func, tr_like,
    tr_list_contains, tr_replace_type, untranslatable_raw, wrap_or, aggregate_of,
};

verus! {

/// Translate a literal.
pub(crate) fn translate_literal(lit: &MLiteral) -> (r: SqlExpr)
    ensures
        r@ == SqlExprV::Literal(lit_sql(lit@)),
{
    match lit {
        MLiteral::Text(s) => SqlExpr::Literal(SqlLiteral::String(s.clone())),
        MLiteral::Integer(n) => SqlExpr::Literal(SqlLiteral::Integer(*n)),
        MLiteral::Number(n) => SqlExpr::Literal(SqlLiteral::Float(n.clone())),
        MLiteral::Bool(b) => SqlExpr::Literal(SqlLiteral::Boolean(*b)),
        MLiteral::Null => SqlExpr::Literal(SqlLiteral::Null),
    }
}

/// Translate a binary operator.
fn translate_binop(op: &BinOp) -> (r: SqlBinOp)
    ensures
        r == sql_binop(*op),
{
    match op {
        BinOp::Eq => SqlBinOp::Eq,
        BinOp::Neq => SqlBinOp::Neq,
        BinOp::Lt => SqlBinOp::Lt,
        BinOp::Lte => SqlBinOp::Lte,
        BinOp::Gt => SqlBinOp::Gt,
        BinOp::Gte => SqlBinOp::Gte,
        BinOp::And => SqlBinOp::And,
        BinOp::Or => SqlBinOp::Or,
        BinOp::Add => SqlBinOp::Add,
        BinOp::Sub => SqlBinOp::Sub,
        BinOp::Mul => SqlBinOp::Mul,
        BinOp::Div => SqlBinOp::Div,
        BinOp::Concat => SqlBinOp::Concat,
    }
}

/// Wrap an expression in parens if it's an OR operation (for AND precedence).
fn maybe_wrap_or(expr: SqlExpr) -> (r: SqlExpr)
    ensures
        r@ == wrap_or(expr@),
{
    if let SqlExpr::BinaryOp { op: SqlBinOp::Or, .. } = &expr {
        SqlExpr::Parens(Box::new(expr))
    } else {
        expr
    }
}

/// Extract a string from an M literal expression.
pub fn extract_string(expr: &MExpr) -> (r: String)
    ensures
        r@ == extract_str(expr@),
{
    match expr {
        MExpr::Literal(MLiteral::Text(s)) => s.clone(),
        MExpr::Identifier(s) => s.clone(),
        _ => format_expr(expr),
    }
}

/// Check if an expression is the OrdinalIgnoreCase comparer.
fn is_ordinal_ignore_case(expr: &MExpr) -> (r: bool)
    ensures
        r == ordinal_ignore_case(expr@),
{
    match expr {
        MExpr::Identifier(name) => str_eq(name.as_str(), "Comparer.OrdinalIgnoreCase"),
        _ => false,
    }
}

/// Escape special characters in a LIKE pattern.
fn escape_like(s: &str) -> (r: String)
    ensures
        r@ == escape_like_text(s@),
{
    let mut first = String::new();
    push_replaced(&mut first, s, '%', "\\%");
    let mut out = String::new();
    push_replaced(&mut out, first.as_str(), '_', "\\_");
    out
}

/// Translate M expressions in order.
fn translate_exprs(items: &Vec<MExpr>, ctx: &mut TranslationContext) -> (r: Vec<SqlExpr>)
    ensures
        final(ctx).same_tables(old(ctx)),
        (sql_exprs_view(r@), final(ctx).log()) == tr_exprs(old(ctx).env(), old(ctx).log(), exprs_v(items@)),
    decreases items, 0int,
{
    let ghost env = ctx.env();
    let ghost xs = exprs_v(items@);
    let ghost log0 = ctx.log();
    let mut out: Vec<SqlExpr> = Vec::new();
    let mut i: usize = 0;
    proof {
        lemma_tr_exprs(env, log0, xs.subrange(0, 0));
        assert(sql_exprs_view(out@) =~= Seq::<SqlExprV>::empty());
    }
    while i < items.len()
        invariant
            i <= items.len(),
            xs == exprs_v(items@),
            ctx.same_tables(old(ctx)),
            env == old(ctx).env(),
            log0 == old(ctx).log(),
            (sql_exprs_view(out@), ctx.log()) == tr_exprs(env, log0, xs.subrange(0, i as int)),
        decreases items.len() - i,
    {
        assert(decreases_to!(items => items@[i as int]));
        let ghost before = sql_exprs_view(out@);
        let x = translate_expr(&items[i], ctx);
        out.push(x);
        proof {
            lemma_tr_exprs(env, log0, xs.subrange(0, i + 1));
            assert(xs.subrange(0, i + 1).subrange(0, i as int) =~= xs.subrange(0, i as int));
            assert(sql_exprs_view(out@) =~= before.push(x@));
        }
        i += 1;
    }
    assert(xs.subrange(0, items.len() as int) =~= xs);
    out
}

/// Translate an M expression to a SQL expression.
pub fn translate_expr(expr: &MExpr, ctx: &mut TranslationContext) -> (r: SqlExpr)
    ensures
        final(ctx).same_tables(old(ctx)),
        (r@, final(ctx).log()) == tr_expr(old(ctx).env(), old(ctx).log(), expr@),
    decreases expr, 0int,
{
    proof {
        lemma_tr_expr(ctx.env(), ctx.log(), expr@);
    }
    match expr {
        MExpr::Literal(lit) => translate_literal(lit),
        MExpr::Identifier(name) => {
            if str_eq(name.as_str(), "_") {
                SqlExpr::Raw(owned("*"))
            } else if params_contains(&ctx.detected_params, name.as_str()) {
                let mut p = owned("/* PARAM: ");
                p.append(name.as_str());
                p.append(" */");
                SqlExpr::Raw(p)
            } else {
                SqlExpr::Column { table: None, name: name.clone() }
            }
        },
        MExpr::RowField(name) => SqlExpr::Column { table: None, name: name.clone() },
        MExpr::BinaryOp { op, left, right } => {
            let sql_op = translate_binop(op);
            let left_expr = translate_expr(left, ctx);
            let right_expr = translate_expr(right, ctx);
            let left_wrapped = if *op == BinOp::And {
                maybe_wrap_or(left_expr)
            } else {
                left_expr
            };
            let right_wrapped = if *op == BinOp::And {
                maybe_wrap_or(right_expr)
            } else {
                right_expr
            };
            SqlExpr::BinaryOp { op: sql_op, left: Box::new(left_wrapped), right: Box::new(right_wrapped) }
        },
        MExpr::UnaryOp { op, expr: inner } => {
            let sql_op = match op {
                UnOp::Not => SqlUnOp::Not,
                UnOp::Neg => SqlUnOp::Neg,
            };
            SqlExpr::UnaryOp { op: sql_op, expr: Box::new(translate_expr(inner, ctx)) }
        },
        MExpr::EachExpr(inner) => translate_expr(inner, ctx),
        MExpr::FunctionCall { name, args } => {
            assert(exprs_v(args@) =~= expr@->FunctionCall_args);
            translate_function_in_expr(name.as_str(), args, ctx)
        },
        MExpr::FieldAccess { expr: inner, field } => {
            if let MExpr::Identifier(table) = &**inner {
                assert(inner@ == MExprV::Identifier(table@));
                SqlExpr::Column { table: Some(table.clone()), name: field.clone() }
            } else {
                assert(!(inner@ is Identifier));
                SqlExpr::Column { table: None, name: field.clone() }
            }
        },
        MExpr::TypeAnnotation { expr: inner, ty } => {
            let sql_expr = translate_expr(inner, ctx);
            let sql_type = ctx.dialect.map_type(ty);
            if str_contains(sql_type, "UNSUPPORTED") {
                let mut m = owned("type ");
                m.append(type_to_string(ty));
                m.append(" is not supported in ");
                m.append(ctx.dialect.name());
                assert(m@ =~= "type "@ + crate::syntax::m_type_name(ty@) + " is not supported in "@
                    + crate::dialect::spec_dialect_name(ctx.dialect));
                ctx.warn(0, "UNSUPPORTED_TYPE", m.as_str(), None);
                sql_expr
            } else {
                SqlExpr::Cast { expr: Box::new(sql_expr), ty: owned(sql_type) }
            }
        },
        MExpr::List(items) => {
            if items.len() == 0 {
                SqlExpr::Raw(owned("()"))
            } else {
                assert(exprs_v(items@) =~= expr@->List_0);
                assert(decreases_to!(items => items@[0]));
                translate_expr(&items[0], ctx)
            }
        },
        MExpr::Record(fields) => {
            let mut names: Vec<String> = Vec::new();
            let mut i: usize = 0;
            while i < fields.len()
                invariant
                    i <= fields.len(),
                    names.len() == i,
                    forall|k: int| 0 <= k < i ==> names@[k]@ == fields@[k].0@,
                decreases fields.len() - i,
            {
                names.push(copy_string(&fields[i].0));
                i += 1;
            }
            assert(fields_v(fields@) =~= expr@->Record_0);
            assert(strings_view(names@) =~= Seq::new(fields_v(fields@).len(), |k: int| fields_v(fields@)[k].0));
            let mut raw = owned("/* RECORD: ");
            raw.append(join_strings(&names, ", ").as_str());
            raw.append(" */");
            SqlExpr::Raw(raw)
        },
        _ => {
            let frag = format_expr(expr);
            let mut reason = copy_string(&frag);
            reason.append(" is not translatable in expression context");
            let placeholder = ctx.untranslatable(0, frag.as_str(), reason.as_str());
            SqlExpr::Raw(placeholder)
        },
    }
}

/// Untranslatable function call: the placeholder, reported by the error mode.
fn untranslatable_expr(ctx: &mut TranslationContext, fragment: &str, reason: &str) -> (r: SqlExpr)
    ensures
        final(ctx).same_tables(old(ctx)),
        (r@, final(ctx).log()) == untranslatable_raw(old(ctx).env(), old(ctx).log(), fragment@, reason@),
{
    SqlExpr::Raw(ctx.untranslatable(0, fragment, reason))
}

/// A function call over one SQL argument.
fn call_of(name: &str, arg: SqlExpr, distinct: bool) -> (r: SqlExpr)
    ensures
        r@ == (SqlExprV::FunctionCall { name: name@, args: seq![arg@], distinct }),
{
    let mut args: Vec<SqlExpr> = Vec::new();
    args.push(arg);
    let r = SqlExpr::FunctionCall { name: owned(name), args, distinct };
    assert(r@->FunctionCall_args =~= seq![arg@]);
    r
}

/// Translate function calls that appear in expression context.
fn translate_function_in_expr(name: &str, args: &Vec<MExpr>, ctx: &mut TranslationContext) -> (r: SqlExpr)
    ensures
        final(ctx).same_tables(old(ctx)),
        (r@, final(ctx).log()) == tr_func(old(ctx).env(), old(ctx).log(), name@, exprs_v(args@)),
    decreases args, 2int,
{
    proof {
        lemma_tr_func(ctx.env(), ctx.log(), name@, exprs_v(args@));
        reveal_strlit("Text.StartsWith");
        reveal_strlit("Text.EndsWith");
        reveal_strlit("Text.Contains");
        reveal_strlit("List.Sum");
        reveal_strlit("List.Average");
        reveal_strlit("List.Count");
        reveal_strlit("List.Min");
        reveal_strlit("List.Max");
        reveal_strlit("List.CountDistinct");
    }
    if str_eq(name, "Text.StartsWith") || str_eq(name, "Text.EndsWith") || str_eq(name, "Text.Contains") {
        translate_like(name, args, ctx)
    } else if str_eq(name, "List.Contains") {
        translate_list_contains(args, ctx)
    } else if str_eq(name, "Date.From") || str_eq(name, "DateTime.From") {
        translate_date_from(name, args, ctx)
    } else if str_eq(name, "Value.ReplaceType") {
        translate_replace_type(args, ctx)
    } else if str_eq(name, "List.Sum") {
        translate_aggregate(name, "SUM", args, false, ctx)
    } else if str_eq(name, "List.Average") {
        translate_aggregate(name, "AVG", args, false, ctx)
    } else if str_eq(name, "List.Count") {
        translate_aggregate(name, "COUNT", args, false, ctx)
    } else if str_eq(name, "List.Min") {
        translate_aggregate(name, "MIN", args, false, ctx)
    } else if str_eq(name, "List.Max") {
        translate_aggregate(name, "MAX", args, false, ctx)
    } else if str_eq(name, "List.CountDistinct") {
        translate_aggregate(name, "COUNT", args, true, ctx)
    } else if str_eq(name, "Table.RowCount") {
        call_of("COUNT", SqlExpr::Raw(owned("*")), false)
    } else {
        let mut parts: Vec<String> = Vec::new();
        let mut i: usize = 0;
        while i < args.len()
            invariant
                i <= args.len(),
                parts.len() == i,
                forall|k: int| 0 <= k < i ==> parts@[k]@ == crate::resolver::fmt_expr(args@[k]@),
            decreases args.len() - i,
        {
            parts.push(format_expr(&args[i]));
            i += 1;
        }
        assert(strings_view(parts@) =~= crate::resolver::fmt_exprs(exprs_v(args@)));
        let mut frag = owned(name);
        frag.append("(");
        frag.append(join_strings(&parts, ", ").as_str());
        frag.append(")");
        let mut reason = owned(name);
        reason.append(" is not in the v1 feature set");
        untranslatable_expr(ctx, frag.as_str(), reason.as_str())
    }
}

fn like_wildcards_of(name: &str) -> (w: (bool, bool))
    requires
        like_wildcards(name@) is Some,
    ensures
        w == like_wildcards(name@)->0,
{
    if str_eq(name, "Text.StartsWith") {
        (false, true)
    } else if str_eq(name, "Text.EndsWith") {
        (true, false)
    } else {
        (true, true)
    }
}

fn translate_like(name: &str, args: &Vec<MExpr>, ctx: &mut TranslationContext) -> (r: SqlExpr)
    requires
        like_wildcards(name@) is Some,
    ensures
        final(ctx).same_tables(old(ctx)),
        (r@, final(ctx).log()) == tr_like(old(ctx).env(), old(ctx).log(), name@, exprs_v(args@)),
    decreases args, 1int,
{
    proof {
        lemma_tr_like(ctx.env(), ctx.log(), name@, exprs_v(args@));
        reveal_strlit("Text.StartsWith");
        reveal_strlit("Text.EndsWith");
        reveal_strlit("Text.Contains");
    }
    if args.len() >= 2 {
        assert(decreases_to!(args => args@[0]));
        let col_expr = translate_expr(&args[0], ctx);
        let val = extract_string(&args[1]);
        let case_insensitive = args.len() > 2 && is_ordinal_ignore_case(&args[2]);
        if args.len() > 2 && !case_insensitive {
            let mut m = owned(name);
            m.append(": comparer ");
            m.append(format_expr(&args[2]).as_str());
            m.append(" is not supported; using case-sensitive LIKE");
            ctx.warn(0, "UNSUPPORTED_COMPARER", m.as_str(), None);
        }
        let w = like_wildcards_of(name);
        let pre: &str = if w.0 { "%" } else { "" };
        let post: &str = if w.1 { "%" } else { "" };
        let mut pattern = owned(pre);
        pattern.append(escape_like(val.as_str()).as_str());
        pattern.append(post);
        proof {
            reveal_strlit("");
        }
        SqlExpr::Like { expr: Box::new(col_expr), pattern, negated: false, case_insensitive }
    } else {
        let mut frag = owned(name);
        frag.append("(");
        frag.append(usize_to_string(args.len()).as_str());
        frag.append(" args)");
        let mut reason = owned(name);
        reason.append(" requires 2 arguments");
        untranslatable_expr(ctx, frag.as_str(), reason.as_str())
    }
}

fn translate_list_contains(args: &Vec<MExpr>, ctx: &mut TranslationContext) -> (r: SqlExpr)
    ensures
        final(ctx).same_tables(old(ctx)),
        (r@, final(ctx).log()) == tr_list_contains(old(ctx).env(), old(ctx).log(), exprs_v(args@)),
    decreases args, 1int,
{
    proof {
        lemma_tr_list_contains(ctx.env(), ctx.log(), exprs_v(args@));
    }
    if args.len() >= 2 {
        assert(decreases_to!(args => args@[1]));
        let item_expr = translate_expr(&args[1], ctx);
        let ghost log1 = ctx.log();
        assert((item_expr@, log1) == tr_expr(old(ctx).env(), old(ctx).log(), exprs_v(args@)[1]));
        if let MExpr::List(items) = &args[0] {
            assert(exprs_v(items@) =~= exprs_v(args@)[0]->List_0);
            assert(exprs_v(args@)[0] == MExprV::List(exprs_v(items@)));
            assert(decreases_to!(args => args@[0]));
            assert(decreases_to!(args@[0] => items));
            let sql_items = translate_exprs(items, ctx);
            assert((sql_exprs_view(sql_items@), ctx.log()) == tr_exprs(old(ctx).env(), log1, exprs_v(args@)[0]->List_0));
            let ghost xs = sql_exprs_view(sql_items@);
            let r = SqlExpr::InList { expr: Box::new(item_expr), list: sql_items, negated: false };
            assert(r@->InList_list =~= xs);
            r
        } else {
            assert(!(exprs_v(args@)[0] is List));
            untranslatable_expr(ctx, "List.Contains with non-list first arg", "List.Contains expects a list literal")
        }
    } else {
        untranslatable_expr(ctx, "List.Contains", "List.Contains requires 2 arguments")
    }
}

fn translate_date_from(name: &str, args: &Vec<MExpr>, ctx: &mut TranslationContext) -> (r: SqlExpr)
    ensures
        final(ctx).same_tables(old(ctx)),
        (r@, final(ctx).log()) == tr_date_from(old(ctx).env(), old(ctx).log(), name@, exprs_v(args@)),
    decreases args, 1int,
{
    proof {
        lemma_tr_date_from(ctx.env(), ctx.log(), name@, exprs_v(args@));
    }
    if args.len() > 0 {
        assert(decreases_to!(args => args@[0]));
        let inner = translate_expr(&args[0], ctx);
        let target_type = if str_eq(name, "Date.From") {
            ctx.dialect.map_type(&MType::Date)
        } else {
            ctx.dialect.map_type(&MType::DateTime)
        };
        SqlExpr::Cast { expr: Box::new(inner), ty: owned(target_type) }
    } else {
        let mut reason = owned(name);
        reason.append(" requires an argument");
        untranslatable_expr(ctx, name, reason.as_str())
    }
}

fn translate_replace_type(args: &Vec<MExpr>, ctx: &mut TranslationContext) -> (r: SqlExpr)
    ensures
        final(ctx).same_tables(old(ctx)),
        (r@, final(ctx).log()) == tr_replace_type(old(ctx).env(), old(ctx).log(), exprs_v(args@)),
    decreases args, 1int,
{
    proof {
        lemma_tr_replace_type(ctx.env(), ctx.log(), exprs_v(args@));
    }
    if args.len() >= 2 {
        assert(decreases_to!(args => args@[0]));
        let inner = translate_expr(&args[0], ctx);
        if let MExpr::Identifier(tn) = &args[1] {
            let m_type = resolve_m_type(tn.as_str());
            let sql_type = ctx.dialect.map_type(&m_type);
            SqlExpr::Cast { expr: Box::new(inner), ty: owned(sql_type) }
        } else {
            inner
        }
    } else {
        untranslatable_expr(ctx, "Value.ReplaceType", "requires 2 arguments")
    }
}

/// Translate an aggregate function call.
fn translate_aggregate(name: &str, sql_name: &str, args: &Vec<MExpr>, distinct: bool, ctx: &mut TranslationContext) -> (r: SqlExpr)
    requires
        aggregate_of(name@) == Some((sql_name@, distinct)),
    ensures
        final(ctx).same_tables(old(ctx)),
        (r@, final(ctx).log()) == tr_aggregate(old(ctx).env(), old(ctx).log(), name@, exprs_v(args@)),
    decreases args, 1int,
{
    proof {
        lemma_tr_aggregate(ctx.env(), ctx.log(), name@, exprs_v(args@));
    }
    if args.len() > 0 {
        assert(decreases_to!(args => args@[0]));
        let inner = translate_expr(&args[0], ctx);
        call_of(sql_name, inner, distinct)
    } else {
        call_of(sql_name, SqlExpr::Raw(owned("*")), distinct)
    }
}

} // verus!
