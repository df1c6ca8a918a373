//! Translator entry points — converts an M document to SQL queries.
use vstd::prelude::*;
use crate::ast::{MDocument, MDocumentV, MExpr, MExprV, MLiteral, MType};
use crate::context::TranslationContext;
use crate::cte::{tr_let, translate_let_to_query};
use crate::functions::extract_string_list;
use crate::grammar::{exprs_v, fields_v};
use crate::sql::{SqlQuery, SqlQueryV};
use crate::table_spec::{StV, TablesV, ctx_state, ctx_tables};
use crate::text::{copy_string, owned, str_eq, strings_view};

verus! {

// ---------------------------------------------------------------------------
// Copies of expressions
// ---------------------------------------------------------------------------

/// A copy of a literal.
fn copy_literal(l: &MLiteral) -> (r: MLiteral)
    ensures
        r@ == l@,
{
    match l {
        MLiteral::Text(s) => MLiteral::Text(copy_string(s)),
        MLiteral::Number(s) => MLiteral::Number(copy_string(s)),
        MLiteral::Integer(n) => MLiteral::Integer(*n),
        MLiteral::Bool(b) => MLiteral::Bool(*b),
        MLiteral::Null => MLiteral::Null,
    }
}

/// A copy of a type.
fn copy_type(t: &MType) -> (r: MType)
    ensures
        r@ == t@,
{
    match t {
        MType::Text => MType::Text,
        MType::Number => MType::Number,
        MType::Integer => MType::Integer,
        MType::Logical => MType::Logical,
        MType::Date => MType::Date,
        MType::DateTime => MType::DateTime,
        MType::DateTimeZone => MType::DateTimeZone,
        MType::Duration => MType::Duration,
        MType::Binary => MType::Binary,
        MType::Table => MType::Table,
        MType::Any => MType::Any,
        MType::Unknown(s) => MType::Unknown(copy_string(s)),
    }
}

/// Copies of expressions.
fn copy_exprs(v: &Vec<MExpr>) -> (r: Vec<MExpr>)
    ensures
        exprs_v(r@) == exprs_v(v@),
    decreases v,
{
    let mut out: Vec<MExpr> = Vec::new();
    let mut i: usize = 0;
    while i < v.len()
        invariant
            i <= v.len(),
            out.len() == i,
            forall|k: int| 0 <= k < i ==> out@[k]@ == v@[k]@,
        decreases v.len() - i,
    {
        assert(decreases_to!(v => v@[i as int]));
        out.push(copy_expr(&v[i]));
        i += 1;
    }
    assert(exprs_v(out@) =~= exprs_v(v@));
    out
}

/// Copies of named expressions.
fn copy_fields(v: &Vec<(String, MExpr)>) -> (r: Vec<(String, MExpr)>)
    ensures
        fields_v(r@) == fields_v(v@),
    decreases v,
{
    let mut out: Vec<(String, MExpr)> = Vec::new();
    let mut i: usize = 0;
    while i < v.len()
        invariant
            i <= v.len(),
            out.len() == i,
            forall|k: int| 0 <= k < i ==> out@[k].0@ == v@[k].0@ && out@[k].1@ == v@[k].1@,
        decreases v.len() - i,
    {
        assert(decreases_to!(v => v@[i as int]));
        assert(decreases_to!(v@[i as int] => v@[i as int].1));
        out.push((copy_string(&v[i].0), copy_expr(&v[i].1)));
        i += 1;
    }
    assert(fields_v(out@) =~= fields_v(v@));
    out
}

/// A copy of an expression.
fn copy_expr(e: &MExpr) -> (r: MExpr)
    ensures
        r@ == e@,
    decreases e,
{
    match e {
        MExpr::Let { bindings, body } => {
            let bs = copy_fields(bindings);
            let b = copy_expr(body);
            let r = MExpr::Let { bindings: bs, body: Box::new(b) };
            assert(r@->Let_bindings =~= fields_v(bs@));
            assert(e@->Let_bindings =~= fields_v(bindings@));
            r
        },
        MExpr::FunctionCall { name, args } => {
            let a = copy_exprs(args);
            let r = MExpr::FunctionCall { name: copy_string(name), args: a };
            assert(r@->FunctionCall_args =~= exprs_v(a@));
            assert(e@->FunctionCall_args =~= exprs_v(args@));
            r
        },
        MExpr::FieldAccess { expr, field } => MExpr::FieldAccess { expr: Box::new(copy_expr(expr)), field: copy_string(field) },
        MExpr::IndexAccess { expr, key } => MExpr::IndexAccess { expr: Box::new(copy_expr(expr)), key: Box::new(copy_expr(key)) },
        MExpr::EachExpr(inner) => MExpr::EachExpr(Box::new(copy_expr(inner))),
        MExpr::RowField(s) => MExpr::RowField(copy_string(s)),
        MExpr::BinaryOp { op, left, right } => MExpr::BinaryOp {
            op: *op,
            left: Box::new(copy_expr(left)),
            right: Box::new(copy_expr(right)),
        },
        MExpr::UnaryOp { op, expr } => MExpr::UnaryOp { op: *op, expr: Box::new(copy_expr(expr)) },
        MExpr::Literal(l) => MExpr::Literal(copy_literal(l)),
        MExpr::Identifier(s) => MExpr::Identifier(copy_string(s)),
        MExpr::List(items) => {
            let a = copy_exprs(items);
            let r = MExpr::List(a);
            assert(r@->List_0 =~= exprs_v(a@));
            assert(e@->List_0 =~= exprs_v(items@));
            r
        },
        MExpr::Record(fields) => {
            let a = copy_fields(fields);
            let r = MExpr::Record(a);
            assert(r@->Record_0 =~= fields_v(a@));
            assert(e@->Record_0 =~= fields_v(fields@));
            r
        },
        MExpr::TypeAnnotation { expr, ty } => MExpr::TypeAnnotation { expr: Box::new(copy_expr(expr)), ty: copy_type(ty) },
    }
}

// ---------------------------------------------------------------------------
// What the translation of a document is
// ---------------------------------------------------------------------------

/// The translation of one expression to a query: a `let` is a CTE chain; any other
/// expression is the one binding `Result` of a `let` whose result is `Result`.
pub open spec fn tr_query(t: TablesV, st: StV, e: MExprV) -> (SqlQueryV, TablesV, StV) {
    match e {
        MExprV::Let { bindings, body } => tr_let(t, st, bindings, *body),
        _ => tr_let(t, st, seq![("Result"@, e)], MExprV::Identifier("Result"@)),
    }
}

/// The queries of the shared members of a section, in order, and the state after them.
pub open spec fn tr_section(t: TablesV, st: StV, bindings: Seq<(bool, Seq<char>, MExprV)>) -> (Seq<(Seq<char>, SqlQueryV)>, TablesV, StV)
    decreases bindings.len(),
{
    if bindings.len() == 0 {
        (Seq::empty(), t, st)
    } else {
        let (qs, t1, st1) = tr_section(t, st, bindings.drop_last());
        let (shared, name, e) = bindings.last();
        if shared {
            let (q, t2, st2) = tr_query(t1, st1, e);
            (qs.push((name, q)), t2, st2)
        } else {
            (qs, t1, st1)
        }
    }
}

/// The translation of a document: one query named by the file stem for an expression, one
/// per shared member of a section.
pub open spec fn tr_doc(t: TablesV, st: StV, doc: MDocumentV, file_stem: Seq<char>) -> (Seq<(Seq<char>, SqlQueryV)>, TablesV, StV) {
    match doc {
        MDocumentV::Expression(e) => {
            let (q, t1, st1) = tr_query(t, st, e);
            (seq![(file_stem, q)], t1, st1)
        },
        MDocumentV::Section { bindings, .. } => tr_section(t, st, bindings),
    }
}

/// Models of named queries.
pub open spec fn named_queries_v(v: Seq<(String, SqlQuery)>) -> Seq<(Seq<char>, SqlQueryV)> {
    Seq::new(v.len(), |i: int| (v[i].0@, v[i].1@))
}

// ---------------------------------------------------------------------------
// Translation
// ---------------------------------------------------------------------------

/// Translate a single M expression to a SQL query.
fn translate_expr_to_query(expr: &MExpr, ctx: &mut TranslationContext) -> (r: SqlQuery)
    ensures
        final(ctx).env() == old(ctx).env(),
        (r@, ctx_tables(*final(ctx)), ctx_state(*final(ctx))) == tr_query(ctx_tables(*old(ctx)), ctx_state(*old(ctx)), expr@),
{
    match expr {
        MExpr::Let { bindings, body } => {
            assert(fields_v(bindings@) =~= expr@->Let_bindings);
            translate_let_to_query(bindings, body, ctx)
        },
        _ => {
            let mut bindings: Vec<(String, MExpr)> = Vec::new();
            bindings.push((owned("Result"), copy_expr(expr)));
            let body = MExpr::Identifier(owned("Result"));
            assert(fields_v(bindings@) =~= seq![("Result"@, expr@)]);
            translate_let_to_query(&bindings, &body, ctx)
        },
    }
}

/// Translate an M document to one or more SQL queries.
/// Returns a list of (query_name, sql_query) pairs.
#[verifier::rlimit(30)]
pub fn translate(doc: &MDocument, file_stem: &str, ctx: &mut TranslationContext) -> (r: Vec<(String, SqlQuery)>)
    ensures
        final(ctx).env() == old(ctx).env(),
        (named_queries_v(r@), ctx_tables(*final(ctx)), ctx_state(*final(ctx))) == tr_doc(
            ctx_tables(*old(ctx)),
            ctx_state(*old(ctx)),
            doc@,
            file_stem@,
        ),
{
    match doc {
        MDocument::Expression(expr) => {
            let query = translate_expr_to_query(expr, ctx);
            let mut results: Vec<(String, SqlQuery)> = Vec::new();
            results.push((owned(file_stem), query));
            assert(named_queries_v(results@) =~= seq![(file_stem@, results@[0].1@)]);
            results
        },
        MDocument::Section { bindings, .. } => {
            let ghost bv = doc@->Section_bindings;
            let ghost t0 = ctx_tables(*ctx);
            let ghost st0 = ctx_state(*ctx);
            let mut results: Vec<(String, SqlQuery)> = Vec::new();
            let mut i: usize = 0;
            assert(bv.subrange(0, 0) =~= Seq::<(bool, Seq<char>, MExprV)>::empty());
            assert(named_queries_v(results@) =~= Seq::<(Seq<char>, SqlQueryV)>::empty());
            while i < bindings.len()
                invariant
                    i <= bindings.len(),
                    bv == doc@->Section_bindings,
                    bv.len() == bindings.len(),
                    forall|k: int| 0 <= k < bv.len() ==> #[trigger] bv[k] == (bindings@[k].0, bindings@[k].1@, bindings@[k].2@),
                    doc@ is Section,
                    ctx.env() == old(ctx).env(),
                    (named_queries_v(results@), ctx_tables(*ctx), ctx_state(*ctx)) == tr_section(t0, st0, bv.subrange(0, i as int)),
                decreases bindings.len() - i,
            {
                assert(bv.subrange(0, i + 1).drop_last() =~= bv.subrange(0, i as int));
                assert(bv.subrange(0, i + 1).last() == bv[i as int]);
                if bindings[i].0 {
                    let query = translate_expr_to_query(&bindings[i].2, ctx);
                    let ghost before = named_queries_v(results@);
                    results.push((copy_string(&bindings[i].1), query));
                    assert(named_queries_v(results@) =~= before.push((bv[i as int].1, results@.last().1@)));
                }
                i += 1;
            }
            assert(bv.subrange(0, bindings.len() as int) =~= bv);
            results
        },
    }
}

} // verus!
