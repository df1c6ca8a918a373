//! `let … in` → CTE chain builder.
use vstd::prelude::*;
use indexmap::IndexMap;
use crate::ast::{MExpr, MExprV};
use crate::cast::resolve_m_type;
use crate::context::{TranslationContext, columns_insert, columns_push_to};
use crate::dialect::Dialect;
use crate::expr::extract_string;
use crate::functions::{TableOpResult, translate_table_expr};
use crate::grammar::{exprs_v, fields_v};
use crate::cast::cleaned_type_name;
use crate::dialect::{DialectId, spec_map_type};
use crate::maps::{find_key, lemma_find_put, put};
use crate::resolver::{contains_name, binding_names, fmt_expr, format_expr, or_else, resolve, resolve_source};
use crate::sql::{
    Cte, CteV, SelectCol, SelectColV, SelectStmt, SelectStmtV, SqlExpr, SqlExprV, SqlQuery, SqlQueryV, TableRef, TableRefV,
    empty_select_v, opt_view,
};
use crate::syntax::type_of_name;
use crate::table_spec::{StV, TableOpV, TablesV, ctx_state, ctx_tables, same_scope, tr_table};
use crate::text::{chars_of, copy_string, is_ascii_letter, is_digit, owned, push_char, str_contains, str_eq, strings_view};
use crate::link::{find_ref, link_ctes_v, link_fold, link_steps, lookup_ref, refs_v};
use crate::translation::{extract_str, unsupported_type};

verus! {

// ---------------------------------------------------------------------------
// Reference counts (an insertion-ordered map from binding names to counts)
// ---------------------------------------------------------------------------

/// The entries of a reference-count map, in order.
pub uninterp spec fn count_entries(m: IndexMap<String, usize>) -> Seq<(Seq<char>, usize)>;

/// An empty count map.
///
/// Trusted: calls `IndexMap::new`, which creates an empty map.
#[verifier::external_body]
fn counts_new() -> (m: IndexMap<String, usize>)
    ensures
        count_entries(m) == Seq::<(Seq<char>, usize)>::empty(),
{
    IndexMap::new()
}

/// Stores a count under a name.
///
/// Trusted: calls `IndexMap::insert`, which replaces the value of a present key in its
/// place and puts a new key last.
#[verifier::external_body]
fn counts_insert(m: &mut IndexMap<String, usize>, k: String, v: usize)
    ensures
        count_entries(*final(m)) == put(count_entries(*old(m)), k@, v),
{
    m.insert(k, v);
}

/// The count stored under a name, if any.
///
/// Trusted: calls `IndexMap::get` and copies the count it finds.
#[verifier::external_body]
fn counts_get(m: &IndexMap<String, usize>, k: &str) -> (r: Option<usize>)
    ensures
        r == find_key(count_entries(*m), k@),
{
    m.get(k).copied()
}

/// How often an expression names `k` as an identifier, in every part of it that can
/// refer to a binding.
pub open spec fn occ(e: MExprV, k: Seq<char>) -> nat
    decreases e,
{
    match e {
        MExprV::Identifier(n) => if n == k { 1 } else { 0 },
        MExprV::FunctionCall { args, .. } => occ_seq(args, k),
        MExprV::BinaryOp { left, right, .. } => occ(*left, k) + occ(*right, k),
        MExprV::UnaryOp { expr, .. } => occ(*expr, k),
        MExprV::Let { bindings, body } => occ_fields(bindings, k) + occ(*body, k),
        MExprV::EachExpr(inner) => occ(*inner, k),
        MExprV::FieldAccess { expr, .. } => occ(*expr, k),
        MExprV::IndexAccess { expr, key } => occ(*expr, k) + occ(*key, k),
        MExprV::List(items) => occ_seq(items, k),
        MExprV::Record(fields) => occ_fields(fields, k),
        MExprV::TypeAnnotation { expr, .. } => occ(*expr, k),
        _ => 0,
    }
}

/// How often a sequence of expressions names `k`.
pub open spec fn occ_seq(s: Seq<MExprV>, k: Seq<char>) -> nat
    decreases s,
{
    if s.len() == 0 {
        0
    } else {
        occ_seq(s.subrange(0, s.len() - 1), k) + occ(s[s.len() - 1], k)
    }
}

/// How often the values of named expressions name `k`.
pub open spec fn occ_fields(s: Seq<(Seq<char>, MExprV)>, k: Seq<char>) -> nat
    decreases s,
{
    if s.len() == 0 {
        0
    } else {
        occ_fields(s.subrange(0, s.len() - 1), k) + occ(s[s.len() - 1].1, k)
    }
}

/// `c + n`, or the largest count when that does not fit.
pub open spec fn sat_add(c: usize, n: nat) -> usize {
    if c + n <= usize::MAX {
        (c + n) as usize
    } else {
        usize::MAX
    }
}

/// A stored count raised by `n`; an absent name stays absent.
pub open spec fn bump(o: Option<usize>, n: nat) -> Option<usize> {
    match o {
        Some(c) => Some(sat_add(c, n)),
        None => None,
    }
}

/// Whether every count in `after` is the one in `before` raised by `n(name)`.
pub open spec fn counted(
    before: Seq<(Seq<char>, usize)>,
    after: Seq<(Seq<char>, usize)>,
    n: spec_fn(Seq<char>) -> nat,
) -> bool {
    forall|k: Seq<char>| #[trigger] find_key(after, k) == bump(find_key(before, k), n(k))
}

/// Raising twice raises by the sum.
proof fn lemma_bump_twice(o: Option<usize>, a: nat, b: nat)
    ensures
        bump(bump(o, a), b) == bump(o, a + b),
{
}

/// Counting in two steps counts the sum.
proof fn lemma_counted_trans(
    a: Seq<(Seq<char>, usize)>,
    b: Seq<(Seq<char>, usize)>,
    c: Seq<(Seq<char>, usize)>,
    f: spec_fn(Seq<char>) -> nat,
    g: spec_fn(Seq<char>) -> nat,
)
    requires
        counted(a, b, f),
        counted(b, c, g),
    ensures
        counted(a, c, |k: Seq<char>| f(k) + g(k)),
{
    assert forall|k: Seq<char>| #[trigger] find_key(c, k) == bump(find_key(a, k), f(k) + g(k)) by {
        assert(find_key(b, k) == bump(find_key(a, k), f(k)));
        assert(find_key(c, k) == bump(find_key(b, k), g(k)));
        lemma_bump_twice(find_key(a, k), f(k), g(k));
    }
}

/// Counting nothing changes nothing.
proof fn lemma_counted_refl(a: Seq<(Seq<char>, usize)>)
    ensures
        counted(a, a, |k: Seq<char>| 0nat),
{
    assert forall|k: Seq<char>| #[trigger] find_key(a, k) == bump(find_key(a, k), 0nat) by {}
}

/// Counts references in a sequence of expressions.
fn count_refs_seq(items: &Vec<MExpr>, counts: &mut IndexMap<String, usize>)
    ensures
        counted(count_entries(*old(counts)), count_entries(*final(counts)), |k: Seq<char>| occ_seq(exprs_v(items@), k)),
    decreases items,
{
    let ghost xs = exprs_v(items@);
    let ghost start = count_entries(*counts);
    proof {
        lemma_counted_refl(start);
        assert(xs.subrange(0, 0) =~= Seq::<MExprV>::empty());
        assert forall|k: Seq<char>| #[trigger] find_key(start, k) == bump(find_key(start, k), occ_seq(xs.subrange(0, 0), k)) by {}
    }
    let mut i: usize = 0;
    while i < items.len()
        invariant
            i <= items.len(),
            xs == exprs_v(items@),
            counted(start, count_entries(*counts), |k: Seq<char>| occ_seq(xs.subrange(0, i as int), k)),
        decreases items.len() - i,
    {
        let ghost mid = count_entries(*counts);
        assert(decreases_to!(items => items@[i as int]));
        count_refs(&items[i], counts);
        proof {
            lemma_counted_trans(
                start,
                mid,
                count_entries(*counts),
                |k: Seq<char>| occ_seq(xs.subrange(0, i as int), k),
                |k: Seq<char>| occ(xs[i as int], k),
            );
            assert(xs.subrange(0, i + 1).subrange(0, i as int) =~= xs.subrange(0, i as int));
            assert forall|k: Seq<char>| #[trigger] find_key(count_entries(*counts), k) == bump(
                find_key(start, k),
                occ_seq(xs.subrange(0, i + 1), k),
            ) by {
                assert(occ_seq(xs.subrange(0, i + 1), k) == occ_seq(xs.subrange(0, i as int), k) + occ(xs[i as int], k));
            }
        }
        i += 1;
    }
    assert(xs.subrange(0, items.len() as int) =~= xs);
}

/// Counts references in the values of named expressions.
fn count_refs_fields(fields: &Vec<(String, MExpr)>, counts: &mut IndexMap<String, usize>)
    ensures
        counted(count_entries(*old(counts)), count_entries(*final(counts)), |k: Seq<char>| occ_fields(fields_v(fields@), k)),
    decreases fields,
{
    let ghost xs = fields_v(fields@);
    let ghost start = count_entries(*counts);
    proof {
        assert(xs.subrange(0, 0) =~= Seq::<(Seq<char>, MExprV)>::empty());
        assert forall|k: Seq<char>| #[trigger] find_key(start, k) == bump(find_key(start, k), occ_fields(xs.subrange(0, 0), k)) by {}
    }
    let mut i: usize = 0;
    while i < fields.len()
        invariant
            i <= fields.len(),
            xs == fields_v(fields@),
            counted(start, count_entries(*counts), |k: Seq<char>| occ_fields(xs.subrange(0, i as int), k)),
        decreases fields.len() - i,
    {
        let ghost mid = count_entries(*counts);
        assert(decreases_to!(fields => fields@[i as int]));
        assert(decreases_to!(fields@[i as int] => fields@[i as int].1));
        count_refs(&fields[i].1, counts);
        proof {
            lemma_counted_trans(
                start,
                mid,
                count_entries(*counts),
                |k: Seq<char>| occ_fields(xs.subrange(0, i as int), k),
                |k: Seq<char>| occ(xs[i as int].1, k),
            );
            assert(xs.subrange(0, i + 1).subrange(0, i as int) =~= xs.subrange(0, i as int));
            assert forall|k: Seq<char>| #[trigger] find_key(count_entries(*counts), k) == bump(
                find_key(start, k),
                occ_fields(xs.subrange(0, i + 1), k),
            ) by {
                assert(occ_fields(xs.subrange(0, i + 1), k) == occ_fields(xs.subrange(0, i as int), k) + occ(
                    xs[i as int].1,
                    k,
                ));
            }
        }
        i += 1;
    }
    assert(xs.subrange(0, fields.len() as int) =~= xs);
}

/// Count references to bindings in an expression.
fn count_refs(expr: &MExpr, counts: &mut IndexMap<String, usize>)
    ensures
        counted(count_entries(*old(counts)), count_entries(*final(counts)), |k: Seq<char>| occ(expr@, k)),
    decreases expr,
{
    let ghost start = count_entries(*counts);
    match expr {
        MExpr::Identifier(name) => {
            match counts_get(counts, name.as_str()) {
                Some(c) => {
                    if c < usize::MAX {
                        counts_insert(counts, name.clone(), c + 1);
                        proof {
                            assert forall|k: Seq<char>| #[trigger] find_key(count_entries(*counts), k) == bump(
                                find_key(start, k),
                                occ(expr@, k),
                            ) by {
                                lemma_find_put(start, name@, (c + 1) as usize, k);
                            }
                        }
                    }
                },
                None => {},
            }
        },
        MExpr::FunctionCall { args, .. } => {
            assert(exprs_v(args@) =~= expr@->FunctionCall_args);
            count_refs_seq(args, counts);
        },
        MExpr::BinaryOp { left, right, .. } => {
            count_refs(left, counts);
            let ghost mid = count_entries(*counts);
            count_refs(right, counts);
            proof {
                lemma_counted_trans(start, mid, count_entries(*counts), |k: Seq<char>| occ(left@, k), |k: Seq<char>| occ(right@, k));
            }
        },
        MExpr::UnaryOp { expr: inner, .. } => {
            count_refs(inner, counts);
        },
        MExpr::Let { bindings, body } => {
            assert(fields_v(bindings@) =~= expr@->Let_bindings);
            count_refs_fields(bindings, counts);
            let ghost mid = count_entries(*counts);
            count_refs(body, counts);
            proof {
                lemma_counted_trans(
                    start,
                    mid,
                    count_entries(*counts),
                    |k: Seq<char>| occ_fields(fields_v(bindings@), k),
                    |k: Seq<char>| occ(body@, k),
                );
            }
        },
        MExpr::EachExpr(inner) => {
            count_refs(inner, counts);
        },
        MExpr::FieldAccess { expr: inner, .. } => {
            count_refs(inner, counts);
        },
        MExpr::IndexAccess { expr: inner, key } => {
            count_refs(inner, counts);
            let ghost mid = count_entries(*counts);
            count_refs(key, counts);
            proof {
                lemma_counted_trans(start, mid, count_entries(*counts), |k: Seq<char>| occ(inner@, k), |k: Seq<char>| occ(key@, k));
            }
        },
        MExpr::List(items) => {
            assert(exprs_v(items@) =~= expr@->List_0);
            count_refs_seq(items, counts);
        },
        MExpr::Record(fields) => {
            assert(fields_v(fields@) =~= expr@->Record_0);
            count_refs_fields(fields, counts);
        },
        MExpr::TypeAnnotation { expr: inner, .. } => {
            count_refs(inner, counts);
        },
        _ => {
            proof {
                assert forall|k: Seq<char>| #[trigger] find_key(start, k) == bump(find_key(start, k), occ(expr@, k)) by {}
            }
        },
    }
}

// ---------------------------------------------------------------------------
// What the translation of a `let` is
// ---------------------------------------------------------------------------

/// Model of the translation of one binding.
pub enum BindingV {
    /// A data source connection (`Sql.Database`, `Excel.Workbook`): no CTE.
    DataSourceDecl(Option<Seq<char>>),
    /// A table of a data source: a CTE over it.
    DataSource { schema: Option<Seq<char>>, table: Seq<char> },
    /// A table operation: a CTE.
    TableOp(SelectStmtV),
    /// A scalar: no CTE.
    Scalar,
    /// An alias of another binding: no CTE.
    Reference(Seq<char>),
    /// An untranslatable step: a CTE holding its placeholder.
    Raw(Seq<char>),
}

/// A binding's model from a table operation's.
pub open spec fn binding_of_op(op: TableOpV) -> BindingV {
    match op {
        TableOpV::Select(s) => BindingV::TableOp(s),
        TableOpV::SourceTable { schema, table } => BindingV::DataSource { schema, table },
        TableOpV::Reference(r) => BindingV::Reference(r),
        TableOpV::Raw(r) => BindingV::Raw(r),
    }
}

/// The schema a data source binding named by `parent` declared.
pub open spec fn declared_schema(sources: Seq<(Seq<char>, Option<Seq<char>>)>, parent: MExprV) -> Option<Seq<char>> {
    match parent {
        MExprV::Identifier(p) => match find_key(sources, p) {
            Some(schema) => schema,
            None => None,
        },
        _ => None,
    }
}

/// A binding translated through the table operations.
pub open spec fn classify_op(t: TablesV, st: StV, e: MExprV) -> (BindingV, StV) {
    let (op, st2) = tr_table(t, st, e);
    (binding_of_op(op), st2)
}

/// Classify a binding and translate it, given the data sources declared before it.
pub open spec fn classify(t: TablesV, st: StV, sources: Seq<(Seq<char>, Option<Seq<char>>)>, e: MExprV) -> (BindingV, StV) {
    match e {
        MExprV::FunctionCall { name, .. } => if name == "Sql.Database"@ {
            (BindingV::DataSourceDecl(resolve(e).schema), st)
        } else if name == "Excel.Workbook"@ {
            (BindingV::DataSourceDecl(None), st)
        } else {
            classify_op(t, st, e)
        },
        MExprV::FieldAccess { expr: source, field } => if field == "Data"@ {
            let r = resolve(e);
            match r.table {
                Some(table) => (BindingV::DataSource {
                    schema: match *source {
                        MExprV::IndexAccess { expr: parent, .. } => or_else(r.schema, declared_schema(sources, *parent)),
                        _ => r.schema,
                    },
                    table,
                }, st),
                None => (BindingV::Reference(fmt_expr(e)), st),
            }
        } else {
            classify_op(t, st, e)
        },
        MExprV::Identifier(n) => (BindingV::Reference(n), st),
        MExprV::Literal(_) => (BindingV::Scalar, st),
        _ => classify_op(t, st, e),
    }
}

/// A character a CTE name keeps: an ASCII letter, an ASCII digit or `_`.
pub open spec fn cte_char(c: char) -> bool {
    is_ascii_letter(c) || is_digit(c) || c == '_'
}

/// A CTE name: characters outside `[a-zA-Z0-9_]` become `_`; an empty name becomes `cte`;
/// a name that starts with an ASCII digit gets a leading `_`.
pub open spec fn sanitized(name: Seq<char>) -> Seq<char> {
    let mapped = Seq::new(
        name.len(),
        |i: int| if cte_char(name[i]) { name[i] } else { '_' },
    );
    let r = if mapped.len() == 0 { "cte"@ } else { mapped };
    if r.len() > 0 && is_digit(r[0]) {
        seq!['_'] + r
    } else {
        r
    }
}

/// Whether a text is a valid CTE identifier: not empty, made of ASCII letters, ASCII digits
/// and `_`, and not starting with a digit.
pub open spec fn valid_cte_name(s: Seq<char>) -> bool {
    &&& s.len() > 0
    &&& !is_digit(s[0])
    &&& forall|i: int| 0 <= i < s.len() ==> cte_char(#[trigger] s[i])
}

/// The names that `Table.ExpandTableColumn` steps expand, in order.
pub open spec fn absorbed_names(bs: Seq<(Seq<char>, MExprV)>) -> Seq<Seq<char>>
    decreases bs.len(),
{
    if bs.len() == 0 {
        Seq::empty()
    } else {
        let rest = absorbed_names(bs.drop_last());
        match bs.last().1 {
            MExprV::FunctionCall { name, args } => if name == "Table.ExpandTableColumn"@ && args.len() > 0
                && args[0] is Identifier {
                rest.push(args[0]->Identifier_0)
            } else {
                rest
            },
            _ => rest,
        }
    }
}

/// Whether a step is a `Table.NestedJoin`.
pub open spec fn is_nested_join(e: MExprV) -> bool {
    e matches MExprV::FunctionCall { name, .. } && name == "Table.NestedJoin"@
}

/// How often the steps and the result of a `let` name a binding.
pub open spec fn total_refs(bindings: Seq<(Seq<char>, MExprV)>, body: MExprV, name: Seq<char>) -> nat {
    occ_fields(bindings, name) + occ(body, name)
}

/// `SELECT * FROM <table>` of a data source.
pub open spec fn source_select(schema: Option<Seq<char>>, table: Seq<char>) -> SelectStmtV {
    SelectStmtV {
        columns: seq![SelectColV::Wildcard],
        from: Some(TableRefV { schema, name: table, alias: None }),
        ..empty_select_v()
    }
}

/// `SELECT <placeholder>` of an untranslatable step.
pub open spec fn raw_select(raw: Seq<char>) -> SelectStmtV {
    SelectStmtV { columns: seq![SelectColV::Expr { expr: SqlExprV::Raw(raw), alias: None }], ..empty_select_v() }
}

/// What the translation of a `let` has built after some of its bindings.
pub struct LetStateV {
    /// The steps that emit a CTE or are inlined, each under its binding name.
    pub ctes: Seq<CteV>,
    /// The names of the steps to inline where they are used.
    pub inlined: Seq<Seq<char>>,
    pub sources: Seq<(Seq<char>, Option<Seq<char>>)>,
    pub st: StV,
}

/// One binding of a `let` translated: a nested join that a later step expands emits
/// nothing; a table, a table operation or an untranslatable step is recorded under its
/// binding name, and a table used at most once is marked for inlining when single-use CTEs
/// are inlined.
pub open spec fn let_step(t: TablesV, bindings: Seq<(Seq<char>, MExprV)>, body: MExprV, acc: LetStateV, b: (Seq<char>, MExprV)) -> LetStateV {
    let (name, e) = b;
    let (res, st2) = classify(t, acc.st, acc.sources, e);
    if absorbed_names(bindings).contains(name) && is_nested_join(e) {
        LetStateV { st: st2, ..acc }
    } else {
        let inline = t.env.inline_singles && total_refs(bindings, body, name) <= 1;
        match res {
            BindingV::DataSourceDecl(schema) => LetStateV { sources: put(acc.sources, name, schema), st: st2, ..acc },
            BindingV::DataSource { schema, table } => LetStateV {
                ctes: acc.ctes.push(CteV { name, select: source_select(schema, table) }),
                inlined: if inline { acc.inlined.push(name) } else { acc.inlined },
                st: st2,
                ..acc
            },
            BindingV::TableOp(stmt) => LetStateV {
                ctes: acc.ctes.push(CteV { name, select: stmt }),
                inlined: if inline { acc.inlined.push(name) } else { acc.inlined },
                st: st2,
                ..acc
            },
            BindingV::Raw(raw) => LetStateV {
                ctes: acc.ctes.push(CteV { name, select: raw_select(raw) }),
                st: st2,
                ..acc
            },
            _ => LetStateV { st: st2, ..acc },
        }
    }
}

/// The first `n` bindings of a `let` translated.
pub open spec fn let_fold(t: TablesV, bindings: Seq<(Seq<char>, MExprV)>, body: MExprV, init: LetStateV, n: nat) -> LetStateV
    decreases n,
{
    if n == 0 || n > bindings.len() {
        init
    } else {
        let_step(t, bindings, body, let_fold(t, bindings, body, init, (n - 1) as nat), bindings[n - 1])
    }
}

/// The column types that one `{"Col", type}` of a `Table.TransformColumnTypes` step named
/// `name` records: the column under `<name>_types`, and its SQL type under
/// `<name>_<col>_type`.
pub open spec fn coerce_spec(d: DialectId, known: Seq<(Seq<char>, Seq<Seq<char>>)>, name: Seq<char>, spec: MExprV) -> Seq<(Seq<char>, Seq<Seq<char>>)> {
    match spec {
        MExprV::List(items) => if items.len() >= 2 && items[1] is Identifier {
            let sql_type = spec_map_type(d, type_of_name(cleaned_type_name(items[1]->Identifier_0)));
            if unsupported_type(sql_type) {
                known
            } else {
                let c = extract_str(items[0]);
                let types_key = name + "_types"@;
                let listed = match find_key(known, types_key) {
                    Some(v) => v,
                    None => Seq::empty(),
                };
                put(put(known, types_key, listed.push(c)), name + "_"@ + c + "_type"@, seq![sql_type])
            }
        } else {
            known
        },
        _ => known,
    }
}

/// The column types the specs `{{"Col", type}, ...}` of a step record, in order.
pub open spec fn coerce_specs(d: DialectId, known: Seq<(Seq<char>, Seq<Seq<char>>)>, name: Seq<char>, specs: Seq<MExprV>) -> Seq<(Seq<char>, Seq<Seq<char>>)>
    decreases specs.len(),
{
    if specs.len() == 0 {
        known
    } else {
        coerce_spec(d, coerce_specs(d, known, name, specs.drop_last()), name, specs.last())
    }
}

/// The column types a binding records when it is a `Table.TransformColumnTypes` step over
/// an identifier.
pub open spec fn coerce_binding(d: DialectId, known: Seq<(Seq<char>, Seq<Seq<char>>)>, b: (Seq<char>, MExprV)) -> Seq<(Seq<char>, Seq<Seq<char>>)> {
    match b.1 {
        MExprV::FunctionCall { name, args } => if name == "Table.TransformColumnTypes"@ && args.len() >= 2
            && args[0] is Identifier && args[1] is List {
            coerce_specs(d, known, b.0, args[1]->List_0)
        } else {
            known
        },
        _ => known,
    }
}

/// The column types the bindings of a `let` record, in order.
pub open spec fn coerce_all(d: DialectId, known: Seq<(Seq<char>, Seq<Seq<char>>)>, bs: Seq<(Seq<char>, MExprV)>) -> Seq<(Seq<char>, Seq<Seq<char>>)>
    decreases bs.len(),
{
    if bs.len() == 0 {
        known
    } else {
        coerce_binding(d, coerce_all(d, known, bs.drop_last()), bs.last())
    }
}

/// The final SELECT of a `let`: everything from the CTE its result names.
pub open spec fn final_select_of(body: MExprV) -> SelectStmtV {
    let target = match body {
        MExprV::Identifier(n) => n,
        _ => fmt_expr(body),
    };
    SelectStmtV {
        columns: seq![SelectColV::Wildcard],
        from: Some(TableRefV { schema: None, name: sanitized(target), alias: None }),
        ..empty_select_v()
    }
}

/// What the translation of a `let` reads after its pre-scans: its binding names join the
/// known bindings, and its type coercions join the known column lists.
pub open spec fn let_tables(t: TablesV, bindings: Seq<(Seq<char>, MExprV)>) -> TablesV {
    TablesV {
        env: t.env,
        known: coerce_all(t.env.dialect, t.known, bindings),
        combine: t.combine + binding_names(bindings),
    }
}

/// The final SELECT of a `let` once its steps are linked: everything from what its result
/// names reads, when that is a step; otherwise as `final_select_of`.
pub open spec fn final_linked(body: MExprV, refs: Seq<(Seq<char>, TableRefV)>) -> SelectStmtV {
    let target = match body {
        MExprV::Identifier(n) => n,
        _ => fmt_expr(body),
    };
    match lookup_ref(refs, target) {
        Some(x) => SelectStmtV {
            columns: seq![SelectColV::Wildcard],
            from: Some(TableRefV { schema: None, name: x.name, alias: x.alias }),
            ..empty_select_v()
        },
        None => final_select_of(body),
    }
}

/// The translation of a `let`: the query, what later translations read, and the state. The
/// recorded steps are linked (`link_fold`): each kept step is a CTE under a unique sanitized
/// name, and each inlined step is read as a subquery where it is used.
pub open spec fn tr_let(t: TablesV, st: StV, bindings: Seq<(Seq<char>, MExprV)>, body: MExprV) -> (SqlQueryV, TablesV, StV) {
    let t1 = let_tables(t, bindings);
    let s = let_fold(
        t1,
        bindings,
        body,
        LetStateV { ctes: Seq::empty(), inlined: Seq::empty(), sources: Seq::empty(), st },
        bindings.len(),
    );
    let linked = link_fold(t.env.dialect, s.inlined, s.ctes, s.ctes.len());
    (SqlQueryV { ctes: linked.ctes, final_select: final_linked(body, linked.refs) }, t1, s.st)
}

// ---------------------------------------------------------------------------
// CTE names
// ---------------------------------------------------------------------------

/// Whether a name is a valid CTE identifier.
pub fn is_valid_cte_name(name: &str) -> (r: bool)
    ensures
        r == valid_cte_name(name@),
{
    let cs = chars_of(name);
    if cs.len() == 0 || ('0' <= cs[0] && cs[0] <= '9') {
        return false;
    }
    let mut i: usize = 0;
    while i < cs.len()
        invariant
            i <= cs.len(),
            cs@ == name@,
            forall|j: int| 0 <= j < i ==> cte_char(#[trigger] cs@[j]),
        decreases cs.len() - i,
    {
        let ch = cs[i];
        if !(('a' <= ch && ch <= 'z') || ('A' <= ch && ch <= 'Z') || ('0' <= ch && ch <= '9') || ch == '_') {
            return false;
        }
        i += 1;
    }
    true
}

/// Sanitise a binding name to a valid SQL CTE identifier.
pub fn sanitize_cte_name(name: &str) -> (r: String)
    ensures
        r@ == sanitized(name@),
        valid_cte_name(r@),
{
    let ghost mapped = Seq::new(
        name@.len(),
        |i: int| if cte_char(name@[i]) { name@[i] } else { '_' },
    );
    let chars = chars_of(name);
    let mut result = String::new();
    let mut first: char = 'c';
    let mut i: usize = 0;
    while i < chars.len()
        invariant
            i <= chars.len(),
            chars@ == name@,
            mapped.len() == name@.len(),
            forall|j: int| 0 <= j < mapped.len() ==> #[trigger] mapped[j] == (if cte_char(name@[j]) { name@[j] } else { '_' }),
            result@ == mapped.take(i as int),
            i > 0 ==> first == mapped[0],
        decreases chars.len() - i,
    {
        let ch = chars[i];
        let ascii_word = ('a' <= ch && ch <= 'z') || ('A' <= ch && ch <= 'Z') || ('0' <= ch && ch <= '9') || ch == '_';
        let out = if ascii_word { ch } else { '_' };
        if i == 0 {
            first = out;
        }
        push_char(&mut result, out);
        assert(result@ =~= mapped.take(i + 1));
        i += 1;
    }
    assert(mapped.take(chars.len() as int) =~= mapped);
    proof {
        reveal_strlit("cte");
        reveal_strlit("_");
    }
    let r = if chars.len() == 0 { owned("cte") } else { result };
    if chars.len() > 0 && '0' <= first && first <= '9' {
        let mut prefixed = owned("_");
        prefixed.append(r.as_str());
        assert(prefixed@ =~= seq!['_'] + r@);
        assert forall|j: int| 0 <= j < prefixed@.len() implies cte_char(#[trigger] prefixed@[j]) by {
            if j > 0 {
                assert(prefixed@[j] == mapped[j - 1]);
            }
        }
        prefixed
    } else {
        assert forall|j: int| 0 <= j < r@.len() implies cte_char(#[trigger] r@[j]) by {
            if chars.len() > 0 {
                assert(r@[j] == mapped[j]);
            } else {
                assert(r@ == seq!['c', 't', 'e']);
            }
        }
        r
    }
}

// ---------------------------------------------------------------------------
// Data sources declared by bindings (an insertion-ordered map)
// ---------------------------------------------------------------------------

/// The entries of a data-source map, in order: each binding with the schema it declares.
pub uninterp spec fn source_entries(m: IndexMap<String, Option<String>>) -> Seq<(Seq<char>, Option<Seq<char>>)>;

/// An empty data-source map.
///
/// Trusted: calls `IndexMap::new`, which creates an empty map.
#[verifier::external_body]
fn sources_new() -> (m: IndexMap<String, Option<String>>)
    ensures
        source_entries(m) == Seq::<(Seq<char>, Option<Seq<char>>)>::empty(),
{
    IndexMap::new()
}

/// Stores the schema a binding declares.
///
/// Trusted: calls `IndexMap::insert`, which replaces the value of a present key in its
/// place and puts a new key last.
#[verifier::external_body]
fn sources_insert(m: &mut IndexMap<String, Option<String>>, k: String, v: Option<String>)
    ensures
        source_entries(*final(m)) == put(source_entries(*old(m)), k@, opt_view(v)),
{
    m.insert(k, v);
}

/// The schema stored under a binding, if the binding is present.
///
/// Trusted: calls `IndexMap::get` and clones the value it finds.
#[verifier::external_body]
fn sources_get(m: &IndexMap<String, Option<String>>, k: &str) -> (r: Option<Option<String>>)
    ensures
        match r {
            Some(o) => find_key(source_entries(*m), k@) == Some(opt_view(o)),
            None => find_key(source_entries(*m), k@) is None,
        },
{
    m.get(k).cloned()
}

// ---------------------------------------------------------------------------
// Bindings
// ---------------------------------------------------------------------------

/// Result of translating a binding.
enum BindingResult {
    /// A data source connection declaration (Sql.Database etc.) — no CTE emitted.
    DataSourceDecl { schema: Option<String> },
    /// A resolved data source table (schema + table) — emit CTE.
    DataSource { schema: Option<String>, table: String },
    /// A table operation (SELECT statement).
    TableOp(SelectStmt),
    /// A scalar binding (not a CTE).
    Scalar,
    /// An alias/reference to another binding.
    Reference(String),
    /// Raw SQL.
    Raw(String),
}

impl View for BindingResult {
    type V = BindingV;

    closed spec fn view(&self) -> BindingV {
        match self {
            BindingResult::DataSourceDecl { schema } => BindingV::DataSourceDecl(opt_view(*schema)),
            BindingResult::DataSource { schema, table } => BindingV::DataSource { schema: opt_view(*schema), table: table@ },
            BindingResult::TableOp(s) => BindingV::TableOp(s@),
            BindingResult::Scalar => BindingV::Scalar,
            BindingResult::Reference(r) => BindingV::Reference(r@),
            BindingResult::Raw(r) => BindingV::Raw(r@),
        }
    }
}

/// A binding translated through the table operations.
fn classify_table_op(expr: &MExpr, ctx: &mut TranslationContext) -> (r: BindingResult)
    ensures
        same_scope(*final(ctx), *old(ctx)),
        (r@, ctx_state(*final(ctx))) == classify_op(ctx_tables(*old(ctx)), ctx_state(*old(ctx)), expr@),
{
    match translate_table_expr(expr, ctx) {
        TableOpResult::Select(stmt) => BindingResult::TableOp(stmt),
        TableOpResult::SourceTable { schema, table } => BindingResult::DataSource { schema, table },
        TableOpResult::Reference(r) => BindingResult::Reference(r),
        TableOpResult::Raw(r) => BindingResult::Raw(r),
    }
}

/// Classify a binding and translate it.
fn classify_and_translate(expr: &MExpr, data_sources: &IndexMap<String, Option<String>>, ctx: &mut TranslationContext) -> (r: BindingResult)
    ensures
        same_scope(*final(ctx), *old(ctx)),
        (r@, ctx_state(*final(ctx))) == classify(ctx_tables(*old(ctx)), ctx_state(*old(ctx)), source_entries(*data_sources), expr@),
{
    match expr {
        MExpr::FunctionCall { name, .. } => {
            if str_eq(name.as_str(), "Sql.Database") {
                let resolved = resolve_source(expr);
                BindingResult::DataSourceDecl { schema: resolved.schema }
            } else if str_eq(name.as_str(), "Excel.Workbook") {
                BindingResult::DataSourceDecl { schema: None }
            } else {
                classify_table_op(expr, ctx)
            }
        },
        MExpr::FieldAccess { expr: source_expr, field } => {
            if str_eq(field.as_str(), "Data") {
                let resolved = resolve_source(expr);
                match resolved.table {
                    Some(table) => {
                        let schema = if let MExpr::IndexAccess { expr: parent, key } = &**source_expr {
                            assert(source_expr@ == MExprV::IndexAccess { expr: Box::new(parent@), key: Box::new(key@) });
                            let declared = match &**parent {
                                MExpr::Identifier(p) => match sources_get(data_sources, p.as_str()) {
                                    Some(o) => o,
                                    None => None,
                                },
                                _ => None,
                            };
                            assert(opt_view(declared) == declared_schema(source_entries(*data_sources), parent@));
                            match resolved.schema {
                                Some(s) => Some(s),
                                None => declared,
                            }
                        } else {
                            assert(!(source_expr@ is IndexAccess));
                            resolved.schema
                        };
                        BindingResult::DataSource { schema, table }
                    },
                    None => BindingResult::Reference(format_expr(expr)),
                }
            } else {
                classify_table_op(expr, ctx)
            }
        },
        MExpr::Identifier(ref_name) => BindingResult::Reference(ref_name.clone()),
        MExpr::Literal(_) => BindingResult::Scalar,
        _ => classify_table_op(expr, ctx),
    }
}

// ---------------------------------------------------------------------------
// Pre-scans of a `let`
// ---------------------------------------------------------------------------

/// Every binding name with a zero count.
fn zero_counts(bindings: &Vec<(String, MExpr)>) -> (m: IndexMap<String, usize>)
    ensures
        forall|k: Seq<char>| #[trigger] find_key(count_entries(m), k) == (if binding_names(fields_v(bindings@)).contains(k) {
            Some(0usize)
        } else {
            None
        }),
{
    let ghost names = binding_names(fields_v(bindings@));
    let mut m = counts_new();
    let mut i: usize = 0;
    while i < bindings.len()
        invariant
            i <= bindings.len(),
            names == binding_names(fields_v(bindings@)),
            forall|k: Seq<char>| #[trigger] find_key(count_entries(m), k) == (if names.take(i as int).contains(k) {
                Some(0usize)
            } else {
                None
            }),
        decreases bindings.len() - i,
    {
        let ghost before = count_entries(m);
        counts_insert(&mut m, bindings[i].0.clone(), 0);
        proof {
            let t0 = names.take(i as int);
            let t1 = names.take(i + 1);
            let n = bindings@[i as int].0@;
            assert(t1 =~= t0.push(n));
            assert forall|k: Seq<char>| #[trigger] find_key(count_entries(m), k) == (if t1.contains(k) {
                Some(0usize)
            } else {
                None
            }) by {
                lemma_find_put(before, n, 0usize, k);
                if t0.contains(k) {
                    let j = choose|j: int| 0 <= j < t0.len() && t0[j] == k;
                    assert(t1[j] == k);
                }
                if t1.contains(k) && k != n {
                    let j = choose|j: int| 0 <= j < t1.len() && t1[j] == k;
                    assert(t0[j] == k);
                }
                if k == n {
                    assert(t1[i as int] == k);
                }
            }
        }
        i += 1;
    }
    assert(names.take(bindings.len() as int) =~= names);
    m
}

/// How often the steps and the result of a `let` name each binding.
fn reference_counts(bindings: &Vec<(String, MExpr)>, body: &MExpr) -> (m: IndexMap<String, usize>)
    ensures
        forall|k: Seq<char>| #[trigger] find_key(count_entries(m), k) == (if binding_names(fields_v(bindings@)).contains(k) {
            Some(sat_add(0, total_refs(fields_v(bindings@), body@, k)))
        } else {
            None
        }),
{
    let ghost bv = fields_v(bindings@);
    let mut m = zero_counts(bindings);
    let ghost start = count_entries(m);
    proof {
        assert(bv.subrange(0, 0) =~= Seq::<(Seq<char>, MExprV)>::empty());
        assert forall|k: Seq<char>| #[trigger] find_key(start, k) == bump(find_key(start, k), occ_fields(bv.subrange(0, 0), k)) by {}
    }
    let mut i: usize = 0;
    while i < bindings.len()
        invariant
            i <= bindings.len(),
            bv == fields_v(bindings@),
            counted(start, count_entries(m), |k: Seq<char>| occ_fields(bv.subrange(0, i as int), k)),
        decreases bindings.len() - i,
    {
        let ghost mid = count_entries(m);
        count_refs(&bindings[i].1, &mut m);
        proof {
            lemma_counted_trans(
                start,
                mid,
                count_entries(m),
                |k: Seq<char>| occ_fields(bv.subrange(0, i as int), k),
                |k: Seq<char>| occ(bv[i as int].1, k),
            );
            assert(bv.subrange(0, i + 1).subrange(0, i as int) =~= bv.subrange(0, i as int));
            assert forall|k: Seq<char>| #[trigger] find_key(count_entries(m), k) == bump(
                find_key(start, k),
                occ_fields(bv.subrange(0, i + 1), k),
            ) by {
                assert(occ_fields(bv.subrange(0, i + 1), k) == occ_fields(bv.subrange(0, i as int), k) + occ(bv[i as int].1, k));
            }
        }
        i += 1;
    }
    assert(bv.subrange(0, bindings.len() as int) =~= bv);
    let ghost mid = count_entries(m);
    count_refs(body, &mut m);
    proof {
        lemma_counted_trans(start, mid, count_entries(m), |k: Seq<char>| occ_fields(bv, k), |k: Seq<char>| occ(body@, k));
        assert forall|k: Seq<char>| #[trigger] find_key(count_entries(m), k) == (if binding_names(bv).contains(k) {
            Some(sat_add(0, total_refs(bv, body@, k)))
        } else {
            None
        }) by {
            assert(find_key(count_entries(m), k) == bump(find_key(start, k), occ_fields(bv, k) + occ(body@, k)));
        }
    }
    m
}

/// The names that `Table.ExpandTableColumn` steps expand.
fn absorbed_joins(bindings: &Vec<(String, MExpr)>) -> (r: Vec<String>)
    ensures
        strings_view(r@) == absorbed_names(fields_v(bindings@)),
{
    let ghost bv = fields_v(bindings@);
    let mut out: Vec<String> = Vec::new();
    let mut i: usize = 0;
    assert(bv.subrange(0, 0) =~= Seq::<(Seq<char>, MExprV)>::empty());
    assert(strings_view(out@) =~= Seq::<Seq<char>>::empty());
    while i < bindings.len()
        invariant
            i <= bindings.len(),
            bv == fields_v(bindings@),
            strings_view(out@) == absorbed_names(bv.subrange(0, i as int)),
        decreases bindings.len() - i,
    {
        assert(bv.subrange(0, i + 1).drop_last() =~= bv.subrange(0, i as int));
        assert(bv.subrange(0, i + 1).last() == bv[i as int]);
        if let MExpr::FunctionCall { name, args } = &bindings[i].1 {
            assert(exprs_v(args@) =~= bv[i as int].1->FunctionCall_args);
            if str_eq(name.as_str(), "Table.ExpandTableColumn") && args.len() > 0 {
                if let MExpr::Identifier(ref_name) = &args[0] {
                    let ghost before = strings_view(out@);
                    out.push(ref_name.clone());
                    assert(strings_view(out@) =~= before.push(ref_name@));
                }
            }
        }
        i += 1;
    }
    assert(bv.subrange(0, bindings.len() as int) =~= bv);
    out
}

/// Adds the binding names of a `let` to the names `Table.Combine` may reference.
fn add_combine_bindings(bindings: &Vec<(String, MExpr)>, ctx: &mut TranslationContext)
    ensures
        final(ctx).env() == old(ctx).env(),
        final(ctx).known() == old(ctx).known(),
        final(ctx).joins() == old(ctx).joins(),
        final(ctx).log() == old(ctx).log(),
        final(ctx).combine() == old(ctx).combine() + binding_names(fields_v(bindings@)),
{
    let ghost names = binding_names(fields_v(bindings@));
    let ghost start = ctx.combine();
    let mut i: usize = 0;
    assert(start + names.take(0) =~= start);
    while i < bindings.len()
        invariant
            i <= bindings.len(),
            names == binding_names(fields_v(bindings@)),
            ctx.env() == old(ctx).env(),
            ctx.known() == old(ctx).known(),
            ctx.joins() == old(ctx).joins(),
            ctx.log() == old(ctx).log(),
            start == old(ctx).combine(),
            ctx.combine() == start + names.take(i as int),
        decreases bindings.len() - i,
    {
        let ghost before = ctx.combine();
        ctx.combine_bindings.push(bindings[i].0.clone());
        assert(ctx.combine() =~= before.push(names[i as int]));
        assert(start + names.take(i + 1) =~= (start + names.take(i as int)).push(names[i as int]));
        i += 1;
    }
    assert(names.take(bindings.len() as int) =~= names);
}

/// Records the column type that one `{"Col", type}` of a `Table.TransformColumnTypes` step
/// gives.
fn record_coercion(name: &String, spec: &MExpr, ctx: &mut TranslationContext)
    ensures
        final(ctx).env() == old(ctx).env(),
        final(ctx).combine() == old(ctx).combine(),
        final(ctx).joins() == old(ctx).joins(),
        final(ctx).log() == old(ctx).log(),
        final(ctx).known() == coerce_spec(old(ctx).env().dialect, old(ctx).known(), name@, spec@),
{
    if let MExpr::List(items) = spec {
        assert(exprs_v(items@) =~= spec@->List_0);
        if items.len() >= 2 {
            if let MExpr::Identifier(tn) = &items[1] {
                let col_name = extract_string(&items[0]);
                let m_type = resolve_m_type(tn.as_str());
                let sql_type = ctx.dialect.map_type(&m_type);
                if !str_contains(sql_type, "UNSUPPORTED") {
                    let mut types_key = name.clone();
                    types_key.append("_types");
                    columns_push_to(&mut ctx.known_columns, types_key, col_name.clone());
                    let mut type_key = name.clone();
                    type_key.append("_");
                    type_key.append(col_name.as_str());
                    type_key.append("_type");
                    let mut types: Vec<String> = Vec::new();
                    types.push(owned(sql_type));
                    assert(strings_view(types@) =~= seq![sql_type@]);
                    columns_insert(&mut ctx.known_columns, type_key, types);
                }
            }
        }
    }
}

/// Records the column types that the `Table.TransformColumnTypes` steps of a `let` give, for
/// a later `Table.ReplaceErrorValues`.
fn record_coercions(bindings: &Vec<(String, MExpr)>, ctx: &mut TranslationContext)
    ensures
        final(ctx).env() == old(ctx).env(),
        final(ctx).combine() == old(ctx).combine(),
        final(ctx).joins() == old(ctx).joins(),
        final(ctx).log() == old(ctx).log(),
        final(ctx).known() == coerce_all(old(ctx).env().dialect, old(ctx).known(), fields_v(bindings@)),
{
    let ghost bv = fields_v(bindings@);
    let ghost d = ctx.env().dialect;
    let ghost known0 = ctx.known();
    let mut i: usize = 0;
    assert(bv.subrange(0, 0) =~= Seq::<(Seq<char>, MExprV)>::empty());
    while i < bindings.len()
        invariant
            i <= bindings.len(),
            bv == fields_v(bindings@),
            d == ctx.env().dialect,
            ctx.env() == old(ctx).env(),
            ctx.combine() == old(ctx).combine(),
            ctx.joins() == old(ctx).joins(),
            ctx.log() == old(ctx).log(),
            known0 == old(ctx).known(),
            ctx.known() == coerce_all(d, known0, bv.subrange(0, i as int)),
        decreases bindings.len() - i,
    {
        assert(bv.subrange(0, i + 1).drop_last() =~= bv.subrange(0, i as int));
        assert(bv.subrange(0, i + 1).last() == bv[i as int]);
        let name = &bindings[i].0;
        if let MExpr::FunctionCall { name: fn_name, args } = &bindings[i].1 {
            assert(exprs_v(args@) =~= bv[i as int].1->FunctionCall_args);
            if str_eq(fn_name.as_str(), "Table.TransformColumnTypes") && args.len() >= 2 {
                if let MExpr::Identifier(_) = &args[0] {
                    if let MExpr::List(specs) = &args[1] {
                        let ghost xs = exprs_v(specs@);
                        assert(xs =~= exprs_v(args@)[1]->List_0);
                        let ghost k0 = ctx.known();
                        let mut j: usize = 0;
                        assert(xs.subrange(0, 0) =~= Seq::<MExprV>::empty());
                        while j < specs.len()
                            invariant
                                j <= specs.len(),
                                xs == exprs_v(specs@),
                                d == ctx.env().dialect,
                                ctx.env() == old(ctx).env(),
                                ctx.combine() == old(ctx).combine(),
                                ctx.joins() == old(ctx).joins(),
                                ctx.log() == old(ctx).log(),
                                ctx.known() == coerce_specs(d, k0, name@, xs.subrange(0, j as int)),
                            decreases specs.len() - j,
                        {
                            assert(xs.subrange(0, j + 1).drop_last() =~= xs.subrange(0, j as int));
                            assert(xs.subrange(0, j + 1).last() == xs[j as int]);
                            record_coercion(name, &specs[j], ctx);
                            j += 1;
                        }
                        assert(xs.subrange(0, specs.len() as int) =~= xs);
                    }
                }
            }
        }
        i += 1;
    }
    assert(bv.subrange(0, bindings.len() as int) =~= bv);
}

// ---------------------------------------------------------------------------
// The CTE chain
// ---------------------------------------------------------------------------

/// Models of CTEs.
pub open spec fn ctes_v(v: Seq<Cte>) -> Seq<CteV> {
    Seq::new(v.len(), |i: int| v[i]@)
}

/// Whether a count map holds, for each binding name, how often the `let` names it.
pub open spec fn counts_of(m: Seq<(Seq<char>, usize)>, bindings: Seq<(Seq<char>, MExprV)>, body: MExprV) -> bool {
    forall|k: Seq<char>| #[trigger] find_key(m, k) == (if binding_names(bindings).contains(k) {
        Some(sat_add(0, total_refs(bindings, body, k)))
    } else {
        None
    })
}

/// `SELECT * FROM <schema>.<table>`.
fn source_select_stmt(schema: Option<String>, table: String) -> (s: SelectStmt)
    ensures
        s@ == source_select(opt_view(schema), table@),
{
    let mut stmt = SelectStmt::new();
    let mut columns: Vec<SelectCol> = Vec::new();
    columns.push(SelectCol::Wildcard);
    stmt.columns = columns;
    stmt.from = Some(TableRef { schema, name: table, alias: None });
    assert(stmt@.columns =~= seq![SelectColV::Wildcard]);
    stmt
}

/// `SELECT <placeholder>`.
fn raw_select_stmt(raw: String) -> (s: SelectStmt)
    ensures
        s@ == raw_select(raw@),
{
    let ghost rv = raw@;
    let mut stmt = SelectStmt::new();
    let mut columns: Vec<SelectCol> = Vec::new();
    columns.push(SelectCol::Expr { expr: SqlExpr::Raw(raw), alias: None });
    stmt.columns = columns;
    assert(stmt@.columns =~= seq![SelectColV::Expr { expr: SqlExprV::Raw(rv), alias: None }]);
    stmt
}

/// Records a step under its binding name.
fn push_cte(ctes: &mut Vec<Cte>, name: &String, select: SelectStmt)
    ensures
        ctes_v(final(ctes)@) == ctes_v(old(ctes)@).push(CteV { name: name@, select: select@ }),
{
    let ghost before = ctes_v(ctes@);
    let ghost sv = select@;
    ctes.push(Cte { name: copy_string(name), select });
    assert(ctes_v(ctes@) =~= before.push(CteV { name: name@, select: sv }));
}

/// Translates one binding of a `let` and adds what it emits.
fn translate_binding(
    name: &String,
    expr: &MExpr,
    bindings: &Vec<(String, MExpr)>,
    body: &MExpr,
    counts: &IndexMap<String, usize>,
    absorbed: &Vec<String>,
    ctes: &mut Vec<Cte>,
    inlined: &mut Vec<String>,
    data_sources: &mut IndexMap<String, Option<String>>,
    ctx: &mut TranslationContext,
)
    requires
        binding_names(fields_v(bindings@)).contains(name@),
        counts_of(count_entries(*counts), fields_v(bindings@), body@),
        strings_view(absorbed@) == absorbed_names(fields_v(bindings@)),
    ensures
        same_scope(*final(ctx), *old(ctx)),
        (LetStateV {
            ctes: ctes_v(final(ctes)@),
            inlined: strings_view(final(inlined)@),
            sources: source_entries(*final(data_sources)),
            st: ctx_state(*final(ctx)),
        }) == let_step(
            ctx_tables(*old(ctx)),
            fields_v(bindings@),
            body@,
            LetStateV {
                ctes: ctes_v(old(ctes)@),
                inlined: strings_view(old(inlined)@),
                sources: source_entries(*old(data_sources)),
                st: ctx_state(*old(ctx)),
            },
            (name@, expr@),
        ),
{
    let ghost bv = fields_v(bindings@);
    proof {
        reveal_strlit("Table.NestedJoin");
    }
    let nested = match expr {
        MExpr::FunctionCall { name: fn_name, .. } => str_eq(fn_name.as_str(), "Table.NestedJoin"),
        _ => false,
    };
    if contains_name(absorbed, name.as_str()) && nested {
        let _absorbed_join = classify_and_translate(expr, data_sources, ctx);
        return;
    }
    let result = classify_and_translate(expr, data_sources, ctx);
    let count: usize = match counts_get(counts, name.as_str()) {
        Some(c) => c,
        None => 0,
    };
    assert(count == sat_add(0, total_refs(bv, body@, name@)));
    let should_inline = ctx.inline_singles && count <= 1;
    assert(should_inline == (ctx_tables(*old(ctx)).env.inline_singles && total_refs(bv, body@, name@) <= 1));
    match result {
        BindingResult::DataSourceDecl { schema } => {
            sources_insert(data_sources, name.clone(), schema);
        },
        BindingResult::DataSource { schema, table } => {
            push_cte(ctes, name, source_select_stmt(schema, table));
            if should_inline {
                let ghost before = strings_view(inlined@);
                inlined.push(copy_string(name));
                assert(strings_view(inlined@) =~= before.push(name@));
            }
        },
        BindingResult::TableOp(stmt) => {
            push_cte(ctes, name, stmt);
            if should_inline {
                let ghost before = strings_view(inlined@);
                inlined.push(copy_string(name));
                assert(strings_view(inlined@) =~= before.push(name@));
            }
        },
        BindingResult::Scalar => {},
        BindingResult::Reference(_) => {},
        BindingResult::Raw(raw) => {
            push_cte(ctes, name, raw_select_stmt(raw));
        },
    }
}

/// The final select from the body expression, once the steps are linked.
fn final_select(body: &MExpr, refs: &Vec<(String, TableRef)>) -> (s: SelectStmt)
    ensures
        s@ == final_linked(body@, refs_v(refs@)),
{
    let target = match body {
        MExpr::Identifier(name) => copy_string(name),
        _ => format_expr(body),
    };
    match find_ref(refs, target.as_str()) {
        Some(x) => {
            let mut stmt = SelectStmt::new();
            let mut columns: Vec<SelectCol> = Vec::new();
            columns.push(SelectCol::Wildcard);
            stmt.columns = columns;
            stmt.from = Some(TableRef { schema: None, name: x.name, alias: x.alias });
            assert(stmt@.columns =~= seq![SelectColV::Wildcard]);
            stmt
        },
        None => source_select_stmt(None, sanitize_cte_name(target.as_str())),
    }
}

/// Translate a complete M `let ... in` expression to a SQL query with CTEs.
pub fn translate_let_to_query(bindings: &Vec<(String, MExpr)>, body: &MExpr, ctx: &mut TranslationContext) -> (r: SqlQuery)
    ensures
        final(ctx).env() == old(ctx).env(),
        (r@, ctx_tables(*final(ctx)), ctx_state(*final(ctx))) == tr_let(ctx_tables(*old(ctx)), ctx_state(*old(ctx)), fields_v(bindings@), body@),
{
    let ghost bv = fields_v(bindings@);
    let counts = reference_counts(bindings, body);
    let absorbed = absorbed_joins(bindings);
    add_combine_bindings(bindings, ctx);
    record_coercions(bindings, ctx);
    let ghost t1 = ctx_tables(*ctx);
    assert(t1 == let_tables(ctx_tables(*old(ctx)), bv));
    let ghost init = LetStateV { ctes: Seq::empty(), inlined: Seq::empty(), sources: Seq::empty(), st: ctx_state(*old(ctx)) };
    let mut ctes: Vec<Cte> = Vec::new();
    let mut inlined: Vec<String> = Vec::new();
    assert(strings_view(inlined@) =~= Seq::<Seq<char>>::empty());
    let mut data_sources = sources_new();
    assert(ctes_v(ctes@) =~= Seq::<CteV>::empty());
    let mut i: usize = 0;
    while i < bindings.len()
        invariant
            i <= bindings.len(),
            bv == fields_v(bindings@),
            counts_of(count_entries(counts), bv, body@),
            strings_view(absorbed@) == absorbed_names(bv),
            t1 == ctx_tables(*ctx),
            ctx.env() == old(ctx).env(),
            (LetStateV {
                ctes: ctes_v(ctes@),
                inlined: strings_view(inlined@),
                sources: source_entries(data_sources),
                st: ctx_state(*ctx),
            }) == let_fold(t1, bv, body@, init, i as nat),
        decreases bindings.len() - i,
    {
        assert(binding_names(bv)[i as int] == bindings@[i as int].0@);
        assert(bv[i as int] == (bindings@[i as int].0@, bindings@[i as int].1@));
        translate_binding(
            &bindings[i].0,
            &bindings[i].1,
            bindings,
            body,
            &counts,
            &absorbed,
            &mut ctes,
            &mut inlined,
            &mut data_sources,
            ctx,
        );
        i += 1;
    }
    assert(ctes_v(ctes@) == link_ctes_v(ctes@));
    let (linked, refs) = link_steps(ctes, &inlined, ctx.dialect);
    SqlQuery { ctes: linked, final_select: final_select(body, &refs) }
}

} // verus!
