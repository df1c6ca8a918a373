//! Properties that hold of every input, stated over the models the functions' contracts use.
use vstd::prelude::*;
use crate::ast::{MDocumentV, MExprV};
use crate::maps::{distinct_keys, entry_keys, has_key, lemma_put_absent, sorted_keys, sorted_params, uniform_values};
use crate::cte::{
    LetStateV, absorbed_names, classify, is_nested_join, let_step, raw_select, sanitized, source_select, total_refs,
    valid_cte_name, cte_char,
};
use crate::error::{
    DiagLevel, DiagnosticV, credential_key, json_escape, json_opt, json_text, json_unescape, law_json_escape_round_trip,
    level_name, redaction_diag, redaction_diags,
};
use crate::text::nat_decimal;
use crate::pipeline::{
    RunV, doc_let_names, doc_output, documents_of, doc_params, run_params, illegal_file_char, joined_path, merge_params, output_path_of,
    param_warnings, process_docs, sanitized_filename, section_params,
};
use crate::resolver::{first_use_line, param_header_text};
use crate::sql::CteV;
use crate::table_spec::{StV, TablesV, agg_items, cast_items, combine_members, replaced_items, table_ref_of, tr_table};
use crate::context::{EnvV, LogV, OnError};
use crate::translation::lemma_tr_expr_keeps_errors;
use crate::cte::{let_fold, let_tables, tr_let};
use crate::link::{cte_names, law_linked_names_distinct};
use crate::translator::{tr_query, tr_section};
use crate::resolver::{binding_names, is_param, m_builtin, pnames, pnames_fields, pnames_seq};
use crate::text::{char_whitespace, is_digit, lemma_lex_order, lex_lt, starts_with, trim, trim_end, trim_start};
use crate::ast::MTypeV;
use crate::syntax::{m_type_name, type_of_name};
use crate::cast::{cleaned_type_name, type_unsupported};
use crate::dialect::{DialectId, is_unsupported_mapping, spec_dialect_name};

verus! {

// ---------------------------------------------------------------------------
// Parameters
// ---------------------------------------------------------------------------

/// A finite non-empty set of names has a least one in lexicographic order.
proof fn lemma_least_exists(s: Set<Seq<char>>)
    requires
        s.finite(),
        s.len() > 0,
    ensures
        exists|m: Seq<char>| s.contains(m) && (forall|k: Seq<char>| s.contains(k) && k != m ==> #[trigger] lex_lt(m, k)),
    decreases s.len(),
{
    let x = s.choose();
    assert(s.contains(x));
    if s.len() == 1 {
        assert forall|k: Seq<char>| s.contains(k) && k != x implies #[trigger] lex_lt(x, k) by {
            assert(s.remove(x).contains(k));
            assert(s.remove(x).len() == 0);
        }
    } else {
        let r = s.remove(x);
        lemma_least_exists(r);
        let m = choose|m: Seq<char>| r.contains(m) && (forall|k: Seq<char>| r.contains(k) && k != m ==> #[trigger] lex_lt(m, k));
        lemma_lex_order(x, m, x);
        if lex_lt(x, m) {
            assert forall|k: Seq<char>| s.contains(k) && k != x implies #[trigger] lex_lt(x, k) by {
                assert(r.contains(k));
                if k != m {
                    assert(lex_lt(m, k));
                    lemma_lex_order(x, m, k);
                }
            }
        } else {
            assert(x != m);
            assert(lex_lt(m, x));
            assert forall|k: Seq<char>| s.contains(k) && k != m implies #[trigger] lex_lt(m, k) by {
                if k != x {
                    assert(r.contains(k));
                }
            }
        }
    }
}

/// The parameter entries over a finite set of names exist: sorted, with those keys, each
/// `(name, file, 1)`.
pub proof fn lemma_sorted_params_exist(names: Set<Seq<char>>, file: Seq<char>)
    requires
        names.finite(),
    ensures
        sorted_keys(sorted_params(names, file)),
        entry_keys(sorted_params(names, file)) == names,
        uniform_values(sorted_params(names, file), file, 1),
    decreases names.len(),
{
    if names.len() == 0 {
        let es = Seq::<(Seq<char>, (Seq<char>, Seq<char>, usize))>::empty();
        assert(names =~= Set::<Seq<char>>::empty());
        assert(entry_keys(es) =~= names);
        assert(sorted_keys(es) && entry_keys(es) == names && uniform_values(es, file, 1));
    } else {
        lemma_least_exists(names);
        let m = choose|m: Seq<char>| names.contains(m) && (forall|k: Seq<char>| names.contains(k) && k != m ==> #[trigger] lex_lt(m, k));
        let rest_names = names.remove(m);
        lemma_sorted_params_exist(rest_names, file);
        let rest = sorted_params(rest_names, file);
        let es = seq![(m, (m, file, 1usize))] + rest;
        assert forall|i: int, j: int| 0 <= i < j < es.len() implies lex_lt(es[i].0, es[j].0) by {
            if i == 0 {
                assert(es[j] == rest[j - 1]);
                assert(entry_keys(rest).contains(rest[j - 1].0));
                assert(rest_names.contains(rest[j - 1].0));
            } else {
                assert(es[i] == rest[i - 1] && es[j] == rest[j - 1]);
            }
        }
        assert forall|k: Seq<char>| entry_keys(es).contains(k) <==> names.contains(k) by {
            if has_key(es, k) {
                let i = choose|i: int| 0 <= i < es.len() && es[i].0 == k;
                if i > 0 {
                    assert(rest[i - 1].0 == k);
                    assert(entry_keys(rest).contains(k));
                }
            }
            if names.contains(k) {
                if k == m {
                    assert(es[0].0 == k);
                } else {
                    assert(entry_keys(rest).contains(k));
                    let i = choose|i: int| 0 <= i < rest.len() && rest[i].0 == k;
                    assert(es[i + 1].0 == k);
                }
            }
        }
        assert(entry_keys(es) =~= names);
        assert forall|i: int| 0 <= i < es.len() implies es[i].1 == (es[i].0, file, 1usize) by {
            if i > 0 {
                assert(es[i] == rest[i - 1]);
            }
        }
        assert(sorted_keys(es) && entry_keys(es) == names && uniform_values(es, file, 1));
    }
}

/// What the parameters an expression uses satisfy: finitely many, none bound around it,
/// built in, or an input file stem.
pub proof fn lemma_pnames(e: MExprV, bound: Seq<Seq<char>>, stems: Seq<Seq<char>>)
    ensures
        pnames(e, bound, stems).finite(),
        forall|n: Seq<char>| #[trigger] pnames(e, bound, stems).contains(n) ==> is_param(n, bound, stems),
    decreases e,
{
    match e {
        MExprV::FunctionCall { name, args } => {
            lemma_pnames_seq(args, bound, stems);
        },
        MExprV::BinaryOp { left, right, .. } => {
            lemma_pnames(*left, bound, stems);
            lemma_pnames(*right, bound, stems);
        },
        MExprV::UnaryOp { expr, .. } => {
            lemma_pnames(*expr, bound, stems);
        },
        MExprV::Let { bindings, body } => {
            let inner = bound + binding_names(bindings);
            lemma_pnames_fields(bindings, inner, stems);
            lemma_pnames(*body, inner, stems);
            assert forall|n: Seq<char>| #[trigger] pnames(e, bound, stems).contains(n) implies is_param(n, bound, stems) by {
                assert(is_param(n, inner, stems));
                if bound.contains(n) {
                    let i = choose|i: int| 0 <= i < bound.len() && bound[i] == n;
                    assert(inner[i] == n);
                }
            }
        },
        MExprV::EachExpr(inner) => {
            lemma_pnames(*inner, bound, stems);
        },
        MExprV::FieldAccess { expr, .. } => {
            lemma_pnames(*expr, bound, stems);
        },
        MExprV::IndexAccess { expr, key } => {
            lemma_pnames(*expr, bound, stems);
            lemma_pnames(*key, bound, stems);
        },
        MExprV::List(items) => {
            lemma_pnames_seq(items, bound, stems);
        },
        MExprV::Record(fields) => {
            lemma_pnames_fields(fields, bound, stems);
        },
        MExprV::TypeAnnotation { expr, .. } => {
            lemma_pnames(*expr, bound, stems);
        },
        _ => {},
    }
}

/// What the parameters a sequence of expressions uses satisfy.
pub proof fn lemma_pnames_seq(s: Seq<MExprV>, bound: Seq<Seq<char>>, stems: Seq<Seq<char>>)
    ensures
        pnames_seq(s, bound, stems).finite(),
        forall|n: Seq<char>| #[trigger] pnames_seq(s, bound, stems).contains(n) ==> is_param(n, bound, stems),
    decreases s,
{
    if s.len() > 0 {
        lemma_pnames_seq(s.subrange(0, s.len() - 1), bound, stems);
        lemma_pnames(s[s.len() - 1], bound, stems);
    }
}

/// What the parameters the values of named expressions use satisfy.
pub proof fn lemma_pnames_fields(s: Seq<(Seq<char>, MExprV)>, bound: Seq<Seq<char>>, stems: Seq<Seq<char>>)
    ensures
        pnames_fields(s, bound, stems).finite(),
        forall|n: Seq<char>| #[trigger] pnames_fields(s, bound, stems).contains(n) ==> is_param(n, bound, stems),
    decreases s,
{
    if s.len() > 0 {
        lemma_pnames_fields(s.subrange(0, s.len() - 1), bound, stems);
        lemma_pnames(s[s.len() - 1].1, bound, stems);
    }
}

/// Sorted entries hold each key once.
proof fn lemma_sorted_distinct<T>(es: Seq<(Seq<char>, T)>)
    requires
        sorted_keys(es),
    ensures
        distinct_keys(es),
{
    assert forall|i: int, j: int| 0 <= i < j < es.len() implies es[i].0 != es[j].0 by {
        lemma_lex_order(es[i].0, es[j].0, es[j].0);
    }
}

/// Merging parameter entries keeps keys distinct and values `(key, file, 1)`, and gives
/// the union of the keys.
proof fn lemma_merge_params(
    acc: Seq<(Seq<char>, (Seq<char>, Seq<char>, usize))>,
    es: Seq<(Seq<char>, (Seq<char>, Seq<char>, usize))>,
    file: Seq<char>,
)
    requires
        distinct_keys(acc),
        uniform_values(acc, file, 1),
        uniform_values(es, file, 1),
    ensures
        distinct_keys(merge_params(acc, es)),
        uniform_values(merge_params(acc, es), file, 1),
        entry_keys(merge_params(acc, es)) == entry_keys(acc) + entry_keys(es),
    decreases es.len(),
{
    if es.len() == 0 {
        assert(entry_keys(es) =~= Set::<Seq<char>>::empty());
        assert(entry_keys(acc) + entry_keys(es) =~= entry_keys(acc));
    } else {
        let init = es.drop_last();
        assert(uniform_values(init, file, 1)) by {
            assert forall|i: int| 0 <= i < init.len() implies init[i].1 == (init[i].0, file, 1usize) by {
                assert(init[i] == es[i]);
            }
        }
        lemma_merge_params(acc, init, file);
        let m = merge_params(acc, init);
        let x = es.last();
        assert(x == es[es.len() - 1]);
        lemma_put_absent(m, x.0, x.1);
        let r = put_absent_of(m, x);
        assert forall|i: int| 0 <= i < r.len() implies r[i].1 == (r[i].0, file, 1usize) by {
            if i < m.len() {
                assert(r[i] == m[i]);
            } else {
                assert(r == m.push(x));
            }
        }
        assert forall|k: Seq<char>| entry_keys(es).contains(k) <==> (entry_keys(init).contains(k) || k == x.0) by {
            if has_key(es, k) {
                let i = choose|i: int| 0 <= i < es.len() && es[i].0 == k;
                if i < init.len() {
                    assert(init[i].0 == k);
                }
            }
            if has_key(init, k) {
                let i = choose|i: int| 0 <= i < init.len() && init[i].0 == k;
                assert(es[i].0 == k);
            }
        }
        assert(entry_keys(acc) + entry_keys(es) =~= (entry_keys(acc) + entry_keys(init)).insert(x.0));
    }
}

/// `put_absent` of an entry.
spec fn put_absent_of(
    m: Seq<(Seq<char>, (Seq<char>, Seq<char>, usize))>,
    x: (Seq<char>, (Seq<char>, Seq<char>, usize)),
) -> Seq<(Seq<char>, (Seq<char>, Seq<char>, usize))> {
    crate::maps::put_absent(m, x.0, x.1)
}

/// The parameters of the members of a section: each key once, each `(name, file, 1)`,
/// the union of what the members use.
proof fn lemma_section_params(bs: Seq<(bool, Seq<char>, MExprV)>, bound: Seq<Seq<char>>, stems: Seq<Seq<char>>, file: Seq<char>)
    ensures
        distinct_keys(section_params(bs, bound, stems, file)),
        uniform_values(section_params(bs, bound, stems, file), file, 1),
        forall|k: Seq<char>| #[trigger] entry_keys(section_params(bs, bound, stems, file)).contains(k) ==> is_param(k, bound, stems),
    decreases bs.len(),
{
    if bs.len() > 0 {
        lemma_section_params(bs.drop_last(), bound, stems, file);
        let names = pnames(bs.last().2, bound, stems);
        lemma_pnames(bs.last().2, bound, stems);
        lemma_sorted_params_exist(names, file);
        let acc = section_params(bs.drop_last(), bound, stems, file);
        lemma_merge_params(acc, sorted_params(names, file), file);
    } else {
        let es = section_params(bs, bound, stems, file);
        assert(es =~= Seq::<(Seq<char>, (Seq<char>, Seq<char>, usize))>::empty());
        assert forall|k: Seq<char>| #[trigger] entry_keys(es).contains(k) implies is_param(k, bound, stems) by {
            assert(!has_key(es, k));
        }
    }
}

/// The parameters detected in a document name each parameter once, each under the document's
/// file (with line 1 until it is located in the source text); none of them is bound by a
/// `let` of the document, built in, or an input file stem; the parameters of a single
/// expression are sorted by name.
pub proof fn law_document_parameters(doc: MDocumentV, stems: Seq<Seq<char>>, file: Seq<char>)
    ensures
        distinct_keys(doc_params(doc, stems, file)),
        uniform_values(doc_params(doc, stems, file), file, 1),
        forall|k: Seq<char>| #[trigger] entry_keys(doc_params(doc, stems, file)).contains(k) ==> {
            &&& !doc_let_names(doc).contains(k)
            &&& !m_builtin(k)
            &&& !stems.contains(k)
        },
        doc is Expression ==> sorted_keys(doc_params(doc, stems, file)),
{
    let bound = doc_let_names(doc);
    match doc {
        MDocumentV::Expression(e) => {
            lemma_pnames(e, bound, stems);
            lemma_sorted_params_exist(pnames(e, bound, stems), file);
            lemma_sorted_distinct(doc_params(doc, stems, file));
        },
        MDocumentV::Section { bindings, .. } => {
            lemma_section_params(bindings, bound, stems, file);
        },
    }
}

/// Whatever the error mode, a document that uses parameters reports one `PARAM_REFERENCE`
/// warning per parameter before any other diagnostic, each at the line where the parameter is
/// first used in the source text, counts each parameter once, and every query written from it
/// starts with the parameter header.
pub proof fn law_parameters_reported(run: RunV, name: Seq<char>, doc: MDocumentV)
    ensures
        ({
            let (qs, ds, _e, n) = doc_output(run, name, doc);
            let ps = run_params(run, doc);
            &&& n == ps.len()
            &&& forall|i: int| 0 <= i < ps.len() ==> (#[trigger] ps[i]).1.2 == first_use_line(run.text, ps[i].0)
            &&& ds.len() >= ps.len()
            &&& ds.take(ps.len() as int) == param_warnings(ps)
            &&& forall|i: int| 0 <= i < ps.len() ==> (#[trigger] ds[i]).code == "PARAM_REFERENCE"@ && ds[i].level == DiagLevel::Warn
            &&& ps.len() > 0 ==> forall|i: int| 0 <= i < qs.len() ==> starts_with(#[trigger] qs[i].1, param_header_text(ps))
        }),
{
    reveal(doc_output);
    let (qs, ds, _e, n) = doc_output(run, name, doc);
    let ps = run_params(run, doc);
    let pw = param_warnings(ps);
    assert(ds.take(ps.len() as int) =~= pw);
    assert forall|i: int| 0 <= i < ps.len() implies (#[trigger] ds[i]).code == "PARAM_REFERENCE"@ && ds[i].level == DiagLevel::Warn by {
        assert(ds[i] == pw[i]);
    }
    if ps.len() > 0 {
        assert forall|i: int| 0 <= i < qs.len() implies starts_with(#[trigger] qs[i].1, param_header_text(ps)) by {
            let h = param_header_text(ps);
            assert(qs[i].1.take(h.len() as int) =~= h);
        }
    }
}

/// The documents of a source text are processed independently: the result for two runs of
/// documents is the two results joined.
pub proof fn law_documents_independent(run: RunV, docs1: Seq<(Seq<char>, MDocumentV)>, docs2: Seq<(Seq<char>, MDocumentV)>)
    ensures
        process_docs(run, docs1 + docs2).queries == process_docs(run, docs1).queries + process_docs(run, docs2).queries,
        process_docs(run, docs1 + docs2).diagnostics == process_docs(run, docs1).diagnostics + process_docs(
            run,
            docs2,
        ).diagnostics,
        process_docs(run, docs1 + docs2).has_errors == (process_docs(run, docs1).has_errors || process_docs(
            run,
            docs2,
        ).has_errors),
    decreases docs2.len(),
{
    if docs2.len() == 0 {
        assert(docs1 + docs2 =~= docs1);
        assert(process_docs(run, docs1).queries + process_docs(run, docs2).queries =~= process_docs(run, docs1).queries);
        assert(process_docs(run, docs1).diagnostics + process_docs(run, docs2).diagnostics =~= process_docs(
            run,
            docs1,
        ).diagnostics);
    } else {
        law_documents_independent(run, docs1, docs2.drop_last());
        assert((docs1 + docs2).drop_last() =~= docs1 + docs2.drop_last());
        assert((docs1 + docs2).last() == docs2.last());
        let a = process_docs(run, docs1);
        let b = process_docs(run, docs2.drop_last());
        let (qs, ds, _e, _n) = doc_output(run, docs2.last().0, docs2.last().1);
        assert(a.queries + b.queries + qs =~= a.queries + (b.queries + qs));
        assert(a.diagnostics + b.diagnostics + ds =~= a.diagnostics + (b.diagnostics + ds));
    }
}

/// The names of the shared members of a section, in order.
pub open spec fn shared_names(bs: Seq<(bool, Seq<char>, MExprV)>) -> Seq<Seq<char>>
    decreases bs.len(),
{
    if bs.len() == 0 {
        Seq::empty()
    } else if bs.last().0 {
        shared_names(bs.drop_last()).push(bs.last().1)
    } else {
        shared_names(bs.drop_last())
    }
}

/// A section gives one query per shared member, named by the member, in order.
pub proof fn law_section_queries(t: TablesV, st: StV, bs: Seq<(bool, Seq<char>, MExprV)>)
    ensures
        tr_section(t, st, bs).0.len() == shared_names(bs).len(),
        forall|i: int| 0 <= i < shared_names(bs).len() ==> #[trigger] tr_section(t, st, bs).0[i].0 == shared_names(bs)[i],
    decreases bs.len(),
{
    if bs.len() > 0 {
        law_section_queries(t, st, bs.drop_last());
    }
}

/// No step of a `let` is dropped silently: an untranslatable step, a table operation and a
/// table of a data source are each recorded under their binding name (untranslatable steps
/// holding their placeholder), unless a later step expands the step as a nested join; a
/// recorded table or table operation is marked for inlining exactly when single-use CTEs are
/// inlined and the step is used at most once, and an untranslatable step never is.
pub proof fn law_steps_emit_ctes(t: TablesV, bindings: Seq<(Seq<char>, MExprV)>, body: MExprV, acc: LetStateV, b: (Seq<char>, MExprV))
    ensures
        ({
            let (res, _st) = classify(t, acc.st, acc.sources, b.1);
            let after = let_step(t, bindings, body, acc, b);
            let absorbed = absorbed_names(bindings).contains(b.0) && is_nested_join(b.1);
            let inline = t.env.inline_singles && total_refs(bindings, body, b.0) <= 1;
            &&& (!absorbed && res is Raw) ==> after.ctes == acc.ctes.push(
                CteV { name: b.0, select: raw_select(res->Raw_0) },
            ) && after.inlined == acc.inlined
            &&& (!absorbed && res is TableOp) ==> after.ctes == acc.ctes.push(
                CteV { name: b.0, select: res->TableOp_0 },
            ) && after.inlined == (if inline { acc.inlined.push(b.0) } else { acc.inlined })
            &&& (!absorbed && res is DataSource) ==> after.ctes == acc.ctes.push(
                CteV { name: b.0, select: source_select(res->DataSource_schema, res->DataSource_table) },
            ) && after.inlined == (if inline { acc.inlined.push(b.0) } else { acc.inlined })
        }),
{
}

/// Redaction reports only which key it redacted, never any text of the input: each of its
/// diagnostics is the security diagnostic of one of the credential keys.
pub proof fn law_redaction_reports_keys(input: Seq<char>, file: Option<Seq<char>>, k: nat)
    ensures
        forall|i: int| 0 <= i < redaction_diags(input, file, k).len() ==> exists|j: int| 0 <= j < k
            && #[trigger] redaction_diags(input, file, k)[i] == redaction_diag(credential_key(j), file),
    decreases k,
{
    if k > 0 {
        law_redaction_reports_keys(input, file, (k - 1) as nat);
        let before = redaction_diags(input, file, (k - 1) as nat);
        let now = redaction_diags(input, file, k);
        assert forall|i: int| 0 <= i < now.len() implies exists|j: int| 0 <= j < k && #[trigger] now[i] == redaction_diag(
            credential_key(j),
            file,
        ) by {
            if i < before.len() {
                assert(now[i] == before[i]);
                let j = choose|j: int| 0 <= j < k - 1 && before[i] == redaction_diag(credential_key(j), file);
                assert(now[i] == redaction_diag(credential_key(j), file));
            } else {
                assert(now[i] == redaction_diag(credential_key(k - 1), file));
            }
        }
    }
}

// ---------------------------------------------------------------------------
// File names and paths
// ---------------------------------------------------------------------------

/// A sanitized file name has the name's length and no illegal character; sanitizing it again
/// changes nothing, and a name without illegal characters is its own sanitized form.
pub proof fn law_sanitized_filename(name: Seq<char>)
    ensures
        sanitized_filename(name).len() == name.len(),
        forall|i: int| 0 <= i < name.len() ==> !illegal_file_char(#[trigger] sanitized_filename(name)[i]),
        sanitized_filename(sanitized_filename(name)) == sanitized_filename(name),
        (forall|i: int| 0 <= i < name.len() ==> !illegal_file_char(#[trigger] name[i])) ==> sanitized_filename(name) == name,
{
    assert(sanitized_filename(sanitized_filename(name)) =~= sanitized_filename(name));
    if forall|i: int| 0 <= i < name.len() ==> !illegal_file_char(#[trigger] name[i]) {
        assert(sanitized_filename(name) =~= name);
    }
}

/// The output path of a query is its sanitized name with `.sql`, one path component
/// (holding no `/`), joined to the output directory.
pub proof fn law_output_path(dir: Seq<char>, query_name: Seq<char>)
    ensures
        output_path_of(dir, query_name) == joined_path(dir, sanitized_filename(query_name) + ".sql"@),
        !(sanitized_filename(query_name) + ".sql"@).contains('/'),
{
    reveal_strlit(".sql");
    let f = sanitized_filename(query_name) + ".sql"@;
    law_sanitized_filename(query_name);
    if f.contains('/') {
        let i = choose|i: int| 0 <= i < f.len() && f[i] == '/';
        if i < query_name.len() {
            assert(f[i] == sanitized_filename(query_name)[i]);
        }
    }
}

/// A CTE name is a valid SQL identifier: not empty, made of ASCII letters, digits and `_`,
/// not starting with a digit; a valid name is its own sanitized form, so sanitizing twice
/// changes nothing.
pub proof fn law_cte_names_valid(name: Seq<char>)
    ensures
        valid_cte_name(sanitized(name)),
        valid_cte_name(name) ==> sanitized(name) == name,
        sanitized(sanitized(name)) == sanitized(name),
{
    lemma_valid_cte_name_fixed(name);
    reveal_strlit("cte");
    let mapped = Seq::new(name.len(), |i: int| if cte_char(name[i]) { name[i] } else { '_' });
    let r = if mapped.len() == 0 { "cte"@ } else { mapped };
    if mapped.len() == 0 {
        assert(r == seq!['c', 't', 'e']);
    }
    assert forall|i: int| 0 <= i < r.len() implies cte_char(#[trigger] r[i]) by {
        if mapped.len() > 0 {
            assert(r[i] == mapped[i]);
        }
    }
    if r.len() > 0 && is_digit(r[0]) {
        let p = seq!['_'] + r;
        assert forall|i: int| 0 <= i < p.len() implies cte_char(#[trigger] p[i]) by {
            if i > 0 {
                assert(p[i] == r[i - 1]);
            }
        }
    }
    lemma_valid_cte_name_fixed(sanitized(name));
}

/// A valid CTE name is its own sanitized form.
proof fn lemma_valid_cte_name_fixed(s: Seq<char>)
    ensures
        valid_cte_name(s) ==> sanitized(s) == s,
{
    if valid_cte_name(s) {
        let mapped = Seq::new(s.len(), |i: int| if cte_char(s[i]) { s[i] } else { '_' });
        assert(mapped =~= s);
    }
}

// ---------------------------------------------------------------------------
// Errors are reported only in the `fail` mode
// ---------------------------------------------------------------------------

/// Outside the `fail` mode, the aggregation columns report no error.
proof fn lemma_agg_items_keeps_errors(t: TablesV, log: LogV, specs: Seq<MExprV>)
    requires
        t.env.on_error != OnError::Fail,
    ensures
        agg_items(t, log, specs).1.has_errors == log.has_errors,
    decreases specs.len(),
{
    if specs.len() > 0 {
        lemma_agg_items_keeps_errors(t, log, specs.drop_last());
        if let MExprV::List(items) = specs.last() {
            if items.len() >= 2 {
                lemma_tr_expr_keeps_errors(t.env, agg_items(t, log, specs.drop_last()).1, items[1]);
            }
        }
    }
}

/// Outside the `fail` mode, the cast columns report no error.
proof fn lemma_cast_items_keeps_errors(t: TablesV, log: LogV, specs: Seq<MExprV>)
    ensures
        cast_items(t, log, specs).1.has_errors == log.has_errors,
    decreases specs.len(),
{
    if specs.len() > 0 {
        lemma_cast_items_keeps_errors(t, log, specs.drop_last());
    }
}

/// Outside the `fail` mode, the members of a `Table.Combine` report no error.
proof fn lemma_combine_keeps_errors(t: TablesV, log: LogV, items: Seq<MExprV>)
    requires
        t.env.on_error != OnError::Fail,
    ensures
        combine_members(t, log, items).1.has_errors == log.has_errors,
    decreases items.len(),
{
    if items.len() > 0 {
        lemma_combine_keeps_errors(t, log, items.drop_last());
    }
}

/// Outside the `fail` mode, the replacement columns report no error.
proof fn lemma_replaced_items_keeps_errors(t: TablesV, log: LogV, table: Seq<char>, specs: Seq<MExprV>)
    requires
        t.env.on_error != OnError::Fail,
    ensures
        replaced_items(t, log, table, specs).1.has_errors == log.has_errors,
    decreases specs.len(),
{
    if specs.len() > 0 {
        lemma_replaced_items_keeps_errors(t, log, table, specs.drop_last());
    }
}

/// Outside the `fail` mode, translating a table operation reports no error.
pub proof fn lemma_tr_table_keeps_errors(t: TablesV, st: StV, e: MExprV)
    requires
        t.env.on_error != OnError::Fail,
    ensures
        tr_table(t, st, e).1.log.has_errors == st.log.has_errors,
{
    if let MExprV::FunctionCall { name, args } = e {
        if name == "Table.SelectRows"@ {
            if args.len() >= 2 {
                lemma_tr_expr_keeps_errors(t.env, st.log, args[1]);
            }
        } else if name == "Table.Group"@ {
            if args.len() >= 3 {
                if let MExprV::List(specs) = args[2] {
                    lemma_agg_items_keeps_errors(t, st.log, specs);
                }
            }
        } else if name == "Table.AddColumn"@ {
            if args.len() >= 3 {
                lemma_tr_expr_keeps_errors(t.env, st.log, args[2]);
            }
        } else if name == "Table.Combine"@ {
            if args.len() > 0 {
                if let MExprV::List(items) = args[0] {
                    lemma_combine_keeps_errors(t, st.log, items);
                }
            }
        } else if name == "Table.TransformColumnTypes"@ {
            if args.len() >= 2 {
                if let MExprV::List(specs) = args[1] {
                    lemma_cast_items_keeps_errors(t, st.log, specs);
                }
            }
        } else if name == "Table.ReplaceErrorValues"@ {
            if args.len() >= 2 {
                if let MExprV::List(specs) = args[1] {
                    lemma_replaced_items_keeps_errors(t, st.log, table_ref_of(args[0]), specs);
                }
            }
        }
    }
}

/// Outside the `fail` mode, translating the bindings of a `let` reports no error.
proof fn lemma_let_fold_keeps_errors(t: TablesV, bs: Seq<(Seq<char>, MExprV)>, body: MExprV, init: LetStateV, n: nat)
    requires
        t.env.on_error != OnError::Fail,
    ensures
        let_fold(t, bs, body, init, n).st.log.has_errors == init.st.log.has_errors,
    decreases n,
{
    if n > 0 && n <= bs.len() {
        lemma_let_fold_keeps_errors(t, bs, body, init, (n - 1) as nat);
        let acc = let_fold(t, bs, body, init, (n - 1) as nat);
        lemma_tr_table_keeps_errors(t, acc.st, bs[n - 1].1);
    }
}

/// Outside the `fail` mode, translating the shared members of a section reports no error.
proof fn lemma_section_keeps_errors(t: TablesV, st: StV, bs: Seq<(bool, Seq<char>, MExprV)>)
    requires
        t.env.on_error != OnError::Fail,
    ensures
        tr_section(t, st, bs).2.log.has_errors == st.log.has_errors,
        tr_section(t, st, bs).1.env == t.env,
    decreases bs.len(),
{
    if bs.len() > 0 {
        lemma_section_keeps_errors(t, st, bs.drop_last());
        let (_qs, t1, st1) = tr_section(t, st, bs.drop_last());
        lemma_query_keeps_errors(t1, st1, bs.last().2);
    }
}

/// Outside the `fail` mode, translating one query reports no error.
proof fn lemma_query_keeps_errors(t: TablesV, st: StV, e: MExprV)
    requires
        t.env.on_error != OnError::Fail,
    ensures
        tr_query(t, st, e).2.log.has_errors == st.log.has_errors,
        tr_query(t, st, e).1.env == t.env,
{
    match e {
        MExprV::Let { bindings, body } => {
            let t1 = let_tables(t, bindings);
            lemma_let_fold_keeps_errors(
                t1,
                bindings,
                *body,
                LetStateV { ctes: Seq::empty(), inlined: Seq::empty(), sources: Seq::empty(), st },
                bindings.len(),
            );
        },
        _ => {
            let bs = seq![("Result"@, e)];
            let t1 = let_tables(t, bs);
            lemma_let_fold_keeps_errors(
                t1,
                bs,
                MExprV::Identifier("Result"@),
                LetStateV { ctes: Seq::empty(), inlined: Seq::empty(), sources: Seq::empty(), st },
                bs.len(),
            );
        },
    }
}

/// Translation errors come only from the `fail` mode: in the `comment` and `warn` modes no
/// document of any source reports one.
pub proof fn law_errors_only_when_failing(run: RunV, docs: Seq<(Seq<char>, MDocumentV)>)
    requires
        run.on_error != OnError::Fail,
    ensures
        !process_docs(run, docs).has_errors,
    decreases docs.len(),
{
    if docs.len() > 0 {
        law_errors_only_when_failing(run, docs.drop_last());
        reveal(doc_output);
        let doc = docs.last().1;
        let ps = run_params(run, doc);
        let env = EnvV {
            dialect: run.dialect,
            on_error: run.on_error,
            inline_singles: run.inline_singles,
            file: run.file,
            params: entry_keys(ps),
            stems: run.stems,
        };
        let t0 = TablesV { env, known: Seq::empty(), combine: Seq::empty() };
        let st0 = StV { log: LogV { diags: Seq::empty(), has_errors: false }, joins: Seq::empty() };
        match doc {
            MDocumentV::Expression(e) => lemma_query_keeps_errors(t0, st0, e),
            MDocumentV::Section { bindings, .. } => lemma_section_keeps_errors(t0, st0, bindings),
        }
    }
}

// ---------------------------------------------------------------------------
// Type names
// ---------------------------------------------------------------------------

/// Writing an M type's name and reading it back gives the type again, for every type but a
/// type of unknown name that reads as a known one.
pub proof fn law_type_names_round_trip(t: MTypeV)
    requires
        t is Unknown ==> type_of_name(t->Unknown_0) is Unknown,
    ensures
        type_of_name(m_type_name(t)) == t,
{
    reveal_strlit("text");
    reveal_strlit("number");
    reveal_strlit("integer");
    reveal_strlit("logical");
    reveal_strlit("date");
    reveal_strlit("datetime");
    reveal_strlit("datetimezone");
    reveal_strlit("duration");
    reveal_strlit("binary");
    reveal_strlit("table");
    reveal_strlit("any");
    reveal_strlit("Int64.Type");
    assert("text"@.len() == 4);
    assert("text"@[0] == 't');
    assert("text"@[1] == 'e');
    assert("text"@[2] == 'x');
    assert("number"@.len() == 6);
    assert("number"@[0] == 'n');
    assert("number"@[1] == 'u');
    assert("number"@[2] == 'm');
    assert("integer"@.len() == 7);
    assert("integer"@[0] == 'i');
    assert("integer"@[1] == 'n');
    assert("integer"@[2] == 't');
    assert("logical"@.len() == 7);
    assert("logical"@[0] == 'l');
    assert("logical"@[1] == 'o');
    assert("logical"@[2] == 'g');
    assert("date"@.len() == 4);
    assert("date"@[0] == 'd');
    assert("date"@[1] == 'a');
    assert("date"@[2] == 't');
    assert("datetime"@.len() == 8);
    assert("datetime"@[0] == 'd');
    assert("datetime"@[1] == 'a');
    assert("datetime"@[2] == 't');
    assert("datetimezone"@.len() == 12);
    assert("datetimezone"@[0] == 'd');
    assert("datetimezone"@[1] == 'a');
    assert("datetimezone"@[2] == 't');
    assert("duration"@.len() == 8);
    assert("duration"@[0] == 'd');
    assert("duration"@[1] == 'u');
    assert("duration"@[2] == 'r');
    assert("binary"@.len() == 6);
    assert("binary"@[0] == 'b');
    assert("binary"@[1] == 'i');
    assert("binary"@[2] == 'n');
    assert("table"@.len() == 5);
    assert("table"@[0] == 't');
    assert("table"@[1] == 'a');
    assert("table"@[2] == 'b');
    assert("any"@.len() == 3);
    assert("any"@[0] == 'a');
    assert("any"@[1] == 'n');
    assert("any"@[2] == 'y');
    assert("Int64.Type"@.len() == 10);
    assert("Int64.Type"@[0] == 'I');
    assert("Int64.Type"@[1] == 'n');
    assert("Int64.Type"@[2] == 't');
    match t {
        MTypeV::Text => {
            assert(m_type_name(t) == "text"@);
            assert(type_of_name("text"@) == MTypeV::Text);
        },
        MTypeV::Number => { assert(type_of_name(m_type_name(t)) == t); },
        MTypeV::Integer => { assert(type_of_name(m_type_name(t)) == t); },
        MTypeV::Logical => { assert(type_of_name(m_type_name(t)) == t); },
        MTypeV::Date => { assert(type_of_name(m_type_name(t)) == t); },
        MTypeV::DateTime => { assert(type_of_name(m_type_name(t)) == t); },
        MTypeV::DateTimeZone => { assert(type_of_name(m_type_name(t)) == t); },
        MTypeV::Duration => { assert(type_of_name(m_type_name(t)) == t); },
        MTypeV::Binary => { assert(type_of_name(m_type_name(t)) == t); },
        MTypeV::Table => { assert(type_of_name(m_type_name(t)) == t); },
        MTypeV::Any => { assert(type_of_name(m_type_name(t)) == t); },
        MTypeV::Unknown(_) => { assert(type_of_name(m_type_name(t)) == t); },
    }
}

/// `type <name>`, for a name without surrounding whitespace, resolves to the type of that
/// name.
pub proof fn law_type_expression_names(n: Seq<char>)
    requires
        n.len() > 0,
        !char_whitespace(n[0]),
        !char_whitespace(n.last()),
    ensures
        cleaned_type_name("type "@ + n) == n,
        type_of_name(cleaned_type_name("type "@ + n)) == type_of_name(n),
{
    reveal_strlit("type ");
    let s = "type "@ + n;
    assert(s[0] == 't');
    assert(s.last() == n.last());
    assert(trim_start(s) == s);
    assert(trim_end(s) == s);
    assert(trim(s) == s);
    assert(s.take(5) =~= "type "@);
    assert(starts_with(trim(s), "type "@));
    assert(trim(s).skip(5) =~= n);
    assert(trim_start(n) == n);
    assert(trim_end(n) == n);
}

/// A type is unsupported in a dialect exactly when the dialect maps it to the
/// unsupported-type placeholder.
pub proof fn law_unsupported_types_agree(t: MTypeV, d: DialectId)
    ensures
        type_unsupported(t, spec_dialect_name(d)) <==> is_unsupported_mapping(d, t),
{
    reveal_strlit("/* UNSUPPORTED_TYPE */");
    reveal_strlit("BIGINT");
    reveal_strlit("BIT");
    reveal_strlit("BOOL");
    reveal_strlit("BOOLEAN");
    reveal_strlit("DATE");
    reveal_strlit("DATETIME");
    reveal_strlit("DATETIME2");
    reveal_strlit("DATETIMEOFFSET");
    reveal_strlit("DOUBLE PRECISION");
    reveal_strlit("DOUBLE");
    reveal_strlit("FLOAT");
    reveal_strlit("FLOAT64");
    reveal_strlit("INT64");
    reveal_strlit("NVARCHAR(MAX)");
    reveal_strlit("STRING");
    reveal_strlit("TEXT");
    reveal_strlit("TIMESTAMP");
    reveal_strlit("TIMESTAMPTZ");
    reveal_strlit("TIMESTAMP_NTZ");
    reveal_strlit("TIMESTAMP_TZ");
    reveal_strlit("VARCHAR");
    reveal_strlit("INTERVAL");
    reveal_strlit("VARBINARY(MAX)");
    reveal_strlit("BYTEA");
    reveal_strlit("BYTES");
    reveal_strlit("BINARY");
    reveal_strlit("BLOB");
    reveal_strlit("SQL_VARIANT");
    reveal_strlit("VARIANT");
    reveal_strlit("tsql");
    reveal_strlit("postgres");
    reveal_strlit("bigquery");
    reveal_strlit("snowflake");
    reveal_strlit("duckdb");
    assert("/* UNSUPPORTED_TYPE */"@.len() == 22);
    assert("/* UNSUPPORTED_TYPE */"@[0] == '/');
    assert("BIGINT"@.len() == 6);
    assert("BIGINT"@[0] == 'B');
    assert("BIT"@.len() == 3);
    assert("BIT"@[0] == 'B');
    assert("BOOL"@.len() == 4);
    assert("BOOL"@[0] == 'B');
    assert("BOOLEAN"@.len() == 7);
    assert("BOOLEAN"@[0] == 'B');
    assert("DATE"@.len() == 4);
    assert("DATE"@[0] == 'D');
    assert("DATETIME"@.len() == 8);
    assert("DATETIME"@[0] == 'D');
    assert("DATETIME2"@.len() == 9);
    assert("DATETIME2"@[0] == 'D');
    assert("DATETIMEOFFSET"@.len() == 14);
    assert("DATETIMEOFFSET"@[0] == 'D');
    assert("DOUBLE PRECISION"@.len() == 16);
    assert("DOUBLE PRECISION"@[0] == 'D');
    assert("DOUBLE"@.len() == 6);
    assert("DOUBLE"@[0] == 'D');
    assert("FLOAT"@.len() == 5);
    assert("FLOAT"@[0] == 'F');
    assert("FLOAT64"@.len() == 7);
    assert("FLOAT64"@[0] == 'F');
    assert("INT64"@.len() == 5);
    assert("INT64"@[0] == 'I');
    assert("NVARCHAR(MAX)"@.len() == 13);
    assert("NVARCHAR(MAX)"@[0] == 'N');
    assert("STRING"@.len() == 6);
    assert("STRING"@[0] == 'S');
    assert("TEXT"@.len() == 4);
    assert("TEXT"@[0] == 'T');
    assert("TIMESTAMP"@.len() == 9);
    assert("TIMESTAMP"@[0] == 'T');
    assert("TIMESTAMPTZ"@.len() == 11);
    assert("TIMESTAMPTZ"@[0] == 'T');
    assert("TIMESTAMP_NTZ"@.len() == 13);
    assert("TIMESTAMP_NTZ"@[0] == 'T');
    assert("TIMESTAMP_TZ"@.len() == 12);
    assert("TIMESTAMP_TZ"@[0] == 'T');
    assert("VARCHAR"@.len() == 7);
    assert("VARCHAR"@[0] == 'V');
    assert("INTERVAL"@.len() == 8);
    assert("INTERVAL"@[0] == 'I');
    assert("VARBINARY(MAX)"@.len() == 14);
    assert("VARBINARY(MAX)"@[0] == 'V');
    assert("BYTEA"@.len() == 5);
    assert("BYTEA"@[0] == 'B');
    assert("BYTES"@.len() == 5);
    assert("BYTES"@[0] == 'B');
    assert("BINARY"@.len() == 6);
    assert("BINARY"@[0] == 'B');
    assert("BLOB"@.len() == 4);
    assert("BLOB"@[0] == 'B');
    assert("SQL_VARIANT"@.len() == 11);
    assert("SQL_VARIANT"@[0] == 'S');
    assert("VARIANT"@.len() == 7);
    assert("VARIANT"@[0] == 'V');
    assert("tsql"@.len() == 4);
    assert("tsql"@[0] == 't');
    assert("postgres"@.len() == 8);
    assert("postgres"@[0] == 'p');
    assert("bigquery"@.len() == 8);
    assert("bigquery"@[0] == 'b');
    assert("snowflake"@.len() == 9);
    assert("snowflake"@[0] == 's');
    assert("duckdb"@.len() == 6);
    assert("duckdb"@[0] == 'd');
    match t {
        MTypeV::Text => {},
        MTypeV::Number => {},
        MTypeV::Integer => {},
        MTypeV::Logical => {},
        MTypeV::Date => {},
        MTypeV::DateTime => {},
        MTypeV::DateTimeZone => {},
        MTypeV::Duration => {},
        MTypeV::Binary => {},
        MTypeV::Table => {},
        MTypeV::Any => {},
        MTypeV::Unknown(_) => {},
    }
}

/// Processing is deterministic: the same source text, file, stem, settings and input stems
/// always give the same result — the same queries in the same order, the same diagnostics,
/// the same error flag and parameter count, or the same parse error.
pub proof fn law_processing_is_deterministic(
    run1: RunV,
    run2: RunV,
    source: Seq<char>,
    file: Seq<char>,
    stem: Seq<char>,
)
    requires
        run1 == run2,
        run1.file == file,
        run1.text == source,
    ensures
        documents_of(source, file, stem) == documents_of(source, run2.file, stem),
        match documents_of(source, file, stem) {
            Ok(docs) => process_docs(run1, docs) == process_docs(run2, docs),
            Err(_) => true,
        },
{
}

/// The CTEs of a translated `let` have pairwise distinct names.
pub proof fn law_let_ctes_distinct(t: TablesV, st: StV, bindings: Seq<(Seq<char>, MExprV)>, body: MExprV)
    ensures
        cte_names(tr_let(t, st, bindings, body).0.ctes).no_duplicates(),
{
    let t1 = let_tables(t, bindings);
    let s = let_fold(
        t1,
        bindings,
        body,
        LetStateV { ctes: Seq::empty(), inlined: Seq::empty(), sources: Seq::empty(), st },
        bindings.len(),
    );
    law_linked_names_distinct(t.env.dialect, s.inlined, s.ctes, s.ctes.len());
}

/// The JSON log line of a diagnostic (`json_text`, what `Diagnostic::to_json` returns) puts
/// each string field escaped between quotes, and each escaped field is a valid JSON string
/// body that decodes back to the field.
pub proof fn law_diagnostic_json_decodes(d: DiagnosticV)
    ensures
        json_text(d) == "{\"level\":\""@ + level_name(d.level) + "\",\"file\":"@ + json_opt(d.file) + ",\"line\":"@ + (
        match d.line {
            Some(l) => nat_decimal(l as nat),
            None => "null"@,
        }) + ",\"code\":\""@ + json_escape(d.code) + "\",\"message\":\""@ + json_escape(d.message)
            + "\",\"fragment\":"@ + json_opt(d.fragment) + "}"@,
        json_unescape(json_escape(d.code)) == Some(d.code),
        json_unescape(json_escape(d.message)) == Some(d.message),
        d.file matches Some(f) ==> json_opt(d.file) == "\""@ + json_escape(f) + "\""@
            && json_unescape(json_escape(f)) == Some(f),
        d.fragment matches Some(f) ==> json_opt(d.fragment) == "\""@ + json_escape(f) + "\""@
            && json_unescape(json_escape(f)) == Some(f),
{
    law_json_escape_round_trip(d.code);
    law_json_escape_round_trip(d.message);
    if let Some(f) = d.file {
        law_json_escape_round_trip(f);
    }
    if let Some(f) = d.fragment {
        law_json_escape_round_trip(f);
    }
}

// ---------------------------------------------------------------------------
// Which names are parameters
// ---------------------------------------------------------------------------

/// The names an expression uses as identifiers that no `let` around them binds (given the
/// names `bound` outside it), leaving out the table references inside `Table.Combine` calls.
pub open spec fn used_names(e: MExprV, bound: Seq<Seq<char>>) -> Set<Seq<char>>
    decreases e,
{
    match e {
        MExprV::Identifier(n) => if !bound.contains(n) {
            set![n]
        } else {
            Set::empty()
        },
        MExprV::FunctionCall { name, args } => if name == "Table.Combine"@ {
            Set::empty()
        } else {
            used_names_seq(args, bound)
        },
        MExprV::BinaryOp { left, right, .. } => used_names(*left, bound) + used_names(*right, bound),
        MExprV::UnaryOp { expr, .. } => used_names(*expr, bound),
        MExprV::Let { bindings, body } => {
            let inner = bound + binding_names(bindings);
            used_names_fields(bindings, inner) + used_names(*body, inner)
        },
        MExprV::EachExpr(inner) => used_names(*inner, bound),
        MExprV::FieldAccess { expr, .. } => used_names(*expr, bound),
        MExprV::IndexAccess { expr, key } => used_names(*expr, bound) + used_names(*key, bound),
        MExprV::List(items) => used_names_seq(items, bound),
        MExprV::Record(fields) => used_names_fields(fields, bound),
        MExprV::TypeAnnotation { expr, .. } => used_names(*expr, bound),
        _ => Set::empty(),
    }
}

/// The unbound names a sequence of expressions uses.
pub open spec fn used_names_seq(s: Seq<MExprV>, bound: Seq<Seq<char>>) -> Set<Seq<char>>
    decreases s,
{
    if s.len() == 0 {
        Set::empty()
    } else {
        used_names_seq(s.subrange(0, s.len() - 1), bound) + used_names(s[s.len() - 1], bound)
    }
}

/// The unbound names the values of named expressions use.
pub open spec fn used_names_fields(s: Seq<(Seq<char>, MExprV)>, bound: Seq<Seq<char>>) -> Set<Seq<char>>
    decreases s,
{
    if s.len() == 0 {
        Set::empty()
    } else {
        used_names_fields(s.subrange(0, s.len() - 1), bound) + used_names(s[s.len() - 1].1, bound)
    }
}

/// Whether a name is neither built in nor an input file stem.
pub open spec fn not_builtin_or_stem(stems: Seq<Seq<char>>) -> spec_fn(Seq<char>) -> bool {
    |n: Seq<char>| !m_builtin(n) && !stems.contains(n)
}

/// The parameters of an expression are exactly the unbound names it uses outside
/// `Table.Combine` calls that are neither built in nor input file stems.
pub proof fn law_parameters_are_free_names(e: MExprV, bound: Seq<Seq<char>>, stems: Seq<Seq<char>>)
    ensures
        pnames(e, bound, stems) == used_names(e, bound).filter(not_builtin_or_stem(stems)),
    decreases e,
{
    let p = not_builtin_or_stem(stems);
    match e {
        MExprV::FunctionCall { name, args } => {
            law_parameters_are_free_names_seq(args, bound, stems);
            assert(Set::<Seq<char>>::empty().filter(p) =~= Set::<Seq<char>>::empty());
        },
        MExprV::BinaryOp { left, right, .. } => {
            law_parameters_are_free_names(*left, bound, stems);
            law_parameters_are_free_names(*right, bound, stems);
            assert((used_names(*left, bound) + used_names(*right, bound)).filter(p) =~= used_names(*left, bound).filter(p)
                + used_names(*right, bound).filter(p));
        },
        MExprV::UnaryOp { expr, .. } => {
            law_parameters_are_free_names(*expr, bound, stems);
        },
        MExprV::Let { bindings, body } => {
            let inner = bound + binding_names(bindings);
            law_parameters_are_free_names_fields(bindings, inner, stems);
            law_parameters_are_free_names(*body, inner, stems);
            assert((used_names_fields(bindings, inner) + used_names(*body, inner)).filter(p) =~= used_names_fields(
                bindings,
                inner,
            ).filter(p) + used_names(*body, inner).filter(p));
        },
        MExprV::EachExpr(inner) => {
            law_parameters_are_free_names(*inner, bound, stems);
        },
        MExprV::FieldAccess { expr, .. } => {
            law_parameters_are_free_names(*expr, bound, stems);
        },
        MExprV::IndexAccess { expr, key } => {
            law_parameters_are_free_names(*expr, bound, stems);
            law_parameters_are_free_names(*key, bound, stems);
            assert((used_names(*expr, bound) + used_names(*key, bound)).filter(p) =~= used_names(*expr, bound).filter(p)
                + used_names(*key, bound).filter(p));
        },
        MExprV::List(items) => {
            law_parameters_are_free_names_seq(items, bound, stems);
        },
        MExprV::Record(fields) => {
            law_parameters_are_free_names_fields(fields, bound, stems);
        },
        MExprV::TypeAnnotation { expr, .. } => {
            law_parameters_are_free_names(*expr, bound, stems);
        },
        MExprV::Identifier(n) => {
            assert(pnames(e, bound, stems) =~= used_names(e, bound).filter(p));
        },
        _ => {
            assert(Set::<Seq<char>>::empty().filter(p) =~= Set::<Seq<char>>::empty());
        },
    }
}

/// `law_parameters_are_free_names` for a sequence of expressions.
pub proof fn law_parameters_are_free_names_seq(s: Seq<MExprV>, bound: Seq<Seq<char>>, stems: Seq<Seq<char>>)
    ensures
        pnames_seq(s, bound, stems) == used_names_seq(s, bound).filter(not_builtin_or_stem(stems)),
    decreases s,
{
    let p = not_builtin_or_stem(stems);
    if s.len() == 0 {
        assert(Set::<Seq<char>>::empty().filter(p) =~= Set::<Seq<char>>::empty());
    } else {
        let a = s.subrange(0, s.len() - 1);
        law_parameters_are_free_names_seq(a, bound, stems);
        law_parameters_are_free_names(s[s.len() - 1], bound, stems);
        assert((used_names_seq(a, bound) + used_names(s[s.len() - 1], bound)).filter(p) =~= used_names_seq(a, bound).filter(p)
            + used_names(s[s.len() - 1], bound).filter(p));
    }
}

/// `law_parameters_are_free_names` for the values of named expressions.
pub proof fn law_parameters_are_free_names_fields(s: Seq<(Seq<char>, MExprV)>, bound: Seq<Seq<char>>, stems: Seq<Seq<char>>)
    ensures
        pnames_fields(s, bound, stems) == used_names_fields(s, bound).filter(not_builtin_or_stem(stems)),
    decreases s,
{
    let p = not_builtin_or_stem(stems);
    if s.len() == 0 {
        assert(Set::<Seq<char>>::empty().filter(p) =~= Set::<Seq<char>>::empty());
    } else {
        let a = s.subrange(0, s.len() - 1);
        law_parameters_are_free_names_fields(a, bound, stems);
        law_parameters_are_free_names(s[s.len() - 1].1, bound, stems);
        assert((used_names_fields(a, bound) + used_names(s[s.len() - 1].1, bound)).filter(p) =~= used_names_fields(
            a,
            bound,
        ).filter(p) + used_names(s[s.len() - 1].1, bound).filter(p));
    }
}

} // verus!
