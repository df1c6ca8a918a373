//! Orchestrates parse → resolve → translate → emit for one source text.
use vstd::prelude::*;
use indexmap::IndexMap;
use crate::ast::{MDocument, MDocumentV, MExpr, MExprV};
use crate::error::{DiagLevel, Diagnostic, DiagnosticV, diags_view};
use crate::grammar::fields_v;
use crate::maps::{put_absent, sorted_params};
use crate::resolver::{
    DetectedParameter, find_parameters, first_use_line, lemma_located_keys, locate_params, located, param_entries, param_pairs_v, params_insert_absent, params_new, params_to_vec,
    pnames,
};
use crate::text::{
    chars_of, copy_string, ends_with, join_seqs, lines_of, owned, push_char, starts_with, str_ends_with, str_eq,
    str_starts_with, string_of_range, strings_view,
};
use crate::cte::sat_add;
use crate::error::M2SqlError;
use crate::grammar::ParseError;
use crate::parser::{named_docs_v, parse, parse_text, parse_tmdl, tmdl_queries};
use crate::syntax::ParseErrorV;
use crate::context::{EnvV, LogV, OnError, TranslationContext, copy_strings};
use crate::dialect::DialectId;
use crate::error::{CredentialRedactor, commented_lines, num_credential_patterns, redacted_after, redaction_diags};
use crate::maps::{distinct_keys, entry_keys, has_key, lemma_put_new};
use crate::lexer::count_char;
use crate::text::{is_ascii_letter, is_digit};
use crate::resolver::{generate_param_header, param_header_text};
use crate::sql::{SqlQuery, SqlQueryV};
use crate::table_spec::{StV, TablesV, ctx_state, ctx_tables};
use crate::translator::{named_queries_v, tr_doc, translate};
use crate::writer::{query_text, write_sql};

verus! {

// ---------------------------------------------------------------------------
// Names bound by `let`s
// ---------------------------------------------------------------------------

/// The names the `let`s of an expression bind, in order: a `let`'s own names, each followed
/// by those its value binds, then those of its result.
pub open spec fn let_names(e: MExprV) -> Seq<Seq<char>>
    decreases e,
{
    match e {
        MExprV::Let { bindings, body } => let_names_fields(bindings) + let_names(*body),
        _ => Seq::empty(),
    }
}

/// The names bound by the bindings of a `let`, and by the `let`s of their values.
pub open spec fn let_names_fields(bs: Seq<(Seq<char>, MExprV)>) -> Seq<Seq<char>>
    decreases bs,
{
    if bs.len() == 0 {
        Seq::empty()
    } else {
        let_names_fields(bs.subrange(0, bs.len() - 1)) + seq![bs[bs.len() - 1].0] + let_names(bs[bs.len() - 1].1)
    }
}

/// The names bound in a document: a section's member names and the names of its `let`s.
pub open spec fn doc_let_names(doc: MDocumentV) -> Seq<Seq<char>> {
    match doc {
        MDocumentV::Expression(e) => let_names(e),
        MDocumentV::Section { bindings, .. } => section_let_names(bindings),
    }
}

/// The names bound by the members of a section.
pub open spec fn section_let_names(bs: Seq<(bool, Seq<char>, MExprV)>) -> Seq<Seq<char>>
    decreases bs.len(),
{
    if bs.len() == 0 {
        Seq::empty()
    } else {
        section_let_names(bs.drop_last()) + seq![bs.last().1] + let_names(bs.last().2)
    }
}

/// Collect the names bound by the bindings of a `let` and by their values.
fn collect_let_bindings_from_fields(bindings: &Vec<(String, MExpr)>, out: &mut Vec<String>)
    ensures
        strings_view(final(out)@) == strings_view(old(out)@) + let_names_fields(fields_v(bindings@)),
    decreases bindings,
{
    let ghost bv = fields_v(bindings@);
    let ghost start = strings_view(out@);
    assert(bv.subrange(0, 0) =~= Seq::<(Seq<char>, MExprV)>::empty());
    assert(start + let_names_fields(bv.subrange(0, 0)) =~= start);
    let mut i: usize = 0;
    while i < bindings.len()
        invariant
            i <= bindings.len(),
            bv == fields_v(bindings@),
            strings_view(out@) == start + let_names_fields(bv.subrange(0, i as int)),
        decreases bindings.len() - i,
    {
        assert(decreases_to!(bindings => bindings@[i as int]));
        assert(decreases_to!(bindings@[i as int] => bindings@[i as int].1));
        let ghost before = strings_view(out@);
        out.push(copy_string(&bindings[i].0));
        assert(strings_view(out@) =~= before.push(bv[i as int].0));
        collect_let_bindings_from_expr(&bindings[i].1, out);
        assert(bv.subrange(0, i + 1).subrange(0, i as int) =~= bv.subrange(0, i as int));
        assert(strings_view(out@) =~= start + let_names_fields(bv.subrange(0, i + 1)));
        i += 1;
    }
    assert(bv.subrange(0, bindings.len() as int) =~= bv);
}

/// Collect let binding names from an M expression.
fn collect_let_bindings_from_expr(expr: &MExpr, out: &mut Vec<String>)
    ensures
        strings_view(final(out)@) == strings_view(old(out)@) + let_names(expr@),
    decreases expr,
{
    if let MExpr::Let { bindings, body } = expr {
        let ghost start = strings_view(out@);
        assert(fields_v(bindings@) =~= expr@->Let_bindings);
        collect_let_bindings_from_fields(bindings, out);
        collect_let_bindings_from_expr(body, out);
        assert(strings_view(out@) =~= start + let_names(expr@));
    } else {
        assert(strings_view(out@) =~= strings_view(out@) + let_names(expr@));
    }
}

/// Collect all let binding names from an M document (for parameter detection).
fn collect_let_bindings(doc: &MDocument) -> (r: Vec<String>)
    ensures
        strings_view(r@) == doc_let_names(doc@),
{
    let mut out: Vec<String> = Vec::new();
    match doc {
        MDocument::Expression(expr) => {
            collect_let_bindings_from_expr(expr, &mut out);
            assert(strings_view(out@) =~= doc_let_names(doc@));
        },
        MDocument::Section { bindings, .. } => {
            let ghost bv = doc@->Section_bindings;
            let mut i: usize = 0;
            assert(bv.subrange(0, 0) =~= Seq::<(bool, Seq<char>, MExprV)>::empty());
            assert(strings_view(out@) =~= Seq::<Seq<char>>::empty());
            while i < bindings.len()
                invariant
                    i <= bindings.len(),
                    bv == doc@->Section_bindings,
                    doc@ is Section,
                    bv.len() == bindings.len(),
                    forall|k: int| 0 <= k < bv.len() ==> #[trigger] bv[k] == (bindings@[k].0, bindings@[k].1@, bindings@[k].2@),
                    strings_view(out@) == section_let_names(bv.subrange(0, i as int)),
                decreases bindings.len() - i,
            {
                assert(bv.subrange(0, i + 1).drop_last() =~= bv.subrange(0, i as int));
                assert(bv.subrange(0, i + 1).last() == bv[i as int]);
                let ghost before = strings_view(out@);
                out.push(copy_string(&bindings[i].1));
                assert(strings_view(out@) =~= before.push(bv[i as int].1));
                collect_let_bindings_from_expr(&bindings[i].2, &mut out);
                assert(strings_view(out@) =~= section_let_names(bv.subrange(0, i + 1)));
                i += 1;
            }
            assert(bv.subrange(0, bindings.len() as int) =~= bv);
        },
    }
    out
}

// ---------------------------------------------------------------------------
// Parameters of a document
// ---------------------------------------------------------------------------

/// Parameter entries added after others, each unless its name is present.
pub open spec fn merge_params(
    acc: Seq<(Seq<char>, (Seq<char>, Seq<char>, usize))>,
    es: Seq<(Seq<char>, (Seq<char>, Seq<char>, usize))>,
) -> Seq<(Seq<char>, (Seq<char>, Seq<char>, usize))>
    decreases es.len(),
{
    if es.len() == 0 {
        acc
    } else {
        put_absent(merge_params(acc, es.drop_last()), es.last().0, es.last().1)
    }
}

/// The parameters of the members of a section: each member's, sorted by name, after those
/// of the members before it.
pub open spec fn section_params(
    bs: Seq<(bool, Seq<char>, MExprV)>,
    bound: Seq<Seq<char>>,
    stems: Seq<Seq<char>>,
    file: Seq<char>,
) -> Seq<(Seq<char>, (Seq<char>, Seq<char>, usize))>
    decreases bs.len(),
{
    if bs.len() == 0 {
        Seq::empty()
    } else {
        merge_params(section_params(bs.drop_last(), bound, stems, file), sorted_params(pnames(bs.last().2, bound, stems), file))
    }
}

/// The parameters of a document.
pub open spec fn doc_params(doc: MDocumentV, stems: Seq<Seq<char>>, file: Seq<char>) -> Seq<(Seq<char>, (Seq<char>, Seq<char>, usize))> {
    let bound = doc_let_names(doc);
    match doc {
        MDocumentV::Expression(e) => sorted_params(pnames(e, bound, stems), file),
        MDocumentV::Section { bindings, .. } => section_params(bindings, bound, stems, file),
    }
}

/// The parameters of a document, each at the line of its first use in the source text.
fn located_document_params(
    doc: &MDocument,
    let_bindings: &Vec<String>,
    stems: &Vec<String>,
    file_name: &str,
    text: &Vec<char>,
) -> (r: IndexMap<String, DetectedParameter>)
    requires
        strings_view(let_bindings@) == doc_let_names(doc@),
        text@.len() < usize::MAX,
    ensures
        param_entries(r) == located(doc_params(doc@, strings_view(stems@), file_name@), text@),
{
    let found = document_params(doc, let_bindings, stems, file_name);
    proof {
        crate::laws::law_document_parameters(doc@, strings_view(stems@), file_name@);
        lemma_located_keys(param_entries(found), text@);
    }
    locate_params(&found, text)
}

/// Detects the parameters of a document.
fn document_params(doc: &MDocument, let_bindings: &Vec<String>, stems: &Vec<String>, file_name: &str) -> (r: IndexMap<
    String,
    DetectedParameter,
>)
    requires
        strings_view(let_bindings@) == doc_let_names(doc@),
    ensures
        param_entries(r) == doc_params(doc@, strings_view(stems@), file_name@),
{
    match doc {
        MDocument::Expression(e) => find_parameters(e, let_bindings, stems, file_name),
        MDocument::Section { bindings, .. } => {
            let ghost bv = doc@->Section_bindings;
            let ghost bound = strings_view(let_bindings@);
            let ghost sv = strings_view(stems@);
            let mut all = params_new();
            let mut i: usize = 0;
            while i < bindings.len()
                invariant
                    i <= bindings.len(),
                    bv == doc@->Section_bindings,
                    doc@ is Section,
                    bound == strings_view(let_bindings@),
                    sv == strings_view(stems@),
                    bv.len() == bindings.len(),
                    forall|k: int| 0 <= k < bv.len() ==> #[trigger] bv[k] == (bindings@[k].0, bindings@[k].1@, bindings@[k].2@),
                    param_entries(all) == section_params(bv.subrange(0, i as int), bound, sv, file_name@),
                decreases bindings.len() - i,
            {
                assert(bv.subrange(0, i + 1).drop_last() =~= bv.subrange(0, i as int));
                assert(bv.subrange(0, i + 1).last() == bv[i as int]);
                let params = find_parameters(&bindings[i].2, let_bindings, stems, file_name);
                let entries = params_to_vec(&params);
                let ghost es = param_pairs_v(entries@);
                let ghost acc = param_entries(all);
                let mut j: usize = 0;
                assert(es.take(0) =~= Seq::<(Seq<char>, (Seq<char>, Seq<char>, usize))>::empty());
                while j < entries.len()
                    invariant
                        j <= entries.len(),
                        es == param_pairs_v(entries@),
                        param_entries(all) == merge_params(acc, es.take(j as int)),
                    decreases entries.len() - j,
                {
                    assert(es.take(j + 1).drop_last() =~= es.take(j as int));
                    assert(es.take(j + 1).last() == es[j as int]);
                    let p = DetectedParameter {
                        name: copy_string(&entries[j].1.name),
                        file: copy_string(&entries[j].1.file),
                        line: entries[j].1.line,
                    };
                    params_insert_absent(&mut all, copy_string(&entries[j].0), p);
                    j += 1;
                }
                assert(es.take(entries.len() as int) =~= es);
                i += 1;
            }
            assert(bv.subrange(0, bindings.len() as int) =~= bv);
            all
        },
    }
}

/// The warning for a detected parameter.
pub open spec fn param_warning(e: (Seq<char>, (Seq<char>, Seq<char>, usize))) -> DiagnosticV {
    DiagnosticV {
        level: DiagLevel::Warn,
        file: Some(e.1.1),
        line: Some(e.1.2),
        code: "PARAM_REFERENCE"@,
        message: "Parameter reference: '"@ + e.0 + "' — replaced with /* PARAM: "@ + e.0 + " */; substitute before running"@,
        fragment: None,
    }
}

/// The warnings for detected parameters, in order.
pub open spec fn param_warnings(es: Seq<(Seq<char>, (Seq<char>, Seq<char>, usize))>) -> Seq<DiagnosticV> {
    Seq::new(es.len(), |i: int| param_warning(es[i]))
}

/// Emit PARAM_REFERENCE warnings for detected parameters.
fn emit_param_warnings(params: &IndexMap<String, DetectedParameter>, diagnostics: &mut Vec<Diagnostic>)
    ensures
        diags_view(final(diagnostics)@) == diags_view(old(diagnostics)@) + param_warnings(param_entries(*params)),
{
    let entries = params_to_vec(params);
    let ghost es = param_pairs_v(entries@);
    let ghost start = diags_view(diagnostics@);
    let mut i: usize = 0;
    assert(start + param_warnings(es).take(0) =~= start);
    while i < entries.len()
        invariant
            i <= entries.len(),
            es == param_pairs_v(entries@),
            es == param_entries(*params),
            diags_view(diagnostics@) == start + param_warnings(es).take(i as int),
        decreases entries.len() - i,
    {
        let name = &entries[i].0;
        let mut message = owned("Parameter reference: '");
        message.append(name.as_str());
        message.append("' — replaced with /* PARAM: ");
        message.append(name.as_str());
        message.append(" */; substitute before running");
        let d = Diagnostic {
            level: DiagLevel::Warn,
            file: Some(copy_string(&entries[i].1.file)),
            line: Some(entries[i].1.line),
            code: owned("PARAM_REFERENCE"),
            message,
            fragment: None,
        };
        let ghost before = diags_view(diagnostics@);
        diagnostics.push(d);
        assert(d@ == param_warning(es[i as int]));
        assert(diags_view(diagnostics@) =~= before.push(d@));
        assert(param_warnings(es).take(i + 1) =~= param_warnings(es).take(i as int).push(param_warning(es[i as int])));
        i += 1;
    }
    assert(param_warnings(es).take(entries.len() as int) =~= param_warnings(es));
}

// ---------------------------------------------------------------------------
// Queries of a document
// ---------------------------------------------------------------------------

/// The SQL text of a query: written for the dialect, credentials redacted (with a comment
/// above each redacted line when any was), after the parameter header when there are
/// parameters.
pub open spec fn query_sql(q: SqlQueryV, d: DialectId, file: Seq<char>, ps: Seq<(Seq<char>, (Seq<char>, Seq<char>, usize))>) -> Seq<char> {
    let text = query_text(q, d);
    let red = redacted_after(text, num_credential_patterns());
    let fin = if redaction_diags(text, Some(file), num_credential_patterns()).len() > 0 {
        join_seqs(commented_lines(lines_of(red)), "\n"@)
    } else {
        red
    };
    if ps.len() > 0 {
        param_header_text(ps) + fin
    } else {
        fin
    }
}

/// The redaction diagnostics of queries, in order.
pub open spec fn queries_diags(qs: Seq<(Seq<char>, SqlQueryV)>, d: DialectId, file: Seq<char>) -> Seq<DiagnosticV>
    decreases qs.len(),
{
    if qs.len() == 0 {
        Seq::empty()
    } else {
        queries_diags(qs.drop_last(), d, file) + redaction_diags(query_text(qs.last().1, d), Some(file), num_credential_patterns())
    }
}

/// The parameters a document reports in a run: each located in the run's source text.
pub open spec fn run_params(run: RunV, doc: MDocumentV) -> Seq<(Seq<char>, (Seq<char>, Seq<char>, usize))> {
    located(doc_params(doc, run.stems, run.file), run.text)
}

/// The settings of a run.
pub struct RunV {
    pub dialect: DialectId,
    pub on_error: OnError,
    pub inline_singles: bool,
    pub file: Seq<char>,
    pub stems: Seq<Seq<char>>,
    /// The source text, where parameters are located.
    pub text: Seq<char>,
}

/// What the processing of one document gives: its named SQL texts, its diagnostics, whether
/// translation reported an error, and how many parameters it uses.
#[verifier::opaque]
pub open spec fn doc_output(run: RunV, name: Seq<char>, doc: MDocumentV) -> (Seq<(Seq<char>, Seq<char>)>, Seq<DiagnosticV>, bool, nat) {
    let ps = run_params(run, doc);
    let env = EnvV {
        dialect: run.dialect,
        on_error: run.on_error,
        inline_singles: run.inline_singles,
        file: run.file,
        params: entry_keys(ps),
        stems: run.stems,
    };
    let (qs, _t, st) = tr_doc(
        TablesV { env, known: Seq::empty(), combine: Seq::empty() },
        StV { log: LogV { diags: Seq::empty(), has_errors: false }, joins: Seq::empty() },
        doc,
        name,
    );
    (
        Seq::new(qs.len(), |i: int| (qs[i].0, query_sql(qs[i].1, run.dialect, run.file, ps))),
        param_warnings(ps) + queries_diags(qs, run.dialect, run.file) + st.log.diags,
        st.log.has_errors,
        ps.len(),
    )
}

/// Models of named SQL texts.
pub open spec fn texts_v(v: Seq<(String, String)>) -> Seq<(Seq<char>, Seq<char>)> {
    Seq::new(v.len(), |i: int| (v[i].0@, v[i].1@))
}

/// The SQL text of one query, with its redaction diagnostics.
fn render_query(query: &SqlQuery, dialect: DialectId, file_name: &str, header: &String) -> (r: (String, Vec<Diagnostic>))
    ensures
        r.0@ == header@ + ({
            let text = query_text(query@, dialect);
            let red = redacted_after(text, num_credential_patterns());
            if redaction_diags(text, Some(file_name@), num_credential_patterns()).len() > 0 {
                join_seqs(commented_lines(lines_of(red)), "\n"@)
            } else {
                red
            }
        }),
        diags_view(r.1@) == redaction_diags(query_text(query@, dialect), Some(file_name@), num_credential_patterns()),
{
    let sql_text = write_sql(query, &dialect);
    let (redacted_sql, redact_diags) = CredentialRedactor::redact(sql_text.as_str(), Some(file_name));
    let final_sql = if redact_diags.len() > 0 {
        CredentialRedactor::insert_security_comments(redacted_sql.as_str())
    } else {
        redacted_sql
    };
    let mut out = copy_string(header);
    out.append(final_sql.as_str());
    (out, redact_diags)
}

/// Writes the queries of a document, appending them and their redaction diagnostics.
#[verifier::rlimit(40)]
fn render_queries(
    results: &Vec<(String, SqlQuery)>,
    dialect: DialectId,
    file_name: &str,
    header: &String,
    queries: &mut Vec<(String, String)>,
    diagnostics: &mut Vec<Diagnostic>,
)
    ensures
        texts_v(final(queries)@) == texts_v(old(queries)@) + Seq::new(
            results@.len(),
            |k: int| (results@[k].0@, header@ + ({
                let text = query_text(results@[k].1@, dialect);
                let red = redacted_after(text, num_credential_patterns());
                if redaction_diags(text, Some(file_name@), num_credential_patterns()).len() > 0 {
                    join_seqs(commented_lines(lines_of(red)), "\n"@)
                } else {
                    red
                }
            })),
        ),
        diags_view(final(diagnostics)@) == diags_view(old(diagnostics)@) + queries_diags(named_queries_v(results@), dialect, file_name@),
{
    let ghost qs = named_queries_v(results@);
    let ghost q0 = texts_v(queries@);
    let ghost d1 = diags_view(diagnostics@);
    let ghost outs = Seq::new(
        results@.len(),
        |k: int| (results@[k].0@, header@ + ({
            let text = query_text(results@[k].1@, dialect);
            let red = redacted_after(text, num_credential_patterns());
            if redaction_diags(text, Some(file_name@), num_credential_patterns()).len() > 0 {
                join_seqs(commented_lines(lines_of(red)), "\n"@)
            } else {
                red
            }
        })),
    );
    let mut i: usize = 0;
    assert(qs.take(0) =~= Seq::<(Seq<char>, SqlQueryV)>::empty());
    assert(texts_v(queries@) =~= q0 + outs.take(0));
    assert(diags_view(diagnostics@) =~= d1 + queries_diags(qs.take(0), dialect, file_name@));
    while i < results.len()
        invariant
            i <= results.len(),
            qs == named_queries_v(results@),
            outs.len() == results@.len(),
            forall|k: int| 0 <= k < outs.len() ==> #[trigger] outs[k] == (results@[k].0@, header@ + ({
                let text = query_text(results@[k].1@, dialect);
                let red = redacted_after(text, num_credential_patterns());
                if redaction_diags(text, Some(file_name@), num_credential_patterns()).len() > 0 {
                    join_seqs(commented_lines(lines_of(red)), "\n"@)
                } else {
                    red
                }
            })),
            texts_v(queries@) == q0 + outs.take(i as int),
            diags_view(diagnostics@) == d1 + queries_diags(qs.take(i as int), dialect, file_name@),
        decreases results.len() - i,
    {
        let (sql, redact_diags) = render_query(&results[i].1, dialect, file_name, header);
        let ghost before_q = texts_v(queries@);
        let ghost before_d = diags_view(diagnostics@);
        let mut rd = redact_diags;
        let ghost rv = diags_view(rd@);
        diagnostics.append(&mut rd);
        assert(diags_view(diagnostics@) =~= before_d + rv);
        queries.push((copy_string(&results[i].0), sql));
        proof {
            assert(texts_v(queries@) =~= before_q.push(outs[i as int]));
            assert(outs.take(i + 1) =~= outs.take(i as int).push(outs[i as int]));
            assert(qs.take(i + 1).drop_last() =~= qs.take(i as int));
            assert(qs.take(i + 1).last() == qs[i as int]);
        }
        i += 1;
    }
    assert(qs.take(results.len() as int) =~= qs);
    assert(outs.take(results.len() as int) =~= outs);
}

/// Processes one document: detects its parameters, translates it and writes its queries,
/// appending them and the diagnostics; returns whether translation reported an error and
/// how many parameters the document uses.
#[verifier::rlimit(80)]
fn process_document(
    name: &String,
    doc: &MDocument,
    dialect: DialectId,
    on_error: OnError,
    inline_singles: bool,
    file_name: &str,
    input_file_stems: &Vec<String>,
    text: &Vec<char>,
    queries: &mut Vec<(String, String)>,
    diagnostics: &mut Vec<Diagnostic>,
) -> (r: (bool, usize))
    requires
        text@.len() < usize::MAX,
    ensures
        ({
            let run = RunV {
                dialect,
                on_error,
                inline_singles,
                file: file_name@,
                stems: strings_view(input_file_stems@),
                text: text@,
            };
            let (qs, ds, has_errors, n) = doc_output(run, name@, doc@);
            &&& texts_v(final(queries)@) == texts_v(old(queries)@) + qs
            &&& diags_view(final(diagnostics)@) == diags_view(old(diagnostics)@) + ds
            &&& r.0 == has_errors
            &&& r.1 == n
        }),
{
    let ghost run = RunV { dialect, on_error, inline_singles, file: file_name@, stems: strings_view(input_file_stems@), text: text@ };
    proof {
        reveal(doc_output);
    }
    let ghost q0 = texts_v(queries@);
    let ghost d0 = diags_view(diagnostics@);
    let mut ctx = TranslationContext::new(dialect, on_error, file_name, inline_singles);
    ctx.input_file_stems = copy_strings(input_file_stems);
    let let_bindings = collect_let_bindings(doc);
    let params = located_document_params(doc, &let_bindings, input_file_stems, file_name, text);
    let ghost ps = param_entries(params);
    assert(ps == run_params(run, doc@));
    let n = params_to_vec(&params).len();
    let header = if n > 0 {
        emit_param_warnings(&params, diagnostics);
        generate_param_header(&params)
    } else {
        assert(param_warnings(ps) =~= Seq::<DiagnosticV>::empty());
        assert(diags_view(diagnostics@) =~= d0 + param_warnings(ps));
        String::new()
    };
    ctx.detected_params = params;
    let ghost t0 = ctx_tables(ctx);
    assert(t0.env == EnvV {
        dialect,
        on_error,
        inline_singles,
        file: file_name@,
        params: entry_keys(ps),
        stems: strings_view(input_file_stems@),
    });
    let results = translate(doc, name.as_str(), &mut ctx);
    render_queries(&results, dialect, file_name, &header, queries, diagnostics);
    proof {
        let qs = named_queries_v(results@);
        assert forall|k: int| 0 <= k < qs.len() implies header@ + ({
            let text = query_text(qs[k].1, dialect);
            let red = redacted_after(text, num_credential_patterns());
            if redaction_diags(text, Some(file_name@), num_credential_patterns()).len() > 0 {
                join_seqs(commented_lines(lines_of(red)), "\n"@)
            } else {
                red
            }
        }) == query_sql(qs[k].1, dialect, file_name@, ps) by {
            if n == 0 {
                assert(header@ =~= Seq::<char>::empty());
            }
        }
    }
    let has_errors = ctx.has_errors;
    let ghost d2 = diags_view(diagnostics@);
    let ghost cv = diags_view(ctx.diagnostics@);
    diagnostics.append(&mut ctx.diagnostics);
    assert(diags_view(diagnostics@) =~= d2 + cv);
    proof {
        let (qs2, ds2, he2, n2) = doc_output(run, name@, doc@);
        assert(texts_v(queries@) =~= q0 + qs2);
        assert(diags_view(diagnostics@) =~= d0 + ds2);
    }
    (has_errors, n)
}

// ---------------------------------------------------------------------------
// A source text
// ---------------------------------------------------------------------------

/// Result of processing a single input.
pub struct ProcessResult {
    /// Output queries: (query_name, sql_text).
    pub queries: Vec<(String, String)>,
    /// Diagnostics emitted during processing.
    pub diagnostics: Vec<Diagnostic>,
    /// Whether any translation errors occurred.
    pub has_errors: bool,
    /// Number of unique parameters detected in this file.
    pub params_detected: usize,
}

/// Model of [`ProcessResult`].
pub struct ProcessResultV {
    pub queries: Seq<(Seq<char>, Seq<char>)>,
    pub diagnostics: Seq<DiagnosticV>,
    pub has_errors: bool,
    pub params_detected: usize,
}

impl View for ProcessResult {
    type V = ProcessResultV;

    open spec fn view(&self) -> ProcessResultV {
        ProcessResultV {
            queries: texts_v(self.queries@),
            diagnostics: diags_view(self.diagnostics@),
            has_errors: self.has_errors,
            params_detected: self.params_detected,
        }
    }
}

/// The documents of a source text: the queries of a `.tmdl` file, or the one document of
/// any other file, named by the file stem.
#[verifier::opaque]
pub open spec fn documents_of(source: Seq<char>, file: Seq<char>, stem: Seq<char>) -> Result<Seq<(Seq<char>, MDocumentV)>, ParseErrorV> {
    if ends_with(file, ".tmdl"@) {
        tmdl_queries(source)
    } else {
        match parse_text(source) {
            Ok(d) => Ok(seq![(stem, d)]),
            Err(e) => Err(e),
        }
    }
}

/// The processing of documents, in order; the parameter count stops at the largest `usize`.
pub open spec fn process_docs(run: RunV, docs: Seq<(Seq<char>, MDocumentV)>) -> ProcessResultV
    decreases docs.len(),
{
    if docs.len() == 0 {
        ProcessResultV { queries: Seq::empty(), diagnostics: Seq::empty(), has_errors: false, params_detected: 0 }
    } else {
        let prev = process_docs(run, docs.drop_last());
        let (qs, ds, has_errors, n) = doc_output(run, docs.last().0, docs.last().1);
        ProcessResultV {
            queries: prev.queries + qs,
            diagnostics: prev.diagnostics + ds,
            has_errors: prev.has_errors || has_errors,
            params_detected: sat_add(prev.params_detected, n),
        }
    }
}

/// The documents of a source text.
fn documents(source: &str, file_name: &str, file_stem: &str) -> (r: Result<Vec<(String, MDocument)>, ParseError>)
    requires
        source@.len() < usize::MAX,
    ensures
        match r {
            Ok(v) => documents_of(source@, file_name@, file_stem@) == Ok::<Seq<(Seq<char>, MDocumentV)>, ParseErrorV>(named_docs_v(v@)),
            Err(e) => documents_of(source@, file_name@, file_stem@) == Err::<Seq<(Seq<char>, MDocumentV)>, ParseErrorV>(e@),
        },
{
    proof {
        reveal(documents_of);
    }
    if str_ends_with(file_name, ".tmdl") {
        parse_tmdl(source)
    } else {
        match parse(source) {
            Ok(doc) => {
                let mut v: Vec<(String, MDocument)> = Vec::new();
                v.push((owned(file_stem), doc));
                assert(named_docs_v(v@) =~= seq![(file_stem@, v@[0].1@)]);
                Ok(v)
            },
            Err(e) => Err(e),
        }
    }
}

/// Process a single M source string.
pub fn process_source(
    source: &str,
    file_name: &str,
    file_stem: &str,
    dialect: DialectId,
    on_error: OnError,
    inline_singles: bool,
    input_file_stems: &Vec<String>,
) -> (r: Result<ProcessResult, M2SqlError>)
    requires
        source@.len() < usize::MAX,
    ensures
        ({
            let run = RunV {
                dialect,
                on_error,
                inline_singles,
                file: file_name@,
                stems: strings_view(input_file_stems@),
                text: source@,
            };
            match r {
                Ok(p) => match documents_of(source@, file_name@, file_stem@) {
                    Ok(docs) => p@ == process_docs(run, docs),
                    Err(_) => false,
                },
                Err(e) => match documents_of(source@, file_name@, file_stem@) {
                    Ok(_) => false,
                    Err(pe) => e matches M2SqlError::Parse { file, line, message } && file@ == file_name@
                        && line as int == pe.line && message@ == pe.message,
                },
            }
        }),
{
    let ghost run = RunV { dialect, on_error, inline_singles, file: file_name@, stems: strings_view(input_file_stems@), text: source@ };
    let text = chars_of(source);
    let docs = match documents(source, file_name, file_stem) {
        Ok(v) => v,
        Err(e) => {
            return Err(M2SqlError::Parse { file: owned(file_name), line: e.line, message: e.message });
        },
    };
    let ghost dv = named_docs_v(docs@);
    let mut queries: Vec<(String, String)> = Vec::new();
    let mut diagnostics: Vec<Diagnostic> = Vec::new();
    let mut has_errors = false;
    let mut total: usize = 0;
    let mut i: usize = 0;
    assert(dv.take(0) =~= Seq::<(Seq<char>, MDocumentV)>::empty());
    assert(texts_v(queries@) =~= Seq::<(Seq<char>, Seq<char>)>::empty());
    assert(diags_view(diagnostics@) =~= Seq::<DiagnosticV>::empty());
    while i < docs.len()
        invariant
            i <= docs.len(),
            dv == named_docs_v(docs@),
            run == (RunV { dialect, on_error, inline_singles, file: file_name@, stems: strings_view(input_file_stems@), text: source@ }),
            text@ == source@,
            source@.len() < usize::MAX,
            ({
                let p = process_docs(run, dv.take(i as int));
                &&& texts_v(queries@) == p.queries
                &&& diags_view(diagnostics@) == p.diagnostics
                &&& has_errors == p.has_errors
                &&& total == p.params_detected
            }),
        decreases docs.len() - i,
    {
        assert(dv.take(i + 1).drop_last() =~= dv.take(i as int));
        assert(dv.take(i + 1).last() == dv[i as int]);
        let (doc_errors, n) = process_document(
            &docs[i].0,
            &docs[i].1,
            dialect,
            on_error,
            inline_singles,
            file_name,
            input_file_stems,
            &text,
            &mut queries,
            &mut diagnostics,
        );
        has_errors = has_errors || doc_errors;
        total = if total <= usize::MAX - n { total + n } else { usize::MAX };
        i += 1;
    }
    assert(dv.take(docs.len() as int) =~= dv);
    Ok(ProcessResult { queries, diagnostics, has_errors, params_detected: total })
}

// ---------------------------------------------------------------------------
// Output file names
// ---------------------------------------------------------------------------

/// Whether a character cannot stand in a file name: a path separator or a character that
/// Windows forbids.
pub open spec fn illegal_file_char(c: char) -> bool {
    c == '\\' || c == '/' || c == ':' || c == '*' || c == '?' || c == '"' || c == '<' || c == '>' || c == '|'
}

/// A file name with each illegal character replaced by `_`.
pub open spec fn sanitized_filename(name: Seq<char>) -> Seq<char> {
    Seq::new(name.len(), |i: int| if illegal_file_char(name[i]) { '_' } else { name[i] })
}

/// Sanitize a file name for output (replace illegal chars).
pub fn sanitize_filename(name: &str) -> (r: String)
    ensures
        r@ == sanitized_filename(name@),
{
    let chars = chars_of(name);
    let mut result = String::new();
    let mut i: usize = 0;
    while i < chars.len()
        invariant
            i <= chars.len(),
            chars@ == name@,
            result@ == sanitized_filename(name@).take(i as int),
        decreases chars.len() - i,
    {
        let ch = chars[i];
        let out = if ch == '\\' || ch == '/' || ch == ':' || ch == '*' || ch == '?' || ch == '"' || ch == '<' || ch == '>'
            || ch == '|' {
            '_'
        } else {
            ch
        };
        push_char(&mut result, out);
        assert(result@ =~= sanitized_filename(name@).take(i + 1));
        i += 1;
    }
    assert(sanitized_filename(name@).take(chars.len() as int) =~= sanitized_filename(name@));
    result
}

/// The components of a path that name something, in order: the text between `/`s, without
/// empty ones and without `.`.
pub open spec fn named_components(path: Seq<char>) -> Seq<Seq<char>> {
    keep_named(split_on(path, '/'))
}

/// Whether a part of a path names something: it is neither empty nor `.`.
pub open spec fn names_part(p: Seq<char>) -> bool {
    p.len() > 0 && p != seq!['.']
}

/// The parts of a path that name something, in order.
pub open spec fn keep_named(parts: Seq<Seq<char>>) -> Seq<Seq<char>>
    decreases parts.len(),
{
    if parts.len() == 0 {
        Seq::empty()
    } else {
        let rest = keep_named(parts.drop_last());
        if names_part(parts.last()) {
            rest.push(parts.last())
        } else {
            rest
        }
    }
}

/// The parts of a text between occurrences of a separator.
pub open spec fn split_on(s: Seq<char>, sep: char) -> Seq<Seq<char>>
    decreases s.len(),
{
    if s.len() == 0 {
        seq![Seq::empty()]
    } else {
        let rest = split_on(s.drop_last(), sep);
        if s.last() == sep {
            rest.push(Seq::empty())
        } else {
            rest.update(rest.len() - 1, rest.last().push(s.last()))
        }
    }
}

/// The last component of a path, unless the path ends in `..` or names no component
/// (`Path::file_name` on a Unix path).
pub open spec fn path_file_name(path: Seq<char>) -> Option<Seq<char>> {
    let cs = named_components(path);
    if cs.len() == 0 || cs.last() == seq!['.', '.'] {
        None
    } else {
        Some(cs.last())
    }
}

/// A file name without its extension: the text before its last `.`, unless that `.` starts
/// the name or there is none (`Path::file_stem`).
pub open spec fn stem_of_name(name: Seq<char>) -> Seq<char> {
    match last_index_of(name, '.') {
        Some(i) => if i == 0 { name } else { name.take(i) },
        None => name,
    }
}

/// The index of the last occurrence of a character.
pub open spec fn last_index_of(s: Seq<char>, c: char) -> Option<int>
    decreases s.len(),
{
    if s.len() == 0 {
        None
    } else if s.last() == c {
        Some(s.len() - 1)
    } else {
        last_index_of(s.drop_last(), c)
    }
}

/// The file stem of a path, or `query` when it names no file.
pub open spec fn file_stem_text(path: Seq<char>) -> Seq<char> {
    match path_file_name(path) {
        Some(name) => stem_of_name(name),
        None => "query"@,
    }
}

/// The last component of a path that names something, if any.
fn last_named_component(path: &str) -> (r: Option<String>)
    ensures
        match r {
            Some(c) => named_components(path@).len() > 0 && c@ == named_components(path@).last(),
            None => named_components(path@).len() == 0,
        },
{
    proof {
        reveal_strlit(".");
        assert("."@ =~= seq!['.']);
    }
    let chars = chars_of(path);
    let ghost pv = path@;
    let mut last: Option<String> = None;
    let mut current = String::new();
    let mut i: usize = 0;
    assert(pv.take(0) =~= Seq::<char>::empty());
    assert(split_on(pv.take(0), '/') =~= seq![Seq::<char>::empty()]);
    assert(split_on(pv.take(0), '/').drop_last() =~= Seq::<Seq<char>>::empty());
    while i < chars.len()
        invariant
            i <= chars.len(),
            chars@ == pv,
            pv == path@,
            "."@ == seq!['.'],
            split_on(pv.take(i as int), '/').len() > 0,
            current@ == split_on(pv.take(i as int), '/').last(),
            ({
                let done = keep_named(split_on(pv.take(i as int), '/').drop_last());
                match last {
                    Some(c) => done.len() > 0 && c@ == done.last(),
                    None => done.len() == 0,
                }
            }),
        decreases chars.len() - i,
    {
        let ghost parts = split_on(pv.take(i as int), '/');
        assert(pv.take(i + 1).drop_last() =~= pv.take(i as int));
        assert(pv.take(i + 1).last() == pv[i as int]);
        let ghost next = split_on(pv.take(i + 1), '/');
        assert(parts.drop_last().push(parts.last()) =~= parts);
        assert(keep_named(parts) == (if names_part(parts.last()) {
            keep_named(parts.drop_last()).push(parts.last())
        } else {
            keep_named(parts.drop_last())
        }));
        if chars[i] == '/' {
            assert(next == parts.push(Seq::<char>::empty()));
            assert(next.drop_last() =~= parts);
            let keep = current.as_str().unicode_len() > 0 && !str_eq(current.as_str(), ".");
            assert(keep == names_part(parts.last()));
            if keep {
                last = Some(current);
            }
            current = String::new();
            assert(next.last() =~= Seq::<char>::empty());
        } else {
            assert(next == parts.update(parts.len() - 1, parts.last().push(pv[i as int])));
            assert(next.drop_last() =~= parts.drop_last());
            push_char(&mut current, chars[i]);
        }
        i += 1;
    }
    assert(pv.take(chars.len() as int) =~= pv);
    let ghost parts = split_on(pv, '/');
    assert(parts.drop_last().push(parts.last()) =~= parts);
    assert(keep_named(parts) == (if names_part(parts.last()) {
        keep_named(parts.drop_last()).push(parts.last())
    } else {
        keep_named(parts.drop_last())
    }));
    if current.as_str().unicode_len() > 0 && !str_eq(current.as_str(), ".") {
        Some(current)
    } else {
        last
    }
}

/// Get the file stem from a path.
pub fn file_stem_from_path(path: &str) -> (r: String)
    ensures
        r@ == file_stem_text(path@),
{
    proof {
        reveal_strlit("..");
        assert(".."@ =~= seq!['.', '.']);
    }
    match last_named_component(path) {
        Some(name) => {
            if str_eq(name.as_str(), "..") {
                return owned("query");
            }
            let chars = chars_of(name.as_str());
            let ghost nv = name@;
            let mut j: usize = chars.len();
            assert(nv.take(j as int) =~= nv);
            let mut go = j > 0 && chars[j - 1] != '.';
            while go
                invariant
                    j <= chars.len(),
                    chars@ == nv,
                    last_index_of(nv, '.') == last_index_of(nv.take(j as int), '.'),
                    go ==> j > 0 && nv[j - 1] != '.',
                    !go ==> j == 0 || nv[j - 1] == '.',
                decreases j,
            {
                assert(nv.take(j as int).drop_last() =~= nv.take(j - 1));
                assert(nv.take(j as int).last() == nv[j - 1]);
                j -= 1;
                go = j > 0 && chars[j - 1] != '.';
            }
            if j == 0 {
                assert(nv.take(0) =~= Seq::<char>::empty());
                name
            } else {
                assert(nv.take(j as int).last() == '.');
                assert(last_index_of(nv, '.') == Some(j - 1));
                if j == 1 {
                    name
                } else {
                    let r = string_of_range(&chars, 0, j - 1);
                    assert(r@ =~= nv.take(j - 1));
                    r
                }
            }
        },
        None => owned("query"),
    }
}

/// Whether a canonical path lies within a canonical directory: it is the directory, or a
/// path below it (`Path::starts_with` on canonical paths, compared by components).
pub open spec fn within_dir(path: Seq<char>, dir: Seq<char>) -> bool {
    path == dir || dir == seq!['/'] && starts_with(path, dir) || starts_with(path, dir + seq!['/'])
}

/// A path joined with a relative file name (`Path::join`): no separator is added after an
/// empty path or one that ends in `/`.
pub open spec fn joined_path(dir: Seq<char>, name: Seq<char>) -> Seq<char> {
    if dir.len() == 0 || dir.last() == '/' {
        dir + name
    } else {
        dir + seq!['/'] + name
    }
}

/// The output path of a query: its sanitized name with `.sql`, in the output directory.
pub open spec fn output_path_of(dir: Seq<char>, query_name: Seq<char>) -> Seq<char> {
    joined_path(dir, sanitized_filename(query_name) + ".sql"@)
}

/// The output path of a query, refused when the canonical form of the directory that will
/// hold it does not lie within the canonical output directory. The canonical forms are
/// those the file system gives, and the paths themselves where it gives none.
pub fn check_path_traversal(output_dir: &str, query_name: &str, canonical_dir: &str, canonical_parent: &str) -> (r: Result<
    String,
    M2SqlError,
>)
    ensures
        match r {
            Ok(p) => within_dir(canonical_parent@, canonical_dir@) && p@ == output_path_of(output_dir@, query_name@),
            Err(e) => !within_dir(canonical_parent@, canonical_dir@) && (e matches M2SqlError::PathTraversal(n) && n@
                == query_name@),
        },
{
    proof {
        reveal_strlit("/");
        assert("/"@ =~= seq!['/']);
    }
    let mut file_name = sanitize_filename(query_name);
    file_name.append(".sql");
    let mut prefix = owned(canonical_dir);
    push_char(&mut prefix, '/');
    assert(prefix@ =~= canonical_dir@ + seq!['/']);
    let within = str_eq(canonical_parent, canonical_dir) || (str_eq(canonical_dir, "/") && str_starts_with(
        canonical_parent,
        canonical_dir,
    )) || str_starts_with(canonical_parent, prefix.as_str());
    if !within {
        return Err(M2SqlError::PathTraversal(owned(query_name)));
    }
    let dir = chars_of(output_dir);
    let mut out = owned(output_dir);
    if dir.len() > 0 && dir[dir.len() - 1] != '/' {
        push_char(&mut out, '/');
    }
    out.append(file_name.as_str());
    assert(out@ =~= joined_path(output_dir@, sanitized_filename(query_name@) + ".sql"@));
    Ok(out)
}

} // verus!
