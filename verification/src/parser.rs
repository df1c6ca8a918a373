//! Entry points of the M parser: M source text, and TMDL files.
use vstd::prelude::*;
use crate::ast::{MDocument, MDocumentV};
use crate::grammar::{ParseError, Parser};
use crate::lexer::{lex, tokenize, tokens_view, LexErrorV, SpannedTokenV};
use crate::syntax::{p_document, wf_tokens, ParseErrorV};
use crate::text::{
    chars_of, contains_seq, ends_with, indentation, lines_of, owned, split_lines, starts_with,
    str_contains, str_ends_with, str_starts_with, string_of_range, strings_view, trim, trim_bounds,
    trim_text,
};

verus! {

/// The document parsed from M source text, or the first error.
pub open spec fn parse_text(cs: Seq<char>) -> Result<MDocumentV, ParseErrorV> {
    match lex(cs) {
        Err(e) => Err(ParseErrorV { line: e.line, col: e.col, message: e.message }),
        Ok(ts) => match p_document(ts, 0) {
            Err(e) => Err(e),
            Ok((d, _)) => Ok(d),
        },
    }
}

/// Parse M source code into an AST document.
pub fn parse(input: &str) -> (r: Result<MDocument, ParseError>)
    requires
        input@.len() < usize::MAX,
    ensures
        match r {
            Ok(d) => parse_text(input@) == Ok::<MDocumentV, ParseErrorV>(d@),
            Err(e) => parse_text(input@) == Err::<MDocumentV, ParseErrorV>(e@),
        },
{
    let tokens = match tokenize(input) {
        Ok(ts) => ts,
        Err(e) => {
            return Err(ParseError { line: e.line, col: e.col, message: e.message });
        },
    };
    let mut parser = Parser::new(tokens);
    parser.parse_document()
}

/// `code` with one more line: separated by a line feed once the code is not empty.
pub open spec fn add_code_line(code: Seq<char>, line: Seq<char>) -> Seq<char> {
    if code.len() == 0 {
        line
    } else {
        code + seq!['\n'] + line
    }
}

/// The M code of a backtick-delimited source block whose lines start at `i`: the trimmed
/// lines up to the closing line, and the index of that line (or the number of lines).
pub open spec fn backtick_block(lines: Seq<Seq<char>>, i: int, code: Seq<char>) -> (Seq<char>, int)
    decreases lines.len() - i,
{
    if 0 <= i < lines.len() && trim(lines[i]) != "```"@ {
        backtick_block(lines, i + 1, add_code_line(code, trim(lines[i])))
    } else {
        (code, i)
    }
}

/// The M code of an indentation-based source block whose lines start at `i`: the trimmed
/// lines indented deeper than `depth` (blank lines included), and the index of the first
/// line after the block.
pub open spec fn indented_block(lines: Seq<Seq<char>>, i: int, depth: int, code: Seq<char>) -> (Seq<char>, int)
    decreases lines.len() - i,
{
    if 0 <= i < lines.len() && (trim(lines[i]).len() == 0 || indentation(lines[i]) > depth) {
        indented_block(lines, i + 1, depth, add_code_line(code, trim(lines[i])))
    } else {
        (code, i)
    }
}

/// The table name a line declares, if it is a `table <name>` line.
pub open spec fn declared_table(t: Seq<char>, current: Seq<char>) -> Seq<char> {
    if starts_with(t, "table "@) {
        trim(t.skip(6))
    } else {
        current
    }
}

/// Whether a trimmed line opens a backtick-delimited source block.
pub open spec fn opens_backtick_block(t: Seq<char>) -> bool {
    starts_with(t, "source"@) && contains_seq(t, "```"@)
}

/// Whether a trimmed line opens an indentation-based source block.
pub open spec fn opens_indented_block(t: Seq<char>) -> bool {
    !opens_backtick_block(t) && starts_with(t, "source"@) && ends_with(t, "="@)
}

/// The output name of a query from a table: the table's name, or `query`.
pub open spec fn query_name_of(table: Seq<char>) -> Seq<char> {
    if table.len() == 0 {
        "query"@
    } else {
        table
    }
}

/// The M expressions of a TMDL text's lines from line `i`, with the table in effect
/// and the queries found before.
pub open spec fn tmdl_from(lines: Seq<Seq<char>>, i: int, table: Seq<char>, found: Seq<(Seq<char>, MDocumentV)>) -> Result<Seq<(Seq<char>, MDocumentV)>, ParseErrorV>
    decreases lines.len() - i,
{
    if i < 0 || i >= lines.len() {
        Ok(found)
    } else {
        let t = trim(lines[i]);
        let tbl = declared_table(t, table);
        if opens_backtick_block(t) || opens_indented_block(t) {
            let (code, j) = if opens_backtick_block(t) {
                backtick_block(lines, i + 1, Seq::empty())
            } else {
                indented_block(lines, i + 1, indentation(lines[i]), Seq::empty())
            };
            let next = if opens_backtick_block(t) { j + 1 } else { j };
            if code.len() == 0 {
                if i < next <= lines.len() { tmdl_from(lines, next, tbl, found) } else { Ok(found) }
            } else {
                match parse_text(code) {
                    Err(e) => Err(e),
                    Ok(doc) => {
                        let found2 = found.push((query_name_of(tbl), doc));
                        if i < next <= lines.len() { tmdl_from(lines, next, tbl, found2) } else { Ok(found2) }
                    },
                }
            }
        } else {
            tmdl_from(lines, i + 1, tbl, found)
        }
    }
}

/// The M expressions of a TMDL text, each with the table it belongs to.
pub open spec fn tmdl_queries(text: Seq<char>) -> Result<Seq<(Seq<char>, MDocumentV)>, ParseErrorV> {
    tmdl_from(lines_of(text), 0, Seq::empty(), Seq::empty())
}

/// Models of named documents.
pub open spec fn named_docs_v(v: Seq<(String, MDocument)>) -> Seq<(Seq<char>, MDocumentV)> {
    Seq::new(v.len(), |i: int| (v[i].0@, v[i].1@))
}

/// Characters of lines with one separator after each line.
pub open spec fn lines_total(lines: Seq<Seq<char>>) -> int
    decreases lines.len(),
{
    if lines.len() == 0 {
        0
    } else {
        lines[0].len() + 1 + lines_total(lines.skip(1))
    }
}

proof fn lemma_lines_total_step(lines: Seq<Seq<char>>, i: int)
    requires
        0 <= i < lines.len(),
    ensures
        lines_total(lines.skip(i)) == lines[i].len() + 1 + lines_total(lines.skip(i + 1)),
{
    assert(lines.skip(i).skip(1) =~= lines.skip(i + 1));
}

proof fn lemma_lines_total_suffix(lines: Seq<Seq<char>>, i: int)
    requires
        0 <= i <= lines.len(),
    ensures
        0 <= lines_total(lines.skip(i)) <= lines_total(lines),
    decreases i,
{
    if i == 0 {
        assert(lines.skip(0) =~= lines);
        lemma_lines_total_nonneg(lines);
    } else {
        lemma_lines_total_suffix(lines, i - 1);
        lemma_lines_total_step(lines, i - 1);
        lemma_lines_total_nonneg(lines.skip(i));
    }
}

proof fn lemma_lines_total_nonneg(lines: Seq<Seq<char>>)
    ensures
        lines_total(lines) >= 0,
    decreases lines.len(),
{
    if lines.len() > 0 {
        lemma_lines_total_nonneg(lines.skip(1));
    }
}

/// The lines of a text, each with one separator, are no longer than the text and one more.
proof fn lemma_lines_of_total(s: Seq<char>)
    ensures
        lines_total(lines_of(s)) <= s.len() + 1,
    decreases s.len(),
{
    if s.len() > 0 {
        let k = crate::text::index_of_char(s, '\n');
        crate::text::lemma_index_of_char(s, '\n');
        let l = lines_of(s);
        if k < s.len() {
            lemma_lines_of_total(s.skip(k + 1));
            assert(l.skip(1) =~= lines_of(s.skip(k + 1)));
            assert(l[0].len() <= k);
        } else {
            assert(l.skip(1) =~= Seq::<Seq<char>>::empty());
            assert(lines_total(l.skip(1)) == 0);
        }
        assert(lines_total(l) == l[0].len() + 1 + lines_total(l.skip(1)));
    }
}

fn append_code_line(code: &mut String, line: &str)
    ensures
        final(code)@ == add_code_line(old(code)@, line@),
{
    if !code.as_str().is_empty() {
        crate::text::push_char(code, '\n');
    }
    code.append(line);
}

/// Collects a source block from line `start`: backtick-delimited, or indented deeper
/// than `depth`. Returns the code and the index where the block stops.
fn collect_block(lines: &Vec<String>, start: usize, backticks: bool, depth: usize) -> (r: (String, usize))
    requires
        start <= lines.len(),
    ensures
        backticks ==> (r.0@, r.1 as int) == backtick_block(strings_view(lines@), start as int, Seq::empty()),
        !backticks ==> (r.0@, r.1 as int) == indented_block(strings_view(lines@), start as int, depth as int, Seq::empty()),
        start <= r.1 <= lines.len(),
        r.0@.len() == 0 || r.0@.len() + 1 <= lines_total(strings_view(lines@).skip(start as int)),
{
    let ghost lv = strings_view(lines@);
    let mut code = String::new();
    let mut i = start;
    loop
        invariant_except_break
            start <= i <= lines.len(),
            lv == strings_view(lines@),
            backticks ==> backtick_block(lv, start as int, Seq::empty()) == backtick_block(lv, i as int, code@),
            !backticks ==> indented_block(lv, start as int, depth as int, Seq::empty()) == indented_block(lv, i as int, depth as int, code@),
            (code@.len() == 0 && lines_total(lv.skip(i as int)) <= lines_total(lv.skip(start as int)))
                || code@.len() + 1 + lines_total(lv.skip(i as int)) <= lines_total(lv.skip(start as int)),
        ensures
            start <= i <= lines.len(),
            backticks ==> backtick_block(lv, start as int, Seq::empty()) == (code@, i as int),
            !backticks ==> indented_block(lv, start as int, depth as int, Seq::empty()) == (code@, i as int),
            code@.len() == 0 || code@.len() + 1 <= lines_total(lv.skip(start as int)),
        decreases lines.len() - i,
    {
        if i >= lines.len() {
            proof {
                lemma_lines_total_nonneg(lv.skip(i as int));
            }
            break;
        }
        proof {
            lemma_lines_total_nonneg(lv.skip(i as int));
        }
        let v = chars_of(lines[i].as_str());
        let (a, b) = trim_bounds(&v);
        let t = string_of_range(&v, a, b);
        assert(lv[i as int] == v@);
        if backticks {
            if crate::text::str_eq(t.as_str(), "```") {
                break;
            }
        } else if !(t.as_str().is_empty() || a > depth) {
            break;
        }
        proof {
            lemma_lines_total_step(lv, i as int);
            lemma_lines_total_nonneg(lv.skip(i + 1));
            assert(t@.len() <= v@.len());
        }
        append_code_line(&mut code, t.as_str());
        i += 1;
    }
    (code, i)
}

/// Parse a TMDL file and extract M expressions with their table names.
pub fn parse_tmdl(input: &str) -> (r: Result<Vec<(String, MDocument)>, ParseError>)
    requires
        input@.len() < usize::MAX,
    ensures
        match r {
            Ok(v) => tmdl_queries(input@) == Ok::<Seq<(Seq<char>, MDocumentV)>, ParseErrorV>(named_docs_v(v@)),
            Err(e) => tmdl_queries(input@) == Err::<Seq<(Seq<char>, MDocumentV)>, ParseErrorV>(e@),
        },
{
    let lines = split_lines(input);
    let ghost lv = strings_view(lines@);
    let mut results: Vec<(String, MDocument)> = Vec::new();
    let mut current_table = String::new();
    let mut i: usize = 0;
    assert(named_docs_v(results@) =~= Seq::<(Seq<char>, MDocumentV)>::empty());
    while i < lines.len()
        invariant
            input@.len() < usize::MAX,
            i <= lines.len(),
            lv == strings_view(lines@),
            lv == lines_of(input@),
            tmdl_queries(input@) == tmdl_from(lv, i as int, current_table@, named_docs_v(results@)),
        decreases lines.len() - i,
    {
        let v = chars_of(lines[i].as_str());
        let (a, b) = trim_bounds(&v);
        let trimmed = string_of_range(&v, a, b);
        assert(lv[i as int] == v@);
        if str_starts_with(trimmed.as_str(), "table ") {
            proof {
                reveal_strlit("table ");
            }
            let tv = chars_of(trimmed.as_str());
            let rest = string_of_range(&tv, 6, tv.len());
            assert(tv@.subrange(6, tv@.len() as int) =~= trimmed@.skip(6));
            current_table = trim_text(rest.as_str());
        }
        let is_source = str_starts_with(trimmed.as_str(), "source");
        let backticks = is_source && str_contains(trimmed.as_str(), "```");
        let indented = !backticks && is_source && str_ends_with(trimmed.as_str(), "=");
        if backticks || indented {
            let (m_code, j) = collect_block(&lines, i + 1, backticks, a);
            let next = if backticks && j < lines.len() { j + 1 } else { j };
            if !m_code.as_str().is_empty() {
                proof {
                    lemma_lines_of_total(input@);
                    lemma_lines_total_suffix(lv, i + 1);
                }
                let table_name = if current_table.as_str().is_empty() {
                    owned("query")
                } else {
                    crate::text::copy_string(&current_table)
                };
                let doc = match parse(m_code.as_str()) {
                    Ok(d) => d,
                    Err(e) => {
                        return Err(e);
                    },
                };
                let ghost before = named_docs_v(results@);
                let ghost item = (table_name@, doc@);
                results.push((table_name, doc));
                assert(named_docs_v(results@) =~= before.push(item));
            }
            i = next;
        } else {
            i += 1;
        }
    }
    Ok(results)
}

} // verus!
