//! Infers table/schema names from M data-source expressions, formats M expressions
//! for diagnostics, and detects Power Query parameters.
use vstd::prelude::*;
use crate::ast::{BinOp, MExpr, MExprV, MLiteral, MLiteralV, UnOp};
use crate::grammar::type_to_string;
use crate::syntax::m_type_name;
use crate::text::{
    lemma_lex_order, lex_lt, str_lt, usize_to_string, chars_of, is_ascii_letter, is_digit,
    strings_view,
    starts_with, str_starts_with,
    i64_to_string, int_decimal, join_seqs, lemma_join_push, owned, push_char, str_eq, copy_string,
};
use crate::writer::{decimal_display, decimal_parts};
use crate::sql::opt_view;
use crate::maps::{lemma_sorted_params, sorted_params, 
    distinct_keys, entry_keys, has_key, lemma_keys_insert, lemma_keys_push, lemma_put_absent, lemma_put_new, put,
    put_absent, sorted_keys, uniform_values,
};
use crate::lexer::count_char;
use indexmap::IndexMap;

verus! {

/// Resolved data source information.
#[derive(Debug, Clone)]
pub struct ResolvedSource {
    /// Database/schema name.
    pub schema: Option<String>,
    /// Table name.
    pub table: Option<String>,
    /// Raw source expression for unrecognised patterns.
    pub raw: Option<String>,
}

/// Model of [`ResolvedSource`].
pub struct ResolvedSourceV {
    pub schema: Option<Seq<char>>,
    pub table: Option<Seq<char>>,
    pub raw: Option<Seq<char>>,
}

impl View for ResolvedSource {
    type V = ResolvedSourceV;

    open spec fn view(&self) -> ResolvedSourceV {
        ResolvedSourceV { schema: opt_view(self.schema), table: opt_view(self.table), raw: opt_view(self.raw) }
    }
}

// ---------------------------------------------------------------------------
// Formatting M expressions
// ---------------------------------------------------------------------------

/// Text of a binary operator in M.
pub open spec fn m_binop_text(op: BinOp) -> Seq<char> {
    match op {
        BinOp::Eq => "="@,
        BinOp::Neq => "<>"@,
        BinOp::Lt => "<"@,
        BinOp::Lte => "<="@,
        BinOp::Gt => ">"@,
        BinOp::Gte => ">="@,
        BinOp::And => "and"@,
        BinOp::Or => "or"@,
        BinOp::Add => "+"@,
        BinOp::Sub => "-"@,
        BinOp::Mul => "*"@,
        BinOp::Div => "/"@,
        BinOp::Concat => "&"@,
    }
}

/// Short text of an M expression, for diagnostics.
pub open spec fn fmt_expr(e: MExprV) -> Seq<char>
    decreases e,
{
    match e {
        MExprV::Identifier(name) => name,
        MExprV::Literal(l) => match l {
            MLiteralV::Text(s) => "\""@ + s + "\""@,
            MLiteralV::Integer(n) => int_decimal(n as int),
            MLiteralV::Number(s) => decimal_display(s),
            MLiteralV::Bool(b) => if b { "true"@ } else { "false"@ },
            MLiteralV::Null => "null"@,
        },
        MExprV::FunctionCall { name, args } => name + "("@ + join_seqs(fmt_exprs(args), ", "@) + ")"@,
        MExprV::FieldAccess { expr, field } => fmt_expr(*expr) + "["@ + field + "]"@,
        MExprV::IndexAccess { expr, key } => fmt_expr(*expr) + "{"@ + fmt_expr(*key) + "}"@,
        MExprV::RowField(name) => "["@ + name + "]"@,
        MExprV::BinaryOp { op, left, right } => fmt_expr(*left) + " "@ + m_binop_text(op) + " "@ + fmt_expr(
            *right,
        ),
        MExprV::UnaryOp { op, expr } => (match op {
            UnOp::Not => "not "@,
            UnOp::Neg => "-"@,
        }) + fmt_expr(*expr),
        MExprV::List(items) => "{"@ + join_seqs(fmt_exprs(items), ", "@) + "}"@,
        MExprV::Record(fields) => "["@ + join_seqs(fmt_fields(fields), ", "@) + "]"@,
        MExprV::EachExpr(inner) => "each "@ + fmt_expr(*inner),
        MExprV::Let { .. } => "let ... in ..."@,
        MExprV::TypeAnnotation { expr, ty } => fmt_expr(*expr) + " as "@ + m_type_name(ty),
    }
}

/// Texts of a sequence of expressions.
pub open spec fn fmt_exprs(s: Seq<MExprV>) -> Seq<Seq<char>>
    decreases s,
{
    Seq::new(s.len(), |i: int| if 0 <= i < s.len() { fmt_expr(s[i]) } else { Seq::empty() })
}

/// Texts `k=v` of record fields.
pub open spec fn fmt_fields(s: Seq<(Seq<char>, MExprV)>) -> Seq<Seq<char>>
    decreases s,
{
    Seq::new(
        s.len(),
        |i: int| if 0 <= i < s.len() { s[i].0 + "="@ + fmt_expr(s[i].1) } else { Seq::empty() },
    )
}

fn binop_m_text(op: BinOp) -> (s: &'static str)
    ensures
        s@ == m_binop_text(op),
{
    match op {
        BinOp::Eq => "=",
        BinOp::Neq => "<>",
        BinOp::Lt => "<",
        BinOp::Lte => "<=",
        BinOp::Gt => ">",
        BinOp::Gte => ">=",
        BinOp::And => "and",
        BinOp::Or => "or",
        BinOp::Add => "+",
        BinOp::Sub => "-",
        BinOp::Mul => "*",
        BinOp::Div => "/",
        BinOp::Concat => "&",
    }
}

/// Display text of a decimal number.
fn decimal_display_text(s: &String) -> (r: String)
    ensures
        r@ == decimal_display(s@),
{
    let (i, f) = decimal_parts(s);
    let mut out = i;
    if !f.as_str().is_empty() {
        push_char(&mut out, '.');
        out.append(f.as_str());
    }
    out
}

/// Formats expressions separated by `, `.
fn format_expr_list(items: &Vec<MExpr>) -> (r: String)
    ensures
        r@ == join_seqs(fmt_exprs(crate::grammar::exprs_v(items@)), ", "@),
    decreases items,
{
    let ghost parts = fmt_exprs(crate::grammar::exprs_v(items@));
    let mut out = String::new();
    let mut i: usize = 0;
    while i < items.len()
        invariant
            i <= items.len(),
            parts == fmt_exprs(crate::grammar::exprs_v(items@)),
            out@ == join_seqs(parts.take(i as int), ", "@),
        decreases items.len() - i,
    {
        proof {
            lemma_join_push(parts, ", "@, i as int);
        }
        if i > 0 {
            out.append(", ");
        }
        assert(decreases_to!(items => items@[i as int]));
        let t = format_expr(&items[i]);
        out.append(t.as_str());
        i += 1;
    }
    assert(parts.take(items.len() as int) =~= parts);
    out
}

/// Formats record fields `k=v` separated by `, `.
fn format_field_list(fields: &Vec<(String, MExpr)>) -> (r: String)
    ensures
        r@ == join_seqs(fmt_fields(crate::grammar::fields_v(fields@)), ", "@),
    decreases fields,
{
    let ghost parts = fmt_fields(crate::grammar::fields_v(fields@));
    let mut out = String::new();
    let mut i: usize = 0;
    while i < fields.len()
        invariant
            i <= fields.len(),
            parts == fmt_fields(crate::grammar::fields_v(fields@)),
            out@ == join_seqs(parts.take(i as int), ", "@),
        decreases fields.len() - i,
    {
        proof {
            lemma_join_push(parts, ", "@, i as int);
        }
        if i > 0 {
            out.append(", ");
        }
        assert(decreases_to!(fields => fields@[i as int]));
        assert(decreases_to!(fields@[i as int] => fields@[i as int].1));
        let mut piece = fields[i].0.clone();
        push_char(&mut piece, '=');
        let t = format_expr(&fields[i].1);
        piece.append(t.as_str());
        proof {
            reveal_strlit("=");
        }
        assert(piece@ =~= parts[i as int]);
        out.append(piece.as_str());
        i += 1;
    }
    assert(parts.take(fields.len() as int) =~= parts);
    out
}

/// Format an M expression to a short string (for diagnostics).
pub fn format_expr(expr: &MExpr) -> (r: String)
    ensures
        r@ == fmt_expr(expr@),
    decreases expr,
{
    match expr {
        MExpr::Identifier(name) => name.clone(),
        MExpr::Literal(MLiteral::Text(s)) => {
            let mut out = owned("\"");
            out.append(s.as_str());
            out.append("\"");
            out
        },
        MExpr::Literal(MLiteral::Integer(n)) => i64_to_string(*n),
        MExpr::Literal(MLiteral::Number(n)) => decimal_display_text(n),
        MExpr::Literal(MLiteral::Bool(b)) => if *b {
            owned("true")
        } else {
            owned("false")
        },
        MExpr::Literal(MLiteral::Null) => owned("null"),
        MExpr::FunctionCall { name, args } => {
            let mut out = name.clone();
            out.append("(");
            out.append(format_expr_list(args).as_str());
            out.append(")");
            assert(crate::grammar::exprs_v(args@) =~= expr@->FunctionCall_args);
            out
        },
        MExpr::FieldAccess { expr: inner, field } => {
            let mut out = format_expr(inner);
            out.append("[");
            out.append(field.as_str());
            out.append("]");
            out
        },
        MExpr::IndexAccess { expr: inner, key } => {
            let mut out = format_expr(inner);
            out.append("{");
            out.append(format_expr(key).as_str());
            out.append("}");
            out
        },
        MExpr::RowField(name) => {
            let mut out = owned("[");
            out.append(name.as_str());
            out.append("]");
            out
        },
        MExpr::BinaryOp { op, left, right } => {
            let mut out = format_expr(left);
            out.append(" ");
            out.append(binop_m_text(*op));
            out.append(" ");
            out.append(format_expr(right).as_str());
            out
        },
        MExpr::UnaryOp { op, expr: inner } => {
            let mut out = match op {
                UnOp::Not => owned("not "),
                UnOp::Neg => owned("-"),
            };
            out.append(format_expr(inner).as_str());
            out
        },
        MExpr::List(items) => {
            let mut out = owned("{");
            out.append(format_expr_list(items).as_str());
            out.append("}");
            assert(crate::grammar::exprs_v(items@) =~= expr@->List_0);
            out
        },
        MExpr::Record(fields) => {
            let mut out = owned("[");
            out.append(format_field_list(fields).as_str());
            out.append("]");
            assert(crate::grammar::fields_v(fields@) =~= expr@->Record_0);
            out
        },
        MExpr::EachExpr(inner) => {
            let mut out = owned("each ");
            out.append(format_expr(inner).as_str());
            out
        },
        MExpr::Let { .. } => owned("let ... in ..."),
        MExpr::TypeAnnotation { expr: inner, ty } => {
            let mut out = format_expr(inner);
            out.append(" as ");
            out.append(type_to_string(ty));
            out
        },
    }
}

// ---------------------------------------------------------------------------
// Data sources
// ---------------------------------------------------------------------------

/// The text of a text literal.
pub open spec fn text_lit(e: MExprV) -> Option<Seq<char>> {
    match e {
        MExprV::Literal(MLiteralV::Text(s)) => Some(s),
        _ => None,
    }
}

/// The second argument, when it is a text literal.
pub open spec fn second_text_arg(args: Seq<MExprV>) -> Option<Seq<char>> {
    if args.len() > 1 {
        text_lit(args[1])
    } else {
        None
    }
}

/// The text of the last field named `key` whose value is a text literal.
pub open spec fn last_text_field(fields: Seq<(Seq<char>, MExprV)>, key: Seq<char>) -> Option<Seq<char>>
    decreases fields.len(),
{
    if fields.len() == 0 {
        None
    } else if fields.last().0 == key && text_lit(fields.last().1) is Some {
        text_lit(fields.last().1)
    } else {
        last_text_field(fields.drop_last(), key)
    }
}

/// Schema and table from an index record like `[Name="Orders"]` or `[Schema="s", Item="t"]`.
pub open spec fn index_record(key: MExprV) -> Option<(Option<Seq<char>>, Seq<char>)> {
    match key {
        MExprV::Record(fields) => {
            let item = last_text_field(fields, "Item"@);
            let name = last_text_field(fields, "Name"@);
            if item is Some {
                Some((last_text_field(fields, "Schema"@), item->0))
            } else if name is Some {
                Some((None, name->0))
            } else {
                None
            }
        },
        _ => None,
    }
}

/// The schema of a parent data source `Sql.Database(server, "db")`.
pub open spec fn parent_schema(e: MExprV) -> Option<Seq<char>> {
    match e {
        MExprV::FunctionCall { name, args } => if name == "Sql.Database"@ {
            second_text_arg(args)
        } else {
            None
        },
        _ => None,
    }
}

/// Either option, the first one first.
pub open spec fn or_else(a: Option<Seq<char>>, b: Option<Seq<char>>) -> Option<Seq<char>> {
    if a is Some {
        a
    } else {
        b
    }
}

/// An unrecognised source: its text.
pub open spec fn raw_source(text: Seq<char>) -> ResolvedSourceV {
    ResolvedSourceV { schema: None, table: None, raw: Some(text) }
}

/// The data source an M expression denotes.
pub open spec fn resolve(e: MExprV) -> ResolvedSourceV {
    match e {
        MExprV::FieldAccess { expr, field } => if field == "Data"@ {
            match *expr {
                MExprV::IndexAccess { expr: src, key } => match index_record(*key) {
                    Some((schema, table)) => ResolvedSourceV {
                        schema: or_else(schema, parent_schema(*src)),
                        table: Some(table),
                        raw: None,
                    },
                    None => raw_source(fmt_expr(*expr)),
                },
                _ => raw_source(fmt_expr(*expr)),
            }
        } else {
            raw_source(fmt_expr(e))
        },
        MExprV::FunctionCall { name, args } => if name == "Sql.Database"@ {
            ResolvedSourceV { schema: second_text_arg(args), table: None, raw: None }
        } else if name == "Excel.Workbook"@ {
            raw_source("Excel.Workbook(...)"@)
        } else {
            raw_source(fmt_expr(e))
        },
        _ => raw_source(fmt_expr(e)),
    }
}

fn text_literal_of(e: &MExpr) -> (r: Option<String>)
    ensures
        opt_view(r) == text_lit(e@),
{
    match e {
        MExpr::Literal(MLiteral::Text(s)) => Some(s.clone()),
        _ => None,
    }
}

pub(crate) fn second_text_argument(args: &Vec<MExpr>) -> (r: Option<String>)
    ensures
        opt_view(r) == second_text_arg(crate::grammar::exprs_v(args@)),
{
    if args.len() > 1 {
        text_literal_of(&args[1])
    } else {
        None
    }
}

/// The text of the last field named `key` whose value is a text literal.
fn last_text_field_of(fields: &Vec<(String, MExpr)>, key: &str) -> (r: Option<String>)
    ensures
        opt_view(r) == last_text_field(crate::grammar::fields_v(fields@), key@),
{
    let ghost fv = crate::grammar::fields_v(fields@);
    let mut found: Option<String> = None;
    let mut i: usize = 0;
    while i < fields.len()
        invariant
            i <= fields.len(),
            fv == crate::grammar::fields_v(fields@),
            opt_view(found) == last_text_field(fv.take(i as int), key@),
        decreases fields.len() - i,
    {
        assert(fv.take(i + 1).drop_last() =~= fv.take(i as int));
        assert(fv.take(i + 1).last() == (fields@[i as int].0@, fields@[i as int].1@));
        if str_eq(fields[i].0.as_str(), key) {
            if let Some(s) = text_literal_of(&fields[i].1) {
                found = Some(s);
            }
        }
        i += 1;
    }
    assert(fv.take(fields.len() as int) =~= fv);
    found
}

/// Extract schema and table from an index record like `[Name="Orders"]` or `[Schema="s", Item="t"]`.
fn extract_index_record(key: &MExpr) -> (r: Option<(Option<String>, String)>)
    ensures
        match r {
            Some((s, t)) => index_record(key@) == Some((opt_view(s), t@)),
            None => index_record(key@) is None,
        },
{
    if let MExpr::Record(fields) = key {
        assert(crate::grammar::fields_v(fields@) =~= key@->Record_0);
        let name = last_text_field_of(fields, "Name");
        let schema = last_text_field_of(fields, "Schema");
        let item = last_text_field_of(fields, "Item");
        if let Some(table) = item {
            return Some((schema, table));
        }
        if let Some(table) = name {
            return Some((None, table));
        }
    }
    None
}

/// Try to resolve the schema from a parent data source expression.
fn resolve_parent_schema(expr: &MExpr) -> (r: Option<String>)
    ensures
        opt_view(r) == parent_schema(expr@),
{
    match expr {
        MExpr::FunctionCall { name, args } => {
            if str_eq(name.as_str(), "Sql.Database") {
                let r = second_text_argument(args);
                assert(crate::grammar::exprs_v(args@) =~= expr@->FunctionCall_args);
                r
            } else {
                None
            }
        },
        _ => None,
    }
}

/// Resolve a data source from an M expression.
pub fn resolve_source(expr: &MExpr) -> (r: ResolvedSource)
    ensures
        r@ == resolve(expr@),
{
    match expr {
        MExpr::FieldAccess { expr: inner, field } => {
            if str_eq(field.as_str(), "Data") {
                if let MExpr::IndexAccess { expr: source_expr, key } = &**inner {
                    assert(inner@ == (MExprV::IndexAccess { expr: Box::new(source_expr@), key: Box::new(key@) }));
                    if let Some((schema, table)) = extract_index_record(key) {
                        let parent = resolve_parent_schema(source_expr);
                        let schema = match schema {
                            Some(s) => Some(s),
                            None => parent,
                        };
                        return ResolvedSource { schema, table: Some(table), raw: None };
                    }
                }
                ResolvedSource { schema: None, table: None, raw: Some(format_expr(inner)) }
            } else {
                ResolvedSource { schema: None, table: None, raw: Some(format_expr(expr)) }
            }
        },
        MExpr::FunctionCall { name, args } => {
            if str_eq(name.as_str(), "Sql.Database") {
                let schema = second_text_argument(args);
                assert(crate::grammar::exprs_v(args@) =~= expr@->FunctionCall_args);
                ResolvedSource { schema, table: None, raw: None }
            } else if str_eq(name.as_str(), "Excel.Workbook") {
                ResolvedSource { schema: None, table: None, raw: Some(owned("Excel.Workbook(...)")) }
            } else {
                ResolvedSource { schema: None, table: None, raw: Some(format_expr(expr)) }
            }
        },
        _ => ResolvedSource { schema: None, table: None, raw: Some(format_expr(expr)) },
    }
}

// ---------------------------------------------------------------------------
// Power Query parameters
// ---------------------------------------------------------------------------

/// M keywords, which are never parameters.
pub open spec fn is_m_keyword(n: Seq<char>) -> bool {
    n == "each"@
        || n == "in"@
        || n == "let"@
        || n == "if"@
        || n == "then"@
        || n == "else"@
        || n == "try"@
        || n == "otherwise"@
        || n == "true"@
        || n == "false"@
        || n == "null"@
        || n == "and"@
        || n == "or"@
        || n == "not"@
        || n == "as"@
        || n == "is"@
        || n == "error"@
        || n == "section"@
        || n == "shared"@
        || n == "type"@
}

/// Built-in M identifiers that stand alone.
pub open spec fn is_builtin_identifier(n: Seq<char>) -> bool {
    n == "JoinKind.Inner"@
        || n == "JoinKind.Left"@
        || n == "JoinKind.Right"@
        || n == "JoinKind.Full"@
        || n == "JoinKind.LeftAnti"@
        || n == "JoinKind.RightAnti"@
        || n == "Comparer.OrdinalIgnoreCase"@
        || n == "Comparer.Ordinal"@
        || n == "Comparer.FromCulture"@
        || n == "Int64.Type"@
        || n == "Int32.Type"@
        || n == "Int16.Type"@
        || n == "Int8.Type"@
        || n == "Percentage.Type"@
        || n == "Currency.Type"@
        || n == "Order.Ascending"@
        || n == "Order.Descending"@
        || n == "MissingField.Error"@
        || n == "MissingField.Ignore"@
        || n == "MissingField.UseNull"@
        || n == "GroupKind.Global"@
        || n == "GroupKind.Local"@
        || n == "ExtraValues.Error"@
        || n == "ExtraValues.Ignore"@
        || n == "ExtraValues.List"@
        || n == "_"@
}

/// Whether a name starts with the prefix of a built-in M function or type family.
pub open spec fn has_builtin_prefix(n: Seq<char>) -> bool {
    starts_with(n, "Sql."@)
        || starts_with(n, "Table."@)
        || starts_with(n, "List."@)
        || starts_with(n, "Text."@)
        || starts_with(n, "Date."@)
        || starts_with(n, "DateTime."@)
        || starts_with(n, "DateTimeZone."@)
        || starts_with(n, "Duration."@)
        || starts_with(n, "Binary."@)
        || starts_with(n, "Number."@)
        || starts_with(n, "Int64."@)
        || starts_with(n, "Int32."@)
        || starts_with(n, "Int16."@)
        || starts_with(n, "Int8."@)
        || starts_with(n, "Value."@)
        || starts_with(n, "Record."@)
        || starts_with(n, "Type."@)
        || starts_with(n, "Excel."@)
        || starts_with(n, "Csv."@)
        || starts_with(n, "Json."@)
        || starts_with(n, "Web."@)
        || starts_with(n, "OData."@)
        || starts_with(n, "Odbc."@)
        || starts_with(n, "Oracle."@)
        || starts_with(n, "Teradata."@)
        || starts_with(n, "Sybase."@)
        || starts_with(n, "MySQL."@)
        || starts_with(n, "PostgreSQL."@)
        || starts_with(n, "DB2."@)
        || starts_with(n, "Informix."@)
        || starts_with(n, "Access."@)
        || starts_with(n, "File."@)
        || starts_with(n, "Folder."@)
        || starts_with(n, "SharePoint."@)
        || starts_with(n, "AzureStorage."@)
        || starts_with(n, "ActiveDirectory."@)
        || starts_with(n, "AnalysisServices."@)
        || starts_with(n, "Cube."@)
        || starts_with(n, "Facebook."@)
        || starts_with(n, "GoogleAnalytics."@)
        || starts_with(n, "Hdfs."@)
        || starts_with(n, "HdInsight."@)
        || starts_with(n, "Salesforce."@)
        || starts_with(n, "JoinKind."@)
        || starts_with(n, "Comparer."@)
        || starts_with(n, "Order."@)
        || starts_with(n, "MissingField."@)
        || starts_with(n, "Precision."@)
        || starts_with(n, "RoundingMode."@)
        || starts_with(n, "GroupKind."@)
        || starts_with(n, "ExtraValues."@)
        || starts_with(n, "SortDirection."@)
        || starts_with(n, "Culture."@)
        || starts_with(n, "Occurrence."@)
        || starts_with(n, "TextEncoding."@)
        || starts_with(n, "LineStyle."@)
        || starts_with(n, "QuoteStyle."@)
        || starts_with(n, "CsvStyle."@)
        || starts_with(n, "RelativePosition."@)
        || starts_with(n, "TraceLevel."@)
}

/// Type keywords.
pub open spec fn is_type_keyword(n: Seq<char>) -> bool {
    n == "type"@
        || n == "text"@
        || n == "number"@
        || n == "integer"@
        || n == "logical"@
        || n == "date"@
        || n == "datetime"@
        || n == "datetimezone"@
        || n == "duration"@
        || n == "binary"@
        || n == "table"@
        || n == "any"@
        || n == "record"@
        || n == "list"@
        || n == "function"@
        || n == "action"@
        || n == "none"@
}

/// Whether an identifier is a known M keyword or built-in.
pub open spec fn m_builtin(n: Seq<char>) -> bool {
    is_m_keyword(n) || is_builtin_identifier(n) || has_builtin_prefix(n) || starts_with(n, "type "@)
        || is_type_keyword(n)
}

fn is_m_keyword_exec(n: &str) -> (r: bool)
    ensures
        r == is_m_keyword(n@),
{
    str_eq(n, "each")
        || str_eq(n, "in")
        || str_eq(n, "let")
        || str_eq(n, "if")
        || str_eq(n, "then")
        || str_eq(n, "else")
        || str_eq(n, "try")
        || str_eq(n, "otherwise")
        || str_eq(n, "true")
        || str_eq(n, "false")
        || str_eq(n, "null")
        || str_eq(n, "and")
        || str_eq(n, "or")
        || str_eq(n, "not")
        || str_eq(n, "as")
        || str_eq(n, "is")
        || str_eq(n, "error")
        || str_eq(n, "section")
        || str_eq(n, "shared")
        || str_eq(n, "type")
}

fn is_builtin_identifier_exec(n: &str) -> (r: bool)
    ensures
        r == is_builtin_identifier(n@),
{
    str_eq(n, "JoinKind.Inner")
        || str_eq(n, "JoinKind.Left")
        || str_eq(n, "JoinKind.Right")
        || str_eq(n, "JoinKind.Full")
        || str_eq(n, "JoinKind.LeftAnti")
        || str_eq(n, "JoinKind.RightAnti")
        || str_eq(n, "Comparer.OrdinalIgnoreCase")
        || str_eq(n, "Comparer.Ordinal")
        || str_eq(n, "Comparer.FromCulture")
        || str_eq(n, "Int64.Type")
        || str_eq(n, "Int32.Type")
        || str_eq(n, "Int16.Type")
        || str_eq(n, "Int8.Type")
        || str_eq(n, "Percentage.Type")
        || str_eq(n, "Currency.Type")
        || str_eq(n, "Order.Ascending")
        || str_eq(n, "Order.Descending")
        || str_eq(n, "MissingField.Error")
        || str_eq(n, "MissingField.Ignore")
        || str_eq(n, "MissingField.UseNull")
        || str_eq(n, "GroupKind.Global")
        || str_eq(n, "GroupKind.Local")
        || str_eq(n, "ExtraValues.Error")
        || str_eq(n, "ExtraValues.Ignore")
        || str_eq(n, "ExtraValues.List")
        || str_eq(n, "_")
}

fn has_builtin_prefix_exec(n: &str) -> (r: bool)
    ensures
        r == has_builtin_prefix(n@),
{
    str_starts_with(n, "Sql.")
        || str_starts_with(n, "Table.")
        || str_starts_with(n, "List.")
        || str_starts_with(n, "Text.")
        || str_starts_with(n, "Date.")
        || str_starts_with(n, "DateTime.")
        || str_starts_with(n, "DateTimeZone.")
        || str_starts_with(n, "Duration.")
        || str_starts_with(n, "Binary.")
        || str_starts_with(n, "Number.")
        || str_starts_with(n, "Int64.")
        || str_starts_with(n, "Int32.")
        || str_starts_with(n, "Int16.")
        || str_starts_with(n, "Int8.")
        || str_starts_with(n, "Value.")
        || str_starts_with(n, "Record.")
        || str_starts_with(n, "Type.")
        || str_starts_with(n, "Excel.")
        || str_starts_with(n, "Csv.")
        || str_starts_with(n, "Json.")
        || str_starts_with(n, "Web.")
        || str_starts_with(n, "OData.")
        || str_starts_with(n, "Odbc.")
        || str_starts_with(n, "Oracle.")
        || str_starts_with(n, "Teradata.")
        || str_starts_with(n, "Sybase.")
        || str_starts_with(n, "MySQL.")
        || str_starts_with(n, "PostgreSQL.")
        || str_starts_with(n, "DB2.")
        || str_starts_with(n, "Informix.")
        || str_starts_with(n, "Access.")
        || str_starts_with(n, "File.")
        || str_starts_with(n, "Folder.")
        || str_starts_with(n, "SharePoint.")
        || str_starts_with(n, "AzureStorage.")
        || str_starts_with(n, "ActiveDirectory.")
        || str_starts_with(n, "AnalysisServices.")
        || str_starts_with(n, "Cube.")
        || str_starts_with(n, "Facebook.")
        || str_starts_with(n, "GoogleAnalytics.")
        || str_starts_with(n, "Hdfs.")
        || str_starts_with(n, "HdInsight.")
        || str_starts_with(n, "Salesforce.")
        || str_starts_with(n, "JoinKind.")
        || str_starts_with(n, "Comparer.")
        || str_starts_with(n, "Order.")
        || str_starts_with(n, "MissingField.")
        || str_starts_with(n, "Precision.")
        || str_starts_with(n, "RoundingMode.")
        || str_starts_with(n, "GroupKind.")
        || str_starts_with(n, "ExtraValues.")
        || str_starts_with(n, "SortDirection.")
        || str_starts_with(n, "Culture.")
        || str_starts_with(n, "Occurrence.")
        || str_starts_with(n, "TextEncoding.")
        || str_starts_with(n, "LineStyle.")
        || str_starts_with(n, "QuoteStyle.")
        || str_starts_with(n, "CsvStyle.")
        || str_starts_with(n, "RelativePosition.")
        || str_starts_with(n, "TraceLevel.")
}

fn is_type_keyword_exec(n: &str) -> (r: bool)
    ensures
        r == is_type_keyword(n@),
{
    str_eq(n, "type")
        || str_eq(n, "text")
        || str_eq(n, "number")
        || str_eq(n, "integer")
        || str_eq(n, "logical")
        || str_eq(n, "date")
        || str_eq(n, "datetime")
        || str_eq(n, "datetimezone")
        || str_eq(n, "duration")
        || str_eq(n, "binary")
        || str_eq(n, "table")
        || str_eq(n, "any")
        || str_eq(n, "record")
        || str_eq(n, "list")
        || str_eq(n, "function")
        || str_eq(n, "action")
        || str_eq(n, "none")
}

/// Check if an identifier is a known M keyword or built-in.
pub fn is_m_builtin(name: &str) -> (r: bool)
    ensures
        r == m_builtin(name@),
{
    if is_m_keyword_exec(name) {
        return true;
    }
    if is_builtin_identifier_exec(name) {
        return true;
    }
    if has_builtin_prefix_exec(name) {
        return true;
    }
    if str_starts_with(name, "type ") {
        return true;
    }
    is_type_keyword_exec(name)
}

/// Detected Power Query parameter information.
#[derive(Debug, Clone)]
pub struct DetectedParameter {
    /// Parameter name.
    pub name: String,
    /// File name where first detected.
    pub file: String,
    /// 1-indexed line of first use.
    pub line: usize,
}

/// Model of a parameter: name, file, line.
pub open spec fn param_v(p: DetectedParameter) -> (Seq<char>, Seq<char>, usize) {
    (p.name@, p.file@, p.line)
}

/// Models of named parameters.
pub open spec fn param_pairs_v(v: Seq<(String, DetectedParameter)>) -> Seq<(Seq<char>, (Seq<char>, Seq<char>, usize))> {
    Seq::new(v.len(), |i: int| (v[i].0@, param_v(v[i].1)))
}

/// The entries of a parameter map, in order, each parameter as (name, file, line).
pub uninterp spec fn param_entries(m: IndexMap<String, DetectedParameter>) -> Seq<(Seq<char>, (Seq<char>, Seq<char>, usize))>;

/// An empty parameter map.
///
/// Trusted: calls `IndexMap::new`, which creates an empty map.
#[verifier::external_body]
pub(crate) fn params_new() -> (m: IndexMap<String, DetectedParameter>)
    ensures
        param_entries(m) == Seq::<(Seq<char>, (Seq<char>, Seq<char>, usize))>::empty(),
{
    IndexMap::new()
}

/// Adds a parameter under its name unless the name is present.
///
/// Trusted: calls `IndexMap::entry` and `Entry::or_insert`, which leave a present key and
/// its value alone and put a new key last.
#[verifier::external_body]
pub(crate) fn params_insert_absent(m: &mut IndexMap<String, DetectedParameter>, k: String, v: DetectedParameter)
    ensures
        param_entries(*final(m)) == put_absent(param_entries(*old(m)), k@, param_v(v)),
{
    m.entry(k).or_insert(v);
}

/// Stores a parameter under a name.
///
/// Trusted: calls `IndexMap::insert`, which replaces the value of a present key in its
/// place and puts a new key last.
#[verifier::external_body]
pub(crate) fn params_insert(m: &mut IndexMap<String, DetectedParameter>, k: String, v: DetectedParameter)
    ensures
        param_entries(*final(m)) == put(param_entries(*old(m)), k@, param_v(v)),
{
    m.insert(k, v);
}

/// The entries of a parameter map, in order.
///
/// Trusted: clones the map and collects its owning iterator, which yields the entries in
/// their order; a map holds each key once.
#[verifier::external_body]
pub(crate) fn params_to_vec(m: &IndexMap<String, DetectedParameter>) -> (v: Vec<(String, DetectedParameter)>)
    ensures
        param_pairs_v(v@) == param_entries(*m),
        distinct_keys(param_pairs_v(v@)),
{
    m.clone().into_iter().collect()
}

/// Whether a name is a parameter: not bound by a `let`, not built in, not an input file stem.
pub open spec fn is_param(n: Seq<char>, bound: Seq<Seq<char>>, stems: Seq<Seq<char>>) -> bool {
    !bound.contains(n) && !m_builtin(n) && !stems.contains(n)
}

/// The names bound by let bindings.
pub open spec fn binding_names(bindings: Seq<(Seq<char>, MExprV)>) -> Seq<Seq<char>> {
    Seq::new(bindings.len(), |i: int| bindings[i].0)
}

/// The parameters an expression uses, given the names bound around it and the input file stems.
/// Identifiers inside `Table.Combine` calls are table references, not parameters.
pub open spec fn pnames(e: MExprV, bound: Seq<Seq<char>>, stems: Seq<Seq<char>>) -> Set<Seq<char>>
    decreases e,
{
    match e {
        MExprV::Identifier(n) => if is_param(n, bound, stems) {
            set![n]
        } else {
            Set::empty()
        },
        MExprV::FunctionCall { name, args } => if name == "Table.Combine"@ {
            Set::empty()
        } else {
            pnames_seq(args, bound, stems)
        },
        MExprV::BinaryOp { left, right, .. } => pnames(*left, bound, stems) + pnames(*right, bound, stems),
        MExprV::UnaryOp { expr, .. } => pnames(*expr, bound, stems),
        MExprV::Let { bindings, body } => {
            let inner = bound + binding_names(bindings);
            pnames_fields(bindings, inner, stems) + pnames(*body, inner, stems)
        },
        MExprV::EachExpr(inner) => pnames(*inner, bound, stems),
        MExprV::FieldAccess { expr, .. } => pnames(*expr, bound, stems),
        MExprV::IndexAccess { expr, key } => pnames(*expr, bound, stems) + pnames(*key, bound, stems),
        MExprV::List(items) => pnames_seq(items, bound, stems),
        MExprV::Record(fields) => pnames_fields(fields, bound, stems),
        MExprV::TypeAnnotation { expr, .. } => pnames(*expr, bound, stems),
        _ => Set::empty(),
    }
}

/// The parameters a sequence of expressions uses.
pub open spec fn pnames_seq(s: Seq<MExprV>, bound: Seq<Seq<char>>, stems: Seq<Seq<char>>) -> Set<Seq<char>>
    decreases s,
{
    if s.len() == 0 {
        Set::empty()
    } else {
        pnames_seq(s.subrange(0, s.len() - 1), bound, stems) + pnames(s[s.len() - 1], bound, stems)
    }
}

/// The parameters the values of named expressions use.
pub open spec fn pnames_fields(s: Seq<(Seq<char>, MExprV)>, bound: Seq<Seq<char>>, stems: Seq<Seq<char>>) -> Set<Seq<char>>
    decreases s,
{
    if s.len() == 0 {
        Set::empty()
    } else {
        pnames_fields(s.subrange(0, s.len() - 1), bound, stems) + pnames(s[s.len() - 1].1, bound, stems)
    }
}

/// Whether a name is in a list of names.
pub fn contains_name(v: &Vec<String>, s: &str) -> (r: bool)
    ensures
        r == strings_view(v@).contains(s@),
{
    let mut i: usize = 0;
    while i < v.len()
        invariant
            i <= v.len(),
            forall|j: int| 0 <= j < i ==> strings_view(v@)[j] != s@,
        decreases v.len() - i,
    {
        if str_eq(v[i].as_str(), s) {
            assert(strings_view(v@)[i as int] == s@);
            return true;
        }
        i += 1;
    }
    false
}

/// The parameter map after a recursive step: the keys grow by `names`, keys stay distinct,
/// and every value is (key, file, line).
pub open spec fn params_grow(
    before: Seq<(Seq<char>, (Seq<char>, Seq<char>, usize))>,
    after: Seq<(Seq<char>, (Seq<char>, Seq<char>, usize))>,
    names: Set<Seq<char>>,
    file: Seq<char>,
    line: usize,
) -> bool {
    &&& entry_keys(after) == entry_keys(before) + names
    &&& (distinct_keys(before) ==> distinct_keys(after))
    &&& (uniform_values(before, file, line) ==> uniform_values(after, file, line))
}

proof fn lemma_params_grow_trans(
    a: Seq<(Seq<char>, (Seq<char>, Seq<char>, usize))>,
    b: Seq<(Seq<char>, (Seq<char>, Seq<char>, usize))>,
    c: Seq<(Seq<char>, (Seq<char>, Seq<char>, usize))>,
    x: Set<Seq<char>>,
    y: Set<Seq<char>>,
    file: Seq<char>,
    line: usize,
)
    requires
        params_grow(a, b, x, file, line),
        params_grow(b, c, y, file, line),
    ensures
        params_grow(a, c, x + y, file, line),
{
    assert(entry_keys(a) + x + y =~= entry_keys(a) + (x + y));
}

proof fn lemma_params_grow_refl(a: Seq<(Seq<char>, (Seq<char>, Seq<char>, usize))>, file: Seq<char>, line: usize)
    ensures
        params_grow(a, a, Set::empty(), file, line),
{
    assert(entry_keys(a) + Set::empty() =~= entry_keys(a));
}

/// Collects the parameters of a sequence of expressions.
fn collect_parameters_seq(
    items: &Vec<MExpr>,
    let_bindings: &Vec<String>,
    input_file_stems: &Vec<String>,
    file_name: &str,
    params: &mut IndexMap<String, DetectedParameter>,
    line: usize,
)
    ensures
        params_grow(
            param_entries(*old(params)),
            param_entries(*final(params)),
            pnames_seq(crate::grammar::exprs_v(items@), strings_view(let_bindings@), strings_view(input_file_stems@)),
            file_name@,
            line,
        ),
    decreases items,
{
    let ghost bound = strings_view(let_bindings@);
    let ghost stems = strings_view(input_file_stems@);
    let ghost xs = crate::grammar::exprs_v(items@);
    let ghost start = param_entries(*params);
    proof {
        lemma_params_grow_refl(start, file_name@, line);
        assert(xs.subrange(0, 0) =~= Seq::<MExprV>::empty());
    }
    let mut i: usize = 0;
    while i < items.len()
        invariant
            i <= items.len(),
            bound == strings_view(let_bindings@),
            stems == strings_view(input_file_stems@),
            xs == crate::grammar::exprs_v(items@),
            params_grow(start, param_entries(*params), pnames_seq(xs.subrange(0, i as int), bound, stems), file_name@, line),
        decreases items.len() - i,
    {
        let ghost mid = param_entries(*params);
        assert(decreases_to!(items => items@[i as int]));
        collect_parameters(&items[i], let_bindings, input_file_stems, file_name, params, line);
        proof {
            lemma_params_grow_trans(start, mid, param_entries(*params), pnames_seq(xs.subrange(0, i as int), bound, stems), pnames(xs[i as int], bound, stems), file_name@, line);
            assert(xs.subrange(0, i + 1).subrange(0, i as int) =~= xs.subrange(0, i as int));
        }
        i += 1;
    }
    assert(xs.subrange(0, items.len() as int) =~= xs);
}

/// Collects the parameters of the values of named expressions.
fn collect_parameters_fields(
    fields: &Vec<(String, MExpr)>,
    let_bindings: &Vec<String>,
    input_file_stems: &Vec<String>,
    file_name: &str,
    params: &mut IndexMap<String, DetectedParameter>,
    line: usize,
)
    ensures
        params_grow(
            param_entries(*old(params)),
            param_entries(*final(params)),
            pnames_fields(crate::grammar::fields_v(fields@), strings_view(let_bindings@), strings_view(input_file_stems@)),
            file_name@,
            line,
        ),
    decreases fields,
{
    let ghost bound = strings_view(let_bindings@);
    let ghost stems = strings_view(input_file_stems@);
    let ghost xs = crate::grammar::fields_v(fields@);
    let ghost start = param_entries(*params);
    proof {
        lemma_params_grow_refl(start, file_name@, line);
        assert(xs.subrange(0, 0) =~= Seq::<(Seq<char>, MExprV)>::empty());
    }
    let mut i: usize = 0;
    while i < fields.len()
        invariant
            i <= fields.len(),
            bound == strings_view(let_bindings@),
            stems == strings_view(input_file_stems@),
            xs == crate::grammar::fields_v(fields@),
            params_grow(start, param_entries(*params), pnames_fields(xs.subrange(0, i as int), bound, stems), file_name@, line),
        decreases fields.len() - i,
    {
        let ghost mid = param_entries(*params);
        assert(decreases_to!(fields => fields@[i as int]));
        assert(decreases_to!(fields@[i as int] => fields@[i as int].1));
        collect_parameters(&fields[i].1, let_bindings, input_file_stems, file_name, params, line);
        proof {
            lemma_params_grow_trans(start, mid, param_entries(*params), pnames_fields(xs.subrange(0, i as int), bound, stems), pnames(xs[i as int].1, bound, stems), file_name@, line);
            assert(xs.subrange(0, i + 1).subrange(0, i as int) =~= xs.subrange(0, i as int));
        }
        i += 1;
    }
    assert(xs.subrange(0, fields.len() as int) =~= xs);
}

/// Recursively collect parameter identifiers from an M expression.
fn collect_parameters(
    expr: &MExpr,
    let_bindings: &Vec<String>,
    input_file_stems: &Vec<String>,
    file_name: &str,
    params: &mut IndexMap<String, DetectedParameter>,
    line: usize,
)
    ensures
        params_grow(
            param_entries(*old(params)),
            param_entries(*final(params)),
            pnames(expr@, strings_view(let_bindings@), strings_view(input_file_stems@)),
            file_name@,
            line,
        ),
    decreases expr,
{
    let ghost bound = strings_view(let_bindings@);
    let ghost stems = strings_view(input_file_stems@);
    let ghost start = param_entries(*params);
    match expr {
        MExpr::Identifier(name) => {
            if !contains_name(let_bindings, name.as_str()) && !is_m_builtin(name.as_str())
                && !contains_name(input_file_stems, name.as_str()) {
                let p = DetectedParameter { name: name.clone(), file: owned(file_name), line };
                params_insert_absent(params, name.clone(), p);
                proof {
                    lemma_put_absent(start, name@, param_v(p));
                    assert(entry_keys(start).insert(name@) =~= entry_keys(start) + set![name@]);
                }
            } else {
                proof {
                    lemma_params_grow_refl(start, file_name@, line);
                }
            }
        },
        MExpr::FunctionCall { name, args } => {
            assert(crate::grammar::exprs_v(args@) =~= expr@->FunctionCall_args);
            if str_eq(name.as_str(), "Table.Combine") {
                proof {
                    lemma_params_grow_refl(start, file_name@, line);
                }
                return;
            }
            collect_parameters_seq(args, let_bindings, input_file_stems, file_name, params, line);
        },
        MExpr::BinaryOp { left, right, .. } => {
            collect_parameters(left, let_bindings, input_file_stems, file_name, params, line);
            let ghost mid = param_entries(*params);
            collect_parameters(right, let_bindings, input_file_stems, file_name, params, line);
            proof {
                lemma_params_grow_trans(start, mid, param_entries(*params), pnames(left@, bound, stems), pnames(right@, bound, stems), file_name@, line);
            }
        },
        MExpr::UnaryOp { expr: inner, .. } => {
            collect_parameters(inner, let_bindings, input_file_stems, file_name, params, line);
        },
        MExpr::Let { bindings, body } => {
            let mut inner_bindings: Vec<String> = Vec::new();
            let mut k: usize = 0;
            while k < let_bindings.len()
                invariant
                    k <= let_bindings.len(),
                    strings_view(inner_bindings@) == strings_view(let_bindings@).take(k as int),
                decreases let_bindings.len() - k,
            {
                let ghost before = strings_view(inner_bindings@);
                inner_bindings.push(copy_string(&let_bindings[k]));
                assert(strings_view(inner_bindings@) =~= before.push(let_bindings@[k as int]@));
                assert(strings_view(inner_bindings@) =~= strings_view(let_bindings@).take(k + 1));
                k += 1;
            }
            let ghost fv = crate::grammar::fields_v(bindings@);
            assert(fv =~= expr@->Let_bindings);
            let mut j: usize = 0;
            while j < bindings.len()
                invariant
                    j <= bindings.len(),
                    fv == crate::grammar::fields_v(bindings@),
                    strings_view(inner_bindings@) == bound + binding_names(fv).take(j as int),
                decreases bindings.len() - j,
            {
                let ghost before = strings_view(inner_bindings@);
                inner_bindings.push(copy_string(&bindings[j].0));
                assert(strings_view(inner_bindings@) =~= before.push(bindings@[j as int].0@));
                assert(strings_view(inner_bindings@) =~= bound + binding_names(fv).take(j + 1));
                j += 1;
            }
            assert(binding_names(fv).take(bindings.len() as int) =~= binding_names(fv));
            assert(strings_view(let_bindings@).take(let_bindings.len() as int) =~= bound);
            collect_parameters_fields(bindings, &inner_bindings, input_file_stems, file_name, params, line);
            let ghost mid = param_entries(*params);
            collect_parameters(body, &inner_bindings, input_file_stems, file_name, params, line);
            proof {
                let inner = bound + binding_names(fv);
                lemma_params_grow_trans(start, mid, param_entries(*params), pnames_fields(fv, inner, stems), pnames(body@, inner, stems), file_name@, line);
            }
        },
        MExpr::EachExpr(inner) => {
            collect_parameters(inner, let_bindings, input_file_stems, file_name, params, line);
        },
        MExpr::FieldAccess { expr: inner, .. } => {
            collect_parameters(inner, let_bindings, input_file_stems, file_name, params, line);
        },
        MExpr::IndexAccess { expr: inner, key } => {
            collect_parameters(inner, let_bindings, input_file_stems, file_name, params, line);
            let ghost mid = param_entries(*params);
            collect_parameters(key, let_bindings, input_file_stems, file_name, params, line);
            proof {
                lemma_params_grow_trans(start, mid, param_entries(*params), pnames(inner@, bound, stems), pnames(key@, bound, stems), file_name@, line);
            }
        },
        MExpr::List(items) => {
            assert(crate::grammar::exprs_v(items@) =~= expr@->List_0);
            collect_parameters_seq(items, let_bindings, input_file_stems, file_name, params, line);
        },
        MExpr::Record(fields) => {
            assert(crate::grammar::fields_v(fields@) =~= expr@->Record_0);
            collect_parameters_fields(fields, let_bindings, input_file_stems, file_name, params, line);
        },
        MExpr::TypeAnnotation { expr: inner, .. } => {
            collect_parameters(inner, let_bindings, input_file_stems, file_name, params, line);
        },
        _ => {
            proof {
                lemma_params_grow_refl(start, file_name@, line);
            }
        },
    }
}

/// Inserts a named parameter into a list sorted by name, before the first larger name.
fn insert_sorted(out: &mut Vec<(String, DetectedParameter)>, item: (String, DetectedParameter)) -> (j: usize)
    requires
        sorted_keys(param_pairs_v(old(out)@)),
        !has_key(param_pairs_v(old(out)@), item.0@),
    ensures
        j <= old(out)@.len(),
        final(out)@ == old(out)@.insert(j as int, item),
        param_pairs_v(final(out)@) == param_pairs_v(old(out)@).insert(j as int, (item.0@, param_v(item.1))),
        sorted_keys(param_pairs_v(final(out)@)),
{
    let ghost old_v = param_pairs_v(out@);
    let ghost k = item.0@;
    let mut j: usize = 0;
    let mut go = out.len() > 0 && str_lt(out[0].0.as_str(), item.0.as_str());
    while go
        invariant
            j <= out.len(),
            old_v == param_pairs_v(out@),
            k == item.0@,
            forall|i: int| 0 <= i < j ==> lex_lt(old_v[i].0, k),
            go ==> j < out.len() && lex_lt(old_v[j as int].0, k),
            !go ==> j == out.len() || !lex_lt(old_v[j as int].0, k),
        decreases out.len() - j,
    {
        j += 1;
        go = j < out.len() && str_lt(out[j].0.as_str(), item.0.as_str());
    }
    proof {
        if j < out.len() {
            assert(old_v[j as int].0 != k);
            lemma_lex_order(old_v[j as int].0, k, k);
            assert(lex_lt(k, old_v[j as int].0));
            assert forall|i: int| j <= i < old_v.len() implies lex_lt(k, old_v[i].0) by {
                if i > j {
                    lemma_lex_order(k, old_v[j as int].0, old_v[i].0);
                }
            }
        }
    }
    out.insert(j, item);
    assert(param_pairs_v(out@) =~= old_v.insert(j as int, (k, param_v(item.1))));
    j
}

/// Whether a character continues an M identifier: an ASCII letter or digit, `_` or `.`.
pub open spec fn ident_char(c: char) -> bool {
    is_ascii_letter(c) || is_digit(c) || c == '_' || c == '.'
}

/// Whether `name` stands at position `i` of a text as a whole identifier: not continuing an
/// identifier, a field name (`[name`) or a text (`"name`), and not continued by one.
pub open spec fn occurs_at(text: Seq<char>, name: Seq<char>, i: int) -> bool {
    &&& name.len() > 0
    &&& 0 <= i
    &&& i + name.len() <= text.len()
    &&& text.subrange(i, i + name.len()) == name
    &&& (i == 0 || (!ident_char(text[i - 1]) && text[i - 1] != '[' && text[i - 1] != '"'))
    &&& (i + name.len() == text.len() || !ident_char(text[i + name.len()]))
}

/// The first position from `i` on where `name` stands as a whole identifier.
pub open spec fn first_occurrence(text: Seq<char>, name: Seq<char>, i: int) -> Option<int>
    decreases text.len() - i,
{
    if i < 0 || i >= text.len() {
        None
    } else if occurs_at(text, name, i) {
        Some(i)
    } else {
        first_occurrence(text, name, i + 1)
    }
}

/// The 1-based line of a position in a text.
pub open spec fn line_of_index(text: Seq<char>, i: int) -> nat {
    1 + count_char(text.take(i), '\n')
}

/// The line where a parameter is first used: the line of the first place its name stands as
/// a whole identifier in the source text, or 1 when it stands nowhere.
pub open spec fn first_use_line(text: Seq<char>, name: Seq<char>) -> usize {
    match first_occurrence(text, name, 0) {
        Some(i) => line_of_index(text, i) as usize,
        None => 1,
    }
}

/// Parameter entries with each one's line set to where it is first used in the text.
pub open spec fn located(es: Seq<(Seq<char>, (Seq<char>, Seq<char>, usize))>, text: Seq<char>) -> Seq<(Seq<char>, (Seq<char>, Seq<char>, usize))> {
    Seq::new(es.len(), |i: int| (es[i].0, (es[i].1.0, es[i].1.1, first_use_line(text, es[i].0))))
}

/// Locating entries keeps their keys.
pub proof fn lemma_located_keys(es: Seq<(Seq<char>, (Seq<char>, Seq<char>, usize))>, text: Seq<char>)
    ensures
        entry_keys(located(es, text)) == entry_keys(es),
        located(es, text).len() == es.len(),
{
    let l = located(es, text);
    assert forall|k: Seq<char>| entry_keys(l).contains(k) <==> entry_keys(es).contains(k) by {
        if has_key(l, k) {
            let i = choose|i: int| 0 <= i < l.len() && l[i].0 == k;
            assert(es[i].0 == k);
        }
        if has_key(es, k) {
            let i = choose|i: int| 0 <= i < es.len() && es[i].0 == k;
            assert(l[i].0 == k);
        }
    }
    assert(entry_keys(l) =~= entry_keys(es));
}

/// Whether `name` stands at position `i` of the text as a whole identifier.
fn occurs_at_exec(text: &Vec<char>, name: &Vec<char>, i: usize) -> (r: bool)
    requires
        i < text.len(),
    ensures
        r == occurs_at(text@, name@, i as int),
{
    let n = text.len();
    let m = name.len();
    if m == 0 || m > n - i {
        return false;
    }
    let mut k: usize = 0;
    while k < m
        invariant
            k <= m == name.len(),
            n == text.len(),
            i + m <= n,
            forall|j: int| 0 <= j < k ==> text@[i + j] == name@[j],
        decreases m - k,
    {
        if text[i + k] != name[k] {
            assert(text@.subrange(i as int, i + m)[k as int] != name@[k as int]);
            return false;
        }
        k += 1;
    }
    assert(text@.subrange(i as int, i + m) =~= name@);
    let before_ok = i == 0 || {
        let c = text[i - 1];
        !(('a' <= c && c <= 'z') || ('A' <= c && c <= 'Z') || ('0' <= c && c <= '9') || c == '_' || c == '.')
            && c != '[' && c != '"'
    };
    let after_ok = i + m == n || {
        let c = text[i + m];
        !(('a' <= c && c <= 'z') || ('A' <= c && c <= 'Z') || ('0' <= c && c <= '9') || c == '_' || c == '.')
    };
    before_ok && after_ok
}

/// The line where a parameter is first used in the source text.
fn first_use_line_of(text: &Vec<char>, name: &str) -> (l: usize)
    requires
        text@.len() < usize::MAX,
    ensures
        l == first_use_line(text@, name@),
{
    let nv = chars_of(name);
    let n = text.len();
    let mut i: usize = 0;
    let mut line: usize = 1;
    assert(text@.take(0) =~= Seq::<char>::empty());
    while i < n
        invariant
            i <= n == text.len(),
            n < usize::MAX,
            nv@ == name@,
            line as nat == line_of_index(text@, i as int),
            line <= i + 1,
            first_occurrence(text@, name@, 0) == first_occurrence(text@, name@, i as int),
        decreases n - i,
    {
        if occurs_at_exec(text, &nv, i) {
            return line;
        }
        assert(text@.take(i + 1).drop_last() =~= text@.take(i as int));
        if text[i] == '\n' {
            line += 1;
        }
        i += 1;
    }
    1
}

/// Parameters with each one's line set to where it is first used in the source text.
pub(crate) fn locate_params(params: &IndexMap<String, DetectedParameter>, text: &Vec<char>) -> (r: IndexMap<String, DetectedParameter>)
    requires
        text@.len() < usize::MAX,
        distinct_keys(param_entries(*params)),
    ensures
        param_entries(r) == located(param_entries(*params), text@),
{
    let entries = params_to_vec(params);
    let ghost es = param_pairs_v(entries@);
    let ghost lv = located(es, text@);
    let mut out = params_new();
    let mut j: usize = 0;
    assert(param_entries(out) =~= lv.take(0));
    while j < entries.len()
        invariant
            j <= entries.len(),
            es == param_pairs_v(entries@),
            es == param_entries(*params),
            distinct_keys(es),
            lv == located(es, text@),
            text@.len() < usize::MAX,
            param_entries(out) == lv.take(j as int),
        decreases entries.len() - j,
    {
        let line = first_use_line_of(text, entries[j].0.as_str());
        let p = DetectedParameter { name: copy_string(&entries[j].1.name), file: copy_string(&entries[j].1.file), line };
        proof {
            let before = lv.take(j as int);
            assert forall|i: int| 0 <= i < before.len() implies before[i].0 != es[j as int].0 by {
                assert(before[i].0 == es[i].0);
            }
            lemma_put_new(before, es[j as int].0, lv[j as int].1);
            assert(lv.take(j + 1) =~= before.push(lv[j as int]));
        }
        params_insert_absent(&mut out, copy_string(&entries[j].0), p);
        j += 1;
    }
    assert(lv.take(entries.len() as int) =~= lv);
    out
}

/// The parameters of an M expression with line 1: the names it uses that no `let` binds,
/// that are not built in and that are no input file stem, sorted by name, each under
/// `file_name`.
pub(crate) fn find_parameters(
    expr: &MExpr,
    let_bindings: &Vec<String>,
    input_file_stems: &Vec<String>,
    file_name: &str,
) -> (r: IndexMap<String, DetectedParameter>)
    ensures
        entry_keys(param_entries(r)) == pnames(expr@, strings_view(let_bindings@), strings_view(input_file_stems@)),
        sorted_keys(param_entries(r)),
        uniform_values(param_entries(r), file_name@, 1),
        param_entries(r) == sorted_params(
            pnames(expr@, strings_view(let_bindings@), strings_view(input_file_stems@)),
            file_name@,
        ),
{
    let ghost names = pnames(expr@, strings_view(let_bindings@), strings_view(input_file_stems@));
    let mut params = params_new();
    let ghost empty = param_entries(params);
    collect_parameters(expr, let_bindings, input_file_stems, file_name, &mut params, 1);
    assert(entry_keys(empty) =~= Set::<Seq<char>>::empty());
    assert(entry_keys(param_entries(params)) =~= names);
    let mut entries = params_to_vec(&params);
    let mut sorted: Vec<(String, DetectedParameter)> = Vec::new();
    assert(entry_keys(param_pairs_v(sorted@)) =~= Set::<Seq<char>>::empty());
    assert(entry_keys(param_pairs_v(sorted@)) + entry_keys(param_pairs_v(entries@)) =~= names);
    while entries.len() > 0
        invariant
            sorted_keys(param_pairs_v(sorted@)),
            distinct_keys(param_pairs_v(entries@)),
            entry_keys(param_pairs_v(sorted@)) + entry_keys(param_pairs_v(entries@)) == names,
            forall|k: Seq<char>| has_key(param_pairs_v(entries@), k) ==> !has_key(param_pairs_v(sorted@), k),
            uniform_values(param_pairs_v(sorted@), file_name@, 1),
            uniform_values(param_pairs_v(entries@), file_name@, 1),
        decreases entries.len(),
    {
        let ghost before_e = param_pairs_v(entries@);
        let ghost before_s = param_pairs_v(sorted@);
        let item = entries.pop().unwrap();
        let ghost x = (item.0@, param_v(item.1));
        proof {
            assert(before_e =~= param_pairs_v(entries@).push(x));
            lemma_keys_push(param_pairs_v(entries@), x);
            assert(has_key(before_e, x.0)) by {
                assert(before_e[before_e.len() - 1].0 == x.0);
            }
            assert forall|k: Seq<char>| has_key(param_pairs_v(entries@), k) implies has_key(before_e, k) by {
                let i = choose|i: int| 0 <= i < param_pairs_v(entries@).len() && param_pairs_v(entries@)[i].0 == k;
                assert(before_e[i].0 == k);
            }
            assert forall|i: int, j: int| 0 <= i < j < param_pairs_v(entries@).len() implies param_pairs_v(entries@)[i].0 != param_pairs_v(entries@)[j].0 by {
                assert(before_e[i] == param_pairs_v(entries@)[i] && before_e[j] == param_pairs_v(entries@)[j]);
            }
            assert forall|i: int| 0 <= i < param_pairs_v(entries@).len() implies param_pairs_v(entries@)[i].1 == (param_pairs_v(entries@)[i].0, file_name@, 1usize) by {
                assert(before_e[i] == param_pairs_v(entries@)[i]);
            }
            assert(before_e[before_e.len() - 1] == x);
        }
        let j = insert_sorted(&mut sorted, item);
        proof {
            lemma_keys_insert(before_s, j as int, x);
            assert(entry_keys(param_pairs_v(sorted@)) + entry_keys(param_pairs_v(entries@)) =~= names);
            assert forall|k: Seq<char>| has_key(param_pairs_v(entries@), k) implies !has_key(param_pairs_v(sorted@), k) by {
                if has_key(param_pairs_v(sorted@), k) {
                    assert(entry_keys(param_pairs_v(sorted@)).contains(k));
                    assert(k != x.0);
                    assert(entry_keys(before_s).contains(k));
                }
            }
            assert forall|i: int| 0 <= i < param_pairs_v(sorted@).len() implies param_pairs_v(sorted@)[i].1 == (param_pairs_v(sorted@)[i].0, file_name@, 1usize) by {
                if i < j {
                    assert(param_pairs_v(sorted@)[i] == before_s[i]);
                } else if i > j {
                    assert(param_pairs_v(sorted@)[i] == before_s[i - 1]);
                }
            }
        }
    }
    assert(entry_keys(param_pairs_v(entries@)) =~= Set::<Seq<char>>::empty());
    assert(entry_keys(param_pairs_v(sorted@)) =~= names);
    let ghost sv = param_pairs_v(sorted@);
    let mut result = params_new();
    let mut i: usize = 0;
    while i < sorted.len()
        invariant
            i <= sorted.len(),
            sv == param_pairs_v(sorted@),
            sorted_keys(sv),
            param_entries(result) == sv.take(i as int),
        decreases sorted.len() - i,
    {
        let p = DetectedParameter {
            name: copy_string(&sorted[i].1.name),
            file: copy_string(&sorted[i].1.file),
            line: sorted[i].1.line,
        };
        let ghost before = param_entries(result);
        proof {
            assert forall|m: int| 0 <= m < before.len() implies before[m].0 != sv[i as int].0 by {
                lemma_lex_order(sv[m].0, sv[i as int].0, sv[i as int].0);
            }
            lemma_put_new(before, sv[i as int].0, param_v(p));
        }
        params_insert(&mut result, copy_string(&sorted[i].0), p);
        assert(sv.take(i + 1) =~= before.push((sv[i as int].0, param_v(p))));
        i += 1;
    }
    assert(sv.take(sorted.len() as int) =~= sv);
    proof {
        lemma_sorted_params(param_entries(result), names, file_name@);
    }
    result
}

/// Detect Power Query parameters in an M expression: the names it uses that no `let`
/// binds, that are not built in and that are no input file stem, sorted by name, each
/// under `file_name` at the line of its first use in `source` (the text the expression was
/// read from): the line where its name first stands as a whole identifier, or 1 when it
/// stands nowhere.
pub fn detect_parameters(
    expr: &MExpr,
    let_bindings: &Vec<String>,
    input_file_stems: &Vec<String>,
    file_name: &str,
    source: &str,
) -> (r: IndexMap<String, DetectedParameter>)
    requires
        source@.len() < usize::MAX,
    ensures
        entry_keys(param_entries(r)) == pnames(expr@, strings_view(let_bindings@), strings_view(input_file_stems@)),
        sorted_keys(param_entries(r)),
        forall|i: int| 0 <= i < param_entries(r).len() ==> (#[trigger] param_entries(r)[i]).1 == (
            param_entries(r)[i].0,
            file_name@,
            first_use_line(source@, param_entries(r)[i].0),
        ),
        param_entries(r) == located(
            sorted_params(pnames(expr@, strings_view(let_bindings@), strings_view(input_file_stems@)), file_name@),
            source@,
        ),
{
    let found = find_parameters(expr, let_bindings, input_file_stems, file_name);
    let ghost es = param_entries(found);
    proof {
        lemma_sorted_keys_distinct(es);
        lemma_located_keys(es, source@);
    }
    let text = chars_of(source);
    let r = locate_params(&found, &text);
    proof {
        let l = located(es, source@);
        assert forall|i: int, j: int| 0 <= i < j < l.len() implies lex_lt(l[i].0, l[j].0) by {
            assert(l[i].0 == es[i].0 && l[j].0 == es[j].0);
        }
        assert forall|i: int| 0 <= i < l.len() implies (#[trigger] l[i]).1 == (l[i].0, file_name@, first_use_line(source@, l[i].0)) by {
            assert(es[i].1 == (es[i].0, file_name@, 1usize));
        }
    }
    r
}

/// Sorted keys are distinct.
proof fn lemma_sorted_keys_distinct(es: Seq<(Seq<char>, (Seq<char>, Seq<char>, usize))>)
    requires
        sorted_keys(es),
    ensures
        distinct_keys(es),
{
    assert forall|i: int, j: int| 0 <= i < j < es.len() implies es[i].0 != es[j].0 by {
        lemma_lex_order(es[i].0, es[j].0, es[j].0);
    }
}

/// The header line of one parameter.
pub open spec fn param_header_line(e: (Seq<char>, (Seq<char>, Seq<char>, usize))) -> Seq<char> {
    "--   "@ + e.0 + "  (used at: "@ + e.1.1 + ":"@ + int_decimal(e.1.2 as int) + ")\n"@
}

/// The header lines of parameters.
pub open spec fn param_header_lines(es: Seq<(Seq<char>, (Seq<char>, Seq<char>, usize))>) -> Seq<char>
    decreases es.len(),
{
    if es.len() == 0 {
        Seq::empty()
    } else {
        param_header_lines(es.drop_last()) + param_header_line(es.last())
    }
}

/// The rule that opens and closes the parameter header.
pub open spec fn header_rule() -> Seq<char> {
    "-- =====================================================================\n"@
}

/// The explanation at the top of the parameter header.
pub open spec fn header_intro() -> Seq<char> {
    "-- POWER QUERY PARAMETERS DETECTED\n"@ + "-- The following identifiers are Power Query parameters. Replace each\n"@
        + "-- /* PARAM: <name> */ placeholder with the actual value before running\n"@
        + "-- this query. Parameter values are not available at translation time.\n"@ + "--\n"@
        + "-- Parameters found in this file:\n"@
}

/// The parameter header block: empty when there are no parameters.
pub open spec fn param_header_text(es: Seq<(Seq<char>, (Seq<char>, Seq<char>, usize))>) -> Seq<char> {
    if es.len() == 0 {
        Seq::empty()
    } else {
        header_rule() + header_intro() + param_header_lines(es) + header_rule()
    }
}

/// Generate the parameter header block for a SQL output file.
pub fn generate_param_header(params: &IndexMap<String, DetectedParameter>) -> (r: String)
    ensures
        r@ == param_header_text(param_entries(*params)),
{
    let entries = params_to_vec(params);
    let ghost es = param_entries(*params);
    if entries.len() == 0 {
        return String::new();
    }
    let mut header = String::new();
    header.append("-- =====================================================================\n");
    header.append("-- POWER QUERY PARAMETERS DETECTED\n");
    header.append("-- The following identifiers are Power Query parameters. Replace each\n");
    header.append("-- /* PARAM: <name> */ placeholder with the actual value before running\n");
    header.append("-- this query. Parameter values are not available at translation time.\n");
    header.append("--\n");
    header.append("-- Parameters found in this file:\n");
    let ghost top = header@;
    assert(top =~= header_rule() + header_intro());
    let mut i: usize = 0;
    assert(es.take(0) =~= Seq::<(Seq<char>, (Seq<char>, Seq<char>, usize))>::empty());
    while i < entries.len()
        invariant
            i <= entries.len(),
            es == param_pairs_v(entries@),
            header@ == top + param_header_lines(es.take(i as int)),
        decreases entries.len() - i,
    {
        let mut line = owned("--   ");
        line.append(entries[i].0.as_str());
        line.append("  (used at: ");
        line.append(entries[i].1.file.as_str());
        line.append(":");
        line.append(usize_to_string(entries[i].1.line).as_str());
        line.append(")\n");
        assert(line@ == param_header_line(es[i as int]));
        assert(es.take(i + 1).drop_last() =~= es.take(i as int));
        header.append(line.as_str());
        i += 1;
    }
    assert(es.take(entries.len() as int) =~= es);
    header.append("-- =====================================================================\n");
    header
}

/// Whether a parameter map holds a name.
///
/// Trusted: calls `IndexMap::contains_key`.
#[verifier::external_body]
pub(crate) fn params_contains(m: &IndexMap<String, DetectedParameter>, k: &str) -> (r: bool)
    ensures
        r == entry_keys(param_entries(*m)).contains(k@),
{
    m.contains_key(k)
}

} // verus!
