//! M recursive-descent parser: tokens to AST.
use vstd::prelude::*;
use crate::ast::{BinOp, MDocument, MDocumentV, MExpr, MExprV, MLiteral, MLiteralV, MType, MTypeV, UnOp};
use crate::lexer::{SpannedToken, SpannedTokenV, Token, TokenV, tokens_view};
use crate::text::{i64_to_string, owned, push_char, str_eq, int_decimal, usize_to_string, nat_decimal};
use crate::writer::float_literal_sql;
use crate::syntax::{
    lemma_p_add, lemma_p_add_rest, lemma_p_and, lemma_p_and_rest, lemma_p_as, lemma_p_bindings,
    lemma_p_comparison, lemma_p_concat, lemma_p_concat_rest, lemma_p_document, lemma_p_expr,
    lemma_p_fields_rest, lemma_p_let, lemma_p_list, lemma_p_list_rest, lemma_p_mul, lemma_p_mul_rest,
    lemma_p_not, lemma_p_or, lemma_p_or_rest, lemma_p_postfix, lemma_p_postfix_rest, lemma_p_primary,
    lemma_p_section, lemma_p_section_bindings, lemma_p_type, lemma_p_unary,
    ParseErrorV, char_escape_debug, debug_chars, m_type_name, parse_error_text, str_debug, token_debug,
    type_of_name, ExprResult, add_op, clamp, close_record, comparison_op, err_at, expect_ident, expect_ident_or_string,
    expect_tok, found, fwd, mul_op, p_add, p_add_rest, p_and, p_and_rest, p_as, p_bindings, p_comparison,
    p_concat, p_concat_rest, p_document, p_expr, p_fields_rest, p_let, p_list, p_list_rest, p_mul,
    p_mul_rest, p_not, p_or, p_or_rest, p_postfix, p_postfix_rest, p_primary, p_section,
    p_section_bindings, p_type, p_unary, tok_at, wf_tokens,
};

verus! {

/// Parse error.
#[derive(Debug, Clone)]
pub struct ParseError {
    /// Line number.
    pub line: usize,
    /// Column number.
    pub col: usize,
    /// Error message.
    pub message: String,
}

impl View for ParseError {
    type V = ParseErrorV;

    open spec fn view(&self) -> ParseErrorV {
        ParseErrorV { line: self.line as int, col: self.col as int, message: self.message@ }
    }
}

impl ParseError {
    /// The error as shown to users.
    pub fn describe(&self) -> (s: String)
        ensures
            s@ == parse_error_text(self@),
    {
        let mut s = owned("Parse error at ");
        s.append(usize_to_string(self.line).as_str());
        s.append(":");
        s.append(usize_to_string(self.col).as_str());
        s.append(": ");
        s.append(self.message.as_str());
        s
    }
}

// ---------------------------------------------------------------------------
// Debug text of tokens, as used in error messages
// ---------------------------------------------------------------------------

/// Escapes a character the way `char::escape_debug` does.
///
/// Trusted: calls `char::escape_debug`, whose output depends on the character alone.
#[verifier::external_body]
fn escape_debug_char(out: &mut String, c: char)
    ensures
        final(out)@ == old(out)@ + char_escape_debug(c),
{
    out.extend(c.escape_debug());
}

fn push_str_debug(out: &mut String, s: &String)
    ensures
        final(out)@ == old(out)@ + str_debug(s@),
{
    let cs = crate::text::chars_of(s.as_str());
    push_char(out, '"');
    let ghost start = out@;
    let mut i: usize = 0;
    while i < cs.len()
        invariant
            cs@ == s@,
            i <= cs.len(),
            out@ == start + debug_chars(cs@.take(i as int)),
        decreases cs.len() - i,
    {
        let c = cs[i];
        assert(cs@.take(i + 1).drop_last() =~= cs@.take(i as int));
        if c == '\t' {
            out.append("\\t");
        } else if c == '\r' {
            out.append("\\r");
        } else if c == '\n' {
            out.append("\\n");
        } else if c == '\\' {
            out.append("\\\\");
        } else if c == '"' {
            out.append("\\\"");
        } else if c == '\0' {
            out.append("\\0");
        } else if ' ' <= c && c <= '~' {
            push_char(out, c);
        } else {
            escape_debug_char(out, c);
        }
        assert(out@ =~= start + debug_chars(cs@.take(i + 1)));
        i += 1;
    }
    assert(cs@.take(cs.len() as int) =~= cs@);
    push_char(out, '"');
    assert(final(out)@ =~= old(out)@ + str_debug(s@)) by {
        assert(str_debug(s@) =~= seq!['"'] + debug_chars(s@) + seq!['"']);
    }
}

/// Debug text of a token.
pub fn token_debug_text(t: &Token) -> (s: String)
    ensures
        s@ == token_debug(t@),
{
    proof {
        reveal(token_debug);
    }
    match t {
        Token::Let => owned("Let"),
        Token::In => owned("In"),
        Token::Each => owned("Each"),
        Token::And => owned("And"),
        Token::Or => owned("Or"),
        Token::Not => owned("Not"),
        Token::True => owned("True"),
        Token::False => owned("False"),
        Token::Null => owned("Null"),
        Token::Type => owned("Type"),
        Token::As => owned("As"),
        Token::Section => owned("Section"),
        Token::Shared => owned("Shared"),
        Token::StringLit(v) => {
            let mut s = owned("StringLit(");
            push_str_debug(&mut s, v);
            s.append(")");
            s
        },
        Token::IntegerLit(n) => {
            let mut s = owned("IntegerLit(");
            s.append(i64_to_string(*n).as_str());
            s.append(")");
            s
        },
        Token::NumberLit(v) => {
            let mut s = owned("NumberLit(");
            s.append(float_literal_sql(v).as_str());
            s.append(")");
            s
        },
        Token::Ident(v) => {
            let mut s = owned("Ident(");
            push_str_debug(&mut s, v);
            s.append(")");
            s
        },
        Token::QuotedIdent(v) => {
            let mut s = owned("QuotedIdent(");
            push_str_debug(&mut s, v);
            s.append(")");
            s
        },
        Token::LParen => owned("LParen"),
        Token::RParen => owned("RParen"),
        Token::LBrace => owned("LBrace"),
        Token::RBrace => owned("RBrace"),
        Token::LBracket => owned("LBracket"),
        Token::RBracket => owned("RBracket"),
        Token::Comma => owned("Comma"),
        Token::Eq => owned("Eq"),
        Token::Neq => owned("Neq"),
        Token::Lt => owned("Lt"),
        Token::Lte => owned("Lte"),
        Token::Gt => owned("Gt"),
        Token::Gte => owned("Gte"),
        Token::Plus => owned("Plus"),
        Token::Minus => owned("Minus"),
        Token::Star => owned("Star"),
        Token::Slash => owned("Slash"),
        Token::Ampersand => owned("Ampersand"),
        Token::Dot => owned("Dot"),
        Token::Semicolon => owned("Semicolon"),
        Token::Underscore => owned("Underscore"),
        Token::FatArrow => owned("FatArrow"),
        Token::DotDot => owned("DotDot"),
        Token::Ellipsis => owned("Ellipsis"),
        Token::At => owned("At"),
        Token::Hash => owned("Hash"),
        Token::Eof => owned("Eof"),
    }
}

// ---------------------------------------------------------------------------
// Type names
// ---------------------------------------------------------------------------

/// Convert an M type name to MType.
pub fn string_to_type(name: &str) -> (t: MType)
    ensures
        t@ == type_of_name(name@),
{
    if str_eq(name, "text") { MType::Text }
    else if str_eq(name, "number") { MType::Number }
    else if str_eq(name, "integer") { MType::Integer }
    else if str_eq(name, "logical") { MType::Logical }
    else if str_eq(name, "date") { MType::Date }
    else if str_eq(name, "datetime") { MType::DateTime }
    else if str_eq(name, "datetimezone") { MType::DateTimeZone }
    else if str_eq(name, "duration") { MType::Duration }
    else if str_eq(name, "binary") { MType::Binary }
    else if str_eq(name, "table") { MType::Table }
    else if str_eq(name, "any") { MType::Any }
    else if str_eq(name, "Int64.Type") { MType::Integer }
    else { MType::Unknown(owned(name)) }
}

/// Convert MType to a string representation.
pub fn type_to_string(ty: &MType) -> (s: &str)
    ensures
        s@ == m_type_name(ty@),
{
    match ty {
        MType::Text => "text",
        MType::Number => "number",
        MType::Integer => "integer",
        MType::Logical => "logical",
        MType::Date => "date",
        MType::DateTime => "datetime",
        MType::DateTimeZone => "datetimezone",
        MType::Duration => "duration",
        MType::Binary => "binary",
        MType::Table => "table",
        MType::Any => "any",
        MType::Unknown(s) => s.as_str(),
    }
}

// ---------------------------------------------------------------------------
// The parser
// ---------------------------------------------------------------------------

/// Models of a token vector.
pub open spec fn tv(ts: &Vec<SpannedToken>) -> Seq<SpannedTokenV> {
    tokens_view(ts@)
}

/// Models of a sequence of expressions.
pub open spec fn exprs_v(v: Seq<MExpr>) -> Seq<MExprV> {
    Seq::new(v.len(), |i: int| v[i]@)
}

/// Models of a sequence of named expressions.
pub open spec fn fields_v(v: Seq<(String, MExpr)>) -> Seq<(Seq<char>, MExprV)> {
    Seq::new(v.len(), |i: int| (v[i].0@, v[i].1@))
}

/// An exec parse result agrees with its specification, and moved forward on success.
pub open spec fn expr_parsed(r: Result<(MExpr, usize), ParseError>, s: ExprResult, pos: int, len: int) -> bool {
    match r {
        Ok((e, q)) => s == Ok::<(MExprV, int), ParseErrorV>((e@, q as int)) && pos < q < len,
        Err(err) => s == Err::<(MExprV, int), ParseErrorV>(err@),
    }
}

/// Tokens that `expect` is used with.
pub open spec fn expectable(t: TokenV) -> bool {
    t is Section || t is Semicolon || t is Eq || t is RBrace || t is RBracket || t is RParen || t is Let
        || t is In
}

proof fn lemma_not_last(ts: Seq<SpannedTokenV>, p: int)
    requires
        wf_tokens(ts),
        0 <= p < ts.len(),
        !(ts[p].token is Eof),
    ensures
        p + 1 < ts.len(),
{
}

fn err_here(ts: &Vec<SpannedToken>, pos: usize, message: String) -> (e: ParseError)
    requires
        pos < ts.len(),
    ensures
        e@ == err_at(tv(ts), pos as int, message@),
{
    ParseError { line: ts[pos].line, col: ts[pos].col, message }
}

/// `message` followed by the debug text of the token at `pos`.
fn with_found(message: &str, ts: &Vec<SpannedToken>, pos: usize) -> (m: String)
    requires
        pos < ts.len(),
    ensures
        m@ == message@ + found(tv(ts), pos as int),
{
    let mut m = owned(message);
    m.append(token_debug_text(&ts[pos].token).as_str());
    m
}

fn same_kind(t: &Token, k: &Token) -> (r: bool)
    requires
        expectable(k@),
    ensures
        r == (t@ == k@),
{
    match k {
        Token::Section => matches!(t, Token::Section),
        Token::Semicolon => matches!(t, Token::Semicolon),
        Token::Eq => matches!(t, Token::Eq),
        Token::RBrace => matches!(t, Token::RBrace),
        Token::RBracket => matches!(t, Token::RBracket),
        Token::RParen => matches!(t, Token::RParen),
        Token::Let => matches!(t, Token::Let),
        _ => matches!(t, Token::In),
    }
}

fn expect(ts: &Vec<SpannedToken>, pos: usize, expected: &Token) -> (r: Result<usize, ParseError>)
    requires
        wf_tokens(tv(ts)),
        pos < ts.len(),
        expectable(expected@),
    ensures
        match r {
            Ok(q) => expect_tok(tv(ts), pos as int, expected@) == Ok::<int, ParseErrorV>(q as int) && q
                == pos + 1 && q < ts.len(),
            Err(e) => expect_tok(tv(ts), pos as int, expected@) == Err::<int, ParseErrorV>(e@),
        },
{
    if same_kind(&ts[pos].token, expected) {
        proof {
            lemma_not_last(tv(ts), pos as int);
        }
        Ok(pos + 1)
    } else {
        let mut m = owned("Expected ");
        m.append(token_debug_text(expected).as_str());
        m.append(", found ");
        m.append(token_debug_text(&ts[pos].token).as_str());
        Err(err_here(ts, pos, m))
    }
}

fn expect_ident_exec(ts: &Vec<SpannedToken>, pos: usize) -> (r: Result<(String, usize), ParseError>)
    requires
        wf_tokens(tv(ts)),
        pos < ts.len(),
    ensures
        match r {
            Ok((n, q)) => expect_ident(tv(ts), pos as int) == Ok::<(Seq<char>, int), ParseErrorV>(
                (n@, q as int),
            ) && q == pos + 1 && q < ts.len(),
            Err(e) => expect_ident(tv(ts), pos as int) == Err::<(Seq<char>, int), ParseErrorV>(e@),
        },
{
    match &ts[pos].token {
        Token::Ident(name) => {
            proof {
                lemma_not_last(tv(ts), pos as int);
            }
            Ok((name.clone(), pos + 1))
        },
        Token::QuotedIdent(name) => {
            proof {
                lemma_not_last(tv(ts), pos as int);
            }
            Ok((name.clone(), pos + 1))
        },
        _ => Err(err_here(ts, pos, with_found("Expected identifier, found ", ts, pos))),
    }
}

fn expect_ident_or_string_exec(ts: &Vec<SpannedToken>, pos: usize) -> (r: Result<(String, usize), ParseError>)
    requires
        wf_tokens(tv(ts)),
        pos < ts.len(),
    ensures
        match r {
            Ok((n, q)) => expect_ident_or_string(tv(ts), pos as int) == Ok::<(Seq<char>, int), ParseErrorV>(
                (n@, q as int),
            ) && q == pos + 1 && q < ts.len(),
            Err(e) => expect_ident_or_string(tv(ts), pos as int) == Err::<(Seq<char>, int), ParseErrorV>(e@),
        },
{
    match &ts[pos].token {
        Token::Ident(name) | Token::QuotedIdent(name) | Token::StringLit(name) => {
            proof {
                lemma_not_last(tv(ts), pos as int);
            }
            Ok((name.clone(), pos + 1))
        },
        _ => Err(err_here(ts, pos, with_found("Expected identifier or string, found ", ts, pos))),
    }
}

fn parse_type(ts: &Vec<SpannedToken>, pos: usize) -> (r: Result<(MType, usize), ParseError>)
    requires
        wf_tokens(tv(ts)),
        pos < ts.len(),
    ensures
        match r {
            Ok((t, q)) => p_type(tv(ts), pos as int) == Ok::<(MTypeV, int), ParseErrorV>((t@, q as int)) && q
                == pos + 1 && q < ts.len(),
            Err(e) => p_type(tv(ts), pos as int) == Err::<(MTypeV, int), ParseErrorV>(e@),
        },
{
    proof {
        lemma_p_type(tv(ts), pos as int);
    }
    match &ts[pos].token {
        Token::Ident(name) => {
            proof {
                lemma_not_last(tv(ts), pos as int);
            }
            Ok((string_to_type(name.as_str()), pos + 1))
        },
        _ => Err(err_here(ts, pos, with_found("Expected type name, found ", ts, pos))),
    }
}

/// Parse an expression at `pos`.
fn parse_expr_at(ts: &Vec<SpannedToken>, pos: usize) -> (r: Result<(MExpr, usize), ParseError>)
    requires
        wf_tokens(tv(ts)),
        pos < ts.len(),
    ensures
        expr_parsed(r, p_expr(tv(ts), pos as int), pos as int, ts.len() as int),
    decreases ts.len() - pos, 13int,
{
    proof {
        lemma_p_expr(tv(ts), pos as int);
    }
    parse_or_expr(ts, pos)
}

pub(crate) fn parse_or_expr(ts: &Vec<SpannedToken>, pos: usize) -> (r: Result<(MExpr, usize), ParseError>)
    requires
        wf_tokens(tv(ts)),
        pos < ts.len(),
    ensures
        expr_parsed(r, p_or(tv(ts), pos as int), pos as int, ts.len() as int),
    decreases ts.len() - pos, 12int,
{
    proof {
        lemma_p_or(tv(ts), pos as int);
    }
    let (mut left, mut p) = match parse_and_expr(ts, pos) {
        Ok(x) => x,
        Err(e) => {
            return Err(e);
        },
    };
    while matches!(ts[p].token, Token::Or)
        invariant
            wf_tokens(tv(ts)),
            pos < p < ts.len(),
            p_or(tv(ts), pos as int) == p_or_rest(tv(ts), p as int, left@),
        decreases ts.len() - p,
    {
        proof {
            lemma_p_or_rest(tv(ts), p as int, left@);
        }
        let (right, q) = match parse_and_expr(ts, p + 1) {
            Ok(x) => x,
            Err(e) => {
                return Err(e);
            },
        };
        left = MExpr::BinaryOp { op: BinOp::Or, left: Box::new(left), right: Box::new(right) };
        p = q;
    }
    proof {
        lemma_p_or_rest(tv(ts), p as int, left@);
    }
    Ok((left, p))
}

fn parse_and_expr(ts: &Vec<SpannedToken>, pos: usize) -> (r: Result<(MExpr, usize), ParseError>)
    requires
        wf_tokens(tv(ts)),
        pos < ts.len(),
    ensures
        expr_parsed(r, p_and(tv(ts), pos as int), pos as int, ts.len() as int),
    decreases ts.len() - pos, 11int,
{
    proof {
        lemma_p_and(tv(ts), pos as int);
    }
    let (mut left, mut p) = match parse_not_expr(ts, pos) {
        Ok(x) => x,
        Err(e) => {
            return Err(e);
        },
    };
    while matches!(ts[p].token, Token::And)
        invariant
            wf_tokens(tv(ts)),
            pos < p < ts.len(),
            p_and(tv(ts), pos as int) == p_and_rest(tv(ts), p as int, left@),
        decreases ts.len() - p,
    {
        proof {
            lemma_p_and_rest(tv(ts), p as int, left@);
        }
        let (right, q) = match parse_not_expr(ts, p + 1) {
            Ok(x) => x,
            Err(e) => {
                return Err(e);
            },
        };
        left = MExpr::BinaryOp { op: BinOp::And, left: Box::new(left), right: Box::new(right) };
        p = q;
    }
    proof {
        lemma_p_and_rest(tv(ts), p as int, left@);
    }
    Ok((left, p))
}

fn parse_not_expr(ts: &Vec<SpannedToken>, pos: usize) -> (r: Result<(MExpr, usize), ParseError>)
    requires
        wf_tokens(tv(ts)),
        pos < ts.len(),
    ensures
        expr_parsed(r, p_not(tv(ts), pos as int), pos as int, ts.len() as int),
    decreases ts.len() - pos, 10int,
{
    proof {
        lemma_p_not(tv(ts), pos as int);
    }
    if matches!(ts[pos].token, Token::Not) {
        proof {
            lemma_not_last(tv(ts), pos as int);
        }
        let (e, q) = match parse_not_expr(ts, pos + 1) {
            Ok(x) => x,
            Err(e) => {
                return Err(e);
            },
        };
        return Ok((MExpr::UnaryOp { op: UnOp::Not, expr: Box::new(e) }, q));
    }
    parse_comparison(ts, pos)
}

fn comparison_of(t: &Token) -> (r: Option<BinOp>)
    ensures
        r == comparison_op(t@),
{
    match t {
        Token::Eq => Some(BinOp::Eq),
        Token::Neq => Some(BinOp::Neq),
        Token::Lt => Some(BinOp::Lt),
        Token::Lte => Some(BinOp::Lte),
        Token::Gt => Some(BinOp::Gt),
        Token::Gte => Some(BinOp::Gte),
        _ => None,
    }
}

fn parse_comparison(ts: &Vec<SpannedToken>, pos: usize) -> (r: Result<(MExpr, usize), ParseError>)
    requires
        wf_tokens(tv(ts)),
        pos < ts.len(),
    ensures
        expr_parsed(r, p_comparison(tv(ts), pos as int), pos as int, ts.len() as int),
    decreases ts.len() - pos, 9int,
{
    proof {
        lemma_p_comparison(tv(ts), pos as int);
    }
    let (left, p) = match parse_concat(ts, pos) {
        Ok(x) => x,
        Err(e) => {
            return Err(e);
        },
    };
    match comparison_of(&ts[p].token) {
        Some(op) => {
            proof {
                lemma_not_last(tv(ts), p as int);
            }
            let (right, q) = match parse_concat(ts, p + 1) {
                Ok(x) => x,
                Err(e) => {
                    return Err(e);
                },
            };
            Ok((MExpr::BinaryOp { op, left: Box::new(left), right: Box::new(right) }, q))
        },
        None => Ok((left, p)),
    }
}

fn parse_concat(ts: &Vec<SpannedToken>, pos: usize) -> (r: Result<(MExpr, usize), ParseError>)
    requires
        wf_tokens(tv(ts)),
        pos < ts.len(),
    ensures
        expr_parsed(r, p_concat(tv(ts), pos as int), pos as int, ts.len() as int),
    decreases ts.len() - pos, 8int,
{
    proof {
        lemma_p_concat(tv(ts), pos as int);
    }
    let (mut left, mut p) = match parse_additive(ts, pos) {
        Ok(x) => x,
        Err(e) => {
            return Err(e);
        },
    };
    while matches!(ts[p].token, Token::Ampersand)
        invariant
            wf_tokens(tv(ts)),
            pos < p < ts.len(),
            p_concat(tv(ts), pos as int) == p_concat_rest(tv(ts), p as int, left@),
        decreases ts.len() - p,
    {
        proof {
            lemma_p_concat_rest(tv(ts), p as int, left@);
        }
        let (right, q) = match parse_additive(ts, p + 1) {
            Ok(x) => x,
            Err(e) => {
                return Err(e);
            },
        };
        left = MExpr::BinaryOp { op: BinOp::Concat, left: Box::new(left), right: Box::new(right) };
        p = q;
    }
    proof {
        lemma_p_concat_rest(tv(ts), p as int, left@);
    }
    Ok((left, p))
}

fn additive_of(t: &Token) -> (r: Option<BinOp>)
    ensures
        r == add_op(t@),
{
    match t {
        Token::Plus => Some(BinOp::Add),
        Token::Minus => Some(BinOp::Sub),
        _ => None,
    }
}

fn multiplicative_of(t: &Token) -> (r: Option<BinOp>)
    ensures
        r == mul_op(t@),
{
    match t {
        Token::Star => Some(BinOp::Mul),
        Token::Slash => Some(BinOp::Div),
        _ => None,
    }
}

fn parse_additive(ts: &Vec<SpannedToken>, pos: usize) -> (r: Result<(MExpr, usize), ParseError>)
    requires
        wf_tokens(tv(ts)),
        pos < ts.len(),
    ensures
        expr_parsed(r, p_add(tv(ts), pos as int), pos as int, ts.len() as int),
    decreases ts.len() - pos, 7int,
{
    proof {
        lemma_p_add(tv(ts), pos as int);
    }
    let (mut left, mut p) = match parse_multiplicative(ts, pos) {
        Ok(x) => x,
        Err(e) => {
            return Err(e);
        },
    };
    let mut op = additive_of(&ts[p].token);
    while op.is_some()
        invariant
            wf_tokens(tv(ts)),
            pos < p < ts.len(),
            op == add_op(tok_at(tv(ts), p as int)),
            p_add(tv(ts), pos as int) == p_add_rest(tv(ts), p as int, left@),
        decreases ts.len() - p,
    {
        proof {
            lemma_p_add_rest(tv(ts), p as int, left@);
        }
        let o = op.unwrap();
        proof {
            lemma_not_last(tv(ts), p as int);
        }
        let (right, q) = match parse_multiplicative(ts, p + 1) {
            Ok(x) => x,
            Err(e) => {
                return Err(e);
            },
        };
        left = MExpr::BinaryOp { op: o, left: Box::new(left), right: Box::new(right) };
        p = q;
        op = additive_of(&ts[p].token);
    }
    proof {
        lemma_p_add_rest(tv(ts), p as int, left@);
    }
    Ok((left, p))
}

fn parse_multiplicative(ts: &Vec<SpannedToken>, pos: usize) -> (r: Result<(MExpr, usize), ParseError>)
    requires
        wf_tokens(tv(ts)),
        pos < ts.len(),
    ensures
        expr_parsed(r, p_mul(tv(ts), pos as int), pos as int, ts.len() as int),
    decreases ts.len() - pos, 6int,
{
    proof {
        lemma_p_mul(tv(ts), pos as int);
    }
    let (mut left, mut p) = match parse_as_expr(ts, pos) {
        Ok(x) => x,
        Err(e) => {
            return Err(e);
        },
    };
    let mut op = multiplicative_of(&ts[p].token);
    while op.is_some()
        invariant
            wf_tokens(tv(ts)),
            pos < p < ts.len(),
            op == mul_op(tok_at(tv(ts), p as int)),
            p_mul(tv(ts), pos as int) == p_mul_rest(tv(ts), p as int, left@),
        decreases ts.len() - p,
    {
        proof {
            lemma_p_mul_rest(tv(ts), p as int, left@);
        }
        let o = op.unwrap();
        proof {
            lemma_not_last(tv(ts), p as int);
        }
        let (right, q) = match parse_as_expr(ts, p + 1) {
            Ok(x) => x,
            Err(e) => {
                return Err(e);
            },
        };
        left = MExpr::BinaryOp { op: o, left: Box::new(left), right: Box::new(right) };
        p = q;
        op = multiplicative_of(&ts[p].token);
    }
    proof {
        lemma_p_mul_rest(tv(ts), p as int, left@);
    }
    Ok((left, p))
}

fn parse_as_expr(ts: &Vec<SpannedToken>, pos: usize) -> (r: Result<(MExpr, usize), ParseError>)
    requires
        wf_tokens(tv(ts)),
        pos < ts.len(),
    ensures
        expr_parsed(r, p_as(tv(ts), pos as int), pos as int, ts.len() as int),
    decreases ts.len() - pos, 5int,
{
    proof {
        lemma_p_as(tv(ts), pos as int);
    }
    let (e, p) = match parse_unary(ts, pos) {
        Ok(x) => x,
        Err(e) => {
            return Err(e);
        },
    };
    if matches!(ts[p].token, Token::As) {
        proof {
            lemma_not_last(tv(ts), p as int);
        }
        let (ty, q) = match parse_type(ts, p + 1) {
            Ok(x) => x,
            Err(e) => {
                return Err(e);
            },
        };
        Ok((MExpr::TypeAnnotation { expr: Box::new(e), ty }, q))
    } else {
        Ok((e, p))
    }
}

fn parse_unary(ts: &Vec<SpannedToken>, pos: usize) -> (r: Result<(MExpr, usize), ParseError>)
    requires
        wf_tokens(tv(ts)),
        pos < ts.len(),
    ensures
        expr_parsed(r, p_unary(tv(ts), pos as int), pos as int, ts.len() as int),
    decreases ts.len() - pos, 4int,
{
    proof {
        lemma_p_unary(tv(ts), pos as int);
    }
    if matches!(ts[pos].token, Token::Minus) {
        proof {
            lemma_not_last(tv(ts), pos as int);
        }
        let (e, q) = match parse_unary(ts, pos + 1) {
            Ok(x) => x,
            Err(e) => {
                return Err(e);
            },
        };
        return Ok((MExpr::UnaryOp { op: UnOp::Neg, expr: Box::new(e) }, q));
    }
    parse_postfix(ts, pos)
}

/// Whether the postfix loop goes on: an index access, or a call of a named function.
fn continues_postfix(ts: &Vec<SpannedToken>, p: usize, e: &MExpr) -> (b: bool)
    requires
        p < ts.len(),
    ensures
        b == (tok_at(tv(ts), p as int) is LBrace || (tok_at(tv(ts), p as int) is LParen
            && e@ is Identifier)),
{
    match &ts[p].token {
        Token::LBrace => true,
        Token::LParen => matches!(e, MExpr::Identifier(_)),
        _ => false,
    }
}

fn parse_postfix(ts: &Vec<SpannedToken>, pos: usize) -> (r: Result<(MExpr, usize), ParseError>)
    requires
        wf_tokens(tv(ts)),
        pos < ts.len(),
    ensures
        expr_parsed(r, p_postfix(tv(ts), pos as int), pos as int, ts.len() as int),
    decreases ts.len() - pos, 3int,
{
    proof {
        lemma_p_postfix(tv(ts), pos as int);
    }
    let (mut e, mut p) = match parse_primary(ts, pos) {
        Ok(x) => x,
        Err(e) => {
            return Err(e);
        },
    };
    while continues_postfix(ts, p, &e)
        invariant
            wf_tokens(tv(ts)),
            pos < p < ts.len(),
            p_postfix(tv(ts), pos as int) == p_postfix_rest(tv(ts), p as int, e@),
        decreases ts.len() - p,
    {
        proof {
            lemma_p_postfix_rest(tv(ts), p as int, e@);
        }
        proof {
            lemma_not_last(tv(ts), p as int);
        }
        if matches!(ts[p].token, Token::LBrace) {
            let (key, q) = match parse_expr_at(ts, p + 1) {
                Ok(x) => x,
                Err(err) => {
                    return Err(err);
                },
            };
            let q2 = match expect(ts, q, &Token::RBrace) {
                Ok(x) => x,
                Err(err) => {
                    return Err(err);
                },
            };
            if matches!(ts[q2].token, Token::LBracket) {
                proof {
                    lemma_not_last(tv(ts), q2 as int);
                }
                let (field, q3) = match expect_ident_or_string_exec(ts, q2 + 1) {
                    Ok(x) => x,
                    Err(err) => {
                        return Err(err);
                    },
                };
                let q4 = match expect(ts, q3, &Token::RBracket) {
                    Ok(x) => x,
                    Err(err) => {
                        return Err(err);
                    },
                };
                let indexed = MExpr::IndexAccess { expr: Box::new(e), key: Box::new(key) };
                let ghost iv = indexed@;
                e = MExpr::FieldAccess { expr: Box::new(indexed), field };
                assert(e@ == (MExprV::FieldAccess { expr: Box::new(iv), field: field@ }));
                p = q4;
            } else {
                e = MExpr::IndexAccess { expr: Box::new(e), key: Box::new(key) };
                p = q2;
            }
        } else {
            let ghost ev = e@;
            e = match e {
                MExpr::Identifier(name) => {
                    assert(ev->Identifier_0 == name@);
                    let (args, q) = match parse_expr_list(ts, p + 1, &Token::RParen) {
                        Ok(x) => x,
                        Err(err) => {
                            return Err(err);
                        },
                    };
                    let q2 = match expect(ts, q, &Token::RParen) {
                        Ok(x) => x,
                        Err(err) => {
                            return Err(err);
                        },
                    };
                    let call = MExpr::FunctionCall { name, args };
                    assert(call@ == (MExprV::FunctionCall { name: name@, args: exprs_v(args@) })) by {
                        assert(exprs_v(args@) =~= call@->FunctionCall_args);
                    }
                    assert(p_postfix_rest(tv(ts), p as int, ev) == p_postfix_rest(tv(ts), q2 as int, call@));
                    p = q2;
                    call
                },
                other => other,
            };
        }
    }
    proof {
        lemma_p_postfix_rest(tv(ts), p as int, e@);
    }
    Ok((e, p))
}

/// Comma-separated expressions up to `close` (not consumed).
fn parse_expr_list(ts: &Vec<SpannedToken>, pos: usize, close: &Token) -> (r: Result<(Vec<MExpr>, usize), ParseError>)
    requires
        wf_tokens(tv(ts)),
        pos < ts.len(),
        expectable(close@),
    ensures
        match r {
            Ok((v, q)) => p_list(tv(ts), pos as int, close@) == Ok::<(Seq<MExprV>, int), ParseErrorV>(
                (exprs_v(v@), q as int),
            ) && pos <= q < ts.len(),
            Err(e) => p_list(tv(ts), pos as int, close@) == Err::<(Seq<MExprV>, int), ParseErrorV>(e@),
        },
    decreases ts.len() - pos, 14int,
{
    proof {
        lemma_p_list(tv(ts), pos as int, close@);
    }
    let mut items: Vec<MExpr> = Vec::new();
    if same_kind(&ts[pos].token, close) {
        assert(exprs_v(items@) =~= Seq::<MExprV>::empty());
        return Ok((items, pos));
    }
    let (first, mut p) = match parse_expr_at(ts, pos) {
        Ok(x) => x,
        Err(e) => {
            return Err(e);
        },
    };
    items.push(first);
    assert(exprs_v(items@) =~= seq![first@]);
    while matches!(ts[p].token, Token::Comma)
        invariant
            wf_tokens(tv(ts)),
            pos < p < ts.len(),
            expectable(close@),
            p_list(tv(ts), pos as int, close@) == p_list_rest(tv(ts), p as int, exprs_v(items@), close@),
        decreases ts.len() - p,
    {
        proof {
            lemma_p_list_rest(tv(ts), p as int, exprs_v(items@), close@);
        }
        proof {
            lemma_not_last(tv(ts), p as int);
        }
        if same_kind(&ts[p + 1].token, close) {
            return Ok((items, p + 1));
        }
        let (item, q) = match parse_expr_at(ts, p + 1) {
            Ok(x) => x,
            Err(e) => {
                return Err(e);
            },
        };
        let ghost before = exprs_v(items@);
        items.push(item);
        assert(exprs_v(items@) =~= before.push(item@));
        p = q;
    }
    proof {
        lemma_p_list_rest(tv(ts), p as int, exprs_v(items@), close@);
    }
    Ok((items, p))
}

fn parse_let(ts: &Vec<SpannedToken>, pos: usize) -> (r: Result<(MExpr, usize), ParseError>)
    requires
        wf_tokens(tv(ts)),
        pos < ts.len(),
    ensures
        expr_parsed(r, p_let(tv(ts), pos as int), pos as int, ts.len() as int),
    decreases ts.len() - pos, 1int,
{
    proof {
        lemma_p_let(tv(ts), pos as int);
    }
    let mut p = match expect(ts, pos, &Token::Let) {
        Ok(x) => x,
        Err(e) => {
            return Err(e);
        },
    };
    let mut bindings: Vec<(String, MExpr)> = Vec::new();
    assert(fields_v(bindings@) =~= Seq::<(Seq<char>, MExprV)>::empty());
    loop
        invariant_except_break
            wf_tokens(tv(ts)),
            pos < p < ts.len(),
            p_let(tv(ts), pos as int) == (match p_bindings(tv(ts), p as int, fields_v(bindings@)) {
                Err(e) => Err(e),
                Ok((bs, q2)) => match expect_tok(tv(ts), q2, TokenV::In) {
                    Err(e) => Err(e),
                    Ok(q3) => if fwd(pos as int, q3, ts.len() as int) {
                        match p_expr(tv(ts), q3) {
                            Err(e) => Err(e),
                            Ok((body, q4)) => Ok((MExprV::Let { bindings: bs, body: Box::new(body) }, q4)),
                        }
                    } else {
                        Ok((MExprV::Let { bindings: bs, body: Box::new(MExprV::Identifier(Seq::empty())) }, q3))
                    },
                },
            }),
        ensures
            pos < p < ts.len(),
            p_let(tv(ts), pos as int) == (match expect_tok(tv(ts), p as int, TokenV::In) {
                Err(e) => Err(e),
                Ok(q3) => if fwd(pos as int, q3, ts.len() as int) {
                    match p_expr(tv(ts), q3) {
                        Err(e) => Err(e),
                        Ok((body, q4)) => Ok((MExprV::Let { bindings: fields_v(bindings@), body: Box::new(body) }, q4)),
                    }
                } else {
                    Ok((MExprV::Let { bindings: fields_v(bindings@), body: Box::new(MExprV::Identifier(Seq::empty())) }, q3))
                },
            }),
        decreases ts.len() - p,
    {
        proof {
            lemma_p_bindings(tv(ts), p as int, fields_v(bindings@));
        }
        let (name, q) = match expect_ident_exec(ts, p) {
            Ok(x) => x,
            Err(e) => {
                return Err(e);
            },
        };
        let q2 = match expect(ts, q, &Token::Eq) {
            Ok(x) => x,
            Err(e) => {
                return Err(e);
            },
        };
        let (value, q3) = match parse_expr_at(ts, q2) {
            Ok(x) => x,
            Err(e) => {
                return Err(e);
            },
        };
        let ghost before = fields_v(bindings@);
        let ghost nm = name@;
        let ghost vv = value@;
        bindings.push((name, value));
        assert(fields_v(bindings@) =~= before.push((nm, vv)));
        if matches!(ts[q3].token, Token::Comma) {
            proof {
                lemma_not_last(tv(ts), q3 as int);
            }
            p = q3 + 1;
        } else {
            p = q3;
            break;
        }
    }
    let q = match expect(ts, p, &Token::In) {
        Ok(x) => x,
        Err(e) => {
            return Err(e);
        },
    };
    let (body, q2) = match parse_expr_at(ts, q) {
        Ok(x) => x,
        Err(e) => {
            return Err(e);
        },
    };
    let e = MExpr::Let { bindings, body: Box::new(body) };
    assert(e@ == (MExprV::Let { bindings: fields_v(bindings@), body: Box::new(body@) })) by {
        assert(fields_v(bindings@) =~= e@->Let_bindings);
    }
    Ok((e, q2))
}

fn parse_primary(ts: &Vec<SpannedToken>, pos: usize) -> (r: Result<(MExpr, usize), ParseError>)
    requires
        wf_tokens(tv(ts)),
        pos < ts.len(),
    ensures
        expr_parsed(r, p_primary(tv(ts), pos as int), pos as int, ts.len() as int),
    decreases ts.len() - pos, 2int,
{
    proof {
        lemma_p_primary(tv(ts), pos as int);
    }
    if !matches!(ts[pos].token, Token::Eof) {
        proof {
            lemma_not_last(tv(ts), pos as int);
        }
    }
    match &ts[pos].token {
        Token::Let => parse_let(ts, pos),
        Token::Each => match parse_expr_at(ts, pos + 1) {
            Ok((e, q)) => Ok((MExpr::EachExpr(Box::new(e)), q)),
            Err(e) => Err(e),
        },
        Token::StringLit(s) => Ok((MExpr::Literal(MLiteral::Text(s.clone())), pos + 1)),
        Token::IntegerLit(n) => Ok((MExpr::Literal(MLiteral::Integer(*n)), pos + 1)),
        Token::NumberLit(s) => Ok((MExpr::Literal(MLiteral::Number(s.clone())), pos + 1)),
        Token::True => Ok((MExpr::Literal(MLiteral::Bool(true)), pos + 1)),
        Token::False => Ok((MExpr::Literal(MLiteral::Bool(false)), pos + 1)),
        Token::Null => Ok((MExpr::Literal(MLiteral::Null), pos + 1)),
        Token::Type => match parse_type(ts, pos + 1) {
            Ok((ty, q)) => {
                let mut name = owned("type ");
                name.append(type_to_string(&ty));
                Ok((MExpr::Identifier(name), q))
            },
            Err(e) => Err(e),
        },
        Token::Ident(n) | Token::QuotedIdent(n) => Ok((MExpr::Identifier(n.clone()), pos + 1)),
        Token::LBrace => {
            let (items, q) = match parse_expr_list(ts, pos + 1, &Token::RBrace) {
                Ok(x) => x,
                Err(e) => {
                    return Err(e);
                },
            };
            let q2 = match expect(ts, q, &Token::RBrace) {
                Ok(x) => x,
                Err(e) => {
                    return Err(e);
                },
            };
            let list = MExpr::List(items);
            assert(list@ == MExprV::List(exprs_v(items@))) by {
                assert(exprs_v(items@) =~= list@->List_0);
            }
            Ok((list, q2))
        },
        Token::LBracket => parse_bracket(ts, pos),
        Token::LParen => {
            let (e, q) = match parse_expr_at(ts, pos + 1) {
                Ok(x) => x,
                Err(err) => {
                    return Err(err);
                },
            };
            match expect(ts, q, &Token::RParen) {
                Ok(q2) => Ok((e, q2)),
                Err(err) => Err(err),
            }
        },
        Token::Underscore => Ok((MExpr::Identifier(owned("_")), pos + 1)),
        _ => Err(err_here(ts, pos, with_found("Unexpected token: ", ts, pos))),
    }
}

/// A primary expression starting with `[`: a row field `[Name]` or a record `[k = v, ...]`.
fn parse_bracket(ts: &Vec<SpannedToken>, pos: usize) -> (r: Result<(MExpr, usize), ParseError>)
    requires
        wf_tokens(tv(ts)),
        pos < ts.len(),
        tok_at(tv(ts), pos as int) is LBracket,
    ensures
        expr_parsed(r, p_primary(tv(ts), pos as int), pos as int, ts.len() as int),
    decreases ts.len() - pos, 1int,
{
    proof {
        lemma_p_primary(tv(ts), pos as int);
    }
    proof {
        lemma_not_last(tv(ts), pos as int);
    }
    let q0 = pos + 1;
    if !matches!(ts[q0].token, Token::Ident(_) | Token::QuotedIdent(_)) {
        return match expect(ts, q0, &Token::RBracket) {
            Ok(q) => {
                let rec = MExpr::Record(Vec::new());
                assert(rec@ == MExprV::Record(Seq::empty())) by {
                    assert(rec@->Record_0 =~= Seq::<(Seq<char>, MExprV)>::empty());
                }
                Ok((rec, q))
            },
            Err(e) => Err(e),
        };
    }
    let (name, q) = match expect_ident_exec(ts, q0) {
        Ok(x) => x,
        Err(e) => {
            return Err(e);
        },
    };
    if matches!(ts[q].token, Token::RBracket) {
        proof {
            lemma_not_last(tv(ts), q as int);
        }
        return Ok((MExpr::RowField(name), q + 1));
    }
    if !matches!(ts[q].token, Token::Eq) {
        return match expect(ts, q, &Token::RBracket) {
            Ok(q2) => Ok((MExpr::RowField(name), q2)),
            Err(e) => Err(e),
        };
    }
    proof {
        lemma_not_last(tv(ts), q as int);
    }
    let (value, mut p) = match parse_expr_at(ts, q + 1) {
        Ok(x) => x,
        Err(e) => {
            return Err(e);
        },
    };
    let ghost first = (name@, value@);
    let mut fields: Vec<(String, MExpr)> = Vec::new();
    fields.push((name, value));
    assert(fields_v(fields@) =~= seq![first]);
    loop
        invariant_except_break
            wf_tokens(tv(ts)),
            pos < p < ts.len(),
            p_primary(tv(ts), pos as int) == close_record(tv(ts), p_fields_rest(tv(ts), p as int, fields_v(fields@))),
        ensures
            pos < p < ts.len(),
            p_primary(tv(ts), pos as int) == close_record(
                tv(ts),
                Ok::<(Seq<(Seq<char>, MExprV)>, int), ParseErrorV>((fields_v(fields@), p as int)),
            ),
        decreases ts.len() - p,
    {
        proof {
            lemma_p_fields_rest(tv(ts), p as int, fields_v(fields@));
        }
        if !matches!(ts[p].token, Token::Comma) {
            break;
        }
        proof {
            lemma_not_last(tv(ts), p as int);
        }
        if matches!(ts[p + 1].token, Token::RBracket) {
            p = p + 1;
            break;
        }
        let (key, k1) = match expect_ident_exec(ts, p + 1) {
            Ok(x) => x,
            Err(e) => {
                return Err(e);
            },
        };
        let k2 = match expect(ts, k1, &Token::Eq) {
            Ok(x) => x,
            Err(e) => {
                return Err(e);
            },
        };
        let (val, k3) = match parse_expr_at(ts, k2) {
            Ok(x) => x,
            Err(e) => {
                return Err(e);
            },
        };
        let ghost before = fields_v(fields@);
        let ghost kv = (key@, val@);
        fields.push((key, val));
        assert(fields_v(fields@) =~= before.push(kv));
        p = k3;
    }
    let q2 = match expect(ts, p, &Token::RBracket) {
        Ok(x) => x,
        Err(e) => {
            return Err(e);
        },
    };
    let rec = MExpr::Record(fields);
    assert(rec@ == MExprV::Record(fields_v(fields@))) by {
        assert(fields_v(fields@) =~= rec@->Record_0);
    }
    Ok((rec, q2))
}

/// Models of section bindings.
pub open spec fn section_bindings_v(v: Seq<(bool, String, MExpr)>) -> Seq<(bool, Seq<char>, MExprV)> {
    Seq::new(v.len(), |i: int| (v[i].0, v[i].1@, v[i].2@))
}

fn parse_section(ts: &Vec<SpannedToken>, pos: usize) -> (r: Result<(MDocument, usize), ParseError>)
    requires
        wf_tokens(tv(ts)),
        pos < ts.len(),
    ensures
        match r {
            Ok((d, q)) => p_section(tv(ts), pos as int) == Ok::<(MDocumentV, int), ParseErrorV>((d@, q as int))
                && pos < q < ts.len(),
            Err(e) => p_section(tv(ts), pos as int) == Err::<(MDocumentV, int), ParseErrorV>(e@),
        },
{
    proof {
        lemma_p_section(tv(ts), pos as int);
    }
    let q = match expect(ts, pos, &Token::Section) {
        Ok(x) => x,
        Err(e) => {
            return Err(e);
        },
    };
    let (name, q2) = match expect_ident_exec(ts, q) {
        Ok(x) => x,
        Err(e) => {
            return Err(e);
        },
    };
    let mut p = match expect(ts, q2, &Token::Semicolon) {
        Ok(x) => x,
        Err(e) => {
            return Err(e);
        },
    };
    let mut bindings: Vec<(bool, String, MExpr)> = Vec::new();
    assert(section_bindings_v(bindings@) =~= Seq::<(bool, Seq<char>, MExprV)>::empty());
    while !matches!(ts[p].token, Token::Eof)
        invariant
            wf_tokens(tv(ts)),
            pos < p < ts.len(),
            p_section(tv(ts), pos as int) == (match p_section_bindings(tv(ts), p as int, section_bindings_v(bindings@)) {
                Err(e) => Err(e),
                Ok((bs, q4)) => Ok((MDocumentV::Section { name: name@, bindings: bs }, q4)),
            }),
        decreases ts.len() - p,
    {
        proof {
            lemma_p_section_bindings(tv(ts), p as int, section_bindings_v(bindings@));
        }
        proof {
            lemma_not_last(tv(ts), p as int);
        }
        let shared = matches!(ts[p].token, Token::Shared);
        let p1 = if shared { p + 1 } else { p };
        let (bname, k1) = match expect_ident_exec(ts, p1) {
            Ok(x) => x,
            Err(e) => {
                return Err(e);
            },
        };
        let k2 = match expect(ts, k1, &Token::Eq) {
            Ok(x) => x,
            Err(e) => {
                return Err(e);
            },
        };
        let (value, k3) = match parse_expr_at(ts, k2) {
            Ok(x) => x,
            Err(e) => {
                return Err(e);
            },
        };
        let k4 = match expect(ts, k3, &Token::Semicolon) {
            Ok(x) => x,
            Err(e) => {
                return Err(e);
            },
        };
        let ghost before = section_bindings_v(bindings@);
        let ghost b = (shared, bname@, value@);
        bindings.push((shared, bname, value));
        assert(section_bindings_v(bindings@) =~= before.push(b));
        p = k4;
    }
    proof {
        lemma_p_section_bindings(tv(ts), p as int, section_bindings_v(bindings@));
    }
    let doc = MDocument::Section { name, bindings };
    assert(doc@ == (MDocumentV::Section { name: name@, bindings: section_bindings_v(bindings@) })) by {
        assert(section_bindings_v(bindings@) =~= doc@->Section_bindings);
    }
    Ok((doc, p))
}

/// Parser state.
pub struct Parser {
    tokens: Vec<SpannedToken>,
    pos: usize,
}

impl Parser {
    /// Models of the parser's tokens.
    pub closed spec fn token_models(&self) -> Seq<SpannedTokenV> {
        tv(&self.tokens)
    }

    /// The parser's position in its tokens.
    pub closed spec fn position(&self) -> int {
        self.pos as int
    }

    /// Create a new parser from a token stream.
    pub fn new(tokens: Vec<SpannedToken>) -> (p: Parser)
        ensures
            p.token_models() == tokens_view(tokens@),
            p.position() == 0,
    {
        Parser { tokens, pos: 0 }
    }

    /// Parse the entire input as an M document: a section when it starts with
    /// `section`, else one expression. Tokens after that expression are not read.
    pub fn parse_document(&mut self) -> (r: Result<MDocument, ParseError>)
        requires
            wf_tokens(old(self).token_models()),
            old(self).position() < old(self).token_models().len(),
        ensures
            final(self).token_models() == old(self).token_models(),
            match r {
                Ok(d) => p_document(old(self).token_models(), old(self).position()) == Ok::<
                    (MDocumentV, int),
                    ParseErrorV,
                >((d@, final(self).position())) && final(self).position() < final(self).token_models().len(),
                Err(e) => p_document(old(self).token_models(), old(self).position()) == Err::<
                    (MDocumentV, int),
                    ParseErrorV,
                >(e@) && final(self).position() == old(self).position(),
            },
    {
        proof {
            lemma_p_document(self.token_models(), self.position());
        }
        if matches!(self.tokens[self.pos].token, Token::Section) {
            match parse_section(&self.tokens, self.pos) {
                Ok((d, q)) => {
                    self.pos = q;
                    Ok(d)
                },
                Err(e) => Err(e),
            }
        } else {
            match parse_expr_at(&self.tokens, self.pos) {
                Ok((e, q)) => {
                    self.pos = q;
                    Ok(MDocument::Expression(e))
                },
                Err(e) => Err(e),
            }
        }
    }

    /// Parse an expression.
    pub fn parse_expr(&mut self) -> (r: Result<MExpr, ParseError>)
        requires
            wf_tokens(old(self).token_models()),
            old(self).position() < old(self).token_models().len(),
        ensures
            final(self).token_models() == old(self).token_models(),
            match r {
                Ok(e) => p_expr(old(self).token_models(), old(self).position()) == Ok::<(MExprV, int), ParseErrorV>(
                    (e@, final(self).position()),
                ) && final(self).position() < final(self).token_models().len(),
                Err(e) => p_expr(old(self).token_models(), old(self).position()) == Err::<(MExprV, int), ParseErrorV>(
                    e@,
                ) && final(self).position() == old(self).position(),
            },
    {
        match parse_expr_at(&self.tokens, self.pos) {
            Ok((e, q)) => {
                self.pos = q;
                Ok(e)
            },
            Err(e) => Err(e),
        }
    }

    /// Get the current line number.
    pub fn current_line(&self) -> (l: usize)
        ensures
            l == (if 0 <= self.position() < self.token_models().len() {
                self.token_models()[self.position()].line
            } else if self.token_models().len() > 0 {
                self.token_models().last().line
            } else {
                1
            }),
    {
        if self.pos < self.tokens.len() {
            self.tokens[self.pos].line
        } else if self.tokens.len() > 0 {
            self.tokens[self.tokens.len() - 1].line
        } else {
            1
        }
    }
}

} // verus!
