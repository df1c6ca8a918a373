//! Specification of the M grammar: what the parser returns for a token sequence.
use vstd::prelude::*;
use crate::ast::{BinOp, MDocumentV, MExprV, MLiteralV, MTypeV, UnOp};
use crate::text::int_decimal;
use crate::writer::float_sql_text;
use crate::lexer::{SpannedTokenV, TokenV};

verus! {

/// Model of [`ParseError`].
pub struct ParseErrorV {
    pub line: int,
    pub col: int,
    pub message: Seq<char>,
}

/// Text of a parse error for users: `Parse error at <line>:<col>: <message>`.
pub open spec fn parse_error_text(e: ParseErrorV) -> Seq<char> {
    "Parse error at "@ + int_decimal(e.line) + ":"@ + int_decimal(e.col) + ": "@ + e.message
}

/// How std's `char::escape_debug` writes a character.
pub uninterp spec fn char_escape_debug(c: char) -> Seq<char>;

/// Debug text of one character inside a quoted string.
pub open spec fn debug_char(c: char) -> Seq<char> {
    if c == '\t' {
        "\\t"@
    } else if c == '\r' {
        "\\r"@
    } else if c == '\n' {
        "\\n"@
    } else if c == '\\' {
        "\\\\"@
    } else if c == '"' {
        "\\\""@
    } else if c == '\0' {
        "\\0"@
    } else if ' ' <= c <= '~' {
        seq![c]
    } else {
        char_escape_debug(c)
    }
}

/// Debug text of the characters of a string, without the quotes.
pub open spec fn debug_chars(s: Seq<char>) -> Seq<char>
    decreases s.len(),
{
    if s.len() == 0 {
        Seq::empty()
    } else {
        debug_chars(s.drop_last()) + debug_char(s.last())
    }
}

/// Debug text of a string: quoted and escaped.
pub open spec fn str_debug(s: Seq<char>) -> Seq<char> {
    seq!['"'] + debug_chars(s) + seq!['"']
}

/// Debug text of a token.
#[verifier::opaque]
pub open spec fn token_debug(t: TokenV) -> Seq<char> {
    match t {
        TokenV::Let => "Let"@,
        TokenV::In => "In"@,
        TokenV::Each => "Each"@,
        TokenV::And => "And"@,
        TokenV::Or => "Or"@,
        TokenV::Not => "Not"@,
        TokenV::True => "True"@,
        TokenV::False => "False"@,
        TokenV::Null => "Null"@,
        TokenV::Type => "Type"@,
        TokenV::As => "As"@,
        TokenV::Section => "Section"@,
        TokenV::Shared => "Shared"@,
        TokenV::StringLit(s) => "StringLit("@ + str_debug(s) + ")"@,
        TokenV::IntegerLit(n) => "IntegerLit("@ + int_decimal(n as int) + ")"@,
        TokenV::NumberLit(s) => "NumberLit("@ + float_sql_text(s) + ")"@,
        TokenV::Ident(s) => "Ident("@ + str_debug(s) + ")"@,
        TokenV::QuotedIdent(s) => "QuotedIdent("@ + str_debug(s) + ")"@,
        TokenV::LParen => "LParen"@,
        TokenV::RParen => "RParen"@,
        TokenV::LBrace => "LBrace"@,
        TokenV::RBrace => "RBrace"@,
        TokenV::LBracket => "LBracket"@,
        TokenV::RBracket => "RBracket"@,
        TokenV::Comma => "Comma"@,
        TokenV::Eq => "Eq"@,
        TokenV::Neq => "Neq"@,
        TokenV::Lt => "Lt"@,
        TokenV::Lte => "Lte"@,
        TokenV::Gt => "Gt"@,
        TokenV::Gte => "Gte"@,
        TokenV::Plus => "Plus"@,
        TokenV::Minus => "Minus"@,
        TokenV::Star => "Star"@,
        TokenV::Slash => "Slash"@,
        TokenV::Ampersand => "Ampersand"@,
        TokenV::Dot => "Dot"@,
        TokenV::Semicolon => "Semicolon"@,
        TokenV::Underscore => "Underscore"@,
        TokenV::FatArrow => "FatArrow"@,
        TokenV::DotDot => "DotDot"@,
        TokenV::Ellipsis => "Ellipsis"@,
        TokenV::At => "At"@,
        TokenV::Hash => "Hash"@,
        TokenV::Eof => "Eof"@,
    }
}

/// The M type named by a type name.
pub open spec fn type_of_name(name: Seq<char>) -> MTypeV {
    if name == "text"@ { MTypeV::Text }
    else if name == "number"@ { MTypeV::Number }
    else if name == "integer"@ { MTypeV::Integer }
    else if name == "logical"@ { MTypeV::Logical }
    else if name == "date"@ { MTypeV::Date }
    else if name == "datetime"@ { MTypeV::DateTime }
    else if name == "datetimezone"@ { MTypeV::DateTimeZone }
    else if name == "duration"@ { MTypeV::Duration }
    else if name == "binary"@ { MTypeV::Binary }
    else if name == "table"@ { MTypeV::Table }
    else if name == "any"@ { MTypeV::Any }
    else if name == "Int64.Type"@ { MTypeV::Integer }
    else { MTypeV::Unknown(name) }
}

/// The name of an M type.
pub open spec fn m_type_name(ty: MTypeV) -> Seq<char> {
    match ty {
        MTypeV::Text => "text"@,
        MTypeV::Number => "number"@,
        MTypeV::Integer => "integer"@,
        MTypeV::Logical => "logical"@,
        MTypeV::Date => "date"@,
        MTypeV::DateTime => "datetime"@,
        MTypeV::DateTimeZone => "datetimezone"@,
        MTypeV::Duration => "duration"@,
        MTypeV::Binary => "binary"@,
        MTypeV::Table => "table"@,
        MTypeV::Any => "any"@,
        MTypeV::Unknown(s) => s,
    }
}


/// A token sequence as the parser expects it: non-empty and ending with `Eof`.
pub open spec fn wf_tokens(ts: Seq<SpannedTokenV>) -> bool {
    ts.len() > 0 && ts.last().token is Eof
}

/// The token at a position; `Eof` past the end.
pub open spec fn tok_at(ts: Seq<SpannedTokenV>, p: int) -> TokenV {
    if 0 <= p < ts.len() {
        ts[p].token
    } else {
        TokenV::Eof
    }
}

/// The position whose token an error reports: `p`, or the last one.
pub open spec fn clamp(ts: Seq<SpannedTokenV>, p: int) -> int {
    if p < ts.len() - 1 {
        p
    } else {
        ts.len() - 1
    }
}

/// An error reported at a position.
pub open spec fn err_at(ts: Seq<SpannedTokenV>, p: int, message: Seq<char>) -> ParseErrorV {
    ParseErrorV { line: ts[clamp(ts, p)].line, col: ts[clamp(ts, p)].col, message }
}

/// Debug text of the token that an error reports.
pub open spec fn found(ts: Seq<SpannedTokenV>, p: int) -> Seq<char> {
    token_debug(ts[clamp(ts, p)].token)
}

/// Whether a parse moved forward, staying in the token sequence.
pub open spec fn fwd(p: int, q: int, len: int) -> bool {
    p < q <= len
}

/// A binary operation.
pub open spec fn bin(op: BinOp, l: MExprV, r: MExprV) -> MExprV {
    MExprV::BinaryOp { op, left: Box::new(l), right: Box::new(r) }
}

/// Result of parsing an expression: the expression and the position after it.
pub type ExprResult = Result<(MExprV, int), ParseErrorV>;

/// Result of parsing a sequence of expressions.
pub type ExprsResult = Result<(Seq<MExprV>, int), ParseErrorV>;

/// Result of parsing a sequence of named expressions.
pub type FieldsResult = Result<(Seq<(Seq<char>, MExprV)>, int), ParseErrorV>;

/// `expect`: the position after the expected token.
pub open spec fn expect_tok(ts: Seq<SpannedTokenV>, p: int, expected: TokenV) -> Result<int, ParseErrorV> {
    if tok_at(ts, p) == expected {
        Ok(if p < ts.len() { p + 1 } else { p })
    } else {
        Err(err_at(ts, p, "Expected "@ + token_debug(expected) + ", found "@ + token_debug(tok_at(ts, p))))
    }
}

/// `expect_ident`: an identifier (plain or quoted) and the position after it.
pub open spec fn expect_ident(ts: Seq<SpannedTokenV>, p: int) -> Result<(Seq<char>, int), ParseErrorV> {
    match tok_at(ts, p) {
        TokenV::Ident(n) => Ok((n, p + 1)),
        TokenV::QuotedIdent(n) => Ok((n, p + 1)),
        _ => Err(err_at(ts, p, "Expected identifier, found "@ + found(ts, p))),
    }
}

/// `expect_ident_or_string`: an identifier or a text literal and the position after it.
pub open spec fn expect_ident_or_string(ts: Seq<SpannedTokenV>, p: int) -> Result<(Seq<char>, int), ParseErrorV> {
    match tok_at(ts, p) {
        TokenV::Ident(n) => Ok((n, p + 1)),
        TokenV::QuotedIdent(n) => Ok((n, p + 1)),
        TokenV::StringLit(s) => Ok((s, p + 1)),
        _ => Err(err_at(ts, p, "Expected identifier or string, found "@ + found(ts, p))),
    }
}

/// `parse_type`: a type name.
pub closed spec fn p_type(ts: Seq<SpannedTokenV>, p: int) -> Result<(MTypeV, int), ParseErrorV> {
    match tok_at(ts, p) {
        TokenV::Ident(n) => Ok((type_of_name(n), p + 1)),
        _ => Err(err_at(ts, p, "Expected type name, found "@ + found(ts, p))),
    }
}

/// The comparison operator of a token.
pub open spec fn comparison_op(t: TokenV) -> Option<BinOp> {
    match t {
        TokenV::Eq => Some(BinOp::Eq),
        TokenV::Neq => Some(BinOp::Neq),
        TokenV::Lt => Some(BinOp::Lt),
        TokenV::Lte => Some(BinOp::Lte),
        TokenV::Gt => Some(BinOp::Gt),
        TokenV::Gte => Some(BinOp::Gte),
        _ => None,
    }
}

/// The additive operator of a token.
pub open spec fn add_op(t: TokenV) -> Option<BinOp> {
    match t {
        TokenV::Plus => Some(BinOp::Add),
        TokenV::Minus => Some(BinOp::Sub),
        _ => None,
    }
}

/// The multiplicative operator of a token.
pub open spec fn mul_op(t: TokenV) -> Option<BinOp> {
    match t {
        TokenV::Star => Some(BinOp::Mul),
        TokenV::Slash => Some(BinOp::Div),
        _ => None,
    }
}

/// An expression.
pub closed spec fn p_expr(ts: Seq<SpannedTokenV>, p: int) -> ExprResult
    decreases ts.len() - p, 13int,
{
    p_or(ts, p)
}

/// `a or b or ...`
pub closed spec fn p_or(ts: Seq<SpannedTokenV>, p: int) -> ExprResult
    decreases ts.len() - p, 12int,
{
    match p_and(ts, p) {
        Err(e) => Err(e),
        Ok((l, q)) => if fwd(p, q, ts.len() as int) { p_or_rest(ts, q, l) } else { Ok((l, q)) },
    }
}

/// The rest of an `or` chain after `left`.
pub closed spec fn p_or_rest(ts: Seq<SpannedTokenV>, p: int, left: MExprV) -> ExprResult
    decreases ts.len() - p, 0int,
{
    if tok_at(ts, p) is Or {
        match p_and(ts, p + 1) {
            Err(e) => Err(e),
            Ok((r, q)) => if fwd(p, q, ts.len() as int) {
                p_or_rest(ts, q, bin(BinOp::Or, left, r))
            } else {
                Ok((bin(BinOp::Or, left, r), q))
            },
        }
    } else {
        Ok((left, p))
    }
}

/// `a and b and ...`
pub closed spec fn p_and(ts: Seq<SpannedTokenV>, p: int) -> ExprResult
    decreases ts.len() - p, 11int,
{
    match p_not(ts, p) {
        Err(e) => Err(e),
        Ok((l, q)) => if fwd(p, q, ts.len() as int) { p_and_rest(ts, q, l) } else { Ok((l, q)) },
    }
}

/// The rest of an `and` chain after `left`.
pub closed spec fn p_and_rest(ts: Seq<SpannedTokenV>, p: int, left: MExprV) -> ExprResult
    decreases ts.len() - p, 0int,
{
    if tok_at(ts, p) is And {
        match p_not(ts, p + 1) {
            Err(e) => Err(e),
            Ok((r, q)) => if fwd(p, q, ts.len() as int) {
                p_and_rest(ts, q, bin(BinOp::And, left, r))
            } else {
                Ok((bin(BinOp::And, left, r), q))
            },
        }
    } else {
        Ok((left, p))
    }
}

/// `not a`
pub closed spec fn p_not(ts: Seq<SpannedTokenV>, p: int) -> ExprResult
    decreases ts.len() - p, 10int,
{
    if tok_at(ts, p) is Not {
        match p_not(ts, p + 1) {
            Err(e) => Err(e),
            Ok((e, q)) => Ok((MExprV::UnaryOp { op: UnOp::Not, expr: Box::new(e) }, q)),
        }
    } else {
        p_comparison(ts, p)
    }
}

/// `a = b`, `a <> b`, `a < b`, ...
pub closed spec fn p_comparison(ts: Seq<SpannedTokenV>, p: int) -> ExprResult
    decreases ts.len() - p, 9int,
{
    match p_concat(ts, p) {
        Err(e) => Err(e),
        Ok((l, q)) => match comparison_op(tok_at(ts, q)) {
            Some(op) => if fwd(p, q + 1, ts.len() as int) {
                match p_concat(ts, q + 1) {
                    Err(e) => Err(e),
                    Ok((r, q2)) => Ok((bin(op, l, r), q2)),
                }
            } else {
                Ok((l, q))
            },
            None => Ok((l, q)),
        },
    }
}

/// `a & b & ...`
pub closed spec fn p_concat(ts: Seq<SpannedTokenV>, p: int) -> ExprResult
    decreases ts.len() - p, 8int,
{
    match p_add(ts, p) {
        Err(e) => Err(e),
        Ok((l, q)) => if fwd(p, q, ts.len() as int) { p_concat_rest(ts, q, l) } else { Ok((l, q)) },
    }
}

/// The rest of a `&` chain after `left`.
pub closed spec fn p_concat_rest(ts: Seq<SpannedTokenV>, p: int, left: MExprV) -> ExprResult
    decreases ts.len() - p, 0int,
{
    if tok_at(ts, p) is Ampersand {
        match p_add(ts, p + 1) {
            Err(e) => Err(e),
            Ok((r, q)) => if fwd(p, q, ts.len() as int) {
                p_concat_rest(ts, q, bin(BinOp::Concat, left, r))
            } else {
                Ok((bin(BinOp::Concat, left, r), q))
            },
        }
    } else {
        Ok((left, p))
    }
}

/// `a + b - ...`
pub closed spec fn p_add(ts: Seq<SpannedTokenV>, p: int) -> ExprResult
    decreases ts.len() - p, 7int,
{
    match p_mul(ts, p) {
        Err(e) => Err(e),
        Ok((l, q)) => if fwd(p, q, ts.len() as int) { p_add_rest(ts, q, l) } else { Ok((l, q)) },
    }
}

/// The rest of an additive chain after `left`.
pub closed spec fn p_add_rest(ts: Seq<SpannedTokenV>, p: int, left: MExprV) -> ExprResult
    decreases ts.len() - p, 0int,
{
    match add_op(tok_at(ts, p)) {
        Some(op) => match p_mul(ts, p + 1) {
            Err(e) => Err(e),
            Ok((r, q)) => if fwd(p, q, ts.len() as int) {
                p_add_rest(ts, q, bin(op, left, r))
            } else {
                Ok((bin(op, left, r), q))
            },
        },
        None => Ok((left, p)),
    }
}

/// `a * b / ...`
pub closed spec fn p_mul(ts: Seq<SpannedTokenV>, p: int) -> ExprResult
    decreases ts.len() - p, 6int,
{
    match p_as(ts, p) {
        Err(e) => Err(e),
        Ok((l, q)) => if fwd(p, q, ts.len() as int) { p_mul_rest(ts, q, l) } else { Ok((l, q)) },
    }
}

/// The rest of a multiplicative chain after `left`.
pub closed spec fn p_mul_rest(ts: Seq<SpannedTokenV>, p: int, left: MExprV) -> ExprResult
    decreases ts.len() - p, 0int,
{
    match mul_op(tok_at(ts, p)) {
        Some(op) => match p_as(ts, p + 1) {
            Err(e) => Err(e),
            Ok((r, q)) => if fwd(p, q, ts.len() as int) {
                p_mul_rest(ts, q, bin(op, left, r))
            } else {
                Ok((bin(op, left, r), q))
            },
        },
        None => Ok((left, p)),
    }
}

/// `a as type`
pub closed spec fn p_as(ts: Seq<SpannedTokenV>, p: int) -> ExprResult
    decreases ts.len() - p, 5int,
{
    match p_unary(ts, p) {
        Err(e) => Err(e),
        Ok((e, q)) => if tok_at(ts, q) is As {
            match p_type(ts, q + 1) {
                Err(err) => Err(err),
                Ok((ty, q2)) => Ok((MExprV::TypeAnnotation { expr: Box::new(e), ty }, q2)),
            }
        } else {
            Ok((e, q))
        },
    }
}

/// `-a`
pub closed spec fn p_unary(ts: Seq<SpannedTokenV>, p: int) -> ExprResult
    decreases ts.len() - p, 4int,
{
    if tok_at(ts, p) is Minus {
        match p_unary(ts, p + 1) {
            Err(e) => Err(e),
            Ok((e, q)) => Ok((MExprV::UnaryOp { op: UnOp::Neg, expr: Box::new(e) }, q)),
        }
    } else {
        p_postfix(ts, p)
    }
}

/// A primary expression followed by index accesses and calls.
pub closed spec fn p_postfix(ts: Seq<SpannedTokenV>, p: int) -> ExprResult
    decreases ts.len() - p, 3int,
{
    match p_primary(ts, p) {
        Err(e) => Err(e),
        Ok((e, q)) => if fwd(p, q, ts.len() as int) { p_postfix_rest(ts, q, e) } else { Ok((e, q)) },
    }
}

/// Index accesses `{key}` (with an optional `[field]`) and calls `(args)` after `e`.
pub closed spec fn p_postfix_rest(ts: Seq<SpannedTokenV>, p: int, e: MExprV) -> ExprResult
    decreases ts.len() - p, 0int,
{
    let len = ts.len() as int;
    if tok_at(ts, p) is LBrace {
        match p_expr(ts, p + 1) {
            Err(err) => Err(err),
            Ok((key, q)) => match expect_tok(ts, q, TokenV::RBrace) {
                Err(err) => Err(err),
                Ok(q2) => {
                    let indexed = MExprV::IndexAccess { expr: Box::new(e), key: Box::new(key) };
                    if tok_at(ts, q2) is LBracket {
                        match expect_ident_or_string(ts, q2 + 1) {
                            Err(err) => Err(err),
                            Ok((field, q3)) => match expect_tok(ts, q3, TokenV::RBracket) {
                                Err(err) => Err(err),
                                Ok(q4) => {
                                    let next = MExprV::FieldAccess { expr: Box::new(indexed), field };
                                    if fwd(p, q4, len) { p_postfix_rest(ts, q4, next) } else { Ok((next, q4)) }
                                },
                            },
                        }
                    } else if fwd(p, q2, len) {
                        p_postfix_rest(ts, q2, indexed)
                    } else {
                        Ok((indexed, q2))
                    }
                },
            },
        }
    } else if tok_at(ts, p) is LParen && e is Identifier {
        match p_list(ts, p + 1, TokenV::RParen) {
            Err(err) => Err(err),
            Ok((args, q)) => match expect_tok(ts, q, TokenV::RParen) {
                Err(err) => Err(err),
                Ok(q2) => {
                    let next = MExprV::FunctionCall { name: e->Identifier_0, args };
                    if fwd(p, q2, len) { p_postfix_rest(ts, q2, next) } else { Ok((next, q2)) }
                },
            },
        }
    } else {
        Ok((e, p))
    }
}

/// Comma-separated expressions up to (not including) `close`; a trailing comma is allowed.
pub closed spec fn p_list(ts: Seq<SpannedTokenV>, p: int, close: TokenV) -> ExprsResult
    decreases ts.len() - p, 14int,
{
    if tok_at(ts, p) != close {
        match p_expr(ts, p) {
            Err(e) => Err(e),
            Ok((a, q)) => if fwd(p, q, ts.len() as int) {
                p_list_rest(ts, q, seq![a], close)
            } else {
                Ok((seq![a], q))
            },
        }
    } else {
        Ok((Seq::empty(), p))
    }
}

/// The rest of a comma-separated list after the items `acc`.
pub closed spec fn p_list_rest(ts: Seq<SpannedTokenV>, p: int, acc: Seq<MExprV>, close: TokenV) -> ExprsResult
    decreases ts.len() - p, 0int,
{
    if tok_at(ts, p) is Comma {
        if tok_at(ts, p + 1) == close {
            Ok((acc, p + 1))
        } else {
            match p_expr(ts, p + 1) {
                Err(e) => Err(e),
                Ok((a, q)) => if fwd(p, q, ts.len() as int) {
                    p_list_rest(ts, q, acc.push(a), close)
                } else {
                    Ok((acc.push(a), q))
                },
            }
        }
    } else {
        Ok((acc, p))
    }
}

/// Record fields `, name = value` after the fields `acc`.
pub closed spec fn p_fields_rest(ts: Seq<SpannedTokenV>, p: int, acc: Seq<(Seq<char>, MExprV)>) -> FieldsResult
    decreases ts.len() - p, 0int,
{
    if tok_at(ts, p) is Comma {
        if tok_at(ts, p + 1) is RBracket {
            Ok((acc, p + 1))
        } else {
            match expect_ident(ts, p + 1) {
                Err(e) => Err(e),
                Ok((k, q)) => match expect_tok(ts, q, TokenV::Eq) {
                    Err(e) => Err(e),
                    Ok(q2) => if fwd(p, q2, ts.len() as int) {
                        match p_expr(ts, q2) {
                            Err(e) => Err(e),
                            Ok((v, q3)) => if fwd(p, q3, ts.len() as int) {
                                p_fields_rest(ts, q3, acc.push((k, v)))
                            } else {
                                Ok((acc.push((k, v)), q3))
                            },
                        }
                    } else {
                        Ok((acc, q2))
                    },
                },
            }
        }
    } else {
        Ok((acc, p))
    }
}

/// Let bindings `name = value, ...` after the bindings `acc`.
pub closed spec fn p_bindings(ts: Seq<SpannedTokenV>, p: int, acc: Seq<(Seq<char>, MExprV)>) -> FieldsResult
    decreases ts.len() - p, 0int,
{
    match expect_ident(ts, p) {
        Err(e) => Err(e),
        Ok((name, q)) => match expect_tok(ts, q, TokenV::Eq) {
            Err(e) => Err(e),
            Ok(q2) => if fwd(p, q2, ts.len() as int) {
                match p_expr(ts, q2) {
                    Err(e) => Err(e),
                    Ok((v, q3)) => if tok_at(ts, q3) is Comma && fwd(p, q3 + 1, ts.len() as int) {
                        p_bindings(ts, q3 + 1, acc.push((name, v)))
                    } else {
                        Ok((acc.push((name, v)), q3))
                    },
                }
            } else {
                Ok((acc, q2))
            },
        },
    }
}

/// `let bindings in body`
pub closed spec fn p_let(ts: Seq<SpannedTokenV>, p: int) -> ExprResult
    decreases ts.len() - p, 1int,
{
    match expect_tok(ts, p, TokenV::Let) {
        Err(e) => Err(e),
        Ok(q) => if fwd(p, q, ts.len() as int) {
            match p_bindings(ts, q, Seq::empty()) {
                Err(e) => Err(e),
                Ok((bindings, q2)) => match expect_tok(ts, q2, TokenV::In) {
                    Err(e) => Err(e),
                    Ok(q3) => if fwd(p, q3, ts.len() as int) {
                        match p_expr(ts, q3) {
                            Err(e) => Err(e),
                            Ok((body, q4)) => Ok((MExprV::Let { bindings, body: Box::new(body) }, q4)),
                        }
                    } else {
                        Ok((MExprV::Let { bindings, body: Box::new(MExprV::Identifier(Seq::empty())) }, q3))
                    },
                },
            }
        } else {
            Ok((MExprV::Identifier(Seq::empty()), q))
        },
    }
}

/// A record from its fields, closed by `]`.
pub open spec fn close_record(ts: Seq<SpannedTokenV>, r: FieldsResult) -> ExprResult {
    match r {
        Err(e) => Err(e),
        Ok((fields, q)) => match expect_tok(ts, q, TokenV::RBracket) {
            Err(e) => Err(e),
            Ok(q2) => Ok((MExprV::Record(fields), q2)),
        },
    }
}

/// A literal expression.
pub open spec fn lit(l: MLiteralV) -> MExprV {
    MExprV::Literal(l)
}

/// A primary expression.
pub closed spec fn p_primary(ts: Seq<SpannedTokenV>, p: int) -> ExprResult
    decreases ts.len() - p, 2int,
{
    let len = ts.len() as int;
    match tok_at(ts, p) {
        TokenV::Let => p_let(ts, p),
        TokenV::Each => match p_expr(ts, p + 1) {
            Err(e) => Err(e),
            Ok((e, q)) => Ok((MExprV::EachExpr(Box::new(e)), q)),
        },
        TokenV::StringLit(s) => Ok((lit(MLiteralV::Text(s)), p + 1)),
        TokenV::IntegerLit(n) => Ok((lit(MLiteralV::Integer(n)), p + 1)),
        TokenV::NumberLit(s) => Ok((lit(MLiteralV::Number(s)), p + 1)),
        TokenV::True => Ok((lit(MLiteralV::Bool(true)), p + 1)),
        TokenV::False => Ok((lit(MLiteralV::Bool(false)), p + 1)),
        TokenV::Null => Ok((lit(MLiteralV::Null), p + 1)),
        TokenV::Type => match p_type(ts, p + 1) {
            Err(e) => Err(e),
            Ok((ty, q)) => Ok((MExprV::Identifier("type "@ + m_type_name(ty)), q)),
        },
        TokenV::Ident(n) => Ok((MExprV::Identifier(n), p + 1)),
        TokenV::QuotedIdent(n) => Ok((MExprV::Identifier(n), p + 1)),
        TokenV::LBrace => match p_list(ts, p + 1, TokenV::RBrace) {
            Err(e) => Err(e),
            Ok((items, q)) => match expect_tok(ts, q, TokenV::RBrace) {
                Err(e) => Err(e),
                Ok(q2) => Ok((MExprV::List(items), q2)),
            },
        },
        TokenV::LBracket => match expect_ident(ts, p + 1) {
            Ok((name, q)) => if tok_at(ts, q) is RBracket {
                Ok((MExprV::RowField(name), q + 1))
            } else if tok_at(ts, q) is Eq {
                match p_expr(ts, q + 1) {
                    Err(e) => Err(e),
                    Ok((v, q2)) => if fwd(p, q2, len) {
                        close_record(ts, p_fields_rest(ts, q2, seq![(name, v)]))
                    } else {
                        Ok((MExprV::Record(seq![(name, v)]), q2))
                    },
                }
            } else {
                match expect_tok(ts, q, TokenV::RBracket) {
                    Err(e) => Err(e),
                    Ok(q2) => Ok((MExprV::RowField(name), q2)),
                }
            },
            Err(_) => match expect_tok(ts, p + 1, TokenV::RBracket) {
                Err(e) => Err(e),
                Ok(q) => Ok((MExprV::Record(Seq::empty()), q)),
            },
        },
        TokenV::LParen => match p_expr(ts, p + 1) {
            Err(e) => Err(e),
            Ok((e, q)) => match expect_tok(ts, q, TokenV::RParen) {
                Err(err) => Err(err),
                Ok(q2) => Ok((e, q2)),
            },
        },
        TokenV::Underscore => Ok((MExprV::Identifier("_"@), p + 1)),
        _ => Err(err_at(ts, p, "Unexpected token: "@ + found(ts, p))),
    }
}

/// The bindings of a section after `acc`, up to the end of the tokens.
pub closed spec fn p_section_bindings(ts: Seq<SpannedTokenV>, p: int, acc: Seq<(bool, Seq<char>, MExprV)>) -> Result<(Seq<(bool, Seq<char>, MExprV)>, int), ParseErrorV>
    decreases ts.len() - p,
{
    if tok_at(ts, p) is Eof {
        Ok((acc, p))
    } else {
        let shared = tok_at(ts, p) is Shared;
        let p1 = if shared { p + 1 } else { p };
        match expect_ident(ts, p1) {
            Err(e) => Err(e),
            Ok((name, q)) => match expect_tok(ts, q, TokenV::Eq) {
                Err(e) => Err(e),
                Ok(q2) => match p_expr(ts, q2) {
                    Err(e) => Err(e),
                    Ok((v, q3)) => match expect_tok(ts, q3, TokenV::Semicolon) {
                        Err(e) => Err(e),
                        Ok(q4) => if fwd(p, q4, ts.len() as int) {
                            p_section_bindings(ts, q4, acc.push((shared, name, v)))
                        } else {
                            Ok((acc.push((shared, name, v)), q4))
                        },
                    },
                },
            },
        }
    }
}

/// `section Name; shared Binding = expr; ...`
pub closed spec fn p_section(ts: Seq<SpannedTokenV>, p: int) -> Result<(MDocumentV, int), ParseErrorV> {
    match expect_tok(ts, p, TokenV::Section) {
        Err(e) => Err(e),
        Ok(q) => match expect_ident(ts, q) {
            Err(e) => Err(e),
            Ok((name, q2)) => match expect_tok(ts, q2, TokenV::Semicolon) {
                Err(e) => Err(e),
                Ok(q3) => match p_section_bindings(ts, q3, Seq::empty()) {
                    Err(e) => Err(e),
                    Ok((bindings, q4)) => Ok((MDocumentV::Section { name, bindings }, q4)),
                },
            },
        },
    }
}

/// A document: a section, or a single expression.
pub closed spec fn p_document(ts: Seq<SpannedTokenV>, p: int) -> Result<(MDocumentV, int), ParseErrorV> {
    if tok_at(ts, p) is Section {
        p_section(ts, p)
    } else {
        match p_expr(ts, p) {
            Err(e) => Err(e),
            Ok((e, q)) => Ok((MDocumentV::Expression(e), q)),
        }
    }
}

// ---------------------------------------------------------------------------
// One-step unfoldings, for the parser's proofs
// ---------------------------------------------------------------------------

/// Unfolds `p_type` once.
pub proof fn lemma_p_type(ts: Seq<SpannedTokenV>, p: int)
    ensures
        p_type(ts, p) == ({
            match tok_at(ts, p) {
                TokenV::Ident(n) => Ok((type_of_name(n), p + 1)),
                _ => Err(err_at(ts, p, "Expected type name, found "@ + found(ts, p))),
            }
        }),
{
}

/// Unfolds `p_expr` once.
pub proof fn lemma_p_expr(ts: Seq<SpannedTokenV>, p: int)
    ensures
        p_expr(ts, p) == ({
            p_or(ts, p)
        }),
{
}

/// Unfolds `p_or` once.
pub proof fn lemma_p_or(ts: Seq<SpannedTokenV>, p: int)
    ensures
        p_or(ts, p) == ({
            match p_and(ts, p) {
                Err(e) => Err(e),
                Ok((l, q)) => if fwd(p, q, ts.len() as int) { p_or_rest(ts, q, l) } else { Ok((l, q)) },
            }
        }),
{
}

/// Unfolds `p_or_rest` once.
pub proof fn lemma_p_or_rest(ts: Seq<SpannedTokenV>, p: int, left: MExprV)
    ensures
        p_or_rest(ts, p, left) == ({
            if tok_at(ts, p) is Or {
                match p_and(ts, p + 1) {
                    Err(e) => Err(e),
                    Ok((r, q)) => if fwd(p, q, ts.len() as int) {
                        p_or_rest(ts, q, bin(BinOp::Or, left, r))
                    } else {
                        Ok((bin(BinOp::Or, left, r), q))
                    },
                }
            } else {
                Ok((left, p))
            }
        }),
{
}

/// Unfolds `p_and` once.
pub proof fn lemma_p_and(ts: Seq<SpannedTokenV>, p: int)
    ensures
        p_and(ts, p) == ({
            match p_not(ts, p) {
                Err(e) => Err(e),
                Ok((l, q)) => if fwd(p, q, ts.len() as int) { p_and_rest(ts, q, l) } else { Ok((l, q)) },
            }
        }),
{
}

/// Unfolds `p_and_rest` once.
pub proof fn lemma_p_and_rest(ts: Seq<SpannedTokenV>, p: int, left: MExprV)
    ensures
        p_and_rest(ts, p, left) == ({
            if tok_at(ts, p) is And {
                match p_not(ts, p + 1) {
                    Err(e) => Err(e),
                    Ok((r, q)) => if fwd(p, q, ts.len() as int) {
                        p_and_rest(ts, q, bin(BinOp::And, left, r))
                    } else {
                        Ok((bin(BinOp::And, left, r), q))
                    },
                }
            } else {
                Ok((left, p))
            }
        }),
{
}

/// Unfolds `p_not` once.
pub proof fn lemma_p_not(ts: Seq<SpannedTokenV>, p: int)
    ensures
        p_not(ts, p) == ({
            if tok_at(ts, p) is Not {
                match p_not(ts, p + 1) {
                    Err(e) => Err(e),
                    Ok((e, q)) => Ok((MExprV::UnaryOp { op: UnOp::Not, expr: Box::new(e) }, q)),
                }
            } else {
                p_comparison(ts, p)
            }
        }),
{
}

/// Unfolds `p_comparison` once.
pub proof fn lemma_p_comparison(ts: Seq<SpannedTokenV>, p: int)
    ensures
        p_comparison(ts, p) == ({
            match p_concat(ts, p) {
                Err(e) => Err(e),
                Ok((l, q)) => match comparison_op(tok_at(ts, q)) {
                    Some(op) => if fwd(p, q + 1, ts.len() as int) {
                        match p_concat(ts, q + 1) {
                            Err(e) => Err(e),
                            Ok((r, q2)) => Ok((bin(op, l, r), q2)),
                        }
                    } else {
                        Ok((l, q))
                    },
                    None => Ok((l, q)),
                },
            }
        }),
{
}

/// Unfolds `p_concat` once.
pub proof fn lemma_p_concat(ts: Seq<SpannedTokenV>, p: int)
    ensures
        p_concat(ts, p) == ({
            match p_add(ts, p) {
                Err(e) => Err(e),
                Ok((l, q)) => if fwd(p, q, ts.len() as int) { p_concat_rest(ts, q, l) } else { Ok((l, q)) },
            }
        }),
{
}

/// Unfolds `p_concat_rest` once.
pub proof fn lemma_p_concat_rest(ts: Seq<SpannedTokenV>, p: int, left: MExprV)
    ensures
        p_concat_rest(ts, p, left) == ({
            if tok_at(ts, p) is Ampersand {
                match p_add(ts, p + 1) {
                    Err(e) => Err(e),
                    Ok((r, q)) => if fwd(p, q, ts.len() as int) {
                        p_concat_rest(ts, q, bin(BinOp::Concat, left, r))
                    } else {
                        Ok((bin(BinOp::Concat, left, r), q))
                    },
                }
            } else {
                Ok((left, p))
            }
        }),
{
}

/// Unfolds `p_add` once.
pub proof fn lemma_p_add(ts: Seq<SpannedTokenV>, p: int)
    ensures
        p_add(ts, p) == ({
            match p_mul(ts, p) {
                Err(e) => Err(e),
                Ok((l, q)) => if fwd(p, q, ts.len() as int) { p_add_rest(ts, q, l) } else { Ok((l, q)) },
            }
        }),
{
}

/// Unfolds `p_add_rest` once.
pub proof fn lemma_p_add_rest(ts: Seq<SpannedTokenV>, p: int, left: MExprV)
    ensures
        p_add_rest(ts, p, left) == ({
            match add_op(tok_at(ts, p)) {
                Some(op) => match p_mul(ts, p + 1) {
                    Err(e) => Err(e),
                    Ok((r, q)) => if fwd(p, q, ts.len() as int) {
                        p_add_rest(ts, q, bin(op, left, r))
                    } else {
                        Ok((bin(op, left, r), q))
                    },
                },
                None => Ok((left, p)),
            }
        }),
{
}

/// Unfolds `p_mul` once.
pub proof fn lemma_p_mul(ts: Seq<SpannedTokenV>, p: int)
    ensures
        p_mul(ts, p) == ({
            match p_as(ts, p) {
                Err(e) => Err(e),
                Ok((l, q)) => if fwd(p, q, ts.len() as int) { p_mul_rest(ts, q, l) } else { Ok((l, q)) },
            }
        }),
{
}

/// Unfolds `p_mul_rest` once.
pub proof fn lemma_p_mul_rest(ts: Seq<SpannedTokenV>, p: int, left: MExprV)
    ensures
        p_mul_rest(ts, p, left) == ({
            match mul_op(tok_at(ts, p)) {
                Some(op) => match p_as(ts, p + 1) {
                    Err(e) => Err(e),
                    Ok((r, q)) => if fwd(p, q, ts.len() as int) {
                        p_mul_rest(ts, q, bin(op, left, r))
                    } else {
                        Ok((bin(op, left, r), q))
                    },
                },
                None => Ok((left, p)),
            }
        }),
{
}

/// Unfolds `p_as` once.
pub proof fn lemma_p_as(ts: Seq<SpannedTokenV>, p: int)
    ensures
        p_as(ts, p) == ({
            match p_unary(ts, p) {
                Err(e) => Err(e),
                Ok((e, q)) => if tok_at(ts, q) is As {
                    match p_type(ts, q + 1) {
                        Err(err) => Err(err),
                        Ok((ty, q2)) => Ok((MExprV::TypeAnnotation { expr: Box::new(e), ty }, q2)),
                    }
                } else {
                    Ok((e, q))
                },
            }
        }),
{
}

/// Unfolds `p_unary` once.
pub proof fn lemma_p_unary(ts: Seq<SpannedTokenV>, p: int)
    ensures
        p_unary(ts, p) == ({
            if tok_at(ts, p) is Minus {
                match p_unary(ts, p + 1) {
                    Err(e) => Err(e),
                    Ok((e, q)) => Ok((MExprV::UnaryOp { op: UnOp::Neg, expr: Box::new(e) }, q)),
                }
            } else {
                p_postfix(ts, p)
            }
        }),
{
}

/// Unfolds `p_postfix` once.
pub proof fn lemma_p_postfix(ts: Seq<SpannedTokenV>, p: int)
    ensures
        p_postfix(ts, p) == ({
            match p_primary(ts, p) {
                Err(e) => Err(e),
                Ok((e, q)) => if fwd(p, q, ts.len() as int) { p_postfix_rest(ts, q, e) } else { Ok((e, q)) },
            }
        }),
{
}

/// Unfolds `p_postfix_rest` once.
pub proof fn lemma_p_postfix_rest(ts: Seq<SpannedTokenV>, p: int, e: MExprV)
    ensures
        p_postfix_rest(ts, p, e) == ({
            let len = ts.len() as int;
            if tok_at(ts, p) is LBrace {
                match p_expr(ts, p + 1) {
                    Err(err) => Err(err),
                    Ok((key, q)) => match expect_tok(ts, q, TokenV::RBrace) {
                        Err(err) => Err(err),
                        Ok(q2) => {
                            let indexed = MExprV::IndexAccess { expr: Box::new(e), key: Box::new(key) };
                            if tok_at(ts, q2) is LBracket {
                                match expect_ident_or_string(ts, q2 + 1) {
                                    Err(err) => Err(err),
                                    Ok((field, q3)) => match expect_tok(ts, q3, TokenV::RBracket) {
                                        Err(err) => Err(err),
                                        Ok(q4) => {
                                            let next = MExprV::FieldAccess { expr: Box::new(indexed), field };
                                            if fwd(p, q4, len) { p_postfix_rest(ts, q4, next) } else { Ok((next, q4)) }
                                        },
                                    },
                                }
                            } else if fwd(p, q2, len) {
                                p_postfix_rest(ts, q2, indexed)
                            } else {
                                Ok((indexed, q2))
                            }
                        },
                    },
                }
            } else if tok_at(ts, p) is LParen && e is Identifier {
                match p_list(ts, p + 1, TokenV::RParen) {
                    Err(err) => Err(err),
                    Ok((args, q)) => match expect_tok(ts, q, TokenV::RParen) {
                        Err(err) => Err(err),
                        Ok(q2) => {
                            let next = MExprV::FunctionCall { name: e->Identifier_0, args };
                            if fwd(p, q2, len) { p_postfix_rest(ts, q2, next) } else { Ok((next, q2)) }
                        },
                    },
                }
            } else {
                Ok((e, p))
            }
        }),
{
}

/// Unfolds `p_list` once.
pub proof fn lemma_p_list(ts: Seq<SpannedTokenV>, p: int, close: TokenV)
    ensures
        p_list(ts, p, close) == ({
            if tok_at(ts, p) != close {
                match p_expr(ts, p) {
                    Err(e) => Err(e),
                    Ok((a, q)) => if fwd(p, q, ts.len() as int) {
                        p_list_rest(ts, q, seq![a], close)
                    } else {
                        Ok((seq![a], q))
                    },
                }
            } else {
                Ok((Seq::empty(), p))
            }
        }),
{
}

/// Unfolds `p_list_rest` once.
pub proof fn lemma_p_list_rest(ts: Seq<SpannedTokenV>, p: int, acc: Seq<MExprV>, close: TokenV)
    ensures
        p_list_rest(ts, p, acc, close) == ({
            if tok_at(ts, p) is Comma {
                if tok_at(ts, p + 1) == close {
                    Ok((acc, p + 1))
                } else {
                    match p_expr(ts, p + 1) {
                        Err(e) => Err(e),
                        Ok((a, q)) => if fwd(p, q, ts.len() as int) {
                            p_list_rest(ts, q, acc.push(a), close)
                        } else {
                            Ok((acc.push(a), q))
                        },
                    }
                }
            } else {
                Ok((acc, p))
            }
        }),
{
}

/// Unfolds `p_let` once.
pub proof fn lemma_p_let(ts: Seq<SpannedTokenV>, p: int)
    ensures
        p_let(ts, p) == ({
            match expect_tok(ts, p, TokenV::Let) {
                Err(e) => Err(e),
                Ok(q) => if fwd(p, q, ts.len() as int) {
                    match p_bindings(ts, q, Seq::empty()) {
                        Err(e) => Err(e),
                        Ok((bindings, q2)) => match expect_tok(ts, q2, TokenV::In) {
                            Err(e) => Err(e),
                            Ok(q3) => if fwd(p, q3, ts.len() as int) {
                                match p_expr(ts, q3) {
                                    Err(e) => Err(e),
                                    Ok((body, q4)) => Ok((MExprV::Let { bindings, body: Box::new(body) }, q4)),
                                }
                            } else {
                                Ok((MExprV::Let { bindings, body: Box::new(MExprV::Identifier(Seq::empty())) }, q3))
                            },
                        },
                    }
                } else {
                    Ok((MExprV::Identifier(Seq::empty()), q))
                },
            }
        }),
{
}

/// Unfolds `p_primary` once.
pub proof fn lemma_p_primary(ts: Seq<SpannedTokenV>, p: int)
    ensures
        p_primary(ts, p) == ({
            let len = ts.len() as int;
            match tok_at(ts, p) {
                TokenV::Let => p_let(ts, p),
                TokenV::Each => match p_expr(ts, p + 1) {
                    Err(e) => Err(e),
                    Ok((e, q)) => Ok((MExprV::EachExpr(Box::new(e)), q)),
                },
                TokenV::StringLit(s) => Ok((lit(MLiteralV::Text(s)), p + 1)),
                TokenV::IntegerLit(n) => Ok((lit(MLiteralV::Integer(n)), p + 1)),
                TokenV::NumberLit(s) => Ok((lit(MLiteralV::Number(s)), p + 1)),
                TokenV::True => Ok((lit(MLiteralV::Bool(true)), p + 1)),
                TokenV::False => Ok((lit(MLiteralV::Bool(false)), p + 1)),
                TokenV::Null => Ok((lit(MLiteralV::Null), p + 1)),
                TokenV::Type => match p_type(ts, p + 1) {
                    Err(e) => Err(e),
                    Ok((ty, q)) => Ok((MExprV::Identifier("type "@ + m_type_name(ty)), q)),
                },
                TokenV::Ident(n) => Ok((MExprV::Identifier(n), p + 1)),
                TokenV::QuotedIdent(n) => Ok((MExprV::Identifier(n), p + 1)),
                TokenV::LBrace => match p_list(ts, p + 1, TokenV::RBrace) {
                    Err(e) => Err(e),
                    Ok((items, q)) => match expect_tok(ts, q, TokenV::RBrace) {
                        Err(e) => Err(e),
                        Ok(q2) => Ok((MExprV::List(items), q2)),
                    },
                },
                TokenV::LBracket => match expect_ident(ts, p + 1) {
                    Ok((name, q)) => if tok_at(ts, q) is RBracket {
                        Ok((MExprV::RowField(name), q + 1))
                    } else if tok_at(ts, q) is Eq {
                        match p_expr(ts, q + 1) {
                            Err(e) => Err(e),
                            Ok((v, q2)) => if fwd(p, q2, len) {
                                close_record(ts, p_fields_rest(ts, q2, seq![(name, v)]))
                            } else {
                                Ok((MExprV::Record(seq![(name, v)]), q2))
                            },
                        }
                    } else {
                        match expect_tok(ts, q, TokenV::RBracket) {
                            Err(e) => Err(e),
                            Ok(q2) => Ok((MExprV::RowField(name), q2)),
                        }
                    },
                    Err(_) => match expect_tok(ts, p + 1, TokenV::RBracket) {
                        Err(e) => Err(e),
                        Ok(q) => Ok((MExprV::Record(Seq::empty()), q)),
                    },
                },
                TokenV::LParen => match p_expr(ts, p + 1) {
                    Err(e) => Err(e),
                    Ok((e, q)) => match expect_tok(ts, q, TokenV::RParen) {
                        Err(err) => Err(err),
                        Ok(q2) => Ok((e, q2)),
                    },
                },
                TokenV::Underscore => Ok((MExprV::Identifier("_"@), p + 1)),
                _ => Err(err_at(ts, p, "Unexpected token: "@ + found(ts, p))),
            }
        }),
{
}

/// Unfolds `p_section` once.
pub proof fn lemma_p_section(ts: Seq<SpannedTokenV>, p: int)
    ensures
        p_section(ts, p) == ({
            match expect_tok(ts, p, TokenV::Section) {
                Err(e) => Err(e),
                Ok(q) => match expect_ident(ts, q) {
                    Err(e) => Err(e),
                    Ok((name, q2)) => match expect_tok(ts, q2, TokenV::Semicolon) {
                        Err(e) => Err(e),
                        Ok(q3) => match p_section_bindings(ts, q3, Seq::empty()) {
                            Err(e) => Err(e),
                            Ok((bindings, q4)) => Ok((MDocumentV::Section { name, bindings }, q4)),
                        },
                    },
                },
            }
        }),
{
}

/// Unfolds `p_document` once.
pub proof fn lemma_p_document(ts: Seq<SpannedTokenV>, p: int)
    ensures
        p_document(ts, p) == ({
            if tok_at(ts, p) is Section {
                p_section(ts, p)
            } else {
                match p_expr(ts, p) {
                    Err(e) => Err(e),
                    Ok((e, q)) => Ok((MDocumentV::Expression(e), q)),
                }
            }
        }),
{
}

/// Unfolds `p_fields_rest` once.
pub proof fn lemma_p_fields_rest(ts: Seq<SpannedTokenV>, p: int, acc: Seq<(Seq<char>, MExprV)>)
    ensures
        p_fields_rest(ts, p, acc) == ({
            if tok_at(ts, p) is Comma {
                if tok_at(ts, p + 1) is RBracket {
                    Ok((acc, p + 1))
                } else {
                    match expect_ident(ts, p + 1) {
                        Err(e) => Err(e),
                        Ok((k, q)) => match expect_tok(ts, q, TokenV::Eq) {
                            Err(e) => Err(e),
                            Ok(q2) => if fwd(p, q2, ts.len() as int) {
                                match p_expr(ts, q2) {
                                    Err(e) => Err(e),
                                    Ok((v, q3)) => if fwd(p, q3, ts.len() as int) {
                                        p_fields_rest(ts, q3, acc.push((k, v)))
                                    } else {
                                        Ok((acc.push((k, v)), q3))
                                    },
                                }
                            } else {
                                Ok((acc, q2))
                            },
                        },
                    }
                }
            } else {
                Ok((acc, p))
            }
        }),
{
}

/// Unfolds `p_bindings` once.
pub proof fn lemma_p_bindings(ts: Seq<SpannedTokenV>, p: int, acc: Seq<(Seq<char>, MExprV)>)
    ensures
        p_bindings(ts, p, acc) == ({
            match expect_ident(ts, p) {
                Err(e) => Err(e),
                Ok((name, q)) => match expect_tok(ts, q, TokenV::Eq) {
                    Err(e) => Err(e),
                    Ok(q2) => if fwd(p, q2, ts.len() as int) {
                        match p_expr(ts, q2) {
                            Err(e) => Err(e),
                            Ok((v, q3)) => if tok_at(ts, q3) is Comma && fwd(p, q3 + 1, ts.len() as int) {
                                p_bindings(ts, q3 + 1, acc.push((name, v)))
                            } else {
                                Ok((acc.push((name, v)), q3))
                            },
                        }
                    } else {
                        Ok((acc, q2))
                    },
                },
            }
        }),
{
}

/// Unfolds `p_section_bindings` once.
pub proof fn lemma_p_section_bindings(ts: Seq<SpannedTokenV>, p: int, acc: Seq<(bool, Seq<char>, MExprV)>)
    ensures
        p_section_bindings(ts, p, acc) == ({
            if tok_at(ts, p) is Eof {
                Ok((acc, p))
            } else {
                let shared = tok_at(ts, p) is Shared;
                let p1 = if shared { p + 1 } else { p };
                match expect_ident(ts, p1) {
                    Err(e) => Err(e),
                    Ok((name, q)) => match expect_tok(ts, q, TokenV::Eq) {
                        Err(e) => Err(e),
                        Ok(q2) => match p_expr(ts, q2) {
                            Err(e) => Err(e),
                            Ok((v, q3)) => match expect_tok(ts, q3, TokenV::Semicolon) {
                                Err(e) => Err(e),
                                Ok(q4) => if fwd(p, q4, ts.len() as int) {
                                    p_section_bindings(ts, q4, acc.push((shared, name, v)))
                                } else {
                                    Ok((acc.push((shared, name, v)), q4))
                                },
                            },
                        },
                    },
                }
            }
        }),
{
}

} // verus!
