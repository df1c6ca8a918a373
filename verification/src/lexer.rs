//! M language tokeniser.
use vstd::prelude::*;
use crate::text::{
    char_alphabetic, char_alphanumeric, char_whitespace, chars_of, is_alphabetic, is_alphanumeric,
    int_decimal, is_digit, is_whitespace, owned, push_char, string_of_range, usize_to_string,
};

verus! {

/// Token types for the M lexer.
#[derive(Debug, Clone)]
pub enum Token {
    /// `let`
    Let,
    /// `in` keyword
    In,
    /// `each`
    Each,
    /// `and`
    And,
    /// `or`
    Or,
    /// `not`
    Not,
    /// `true`
    True,
    /// `false`
    False,
    /// `null`
    Null,
    /// `type`
    Type,
    /// `as`
    As,
    /// `section`
    Section,
    /// `shared`
    Shared,
    /// A text string literal.
    StringLit(String),
    /// An integer literal.
    IntegerLit(i64),
    /// A decimal number literal, as written (digits, `.`, digits).
    NumberLit(String),
    /// A plain identifier.
    Ident(String),
    /// A quoted identifier `#"..."`.
    QuotedIdent(String),
    /// `(`
    LParen,
    /// `)`
    RParen,
    /// `{`
    LBrace,
    /// `}`
    RBrace,
    /// `[`
    LBracket,
    /// `]`
    RBracket,
    /// `,`
    Comma,
    /// `=`
    Eq,
    /// `<>`
    Neq,
    /// `<`
    Lt,
    /// `<=`
    Lte,
    /// `>`
    Gt,
    /// `>=`
    Gte,
    /// `+`
    Plus,
    /// `-`
    Minus,
    /// `*`
    Star,
    /// `/`
    Slash,
    /// `&`
    Ampersand,
    /// `.`
    Dot,
    /// `;`
    Semicolon,
    /// `_` (underscore, used in `each`)
    Underscore,
    /// `=>`
    FatArrow,
    /// `..`
    DotDot,
    /// `...`
    Ellipsis,
    /// `@`
    At,
    /// `#`
    Hash,
    /// End of input.
    Eof,
}

/// Model of [`Token`].
pub enum TokenV {
    Let,
    In,
    Each,
    And,
    Or,
    Not,
    True,
    False,
    Null,
    Type,
    As,
    Section,
    Shared,
    StringLit(Seq<char>),
    IntegerLit(i64),
    NumberLit(Seq<char>),
    Ident(Seq<char>),
    QuotedIdent(Seq<char>),
    LParen,
    RParen,
    LBrace,
    RBrace,
    LBracket,
    RBracket,
    Comma,
    Eq,
    Neq,
    Lt,
    Lte,
    Gt,
    Gte,
    Plus,
    Minus,
    Star,
    Slash,
    Ampersand,
    Dot,
    Semicolon,
    Underscore,
    FatArrow,
    DotDot,
    Ellipsis,
    At,
    Hash,
    Eof,
}

impl View for Token {
    type V = TokenV;

    open spec fn view(&self) -> TokenV {
        match self {
            Token::Let => TokenV::Let,
            Token::In => TokenV::In,
            Token::Each => TokenV::Each,
            Token::And => TokenV::And,
            Token::Or => TokenV::Or,
            Token::Not => TokenV::Not,
            Token::True => TokenV::True,
            Token::False => TokenV::False,
            Token::Null => TokenV::Null,
            Token::Type => TokenV::Type,
            Token::As => TokenV::As,
            Token::Section => TokenV::Section,
            Token::Shared => TokenV::Shared,
            Token::StringLit(s) => TokenV::StringLit(s@),
            Token::IntegerLit(n) => TokenV::IntegerLit(*n),
            Token::NumberLit(s) => TokenV::NumberLit(s@),
            Token::Ident(s) => TokenV::Ident(s@),
            Token::QuotedIdent(s) => TokenV::QuotedIdent(s@),
            Token::LParen => TokenV::LParen,
            Token::RParen => TokenV::RParen,
            Token::LBrace => TokenV::LBrace,
            Token::RBrace => TokenV::RBrace,
            Token::LBracket => TokenV::LBracket,
            Token::RBracket => TokenV::RBracket,
            Token::Comma => TokenV::Comma,
            Token::Eq => TokenV::Eq,
            Token::Neq => TokenV::Neq,
            Token::Lt => TokenV::Lt,
            Token::Lte => TokenV::Lte,
            Token::Gt => TokenV::Gt,
            Token::Gte => TokenV::Gte,
            Token::Plus => TokenV::Plus,
            Token::Minus => TokenV::Minus,
            Token::Star => TokenV::Star,
            Token::Slash => TokenV::Slash,
            Token::Ampersand => TokenV::Ampersand,
            Token::Dot => TokenV::Dot,
            Token::Semicolon => TokenV::Semicolon,
            Token::Underscore => TokenV::Underscore,
            Token::FatArrow => TokenV::FatArrow,
            Token::DotDot => TokenV::DotDot,
            Token::Ellipsis => TokenV::Ellipsis,
            Token::At => TokenV::At,
            Token::Hash => TokenV::Hash,
            Token::Eof => TokenV::Eof,
        }
    }
}

/// A token with its position information.
#[derive(Debug, Clone)]
pub struct SpannedToken {
    /// The token.
    pub token: Token,
    /// 1-indexed line number.
    pub line: usize,
    /// 1-indexed column number.
    pub col: usize,
}

/// Model of [`SpannedToken`].
pub struct SpannedTokenV {
    pub token: TokenV,
    pub line: int,
    pub col: int,
}

impl View for SpannedToken {
    type V = SpannedTokenV;

    open spec fn view(&self) -> SpannedTokenV {
        SpannedTokenV { token: self.token@, line: self.line as int, col: self.col as int }
    }
}

/// Models of a token sequence.
pub open spec fn tokens_view(s: Seq<SpannedToken>) -> Seq<SpannedTokenV> {
    Seq::new(s.len(), |i: int| s[i]@)
}

/// Lexer error.
#[derive(Debug, Clone)]
pub struct LexError {
    /// Line number.
    pub line: usize,
    /// Column number.
    pub col: usize,
    /// Error message.
    pub message: String,
}

/// Model of [`LexError`].
pub struct LexErrorV {
    pub line: int,
    pub col: int,
    pub message: Seq<char>,
}

impl View for LexError {
    type V = LexErrorV;

    open spec fn view(&self) -> LexErrorV {
        LexErrorV { line: self.line as int, col: self.col as int, message: self.message@ }
    }
}

/// How a lexer error is shown to users.
pub open spec fn lex_error_text(e: LexErrorV) -> Seq<char> {
    "Lex error at "@ + int_decimal(e.line) + ":"@ + int_decimal(e.col) + ": "@ + e.message
}

impl LexError {
    /// The error as shown to users.
    pub fn describe(&self) -> (s: String)
        ensures
            s@ == lex_error_text(self@),
    {
        let mut s = owned("Lex error at ");
        s.append(usize_to_string(self.line).as_str());
        s.append(":");
        s.append(usize_to_string(self.col).as_str());
        s.append(": ");
        s.append(self.message.as_str());
        s
    }
}

// ---------------------------------------------------------------------------
// Specification of the tokeniser
// ---------------------------------------------------------------------------

/// Where the line comment starting at `pos` ends: the next line feed, or the end.
pub open spec fn line_comment_end(cs: Seq<char>, pos: int) -> int
    decreases cs.len() - pos,
{
    if pos < cs.len() && cs[pos] != '\n' {
        line_comment_end(cs, pos + 1)
    } else {
        pos
    }
}

/// Position, line and column after a (nested) block comment whose opening was consumed.
pub open spec fn block_comment_end(cs: Seq<char>, pos: int, line: int, col: int, depth: int) -> (int, int, int)
    decreases cs.len() - pos,
{
    if 0 <= pos < cs.len() && depth > 0 {
        if pos + 1 < cs.len() && cs[pos] == '/' && cs[pos + 1] == '*' {
            block_comment_end(cs, pos + 2, line, col + 2, depth + 1)
        } else if pos + 1 < cs.len() && cs[pos] == '*' && cs[pos + 1] == '/' {
            block_comment_end(cs, pos + 2, line, col + 2, depth - 1)
        } else if cs[pos] == '\n' {
            block_comment_end(cs, pos + 1, line + 1, 1, depth)
        } else {
            block_comment_end(cs, pos + 1, line, col + 1, depth)
        }
    } else {
        (pos, line, col)
    }
}

/// The characters that an escape sequence `\c` stands for.
pub open spec fn escape_chars(c: char) -> Seq<char> {
    if c == 'n' {
        seq!['\n']
    } else if c == 't' {
        seq!['\t']
    } else if c == 'r' {
        seq!['\r']
    } else if c == '"' {
        seq!['"']
    } else if c == '\\' {
        seq!['\\']
    } else {
        seq!['\\', c]
    }
}

/// Scans the body of a string literal: its content, and the position, line and
/// column after the closing quote; `None` when it is unterminated.
pub open spec fn scan_string(cs: Seq<char>, pos: int, line: int, col: int, acc: Seq<char>) -> Option<(Seq<char>, int, int, int)>
    decreases cs.len() - pos,
{
    if pos < 0 || pos >= cs.len() {
        None
    } else if cs[pos] == '"' {
        Some((acc, pos + 1, line, col + 1))
    } else if cs[pos] == '\\' && pos + 1 < cs.len() {
        scan_string(cs, pos + 2, line, col + 2, acc + escape_chars(cs[pos + 1]))
    } else if cs[pos] == '\n' {
        scan_string(cs, pos + 1, line + 1, 1, acc.push('\n'))
    } else {
        scan_string(cs, pos + 1, line, col + 1, acc.push(cs[pos]))
    }
}

/// Scans the body of a quoted identifier `#"..."`: its name, and the position, line
/// and column after the closing quote (or at the end of the input).
pub open spec fn scan_quoted(cs: Seq<char>, pos: int, line: int, col: int, acc: Seq<char>) -> (Seq<char>, int, int, int)
    decreases cs.len() - pos,
{
    if 0 <= pos < cs.len() && cs[pos] != '"' {
        if cs[pos] == '\n' {
            scan_quoted(cs, pos + 1, line + 1, 1, acc.push('\n'))
        } else {
            scan_quoted(cs, pos + 1, line, col + 1, acc.push(cs[pos]))
        }
    } else if 0 <= pos < cs.len() {
        (acc, pos + 1, line, col + 1)
    } else {
        (acc, pos, line, col)
    }
}

/// End of a number: digits, and dots that are followed by a digit.
pub open spec fn number_end(cs: Seq<char>, pos: int) -> int
    decreases cs.len() - pos,
{
    if 0 <= pos < cs.len() && (is_digit(cs[pos]) || (cs[pos] == '.' && pos + 1 < cs.len() && is_digit(
        cs[pos + 1],
    ))) {
        number_end(cs, pos + 1)
    } else {
        pos
    }
}

/// End of an identifier: alphanumerics, underscores, and dots that are followed by a letter.
pub open spec fn ident_end(cs: Seq<char>, pos: int) -> int
    decreases cs.len() - pos,
{
    if 0 <= pos < cs.len() && (char_alphanumeric(cs[pos]) || cs[pos] == '_' || (cs[pos] == '.'
        && pos + 1 < cs.len() && char_alphabetic(cs[pos + 1]))) {
        ident_end(cs, pos + 1)
    } else {
        pos
    }
}

/// Number of occurrences of a character.
pub open spec fn count_char(s: Seq<char>, c: char) -> nat
    decreases s.len(),
{
    if s.len() == 0 {
        0
    } else {
        count_char(s.drop_last(), c) + (if s.last() == c { 1nat } else { 0nat })
    }
}

/// Value of a string of decimal digits.
pub open spec fn digits_value(s: Seq<char>) -> nat
    decreases s.len(),
{
    if s.len() == 0 {
        0
    } else {
        digits_value(s.drop_last()) * 10 + ((s.last() as u32) - ('0' as u32)) as nat
    }
}

/// The token for a number text, or the error message when it is not a valid number.
pub open spec fn number_token(s: Seq<char>) -> Result<TokenV, Seq<char>> {
    if count_char(s, '.') > 0 {
        if count_char(s, '.') == 1 {
            Ok(TokenV::NumberLit(s))
        } else {
            Err("Invalid number: "@ + s)
        }
    } else if digits_value(s) <= i64::MAX {
        Ok(TokenV::IntegerLit(digits_value(s) as i64))
    } else {
        Err("Invalid integer: "@ + s)
    }
}

/// The token for an identifier text: a keyword, or a plain identifier.
pub open spec fn word_token(s: Seq<char>) -> TokenV {
    if s == "let"@ { TokenV::Let }
    else if s == "in"@ { TokenV::In }
    else if s == "each"@ { TokenV::Each }
    else if s == "and"@ { TokenV::And }
    else if s == "or"@ { TokenV::Or }
    else if s == "not"@ { TokenV::Not }
    else if s == "true"@ { TokenV::True }
    else if s == "false"@ { TokenV::False }
    else if s == "null"@ { TokenV::Null }
    else if s == "type"@ { TokenV::Type }
    else if s == "as"@ { TokenV::As }
    else if s == "section"@ { TokenV::Section }
    else if s == "shared"@ { TokenV::Shared }
    else { TokenV::Ident(s) }
}

/// The punctuation token at `pos` and its width, if the character there starts one.
pub open spec fn punct_token(cs: Seq<char>, pos: int) -> Option<(TokenV, int)> {
    let c = cs[pos];
    let next_is = |d: char| pos + 1 < cs.len() && cs[pos + 1] == d;
    if c == '(' { Some((TokenV::LParen, 1)) }
    else if c == ')' { Some((TokenV::RParen, 1)) }
    else if c == '{' { Some((TokenV::LBrace, 1)) }
    else if c == '}' { Some((TokenV::RBrace, 1)) }
    else if c == '[' { Some((TokenV::LBracket, 1)) }
    else if c == ']' { Some((TokenV::RBracket, 1)) }
    else if c == ',' { Some((TokenV::Comma, 1)) }
    else if c == ';' { Some((TokenV::Semicolon, 1)) }
    else if c == '@' { Some((TokenV::At, 1)) }
    else if c == '+' { Some((TokenV::Plus, 1)) }
    else if c == '-' { Some((TokenV::Minus, 1)) }
    else if c == '*' { Some((TokenV::Star, 1)) }
    else if c == '/' { Some((TokenV::Slash, 1)) }
    else if c == '&' { Some((TokenV::Ampersand, 1)) }
    else if c == '.' {
        if next_is('.') {
            if pos + 2 < cs.len() && cs[pos + 2] == '.' { Some((TokenV::Ellipsis, 3)) }
            else { Some((TokenV::DotDot, 2)) }
        } else {
            Some((TokenV::Dot, 1))
        }
    }
    else if c == '=' { if next_is('>') { Some((TokenV::FatArrow, 2)) } else { Some((TokenV::Eq, 1)) } }
    else if c == '<' {
        if next_is('>') { Some((TokenV::Neq, 2)) }
        else if next_is('=') { Some((TokenV::Lte, 2)) }
        else { Some((TokenV::Lt, 1)) }
    }
    else if c == '>' { if next_is('=') { Some((TokenV::Gte, 2)) } else { Some((TokenV::Gt, 1)) } }
    else if c == '#' { Some((TokenV::Hash, 1)) }
    else { None }
}

/// A token at a position.
pub open spec fn spanned(t: TokenV, line: int, col: int) -> SpannedTokenV {
    SpannedTokenV { token: t, line, col }
}

/// A lexer error at a position.
pub open spec fn lex_err(line: int, col: int, message: Seq<char>) -> LexErrorV {
    LexErrorV { line, col, message }
}

/// `t` followed by the tokens of `rest`, or the error of `rest`.
pub open spec fn prepend(t: SpannedTokenV, rest: Result<Seq<SpannedTokenV>, LexErrorV>) -> Result<Seq<SpannedTokenV>, LexErrorV> {
    match rest {
        Ok(ts) => Ok(seq![t] + ts),
        Err(e) => Err(e),
    }
}

/// Scanning functions move forward.
pub proof fn lemma_scans_advance(cs: Seq<char>, pos: int, line: int, col: int, acc: Seq<char>, depth: int)
    requires
        0 <= pos,
    ensures
        line_comment_end(cs, pos) >= pos,
        block_comment_end(cs, pos, line, col, depth).0 >= pos,
        scan_string(cs, pos, line, col, acc) matches Some(r) ==> r.1 > pos,
        scan_quoted(cs, pos, line, col, acc).1 >= pos,
        number_end(cs, pos) >= pos,
        ident_end(cs, pos) >= pos,
        pos <= cs.len() ==> {
            &&& line_comment_end(cs, pos) <= cs.len()
            &&& block_comment_end(cs, pos, line, col, depth).0 <= cs.len()
            &&& (scan_string(cs, pos, line, col, acc) matches Some(r) ==> r.1 <= cs.len())
            &&& scan_quoted(cs, pos, line, col, acc).1 <= cs.len()
            &&& number_end(cs, pos) <= cs.len()
            &&& ident_end(cs, pos) <= cs.len()
        },
    decreases cs.len() - pos,
{
    if pos < cs.len() {
        lemma_scans_advance(cs, pos + 1, line, col + 1, acc.push(cs[pos]), depth);
        lemma_scans_advance(cs, pos + 1, line + 1, 1, acc.push('\n'), depth);
        if pos + 1 < cs.len() {
            lemma_scans_advance(cs, pos + 2, line, col + 2, acc + escape_chars(cs[pos + 1]), depth);
            lemma_scans_advance(cs, pos + 2, line, col + 2, acc, depth + 1);
            lemma_scans_advance(cs, pos + 2, line, col + 2, acc, depth - 1);
        }
        lemma_scans_advance(cs, pos + 1, line + 1, 1, acc, depth);
        lemma_scans_advance(cs, pos + 1, line, col + 1, acc, depth);
    }
}

/// An identifier start is part of the identifier.
pub proof fn lemma_ident_starts(cs: Seq<char>, pos: int)
    requires
        0 <= pos < cs.len(),
        char_alphabetic(cs[pos]) || cs[pos] == '_',
    ensures
        ident_end(cs, pos) == ident_end(cs, pos + 1),
{
}

/// The tokens of `cs` from position `pos`, at the given line and column, ending with `Eof`.
pub open spec fn lex_from(cs: Seq<char>, pos: int, line: int, col: int) -> Result<Seq<SpannedTokenV>, LexErrorV>
    decreases cs.len() - pos,
{
    if pos < 0 || pos >= cs.len() {
        Ok(seq![spanned(TokenV::Eof, line, col)])
    } else {
        proof {
            lemma_scans_advance(cs, pos + 1, line, col + 1, Seq::empty(), 1);
            lemma_scans_advance(cs, pos + 2, line, col + 2, Seq::empty(), 1);
        }
        let c = cs[pos];
        if char_whitespace(c) {
            if c == '\n' {
                lex_from(cs, pos + 1, line + 1, 1)
            } else {
                lex_from(cs, pos + 1, line, col + 1)
            }
        } else if pos + 1 < cs.len() && c == '/' && cs[pos + 1] == '/' {
            let e = line_comment_end(cs, pos + 2);
            proof {
                lemma_scans_advance(cs, pos + 2, line, col + 2, Seq::empty(), 1);
                assert(e >= pos + 2);
            }
            lex_from(cs, e, line, col)
        } else if pos + 1 < cs.len() && c == '/' && cs[pos + 1] == '*' {
            let r = block_comment_end(cs, pos + 2, line, col + 2, 1);
            proof {
                lemma_scans_advance(cs, pos + 2, line, col + 2, Seq::empty(), 1);
                assert(r.0 >= pos + 2);
            }
            lex_from(cs, r.0, r.1, r.2)
        } else if c == '"' {
            match scan_string(cs, pos + 1, line, col + 1, Seq::empty()) {
                None => Err(lex_err(line, col, "Unterminated string literal"@)),
                Some((s, p, l, k)) => prepend(spanned(TokenV::StringLit(s), line, col), lex_from(cs, p, l, k)),
            }
        } else if c == '#' && pos + 1 < cs.len() && cs[pos + 1] == '"' {
            let (s, p, l, k) = scan_quoted(cs, pos + 2, line, col + 2, Seq::empty());
            prepend(spanned(TokenV::QuotedIdent(s), line, col), lex_from(cs, p, l, k))
        } else if is_digit(c) {
            let e = number_end(cs, pos);
            proof {
                lemma_scans_advance(cs, pos + 1, line, col + 1, Seq::empty(), 1);
                assert(e == number_end(cs, pos + 1));
            }
            let text = cs.subrange(pos, e);
            match number_token(text) {
                Ok(t) => prepend(spanned(t, line, col), lex_from(cs, e, line, col + (e - pos))),
                Err(m) => Err(lex_err(line, col, m)),
            }
        } else if char_alphabetic(c) || c == '_' {
            let e = ident_end(cs, pos);
            proof {
                lemma_scans_advance(cs, pos + 1, line, col + 1, Seq::empty(), 1);
                lemma_ident_starts(cs, pos);
            }
            let text = cs.subrange(pos, e);
            prepend(spanned(word_token(text), line, col), lex_from(cs, e, line, col + (e - pos)))
        } else {
            match punct_token(cs, pos) {
                Some((t, w)) => prepend(spanned(t, line, col), lex_from(cs, pos + w, line, col + w)),
                None => Err(lex_err(line, col, "Unexpected character: '"@ + seq![c] + "'"@)),
            }
        }
    }
}

/// The tokens of a source text.
pub open spec fn lex(cs: Seq<char>) -> Result<Seq<SpannedTokenV>, LexErrorV> {
    lex_from(cs, 0, 1, 1)
}


// ---------------------------------------------------------------------------
// The tokeniser
// ---------------------------------------------------------------------------

/// `prefix` followed by the tokens of `rest`, or the error of `rest`.
pub open spec fn prepend_all(prefix: Seq<SpannedTokenV>, rest: Result<Seq<SpannedTokenV>, LexErrorV>) -> Result<Seq<SpannedTokenV>, LexErrorV> {
    match rest {
        Ok(ts) => Ok(prefix + ts),
        Err(e) => Err(e),
    }
}

proof fn lemma_prepend_all_push(prefix: Seq<SpannedTokenV>, t: SpannedTokenV, rest: Result<Seq<SpannedTokenV>, LexErrorV>)
    ensures
        prepend_all(prefix, prepend(t, rest)) == prepend_all(prefix.push(t), rest),
{
    if let Ok(ts) = rest {
        assert(prefix + (seq![t] + ts) =~= prefix.push(t) + ts);
    }
}

fn skip_line_comment(cs: &Vec<char>, pos: usize) -> (e: usize)
    requires
        pos <= cs.len(),
    ensures
        e == line_comment_end(cs@, pos as int),
        pos <= e <= cs.len(),
{
    let mut p = pos;
    while p < cs.len() && cs[p] != '\n'
        invariant
            pos <= p <= cs.len(),
            line_comment_end(cs@, pos as int) == line_comment_end(cs@, p as int),
        decreases cs.len() - p,
    {
        p += 1;
    }
    p
}

fn skip_block_comment(cs: &Vec<char>, pos: usize, line: usize, col: usize) -> (r: (usize, usize, usize))
    requires
        2 <= pos <= cs.len() < usize::MAX,
        1 <= line <= pos + 1,
        1 <= col <= pos + 1,
    ensures
        (r.0 as int, r.1 as int, r.2 as int) == block_comment_end(cs@, pos as int, line as int, col as int, 1),
        pos <= r.0 <= cs.len(),
        1 <= r.1 <= r.0 + 1,
        1 <= r.2 <= r.0 + 1,
{
    let mut p = pos;
    let mut l = line;
    let mut c = col;
    let mut depth: usize = 1;
    while p < cs.len() && depth > 0
        invariant
            pos <= p <= cs.len() < usize::MAX,
            1 <= l <= p + 1,
            1 <= c <= p + 1,
            depth <= p,
            block_comment_end(cs@, pos as int, line as int, col as int, 1) == block_comment_end(
                cs@,
                p as int,
                l as int,
                c as int,
                depth as int,
            ),
        decreases cs.len() - p,
    {
        if p + 1 < cs.len() && cs[p] == '/' && cs[p + 1] == '*' {
            depth += 1;
            p += 2;
            c += 2;
        } else if p + 1 < cs.len() && cs[p] == '*' && cs[p + 1] == '/' {
            depth -= 1;
            p += 2;
            c += 2;
        } else if cs[p] == '\n' {
            l += 1;
            c = 1;
            p += 1;
        } else {
            c += 1;
            p += 1;
        }
    }
    (p, l, c)
}

fn scan_string_exec(cs: &Vec<char>, pos: usize, line: usize, col: usize) -> (r: Option<(Vec<char>, usize, usize, usize)>)
    requires
        1 <= pos <= cs.len() < usize::MAX,
        1 <= line <= pos + 1,
        1 <= col <= pos + 1,
    ensures
        match r {
            Some((s, p, l, k)) => scan_string(cs@, pos as int, line as int, col as int, Seq::empty())
                == Some((s@, p as int, l as int, k as int)) && pos < p <= cs.len() && 1 <= l <= p + 1
                && 1 <= k <= p + 1,
            None => scan_string(cs@, pos as int, line as int, col as int, Seq::empty()) is None,
        },
{
    let mut acc: Vec<char> = Vec::new();
    let mut p = pos;
    let mut l = line;
    let mut c = col;
    while p < cs.len() && cs[p] != '"'
        invariant
            pos <= p <= cs.len() < usize::MAX,
            1 <= l <= p + 1,
            1 <= c <= p + 1,
            scan_string(cs@, pos as int, line as int, col as int, Seq::empty()) == scan_string(
                cs@,
                p as int,
                l as int,
                c as int,
                acc@,
            ),
        decreases cs.len() - p,
    {
        if cs[p] == '\\' && p + 1 < cs.len() {
            let e = cs[p + 1];
            let ghost old_acc = acc@;
            if e == 'n' {
                acc.push('\n');
            } else if e == 't' {
                acc.push('\t');
            } else if e == 'r' {
                acc.push('\r');
            } else if e == '"' {
                acc.push('"');
            } else if e == '\\' {
                acc.push('\\');
            } else {
                acc.push('\\');
                acc.push(e);
            }
            assert(acc@ =~= old_acc + escape_chars(e));
            p += 2;
            c += 2;
        } else if cs[p] == '\n' {
            acc.push('\n');
            l += 1;
            c = 1;
            p += 1;
        } else {
            acc.push(cs[p]);
            c += 1;
            p += 1;
        }
    }
    if p < cs.len() {
        Some((acc, p + 1, l, c + 1))
    } else {
        None
    }
}

fn scan_quoted_exec(cs: &Vec<char>, pos: usize, line: usize, col: usize) -> (r: (Vec<char>, usize, usize, usize))
    requires
        2 <= pos <= cs.len() < usize::MAX,
        1 <= line <= pos + 1,
        1 <= col <= pos + 1,
    ensures
        scan_quoted(cs@, pos as int, line as int, col as int, Seq::empty()) == (
            r.0@,
            r.1 as int,
            r.2 as int,
            r.3 as int,
        ),
        pos <= r.1 <= cs.len(),
        1 <= r.2 <= r.1 + 1,
        1 <= r.3 <= r.1 + 1,
{
    let mut acc: Vec<char> = Vec::new();
    let mut p = pos;
    let mut l = line;
    let mut c = col;
    while p < cs.len() && cs[p] != '"'
        invariant
            pos <= p <= cs.len() < usize::MAX,
            1 <= l <= p + 1,
            1 <= c <= p + 1,
            scan_quoted(cs@, pos as int, line as int, col as int, Seq::empty()) == scan_quoted(
                cs@,
                p as int,
                l as int,
                c as int,
                acc@,
            ),
        decreases cs.len() - p,
    {
        if cs[p] == '\n' {
            acc.push('\n');
            l += 1;
            c = 1;
        } else {
            acc.push(cs[p]);
            c += 1;
        }
        p += 1;
    }
    if p < cs.len() {
        (acc, p + 1, l, c + 1)
    } else {
        (acc, p, l, c)
    }
}

fn scan_number_end(cs: &Vec<char>, pos: usize) -> (e: usize)
    requires
        pos < cs.len(),
        is_digit(cs@[pos as int]),
    ensures
        e == number_end(cs@, pos as int),
        pos < e <= cs.len(),
        forall|j: int| pos <= j < e ==> is_digit(cs@[j]) || cs@[j] == '.',
{
    let mut p = pos;
    while p < cs.len() && (('0' <= cs[p] && cs[p] <= '9') || (cs[p] == '.' && p + 1 < cs.len() && '0'
        <= cs[p + 1] && cs[p + 1] <= '9'))
        invariant
            pos <= p <= cs.len(),
            p == pos ==> is_digit(cs@[pos as int]),
            number_end(cs@, pos as int) == number_end(cs@, p as int),
            forall|j: int| pos <= j < p ==> is_digit(cs@[j]) || cs@[j] == '.',
        decreases cs.len() - p,
    {
        p += 1;
    }
    p
}

fn scan_ident_end(cs: &Vec<char>, pos: usize) -> (e: usize)
    requires
        pos < cs.len(),
        char_alphabetic(cs@[pos as int]) || cs@[pos as int] == '_',
    ensures
        e == ident_end(cs@, pos as int),
        pos < e <= cs.len(),
{
    proof {
        lemma_ident_starts(cs@, pos as int);
    }
    let mut p = pos + 1;
    while p < cs.len() && (is_alphanumeric(cs[p]) || cs[p] == '_' || (cs[p] == '.' && p + 1 < cs.len()
        && is_alphabetic(cs[p + 1])))
        invariant
            pos < p <= cs.len(),
            ident_end(cs@, pos as int) == ident_end(cs@, p as int),
        decreases cs.len() - p,
    {
        p += 1;
    }
    p
}

/// The number token (or the error message) for the number text `cs[pos..e]`.
fn number_token_exec(cs: &Vec<char>, pos: usize, e: usize) -> (r: Result<Token, String>)
    requires
        pos <= e <= cs.len(),
        forall|j: int| pos <= j < e ==> is_digit(cs@[j]) || cs@[j] == '.',
    ensures
        match r {
            Ok(t) => number_token(cs@.subrange(pos as int, e as int)) == Ok::<TokenV, Seq<char>>(t@),
            Err(m) => number_token(cs@.subrange(pos as int, e as int)) == Err::<TokenV, Seq<char>>(m@),
        },
{
    let ghost text = cs@.subrange(pos as int, e as int);
    let mut dots: usize = 0;
    let mut value: u64 = 0;
    let mut overflow = false;
    let mut i = pos;
    while i < e
        invariant
            pos <= i <= e <= cs.len(),
            text == cs@.subrange(pos as int, e as int),
            forall|j: int| pos <= j < e ==> is_digit(cs@[j]) || cs@[j] == '.',
            dots == count_char(text.take(i - pos), '.'),
            dots <= i - pos,
            dots == 0 ==> (!overflow ==> value == digits_value(text.take(i - pos)) && value <= i64::MAX),
            dots == 0 ==> (overflow ==> digits_value(text.take(i - pos)) > i64::MAX),
        decreases e - i,
    {
        let ghost t0 = text.take(i - pos);
        assert(text.take(i + 1 - pos).drop_last() =~= t0);
        assert(text.take(i + 1 - pos).last() == cs@[i as int]);
        let ch = cs[i];
        if ch == '.' {
            dots += 1;
        } else if dots == 0 && !overflow {
            let d = (ch as u32 - '0' as u32) as u64;
            if value > (9223372036854775807u64 - d) / 10 {
                overflow = true;
                assert(digits_value(text.take(i + 1 - pos)) > i64::MAX) by (nonlinear_arith)
                    requires
                        value > (9223372036854775807u64 - d) / 10,
                        digits_value(text.take(i + 1 - pos)) == value * 10 + d,
                        d <= 9,
                ;
            } else {
                value = value * 10 + d;
            }
        } else if dots == 0 {
            assert(digits_value(text.take(i + 1 - pos)) >= digits_value(t0) * 10);
        }
        i += 1;
    }
    assert(text.take(e - pos) =~= text);
    if dots > 0 {
        let s = string_of_range(cs, pos, e);
        if dots == 1 {
            Ok(Token::NumberLit(s))
        } else {
            let mut m = owned("Invalid number: ");
            m.append(s.as_str());
            Err(m)
        }
    } else if !overflow {
        Ok(Token::IntegerLit(value as i64))
    } else {
        let s = string_of_range(cs, pos, e);
        let mut m = owned("Invalid integer: ");
        m.append(s.as_str());
        Err(m)
    }
}

/// The keyword or identifier token for the word `cs[pos..e]`.
fn word_token_exec(cs: &Vec<char>, pos: usize, e: usize) -> (t: Token)
    requires
        pos <= e <= cs.len(),
    ensures
        t@ == word_token(cs@.subrange(pos as int, e as int)),
{
    let w = string_of_range(cs, pos, e);
    let s = w.as_str();
    if crate::text::str_eq(s, "let") { Token::Let }
    else if crate::text::str_eq(s, "in") { Token::In }
    else if crate::text::str_eq(s, "each") { Token::Each }
    else if crate::text::str_eq(s, "and") { Token::And }
    else if crate::text::str_eq(s, "or") { Token::Or }
    else if crate::text::str_eq(s, "not") { Token::Not }
    else if crate::text::str_eq(s, "true") { Token::True }
    else if crate::text::str_eq(s, "false") { Token::False }
    else if crate::text::str_eq(s, "null") { Token::Null }
    else if crate::text::str_eq(s, "type") { Token::Type }
    else if crate::text::str_eq(s, "as") { Token::As }
    else if crate::text::str_eq(s, "section") { Token::Section }
    else if crate::text::str_eq(s, "shared") { Token::Shared }
    else { Token::Ident(w) }
}

/// The punctuation token at `pos` and its width.
fn punct_token_exec(cs: &Vec<char>, pos: usize) -> (r: Option<(Token, usize)>)
    requires
        pos < cs.len(),
    ensures
        match r {
            Some((t, w)) => punct_token(cs@, pos as int) == Some((t@, w as int)) && 1 <= w <= 3,
            None => punct_token(cs@, pos as int) is None,
        },
{
    let c = cs[pos];
    let n = cs.len();
    if c == '(' { Some((Token::LParen, 1)) }
    else if c == ')' { Some((Token::RParen, 1)) }
    else if c == '{' { Some((Token::LBrace, 1)) }
    else if c == '}' { Some((Token::RBrace, 1)) }
    else if c == '[' { Some((Token::LBracket, 1)) }
    else if c == ']' { Some((Token::RBracket, 1)) }
    else if c == ',' { Some((Token::Comma, 1)) }
    else if c == ';' { Some((Token::Semicolon, 1)) }
    else if c == '@' { Some((Token::At, 1)) }
    else if c == '+' { Some((Token::Plus, 1)) }
    else if c == '-' { Some((Token::Minus, 1)) }
    else if c == '*' { Some((Token::Star, 1)) }
    else if c == '/' { Some((Token::Slash, 1)) }
    else if c == '&' { Some((Token::Ampersand, 1)) }
    else if c == '.' {
        if pos + 1 < n && cs[pos + 1] == '.' {
            if pos + 2 < n && cs[pos + 2] == '.' { Some((Token::Ellipsis, 3)) }
            else { Some((Token::DotDot, 2)) }
        } else {
            Some((Token::Dot, 1))
        }
    }
    else if c == '=' { if pos + 1 < n && cs[pos + 1] == '>' { Some((Token::FatArrow, 2)) } else { Some((Token::Eq, 1)) } }
    else if c == '<' {
        if pos + 1 < n && cs[pos + 1] == '>' { Some((Token::Neq, 2)) }
        else if pos + 1 < n && cs[pos + 1] == '=' { Some((Token::Lte, 2)) }
        else { Some((Token::Lt, 1)) }
    }
    else if c == '>' { if pos + 1 < n && cs[pos + 1] == '=' { Some((Token::Gte, 2)) } else { Some((Token::Gt, 1)) } }
    else if c == '#' { Some((Token::Hash, 1)) }
    else { None }
}

fn lex_error(line: usize, col: usize, message: String) -> (e: LexError)
    ensures
        e@ == lex_err(line as int, col as int, message@),
{
    LexError { line, col, message }
}

/// Tokenise M source code into a sequence of tokens.
pub fn tokenize(input: &str) -> (r: Result<Vec<SpannedToken>, LexError>)
    requires
        input@.len() < usize::MAX,
    ensures
        match r {
            Ok(ts) => lex(input@) == Ok::<Seq<SpannedTokenV>, LexErrorV>(tokens_view(ts@)) && ts@.len() > 0
                && ts@.last().token is Eof,
            Err(e) => lex(input@) == Err::<Seq<SpannedTokenV>, LexErrorV>(e@),
        },
{
    let cs = chars_of(input);
    let n = cs.len();
    let mut tokens: Vec<SpannedToken> = Vec::new();
    let mut pos: usize = 0;
    let mut line: usize = 1;
    let mut col: usize = 1;
    assert(tokens_view(tokens@) + Seq::<SpannedTokenV>::empty() =~= Seq::<SpannedTokenV>::empty());
    proof {
        match lex_from(cs@, 0, 1, 1) {
            Ok(ts) => assert(tokens_view(tokens@) + ts =~= ts),
            Err(_) => {},
        }
    }
    while pos < n
        invariant
            n == cs.len() < usize::MAX,
            cs@ == input@,
            pos <= n,
            1 <= line <= pos + 1,
            1 <= col <= pos + 1,
            lex(cs@) == prepend_all(tokens_view(tokens@), lex_from(cs@, pos as int, line as int, col as int)),
        decreases n - pos,
    {
        let c = cs[pos];
        let ghost prefix = tokens_view(tokens@);
        if is_whitespace(c) {
            if c == '\n' {
                line += 1;
                col = 1;
            } else {
                col += 1;
            }
            pos += 1;
            continue;
        }
        if pos + 1 < n && c == '/' && cs[pos + 1] == '/' {
            pos = skip_line_comment(&cs, pos + 2);
            continue;
        }
        if pos + 1 < n && c == '/' && cs[pos + 1] == '*' {
            let (p, l, k) = skip_block_comment(&cs, pos + 2, line, col + 2);
            pos = p;
            line = l;
            col = k;
            continue;
        }
        let start_line = line;
        let start_col = col;
        let ghost start = pos as int;
        let tok: Token;
        if c == '"' {
            match scan_string_exec(&cs, pos + 1, line, col + 1) {
                None => {
                    return Err(lex_error(start_line, start_col, owned("Unterminated string literal")));
                },
                Some((s, p, l, k)) => {
                    tok = Token::StringLit(crate::text::string_of_chars(&s));
                    pos = p;
                    line = l;
                    col = k;
                },
            }
        } else if c == '#' && pos + 1 < n && cs[pos + 1] == '"' {
            let (s, p, l, k) = scan_quoted_exec(&cs, pos + 2, line, col + 2);
            tok = Token::QuotedIdent(crate::text::string_of_chars(&s));
            pos = p;
            line = l;
            col = k;
        } else if '0' <= c && c <= '9' {
            let e = scan_number_end(&cs, pos);
            match number_token_exec(&cs, pos, e) {
                Ok(t) => {
                    tok = t;
                    col = col + (e - pos);
                    pos = e;
                },
                Err(m) => {
                    return Err(lex_error(start_line, start_col, m));
                },
            }
        } else if is_alphabetic(c) || c == '_' {
            let e = scan_ident_end(&cs, pos);
            tok = word_token_exec(&cs, pos, e);
            col = col + (e - pos);
            pos = e;
        } else {
            match punct_token_exec(&cs, pos) {
                Some((t, w)) => {
                    tok = t;
                    pos = pos + w;
                    col = col + w;
                },
                None => {
                    let mut m = owned("Unexpected character: '");
                    push_char(&mut m, c);
                    m.append("'");
                    let e = lex_error(start_line, start_col, m);
                    assert(m@ =~= "Unexpected character: '"@ + seq![c] + "'"@);
                    assert(lex_from(cs@, pos as int, line as int, col as int) == Err::<Seq<SpannedTokenV>, LexErrorV>(e@));
                    return Err(e);
                },
            }
        }
        let st = SpannedToken { token: tok, line: start_line, col: start_col };
        proof {
            lemma_prepend_all_push(prefix, st@, lex_from(cs@, pos as int, line as int, col as int));
        }
        tokens.push(st);
        assert(tokens_view(tokens@) =~= prefix.push(st@));
    }
    let eof = SpannedToken { token: Token::Eof, line, col };
    assert(lex_from(cs@, pos as int, line as int, col as int) == Ok::<Seq<SpannedTokenV>, LexErrorV>(seq![eof@]));
    let ghost before = tokens_view(tokens@);
    tokens.push(eof);
    assert(tokens_view(tokens@) =~= before + seq![eof@]);
    assert(tokens_view(tokens@) =~= tokens_view(tokens@.drop_last()) + seq![eof@]);
    Ok(tokens)
}

} // verus!
