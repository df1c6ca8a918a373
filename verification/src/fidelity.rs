//! What the operators, aggregates, anti-joins and SQL type names of a translation stand
//! for, stated against how M spells its operators, how SQL names its functions and types,
//! and which side of a join an anti-join tests.
use vstd::prelude::*;
use crate::ast::BinOp;
use crate::lexer::{TokenV, punct_token};
use crate::resolver::m_binop_text;
use crate::syntax::{add_op, comparison_op, mul_op};
use crate::translation::{aggregate_of, sql_binop};
use crate::writer::{binop_text, join_keyword};
use crate::sql::{JoinType, SqlExprV};
use crate::ast::{MExprV, MTypeV};
use crate::dialect::{DialectId, is_unsupported_mapping, spec_map_type, unsupported_type_marker};
use crate::table_spec::{StV, TableOpV, TablesV, join_kind_of, string_list, table_ref_of, tr_join};

verus! {

// ---------------------------------------------------------------------------
// Operators
// ---------------------------------------------------------------------------

/// How a punctuation token is written in M source; empty for the other tokens.
pub open spec fn token_text(t: TokenV) -> Seq<char> {
    match t {
        TokenV::LParen => seq!['('],
        TokenV::RParen => seq![')'],
        TokenV::LBrace => seq!['{'],
        TokenV::RBrace => seq!['}'],
        TokenV::LBracket => seq!['['],
        TokenV::RBracket => seq![']'],
        TokenV::Comma => seq![','],
        TokenV::Semicolon => seq![';'],
        TokenV::At => seq!['@'],
        TokenV::Hash => seq!['#'],
        TokenV::Plus => seq!['+'],
        TokenV::Minus => seq!['-'],
        TokenV::Star => seq!['*'],
        TokenV::Slash => seq!['/'],
        TokenV::Ampersand => seq!['&'],
        TokenV::Dot => seq!['.'],
        TokenV::DotDot => seq!['.', '.'],
        TokenV::Ellipsis => seq!['.', '.', '.'],
        TokenV::Eq => seq!['='],
        TokenV::FatArrow => seq!['=', '>'],
        TokenV::Neq => seq!['<', '>'],
        TokenV::Lt => seq!['<'],
        TokenV::Lte => seq!['<', '='],
        TokenV::Gt => seq!['>'],
        TokenV::Gte => seq!['>', '='],
        _ => Seq::empty(),
    }
}

/// The punctuation token read at a position is spelled exactly by the characters it
/// consumes, and a two-character operator is never read as its first character alone.
pub proof fn law_punctuation_spells_its_token(cs: Seq<char>, pos: int)
    requires
        0 <= pos < cs.len(),
    ensures
        punct_token(cs, pos) is Some ==> {
            let (t, w) = punct_token(cs, pos)->0;
            &&& 1 <= w
            &&& pos + w <= cs.len()
            &&& cs.subrange(pos, pos + w) == token_text(t)
        },
        (pos + 1 < cs.len() && exists|t: TokenV| token_text(t).len() == 2 && #[trigger] token_text(t) == cs.subrange(pos, pos + 2))
            ==> punct_token(cs, pos) is Some && (punct_token(cs, pos)->0).1 >= 2,
{
    if punct_token(cs, pos) is Some {
        let (t, w) = punct_token(cs, pos)->0;
        if w == 1 {
            assert(cs.subrange(pos, pos + 1) =~= seq![cs[pos]]);
        } else if w == 2 {
            assert(cs.subrange(pos, pos + 2) =~= seq![cs[pos], cs[pos + 1]]);
        } else {
            assert(cs.subrange(pos, pos + 3) =~= seq![cs[pos], cs[pos + 1], cs[pos + 2]]);
        }
    }
    if pos + 1 < cs.len() && exists|t: TokenV| token_text(t).len() == 2 && #[trigger] token_text(t) == cs.subrange(pos, pos + 2) {
        let t = choose|t: TokenV| token_text(t).len() == 2 && #[trigger] token_text(t) == cs.subrange(pos, pos + 2);
        assert(cs[pos] == cs.subrange(pos, pos + 2)[0]);
        assert(cs[pos + 1] == cs.subrange(pos, pos + 2)[1]);
        assert(token_text(t)[0] == cs[pos] && token_text(t)[1] == cs[pos + 1]);
    }
}

/// Whether an operator compares its operands.
pub open spec fn is_comparison(op: BinOp) -> bool {
    op is Eq || op is Neq || op is Lt || op is Lte || op is Gt || op is Gte
}

/// Facts about the spellings of the M operators.
proof fn lemma_operator_spellings()
    ensures
        m_binop_text(BinOp::Eq) == seq!['='],
        m_binop_text(BinOp::Neq) == seq!['<', '>'],
        m_binop_text(BinOp::Lt) == seq!['<'],
        m_binop_text(BinOp::Lte) == seq!['<', '='],
        m_binop_text(BinOp::Gt) == seq!['>'],
        m_binop_text(BinOp::Gte) == seq!['>', '='],
        m_binop_text(BinOp::Add) == seq!['+'],
        m_binop_text(BinOp::Sub) == seq!['-'],
        m_binop_text(BinOp::Mul) == seq!['*'],
        m_binop_text(BinOp::Div) == seq!['/'],
        m_binop_text(BinOp::Concat) == seq!['&'],
        m_binop_text(BinOp::And) == seq!['a', 'n', 'd'],
        m_binop_text(BinOp::Or) == seq!['o', 'r'],
{
    reveal_strlit("=");
    reveal_strlit("<>");
    reveal_strlit("<");
    reveal_strlit("<=");
    reveal_strlit(">");
    reveal_strlit(">=");
    reveal_strlit("+");
    reveal_strlit("-");
    reveal_strlit("*");
    reveal_strlit("/");
    reveal_strlit("&");
    reveal_strlit("and");
    reveal_strlit("or");
    assert(m_binop_text(BinOp::Eq) =~= seq!['=']);
    assert(m_binop_text(BinOp::Neq) =~= seq!['<', '>']);
    assert(m_binop_text(BinOp::Lt) =~= seq!['<']);
    assert(m_binop_text(BinOp::Lte) =~= seq!['<', '=']);
    assert(m_binop_text(BinOp::Gt) =~= seq!['>']);
    assert(m_binop_text(BinOp::Gte) =~= seq!['>', '=']);
    assert(m_binop_text(BinOp::Add) =~= seq!['+']);
    assert(m_binop_text(BinOp::Sub) =~= seq!['-']);
    assert(m_binop_text(BinOp::Mul) =~= seq!['*']);
    assert(m_binop_text(BinOp::Div) =~= seq!['/']);
    assert(m_binop_text(BinOp::Concat) =~= seq!['&']);
    assert(m_binop_text(BinOp::And) =~= seq!['a', 'n', 'd']);
    assert(m_binop_text(BinOp::Or) =~= seq!['o', 'r']);
}

/// The parser reads each operator token as the operator written the same way: a comparison,
/// additive or multiplicative operator parsed from a token is spelled in M exactly as the
/// token is, and a token spelled like a comparison operator is parsed as that comparison.
pub proof fn law_operators_keep_their_spelling(t: TokenV)
    ensures
        comparison_op(t) is Some ==> m_binop_text(comparison_op(t)->0) == token_text(t) && is_comparison(comparison_op(t)->0),
        add_op(t) is Some ==> m_binop_text(add_op(t)->0) == token_text(t),
        mul_op(t) is Some ==> m_binop_text(mul_op(t)->0) == token_text(t),
        forall|op: BinOp| is_comparison(op) && #[trigger] m_binop_text(op) == token_text(t) ==> comparison_op(t) == Some(op),
{
    lemma_operator_spellings();
    assert forall|op: BinOp| is_comparison(op) && #[trigger] m_binop_text(op) == token_text(t) implies comparison_op(t) == Some(op) by {
        let s = m_binop_text(op);
        assert(s.len() == token_text(t).len());
        if s.len() > 0 {
            assert(s[0] == token_text(t)[0]);
        }
        if s.len() > 1 {
            assert(s[1] == token_text(t)[1]);
        }
    }
}

/// Translation keeps each comparison and arithmetic operator: SQL writes it as M does.
pub proof fn law_sql_operators_match_m(op: BinOp)
    ensures
        !(op is And || op is Or || op is Concat) ==> binop_text(sql_binop(op)) == m_binop_text(op),
{
    lemma_operator_spellings();
    reveal_strlit("=");
    reveal_strlit("<>");
    reveal_strlit("<");
    reveal_strlit("<=");
    reveal_strlit(">");
    reveal_strlit(">=");
    reveal_strlit("+");
    reveal_strlit("-");
    reveal_strlit("*");
    reveal_strlit("/");
}

// ---------------------------------------------------------------------------
// Anti-joins
// ---------------------------------------------------------------------------

/// `t.col IS NULL`.
pub open spec fn column_is_null(t: Seq<char>, col: Seq<char>) -> SqlExprV {
    SqlExprV::IsNull { expr: Box::new(SqlExprV::Column { table: Some(t), name: col }), negated: false }
}

/// An anti-join keeps the rows of one table that have no match in the other: a left
/// anti-join joins the right table (`args[2]`) and keeps the rows where the right table's
/// first key (`args[3]`) is null; a right anti-join keeps the rows where the left table's
/// first key (`args[0]`, `args[1]`) is null; other joins filter nothing.
pub proof fn law_anti_joins_test_the_unmatched_side(t: TablesV, st: StV, args: Seq<MExprV>, nested: bool)
    requires
        args.len() > (if nested { 5int } else { 4int }),
        string_list(args[1]).len() > 0,
        string_list(args[3]).len() > 0,
    ensures
        ({
            let kind = join_kind_of(args[if nested { 5int } else { 4int }]);
            let r = tr_join(t, st, args, nested).0;
            &&& r is Select
            &&& r->Select_0.joins.len() == 1
            &&& r->Select_0.joins[0].table.name == table_ref_of(args[2])
            &&& kind == JoinType::LeftAnti ==> r->Select_0.where_clause == Some(
                column_is_null(table_ref_of(args[2]), string_list(args[3])[0]),
            )
            &&& kind == JoinType::RightAnti ==> r->Select_0.where_clause == Some(
                column_is_null(table_ref_of(args[0]), string_list(args[1])[0]),
            )
            &&& !(kind == JoinType::LeftAnti || kind == JoinType::RightAnti) ==> r->Select_0.where_clause is None
        }),
{
}

// ---------------------------------------------------------------------------
// Aggregates
// ---------------------------------------------------------------------------

/// Whether `s` is the upper-case form of the ASCII character `m`.
pub open spec fn upper_of(m: char, s: char) -> bool {
    if 'a' <= m && m <= 'z' {
        (s as u32) + 32 == (m as u32)
    } else {
        s == m
    }
}

/// Whether a text ends with `Distinct`.
pub open spec fn ends_with_distinct(name: Seq<char>) -> bool {
    name.len() >= 8 && name.skip(name.len() - 8) == seq!['D', 'i', 's', 't', 'i', 'n', 'c', 't']
}

/// Whether the letters of `f` appear in `m`, upper-cased and in order, at the positions
/// `idx`, the first of them at the start of `m`.
pub open spec fn spelled_in_order(m: Seq<char>, f: Seq<char>, idx: Seq<int>) -> bool {
    &&& idx.len() == f.len()
    &&& idx.len() > 0 ==> idx[0] == 0
    &&& forall|k: int| 0 <= k < idx.len() - 1 ==> #[trigger] idx[k] < idx[k + 1]
    &&& forall|k: int| 0 <= k < idx.len() ==> 0 <= #[trigger] idx[k] < m.len() && upper_of(m[idx[k]], f[k])
}

/// Each M list aggregate becomes the SQL aggregate it names: the SQL function's letters are,
/// in order, upper-cased letters of the M function's name after `List.`, beginning with its
/// first (SUM from Sum, AVG from Average, COUNT from Count, MIN from Min, MAX from Max), at
/// least three of them, and it counts distinct values exactly when the M name ends with
/// `Distinct`; each of the six M aggregates is recognised.
pub proof fn law_aggregates_name_their_sql_function(name: Seq<char>)
    ensures
        aggregate_of(name) is Some ==> {
            let (f, distinct) = aggregate_of(name)->0;
            &&& name.len() > 5
            &&& name.take(5) == seq!['L', 'i', 's', 't', '.']
            &&& f.len() >= 3
            &&& exists|idx: Seq<int>| #[trigger] spelled_in_order(name.skip(5), f, idx)
            &&& distinct == ends_with_distinct(name)
        },
        aggregate_of(seq!['L', 'i', 's', 't', '.', 'S', 'u', 'm']) is Some,
        aggregate_of(seq!['L', 'i', 's', 't', '.', 'A', 'v', 'e', 'r', 'a', 'g', 'e']) is Some,
        aggregate_of(seq!['L', 'i', 's', 't', '.', 'C', 'o', 'u', 'n', 't']) is Some,
        aggregate_of(seq!['L', 'i', 's', 't', '.', 'M', 'i', 'n']) is Some,
        aggregate_of(seq!['L', 'i', 's', 't', '.', 'M', 'a', 'x']) is Some,
        aggregate_of(seq!['L', 'i', 's', 't', '.', 'C', 'o', 'u', 'n', 't', 'D', 'i', 's', 't', 'i', 'n', 'c', 't']) is Some,
{
    reveal_strlit("AVG");
    reveal_strlit("COUNT");
    reveal_strlit("List.Average");
    reveal_strlit("List.Count");
    reveal_strlit("List.CountDistinct");
    reveal_strlit("List.Max");
    reveal_strlit("List.Min");
    reveal_strlit("List.Sum");
    reveal_strlit("MAX");
    reveal_strlit("MIN");
    reveal_strlit("SUM");
    assert("AVG"@ =~= seq!['A', 'V', 'G']);
    assert("COUNT"@ =~= seq!['C', 'O', 'U', 'N', 'T']);
    assert("List.Average"@ =~= seq!['L', 'i', 's', 't', '.', 'A', 'v', 'e', 'r', 'a', 'g', 'e']);
    assert("List.Count"@ =~= seq!['L', 'i', 's', 't', '.', 'C', 'o', 'u', 'n', 't']);
    assert("List.CountDistinct"@ =~= seq!['L', 'i', 's', 't', '.', 'C', 'o', 'u', 'n', 't', 'D', 'i', 's', 't', 'i', 'n', 'c', 't']);
    assert("List.Max"@ =~= seq!['L', 'i', 's', 't', '.', 'M', 'a', 'x']);
    assert("List.Min"@ =~= seq!['L', 'i', 's', 't', '.', 'M', 'i', 'n']);
    assert("List.Sum"@ =~= seq!['L', 'i', 's', 't', '.', 'S', 'u', 'm']);
    assert("MAX"@ =~= seq!['M', 'A', 'X']);
    assert("MIN"@ =~= seq!['M', 'I', 'N']);
    assert("SUM"@ =~= seq!['S', 'U', 'M']);
    if name == seq!['L', 'i', 's', 't', '.', 'S', 'u', 'm'] {
        assert(name.take(5) =~= seq!['L', 'i', 's', 't', '.']);
        let m = name.skip(5);
        assert(m =~= seq!['S', 'u', 'm']);
        let f = seq!['S', 'U', 'M'];
        let idx = seq![0int, 1int, 2int];
        assert(upper_of(m[0], f[0]));
        assert(upper_of(m[1], f[1]));
        assert(upper_of(m[2], f[2]));
        assert(spelled_in_order(m, f, idx));
        assert(name.skip(0)[0] == name[0]);
    } else if name == seq!['L', 'i', 's', 't', '.', 'A', 'v', 'e', 'r', 'a', 'g', 'e'] {
        assert(name.take(5) =~= seq!['L', 'i', 's', 't', '.']);
        let m = name.skip(5);
        assert(m =~= seq!['A', 'v', 'e', 'r', 'a', 'g', 'e']);
        let f = seq!['A', 'V', 'G'];
        let idx = seq![0int, 1int, 5int];
        assert(upper_of(m[0], f[0]));
        assert(upper_of(m[1], f[1]));
        assert(upper_of(m[5], f[2]));
        assert(spelled_in_order(m, f, idx));
        assert(name.skip(4)[0] == name[4]);
    } else if name == seq!['L', 'i', 's', 't', '.', 'C', 'o', 'u', 'n', 't'] {
        assert(name.take(5) =~= seq!['L', 'i', 's', 't', '.']);
        let m = name.skip(5);
        assert(m =~= seq!['C', 'o', 'u', 'n', 't']);
        let f = seq!['C', 'O', 'U', 'N', 'T'];
        let idx = seq![0int, 1int, 2int, 3int, 4int];
        assert(upper_of(m[0], f[0]));
        assert(upper_of(m[1], f[1]));
        assert(upper_of(m[2], f[2]));
        assert(upper_of(m[3], f[3]));
        assert(upper_of(m[4], f[4]));
        assert(spelled_in_order(m, f, idx));
        assert(name.skip(2)[0] == name[2]);
    } else if name == seq!['L', 'i', 's', 't', '.', 'M', 'i', 'n'] {
        assert(name.take(5) =~= seq!['L', 'i', 's', 't', '.']);
        let m = name.skip(5);
        assert(m =~= seq!['M', 'i', 'n']);
        let f = seq!['M', 'I', 'N'];
        let idx = seq![0int, 1int, 2int];
        assert(upper_of(m[0], f[0]));
        assert(upper_of(m[1], f[1]));
        assert(upper_of(m[2], f[2]));
        assert(spelled_in_order(m, f, idx));
        assert(name.skip(0)[0] == name[0]);
    } else if name == seq!['L', 'i', 's', 't', '.', 'M', 'a', 'x'] {
        assert(name.take(5) =~= seq!['L', 'i', 's', 't', '.']);
        let m = name.skip(5);
        assert(m =~= seq!['M', 'a', 'x']);
        let f = seq!['M', 'A', 'X'];
        let idx = seq![0int, 1int, 2int];
        assert(upper_of(m[0], f[0]));
        assert(upper_of(m[1], f[1]));
        assert(upper_of(m[2], f[2]));
        assert(spelled_in_order(m, f, idx));
        assert(name.skip(0)[0] == name[0]);
    } else if name == seq!['L', 'i', 's', 't', '.', 'C', 'o', 'u', 'n', 't', 'D', 'i', 's', 't', 'i', 'n', 'c', 't'] {
        assert(name.take(5) =~= seq!['L', 'i', 's', 't', '.']);
        let m = name.skip(5);
        assert(m =~= seq!['C', 'o', 'u', 'n', 't', 'D', 'i', 's', 't', 'i', 'n', 'c', 't']);
        let f = seq!['C', 'O', 'U', 'N', 'T'];
        let idx = seq![0int, 1int, 2int, 3int, 4int];
        assert(upper_of(m[0], f[0]));
        assert(upper_of(m[1], f[1]));
        assert(upper_of(m[2], f[2]));
        assert(upper_of(m[3], f[3]));
        assert(upper_of(m[4], f[4]));
        assert(spelled_in_order(m, f, idx));
        assert(name.skip(10) =~= seq!['D', 'i', 's', 't', 'i', 'n', 'c', 't']);
    }
    if aggregate_of(name) is Some {
        let (f, distinct) = aggregate_of(name)->0;
        assert(name.len() > 5);
        assert(name.take(5) == seq!['L', 'i', 's', 't', '.']);
        assert(f.len() >= 3);
        assert(exists|idx: Seq<int>| #[trigger] spelled_in_order(name.skip(5), f, idx));
        assert(distinct == ends_with_distinct(name));
    }
}

// ---------------------------------------------------------------------------
// SQL types
// ---------------------------------------------------------------------------

/// Whether `p` occurs in `s`.
pub open spec fn has_infix(s: Seq<char>, p: Seq<char>) -> bool {
    exists|i: int| 0 <= i && i + p.len() <= s.len() && #[trigger] s.subrange(i, i + p.len()) == p
}

/// The spellings of the SQL type names.
proof fn lemma_type_spellings()
    ensures
        unsupported_type_marker() == seq!['/', '*', ' ', 'U', 'N', 'S', 'U', 'P', 'P', 'O', 'R', 'T', 'E', 'D', '_', 'T', 'Y', 'P', 'E', ' ', '*', '/'],
        "NVARCHAR(MAX)"@ == seq!['N', 'V', 'A', 'R', 'C', 'H', 'A', 'R', '(', 'M', 'A', 'X', ')'],
        "TEXT"@ == seq!['T', 'E', 'X', 'T'],
        "STRING"@ == seq!['S', 'T', 'R', 'I', 'N', 'G'],
        "VARCHAR"@ == seq!['V', 'A', 'R', 'C', 'H', 'A', 'R'],
        "FLOAT"@ == seq!['F', 'L', 'O', 'A', 'T'],
        "DOUBLE PRECISION"@ == seq!['D', 'O', 'U', 'B', 'L', 'E', ' ', 'P', 'R', 'E', 'C', 'I', 'S', 'I', 'O', 'N'],
        "FLOAT64"@ == seq!['F', 'L', 'O', 'A', 'T', '6', '4'],
        "DOUBLE"@ == seq!['D', 'O', 'U', 'B', 'L', 'E'],
        "INT64"@ == seq!['I', 'N', 'T', '6', '4'],
        "BIGINT"@ == seq!['B', 'I', 'G', 'I', 'N', 'T'],
        "BIT"@ == seq!['B', 'I', 'T'],
        "BOOL"@ == seq!['B', 'O', 'O', 'L'],
        "BOOLEAN"@ == seq!['B', 'O', 'O', 'L', 'E', 'A', 'N'],
        "DATE"@ == seq!['D', 'A', 'T', 'E'],
        "DATETIME2"@ == seq!['D', 'A', 'T', 'E', 'T', 'I', 'M', 'E', '2'],
        "DATETIME"@ == seq!['D', 'A', 'T', 'E', 'T', 'I', 'M', 'E'],
        "TIMESTAMP_NTZ"@ == seq!['T', 'I', 'M', 'E', 'S', 'T', 'A', 'M', 'P', '_', 'N', 'T', 'Z'],
        "TIMESTAMP"@ == seq!['T', 'I', 'M', 'E', 'S', 'T', 'A', 'M', 'P'],
        "DATETIMEOFFSET"@ == seq!['D', 'A', 'T', 'E', 'T', 'I', 'M', 'E', 'O', 'F', 'F', 'S', 'E', 'T'],
        "TIMESTAMP_TZ"@ == seq!['T', 'I', 'M', 'E', 'S', 'T', 'A', 'M', 'P', '_', 'T', 'Z'],
        "TIMESTAMPTZ"@ == seq!['T', 'I', 'M', 'E', 'S', 'T', 'A', 'M', 'P', 'T', 'Z'],
        "INTERVAL"@ == seq!['I', 'N', 'T', 'E', 'R', 'V', 'A', 'L'],
        "VARBINARY(MAX)"@ == seq!['V', 'A', 'R', 'B', 'I', 'N', 'A', 'R', 'Y', '(', 'M', 'A', 'X', ')'],
        "BYTEA"@ == seq!['B', 'Y', 'T', 'E', 'A'],
        "BYTES"@ == seq!['B', 'Y', 'T', 'E', 'S'],
        "BINARY"@ == seq!['B', 'I', 'N', 'A', 'R', 'Y'],
        "BLOB"@ == seq!['B', 'L', 'O', 'B'],
        "SQL_VARIANT"@ == seq!['S', 'Q', 'L', '_', 'V', 'A', 'R', 'I', 'A', 'N', 'T'],
        "VARIANT"@ == seq!['V', 'A', 'R', 'I', 'A', 'N', 'T'],
{
    reveal_strlit("NVARCHAR(MAX)");
    assert("NVARCHAR(MAX)"@ =~= seq!['N', 'V', 'A', 'R', 'C', 'H', 'A', 'R', '(', 'M', 'A', 'X', ')']);
    reveal_strlit("TEXT");
    assert("TEXT"@ =~= seq!['T', 'E', 'X', 'T']);
    reveal_strlit("STRING");
    assert("STRING"@ =~= seq!['S', 'T', 'R', 'I', 'N', 'G']);
    reveal_strlit("VARCHAR");
    assert("VARCHAR"@ =~= seq!['V', 'A', 'R', 'C', 'H', 'A', 'R']);
    reveal_strlit("FLOAT");
    assert("FLOAT"@ =~= seq!['F', 'L', 'O', 'A', 'T']);
    reveal_strlit("DOUBLE PRECISION");
    assert("DOUBLE PRECISION"@ =~= seq!['D', 'O', 'U', 'B', 'L', 'E', ' ', 'P', 'R', 'E', 'C', 'I', 'S', 'I', 'O', 'N']);
    reveal_strlit("FLOAT64");
    assert("FLOAT64"@ =~= seq!['F', 'L', 'O', 'A', 'T', '6', '4']);
    reveal_strlit("DOUBLE");
    assert("DOUBLE"@ =~= seq!['D', 'O', 'U', 'B', 'L', 'E']);
    reveal_strlit("INT64");
    assert("INT64"@ =~= seq!['I', 'N', 'T', '6', '4']);
    reveal_strlit("BIGINT");
    assert("BIGINT"@ =~= seq!['B', 'I', 'G', 'I', 'N', 'T']);
    reveal_strlit("BIT");
    assert("BIT"@ =~= seq!['B', 'I', 'T']);
    reveal_strlit("BOOL");
    assert("BOOL"@ =~= seq!['B', 'O', 'O', 'L']);
    reveal_strlit("BOOLEAN");
    assert("BOOLEAN"@ =~= seq!['B', 'O', 'O', 'L', 'E', 'A', 'N']);
    reveal_strlit("DATE");
    assert("DATE"@ =~= seq!['D', 'A', 'T', 'E']);
    reveal_strlit("DATETIME2");
    assert("DATETIME2"@ =~= seq!['D', 'A', 'T', 'E', 'T', 'I', 'M', 'E', '2']);
    reveal_strlit("DATETIME");
    assert("DATETIME"@ =~= seq!['D', 'A', 'T', 'E', 'T', 'I', 'M', 'E']);
    reveal_strlit("TIMESTAMP_NTZ");
    assert("TIMESTAMP_NTZ"@ =~= seq!['T', 'I', 'M', 'E', 'S', 'T', 'A', 'M', 'P', '_', 'N', 'T', 'Z']);
    reveal_strlit("TIMESTAMP");
    assert("TIMESTAMP"@ =~= seq!['T', 'I', 'M', 'E', 'S', 'T', 'A', 'M', 'P']);
    reveal_strlit("DATETIMEOFFSET");
    assert("DATETIMEOFFSET"@ =~= seq!['D', 'A', 'T', 'E', 'T', 'I', 'M', 'E', 'O', 'F', 'F', 'S', 'E', 'T']);
    reveal_strlit("TIMESTAMP_TZ");
    assert("TIMESTAMP_TZ"@ =~= seq!['T', 'I', 'M', 'E', 'S', 'T', 'A', 'M', 'P', '_', 'T', 'Z']);
    reveal_strlit("TIMESTAMPTZ");
    assert("TIMESTAMPTZ"@ =~= seq!['T', 'I', 'M', 'E', 'S', 'T', 'A', 'M', 'P', 'T', 'Z']);
    reveal_strlit("INTERVAL");
    assert("INTERVAL"@ =~= seq!['I', 'N', 'T', 'E', 'R', 'V', 'A', 'L']);
    reveal_strlit("VARBINARY(MAX)");
    assert("VARBINARY(MAX)"@ =~= seq!['V', 'A', 'R', 'B', 'I', 'N', 'A', 'R', 'Y', '(', 'M', 'A', 'X', ')']);
    reveal_strlit("BYTEA");
    assert("BYTEA"@ =~= seq!['B', 'Y', 'T', 'E', 'A']);
    reveal_strlit("BYTES");
    assert("BYTES"@ =~= seq!['B', 'Y', 'T', 'E', 'S']);
    reveal_strlit("BINARY");
    assert("BINARY"@ =~= seq!['B', 'I', 'N', 'A', 'R', 'Y']);
    reveal_strlit("BLOB");
    assert("BLOB"@ =~= seq!['B', 'L', 'O', 'B']);
    reveal_strlit("SQL_VARIANT");
    assert("SQL_VARIANT"@ =~= seq!['S', 'Q', 'L', '_', 'V', 'A', 'R', 'I', 'A', 'N', 'T']);
    reveal_strlit("VARIANT");
    assert("VARIANT"@ =~= seq!['V', 'A', 'R', 'I', 'A', 'N', 'T']);
    reveal_strlit("/* UNSUPPORTED_TYPE */");
    assert("/* UNSUPPORTED_TYPE */"@ =~= seq!['/', '*', ' ', 'U', 'N', 'S', 'U', 'P', 'P', 'O', 'R', 'T', 'E', 'D', '_', 'T', 'Y', 'P', 'E', ' ', '*', '/']);
}

/// Lengths and first letters of the SQL type names.
proof fn lemma_type_name_letters()
    ensures
        "NVARCHAR(MAX)"@.len() == 13,
        "NVARCHAR(MAX)"@[0] == 'N',
        "NVARCHAR(MAX)"@[1] == 'V',
        "NVARCHAR(MAX)"@[2] == 'A',
        "TEXT"@.len() == 4,
        "TEXT"@[0] == 'T',
        "TEXT"@[1] == 'E',
        "TEXT"@[2] == 'X',
        "STRING"@.len() == 6,
        "STRING"@[0] == 'S',
        "STRING"@[1] == 'T',
        "STRING"@[2] == 'R',
        "VARCHAR"@.len() == 7,
        "VARCHAR"@[0] == 'V',
        "VARCHAR"@[1] == 'A',
        "VARCHAR"@[2] == 'R',
        "FLOAT"@.len() == 5,
        "FLOAT"@[0] == 'F',
        "FLOAT"@[1] == 'L',
        "FLOAT"@[2] == 'O',
        "DOUBLE PRECISION"@.len() == 16,
        "DOUBLE PRECISION"@[0] == 'D',
        "DOUBLE PRECISION"@[1] == 'O',
        "DOUBLE PRECISION"@[2] == 'U',
        "FLOAT64"@.len() == 7,
        "FLOAT64"@[0] == 'F',
        "FLOAT64"@[1] == 'L',
        "FLOAT64"@[2] == 'O',
        "DOUBLE"@.len() == 6,
        "DOUBLE"@[0] == 'D',
        "DOUBLE"@[1] == 'O',
        "DOUBLE"@[2] == 'U',
        "INT64"@.len() == 5,
        "INT64"@[0] == 'I',
        "INT64"@[1] == 'N',
        "INT64"@[2] == 'T',
        "BIGINT"@.len() == 6,
        "BIGINT"@[0] == 'B',
        "BIGINT"@[1] == 'I',
        "BIGINT"@[2] == 'G',
        "BIT"@.len() == 3,
        "BIT"@[0] == 'B',
        "BIT"@[1] == 'I',
        "BIT"@[2] == 'T',
        "BOOL"@.len() == 4,
        "BOOL"@[0] == 'B',
        "BOOL"@[1] == 'O',
        "BOOL"@[2] == 'O',
        "BOOLEAN"@.len() == 7,
        "BOOLEAN"@[0] == 'B',
        "BOOLEAN"@[1] == 'O',
        "BOOLEAN"@[2] == 'O',
        "DATE"@.len() == 4,
        "DATE"@[0] == 'D',
        "DATE"@[1] == 'A',
        "DATE"@[2] == 'T',
        "DATETIME2"@.len() == 9,
        "DATETIME2"@[0] == 'D',
        "DATETIME2"@[1] == 'A',
        "DATETIME2"@[2] == 'T',
        "DATETIME"@.len() == 8,
        "DATETIME"@[0] == 'D',
        "DATETIME"@[1] == 'A',
        "DATETIME"@[2] == 'T',
        "TIMESTAMP_NTZ"@.len() == 13,
        "TIMESTAMP_NTZ"@[0] == 'T',
        "TIMESTAMP_NTZ"@[1] == 'I',
        "TIMESTAMP_NTZ"@[2] == 'M',
        "TIMESTAMP"@.len() == 9,
        "TIMESTAMP"@[0] == 'T',
        "TIMESTAMP"@[1] == 'I',
        "TIMESTAMP"@[2] == 'M',
        "DATETIMEOFFSET"@.len() == 14,
        "DATETIMEOFFSET"@[0] == 'D',
        "DATETIMEOFFSET"@[1] == 'A',
        "DATETIMEOFFSET"@[2] == 'T',
        "TIMESTAMP_TZ"@.len() == 12,
        "TIMESTAMP_TZ"@[0] == 'T',
        "TIMESTAMP_TZ"@[1] == 'I',
        "TIMESTAMP_TZ"@[2] == 'M',
        "TIMESTAMPTZ"@.len() == 11,
        "TIMESTAMPTZ"@[0] == 'T',
        "TIMESTAMPTZ"@[1] == 'I',
        "TIMESTAMPTZ"@[2] == 'M',
        "INTERVAL"@.len() == 8,
        "INTERVAL"@[0] == 'I',
        "INTERVAL"@[1] == 'N',
        "INTERVAL"@[2] == 'T',
        "VARBINARY(MAX)"@.len() == 14,
        "VARBINARY(MAX)"@[0] == 'V',
        "VARBINARY(MAX)"@[1] == 'A',
        "VARBINARY(MAX)"@[2] == 'R',
        "BYTEA"@.len() == 5,
        "BYTEA"@[0] == 'B',
        "BYTEA"@[1] == 'Y',
        "BYTEA"@[2] == 'T',
        "BYTES"@.len() == 5,
        "BYTES"@[0] == 'B',
        "BYTES"@[1] == 'Y',
        "BYTES"@[2] == 'T',
        "BINARY"@.len() == 6,
        "BINARY"@[0] == 'B',
        "BINARY"@[1] == 'I',
        "BINARY"@[2] == 'N',
        "BLOB"@.len() == 4,
        "BLOB"@[0] == 'B',
        "BLOB"@[1] == 'L',
        "BLOB"@[2] == 'O',
        "SQL_VARIANT"@.len() == 11,
        "SQL_VARIANT"@[0] == 'S',
        "SQL_VARIANT"@[1] == 'Q',
        "SQL_VARIANT"@[2] == 'L',
        "VARIANT"@.len() == 7,
        "VARIANT"@[0] == 'V',
        "VARIANT"@[1] == 'A',
        "VARIANT"@[2] == 'R',
        "/* UNSUPPORTED_TYPE */"@.len() == 22,
        "/* UNSUPPORTED_TYPE */"@[0] == '/',
        "/* UNSUPPORTED_TYPE */"@[1] == '*',
        "/* UNSUPPORTED_TYPE */"@[2] == ' ',
{
    reveal_strlit("NVARCHAR(MAX)");
    reveal_strlit("TEXT");
    reveal_strlit("STRING");
    reveal_strlit("VARCHAR");
    reveal_strlit("FLOAT");
    reveal_strlit("DOUBLE PRECISION");
    reveal_strlit("FLOAT64");
    reveal_strlit("DOUBLE");
    reveal_strlit("INT64");
    reveal_strlit("BIGINT");
    reveal_strlit("BIT");
    reveal_strlit("BOOL");
    reveal_strlit("BOOLEAN");
    reveal_strlit("DATE");
    reveal_strlit("DATETIME2");
    reveal_strlit("DATETIME");
    reveal_strlit("TIMESTAMP_NTZ");
    reveal_strlit("TIMESTAMP");
    reveal_strlit("DATETIMEOFFSET");
    reveal_strlit("TIMESTAMP_TZ");
    reveal_strlit("TIMESTAMPTZ");
    reveal_strlit("INTERVAL");
    reveal_strlit("VARBINARY(MAX)");
    reveal_strlit("BYTEA");
    reveal_strlit("BYTES");
    reveal_strlit("BINARY");
    reveal_strlit("BLOB");
    reveal_strlit("SQL_VARIANT");
    reveal_strlit("VARIANT");
    reveal_strlit("/* UNSUPPORTED_TYPE */");
}

/// No two M types share a SQL type in a dialect: a cast to the type of one column never
/// stands for another type (so a date-time never becomes a date). `any` is left out: it
/// takes a general type that may coincide with text.
#[verifier::rlimit(50)]
pub proof fn law_sql_types_distinct(d: DialectId, t1: MTypeV, t2: MTypeV)
    requires
        t1 != t2,
        !(t1 is Any),
        !(t2 is Any),
        !is_unsupported_mapping(d, t1),
        !is_unsupported_mapping(d, t2),
    ensures
        spec_map_type(d, t1) != spec_map_type(d, t2),
{
    lemma_type_name_letters();
    match d {
        DialectId::TSql => match t1 {
            MTypeV::Text => match t2 {
                MTypeV::Text => {},
                MTypeV::Number => {},
                MTypeV::Integer => {},
                MTypeV::Logical => {},
                MTypeV::Date => {},
                MTypeV::DateTime => {},
                MTypeV::DateTimeZone => {},
                MTypeV::Duration => {},
                MTypeV::Binary => {},
                MTypeV::Table => {},
                MTypeV::Any => {},
                MTypeV::Unknown(_) => {},
            },
            MTypeV::Number => match t2 {
                MTypeV::Text => {},
                MTypeV::Number => {},
                MTypeV::Integer => {},
                MTypeV::Logical => {},
                MTypeV::Date => {},
                MTypeV::DateTime => {},
                MTypeV::DateTimeZone => {},
                MTypeV::Duration => {},
                MTypeV::Binary => {},
                MTypeV::Table => {},
                MTypeV::Any => {},
                MTypeV::Unknown(_) => {},
            },
            MTypeV::Integer => match t2 {
                MTypeV::Text => {},
                MTypeV::Number => {},
                MTypeV::Integer => {},
                MTypeV::Logical => {},
                MTypeV::Date => {},
                MTypeV::DateTime => {},
                MTypeV::DateTimeZone => {},
                MTypeV::Duration => {},
                MTypeV::Binary => {},
                MTypeV::Table => {},
                MTypeV::Any => {},
                MTypeV::Unknown(_) => {},
            },
            MTypeV::Logical => match t2 {
                MTypeV::Text => {},
                MTypeV::Number => {},
                MTypeV::Integer => {},
                MTypeV::Logical => {},
                MTypeV::Date => {},
                MTypeV::DateTime => {},
                MTypeV::DateTimeZone => {},
                MTypeV::Duration => {},
                MTypeV::Binary => {},
                MTypeV::Table => {},
                MTypeV::Any => {},
                MTypeV::Unknown(_) => {},
            },
            MTypeV::Date => match t2 {
                MTypeV::Text => {},
                MTypeV::Number => {},
                MTypeV::Integer => {},
                MTypeV::Logical => {},
                MTypeV::Date => {},
                MTypeV::DateTime => {},
                MTypeV::DateTimeZone => {},
                MTypeV::Duration => {},
                MTypeV::Binary => {},
                MTypeV::Table => {},
                MTypeV::Any => {},
                MTypeV::Unknown(_) => {},
            },
            MTypeV::DateTime => match t2 {
                MTypeV::Text => {},
                MTypeV::Number => {},
                MTypeV::Integer => {},
                MTypeV::Logical => {},
                MTypeV::Date => {},
                MTypeV::DateTime => {},
                MTypeV::DateTimeZone => {},
                MTypeV::Duration => {},
                MTypeV::Binary => {},
                MTypeV::Table => {},
                MTypeV::Any => {},
                MTypeV::Unknown(_) => {},
            },
            MTypeV::DateTimeZone => match t2 {
                MTypeV::Text => {},
                MTypeV::Number => {},
                MTypeV::Integer => {},
                MTypeV::Logical => {},
                MTypeV::Date => {},
                MTypeV::DateTime => {},
                MTypeV::DateTimeZone => {},
                MTypeV::Duration => {},
                MTypeV::Binary => {},
                MTypeV::Table => {},
                MTypeV::Any => {},
                MTypeV::Unknown(_) => {},
            },
            MTypeV::Duration => match t2 {
                MTypeV::Text => {},
                MTypeV::Number => {},
                MTypeV::Integer => {},
                MTypeV::Logical => {},
                MTypeV::Date => {},
                MTypeV::DateTime => {},
                MTypeV::DateTimeZone => {},
                MTypeV::Duration => {},
                MTypeV::Binary => {},
                MTypeV::Table => {},
                MTypeV::Any => {},
                MTypeV::Unknown(_) => {},
            },
            MTypeV::Binary => match t2 {
                MTypeV::Text => {},
                MTypeV::Number => {},
                MTypeV::Integer => {},
                MTypeV::Logical => {},
                MTypeV::Date => {},
                MTypeV::DateTime => {},
                MTypeV::DateTimeZone => {},
                MTypeV::Duration => {},
                MTypeV::Binary => {},
                MTypeV::Table => {},
                MTypeV::Any => {},
                MTypeV::Unknown(_) => {},
            },
            MTypeV::Table => match t2 {
                MTypeV::Text => {},
                MTypeV::Number => {},
                MTypeV::Integer => {},
                MTypeV::Logical => {},
                MTypeV::Date => {},
                MTypeV::DateTime => {},
                MTypeV::DateTimeZone => {},
                MTypeV::Duration => {},
                MTypeV::Binary => {},
                MTypeV::Table => {},
                MTypeV::Any => {},
                MTypeV::Unknown(_) => {},
            },
            MTypeV::Any => match t2 {
                MTypeV::Text => {},
                MTypeV::Number => {},
                MTypeV::Integer => {},
                MTypeV::Logical => {},
                MTypeV::Date => {},
                MTypeV::DateTime => {},
                MTypeV::DateTimeZone => {},
                MTypeV::Duration => {},
                MTypeV::Binary => {},
                MTypeV::Table => {},
                MTypeV::Any => {},
                MTypeV::Unknown(_) => {},
            },
            MTypeV::Unknown(_) => match t2 {
                MTypeV::Text => {},
                MTypeV::Number => {},
                MTypeV::Integer => {},
                MTypeV::Logical => {},
                MTypeV::Date => {},
                MTypeV::DateTime => {},
                MTypeV::DateTimeZone => {},
                MTypeV::Duration => {},
                MTypeV::Binary => {},
                MTypeV::Table => {},
                MTypeV::Any => {},
                MTypeV::Unknown(_) => {},
            },
        },
        DialectId::Postgres => match t1 {
            MTypeV::Text => match t2 {
                MTypeV::Text => {},
                MTypeV::Number => {},
                MTypeV::Integer => {},
                MTypeV::Logical => {},
                MTypeV::Date => {},
                MTypeV::DateTime => {},
                MTypeV::DateTimeZone => {},
                MTypeV::Duration => {},
                MTypeV::Binary => {},
                MTypeV::Table => {},
                MTypeV::Any => {},
                MTypeV::Unknown(_) => {},
            },
            MTypeV::Number => match t2 {
                MTypeV::Text => {},
                MTypeV::Number => {},
                MTypeV::Integer => {},
                MTypeV::Logical => {},
                MTypeV::Date => {},
                MTypeV::DateTime => {},
                MTypeV::DateTimeZone => {},
                MTypeV::Duration => {},
                MTypeV::Binary => {},
                MTypeV::Table => {},
                MTypeV::Any => {},
                MTypeV::Unknown(_) => {},
            },
            MTypeV::Integer => match t2 {
                MTypeV::Text => {},
                MTypeV::Number => {},
                MTypeV::Integer => {},
                MTypeV::Logical => {},
                MTypeV::Date => {},
                MTypeV::DateTime => {},
                MTypeV::DateTimeZone => {},
                MTypeV::Duration => {},
                MTypeV::Binary => {},
                MTypeV::Table => {},
                MTypeV::Any => {},
                MTypeV::Unknown(_) => {},
            },
            MTypeV::Logical => match t2 {
                MTypeV::Text => {},
                MTypeV::Number => {},
                MTypeV::Integer => {},
                MTypeV::Logical => {},
                MTypeV::Date => {},
                MTypeV::DateTime => {},
                MTypeV::DateTimeZone => {},
                MTypeV::Duration => {},
                MTypeV::Binary => {},
                MTypeV::Table => {},
                MTypeV::Any => {},
                MTypeV::Unknown(_) => {},
            },
            MTypeV::Date => match t2 {
                MTypeV::Text => {},
                MTypeV::Number => {},
                MTypeV::Integer => {},
                MTypeV::Logical => {},
                MTypeV::Date => {},
                MTypeV::DateTime => {},
                MTypeV::DateTimeZone => {},
                MTypeV::Duration => {},
                MTypeV::Binary => {},
                MTypeV::Table => {},
                MTypeV::Any => {},
                MTypeV::Unknown(_) => {},
            },
            MTypeV::DateTime => match t2 {
                MTypeV::Text => {},
                MTypeV::Number => {},
                MTypeV::Integer => {},
                MTypeV::Logical => {},
                MTypeV::Date => {},
                MTypeV::DateTime => {},
                MTypeV::DateTimeZone => {},
                MTypeV::Duration => {},
                MTypeV::Binary => {},
                MTypeV::Table => {},
                MTypeV::Any => {},
                MTypeV::Unknown(_) => {},
            },
            MTypeV::DateTimeZone => match t2 {
                MTypeV::Text => {},
                MTypeV::Number => {},
                MTypeV::Integer => {},
                MTypeV::Logical => {},
                MTypeV::Date => {},
                MTypeV::DateTime => {},
                MTypeV::DateTimeZone => {},
                MTypeV::Duration => {},
                MTypeV::Binary => {},
                MTypeV::Table => {},
                MTypeV::Any => {},
                MTypeV::Unknown(_) => {},
            },
            MTypeV::Duration => match t2 {
                MTypeV::Text => {},
                MTypeV::Number => {},
                MTypeV::Integer => {},
                MTypeV::Logical => {},
                MTypeV::Date => {},
                MTypeV::DateTime => {},
                MTypeV::DateTimeZone => {},
                MTypeV::Duration => {},
                MTypeV::Binary => {},
                MTypeV::Table => {},
                MTypeV::Any => {},
                MTypeV::Unknown(_) => {},
            },
            MTypeV::Binary => match t2 {
                MTypeV::Text => {},
                MTypeV::Number => {},
                MTypeV::Integer => {},
                MTypeV::Logical => {},
                MTypeV::Date => {},
                MTypeV::DateTime => {},
                MTypeV::DateTimeZone => {},
                MTypeV::Duration => {},
                MTypeV::Binary => {},
                MTypeV::Table => {},
                MTypeV::Any => {},
                MTypeV::Unknown(_) => {},
            },
            MTypeV::Table => match t2 {
                MTypeV::Text => {},
                MTypeV::Number => {},
                MTypeV::Integer => {},
                MTypeV::Logical => {},
                MTypeV::Date => {},
                MTypeV::DateTime => {},
                MTypeV::DateTimeZone => {},
                MTypeV::Duration => {},
                MTypeV::Binary => {},
                MTypeV::Table => {},
                MTypeV::Any => {},
                MTypeV::Unknown(_) => {},
            },
            MTypeV::Any => match t2 {
                MTypeV::Text => {},
                MTypeV::Number => {},
                MTypeV::Integer => {},
                MTypeV::Logical => {},
                MTypeV::Date => {},
                MTypeV::DateTime => {},
                MTypeV::DateTimeZone => {},
                MTypeV::Duration => {},
                MTypeV::Binary => {},
                MTypeV::Table => {},
                MTypeV::Any => {},
                MTypeV::Unknown(_) => {},
            },
            MTypeV::Unknown(_) => match t2 {
                MTypeV::Text => {},
                MTypeV::Number => {},
                MTypeV::Integer => {},
                MTypeV::Logical => {},
                MTypeV::Date => {},
                MTypeV::DateTime => {},
                MTypeV::DateTimeZone => {},
                MTypeV::Duration => {},
                MTypeV::Binary => {},
                MTypeV::Table => {},
                MTypeV::Any => {},
                MTypeV::Unknown(_) => {},
            },
        },
        DialectId::BigQuery => match t1 {
            MTypeV::Text => match t2 {
                MTypeV::Text => {},
                MTypeV::Number => {},
                MTypeV::Integer => {},
                MTypeV::Logical => {},
                MTypeV::Date => {},
                MTypeV::DateTime => {},
                MTypeV::DateTimeZone => {},
                MTypeV::Duration => {},
                MTypeV::Binary => {},
                MTypeV::Table => {},
                MTypeV::Any => {},
                MTypeV::Unknown(_) => {},
            },
            MTypeV::Number => match t2 {
                MTypeV::Text => {},
                MTypeV::Number => {},
                MTypeV::Integer => {},
                MTypeV::Logical => {},
                MTypeV::Date => {},
                MTypeV::DateTime => {},
                MTypeV::DateTimeZone => {},
                MTypeV::Duration => {},
                MTypeV::Binary => {},
                MTypeV::Table => {},
                MTypeV::Any => {},
                MTypeV::Unknown(_) => {},
            },
            MTypeV::Integer => match t2 {
                MTypeV::Text => {},
                MTypeV::Number => {},
                MTypeV::Integer => {},
                MTypeV::Logical => {},
                MTypeV::Date => {},
                MTypeV::DateTime => {},
                MTypeV::DateTimeZone => {},
                MTypeV::Duration => {},
                MTypeV::Binary => {},
                MTypeV::Table => {},
                MTypeV::Any => {},
                MTypeV::Unknown(_) => {},
            },
            MTypeV::Logical => match t2 {
                MTypeV::Text => {},
                MTypeV::Number => {},
                MTypeV::Integer => {},
                MTypeV::Logical => {},
                MTypeV::Date => {},
                MTypeV::DateTime => {},
                MTypeV::DateTimeZone => {},
                MTypeV::Duration => {},
                MTypeV::Binary => {},
                MTypeV::Table => {},
                MTypeV::Any => {},
                MTypeV::Unknown(_) => {},
            },
            MTypeV::Date => match t2 {
                MTypeV::Text => {},
                MTypeV::Number => {},
                MTypeV::Integer => {},
                MTypeV::Logical => {},
                MTypeV::Date => {},
                MTypeV::DateTime => {},
                MTypeV::DateTimeZone => {},
                MTypeV::Duration => {},
                MTypeV::Binary => {},
                MTypeV::Table => {},
                MTypeV::Any => {},
                MTypeV::Unknown(_) => {},
            },
            MTypeV::DateTime => match t2 {
                MTypeV::Text => {},
                MTypeV::Number => {},
                MTypeV::Integer => {},
                MTypeV::Logical => {},
                MTypeV::Date => {},
                MTypeV::DateTime => {},
                MTypeV::DateTimeZone => {},
                MTypeV::Duration => {},
                MTypeV::Binary => {},
                MTypeV::Table => {},
                MTypeV::Any => {},
                MTypeV::Unknown(_) => {},
            },
            MTypeV::DateTimeZone => match t2 {
                MTypeV::Text => {},
                MTypeV::Number => {},
                MTypeV::Integer => {},
                MTypeV::Logical => {},
                MTypeV::Date => {},
                MTypeV::DateTime => {},
                MTypeV::DateTimeZone => {},
                MTypeV::Duration => {},
                MTypeV::Binary => {},
                MTypeV::Table => {},
                MTypeV::Any => {},
                MTypeV::Unknown(_) => {},
            },
            MTypeV::Duration => match t2 {
                MTypeV::Text => {},
                MTypeV::Number => {},
                MTypeV::Integer => {},
                MTypeV::Logical => {},
                MTypeV::Date => {},
                MTypeV::DateTime => {},
                MTypeV::DateTimeZone => {},
                MTypeV::Duration => {},
                MTypeV::Binary => {},
                MTypeV::Table => {},
                MTypeV::Any => {},
                MTypeV::Unknown(_) => {},
            },
            MTypeV::Binary => match t2 {
                MTypeV::Text => {},
                MTypeV::Number => {},
                MTypeV::Integer => {},
                MTypeV::Logical => {},
                MTypeV::Date => {},
                MTypeV::DateTime => {},
                MTypeV::DateTimeZone => {},
                MTypeV::Duration => {},
                MTypeV::Binary => {},
                MTypeV::Table => {},
                MTypeV::Any => {},
                MTypeV::Unknown(_) => {},
            },
            MTypeV::Table => match t2 {
                MTypeV::Text => {},
                MTypeV::Number => {},
                MTypeV::Integer => {},
                MTypeV::Logical => {},
                MTypeV::Date => {},
                MTypeV::DateTime => {},
                MTypeV::DateTimeZone => {},
                MTypeV::Duration => {},
                MTypeV::Binary => {},
                MTypeV::Table => {},
                MTypeV::Any => {},
                MTypeV::Unknown(_) => {},
            },
            MTypeV::Any => match t2 {
                MTypeV::Text => {},
                MTypeV::Number => {},
                MTypeV::Integer => {},
                MTypeV::Logical => {},
                MTypeV::Date => {},
                MTypeV::DateTime => {},
                MTypeV::DateTimeZone => {},
                MTypeV::Duration => {},
                MTypeV::Binary => {},
                MTypeV::Table => {},
                MTypeV::Any => {},
                MTypeV::Unknown(_) => {},
            },
            MTypeV::Unknown(_) => match t2 {
                MTypeV::Text => {},
                MTypeV::Number => {},
                MTypeV::Integer => {},
                MTypeV::Logical => {},
                MTypeV::Date => {},
                MTypeV::DateTime => {},
                MTypeV::DateTimeZone => {},
                MTypeV::Duration => {},
                MTypeV::Binary => {},
                MTypeV::Table => {},
                MTypeV::Any => {},
                MTypeV::Unknown(_) => {},
            },
        },
        DialectId::Snowflake => match t1 {
            MTypeV::Text => match t2 {
                MTypeV::Text => {},
                MTypeV::Number => {},
                MTypeV::Integer => {},
                MTypeV::Logical => {},
                MTypeV::Date => {},
                MTypeV::DateTime => {},
                MTypeV::DateTimeZone => {},
                MTypeV::Duration => {},
                MTypeV::Binary => {},
                MTypeV::Table => {},
                MTypeV::Any => {},
                MTypeV::Unknown(_) => {},
            },
            MTypeV::Number => match t2 {
                MTypeV::Text => {},
                MTypeV::Number => {},
                MTypeV::Integer => {},
                MTypeV::Logical => {},
                MTypeV::Date => {},
                MTypeV::DateTime => {},
                MTypeV::DateTimeZone => {},
                MTypeV::Duration => {},
                MTypeV::Binary => {},
                MTypeV::Table => {},
                MTypeV::Any => {},
                MTypeV::Unknown(_) => {},
            },
            MTypeV::Integer => match t2 {
                MTypeV::Text => {},
                MTypeV::Number => {},
                MTypeV::Integer => {},
                MTypeV::Logical => {},
                MTypeV::Date => {},
                MTypeV::DateTime => {},
                MTypeV::DateTimeZone => {},
                MTypeV::Duration => {},
                MTypeV::Binary => {},
                MTypeV::Table => {},
                MTypeV::Any => {},
                MTypeV::Unknown(_) => {},
            },
            MTypeV::Logical => match t2 {
                MTypeV::Text => {},
                MTypeV::Number => {},
                MTypeV::Integer => {},
                MTypeV::Logical => {},
                MTypeV::Date => {},
                MTypeV::DateTime => {},
                MTypeV::DateTimeZone => {},
                MTypeV::Duration => {},
                MTypeV::Binary => {},
                MTypeV::Table => {},
                MTypeV::Any => {},
                MTypeV::Unknown(_) => {},
            },
            MTypeV::Date => match t2 {
                MTypeV::Text => {},
                MTypeV::Number => {},
                MTypeV::Integer => {},
                MTypeV::Logical => {},
                MTypeV::Date => {},
                MTypeV::DateTime => {},
                MTypeV::DateTimeZone => {},
                MTypeV::Duration => {},
                MTypeV::Binary => {},
                MTypeV::Table => {},
                MTypeV::Any => {},
                MTypeV::Unknown(_) => {},
            },
            MTypeV::DateTime => match t2 {
                MTypeV::Text => {},
                MTypeV::Number => {},
                MTypeV::Integer => {},
                MTypeV::Logical => {},
                MTypeV::Date => {},
                MTypeV::DateTime => {},
                MTypeV::DateTimeZone => {},
                MTypeV::Duration => {},
                MTypeV::Binary => {},
                MTypeV::Table => {},
                MTypeV::Any => {},
                MTypeV::Unknown(_) => {},
            },
            MTypeV::DateTimeZone => match t2 {
                MTypeV::Text => {},
                MTypeV::Number => {},
                MTypeV::Integer => {},
                MTypeV::Logical => {},
                MTypeV::Date => {},
                MTypeV::DateTime => {},
                MTypeV::DateTimeZone => {},
                MTypeV::Duration => {},
                MTypeV::Binary => {},
                MTypeV::Table => {},
                MTypeV::Any => {},
                MTypeV::Unknown(_) => {},
            },
            MTypeV::Duration => match t2 {
                MTypeV::Text => {},
                MTypeV::Number => {},
                MTypeV::Integer => {},
                MTypeV::Logical => {},
                MTypeV::Date => {},
                MTypeV::DateTime => {},
                MTypeV::DateTimeZone => {},
                MTypeV::Duration => {},
                MTypeV::Binary => {},
                MTypeV::Table => {},
                MTypeV::Any => {},
                MTypeV::Unknown(_) => {},
            },
            MTypeV::Binary => match t2 {
                MTypeV::Text => {},
                MTypeV::Number => {},
                MTypeV::Integer => {},
                MTypeV::Logical => {},
                MTypeV::Date => {},
                MTypeV::DateTime => {},
                MTypeV::DateTimeZone => {},
                MTypeV::Duration => {},
                MTypeV::Binary => {},
                MTypeV::Table => {},
                MTypeV::Any => {},
                MTypeV::Unknown(_) => {},
            },
            MTypeV::Table => match t2 {
                MTypeV::Text => {},
                MTypeV::Number => {},
                MTypeV::Integer => {},
                MTypeV::Logical => {},
                MTypeV::Date => {},
                MTypeV::DateTime => {},
                MTypeV::DateTimeZone => {},
                MTypeV::Duration => {},
                MTypeV::Binary => {},
                MTypeV::Table => {},
                MTypeV::Any => {},
                MTypeV::Unknown(_) => {},
            },
            MTypeV::Any => match t2 {
                MTypeV::Text => {},
                MTypeV::Number => {},
                MTypeV::Integer => {},
                MTypeV::Logical => {},
                MTypeV::Date => {},
                MTypeV::DateTime => {},
                MTypeV::DateTimeZone => {},
                MTypeV::Duration => {},
                MTypeV::Binary => {},
                MTypeV::Table => {},
                MTypeV::Any => {},
                MTypeV::Unknown(_) => {},
            },
            MTypeV::Unknown(_) => match t2 {
                MTypeV::Text => {},
                MTypeV::Number => {},
                MTypeV::Integer => {},
                MTypeV::Logical => {},
                MTypeV::Date => {},
                MTypeV::DateTime => {},
                MTypeV::DateTimeZone => {},
                MTypeV::Duration => {},
                MTypeV::Binary => {},
                MTypeV::Table => {},
                MTypeV::Any => {},
                MTypeV::Unknown(_) => {},
            },
        },
        DialectId::DuckDb => match t1 {
            MTypeV::Text => match t2 {
                MTypeV::Text => {},
                MTypeV::Number => {},
                MTypeV::Integer => {},
                MTypeV::Logical => {},
                MTypeV::Date => {},
                MTypeV::DateTime => {},
                MTypeV::DateTimeZone => {},
                MTypeV::Duration => {},
                MTypeV::Binary => {},
                MTypeV::Table => {},
                MTypeV::Any => {},
                MTypeV::Unknown(_) => {},
            },
            MTypeV::Number => match t2 {
                MTypeV::Text => {},
                MTypeV::Number => {},
                MTypeV::Integer => {},
                MTypeV::Logical => {},
                MTypeV::Date => {},
                MTypeV::DateTime => {},
                MTypeV::DateTimeZone => {},
                MTypeV::Duration => {},
                MTypeV::Binary => {},
                MTypeV::Table => {},
                MTypeV::Any => {},
                MTypeV::Unknown(_) => {},
            },
            MTypeV::Integer => match t2 {
                MTypeV::Text => {},
                MTypeV::Number => {},
                MTypeV::Integer => {},
                MTypeV::Logical => {},
                MTypeV::Date => {},
                MTypeV::DateTime => {},
                MTypeV::DateTimeZone => {},
                MTypeV::Duration => {},
                MTypeV::Binary => {},
                MTypeV::Table => {},
                MTypeV::Any => {},
                MTypeV::Unknown(_) => {},
            },
            MTypeV::Logical => match t2 {
                MTypeV::Text => {},
                MTypeV::Number => {},
                MTypeV::Integer => {},
                MTypeV::Logical => {},
                MTypeV::Date => {},
                MTypeV::DateTime => {},
                MTypeV::DateTimeZone => {},
                MTypeV::Duration => {},
                MTypeV::Binary => {},
                MTypeV::Table => {},
                MTypeV::Any => {},
                MTypeV::Unknown(_) => {},
            },
            MTypeV::Date => match t2 {
                MTypeV::Text => {},
                MTypeV::Number => {},
                MTypeV::Integer => {},
                MTypeV::Logical => {},
                MTypeV::Date => {},
                MTypeV::DateTime => {},
                MTypeV::DateTimeZone => {},
                MTypeV::Duration => {},
                MTypeV::Binary => {},
                MTypeV::Table => {},
                MTypeV::Any => {},
                MTypeV::Unknown(_) => {},
            },
            MTypeV::DateTime => match t2 {
                MTypeV::Text => {},
                MTypeV::Number => {},
                MTypeV::Integer => {},
                MTypeV::Logical => {},
                MTypeV::Date => {},
                MTypeV::DateTime => {},
                MTypeV::DateTimeZone => {},
                MTypeV::Duration => {},
                MTypeV::Binary => {},
                MTypeV::Table => {},
                MTypeV::Any => {},
                MTypeV::Unknown(_) => {},
            },
            MTypeV::DateTimeZone => match t2 {
                MTypeV::Text => {},
                MTypeV::Number => {},
                MTypeV::Integer => {},
                MTypeV::Logical => {},
                MTypeV::Date => {},
                MTypeV::DateTime => {},
                MTypeV::DateTimeZone => {},
                MTypeV::Duration => {},
                MTypeV::Binary => {},
                MTypeV::Table => {},
                MTypeV::Any => {},
                MTypeV::Unknown(_) => {},
            },
            MTypeV::Duration => match t2 {
                MTypeV::Text => {},
                MTypeV::Number => {},
                MTypeV::Integer => {},
                MTypeV::Logical => {},
                MTypeV::Date => {},
                MTypeV::DateTime => {},
                MTypeV::DateTimeZone => {},
                MTypeV::Duration => {},
                MTypeV::Binary => {},
                MTypeV::Table => {},
                MTypeV::Any => {},
                MTypeV::Unknown(_) => {},
            },
            MTypeV::Binary => match t2 {
                MTypeV::Text => {},
                MTypeV::Number => {},
                MTypeV::Integer => {},
                MTypeV::Logical => {},
                MTypeV::Date => {},
                MTypeV::DateTime => {},
                MTypeV::DateTimeZone => {},
                MTypeV::Duration => {},
                MTypeV::Binary => {},
                MTypeV::Table => {},
                MTypeV::Any => {},
                MTypeV::Unknown(_) => {},
            },
            MTypeV::Table => match t2 {
                MTypeV::Text => {},
                MTypeV::Number => {},
                MTypeV::Integer => {},
                MTypeV::Logical => {},
                MTypeV::Date => {},
                MTypeV::DateTime => {},
                MTypeV::DateTimeZone => {},
                MTypeV::Duration => {},
                MTypeV::Binary => {},
                MTypeV::Table => {},
                MTypeV::Any => {},
                MTypeV::Unknown(_) => {},
            },
            MTypeV::Any => match t2 {
                MTypeV::Text => {},
                MTypeV::Number => {},
                MTypeV::Integer => {},
                MTypeV::Logical => {},
                MTypeV::Date => {},
                MTypeV::DateTime => {},
                MTypeV::DateTimeZone => {},
                MTypeV::Duration => {},
                MTypeV::Binary => {},
                MTypeV::Table => {},
                MTypeV::Any => {},
                MTypeV::Unknown(_) => {},
            },
            MTypeV::Unknown(_) => match t2 {
                MTypeV::Text => {},
                MTypeV::Number => {},
                MTypeV::Integer => {},
                MTypeV::Logical => {},
                MTypeV::Date => {},
                MTypeV::DateTime => {},
                MTypeV::DateTimeZone => {},
                MTypeV::Duration => {},
                MTypeV::Binary => {},
                MTypeV::Table => {},
                MTypeV::Any => {},
                MTypeV::Unknown(_) => {},
            },
        },
    }
}

/// In every dialect a date is SQL `DATE`, the date-time types keep the time of day (their
/// SQL types contain `TIME`, as DATETIME2, TIMESTAMP and their zoned forms do, and `DATE`
/// does not), and integers get an integer type (containing `INT`).
pub proof fn law_date_and_time_types(d: DialectId)
    ensures
        spec_map_type(d, MTypeV::Date) == seq!['D', 'A', 'T', 'E'],
        has_infix(spec_map_type(d, MTypeV::DateTime), seq!['T', 'I', 'M', 'E']),
        has_infix(spec_map_type(d, MTypeV::DateTimeZone), seq!['T', 'I', 'M', 'E']),
        !has_infix(spec_map_type(d, MTypeV::Date), seq!['T', 'I', 'M', 'E']),
        has_infix(spec_map_type(d, MTypeV::Integer), seq!['I', 'N', 'T']),
{
    lemma_type_spellings();
    let time = seq!['T', 'I', 'M', 'E'];
    let int_name = seq!['I', 'N', 'T'];
    let dt = spec_map_type(d, MTypeV::DateTime);
    let dtz = spec_map_type(d, MTypeV::DateTimeZone);
    let it = spec_map_type(d, MTypeV::Integer);
    let date = spec_map_type(d, MTypeV::Date);
    let p_dt: int = match d {
        DialectId::TSql => 4,
        DialectId::BigQuery => 4,
        _ => 0,
    };
    let p_dtz: int = match d {
        DialectId::TSql => 4,
        _ => 0,
    };
    let p_int: int = match d {
        DialectId::BigQuery => 0,
        _ => 3,
    };
    assert(dt.subrange(p_dt, p_dt + 4) =~= time);
    assert(dtz.subrange(p_dtz, p_dtz + 4) =~= time);
    assert(it.subrange(p_int, p_int + 3) =~= int_name);
    assert forall|i: int| 0 <= i && i + time.len() <= date.len() implies #[trigger] date.subrange(i, i + time.len()) != time by {
        assert(i == 0);
        assert(date.subrange(0, 4)[0] == 'D');
    }
}

// ---------------------------------------------------------------------------
// Join kinds
// ---------------------------------------------------------------------------

/// The M join kind names.
pub open spec fn is_join_kind_name(n: Seq<char>) -> bool {
    n == seq!['I', 'n', 'n', 'e', 'r']
    || n == seq!['L', 'e', 'f', 't']
    || n == seq!['R', 'i', 'g', 'h', 't']
    || n == seq!['F', 'u', 'l', 'l']
    || n == seq!['L', 'e', 'f', 't', 'A', 'n', 't', 'i']
    || n == seq!['R', 'i', 'g', 'h', 't', 'A', 'n', 't', 'i']
}

/// Whether a text ends with `Anti`.
pub open spec fn ends_with_anti(n: Seq<char>) -> bool {
    n.len() >= 4 && n.skip(n.len() - 4) == seq!['A', 'n', 't', 'i']
}

/// The side word of a join kind name: the name without a trailing `Anti`.
pub open spec fn side_word(n: Seq<char>) -> Seq<char> {
    if ends_with_anti(n) {
        n.take(n.len() - 4)
    } else {
        n
    }
}

/// Each M join kind becomes the SQL join it names: the SQL keyword begins with the kind's
/// side word upper-cased (INNER, LEFT, RIGHT, FULL; LEFT and RIGHT for the anti-joins), and
/// the join is an anti-join exactly when the kind's name ends with `Anti`.
pub proof fn law_join_kinds_name_their_join(n: Seq<char>)
    requires
        is_join_kind_name(n),
    ensures
        ({
            let k = join_kind_of(MExprV::Identifier(seq!['J', 'o', 'i', 'n', 'K', 'i', 'n', 'd', '.'] + n));
            let w = side_word(n);
            &&& w.len() <= join_keyword(k).len()
            &&& forall|i: int| 0 <= i < w.len() ==> upper_of(w[i], #[trigger] join_keyword(k)[i])
            &&& (k == JoinType::LeftAnti || k == JoinType::RightAnti) == ends_with_anti(n)
        }),
{
    reveal_strlit("JoinKind.Inner");
    assert("JoinKind.Inner"@ =~= seq!['J', 'o', 'i', 'n', 'K', 'i', 'n', 'd', '.', 'I', 'n', 'n', 'e', 'r']);
    reveal_strlit("JoinKind.Left");
    assert("JoinKind.Left"@ =~= seq!['J', 'o', 'i', 'n', 'K', 'i', 'n', 'd', '.', 'L', 'e', 'f', 't']);
    reveal_strlit("JoinKind.Right");
    assert("JoinKind.Right"@ =~= seq!['J', 'o', 'i', 'n', 'K', 'i', 'n', 'd', '.', 'R', 'i', 'g', 'h', 't']);
    reveal_strlit("JoinKind.Full");
    assert("JoinKind.Full"@ =~= seq!['J', 'o', 'i', 'n', 'K', 'i', 'n', 'd', '.', 'F', 'u', 'l', 'l']);
    reveal_strlit("JoinKind.LeftAnti");
    assert("JoinKind.LeftAnti"@ =~= seq!['J', 'o', 'i', 'n', 'K', 'i', 'n', 'd', '.', 'L', 'e', 'f', 't', 'A', 'n', 't', 'i']);
    reveal_strlit("JoinKind.RightAnti");
    assert("JoinKind.RightAnti"@ =~= seq!['J', 'o', 'i', 'n', 'K', 'i', 'n', 'd', '.', 'R', 'i', 'g', 'h', 't', 'A', 'n', 't', 'i']);
    reveal_strlit("FULL OUTER JOIN");
    assert("FULL OUTER JOIN"@ =~= seq!['F', 'U', 'L', 'L', ' ', 'O', 'U', 'T', 'E', 'R', ' ', 'J', 'O', 'I', 'N']);
    reveal_strlit("INNER JOIN");
    assert("INNER JOIN"@ =~= seq!['I', 'N', 'N', 'E', 'R', ' ', 'J', 'O', 'I', 'N']);
    reveal_strlit("LEFT JOIN");
    assert("LEFT JOIN"@ =~= seq!['L', 'E', 'F', 'T', ' ', 'J', 'O', 'I', 'N']);
    reveal_strlit("RIGHT JOIN");
    assert("RIGHT JOIN"@ =~= seq!['R', 'I', 'G', 'H', 'T', ' ', 'J', 'O', 'I', 'N']);
    if n == seq!['I', 'n', 'n', 'e', 'r'] {
        assert(seq!['J', 'o', 'i', 'n', 'K', 'i', 'n', 'd', '.'] + n =~= seq!['J', 'o', 'i', 'n', 'K', 'i', 'n', 'd', '.', 'I', 'n', 'n', 'e', 'r']);
        assert(upper_of(n[0], join_keyword(join_kind_of(MExprV::Identifier(seq!['J', 'o', 'i', 'n', 'K', 'i', 'n', 'd', '.'] + n)))[0]));
        assert(upper_of(n[1], join_keyword(join_kind_of(MExprV::Identifier(seq!['J', 'o', 'i', 'n', 'K', 'i', 'n', 'd', '.'] + n)))[1]));
        assert(upper_of(n[2], join_keyword(join_kind_of(MExprV::Identifier(seq!['J', 'o', 'i', 'n', 'K', 'i', 'n', 'd', '.'] + n)))[2]));
        assert(upper_of(n[3], join_keyword(join_kind_of(MExprV::Identifier(seq!['J', 'o', 'i', 'n', 'K', 'i', 'n', 'd', '.'] + n)))[3]));
        assert(upper_of(n[4], join_keyword(join_kind_of(MExprV::Identifier(seq!['J', 'o', 'i', 'n', 'K', 'i', 'n', 'd', '.'] + n)))[4]));
        assert(n.skip(1)[0] == n[1]);
    } else if n == seq!['L', 'e', 'f', 't'] {
        assert(seq!['J', 'o', 'i', 'n', 'K', 'i', 'n', 'd', '.'] + n =~= seq!['J', 'o', 'i', 'n', 'K', 'i', 'n', 'd', '.', 'L', 'e', 'f', 't']);
        assert(upper_of(n[0], join_keyword(join_kind_of(MExprV::Identifier(seq!['J', 'o', 'i', 'n', 'K', 'i', 'n', 'd', '.'] + n)))[0]));
        assert(upper_of(n[1], join_keyword(join_kind_of(MExprV::Identifier(seq!['J', 'o', 'i', 'n', 'K', 'i', 'n', 'd', '.'] + n)))[1]));
        assert(upper_of(n[2], join_keyword(join_kind_of(MExprV::Identifier(seq!['J', 'o', 'i', 'n', 'K', 'i', 'n', 'd', '.'] + n)))[2]));
        assert(upper_of(n[3], join_keyword(join_kind_of(MExprV::Identifier(seq!['J', 'o', 'i', 'n', 'K', 'i', 'n', 'd', '.'] + n)))[3]));
        assert(n.skip(0)[0] == n[0]);
    } else if n == seq!['R', 'i', 'g', 'h', 't'] {
        assert(seq!['J', 'o', 'i', 'n', 'K', 'i', 'n', 'd', '.'] + n =~= seq!['J', 'o', 'i', 'n', 'K', 'i', 'n', 'd', '.', 'R', 'i', 'g', 'h', 't']);
        assert(upper_of(n[0], join_keyword(join_kind_of(MExprV::Identifier(seq!['J', 'o', 'i', 'n', 'K', 'i', 'n', 'd', '.'] + n)))[0]));
        assert(upper_of(n[1], join_keyword(join_kind_of(MExprV::Identifier(seq!['J', 'o', 'i', 'n', 'K', 'i', 'n', 'd', '.'] + n)))[1]));
        assert(upper_of(n[2], join_keyword(join_kind_of(MExprV::Identifier(seq!['J', 'o', 'i', 'n', 'K', 'i', 'n', 'd', '.'] + n)))[2]));
        assert(upper_of(n[3], join_keyword(join_kind_of(MExprV::Identifier(seq!['J', 'o', 'i', 'n', 'K', 'i', 'n', 'd', '.'] + n)))[3]));
        assert(upper_of(n[4], join_keyword(join_kind_of(MExprV::Identifier(seq!['J', 'o', 'i', 'n', 'K', 'i', 'n', 'd', '.'] + n)))[4]));
        assert(n.skip(1)[0] == n[1]);
    } else if n == seq!['F', 'u', 'l', 'l'] {
        assert(seq!['J', 'o', 'i', 'n', 'K', 'i', 'n', 'd', '.'] + n =~= seq!['J', 'o', 'i', 'n', 'K', 'i', 'n', 'd', '.', 'F', 'u', 'l', 'l']);
        assert(upper_of(n[0], join_keyword(join_kind_of(MExprV::Identifier(seq!['J', 'o', 'i', 'n', 'K', 'i', 'n', 'd', '.'] + n)))[0]));
        assert(upper_of(n[1], join_keyword(join_kind_of(MExprV::Identifier(seq!['J', 'o', 'i', 'n', 'K', 'i', 'n', 'd', '.'] + n)))[1]));
        assert(upper_of(n[2], join_keyword(join_kind_of(MExprV::Identifier(seq!['J', 'o', 'i', 'n', 'K', 'i', 'n', 'd', '.'] + n)))[2]));
        assert(upper_of(n[3], join_keyword(join_kind_of(MExprV::Identifier(seq!['J', 'o', 'i', 'n', 'K', 'i', 'n', 'd', '.'] + n)))[3]));
        assert(n.skip(0)[0] == n[0]);
    } else if n == seq!['L', 'e', 'f', 't', 'A', 'n', 't', 'i'] {
        assert(seq!['J', 'o', 'i', 'n', 'K', 'i', 'n', 'd', '.'] + n =~= seq!['J', 'o', 'i', 'n', 'K', 'i', 'n', 'd', '.', 'L', 'e', 'f', 't', 'A', 'n', 't', 'i']);
        assert(upper_of(n[0], join_keyword(join_kind_of(MExprV::Identifier(seq!['J', 'o', 'i', 'n', 'K', 'i', 'n', 'd', '.'] + n)))[0]));
        assert(upper_of(n[1], join_keyword(join_kind_of(MExprV::Identifier(seq!['J', 'o', 'i', 'n', 'K', 'i', 'n', 'd', '.'] + n)))[1]));
        assert(upper_of(n[2], join_keyword(join_kind_of(MExprV::Identifier(seq!['J', 'o', 'i', 'n', 'K', 'i', 'n', 'd', '.'] + n)))[2]));
        assert(upper_of(n[3], join_keyword(join_kind_of(MExprV::Identifier(seq!['J', 'o', 'i', 'n', 'K', 'i', 'n', 'd', '.'] + n)))[3]));
        assert(n.skip(4) =~= seq!['A', 'n', 't', 'i']);
    } else if n == seq!['R', 'i', 'g', 'h', 't', 'A', 'n', 't', 'i'] {
        assert(seq!['J', 'o', 'i', 'n', 'K', 'i', 'n', 'd', '.'] + n =~= seq!['J', 'o', 'i', 'n', 'K', 'i', 'n', 'd', '.', 'R', 'i', 'g', 'h', 't', 'A', 'n', 't', 'i']);
        assert(upper_of(n[0], join_keyword(join_kind_of(MExprV::Identifier(seq!['J', 'o', 'i', 'n', 'K', 'i', 'n', 'd', '.'] + n)))[0]));
        assert(upper_of(n[1], join_keyword(join_kind_of(MExprV::Identifier(seq!['J', 'o', 'i', 'n', 'K', 'i', 'n', 'd', '.'] + n)))[1]));
        assert(upper_of(n[2], join_keyword(join_kind_of(MExprV::Identifier(seq!['J', 'o', 'i', 'n', 'K', 'i', 'n', 'd', '.'] + n)))[2]));
        assert(upper_of(n[3], join_keyword(join_kind_of(MExprV::Identifier(seq!['J', 'o', 'i', 'n', 'K', 'i', 'n', 'd', '.'] + n)))[3]));
        assert(upper_of(n[4], join_keyword(join_kind_of(MExprV::Identifier(seq!['J', 'o', 'i', 'n', 'K', 'i', 'n', 'd', '.'] + n)))[4]));
        assert(n.skip(5) =~= seq!['A', 'n', 't', 'i']);
    }
    let k = join_kind_of(MExprV::Identifier(seq!['J', 'o', 'i', 'n', 'K', 'i', 'n', 'd', '.'] + n));
    let w = side_word(n);
    assert forall|i: int| 0 <= i < w.len() implies upper_of(w[i], #[trigger] join_keyword(k)[i]) by {
        if ends_with_anti(n) {
            assert(w[i] == n[i]);
        }
    }
}

} // verus!
