//! Pretty-prints the SQL AST to text.
use vstd::prelude::*;
use crate::dialect::{Dialect, DialectId, spec_boolean_literal, spec_cast, spec_ilike, spec_try_cast};
use crate::sql::{
    Cte, CteV, JoinClause, JoinClauseV, JoinType, OrderByItem, OrderByItemV, SelectCol, SelectColV,
    SelectStmt, SelectStmtV, SqlBinOp, SqlExpr, SqlExprV, SqlLiteral, SqlLiteralV, SqlQuery, SqlQueryV,
    SqlUnOp, TableRef, TableRefV, sql_expr_view, sql_exprs_view,
};
use crate::text::{
    chars_of, i64_to_string, index_of_char, int_decimal, join_seqs, join_strings, lemma_index_of_char_at,
    lemma_join_push, lines_of, nat_decimal, push_char, push_replaced, replace_char, split_lines,
    string_of_range, strings_view, u64_to_string,
};

verus! {

/// Operator text of a binary operator.
pub open spec fn binop_text(op: SqlBinOp) -> Seq<char> {
    match op {
        SqlBinOp::Eq => "="@,
        SqlBinOp::Neq => "<>"@,
        SqlBinOp::Lt => "<"@,
        SqlBinOp::Lte => "<="@,
        SqlBinOp::Gt => ">"@,
        SqlBinOp::Gte => ">="@,
        SqlBinOp::And => "AND"@,
        SqlBinOp::Or => "OR"@,
        SqlBinOp::Add => "+"@,
        SqlBinOp::Sub => "-"@,
        SqlBinOp::Mul => "*"@,
        SqlBinOp::Div => "/"@,
        SqlBinOp::Concat => "||"@,
    }
}

/// `s` without leading zeros (one digit is always kept).
pub open spec fn strip_leading_zeros(s: Seq<char>) -> Seq<char>
    decreases s.len(),
{
    if s.len() > 1 && s[0] == '0' {
        strip_leading_zeros(s.drop_first())
    } else {
        s
    }
}

/// `s` without trailing zeros.
pub open spec fn strip_trailing_zeros(s: Seq<char>) -> Seq<char>
    decreases s.len(),
{
    if s.len() > 0 && s.last() == '0' {
        strip_trailing_zeros(s.drop_last())
    } else {
        s
    }
}

/// Integer part of a decimal text, without leading zeros (`0` when empty).
pub open spec fn decimal_int_part(s: Seq<char>) -> Seq<char> {
    let k = index_of_char(s, '.');
    let p = strip_leading_zeros(s.take(k));
    if p.len() == 0 { seq!['0'] } else { p }
}

/// Fractional part of a decimal text, without trailing zeros.
pub open spec fn decimal_frac_part(s: Seq<char>) -> Seq<char> {
    let k = index_of_char(s, '.');
    if k < s.len() {
        strip_trailing_zeros(s.skip(k + 1))
    } else {
        Seq::empty()
    }
}

/// Shortest display of a decimal number: no trailing fractional zeros, no `.` for whole numbers.
pub open spec fn decimal_display(s: Seq<char>) -> Seq<char> {
    let f = decimal_frac_part(s);
    if f.len() == 0 {
        decimal_int_part(s)
    } else {
        decimal_int_part(s) + seq!['.'] + f
    }
}

/// SQL text of a decimal literal: its display, with `.0` added to whole numbers.
pub open spec fn float_sql_text(s: Seq<char>) -> Seq<char> {
    let f = decimal_frac_part(s);
    decimal_int_part(s) + seq!['.'] + (if f.len() == 0 { seq!['0'] } else { f })
}

/// SQL text of a literal.
pub open spec fn literal_text(l: SqlLiteralV, d: DialectId) -> Seq<char> {
    match l {
        SqlLiteralV::String(s) => seq!['\''] + replace_char(s, '\'', "''"@) + seq!['\''],
        SqlLiteralV::Integer(n) => int_decimal(n as int),
        SqlLiteralV::Float(s) => float_sql_text(s),
        SqlLiteralV::Boolean(b) => spec_boolean_literal(d, b),
        SqlLiteralV::Null => "NULL"@,
    }
}

/// Keyword of a LIKE expression.
pub open spec fn like_keyword(d: DialectId, negated: bool, case_insensitive: bool) -> Seq<char> {
    if case_insensitive && spec_ilike(d) {
        if negated { "NOT ILIKE"@ } else { "ILIKE"@ }
    } else if negated {
        "NOT LIKE"@
    } else {
        "LIKE"@
    }
}

/// SQL binding strength of a binary operator: `OR` 1, `AND` 2, comparisons 4, `||` 5,
/// `+` and `-` 6, `*` and `/` 7.
pub open spec fn binop_prec(op: SqlBinOp) -> nat {
    match op {
        SqlBinOp::Or => 1,
        SqlBinOp::And => 2,
        SqlBinOp::Eq | SqlBinOp::Neq | SqlBinOp::Lt | SqlBinOp::Lte | SqlBinOp::Gt | SqlBinOp::Gte => 4,
        SqlBinOp::Concat => 5,
        SqlBinOp::Add | SqlBinOp::Sub => 6,
        SqlBinOp::Mul | SqlBinOp::Div => 7,
    }
}

/// SQL binding strength of a unary operator: `NOT` 3 (below comparisons), `-` 8.
pub open spec fn unop_prec(op: SqlUnOp) -> nat {
    match op {
        SqlUnOp::Not => 3,
        SqlUnOp::Neg => 8,
    }
}

/// SQL binding strength of an expression as an operand: its operator's for operator
/// expressions, 4 for `LIKE`, `IN` and `IS NULL`, and 10 for expressions that are
/// self-delimiting (columns, literals, calls, casts, parenthesised text).
pub open spec fn sql_prec(e: SqlExprV) -> nat {
    match e {
        SqlExprV::BinaryOp { op, .. } => binop_prec(op),
        SqlExprV::UnaryOp { op, .. } => unop_prec(op),
        SqlExprV::Like { .. } | SqlExprV::InList { .. } | SqlExprV::IsNull { .. } => 4,
        _ => 10,
    }
}

/// Whether an operand must be parenthesised under an operator of strength `parent` so that
/// SQL groups it as the tree does: it binds less tightly, or as tightly and stands on the
/// right (SQL groups left to right), or beside a comparison (comparisons do not chain).
pub open spec fn needs_parens(e: SqlExprV, parent: nat, right: bool) -> bool {
    sql_prec(e) < parent || (sql_prec(e) == parent && (right || parent == 4))
}

/// SQL text of an expression. Each operand is parenthesised wherever SQL precedence would
/// otherwise group it differently, so the text groups operands as the tree does.
pub open spec fn expr_text(e: SqlExprV, d: DialectId) -> Seq<char>
    decreases e,
{
    match e {
        SqlExprV::Column { table, name } => match table {
            Some(t) => t + "."@ + name,
            None => name,
        },
        SqlExprV::Literal(l) => literal_text(l, d),
        SqlExprV::BinaryOp { op, left, right } => (if needs_parens(*left, binop_prec(op), false) {
            "("@ + expr_text(*left, d) + ")"@
        } else {
            expr_text(*left, d)
        }) + " "@ + binop_text(op) + " "@ + (if needs_parens(*right, binop_prec(op), true) {
            "("@ + expr_text(*right, d) + ")"@
        } else {
            expr_text(*right, d)
        }),
        SqlExprV::UnaryOp { op, expr } => (match op {
            SqlUnOp::Not => "NOT "@,
            SqlUnOp::Neg => "-"@,
        }) + (if needs_parens(*expr, unop_prec(op), true) {
            "("@ + expr_text(*expr, d) + ")"@
        } else {
            expr_text(*expr, d)
        }),
        SqlExprV::FunctionCall { name, args, distinct } => name + "("@ + (if distinct {
            "DISTINCT "@
        } else {
            Seq::empty()
        }) + join_seqs(exprs_texts(args, d), ", "@) + ")"@,
        SqlExprV::Cast { expr, ty } => spec_cast(d, expr_text(*expr, d), ty),
        SqlExprV::Like { expr, pattern, negated, case_insensitive } => expr_text(*expr, d) + " "@
            + like_keyword(d, negated, case_insensitive) + " '"@ + pattern + "'"@,
        SqlExprV::InList { expr, list, negated } => expr_text(*expr, d) + (if negated {
            " NOT IN ("@
        } else {
            " IN ("@
        }) + join_seqs(exprs_texts(list, d), ", "@) + ")"@,
        SqlExprV::IsNull { expr, negated } => expr_text(*expr, d) + (if negated {
            " IS NOT NULL"@
        } else {
            " IS NULL"@
        }),
        SqlExprV::TryCast { expr, ty } => match spec_try_cast(d, expr_text(*expr, d), ty) {
            Some(t) => t,
            None => spec_cast(d, expr_text(*expr, d), ty),
        },
        SqlExprV::CaseWhen { condition, then_expr, else_expr } => "CASE WHEN "@ + expr_text(*condition, d)
            + " THEN "@ + expr_text(*then_expr, d) + " ELSE "@ + expr_text(*else_expr, d) + " END"@,
        SqlExprV::Coalesce { args } => "COALESCE("@ + join_seqs(exprs_texts(args, d), ", "@) + ")"@,
        SqlExprV::Raw(s) => s,
        SqlExprV::Parens(inner) => "("@ + expr_text(*inner, d) + ")"@,
    }
}

/// Texts of a list of expressions.
pub open spec fn exprs_texts(s: Seq<SqlExprV>, d: DialectId) -> Seq<Seq<char>>
    decreases s,
{
    Seq::new(s.len(), |i: int| if 0 <= i < s.len() { expr_text(s[i], d) } else { Seq::empty() })
}

/// SQL text of a table reference.
pub open spec fn table_ref_text(t: TableRefV) -> Seq<char> {
    (match t.schema {
        Some(s) => s + "."@,
        None => Seq::empty(),
    }) + t.name + (match t.alias {
        Some(a) => " AS "@ + a,
        None => Seq::empty(),
    })
}

/// SQL text of a select-list column.
pub open spec fn select_col_text(c: SelectColV, d: DialectId) -> Seq<char> {
    match c {
        SelectColV::Wildcard => "*"@,
        SelectColV::QualifiedWildcard(t) => t + ".*"@,
        SelectColV::Expr { expr, alias } => match alias {
            Some(a) => expr_text(expr, d) + " AS "@ + a,
            None => expr_text(expr, d),
        },
        SelectColV::Except { columns } => "* EXCEPT ("@ + join_seqs(columns, ", "@) + ")"@,
    }
}

/// Select-list columns written one per line, commas after all but the last.
pub open spec fn multiline_cols(parts: Seq<Seq<char>>, total: int) -> Seq<char>
    decreases parts.len(),
{
    if parts.len() == 0 {
        Seq::empty()
    } else {
        multiline_cols(parts.drop_last(), total) + "    "@ + parts.last() + (if parts.len() < total {
            ","@
        } else {
            Seq::empty()
        }) + "\n"@
    }
}

/// SQL text of a select list.
pub open spec fn columns_text(cols: Seq<SelectColV>, d: DialectId) -> Seq<char> {
    let parts = Seq::new(cols.len(), |i: int| select_col_text(cols[i], d));
    if cols.len() == 0 {
        "*"@
    } else if cols.len() <= 3 {
        join_seqs(parts, ", "@)
    } else {
        "\n"@ + multiline_cols(parts, parts.len() as int)
    }
}

/// Keyword of a join type.
pub open spec fn join_keyword(j: JoinType) -> Seq<char> {
    match j {
        JoinType::Inner => "INNER JOIN"@,
        JoinType::Left | JoinType::LeftAnti => "LEFT JOIN"@,
        JoinType::Right | JoinType::RightAnti => "RIGHT JOIN"@,
        JoinType::FullOuter => "FULL OUTER JOIN"@,
    }
}

/// SQL text of one join clause (with its leading line break).
pub open spec fn join_text(j: JoinClauseV, d: DialectId) -> Seq<char> {
    "\n"@ + join_keyword(j.join_type) + " "@ + table_ref_text(j.table) + " ON "@ + expr_text(j.on, d)
}

/// SQL text of one ORDER BY item.
pub open spec fn order_item_text(o: OrderByItemV, d: DialectId) -> Seq<char> {
    expr_text(o.expr, d) + (if o.asc { " ASC"@ } else { " DESC"@ })
}

/// SQL text of the FROM clause.
pub open spec fn from_text(s: SelectStmtV) -> Seq<char> {
    match s.from {
        Some(t) => "\nFROM "@ + table_ref_text(t),
        None => Seq::empty(),
    }
}

/// Texts of the join clauses.
pub open spec fn join_parts(s: SelectStmtV, d: DialectId) -> Seq<Seq<char>> {
    Seq::new(s.joins.len(), |i: int| join_text(s.joins[i], d))
}

/// SQL text of the join clauses.
pub open spec fn joins_text(s: SelectStmtV, d: DialectId) -> Seq<char> {
    join_seqs(join_parts(s, d), Seq::empty())
}

/// SQL text of the WHERE clause.
pub open spec fn where_text(s: SelectStmtV, d: DialectId) -> Seq<char> {
    match s.where_clause {
        Some(w) => "\nWHERE "@ + expr_text(w, d),
        None => Seq::empty(),
    }
}

/// SQL text of the GROUP BY clause.
pub open spec fn group_text(s: SelectStmtV, d: DialectId) -> Seq<char> {
    if s.group_by.len() > 0 {
        "\nGROUP BY "@ + join_seqs(exprs_texts(s.group_by, d), ", "@)
    } else {
        Seq::empty()
    }
}

/// SQL text of the HAVING clause.
pub open spec fn having_text(s: SelectStmtV, d: DialectId) -> Seq<char> {
    match s.having {
        Some(h) => "\nHAVING "@ + expr_text(h, d),
        None => Seq::empty(),
    }
}

/// Texts of the ORDER BY items.
pub open spec fn order_parts(s: SelectStmtV, d: DialectId) -> Seq<Seq<char>> {
    Seq::new(s.order_by.len(), |i: int| order_item_text(s.order_by[i], d))
}

/// SQL text of the ORDER BY clause.
pub open spec fn order_text(s: SelectStmtV, d: DialectId) -> Seq<char> {
    if s.order_by.len() > 0 {
        "\nORDER BY "@ + join_seqs(order_parts(s, d), ", "@)
    } else {
        Seq::empty()
    }
}

/// SQL text of the LIMIT clause.
pub open spec fn limit_text(s: SelectStmtV) -> Seq<char> {
    match s.limit {
        Some(n) => "\nLIMIT "@ + nat_decimal(n as nat),
        None => Seq::empty(),
    }
}

/// SQL text of the clauses after the select list, before the UNION ALL members.
pub open spec fn clauses_text(s: SelectStmtV, d: DialectId) -> Seq<char> {
    from_text(s) + joins_text(s, d) + where_text(s, d) + group_text(s, d) + having_text(s, d)
        + order_text(s, d) + limit_text(s)
}

/// Texts of the UNION ALL members, each with its leading separator.
pub open spec fn union_parts(us: Seq<SelectStmtV>, d: DialectId) -> Seq<Seq<char>>
    decreases us,
{
    Seq::new(us.len(), |i: int| if 0 <= i < us.len() {
        "\nUNION ALL\n"@ + select_text(us[i], d)
    } else {
        Seq::empty()
    })
}

/// SQL text of a SELECT statement.
pub open spec fn select_text(s: SelectStmtV, d: DialectId) -> Seq<char>
    decreases s,
{
    "SELECT "@ + columns_text(s.columns, d) + clauses_text(s, d) + join_seqs(union_parts(s.union_all, d), Seq::empty())
}

/// Texts of the lines of a block, indented.
pub open spec fn indented_lines(ls: Seq<Seq<char>>) -> Seq<Seq<char>> {
    Seq::new(ls.len(), |i: int| "    "@ + ls[i] + "\n"@)
}

/// Every line of a text indented by four spaces and ended by a line break.
pub open spec fn indent_block(s: Seq<char>) -> Seq<char> {
    join_seqs(indented_lines(lines_of(s)), Seq::empty())
}

/// SQL text of one CTE definition.
pub open spec fn cte_text(c: CteV, d: DialectId) -> Seq<char> {
    c.name + " AS (\n"@ + indent_block(select_text(c.select, d)) + ")"@
}

/// Texts of the CTE definitions of a query.
pub open spec fn cte_parts(q: SqlQueryV, d: DialectId) -> Seq<Seq<char>> {
    Seq::new(q.ctes.len(), |i: int| cte_text(q.ctes[i], d))
}

/// SQL text of a whole query.
pub open spec fn query_text(q: SqlQueryV, d: DialectId) -> Seq<char> {
    (if q.ctes.len() > 0 {
        "WITH "@ + join_seqs(cte_parts(q, d), ",\n"@) + "\n"@
    } else {
        Seq::empty()
    }) + select_text(q.final_select, d) + ";"@
}


/// The parts of a decimal text: the integer part without leading zeros (`0` when
/// empty) and the fractional part without trailing zeros.
pub fn decimal_parts(s: &String) -> (r: (String, String))
    ensures
        r.0@ == decimal_int_part(s@),
        r.1@ == decimal_frac_part(s@),
{
    let v = chars_of(s.as_str());
    let n = v.len();
    let mut k: usize = 0;
    while k < n && v[k] != '.'
        invariant
            k <= n == v.len(),
            forall|j: int| 0 <= j < k ==> v@[j] != '.',
        decreases n - k,
    {
        k += 1;
    }
    proof {
        lemma_index_of_char_at(v@, '.', k as int);
    }
    let mut i0: usize = 0;
    assert(v@.take(k as int) =~= v@.subrange(0, k as int));
    while k > 0 && i0 < k - 1 && v[i0] == '0'
        invariant
            i0 <= k <= n == v.len(),
            k == index_of_char(v@, '.'),
            strip_leading_zeros(v@.take(k as int)) == strip_leading_zeros(v@.subrange(i0 as int, k as int)),
        decreases k - i0,
    {
        assert(v@.subrange(i0 as int, k as int).drop_first() =~= v@.subrange(i0 + 1, k as int));
        i0 += 1;
    }
    let int_part = if i0 == k {
        let mut z = String::new();
        push_char(&mut z, '0');
        assert(v@.subrange(i0 as int, k as int).len() == 0);
        z
    } else {
        string_of_range(&v, i0, k)
    };
    let frac = if k < n {
        let mut j: usize = n;
        assert(v@.skip(k + 1) =~= v@.subrange(k + 1, n as int));
        while j > k + 1 && v[j - 1] == '0'
            invariant
                k + 1 <= j <= n == v.len(),
                strip_trailing_zeros(v@.skip(k + 1)) == strip_trailing_zeros(v@.subrange(k + 1, j as int)),
            decreases j,
        {
            assert(v@.subrange(k + 1, j as int).drop_last() =~= v@.subrange(k + 1, j - 1));
            j -= 1;
        }
        string_of_range(&v, k + 1, j)
    } else {
        String::new()
    };
    (int_part, frac)
}

/// SQL text of a decimal literal.
pub fn float_literal_sql(s: &String) -> (r: String)
    ensures
        r@ == float_sql_text(s@),
{
    let (i, f) = decimal_parts(s);
    let mut out = i;
    push_char(&mut out, '.');
    if f.as_str().is_empty() {
        push_char(&mut out, '0');
    } else {
        out.append(f.as_str());
    }
    assert(out@ =~= float_sql_text(s@));
    out
}

/// Write a SQL literal.
pub fn write_literal<D: Dialect>(lit: &SqlLiteral, dialect: &D) -> (r: String)
    ensures
        r@ == literal_text(lit@, dialect.id()),
{
    match lit {
        SqlLiteral::String(s) => {
            let mut out = String::new();
            push_char(&mut out, '\'');
            push_replaced(&mut out, s.as_str(), '\'', "''");
            push_char(&mut out, '\'');
            assert(out@ =~= literal_text(lit@, dialect.id()));
            out
        },
        SqlLiteral::Integer(n) => i64_to_string(*n),
        SqlLiteral::Float(s) => float_literal_sql(s),
        SqlLiteral::Boolean(b) => dialect.boolean_literal(*b).to_owned(),
        SqlLiteral::Null => "NULL".to_owned(),
    }
}

/// Binding strength of a binary operator.
fn binop_prec_of(op: &SqlBinOp) -> (p: u8)
    ensures
        p == binop_prec(*op),
{
    match op {
        SqlBinOp::Or => 1,
        SqlBinOp::And => 2,
        SqlBinOp::Eq | SqlBinOp::Neq | SqlBinOp::Lt | SqlBinOp::Lte | SqlBinOp::Gt | SqlBinOp::Gte => 4,
        SqlBinOp::Concat => 5,
        SqlBinOp::Add | SqlBinOp::Sub => 6,
        SqlBinOp::Mul | SqlBinOp::Div => 7,
    }
}

/// Whether an operand must be parenthesised under an operator of strength `parent`.
fn needs_parens_of(e: &SqlExpr, parent: u8, right: bool) -> (b: bool)
    ensures
        b == needs_parens(e@, parent as nat, right),
{
    let p: u8 = match e {
        SqlExpr::BinaryOp { op, .. } => binop_prec_of(op),
        SqlExpr::UnaryOp { op: SqlUnOp::Not, .. } => 3,
        SqlExpr::UnaryOp { op: SqlUnOp::Neg, .. } => 8,
        SqlExpr::Like { .. } | SqlExpr::InList { .. } | SqlExpr::IsNull { .. } => 4,
        _ => 10,
    };
    p < parent || (p == parent && (right || parent == 4))
}

/// Write a comma-separated list of SQL expressions.
pub fn write_expr_list<D: Dialect>(list: &Vec<SqlExpr>, dialect: &D) -> (r: String)
    ensures
        r@ == join_seqs(exprs_texts(sql_exprs_view(list@), dialect.id()), ", "@),
    decreases list,
{
    let ghost parts = exprs_texts(sql_exprs_view(list@), dialect.id());
    let mut out = String::new();
    let mut i: usize = 0;
    while i < list.len()
        invariant
            i <= list.len(),
            parts == exprs_texts(sql_exprs_view(list@), dialect.id()),
            out@ == join_seqs(parts.take(i as int), ", "@),
        decreases list.len() - i,
    {
        proof {
            lemma_join_push(parts, ", "@, i as int);
        }
        if i > 0 {
            out.append(", ");
        }
        assert(decreases_to!(list => list@[i as int]));
        let t = write_expr(&list[i], dialect);
        out.append(t.as_str());
        i += 1;
    }
    assert(parts.take(list.len() as int) =~= parts);
    out
}

/// Write a SQL expression.
pub fn write_expr<D: Dialect>(expr: &SqlExpr, dialect: &D) -> (r: String)
    ensures
        r@ == expr_text(expr@, dialect.id()),
    decreases expr,
{
    let ghost d = dialect.id();
    match expr {
        SqlExpr::Column { table, name } => {
            let mut out = String::new();
            match table {
                Some(t) => {
                    out.append(t.as_str());
                    out.append(".");
                },
                None => {},
            }
            out.append(name.as_str());
            assert(out@ =~= expr_text(expr@, d));
            out
        },
        SqlExpr::Literal(lit) => write_literal(lit, dialect),
        SqlExpr::BinaryOp { op, left, right } => {
            let op_str = match op {
                SqlBinOp::Eq => "=",
                SqlBinOp::Neq => "<>",
                SqlBinOp::Lt => "<",
                SqlBinOp::Lte => "<=",
                SqlBinOp::Gt => ">",
                SqlBinOp::Gte => ">=",
                SqlBinOp::And => "AND",
                SqlBinOp::Or => "OR",
                SqlBinOp::Add => "+",
                SqlBinOp::Sub => "-",
                SqlBinOp::Mul => "*",
                SqlBinOp::Div => "/",
                SqlBinOp::Concat => "||",
            };
            let p = binop_prec_of(op);
            let mut out = String::new();
            let l = write_expr(left, dialect);
            if needs_parens_of(left, p, false) {
                out.append("(");
                out.append(l.as_str());
                out.append(")");
            } else {
                out.append(l.as_str());
            }
            out.append(" ");
            out.append(op_str);
            out.append(" ");
            let r = write_expr(right, dialect);
            if needs_parens_of(right, p, true) {
                out.append("(");
                out.append(r.as_str());
                out.append(")");
            } else {
                out.append(r.as_str());
            }
            assert(out@ =~= expr_text(expr@, d));
            out
        },
        SqlExpr::UnaryOp { op, expr: inner } => {
            let mut out = String::new();
            let p: u8 = match op {
                SqlUnOp::Not => {
                    out.append("NOT ");
                    3
                },
                SqlUnOp::Neg => {
                    out.append("-");
                    8
                },
            };
            let r = write_expr(inner, dialect);
            if needs_parens_of(inner, p, true) {
                out.append("(");
                out.append(r.as_str());
                out.append(")");
            } else {
                out.append(r.as_str());
            }
            assert(out@ =~= expr_text(expr@, d));
            out
        },
        SqlExpr::FunctionCall { name, args, distinct } => {
            let mut out = String::new();
            out.append(name.as_str());
            out.append("(");
            if *distinct {
                out.append("DISTINCT ");
            }
            let a = write_expr_list(args, dialect);
            out.append(a.as_str());
            out.append(")");
            proof {
                if let SqlExprV::FunctionCall { args: av, .. } = expr@ {
                    assert(sql_exprs_view(args@) =~= av);
                }
            }
            assert(out@ =~= expr_text(expr@, d));
            out
        },
        SqlExpr::Cast { expr: inner, ty } => {
            let e = write_expr(inner, dialect);
            dialect.cast_syntax(e.as_str(), ty.as_str())
        },
        SqlExpr::Like { expr: inner, pattern, negated, case_insensitive } => {
            let like_kw = if *case_insensitive && dialect.ilike_supported() {
                if *negated { "NOT ILIKE" } else { "ILIKE" }
            } else if *negated {
                "NOT LIKE"
            } else {
                "LIKE"
            };
            let mut out = write_expr(inner, dialect);
            out.append(" ");
            out.append(like_kw);
            out.append(" '");
            out.append(pattern.as_str());
            out.append("'");
            assert(out@ =~= expr_text(expr@, d));
            out
        },
        SqlExpr::InList { expr: inner, list, negated } => {
            let mut out = write_expr(inner, dialect);
            if *negated {
                out.append(" NOT IN (");
            } else {
                out.append(" IN (");
            }
            let a = write_expr_list(list, dialect);
            out.append(a.as_str());
            out.append(")");
            proof {
                if let SqlExprV::InList { list: lv, .. } = expr@ {
                    assert(sql_exprs_view(list@) =~= lv);
                }
            }
            assert(out@ =~= expr_text(expr@, d));
            out
        },
        SqlExpr::IsNull { expr: inner, negated } => {
            let mut out = write_expr(inner, dialect);
            if *negated {
                out.append(" IS NOT NULL");
            } else {
                out.append(" IS NULL");
            }
            assert(out@ =~= expr_text(expr@, d));
            out
        },
        SqlExpr::TryCast { expr: inner, ty } => {
            let e = write_expr(inner, dialect);
            match dialect.try_cast_syntax(e.as_str(), ty.as_str()) {
                Some(t) => t,
                None => dialect.cast_syntax(e.as_str(), ty.as_str()),
            }
        },
        SqlExpr::CaseWhen { condition, then_expr, else_expr } => {
            let mut out = String::new();
            out.append("CASE WHEN ");
            let c = write_expr(condition, dialect);
            out.append(c.as_str());
            out.append(" THEN ");
            let t = write_expr(then_expr, dialect);
            out.append(t.as_str());
            out.append(" ELSE ");
            let e = write_expr(else_expr, dialect);
            out.append(e.as_str());
            out.append(" END");
            assert(out@ =~= expr_text(expr@, d));
            out
        },
        SqlExpr::Coalesce { args } => {
            let mut out = String::new();
            out.append("COALESCE(");
            let a = write_expr_list(args, dialect);
            out.append(a.as_str());
            out.append(")");
            proof {
                if let SqlExprV::Coalesce { args: av } = expr@ {
                    assert(sql_exprs_view(args@) =~= av);
                }
            }
            assert(out@ =~= expr_text(expr@, d));
            out
        },
        SqlExpr::Raw(s) => s.clone(),
        SqlExpr::Parens(inner) => {
            let mut out = String::new();
            out.append("(");
            let e = write_expr(inner, dialect);
            out.append(e.as_str());
            out.append(")");
            assert(out@ =~= expr_text(expr@, d));
            out
        },
    }
}


/// Write a table reference.
pub fn write_table_ref(table_ref: &TableRef) -> (r: String)
    ensures
        r@ == table_ref_text(table_ref@),
{
    let mut s = String::new();
    if let Some(schema) = &table_ref.schema {
        s.append(schema.as_str());
        s.append(".");
    }
    s.append(table_ref.name.as_str());
    if let Some(alias) = &table_ref.alias {
        s.append(" AS ");
        s.append(alias.as_str());
    }
    assert(s@ =~= table_ref_text(table_ref@));
    s
}

/// Write a column in a SELECT clause.
pub fn write_select_col<D: Dialect>(col: &SelectCol, dialect: &D) -> (r: String)
    ensures
        r@ == select_col_text(col@, dialect.id()),
{
    match col {
        SelectCol::Wildcard => "*".to_owned(),
        SelectCol::QualifiedWildcard(table) => {
            let mut s = String::new();
            s.append(table.as_str());
            s.append(".*");
            s
        },
        SelectCol::Expr { expr, alias } => {
            let mut s = write_expr(expr, dialect);
            if let Some(a) = alias {
                s.append(" AS ");
                s.append(a.as_str());
            }
            s
        },
        SelectCol::Except { columns } => {
            let mut s = String::new();
            s.append("* EXCEPT (");
            let j = join_strings(columns, ", ");
            s.append(j.as_str());
            s.append(")");
            s
        },
    }
}

/// Models of select-list columns.
pub open spec fn cols_view(cols: Seq<SelectCol>) -> Seq<SelectColV> {
    Seq::new(cols.len(), |i: int| cols[i]@)
}

/// Write a select list.
pub fn write_columns<D: Dialect>(cols: &Vec<SelectCol>, dialect: &D) -> (r: String)
    ensures
        r@ == columns_text(cols_view(cols@), dialect.id()),
{
    let ghost d = dialect.id();
    let ghost cv = cols_view(cols@);
    let ghost target = Seq::new(cv.len(), |i: int| select_col_text(cv[i], d));
    let mut parts: Vec<String> = Vec::new();
    let mut i: usize = 0;
    while i < cols.len()
        invariant
            i <= cols.len(),
            cv == cols_view(cols@),
            target == Seq::new(cv.len(), |i: int| select_col_text(cv[i], d)),
            d == dialect.id(),
            parts@.len() == i,
            forall|j: int| 0 <= j < i ==> parts@[j]@ == target[j],
        decreases cols.len() - i,
    {
        let t = write_select_col(&cols[i], dialect);
        parts.push(t);
        i += 1;
    }
    assert(strings_view(parts@) =~= target);
    if cols.len() == 0 {
        "*".to_owned()
    } else if cols.len() <= 3 {
        join_strings(&parts, ", ")
    } else {
        let mut out = String::new();
        out.append("\n");
        let mut k: usize = 0;
        let n = parts.len();
        while k < n
            invariant
                k <= n == parts.len(),
                strings_view(parts@) == target,
                target.len() == n,
                out@ == "\n"@ + multiline_cols(target.take(k as int), n as int),
            decreases n - k,
        {
            assert(target.take(k + 1).drop_last() =~= target.take(k as int));
            out.append("    ");
            out.append(parts[k].as_str());
            if k < n - 1 {
                out.append(",");
            }
            out.append("\n");
            assert(strings_view(parts@)[k as int] == parts@[k as int]@);
            assert(out@ =~= "\n"@ + multiline_cols(target.take(k + 1), n as int));
            k += 1;
        }
        assert(target.take(n as int) =~= target);
        out
    }
}

/// Write the FROM clause.
fn write_from(stmt: &SelectStmt) -> (r: String)
    ensures
        r@ == from_text(stmt@),
{
    let mut out = String::new();
    if let Some(from) = &stmt.from {
        out.append("\nFROM ");
        let t = write_table_ref(from);
        out.append(t.as_str());
    }
    out
}

/// Write one join clause.
fn write_join<D: Dialect>(join: &JoinClause, dialect: &D) -> (r: String)
    ensures
        r@ == join_text(join@, dialect.id()),
{
    let mut piece = String::new();
    piece.append("\n");
    let join_str = match join.join_type {
        JoinType::Inner => "INNER JOIN",
        JoinType::Left | JoinType::LeftAnti => "LEFT JOIN",
        JoinType::Right | JoinType::RightAnti => "RIGHT JOIN",
        JoinType::FullOuter => "FULL OUTER JOIN",
    };
    piece.append(join_str);
    piece.append(" ");
    let t = write_table_ref(&join.table);
    piece.append(t.as_str());
    piece.append(" ON ");
    let on = write_expr(&join.on, dialect);
    piece.append(on.as_str());
    assert(piece@ =~= join_text(join@, dialect.id()));
    piece
}

/// Write the join clauses.
fn write_joins<D: Dialect>(stmt: &SelectStmt, dialect: &D) -> (r: String)
    ensures
        r@ == joins_text(stmt@, dialect.id()),
{
    let ghost jparts = join_parts(stmt@, dialect.id());
    let mut out = String::new();
    let mut i: usize = 0;
    while i < stmt.joins.len()
        invariant
            i <= stmt.joins.len(),
            jparts == join_parts(stmt@, dialect.id()),
            out@ == join_seqs(jparts.take(i as int), Seq::empty()),
        decreases stmt.joins.len() - i,
    {
        proof {
            lemma_join_push(jparts, Seq::empty(), i as int);
        }
        let piece = write_join(&stmt.joins[i], dialect);
        out.append(piece.as_str());
        assert(out@ =~= join_seqs(jparts.take(i + 1), Seq::empty()));
        i += 1;
    }
    assert(jparts.take(stmt.joins.len() as int) =~= jparts);
    out
}

/// Write the WHERE clause.
fn write_where<D: Dialect>(stmt: &SelectStmt, dialect: &D) -> (r: String)
    ensures
        r@ == where_text(stmt@, dialect.id()),
{
    let mut out = String::new();
    if let Some(w) = &stmt.where_clause {
        out.append("\nWHERE ");
        let t = write_expr(w, dialect);
        out.append(t.as_str());
    }
    out
}

/// Write the GROUP BY clause.
fn write_group<D: Dialect>(stmt: &SelectStmt, dialect: &D) -> (r: String)
    ensures
        r@ == group_text(stmt@, dialect.id()),
{
    let mut out = String::new();
    if stmt.group_by.len() > 0 {
        out.append("\nGROUP BY ");
        let g = write_expr_list(&stmt.group_by, dialect);
        out.append(g.as_str());
    }
    assert(stmt@.group_by =~= sql_exprs_view(stmt.group_by@));
    out
}

/// Write the HAVING clause.
fn write_having<D: Dialect>(stmt: &SelectStmt, dialect: &D) -> (r: String)
    ensures
        r@ == having_text(stmt@, dialect.id()),
{
    let mut out = String::new();
    if let Some(h) = &stmt.having {
        out.append("\nHAVING ");
        let t = write_expr(h, dialect);
        out.append(t.as_str());
    }
    out
}

/// Write the ORDER BY clause.
fn write_order<D: Dialect>(stmt: &SelectStmt, dialect: &D) -> (r: String)
    ensures
        r@ == order_text(stmt@, dialect.id()),
{
    let mut out = String::new();
    if stmt.order_by.len() > 0 {
        out.append("\nORDER BY ");
        let ghost oparts = order_parts(stmt@, dialect.id());
        let ghost before = out@;
        let mut k: usize = 0;
        while k < stmt.order_by.len()
            invariant
                k <= stmt.order_by.len(),
                oparts == order_parts(stmt@, dialect.id()),
                out@ == before + join_seqs(oparts.take(k as int), ", "@),
            decreases stmt.order_by.len() - k,
        {
            proof {
                lemma_join_push(oparts, ", "@, k as int);
            }
            if k > 0 {
                out.append(", ");
            }
            let o = &stmt.order_by[k];
            let e = write_expr(&o.expr, dialect);
            out.append(e.as_str());
            if o.asc {
                out.append(" ASC");
            } else {
                out.append(" DESC");
            }
            assert(out@ =~= before + join_seqs(oparts.take(k + 1), ", "@));
            k += 1;
        }
        assert(oparts.take(stmt.order_by.len() as int) =~= oparts);
    }
    out
}

/// Write the LIMIT clause.
fn write_limit(stmt: &SelectStmt) -> (r: String)
    ensures
        r@ == limit_text(stmt@),
{
    let mut out = String::new();
    if let Some(limit) = stmt.limit {
        out.append("\nLIMIT ");
        let t = u64_to_string(limit);
        out.append(t.as_str());
    }
    out
}

/// Write the clauses of a SELECT statement that follow the select list.
pub fn write_clauses<D: Dialect>(stmt: &SelectStmt, dialect: &D) -> (r: String)
    ensures
        r@ == clauses_text(stmt@, dialect.id()),
{
    let mut out = write_from(stmt);
    let t = write_joins(stmt, dialect);
    out.append(t.as_str());
    let t = write_where(stmt, dialect);
    out.append(t.as_str());
    let t = write_group(stmt, dialect);
    out.append(t.as_str());
    let t = write_having(stmt, dialect);
    out.append(t.as_str());
    let t = write_order(stmt, dialect);
    out.append(t.as_str());
    let t = write_limit(stmt);
    out.append(t.as_str());
    assert(out@ =~= clauses_text(stmt@, dialect.id()));
    out
}

/// Write a SELECT statement to string.
#[verifier::rlimit(40)]
pub fn write_select<D: Dialect>(stmt: &SelectStmt, dialect: &D) -> (r: String)
    ensures
        r@ == select_text(stmt@, dialect.id()),
    decreases stmt,
{
    let ghost d = dialect.id();
    let ghost sv = stmt@;
    let mut out = String::new();
    out.append("SELECT ");
    let c = write_columns(&stmt.columns, dialect);
    out.append(c.as_str());
    let cl = write_clauses(stmt, dialect);
    out.append(cl.as_str());
    let ghost before = out@;
    let ghost uparts = union_parts(sv.union_all, d);
    let mut i: usize = 0;
    while i < stmt.union_all.len()
        invariant
            i <= stmt.union_all.len(),
            sv == stmt@,
            d == dialect.id(),
            uparts == union_parts(sv.union_all, d),
            out@ == before + join_seqs(uparts.take(i as int), Seq::empty()),
        decreases stmt.union_all.len() - i,
    {
        proof {
            lemma_join_push(uparts, Seq::empty(), i as int);
        }
        assert(decreases_to!(stmt => stmt.union_all@[i as int]));
        out.append("\nUNION ALL\n");
        let u = write_select(&stmt.union_all[i], dialect);
        out.append(u.as_str());
        assert(out@ =~= before + join_seqs(uparts.take(i + 1), Seq::empty()));
        i += 1;
    }
    assert(uparts.take(stmt.union_all.len() as int) =~= uparts);
    assert(sv.columns =~= cols_view(stmt.columns@));
    assert(out@ =~= select_text(stmt@, d));
    out
}

/// Indent every line of a text by four spaces, ending each with a line break.
pub fn indent_lines(text: &str) -> (r: String)
    ensures
        r@ == indent_block(text@),
{
    let lines = split_lines(text);
    let ghost ls = lines_of(text@);
    let ghost lparts = indented_lines(ls);
    let mut out = String::new();
    let mut k: usize = 0;
    while k < lines.len()
        invariant
            k <= lines.len(),
            strings_view(lines@) == ls,
            lparts == indented_lines(ls),
            out@ == join_seqs(lparts.take(k as int), Seq::empty()),
        decreases lines.len() - k,
    {
        proof {
            lemma_join_push(lparts, Seq::empty(), k as int);
        }
        out.append("    ");
        out.append(lines[k].as_str());
        out.append("\n");
        assert(strings_view(lines@)[k as int] == lines@[k as int]@);
        assert(out@ =~= join_seqs(lparts.take(k + 1), Seq::empty()));
        k += 1;
    }
    assert(lparts.take(lines.len() as int) =~= lparts);
    out
}

/// Write one CTE definition.
pub fn write_cte<D: Dialect>(cte: &Cte, dialect: &D) -> (r: String)
    ensures
        r@ == cte_text(cte@, dialect.id()),
{
    let mut out = String::new();
    out.append(cte.name.as_str());
    out.append(" AS (\n");
    let select_str = write_select(&cte.select, dialect);
    let body = indent_lines(select_str.as_str());
    out.append(body.as_str());
    out.append(")");
    assert(out@ =~= cte_text(cte@, dialect.id()));
    out
}

/// Write the WITH clause of a query (empty when there are no CTEs).
fn write_with<D: Dialect>(query: &SqlQuery, dialect: &D) -> (r: String)
    ensures
        r@ == (if query@.ctes.len() > 0 {
            "WITH "@ + join_seqs(cte_parts(query@, dialect.id()), ",\n"@) + "\n"@
        } else {
            Seq::empty()
        }),
{
    let ghost d = dialect.id();
    let ghost qv = query@;
    let mut out = String::new();
    if query.ctes.len() > 0 {
        out.append("WITH ");
        let ghost cparts = cte_parts(qv, d);
        let mut i: usize = 0;
        while i < query.ctes.len()
            invariant
                i <= query.ctes.len(),
                qv == query@,
                d == dialect.id(),
                cparts == cte_parts(qv, d),
                out@ == "WITH "@ + join_seqs(cparts.take(i as int), ",\n"@),
            decreases query.ctes.len() - i,
        {
            proof {
                lemma_join_push(cparts, ",\n"@, i as int);
            }
            if i > 0 {
                out.append(",\n");
            }
            let c = write_cte(&query.ctes[i], dialect);
            out.append(c.as_str());
            assert(out@ =~= "WITH "@ + join_seqs(cparts.take(i + 1), ",\n"@));
            i += 1;
        }
        assert(cparts.take(query.ctes.len() as int) =~= cparts);
        out.append("\n");
    }
    out
}

/// Write a SQL query to a formatted string.
pub fn write_sql<D: Dialect>(query: &SqlQuery, dialect: &D) -> (r: String)
    ensures
        r@ == query_text(query@, dialect.id()),
{
    let mut out = write_with(query, dialect);
    let f = write_select(&query.final_select, dialect);
    out.append(f.as_str());
    out.append(";");
    assert(out@ =~= query_text(query@, dialect.id()));
    out
}

} // verus!
