//! The SQL AST produced by the translator, its models, and the SQL writer.
use vstd::prelude::*;
use crate::dialect::{Dialect, DialectId};
use crate::text::strings_view;

verus! {

/// A table reference in a FROM clause.
#[derive(Debug, Clone)]
pub struct TableRef {
    /// Schema/database name.
    pub schema: Option<String>,
    /// Table name.
    pub name: String,
    /// Optional alias.
    pub alias: Option<String>,
}

/// Model of [`TableRef`].
pub struct TableRefV {
    pub schema: Option<Seq<char>>,
    pub name: Seq<char>,
    pub alias: Option<Seq<char>>,
}

/// Model of an optional string.
pub open spec fn opt_view(o: Option<String>) -> Option<Seq<char>> {
    match o {
        Some(s) => Some(s@),
        None => None,
    }
}

impl View for TableRef {
    type V = TableRefV;

    open spec fn view(&self) -> TableRefV {
        TableRefV { schema: opt_view(self.schema), name: self.name@, alias: opt_view(self.alias) }
    }
}

/// SQL JOIN types.
#[derive(Debug, Clone, Copy, PartialEq, Eq, Structural)]
pub enum JoinType {
    /// INNER JOIN.
    Inner,
    /// LEFT JOIN.
    Left,
    /// RIGHT JOIN.
    Right,
    /// FULL OUTER JOIN.
    FullOuter,
    /// LEFT JOIN (for anti-join pattern).
    LeftAnti,
    /// RIGHT JOIN (for anti-join pattern).
    RightAnti,
}

/// SQL binary operators.
#[derive(Debug, Clone, Copy, PartialEq, Eq, Structural)]
pub enum SqlBinOp {
    /// `=`
    Eq,
    /// `<>`
    Neq,
    /// `<`
    Lt,
    /// `<=`
    Lte,
    /// `>`
    Gt,
    /// `>=`
    Gte,
    /// `AND`
    And,
    /// `OR`
    Or,
    /// `+`
    Add,
    /// `-`
    Sub,
    /// `*`
    Mul,
    /// `/`
    Div,
    /// `||` (concatenation)
    Concat,
}

/// SQL unary operators.
#[derive(Debug, Clone, Copy, PartialEq, Eq, Structural)]
pub enum SqlUnOp {
    /// `NOT`
    Not,
    /// `-`
    Neg,
}

/// SQL literal values. A decimal literal keeps its decimal text.
#[derive(Debug, Clone)]
pub enum SqlLiteral {
    /// String literal.
    String(String),
    /// Integer literal.
    Integer(i64),
    /// Decimal literal (digits, `.`, digits).
    Float(String),
    /// Boolean literal.
    Boolean(bool),
    /// NULL.
    Null,
}

/// Model of [`SqlLiteral`].
pub enum SqlLiteralV {
    String(Seq<char>),
    Integer(i64),
    Float(Seq<char>),
    Boolean(bool),
    Null,
}

impl View for SqlLiteral {
    type V = SqlLiteralV;

    open spec fn view(&self) -> SqlLiteralV {
        match self {
            SqlLiteral::String(s) => SqlLiteralV::String(s@),
            SqlLiteral::Integer(n) => SqlLiteralV::Integer(*n),
            SqlLiteral::Float(s) => SqlLiteralV::Float(s@),
            SqlLiteral::Boolean(b) => SqlLiteralV::Boolean(*b),
            SqlLiteral::Null => SqlLiteralV::Null,
        }
    }
}

/// A SQL expression.
#[derive(Debug)]
#[allow(inconsistent_fields)]
pub enum SqlExpr {
    /// A column reference.
    Column {
        /// Optional table qualifier.
        table: Option<String>,
        /// Column name.
        name: String,
    },
    /// A literal value.
    Literal(SqlLiteral),
    /// A binary operation.
    BinaryOp {
        /// The operator.
        op: SqlBinOp,
        /// Left operand.
        left: Box<SqlExpr>,
        /// Right operand.
        right: Box<SqlExpr>,
    },
    /// A unary operation.
    UnaryOp {
        /// The operator.
        op: SqlUnOp,
        /// The operand.
        expr: Box<SqlExpr>,
    },
    /// A function call.
    FunctionCall {
        /// Function name.
        name: String,
        /// Arguments.
        args: Vec<SqlExpr>,
        /// Whether DISTINCT is used.
        distinct: bool,
    },
    /// A CAST expression.
    Cast {
        /// The expression to cast.
        expr: Box<SqlExpr>,
        /// Target type.
        ty: String,
    },
    /// A LIKE expression.
    Like {
        /// The expression to match.
        expr: Box<SqlExpr>,
        /// The pattern.
        pattern: String,
        /// Whether this is NOT LIKE.
        negated: bool,
        /// Whether to use ILIKE.
        case_insensitive: bool,
    },
    /// An IN list expression.
    InList {
        /// The expression to check.
        expr: Box<SqlExpr>,
        /// The list of values.
        list: Vec<SqlExpr>,
        /// Whether this is NOT IN.
        negated: bool,
    },
    /// IS NULL / IS NOT NULL.
    IsNull {
        /// The expression.
        expr: Box<SqlExpr>,
        /// Whether this is IS NOT NULL.
        negated: bool,
    },
    /// A TRY_CAST / SAFE_CAST expression (error-safe cast).
    TryCast {
        /// The expression to cast.
        expr: Box<SqlExpr>,
        /// Target type.
        ty: String,
    },
    /// A CASE WHEN expression.
    CaseWhen {
        /// Condition.
        condition: Box<SqlExpr>,
        /// THEN expression.
        then_expr: Box<SqlExpr>,
        /// ELSE expression.
        else_expr: Box<SqlExpr>,
    },
    /// A COALESCE expression.
    Coalesce {
        /// Arguments.
        args: Vec<SqlExpr>,
    },
    /// Raw SQL string (escape hatch).
    Raw(String),
    /// Parenthesized expression.
    Parens(Box<SqlExpr>),
}

/// Model of [`SqlExpr`].
#[allow(inconsistent_fields)]
pub enum SqlExprV {
    Column { table: Option<Seq<char>>, name: Seq<char> },
    Literal(SqlLiteralV),
    BinaryOp { op: SqlBinOp, left: Box<SqlExprV>, right: Box<SqlExprV> },
    UnaryOp { op: SqlUnOp, expr: Box<SqlExprV> },
    FunctionCall { name: Seq<char>, args: Seq<SqlExprV>, distinct: bool },
    Cast { expr: Box<SqlExprV>, ty: Seq<char> },
    Like { expr: Box<SqlExprV>, pattern: Seq<char>, negated: bool, case_insensitive: bool },
    InList { expr: Box<SqlExprV>, list: Seq<SqlExprV>, negated: bool },
    IsNull { expr: Box<SqlExprV>, negated: bool },
    TryCast { expr: Box<SqlExprV>, ty: Seq<char> },
    CaseWhen { condition: Box<SqlExprV>, then_expr: Box<SqlExprV>, else_expr: Box<SqlExprV> },
    Coalesce { args: Seq<SqlExprV> },
    Raw(Seq<char>),
    Parens(Box<SqlExprV>),
}

/// Model of one SQL expression.
pub open spec fn sql_expr_view(e: SqlExpr) -> SqlExprV
    decreases e,
{
    match e {
        SqlExpr::Column { table, name } => SqlExprV::Column { table: opt_view(table), name: name@ },
        SqlExpr::Literal(l) => SqlExprV::Literal(l@),
        SqlExpr::BinaryOp { op, left, right } => SqlExprV::BinaryOp {
            op,
            left: Box::new(sql_expr_view(*left)),
            right: Box::new(sql_expr_view(*right)),
        },
        SqlExpr::UnaryOp { op, expr } => SqlExprV::UnaryOp {
            op,
            expr: Box::new(sql_expr_view(*expr)),
        },
        SqlExpr::FunctionCall { name, args, distinct } => SqlExprV::FunctionCall {
            name: name@,
            args: Seq::new(args@.len(), |i: int| if 0 <= i < args@.len() {
                sql_expr_view(args@[i])
            } else {
                SqlExprV::Raw(Seq::empty())
            }),
            distinct,
        },
        SqlExpr::Cast { expr, ty } => SqlExprV::Cast { expr: Box::new(sql_expr_view(*expr)), ty: ty@ },
        SqlExpr::Like { expr, pattern, negated, case_insensitive } => SqlExprV::Like {
            expr: Box::new(sql_expr_view(*expr)),
            pattern: pattern@,
            negated,
            case_insensitive,
        },
        SqlExpr::InList { expr, list, negated } => SqlExprV::InList {
            expr: Box::new(sql_expr_view(*expr)),
            list: Seq::new(list@.len(), |i: int| if 0 <= i < list@.len() {
                sql_expr_view(list@[i])
            } else {
                SqlExprV::Raw(Seq::empty())
            }),
            negated,
        },
        SqlExpr::IsNull { expr, negated } => SqlExprV::IsNull {
            expr: Box::new(sql_expr_view(*expr)),
            negated,
        },
        SqlExpr::TryCast { expr, ty } => SqlExprV::TryCast {
            expr: Box::new(sql_expr_view(*expr)),
            ty: ty@,
        },
        SqlExpr::CaseWhen { condition, then_expr, else_expr } => SqlExprV::CaseWhen {
            condition: Box::new(sql_expr_view(*condition)),
            then_expr: Box::new(sql_expr_view(*then_expr)),
            else_expr: Box::new(sql_expr_view(*else_expr)),
        },
        SqlExpr::Coalesce { args } => SqlExprV::Coalesce {
            args: Seq::new(args@.len(), |i: int| if 0 <= i < args@.len() {
                sql_expr_view(args@[i])
            } else {
                SqlExprV::Raw(Seq::empty())
            }),
        },
        SqlExpr::Raw(s) => SqlExprV::Raw(s@),
        SqlExpr::Parens(inner) => SqlExprV::Parens(Box::new(sql_expr_view(*inner))),
    }
}

impl View for SqlExpr {
    type V = SqlExprV;

    open spec fn view(&self) -> SqlExprV {
        sql_expr_view(*self)
    }
}

/// Models of a sequence of SQL expressions.
pub open spec fn sql_exprs_view(s: Seq<SqlExpr>) -> Seq<SqlExprV> {
    Seq::new(s.len(), |i: int| s[i]@)
}

/// A column in a SELECT clause.
#[derive(Debug)]
pub enum SelectCol {
    /// `*`
    Wildcard,
    /// `table.*`
    QualifiedWildcard(String),
    /// An expression with optional alias.
    Expr {
        /// The expression.
        expr: SqlExpr,
        /// Optional alias.
        alias: Option<String>,
    },
    /// `* EXCEPT (col1, col2, ...)` — used by BigQuery and DuckDB.
    Except {
        /// Columns to exclude.
        columns: Vec<String>,
    },
}

/// Model of [`SelectCol`].
pub enum SelectColV {
    Wildcard,
    QualifiedWildcard(Seq<char>),
    Expr { expr: SqlExprV, alias: Option<Seq<char>> },
    Except { columns: Seq<Seq<char>> },
}

impl View for SelectCol {
    type V = SelectColV;

    open spec fn view(&self) -> SelectColV {
        match self {
            SelectCol::Wildcard => SelectColV::Wildcard,
            SelectCol::QualifiedWildcard(t) => SelectColV::QualifiedWildcard(t@),
            SelectCol::Expr { expr, alias } => SelectColV::Expr { expr: expr@, alias: opt_view(*alias) },
            SelectCol::Except { columns } => SelectColV::Except { columns: strings_view(columns@) },
        }
    }
}

/// A JOIN clause.
#[derive(Debug)]
pub struct JoinClause {
    /// Join type.
    pub join_type: JoinType,
    /// The table being joined.
    pub table: TableRef,
    /// Join condition.
    pub on: SqlExpr,
}

/// Model of [`JoinClause`].
pub struct JoinClauseV {
    pub join_type: JoinType,
    pub table: TableRefV,
    pub on: SqlExprV,
}

impl View for JoinClause {
    type V = JoinClauseV;

    open spec fn view(&self) -> JoinClauseV {
        JoinClauseV { join_type: self.join_type, table: self.table@, on: self.on@ }
    }
}

/// ORDER BY item.
#[derive(Debug)]
pub struct OrderByItem {
    /// The expression.
    pub expr: SqlExpr,
    /// Ascending or descending.
    pub asc: bool,
}

/// Model of [`OrderByItem`].
pub struct OrderByItemV {
    pub expr: SqlExprV,
    pub asc: bool,
}

impl View for OrderByItem {
    type V = OrderByItemV;

    open spec fn view(&self) -> OrderByItemV {
        OrderByItemV { expr: self.expr@, asc: self.asc }
    }
}

/// A SELECT statement.
#[derive(Debug)]
pub struct SelectStmt {
    /// Columns to select.
    pub columns: Vec<SelectCol>,
    /// FROM clause.
    pub from: Option<TableRef>,
    /// JOIN clauses.
    pub joins: Vec<JoinClause>,
    /// WHERE clause.
    pub where_clause: Option<SqlExpr>,
    /// GROUP BY columns.
    pub group_by: Vec<SqlExpr>,
    /// HAVING clause.
    pub having: Option<SqlExpr>,
    /// ORDER BY items.
    pub order_by: Vec<OrderByItem>,
    /// LIMIT value.
    pub limit: Option<u64>,
    /// UNION ALL members (additional SELECT statements to combine).
    pub union_all: Vec<SelectStmt>,
}

/// Model of [`SelectStmt`].
pub struct SelectStmtV {
    pub columns: Seq<SelectColV>,
    pub from: Option<TableRefV>,
    pub joins: Seq<JoinClauseV>,
    pub where_clause: Option<SqlExprV>,
    pub group_by: Seq<SqlExprV>,
    pub having: Option<SqlExprV>,
    pub order_by: Seq<OrderByItemV>,
    pub limit: Option<u64>,
    pub union_all: Seq<SelectStmtV>,
}

/// Model of an optional SQL expression.
pub open spec fn opt_expr_view(o: Option<SqlExpr>) -> Option<SqlExprV> {
    match o {
        Some(e) => Some(e@),
        None => None,
    }
}

/// Model of one SELECT statement.
pub open spec fn select_view(s: SelectStmt) -> SelectStmtV
    decreases s,
{
    SelectStmtV {
        columns: Seq::new(s.columns@.len(), |i: int| s.columns@[i]@),
        from: match s.from {
            Some(t) => Some(t@),
            None => None,
        },
        joins: Seq::new(s.joins@.len(), |i: int| s.joins@[i]@),
        where_clause: opt_expr_view(s.where_clause),
        group_by: sql_exprs_view(s.group_by@),
        having: opt_expr_view(s.having),
        order_by: Seq::new(s.order_by@.len(), |i: int| s.order_by@[i]@),
        limit: s.limit,
        union_all: Seq::new(s.union_all@.len(), |i: int| if 0 <= i < s.union_all@.len() {
            select_view(s.union_all@[i])
        } else {
            empty_select_v()
        }),
    }
}

/// The model of an empty SELECT statement.
pub open spec fn empty_select_v() -> SelectStmtV {
    SelectStmtV {
        columns: Seq::empty(),
        from: None,
        joins: Seq::empty(),
        where_clause: None,
        group_by: Seq::empty(),
        having: None,
        order_by: Seq::empty(),
        limit: None,
        union_all: Seq::empty(),
    }
}

impl View for SelectStmt {
    type V = SelectStmtV;

    open spec fn view(&self) -> SelectStmtV {
        select_view(*self)
    }
}

impl SelectStmt {
    /// Create a new empty SELECT statement.
    pub fn new() -> (s: Self)
        ensures
            s@ == empty_select_v(),
    {
        let s = SelectStmt {
            columns: Vec::new(),
            from: None,
            joins: Vec::new(),
            where_clause: None,
            group_by: Vec::new(),
            having: None,
            order_by: Vec::new(),
            limit: None,
            union_all: Vec::new(),
        };
        assert(s@.columns =~= Seq::<SelectColV>::empty());
        assert(s@.joins =~= Seq::<JoinClauseV>::empty());
        assert(s@.group_by =~= Seq::<SqlExprV>::empty());
        assert(s@.order_by =~= Seq::<OrderByItemV>::empty());
        assert(s@.union_all =~= Seq::<SelectStmtV>::empty());
        s
    }
}

/// A Common Table Expression.
#[derive(Debug)]
pub struct Cte {
    /// CTE name.
    pub name: String,
    /// The SELECT statement.
    pub select: SelectStmt,
}

/// Model of [`Cte`].
pub struct CteV {
    pub name: Seq<char>,
    pub select: SelectStmtV,
}

impl View for Cte {
    type V = CteV;

    open spec fn view(&self) -> CteV {
        CteV { name: self.name@, select: self.select@ }
    }
}

/// A complete SQL query with optional CTEs.
#[derive(Debug)]
pub struct SqlQuery {
    /// Common Table Expressions.
    pub ctes: Vec<Cte>,
    /// The final SELECT statement.
    pub final_select: SelectStmt,
}

/// Model of [`SqlQuery`].
pub struct SqlQueryV {
    pub ctes: Seq<CteV>,
    pub final_select: SelectStmtV,
}

impl View for SqlQuery {
    type V = SqlQueryV;

    open spec fn view(&self) -> SqlQueryV {
        SqlQueryV { ctes: Seq::new(self.ctes@.len(), |i: int| self.ctes@[i]@), final_select: self.final_select@ }
    }
}

} // verus!
