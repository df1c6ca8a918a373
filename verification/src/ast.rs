//! AST node types for M expressions, and their mathematical models.
use vstd::prelude::*;

verus! {

/// M types for type annotations and casts.
#[derive(Debug, Clone)]
pub enum MType {
    /// `type text`
    Text,
    /// `type number`
    Number,
    /// `type integer` or `Int64.Type`
    Integer,
    /// `type logical`
    Logical,
    /// `type date`
    Date,
    /// `type datetime`
    DateTime,
    /// `type datetimezone`
    DateTimeZone,
    /// `type duration`
    Duration,
    /// `type binary`
    Binary,
    /// `type table`
    Table,
    /// `type any`
    Any,
    /// An unknown type string.
    Unknown(String),
}

/// Model of [`MType`]: the unknown type's name is a character sequence.
pub enum MTypeV {
    Text,
    Number,
    Integer,
    Logical,
    Date,
    DateTime,
    DateTimeZone,
    Duration,
    Binary,
    Table,
    Any,
    Unknown(Seq<char>),
}

impl View for MType {
    type V = MTypeV;

    open spec fn view(&self) -> MTypeV {
        match self {
            MType::Text => MTypeV::Text,
            MType::Number => MTypeV::Number,
            MType::Integer => MTypeV::Integer,
            MType::Logical => MTypeV::Logical,
            MType::Date => MTypeV::Date,
            MType::DateTime => MTypeV::DateTime,
            MType::DateTimeZone => MTypeV::DateTimeZone,
            MType::Duration => MTypeV::Duration,
            MType::Binary => MTypeV::Binary,
            MType::Table => MTypeV::Table,
            MType::Any => MTypeV::Any,
            MType::Unknown(s) => MTypeV::Unknown(s@),
        }
    }
}

/// Binary operators.
#[derive(Debug, Clone, Copy, PartialEq, Eq, Structural)]
pub enum BinOp {
    /// `=`
    Eq,
    /// `<>`
    Neq,
    /// `<`
    Lt,
    /// `<=`
    Lte,
    /// `>`
    Gt,
    /// `>=`
    Gte,
    /// `and`
    And,
    /// `or`
    Or,
    /// `+`
    Add,
    /// `-`
    Sub,
    /// `*`
    Mul,
    /// `/`
    Div,
    /// `&` (text concatenation)
    Concat,
}

/// Unary operators.
#[derive(Debug, Clone, Copy, PartialEq, Eq, Structural)]
pub enum UnOp {
    /// `not`
    Not,
    /// `-` (negation)
    Neg,
}

/// M literal values. A number with a fractional part keeps its decimal source text.
#[derive(Debug, Clone)]
pub enum MLiteral {
    /// Text string.
    Text(String),
    /// Decimal number, as written in the source (digits, one `.`, digits).
    Number(String),
    /// Integer.
    Integer(i64),
    /// Boolean.
    Bool(bool),
    /// Null.
    Null,
}

/// Model of [`MLiteral`].
pub enum MLiteralV {
    Text(Seq<char>),
    Number(Seq<char>),
    Integer(i64),
    Bool(bool),
    Null,
}

impl View for MLiteral {
    type V = MLiteralV;

    open spec fn view(&self) -> MLiteralV {
        match self {
            MLiteral::Text(s) => MLiteralV::Text(s@),
            MLiteral::Number(s) => MLiteralV::Number(s@),
            MLiteral::Integer(n) => MLiteralV::Integer(*n),
            MLiteral::Bool(b) => MLiteralV::Bool(*b),
            MLiteral::Null => MLiteralV::Null,
        }
    }
}

/// An M expression node.
#[derive(Debug)]
#[allow(inconsistent_fields)]
pub enum MExpr {
    /// `let bindings in body`
    Let {
        /// Named bindings.
        bindings: Vec<(String, MExpr)>,
        /// The body expression.
        body: Box<MExpr>,
    },
    /// A function call like `Table.SelectRows(args...)`.
    FunctionCall {
        /// Function name (e.g., "Table.SelectRows").
        name: String,
        /// Function arguments.
        args: Vec<MExpr>,
    },
    /// Field access: `expr[field]`.
    FieldAccess {
        /// The expression being accessed.
        expr: Box<MExpr>,
        /// The field name.
        field: String,
    },
    /// Index access: `expr{key}`.
    IndexAccess {
        /// The expression being indexed.
        expr: Box<MExpr>,
        /// The key expression.
        key: Box<MExpr>,
    },
    /// `each <expr>` — introduces a row context.
    EachExpr(Box<MExpr>),
    /// `[ColumnName]` inside an `each` context.
    RowField(String),
    /// Binary operation.
    BinaryOp {
        /// The operator.
        op: BinOp,
        /// Left operand.
        left: Box<MExpr>,
        /// Right operand.
        right: Box<MExpr>,
    },
    /// Unary operation.
    UnaryOp {
        /// The operator.
        op: UnOp,
        /// The operand.
        expr: Box<MExpr>,
    },
    /// A literal value.
    Literal(MLiteral),
    /// A named identifier.
    Identifier(String),
    /// A list `{e1, e2, ...}`.
    List(Vec<MExpr>),
    /// A record `[k1=v1, k2=v2, ...]`.
    Record(Vec<(String, MExpr)>),
    /// A type annotation `expr as type`.
    TypeAnnotation {
        /// The annotated expression.
        expr: Box<MExpr>,
        /// The type.
        ty: MType,
    },
}

/// Model of [`MExpr`]: names are character sequences, children are models.
#[allow(inconsistent_fields)]
pub enum MExprV {
    Let { bindings: Seq<(Seq<char>, MExprV)>, body: Box<MExprV> },
    FunctionCall { name: Seq<char>, args: Seq<MExprV> },
    FieldAccess { expr: Box<MExprV>, field: Seq<char> },
    IndexAccess { expr: Box<MExprV>, key: Box<MExprV> },
    EachExpr(Box<MExprV>),
    RowField(Seq<char>),
    BinaryOp { op: BinOp, left: Box<MExprV>, right: Box<MExprV> },
    UnaryOp { op: UnOp, expr: Box<MExprV> },
    Literal(MLiteralV),
    Identifier(Seq<char>),
    List(Seq<MExprV>),
    Record(Seq<(Seq<char>, MExprV)>),
    TypeAnnotation { expr: Box<MExprV>, ty: MTypeV },
}

/// Model of one expression.
pub open spec fn expr_view(e: MExpr) -> MExprV
    decreases e,
{
    match e {
        MExpr::Let { bindings, body } => MExprV::Let {
            bindings: Seq::new(bindings@.len(), |i: int| if 0 <= i < bindings@.len() {
                (bindings@[i].0@, expr_view(bindings@[i].1))
            } else {
                (Seq::empty(), MExprV::Identifier(Seq::empty()))
            }),
            body: Box::new(expr_view(*body)),
        },
        MExpr::FunctionCall { name, args } => MExprV::FunctionCall {
            name: name@,
            args: Seq::new(args@.len(), |i: int| if 0 <= i < args@.len() {
                expr_view(args@[i])
            } else {
                MExprV::Identifier(Seq::empty())
            }),
        },
        MExpr::FieldAccess { expr, field } => MExprV::FieldAccess {
            expr: Box::new(expr_view(*expr)),
            field: field@,
        },
        MExpr::IndexAccess { expr, key } => MExprV::IndexAccess {
            expr: Box::new(expr_view(*expr)),
            key: Box::new(expr_view(*key)),
        },
        MExpr::EachExpr(inner) => MExprV::EachExpr(Box::new(expr_view(*inner))),
        MExpr::RowField(s) => MExprV::RowField(s@),
        MExpr::BinaryOp { op, left, right } => MExprV::BinaryOp {
            op,
            left: Box::new(expr_view(*left)),
            right: Box::new(expr_view(*right)),
        },
        MExpr::UnaryOp { op, expr } => MExprV::UnaryOp { op, expr: Box::new(expr_view(*expr)) },
        MExpr::Literal(l) => MExprV::Literal(l@),
        MExpr::Identifier(s) => MExprV::Identifier(s@),
        MExpr::List(items) => MExprV::List(Seq::new(items@.len(), |i: int| if 0 <= i < items@.len() {
            expr_view(items@[i])
        } else {
            MExprV::Identifier(Seq::empty())
        })),
        MExpr::Record(fields) => MExprV::Record(Seq::new(fields@.len(), |i: int| if 0 <= i < fields@.len() {
            (fields@[i].0@, expr_view(fields@[i].1))
        } else {
            (Seq::empty(), MExprV::Identifier(Seq::empty()))
        })),
        MExpr::TypeAnnotation { expr, ty } => MExprV::TypeAnnotation {
            expr: Box::new(expr_view(*expr)),
            ty: ty@,
        },
    }
}

impl View for MExpr {
    type V = MExprV;

    open spec fn view(&self) -> MExprV {
        expr_view(*self)
    }
}

/// Top-level M document: either a single expression or a section with bindings.
#[derive(Debug)]
pub enum MDocument {
    /// A single `let … in` expression (or any standalone expression).
    Expression(MExpr),
    /// A `section` with named bindings.
    Section {
        /// Section name.
        name: String,
        /// List of (is_shared, binding_name, expression).
        bindings: Vec<(bool, String, MExpr)>,
    },
}

/// Model of [`MDocument`].
pub enum MDocumentV {
    Expression(MExprV),
    Section { name: Seq<char>, bindings: Seq<(bool, Seq<char>, MExprV)> },
}

impl View for MDocument {
    type V = MDocumentV;

    open spec fn view(&self) -> MDocumentV {
        match self {
            MDocument::Expression(e) => MDocumentV::Expression(e@),
            MDocument::Section { name, bindings } => MDocumentV::Section {
                name: name@,
                bindings: Seq::new(bindings@.len(), |i: int| (bindings@[i].0, bindings@[i].1@, bindings@[i].2@)),
            },
        }
    }
}

} // verus!
