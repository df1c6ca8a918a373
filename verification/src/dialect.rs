//! SQL dialects: identifier quoting, type names, cast syntax and the other
//! dialect-specific choices of the SQL writer.
use vstd::prelude::*;
use crate::ast::{MType, MTypeV};
use crate::text::{owned, push_char, str_eq};

verus! {

/// Syntax for limiting rows.
#[derive(Debug, Clone, Copy, PartialEq, Eq, Structural)]
pub enum TopNSyntax {
    /// `TOP n` (T-SQL).
    Top,
    /// `LIMIT n` (most dialects).
    Limit,
}

/// The five supported target dialects.
#[derive(Debug, Clone, Copy, PartialEq, Eq, Structural)]
pub enum DialectId {
    /// Microsoft T-SQL.
    TSql,
    /// PostgreSQL.
    Postgres,
    /// Google BigQuery.
    BigQuery,
    /// Snowflake.
    Snowflake,
    /// DuckDB.
    DuckDb,
}

/// The command-line name of a dialect.
pub open spec fn spec_dialect_name(d: DialectId) -> Seq<char> {
    match d {
        DialectId::TSql => "tsql"@,
        DialectId::Postgres => "postgres"@,
        DialectId::BigQuery => "bigquery"@,
        DialectId::Snowflake => "snowflake"@,
        DialectId::DuckDb => "duckdb"@,
    }
}

/// Opening identifier quote.
pub open spec fn spec_open_quote(d: DialectId) -> char {
    match d {
        DialectId::TSql => '[',
        DialectId::BigQuery => '`',
        _ => '"',
    }
}

/// Closing identifier quote.
pub open spec fn spec_close_quote(d: DialectId) -> char {
    match d {
        DialectId::TSql => ']',
        _ => spec_open_quote(d),
    }
}

/// Whether `ILIKE` is available.
pub open spec fn spec_ilike(d: DialectId) -> bool {
    match d {
        DialectId::Postgres | DialectId::Snowflake | DialectId::DuckDb => true,
        _ => false,
    }
}

/// Whether `SELECT * EXCEPT (..)` is available.
pub open spec fn spec_select_except(d: DialectId) -> bool {
    match d {
        DialectId::BigQuery | DialectId::DuckDb => true,
        _ => false,
    }
}

/// Row-limit syntax.
pub open spec fn spec_top_n(d: DialectId) -> TopNSyntax {
    match d {
        DialectId::TSql => TopNSyntax::Top,
        _ => TopNSyntax::Limit,
    }
}

/// Boolean literal text.
pub open spec fn spec_boolean_literal(d: DialectId, val: bool) -> Seq<char> {
    match d {
        DialectId::TSql => if val { "1"@ } else { "0"@ },
        _ => if val { "TRUE"@ } else { "FALSE"@ },
    }
}

/// Current-timestamp expression.
pub open spec fn spec_current_timestamp(d: DialectId) -> Seq<char> {
    match d {
        DialectId::TSql => "GETDATE()"@,
        DialectId::Postgres => "NOW()"@,
        DialectId::BigQuery => "CURRENT_TIMESTAMP()"@,
        DialectId::Snowflake => "CURRENT_TIMESTAMP()"@,
        DialectId::DuckDb => "now()"@,
    }
}

/// The placeholder that stands for a type a dialect cannot express.
pub open spec fn unsupported_type_marker() -> Seq<char> {
    "/* UNSUPPORTED_TYPE */"@
}

/// SQL type name of an M type in a dialect.
pub open spec fn spec_map_type(d: DialectId, t: MTypeV) -> Seq<char> {
    match t {
        MTypeV::Text => match d {
            DialectId::TSql => "NVARCHAR(MAX)"@,
            DialectId::Postgres => "TEXT"@,
            DialectId::BigQuery => "STRING"@,
            _ => "VARCHAR"@,
        },
        MTypeV::Number => match d {
            DialectId::TSql => "FLOAT"@,
            DialectId::Postgres => "DOUBLE PRECISION"@,
            DialectId::BigQuery => "FLOAT64"@,
            DialectId::Snowflake => "FLOAT"@,
            DialectId::DuckDb => "DOUBLE"@,
        },
        MTypeV::Integer => match d {
            DialectId::BigQuery => "INT64"@,
            _ => "BIGINT"@,
        },
        MTypeV::Logical => match d {
            DialectId::TSql => "BIT"@,
            DialectId::BigQuery => "BOOL"@,
            _ => "BOOLEAN"@,
        },
        MTypeV::Date => "DATE"@,
        MTypeV::DateTime => match d {
            DialectId::TSql => "DATETIME2"@,
            DialectId::BigQuery => "DATETIME"@,
            DialectId::Snowflake => "TIMESTAMP_NTZ"@,
            _ => "TIMESTAMP"@,
        },
        MTypeV::DateTimeZone => match d {
            DialectId::TSql => "DATETIMEOFFSET"@,
            DialectId::BigQuery => "TIMESTAMP"@,
            DialectId::Snowflake => "TIMESTAMP_TZ"@,
            _ => "TIMESTAMPTZ"@,
        },
        MTypeV::Duration => match d {
            DialectId::Postgres | DialectId::DuckDb => "INTERVAL"@,
            _ => unsupported_type_marker(),
        },
        MTypeV::Binary => match d {
            DialectId::TSql => "VARBINARY(MAX)"@,
            DialectId::Postgres => "BYTEA"@,
            DialectId::BigQuery => "BYTES"@,
            DialectId::Snowflake => "BINARY"@,
            DialectId::DuckDb => "BLOB"@,
        },
        MTypeV::Table => unsupported_type_marker(),
        MTypeV::Any => match d {
            DialectId::TSql => "SQL_VARIANT"@,
            DialectId::Postgres => "TEXT"@,
            DialectId::BigQuery => "STRING"@,
            DialectId::Snowflake => "VARIANT"@,
            DialectId::DuckDb => "VARCHAR"@,
        },
        MTypeV::Unknown(_) => unsupported_type_marker(),
    }
}

/// Whether a mapped type is the unsupported-type placeholder.
pub open spec fn is_unsupported_mapping(d: DialectId, t: MTypeV) -> bool {
    spec_map_type(d, t) == unsupported_type_marker()
}

/// Cast expression text.
pub open spec fn spec_cast(d: DialectId, e: Seq<char>, ty: Seq<char>) -> Seq<char> {
    match d {
        DialectId::Postgres | DialectId::DuckDb => e + "::"@ + ty,
        _ => "CAST("@ + e + " AS "@ + ty + ")"@,
    }
}

/// Whether an error-safe cast exists.
pub open spec fn spec_supports_try_cast(d: DialectId) -> bool {
    d != DialectId::Postgres
}

/// Error-safe cast expression text, when the dialect has one.
pub open spec fn spec_try_cast(d: DialectId, e: Seq<char>, ty: Seq<char>) -> Option<Seq<char>> {
    match d {
        DialectId::Postgres => None,
        DialectId::BigQuery => Some("SAFE_CAST("@ + e + " AS "@ + ty + ")"@),
        _ => Some("TRY_CAST("@ + e + " AS "@ + ty + ")"@),
    }
}

/// A quoted identifier.
pub open spec fn spec_quote_identifier(d: DialectId, name: Seq<char>) -> Seq<char> {
    seq![spec_open_quote(d)] + name + seq![spec_close_quote(d)]
}

/// Dialect-specific behaviour of the SQL writer and the translator.
pub trait Dialect {
    /// Which of the five dialects this is.
    spec fn id(&self) -> DialectId;

    /// Which of the five dialects this is, at run time.
    fn dialect_id(&self) -> (r: DialectId)
        ensures
            r == self.id(),
    ;

    /// Dialect name.
    fn name(&self) -> (r: &'static str)
        ensures
            r@ == spec_dialect_name(self.id()),
    {
        match self.dialect_id() {
            DialectId::TSql => "tsql",
            DialectId::Postgres => "postgres",
            DialectId::BigQuery => "bigquery",
            DialectId::Snowflake => "snowflake",
            DialectId::DuckDb => "duckdb",
        }
    }

    /// The opening quote character for identifiers.
    fn identifier_quote(&self) -> (c: char)
        ensures
            c == spec_open_quote(self.id()),
    {
        match self.dialect_id() {
            DialectId::TSql => '[',
            DialectId::BigQuery => '`',
            _ => '"',
        }
    }

    /// The closing quote character for identifiers.
    fn identifier_close_quote(&self) -> (c: char)
        ensures
            c == spec_close_quote(self.id()),
    {
        match self.dialect_id() {
            DialectId::TSql => ']',
            _ => self.identifier_quote(),
        }
    }

    /// The quote character for string literals.
    fn string_quote(&self) -> (c: char)
        ensures
            c == '\'',
    {
        '\''
    }

    /// Generate a CAST expression.
    fn cast_syntax(&self, expr: &str, ty: &str) -> (r: String)
        ensures
            r@ == spec_cast(self.id(), expr@, ty@),
    {
        let mut s = String::new();
        match self.dialect_id() {
            DialectId::Postgres | DialectId::DuckDb => {
                s.append(expr);
                s.append("::");
                s.append(ty);
            },
            _ => {
                s.append("CAST(");
                s.append(expr);
                s.append(" AS ");
                s.append(ty);
                s.append(")");
            },
        }
        s
    }

    /// Whether CTEs are supported.
    fn supports_cte(&self) -> (b: bool)
        ensures
            b,
    {
        true
    }

    /// Whether ILIKE is supported for case-insensitive matching.
    fn ilike_supported(&self) -> (b: bool)
        ensures
            b == spec_ilike(self.id()),
    {
        match self.dialect_id() {
            DialectId::Postgres | DialectId::Snowflake | DialectId::DuckDb => true,
            _ => false,
        }
    }

    /// Whether `SELECT * EXCEPT (col1, col2)` syntax is supported.
    fn supports_select_except(&self) -> (b: bool)
        ensures
            b == spec_select_except(self.id()),
    {
        match self.dialect_id() {
            DialectId::BigQuery | DialectId::DuckDb => true,
            _ => false,
        }
    }

    /// Top-N syntax style.
    fn top_n_syntax(&self) -> (t: TopNSyntax)
        ensures
            t == spec_top_n(self.id()),
    {
        match self.dialect_id() {
            DialectId::TSql => TopNSyntax::Top,
            _ => TopNSyntax::Limit,
        }
    }

    /// Boolean literal representation.
    fn boolean_literal(&self, val: bool) -> (r: &'static str)
        ensures
            r@ == spec_boolean_literal(self.id(), val),
    {
        match self.dialect_id() {
            DialectId::TSql => if val { "1" } else { "0" },
            _ => if val { "TRUE" } else { "FALSE" },
        }
    }

    /// Current timestamp expression.
    fn current_timestamp(&self) -> (r: &'static str)
        ensures
            r@ == spec_current_timestamp(self.id()),
    {
        match self.dialect_id() {
            DialectId::TSql => "GETDATE()",
            DialectId::Postgres => "NOW()",
            DialectId::BigQuery => "CURRENT_TIMESTAMP()",
            DialectId::Snowflake => "CURRENT_TIMESTAMP()",
            DialectId::DuckDb => "now()",
        }
    }

    /// Map an M type to the corresponding SQL type string.
    fn map_type(&self, m_type: &MType) -> (r: &'static str)
        ensures
            r@ == spec_map_type(self.id(), m_type@),
    {
        let d = self.dialect_id();
        match m_type {
            MType::Text => match d {
                DialectId::TSql => "NVARCHAR(MAX)",
                DialectId::Postgres => "TEXT",
                DialectId::BigQuery => "STRING",
                _ => "VARCHAR",
            },
            MType::Number => match d {
                DialectId::TSql => "FLOAT",
                DialectId::Postgres => "DOUBLE PRECISION",
                DialectId::BigQuery => "FLOAT64",
                DialectId::Snowflake => "FLOAT",
                DialectId::DuckDb => "DOUBLE",
            },
            MType::Integer => match d {
                DialectId::BigQuery => "INT64",
                _ => "BIGINT",
            },
            MType::Logical => match d {
                DialectId::TSql => "BIT",
                DialectId::BigQuery => "BOOL",
                _ => "BOOLEAN",
            },
            MType::Date => "DATE",
            MType::DateTime => match d {
                DialectId::TSql => "DATETIME2",
                DialectId::BigQuery => "DATETIME",
                DialectId::Snowflake => "TIMESTAMP_NTZ",
                _ => "TIMESTAMP",
            },
            MType::DateTimeZone => match d {
                DialectId::TSql => "DATETIMEOFFSET",
                DialectId::BigQuery => "TIMESTAMP",
                DialectId::Snowflake => "TIMESTAMP_TZ",
                _ => "TIMESTAMPTZ",
            },
            MType::Duration => match d {
                DialectId::Postgres | DialectId::DuckDb => "INTERVAL",
                _ => "/* UNSUPPORTED_TYPE */",
            },
            MType::Binary => match d {
                DialectId::TSql => "VARBINARY(MAX)",
                DialectId::Postgres => "BYTEA",
                DialectId::BigQuery => "BYTES",
                DialectId::Snowflake => "BINARY",
                DialectId::DuckDb => "BLOB",
            },
            MType::Table => "/* UNSUPPORTED_TYPE */",
            MType::Any => match d {
                DialectId::TSql => "SQL_VARIANT",
                DialectId::Postgres => "TEXT",
                DialectId::BigQuery => "STRING",
                DialectId::Snowflake => "VARIANT",
                DialectId::DuckDb => "VARCHAR",
            },
            MType::Unknown(_) => "/* UNSUPPORTED_TYPE */",
        }
    }

    /// Whether this dialect supports error-safe casting (TRY_CAST or equivalent).
    fn supports_try_cast(&self) -> (b: bool)
        ensures
            b == spec_supports_try_cast(self.id()),
    {
        match self.dialect_id() {
            DialectId::Postgres => false,
            _ => true,
        }
    }

    /// Generate an error-safe cast expression (TRY_CAST, SAFE_CAST, etc.).
    /// Returns None if the dialect does not support error-safe casting.
    fn try_cast_syntax(&self, expr: &str, ty: &str) -> (r: Option<String>)
        ensures
            r matches Some(s) ==> spec_try_cast(self.id(), expr@, ty@) == Some(s@),
            r is None ==> spec_try_cast(self.id(), expr@, ty@) is None,
    {
        let d = self.dialect_id();
        match d {
            DialectId::Postgres => None,
            _ => {
                let mut s = String::new();
                if d == DialectId::BigQuery {
                    s.append("SAFE_CAST(");
                } else {
                    s.append("TRY_CAST(");
                }
                s.append(expr);
                s.append(" AS ");
                s.append(ty);
                s.append(")");
                Some(s)
            },
        }
    }

    /// Quote an identifier.
    fn quote_identifier(&self, name: &str) -> (r: String)
        ensures
            r@ == spec_quote_identifier(self.id(), name@),
    {
        let mut s = String::new();
        push_char(&mut s, self.identifier_quote());
        s.append(name);
        push_char(&mut s, self.identifier_close_quote());
        s
    }
}

impl Dialect for DialectId {
    open spec fn id(&self) -> DialectId {
        *self
    }

    fn dialect_id(&self) -> (r: DialectId) {
        *self
    }
}

/// T-SQL dialect.
pub struct TSql;

/// PostgreSQL dialect.
pub struct Postgres;

/// BigQuery dialect.
pub struct BigQuery;

/// Snowflake dialect.
pub struct Snowflake;

/// DuckDB dialect.
pub struct DuckDb;

impl Dialect for TSql {
    open spec fn id(&self) -> DialectId {
        DialectId::TSql
    }

    fn dialect_id(&self) -> (r: DialectId) {
        DialectId::TSql
    }
}

impl Dialect for Postgres {
    open spec fn id(&self) -> DialectId {
        DialectId::Postgres
    }

    fn dialect_id(&self) -> (r: DialectId) {
        DialectId::Postgres
    }
}

impl Dialect for BigQuery {
    open spec fn id(&self) -> DialectId {
        DialectId::BigQuery
    }

    fn dialect_id(&self) -> (r: DialectId) {
        DialectId::BigQuery
    }
}

impl Dialect for Snowflake {
    open spec fn id(&self) -> DialectId {
        DialectId::Snowflake
    }

    fn dialect_id(&self) -> (r: DialectId) {
        DialectId::Snowflake
    }
}

impl Dialect for DuckDb {
    open spec fn id(&self) -> DialectId {
        DialectId::DuckDb
    }

    fn dialect_id(&self) -> (r: DialectId) {
        DialectId::DuckDb
    }
}

/// The dialect that a command-line name selects.
pub open spec fn spec_dialect_from_name(name: Seq<char>) -> Option<DialectId> {
    if name == "tsql"@ {
        Some(DialectId::TSql)
    } else if name == "postgres"@ {
        Some(DialectId::Postgres)
    } else if name == "bigquery"@ {
        Some(DialectId::BigQuery)
    } else if name == "snowflake"@ {
        Some(DialectId::Snowflake)
    } else if name == "duckdb"@ {
        Some(DialectId::DuckDb)
    } else {
        None
    }
}

/// Create a dialect from its name.
pub fn dialect_from_name(name: &str) -> (r: Option<DialectId>)
    ensures
        r == spec_dialect_from_name(name@),
{
    if str_eq(name, "tsql") {
        Some(DialectId::TSql)
    } else if str_eq(name, "postgres") {
        Some(DialectId::Postgres)
    } else if str_eq(name, "bigquery") {
        Some(DialectId::BigQuery)
    } else if str_eq(name, "snowflake") {
        Some(DialectId::Snowflake)
    } else if str_eq(name, "duckdb") {
        Some(DialectId::DuckDb)
    } else {
        None
    }
}

/// Every dialect name round-trips: the dialect a dialect's own name selects is that dialect.
pub proof fn law_dialect_names_round_trip(d: DialectId)
    ensures
        spec_dialect_from_name(spec_dialect_name(d)) == Some(d),
{
    reveal_strlit("tsql");
    reveal_strlit("postgres");
    reveal_strlit("bigquery");
    reveal_strlit("snowflake");
    reveal_strlit("duckdb");
    assert("postgres"@[0] != "tsql"@[0]);
    assert("bigquery"@[0] != "tsql"@[0] && "bigquery"@[0] != "postgres"@[0]);
    assert("snowflake"@[0] != "tsql"@[0] && "snowflake"@[0] != "postgres"@[0]
        && "snowflake"@[0] != "bigquery"@[0]);
    assert("duckdb"@[0] != "tsql"@[0] && "duckdb"@[0] != "postgres"@[0]
        && "duckdb"@[0] != "bigquery"@[0] && "duckdb"@[0] != "snowflake"@[0]);
}

} // verus!
