//! M type names to M types, and which types a dialect cannot express.
use vstd::prelude::*;
use crate::ast::{MType, MTypeV};
use crate::grammar::string_to_type;
use crate::syntax::type_of_name;
use crate::text::{chars_of, starts_with, str_eq, str_starts_with, string_of_range, trim, trim_text};

verus! {

/// The type name in a type expression: trimmed, without a leading `type `; without that
/// prefix, the expression trimmed.
pub open spec fn cleaned_type_name(s: Seq<char>) -> Seq<char> {
    if starts_with(trim(s), "type "@) {
        trim(trim(s).skip(5))
    } else {
        trim(s)
    }
}

/// Parse a type annotation from an M expression for use in CAST.
pub fn resolve_m_type(type_expr: &str) -> (t: MType)
    ensures
        t@ == type_of_name(cleaned_type_name(type_expr@)),
{
    let trimmed = trim_text(type_expr);
    if str_starts_with(trimmed.as_str(), "type ") {
        proof {
            reveal_strlit("type ");
        }
        let v = chars_of(trimmed.as_str());
        let rest = string_of_range(&v, 5, v.len());
        assert(v@.subrange(5, v@.len() as int) =~= trimmed@.skip(5));
        let cleaned = trim_text(rest.as_str());
        string_to_type(cleaned.as_str())
    } else {
        string_to_type(trimmed.as_str())
    }
}

/// Whether a type cannot be expressed in the named dialect.
pub open spec fn type_unsupported(t: MTypeV, dialect_name: Seq<char>) -> bool {
    match t {
        MTypeV::Duration => dialect_name == "tsql"@ || dialect_name == "bigquery"@ || dialect_name == "snowflake"@,
        MTypeV::Table => true,
        MTypeV::Unknown(_) => true,
        _ => false,
    }
}

/// Check if a type is unsupported for a given dialect.
pub fn is_unsupported(m_type: &MType, dialect_name: &str) -> (r: bool)
    ensures
        r == type_unsupported(m_type@, dialect_name@),
{
    match m_type {
        MType::Duration => str_eq(dialect_name, "tsql") || str_eq(dialect_name, "bigquery") || str_eq(
            dialect_name,
            "snowflake",
        ),
        MType::Table | MType::Unknown(_) => true,
        _ => false,
    }
}

} // verus!
