//! Command-line arguments and their validation.
use vstd::prelude::*;
use crate::context::OnError;
use crate::text::{owned, str_eq};

verus! {

/// m2sql — M Code to SQL CLI Translator.
///
/// Translates Power Query M code into equivalent SQL queries.
pub struct Cli {
    /// Input files (.pq, .m, or .tmdl). Reads from stdin if omitted.
    pub input: Vec<String>,
    /// Target SQL dialect [tsql|postgres|bigquery|snowflake|duckdb].
    pub dialect: String,
    /// Directory where .sql files are written. Created if absent.
    pub output_dir: String,
    /// Behaviour on untranslatable expression [fail|comment|warn].
    pub on_error: String,
    /// Print all SQL to stdout instead of writing files.
    pub stdout: bool,
    /// Name for the query when reading from stdin.
    pub query_name: String,
    /// Inline CTE bindings referenced exactly once.
    pub inline_singles: bool,
    /// Emit diagnostics as newline-delimited JSON to stderr.
    pub log_json: bool,
    /// Disable ANSI colour in terminal output.
    pub no_color: bool,
}

/// The error mode an `--on-error` value names.
pub open spec fn on_error_of(name: Seq<char>) -> Option<OnError> {
    if name == "fail"@ {
        Some(OnError::Fail)
    } else if name == "comment"@ {
        Some(OnError::Comment)
    } else if name == "warn"@ {
        Some(OnError::Warn)
    } else {
        None
    }
}

/// The message for an unknown `--on-error` value.
pub open spec fn on_error_message(name: Seq<char>) -> Seq<char> {
    "Invalid --on-error value: '"@ + name + "'. Expected: fail, comment, warn"@
}

/// Whether a `--dialect` value names a dialect.
pub open spec fn known_dialect(name: Seq<char>) -> bool {
    name == "tsql"@ || name == "postgres"@ || name == "bigquery"@ || name == "snowflake"@ || name == "duckdb"@
}

/// The message for an unknown `--dialect` value.
pub open spec fn dialect_message(name: Seq<char>) -> Seq<char> {
    "Invalid --dialect value: '"@ + name + "'. Expected: tsql, postgres, bigquery, snowflake, duckdb"@
}

impl Cli {
    /// Parse the on-error mode.
    pub fn on_error_mode(&self) -> (r: Result<OnError, String>)
        ensures
            match r {
                Ok(mode) => on_error_of(self.on_error@) == Some(mode),
                Err(m) => on_error_of(self.on_error@) is None && m@ == on_error_message(self.on_error@),
            },
    {
        let name = self.on_error.as_str();
        if str_eq(name, "fail") {
            Ok(OnError::Fail)
        } else if str_eq(name, "comment") {
            Ok(OnError::Comment)
        } else if str_eq(name, "warn") {
            Ok(OnError::Warn)
        } else {
            let mut m = owned("Invalid --on-error value: '");
            m.append(name);
            m.append("'. Expected: fail, comment, warn");
            Err(m)
        }
    }

    /// Validate the dialect name.
    pub fn validate_dialect(&self) -> (r: Result<(), String>)
        ensures
            match r {
                Ok(()) => known_dialect(self.dialect@),
                Err(m) => !known_dialect(self.dialect@) && m@ == dialect_message(self.dialect@),
            },
    {
        let name = self.dialect.as_str();
        if str_eq(name, "tsql") || str_eq(name, "postgres") || str_eq(name, "bigquery") || str_eq(name, "snowflake")
            || str_eq(name, "duckdb") {
            Ok(())
        } else {
            let mut m = owned("Invalid --dialect value: '");
            m.append(name);
            m.append("'. Expected: tsql, postgres, bigquery, snowflake, duckdb");
            Err(m)
        }
    }
}

/// Whether the queries of one input are written out: not when its translation reported an
/// error in the `fail` mode; inputs without errors are always written.
pub fn queries_written(on_error: OnError, has_errors: bool) -> (w: bool)
    ensures
        w == !(has_errors && on_error == OnError::Fail),
{
    !(has_errors && on_error == OnError::Fail)
}

/// The exit status after every input was processed: 1 when a translation error occurred in
/// the `fail` mode, 0 otherwise.
pub fn exit_code(any_errors: bool, on_error: OnError) -> (c: i32)
    ensures
        c == (if any_errors && on_error == OnError::Fail { 1i32 } else { 0i32 }),
{
    if any_errors && on_error == OnError::Fail {
        1
    } else {
        0
    }
}

} // verus!
