# m2sql

Translates Power Query M code (`.pq`, `.m`, and `.tmdl` partition sources) into SQL for
T-SQL, PostgreSQL, BigQuery, Snowflake and DuckDB. Each `let` step becomes a CTE; steps
that cannot be translated become commented placeholders with a diagnostic, handled as
the `--on-error` mode asks (`fail`, `comment` or `warn`).

## Layout

- `src/` — the library, verified with Verus. The lexer and parser are stated against
  spec-level grammars (`lexer.rs`, `syntax.rs`), the translator against a spec-level
  translation (`translation.rs`, `table_spec.rs`, `cte.rs`), and the SQL writer against
  a spec-level rendering (`writer.rs`, `sql.rs`). `pipeline.rs` ties a source text to the
  queries and diagnostics it produces; `laws.rs` states and proves the properties that
  hold across these functions (parameter reporting, independence of documents, error
  modes, file-name sanitising, CTE naming).
- `tests/` — scenario tests and tests of the public functions.
- `app/` — the command-line program: argument parsing, reading inputs, writing `.sql`
  files, printing summaries and diagnostics.

Calls into `indexmap` and `regex` go through small trusted wrappers whose contracts are
listed next to them in `src/`, as do the std calls that vstd does not specify:
`String::push` (`text::push_char`), `char::escape_debug` (`grammar::escape_debug_char`) and
the Unicode classes `char::is_alphabetic` and `char::is_numeric` (`text::unicode_is_*`).
`char::is_whitespace` is not trusted: its fixed set of 25 code points is stated and proved in
`text.rs`. `link.rs` links the steps of a `let` into the CTE chain: unique
CTE names, references pointed at them, and single-use steps inlined as subqueries.
