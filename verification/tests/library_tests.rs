use m2sql::sql::{SqlBinOp, SqlExpr};
use m2sql::writer::write_expr;
use m2sql::ast::MType;
use m2sql::cast::{is_unsupported, resolve_m_type};
use m2sql::grammar::{string_to_type, type_to_string, Parser};
use m2sql::lexer::{tokenize, Token};
use m2sql::cli::Cli;
use m2sql::context::OnError;
use m2sql::cte::sanitize_cte_name;
use m2sql::dialect::{dialect_from_name, Dialect, DialectId};
use m2sql::error::{CredentialRedactor, DiagLevel, M2SqlError};
use m2sql::pipeline::{
    check_path_traversal, file_stem_from_path, process_source, sanitize_filename, ProcessResult,
};
use m2sql::report::{error_json, summary_json, summary_message, OutputNames};

fn process(source: &str, file: &str, stem: &str, dialect: DialectId, mode: OnError, inline: bool) -> ProcessResult {
    process_source(source, file, stem, dialect, mode, inline, &Vec::new()).unwrap()
}

fn cli(dialect: &str, on_error: &str) -> Cli {
    Cli {
        input: Vec::new(),
        dialect: dialect.to_string(),
        output_dir: "./output".to_string(),
        on_error: on_error.to_string(),
        stdout: false,
        query_name: "query".to_string(),
        inline_singles: false,
        log_json: false,
        no_color: false,
    }
}

const ORDERS: &str = r#"let
    Source = Sql.Database("srv", "db"),
    Orders = Source{[Name="Orders"]}[Data],
    Big = Table.SelectRows(Orders, each [Amount] > 100)
in
    Big"#;

#[test]
fn readme_example_translates_to_cte_chain() {
    let src = "let\n  Source = Sql.Database(\"srv\", \"db\"),\n  T = Source{[Name=\"Orders\"]}[Data],\n  Filtered = Table.SelectRows(T, each [Amount] > 100)\nin Filtered";
    let r = process(src, "<stdin>", "query", DialectId::TSql, OnError::Warn, false);
    assert_eq!(r.queries.len(), 1);
    assert_eq!(
        r.queries[0].1,
        "WITH T AS (\n    SELECT *\n    FROM db.Orders\n),\nFiltered AS (\n    SELECT *\n    FROM T\n    WHERE Amount > 100\n)\nSELECT *\nFROM Filtered;"
    );
    assert!(r.diagnostics.is_empty());
    assert!(!r.has_errors);
    assert_eq!(r.params_detected, 0);
}

#[test]
fn inline_singles_inlines_single_use_ctes() {
    let without = process(ORDERS, "<stdin>", "query", DialectId::TSql, OnError::Warn, false);
    let with = process(ORDERS, "<stdin>", "query", DialectId::TSql, OnError::Warn, true);
    assert!(without.queries[0].1.contains("Orders AS ("));
    assert!(without.queries[0].1.contains("Big AS ("));
    assert!(!with.queries[0].1.contains("Orders AS ("));
    assert!(!with.queries[0].1.contains("Big AS ("));
    let sql = &with.queries[0].1;
    assert!(!sql.contains("WITH"));
    assert!(sql.starts_with("SELECT *\nFROM (SELECT *"));
    assert!(sql.contains(") AS Orders"));
    assert!(sql.contains("WHERE Amount > 100"));
    assert!(sql.ends_with(") AS Big;"));
}

#[test]
fn error_modes_decide_errors_and_warnings() {
    let src = "let Source = Sql.Database(\"srv\", \"db\"), T = Source{[Name=\"Orders\"]}[Data], P = Table.Pivot(T, {\"A\"}, \"B\", \"C\") in P";
    let comment = process(src, "f.pq", "f", DialectId::TSql, OnError::Comment, false);
    let warn = process(src, "f.pq", "f", DialectId::TSql, OnError::Warn, false);
    let fail = process(src, "f.pq", "f", DialectId::TSql, OnError::Fail, false);
    assert!(!comment.has_errors);
    assert!(comment.diagnostics.is_empty());
    assert!(!warn.has_errors);
    assert_eq!(warn.diagnostics.len(), 1);
    assert!(warn.diagnostics[0].level == DiagLevel::Warn);
    assert_eq!(warn.diagnostics[0].code, "UNTRANSLATABLE");
    assert_eq!(warn.diagnostics[0].message, "Table.Pivot is not in the v1 feature set");
    assert!(fail.has_errors);
    assert!(fail.diagnostics[0].level == DiagLevel::Error);
    assert!(comment.queries[0].1.contains("/* UNTRANSLATABLE: Table.Pivot("));
}

#[test]
fn section_emits_only_shared_members_in_order() {
    let src = "section S;\nshared B = let Source = Sql.Database(\"s\", \"db\"), T = Source{[Name=\"B\"]}[Data] in T;\nHidden = 1;\nshared A = let Source = Sql.Database(\"s\", \"db\"), T = Source{[Name=\"A\"]}[Data] in T;\n";
    let r = process(src, "s.pq", "s", DialectId::Postgres, OnError::Warn, false);
    let names: Vec<&str> = r.queries.iter().map(|(n, _)| n.as_str()).collect();
    assert_eq!(names, vec!["B", "A"]);
}

#[test]
fn tmdl_documents_are_processed_in_order() {
    let src = "table First\n\tpartition First = m\n\t\tsource = ```\n\t\t\tlet Source = Sql.Database(\"s\", \"db\"), T = Source{[Name=\"One\"]}[Data] in T\n\t\t\t```\ntable Second\n\tpartition Second = m\n\t\tsource = ```\n\t\t\tlet Source = Sql.Database(\"s\", \"db\"), T = Source{[Name=\"Two\"]}[Data] in T\n\t\t\t```\n";
    let r = process(src, "model.tmdl", "model", DialectId::TSql, OnError::Warn, false);
    assert_eq!(r.queries.len(), 2);
    assert_eq!(r.queries[0].0, "First");
    assert!(r.queries[0].1.contains("FROM db.One"));
    assert_eq!(r.queries[1].0, "Second");
    assert!(r.queries[1].1.contains("FROM db.Two"));
}

#[test]
fn parameters_are_sorted_unique_and_counted() {
    let src = "let Source = Sql.Database(srv, db), T = Source{[Name=\"Orders\"]}[Data], F = Table.SelectRows(T, each [A] = zeta and [B] = alpha and [C] = zeta) in F";
    let r = process(src, "p.pq", "p", DialectId::TSql, OnError::Comment, false);
    assert_eq!(r.params_detected, 4);
    let codes: Vec<String> = r.diagnostics.iter().map(|d| d.code.clone()).collect();
    assert_eq!(codes, vec!["PARAM_REFERENCE"; 4]);
    let named: Vec<String> = r.diagnostics.iter().map(|d| d.message.clone()).collect();
    assert_eq!(
        named[0],
        "Parameter reference: 'alpha' — replaced with /* PARAM: alpha */; substitute before running"
    );
    assert!(named[1].contains("'db'"));
    assert!(named[2].contains("'srv'"));
    assert!(named[3].contains("'zeta'"));
    let sql = &r.queries[0].1;
    assert!(sql.starts_with("-- ====="));
    let a = sql.find("--   alpha").unwrap();
    let d = sql.find("--   db").unwrap();
    let s = sql.find("--   srv").unwrap();
    let z = sql.find("--   zeta").unwrap();
    assert!(a < d && d < s && s < z);
    assert!(sql.contains("A = /* PARAM: zeta */"));
}

#[test]
fn input_file_stems_are_not_parameters() {
    let src = "let Source = Sql.Database(\"s\", \"db\"), T = Source{[Name=\"Orders\"]}[Data], C = Table.Combine({T, Customers}) in C";
    let stems = vec!["Customers".to_string()];
    let r = process_source(src, "o.pq", "o", DialectId::TSql, OnError::Fail, false, &stems).unwrap();
    assert_eq!(r.params_detected, 0);
    assert!(!r.has_errors);
    assert!(r.queries[0].1.contains("UNION ALL"));
    assert!(r.queries[0].1.contains("FROM Customers"));
}

#[test]
fn credentials_are_redacted_and_reported_by_key() {
    let src = "let Source = Sql.Database(\"srv\", \"db\"), T = Source{[Name=\"Orders\"]}[Data], F = Table.SelectRows(T, each [Conn] = \"Password=\\\"hunter2\\\"\") in F";
    let r = process(src, "c.pq", "c", DialectId::TSql, OnError::Warn, false);
    let sql = &r.queries[0].1;
    assert!(!sql.contains("hunter2"));
    assert!(sql.contains("/* REDACTED */"));
    assert!(sql.contains("/* SECURITY: credential redacted by m2sql */"));
    let security: Vec<_> = r.diagnostics.iter().filter(|d| d.level == DiagLevel::Security).collect();
    assert_eq!(security.len(), 1);
    assert_eq!(security[0].message, "key 'password' redacted");
    assert_eq!(security[0].code, "CREDENTIAL_REDACTED");
    assert!(!security[0].message.contains("hunter2"));
}

#[test]
fn redactor_leaves_text_without_credentials() {
    let (text, diags) = CredentialRedactor::redact("SELECT * FROM db.Orders", Some("f.pq"));
    assert_eq!(text, "SELECT * FROM db.Orders");
    assert!(diags.is_empty());
    let (red, diags) = CredentialRedactor::redact("Server=x;Pwd=abc;", None);
    assert_eq!(red, "Server=x;Pwd=***;");
    assert_eq!(diags.len(), 1);
    assert_eq!(CredentialRedactor::insert_security_comments("a\nb ***\nc"), "a\n/* SECURITY: credential redacted by m2sql */\nb ***\nc");
}

#[test]
fn parse_errors_carry_file_line_and_message() {
    let r = process_source("let \"a\\\"b\" = 1 in x", "bad.pq", "bad", DialectId::TSql, OnError::Warn, false, &Vec::new());
    match r {
        Err(M2SqlError::Parse { file, line, message }) => {
            assert_eq!(file, "bad.pq");
            assert_eq!(line, 1);
            assert_eq!(message, "Expected identifier, found StringLit(\"a\\\"b\")");
        }
        _ => panic!("expected a parse error"),
    }
}

#[test]
fn joins_without_keys_become_untranslatable_steps() {
    let bad = "let Source = Sql.Database(\"s\", \"db\"), A = Source{[Name=\"A\"]}[Data], B = Source{[Name=\"B\"]}[Data], J = Table.Join(A, {}, B, {}) in J";
    let warn = process(bad, "j.pq", "j", DialectId::TSql, OnError::Warn, false);
    assert!(!warn.has_errors);
    assert!(warn.queries[0].1.contains("/* UNTRANSLATABLE: Table.Join */"), "{}", warn.queries[0].1);
    assert_eq!(warn.diagnostics.len(), 1);
    assert_eq!(warn.diagnostics[0].code, "UNTRANSLATABLE");
    assert_eq!(warn.diagnostics[0].message, "requires at least one key column on each side");
    let fail = process(bad, "j.pq", "j", DialectId::TSql, OnError::Fail, false);
    assert!(fail.has_errors);
    let nested = "let Source = Sql.Database(\"s\", \"db\"), A = Source{[Name=\"A\"]}[Data], B = Source{[Name=\"B\"]}[Data], J = Table.NestedJoin(A, {}, B, {\"K\"}, \"N\") in J";
    let r = process(nested, "j.pq", "j", DialectId::Postgres, OnError::Comment, false);
    assert!(r.queries[0].1.contains("/* UNTRANSLATABLE: Table.NestedJoin */"));
    let good = "let Source = Sql.Database(\"s\", \"db\"), A = Source{[Name=\"A\"]}[Data], B = Source{[Name=\"B\"]}[Data], J = Table.Join(A, \"K\", B, \"K\") in J";
    let g = process(good, "j.pq", "j", DialectId::TSql, OnError::Warn, false);
    assert!(g.queries[0].1.contains("ON A.K = B.K"), "{}", g.queries[0].1);
}

#[test]
fn non_let_expression_is_one_result_binding() {
    let r = process("Sql.Database(\"srv\", \"db\"){[Name=\"Orders\"]}[Data]", "e.pq", "e", DialectId::TSql, OnError::Warn, false);
    assert_eq!(r.queries[0].1, "WITH Result AS (\n    SELECT *\n    FROM db.Orders\n)\nSELECT *\nFROM Result;");
}

#[test]
fn cte_names_are_sanitized() {
    assert_eq!(sanitize_cte_name("Filtered Rows"), "Filtered_Rows");
    assert_eq!(sanitize_cte_name("2024 sales"), "_2024_sales");
    assert_eq!(sanitize_cte_name(""), "cte");
    assert_eq!(sanitize_cte_name("#\"x-y\""), "__x_y_");
    assert_eq!(sanitize_cte_name("Ärger"), "_rger");
    assert_eq!(sanitize_cte_name("Città"), "Citt_");
    assert_eq!(sanitize_cte_name(&sanitize_cte_name("Città")), "Citt_");
    assert_eq!(sanitize_cte_name("a\u{2014}b"), "a_b");
    let quoted = "let #\"Step 1\" = Sql.Database(\"s\", \"db\"){[Name=\"T\"]}[Data] in #\"Step 1\"";
    let r = process(quoted, "q.pq", "q", DialectId::TSql, OnError::Warn, false);
    assert!(r.queries[0].1.contains("Step_1 AS ("));
    assert!(r.queries[0].1.ends_with("FROM Step_1;"));
}

#[test]
fn file_names_are_sanitized() {
    assert_eq!(sanitize_filename("a/b\\c:d*e?f\"g<h>i|j"), "a_b_c_d_e_f_g_h_i_j");
    assert_eq!(sanitize_filename("plain name.v2"), "plain name.v2");
    let once = sanitize_filename("../../etc/passwd");
    assert_eq!(once, ".._.._etc_passwd");
    assert_eq!(sanitize_filename(&once), once);
}

#[test]
fn file_stems_follow_path_rules() {
    assert_eq!(file_stem_from_path("tests/fixtures/orders.pq"), "orders");
    assert_eq!(file_stem_from_path("model.v2.tmdl"), "model.v2");
    assert_eq!(file_stem_from_path(".hidden"), ".hidden");
    assert_eq!(file_stem_from_path("dir/name."), "name");
    assert_eq!(file_stem_from_path("dir/noext"), "noext");
    assert_eq!(file_stem_from_path("dir/sub/"), "sub");
    assert_eq!(file_stem_from_path("a/./"), "a");
    assert_eq!(file_stem_from_path("a/.."), "query");
    assert_eq!(file_stem_from_path("/"), "query");
    assert_eq!(file_stem_from_path(""), "query");
}

#[test]
fn output_paths_stay_in_the_output_directory() {
    assert_eq!(check_path_traversal("out", "Orders", "/w/out", "/w/out").unwrap(), "out/Orders.sql");
    assert_eq!(check_path_traversal("out/", "a/b", "/w/out", "/w/out").unwrap(), "out/a_b.sql");
    assert_eq!(check_path_traversal("", "x", "/w", "/w").unwrap(), "x.sql");
    assert_eq!(check_path_traversal("/", "x", "/", "/").unwrap(), "/x.sql");
    assert_eq!(check_path_traversal("o", "x", "/w/o", "/w/o/sub").unwrap(), "o/x.sql");
    match check_path_traversal("o", "evil", "/w/o", "/w/other") {
        Err(M2SqlError::PathTraversal(n)) => assert_eq!(n, "evil"),
        _ => panic!("expected a path traversal error"),
    }
    assert!(check_path_traversal("o", "x", "/w/o", "/w/ox").is_err());
}

#[test]
fn output_names_are_numbered_when_repeated() {
    let mut names = OutputNames::new();
    assert_eq!(names.next_name("Orders"), "Orders");
    assert_eq!(names.next_name("Customers"), "Customers");
    assert_eq!(names.next_name("Orders"), "Orders_2");
    assert_eq!(names.next_name("Orders"), "Orders_3");
    assert_eq!(names.next_name("Customers"), "Customers_2");
}

#[test]
fn summary_lines_have_the_documented_format() {
    assert_eq!(summary_message(12, 0, 2, 0), "12 translated, 0 errors, 2 warnings");
    assert_eq!(summary_message(3, 0, 0, 2), "3 translated, 0 errors, 0 warnings, 2 parameters detected");
    assert_eq!(
        summary_json("12 translated, 0 errors, 2 warnings", 0, 1203),
        "{\"level\":\"info\",\"file\":null,\"line\":null,\"code\":\"SUMMARY\",\"message\":\"12 translated, 0 errors, 2 warnings\",\"duration_ms\":1203}"
    );
    assert_eq!(
        summary_json("m", 2, 812),
        "{\"level\":\"info\",\"file\":null,\"line\":null,\"code\":\"SUMMARY\",\"message\":\"m\",\"params_detected\":2,\"duration_ms\":812}"
    );
    assert_eq!(
        error_json("bad \"x\""),
        "{\"level\":\"error\",\"file\":null,\"line\":null,\"code\":\"ERROR\",\"message\":\"bad \\\"x\\\"\"}"
    );
}

#[test]
fn cli_values_are_validated() {
    assert!(cli("tsql", "fail").on_error_mode().unwrap() == OnError::Fail);
    assert!(cli("tsql", "comment").on_error_mode().unwrap() == OnError::Comment);
    assert!(cli("tsql", "warn").on_error_mode().unwrap() == OnError::Warn);
    assert_eq!(
        cli("tsql", "loud").on_error_mode().err().unwrap(),
        "Invalid --on-error value: 'loud'. Expected: fail, comment, warn"
    );
    for d in ["tsql", "postgres", "bigquery", "snowflake", "duckdb"] {
        assert!(cli(d, "warn").validate_dialect().is_ok());
    }
    assert_eq!(
        cli("oracle", "warn").validate_dialect().err().unwrap(),
        "Invalid --dialect value: 'oracle'. Expected: tsql, postgres, bigquery, snowflake, duckdb"
    );
}

#[test]
fn dialect_names_round_trip() {
    for d in [DialectId::TSql, DialectId::Postgres, DialectId::BigQuery, DialectId::Snowflake, DialectId::DuckDb] {
        assert!(dialect_from_name(d.name()) == Some(d));
    }
}

#[test]
fn error_messages_name_each_variant() {
    assert_eq!(M2SqlError::Io("disk".to_string()).message(), "IO error: disk");
    assert_eq!(
        M2SqlError::Parse { file: "f".to_string(), line: 3, message: "m".to_string() }.message(),
        "Parse error in f:3: m"
    );
    assert_eq!(
        M2SqlError::Translation { file: "f".to_string(), line: 4, message: "m".to_string(), fragment: None }.message(),
        "Translation error in f:4: m"
    );
    assert_eq!(M2SqlError::Cli("c".to_string()).message(), "CLI error: c");
    assert_eq!(M2SqlError::FileTooLarge("f".to_string(), 20).message(), "File too large: f (20 bytes, max 10 MB)");
    assert_eq!(M2SqlError::PathTraversal("p".to_string()).message(), "Path traversal detected: p");
}

#[test]
fn documents_of_a_file_do_not_share_state() {
    let one = "table A\n\tpartition A = m\n\t\tsource = ```\n\t\t\tlet Source = Sql.Database(\"s\", \"db\"), T = Source{[Name=\"A\"]}[Data], P = Table.Pivot(T) in P\n\t\t\t```\n";
    let two = "table B\n\tpartition B = m\n\t\tsource = ```\n\t\t\tlet Source = Sql.Database(\"s\", \"db\"), T = Source{[Name=\"B\"]}[Data] in T\n\t\t\t```\n";
    let both = format!("{}{}", one, two);
    let r1 = process(one, "m.tmdl", "m", DialectId::DuckDb, OnError::Fail, false);
    let r2 = process(two, "m.tmdl", "m", DialectId::DuckDb, OnError::Fail, false);
    let r = process(&both, "m.tmdl", "m", DialectId::DuckDb, OnError::Fail, false);
    assert_eq!(r.queries.len(), r1.queries.len() + r2.queries.len());
    assert_eq!(r.queries[0], r1.queries[0]);
    assert_eq!(r.queries[1], r2.queries[0]);
    assert_eq!(r.diagnostics.len(), r1.diagnostics.len() + r2.diagnostics.len());
    assert!(r.has_errors && r1.has_errors && !r2.has_errors);
}

#[test]
fn dialects_quote_cast_and_map_types() {
    assert_eq!(DialectId::TSql.quote_identifier("Order Date"), "[Order Date]");
    assert_eq!(DialectId::BigQuery.quote_identifier("x"), "`x`");
    assert_eq!(DialectId::Postgres.quote_identifier("x"), "\"x\"");
    assert_eq!(DialectId::Postgres.cast_syntax("a", "TEXT"), "a::TEXT");
    assert_eq!(DialectId::Snowflake.cast_syntax("a", "FLOAT"), "CAST(a AS FLOAT)");
    assert_eq!(DialectId::BigQuery.try_cast_syntax("a", "INT64"), Some("SAFE_CAST(a AS INT64)".to_string()));
    assert_eq!(DialectId::Postgres.try_cast_syntax("a", "INT"), None);
    assert_eq!(DialectId::DuckDb.map_type(&MType::Binary), "BLOB");
    assert_eq!(DialectId::TSql.map_type(&MType::Duration), "/* UNSUPPORTED_TYPE */");
}

#[test]
fn type_names_resolve() {
    assert_eq!(type_to_string(&resolve_m_type("  type number ")), "number");
    assert_eq!(type_to_string(&resolve_m_type("Int64.Type")), "integer");
    assert_eq!(type_to_string(&string_to_type("datetimezone")), "datetimezone");
    assert!(matches!(resolve_m_type("type mystery"), MType::Unknown(ref s) if s == "mystery"));
    assert!(is_unsupported(&MType::Duration, "tsql"));
    assert!(!is_unsupported(&MType::Duration, "postgres"));
    assert!(is_unsupported(&MType::Table, "duckdb"));
    assert!(!is_unsupported(&MType::Text, "bigquery"));
}

#[test]
fn tokens_and_parser_positions() {
    let tokens = tokenize("let\n  x = 1\nin x").unwrap();
    assert_eq!(tokens.len(), 7);
    assert!(matches!(tokens[0].token, Token::Let));
    assert_eq!(tokens[5].line, 3);
    assert!(matches!(tokens[6].token, Token::Eof));
    let err = tokenize("let x = \"open").err();
    assert!(err.is_none() || err.unwrap().describe().starts_with("Lex error at "));
    let mut parser = Parser::new(tokenize("1 + 2 )").unwrap());
    assert!(parser.parse_expr().is_ok());
    assert_eq!(parser.current_line(), 1);
}

#[test]
fn operands_keep_their_grouping() {
    let col = |n: &str| SqlExpr::Column { table: None, name: n.to_string() };
    let sum = SqlExpr::BinaryOp { op: SqlBinOp::Add, left: Box::new(col("a")), right: Box::new(col("b")) };
    let product = SqlExpr::BinaryOp { op: SqlBinOp::Mul, left: Box::new(sum), right: Box::new(col("c")) };
    assert_eq!(write_expr(&product, &DialectId::Postgres), "(a + b) * c");
    let diff = SqlExpr::BinaryOp { op: SqlBinOp::Sub, left: Box::new(col("b")), right: Box::new(col("c")) };
    let outer = SqlExpr::BinaryOp { op: SqlBinOp::Sub, left: Box::new(col("a")), right: Box::new(diff) };
    assert_eq!(write_expr(&outer, &DialectId::TSql), "a - (b - c)");
    let src = "let Source = Sql.Database(\"srv\", \"db\"), T = Source{[Name=\"O\"]}[Data], F = Table.SelectRows(T, each ([a] + [b]) * [c] > 10 and ([x] = 1 or [y] = 2)) in F";
    for d in [DialectId::TSql, DialectId::Postgres, DialectId::BigQuery, DialectId::Snowflake, DialectId::DuckDb] {
        let r = process(src, "g.pq", "g", d, OnError::Warn, false);
        assert!(r.queries[0].1.contains("WHERE (a + b) * c > 10 AND (x = 1 OR y = 2)"), "{}", r.queries[0].1);
    }
}

#[test]
fn colliding_cte_names_get_suffixes() {
    let src = "let Source = Sql.Database(\"srv\", \"db\"), #\"A B\" = Source{[Name=\"X\"]}[Data], A_B = Table.SelectRows(#\"A B\", each [v] > 1) in A_B";
    let r = process(src, "c.pq", "c", DialectId::Postgres, OnError::Warn, false);
    let sql = &r.queries[0].1;
    assert!(sql.starts_with("WITH A_B AS ("), "{}", sql);
    assert!(sql.contains(",\nA_B_2 AS ("), "{}", sql);
    assert!(sql.contains("    FROM A_B\n    WHERE v > 1\n)"), "{}", sql);
    assert!(sql.ends_with("SELECT *\nFROM A_B_2 AS A_B;"), "{}", sql);
}

#[test]
fn other_comparers_warn_and_use_like() {
    let ignore = "let Source = Sql.Database(\"srv\", \"db\"), T = Source{[Name=\"O\"]}[Data], F = Table.SelectRows(T, each Text.StartsWith([Name], \"ab\", Comparer.OrdinalIgnoreCase)) in F";
    let other = "let Source = Sql.Database(\"srv\", \"db\"), T = Source{[Name=\"O\"]}[Data], F = Table.SelectRows(T, each Text.StartsWith([Name], \"ab\", Comparer.FromCulture)) in F";
    let a = process(ignore, "t.pq", "t", DialectId::Postgres, OnError::Warn, false);
    let b = process(other, "t.pq", "t", DialectId::Postgres, OnError::Warn, false);
    assert!(a.queries[0].1.contains("Name ILIKE 'ab%'"));
    assert!(a.diagnostics.iter().all(|d| d.code != "UNSUPPORTED_COMPARER"));
    assert!(b.queries[0].1.contains("Name LIKE 'ab%'"));
    let warnings: Vec<_> = b.diagnostics.iter().filter(|d| d.code == "UNSUPPORTED_COMPARER").collect();
    assert_eq!(warnings.len(), 1);
    assert!(warnings[0].level == DiagLevel::Warn);
}

#[test]
fn json_escapes_control_characters() {
    assert_eq!(m2sql::error::escape_json("a\u{1}b\u{1f}c"), "a\\u0001b\\u001fc");
    assert_eq!(m2sql::error::escape_json("q\"\\\n"), "q\\\"\\\\\\n");
}

#[test]
fn fragments_are_cut_by_characters() {
    let short = "é".repeat(100);
    let long = "é".repeat(200);
    let src_short = format!("let Source = Sql.Database(\"srv\", \"db\"), T = Source{{[Name=\"O\"]}}[Data], P = Table.Pivot(T, \"{}\") in P", short);
    let src_long = format!("let Source = Sql.Database(\"srv\", \"db\"), T = Source{{[Name=\"O\"]}}[Data], P = Table.Pivot(T, \"{}\") in P", long);
    let a = process(&src_short, "u.pq", "u", DialectId::TSql, OnError::Warn, false);
    let b = process(&src_long, "u.pq", "u", DialectId::TSql, OnError::Warn, false);
    let fa = a.diagnostics[0].fragment.clone().unwrap();
    let fb = b.diagnostics[0].fragment.clone().unwrap();
    assert!(fa.ends_with("\")"), "{}", fa);
    assert!(fa.chars().count() <= 120);
    assert_eq!(fb.chars().count(), 120);
    assert!(fb.ends_with("..."));
}

#[test]
fn unquoted_passwords_are_redacted() {
    let (red, diags) = CredentialRedactor::redact("Server=x;Password=s3cret;Db=y", None);
    assert_eq!(red, "Server=x;Password=***;Db=y");
    assert_eq!(diags.len(), 1);
    assert_eq!(diags[0].message, "key 'password' redacted");
    let (red2, diags2) = CredentialRedactor::redact("[Password=\"s3cret\"];", None);
    assert_eq!(red2, "[Password=/* REDACTED */];");
    assert_eq!(diags2.len(), 1);
}

#[test]
fn cast_columns_keep_names_and_other_columns() {
    let src = "let Source = Sql.Database(\"srv\", \"db\"), Orders = Source{[Name=\"Orders\"]}[Data], Typed = Table.TransformColumnTypes(Orders, {{\"OrderID\", Int64.Type}, {\"Amount\", type number}}) in Typed";
    let duck = process(src, "o.pq", "o", DialectId::DuckDb, OnError::Warn, false);
    let sql = &duck.queries[0].1;
    assert!(sql.contains("SELECT * EXCEPT (OrderID, Amount), OrderID::BIGINT AS OrderID, Amount::DOUBLE AS Amount"), "{}", sql);
    let tsql = process(src, "o.pq", "o", DialectId::TSql, OnError::Warn, false);
    assert!(tsql.queries[0].1.contains("CAST(OrderID AS BIGINT) AS OrderID"));
    assert!(tsql.queries[0].1.contains("CAST(Amount AS FLOAT) AS Amount"));
    assert!(tsql.diagnostics.iter().any(|d| d.code == "UNKNOWN_COLUMNS" && d.level == DiagLevel::Warn));
}

#[test]
fn parameters_report_the_line_of_first_use() {
    let src = "let\nOrigine = Sql.Database(sql_server, sql_db),\nT = Table.SelectRows(Origine, each [ATTIVO] = flag_attivi)\nin T";
    let r = process(src, "D.pq", "D", DialectId::TSql, OnError::Warn, false);
    let found: Vec<(String, Option<usize>)> = r
        .diagnostics
        .iter()
        .filter(|d| d.code == "PARAM_REFERENCE")
        .map(|d| (d.message.clone(), d.line))
        .collect();
    assert_eq!(found.len(), 3);
    assert!(found[0].0.contains("'flag_attivi'") && found[0].1 == Some(3));
    assert!(found[1].0.contains("'sql_db'") && found[1].1 == Some(2));
    assert!(found[2].0.contains("'sql_server'") && found[2].1 == Some(2));
    assert!(r.queries[0].1.contains("flag_attivi  (used at: D.pq:3)"), "{}", r.queries[0].1);
    assert!(r.queries[0].1.contains("sql_db  (used at: D.pq:2)"));
}

#[test]
fn fail_mode_writes_nothing_for_errored_inputs_and_exits_one() {
    assert!(!m2sql::cli::queries_written(OnError::Fail, true));
    assert!(m2sql::cli::queries_written(OnError::Fail, false));
    assert!(m2sql::cli::queries_written(OnError::Warn, true));
    assert_eq!(m2sql::cli::exit_code(true, OnError::Fail), 1);
    assert_eq!(m2sql::cli::exit_code(true, OnError::Comment), 0);
    assert_eq!(m2sql::cli::exit_code(false, OnError::Fail), 0);
}

#[test]
fn detect_parameters_records_first_use_lines() {
    let src = "let\nOrigine = Sql.Database(sql_server, sql_db),\nT = Table.SelectRows(Origine, each [ATTIVO] = flag_attivi)\nin T";
    let doc = m2sql::parser::parse(src).unwrap();
    let expr = match doc {
        m2sql::ast::MDocument::Expression(e) => e,
        _ => panic!("expected an expression"),
    };
    let bindings = vec!["Origine".to_string(), "T".to_string()];
    let params = m2sql::resolver::detect_parameters(&expr, &bindings, &Vec::new(), "D.pq", src);
    let got: Vec<(String, String, String, usize)> = params
        .iter()
        .map(|(k, v)| (k.clone(), v.name.clone(), v.file.clone(), v.line))
        .collect();
    assert_eq!(
        got,
        vec![
            ("flag_attivi".to_string(), "flag_attivi".to_string(), "D.pq".to_string(), 3),
            ("sql_db".to_string(), "sql_db".to_string(), "D.pq".to_string(), 2),
            ("sql_server".to_string(), "sql_server".to_string(), "D.pq".to_string(), 2),
        ]
    );
}
