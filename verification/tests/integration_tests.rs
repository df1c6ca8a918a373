use m2sql::cli::{exit_code, queries_written, Cli};
use m2sql::context::OnError;
use m2sql::dialect::dialect_from_name;
use m2sql::error::DiagLevel;
use m2sql::pipeline::{check_path_traversal, file_stem_from_path, process_source, ProcessResult};
use m2sql::report::{summary_json, summary_message};

const SELECT_ROWS_SIMPLE: &str = r#"let
    Source = Sql.Database("localhost", "AdventureWorks"),
    Orders = Source{[Name="Orders"]}[Data],
    Filtered = Table.SelectRows(Orders, each [Amount] > 100),
    Selected = Table.SelectColumns(Filtered, {"OrderID", "Amount"})
in
    Selected"#;

const SELECT_ROWS_TEXT: &str = r#"let
    Source = Sql.Database("srv", "db"),
    Customers = Source{[Name="Customers"]}[Data],
    StartsA = Table.SelectRows(Customers, each Text.StartsWith([Name], "A")),
    EndsZ = Table.SelectRows(StartsA, each Text.EndsWith([Name], "z")),
    Special = Table.SelectRows(EndsZ, each Text.Contains([Notes], "special"))
in
    Special"#;

const SELECT_ROWS_LIST: &str = r#"let
    Source = Sql.Database("srv", "db"),
    Orders = Source{[Name="Orders"]}[Data],
    Open = Table.SelectRows(Orders, each List.Contains({"Active", "Pending"}, [Status]))
in
    Open"#;

const SELECT_COLS: &str = r#"let
    Source = Sql.Database("srv", "db"),
    Orders = Source{[Name="Orders"]}[Data],
    Cols = Table.SelectColumns(Orders, {"OrderID", "CustomerID", "Amount", "OrderDate"})
in
    Cols"#;

const RENAME_COLS: &str = r#"let
    Source = Sql.Database("srv", "db"),
    Customers = Source{[Name="Customers"]}[Data],
    Renamed = Table.RenameColumns(Customers, {{"CustomerNo", "CustomerID"}, {"Amt", "Amount"}})
in
    Renamed"#;

const JOIN_INNER: &str = r#"let
    Source = Sql.Database("srv", "db"),
    Orders = Source{[Name="Orders"]}[Data],
    Customers = Source{[Name="Customers"]}[Data],
    Joined = Table.Join(Orders, "CustomerID", Customers, "ID", JoinKind.Inner)
in
    Joined"#;

const JOIN_LEFT: &str = r#"let
    Source = Sql.Database("srv", "db"),
    Orders = Source{[Name="Orders"]}[Data],
    Customers = Source{[Name="Customers"]}[Data],
    Joined = Table.Join(Orders, "CustomerID", Customers, "ID", JoinKind.Left)
in
    Joined"#;

const JOIN_ANTI: &str = r#"let
    Source = Sql.Database("srv", "db"),
    Orders = Source{[Name="Orders"]}[Data],
    Customers = Source{[Name="Customers"]}[Data],
    NoCustomer = Table.Join(Orders, "CustomerID", Customers, "ID", JoinKind.LeftAnti)
in
    NoCustomer"#;

const JOIN_COMPOSITE: &str = r#"let
    Source = Sql.Database("srv", "db"),
    Sales = Source{[Name="Sales"]}[Data],
    Products = Source{[Name="Products"]}[Data],
    Joined = Table.Join(Sales, {"ProductID", "RegionID"}, Products, {"ID", "Region"}, JoinKind.Inner)
in
    Joined"#;

const NESTED_JOIN: &str = r#"let
    Source = Sql.Database("srv", "db"),
    Orders = Source{[Name="Orders"]}[Data],
    Customers = Source{[Name="Customers"]}[Data],
    Joined = Table.NestedJoin(Orders, {"CustomerID"}, Customers, {"ID"}, "Cust", JoinKind.Left),
    Expanded = Table.ExpandTableColumn(Joined, "Cust", {"Name", "Email"}, {"CustName", "CustEmail"})
in
    Expanded"#;

const GROUP_BASIC: &str = r#"let
    Source = Sql.Database("srv", "db"),
    Orders = Source{[Name="Orders"]}[Data],
    Grouped = Table.Group(Orders, {"CustomerID"}, {{"TotalAmount", each List.Sum([Amount]), type number}, {"OrderCount", each Table.RowCount(_), Int64.Type}})
in
    Grouped"#;

const GROUP_MULTI: &str = r#"let
    Source = Sql.Database("srv", "db"),
    Sales = Source{[Name="Sales"]}[Data],
    Grouped = Table.Group(Sales, {"Region", "Category"}, {{"TotalSales", each List.Sum([Amount]), type number}, {"AvgPrice", each List.Average([Price]), type number}, {"UniqueProducts", each List.CountDistinct([ProductID]), Int64.Type}})
in
    Grouped"#;

const ADD_COLUMN: &str = r#"let
    Source = Sql.Database("srv", "db"),
    Lines = Source{[Name="OrderLines"]}[Data],
    WithTotal = Table.AddColumn(Lines, "Total", each [Quantity] * [UnitPrice], type number)
in
    WithTotal"#;

const CAST_TYPES: &str = r#"let
    Source = Sql.Database("srv", "db"),
    Orders = Source{[Name="Orders"]}[Data],
    Typed = Table.TransformColumnTypes(Orders, {{"OrderID", Int64.Type}, {"Amount", type number}, {"OrderDate", type date}, {"IsActive", type logical}, {"Notes", type text}})
in
    Typed"#;

const MULTI_STEP: &str = r#"let
    Source = Sql.Database("srv", "AdventureWorks"),
    RawOrders = Source{[Name="Orders"]}[Data],
    Filtered = Table.SelectRows(RawOrders, each [Amount] > 100),
    Result = Table.SelectColumns(Filtered, {"OrderID", "Amount"})
in
    Result"#;

const SECTION_SYNTAX: &str = r#"section Section1;

shared Orders = let
    Source = Sql.Database("srv", "db"),
    T = Source{[Name="Orders"]}[Data]
in
    T;

shared Customers = let
    Source = Sql.Database("srv", "db"),
    T = Source{[Name="Customers"]}[Data]
in
    T;
"#;

const TMDL_TABLE: &str = "table Sales\n\tlineageTag: 1\n\n\tpartition Sales = m\n\t\tmode: import\n\t\tsource = ```\n\t\t\t\tlet\n\t\t\t\t    Source = Sql.Database(\"srv\", \"db\"),\n\t\t\t\t    Sales = Source{[Name=\"Sales\"]}[Data]\n\t\t\t\tin\n\t\t\t\t    Sales\n\t\t\t\t```\n";

const TMDL_INDENT: &str = "table D_Agenti\n\tlineageTag: 2\n\n\tpartition D_Agenti = m\n\t\tmode: import\n\t\tsource =\n\t\t\t\tlet\n\t\t\t\t    Source = Sql.Database(\"srv\", \"db\"),\n\t\t\t\t    Agenti = Source{[Schema=\"dbo\",Item=\"V_PBI_ANAG_AGENTI\"]}[Data]\n\t\t\t\tin\n\t\t\t\t    Agenti\n\n\tannotation PBI_ResultType = Table\n";

const UNTRANSLATABLE: &str = r#"let
    Source = Sql.Database("srv", "db"),
    Orders = Source{[Name="Orders"]}[Data],
    Pivoted = Table.Pivot(Orders, {"A", "B"}, "Attribute", "Value")
in
    Pivoted"#;

const REMOVE_COLS: &str = r#"let
    Source = Sql.Database("srv", "db"),
    Orders = Source{[Name="Orders"]}[Data],
    Trimmed = Table.RemoveColumns(Orders, {"InternalCode", "AuditTimestamp"})
in
    Trimmed"#;

const COMBINE_TABLES: &str = r#"let
    Source = Sql.Database("srv", "db"),
    Orders = Source{[Name="Orders"]}[Data],
    Returns = Source{[Name="Returns"]}[Data],
    Combined = Table.Combine({Orders, Returns})
in
    Combined"#;

const REPLACE_ERROR_VALUES: &str = r#"let
    Source = Sql.Database("srv", "db"),
    Raw = Source{[Name="Sales"]}[Data],
    Typed = Table.TransformColumnTypes(Raw, {{"Amount", type number}, {"Qty", Int64.Type}}),
    Safe = Table.ReplaceErrorValues(Typed, {{"Amount", 0}, {"Qty", 0}})
in
    Safe"#;

const PQ_PARAMETERS: &str = r#"let
    Source = Sql.Database(sql_server, sql_db),
    Anagrafica = Source{[Schema="dbo",Item="ANAGRAFICA"]}[Data],
    Filtered = Table.SelectRows(Anagrafica, each [Attivo] = flag_attivi),
    Trimmed = Table.RemoveColumns(Filtered, {"InternalCode"})
in
    Trimmed"#;

const STDIN_ORDERS: &str = "let Source = Sql.Database(\"srv\", \"db\"), T = Source{[Name=\"Orders\"]}[Data] in T";

/// What a run prints: the queries on stdout and the diagnostics and the summary on stderr.
struct Run {
    stdout: String,
    stderr: String,
    result: ProcessResult,
}

fn on_error_named(mode: &str) -> OnError {
    match mode {
        "fail" => OnError::Fail,
        "comment" => OnError::Comment,
        _ => OnError::Warn,
    }
}

fn run_source(source: &str, file_name: &str, stem: &str, dialect: &str, mode: &str, json: bool) -> Run {
    let d = dialect_from_name(dialect).unwrap();
    let result = process_source(source, file_name, stem, d, on_error_named(mode), false, &Vec::new()).unwrap();
    let mut stdout = String::new();
    for (name, sql) in &result.queries {
        stdout.push_str(&format!("-- [query: {}]\n{}\n", name, sql));
    }
    let mut stderr = String::new();
    let mut errors = 0usize;
    let mut warnings = 0usize;
    for d in &result.diagnostics {
        let line = if json { d.to_json() } else { d.to_plain_text() };
        stderr.push_str(&line);
        stderr.push('\n');
        match d.level {
            DiagLevel::Error => errors += 1,
            DiagLevel::Warn | DiagLevel::Security => warnings += 1,
            _ => {}
        }
    }
    let message = summary_message(result.queries.len(), errors, warnings, result.params_detected);
    if json {
        stderr.push_str(&summary_json(&message, result.params_detected, 0));
    } else {
        stderr.push_str(&format!("m2sql: {}", message));
    }
    stderr.push('\n');
    Run { stdout, stderr, result }
}

fn run_fixture(fixture: &str, text: &str, dialect: &str) -> Run {
    let path = format!("tests/fixtures/{}", fixture);
    let stem = file_stem_from_path(&path);
    run_source(text, &path, &stem, dialect, "warn", false)
}

fn test_fixture(fixture: &str, text: &str, dialect: &str, expected_contains: &[&str]) {
    let run = run_fixture(fixture, text, dialect);
    assert!(!run.result.has_errors);
    for expected in expected_contains {
        assert!(
            run.stdout.contains(expected),
            "Expected output to contain '{}' for fixture {} dialect {}, got:\n{}",
            expected,
            fixture,
            dialect,
            run.stdout
        );
    }
}

fn cli_with(dialect: &str, on_error: &str) -> Cli {
    Cli {
        input: Vec::new(),
        dialect: dialect.to_string(),
        output_dir: "./output".to_string(),
        on_error: on_error.to_string(),
        stdout: true,
        query_name: "query".to_string(),
        inline_singles: false,
        log_json: false,
        no_color: false,
    }
}

#[test]
fn test_bad_dialect() {
    let cli = cli_with("oracle", "warn");
    assert!(cli.validate_dialect().is_err());
    assert!(dialect_from_name("oracle").is_none());
}

#[test]
fn test_select_rows_simple_tsql() {
    test_fixture(
        "select_rows_simple.pq",
        SELECT_ROWS_SIMPLE,
        "tsql",
        &["WHERE Amount > 100", "SELECT OrderID, Amount", "FROM AdventureWorks.Orders"],
    );
}

#[test]
fn test_select_rows_simple_postgres() {
    test_fixture("select_rows_simple.pq", SELECT_ROWS_SIMPLE, "postgres", &["WHERE Amount > 100", "SELECT OrderID, Amount"]);
}

#[test]
fn test_select_rows_text_tsql() {
    test_fixture("select_rows_text.pq", SELECT_ROWS_TEXT, "tsql", &["LIKE 'A%'", "LIKE '%z'", "LIKE '%special%'"]);
}

#[test]
fn test_select_rows_list() {
    test_fixture("select_rows_list.pq", SELECT_ROWS_LIST, "tsql", &["IN ('Active', 'Pending')"]);
}

#[test]
fn test_select_cols() {
    test_fixture("select_cols.pq", SELECT_COLS, "tsql", &["OrderID", "CustomerID", "Amount", "OrderDate"]);
}

#[test]
fn test_rename_cols() {
    test_fixture("rename_cols.pq", RENAME_COLS, "tsql", &["CustomerNo AS CustomerID", "Amt AS Amount"]);
}

#[test]
fn test_join_inner() {
    test_fixture("join_inner.pq", JOIN_INNER, "tsql", &["INNER JOIN", "ON Orders.CustomerID = Customers.ID"]);
}

#[test]
fn test_join_left() {
    test_fixture("join_left.pq", JOIN_LEFT, "tsql", &["LEFT JOIN"]);
}

#[test]
fn test_join_anti() {
    test_fixture("join_anti.pq", JOIN_ANTI, "tsql", &["LEFT JOIN", "IS NULL"]);
}

#[test]
fn test_join_composite() {
    test_fixture(
        "join_composite.pq",
        JOIN_COMPOSITE,
        "tsql",
        &["Sales.ProductID = Products.ID", "Sales.RegionID = Products.Region"],
    );
}

#[test]
fn test_nested_join() {
    test_fixture(
        "nested_join.pq",
        NESTED_JOIN,
        "tsql",
        &[
            "LEFT JOIN Customers ON Orders.CustomerID = Customers.ID",
            "Customers.Name AS CustName",
            "Customers.Email AS CustEmail",
            "Orders.*",
        ],
    );
}

#[test]
fn test_group_basic() {
    test_fixture(
        "group_basic.pq",
        GROUP_BASIC,
        "tsql",
        &["GROUP BY CustomerID", "SUM(Amount) AS TotalAmount", "COUNT(*) AS OrderCount"],
    );
}

#[test]
fn test_group_multi() {
    test_fixture(
        "group_multi.pq",
        GROUP_MULTI,
        "tsql",
        &[
            "GROUP BY Region, Category",
            "SUM(Amount) AS TotalSales",
            "AVG(Price) AS AvgPrice",
            "COUNT(DISTINCT ProductID) AS UniqueProducts",
        ],
    );
}

#[test]
fn test_add_column() {
    test_fixture("add_column.pq", ADD_COLUMN, "tsql", &["AS Total", "Quantity * UnitPrice"]);
}

#[test]
fn test_cast_types_tsql() {
    test_fixture(
        "cast_types.pq",
        CAST_TYPES,
        "tsql",
        &[
            "CAST(OrderID AS BIGINT)",
            "CAST(Amount AS FLOAT)",
            "CAST(OrderDate AS DATE)",
            "CAST(IsActive AS BIT)",
            "CAST(Notes AS NVARCHAR(MAX))",
        ],
    );
}

#[test]
fn test_cast_types_postgres() {
    test_fixture(
        "cast_types.pq",
        CAST_TYPES,
        "postgres",
        &["OrderID::BIGINT", "Amount::DOUBLE PRECISION", "OrderDate::DATE", "IsActive::BOOLEAN", "Notes::TEXT"],
    );
}

#[test]
fn test_cast_types_bigquery() {
    test_fixture(
        "cast_types.pq",
        CAST_TYPES,
        "bigquery",
        &["CAST(OrderID AS INT64)", "CAST(Amount AS FLOAT64)", "CAST(IsActive AS BOOL)", "CAST(Notes AS STRING)"],
    );
}

#[test]
fn test_multi_step() {
    test_fixture(
        "multi_step.pq",
        MULTI_STEP,
        "tsql",
        &["WITH RawOrders", "FROM AdventureWorks.Orders", "WHERE Amount > 100", "SELECT OrderID, Amount"],
    );
}

#[test]
fn test_section_syntax() {
    let run = run_fixture("section_syntax.pq", SECTION_SYNTAX, "tsql");
    assert!(run.stdout.contains("-- [query: Orders]"), "Should contain Orders query");
    assert!(run.stdout.contains("-- [query: Customers]"), "Should contain Customers query");
    assert!(run.stdout.contains("FROM db.Orders"), "Should reference Orders table");
    assert!(run.stdout.contains("FROM db.Customers"), "Should reference Customers table");
}

#[test]
fn test_tmdl_table() {
    test_fixture("tmdl_table.tmdl", TMDL_TABLE, "tsql", &["-- [query: Sales]", "FROM db.Sales"]);
}

#[test]
fn test_tmdl_indent_based() {
    test_fixture("tmdl_indent.tmdl", TMDL_INDENT, "tsql", &["-- [query: D_Agenti]", "dbo.V_PBI_ANAG_AGENTI"]);
}

#[test]
fn test_on_error_warn() {
    let run = run_source(UNTRANSLATABLE, "tests/fixtures/untranslatable.pq", "untranslatable", "tsql", "warn", false);
    assert!(run.stdout.contains("UNTRANSLATABLE"), "SQL should contain UNTRANSLATABLE comment");
    assert!(run.stderr.contains("WARN"), "stderr should contain warning");
}

#[test]
fn test_on_error_comment() {
    let run = run_source(UNTRANSLATABLE, "tests/fixtures/untranslatable.pq", "untranslatable", "tsql", "comment", false);
    assert!(run.stdout.contains("UNTRANSLATABLE"), "SQL should contain UNTRANSLATABLE comment");
    assert!(!run.result.has_errors);
}

#[test]
fn test_on_error_fail() {
    let run = run_source(UNTRANSLATABLE, "tests/fixtures/untranslatable.pq", "untranslatable", "tsql", "fail", false);
    assert!(run.result.has_errors);
    assert!(!queries_written(OnError::Fail, run.result.has_errors));
    assert_eq!(exit_code(run.result.has_errors, OnError::Fail), 1);
}

#[test]
fn test_stdin_query() {
    let run = run_source(STDIN_ORDERS, "<stdin>", "MyQuery", "tsql", "warn", false);
    assert!(run.stdout.contains("-- [query: MyQuery]"));
    assert!(run.stdout.contains("FROM db.Orders"));
}

#[test]
fn test_stdin_default_query_name() {
    let cli = cli_with("tsql", "warn");
    let run = run_source(STDIN_ORDERS, "<stdin>", &cli.query_name, "tsql", "warn", false);
    assert!(run.stdout.contains("-- [query: query]"));
}

#[test]
fn test_log_json() {
    let run = run_source(UNTRANSLATABLE, "tests/fixtures/untranslatable.pq", "untranslatable", "tsql", "warn", true);
    assert!(run.stderr.contains("\"level\""), "JSON log should contain level field");
    assert!(run.stderr.contains("\"code\""), "JSON log should contain code field");
    assert!(run.stderr.contains("SUMMARY"), "JSON log should contain summary");
}

#[test]
fn test_all_dialects_select_rows() {
    for dialect in &["tsql", "postgres", "bigquery", "snowflake", "duckdb"] {
        test_fixture("select_rows_simple.pq", SELECT_ROWS_SIMPLE, dialect, &["WHERE Amount > 100"]);
    }
}

#[test]
fn test_all_dialects_join() {
    for dialect in &["tsql", "postgres", "bigquery", "snowflake", "duckdb"] {
        test_fixture("join_inner.pq", JOIN_INNER, dialect, &["INNER JOIN"]);
    }
}

#[test]
fn test_all_dialects_group() {
    for dialect in &["tsql", "postgres", "bigquery", "snowflake", "duckdb"] {
        test_fixture("group_basic.pq", GROUP_BASIC, dialect, &["GROUP BY", "SUM", "COUNT"]);
    }
}

#[test]
fn test_determinism() {
    let mut outputs = Vec::new();
    for _ in 0..10 {
        outputs.push(run_fixture("multi_step.pq", MULTI_STEP, "tsql").stdout);
    }
    for i in 1..outputs.len() {
        assert_eq!(outputs[0], outputs[i], "Output should be deterministic across runs");
    }
}

#[test]
fn test_output_files() {
    let run = run_fixture("select_rows_simple.pq", SELECT_ROWS_SIMPLE, "tsql");
    assert_eq!(run.result.queries.len(), 1);
    let path = check_path_traversal("out", &run.result.queries[0].0, "/tmp/out", "/tmp/out").unwrap();
    assert!(path.ends_with("select_rows_simple.sql"), "Output file should be created");
}

#[test]
fn test_section_output_files() {
    let run = run_fixture("section_syntax.pq", SECTION_SYNTAX, "tsql");
    let names: Vec<String> = run
        .result
        .queries
        .iter()
        .map(|(name, _)| check_path_traversal("out", name, "/tmp/out", "/tmp/out").unwrap())
        .collect();
    assert!(names.contains(&"out/Orders.sql".to_string()), "Orders.sql should be created");
    assert!(names.contains(&"out/Customers.sql".to_string()), "Customers.sql should be created");
}

#[test]
fn test_remove_cols_bigquery() {
    test_fixture("remove_cols.pq", REMOVE_COLS, "bigquery", &["* EXCEPT (InternalCode, AuditTimestamp)"]);
}

#[test]
fn test_remove_cols_duckdb() {
    test_fixture("remove_cols.pq", REMOVE_COLS, "duckdb", &["* EXCEPT (InternalCode, AuditTimestamp)"]);
}

#[test]
fn test_remove_cols_tsql_fallback() {
    test_fixture("remove_cols.pq", REMOVE_COLS, "tsql", &["UNTRANSLATABLE"]);
}

#[test]
fn test_remove_cols_postgres_fallback() {
    test_fixture("remove_cols.pq", REMOVE_COLS, "postgres", &["UNTRANSLATABLE"]);
}

#[test]
fn test_remove_cols_all_dialects() {
    for dialect in &["bigquery", "duckdb"] {
        test_fixture("remove_cols.pq", REMOVE_COLS, dialect, &["EXCEPT"]);
    }
}

#[test]
fn test_combine_tables_tsql() {
    test_fixture("combine_tables.pq", COMBINE_TABLES, "tsql", &["UNION ALL", "FROM Orders", "FROM Returns"]);
}

#[test]
fn test_combine_tables_all_dialects() {
    for dialect in &["tsql", "postgres", "bigquery", "snowflake", "duckdb"] {
        test_fixture("combine_tables.pq", COMBINE_TABLES, dialect, &["UNION ALL"]);
    }
}

#[test]
fn test_combine_tables_stdin_same_let() {
    let src = r#"let Source = Sql.Database("srv", "db"), A = Source{[Name="A"]}[Data], B = Source{[Name="B"]}[Data], Combined = Table.Combine({A, B}) in Combined"#;
    let run = run_source(src, "<stdin>", "query", "tsql", "warn", false);
    assert!(!run.result.has_errors);
    assert!(run.stdout.contains("UNION ALL"));
}

#[test]
fn test_combine_tables_unresolved_warn() {
    let src = r#"let Source = Sql.Database("srv", "db"), Orders = Source{[Name="Orders"]}[Data], Combined = Table.Combine({Orders, ExternalFeed}) in Combined"#;
    let run = run_source(src, "<stdin>", "query", "tsql", "warn", false);
    assert!(!run.result.has_errors);
    assert!(
        run.stderr.contains("is not a binding or a known input file stem"),
        "Should warn about unresolved table: {}",
        run.stderr
    );
}

#[test]
fn test_combine_tables_unresolved_fail() {
    let src = r#"let Source = Sql.Database("srv", "db"), Orders = Source{[Name="Orders"]}[Data], Combined = Table.Combine({Orders, ExternalFeed}) in Combined"#;
    let run = run_source(src, "<stdin>", "query", "tsql", "fail", false);
    assert!(run.result.has_errors);
}

#[test]
fn test_replace_error_values_tsql() {
    test_fixture(
        "replace_error_values.pq",
        REPLACE_ERROR_VALUES,
        "tsql",
        &["COALESCE", "TRY_CAST", "AS Amount", "AS Qty"],
    );
}

#[test]
fn test_replace_error_values_bigquery() {
    test_fixture(
        "replace_error_values.pq",
        REPLACE_ERROR_VALUES,
        "bigquery",
        &["COALESCE", "SAFE_CAST", "AS Amount", "AS Qty"],
    );
}

#[test]
fn test_replace_error_values_postgres() {
    let run = run_fixture("replace_error_values.pq", REPLACE_ERROR_VALUES, "postgres");
    assert!(run.stdout.contains("COALESCE"), "Postgres should use COALESCE: {}", run.stdout);
    assert!(!run.stdout.contains("TRY_CAST"), "Postgres should NOT use TRY_CAST: {}", run.stdout);
    assert!(
        run.stderr.contains("postgres has no TRY_CAST"),
        "Postgres should emit approximate warning: {}",
        run.stderr
    );
}

#[test]
fn test_replace_error_values_snowflake() {
    test_fixture("replace_error_values.pq", REPLACE_ERROR_VALUES, "snowflake", &["COALESCE", "TRY_CAST", "AS Amount"]);
}

#[test]
fn test_replace_error_values_duckdb() {
    test_fixture("replace_error_values.pq", REPLACE_ERROR_VALUES, "duckdb", &["COALESCE", "TRY_CAST", "AS Amount"]);
}

#[test]
fn test_replace_error_values_no_coercion_context() {
    let src = r#"let Source = Sql.Database("srv", "db"), Raw = Source{[Name="Sales"]}[Data], Safe = Table.ReplaceErrorValues(Raw, {{"Amount", 0}}) in Safe"#;
    let run = run_source(src, "<stdin>", "query", "tsql", "warn", false);
    assert!(run.stdout.contains("CASE WHEN"), "Should use CASE WHEN without coercion context: {}", run.stdout);
    assert!(
        run.stderr.contains("no preceding coercion context"),
        "Should emit approximate warning: {}",
        run.stderr
    );
}

#[test]
fn test_replace_error_values_non_literal() {
    let src = r#"let Source = Sql.Database("srv", "db"), Raw = Source{[Name="Sales"]}[Data], Safe = Table.ReplaceErrorValues(Raw, {{"Amount", SomeFunc()}}) in Safe"#;
    let run = run_source(src, "<stdin>", "query", "tsql", "warn", false);
    assert!(
        run.stdout.contains("UNTRANSLATABLE"),
        "Non-literal replacement should be untranslatable: {}",
        run.stdout
    );
}

#[test]
fn test_replace_error_values_all_dialects() {
    for dialect in &["tsql", "postgres", "bigquery", "snowflake", "duckdb"] {
        test_fixture("replace_error_values.pq", REPLACE_ERROR_VALUES, dialect, &["COALESCE", "AS Amount"]);
    }
}

#[test]
fn test_pq_parameters_tsql() {
    let run = run_fixture("pq_parameters.pq", PQ_PARAMETERS, "tsql");
    assert!(run.stdout.contains("POWER QUERY PARAMETERS DETECTED"), "Should contain parameter header: {}", run.stdout);
    assert!(
        run.stdout.contains("/* PARAM: flag_attivi */"),
        "Should contain flag_attivi param in SQL body: {}",
        run.stdout
    );
    assert!(run.stdout.contains("sql_server"), "Should list sql_server in parameter header: {}", run.stdout);
    assert!(run.stdout.contains("sql_db"), "Should list sql_db in parameter header: {}", run.stdout);
    assert!(run.stderr.contains("Parameter reference:"), "Should emit PARAM_REFERENCE warnings: {}", run.stderr);
    assert!(run.stderr.contains("sql_server"), "Should mention sql_server in warnings: {}", run.stderr);
    assert!(
        run.stderr.contains("parameters detected"),
        "Summary should mention parameters detected: {}",
        run.stderr
    );
}

#[test]
fn test_pq_parameters_all_dialects() {
    for dialect in &["tsql", "postgres", "bigquery", "snowflake", "duckdb"] {
        let run = run_fixture("pq_parameters.pq", PQ_PARAMETERS, dialect);
        assert!(
            run.stdout.contains("POWER QUERY PARAMETERS DETECTED"),
            "Should contain parameter header for {}: {}",
            dialect,
            run.stdout
        );
        assert!(run.stdout.contains("sql_server"), "Should list sql_server in header for {}: {}", dialect, run.stdout);
        assert!(
            run.stdout.contains("/* PARAM: flag_attivi */"),
            "Should contain flag_attivi param in SQL body for {}: {}",
            dialect,
            run.stdout
        );
    }
}

#[test]
fn test_pq_parameters_non_suppressible() {
    for on_error_mode in &["comment", "warn", "fail"] {
        let run = run_source(PQ_PARAMETERS, "tests/fixtures/pq_parameters.pq", "pq_parameters", "tsql", on_error_mode, false);
        assert!(
            run.stderr.contains("Parameter reference:"),
            "PARAM_REFERENCE warning should be emitted with --on-error {} mode: {}",
            on_error_mode,
            run.stderr
        );
    }
}

#[test]
fn test_pq_parameters_no_false_positives() {
    let src = r#"let Source = Sql.Database("srv", "db"), Orders = Source{[Name="Orders"]}[Data], Filtered = Table.SelectRows(Orders, each [Status] = "Active") in Filtered"#;
    let run = run_source(src, "<stdin>", "query", "tsql", "warn", false);
    assert!(
        !run.stdout.contains("POWER QUERY PARAMETERS DETECTED"),
        "Should not have parameter header for normal query: {}",
        run.stdout
    );
    assert!(!run.stderr.contains("PARAM_REFERENCE"), "Should not emit PARAM_REFERENCE for normal query: {}", run.stderr);
}

#[test]
fn test_pq_parameters_json_summary() {
    let run = run_source(PQ_PARAMETERS, "tests/fixtures/pq_parameters.pq", "pq_parameters", "tsql", "warn", true);
    assert!(run.stderr.contains("\"params_detected\""), "JSON summary should include params_detected: {}", run.stderr);
    assert!(run.stderr.contains("PARAM_REFERENCE"), "JSON should include PARAM_REFERENCE entries: {}", run.stderr);
}

#[test]
fn test_pq_parameters_header_sorted() {
    let run = run_fixture("pq_parameters.pq", PQ_PARAMETERS, "tsql");
    let flag_pos = run.stdout.find("flag_attivi").unwrap_or(usize::MAX);
    let db_pos = run.stdout.find("sql_db").unwrap_or(usize::MAX);
    let server_pos = run.stdout.find("sql_server").unwrap_or(usize::MAX);
    assert!(
        flag_pos < db_pos && db_pos < server_pos,
        "Parameters should be in lexicographic order: flag_attivi < sql_db < sql_server\n{}",
        run.stdout
    );
}
