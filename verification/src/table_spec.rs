//! Specification of the translation of table-level M expressions (the steps of a
//! `let`) to SQL statements.
use vstd::prelude::*;
use crate::ast::{MExprV, MLiteralV, MTypeV};
use crate::cast::cleaned_type_name;
use crate::context::{EnvV, LogV, NestedJoinInfoV, OnError, TranslationContext, log_error, log_warn, untranslatable_log};
use crate::dialect::{spec_dialect_name, spec_map_type, spec_select_except, spec_supports_try_cast};
use crate::maps::{find_key, put};
use crate::resolver::{fmt_expr, fmt_exprs, resolve};
use crate::sql::{JoinClauseV, JoinType, SelectColV, SelectStmtV, SqlBinOp, SqlExprV, TableRefV, empty_select_v};
use crate::syntax::{m_type_name, type_of_name};
use crate::text::join_seqs;
use crate::translation::{extract_str, lit_sql, param_placeholder, tr_expr, unsupported_type};

verus! {

/// Model of a table operation's result.
pub enum TableOpV {
    Select(SelectStmtV),
    SourceTable { schema: Option<Seq<char>>, table: Seq<char> },
    Reference(Seq<char>),
    Raw(Seq<char>),
}

/// What table-level translation reads: the environment, the known column lists and the
/// names bound by the `let`.
pub struct TablesV {
    pub env: EnvV,
    pub known: Seq<(Seq<char>, Seq<Seq<char>>)>,
    pub combine: Seq<Seq<char>>,
}

/// What table-level translation changes: the log and the nested joins.
pub struct StV {
    pub log: LogV,
    pub joins: Seq<(Seq<char>, NestedJoinInfoV)>,
}

/// What table-level translation reads from a context.
pub open spec fn ctx_tables(c: TranslationContext) -> TablesV {
    TablesV { env: c.env(), known: c.known(), combine: c.combine() }
}

/// What table-level translation changes in a context.
pub open spec fn ctx_state(c: TranslationContext) -> StV {
    StV { log: c.log(), joins: c.joins() }
}

/// Whether two contexts agree on what table-level translation reads.
pub open spec fn same_scope(a: TranslationContext, b: TranslationContext) -> bool {
    &&& a.env() == b.env()
    &&& a.known() == b.known()
    &&& a.combine() == b.combine()
}

/// The state with a new log.
pub open spec fn with_log(st: StV, log: LogV) -> StV {
    StV { log, joins: st.joins }
}

/// A raw result for an untranslatable fragment, and the state after reporting it.
pub open spec fn untranslatable_op(t: TablesV, st: StV, fragment: Seq<char>, reason: Seq<char>) -> (TableOpV, StV) {
    let (p, log) = untranslatable_log(st.log, t.env, 0, fragment, reason);
    (TableOpV::Raw(p), with_log(st, log))
}

/// A plain table reference.
pub open spec fn tref(name: Seq<char>) -> TableRefV {
    TableRefV { schema: None, name, alias: None }
}

/// A plain column.
pub open spec fn col(name: Seq<char>) -> SqlExprV {
    SqlExprV::Column { table: None, name }
}

/// A plain column in a select list.
pub open spec fn col_item(name: Seq<char>) -> SelectColV {
    SelectColV::Expr { expr: col(name), alias: None }
}

/// `SELECT <columns> FROM <table>`.
pub open spec fn select_from(columns: Seq<SelectColV>, table: Seq<char>) -> SelectStmtV {
    SelectStmtV { columns, from: Some(tref(table)), ..empty_select_v() }
}

/// The table a step reads: an identifier's name, or the expression's text.
pub open spec fn table_ref_of(e: MExprV) -> Seq<char> {
    match e {
        MExprV::Identifier(n) => n,
        _ => fmt_expr(e),
    }
}

/// Texts of expressions.
pub open spec fn extract_strs(items: Seq<MExprV>) -> Seq<Seq<char>> {
    Seq::new(items.len(), |i: int| extract_str(items[i]))
}

/// A list of texts: a list's items, or the one expression.
pub open spec fn string_list(e: MExprV) -> Seq<Seq<char>> {
    match e {
        MExprV::List(items) => extract_strs(items),
        _ => seq![extract_str(e)],
    }
}

/// Plain columns in a select list.
pub open spec fn col_items(names: Seq<Seq<char>>) -> Seq<SelectColV> {
    Seq::new(names.len(), |i: int| col_item(names[i]))
}

/// Plain columns.
pub open spec fn cols(names: Seq<Seq<char>>) -> Seq<SqlExprV> {
    Seq::new(names.len(), |i: int| col(names[i]))
}

/// The rename pairs of `{{"Old", "New"}, ...}`: items that are lists of two or more.
pub open spec fn pairs_of(items: Seq<MExprV>) -> Seq<(Seq<char>, Seq<char>)>
    decreases items.len(),
{
    if items.len() == 0 {
        Seq::empty()
    } else {
        let rest = pairs_of(items.drop_last());
        match items.last() {
            MExprV::List(pair) => if pair.len() >= 2 {
                rest.push((extract_str(pair[0]), extract_str(pair[1])))
            } else {
                rest
            },
            _ => rest,
        }
    }
}

/// The rename pairs of an expression.
pub open spec fn rename_pairs(e: MExprV) -> Seq<(Seq<char>, Seq<char>)> {
    match e {
        MExprV::List(items) => pairs_of(items),
        _ => Seq::empty(),
    }
}

/// The new name of the first pair renaming `old`.
pub open spec fn renamed(pairs: Seq<(Seq<char>, Seq<char>)>, old: Seq<char>) -> Option<Seq<char>>
    decreases pairs.len(),
{
    if pairs.len() == 0 {
        None
    } else if pairs[0].0 == old {
        Some(pairs[0].1)
    } else {
        renamed(pairs.skip(1), old)
    }
}

/// The join type a `JoinKind` names (inner when unknown).
pub open spec fn join_kind_of(e: MExprV) -> JoinType {
    match e {
        MExprV::Identifier(n) => if n == "JoinKind.Inner"@ {
            JoinType::Inner
        } else if n == "JoinKind.Left"@ {
            JoinType::Left
        } else if n == "JoinKind.Right"@ {
            JoinType::Right
        } else if n == "JoinKind.Full"@ {
            JoinType::FullOuter
        } else if n == "JoinKind.LeftAnti"@ {
            JoinType::LeftAnti
        } else if n == "JoinKind.RightAnti"@ {
            JoinType::RightAnti
        } else {
            JoinType::Inner
        },
        _ => JoinType::Inner,
    }
}

/// Number of key pairs of a join.
pub open spec fn key_pairs(lks: Seq<Seq<char>>, rks: Seq<Seq<char>>) -> int {
    if lks.len() < rks.len() {
        lks.len() as int
    } else {
        rks.len() as int
    }
}

/// `left.lk = right.rk` for the `i`-th key pair.
pub open spec fn key_eq(lt: Seq<char>, lks: Seq<Seq<char>>, rt: Seq<char>, rks: Seq<Seq<char>>, i: int) -> SqlExprV {
    SqlExprV::BinaryOp {
        op: SqlBinOp::Eq,
        left: Box::new(SqlExprV::Column { table: Some(lt), name: lks[i] }),
        right: Box::new(SqlExprV::Column { table: Some(rt), name: rks[i] }),
    }
}

/// The key equations `0..n`, joined left to right by AND.
pub open spec fn and_chain(lt: Seq<char>, lks: Seq<Seq<char>>, rt: Seq<char>, rks: Seq<Seq<char>>, n: int) -> SqlExprV
    decreases n,
{
    if n <= 1 {
        key_eq(lt, lks, rt, rks, 0)
    } else {
        SqlExprV::BinaryOp {
            op: SqlBinOp::And,
            left: Box::new(and_chain(lt, lks, rt, rks, n - 1)),
            right: Box::new(key_eq(lt, lks, rt, rks, n - 1)),
        }
    }
}

/// The condition that holds for every pair of rows.
pub open spec fn always_true() -> SqlExprV {
    SqlExprV::Raw("1 = 1"@)
}

/// The ON condition of a join on key columns: the key equations joined by AND; with no key
/// pair, a condition that holds for every pair of rows.
pub open spec fn join_condition(lt: Seq<char>, lks: Seq<Seq<char>>, rt: Seq<char>, rks: Seq<Seq<char>>) -> SqlExprV {
    if key_pairs(lks, rks) < 1 {
        always_true()
    } else {
        and_chain(lt, lks, rt, rks, key_pairs(lks, rks))
    }
}

/// `t.key IS NULL`.
pub open spec fn key_is_null(t: Seq<char>, key: Seq<char>) -> SqlExprV {
    SqlExprV::IsNull { expr: Box::new(SqlExprV::Column { table: Some(t), name: key }), negated: false }
}

/// The WHERE clause of an anti-join: the first key of the other side is null.
pub open spec fn anti_where(kind: JoinType, lt: Seq<char>, lks: Seq<Seq<char>>, rt: Seq<char>, rks: Seq<Seq<char>>) -> Option<SqlExprV> {
    match kind {
        JoinType::LeftAnti => if rks.len() > 0 { Some(key_is_null(rt, rks[0])) } else { None },
        JoinType::RightAnti => if lks.len() > 0 { Some(key_is_null(lt, lks[0])) } else { None },
        _ => None,
    }
}

/// `Table.SelectRows(table, each cond)`: WHERE.
pub open spec fn tr_select_rows(t: TablesV, st: StV, args: Seq<MExprV>) -> (TableOpV, StV) {
    if args.len() < 2 {
        untranslatable_op(t, st, "Table.SelectRows"@, "requires 2 arguments"@)
    } else {
        let (cond, log) = tr_expr(t.env, st.log, args[1]);
        (TableOpV::Select(SelectStmtV {
            where_clause: Some(cond),
            ..select_from(seq![SelectColV::Wildcard], table_ref_of(args[0]))
        }), with_log(st, log))
    }
}

/// `Table.SelectColumns(table, {cols})`: a column list.
pub open spec fn tr_select_columns(t: TablesV, st: StV, args: Seq<MExprV>) -> (TableOpV, StV) {
    if args.len() < 2 {
        untranslatable_op(t, st, "Table.SelectColumns"@, "requires 2 arguments"@)
    } else {
        (TableOpV::Select(select_from(col_items(string_list(args[1])), table_ref_of(args[0]))), st)
    }
}

/// A known column, renamed when a pair renames it.
pub open spec fn renamed_item(pairs: Seq<(Seq<char>, Seq<char>)>, c: Seq<char>) -> SelectColV {
    SelectColV::Expr { expr: col(c), alias: renamed(pairs, c) }
}

/// `Table.RenameColumns(table, {{old, new}, ...})`: aliases.
pub open spec fn tr_rename_columns(t: TablesV, st: StV, args: Seq<MExprV>) -> (TableOpV, StV) {
    if args.len() < 2 {
        untranslatable_op(t, st, "Table.RenameColumns"@, "requires 2 arguments"@)
    } else {
        let table = table_ref_of(args[0]);
        let pairs = rename_pairs(args[1]);
        match find_key(t.known, table) {
            Some(known) => (TableOpV::Select(select_from(
                Seq::new(known.len(), |i: int| renamed_item(pairs, known[i])),
                table,
            )), st),
            None => (TableOpV::Select(select_from(
                Seq::new(
                    pairs.len(),
                    |i: int| SelectColV::Expr { expr: col(pairs[i].0), alias: Some(pairs[i].1) },
                ),
                table,
            )), with_log(
                st,
                log_warn(
                    st.log,
                    t.env,
                    0,
                    "PARTIAL_RENAME"@,
                    "full column list unknown; rename translated as partial alias list"@,
                    None,
                ),
            )),
        }
    }
}

/// `Table.Join` / `Table.NestedJoin`: a JOIN; a nested join is also stored under its new
/// column's name for a later `Table.ExpandTableColumn`.
pub open spec fn tr_join(t: TablesV, st: StV, args: Seq<MExprV>, nested: bool) -> (TableOpV, StV) {
    let min_args: int = if nested { 5 } else { 4 };
    if args.len() < min_args {
        untranslatable_op(
            t,
            st,
            if nested { "Table.NestedJoin"@ } else { "Table.Join"@ },
            "requires at least "@ + (if nested { "5"@ } else { "4"@ }) + " arguments"@,
        )
    } else if key_pairs(string_list(args[1]), string_list(args[3])) < 1 {
        untranslatable_op(
            t,
            st,
            if nested { "Table.NestedJoin"@ } else { "Table.Join"@ },
            "requires at least one key column on each side"@,
        )
    } else {
        let lt = table_ref_of(args[0]);
        let lks = string_list(args[1]);
        let rt = table_ref_of(args[2]);
        let rks = string_list(args[3]);
        let kind_idx: int = if nested { 5 } else { 4 };
        let kind = if args.len() > kind_idx { join_kind_of(args[kind_idx]) } else { JoinType::Inner };
        let on = join_condition(lt, lks, rt, rks);
        let clause = JoinClauseV { join_type: kind, table: tref(rt), on };
        let wh = anti_where(kind, lt, lks, rt, rks);
        if nested {
            let nc = extract_str(args[4]);
            let info = NestedJoinInfoV {
                left_table: lt,
                right_table: rt,
                new_col: nc,
                left_keys: lks,
                right_keys: rks,
                join_type: kind,
                join_binding: Seq::empty(),
            };
            (TableOpV::Select(SelectStmtV {
                joins: seq![clause],
                where_clause: wh,
                ..select_from(seq![SelectColV::QualifiedWildcard(lt)], lt)
            }), StV { log: st.log, joins: put(st.joins, nc, info) })
        } else {
            (TableOpV::Select(SelectStmtV {
                joins: seq![clause],
                where_clause: wh,
                ..select_from(seq![SelectColV::Wildcard], lt)
            }), st)
        }
    }
}

/// The expanded columns `right.col AS alias`.
pub open spec fn expanded_items(right: Seq<char>, expand: Seq<Seq<char>>, aliases: Seq<Seq<char>>) -> Seq<SelectColV> {
    Seq::new(
        expand.len(),
        |i: int| SelectColV::Expr {
            expr: SqlExprV::Column { table: Some(right), name: expand[i] },
            alias: if i < aliases.len() { Some(aliases[i]) } else { None },
        },
    )
}

/// `Table.ExpandTableColumn(table, "Nested", {cols}, {aliases})`: the stored nested join
/// with the expanded columns.
pub open spec fn tr_expand(t: TablesV, st: StV, args: Seq<MExprV>) -> (TableOpV, StV) {
    if args.len() < 3 {
        untranslatable_op(t, st, "Table.ExpandTableColumn"@, "requires at least 3 arguments"@)
    } else {
        let table = table_ref_of(args[0]);
        let nested_col = extract_str(args[1]);
        let expand = string_list(args[2]);
        let aliases = if args.len() > 3 { string_list(args[3]) } else { Seq::empty() };
        match find_key(st.joins, nested_col) {
            Some(info) => (TableOpV::Select(SelectStmtV {
                joins: seq![JoinClauseV {
                    join_type: info.join_type,
                    table: tref(info.right_table),
                    on: join_condition(info.left_table, info.left_keys, info.right_table, info.right_keys),
                }],
                ..select_from(
                    seq![SelectColV::QualifiedWildcard(info.left_table)] + expanded_items(info.right_table, expand, aliases),
                    info.left_table,
                )
            }), st),
            None => untranslatable_op(
                t,
                st,
                "Table.ExpandTableColumn("@ + table + ", \""@ + nested_col + "\", ...)"@,
                "ExpandTableColumn on non-join source"@,
            ),
        }
    }
}

/// The aggregation columns of `{{"Name", each agg, type}, ...}`, translated in order.
pub open spec fn agg_items(t: TablesV, log: LogV, specs: Seq<MExprV>) -> (Seq<SelectColV>, LogV)
    decreases specs.len(),
{
    if specs.len() == 0 {
        (Seq::empty(), log)
    } else {
        let (xs, log1) = agg_items(t, log, specs.drop_last());
        match specs.last() {
            MExprV::List(items) => if items.len() >= 2 {
                let (agg, log2) = tr_expr(t.env, log1, items[1]);
                (xs.push(SelectColV::Expr { expr: agg, alias: Some(extract_str(items[0])) }), log2)
            } else {
                (xs, log1)
            },
            _ => (xs, log1),
        }
    }
}

/// `Table.Group(table, {keys}, {aggs})`: GROUP BY.
pub open spec fn tr_group(t: TablesV, st: StV, args: Seq<MExprV>) -> (TableOpV, StV) {
    if args.len() < 3 {
        untranslatable_op(t, st, "Table.Group"@, "requires 3 arguments"@)
    } else {
        let keys = string_list(args[1]);
        let (aggs, log) = match args[2] {
            MExprV::List(specs) => agg_items(t, st.log, specs),
            _ => (Seq::empty(), st.log),
        };
        (TableOpV::Select(SelectStmtV {
            group_by: cols(keys),
            ..select_from(col_items(keys) + aggs, table_ref_of(args[0]))
        }), with_log(st, log))
    }
}

/// The SQL type a type argument names, when it is an identifier.
pub open spec fn named_sql_type(t: TablesV, e: MExprV) -> Option<Seq<char>> {
    match e {
        MExprV::Identifier(tn) => Some(spec_map_type(t.env.dialect, type_of_name(cleaned_type_name(tn)))),
        _ => None,
    }
}

/// `Table.AddColumn(table, "Name", each expr, type)`: a computed column.
pub open spec fn tr_add_column(t: TablesV, st: StV, args: Seq<MExprV>) -> (TableOpV, StV) {
    if args.len() < 3 {
        untranslatable_op(t, st, "Table.AddColumn"@, "requires at least 3 arguments"@)
    } else {
        let (x, log) = tr_expr(t.env, st.log, args[2]);
        let fin = if args.len() > 3 && named_sql_type(t, args[3]) is Some && !unsupported_type(
            named_sql_type(t, args[3])->0,
        ) {
            SqlExprV::Cast { expr: Box::new(x), ty: named_sql_type(t, args[3])->0 }
        } else {
            x
        };
        (TableOpV::Select(select_from(
            seq![SelectColV::Wildcard, SelectColV::Expr { expr: fin, alias: Some(extract_str(args[1])) }],
            table_ref_of(args[0]),
        )), with_log(st, log))
    }
}

/// The M type of a type expression.
pub open spec fn type_expr_of(e: MExprV) -> MTypeV {
    match e {
        MExprV::Identifier(n) => type_of_name(cleaned_type_name(n)),
        _ => MTypeV::Unknown(fmt_expr(e)),
    }
}

/// The cast columns of `{{"Col", type}, ...}`, with the warnings for unsupported types.
pub open spec fn cast_items(t: TablesV, log: LogV, specs: Seq<MExprV>) -> (Seq<SelectColV>, LogV)
    decreases specs.len(),
{
    if specs.len() == 0 {
        (Seq::empty(), log)
    } else {
        let (xs, log1) = cast_items(t, log, specs.drop_last());
        match specs.last() {
            MExprV::List(items) => if items.len() >= 2 {
                let c = extract_str(items[0]);
                let ty = type_expr_of(items[1]);
                let sql_type = spec_map_type(t.env.dialect, ty);
                if unsupported_type(sql_type) {
                    (xs.push(SelectColV::Expr { expr: SqlExprV::Raw(c + " /* UNSUPPORTED_TYPE */"@), alias: None }), log_warn(
                        log1,
                        t.env,
                        0,
                        "UNSUPPORTED_TYPE"@,
                        "type "@ + m_type_name(ty) + " is not supported in "@ + spec_dialect_name(t.env.dialect),
                        None,
                    ))
                } else {
                    (xs.push(SelectColV::Expr {
                        expr: SqlExprV::Cast { expr: Box::new(col(c)), ty: sql_type },
                        alias: Some(c),
                    }), log1)
                }
            } else {
                (xs, log1)
            },
            _ => (xs, log1),
        }
    }
}

/// The columns named by the specs `{{"Col", type}, ...}`, in order.
pub open spec fn cast_cols(specs: Seq<MExprV>) -> Seq<Seq<char>>
    decreases specs.len(),
{
    if specs.len() == 0 {
        Seq::empty()
    } else {
        let rest = cast_cols(specs.drop_last());
        match specs.last() {
            MExprV::List(items) => if items.len() >= 2 {
                rest.push(extract_str(items[0]))
            } else {
                rest
            },
            _ => rest,
        }
    }
}

/// `Table.TransformColumnTypes(table, {{"Col", type}, ...})`: each column cast under its own
/// name, and every other column passed through: listed when the table's columns are known,
/// as `* EXCEPT (..)` where the dialect has it, or `*` when nothing is cast; otherwise only
/// the casts are selected and a warning says that the other columns are not carried.
pub open spec fn tr_transform_types(t: TablesV, st: StV, args: Seq<MExprV>) -> (TableOpV, StV) {
    if args.len() < 2 {
        untranslatable_op(t, st, "Table.TransformColumnTypes"@, "requires 2 arguments"@)
    } else {
        let table = table_ref_of(args[0]);
        let specs = match args[1] {
            MExprV::List(specs) => specs,
            _ => Seq::empty(),
        };
        let (items, log) = cast_items(t, st.log, specs);
        let casted = cast_cols(specs);
        let (cols, log2) = match find_key(t.known, table) {
            Some(known) => (col_items(remaining(known, casted)) + items, log),
            None => if casted.len() == 0 {
                (seq![SelectColV::Wildcard] + items, log)
            } else if spec_select_except(t.env.dialect) {
                (seq![SelectColV::Except { columns: casted }] + items, log)
            } else {
                (items, log_warn(
                    log,
                    t.env,
                    0,
                    "UNKNOWN_COLUMNS"@,
                    "full column list unknown; TransformColumnTypes selects only the cast columns"@,
                    None,
                ))
            },
        };
        (TableOpV::Select(select_from(cols, table)), with_log(st, log2))
    }
}

/// The known columns without the removed ones.
pub open spec fn remaining(known: Seq<Seq<char>>, removed: Seq<Seq<char>>) -> Seq<Seq<char>>
    decreases known.len(),
{
    if known.len() == 0 {
        Seq::empty()
    } else if removed.contains(known.last()) {
        remaining(known.drop_last(), removed)
    } else {
        remaining(known.drop_last(), removed).push(known.last())
    }
}

/// `Table.RemoveColumns(table, {cols})`: the remaining known columns, `* EXCEPT (..)`, or a
/// placeholder.
pub open spec fn tr_remove_columns(t: TablesV, st: StV, args: Seq<MExprV>) -> (TableOpV, StV) {
    if args.len() < 2 {
        untranslatable_op(t, st, "Table.RemoveColumns"@, "requires 2 arguments"@)
    } else {
        let table = table_ref_of(args[0]);
        let removed = string_list(args[1]);
        match find_key(t.known, table) {
            Some(known) => (TableOpV::Select(select_from(col_items(remaining(known, removed)), table)), st),
            None => if spec_select_except(t.env.dialect) {
                (TableOpV::Select(select_from(seq![SelectColV::Except { columns: removed }], table)), with_log(
                    st,
                    log_warn(
                        st.log,
                        t.env,
                        0,
                        "UNKNOWN_COLUMNS"@,
                        "full column list unknown; RemoveColumns translated as EXCEPT clause"@,
                        None,
                    ),
                ))
            } else {
                let (p, log) = untranslatable_log(
                    st.log,
                    t.env,
                    0,
                    "Table.RemoveColumns("@ + table + ", {"@ + join_seqs(removed, ", "@) + "})"@,
                    "RemoveColumns on unknown column set for dialect "@ + spec_dialect_name(t.env.dialect),
                );
                (TableOpV::Select(select_from(seq![SelectColV::Expr { expr: SqlExprV::Raw(p), alias: None }], table)), with_log(st, log))
            },
        }
    }
}

/// The message for a name that is neither a binding nor an input file stem.
pub open spec fn unresolved_message(name: Seq<char>) -> Seq<char> {
    "'"@ + name + "' is not a binding or a known input file stem"@
}

/// One member of a `Table.Combine` added to the statements so far, with its diagnostics:
/// a member that is no identifier, or that does not resolve, is reported.
pub open spec fn combine_step(t: TablesV, acc: (Seq<SelectStmtV>, LogV), item: MExprV) -> (Seq<SelectStmtV>, LogV) {
    let (ss, log1) = acc;
    match item {
        MExprV::Identifier(name) => {
            let known_binding = find_key(t.known, name) is Some || t.combine.contains(name);
            let known_stem = t.env.stems.contains(name);
            if known_binding || known_stem {
                (ss.push(select_from(seq![SelectColV::Wildcard], name)), log1)
            } else {
                match t.env.on_error {
                    OnError::Fail => (ss, log_error(
                        log1,
                        t.env,
                        0,
                        "UNRESOLVED_COMBINE_TABLE"@,
                        unresolved_message(name),
                        Some(name),
                    )),
                    _ => {
                        let log2 = if t.env.on_error == OnError::Warn {
                            log_warn(log1, t.env, 0, "UNRESOLVED_COMBINE_TABLE"@, unresolved_message(name), Some(name))
                        } else {
                            log1
                        };
                        (ss.push(SelectStmtV {
                            columns: seq![SelectColV::Expr {
                                expr: SqlExprV::Raw("/* UNRESOLVED: "@ + name + " */"@),
                                alias: None,
                            }],
                            ..empty_select_v()
                        }), log2)
                    },
                }
            }
        },
        other => (ss, log_warn(
            log1,
            t.env,
            0,
            "UNRESOLVED_COMBINE_TABLE"@,
            "'"@ + fmt_expr(other) + "' is not a valid table reference in Table.Combine"@,
            Some(fmt_expr(other)),
        )),
    }
}

/// The member statements of a `Table.Combine`, with their diagnostics, in order.
pub open spec fn combine_members(t: TablesV, log: LogV, items: Seq<MExprV>) -> (Seq<SelectStmtV>, LogV)
    decreases items.len(),
{
    if items.len() == 0 {
        (Seq::empty(), log)
    } else {
        combine_step(t, combine_members(t, log, items.drop_last()), items.last())
    }
}

/// `Table.Combine({t1, t2, ...})`: UNION ALL of the members.
pub open spec fn tr_combine(t: TablesV, st: StV, args: Seq<MExprV>) -> (TableOpV, StV) {
    if args.len() == 0 {
        untranslatable_op(t, st, "Table.Combine"@, "requires 1 argument (list of tables)"@)
    } else {
        match args[0] {
            MExprV::List(items) => if items.len() == 0 {
                untranslatable_op(t, st, "Table.Combine"@, "empty table list"@)
            } else {
                let (ss, log) = combine_members(t, st.log, items);
                if ss.len() == 0 {
                    untranslatable_op(t, with_log(st, log), "Table.Combine"@, "no valid tables to combine"@)
                } else {
                    (TableOpV::Select(SelectStmtV { union_all: ss.skip(1), ..ss[0] }), with_log(st, log))
                }
            },
            _ => untranslatable_op(t, st, "Table.Combine"@, "argument must be a list of tables"@),
        }
    }
}

/// The replacement value of `Table.ReplaceErrorValues`: a literal, or a parameter.
pub open spec fn replacement_of(t: TablesV, e: MExprV) -> Option<SqlExprV> {
    match e {
        MExprV::Literal(l) => Some(SqlExprV::Literal(lit_sql(l))),
        MExprV::Identifier(n) => if t.env.params.contains(n) {
            Some(SqlExprV::Raw(param_placeholder(n)))
        } else {
            None
        },
        _ => None,
    }
}

/// The key under which the type a column was cast to in a step is recorded.
pub open spec fn coercion_key(table: Seq<char>, c: Seq<char>) -> Seq<char> {
    table + "_"@ + c + "_type"@
}

/// The message for a postgres approximation.
pub open spec fn postgres_message(c: Seq<char>) -> Seq<char> {
    "ReplaceErrorValues on '"@ + c + "': postgres has no TRY_CAST; error trapping is approximate"@
}

/// The message for a column without coercion context.
pub open spec fn no_context_message(c: Seq<char>) -> Seq<char> {
    "ReplaceErrorValues on '"@ + c
        + "' has no preceding coercion context; translating as NULL replacement only — non-null SQL errors will not be caught."@
}

/// The column that replaces the errors of one column, with the diagnostics it needs.
pub open spec fn replaced_column(t: TablesV, log: LogV, table: Seq<char>, c: Seq<char>, repl: MExprV) -> (SelectColV, LogV) {
    match replacement_of(t, repl) {
        None => {
            let (p, log1) = untranslatable_log(
                log,
                t.env,
                0,
                "non-literal replacement in ReplaceErrorValues"@,
                "non-literal replacement in ReplaceErrorValues"@,
            );
            (SelectColV::Expr { expr: SqlExprV::Raw(p), alias: Some(c) }, log1)
        },
        Some(r) => match find_key(t.known, coercion_key(table, c)) {
            Some(types) => if types.len() > 0 && spec_supports_try_cast(t.env.dialect) {
                (SelectColV::Expr {
                    expr: SqlExprV::Coalesce { args: seq![SqlExprV::TryCast { expr: Box::new(col(c)), ty: types[0] }, r] },
                    alias: Some(c),
                }, log)
            } else {
                (SelectColV::Expr { expr: SqlExprV::Coalesce { args: seq![col(c), r] }, alias: Some(c) }, log_warn(
                    log,
                    t.env,
                    0,
                    "REPLACE_ERROR_APPROXIMATE"@,
                    postgres_message(c),
                    None,
                ))
            },
            None => (SelectColV::Expr {
                expr: SqlExprV::CaseWhen {
                    condition: Box::new(SqlExprV::IsNull { expr: Box::new(col(c)), negated: false }),
                    then_expr: Box::new(r),
                    else_expr: Box::new(col(c)),
                },
                alias: Some(c),
            }, log_warn(log, t.env, 0, "REPLACE_ERROR_APPROXIMATE"@, no_context_message(c), None)),
        },
    }
}

/// The replacement columns of `{{"Col", value}, ...}`.
pub open spec fn replaced_items(t: TablesV, log: LogV, table: Seq<char>, specs: Seq<MExprV>) -> (Seq<SelectColV>, LogV)
    decreases specs.len(),
{
    if specs.len() == 0 {
        (Seq::empty(), log)
    } else {
        let (xs, log1) = replaced_items(t, log, table, specs.drop_last());
        match specs.last() {
            MExprV::List(items) => if items.len() >= 2 {
                let (x, log2) = replaced_column(t, log1, table, extract_str(items[0]), items[1]);
                (xs.push(x), log2)
            } else {
                (xs, log1)
            },
            _ => (xs, log1),
        }
    }
}

/// `Table.ReplaceErrorValues(table, {{"Col", value}, ...})`: error-trapping columns, then
/// the other columns.
pub open spec fn tr_replace_errors(t: TablesV, st: StV, args: Seq<MExprV>) -> (TableOpV, StV) {
    if args.len() < 2 {
        untranslatable_op(t, st, "Table.ReplaceErrorValues"@, "requires 2 arguments"@)
    } else {
        let table = table_ref_of(args[0]);
        let (items, log) = match args[1] {
            MExprV::List(specs) => replaced_items(t, st.log, table, specs),
            _ => (Seq::empty(), st.log),
        };
        (TableOpV::Select(select_from(items.push(SelectColV::Wildcard), table)), with_log(st, log))
    }
}

/// A function that is not a known table operation: a placeholder over its first argument.
pub open spec fn tr_unknown_function(t: TablesV, st: StV, name: Seq<char>, args: Seq<MExprV>) -> (TableOpV, StV) {
    let (p, log) = untranslatable_log(
        st.log,
        t.env,
        0,
        name + "("@ + join_seqs(fmt_exprs(args), ", "@) + ")"@,
        name + " is not in the v1 feature set"@,
    );
    if args.len() > 0 {
        (TableOpV::Select(select_from(
            seq![SelectColV::Expr { expr: SqlExprV::Raw(p), alias: None }],
            table_ref_of(args[0]),
        )), with_log(st, log))
    } else {
        (TableOpV::Raw(p), with_log(st, log))
    }
}

/// A table-level function call.
pub open spec fn tr_table_function(t: TablesV, st: StV, name: Seq<char>, args: Seq<MExprV>) -> (TableOpV, StV) {
    if name == "Table.SelectRows"@ {
        tr_select_rows(t, st, args)
    } else if name == "Table.SelectColumns"@ {
        tr_select_columns(t, st, args)
    } else if name == "Table.RenameColumns"@ {
        tr_rename_columns(t, st, args)
    } else if name == "Table.Join"@ {
        tr_join(t, st, args, false)
    } else if name == "Table.NestedJoin"@ {
        tr_join(t, st, args, true)
    } else if name == "Table.ExpandTableColumn"@ {
        tr_expand(t, st, args)
    } else if name == "Table.Group"@ {
        tr_group(t, st, args)
    } else if name == "Table.AddColumn"@ {
        tr_add_column(t, st, args)
    } else if name == "Table.RemoveColumns"@ {
        tr_remove_columns(t, st, args)
    } else if name == "Table.Combine"@ {
        tr_combine(t, st, args)
    } else if name == "Table.TransformColumnTypes"@ {
        tr_transform_types(t, st, args)
    } else if name == "Table.ReplaceErrorValues"@ {
        tr_replace_errors(t, st, args)
    } else if name == "Sql.Database"@ {
        match resolve(MExprV::FunctionCall { name, args }).schema {
            Some(s) => (TableOpV::Raw("/* DATABASE: "@ + s + " */"@), st),
            None => (TableOpV::Raw("/* DATABASE */"@), st),
        }
    } else {
        tr_unknown_function(t, st, name, args)
    }
}

/// A table-level M expression.
pub open spec fn tr_table(t: TablesV, st: StV, e: MExprV) -> (TableOpV, StV) {
    match e {
        MExprV::FunctionCall { name, args } => tr_table_function(t, st, name, args),
        MExprV::Identifier(n) => (TableOpV::Reference(n), st),
        MExprV::FieldAccess { field, .. } => {
            let r = resolve(e);
            if r.table is Some {
                (TableOpV::SourceTable { schema: r.schema, table: r.table->0 }, st)
            } else if field == "Data"@ && r.raw is Some {
                (TableOpV::Raw("/* SOURCE: "@ + r.raw->0 + " */"@), st)
            } else {
                (TableOpV::Reference(fmt_expr(e)), st)
            }
        },
        MExprV::IndexAccess { .. } => {
            let r = resolve(e);
            if r.table is Some {
                (TableOpV::SourceTable { schema: r.schema, table: r.table->0 }, st)
            } else {
                (TableOpV::Reference(fmt_expr(e)), st)
            }
        },
        _ => untranslatable_op(t, st, fmt_expr(e), "Expression is not a recognized table operation"@),
    }
}

} // verus!
