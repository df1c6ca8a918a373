//! Per-function translators for M table operations.
use vstd::prelude::*;
use crate::ast::{MExpr, MExprV, MLiteral, MType};
use crate::context::log_warn;
use crate::dialect::spec_dialect_name;
use crate::grammar::type_to_string;
use crate::resolver::{contains_name, fmt_expr, fmt_exprs, params_contains, resolve_source, second_text_argument};
use crate::syntax::m_type_name;
use crate::translation::unsupported_type;
use crate::context::{NestedJoinInfo, NestedJoinInfoV, OnError, TranslationContext, columns_contains, columns_get, copy_strings, joins_get, joins_insert};
use crate::expr::{extract_string, translate_expr, translate_literal};
use crate::grammar::exprs_v;
use crate::resolver::format_expr;
use crate::sql::{
    JoinClause, JoinClauseV, JoinType, SelectCol, SelectColV, SelectStmt, SelectStmtV, SqlBinOp, SqlExpr, SqlExprV, TableRef,
    opt_expr_view, opt_view, sql_exprs_view,
};
use crate::cast::{cleaned_type_name, resolve_m_type};
use crate::dialect::{Dialect, spec_map_type, spec_select_except};
use crate::maps::find_key;
use crate::syntax::type_of_name;
use crate::table_spec::{
    TableOpV, agg_items, cast_cols, tr_table, tr_table_function, tr_unknown_function, replaced_column, replaced_items, replacement_of, tr_replace_errors, combine_members, combine_step, tr_combine, unresolved_message, and_chain, cast_items, col, col_item, col_items, cols, ctx_state, ctx_tables, expanded_items,
    extract_strs, join_condition, join_kind_of, key_eq, key_is_null, key_pairs, pairs_of,
    remaining, rename_pairs, renamed, renamed_item, same_scope, select_from, string_list, table_ref_of, tr_add_column,
    tr_expand, tr_group, tr_join, tr_remove_columns, tr_rename_columns, tr_select_columns, tr_select_rows,
    tr_transform_types, tref, type_expr_of, untranslatable_op,
};
use crate::text::{copy_string, join_strings, owned, str_contains, str_eq, strings_view};
use crate::translation::extract_str;

verus! {

/// Result of translating a table operation — either a new CTE or modifications to a parent SELECT.
#[derive(Debug)]
pub enum TableOpResult {
    /// A new SELECT statement to use as a CTE.
    Select(SelectStmt),
    /// A source table reference (no CTE needed, just FROM).
    SourceTable {
        /// Schema name.
        schema: Option<String>,
        /// Table name.
        table: String,
    },
    /// An identifier reference to another binding.
    Reference(String),
    /// Raw SQL placeholder.
    Raw(String),
}

impl View for TableOpResult {
    type V = TableOpV;

    open spec fn view(&self) -> TableOpV {
        match self {
            TableOpResult::Select(s) => TableOpV::Select(s@),
            TableOpResult::SourceTable { schema, table } => TableOpV::SourceTable {
                schema: opt_view(*schema),
                table: table@,
            },
            TableOpResult::Reference(n) => TableOpV::Reference(n@),
            TableOpResult::Raw(p) => TableOpV::Raw(p@),
        }
    }
}

/// Models of select-list items.
pub open spec fn cols_v(v: Seq<SelectCol>) -> Seq<SelectColV> {
    Seq::new(v.len(), |i: int| v[i]@)
}

/// Models of rename pairs.
pub open spec fn pairs_v(v: Seq<(String, String)>) -> Seq<(Seq<char>, Seq<char>)> {
    Seq::new(v.len(), |i: int| (v[i].0@, v[i].1@))
}

/// The placeholder of an untranslatable step, reported by the error mode.
fn untranslatable_result(ctx: &mut TranslationContext, fragment: &str, reason: &str) -> (r: TableOpResult)
    ensures
        same_scope(*final(ctx), *old(ctx)),
        (r@, ctx_state(*final(ctx))) == untranslatable_op(ctx_tables(*old(ctx)), ctx_state(*old(ctx)), fragment@, reason@),
{
    TableOpResult::Raw(ctx.untranslatable(0, fragment, reason))
}

/// `SELECT <columns> FROM <table>`.
fn select_from_table(columns: Vec<SelectCol>, table: String) -> (s: SelectStmt)
    ensures
        s@ == select_from(cols_v(columns@), table@),
{
    let mut s = SelectStmt::new();
    s.columns = columns;
    s.from = Some(TableRef { schema: None, name: table, alias: None });
    assert(s@.columns =~= cols_v(columns@));
    s
}

/// Plain columns in a select list.
fn column_items(names: &Vec<String>) -> (r: Vec<SelectCol>)
    ensures
        cols_v(r@) == col_items(strings_view(names@)),
{
    let mut out: Vec<SelectCol> = Vec::new();
    let mut i: usize = 0;
    while i < names.len()
        invariant
            i <= names.len(),
            out.len() == i,
            forall|k: int| 0 <= k < i ==> out@[k]@ == col_item(names@[k]@),
        decreases names.len() - i,
    {
        let c = SqlExpr::Column { table: None, name: copy_string(&names[i]) };
        assert(c@ == col(names@[i as int]@));
        out.push(SelectCol::Expr { expr: c, alias: None });
        i += 1;
    }
    assert(cols_v(out@) =~= col_items(strings_view(names@)));
    out
}

/// Get a table reference name from an M expression (identifier name or formatted expression).
fn get_table_ref(expr: &MExpr) -> (r: String)
    ensures
        r@ == table_ref_of(expr@),
{
    match expr {
        MExpr::Identifier(name) => name.clone(),
        _ => format_expr(expr),
    }
}

/// The texts of M expressions, in order.
fn extract_strings(items: &Vec<MExpr>) -> (r: Vec<String>)
    ensures
        strings_view(r@) == extract_strs(exprs_v(items@)),
{
    let mut out: Vec<String> = Vec::new();
    let mut i: usize = 0;
    while i < items.len()
        invariant
            i <= items.len(),
            out.len() == i,
            forall|k: int| 0 <= k < i ==> out@[k]@ == extract_str(items@[k]@),
        decreases items.len() - i,
    {
        out.push(extract_string(&items[i]));
        i += 1;
    }
    assert(strings_view(out@) =~= extract_strs(exprs_v(items@)));
    out
}

/// Extract a list of strings from an M list expression.
pub fn extract_string_list(expr: &MExpr) -> (r: Vec<String>)
    ensures
        strings_view(r@) == string_list(expr@),
{
    match expr {
        MExpr::List(items) => {
            assert(exprs_v(items@) =~= expr@->List_0);
            extract_strings(items)
        },
        _ => {
            let mut v: Vec<String> = Vec::new();
            v.push(extract_string(expr));
            assert(strings_view(v@) =~= seq![extract_str(expr@)]);
            v
        },
    }
}

/// Extract key columns (may be a single string or a list).
fn extract_key_columns(expr: &MExpr) -> (r: Vec<String>)
    ensures
        strings_view(r@) == string_list(expr@),
{
    match expr {
        MExpr::List(items) => {
            assert(exprs_v(items@) =~= expr@->List_0);
            extract_strings(items)
        },
        MExpr::Literal(MLiteral::Text(s)) => {
            let mut v: Vec<String> = Vec::new();
            v.push(s.clone());
            assert(strings_view(v@) =~= seq![extract_str(expr@)]);
            v
        },
        MExpr::Identifier(s) => {
            let mut v: Vec<String> = Vec::new();
            v.push(s.clone());
            assert(strings_view(v@) =~= seq![extract_str(expr@)]);
            v
        },
        _ => {
            let mut v: Vec<String> = Vec::new();
            v.push(extract_string(expr));
            assert(strings_view(v@) =~= seq![extract_str(expr@)]);
            v
        },
    }
}

/// Extract rename pairs from a list of {{"OldName", "NewName"}, ...}.
fn extract_rename_pairs(expr: &MExpr) -> (r: Vec<(String, String)>)
    ensures
        r@.len() == rename_pairs(expr@).len(),
            pairs_v(r@) == rename_pairs(expr@),
{
    let mut pairs: Vec<(String, String)> = Vec::new();
    if let MExpr::List(items) = expr {
        let ghost xs = exprs_v(items@);
        assert(xs =~= expr@->List_0);
        let mut i: usize = 0;
        while i < items.len()
            invariant
                i <= items.len(),
                xs == exprs_v(items@),
                pairs_v(pairs@) == pairs_of(xs.subrange(0, i as int)),
            decreases items.len() - i,
        {
            assert(xs.subrange(0, i + 1).drop_last() =~= xs.subrange(0, i as int));
            assert(xs.subrange(0, i + 1).last() == xs[i as int]);
            let ghost before = pairs_v(pairs@);
            if let MExpr::List(pair) = &items[i] {
                assert(exprs_v(pair@) =~= xs[i as int]->List_0);
                if pair.len() >= 2 {
                    let a = extract_string(&pair[0]);
                    let b = extract_string(&pair[1]);
                    pairs.push((a, b));
                    assert(pairs_v(pairs@) =~= before.push((a@, b@)));
                }
            }
            i += 1;
        }
        assert(xs.subrange(0, items.len() as int) =~= xs);
    }
    assert(pairs_v(pairs@) =~= rename_pairs(expr@));
    pairs
}

/// Parse a JoinKind enum value.
fn parse_join_kind(expr: &MExpr) -> (r: JoinType)
    ensures
        r == join_kind_of(expr@),
{
    let name = match expr {
        MExpr::Identifier(name) => name.as_str(),
        _ => return JoinType::Inner,
    };
    if str_eq(name, "JoinKind.Inner") {
        JoinType::Inner
    } else if str_eq(name, "JoinKind.Left") {
        JoinType::Left
    } else if str_eq(name, "JoinKind.Right") {
        JoinType::Right
    } else if str_eq(name, "JoinKind.Full") {
        JoinType::FullOuter
    } else if str_eq(name, "JoinKind.LeftAnti") {
        JoinType::LeftAnti
    } else if str_eq(name, "JoinKind.RightAnti") {
        JoinType::RightAnti
    } else {
        JoinType::Inner
    }
}

/// The equation `left.lk = right.rk` of the `i`-th key pair.
fn key_equation(left_table: &str, left_keys: &Vec<String>, right_table: &str, right_keys: &Vec<String>, i: usize) -> (r: SqlExpr)
    requires
        i < left_keys.len(),
        i < right_keys.len(),
    ensures
        r@ == key_eq(left_table@, strings_view(left_keys@), right_table@, strings_view(right_keys@), i as int),
{
    let l = SqlExpr::Column { table: Some(owned(left_table)), name: copy_string(&left_keys[i]) };
    let r = SqlExpr::Column { table: Some(owned(right_table)), name: copy_string(&right_keys[i]) };
    assert(l@ == SqlExprV::Column { table: Some(left_table@), name: strings_view(left_keys@)[i as int] });
    assert(r@ == SqlExprV::Column { table: Some(right_table@), name: strings_view(right_keys@)[i as int] });
    SqlExpr::BinaryOp { op: SqlBinOp::Eq, left: Box::new(l), right: Box::new(r) }
}

/// Build a JOIN ON condition from key columns.
fn build_join_condition(left_table: &str, left_keys: &Vec<String>, right_table: &str, right_keys: &Vec<String>) -> (r: SqlExpr)
    ensures
        r@ == join_condition(left_table@, strings_view(left_keys@), right_table@, strings_view(right_keys@)),
{
    let ghost lks = strings_view(left_keys@);
    let ghost rks = strings_view(right_keys@);
    let n: usize = if left_keys.len() < right_keys.len() { left_keys.len() } else { right_keys.len() };
    if n == 0 {
        return SqlExpr::Raw(owned("1 = 1"));
    }
    let mut result = key_equation(left_table, left_keys, right_table, right_keys, 0);
    let mut i: usize = 1;
    while i < n
        invariant
            1 <= i <= n,
            n == key_pairs(lks, rks),
            n <= left_keys.len(),
            n <= right_keys.len(),
            lks == strings_view(left_keys@),
            rks == strings_view(right_keys@),
            result@ == and_chain(left_table@, lks, right_table@, rks, i as int),
        decreases n - i,
    {
        let next = key_equation(left_table, left_keys, right_table, right_keys, i);
        result = SqlExpr::BinaryOp { op: SqlBinOp::And, left: Box::new(result), right: Box::new(next) };
        i += 1;
    }
    result
}

/// Translate `Table.SelectRows(table, each <condition>)` → WHERE.
fn translate_select_rows(args: &Vec<MExpr>, ctx: &mut TranslationContext) -> (r: TableOpResult)
    ensures
        same_scope(*final(ctx), *old(ctx)),
        (r@, ctx_state(*final(ctx))) == tr_select_rows(ctx_tables(*old(ctx)), ctx_state(*old(ctx)), exprs_v(args@)),
{
    if args.len() < 2 {
        return untranslatable_result(ctx, "Table.SelectRows", "requires 2 arguments");
    }
    let table_ref = get_table_ref(&args[0]);
    let condition = translate_expr(&args[1], ctx);
    let mut columns: Vec<SelectCol> = Vec::new();
    columns.push(SelectCol::Wildcard);
    assert(cols_v(columns@) =~= seq![SelectColV::Wildcard]);
    let mut stmt = select_from_table(columns, table_ref);
    stmt.where_clause = Some(condition);
    TableOpResult::Select(stmt)
}

/// Translate `Table.SelectColumns(table, {"Col1", "Col2"})` → SELECT cols.
fn translate_select_columns(args: &Vec<MExpr>, ctx: &mut TranslationContext) -> (r: TableOpResult)
    ensures
        same_scope(*final(ctx), *old(ctx)),
        (r@, ctx_state(*final(ctx))) == tr_select_columns(ctx_tables(*old(ctx)), ctx_state(*old(ctx)), exprs_v(args@)),
{
    if args.len() < 2 {
        return untranslatable_result(ctx, "Table.SelectColumns", "requires 2 arguments");
    }
    let table_ref = get_table_ref(&args[0]);
    let columns = extract_string_list(&args[1]);
    TableOpResult::Select(select_from_table(column_items(&columns), table_ref))
}

/// The new name of the first pair that renames a column.
fn find_renamed(pairs: &Vec<(String, String)>, c: &str) -> (r: Option<String>)
    ensures
        opt_view(r) == renamed(pairs_v(pairs@), c@),
{
    let ghost pv = pairs_v(pairs@);
    let mut j: usize = 0;
    assert(pv.skip(0) =~= pv);
    while j < pairs.len()
        invariant
            j <= pairs.len(),
            pv == pairs_v(pairs@),
            renamed(pv, c@) == renamed(pv.skip(j as int), c@),
        decreases pairs.len() - j,
    {
        assert(pv.skip(j as int)[0] == pv[j as int]);
        assert(pv.skip(j as int).skip(1) =~= pv.skip(j + 1));
        if str_eq(pairs[j].0.as_str(), c) {
            return Some(copy_string(&pairs[j].1));
        }
        j += 1;
    }
    assert(pv.skip(j as int).len() == 0);
    None
}

/// Translate `Table.RenameColumns(table, {{"Old", "New"}, ...})` → SELECT Old AS New.
fn translate_rename_columns(args: &Vec<MExpr>, ctx: &mut TranslationContext) -> (r: TableOpResult)
    ensures
        same_scope(*final(ctx), *old(ctx)),
        (r@, ctx_state(*final(ctx))) == tr_rename_columns(ctx_tables(*old(ctx)), ctx_state(*old(ctx)), exprs_v(args@)),
{
    if args.len() < 2 {
        return untranslatable_result(ctx, "Table.RenameColumns", "requires 2 arguments");
    }
    let table_ref = get_table_ref(&args[0]);
    let rename = extract_rename_pairs(&args[1]);
    let ghost pv = pairs_v(rename@);
    let mut columns: Vec<SelectCol> = Vec::new();
    match columns_get(&ctx.known_columns, table_ref.as_str()) {
        Some(cols) => {
            let ghost known = strings_view(cols@);
            let mut i: usize = 0;
            while i < cols.len()
                invariant
                    i <= cols.len(),
                    known == strings_view(cols@),
                    pv == pairs_v(rename@),
                    columns.len() == i,
                    forall|k: int| 0 <= k < i ==> columns@[k]@ == renamed_item(pv, known[k]),
                decreases cols.len() - i,
            {
                let alias = find_renamed(&rename, cols[i].as_str());
                let c = SqlExpr::Column { table: None, name: copy_string(&cols[i]) };
                assert(c@ == col(known[i as int]));
                columns.push(SelectCol::Expr { expr: c, alias });
                i += 1;
            }
            assert(cols_v(columns@) =~= Seq::new(known.len(), |i: int| renamed_item(pv, known[i])));
        },
        None => {
            ctx.warn(
                0,
                "PARTIAL_RENAME",
                "full column list unknown; rename translated as partial alias list",
                None,
            );
            let mut i: usize = 0;
            while i < rename.len()
                invariant
                    i <= rename.len(),
                    pv == pairs_v(rename@),
                    columns.len() == i,
                    forall|k: int| 0 <= k < i ==> columns@[k]@ == (SelectColV::Expr { expr: col(pv[k].0), alias: Some(pv[k].1) }),
                decreases rename.len() - i,
            {
                let c = SqlExpr::Column { table: None, name: copy_string(&rename[i].0) };
                assert(c@ == col(pv[i as int].0));
                columns.push(SelectCol::Expr { expr: c, alias: Some(copy_string(&rename[i].1)) });
                i += 1;
            }
            assert(cols_v(columns@) =~= Seq::new(
                pv.len(),
                |i: int| SelectColV::Expr { expr: col(pv[i].0), alias: Some(pv[i].1) },
            ));
        },
    }
    TableOpResult::Select(select_from_table(columns, table_ref))
}

/// `t.key IS NULL` for the first key, when there is one.
fn first_key_is_null(table: &String, keys: &Vec<String>) -> (r: Option<SqlExpr>)
    ensures
        opt_expr_view(r) == (if keys.len() > 0 { Some(key_is_null(table@, strings_view(keys@)[0])) } else { None }),
{
    if keys.len() > 0 {
        let c = SqlExpr::Column { table: Some(copy_string(table)), name: copy_string(&keys[0]) };
        assert(c@ == (SqlExprV::Column { table: Some(table@), name: strings_view(keys@)[0] }));
        Some(SqlExpr::IsNull { expr: Box::new(c), negated: false })
    } else {
        None
    }
}

/// `SELECT <columns> FROM <left> <kind> JOIN <right> ON <on> [WHERE <wh>]`.
fn join_select(columns: Vec<SelectCol>, left: String, kind: JoinType, right: String, on: SqlExpr, wh: Option<SqlExpr>) -> (s: SelectStmt)
    ensures
        s@ == (SelectStmtV {
            joins: seq![JoinClauseV { join_type: kind, table: tref(right@), on: on@ }],
            where_clause: opt_expr_view(wh),
            ..select_from(cols_v(columns@), left@)
        }),
{
    let ghost on_v = on@;
    let mut stmt = select_from_table(columns, left);
    let mut joins: Vec<JoinClause> = Vec::new();
    joins.push(JoinClause { join_type: kind, table: TableRef { schema: None, name: right, alias: None }, on });
    stmt.joins = joins;
    stmt.where_clause = wh;
    assert(stmt@.joins =~= seq![JoinClauseV { join_type: kind, table: tref(right@), on: on_v }]);
    stmt
}

/// Translate `Table.Join` / `Table.NestedJoin` → JOIN.
fn translate_join(args: &Vec<MExpr>, is_nested: bool, ctx: &mut TranslationContext) -> (r: TableOpResult)
    ensures
        same_scope(*final(ctx), *old(ctx)),
        (r@, ctx_state(*final(ctx))) == tr_join(ctx_tables(*old(ctx)), ctx_state(*old(ctx)), exprs_v(args@), is_nested),
{
    let min_args: usize = if is_nested { 5 } else { 4 };
    if args.len() < min_args {
        let name: &str = if is_nested { "Table.NestedJoin" } else { "Table.Join" };
        let mut reason = owned("requires at least ");
        reason.append(if is_nested { "5" } else { "4" });
        reason.append(" arguments");
        return untranslatable_result(ctx, name, reason.as_str());
    }
    let left_ref = get_table_ref(&args[0]);
    let left_keys = extract_key_columns(&args[1]);
    let right_ref = get_table_ref(&args[2]);
    let right_keys = extract_key_columns(&args[3]);
    if left_keys.len() == 0 || right_keys.len() == 0 {
        let name: &str = if is_nested { "Table.NestedJoin" } else { "Table.Join" };
        return untranslatable_result(ctx, name, "requires at least one key column on each side");
    }
    let kind_idx: usize = if is_nested { 5 } else { 4 };
    let join_kind = if args.len() > kind_idx {
        parse_join_kind(&args[kind_idx])
    } else {
        JoinType::Inner
    };
    let on_condition = build_join_condition(left_ref.as_str(), &left_keys, right_ref.as_str(), &right_keys);
    let anti_where = match join_kind {
        JoinType::LeftAnti => first_key_is_null(&right_ref, &right_keys),
        JoinType::RightAnti => first_key_is_null(&left_ref, &left_keys),
        _ => None,
    };
    let mut columns: Vec<SelectCol> = Vec::new();
    if is_nested {
        let new_col = extract_string(&args[4]);
        let info = NestedJoinInfo {
            left_table: copy_string(&left_ref),
            right_table: copy_string(&right_ref),
            new_col: copy_string(&new_col),
            left_keys: copy_strings(&left_keys),
            right_keys: copy_strings(&right_keys),
            join_type: join_kind,
            join_binding: String::new(),
        };
        joins_insert(&mut ctx.nested_joins, new_col, info);
        columns.push(SelectCol::QualifiedWildcard(copy_string(&left_ref)));
        assert(cols_v(columns@) =~= seq![SelectColV::QualifiedWildcard(left_ref@)]);
    } else {
        columns.push(SelectCol::Wildcard);
        assert(cols_v(columns@) =~= seq![SelectColV::Wildcard]);
    }
    TableOpResult::Select(join_select(columns, left_ref, join_kind, right_ref, on_condition, anti_where))
}

/// The expanded columns `right.col AS alias`.
fn expanded_columns(columns: &mut Vec<SelectCol>, right: &String, expand: &Vec<String>, aliases: &Vec<String>)
    ensures
        cols_v(final(columns)@) == cols_v(old(columns)@) + expanded_items(right@, strings_view(expand@), strings_view(aliases@)),
{
    let ghost start = cols_v(columns@);
    let ghost ex = expanded_items(right@, strings_view(expand@), strings_view(aliases@));
    let mut i: usize = 0;
    assert(start + ex.take(0) =~= start);
    while i < expand.len()
        invariant
            i <= expand.len(),
            ex == expanded_items(right@, strings_view(expand@), strings_view(aliases@)),
            cols_v(columns@) == start + ex.take(i as int),
        decreases expand.len() - i,
    {
        let alias = if i < aliases.len() { Some(copy_string(&aliases[i])) } else { None };
        let c = SqlExpr::Column { table: Some(copy_string(right)), name: copy_string(&expand[i]) };
        assert(c@ == (SqlExprV::Column { table: Some(right@), name: strings_view(expand@)[i as int] }));
        let ghost before = cols_v(columns@);
        columns.push(SelectCol::Expr { expr: c, alias });
        assert(cols_v(columns@) =~= before.push(ex[i as int]));
        assert(ex.take(i + 1) =~= ex.take(i as int).push(ex[i as int]));
        i += 1;
    }
    assert(ex.take(expand.len() as int) =~= ex);
}

/// Translate `Table.ExpandTableColumn(table, "NestedCol", {"Col1"}, {"Alias1"})`.
fn translate_expand_table_column(args: &Vec<MExpr>, ctx: &mut TranslationContext) -> (r: TableOpResult)
    ensures
        same_scope(*final(ctx), *old(ctx)),
        (r@, ctx_state(*final(ctx))) == tr_expand(ctx_tables(*old(ctx)), ctx_state(*old(ctx)), exprs_v(args@)),
{
    if args.len() < 3 {
        return untranslatable_result(ctx, "Table.ExpandTableColumn", "requires at least 3 arguments");
    }
    let table_ref = get_table_ref(&args[0]);
    let nested_col = extract_string(&args[1]);
    let expand_cols = extract_string_list(&args[2]);
    let aliases = if args.len() > 3 {
        extract_string_list(&args[3])
    } else {
        let v: Vec<String> = Vec::new();
        assert(strings_view(v@) =~= Seq::<Seq<char>>::empty());
        v
    };
    match joins_get(&ctx.nested_joins, nested_col.as_str()) {
        Some(info) => {
            let mut columns: Vec<SelectCol> = Vec::new();
            columns.push(SelectCol::QualifiedWildcard(copy_string(&info.left_table)));
            assert(cols_v(columns@) =~= seq![SelectColV::QualifiedWildcard(info@.left_table)]);
            expanded_columns(&mut columns, &info.right_table, &expand_cols, &aliases);
            let on_condition = build_join_condition(
                info.left_table.as_str(),
                &info.left_keys,
                info.right_table.as_str(),
                &info.right_keys,
            );
            TableOpResult::Select(join_select(
                columns,
                copy_string(&info.left_table),
                info.join_type,
                copy_string(&info.right_table),
                on_condition,
                None,
            ))
        },
        None => {
            let mut frag = owned("Table.ExpandTableColumn(");
            frag.append(table_ref.as_str());
            frag.append(", \"");
            frag.append(nested_col.as_str());
            frag.append("\", ...)");
            untranslatable_result(ctx, frag.as_str(), "ExpandTableColumn on non-join source")
        },
    }
}

/// The aggregation columns of `{{"Name", each agg, type}, ...}`, appended in order.
fn aggregate_columns(columns: &mut Vec<SelectCol>, specs: &Vec<MExpr>, ctx: &mut TranslationContext)
    ensures
        same_scope(*final(ctx), *old(ctx)),
        final(ctx).joins() == old(ctx).joins(),
        (cols_v(final(columns)@), final(ctx).log()) == ({
            let (xs, log) = agg_items(ctx_tables(*old(ctx)), old(ctx).log(), exprs_v(specs@));
            (cols_v(old(columns)@) + xs, log)
        }),
{
    let ghost t = ctx_tables(*ctx);
    let ghost log0 = ctx.log();
    let ghost joins0 = ctx.joins();
    let ghost start = cols_v(columns@);
    let ghost xs = exprs_v(specs@);
    let mut i: usize = 0;
    assert(start + Seq::<SelectColV>::empty() =~= start);
    assert(xs.subrange(0, 0) =~= Seq::<MExprV>::empty());
    while i < specs.len()
        invariant
            i <= specs.len(),
            xs == exprs_v(specs@),
            t == ctx_tables(*ctx),
            joins0 == ctx.joins(),
            (cols_v(columns@), ctx.log()) == ({
                let (ys, log) = agg_items(t, log0, xs.subrange(0, i as int));
                (start + ys, log)
            }),
        decreases specs.len() - i,
    {
        assert(xs.subrange(0, i + 1).drop_last() =~= xs.subrange(0, i as int));
        assert(xs.subrange(0, i + 1).last() == xs[i as int]);
        let ghost before = cols_v(columns@);
        if let MExpr::List(items) = &specs[i] {
            assert(exprs_v(items@) =~= xs[i as int]->List_0);
            if items.len() >= 2 {
                let agg_name = extract_string(&items[0]);
                let agg_expr = translate_expr(&items[1], ctx);
                columns.push(SelectCol::Expr { expr: agg_expr, alias: Some(agg_name) });
                assert(cols_v(columns@) =~= before.push(columns@.last()@));
            }
        }
        proof {
            let (ys, _l) = agg_items(t, log0, xs.subrange(0, i as int));
            let (zs, _m) = agg_items(t, log0, xs.subrange(0, i + 1));
            assert(cols_v(columns@) =~= start + zs);
        }
        i += 1;
    }
    assert(xs.subrange(0, specs.len() as int) =~= xs);
}

/// Plain columns.
fn column_exprs(names: &Vec<String>) -> (r: Vec<SqlExpr>)
    ensures
        sql_exprs_view(r@) == cols(strings_view(names@)),
{
    let mut out: Vec<SqlExpr> = Vec::new();
    let mut i: usize = 0;
    while i < names.len()
        invariant
            i <= names.len(),
            out.len() == i,
            forall|k: int| 0 <= k < i ==> out@[k]@ == col(names@[k]@),
        decreases names.len() - i,
    {
        out.push(SqlExpr::Column { table: None, name: copy_string(&names[i]) });
        i += 1;
    }
    assert(sql_exprs_view(out@) =~= cols(strings_view(names@)));
    out
}

/// Translate `Table.Group(table, {"Key"}, {{"Agg", each func, type}})` → GROUP BY.
fn translate_group(args: &Vec<MExpr>, ctx: &mut TranslationContext) -> (r: TableOpResult)
    ensures
        same_scope(*final(ctx), *old(ctx)),
        final(ctx).joins() == old(ctx).joins(),
        (r@, ctx_state(*final(ctx))) == tr_group(ctx_tables(*old(ctx)), ctx_state(*old(ctx)), exprs_v(args@)),
{
    if args.len() < 3 {
        return untranslatable_result(ctx, "Table.Group", "requires 3 arguments");
    }
    let table_ref = get_table_ref(&args[0]);
    let group_keys = extract_string_list(&args[1]);
    let mut columns = column_items(&group_keys);
    if let MExpr::List(specs) = &args[2] {
        assert(exprs_v(specs@) =~= exprs_v(args@)[2]->List_0);
        aggregate_columns(&mut columns, specs, ctx);
    } else {
        assert(cols_v(columns@) + Seq::<SelectColV>::empty() =~= cols_v(columns@));
    }
    let mut stmt = select_from_table(columns, table_ref);
    stmt.group_by = column_exprs(&group_keys);
    TableOpResult::Select(stmt)
}

/// The SQL type a type name maps to in the context's dialect.
fn mapped_type(tn: &str, ctx: &TranslationContext) -> (r: &'static str)
    ensures
        r@ == spec_map_type(ctx.env().dialect, type_of_name(cleaned_type_name(tn@))),
{
    let m_type = resolve_m_type(tn);
    ctx.dialect.map_type(&m_type)
}

/// Translate `Table.AddColumn(table, "NewCol", each <expr>, type)` → computed column.
fn translate_add_column(args: &Vec<MExpr>, ctx: &mut TranslationContext) -> (r: TableOpResult)
    ensures
        same_scope(*final(ctx), *old(ctx)),
        final(ctx).joins() == old(ctx).joins(),
        (r@, ctx_state(*final(ctx))) == tr_add_column(ctx_tables(*old(ctx)), ctx_state(*old(ctx)), exprs_v(args@)),
{
    if args.len() < 3 {
        return untranslatable_result(ctx, "Table.AddColumn", "requires at least 3 arguments");
    }
    let table_ref = get_table_ref(&args[0]);
    let col_name = extract_string(&args[1]);
    let col_expr = translate_expr(&args[2], ctx);
    let final_expr = if args.len() > 3 {
        if let MExpr::Identifier(tn) = &args[3] {
            let sql_type = mapped_type(tn.as_str(), ctx);
            if str_contains(sql_type, "UNSUPPORTED") {
                col_expr
            } else {
                SqlExpr::Cast { expr: Box::new(col_expr), ty: owned(sql_type) }
            }
        } else {
            col_expr
        }
    } else {
        col_expr
    };
    let mut columns: Vec<SelectCol> = Vec::new();
    columns.push(SelectCol::Wildcard);
    columns.push(SelectCol::Expr { expr: final_expr, alias: Some(col_name) });
    assert(cols_v(columns@) =~= seq![SelectColV::Wildcard, columns@[1]@]);
    TableOpResult::Select(select_from_table(columns, table_ref))
}

/// The M type of a type expression.
fn resolve_type_expr(expr: &MExpr) -> (t: MType)
    ensures
        t@ == type_expr_of(expr@),
{
    match expr {
        MExpr::Identifier(name) => resolve_m_type(name.as_str()),
        _ => MType::Unknown(format_expr(expr)),
    }
}

/// One cast column of `{"Col", type}`, with the warning for an unsupported type.
fn cast_column(col_name: String, ty_expr: &MExpr, ctx: &mut TranslationContext) -> (r: SelectCol)
    ensures
        same_scope(*final(ctx), *old(ctx)),
        final(ctx).joins() == old(ctx).joins(),
        ({
            let ty = type_expr_of(ty_expr@);
            let sql_type = spec_map_type(old(ctx).env().dialect, ty);
            if unsupported_type(sql_type) {
                &&& r@ == (SelectColV::Expr { expr: SqlExprV::Raw(col_name@ + " /* UNSUPPORTED_TYPE */"@), alias: None })
                &&& final(ctx).log() == log_warn(
                    old(ctx).log(),
                    old(ctx).env(),
                    0,
                    "UNSUPPORTED_TYPE"@,
                    "type "@ + m_type_name(ty) + " is not supported in "@ + spec_dialect_name(old(ctx).env().dialect),
                    None,
                )
            } else {
                &&& r@ == (SelectColV::Expr { expr: SqlExprV::Cast { expr: Box::new(col(col_name@)), ty: sql_type }, alias: Some(col_name@) })
                &&& final(ctx).log() == old(ctx).log()
            }
        }),
{
    let m_type = resolve_type_expr(ty_expr);
    let sql_type = ctx.dialect.map_type(&m_type);
    if str_contains(sql_type, "UNSUPPORTED") {
        let mut m = owned("type ");
        m.append(type_to_string(&m_type));
        m.append(" is not supported in ");
        m.append(ctx.dialect.name());
        ctx.warn(0, "UNSUPPORTED_TYPE", m.as_str(), None);
        let mut raw = col_name;
        raw.append(" /* UNSUPPORTED_TYPE */");
        SelectCol::Expr { expr: SqlExpr::Raw(raw), alias: None }
    } else {
        let ghost cn = col_name@;
        let alias = copy_string(&col_name);
        let c = SqlExpr::Column { table: None, name: col_name };
        assert(c@ == col(cn));
        let e = SqlExpr::Cast { expr: Box::new(c), ty: owned(sql_type) };
        assert(e@ == (SqlExprV::Cast { expr: Box::new(col(cn)), ty: sql_type@ }));
        SelectCol::Expr { expr: e, alias: Some(alias) }
    }
}

/// Translate `Table.TransformColumnTypes(table, {{"Col", type}, ...})` → CAST.
fn translate_transform_column_types(args: &Vec<MExpr>, ctx: &mut TranslationContext) -> (r: TableOpResult)
    ensures
        same_scope(*final(ctx), *old(ctx)),
        final(ctx).joins() == old(ctx).joins(),
        (r@, ctx_state(*final(ctx))) == tr_transform_types(ctx_tables(*old(ctx)), ctx_state(*old(ctx)), exprs_v(args@)),
{
    if args.len() < 2 {
        return untranslatable_result(ctx, "Table.TransformColumnTypes", "requires 2 arguments");
    }
    let table_ref = get_table_ref(&args[0]);
    let mut columns: Vec<SelectCol> = Vec::new();
    let mut casted: Vec<String> = Vec::new();
    let ghost t = ctx_tables(*ctx);
    let ghost log0 = ctx.log();
    let ghost joins0 = ctx.joins();
    let ghost xs0 = match exprs_v(args@)[1] {
        MExprV::List(sp) => sp,
        _ => Seq::empty(),
    };
    if let MExpr::List(specs) = &args[1] {
        let ghost xs = exprs_v(specs@);
        assert(xs =~= exprs_v(args@)[1]->List_0);
        let mut i: usize = 0;
        assert(cols_v(columns@) =~= Seq::<SelectColV>::empty());
        assert(strings_view(casted@) =~= Seq::<Seq<char>>::empty());
        assert(xs.subrange(0, 0) =~= Seq::<MExprV>::empty());
        while i < specs.len()
            invariant
                i <= specs.len(),
                xs == exprs_v(specs@),
                t == ctx_tables(*ctx),
                joins0 == ctx.joins(),
                (cols_v(columns@), ctx.log()) == cast_items(t, log0, xs.subrange(0, i as int)),
                strings_view(casted@) == cast_cols(xs.subrange(0, i as int)),
            decreases specs.len() - i,
        {
            assert(xs.subrange(0, i + 1).drop_last() =~= xs.subrange(0, i as int));
            assert(xs.subrange(0, i + 1).last() == xs[i as int]);
            let ghost before = cols_v(columns@);
            let ghost before_c = strings_view(casted@);
            if let MExpr::List(items) = &specs[i] {
                assert(exprs_v(items@) =~= xs[i as int]->List_0);
                if items.len() >= 2 {
                    let col_name = extract_string(&items[0]);
                    casted.push(copy_string(&col_name));
                    assert(strings_view(casted@) =~= before_c.push(col_name@));
                    let c = cast_column(col_name, &items[1], ctx);
                    columns.push(c);
                    assert(cols_v(columns@) =~= before.push(c@));
                }
            }
            i += 1;
        }
        assert(xs.subrange(0, specs.len() as int) =~= xs);
    } else {
        assert(cols_v(columns@) =~= Seq::<SelectColV>::empty());
        assert(strings_view(casted@) =~= Seq::<Seq<char>>::empty());
    }
    assert(strings_view(casted@) == cast_cols(xs0));
    assert((cols_v(columns@), ctx.log()) == cast_items(t, log0, xs0));
    let ghost items_v = cols_v(columns@);
    let mut out: Vec<SelectCol> = Vec::new();
    match columns_get(&ctx.known_columns, table_ref.as_str()) {
        Some(cols) => {
            let kept = remaining_columns(&cols, &casted);
            out = column_items(&kept);
        },
        None => {
            if casted.len() == 0 {
                out.push(SelectCol::Wildcard);
            } else if ctx.dialect.supports_select_except() {
                out.push(SelectCol::Except { columns: casted });
            } else {
                ctx.warn(
                    0,
                    "UNKNOWN_COLUMNS",
                    "full column list unknown; TransformColumnTypes selects only the cast columns",
                    None,
                );
            }
        },
    }
    let ghost pass = cols_v(out@);
    out.append(&mut columns);
    assert(cols_v(out@) =~= pass + items_v);
    let r = TableOpResult::Select(select_from_table(out, table_ref));
    proof {
        let (cs, lg) = match find_key(t.known, table_ref_of(exprs_v(args@)[0])) {
            Some(known) => (col_items(remaining(known, cast_cols(xs0))) + items_v, cast_items(t, log0, xs0).1),
            None => if cast_cols(xs0).len() == 0 {
                (seq![SelectColV::Wildcard] + items_v, cast_items(t, log0, xs0).1)
            } else if spec_select_except(t.env.dialect) {
                (seq![SelectColV::Except { columns: cast_cols(xs0) }] + items_v, cast_items(t, log0, xs0).1)
            } else {
                (items_v, ctx.log())
            },
        };
        assert(cs == cols_v(out@));
        assert(r@ == TableOpV::Select(select_from(cs, table_ref_of(exprs_v(args@)[0]))));
    }
    r
}

/// The known columns that are not removed.
fn remaining_columns(known: &Vec<String>, removed: &Vec<String>) -> (r: Vec<String>)
    ensures
        strings_view(r@) == remaining(strings_view(known@), strings_view(removed@)),
{
    let ghost kv = strings_view(known@);
    let ghost rv = strings_view(removed@);
    let mut out: Vec<String> = Vec::new();
    let mut i: usize = 0;
    assert(kv.take(0) =~= Seq::<Seq<char>>::empty());
    assert(strings_view(out@) =~= Seq::<Seq<char>>::empty());
    while i < known.len()
        invariant
            i <= known.len(),
            kv == strings_view(known@),
            rv == strings_view(removed@),
            strings_view(out@) == remaining(kv.take(i as int), rv),
        decreases known.len() - i,
    {
        assert(kv.take(i + 1).drop_last() =~= kv.take(i as int));
        assert(kv.take(i + 1).last() == kv[i as int]);
        if !contains_name(removed, known[i].as_str()) {
            let ghost before = strings_view(out@);
            out.push(copy_string(&known[i]));
            assert(strings_view(out@) =~= before.push(kv[i as int]));
        }
        i += 1;
    }
    assert(kv.take(known.len() as int) =~= kv);
    out
}

/// Translate `Table.RemoveColumns(table, {"Col1", "Col2"})` → column exclusion.
fn translate_remove_columns(args: &Vec<MExpr>, ctx: &mut TranslationContext) -> (r: TableOpResult)
    ensures
        same_scope(*final(ctx), *old(ctx)),
        final(ctx).joins() == old(ctx).joins(),
        (r@, ctx_state(*final(ctx))) == tr_remove_columns(ctx_tables(*old(ctx)), ctx_state(*old(ctx)), exprs_v(args@)),
{
    if args.len() < 2 {
        return untranslatable_result(ctx, "Table.RemoveColumns", "requires 2 arguments");
    }
    let table_ref = get_table_ref(&args[0]);
    let remove_cols = extract_string_list(&args[1]);
    let mut columns: Vec<SelectCol> = Vec::new();
    match columns_get(&ctx.known_columns, table_ref.as_str()) {
        Some(cols) => {
            let kept = remaining_columns(&cols, &remove_cols);
            columns = column_items(&kept);
        },
        None => {
            if ctx.dialect.supports_select_except() {
                ctx.warn(
                    0,
                    "UNKNOWN_COLUMNS",
                    "full column list unknown; RemoveColumns translated as EXCEPT clause",
                    None,
                );
                columns.push(SelectCol::Except { columns: remove_cols });
                assert(cols_v(columns@) =~= seq![columns@[0]@]);
            } else {
                let mut frag = owned("Table.RemoveColumns(");
                frag.append(table_ref.as_str());
                frag.append(", {");
                frag.append(join_strings(&remove_cols, ", ").as_str());
                frag.append("})");
                let mut reason = owned("RemoveColumns on unknown column set for dialect ");
                reason.append(ctx.dialect.name());
                let placeholder = ctx.untranslatable(0, frag.as_str(), reason.as_str());
                columns.push(SelectCol::Expr { expr: SqlExpr::Raw(placeholder), alias: None });
                assert(cols_v(columns@) =~= seq![columns@[0]@]);
            }
        },
    }
    TableOpResult::Select(select_from_table(columns, table_ref))
}

/// Models of SELECT statements.
pub open spec fn selects_v(v: Seq<SelectStmt>) -> Seq<SelectStmtV> {
    Seq::new(v.len(), |i: int| v[i]@)
}

/// The message for a name that is neither a binding nor an input file stem.
fn unresolved_text(name: &str) -> (r: String)
    ensures
        r@ == unresolved_message(name@),
{
    let mut m = owned("'");
    m.append(name);
    m.append("' is not a binding or a known input file stem");
    m
}

/// Adds one member of a `Table.Combine` to the statements so far, with its diagnostics.
fn combine_member(item: &MExpr, selects: &mut Vec<SelectStmt>, ctx: &mut TranslationContext)
    ensures
        same_scope(*final(ctx), *old(ctx)),
        final(ctx).joins() == old(ctx).joins(),
        (selects_v(final(selects)@), final(ctx).log()) == combine_step(
            ctx_tables(*old(ctx)),
            (selects_v(old(selects)@), old(ctx).log()),
            item@,
        ),
{
    let ghost before = selects_v(selects@);
    match item {
        MExpr::Identifier(name) => {
            let known_binding = columns_contains(&ctx.known_columns, name.as_str())
                || contains_name(&ctx.combine_bindings, name.as_str());
            let known_stem = contains_name(&ctx.input_file_stems, name.as_str());
            if known_binding || known_stem {
                let mut columns: Vec<SelectCol> = Vec::new();
                columns.push(SelectCol::Wildcard);
                assert(cols_v(columns@) =~= seq![SelectColV::Wildcard]);
                let stmt = select_from_table(columns, copy_string(name));
                selects.push(stmt);
                assert(selects_v(selects@) =~= before.push(selects@.last()@));
            } else {
                match ctx.on_error {
                    OnError::Fail => {
                        let m = unresolved_text(name.as_str());
                        ctx.error(0, "UNRESOLVED_COMBINE_TABLE", m.as_str(), Some(name.as_str()));
                    },
                    _ => {
                        if ctx.on_error == OnError::Warn {
                            let m = unresolved_text(name.as_str());
                            ctx.warn(0, "UNRESOLVED_COMBINE_TABLE", m.as_str(), Some(name.as_str()));
                        }
                        let mut raw = owned("/* UNRESOLVED: ");
                        raw.append(name.as_str());
                        raw.append(" */");
                        let mut stmt = SelectStmt::new();
                        let mut columns: Vec<SelectCol> = Vec::new();
                        columns.push(SelectCol::Expr { expr: SqlExpr::Raw(raw), alias: None });
                        stmt.columns = columns;
                        assert(stmt@.columns =~= seq![SelectColV::Expr { expr: SqlExprV::Raw(raw@), alias: None }]);
                        selects.push(stmt);
                        assert(selects_v(selects@) =~= before.push(selects@.last()@));
                    },
                }
            }
        },
        _ => {
            let frag = format_expr(item);
            let mut m = owned("'");
            m.append(frag.as_str());
            m.append("' is not a valid table reference in Table.Combine");
            ctx.warn(0, "UNRESOLVED_COMBINE_TABLE", m.as_str(), Some(frag.as_str()));
        },
    }
}

/// Translate `Table.Combine({Table1, Table2, ...})` → UNION ALL.
fn translate_combine(args: &Vec<MExpr>, ctx: &mut TranslationContext) -> (r: TableOpResult)
    ensures
        same_scope(*final(ctx), *old(ctx)),
        final(ctx).joins() == old(ctx).joins(),
        (r@, ctx_state(*final(ctx))) == tr_combine(ctx_tables(*old(ctx)), ctx_state(*old(ctx)), exprs_v(args@)),
{
    if args.len() == 0 {
        return untranslatable_result(ctx, "Table.Combine", "requires 1 argument (list of tables)");
    }
    let tables = match &args[0] {
        MExpr::List(items) => items,
        _ => {
            return untranslatable_result(ctx, "Table.Combine", "argument must be a list of tables");
        },
    };
    let ghost xs = exprs_v(tables@);
    assert(xs =~= exprs_v(args@)[0]->List_0);
    if tables.len() == 0 {
        return untranslatable_result(ctx, "Table.Combine", "empty table list");
    }
    let ghost t = ctx_tables(*ctx);
    let ghost log0 = ctx.log();
    let ghost joins0 = ctx.joins();
    let mut selects: Vec<SelectStmt> = Vec::new();
    let mut i: usize = 0;
    assert(xs.subrange(0, 0) =~= Seq::<MExprV>::empty());
    assert(selects_v(selects@) =~= Seq::<SelectStmtV>::empty());
    while i < tables.len()
        invariant
            i <= tables.len(),
            xs == exprs_v(tables@),
            t == ctx_tables(*ctx),
            joins0 == ctx.joins(),
            (selects_v(selects@), ctx.log()) == combine_members(t, log0, xs.subrange(0, i as int)),
        decreases tables.len() - i,
    {
        assert(xs.subrange(0, i + 1).drop_last() =~= xs.subrange(0, i as int));
        assert(xs.subrange(0, i + 1).last() == xs[i as int]);
        combine_member(&tables[i], &mut selects, ctx);
        i += 1;
    }
    assert(xs.subrange(0, tables.len() as int) =~= xs);
    if selects.len() == 0 {
        return untranslatable_result(ctx, "Table.Combine", "no valid tables to combine");
    }
    let ghost sv = selects_v(selects@);
    let mut first = selects.remove(0);
    assert(selects_v(selects@) =~= sv.skip(1));
    first.union_all = selects;
    assert(first@.union_all =~= sv.skip(1));
    TableOpResult::Select(first)
}

/// The replacement value of `Table.ReplaceErrorValues`: a literal, or a parameter.
fn replacement_value(e: &MExpr, ctx: &TranslationContext) -> (r: Option<SqlExpr>)
    ensures
        opt_expr_view(r) == replacement_of(ctx_tables(*ctx), e@),
{
    match e {
        MExpr::Literal(l) => Some(translate_literal(l)),
        MExpr::Identifier(n) => {
            if params_contains(&ctx.detected_params, n.as_str()) {
                let mut p = owned("/* PARAM: ");
                p.append(n.as_str());
                p.append(" */");
                Some(SqlExpr::Raw(p))
            } else {
                None
            }
        },
        _ => None,
    }
}

/// A column in an expression.
fn column(name: &String) -> (r: SqlExpr)
    ensures
        r@ == col(name@),
{
    SqlExpr::Column { table: None, name: copy_string(name) }
}

/// The column that replaces the errors of one column, with the diagnostics it needs.
fn replace_error_column(table: &String, c: &String, repl: &MExpr, ctx: &mut TranslationContext) -> (r: SelectCol)
    ensures
        same_scope(*final(ctx), *old(ctx)),
        final(ctx).joins() == old(ctx).joins(),
        (r@, final(ctx).log()) == replaced_column(ctx_tables(*old(ctx)), old(ctx).log(), table@, c@, repl@),
{
    match replacement_value(repl, ctx) {
        None => {
            let p = ctx.untranslatable(
                0,
                "non-literal replacement in ReplaceErrorValues",
                "non-literal replacement in ReplaceErrorValues",
            );
            SelectCol::Expr { expr: SqlExpr::Raw(p), alias: Some(copy_string(c)) }
        },
        Some(r) => {
            let ghost rv = r@;
            let mut key = copy_string(table);
            key.append("_");
            key.append(c.as_str());
            key.append("_type");
            match columns_get(&ctx.known_columns, key.as_str()) {
                Some(types) => {
                    if types.len() > 0 && ctx.dialect.supports_try_cast() {
                        let tc = SqlExpr::TryCast { expr: Box::new(column(c)), ty: copy_string(&types[0]) };
                        assert(tc@ == (SqlExprV::TryCast { expr: Box::new(col(c@)), ty: strings_view(types@)[0] }));
                        let mut args: Vec<SqlExpr> = Vec::new();
                        args.push(tc);
                        args.push(r);
                        let e = SqlExpr::Coalesce { args };
                        assert(e@->Coalesce_args =~= seq![tc@, rv]);
                        SelectCol::Expr { expr: e, alias: Some(copy_string(c)) }
                    } else {
                        let mut m = owned("ReplaceErrorValues on '");
                        m.append(c.as_str());
                        m.append("': postgres has no TRY_CAST; error trapping is approximate");
                        ctx.warn(0, "REPLACE_ERROR_APPROXIMATE", m.as_str(), None);
                        let cc = column(c);
                        let ghost ccv = cc@;
                        let mut args: Vec<SqlExpr> = Vec::new();
                        args.push(cc);
                        args.push(r);
                        let e = SqlExpr::Coalesce { args };
                        assert(e@->Coalesce_args =~= seq![ccv, rv]);
                        SelectCol::Expr { expr: e, alias: Some(copy_string(c)) }
                    }
                },
                None => {
                    let mut m = owned("ReplaceErrorValues on '");
                    m.append(c.as_str());
                    m.append(
                        "' has no preceding coercion context; translating as NULL replacement only — non-null SQL errors will not be caught.",
                    );
                    ctx.warn(0, "REPLACE_ERROR_APPROXIMATE", m.as_str(), None);
                    let cond = SqlExpr::IsNull { expr: Box::new(column(c)), negated: false };
                    assert(cond@ == (SqlExprV::IsNull { expr: Box::new(col(c@)), negated: false }));
                    let e = SqlExpr::CaseWhen { condition: Box::new(cond), then_expr: Box::new(r), else_expr: Box::new(column(c)) };
                    SelectCol::Expr { expr: e, alias: Some(copy_string(c)) }
                },
            }
        },
    }
}

/// Translate `Table.ReplaceErrorValues(table, {{"Col", value}, ...})` → error-trapping columns.
fn translate_replace_error_values(args: &Vec<MExpr>, ctx: &mut TranslationContext) -> (r: TableOpResult)
    ensures
        same_scope(*final(ctx), *old(ctx)),
        final(ctx).joins() == old(ctx).joins(),
        (r@, ctx_state(*final(ctx))) == tr_replace_errors(ctx_tables(*old(ctx)), ctx_state(*old(ctx)), exprs_v(args@)),
{
    if args.len() < 2 {
        return untranslatable_result(ctx, "Table.ReplaceErrorValues", "requires 2 arguments");
    }
    let table_ref = get_table_ref(&args[0]);
    let mut columns: Vec<SelectCol> = Vec::new();
    let ghost t = ctx_tables(*ctx);
    let ghost log0 = ctx.log();
    let ghost joins0 = ctx.joins();
    if let MExpr::List(specs) = &args[1] {
        let ghost xs = exprs_v(specs@);
        assert(xs =~= exprs_v(args@)[1]->List_0);
        let mut i: usize = 0;
        assert(cols_v(columns@) =~= Seq::<SelectColV>::empty());
        assert(xs.subrange(0, 0) =~= Seq::<MExprV>::empty());
        while i < specs.len()
            invariant
                i <= specs.len(),
                xs == exprs_v(specs@),
                t == ctx_tables(*ctx),
                joins0 == ctx.joins(),
                (cols_v(columns@), ctx.log()) == replaced_items(t, log0, table_ref@, xs.subrange(0, i as int)),
            decreases specs.len() - i,
        {
            assert(xs.subrange(0, i + 1).drop_last() =~= xs.subrange(0, i as int));
            assert(xs.subrange(0, i + 1).last() == xs[i as int]);
            let ghost before = cols_v(columns@);
            if let MExpr::List(items) = &specs[i] {
                assert(exprs_v(items@) =~= xs[i as int]->List_0);
                if items.len() >= 2 {
                    let c = extract_string(&items[0]);
                    let x = replace_error_column(&table_ref, &c, &items[1], ctx);
                    columns.push(x);
                    assert(cols_v(columns@) =~= before.push(x@));
                }
            }
            i += 1;
        }
        assert(xs.subrange(0, specs.len() as int) =~= xs);
    } else {
        assert(cols_v(columns@) =~= Seq::<SelectColV>::empty());
    }
    let ghost before = cols_v(columns@);
    columns.push(SelectCol::Wildcard);
    assert(cols_v(columns@) =~= before.push(SelectColV::Wildcard));
    TableOpResult::Select(select_from_table(columns, table_ref))
}

/// A function that is not a known table operation: a placeholder over its first argument.
fn translate_unknown_function(name: &str, args: &Vec<MExpr>, ctx: &mut TranslationContext) -> (r: TableOpResult)
    ensures
        same_scope(*final(ctx), *old(ctx)),
        final(ctx).joins() == old(ctx).joins(),
        (r@, ctx_state(*final(ctx))) == tr_unknown_function(ctx_tables(*old(ctx)), ctx_state(*old(ctx)), name@, exprs_v(args@)),
{
    let mut parts: Vec<String> = Vec::new();
    let mut i: usize = 0;
    while i < args.len()
        invariant
            i <= args.len(),
            parts.len() == i,
            forall|k: int| 0 <= k < i ==> parts@[k]@ == fmt_expr(args@[k]@),
        decreases args.len() - i,
    {
        parts.push(format_expr(&args[i]));
        i += 1;
    }
    assert(strings_view(parts@) =~= fmt_exprs(exprs_v(args@)));
    let mut frag = owned(name);
    frag.append("(");
    frag.append(join_strings(&parts, ", ").as_str());
    frag.append(")");
    let mut reason = owned(name);
    reason.append(" is not in the v1 feature set");
    let placeholder = ctx.untranslatable(0, frag.as_str(), reason.as_str());
    if args.len() > 0 {
        let table_ref = get_table_ref(&args[0]);
        let mut columns: Vec<SelectCol> = Vec::new();
        columns.push(SelectCol::Expr { expr: SqlExpr::Raw(placeholder), alias: None });
        assert(cols_v(columns@) =~= seq![columns@[0]@]);
        TableOpResult::Select(select_from_table(columns, table_ref))
    } else {
        TableOpResult::Raw(placeholder)
    }
}

/// Translate a table-level function call.
fn translate_table_function(name: &str, args: &Vec<MExpr>, ctx: &mut TranslationContext) -> (r: TableOpResult)
    ensures
        same_scope(*final(ctx), *old(ctx)),
        (r@, ctx_state(*final(ctx))) == tr_table_function(ctx_tables(*old(ctx)), ctx_state(*old(ctx)), name@, exprs_v(args@)),
{
    if str_eq(name, "Table.SelectRows") {
        translate_select_rows(args, ctx)
    } else if str_eq(name, "Table.SelectColumns") {
        translate_select_columns(args, ctx)
    } else if str_eq(name, "Table.RenameColumns") {
        translate_rename_columns(args, ctx)
    } else if str_eq(name, "Table.Join") {
        translate_join(args, false, ctx)
    } else if str_eq(name, "Table.NestedJoin") {
        translate_join(args, true, ctx)
    } else if str_eq(name, "Table.ExpandTableColumn") {
        translate_expand_table_column(args, ctx)
    } else if str_eq(name, "Table.Group") {
        translate_group(args, ctx)
    } else if str_eq(name, "Table.AddColumn") {
        translate_add_column(args, ctx)
    } else if str_eq(name, "Table.RemoveColumns") {
        translate_remove_columns(args, ctx)
    } else if str_eq(name, "Table.Combine") {
        translate_combine(args, ctx)
    } else if str_eq(name, "Table.TransformColumnTypes") {
        translate_transform_column_types(args, ctx)
    } else if str_eq(name, "Table.ReplaceErrorValues") {
        translate_replace_error_values(args, ctx)
    } else if str_eq(name, "Sql.Database") {
        match second_text_argument(args) {
            Some(schema) => {
                let mut raw = owned("/* DATABASE: ");
                raw.append(schema.as_str());
                raw.append(" */");
                TableOpResult::Raw(raw)
            },
            None => TableOpResult::Raw(owned("/* DATABASE */")),
        }
    } else {
        translate_unknown_function(name, args, ctx)
    }
}

/// Translate a table-level M expression into a SQL operation.
pub fn translate_table_expr(expr: &MExpr, ctx: &mut TranslationContext) -> (r: TableOpResult)
    ensures
        same_scope(*final(ctx), *old(ctx)),
        (r@, ctx_state(*final(ctx))) == tr_table(ctx_tables(*old(ctx)), ctx_state(*old(ctx)), expr@),
{
    match expr {
        MExpr::FunctionCall { name, args } => {
            assert(exprs_v(args@) =~= expr@->FunctionCall_args);
            translate_table_function(name.as_str(), args, ctx)
        },
        MExpr::Identifier(name) => TableOpResult::Reference(name.clone()),
        MExpr::FieldAccess { field, .. } => {
            let resolved = resolve_source(expr);
            match resolved.table {
                Some(table) => TableOpResult::SourceTable { schema: resolved.schema, table },
                None => {
                    if str_eq(field.as_str(), "Data") && resolved.raw.is_some() {
                        let mut raw = owned("/* SOURCE: ");
                        match resolved.raw {
                            Some(text) => raw.append(text.as_str()),
                            None => {},
                        }
                        raw.append(" */");
                        TableOpResult::Raw(raw)
                    } else {
                        TableOpResult::Reference(format_expr(expr))
                    }
                },
            }
        },
        MExpr::IndexAccess { .. } => {
            let resolved = resolve_source(expr);
            match resolved.table {
                Some(table) => TableOpResult::SourceTable { schema: resolved.schema, table },
                None => TableOpResult::Reference(format_expr(expr)),
            }
        },
        _ => {
            let frag = format_expr(expr);
            let placeholder = ctx.untranslatable(0, frag.as_str(), "Expression is not a recognized table operation");
            TableOpResult::Raw(placeholder)
        },
    }
}

} // verus!
