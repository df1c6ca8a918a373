//! Linking the steps of a `let` into a CTE chain: each kept step gets a unique CTE name,
//! references to steps are pointed at those names, and steps chosen for inlining are read
//! as parenthesised subqueries where they are used.
use vstd::prelude::*;
use crate::cte::{sanitized, sanitize_cte_name, valid_cte_name};
use crate::dialect::DialectId;
use crate::resolver::contains_name;
use crate::sql::{Cte, CteV, JoinClause, JoinClauseV, SelectStmt, SelectStmtV, TableRef, TableRefV};
use crate::text::{copy_string, nat_decimal, owned, strings_view, usize_to_string};
use crate::writer::{select_text, write_select};

verus! {

/// What a reference to a step reads, by step name; a later entry for a name wins.
pub open spec fn lookup_ref(m: Seq<(Seq<char>, TableRefV)>, k: Seq<char>) -> Option<TableRefV>
    decreases m.len(),
{
    if m.len() == 0 {
        None
    } else if m.last().0 == k {
        Some(m.last().1)
    } else {
        lookup_ref(m.drop_last(), k)
    }
}

/// A table reference pointed at what a step became: an unqualified name of a step reads
/// that step's CTE or subquery, keeping its own alias if it has one.
pub open spec fn relink_ref(r: TableRefV, m: Seq<(Seq<char>, TableRefV)>) -> TableRefV {
    if r.schema is None {
        match lookup_ref(m, r.name) {
            Some(x) => TableRefV {
                schema: None,
                name: x.name,
                alias: if r.alias is Some { r.alias } else { x.alias },
            },
            None => r,
        }
    } else {
        r
    }
}

/// A SELECT whose FROM and JOIN tables are relinked.
pub open spec fn relink_flat(s: SelectStmtV, m: Seq<(Seq<char>, TableRefV)>) -> SelectStmtV {
    SelectStmtV {
        from: match s.from {
            Some(r) => Some(relink_ref(r, m)),
            None => None,
        },
        joins: Seq::new(
            s.joins.len(),
            |i: int| JoinClauseV { join_type: s.joins[i].join_type, table: relink_ref(s.joins[i].table, m), on: s.joins[i].on },
        ),
        ..s
    }
}

/// A SELECT and its `UNION ALL` members, relinked.
pub open spec fn relink(s: SelectStmtV, m: Seq<(Seq<char>, TableRefV)>) -> SelectStmtV {
    SelectStmtV {
        union_all: Seq::new(s.union_all.len(), |i: int| relink_flat(s.union_all[i], m)),
        ..relink_flat(s, m)
    }
}

/// The names of CTEs.
pub open spec fn cte_names(cs: Seq<CteV>) -> Seq<Seq<char>> {
    Seq::new(cs.len(), |i: int| cs[i].name)
}

/// A name with a numeric suffix.
pub open spec fn numbered(base: Seq<char>, k: nat) -> Seq<char> {
    base + "_"@ + nat_decimal(k)
}

/// The first of `base_k`, `base_{k+1}`, … not yet used (trying at most `fuel` more).
pub open spec fn fresh_from(used: Seq<Seq<char>>, base: Seq<char>, k: nat, fuel: nat) -> Seq<char>
    decreases fuel,
{
    if fuel == 0 || !used.contains(numbered(base, k)) {
        numbered(base, k)
    } else {
        fresh_from(used, base, k + 1, (fuel - 1) as nat)
    }
}

/// A CTE name not yet used: the base itself, else the base with `_2`, `_3`, … .
pub open spec fn fresh_name(used: Seq<Seq<char>>, base: Seq<char>) -> Seq<char> {
    if !used.contains(base) {
        base
    } else {
        fresh_from(used, base, 2, used.len())
    }
}

/// The CTEs linked so far, and what each step name now reads.
pub struct LinkV {
    pub ctes: Seq<CteV>,
    pub refs: Seq<(Seq<char>, TableRefV)>,
}

/// One step linked. Its SELECT is relinked to the steps before it. An inlined step emits no
/// CTE and is read as its SELECT in parentheses, under its own name when that is a valid
/// identifier; any other step becomes a CTE under a fresh sanitized name, read under its own
/// name as an alias when that differs and is valid.
pub open spec fn link_step(d: DialectId, inlined: Seq<Seq<char>>, acc: LinkV, c: CteV) -> LinkV {
    let sel = relink(c.select, acc.refs);
    let u = fresh_name(cte_names(acc.ctes), sanitized(c.name));
    if inlined.contains(c.name) {
        LinkV {
            ctes: acc.ctes,
            refs: acc.refs.push(
                (c.name, TableRefV {
                    schema: None,
                    name: "("@ + select_text(sel, d) + ")"@,
                    alias: Some(if valid_cte_name(c.name) { c.name } else { u }),
                }),
            ),
        }
    } else {
        LinkV {
            ctes: acc.ctes.push(CteV { name: u, select: sel }),
            refs: acc.refs.push(
                (c.name, TableRefV {
                    schema: None,
                    name: u,
                    alias: if u == c.name || !valid_cte_name(c.name) { None } else { Some(c.name) },
                }),
            ),
        }
    }
}

/// The first `n` steps linked.
pub open spec fn link_fold(d: DialectId, inlined: Seq<Seq<char>>, cs: Seq<CteV>, n: nat) -> LinkV
    decreases n,
{
    if n == 0 || n > cs.len() {
        LinkV { ctes: Seq::empty(), refs: Seq::empty() }
    } else {
        link_step(d, inlined, link_fold(d, inlined, cs, (n - 1) as nat), cs[n - 1])
    }
}

/// Models of reference entries.
pub open spec fn refs_v(m: Seq<(String, TableRef)>) -> Seq<(Seq<char>, TableRefV)> {
    Seq::new(m.len(), |i: int| (m[i].0@, m[i].1@))
}

/// Models of CTEs.
pub open spec fn link_ctes_v(v: Seq<Cte>) -> Seq<CteV> {
    Seq::new(v.len(), |i: int| v[i]@)
}

fn copy_opt(o: &Option<String>) -> (r: Option<String>)
    ensures
        crate::sql::opt_view(r) == crate::sql::opt_view(*o),
{
    match o {
        Some(s) => Some(copy_string(s)),
        None => None,
    }
}

fn copy_ref(r: &TableRef) -> (c: TableRef)
    ensures
        c@ == r@,
{
    TableRef { schema: copy_opt(&r.schema), name: copy_string(&r.name), alias: copy_opt(&r.alias) }
}

/// What a step name reads, if it names a step.
pub(crate) fn find_ref(m: &Vec<(String, TableRef)>, k: &str) -> (r: Option<TableRef>)
    ensures
        match r {
            Some(x) => lookup_ref(refs_v(m@), k@) == Some(x@),
            None => lookup_ref(refs_v(m@), k@) is None,
        },
{
    let ghost mv = refs_v(m@);
    let mut j: usize = m.len();
    assert(mv.take(j as int) =~= mv);
    while j > 0
        invariant
            j <= m.len(),
            mv == refs_v(m@),
            lookup_ref(mv, k@) == lookup_ref(mv.take(j as int), k@),
        decreases j,
    {
        assert(mv.take(j as int).drop_last() =~= mv.take(j - 1));
        if crate::text::str_eq(m[j - 1].0.as_str(), k) {
            return Some(copy_ref(&m[j - 1].1));
        }
        j -= 1;
    }
    None
}

fn relink_ref_exec(r: TableRef, m: &Vec<(String, TableRef)>) -> (o: TableRef)
    ensures
        o@ == relink_ref(r@, refs_v(m@)),
{
    if r.schema.is_none() {
        match find_ref(m, r.name.as_str()) {
            Some(x) => {
                let alias = if r.alias.is_some() { r.alias } else { x.alias };
                TableRef { schema: None, name: x.name, alias }
            },
            None => r,
        }
    } else {
        r
    }
}

fn relink_flat_exec(s: SelectStmt, m: &Vec<(String, TableRef)>) -> (o: SelectStmt)
    ensures
        o@ == relink_flat(s@, refs_v(m@)),
{
    let ghost sv = s@;
    let SelectStmt { columns, from, joins, where_clause, group_by, having, order_by, limit, union_all } = s;
    let new_from = match from {
        Some(r) => Some(relink_ref_exec(r, m)),
        None => None,
    };
    let ghost jv = joins@;
    let jn: usize = joins.len();
    assert(jv.len() == jn);
    let mut rest = joins;
    let mut out: Vec<JoinClause> = Vec::new();
    let mut i: usize = 0;
    while rest.len() > 0
        invariant
            i + rest.len() == jv.len(),
            jv.len() <= usize::MAX,
            rest@ == jv.skip(i as int),
            out.len() == i,
            forall|k: int| 0 <= k < i ==> #[trigger] out@[k]@ == (JoinClauseV {
                join_type: jv[k]@.join_type,
                table: relink_ref(jv[k]@.table, refs_v(m@)),
                on: jv[k]@.on,
            }),
        decreases rest.len(),
    {
        let j = rest.remove(0);
        assert(j == jv[i as int]);
        let JoinClause { join_type, table, on } = j;
        out.push(JoinClause { join_type, table: relink_ref_exec(table, m), on });
        assert(rest@ =~= jv.skip(i + 1));
        i += 1;
    }
    let o = SelectStmt { columns, from: new_from, joins: out, where_clause, group_by, having, order_by, limit, union_all };
    assert(o@.joins =~= relink_flat(sv, refs_v(m@)).joins);
    assert(o@.columns =~= sv.columns);
    assert(o@.order_by =~= sv.order_by);
    assert(o@.union_all =~= sv.union_all);
    o
}

fn relink_exec(s: SelectStmt, m: &Vec<(String, TableRef)>) -> (o: SelectStmt)
    ensures
        o@ == relink(s@, refs_v(m@)),
{
    let ghost sv = s@;
    let SelectStmt { columns, from, joins, where_clause, group_by, having, order_by, limit, union_all } = s;
    let ghost uv = union_all@;
    let un: usize = union_all.len();
    assert(uv.len() == un);
    assert(forall|k: int| 0 <= k < uv.len() ==> #[trigger] sv.union_all[k] == uv[k]@);
    let mut rest = union_all;
    let mut members: Vec<SelectStmt> = Vec::new();
    let mut i: usize = 0;
    while rest.len() > 0
        invariant
            i + rest.len() == uv.len(),
            uv.len() <= usize::MAX,
            sv.union_all.len() == uv.len(),
            forall|k: int| 0 <= k < uv.len() ==> #[trigger] sv.union_all[k] == uv[k]@,
            rest@ == uv.skip(i as int),
            members.len() == i,
            forall|k: int| 0 <= k < i ==> #[trigger] members@[k]@ == relink_flat(uv[k]@, refs_v(m@)),
        decreases rest.len(),
    {
        let u = rest.remove(0);
        assert(u == uv[i as int]);
        members.push(relink_flat_exec(u, m));
        assert(rest@ =~= uv.skip(i + 1));
        i += 1;
    }
    let flat = relink_flat_exec(
        SelectStmt { columns, from, joins, where_clause, group_by, having, order_by, limit, union_all: Vec::new() },
        m,
    );
    let SelectStmt { columns, from, joins, where_clause, group_by, having, order_by, limit, union_all: _ } = flat;
    let o = SelectStmt { columns, from, joins, where_clause, group_by, having, order_by, limit, union_all: members };
    assert forall|k: int| 0 <= k < uv.len() implies #[trigger] o@.union_all[k] == relink(sv, refs_v(m@)).union_all[k] by {
        assert(o@.union_all[k] == members@[k]@);
    }
    assert(o@.union_all =~= relink(sv, refs_v(m@)).union_all);
    assert(o@.columns =~= sv.columns);
    assert(o@.joins =~= relink(sv, refs_v(m@)).joins);
    assert(o@.order_by =~= sv.order_by);
    o
}

/// Appends the decimal representation of `n`.
fn push_decimal_wide(out: &mut String, n: u128)
    ensures
        final(out)@ == old(out)@ + nat_decimal(n as nat),
    decreases n,
{
    if n >= 10 {
        push_decimal_wide(out, n / 10);
    }
    crate::text::push_char(out, crate::text::digit_of((n % 10) as u64));
    assert(old(out)@ + nat_decimal(n as nat) =~= if n >= 10 {
        old(out)@ + nat_decimal((n / 10) as nat) + seq![crate::text::digit_char((n % 10) as nat)]
    } else {
        old(out)@ + seq![crate::text::digit_char((n % 10) as nat)]
    });
}

/// `base_k` as text.
fn numbered_exec(base: &String, k: u128) -> (r: String)
    ensures
        r@ == numbered(base@, k as nat),
{
    let mut r = copy_string(base);
    proof {
        reveal_strlit("_");
    }
    r.append("_");
    push_decimal_wide(&mut r, k);
    r
}

/// A CTE name not yet used.
fn fresh_name_exec(used: &Vec<String>, base: String) -> (r: String)
    ensures
        r@ == fresh_name(strings_view(used@), base@),
{
    let ghost uv = strings_view(used@);
    if !contains_name(used, base.as_str()) {
        return base;
    }
    let mut k: u128 = 2;
    let mut fuel: usize = used.len();
    let mut cand = numbered_exec(&base, k);
    while fuel > 0 && contains_name(used, cand.as_str())
        invariant
            k == 2 + (used.len() - fuel),
            fuel <= used.len(),
            uv == strings_view(used@),
            cand@ == numbered(base@, k as nat),
            fresh_name(uv, base@) == fresh_from(uv, base@, k as nat, fuel as nat),
        decreases fuel,
    {
        k += 1;
        fuel -= 1;
        cand = numbered_exec(&base, k);
    }
    cand
}

/// Links one step (see `link_step`), appending what it emits.
fn link_one(
    c: Cte,
    inlined: &Vec<String>,
    dialect: DialectId,
    ctes: &mut Vec<Cte>,
    names: &mut Vec<String>,
    refs: &mut Vec<(String, TableRef)>,
)
    requires
        strings_view(old(names)@) == cte_names(link_ctes_v(old(ctes)@)),
    ensures
        strings_view(final(names)@) == cte_names(link_ctes_v(final(ctes)@)),
        (LinkV { ctes: link_ctes_v(final(ctes)@), refs: refs_v(final(refs)@) }) == link_step(
            dialect,
            strings_view(inlined@),
            LinkV { ctes: link_ctes_v(old(ctes)@), refs: refs_v(old(refs)@) },
            c@,
        ),
{
    let ghost cv = c@;
    let Cte { name, select } = c;
    let sel = relink_exec(select, refs);
    let u = fresh_name_exec(names, sanitize_cte_name(name.as_str()));
    let ghost before_ctes = link_ctes_v(ctes@);
    let ghost before_refs = refs_v(refs@);
    if contains_name(inlined, name.as_str()) {
        let text = write_select(&sel, &dialect);
        let mut subquery = owned("(");
        subquery.append(text.as_str());
        subquery.append(")");
        proof {
            reveal_strlit("(");
            reveal_strlit(")");
        }
        let alias = if crate::cte::is_valid_cte_name(name.as_str()) { copy_string(&name) } else { u };
        refs.push((name, TableRef { schema: None, name: subquery, alias: Some(alias) }));
        assert(refs_v(refs@) =~= before_refs.push(refs_v(refs@).last()));
        assert(link_ctes_v(ctes@) =~= before_ctes);
    } else {
        let same = crate::text::str_eq(u.as_str(), name.as_str());
        let alias = if same || !crate::cte::is_valid_cte_name(name.as_str()) { None } else { Some(copy_string(&name)) };
        let ghost before_names = strings_view(names@);
        names.push(copy_string(&u));
        assert(strings_view(names@) =~= before_names.push(u@));
        ctes.push(Cte { name: copy_string(&u), select: sel });
        refs.push((name, TableRef { schema: None, name: u, alias }));
        assert(link_ctes_v(ctes@) =~= before_ctes.push(link_ctes_v(ctes@).last()));
        assert(refs_v(refs@) =~= before_refs.push(refs_v(refs@).last()));
        assert(strings_view(names@) =~= cte_names(link_ctes_v(ctes@)));
    }
}

/// Links the steps of a `let` in order (see `link_step`): the CTEs of the query, and what each
/// step name reads.
pub fn link_steps(entries: Vec<Cte>, inlined: &Vec<String>, dialect: DialectId) -> (r: (Vec<Cte>, Vec<(String, TableRef)>))
    ensures
        link_ctes_v(r.0@) == link_fold(dialect, strings_view(inlined@), link_ctes_v(entries@), entries@.len() as nat).ctes,
        refs_v(r.1@) == link_fold(dialect, strings_view(inlined@), link_ctes_v(entries@), entries@.len() as nat).refs,
{
    let ghost raw = entries@;
    let ghost ev = link_ctes_v(entries@);
    let ghost iv = strings_view(inlined@);
    let n = entries.len();
    let mut rest = entries;
    let mut ctes: Vec<Cte> = Vec::new();
    let mut names: Vec<String> = Vec::new();
    let mut refs: Vec<(String, TableRef)> = Vec::new();
    let mut i: usize = 0;
    assert(link_ctes_v(ctes@) =~= Seq::<CteV>::empty());
    assert(refs_v(refs@) =~= Seq::<(Seq<char>, TableRefV)>::empty());
    assert(strings_view(names@) =~= cte_names(link_ctes_v(ctes@)));
    while i < n
        invariant
            i <= n == raw.len() == ev.len(),
            ev == link_ctes_v(raw),
            rest@ == raw.skip(i as int),
            iv == strings_view(inlined@),
            strings_view(names@) == cte_names(link_ctes_v(ctes@)),
            link_ctes_v(ctes@) == link_fold(dialect, iv, ev, i as nat).ctes,
            refs_v(refs@) == link_fold(dialect, iv, ev, i as nat).refs,
        decreases n - i,
    {
        let c = rest.remove(0);
        assert(c == raw[i as int]);
        assert(c@ == ev[i as int]);
        assert(rest@ =~= raw.skip(i + 1));
        link_one(c, inlined, dialect, &mut ctes, &mut names, &mut refs);
        i += 1;
    }
    (ctes, refs)
}

/// Distinct digits have distinct characters.
proof fn lemma_digit_char_injective(a: nat, b: nat)
    requires
        a < 10,
        b < 10,
        crate::text::digit_char(a) == crate::text::digit_char(b),
    ensures
        a == b,
{
}

/// A decimal text has at least one digit, and at least two from 10 on.
proof fn lemma_nat_decimal_len(n: nat)
    ensures
        nat_decimal(n).len() >= 1,
        n >= 10 ==> nat_decimal(n).len() >= 2,
    decreases n,
{
    if n >= 10 {
        lemma_nat_decimal_len(n / 10);
    }
}

/// Distinct numbers have distinct decimal texts.
proof fn lemma_nat_decimal_injective(a: nat, b: nat)
    requires
        nat_decimal(a) == nat_decimal(b),
    ensures
        a == b,
    decreases a,
{
    lemma_nat_decimal_len(a);
    lemma_nat_decimal_len(b);
    if a < 10 && b < 10 {
        assert(nat_decimal(a) == seq![crate::text::digit_char(a)]);
        assert(nat_decimal(b) == seq![crate::text::digit_char(b)]);
        assert(seq![crate::text::digit_char(a)][0] == crate::text::digit_char(a));
        assert(seq![crate::text::digit_char(b)][0] == crate::text::digit_char(b));
        assert(nat_decimal(a)[0] == nat_decimal(b)[0]);
        lemma_digit_char_injective(a, b);
    } else if a >= 10 && b >= 10 {
        assert(nat_decimal(a).drop_last() == nat_decimal(b).drop_last());
        assert(nat_decimal(a / 10) =~= nat_decimal(a).drop_last());
        assert(nat_decimal(b / 10) =~= nat_decimal(b).drop_last());
        lemma_nat_decimal_injective(a / 10, b / 10);
        assert(nat_decimal(a) == nat_decimal(a / 10).push(crate::text::digit_char(a % 10)));
        assert(nat_decimal(b) == nat_decimal(b / 10).push(crate::text::digit_char(b % 10)));
        assert(nat_decimal(a).last() == crate::text::digit_char(a % 10));
        assert(nat_decimal(b).last() == crate::text::digit_char(b % 10));
        assert(nat_decimal(a).last() == nat_decimal(b).last());
        lemma_digit_char_injective(a % 10, b % 10);
    } else {
        assert(nat_decimal(a).len() != nat_decimal(b).len());
    }
}

/// Distinct suffixes give distinct names.
proof fn lemma_numbered_injective(base: Seq<char>, j: nat, k: nat)
    requires
        numbered(base, j) == numbered(base, k),
    ensures
        j == k,
{
    reveal_strlit("_");
    assert(numbered(base, j).skip(base.len() as int + 1) =~= nat_decimal(j));
    assert(numbered(base, k).skip(base.len() as int + 1) =~= nat_decimal(k));
    lemma_nat_decimal_injective(j, k);
}

/// The search for a fresh name ends on an unused name, or every name it tried is used.
proof fn lemma_fresh_from(used: Seq<Seq<char>>, base: Seq<char>, k: nat, fuel: nat)
    ensures
        !used.contains(fresh_from(used, base, k, fuel))
            || forall|j: nat| k <= j <= k + fuel ==> used.contains(#[trigger] numbered(base, j)),
    decreases fuel,
{
    if fuel > 0 && used.contains(numbered(base, k)) {
        lemma_fresh_from(used, base, k + 1, (fuel - 1) as nat);
        if used.contains(fresh_from(used, base, k, fuel)) {
            assert forall|j: nat| k <= j <= k + fuel implies used.contains(#[trigger] numbered(base, j)) by {
                if j > k {
                    assert(k + 1 <= j <= (k + 1) + (fuel - 1));
                }
            }
        }
    }
}

/// A fresh name is not among the used ones.
pub proof fn lemma_fresh_name_unused(used: Seq<Seq<char>>, base: Seq<char>)
    ensures
        !used.contains(fresh_name(used, base)),
{
    if used.contains(base) {
        let l = used.len();
        lemma_fresh_from(used, base, 2, l);
        if used.contains(fresh_name(used, base)) {
            let x = vstd::set_lib::set_int_range(2, 3 + l as int);
            vstd::set_lib::lemma_int_range(2, 3 + l as int);
            let f = |j: int| numbered(base, j as nat);
            assert(vstd::relations::injective_on(f, x)) by {
                assert forall|a: int, b: int| x.contains(a) && x.contains(b) && #[trigger] f(a) == #[trigger] f(b) implies a == b by {
                    lemma_numbered_injective(base, a as nat, b as nat);
                }
            }
            let y = x.map(f);
            vstd::set_lib::lemma_map_size(x, y, f);
            assert(y.subset_of(used.to_set())) by {
                assert forall|n: Seq<char>| y.contains(n) implies used.to_set().contains(n) by {
                    let j = choose|j: int| x.contains(j) && f(j) == n;
                    assert(used.contains(numbered(base, j as nat)));
                }
            }
            used.lemma_cardinality_of_set();
            vstd::seq_lib::seq_to_set_is_finite(used);
            vstd::set_lib::lemma_len_subset(y, used.to_set());
        }
    }
}

/// The CTEs of a linked chain have pairwise distinct names.
pub proof fn law_linked_names_distinct(d: DialectId, inlined: Seq<Seq<char>>, cs: Seq<CteV>, n: nat)
    ensures
        cte_names(link_fold(d, inlined, cs, n).ctes).no_duplicates(),
    decreases n,
{
    if n == 0 || n > cs.len() {
        assert(cte_names(link_fold(d, inlined, cs, n).ctes) =~= Seq::<Seq<char>>::empty());
    } else {
        law_linked_names_distinct(d, inlined, cs, (n - 1) as nat);
        let acc = link_fold(d, inlined, cs, (n - 1) as nat);
        let c = cs[n - 1];
        if !inlined.contains(c.name) {
            let u = fresh_name(cte_names(acc.ctes), sanitized(c.name));
            lemma_fresh_name_unused(cte_names(acc.ctes), sanitized(c.name));
            assert(cte_names(acc.ctes.push(CteV { name: u, select: relink(c.select, acc.refs) }))
                =~= cte_names(acc.ctes).push(u));
        }
    }
}

/// Whether a reference reads one of the given CTEs or a parenthesised subquery.
pub open spec fn reads_cte_or_subquery(ctes: Seq<CteV>, x: TableRefV) -> bool {
    cte_names(ctes).contains(x.name) || (x.name.len() > 0 && x.name[0] == '(')
}

/// What a lookup finds is one of the entries.
proof fn lemma_lookup_ref_entry(m: Seq<(Seq<char>, TableRefV)>, k: Seq<char>)
    ensures
        lookup_ref(m, k) matches Some(x) ==> exists|i: int| 0 <= i < m.len() && #[trigger] m[i].1 == x,
    decreases m.len(),
{
    if m.len() > 0 && m.last().0 != k {
        lemma_lookup_ref_entry(m.drop_last(), k);
        if lookup_ref(m, k) is Some {
            let x = lookup_ref(m, k)->0;
            let i = choose|i: int| 0 <= i < m.drop_last().len() && #[trigger] m.drop_last()[i].1 == x;
            assert(m[i].1 == x);
        }
    } else if m.len() > 0 {
        assert(m[m.len() - 1].1 == m.last().1);
    }
}

/// Every step name of a linked chain reads one of the chain's CTEs or a parenthesised
/// subquery: no reference is left pointing at a CTE that was not emitted.
pub proof fn law_linked_references_resolve(d: DialectId, inlined: Seq<Seq<char>>, cs: Seq<CteV>, n: nat)
    ensures
        forall|i: int| 0 <= i < link_fold(d, inlined, cs, n).refs.len() ==> reads_cte_or_subquery(
            link_fold(d, inlined, cs, n).ctes,
            #[trigger] link_fold(d, inlined, cs, n).refs[i].1,
        ),
        forall|k: Seq<char>| #[trigger] lookup_ref(link_fold(d, inlined, cs, n).refs, k) is Some
            ==> reads_cte_or_subquery(link_fold(d, inlined, cs, n).ctes, lookup_ref(link_fold(d, inlined, cs, n).refs, k)->0),
    decreases n,
{
    let l = link_fold(d, inlined, cs, n);
    if n > 0 && n <= cs.len() {
        law_linked_references_resolve(d, inlined, cs, (n - 1) as nat);
        let acc = link_fold(d, inlined, cs, (n - 1) as nat);
        let c = cs[n - 1];
        reveal_strlit("(");
        assert forall|i: int| 0 <= i < l.refs.len() implies reads_cte_or_subquery(l.ctes, #[trigger] l.refs[i].1) by {
            if i < acc.refs.len() {
                assert(l.refs[i] == acc.refs[i]);
                assert(reads_cte_or_subquery(acc.ctes, acc.refs[i].1));
                if cte_names(acc.ctes).contains(acc.refs[i].1.name) {
                    let j = choose|j: int| 0 <= j < cte_names(acc.ctes).len() && cte_names(acc.ctes)[j] == acc.refs[i].1.name;
                    assert(cte_names(l.ctes)[j] == acc.refs[i].1.name);
                }
            } else {
                if !inlined.contains(c.name) {
                    assert(cte_names(l.ctes)[l.ctes.len() - 1] == l.refs[i].1.name);
                } else {
                    let sel = relink(c.select, acc.refs);
                    assert(l.refs[i].1.name == "("@ + select_text(sel, d) + ")"@);
                    assert(l.refs[i].1.name[0] == '(');
                }
            }
        }
    }
    assert forall|k: Seq<char>| #[trigger] lookup_ref(l.refs, k) is Some
        implies reads_cte_or_subquery(l.ctes, lookup_ref(l.refs, k)->0) by {
        lemma_lookup_ref_entry(l.refs, k);
    }
}

} // verus!
