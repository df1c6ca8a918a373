//! Insertion-ordered maps (`indexmap::IndexMap`) keyed by strings, and their models:
//! the entries in insertion order, each key once.
use vstd::prelude::*;
use indexmap::IndexMap;
use crate::text::{lemma_lex_order, lex_lt};

verus! {

#[verifier::external_type_specification]
#[verifier::external_body]
#[verifier::reject_recursive_types(K)]
#[verifier::reject_recursive_types(V)]
#[verifier::reject_recursive_types(S)]
pub struct ExIndexMap<K, V, S>(IndexMap<K, V, S>);

/// The value stored under a key, if any (keys occur at most once).
pub open spec fn find_key<T>(es: Seq<(Seq<char>, T)>, k: Seq<char>) -> Option<T>
    decreases es.len(),
{
    if es.len() == 0 {
        None
    } else if es[0].0 == k {
        Some(es[0].1)
    } else {
        find_key(es.skip(1), k)
    }
}

/// Whether a key is present.
pub open spec fn has_key<T>(es: Seq<(Seq<char>, T)>, k: Seq<char>) -> bool {
    exists|i: int| 0 <= i < es.len() && es[i].0 == k
}

/// The keys of the entries.
pub open spec fn entry_keys<T>(es: Seq<(Seq<char>, T)>) -> Set<Seq<char>> {
    Set::new(|k: Seq<char>| has_key(es, k))
}

/// Whether no key occurs twice.
pub open spec fn distinct_keys<T>(es: Seq<(Seq<char>, T)>) -> bool {
    forall|i: int, j: int| 0 <= i < j < es.len() ==> es[i].0 != es[j].0
}

/// `insert`: the value replaces the one stored under the key, which keeps its place;
/// a new key goes last.
pub open spec fn put<T>(es: Seq<(Seq<char>, T)>, k: Seq<char>, v: T) -> Seq<(Seq<char>, T)>
    decreases es.len(),
{
    if es.len() == 0 {
        seq![(k, v)]
    } else if es[0].0 == k {
        es.update(0, (k, v))
    } else {
        seq![es[0]] + put(es.skip(1), k, v)
    }
}

/// `entry(k).or_insert(v)`: a new key goes last with `v`; a present key is left alone.
pub open spec fn put_absent<T>(es: Seq<(Seq<char>, T)>, k: Seq<char>, v: T) -> Seq<(Seq<char>, T)> {
    if has_key(es, k) {
        es
    } else {
        es.push((k, v))
    }
}

/// `find_key` finds a present key.
pub proof fn lemma_find_key<T>(es: Seq<(Seq<char>, T)>, k: Seq<char>)
    ensures
        has_key(es, k) <==> find_key(es, k) is Some,
        !has_key(es, k) ==> find_key(es, k) is None,
        distinct_keys(es) ==> forall|i: int| 0 <= i < es.len() && es[i].0 == k ==> find_key(es, k) == Some(es[i].1),
    decreases es.len(),
{
    if es.len() > 0 {
        lemma_find_key(es.skip(1), k);
        if es[0].0 != k {
            assert forall|i: int| 0 <= i < es.len() && es[i].0 == k implies 0 <= i - 1 < es.skip(1).len()
                && es.skip(1)[i - 1].0 == k by {}
            if has_key(es.skip(1), k) {
                let i = choose|i: int| 0 <= i < es.skip(1).len() && es.skip(1)[i].0 == k;
                assert(es[i + 1].0 == k);
            }
        }
    }
}

/// Entries whose values are all `(key, file, line)` for a fixed file and line.
pub open spec fn uniform_values(es: Seq<(Seq<char>, (Seq<char>, Seq<char>, usize))>, file: Seq<char>, line: usize) -> bool {
    forall|i: int| 0 <= i < es.len() ==> es[i].1 == (es[i].0, file, line)
}

/// What `put_absent` does to the keys, and that it keeps earlier entries.
pub proof fn lemma_put_absent<T>(es: Seq<(Seq<char>, T)>, k: Seq<char>, v: T)
    ensures
        entry_keys(put_absent(es, k, v)) == entry_keys(es).insert(k),
        distinct_keys(es) ==> distinct_keys(put_absent(es, k, v)),
        forall|i: int| 0 <= i < es.len() ==> put_absent(es, k, v)[i] == es[i],
        has_key(es, k) ==> put_absent(es, k, v) == es,
        !has_key(es, k) ==> put_absent(es, k, v) == es.push((k, v)),
{
    let r = put_absent(es, k, v);
    if has_key(es, k) {
        assert(entry_keys(es).insert(k) =~= entry_keys(es));
    } else {
        assert forall|x: Seq<char>| entry_keys(r).contains(x) <==> entry_keys(es).insert(k).contains(x) by {
            if x == k {
                assert(r[es.len() as int].0 == k);
            }
            if has_key(es, x) {
                let i = choose|i: int| 0 <= i < es.len() && es[i].0 == x;
                assert(r[i].0 == x);
            }
            if has_key(r, x) && x != k {
                let i = choose|i: int| 0 <= i < r.len() && r[i].0 == x;
                assert(i < es.len());
                assert(es[i].0 == x);
            }
        }
        assert(entry_keys(r) =~= entry_keys(es).insert(k));
    }
}

/// Whether the keys are in strictly increasing lexicographic order.
pub open spec fn sorted_keys<T>(es: Seq<(Seq<char>, T)>) -> bool {
    forall|i: int, j: int| 0 <= i < j < es.len() ==> lex_lt(es[i].0, es[j].0)
}

/// Keys after adding one entry at the end.
pub proof fn lemma_keys_push<T>(es: Seq<(Seq<char>, T)>, x: (Seq<char>, T))
    ensures
        entry_keys(es.push(x)) == entry_keys(es).insert(x.0),
        distinct_keys(es.push(x)) <==> distinct_keys(es) && !has_key(es, x.0),
{
    let r = es.push(x);
    assert forall|k: Seq<char>| entry_keys(r).contains(k) <==> entry_keys(es).insert(x.0).contains(k) by {
        if has_key(es, k) {
            let i = choose|i: int| 0 <= i < es.len() && es[i].0 == k;
            assert(r[i].0 == k);
        }
        if k == x.0 {
            assert(r[es.len() as int].0 == k);
        }
        if has_key(r, k) && k != x.0 {
            let i = choose|i: int| 0 <= i < r.len() && r[i].0 == k;
            assert(es[i].0 == k);
        }
    }
    assert(entry_keys(r) =~= entry_keys(es).insert(x.0));
    if distinct_keys(r) {
        assert forall|i: int, j: int| 0 <= i < j < es.len() implies es[i].0 != es[j].0 by {
            assert(r[i] == es[i] && r[j] == es[j]);
        }
        if has_key(es, x.0) {
            let i = choose|i: int| 0 <= i < es.len() && es[i].0 == x.0;
            assert(r[i].0 == r[es.len() as int].0);
        }
    }
}

/// Keys after adding one entry at a position.
pub proof fn lemma_keys_insert<T>(es: Seq<(Seq<char>, T)>, j: int, x: (Seq<char>, T))
    requires
        0 <= j <= es.len(),
    ensures
        entry_keys(es.insert(j, x)) == entry_keys(es).insert(x.0),
{
    let r = es.insert(j, x);
    assert forall|k: Seq<char>| entry_keys(r).contains(k) <==> entry_keys(es).insert(x.0).contains(k) by {
        if has_key(es, k) {
            let i = choose|i: int| 0 <= i < es.len() && es[i].0 == k;
            if i < j {
                assert(r[i].0 == k);
            } else {
                assert(r[i + 1].0 == k);
            }
        }
        if k == x.0 {
            assert(r[j].0 == k);
        }
        if has_key(r, k) && k != x.0 {
            let i = choose|i: int| 0 <= i < r.len() && r[i].0 == k;
            if i < j {
                assert(es[i].0 == k);
            } else {
                assert(i != j);
                assert(es[i - 1].0 == k);
            }
        }
    }
    assert(entry_keys(r) =~= entry_keys(es).insert(x.0));
}

/// `put` of a new key adds it last.
pub proof fn lemma_put_new<T>(es: Seq<(Seq<char>, T)>, k: Seq<char>, v: T)
    requires
        !has_key(es, k),
    ensures
        put(es, k, v) == es.push((k, v)),
    decreases es.len(),
{
    if es.len() > 0 {
        assert(es[0].0 != k);
        assert forall|i: int| 0 <= i < es.skip(1).len() implies es.skip(1)[i].0 != k by {
            assert(es[i + 1].0 != k);
        }
        lemma_put_new(es.skip(1), k, v);
        assert(seq![es[0]] + es.skip(1).push((k, v)) =~= es.push((k, v)));
    }
}

/// What a lookup finds after `put`: the new value under its key, and the old one elsewhere.
pub proof fn lemma_find_put<T>(es: Seq<(Seq<char>, T)>, k: Seq<char>, v: T, x: Seq<char>)
    ensures
        find_key(put(es, k, v), x) == (if x == k { Some(v) } else { find_key(es, x) }),
    decreases es.len(),
{
    if es.len() == 0 {
        let r = seq![(k, v)];
        assert(r.skip(1) =~= Seq::<(Seq<char>, T)>::empty());
        assert(find_key(r.skip(1), x) is None);
    } else if es[0].0 == k {
        let r = es.update(0, (k, v));
        assert(r.skip(1) =~= es.skip(1));
        assert(r[0] == (k, v));
    } else {
        lemma_find_put(es.skip(1), k, v, x);
        let r = seq![es[0]] + put(es.skip(1), k, v);
        assert(r[0] == es[0]);
        assert(r.skip(1) =~= put(es.skip(1), k, v));
    }
}

/// The parameter entries over a set of names, sorted by name, each `(name, file, 1)`.
pub open spec fn sorted_params(names: Set<Seq<char>>, file: Seq<char>) -> Seq<(Seq<char>, (Seq<char>, Seq<char>, usize))> {
    choose|es: Seq<(Seq<char>, (Seq<char>, Seq<char>, usize))>|
        sorted_keys(es) && entry_keys(es) == names && uniform_values(es, file, 1)
}

/// The keys after the first entry of a sorted sequence.
proof fn lemma_sorted_rest<T>(a: Seq<(Seq<char>, T)>)
    requires
        sorted_keys(a),
        a.len() > 0,
    ensures
        sorted_keys(a.skip(1)),
        entry_keys(a.skip(1)) == entry_keys(a).remove(a[0].0),
        forall|k: Seq<char>| entry_keys(a).contains(k) && k != a[0].0 ==> lex_lt(a[0].0, k),
{
    let r = a.skip(1);
    assert forall|i: int, j: int| 0 <= i < j < r.len() implies lex_lt(r[i].0, r[j].0) by {
        assert(r[i] == a[i + 1] && r[j] == a[j + 1]);
    }
    assert forall|k: Seq<char>| entry_keys(r).contains(k) <==> entry_keys(a).remove(a[0].0).contains(k) by {
        if has_key(r, k) {
            let i = choose|i: int| 0 <= i < r.len() && r[i].0 == k;
            assert(a[i + 1].0 == k);
            assert(lex_lt(a[0].0, k));
            lemma_lex_order(a[0].0, k, k);
        }
        if has_key(a, k) && k != a[0].0 {
            let i = choose|i: int| 0 <= i < a.len() && a[i].0 == k;
            assert(i != 0);
            assert(r[i - 1].0 == k);
        }
    }
    assert(entry_keys(r) =~= entry_keys(a).remove(a[0].0));
    assert forall|k: Seq<char>| entry_keys(a).contains(k) && k != a[0].0 implies lex_lt(a[0].0, k) by {
        let i = choose|i: int| 0 <= i < a.len() && a[i].0 == k;
        assert(i != 0);
    }
}

/// Two sorted entry sequences with the same keys and values `(key, file, 1)` are equal.
pub proof fn lemma_sorted_unique(
    a: Seq<(Seq<char>, (Seq<char>, Seq<char>, usize))>,
    b: Seq<(Seq<char>, (Seq<char>, Seq<char>, usize))>,
    file: Seq<char>,
)
    requires
        sorted_keys(a),
        sorted_keys(b),
        entry_keys(a) == entry_keys(b),
        uniform_values(a, file, 1),
        uniform_values(b, file, 1),
    ensures
        a == b,
    decreases a.len(),
{
    if a.len() == 0 {
        if b.len() > 0 {
            assert(entry_keys(b).contains(b[0].0));
            assert(!has_key(a, b[0].0));
        }
        assert(a =~= b);
    } else {
        if b.len() == 0 {
            assert(entry_keys(a).contains(a[0].0));
            assert(!has_key(b, a[0].0));
        }
        lemma_sorted_rest(a);
        lemma_sorted_rest(b);
        assert(entry_keys(a).contains(a[0].0));
        assert(entry_keys(b).contains(b[0].0));
        if a[0].0 != b[0].0 {
            assert(lex_lt(a[0].0, b[0].0));
            assert(lex_lt(b[0].0, a[0].0));
            lemma_lex_order(a[0].0, b[0].0, a[0].0);
        }
        assert(uniform_values(a.skip(1), file, 1)) by {
            assert forall|i: int| 0 <= i < a.skip(1).len() implies a.skip(1)[i].1 == (a.skip(1)[i].0, file, 1usize) by {
                assert(a.skip(1)[i] == a[i + 1]);
            }
        }
        assert(uniform_values(b.skip(1), file, 1)) by {
            assert forall|i: int| 0 <= i < b.skip(1).len() implies b.skip(1)[i].1 == (b.skip(1)[i].0, file, 1usize) by {
                assert(b.skip(1)[i] == b[i + 1]);
            }
        }
        lemma_sorted_unique(a.skip(1), b.skip(1), file);
        assert(a[0] == b[0]);
        assert(a =~= seq![a[0]] + a.skip(1));
        assert(b =~= seq![b[0]] + b.skip(1));
    }
}

/// A sorted entry sequence with values `(key, file, 1)` is the one `sorted_params` names.
pub proof fn lemma_sorted_params(es: Seq<(Seq<char>, (Seq<char>, Seq<char>, usize))>, names: Set<Seq<char>>, file: Seq<char>)
    requires
        sorted_keys(es),
        entry_keys(es) == names,
        uniform_values(es, file, 1),
    ensures
        es == sorted_params(names, file),
{
    let c = sorted_params(names, file);
    assert(sorted_keys(c) && entry_keys(c) == names && uniform_values(c, file, 1));
    lemma_sorted_unique(es, c, file);
}

} // verus!
