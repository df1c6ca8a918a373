//! The run summary, error lines, and the names of output files.
use vstd::prelude::*;
use crate::text::{nat_decimal, owned, replace_char, str_eq, push_replaced, u64_to_string, usize_to_string};

verus! {

/// The summary of a run: counts of translated queries, errors and warnings, and of
/// parameters when there are any.
pub open spec fn summary_text(translated: usize, errors: usize, warnings: usize, params: usize) -> Seq<char> {
    nat_decimal(translated as nat) + " translated, "@ + nat_decimal(errors as nat) + " errors, "@ + nat_decimal(
        warnings as nat,
    ) + " warnings"@ + if params > 0 {
        ", "@ + nat_decimal(params as nat) + " parameters detected"@
    } else {
        Seq::empty()
    }
}

/// The summary message of a run.
pub fn summary_message(translated: usize, errors: usize, warnings: usize, params: usize) -> (r: String)
    ensures
        r@ == summary_text(translated, errors, warnings, params),
{
    let mut m = usize_to_string(translated);
    m.append(" translated, ");
    m.append(usize_to_string(errors).as_str());
    m.append(" errors, ");
    m.append(usize_to_string(warnings).as_str());
    m.append(" warnings");
    if params > 0 {
        m.append(", ");
        m.append(usize_to_string(params).as_str());
        m.append(" parameters detected");
    }
    m
}

/// The summary of a run as one JSON line; `params_detected` is present only when
/// parameters were found.
pub open spec fn summary_json_text(message: Seq<char>, params: usize, duration_ms: u64) -> Seq<char> {
    "{\"level\":\"info\",\"file\":null,\"line\":null,\"code\":\"SUMMARY\",\"message\":\""@ + message + "\""@
        + if params > 0 {
        ",\"params_detected\":"@ + nat_decimal(params as nat)
    } else {
        Seq::empty()
    } + ",\"duration_ms\":"@ + nat_decimal(duration_ms as nat) + "}"@
}

/// The summary of a run as one JSON line.
pub fn summary_json(message: &str, params: usize, duration_ms: u64) -> (r: String)
    ensures
        r@ == summary_json_text(message@, params, duration_ms),
{
    let mut out = owned("{\"level\":\"info\",\"file\":null,\"line\":null,\"code\":\"SUMMARY\",\"message\":\"");
    out.append(message);
    out.append("\"");
    if params > 0 {
        out.append(",\"params_detected\":");
        out.append(usize_to_string(params).as_str());
    }
    out.append(",\"duration_ms\":");
    out.append(u64_to_string(duration_ms).as_str());
    out.append("}");
    out
}

/// An error outside any diagnostic as one JSON line: the message with each `"` escaped.
pub open spec fn error_json_text(message: Seq<char>) -> Seq<char> {
    "{\"level\":\"error\",\"file\":null,\"line\":null,\"code\":\"ERROR\",\"message\":\""@ + replace_char(
        message,
        '"',
        "\\\""@,
    ) + "\"}"@
}

/// An error outside any diagnostic as one JSON line.
pub fn error_json(message: &str) -> (r: String)
    ensures
        r@ == error_json_text(message@),
{
    let mut out = owned("{\"level\":\"error\",\"file\":null,\"line\":null,\"code\":\"ERROR\",\"message\":\"");
    push_replaced(&mut out, message, '"', "\\\"");
    out.append("\"}");
    out
}

/// The file names handed out so far, each with how often it was asked for.
pub struct OutputNames {
    /// Names with their counts, in the order first asked for.
    pub counts: Vec<(String, usize)>,
}

/// The count stored for a name, or 0.
pub open spec fn name_count(counts: Seq<(Seq<char>, usize)>, name: Seq<char>) -> nat
    decreases counts.len(),
{
    if counts.len() == 0 {
        0
    } else if counts.last().0 == name {
        counts.last().1 as nat
    } else {
        name_count(counts.drop_last(), name)
    }
}

/// The name a file gets the `n`-th time (from 1) its sanitized name is asked for: the name
/// itself the first time, then the name with `_n`.
pub open spec fn numbered_name(name: Seq<char>, n: nat) -> Seq<char> {
    if n > 1 {
        name + "_"@ + nat_decimal(n)
    } else {
        name
    }
}

impl OutputNames {
    /// Models of the stored counts.
    pub open spec fn entries(&self) -> Seq<(Seq<char>, usize)> {
        Seq::new(self.counts@.len(), |i: int| (self.counts@[i].0@, self.counts@[i].1))
    }

    /// No names handed out yet.
    pub fn new() -> (r: Self)
        ensures
            r.counts@.len() == 0,
            r.entries() == Seq::<(Seq<char>, usize)>::empty(),
    {
        let r = OutputNames { counts: Vec::new() };
        assert(r.entries() =~= Seq::<(Seq<char>, usize)>::empty());
        r
    }

    /// The file name for a sanitized query name: the name the first time, the name with
    /// `_2`, `_3`, … after that.
    pub fn next_name(&mut self, name: &str) -> (r: String)
        requires
            name_count(old(self).entries(), name@) < usize::MAX,
        ensures
            name_count(final(self).entries(), name@) == name_count(old(self).entries(), name@) + 1,
            forall|k: Seq<char>| k != name@ ==> name_count(final(self).entries(), k) == name_count(old(self).entries(), k),
            r@ == numbered_name(name@, name_count(old(self).entries(), name@) + 1),
    {
        let ghost es = self.entries();
        let mut j: usize = self.counts.len();
        let mut found = false;
        assert(es.take(j as int) =~= es);
        while j > 0 && !found
            invariant
                j <= self.counts.len(),
                es == self.entries(),
                es.len() == self.counts.len(),
                found ==> j < es.len() && es[j as int].0 == name@,
                forall|i: int| (if found { j < i } else { j <= i }) && i < es.len() ==> es[i].0 != name@,
                !found ==> name_count(es, name@) == name_count(es.take(j as int), name@),
            decreases j + (if found { 0int } else { 1int }),
        {
            assert(es.take(j as int).drop_last() =~= es.take(j - 1));
            assert(es.take(j as int).last() == es[j - 1]);
            if str_eq(self.counts[j - 1].0.as_str(), name) {
                found = true;
            }
            j -= 1;
        }
        let ghost old_count = name_count(es, name@);
        let n: usize = if found {
            proof {
                lemma_count_set(es, j as int, es[j as int].1, name@);
                assert(es.update(j as int, (es[j as int].0, es[j as int].1)) =~= es);
            }
            let c = self.counts[j].1 + 1;
            proof {
                lemma_count_set(es, j as int, c, name@);
                assert forall|k: Seq<char>| k != name@ implies name_count(es.update(j as int, (es[j as int].0, c)), k) == name_count(
                    es,
                    k,
                ) by {
                    lemma_count_set(es, j as int, c, k);
                }
            }
            self.counts.set(j, (owned(name), c));
            assert(self.entries() =~= es.update(j as int, (name@, c)));
            c
        } else {
            assert(es.take(0) =~= Seq::<(Seq<char>, usize)>::empty());
            self.counts.push((owned(name), 1));
            assert(self.entries() =~= es.push((name@, 1usize)));
            assert(self.entries().drop_last() =~= es);
            assert forall|k: Seq<char>| k != name@ implies name_count(self.entries(), k) == name_count(es, k) by {
                assert(self.entries().last().0 == name@);
            }
            1
        };
        if n > 1 {
            let mut r = owned(name);
            r.append("_");
            r.append(usize_to_string(n).as_str());
            r
        } else {
            owned(name)
        }
    }
}

/// Setting the count of the last entry with a name changes that name's count, and no other.
proof fn lemma_count_set(es: Seq<(Seq<char>, usize)>, j: int, c: usize, x: Seq<char>)
    requires
        0 <= j < es.len(),
        forall|i: int| j < i < es.len() ==> es[i].0 != es[j].0,
    ensures
        name_count(es.update(j, (es[j].0, c)), x) == (if x == es[j].0 { c as nat } else { name_count(es, x) }),
    decreases es.len(),
{
    let u = es.update(j, (es[j].0, c));
    if j == es.len() - 1 {
        assert(u.drop_last() =~= es.drop_last());
        assert(u.last() == (es[j].0, c));
    } else {
        assert(u.last() == es.last());
        assert(es.last() == es[es.len() - 1]);
        assert(es.last().0 != es[j].0);
        let d = es.drop_last();
        assert(u.drop_last() =~= d.update(j, (d[j].0, c)));
        assert forall|i: int| j < i < d.len() implies d[i].0 != d[j].0 by {
            assert(d[i] == es[i] && d[j] == es[j]);
        }
        lemma_count_set(d, j, c, x);
    }
}

} // verus!
