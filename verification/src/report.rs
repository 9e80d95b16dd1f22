//! The reporter: turns the raw counters into the final frequency table,
//! sorted by count descending, with every syscall number resolved to its
//! display name.

use std::collections::HashMap;
use vstd::prelude::*;
use crate::catalog::{is_catalog, spec_syscall_name, syscall_name};
use crate::counts::{lemma_sum_push, lemma_sum_remove, sum_counts};
use crate::session::TraceSession;

verus! {

broadcast use vstd::seq_lib::group_to_multiset_ensures;

/// Counts never increase along the table.
pub open spec fn sorted_desc(s: Seq<(u64, u64)>) -> bool {
    forall|i: int, j: int| 0 <= i < j < s.len() ==> s[i].1 >= s[j].1
}

/// Counts never increase along the named table.
pub open spec fn sorted_desc_named(s: Seq<(String, u64)>) -> bool {
    forall|i: int, j: int| 0 <= i < j < s.len() ==> s[i].1 >= s[j].1
}

/// The total of all counts in a named table.
pub open spec fn sum_named(s: Seq<(String, u64)>) -> int
    decreases s.len(),
{
    if s.len() == 0 {
        0
    } else {
        sum_named(s.drop_last()) + s.last().1
    }
}

/// A named table is the resolved image of some reordering `s` of the raw
/// counters: same rows as the counters, counts non-increasing, and each row
/// carrying the display name of its syscall number.
pub open spec fn is_resolved_sort(
    t: Seq<(String, u64)>,
    counts: Seq<(u64, u64)>,
    s: Seq<(u64, u64)>,
) -> bool {
    &&& s.to_multiset() == counts.to_multiset()
    &&& sorted_desc(s)
    &&& t.len() == s.len()
    &&& forall|i: int|
        0 <= i < t.len() ==> t[i].1 == s[i].1 && t[i].0@ == spec_syscall_name(s[i].0)
}

/// Reorders the count table so counts never increase, keeping exactly the
/// same rows and the same total.
pub fn sort_counts_desc(v: &Vec<(u64, u64)>) -> (r: Vec<(u64, u64)>)
    ensures
        r@.to_multiset() == v@.to_multiset(),
        sorted_desc(r@),
        sum_counts(r@) == sum_counts(v@),
        r@.len() == v@.len(),
{
    let mut rest: Vec<(u64, u64)> = Vec::new();
    let mut i: usize = 0;
    while i < v.len()
        invariant
            i <= v@.len(),
            rest@ == v@.subrange(0, i as int),
        decreases v@.len() - i,
    {
        rest.push(v[i]);
        proof {
            assert(rest@ =~= v@.subrange(0, i as int + 1));
        }
        i += 1;
    }
    proof {
        assert(rest@ =~= v@);
    }
    let mut out: Vec<(u64, u64)> = Vec::new();
    while rest.len() > 0
        invariant
            out@.to_multiset().add(rest@.to_multiset()) == v@.to_multiset(),
            sum_counts(out@) + sum_counts(rest@) == sum_counts(v@),
            sorted_desc(out@),
            forall|a: int, b: int|
                0 <= a < out@.len() && 0 <= b < rest@.len() ==> out@[a].1 >= rest@[b].1,
            out@.len() + rest@.len() == v@.len(),
        decreases rest@.len(),
    {
        let mut best: usize = 0;
        let mut k: usize = 1;
        while k < rest.len()
            invariant
                0 < rest@.len(),
                best < rest@.len(),
                k <= rest@.len(),
                forall|j: int| 0 <= j < k ==> rest@[best as int].1 >= rest@[j].1,
            decreases rest@.len() - k,
        {
            if rest[k].1 > rest[best].1 {
                best = k;
            }
            k += 1;
        }
        let ghost out0 = out@;
        let ghost rest0 = rest@;
        let x = rest.remove(best);
        out.push(x);
        proof {
            lemma_sum_remove(rest0, best as int);
            lemma_sum_push(out0, x);
            assert(rest0.to_multiset().count(x) >= 1) by {
                assert(rest0.contains(x));
            }
            assert(out@.to_multiset().add(rest@.to_multiset()) =~= out0.to_multiset().add(
                rest0.to_multiset(),
            ));
            assert(forall|b: int|
                0 <= b < rest@.len() ==> rest@[b] == (if b < best {
                    rest0[b]
                } else {
                    rest0[b + 1]
                }));
        }
    }
    out
}

/// Builds the frequency table from a count table: the counts reordered so
/// they never increase, each row resolved to its syscall's display name.
pub fn summarize(counts: &Vec<(u64, u64)>, names: &HashMap<u64, &'static str>) -> (t: Vec<
    (String, u64),
>)
    requires
        is_catalog(names@),
    ensures
        t@.len() == counts@.len(),
        sorted_desc_named(t@),
        sum_named(t@) == sum_counts(counts@),
        exists|s: Seq<(u64, u64)>| is_resolved_sort(t@, counts@, s),
{
    let sorted = sort_counts_desc(counts);
    let mut t: Vec<(String, u64)> = Vec::new();
    let mut i: usize = 0;
    while i < sorted.len()
        invariant
            i <= sorted@.len(),
            t@.len() == i,
            forall|j: int|
                0 <= j < i ==> t@[j].1 == sorted@[j].1 && t@[j].0@ == spec_syscall_name(
                    sorted@[j].0,
                ),
            sum_named(t@) == sum_counts(sorted@.subrange(0, i as int)),
            is_catalog(names@),
            sorted@.to_multiset() == counts@.to_multiset(),
            sorted_desc(sorted@),
            sum_counts(sorted@) == sum_counts(counts@),
            sorted@.len() == counts@.len(),
        decreases sorted@.len() - i,
    {
        let ghost t0 = t@;
        let name = syscall_name(names, sorted[i].0);
        let c = sorted[i].1;
        t.push((name, c));
        proof {
            assert(t@.drop_last() =~= t0);
            assert(sorted@.subrange(0, i as int + 1).drop_last() =~= sorted@.subrange(
                0,
                i as int,
            ));
        }
        i += 1;
    }
    proof {
        assert(sorted@.subrange(0, sorted@.len() as int) =~= sorted@);
        assert(is_resolved_sort(t@, counts@, sorted@));
    }
    t
}

impl TraceSession {
    /// The final report: one row per distinct observed syscall, ordered by
    /// count descending; its counts total exactly the observed entries.
    pub fn frequency_table(&self) -> (t: Vec<(String, u64)>)
        requires
            self.wf(),
        ensures
            t@.len() == self.counts@.len(),
            sorted_desc_named(t@),
            sum_named(t@) == self.entries,
            exists|s: Seq<(u64, u64)>| is_resolved_sort(t@, self.counts@, s),
    {
        summarize(&self.counts, &self.names)
    }
}

} // verus!
