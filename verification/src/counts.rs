//! The per-syscall invocation counters: a table of (syscall number, count)
//! pairs with distinct keys, where every count was put there by observing a
//! syscall entry.

use vstd::prelude::*;

verus! {

/// Position of a syscall number's row in a count table, `-1` when absent.
pub open spec fn key_index(s: Seq<(u64, u64)>, n: u64) -> int
    decreases s.len(),
{
    if s.len() == 0 {
        -1
    } else if s[0].0 == n {
        0
    } else {
        let r = key_index(s.drop_first(), n);
        if r == -1 {
            -1
        } else {
            r + 1
        }
    }
}

/// The recorded count for a syscall number, zero when it was never observed.
pub open spec fn count_of(s: Seq<(u64, u64)>, n: u64) -> u64 {
    let i = key_index(s, n);
    if i == -1 {
        0
    } else {
        s[i].1
    }
}

/// One more, saturating at the machine limit.
pub open spec fn sat_inc(c: u64) -> u64 {
    if c < u64::MAX {
        (c + 1) as u64
    } else {
        c
    }
}

/// The table after one more observation of a syscall number: its row's count
/// grows by one, or a fresh row with count one appears at the end.
pub open spec fn spec_bump(s: Seq<(u64, u64)>, n: u64) -> Seq<(u64, u64)> {
    let i = key_index(s, n);
    if i == -1 {
        s.push((n, 1u64))
    } else {
        s.update(i, (n, sat_inc(s[i].1)))
    }
}

/// No syscall number has two rows.
pub open spec fn distinct_keys(s: Seq<(u64, u64)>) -> bool {
    forall|i: int, j: int| 0 <= i < j < s.len() ==> s[i].0 != s[j].0
}

/// Every row records at least one observation: the table never holds a count
/// for a syscall that was never seen.
pub open spec fn positive_counts(s: Seq<(u64, u64)>) -> bool {
    forall|i: int| 0 <= i < s.len() ==> s[i].1 >= 1
}

/// The total of all recorded counts.
pub open spec fn sum_counts(s: Seq<(u64, u64)>) -> int
    decreases s.len(),
{
    if s.len() == 0 {
        0
    } else {
        sum_counts(s.drop_last()) + s.last().1
    }
}

pub proof fn lemma_key_index(s: Seq<(u64, u64)>, n: u64)
    ensures
        -1 <= key_index(s, n) < s.len(),
        key_index(s, n) >= 0 ==> s[key_index(s, n)].0 == n,
        forall|j: int| 0 <= j < key_index(s, n) ==> s[j].0 != n,
        key_index(s, n) == -1 ==> forall|j: int| 0 <= j < s.len() ==> s[j].0 != n,
    decreases s.len(),
{
    if s.len() > 0 && s[0].0 != n {
        lemma_key_index(s.drop_first(), n);
        assert forall|j: int| 0 <= j < key_index(s, n) implies s[j].0 != n by {
            if j > 0 {
                assert(s.drop_first()[j - 1] == s[j]);
            }
        }
        if key_index(s, n) == -1 {
            assert forall|j: int| 0 <= j < s.len() implies s[j].0 != n by {
                if j > 0 {
                    assert(s.drop_first()[j - 1] == s[j]);
                }
            }
        }
    }
}

/// The first row carrying a key is the one `key_index` finds.
pub proof fn lemma_key_index_first(s: Seq<(u64, u64)>, n: u64, k: int)
    requires
        0 <= k < s.len(),
        s[k].0 == n,
        forall|j: int| 0 <= j < k ==> s[j].0 != n,
    ensures
        key_index(s, n) == k,
    decreases s.len(),
{
    if k > 0 {
        assert(forall|j: int|
            0 <= j < s.drop_first().len() ==> s.drop_first()[j] == s[j + 1]);
        lemma_key_index_first(s.drop_first(), n, k - 1);
    }
}

pub proof fn lemma_sum_push(s: Seq<(u64, u64)>, x: (u64, u64))
    ensures
        sum_counts(s.push(x)) == sum_counts(s) + x.1,
{
    assert(s.push(x).drop_last() =~= s);
    assert(s.push(x).last() == x);
}

pub proof fn lemma_sum_update(s: Seq<(u64, u64)>, i: int, x: (u64, u64))
    requires
        0 <= i < s.len(),
    ensures
        sum_counts(s.update(i, x)) == sum_counts(s) - s[i].1 + x.1,
    decreases s.len(),
{
    let t = s.update(i, x);
    if i == s.len() - 1 {
        assert(t.drop_last() =~= s.drop_last());
        assert(t.last() == x);
    } else {
        lemma_sum_update(s.drop_last(), i, x);
        assert(t.drop_last() =~= s.drop_last().update(i, x));
        assert(t.last() == s.last());
    }
}

pub proof fn lemma_sum_remove(s: Seq<(u64, u64)>, i: int)
    requires
        0 <= i < s.len(),
    ensures
        sum_counts(s.remove(i)) == sum_counts(s) - s[i].1,
    decreases s.len(),
{
    let t = s.remove(i);
    if i == s.len() - 1 {
        assert(t =~= s.drop_last());
    } else {
        lemma_sum_remove(s.drop_last(), i);
        assert(t.drop_last() =~= s.drop_last().remove(i));
        assert(t.last() == s.last());
    }
}

pub proof fn lemma_sum_nonneg(s: Seq<(u64, u64)>)
    ensures
        sum_counts(s) >= 0,
    decreases s.len(),
{
    if s.len() > 0 {
        lemma_sum_nonneg(s.drop_last());
    }
}

/// A single count never exceeds the total.
pub proof fn lemma_count_le_sum(s: Seq<(u64, u64)>, i: int)
    requires
        0 <= i < s.len(),
    ensures
        s[i].1 <= sum_counts(s),
    decreases s.len(),
{
    if i == s.len() - 1 {
        lemma_sum_nonneg(s.drop_last());
    } else {
        lemma_count_le_sum(s.drop_last(), i);
    }
}

/// One observation adds exactly one to the total and keeps the table's
/// shape: distinct keys, positive counts, and the observed number's count
/// one higher.
pub proof fn lemma_bump(s: Seq<(u64, u64)>, n: u64)
    requires
        distinct_keys(s),
        positive_counts(s),
        sum_counts(s) < u64::MAX,
    ensures
        distinct_keys(spec_bump(s, n)),
        positive_counts(spec_bump(s, n)),
        sum_counts(spec_bump(s, n)) == sum_counts(s) + 1,
        count_of(spec_bump(s, n), n) == count_of(s, n) + 1,
        forall|o: u64| o != n ==> count_of(spec_bump(s, n), o) == count_of(s, o),
{
    lemma_key_index(s, n);
    let i = key_index(s, n);
    let t = spec_bump(s, n);
    if i == -1 {
        lemma_sum_push(s, (n, 1u64));
        lemma_key_index_first(t, n, s.len() as int);
        assert forall|o: u64| o != n implies count_of(t, o) == count_of(s, o) by {
            lemma_key_index(s, o);
            let k = key_index(s, o);
            if k == -1 {
                lemma_key_index(t, o);
                if key_index(t, o) >= 0 {
                    assert(t[key_index(t, o)].0 == o);
                }
            } else {
                lemma_key_index_first(t, o, k);
            }
        }
    } else {
        lemma_count_le_sum(s, i);
        lemma_sum_update(s, i, (n, sat_inc(s[i].1)));
        lemma_key_index_first(t, n, i);
        assert forall|o: u64| o != n implies count_of(t, o) == count_of(s, o) by {
            lemma_key_index(s, o);
            let k = key_index(s, o);
            if k == -1 {
                lemma_key_index(t, o);
                if key_index(t, o) >= 0 {
                    assert(t[key_index(t, o)].0 == o);
                }
            } else {
                lemma_key_index_first(t, o, k);
            }
        }
    }
}

/// Records one observation of a syscall number in the count table.
pub fn record_syscall(counts: &mut Vec<(u64, u64)>, num: u64)
    requires
        distinct_keys(old(counts)@),
        positive_counts(old(counts)@),
        sum_counts(old(counts)@) < u64::MAX,
    ensures
        final(counts)@ == spec_bump(old(counts)@, num),
{
    let ghost s0 = counts@;
    let mut i: usize = 0;
    while i < counts.len()
        invariant
            i <= counts@.len(),
            counts@ == s0,
            s0 == old(counts)@,
            forall|j: int| 0 <= j < i ==> s0[j].0 != num,
            distinct_keys(s0),
            positive_counts(s0),
            sum_counts(s0) < u64::MAX,
        decreases counts@.len() - i,
    {
        if counts[i].0 == num {
            proof {
                lemma_key_index_first(s0, num, i as int);
                lemma_count_le_sum(s0, i as int);
            }
            let c: u64 = counts[i].1;
            counts.set(i, (num, c + 1));
            proof {
                assert(counts@ =~= spec_bump(s0, num));
            }
            return;
        }
        i += 1;
    }
    proof {
        lemma_key_index(s0, num);
    }
    counts.push((num, 1));
    proof {
        assert(counts@ =~= spec_bump(s0, num));
    }
}

/// Reads the recorded count for a syscall number.
pub fn lookup_count(counts: &Vec<(u64, u64)>, num: u64) -> (c: u64)
    ensures
        c == count_of(counts@, num),
{
    let mut i: usize = 0;
    while i < counts.len()
        invariant
            i <= counts@.len(),
            forall|j: int| 0 <= j < i ==> counts@[j].0 != num,
        decreases counts@.len() - i,
    {
        if counts[i].0 == num {
            proof {
                lemma_key_index_first(counts@, num, i as int);
            }
            return counts[i].1;
        }
        i += 1;
    }
    proof {
        lemma_key_index(counts@, num);
    }
    0
}

} // verus!
