//! Delta computation over stable-ID sets.
//!
//! For two runs, `new` counts the IDs present now but not before, and
//! `fixed` counts the IDs present before but gone now. The counts are set
//! differences: repeated IDs in a list count once.

use vstd::prelude::*;

use crate::graph::row_view;
use crate::graph::vec_str_contains;
use vstd::set_lib::lemma_set_difference_len;

verus! {

/// Delta result over the two most recent completed runs.
#[derive(Debug, PartialEq, Eq)]
pub struct DeltaResult {
    /// Test failures present now but not in the previous run.
    pub new_test_failures: i32,
    /// Test failures of the previous run that are gone now.
    pub fixed_test_failures: i32,
    /// Findings present now but not in the previous run.
    pub new_findings: i32,
    /// Findings of the previous run that are gone now.
    pub fixed_findings: i32,
}

/// The set of stable IDs in a list.
pub open spec fn sid_set(v: Seq<String>) -> Set<Seq<char>> {
    row_view(v).to_set()
}

fn dedup(v: &Vec<String>) -> (r: Vec<String>)
    ensures
        row_view(r@).no_duplicates(),
        row_view(r@).to_set() == sid_set(v@),
{
    let mut out: Vec<String> = Vec::new();
    let mut i: usize = 0;
    while i < v.len()
        invariant
            i <= v@.len(),
            row_view(out@).no_duplicates(),
            forall|t: Seq<char>|
                #[trigger] row_view(out@).contains(t) <==> row_view(v@.take(i as int)).contains(
                    t,
                ),
        decreases v@.len() - i,
    {
        proof {
            v@.lemma_take_succ_push(i as int);
            assert(row_view(v@.take(i as int + 1)) =~= row_view(v@.take(i as int)).push(
                v@[i as int]@,
            ));
        }
        let ghost o0 = row_view(out@);
        let ghost pre = row_view(v@.take(i as int));
        let ghost x = v@[i as int]@;
        if !vec_str_contains(&out, &v[i]) {
            out.push(v[i].clone());
            proof {
                assert(row_view(out@) =~= o0.push(x));
                crate::discovery::lemma_push_keeps_no_dup(o0, x);
                assert forall|t: Seq<char>|
                    #[trigger] row_view(out@).contains(t) <==> row_view(
                    v@.take(i as int + 1),
                ).contains(t) by {
                    vstd::seq_lib::lemma_seq_contains_after_push(o0, x, t);
                    vstd::seq_lib::lemma_seq_contains_after_push(pre, x, t);
                };
            }
        } else {
            proof {
                assert forall|t: Seq<char>|
                    #[trigger] row_view(out@).contains(t) <==> row_view(
                    v@.take(i as int + 1),
                ).contains(t) by {
                    vstd::seq_lib::lemma_seq_contains_after_push(pre, x, t);
                };
            }
        }
        i += 1;
    }
    proof {
        assert(v@.take(v@.len() as int) =~= v@);
        assert(row_view(out@).to_set() =~= sid_set(v@));
    }
    out
}

/// Counts the IDs of `current` that `previous` lacks, and the IDs of
/// `previous` that `current` lacks: the two set-difference sizes.
pub fn delta_counts(current: &Vec<String>, previous: &Vec<String>) -> (r: (usize, usize))
    ensures
        r.0 == sid_set(current@).difference(sid_set(previous@)).len(),
        r.1 == sid_set(previous@).difference(sid_set(current@)).len(),
{
    let a = diff_count(current, previous);
    let b = diff_count(previous, current);
    (a, b)
}

fn diff_count(from: &Vec<String>, minus: &Vec<String>) -> (r: usize)
    ensures
        r == sid_set(from@).difference(sid_set(minus@)).len(),
{
    let uniq = dedup(from);
    let mut out: Vec<String> = Vec::new();
    let mut i: usize = 0;
    while i < uniq.len()
        invariant
            i <= uniq@.len(),
            row_view(uniq@).no_duplicates(),
            row_view(uniq@).to_set() == sid_set(from@),
            row_view(out@).no_duplicates(),
            forall|t: Seq<char>|
                #[trigger] row_view(out@).contains(t) <==> (row_view(uniq@.take(i as int)).contains(
                    t,
                ) && !sid_set(minus@).contains(t)),
        decreases uniq@.len() - i,
    {
        proof {
            uniq@.lemma_take_succ_push(i as int);
            assert(row_view(uniq@.take(i as int + 1)) =~= row_view(uniq@.take(i as int)).push(
                uniq@[i as int]@,
            ));
        }
        let ghost o0 = row_view(out@);
        let ghost pre = row_view(uniq@.take(i as int));
        let ghost x = uniq@[i as int]@;
        let in_minus = vec_str_contains(minus, &uniq[i]);
        proof {
            if in_minus {
                assert(sid_set(minus@).contains(x));
            } else if sid_set(minus@).contains(x) {
                assert(row_view(minus@).contains(x));
            }
        }
        if !in_minus && !vec_str_contains(&out, &uniq[i]) {
            out.push(uniq[i].clone());
            proof {
                assert(row_view(out@) =~= o0.push(x));
                crate::discovery::lemma_push_keeps_no_dup(o0, x);
                assert forall|t: Seq<char>|
                    #[trigger] row_view(out@).contains(t) <==> (row_view(
                    uniq@.take(i as int + 1),
                ).contains(t) && !sid_set(minus@).contains(t)) by {
                    vstd::seq_lib::lemma_seq_contains_after_push(o0, x, t);
                    vstd::seq_lib::lemma_seq_contains_after_push(pre, x, t);
                };
            }
        } else {
            proof {
                assert forall|t: Seq<char>|
                    #[trigger] row_view(out@).contains(t) <==> (row_view(
                    uniq@.take(i as int + 1),
                ).contains(t) && !sid_set(minus@).contains(t)) by {
                    vstd::seq_lib::lemma_seq_contains_after_push(pre, x, t);
                };
            }
        }
        i += 1;
    }
    proof {
        assert(uniq@.take(uniq@.len() as int) =~= uniq@);
        assert(row_view(out@).to_set() =~= sid_set(from@).difference(sid_set(minus@)));
        row_view(out@).unique_seq_to_set();
    }
    out.len()
}

/// Delta set law: with `S_prev` and `S_now` the stable-ID sets of two
/// successive runs, `new + |S_prev ∩ S_now| = |S_now|` and
/// `fixed + |S_prev ∩ S_now| = |S_prev|`.
pub proof fn lemma_delta_set_law(prev: Set<Seq<char>>, now: Set<Seq<char>>)
    requires
        prev.finite(),
        now.finite(),
    ensures
        now.difference(prev).len() + prev.intersect(now).len() == now.len(),
        prev.difference(now).len() + prev.intersect(now).len() == prev.len(),
{
    lemma_set_difference_len(now, prev);
    lemma_set_difference_len(prev, now);
    assert(now.intersect(prev) =~= prev.intersect(now));
}

} // verus!
