//! How the jobs of one node are shared out among the others: the nodes are
//! ordered by load, and each, from the least loaded up, is offered enough
//! jobs to reach the average, until none remain.

use vstd::prelude::*;

use crate::net::SocketAddress;

verus! {

broadcast use vstd::seq_lib::group_to_multiset_ensures;

/// A node that may receive jobs: its id, how many jobs it holds, and where it
/// is reached.
pub type Candidate = (Seq<char>, usize, SocketAddress);

/// The candidate that an executable entry stands for.
pub open spec fn candidate_of(c: (String, usize, SocketAddress)) -> Candidate {
    (c.0@, c.1, c.2)
}

/// The candidates that an executable list stands for.
pub open spec fn candidates_of(v: Seq<(String, usize, SocketAddress)>) -> Seq<Candidate> {
    v.map_values(|c: (String, usize, SocketAddress)| candidate_of(c))
}


/// A share of jobs: the receiving node's id, the position of its first job,
/// how many jobs it gets, and where the node is reached.
pub type Share = (Seq<char>, int, int, SocketAddress);

/// How many jobs a node holding `jobs` is offered: enough to reach `avg`, but
/// no more than `remaining`.
pub open spec fn share_size(jobs: int, avg: int, remaining: int) -> int {
    if avg - jobs > remaining {
        remaining
    } else {
        avg - jobs
    }
}

/// Sharing out `remaining` jobs among `s` never offers jobs to a node that
/// holds more than `avg` while jobs remain, where the size of its share would
/// be negative.
pub open spec fn plan_defined(s: Seq<Candidate>, avg: int, remaining: int) -> bool
    decreases s.len(),
{
    if s.len() == 0 || remaining == 0 {
        true
    } else if s[0].1 > avg {
        false
    } else {
        plan_defined(s.drop_first(), avg, remaining - share_size(s[0].1 as int, avg, remaining))
    }
}

/// The shares offered to `s` in order, numbering the jobs from `start`, until
/// no job remains.
pub open spec fn plan_shares(s: Seq<Candidate>, avg: int, remaining: int, start: int) -> Seq<Share>
    decreases s.len(),
{
    if s.len() == 0 || remaining == 0 {
        seq![]
    } else {
        let n = share_size(s[0].1 as int, avg, remaining);
        seq![(s[0].0, start, n, s[0].2)] + plan_shares(s.drop_first(), avg, remaining - n, start + n)
    }
}

/// The number of jobs in all shares.
pub open spec fn planned_total(p: Seq<Share>) -> int
    decreases p.len(),
{
    if p.len() == 0 {
        0
    } else {
        p[0].2 + planned_total(p.drop_first())
    }
}

/// The room below the average: for each candidate, how many jobs it would
/// take to reach `avg`.
pub open spec fn room_below(s: Seq<Candidate>, avg: int) -> int
    decreases s.len(),
{
    if s.len() == 0 {
        0
    } else {
        (if s[0].1 <= avg {
            avg - s[0].1
        } else {
            0
        }) + room_below(s.drop_first(), avg)
    }
}

/// The shares of a plan: one per candidate, in order, each bringing its
/// candidate to the average at most, with consecutive ranges of jobs from
/// `start`, and together never more than `remaining`; when no candidate
/// above the average is reached, the plan hands out `remaining` jobs or all
/// the room below the average, whichever is smaller.
pub proof fn lemma_plan_shares(s: Seq<Candidate>, avg: int, remaining: int, start: int)
    requires
        plan_defined(s, avg, remaining),
        remaining >= 0,
    ensures
        plan_shares(s, avg, remaining, start).len() <= s.len(),
        forall|k: int|
            0 <= k < plan_shares(s, avg, remaining, start).len() ==> {
                let sh = #[trigger] plan_shares(s, avg, remaining, start)[k];
                &&& sh.0 == s[k].0
                &&& sh.3 == s[k].2
                &&& 0 <= sh.2
                &&& s[k].1 + sh.2 <= avg
                &&& sh.1 == start + planned_total(plan_shares(s, avg, remaining, start).take(k))
            },
        0 <= planned_total(plan_shares(s, avg, remaining, start)) <= remaining,
        planned_total(plan_shares(s, avg, remaining, start)) == (if remaining <= room_below(s, avg) {
            remaining
        } else {
            room_below(s, avg)
        }),
    decreases s.len(),
{
    let p = plan_shares(s, avg, remaining, start);
    if s.len() == 0 || remaining == 0 {
        lemma_room_below_nonneg(s, avg);
    } else {
        let n = share_size(s[0].1 as int, avg, remaining);
        let rest = plan_shares(s.drop_first(), avg, remaining - n, start + n);
        lemma_plan_shares(s.drop_first(), avg, remaining - n, start + n);
        assert(p =~= seq![(s[0].0, start, n, s[0].2)] + rest);
        assert(p.drop_first() =~= rest);
        assert forall|k: int| 0 <= k < p.len() implies {
            let sh = #[trigger] p[k];
            &&& sh.0 == s[k].0
            &&& sh.3 == s[k].2
            &&& 0 <= sh.2
            &&& s[k].1 + sh.2 <= avg
            &&& sh.1 == start + planned_total(p.take(k))
        } by {
            if k == 0 {
                assert(p.take(0) =~= Seq::<Share>::empty());
            } else {
                assert(p[k] == rest[k - 1]);
                assert(s.drop_first()[k - 1] == s[k]);
                assert(p.take(k).drop_first() =~= rest.take(k - 1));
                assert(p.take(k)[0] == p[0]);
            }
        }
    }
}

/// The room below the average is never negative.
pub proof fn lemma_room_below_nonneg(s: Seq<Candidate>, avg: int)
    ensures
        room_below(s, avg) >= 0,
    decreases s.len(),
{
    if s.len() > 0 {
        lemma_room_below_nonneg(s.drop_first(), avg);
    }
}

/// The candidates hold non-decreasing numbers of jobs.
pub open spec fn sorted_by_jobs(s: Seq<Candidate>) -> bool {
    forall|i: int, j: int| 0 <= i <= j < s.len() ==> #[trigger] s[i].1 <= #[trigger] s[j].1
}

/// `x` put into `s` after every candidate from the end of `s` that holds no
/// more jobs than `x`, and before those that hold more.
pub open spec fn insert_by_jobs(s: Seq<Candidate>, x: Candidate) -> Seq<Candidate>
    decreases s.len(),
{
    if s.len() == 0 {
        seq![x]
    } else if s.last().1 <= x.1 {
        s.push(x)
    } else {
        insert_by_jobs(s.drop_last(), x).push(s.last())
    }
}

/// The candidates ordered by the number of jobs they hold, those with equal
/// numbers in their original order.
pub open spec fn sort_by_jobs(s: Seq<Candidate>) -> Seq<Candidate>
    decreases s.len(),
{
    if s.len() == 0 {
        s
    } else {
        insert_by_jobs(sort_by_jobs(s.drop_last()), s.last())
    }
}

/// Inserting into a sorted list keeps it sorted and adds exactly `x`.
pub proof fn lemma_insert_by_jobs(s: Seq<Candidate>, x: Candidate)
    requires
        sorted_by_jobs(s),
    ensures
        sorted_by_jobs(insert_by_jobs(s, x)),
        insert_by_jobs(s, x).to_multiset() =~= s.to_multiset().insert(x),
        insert_by_jobs(s, x).len() == s.len() + 1,
    decreases s.len(),
{
    if s.len() == 0 {
        assert(seq![x] =~= Seq::<Candidate>::empty().push(x));
    } else if s.last().1 <= x.1 {
    } else {
        let r = insert_by_jobs(s.drop_last(), x);
        lemma_insert_by_jobs(s.drop_last(), x);
        assert(s.drop_last().push(s.last()) =~= s);
        let t = r.push(s.last());
        assert forall|i: int, j: int| 0 <= i <= j < t.len() implies #[trigger] t[i].1
            <= #[trigger] t[j].1 by {
            if j == t.len() - 1 && i < j {
                // every element of r is either x or an element of s.drop_last()
                assert(r.to_multiset().count(r[i]) > 0);
                if r[i] != x {
                    assert(s.drop_last().to_multiset().count(r[i]) > 0);
                    assert(s.drop_last().contains(r[i]));
                    let k = choose|k: int| 0 <= k < s.drop_last().len() && s.drop_last()[k] == r[i];
                    assert(s[k] == r[i]);
                    assert(s[k].1 <= s[s.len() - 1].1);
                }
            }
        }
    }
}

/// The sort gives a sorted rearrangement of its input.
pub proof fn lemma_sort_by_jobs(s: Seq<Candidate>)
    ensures
        sorted_by_jobs(sort_by_jobs(s)),
        sort_by_jobs(s).to_multiset() =~= s.to_multiset(),
        sort_by_jobs(s).len() == s.len(),
    decreases s.len(),
{
    if s.len() > 0 {
        lemma_sort_by_jobs(s.drop_last());
        lemma_insert_by_jobs(sort_by_jobs(s.drop_last()), s.last());
        assert(s.drop_last().push(s.last()) =~= s);
    }
}

/// Inserting at the position before the trailing candidates that hold more
/// jobs than `x` is what `insert_by_jobs` does.
proof fn lemma_insert_at(s: Seq<Candidate>, x: Candidate, k: int)
    requires
        0 <= k <= s.len(),
        forall|j: int| k <= j < s.len() ==> #[trigger] s[j].1 > x.1,
        k > 0 ==> s[k - 1].1 <= x.1,
    ensures
        insert_by_jobs(s, x) == s.insert(k, x),
    decreases s.len(),
{
    if s.len() == 0 {
        assert(s.insert(k, x) =~= seq![x]);
    } else if s.last().1 <= x.1 {
        assert(k == s.len());
        assert(s.insert(k, x) =~= s.push(x));
    } else {
        assert(k < s.len());
        lemma_insert_at(s.drop_last(), x, k);
        assert(s.drop_last().insert(k, x).push(s.last()) =~= s.insert(k, x));
    }
}

/// The candidates of `v`, ordered by the number of jobs they hold; those with
/// equal numbers keep their order.
pub fn sort_candidates(v: &Vec<(String, usize, SocketAddress)>) -> (r: Vec<(String, usize, SocketAddress)>)
    ensures
        candidates_of(r@) == sort_by_jobs(candidates_of(v@)),
{
    let mut out: Vec<(String, usize, SocketAddress)> = Vec::new();
    let mut i: usize = 0;
    while i < v.len()
        invariant
            i <= v.len(),
            candidates_of(out@) == sort_by_jobs(candidates_of(v@).take(i as int)),
            sorted_by_jobs(candidates_of(out@)),
        decreases v.len() - i,
    {
        let ghost before = candidates_of(out@);
        let x = (v[i].0.clone(), v[i].1, v[i].2);
        let mut k: usize = out.len();
        while k > 0 && out[k - 1].1 > x.1
            invariant
                k <= out.len(),
                candidates_of(out@) == before,
                forall|j: int| k <= j < out.len() ==> #[trigger] out@[j].1 > x.1,
            decreases k,
        {
            k = k - 1;
        }
        proof {
            lemma_insert_at(before, candidate_of(x), k as int);
            lemma_sort_by_jobs(candidates_of(v@).take(i as int));
            lemma_insert_by_jobs(before, candidate_of(x));
            assert(candidates_of(v@).take(i + 1).drop_last() =~= candidates_of(v@).take(i as int));
            assert(candidates_of(v@).take(i + 1).last() == candidate_of(x));
        }
        out.insert(k, x);
        assert(candidates_of(out@) =~= before.insert(k as int, candidate_of(x)));
        i = i + 1;
    }
    assert(candidates_of(v@).take(i as int) =~= candidates_of(v@));
    out
}

} // verus!
