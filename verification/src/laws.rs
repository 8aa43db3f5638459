//! What holds of the library as a whole: of sharing out jobs, of the client
//! table, and of the answers to messages.

use vstd::prelude::*;

use crate::constants::THRESHOLD_SECS;
use crate::implementations::aux::{
    average_jobs, candidates_for, counts_overflow, recently_seen, redistribution_outcome,
    redistribution_shares, Redistribution,
};
use crate::implementations::balance::balance_shares;
use crate::implementations::handler::{action_handled, Reaction};
use crate::net::SocketAddress;
use crate::time::Timestamp;
use crate::implementations::scanner::is_silent;
use crate::plan::{
    insert_by_jobs, lemma_plan_shares, lemma_sort_by_jobs, plan_defined, planned_total, room_below,
    sort_by_jobs, Candidate, Share,
};
use crate::types::client::{sum_jobs, ClientEntry, EscalonClient};
use crate::types::message::{
    check_taken, checked_client, found_dead_taken, join_taken, joined_client, not_done_by,
    take_answered, Action, CheckContent, DoneContent, FoundDeadContent, JoinContent, Message,
    Outgoing, TakeJobsContent,
};
use crate::JobTake;
use crate::{Distrib, Escalon, EscalonError};

verus! {

/// The jobs that the candidates hold, in all.
pub open spec fn candidate_jobs(s: Seq<Candidate>) -> int
    decreases s.len(),
{
    if s.len() == 0 {
        0
    } else {
        s[0].1 + candidate_jobs(s.drop_first())
    }
}

proof fn lemma_candidate_jobs_push(s: Seq<Candidate>, x: Candidate)
    ensures
        candidate_jobs(s.push(x)) == candidate_jobs(s) + x.1,
    decreases s.len(),
{
    if s.len() > 0 {
        assert(s.push(x).drop_first() =~= s.drop_first().push(x));
        assert(s.push(x)[0] == s[0]);
        lemma_candidate_jobs_push(s.drop_first(), x);
    } else {
        assert(s.push(x).drop_first() =~= Seq::<Candidate>::empty());
        assert(candidate_jobs(Seq::<Candidate>::empty()) == 0);
        assert(candidate_jobs(s.push(x)) == x.1 + candidate_jobs(s.push(x).drop_first()));
    }
}

proof fn lemma_candidate_jobs_insert(s: Seq<Candidate>, x: Candidate)
    ensures
        candidate_jobs(insert_by_jobs(s, x)) == candidate_jobs(s) + x.1,
    decreases s.len(),
{
    if s.len() == 0 {
        assert(seq![x] =~= Seq::<Candidate>::empty().push(x));
        lemma_candidate_jobs_push(Seq::<Candidate>::empty(), x);
    } else if s.last().1 <= x.1 {
        lemma_candidate_jobs_push(s, x);
    } else {
        lemma_candidate_jobs_insert(s.drop_last(), x);
        lemma_candidate_jobs_push(insert_by_jobs(s.drop_last(), x), s.last());
        lemma_candidate_jobs_push(s.drop_last(), s.last());
        assert(s.drop_last().push(s.last()) =~= s);
    }
}

proof fn lemma_candidate_jobs_sort(s: Seq<Candidate>)
    ensures
        candidate_jobs(sort_by_jobs(s)) == candidate_jobs(s),
    decreases s.len(),
{
    if s.len() > 0 {
        lemma_candidate_jobs_sort(s.drop_last());
        lemma_candidate_jobs_insert(sort_by_jobs(s.drop_last()), s.last());
        lemma_candidate_jobs_push(s.drop_last(), s.last());
        assert(s.drop_last().push(s.last()) =~= s);
    }
}

proof fn lemma_candidate_jobs_of_entries(entries: Seq<ClientEntry>)
    ensures
        candidate_jobs(entries.map_values(|e: ClientEntry| (e.0, e.1.state.jobs, e.1.address)))
            == sum_jobs(entries),
    decreases entries.len(),
{
    let m = entries.map_values(|e: ClientEntry| (e.0, e.1.state.jobs, e.1.address));
    if entries.len() > 0 {
        let m0 = entries.drop_last().map_values(
            |e: ClientEntry| (e.0, e.1.state.jobs, e.1.address),
        );
        lemma_candidate_jobs_of_entries(entries.drop_last());
        assert(m =~= m0.push(m.last()));
        lemma_candidate_jobs_push(m0, m.last());
    } else {
        assert(m =~= Seq::<Candidate>::empty());
    }
}

proof fn lemma_room_below_at_least(s: Seq<Candidate>, avg: int)
    ensures
        room_below(s, avg) >= avg * s.len() - candidate_jobs(s),
    decreases s.len(),
{
    if s.len() > 0 {
        lemma_room_below_at_least(s.drop_first(), avg);
        let n = s.len() as int;
        assert(avg * n == avg + avg * (n - 1)) by (nonlinear_arith);
    } else {
        assert(avg * 0 == 0);
    }
}

/// The shares of a silent node's jobs: each goes to the candidate in the
/// same place of the ordered list, brings it at most up to the average, and
/// takes the next jobs after those of the shares before it, from the first
/// job on; together they never hand out more jobs than the silent node held,
/// and they leave out at most one job per remaining client, which the
/// average, rounded down, has no room for.
pub proof fn law_redistribution_shares(
    entries: Seq<ClientEntry>,
    id: Seq<char>,
    address: crate::net::SocketAddress,
    own: usize,
    dead_jobs: usize,
)
    requires
        !counts_overflow(entries, dead_jobs, own),
        plan_defined(
            sort_by_jobs(candidates_for(entries, id, own, address)),
            average_jobs(dead_jobs + own + sum_jobs(entries), entries.len() as int),
            dead_jobs as int,
        ),
    ensures
        ({
            let s = sort_by_jobs(candidates_for(entries, id, own, address));
            let avg = average_jobs(dead_jobs + own + sum_jobs(entries), entries.len() as int);
            let p = redistribution_shares(entries, id, address, own, dead_jobs);
            &&& forall|k: int|
                0 <= k < p.len() ==> {
                    let sh = #[trigger] p[k];
                    &&& sh.0 == s[k].0
                    &&& sh.3 == s[k].2
                    &&& 0 <= sh.2
                    &&& s[k].1 + sh.2 <= avg
                    &&& sh.1 == planned_total(p.take(k))
                }
            &&& planned_total(p) <= dead_jobs
            &&& planned_total(p) + entries.len() >= dead_jobs
        }),
{
    let c = candidates_for(entries, id, own, address);
    let s = sort_by_jobs(c);
    let total = dead_jobs + own + sum_jobs(entries);
    let n = entries.len() as int + 1;
    let avg = average_jobs(total, entries.len() as int);
    lemma_plan_shares(s, avg, dead_jobs as int, 0);
    lemma_sort_by_jobs(c);
    lemma_candidate_jobs_sort(c);
    lemma_candidate_jobs_of_entries(entries);
    lemma_candidate_jobs_push(
        entries.map_values(|e: ClientEntry| (e.0, e.1.state.jobs, e.1.address)),
        (id, own, address),
    );
    lemma_room_below_at_least(s, avg);
    assert(s.len() == n);
    assert(avg * n >= total - (n - 1)) by (nonlinear_arith)
        requires
            n > 0,
            total >= 0,
            avg == total / n,
    ;
}

/// Every share of a plan that reaches no candidate above the average holds a
/// number of jobs between none and what remained, and their ranges of jobs
/// follow each other without gap or overlap.
pub proof fn law_shares_consecutive(s: Seq<Candidate>, avg: int, remaining: int, start: int)
    requires
        plan_defined(s, avg, remaining),
        remaining >= 0,
    ensures
        forall|k: int|
            0 <= k < crate::plan::plan_shares(s, avg, remaining, start).len() - 1 ==> #[trigger] crate::plan::plan_shares(
                s,
                avg,
                remaining,
                start,
            )[k + 1].1 == crate::plan::plan_shares(s, avg, remaining, start)[k].1
                + crate::plan::plan_shares(s, avg, remaining, start)[k].2,
{
    let p = crate::plan::plan_shares(s, avg, remaining, start);
    lemma_plan_shares(s, avg, remaining, start);
    assert forall|k: int| 0 <= k < p.len() - 1 implies #[trigger] p[k + 1].1 == p[k].1 + p[k].2 by {
        assert(p.take(k + 1) =~= p.take(k).push(p[k]));
        lemma_planned_total_push(p.take(k), p[k]);
    }
}

proof fn lemma_planned_total_push(p: Seq<Share>, x: Share)
    ensures
        planned_total(p.push(x)) == planned_total(p) + x.2,
    decreases p.len(),
{
    if p.len() > 0 {
        assert(p.push(x).drop_first() =~= p.drop_first().push(x));
        assert(p.push(x)[0] == p[0]);
        lemma_planned_total_push(p.drop_first(), x);
    } else {
        assert(p.push(x).drop_first() =~= Seq::<Share>::empty());
        assert(planned_total(Seq::<Share>::empty()) == 0);
        assert(planned_total(p.push(x)) == x.2 + planned_total(p.push(x).drop_first()));
    }
}

/// A client that the scanner finds silent at some time is not spared from
/// having its jobs shared out at that same time.
pub proof fn law_silent_not_spared(c: EscalonClient, now: i64)
    requires
        is_silent(c, now),
    ensures
        !recently_seen(c, now),
{
}

/// A client heard from at the time `seen`, by its announcement or by its
/// heartbeat, is not found silent up to the threshold after that time.
pub proof fn law_heard_client_not_silent(
    old: EscalonClient,
    join: JoinContent,
    source: crate::net::SocketAddress,
    check: CheckContent,
    seen: i64,
    now: i64,
)
    requires
        now <= seen + crate::constants::THRESHOLD_SECS,
    ensures
        !is_silent(joined_client(join, source, seen), now),
        !is_silent(checked_client(old, check, seen), now),
{
}

/// After a node announces itself from `source` and then sends a heartbeat,
/// it is known at `source`, with the start time it announced and the jobs and
/// time of the heartbeat.
pub proof fn law_check_after_join(
    clients: Map<Seq<char>, EscalonClient>,
    join: JoinContent,
    source: crate::net::SocketAddress,
    check: CheckContent,
    joined_at: i64,
    checked_at: i64,
)
    requires
        check.sender_id@ == join.sender_id@,
    ensures
        ({
            let after_join = clients.insert(join.sender_id@, joined_client(join, source, joined_at));
            let after_check = if after_join.dom().contains(check.sender_id@) {
                after_join.insert(
                    check.sender_id@,
                    checked_client(after_join[check.sender_id@], check, checked_at),
                )
            } else {
                after_join
            };
            &&& after_check.dom() == clients.dom().insert(join.sender_id@)
            &&& after_check[join.sender_id@].address == source
            &&& after_check[join.sender_id@].start_time == join.start_time
            &&& after_check[join.sender_id@].state.jobs == check.jobs
            &&& after_check[join.sender_id@].last_seen == checked_at
        }),
{
    let after_join = clients.insert(join.sender_id@, joined_client(join, source, joined_at));
    assert(after_join.insert(join.sender_id@, checked_client(after_join[join.sender_id@], check, checked_at)).dom() =~= clients.dom().insert(join.sender_id@));
}

/// A heartbeat from a node that has not announced itself adds nothing.
pub proof fn law_check_needs_join(
    clients: Map<Seq<char>, EscalonClient>,
    check: CheckContent,
    now: i64,
)
    requires
        !clients.dom().contains(check.sender_id@),
    ensures
        (if clients.dom().contains(check.sender_id@) {
            clients.insert(check.sender_id@, checked_client(clients[check.sender_id@], check, now))
        } else {
            clients
        }) == clients,
{
}

/// After a node reports that it took over its share of a silent node's jobs,
/// no record of such a share for it remains, and every other record does.
pub proof fn law_done_clears(before: Seq<Distrib>, sender: Seq<char>, dead_id: Seq<char>)
    ensures
        ({
            let after = before.filter(not_done_by(sender, dead_id));
            &&& forall|k: int|
                0 <= k < after.len() ==> !((#[trigger] after[k]).client_id@ == sender
                    && after[k].take_from@ == dead_id)
            &&& forall|k: int|
                0 <= k < before.len() && !((#[trigger] before[k]).client_id@ == sender
                    && before[k].take_from@ == dead_id) ==> after.contains(before[k])
        }),
{
    let pred = not_done_by(sender, dead_id);
    let after = before.filter(pred);
    assert forall|k: int| 0 <= k < after.len() implies !((#[trigger] after[k]).client_id@ == sender
        && after[k].take_from@ == dead_id) by {
        before.lemma_filter_pred(pred, k);
    }
    assert forall|k: int|
        0 <= k < before.len() && !((#[trigger] before[k]).client_id@ == sender
            && before[k].take_from@ == dead_id) implies after.contains(before[k]) by {
        before.lemma_filter_contains(pred, k);
    }
}

/// Every share of a plan goes to the candidate in the same place of the
/// list, at that candidate's address, whatever the numbers of jobs.
proof fn lemma_plan_targets(s: Seq<Candidate>, avg: int, remaining: int, start: int)
    ensures
        crate::plan::plan_shares(s, avg, remaining, start).len() <= s.len(),
        forall|k: int|
            0 <= k < crate::plan::plan_shares(s, avg, remaining, start).len() ==> {
                let sh = #[trigger] crate::plan::plan_shares(s, avg, remaining, start)[k];
                sh.0 == s[k].0 && sh.3 == s[k].2
            },
    decreases s.len(),
{
    let p = crate::plan::plan_shares(s, avg, remaining, start);
    if s.len() > 0 && remaining != 0 {
        let n = crate::plan::share_size(s[0].1 as int, avg, remaining);
        let rest = crate::plan::plan_shares(s.drop_first(), avg, remaining - n, start + n);
        lemma_plan_targets(s.drop_first(), avg, remaining - n, start + n);
        assert(p =~= seq![(s[0].0, start, n, s[0].2)] + rest);
        assert forall|k: int| 0 <= k < p.len() implies {
            let sh = #[trigger] p[k];
            sh.0 == s[k].0 && sh.3 == s[k].2
        } by {
            if k > 0 {
                assert(p[k] == rest[k - 1]);
                assert(s.drop_first()[k - 1] == s[k]);
            }
        }
    }
}

/// Every candidate of the ordered list is this node, with its own jobs and
/// address, or a known client, with the jobs and address the table holds for
/// it.
proof fn lemma_sorted_candidate_origin(
    entries: Seq<ClientEntry>,
    id: Seq<char>,
    own: usize,
    address: SocketAddress,
    k: int,
)
    requires
        0 <= k < sort_by_jobs(candidates_for(entries, id, own, address)).len(),
    ensures
        ({
            let x = sort_by_jobs(candidates_for(entries, id, own, address))[k];
            ||| x == (id, own, address)
            ||| exists|j: int|
                0 <= j < entries.len() && x == (#[trigger] entries[j].0, entries[j].1.state.jobs,
                    entries[j].1.address)
        }),
{
    let c = candidates_for(entries, id, own, address);
    let s = sort_by_jobs(c);
    lemma_sort_by_jobs(c);
    let x = s[k];
    s.to_multiset_ensures();
    c.to_multiset_ensures();
    assert(s.contains(x));
    assert(c.to_multiset().count(x) > 0);
    assert(c.contains(x));
    let j = choose|j: int| 0 <= j < c.len() && c[j] == x;
    if j < entries.len() {
        assert(c[j] == (entries[j].0, entries[j].1.state.jobs, entries[j].1.address));
    } else {
        assert(c[j] == (id, own, address));
    }
}

/// When this node hands out its own excess jobs, each share goes to the
/// candidate in the same place of the list ordered by load, and is sent to
/// that candidate's own address: the one the table holds for a known client,
/// or this node's address for its own share.
pub proof fn law_balance_share_targets(
    entries: Seq<ClientEntry>,
    id: Seq<char>,
    address: SocketAddress,
    own: usize,
    avg: usize,
)
    ensures
        ({
            let s = sort_by_jobs(candidates_for(entries, id, own, address));
            let p = balance_shares(entries, id, address, own, avg);
            &&& p.len() <= s.len()
            &&& forall|k: int|
                0 <= k < p.len() ==> (#[trigger] p[k]).0 == s[k].0 && p[k].3 == s[k].2
            &&& forall|k: int|
                0 <= k < p.len() ==> {
                    ||| ((#[trigger] p[k]).0 == id && p[k].3 == address)
                    ||| exists|j: int|
                        0 <= j < entries.len() && #[trigger] entries[j].0 == p[k].0
                            && entries[j].1.address == p[k].3
                }
        }),
{
    let s = sort_by_jobs(candidates_for(entries, id, own, address));
    let p = balance_shares(entries, id, address, own, avg);
    lemma_plan_targets(s, avg as int, own - avg, 0);
    assert forall|k: int| 0 <= k < p.len() implies {
        ||| ((#[trigger] p[k]).0 == id && p[k].3 == address)
        ||| exists|j: int|
            0 <= j < entries.len() && #[trigger] entries[j].0 == p[k].0 && entries[j].1.address
                == p[k].3
    } by {
        lemma_sorted_candidate_origin(entries, id, own, address, k);
    }
}

/// When a silent node's jobs are shared out, each share is sent to the
/// address of the node that gets it: the one the table holds for a known
/// client, or this node's address for its own share.
pub proof fn law_redistribution_share_targets(
    entries: Seq<ClientEntry>,
    id: Seq<char>,
    address: SocketAddress,
    own: usize,
    dead_jobs: usize,
)
    ensures
        ({
            let p = redistribution_shares(entries, id, address, own, dead_jobs);
            forall|k: int|
                0 <= k < p.len() ==> {
                    ||| ((#[trigger] p[k]).0 == id && p[k].3 == address)
                    ||| exists|j: int|
                        0 <= j < entries.len() && #[trigger] entries[j].0 == p[k].0
                            && entries[j].1.address == p[k].3
                }
        }),
{
    let s = sort_by_jobs(candidates_for(entries, id, own, address));
    let avg = average_jobs(dead_jobs + own + sum_jobs(entries), entries.len() as int);
    let p = redistribution_shares(entries, id, address, own, dead_jobs);
    lemma_plan_targets(s, avg, dead_jobs as int, 0);
    assert forall|k: int| 0 <= k < p.len() implies {
        ||| ((#[trigger] p[k]).0 == id && p[k].3 == address)
        ||| exists|j: int|
            0 <= j < entries.len() && #[trigger] entries[j].0 == p[k].0 && entries[j].1.address
                == p[k].3
    } by {
        lemma_sorted_candidate_origin(entries, id, own, address, k);
    }
}

/// A known client heard from less than the threshold before `now` is left
/// alone, whatever it holds: its jobs are not shared out and the table is
/// unchanged. One heard from longer ago is forgotten, and sharing out is not
/// skipped.
pub proof fn law_recent_client_skipped<M>(
    before: Escalon<M>,
    after: Escalon<M>,
    dead_id: Seq<char>,
    now: i64,
    own: usize,
    r: Result<Redistribution, EscalonError>,
)
    requires
        redistribution_outcome(before, after, dead_id, now, own, r),
        before.clients@.dom().contains(dead_id),
    ensures
        (now - before.clients@[dead_id].last_seen < THRESHOLD_SECS) <==> (r matches Ok(
            Redistribution::Skipped,
        )),
        now - before.clients@[dead_id].last_seen < THRESHOLD_SECS ==> after.clients
            == before.clients && after.distribution == before.distribution,
        now - before.clients@[dead_id].last_seen >= THRESHOLD_SECS ==> after.clients@
            == before.clients@.remove(dead_id) && !after.clients@.dom().contains(dead_id),
{
}

/// A report from another node that it took over its share of `dead_id`'s
/// jobs is never mistaken for one of this node's own messages: whoever the
/// silent node was, even this node itself after balancing, the records of the
/// sender's shares of those jobs go and all other records stay.
pub proof fn law_done_from_other_node_clears<M>(
    before: Escalon<M>,
    after: Escalon<M>,
    c: DoneContent,
    source: SocketAddress,
    now: i64,
    r: Reaction,
)
    requires
        c.sender_id@ != before.id@,
        Action::Done(c).spec_sender() == before.id@ ==> r.take is None && r.reply is None
            && after == before,
        Action::Done(c).spec_sender() != before.id@ ==> action_handled(
            before,
            after,
            Action::Done(c),
            source,
            now,
            r,
        ),
    ensures
        r.take is None,
        r.reply is None,
        after.clients == before.clients,
        forall|k: int|
            0 <= k < after.distribution@.len() ==> !((#[trigger] after.distribution@[k]).client_id@
                == c.sender_id@ && after.distribution@[k].take_from@ == c.dead_id@),
        forall|k: int|
            0 <= k < before.distribution@.len() && !((#[trigger] before.distribution@[k]).client_id@
                == c.sender_id@ && before.distribution@[k].take_from@ == c.dead_id@)
                ==> after.distribution@.contains(before.distribution@[k]),
{
    law_done_clears(before.distribution@, c.sender_id@, c.dead_id@);
}

/// The time since the Unix epoch, in nanoseconds.
pub open spec fn nanos_since_epoch(t: Timestamp) -> int {
    t.secs * 1_000_000_000 + t.nanos
}

/// One point in time comes before another exactly when fewer nanoseconds
/// have passed since the epoch, for times whose nanoseconds are less than a
/// second.
pub proof fn law_precedes_is_time_order(t1: Timestamp, t2: Timestamp)
    requires
        t1.nanos < 1_000_000_000,
        t2.nanos < 1_000_000_000,
    ensures
        t1.precedes(t2) <==> nanos_since_epoch(t1) < nanos_since_epoch(t2),
{
    if t1.secs < t2.secs {
        assert(t1.secs * 1_000_000_000 + 1_000_000_000 <= t2.secs * 1_000_000_000);
    } else if t2.secs < t1.secs {
        assert(t2.secs * 1_000_000_000 + 1_000_000_000 <= t1.secs * 1_000_000_000);
    }
}

/// A report that the node `c.dead_id` went silent, from a known node that
/// started earlier than this one, makes this node forget the silent node;
/// from a known node that did not start earlier, it changes nothing known.
pub proof fn law_found_dead_by_start_time<M>(
    before: Escalon<M>,
    after: Escalon<M>,
    c: FoundDeadContent,
    source: SocketAddress,
    reply: Option<crate::types::message::Outgoing>,
)
    requires
        found_dead_taken(before, after, c, source, reply),
        before.clients@.dom().contains(c.sender_id@),
        before.clients@[c.sender_id@].start_time.nanos < 1_000_000_000,
        before.start_time.nanos < 1_000_000_000,
    ensures
        nanos_since_epoch(before.clients@[c.sender_id@].start_time) < nanos_since_epoch(
            before.start_time,
        ) ==> after.clients@ == before.clients@.remove(c.dead_id@) && !after.clients@.dom().contains(
            c.dead_id@,
        ),
        nanos_since_epoch(before.clients@[c.sender_id@].start_time) >= nanos_since_epoch(
            before.start_time,
        ) ==> after.clients@ == before.clients@,
        reply is Some <==> c.dead_id@ == before.id@,
        reply matches Some(out) ==> out.1 == Some(source) && match out.0.action {
            Action::Join(j) => j.sender_id@ == before.id@ && j.address == before.address
                && j.start_time == before.start_time,
            _ => false,
        },
{
    law_precedes_is_time_order(before.clients@[c.sender_id@].start_time, before.start_time);
}

/// After a heartbeat from a known node, the node is known as seen at that
/// time and holding exactly the jobs it reported, whatever was known before,
/// with its address and start time kept; no other client changes. A
/// heartbeat from an unknown node changes nothing.
pub proof fn law_heartbeat_recorded<M>(
    before: Escalon<M>,
    after: Escalon<M>,
    c: CheckContent,
    now: i64,
)
    requires
        check_taken(before, after, c, now),
    ensures
        before.clients@.dom().contains(c.sender_id@) ==> {
            let b = before.clients@[c.sender_id@];
            let a = after.clients@[c.sender_id@];
            &&& after.clients@.dom() == before.clients@.dom()
            &&& a.state.jobs == c.jobs
            &&& a.last_seen == now
            &&& a.address == b.address
            &&& a.start_time == b.start_time
            &&& forall|id: Seq<char>|
                #[trigger] before.clients@.dom().contains(id) && id != c.sender_id@
                    ==> after.clients@[id] == before.clients@[id]
        },
        !before.clients@.dom().contains(c.sender_id@) ==> after.clients@ == before.clients@,
{
    if before.clients@.dom().contains(c.sender_id@) {
        assert(after.clients@.dom() =~= before.clients@.dom());
    }
}

/// Whether a message is this node's own is decided by the sender named in
/// its content, whatever its kind: a message whose content names this node
/// as sender is ignored and changes nothing; any other is answered by the
/// handler of its kind.
pub proof fn law_sender_decides_handling<M>(
    before: Escalon<M>,
    after: Escalon<M>,
    msg: Message,
    source: SocketAddress,
    now: i64,
    r: Reaction,
)
    requires
        msg.action.spec_sender() == before.id@ ==> r.take is None && r.reply is None && after
            == before,
        msg.action.spec_sender() != before.id@ ==> action_handled(
            before,
            after,
            msg.action,
            source,
            now,
            r,
        ),
    ensures
        ({
            let named = match msg.action {
                Action::Join(c) => c.sender_id@,
                Action::Check(c) => c.sender_id@,
                Action::FoundDead(c) => c.sender_id@,
                Action::TakeJobs(c) => c.sender_id@,
                Action::Done(c) => c.sender_id@,
            };
            &&& named == before.id@ ==> r.take is None && r.reply is None && after == before
            &&& named != before.id@ ==> action_handled(before, after, msg.action, source, now, r)
        }),
{
}

/// After a node announces itself from `source` at the time `now`, it is
/// known at `source`, with the start time it announced, no jobs, and seen
/// now; no other client changes. It is answered, at `source`, with this
/// node's own announcement exactly when it was not known before.
pub proof fn law_join_recorded<M>(
    before: Escalon<M>,
    after: Escalon<M>,
    c: JoinContent,
    source: SocketAddress,
    now: i64,
    reply: Option<Outgoing>,
)
    requires
        join_taken(before, after, c, source, now, reply),
    ensures
        after.clients@.dom() == before.clients@.dom().insert(c.sender_id@),
        after.clients@[c.sender_id@].address == source,
        after.clients@[c.sender_id@].start_time == c.start_time,
        after.clients@[c.sender_id@].state.jobs == 0,
        after.clients@[c.sender_id@].last_seen == now,
        forall|id: Seq<char>|
            #[trigger] before.clients@.dom().contains(id) && id != c.sender_id@ ==> after.clients@[id]
                == before.clients@[id],
        after.distribution == before.distribution,
        reply is Some <==> !before.clients@.dom().contains(c.sender_id@),
        reply matches Some(out) ==> out.1 == Some(source) && match out.0.action {
            Action::Join(j) => j.sender_id@ == before.id@ && j.address == before.address
                && j.start_time == before.start_time,
            _ => false,
        },
{
    assert(after.clients@.dom() =~= before.clients@.dom().insert(c.sender_id@));
}

/// A request to take over jobs is answered by taking over exactly the range
/// it names, `c.jobs` jobs of `c.dead_id` from `c.start_at`, and by
/// reporting, back at `source`, that this node took over the jobs of
/// `c.dead_id`.
pub proof fn law_take_jobs_answered<M>(
    e: Escalon<M>,
    c: TakeJobsContent,
    source: SocketAddress,
    r: (JobTake, Outgoing),
)
    requires
        take_answered(e, c, source, r),
    ensures
        r.0.take_from@ == c.dead_id@,
        r.0.start_at == c.start_at,
        r.0.n_jobs == c.jobs,
        r.1.1 == Some(source),
        match r.1.0.action {
            Action::Done(d) => d.sender_id@ == e.id@ && d.dead_id@ == c.dead_id@,
            _ => false,
        },
{
}

} // verus!
