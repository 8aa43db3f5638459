//! Sharing out the jobs of a node that went silent.

use vstd::prelude::*;

use crate::constants::THRESHOLD_SECS;
use crate::net::SocketAddress;
use crate::plan::{
    candidate_of, candidates_of, lemma_sort_by_jobs, plan_defined, plan_shares, share_size,
    sort_by_jobs, sort_candidates, sorted_by_jobs, Candidate, Share,
};
use crate::types::client::{sum_jobs, ClientEntry, EscalonClient};
use crate::types::message::{Action, Message};
use crate::{Distrib, Escalon, EscalonError, JobTake};

verus! {

/// What handing out shares of jobs leaves to be done: the requests to send,
/// each to its address, and the jobs this node takes over itself.
pub struct Handout {
    pub messages: Vec<(Message, SocketAddress)>,
    pub takes: Vec<JobTake>,
}

/// What sharing out a silent node's jobs came to.
pub enum Redistribution {
    /// The node was heard from too recently to count as dead; nothing changed.
    Skipped,
    /// No node with that id is known; nothing changed.
    NotFound,
    /// The node was forgotten and its jobs shared out; the requests and the
    /// jobs to take over remain to be carried out.
    Planned(Handout),
}

/// The candidates for a share: the known clients in the table's order, then
/// this node itself.
pub open spec fn candidates_for(
    entries: Seq<ClientEntry>,
    id: Seq<char>,
    jobs: usize,
    address: SocketAddress,
) -> Seq<Candidate> {
    entries.map_values(|e: ClientEntry| (e.0, e.1.state.jobs, e.1.address)).push((id, jobs, address))
}

/// The client was heard from less than the threshold ago.
pub open spec fn recently_seen(c: EscalonClient, now: i64) -> bool {
    now - c.last_seen < THRESHOLD_SECS
}

/// The average number of jobs over the known clients and this node.
pub open spec fn average_jobs(total: int, n_clients: int) -> int {
    total / (n_clients + 1)
}

/// The shares of `dead_jobs` jobs for the clients `entries` and this node,
/// which holds `own` jobs: the candidates ordered by load, each offered
/// enough to reach the average over all of them counting the dead node's
/// jobs.
pub open spec fn redistribution_shares(
    entries: Seq<ClientEntry>,
    id: Seq<char>,
    address: SocketAddress,
    own: usize,
    dead_jobs: usize,
) -> Seq<Share> {
    plan_shares(
        sort_by_jobs(candidates_for(entries, id, own, address)),
        average_jobs(dead_jobs + own + sum_jobs(entries), entries.len() as int),
        dead_jobs as int,
        0,
    )
}

/// A share goes to another node than `id`.
pub open spec fn goes_elsewhere(id: Seq<char>) -> spec_fn(Share) -> bool {
    |sh: Share| sh.0 != id
}

/// The shares of `p` that go to other nodes than `id`.
pub open spec fn remote_shares(p: Seq<Share>, id: Seq<char>) -> Seq<Share> {
    p.filter(goes_elsewhere(id))
}

/// A share goes to the node `id` itself.
pub open spec fn goes_here(id: Seq<char>) -> spec_fn(Share) -> bool {
    |sh: Share| sh.0 == id
}

/// The shares of `p` that go to the node `id` itself.
pub open spec fn local_shares(p: Seq<Share>, id: Seq<char>) -> Seq<Share> {
    p.filter(goes_here(id))
}

/// `t` takes over the share `sh` of `take_from`'s jobs.
pub open spec fn takes_share(t: JobTake, take_from: Seq<char>, sh: Share) -> bool {
    &&& t.take_from@ == take_from
    &&& t.start_at == sh.1
    &&& t.n_jobs == sh.2
}

/// Sharing out `dead_jobs` jobs with this node holding `own` would count
/// more jobs than a `usize` holds.
pub open spec fn counts_overflow(entries: Seq<ClientEntry>, dead_jobs: usize, own: usize) -> bool {
    dead_jobs + own + sum_jobs(entries) > usize::MAX
}

/// With this node holding `own` jobs, the shares of `dead_jobs` jobs reach
/// no candidate above the average while jobs remain.
pub open spec fn redistribution_defined(
    entries: Seq<ClientEntry>,
    id: Seq<char>,
    address: SocketAddress,
    own: usize,
    dead_jobs: usize,
) -> bool {
    plan_defined(
        sort_by_jobs(candidates_for(entries, id, own, address)),
        average_jobs(dead_jobs + own + sum_jobs(entries), entries.len() as int),
        dead_jobs as int,
    )
}

/// The outcome of sharing out the jobs of the client `dead_id` as of the time
/// `now`, with this node holding `own` jobs, which turned `before` into
/// `after` and gave `r`. Skipped when the client was heard from less than the
/// threshold before `now`; nothing when it is not known. Otherwise the
/// client is forgotten, and: when the counts of jobs overflow, or when the
/// shares would reach a candidate above the average while jobs remain, that
/// error comes and nothing is handed out; else the shares of
/// `redistribution_shares` are handed out.
pub open spec fn redistribution_outcome<M>(
    before: Escalon<M>,
    after: Escalon<M>,
    dead_id: Seq<char>,
    now: i64,
    own: usize,
    r: Result<Redistribution, EscalonError>,
) -> bool {
    let dead = before.clients@[dead_id];
    let entries = after.clients.entries();
    &&& (before.clients@.dom().contains(dead_id) && recently_seen(dead, now) ==> {
            &&& r matches Ok(Redistribution::Skipped)
            &&& after.clients == before.clients
            &&& after.distribution == before.distribution
        })
    &&& (!before.clients@.dom().contains(dead_id) ==> {
            &&& r matches Ok(Redistribution::NotFound)
            &&& after.clients == before.clients
            &&& after.distribution == before.distribution
        })
    &&& (before.clients@.dom().contains(dead_id) && !recently_seen(dead, now) ==> {
            &&& after.clients@ == before.clients@.remove(dead_id)
            &&& entries == before.clients.entries().remove(
                crate::types::client::index_of_id(before.clients.entries(), dead_id),
            )
            &&& counts_overflow(entries, dead.state.jobs, own) ==> {
                &&& r == Err::<Redistribution, EscalonError>(EscalonError::Overflow)
                &&& after.distribution == before.distribution
            }
            &&& !counts_overflow(entries, dead.state.jobs, own) && !redistribution_defined(
                entries,
                before.id@,
                before.bound_address,
                own,
                dead.state.jobs,
            ) ==> {
                &&& r == Err::<Redistribution, EscalonError>(EscalonError::AboveAverage)
                &&& after.distribution == before.distribution
            }
            &&& !counts_overflow(entries, dead.state.jobs, own) && redistribution_defined(
                entries,
                before.id@,
                before.bound_address,
                own,
                dead.state.jobs,
            ) ==> {
                &&& r matches Ok(Redistribution::Planned(h))
                &&& shares_handed_out(
                    before.distribution@,
                    after.distribution@,
                    h.messages@,
                    h.takes@,
                    before.id@,
                    dead_id,
                    redistribution_shares(entries, before.id@, before.bound_address, own, dead.state.jobs),
                )
            }
        })
}

/// `m` asks, on behalf of `sender`, for the share `sh` of `take_from`'s jobs
/// and goes to the share's node.
pub open spec fn requests_share(
    m: (Message, SocketAddress),
    sender: Seq<char>,
    take_from: Seq<char>,
    sh: Share,
) -> bool {
    &&& m.1 == sh.3
    &&& match m.0.action {
        Action::TakeJobs(c) => c.sender_id@ == sender && c.dead_id@ == take_from && c.start_at
            == sh.1 && c.jobs == sh.2,
        _ => false,
    }
}

/// `d` records the share `sh` of `take_from`'s jobs as not done yet.
pub open spec fn records_share(d: Distrib, take_from: Seq<char>, sh: Share) -> bool {
    &&& d.client_id@ == sh.0
    &&& d.take_from@ == take_from
    &&& d.start_at == sh.1
    &&& d.n_jobs == sh.2
    &&& !d.done
}

/// The share that an executable entry of a plan stands for.
pub open spec fn share_of(d: (Distrib, SocketAddress)) -> Share {
    (d.0.client_id@, d.0.start_at as int, d.0.n_jobs as int, d.1)
}

/// Handing out the shares `p` of `take_from`'s jobs, by node `id`, turned the
/// distribution `before` into `after` and produced the requests `msgs` and
/// the jobs to take over `takes`: one request and one record for each share
/// that goes to another node, and one job to take over for each share that
/// goes to `id` itself, each in order.
pub open spec fn shares_handed_out(
    before: Seq<Distrib>,
    after: Seq<Distrib>,
    msgs: Seq<(Message, SocketAddress)>,
    takes: Seq<JobTake>,
    id: Seq<char>,
    take_from: Seq<char>,
    p: Seq<Share>,
) -> bool {
    let r = remote_shares(p, id);
    let l = local_shares(p, id);
    &&& takes.len() == l.len()
    &&& forall|k: int| 0 <= k < l.len() ==> takes_share(#[trigger] takes[k], take_from, l[k])
    &&& msgs.len() == r.len()
    &&& forall|k: int| 0 <= k < r.len() ==> requests_share(#[trigger] msgs[k], id, take_from, r[k])
    &&& after.len() == before.len() + r.len()
    &&& forall|k: int| 0 <= k < before.len() ==> #[trigger] after[k] == before[k]
    &&& forall|k: int|
        0 <= k < r.len() ==> records_share(#[trigger] after[before.len() + k], take_from, r[k])
}

impl<M> Escalon<M> {
    /// Whether the client `dead_id` is known and was heard from less than the
    /// threshold before `now`.
    fn should_skip_redistribution(&self, dead_id: &String, now: i64) -> (b: bool)
        ensures
            b == (self.clients@.dom().contains(dead_id@) && recently_seen(
                self.clients@[dead_id@],
                now,
            )),
    {
        match self.clients.get(dead_id) {
            Some(c) => (now as i128) - (c.last_seen as i128) < THRESHOLD_SECS as i128,
            None => false,
        }
    }

    /// Forgets the client `dead_id`, giving it back if it was known.
    fn remove_dead_client(&mut self, dead_id: &String) -> (r: Option<EscalonClient>)
        ensures
            final(self).clients@ == old(self).clients@.remove(dead_id@),
            final(self).clients.entries() == (if crate::types::client::has_id(old(self).clients.entries(), dead_id@) {
                old(self).clients.entries().remove(crate::types::client::index_of_id(old(self).clients.entries(), dead_id@))
            } else {
                old(self).clients.entries()
            }),
            r == (if old(self).clients@.dom().contains(dead_id@) {
                Some(old(self).clients@[dead_id@])
            } else {
                None
            }),
            r is None ==> final(self).clients == old(self).clients,
            crate::same_identity(*old(self), *final(self)),
            final(self).distribution == old(self).distribution,
    {
        self.clients.remove(dead_id)
    }

    /// The jobs that the known clients report, in all.
    fn calculate_total_jobs_in_clients(&self) -> (r: Result<usize, EscalonError>)
        ensures
            match r {
                Ok(n) => n == sum_jobs(self.clients.entries()),
                Err(e) => e == EscalonError::Overflow && sum_jobs(self.clients.entries())
                    > usize::MAX,
            },
    {
        match self.clients.total_jobs() {
            Some(n) => Ok(n),
            None => Err(EscalonError::Overflow),
        }
    }

    /// The jobs this node holds, `n_jobs_own` as the application counts
    /// them, and the jobs that the known clients report in all. Fails when
    /// the clients' jobs do not fit in a `usize`.
    pub fn calculate_job_counts(&self, n_jobs_own: usize) -> (r: Result<(usize, usize), EscalonError>)
        ensures
            r is Ok <==> sum_jobs(self.clients.entries()) <= usize::MAX,
            match r {
                Ok((own, clients)) => own == n_jobs_own && clients == sum_jobs(self.clients.entries()),
                Err(e) => e == EscalonError::Overflow,
            },
    {
        let n_jobs_clients = self.calculate_total_jobs_in_clients()?;
        Ok((n_jobs_own, n_jobs_clients))
    }

    /// The jobs of the forgotten client `dead`, then the counts of
    /// `calculate_job_counts`.
    fn calculate_job_counts_with_dead(&self, dead: &EscalonClient, n_jobs_own: usize) -> (r: Result<
        (usize, usize, usize),
        EscalonError,
    >)
        ensures
            r is Ok <==> sum_jobs(self.clients.entries()) <= usize::MAX,
            match r {
                Ok((d, own, clients)) => d == dead.state.jobs && own == n_jobs_own && clients
                    == sum_jobs(self.clients.entries()),
                Err(e) => e == EscalonError::Overflow,
            },
    {
        let n_jobs_dead = dead.state.jobs;
        let (n_jobs_own, n_jobs_clients) = self.calculate_job_counts(n_jobs_own)?;
        Ok((n_jobs_dead, n_jobs_own, n_jobs_clients))
    }

    /// The average number of jobs over the known clients and this node, of
    /// `n_jobs_total` jobs in all, rounded down.
    pub fn calculate_avg_jobs_client(&self, n_jobs_total: usize) -> (avg: usize)
        requires
            self.clients.entries().len() < usize::MAX,
        ensures
            avg == average_jobs(n_jobs_total as int, self.clients.entries().len() as int),
            avg == n_jobs_total as int / (self.clients@.dom().len() + 1) as int,
    {
        proof {
            use_type_invariant(&self.clients);
            self.clients.lemma_len_counts_clients();
        }
        let n_clients = self.clients.len() + 1;
        n_jobs_total / n_clients
    }

    /// The known clients and this node, holding `n_jobs_own` jobs and reached
    /// at the address its socket is bound to, each with its id, jobs and
    /// address, ordered by jobs from the fewest up.
    pub fn sort_clients_by_jobs(&self, n_jobs_own: usize) -> (r: Vec<(String, usize, SocketAddress)>)
        ensures
            candidates_of(r@) == sort_by_jobs(
                candidates_for(self.clients.entries(), self.id@, n_jobs_own, self.bound_address),
            ),
            sorted_by_jobs(candidates_of(r@)),
            candidates_of(r@).to_multiset() == candidates_for(
                self.clients.entries(),
                self.id@,
                n_jobs_own,
                self.bound_address,
            ).to_multiset(),
    {
        let mut all: Vec<(String, usize, SocketAddress)> = Vec::new();
        let mut i: usize = 0;
        let ghost entries = self.clients.entries();
        let ghost mapped = entries.map_values(
            |e: ClientEntry| (e.0, e.1.state.jobs, e.1.address),
        );
        while i < self.clients.len()
            invariant
                i <= entries.len(),
                entries == self.clients.entries(),
                mapped == entries.map_values(|e: ClientEntry| (e.0, e.1.state.jobs, e.1.address)),
                all@.len() == i,
                candidates_of(all@) == mapped.take(i as int),
            decreases entries.len() - i,
        {
            let id = self.clients.key_at(i).clone();
            let c = self.clients.client_at(i);
            let ghost before = all@;
            all.push((id, c.state.jobs, c.address));
            assert(all@ == before.push((id, c.state.jobs, c.address)));
            assert(mapped[i as int] == (entries[i as int].0, entries[i as int].1.state.jobs, entries[i as int].1.address));
            assert(candidate_of(all@[i as int]) == mapped[i as int]);
            assert(candidates_of(all@) =~= mapped.take(i + 1));
            i = i + 1;
        }
        assert(mapped.take(i as int) =~= mapped);
        all.push((self.id.clone(), n_jobs_own, self.bound_address));
        let ghost cands = candidates_for(entries, self.id@, n_jobs_own, self.bound_address);
        assert(candidates_of(all@) =~= cands);
        let sorted = sort_candidates(&all);
        proof {
            lemma_sort_by_jobs(cands);
        }
        sorted
    }

    /// Records that `distrib` was handed out.
    fn update_distribution(&mut self, distrib: Distrib)
        ensures
            final(self).distribution@ == old(self).distribution@.push(distrib),
            crate::same_identity(*old(self), *final(self)),
            final(self).clients == old(self).clients,
    {
        self.distribution.push(distrib);
    }

    /// Hands out one share: a share for this node itself becomes a job to
    /// take over, added to `takes`; a share for another node becomes a
    /// request to it at `address`, added to `messages`, and is recorded as
    /// handed out.
    pub fn process_job_redistribution(
        &mut self,
        distrib: Distrib,
        address: &SocketAddress,
        messages: &mut Vec<(Message, SocketAddress)>,
        takes: &mut Vec<JobTake>,
    )
        ensures
            crate::same_identity(*old(self), *final(self)),
            final(self).clients == old(self).clients,
            distrib.client_id@ == old(self).id@ ==> {
                &&& final(self).distribution == old(self).distribution
                &&& final(messages)@ == old(messages)@
                &&& final(takes)@ == old(takes)@.push(
                    JobTake {
                        take_from: distrib.take_from,
                        start_at: distrib.start_at,
                        n_jobs: distrib.n_jobs,
                    },
                )
            },
            distrib.client_id@ != old(self).id@ ==> {
                &&& final(self).distribution@ == old(self).distribution@.push(distrib)
                &&& final(takes)@ == old(takes)@
                &&& final(messages)@.len() == old(messages)@.len() + 1
                &&& final(messages)@.drop_last() == old(messages)@
                &&& requests_share(
                    final(messages)@.last(),
                    old(self).id@,
                    distrib.take_from@,
                    share_of((distrib, *address)),
                )
            },
    {
        if distrib.client_id == self.id {
            takes.push(
                JobTake {
                    take_from: distrib.take_from,
                    start_at: distrib.start_at,
                    n_jobs: distrib.n_jobs,
                },
            );
        } else {
            let message = Message::new_take_jobs(
                self.id.clone(),
                distrib.take_from.clone(),
                distrib.start_at,
                distrib.n_jobs,
            );
            messages.push((message, *address));
            self.update_distribution(distrib);
        }
    }

    /// How many jobs a node holding `n_jobs` is offered: enough to reach
    /// `n_jobs_avg`, but no more than `n_jobs_to_redistribute`.
    pub fn calculate_jobs_to_add(
        &self,
        n_jobs: usize,
        n_jobs_avg: usize,
        n_jobs_to_redistribute: usize,
    ) -> (r: usize)
        requires
            n_jobs <= n_jobs_avg,
        ensures
            r == share_size(n_jobs as int, n_jobs_avg as int, n_jobs_to_redistribute as int),
    {
        let mut n_jobs_to_add = n_jobs_avg - n_jobs;
        if n_jobs_to_add > n_jobs_to_redistribute {
            n_jobs_to_add = n_jobs_to_redistribute;
        }
        n_jobs_to_add
    }

    /// The shares of `n_jobs_to_redistribute` jobs of `take_from` for the
    /// candidates `sorted`, in order, each to reach `n_jobs_avg`, numbered from
    /// the first job on. Fails when a candidate above the average is reached
    /// while jobs remain.
    pub fn plan_redistribution(
        &self,
        sorted: &Vec<(String, usize, SocketAddress)>,
        n_jobs_avg: usize,
        n_jobs_to_redistribute: usize,
        take_from: &String,
    ) -> (r: Result<Vec<(Distrib, SocketAddress)>, EscalonError>)
        ensures
            r is Ok <==> plan_defined(
                candidates_of(sorted@),
                n_jobs_avg as int,
                n_jobs_to_redistribute as int,
            ),
            match r {
                Ok(v) => {
                    &&& v@.map_values(|d: (Distrib, SocketAddress)| share_of(d)) == plan_shares(
                        candidates_of(sorted@),
                        n_jobs_avg as int,
                        n_jobs_to_redistribute as int,
                        0,
                    )
                    &&& forall|k: int|
                        0 <= k < v@.len() ==> (#[trigger] v@[k]).0.take_from@ == take_from@
                            && !v@[k].0.done
                },
                Err(e) => e == EscalonError::AboveAverage,
            },
    {
        let ghost c = candidates_of(sorted@);
        let ghost avg = n_jobs_avg as int;
        let ghost total = n_jobs_to_redistribute as int;
        let mut out: Vec<(Distrib, SocketAddress)> = Vec::new();
        let mut remaining = n_jobs_to_redistribute;
        let mut start_at: usize = 0;
        let mut i: usize = 0;
        assert(c.skip(0) =~= c);
        assert(out@.map_values(|d: (Distrib, SocketAddress)| share_of(d)) + plan_shares(c, avg, total, 0)
            =~= plan_shares(c, avg, total, 0));
        while i < sorted.len() && remaining > 0
            invariant
                i <= sorted.len(),
                c == candidates_of(sorted@),
                avg == n_jobs_avg,
                total == n_jobs_to_redistribute,
                start_at + remaining == total,
                plan_defined(c, avg, total) == plan_defined(c.skip(i as int), avg, remaining as int),
                plan_shares(c, avg, total, 0) == out@.map_values(
                    |d: (Distrib, SocketAddress)| share_of(d),
                ) + plan_shares(c.skip(i as int), avg, remaining as int, start_at as int),
                forall|k: int|
                    0 <= k < out@.len() ==> (#[trigger] out@[k]).0.take_from@ == take_from@
                        && !out@[k].0.done,
            decreases sorted.len() - i,
        {
            let ghost rest = c.skip(i as int);
            assert(rest[0] == c[i as int]);
            assert(rest.drop_first() =~= c.skip(i + 1));
            let jobs = sorted[i].1;
            if jobs > n_jobs_avg {
                return Err(EscalonError::AboveAverage);
            }
            let n = self.calculate_jobs_to_add(jobs, n_jobs_avg, remaining);
            let ghost before = out@.map_values(|d: (Distrib, SocketAddress)| share_of(d));
            let d = Distrib {
                client_id: sorted[i].0.clone(),
                take_from: take_from.clone(),
                start_at,
                n_jobs: n,
                done: false,
            };
            out.push((d, sorted[i].2));
            assert(out@.map_values(|d: (Distrib, SocketAddress)| share_of(d)) =~= before.push(
                (c[i as int].0, start_at as int, n as int, c[i as int].2),
            ));
            assert(plan_shares(rest, avg, remaining as int, start_at as int) =~= seq![
                (c[i as int].0, start_at as int, n as int, c[i as int].2),
            ] + plan_shares(c.skip(i + 1), avg, remaining - n, start_at + n));
            remaining = remaining - n;
            start_at = start_at + n;
            i = i + 1;
        }
        assert(plan_shares(c.skip(i as int), avg, remaining as int, start_at as int) =~= Seq::<
            Share,
        >::empty());
        assert(out@.map_values(|d: (Distrib, SocketAddress)| share_of(d)) + Seq::<Share>::empty()
            =~= out@.map_values(|d: (Distrib, SocketAddress)| share_of(d)));
        Ok(out)
    }

    /// Hands out the shares of `shares`, in order, collecting the requests
    /// for other nodes and the jobs this node takes over itself.
    pub(crate) fn process_shares(
        &mut self,
        shares: Vec<(Distrib, SocketAddress)>,
        Ghost(take_from): Ghost<Seq<char>>,
    ) -> (h: Handout)
        requires
            forall|k: int|
                0 <= k < shares@.len() ==> (#[trigger] shares@[k]).0.take_from@ == take_from
                    && !shares@[k].0.done,
        ensures
            crate::same_identity(*old(self), *final(self)),
            final(self).clients == old(self).clients,
            shares_handed_out(
                old(self).distribution@,
                final(self).distribution@,
                h.messages@,
                h.takes@,
                old(self).id@,
                take_from,
                shares@.map_values(|d: (Distrib, SocketAddress)| share_of(d)),
            ),
    {
        let ghost p = shares@.map_values(|d: (Distrib, SocketAddress)| share_of(d));
        let ghost orig = shares@;
        let ghost dist0 = self.distribution@;
        let ghost id = self.id@;
        let ghost pred = goes_elsewhere(id);
        let ghost here = goes_here(id);
        let mut shares = shares;
        let mut messages: Vec<(Message, SocketAddress)> = Vec::new();
        let mut takes: Vec<JobTake> = Vec::new();
        let ghost mut k: int = 0;
        assert(p.take(0) =~= Seq::<Share>::empty());
        assert(Seq::<Share>::empty().filter(pred) =~= Seq::<Share>::empty()) by {
            reveal(Seq::filter);
        }
        assert(Seq::<Share>::empty().filter(here) =~= Seq::<Share>::empty()) by {
            reveal(Seq::filter);
        }
        while shares.len() > 0
            invariant
                0 <= k <= orig.len(),
                shares@ == orig.skip(k),
                p == orig.map_values(|d: (Distrib, SocketAddress)| share_of(d)),
                pred == goes_elsewhere(id),
                here == goes_here(id),
                forall|j: int|
                    0 <= j < orig.len() ==> (#[trigger] orig[j]).0.take_from@ == take_from
                        && !orig[j].0.done,
                self.id@ == id,
                crate::same_identity(*old(self), *self),
                self.clients == old(self).clients,
                dist0 == old(self).distribution@,
                id == old(self).id@,
                shares_handed_out(
                    dist0,
                    self.distribution@,
                    messages@,
                    takes@,
                    id,
                    take_from,
                    p.take(k),
                ),
            decreases shares@.len(),
        {
            let ghost rk = remote_shares(p.take(k), id);
            let ghost lk = local_shares(p.take(k), id);
            let ghost dist_before = self.distribution@;
            let ghost msgs_before = messages@;
            let ghost takes_before = takes@;
            assert(orig.skip(k)[0] == orig[k]);
            let (d, a) = shares.remove(0);
            assert(shares@ =~= orig.skip(k + 1));
            assert(share_of((d, a)) == p[k]);
            assert(p.take(k + 1) =~= p.take(k).push(p[k]));
            proof {
                p.take(k).lemma_filter_push(p[k], pred);
                p.take(k).lemma_filter_push(p[k], here);
            }
            self.process_job_redistribution(d, &a, &mut messages, &mut takes);
            proof {
                let rk1 = remote_shares(p.take(k + 1), id);
                let lk1 = local_shares(p.take(k + 1), id);
                if p[k].0 != id {
                    assert(rk1 == rk.push(p[k]));
                    assert(lk1 == lk);
                    assert forall|j: int| 0 <= j < rk1.len() implies requests_share(
                        #[trigger] messages@[j],
                        id,
                        take_from,
                        rk1[j],
                    ) by {
                        if j < rk.len() {
                            assert(messages@[j] == msgs_before[j]);
                        }
                    }
                    assert forall|j: int| 0 <= j < rk1.len() implies records_share(
                        #[trigger] self.distribution@[dist0.len() + j],
                        take_from,
                        rk1[j],
                    ) by {
                        if j < rk.len() {
                            assert(self.distribution@[dist0.len() + j] == dist_before[dist0.len()
                                + j]);
                        }
                    }
                } else {
                    assert(rk1 == rk);
                    assert(lk1 == lk.push(p[k]));
                    assert forall|j: int| 0 <= j < lk1.len() implies takes_share(
                        #[trigger] takes@[j],
                        take_from,
                        lk1[j],
                    ) by {
                        if j < lk.len() {
                            assert(takes@[j] == takes_before[j]);
                        }
                    }
                }
                k = k + 1;
            }
        }
        assert(orig.skip(k).len() == 0);
        assert(p.take(k) =~= p);
        Handout { messages, takes }
    }

    /// Shares out the jobs of the client `dead_id`, as of the time `now` and
    /// with this node holding `n_jobs_own` jobs as the application counts
    /// them: unless it was heard from less than the threshold ago, the client
    /// is forgotten, and its jobs are offered to the remaining clients and
    /// this node, from the least loaded up, each up to the average of all
    /// jobs counting the dead client's. The requests for the other nodes and
    /// the jobs this node takes over itself are given back.
    pub fn redistribute_jobs(&mut self, dead_id: String, now: i64, n_jobs_own: usize) -> (r: Result<
        Redistribution,
        EscalonError,
    >)
        ensures
            crate::same_identity(*old(self), *final(self)),
            redistribution_outcome(*old(self), *final(self), dead_id@, now, n_jobs_own, r),
    {
        proof {
            use_type_invariant(&self.clients);
        }
        if self.should_skip_redistribution(&dead_id, now) {
            return Ok(Redistribution::Skipped);
        }
        let n_before = self.clients.len();
        let dead = match self.remove_dead_client(&dead_id) {
            Some(dead) => dead,
            None => {
                return Ok(Redistribution::NotFound);
            },
        };
        let ghost entries = self.clients.entries();
        proof {
            crate::types::client::lemma_index_of_id(
                old(self).clients.entries(),
                crate::types::client::index_of_id(old(self).clients.entries(), dead_id@),
            );
        }
        let (n_jobs_dead, n_jobs_own, n_jobs_clients) = match self.calculate_job_counts_with_dead(
            &dead,
            n_jobs_own,
        ) {
            Ok(counts) => counts,
            Err(e) => {
                return Err(e);
            },
        };
        if n_jobs_own > usize::MAX - n_jobs_dead || n_jobs_clients > usize::MAX - (n_jobs_dead
            + n_jobs_own) {
            return Err(EscalonError::Overflow);
        }
        let n_jobs_total = n_jobs_clients + n_jobs_own + n_jobs_dead;
        let n_jobs_avg = self.calculate_avg_jobs_client(n_jobs_total);
        let clients_sorted = self.sort_clients_by_jobs(n_jobs_own);
        let shares = match self.plan_redistribution(&clients_sorted, n_jobs_avg, n_jobs_dead, &dead_id) {
            Ok(shares) => shares,
            Err(e) => {
                return Err(e);
            },
        };
        let handout = self.process_shares(shares, Ghost(dead_id@));
        Ok(Redistribution::Planned(handout))
    }
}

} // verus!
