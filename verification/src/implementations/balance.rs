//! Handing part of this node's own jobs to the others when it holds clearly
//! more than its share.

use vstd::prelude::*;

use crate::implementations::aux::{average_jobs, candidates_for, shares_handed_out, Handout};
use crate::net::SocketAddress;
use crate::plan::{plan_defined, plan_shares, sort_by_jobs};
use crate::types::client::sum_jobs;
use crate::{Escalon, EscalonError};

verus! {

/// The jobs this node must hold beyond the average before it hands some out.
pub const BALANCE_SLACK: usize = 3;

/// The shares of this node's `own` jobs beyond the average `avg`, for the
/// clients `entries` and this node, ordered by load.
pub open spec fn balance_shares(
    entries: Seq<crate::types::client::ClientEntry>,
    id: Seq<char>,
    address: SocketAddress,
    own: usize,
    avg: usize,
) -> Seq<crate::plan::Share> {
    plan_shares(sort_by_jobs(candidates_for(entries, id, own, address)), avg as int, own - avg, 0)
}

impl<M> Escalon<M> {
    /// The jobs this node holds, `n_jobs_own` as the application counts
    /// them, and the average number of jobs over the known clients and this
    /// node. Fails when the jobs in all, or the number of nodes, do not fit in
    /// a `usize`.
    pub fn balance_counts(&self, n_jobs_own: usize) -> (r: Result<(usize, usize), EscalonError>)
        ensures
            r is Ok <==> n_jobs_own + sum_jobs(self.clients.entries()) <= usize::MAX
                && self.clients.entries().len() < usize::MAX,
            match r {
                Ok((own, avg)) => own == n_jobs_own && avg == average_jobs(
                    own + sum_jobs(self.clients.entries()),
                    self.clients.entries().len() as int,
                ),
                Err(e) => e == EscalonError::Overflow,
            },
    {
        let (n_jobs_own, n_jobs_clients) = self.calculate_job_counts(n_jobs_own)?;
        if n_jobs_own > usize::MAX - n_jobs_clients || self.clients.len() == usize::MAX {
            return Err(EscalonError::Overflow);
        }
        let n_jobs_total = n_jobs_own + n_jobs_clients;
        let avg = self.calculate_avg_jobs_client(n_jobs_total);
        Ok((n_jobs_own, avg))
    }

    /// Hands out this node's jobs beyond the average `n_jobs_avg`, when it
    /// holds `n_jobs_own` jobs, `above_margin` says it holds at least a tenth
    /// more than the average, and it holds more than `BALANCE_SLACK` jobs
    /// beyond it. The jobs are offered to the known clients and this node from
    /// the least loaded up, each up to the average; the requests for the
    /// others, recorded as handed out, and the jobs this node would take over
    /// itself are given back. Fails when the node
    /// holds fewer jobs than the average although the margin is said to be
    /// exceeded, or when a candidate above the average is reached while jobs
    /// remain.
    pub fn balance_jobs(&mut self, n_jobs_own: usize, n_jobs_avg: usize, above_margin: bool) -> (r:
        Result<Handout, EscalonError>)
        ensures
            crate::same_identity(*old(self), *final(self)),
            final(self).clients == old(self).clients,
            !above_margin ==> (r matches Ok(h) && h.messages@.len() == 0 && h.takes@.len() == 0)
                && final(self).distribution == old(self).distribution,
            above_margin && n_jobs_own < n_jobs_avg ==> r == Err::<
                Handout,
                EscalonError,
            >(EscalonError::BelowAverage) && final(self).distribution == old(self).distribution,
            above_margin && n_jobs_avg <= n_jobs_own <= n_jobs_avg + BALANCE_SLACK ==> (r matches Ok(
                h,
            ) && h.messages@.len() == 0 && h.takes@.len() == 0) && final(self).distribution
                == old(self).distribution,
            above_margin && n_jobs_own > n_jobs_avg + BALANCE_SLACK ==> {
                let s = sort_by_jobs(
                    candidates_for(old(self).clients.entries(), old(self).id@, n_jobs_own, old(self).bound_address),
                );
                &&& !plan_defined(s, n_jobs_avg as int, n_jobs_own - n_jobs_avg) ==> r == Err::<
                    Handout,
                    EscalonError,
                >(EscalonError::AboveAverage) && final(self).distribution == old(self).distribution
                &&& plan_defined(s, n_jobs_avg as int, n_jobs_own - n_jobs_avg) ==> match r {
                    Ok(h) => shares_handed_out(
                        old(self).distribution@,
                        final(self).distribution@,
                        h.messages@,
                        h.takes@,
                        old(self).id@,
                        old(self).id@,
                        balance_shares(
                            old(self).clients.entries(),
                            old(self).id@,
                            old(self).bound_address,
                            n_jobs_own,
                            n_jobs_avg,
                        ),
                    ),
                    Err(_) => false,
                }
            },
    {
        if !above_margin {
            return Ok(Handout { messages: Vec::new(), takes: Vec::new() });
        }
        if n_jobs_own < n_jobs_avg {
            return Err(EscalonError::BelowAverage);
        }
        if n_jobs_own - n_jobs_avg <= BALANCE_SLACK {
            return Ok(Handout { messages: Vec::new(), takes: Vec::new() });
        }
        let n_jobs_to_redistribute = n_jobs_own - n_jobs_avg;
        let clients_sorted = self.sort_clients_by_jobs(n_jobs_own);
        let take_from = self.id.clone();
        let shares = self.plan_redistribution(&clients_sorted, n_jobs_avg, n_jobs_to_redistribute, &take_from)?;
        Ok(self.process_shares(shares, Ghost(take_from@)))
    }
}

} // verus!
