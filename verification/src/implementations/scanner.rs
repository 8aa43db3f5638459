//! Spotting the nodes that went silent.

use vstd::prelude::*;

use crate::constants::THRESHOLD_SECS;
use crate::types::client::{ClientEntry, EscalonClient};
use crate::types::message::{is_found_dead, Message};
use crate::Escalon;

verus! {

/// The client was last heard from more than the threshold before `now`.
pub open spec fn is_silent(c: EscalonClient, now: i64) -> bool {
    now - c.last_seen > THRESHOLD_SECS
}

/// The entry's client went silent as of `now`.
pub open spec fn silent_entry(now: i64) -> spec_fn(ClientEntry) -> bool {
    |e: ClientEntry| is_silent(e.1, now)
}

/// The ids of the entries whose clients went silent as of `now`, in order.
pub open spec fn silent_ids(entries: Seq<ClientEntry>, now: i64) -> Seq<Seq<char>> {
    entries.filter(silent_entry(now)).map_values(|e: ClientEntry| e.0)
}

impl<M> Escalon<M> {
    /// The ids of the known clients that were last heard from more than the
    /// threshold before `now`, in the order of the table.
    pub fn dead_clients(&self, now: i64) -> (r: Vec<String>)
        ensures
            r@.map_values(|s: String| s@) == silent_ids(self.clients.entries(), now),
    {
        let ghost entries = self.clients.entries();
        let ghost pred = silent_entry(now);
        let mut out: Vec<String> = Vec::new();
        let mut i: usize = 0;
        assert(entries.take(0) =~= Seq::<ClientEntry>::empty());
        assert(Seq::<ClientEntry>::empty().filter(pred) =~= Seq::<ClientEntry>::empty()) by {
            reveal(Seq::filter);
        }
        while i < self.clients.len()
            invariant
                i <= entries.len(),
                entries == self.clients.entries(),
                pred == silent_entry(now),
                out@.map_values(|s: String| s@) == entries.take(i as int).filter(pred).map_values(
                    |e: ClientEntry| e.0,
                ),
            decreases entries.len() - i,
        {
            let ghost before = out@;
            assert(entries.take(i + 1) =~= entries.take(i as int).push(entries[i as int]));
            proof {
                entries.take(i as int).lemma_filter_push(entries[i as int], pred);
            }
            let c = self.clients.client_at(i);
            if (now as i128) - (c.last_seen as i128) > THRESHOLD_SECS as i128 {
                assert(pred(entries[i as int]));
                let ghost f = entries.take(i as int).filter(pred);
                assert(entries.take(i + 1).filter(pred) == f.push(entries[i as int]));
                let id = self.clients.key_at(i).clone();
                out.push(id);
                assert(f.push(entries[i as int]).map_values(|e: ClientEntry| e.0) =~= f.map_values(
                    |e: ClientEntry| e.0,
                ).push(entries[i as int].0));
                assert(out@.map_values(|s: String| s@) =~= entries.take(i + 1).filter(pred).map_values(
                    |e: ClientEntry| e.0,
                ));
            } else {
                assert(!pred(entries[i as int]));
                assert(out@ == before);
            }
            i = i + 1;
        }
        assert(entries.take(i as int) =~= entries);
        out
    }

    /// This node's report that the client `dead_id` went silent.
    pub fn found_dead_message(&self, dead_id: String) -> (m: Message)
        ensures
            is_found_dead(m, self.id@, dead_id@),
    {
        Message::new_found_dead(self.id.clone(), dead_id)
    }
}

} // verus!
