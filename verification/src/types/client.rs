//! What a node knows of the other nodes of its cluster.

use vstd::prelude::*;

use crate::net::SocketAddress;
use crate::time::Timestamp;

verus! {

/// The load that a node reports of itself.
#[derive(Clone, Copy, Debug, PartialEq, Eq)]
pub struct ClientState {
    pub jobs: usize,
}

/// Another node of the cluster, as this node last heard of it.
#[derive(Clone, Copy, Debug, PartialEq, Eq)]
pub struct EscalonClient {
    pub address: SocketAddress,
    /// When this node last heard from it, in seconds since the Unix epoch.
    pub last_seen: i64,
    pub start_time: Timestamp,
    pub state: ClientState,
}

/// Another node of the cluster.
pub type Client = EscalonClient;

/// An entry of the client table: a node's id and what is known of it.
pub type ClientEntry = (Seq<char>, EscalonClient);

/// Some entry of `entries` has the id `id`.
pub open spec fn has_id(entries: Seq<ClientEntry>, id: Seq<char>) -> bool {
    exists|i: int| 0 <= i < entries.len() && #[trigger] entries[i].0 == id
}

/// The position of the entry with the id `id`.
pub open spec fn index_of_id(entries: Seq<ClientEntry>, id: Seq<char>) -> int {
    choose|i: int| 0 <= i < entries.len() && #[trigger] entries[i].0 == id
}

/// No id occurs twice among `entries`.
pub open spec fn ids_distinct(entries: Seq<ClientEntry>) -> bool {
    forall|i: int, j: int|
        0 <= i < entries.len() && 0 <= j < entries.len() && i != j ==> #[trigger] entries[i].0
            != #[trigger] entries[j].0
}

/// The map from ids to clients that `entries` lists.
pub open spec fn map_of_entries(entries: Seq<ClientEntry>) -> Map<Seq<char>, EscalonClient> {
    Map::new(|id: Seq<char>| has_id(entries, id), |id: Seq<char>| entries[index_of_id(entries, id)].1)
}

/// The sum of the jobs that `entries` report.
pub open spec fn sum_jobs(entries: Seq<ClientEntry>) -> nat
    decreases entries.len(),
{
    if entries.len() == 0 {
        0
    } else {
        sum_jobs(entries.drop_last()) + entries.last().1.state.jobs as nat
    }
}

/// The jobs of a prefix never sum to more than those of the whole list.
pub proof fn lemma_sum_jobs_prefix(entries: Seq<ClientEntry>, n: int)
    requires
        0 <= n <= entries.len(),
    ensures
        sum_jobs(entries.take(n)) <= sum_jobs(entries),
    decreases entries.len(),
{
    if n < entries.len() {
        assert(entries.drop_last().take(n) =~= entries.take(n));
        lemma_sum_jobs_prefix(entries.drop_last(), n);
    } else {
        assert(entries.take(n) =~= entries);
    }
}

/// In a list of distinct ids, the entry found for an id of position `i` is
/// the one at `i`.
pub proof fn lemma_index_of_id(entries: Seq<ClientEntry>, i: int)
    requires
        ids_distinct(entries),
        0 <= i < entries.len(),
    ensures
        has_id(entries, entries[i].0),
        index_of_id(entries, entries[i].0) == i,
{
    let id = entries[i].0;
    assert(has_id(entries, id));
    let j = index_of_id(entries, id);
    assert(0 <= j < entries.len() && entries[j].0 == id);
}


/// Appending an entry with a new id keeps the ids distinct and adds that id
/// to the map.
pub proof fn lemma_push_entry(entries: Seq<ClientEntry>, id: Seq<char>, client: EscalonClient)
    requires
        ids_distinct(entries),
        !has_id(entries, id),
    ensures
        ids_distinct(entries.push((id, client))),
        map_of_entries(entries.push((id, client))) =~= map_of_entries(entries).insert(id, client),
{
    let n = entries.len() as int;
    let e2 = entries.push((id, client));
    assert forall|i: int, j: int|
        0 <= i < e2.len() && 0 <= j < e2.len() && i != j implies #[trigger] e2[i].0
        != #[trigger] e2[j].0 by {
        if i == n {
            assert(entries[j].0 == e2[j].0);
        } else if j == n {
            assert(entries[i].0 == e2[i].0);
        } else {
            assert(entries[i].0 == e2[i].0 && entries[j].0 == e2[j].0);
        }
    }
    let m1 = map_of_entries(e2);
    let m2 = map_of_entries(entries).insert(id, client);
    assert forall|q: Seq<char>| #[trigger] m1.dom().contains(q) == m2.dom().contains(q) by {
        if has_id(e2, q) {
            let i = choose|i: int| 0 <= i < e2.len() && #[trigger] e2[i].0 == q;
            if i < n {
                assert(entries[i].0 == q);
            }
        }
        if has_id(entries, q) {
            let i = choose|i: int| 0 <= i < entries.len() && #[trigger] entries[i].0 == q;
            assert(e2[i].0 == q);
        }
        if q == id {
            assert(e2[n].0 == q);
        }
    }
    assert forall|q: Seq<char>| #[trigger] m1.dom().contains(q) implies m1[q] == m2[q] by {
        if q == id {
            lemma_index_of_id(e2, n);
        } else {
            let i = choose|i: int| 0 <= i < e2.len() && #[trigger] e2[i].0 == q;
            assert(i < n);
            assert(entries[i].0 == q);
            lemma_index_of_id(entries, i);
            lemma_index_of_id(e2, i);
        }
    }
}

/// Replacing the client of the entry at `i` changes only that id's client in
/// the map.
pub proof fn lemma_update_entry(entries: Seq<ClientEntry>, i: int, client: EscalonClient)
    requires
        ids_distinct(entries),
        0 <= i < entries.len(),
    ensures
        ids_distinct(entries.update(i, (entries[i].0, client))),
        map_of_entries(entries.update(i, (entries[i].0, client))) =~= map_of_entries(entries).insert(
            entries[i].0,
            client,
        ),
{
    let id = entries[i].0;
    let e2 = entries.update(i, (id, client));
    assert forall|a: int, b: int|
        0 <= a < e2.len() && 0 <= b < e2.len() && a != b implies #[trigger] e2[a].0
        != #[trigger] e2[b].0 by {
        assert(entries[a].0 == e2[a].0 && entries[b].0 == e2[b].0);
    }
    let m1 = map_of_entries(e2);
    let m2 = map_of_entries(entries).insert(id, client);
    assert forall|q: Seq<char>| #[trigger] m1.dom().contains(q) == m2.dom().contains(q) by {
        if has_id(e2, q) {
            let a = choose|a: int| 0 <= a < e2.len() && #[trigger] e2[a].0 == q;
            assert(entries[a].0 == q);
        }
        if has_id(entries, q) {
            let a = choose|a: int| 0 <= a < entries.len() && #[trigger] entries[a].0 == q;
            assert(e2[a].0 == q);
        }
        if q == id {
            assert(e2[i].0 == q);
        }
    }
    assert forall|q: Seq<char>| #[trigger] m1.dom().contains(q) implies m1[q] == m2[q] by {
        let a = choose|a: int| 0 <= a < e2.len() && #[trigger] e2[a].0 == q;
        assert(entries[a].0 == q);
        lemma_index_of_id(entries, a);
        lemma_index_of_id(e2, a);
    }
}

/// Removing the entry at `i` removes its id from the map and keeps the other
/// ids distinct.
pub proof fn lemma_remove_entry(entries: Seq<ClientEntry>, i: int)
    requires
        ids_distinct(entries),
        0 <= i < entries.len(),
    ensures
        ids_distinct(entries.remove(i)),
        map_of_entries(entries.remove(i)) =~= map_of_entries(entries).remove(entries[i].0),
{
    let id = entries[i].0;
    let e2 = entries.remove(i);
    assert forall|a: int| 0 <= a < e2.len() implies #[trigger] e2[a] == entries[if a < i {
        a
    } else {
        a + 1
    }] by {}
    assert forall|a: int, b: int|
        0 <= a < e2.len() && 0 <= b < e2.len() && a != b implies #[trigger] e2[a].0
        != #[trigger] e2[b].0 by {
        let a1 = if a < i { a } else { a + 1 };
        let b1 = if b < i { b } else { b + 1 };
        assert(e2[a] == entries[a1] && e2[b] == entries[b1]);
    }
    let m1 = map_of_entries(e2);
    let m2 = map_of_entries(entries).remove(id);
    assert forall|q: Seq<char>| #[trigger] m1.dom().contains(q) == m2.dom().contains(q) by {
        if has_id(e2, q) {
            let a = choose|a: int| 0 <= a < e2.len() && #[trigger] e2[a].0 == q;
            let a1 = if a < i { a } else { a + 1 };
            assert(e2[a] == entries[a1]);
            assert(entries[a1].0 == q);
        }
        if has_id(entries, q) && q != id {
            let a = choose|a: int| 0 <= a < entries.len() && #[trigger] entries[a].0 == q;
            assert(a != i);
            let a2 = if a < i { a } else { a - 1 };
            assert(e2[a2] == entries[a]);
            assert(e2[a2].0 == q);
        }
    }
    assert forall|q: Seq<char>| #[trigger] m1.dom().contains(q) implies m1[q] == m2[q] by {
        let a = choose|a: int| 0 <= a < e2.len() && #[trigger] e2[a].0 == q;
        let a1 = if a < i { a } else { a + 1 };
        assert(e2[a] == entries[a1]);
        lemma_index_of_id(entries, a1);
        lemma_index_of_id(e2, a);
    }
}

/// The clients known to a node, by id. Ids are unique; entries keep the order
/// in which they were first inserted.
pub struct ClientTable {
    entries: Vec<(String, EscalonClient)>,
}

impl ClientTable {
    /// The entries of the table, in order.
    pub closed spec fn entries(&self) -> Seq<ClientEntry> {
        self.entries@.map_values(|e: (String, EscalonClient)| (e.0@, e.1))
    }

    /// The table is well formed: no id occurs twice.
    #[verifier::type_invariant]
    pub open spec fn wf(&self) -> bool {
        ids_distinct(self.entries())
    }

    /// A table with no client.
    pub fn new() -> (t: ClientTable)
        ensures
            t.entries() == Seq::<ClientEntry>::empty(),
            t@ == Map::<Seq<char>, EscalonClient>::empty(),
    {
        let t = ClientTable { entries: Vec::new() };
        assert(t.entries() =~= Seq::<ClientEntry>::empty());
        assert(t@ =~= Map::<Seq<char>, EscalonClient>::empty());
        t
    }

    /// The position of the entry with id `id`, if there is one.
    fn find(&self, id: &String) -> (r: Option<usize>)
        ensures
            match r {
                Some(i) => i < self.entries().len() && self.entries()[i as int].0 == id@,
                None => !has_id(self.entries(), id@),
            },
    {
        let mut i: usize = 0;
        while i < self.entries.len()
            invariant
                i <= self.entries().len(),
                forall|j: int| 0 <= j < i ==> #[trigger] self.entries()[j].0 != id@,
            decreases self.entries().len() - i,
        {
            if self.entries[i].0 == *id {
                return Some(i);
            }
            i = i + 1;
        }
        None
    }

    /// Whether a client with id `id` is known.
    pub fn contains_key(&self, id: &String) -> (b: bool)
        ensures
            b == self@.dom().contains(id@),
    {
        proof {
            use_type_invariant(self);
        }
        self.find(id).is_some()
    }

    /// The client with id `id`, if it is known.
    pub fn get(&self, id: &String) -> (r: Option<EscalonClient>)
        ensures
            r == (if self@.dom().contains(id@) {
                Some(self@[id@])
            } else {
                None
            }),
    {
        proof {
            use_type_invariant(self);
        }
        match self.find(id) {
            Some(i) => {
                proof {
                    lemma_index_of_id(self.entries(), i as int);
                }
                Some(self.entries[i].1)
            },
            None => None,
        }
    }

    /// Records `client` under `id`, in place of a client already known under
    /// that id, or else as a new last entry.
    pub fn insert(&mut self, id: String, client: EscalonClient)
        ensures
            final(self)@ == old(self)@.insert(id@, client),
            final(self).entries() == (if has_id(old(self).entries(), id@) {
                old(self).entries().update(
                    index_of_id(old(self).entries(), id@),
                    (id@, client),
                )
            } else {
                old(self).entries().push((id@, client))
            }),
    {
        proof {
            use_type_invariant(&*self);
        }
        let ghost e = self.entries();
        match self.find(&id) {
            Some(i) => {
                proof {
                    lemma_index_of_id(e, i as int);
                    lemma_update_entry(e, i as int, client);
                }
                let mut entries = Vec::new();
                std::mem::swap(&mut entries, &mut self.entries);
                entries.set(i, (id, client));
                assert(entries@.map_values(|x: (String, EscalonClient)| (x.0@, x.1)) =~= e.update(
                    i as int,
                    (e[i as int].0, client),
                ));
                self.entries = entries;
                assert(self.entries() =~= e.update(i as int, (e[i as int].0, client)));
            },
            None => {
                proof {
                    lemma_push_entry(e, id@, client);
                }
                let ghost key = id@;
                let mut entries = Vec::new();
                std::mem::swap(&mut entries, &mut self.entries);
                entries.push((id, client));
                assert(entries@.map_values(|x: (String, EscalonClient)| (x.0@, x.1)) =~= e.push(
                    (key, client),
                ));
                self.entries = entries;
                assert(self.entries() =~= e.push((key, client)));
            },
        }
    }

    /// Forgets the client with id `id` and gives it back, if it was known.
    pub fn remove(&mut self, id: &String) -> (r: Option<EscalonClient>)
        ensures
            final(self)@ == old(self)@.remove(id@),
            r == (if old(self)@.dom().contains(id@) {
                Some(old(self)@[id@])
            } else {
                None
            }),
            r is None ==> *final(self) == *old(self),
            final(self).entries() == (if has_id(old(self).entries(), id@) {
                old(self).entries().remove(index_of_id(old(self).entries(), id@))
            } else {
                old(self).entries()
            }),
    {
        proof {
            use_type_invariant(&*self);
        }
        let ghost e = self.entries();
        match self.find(id) {
            Some(i) => {
                proof {
                    lemma_index_of_id(e, i as int);
                    lemma_remove_entry(e, i as int);
                }
                let mut entries = Vec::new();
                std::mem::swap(&mut entries, &mut self.entries);
                let (_, client) = entries.remove(i);
                assert(entries@.map_values(|x: (String, EscalonClient)| (x.0@, x.1)) =~= e.remove(
                    i as int,
                ));
                self.entries = entries;
                assert(self.entries() =~= e.remove(i as int));
                Some(client)
            },
            None => {
                assert(map_of_entries(e).remove(id@) =~= map_of_entries(e));
                None
            },
        }
    }

    /// The id of the entry at position `i`.
    pub fn key_at(&self, i: usize) -> (id: &String)
        requires
            i < self.entries().len(),
        ensures
            id@ == self.entries()[i as int].0,
    {
        &self.entries[i].0
    }

    /// The client of the entry at position `i`.
    pub fn client_at(&self, i: usize) -> (c: EscalonClient)
        requires
            i < self.entries().len(),
        ensures
            c == self.entries()[i as int].1,
    {
        self.entries[i].1
    }

    /// The sum of the jobs that the known clients report, or `None` where it
    /// does not fit in a `usize`.
    pub fn total_jobs(&self) -> (r: Option<usize>)
        ensures
            r == (if sum_jobs(self.entries()) <= usize::MAX {
                Some(sum_jobs(self.entries()) as usize)
            } else {
                None
            }),
    {
        let mut acc: usize = 0;
        let mut i: usize = 0;
        while i < self.entries.len()
            invariant
                i <= self.entries().len(),
                acc == sum_jobs(self.entries().take(i as int)),
            decreases self.entries().len() - i,
        {
            assert(self.entries().take(i + 1).drop_last() =~= self.entries().take(i as int));
            let jobs = self.entries[i].1.state.jobs;
            if acc > usize::MAX - jobs {
                proof {
                    lemma_sum_jobs_prefix(self.entries(), i as int + 1);
                }
                return None;
            }
            acc = acc + jobs;
            i = i + 1;
        }
        assert(self.entries().take(i as int) =~= self.entries());
        Some(acc)
    }

    /// The number of clients.
    pub fn len(&self) -> (n: usize)
        ensures
            n == self.entries().len(),
    {
        self.entries.len()
    }
}

/// The ids of `entries`, in order.
pub open spec fn ids_of(entries: Seq<ClientEntry>) -> Seq<Seq<char>> {
    entries.map_values(|e: ClientEntry| e.0)
}

impl ClientTable {
    /// A well-formed table has one entry per known client.
    pub proof fn lemma_len_counts_clients(&self)
        requires
            self.wf(),
        ensures
            self@.dom().finite(),
            self.entries().len() == self@.dom().len(),
    {
        let e = self.entries();
        let keys = ids_of(e);
        assert(keys.no_duplicates()) by {
            assert forall|i: int, j: int|
                0 <= i < keys.len() && 0 <= j < keys.len() && i != j implies keys[i] != keys[j] by {
                assert(keys[i] == e[i].0 && keys[j] == e[j].0);
            }
        }
        keys.unique_seq_to_set();
        assert forall|k: Seq<char>| #[trigger] self@.dom().contains(k) == keys.to_set().contains(k) by {
            if has_id(e, k) {
                let i = choose|i: int| 0 <= i < e.len() && #[trigger] e[i].0 == k;
                assert(keys[i] == k);
            }
            if keys.contains(k) {
                let i = choose|i: int| 0 <= i < keys.len() && keys[i] == k;
                assert(e[i].0 == k);
            }
        }
        assert(self@.dom() =~= keys.to_set());
        broadcast use vstd::seq_lib::seq_to_set_is_finite;
    }
}

impl View for ClientTable {
    type V = Map<Seq<char>, EscalonClient>;

    open spec fn view(&self) -> Map<Seq<char>, EscalonClient> {
        map_of_entries(self.entries())
    }
}

} // verus!
