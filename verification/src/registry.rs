//! Clients handed out by numeric id: each registration gets the next id,
//! starting from 1, and ids are never reused.

use vstd::prelude::*;
use std::collections::HashMap;

verus! {

broadcast use vstd::std_specs::hash::group_hash_axioms;

/// `HashMap::get_mut`: a mutable reference to the value under `k`, if any;
/// whatever is written through it becomes the value under `k`, and nothing
/// else in the map changes.
#[verifier::external_body]
fn hash_map_get_mut<'a, T>(m: &'a mut HashMap<i64, T>, k: i64) -> (r: Option<&'a mut T>)
    ensures
        r is Some <==> old(m)@.contains_key(k),
        r matches Some(v) ==> *v == old(m)@[k],
        r matches Some(v) ==> final(m)@ == old(m)@.insert(k, *final(v)),
        r is None ==> final(m)@ == old(m)@,
{
    m.get_mut(&k)
}

/// A table of clients keyed by the id each received at registration.
pub struct ClientRegistry<T> {
    clients: HashMap<i64, T>,
    last_id: i64,
}

impl<T> ClientRegistry<T> {
    /// The clients by id.
    pub closed spec fn spec_clients(&self) -> Map<i64, T> {
        self.clients@
    }

    /// The id given out last (0 before the first registration).
    pub closed spec fn spec_last_id(&self) -> i64 {
        self.last_id
    }

    /// Every id in the table was given out: it lies between 1 and the last id.
    pub open spec fn wf(&self) -> bool {
        &&& self.spec_last_id() >= 0
        &&& forall|k: i64| #[trigger]
            self.spec_clients().contains_key(k) ==> 1 <= k <= self.spec_last_id()
    }

    pub fn new() -> (r: ClientRegistry<T>)
        ensures
            r.wf(),
            r.spec_clients() == Map::<i64, T>::empty(),
            r.spec_last_id() == 0,
    {
        ClientRegistry { clients: HashMap::new(), last_id: 0 }
    }

    /// The id given out last.
    pub fn last_id(&self) -> (r: i64)
        ensures
            r == self.spec_last_id(),
    {
        self.last_id
    }

    /// Stores `client` under the next id and returns that id.
    pub fn register(&mut self, client: T) -> (id: i64)
        requires
            old(self).wf(),
            old(self).spec_last_id() < i64::MAX,
        ensures
            id == old(self).spec_last_id() + 1,
            !old(self).spec_clients().contains_key(id),
            final(self).spec_clients() == old(self).spec_clients().insert(id, client),
            final(self).spec_last_id() == id,
            final(self).wf(),
            id_step(old(self).id_state(), final(self).id_state(), Some(id)),
    {
        self.last_id = self.last_id + 1;
        let id = self.last_id;
        self.clients.insert(id, client);
        id
    }

    /// Whether a client is stored under `id`.
    pub fn contains(&self, id: i64) -> (r: bool)
        ensures
            r == self.spec_clients().contains_key(id),
    {
        self.clients.contains_key(&id)
    }

    /// The client stored under `id`, if any.
    pub fn get(&self, id: i64) -> (r: Option<&T>)
        ensures
            r is Some <==> self.spec_clients().contains_key(id),
            r matches Some(c) ==> *c == self.spec_clients()[id],
    {
        self.clients.get(&id)
    }

    /// Mutable access to the client stored under `id`, if any.
    pub fn get_mut(&mut self, id: i64) -> (r: Option<&mut T>)
        ensures
            r is Some <==> old(self).spec_clients().contains_key(id),
            r matches Some(c) ==> *c == old(self).spec_clients()[id],
            r matches Some(c) ==> final(self).spec_clients() == old(self).spec_clients().insert(
                id,
                *final(c),
            ),
            r is None ==> final(self).spec_clients() == old(self).spec_clients(),
            final(self).spec_last_id() == old(self).spec_last_id(),
    {
        hash_map_get_mut(&mut self.clients, id)
    }

    /// Replacing the client under an id already in use (what `get_mut`
    /// allows) keeps the table well formed and gives out no id.
    pub proof fn lemma_update_keeps_wf(a: Self, b: Self, id: i64, c: T)
        requires
            a.wf(),
            a.spec_clients().contains_key(id),
            b.spec_clients() == a.spec_clients().insert(id, c),
            b.spec_last_id() == a.spec_last_id(),
        ensures
            b.wf(),
            id_step(a.id_state(), b.id_state(), None),
    {
        assert(b.id_state().ids =~= a.id_state().ids);
    }

    /// Drops the client stored under `id`, if any.
    pub fn remove(&mut self, id: i64)
        requires
            old(self).wf(),
        ensures
            final(self).spec_clients() == old(self).spec_clients().remove(id),
            final(self).spec_last_id() == old(self).spec_last_id(),
            final(self).wf(),
            id_step(old(self).id_state(), final(self).id_state(), None),
    {
        self.clients.remove(&id);
        assert(self.id_state().ids =~= old(self).id_state().ids.remove(id));
    }
}


/// The part of a table that decides which ids it gives out: the ids in
/// use and the id given out last.
pub struct IdState {
    pub ids: Set<i64>,
    pub last_id: i64,
}

impl<T> ClientRegistry<T> {
    /// The ids in use and the id given out last.
    pub open spec fn id_state(&self) -> IdState {
        IdState { ids: self.spec_clients().dom(), last_id: self.spec_last_id() }
    }
}

/// Every id in use was given out: it lies between 1 and the last id.
pub open spec fn ids_wf(s: IdState) -> bool {
    s.last_id >= 0 && forall|k: i64| #[trigger] s.ids.contains(k) ==> 1 <= k <= s.last_id
}

/// One operation on a table, as `register`, `remove` and `get_mut` state
/// it: a registration (`Some(id)`) gives out the next id, which was not in
/// use, and adds it; any other operation keeps the last id and adds no id.
pub open spec fn id_step(a: IdState, b: IdState, given: Option<i64>) -> bool {
    match given {
        Some(id) => id == a.last_id + 1 && !a.ids.contains(id) && b.ids == a.ids.insert(id)
            && b.last_id == id,
        None => b.last_id == a.last_id && b.ids.subset_of(a.ids),
    }
}

proof fn lemma_ids_steps(states: Seq<IdState>, given: Seq<Option<i64>>, k: int)
    requires
        states.len() == given.len() + 1,
        ids_wf(states[0]),
        forall|i: int| 0 <= i < given.len() ==> #[trigger] id_step(states[i], states[i + 1], given[i]),
        0 <= k < states.len(),
    ensures
        ids_wf(states[k]),
        forall|j: int| 0 <= j <= k ==> (#[trigger] states[j]).last_id <= states[k].last_id,
    decreases k,
{
    if k > 0 {
        lemma_ids_steps(states, given, k - 1);
        let p = k - 1;
        assert(id_step(states[p], states[p + 1], given[p]));
        assert(states[p + 1] == states[k]);
        assert forall|j: int| 0 <= j <= k implies (#[trigger] states[j]).last_id <= states[k].last_id by {
            if j < k {
                assert(states[j].last_id <= states[k - 1].last_id);
            }
        }
    }
}

/// Over any sequence of registrations and other operations on a table, the
/// ids given out are positive and strictly increasing, and an id given out
/// was never in use before, so none is reused after its client is dropped.
pub proof fn lemma_ids_never_reused(states: Seq<IdState>, given: Seq<Option<i64>>)
    requires
        states.len() == given.len() + 1,
        ids_wf(states[0]),
        forall|i: int| 0 <= i < given.len() ==> #[trigger] id_step(states[i], states[i + 1], given[i]),
    ensures
        forall|i: int| 0 <= i < given.len() && given[i] is Some ==> given[i]->0 >= 1,
        forall|i: int, j: int|
            0 <= i < j < given.len() && given[i] is Some && given[j] is Some ==> given[i]->0
                < given[j]->0,
        forall|i: int, k: int|
            0 <= k <= i < given.len() && given[i] is Some ==> !#[trigger] states[k].ids.contains(given[i]->0),
{
    assert forall|i: int| 0 <= i < given.len() && given[i] is Some implies given[i]->0 >= 1 by {
        lemma_ids_steps(states, given, i);
        assert(id_step(states[i], states[i + 1], given[i]));
    }
    assert forall|i: int, j: int|
        0 <= i < j < given.len() && given[i] is Some && given[j] is Some implies given[i]->0
            < given[j]->0 by {
        lemma_ids_steps(states, given, j);
        assert(id_step(states[i], states[i + 1], given[i]));
        assert(id_step(states[j], states[j + 1], given[j]));
        assert(states[i + 1].last_id <= states[j].last_id);
    }
    assert forall|i: int, k: int|
        0 <= k <= i < given.len() && given[i] is Some implies !#[trigger] states[k].ids.contains(given[i]->0) by {
        lemma_ids_steps(states, given, i);
        lemma_ids_steps(states, given, k);
        assert(id_step(states[i], states[i + 1], given[i]));
        assert(states[k].last_id <= states[i].last_id);
        if states[k].ids.contains(given[i]->0) {
            assert(given[i]->0 <= states[k].last_id);
        }
    }
}

} // verus!
