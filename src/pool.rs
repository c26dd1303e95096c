use vstd::prelude::*;
use vstd::std_specs::iter::IteratorSpec;
use std::collections::HashMap;
use crate::error::{errors_in, failures_of, id_text, Error, Result};
use crate::worker::{Join, Worker};

verus! {

broadcast use vstd::std_specs::hash::group_hash_axioms;

/// A keyed registry of running workers, with a state that each new worker
/// receives a copy of.
///
/// Its view is the set of registered ids. Each registered id has exactly one
/// worker, whose thread has not been joined yet.
pub struct ThreadPool<State, H> {
    workers: HashMap<u64, Worker<H>>,
    state: State,
    retired: Ghost<Seq<(u64, Result<()>)>>,
}

/// The registered ids after `spawn(id)` on a registry whose ids are `ids`.
pub open spec fn after_spawn(ids: Set<u64>, id: u64) -> Set<u64> {
    ids.insert(id)
}

/// `spawn(id)` succeeds on a registry whose ids are `ids`.
pub open spec fn spawn_accepts(ids: Set<u64>, id: u64) -> bool {
    !ids.contains(id)
}

/// The registered ids after `stop(id)` on a registry whose ids are `ids`.
pub open spec fn after_stop(ids: Set<u64>, id: u64) -> Set<u64> {
    ids.remove(id)
}

/// `stop(id)` finds a worker to retire on a registry whose ids are `ids`.
pub open spec fn stop_finds(ids: Set<u64>, id: u64) -> bool {
    ids.contains(id)
}

/// The ids of a sequence of retirements.
pub open spec fn retired_ids(log: Seq<(u64, Result<()>)>) -> Seq<u64> {
    log.map_values(|e: (u64, Result<()>)| e.0)
}

/// The results of a sequence of retirements.
pub open spec fn retired_results(log: Seq<(u64, Result<()>)>) -> Seq<Result<()>> {
    log.map_values(|e: (u64, Result<()>)| e.1)
}

impl<State, H> View for ThreadPool<State, H> {
    type V = Set<u64>;

    closed spec fn view(&self) -> Set<u64> {
        self.workers@.dom()
    }
}

impl<State, H> ThreadPool<State, H> {
    /// Every entry of the table holds the worker started under its key.
    pub closed spec fn wf(&self) -> bool {
        forall|k: u64| #[trigger] self.workers@.contains_key(k) ==> self.workers@[k].id == k
    }

    /// The thread handle of the worker registered under `k`.
    pub closed spec fn thread_of(&self, k: u64) -> H {
        self.workers@[k].thread
    }

    /// The workers retired so far, in order: each with its id and what
    /// retiring it gave.
    pub closed spec fn retirements(&self) -> Seq<(u64, Result<()>)> {
        self.retired@
    }

    /// The state that each new worker receives a copy of.
    pub closed spec fn shared_state(&self) -> State {
        self.state
    }
}

impl<State: Clone, H: Join> ThreadPool<State, H> {
    /// An empty registry holding `state`; no thread is started.
    pub fn new(state: State) -> (p: Self)
        ensures
            p.wf(),
            p@ == Set::<u64>::empty(),
            p.shared_state() == state,
            p.retirements() == Seq::<(u64, Result<()>)>::empty(),
    {
        ThreadPool { workers: HashMap::new(), state, retired: Ghost(Seq::empty()) }
    }

    /// The registered ids, each once, in no particular order.
    pub fn ids(&self) -> (r: Vec<u64>)
        ensures
            r@.to_set() == self@,
            r@.no_duplicates(),
            r@.len() == self@.len(),
    {
        let mut r: Vec<u64> = Vec::new();
        let keys = self.workers.keys();
        let ghost all = keys.remaining().unref();
        assert(all.to_set() == self.workers@.dom());
        for k in it: keys
            invariant
                r@ == it.seq().unref().take(it.index()),
                it.seq().unref() == all,
                all.to_set() == self.workers@.dom(),
                all.no_duplicates(),
                all.len() == self.workers@.dom().len(),
        {
            r.push(*k);
        }
        assert(r@ == all);
        r
    }

    /// Starts a worker under `id`: the factory `handle` receives the id, a
    /// copy of the shared state and the receiving end of the worker's
    /// shutdown channel, and returns the handle of the thread it started.
    ///
    /// Fails with `WorkerAlreadyExist` when `id` is already registered; the
    /// factory is then not called and the table is left as it was.
    pub fn spawn<F: Fn(u64, State, std::sync::mpsc::Receiver<()>) -> H>(
        &mut self,
        id: u64,
        handle: &F,
    ) -> (r: Result<()>)
        requires
            old(self).wf(),
            forall|i: u64, s: State, rx: std::sync::mpsc::Receiver<()>| handle.requires((i, s, rx)),
        ensures
            final(self).wf(),
            final(self)@ == after_spawn(old(self)@, id),
            r is Ok <==> spawn_accepts(old(self)@, id),
            r is Err ==> r->Err_0.is_already_exist_for(id) && *final(self) == *old(self),
            r is Ok ==> exists|s: State, rx: std::sync::mpsc::Receiver<()>|
                cloned(old(self).shared_state(), s) && #[trigger] handle.ensures(
                    (id, s, rx),
                    final(self).thread_of(id),
                ),
            forall|k: u64|
                k != id && old(self)@.contains(k) ==> #[trigger] final(self).thread_of(k)
                    == old(self).thread_of(k),
            final(self).retirements() == old(self).retirements(),
            final(self).shared_state() == old(self).shared_state(),
    {
        if self.workers.contains_key(&id) {
            return Err(Error::WorkerAlreadyExist(id_text(id)));
        }
        let state = self.state.clone();
        let ghost copy = state;
        assert(cloned(self.state, copy));
        let worker = Worker::new(id, state, handle);
        let ghost thread = worker.thread;
        self.workers.insert(id, worker);
        assert(self.thread_of(id) == thread);
        assert(exists|rx: std::sync::mpsc::Receiver<()>| #[trigger] handle.ensures((id, copy, rx), thread));
        Ok(())
    }

    /// Removes the worker registered under `id` and retires it: sends its
    /// shutdown signal and waits for its thread to finish.
    ///
    /// Fails with `WorkerNotFound` when `id` is not registered, and then
    /// changes nothing. Otherwise the entry is gone whatever the retirement
    /// gave; a failed retirement is reported as `retirement_result` says.
    pub fn stop(&mut self, id: u64) -> (r: Result<()>)
        requires
            old(self).wf(),
        ensures
            final(self).wf(),
            final(self)@ == after_stop(old(self)@, id),
            !stop_finds(old(self)@, id) ==> r is Err && r->Err_0.is_not_found_for(id) && *final(self)
                == *old(self),
            stop_finds(old(self)@, id) ==> r is Ok || r->Err_0.is_retirement_failure_for(id),
            stop_finds(old(self)@, id) ==> final(self).retirements() == old(self).retirements().push(
                (id, r),
            ),
            forall|k: u64|
                k != id && old(self)@.contains(k) ==> #[trigger] final(self).thread_of(k)
                    == old(self).thread_of(k),
            final(self).shared_state() == old(self).shared_state(),
    {
        if !self.workers.contains_key(&id) {
            return Err(Error::WorkerNotFound(id_text(id)));
        }
        let r = match self.workers.remove(&id) {
            Some(worker) => worker.stop(),
            None => Err(Error::WorkerNotFound(id_text(id))),
        };
        self.retired = Ghost(self.retired@.push((id, r)));
        r
    }

    /// Retires every registered worker, one after the other, and empties the
    /// table. Each worker is retired once, through `stop`; a failed
    /// retirement does not stop the others. The failures are all returned, in
    /// the order they happened, and none is returned when every worker
    /// stopped cleanly.
    pub fn shutdown(&mut self) -> (failures: Vec<Error>)
        requires
            old(self).wf(),
        ensures
            final(self).wf(),
            final(self)@ == Set::<u64>::empty(),
            final(self).retirements().take(old(self).retirements().len() as int)
                == old(self).retirements(),
            ({
                let done = final(self).retirements().skip(old(self).retirements().len() as int);
                &&& retired_ids(done).no_duplicates()
                &&& retired_ids(done).to_set() == old(self)@
                &&& failures@ == errors_in(retired_results(done))
                &&& forall|i: int|
                    0 <= i < done.len() ==> (#[trigger] done[i]).1 is Ok || done[i].1->Err_0.is_retirement_failure_for(
                        done[i].0,
                    )
            }),
            final(self).shared_state() == old(self).shared_state(),
    {
        let ids = self.ids();
        let ghost start = self@;
        let ghost before = self.retirements();
        let mut outcomes: Vec<Result<()>> = Vec::new();
        let mut j: usize = 0;
        while j < ids.len()
            invariant
                j <= ids@.len(),
                self.wf(),
                ids@.to_set() == start,
                ids@.no_duplicates(),
                ids@.len() == start.len(),
                start == old(self)@,
                before == old(self).retirements(),
                self@ == start.difference(ids@.take(j as int).to_set()),
                outcomes@.len() == j,
                self.retirements().len() == before.len() + j,
                self.retirements().take(before.len() as int) == before,
                forall|i: int|
                    0 <= i < j ==> #[trigger] self.retirements()[before.len() + i] == (
                        ids@[i],
                        outcomes@[i],
                    ),
                forall|i: int|
                    0 <= i < j ==> (#[trigger] outcomes@[i]) is Ok
                        || outcomes@[i]->Err_0.is_retirement_failure_for(ids@[i]),
                self.shared_state() == old(self).shared_state(),
            decreases ids@.len() - j,
        {
            let id = ids[j];
            proof {
                assert(ids@.take(j + 1) == ids@.take(j as int).push(id));
                assert(ids@.contains(id));
                ids@.take(j as int).lemma_push_to_set_commute(id);
            }
            let ghost log = self.retirements();
            let r = self.stop(id);
            outcomes.push(r);
            proof {
                assert(self.retirements() == log.push((id, r)));
                assert(self.retirements().take(before.len() as int) =~= before);
                assert forall|i: int| 0 <= i < j + 1 implies #[trigger] self.retirements()[before.len() + i] == (
                    ids@[i],
                    outcomes@[i],
                ) by {
                    if i < j {
                        assert(self.retirements()[before.len() + i] == log[before.len() + i]);
                    }
                }
            }
            assert(self@ =~= start.difference(ids@.take(j + 1).to_set()));
            j = j + 1;
        }
        assert(ids@.take(ids@.len() as int) == ids@);
        assert(self@ =~= Set::<u64>::empty());
        let ghost all = outcomes@;
        let failures = failures_of(outcomes);
        proof {
            let done = self.retirements().skip(before.len() as int);
            assert forall|i: int| 0 <= i < done.len() implies #[trigger] done[i] == (ids@[i], all[i]) by {
                assert(done[i] == self.retirements()[before.len() + i]);
            }
            assert(retired_ids(done) =~= ids@);
            assert(retired_results(done) =~= all);
        }
        failures
    }
}

} // verus!
