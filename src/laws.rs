//! Laws of the registry over the effects that the contracts of `spawn` and
//! `stop` state on its view (the set of registered ids): `spawn(id)` leaves
//! `after_spawn(v, id)` and succeeds exactly when `spawn_accepts(v, id)`;
//! `stop(id)` leaves `after_stop(v, id)` and retires a worker exactly when
//! `stop_finds(v, id)`; `ids()` lists the view, each id once.
use vstd::prelude::*;
use crate::pool::{after_spawn, after_stop, spawn_accepts, stop_finds};

verus! {

/// The registered ids after spawning each of `ids` in turn on a registry
/// whose ids are `v`.
pub open spec fn spawned_all(v: Set<u64>, ids: Seq<u64>) -> Set<u64>
    decreases ids.len(),
{
    if ids.len() == 0 {
        v
    } else {
        after_spawn(spawned_all(v, ids.drop_last()), ids.last())
    }
}

/// Spawning distinct ids one after the other on an empty registry: every
/// spawn succeeds, and the registry then holds exactly those ids, none lost
/// and none twice.
pub proof fn lemma_distinct_spawns_all_present(ids: Seq<u64>)
    requires
        ids.no_duplicates(),
    ensures
        spawned_all(Set::empty(), ids) == ids.to_set(),
        forall|i: int|
            0 <= i < ids.len() ==> spawn_accepts(
                spawned_all(Set::empty(), ids.take(i)),
                #[trigger] ids[i],
            ),
    decreases ids.len(),
{
    if ids.len() > 0 {
        let init = ids.drop_last();
        assert(init.no_duplicates());
        lemma_distinct_spawns_all_present(init);
        init.lemma_push_to_set_commute(ids.last());
        assert(init.push(ids.last()) == ids);
        assert forall|i: int| 0 <= i < ids.len() implies spawn_accepts(
            spawned_all(Set::empty(), ids.take(i)),
            #[trigger] ids[i],
        ) by {
            if i < ids.len() - 1 {
                assert(ids.take(i) == init.take(i));
                assert(ids[i] == init[i]);
            } else {
                assert(ids.take(i) == init);
                assert(!init.contains(ids.last()));
            }
        }
    } else {
        assert(ids.to_set() =~= Set::<u64>::empty());
    }
}

/// Spawning two distinct ids on an empty registry succeeds both times, and
/// the registry then lists exactly those two ids, whichever came first.
pub proof fn lemma_distinct_spawns_listed(a: u64, b: u64)
    requires
        a != b,
    ensures
        spawn_accepts(Set::empty(), a),
        spawn_accepts(after_spawn(Set::empty(), a), b),
        spawn_accepts(Set::empty(), b),
        spawn_accepts(after_spawn(Set::empty(), b), a),
        after_spawn(after_spawn(Set::empty(), a), b) == set![a, b],
        after_spawn(after_spawn(Set::empty(), b), a) == set![a, b],
{
    assert(after_spawn(after_spawn(Set::empty(), a), b) =~= set![a, b]);
    assert(after_spawn(after_spawn(Set::empty(), b), a) =~= set![a, b]);
}

/// After a spawn of `id`, whatever it gave, a second spawn of `id` fails,
/// and the registry's ids stay those after the first spawn.
pub proof fn lemma_second_spawn_refused(v: Set<u64>, id: u64)
    ensures
        !spawn_accepts(after_spawn(v, id), id),
        after_spawn(after_spawn(v, id), id) == after_spawn(v, id),
{
    assert(after_spawn(after_spawn(v, id), id) =~= after_spawn(v, id));
}

/// The registry's ids after `n` rounds of spawning and then stopping `id`,
/// from a registry whose ids are `v`.
pub open spec fn cycled(v: Set<u64>, id: u64, n: nat) -> Set<u64>
    decreases n,
{
    if n == 0 {
        v
    } else {
        after_stop(after_spawn(cycled(v, id, (n - 1) as nat), id), id)
    }
}

/// Spawning and then stopping an id that is not registered, any number of
/// times: each spawn succeeds, each stop finds the worker to retire, and the
/// registry ends with the ids it started with.
pub proof fn lemma_repeated_round_trip(v: Set<u64>, id: u64, n: nat)
    requires
        !v.contains(id),
    ensures
        cycled(v, id, n) == v,
        forall|k: nat| k < n ==> spawn_accepts(#[trigger] cycled(v, id, k), id),
        forall|k: nat| k < n ==> stop_finds(after_spawn(#[trigger] cycled(v, id, k), id), id),
    decreases n,
{
    if n > 0 {
        lemma_repeated_round_trip(v, id, (n - 1) as nat);
        assert(after_stop(after_spawn(v, id), id) =~= v);
    }
}

/// After a stop of `id`, whatever it gave, `id` is no longer registered.
pub proof fn lemma_stopped_id_absent(v: Set<u64>, id: u64)
    ensures
        !after_stop(v, id).contains(id),
{
}

} // verus!
