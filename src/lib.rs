//! A keyed registry of long-running worker threads.
//!
//! Each worker is started by a caller-supplied factory, which receives the
//! worker's id, a copy of the registry's shared state and the receiving end of
//! a shutdown channel. Stopping a worker sends the shutdown signal and then
//! waits for its thread to finish. The registry keeps one worker per id.
//!
//! The table is mutated under exclusive access (`&mut self`): all spawns and
//! stops are totally ordered, which is what lets their effect on the table be
//! stated and proved.

mod error;
mod laws;
mod pool;
mod signal;
mod worker;

pub use error::{decimal, digit_char, errors_in, failures_of, Error, Result};
pub use worker::{retirement_result, Join};
pub use laws::{
    cycled, lemma_distinct_spawns_all_present, lemma_distinct_spawns_listed, lemma_repeated_round_trip,
    lemma_second_spawn_refused, lemma_stopped_id_absent, spawned_all,
};
pub use pool::{
    after_spawn, after_stop, retired_ids, retired_results, spawn_accepts, stop_finds, ThreadPool,
};
