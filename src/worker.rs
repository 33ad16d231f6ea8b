//! One pass of a search worker: look at the stop signal, and unless it is
//! set, generate a candidate and test it against the pattern.
//!
//! A worker runs these passes in a loop until one of them ends it; the loop
//! itself, and the thread it runs on, belong to the caller.
use vstd::prelude::*;
use std::sync::atomic::{AtomicBool, AtomicU64, Ordering};
use crate::keys::{address_of_public_key, generate_key_address, is_candidate_of, is_well_formed, Candidate};
use crate::pattern::starts_with;

verus! {

/// What one pass of a worker came to.
pub enum WorkerStep {
    /// The stop signal was set: the worker ends without a result.
    Stopped,
    /// The candidate matched: the worker ends and hands it on.
    Found(Candidate),
    /// The candidate did not match: the worker goes on.
    Continue,
}

/// One pass of the worker loop, once the stop signal has been read as
/// `stop_requested`. A stopped worker generates nothing; otherwise exactly one
/// candidate is generated and tested.
pub fn worker_step(stop_requested: bool, rng: &mut rand::rngs::ThreadRng, pattern: &str) -> (r: WorkerStep)
    ensures
        stop_requested <==> r is Stopped,
        r matches WorkerStep::Found(c) ==> {
            &&& starts_with(c.address@, pattern@)
            &&& is_well_formed(c)
            &&& exists|sk: Seq<u8>, pk: Seq<u8>| is_candidate_of(c, sk, pk)
        },
        r is Continue ==> exists|pk: Seq<u8>|
            pk.len() == 65 && !starts_with(#[trigger] address_of_public_key(pk), pattern@),
        !stop_requested && pattern@.len() == 0 ==> r is Found,
{
    if stop_requested {
        return WorkerStep::Stopped;
    }
    let candidate = generate_key_address(rng);
    if crate::pattern::matches(candidate.address.as_str(), pattern) {
        WorkerStep::Found(candidate)
    } else {
        proof {
            let (sk, pk) = choose|sk: Seq<u8>, pk: Seq<u8>| is_candidate_of(candidate, sk, pk);
            assert(pk.len() == 65 && !starts_with(address_of_public_key(pk), pattern@));
            assert(pattern@.len() != 0) by {
                if pattern@.len() == 0 {
                    assert(pattern@ =~= candidate.address@.subrange(0, 0));
                }
            }
        }
        WorkerStep::Continue
    }
}

/// One pass of a worker sharing the stop signal `found` and the attempt
/// counter `processed` with the others: reads the signal, takes one step, and
/// counts the attempt when the candidate did not match.
pub fn worker_iteration(
    found: &AtomicBool,
    processed: &AtomicU64,
    rng: &mut rand::rngs::ThreadRng,
    pattern: &str,
) -> (r: WorkerStep)
    ensures
        r matches WorkerStep::Found(c) ==> starts_with(c.address@, pattern@) && is_well_formed(c),
        pattern@.len() == 0 ==> !(r is Continue),
{
    let stop_requested = found.load(Ordering::Relaxed);
    let r = worker_step(stop_requested, rng, pattern);
    if let WorkerStep::Continue = r {
        processed.fetch_add(1, Ordering::Relaxed);
    }
    r
}

} // verus!
