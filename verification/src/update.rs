//! Applying a request to the store.
//!
//! A request is read in full before the store is touched. The store is
//! then changed by one whole-record swap, or, where the request is turned
//! down, not at all.

use crate::config::{ConfigStore, Durations, TimerConfig};
use crate::request::{
    lemma_parsed_is_valid, parse_update, parsed, strip_padding, unpadded, UpdateError,
};
use vstd::prelude::*;

verus! {

/// What a store that held `held` holds once `body` was submitted to it.
pub open spec fn submitted(held: Durations, body: Seq<u8>) -> Durations {
    match parsed(body) {
        Ok(asked) => asked,
        Err(_) => held,
    }
}

/// The line shown to the operator after a request: one text for a request
/// that was applied, one for a request that was turned down.
pub open spec fn status_text(accepted: bool) -> Seq<char> {
    if accepted {
        "timer values updated"@
    } else {
        "Invalid timer values!"@
    }
}

/// Applies a request to the store: the store takes the configuration asked
/// for where the request is well formed, and is left as it was where it is
/// not.
pub fn submit(store: &mut ConfigStore, body: &[u8]) -> (r: Result<TimerConfig, UpdateError>)
    ensures
        match r {
            Ok(config) => parsed(body@) == Ok::<Durations, UpdateError>(config@),
            Err(e) => parsed(body@) == Err::<Durations, UpdateError>(e),
        },
        final(store)@ == submitted(old(store)@, body@),
        r is Err ==> final(store)@ == old(store)@,
{
    match parse_update(body) {
        Ok(config) => {
            store.replace(config);
            Ok(config)
        },
        Err(e) => Err(e),
    }
}

/// The line to show for the outcome of a request.
pub fn status_message(outcome: &Result<TimerConfig, UpdateError>) -> (message: &'static str)
    ensures
        message@ == status_text(outcome is Ok),
{
    match outcome {
        Ok(_) => "timer values updated",
        Err(_) => "Invalid timer values!",
    }
}

/// Serves one request as it lies in its buffer: strips the padding,
/// applies the request to the store and gives the line to show.
pub fn handle_update(store: &mut ConfigStore, buffer: &[u8]) -> (message: &'static str)
    ensures
        final(store)@ == submitted(old(store)@, unpadded(buffer@)),
        message@ == status_text(parsed(unpadded(buffer@)) is Ok),
{
    let body: &[u8] = strip_padding(buffer);
    let outcome: Result<TimerConfig, UpdateError> = submit(store, body);
    status_message(&outcome)
}

/// No request can bring a zero length into a store: a store that holds
/// valid durations holds valid durations after any request.
pub proof fn lemma_submit_keeps_store_valid(held: Durations, body: Seq<u8>)
    requires
        held.valid(),
    ensures
        submitted(held, body).valid(),
{
    lemma_parsed_is_valid(body);
}

/// Submitting a request a second time changes nothing: the store holds
/// after the second time what it held after the first. And what a
/// well-formed request leaves in a store does not depend on what the store
/// held before.
pub proof fn lemma_submit_is_idempotent(held: Durations, other: Durations, body: Seq<u8>)
    ensures
        submitted(submitted(held, body), body) == submitted(held, body),
        parsed(body) is Ok ==> submitted(held, body) == submitted(other, body),
{
}

/// A request that is turned down leaves the store as it was.
pub proof fn lemma_rejection_keeps_store(held: Durations, body: Seq<u8>)
    ensures
        parsed(body) is Err ==> submitted(held, body) == held,
{
}

} // verus!
