//! What the cache and the store owe each other across a restart.

use crate::http::{RequestState, Served, World};
use crate::key::{decoded, is_corrupt, key_bytes};
use crate::leveldb::{
    corrupt_keys, deletes_of, effect_of_all, lemma_durable_round_trip, lemma_purge_clears_corrupt,
    lemma_purge_comes_first, lemma_recovered_sound, lemma_recovery_complete, recovered_entries,
    scans, successes, ActorOutput, ActorState, Command, Operation, Record, Store,
};
use crate::types::Response;
use vstd::prelude::*;

verus! {

/// The world a freshly started process serves its first request in: the cache
/// holds what was recovered from the scan, nothing was fetched yet and no
/// command was sent.
pub open spec fn world_after_recovery(
    records: Seq<Record>,
    upstream: spec_fn(Seq<char>, Seq<u8>) -> Result<Seq<u8>, Seq<char>>,
) -> World {
    World { cache: recovered_entries(records), upstream, fetches: 0, commands: Seq::empty() }
}

/// Every record of the store whose key can be decoded is served as a hit to
/// the first request for its key, before anything is fetched for it. The hit
/// carries the record's own value unless another stored key decodes to the
/// same key.
pub proof fn lemma_recovered_record_is_hit(
    store: Store,
    records: Seq<Record>,
    stored: Seq<u8>,
    url: Seq<char>,
    body: Seq<u8>,
    upstream: spec_fn(Seq<char>, Seq<u8>) -> Result<Seq<u8>, Seq<char>>,
)
    requires
        scans(records, store),
        store.contains_key(stored),
        !is_corrupt(stored),
    ensures
        RequestState::accepted(decoded(stored)->0, url, body, false).serve(
            world_after_recovery(records, upstream),
        ) == (Served {
            response: Response::hit(recovered_entries(records)[decoded(stored)->0]),
            world: world_after_recovery(records, upstream),
        }),
        (forall|other: Seq<u8>|
            store.contains_key(other) && other != stored ==> #[trigger] decoded(other) != decoded(
                stored,
            )) ==> recovered_entries(records)[decoded(stored)->0] == store[stored],
{
    lemma_recovery_complete(store, records, stored);
    crate::http::lemma_hit_is_served_from_cache(
        decoded(stored)->0,
        url,
        body,
        world_after_recovery(records, upstream),
    );
}

/// A record whose stored key is too short to decode is never served: whatever
/// the cache holds after recovery stems from a record with a key of full
/// width. And it does not outlast the startup: the first work the actor asks
/// for, before it takes any command, is the deletion of each such record, after
/// which the store holds none of them and every other record as before.
pub proof fn lemma_corrupt_record_is_purged(store: Store, records: Seq<Record>, done: nat)
    requires
        scans(records, store),
        done <= corrupt_keys(records).len(),
    ensures
        forall|key: u64| #[trigger]
            recovered_entries(records).contains_key(key) ==> exists|i: int|
                0 <= i < records.len() && !is_corrupt(#[trigger] records[i].0) && decoded(
                    records[i].0,
                ) == Some(key) && recovered_entries(records)[key] == records[i].1,
        ActorState::start(corrupt_keys(records)).after(successes(done)).pending() == if done
            < corrupt_keys(records).len() {
            ActorOutput::Apply(deletes_of(corrupt_keys(records))[done as int])
        } else {
            ActorOutput::Receive
        },
        forall|stored: Seq<u8>| #[trigger]
            effect_of_all(deletes_of(corrupt_keys(records)), store).contains_key(stored)
                <==> store.contains_key(stored) && !is_corrupt(stored),
        forall|stored: Seq<u8>|
            store.contains_key(stored) && !is_corrupt(stored) ==> #[trigger] effect_of_all(
                deletes_of(corrupt_keys(records)),
                store,
            )[stored] == store[stored],
{
    assert forall|key: u64| #[trigger] recovered_entries(records).contains_key(key) implies exists|
        i: int,
    |
        0 <= i < records.len() && !is_corrupt(#[trigger] records[i].0) && decoded(records[i].0)
            == Some(key) && recovered_entries(records)[key] == records[i].1 by {
        let i = lemma_recovered_sound(records, key);
        assert(!is_corrupt(records[i].0));
    }
    lemma_purge_comes_first(corrupt_keys(records), done);
    lemma_purge_clears_corrupt(store, records);
}

/// What a request stored survives a restart. The put command of a fetched
/// payload, once the actor has applied it, leaves a record from which the next
/// process recovers the payload under the same key, and serves it as a hit,
/// byte for byte, without asking the upstream again. This holds of every store
/// that has no other key that decodes to the same key.
pub proof fn lemma_restart_round_trip(
    store: Store,
    key: u64,
    content: Seq<u8>,
    records: Seq<Record>,
    url: Seq<char>,
    body: Seq<u8>,
    upstream: spec_fn(Seq<char>, Seq<u8>) -> Result<Seq<u8>, Seq<char>>,
)
    requires
        Command::Put(key, content).operation() is Some,
        scans(records, Command::Put(key, content).operation()->0.effect(store)),
        forall|other: Seq<u8>|
            store.contains_key(other) && other != key_bytes(key) ==> #[trigger] decoded(other)
                != Some(key),
    ensures
        RequestState::accepted(key, url, body, false).serve(
            world_after_recovery(records, upstream),
        ) == (Served {
            response: Response::hit(content),
            world: world_after_recovery(records, upstream),
        }),
{
    lemma_durable_round_trip(store, key, content, records);
    crate::http::lemma_hit_is_served_from_cache(
        key,
        url,
        body,
        world_after_recovery(records, upstream),
    );
}

/// What was evicted does not come back. The delete command of an evicted
/// entry, once the actor has applied it, leaves a store from which the next
/// process recovers nothing under that key, provided no other stored key
/// decodes to it.
pub proof fn lemma_evicted_is_not_recovered(store: Store, key: u64, records: Seq<Record>)
    requires
        Command::Delete(key).operation() is Some,
        scans(records, Command::Delete(key).operation()->0.effect(store)),
        forall|other: Seq<u8>|
            store.contains_key(other) && other != key_bytes(key) ==> #[trigger] decoded(other)
                != Some(key),
    ensures
        !recovered_entries(records).contains_key(key),
{
    if recovered_entries(records).contains_key(key) {
        let i = lemma_recovered_sound(records, key);
        let left = (Operation::Delete { key: key_bytes(key) }).effect(store);
        assert(left.contains_key(records[i].0));
        assert(store.contains_key(records[i].0));
        assert(records[i].0 != key_bytes(key));
    }
}

} // verus!
