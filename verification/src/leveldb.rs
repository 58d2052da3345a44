//! The persistent store actor: what is recovered from a scan of the store at
//! startup, and how the single writer works through its mailbox.

use crate::key::{decode_key, decoded, encode_key, is_corrupt, key_bytes};
use std::collections::HashMap;
use vstd::prelude::*;
use vstd::slice::slice_to_vec;

verus! {

/// Commands the actor's mailbox holds before a sender has to wait.
pub const MAILBOX_CAPACITY: usize = 8;

/// One record of the store as a value: its stored key and its value.
pub type Record = (Seq<u8>, Seq<u8>);

/// The records of a scan as values.
pub open spec fn record_views(records: Seq<(Vec<u8>, Vec<u8>)>) -> Seq<Record> {
    records.map_values(|record: (Vec<u8>, Vec<u8>)| (record.0@, record.1@))
}

/// A list of byte strings as values.
pub open spec fn byte_views(strings: Seq<Vec<u8>>) -> Seq<Seq<u8>> {
    strings.map_values(|string: Vec<u8>| string@)
}

/// The entries of a recovered map as values.
spec fn entry_views(entries: Map<u64, Vec<u8>>) -> Map<u64, Seq<u8>> {
    entries.map_values(|value: Vec<u8>| value@)
}

/// The cache entries that a scan yields: every record whose key can be decoded
/// contributes its value under the decoded key, a later record replacing an
/// earlier one with the same decoded key.
pub open spec fn recovered_entries(records: Seq<Record>) -> Map<u64, Seq<u8>>
    decreases records.len(),
{
    if records.len() == 0 {
        Map::empty()
    } else {
        let earlier = recovered_entries(records.drop_last());
        match decoded(records.last().0) {
            Some(key) => earlier.insert(key, records.last().1),
            None => earlier,
        }
    }
}

/// The stored keys of a scan that cannot be decoded, in scan order.
pub open spec fn corrupt_keys(records: Seq<Record>) -> Seq<Seq<u8>>
    decreases records.len(),
{
    if records.len() == 0 {
        Seq::empty()
    } else {
        let earlier = corrupt_keys(records.drop_last());
        if is_corrupt(records.last().0) {
            earlier.push(records.last().0)
        } else {
            earlier
        }
    }
}

/// A command in the actor's mailbox.
#[derive(Debug, PartialEq, Eq)]
pub enum PersistentStorageEvent {
    /// Make the entry durable.
    Put(u64, Vec<u8>),
    /// Drop the durable copy of an evicted entry.
    Delete(u64),
    /// Stop consuming commands and close the store.
    Exit,
}

/// A mailbox command as a value.
pub enum Command {
    Put(u64, Seq<u8>),
    Delete(u64),
    Exit,
}

impl View for PersistentStorageEvent {
    type V = Command;

    open spec fn view(&self) -> Command {
        match self {
            PersistentStorageEvent::Put(key, value) => Command::Put(*key, value@),
            PersistentStorageEvent::Delete(key) => Command::Delete(*key),
            PersistentStorageEvent::Exit => Command::Exit,
        }
    }
}

/// One write to the key-value engine, on stored keys.
#[derive(Debug, PartialEq, Eq)]
pub enum StoreOp {
    Put { key: Vec<u8>, value: Vec<u8> },
    Delete { key: Vec<u8> },
}

/// An engine write as a value.
pub enum Operation {
    Put { key: Seq<u8>, value: Seq<u8> },
    Delete { key: Seq<u8> },
}

impl View for StoreOp {
    type V = Operation;

    open spec fn view(&self) -> Operation {
        match self {
            StoreOp::Put { key, value } => Operation::Put { key: key@, value: value@ },
            StoreOp::Delete { key } => Operation::Delete { key: key@ },
        }
    }
}

/// The contents of the key-value engine: stored key to value.
pub type Store = Map<Seq<u8>, Seq<u8>>;

impl Operation {
    /// The store after the write: a put writes the pair, a delete removes the
    /// key.
    pub open spec fn effect(self, store: Store) -> Store {
        match self {
            Operation::Put { key, value } => store.insert(key, value),
            Operation::Delete { key } => store.remove(key),
        }
    }
}

/// The store after a sequence of writes, applied in order.
pub open spec fn effect_of_all(operations: Seq<Operation>, store: Store) -> Store
    decreases operations.len(),
{
    if operations.len() == 0 {
        store
    } else {
        operations.last().effect(effect_of_all(operations.drop_last(), store))
    }
}

impl Command {
    /// The engine write that carries the command out, on the big-endian layout
    /// of its key. The exit command writes nothing.
    pub open spec fn operation(self) -> Option<Operation> {
        match self {
            Command::Put(key, value) => Some(Operation::Put { key: key_bytes(key), value }),
            Command::Delete(key) => Some(Operation::Delete { key: key_bytes(key) }),
            Command::Exit => None,
        }
    }
}

/// The command that mirrors the eviction of a cache entry in the store.
pub fn eviction_command(key: u64) -> (command: PersistentStorageEvent)
    ensures
        command@ == Command::Delete(key),
{
    PersistentStorageEvent::Delete(key)
}

/// The command that makes a freshly cached entry durable.
pub fn persist_command(key: u64, content: &[u8]) -> (command: PersistentStorageEvent)
    ensures
        command@ == Command::Put(key, content@),
{
    PersistentStorageEvent::Put(key, slice_to_vec(content))
}

/// How the actor ended.
#[derive(Clone, Copy, Debug, PartialEq, Eq, Structural)]
pub enum ActorExit {
    /// The store was closed.
    Clean,
    /// A corrupt record could not be deleted at startup.
    PurgeFailed,
    /// Closing the store failed.
    CloseFailed,
}

/// What the actor hears back from the work it asked for.
#[derive(Debug, PartialEq, Eq)]
pub enum ActorEvent {
    /// The engine write was tried; `ok` is false when the engine refused it.
    Applied { ok: bool },
    /// The mailbox yielded a command, or `None` once every sender is gone.
    Received(Option<PersistentStorageEvent>),
    /// The failure of the last write was put on record.
    Reported,
    /// The store was closed; `ok` is false when closing failed.
    Closed { ok: bool },
}

/// An actor event as a value.
pub enum ActorInput {
    Applied { ok: bool },
    Received(Option<Command>),
    Reported,
    Closed { ok: bool },
}

impl View for ActorEvent {
    type V = ActorInput;

    open spec fn view(&self) -> ActorInput {
        match self {
            ActorEvent::Applied { ok } => ActorInput::Applied { ok: *ok },
            ActorEvent::Received(Some(command)) => ActorInput::Received(Some(command@)),
            ActorEvent::Received(None) => ActorInput::Received(None),
            ActorEvent::Reported => ActorInput::Reported,
            ActorEvent::Closed { ok } => ActorInput::Closed { ok: *ok },
        }
    }
}

/// The work the actor asks for next.
#[derive(Clone, Copy, Debug, PartialEq, Eq)]
pub enum ActorAction<'a> {
    /// Write the pair to the engine, then answer `Applied`.
    Put { key: &'a [u8], value: &'a [u8] },
    /// Delete the key from the engine, then answer `Applied`.
    Delete { key: &'a [u8] },
    /// Block on the mailbox, then answer `Received`.
    Receive,
    /// Put the failure of the last write on record, then answer `Reported`.
    Report,
    /// Close the store, then answer `Closed`.
    Close,
    /// Leave the actor's thread with this result.
    Finish(ActorExit),
}

/// An actor action as a value.
pub enum ActorOutput {
    Apply(Operation),
    Receive,
    Report,
    Close,
    Finish(ActorExit),
}

impl<'a> View for ActorAction<'a> {
    type V = ActorOutput;

    open spec fn view(&self) -> ActorOutput {
        match self {
            ActorAction::Put { key, value } => ActorOutput::Apply(
                Operation::Put { key: key@, value: value@ },
            ),
            ActorAction::Delete { key } => ActorOutput::Apply(Operation::Delete { key: key@ }),
            ActorAction::Receive => ActorOutput::Receive,
            ActorAction::Report => ActorOutput::Report,
            ActorAction::Close => ActorOutput::Close,
            ActorAction::Finish(exit) => ActorOutput::Finish(*exit),
        }
    }
}

/// What the actor is busy with.
pub enum ActorPhase {
    /// Deleting the corrupt records found at startup.
    Purging,
    /// Waiting for the next command.
    Receiving,
    /// Carrying out a command.
    Applying(Operation),
    /// Putting a failed command on record.
    Reporting,
    /// Closing the store.
    Closing,
    /// Done.
    Stopped(ActorExit),
}

/// The actor as a value.
pub struct ActorState {
    /// The corrupt stored keys found at startup, in scan order.
    pub purge: Seq<Seq<u8>>,
    /// How many of them have been deleted.
    pub purged: nat,
    pub phase: ActorPhase,
}

impl ActorState {
    /// The actor as it starts, with the corrupt keys it has to delete first.
    pub open spec fn start(purge: Seq<Seq<u8>>) -> ActorState {
        ActorState {
            purge,
            purged: 0,
            phase: if purge.len() == 0 {
                ActorPhase::Receiving
            } else {
                ActorPhase::Purging
            },
        }
    }

    /// While the purge lasts, a key is left to delete.
    pub open spec fn wf(self) -> bool {
        &&& self.purged <= self.purge.len()
        &&& self.phase is Purging ==> self.purged < self.purge.len()
    }

    /// The work the actor is waiting to hear back from.
    pub open spec fn pending(self) -> ActorOutput {
        match self.phase {
            ActorPhase::Purging => ActorOutput::Apply(
                Operation::Delete { key: self.purge[self.purged as int] },
            ),
            ActorPhase::Receiving => ActorOutput::Receive,
            ActorPhase::Applying(operation) => ActorOutput::Apply(operation),
            ActorPhase::Reporting => ActorOutput::Report,
            ActorPhase::Closing => ActorOutput::Close,
            ActorPhase::Stopped(exit) => ActorOutput::Finish(exit),
        }
    }

    /// The state after `input`.
    ///
    /// The purge deletes the corrupt keys one by one and ends the actor on the
    /// first failure. After it, commands are taken in arrival order: a put or a
    /// delete is applied, and a failure is put on record before the next command
    /// is taken; the exit command, or a mailbox without senders, leads to the
    /// close, whose result is the actor's. An input that does not answer the
    /// pending work changes nothing.
    pub open spec fn next(self, input: ActorInput) -> ActorState {
        match (self.phase, input) {
            (ActorPhase::Purging, ActorInput::Applied { ok }) => if !ok {
                ActorState { phase: ActorPhase::Stopped(ActorExit::PurgeFailed), ..self }
            } else if self.purged + 1 < self.purge.len() {
                ActorState { purged: self.purged + 1, ..self }
            } else {
                ActorState { purged: self.purged + 1, phase: ActorPhase::Receiving, ..self }
            },
            (ActorPhase::Receiving, ActorInput::Received(Some(command))) => match command.operation() {
                Some(operation) => ActorState { phase: ActorPhase::Applying(operation), ..self },
                None => ActorState { phase: ActorPhase::Closing, ..self },
            },
            (ActorPhase::Receiving, ActorInput::Received(None)) => ActorState {
                phase: ActorPhase::Closing,
                ..self
            },
            (ActorPhase::Applying(_), ActorInput::Applied { ok }) => if ok {
                ActorState { phase: ActorPhase::Receiving, ..self }
            } else {
                ActorState { phase: ActorPhase::Reporting, ..self }
            },
            (ActorPhase::Reporting, ActorInput::Reported) => ActorState {
                phase: ActorPhase::Receiving,
                ..self
            },
            (ActorPhase::Closing, ActorInput::Closed { ok }) => ActorState {
                phase: ActorPhase::Stopped(
                    if ok {
                        ActorExit::Clean
                    } else {
                        ActorExit::CloseFailed
                    },
                ),
                ..self
            },
            _ => self,
        }
    }

    /// The state after a whole sequence of inputs.
    pub open spec fn after(self, inputs: Seq<ActorInput>) -> ActorState
        decreases inputs.len(),
    {
        if inputs.len() == 0 {
            self
        } else {
            self.after(inputs.drop_last()).next(inputs.last())
        }
    }
}

#[derive(Clone, Copy, Debug, PartialEq, Eq, Structural)]
enum Stage {
    Purging,
    Receiving,
    Applying,
    Reporting,
    Closing,
    Stopped(ActorExit),
}

/// The persistent store actor: the single writer of the key-value engine.
///
/// It decides; its thread carries out. The thread performs `pending()`, reports
/// the result with `step`, and goes on until the pending work is `Finish`.
#[derive(Debug)]
pub struct LevelDB {
    purge: Vec<Vec<u8>>,
    purged: usize,
    stage: Stage,
    in_flight: Option<StoreOp>,
}

impl View for LevelDB {
    type V = ActorState;

    closed spec fn view(&self) -> ActorState {
        ActorState {
            purge: byte_views(self.purge@),
            purged: self.purged as nat,
            phase: match self.stage {
                Stage::Purging => ActorPhase::Purging,
                Stage::Receiving => ActorPhase::Receiving,
                Stage::Applying => ActorPhase::Applying(self.in_flight->0@),
                Stage::Reporting => ActorPhase::Reporting,
                Stage::Closing => ActorPhase::Closing,
                Stage::Stopped(exit) => ActorPhase::Stopped(exit),
            },
        }
    }
}

impl LevelDB {
    #[verifier::type_invariant]
    spec fn inv(self) -> bool {
        &&& self@.wf()
        &&& self.stage is Applying ==> self.in_flight is Some
    }

    /// Sorts the records of a scan of the store, in scan order, into the cache
    /// entries to start with and the actor that first deletes what is corrupt.
    pub fn run(records: Vec<(Vec<u8>, Vec<u8>)>) -> (started: (HashMap<u64, Vec<u8>>, LevelDB))
        ensures
            started.0@.dom() == recovered_entries(record_views(records@)).dom(),
            forall|key: u64| #[trigger]
                started.0@.contains_key(key) ==> started.0@[key]@ == recovered_entries(
                    record_views(records@),
                )[key],
            started.1@ == ActorState::start(corrupt_keys(record_views(records@))),
    {
        let (entries, purge) = recover(records);
        assert(entry_views(entries@).dom() =~= entries@.dom());
        let stage = if purge.len() == 0 {
            Stage::Receiving
        } else {
            Stage::Purging
        };
        (entries, LevelDB { purge, purged: 0, stage, in_flight: None })
    }

    /// The engine write that carries out a command: none for the exit command.
    pub fn handle_event(event: PersistentStorageEvent) -> (operation: Option<StoreOp>)
        ensures
            match operation {
                Some(write) => event@.operation() == Some(write@),
                None => event@.operation() is None,
            },
    {
        match event {
            PersistentStorageEvent::Put(key, value) => Some(
                StoreOp::Put { key: encode_key(key), value },
            ),
            PersistentStorageEvent::Delete(key) => Some(StoreOp::Delete { key: encode_key(key) }),
            PersistentStorageEvent::Exit => None,
        }
    }

    /// The work to carry out now.
    pub fn pending(&self) -> (action: ActorAction<'_>)
        ensures
            action@ == self@.pending(),
            self@.wf(),
    {
        proof {
            use_type_invariant(self);
        }
        match self.stage {
            Stage::Purging => ActorAction::Delete { key: self.purge[self.purged].as_slice() },
            Stage::Receiving => ActorAction::Receive,
            Stage::Applying => match &self.in_flight {
                Some(StoreOp::Put { key, value }) => ActorAction::Put {
                    key: key.as_slice(),
                    value: value.as_slice(),
                },
                Some(StoreOp::Delete { key }) => ActorAction::Delete { key: key.as_slice() },
                None => ActorAction::Receive,
            },
            Stage::Reporting => ActorAction::Report,
            Stage::Closing => ActorAction::Close,
            Stage::Stopped(exit) => ActorAction::Finish(exit),
        }
    }

    /// Whether the actor has ended.
    pub fn is_stopped(&self) -> (stopped: bool)
        ensures
            stopped == (self@.phase is Stopped),
    {
        match self.stage {
            Stage::Stopped(_) => true,
            _ => false,
        }
    }

    /// Takes the answer to the pending work and moves on.
    pub fn step(&mut self, event: ActorEvent)
        ensures
            final(self)@ == old(self)@.next(event@),
            final(self)@.wf(),
    {
        proof {
            use_type_invariant(&*self);
        }
        match (self.stage, event) {
            (Stage::Purging, ActorEvent::Applied { ok }) => {
                if !ok {
                    self.stage = Stage::Stopped(ActorExit::PurgeFailed);
                } else {
                    assert(byte_views(self.purge@).len() == self.purge.len());
                    if self.purged + 1 >= self.purge.len() {
                        self.stage = Stage::Receiving;
                    }
                    self.purged = self.purged + 1;
                }
            },
            (Stage::Receiving, ActorEvent::Received(Some(command))) => {
                match LevelDB::handle_event(command) {
                    Some(write) => {
                        self.in_flight = Some(write);
                        self.stage = Stage::Applying;
                    },
                    None => {
                        self.stage = Stage::Closing;
                    },
                }
            },
            (Stage::Receiving, ActorEvent::Received(None)) => {
                self.stage = Stage::Closing;
            },
            (Stage::Applying, ActorEvent::Applied { ok }) => {
                self.stage = if ok {
                    Stage::Receiving
                } else {
                    Stage::Reporting
                };
                self.in_flight = None;
            },
            (Stage::Reporting, ActorEvent::Reported) => {
                self.stage = Stage::Receiving;
            },
            (Stage::Closing, ActorEvent::Closed { ok }) => {
                self.stage = Stage::Stopped(
                    if ok {
                        ActorExit::Clean
                    } else {
                        ActorExit::CloseFailed
                    },
                );
            },
            _ => {},
        }
    }
}

/// Sorts the records of a scan into cache entries and keys to purge.
fn recover(records: Vec<(Vec<u8>, Vec<u8>)>) -> (found: (HashMap<u64, Vec<u8>>, Vec<Vec<u8>>))
    ensures
        entry_views(found.0@) == recovered_entries(record_views(records@)),
        byte_views(found.1@) == corrupt_keys(record_views(records@)),
{
    broadcast use vstd::std_specs::hash::group_hash_axioms;

    let ghost all = record_views(records@);
    let mut entries: HashMap<u64, Vec<u8>> = HashMap::new();
    let mut purge: Vec<Vec<u8>> = Vec::new();
    assert(all.take(0) =~= Seq::empty());
    assert(entry_views(entries@) =~= Map::empty());
    for record in it: records.into_iter()
        invariant
            all == record_views(records@),
            it.seq() == records@,
            entry_views(entries@) == recovered_entries(all.take(it.index() as int)),
            byte_views(purge@) == corrupt_keys(all.take(it.index() as int)),
    {
        let ghost seen = all.take(it.index() as int);
        let ghost upto = all.take(it.index() + 1);
        assert(upto.drop_last() =~= seen);
        assert(upto.last() == (record.0@, record.1@));
        let (key, value) = record;
        let ghost before = entries@;
        match decode_key(key.as_slice()) {
            Some(cache_key) => {
                entries.insert(cache_key, value);
                assert(entry_views(entries@) =~= entry_views(before).insert(cache_key, value@));
            },
            None => {
                let ghost purged = byte_views(purge@);
                purge.push(key);
                assert(byte_views(purge@) =~= purged.push(key@));
            },
        }
    }
    assert(all.take(all.len() as int) =~= all);
    (entries, purge)
}

/// Every record whose key can be decoded is recovered under its decoded key.
pub proof fn lemma_recovered_complete(records: Seq<Record>, i: int)
    requires
        0 <= i < records.len(),
        !is_corrupt(records[i].0),
    ensures
        decoded(records[i].0) is Some,
        recovered_entries(records).contains_key(decoded(records[i].0)->0),
    decreases records.len(),
{
    if i < records.len() - 1 {
        lemma_recovered_complete(records.drop_last(), i);
    }
}

/// Every recovered entry is the value of a record whose key decodes to the
/// entry's key, and of the last such record of the scan. A corrupt record is
/// never the source of an entry.
pub proof fn lemma_recovered_sound(records: Seq<Record>, key: u64) -> (i: int)
    requires
        recovered_entries(records).contains_key(key),
    ensures
        0 <= i < records.len(),
        !is_corrupt(records[i].0),
        decoded(records[i].0) == Some(key),
        recovered_entries(records)[key] == records[i].1,
        forall|j: int| i < j < records.len() ==> decoded(#[trigger] records[j].0) != Some(key),
    decreases records.len(),
{
    if decoded(records.last().0) == Some(key) {
        records.len() - 1
    } else {
        let earlier = records.drop_last();
        let i = lemma_recovered_sound(earlier, key);
        assert forall|j: int| i < j < records.len() implies decoded(#[trigger] records[j].0)
            != Some(key) by {
            if j < earlier.len() {
                assert(earlier[j] == records[j]);
            }
        }
        i
    }
}

/// The value recovered under a key is that of the last record whose key
/// decodes to it.
pub proof fn lemma_recovered_last_wins(records: Seq<Record>, i: int)
    requires
        0 <= i < records.len(),
        !is_corrupt(records[i].0),
        forall|j: int| i < j < records.len() ==> decoded(#[trigger] records[j].0) != decoded(records[i].0),
    ensures
        recovered_entries(records)[decoded(records[i].0)->0] == records[i].1,
    decreases records.len(),
{
    if i < records.len() - 1 {
        let earlier = records.drop_last();
        assert(decoded(records[records.len() - 1].0) != decoded(records[i].0));
        assert forall|j: int| i < j < earlier.len() implies decoded(#[trigger] earlier[j].0)
            != decoded(earlier[i].0) by {
            assert(earlier[j] == records[j]);
        }
        lemma_recovered_last_wins(earlier, i);
    }
}

/// The keys to purge are exactly the corrupt stored keys of the scan.
pub proof fn lemma_corrupt_keys_exact(records: Seq<Record>)
    ensures
        forall|i: int|
            0 <= i < records.len() && is_corrupt(#[trigger] records[i].0) ==> corrupt_keys(
                records,
            ).contains(records[i].0),
        forall|k: int|
            0 <= k < corrupt_keys(records).len() ==> is_corrupt(#[trigger] corrupt_keys(records)[k])
                && exists|i: int| 0 <= i < records.len() && #[trigger] records[i].0 == corrupt_keys(records)[k],
    decreases records.len(),
{
    if records.len() > 0 {
        let earlier = records.drop_last();
        let last = records.len() - 1;
        lemma_corrupt_keys_exact(earlier);
        let purge = corrupt_keys(records);
        let before = corrupt_keys(earlier);
        assert forall|i: int| 0 <= i < records.len() && is_corrupt(#[trigger] records[i].0) implies purge.contains(
            records[i].0,
        ) by {
            if i < last {
                assert(earlier[i] == records[i]);
                let k = choose|k: int| 0 <= k < before.len() && before[k] == earlier[i].0;
                assert(purge[k] == records[i].0);
            } else {
                assert(purge[purge.len() - 1] == records[i].0);
            }
        }
        assert forall|k: int| 0 <= k < purge.len() implies is_corrupt(#[trigger] purge[k]) && exists|i: int|
            0 <= i < records.len() && #[trigger] records[i].0 == purge[k] by {
            if k < before.len() {
                assert(purge[k] == before[k]);
                let i = choose|i: int| 0 <= i < earlier.len() && #[trigger] earlier[i].0 == before[k];
                assert(records[i].0 == purge[k]);
            } else {
                assert(records[last].0 == purge[k]);
            }
        }
    }
}

/// The actor starts well formed and stays so.
pub proof fn lemma_actor_wf(purge: Seq<Seq<u8>>, state: ActorState, input: ActorInput)
    requires
        state.wf(),
    ensures
        ActorState::start(purge).wf(),
        state.next(input).wf(),
{
}

/// `count` successful engine writes in a row.
pub open spec fn successes(count: nat) -> Seq<ActorInput> {
    Seq::new(count, |i: int| ActorInput::Applied { ok: true })
}

/// The deletes that remove the given stored keys, in order.
pub open spec fn deletes_of(keys: Seq<Seq<u8>>) -> Seq<Operation> {
    keys.map_values(|key: Seq<u8>| Operation::Delete { key })
}

/// The purge comes first. While the engine carries out every delete, the actor
/// asks for the deletion of the corrupt keys one by one, in scan order, and
/// turns to its mailbox only when all are deleted.
pub proof fn lemma_purge_comes_first(purge: Seq<Seq<u8>>, done: nat)
    requires
        done <= purge.len(),
    ensures
        ActorState::start(purge).after(successes(done)).wf(),
        ActorState::start(purge).after(successes(done)).purge == purge,
        ActorState::start(purge).after(successes(done)).purged == done,
        ActorState::start(purge).after(successes(done)).pending() == if done < purge.len() {
            ActorOutput::Apply(Operation::Delete { key: purge[done as int] })
        } else {
            ActorOutput::Receive
        },
    decreases done,
{
    if done > 0 {
        let earlier = (done - 1) as nat;
        lemma_purge_comes_first(purge, earlier);
        assert(successes(done).drop_last() =~= successes(earlier));
        assert(successes(done).last() == ActorInput::Applied { ok: true });
    }
}

/// A failed delete during the purge ends the actor; no command is ever taken.
pub proof fn lemma_purge_failure_is_fatal(state: ActorState)
    requires
        state.phase is Purging,
    ensures
        state.next(ActorInput::Applied { ok: false }).pending() == ActorOutput::Finish(
            ActorExit::PurgeFailed,
        ),
{
}

/// The deletes of the purge leave no corrupt key in the store and touch no
/// other record.
pub proof fn lemma_purge_clears_corrupt(store: Store, records: Seq<Record>)
    requires
        forall|key: Seq<u8>| #[trigger]
            store.contains_key(key) ==> exists|i: int|
                0 <= i < records.len() && #[trigger] records[i].0 == key,
    ensures
        forall|key: Seq<u8>| #[trigger]
            effect_of_all(deletes_of(corrupt_keys(records)), store).contains_key(key) ==> !is_corrupt(key),
        forall|key: Seq<u8>|
            !is_corrupt(key) ==> (#[trigger] effect_of_all(
                deletes_of(corrupt_keys(records)),
                store,
            ).contains_key(key) <==> store.contains_key(key)),
        forall|key: Seq<u8>|
            !is_corrupt(key) && store.contains_key(key) ==> #[trigger] effect_of_all(
                deletes_of(corrupt_keys(records)),
                store,
            )[key] == store[key],
{
    lemma_corrupt_keys_exact(records);
    let purge = corrupt_keys(records);
    lemma_deletes_remove(purge, store);
    let cleared = effect_of_all(deletes_of(purge), store);
    assert forall|key: Seq<u8>| #[trigger] cleared.contains_key(key) implies !is_corrupt(key) by {
        if is_corrupt(key) {
            let i = choose|i: int| 0 <= i < records.len() && #[trigger] records[i].0 == key;
            assert(purge.contains(records[i].0));
        }
    }
}

/// Deleting a list of keys removes exactly those keys.
pub proof fn lemma_deletes_remove(keys: Seq<Seq<u8>>, store: Store)
    ensures
        forall|key: Seq<u8>| #[trigger]
            effect_of_all(deletes_of(keys), store).contains_key(key) <==> store.contains_key(key)
                && !keys.contains(key),
        forall|key: Seq<u8>|
            store.contains_key(key) && !keys.contains(key) ==> #[trigger] effect_of_all(
                deletes_of(keys),
                store,
            )[key] == store[key],
    decreases keys.len(),
{
    if keys.len() > 0 {
        let earlier = keys.drop_last();
        lemma_deletes_remove(earlier, store);
        assert(deletes_of(keys).drop_last() =~= deletes_of(earlier));
        assert(deletes_of(keys).last() == Operation::Delete { key: keys.last() });
        let cleared = effect_of_all(deletes_of(keys), store);
        let before = effect_of_all(deletes_of(earlier), store);
        assert(cleared == before.remove(keys.last()));
        assert forall|key: Seq<u8>| #[trigger] keys.contains(key) <==> earlier.contains(key) || key
            == keys.last() by {
            if keys.contains(key) {
                let k = choose|k: int| 0 <= k < keys.len() && keys[k] == key;
                if k < keys.len() - 1 {
                    assert(earlier[k] == key);
                }
            }
            if earlier.contains(key) {
                let k = choose|k: int| 0 <= k < earlier.len() && earlier[k] == key;
                assert(keys[k] == key);
            }
            if key == keys.last() {
                assert(keys[keys.len() - 1] == key);
            }
        }
        assert forall|key: Seq<u8>| #[trigger]
            cleared.contains_key(key) <==> store.contains_key(key) && !keys.contains(key) by {
            assert(keys.contains(key) <==> earlier.contains(key) || key == keys.last());
        }
        assert forall|key: Seq<u8>| store.contains_key(key) && !keys.contains(key) implies #[trigger] cleared[key]
            == store[key] by {
            assert(keys.contains(key) <==> earlier.contains(key) || key == keys.last());
        }
    } else {
        assert forall|key: Seq<u8>| !keys.contains(key) by {
            if keys.contains(key) {
                let k = choose|k: int| 0 <= k < keys.len() && keys[k] == key;
            }
        }
    }
}

/// A failed put or delete is put on record and the next command is taken: it
/// never ends the actor.
pub proof fn lemma_failed_write_is_survived(state: ActorState)
    requires
        state.phase is Applying,
    ensures
        state.next(ActorInput::Applied { ok: false }).pending() == ActorOutput::Report,
        state.next(ActorInput::Applied { ok: false }).next(ActorInput::Reported).pending()
            == ActorOutput::Receive,
        state.next(ActorInput::Applied { ok: true }).pending() == ActorOutput::Receive,
{
}

/// A command taken from the mailbox is carried out before the next is taken:
/// a put or a delete as the engine write on the big-endian layout of its key,
/// the exit command as the close of the store.
pub proof fn lemma_command_is_applied(state: ActorState, command: Command)
    requires
        state.phase is Receiving,
    ensures
        state.next(ActorInput::Received(Some(command))).pending() == match command {
            Command::Put(key, value) => ActorOutput::Apply(
                Operation::Put { key: key_bytes(key), value },
            ),
            Command::Delete(key) => ActorOutput::Apply(Operation::Delete { key: key_bytes(key) }),
            Command::Exit => ActorOutput::Close,
        },
        state.next(ActorInput::Received(None)).pending() == ActorOutput::Close,
{
}

/// What the actor hears while it serves `commands` and the engine carries out
/// every write: each command as it is received, then the success of its write.
pub open spec fn serving(commands: Seq<Command>) -> Seq<ActorInput>
    decreases commands.len(),
{
    if commands.len() == 0 {
        Seq::empty()
    } else {
        serving(commands.drop_last()).push(ActorInput::Received(Some(commands.last()))).push(
            ActorInput::Applied { ok: true },
        )
    }
}

/// Commands are applied in arrival order, one at a time: when the commands
/// before the `k`-th are served the actor is back at its mailbox, and as it
/// receives the `k`-th it asks for that command's write and for nothing else.
pub proof fn lemma_commands_in_order(state: ActorState, commands: Seq<Command>, k: int)
    requires
        state.phase is Receiving,
        forall|i: int| 0 <= i < commands.len() ==> !(#[trigger] commands[i] is Exit),
        0 <= k < commands.len(),
    ensures
        state.after(serving(commands.take(k))).pending() == ActorOutput::Receive,
        commands[k].operation() is Some,
        state.after(
            serving(commands.take(k)).push(ActorInput::Received(Some(commands[k]))),
        ).pending() == ActorOutput::Apply(commands[k].operation()->0),
        state.after(serving(commands.take(k + 1))).pending() == ActorOutput::Receive,
    decreases k,
{
    let before = commands.take(k);
    let upto = commands.take(k + 1);
    if k > 0 {
        lemma_commands_in_order(state, commands, k - 1);
    } else {
        assert(serving(before) =~= Seq::empty());
    }
    let received = serving(before).push(ActorInput::Received(Some(commands[k])));
    assert(received.drop_last() =~= serving(before));
    assert(upto.drop_last() =~= before);
    assert(upto.last() == commands[k]);
    assert(serving(upto).drop_last() =~= received);
}

/// Once the actor has turned to closing the store it takes no further command
/// and asks for no further write, whatever it is told.
pub proof fn lemma_exit_ends_consumption(state: ActorState, inputs: Seq<ActorInput>)
    requires
        state.phase is Closing || state.phase is Stopped,
    ensures
        state.after(inputs).phase is Closing || state.after(inputs).phase is Stopped,
        !(state.after(inputs).pending() is Apply),
        !(state.after(inputs).pending() is Receive),
    decreases inputs.len(),
{
    if inputs.len() > 0 {
        lemma_exit_ends_consumption(state, inputs.drop_last());
    }
}

/// The result of the close is the result of the actor.
pub proof fn lemma_close_decides_exit(state: ActorState, ok: bool)
    requires
        state.phase is Closing,
    ensures
        state.next(ActorInput::Closed { ok }).pending() == ActorOutput::Finish(
            if ok {
                ActorExit::Clean
            } else {
                ActorExit::CloseFailed
            },
        ),
{
}

/// `records` is what a scan of `store` yields: every stored pair once.
pub open spec fn scans(records: Seq<Record>, store: Store) -> bool {
    &&& forall|i: int|
        0 <= i < records.len() ==> store.contains_key(#[trigger] records[i].0) && store[records[i].0]
            == records[i].1
    &&& forall|key: Seq<u8>| #[trigger]
        store.contains_key(key) ==> exists|i: int| 0 <= i < records.len() && #[trigger] records[i].0 == key
    &&& forall|i: int, j: int|
        0 <= i < j < records.len() ==> #[trigger] records[i].0 != #[trigger] records[j].0
}

/// What was put under a key is recovered under it after a restart, byte for
/// byte, provided the store holds no other key that decodes to the same key
/// (a longer stored key with the same first eight bytes would).
pub proof fn lemma_durable_round_trip(store: Store, key: u64, value: Seq<u8>, records: Seq<Record>)
    requires
        scans(records, (Operation::Put { key: key_bytes(key), value }).effect(store)),
        forall|other: Seq<u8>|
            store.contains_key(other) && other != key_bytes(key) ==> #[trigger] decoded(other) != Some(key),
    ensures
        recovered_entries(records).contains_key(key),
        recovered_entries(records)[key] == value,
{
    let stored = key_bytes(key);
    let written = (Operation::Put { key: stored, value }).effect(store);
    crate::key::lemma_decode_encode(key);
    assert(written.contains_key(stored));
    let i = choose|i: int| 0 <= i < records.len() && #[trigger] records[i].0 == stored;
    assert forall|j: int| i < j < records.len() implies decoded(#[trigger] records[j].0) != decoded(
        records[i].0,
    ) by {
        assert(written.contains_key(records[j].0));
        assert(records[i].0 != records[j].0);
    }
    lemma_recovered_last_wins(records, i);
    lemma_recovered_complete(records, i);
}

/// Every stored pair whose key can be decoded, and whose decoded key no other
/// stored key shares, is recovered with its value.
pub proof fn lemma_recovery_complete(store: Store, records: Seq<Record>, stored: Seq<u8>)
    requires
        scans(records, store),
        store.contains_key(stored),
        !is_corrupt(stored),
    ensures
        recovered_entries(records).contains_key(decoded(stored)->0),
        (forall|other: Seq<u8>|
            store.contains_key(other) && other != stored ==> #[trigger] decoded(other) != decoded(stored))
            ==> recovered_entries(records)[decoded(stored)->0] == store[stored],
{
    let i = choose|i: int| 0 <= i < records.len() && #[trigger] records[i].0 == stored;
    lemma_recovered_complete(records, i);
    if forall|other: Seq<u8>|
        store.contains_key(other) && other != stored ==> #[trigger] decoded(other) != decoded(stored) {
        assert forall|j: int| i < j < records.len() implies decoded(#[trigger] records[j].0)
            != decoded(records[i].0) by {
            assert(store.contains_key(records[j].0));
            assert(records[i].0 != records[j].0);
        }
        lemma_recovered_last_wins(records, i);
    }
}

} // verus!
