//! Received messages, kept in memory.
//!
//! A message is recorded once, and each step of its reception is taken at most
//! once: a step names the phase that it starts from.
use std::collections::HashMap;
use vstd::prelude::*;

use crate::ids::MessageId;
use crate::model::TextEnvelope;

verus! {

/// How far the reception of a message has come.
#[derive(Debug, Clone, Copy, PartialEq, Eq, Structural)]
pub enum ReceivePhase {
    Recorded,
    Applying,
    Applied,
    ClipboardFailed,
    UncertainNoReplay,
}

/// The state of a received message.
#[derive(Debug, Clone, Copy, PartialEq, Eq, Structural)]
pub struct ReceiveState {
    pub phase: ReceivePhase,
}

impl ReceiveState {
    /// The state of a message that was just recorded.
    #[must_use]
    pub fn recorded() -> (r: Self)
        ensures
            r.phase is Recorded,
    {
        ReceiveState { phase: ReceivePhase::Recorded }
    }
}

/// A received message; `S` is the type of its text.
#[derive(Debug)]
pub struct ReceiveRecord<S = String> {
    pub envelope: TextEnvelope<S>,
    pub state: ReceiveState,
    pub first_seen_unix_ms: u64,
    pub updated_at_unix_ms: u64,
}

impl View for ReceiveRecord<String> {
    type V = ReceiveRecord<Seq<char>>;

    open spec fn view(&self) -> ReceiveRecord<Seq<char>> {
        ReceiveRecord {
            envelope: self.envelope@,
            state: self.state,
            first_seen_unix_ms: self.first_seen_unix_ms,
            updated_at_unix_ms: self.updated_at_unix_ms,
        }
    }
}

impl Clone for ReceiveRecord<String> {
    fn clone(&self) -> (r: Self)
        ensures
            r@ == self@,
    {
        ReceiveRecord {
            envelope: self.envelope.clone(),
            state: self.state,
            first_seen_unix_ms: self.first_seen_unix_ms,
            updated_at_unix_ms: self.updated_at_unix_ms,
        }
    }
}

/// What became of a step; `S` is the type of the texts.
#[derive(Debug)]
pub enum TransitionOutcome<S = String> {
    Missing,
    Mismatch(ReceiveRecord<S>),
    Changed(ReceiveRecord<S>),
}

impl View for TransitionOutcome<String> {
    type V = TransitionOutcome<Seq<char>>;

    open spec fn view(&self) -> TransitionOutcome<Seq<char>> {
        match *self {
            TransitionOutcome::Missing => TransitionOutcome::Missing,
            TransitionOutcome::Mismatch(record) => TransitionOutcome::Mismatch(record@),
            TransitionOutcome::Changed(record) => TransitionOutcome::Changed(record@),
        }
    }
}

/// The records by message.
pub type Records = Map<u128, ReceiveRecord<Seq<char>>>;

/// The record of a message that was just seen.
pub open spec fn first_record(envelope: TextEnvelope<Seq<char>>, now: u64) -> ReceiveRecord<
    Seq<char>,
> {
    ReceiveRecord {
        envelope,
        state: ReceiveState { phase: ReceivePhase::Recorded },
        first_seen_unix_ms: now,
        updated_at_unix_ms: now,
    }
}

/// The records after a message was seen; one that is known stays as it is.
pub open spec fn seen(
    records: Records,
    envelope: TextEnvelope<Seq<char>>,
    now: u64,
) -> Records {
    if records.dom().contains(envelope.message_id.0) {
        records
    } else {
        records.insert(envelope.message_id.0, first_record(envelope, now))
    }
}

/// What a step comes to.
pub open spec fn step_outcome(
    records: Records,
    message: MessageId,
    expected: ReceivePhase,
    next: ReceiveState,
    now: u64,
) -> TransitionOutcome<Seq<char>> {
    if !records.dom().contains(message.0) {
        TransitionOutcome::Missing
    } else {
        let record = records[message.0];
        if record.state.phase != expected {
            TransitionOutcome::Mismatch(record)
        } else {
            TransitionOutcome::Changed(
                ReceiveRecord { state: next, updated_at_unix_ms: now, ..record },
            )
        }
    }
}

/// The records after a step.
pub open spec fn stepped(
    records: Records,
    message: MessageId,
    expected: ReceivePhase,
    next: ReceiveState,
    now: u64,
) -> Records {
    match step_outcome(records, message, expected, next, now) {
        TransitionOutcome::Changed(record) => records.insert(message.0, record),
        _ => records,
    }
}

/// Received messages, kept in memory.
#[derive(Debug)]
pub struct MemoryReceiveStore {
    records: HashMap<u128, ReceiveRecord>,
}

impl View for MemoryReceiveStore {
    type V = Records;

    closed spec fn view(&self) -> Records {
        self.records@.map_values(|record: ReceiveRecord| record@)
    }
}

impl MemoryReceiveStore {
    #[must_use]
    pub fn new() -> (r: Self)
        ensures
            r@ == Records::empty(),
    {
        let r = MemoryReceiveStore { records: HashMap::new() };
        assert(r@ =~= Records::empty());
        r
    }

    /// Records a message, unless it is known, and gives its record.
    pub fn record_if_absent(&mut self, envelope: &TextEnvelope, now_unix_ms: u64) -> (r:
        ReceiveRecord)
        ensures
            final(self)@ == seen(old(self)@, envelope@, now_unix_ms),
            r@ == final(self)@[envelope.message_id.0],
    {
        broadcast use vstd::std_specs::hash::group_hash_axioms;

        if let Some(record) = self.records.get(&envelope.message_id.0) {
            return record.clone();
        }
        let record = ReceiveRecord {
            envelope: envelope.clone(),
            state: ReceiveState::recorded(),
            first_seen_unix_ms: now_unix_ms,
            updated_at_unix_ms: now_unix_ms,
        };
        let copy = record.clone();
        self.records.insert(envelope.message_id.0, record);
        assert(self@ =~= seen(old(self)@, envelope@, now_unix_ms));
        copy
    }

    /// The record of a message, if it is known.
    #[must_use]
    pub fn get(&self, message_id: MessageId) -> (r: Option<ReceiveRecord>)
        ensures
            match r {
                Some(record) => self@.dom().contains(message_id.0) && record@
                    == self@[message_id.0],
                None => !self@.dom().contains(message_id.0),
            },
    {
        broadcast use vstd::std_specs::hash::group_hash_axioms;

        match self.records.get(&message_id.0) {
            Some(record) => Some(record.clone()),
            None => None,
        }
    }

    /// Takes a step, if the message is in the phase that the step starts from.
    pub fn transition(
        &mut self,
        message_id: MessageId,
        expected: ReceivePhase,
        next: ReceiveState,
        now_unix_ms: u64,
    ) -> (r: TransitionOutcome)
        ensures
            r@ == step_outcome(old(self)@, message_id, expected, next, now_unix_ms),
            final(self)@ == stepped(old(self)@, message_id, expected, next, now_unix_ms),
    {
        broadcast use vstd::std_specs::hash::group_hash_axioms;

        let mut record = match self.records.get(&message_id.0) {
            Some(record) => record.clone(),
            None => {
                return TransitionOutcome::Missing;
            },
        };
        if record.state.phase != expected {
            return TransitionOutcome::Mismatch(record);
        }
        record.state = next;
        record.updated_at_unix_ms = now_unix_ms;
        let copy = record.clone();
        self.records.insert(message_id.0, record);
        assert(self@ =~= stepped(old(self)@, message_id, expected, next, now_unix_ms));
        TransitionOutcome::Changed(copy)
    }
}

impl Default for MemoryReceiveStore {
    fn default() -> (r: Self)
        ensures
            r@ == Records::empty(),
    {
        MemoryReceiveStore::new()
    }
}

/// A message that was seen keeps its first record, however often it comes again.
pub proof fn lemma_first_delivery_wins(
    records: Records,
    first: TextEnvelope<Seq<char>>,
    again: TextEnvelope<Seq<char>>,
    now: u64,
    later: u64,
)
    requires
        first.message_id == again.message_id,
    ensures
        seen(seen(records, first, now), again, later) == seen(records, first, now),
{
}

/// A step is taken at most once: after it, the same step finds another phase.
pub proof fn lemma_step_is_taken_once(
    records: Records,
    message: MessageId,
    expected: ReceivePhase,
    next: ReceiveState,
    now: u64,
    later: u64,
)
    requires
        next.phase != expected,
    ensures
        !(step_outcome(
            stepped(records, message, expected, next, now),
            message,
            expected,
            next,
            later,
        ) is Changed),
{
}

} // verus!
