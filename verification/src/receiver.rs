//! The receiver around one activation: its header, its records, and recovery.
use vstd::prelude::*;

use crate::activation::{FetchActivation, FetchActivationView};
use crate::failure::{protocol_read_failure, ReadFault, ReceiveFailure};
use crate::net_error::NetError;
use crate::receive::Attempt;
use crate::store::{detail_too_large, OfferAttemptStatus};
use crate::text::{begins_with, opt_view, part_at, text_eq};
use crate::wire::{FetchHeader, FetchReceiptCode, FetchRefusal};

verus! {

/// The first message of an origin.
#[derive(Debug)]
pub enum HeaderFrame {
    Header(FetchHeader),
    /// A refusal, and what is wrong with it for the card, if anything.
    Refusal(FetchRefusal, Result<(), String>),
    Other,
}

/// What the first message of an origin amounts to, where it is not a header.
pub open spec fn header_failure(
    frame: Result<HeaderFrame, ReadFault>,
    activation: FetchActivationView,
) -> NetError<Seq<char>> {
    match frame {
        Ok(HeaderFrame::Refusal(refusal, check)) => if refusal.request_id != activation.request_id
            || refusal.offer_id != activation.offer_id {
            NetError::IdentityMismatch("fetch refusal does not match the activation"@)
        } else {
            match check {
                Err(detail) => NetError::Protocol(detail@),
                Ok(()) => NetError::FetchRefused {
                    code: refusal.code,
                    active_streams: refusal.active_streams,
                    max_active_streams: refusal.max_active_streams,
                    detail: opt_view(refusal.detail),
                },
            }
        },
        Ok(_) => NetError::UnexpectedMessage("expected fetch header or refusal"@),
        Err(fault) => match fault@ {
            ReadFault::Cancelled => NetError::FetchTerminal {
                code: FetchReceiptCode::Cancelled,
                files_processed: 0,
                bytes_processed: 0,
                detail: None,
            },
            ReadFault::TimedOut => NetError::Timeout("read fetch control"@),
            ReadFault::Protocol(detail) => NetError::Protocol(detail),
            ReadFault::Io { kind, text } => if crate::failure::disconnects(kind) {
                NetError::FetchTerminal {
                    code: FetchReceiptCode::ConnectionLost,
                    files_processed: 0,
                    bytes_processed: 0,
                    detail: None,
                }
            } else {
                NetError::Io(text)
            },
        },
    }
}

/// Takes the first message of an origin: the header, or why there is none.
pub fn read_header(
    frame: Result<HeaderFrame, ReadFault>,
    activation: &FetchActivation,
) -> (r: Result<FetchHeader, NetError>)
    ensures
        match r {
            Ok(header) => frame matches Ok(HeaderFrame::Header(h)) && h == header,
            Err(error) => !(frame matches Ok(HeaderFrame::Header(_))) && error@ == header_failure(
                frame,
                activation@,
            ),
        },
{
    match frame {
        Ok(HeaderFrame::Header(header)) => Ok(header),
        Ok(HeaderFrame::Refusal(refusal, check)) => {
            if refusal.request_id != activation.request_id || refusal.offer_id
                != activation.offer_id {
                return Err(
                    NetError::IdentityMismatch(
                        "fetch refusal does not match the activation".to_owned(),
                    ),
                );
            }
            match check {
                Err(detail) => Err(NetError::Protocol(detail)),
                Ok(()) => Err(
                    NetError::FetchRefused {
                        code: refusal.code,
                        active_streams: refusal.active_streams,
                        max_active_streams: refusal.max_active_streams,
                        detail: refusal.detail,
                    },
                ),
            }
        },
        Ok(HeaderFrame::Other) => Err(
            NetError::UnexpectedMessage("expected fetch header or refusal".to_owned()),
        ),
        Err(fault) => match protocol_read_failure(fault, 0, 0) {
            ReceiveFailure::LocalCancelled { .. } => Err(
                NetError::FetchTerminal {
                    code: FetchReceiptCode::Cancelled,
                    files_processed: 0,
                    bytes_processed: 0,
                    detail: None,
                },
            ),
            ReceiveFailure::Io(error) => Err(error),
            ReceiveFailure::Protocol { detail, .. } => Err(NetError::Protocol(detail)),
            ReceiveFailure::Disconnected { .. } => Err(
                NetError::FetchTerminal {
                    code: FetchReceiptCode::ConnectionLost,
                    files_processed: 0,
                    bytes_processed: 0,
                    detail: None,
                },
            ),
            _ => Err(NetError::UnexpectedMessage("expected fetch header or refusal".to_owned())),
        },
    }
}

/// The record of an attempt, where its detail is short enough to be recorded.
pub fn record_attempt(attempt: Attempt) -> (r: Result<OfferAttemptStatus, NetError>)
    ensures
        r is Err <==> detail_too_large(opt_view(attempt.detail)),
        r matches Err(error) ==> error@ == NetError::FetchServiceOwned(
            "store error: "@ + "offer attempt detail is too large"@,
        ),
        r matches Ok(status) ==> status@ == (OfferAttemptStatus {
            code: attempt.code,
            attempt_sequence: 1,
            files_processed: attempt.files,
            bytes_processed: attempt.bytes,
            detail: opt_view(attempt.detail),
        }),
{
    match OfferAttemptStatus::new(
        attempt.code,
        1,
        attempt.files,
        attempt.bytes,
        attempt.detail,
    ) {
        Ok(status) => Ok(status),
        Err(error) => Err(NetError::FetchServiceOwned(error.describe())),
    }
}

/// Where recovery at startup stands; `S` is the type of the texts.
#[derive(Debug)]
pub enum RecoveryStep<S = String> {
    /// Remove staging that the journal owns.
    CleanStore,
    /// Ask whether a side effect is uncertain.
    QueryUncertainty,
    /// Remove cache objects that the index does not name.
    SweepCache,
    Finished(Result<(), NetError<S>>),
}

/// The outcome of a step of recovery.
#[derive(Debug)]
pub enum RecoveryEvent {
    Local(Result<(), String>),
    Uncertainty(Result<bool, String>),
}

/// What recovery asks of the state that activations share.
#[derive(Debug, Clone, Copy, PartialEq, Eq, Structural)]
pub struct RecoveryEffects {
    pub block_cleanup: bool,
    pub set_uncertain: bool,
}

pub open spec fn recovery_view(step: RecoveryStep) -> RecoveryStep<Seq<char>> {
    match step {
        RecoveryStep::CleanStore => RecoveryStep::CleanStore,
        RecoveryStep::QueryUncertainty => RecoveryStep::QueryUncertainty,
        RecoveryStep::SweepCache => RecoveryStep::SweepCache,
        RecoveryStep::Finished(Ok(())) => RecoveryStep::Finished(Ok(())),
        RecoveryStep::Finished(Err(error)) => RecoveryStep::Finished(Err(error@)),
    }
}

/// The step after an event; one that does not answer the current step changes nothing.
pub open spec fn recovery_next(
    step: RecoveryStep<Seq<char>>,
    event: RecoveryEvent,
) -> RecoveryStep<Seq<char>> {
    match (step, event) {
        (RecoveryStep::CleanStore, RecoveryEvent::Local(Ok(()))) => RecoveryStep::QueryUncertainty,
        (RecoveryStep::QueryUncertainty, RecoveryEvent::Uncertainty(Ok(_))) =>
            RecoveryStep::SweepCache,
        (RecoveryStep::SweepCache, RecoveryEvent::Local(Ok(()))) => RecoveryStep::Finished(Ok(())),
        (RecoveryStep::CleanStore, RecoveryEvent::Local(Err(s)))
        | (RecoveryStep::SweepCache, RecoveryEvent::Local(Err(s)))
        | (RecoveryStep::QueryUncertainty, RecoveryEvent::Uncertainty(Err(s))) =>
            RecoveryStep::Finished(Err(NetError::FetchServiceOwned(s@))),
        _ => step,
    }
}

/// What the event asks of the state that activations share.
pub open spec fn recovery_effects(
    step: RecoveryStep<Seq<char>>,
    event: RecoveryEvent,
) -> RecoveryEffects {
    RecoveryEffects {
        block_cleanup: event matches RecoveryEvent::Local(Err(_)) && (step is CleanStore
            || step is SweepCache),
        set_uncertain: event matches RecoveryEvent::Uncertainty(Ok(true))
            && step is QueryUncertainty,
    }
}

/// Takes the outcome of a step of recovery.  Staging or cache objects that cannot
/// be removed block every activation; an uncertain side effect stays recorded.
pub fn startup_cleanup(step: RecoveryStep, event: RecoveryEvent) -> (r: (
    RecoveryStep,
    RecoveryEffects,
))
    ensures
        recovery_view(r.0) == recovery_next(recovery_view(step), event),
        r.1 == recovery_effects(recovery_view(step), event),
{
    let mut effects = RecoveryEffects { block_cleanup: false, set_uncertain: false };
    let next = match (step, event) {
        (RecoveryStep::CleanStore, RecoveryEvent::Local(result)) => match result {
            Ok(()) => RecoveryStep::QueryUncertainty,
            Err(s) => {
                effects.block_cleanup = true;
                RecoveryStep::Finished(Err(NetError::FetchServiceOwned(s)))
            },
        },
        (RecoveryStep::QueryUncertainty, RecoveryEvent::Uncertainty(result)) => match result {
            Ok(uncertain) => {
                effects.set_uncertain = uncertain;
                RecoveryStep::SweepCache
            },
            Err(s) => RecoveryStep::Finished(Err(NetError::FetchServiceOwned(s))),
        },
        (RecoveryStep::SweepCache, RecoveryEvent::Local(result)) => match result {
            Ok(()) => RecoveryStep::Finished(Ok(())),
            Err(s) => {
                effects.block_cleanup = true;
                RecoveryStep::Finished(Err(NetError::FetchServiceOwned(s)))
            },
        },
        (step, _) => step,
    };
    (next, effects)
}

/// Whether recovery removes the object `path` named `name` from the clipboard
/// cache: it is a candidate of an activation, and neither index entry names it.
pub open spec fn sweeps(
    name: Option<Seq<char>>,
    path: Seq<char>,
    completed: Option<Seq<char>>,
    in_flight: Option<Seq<char>>,
) -> bool {
    &&& name matches Some(n) && part_at(n, "candidate-"@, 0)
    &&& completed != Some(path)
    &&& in_flight != Some(path)
}

fn names(entry: &Option<String>, path: &str) -> (r: bool)
    ensures
        r == (opt_view(*entry) == Some(path@)),
{
    match entry {
        Some(named) => text_eq(named.as_str(), path),
        None => false,
    }
}

/// Whether recovery removes an object from the clipboard cache.  `name` is missing
/// where the name of the object is not text.
#[must_use]
pub fn cleanup_unindexed_cache_objects(
    name: &Option<String>,
    path: &str,
    completed: &Option<String>,
    in_flight: &Option<String>,
) -> (r: bool)
    ensures
        r == sweeps(opt_view(*name), path@, opt_view(*completed), opt_view(*in_flight)),
{
    let candidate = match name {
        Some(n) => begins_with(n.as_str(), "candidate-"),
        None => false,
    };
    candidate && !names(completed, path) && !names(in_flight, path)
}

} // verus!
