//! What an activation, a reservation, a recovery and a failure come to.
use vstd::prelude::*;

use crate::failure::{
    content_failure, control_failure, disconnects, safe, IoKind, ReadFault, ReceiveFailure,
};
use crate::ids::ActivationId;
use crate::net_error::NetError;
use crate::outcome::{
    abort_outcome, admission_outcome, classified, receipt_outcome, refusal_of, ActivationFailCode,
    ActivationOutcome, ActivationRefuseCode,
};
use crate::receiver::{recovery_effects, recovery_next, sweeps, RecoveryEvent, RecoveryStep};
use crate::reservation::{
    headroom, released, reservation, reserved_more, reserved_on, FilesystemKey, ReservationError,
    GIB,
};
use crate::service::{OwnerView, MAX_CONCURRENT_ACTIVATIONS};
use crate::text::{byte_len, has_part};
use crate::text_laws::lemma_shortening_is_least;
use crate::wire::{FetchAbortCode, FetchAdmissionCode, FetchReceiptCode, FetchRefusalCode};

verus! {

/// A refusal of the origin keeps its meaning: the outcome has the name of the code.
pub proof fn lemma_refusals_keep_their_meaning(code: FetchRefusalCode)
    ensures
        refusal_of(code) is UnknownOffer <==> code is UnknownOffer,
        refusal_of(code) is NotAnnouncedToRequester <==> code is NotAnnouncedToRequester,
        refusal_of(code) is SourceUnavailable <==> code is SourceUnavailable,
        refusal_of(code) is SourceChanged <==> code is SourceChanged,
        refusal_of(code) is Busy <==> code is Busy,
        refusal_of(code) is Malformed <==> code is Malformed,
        refusal_of(code) is Unsupported <==> code is Unsupported,
{
}

/// A refused admission keeps its meaning, and only an accepted one counts as completed.
pub proof fn lemma_admissions_keep_their_meaning(code: FetchAdmissionCode)
    ensures
        admission_outcome(code) is Completed <==> code is Accepted,
        admission_outcome(code) is Cancelled <==> code is Cancelled,
        !(admission_outcome(code) is Failed) && !(admission_outcome(code) is UncertainNoReplay),
        admission_outcome(code) matches ActivationOutcome::Refused(refusal) ==> {
            &&& refusal is Busy <==> code is RefusedBusy
            &&& refusal is InvalidManifest <==> code is InvalidManifest
            &&& refusal is TooLarge <==> code is TooLarge
            &&& refusal is InsufficientSpace <==> code is InsufficientSpace
            &&& refusal is DestinationUnavailable <==> code is DestinationUnavailable
            &&& refusal is AllocationFailed <==> code is AllocationFailed
            &&& refusal is UnsupportedMode <==> code is UnsupportedMode
        },
        admission_outcome(code) is Refused <==> !(code is Accepted || code is Cancelled),
{
}

/// A receipt and an abort keep their meaning; only a receipt of completion counts as
/// completed.
pub proof fn lemma_receipts_keep_their_meaning(code: FetchReceiptCode, abort: FetchAbortCode)
    ensures
        receipt_outcome(code) is Completed <==> code is Completed,
        receipt_outcome(code) is Cancelled <==> code is Cancelled,
        receipt_outcome(code) is UncertainNoReplay <==> code is UncertainNoReplay,
        receipt_outcome(code) matches ActivationOutcome::Failed(failure) ==> {
            &&& failure is VerificationFailed <==> code is VerificationFailed
            &&& failure is ClipboardFailed <==> code is ClipboardFailed
            &&& failure is ConnectionLost <==> code is ConnectionLost
            &&& failure is InternalError <==> code is InternalError
        },
        receipt_outcome(code) is Failed <==> !(code is Completed || code is Cancelled
            || code is UncertainNoReplay),
        abort_outcome(abort) is Cancelled <==> abort is Cancelled,
        abort_outcome(abort) == ActivationOutcome::Failed(ActivationFailCode::SourceUnavailable)
            <==> abort is SourceUnavailable,
        abort_outcome(abort) == ActivationOutcome::Failed(ActivationFailCode::SourceChanged)
            <==> abort is SourceChanged,
        abort_outcome(abort) == ActivationOutcome::Failed(ActivationFailCode::InternalError)
            <==> abort is InternalError,
{
}

/// An activation without an error is completed.  An error is what its codes say; lost
/// connections, local storage, the protocol and internal failures are told apart, and an
/// error that says nothing of the activation is handed on.
pub proof fn lemma_errors_keep_their_meaning(error: NetError<Seq<char>>)
    ensures
        classified(Ok(())) == Ok::<_, NetError<Seq<char>>>(ActivationOutcome::Completed),
        error matches NetError::FetchRefused { code, .. } ==> classified(Err(error)) == Ok::<
            _,
            NetError<Seq<char>>,
        >(ActivationOutcome::Refused(refusal_of(code))),
        error matches NetError::FetchTerminal { code, .. } ==> classified(Err(error)) == Ok::<
            _,
            NetError<Seq<char>>,
        >(receipt_outcome(code)),
        error matches NetError::FetchAdmissionRefused { code, .. } ==> classified(Err(error))
            == Ok::<_, NetError<Seq<char>>>(admission_outcome(code)),
        error matches NetError::FetchAborted { code, .. } ==> classified(Err(error)) == Ok::<
            _,
            NetError<Seq<char>>,
        >(abort_outcome(code)),
        error is Timeout || error is Io ==> classified(Err(error)) == Ok::<_, NetError<Seq<char>>>(
            ActivationOutcome::Failed(ActivationFailCode::ConnectionLost),
        ),
        error is FetchLocalIo ==> classified(Err(error)) == Ok::<_, NetError<Seq<char>>>(
            ActivationOutcome::Failed(ActivationFailCode::LocalIo),
        ),
        error is Protocol || error is UnexpectedMessage ==> classified(Err(error)) == Ok::<
            _,
            NetError<Seq<char>>,
        >(ActivationOutcome::Failed(ActivationFailCode::Protocol)),
        error is FetchServiceOwned || error is FetchService || error is OfferStorage ==> classified(
            Err(error),
        ) == Ok::<_, NetError<Seq<char>>>(
            ActivationOutcome::Failed(ActivationFailCode::InternalError),
        ),
        error is IdentityMismatch ==> classified(Err(error)) == Ok::<_, NetError<Seq<char>>>(
            ActivationOutcome::Refused(ActivationRefuseCode::Malformed),
        ),
        error matches NetError::Rejected(reason) ==> (if has_part(reason, "cleanup is unresolved"@)
            || has_part(reason, "uncertain"@) {
            classified(Err(error)) == Ok::<_, NetError<Seq<char>>>(
                ActivationOutcome::Refused(ActivationRefuseCode::Busy),
            )
        } else if has_part(reason, "destination"@) || has_part(reason, "absolute"@) {
            classified(Err(error)) == Ok::<_, NetError<Seq<char>>>(
                ActivationOutcome::Refused(ActivationRefuseCode::DestinationUnavailable),
            )
        } else {
            classified(Err(error)) == Err::<ActivationOutcome, _>(error)
        }),
        error is Unavailable || error is ProtocolMismatch || error is UnsafeBind || error
            is FileTransfer ==> classified(Err(error)) == Err::<ActivationOutcome, _>(error),
{
}

/// The status names what a refusal or a failure is about, and each by other words.
pub proof fn lemma_statuses_use_the_words_of_their_codes(
    refusal: ActivationRefuseCode,
    failure: ActivationFailCode,
)
    ensures
        has_part(ActivationOutcome::Refused(refusal).status(), refusal.words()),
        has_part(ActivationOutcome::Failed(failure).status(), failure.words()),
        refusal.words() == match refusal {
            ActivationRefuseCode::UnknownOffer => "unknown offer"@,
            ActivationRefuseCode::NotAnnouncedToRequester => "not announced to requester"@,
            ActivationRefuseCode::SourceUnavailable => "source unavailable"@,
            ActivationRefuseCode::SourceChanged => "source changed"@,
            ActivationRefuseCode::Busy => "busy"@,
            ActivationRefuseCode::Malformed => "malformed"@,
            ActivationRefuseCode::Unsupported => "unsupported"@,
            ActivationRefuseCode::InvalidManifest => "invalid manifest"@,
            ActivationRefuseCode::TooLarge => "too large"@,
            ActivationRefuseCode::InsufficientSpace => "insufficient space"@,
            ActivationRefuseCode::DestinationUnavailable => "destination unavailable"@,
            ActivationRefuseCode::AllocationFailed => "allocation failed"@,
            ActivationRefuseCode::UnsupportedMode => "unsupported mode"@,
            ActivationRefuseCode::DuplicateActivation => "duplicate activation"@,
        },
        failure.words() == match failure {
            ActivationFailCode::SourceUnavailable => "source unavailable"@,
            ActivationFailCode::SourceChanged => "source changed"@,
            ActivationFailCode::VerificationFailed => "verification failed"@,
            ActivationFailCode::ClipboardFailed => "clipboard failed"@,
            ActivationFailCode::ConnectionLost => "connection lost"@,
            ActivationFailCode::LocalIo => "local storage failed"@,
            ActivationFailCode::Protocol => "protocol error"@,
            ActivationFailCode::InternalError => "internal error"@,
        },
{
    let a = ActivationOutcome::Refused(refusal).status();
    let b = ActivationOutcome::Failed(failure).status();
    let i = "Offer activation refused ("@.len() as int;
    let j = "Offer activation failed ("@.len() as int;
    assert(a == "Offer activation refused ("@ + refusal.words() + ")"@);
    assert(b == "Offer activation failed ("@ + failure.words() + ")"@);
    assert(a.subrange(i, i + refusal.words().len()) =~= refusal.words());
    assert(b.subrange(j, j + failure.words().len()) =~= failure.words());
    assert(crate::text::part_at(a, refusal.words(), i));
    assert(crate::text::part_at(b, failure.words(), j));
}

/// A detail that goes out has no line break, takes at most 256 bytes, and is what was
/// said, with spaces for line breaks, where that fits.
pub proof fn lemma_details_are_safe(s: Seq<char>, i: int)
    ensures
        byte_len(safe(s)) <= 256,
        safe(s).len() <= s.len(),
        0 <= i < safe(s).len() ==> safe(s)[i] != '\n' && safe(s)[i] != '\r',
        0 <= i < safe(s).len() ==> safe(s)[i] == if s[i] == '\n' || s[i] == '\r' {
            ' '
        } else {
            s[i]
        },
        byte_len(crate::failure::without_breaks(s)) <= 256 ==> safe(s).len() == s.len(),
{
    lemma_shortening_is_least(crate::failure::without_breaks(s), 256);
}

/// A stream that ended or broke is a lost connection; other faults of reading are not.
pub proof fn lemma_lost_connections(kind: IoKind, text: Seq<char>, files: u32, bytes: u64)
    ensures
        disconnects(kind) <==> kind is UnexpectedEof || kind is ConnectionReset || kind
            is BrokenPipe || kind is ConnectionAborted || kind is NotConnected,
        control_failure(ReadFault::Io { kind, text }, files, bytes) is Disconnected <==> disconnects(
            kind,
        ),
        control_failure(ReadFault::Cancelled, files, bytes) == (ReceiveFailure::LocalCancelled::<
            Seq<char>,
        > { files, bytes }),
        control_failure(ReadFault::TimedOut, files, bytes) matches ReceiveFailure::Io(
            NetError::Timeout(_),
        ),
        control_failure(ReadFault::Protocol(text), files, bytes) == (ReceiveFailure::Protocol {
            files,
            bytes,
            detail: text,
        }),
        content_failure(ReadFault::Cancelled, text, files, bytes) == (
        ReceiveFailure::LocalCancelled::<Seq<char>> { files, bytes }),
        content_failure(ReadFault::TimedOut, text, files, bytes) == ReceiveFailure::Io(
            NetError::Timeout(text),
        ),
        content_failure(ReadFault::Io { kind, text }, text, files, bytes) == ReceiveFailure::Io(
            NetError::Io(text),
        ),
{
}

/// The space that stays free: a twentieth of the file system, but no less than 2 GiB and
/// no more than 16 GiB.
pub proof fn lemma_space_that_stays_free(total: u64)
    ensures
        GIB == 1_073_741_824,
        2_147_483_648 <= headroom(total) <= 17_179_869_184,
        42_949_672_960 <= total <= 343_597_383_680 ==> 20 * headroom(total) <= total < 20 * (
        headroom(total) + 1),
        total < 42_949_672_960 ==> headroom(total) == 2_147_483_648,
        total > 343_597_383_680 ==> headroom(total) == 17_179_869_184,
{
}

/// Space is reserved exactly where what is free covers all that is reserved already, the
/// payload, and the space that stays free.
pub proof fn lemma_space_that_is_reserved(
    active: Map<u64, u64>,
    key: FilesystemKey,
    available: u64,
    total: u64,
    payload_bytes: u64,
)
    ensures
        ({
            let required = payload_bytes + headroom(total);
            let reserved = reserved_on(active, key);
            let result = reservation(active, key, available, total, payload_bytes);
            &&& result is Ok <==> required <= u64::MAX && reserved + required <= available
            &&& result matches Ok(bytes) ==> bytes == required
            &&& result is Err && required <= u64::MAX ==> (result
                matches Err(ReservationError::InsufficientSpace { required: r, .. }) && r
                == required)
        }),
{
}

/// Reserving and releasing change one file system by what they say, and no other.
pub proof fn lemma_reservations_are_by_file_system(
    active: Map<u64, u64>,
    key: FilesystemKey,
    other: FilesystemKey,
    bytes: u64,
)
    requires
        reserved_on(active, key) + bytes <= u64::MAX,
    ensures
        reserved_on(reserved_more(active, key, bytes), key) == reserved_on(active, key) + bytes,
        reserved_on(released(active, key, bytes), key) == (if reserved_on(active, key) > bytes {
            (reserved_on(active, key) - bytes) as u64
        } else {
            0u64
        }),
        other != key ==> reserved_on(reserved_more(active, key, bytes), other) == reserved_on(
            active,
            other,
        ),
        other != key ==> reserved_on(released(active, key, bytes), other) == reserved_on(
            active,
            other,
        ),
{
}

/// Two activations may run, each once: another one starts exactly where fewer than two
/// run and it is none of them.
pub proof fn lemma_activations_that_start(owner: OwnerView, id: ActivationId)
    ensures
        MAX_CONCURRENT_ACTIVATIONS == 2,
        owner.refusal(id) is None <==> owner.live.len() < 2 && !owner.live.contains(id),
        owner.live.contains(id) ==> owner.refusal(id) == Some(
            ActivationRefuseCode::DuplicateActivation,
        ),
        !owner.live.contains(id) && owner.live.len() >= 2 ==> owner.refusal(id) == Some(
            ActivationRefuseCode::Busy,
        ),
        owner.started(id).live.contains(id),
        owner.started(id).live.len() == owner.live.len() + 1,
{
    assert(owner.started(id).live.last() == id);
    assert(owner.started(id).live[owner.live.len() as int] == id);
}

/// Recovery cleans the store, asks for an uncertain side effect, and sweeps the cache, in
/// this order; the first failure ends it.  A failed cleanup blocks activations, and an
/// uncertain side effect is remembered.
pub proof fn lemma_recovery_in_order(uncertain: bool, text: String)
    ensures
        ({
            let ok = RecoveryEvent::Local(Ok(()));
            let bad = RecoveryEvent::Local(Err(text));
            let known = RecoveryEvent::Uncertainty(Ok(uncertain));
            let failed = RecoveryStep::<Seq<char>>::Finished(
                Err(NetError::FetchServiceOwned(text@)),
            );
            &&& recovery_next(RecoveryStep::CleanStore, ok) == RecoveryStep::<
                Seq<char>,
            >::QueryUncertainty
            &&& recovery_next(RecoveryStep::QueryUncertainty, known) == RecoveryStep::<
                Seq<char>,
            >::SweepCache
            &&& recovery_next(RecoveryStep::SweepCache, ok) == RecoveryStep::<Seq<char>>::Finished(
                Ok(()),
            )
            &&& recovery_next(RecoveryStep::CleanStore, bad) == failed
            &&& recovery_next(RecoveryStep::SweepCache, bad) == failed
            &&& recovery_next(
                RecoveryStep::QueryUncertainty,
                RecoveryEvent::Uncertainty(Err(text)),
            ) == failed
            &&& recovery_effects(RecoveryStep::CleanStore, bad).block_cleanup
            &&& recovery_effects(RecoveryStep::SweepCache, bad).block_cleanup
            &&& !recovery_effects(RecoveryStep::CleanStore, ok).block_cleanup
            &&& !recovery_effects(RecoveryStep::SweepCache, ok).block_cleanup
            &&& recovery_effects(RecoveryStep::QueryUncertainty, known).set_uncertain == uncertain
        }),
{
}

/// Recovery removes from the cache exactly what was put there as a candidate and is
/// neither what the clipboard holds nor on its way there.
pub proof fn lemma_what_is_swept(
    rest: Seq<char>,
    path: Seq<char>,
    completed: Option<Seq<char>>,
    in_flight: Option<Seq<char>>,
    name: Seq<char>,
)
    ensures
        sweeps(Some("candidate-"@ + rest), path, completed, in_flight) <==> completed != Some(path)
            && in_flight != Some(path),
        sweeps(Some(name), path, completed, in_flight) ==> "candidate-"@.is_prefix_of(name),
        !sweeps(None, path, completed, in_flight),
{
    let full = "candidate-"@ + rest;
    let n = "candidate-"@.len() as int;
    assert(full.subrange(0, n) =~= "candidate-"@);
    if sweeps(Some(name), path, completed, in_flight) {
        assert(name.subrange(0, n) == "candidate-"@);
        assert("candidate-"@ =~= name.subrange(0, n));
    }
}

} // verus!
