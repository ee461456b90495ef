use meshelf::activation::{
    ActivationJournalEntry, ActivationMode, ActivationState, ClipboardCacheRecord,
    ClipboardCacheState,
};
use meshelf::clipboard::{classify_clipboard_failure, ClipboardError};
use meshelf::ids::{ActivationId, DeviceId, MessageId, OfferId};
use meshelf::manifest::needs_filesystem_reservation;
use meshelf::memory_store::{MemoryReceiveStore, ReceivePhase, ReceiveState, TransitionOutcome};
use meshelf::model::{ContentKind, TextEnvelope};
use meshelf::net_error::NetError;
use meshelf::outcome::ActivationRefuseCode;
use meshelf::path::HostPath;
use meshelf::receive::SideEffectFailure;
use meshelf::reservation::{FilesystemKey, ReservationError, ReservationLedger};
use meshelf::service::ActivationOwner;
use meshelf::settings::SaveDestination;
use meshelf::side_effect::{SideEffect, SideEffectEvent, SideEffectStep};
use meshelf::store::{OfferAttemptCode, OfferAttemptStatus, StoreError};

#[test]
fn nonempty_text_does_not_require_a_filesystem_reservation() {
    assert!(!needs_filesystem_reservation(ContentKind::Text, 442));
    assert!(needs_filesystem_reservation(ContentKind::File, 442));
}

#[test]
fn clipboard_worker_crash_is_uncertain_not_terminal() {
    assert!(matches!(
        classify_clipboard_failure(ClipboardError::uncertain("worker stopped")),
        SideEffectFailure::Uncertain(_)
    ));
    assert!(matches!(
        classify_clipboard_failure(ClipboardError::new("platform rejected write")),
        SideEffectFailure::Terminal(_)
    ));
}

#[test]
fn clipboard_errors_say_what_happened() {
    let error = ClipboardError::uncertain("worker stopped");
    assert_eq!(error.message(), "worker stopped");
    assert!(error.is_uncertain());
    assert!(!ClipboardError::new("x").is_uncertain());
    assert!(error.describe().contains("worker stopped"));
}

const GIB: u64 = 1024 * 1024 * 1024;

#[test]
fn two_same_filesystem_reservations_cannot_overcommit() {
    let key = FilesystemKey(1);
    let mut ledger = ReservationLedger::new();
    let total = 100_u64 * 1024 * 1024 * 1024;
    let available = 5_u64 * 1024 * 1024 * 1024 + 1536;
    let first = ledger
        .reserve_with_capacity(key, available, total, 1024)
        .expect("first reservation");
    assert!(matches!(
        ledger.reserve_with_capacity(key, available, total, 1024),
        Err(ReservationError::InsufficientSpace { .. })
    ));
    ledger.release(first);
    assert_eq!(ledger.reserved(key), 0);
    assert!(ledger.reserve_with_capacity(key, available, total, 1024).is_ok());
}

#[test]
fn different_filesystems_have_independent_reservations() {
    let first_key = FilesystemKey(1);
    let second_key = FilesystemKey(2);
    assert_ne!(first_key, second_key);
    let mut ledger = ReservationLedger::new();
    let available = 6_u64 * 1024 * 1024 * 1024;
    let total = 100_u64 * 1024 * 1024 * 1024;
    let first = ledger
        .reserve_with_capacity(first_key, available, total, 1024)
        .expect("first reservation");
    let second = ledger
        .reserve_with_capacity(second_key, available, total, 1024)
        .expect("independent reservation");
    assert_eq!(ledger.reserved(first_key), 5 * GIB + 1024);
    ledger.release(first);
    assert_eq!(ledger.reserved(first_key), 0);
    assert_eq!(ledger.reserved(second_key), 5 * GIB + 1024);
    ledger.release(second);
}

#[test]
fn a_reservation_leaves_a_reserve() {
    let mut ledger = ReservationLedger::new();
    let error = ledger
        .reserve_with_capacity(FilesystemKey(1), 5 * GIB, 100 * GIB, 1)
        .expect_err("reserve");
    let text = error.describe();
    assert!(text.contains("5368709121"), "{text}");
    assert!(matches!(
        ledger.reserve_with_capacity(FilesystemKey(1), u64::MAX, 100 * GIB, u64::MAX),
        Err(ReservationError::Overflow)
    ));
    assert_eq!(ledger.reserved(FilesystemKey(1)), 0);
    let permit = ledger
        .reserve_with_capacity(FilesystemKey(1), 5 * GIB + 7, 100 * GIB, 7)
        .expect("exact");
    assert_eq!(permit.reserved_bytes(), 5 * GIB + 7);
}

#[test]
fn two_activations_run_and_a_third_is_refused() {
    let mut owner = ActivationOwner::new();
    assert!(owner.needs_recovery());
    owner.recover(Ok(())).expect("recovered");
    assert!(!owner.needs_recovery());
    assert_eq!(owner.recovery_runs(), 1);
    let (a, b, c) = (ActivationId::new(), ActivationId::new(), ActivationId::new());
    assert_eq!(owner.activate(a), Ok(()));
    assert_eq!(owner.activate(a), Err(ActivationRefuseCode::DuplicateActivation));
    assert_eq!(owner.activate(b), Ok(()));
    assert_eq!(owner.activate(c), Err(ActivationRefuseCode::Busy));
    assert_eq!(owner.live_count(), 2);
    owner.finish(a);
    assert_eq!(owner.live_count(), 1);
    assert_eq!(owner.activate(c), Ok(()));
}

#[test]
fn a_failed_recovery_is_due_again() {
    let mut owner = ActivationOwner::new();
    assert!(matches!(
        owner.recover(Err(NetError::FileTransfer("x".to_owned()))),
        Err(NetError::FileTransfer(_))
    ));
    assert!(owner.needs_recovery());
    owner.block_cleanup();
    assert!(owner.is_cleanup_blocked());
    owner.set_clipboard_uncertain(true);
    assert!(owner.is_clipboard_uncertain());
    owner.set_clipboard_uncertain(false);
    assert!(!owner.is_clipboard_uncertain());
}

fn envelope(id: MessageId, text: &str) -> TextEnvelope {
    TextEnvelope::shelf_item_with_id(
        id,
        DeviceId::from_uuid(1),
        DeviceId::from_uuid(2),
        1,
        None,
        ContentKind::Text,
        text,
    )
}

#[test]
fn the_first_delivery_wins_and_each_step_is_taken_once() {
    let mut store = MemoryReceiveStore::new();
    let id = MessageId::new();
    assert!(store.get(id).is_none());
    assert!(matches!(
        store.transition(id, ReceivePhase::Recorded, ReceiveState::recorded(), 1),
        TransitionOutcome::Missing
    ));
    let first = store.record_if_absent(&envelope(id, "first"), 5);
    let again = store.record_if_absent(&envelope(id, "second"), 9);
    assert_eq!(first.envelope.text, "first");
    assert_eq!(again.envelope.text, "first");
    assert_eq!(again.first_seen_unix_ms, 5);
    let next = || ReceiveState { phase: ReceivePhase::Applying };
    assert!(matches!(
        store.transition(id, ReceivePhase::Recorded, next(), 10),
        TransitionOutcome::Changed(record) if record.updated_at_unix_ms == 10
    ));
    assert!(matches!(
        store.transition(id, ReceivePhase::Recorded, next(), 11),
        TransitionOutcome::Mismatch(record) if record.updated_at_unix_ms == 10
    ));
    assert_eq!(store.get(id).expect("record").state.phase, ReceivePhase::Applying);
}

fn journal(staging_root: HostPath) -> ActivationJournalEntry {
    ActivationJournalEntry {
        activation_id: ActivationId::new(),
        source_device: DeviceId::new(),
        offer_id: OfferId::new(),
        mode: ActivationMode::Save,
        staging_root,
        state: ActivationState::Requested,
        reserved_entries: 0,
        reserved_bytes: 0,
    }
}

#[test]
fn journal_and_cache_paths_are_absolute() {
    assert!(journal(HostPath::new("/var/staging")).validate().is_ok());
    assert!(journal(HostPath::new("staging")).validate().is_err());
    let cache = |path| ClipboardCacheRecord {
        activation_id: ActivationId::new(),
        state: ClipboardCacheState::InFlight,
        payload_path: path,
    };
    assert!(cache(HostPath::new("/var/cache")).validate().is_ok());
    assert!(cache(HostPath::new("cache")).validate().is_err());
    assert!(SaveDestination::custom(HostPath::new("relative")).is_err());
    let custom = SaveDestination::custom(HostPath::new("/in")).expect("absolute");
    assert_eq!(custom.path().expect("path").text, "/in");
    assert!(SaveDestination::Downloads.path().is_none());
    assert!(ActivationState::ApplyingClipboard.is_uncertain_side_effect());
    assert!(!ActivationState::Completed.is_uncertain_side_effect());
}

#[test]
fn attempt_details_are_bounded() {
    let status = |detail: &str| {
        OfferAttemptStatus::new(OfferAttemptCode::Failed, 1, 0, 0, Some(detail.to_owned()))
    };
    assert!(status("fine").is_ok());
    assert!(status(&"x".repeat(257)).is_err());
    assert!(status(&"x".repeat(256)).is_ok());
    assert_eq!(StoreError::new("m").describe(), "store error: m");
    assert_eq!(StoreError::new("m").message(), "m");
}

#[test]
fn the_order_of_releases_does_not_matter() {
    for first_out in [true, false] {
        let key = FilesystemKey(3);
        let mut ledger = ReservationLedger::new();
        let a = ledger.reserve_with_capacity(key, 100 * GIB, 100 * GIB, 1).expect("a");
        let b = ledger.reserve_with_capacity(key, 100 * GIB, 100 * GIB, 2).expect("b");
        assert_eq!(ledger.reserved(key), 10 * GIB + 3);
        let (x, y) = if first_out { (a, b) } else { (b, a) };
        ledger.release(x);
        ledger.release(y);
        assert_eq!(ledger.reserved(key), 0);
    }
}

#[test]
fn the_clipboard_is_asked_once() {
    let ask = || SideEffectEvent::ClipboardSet(Ok(()));
    let effect = SideEffect::new(true, ActivationMode::Clipboard, Some("text".to_owned()), None);
    let (effect, _) = effect.apply_side_effect(ask());
    assert!(matches!(effect.step, SideEffectStep::MarkApplying));
    let (effect, _) = effect.apply_side_effect(SideEffectEvent::Local(Ok(())));
    assert!(matches!(&effect.step, SideEffectStep::SetText(text) if text == "text"));
    let (effect, _) = effect.apply_side_effect(ask());
    assert!(matches!(effect.step, SideEffectStep::Finished(Ok(()))));
    let (effect, _) = effect.apply_side_effect(ask());
    assert!(matches!(effect.step, SideEffectStep::Finished(Ok(()))));
}

#[test]
fn saving_leaves_the_clipboard_alone() {
    let effect = SideEffect::new(false, ActivationMode::Save, None, Some("/d/a".to_owned()));
    let (effect, effects) = effect.apply_side_effect(SideEffectEvent::Local(Ok(())));
    assert!(matches!(effect.step, SideEffectStep::Finished(Ok(()))));
    assert_eq!(effects.uncertain, None);
    let text = SideEffect::new(true, ActivationMode::Save, Some("t".to_owned()), None);
    let (text, _) = text.apply_side_effect(SideEffectEvent::Local(Ok(())));
    assert!(matches!(
        text.step,
        SideEffectStep::Finished(Err(SideEffectFailure::Terminal(_)))
    ));
}
