use meshelf::activation::{ActivationMode, ActivationState, FetchActivation};
use meshelf::clipboard::ClipboardError;
use meshelf::failure::{safe_detail, IoKind, ReadFault, ReceiveFailure};
use meshelf::ids::{ActivationId, DeviceId, MessageId, OfferId};
use meshelf::manifest::{plan_counts, Manifest, ManifestFrame, ManifestReader};
use meshelf::model::ContentKind;
use meshelf::net_error::NetError;
use meshelf::offer::OfferDescriptor;
use meshelf::outcome::{ActivationOutcome, ActivationRefuseCode};
use meshelf::path::HostPath;
use meshelf::payload::{
    files_to_stage, PayloadEvent, PayloadMessage, PayloadReceive, PayloadStep,
};
use meshelf::publish::{clipboard_cache_name, Publish, PublishEvent, PublishStep};
use meshelf::receive::{
    cleanup_result, Receive, ReceiveAction, ReceiveEvent, SideEffectFailure,
};
use meshelf::receiver::{
    cleanup_unindexed_cache_objects, read_header, startup_cleanup, HeaderFrame, RecoveryEvent,
    RecoveryStep,
};
use meshelf::reservation::ReservationError;
use meshelf::send::{
    begin_fetch, fetch_header, handle_fetch, manifest_end, send_refusal, FetchEvent, FetchRequest,
    FetchStep, OfferFacts, StreamSlots,
};
use meshelf::side_effect::{SideEffect, SideEffectEvent, SideEffectStep};
use meshelf::source::{metadata_digest, SourceMetadata, Timestamp};
use meshelf::source_plan::{
    build_file_plan, build_source_plan, finish_plan, OfferSource, PlanKind, SourceFailure,
    SourcePlan,
};
use meshelf::store::StoreError;
use meshelf::stream::{FileEvent, FileOutcome, FileSend, FileStep, Observation};
use meshelf::transfer::{AdmissionFrame, ReceiptFrame, Transfer, TransferEvent, TransferStep};
use meshelf::wire::{
    FetchAbort, FetchAbortCode, FetchAdmissionCode, FetchHeader, FetchReceiptCode,
    FetchRefusalCode, ManifestChunk, V2Limits,
};
use sha2::{Digest, Sha256};

fn limits() -> V2Limits {
    V2Limits {
        max_file_bytes: 1 << 33,
        max_transfer_bytes: 1 << 34,
        max_manifest_entries: 4096,
        max_manifest_bytes: 1 << 20,
        max_relative_path_bytes: 4096,
        max_component_bytes: 255,
        stream_buffer_bytes: 4,
    }
}

fn text_plan(text: &str) -> SourcePlan {
    let descriptor = OfferDescriptor::text(text).expect("text");
    let source = OfferSource::Text { text: text.to_owned() };
    match build_source_plan(&descriptor, &source) {
        Ok(PlanKind::Text(plan)) => plan,
        _ => panic!("expected a text plan"),
    }
}

fn file_metadata(len: u64) -> SourceMetadata {
    SourceMetadata {
        is_symlink: false,
        is_file: true,
        is_directory: false,
        len,
        readonly: false,
        identity: vec![1],
        modified: Some(Timestamp { seconds: 1, nanoseconds: 2 }),
    }
}

const ENCODED: &[u8] = b"manifest bytes";

fn file_plan(len: u64) -> SourcePlan {
    let descriptor = OfferDescriptor::File { root_name: "f.bin".to_owned(), total_bytes: len };
    let commitment = metadata_digest("root", "f.bin", &file_metadata(len)).expect("commitment");
    let draft = build_file_plan(
        "f.bin",
        len,
        Some(file_metadata(len)),
        &Some("f.bin".to_owned()),
        &commitment,
    )
    .expect("draft");
    finish_plan(&descriptor, draft, Some(ENCODED.len()), Some(ENCODED.to_vec()), &limits())
        .expect("plan")
}

fn request() -> FetchRequest {
    FetchRequest {
        request_id: ActivationId::from_uuid(1),
        offer_id: OfferId::from_uuid(2),
        source_device: DeviceId::from_uuid(3),
        requester_device: DeviceId::from_uuid(4),
    }
}

fn admission(code: FetchAdmissionCode) -> TransferEvent {
    TransferEvent::AdmissionRead(Ok(AdmissionFrame::Admission {
        request_id: request().request_id,
        code,
    }))
}

fn receipt(request_id: ActivationId) -> TransferEvent {
    TransferEvent::ReceiptRead(Ok(ReceiptFrame::Receipt {
        request_id,
        offer_id: request().offer_id,
    }))
}

/// Sends a text in pieces; what was sent, and the transfer as it waits for the receipt.
fn sent_text(text: &str) -> (Vec<u8>, Transfer) {
    let mut transfer = Transfer::new(request(), text_plan(text), 0, 4);
    let mut sent = Vec::new();
    loop {
        let event = match &transfer.step {
            TransferStep::ReadAdmission => admission(FetchAdmissionCode::Accepted),
            TransferStep::WriteText(_) => {
                let piece = transfer.text_piece();
                assert!(!piece.is_empty() && piece.len() <= 4);
                sent.extend(piece);
                TransferEvent::Wrote(Ok(()))
            }
            TransferStep::ReadReceipt | TransferStep::Finished(_) => return (sent, transfer),
            _ => TransferEvent::Wrote(Ok(())),
        };
        transfer = transfer.send_plan(event);
    }
}

#[test]
fn origin_waits_for_and_validates_fetch_receipt() {
    let body = "receipt-gated text";
    let (received, transfer) = sent_text(body);
    assert_eq!(received, body.as_bytes());
    assert!(
        matches!(transfer.step, TransferStep::ReadReceipt),
        "origin returned before the receiver supplied a receipt"
    );
    let transfer = transfer.send_plan(receipt(ActivationId::new()));
    assert!(matches!(
        transfer.step,
        TransferStep::Finished(Err(NetError::IdentityMismatch(_)))
    ));
    let (_, transfer) = sent_text(body);
    let transfer = transfer.send_plan(receipt(request().request_id));
    assert!(matches!(transfer.step, TransferStep::Finished(Ok(()))));
}

fn payload_for(header: &FetchHeader, manifest: &Manifest) -> PayloadReceive {
    PayloadReceive::new(
        header.request_id,
        plan_counts(&header.descriptor),
        &header.manifest_sha256,
        files_to_stage(&manifest.entries),
    )
}

fn message(message: PayloadMessage) -> PayloadEvent {
    PayloadEvent::Message(Ok(message))
}

#[test]
fn a_text_arrives_as_it_was_sent() {
    let text = "héllo, exactly these bytes 🙂";
    let header = fetch_header(&request(), &text_plan(text));
    assert_eq!(header.text_sha256, Some(Sha256::digest(text.as_bytes()).to_vec()));
    let (sent, transfer) = sent_text(text);
    let no_manifest = Manifest { entries: Vec::new(), end: None, encoded: None };
    let payload = payload_for(&header, &no_manifest)
        .handle(PayloadEvent::Content(Ok(sent)))
        .handle(message(PayloadMessage::TextEnd(transfer.text_end())))
        .handle(message(PayloadMessage::Complete(transfer.text_complete())));
    assert!(matches!(payload.step, PayloadStep::Finished(Ok(()))));
    assert_eq!(payload.text.as_deref(), Some(text));
}

#[test]
fn a_text_with_another_digest_is_refused() {
    let text = "body";
    let header = fetch_header(&request(), &text_plan(text));
    let no_manifest = Manifest { entries: Vec::new(), end: None, encoded: None };
    let (_, transfer) = sent_text(text);
    let payload = payload_for(&header, &no_manifest)
        .handle(PayloadEvent::Content(Ok(b"bodY".to_vec())))
        .handle(message(PayloadMessage::TextEnd(transfer.text_end())));
    assert!(matches!(
        payload.step,
        PayloadStep::Finished(Err(ReceiveFailure::Verification { .. }))
    ));
}

#[test]
fn bytes_that_are_no_text_are_refused() {
    let (_, transfer) = sent_text("ab");
    let header = fetch_header(&request(), &text_plan("ab"));
    let no_manifest = Manifest { entries: Vec::new(), end: None, encoded: None };
    let mut end = transfer.text_end();
    end.sha256 = Sha256::digest([0xff, 0xfe]).to_vec();
    let mut payload = payload_for(&header, &no_manifest)
        .handle(PayloadEvent::Content(Ok(vec![0xff, 0xfe])))
        .handle(message(PayloadMessage::TextEnd(end)));
    if matches!(payload.step, PayloadStep::ReadTextComplete) {
        payload = payload.handle(message(PayloadMessage::Complete(transfer.text_complete())));
    }
    assert!(matches!(payload.step, PayloadStep::Finished(Err(_))));
}

fn stream_bytes(mut file: FileSend, bytes: &[u8]) -> (FileSend, Vec<u8>) {
    let mut sent = Vec::new();
    loop {
        let event = match &file.step {
            FileStep::CheckPath | FileStep::CheckPathAgain | FileStep::Open | FileStep::CheckOpened => {
                FileEvent::Observed(Observation::Seen(Some(file.metadata_digest.clone())))
            }
            FileStep::ReadPiece => {
                let n = file.wanted(4) as usize;
                FileEvent::Read(Some(bytes[sent.len()..sent.len() + n].to_vec()))
            }
            FileStep::WritePiece(piece) => {
                sent.extend_from_slice(piece);
                FileEvent::Wrote(Ok(()))
            }
            FileStep::WriteStart | FileStep::WriteEnd => FileEvent::Wrote(Ok(())),
            FileStep::Finished(_) => return (file, sent),
        };
        file = file.stream_file(event);
    }
}

#[test]
fn a_file_is_accepted_as_it_was_sent() {
    let bytes = b"exact file content".to_vec();
    let plan = file_plan(bytes.len() as u64);
    let header = fetch_header(&request(), &plan);
    let end = manifest_end(&request(), &plan);
    let digest = plan.files[0].metadata_digest.clone();
    let again = file_plan(bytes.len() as u64);
    let chunk = ManifestChunk {
        request_id: request().request_id,
        first_index: 0,
        entries: file_plan(bytes.len() as u64).manifest,
    };
    let reader = ManifestReader::new(&header)
        .read_manifest(ManifestFrame::Chunk(chunk, Some(ENCODED.len())), &limits())
        .expect("chunk")
        .read_manifest(ManifestFrame::End(end), &limits())
        .expect("end");
    assert!(reader.is_complete());
    let manifest =
        Manifest { entries: reader.entries, end: reader.end, encoded: Some(ENCODED.to_vec()) };

    let mut transfer = Transfer::new(request(), plan, 1, 4);
    let mut payload = payload_for(&header, &manifest);
    let mut again = Some(again);
    let complete = loop {
        let event = match &transfer.step {
            TransferStep::ReadAdmission => admission(FetchAdmissionCode::Accepted),
            TransferStep::RecheckBefore => {
                TransferEvent::Rechecked(Ok(file_plan(bytes.len() as u64)))
            }
            TransferStep::RecheckAfter => TransferEvent::Rechecked(Ok(again.take().expect("once"))),
            TransferStep::SendFile(0) => {
                let file =
                    FileSend::new(request().request_id, 0, bytes.len() as u64, digest.clone());
                payload = payload.handle(message(PayloadMessage::FileStart(file.start_message())));
                let (file, sent) = stream_bytes(file, &bytes);
                assert_eq!(sent, bytes);
                for piece in sent.chunks(4) {
                    assert!(matches!(payload.step, PayloadStep::ReadChunk));
                    payload = payload.handle(PayloadEvent::Content(Ok(piece.to_vec())));
                    assert!(matches!(&payload.step, PayloadStep::WriteChunk(b) if b == piece));
                    payload = payload.handle(PayloadEvent::Local(Ok(())));
                }
                assert!(matches!(payload.step, PayloadStep::SyncFile));
                payload = payload
                    .handle(PayloadEvent::Local(Ok(())))
                    .handle(message(PayloadMessage::FileEnd(file.end_message())));
                match file.step {
                    FileStep::Finished(outcome) => TransferEvent::FileSent(outcome),
                    _ => unreachable!(),
                }
            }
            TransferStep::WriteComplete => {
                let (next, complete) = transfer.complete();
                transfer = next.send_plan(TransferEvent::Wrote(Ok(())));
                break complete;
            }
            _ => TransferEvent::Wrote(Ok(())),
        };
        transfer = transfer.send_plan(event);
    };
    assert!(matches!(transfer.step, TransferStep::ReadReceipt));
    payload = payload.handle(message(PayloadMessage::Complete(complete)));
    assert!(matches!(payload.step, PayloadStep::SyncStaging));
    payload = payload.handle(PayloadEvent::Local(Ok(())));
    assert!(matches!(payload.step, PayloadStep::Finished(Ok(()))));
    assert_eq!(payload.files_received, 1);
    assert_eq!(payload.bytes_received, bytes.len() as u64);
}

#[test]
fn a_source_that_changes_is_aborted_before_completion() {
    let mut transfer = Transfer::new(request(), file_plan(2), 1, 4);
    loop {
        let event = match &transfer.step {
            TransferStep::ReadAdmission => admission(FetchAdmissionCode::Accepted),
            TransferStep::RecheckBefore => TransferEvent::Rechecked(Ok(file_plan(2))),
            TransferStep::SendFile(_) => {
                TransferEvent::FileSent(FileOutcome::Sent(Sha256::digest(b"xy").to_vec()))
            }
            TransferStep::RecheckAfter => TransferEvent::Rechecked(Err(SourceFailure::Changed)),
            TransferStep::WriteAbort(code) => {
                assert_eq!(*code, FetchAbortCode::SourceChanged);
                break;
            }
            TransferStep::WriteComplete | TransferStep::Finished(_) => panic!("not aborted"),
            _ => TransferEvent::Wrote(Ok(())),
        };
        transfer = transfer.send_plan(event);
    }
    let abort = transfer.send_abort(FetchAbortCode::SourceChanged);
    assert_eq!(abort.request_id, request().request_id);
    assert_eq!(abort.files_sent, 1);
    assert_eq!(abort.bytes_sent, 2);
}

#[test]
fn content_needs_admission() {
    let mut transfer = Transfer::new(request(), file_plan(2), 1, 4);
    while !matches!(transfer.step, TransferStep::ReadAdmission) {
        transfer = transfer.send_plan(TransferEvent::Wrote(Ok(())));
    }
    let transfer = transfer.send_plan(admission(FetchAdmissionCode::InsufficientSpace));
    assert!(!matches!(
        transfer.step,
        TransferStep::RecheckBefore | TransferStep::SendFile(_) | TransferStep::WriteText(_)
    ));
}

#[test]
fn a_file_that_changes_while_it_is_sent_is_not_closed() {
    let mut file = FileSend::new(request().request_id, 0, 8, vec![1; 32]);
    let seen = |d: u8| FileEvent::Observed(Observation::Seen(Some(vec![d; 32])));
    file = file.stream_file(seen(1));
    while !matches!(file.step, FileStep::ReadPiece) {
        file = match file.step {
            FileStep::Open => file.stream_file(seen(1)),
            _ => file.stream_file(FileEvent::Wrote(Ok(()))),
        };
    }
    let file = file.stream_file(FileEvent::Read(Some(Vec::new())));
    assert!(matches!(file.step, FileStep::Finished(FileOutcome::MidStream)));
    let gone = FileSend::new(request().request_id, 0, 8, vec![1; 32])
        .stream_file(FileEvent::Observed(Observation::Missing));
    assert!(matches!(gone.step, FileStep::Finished(FileOutcome::Unavailable)));
    let other = FileSend::new(request().request_id, 0, 8, vec![1; 32]).stream_file(seen(2));
    assert!(matches!(other.step, FileStep::Finished(FileOutcome::Changed)));
}

fn offer(announced_to: Vec<DeviceId>) -> FetchEvent {
    FetchEvent::OfferLoaded(Ok(Some(OfferFacts { announced_to, source_fits: true })))
}

fn refused(step: FetchStep) -> FetchRefusalCode {
    match step {
        FetchStep::Refuse(refusal) => refusal.code,
        _ => panic!("not refused"),
    }
}

#[test]
fn the_source_is_touched_only_for_an_announced_peer() {
    let peer = request().requester_device;
    let begin = || begin_fetch(&request(), request().source_device, peer);
    assert!(matches!(begin(), FetchStep::LoadOffer));
    let ok = handle_fetch(begin(), offer(vec![peer]), peer);
    assert!(matches!(ok, FetchStep::AcquireSlot));
    let ok = handle_fetch(ok, FetchEvent::SlotAcquired(Some(true)), peer);
    assert!(matches!(ok, FetchStep::BuildPlan));
    assert!(matches!(
        handle_fetch(ok, FetchEvent::PlanBuilt(Ok(())), peer),
        FetchStep::SendPlan
    ));
    assert_eq!(
        refused(handle_fetch(begin(), offer(vec![DeviceId::new()]), peer)),
        FetchRefusalCode::NotAnnouncedToRequester
    );
    assert_eq!(
        refused(handle_fetch(begin(), FetchEvent::OfferLoaded(Ok(None)), peer)),
        FetchRefusalCode::UnknownOffer
    );
    assert!(!matches!(
        begin_fetch(&request(), DeviceId::new(), peer),
        FetchStep::LoadOffer
    ));
    assert!(!matches!(
        begin_fetch(&request(), request().source_device, DeviceId::new()),
        FetchStep::LoadOffer
    ));
    for (failure, code) in [
        (SourceFailure::Changed, FetchRefusalCode::SourceChanged),
        (SourceFailure::Unavailable, FetchRefusalCode::SourceUnavailable),
    ] {
        assert_eq!(
            refused(handle_fetch(FetchStep::BuildPlan, FetchEvent::PlanBuilt(Err(failure)), peer)),
            code
        );
    }
}

#[test]
fn a_third_stream_is_refused_with_the_counts() {
    let peer = request().requester_device;
    let mut slots = StreamSlots::new();
    assert!(slots.try_acquire());
    assert!(slots.try_acquire());
    let third = slots.try_acquire();
    assert!(!third);
    assert_eq!(slots.active_counts(), (2, 2));
    let step =
        handle_fetch(FetchStep::AcquireSlot, FetchEvent::SlotAcquired(Some(third)), peer);
    let FetchStep::Refuse(refusal) = step else { panic!("not refused") };
    let refusal = send_refusal(&request(), refusal, &slots);
    assert_eq!(refusal.code, FetchRefusalCode::Busy);
    assert_eq!(refusal.active_streams, 2);
    assert_eq!(refusal.max_active_streams, 2);
    slots.release();
    assert!(slots.try_acquire());
}

fn activation(mode: ActivationMode) -> FetchActivation {
    FetchActivation::new(
        request().request_id,
        request().source_device,
        request().offer_id,
        mode,
        match mode {
            ActivationMode::Save => {
                Some(HostPath { text: "/downloads".to_owned(), absolute: true })
            }
            ActivationMode::Clipboard => None,
        },
    )
}

fn receive(mode: ActivationMode) -> Receive {
    Receive::receive_one(
        activation(mode),
        request().source_device,
        limits(),
        HostPath { text: "/cache".to_owned(), absolute: true },
        false,
        false,
    )
}

fn name(action: &ReceiveAction) -> String {
    let text = format!("{action:?}");
    text.split([' ', '(', '{']).next().expect("a word").to_owned()
}

/// Answers every action as if all went well.
fn well(action: &ReceiveAction, plan: &SourcePlan) -> ReceiveEvent {
    let local = || ReceiveEvent::Local { result: Ok(()), cancelled: false };
    match action {
        ReceiveAction::LoadCard => ReceiveEvent::CardLoaded(Ok(Some(plan.descriptor.clone()))),
        ReceiveAction::ReadHeader => ReceiveEvent::HeaderRead(Ok(fetch_header(&request(), plan))),
        ReceiveAction::ReadManifest => ReceiveEvent::ManifestRead(Ok(Manifest {
            entries: if plan.text.is_some() { Vec::new() } else { file_plan(plan.total_bytes).manifest },
            end: if plan.text.is_some() { None } else { Some(manifest_end(&request(), plan)) },
            encoded: if plan.text.is_some() { None } else { Some(ENCODED.to_vec()) },
        })),
        ReceiveAction::QueryUncertainty => {
            ReceiveEvent::UncertaintyRead { flagged: false, stored: Ok(false) }
        }
        ReceiveAction::Reserve(_) => ReceiveEvent::Reserved(Ok(())),
        ReceiveAction::WriteAdmission { .. } | ReceiveAction::SendReceipt(_) => {
            ReceiveEvent::Sent(Ok(()))
        }
        ReceiveAction::ReceivePayload => {
            ReceiveEvent::PayloadReceived { result: Ok(()), cancelled: false }
        }
        ReceiveAction::Publish => ReceiveEvent::Published(Ok(())),
        ReceiveAction::ApplySideEffect => ReceiveEvent::Applied(Ok(())),
        ReceiveAction::RecordAttempt(_) => ReceiveEvent::Recorded(Ok(())),
        ReceiveAction::CleanUp => ReceiveEvent::CleanedUp(Ok(())),
        ReceiveAction::Shutdown => ReceiveEvent::ShutDown,
        ReceiveAction::DropGuard => {
            ReceiveEvent::GuardDropped { staging_failed: false, journal_failed: false }
        }
        _ => local(),
    }
}

/// Runs an activation in which `upset` replaces some of the answers; the names of the
/// actions, the last receipt, and the result.
fn run(
    mut receive: Receive,
    plan: &SourcePlan,
    upset: impl Fn(&ReceiveAction) -> Option<ReceiveEvent>,
) -> (Vec<String>, Option<FetchReceiptCode>, Result<ActivationOutcome, NetError>) {
    let mut actions = Vec::new();
    let mut receipt = None;
    while !receive.is_done() {
        let action = receive.action();
        actions.push(name(&action));
        if let ReceiveAction::SendReceipt(note) = &action {
            receipt = Some(note.code);
        }
        let event = upset(&action).unwrap_or_else(|| well(&action, plan));
        receive = receive.handle(event).0;
        assert!(actions.len() < 100, "{actions:?}");
    }
    (actions, receipt, receive.receive())
}

fn at(actions: &[String], name: &str) -> usize {
    actions.iter().position(|action| action == name).unwrap_or_else(|| panic!("no {name} in {actions:?}"))
}

#[test]
fn a_completed_activation_sends_its_receipt_last() {
    for mode in [ActivationMode::Clipboard, ActivationMode::Save] {
        let plan = file_plan(3);
        let (actions, receipt, result) = run(receive(mode), &plan, |_| None);
        assert!(matches!(result, Ok(ActivationOutcome::Completed)), "{actions:?}");
        assert_eq!(receipt, Some(FetchReceiptCode::Completed));
        assert!(at(&actions, "ReadManifest") < at(&actions, "WriteAdmission"));
        assert!(at(&actions, "PrepareStaging") < at(&actions, "WriteAdmission"));
        assert!(at(&actions, "WriteAdmission") < at(&actions, "ReceivePayload"));
        assert!(at(&actions, "ReceivePayload") < at(&actions, "Publish"));
        assert!(at(&actions, "Publish") < at(&actions, "ApplySideEffect"));
        assert!(at(&actions, "ApplySideEffect") < at(&actions, "SendReceipt"));
    }
    let plan = text_plan("hello");
    let (actions, receipt, result) = run(receive(ActivationMode::Clipboard), &plan, |_| None);
    assert!(matches!(result, Ok(ActivationOutcome::Completed)), "{actions:?}");
    assert_eq!(receipt, Some(FetchReceiptCode::Completed));
}

#[test]
fn a_failed_preallocation_is_cleaned_before_it_is_refused() {
    let plan = file_plan(3);
    let (actions, receipt, result) = run(receive(ActivationMode::Save), &plan, |action| {
        matches!(action, ReceiveAction::PrepareStaging).then_some(ReceiveEvent::Local {
            result: Err("disk full".to_owned()),
            cancelled: false,
        })
    });
    assert!(at(&actions, "CleanUp") < at(&actions, "WriteAdmission"));
    assert!(!actions.contains(&"ReceivePayload".to_owned()));
    assert_ne!(receipt, Some(FetchReceiptCode::Completed));
    assert!(matches!(
        result,
        Ok(ActivationOutcome::Refused(ActivationRefuseCode::AllocationFailed))
    ));
}

#[test]
fn too_little_space_is_refused() {
    let plan = file_plan(3);
    let (_, _, result) = run(receive(ActivationMode::Save), &plan, |action| {
        matches!(action, ReceiveAction::Reserve(_)).then(|| {
            ReceiveEvent::Reserved(Err(ReservationError::InsufficientSpace {
                available: 1,
                active_reserved: 0,
                required: 2,
            }))
        })
    });
    assert!(matches!(
        result,
        Ok(ActivationOutcome::Refused(ActivationRefuseCode::InsufficientSpace))
    ));
}

#[test]
fn a_failed_payload_leaves_nothing_behind() {
    let plan = file_plan(3);
    for failure in [
        || ReceiveFailure::Verification { files: 0, bytes: 1, detail: "hash".to_owned() },
        || ReceiveFailure::Disconnected { files: 0, bytes: 1 },
        || ReceiveFailure::LocalCancelled { files: 0, bytes: 1 },
        || ReceiveFailure::Protocol { files: 0, bytes: 1, detail: "frame".to_owned() },
        || ReceiveFailure::LocalIo { files: 0, bytes: 1, detail: "write".to_owned() },
        || ReceiveFailure::Aborted { code: FetchAbortCode::SourceChanged, files: 0, bytes: 1 },
    ] {
        let (actions, receipt, result) = run(receive(ActivationMode::Save), &plan, |action| {
            matches!(action, ReceiveAction::ReceivePayload).then(|| ReceiveEvent::PayloadReceived {
                result: Err(failure()),
                cancelled: false,
            })
        });
        assert!(actions.contains(&"CleanUp".to_owned()), "{actions:?}");
        assert!(!actions.contains(&"Publish".to_owned()), "{actions:?}");
        assert_ne!(receipt, Some(FetchReceiptCode::Completed));
        assert!(!matches!(result, Ok(ActivationOutcome::Completed)));
        if let Some(sent) = actions.iter().position(|action| action == "SendReceipt") {
            assert!(at(&actions, "CleanUp") < sent);
        }
    }
}

#[test]
fn an_uncertain_clipboard_is_not_replayed() {
    let plan = file_plan(3);
    let (actions, receipt, result) = run(receive(ActivationMode::Clipboard), &plan, |action| {
        matches!(action, ReceiveAction::ApplySideEffect).then(|| {
            ReceiveEvent::Applied(Err(SideEffectFailure::Uncertain(NetError::FileTransfer(
                "worker stopped".to_owned(),
            ))))
        })
    });
    assert_eq!(receipt, Some(FetchReceiptCode::UncertainNoReplay), "{actions:?}");
    assert!(!matches!(result, Ok(ActivationOutcome::Completed)));
    let (actions, _, result) = run(receive(ActivationMode::Clipboard), &plan, |action| {
        matches!(action, ReceiveAction::QueryUncertainty)
            .then_some(ReceiveEvent::UncertaintyRead { flagged: true, stored: Ok(false) })
    });
    assert!(!actions.contains(&"ReceivePayload".to_owned()), "{actions:?}");
    assert!(!matches!(result, Ok(ActivationOutcome::Completed)));
}

#[test]
fn an_unresolved_cleanup_refuses_everything() {
    let receive = Receive::receive_one(
        activation(ActivationMode::Save),
        request().source_device,
        limits(),
        HostPath { text: "/cache".to_owned(), absolute: true },
        true,
        false,
    );
    let (actions, _, result) = run(receive, &file_plan(3), |_| None);
    assert!(!actions.contains(&"ReceivePayload".to_owned()), "{actions:?}");
    assert!(!matches!(result, Ok(ActivationOutcome::Completed)));
}

#[test]
fn recovery_cleans_then_sweeps() {
    let (step, effects) = startup_cleanup(RecoveryStep::CleanStore, RecoveryEvent::Local(Ok(())));
    assert!(matches!(step, RecoveryStep::QueryUncertainty));
    assert!(!effects.block_cleanup);
    let (step, effects) = startup_cleanup(step, RecoveryEvent::Uncertainty(Ok(true)));
    assert!(effects.set_uncertain);
    assert!(matches!(step, RecoveryStep::SweepCache));
    let (step, _) = startup_cleanup(step, RecoveryEvent::Local(Ok(())));
    assert!(matches!(step, RecoveryStep::Finished(Ok(()))));
    let (step, effects) =
        startup_cleanup(RecoveryStep::CleanStore, RecoveryEvent::Local(Err("io".to_owned())));
    assert!(matches!(step, RecoveryStep::Finished(Err(_))));
    assert!(effects.block_cleanup);
}

#[test]
fn only_unindexed_cache_objects_are_swept() {
    let name = Some(clipboard_cache_name(ActivationId::from_uuid(1)));
    let kept = Some("/cache/x".to_owned());
    assert!(cleanup_unindexed_cache_objects(&name, "/cache/y", &kept, &None));
    assert!(!cleanup_unindexed_cache_objects(&name, "/cache/x", &kept, &None));
    assert!(!cleanup_unindexed_cache_objects(&name, "/cache/x", &None, &kept));
    assert!(!cleanup_unindexed_cache_objects(&Some("other".to_owned()), "/cache/y", &None, &None));
}

#[test]
fn publication_tries_the_next_name_while_one_is_taken() {
    let mut publish = Publish::new(
        request().request_id,
        ActivationMode::Save,
        ContentKind::File,
        "f.txt".to_owned(),
        true,
    );
    let mut tried = Vec::new();
    loop {
        let event = match &publish.step {
            PublishStep::Finalize(name) => {
                tried.push(name.clone());
                let taken = tried.len() < 3;
                PublishEvent::Finalized {
                    result: if taken {
                        Err(NetError::FileTransfer("exists".to_owned()))
                    } else {
                        Ok(())
                    },
                    name_taken: taken,
                }
            }
            PublishStep::Finished(_) => break,
            _ => PublishEvent::Local(Ok(())),
        };
        publish = publish.handle(event, MessageId::from_uuid(9));
    }
    assert_eq!(tried, ["f.txt", "f (2).txt", "f (3).txt"]);
    assert!(matches!(
        publish.step,
        PublishStep::Finished(Ok(Some(name))) if name == "f (3).txt"
    ));
}

#[test]
fn the_clipboard_keeps_the_previous_content_until_the_new_one_is_set() {
    let effect = || {
        SideEffect::new(false, ActivationMode::Clipboard, None, Some("/cache/new".to_owned()))
            .apply_side_effect(SideEffectEvent::Local(Ok(())))
            .0
            .apply_side_effect(SideEffectEvent::Local(Ok(())))
            .0
    };
    assert!(matches!(effect().step, SideEffectStep::SetFiles(path) if path == "/cache/new"));
    let (set, _) = effect().apply_side_effect(SideEffectEvent::ClipboardSet(Ok(())));
    assert!(matches!(set.step, SideEffectStep::Promote));
    let (promoted, _) =
        set.apply_side_effect(SideEffectEvent::Promoted(Ok(Some("/cache/old".to_owned()))));
    assert!(matches!(promoted.step, SideEffectStep::RemovePrevious(path) if path == "/cache/old"));
    let (refused, _) = effect()
        .apply_side_effect(SideEffectEvent::ClipboardSet(Err(ClipboardError::new("no"))));
    assert!(!matches!(refused.step, SideEffectStep::RemovePrevious(_) | SideEffectStep::Promote));
    let (unsure, effects) = effect()
        .apply_side_effect(SideEffectEvent::ClipboardSet(Err(ClipboardError::uncertain("?"))));
    assert_eq!(effects.uncertain, Some(true));
    assert!(matches!(
        unsure.step,
        SideEffectStep::Finished(Err(SideEffectFailure::Uncertain(_)))
    ));
}

#[test]
fn a_completed_text_is_on_the_clipboard_exactly() {
    let text = "exactly this text 🙂";
    let plan = text_plan(text);
    let header = fetch_header(&request(), &plan);
    let (sent, transfer) = sent_text(text);
    let mut receive = receive(ActivationMode::Clipboard);
    let mut received = None;
    let mut clipboard = Vec::new();
    let mut note = None;
    while !receive.is_done() {
        let event = match receive.action() {
            ReceiveAction::ReceivePayload => {
                let payload = receive
                    .begin_payload()
                    .handle(PayloadEvent::Content(Ok(sent.clone())))
                    .handle(message(PayloadMessage::TextEnd(transfer.text_end())))
                    .handle(message(PayloadMessage::Complete(transfer.text_complete())));
                received = payload.text;
                ReceiveEvent::PayloadReceived { result: Ok(()), cancelled: false }
            }
            ReceiveAction::ApplySideEffect => {
                let mut effect = receive.begin_side_effect(received.take(), None);
                while !matches!(effect.step, SideEffectStep::Finished(_)) {
                    let event = match &effect.step {
                        SideEffectStep::SetText(text) => {
                            clipboard.push(text.clone());
                            SideEffectEvent::ClipboardSet(Ok(()))
                        }
                        _ => SideEffectEvent::Local(Ok(())),
                    };
                    effect = effect.apply_side_effect(event).0;
                }
                match effect.step {
                    SideEffectStep::Finished(result) => ReceiveEvent::Applied(result),
                    _ => unreachable!(),
                }
            }
            ReceiveAction::SendReceipt(sent) => {
                note = Some(sent);
                ReceiveEvent::Sent(Ok(()))
            }
            action => well(&action, &plan),
        };
        receive = receive.handle(event).0;
    }
    assert_eq!(clipboard, [text]);
    let note = note.expect("receipt");
    assert_eq!(note.code, FetchReceiptCode::Completed);
    assert_eq!(note.files, 0);
    assert_eq!(note.bytes, text.len() as u64);
    assert!(note.detail.is_none());
    assert!(header.text_sha256.is_some());
}

#[test]
fn a_text_that_was_not_kept_sets_nothing() {
    let (effect, _) = SideEffect::new(true, ActivationMode::Clipboard, None, None)
        .apply_side_effect(SideEffectEvent::Local(Ok(())));
    assert!(matches!(
        effect.step,
        SideEffectStep::Finished(Err(SideEffectFailure::Terminal(NetError::FetchServiceOwned(text))))
            if text == "text payload was not retained"
    ));
}

#[test]
fn a_journal_entry_owns_the_staging_of_its_activation() {
    let plan = file_plan(3);
    let mut receive = receive(ActivationMode::Save);
    while !matches!(receive.action(), ReceiveAction::Journal) {
        let event = well(&receive.action(), &plan);
        receive = receive.handle(event).0;
    }
    let entry =
        receive.journal_entry(HostPath { text: "/state/staging/1".to_owned(), absolute: true });
    assert_eq!(entry.activation_id, request().request_id);
    assert_eq!(entry.source_device, request().source_device);
    assert_eq!(entry.offer_id, request().offer_id);
    assert_eq!(entry.mode, ActivationMode::Save);
    assert_eq!(entry.staging_root.text, "/state/staging/1");
    assert_eq!(entry.state, ActivationState::Staging);
    assert_eq!(entry.reserved_entries, 1);
    assert_eq!(entry.reserved_bytes, 3);
    assert!(entry.validate().is_ok());
}

#[test]
fn a_failed_cleanup_says_what_failed() {
    assert!(cleanup_result(Ok(()), Ok(())).is_ok());
    assert!(matches!(
        cleanup_result(Err("busy".to_owned()), Ok(())),
        Err(NetError::FetchServiceOwned(text)) if text == "activation cleanup failed: busy"
    ));
    assert!(matches!(
        cleanup_result(Ok(()), Err(StoreError::new("locked"))),
        Err(NetError::FetchServiceOwned(text)) if text == "store error: locked"
    ));
}

#[test]
fn a_refused_fetch_carries_the_refusal() {
    let refusal = send_refusal(
        &request(),
        meshelf::send::Refusal { code: FetchRefusalCode::UnknownOffer, detail: None },
        &StreamSlots::new(),
    );
    assert!(matches!(
        read_header(Ok(HeaderFrame::Refusal(refusal, Ok(()))), &activation(ActivationMode::Save)),
        Err(NetError::FetchRefused { code: FetchRefusalCode::UnknownOffer, .. })
    ));
    let header = fetch_header(&request(), &text_plan("x"));
    assert!(read_header(Ok(HeaderFrame::Header(header)), &activation(ActivationMode::Save)).is_ok());
    assert!(read_header(Ok(HeaderFrame::Other), &activation(ActivationMode::Save)).is_err());
}

#[test]
fn a_broken_stream_is_told_from_a_broken_message() {
    let header = fetch_header(&request(), &text_plan("x"));
    let no_manifest = || Manifest { entries: Vec::new(), end: None, encoded: None };
    let lost = payload_for(&header, &no_manifest()).handle(PayloadEvent::Content(Err(
        ReadFault::Io { kind: IoKind::ConnectionReset, text: "reset".to_owned() },
    )));
    assert!(matches!(
        lost.step,
        PayloadStep::Finished(Err(ReceiveFailure::Io(NetError::Io(text)))) if text == "reset"
    ));
    let closed = payload_for(&header, &no_manifest())
        .handle(PayloadEvent::Content(Ok(b"x".to_vec())))
        .handle(PayloadEvent::Message(Err(ReadFault::Io {
            kind: IoKind::ConnectionReset,
            text: "reset".to_owned(),
        })));
    assert!(matches!(
        closed.step,
        PayloadStep::Finished(Err(ReceiveFailure::Disconnected { .. }))
    ));
    let garbled = payload_for(&header, &no_manifest())
        .handle(PayloadEvent::Content(Ok(b"x".to_vec())))
        .handle(PayloadEvent::Message(Err(ReadFault::Protocol("bad tag".to_owned()))));
    assert!(matches!(
        garbled.step,
        PayloadStep::Finished(Err(ReceiveFailure::Protocol { .. }))
    ));
    let aborted = payload_for(&header, &no_manifest())
        .handle(PayloadEvent::Content(Ok(b"x".to_vec())))
        .handle(message(PayloadMessage::Abort(FetchAbort {
            request_id: request().request_id,
            code: FetchAbortCode::InternalError,
            files_sent: 0,
            bytes_sent: 1,
        })));
    assert!(matches!(aborted.step, PayloadStep::Finished(Err(_))));
}

#[test]
fn details_are_made_safe() {
    assert_eq!(safe_detail("plain"), "plain");
    assert!(safe_detail(&"é".repeat(300)).len() <= 256);
}

#[test]
fn an_unknown_card_is_not_pulled() {
    let plan = file_plan(3);
    let (actions, _, result) = run(receive(ActivationMode::Save), &plan, |action| {
        matches!(action, ReceiveAction::LoadCard).then_some(ReceiveEvent::CardLoaded(Ok(None)))
    });
    assert!(!actions.contains(&"ReceivePayload".to_owned()), "{actions:?}");
    assert!(!matches!(result, Ok(ActivationOutcome::Completed)));
}

#[test]
fn the_awaited_files_are_those_of_the_accepted_manifest() {
    let plan = file_plan(3);
    let mut receive = receive(ActivationMode::Save);
    while !matches!(receive.action(), ReceiveAction::ReceivePayload) {
        let event = well(&receive.action(), &plan);
        receive = receive.handle(event).0;
    }
    assert_eq!(receive.entries.len(), 1);
    let payload = receive.begin_payload();
    assert_eq!(payload.files.len(), 1);
    assert_eq!(payload.files[0].entry_index, 0);
    assert_eq!(payload.files[0].byte_len, 3);
    assert!(matches!(payload.step, PayloadStep::ReadFileStart));
    let start = meshelf::wire::FileStart {
        request_id: request().request_id,
        entry_index: 0,
        byte_len: 3,
    };
    let end = |bytes: &[u8]| {
        message(PayloadMessage::FileEnd(meshelf::wire::FileEnd {
            request_id: request().request_id,
            entry_index: 0,
            sha256: Sha256::digest(bytes).to_vec(),
        }))
    };
    let written = |payload: PayloadReceive| {
        payload
            .handle(PayloadEvent::Content(Ok(b"abc".to_vec())))
            .handle(PayloadEvent::Local(Ok(())))
            .handle(PayloadEvent::Local(Ok(())))
    };
    let closed = written(payload.handle(message(PayloadMessage::FileStart(start)))).handle(end(b"abc"));
    assert!(matches!(closed.step, PayloadStep::ReadComplete));
    assert_eq!(closed.files_received, 1);
    let again = meshelf::wire::FileStart {
        request_id: request().request_id,
        entry_index: 0,
        byte_len: 3,
    };
    let other = written(receive.begin_payload().handle(message(PayloadMessage::FileStart(again))))
        .handle(end(b"abd"));
    assert!(matches!(
        other.step,
        PayloadStep::Finished(Err(ReceiveFailure::Verification { files: 0, .. }))
    ));
}

#[test]
fn nothing_counts_as_sent_before_the_first_file_ends() {
    let mut transfer = Transfer::new(request(), file_plan(3), 1, 4);
    while !matches!(transfer.step, TransferStep::SendFile(0)) {
        assert_eq!((transfer.files_sent, transfer.bytes_sent), (0, 0));
        let event = match &transfer.step {
            TransferStep::ReadAdmission => admission(FetchAdmissionCode::Accepted),
            TransferStep::RecheckBefore => TransferEvent::Rechecked(Ok(file_plan(3))),
            _ => TransferEvent::Wrote(Ok(())),
        };
        transfer = transfer.send_plan(event);
    }
    assert_eq!((transfer.files_sent, transfer.bytes_sent), (0, 0));
    let transfer = transfer.send_plan(TransferEvent::FileSent(FileOutcome::Unavailable));
    let TransferStep::WriteAbort(code) = &transfer.step else { panic!("not aborted") };
    let abort = transfer.send_abort(*code);
    assert_eq!((abort.files_sent, abort.bytes_sent), (0, 0));
}

#[test]
fn content_for_the_clipboard_has_the_name_of_its_activation() {
    let id = request().request_id;
    let mut publish =
        Publish::new(id, ActivationMode::Clipboard, ContentKind::File, "f".to_owned(), true);
    for _ in 0..2 {
        publish = publish.handle(PublishEvent::Local(Ok(())), MessageId::from_uuid(9));
    }
    assert!(matches!(
        &publish.step,
        PublishStep::Finalize(name) if *name == clipboard_cache_name(id)
    ));
    let taken = PublishEvent::Finalized {
        result: Err(NetError::FileTransfer("taken".to_owned())),
        name_taken: true,
    };
    let publish = publish.handle(taken, MessageId::from_uuid(9));
    assert!(matches!(publish.step, PublishStep::Finished(Err(_))));
}

#[test]
fn behind_the_last_number_a_name_ends_in_an_identifier() {
    let id = request().request_id;
    let mut publish =
        Publish::new(id, ActivationMode::Save, ContentKind::File, "f.txt".to_owned(), true);
    let mut tried = 0;
    loop {
        let event = match &publish.step {
            PublishStep::Finalize(name) => {
                tried += 1;
                if tried == 10_000 {
                    assert_eq!(*name, format!("f.txt.{}", MessageId::from_uuid(9).text()));
                    PublishEvent::Finalized { result: Ok(()), name_taken: false }
                } else {
                    PublishEvent::Finalized {
                        result: Err(NetError::FileTransfer("taken".to_owned())),
                        name_taken: true,
                    }
                }
            }
            PublishStep::Finished(_) => break,
            _ => PublishEvent::Local(Ok(())),
        };
        publish = publish.handle(event, MessageId::from_uuid(9));
    }
    assert_eq!(tried, 10_000);
    assert!(matches!(publish.step, PublishStep::Finished(Ok(Some(_)))));
}
