use meshelf::net_error::NetError;
use meshelf::outcome::{
    classify_activation_result, ActivationFailCode, ActivationOutcome, ActivationRefuseCode,
};
use meshelf::wire::{FetchAbortCode, FetchAdmissionCode, FetchReceiptCode, FetchRefusalCode};

#[test]
fn desktop_status_names_completion_only_for_completed() {
    let completed = ActivationOutcome::Completed.desktop_status();
    assert!(
        completed.to_ascii_lowercase().contains("completed"),
        "{completed}"
    );
    let non_completed = [
        ActivationOutcome::Refused(ActivationRefuseCode::SourceUnavailable),
        ActivationOutcome::Refused(ActivationRefuseCode::SourceChanged),
        ActivationOutcome::Refused(ActivationRefuseCode::DestinationUnavailable),
        ActivationOutcome::Refused(ActivationRefuseCode::InsufficientSpace),
        ActivationOutcome::Refused(ActivationRefuseCode::AllocationFailed),
        ActivationOutcome::Refused(ActivationRefuseCode::InvalidManifest),
        ActivationOutcome::Refused(ActivationRefuseCode::Busy),
        ActivationOutcome::Refused(ActivationRefuseCode::DuplicateActivation),
        ActivationOutcome::Failed(ActivationFailCode::SourceUnavailable),
        ActivationOutcome::Failed(ActivationFailCode::SourceChanged),
        ActivationOutcome::Failed(ActivationFailCode::VerificationFailed),
        ActivationOutcome::Failed(ActivationFailCode::ClipboardFailed),
        ActivationOutcome::Failed(ActivationFailCode::ConnectionLost),
        ActivationOutcome::Failed(ActivationFailCode::LocalIo),
        ActivationOutcome::Failed(ActivationFailCode::Protocol),
        ActivationOutcome::Failed(ActivationFailCode::InternalError),
        ActivationOutcome::Cancelled,
        ActivationOutcome::UncertainNoReplay,
    ];
    for outcome in non_completed {
        let status = outcome.desktop_status();
        assert!(
            !status.to_ascii_lowercase().contains("completed"),
            "{outcome:?} displayed as {status}"
        );
    }
}

#[test]
fn abort_codes_are_not_collapsed_to_cancelled() {
    assert_eq!(
        ActivationOutcome::from(FetchAbortCode::SourceUnavailable),
        ActivationOutcome::Failed(ActivationFailCode::SourceUnavailable)
    );
    assert_eq!(
        ActivationOutcome::from(FetchAbortCode::SourceChanged),
        ActivationOutcome::Failed(ActivationFailCode::SourceChanged)
    );
    assert_eq!(
        ActivationOutcome::from(FetchAbortCode::InternalError),
        ActivationOutcome::Failed(ActivationFailCode::InternalError)
    );
    assert_eq!(
        ActivationOutcome::from(FetchAbortCode::Cancelled),
        ActivationOutcome::Cancelled
    );
}

#[test]
fn local_storage_failure_is_not_connection_lost() {
    let outcome = classify_activation_result(Err(NetError::FetchLocalIo {
        files_processed: 1,
        bytes_processed: 3,
        detail: Some("disk full".to_owned()),
    }))
    .expect("classified");
    assert_eq!(
        outcome,
        ActivationOutcome::Failed(ActivationFailCode::LocalIo)
    );
    let status = outcome.desktop_status().to_ascii_lowercase();
    assert!(status.contains("local storage"), "{status}");
    assert!(!status.contains("connection lost"), "{status}");
}

#[test]
fn malformed_protocol_is_not_connection_lost() {
    let outcome = classify_activation_result(Err(NetError::Protocol("empty frame".to_owned())))
        .expect("classified");
    assert_eq!(
        outcome,
        ActivationOutcome::Failed(ActivationFailCode::Protocol)
    );
    let status = outcome.desktop_status().to_ascii_lowercase();
    assert!(status.contains("protocol"), "{status}");
    assert!(!status.contains("connection lost"), "{status}");
    let unexpected = classify_activation_result(Err(NetError::UnexpectedMessage(
        "expected file_start".to_owned(),
    )))
    .expect("classified unexpected");
    assert_eq!(
        unexpected,
        ActivationOutcome::Failed(ActivationFailCode::Protocol)
    );
}

#[test]
fn transport_io_remains_connection_lost() {
    let outcome =
        classify_activation_result(Err(NetError::Io("peer reset".to_owned()))).expect("classified");
    assert_eq!(
        outcome,
        ActivationOutcome::Failed(ActivationFailCode::ConnectionLost)
    );
}

#[test]
fn a_fetch_that_ends_well_is_completed() {
    assert_eq!(classify_activation_result(Ok(())).expect("completed"), ActivationOutcome::Completed);
    assert!(ActivationOutcome::Completed.is_completed());
    assert!(!ActivationOutcome::Cancelled.is_completed());
}

#[test]
fn refusals_and_receipts_keep_their_meaning() {
    let refused = classify_activation_result(Err(NetError::FetchRefused {
        code: FetchRefusalCode::Busy,
        active_streams: 2,
        max_active_streams: 2,
        detail: None,
    }))
    .expect("refused");
    assert_eq!(refused, ActivationOutcome::Refused(ActivationRefuseCode::Busy));
    let admission = classify_activation_result(Err(NetError::FetchAdmissionRefused {
        code: FetchAdmissionCode::InsufficientSpace,
        entries_reserved: 0,
        bytes_reserved: 0,
        detail: None,
    }))
    .expect("admission");
    assert_eq!(
        admission,
        ActivationOutcome::Refused(ActivationRefuseCode::InsufficientSpace)
    );
    let uncertain = classify_activation_result(Err(NetError::FetchTerminal {
        code: FetchReceiptCode::UncertainNoReplay,
        files_processed: 0,
        bytes_processed: 0,
        detail: None,
    }))
    .expect("uncertain");
    assert_eq!(uncertain, ActivationOutcome::UncertainNoReplay);
    let aborted = classify_activation_result(Err(NetError::FetchAborted {
        code: FetchAbortCode::SourceChanged,
        files_processed: 1,
        bytes_processed: 2,
        detail: None,
    }))
    .expect("aborted");
    assert_eq!(
        aborted,
        ActivationOutcome::Failed(ActivationFailCode::SourceChanged)
    );
}
