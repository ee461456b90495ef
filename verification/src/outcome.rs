//! The typed result of an activation.
use vstd::prelude::*;

use crate::net_error::NetError;
use crate::text::{
    ascii_lower, ascii_lower_char, contains_text, has_part, join3, part_at,
};
use crate::wire::{FetchAbortCode, FetchAdmissionCode, FetchReceiptCode, FetchRefusalCode};

verus! {

/// Why an activation was refused before any content moved.
#[derive(Debug, Clone, Copy, PartialEq, Eq, Structural)]
pub enum ActivationRefuseCode {
    UnknownOffer,
    NotAnnouncedToRequester,
    SourceUnavailable,
    SourceChanged,
    Busy,
    Malformed,
    Unsupported,
    InvalidManifest,
    TooLarge,
    InsufficientSpace,
    DestinationUnavailable,
    AllocationFailed,
    UnsupportedMode,
    DuplicateActivation,
}

impl ActivationRefuseCode {
    /// The words shown for the code.
    pub open spec fn words(self) -> Seq<char> {
        match self {
            ActivationRefuseCode::UnknownOffer => "unknown offer"@,
            ActivationRefuseCode::NotAnnouncedToRequester => "not announced to requester"@,
            ActivationRefuseCode::SourceUnavailable => "source unavailable"@,
            ActivationRefuseCode::SourceChanged => "source changed"@,
            ActivationRefuseCode::Busy => "busy"@,
            ActivationRefuseCode::Malformed => "malformed"@,
            ActivationRefuseCode::Unsupported => "unsupported"@,
            ActivationRefuseCode::InvalidManifest => "invalid manifest"@,
            ActivationRefuseCode::TooLarge => "too large"@,
            ActivationRefuseCode::InsufficientSpace => "insufficient space"@,
            ActivationRefuseCode::DestinationUnavailable => "destination unavailable"@,
            ActivationRefuseCode::AllocationFailed => "allocation failed"@,
            ActivationRefuseCode::UnsupportedMode => "unsupported mode"@,
            ActivationRefuseCode::DuplicateActivation => "duplicate activation"@,
        }
    }

    /// The words shown for the code.
    #[must_use]
    pub fn text(self) -> (r: &'static str)
        ensures
            r@ == self.words(),
    {
        match self {
            ActivationRefuseCode::UnknownOffer => "unknown offer",
            ActivationRefuseCode::NotAnnouncedToRequester => "not announced to requester",
            ActivationRefuseCode::SourceUnavailable => "source unavailable",
            ActivationRefuseCode::SourceChanged => "source changed",
            ActivationRefuseCode::Busy => "busy",
            ActivationRefuseCode::Malformed => "malformed",
            ActivationRefuseCode::Unsupported => "unsupported",
            ActivationRefuseCode::InvalidManifest => "invalid manifest",
            ActivationRefuseCode::TooLarge => "too large",
            ActivationRefuseCode::InsufficientSpace => "insufficient space",
            ActivationRefuseCode::DestinationUnavailable => "destination unavailable",
            ActivationRefuseCode::AllocationFailed => "allocation failed",
            ActivationRefuseCode::UnsupportedMode => "unsupported mode",
            ActivationRefuseCode::DuplicateActivation => "duplicate activation",
        }
    }
}

/// Why an admitted activation failed.
#[derive(Debug, Clone, Copy, PartialEq, Eq, Structural)]
pub enum ActivationFailCode {
    SourceUnavailable,
    SourceChanged,
    VerificationFailed,
    ClipboardFailed,
    ConnectionLost,
    LocalIo,
    Protocol,
    InternalError,
}

impl ActivationFailCode {
    /// The words shown for the code.
    pub open spec fn words(self) -> Seq<char> {
        match self {
            ActivationFailCode::SourceUnavailable => "source unavailable"@,
            ActivationFailCode::SourceChanged => "source changed"@,
            ActivationFailCode::VerificationFailed => "verification failed"@,
            ActivationFailCode::ClipboardFailed => "clipboard failed"@,
            ActivationFailCode::ConnectionLost => "connection lost"@,
            ActivationFailCode::LocalIo => "local storage failed"@,
            ActivationFailCode::Protocol => "protocol error"@,
            ActivationFailCode::InternalError => "internal error"@,
        }
    }

    /// The words shown for the code.
    #[must_use]
    pub fn text(self) -> (r: &'static str)
        ensures
            r@ == self.words(),
    {
        match self {
            ActivationFailCode::SourceUnavailable => "source unavailable",
            ActivationFailCode::SourceChanged => "source changed",
            ActivationFailCode::VerificationFailed => "verification failed",
            ActivationFailCode::ClipboardFailed => "clipboard failed",
            ActivationFailCode::ConnectionLost => "connection lost",
            ActivationFailCode::LocalIo => "local storage failed",
            ActivationFailCode::Protocol => "protocol error",
            ActivationFailCode::InternalError => "internal error",
        }
    }
}

/// How an activation ended.
#[derive(Debug, Clone, Copy, PartialEq, Eq, Structural)]
pub enum ActivationOutcome {
    Completed,
    Refused(ActivationRefuseCode),
    Failed(ActivationFailCode),
    Cancelled,
    UncertainNoReplay,
}

impl ActivationOutcome {
    /// The status line for the outcome.
    pub open spec fn status(self) -> Seq<char> {
        match self {
            ActivationOutcome::Completed => "Offer activation completed"@,
            ActivationOutcome::Refused(code) => "Offer activation refused ("@ + code.words()
                + ")"@,
            ActivationOutcome::Failed(code) => "Offer activation failed ("@ + code.words() + ")"@,
            ActivationOutcome::Cancelled => "Offer activation cancelled"@,
            ActivationOutcome::UncertainNoReplay =>
                "Offer activation is uncertain and will not be replayed"@,
        }
    }

    /// The status line for the outcome.
    #[must_use]
    pub fn desktop_status(&self) -> (r: String)
        ensures
            r@ == self.status(),
    {
        match *self {
            ActivationOutcome::Completed => "Offer activation completed".to_owned(),
            ActivationOutcome::Refused(code) => join3(
                "Offer activation refused (",
                code.text(),
                ")",
            ),
            ActivationOutcome::Failed(code) => join3(
                "Offer activation failed (",
                code.text(),
                ")",
            ),
            ActivationOutcome::Cancelled => "Offer activation cancelled".to_owned(),
            ActivationOutcome::UncertainNoReplay =>
                "Offer activation is uncertain and will not be replayed".to_owned(),
        }
    }

    #[must_use]
    pub fn is_completed(self) -> (r: bool)
        ensures
            r == (self is Completed),
    {
        matches!(self, ActivationOutcome::Completed)
    }
}

/// The refusal that an origin gave.
pub open spec fn refusal_of(code: FetchRefusalCode) -> ActivationRefuseCode {
    match code {
        FetchRefusalCode::UnknownOffer => ActivationRefuseCode::UnknownOffer,
        FetchRefusalCode::NotAnnouncedToRequester => ActivationRefuseCode::NotAnnouncedToRequester,
        FetchRefusalCode::SourceUnavailable => ActivationRefuseCode::SourceUnavailable,
        FetchRefusalCode::SourceChanged => ActivationRefuseCode::SourceChanged,
        FetchRefusalCode::Busy => ActivationRefuseCode::Busy,
        FetchRefusalCode::Malformed => ActivationRefuseCode::Malformed,
        FetchRefusalCode::Unsupported => ActivationRefuseCode::Unsupported,
    }
}

impl vstd::std_specs::convert::FromSpecImpl<FetchRefusalCode> for ActivationRefuseCode {
    open spec fn obeys_from_spec() -> bool {
        true
    }

    open spec fn from_spec(code: FetchRefusalCode) -> ActivationRefuseCode {
        refusal_of(code)
    }
}

impl From<FetchRefusalCode> for ActivationRefuseCode {
    fn from(code: FetchRefusalCode) -> (r: ActivationRefuseCode) {
        match code {
            FetchRefusalCode::UnknownOffer => ActivationRefuseCode::UnknownOffer,
            FetchRefusalCode::NotAnnouncedToRequester => ActivationRefuseCode::NotAnnouncedToRequester,
            FetchRefusalCode::SourceUnavailable => ActivationRefuseCode::SourceUnavailable,
            FetchRefusalCode::SourceChanged => ActivationRefuseCode::SourceChanged,
            FetchRefusalCode::Busy => ActivationRefuseCode::Busy,
            FetchRefusalCode::Malformed => ActivationRefuseCode::Malformed,
            FetchRefusalCode::Unsupported => ActivationRefuseCode::Unsupported,
        }
    }
}

/// The outcome that an admission code stands for.
pub open spec fn admission_outcome(code: FetchAdmissionCode) -> ActivationOutcome {
    match code {
        FetchAdmissionCode::Accepted => ActivationOutcome::Completed,
        FetchAdmissionCode::Cancelled => ActivationOutcome::Cancelled,
        FetchAdmissionCode::RefusedBusy => ActivationOutcome::Refused(ActivationRefuseCode::Busy),
        FetchAdmissionCode::InvalidManifest => ActivationOutcome::Refused(ActivationRefuseCode::InvalidManifest),
        FetchAdmissionCode::TooLarge => ActivationOutcome::Refused(ActivationRefuseCode::TooLarge),
        FetchAdmissionCode::InsufficientSpace => ActivationOutcome::Refused(ActivationRefuseCode::InsufficientSpace),
        FetchAdmissionCode::DestinationUnavailable => ActivationOutcome::Refused(ActivationRefuseCode::DestinationUnavailable),
        FetchAdmissionCode::AllocationFailed => ActivationOutcome::Refused(ActivationRefuseCode::AllocationFailed),
        FetchAdmissionCode::UnsupportedMode => ActivationOutcome::Refused(ActivationRefuseCode::UnsupportedMode),
    }
}

impl vstd::std_specs::convert::FromSpecImpl<FetchAdmissionCode> for ActivationOutcome {
    open spec fn obeys_from_spec() -> bool {
        true
    }

    open spec fn from_spec(code: FetchAdmissionCode) -> ActivationOutcome {
        admission_outcome(code)
    }
}

impl From<FetchAdmissionCode> for ActivationOutcome {
    fn from(code: FetchAdmissionCode) -> (r: ActivationOutcome) {
        match code {
            FetchAdmissionCode::Accepted => ActivationOutcome::Completed,
            FetchAdmissionCode::Cancelled => ActivationOutcome::Cancelled,
            FetchAdmissionCode::RefusedBusy => ActivationOutcome::Refused(ActivationRefuseCode::Busy),
            FetchAdmissionCode::InvalidManifest => ActivationOutcome::Refused(ActivationRefuseCode::InvalidManifest),
            FetchAdmissionCode::TooLarge => ActivationOutcome::Refused(ActivationRefuseCode::TooLarge),
            FetchAdmissionCode::InsufficientSpace => ActivationOutcome::Refused(ActivationRefuseCode::InsufficientSpace),
            FetchAdmissionCode::DestinationUnavailable => ActivationOutcome::Refused(ActivationRefuseCode::DestinationUnavailable),
            FetchAdmissionCode::AllocationFailed => ActivationOutcome::Refused(ActivationRefuseCode::AllocationFailed),
            FetchAdmissionCode::UnsupportedMode => ActivationOutcome::Refused(ActivationRefuseCode::UnsupportedMode),
        }
    }
}

/// The outcome that an abort code stands for.
pub open spec fn abort_outcome(code: FetchAbortCode) -> ActivationOutcome {
    match code {
        FetchAbortCode::Cancelled => ActivationOutcome::Cancelled,
        FetchAbortCode::SourceUnavailable => ActivationOutcome::Failed(ActivationFailCode::SourceUnavailable),
        FetchAbortCode::SourceChanged => ActivationOutcome::Failed(ActivationFailCode::SourceChanged),
        FetchAbortCode::InternalError => ActivationOutcome::Failed(ActivationFailCode::InternalError),
    }
}

impl vstd::std_specs::convert::FromSpecImpl<FetchAbortCode> for ActivationOutcome {
    open spec fn obeys_from_spec() -> bool {
        true
    }

    open spec fn from_spec(code: FetchAbortCode) -> ActivationOutcome {
        abort_outcome(code)
    }
}

impl From<FetchAbortCode> for ActivationOutcome {
    fn from(code: FetchAbortCode) -> (r: ActivationOutcome) {
        match code {
            FetchAbortCode::Cancelled => ActivationOutcome::Cancelled,
            FetchAbortCode::SourceUnavailable => ActivationOutcome::Failed(ActivationFailCode::SourceUnavailable),
            FetchAbortCode::SourceChanged => ActivationOutcome::Failed(ActivationFailCode::SourceChanged),
            FetchAbortCode::InternalError => ActivationOutcome::Failed(ActivationFailCode::InternalError),
        }
    }
}

/// The outcome that a receipt code stands for.
pub open spec fn receipt_outcome(code: FetchReceiptCode) -> ActivationOutcome {
    match code {
        FetchReceiptCode::Completed => ActivationOutcome::Completed,
        FetchReceiptCode::Cancelled => ActivationOutcome::Cancelled,
        FetchReceiptCode::UncertainNoReplay => ActivationOutcome::UncertainNoReplay,
        FetchReceiptCode::VerificationFailed => ActivationOutcome::Failed(ActivationFailCode::VerificationFailed),
        FetchReceiptCode::ClipboardFailed => ActivationOutcome::Failed(ActivationFailCode::ClipboardFailed),
        FetchReceiptCode::ConnectionLost => ActivationOutcome::Failed(ActivationFailCode::ConnectionLost),
        FetchReceiptCode::InternalError => ActivationOutcome::Failed(ActivationFailCode::InternalError),
    }
}

impl vstd::std_specs::convert::FromSpecImpl<FetchReceiptCode> for ActivationOutcome {
    open spec fn obeys_from_spec() -> bool {
        true
    }

    open spec fn from_spec(code: FetchReceiptCode) -> ActivationOutcome {
        receipt_outcome(code)
    }
}

impl From<FetchReceiptCode> for ActivationOutcome {
    fn from(code: FetchReceiptCode) -> (r: ActivationOutcome) {
        match code {
            FetchReceiptCode::Completed => ActivationOutcome::Completed,
            FetchReceiptCode::Cancelled => ActivationOutcome::Cancelled,
            FetchReceiptCode::UncertainNoReplay => ActivationOutcome::UncertainNoReplay,
            FetchReceiptCode::VerificationFailed => ActivationOutcome::Failed(ActivationFailCode::VerificationFailed),
            FetchReceiptCode::ClipboardFailed => ActivationOutcome::Failed(ActivationFailCode::ClipboardFailed),
            FetchReceiptCode::ConnectionLost => ActivationOutcome::Failed(ActivationFailCode::ConnectionLost),
            FetchReceiptCode::InternalError => ActivationOutcome::Failed(ActivationFailCode::InternalError),
        }
    }
}

/// Whether a refusal speaks of unresolved cleanup or of an uncertain clipboard.
pub open spec fn says_busy(reason: Seq<char>) -> bool {
    has_part(reason, "cleanup is unresolved"@) || has_part(reason, "uncertain"@)
}

/// Whether a refusal speaks of the destination.
pub open spec fn says_destination(reason: Seq<char>) -> bool {
    has_part(reason, "destination"@) || has_part(reason, "absolute"@)
}

/// The outcome that a failure stands for; `None` where it stays an error.
pub open spec fn outcome_of(error: NetError<Seq<char>>) -> Option<ActivationOutcome> {
    match error {
        NetError::FetchRefused { code, .. } => Some(ActivationOutcome::Refused(refusal_of(code))),
        NetError::FetchAdmissionRefused { code, .. } => Some(admission_outcome(code)),
        NetError::FetchTerminal { code, .. } => Some(receipt_outcome(code)),
        NetError::FetchAborted { code, .. } => Some(abort_outcome(code)),
        NetError::Rejected(reason) => if says_busy(reason) {
            Some(ActivationOutcome::Refused(ActivationRefuseCode::Busy))
        } else if says_destination(reason) {
            Some(ActivationOutcome::Refused(ActivationRefuseCode::DestinationUnavailable))
        } else {
            None
        },
        NetError::IdentityMismatch(_) => Some(
            ActivationOutcome::Refused(ActivationRefuseCode::Malformed),
        ),
        NetError::Timeout(_) | NetError::Io(_) => Some(
            ActivationOutcome::Failed(ActivationFailCode::ConnectionLost),
        ),
        NetError::Protocol(_) | NetError::UnexpectedMessage(_) => Some(
            ActivationOutcome::Failed(ActivationFailCode::Protocol),
        ),
        NetError::FetchLocalIo { .. } => Some(
            ActivationOutcome::Failed(ActivationFailCode::LocalIo),
        ),
        NetError::FetchServiceOwned(_) | NetError::FetchService(_) | NetError::OfferStorage(_) =>
            Some(ActivationOutcome::Failed(ActivationFailCode::InternalError)),
        _ => None,
    }
}

/// The view of a result whose error is a `NetError`.
pub open spec fn result_view<T>(r: Result<T, NetError>) -> Result<T, NetError<Seq<char>>> {
    match r {
        Ok(value) => Ok(value),
        Err(error) => Err(error@),
    }
}

/// What the result of a fetch amounts to.
pub open spec fn classified(
    result: Result<(), NetError<Seq<char>>>,
) -> Result<ActivationOutcome, NetError<Seq<char>>> {
    match result {
        Ok(()) => Ok(ActivationOutcome::Completed),
        Err(error) => match outcome_of(error) {
            Some(outcome) => Ok(outcome),
            None => Err(error),
        },
    }
}

/// Maps the result of a fetch to the outcome of the activation; failures that
/// say nothing about the activation stay errors.
pub fn classify_activation_result(result: Result<(), NetError>) -> (r: Result<
    ActivationOutcome,
    NetError,
>)
    ensures
        result_view(r) == classified(result_view(result)),
{
    let error = match result {
        Ok(()) => {
            return Ok(ActivationOutcome::Completed);
        },
        Err(error) => error,
    };
    match &error {
        NetError::FetchRefused { code, .. } => {
            return Ok(ActivationOutcome::Refused(ActivationRefuseCode::from(*code)));
        },
        NetError::FetchAdmissionRefused { code, .. } => {
            return Ok(ActivationOutcome::from(*code));
        },
        NetError::FetchTerminal { code, .. } => {
            return Ok(ActivationOutcome::from(*code));
        },
        NetError::FetchAborted { code, .. } => {
            return Ok(ActivationOutcome::from(*code));
        },
        NetError::Rejected(reason) => {
            if contains_text(reason.as_str(), "cleanup is unresolved") || contains_text(
                reason.as_str(),
                "uncertain",
            ) {
                return Ok(ActivationOutcome::Refused(ActivationRefuseCode::Busy));
            }
            if contains_text(reason.as_str(), "destination") || contains_text(
                reason.as_str(),
                "absolute",
            ) {
                return Ok(ActivationOutcome::Refused(ActivationRefuseCode::DestinationUnavailable));
            }
        },
        NetError::IdentityMismatch(_) => {
            return Ok(ActivationOutcome::Refused(ActivationRefuseCode::Malformed));
        },
        NetError::Timeout(_) | NetError::Io(_) => {
            return Ok(ActivationOutcome::Failed(ActivationFailCode::ConnectionLost));
        },
        NetError::Protocol(_) | NetError::UnexpectedMessage(_) => {
            return Ok(ActivationOutcome::Failed(ActivationFailCode::Protocol));
        },
        NetError::FetchLocalIo { .. } => {
            return Ok(ActivationOutcome::Failed(ActivationFailCode::LocalIo));
        },
        NetError::FetchServiceOwned(_) | NetError::FetchService(_) | NetError::OfferStorage(_) => {
            return Ok(ActivationOutcome::Failed(ActivationFailCode::InternalError));
        },
        _ => {},
    }
    Err(error)
}

/// A failure counts as completed only where it carries a code that itself means
/// success.
pub proof fn lemma_failure_is_not_completion(error: NetError<Seq<char>>)
    requires
        !(error matches NetError::FetchTerminal { code: FetchReceiptCode::Completed, .. }),
        !(error matches NetError::FetchAdmissionRefused { code: FetchAdmissionCode::Accepted, .. }),
    ensures
        classified(Err(error)) != Ok::<ActivationOutcome, NetError<Seq<char>>>(
            ActivationOutcome::Completed,
        ),
{
}

/// The abort codes of an origin stay apart: each gives an outcome of its own.
pub proof fn lemma_abort_codes_stay_apart(a: FetchAbortCode, b: FetchAbortCode)
    requires
        a != b,
    ensures
        abort_outcome(a) != abort_outcome(b),
{
}

/// Only a completed activation has a status line that speaks of completion, in
/// whatever case: in every other line no "m" stands before a "p".
pub proof fn lemma_status_names_completion(outcome: ActivationOutcome)
    ensures
        has_part(ascii_lower(outcome.status()), "completed"@) <==> outcome is Completed,
{
    reveal_strlit("completed");
    reveal_strlit("Offer activation completed");
    reveal_strlit("Offer activation refused (");
    reveal_strlit("Offer activation failed (");
    reveal_strlit(")");
    reveal_strlit("Offer activation cancelled");
    reveal_strlit("Offer activation is uncertain and will not be replayed");
    reveal_strlit("allocation failed");
    reveal_strlit("busy");
    reveal_strlit("clipboard failed");
    reveal_strlit("connection lost");
    reveal_strlit("destination unavailable");
    reveal_strlit("duplicate activation");
    reveal_strlit("insufficient space");
    reveal_strlit("internal error");
    reveal_strlit("invalid manifest");
    reveal_strlit("local storage failed");
    reveal_strlit("malformed");
    reveal_strlit("not announced to requester");
    reveal_strlit("protocol error");
    reveal_strlit("source changed");
    reveal_strlit("source unavailable");
    reveal_strlit("too large");
    reveal_strlit("unknown offer");
    reveal_strlit("unsupported");
    reveal_strlit("unsupported mode");
    reveal_strlit("verification failed");
    let s = outcome.status();
    let lower = ascii_lower(s);
    let part = "completed"@;
    if outcome is Completed {
        assert(lower.subrange(17, 26) =~= part);
        assert(part_at(lower, part, 17));
    } else {
        assert forall|i: int| 0 <= i <= lower.len() - part.len() implies !(#[trigger] part_at(
            lower,
            part,
            i,
        )) by {
            if part_at(lower, part, i) {
                assert(lower.subrange(i, i + part.len())[2] == part[2]);
                assert(lower.subrange(i, i + part.len())[3] == part[3]);
                assert(ascii_lower_char(s[i + 2]) == 'm' && ascii_lower_char(s[i + 3]) == 'p');
                assert(s.len() <= 54);
                lemma_no_m_before_p(outcome, i + 2);
            }
        }
    }
}

proof fn lemma_no_m_before_p(outcome: ActivationOutcome, j: int)
    requires
        !(outcome is Completed),
        0 <= j < outcome.status().len() - 1,
    ensures
        !(ascii_lower_char(outcome.status()[j]) == 'm' && ascii_lower_char(outcome.status()[j + 1])
            == 'p'),
{
    reveal_strlit("completed");
    reveal_strlit("Offer activation completed");
    reveal_strlit("Offer activation refused (");
    reveal_strlit("Offer activation failed (");
    reveal_strlit(")");
    reveal_strlit("Offer activation cancelled");
    reveal_strlit("Offer activation is uncertain and will not be replayed");
    reveal_strlit("allocation failed");
    reveal_strlit("busy");
    reveal_strlit("clipboard failed");
    reveal_strlit("connection lost");
    reveal_strlit("destination unavailable");
    reveal_strlit("duplicate activation");
    reveal_strlit("insufficient space");
    reveal_strlit("internal error");
    reveal_strlit("invalid manifest");
    reveal_strlit("local storage failed");
    reveal_strlit("malformed");
    reveal_strlit("not announced to requester");
    reveal_strlit("protocol error");
    reveal_strlit("source changed");
    reveal_strlit("source unavailable");
    reveal_strlit("too large");
    reveal_strlit("unknown offer");
    reveal_strlit("unsupported");
    reveal_strlit("unsupported mode");
    reveal_strlit("verification failed");
    let s = outcome.status();
    assert(s.len() <= 54);
    assert(j == 0 || j == 1 || j == 2 || j == 3 || j == 4 || j == 5 || j == 6 || j == 7 || j == 8
        || j == 9 || j == 10 || j == 11 || j == 12 || j == 13 || j == 14 || j == 15 || j == 16
        || j == 17 || j == 18 || j == 19 || j == 20 || j == 21 || j == 22 || j == 23 || j ==
        24 || j == 25 || j == 26 || j == 27 || j == 28 || j == 29 || j == 30 || j == 31 || j
        == 32 || j == 33 || j == 34 || j == 35 || j == 36 || j == 37 || j == 38 || j == 39 ||
        j == 40 || j == 41 || j == 42 || j == 43 || j == 44 || j == 45 || j == 46 || j == 47
        || j == 48 || j == 49 || j == 50 || j == 51 || j == 52 || j == 53);
}

} // verus!
