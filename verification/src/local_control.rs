//! Requests to the resident process, and its responses.
use vstd::prelude::*;

use crate::activation::ActivationMode;
use crate::coordinator::{ActivationPlan, OfferPlan, PeerAnnouncement};
use crate::ids::{ActivationId, DeviceId, OfferId};
use crate::offer::{OfferDescriptor, MAX_TEXT_BYTES};
use crate::offer_source::OfferInput;
use crate::settings::UserSettings;
use crate::store::OfferCardRecord;
use crate::text::{byte_len, byte_length, decimal, decimal_text, join2, join3};

verus! {

/// The most bytes of an encoded request: a text may grow six-fold when it is
/// escaped, and the rest of a request is small.
pub const MAX_CONTROL_REQUEST_BYTES: usize = MAX_TEXT_BYTES * 6 + 16 * 1024;

pub const MAX_SERIALIZED_TEXT_REQUEST_BYTES: usize = MAX_CONTROL_REQUEST_BYTES;

/// What a local program asks the resident process for.
#[derive(Debug)]
pub enum LocalRequest {
    AnnounceText { text: String },
    AnnouncePath { path: String },
    RecordExplicitRefusal { offer_id: OfferId, recipient: DeviceId },
    GetSettings,
    SetSettings { settings: UserSettings },
    Shelf,
    ActivateOffer { offer_id: OfferId, mode: ActivationMode },
    CancelActivation { activation_id: ActivationId },
}

/// What the resident process answers.
#[derive(Debug)]
pub enum LocalResponse {
    OfferCreated {
        offer_id: OfferId,
        descriptor: OfferDescriptor,
        announcements: Vec<PeerAnnouncement>,
    },
    NoPeers,
    RefusalRecorded,
    Settings { settings: UserSettings },
    Shelf { offers: Vec<OfferCardRecord> },
    ActivationStarted { activation_id: ActivationId, offer_id: OfferId, mode: ActivationMode },
    ActivationCancelled { activation_id: ActivationId },
    ActivationRefused { message: String },
    Error { message: String },
}

/// What a binary attaches to the resident process.
pub trait LocalRuntime {
    fn announce(&self, plan: &OfferPlan) -> Result<(), String>;

    fn activate(&self, plan: &ActivationPlan) -> Result<(), String>;
}

/// Attaches nothing.
#[derive(Debug, Clone, Copy, PartialEq, Eq, Structural)]
pub struct NoopRuntime;

impl Default for NoopRuntime {
    fn default() -> (r: Self)
        ensures
            r == NoopRuntime,
    {
        NoopRuntime
    }
}

impl LocalRuntime for NoopRuntime {
    fn announce(&self, plan: &OfferPlan) -> (r: Result<(), String>)
        ensures
            r is Ok,
    {
        Ok(())
    }

    fn activate(&self, plan: &ActivationPlan) -> (r: Result<(), String>)
        ensures
            r is Ok,
    {
        Ok(())
    }
}

/// Where a request stands.
#[derive(Debug)]
pub enum DispatchStep {
    CreateOffer(OfferInput),
    Announce(OfferPlan),
    RecordRefusal { offer_id: OfferId, recipient: DeviceId },
    LoadSettings,
    StoreSettings(UserSettings),
    ReadShelf,
    PlanActivation { offer_id: OfferId, mode: ActivationMode },
    Activate(ActivationPlan),
    Respond(LocalResponse),
}

/// The outcome of a step.
#[derive(Debug)]
pub enum DispatchEvent {
    OfferCreated(Result<Option<OfferPlan>, String>),
    /// The outcome of an announcement, of an activation or of a refusal.
    Done(Result<(), String>),
    Settings(Result<UserSettings, String>),
    Shelf(Result<Vec<OfferCardRecord>, String>),
    Planned(Result<ActivationPlan, String>),
}

/// Whether a text is too long to be announced.
pub open spec fn text_too_long(request: LocalRequest) -> bool {
    request matches LocalRequest::AnnounceText { text } && byte_len(text@) > MAX_TEXT_BYTES
}

/// Whether the response is an error with this text.
pub open spec fn error_response(step: DispatchStep, text: Seq<char>) -> bool {
    step matches DispatchStep::Respond(LocalResponse::Error { message }) && message@ == text
}

/// The first step of a request.
pub fn dispatch(request: LocalRequest) -> (r: DispatchStep)
    ensures
        text_too_long(request) ==> error_response(r, "text exceeds the 1 MiB meshelf limit"@),
        !text_too_long(request) ==> match request {
            LocalRequest::AnnounceText { text } => r == DispatchStep::CreateOffer(
                OfferInput::Text(text),
            ),
            LocalRequest::AnnouncePath { path } => r == DispatchStep::CreateOffer(
                OfferInput::Path(path),
            ),
            LocalRequest::RecordExplicitRefusal { offer_id, recipient } => r == (
            DispatchStep::RecordRefusal { offer_id, recipient }),
            LocalRequest::GetSettings => r == DispatchStep::LoadSettings,
            LocalRequest::SetSettings { settings } => r == DispatchStep::StoreSettings(settings),
            LocalRequest::Shelf => r == DispatchStep::ReadShelf,
            LocalRequest::ActivateOffer { offer_id, mode } => r == (DispatchStep::PlanActivation {
                offer_id,
                mode,
            }),
            LocalRequest::CancelActivation { activation_id } => r == DispatchStep::Respond(
                LocalResponse::ActivationCancelled { activation_id },
            ),
        },
{
    match request {
        LocalRequest::AnnounceText { text } => {
            if byte_length(text.as_str()) > MAX_TEXT_BYTES {
                return DispatchStep::Respond(
                    LocalResponse::Error {
                        message: "text exceeds the 1 MiB meshelf limit".to_owned(),
                    },
                );
            }
            DispatchStep::CreateOffer(OfferInput::Text(text))
        },
        LocalRequest::AnnouncePath { path } => DispatchStep::CreateOffer(OfferInput::Path(path)),
        LocalRequest::RecordExplicitRefusal { offer_id, recipient } =>
            DispatchStep::RecordRefusal { offer_id, recipient },
        LocalRequest::GetSettings => DispatchStep::LoadSettings,
        LocalRequest::SetSettings { settings } => DispatchStep::StoreSettings(settings),
        LocalRequest::Shelf => DispatchStep::ReadShelf,
        LocalRequest::ActivateOffer { offer_id, mode } => DispatchStep::PlanActivation {
            offer_id,
            mode,
        },
        LocalRequest::CancelActivation { activation_id } => DispatchStep::Respond(
            LocalResponse::ActivationCancelled { activation_id },
        ),
    }
}

pub open spec fn respond_error(message: String) -> DispatchStep {
    DispatchStep::Respond(LocalResponse::Error { message })
}

pub open spec fn respond_refused(message: String) -> DispatchStep {
    DispatchStep::Respond(LocalResponse::ActivationRefused { message })
}

/// The step after an event; one that does not answer the current step changes nothing.
pub open spec fn dispatch_next(step: DispatchStep, event: DispatchEvent) -> DispatchStep {
    match (step, event) {
        (DispatchStep::CreateOffer(_), DispatchEvent::OfferCreated(Ok(Some(plan)))) =>
            DispatchStep::Announce(plan),
        (DispatchStep::CreateOffer(_), DispatchEvent::OfferCreated(Ok(None))) =>
            DispatchStep::Respond(LocalResponse::NoPeers),
        (DispatchStep::CreateOffer(_), DispatchEvent::OfferCreated(Err(message))) => respond_error(
            message,
        ),
        (DispatchStep::Announce(plan), DispatchEvent::Done(Ok(()))) => DispatchStep::Respond(
            LocalResponse::OfferCreated {
                offer_id: plan.offer_id,
                descriptor: plan.descriptor,
                announcements: plan.announcements,
            },
        ),
        (DispatchStep::Announce(_), DispatchEvent::Done(Err(message))) => respond_error(message),
        (DispatchStep::RecordRefusal { .. }, DispatchEvent::Done(Ok(()))) => DispatchStep::Respond(
            LocalResponse::RefusalRecorded,
        ),
        (DispatchStep::RecordRefusal { .. }, DispatchEvent::Done(Err(message))) => respond_error(
            message,
        ),
        (DispatchStep::LoadSettings, DispatchEvent::Settings(Ok(settings)))
        | (DispatchStep::StoreSettings(_), DispatchEvent::Settings(Ok(settings))) =>
            DispatchStep::Respond(LocalResponse::Settings { settings }),
        (DispatchStep::LoadSettings, DispatchEvent::Settings(Err(message)))
        | (DispatchStep::StoreSettings(_), DispatchEvent::Settings(Err(message))) => respond_error(
            message,
        ),
        (DispatchStep::ReadShelf, DispatchEvent::Shelf(Ok(offers))) => DispatchStep::Respond(
            LocalResponse::Shelf { offers },
        ),
        (DispatchStep::ReadShelf, DispatchEvent::Shelf(Err(message))) => respond_error(message),
        (DispatchStep::PlanActivation { .. }, DispatchEvent::Planned(Ok(plan))) =>
            DispatchStep::Activate(plan),
        (DispatchStep::PlanActivation { .. }, DispatchEvent::Planned(Err(message))) =>
            respond_refused(message),
        (DispatchStep::Activate(plan), DispatchEvent::Done(Ok(()))) => DispatchStep::Respond(
            LocalResponse::ActivationStarted {
                activation_id: plan.activation_id,
                offer_id: plan.offer_id,
                mode: plan.mode,
            },
        ),
        (DispatchStep::Activate(_), DispatchEvent::Done(Err(message))) => respond_refused(message),
        _ => step,
    }
}

/// Takes the outcome of the current step of a request.
pub fn dispatch_with_runtime(step: DispatchStep, event: DispatchEvent) -> (r: DispatchStep)
    ensures
        r == dispatch_next(step, event),
{
    match (step, event) {
        (DispatchStep::CreateOffer(_), DispatchEvent::OfferCreated(result)) => match result {
            Ok(Some(plan)) => DispatchStep::Announce(plan),
            Ok(None) => DispatchStep::Respond(LocalResponse::NoPeers),
            Err(message) => DispatchStep::Respond(LocalResponse::Error { message }),
        },
        (DispatchStep::Announce(plan), DispatchEvent::Done(result)) => match result {
            Ok(()) => DispatchStep::Respond(
                LocalResponse::OfferCreated {
                    offer_id: plan.offer_id,
                    descriptor: plan.descriptor,
                    announcements: plan.announcements,
                },
            ),
            Err(message) => DispatchStep::Respond(LocalResponse::Error { message }),
        },
        (DispatchStep::RecordRefusal { .. }, DispatchEvent::Done(result)) => match result {
            Ok(()) => DispatchStep::Respond(LocalResponse::RefusalRecorded),
            Err(message) => DispatchStep::Respond(LocalResponse::Error { message }),
        },
        (DispatchStep::LoadSettings, DispatchEvent::Settings(result)) => match result {
            Ok(settings) => DispatchStep::Respond(LocalResponse::Settings { settings }),
            Err(message) => DispatchStep::Respond(LocalResponse::Error { message }),
        },
        (DispatchStep::StoreSettings(_), DispatchEvent::Settings(result)) => match result {
            Ok(settings) => DispatchStep::Respond(LocalResponse::Settings { settings }),
            Err(message) => DispatchStep::Respond(LocalResponse::Error { message }),
        },
        (DispatchStep::ReadShelf, DispatchEvent::Shelf(result)) => match result {
            Ok(offers) => DispatchStep::Respond(LocalResponse::Shelf { offers }),
            Err(message) => DispatchStep::Respond(LocalResponse::Error { message }),
        },
        (DispatchStep::PlanActivation { .. }, DispatchEvent::Planned(result)) => match result {
            Ok(plan) => DispatchStep::Activate(plan),
            Err(message) => DispatchStep::Respond(LocalResponse::ActivationRefused { message }),
        },
        (DispatchStep::Activate(plan), DispatchEvent::Done(result)) => match result {
            Ok(()) => DispatchStep::Respond(
                LocalResponse::ActivationStarted {
                    activation_id: plan.activation_id,
                    offer_id: plan.offer_id,
                    mode: plan.mode,
                },
            ),
            Err(message) => DispatchStep::Respond(LocalResponse::ActivationRefused { message }),
        },
        (step, _) => step,
    }
}

/// "serialized control request is {n} bytes; maximum is {limit}"
pub open spec fn oversized_request(bytes: nat) -> Seq<char> {
    "serialized control request is "@ + decimal(bytes) + " bytes; maximum is "@ + decimal(
        MAX_SERIALIZED_TEXT_REQUEST_BYTES as nat,
    )
}

/// Checks the length of an encoded request, before it is sent or read.
pub fn decode_request(encoded_bytes: usize) -> (r: Result<(), String>)
    ensures
        r is Ok <==> encoded_bytes <= MAX_SERIALIZED_TEXT_REQUEST_BYTES,
        r matches Err(error) ==> error@ == oversized_request(encoded_bytes as nat),
{
    if encoded_bytes > MAX_SERIALIZED_TEXT_REQUEST_BYTES {
        let head = join3(
            "serialized control request is ",
            decimal_text(encoded_bytes as u64).as_str(),
            " bytes; maximum is ",
        );
        return Err(
            join2(
                head.as_str(),
                decimal_text(MAX_SERIALIZED_TEXT_REQUEST_BYTES as u64).as_str(),
            ),
        );
    }
    Ok(())
}

/// Checks a request before it is encoded.
pub fn encode_request(request: &LocalRequest) -> (r: Result<(), String>)
    ensures
        r is Err <==> text_too_long(*request),
        r matches Err(error) ==> error@ == "text exceeds the 1 MiB meshelf limit"@,
{
    if let LocalRequest::AnnounceText { text } = request {
        if byte_length(text.as_str()) > MAX_TEXT_BYTES {
            return Err("text exceeds the 1 MiB meshelf limit".to_owned());
        }
    }
    Ok(())
}

/// Nothing is announced that was not stored, and nothing is activated that was not
/// planned.
pub proof fn lemma_effects_follow_plans(step: DispatchStep, event: DispatchEvent)
    requires
        dispatch_next(step, event) != step,
    ensures
        dispatch_next(step, event) is Announce ==> step is CreateOffer && (
        event matches DispatchEvent::OfferCreated(Ok(Some(plan))) && dispatch_next(step, event)
            == DispatchStep::Announce(plan)),
        dispatch_next(step, event) is Activate ==> step is PlanActivation && (
        event matches DispatchEvent::Planned(Ok(plan)) && dispatch_next(step, event)
            == DispatchStep::Activate(plan)),
{
}

} // verus!
