//! The origin's side of one fetch: who may fetch, and what is sent.
//!
//! The caller performs the current step and hands back its outcome.  No source is
//! touched before the requester has passed every check.
use vstd::prelude::*;
use vstd::utf8::encode_utf8;

use crate::digest::{sha256, sha256_of};
use crate::ids::{ActivationId, DeviceId, OfferId};
use crate::manifest::HeaderView;
use crate::net_error::NetError;
use crate::payload::least;
use crate::source_plan::{PlanView, SourceFailure, SourcePlan};
use crate::text::opt_view;
use crate::wire::{
    opt_bytes, FetchHeader, FetchRefusal, FetchRefusalCode, ManifestEnd,
    V2_MAX_ACTIVE_PAYLOAD_STREAMS,
};

verus! {

/// A request for one offer.
#[derive(Debug, Clone, Copy, PartialEq, Eq, Structural)]
pub struct FetchRequest {
    pub request_id: ActivationId,
    pub offer_id: OfferId,
    pub source_device: DeviceId,
    pub requester_device: DeviceId,
}

impl FetchRequest {
    /// A request under a fresh identifier.
    pub fn new(offer_id: OfferId, source_device: DeviceId, requester_device: DeviceId) -> (r: Self)
        ensures
            r.offer_id == offer_id,
            r.source_device == source_device,
            r.requester_device == requester_device,
            crate::ids::random_shape(r.request_id.0),
    {
        FetchRequest { request_id: ActivationId::new(), offer_id, source_device, requester_device }
    }
}

/// The payloads that an origin is sending.
#[derive(Debug)]
pub struct StreamSlots {
    active: u32,
}

impl StreamSlots {
    pub closed spec fn in_use(self) -> u32 {
        self.active
    }

    /// No more payloads are sent than there are slots.
    pub open spec fn wf(self) -> bool {
        self.in_use() <= V2_MAX_ACTIVE_PAYLOAD_STREAMS
    }

    /// Slots that are all free.
    #[must_use]
    pub fn new() -> (r: Self)
        ensures
            r.wf(),
            r.in_use() == 0,
    {
        StreamSlots { active: 0 }
    }

    /// The slots in use and all slots.
    #[must_use]
    pub fn active_counts(&self) -> (r: (u32, u32))
        ensures
            r == (self.in_use(), V2_MAX_ACTIVE_PAYLOAD_STREAMS),
    {
        (self.active, V2_MAX_ACTIVE_PAYLOAD_STREAMS)
    }

    /// Takes a free slot, if there is one.
    pub fn try_acquire(&mut self) -> (r: bool)
        requires
            old(self).wf(),
        ensures
            final(self).wf(),
            r == (old(self).in_use() < V2_MAX_ACTIVE_PAYLOAD_STREAMS),
            final(self).in_use() == old(self).in_use() + if r {
                1int
            } else {
                0int
            },
    {
        if self.active < V2_MAX_ACTIVE_PAYLOAD_STREAMS {
            self.active = self.active + 1;
            true
        } else {
            false
        }
    }

    /// Gives a slot back.
    pub fn release(&mut self)
        requires
            old(self).wf(),
        ensures
            final(self).wf(),
            final(self).in_use() == if old(self).in_use() > 0 {
                old(self).in_use() - 1
            } else {
                0
            },
    {
        if self.active > 0 {
            self.active = self.active - 1;
        }
    }
}

impl Default for StreamSlots {
    fn default() -> (r: Self)
        ensures
            r.wf(),
            r.in_use() == 0,
    {
        StreamSlots::new()
    }
}

/// What an origin's store knows of an offer, as far as a fetch is decided by it.
#[derive(Debug)]
pub struct OfferFacts {
    pub announced_to: Vec<DeviceId>,
    /// Whether the stored source fits its descriptor.
    pub source_fits: bool,
}

/// A refusal of a fetch; `S` is the type of its detail.
#[derive(Debug)]
pub struct Refusal<S = String> {
    pub code: FetchRefusalCode,
    pub detail: Option<S>,
}

/// Where the answer to a request stands; `S` is the type of the texts.
#[derive(Debug)]
pub enum FetchStep<S = String> {
    /// Look the offer up.
    LoadOffer,
    /// Take a free slot.
    AcquireSlot,
    /// Rebuild the plan from the live source.
    BuildPlan,
    /// Answer with a refusal.
    Refuse(Refusal<S>),
    /// Send what was planned.
    SendPlan,
    Finished(Result<(), NetError<S>>),
}

/// The outcome of a step of the answer.
#[derive(Debug)]
pub enum FetchEvent {
    OfferLoaded(Result<Option<OfferFacts>, String>),
    /// Whether a slot was free; `None` where there are no slots any more.
    SlotAcquired(Option<bool>),
    PlanBuilt(Result<(), SourceFailure>),
    Sent(Result<(), NetError>),
}

pub open spec fn fetch_step_view(step: FetchStep) -> FetchStep<Seq<char>> {
    match step {
        FetchStep::LoadOffer => FetchStep::LoadOffer,
        FetchStep::AcquireSlot => FetchStep::AcquireSlot,
        FetchStep::BuildPlan => FetchStep::BuildPlan,
        FetchStep::Refuse(refusal) => FetchStep::Refuse(
            Refusal { code: refusal.code, detail: opt_view(refusal.detail) },
        ),
        FetchStep::SendPlan => FetchStep::SendPlan,
        FetchStep::Finished(Ok(())) => FetchStep::Finished(Ok(())),
        FetchStep::Finished(Err(error)) => FetchStep::Finished(Err(error@)),
    }
}

pub open spec fn refuse(
    code: FetchRefusalCode,
    detail: Option<Seq<char>>,
) -> FetchStep<Seq<char>> {
    FetchStep::Refuse(Refusal { code, detail })
}

/// The first step: the request must name this origin and the authenticated peer.
pub open spec fn first_fetch_step(
    request: FetchRequest,
    origin: DeviceId,
    authenticated: DeviceId,
) -> FetchStep<Seq<char>> {
    if request.source_device != origin {
        refuse(
            FetchRefusalCode::Malformed,
            Some("source device does not match this origin"@),
        )
    } else if request.requester_device != authenticated {
        refuse(
            FetchRefusalCode::Malformed,
            Some("requester device does not match the authenticated peer"@),
        )
    } else {
        FetchStep::LoadOffer
    }
}

/// The step after the offer was looked up.
pub open spec fn offer_step(
    facts: Option<OfferFacts>,
    authenticated: DeviceId,
) -> FetchStep<Seq<char>> {
    match facts {
        None => refuse(FetchRefusalCode::UnknownOffer, None),
        Some(facts) => if !facts.announced_to@.contains(authenticated) {
            refuse(FetchRefusalCode::NotAnnouncedToRequester, None)
        } else if !facts.source_fits {
            refuse(
                FetchRefusalCode::Malformed,
                Some("stored offer source does not match its descriptor"@),
            )
        } else {
            FetchStep::AcquireSlot
        },
    }
}

/// The refusal for a source that cannot be sent.
pub open spec fn source_refusal(failure: SourceFailure) -> FetchStep<Seq<char>> {
    match failure {
        SourceFailure::Unavailable => refuse(FetchRefusalCode::SourceUnavailable, None),
        SourceFailure::Changed => refuse(FetchRefusalCode::SourceChanged, None),
        SourceFailure::Malformed => refuse(
            FetchRefusalCode::Malformed,
            Some("source cannot be represented by the v2 manifest"@),
        ),
    }
}

/// The step after an event; one that does not answer the current step changes nothing.
pub open spec fn fetch_next(
    step: FetchStep<Seq<char>>,
    event: FetchEvent,
    authenticated: DeviceId,
) -> FetchStep<Seq<char>> {
    match (step, event) {
        (FetchStep::LoadOffer, FetchEvent::OfferLoaded(Ok(facts))) => offer_step(
            facts,
            authenticated,
        ),
        (FetchStep::LoadOffer, FetchEvent::OfferLoaded(Err(s))) => FetchStep::Finished(
            Err(NetError::OfferStorage(s@)),
        ),
        (FetchStep::AcquireSlot, FetchEvent::SlotAcquired(Some(true))) => FetchStep::BuildPlan,
        (FetchStep::AcquireSlot, FetchEvent::SlotAcquired(Some(false))) => refuse(
            FetchRefusalCode::Busy,
            Some("origin payload capacity is full"@),
        ),
        (FetchStep::AcquireSlot, FetchEvent::SlotAcquired(None)) => FetchStep::Finished(
            Err(NetError::FetchService("payload stream limit is closed"@)),
        ),
        (FetchStep::BuildPlan, FetchEvent::PlanBuilt(Ok(()))) => FetchStep::SendPlan,
        (FetchStep::BuildPlan, FetchEvent::PlanBuilt(Err(failure))) => source_refusal(failure),
        (FetchStep::Refuse(_), FetchEvent::Sent(result))
        | (FetchStep::SendPlan, FetchEvent::Sent(result)) => FetchStep::Finished(
            crate::outcome::result_view(result),
        ),
        _ => step,
    }
}

fn refuse_step(code: FetchRefusalCode, detail: Option<String>) -> (r: FetchStep)
    ensures
        fetch_step_view(r) == refuse(code, opt_view(detail)),
{
    FetchStep::Refuse(Refusal { code, detail })
}

/// Starts the answer to a request.
pub fn begin_fetch(request: &FetchRequest, origin: DeviceId, authenticated: DeviceId) -> (r:
    FetchStep)
    ensures
        fetch_step_view(r) == first_fetch_step(*request, origin, authenticated),
{
    if request.source_device != origin {
        return refuse_step(
            FetchRefusalCode::Malformed,
            Some("source device does not match this origin".to_owned()),
        );
    }
    if request.requester_device != authenticated {
        return refuse_step(
            FetchRefusalCode::Malformed,
            Some("requester device does not match the authenticated peer".to_owned()),
        );
    }
    FetchStep::LoadOffer
}

/// Whether a device is in a list.
pub fn device_in(list: &Vec<DeviceId>, device: DeviceId) -> (r: bool)
    ensures
        r == list@.contains(device),
{
    let mut i: usize = 0;
    while i < list.len()
        invariant
            i <= list@.len(),
            forall|k: int| 0 <= k < i ==> list@[k] != device,
        decreases list@.len() - i,
    {
        if list[i] == device {
            assert(list@[i as int] == device);
            return true;
        }
        i = i + 1;
    }
    false
}

/// Takes the outcome of the current step of the answer.
pub fn handle_fetch(step: FetchStep, event: FetchEvent, authenticated: DeviceId) -> (r: FetchStep)
    ensures
        fetch_step_view(r) == fetch_next(fetch_step_view(step), event, authenticated),
{
    match (step, event) {
        (FetchStep::LoadOffer, FetchEvent::OfferLoaded(result)) => match result {
            Err(s) => FetchStep::Finished(Err(NetError::OfferStorage(s))),
            Ok(None) => refuse_step(FetchRefusalCode::UnknownOffer, None),
            Ok(Some(facts)) => {
                if !device_in(&facts.announced_to, authenticated) {
                    refuse_step(FetchRefusalCode::NotAnnouncedToRequester, None)
                } else if !facts.source_fits {
                    refuse_step(
                        FetchRefusalCode::Malformed,
                        Some("stored offer source does not match its descriptor".to_owned()),
                    )
                } else {
                    FetchStep::AcquireSlot
                }
            },
        },
        (FetchStep::AcquireSlot, FetchEvent::SlotAcquired(slot)) => match slot {
            Some(true) => FetchStep::BuildPlan,
            Some(false) => refuse_step(
                FetchRefusalCode::Busy,
                Some("origin payload capacity is full".to_owned()),
            ),
            None => FetchStep::Finished(
                Err(NetError::FetchService("payload stream limit is closed".to_owned())),
            ),
        },
        (FetchStep::BuildPlan, FetchEvent::PlanBuilt(result)) => match result {
            Ok(()) => FetchStep::SendPlan,
            Err(SourceFailure::Unavailable) => refuse_step(
                FetchRefusalCode::SourceUnavailable,
                None,
            ),
            Err(SourceFailure::Changed) => refuse_step(FetchRefusalCode::SourceChanged, None),
            Err(SourceFailure::Malformed) => refuse_step(
                FetchRefusalCode::Malformed,
                Some("source cannot be represented by the v2 manifest".to_owned()),
            ),
        },
        (FetchStep::Refuse(_), FetchEvent::Sent(result)) => FetchStep::Finished(result),
        (FetchStep::SendPlan, FetchEvent::Sent(result)) => FetchStep::Finished(result),
        (step, _) => step,
    }
}

/// The refusal as it is sent, with the slots in use at that moment.
pub fn send_refusal(request: &FetchRequest, refusal: Refusal, slots: &StreamSlots) -> (r:
    FetchRefusal)
    ensures
        r.request_id == request.request_id,
        r.offer_id == request.offer_id,
        r.code == refusal.code,
        r.active_streams == slots.in_use(),
        r.max_active_streams == V2_MAX_ACTIVE_PAYLOAD_STREAMS,
        opt_view(r.detail) == opt_view(refusal.detail),
{
    let (active_streams, max_active_streams) = slots.active_counts();
    FetchRefusal {
        request_id: request.request_id,
        offer_id: request.offer_id,
        code: refusal.code,
        active_streams,
        max_active_streams,
        detail: refusal.detail,
    }
}

/// The live source is touched only for a requester that the offer was announced
/// to, and only under a slot.
pub proof fn lemma_source_is_touched_last(
    step: FetchStep<Seq<char>>,
    event: FetchEvent,
    authenticated: DeviceId,
)
    requires
        !(step is BuildPlan),
    ensures
        fetch_next(step, event, authenticated) is BuildPlan ==> step is AcquireSlot && event
            == FetchEvent::SlotAcquired(Some(true)),
        !(step is AcquireSlot) && fetch_next(step, event, authenticated) is AcquireSlot
            ==> step is LoadOffer && (event matches FetchEvent::OfferLoaded(Ok(Some(facts)))
            && facts.announced_to@.contains(authenticated) && facts.source_fits),
{
}

/// A refusal that a live source causes names no detail of the host.
pub proof fn lemma_source_refusals_name_no_path(failure: SourceFailure)
    ensures
        source_refusal(failure) matches FetchStep::Refuse(refusal) && (refusal.detail is None
            || refusal.detail == Some("source cannot be represented by the v2 manifest"@)),
{
}

/// The header of a plan, as a value.
pub open spec fn plan_header(request: FetchRequest, plan: PlanView) -> HeaderView {
    HeaderView {
        request_id: request.request_id,
        offer_id: request.offer_id,
        descriptor: plan.descriptor,
        manifest_entries: least(plan.manifest.len() as int, u32::MAX as int) as u32,
        manifest_encoded_bytes: plan.manifest_encoded_bytes as u64,
        manifest_sha256: plan.manifest_sha256,
        text_sha256: match plan.text {
            Some(text) => Some(sha256(encode_utf8(text))),
            None => None,
        },
    }
}

fn clone_digest(digest: &Option<Vec<u8>>) -> (r: Option<Vec<u8>>)
    ensures
        opt_bytes(r) == opt_bytes(*digest),
{
    match digest {
        Some(bytes) => Some(bytes.clone()),
        None => None,
    }
}

fn count_of(n: usize) -> (r: u32)
    ensures
        r == least(n as int, u32::MAX as int),
{
    if n <= u32::MAX as usize {
        n as u32
    } else {
        u32::MAX
    }
}

/// The header that announces a plan.
#[must_use]
pub fn fetch_header(request: &FetchRequest, plan: &SourcePlan) -> (r: FetchHeader)
    ensures
        r@ == plan_header(*request, plan@),
{
    FetchHeader {
        request_id: request.request_id,
        offer_id: request.offer_id,
        descriptor: plan.descriptor.clone(),
        manifest_entries: count_of(plan.manifest.len()),
        manifest_encoded_bytes: plan.manifest_encoded_bytes as u64,
        manifest_sha256: clone_digest(&plan.manifest_sha256),
        text_sha256: match &plan.text {
            Some(text) => Some(sha256_of(text.as_str().as_bytes())),
            None => None,
        },
    }
}

/// The end of the manifest of a plan, as a value.
pub open spec fn plan_manifest_end(
    request: FetchRequest,
    plan: PlanView,
) -> crate::manifest::ManifestEndView {
    crate::manifest::ManifestEndView {
        request_id: request.request_id,
        entry_count: least(plan.manifest.len() as int, u32::MAX as int) as u32,
        file_count: least(plan.files.len() as int, u32::MAX as int) as u32,
        total_bytes: plan.total_bytes,
        manifest_sha256: match plan.manifest_sha256 {
            Some(digest) => digest,
            None => Seq::empty(),
        },
    }
}

/// The message that closes the manifest of a plan.
#[must_use]
pub fn manifest_end(request: &FetchRequest, plan: &SourcePlan) -> (r: ManifestEnd)
    ensures
        r@ == plan_manifest_end(*request, plan@),
{
    ManifestEnd {
        request_id: request.request_id,
        entry_count: count_of(plan.manifest.len()),
        file_count: count_of(plan.files.len()),
        total_bytes: plan.total_bytes,
        manifest_sha256: match &plan.manifest_sha256 {
            Some(digest) => digest.clone(),
            None => Vec::new(),
        },
    }
}

} // verus!
