//! Who is let in, who is asked, and what is answered.
use vstd::prelude::*;

use crate::activation::FetchActivation;
use crate::announce::OfferAnnouncement;
use crate::client::{announce_error, same_fetch, speaks_v2};
use crate::connection::{connection_next, ConnectionEvent, ConnectionStep, Operation};
use crate::controller::MESHELF_PORT;
use crate::desktop::{approval, PeerLookup};
use crate::ids::{hyphenated, DeviceId};
use crate::net::{bind_error, first_v4, preferred_ip, IpAddress, SocketAddress};
use crate::net_error::NetError;
use crate::report::says_protocol_update;
use crate::send::{fetch_next, first_fetch_step, FetchEvent, FetchRequest, FetchStep, OfferFacts};
use crate::source_plan::SourceFailure;
use crate::text::{decimal, has_part, part_at};
use crate::trust::{
    known_addresses, pulls_offers, server_identity_error, server_refusal, tailnet_decision,
    version_refusal, ClientHello, ServerHello, TrustDecision,
};
use crate::wire::{
    V2_MAX_ACTIVE_PAYLOAD_STREAMS, V2_MAX_INBOUND_HANDLERS, V2_MAX_LIVE_ENTRIES,
    V2_PROTOCOL_VERSION,
};

verus! {

/// The numbers of the protocol: version 2, ten live cards, two payloads and sixteen
/// connections at a time, on port 45832.
pub proof fn lemma_numbers_of_the_protocol()
    ensures
        V2_PROTOCOL_VERSION == 2,
        V2_MAX_LIVE_ENTRIES == 10,
        V2_MAX_ACTIVE_PAYLOAD_STREAMS == 2,
        V2_MAX_INBOUND_HANDLERS == 16,
        MESHELF_PORT == 45_832,
{
}

/// A device pulls offers exactly where it says so.
pub proof fn lemma_who_pulls_offers(capabilities: Seq<String>, i: int)
    ensures
        0 <= i < capabilities.len() && capabilities[i]@ == "offer-pull-v2"@ ==> pulls_offers(
            capabilities,
        ),
        (forall|k: int|
            0 <= k < capabilities.len() ==> (#[trigger] capabilities[k])@ != "offer-pull-v2"@)
            ==> !pulls_offers(capabilities),
{
}

/// A greeting is passed on to those who decide exactly where it speaks version 2, its
/// signature is valid and it pulls offers; they are then asked about the device that it
/// names.  Every other greeting is turned away with a reason.
pub proof fn lemma_greetings_that_pass(hello: ClientHello, signature_valid: bool)
    ensures
        ({
            let event = ConnectionEvent::HelloRead { result: Ok(hello), signature_valid };
            let step = connection_next(ConnectionStep::ReadHello, event);
            let passes = hello.protocol_version == 2 && signature_valid && pulls_offers(
                hello.capabilities@,
            );
            &&& passes ==> step == ConnectionStep::<Seq<char>>::AskGate(hello.device_id)
            &&& !passes ==> (step matches ConnectionStep::WriteHello { accepted, reason }
                && accepted is None && reason is Some)
            &&& hello.protocol_version != 2 ==> (step matches ConnectionStep::WriteHello {
                reason,
                ..
            } && reason == Some(
                version_refusal(hello.device_name@, hello.device_id, hello.protocol_version),
            ))
        }),
{
}

/// A device with another version is told which version it uses and to update to protocol
/// 2, in words that its own report takes for those of another version.
pub proof fn lemma_version_refusals_tell_to_update(name: Seq<char>, device: DeviceId, version: u16)
    ensures
        has_part(version_refusal(name, device, version), decimal(version as nat)),
        has_part(version_refusal(name, device, version), name),
        has_part(version_refusal(name, device, version), hyphenated(device.0)),
        says_protocol_update(version_refusal(name, device, version)),
{
    let id = hyphenated(device.0);
    let number = decimal(version as nat);
    let words = "; update it to meshelf protocol 2"@;
    let text = version_refusal(name, device, version);
    reveal_strlit("; update it to meshelf protocol 2");
    reveal_strlit("update");
    reveal_strlit("protocol");
    let a = "Peer "@;
    let b = " ("@;
    let c = ") uses protocol version "@;
    assert(text == a + name + b + id + c + number + words);
    let i = a.len() as int;
    assert(text.subrange(i, i + name.len()) =~= name);
    assert(part_at(text, name, i));
    let j = (a.len() + name.len() + b.len()) as int;
    assert(text.subrange(j, j + id.len()) =~= id);
    assert(part_at(text, id, j));
    let k = (j + id.len() + c.len()) as int;
    assert(text.subrange(k, k + number.len()) =~= number);
    assert(part_at(text, number, k));
    let before = text.subrange(0, k + number.len()) + words.subrange(0, 2);
    let between = words.subrange(8, 23);
    let behind = words.subrange(31, words.len() as int);
    assert(words.subrange(2, 8) =~= "update"@);
    assert(words.subrange(23, 31) =~= "protocol"@);
    assert(text =~= before + "update"@ + between + "protocol"@ + behind);
    crate::report_laws::lemma_update_words(text, before, between, behind);
}

/// What is decided is what the client is told: it is let in as the device that it
/// is, or turned away with the reason given.
pub proof fn lemma_the_decision_is_told(device: DeviceId, decision: TrustDecision)
    ensures
        ({
            let step = connection_next(
                ConnectionStep::AskGate(device),
                ConnectionEvent::GateAnswered(decision),
            );
            &&& decision is Allow ==> (step matches ConnectionStep::WriteHello { accepted, reason }
                && accepted == Some(device) && reason is None)
            &&& decision matches TrustDecision::Deny(text) ==> (step
                matches ConnectionStep::WriteHello { accepted, reason } && accepted is None
                && reason == Some(text@))
        }),
{
}

/// A client that was let in may announce or fetch one thing, as the device that it is: an
/// announcement is handled and then acknowledged, a fetch is handled, and the connection
/// is over.  A client that was turned away is told so, and the connection is closed.
pub proof fn lemma_what_follows_the_greeting(device: DeviceId, reason: Option<Seq<char>>)
    ensures
        ({
            let done = ConnectionEvent::Done(Ok(()));
            let greeted = connection_next(
                ConnectionStep::WriteHello { accepted: Some(device), reason },
                done,
            );
            let announced = connection_next(
                greeted,
                ConnectionEvent::OperationRead(Ok(Operation::Announcement)),
            );
            let fetched = connection_next(
                greeted,
                ConnectionEvent::OperationRead(Ok(Operation::Fetch(Ok(())))),
            );
            let other = connection_next(
                greeted,
                ConnectionEvent::OperationRead(Ok(Operation::Other)),
            );
            let refused = connection_next(
                ConnectionStep::WriteHello { accepted: None, reason },
                done,
            );
            &&& greeted == ConnectionStep::<Seq<char>>::ReadOperation(device)
            &&& announced == ConnectionStep::<Seq<char>>::HandleAnnouncement(device)
            &&& connection_next(announced, done) == ConnectionStep::<Seq<char>>::WriteAck
            &&& connection_next(ConnectionStep::WriteAck, done) == ConnectionStep::<
                Seq<char>,
            >::Finished(Ok(()))
            &&& fetched == ConnectionStep::<Seq<char>>::HandleFetch(device)
            &&& connection_next(fetched, done) == ConnectionStep::<Seq<char>>::Finished(Ok(()))
            &&& other matches ConnectionStep::Finished(Err(NetError::UnexpectedMessage(_)))
            &&& refused == ConnectionStep::<Seq<char>>::Shutdown
            &&& connection_next(refused, done) == ConnectionStep::<Seq<char>>::Finished(Ok(()))
        }),
{
}

/// Whatever fails in a connection ends it with the error, and no later event changes what
/// it ended with.
pub proof fn lemma_failures_end_a_connection(
    step: ConnectionStep<Seq<char>>,
    event: ConnectionEvent,
    error: NetError,
)
    ensures
        step is ReadHello ==> connection_next(
            step,
            ConnectionEvent::HelloRead { result: Err(error), signature_valid: true },
        ) == ConnectionStep::<Seq<char>>::Finished(Err(error@)),
        step is ReadOperation ==> connection_next(
            step,
            ConnectionEvent::OperationRead(Err(error)),
        ) == ConnectionStep::<Seq<char>>::Finished(Err(error@)),
        step is WriteHello || step is HandleAnnouncement || step is WriteAck || step is HandleFetch
            || step is Shutdown ==> connection_next(step, ConnectionEvent::Done(Err(error)))
            == ConnectionStep::<Seq<char>>::Finished(Err(error@)),
        step is Finished ==> connection_next(step, event) == step,
{
}

/// A client is let in exactly where it is paired, comes from an address of the peer, has
/// the peer's key and a valid signature.
pub proof fn lemma_who_is_let_in(
    lookup: PeerLookup,
    remote: IpAddress,
    hello: ClientHello,
    signature_valid: bool,
    explain_key: bool,
)
    ensures
        approval(lookup, remote, hello, signature_valid, explain_key) is Allow <==> (
        lookup matches PeerLookup::Paired(peer) && {
            &&& peer.addresses@.contains(remote)
            &&& peer.public_key@ == hello.public_key@
            &&& signature_valid
        }),
        lookup is Unknown ==> approval(
            lookup,
            remote,
            hello,
            signature_valid,
            explain_key,
        ) == TrustDecision::Deny("meshelf installation has not been approved"@),
        lookup is Unavailable ==> approval(
            lookup,
            remote,
            hello,
            signature_valid,
            explain_key,
        ) == TrustDecision::Deny("local meshelf state is unavailable"@),
{
}

proof fn lemma_not_known(allowed: Seq<(DeviceId, Vec<IpAddress>)>, device: DeviceId)
    requires
        forall|k: int| 0 <= k < allowed.len() ==> (#[trigger] allowed[k]).0 != device,
    ensures
        known_addresses(allowed, device) is None,
    decreases allowed.len(),
{
    if allowed.len() > 0 {
        let before = allowed.drop_last();
        assert(allowed[allowed.len() - 1].0 != device);
        assert forall|k: int| 0 <= k < before.len() implies (#[trigger] before[k]).0 != device by {
            assert(before[k] == allowed[k]);
        }
        lemma_not_known(before, device);
    }
}

proof fn lemma_known_last(allowed: Seq<(DeviceId, Vec<IpAddress>)>, device: DeviceId, i: int)
    requires
        0 <= i < allowed.len(),
        allowed[i].0 == device,
        forall|k: int| i < k < allowed.len() ==> (#[trigger] allowed[k]).0 != device,
    ensures
        known_addresses(allowed, device) == Some(allowed[i].1@),
    decreases allowed.len(),
{
    let n = allowed.len() - 1;
    if i < n {
        let before = allowed.drop_last();
        assert(allowed[n].0 != device);
        assert(before[i] == allowed[i]);
        assert forall|k: int| i < k < before.len() implies (#[trigger] before[k]).0 != device by {
            assert(before[k] == allowed[k]);
        }
        lemma_known_last(before, device, i);
    }
}

/// By a list of accepted devices a client is let in exactly where its device was accepted,
/// and it comes from one of the addresses that it was accepted with last.
pub proof fn lemma_who_is_accepted_by_address(
    allowed: Seq<(DeviceId, Vec<IpAddress>)>,
    device: DeviceId,
    remote: IpAddress,
    i: int,
)
    ensures
        (forall|k: int| 0 <= k < allowed.len() ==> (#[trigger] allowed[k]).0 != device)
            ==> tailnet_decision(known_addresses(allowed, device), remote) is Deny,
        0 <= i < allowed.len() && allowed[i].0 == device && (forall|k: int|
            i < k < allowed.len() ==> (#[trigger] allowed[k]).0 != device) ==> (tailnet_decision(
            known_addresses(allowed, device),
            remote,
        ) is Allow <==> allowed[i].1@.contains(remote)),
{
    if forall|k: int| 0 <= k < allowed.len() ==> (#[trigger] allowed[k]).0 != device {
        lemma_not_known(allowed, device);
    }
    if 0 <= i < allowed.len() && allowed[i].0 == device && (forall|k: int|
        i < k < allowed.len() ==> (#[trigger] allowed[k]).0 != device) {
        lemma_known_last(allowed, device, i);
    }
}

/// The answer of a server is taken exactly where its signature is valid, its key is the
/// expected one where there is one, and it is the expected device.
pub proof fn lemma_servers_that_are_taken(
    server: ServerHello,
    signature_valid: bool,
    expected_key: Seq<u8>,
    expected_device: DeviceId,
    operation: Seq<char>,
)
    ensures
        server_identity_error(
            server,
            signature_valid,
            expected_key,
            expected_device,
            operation,
        ) is None <==> {
            &&& signature_valid
            &&& expected_key.len() > 0 ==> server.public_key@ == expected_key
            &&& server.device_id == expected_device
        },
        server_identity_error(
            server,
            signature_valid,
            expected_key,
            expected_device,
            operation,
        ) matches Some(error) ==> error is IdentityMismatch,
{
}

/// A server is used exactly where it speaks version 2, pulls offers and, where that is
/// needed, has let the client in.  A client that was turned away learns the reason.
pub proof fn lemma_servers_that_are_used(
    server: ServerHello,
    require_accepted: bool,
    operation: Seq<char>,
)
    ensures
        server_refusal(server, require_accepted, operation) is None <==> {
            &&& server.protocol_version == 2
            &&& pulls_offers(server.capabilities@)
            &&& require_accepted ==> server.accepted
        },
        server.protocol_version == 2 && pulls_offers(server.capabilities@) && require_accepted
            && !server.accepted ==> (server.reason matches Some(reason) ==> server_refusal(
            server,
            require_accepted,
            operation,
        ) == Some(NetError::Rejected(reason@))),
        server_refusal(server, require_accepted, operation) matches Some(error)
            ==> error is Rejected,
{
}

/// An announcement is sent exactly where it is within its bounds, comes from the device
/// that greets, and that device speaks version 2 and pulls offers.
pub proof fn lemma_announcements_that_are_sent(
    hello: ClientHello,
    announcement: OfferAnnouncement,
    check: Result<(), String>,
)
    ensures
        announce_error(hello, announcement, check) is None <==> {
            &&& check is Ok
            &&& hello.device_id == announcement.source_device
            &&& hello.protocol_version == 2
            &&& pulls_offers(hello.capabilities@)
        },
        speaks_v2(hello) <==> hello.protocol_version == 2 && pulls_offers(hello.capabilities@),
{
}

/// A fetch belongs together exactly where the device that greets is the one that asks,
/// and request and activation name the same request, origin and offer.
pub proof fn lemma_fetches_that_belong_together(
    hello: ClientHello,
    request: FetchRequest,
    activation: FetchActivation,
)
    ensures
        same_fetch(hello, request, activation) <==> {
            &&& request.requester_device == hello.device_id
            &&& request.request_id == activation.request_id
            &&& request.offer_id == activation.offer_id
            &&& request.source_device == activation.source_device
        },
{
}

/// An offer is looked up exactly where the request names this origin and the device that
/// asks is the one that greeted; else it is refused as malformed.
pub proof fn lemma_requests_that_are_looked_up(
    request: FetchRequest,
    origin: DeviceId,
    authenticated: DeviceId,
)
    ensures
        first_fetch_step(request, origin, authenticated) is LoadOffer <==> request.source_device
            == origin && request.requester_device == authenticated,
        !(first_fetch_step(request, origin, authenticated) is LoadOffer) ==> (first_fetch_step(
            request,
            origin,
            authenticated,
        ) matches FetchStep::Refuse(refusal) && refusal.code is Malformed),
{
}

/// An offer is served exactly to the devices that it was announced to, where it is stored
/// with a source that fits it; each other case has a refusal of its own.
pub proof fn lemma_offers_that_are_served(facts: Option<OfferFacts>, authenticated: DeviceId)
    ensures
        ({
            let step = fetch_next(
                FetchStep::LoadOffer,
                FetchEvent::OfferLoaded(Ok(facts)),
                authenticated,
            );
            &&& step is AcquireSlot <==> (facts matches Some(offer)
                && offer.announced_to@.contains(authenticated) && offer.source_fits)
            &&& facts is None <==> (step matches FetchStep::Refuse(refusal)
                && refusal.code is UnknownOffer)
            &&& (facts matches Some(offer) && !offer.announced_to@.contains(authenticated)) <==> (
            step matches FetchStep::Refuse(refusal) && refusal.code is NotAnnouncedToRequester)
        }),
{
}

/// A fetch that got a slot and whose source is unchanged is sent.  Without a slot it is
/// refused as busy, and a source that cannot be sent is refused for what is wrong with
/// it.
pub proof fn lemma_fetches_go_on(authenticated: DeviceId, failure: SourceFailure)
    ensures
        fetch_next(
            FetchStep::AcquireSlot,
            FetchEvent::SlotAcquired(Some(true)),
            authenticated,
        ) is BuildPlan,
        fetch_next(
            FetchStep::AcquireSlot,
            FetchEvent::SlotAcquired(Some(false)),
            authenticated,
        ) matches FetchStep::Refuse(refusal) && refusal.code is Busy,
        fetch_next(
            FetchStep::BuildPlan,
            FetchEvent::PlanBuilt(Ok(())),
            authenticated,
        ) is SendPlan,
        fetch_next(
            FetchStep::BuildPlan,
            FetchEvent::PlanBuilt(Err(failure)),
            authenticated,
        ) matches FetchStep::Refuse(refusal) && match failure {
            SourceFailure::Unavailable => refusal.code is SourceUnavailable,
            SourceFailure::Changed => refusal.code is SourceChanged,
            SourceFailure::Malformed => refusal.code is Malformed,
        },
{
}

/// The outcome of sending, or of a refusal, is the outcome of the fetch.
pub proof fn lemma_fetches_end_as_they_were_sent(
    step: FetchStep<Seq<char>>,
    result: Result<(), NetError>,
    authenticated: DeviceId,
)
    requires
        step is SendPlan || step is Refuse,
    ensures
        result matches Ok(_) ==> fetch_next(step, FetchEvent::Sent(result), authenticated)
            == FetchStep::<Seq<char>>::Finished(Ok(())),
        result matches Err(error) ==> fetch_next(step, FetchEvent::Sent(result), authenticated)
            == FetchStep::<Seq<char>>::Finished(Err(error@)),
{
}

/// A listener is bound exactly to an address that is not unspecified and was discovered
/// as one of this device.
pub proof fn lemma_addresses_that_are_bound(address: SocketAddress, discovered: Seq<IpAddress>)
    ensures
        bind_error(address, discovered) is None <==> {
            &&& address.ip != IpAddress::V4(0)
            &&& address.ip != IpAddress::V6(0)
            &&& discovered.contains(address.ip)
        },
        bind_error(address, discovered) matches Some(error) ==> error is UnsafeBind,
{
}

/// The preferred address is the first of version 4, and else the first of all.
pub proof fn lemma_the_preferred_address(addresses: Seq<IpAddress>, i: int)
    ensures
        addresses.len() == 0 ==> preferred_ip(addresses) is None,
        0 <= i < addresses.len() && addresses[i] is V4 && (forall|k: int|
            0 <= k < i ==> !((#[trigger] addresses[k]) is V4)) ==> preferred_ip(addresses) == Some(
            addresses[i],
        ),
        addresses.len() > 0 && (forall|k: int|
            0 <= k < addresses.len() ==> !((#[trigger] addresses[k]) is V4)) ==> preferred_ip(
            addresses,
        ) == Some(addresses[0]),
{
    if 0 <= i < addresses.len() && addresses[i] is V4 && (forall|k: int|
        0 <= k < i ==> !((#[trigger] addresses[k]) is V4)) {
        lemma_first_v4(addresses, i);
    }
}

proof fn lemma_first_v4(addresses: Seq<IpAddress>, i: int)
    requires
        0 <= i < addresses.len(),
        addresses[i] is V4,
        forall|k: int| 0 <= k < i ==> !((#[trigger] addresses[k]) is V4),
    ensures
        first_v4(addresses) == addresses[i],
    decreases addresses.len(),
{
    if i > 0 {
        let rest = addresses.drop_first();
        assert(!(addresses[0] is V4));
        assert forall|k: int| 0 <= k < i - 1 implies !((#[trigger] rest[k]) is V4) by {
            assert(rest[k] == addresses[k + 1]);
        }
        lemma_first_v4(rest, i - 1);
    }
}

} // verus!
