//! The client's side of an announcement and of a fetch.
use vstd::prelude::*;

use crate::activation::FetchActivation;
use crate::announce::{OfferAck, OfferAnnouncement};
use crate::ids::{hyphenated, DeviceId, OfferId};
use crate::net_error::NetError;
use crate::outcome::result_view;
use crate::send::FetchRequest;
use crate::trust::{pulls_offers, require_v2_client_hello, ClientHello, ServerHello};
use crate::wire::V2_PROTOCOL_VERSION;

verus! {

/// How long a client waits, in milliseconds.
#[derive(Debug, Clone, Copy, PartialEq, Eq, Structural)]
pub struct PeerClient {
    pub connect_timeout_ms: u64,
    pub io_timeout_ms: u64,
}

impl Default for PeerClient {
    fn default() -> (r: Self)
        ensures
            r == (PeerClient { connect_timeout_ms: 3000, io_timeout_ms: 5000 }),
    {
        PeerClient { connect_timeout_ms: 3000, io_timeout_ms: 5000 }
    }
}

impl PeerClient {
    #[must_use]
    pub fn with_timeouts(connect_timeout_ms: u64, io_timeout_ms: u64) -> (r: Self)
        ensures
            r == (PeerClient { connect_timeout_ms, io_timeout_ms }),
    {
        PeerClient { connect_timeout_ms, io_timeout_ms }
    }
}

/// Whether a client speaks the second protocol version and pulls offers.
pub open spec fn speaks_v2(hello: ClientHello) -> bool {
    hello.protocol_version == V2_PROTOCOL_VERSION && pulls_offers(hello.capabilities@)
}

/// Why an announcement is not sent at all.
pub open spec fn announce_error(
    hello: ClientHello,
    announcement: OfferAnnouncement,
    check: Result<(), String>,
) -> Option<NetError<Seq<char>>> {
    match check {
        Err(detail) => Some(NetError::Protocol(detail@)),
        Ok(()) => if hello.device_id != announcement.source_device {
            Some(
                NetError::IdentityMismatch("client hello and offer announcement source differ"@),
            )
        } else if !speaks_v2(hello) {
            Some(
                NetError::Rejected(
                    "v2 announcement"@ + " requires protocol 2 and offer-pull-v2"@,
                ),
            )
        } else {
            None
        },
    }
}

/// Checks an announcement before a connection is made for it.  `check` says whether
/// the announcement meets the bounds on offers.
pub fn announce_offer_v2(
    hello: &ClientHello,
    announcement: &OfferAnnouncement,
    check: Result<(), String>,
) -> (r: Result<(), NetError>)
    ensures
        result_view(r) == match announce_error(*hello, *announcement, check) {
            Some(error) => Err::<(), NetError<Seq<char>>>(error),
            None => Ok(()),
        },
{
    if let Err(detail) = check {
        return Err(NetError::Protocol(detail));
    }
    if hello.device_id != announcement.source_device {
        return Err(
            NetError::IdentityMismatch(
                "client hello and offer announcement source differ".to_owned(),
            ),
        );
    }
    require_v2_client_hello(hello, "v2 announcement")
}

/// What a server answers an announcement with.
#[derive(Debug)]
pub enum AckFrame {
    Ack(OfferAck),
    Other,
}

/// Takes the answer to an announcement, which must be about the same offer.
pub fn accept_ack(frame: AckFrame, offer_id: OfferId) -> (r: Result<OfferAck, NetError>)
    ensures
        match frame {
            AckFrame::Ack(ack) => if ack.offer_id == offer_id {
                r matches Ok(a) && a == ack
            } else {
                r matches Err(error) && error@ == NetError::IdentityMismatch(
                    "offer acknowledgement ID does not match announcement"@,
                )
            },
            AckFrame::Other => r matches Err(error) && error@ == NetError::UnexpectedMessage(
                "expected offer_ack"@,
            ),
        },
{
    match frame {
        AckFrame::Ack(ack) => {
            if ack.offer_id != offer_id {
                return Err(
                    NetError::IdentityMismatch(
                        "offer acknowledgement ID does not match announcement".to_owned(),
                    ),
                );
            }
            Ok(ack)
        },
        AckFrame::Other => Err(NetError::UnexpectedMessage("expected offer_ack".to_owned())),
    }
}

/// Whether request, activation and greeting are about the same fetch.
pub open spec fn same_fetch(
    hello: ClientHello,
    request: FetchRequest,
    activation: FetchActivation,
) -> bool {
    &&& hello.device_id == request.requester_device
    &&& activation.request_id == request.request_id
    &&& activation.source_device == request.source_device
    &&& activation.offer_id == request.offer_id
}

/// Checks a fetch before a connection is made for it.
pub fn fetch_v2(hello: &ClientHello, request: &FetchRequest, activation: &FetchActivation) -> (r:
    Result<(), NetError>)
    ensures
        result_view(r) == if !same_fetch(*hello, *request, *activation) {
            Err::<(), NetError<Seq<char>>>(
                NetError::IdentityMismatch(
                    "fetch request, activation, and client identity differ"@,
                ),
            )
        } else if !speaks_v2(*hello) {
            Err(NetError::Rejected("v2 fetch"@ + " requires protocol 2 and offer-pull-v2"@))
        } else {
            Ok(())
        },
{
    if hello.device_id != request.requester_device || activation.request_id != request.request_id
        || activation.source_device != request.source_device || activation.offer_id
        != request.offer_id {
        return Err(
            NetError::IdentityMismatch(
                "fetch request, activation, and client identity differ".to_owned(),
            ),
        );
    }
    require_v2_client_hello(hello, "v2 fetch")
}

/// The greeting of a probe: of a device that exists for this probe only, so that
/// nobody trusts it.
#[must_use]
pub fn probe_hello(device: DeviceId) -> (r: ClientHello)
    ensures
        speaks_v2(r),
        r.device_id == device,
        r.device_name@ == "meshelf-discovery"@,
        r.nonce@ == hyphenated(device.0),
        r.capabilities@.len() == 1,
        r.public_key@.len() == 0,
        r.signature@.len() == 0,
{
    ClientHello::new(device, "meshelf-discovery", device.text().as_str())
}

/// What came in place of a greeting.
#[derive(Debug)]
pub enum HelloFrame {
    Server(ServerHello),
    Client,
}

/// Takes the answer to a probe, whatever it says.
pub fn probe(frame: Result<HelloFrame, NetError>) -> (r: Result<ServerHello, NetError>)
    ensures
        match frame {
            Ok(HelloFrame::Server(server)) => r == Ok::<ServerHello, NetError>(server),
            Ok(HelloFrame::Client) => r matches Err(NetError::UnexpectedMessage(text)) && text@
                == "expected server_hello"@,
            Err(error) => r == Err::<ServerHello, NetError>(error),
        },
{
    match frame {
        Ok(HelloFrame::Server(server)) => Ok(server),
        Ok(HelloFrame::Client) => Err(
            NetError::UnexpectedMessage("expected server_hello".to_owned()),
        ),
        Err(error) => Err(error),
    }
}

} // verus!
