//! Greetings of two devices, and whom to trust.
use vstd::prelude::*;

use crate::ids::{hyphenated, DeviceId};
use crate::net::{address_in, IpAddress, SocketAddress};
use crate::net_error::NetError;
use crate::outcome::result_view;
use crate::text::{decimal, decimal_text, join2, join3, text_eq};
use crate::wire::{same_bytes, V2_MAX_INBOUND_HANDLERS, V2_PROTOCOL_VERSION};

verus! {

/// How a client introduces itself.
#[derive(Debug)]
pub struct ClientHello {
    pub protocol_version: u16,
    pub device_id: DeviceId,
    pub device_name: String,
    pub nonce: String,
    pub capabilities: Vec<String>,
    pub public_key: Vec<u8>,
    pub signature: Vec<u8>,
}

impl ClientHello {
    /// An unsigned greeting of this protocol version, which pulls offers and does
    /// nothing else.
    #[must_use]
    pub fn new(device_id: DeviceId, device_name: &str, nonce: &str) -> (r: Self)
        ensures
            r.protocol_version == V2_PROTOCOL_VERSION,
            r.device_id == device_id,
            r.device_name@ == device_name@,
            r.nonce@ == nonce@,
            r.capabilities@.len() == 1,
            r.capabilities@[0]@ == "offer-pull-v2"@,
            pulls_offers(r.capabilities@),
            r.public_key@.len() == 0,
            r.signature@.len() == 0,
    {
        let mut capabilities: Vec<String> = Vec::new();
        capabilities.push("offer-pull-v2".to_owned());
        assert(capabilities@[0]@ == "offer-pull-v2"@);
        ClientHello {
            protocol_version: V2_PROTOCOL_VERSION,
            device_id,
            device_name: device_name.to_owned(),
            nonce: nonce.to_owned(),
            capabilities,
            public_key: Vec::new(),
            signature: Vec::new(),
        }
    }
}

/// How a server answers a client.
#[derive(Debug)]
pub struct ServerHello {
    pub protocol_version: u16,
    pub device_id: DeviceId,
    pub device_name: String,
    pub accepted: bool,
    pub reason: Option<String>,
    pub capabilities: Vec<String>,
    pub public_key: Vec<u8>,
    pub signature: Vec<u8>,
}

/// Whether a client may go on; `S` is the type of the reason.
#[derive(Debug)]
pub enum TrustDecision<S = String> {
    Allow,
    Deny(S),
}

impl View for TrustDecision<String> {
    type V = TrustDecision<Seq<char>>;

    open spec fn view(&self) -> TrustDecision<Seq<char>> {
        match *self {
            TrustDecision::Allow => TrustDecision::Allow,
            TrustDecision::Deny(s) => TrustDecision::Deny(s@),
        }
    }
}

/// Decides whom to trust.
pub trait TrustGate {
    fn authorize(&self, remote: SocketAddress, hello: &ClientHello) -> TrustDecision;
}

/// Trusts nobody.
#[derive(Debug, Clone, Copy, PartialEq, Eq, Structural)]
pub struct DenyAll;

impl Default for DenyAll {
    fn default() -> (r: Self)
        ensures
            r == DenyAll,
    {
        DenyAll
    }
}

impl TrustGate for DenyAll {
    fn authorize(&self, remote: SocketAddress, hello: &ClientHello) -> (r: TrustDecision)
        ensures
            r@ == TrustDecision::Deny("secure pairing is not configured"@),
    {
        TrustDecision::Deny("secure pairing is not configured".to_owned())
    }
}

/// Trusts a list of devices, wherever they come from.
#[derive(Debug)]
pub struct ExactDeviceAllowList {
    pub allowed: Vec<DeviceId>,
}

impl ExactDeviceAllowList {
    #[must_use]
    pub fn new(allowed: Vec<DeviceId>) -> (r: Self)
        ensures
            r.allowed == allowed,
    {
        ExactDeviceAllowList { allowed }
    }
}

impl TrustGate for ExactDeviceAllowList {
    fn authorize(&self, remote: SocketAddress, hello: &ClientHello) -> (r: TrustDecision)
        ensures
            r@ == if self.allowed@.contains(hello.device_id) {
                TrustDecision::<Seq<char>>::Allow
            } else {
                TrustDecision::Deny("claimed device ID is not in the development allowlist"@)
            },
    {
        if crate::send::device_in(&self.allowed, hello.device_id) {
            TrustDecision::Allow
        } else {
            TrustDecision::Deny(
                "claimed device ID is not in the development allowlist".to_owned(),
            )
        }
    }
}

/// Trusts accepted devices that come from one of their known addresses.
#[derive(Debug)]
pub struct TailnetPeerAllowList {
    pub allowed: Vec<(DeviceId, Vec<IpAddress>)>,
}

/// The addresses that a list names for a device; a later entry replaces an earlier one.
pub open spec fn known_addresses(
    allowed: Seq<(DeviceId, Vec<IpAddress>)>,
    device: DeviceId,
) -> Option<Seq<IpAddress>>
    decreases allowed.len(),
{
    if allowed.len() == 0 {
        None
    } else if allowed.last().0 == device {
        Some(allowed.last().1@)
    } else {
        known_addresses(allowed.drop_last(), device)
    }
}

/// What a list of devices and addresses decides.
pub open spec fn tailnet_decision(
    addresses: Option<Seq<IpAddress>>,
    remote: IpAddress,
) -> TrustDecision<Seq<char>> {
    match addresses {
        None => TrustDecision::Deny("meshelf device has not been accepted"@),
        Some(addresses) => if addresses.contains(remote) {
            TrustDecision::Allow
        } else {
            TrustDecision::Deny(
                "accepted meshelf identity arrived from an unrecognized Tailscale address"@,
            )
        },
    }
}

impl TailnetPeerAllowList {
    #[must_use]
    pub fn new(peers: Vec<(DeviceId, Vec<IpAddress>)>) -> (r: Self)
        ensures
            r.allowed == peers,
    {
        TailnetPeerAllowList { allowed: peers }
    }
}

impl TrustGate for TailnetPeerAllowList {
    fn authorize(&self, remote: SocketAddress, hello: &ClientHello) -> (r: TrustDecision)
        ensures
            r@ == tailnet_decision(known_addresses(self.allowed@, hello.device_id), remote.ip),
    {
        let mut end: usize = self.allowed.len();
        assert(self.allowed@.subrange(0, end as int) =~= self.allowed@);
        while end > 0
            invariant
                end <= self.allowed@.len(),
                known_addresses(self.allowed@, hello.device_id) == known_addresses(
                    self.allowed@.subrange(0, end as int),
                    hello.device_id,
                ),
            decreases end,
        {
            let ghost head = self.allowed@.subrange(0, end as int);
            assert(head.last() == self.allowed@[end - 1]);
            assert(head.drop_last() =~= self.allowed@.subrange(0, end - 1));
            if self.allowed[end - 1].0 == hello.device_id {
                return if address_in(&self.allowed[end - 1].1, remote.ip) {
                    TrustDecision::Allow
                } else {
                    TrustDecision::Deny(
                        "accepted meshelf identity arrived from an unrecognized Tailscale address".to_owned(),
                    )
                };
            }
            end = end - 1;
        }
        TrustDecision::Deny("meshelf device has not been accepted".to_owned())
    }
}

/// Whether a list of capabilities names the pulling of offers.
pub open spec fn pulls_offers(capabilities: Seq<String>) -> bool {
    exists|i: int| 0 <= i < capabilities.len() && (#[trigger] capabilities[i])@ == "offer-pull-v2"@
}

/// Whether a list of capabilities names the pulling of offers.
#[must_use]
pub fn has_offer_pull(capabilities: &Vec<String>) -> (r: bool)
    ensures
        r == pulls_offers(capabilities@),
{
    let mut i: usize = 0;
    while i < capabilities.len()
        invariant
            i <= capabilities@.len(),
            forall|k: int| 0 <= k < i ==> (#[trigger] capabilities@[k])@ != "offer-pull-v2"@,
        decreases capabilities@.len() - i,
    {
        if text_eq(capabilities[i].as_str(), "offer-pull-v2") {
            return true;
        }
        i = i + 1;
    }
    false
}

/// Checks that a client speaks the second protocol version and pulls offers.
pub fn require_v2_client_hello(hello: &ClientHello, operation: &str) -> (r: Result<(), NetError>)
    ensures
        result_view(r) == if hello.protocol_version == V2_PROTOCOL_VERSION && pulls_offers(
            hello.capabilities@,
        ) {
            Ok::<(), NetError<Seq<char>>>(())
        } else {
            Err(NetError::Rejected(operation@ + " requires protocol 2 and offer-pull-v2"@))
        },
{
    if hello.protocol_version != V2_PROTOCOL_VERSION || !has_offer_pull(&hello.capabilities) {
        return Err(
            NetError::Rejected(join2(operation, " requires protocol 2 and offer-pull-v2")),
        );
    }
    Ok(())
}

/// Why a server's answer does not belong to the expected server.
pub open spec fn server_identity_error(
    server: ServerHello,
    signature_valid: bool,
    expected_key: Seq<u8>,
    expected_device: DeviceId,
    operation: Seq<char>,
) -> Option<NetError<Seq<char>>> {
    if !signature_valid || (expected_key.len() > 0 && server.public_key@ != expected_key) {
        Some(
            NetError::IdentityMismatch(
                operation + " server hello signature or public key is invalid"@,
            ),
        )
    } else if server.device_id != expected_device {
        Some(
            NetError::IdentityMismatch(operation + " server hello device does not match request"@),
        )
    } else {
        None
    }
}

/// Checks that an answer comes from the expected server.  `signature_valid` says
/// whether the server signed it; without an expected key any key will do.
pub fn read_server_hello(
    server: &ServerHello,
    signature_valid: bool,
    expected_key: &Vec<u8>,
    expected_device: DeviceId,
    operation: &str,
) -> (r: Result<(), NetError>)
    ensures
        result_view(r) == match server_identity_error(
            *server,
            signature_valid,
            expected_key@,
            expected_device,
            operation@,
        ) {
            Some(error) => Err::<(), NetError<Seq<char>>>(error),
            None => Ok(()),
        },
{
    if !signature_valid || (expected_key.len() > 0 && !same_bytes(
        &server.public_key,
        expected_key,
    )) {
        return Err(
            NetError::IdentityMismatch(
                join2(operation, " server hello signature or public key is invalid"),
            ),
        );
    }
    if server.device_id != expected_device {
        return Err(
            NetError::IdentityMismatch(
                join2(operation, " server hello device does not match request"),
            ),
        );
    }
    Ok(())
}

/// Why a server cannot serve an operation.
pub open spec fn server_refusal(
    server: ServerHello,
    require_accepted: bool,
    operation: Seq<char>,
) -> Option<NetError<Seq<char>>> {
    if server.protocol_version != V2_PROTOCOL_VERSION {
        Some(NetError::Rejected(operation + " server uses an unsupported protocol version"@))
    } else if !pulls_offers(server.capabilities@) {
        Some(NetError::Rejected(operation + " server does not advertise offer-pull-v2"@))
    } else if require_accepted && !server.accepted {
        Some(
            NetError::Rejected(
                match server.reason {
                    Some(reason) => reason@,
                    None => operation + " server rejected connection"@,
                },
            ),
        )
    } else {
        None
    }
}

/// Checks that a server speaks the second protocol version, pulls offers and, if
/// that is required, has accepted this client.
pub fn require_v2_server_hello(
    server: &ServerHello,
    require_accepted: bool,
    operation: &str,
) -> (r: Result<(), NetError>)
    ensures
        result_view(r) == match server_refusal(*server, require_accepted, operation@) {
            Some(error) => Err::<(), NetError<Seq<char>>>(error),
            None => Ok(()),
        },
{
    if server.protocol_version != V2_PROTOCOL_VERSION {
        return Err(
            NetError::Rejected(
                join2(operation, " server uses an unsupported protocol version"),
            ),
        );
    }
    if !has_offer_pull(&server.capabilities) {
        return Err(
            NetError::Rejected(join2(operation, " server does not advertise offer-pull-v2")),
        );
    }
    if require_accepted && !server.accepted {
        return Err(
            NetError::Rejected(
                match &server.reason {
                    Some(reason) => reason.clone(),
                    None => join2(operation, " server rejected connection"),
                },
            ),
        );
    }
    Ok(())
}

/// Why a client of another protocol version is refused.
pub open spec fn version_refusal(name: Seq<char>, device: DeviceId, version: u16) -> Seq<char> {
    "Peer "@ + name + " ("@ + hyphenated(device.0) + ") uses protocol version "@ + decimal(
        version as nat,
    ) + "; update it to meshelf protocol 2"@
}

/// Why a client of another protocol version is refused: the text names the peer and
/// says to update it.
#[must_use]
pub fn v1_client_refusal_reason(name: &str, device: DeviceId, version: u16) -> (r: String)
    ensures
        r@ == version_refusal(name@, device, version),
{
    let a = join3("Peer ", name, " (");
    let b = join3(a.as_str(), device.text().as_str(), ") uses protocol version ");
    join3(
        b.as_str(),
        decimal_text(version as u64).as_str(),
        "; update it to meshelf protocol 2",
    )
}

/// Why a connection beyond the limit is refused.
pub open spec fn capacity_refusal(device: DeviceId) -> Seq<char> {
    "inbound handler capacity exhausted: active="@ + decimal(V2_MAX_INBOUND_HANDLERS as nat)
        + ", maximum="@ + decimal(V2_MAX_INBOUND_HANDLERS as nat) + "; update peer "@ + hyphenated(
        device.0,
    ) + " to meshelf protocol 2"@
}

/// Why a connection beyond the limit is refused.
#[must_use]
pub fn refuse_excess_connection(device: DeviceId) -> (r: String)
    ensures
        r@ == capacity_refusal(device),
{
    let limit = decimal_text(V2_MAX_INBOUND_HANDLERS as u64);
    let a = join3("inbound handler capacity exhausted: active=", limit.as_str(), ", maximum=");
    let b = join3(a.as_str(), limit.as_str(), "; update peer ");
    join3(b.as_str(), device.text().as_str(), " to meshelf protocol 2")
}

} // verus!
