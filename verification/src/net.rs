//! Addresses, and which of them a listener may take.
use vstd::prelude::*;

use crate::net_error::NetError;
use crate::outcome::result_view;

verus! {

/// An address of the Internet protocol.
#[derive(Debug, Clone, Copy, PartialEq, Eq, Structural)]
pub enum IpAddress {
    V4(u32),
    V6(u128),
}

/// An address with a port.
#[derive(Debug, Clone, Copy, PartialEq, Eq, Structural)]
pub struct SocketAddress {
    pub ip: IpAddress,
    pub port: u16,
}

impl IpAddress {
    /// Whether the address stands for every address of its family.
    pub open spec fn unspecified(self) -> bool {
        self == IpAddress::V4(0) || self == IpAddress::V6(0)
    }

    #[must_use]
    pub fn is_unspecified(self) -> (r: bool)
        ensures
            r == self.unspecified(),
    {
        match self {
            IpAddress::V4(bits) => bits == 0,
            IpAddress::V6(bits) => bits == 0,
        }
    }
}

/// Whether an address is in a list.
pub fn address_in(list: &Vec<IpAddress>, address: IpAddress) -> (r: bool)
    ensures
        r == list@.contains(address),
{
    let mut i: usize = 0;
    while i < list.len()
        invariant
            i <= list@.len(),
            forall|k: int| 0 <= k < i ==> list@[k] != address,
        decreases list@.len() - i,
    {
        if list[i] == address {
            assert(list@[i as int] == address);
            return true;
        }
        i = i + 1;
    }
    false
}

/// Why a listener may not take an address.
pub open spec fn bind_error(
    address: SocketAddress,
    discovered: Seq<IpAddress>,
) -> Option<NetError<Seq<char>>> {
    if address.ip.unspecified() {
        Some(NetError::UnsafeBind("unspecified listener addresses are forbidden"@))
    } else if !discovered.contains(address.ip) {
        Some(
            NetError::UnsafeBind(
                "listener address is not one of the currently discovered local Tailscale addresses"@,
            ),
        )
    } else {
        None
    }
}

/// Checks that a listener takes one of the discovered addresses of this device and
/// nothing wider.
pub fn bind_discovered_tailscale_address(
    address: SocketAddress,
    discovered_local_addresses: &Vec<IpAddress>,
) -> (r: Result<(), NetError>)
    ensures
        result_view(r) == match bind_error(address, discovered_local_addresses@) {
            Some(error) => Err::<(), NetError<Seq<char>>>(error),
            None => Ok(()),
        },
{
    if address.ip.is_unspecified() {
        return Err(
            NetError::UnsafeBind("unspecified listener addresses are forbidden".to_owned()),
        );
    }
    if !address_in(discovered_local_addresses, address.ip) {
        return Err(
            NetError::UnsafeBind(
                "listener address is not one of the currently discovered local Tailscale addresses".to_owned(),
            ),
        );
    }
    Ok(())
}

/// The first address of the fourth version, else the first address at all.
pub open spec fn preferred_ip(addresses: Seq<IpAddress>) -> Option<IpAddress> {
    if addresses.len() == 0 {
        None
    } else if exists|i: int| 0 <= i < addresses.len() && (#[trigger] addresses[i]) is V4 {
        Some(first_v4(addresses))
    } else {
        Some(addresses[0])
    }
}

/// The first address of the fourth version in a list that has one.
pub open spec fn first_v4(addresses: Seq<IpAddress>) -> IpAddress
    decreases addresses.len(),
{
    if addresses.len() == 0 || addresses[0] is V4 {
        addresses[0]
    } else {
        first_v4(addresses.drop_first())
    }
}

proof fn lemma_first_v4(addresses: Seq<IpAddress>, n: int)
    requires
        0 <= n < addresses.len(),
        addresses[n] is V4,
        forall|i: int| 0 <= i < n ==> !((#[trigger] addresses[i]) is V4),
    ensures
        first_v4(addresses) == addresses[n],
    decreases addresses.len(),
{
    if n > 0 {
        let rest = addresses.drop_first();
        assert forall|i: int| 0 <= i < n - 1 implies !((#[trigger] rest[i]) is V4) by {
            assert(rest[i] == addresses[i + 1]);
        }
        assert(!(addresses[0] is V4));
        lemma_first_v4(rest, n - 1);
    }
}

/// The address of a device to bind or to connect to: one of the fourth version
/// where there is one, so that both sides choose the same family.
pub fn select_discovered_ip(addresses: &Vec<IpAddress>) -> (r: Option<IpAddress>)
    ensures
        r == preferred_ip(addresses@),
{
    let mut i: usize = 0;
    while i < addresses.len()
        invariant
            i <= addresses@.len(),
            forall|k: int| 0 <= k < i ==> !((#[trigger] addresses@[k]) is V4),
        decreases addresses@.len() - i,
    {
        if let IpAddress::V4(_) = addresses[i] {
            proof {
                lemma_first_v4(addresses@, i as int);
            }
            return Some(addresses[i]);
        }
        i = i + 1;
    }
    if addresses.len() > 0 {
        Some(addresses[0])
    } else {
        None
    }
}

/// The preferred address of a device with a port.
pub fn select_discovered_socket(addresses: &Vec<IpAddress>, port: u16) -> (r: Option<SocketAddress>)
    ensures
        r == match preferred_ip(addresses@) {
            Some(ip) => Some(SocketAddress { ip, port }),
            None => None,
        },
{
    match select_discovered_ip(addresses) {
        Some(ip) => Some(SocketAddress { ip, port }),
        None => None,
    }
}

/// The address that a peer connects to is one that the device may bind.
pub proof fn lemma_preferred_ip_is_discovered(addresses: Seq<IpAddress>)
    requires
        addresses.len() > 0,
    ensures
        preferred_ip(addresses) is Some,
        addresses.contains(preferred_ip(addresses)->0),
{
    if exists|i: int| 0 <= i < addresses.len() && (#[trigger] addresses[i]) is V4 {
        lemma_first_v4_member(addresses);
    } else {
        assert(addresses[0] == preferred_ip(addresses)->0);
    }
}

proof fn lemma_first_v4_member(addresses: Seq<IpAddress>)
    requires
        exists|i: int| 0 <= i < addresses.len() && (#[trigger] addresses[i]) is V4,
    ensures
        addresses.contains(first_v4(addresses)),
    decreases addresses.len(),
{
    if addresses[0] is V4 {
        assert(addresses[0] == first_v4(addresses));
    } else {
        let i = choose|i: int| 0 <= i < addresses.len() && (#[trigger] addresses[i]) is V4;
        let rest = addresses.drop_first();
        assert(rest[i - 1] is V4);
        lemma_first_v4_member(rest);
        let k = choose|k: int| 0 <= k < rest.len() && rest[k] == first_v4(rest);
        assert(addresses[k + 1] == first_v4(addresses));
    }
}

} // verus!
