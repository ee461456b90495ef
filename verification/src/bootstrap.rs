//! Enrollment over a remote shell: what is checked before a peer is recorded.
use vstd::prelude::*;

use crate::ids::DeviceId;
use crate::net::{address_in, IpAddress};
use crate::text::{
    blank, chars_of, is_blank, is_whitespace, opt_view, string_of, text_eq, whitespace,
};

verus! {

/// The version of the interface that the Android shell expects.
pub const ANDROID_ABI_VERSION: i32 = 1;

/// The most bytes of an enrollment request.
pub const MAX_BOOTSTRAP_BYTES: usize = 64 * 1024;

/// A request to be enrolled.
#[derive(Debug)]
pub struct EnrollmentRequest {
    pub node_id: String,
    pub hostname: String,
    pub addresses: Vec<IpAddress>,
    pub device_id: DeviceId,
    pub public_key: Vec<u8>,
}

/// A device that discovery has found.
#[derive(Debug)]
pub struct DiscoveredPeer {
    pub node_id: Option<String>,
    pub addresses: Vec<IpAddress>,
}

/// The text of a failed check.
pub open spec fn check_text(r: Result<(), String>) -> Option<Seq<char>> {
    match r {
        Ok(()) => None,
        Err(text) => Some(text@),
    }
}

/// Checks the length of an enrollment request.
pub fn check_bootstrap_length(bytes: usize) -> (r: Result<(), String>)
    ensures
        check_text(r) == if bytes > MAX_BOOTSTRAP_BYTES {
            Some("SSH bootstrap request is too large"@)
        } else {
            None
        },
{
    if bytes > MAX_BOOTSTRAP_BYTES {
        return Err("SSH bootstrap request is too large".to_owned());
    }
    Ok(())
}

/// Whether a request names a node, its addresses and a key, and is signed.
pub open spec fn bootstrap_identified(
    request: EnrollmentRequest,
    signature_valid: bool,
) -> bool {
    &&& !blank(request.node_id@)
    &&& request.addresses@.len() > 0
    &&& request.public_key@.len() == 32
    &&& signature_valid
}

/// Checks that an enrollment request carries a signed identity.
pub fn check_bootstrap_request(request: &EnrollmentRequest, signature_valid: bool) -> (r: Result<
    (),
    String,
>)
    ensures
        check_text(r) == if bootstrap_identified(*request, signature_valid) {
            None
        } else {
            Some("SSH bootstrap request lacks a valid signed installation identity"@)
        },
{
    if is_blank(request.node_id.as_str()) || request.addresses.len() == 0
        || request.public_key.len() != 32 || !signature_valid {
        return Err(
            "SSH bootstrap request lacks a valid signed installation identity".to_owned(),
        );
    }
    Ok(())
}

/// The position of the first discovered peer with an address.
pub open spec fn first_peer_with(
    peers: Seq<DiscoveredPeer>,
    address: IpAddress,
    i: int,
) -> bool {
    &&& 0 <= i < peers.len()
    &&& peers[i].addresses@.contains(address)
    &&& forall|k: int| 0 <= k < i ==> !(#[trigger] peers[k]).addresses@.contains(address)
}

/// Whether `text` is what is wrong with the source of a request, or `None` where
/// nothing is.
pub open spec fn source_checked(
    request: EnrollmentRequest,
    ssh_source: Option<IpAddress>,
    peers: Seq<DiscoveredPeer>,
    text: Option<Seq<char>>,
) -> bool {
    match ssh_source {
        None => text == Some("SSH_CONNECTION did not expose a source address"@),
        Some(source) => if !request.addresses@.contains(source) {
            text == Some("SSH source is not one of the requesting device's Tailscale addresses"@)
        } else {
            &&& (forall|i: int| !#[trigger] first_peer_with(peers, source, i)) ==> text == Some(
                "SSH source is not a discovered remote Tailscale peer"@,
            )
            &&& forall|i: int| #[trigger]
                first_peer_with(peers, source, i) ==> text == if opt_view(peers[i].node_id)
                    == Some(request.node_id@) {
                    None
                } else {
                    Some("SSH source Tailscale identity does not match the bootstrap request"@)
                }
        },
    }
}

/// Checks that a request comes from the node that it names: the shell connection
/// has one of the node's addresses, and discovery knows that address as the node's.
pub fn check_bootstrap_source(
    request: &EnrollmentRequest,
    ssh_source: Option<IpAddress>,
    peers: &Vec<DiscoveredPeer>,
) -> (r: Result<(), String>)
    ensures
        source_checked(*request, ssh_source, peers@, check_text(r)),
{
    let source = match ssh_source {
        Some(source) => source,
        None => {
            return Err("SSH_CONNECTION did not expose a source address".to_owned());
        },
    };
    if !address_in(&request.addresses, source) {
        return Err(
            "SSH source is not one of the requesting device's Tailscale addresses".to_owned(),
        );
    }
    let mut i: usize = 0;
    while i < peers.len()
        invariant
            i <= peers@.len(),
            ssh_source == Some(source),
            request.addresses@.contains(source),
            forall|k: int| 0 <= k < i ==> !(#[trigger] peers@[k]).addresses@.contains(source),
        decreases peers@.len() - i,
    {
        if address_in(&peers[i].addresses, source) {
            assert(first_peer_with(peers@, source, i as int));
            let same = match &peers[i].node_id {
                Some(node_id) => text_eq(node_id.as_str(), request.node_id.as_str()),
                None => false,
            };
            if same {
                return Ok(());
            }
            return Err(
                "SSH source Tailscale identity does not match the bootstrap request".to_owned(),
            );
        }
        i = i + 1;
    }
    Err("SSH source is not a discovered remote Tailscale peer".to_owned())
}

/// Checks an enrollment request as a whole: its length, its signed identity, and that
/// it comes from the node that it names.
pub fn check_enrollment(
    bytes: usize,
    request: &EnrollmentRequest,
    signature_valid: bool,
    ssh_source: Option<IpAddress>,
    peers: &Vec<DiscoveredPeer>,
) -> (r: Result<(), String>)
    ensures
        if bytes > MAX_BOOTSTRAP_BYTES {
            check_text(r) == Some("SSH bootstrap request is too large"@)
        } else if !bootstrap_identified(*request, signature_valid) {
            check_text(r) == Some(
                "SSH bootstrap request lacks a valid signed installation identity"@,
            )
        } else {
            source_checked(*request, ssh_source, peers@, check_text(r))
        },
{
    let length = check_bootstrap_length(bytes);
    if length.is_err() {
        return length;
    }
    let identified = check_bootstrap_request(request, signature_valid);
    if identified.is_err() {
        return identified;
    }
    check_bootstrap_source(request, ssh_source, peers)
}

/// A request is taken only where it is short enough, carries a signed identity, and
/// comes over an address that it names and that discovery knows as the node's.
pub proof fn lemma_enrollment_needs_its_node(
    request: EnrollmentRequest,
    ssh_source: Option<IpAddress>,
    peers: Seq<DiscoveredPeer>,
)
    requires
        source_checked(request, ssh_source, peers, None),
    ensures
        ssh_source matches Some(source) && {
            &&& request.addresses@.contains(source)
            &&& exists|i: int| #[trigger]
                first_peer_with(peers, source, i) && opt_view(peers[i].node_id) == Some(
                    request.node_id@,
                )
        },
{
}

/// Whether the characters `from..to` of `s` are its first word.
pub open spec fn word_at(s: Seq<char>, from: int, to: int) -> bool {
    &&& 0 <= from < to <= s.len()
    &&& forall|i: int| 0 <= i < from ==> whitespace(#[trigger] s[i])
    &&& forall|i: int| from <= i < to ==> !whitespace(#[trigger] s[i])
    &&& to < s.len() ==> whitespace(s[to])
}

/// The first word of a text: where the shell connection comes from.
#[must_use]
pub fn first_word(value: &str) -> (r: Option<String>)
    ensures
        r is None <==> blank(value@),
        r matches Some(word) ==> exists|from: int, to: int| #[trigger]
            word_at(value@, from, to) && word@ == value@.subrange(from, to),
{
    let chars = chars_of(value);
    let mut from: usize = 0;
    while from < chars.len() && is_whitespace(chars[from])
        invariant
            from <= chars@.len(),
            chars@ == value@,
            forall|i: int| 0 <= i < from ==> whitespace(#[trigger] value@[i]),
        decreases chars@.len() - from,
    {
        from = from + 1;
    }
    if from == chars.len() {
        return None;
    }
    assert(!whitespace(value@[from as int]));
    let mut to: usize = from;
    while to < chars.len() && !is_whitespace(chars[to])
        invariant
            from <= to <= chars@.len(),
            chars@ == value@,
            forall|i: int| from <= i < to ==> !whitespace(#[trigger] value@[i]),
        decreases chars@.len() - to,
    {
        to = to + 1;
    }
    assert(word_at(value@, from as int, to as int));
    Some(string_of(&chars, from, to))
}

} // verus!
