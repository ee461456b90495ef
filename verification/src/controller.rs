//! The paired devices and which of them answered last.
use std::collections::HashMap;
use vstd::prelude::*;

use crate::ids::{parsed_uuid, DeviceId};
use crate::net::IpAddress;
use crate::order::{join_texts, joined, sort_texts, sorted_texts};
use crate::text::{ascii_lower, decimal, decimal_text, join2, text_eq, to_ascii_lower, views};
use crate::trust::{has_offer_pull, pulls_offers, ServerHello};
use crate::wire::V2_PROTOCOL_VERSION;

verus! {

/// The port on which every device listens.
pub const MESHELF_PORT: u16 = 45_832;

/// A device that this one is paired with.
#[derive(Debug)]
pub struct PairedPeer {
    pub device_id: DeviceId,
    pub hostname: String,
    pub addresses: Vec<IpAddress>,
    pub public_key: Vec<u8>,
}

/// What is shown of the peers.
#[derive(Debug)]
pub struct PeerView {
    pub name: String,
    pub online: bool,
    pub status: String,
    pub reachable_names: String,
}

/// The paired devices, and who of them answered the latest probe.
#[derive(Debug)]
pub struct Controller {
    pub peers: Vec<PairedPeer>,
    /// Whether discovery has completed at all.
    pub checked: bool,
    /// The name under which each device answered, by its identifier.
    pub reachable_peers: HashMap<u128, String>,
    pub selected_device: Option<DeviceId>,
}

/// The name under which a device answered.
pub open spec fn answered(reachable: Map<u128, String>, device: DeviceId) -> Option<Seq<char>> {
    if reachable.dom().contains(device.0) {
        Some(reachable[device.0]@)
    } else {
        None
    }
}

/// The names of the paired devices that answered, in the order of pairing.
pub open spec fn answered_names(
    peers: Seq<PairedPeer>,
    reachable: Map<u128, String>,
) -> Seq<Seq<char>>
    decreases peers.len(),
{
    if peers.len() == 0 {
        Seq::empty()
    } else {
        let before = answered_names(peers.drop_last(), reachable);
        match answered(reachable, peers.last().device_id) {
            Some(name) => before.push(name),
            None => before,
        }
    }
}

/// The names of the paired devices that answered, without regard to case in order.
pub open spec fn shown_names(
    peers: Seq<PairedPeer>,
    reachable: Map<u128, String>,
) -> Seq<Seq<char>> {
    sorted_texts(answered_names(peers, reachable), true)
}

/// The status line.
pub open spec fn peer_status(checked: bool, paired: nat, reachable: nat) -> Seq<char> {
    if !checked {
        "Reachability not checked yet · refresh to find meshelf devices"@
    } else if reachable == 0 && paired == 0 {
        "No paired meshelf devices · refresh to discover devices"@
    } else if reachable == 0 {
        "No paired meshelf devices are reachable · refresh to retry"@
    } else if reachable == 1 {
        "1 device reachable · paste text or copied files"@
    } else {
        decimal(reachable) + " devices reachable · paste text or copied files"@
    }
}

/// The list of names that is shown.
pub open spec fn names_text(checked: bool, names: Seq<Seq<char>>) -> Seq<char> {
    if names.len() > 0 {
        joined(names, "\n"@)
    } else if checked {
        "No meshelf devices are reachable"@
    } else {
        "Reachability not checked yet"@
    }
}

/// The name that is shown: of the selected device where it answered, else the first.
pub open spec fn shown_name(
    selected: Option<DeviceId>,
    reachable: Map<u128, String>,
    names: Seq<Seq<char>>,
) -> Seq<char> {
    let chosen = match selected {
        Some(device) => answered(reachable, device),
        None => None,
    };
    match chosen {
        Some(name) => name,
        None => if names.len() > 0 {
            names[0]
        } else {
            "Not configured"@
        },
    }
}

/// Whether a device is paired.
pub open spec fn paired(peers: Seq<PairedPeer>, device: DeviceId) -> bool {
    exists|i: int| 0 <= i < peers.len() && (#[trigger] peers[i]).device_id == device
}

/// The position of the first peer whose hostname is `name`, but for case.
pub open spec fn named_at(peers: Seq<PairedPeer>, name: Seq<char>, i: int) -> bool {
    &&& 0 <= i < peers.len()
    &&& ascii_lower(peers[i].hostname@) == ascii_lower(name)
    &&& forall|k: int| 0 <= k < i ==> ascii_lower((#[trigger] peers[k]).hostname@) != ascii_lower(name)
}

/// An answer to a probe: the host that was probed and the device that answered.
#[derive(Debug)]
pub struct ProbeAnswer {
    pub hostname: String,
    pub device_id: DeviceId,
}

/// Who of the paired devices answered, by identifier; a later answer replaces an earlier one.
pub open spec fn answers(
    peers: Seq<PairedPeer>,
    candidates: Seq<ProbeAnswer>,
) -> Map<u128, Seq<char>>
    decreases candidates.len(),
{
    if candidates.len() == 0 {
        Map::empty()
    } else {
        let before = answers(peers, candidates.drop_last());
        let last = candidates.last();
        if paired(peers, last.device_id) {
            before.insert(last.device_id.0, last.hostname@)
        } else {
            before
        }
    }
}

/// A map of names with the names as sequences.
pub open spec fn name_map(m: Map<u128, String>) -> Map<u128, Seq<char>> {
    m.map_values(|s: String| s@)
}

impl Controller {
    /// A controller before its first refresh.
    #[must_use]
    pub fn new(peers: Vec<PairedPeer>) -> (r: Self)
        ensures
            r.peers == peers,
            !r.checked,
            r.reachable_peers@ == Map::<u128, String>::empty(),
            r.selected_device is None,
    {
        Controller { peers, checked: false, reachable_peers: HashMap::new(), selected_device: None }
    }

    fn is_paired(&self, device: DeviceId) -> (r: bool)
        ensures
            r == paired(self.peers@, device),
    {
        let mut i: usize = 0;
        while i < self.peers.len()
            invariant
                i <= self.peers@.len(),
                forall|k: int| 0 <= k < i ==> (#[trigger] self.peers@[k]).device_id != device,
            decreases self.peers@.len() - i,
        {
            if self.peers[i].device_id == device {
                return true;
            }
            i = i + 1;
        }
        false
    }

    /// Takes over a completed discovery: the peers with their current addresses.
    /// Nothing is selected until the next probe.
    pub fn refresh_discovery(&mut self, peers: Vec<PairedPeer>)
        ensures
            final(self).peers == peers,
            final(self).checked,
            final(self).selected_device is None,
            final(self).reachable_peers == old(self).reachable_peers,
    {
        self.peers = peers;
        self.selected_device = None;
        self.checked = true;
    }

    /// Takes over the answers to a probe.  Only paired devices count as reachable,
    /// and only those that answered this time.
    pub fn refresh_reachability(&mut self, candidates: &Vec<ProbeAnswer>) -> (r: Result<(), String>)
        ensures
            r is Ok <==> old(self).checked,
            r matches Err(error) ==> error@
                == "Tailscale discovery has not completed; refresh and retry"@,
            name_map(final(self).reachable_peers@) == if old(self).checked {
                answers(old(self).peers@, candidates@)
            } else {
                Map::<u128, Seq<char>>::empty()
            },
            final(self).peers == old(self).peers,
            final(self).checked == old(self).checked,
            final(self).selected_device == old(self).selected_device,
    {
        broadcast use vstd::std_specs::hash::group_hash_axioms;

        self.reachable_peers = HashMap::new();
        assert(name_map(self.reachable_peers@) =~= Map::<u128, Seq<char>>::empty());
        if !self.checked {
            return Err("Tailscale discovery has not completed; refresh and retry".to_owned());
        }
        let mut i: usize = 0;
        assert(candidates@.subrange(0, 0) =~= Seq::<ProbeAnswer>::empty());
        while i < candidates.len()
            invariant
                i <= candidates@.len(),
                self.peers == old(self).peers,
                self.checked == old(self).checked,
                self.selected_device == old(self).selected_device,
                name_map(self.reachable_peers@) == answers(
                    self.peers@,
                    candidates@.subrange(0, i as int),
                ),
            decreases candidates@.len() - i,
        {
            broadcast use vstd::std_specs::hash::group_hash_axioms;

            let ghost now = candidates@.subrange(0, i + 1);
            let ghost before = self.reachable_peers@;
            assert(now.drop_last() =~= candidates@.subrange(0, i as int));
            assert(now.last() == candidates@[i as int]);
            if self.is_paired(candidates[i].device_id) {
                let name = candidates[i].hostname.clone();
                self.reachable_peers.insert(candidates[i].device_id.0, name);
                assert(name_map(self.reachable_peers@) =~= name_map(before).insert(
                    candidates@[i as int].device_id.0,
                    candidates@[i as int].hostname@,
                ));
            }
            i = i + 1;
        }
        assert(candidates@.subrange(0, i as int) =~= candidates@);
        Ok(())
    }

    /// Takes over the pairing with a device that discovery found.
    pub fn accept_discovered(&mut self, peers: Vec<PairedPeer>, device: DeviceId)
        ensures
            final(self).peers == peers,
            final(self).selected_device == Some(device),
            final(self).checked == old(self).checked,
            final(self).reachable_peers == old(self).reachable_peers,
    {
        self.peers = peers;
        self.selected_device = Some(device);
    }

    /// Selects a peer by identifier or by hostname; without a selector, the first
    /// peer where none is selected.
    pub fn select_peer(&mut self, selector: Option<&str>) -> (r: Result<(), String>)
        ensures
            final(self).peers == old(self).peers,
            final(self).checked == old(self).checked,
            final(self).reachable_peers == old(self).reachable_peers,
            match selector {
                None => r is Ok && final(self).selected_device == if old(self).selected_device is Some {
                    old(self).selected_device
                } else if old(self).peers@.len() > 0 {
                    Some(old(self).peers@[0].device_id)
                } else {
                    None
                },
                Some(text) => {
                    let id = parsed_uuid(text@);
                    if id is Some && paired(old(self).peers@, DeviceId(id->0)) {
                        r is Ok && final(self).selected_device == Some(DeviceId(id->0))
                    } else {
                        match r {
                            Ok(()) => exists|i: int|
                                #[trigger] named_at(old(self).peers@, text@, i)
                                    && final(self).selected_device == Some(
                                    old(self).peers@[i].device_id,
                                ),
                            Err(error) => {
                                &&& forall|i: int| !#[trigger] named_at(old(self).peers@, text@, i)
                                &&& error@ == "trusted meshelf peer not found: "@ + text@
                                &&& final(self).selected_device == old(self).selected_device
                            },
                        }
                    }
                },
            },
    {
        let text = match selector {
            Some(text) => text,
            None => {
                if self.selected_device.is_none() && self.peers.len() > 0 {
                    self.selected_device = Some(self.peers[0].device_id);
                }
                return Ok(());
            },
        };
        if let Ok(device) = DeviceId::from_str(text) {
            if self.is_paired(device) {
                self.selected_device = Some(device);
                return Ok(());
            }
        }
        let wanted = to_ascii_lower(text);
        let mut i: usize = 0;
        while i < self.peers.len()
            invariant
                i <= self.peers@.len(),
                *self == *old(self),
                wanted@ == ascii_lower(text@),
                !(parsed_uuid(text@) is Some && paired(
                    self.peers@,
                    DeviceId(parsed_uuid(text@)->0),
                )),
                selector == Some(text),
                forall|k: int|
                    0 <= k < i ==> ascii_lower((#[trigger] self.peers@[k]).hostname@)
                        != ascii_lower(text@),
            decreases self.peers@.len() - i,
        {
            let name = to_ascii_lower(self.peers[i].hostname.as_str());
            if text_eq(name.as_str(), wanted.as_str()) {
                assert(named_at(self.peers@, text@, i as int));
                self.selected_device = Some(self.peers[i].device_id);
                return Ok(());
            }
            i = i + 1;
        }
        Err(join2("trusted meshelf peer not found: ", text))
    }

    fn reachable_paired_names(&self) -> (r: Vec<String>)
        ensures
            views(r@) == shown_names(self.peers@, self.reachable_peers@),
    {
        broadcast use vstd::std_specs::hash::group_hash_axioms;

        let mut names: Vec<String> = Vec::new();
        let mut i: usize = 0;
        assert(self.peers@.subrange(0, 0) =~= Seq::<PairedPeer>::empty());
        assert(views(names@) =~= Seq::<Seq<char>>::empty());
        while i < self.peers.len()
            invariant
                i <= self.peers@.len(),
                views(names@) == answered_names(
                    self.peers@.subrange(0, i as int),
                    self.reachable_peers@,
                ),
            decreases self.peers@.len() - i,
        {
            broadcast use vstd::std_specs::hash::group_hash_axioms;

            let ghost now = self.peers@.subrange(0, i + 1);
            let ghost before = views(names@);
            assert(now.drop_last() =~= self.peers@.subrange(0, i as int));
            assert(now.last() == self.peers@[i as int]);
            if let Some(name) = self.reachable_peers.get(&self.peers[i].device_id.0) {
                names.push(name.clone());
                assert(views(names@) =~= before.push(name@));
            }
            i = i + 1;
        }
        assert(self.peers@.subrange(0, i as int) =~= self.peers@);
        sort_texts(names, true)
    }

    /// What is shown of the peers.
    #[must_use]
    pub fn view(&self) -> (r: PeerView)
        ensures
            ({
                let names = shown_names(self.peers@, self.reachable_peers@);
                &&& r.name@ == shown_name(self.selected_device, self.reachable_peers@, names)
                &&& r.online == (names.len() > 0)
                &&& r.status@ == peer_status(self.checked, self.peers@.len(), names.len())
                &&& r.reachable_names@ == names_text(self.checked, names)
            }),
    {
        broadcast use vstd::std_specs::hash::group_hash_axioms;

        let names = self.reachable_paired_names();
        assert(views(names@).len() == names@.len());
        let status = if !self.checked {
            "Reachability not checked yet · refresh to find meshelf devices".to_owned()
        } else if names.len() == 0 && self.peers.len() == 0 {
            "No paired meshelf devices · refresh to discover devices".to_owned()
        } else if names.len() == 0 {
            "No paired meshelf devices are reachable · refresh to retry".to_owned()
        } else if names.len() == 1 {
            "1 device reachable · paste text or copied files".to_owned()
        } else {
            join2(
                decimal_text(names.len() as u64).as_str(),
                " devices reachable · paste text or copied files",
            )
        };
        let chosen = match self.selected_device {
            Some(device) => match self.reachable_peers.get(&device.0) {
                Some(name) => Some(name.clone()),
                None => None,
            },
            None => None,
        };
        let name = match chosen {
            Some(name) => name,
            None => if names.len() > 0 {
                assert(views(names@)[0] == names@[0]@);
                names[0].clone()
            } else {
                "Not configured".to_owned()
            },
        };
        let reachable_names = if names.len() > 0 {
            join_texts(&names, "\n")
        } else if self.checked {
            "No meshelf devices are reachable".to_owned()
        } else {
            "Reachability not checked yet".to_owned()
        };
        PeerView { name, online: names.len() > 0, status, reachable_names }
    }
}

/// Whether a discovered server is paired with: it speaks the second protocol
/// version, pulls offers and signed its answer.
pub open spec fn pairs_with(server: ServerHello, signature_valid: bool) -> bool {
    &&& server.protocol_version == V2_PROTOCOL_VERSION
    &&& pulls_offers(server.capabilities@)
    &&& signature_valid
}

/// Whether a discovered server is paired with.
#[must_use]
pub fn accepts_discovered(server: &ServerHello, signature_valid: bool) -> (r: bool)
    ensures
        r == pairs_with(*server, signature_valid),
{
    server.protocol_version == V2_PROTOCOL_VERSION && has_offer_pull(&server.capabilities)
        && signature_valid
}

/// A device that is not paired is never among the reachable ones.
pub proof fn lemma_only_paired_devices_are_reachable(
    peers: Seq<PairedPeer>,
    candidates: Seq<ProbeAnswer>,
    device: DeviceId,
)
    ensures
        answers(peers, candidates).dom().contains(device.0) ==> paired(peers, device) && exists|
            i: int,
        |
            0 <= i < candidates.len() && (#[trigger] candidates[i]).device_id == device,
    decreases candidates.len(),
{
    if candidates.len() > 0 {
        let before = candidates.drop_last();
        lemma_only_paired_devices_are_reachable(peers, before, device);
        if answers(peers, candidates).dom().contains(device.0) {
            if paired(peers, candidates.last().device_id) && candidates.last().device_id.0
                == device.0 {
                assert(candidates[candidates.len() - 1].device_id == device);
            } else {
                let i = choose|i: int|
                    0 <= i < before.len() && (#[trigger] before[i]).device_id == device;
                assert(candidates[i].device_id == device);
            }
        }
    }
}

/// The status never speaks of more reachable devices than are paired.
pub proof fn lemma_reachable_names_are_paired(
    peers: Seq<PairedPeer>,
    reachable: Map<u128, String>,
)
    ensures
        shown_names(peers, reachable).len() <= peers.len(),
{
    lemma_answered_names_bound(peers, reachable);
    crate::order::lemma_sorting_keeps_length(answered_names(peers, reachable), true);
}

proof fn lemma_answered_names_bound(peers: Seq<PairedPeer>, reachable: Map<u128, String>)
    ensures
        answered_names(peers, reachable).len() <= peers.len(),
    decreases peers.len(),
{
    if peers.len() > 0 {
        lemma_answered_names_bound(peers.drop_last(), reachable);
    }
}

} // verus!
