//! What the desktop shows and when it lets an operation start.
use std::collections::HashMap;
use vstd::prelude::*;

use crate::activation::{ActivationMode, FetchActivation};
use crate::controller::{PairedPeer, PeerView, MESHELF_PORT};
use crate::coordinator::{ActivationPlan, OfferPlan};
use crate::ids::{hyphenated, DeviceId, OfferId};
use crate::net::{address_in, preferred_ip, select_discovered_socket, IpAddress, SocketAddress};
use crate::offer::{CardAvailability, DescriptorView, OfferDescriptor};
use crate::order::{join_texts, joined};
use crate::path::HostPath;
use crate::send::FetchRequest;
use crate::service::MAX_CONCURRENT_ACTIVATIONS;
use crate::settings::SaveDestination;
use crate::store::OfferCardRecord;
use crate::text::{blank, decimal, decimal_text, is_blank, join2, join3, opt_view, text_eq, views};
use crate::trust::{ClientHello, TrustDecision};
use crate::wire::same_bytes;

verus! {

/// Lets one operation run at a time.
#[derive(Debug)]
pub struct OperationGate {
    busy: bool,
}

/// The right to run the one operation.
#[derive(Debug)]
pub struct OperationPermit {
    _entered: (),
}

impl OperationGate {
    pub closed spec fn is_busy(self) -> bool {
        self.busy
    }

    /// Enters, if nothing runs.
    pub fn try_enter(&mut self) -> (r: Option<OperationPermit>)
        ensures
            r is Some <==> !old(self).is_busy(),
            final(self).is_busy(),
    {
        if self.busy {
            return None;
        }
        self.busy = true;
        Some(OperationPermit { _entered: () })
    }

    /// Leaves.
    pub fn leave(&mut self, permit: OperationPermit)
        ensures
            !final(self).is_busy(),
    {
        self.busy = false;
    }
}

impl Default for OperationGate {
    fn default() -> (r: Self)
        ensures
            !r.is_busy(),
    {
        OperationGate { busy: false }
    }
}

/// Lets two activations run at a time.
#[derive(Debug)]
pub struct ActivationGate {
    active: usize,
}

/// The right to run an activation.
#[derive(Debug)]
pub struct ActivationPermit {
    _entered: (),
}

impl ActivationGate {
    pub closed spec fn running(self) -> nat {
        self.active as nat
    }

    /// No more activations run than may enter.
    pub open spec fn wf(self) -> bool {
        self.running() <= MAX_CONCURRENT_ACTIVATIONS
    }

    /// Enters, if fewer than two run.
    pub fn try_enter(&mut self) -> (r: Option<ActivationPermit>)
        requires
            old(self).wf(),
        ensures
            final(self).wf(),
            r is Some <==> old(self).running() < MAX_CONCURRENT_ACTIVATIONS,
            final(self).running() == old(self).running() + if r is Some {
                1int
            } else {
                0int
            },
    {
        if self.active >= MAX_CONCURRENT_ACTIVATIONS {
            return None;
        }
        self.active = self.active + 1;
        Some(ActivationPermit { _entered: () })
    }

    /// Leaves.
    pub fn leave(&mut self, permit: ActivationPermit)
        requires
            old(self).wf(),
        ensures
            final(self).wf(),
            final(self).running() == if old(self).running() > 0 {
                old(self).running() - 1
            } else {
                0
            },
    {
        if self.active > 0 {
            self.active = self.active - 1;
        }
    }
}

impl Default for ActivationGate {
    fn default() -> (r: Self)
        ensures
            r.wf(),
            r.running() == 0,
    {
        ActivationGate { active: 0 }
    }
}

/// Why reachability is refreshed.  There is no timer among the reasons.
#[derive(Debug, Clone, Copy, PartialEq, Eq, Structural)]
pub enum DiscoveryRefreshTrigger {
    Launch,
    Explicit,
    BeforeUserOperation,
}

/// Refreshes reachability once for each trigger.
#[derive(Debug, Clone, Copy, PartialEq, Eq, Structural)]
pub struct DiscoveryEventLoop;

impl DiscoveryEventLoop {
    /// Runs the refresh once and says whether it started.
    pub fn dispatch<F: FnOnce() -> bool>(
        self,
        trigger: DiscoveryRefreshTrigger,
        refresh: F,
    ) -> (r: bool)
        requires
            refresh.requires(()),
        ensures
            refresh.ensures((), r),
    {
        refresh()
    }
}

/// The keyboard of the host.
#[derive(Debug, Clone, Copy, PartialEq, Eq, Structural)]
pub enum Keyboard {
    Mac,
    Other,
}

#[must_use]
pub fn paste_shortcut(keyboard: Keyboard) -> (r: &'static str)
    ensures
        r@ == match keyboard {
            Keyboard::Mac => "⌘V"@,
            Keyboard::Other => "Ctrl+V"@,
        },
{
    match keyboard {
        Keyboard::Mac => "⌘V",
        Keyboard::Other => "Ctrl+V",
    }
}

#[must_use]
pub fn refresh_shortcut(keyboard: Keyboard) -> (r: &'static str)
    ensures
        r@ == match keyboard {
            Keyboard::Mac => "⌘R"@,
            Keyboard::Other => "Ctrl+R"@,
        },
{
    match keyboard {
        Keyboard::Mac => "⌘R",
        Keyboard::Other => "Ctrl+R",
    }
}

#[must_use]
pub fn shelf_shortcut_help(keyboard: Keyboard) -> (r: &'static str)
    ensures
        r@ == match keyboard {
            Keyboard::Mac => "click or ⌘1–5 to pull · ⌥1–5 to save files"@,
            Keyboard::Other => "click or Ctrl+1–5 to pull · Alt+1–5 to save files"@,
        },
{
    match keyboard {
        Keyboard::Mac => "click or ⌘1–5 to pull · ⌥1–5 to save files",
        Keyboard::Other => "click or Ctrl+1–5 to pull · Alt+1–5 to save files",
    }
}

pub open spec fn item_key(keyboard: Keyboard, index: nat) -> Seq<char> {
    match keyboard {
        Keyboard::Mac => "⌘"@ + decimal(index),
        Keyboard::Other => "Ctrl+"@ + decimal(index),
    }
}

pub open spec fn save_key(keyboard: Keyboard, index: nat) -> Seq<char> {
    match keyboard {
        Keyboard::Mac => "⌥"@ + decimal(index),
        Keyboard::Other => "Alt+"@ + decimal(index),
    }
}

#[must_use]
pub fn item_shortcut(keyboard: Keyboard, index: usize) -> (r: String)
    ensures
        r@ == item_key(keyboard, index as nat),
{
    match keyboard {
        Keyboard::Mac => join2("⌘", decimal_text(index as u64).as_str()),
        Keyboard::Other => join2("Ctrl+", decimal_text(index as u64).as_str()),
    }
}

#[must_use]
pub fn save_shortcut(keyboard: Keyboard, index: usize) -> (r: String)
    ensures
        r@ == save_key(keyboard, index as nat),
{
    match keyboard {
        Keyboard::Mac => join2("⌥", decimal_text(index as u64).as_str()),
        Keyboard::Other => join2("Alt+", decimal_text(index as u64).as_str()),
    }
}

/// One row of the shelf as it is shown; `S` is the type of the texts.
#[derive(Debug)]
pub struct ShelfRow<S = String> {
    pub icon: S,
    pub offer_id: S,
    pub kind: S,
    pub origin_device: S,
    pub name: S,
    pub size: S,
    pub preview: S,
    pub counts: S,
    pub availability: S,
    pub progress: S,
    pub active: bool,
    pub can_activate: bool,
    pub can_save: bool,
    pub detail: S,
    pub shortcut: S,
    pub save_shortcut: S,
}

impl View for ShelfRow<String> {
    type V = ShelfRow<Seq<char>>;

    open spec fn view(&self) -> ShelfRow<Seq<char>> {
        ShelfRow {
            icon: self.icon@,
            offer_id: self.offer_id@,
            kind: self.kind@,
            origin_device: self.origin_device@,
            name: self.name@,
            size: self.size@,
            preview: self.preview@,
            counts: self.counts@,
            availability: self.availability@,
            progress: self.progress@,
            active: self.active,
            can_activate: self.can_activate,
            can_save: self.can_save,
            detail: self.detail@,
            shortcut: self.shortcut@,
            save_shortcut: self.save_shortcut@,
        }
    }
}

/// The name of a device: its hostname where it is known, else its identifier.
pub open spec fn origin_name(names: Map<u128, String>, device: DeviceId) -> Seq<char> {
    if names.dom().contains(device.0) {
        names[device.0]@
    } else {
        hyphenated(device.0)
    }
}

/// Icon and kind of an offer.
pub open spec fn icon_and_kind(descriptor: DescriptorView) -> (Seq<char>, Seq<char>) {
    match descriptor {
        DescriptorView::Text { .. } => ("📝"@, "Text"@),
        DescriptorView::File { .. } => ("📄"@, "File"@),
        DescriptorView::Folder { .. } => ("📁"@, "Folder"@),
    }
}

/// Name, size, preview and counts of an offer.
pub open spec fn described(descriptor: DescriptorView) -> (
    Seq<char>,
    Seq<char>,
    Seq<char>,
    Seq<char>,
) {
    match descriptor {
        DescriptorView::Text { utf8_bytes, preview, .. } => (
            Seq::empty(),
            decimal(utf8_bytes as nat) + " bytes"@,
            preview,
            Seq::empty(),
        ),
        DescriptorView::File { root_name, total_bytes } => (
            root_name,
            decimal(total_bytes as nat) + " bytes"@,
            Seq::empty(),
            Seq::empty(),
        ),
        DescriptorView::Folder {
            root_name,
            total_bytes,
            entry_count,
            file_count,
            directory_count,
        } => (
            root_name,
            decimal(total_bytes as nat) + " bytes"@,
            Seq::empty(),
            decimal(entry_count as nat) + " entries · "@ + decimal(file_count as nat)
                + " files · "@ + decimal(directory_count as nat) + " folders"@,
        ),
    }
}

pub open spec fn availability_text(availability: CardAvailability) -> Seq<char> {
    match availability {
        CardAvailability::Available => "available"@,
        CardAvailability::SourceUnavailable => "source unavailable"@,
        CardAvailability::SourceChanged => "source changed"@,
    }
}

/// The row of a card: only what the card itself says, and whether it can be
/// activated now.
pub open spec fn row_of(
    names: Map<u128, String>,
    index: nat,
    record: OfferCardRecord,
    progress: Option<Seq<char>>,
    keyboard: Keyboard,
) -> ShelfRow<Seq<char>> {
    let source = origin_name(names, record.source_device);
    let (name, size, preview, counts) = described(record.descriptor@);
    ShelfRow {
        icon: icon_and_kind(record.descriptor@).0,
        offer_id: hyphenated(record.offer_id.0),
        kind: icon_and_kind(record.descriptor@).1,
        origin_device: source,
        name,
        size,
        preview,
        counts,
        availability: availability_text(record.availability),
        progress: match progress {
            Some(text) => text,
            None => Seq::empty(),
        },
        active: progress is Some,
        can_activate: progress is None && !(record.availability is SourceChanged),
        can_save: !(record.descriptor@ is Text),
        detail: "From "@ + source,
        shortcut: if index < 5 {
            item_key(keyboard, index + 1)
        } else {
            "click"@
        },
        save_shortcut: if index < 5 {
            save_key(keyboard, index + 1)
        } else {
            "save"@
        },
    }
}

fn describe_descriptor(descriptor: &OfferDescriptor) -> (r: (String, String, String, String))
    ensures
        (r.0@, r.1@, r.2@, r.3@) == described(descriptor@),
{
    match descriptor {
        OfferDescriptor::Text { utf8_bytes, preview, .. } => (
            String::new(),
            join2(decimal_text(*utf8_bytes as u64).as_str(), " bytes"),
            preview.clone(),
            String::new(),
        ),
        OfferDescriptor::File { root_name, total_bytes } => (
            root_name.clone(),
            join2(decimal_text(*total_bytes).as_str(), " bytes"),
            String::new(),
            String::new(),
        ),
        OfferDescriptor::Folder {
            root_name,
            total_bytes,
            entry_count,
            file_count,
            directory_count,
        } => {
            let entries = join3(
                decimal_text(*entry_count as u64).as_str(),
                " entries · ",
                decimal_text(*file_count as u64).as_str(),
            );
            let counts = join3(
                entries.as_str(),
                " files · ",
                decimal_text(*directory_count as u64).as_str(),
            );
            (
                root_name.clone(),
                join2(decimal_text(*total_bytes).as_str(), " bytes"),
                String::new(),
                join2(counts.as_str(), " folders"),
            )
        },
    }
}

/// The row that is shown for a card.
#[must_use]
pub fn shelf_row(
    peer_names: &HashMap<u128, String>,
    index: usize,
    record: &OfferCardRecord,
    progress: Option<String>,
    keyboard: Keyboard,
) -> (r: ShelfRow)
    ensures
        r@ == row_of(peer_names@, index as nat, *record, opt_view(progress), keyboard),
{
    broadcast use vstd::std_specs::hash::group_hash_axioms;

    let source = match peer_names.get(&record.source_device.0) {
        Some(name) => name.clone(),
        None => record.source_device.text(),
    };
    let (name, size, preview, counts) = describe_descriptor(&record.descriptor);
    let (icon, kind) = match &record.descriptor {
        OfferDescriptor::Text { .. } => ("📝", "Text"),
        OfferDescriptor::File { .. } => ("📄", "File"),
        OfferDescriptor::Folder { .. } => ("📁", "Folder"),
    };
    let availability = match record.availability {
        CardAvailability::Available => "available",
        CardAvailability::SourceUnavailable => "source unavailable",
        CardAvailability::SourceChanged => "source changed",
    };
    let active = progress.is_some();
    let can_activate = !active && !matches!(record.availability, CardAvailability::SourceChanged);
    let shortcut = if index < 5 {
        item_shortcut(keyboard, index + 1)
    } else {
        "click".to_owned()
    };
    let save = if index < 5 {
        save_shortcut(keyboard, index + 1)
    } else {
        "save".to_owned()
    };
    let detail = join2("From ", source.as_str());
    let shown_progress = match progress {
        Some(text) => text,
        None => String::new(),
    };
    ShelfRow {
        icon: icon.to_owned(),
        offer_id: record.offer_id.text(),
        kind: kind.to_owned(),
        origin_device: source,
        name,
        size,
        preview,
        counts,
        availability: availability.to_owned(),
        progress: shown_progress,
        active,
        can_activate,
        can_save: !record.descriptor.is_text(),
        detail,
        shortcut,
        save_shortcut: save,
    }
}

/// A row never shows more of a text than its preview, and a card that is being
/// pulled or whose source changed cannot be activated.
pub proof fn lemma_row_shows_only_the_preview(
    names: Map<u128, String>,
    index: nat,
    record: OfferCardRecord,
    progress: Option<Seq<char>>,
    keyboard: Keyboard,
)
    ensures
        ({
            let row = row_of(names, index, record, progress, keyboard);
            &&& record.descriptor@ matches DescriptorView::Text { preview, .. } ==> row.preview
                == preview && row.name.len() == 0 && !row.can_save
            &&& !(record.descriptor@ is Text) ==> row.preview.len() == 0 && row.can_save
            &&& row.active || record.availability is SourceChanged ==> !row.can_activate
        }),
{
}

/// The text that is shown for a destination.
#[must_use]
pub fn destination_label(destination: &SaveDestination) -> (r: String)
    ensures
        r@ == match *destination {
            SaveDestination::Downloads => "Downloads"@,
            SaveDestination::Custom { path } => path@.text,
        },
{
    match destination {
        SaveDestination::Downloads => "Downloads".to_owned(),
        SaveDestination::Custom { path } => path.text.clone(),
    }
}

/// The part of the window that shows the peers.
#[derive(Debug)]
pub struct PeerPanel {
    pub default_peer: String,
    pub default_peer_online: bool,
    pub status_text: String,
    pub reachable_names: String,
}

/// Shows the peers.
pub fn apply_peer_view(panel: &mut PeerPanel, view: PeerView)
    ensures
        final(panel).default_peer == view.name,
        final(panel).default_peer_online == view.online,
        final(panel).status_text == view.status,
        final(panel).reachable_names == view.reachable_names,
{
    panel.default_peer = view.name;
    panel.default_peer_online = view.online;
    panel.status_text = view.status;
    panel.reachable_names = view.reachable_names;
}

/// Shows that a refresh failed; names from before are not shown any more.
pub fn apply_refresh_error(panel: &mut PeerPanel, error: String)
    ensures
        final(panel).reachable_names@ == "Reachability unavailable"@,
        final(panel).status_text == error,
        final(panel).default_peer == old(panel).default_peer,
        final(panel).default_peer_online == old(panel).default_peer_online,
{
    panel.reachable_names = "Reachability unavailable".to_owned();
    panel.status_text = error;
}

/// What the pairing state says of a client.
#[derive(Debug)]
pub enum PeerLookup {
    /// The state could not be read.
    Unavailable,
    Unknown,
    Paired(PairedPeer),
}

/// Whether a client is this paired peer: with its key, from one of its addresses,
/// and with a valid signature.
pub open spec fn is_peer(
    peer: PairedPeer,
    remote: IpAddress,
    hello: ClientHello,
    signature_valid: bool,
) -> bool {
    &&& peer.addresses@.contains(remote)
    &&& peer.public_key@ == hello.public_key@
    &&& signature_valid
}

/// What the pairing state decides about a client.  With `explain_key` a key of the
/// wrong length is named as the reason.
pub open spec fn approval(
    lookup: PeerLookup,
    remote: IpAddress,
    hello: ClientHello,
    signature_valid: bool,
    explain_key: bool,
) -> TrustDecision<Seq<char>> {
    match lookup {
        PeerLookup::Unavailable => TrustDecision::Deny("local meshelf state is unavailable"@),
        PeerLookup::Unknown => TrustDecision::Deny("meshelf installation has not been approved"@),
        PeerLookup::Paired(peer) => if is_peer(peer, remote, hello, signature_valid) {
            TrustDecision::Allow
        } else if explain_key && hello.public_key@.len() != 32 {
            TrustDecision::Deny("peer hello has no valid installation key"@)
        } else {
            TrustDecision::Deny("approved peer key or Tailscale address does not match"@)
        },
    }
}

/// Decides about a client from the pairing state.
pub fn authorize_paired(
    lookup: &PeerLookup,
    remote: IpAddress,
    hello: &ClientHello,
    signature_valid: bool,
    explain_key: bool,
) -> (r: TrustDecision)
    ensures
        r@ == approval(*lookup, remote, *hello, signature_valid, explain_key),
{
    match lookup {
        PeerLookup::Unavailable => TrustDecision::Deny(
            "local meshelf state is unavailable".to_owned(),
        ),
        PeerLookup::Unknown => TrustDecision::Deny(
            "meshelf installation has not been approved".to_owned(),
        ),
        PeerLookup::Paired(peer) => {
            if address_in(&peer.addresses, remote) && same_bytes(
                &peer.public_key,
                &hello.public_key,
            ) && signature_valid {
                TrustDecision::Allow
            } else if explain_key && hello.public_key.len() != 32 {
                TrustDecision::Deny("peer hello has no valid installation key".to_owned())
            } else {
                TrustDecision::Deny(
                    "approved peer key or Tailscale address does not match".to_owned(),
                )
            }
        },
    }
}

/// Only a paired peer is let in, and only with its key, from one of its addresses and
/// with a valid signature.
pub proof fn lemma_only_peers_are_allowed(
    lookup: PeerLookup,
    remote: IpAddress,
    hello: ClientHello,
    signature_valid: bool,
    explain_key: bool,
)
    ensures
        approval(lookup, remote, hello, signature_valid, explain_key) is Allow <==> (
        lookup matches PeerLookup::Paired(peer) && is_peer(peer, remote, hello, signature_valid)),
{
}

/// Whether an activation needs the clipboard, and whether it is there.
pub fn clipboard_for_activation(mode: ActivationMode, available: bool) -> (r: Result<bool, String>)
    ensures
        match mode {
            ActivationMode::Save => r == Ok::<bool, String>(false),
            ActivationMode::Clipboard => if available {
                r == Ok::<bool, String>(true)
            } else {
                r matches Err(error) && error@ == "Clipboard adapter is unavailable"@
            },
        },
{
    match mode {
        ActivationMode::Save => Ok(false),
        ActivationMode::Clipboard => if available {
            Ok(true)
        } else {
            Err("Clipboard adapter is unavailable".to_owned())
        },
    }
}

/// An offer that is being pulled: how to cancel that, and what is shown of it.
#[derive(Debug)]
pub struct ActiveActivation<H> {
    pub cancel: H,
    pub progress: String,
}

/// The offers that are being pulled, by identifier.
#[derive(Debug)]
pub struct ActiveActivations<H> {
    pub offers: HashMap<u128, ActiveActivation<H>>,
}

impl<H> ActiveActivations<H> {
    #[must_use]
    pub fn new() -> (r: Self)
        ensures
            r.offers@ == Map::<u128, ActiveActivation<H>>::empty(),
    {
        ActiveActivations { offers: HashMap::new() }
    }

    /// Notes an offer as being pulled, unless it already is: then what was noted of it
    /// stays.
    pub fn register_active_activation(
        &mut self,
        offer_id: OfferId,
        activation: ActiveActivation<H>,
    ) -> (r: bool)
        ensures
            r == !old(self).offers@.dom().contains(offer_id.0),
            final(self).offers@ == if r {
                old(self).offers@.insert(offer_id.0, activation)
            } else {
                old(self).offers@
            },
    {
        broadcast use vstd::std_specs::hash::group_hash_axioms;

        if self.offers.contains_key(&offer_id.0) {
            return false;
        }
        self.offers.insert(offer_id.0, activation);
        true
    }

    /// An offer is not being pulled any more.
    pub fn remove_active_activation(&mut self, offer_id: OfferId)
        ensures
            final(self).offers@ == old(self).offers@.remove(offer_id.0),
    {
        broadcast use vstd::std_specs::hash::group_hash_axioms;

        self.offers.remove(&offer_id.0);
    }
}

impl<H> Default for ActiveActivations<H> {
    fn default() -> (r: Self)
        ensures
            r.offers@ == Map::<u128, ActiveActivation<H>>::empty(),
    {
        ActiveActivations::new()
    }
}

/// Reads the mode that a row asks for.
pub fn parse_mode(text: &str) -> (r: Result<ActivationMode, String>)
    ensures
        if text@ == "clipboard"@ {
            r == Ok::<ActivationMode, String>(ActivationMode::Clipboard)
        } else if text@ == "save"@ {
            r == Ok::<ActivationMode, String>(ActivationMode::Save)
        } else {
            r matches Err(error) && error@ == "The activation mode is invalid"@
        },
{
    proof {
        reveal_strlit("clipboard");
        reveal_strlit("save");
    }
    if text_eq(text, "clipboard") {
        Ok(ActivationMode::Clipboard)
    } else if text_eq(text, "save") {
        Ok(ActivationMode::Save)
    } else {
        Err("The activation mode is invalid".to_owned())
    }
}

/// What a clipboard holds.
#[derive(Debug)]
pub enum ClipboardItem {
    Text(String),
    Files(Vec<String>),
}

/// Checks that there is something to send on the clipboard.
pub fn check_clipboard_item(item: &ClipboardItem) -> (r: Result<(), String>)
    ensures
        match *item {
            ClipboardItem::Text(text) => if blank(text@) {
                r matches Err(error) && error@ == "Clipboard contains no text to send"@
            } else {
                r is Ok
            },
            ClipboardItem::Files(paths) => if paths@.len() == 0 {
                r matches Err(error) && error@ == "Clipboard contains no files or folders"@
            } else {
                r is Ok
            },
        },
{
    match item {
        ClipboardItem::Text(text) => if is_blank(text.as_str()) {
            Err("Clipboard contains no text to send".to_owned())
        } else {
            Ok(())
        },
        ClipboardItem::Files(paths) => if paths.len() == 0 {
            Err("Clipboard contains no files or folders".to_owned())
        } else {
            Ok(())
        },
    }
}

/// What is needed to pull an offer from its source.
#[derive(Debug)]
pub struct ActivationInput {
    pub address: SocketAddress,
    /// What the greeting is signed over.
    pub nonce: String,
    pub request: FetchRequest,
    pub activation: FetchActivation,
    pub expected_server_public_key: Vec<u8>,
}

/// Why a planned activation cannot be carried out.
pub open spec fn input_error(
    plan: ActivationPlan,
    peer: Option<PairedPeer>,
    destination: Result<HostPath, String>,
) -> Option<Seq<char>> {
    match peer {
        None => Some("the offer's source device is not paired"@),
        Some(peer) => if preferred_ip(peer.addresses@) is None {
            Some("the offer's source device has no address"@)
        } else if plan.mode is Clipboard {
            None
        } else if plan.destination is None {
            Some("save activation has no destination setting"@)
        } else {
            match destination {
                Err(text) => Some(text@),
                Ok(_) => None,
            }
        },
    }
}

/// Whether `input` asks the peer for the planned offer.
pub open spec fn carries_out(
    input: ActivationInput,
    plan: ActivationPlan,
    local_device: DeviceId,
    peer: PairedPeer,
    destination: Result<HostPath, String>,
) -> bool {
    &&& input.address == (SocketAddress {
        ip: preferred_ip(peer.addresses@)->0,
        port: MESHELF_PORT,
    })
    &&& input.nonce@ == hyphenated(plan.activation_id.0)
    &&& input.request == (FetchRequest {
        request_id: plan.activation_id,
        offer_id: plan.offer_id,
        source_device: plan.source_device,
        requester_device: local_device,
    })
    &&& input.activation.request_id == plan.activation_id
    &&& input.activation.source_device == plan.source_device
    &&& input.activation.offer_id == plan.offer_id
    &&& input.activation.mode == plan.mode
    &&& plan.mode is Clipboard ==> input.activation.destination is None
    &&& plan.mode is Save ==> input.activation.destination == Some(destination->Ok_0)
    &&& input.expected_server_public_key@ == peer.public_key@
}

/// Prepares a planned activation.  `destination` is the directory that the plan's
/// destination stands for on this host, or why there is none.
pub fn build_activation_input(
    plan: &ActivationPlan,
    local_device: DeviceId,
    peer: &Option<PairedPeer>,
    destination: Result<HostPath, String>,
) -> (r: Result<ActivationInput, String>)
    ensures
        match input_error(*plan, *peer, destination) {
            Some(text) => r matches Err(error) && error@ == text,
            None => r matches Ok(input) && carries_out(
                input,
                *plan,
                local_device,
                peer->0,
                destination,
            ),
        },
{
    let peer = match peer {
        Some(peer) => peer,
        None => {
            return Err("the offer's source device is not paired".to_owned());
        },
    };
    let address = match select_discovered_socket(&peer.addresses, MESHELF_PORT) {
        Some(address) => address,
        None => {
            return Err("the offer's source device has no address".to_owned());
        },
    };
    let directory = match plan.mode {
        ActivationMode::Clipboard => None,
        ActivationMode::Save => {
            if plan.destination.is_none() {
                return Err("save activation has no destination setting".to_owned());
            }
            match destination {
                Ok(path) => Some(path),
                Err(text) => {
                    return Err(text);
                },
            }
        },
    };
    let request = FetchRequest {
        request_id: plan.activation_id,
        offer_id: plan.offer_id,
        source_device: plan.source_device,
        requester_device: local_device,
    };
    let activation = FetchActivation {
        request_id: plan.activation_id,
        source_device: plan.source_device,
        offer_id: plan.offer_id,
        mode: plan.mode,
        destination: directory,
    };
    Ok(
        ActivationInput {
            address,
            nonce: plan.activation_id.text(),
            request,
            activation,
            expected_server_public_key: peer.public_key.clone(),
        },
    )
}

/// Why an activation does not start; nothing is queued for later.
pub open spec fn start_refusal(
    active: Set<u128>,
    running: nat,
    plan: ActivationPlan,
    clipboard_available: bool,
    peer: Option<PairedPeer>,
    destination: Result<HostPath, String>,
) -> Option<Seq<char>> {
    if active.contains(plan.offer_id.0) {
        Some("This offer is already activating; nothing queued"@)
    } else if plan.mode is Clipboard && !clipboard_available {
        Some("Clipboard adapter is unavailable"@)
    } else if running >= MAX_CONCURRENT_ACTIVATIONS {
        Some("Two activations are already in progress; nothing queued"@)
    } else {
        input_error(plan, peer, destination)
    }
}

/// Starts a planned activation, or says why not.  An offer that is already being
/// pulled keeps what was noted of it.
pub fn start_activation<H>(
    gate: &mut ActivationGate,
    active: &mut ActiveActivations<H>,
    plan: &ActivationPlan,
    cancel: H,
    clipboard_available: bool,
    local_device: DeviceId,
    peer: &Option<PairedPeer>,
    destination: Result<HostPath, String>,
) -> (r: Result<(ActivationPermit, ActivationInput), String>)
    requires
        old(gate).wf(),
    ensures
        final(gate).wf(),
        match start_refusal(
            old(active).offers@.dom(),
            old(gate).running(),
            *plan,
            clipboard_available,
            *peer,
            destination,
        ) {
            Some(text) => {
                &&& r matches Err(error) && error@ == text
                &&& final(gate).running() == old(gate).running()
                &&& final(active).offers@ == old(active).offers@
            },
            None => {
                &&& r matches Ok((_, input)) && carries_out(
                    input,
                    *plan,
                    local_device,
                    peer->0,
                    destination,
                )
                &&& final(gate).running() == old(gate).running() + 1
                &&& final(active).offers@.dom() == old(active).offers@.dom().insert(
                    plan.offer_id.0,
                )
                &&& final(active).offers@[plan.offer_id.0].cancel == cancel
                &&& final(active).offers@[plan.offer_id.0].progress@ == "Pulling…"@
                &&& forall|other: u128|
                    other != plan.offer_id.0 && old(active).offers@.dom().contains(other)
                        ==> #[trigger] final(active).offers@[other] == old(active).offers@[other]
            },
        },
{
    broadcast use vstd::std_specs::hash::group_hash_axioms;

    if active.offers.contains_key(&plan.offer_id.0) {
        return Err("This offer is already activating; nothing queued".to_owned());
    }
    if let Err(error) = clipboard_for_activation(plan.mode, clipboard_available) {
        return Err(error);
    }
    let permit = match gate.try_enter() {
        Some(permit) => permit,
        None => {
            return Err("Two activations are already in progress; nothing queued".to_owned());
        },
    };
    let input = match build_activation_input(plan, local_device, peer, destination) {
        Ok(input) => input,
        Err(error) => {
            gate.leave(permit);
            return Err(error);
        },
    };
    let _ = active.register_active_activation(
        plan.offer_id,
        ActiveActivation { cancel, progress: "Pulling…".to_owned() },
    );
    assert(active.offers@.dom() =~= old(active).offers@.dom().insert(plan.offer_id.0));
    Ok((permit, input))
}

/// What is shown while an activation runs.
#[must_use]
pub fn pulling_status(mode: ActivationMode) -> (r: &'static str)
    ensures
        r@ == match mode {
            ActivationMode::Save => "Pulling offer to the configured destination…"@,
            ActivationMode::Clipboard => "Pulling offer to the clipboard…"@,
        },
{
    match mode {
        ActivationMode::Save => "Pulling offer to the configured destination…",
        ActivationMode::Clipboard => "Pulling offer to the clipboard…",
    }
}

/// The offer to announce, once one was created.
pub fn create_and_announce(created: Result<Option<OfferPlan>, String>) -> (r: Result<
    OfferPlan,
    String,
>)
    ensures
        match created {
            Ok(Some(plan)) => r == Ok::<OfferPlan, String>(plan),
            Ok(None) => r matches Err(error) && error@ == "no other meshelf device is paired"@,
            Err(error) => r == Err::<OfferPlan, String>(error),
        },
{
    match created {
        Ok(Some(plan)) => Ok(plan),
        Ok(None) => Err("no other meshelf device is paired".to_owned()),
        Err(error) => Err(error),
    }
}

/// The first failure among the results from `i` on.
pub open spec fn first_failure(results: Seq<Result<String, String>>, i: int) -> bool {
    &&& 0 <= i < results.len()
    &&& results[i] is Err
    &&& forall|k: int| 0 <= k < i ==> (#[trigger] results[k]) is Ok
}

/// The texts of results that all went well.
pub open spec fn statuses(results: Seq<Result<String, String>>) -> Seq<Seq<char>> {
    Seq::new(results.len(), |i: int| results[i]->Ok_0@)
}

/// What is shown after files were sent one after another: the first failure, or
/// every status.
pub fn sent_status(results: Vec<Result<String, String>>) -> (r: Result<String, String>)
    ensures
        (forall|i: int| 0 <= i < results@.len() ==> (#[trigger] results@[i]) is Ok) ==> (
        r matches Ok(text) && text@ == joined(statuses(results@), "; "@)),
        forall|i: int| #[trigger]
            first_failure(results@, i) ==> (r matches Err(error) && error@
                == results@[i]->Err_0@),
{
    let mut texts: Vec<String> = Vec::new();
    let mut i: usize = 0;
    while i < results.len()
        invariant
            i <= results@.len(),
            texts@.len() == i,
            forall|k: int| 0 <= k < i ==> (#[trigger] results@[k]) is Ok,
            forall|k: int| 0 <= k < i ==> #[trigger] texts@[k]@ == results@[k]->Ok_0@,
        decreases results@.len() - i,
    {
        match &results[i] {
            Ok(text) => texts.push(text.clone()),
            Err(error) => {
                assert(first_failure(results@, i as int));
                return Err(error.clone());
            },
        }
        i = i + 1;
    }
    assert(views(texts@) =~= statuses(results@));
    Ok(join_texts(&texts, "; "))
}

/// The names of the peers by device; of two entries of one device the later counts.
pub open spec fn hostnames(peers: Seq<PairedPeer>) -> Map<u128, Seq<char>>
    decreases peers.len(),
{
    if peers.len() == 0 {
        Map::empty()
    } else {
        hostnames(peers.drop_last()).insert(peers.last().device_id.0, peers.last().hostname@)
    }
}

/// The names of the peers, for the shelf.
#[must_use]
pub fn capture_peer_names(peers: &Vec<PairedPeer>) -> (r: HashMap<u128, String>)
    ensures
        r@.map_values(|name: String| name@) == hostnames(peers@),
{
    broadcast use vstd::std_specs::hash::group_hash_axioms;

    let mut names: HashMap<u128, String> = HashMap::new();
    let mut i: usize = 0;
    assert(names@.map_values(|name: String| name@) =~= hostnames(peers@.subrange(0, 0)));
    while i < peers.len()
        invariant
            i <= peers@.len(),
            names@.map_values(|name: String| name@) == hostnames(peers@.subrange(0, i as int)),
        decreases peers@.len() - i,
    {
        broadcast use vstd::std_specs::hash::group_hash_axioms;

        let ghost before = names@;
        let peer = &peers[i];
        names.insert(peer.device_id.0, peer.hostname.clone());
        proof {
            let part = peers@.subrange(0, i + 1);
            assert(part.drop_last() =~= peers@.subrange(0, i as int));
            assert(names@.map_values(|name: String| name@) =~= before.map_values(
                |name: String| name@,
            ).insert(peer.device_id.0, peer.hostname@));
        }
        i = i + 1;
    }
    assert(peers@.subrange(0, i as int) =~= peers@);
    names
}

/// The rows of the whole shelf, in its order.
#[must_use]
pub fn shelf_rows<H>(
    peer_names: &HashMap<u128, String>,
    active: &ActiveActivations<H>,
    records: Vec<OfferCardRecord>,
    keyboard: Keyboard,
) -> (r: Vec<ShelfRow>)
    ensures
        r@.len() == records@.len(),
        forall|i: int|
            0 <= i < records@.len() ==> (#[trigger] r@[i])@ == row_of(
                peer_names@,
                i as nat,
                records@[i],
                shown_progress(active.offers@, records@[i].offer_id),
                keyboard,
            ),
{
    broadcast use vstd::std_specs::hash::group_hash_axioms;

    let mut rows: Vec<ShelfRow> = Vec::new();
    let mut i: usize = 0;
    while i < records.len()
        invariant
            i <= records@.len(),
            rows@.len() == i,
            forall|k: int|
                0 <= k < i ==> (#[trigger] rows@[k])@ == row_of(
                    peer_names@,
                    k as nat,
                    records@[k],
                    shown_progress(active.offers@, records@[k].offer_id),
                    keyboard,
                ),
        decreases records@.len() - i,
    {
        broadcast use vstd::std_specs::hash::group_hash_axioms;

        let record = &records[i];
        let progress = match active.offers.get(&record.offer_id.0) {
            Some(activation) => Some(activation.progress.clone()),
            None => None,
        };
        rows.push(shelf_row(peer_names, i, record, progress, keyboard));
        i = i + 1;
    }
    rows
}

/// What is shown of an offer that is being pulled.
pub open spec fn shown_progress<H>(
    active: Map<u128, ActiveActivation<H>>,
    offer_id: OfferId,
) -> Option<Seq<char>> {
    if active.dom().contains(offer_id.0) {
        Some(active[offer_id.0].progress@)
    } else {
        None
    }
}

/// The address on which this device listens: one that discovery supplied.
pub fn listener_address(discovered: &Option<Vec<IpAddress>>) -> (r: Result<SocketAddress, String>)
    ensures
        match *discovered {
            None => r matches Err(error) && error@ == "Tailscale status is unavailable"@,
            Some(addresses) => match preferred_ip(addresses@) {
                None => r matches Err(error) && error@ == "Tailscale supplied no local address"@,
                Some(ip) => r == Ok::<SocketAddress, String>(
                    (SocketAddress { ip, port: MESHELF_PORT }),
                ),
            },
        },
{
    match discovered {
        None => Err("Tailscale status is unavailable".to_owned()),
        Some(addresses) => match select_discovered_socket(addresses, MESHELF_PORT) {
            Some(address) => Ok(address),
            None => Err("Tailscale supplied no local address".to_owned()),
        },
    }
}

/// While an offer is being pulled its row cannot be activated, and a second
/// activation of it does not start.
pub proof fn lemma_active_offers_start_nothing<H>(
    names: Map<u128, String>,
    active: Map<u128, ActiveActivation<H>>,
    index: nat,
    record: OfferCardRecord,
    keyboard: Keyboard,
    running: nat,
    plan: ActivationPlan,
    clipboard_available: bool,
    peer: Option<PairedPeer>,
    destination: Result<HostPath, String>,
)
    requires
        plan.offer_id == record.offer_id,
        active.dom().contains(record.offer_id.0),
    ensures
        !row_of(
            names,
            index,
            record,
            shown_progress(active, record.offer_id),
            keyboard,
        ).can_activate,
        start_refusal(
            active.dom(),
            running,
            plan,
            clipboard_available,
            peer,
            destination,
        ) is Some,
{
}

/// With two activations running none starts, whatever it asks for.
pub proof fn lemma_two_activations_at_most(
    active: Set<u128>,
    running: nat,
    plan: ActivationPlan,
    clipboard_available: bool,
    peer: Option<PairedPeer>,
    destination: Result<HostPath, String>,
)
    requires
        running >= 2,
    ensures
        start_refusal(active, running, plan, clipboard_available, peer, destination) is Some,
{
}

} // verus!
