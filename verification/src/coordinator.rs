//! From an input to a stored offer, and from a card to an activation.
use vstd::prelude::*;

use crate::activation::ActivationMode;
use crate::announce::OfferAnnouncement;
use crate::controller::PairedPeer;
use crate::ids::{hyphenated, random_shape, ActivationId, DeviceId, OfferId};
use crate::offer::{CardAvailability, DescriptorView, OfferDescriptor};
use crate::offer_source::{PreparedOfferSource, SourcePreparationError};
use crate::settings::{SaveDestination, UserSettings};
use crate::shelf_changes::{NotifierView, NotifyingOfferCardStore, ShelfChangeNotifier};
use crate::store::{
    OfferCardRecord, OfferCardStore, OfferEligibilityUpdate, OfferSourceInput, OfferSourceInsert,
    OfferSourceStore, StoreError,
};
use crate::text::{join2, join3};

verus! {

/// An announcement that one peer is to get.
#[derive(Debug)]
pub struct PeerAnnouncement {
    pub device_id: DeviceId,
    pub hostname: String,
    pub announcement: OfferAnnouncement,
}

/// A stored offer and who is to hear of it.
#[derive(Debug)]
pub struct OfferPlan {
    pub offer_id: OfferId,
    pub descriptor: OfferDescriptor,
    pub announcements: Vec<PeerAnnouncement>,
}

/// An activation that may start.
#[derive(Debug)]
pub struct ActivationPlan {
    pub activation_id: ActivationId,
    pub source_device: DeviceId,
    pub offer_id: OfferId,
    pub descriptor: OfferDescriptor,
    pub mode: ActivationMode,
    /// Where saved content goes, as it was configured when the plan was made.
    pub destination: Option<SaveDestination>,
}

/// Whether `item` announces the offer to `peer`.
pub open spec fn announces(
    item: PeerAnnouncement,
    peer: PairedPeer,
    identity: DeviceId,
    offer_id: OfferId,
    descriptor: DescriptorView,
    created_at_unix_ms: u64,
) -> bool {
    &&& item.device_id == peer.device_id
    &&& item.hostname@ == peer.hostname@
    &&& item.announcement.offer_id == offer_id
    &&& item.announcement.source_device == identity
    &&& item.announcement.target_device == peer.device_id
    &&& item.announcement.created_at_unix_ms == created_at_unix_ms
    &&& item.announcement.descriptor@ == descriptor
}

/// Whether the list announces the offer to every peer, in order.
pub open spec fn announces_all(
    items: Seq<PeerAnnouncement>,
    peers: Seq<PairedPeer>,
    identity: DeviceId,
    offer_id: OfferId,
    descriptor: DescriptorView,
    created_at_unix_ms: u64,
) -> bool {
    &&& items.len() == peers.len()
    &&& forall|i: int|
        0 <= i < peers.len() ==> announces(
            #[trigger] items[i],
            peers[i],
            identity,
            offer_id,
            descriptor,
            created_at_unix_ms,
        )
}

/// The announcements of an offer, one for each peer.
pub fn announcements_for(
    peers: &Vec<PairedPeer>,
    identity: DeviceId,
    offer_id: OfferId,
    descriptor: &OfferDescriptor,
    created_at_unix_ms: u64,
) -> (r: Vec<PeerAnnouncement>)
    ensures
        announces_all(r@, peers@, identity, offer_id, descriptor@, created_at_unix_ms),
{
    let mut items: Vec<PeerAnnouncement> = Vec::new();
    let mut i: usize = 0;
    while i < peers.len()
        invariant
            i <= peers@.len(),
            items@.len() == i,
            forall|k: int|
                0 <= k < i ==> announces(
                    #[trigger] items@[k],
                    peers@[k],
                    identity,
                    offer_id,
                    descriptor@,
                    created_at_unix_ms,
                ),
        decreases peers@.len() - i,
    {
        let peer = &peers[i];
        items.push(
            PeerAnnouncement {
                device_id: peer.device_id,
                hostname: peer.hostname.clone(),
                announcement: OfferAnnouncement::new(
                    offer_id,
                    identity,
                    peer.device_id,
                    created_at_unix_ms,
                    descriptor.clone(),
                ),
            },
        );
        i = i + 1;
    }
    items
}

/// The devices of all peers.
pub open spec fn peer_ids(peers: Seq<PairedPeer>) -> Seq<DeviceId> {
    Seq::new(peers.len(), |i: int| peers[i].device_id)
}

fn device_ids(peers: &Vec<PairedPeer>) -> (r: Vec<DeviceId>)
    ensures
        r@ == peer_ids(peers@),
{
    let mut ids: Vec<DeviceId> = Vec::new();
    let mut i: usize = 0;
    while i < peers.len()
        invariant
            i <= peers@.len(),
            ids@ =~= peer_ids(peers@).subrange(0, i as int),
        decreases peers@.len() - i,
    {
        ids.push(peers[i].device_id);
        i = i + 1;
    }
    assert(ids@ =~= peer_ids(peers@));
    ids
}

/// What is stored for an offer: eligible is every peer that is paired now.
pub fn offer_to_store(offer_id: OfferId, prepared: PreparedOfferSource, peers: &Vec<PairedPeer>) -> (r:
    OfferSourceInput)
    ensures
        stores_offer(r, offer_id, prepared, peers@),
{
    OfferSourceInput::new(offer_id, prepared.descriptor, device_ids(peers), prepared.source)
}

/// What a card says of an activation: it may start, or why not.
pub open spec fn card_refusal(card: OfferCardRecord, mode: ActivationMode) -> Option<Seq<char>> {
    if mode is Save && card.descriptor@ is Text {
        Some("text offers cannot use save activation"@)
    } else if card.availability is SourceChanged {
        Some("the offer source changed; activation is disabled"@)
    } else {
        None
    }
}

/// The position of the first card of an offer.
pub open spec fn first_card(cards: Seq<OfferCardRecord>, offer_id: OfferId, i: int) -> bool {
    &&& 0 <= i < cards.len()
    &&& cards[i].offer_id == offer_id
    &&& forall|k: int| 0 <= k < i ==> (#[trigger] cards[k]).offer_id != offer_id
}

/// What planning gives: the first card of the offer decides.
pub open spec fn planned(
    r: Result<ActivationPlan, String>,
    cards: Seq<OfferCardRecord>,
    offer_id: OfferId,
    mode: ActivationMode,
    destination: Result<SaveDestination, String>,
    drawn: ActivationId,
) -> bool {
    &&& (forall|i: int| !#[trigger] first_card(cards, offer_id, i)) ==> (r matches Err(error)
        && error@ == "offer "@ + hyphenated(offer_id.0) + " is not on this shelf"@)
    &&& forall|i: int| #[trigger]
        first_card(cards, offer_id, i) ==> match (
            card_refusal(cards[i], mode),
            mode,
            destination,
        ) {
            (Some(text), _, _) => r matches Err(error) && error@ == text,
            (None, ActivationMode::Save, Err(text)) => r matches Err(error) && error@ == text@,
            (None, _, _) => r matches Ok(plan) && {
                &&& plan.activation_id == drawn
                &&& plan.source_device == cards[i].source_device
                &&& plan.offer_id == offer_id
                &&& plan.descriptor@ == cards[i].descriptor@
                &&& plan.mode == mode
                &&& mode is Clipboard ==> plan.destination is None
                &&& mode is Save ==> plan.destination == Some(destination->Ok_0)
            },
        }
}

/// Plans the activation of a card under an identifier that was just drawn.
/// `destination` is where saved content is configured to go, or why that is not known.
pub fn plan_from_shelf(
    cards: &Vec<OfferCardRecord>,
    offer_id: OfferId,
    mode: ActivationMode,
    destination: Result<SaveDestination, String>,
    drawn: ActivationId,
) -> (r: Result<ActivationPlan, String>)
    ensures
        planned(r, cards@, offer_id, mode, destination, drawn),
{
    let mut i: usize = 0;
    while i < cards.len()
        invariant
            i <= cards@.len(),
            forall|k: int| 0 <= k < i ==> (#[trigger] cards@[k]).offer_id != offer_id,
        decreases cards@.len() - i,
    {
        let card = &cards[i];
        if card.offer_id == offer_id {
            assert(first_card(cards@, offer_id, i as int));
            if matches!(mode, ActivationMode::Save) && card.descriptor.is_text() {
                return Err("text offers cannot use save activation".to_owned());
            }
            if matches!(card.availability, CardAvailability::SourceChanged) {
                return Err("the offer source changed; activation is disabled".to_owned());
            }
            let destination = match mode {
                ActivationMode::Save => match destination {
                    Ok(destination) => Some(destination),
                    Err(text) => {
                        return Err(text);
                    },
                },
                ActivationMode::Clipboard => None,
            };
            return Ok(
                ActivationPlan {
                    activation_id: drawn,
                    source_device: card.source_device,
                    offer_id: card.offer_id,
                    descriptor: card.descriptor.clone(),
                    mode,
                    destination,
                },
            );
        }
        i = i + 1;
    }
    Err(join3("offer ", offer_id.text().as_str(), " is not on this shelf"))
}

/// The plan of an offer after the attempt to store it.  Nothing is announced of an
/// offer that was not stored.
pub fn plan_stored_offer(
    identity: DeviceId,
    offer_id: OfferId,
    peers: &Vec<PairedPeer>,
    descriptor: OfferDescriptor,
    created_at_unix_ms: u64,
    stored: Result<(), StoreError>,
) -> (r: Result<OfferPlan, String>)
    ensures
        match stored {
            Err(error) => r matches Err(text) && text@ == not_stored(error@),
            Ok(()) => r matches Ok(plan) && plans(
                plan,
                identity,
                offer_id,
                peers@,
                descriptor@,
                created_at_unix_ms,
            ),
        },
{
    if let Err(error) = stored {
        return Err(join2("could not durably store offer: ", error.describe().as_str()));
    }
    let announcements = announcements_for(
        peers,
        identity,
        offer_id,
        &descriptor,
        created_at_unix_ms,
    );
    Ok(OfferPlan { offer_id, descriptor, announcements })
}

/// What is said where an offer could not be stored.
pub open spec fn not_stored(cause: Seq<char>) -> Seq<char> {
    "could not durably store offer: "@ + ("store error: "@ + cause)
}

/// Whether the plan announces this offer to all peers.
pub open spec fn plans(
    plan: OfferPlan,
    identity: DeviceId,
    offer_id: OfferId,
    peers: Seq<PairedPeer>,
    descriptor: DescriptorView,
    created_at_unix_ms: u64,
) -> bool {
    &&& plan.offer_id == offer_id
    &&& plan.descriptor@ == descriptor
    &&& announces_all(
        plan.announcements@,
        peers,
        identity,
        offer_id,
        descriptor,
        created_at_unix_ms,
    )
}

/// Whether `r` is what a store of cards replied: its cards, or the text of its error.
pub open spec fn shelf_read(
    reply: Result<Vec<OfferCardRecord>, StoreError>,
    r: Result<Vec<OfferCardRecord>, String>,
) -> bool {
    match reply {
        Ok(cards) => r == Ok::<Vec<OfferCardRecord>, String>(cards),
        Err(error) => r matches Err(text) && text@ == unread_shelf(error@),
    }
}

/// What is said where the shelf could not be read.
pub open spec fn unread_shelf(cause: Seq<char>) -> Seq<char> {
    "could not read offer shelf: "@ + ("store error: "@ + cause)
}

/// Whether `r` plans an activation from what a store of cards replied.
pub open spec fn planned_from(
    reply: Result<Vec<OfferCardRecord>, StoreError>,
    r: Result<ActivationPlan, String>,
    offer_id: OfferId,
    mode: ActivationMode,
    destination: Result<SaveDestination, String>,
    drawn: ActivationId,
) -> bool {
    match reply {
        Ok(cards) => planned(r, cards@, offer_id, mode, destination, drawn),
        Err(error) => r matches Err(text) && text@ == unread_shelf(error@),
    }
}

/// Whether `input` is what is stored of an offer: eligible is every peer that is paired
/// now.
pub open spec fn stores_offer(
    input: OfferSourceInput,
    offer_id: OfferId,
    prepared: PreparedOfferSource,
    peers: Seq<PairedPeer>,
) -> bool {
    &&& input.offer_id == offer_id
    &&& input.descriptor == prepared.descriptor
    &&& input.source == prepared.source
    &&& input.announced_to@ == peer_ids(peers)
}

/// Whether `r` is the plan of a prepared offer, given what the store of offers replied
/// when it was to keep it.
pub open spec fn offered(
    reply: Result<OfferSourceInsert, StoreError>,
    r: Result<Option<OfferPlan>, String>,
    identity: DeviceId,
    offer_id: OfferId,
    peers: Seq<PairedPeer>,
    descriptor: DescriptorView,
    created_at_unix_ms: u64,
) -> bool {
    match reply {
        Ok(_) => r matches Ok(Some(plan)) && plans(
            plan,
            identity,
            offer_id,
            peers,
            descriptor,
            created_at_unix_ms,
        ),
        Err(error) => r matches Err(text) && text@ == not_stored(error@),
    }
}

/// The cards that a store gave, or why there are none.
pub fn shelf_reply(reply: Result<Vec<OfferCardRecord>, StoreError>) -> (r: Result<
    Vec<OfferCardRecord>,
    String,
>)
    ensures
        shelf_read(reply, r),
{
    match reply {
        Ok(cards) => Ok(cards),
        Err(error) => Err(join2("could not read offer shelf: ", error.describe().as_str())),
    }
}

/// The resident coordinator of one device: its offers and its cards.
///
/// Whoever watches the shelf is told of every new offer and of every new card.
pub struct Coordinator<S: OfferSourceStore, C: OfferCardStore> {
    pub identity: DeviceId,
    pub offer_store: S,
    /// The cards, with the watchers of the shelf.
    pub card_store: Option<NotifyingOfferCardStore<C>>,
    /// The watchers of the shelf while there is no store of cards.
    pub early_watchers: ShelfChangeNotifier,
}

impl<S: OfferSourceStore, C: OfferCardStore> Coordinator<S, C> {
    /// The watchers of the shelf.
    pub open spec fn watchers(self) -> NotifierView {
        match self.card_store {
            Some(store) => store.shelf_changes@,
            None => self.early_watchers@,
        }
    }

    /// Whether the two hold the same cards: neither has a store of them, or both have the
    /// same.
    pub open spec fn same_cards(self, other: Self) -> bool {
        match (self.card_store, other.card_store) {
            (Some(a), Some(b)) => a.inner == b.inner,
            (None, None) => true,
            _ => false,
        }
    }

    #[must_use]
    pub fn new(identity: DeviceId, offer_store: S) -> (r: Self)
        ensures
            r.identity == identity,
            r.offer_store == offer_store,
            r.card_store is None,
            r.watchers() == (NotifierView { subscribers: Seq::empty(), next: 0 }),
            r.watchers().wf(),
    {
        Coordinator {
            identity,
            offer_store,
            card_store: None,
            early_watchers: ShelfChangeNotifier::new(),
        }
    }

    /// Keeps its cards in this store.  Whoever watches the shelf goes on to.
    #[must_use]
    pub fn with_card_store(self, card_store: C) -> (r: Self)
        ensures
            r.identity == self.identity,
            r.offer_store == self.offer_store,
            r.card_store matches Some(store) && store.inner == card_store,
            r.watchers() == self.watchers(),
    {
        let shelf_changes = match self.card_store {
            Some(store) => store.shelf_changes,
            None => self.early_watchers,
        };
        Coordinator {
            identity: self.identity,
            offer_store: self.offer_store,
            card_store: Some(NotifyingOfferCardStore::new(card_store, shelf_changes)),
            early_watchers: ShelfChangeNotifier::new(),
        }
    }

    /// The watchers of the shelf, to join them or to leave.
    pub fn shelf_changes(&mut self) -> (r: &mut ShelfChangeNotifier)
        ensures
            r@ == old(self).watchers(),
            final(self).watchers() == final(r)@,
            final(self).identity == old(self).identity,
            final(self).offer_store == old(self).offer_store,
            final(self).same_cards(*old(self)),
    {
        match &mut self.card_store {
            Some(store) => &mut store.shelf_changes,
            None => &mut self.early_watchers,
        }
    }

    /// The store of cards, if there is one.
    pub fn card_store(&mut self) -> (r: Option<&mut NotifyingOfferCardStore<C>>)
        ensures
            match old(self).card_store {
                Some(store) => r matches Some(handle) && *handle == store
                    && final(self).card_store == Some(*final(handle)),
                None => r is None && final(self).card_store is None,
            },
            final(self).identity == old(self).identity,
            final(self).offer_store == old(self).offer_store,
            final(self).early_watchers == old(self).early_watchers,
    {
        match &mut self.card_store {
            Some(store) => Some(store),
            None => None,
        }
    }

    /// The cards of the shelf.  Without a store there are none to read.
    pub fn read_shelf(&self) -> (r: Result<Vec<OfferCardRecord>, String>)
        ensures
            match self.card_store {
                None => r matches Err(error) && error@ == "v2 offer-card store is not configured"@,
                Some(store) => exists|reply: Result<Vec<OfferCardRecord>, StoreError>|
                    #[trigger] call_ensures(C::read_offer_shelf, (&store.inner,), reply)
                        && shelf_read(reply, r),
            },
    {
        match &self.card_store {
            None => Err("v2 offer-card store is not configured".to_owned()),
            Some(store) => {
                let reply = store.read_offer_shelf();
                shelf_reply(reply)
            },
        }
    }

    /// Plans the activation of a card of the shelf.
    pub fn plan_activation(
        &self,
        offer_id: OfferId,
        mode: ActivationMode,
        destination: Result<SaveDestination, String>,
    ) -> (r: Result<ActivationPlan, String>)
        ensures
            match self.card_store {
                None => r matches Err(error) && error@ == "v2 offer-card store is not configured"@,
                Some(store) => exists|
                    reply: Result<Vec<OfferCardRecord>, StoreError>,
                    drawn: ActivationId,
                |
                    call_ensures(C::read_offer_shelf, (&store.inner,), reply) && random_shape(
                        drawn.0,
                    ) && #[trigger] planned_from(reply, r, offer_id, mode, destination, drawn),
            },
            mode is Save ==> (r matches Ok(plan) ==> !(plan.descriptor@ is Text)),
    {
        let shelf = self.read_shelf();
        let drawn = ActivationId::new();
        let ghost reply = choose|reply: Result<Vec<OfferCardRecord>, StoreError>|
            #[trigger] call_ensures(C::read_offer_shelf, (&self.card_store->0.inner,), reply)
                && shelf_read(reply, shelf);
        let cards = match shelf {
            Ok(cards) => cards,
            Err(error) => {
                let r = Err(error);
                assert(self.card_store is Some ==> planned_from(
                    reply,
                    r,
                    offer_id,
                    mode,
                    destination,
                    drawn,
                ));
                return r;
            },
        };
        let r = plan_from_shelf(&cards, offer_id, mode, destination, drawn);
        assert(planned_from(reply, r, offer_id, mode, destination, drawn));
        assert(r is Ok ==> exists|i: int| #[trigger] first_card(cards@, offer_id, i));
        r
    }

    /// Stores an offer and plans its announcements.  Without a paired peer nothing is
    /// stored; the offer is stored before anybody can hear of it, and the watchers of the
    /// shelf are told once it is.
    pub fn create_offer_with_id(
        &mut self,
        offer_id: OfferId,
        peers: &Vec<PairedPeer>,
        prepared: Result<PreparedOfferSource, SourcePreparationError>,
        created_at_unix_ms: u64,
    ) -> (r: Result<Option<OfferPlan>, String>)
        ensures
            final(self).watchers() == if r matches Ok(Some(_)) {
                old(self).watchers().notified()
            } else {
                old(self).watchers()
            },
            old(self).watchers().wf() ==> final(self).watchers().wf(),
            final(self).identity == old(self).identity,
            final(self).same_cards(*old(self)),
            peers@.len() == 0 ==> {
                &&& r matches Ok(None)
                &&& final(self).offer_store == old(self).offer_store
            },
            peers@.len() > 0 && prepared is Err ==> {
                &&& r matches Err(error) && error@ == prepared->Err_0@.message()
                &&& final(self).offer_store == old(self).offer_store
            },
            peers@.len() > 0 && prepared is Ok ==> exists|
                store: &mut S,
                input: OfferSourceInput,
                reply: Result<OfferSourceInsert, StoreError>,
            |
                {
                    &&& #[trigger] call_ensures(S::insert_offer_source, (store, input), reply)
                    &&& *store == old(self).offer_store
                    &&& *final(store) == final(self).offer_store
                    &&& stores_offer(input, offer_id, prepared->Ok_0, peers@)
                    &&& offered(
                        reply,
                        r,
                        old(self).identity,
                        offer_id,
                        peers@,
                        prepared->Ok_0.descriptor@,
                        created_at_unix_ms,
                    )
                },
    {
        if peers.len() == 0 {
            return Ok(None);
        }
        let prepared = match prepared {
            Ok(prepared) => prepared,
            Err(error) => {
                return Err(error.describe());
            },
        };
        let descriptor = prepared.descriptor.clone();
        let input = offer_to_store(offer_id, prepared, peers);
        let stored = match self.offer_store.insert_offer_source(input) {
            Ok(_) => Ok(()),
            Err(error) => Err(error),
        };
        match plan_stored_offer(
            self.identity,
            offer_id,
            peers,
            descriptor,
            created_at_unix_ms,
            stored,
        ) {
            Ok(plan) => {
                self.shelf_changes().notify();
                Ok(Some(plan))
            },
            Err(error) => Err(error),
        }
    }

    /// The same under a fresh identifier.
    pub fn create_offer(
        &mut self,
        peers: &Vec<PairedPeer>,
        prepared: Result<PreparedOfferSource, SourcePreparationError>,
        created_at_unix_ms: u64,
    ) -> (r: Result<Option<OfferPlan>, String>)
        ensures
            final(self).watchers() == if r matches Ok(Some(_)) {
                old(self).watchers().notified()
            } else {
                old(self).watchers()
            },
            old(self).watchers().wf() ==> final(self).watchers().wf(),
            final(self).identity == old(self).identity,
            final(self).same_cards(*old(self)),
            peers@.len() == 0 ==> {
                &&& r matches Ok(None)
                &&& final(self).offer_store == old(self).offer_store
            },
            peers@.len() > 0 && prepared is Err ==> {
                &&& r matches Err(error) && error@ == prepared->Err_0@.message()
                &&& final(self).offer_store == old(self).offer_store
            },
            peers@.len() > 0 && prepared is Ok ==> exists|
                store: &mut S,
                offer_id: OfferId,
                input: OfferSourceInput,
                reply: Result<OfferSourceInsert, StoreError>,
            |
                {
                    &&& #[trigger] call_ensures(S::insert_offer_source, (store, input), reply)
                    &&& *store == old(self).offer_store
                    &&& *final(store) == final(self).offer_store
                    &&& random_shape(offer_id.0)
                    &&& #[trigger] stores_offer(input, offer_id, prepared->Ok_0, peers@)
                    &&& offered(
                        reply,
                        r,
                        old(self).identity,
                        offer_id,
                        peers@,
                        prepared->Ok_0.descriptor@,
                        created_at_unix_ms,
                    )
                },
    {
        self.create_offer_with_id(OfferId::new(), peers, prepared, created_at_unix_ms)
    }

    /// The settings as they were loaded, or why they were not.
    pub fn settings(loaded: Result<UserSettings, String>) -> (r: Result<UserSettings, String>)
        ensures
            match loaded {
                Ok(settings) => r == Ok::<UserSettings, String>(settings),
                Err(cause) => r matches Err(error) && error@ == "could not load meshelf settings: "@
                    + cause@,
            },
    {
        match loaded {
            Ok(settings) => Ok(settings),
            Err(cause) => Err(join2("could not load meshelf settings: ", cause.as_str())),
        }
    }

    /// The settings as they were saved, or why they were not.
    pub fn update_settings(saved: Result<UserSettings, String>) -> (r: Result<
        UserSettings,
        String,
    >)
        ensures
            match saved {
                Ok(settings) => r == Ok::<UserSettings, String>(settings),
                Err(cause) => r matches Err(error) && error@ == "could not save meshelf settings: "@
                    + cause@,
            },
    {
        match saved {
            Ok(settings) => Ok(settings),
            Err(cause) => Err(join2("could not save meshelf settings: ", cause.as_str())),
        }
    }

    /// A peer does not want an offer.
    pub fn record_explicit_refusal(&mut self, offer_id: OfferId, recipient: DeviceId) -> (r: Result<
        (),
        String,
    >)
        ensures
            final(self).identity == old(self).identity,
            final(self).card_store == old(self).card_store,
            final(self).early_watchers == old(self).early_watchers,
            exists|store: &mut S, reply: Result<OfferEligibilityUpdate, StoreError>|
                {
                    &&& #[trigger] call_ensures(
                        S::remove_explicit_refusal,
                        (store, offer_id, recipient),
                        reply,
                    )
                    &&& *store == old(self).offer_store
                    &&& *final(store) == final(self).offer_store
                    &&& refusal_recorded(reply, r)
                },
    {
        let reply = self.offer_store.remove_explicit_refusal(offer_id, recipient);
        record_refusal(reply)
    }
}

/// Whether `r` is what the store of offers replied to a refusal: done, or the text of
/// its error.
pub open spec fn refusal_recorded(
    reply: Result<OfferEligibilityUpdate, StoreError>,
    r: Result<(), String>,
) -> bool {
    match reply {
        Ok(_) => r is Ok,
        Err(error) => r matches Err(text) && text@ == "could not record explicit refusal: "@ + (
        "store error: "@ + error@),
    }
}

/// What became of a refusal, given what the store of offers replied.
pub fn record_refusal(reply: Result<OfferEligibilityUpdate, StoreError>) -> (r: Result<
    (),
    String,
>)
    ensures
        refusal_recorded(reply, r),
{
    match reply {
        Ok(_) => Ok(()),
        Err(error) => Err(
            join2("could not record explicit refusal: ", error.describe().as_str()),
        ),
    }
}

} // verus!
