//! Taking announcements of peers onto the shelf.
use vstd::prelude::*;

use crate::ids::{DeviceId, OfferId};
use crate::net_error::NetError;
use crate::offer::{CardAvailability, DescriptorView, OfferDescriptor};
use crate::store::{
    OfferCardInput, OfferCardInsert, OfferCardRecord, OfferCardStore, StoreError,
};
use crate::text::{join2, opt_view};
use crate::wire::V2_MAX_LIVE_ENTRIES;

verus! {

/// A peer says that it offers something to this device.
#[derive(Debug)]
pub struct OfferAnnouncement {
    pub offer_id: OfferId,
    pub source_device: DeviceId,
    pub target_device: DeviceId,
    pub created_at_unix_ms: u64,
    pub descriptor: OfferDescriptor,
}

impl OfferAnnouncement {
    #[must_use]
    pub fn new(
        offer_id: OfferId,
        source_device: DeviceId,
        target_device: DeviceId,
        created_at_unix_ms: u64,
        descriptor: OfferDescriptor,
    ) -> (r: Self)
        ensures
            r.offer_id == offer_id,
            r.source_device == source_device,
            r.target_device == target_device,
            r.created_at_unix_ms == created_at_unix_ms,
            r.descriptor == descriptor,
    {
        OfferAnnouncement {
            offer_id,
            source_device,
            target_device,
            created_at_unix_ms,
            descriptor,
        }
    }
}

/// How an announcement was taken.
#[derive(Debug, Clone, Copy, PartialEq, Eq, Structural)]
pub enum OfferAckCode {
    Stored,
    Duplicate,
    RefusedInvalid,
    RefusedConflict,
    RefusedCapacity,
}

/// The answer to an announcement; `S` is the type of its detail.
#[derive(Debug)]
pub struct OfferAck<S = String> {
    pub offer_id: OfferId,
    pub code: OfferAckCode,
    pub live_entries: u32,
    pub max_live_entries: u32,
    pub pruned_entries: u32,
    pub detail: Option<S>,
}

impl View for OfferAck<String> {
    type V = OfferAck<Seq<char>>;

    open spec fn view(&self) -> OfferAck<Seq<char>> {
        OfferAck {
            offer_id: self.offer_id,
            code: self.code,
            live_entries: self.live_entries,
            max_live_entries: self.max_live_entries,
            pruned_entries: self.pruned_entries,
            detail: opt_view(self.detail),
        }
    }
}

/// An answer, with the shelf's limit filled in.
pub open spec fn ack_of(
    offer_id: OfferId,
    code: OfferAckCode,
    live_entries: u32,
    pruned_entries: u32,
    detail: Option<Seq<char>>,
) -> OfferAck<Seq<char>> {
    OfferAck {
        offer_id,
        code,
        live_entries,
        max_live_entries: V2_MAX_LIVE_ENTRIES,
        pruned_entries,
        detail,
    }
}

fn ack(
    offer_id: OfferId,
    code: OfferAckCode,
    live_entries: u32,
    pruned_entries: u32,
    detail: Option<String>,
) -> (r: OfferAck)
    ensures
        r@ == ack_of(offer_id, code, live_entries, pruned_entries, opt_view(detail)),
{
    OfferAck {
        offer_id,
        code,
        live_entries,
        max_live_entries: V2_MAX_LIVE_ENTRIES,
        pruned_entries,
        detail,
    }
}

/// Why an announcement is invalid: it comes from another device than it names, is
/// meant for another one, or does not meet the bounds on offers.
pub open spec fn announcement_error(
    announcement: OfferAnnouncement,
    authenticated_source: DeviceId,
    listener_device: DeviceId,
    check: Result<(), String>,
) -> Option<Seq<char>> {
    if announcement.source_device != authenticated_source {
        Some("source device does not match authenticated client"@)
    } else if announcement.target_device != listener_device {
        Some("target device does not match listener"@)
    } else {
        match check {
            Err(error) => Some("invalid offer announcement: "@ + error@),
            Ok(()) => None,
        }
    }
}

fn announcement_refusal(
    announcement: &OfferAnnouncement,
    authenticated_source: DeviceId,
    listener_device: DeviceId,
    check: &Result<(), String>,
) -> (r: Option<String>)
    ensures
        opt_view(r) == announcement_error(
            *announcement,
            authenticated_source,
            listener_device,
            *check,
        ),
{
    if announcement.source_device != authenticated_source {
        return Some("source device does not match authenticated client".to_owned());
    }
    if announcement.target_device != listener_device {
        return Some("target device does not match listener".to_owned());
    }
    match check {
        Err(error) => Some(join2("invalid offer announcement: ", error.as_str())),
        Ok(()) => None,
    }
}

/// The answer to a valid announcement that stores nothing: the card is already
/// there, or the shelf is full.
pub open spec fn standing_answer(
    offer_id: OfferId,
    descriptor: DescriptorView,
    existing: Option<DescriptorView>,
    live_entries: u32,
) -> Option<OfferAck<Seq<char>>> {
    match existing {
        Some(known) => Some(
            if known == descriptor {
                ack_of(offer_id, OfferAckCode::Duplicate, live_entries, 0, None)
            } else {
                ack_of(
                    offer_id,
                    OfferAckCode::RefusedConflict,
                    live_entries,
                    0,
                    Some("offer ID is already stored with a different descriptor"@),
                )
            },
        ),
        None => if live_entries >= V2_MAX_LIVE_ENTRIES {
            Some(
                ack_of(
                    offer_id,
                    OfferAckCode::RefusedCapacity,
                    live_entries,
                    0,
                    Some("receiver offer-card capacity is full"@),
                ),
            )
        } else {
            None
        },
    }
}

pub open spec fn ack_view(r: Option<OfferAck>) -> Option<OfferAck<Seq<char>>> {
    match r {
        Some(ack) => Some(ack@),
        None => None,
    }
}

pub open spec fn record_descriptor(r: Option<OfferCardRecord>) -> Option<DescriptorView> {
    match r {
        Some(record) => Some(record.descriptor@),
        None => None,
    }
}

/// Answers a valid announcement from what the shelf already holds; `None` where
/// the card is to be stored.
pub fn answer_from_shelf(
    announcement: &OfferAnnouncement,
    existing: &Option<OfferCardRecord>,
    live_entries: u32,
) -> (r: Option<OfferAck>)
    ensures
        ack_view(r) == standing_answer(
            announcement.offer_id,
            announcement.descriptor@,
            record_descriptor(*existing),
            live_entries,
        ),
{
    match existing {
        Some(known) => {
            if known.descriptor == announcement.descriptor {
                Some(ack(announcement.offer_id, OfferAckCode::Duplicate, live_entries, 0, None))
            } else {
                Some(
                    ack(
                        announcement.offer_id,
                        OfferAckCode::RefusedConflict,
                        live_entries,
                        0,
                        Some("offer ID is already stored with a different descriptor".to_owned()),
                    ),
                )
            }
        },
        None => {
            if live_entries >= V2_MAX_LIVE_ENTRIES {
                Some(
                    ack(
                        announcement.offer_id,
                        OfferAckCode::RefusedCapacity,
                        live_entries,
                        0,
                        Some("receiver offer-card capacity is full".to_owned()),
                    ),
                )
            } else {
                None
            }
        },
    }
}

/// Takes announcements into a store of cards.
pub struct OfferAnnouncementHandler<C: OfferCardStore> {
    pub store: C,
}

/// What a store of cards replied while one announcement was taken: its cards at first
/// and once more before anything changes, the card of the offer, what became of the new
/// card, and its cards then.
pub ghost struct ShelfReplies {
    pub first: Result<Vec<OfferCardRecord>, StoreError>,
    pub locked: Result<Vec<OfferCardRecord>, StoreError>,
    pub existing: Result<Option<OfferCardRecord>, StoreError>,
    pub inserted: Result<OfferCardInsert, StoreError>,
    pub last: Result<Vec<OfferCardRecord>, StoreError>,
}

/// The number of cards as an answer carries it, or the text of the storage error.
pub open spec fn counted(reply: Result<Vec<OfferCardRecord>, StoreError>) -> Result<
    u32,
    Seq<char>,
> {
    match reply {
        Ok(cards) => if cards@.len() <= u32::MAX {
            Ok(cards@.len() as u32)
        } else {
            Err("offer card count exceeds u32"@)
        },
        Err(error) => Err("store error: "@ + error@),
    }
}

/// An announcement with what it is held against.
pub ghost struct Announced {
    pub announcement: OfferAnnouncement,
    pub authenticated_source: DeviceId,
    pub listener_device: DeviceId,
    pub check: Result<(), String>,
}

impl Announced {
    /// Why it is invalid, if it is.
    pub open spec fn error(self) -> Option<Seq<char>> {
        announcement_error(
            self.announcement,
            self.authenticated_source,
            self.listener_device,
            self.check,
        )
    }

    /// Whether the cards are counted once more: it is valid, and they could be read.
    pub open spec fn counts_again(self, replies: ShelfReplies) -> bool {
        counted(replies.first) is Ok && self.error() is None
    }

    /// Whether the card of the offer is looked up.
    pub open spec fn looks_up(self, replies: ShelfReplies) -> bool {
        self.counts_again(replies) && counted(replies.locked) is Ok
    }

    /// The answer that stores nothing, where the shelf already gives one.
    pub open spec fn standing(self, replies: ShelfReplies) -> Option<OfferAck<Seq<char>>> {
        standing_answer(
            self.announcement.offer_id,
            self.announcement.descriptor@,
            record_descriptor(replies.existing->Ok_0),
            counted(replies.locked)->Ok_0,
        )
    }

    /// Whether a card is inserted: the announcement is valid, its offer is new, and there
    /// is room.
    pub open spec fn inserts(self, replies: ShelfReplies) -> bool {
        self.looks_up(replies) && replies.existing is Ok && self.standing(replies) is None
    }

    /// The card that it asks for.
    pub open spec fn card(self) -> OfferCardInput {
        OfferCardInput {
            source_device: self.authenticated_source,
            offer_id: self.announcement.offer_id,
            descriptor: self.announcement.descriptor,
            availability: CardAvailability::Available,
        }
    }

    /// The answer, or the text of the storage error.
    pub open spec fn answer(self, replies: ShelfReplies) -> Result<OfferAck<Seq<char>>, Seq<char>> {
        let offer_id = self.announcement.offer_id;
        match counted(replies.first) {
            Err(error) => Err(error),
            Ok(first) => match self.error() {
                Some(text) => Ok(
                    ack_of(offer_id, OfferAckCode::RefusedInvalid, first, 0, Some(text)),
                ),
                None => match (counted(replies.locked), replies.existing) {
                    (Err(error), _) => Err(error),
                    (Ok(_), Err(error)) => Err("store error: "@ + error@),
                    (Ok(_), Ok(_)) => match self.standing(replies) {
                        Some(answer) => Ok(answer),
                        None => match (replies.inserted, counted(replies.last)) {
                            (Err(error), _) => Err("store error: "@ + error@),
                            (Ok(_), Err(error)) => Err(error),
                            (Ok(insert), Ok(last)) => Ok(
                                ack_of(
                                    offer_id,
                                    if insert.inserted {
                                        OfferAckCode::Stored
                                    } else {
                                        OfferAckCode::Duplicate
                                    },
                                    last,
                                    insert.purged,
                                    None,
                                ),
                            ),
                        },
                    },
                },
            },
        }
    }

    /// Whether the reads among the replies are replies of this store.
    pub open spec fn read_from<C: OfferCardStore>(self, replies: ShelfReplies, store: C) -> bool {
        &&& call_ensures(C::read_offer_shelf, (&store,), replies.first)
        &&& self.counts_again(replies) ==> call_ensures(
            C::read_offer_shelf,
            (&store,),
            replies.locked,
        )
        &&& self.looks_up(replies) ==> call_ensures(
            C::get_offer_card,
            (&store, self.authenticated_source, self.announcement.offer_id),
            replies.existing,
        )
    }
}

/// Whether the result is this answer, or a storage error with this text.
pub open spec fn answers(
    r: Result<OfferAck, NetError>,
    expected: Result<OfferAck<Seq<char>>, Seq<char>>,
) -> bool {
    match expected {
        Ok(ack) => r matches Ok(a) && a@ == ack,
        Err(text) => r matches Err(NetError::OfferStorage(t)) && t@ == text,
    }
}

fn count_cards(r: &Result<Vec<OfferCardRecord>, StoreError>) -> (n: Result<u32, NetError>)
    ensures
        match counted(*r) {
            Ok(count) => n == Ok::<u32, NetError>(count),
            Err(text) => n matches Err(NetError::OfferStorage(t)) && t@ == text,
        },
{
    match r {
        Ok(cards) => {
            if cards.len() <= u32::MAX as usize {
                Ok(cards.len() as u32)
            } else {
                Err(NetError::OfferStorage("offer card count exceeds u32".to_owned()))
            }
        },
        Err(error) => Err(NetError::OfferStorage(error.describe())),
    }
}

/// The card that an announcement asks for.
pub fn announced_card(announcement: OfferAnnouncement, authenticated_source: DeviceId) -> (r:
    OfferCardInput)
    ensures
        r.source_device == authenticated_source,
        r.offer_id == announcement.offer_id,
        r.descriptor == announcement.descriptor,
        r.availability is Available,
{
    OfferCardInput::new(
        authenticated_source,
        announcement.offer_id,
        announcement.descriptor,
        CardAvailability::Available,
    )
}

impl<C: OfferCardStore> OfferAnnouncementHandler<C> {
    #[must_use]
    pub fn new(store: C) -> (r: Self)
        ensures
            r.store == store,
    {
        OfferAnnouncementHandler { store }
    }

    /// Answers one announcement, and stores its card where it is new and there is
    /// room.  `check` says whether the announcement meets the bounds on offers.
    ///
    /// The answer follows from what the store replied.  The store stays as it is, but
    /// for the one card that is inserted.
    pub fn handle_sync(
        &mut self,
        authenticated_source: DeviceId,
        listener_device: DeviceId,
        announcement: OfferAnnouncement,
        check: Result<(), String>,
    ) -> (r: Result<OfferAck, NetError>)
        ensures
            ({
                let announced = Announced {
                    announcement,
                    authenticated_source,
                    listener_device,
                    check,
                };
                exists|replies: ShelfReplies|
                    {
                        &&& #[trigger] announced.read_from(replies, old(self).store)
                        &&& answers(r, announced.answer(replies))
                        &&& !announced.inserts(replies) ==> final(self).store == old(self).store
                        &&& announced.inserts(replies) ==> {
                            &&& exists|store: &mut C|
                                {
                                    &&& #[trigger] call_ensures(
                                        C::insert_offer_card,
                                        (store, announced.card()),
                                        replies.inserted,
                                    )
                                    &&& *store == old(self).store
                                    &&& *final(store) == final(self).store
                                }
                            &&& replies.inserted is Ok ==> call_ensures(
                                C::read_offer_shelf,
                                (&final(self).store,),
                                replies.last,
                            )
                        }
                    }
            }),
    {
        let ghost announced = Announced {
            announcement,
            authenticated_source,
            listener_device,
            check,
        };
        let ghost unread: StoreError = arbitrary();
        let ghost mut replies = ShelfReplies {
            first: Err(unread),
            locked: Err(unread),
            existing: Err(unread),
            inserted: Err(unread),
            last: Err(unread),
        };
        let first = self.store.read_offer_shelf();
        proof {
            replies = ShelfReplies { first, ..replies };
        }
        let live_entries: u32 = match count_cards(&first) {
            Ok(count) => count,
            Err(error) => {
                assert(announced.read_from(replies, old(self).store));
                return Err(error);
            },
        };
        let refusal = announcement_refusal(
            &announcement,
            authenticated_source,
            listener_device,
            &check,
        );
        if refusal.is_some() {
            assert(announced.read_from(replies, old(self).store));
            return Ok(
                ack(
                    announcement.offer_id,
                    OfferAckCode::RefusedInvalid,
                    live_entries,
                    0,
                    refusal,
                ),
            );
        }
        let locked = self.store.read_offer_shelf();
        proof {
            replies = ShelfReplies { locked, ..replies };
        }
        let live_entries: u32 = match count_cards(&locked) {
            Ok(count) => count,
            Err(error) => {
                assert(announced.read_from(replies, old(self).store));
                return Err(error);
            },
        };
        let looked_up = self.store.get_offer_card(authenticated_source, announcement.offer_id);
        proof {
            replies = ShelfReplies { existing: looked_up, ..replies };
            assert(announced.read_from(replies, old(self).store));
        }
        let existing = match looked_up {
            Ok(existing) => existing,
            Err(error) => {
                return Err(NetError::OfferStorage(error.describe()));
            },
        };
        if let Some(answer) = answer_from_shelf(&announcement, &existing, live_entries) {
            return Ok(answer);
        }
        let offer_id = announcement.offer_id;
        let result = self.store.insert_offer_card(
            announced_card(announcement, authenticated_source),
        );
        proof {
            replies = ShelfReplies { inserted: result, ..replies };
            assert(announced.read_from(replies, old(self).store));
        }
        let inserted = match result {
            Ok(inserted) => inserted,
            Err(error) => {
                return Err(NetError::OfferStorage(error.describe()));
            },
        };
        let last = self.store.read_offer_shelf();
        proof {
            replies = ShelfReplies { last, ..replies };
            assert(announced.read_from(replies, old(self).store));
        }
        let code = if inserted.inserted {
            OfferAckCode::Stored
        } else {
            OfferAckCode::Duplicate
        };
        match count_cards(&last) {
            Ok(count) => Ok(ack(offer_id, code, count, inserted.purged, None)),
            Err(error) => Err(error),
        }
    }
}

/// An announcement is answered as stored only where it was valid, its offer was new,
/// there was room, and the store inserted the card.
pub proof fn lemma_stored_means_inserted(announced: Announced, replies: ShelfReplies)
    ensures
        announced.answer(replies) matches Ok(answer) ==> answer.code is Stored ==> {
            &&& announced.inserts(replies)
            &&& announced.error() is None
            &&& replies.existing matches Ok(None)
            &&& replies.locked matches Ok(cards) && cards@.len() < V2_MAX_LIVE_ENTRIES
            &&& replies.inserted matches Ok(insert) && insert.inserted
        },
{
}

/// A refusal inserts nothing, and prunes nothing.
pub proof fn lemma_refusals_insert_nothing(announced: Announced, replies: ShelfReplies)
    ensures
        announced.answer(replies) matches Ok(answer) ==> (answer.code is RefusedInvalid
            || answer.code is RefusedConflict || answer.code is RefusedCapacity) ==> {
            &&& !announced.inserts(replies)
            &&& answer.pruned_entries == 0
        },
{
}

/// An announcement is refused as invalid exactly where it is, whatever the shelf holds,
/// as long as it can be counted.
pub proof fn lemma_invalid_means_refused(announced: Announced, replies: ShelfReplies)
    requires
        counted(replies.first) is Ok,
    ensures
        announced.error() is Some <==> (announced.answer(replies) matches Ok(ack)
            && ack.code is RefusedInvalid),
        announced.error() is Some ==> (announced.answer(replies) matches Ok(ack)
            && ack.live_entries == counted(replies.first)->Ok_0 && ack.pruned_entries == 0),
{
}

/// With ten cards, none of them of this offer, a valid announcement is refused: the
/// answer names ten of ten, and nothing is inserted.
pub proof fn lemma_eleventh_card_is_refused(announced: Announced, replies: ShelfReplies)
    requires
        announced.error() is None,
        counted(replies.first) is Ok,
        replies.locked matches Ok(cards) && cards@.len() == 10,
        replies.existing matches Ok(None),
    ensures
        !announced.inserts(replies),
        announced.answer(replies) matches Ok(ack) && {
            &&& ack.offer_id == announced.announcement.offer_id
            &&& ack.code is RefusedCapacity
            &&& ack.live_entries == 10
            &&& ack.max_live_entries == 10
            &&& ack.pruned_entries == 0
        },
{
}

/// An announcement of an offer whose card is on the shelf inserts nothing, however full
/// the shelf is.  It is a duplicate where it describes the offer as the card does, and a
/// conflict where it does not, and the answer names the cards there are.
pub proof fn lemma_a_repeated_announcement(announced: Announced, replies: ShelfReplies)
    requires
        announced.error() is None,
        counted(replies.first) is Ok,
        counted(replies.locked) is Ok,
        replies.existing matches Ok(Some(_)),
    ensures
        !announced.inserts(replies),
        announced.answer(replies) matches Ok(ack) && {
            &&& ack.offer_id == announced.announcement.offer_id
            &&& if replies.existing->Ok_0->0.descriptor@ == announced.announcement.descriptor@ {
                ack.code is Duplicate
            } else {
                ack.code is RefusedConflict
            }
            &&& ack.pruned_entries == 0
            &&& ack.live_entries == counted(replies.locked)->Ok_0
        },
{
}

/// Whether a card is one of this offer of this device.
pub open spec fn card_of(card: OfferCardRecord, device: DeviceId, offer_id: OfferId) -> bool {
    card.source_device == device && card.offer_id == offer_id
}

/// Whether two cards say the same of an offer.
pub open spec fn same_card(a: OfferCardRecord, b: OfferCardRecord) -> bool {
    &&& a.source_device == b.source_device
    &&& a.offer_id == b.offer_id
    &&& a.descriptor@ == b.descriptor@
}

/// Whether a store holds these cards: it lists them all, and finds a card of an offer
/// exactly where there is one.
pub open spec fn holds_cards<C: OfferCardStore>(store: C, cards: Seq<OfferCardRecord>) -> bool {
    &&& forall|reply: Result<Vec<OfferCardRecord>, StoreError>| #[trigger]
        call_ensures(C::read_offer_shelf, (&store,), reply) ==> (reply matches Ok(listed)
            && listed@.len() == cards.len() && forall|i: int|
            0 <= i < cards.len() ==> same_card(#[trigger] listed@[i], cards[i]))
    &&& forall|
        device: DeviceId,
        offer_id: OfferId,
        reply: Result<Option<OfferCardRecord>, StoreError>,
    | #[trigger]
        call_ensures(C::get_offer_card, (&store, device, offer_id), reply) ==> match reply {
            Ok(Some(found)) => exists|i: int|
                0 <= i < cards.len() && card_of(#[trigger] cards[i], device, offer_id) && same_card(
                    found,
                    cards[i],
                ),
            Ok(None) => forall|i: int|
                0 <= i < cards.len() ==> !card_of(#[trigger] cards[i], device, offer_id),
            Err(_) => false,
        }
}

/// Whether the cards of an offer of a device, at least one, describe it like this.
pub open spec fn described_as(
    cards: Seq<OfferCardRecord>,
    device: DeviceId,
    offer_id: OfferId,
    descriptor: DescriptorView,
) -> bool {
    &&& exists|i: int| 0 <= i < cards.len() && card_of(#[trigger] cards[i], device, offer_id)
    &&& forall|i: int|
        0 <= i < cards.len() && card_of(#[trigger] cards[i], device, offer_id)
            ==> cards[i].descriptor@ == descriptor
}

/// A store that holds cards, one of them of the announced offer, is left as it is,
/// however many cards there are: a valid announcement that describes the offer as the
/// card does is a duplicate, another one a conflict, and the answer names the cards there
/// are.
pub proof fn lemma_a_card_on_the_shelf_decides<C: OfferCardStore>(
    store: C,
    cards: Seq<OfferCardRecord>,
    announced: Announced,
    replies: ShelfReplies,
    descriptor: DescriptorView,
)
    requires
        holds_cards(store, cards),
        cards.len() <= u32::MAX,
        described_as(
            cards,
            announced.authenticated_source,
            announced.announcement.offer_id,
            descriptor,
        ),
        announced.error() is None,
        announced.read_from(replies, store),
    ensures
        !announced.inserts(replies),
        announced.answer(replies) matches Ok(answer) && {
            &&& answer.offer_id == announced.announcement.offer_id
            &&& if descriptor == announced.announcement.descriptor@ {
                answer.code is Duplicate
            } else {
                answer.code is RefusedConflict
            }
            &&& answer.pruned_entries == 0
            &&& answer.live_entries == cards.len()
            &&& answer.max_live_entries == V2_MAX_LIVE_ENTRIES
        },
{
    assert(call_ensures(C::read_offer_shelf, (&store,), replies.first));
    assert(call_ensures(C::read_offer_shelf, (&store,), replies.locked));
    assert(call_ensures(
        C::get_offer_card,
        (&store, announced.authenticated_source, announced.announcement.offer_id),
        replies.existing,
    ));
    lemma_a_repeated_announcement(announced, replies);
}

/// An offer that was announced and stored, and whose card is still on the shelf, is
/// answered without a change when it is announced again: the same announcement is a
/// duplicate, one that describes the offer otherwise is a conflict.
pub proof fn lemma_announced_again<C: OfferCardStore>(
    first: Announced,
    first_replies: ShelfReplies,
    store: C,
    cards: Seq<OfferCardRecord>,
    second: Announced,
    replies: ShelfReplies,
)
    requires
        first.answer(first_replies) matches Ok(answer) && answer.code is Stored,
        holds_cards(store, cards),
        cards.len() <= u32::MAX,
        described_as(
            cards,
            first.card().source_device,
            first.card().offer_id,
            first.card().descriptor@,
        ),
        second.authenticated_source == first.authenticated_source,
        second.announcement.offer_id == first.announcement.offer_id,
        second.error() is None,
        second.read_from(replies, store),
    ensures
        !second.inserts(replies),
        second.answer(replies) matches Ok(answer) && {
            &&& if second.announcement.descriptor@ == first.announcement.descriptor@ {
                answer.code is Duplicate
            } else {
                answer.code is RefusedConflict
            }
            &&& answer.pruned_entries == 0
            &&& answer.live_entries == cards.len()
        },
{
    lemma_a_card_on_the_shelf_decides(
        store,
        cards,
        second,
        replies,
        first.announcement.descriptor@,
    );
}

/// A store that holds ten cards, none of them of the announced offer, is left as it is:
/// the announcement is refused, and the answer names ten of ten.
pub proof fn lemma_a_full_shelf_takes_no_other_card<C: OfferCardStore>(
    store: C,
    cards: Seq<OfferCardRecord>,
    announced: Announced,
    replies: ShelfReplies,
)
    requires
        holds_cards(store, cards),
        cards.len() == 10,
        forall|i: int|
            0 <= i < cards.len() ==> !card_of(
                #[trigger] cards[i],
                announced.authenticated_source,
                announced.announcement.offer_id,
            ),
        announced.error() is None,
        announced.read_from(replies, store),
    ensures
        !announced.inserts(replies),
        announced.answer(replies) matches Ok(answer) && {
            &&& answer.offer_id == announced.announcement.offer_id
            &&& answer.code is RefusedCapacity
            &&& answer.live_entries == 10
            &&& answer.max_live_entries == 10
            &&& answer.pruned_entries == 0
        },
{
    assert(call_ensures(C::read_offer_shelf, (&store,), replies.first));
    assert(call_ensures(C::read_offer_shelf, (&store,), replies.locked));
    assert(call_ensures(
        C::get_offer_card,
        (&store, announced.authenticated_source, announced.announcement.offer_id),
        replies.existing,
    ));
    lemma_eleventh_card_is_refused(announced, replies);
}

/// A store that holds fewer than ten cards, none of them of the announced offer, is asked
/// for the announced card.
pub proof fn lemma_a_new_offer_is_inserted<C: OfferCardStore>(
    store: C,
    cards: Seq<OfferCardRecord>,
    announced: Announced,
    replies: ShelfReplies,
)
    requires
        holds_cards(store, cards),
        cards.len() < 10,
        forall|i: int|
            0 <= i < cards.len() ==> !card_of(
                #[trigger] cards[i],
                announced.authenticated_source,
                announced.announcement.offer_id,
            ),
        announced.error() is None,
        announced.read_from(replies, store),
    ensures
        announced.inserts(replies),
        announced.card().source_device == announced.authenticated_source,
        announced.card().offer_id == announced.announcement.offer_id,
        announced.card().descriptor == announced.announcement.descriptor,
        announced.card().availability is Available,
{
    assert(call_ensures(C::read_offer_shelf, (&store,), replies.first));
    assert(call_ensures(C::read_offer_shelf, (&store,), replies.locked));
    assert(call_ensures(
        C::get_offer_card,
        (&store, announced.authenticated_source, announced.announcement.offer_id),
        replies.existing,
    ));
}

} // verus!
