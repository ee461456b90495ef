//! What is put on the shelf, what is planned from it, and who may enrol.
use vstd::prelude::*;

use crate::activation::ActivationMode;
use crate::announce::{
    announcement_error, counted, standing_answer, Announced, OfferAnnouncement, ShelfReplies,
};
use crate::bootstrap::{
    bootstrap_identified, first_peer_with, source_checked, DiscoveredPeer, EnrollmentRequest,
    ANDROID_ABI_VERSION, MAX_BOOTSTRAP_BYTES,
};
use crate::controller::PairedPeer;
use crate::coordinator::{
    announces_all, card_refusal, first_card, peer_ids, planned, ActivationPlan, PeerAnnouncement,
};
use crate::ids::{
    hex_digit, hex_digit_at, hyphenated, random_shape, ActivationId, DeviceId, MessageId, OfferId,
};
use crate::memory_store::{
    seen, step_outcome, stepped, ReceivePhase, ReceiveState, Records, TransitionOutcome,
};
use crate::model::TextEnvelope;
use crate::net::IpAddress;
use crate::net_error::NetError;
use crate::offer::DescriptorView;
use crate::path::{joined, PathView};
use crate::settings::SaveDestination;
use crate::store::{OfferCardRecord, StoreError};
use crate::text::{byte_len, opt_view};

verus! {

/// An announcement is in order exactly where it comes from the device that was let in, is
/// meant for this one, and its content was found valid.
pub proof fn lemma_announcements_in_order(
    announcement: OfferAnnouncement,
    authenticated: DeviceId,
    listener: DeviceId,
    check: Result<(), String>,
)
    ensures
        announcement_error(announcement, authenticated, listener, check) is None
            <==> announcement.source_device == authenticated && announcement.target_device
            == listener && check is Ok,
        announcement.source_device == authenticated && announcement.target_device == listener ==> (
        check matches Err(error) ==> announcement_error(
            announcement,
            authenticated,
            listener,
            check,
        ) == Some("invalid offer announcement: "@ + error@)),
{
}

/// What the shelf answers before anything is stored: to an offer that it holds, that it has
/// it, or where it is described otherwise, that it is in conflict; to another, that it is
/// full, exactly where ten cards are on it.
pub proof fn lemma_standing_answers(
    offer_id: OfferId,
    descriptor: DescriptorView,
    existing: Option<DescriptorView>,
    live: u32,
)
    ensures
        ({
            let answer = standing_answer(offer_id, descriptor, existing, live);
            &&& answer is None <==> existing is None && live < 10
            &&& answer matches Some(ack) ==> {
                &&& ack.offer_id == offer_id && ack.live_entries == live && ack.max_live_entries
                    == 10 && ack.pruned_entries == 0
                &&& ack.code is Duplicate <==> existing == Some(descriptor)
                &&& ack.code is RefusedConflict <==> existing is Some && existing != Some(
                    descriptor,
                )
                &&& ack.code is RefusedCapacity <==> existing is None
                &&& ack.detail is None <==> ack.code is Duplicate
            }
        }),
{
}

/// A card is stored exactly where the announcement is in order, the shelf could be read,
/// holds no card of the offer and fewer than ten in all; it is then the announced card of
/// the device that was let in, and available.
pub proof fn lemma_cards_that_are_stored(announced: Announced, replies: ShelfReplies)
    ensures
        announced.inserts(replies) <==> {
            &&& announced.announcement.source_device == announced.authenticated_source
            &&& announced.announcement.target_device == announced.listener_device
            &&& announced.check is Ok
            &&& replies.first matches Ok(cards) && cards@.len() <= u32::MAX
            &&& replies.locked matches Ok(cards) && cards@.len() < 10
            &&& replies.existing matches Ok(None)
        },
        announced.card().source_device == announced.authenticated_source,
        announced.card().offer_id == announced.announcement.offer_id,
        announced.card().descriptor == announced.announcement.descriptor,
        announced.card().availability is Available,
{
}

/// After an insertion the answer says whether the card is new, how many are on the shelf
/// now and how many were removed for it; a shelf that failed is an error.
pub proof fn lemma_answers_after_an_insertion(announced: Announced, replies: ShelfReplies)
    requires
        announced.inserts(replies),
    ensures
        replies.inserted matches Ok(insert) ==> (replies.last matches Ok(cards) ==> (cards@.len()
            <= u32::MAX ==> {
            &&& announced.answer(replies) matches Ok(ack) && {
                &&& ack.offer_id == announced.announcement.offer_id
                &&& insert.inserted ==> ack.code is Stored
                &&& !insert.inserted ==> ack.code is Duplicate
                &&& ack.live_entries == cards@.len()
                &&& ack.max_live_entries == 10
                &&& ack.pruned_entries == insert.purged
                &&& ack.detail is None
            }
        })),
        replies.inserted matches Err(error) ==> announced.answer(replies) matches Err(text)
            && text == "store error: "@ + error@,
        replies.last is Err ==> announced.answer(replies) is Err,
{
}

/// A shelf that could not be read is an error, not an answer.
pub proof fn lemma_shelves_that_cannot_be_read(
    announced: Announced,
    replies: ShelfReplies,
    reply: Result<Vec<OfferCardRecord>, StoreError>,
)
    ensures
        replies.first is Err ==> announced.answer(replies) is Err,
        announced.error() is None && replies.locked is Err ==> announced.answer(replies) is Err,
        announced.error() is None && replies.existing is Err ==> announced.answer(replies) is Err,
        counted(reply) is Ok <==> (reply matches Ok(cards) && cards@.len() <= u32::MAX),
        counted(reply) matches Ok(n) ==> reply matches Ok(cards) && n == cards@.len(),
        reply matches Err(error) ==> counted(reply) == Err::<u32, _>("store error: "@ + error@),
{
}

/// An offer is announced to every paired device, each under its own name, with the same
/// identifier, card and time.
pub proof fn lemma_everyone_is_announced_to(
    items: Seq<PeerAnnouncement>,
    peers: Seq<PairedPeer>,
    identity: DeviceId,
    offer_id: OfferId,
    descriptor: DescriptorView,
    at: u64,
    i: int,
)
    requires
        announces_all(items, peers, identity, offer_id, descriptor, at),
        0 <= i < peers.len(),
    ensures
        items.len() == peers.len(),
        items[i].device_id == peers[i].device_id,
        items[i].hostname@ == peers[i].hostname@,
        items[i].announcement.target_device == peers[i].device_id,
        items[i].announcement.source_device == identity,
        items[i].announcement.offer_id == offer_id,
        items[i].announcement.descriptor@ == descriptor,
        items[i].announcement.created_at_unix_ms == at,
        peer_ids(peers)[i] == peers[i].device_id,
        peer_ids(peers).len() == peers.len(),
{
}

/// A card is refused exactly where a text is to be saved or its source has changed.
pub proof fn lemma_cards_that_are_refused(card: OfferCardRecord, mode: ActivationMode)
    ensures
        card_refusal(card, mode) is None <==> !(mode is Save && card.descriptor@ is Text) && !(
        card.availability is SourceChanged),
        mode is Save && card.descriptor@ is Text ==> card_refusal(card, mode) == Some(
            "text offers cannot use save activation"@,
        ),
{
}

/// An activation is planned from the first card of its offer exactly where there is one, it
/// is not refused, and what is saved has a place; the plan says what the card says.
pub proof fn lemma_activations_that_are_planned(
    r: Result<ActivationPlan, String>,
    cards: Seq<OfferCardRecord>,
    offer_id: OfferId,
    mode: ActivationMode,
    destination: Result<SaveDestination, String>,
    drawn: ActivationId,
    i: int,
)
    requires
        planned(r, cards, offer_id, mode, destination, drawn),
    ensures
        first_card(cards, offer_id, i) ==> (r is Ok <==> card_refusal(cards[i], mode) is None && (
        mode is Save ==> destination is Ok)),
        first_card(cards, offer_id, i) ==> (r matches Ok(plan) ==> {
            &&& plan.activation_id == drawn && plan.offer_id == offer_id && plan.mode == mode
            &&& plan.source_device == cards[i].source_device
            &&& plan.descriptor@ == cards[i].descriptor@
            &&& plan.destination is Some <==> mode is Save
            &&& mode is Save ==> Ok::<SaveDestination, String>(plan.destination->0) == destination
        }),
        (forall|k: int| 0 <= k < cards.len() ==> (#[trigger] cards[k]).offer_id != offer_id) ==> (
        r is Err),
{
    if forall|k: int| 0 <= k < cards.len() ==> (#[trigger] cards[k]).offer_id != offer_id {
        assert forall|k: int| !#[trigger] first_card(cards, offer_id, k) by {}
    }
}

// Messages.

/// A message is accepted exactly where it has this version, a text that is neither empty
/// nor too long, expires not before it was made, and has not expired.
pub proof fn lemma_messages_that_are_accepted(m: TextEnvelope<Seq<char>>, now: u64)
    ensures
        m.check(now) is Ok <==> {
            &&& m.protocol_version == 1
            &&& 0 < byte_len(m.text) <= 1_048_576
            &&& m.expires_at_unix_ms matches Some(at) ==> m.created_at_unix_ms <= at && now <= at
        },
        m.check(now) matches Err(error) ==> {
            &&& error is UnsupportedProtocolVersion <==> m.protocol_version != 1
            &&& error is EmptyText <==> m.protocol_version == 1 && m.text.len() == 0
            &&& error is TextTooLarge <==> m.protocol_version == 1 && byte_len(m.text) > 1_048_576
            &&& error is ExpiryBeforeCreation ==> m.expires_at_unix_ms is Some
                && m.expires_at_unix_ms->0 < m.created_at_unix_ms
            &&& error is Expired ==> m.expires_at_unix_ms is Some && now > m.expires_at_unix_ms->0
                && m.created_at_unix_ms <= m.expires_at_unix_ms->0
        },
{
    crate::text::lemma_byte_len_bounds(m.text);
}

/// A message that was not seen is recorded as it came, at the time it came; one that was
/// seen, and every other message, keeps its record.
pub proof fn lemma_messages_that_were_seen(
    records: Records,
    m: TextEnvelope<Seq<char>>,
    now: u64,
    other: u128,
)
    ensures
        ({
            let after = seen(records, m, now);
            let id = m.message_id.0;
            &&& after.dom().contains(id)
            &&& !records.dom().contains(id) ==> after[id].envelope == m && after[id].state.phase
                == ReceivePhase::Recorded && after[id].first_seen_unix_ms == now
                && after[id].updated_at_unix_ms == now
            &&& records.dom().contains(id) ==> after[id] == records[id]
            &&& other != id ==> (after.dom().contains(other) <==> records.dom().contains(other))
            &&& other != id && records.dom().contains(other) ==> after[other] == records[other]
        }),
{
}

/// A step is taken exactly where the message is known and in the expected phase; the record
/// then has the new state and time and keeps all else, and no other record changes.
pub proof fn lemma_steps_that_are_taken(
    records: Records,
    message: MessageId,
    expected: ReceivePhase,
    next: ReceiveState,
    now: u64,
    other: u128,
)
    ensures
        ({
            let r = step_outcome(records, message, expected, next, now);
            let after = stepped(records, message, expected, next, now);
            let id = message.0;
            &&& r is Missing <==> !records.dom().contains(id)
            &&& r is Changed <==> records.dom().contains(id) && records[id].state.phase == expected
            &&& r matches TransitionOutcome::Mismatch(record) ==> record == records[id]
            &&& r matches TransitionOutcome::Changed(record) ==> {
                &&& record.state == next && record.updated_at_unix_ms == now
                &&& record.envelope == records[id].envelope && record.first_seen_unix_ms
                    == records[id].first_seen_unix_ms
                &&& after[id] == record
            }
            &&& !(r is Changed) ==> after == records
            &&& after.dom() == records.dom()
            &&& other != id && records.dom().contains(other) ==> after[other] == records[other]
        }),
{
    assert(stepped(records, message, expected, next, now).dom() =~= records.dom());
}

// Identifiers and paths.

/// The number that a hexadecimal digit stands for.
pub open spec fn digit_value(c: char) -> int {
    if '0' <= c <= '9' {
        c as int - '0' as int
    } else {
        c as int - 'a' as int + 10
    }
}

/// The number that the first `n` characters stand for, hyphens left aside.
pub open spec fn hex_number(s: Seq<char>, n: int) -> int
    decreases n,
{
    if n <= 0 {
        0
    } else if s[n - 1] == '-' {
        hex_number(s, n - 1)
    } else {
        16 * hex_number(s, n - 1) + digit_value(s[n - 1])
    }
}

proof fn lemma_digit_value(d: int)
    requires
        0 <= d < 16,
    ensures
        digit_value(hex_digit(d)) == d,
        hex_digit(d) != '-',
{
}

proof fn lemma_next_nibble(v: u128, s: u128)
    requires
        s <= 124,
    ensures
        (v >> s) & 0xf == (v >> s) % 16,
        s < 124 ==> (v >> s) / 16 == v >> ((s + 4) as u128),
        s == 124 ==> (v >> s) / 16 == 0,
{
    assert((v >> s) & 0xf == (v >> s) % 16) by (bit_vector);
    if s < 124 {
        let t: u128 = (s + 4) as u128;
        assert((v >> s) / 16 == v >> t) by (bit_vector)
            requires
                t == s + 4,
                s < 124,
        ;
    } else {
        assert((v >> 124u128) / 16 == 0) by (bit_vector);
    }
}

/// How many of the first `n` characters are digits.
spec fn digits_before(n: int) -> int {
    if n <= 8 {
        n
    } else if n <= 13 {
        n - 1
    } else if n <= 18 {
        n - 2
    } else if n <= 23 {
        n - 3
    } else {
        n - 4
    }
}

proof fn lemma_hex_prefix(v: u128, n: int)
    requires
        0 <= n <= 36,
    ensures
        n == 0 ==> hex_number(hyphenated(v), n) == 0,
        n > 0 ==> hex_number(hyphenated(v), n) == v >> ((128 - 4 * digits_before(n)) as u128),
    decreases n,
{
    if n > 0 {
        lemma_hex_prefix(v, n - 1);
        let i = n - 1;
        if !(i == 8 || i == 13 || i == 18 || i == 23) {
            let k = digits_before(n) - 1;
            let s: u128 = (124 - 4 * k) as u128;
            assert(hyphenated(v)[i] == hex_digit_at(v, k));
            lemma_next_nibble(v, s);
            lemma_digit_value(((v >> s) & 0xf) as int);
            let whole = (v >> s) as int;
            assert(whole == 16 * (whole / 16) + whole % 16);
            assert(128 - 4 * digits_before(n) == s);
            if n > 1 {
                assert(digits_before(n - 1) == k);
                assert((128 - 4 * k) as u128 == (s + 4) as u128);
            }
        } else {
            assert(hyphenated(v)[i] == '-');
            assert(digits_before(n) == digits_before(n - 1));
        }
    }
}

/// An identifier is written as its number: thirty-two hexadecimal digits, the highest
/// first, with hyphens after eight, twelve, sixteen and twenty of them.  So two that are
/// written alike are the same.
pub proof fn lemma_written_identifiers(v: u128, w: u128, i: int)
    ensures
        hyphenated(v).len() == 36,
        0 <= i < 36 ==> (hyphenated(v)[i] == '-' <==> i == 8 || i == 13 || i == 18 || i == 23),
        hex_number(hyphenated(v), 36) == v,
        hyphenated(v) == hyphenated(w) ==> v == w,
{
    lemma_hex_prefix(v, 36);
    lemma_hex_prefix(w, 36);
    assert(v >> 0u128 == v) by (bit_vector);
    assert(w >> 0u128 == w) by (bit_vector);
    if 0 <= i < 36 && !(i == 8 || i == 13 || i == 18 || i == 23) {
        let k = digits_before(i + 1) - 1;
        let s: u128 = (124 - 4 * k) as u128;
        assert(hyphenated(v)[i] == hex_digit_at(v, k));
        lemma_next_nibble(v, s);
        lemma_digit_value(((v >> s) & 0xf) as int);
    }
}

/// A random identifier is one that is written with a four after the second hyphen, and with
/// an eight, nine, a or b after the third.
pub proof fn lemma_random_identifiers(v: u128)
    ensures
        random_shape(v) <==> hyphenated(v)[14] == '4' && (hyphenated(v)[19] == '8' || hyphenated(
            v,
        )[19] == '9' || hyphenated(v)[19] == 'a' || hyphenated(v)[19] == 'b'),
{
    assert(hyphenated(v)[14] == hex_digit_at(v, 12));
    assert(hyphenated(v)[19] == hex_digit_at(v, 16));
    assert((v >> 76u128) & 0xf < 16) by (bit_vector);
    assert((v >> 60u128) & 0xf < 16) by (bit_vector);
    assert((v >> 62u128) & 0x3 == 2 <==> (8 <= ((v >> 60u128) & 0xf) && ((v >> 60u128) & 0xf)
        < 12)) by (bit_vector);
    lemma_digit_value(((v >> 76u128) & 0xf) as int);
    lemma_digit_value(((v >> 60u128) & 0xf) as int);
}

/// A name is put under a directory behind one separator, which is added only where the
/// directory has none at its end; the path is absolute where the directory is.
pub proof fn lemma_names_under_directories(directory: PathView, separator: char, name: Seq<char>)
    ensures
        ({
            let path = joined(directory, separator, name);
            let n = directory.text.len() as int;
            &&& path.absolute == directory.absolute
            &&& path.text.subrange(0, n) == directory.text
            &&& path.text.skip(path.text.len() - name.len()) == name
            &&& n > 0 ==> path.text[path.text.len() - name.len() - 1] == separator
            &&& path.text.len() == n + name.len() <==> n == 0 || directory.text.last() == separator
            &&& path.text.len() <= n + 1 + name.len()
        }),
{
    let path = joined(directory, separator, name);
    assert(path.text.subrange(0, directory.text.len() as int) =~= directory.text);
    assert(path.text.skip(path.text.len() - name.len()) =~= name);
}

// Enrolment.

/// A device may enrol exactly where its request comes from an address that it names itself,
/// and the first peer that is known at that address is its node.
pub proof fn lemma_devices_that_may_enrol(
    request: EnrollmentRequest,
    source: IpAddress,
    peers: Seq<DiscoveredPeer>,
    text: Option<Seq<char>>,
    i: int,
)
    requires
        source_checked(request, Some(source), peers, text),
        first_peer_with(peers, source, i),
    ensures
        text is None <==> request.addresses@.contains(source) && opt_view(peers[i].node_id) == Some(
            request.node_id@,
        ),
{
}

/// A request without an address, or from an address at which no peer is known, is refused.
pub proof fn lemma_devices_that_may_not_enrol(
    request: EnrollmentRequest,
    source: IpAddress,
    peers: Seq<DiscoveredPeer>,
    text: Option<Seq<char>>,
)
    ensures
        source_checked(request, None, peers, text) ==> text is Some,
        source_checked(request, Some(source), peers, text) && (forall|k: int|
            0 <= k < peers.len() ==> !(#[trigger] peers[k]).addresses@.contains(source))
            ==> text is Some,
        ANDROID_ABI_VERSION == 1,
        MAX_BOOTSTRAP_BYTES == 65_536,
{
    if forall|k: int| 0 <= k < peers.len() ==> !(#[trigger] peers[k]).addresses@.contains(source) {
        assert forall|k: int| !#[trigger] first_peer_with(peers, source, k) by {}
    }
}

/// A request identifies its device exactly where it names a node, an address and a whole
/// key, and is signed.
pub proof fn lemma_requests_that_identify(request: EnrollmentRequest, signature_valid: bool)
    ensures
        bootstrap_identified(request, signature_valid) <==> !crate::text::blank(request.node_id@)
            && request.addresses@.len() != 0 && request.public_key@.len() == 32
            && signature_valid,
{
}

/// The words of an error end with its cause, and say which kind of error it is.
pub proof fn lemma_words_of_errors(cause: Seq<char>)
    ensures
        NetError::Io(cause).message() == "I/O error: "@ + cause,
        NetError::Protocol(cause).message() == "protocol error: "@ + cause,
        NetError::Timeout(cause).message() == "operation timed out during "@ + cause,
        NetError::Rejected(cause).message() == "peer rejected connection: "@ + cause,
        NetError::Unavailable(cause).message() == "peer unavailable: "@ + cause,
        NetError::UnexpectedMessage(cause).message() == "unexpected wire message: "@ + cause,
        NetError::IdentityMismatch(cause).message() == "identity mismatch: "@ + cause,
        NetError::UnsafeBind(cause).message() == "unsafe bind refused: "@ + cause,
        NetError::FileTransfer(cause).message() == "file transfer failed: "@ + cause,
        NetError::OfferStorage(cause).message() == "offer card storage failed: "@ + cause,
        NetError::FetchService(cause).message() == NetError::FetchServiceOwned(cause).message(),
        NetError::FetchService(cause).message() == "fetch service failed: "@ + cause,
{
}

/// The words of a fetch that failed say how, and its detail where there is one.
pub proof fn lemma_words_of_failed_fetches(error: NetError<Seq<char>>)
    ensures
        error matches NetError::FetchRefused { detail, .. } ==> error.message() == (
        if detail is Some {
            "fetch refused"@ + ": "@ + detail->0
        } else {
            "fetch refused"@
        }),
        error matches NetError::FetchAdmissionRefused { detail, .. } ==> error.message() == (
        if detail is Some {
            "fetch admission refused"@ + ": "@ + detail->0
        } else {
            "fetch admission refused"@
        }),
        error matches NetError::FetchTerminal { detail, .. } ==> error.message() == (
        if detail is Some {
            "fetch ended"@ + ": "@ + detail->0
        } else {
            "fetch ended"@
        }),
        error matches NetError::FetchAborted { detail, .. } ==> error.message() == (
        if detail is Some {
            "fetch aborted"@ + ": "@ + detail->0
        } else {
            "fetch aborted"@
        }),
        error matches NetError::FetchLocalIo { detail, .. } ==> error.message() == (
        if detail is Some {
            "local storage failed"@ + ": "@ + detail->0
        } else {
            "local storage failed"@
        }),
{
}

} // verus!
