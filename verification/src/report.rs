//! What became of an announcement at each peer.
use vstd::prelude::*;

use crate::announce::{OfferAck, OfferAckCode};
use crate::controller::{PairedPeer, MESHELF_PORT};
use crate::ids::{hyphenated, DeviceId, OfferId};
use crate::net::{preferred_ip, select_discovered_socket, SocketAddress};
use crate::net_error::NetError;
use crate::order::{join_texts, joined, sort_texts, sorted_texts};
use crate::text::{
    ascii_lower, contains_text, decimal, decimal_text, has_part, join2, join3, opt_view,
    part_at, to_ascii_lower, views,
};

verus! {

/// What became of an announcement, peer by peer.
#[derive(Debug)]
pub struct MeshSendReport {
    pub stored_on: Vec<String>,
    pub unavailable: Vec<String>,
    pub version_mismatch: Vec<String>,
}

/// A report with its lists as sequences.
pub ghost struct ReportView {
    pub stored_on: Seq<Seq<char>>,
    pub unavailable: Seq<Seq<char>>,
    pub version_mismatch: Seq<Seq<char>>,
}

impl View for MeshSendReport {
    type V = ReportView;

    open spec fn view(&self) -> ReportView {
        ReportView {
            stored_on: views(self.stored_on@),
            unavailable: views(self.unavailable@),
            version_mismatch: views(self.version_mismatch@),
        }
    }
}

/// "Added to 1 device", or to more of them; nothing for none.
pub open spec fn stored_text(count: nat) -> Option<Seq<char>> {
    if count == 0 {
        None
    } else if count == 1 {
        Some("Added to 1 device"@)
    } else {
        Some("Added to "@ + decimal(count) + " devices"@)
    }
}

/// The reasons of the peers with another protocol version.
pub open spec fn mismatch_text(reasons: Seq<Seq<char>>) -> Option<Seq<char>> {
    if reasons.len() == 0 {
        None
    } else {
        Some(joined(reasons, "; "@))
    }
}

/// The peers that were not reached.
pub open spec fn unavailable_text(names: Seq<Seq<char>>) -> Option<Seq<char>> {
    if names.len() == 0 {
        None
    } else {
        Some("unavailable "@ + joined(names, ", "@))
    }
}

/// Two parts of a status, where there are two.
pub open spec fn both(a: Option<Seq<char>>, b: Option<Seq<char>>) -> Option<Seq<char>> {
    match (a, b) {
        (Some(a), Some(b)) => Some(a + "; "@ + b),
        (Some(a), None) => Some(a),
        (None, b) => b,
    }
}

impl ReportView {
    /// The status line: where the offer was stored, who speaks another protocol
    /// version, and who was not reached.
    pub open spec fn status(self) -> Seq<char> {
        let stored = stored_text(self.stored_on.len());
        let mismatches = mismatch_text(self.version_mismatch);
        let unavailable = unavailable_text(self.unavailable);
        match (stored, mismatches, unavailable) {
            (None, None, None) => "No paired devices accepted the offer"@,
            (None, None, Some(unavailable)) => "offer was not stored on any peer: "@
                + unavailable,
            _ => both(both(stored, mismatches), unavailable)->0,
        }
    }
}

fn join_parts(a: Option<String>, b: Option<String>) -> (r: Option<String>)
    ensures
        opt_view(r) == both(opt_view(a), opt_view(b)),
{
    match (a, b) {
        (Some(a), Some(b)) => Some(join3(a.as_str(), "; ", b.as_str())),
        (Some(a), None) => Some(a),
        (None, b) => b,
    }
}

impl MeshSendReport {
    /// The status line of the report.
    #[must_use]
    pub fn status(&self) -> (r: String)
        ensures
            r@ == self@.status(),
    {
        let count: usize = self.stored_on.len();
        let stored = if count == 0 {
            None
        } else if count == 1 {
            Some("Added to 1 device".to_owned())
        } else {
            Some(join3("Added to ", decimal_text(count as u64).as_str(), " devices"))
        };
        let mismatches = if self.version_mismatch.len() == 0 {
            None
        } else {
            Some(join_texts(&self.version_mismatch, "; "))
        };
        let unavailable = if self.unavailable.len() == 0 {
            None
        } else {
            Some(join2("unavailable ", join_texts(&self.unavailable, ", ").as_str()))
        };
        if stored.is_none() && mismatches.is_none() {
            return match unavailable {
                None => "No paired devices accepted the offer".to_owned(),
                Some(unavailable) => join2(
                    "offer was not stored on any peer: ",
                    unavailable.as_str(),
                ),
            };
        }
        match join_parts(join_parts(stored, mismatches), unavailable) {
            Some(text) => text,
            None => String::new(),
        }
    }
}

/// The outcome of an announcement: success where at least one peer stored the
/// offer, with the status line either way.
pub fn report_announce_outcome(report: MeshSendReport) -> (r: Result<String, String>)
    ensures
        r is Ok <==> report@.stored_on.len() > 0,
        r matches Ok(text) ==> text@ == report@.status(),
        r matches Err(text) ==> text@ == report@.status(),
{
    let status = report.status();
    if report.stored_on.len() == 0 {
        Err(status)
    } else {
        Ok(status)
    }
}

/// Whether a refusal tells to update to another protocol.
pub open spec fn says_protocol_update(reason: Seq<char>) -> bool {
    has_part(ascii_lower(reason), "protocol"@) && has_part(ascii_lower(reason), "update"@)
}

/// Whether a refusal tells to update to another protocol.
#[must_use]
pub fn reason_is_protocol_update(reason: &str) -> (r: bool)
    ensures
        r == says_protocol_update(reason@),
{
    let lowered = to_ascii_lower(reason);
    contains_text(lowered.as_str(), "protocol") && contains_text(lowered.as_str(), "update")
}

/// What became of an announcement at one peer; `S` is the type of the texts.
#[derive(Debug)]
pub enum AnnouncePeerOutcome<S = String> {
    Stored(S),
    Unavailable(S),
    VersionMismatch(S),
}

impl View for AnnouncePeerOutcome<String> {
    type V = AnnouncePeerOutcome<Seq<char>>;

    open spec fn view(&self) -> AnnouncePeerOutcome<Seq<char>> {
        match *self {
            AnnouncePeerOutcome::Stored(s) => AnnouncePeerOutcome::Stored(s@),
            AnnouncePeerOutcome::Unavailable(s) => AnnouncePeerOutcome::Unavailable(s@),
            AnnouncePeerOutcome::VersionMismatch(s) => AnnouncePeerOutcome::VersionMismatch(s@),
        }
    }
}

/// What the answer of one peer, or its failure, amounts to.
pub open spec fn announce_result(
    hostname: Seq<char>,
    result: Result<OfferAck, NetError>,
) -> AnnouncePeerOutcome<Seq<char>> {
    match result {
        Ok(ack) => if ack.code is Stored || ack.code is Duplicate {
            AnnouncePeerOutcome::Stored(hostname)
        } else {
            AnnouncePeerOutcome::Unavailable(hostname)
        },
        Err(error) => match error@ {
            NetError::ProtocolMismatch { .. } => AnnouncePeerOutcome::VersionMismatch(
                error@.message(),
            ),
            NetError::Rejected(reason) if says_protocol_update(reason) =>
                AnnouncePeerOutcome::VersionMismatch(reason),
            _ => AnnouncePeerOutcome::Unavailable(hostname),
        },
    }
}

/// Sorts the answer of one peer, or its failure.
pub fn classify_announce_result(hostname: String, result: Result<OfferAck, NetError>) -> (r:
    AnnouncePeerOutcome)
    ensures
        r@ == announce_result(hostname@, result),
{
    match result {
        Ok(ack) => {
            if matches!(ack.code, OfferAckCode::Stored | OfferAckCode::Duplicate) {
                AnnouncePeerOutcome::Stored(hostname)
            } else {
                AnnouncePeerOutcome::Unavailable(hostname)
            }
        },
        Err(error) => {
            if let NetError::ProtocolMismatch { .. } = &error {
                return AnnouncePeerOutcome::VersionMismatch(error.describe());
            }
            match error {
                NetError::Rejected(reason) => {
                    if reason_is_protocol_update(reason.as_str()) {
                        AnnouncePeerOutcome::VersionMismatch(reason)
                    } else {
                        AnnouncePeerOutcome::Unavailable(hostname)
                    }
                },
                _ => AnnouncePeerOutcome::Unavailable(hostname),
            }
        },
    }
}

/// The three kinds of outcomes.
pub ghost enum OutcomeKind {
    Stored,
    Unavailable,
    VersionMismatch,
}

/// The names, or reasons, of the outcomes of one kind, in the order they came.
pub open spec fn of_kind(outcomes: Seq<AnnouncePeerOutcome>, kind: OutcomeKind) -> Seq<Seq<char>>
    decreases outcomes.len(),
{
    if outcomes.len() == 0 {
        Seq::empty()
    } else {
        let before = of_kind(outcomes.drop_last(), kind);
        match (outcomes.last()@, kind) {
            (AnnouncePeerOutcome::Stored(s), OutcomeKind::Stored) => before.push(s),
            (AnnouncePeerOutcome::Unavailable(s), OutcomeKind::Unavailable) => before.push(s),
            (AnnouncePeerOutcome::VersionMismatch(s), OutcomeKind::VersionMismatch) => before.push(
                s,
            ),
            _ => before,
        }
    }
}

/// The report of all peers: each list in order.
pub open spec fn collected(outcomes: Seq<AnnouncePeerOutcome>) -> ReportView {
    ReportView {
        stored_on: sorted_texts(of_kind(outcomes, OutcomeKind::Stored), false),
        unavailable: sorted_texts(of_kind(outcomes, OutcomeKind::Unavailable), false),
        version_mismatch: sorted_texts(of_kind(outcomes, OutcomeKind::VersionMismatch), false),
    }
}

/// Collects what became of an announcement at each peer.
pub fn announce_offer_plan(outcomes: &Vec<AnnouncePeerOutcome>) -> (r: MeshSendReport)
    ensures
        r@ == collected(outcomes@),
{
    let mut stored_on: Vec<String> = Vec::new();
    let mut unavailable: Vec<String> = Vec::new();
    let mut version_mismatch: Vec<String> = Vec::new();
    let mut i: usize = 0;
    assert(outcomes@.subrange(0, 0) =~= Seq::<AnnouncePeerOutcome>::empty());
    assert(views(stored_on@) =~= Seq::<Seq<char>>::empty());
    assert(views(unavailable@) =~= Seq::<Seq<char>>::empty());
    assert(views(version_mismatch@) =~= Seq::<Seq<char>>::empty());
    while i < outcomes.len()
        invariant
            i <= outcomes@.len(),
            views(stored_on@) == of_kind(outcomes@.subrange(0, i as int), OutcomeKind::Stored),
            views(unavailable@) == of_kind(outcomes@.subrange(0, i as int), OutcomeKind::Unavailable),
            views(version_mismatch@) == of_kind(outcomes@.subrange(0, i as int), OutcomeKind::VersionMismatch),
        decreases outcomes@.len() - i,
    {
        let ghost now = outcomes@.subrange(0, i + 1);
        assert(now.drop_last() =~= outcomes@.subrange(0, i as int));
        assert(now.last() == outcomes@[i as int]);
        let ghost a = views(stored_on@);
        let ghost b = views(unavailable@);
        let ghost c = views(version_mismatch@);
        match &outcomes[i] {
            AnnouncePeerOutcome::Stored(s) => {
                stored_on.push(s.clone());
                assert(views(stored_on@) =~= a.push(s@));
            },
            AnnouncePeerOutcome::Unavailable(s) => {
                unavailable.push(s.clone());
                assert(views(unavailable@) =~= b.push(s@));
            },
            AnnouncePeerOutcome::VersionMismatch(s) => {
                version_mismatch.push(s.clone());
                assert(views(version_mismatch@) =~= c.push(s@));
            },
        }
        i = i + 1;
    }
    assert(outcomes@.subrange(0, i as int) =~= outcomes@);
    MeshSendReport {
        stored_on: sort_texts(stored_on, false),
        unavailable: sort_texts(unavailable, false),
        version_mismatch: sort_texts(version_mismatch, false),
    }
}

/// Every peer that was asked is counted exactly once.
pub proof fn lemma_report_counts_every_peer(outcomes: Seq<AnnouncePeerOutcome>)
    ensures
        collected(outcomes).stored_on.len() + collected(outcomes).unavailable.len() + collected(
            outcomes,
        ).version_mismatch.len() == outcomes.len(),
{
    lemma_kinds_count(outcomes);
    crate::order::lemma_sorting_keeps_length(of_kind(outcomes, OutcomeKind::Stored), false);
    crate::order::lemma_sorting_keeps_length(of_kind(outcomes, OutcomeKind::Unavailable), false);
    crate::order::lemma_sorting_keeps_length(of_kind(outcomes, OutcomeKind::VersionMismatch), false);
}

proof fn lemma_kinds_count(outcomes: Seq<AnnouncePeerOutcome>)
    ensures
        of_kind(outcomes, OutcomeKind::Stored).len() + of_kind(
            outcomes,
            OutcomeKind::Unavailable,
        ).len() + of_kind(outcomes, OutcomeKind::VersionMismatch).len() == outcomes.len(),
    decreases outcomes.len(),
{
    if outcomes.len() > 0 {
        lemma_kinds_count(outcomes.drop_last());
    }
}

proof fn lemma_part_of_sum(a: Seq<char>, b: Seq<char>, part: Seq<char>)
    requires
        has_part(a, part) || has_part(b, part),
    ensures
        has_part(a + b, part),
{
    let sum = a + b;
    if has_part(a, part) {
        let i = choose|i: int| 0 <= i <= a.len() - part.len() && #[trigger] part_at(a, part, i);
        assert(sum.subrange(i, i + part.len()) =~= a.subrange(i, i + part.len()));
        assert(part_at(sum, part, i));
    } else {
        let i = choose|i: int| 0 <= i <= b.len() - part.len() && #[trigger] part_at(b, part, i);
        let k = a.len() + i;
        assert(sum.subrange(k, k + part.len()) =~= b.subrange(i, i + part.len()));
        assert(part_at(sum, part, k));
    }
}

proof fn lemma_whole_is_part(s: Seq<char>)
    ensures
        has_part(s, s),
{
    assert(s.subrange(0, s.len() as int) =~= s);
    assert(part_at(s, s, 0));
}

proof fn lemma_joined_has_each(texts: Seq<Seq<char>>, separator: Seq<char>, i: int)
    requires
        0 <= i < texts.len(),
    ensures
        has_part(joined(texts, separator), texts[i]),
    decreases texts.len(),
{
    lemma_whole_is_part(texts[i]);
    if texts.len() > 1 {
        let rest = joined(texts.drop_last(), separator);
        if i < texts.len() - 1 {
            assert(texts.drop_last()[i] == texts[i]);
            lemma_joined_has_each(texts.drop_last(), separator, i);
            lemma_part_of_sum(rest, separator, texts[i]);
        }
        lemma_part_of_sum(rest + separator, texts.last(), texts[i]);
    }
}

/// Whatever else the status line says, it names every peer that was not reached, and
/// gives the reason of every peer that speaks another protocol version.
pub proof fn lemma_status_names_everyone_who_missed_it(report: ReportView, i: int)
    ensures
        0 <= i < report.unavailable.len() ==> has_part(report.status(), report.unavailable[i]),
        0 <= i < report.version_mismatch.len() ==> has_part(
            report.status(),
            report.version_mismatch[i],
        ),
{
    let stored = stored_text(report.stored_on.len());
    let mismatches = mismatch_text(report.version_mismatch);
    let unavailable = unavailable_text(report.unavailable);
    let first = both(stored, mismatches);
    if 0 <= i < report.unavailable.len() {
        let names = joined(report.unavailable, ", "@);
        let name = report.unavailable[i];
        lemma_joined_has_each(report.unavailable, ", "@, i);
        lemma_part_of_sum("unavailable "@, names, name);
        lemma_part_of_sum("offer was not stored on any peer: "@, unavailable->0, name);
        if first is Some {
            lemma_part_of_sum(first->0 + "; "@, unavailable->0, name);
        }
    }
    if 0 <= i < report.version_mismatch.len() {
        let reason = report.version_mismatch[i];
        lemma_joined_has_each(report.version_mismatch, "; "@, i);
        if stored is Some {
            lemma_part_of_sum(stored->0 + "; "@, mismatches->0, reason);
        }
        if unavailable is Some {
            lemma_part_of_sum(first->0, "; "@, reason);
            lemma_part_of_sum(first->0 + "; "@, unavailable->0, reason);
        }
    }
}

/// Where an announcement goes.
#[derive(Debug)]
pub struct AnnounceTarget {
    pub address: SocketAddress,
    /// What the greeting is signed over.
    pub nonce: String,
    /// The key that the peer must answer with.
    pub public_key: Vec<u8>,
}

/// The position of the first peer that is this device.
pub open spec fn peer_at(peers: Seq<PairedPeer>, device: DeviceId, i: int) -> bool {
    &&& 0 <= i < peers.len()
    &&& peers[i].device_id == device
    &&& forall|k: int| 0 <= k < i ==> (#[trigger] peers[k]).device_id != device
}

/// Where the announcement of an offer to a device goes: to the preferred address of
/// its peer.  Without a peer or an address it is unavailable.
pub fn announce_target(peers: &Vec<PairedPeer>, device: DeviceId, offer_id: OfferId) -> (r: Option<
    AnnounceTarget,
>)
    ensures
        (forall|i: int| !#[trigger] peer_at(peers@, device, i)) ==> r is None,
        forall|i: int| #[trigger]
            peer_at(peers@, device, i) ==> match preferred_ip(peers@[i].addresses@) {
                None => r is None,
                Some(ip) => r matches Some(target) && {
                    &&& target.address == (SocketAddress { ip, port: MESHELF_PORT })
                    &&& target.nonce@ == hyphenated(offer_id.0)
                    &&& target.public_key@ == peers@[i].public_key@
                },
            },
{
    let mut i: usize = 0;
    while i < peers.len()
        invariant
            i <= peers@.len(),
            forall|k: int| 0 <= k < i ==> (#[trigger] peers@[k]).device_id != device,
        decreases peers@.len() - i,
    {
        if peers[i].device_id == device {
            assert(peer_at(peers@, device, i as int));
            return match select_discovered_socket(&peers[i].addresses, MESHELF_PORT) {
                Some(address) => Some(
                    AnnounceTarget {
                        address,
                        nonce: offer_id.text(),
                        public_key: peers[i].public_key.clone(),
                    },
                ),
                None => None,
            };
        }
        i = i + 1;
    }
    None
}

} // verus!
