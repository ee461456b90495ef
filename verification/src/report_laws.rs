//! Who counts as having stored an offer, and what is said of it.
use vstd::prelude::*;

use crate::announce::OfferAck;
use crate::net_error::NetError;
use crate::order::{joined, lemma_sorting_keeps_texts, sorted_texts};
use crate::report::{
    announce_result, collected, of_kind, says_protocol_update, AnnouncePeerOutcome, OutcomeKind,
    ReportView,
};
use crate::text::{ascii_lower, decimal, has_part, part_at};

verus! {

/// A peer counts as having stored an offer exactly where it acknowledged it as stored or
/// known.  One whose announcement failed never does.
pub proof fn lemma_stored_means_acknowledged(
    hostname: Seq<char>,
    result: Result<OfferAck, NetError>,
)
    ensures
        announce_result(hostname, result) is Stored <==> (result matches Ok(ack) && (ack.code
            is Stored || ack.code is Duplicate)),
        result is Err ==> announce_result(hostname, result) is Unavailable || announce_result(
            hostname,
            result,
        ) is VersionMismatch,
        announce_result(hostname, result) matches AnnouncePeerOutcome::Stored(name) ==> name
            == hostname,
        announce_result(hostname, result) matches AnnouncePeerOutcome::Unavailable(name) ==> name
            == hostname,
{
}

/// A peer speaks another version exactly where the protocols do not match, or where it
/// turns the offer down with words that tell to update to another protocol; it is then
/// named by the reason.  Every other failure, and every refusal of an offer, counts as
/// unavailable.
pub proof fn lemma_who_speaks_another_version(
    hostname: Seq<char>,
    result: Result<OfferAck, NetError>,
)
    ensures
        announce_result(hostname, result) is VersionMismatch <==> (result matches Err(error) && (
        error is ProtocolMismatch || (error matches NetError::Rejected(reason)
            && says_protocol_update(reason@)))),
        result matches Err(NetError::Rejected(reason)) ==> (announce_result(hostname, result)
            matches AnnouncePeerOutcome::VersionMismatch(text) ==> text == reason@),
        result matches Ok(ack) && !(ack.code is Stored || ack.code is Duplicate) ==> announce_result(
            hostname,
            result,
        ) is Unavailable,
        result matches Err(NetError::Rejected(reason)) ==> (!says_protocol_update(reason@)
            ==> announce_result(hostname, result) is Unavailable),
        result matches Err(NetError::Timeout(_)) ==> announce_result(
            hostname,
            result,
        ) is Unavailable,
        result matches Err(NetError::Io(_)) ==> announce_result(hostname, result) is Unavailable,
{
}

/// Words tell to update to another protocol exactly where both words stand in them, in
/// whatever case.
pub proof fn lemma_update_words(reason: Seq<char>, a: Seq<char>, b: Seq<char>, c: Seq<char>)
    ensures
        says_protocol_update(reason) <==> has_part(ascii_lower(reason), "protocol"@) && has_part(
            ascii_lower(reason),
            "update"@,
        ),
        says_protocol_update(a + "protocol"@ + b + "update"@ + c),
        says_protocol_update(a + "update"@ + b + "protocol"@ + c),
{
    let first = a + "protocol"@ + b + "update"@ + c;
    let second = a + "update"@ + b + "protocol"@ + c;
    lemma_lower_words();
    lemma_word_kept(first, "protocol"@, a.len() as int);
    lemma_word_kept(first, "update"@, (a.len() + "protocol"@.len() + b.len()) as int);
    lemma_word_kept(second, "update"@, a.len() as int);
    lemma_word_kept(second, "protocol"@, (a.len() + "update"@.len() + b.len()) as int);
}

proof fn lemma_lower_words()
    ensures
        ascii_lower("protocol"@) == "protocol"@,
        ascii_lower("update"@) == "update"@,
{
    reveal_strlit("protocol");
    reveal_strlit("update");
    assert(ascii_lower("protocol"@) =~= "protocol"@);
    assert(ascii_lower("update"@) =~= "update"@);
}

proof fn lemma_word_kept(s: Seq<char>, word: Seq<char>, i: int)
    requires
        0 <= i,
        i + word.len() <= s.len(),
        s.subrange(i, i + word.len()) =~= word,
        ascii_lower(word) == word,
    ensures
        has_part(ascii_lower(s), word),
{
    assert forall|k: int| 0 <= k < word.len() implies ascii_lower(s).subrange(
        i,
        i + word.len(),
    )[k] == word[k] by {
        assert(s.subrange(i, i + word.len())[k] == word[k]);
        assert(ascii_lower(word)[k] == word[k]);
    }
    assert(ascii_lower(s).subrange(i, i + word.len()) =~= word);
    assert(part_at(ascii_lower(s), word, i));
}

proof fn lemma_kind_holds(outcomes: Seq<AnnouncePeerOutcome>, i: int)
    requires
        0 <= i < outcomes.len(),
    ensures
        outcomes[i]@ matches AnnouncePeerOutcome::Stored(name) ==> of_kind(
            outcomes,
            OutcomeKind::Stored,
        ).contains(name),
        outcomes[i]@ matches AnnouncePeerOutcome::Unavailable(name) ==> of_kind(
            outcomes,
            OutcomeKind::Unavailable,
        ).contains(name),
        outcomes[i]@ matches AnnouncePeerOutcome::VersionMismatch(reason) ==> of_kind(
            outcomes,
            OutcomeKind::VersionMismatch,
        ).contains(reason),
    decreases outcomes.len(),
{
    let before = outcomes.drop_last();
    if i < outcomes.len() - 1 {
        assert(before[i] == outcomes[i]);
        lemma_kind_holds(before, i);
        lemma_kind_grows(outcomes, OutcomeKind::Stored);
        lemma_kind_grows(outcomes, OutcomeKind::Unavailable);
        lemma_kind_grows(outcomes, OutcomeKind::VersionMismatch);
    } else {
        assert(outcomes.last() == outcomes[i]);
        match outcomes.last()@ {
            AnnouncePeerOutcome::Stored(name) => {
                let all = of_kind(outcomes, OutcomeKind::Stored);
                assert(all[all.len() - 1] == name);
            },
            AnnouncePeerOutcome::Unavailable(name) => {
                let all = of_kind(outcomes, OutcomeKind::Unavailable);
                assert(all[all.len() - 1] == name);
            },
            AnnouncePeerOutcome::VersionMismatch(name) => {
                let all = of_kind(outcomes, OutcomeKind::VersionMismatch);
                assert(all[all.len() - 1] == name);
            },
        }
    }
}

proof fn lemma_kind_grows(outcomes: Seq<AnnouncePeerOutcome>, kind: OutcomeKind)
    requires
        outcomes.len() > 0,
    ensures
        forall|name: Seq<char>| #[trigger]
            of_kind(outcomes.drop_last(), kind).contains(name) ==> of_kind(
                outcomes,
                kind,
            ).contains(name),
{
    let before = of_kind(outcomes.drop_last(), kind);
    let all = of_kind(outcomes, kind);
    assert forall|name: Seq<char>| #[trigger] before.contains(name) implies all.contains(name) by {
        let k = choose|k: int| 0 <= k < before.len() && before[k] == name;
        assert(all[k] == name);
    }
}

/// The report lists every outcome in the list of its kind.
pub proof fn lemma_report_lists_every_outcome(outcomes: Seq<AnnouncePeerOutcome>, i: int)
    requires
        0 <= i < outcomes.len(),
    ensures
        outcomes[i]@ matches AnnouncePeerOutcome::Stored(name) ==> collected(
            outcomes,
        ).stored_on.contains(name),
        outcomes[i]@ matches AnnouncePeerOutcome::Unavailable(name) ==> collected(
            outcomes,
        ).unavailable.contains(name),
        outcomes[i]@ matches AnnouncePeerOutcome::VersionMismatch(reason) ==> collected(
            outcomes,
        ).version_mismatch.contains(reason),
{
    lemma_kind_holds(outcomes, i);
    lemma_sorting_keeps_texts(of_kind(outcomes, OutcomeKind::Stored), false);
    lemma_sorting_keeps_texts(of_kind(outcomes, OutcomeKind::Unavailable), false);
    lemma_sorting_keeps_texts(of_kind(outcomes, OutcomeKind::VersionMismatch), false);
    lemma_multiset_holds(of_kind(outcomes, OutcomeKind::Stored));
    lemma_multiset_holds(of_kind(outcomes, OutcomeKind::Unavailable));
    lemma_multiset_holds(of_kind(outcomes, OutcomeKind::VersionMismatch));
}

proof fn lemma_multiset_holds(texts: Seq<Seq<char>>)
    requires
        sorted_texts(texts, false).to_multiset() == texts.to_multiset(),
    ensures
        forall|name: Seq<char>| #[trigger]
            texts.contains(name) ==> sorted_texts(texts, false).contains(name),
{
    broadcast use vstd::seq_lib::group_to_multiset_ensures;

    let sorted = sorted_texts(texts, false);
    assert forall|name: Seq<char>| #[trigger] texts.contains(name) implies sorted.contains(
        name,
    ) by {
        assert(texts.to_multiset().count(name) > 0);
        assert(sorted.to_multiset().count(name) > 0);
    }
}

/// The report of an offer that no peer acknowledged lists none that stored it.
pub proof fn lemma_nothing_stored_without_an_acknowledgement(outcomes: Seq<AnnouncePeerOutcome>)
    ensures
        collected(outcomes).stored_on.len() > 0 <==> exists|i: int|
            0 <= i < outcomes.len() && (#[trigger] outcomes[i])@ is Stored,
{
    crate::order::lemma_sorting_keeps_length(of_kind(outcomes, OutcomeKind::Stored), false);
    lemma_stored_somewhere(outcomes);
}

proof fn lemma_stored_somewhere(outcomes: Seq<AnnouncePeerOutcome>)
    ensures
        of_kind(outcomes, OutcomeKind::Stored).len() > 0 <==> exists|i: int|
            0 <= i < outcomes.len() && (#[trigger] outcomes[i])@ is Stored,
    decreases outcomes.len(),
{
    if outcomes.len() > 0 {
        let before = outcomes.drop_last();
        lemma_stored_somewhere(before);
        if outcomes.last()@ is Stored {
            assert(outcomes[outcomes.len() - 1]@ is Stored);
        } else {
            if exists|i: int| 0 <= i < before.len() && (#[trigger] before[i])@ is Stored {
                let i = choose|i: int| 0 <= i < before.len() && (#[trigger] before[i])@ is Stored;
                assert(outcomes[i]@ is Stored);
            }
            if exists|i: int| 0 <= i < outcomes.len() && (#[trigger] outcomes[i])@ is Stored {
                let i = choose|i: int|
                    0 <= i < outcomes.len() && (#[trigger] outcomes[i])@ is Stored;
                assert(before[i]@ is Stored);
            }
        }
    }
}

/// What the status line says where there is one thing to say: on how many devices the
/// offer is, who was not reached, or that nobody is paired; and that the number of
/// devices comes first where there is more.
pub proof fn lemma_status_lines(stored: Seq<Seq<char>>, missed: Seq<Seq<char>>)
    ensures
        ({
            let none = Seq::<Seq<char>>::empty();
            let only = ReportView {
                stored_on: stored,
                unavailable: none,
                version_mismatch: none,
            };
            &&& stored.len() == 0 ==> only.status() == "No paired devices accepted the offer"@
            &&& stored.len() == 1 ==> only.status() == "Added to 1 device"@
            &&& stored.len() > 1 ==> only.status() == "Added to "@ + decimal(stored.len())
                + " devices"@
        }),
        missed.len() > 0 ==> {
            let none = Seq::<Seq<char>>::empty();
            let lost = ReportView {
                stored_on: none,
                unavailable: missed,
                version_mismatch: none,
            };
            let some = ReportView {
                stored_on: stored,
                unavailable: missed,
                version_mismatch: none,
            };
            &&& lost.status() == "offer was not stored on any peer: "@ + ("unavailable "@ + joined(
                missed,
                ", "@,
            ))
            &&& stored.len() == 1 ==> some.status() == "Added to 1 device"@ + "; "@ + (
            "unavailable "@ + joined(missed, ", "@))
            &&& stored.len() > 1 ==> some.status() == "Added to "@ + decimal(stored.len())
                + " devices"@ + "; "@ + ("unavailable "@ + joined(missed, ", "@))
        },
{
}

} // verus!
