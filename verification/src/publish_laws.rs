//! Content that can be saved is saved.
use vstd::prelude::*;

use crate::activation::ActivationMode;
use crate::destination::candidate_name;
use crate::ids::{hyphenated, ActivationId, MessageId};
use crate::model::ContentKind;
use crate::net_error::NetError;
use crate::publish::{
    fallback_name, publish_run, publish_start, PublishEvent, PublishStep, PublishView,
    LAST_COLLISION_INDEX,
};

verus! {

/// There are 9999 numbers.
pub proof fn lemma_last_number()
    ensures
        LAST_COLLISION_INDEX == 9999,
{
}

/// A name that is taken leads to the name of the next number, and behind the last number
/// to the one that ends in a drawn identifier, for every kind of content that is saved.
/// Any other failure ends the attempt with its error, and a move that succeeded is made
/// durable under its name.
pub proof fn lemma_a_taken_name_leads_to_the_next(
    p: PublishView,
    name: Seq<char>,
    result: Result<(), NetError>,
    name_taken: bool,
    drawn: MessageId,
)
    requires
        p.mode is Save,
        p.step == PublishStep::Finalize(name),
    ensures
        ({
            let q = p.next(PublishEvent::Finalized { result, name_taken }, drawn);
            match result {
                Ok(_) => q.step == PublishStep::SyncParent(name) && q.index == p.index,
                Err(error) => if !name_taken || p.index > 9999 {
                    q.step == PublishStep::Finished(Err::<Option<Seq<char>>, _>(error@))
                } else {
                    let other = if p.index < 9999 {
                        candidate_name(p.root_name, p.content_kind, p.index + 1)
                    } else {
                        fallback_name(p.root_name, drawn)
                    };
                    match other {
                        Ok(next) => q.step == PublishStep::Finalize(next) && q.index == p.index + 1,
                        Err(error) => q.step == PublishStep::Finished(
                            Err::<Option<Seq<char>>, _>(error),
                        ),
                    }
                },
            }
        }),
{
}

/// Whether every answer is a good one, in a directory in which these names are taken.
pub open spec fn answered_well(
    taken: spec_fn(Seq<char>) -> bool,
    p: PublishView,
    events: Seq<(PublishEvent, MessageId)>,
) -> bool {
    forall|k: int|
        0 <= k < events.len() ==> answers_well(
            taken,
            publish_run(p, events.subrange(0, k)),
            (#[trigger] events[k]).0,
        )
}

/// Whether an event answers the current step: a name that is taken is said to be, and
/// everything else succeeds.
pub open spec fn answers_well(
    taken: spec_fn(Seq<char>) -> bool,
    p: PublishView,
    event: PublishEvent,
) -> bool {
    match (p.step, event) {
        (PublishStep::Finalize(name), PublishEvent::Finalized { result, name_taken }) => if taken(
            name,
        ) {
            result is Err && name_taken
        } else {
            result is Ok
        },
        (PublishStep::Finalize(_), _) => false,
        (_, PublishEvent::Local(result)) => result is Ok,
        _ => false,
    }
}

/// Whether `n` is the least number whose name is free.
pub open spec fn least_free(
    taken: spec_fn(Seq<char>) -> bool,
    root_name: Seq<char>,
    content_kind: ContentKind,
    n: nat,
) -> bool {
    &&& 1 <= n <= 9999
    &&& candidate_name(root_name, content_kind, n) matches Ok(name) && !taken(name)
    &&& forall|m: nat|
        1 <= m < n ==> (#[trigger] name_of(root_name, content_kind, m) matches Some(name) && taken(
            name,
        ))
}

/// The name of a number, where it is a name.
pub open spec fn name_of(root_name: Seq<char>, content_kind: ContentKind, n: nat) -> Option<
    Seq<char>,
> {
    match candidate_name(root_name, content_kind, n) {
        Ok(name) => Some(name),
        Err(_) => None,
    }
}

/// The step of a save after `done` good answers, where `n` is the least free number.
pub open spec fn expected_step(
    root_name: Seq<char>,
    content_kind: ContentKind,
    n: nat,
    done: nat,
) -> PublishStep<Seq<char>> {
    if done == 0 {
        PublishStep::MarkPublishing
    } else if done == 1 {
        PublishStep::RequireDestination
    } else if done == 2 {
        PublishStep::RequireTarget
    } else if done <= n + 2 {
        PublishStep::Finalize(name_of(root_name, content_kind, (done - 2) as nat)->0)
    } else if done == n + 3 {
        PublishStep::SyncParent(name_of(root_name, content_kind, n)->0)
    } else {
        PublishStep::Finished(Ok(Some(name_of(root_name, content_kind, n)->0)))
    }
}

/// A save in a directory with a free number ends well, under the least free number: after
/// the two checks the names are tried in turn, the first that is free is taken and made
/// durable, and no name that is taken ends the save.
pub proof fn lemma_a_save_takes_the_least_free_number(
    taken: spec_fn(Seq<char>) -> bool,
    request_id: ActivationId,
    content_kind: ContentKind,
    root_name: Seq<char>,
    events: Seq<(PublishEvent, MessageId)>,
    n: nat,
)
    requires
        !(content_kind is Text),
        least_free(taken, root_name, content_kind, n),
        answered_well(
            taken,
            publish_start(request_id, ActivationMode::Save, content_kind, root_name, true),
            events,
        ),
    ensures
        publish_run(
            publish_start(request_id, ActivationMode::Save, content_kind, root_name, true),
            events,
        ).step == expected_step(root_name, content_kind, n, events.len()),
        events.len() >= n + 4 ==> publish_run(
            publish_start(request_id, ActivationMode::Save, content_kind, root_name, true),
            events,
        ).step == PublishStep::Finished(
            Ok::<_, NetError<Seq<char>>>(name_of(root_name, content_kind, n)),
        ),
{
    lemma_save_in_turn(taken, request_id, content_kind, root_name, events, n);
}

proof fn lemma_save_in_turn(
    taken: spec_fn(Seq<char>) -> bool,
    request_id: ActivationId,
    content_kind: ContentKind,
    root_name: Seq<char>,
    events: Seq<(PublishEvent, MessageId)>,
    n: nat,
)
    requires
        !(content_kind is Text),
        least_free(taken, root_name, content_kind, n),
        answered_well(
            taken,
            publish_start(request_id, ActivationMode::Save, content_kind, root_name, true),
            events,
        ),
    ensures
        ({
            let p = publish_start(request_id, ActivationMode::Save, content_kind, root_name, true);
            let q = publish_run(p, events);
            &&& q == PublishView { index: q.index, step: q.step, ..p }
            &&& q.step == expected_step(root_name, content_kind, n, events.len())
            &&& q.step is Finalize ==> q.index == events.len() - 2
        }),
    decreases events.len(),
{
    let p = publish_start(request_id, ActivationMode::Save, content_kind, root_name, true);
    reveal(publish_run);
    if events.len() > 0 {
        let before = events.drop_last();
        let k = events.len() - 1;
        assert(answered_well(taken, p, before)) by {
            assert forall|i: int| 0 <= i < before.len() implies answers_well(
                taken,
                publish_run(p, before.subrange(0, i)),
                (#[trigger] before[i]).0,
            ) by {
                assert(before.subrange(0, i) =~= events.subrange(0, i));
                assert(before[i] == events[i]);
            }
        }
        lemma_save_in_turn(taken, request_id, content_kind, root_name, before, n);
        assert(events.subrange(0, k) =~= before);
        let g = publish_run(p, before);
        assert(answers_well(taken, g, events[k].0));
        lemma_one_save_step(taken, g, events.last().0, events.last().1, n, before.len());
    }
}

proof fn lemma_one_save_step(
    taken: spec_fn(Seq<char>) -> bool,
    g: PublishView,
    event: PublishEvent,
    drawn: MessageId,
    n: nat,
    done: nat,
)
    requires
        g.mode is Save,
        !(g.content_kind is Text),
        g.has_destination,
        least_free(taken, g.root_name, g.content_kind, n),
        g.step == expected_step(g.root_name, g.content_kind, n, done),
        g.step is Finalize ==> g.index == done - 2,
        answers_well(taken, g, event),
    ensures
        ({
            let q = g.next(event, drawn);
            &&& q == PublishView { index: q.index, step: q.step, ..g }
            &&& q.step == expected_step(g.root_name, g.content_kind, n, done + 1)
            &&& q.step is Finalize ==> q.index == done - 1
        }),
{
    if done >= 3 && done <= n + 2 {
        let m = (done - 2) as nat;
        if m < n {
            assert(name_of(g.root_name, g.content_kind, m) is Some);
            if m + 1 < n {
                assert(name_of(g.root_name, g.content_kind, m + 1) is Some);
            }
        }
    }
    if done == 2 && n > 1 {
        assert(name_of(g.root_name, g.content_kind, 1) is Some);
    }
}

/// Content for the clipboard, and a text, are published without a name being tried twice:
/// a text has nothing to publish, content without a destination is refused, and content
/// for the clipboard is moved to the name of its activation or the failure is reported.
pub proof fn lemma_other_publications(p: PublishView, event: PublishEvent, drawn: MessageId)
    ensures
        p.step is MarkPublishing && p.content_kind is Text && (event
            matches PublishEvent::Local(Ok(_))) ==> p.next(event, drawn).step
            == PublishStep::Finished(Ok::<Option<Seq<char>>, NetError<Seq<char>>>(None)),
        p.step is MarkPublishing && !(p.content_kind is Text) && !p.has_destination && (event
            matches PublishEvent::Local(Ok(_))) ==> (p.next(event, drawn).step
            matches PublishStep::Finished(Err(NetError::Rejected(_)))),
        p.mode is Clipboard && p.step is RequireDestination && (event matches PublishEvent::Local(
            Ok(_),
        )) ==> p.next(event, drawn).step == PublishStep::Finalize(
            "candidate-"@ + hyphenated(p.request_id.0),
        ),
        p.mode is Clipboard && p.step is Finalize ==> (event matches PublishEvent::Finalized {
            result: Err(error),
            ..
        } ==> p.next(event, drawn).step == PublishStep::Finished(
            Err::<Option<Seq<char>>, _>(error@),
        )),
{
}

} // verus!
