//! Publishing received content under a name that is still free.
use vstd::prelude::*;

use crate::activation::ActivationMode;
use crate::destination::{
    candidate_name, collision_candidate, component_with_suffix, forbidden_char, portable_component,
    single_component, suffixed,
};
use crate::ids::{hyphenated, random_shape, ActivationId, MessageId};
use crate::model::ContentKind;
use crate::net_error::NetError;
use crate::text::{join2, opt_view};

verus! {

/// The last number that is put behind a name that is taken.
pub const LAST_COLLISION_INDEX: usize = 9999;

/// What to do next; `S` is the type of the texts.
#[derive(Debug)]
pub enum PublishStep<S = String> {
    /// Journal that publication begins.
    MarkPublishing,
    /// Check that the destination is a directory.
    RequireDestination,
    /// Check it once more, right before names are tried.
    RequireTarget,
    /// Move the content to this name, unless the name is taken.
    Finalize(S),
    /// Make the new name durable.
    SyncParent(S),
    /// The name of what was published, if anything was.
    Finished(Result<Option<S>, NetError<S>>),
}

/// The outcome of a step.
#[derive(Debug)]
pub enum PublishEvent {
    Local(Result<(), String>),
    /// The content was moved, or why not, and whether the name was taken.
    Finalized { result: Result<(), NetError>, name_taken: bool },
}

/// One publication under way.
#[derive(Debug)]
pub struct Publish {
    pub request_id: ActivationId,
    pub mode: ActivationMode,
    pub content_kind: ContentKind,
    pub root_name: String,
    pub has_destination: bool,
    /// The number of the name that is tried.
    pub index: usize,
    pub step: PublishStep,
}

/// A publication with its texts as sequences.
pub ghost struct PublishView {
    pub request_id: ActivationId,
    pub mode: ActivationMode,
    pub content_kind: ContentKind,
    pub root_name: Seq<char>,
    pub has_destination: bool,
    pub index: nat,
    pub step: PublishStep<Seq<char>>,
}

pub open spec fn publish_step_view(step: PublishStep) -> PublishStep<Seq<char>> {
    match step {
        PublishStep::MarkPublishing => PublishStep::MarkPublishing,
        PublishStep::RequireDestination => PublishStep::RequireDestination,
        PublishStep::RequireTarget => PublishStep::RequireTarget,
        PublishStep::Finalize(name) => PublishStep::Finalize(name@),
        PublishStep::SyncParent(name) => PublishStep::SyncParent(name@),
        PublishStep::Finished(Ok(name)) => PublishStep::Finished(Ok(opt_view(name))),
        PublishStep::Finished(Err(error)) => PublishStep::Finished(Err(error@)),
    }
}

impl View for Publish {
    type V = PublishView;

    open spec fn view(&self) -> PublishView {
        PublishView {
            request_id: self.request_id,
            mode: self.mode,
            content_kind: self.content_kind,
            root_name: self.root_name@,
            has_destination: self.has_destination,
            index: self.index as nat,
            step: publish_step_view(self.step),
        }
    }
}

/// The name under which content for the clipboard is kept.
pub open spec fn cache_name(request_id: ActivationId) -> Seq<char> {
    "candidate-"@ + hyphenated(request_id.0)
}

/// The name under which content for the clipboard is kept.
#[must_use]
pub fn clipboard_cache_name(request_id: ActivationId) -> (r: String)
    ensures
        r@ == cache_name(request_id),
{
    join2("candidate-", request_id.text().as_str())
}

/// The name behind all numbered ones: it ends in an identifier of its own.
pub open spec fn fallback_name(
    root_name: Seq<char>,
    drawn: MessageId,
) -> Result<Seq<char>, NetError<Seq<char>>> {
    suffixed(root_name, "."@ + hyphenated(drawn.0))
}

impl PublishView {
    pub open spec fn fail(self, error: NetError<Seq<char>>) -> PublishView {
        PublishView { step: PublishStep::Finished(Err(error)), ..self }
    }

    /// Tries name number `index`, or the fallback behind the last number.
    pub open spec fn attempt(self, index: nat, drawn: MessageId) -> PublishView {
        let name = if index <= LAST_COLLISION_INDEX {
            candidate_name(self.root_name, self.content_kind, index)
        } else {
            fallback_name(self.root_name, drawn)
        };
        match name {
            Ok(name) => PublishView { index, step: PublishStep::Finalize(name), ..self },
            Err(error) => self.fail(error),
        }
    }

    /// What a local operation does.
    pub open spec fn local(self, result: Result<(), String>, drawn: MessageId) -> PublishView {
        match (self.step, result) {
            (PublishStep::MarkPublishing, Err(s)) => self.fail(NetError::FetchServiceOwned(s@)),
            (PublishStep::MarkPublishing, Ok(())) => if self.content_kind is Text {
                PublishView { step: PublishStep::Finished(Ok(None)), ..self }
            } else if !self.has_destination {
                self.fail(NetError::Rejected("file activation has no destination"@))
            } else {
                PublishView { step: PublishStep::RequireDestination, ..self }
            },
            (PublishStep::RequireDestination, Ok(())) => if self.mode is Clipboard {
                PublishView {
                    step: PublishStep::Finalize(cache_name(self.request_id)),
                    ..self
                }
            } else {
                PublishView { step: PublishStep::RequireTarget, ..self }
            },
            (PublishStep::RequireTarget, Ok(())) => self.attempt(1, drawn),
            (PublishStep::SyncParent(name), Ok(())) => PublishView {
                step: PublishStep::Finished(Ok(Some(name))),
                ..self
            },
            (PublishStep::RequireDestination, Err(s))
            | (PublishStep::RequireTarget, Err(s))
            | (PublishStep::SyncParent(_), Err(s)) => self.fail(NetError::Io(s@)),
            _ => self,
        }
    }

    /// What an event does; one that does not answer the current step changes nothing.
    pub open spec fn next(self, event: PublishEvent, drawn: MessageId) -> PublishView {
        match event {
            PublishEvent::Local(result) => self.local(result, drawn),
            PublishEvent::Finalized { result, name_taken } => match self.step {
                PublishStep::Finalize(name) => match result {
                    Ok(()) => PublishView { step: PublishStep::SyncParent(name), ..self },
                    Err(error) => if self.mode is Save && name_taken && self.index
                        <= LAST_COLLISION_INDEX {
                        self.attempt(self.index + 1, drawn)
                    } else {
                        self.fail(error@)
                    },
                },
                _ => self,
            },
        }
    }

    /// What holds between any two steps.
    pub open spec fn wf(self) -> bool {
        &&& self.index <= LAST_COLLISION_INDEX + 1
        &&& self.step is Finalize && self.mode is Save ==> self.index >= 1 && portable_component(
            self.root_name,
        )
        &&& self.step matches PublishStep::Finalize(name) ==> self.mode is Save
            ==> portable_component(name)
    }
}

/// A portable name is a single component.
proof fn lemma_portable_is_single(s: Seq<char>)
    requires
        portable_component(s),
    ensures
        single_component(s),
{
    if s.contains('/') {
        let i = choose|i: int| 0 <= i < s.len() && s[i] == '/';
        assert(forbidden_char(s[i]));
    }
    if s.contains('\\') {
        let i = choose|i: int| 0 <= i < s.len() && s[i] == '\\';
        assert(forbidden_char(s[i]));
    }
    if s.contains(':') {
        let i = choose|i: int| 0 <= i < s.len() && s[i] == ':';
        assert(forbidden_char(s[i]));
    }
}

impl Publish {
    /// Starts the publication of staged content.
    pub fn new(
        request_id: ActivationId,
        mode: ActivationMode,
        content_kind: ContentKind,
        root_name: String,
        has_destination: bool,
    ) -> (r: Self)
        ensures
            r@ == publish_start(request_id, mode, content_kind, root_name@, has_destination),
            r@.wf(),
    {
        Publish {
            request_id,
            mode,
            content_kind,
            root_name,
            has_destination,
            index: 0,
            step: PublishStep::MarkPublishing,
        }
    }

    fn attempt(self, index: usize, drawn: MessageId) -> (r: Self)
        requires
            self@.wf(),
            1 <= index <= LAST_COLLISION_INDEX + 1,
            index == 1 || portable_component(self.root_name@),
        ensures
            r@ == self@.attempt(index as nat, drawn),
            r@.wf(),
    {
        proof {
            if index != 1 {
                lemma_portable_is_single(self.root_name@);
            }
        }
        let name = if index <= LAST_COLLISION_INDEX {
            collision_candidate(self.root_name.as_str(), self.content_kind, index)
        } else {
            let suffix = join2(".", drawn.text().as_str());
            component_with_suffix(self.root_name.as_str(), suffix.as_str())
        };
        let mut this = self;
        match name {
            Ok(name) => {
                this.index = index;
                this.step = PublishStep::Finalize(name);
            },
            Err(error) => {
                this.step = PublishStep::Finished(Err(error));
            },
        }
        this
    }

    fn on_local(self, result: Result<(), String>, drawn: MessageId) -> (r: Self)
        requires
            self@.wf(),
        ensures
            r@ == self@.local(result, drawn),
            r@.wf(),
    {
        let mut this = self;
        match result {
            Ok(()) => match this.step {
                PublishStep::MarkPublishing => {
                    this.step = if matches!(this.content_kind, ContentKind::Text) {
                        PublishStep::Finished(Ok(None))
                    } else if !this.has_destination {
                        PublishStep::Finished(
                            Err(
                                NetError::Rejected(
                                    "file activation has no destination".to_owned(),
                                ),
                            ),
                        )
                    } else {
                        PublishStep::RequireDestination
                    };
                    this
                },
                PublishStep::RequireDestination => {
                    this.step = if matches!(this.mode, ActivationMode::Clipboard) {
                        PublishStep::Finalize(clipboard_cache_name(this.request_id))
                    } else {
                        PublishStep::RequireTarget
                    };
                    this
                },
                PublishStep::RequireTarget => this.attempt(1, drawn),
                PublishStep::SyncParent(name) => {
                    this.step = PublishStep::Finished(Ok(Some(name)));
                    this
                },
                _ => this,
            },
            Err(s) => {
                match this.step {
                    PublishStep::MarkPublishing => {
                        this.step = PublishStep::Finished(Err(NetError::FetchServiceOwned(s)));
                    },
                    PublishStep::RequireDestination
                    | PublishStep::RequireTarget
                    | PublishStep::SyncParent(_) => {
                        this.step = PublishStep::Finished(Err(NetError::Io(s)));
                    },
                    _ => {},
                }
                this
            },
        }
    }

    /// Takes the outcome of the current step, given an identifier that was just drawn.
    pub fn handle(self, event: PublishEvent, drawn: MessageId) -> (r: Self)
        requires
            self@.wf(),
        ensures
            r@ == self@.next(event, drawn),
            r@.wf(),
    {
        match event {
            PublishEvent::Local(result) => self.on_local(result, drawn),
            PublishEvent::Finalized { result, name_taken } => {
                let mut this = self;
                if !matches!(this.step, PublishStep::Finalize(_)) {
                    return this;
                }
                match result {
                    Ok(()) => {
                        if let PublishStep::Finalize(name) = this.step {
                            this.step = PublishStep::SyncParent(name);
                        }
                        this
                    },
                    Err(error) => {
                        if matches!(this.mode, ActivationMode::Save) && name_taken && this.index
                            <= LAST_COLLISION_INDEX {
                            let next: usize = this.index + 1;
                            this.attempt(next, drawn)
                        } else {
                            this.step = PublishStep::Finished(Err(error));
                            this
                        }
                    },
                }
            },
        }
    }

    /// Takes the outcome of the current step.
    pub fn publish(self, event: PublishEvent) -> (r: Self)
        requires
            self@.wf(),
        ensures
            exists|drawn: MessageId|
                random_shape(drawn.0) && r@ == #[trigger] self@.next(event, drawn),
            r@.wf(),
    {
        let drawn = MessageId::new();
        self.handle(event, drawn)
    }
}

/// Each name that is taken leads to the next number, and behind the last one to a
/// single fallback, so that names are tried finitely often.
pub proof fn lemma_names_advance(p: PublishView, event: PublishEvent, drawn: MessageId)
    requires
        p.wf(),
        p.step is Finalize,
        p.next(event, drawn).step is Finalize,
        event is Finalized,
    ensures
        p.next(event, drawn).index == p.index + 1,
        p.next(event, drawn).index <= LAST_COLLISION_INDEX + 1,
{
}

/// A publication after some events, each with the identifier that was drawn for it.
#[verifier::opaque]
pub open spec fn publish_run(
    p: PublishView,
    events: Seq<(PublishEvent, MessageId)>,
) -> PublishView
    decreases events.len(),
{
    if events.len() == 0 {
        p
    } else {
        publish_run(p, events.drop_last()).next(events.last().0, events.last().1)
    }
}

/// A publication that has not begun.
pub open spec fn publish_start(
    request_id: ActivationId,
    mode: ActivationMode,
    content_kind: ContentKind,
    root_name: Seq<char>,
    has_destination: bool,
) -> PublishView {
    PublishView {
        request_id,
        mode,
        content_kind,
        root_name,
        has_destination,
        index: 0,
        step: PublishStep::MarkPublishing,
    }
}

/// Whether event `k` told that the name of number `n` is taken.
pub open spec fn taken_at(
    p: PublishView,
    events: Seq<(PublishEvent, MessageId)>,
    n: nat,
    k: int,
) -> bool {
    &&& 0 <= k < events.len()
    &&& publish_run(p, events.subrange(0, k)).step matches PublishStep::Finalize(name)
        && candidate_name(p.root_name, p.content_kind, n) == Ok::<Seq<char>, NetError<Seq<char>>>(
        name,
    )
    &&& events[k].0 matches PublishEvent::Finalized { result: Err(_), name_taken: true }
}

/// Whether the name of number `n` was tried, and was taken.
pub open spec fn was_taken(p: PublishView, events: Seq<(PublishEvent, MessageId)>, n: nat) -> bool {
    exists|k: int| #[trigger] taken_at(p, events, n, k)
}

/// Whether event `k` told that the content was moved to a name.
pub open spec fn moved_at(
    p: PublishView,
    events: Seq<(PublishEvent, MessageId)>,
    name: Seq<char>,
    k: int,
) -> bool {
    &&& 0 <= k < events.len()
    &&& publish_run(p, events.subrange(0, k)).step == PublishStep::Finalize(name)
    &&& events[k].0 matches PublishEvent::Finalized { result: Ok(_), .. }
}

/// Whether the content was moved to a name.
pub open spec fn was_moved(
    p: PublishView,
    events: Seq<(PublishEvent, MessageId)>,
    name: Seq<char>,
) -> bool {
    exists|k: int| #[trigger] moved_at(p, events, name, k)
}

/// Whether `name` is that of number `n`, or behind the last number one that ends in a
/// drawn identifier.
pub open spec fn numbered(
    p: PublishView,
    events: Seq<(PublishEvent, MessageId)>,
    n: nat,
    name: Seq<char>,
) -> bool {
    if n <= LAST_COLLISION_INDEX {
        candidate_name(p.root_name, p.content_kind, n) == Ok::<Seq<char>, NetError<Seq<char>>>(name)
    } else {
        exists|k: int|
            0 <= k < events.len() && fallback_name(p.root_name, (#[trigger] events[k]).1) == Ok::<
                Seq<char>,
                NetError<Seq<char>>,
            >(name)
    }
}

/// Whether a name is the first that was not taken.
pub open spec fn first_free(
    p: PublishView,
    events: Seq<(PublishEvent, MessageId)>,
    n: nat,
    name: Seq<char>,
) -> bool {
    &&& 1 <= n <= LAST_COLLISION_INDEX + 1
    &&& numbered(p, events, n, name)
    &&& forall|m: nat| 1 <= m < n ==> #[trigger] was_taken(p, events, m)
}

/// What holds of the names of every publication that saves content.
spec fn names_in_turn(p: PublishView, events: Seq<(PublishEvent, MessageId)>) -> bool {
    let q = publish_run(p, events);
    &&& q == PublishView { index: q.index, step: q.step, ..p }
    &&& match q.step {
        PublishStep::Finalize(name) => first_free(p, events, q.index, name),
        PublishStep::SyncParent(name) => first_free(p, events, q.index, name) && was_moved(
            p,
            events,
            name,
        ),
        PublishStep::Finished(Ok(Some(name))) => first_free(p, events, q.index, name) && was_moved(
            p,
            events,
            name,
        ),
        _ => true,
    }
}

/// What was told stays told.
proof fn lemma_told_stays(p: PublishView, events: Seq<(PublishEvent, MessageId)>)
    requires
        events.len() > 0,
    ensures
        forall|m: nat| #[trigger]
            was_taken(p, events.drop_last(), m) ==> was_taken(p, events, m),
        forall|name: Seq<char>, k: int| #[trigger]
            moved_at(p, events.drop_last(), name, k) ==> moved_at(p, events, name, k),
{
    let before = events.drop_last();
    assert forall|m: nat| #[trigger] was_taken(p, before, m) implies was_taken(p, events, m) by {
        let k = choose|k: int| #[trigger] taken_at(p, before, m, k);
        assert(before.subrange(0, k) =~= events.subrange(0, k));
        assert(before[k] == events[k]);
        assert(taken_at(p, events, m, k));
    }
    assert forall|name: Seq<char>, k: int| #[trigger]
        moved_at(p, before, name, k) implies moved_at(p, events, name, k) by {
        assert(before.subrange(0, k) =~= events.subrange(0, k));
        assert(before[k] == events[k]);
    }
}

/// What one event does to the name of content that is saved.
spec fn name_step(g: PublishView, event: PublishEvent, drawn: MessageId, q: PublishView) -> bool {
    let told = event matches PublishEvent::Finalized { result: Err(_), name_taken: true };
    let moved = event matches PublishEvent::Finalized { result: Ok(_), .. };
    &&& q == PublishView { index: q.index, step: q.step, ..g }
    &&& q.step matches PublishStep::Finalize(name) ==> q == g || {
        &&& q.index == 1 && g.step is RequireTarget || q.index == g.index + 1 && g.step is Finalize
            && told && g.index <= LAST_COLLISION_INDEX
        &&& q.index <= LAST_COLLISION_INDEX ==> candidate_name(
            g.root_name,
            g.content_kind,
            q.index,
        ) == Ok::<Seq<char>, NetError<Seq<char>>>(name)
        &&& q.index > LAST_COLLISION_INDEX ==> fallback_name(g.root_name, drawn) == Ok::<
            Seq<char>,
            NetError<Seq<char>>,
        >(name)
    }
    &&& q.step matches PublishStep::SyncParent(name) ==> q == g || (q.index == g.index && g.step
        == PublishStep::Finalize(name) && moved)
    &&& q.step matches PublishStep::Finished(Ok(Some(name))) ==> q == g || (q.index == g.index
        && g.step == PublishStep::SyncParent(name))
}

proof fn lemma_name_step(g: PublishView, event: PublishEvent, drawn: MessageId)
    requires
        g.mode is Save,
    ensures
        name_step(g, event, drawn, g.next(event, drawn)),
{
}

proof fn lemma_run_step(p: PublishView, events: Seq<(PublishEvent, MessageId)>)
    requires
        events.len() > 0,
        publish_run(p, events.drop_last()).mode is Save,
    ensures
        name_step(
            publish_run(p, events.drop_last()),
            events.last().0,
            events.last().1,
            publish_run(p, events),
        ),
{
    reveal(publish_run);
    lemma_name_step(publish_run(p, events.drop_last()), events.last().0, events.last().1);
}

/// A name that was told to be taken leads to the next one.
proof fn lemma_next_number(p: PublishView, events: Seq<(PublishEvent, MessageId)>, name: Seq<char>)
    requires
        events.len() > 0,
        ({
            let g = publish_run(p, events.drop_last());
            let q = publish_run(p, events);
            &&& q.step == PublishStep::Finalize(name)
            &&& g.step matches PublishStep::Finalize(old) && first_free(
                p,
                events.drop_last(),
                g.index,
                old,
            )
            &&& events.last().0 matches PublishEvent::Finalized { result: Err(_), name_taken: true }
            &&& g.index <= LAST_COLLISION_INDEX
            &&& q.index == g.index + 1
            &&& numbered(p, events, q.index, name)
        }),
    ensures
        first_free(p, events, publish_run(p, events).index, name),
{
    let before = events.drop_last();
    let n = events.len() - 1;
    let g = publish_run(p, before);
    let q = publish_run(p, events);
    lemma_told_stays(p, events);
    assert(events.subrange(0, n) =~= before);
    assert(events[n] == events.last());
    assert(taken_at(p, events, g.index, n));
    assert forall|m: nat| 1 <= m < q.index implies #[trigger] was_taken(p, events, m) by {
        if m < g.index {
            assert(was_taken(p, before, m));
        } else {
            assert(m == g.index);
        }
    }
}

proof fn lemma_first_free_stays(
    p: PublishView,
    events: Seq<(PublishEvent, MessageId)>,
    n: nat,
    name: Seq<char>,
)
    requires
        events.len() > 0,
        first_free(p, events.drop_last(), n, name),
    ensures
        first_free(p, events, n, name),
{
    lemma_told_stays(p, events);
    if n > LAST_COLLISION_INDEX {
        let before = events.drop_last();
        let k = choose|k: int|
            0 <= k < before.len() && fallback_name(p.root_name, (#[trigger] before[k]).1) == Ok::<
                Seq<char>,
                NetError<Seq<char>>,
            >(name);
        assert(before[k] == events[k]);
    }
    assert forall|m: nat| 1 <= m < n implies #[trigger] was_taken(p, events, m) by {
        assert(was_taken(p, events.drop_last(), m));
    }
}

proof fn lemma_names_in_turn(p: PublishView, events: Seq<(PublishEvent, MessageId)>)
    requires
        p.mode is Save,
        p.step is MarkPublishing,
    ensures
        names_in_turn(p, events),
    decreases events.len(),
{
    if events.len() > 0 {
        let before = events.drop_last();
        let n = events.len() - 1;
        let g = publish_run(p, before);
        let q = publish_run(p, events);
        lemma_names_in_turn(p, before);
        lemma_run_step(p, events);
        lemma_told_stays(p, events);
        assert(events.subrange(0, n) =~= before);
        assert(events[n] == events.last());
        match q.step {
            PublishStep::Finalize(name) => {
                if q == g {
                    lemma_first_free_stays(p, events, q.index, name);
                } else {
                    assert(numbered(p, events, q.index, name));
                    if q.index != 1 {
                        lemma_next_number(p, events, name);
                    }
                }
            },
            PublishStep::SyncParent(name) => {
                lemma_first_free_stays(p, events, q.index, name);
                if q == g {
                    let k = choose|k: int| #[trigger] moved_at(p, before, name, k);
                    assert(moved_at(p, events, name, k));
                } else {
                    assert(moved_at(p, events, name, n));
                }
            },
            PublishStep::Finished(Ok(Some(name))) => {
                lemma_first_free_stays(p, events, q.index, name);
                let k = choose|k: int| #[trigger] moved_at(p, before, name, k);
                assert(moved_at(p, events, name, k));
            },
            _ => {},
        }
    } else {
        reveal(publish_run);
    }
}

/// Content that was saved was moved to the least number whose name was not taken: the
/// names of all smaller numbers were tried, and each was taken.  Only behind the last
/// number the name ends in a drawn identifier.
pub proof fn lemma_the_first_free_name_is_taken(
    request_id: ActivationId,
    content_kind: ContentKind,
    root_name: Seq<char>,
    has_destination: bool,
    events: Seq<(PublishEvent, MessageId)>,
    name: Seq<char>,
)
    requires
        publish_run(
            publish_start(
                request_id,
                ActivationMode::Save,
                content_kind,
                root_name,
                has_destination,
            ),
            events,
        ).step == PublishStep::Finished(
            Ok::<Option<Seq<char>>, NetError<Seq<char>>>(Some(name)),
        ),
    ensures
        ({
            let p = publish_start(
                request_id,
                ActivationMode::Save,
                content_kind,
                root_name,
                has_destination,
            );
            &&& first_free(p, events, publish_run(p, events).index, name)
            &&& was_moved(p, events, name)
        }),
{
    lemma_names_in_turn(
        publish_start(
            request_id,
            ActivationMode::Save,
            content_kind,
            root_name,
            has_destination,
        ),
        events,
    );
}

/// Whether every answer is that of a directory in which these names are taken, and
/// which takes no two of a name.
pub open spec fn answered_by(
    taken: spec_fn(Seq<char>) -> bool,
    p: PublishView,
    events: Seq<(PublishEvent, MessageId)>,
) -> bool {
    forall|k: int|
        0 <= k < events.len() ==> ((#[trigger] events[k]).0 matches PublishEvent::Finalized {
            result,
            name_taken,
        } ==> (publish_run(p, events.subrange(0, k)).step matches PublishStep::Finalize(name) ==> {
            &&& name_taken <==> taken(name)
            &&& result is Ok ==> !taken(name)
        }))
}

/// Whether the name of number `n` is taken.
pub open spec fn number_taken(
    taken: spec_fn(Seq<char>) -> bool,
    root_name: Seq<char>,
    content_kind: ContentKind,
    n: nat,
) -> bool {
    candidate_name(root_name, content_kind, n) matches Ok(name) && taken(name)
}

/// In a directory in which some names are taken, saved content gets the least number
/// whose name is free.
pub proof fn lemma_the_least_free_number(
    taken: spec_fn(Seq<char>) -> bool,
    request_id: ActivationId,
    content_kind: ContentKind,
    root_name: Seq<char>,
    has_destination: bool,
    events: Seq<(PublishEvent, MessageId)>,
    name: Seq<char>,
)
    requires
        ({
            let p = publish_start(
                request_id,
                ActivationMode::Save,
                content_kind,
                root_name,
                has_destination,
            );
            &&& answered_by(taken, p, events)
            &&& publish_run(p, events).step == PublishStep::Finished(
                Ok::<Option<Seq<char>>, NetError<Seq<char>>>(Some(name)),
            )
        }),
    ensures
        ({
            let p = publish_start(
                request_id,
                ActivationMode::Save,
                content_kind,
                root_name,
                has_destination,
            );
            let n = publish_run(p, events).index;
            &&& !taken(name)
            &&& numbered(p, events, n, name)
            &&& forall|m: nat|
                1 <= m < n ==> #[trigger] number_taken(taken, root_name, content_kind, m)
        }),
{
    let p = publish_start(
        request_id,
        ActivationMode::Save,
        content_kind,
        root_name,
        has_destination,
    );
    lemma_the_first_free_name_is_taken(
        request_id,
        content_kind,
        root_name,
        has_destination,
        events,
        name,
    );
    let k = choose|k: int| #[trigger] moved_at(p, events, name, k);
    let event = events[k];
    assert forall|m: nat| 1 <= m < publish_run(p, events).index implies #[trigger] number_taken(
        taken,
        root_name,
        content_kind,
        m,
    ) by {
        assert(was_taken(p, events, m));
        let k = choose|k: int| #[trigger] taken_at(p, events, m, k);
        let event = events[k];
    }
}

/// Content for the clipboard is kept under the one name of its activation.
pub proof fn lemma_cached_content_has_its_name(
    p: PublishView,
    events: Seq<(PublishEvent, MessageId)>,
)
    requires
        p.mode is Clipboard,
        p.step is MarkPublishing,
    ensures
        ({
            let q = publish_run(p, events);
            &&& q == PublishView { step: q.step, ..p }
            &&& q.step matches PublishStep::Finalize(name) ==> name == cache_name(p.request_id)
            &&& q.step matches PublishStep::SyncParent(name) ==> name == cache_name(p.request_id)
            &&& q.step matches PublishStep::Finished(Ok(Some(name))) ==> name == cache_name(
                p.request_id,
            )
            &&& !(q.step is RequireTarget)
        }),
    decreases events.len(),
{
    reveal(publish_run);
    if events.len() > 0 {
        lemma_cached_content_has_its_name(p, events.drop_last());
    }
}

} // verus!
