//! The side effect of one activation: the clipboard, or nothing more for a saved file.
//!
//! As in the receiver, the caller performs the current step and hands back its
//! outcome.
use vstd::prelude::*;

use crate::activation::ActivationMode;
use crate::clipboard::{classify_clipboard_failure, clipboard_failure, ClipboardError};
use crate::net_error::NetError;
use crate::receive::SideEffectFailure;
use crate::text::{join3, opt_view, text_eq};

verus! {

/// What to do next; `S` is the type of the texts.
#[derive(Debug)]
pub enum SideEffectStep<S = String> {
    /// Journal that the side effect is about to happen.
    MarkApplying,
    /// Put this text on the clipboard.
    SetText(S),
    /// Index the published content as in flight.
    StoreCandidate,
    /// Remove the published content, which could not be indexed for this reason.
    RemoveUnstored(S),
    /// Put the published content, under this path, on the clipboard.
    SetFiles(S),
    /// Drop the index entry, after the clipboard refused for this reason.
    ClearIndex(S),
    /// Remove the published content; the reason, and what went wrong with the index.
    RemoveCandidate(S, Option<S>),
    /// Index the published content as what the clipboard holds.
    Promote,
    /// Remove what the clipboard held before, under this path.
    RemovePrevious(S),
    Finished(Result<(), SideEffectFailure<S>>),
}

/// The outcome of a step.
#[derive(Debug)]
pub enum SideEffectEvent {
    /// The outcome of a store or file operation.
    Local(Result<(), String>),
    ClipboardSet(Result<(), ClipboardError>),
    /// The path of what the clipboard held before, if anything.
    Promoted(Result<Option<String>, String>),
}

/// What a transition asks of the state that activations share.
#[derive(Debug, Clone, Copy, PartialEq, Eq, Structural)]
pub struct SideEffectEffects {
    pub block_cleanup: bool,
    /// What clipboard activations are to know from now on.
    pub uncertain: Option<bool>,
}

/// One side effect under way.
#[derive(Debug)]
pub struct SideEffect {
    pub is_text: bool,
    pub mode: ActivationMode,
    /// The text that was received, where it was kept.
    pub text: Option<String>,
    /// The path under which the content was published.
    pub published: Option<String>,
    pub step: SideEffectStep,
}

/// A side effect with its texts as sequences.
pub ghost struct SideEffectView {
    pub is_text: bool,
    pub mode: ActivationMode,
    pub text: Option<Seq<char>>,
    pub published: Option<Seq<char>>,
    pub step: SideEffectStep<Seq<char>>,
}

pub open spec fn side_effect_step_view(step: SideEffectStep) -> SideEffectStep<Seq<char>> {
    match step {
        SideEffectStep::MarkApplying => SideEffectStep::MarkApplying,
        SideEffectStep::SetText(s) => SideEffectStep::SetText(s@),
        SideEffectStep::StoreCandidate => SideEffectStep::StoreCandidate,
        SideEffectStep::RemoveUnstored(s) => SideEffectStep::RemoveUnstored(s@),
        SideEffectStep::SetFiles(s) => SideEffectStep::SetFiles(s@),
        SideEffectStep::ClearIndex(s) => SideEffectStep::ClearIndex(s@),
        SideEffectStep::RemoveCandidate(s, o) => SideEffectStep::RemoveCandidate(s@, opt_view(o)),
        SideEffectStep::Promote => SideEffectStep::Promote,
        SideEffectStep::RemovePrevious(s) => SideEffectStep::RemovePrevious(s@),
        SideEffectStep::Finished(Ok(())) => SideEffectStep::Finished(Ok(())),
        SideEffectStep::Finished(Err(failure)) => SideEffectStep::Finished(Err(failure@)),
    }
}

impl View for SideEffect {
    type V = SideEffectView;

    open spec fn view(&self) -> SideEffectView {
        SideEffectView {
            is_text: self.is_text,
            mode: self.mode,
            text: opt_view(self.text),
            published: opt_view(self.published),
            step: side_effect_step_view(self.step),
        }
    }
}

pub open spec fn terminal(text: Seq<char>) -> SideEffectStep<Seq<char>> {
    SideEffectStep::Finished(Err(SideEffectFailure::Terminal(NetError::FetchServiceOwned(text))))
}

pub open spec fn uncertain(text: Seq<char>) -> SideEffectStep<Seq<char>> {
    SideEffectStep::Finished(Err(SideEffectFailure::Uncertain(NetError::FetchServiceOwned(text))))
}

pub open spec fn succeeded() -> SideEffectStep<Seq<char>> {
    SideEffectStep::Finished(Ok(()))
}

/// `head`, and where there is a failure, `label` and its text.
pub open spec fn with_failure(
    head: Seq<char>,
    label: Seq<char>,
    failure: Option<Seq<char>>,
) -> Seq<char> {
    match failure {
        Some(text) => head + label + text,
        None => head,
    }
}

fn add_failure(head: String, label: &str, failure: &Option<String>) -> (r: String)
    ensures
        r@ == with_failure(head@, label@, opt_view(*failure)),
{
    match failure {
        Some(text) => join3(head.as_str(), label, text.as_str()),
        None => head,
    }
}

/// The error text of a local operation.
pub open spec fn failure_text(result: Result<(), String>) -> Option<Seq<char>> {
    match result {
        Ok(()) => None,
        Err(text) => Some(text@),
    }
}

fn failure_of(result: Result<(), String>) -> (r: Option<String>)
    ensures
        opt_view(r) == failure_text(result),
{
    match result {
        Ok(()) => None,
        Err(text) => Some(text),
    }
}

impl SideEffectView {
    /// The step after the journal knows of the side effect.
    pub open spec fn chosen(self) -> SideEffectStep<Seq<char>> {
        match (self.is_text, self.mode, self.published) {
            (true, ActivationMode::Clipboard, None) => match self.text {
                Some(text) => SideEffectStep::SetText(text),
                None => terminal("text payload was not retained"@),
            },
            (true, ActivationMode::Save, None) => SideEffectStep::Finished(
                Err(
                    SideEffectFailure::Terminal(
                        NetError::Rejected("text save activation is unsupported"@),
                    ),
                ),
            ),
            (_, ActivationMode::Clipboard, Some(_)) => SideEffectStep::StoreCandidate,
            (_, ActivationMode::Save, Some(_)) => succeeded(),
            _ => terminal("activation side-effect shape is invalid"@),
        }
    }

    /// The step after a local operation.
    pub open spec fn after_local(self, result: Result<(), String>) -> SideEffectStep<Seq<char>> {
        match (self.step, result) {
            (SideEffectStep::MarkApplying, Ok(())) => self.chosen(),
            (SideEffectStep::MarkApplying, Err(s)) => terminal(s@),
            (SideEffectStep::StoreCandidate, Ok(())) => match self.published {
                Some(path) => SideEffectStep::SetFiles(path),
                None => self.step,
            },
            (SideEffectStep::StoreCandidate, Err(s)) => SideEffectStep::RemoveUnstored(s@),
            (SideEffectStep::RemoveUnstored(reason), _) => terminal(
                with_failure(reason, "; candidate cleanup failed: "@, failure_text(result)),
            ),
            (SideEffectStep::ClearIndex(reason), _) => SideEffectStep::RemoveCandidate(
                reason,
                failure_text(result),
            ),
            (SideEffectStep::RemoveCandidate(reason, index_failure), _) => terminal(
                with_failure(
                    with_failure(reason, "; cache index cleanup failed: "@, index_failure),
                    "; candidate cleanup failed: "@,
                    failure_text(result),
                ),
            ),
            (SideEffectStep::RemovePrevious(_), Ok(())) => succeeded(),
            (SideEffectStep::RemovePrevious(_), Err(s)) => uncertain(s@),
            _ => self.step,
        }
    }

    /// The step after the clipboard was asked.
    pub open spec fn after_clipboard(
        self,
        result: Result<(), ClipboardError>,
    ) -> SideEffectStep<Seq<char>> {
        match (self.step, result) {
            (SideEffectStep::SetText(_), Ok(())) => succeeded(),
            (SideEffectStep::SetText(_), Err(error)) => SideEffectStep::Finished(
                Err(clipboard_failure(error)),
            ),
            (SideEffectStep::SetFiles(_), Ok(())) => SideEffectStep::Promote,
            (SideEffectStep::SetFiles(_), Err(error)) => if error.may_have_happened() {
                uncertain(error.text())
            } else {
                SideEffectStep::ClearIndex(error.text())
            },
            _ => self.step,
        }
    }

    /// The step after an event; one that does not answer the current step changes nothing.
    pub open spec fn next(self, event: SideEffectEvent) -> SideEffectStep<Seq<char>> {
        match event {
            SideEffectEvent::Local(result) => self.after_local(result),
            SideEffectEvent::ClipboardSet(result) => self.after_clipboard(result),
            SideEffectEvent::Promoted(result) => if !(self.step is Promote) {
                self.step
            } else {
                match result {
                    Err(s) => uncertain(s@),
                    Ok(Some(previous)) if Some(previous@) != self.published =>
                        SideEffectStep::RemovePrevious(previous@),
                    Ok(_) => succeeded(),
                }
            },
        }
    }

    /// What the event asks of the state that activations share.
    pub open spec fn effects(self, event: SideEffectEvent) -> SideEffectEffects {
        SideEffectEffects {
            block_cleanup: event matches SideEffectEvent::Local(Err(_)) && (
            self.step is RemoveUnstored || self.step is ClearIndex || self.step is RemoveCandidate),
            uncertain: match event {
                SideEffectEvent::ClipboardSet(Err(error)) if (self.step is SetText
                    || self.step is SetFiles) && error.may_have_happened() => Some(true),
                SideEffectEvent::Local(Err(_)) if self.step is RemovePrevious => Some(true),
                SideEffectEvent::Local(Ok(())) if self.step is RemovePrevious => Some(false),
                SideEffectEvent::Promoted(Ok(_)) if self.step is Promote && self.next(event)
                    == succeeded() => Some(false),
                _ => None,
            },
        }
    }
}

impl SideEffect {
    /// Starts the side effect of an activation whose content was published.
    pub fn new(
        is_text: bool,
        mode: ActivationMode,
        text: Option<String>,
        published: Option<String>,
    ) -> (r: Self)
        ensures
            r@ == (SideEffectView {
                is_text,
                mode,
                text: opt_view(text),
                published: opt_view(published),
                step: SideEffectStep::MarkApplying,
            }),
    {
        SideEffect { is_text, mode, text, published, step: SideEffectStep::MarkApplying }
    }

    fn choose_step(&self) -> (r: SideEffectStep)
        ensures
            side_effect_step_view(r) == self@.chosen(),
    {
        match (self.is_text, self.mode, &self.published) {
            (true, ActivationMode::Clipboard, None) => match &self.text {
                Some(text) => SideEffectStep::SetText(text.as_str().to_owned()),
                None => terminal_step("text payload was not retained".to_owned()),
            },
            (true, ActivationMode::Save, None) => SideEffectStep::Finished(
                Err(
                    SideEffectFailure::Terminal(
                        NetError::Rejected("text save activation is unsupported".to_owned()),
                    ),
                ),
            ),
            (_, ActivationMode::Clipboard, Some(_)) => SideEffectStep::StoreCandidate,
            (_, ActivationMode::Save, Some(_)) => SideEffectStep::Finished(Ok(())),
            _ => terminal_step("activation side-effect shape is invalid".to_owned()),
        }
    }

    fn local_step(self, result: Result<(), String>) -> (r: SideEffectStep)
        ensures
            side_effect_step_view(r) == self@.after_local(result),
    {
        match self.step {
            SideEffectStep::MarkApplying => match result {
                Ok(()) => self.choose_step(),
                Err(s) => terminal_step(s),
            },
            SideEffectStep::StoreCandidate => match result {
                Ok(()) => match &self.published {
                    Some(path) => SideEffectStep::SetFiles(path.as_str().to_owned()),
                    None => SideEffectStep::StoreCandidate,
                },
                Err(s) => SideEffectStep::RemoveUnstored(s),
            },
            SideEffectStep::RemoveUnstored(reason) => {
                let failure = failure_of(result);
                terminal_step(add_failure(reason, "; candidate cleanup failed: ", &failure))
            },
            SideEffectStep::ClearIndex(reason) => SideEffectStep::RemoveCandidate(
                reason,
                failure_of(result),
            ),
            SideEffectStep::RemoveCandidate(reason, index_failure) => {
                let failure = failure_of(result);
                let head = add_failure(reason, "; cache index cleanup failed: ", &index_failure);
                terminal_step(add_failure(head, "; candidate cleanup failed: ", &failure))
            },
            SideEffectStep::RemovePrevious(_) => match result {
                Ok(()) => SideEffectStep::Finished(Ok(())),
                Err(s) => uncertain_step(s),
            },
            step => step,
        }
    }

    fn clipboard_step(self, result: Result<(), ClipboardError>) -> (r: SideEffectStep)
        ensures
            side_effect_step_view(r) == self@.after_clipboard(result),
    {
        match self.step {
            SideEffectStep::SetText(_) => match result {
                Ok(()) => SideEffectStep::Finished(Ok(())),
                Err(error) => SideEffectStep::Finished(Err(classify_clipboard_failure(error))),
            },
            SideEffectStep::SetFiles(_) => match result {
                Ok(()) => SideEffectStep::Promote,
                Err(error) => {
                    let text = error.message().to_owned();
                    if error.is_uncertain() {
                        uncertain_step(text)
                    } else {
                        SideEffectStep::ClearIndex(text)
                    }
                },
            },
            step => step,
        }
    }

    /// Takes the outcome of the current step.
    pub fn apply_side_effect(self, event: SideEffectEvent) -> (r: (Self, SideEffectEffects))
        ensures
            r.0@ == (SideEffectView { step: self@.next(event), ..self@ }),
            r.1 == self@.effects(event),
    {
        let is_text = self.is_text;
        let mode = self.mode;
        let text = crate::text::clone_opt(&self.text);
        let published = crate::text::clone_opt(&self.published);
        let mut effects = SideEffectEffects { block_cleanup: false, uncertain: None };
        let step = match event {
            SideEffectEvent::Local(result) => {
                match &self.step {
                    SideEffectStep::RemoveUnstored(_)
                    | SideEffectStep::ClearIndex(_)
                    | SideEffectStep::RemoveCandidate(_, _) => {
                        effects.block_cleanup = result.is_err();
                    },
                    SideEffectStep::RemovePrevious(_) => {
                        effects.uncertain = Some(result.is_err());
                    },
                    _ => {},
                }
                self.local_step(result)
            },
            SideEffectEvent::ClipboardSet(result) => {
                if let Err(error) = &result {
                    if matches!(self.step, SideEffectStep::SetText(_) | SideEffectStep::SetFiles(_))
                        && error.is_uncertain() {
                        effects.uncertain = Some(true);
                    }
                }
                self.clipboard_step(result)
            },
            SideEffectEvent::Promoted(result) => match self.step {
                SideEffectStep::Promote => match result {
                    Err(s) => uncertain_step(s),
                    Ok(previous) => {
                        let other = match (&previous, &published) {
                            (Some(a), Some(b)) => !text_eq(a.as_str(), b.as_str()),
                            (Some(_), None) => true,
                            (None, _) => false,
                        };
                        match previous {
                            Some(path) if other => SideEffectStep::RemovePrevious(path),
                            _ => {
                                effects.uncertain = Some(false);
                                SideEffectStep::Finished(Ok(()))
                            },
                        }
                    },
                },
                step => step,
            },
        };
        (SideEffect { is_text, mode, text, published, step }, effects)
    }
}

fn terminal_step(text: String) -> (r: SideEffectStep)
    ensures
        side_effect_step_view(r) == terminal(text@),
{
    SideEffectStep::Finished(Err(SideEffectFailure::Terminal(NetError::FetchServiceOwned(text))))
}

fn uncertain_step(text: String) -> (r: SideEffectStep)
    ensures
        side_effect_step_view(r) == uncertain(text@),
{
    SideEffectStep::Finished(Err(SideEffectFailure::Uncertain(NetError::FetchServiceOwned(text))))
}

/// Once the clipboard has taken the files, the side effect never counts as one
/// that did not happen.
pub proof fn lemma_taken_files_are_never_terminal(m: SideEffectView, event: SideEffectEvent)
    requires
        m.step is Promote || m.step is RemovePrevious,
    ensures
        m.next(event) is Promote || m.next(event) is RemovePrevious || m.next(event)
            == succeeded() || m.next(event) matches SideEffectStep::Finished(
            Err(SideEffectFailure::Uncertain(_)),
        ),
{
}

/// A clipboard error that leaves open what happened is reported as uncertain and
/// remembered; one that does not is never.
pub proof fn lemma_uncertainty_is_the_clipboards(m: SideEffectView, error: ClipboardError)
    requires
        m.step is SetText || m.step is SetFiles,
    ensures
        ({
            let event = SideEffectEvent::ClipboardSet(Err(error));
            let reported = m.next(event) matches SideEffectStep::Finished(
                Err(SideEffectFailure::Uncertain(_)),
            );
            &&& reported <==> error.may_have_happened()
            &&& m.effects(event).uncertain == (if error.may_have_happened() {
                Some(true)
            } else {
                None
            })
        }),
{
}

/// A side effect after some events.
pub open spec fn side_run(m: SideEffectView, events: Seq<SideEffectEvent>) -> SideEffectView
    decreases events.len(),
{
    if events.len() == 0 {
        m
    } else {
        let before = side_run(m, events.drop_last());
        SideEffectView { step: before.next(events.last()), ..before }
    }
}

/// Whether event `k` is an answer of the clipboard that was asked for.
pub open spec fn clipboard_asked(m: SideEffectView, events: Seq<SideEffectEvent>, k: int) -> bool {
    &&& 0 <= k < events.len()
    &&& events[k] is ClipboardSet
    &&& ({
        let step = side_run(m, events.subrange(0, k)).step;
        step is SetText || step is SetFiles
    })
}

/// Whether the clipboard has been asked already, or is not going to be.
spec fn past_clipboard(step: SideEffectStep<Seq<char>>) -> bool {
    step is ClearIndex || step is RemoveCandidate || step is Promote || step is RemovePrevious
        || step is Finished
}

proof fn lemma_stays_past(m: SideEffectView, events: Seq<SideEffectEvent>, k: int)
    requires
        clipboard_asked(m, events, k),
    ensures
        past_clipboard(side_run(m, events).step),
    decreases events.len(),
{
    let before = events.drop_last();
    if k == events.len() - 1 {
        assert(events.subrange(0, k) =~= before);
    } else {
        assert(before.subrange(0, k) =~= events.subrange(0, k));
        assert(before[k] == events[k]);
        lemma_stays_past(m, before, k);
    }
}

/// The clipboard is asked at most once, whatever the events.
pub proof fn lemma_clipboard_is_asked_once(
    m: SideEffectView,
    events: Seq<SideEffectEvent>,
    i: int,
    j: int,
)
    requires
        clipboard_asked(m, events, i),
        clipboard_asked(m, events, j),
    ensures
        i == j,
{
    if i < j {
        let before = events.subrange(0, j);
        assert(before.subrange(0, i) =~= events.subrange(0, i));
        assert(before[i] == events[i]);
        lemma_stays_past(m, before, i);
    } else if j < i {
        let before = events.subrange(0, i);
        assert(before.subrange(0, j) =~= events.subrange(0, j));
        assert(before[j] == events[j]);
        lemma_stays_past(m, before, j);
    }
}

/// Before the clipboard is asked, the journal knows that it may be changed.
pub proof fn lemma_journal_precedes_the_clipboard(m: SideEffectView, event: SideEffectEvent)
    requires
        m.step is MarkApplying,
        m.next(event) != m.step,
    ensures
        m.next(event) is SetText || m.next(event) is StoreCandidate ==> event
            matches SideEffectEvent::Local(Ok(_)),
        !(m.next(event) is SetFiles),
{
}

/// A side effect that has not begun.
pub open spec fn side_start(
    is_text: bool,
    mode: ActivationMode,
    text: Option<Seq<char>>,
    published: Option<Seq<char>>,
) -> SideEffectView {
    SideEffectView { is_text, mode, text, published, step: SideEffectStep::MarkApplying }
}

/// What the clipboard is asked for is the text that was received, or the path of the
/// content that was published, whatever the events.
pub proof fn lemma_clipboard_gets_what_was_received(
    is_text: bool,
    mode: ActivationMode,
    text: Option<Seq<char>>,
    published: Option<Seq<char>>,
    events: Seq<SideEffectEvent>,
)
    ensures
        ({
            let m = side_run(side_start(is_text, mode, text, published), events);
            &&& m == (SideEffectView { step: m.step, ..side_start(is_text, mode, text, published) })
            &&& m.step matches SideEffectStep::SetText(t) ==> {
                &&& is_text && mode is Clipboard && published is None
                &&& text == Some(t)
            }
            &&& m.step is StoreCandidate ==> mode is Clipboard && published is Some
            &&& m.step matches SideEffectStep::SetFiles(p) ==> {
                &&& mode is Clipboard
                &&& published == Some(p)
            }
        }),
    decreases events.len(),
{
    if events.len() > 0 {
        lemma_clipboard_gets_what_was_received(is_text, mode, text, published, events.drop_last());
    }
}

/// A text for the clipboard that was kept: once the journal knows, the clipboard is
/// asked for exactly this text, and the side effect succeeds exactly where it took it.
pub proof fn lemma_text_is_set_exactly(text: Seq<char>, result: Result<(), ClipboardError>)
    ensures
        ({
            let m = side_start(true, ActivationMode::Clipboard, Some(text), None);
            let marked = side_run(m, seq![SideEffectEvent::Local(Ok(()))]);
            &&& marked.step == SideEffectStep::SetText(text)
            &&& marked.next(SideEffectEvent::ClipboardSet(result)) == succeeded() <==> result is Ok
        }),
{
    let m = side_start(true, ActivationMode::Clipboard, Some(text), None);
    let events = seq![SideEffectEvent::Local(Ok(()))];
    assert(events.drop_last() =~= Seq::<SideEffectEvent>::empty());
    assert(side_run(m, events.drop_last()) == m);
}

/// A side effect of a text that succeeded asked the clipboard for exactly the text, and
/// the clipboard took it.
pub proof fn lemma_a_succeeded_text_was_set(
    text: Option<Seq<char>>,
    events: Seq<SideEffectEvent>,
) -> (k: int)
    requires
        side_run(side_start(true, ActivationMode::Clipboard, text, None), events).step
            == succeeded(),
    ensures
        ({
            let m = side_start(true, ActivationMode::Clipboard, text, None);
            &&& clipboard_asked(m, events, k)
            &&& side_run(m, events.subrange(0, k)).step matches SideEffectStep::SetText(t)
                && text == Some(t)
            &&& events[k] matches SideEffectEvent::ClipboardSet(Ok(_))
        }),
    decreases events.len(),
{
    let m = side_start(true, ActivationMode::Clipboard, text, None);
    assert(events.len() > 0);
    let before = events.drop_last();
    lemma_text_steps(text, before);
    if side_run(m, before).step == succeeded() {
        let k = lemma_a_succeeded_text_was_set(text, before);
        assert(before.subrange(0, k) =~= events.subrange(0, k));
        k
    } else {
        assert(events.subrange(0, events.len() - 1) =~= before);
        events.len() - 1
    }
}

/// The steps that a text for the clipboard takes.
proof fn lemma_text_steps(text: Option<Seq<char>>, events: Seq<SideEffectEvent>)
    ensures
        ({
            let m = side_run(side_start(true, ActivationMode::Clipboard, text, None), events);
            &&& m.is_text && m.mode is Clipboard && m.text == text && m.published is None
            &&& m.step is MarkApplying || m.step is Finished || (m.step
                matches SideEffectStep::SetText(t) && text == Some(t))
        }),
    decreases events.len(),
{
    if events.len() > 0 {
        lemma_text_steps(text, events.drop_last());
    }
}

/// Whether event `k` is the answer of a clipboard that took the content under `path`.
pub open spec fn files_taken(
    m: SideEffectView,
    events: Seq<SideEffectEvent>,
    k: int,
    path: Seq<char>,
) -> bool {
    &&& clipboard_asked(m, events, k)
    &&& side_run(m, events.subrange(0, k)).step == SideEffectStep::SetFiles(path)
    &&& events[k] matches SideEffectEvent::ClipboardSet(Ok(_))
}

/// Content that was published for the clipboard: once the side effect goes on to what the
/// clipboard held before, or has succeeded, the clipboard was asked for exactly this
/// content, and took it.
pub proof fn lemma_succeeded_files_were_set(
    is_text: bool,
    text: Option<Seq<char>>,
    path: Seq<char>,
    events: Seq<SideEffectEvent>,
)
    ensures
        ({
            let m = side_start(is_text, ActivationMode::Clipboard, text, Some(path));
            let step = side_run(m, events).step;
            step is Promote || step is RemovePrevious || step == succeeded() ==> exists|k: int|
                #[trigger] files_taken(m, events, k, path)
        }),
    decreases events.len(),
{
    let m = side_start(is_text, ActivationMode::Clipboard, text, Some(path));
    if events.len() > 0 {
        let before = events.drop_last();
        let n = events.len() - 1;
        lemma_succeeded_files_were_set(is_text, text, path, before);
        lemma_clipboard_gets_what_was_received(
            is_text,
            ActivationMode::Clipboard,
            text,
            Some(path),
            before,
        );
        assert(events.subrange(0, n) =~= before);
        let was = side_run(m, before).step;
        let step = side_run(m, events).step;
        if was is Promote || was is RemovePrevious || was == succeeded() {
            let k = choose|k: int| #[trigger] files_taken(m, before, k, path);
            assert(before.subrange(0, k) =~= events.subrange(0, k));
            assert(before[k] == events[k]);
            assert(files_taken(m, events, k, path));
        } else if step is Promote || step is RemovePrevious || step == succeeded() {
            assert(files_taken(m, events, n, path));
        }
    }
}

/// Saving leaves the clipboard alone, whatever the events.
pub proof fn lemma_saving_leaves_the_clipboard_alone(
    is_text: bool,
    text: Option<Seq<char>>,
    published: Option<Seq<char>>,
    events: Seq<SideEffectEvent>,
    k: int,
)
    ensures
        !clipboard_asked(side_start(is_text, ActivationMode::Save, text, published), events, k),
{
    if 0 <= k < events.len() {
        lemma_clipboard_gets_what_was_received(
            is_text,
            ActivationMode::Save,
            text,
            published,
            events.subrange(0, k),
        );
    }
}

} // verus!
