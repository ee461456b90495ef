//! The one owner of all activations against a store.
//!
//! Recovery runs once before the first activation.  Two activations may be live
//! at a time; a third is refused and never queued.
use vstd::prelude::*;

use crate::ids::ActivationId;
use crate::net_error::NetError;
use crate::outcome::{result_view, ActivationRefuseCode};
use crate::text::{text_eq, views};

verus! {

/// The most activations that are live at a time.
pub const MAX_CONCURRENT_ACTIVATIONS: usize = 2;

/// What all activations against one store share.
#[derive(Debug)]
pub struct ActivationOwner {
    recovered: bool,
    recovery_runs: usize,
    live: Vec<ActivationId>,
    cleanup_blocked: bool,
    uncertain_clipboard: bool,
}

/// The shared state as a value.
pub ghost struct OwnerView {
    pub recovered: bool,
    pub recovery_runs: nat,
    pub live: Seq<ActivationId>,
    pub cleanup_blocked: bool,
    pub uncertain_clipboard: bool,
}

impl View for ActivationOwner {
    type V = OwnerView;

    closed spec fn view(&self) -> OwnerView {
        OwnerView {
            recovered: self.recovered,
            recovery_runs: self.recovery_runs as nat,
            live: self.live@,
            cleanup_blocked: self.cleanup_blocked,
            uncertain_clipboard: self.uncertain_clipboard,
        }
    }
}

impl OwnerView {
    /// What holds between any two calls: no activation is live twice, no more than
    /// two are live, and recovery has run once or never.
    pub open spec fn wf(self) -> bool {
        &&& self.live.no_duplicates()
        &&& self.live.len() <= MAX_CONCURRENT_ACTIVATIONS
        &&& self.recovery_runs == (if self.recovered {
            1nat
        } else {
            0nat
        })
    }

    /// Why an activation cannot start.
    pub open spec fn refusal(self, id: ActivationId) -> Option<ActivationRefuseCode> {
        if self.live.contains(id) {
            Some(ActivationRefuseCode::DuplicateActivation)
        } else if self.live.len() >= MAX_CONCURRENT_ACTIVATIONS {
            Some(ActivationRefuseCode::Busy)
        } else {
            None
        }
    }

    /// The state with one more live activation.
    pub open spec fn started(self, id: ActivationId) -> OwnerView {
        OwnerView { live: self.live.push(id), ..self }
    }

    /// The state without a live activation.
    pub open spec fn ended(self, id: ActivationId) -> OwnerView {
        OwnerView { live: without(self.live, id), ..self }
    }
}

/// `live` without `id`.
pub open spec fn without(live: Seq<ActivationId>, id: ActivationId) -> Seq<ActivationId> {
    if live.contains(id) {
        live.remove(live.index_of(id))
    } else {
        live
    }
}

impl ActivationOwner {
    /// An owner before recovery.
    #[must_use]
    pub fn new() -> (r: Self)
        ensures
            r@ == (OwnerView {
                recovered: false,
                recovery_runs: 0,
                live: Seq::empty(),
                cleanup_blocked: false,
                uncertain_clipboard: false,
            }),
            r@.wf(),
    {
        ActivationOwner {
            recovered: false,
            recovery_runs: 0,
            live: Vec::new(),
            cleanup_blocked: false,
            uncertain_clipboard: false,
        }
    }

    /// How many times recovery has completed.
    #[must_use]
    pub fn recovery_runs(&self) -> (r: usize)
        ensures
            r == self@.recovery_runs,
    {
        self.recovery_runs
    }

    /// How many activations are live.
    #[must_use]
    pub fn live_count(&self) -> (r: usize)
        ensures
            r == self@.live.len(),
    {
        self.live.len()
    }

    /// Whether recovery is still owed.
    #[must_use]
    pub fn needs_recovery(&self) -> (r: bool)
        ensures
            r == !self@.recovered,
    {
        !self.recovered
    }

    /// Whether every activation is refused until recovery.
    #[must_use]
    pub fn is_cleanup_blocked(&self) -> (r: bool)
        ensures
            r == self@.cleanup_blocked,
    {
        self.cleanup_blocked
    }

    /// Whether clipboard activations are refused until recovery.
    #[must_use]
    pub fn is_clipboard_uncertain(&self) -> (r: bool)
        ensures
            r == self@.uncertain_clipboard,
    {
        self.uncertain_clipboard
    }

    /// Refuses every activation from now on.
    pub fn block_cleanup(&mut self)
        ensures
            final(self)@ == (OwnerView { cleanup_blocked: true, ..old(self)@ }),
    {
        self.cleanup_blocked = true;
    }

    /// Notes whether the clipboard may hold an unrecorded side effect.
    pub fn set_clipboard_uncertain(&mut self, uncertain: bool)
        ensures
            final(self)@ == (OwnerView { uncertain_clipboard: uncertain, ..old(self)@ }),
    {
        self.uncertain_clipboard = uncertain;
    }

    /// Takes the outcome of recovery.  A failed one is owed again; once it has
    /// succeeded, it never runs again.
    pub fn recover(&mut self, result: Result<(), NetError>) -> (r: Result<(), NetError>)
        requires
            old(self)@.wf(),
        ensures
            final(self)@.wf(),
            result_view(r) == if old(self)@.recovered {
                Ok::<(), NetError<Seq<char>>>(())
            } else {
                result_view(result)
            },
            final(self)@ == if !old(self)@.recovered && result is Ok {
                OwnerView { recovered: true, recovery_runs: 1, ..old(self)@ }
            } else {
                old(self)@
            },
    {
        if self.recovered {
            return Ok(());
        }
        match result {
            Ok(()) => {
                self.recovery_runs = self.recovery_runs + 1;
                self.recovered = true;
                Ok(())
            },
            Err(error) => Err(error),
        }
    }

    fn is_live(&self, id: ActivationId) -> (r: bool)
        ensures
            r == self@.live.contains(id),
    {
        let mut i: usize = 0;
        while i < self.live.len()
            invariant
                i <= self.live@.len(),
                forall|k: int| 0 <= k < i ==> self.live@[k] != id,
            decreases self.live@.len() - i,
        {
            if self.live[i] == id {
                assert(self.live@[i as int] == id);
                return true;
            }
            i = i + 1;
        }
        false
    }

    /// Admits one activation, or says why not.
    pub fn activate(&mut self, id: ActivationId) -> (r: Result<(), ActivationRefuseCode>)
        requires
            old(self)@.wf(),
        ensures
            final(self)@.wf(),
            match old(self)@.refusal(id) {
                Some(code) => r == Err::<(), ActivationRefuseCode>(code) && final(self)@ == old(
                    self,
                )@,
                None => r == Ok::<(), ActivationRefuseCode>(()) && final(self)@ == old(
                    self,
                )@.started(id),
            },
    {
        if self.is_live(id) {
            return Err(ActivationRefuseCode::DuplicateActivation);
        }
        if self.live.len() >= MAX_CONCURRENT_ACTIVATIONS {
            return Err(ActivationRefuseCode::Busy);
        }
        self.live.push(id);
        Ok(())
    }

    /// Ends one activation, whatever its outcome.
    pub fn finish(&mut self, id: ActivationId)
        requires
            old(self)@.wf(),
        ensures
            final(self)@.wf(),
            final(self)@ == old(self)@.ended(id),
    {
        let mut i: usize = 0;
        while i < self.live.len()
            invariant
                i <= self.live@.len(),
                self@ == old(self)@,
                self@.wf(),
                forall|k: int| 0 <= k < i ==> self.live@[k] != id,
            decreases self.live@.len() - i,
        {
            if self.live[i] == id {
                assert(self.live@[i as int] == id);
                proof {
                    let at = self.live@.index_of(id);
                    assert(self.live@.contains(id));
                    assert(at == i);
                }
                self.live.remove(i);
                return ;
            }
            i = i + 1;
        }
    }
}

impl Default for ActivationOwner {
    fn default() -> (r: Self)
        ensures
            r@.wf(),
            !r@.recovered,
            r@.live.len() == 0,
            !r@.cleanup_blocked,
            !r@.uncertain_clipboard,
    {
        ActivationOwner::new()
    }
}

/// With two activations live a third is refused, as busy or as a duplicate, and
/// nothing is queued; when one ends, another may start.
pub proof fn lemma_third_activation_is_refused(
    owner: OwnerView,
    a: ActivationId,
    b: ActivationId,
    c: ActivationId,
)
    requires
        owner.wf(),
        owner.live == seq![a, b],
    ensures
        owner.refusal(c) is Some,
        c != a && c != b ==> owner.refusal(c) == Some(ActivationRefuseCode::Busy),
        c != a && c != b ==> owner.ended(a).refusal(c) is None,
{
    assert(owner.live[0] == a && owner.live[1] == b);
    assert(a != b);
    assert(owner.live.contains(a));
    assert(owner.live.index_of(a) == 0);
    assert(without(owner.live, a) =~= seq![b]);
}

/// Ending an activation that was just admitted leaves the owner as it was.
pub proof fn lemma_finish_undoes_activate(owner: OwnerView, id: ActivationId)
    requires
        owner.wf(),
        owner.refusal(id) is None,
    ensures
        owner.started(id).ended(id) == owner,
{
    let live = owner.started(id).live;
    assert(live[owner.live.len() as int] == id);
    assert(live.contains(id));
    let at = live.index_of(id);
    assert(at == owner.live.len()) by {
        if at < owner.live.len() {
            assert(owner.live[at] == id);
        }
    }
    assert(live.remove(at) =~= owner.live);
}

/// The stores that a process has open.  A store is known by its path, and all
/// activations against it share the owner at its position.
#[derive(Debug)]
pub struct OwnerRegistry {
    paths: Vec<String>,
}

impl OwnerRegistry {
    /// The paths of the stores, in the order in which they were opened.
    pub closed spec fn paths(self) -> Seq<Seq<char>> {
        views(self.paths@)
    }

    /// No store has two owners.
    pub open spec fn wf(self) -> bool {
        self.paths().no_duplicates()
    }

    /// A registry before the first store is opened.
    #[must_use]
    pub fn new() -> (r: Self)
        ensures
            r.wf(),
            r.paths().len() == 0,
    {
        let r = OwnerRegistry { paths: Vec::new() };
        assert(r.paths().no_duplicates());
        r
    }

    /// The position of the owner of a store, which is a new one where the store is.
    pub fn shared_owner(&mut self, store_path: &str) -> (r: usize)
        requires
            old(self).wf(),
        ensures
            final(self).wf(),
            r < final(self).paths().len(),
            final(self).paths()[r as int] == store_path@,
            final(self).paths() == if old(self).paths().contains(store_path@) {
                old(self).paths()
            } else {
                old(self).paths().push(store_path@)
            },
    {
        let n: usize = self.paths.len();
        let mut i: usize = 0;
        while i < n
            invariant
                n == self.paths@.len(),
                i <= n,
                *self == *old(self),
                self.wf(),
                forall|k: int| 0 <= k < i ==> (#[trigger] self.paths()[k]) != store_path@,
            decreases n - i,
        {
            assert(self.paths()[i as int] == self.paths@[i as int]@);
            if text_eq(self.paths[i].as_str(), store_path) {
                return i;
            }
            i = i + 1;
        }
        self.paths.push(store_path.to_owned());
        assert(self.paths() =~= old(self).paths().push(store_path@));
        n
    }
}

impl Default for OwnerRegistry {
    fn default() -> (r: Self)
        ensures
            r.wf(),
            r.paths().len() == 0,
    {
        OwnerRegistry::new()
    }
}

/// Opening a store again gives the owner that it already has, whatever other stores
/// were opened in between: positions stay, and no path stands at two of them.
pub proof fn lemma_equal_paths_share_an_owner(before: OwnerRegistry, after: OwnerRegistry, i: int, j: int)
    requires
        before.wf(),
        after.wf(),
        0 <= i < before.paths().len(),
        0 <= j < after.paths().len(),
        before.paths().is_prefix_of(after.paths()),
        after.paths()[j] == before.paths()[i],
    ensures
        i == j,
{
    assert(after.paths()[i] == before.paths()[i]);
}

} // verus!
