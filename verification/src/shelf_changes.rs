//! Telling whoever watches the shelf that it changed.
//!
//! A change carries no card: a watcher that is woken reads the store again, which
//! stays the one authority on what is on the shelf.
use vstd::prelude::*;

use crate::ids::{DeviceId, OfferId};
use crate::store::{
    OfferCardInput, OfferCardInsert, OfferCardRecord, OfferCardStore, StoreError,
};

verus! {

/// Somebody who watches the shelf.
#[derive(Debug)]
struct Watcher {
    id: u64,
    /// One for each change that it has not been told of yet.
    pending: Vec<()>,
    /// Whether it still listens.
    open: bool,
}

/// Somebody who watches the shelf, with the number of changes that are still to be told.
pub ghost struct Subscriber {
    pub id: u64,
    pub unread: nat,
    pub open: bool,
}

impl View for Watcher {
    type V = Subscriber;

    closed spec fn view(&self) -> Subscriber {
        Subscriber { id: self.id, unread: self.pending@.len(), open: self.open }
    }
}

/// Wakes the watchers of the shelf.
#[derive(Debug)]
pub struct ShelfChangeNotifier {
    watchers: Vec<Watcher>,
    next: u64,
}

spec fn watcher_views(watchers: Seq<Watcher>) -> Seq<Subscriber> {
    Seq::new(watchers.len(), |i: int| watchers[i]@)
}

/// The watchers, and the number that the next one gets.
pub ghost struct NotifierView {
    pub subscribers: Seq<Subscriber>,
    pub next: u64,
}

impl View for ShelfChangeNotifier {
    type V = NotifierView;

    closed spec fn view(&self) -> NotifierView {
        NotifierView { subscribers: watcher_views(self.watchers@), next: self.next }
    }
}

impl NotifierView {
    /// Every watcher has a number of its own, which was given out before.
    pub open spec fn wf(self) -> bool {
        &&& forall|i: int|
            0 <= i < self.subscribers.len() ==> (#[trigger] self.subscribers[i]).id < self.next
        &&& forall|i: int, j: int|
            0 <= i < j < self.subscribers.len() ==> (#[trigger] self.subscribers[i]).id != (
            #[trigger] self.subscribers[j]).id
    }

    /// After a change: who still listens has one more to read, and who does not is
    /// forgotten.
    pub open spec fn notified(self) -> NotifierView {
        NotifierView { subscribers: woken(self.subscribers), ..self }
    }
}

/// A watcher with one more change to read.
pub open spec fn told(subscriber: Subscriber) -> Subscriber {
    Subscriber { unread: subscriber.unread + 1, ..subscriber }
}

/// The watchers that still listen, each with one more change to read.
pub open spec fn woken(subscribers: Seq<Subscriber>) -> Seq<Subscriber>
    decreases subscribers.len(),
{
    if subscribers.len() == 0 {
        Seq::empty()
    } else {
        let before = woken(subscribers.drop_last());
        if subscribers.last().open {
            before.push(told(subscribers.last()))
        } else {
            before
        }
    }
}

/// Where a watcher stands in the list.
pub open spec fn subscriber_at(subscribers: Seq<Subscriber>, id: u64, i: int) -> bool {
    0 <= i < subscribers.len() && subscribers[i].id == id
}

/// Whoever is woken listened before, under the same number, and has something to read.
pub proof fn lemma_only_listeners_are_woken(subscribers: Seq<Subscriber>)
    ensures
        woken(subscribers).len() <= subscribers.len(),
        forall|i: int|
            0 <= i < woken(subscribers).len() ==> {
                let s = #[trigger] woken(subscribers)[i];
                &&& s.open
                &&& s.unread > 0
                &&& exists|k: int|
                    0 <= k < subscribers.len() && (#[trigger] subscribers[k]).id == s.id
                        && subscribers[k].open
            },
    decreases subscribers.len(),
{
    if subscribers.len() > 0 {
        let rest = subscribers.drop_last();
        lemma_only_listeners_are_woken(rest);
        assert forall|i: int| 0 <= i < woken(subscribers).len() implies ({
            let s = #[trigger] woken(subscribers)[i];
            &&& s.open
            &&& s.unread > 0
            &&& exists|k: int|
                0 <= k < subscribers.len() && (#[trigger] subscribers[k]).id == s.id
                    && subscribers[k].open
        }) by {
            if i < woken(rest).len() {
                assert(woken(subscribers)[i] == woken(rest)[i]);
                let k = choose|k: int|
                    0 <= k < rest.len() && (#[trigger] rest[k]).id == woken(rest)[i].id
                        && rest[k].open;
                assert(subscribers[k] == rest[k]);
            } else {
                assert(subscribers[subscribers.len() - 1].open);
            }
        }
    }
}

/// Nobody who listens is passed over: after a change every listener has something to
/// read.
pub proof fn lemma_every_listener_is_woken(subscribers: Seq<Subscriber>, k: int)
    requires
        0 <= k < subscribers.len(),
        subscribers[k].open,
    ensures
        exists|i: int|
            0 <= i < woken(subscribers).len() && #[trigger] woken(subscribers)[i] == told(
                subscribers[k],
            ),
    decreases subscribers.len(),
{
    let rest = subscribers.drop_last();
    if k < rest.len() {
        lemma_every_listener_is_woken(rest, k);
        let i = choose|i: int|
            0 <= i < woken(rest).len() && #[trigger] woken(rest)[i] == told(rest[k]);
        assert(woken(subscribers)[i] == woken(rest)[i]);
    } else {
        let last = woken(subscribers).len() - 1;
        assert(woken(subscribers)[last] == told(subscribers[k]));
    }
}

proof fn lemma_notified_wf(n: NotifierView)
    requires
        n.wf(),
    ensures
        n.notified().wf(),
    decreases n.subscribers.len(),
{
    if n.subscribers.len() > 0 {
        let rest = NotifierView { subscribers: n.subscribers.drop_last(), ..n };
        assert(rest.wf()) by {
            assert forall|i: int| 0 <= i < rest.subscribers.len() implies (
            #[trigger] rest.subscribers[i]).id < rest.next by {
                assert(rest.subscribers[i] == n.subscribers[i]);
            }
            assert forall|i: int, j: int| 0 <= i < j < rest.subscribers.len() implies (
            #[trigger] rest.subscribers[i]).id != (#[trigger] rest.subscribers[j]).id by {
                assert(rest.subscribers[i] == n.subscribers[i]);
                assert(rest.subscribers[j] == n.subscribers[j]);
            }
        }
        lemma_notified_wf(rest);
        let before = woken(rest.subscribers);
        let last = n.subscribers.last();
        assert(n.subscribers[n.subscribers.len() - 1] == last);
        lemma_only_listeners_are_woken(rest.subscribers);
        assert forall|i: int| 0 <= i < before.len() implies (#[trigger] before[i]).id
            != last.id by {
            let k = choose|k: int|
                0 <= k < rest.subscribers.len() && (#[trigger] rest.subscribers[k]).id
                    == before[i].id && rest.subscribers[k].open;
            assert(rest.subscribers[k] == n.subscribers[k]);
        }
        let after = n.notified().subscribers;
        assert forall|i: int| 0 <= i < after.len() implies (#[trigger] after[i]).id < n.next by {
            if i < before.len() {
                assert(after[i] == before[i]);
                assert(rest.notified().subscribers[i] == before[i]);
            }
        }
        assert forall|i: int, j: int| 0 <= i < j < after.len() implies (#[trigger] after[i]).id
            != (#[trigger] after[j]).id by {
            assert(after[i] == before[i]);
            assert(rest.notified().subscribers[i] == before[i]);
            if j < before.len() {
                assert(after[j] == before[j]);
                assert(rest.notified().subscribers[j] == before[j]);
            }
        }
    }
}

/// A change is told to every listener once: each has exactly one more change to read
/// than before, under its own number, which nobody else has.
pub proof fn lemma_every_listener_is_told_once(n: NotifierView, id: u64, k: int)
    requires
        n.wf(),
        subscriber_at(n.subscribers, id, k),
        n.subscribers[k].open,
    ensures
        exists|i: int|
            {
                &&& #[trigger] subscriber_at(n.notified().subscribers, id, i)
                &&& n.notified().subscribers[i] == (Subscriber {
                    unread: n.subscribers[k].unread + 1,
                    ..n.subscribers[k]
                })
                &&& forall|j: int| #[trigger]
                    subscriber_at(n.notified().subscribers, id, j) ==> j == i
            },
{
    let after = n.notified().subscribers;
    lemma_every_listener_is_woken(n.subscribers, k);
    lemma_notified_wf(n);
    let i = choose|i: int|
        0 <= i < woken(n.subscribers).len() && #[trigger] woken(n.subscribers)[i] == told(
            n.subscribers[k],
        );
    assert(subscriber_at(after, id, i));
    assert forall|j: int| #[trigger] subscriber_at(after, id, j) implies j == i by {
        if j < i {
            assert(after[j].id != after[i].id);
        } else if i < j {
            assert(after[i].id != after[j].id);
        }
    }
}

/// Who no longer listens is forgotten with the next change.
pub proof fn lemma_who_left_is_forgotten(n: NotifierView, id: u64, k: int)
    requires
        n.wf(),
        subscriber_at(n.subscribers, id, k),
        !n.subscribers[k].open,
    ensures
        forall|j: int| !#[trigger] subscriber_at(n.notified().subscribers, id, j),
{
    let after = n.notified().subscribers;
    lemma_only_listeners_are_woken(n.subscribers);
    assert forall|j: int| !#[trigger] subscriber_at(after, id, j) by {
        if 0 <= j < after.len() && after[j].id == id {
            let s = woken(n.subscribers)[j];
            let l = choose|l: int|
                0 <= l < n.subscribers.len() && (#[trigger] n.subscribers[l]).id == s.id
                    && n.subscribers[l].open;
            if l < k {
                assert(n.subscribers[l].id != n.subscribers[k].id);
            } else if k < l {
                assert(n.subscribers[k].id != n.subscribers[l].id);
            }
        }
    }
}

impl ShelfChangeNotifier {
    /// A notifier that nobody listens to.
    #[must_use]
    pub fn new() -> (r: Self)
        ensures
            r@ == (NotifierView { subscribers: Seq::empty(), next: 0 }),
            r@.wf(),
    {
        let r = ShelfChangeNotifier { watchers: Vec::new(), next: 0 };
        assert(r@.subscribers =~= Seq::<Subscriber>::empty());
        r
    }

    /// Listens from now on, under the number that is returned; there is none any more
    /// once all were given out.
    pub fn subscribe(&mut self) -> (r: Option<u64>)
        requires
            old(self)@.wf(),
        ensures
            final(self)@.wf(),
            r == if old(self)@.next < u64::MAX {
                Some(old(self)@.next)
            } else {
                None
            },
            final(self)@ == match r {
                Some(id) => (NotifierView {
                    subscribers: old(self)@.subscribers.push(
                        Subscriber { id, unread: 0, open: true },
                    ),
                    next: (id + 1) as u64,
                }),
                None => old(self)@,
            },
    {
        let id: u64 = self.next;
        if id == u64::MAX {
            return None;
        }
        let ghost before = self@;
        self.watchers.push(Watcher { id, pending: Vec::new(), open: true });
        self.next = id + 1;
        assert(self@.subscribers =~= before.subscribers.push(
            Subscriber { id, unread: 0, open: true },
        ));
        Some(id)
    }

    /// Tells every listener that the shelf changed.
    pub fn notify(&mut self)
        ensures
            old(self)@.wf() ==> final(self)@.wf(),
            final(self)@ == old(self)@.notified(),
    {
        let ghost all = self@.subscribers;
        let mut left: Vec<Watcher> = Vec::new();
        let mut woken_ones: Vec<Watcher> = Vec::new();
        std::mem::swap(&mut left, &mut self.watchers);
        let ghost listed = left@;
        assert(all.subrange(0, 0) =~= Seq::<Subscriber>::empty());
        assert(watcher_views(woken_ones@) =~= woken(all.subrange(0, 0)));
        assert(listed.subrange(0, listed.len() as int) =~= listed);
        for watcher in it: left
            invariant
                all == watcher_views(listed),
                it.seq() == listed,
                self.next == old(self).next,
                watcher_views(woken_ones@) == woken(all.subrange(0, it.index() as int)),
        {
            let ghost now = all.subrange(0, it.index() + 1);
            let ghost told_before = woken_ones@;
            assert(now.drop_last() =~= all.subrange(0, it.index() as int));
            assert(now.last() == watcher@);
            if watcher.open {
                let mut watcher = watcher;
                watcher.pending.push(());
                woken_ones.push(watcher);
                assert(watcher_views(woken_ones@) =~= watcher_views(told_before).push(watcher@));
            }
        }
        assert(all.subrange(0, all.len() as int) =~= all);
        proof {
            if old(self)@.wf() {
                lemma_notified_wf(old(self)@);
            }
        }
        self.watchers = woken_ones;
    }

    fn position(&self, id: u64) -> (r: Option<usize>)
        ensures
            match r {
                Some(i) => subscriber_at(self@.subscribers, id, i as int),
                None => forall|i: int| !#[trigger] subscriber_at(self@.subscribers, id, i),
            },
    {
        let mut i: usize = 0;
        while i < self.watchers.len()
            invariant
                i <= self.watchers@.len(),
                forall|k: int| 0 <= k < i ==> (#[trigger] self.watchers@[k]).id != id,
            decreases self.watchers@.len() - i,
        {
            if self.watchers[i].id == id {
                assert(self@.subscribers[i as int] == self.watchers@[i as int]@);
                return Some(i);
            }
            i = i + 1;
        }
        assert forall|k: int| !#[trigger] subscriber_at(self@.subscribers, id, k) by {
            if 0 <= k < self@.subscribers.len() {
                assert(self@.subscribers[k] == self.watchers@[k]@);
            }
        }
        None
    }

    fn replace(&mut self, i: usize, watcher: Watcher)
        requires
            old(self)@.wf(),
            i < old(self)@.subscribers.len(),
            watcher@.id == old(self)@.subscribers[i as int].id,
        ensures
            final(self)@.wf(),
            final(self)@ == (NotifierView {
                subscribers: old(self)@.subscribers.update(i as int, watcher@),
                ..old(self)@
            }),
    {
        let ghost before = self@;
        self.watchers.set(i, watcher);
        assert(self@.subscribers =~= before.subscribers.update(i as int, watcher@));
    }

    /// Takes one change that a listener has not been told of yet, if there is one.
    pub fn received(&mut self, id: u64) -> (r: bool)
        requires
            old(self)@.wf(),
        ensures
            final(self)@.wf(),
            r == exists|i: int|
                #[trigger] subscriber_at(old(self)@.subscribers, id, i)
                    && old(self)@.subscribers[i].open && old(self)@.subscribers[i].unread > 0,
            !r ==> final(self)@ == old(self)@,
            forall|i: int| #[trigger]
                subscriber_at(old(self)@.subscribers, id, i) && r ==> final(self)@ == (
                NotifierView {
                    subscribers: old(self)@.subscribers.update(
                        i,
                        Subscriber {
                            unread: (old(self)@.subscribers[i].unread - 1) as nat,
                            ..old(self)@.subscribers[i]
                        },
                    ),
                    ..old(self)@
                }),
    {
        let ghost before = self@;
        match self.position(id) {
            None => false,
            Some(i) => {
                let unread: usize = self.watchers[i].pending.len();
                let open = self.watchers[i].open;
                proof {
                    assert(before.subscribers[i as int] == self.watchers@[i as int]@);
                    assert forall|k: int| #[trigger]
                        subscriber_at(before.subscribers, id, k) implies k == i by {
                        if k < i {
                            assert(before.subscribers[k].id != before.subscribers[i as int].id);
                        } else if i < k {
                            assert(before.subscribers[i as int].id != before.subscribers[k].id);
                        }
                    }
                }
                if !open || unread == 0 {
                    return false;
                }
                let mut pending: Vec<()> = self.watchers[i].pending.clone();
                let _ = pending.pop();
                self.replace(i, Watcher { id, pending, open });
                true
            },
        }
    }

    /// Stops listening.
    pub fn unsubscribe(&mut self, id: u64)
        requires
            old(self)@.wf(),
        ensures
            final(self)@.wf(),
            forall|i: int| #[trigger]
                subscriber_at(old(self)@.subscribers, id, i) ==> final(self)@ == (NotifierView {
                    subscribers: old(self)@.subscribers.update(
                        i,
                        Subscriber { open: false, ..old(self)@.subscribers[i] },
                    ),
                    ..old(self)@
                }),
            (forall|i: int| !#[trigger] subscriber_at(old(self)@.subscribers, id, i))
                ==> final(self)@ == old(self)@,
    {
        let ghost before = self@;
        if let Some(i) = self.position(id) {
            proof {
                assert(before.subscribers[i as int] == self.watchers@[i as int]@);
                assert forall|k: int| #[trigger]
                    subscriber_at(before.subscribers, id, k) implies k == i by {
                    if k < i {
                        assert(before.subscribers[k].id != before.subscribers[i as int].id);
                    } else if i < k {
                        assert(before.subscribers[i as int].id != before.subscribers[k].id);
                    }
                }
            }
            let pending: Vec<()> = self.watchers[i].pending.clone();
            self.replace(i, Watcher { id, pending, open: false });
        }
    }
}

impl Default for ShelfChangeNotifier {
    fn default() -> (r: Self)
        ensures
            r@ == (NotifierView { subscribers: Seq::empty(), next: 0 }),
            r@.wf(),
    {
        ShelfChangeNotifier::new()
    }
}

/// A store of cards whose insertions are told to the watchers of the shelf.
#[derive(Debug)]
pub struct NotifyingOfferCardStore<C: OfferCardStore> {
    pub inner: C,
    pub shelf_changes: ShelfChangeNotifier,
}

impl<C: OfferCardStore> NotifyingOfferCardStore<C> {
    #[must_use]
    pub fn new(inner: C, shelf_changes: ShelfChangeNotifier) -> (r: Self)
        ensures
            r.inner == inner,
            r.shelf_changes == shelf_changes,
    {
        NotifyingOfferCardStore { inner, shelf_changes }
    }
}

impl<C: OfferCardStore> OfferCardStore for NotifyingOfferCardStore<C> {
    fn get_offer_card(&self, source_device: DeviceId, offer_id: OfferId) -> (r: Result<
        Option<OfferCardRecord>,
        StoreError,
    >)
        ensures
            call_ensures(C::get_offer_card, (&self.inner, source_device, offer_id), r),
    {
        self.inner.get_offer_card(source_device, offer_id)
    }

    fn read_offer_shelf(&self) -> (r: Result<Vec<OfferCardRecord>, StoreError>)
        ensures
            call_ensures(C::read_offer_shelf, (&self.inner,), r),
    {
        self.inner.read_offer_shelf()
    }

    /// Inserts a card.  The watchers are told exactly where the store says that it is
    /// a new one.
    fn insert_offer_card(&mut self, input: OfferCardInput) -> (r: Result<
        OfferCardInsert,
        StoreError,
    >)
        ensures
            exists|store: &mut C|
                #[trigger] call_ensures(C::insert_offer_card, (store, input), r) && *store == old(
                    self,
                ).inner && *final(store) == final(self).inner,
            final(self).shelf_changes@ == if inserts(r) {
                old(self).shelf_changes@.notified()
            } else {
                old(self).shelf_changes@
            },
            old(self).shelf_changes@.wf() ==> final(self).shelf_changes@.wf(),
    {
        let r = self.inner.insert_offer_card(input);
        if let Ok(insert) = &r {
            if insert.inserted {
                self.shelf_changes.notify();
            }
        }
        r
    }
}

/// Whether a store said that it inserted a card.
pub open spec fn inserts(r: Result<OfferCardInsert, StoreError>) -> bool {
    r matches Ok(insert) && insert.inserted
}

} // verus!
