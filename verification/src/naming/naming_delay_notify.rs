//! Delayed, coalesced notification of subscribers.
//!
//! A change to a service is not pushed at once. The clients to tell are
//! gathered for a while, the window, and then each is told once. Times
//! are in milliseconds and come from the caller.
use crate::common::keyed::Keyed;
use crate::common::vec_map::VecMap;
use crate::common::vec_set::VecSet;
use crate::naming::model::{ServiceKey, ServiceKeyView};
use std::sync::Arc;
use vstd::prelude::*;

verus! {

/// How long changes to a service are gathered before they are pushed,
/// unless the notifier is told otherwise, in milliseconds.
pub const DEFAULT_NOTIFY_WINDOW_MS: u64 = 500;

/// A command for the notifier.
pub enum DelayNotifyCmd {
    /// The service changed; these clients listen to it.
    Notify(ServiceKey, VecSet<Arc<String>>),
}

/// One push: the client is to be told the current instances of the
/// service.
pub struct Push {
    pub service_key: ServiceKey,
    pub client_id: Arc<String>,
}

/// What waits for one service: the clients to tell and when.
pub struct PendingView {
    pub clients: Set<Seq<char>>,
    pub due_ms: u64,
}

/// What waits, by service key.
pub type NotifierView = Map<ServiceKeyView, PendingView>;

/// What waits for one service.
pub struct Pending {
    clients: VecSet<Arc<String>>,
    due_ms: u64,
}

impl View for Pending {
    type V = PendingView;

    closed spec fn view(&self) -> PendingView {
        PendingView { clients: self.clients@, due_ms: self.due_ms }
    }
}

/// The time `window` after `now`, or the end of time if that is sooner.
pub open spec fn due_after(now: u64, window: u64) -> u64 {
    if now + window <= u64::MAX {
        (now + window) as u64
    } else {
        u64::MAX
    }
}

/// What waits after a change to `k` was reported at the time `now` for
/// the clients `clients`: they join those that wait for `k` already, and
/// the time they are told stays; if none waits, they are told one window
/// from now.
pub open spec fn after_notify(
    p: NotifierView,
    k: ServiceKeyView,
    clients: Set<Seq<char>>,
    now: u64,
    window: u64,
) -> NotifierView {
    if p.contains_key(k) {
        p.insert(k, PendingView { clients: p[k].clients.union(clients), due_ms: p[k].due_ms })
    } else {
        p.insert(k, PendingView { clients: clients, due_ms: due_after(now, window) })
    }
}

/// A dispatch at the time `now` pushes to the client `c` for the key `k`.
pub open spec fn pushed(p: NotifierView, now: u64, k: ServiceKeyView, c: Seq<char>) -> bool {
    p.contains_key(k) && p[k].due_ms <= now && p[k].clients.contains(c)
}

/// What waits after a dispatch at the time `now`: what is not yet due.
pub open spec fn after_dispatch(p: NotifierView, now: u64) -> NotifierView {
    Map::new(|k: ServiceKeyView| p.contains_key(k) && p[k].due_ms > now, |k: ServiceKeyView| p[k])
}

/// Some push of the list is for the key `k` and the client `c`.
pub open spec fn names_push(pushes: Seq<Push>, k: ServiceKeyView, c: Seq<char>) -> bool {
    exists|j: int|
        0 <= j < pushes.len() && (#[trigger] pushes[j]).service_key@ == k && pushes[j].client_id@
            == c
}

/// No two pushes of the list are for the same key and client.
pub open spec fn distinct_pushes(pushes: Seq<Push>) -> bool {
    forall|i: int, j: int|
        0 <= i < j < pushes.len() ==> !((#[trigger] pushes[i]).service_key@ == (
        #[trigger] pushes[j]).service_key@ && pushes[i].client_id@ == pushes[j].client_id@)
}

/// What a notifier is told, in a run of events.
pub enum NotifierEvent {
    /// A change to `key` was reported at the time `at` for `clients`.
    Notify { key: ServiceKeyView, clients: Set<Seq<char>>, at: u64 },
    /// The dispatcher ran at the time `at`.
    Dispatch { at: u64 },
}

impl NotifierEvent {
    /// The time of the event.
    pub open spec fn at(self) -> u64 {
        match self {
            NotifierEvent::Notify { at, .. } => at,
            NotifierEvent::Dispatch { at } => at,
        }
    }
}

/// What waits after the event `e`.
pub open spec fn after_event(p: NotifierView, e: NotifierEvent, window: u64) -> NotifierView {
    match e {
        NotifierEvent::Notify { key, clients, at } => after_notify(p, key, clients, at, window),
        NotifierEvent::Dispatch { at } => after_dispatch(p, at),
    }
}

/// What waits after the events of the list, taken in turn.
pub open spec fn after_events(p: NotifierView, events: Seq<NotifierEvent>, window: u64) -> NotifierView
    decreases events.len(),
{
    if events.len() == 0 {
        p
    } else {
        after_event(after_events(p, events.drop_last(), window), events.last(), window)
    }
}

/// The number of pushes to the client `c` for the key `k` that the events
/// of the list lead to.
pub open spec fn pushes_to(
    p: NotifierView,
    events: Seq<NotifierEvent>,
    window: u64,
    k: ServiceKeyView,
    c: Seq<char>,
) -> nat
    decreases events.len(),
{
    if events.len() == 0 {
        0
    } else {
        let earlier = pushes_to(p, events.drop_last(), window, k, c);
        let now: nat = match events.last() {
            NotifierEvent::Dispatch { at } => if pushed(
                after_events(p, events.drop_last(), window),
                at,
                k,
                c,
            ) {
                1
            } else {
                0
            },
            NotifierEvent::Notify { .. } => 0,
        };
        earlier + now
    }
}

proof fn lemma_quiet_window(
    p: NotifierView,
    events: Seq<NotifierEvent>,
    window: u64,
    k: ServiceKeyView,
    c: Seq<char>,
    start: u64,
)
    requires
        start + window <= u64::MAX,
        p.contains_key(k) ==> p[k].due_ms >= start + window,
        forall|i: int| 0 <= i < events.len() ==> start <= (#[trigger] events[i]).at() < start + window,
    ensures
        pushes_to(p, events, window, k, c) == 0,
        after_events(p, events, window).contains_key(k) ==> after_events(
            p,
            events,
            window,
        )[k].due_ms >= start + window,
    decreases events.len(),
{
    if events.len() > 0 {
        let earlier = events.drop_last();
        assert forall|i: int| 0 <= i < earlier.len() implies start <= (#[trigger] earlier[i]).at()
            < start + window by {
            assert(earlier[i] == events[i]);
        }
        lemma_quiet_window(p, earlier, window, k, c, start);
        assert(start <= events[events.len() - 1].at() < start + window);
    }
}

/// Fan-out bound: while the changes to a service that nobody waits for
/// yet are reported within one window, nothing is pushed for it, and the
/// dispatch that follows pushes to each client at most once, however
/// many changes were reported.
pub proof fn law_fan_out_bound(
    p: NotifierView,
    burst: Seq<NotifierEvent>,
    window: u64,
    k: ServiceKeyView,
    c: Seq<char>,
    start: u64,
    then: u64,
)
    requires
        start + window <= u64::MAX,
        !p.contains_key(k),
        forall|i: int| 0 <= i < burst.len() ==> start <= (#[trigger] burst[i]).at() < start + window,
    ensures
        pushes_to(p, burst, window, k, c) == 0,
        pushes_to(p, burst.push(NotifierEvent::Dispatch { at: then }), window, k, c) <= 1,
        !pushed(
            after_events(p, burst.push(NotifierEvent::Dispatch { at: then }), window),
            then,
            k,
            c,
        ),
{
    lemma_quiet_window(p, burst, window, k, c, start);
    let all = burst.push(NotifierEvent::Dispatch { at: then });
    assert(all.drop_last() =~= burst);
    assert(all.last() == NotifierEvent::Dispatch { at: then });
}

fn push_all(pushes: &mut Vec<Push>, key: &ServiceKey, clients: &VecSet<Arc<String>>)
    requires
        distinct_pushes(old(pushes)@),
        forall|c: Seq<char>| !names_push(old(pushes)@, key@, c),
    ensures
        distinct_pushes(final(pushes)@),
        forall|k: ServiceKeyView, c: Seq<char>|
            names_push(final(pushes)@, k, c) <==> (names_push(old(pushes)@, k, c) || (k == key@
                && clients@.contains(c))),
{
    let n = clients.len();
    let mut i: usize = 0;
    let ghost start = pushes@;
    while i < n
        invariant
            n == clients.item_seq().len(),
            i <= n,
            start == old(pushes)@,
            clients.item_seq().no_duplicates(),
            clients.item_seq().to_set() == clients@,
            pushes@.len() == start.len() + i,
            forall|j: int| 0 <= j < start.len() ==> pushes@[j] == start[j],
            forall|j: int|
                0 <= j < i ==> (#[trigger] pushes@[start.len() + j]).service_key@ == key@
                    && pushes@[start.len() + j].client_id@ == clients.item_seq()[j],
        decreases n - i,
    {
        let ghost before = pushes@;
        pushes.push(Push { service_key: key.clone(), client_id: clients.item_at(i).duplicate() });
        proof {
            assert forall|j: int| 0 <= j < start.len() implies pushes@[j] == start[j] by {
                assert(pushes@[j] == before[j]);
            }
            assert forall|j: int| 0 <= j < i + 1 implies (#[trigger] pushes@[start.len()
                + j]).service_key@ == key@ && pushes@[start.len() + j].client_id@
                == clients.item_seq()[j] by {
                if j < i {
                    assert(pushes@[start.len() + j] == before[start.len() + j]);
                }
            }
        }
        i += 1;
    }
    proof {
        let done = pushes@;
        assert forall|a: int, b: int| 0 <= a < b < done.len() implies !((#[trigger] done[a]).service_key@
            == (#[trigger] done[b]).service_key@ && done[a].client_id@ == done[b].client_id@) by {
            if b < start.len() {
                assert(done[a] == start[a] && done[b] == start[b]);
            } else if a < start.len() {
                assert(done[a] == start[a]);
                let jb = b - start.len();
                assert(done[start.len() + jb].service_key@ == key@);
                if done[a].service_key@ == key@ {
                    assert(names_push(start, key@, start[a].client_id@));
                }
            } else {
                let ja = a - start.len();
                let jb = b - start.len();
                assert(done[start.len() + ja].client_id@ == clients.item_seq()[ja]);
                assert(done[start.len() + jb].client_id@ == clients.item_seq()[jb]);
            }
        }
        assert forall|k: ServiceKeyView, c: Seq<char>|
            names_push(done, k, c) <==> (names_push(start, k, c) || (k == key@
                && clients@.contains(c))) by {
            if names_push(start, k, c) {
                let j = choose|j: int|
                    0 <= j < start.len() && (#[trigger] start[j]).service_key@ == k
                        && start[j].client_id@ == c;
                assert(done[j] == start[j]);
                assert(names_push(done, k, c));
            }
            if k == key@ && clients@.contains(c) {
                assert(clients.item_seq().to_set().contains(c));
                let j = choose|j: int|
                    0 <= j < clients.item_seq().len() && clients.item_seq()[j] == c;
                assert(done[start.len() + j].service_key@ == k);
                assert(names_push(done, k, c));
            }
            if names_push(done, k, c) {
                let j = choose|j: int|
                    0 <= j < done.len() && (#[trigger] done[j]).service_key@ == k
                        && done[j].client_id@ == c;
                if j < start.len() {
                    assert(done[j] == start[j]);
                    assert(names_push(start, k, c));
                } else {
                    let m = j - start.len();
                    assert(done[start.len() + m].client_id@ == clients.item_seq()[m]);
                    assert(clients.item_seq().to_set().contains(clients.item_seq()[m]));
                }
            }
        }
    }
}

/// The notifier.
pub struct DelayNotifier {
    pending: VecMap<ServiceKey, Pending>,
    window_ms: u64,
}

impl View for DelayNotifier {
    type V = NotifierView;

    closed spec fn view(&self) -> NotifierView {
        self.pending@.map_values(|p: Pending| p@)
    }
}

impl DelayNotifier {
    /// How long changes are gathered, in milliseconds.
    pub closed spec fn window(self) -> u64 {
        self.window_ms
    }

    /// A notifier with the usual window and nothing waiting.
    pub fn new() -> (notifier: Self)
        ensures
            notifier@ == Map::<ServiceKeyView, PendingView>::empty(),
            notifier.window() == DEFAULT_NOTIFY_WINDOW_MS,
    {
        DelayNotifier::with_window(DEFAULT_NOTIFY_WINDOW_MS)
    }

    /// A notifier with the window `window_ms` and nothing waiting.
    pub fn with_window(window_ms: u64) -> (notifier: Self)
        ensures
            notifier@ == Map::<ServiceKeyView, PendingView>::empty(),
            notifier.window() == window_ms,
    {
        let notifier = DelayNotifier { pending: VecMap::new(), window_ms };
        assert(notifier@ =~= Map::<ServiceKeyView, PendingView>::empty());
        notifier
    }

    /// Takes in a report at the time `now` that the service of `cmd`
    /// changed.
    pub fn handle(&mut self, cmd: DelayNotifyCmd, now: u64)
        ensures
            final(self).window() == old(self).window(),
            cmd matches DelayNotifyCmd::Notify(key, clients) && final(self)@ == after_notify(
                old(self)@,
                key@,
                clients@,
                now,
                old(self).window(),
            ),
    {
        match cmd {
            DelayNotifyCmd::Notify(key, clients) => {
                let entry = match self.pending.remove(&key) {
                    Some(found) => {
                        let mut waiting = found;
                        let n = clients.len();
                        let mut i: usize = 0;
                        assert(clients.item_seq().take(0).to_set() =~= Set::empty());
                        assert(waiting.clients@ =~= found.clients@.union(Set::empty()));
                        while i < n
                            invariant
                                n == clients.item_seq().len(),
                                i <= n,
                                waiting.due_ms == found.due_ms,
                                waiting.clients@ == found.clients@.union(
                                    clients.item_seq().take(i as int).to_set(),
                                ),
                            decreases n - i,
                        {
                            let ghost before = clients.item_seq().take(i as int);
                            proof {
                                assert(clients.item_seq().take(i + 1) =~= before.push(
                                    clients.item_seq()[i as int],
                                ));
                                before.lemma_push_to_set_commute(clients.item_seq()[i as int]);
                            }
                            waiting.clients.insert(clients.item_at(i).duplicate());
                            assert(waiting.clients@ =~= found.clients@.union(
                                before.to_set().insert(clients.item_seq()[i as int]),
                            ));
                            i += 1;
                        }
                        assert(clients.item_seq().take(n as int) =~= clients.item_seq());
                        waiting
                    },
                    None => {
                        let due_ms = if now > u64::MAX - self.window_ms {
                            u64::MAX
                        } else {
                            now + self.window_ms
                        };
                        Pending { clients, due_ms }
                    },
                };
                self.pending.insert(key, entry);
                assert(self@ =~= after_notify(old(self)@, key@, clients@, now, old(self).window()));
            },
        }
    }

    /// The earliest time at which something is due, if anything waits.
    pub fn next_due(&self) -> (due: Option<u64>)
        ensures
            due is None == (self@ == Map::<ServiceKeyView, PendingView>::empty()),
            due matches Some(d) ==> (exists|k: ServiceKeyView|
                #![trigger self@.contains_key(k)]
                self@.contains_key(k) && self@[k].due_ms == d) && (forall|k: ServiceKeyView| #[trigger]
                self@.contains_key(k) ==> d <= self@[k].due_ms),
    {
        let n = self.pending.len();
        let mut due: Option<u64> = None;
        let mut i: usize = 0;
        while i < n
            invariant
                n == self.pending.key_seq().len(),
                i <= n,
                self.pending.key_seq().to_set() == self.pending@.dom(),
                due is None == (i == 0),
                due matches Some(d) ==> (exists|j: int|
                    0 <= j < i && self@[#[trigger] self.pending.key_seq()[j]].due_ms == d) && (
                forall|j: int|
                    0 <= j < i ==> d <= self@[#[trigger] self.pending.key_seq()[j]].due_ms),
            decreases n - i,
        {
            let entry = self.pending.value_at(i);
            let ghost prior = due;
            assert(self@[self.pending.key_seq()[i as int]].due_ms == entry.due_ms);
            due = match due {
                Some(d) => if entry.due_ms < d {
                    Some(entry.due_ms)
                } else {
                    Some(d)
                },
                None => Some(entry.due_ms),
            };
            proof {
                if prior is Some {
                    let d0 = prior->0;
                    let j = choose|j: int|
                        0 <= j < i && self@[#[trigger] self.pending.key_seq()[j]].due_ms == d0;
                    if entry.due_ms >= d0 {
                        assert(0 <= j < i + 1 && self@[self.pending.key_seq()[j]].due_ms == d0);
                    }
                }
            }
            i += 1;
        }
        proof {
            assert(self@.dom() =~= self.pending@.dom());
            if n == 0 {
                assert(self@ =~= Map::<ServiceKeyView, PendingView>::empty());
            } else {
                let k0 = self.pending.key_seq()[0];
                assert(self.pending.key_seq().to_set().contains(k0));
                assert(self@.contains_key(k0));
                let d = due->0;
                let j = choose|j: int|
                    0 <= j < n && self@[#[trigger] self.pending.key_seq()[j]].due_ms == d;
                let kj = self.pending.key_seq()[j];
                assert(self.pending.key_seq().to_set().contains(kj));
                assert(self@.contains_key(kj));
                assert forall|k: ServiceKeyView| #[trigger] self@.contains_key(k) implies d
                    <= self@[k].due_ms by {
                    assert(self.pending.key_seq().to_set().contains(k));
                    let m = choose|m: int|
                        0 <= m < self.pending.key_seq().len() && self.pending.key_seq()[m] == k;
                    assert(d <= self@[self.pending.key_seq()[m]].due_ms);
                }
            }
        }
        due
    }
    /// Runs the dispatcher at the time `now`: whatever is due stops
    /// waiting, and each of its clients gets one push.
    pub fn dispatch(&mut self, now: u64) -> (pushes: Vec<Push>)
        ensures
            final(self).window() == old(self).window(),
            final(self)@ == after_dispatch(old(self)@, now),
            distinct_pushes(pushes@),
            forall|k: ServiceKeyView, c: Seq<char>|
                names_push(pushes@, k, c) <==> pushed(old(self)@, now, k, c),
    {
        let ghost v = self@;
        let ghost orig = self.pending@;
        let mut rest: VecMap<ServiceKey, Pending> = VecMap::new();
        std::mem::swap(&mut self.pending, &mut rest);
        let mut kept: VecMap<ServiceKey, Pending> = VecMap::new();
        let mut pushes: Vec<Push> = Vec::new();
        let mut left = rest.len();
        while left > 0
            invariant
                left == rest@.dom().len(),
                rest@.dom().finite(),
                v == orig.map_values(|p: Pending| p@),
                self.window_ms == old(self).window_ms,
                forall|k: ServiceKeyView| #[trigger]
                    rest@.contains_key(k) ==> orig.contains_key(k) && orig[k] == rest@[k],
                forall|k: ServiceKeyView| #[trigger]
                    kept@.contains_key(k) <==> (orig.contains_key(k) && !rest@.contains_key(k)
                        && orig[k]@.due_ms > now),
                forall|k: ServiceKeyView| #[trigger] kept@.contains_key(k) ==> kept@[k] == orig[k],
                distinct_pushes(pushes@),
                forall|k: ServiceKeyView, c: Seq<char>|
                    names_push(pushes@, k, c) <==> (!rest@.contains_key(k) && pushed(v, now, k, c)),
            decreases left,
        {
            let ghost rest_before = rest@;
            let ghost kept_before = kept@;
            let ghost pushes_before = pushes@;
            match rest.pop() {
                Some((key, entry)) => {
                    left -= 1;
                    assert(v[key@] == entry@);
                    if entry.due_ms <= now {
                        assert forall|c: Seq<char>| !names_push(pushes@, key@, c) by {
                            assert(rest_before.contains_key(key@));
                        }
                        push_all(&mut pushes, &key, &entry.clients);
                    } else {
                        kept.insert(key, entry);
                    }
                    proof {
                        let k0 = key@;
                        assert forall|k: ServiceKeyView| #[trigger] rest@.contains_key(k) implies orig.contains_key(
                            k,
                        ) && orig[k] == rest@[k] by {
                            assert(rest_before.contains_key(k));
                        }
                        assert forall|k: ServiceKeyView| #[trigger]
                            kept@.contains_key(k) <==> (orig.contains_key(k) && !rest@.contains_key(
                                k,
                            ) && orig[k]@.due_ms > now) by {
                            if k != k0 {
                                assert(kept@.contains_key(k) == kept_before.contains_key(k));
                                assert(rest@.contains_key(k) == rest_before.contains_key(k));
                            } else {
                                assert(rest_before.contains_key(k));
                                assert(!kept_before.contains_key(k));
                            }
                        }
                        assert forall|k: ServiceKeyView| #[trigger] kept@.contains_key(k) implies kept@[k]
                            == orig[k] by {
                            if k != k0 {
                                assert(kept_before.contains_key(k));
                            }
                        }
                        assert forall|k: ServiceKeyView, c: Seq<char>|
                            names_push(pushes@, k, c) <==> (!rest@.contains_key(k) && pushed(
                                v,
                                now,
                                k,
                                c,
                            )) by {
                            if k != k0 {
                                assert(rest@.contains_key(k) == rest_before.contains_key(k));
                                assert(names_push(pushes@, k, c) == names_push(pushes_before, k, c));
                            } else {
                                assert(rest_before.contains_key(k));
                                assert(!names_push(pushes_before, k, c));
                            }
                        }
                    }
                },
                None => {
                    assert(rest_before.dom() =~= Set::empty());
                    assert(false);
                },
            }
        }
        self.pending = kept.reversed();
        proof {
            assert forall|k: ServiceKeyView| !rest@.contains_key(k) by {
                if rest@.contains_key(k) {
                    assert(rest@.dom().contains(k));
                    assert(rest@.dom() =~= Set::empty());
                }
            }
            assert(self@ =~= after_dispatch(v, now));
        }
        pushes
    }
}

} // verus!
