//! The list-then-watch state machine that reconciles a change feed into the
//! store.
//!
//! A single long-lived task drives the machine: it asks [`Mirror::next_action`]
//! what to do, performs the corresponding list, watch or sleep call, and
//! reports the outcome through the `on_*` transitions. Each transition's
//! contract equals a pure step function over the mirror's mathematical state,
//! so every reachable state of the loop is pinned down:
//!
//! - `Bootstrapping`: a full list replaces the store's contents outright and
//!   records the returned cursor;
//! - `Watching`: notifications are applied in feed order, one store update
//!   each; an expired-cursor signal drops the cursor and forces a full
//!   re-bootstrap;
//! - `BackingOff`: an exponentially growing, capped delay precedes the retry
//!   of whichever step failed;
//! - `Terminated`: reached only under the opt-in fail-fast policy, once the
//!   consecutive-failure budget is exhausted.

use vstd::prelude::*;
use crate::object::{Entry, EntryView, ObjectRef, ObjectRefView, RemoteObject, RemoteObjectView};
use crate::projector::project_view;
use crate::store::{contents_of, entry_for, Store};

verus! {

/// Which part of the remote collection the mirror watches; fixed at
/// construction.
pub enum Scope {
    AllNamespaces,
    Namespace(String),
}

/// Mathematical value of a [`Scope`].
pub enum ScopeView {
    AllNamespaces,
    Namespace(Seq<char>),
}

impl View for Scope {
    type V = ScopeView;

    open spec fn view(&self) -> ScopeView {
        match self {
            Scope::AllNamespaces => ScopeView::AllNamespaces,
            Scope::Namespace(ns) => ScopeView::Namespace(ns@),
        }
    }
}

impl Clone for Scope {
    fn clone(&self) -> (r: Self)
        ensures
            r@ == self@,
    {
        match self {
            Scope::AllNamespaces => Scope::AllNamespaces,
            Scope::Namespace(ns) => Scope::Namespace(ns.clone()),
        }
    }
}

/// One notification from the change feed: an upsert or delete of a record,
/// a bookmark carrying only a cursor update, or the signal that the cursor
/// can no longer be resumed from.
pub enum Notification {
    Upsert(RemoteObject, String),
    Delete(ObjectRef, String),
    Bookmark(String),
    Expired,
}

/// Mathematical value of a [`Notification`].
pub enum NotificationView {
    Upsert(RemoteObjectView, Seq<char>),
    Delete(ObjectRefView, Seq<char>),
    Bookmark(Seq<char>),
    Expired,
}

impl View for Notification {
    type V = NotificationView;

    open spec fn view(&self) -> NotificationView {
        match self {
            Notification::Upsert(o, c) => NotificationView::Upsert(o@, c@),
            Notification::Delete(k, c) => NotificationView::Delete(k@, c@),
            Notification::Bookmark(c) => NotificationView::Bookmark(c@),
            Notification::Expired => NotificationView::Expired,
        }
    }
}

/// The phase the state machine is in.
#[derive(Clone, Copy, PartialEq, Eq, Structural, Debug)]
pub enum Phase {
    Bootstrapping,
    Watching,
    BackingOff,
    Terminated,
}

/// What the driving task should do next.
pub enum Action {
    /// Issue a full list of the configured scope and report the outcome
    /// through `on_list_ok` or `on_list_failed`.
    List,
    /// Open a watch subscription from this cursor and report each
    /// notification through `on_notification`, or `on_watch_closed` when the
    /// subscription ends for a transient reason.
    Watch(String),
    /// Wait this many milliseconds, then call `on_backoff_elapsed`.
    Sleep(u64),
    /// Fail-fast policy: stop driving the mirror altogether.
    Stop,
}

/// Mathematical value of an [`Action`].
pub enum ActionView {
    List,
    Watch(Seq<char>),
    Sleep(u64),
    Stop,
}

impl View for Action {
    type V = ActionView;

    open spec fn view(&self) -> ActionView {
        match self {
            Action::List => ActionView::List,
            Action::Watch(c) => ActionView::Watch(c@),
            Action::Sleep(ms) => ActionView::Sleep(*ms),
            Action::Stop => ActionView::Stop,
        }
    }
}

/// Mathematical state of a [`Mirror`].
pub struct MirrorView {
    pub store: Map<ObjectRefView, RemoteObjectView>,
    pub phase: Phase,
    pub ready: bool,
    pub cursor: Option<Seq<char>>,
    pub failures: u32,
    pub scope: ScopeView,
    pub fail_fast: bool,
    pub max_failures: u32,
}

/// First delay of the backoff ladder, in milliseconds.
pub const BACKOFF_BASE_MS: u64 = 800;

/// Largest backoff delay, in milliseconds.
pub const BACKOFF_CAP_MS: u64 = 30000;

/// The delay before the `n`-th consecutive retry: doubling from the base,
/// saturating at the cap.
pub open spec fn backoff_of(n: nat) -> u64
    decreases n,
{
    if n <= 1 {
        BACKOFF_BASE_MS
    } else {
        let p = backoff_of((n - 1) as nat);
        if 2 * p >= BACKOFF_CAP_MS {
            BACKOFF_CAP_MS
        } else {
            (2 * p) as u64
        }
    }
}

/// The failure counter after one more consecutive failure.
pub open spec fn bumped_failures(m: MirrorView) -> u32 {
    if m.failures == u32::MAX {
        m.failures
    } else {
        (m.failures + 1) as u32
    }
}

/// A successful bootstrap list: its records replace the store's whole
/// contents, its cursor is recorded, and watching begins afresh.
pub open spec fn step_list_ok(
    m: MirrorView,
    cursor: Seq<char>,
    objects: Seq<RemoteObjectView>,
) -> MirrorView {
    MirrorView {
        store: contents_of(objects),
        phase: Phase::Watching,
        ready: true,
        cursor: Some(cursor),
        failures: 0,
        scope: m.scope,
        fail_fast: m.fail_fast,
        max_failures: m.max_failures,
    }
}

/// A transient transport failure: the store and cursor are kept, the failure
/// count grows, and the mirror backs off — or terminates, when the fail-fast
/// policy's retry budget is exhausted.
pub open spec fn step_failure(m: MirrorView) -> MirrorView {
    MirrorView {
        store: m.store,
        phase: if m.fail_fast && bumped_failures(m) >= m.max_failures {
            Phase::Terminated
        } else {
            Phase::BackingOff
        },
        ready: m.ready,
        cursor: m.cursor,
        failures: bumped_failures(m),
        scope: m.scope,
        fail_fast: m.fail_fast,
        max_failures: m.max_failures,
    }
}

/// One notification applied in feed order: an upsert or delete is one store
/// update plus a cursor advance, a bookmark advances the cursor alone, and
/// an expired cursor is dropped to force a full re-bootstrap. A delivered
/// notification also shows the subscription is live, so the failure count
/// resets.
pub open spec fn step_notification(m: MirrorView, n: NotificationView) -> MirrorView {
    match n {
        NotificationView::Upsert(o, c) => MirrorView {
            store: m.store.insert(o.key(), o),
            phase: Phase::Watching,
            ready: m.ready,
            cursor: Some(c),
            failures: 0,
            scope: m.scope,
            fail_fast: m.fail_fast,
            max_failures: m.max_failures,
        },
        NotificationView::Delete(k, c) => MirrorView {
            store: m.store.remove(k),
            phase: Phase::Watching,
            ready: m.ready,
            cursor: Some(c),
            failures: 0,
            scope: m.scope,
            fail_fast: m.fail_fast,
            max_failures: m.max_failures,
        },
        NotificationView::Bookmark(c) => MirrorView {
            store: m.store,
            phase: Phase::Watching,
            ready: m.ready,
            cursor: Some(c),
            failures: 0,
            scope: m.scope,
            fail_fast: m.fail_fast,
            max_failures: m.max_failures,
        },
        NotificationView::Expired => MirrorView {
            store: m.store,
            phase: Phase::Bootstrapping,
            ready: m.ready,
            cursor: None,
            failures: m.failures,
            scope: m.scope,
            fail_fast: m.fail_fast,
            max_failures: m.max_failures,
        },
    }
}

/// The backoff delay has elapsed: retry the watch when a cursor is held,
/// else redo the bootstrap list.
pub open spec fn step_backoff_elapsed(m: MirrorView) -> MirrorView {
    MirrorView {
        store: m.store,
        phase: if m.cursor is Some {
            Phase::Watching
        } else {
            Phase::Bootstrapping
        },
        ready: m.ready,
        cursor: m.cursor,
        failures: m.failures,
        scope: m.scope,
        fail_fast: m.fail_fast,
        max_failures: m.max_failures,
    }
}

/// What the driving task should do in a given state.
pub open spec fn action_of(m: MirrorView) -> ActionView {
    match m.phase {
        Phase::Bootstrapping => ActionView::List,
        Phase::Watching => ActionView::Watch(m.cursor.unwrap()),
        Phase::BackingOff => ActionView::Sleep(backoff_of(m.failures as nat)),
        Phase::Terminated => ActionView::Stop,
    }
}

/// The delay before the `failures`-th consecutive retry, in milliseconds.
pub fn backoff_delay_ms(failures: u32) -> (d: u64)
    ensures
        d == backoff_of(failures as nat),
        BACKOFF_BASE_MS <= d <= BACKOFF_CAP_MS,
{
    let mut d: u64 = BACKOFF_BASE_MS;
    let mut i: u32 = 1;
    while i < failures
        invariant
            1 <= i,
            i == 1 || i <= failures,
            d == backoff_of(i as nat),
            BACKOFF_BASE_MS <= d <= BACKOFF_CAP_MS,
        decreases failures - i,
    {
        if 2 * d >= BACKOFF_CAP_MS {
            d = BACKOFF_CAP_MS;
        } else {
            d = 2 * d;
        }
        i += 1;
    }
    proof {
        if failures == 0 {
            assert(backoff_of(0) == BACKOFF_BASE_MS);
            assert(backoff_of(1) == BACKOFF_BASE_MS);
        }
    }
    d
}

/// The watch-driven synchronization mirror: an owned store plus the state
/// machine that reconciles the change feed into it.
pub struct Mirror {
    store: Store,
    phase: Phase,
    ready: bool,
    cursor: Option<String>,
    failures: u32,
    scope: Scope,
    fail_fast: bool,
    max_failures: u32,
}

impl View for Mirror {
    type V = MirrorView;

    closed spec fn view(&self) -> MirrorView {
        MirrorView {
            store: self.store@,
            phase: self.phase,
            ready: self.ready,
            cursor: match self.cursor {
                Some(c) => Some(c@),
                None => None,
            },
            failures: self.failures,
            scope: self.scope@,
            fail_fast: self.fail_fast,
            max_failures: self.max_failures,
        }
    }
}

impl Mirror {
    /// Well-formed: the store holds one record per key, and a watching
    /// mirror always holds a cursor to resume from.
    pub closed spec fn wf(&self) -> bool {
        &&& self.store.wf()
        &&& self.phase is Watching ==> self.cursor is Some
    }

    /// A fresh mirror: empty store, about to bootstrap. `fail_fast` opts in
    /// to terminating after `max_failures` consecutive transport failures;
    /// otherwise the mirror retries forever.
    pub fn new(scope: Scope, fail_fast: bool, max_failures: u32) -> (m: Mirror)
        ensures
            m.wf(),
            m@ == (MirrorView {
                store: Map::<ObjectRefView, RemoteObjectView>::empty(),
                phase: Phase::Bootstrapping,
                ready: false,
                cursor: None,
                failures: 0,
                scope: scope@,
                fail_fast,
                max_failures,
            }),
    {
        Mirror {
            store: Store::new(),
            phase: Phase::Bootstrapping,
            ready: false,
            cursor: None,
            failures: 0,
            scope,
            fail_fast,
            max_failures,
        }
    }

    /// The next thing the driving task should do.
    pub fn next_action(&self) -> (a: Action)
        requires
            self.wf(),
        ensures
            a@ == action_of(self@),
    {
        match self.phase {
            Phase::Bootstrapping => Action::List,
            Phase::Watching => match &self.cursor {
                Some(c) => Action::Watch(c.clone()),
                None => unreached(),
            },
            Phase::BackingOff => Action::Sleep(backoff_delay_ms(self.failures)),
            Phase::Terminated => Action::Stop,
        }
    }

    /// Outcome of a successful bootstrap list call.
    pub fn on_list_ok(&mut self, cursor: String, objects: Vec<RemoteObject>)
        requires
            old(self).wf(),
            old(self)@.phase is Bootstrapping,
        ensures
            final(self).wf(),
            final(self)@ == step_list_ok(old(self)@, cursor@, objects.deep_view()),
    {
        self.store.replace_all(objects);
        self.cursor = Some(cursor);
        self.phase = Phase::Watching;
        self.ready = true;
        self.failures = 0;
    }

    /// Outcome of a failed bootstrap list call.
    pub fn on_list_failed(&mut self)
        requires
            old(self).wf(),
            old(self)@.phase is Bootstrapping,
        ensures
            final(self).wf(),
            final(self)@ == step_failure(old(self)@),
    {
        self.bump_failure();
    }

    /// One notification from the open watch subscription, in feed order.
    pub fn on_notification(&mut self, n: Notification)
        requires
            old(self).wf(),
            old(self)@.phase is Watching,
        ensures
            final(self).wf(),
            final(self)@ == step_notification(old(self)@, n@),
    {
        match n {
            Notification::Upsert(o, c) => {
                let key = o.object_ref();
                self.store.apply(&key, Some(o));
                self.cursor = Some(c);
                self.failures = 0;
            },
            Notification::Delete(k, c) => {
                self.store.apply(&k, None);
                self.cursor = Some(c);
                self.failures = 0;
            },
            Notification::Bookmark(c) => {
                self.cursor = Some(c);
                self.failures = 0;
            },
            Notification::Expired => {
                self.cursor = None;
                self.phase = Phase::Bootstrapping;
            },
        }
    }

    /// The watch subscription ended for a transient reason (connection
    /// reset, timeout): back off, keeping the last good cursor.
    pub fn on_watch_closed(&mut self)
        requires
            old(self).wf(),
            old(self)@.phase is Watching,
        ensures
            final(self).wf(),
            final(self)@ == step_failure(old(self)@),
    {
        self.bump_failure();
    }

    /// The backoff delay has elapsed: retry the step that failed.
    pub fn on_backoff_elapsed(&mut self)
        requires
            old(self).wf(),
            old(self)@.phase is BackingOff,
        ensures
            final(self).wf(),
            final(self)@ == step_backoff_elapsed(old(self)@),
    {
        match &self.cursor {
            Some(_) => {
                self.phase = Phase::Watching;
            },
            None => {
                self.phase = Phase::Bootstrapping;
            },
        }
    }

    /// Count one more consecutive failure and back off, or terminate when
    /// the fail-fast policy's retry budget is exhausted.
    fn bump_failure(&mut self)
        requires
            old(self).wf(),
        ensures
            final(self).wf(),
            final(self)@ == step_failure(old(self)@),
    {
        if self.failures < u32::MAX {
            self.failures = self.failures + 1;
        }
        if self.fail_fast && self.failures >= self.max_failures {
            self.phase = Phase::Terminated;
        } else {
            self.phase = Phase::BackingOff;
        }
    }

    /// The phase the machine is in.
    pub fn current_phase(&self) -> (p: Phase)
        ensures
            p == self@.phase,
    {
        self.phase
    }

    /// Readiness flag for the query facade: whether at least one bootstrap
    /// list has completed. The store itself simply starts empty and fills
    /// in, so gating traffic on this flag is the facade's choice.
    pub fn is_ready(&self) -> (r: bool)
        ensures
            r == self@.ready,
    {
        self.ready
    }

    /// The configured scope, for the driving task's list and watch calls.
    pub fn scope(&self) -> (s: &Scope)
        ensures
            s@ == self@.scope,
    {
        &self.scope
    }

    /// The current record for `key`, straight from the store's snapshot.
    pub fn get_object(&self, key: &ObjectRef) -> (r: Option<RemoteObject>)
        requires
            self.wf(),
        ensures
            match r {
                Some(o) => self@.store.contains_key(key@) && o@ == self@.store[key@],
                None => !self@.store.contains_key(key@),
            },
    {
        self.store.get(key)
    }

    /// A consistent enumeration of all current records, in no defined order.
    pub fn list_objects(&self) -> (r: Vec<RemoteObject>)
        requires
            self.wf(),
        ensures
            forall|i: int|
                0 <= i < r@.len() ==> self@.store.contains_key(#[trigger] r@[i]@.key())
                    && self@.store[r@[i]@.key()] == r@[i]@,
            forall|k: ObjectRefView|
                self@.store.contains_key(k) ==> exists|i: int|
                    0 <= i < r@.len() && r@[i]@.key() == k,
            forall|i: int, j: int| 0 <= i < j < r@.len() ==> r@[i]@.key() != r@[j]@.key(),
    {
        self.store.list()
    }

    /// Projected point lookup against the current snapshot: nothing when the
    /// key is absent or its record does not project — indistinguishable by
    /// design.
    pub fn get_entry(&self, namespace: String, name: String) -> (r: Option<Entry>)
        requires
            self.wf(),
        ensures
            r.deep_view() == entry_for(
                self@.store,
                (ObjectRefView { namespace: namespace@, name: name@ }),
            ),
    {
        self.store.get_entry(namespace, name)
    }

    /// All currently present, successfully projected entries, in no defined
    /// order.
    pub fn list_entries(&self) -> (r: Vec<Entry>)
        requires
            self.wf(),
        ensures
            forall|i: int|
                0 <= i < r@.len() ==> entry_for(self@.store, #[trigger] r@[i]@.key()) == Some(
                    r@[i]@,
                ),
            forall|k: ObjectRefView|
                self@.store.contains_key(k) && project_view(self@.store[k]) is Some ==> exists|
                    i: int,
                |
                    0 <= i < r@.len() && r@[i]@.key() == k,
            forall|i: int, j: int| 0 <= i < j < r@.len() ==> r@[i]@.key() != r@[j]@.key(),
    {
        self.store.list_entries()
    }

    /// A well-formed watching mirror always holds a cursor to resume from.
    pub proof fn lemma_watching_holds_cursor(&self)
        requires
            self.wf(),
        ensures
            self@.phase is Watching ==> self@.cursor is Some,
    {
    }
}

} // verus!
