//! The life of a mount session, from a successful mount to the release of its
//! resources.
//!
//! A session serves callbacks until the shutdown trigger is pulled.  From then
//! on it takes no new callback, asks the operating system to unmount, waits
//! for the callbacks still running, and releases its resources.  The trigger
//! may be pulled again at any time, to no effect.
//!
//! The session is a state machine: whoever drives it reports what happened as
//! an [`Event`] and is told what to do as an [`Action`].

use crate::errors::AsyncFilesystemError;
use vstd::prelude::*;

verus! {

/// Where a session stands.
#[derive(Clone, Copy, Debug, PartialEq, Eq, Structural)]
pub enum Phase {
    /// Mounted and taking callbacks.
    Serving,
    /// The trigger was pulled and the unmount asked for; not yet confirmed.
    Unmounting,
    /// No longer mounted; callbacks that were running are still finishing.
    Draining,
    /// Unmounted, idle, and released.
    Stopped,
}

/// What happened.
#[derive(Clone, Copy, Debug, PartialEq, Eq, Structural)]
pub enum Event {
    /// The kernel sent a request.
    Callback,
    /// A callback that was dispatched has replied.
    Completed,
    /// The shutdown trigger was pulled.
    Trigger,
    /// The operating system has unmounted the filesystem.
    Unmounted,
}

/// What to do about it.
#[derive(Clone, Copy, Debug, PartialEq, Eq, Structural)]
pub enum Action {
    /// Hand the request to the adapter.
    Dispatch,
    /// Answer the request with a failure: the session no longer serves.
    Refuse,
    /// Ask the operating system to unmount.
    Unmount,
    /// Release the session's resources and let the serving task complete.
    Release,
    /// Nothing.
    Nothing,
}

/// The state of a mount session.
#[derive(Clone, Copy, Debug, PartialEq, Eq, Structural)]
pub struct MountSession {
    /// Where the session stands.
    pub phase: Phase,
    /// The number of callbacks that were dispatched and have not replied yet.
    pub in_flight: u64,
}

impl MountSession {
    /// The state after `event`, and what to do.
    pub open spec fn next(self, event: Event) -> (MountSession, Action) {
        match (self.phase, event) {
            (Phase::Serving, Event::Callback) => if self.in_flight < u64::MAX {
                (
                    MountSession { phase: Phase::Serving, in_flight: (self.in_flight + 1) as u64 },
                    Action::Dispatch,
                )
            } else {
                (self, Action::Refuse)
            },
            (_, Event::Callback) => (self, Action::Refuse),
            (Phase::Serving, Event::Trigger) => (
                MountSession { phase: Phase::Unmounting, in_flight: self.in_flight },
                Action::Unmount,
            ),
            (_, Event::Trigger) => (self, Action::Nothing),
            (Phase::Stopped, _) => (self, Action::Nothing),
            (Phase::Draining, Event::Unmounted) => (self, Action::Nothing),
            (_, Event::Unmounted) => if self.in_flight == 0 {
                (MountSession { phase: Phase::Stopped, in_flight: 0 }, Action::Release)
            } else {
                (MountSession { phase: Phase::Draining, in_flight: self.in_flight }, Action::Nothing)
            },
            (_, Event::Completed) => if self.in_flight == 0 {
                (self, Action::Nothing)
            } else if self.phase == Phase::Draining && self.in_flight == 1 {
                (MountSession { phase: Phase::Stopped, in_flight: 0 }, Action::Release)
            } else {
                (
                    MountSession { phase: self.phase, in_flight: (self.in_flight - 1) as u64 },
                    Action::Nothing,
                )
            },
        }
    }

    /// Whether the filesystem is still mounted.
    pub open spec fn mounted(self) -> bool {
        self.phase == Phase::Serving || self.phase == Phase::Unmounting
    }

    /// How far the session has come: a phase is never followed by an earlier
    /// one.
    pub open spec fn progress(self) -> nat {
        match self.phase {
            Phase::Serving => 0,
            Phase::Unmounting => 1,
            Phase::Draining => 2,
            Phase::Stopped => 3,
        }
    }

    /// The state after each event of `events` in turn.
    pub open spec fn run(self, events: Seq<Event>) -> MountSession
        decreases events.len(),
    {
        if events.len() == 0 {
            self
        } else {
            self.run(events.drop_last()).next(events.last()).0
        }
    }

    /// The actions that the events of `events` call for, one for each.
    pub open spec fn actions(self, events: Seq<Event>) -> Seq<Action>
        decreases events.len(),
    {
        if events.len() == 0 {
            Seq::empty()
        } else {
            self.actions(events.drop_last()).push(
                self.run(events.drop_last()).next(events.last()).1,
            )
        }
    }

    /// A session that was just mounted: serving, with no callback running.
    pub fn new() -> (session: MountSession)
        ensures
            session == (MountSession { phase: Phase::Serving, in_flight: 0 }),
    {
        MountSession { phase: Phase::Serving, in_flight: 0 }
    }

    /// Whether the filesystem is still mounted.
    pub fn is_mounted(&self) -> (mounted: bool)
        ensures
            mounted == self.mounted(),
    {
        match self.phase {
            Phase::Serving => true,
            Phase::Unmounting => true,
            Phase::Draining => false,
            Phase::Stopped => false,
        }
    }

    /// Takes note of `event` and says what to do.
    pub fn step(&mut self, event: Event) -> (action: Action)
        ensures
            (*final(self), action) == old(self).next(event),
    {
        match event {
            Event::Callback => {
                match self.phase {
                    Phase::Serving => {
                        if self.in_flight < u64::MAX {
                            self.in_flight = self.in_flight + 1;
                            Action::Dispatch
                        } else {
                            Action::Refuse
                        }
                    },
                    _ => Action::Refuse,
                }
            },
            Event::Trigger => {
                match self.phase {
                    Phase::Serving => {
                        self.phase = Phase::Unmounting;
                        Action::Unmount
                    },
                    _ => Action::Nothing,
                }
            },
            Event::Unmounted => {
                match self.phase {
                    Phase::Stopped => Action::Nothing,
                    Phase::Draining => Action::Nothing,
                    _ => {
                        if self.in_flight == 0 {
                            self.phase = Phase::Stopped;
                            Action::Release
                        } else {
                            self.phase = Phase::Draining;
                            Action::Nothing
                        }
                    },
                }
            },
            Event::Completed => {
                match self.phase {
                    Phase::Stopped => Action::Nothing,
                    Phase::Draining => {
                        if self.in_flight == 0 {
                            Action::Nothing
                        } else if self.in_flight == 1 {
                            self.phase = Phase::Stopped;
                            self.in_flight = 0;
                            Action::Release
                        } else {
                            self.in_flight = self.in_flight - 1;
                            Action::Nothing
                        }
                    },
                    _ => {
                        if self.in_flight > 0 {
                            self.in_flight = self.in_flight - 1;
                        }
                        Action::Nothing
                    },
                }
            },
        }
    }
}

/// Starts a session on the outcome of the operating system's mount.
///
/// A mount that succeeded gives its handle back together with a fresh
/// session; one that the system refused gives the system's error as a
/// [`AsyncFilesystemError::MountError`].
pub fn spawn_mount<T>(mounted: Result<T, std::io::Error>) -> (started: Result<
    (T, MountSession),
    AsyncFilesystemError,
>)
    ensures
        mounted matches Ok(handle) ==> started == Ok::<(T, MountSession), AsyncFilesystemError>(
            (handle, MountSession { phase: Phase::Serving, in_flight: 0 }),
        ),
        mounted matches Err(e) ==> started == Err::<(T, MountSession), AsyncFilesystemError>(
            AsyncFilesystemError::MountError(e),
        ),
{
    match mounted {
        Ok(handle) => Ok((handle, MountSession::new())),
        Err(e) => Err(AsyncFilesystemError::MountError(e)),
    }
}

/// How often `action` occurs in `actions`.
pub open spec fn occurrences(actions: Seq<Action>, action: Action) -> nat
    decreases actions.len(),
{
    if actions.len() == 0 {
        0
    } else {
        occurrences(actions.drop_last(), action) + if actions.last() == action {
            1nat
        } else {
            0nat
        }
    }
}

/// Shutdown is idempotent: pulling the trigger a second time changes nothing
/// and calls for nothing, whatever state the session is in.
pub proof fn lemma_trigger_twice(session: MountSession)
    ensures
        session.next(Event::Trigger).0.next(Event::Trigger) == (
            session.next(Event::Trigger).0,
            Action::Nothing,
        ),
        session.next(Event::Trigger).0.phase != Phase::Serving,
{
}

/// Once the trigger was pulled no callback is dispatched any more.
pub proof fn lemma_no_dispatch_after_trigger(session: MountSession)
    requires
        session.phase != Phase::Serving,
    ensures
        session.next(Event::Callback) == (session, Action::Refuse),
{
}

/// A session only moves forward, and a callback counts as running only from
/// its dispatch to its completion.
pub proof fn lemma_next_moves_forward(session: MountSession, event: Event)
    ensures
        session.progress() <= session.next(event).0.progress(),
        !session.mounted() ==> !session.next(event).0.mounted(),
        session.next(event).1 == Action::Dispatch ==> session.phase == Phase::Serving
            && session.next(event).0.in_flight == session.in_flight + 1,
        event != Event::Callback ==> session.next(event).0.in_flight <= session.in_flight,
{
}

/// The session's resources are released only when it is unmounted and no
/// callback is running, and a session that has stopped stays as it is.
pub proof fn lemma_release_when_idle(session: MountSession, event: Event)
    ensures
        session.next(event).1 == Action::Release ==> session.phase != Phase::Stopped
            && session.next(event).0 == (MountSession { phase: Phase::Stopped, in_flight: 0 }),
        session.phase == Phase::Stopped ==> session.next(event).0 == session && (session.next(
            event,
        ).1 == Action::Nothing || session.next(event).1 == Action::Refuse),
{
}

/// After the trigger was pulled and the operating system has confirmed the
/// unmount, the filesystem is not mounted, and no later event mounts it again.
pub proof fn lemma_unmounted_for_good(session: MountSession, later: Seq<Event>)
    ensures
        !session.next(Event::Trigger).0.next(Event::Unmounted).0.mounted(),
        !session.mounted() ==> !session.run(later).mounted(),
    decreases later.len(),
{
    if later.len() > 0 {
        lemma_unmounted_for_good(session, later.drop_last());
        lemma_next_moves_forward(session.run(later.drop_last()), later.last());
    }
}

/// Whatever happens and in whatever order, the operating system is asked to
/// unmount at most once and the resources are released at most once; after a
/// trigger or a release, never again.
pub proof fn lemma_at_most_once(session: MountSession, events: Seq<Event>)
    ensures
        session.actions(events).len() == events.len(),
        occurrences(session.actions(events), Action::Unmount) <= 1,
        occurrences(session.actions(events), Action::Release) <= 1,
        session.phase != Phase::Serving ==> occurrences(session.actions(events), Action::Unmount)
            == 0,
        session.phase == Phase::Stopped ==> occurrences(session.actions(events), Action::Release)
            == 0,
        occurrences(session.actions(events), Action::Unmount) == 1 ==> session.run(events).phase
            != Phase::Serving,
        occurrences(session.actions(events), Action::Release) == 1 ==> session.run(events).phase
            == Phase::Stopped,
    decreases events.len(),
{
    if events.len() > 0 {
        let front = events.drop_last();
        lemma_at_most_once(session, front);
        lemma_run_moves_forward(session, front);
        assert(session.actions(events).drop_last() =~= session.actions(front));
    }
}

/// A session only moves forward along any run of events.
pub proof fn lemma_run_moves_forward(session: MountSession, events: Seq<Event>)
    ensures
        session.progress() <= session.run(events).progress(),
    decreases events.len(),
{
    if events.len() > 0 {
        lemma_run_moves_forward(session, events.drop_last());
        lemma_next_moves_forward(session.run(events.drop_last()), events.last());
    }
}

/// `n` callbacks replying, one after the other.
pub open spec fn completions(n: nat) -> Seq<Event> {
    Seq::new(n, |i: int| Event::Completed)
}

/// A session that is unmounted and waits for `n` callbacks still waits for
/// the rest after some of them have replied, and has released nothing yet.
pub proof fn lemma_draining_counts_down(session: MountSession, k: nat)
    requires
        session.phase == Phase::Draining,
        k < session.in_flight,
    ensures
        session.run(completions(k)) == (MountSession {
            phase: Phase::Draining,
            in_flight: (session.in_flight - k) as u64,
        }),
    decreases k,
{
    if k > 0 {
        lemma_draining_counts_down(session, (k - 1) as nat);
        assert(completions(k).drop_last() =~= completions((k - 1) as nat));
    }
}

/// Shutdown comes to its end: once the trigger was pulled and the operating
/// system has unmounted, the session stops as soon as the callbacks that were
/// running have replied, and the last of them to reply releases it.
pub proof fn lemma_shutdown_completes(session: MountSession)
    requires
        session.mounted(),
    ensures
        ({
            let unmounted = session.next(Event::Trigger).0.next(Event::Unmounted).0;
            let waiting = unmounted.in_flight as nat;
            &&& unmounted.in_flight == session.in_flight
            &&& unmounted.run(completions(waiting)) == (MountSession {
                phase: Phase::Stopped,
                in_flight: 0,
            })
            &&& waiting > 0 ==> unmounted.actions(completions(waiting)).last() == Action::Release
            &&& waiting == 0 ==> session.next(Event::Trigger).0.next(Event::Unmounted).1
                == Action::Release
        }),
{
    let unmounted = session.next(Event::Trigger).0.next(Event::Unmounted).0;
    let waiting = unmounted.in_flight as nat;
    if waiting > 0 {
        lemma_draining_counts_down(unmounted, (waiting - 1) as nat);
        assert(completions(waiting).drop_last() =~= completions((waiting - 1) as nat));
        assert(completions(waiting).last() == Event::Completed);
    }
}

} // verus!
