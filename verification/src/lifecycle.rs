//! The lifecycle of the process: the two barriers, the main task's view
//! of the control bus, and the signal watcher.
//!
//! Every worker that needs settings waits on the startup barrier; the
//! main task waits last and then broadcasts the first `Reconfigure`. Every
//! worker that has drained waits on the shutdown barrier, and so does the
//! main task, once for itself and once for each task that has ended
//! without waiting.
//!
//! The signal watcher turns the first interrupt into a `Shutdown` and the
//! second into a forced exit, and a hangup into a reload of the settings.
//! A hangup that arrives before the first settings are out is held, and
//! leads to one reload once they are.

use crate::control::ControlSignal;
use crate::settings::Settings;
use vstd::prelude::*;

verus! {

/// The long-lived tasks: logger, interrupt watcher, hangup watcher, hub,
/// resolver, and the main task.
pub const THREAD_COUNT: usize = 6;

/// Exit code of a clean shutdown.
pub const EXIT_CLEAN: i32 = 0;

/// Exit code after a second interrupt.
pub const EXIT_FORCED: i32 = 1;

/// Tasks that meet at the startup barrier: all but the interrupt watcher.
pub fn startup_parties() -> (n: usize)
    ensures
        n == THREAD_COUNT - 1,
{
    THREAD_COUNT - 1
}

/// Tasks that meet at the shutdown barrier.
pub fn shutdown_parties() -> (n: usize)
    ensures
        n == THREAD_COUNT,
{
    THREAD_COUNT
}

/// Times that the main task waits on the shutdown barrier: once for each
/// of the `finished` tasks that have ended already, and once for itself
/// (at most `usize::MAX` times).
pub fn shutdown_waits(finished: usize) -> (n: usize)
    ensures
        n == if finished < usize::MAX {
            finished + 1
        } else {
            usize::MAX as int
        },
{
    if finished < usize::MAX {
        finished + 1
    } else {
        finished
    }
}

/// The main task's view of the control bus.
#[derive(Debug)]
pub struct MainLoop {
    pub shutdown: bool,
    pub settings: Settings,
}

impl MainLoop {
    /// The main task with the settings that it loaded.
    pub fn new(settings: Settings) -> (main: MainLoop)
        ensures
            !main.shutdown,
            main.settings == settings,
    {
        MainLoop { shutdown: false, settings }
    }

    /// Takes a signal: `Shutdown` ends the loop, `Reconfigure` replaces
    /// the settings.
    pub fn on_control(&mut self, signal: ControlSignal)
        ensures
            match signal {
                ControlSignal::Shutdown => final(self).shutdown && final(self).settings == old(
                    self,
                ).settings,
                ControlSignal::Reconfigure(new_settings) => {
                    &&& final(self).shutdown == old(self).shutdown
                    &&& final(self).settings == new_settings
                },
            },
    {
        match signal {
            ControlSignal::Shutdown => {
                self.shutdown = true;
            },
            ControlSignal::Reconfigure(new_settings) => {
                self.settings = new_settings;
            },
        }
    }
}

/// What the signal watcher sees.
#[derive(Debug, Clone, Copy, PartialEq, Eq, Structural)]
pub enum SignalEvent {
    /// The first settings have been broadcast.
    Started,
    /// SIGINT.
    Interrupt,
    /// SIGHUP.
    Hangup,
    /// `Shutdown` on the control bus.
    Shutdown,
}

/// What the signal watcher does.
#[derive(Debug, Clone, Copy, PartialEq, Eq, Structural)]
pub enum SignalAction {
    /// Nothing.
    Ignore,
    /// Broadcast `Shutdown`.
    BroadcastShutdown,
    /// Load the settings and broadcast them as `Reconfigure`.
    Reload,
    /// Exit with `EXIT_FORCED`.
    ForceExit,
}

/// The signal watcher's state.
#[derive(Debug, Clone, Copy, PartialEq, Eq, Structural)]
pub struct SignalWatcher {
    /// Whether the first settings are out.
    pub started: bool,
    /// Whether a hangup waits for the start.
    pub pending_reload: bool,
    /// Whether an interrupt has been seen.
    pub interrupted: bool,
    /// Whether `Shutdown` has been seen on the control bus.
    pub shutdown: bool,
}

/// The state that `event` leads to from `state`.
pub open spec fn next_state(state: SignalWatcher, event: SignalEvent) -> SignalWatcher {
    match event {
        SignalEvent::Started => SignalWatcher { started: true, pending_reload: false, ..state },
        SignalEvent::Interrupt => SignalWatcher { interrupted: true, ..state },
        SignalEvent::Hangup => if state.started || state.shutdown {
            state
        } else {
            SignalWatcher { pending_reload: true, ..state }
        },
        SignalEvent::Shutdown => SignalWatcher { shutdown: true, pending_reload: false, ..state },
    }
}

/// What the watcher does on `event` in `state`.
pub open spec fn action_for(state: SignalWatcher, event: SignalEvent) -> SignalAction {
    match event {
        SignalEvent::Started => if state.pending_reload && !state.started && !state.shutdown {
            SignalAction::Reload
        } else {
            SignalAction::Ignore
        },
        SignalEvent::Interrupt => if state.interrupted {
            SignalAction::ForceExit
        } else {
            SignalAction::BroadcastShutdown
        },
        SignalEvent::Hangup => if state.started && !state.shutdown {
            SignalAction::Reload
        } else {
            SignalAction::Ignore
        },
        SignalEvent::Shutdown => SignalAction::Ignore,
    }
}

/// Number of reloads that the watcher performs over `events`, from
/// `state` on.
pub open spec fn reloads(state: SignalWatcher, events: Seq<SignalEvent>) -> nat
    decreases events.len(),
{
    if events.len() == 0 {
        0
    } else {
        let rest = reloads(next_state(state, events[0]), events.skip(1));
        if action_for(state, events[0]) == SignalAction::Reload {
            1 + rest
        } else {
            rest
        }
    }
}

/// The state after `events`, from `state` on.
pub open spec fn state_after(state: SignalWatcher, events: Seq<SignalEvent>) -> SignalWatcher
    decreases events.len(),
{
    if events.len() == 0 {
        state
    } else {
        state_after(next_state(state, events[0]), events.skip(1))
    }
}

/// The watcher before anything has happened.
pub open spec fn initial_watcher() -> SignalWatcher {
    SignalWatcher { started: false, pending_reload: false, interrupted: false, shutdown: false }
}

/// Hangups before the start lead to no reload while they arrive.
pub proof fn lemma_hangups_are_held(state: SignalWatcher, hangups: Seq<SignalEvent>)
    requires
        !state.started,
        forall|i: int| 0 <= i < hangups.len() ==> hangups[i] == SignalEvent::Hangup,
    ensures
        reloads(state, hangups) == 0,
        state_after(state, hangups) == if hangups.len() > 0 && !state.shutdown {
            SignalWatcher { pending_reload: true, ..state }
        } else {
            state
        },
    decreases hangups.len(),
{
    if hangups.len() > 0 {
        let rest = hangups.skip(1);
        assert forall|i: int| 0 <= i < rest.len() implies rest[i] == SignalEvent::Hangup by {
            assert(rest[i] == hangups[i + 1]);
        }
        assert(hangups[0] == SignalEvent::Hangup);
        lemma_hangups_are_held(next_state(state, SignalEvent::Hangup), rest);
    }
}

/// The reloads over two runs of events are those over the first and those
/// over the second from where the first ends.
pub proof fn lemma_reloads_concat(state: SignalWatcher, a: Seq<SignalEvent>, b: Seq<SignalEvent>)
    ensures
        reloads(state, a + b) == reloads(state, a) + reloads(state_after(state, a), b),
        state_after(state, a + b) == state_after(state_after(state, a), b),
    decreases a.len(),
{
    if a.len() == 0 {
        assert(a + b =~= b);
    } else {
        assert((a + b)[0] == a[0]);
        assert((a + b).skip(1) =~= a.skip(1) + b);
        lemma_reloads_concat(next_state(state, a[0]), a.skip(1), b);
    }
}

/// However many hangups arrive before the start, one at least, the start
/// leads to exactly one reload, and none is held any more.
pub proof fn lemma_early_hangup_applied_once(hangups: Seq<SignalEvent>)
    requires
        hangups.len() > 0,
        forall|i: int| 0 <= i < hangups.len() ==> hangups[i] == SignalEvent::Hangup,
    ensures
        reloads(initial_watcher(), hangups + seq![SignalEvent::Started]) == 1,
        !state_after(initial_watcher(), hangups + seq![SignalEvent::Started]).pending_reload,
{
    let start = seq![SignalEvent::Started];
    lemma_hangups_are_held(initial_watcher(), hangups);
    lemma_reloads_concat(initial_watcher(), hangups, start);
    let held = state_after(initial_watcher(), hangups);
    assert(start[0] == SignalEvent::Started);
    assert(start.skip(1) =~= Seq::<SignalEvent>::empty());
    assert(reloads(next_state(held, SignalEvent::Started), start.skip(1)) == 0);
    assert(state_after(next_state(held, SignalEvent::Started), start.skip(1)) == next_state(
        held,
        SignalEvent::Started,
    ));
}

impl SignalWatcher {
    /// The watcher before anything has happened.
    pub fn new() -> (watcher: SignalWatcher)
        ensures
            watcher == initial_watcher(),
    {
        SignalWatcher { started: false, pending_reload: false, interrupted: false, shutdown: false }
    }

    /// Whether the watcher goes on.
    pub fn running(&self) -> (r: bool)
        ensures
            r == !self.shutdown,
    {
        !self.shutdown
    }

    /// The watcher's step.
    pub fn step(&mut self, event: SignalEvent) -> (action: SignalAction)
        ensures
            action == action_for(*old(self), event),
            *final(self) == next_state(*old(self), event),
    {
        match event {
            SignalEvent::Started => {
                let action = if self.pending_reload && !self.started && !self.shutdown {
                    SignalAction::Reload
                } else {
                    SignalAction::Ignore
                };
                self.started = true;
                self.pending_reload = false;
                action
            },
            SignalEvent::Interrupt => {
                let action = if self.interrupted {
                    SignalAction::ForceExit
                } else {
                    SignalAction::BroadcastShutdown
                };
                self.interrupted = true;
                action
            },
            SignalEvent::Hangup => {
                if self.shutdown {
                    SignalAction::Ignore
                } else if self.started {
                    SignalAction::Reload
                } else {
                    self.pending_reload = true;
                    SignalAction::Ignore
                }
            },
            SignalEvent::Shutdown => {
                self.shutdown = true;
                self.pending_reload = false;
                SignalAction::Ignore
            },
        }
    }
}

} // verus!
