//! The shutdown signal and the decisions of the accept and handler loops.
//! The loops themselves (waiting, spawning, sleeping) run outside the library
//! and report each outcome here.

use vstd::prelude::*;
use crate::queue::{after_pop, after_push, ConnQueue};

verus! {

/// How long one accept waits for a connection, in milliseconds.
pub const ACCEPT_WAIT_MS: u64 = 1000;

/// How long the handler loop sleeps when the queue is empty, in milliseconds.
pub const IDLE_SLEEP_MS: u64 = 50;

/// How long one connection's handling may run before it is cancelled, in milliseconds.
pub const HANDLER_TIMEOUT_MS: u64 = 5000;

/// A flag that starts clear and, once set, stays set: there is no way to clear it.
pub struct ShutdownSignal {
    set: bool,
}

impl View for ShutdownSignal {
    type V = bool;

    closed spec fn view(&self) -> bool {
        self.set
    }
}

impl ShutdownSignal {
    pub fn new() -> (r: Self)
        ensures
            !r@,
    {
        ShutdownSignal { set: false }
    }

    pub fn trigger(&mut self)
        ensures
            final(self)@,
    {
        self.set = true;
    }

    pub fn is_set(&self) -> (r: bool)
        ensures
            r == self@,
    {
        self.set
    }
}

/// What one accept attempt gave.
pub enum AcceptEvent<T> {
    Accepted(T),
    TimedOut,
    Failed,
}

/// What the handler loop does on one pass.
pub enum HandlerAction<T> {
    /// The queue was empty: sleep `IDLE_SLEEP_MS`.
    Idle,
    /// Run this connection's pipeline in a task bounded by `HANDLER_TIMEOUT_MS`.
    Dispatch(T),
    /// The loop has stopped: cancel the running tasks and return.
    Finish,
}

#[derive(Debug, Clone, Copy, PartialEq, Eq, Structural)]
pub enum LoopControl {
    Continue,
    Stop,
}

/// Whether a loop has seen the shutdown signal.
pub struct LoopState {
    pub stopped: bool,
}

/// Stopped after a check of the signal: once stopped, always stopped.
pub open spec fn after_check(stopped: bool, signal: bool) -> bool {
    stopped || signal
}

/// The queue after an accept outcome: a new connection is added unless the
/// loop has stopped.
pub open spec fn accept_effect<T>(stopped: bool, q: Seq<T>, ev: AcceptEvent<T>) -> Seq<T> {
    match ev {
        AcceptEvent::Accepted(c) => if stopped {
            q
        } else {
            after_push(q, c)
        },
        _ => q,
    }
}

/// The handler's action on one pass and the queue left behind.
pub open spec fn handler_effect<T>(stopped: bool, q: Seq<T>) -> (HandlerAction<T>, Seq<T>) {
    if stopped {
        (HandlerAction::Finish, q)
    } else {
        match after_pop(q).0 {
            Some(c) => (HandlerAction::Dispatch(c), after_pop(q).1),
            None => (HandlerAction::Idle, q),
        }
    }
}

impl LoopState {
    pub fn new() -> (r: Self)
        ensures
            !r.stopped,
    {
        LoopState { stopped: false }
    }

    /// Handles one outcome of the accept loop's bounded wait.
    pub fn accept_step<T>(&self, queue: &mut ConnQueue<T>, ev: AcceptEvent<T>)
        ensures
            final(queue)@ == accept_effect(self.stopped, old(queue)@, ev),
    {
        match ev {
            AcceptEvent::Accepted(c) => {
                if !self.stopped {
                    queue.push(c);
                }
            },
            _ => {},
        }
    }

    /// Decides one pass of the handler loop, taking a connection if one waits.
    pub fn handler_step<T>(&self, queue: &mut ConnQueue<T>) -> (r: HandlerAction<T>)
        ensures
            (r, final(queue)@) == handler_effect(self.stopped, old(queue)@),
    {
        if self.stopped {
            return HandlerAction::Finish;
        }
        match queue.pop() {
            Some(c) => HandlerAction::Dispatch(c),
            None => HandlerAction::Idle,
        }
    }

    /// Reads the signal after a pass and says whether the loop goes on.
    pub fn check(&mut self, signal: &ShutdownSignal) -> (r: LoopControl)
        ensures
            final(self).stopped == after_check(old(self).stopped, signal@),
            r == (if final(self).stopped {
                LoopControl::Stop
            } else {
                LoopControl::Continue
            }),
    {
        if signal.is_set() {
            self.stopped = true;
        }
        if self.stopped {
            LoopControl::Stop
        } else {
            LoopControl::Continue
        }
    }
}

/// Once a loop has checked a set signal it stops, and from then on no
/// connection is added by the accept loop nor taken by the handler loop.
pub proof fn lemma_stop_is_final<T>(stopped: bool, q: Seq<T>, ev: AcceptEvent<T>, later: bool)
    ensures
        after_check(stopped, true),
        after_check(after_check(stopped, true), later),
        accept_effect(after_check(stopped, true), q, ev) == q,
        handler_effect(after_check(stopped, true), q) == (HandlerAction::<T>::Finish, q),
{
}

} // verus!
