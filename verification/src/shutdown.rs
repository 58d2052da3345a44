//! The process lifecycle: how interrupts, the end of the transport and the end
//! of the store actor move the process from serving to its exit.

use vstd::prelude::*;

verus! {

/// Milliseconds the transport keeps serving in-flight requests after the exit
/// flag is raised.
pub const GRACE_PERIOD_MILLIS: u64 = 200;

/// Where the process stands.
#[derive(Clone, Copy, Debug, PartialEq, Eq, Structural)]
pub enum Lifecycle {
    /// Serving requests.
    Running,
    /// Interrupted once: the transport takes no new connections and drains.
    Draining,
    /// The transport is done; the store actor was told to exit and is awaited.
    StoppingStorage,
    /// The store actor closed cleanly.
    Terminated,
    /// Interrupted again while shutting down: nothing more is awaited.
    ForcedExit,
    /// The transport or the store actor ended with an error.
    Failed,
}

/// What the process observes.
#[derive(Clone, Copy, Debug, PartialEq, Eq, Structural)]
pub enum Signal {
    /// An external interrupt arrived.
    Interrupt,
    /// The transport returned; `clean` is false when it returned an error.
    TransportFinished { clean: bool },
    /// The store actor ended; `clean` is false when closing the store failed.
    ActorStopped { clean: bool },
}

/// How the process ends.
#[derive(Clone, Copy, Debug, PartialEq, Eq, Structural)]
pub enum Outcome {
    /// Every phase completed.
    Clean,
    /// A repeated interrupt cut the shutdown short; pending writes may be lost.
    Forced,
    /// A fatal error is the result of the run.
    Failed,
}

/// What the process does in answer to a signal.
#[derive(Clone, Copy, Debug, PartialEq, Eq, Structural)]
pub enum Directive {
    /// Nothing changes; keep waiting.
    Continue,
    /// Raise the exit flag that the transport watches.
    RaiseExitFlag,
    /// Enqueue the exit command for the store actor and await its end.
    StopStorage,
    /// Leave with the given outcome.
    Exit(Outcome),
}

/// The coordinator as a value: its phase and the exit flag.
pub struct CoordinatorState {
    pub phase: Lifecycle,
    pub exit_flag: bool,
}

impl CoordinatorState {
    /// A process that has just begun to serve.
    pub open spec fn initial() -> CoordinatorState {
        CoordinatorState { phase: Lifecycle::Running, exit_flag: false }
    }

    /// No signal moves the process any further.
    pub open spec fn is_final(self) -> bool {
        self.phase is Terminated || self.phase is ForcedExit || self.phase is Failed
    }

    /// The phase that follows `signal`. A signal that the phase does not wait
    /// for leaves it as it is.
    pub open spec fn next_phase(self, signal: Signal) -> Lifecycle {
        match (self.phase, signal) {
            (Lifecycle::Running, Signal::Interrupt) => Lifecycle::Draining,
            (Lifecycle::Running, Signal::TransportFinished { clean }) => if clean {
                Lifecycle::StoppingStorage
            } else {
                Lifecycle::Failed
            },
            (Lifecycle::Draining, Signal::Interrupt) => Lifecycle::ForcedExit,
            (Lifecycle::Draining, Signal::TransportFinished { clean }) => if clean {
                Lifecycle::StoppingStorage
            } else {
                Lifecycle::Failed
            },
            (Lifecycle::StoppingStorage, Signal::Interrupt) => Lifecycle::ForcedExit,
            (Lifecycle::StoppingStorage, Signal::ActorStopped { clean }) => if clean {
                Lifecycle::Terminated
            } else {
                Lifecycle::Failed
            },
            _ => self.phase,
        }
    }

    /// The state that follows `signal`: the exit flag is raised by the first
    /// interrupt of a running process and by nothing else.
    pub open spec fn next(self, signal: Signal) -> CoordinatorState {
        CoordinatorState {
            phase: self.next_phase(signal),
            exit_flag: self.exit_flag || (self.phase is Running && signal is Interrupt),
        }
    }

    /// What the process does when `signal` arrives.
    pub open spec fn directive(self, signal: Signal) -> Directive {
        if self.next_phase(signal) == self.phase {
            Directive::Continue
        } else {
            match self.next_phase(signal) {
                Lifecycle::Running => Directive::Continue,
                Lifecycle::Draining => Directive::RaiseExitFlag,
                Lifecycle::StoppingStorage => Directive::StopStorage,
                Lifecycle::Terminated => Directive::Exit(Outcome::Clean),
                Lifecycle::ForcedExit => Directive::Exit(Outcome::Forced),
                Lifecycle::Failed => Directive::Exit(Outcome::Failed),
            }
        }
    }

    /// The state after a whole sequence of signals.
    pub open spec fn after(self, signals: Seq<Signal>) -> CoordinatorState
        decreases signals.len(),
    {
        if signals.len() == 0 {
            self
        } else {
            self.after(signals.drop_last()).next(signals.last())
        }
    }

    /// How often the exit flag is raised over a sequence of signals.
    pub open spec fn flag_raises(self, signals: Seq<Signal>) -> nat
        decreases signals.len(),
    {
        if signals.len() == 0 {
            0
        } else {
            let before = self.after(signals.drop_last());
            let raised: nat = if before.directive(signals.last()) == Directive::RaiseExitFlag {
                1
            } else {
                0
            };
            self.flag_raises(signals.drop_last()) + raised
        }
    }
}

/// The shutdown coordinator.
pub struct Coordinator {
    phase: Lifecycle,
    exit_flag: bool,
}

impl View for Coordinator {
    type V = CoordinatorState;

    closed spec fn view(&self) -> CoordinatorState {
        CoordinatorState { phase: self.phase, exit_flag: self.exit_flag }
    }
}

impl Coordinator {
    /// A coordinator for a process that starts to serve.
    pub fn new() -> (coordinator: Coordinator)
        ensures
            coordinator@ == CoordinatorState::initial(),
    {
        Coordinator { phase: Lifecycle::Running, exit_flag: false }
    }

    /// The current phase.
    pub fn phase(&self) -> (phase: Lifecycle)
        ensures
            phase == self@.phase,
    {
        self.phase
    }

    /// Whether the exit flag has been raised.
    pub fn exit_flag(&self) -> (raised: bool)
        ensures
            raised == self@.exit_flag,
    {
        self.exit_flag
    }

    /// Whether the process has reached one of its end states.
    pub fn is_final(&self) -> (done: bool)
        ensures
            done == self@.is_final(),
    {
        match self.phase {
            Lifecycle::Terminated | Lifecycle::ForcedExit | Lifecycle::Failed => true,
            _ => false,
        }
    }

    /// Takes one signal: moves to the next state and says what to do.
    pub fn step(&mut self, signal: Signal) -> (directive: Directive)
        ensures
            final(self)@ == old(self)@.next(signal),
            directive == old(self)@.directive(signal),
    {
        match (self.phase, signal) {
            (Lifecycle::Running, Signal::Interrupt) => {
                self.phase = Lifecycle::Draining;
                self.exit_flag = true;
                Directive::RaiseExitFlag
            },
            (Lifecycle::Running, Signal::TransportFinished { clean })
            | (Lifecycle::Draining, Signal::TransportFinished { clean }) => {
                if clean {
                    self.phase = Lifecycle::StoppingStorage;
                    Directive::StopStorage
                } else {
                    self.phase = Lifecycle::Failed;
                    Directive::Exit(Outcome::Failed)
                }
            },
            (Lifecycle::Draining, Signal::Interrupt)
            | (Lifecycle::StoppingStorage, Signal::Interrupt) => {
                self.phase = Lifecycle::ForcedExit;
                Directive::Exit(Outcome::Forced)
            },
            (Lifecycle::StoppingStorage, Signal::ActorStopped { clean }) => {
                if clean {
                    self.phase = Lifecycle::Terminated;
                    Directive::Exit(Outcome::Clean)
                } else {
                    self.phase = Lifecycle::Failed;
                    Directive::Exit(Outcome::Failed)
                }
            },
            _ => Directive::Continue,
        }
    }
}

/// Once raised, the exit flag stays raised, and it is never up while the
/// process is still running.
pub proof fn lemma_exit_flag_monotone(state: CoordinatorState, signal: Signal)
    requires
        state.phase is Running ==> !state.exit_flag,
    ensures
        state.exit_flag ==> state.next(signal).exit_flag,
        state.next(signal).phase is Running ==> !state.next(signal).exit_flag,
        state.directive(signal) == Directive::RaiseExitFlag <==> !state.exit_flag && state.next(
            signal,
        ).exit_flag,
{
}

/// An end state absorbs every signal.
pub proof fn lemma_final_absorbs(state: CoordinatorState, signal: Signal)
    requires
        state.is_final(),
    ensures
        state.next(signal) == state,
        state.directive(signal) == Directive::Continue,
{
}

/// Over any run from the start the exit flag is raised at most once, and it is
/// up exactly when it was raised.
pub proof fn lemma_exit_flag_raised_once(signals: Seq<Signal>)
    ensures
        CoordinatorState::initial().flag_raises(signals) <= 1,
        CoordinatorState::initial().after(signals).exit_flag
            <==> CoordinatorState::initial().flag_raises(signals) == 1,
        CoordinatorState::initial().after(signals).phase is Running
            ==> !CoordinatorState::initial().after(signals).exit_flag,
    decreases signals.len(),
{
    if signals.len() > 0 {
        lemma_exit_flag_raised_once(signals.drop_last());
        lemma_exit_flag_monotone(
            CoordinatorState::initial().after(signals.drop_last()),
            signals.last(),
        );
    }
}

/// The first interrupt starts the drain; a second one, while the transport
/// drains or the store actor is awaited, ends the process at once.
pub proof fn lemma_second_interrupt_forces_exit(state: CoordinatorState)
    requires
        state.phase is Draining || state.phase is StoppingStorage,
    ensures
        CoordinatorState::initial().next(Signal::Interrupt).phase is Draining,
        CoordinatorState::initial().directive(Signal::Interrupt) == Directive::RaiseExitFlag,
        state.next(Signal::Interrupt).phase is ForcedExit,
        state.directive(Signal::Interrupt) == Directive::Exit(Outcome::Forced),
{
}

/// A clean end is reached only from the awaited store actor closing cleanly,
/// and the store actor is stopped only once the transport has returned cleanly.
pub proof fn lemma_clean_exit_needs_clean_close(state: CoordinatorState, signal: Signal)
    ensures
        state.directive(signal) == Directive::Exit(Outcome::Clean) <==> state.phase
            is StoppingStorage && signal == (Signal::ActorStopped { clean: true }),
        state.directive(signal) == Directive::StopStorage <==> (state.phase is Running
            || state.phase is Draining) && signal == (Signal::TransportFinished { clean: true }),
        state.directive(signal) == Directive::Exit(Outcome::Failed) <==> ((state.phase is Running
            || state.phase is Draining) && signal == (Signal::TransportFinished { clean: false }))
            || (state.phase is StoppingStorage && signal == (Signal::ActorStopped {
            clean: false,
        })),
{
}

} // verus!
