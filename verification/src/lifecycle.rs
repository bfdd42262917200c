//! The life of a single proof request.
//!
//! A request walks through a fixed series of steps: an optional look at the
//! cost of the circuit, a sanity check of the constraints, the setup
//! parameters, the keys, the proof, and its verification.  The work of each
//! step is done elsewhere.  Decided here is which step comes next and what
//! its result does to the request.

use vstd::prelude::*;
use crate::circuit::K;

verus! {

/// Why a request was stopped before its proof was verified.
#[derive(Clone, Copy, Debug, PartialEq, Eq, Structural)]
pub enum Halt {
    /// The sanity check found this many violated constraints.
    ConstraintsViolated { violations: usize },
    /// The proving backend failed at the step that was under way.
    BackendFault,
    /// A result arrived that the step under way does not produce.
    OutOfTurn,
}

/// How far a request has come.
#[derive(Clone, Copy, Debug, PartialEq, Eq, Structural)]
pub enum Lifecycle {
    /// The circuit is built and nothing else has happened.
    Built,
    /// The cost of the circuit has been reported.
    CostInspected,
    /// The witness satisfies every constraint against the derived instance.
    SanityChecked,
    /// The setup parameters exist.
    ParamsReady,
    /// The proving and the verifying key exist.
    Keyed,
    /// The proof exists.
    Proven,
    /// The proof was checked, and accepted or rejected.
    Verified { accepted: bool },
    /// The request was stopped.
    Halted { why: Halt },
}

/// The work that a request asks for next.
#[derive(Clone, Copy, Debug, PartialEq, Eq, Structural)]
pub enum Action {
    /// Report the size and the commitment cost of the circuit.
    InspectCost,
    /// Evaluate every constraint on the real witness and the derived instance
    /// and count the violations.
    CheckSanity,
    /// Generate setup parameters for a circuit of `2^k` rows.
    GenerateParams { k: u32 },
    /// Generate the keys from the circuit without its witness.
    GenerateKeys,
    /// Generate the proof from the real witness and the derived instance.
    Prove,
    /// Check the proof against the verifying key and the instance.
    Verify,
    /// Nothing: the request is over.
    Stop,
}

/// The result of a piece of work.
#[derive(Clone, Copy, Debug, PartialEq, Eq, Structural)]
pub enum Event {
    /// The cost was reported.
    CostReported,
    /// The sanity check ran and found this many violated constraints.
    SanityReported { violations: usize },
    /// The setup parameters were generated.
    ParamsGenerated,
    /// The keys were generated.
    KeysGenerated,
    /// The proof was generated.
    ProofGenerated,
    /// The verifier gave its answer.
    VerdictGiven { accepted: bool },
    /// The backend failed.
    BackendFailed,
}

/// What checking a proof came to.
#[derive(Clone, Copy, Debug, PartialEq, Eq, Structural)]
pub enum Verification {
    /// The proof holds for the instance.
    Accepted,
    /// The proof is well formed and does not hold for the instance.
    Rejected,
    /// The proof could not be read, or the verifier failed in another way.
    Malformed,
}

impl Event {
    /// The event that the outcome of a verification stands for.  A proof that
    /// does not hold is an answer like any other; only a proof that could not
    /// be checked at all counts as a failure of the backend.
    pub fn of_verification(outcome: Verification) -> (event: Event)
        ensures
            event == match outcome {
                Verification::Accepted => Event::VerdictGiven { accepted: true },
                Verification::Rejected => Event::VerdictGiven { accepted: false },
                Verification::Malformed => Event::BackendFailed,
            },
            (event is BackendFailed) == (outcome is Malformed),
    {
        match outcome {
            Verification::Accepted => Event::VerdictGiven { accepted: true },
            Verification::Rejected => Event::VerdictGiven { accepted: false },
            Verification::Malformed => Event::BackendFailed,
        }
    }
}

impl Lifecycle {
    /// The request is over: no event changes it any more.
    pub open spec fn is_over(self) -> bool {
        self is Verified || self is Halted
    }

    /// The number of the step that the request has reached.
    pub open spec fn rank(self) -> int {
        match self {
            Lifecycle::Built => 0,
            Lifecycle::CostInspected => 1,
            Lifecycle::SanityChecked => 2,
            Lifecycle::ParamsReady => 3,
            Lifecycle::Keyed => 4,
            Lifecycle::Proven => 5,
            Lifecycle::Verified { .. } => 6,
            Lifecycle::Halted { .. } => 7,
        }
    }

    /// The work that is due in this state.  From `Built` the cost is looked
    /// at only where `inspect_cost` asks for it.
    pub open spec fn due(self, inspect_cost: bool) -> Action {
        match self {
            Lifecycle::Built => if inspect_cost {
                Action::InspectCost
            } else {
                Action::CheckSanity
            },
            Lifecycle::CostInspected => Action::CheckSanity,
            Lifecycle::SanityChecked => Action::GenerateParams { k: K as u32 },
            Lifecycle::ParamsReady => Action::GenerateKeys,
            Lifecycle::Keyed => Action::Prove,
            Lifecycle::Proven => Action::Verify,
            Lifecycle::Verified { .. } => Action::Stop,
            Lifecycle::Halted { .. } => Action::Stop,
        }
    }

    /// The state that `event` leads to.
    ///
    /// A request that is over stays as it is.  A failure of the backend halts
    /// the request.  Otherwise each state accepts the result of the work that
    /// is due in it, and `Built` that of the sanity check as well, since the
    /// look at the cost may be left out; any other result halts the request as
    /// out of turn.  A sanity check with violations halts it too.
    pub open spec fn after(self, event: Event) -> Lifecycle {
        if self.is_over() {
            self
        } else {
            match (self, event) {
                (_, Event::BackendFailed) => Lifecycle::Halted { why: Halt::BackendFault },
                (Lifecycle::Built, Event::CostReported) => Lifecycle::CostInspected,
                (Lifecycle::Built, Event::SanityReported { violations })
                | (Lifecycle::CostInspected, Event::SanityReported { violations }) => {
                    if violations == 0 {
                        Lifecycle::SanityChecked
                    } else {
                        Lifecycle::Halted { why: Halt::ConstraintsViolated { violations } }
                    }
                },
                (Lifecycle::SanityChecked, Event::ParamsGenerated) => Lifecycle::ParamsReady,
                (Lifecycle::ParamsReady, Event::KeysGenerated) => Lifecycle::Keyed,
                (Lifecycle::Keyed, Event::ProofGenerated) => Lifecycle::Proven,
                (Lifecycle::Proven, Event::VerdictGiven { accepted }) => Lifecycle::Verified {
                    accepted,
                },
                _ => Lifecycle::Halted { why: Halt::OutOfTurn },
            }
        }
    }

    /// A fresh request.
    pub fn start() -> (r: Lifecycle)
        ensures
            r == Lifecycle::Built,
    {
        Lifecycle::Built
    }

    /// The work that is due in this state.
    pub fn next_action(&self, inspect_cost: bool) -> (action: Action)
        ensures
            action == self.due(inspect_cost),
            (action is Stop) == self.is_over(),
    {
        match self {
            Lifecycle::Built => if inspect_cost {
                Action::InspectCost
            } else {
                Action::CheckSanity
            },
            Lifecycle::CostInspected => Action::CheckSanity,
            Lifecycle::SanityChecked => Action::GenerateParams { k: K as u32 },
            Lifecycle::ParamsReady => Action::GenerateKeys,
            Lifecycle::Keyed => Action::Prove,
            Lifecycle::Proven => Action::Verify,
            Lifecycle::Verified { .. } => Action::Stop,
            Lifecycle::Halted { .. } => Action::Stop,
        }
    }

    /// Takes the result of a piece of work and moves the request on.
    pub fn advance(self, event: Event) -> (next: Lifecycle)
        ensures
            next == self.after(event),
            self.is_over() ==> next == self,
            !self.is_over() && !(next is Halted) ==> self.rank() < next.rank() <= self.rank() + 2,
    {
        match self {
            Lifecycle::Verified { .. } | Lifecycle::Halted { .. } => self,
            _ => match event {
                Event::BackendFailed => Lifecycle::Halted { why: Halt::BackendFault },
                Event::CostReported => match self {
                    Lifecycle::Built => Lifecycle::CostInspected,
                    _ => Lifecycle::Halted { why: Halt::OutOfTurn },
                },
                Event::SanityReported { violations } => match self {
                    Lifecycle::Built | Lifecycle::CostInspected => if violations == 0 {
                        Lifecycle::SanityChecked
                    } else {
                        Lifecycle::Halted { why: Halt::ConstraintsViolated { violations } }
                    },
                    _ => Lifecycle::Halted { why: Halt::OutOfTurn },
                },
                Event::ParamsGenerated => match self {
                    Lifecycle::SanityChecked => Lifecycle::ParamsReady,
                    _ => Lifecycle::Halted { why: Halt::OutOfTurn },
                },
                Event::KeysGenerated => match self {
                    Lifecycle::ParamsReady => Lifecycle::Keyed,
                    _ => Lifecycle::Halted { why: Halt::OutOfTurn },
                },
                Event::ProofGenerated => match self {
                    Lifecycle::Keyed => Lifecycle::Proven,
                    _ => Lifecycle::Halted { why: Halt::OutOfTurn },
                },
                Event::VerdictGiven { accepted } => match self {
                    Lifecycle::Proven => Lifecycle::Verified { accepted },
                    _ => Lifecycle::Halted { why: Halt::OutOfTurn },
                },
            },
        }
    }
}

/// The state of a fresh request after a series of events.
pub open spec fn run(events: Seq<Event>) -> Lifecycle
    decreases events.len(),
{
    if events.len() == 0 {
        Lifecycle::Built
    } else {
        run(events.drop_last()).after(events.last())
    }
}

/// The events of a request that went well as far as its first `steps` steps
/// after the look at the cost: a clean sanity check, the parameters, the
/// keys, the proof, and the verdict.
pub open spec fn script(steps: int, accepted: bool) -> Seq<Event> {
    seq![
        Event::SanityReported { violations: 0 },
        Event::ParamsGenerated,
        Event::KeysGenerated,
        Event::ProofGenerated,
        Event::VerdictGiven { accepted },
    ].take(steps)
}

/// The events that lead a fresh request to `state`, with or without the look
/// at the cost.
pub open spec fn path_to(state: Lifecycle, inspected: bool) -> Seq<Event> {
    let accepted = state matches Lifecycle::Verified { accepted: true };
    if state.rank() == 0 {
        Seq::empty()
    } else if inspected {
        seq![Event::CostReported] + script(state.rank() - 1, accepted)
    } else {
        script(state.rank() - 1, accepted)
    }
}

/// `path` is how `events` begin.
pub open spec fn begins_with(events: Seq<Event>, path: Seq<Event>) -> bool {
    path.len() <= events.len() && events.take(path.len() as int) == path
}

/// A request that has not been halted got where it is in just one way: by
/// the events of the steps up to its state, each in its turn, with the look
/// at the cost at the front or left out.  Nothing else has happened to it,
/// but for events that came after its verdict and were ignored.
pub proof fn lemma_unhalted_run_follows_the_script(events: Seq<Event>)
    requires
        !(run(events) is Halted),
    ensures
        begins_with(events, path_to(run(events), false)) || begins_with(
            events,
            path_to(run(events), true),
        ),
        !(run(events) is Verified) ==> events == path_to(run(events), false) || events == path_to(
            run(events),
            true,
        ),
        run(events) is CostInspected ==> events == path_to(run(events), true),
    decreases events.len(),
{
    if events.len() == 0 {
        assert(events.take(0) =~= Seq::empty());
        assert(events =~= Seq::empty());
    } else {
        let before = events.drop_last();
        let last = events.last();
        let prev = run(before);
        let now = run(events);
        assert(now == prev.after(last));
        assert(events =~= before.push(last));
        lemma_unhalted_run_follows_the_script(before);
        if prev is Verified {
            let inspected = begins_with(before, path_to(prev, true));
            let path = path_to(prev, inspected);
            assert(events.take(path.len() as int) =~= before.take(path.len() as int));
        } else if prev is Built {
            assert(before =~= Seq::empty());
            let path = path_to(now, now is CostInspected);
            assert(events =~= path);
            assert(events.take(path.len() as int) =~= events);
        } else {
            let inspected = before == path_to(prev, true);
            let path = path_to(now, inspected);
            assert(events =~= path);
            assert(events.take(path.len() as int) =~= events);
        }
    }
}

/// No proving work without a clean sanity check: a request that has come as
/// far as the sanity check or further has seen a sanity check without
/// violations.
pub proof fn lemma_proving_needs_clean_sanity_check(events: Seq<Event>)
    requires
        2 <= run(events).rank() <= 6,
    ensures
        events.contains(Event::SanityReported { violations: 0 }),
{
    lemma_unhalted_run_follows_the_script(events);
    let clean = Event::SanityReported { violations: 0 };
    if begins_with(events, path_to(run(events), false)) {
        let path = path_to(run(events), false);
        assert(path[0] == clean);
        assert(events.take(path.len() as int)[0] == events[0]);
    } else {
        let path = path_to(run(events), true);
        assert(path[1] == clean);
        assert(events.take(path.len() as int)[1] == events[1]);
    }
}

} // verus!
