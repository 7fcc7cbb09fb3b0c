use vstd::prelude::*;
use crate::quorum::{quorum_reached, spec_threshold};

verus! {

/// Where one quorum worker stands in its order/confirm round.
#[derive(PartialEq, Eq, Structural, Clone, Copy, Debug)]
pub enum RoundPhase {
    /// Order subtasks are spawned and gated; the outer tick has not come.
    AwaitingTick,
    /// Order messages are out; completions are being counted.
    Ordering,
    /// Order quorum was met and confirm messages are out.
    Confirming,
    /// Confirm quorum was met and the latency sample was handed over.
    Reported,
    /// A phase went idle before its quorum: no sample comes from this round.
    Abandoned,
}

/// What the runtime observed for the round.
#[derive(PartialEq, Eq, Structural, Clone, Copy, Debug)]
pub enum RoundEvent {
    /// The outer tick released this worker.
    Tick,
    /// One endpoint finished the current phase.
    Completion,
    /// No completion came within the idle timeout, or no endpoint is left to
    /// complete.
    Idle,
}

/// What the runtime is to do next.
#[derive(PartialEq, Eq, Structural, Clone, Copy, Debug)]
pub enum RoundAction {
    /// Keep waiting for the next event.
    Wait,
    /// Release every order subtask at once and start the round's clock.
    ReleaseOrders,
    /// Send the confirm messages to every endpoint.
    SendConfirms,
    /// Stop the clock and push the elapsed time on the results channel.
    ReportLatency,
    /// Leave the round without a sample.
    GiveUp,
}

/// The decisions of one quorum worker: it counts one vote per endpoint and
/// moves to the next phase once more than two thirds of the other endpoints
/// plus one have answered.
pub struct QuorumRound {
    pub endpoints: usize,
    pub phase: RoundPhase,
    /// Completions counted in the current phase.
    pub count: usize,
}

impl QuorumRound {
    /// The round is well formed: at least one endpoint, and the count of the
    /// current phase is still short of quorum.
    pub open spec fn wf(&self) -> bool {
        &&& self.endpoints >= 1
        &&& self.count < spec_threshold(self.endpoints as nat)
    }

    /// The state after `ev` and the action it calls for.
    pub open spec fn transition(self, ev: RoundEvent) -> (QuorumRound, RoundAction) {
        let reached = self.count + 1 >= spec_threshold(self.endpoints as nat);
        match (self.phase, ev) {
            (RoundPhase::AwaitingTick, RoundEvent::Tick) => (
                QuorumRound { phase: RoundPhase::Ordering, count: 0, ..self },
                RoundAction::ReleaseOrders,
            ),
            (RoundPhase::Ordering, RoundEvent::Completion) => if reached {
                (
                    QuorumRound { phase: RoundPhase::Confirming, count: 0, ..self },
                    RoundAction::SendConfirms,
                )
            } else {
                (QuorumRound { count: (self.count + 1) as usize, ..self }, RoundAction::Wait)
            },
            (RoundPhase::Confirming, RoundEvent::Completion) => if reached {
                (
                    QuorumRound { phase: RoundPhase::Reported, count: 0, ..self },
                    RoundAction::ReportLatency,
                )
            } else {
                (QuorumRound { count: (self.count + 1) as usize, ..self }, RoundAction::Wait)
            },
            (RoundPhase::Ordering, RoundEvent::Idle) | (RoundPhase::Confirming, RoundEvent::Idle) => (
                QuorumRound { phase: RoundPhase::Abandoned, count: 0, ..self },
                RoundAction::GiveUp,
            ),
            _ => (self, RoundAction::Wait),
        }
    }

    /// A round over `endpoints` endpoints, waiting for its tick.
    pub fn new(endpoints: usize) -> (r: QuorumRound)
        requires
            endpoints >= 1,
        ensures
            r.wf(),
            r.endpoints == endpoints,
            r.phase == RoundPhase::AwaitingTick,
            r.count == 0,
    {
        QuorumRound { endpoints, phase: RoundPhase::AwaitingTick, count: 0 }
    }

    /// Takes one event and returns the action it calls for.
    pub fn step(&mut self, ev: RoundEvent) -> (r: RoundAction)
        requires
            old(self).wf(),
        ensures
            final(self).wf(),
            (*final(self), r) == old(self).transition(ev),
    {
        match (self.phase, ev) {
            (RoundPhase::AwaitingTick, RoundEvent::Tick) => {
                self.phase = RoundPhase::Ordering;
                self.count = 0;
                RoundAction::ReleaseOrders
            },
            (RoundPhase::Ordering, RoundEvent::Completion) => {
                if quorum_reached(self.count + 1, self.endpoints) {
                    self.phase = RoundPhase::Confirming;
                    self.count = 0;
                    RoundAction::SendConfirms
                } else {
                    self.count = self.count + 1;
                    RoundAction::Wait
                }
            },
            (RoundPhase::Confirming, RoundEvent::Completion) => {
                if quorum_reached(self.count + 1, self.endpoints) {
                    self.phase = RoundPhase::Reported;
                    self.count = 0;
                    RoundAction::ReportLatency
                } else {
                    self.count = self.count + 1;
                    RoundAction::Wait
                }
            },
            (RoundPhase::Ordering, RoundEvent::Idle) | (RoundPhase::Confirming, RoundEvent::Idle) => {
                self.phase = RoundPhase::Abandoned;
                self.count = 0;
                RoundAction::GiveUp
            },
            _ => RoundAction::Wait,
        }
    }

    /// The actions that the events `evs` call for, one after the other.
    pub open spec fn actions(self, evs: Seq<RoundEvent>) -> Seq<RoundAction>
        decreases evs.len(),
    {
        if evs.len() == 0 {
            Seq::empty()
        } else {
            let (next, a) = self.transition(evs[0]);
            seq![a] + next.actions(evs.drop_first())
        }
    }
}

/// How many times `a` stands in `s`.
pub open spec fn occurrences(s: Seq<RoundAction>, a: RoundAction) -> nat
    decreases s.len(),
{
    if s.len() == 0 {
        0
    } else {
        (if s[0] == a { 1nat } else { 0nat }) + occurrences(s.drop_first(), a)
    }
}

/// A round reports its latency at most once, whatever the runtime observes;
/// once it has reported or given up, it reports no more.
pub proof fn round_reports_at_most_once(r: QuorumRound, evs: Seq<RoundEvent>)
    requires
        r.wf(),
    ensures
        occurrences(r.actions(evs), RoundAction::ReportLatency) <= 1,
        (r.phase == RoundPhase::Reported || r.phase == RoundPhase::Abandoned) ==> occurrences(
            r.actions(evs),
            RoundAction::ReportLatency,
        ) == 0,
    decreases evs.len(),
{
    if evs.len() > 0 {
        let (next, a) = r.transition(evs[0]);
        let s = r.actions(evs);
        assert(s.drop_first() =~= next.actions(evs.drop_first()));
        assert(s[0] == a);
        round_reports_at_most_once(next, evs.drop_first());
    }
}

/// Confirm messages go out only once the order phase has met quorum, and the
/// latency is reported only once the confirm phase has met it.
pub proof fn phases_gated_on_quorum(r: QuorumRound, ev: RoundEvent)
    requires
        r.wf(),
    ensures
        r.transition(ev).1 == RoundAction::SendConfirms ==> r.phase == RoundPhase::Ordering && 3 * (
        r.count + 1) > 2 * (r.endpoints - 1),
        r.transition(ev).1 == RoundAction::ReportLatency ==> r.phase == RoundPhase::Confirming && 3
            * (r.count + 1) > 2 * (r.endpoints - 1),
{
    crate::quorum::threshold_is_least_above_two_thirds(r.endpoints as nat, (r.count + 1) as nat);
}

} // verus!
