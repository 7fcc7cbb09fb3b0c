use load_generator::RoundEvent::{Completion, Idle, Tick};
use load_generator::{
    check_transaction_response, DecodedReply, DrainEvent, ExecutionOutcome, LatencyDrain,
    QuorumRound, ReplyVerdict, RoundAction, RoundEvent, RoundPhase,
};

fn run(round: &mut QuorumRound, evs: &[RoundEvent]) -> Vec<RoundAction> {
    evs.iter().map(|e| round.step(*e)).collect()
}

#[test]
fn clean_quorum_of_four_reports_once() {
    let mut r = QuorumRound::new(4);
    let acts = run(&mut r, &[Tick, Completion, Completion, Completion, Completion, Completion, Completion, Completion, Completion]);
    assert_eq!(
        acts,
        vec![
            RoundAction::ReleaseOrders,
            RoundAction::Wait,
            RoundAction::Wait,
            RoundAction::SendConfirms,
            RoundAction::Wait,
            RoundAction::Wait,
            RoundAction::ReportLatency,
            RoundAction::Wait,
            RoundAction::Wait,
        ]
    );
    assert_eq!(r.phase, RoundPhase::Reported);
}

#[test]
fn slow_minority_does_not_hold_the_round() {
    let mut r = QuorumRound::new(4);
    let acts = run(&mut r, &[Tick, Completion, Completion, Completion, Completion, Completion, Completion]);
    assert_eq!(acts.iter().filter(|a| **a == RoundAction::ReportLatency).count(), 1);
    assert_eq!(acts[6], RoundAction::ReportLatency);
    // the slow endpoint's late completion changes nothing
    assert_eq!(r.step(Completion), RoundAction::Wait);
    assert_eq!(r.phase, RoundPhase::Reported);
}

#[test]
fn faulty_majority_gives_up_without_a_sample() {
    let mut r = QuorumRound::new(4);
    let acts = run(&mut r, &[Tick, Completion, Idle, Completion, Tick]);
    assert_eq!(
        acts,
        vec![
            RoundAction::ReleaseOrders,
            RoundAction::Wait,
            RoundAction::GiveUp,
            RoundAction::Wait,
            RoundAction::Wait,
        ]
    );
    assert_eq!(r.phase, RoundPhase::Abandoned);
}

#[test]
fn confirm_phase_can_go_idle_too() {
    let mut r = QuorumRound::new(7);
    let acts = run(&mut r, &[Tick, Completion, Completion, Completion, Completion, Completion, Completion, Idle]);
    assert_eq!(acts[5], RoundAction::SendConfirms);
    assert_eq!(acts[7], RoundAction::GiveUp);
}

#[test]
fn single_endpoint_round() {
    let mut r = QuorumRound::new(1);
    assert_eq!(r.step(Completion), RoundAction::Wait);
    assert_eq!(r.step(Tick), RoundAction::ReleaseOrders);
    assert_eq!(r.step(Completion), RoundAction::SendConfirms);
    assert_eq!(r.step(Tick), RoundAction::Wait);
    assert_eq!(r.step(Completion), RoundAction::ReportLatency);
}

#[test]
fn drain_stops_when_every_slice_reported() {
    let mut d = LatencyDrain::new(4);
    assert!(d.accept(DrainEvent::Sample(900)));
    assert!(d.accept(DrainEvent::Sample(1200)));
    assert!(d.accept(DrainEvent::Sample(800)));
    assert!(!d.accept(DrainEvent::Sample(1000)));
    assert!(!d.accept(DrainEvent::Sample(7)));
    assert_eq!(d.into_samples(), vec![900, 1200, 800, 1000]);
}

#[test]
fn drain_stops_on_close_or_idle() {
    let mut d = LatencyDrain::new(4);
    assert!(d.accept(DrainEvent::Sample(5000)));
    assert!(!d.accept(DrainEvent::Closed));
    assert!(!d.accept(DrainEvent::Sample(6000)));
    assert_eq!(d.into_samples(), vec![5000]);

    let mut e = LatencyDrain::new(3);
    assert!(!e.accept(DrainEvent::Idle));
    assert!(e.into_samples().is_empty());
}

#[test]
fn drain_with_no_slices_is_finished_at_once() {
    let mut d = LatencyDrain::new(0);
    assert!(d.finished);
    assert!(!d.accept(DrainEvent::Sample(3)));
    assert!(d.into_samples().is_empty());
}

#[test]
fn single_slice_gives_one_sample() {
    let mut d = LatencyDrain::new(1);
    assert!(!d.accept(DrainEvent::Sample(42)));
    assert_eq!(d.into_samples(), vec![42]);
}

#[test]
fn reply_verdicts() {
    assert_eq!(
        check_transaction_response(DecodedReply::TransactionResponse { effects: Some(ExecutionOutcome::Failure) }),
        ReplyVerdict::ExecutionError
    );
    assert_eq!(
        check_transaction_response(DecodedReply::TransactionResponse { effects: Some(ExecutionOutcome::Success) }),
        ReplyVerdict::Quiet
    );
    assert_eq!(
        check_transaction_response(DecodedReply::TransactionResponse { effects: None }),
        ReplyVerdict::Quiet
    );
    assert_eq!(check_transaction_response(DecodedReply::Error), ReplyVerdict::ReceivedError);
    assert_eq!(check_transaction_response(DecodedReply::Other), ReplyVerdict::InvalidResponse);
}
