//! Decision logic of a fixed-rate transaction load generator: how the input
//! is cut into task slices, how many ticks release them, when a two-phase
//! order/confirm round has met its quorum, and how latency samples are
//! collected. The asynchronous runtime that performs sends, waits and timers
//! drives these state machines from outside.

mod quorum;
mod slicing;
mod round;
mod schedule;
mod drain;
mod inspect;

pub use quorum::{quorum_threshold, quorum_reached, spec_threshold, threshold_is_least_above_two_thirds};
pub use slicing::{
    chunk_size_per_task, count_slices, evens, odds, partition_into_slices, slice_at, slice_count,
    slice_end, slices_cover_input_in_order, slices_from, split_pairs, partition_paired, PairedSlice,
};
pub use round::{
    occurrences, phases_gated_on_quorum, round_reports_at_most_once, QuorumRound, RoundAction,
    RoundEvent, RoundPhase,
};
pub use schedule::TickSchedule;
pub use drain::{collected, drain_keeps_at_most_one_per_slice, DrainEvent, LatencyDrain};
pub use inspect::{check_transaction_response, DecodedReply, ExecutionOutcome, ReplyVerdict};
