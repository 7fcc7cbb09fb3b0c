use vstd::prelude::*;

verus! {

/// What the results channel gave the collector.
#[derive(PartialEq, Eq, Structural, Clone, Copy, Debug)]
pub enum DrainEvent {
    /// One latency sample, in microseconds.
    Sample(u128),
    /// Every producer has dropped its end of the channel.
    Closed,
    /// No sample came within the idle timeout.
    Idle,
}

/// Collects the latency samples of a run: one per task slice at most, until
/// the channel closes, goes idle, or every slice has reported.
pub struct LatencyDrain {
    /// Number of task slices, hence of samples that can come.
    pub expected: usize,
    pub samples: Vec<u128>,
    pub finished: bool,
}

/// The samples that a drain expecting `expected` keeps from `evs`: the sample
/// values in order, up to the first close or idle timeout, and no more than
/// `expected` of them.
pub open spec fn collected(evs: Seq<DrainEvent>, expected: nat) -> Seq<u128>
    decreases evs.len(),
{
    if evs.len() == 0 || expected == 0 {
        Seq::empty()
    } else {
        match evs[0] {
            DrainEvent::Sample(v) => seq![v] + collected(evs.drop_first(), (expected - 1) as nat),
            _ => Seq::empty(),
        }
    }
}

impl LatencyDrain {
    /// Never more samples than slices; an unfinished drain still has room.
    pub open spec fn wf(&self) -> bool {
        &&& self.samples@.len() <= self.expected
        &&& !self.finished ==> self.samples@.len() < self.expected
    }

    /// A drain for `expected` task slices. With no slice it is finished at once.
    pub fn new(expected: usize) -> (r: LatencyDrain)
        ensures
            r.wf(),
            r.expected == expected,
            r.samples@ == Seq::<u128>::empty(),
            r.finished == (expected == 0),
    {
        LatencyDrain { expected, samples: Vec::new(), finished: expected == 0 }
    }

    /// Takes what the channel gave and says whether to keep receiving.
    pub fn accept(&mut self, ev: DrainEvent) -> (keep_going: bool)
        requires
            old(self).wf(),
        ensures
            final(self).wf(),
            final(self).expected == old(self).expected,
            keep_going == !final(self).finished,
            old(self).finished ==> *final(self) == *old(self),
            !old(self).finished ==> match ev {
                DrainEvent::Sample(v) => {
                    &&& final(self).samples@ == old(self).samples@.push(v)
                    &&& final(self).finished == (final(self).samples@.len() == old(self).expected)
                },
                _ => final(self).finished && final(self).samples@ == old(self).samples@,
            },
            forall|evs: Seq<DrainEvent>| #[trigger] final(self).after(evs) == old(self).after(seq![ev] + evs),
    {
        let ghost before = *self;
        if self.finished {
            return false;
        }
        match ev {
            DrainEvent::Sample(v) => {
                self.samples.push(v);
                self.finished = self.samples.len() == self.expected;
            },
            _ => {
                self.finished = true;
            },
        }
        proof {
            assert forall|evs: Seq<DrainEvent>| #[trigger] self.after(evs) == before.after(seq![ev] + evs) by {
                lemma_accept_follows_collected(before, ev, *self, evs);
            }
        }
        !self.finished
    }

    /// The samples collected, in the order they arrived.
    pub fn into_samples(self) -> (r: Vec<u128>)
        ensures
            r@ == self.samples@,
    {
        self.samples
    }

    /// The samples that the events `evs` leave in this drain, after the ones
    /// it already holds.
    pub open spec fn after(self, evs: Seq<DrainEvent>) -> Seq<u128> {
        if self.finished {
            self.samples@
        } else {
            self.samples@ + collected(evs, (self.expected - self.samples@.len()) as nat)
        }
    }
}

/// A run keeps at most one sample per task slice, and it keeps one for every
/// slice exactly when that many samples came before the channel closed or
/// went idle. Every kept sample is one that a worker sent.
pub proof fn drain_keeps_at_most_one_per_slice(evs: Seq<DrainEvent>, expected: nat)
    ensures
        collected(evs, expected).len() <= expected,
        collected(evs, expected).len() == expected <==> (expected <= evs.len() && forall|j: int|
            0 <= j < expected ==> (#[trigger] evs[j]) is Sample),
        forall|i: int|
            0 <= i < collected(evs, expected).len() ==> exists|j: int|
                0 <= j < evs.len() && #[trigger] evs[j] == DrainEvent::Sample(
                    #[trigger] collected(evs, expected)[i],
                ),
    decreases evs.len(),
{
    if evs.len() > 0 && expected > 0 {
        let rest = evs.drop_first();
        drain_keeps_at_most_one_per_slice(rest, (expected - 1) as nat);
        if let DrainEvent::Sample(v) = evs[0] {
            if expected <= evs.len() && forall|j: int| 0 <= j < expected ==> (#[trigger] evs[j]) is Sample {
                assert forall|j: int| 0 <= j < expected - 1 implies (#[trigger] rest[j]) is Sample by {
                    assert(evs[j + 1] is Sample);
                }
            }
            if (expected - 1) as nat <= rest.len() && forall|j: int|
                0 <= j < expected - 1 ==> (#[trigger] rest[j]) is Sample {
                assert forall|j: int| 0 <= j < expected implies (#[trigger] evs[j]) is Sample by {
                    if j > 0 {
                        assert(rest[j - 1] is Sample);
                    }
                }
            }
            let c = collected(evs, expected);
            let cr = collected(rest, (expected - 1) as nat);
            assert forall|i: int| 0 <= i < c.len() implies exists|j: int|
                0 <= j < evs.len() && #[trigger] evs[j] == DrainEvent::Sample(#[trigger] c[i]) by {
                if i == 0 {
                    assert(evs[0] == DrainEvent::Sample(c[0]));
                } else {
                    assert(c[i] == cr[i - 1]);
                    let j = choose|j: int|
                        0 <= j < rest.len() && #[trigger] rest[j] == DrainEvent::Sample(cr[i - 1]);
                    assert(evs[j + 1] == rest[j]);
                }
            }
        }
    }
}

/// One accepted event moves the drain along `collected`.
proof fn lemma_accept_follows_collected(d: LatencyDrain, ev: DrainEvent, next: LatencyDrain, evs: Seq<DrainEvent>)
    requires
        d.wf(),
        next.wf(),
        next.expected == d.expected,
        d.finished ==> next == d,
        !d.finished ==> match ev {
            DrainEvent::Sample(v) => {
                &&& next.samples@ == d.samples@.push(v)
                &&& next.finished == (next.samples@.len() == d.expected)
            },
            _ => next.finished && next.samples@ == d.samples@,
        },
    ensures
        next.after(evs) == d.after(seq![ev] + evs),
{
    let all = seq![ev] + evs;
    assert(all.drop_first() =~= evs);
    assert(all[0] == ev);
    if !d.finished {
        if let DrainEvent::Sample(v) = ev {
            if next.finished {
                assert(collected(evs, 0) == Seq::<u128>::empty());
                assert(next.samples@ + collected(evs, 0) =~= next.samples@);
            }
            assert(d.samples@ + collected(all, (d.expected - d.samples@.len()) as nat) =~= next.samples@
                + collected(evs, (next.expected - next.samples@.len()) as nat));
        } else {
            assert(d.samples@ + collected(all, (d.expected - d.samples@.len()) as nat) =~= d.samples@);
        }
    }
}

} // verus!
