use vstd::prelude::*;
use crate::slicing::{count_slices, slice_count};

verus! {

/// The outer tick loop: each tick releases one task slice of `per_task`
/// transactions, and the loop ends once the released count reaches the total.
pub struct TickSchedule {
    pub total: usize,
    pub per_task: usize,
    /// Transactions released so far, saturating at `usize::MAX`.
    pub released: usize,
    /// Ticks issued so far.
    pub ticks: usize,
}

impl TickSchedule {
    /// The released count is the ticks times the slice size, saturated.
    pub open spec fn wf(&self) -> bool {
        &&& self.per_task > 0
        &&& self.released == if self.ticks * self.per_task <= usize::MAX {
            self.ticks * self.per_task
        } else {
            usize::MAX as int
        }
        &&& self.ticks <= slice_count(self.total as nat, self.per_task as nat)
    }

    /// The loop is over once the released count reaches the total.
    pub open spec fn done(&self) -> bool {
        self.released >= self.total
    }

    /// A schedule for `total` transactions released `per_task` at a time.
    pub fn new(total: usize, per_task: usize) -> (r: TickSchedule)
        requires
            per_task > 0,
        ensures
            r.wf(),
            r.total == total,
            r.per_task == per_task,
            r.ticks == 0,
            r.released == 0,
    {
        TickSchedule { total, per_task, released: 0, ticks: 0 }
    }

    /// Whether every task slice has been released. This happens exactly when
    /// as many ticks have been issued as there are task slices; with no
    /// transactions the loop is over before any tick.
    pub fn is_done(&self) -> (r: bool)
        requires
            self.wf(),
        ensures
            r == self.done(),
            r == (self.ticks == slice_count(self.total as nat, self.per_task as nat)),
    {
        proof {
            lemma_done_iff_all_ticks(*self);
        }
        self.released >= self.total
    }

    /// Records one tick, which released one more task slice.
    pub fn on_tick(&mut self)
        requires
            old(self).wf(),
            !old(self).done(),
        ensures
            final(self).wf(),
            final(self).total == old(self).total,
            final(self).per_task == old(self).per_task,
            final(self).ticks == old(self).ticks + 1,
            final(self).released == if old(self).released + old(self).per_task <= usize::MAX {
                old(self).released + old(self).per_task
            } else {
                usize::MAX as int
            },
    {
        proof {
            lemma_done_iff_all_ticks(*self);
            let t = self.ticks as int;
            let p = self.per_task as int;
            assert((t + 1) * p == t * p + p) by (nonlinear_arith);
            if t * p > usize::MAX {
                assert((t + 1) * p > usize::MAX);
            }
        }
        self.released = self.released.saturating_add(self.per_task);
        self.ticks = self.ticks + 1;
    }

    /// Number of ticks the whole run takes.
    pub fn ticks_needed(&self) -> (r: usize)
        requires
            self.wf(),
        ensures
            r == slice_count(self.total as nat, self.per_task as nat),
    {
        count_slices(self.total, self.per_task)
    }
}

/// The released count reaches the total exactly after one tick per slice.
proof fn lemma_done_iff_all_ticks(s: TickSchedule)
    requires
        s.wf(),
    ensures
        s.done() <==> s.ticks == slice_count(s.total as nat, s.per_task as nat),
        slice_count(s.total as nat, s.per_task as nat) <= s.total,
{
    let n = slice_count(s.total as nat, s.per_task as nat);
    let t = s.ticks as int;
    let p = s.per_task as int;
    let len = s.total as int;
    let q = len / p;
    let r = len % p;
    assert(len == q * p + r && 0 <= r < p) by (nonlinear_arith)
        requires
            q == len / p,
            r == len % p,
            p > 0,
    ;
    assert(n <= len) by (nonlinear_arith)
        requires
            r == 0 ==> n == q,
            r != 0 ==> n == q + 1,
            len == q * p + r,
            0 <= r < p,
            p > 0,
            q >= 0,
    ;
    if t == n {
        assert(t * p >= len) by (nonlinear_arith)
            requires
                r == 0 ==> t == q,
                r != 0 ==> t == q + 1,
                len == q * p + r,
                r < p,
        ;
    } else {
        assert(t * p < len) by (nonlinear_arith)
            requires
                r == 0 ==> t < q,
                r != 0 ==> t <= q,
                len == q * p + r,
                0 <= r < p,
                p > 0,
                t >= 0,
        ;
    }
}

} // verus!
