use vstd::prelude::*;

verus! {

/// Number of task slices of at most `per` items that cover `len` items:
/// the ceiling of `len / per`.
pub open spec fn slice_count(len: nat, per: nat) -> nat
    recommends
        per > 0,
{
    if len % per == 0 {
        len / per
    } else {
        len / per + 1
    }
}

/// End (exclusive) of the `i`-th slice of `len` items cut every `per` items.
pub open spec fn slice_end(len: nat, per: nat, i: int) -> int {
    if (i + 1) * per <= len {
        (i + 1) * per
    } else {
        len as int
    }
}

/// The `i`-th task slice of `s`: the items from `i * per` up to the next cut.
pub open spec fn slice_at<T>(s: Seq<T>, per: nat, i: int) -> Seq<T> {
    s.subrange(i * per, slice_end(s.len(), per, i))
}

/// Items at even positions: the order messages of a paired slice.
pub open spec fn evens<T>(s: Seq<T>) -> Seq<T> {
    Seq::new(s.len() / 2, |j: int| s[2 * j])
}

/// Items at odd positions: the confirm messages of a paired slice.
pub open spec fn odds<T>(s: Seq<T>) -> Seq<T> {
    Seq::new(s.len() / 2, |j: int| s[2 * j + 1])
}

/// A task slice of the multi-endpoint mode, split into its order messages and
/// the matching confirm messages.
pub struct PairedSlice<T> {
    pub order: Vec<T>,
    pub confirm: Vec<T>,
}

/// Facts on the cuts: each slice starts inside the input and ends after its
/// start and no further than the input's end.
proof fn lemma_slice_bounds(len: nat, per: nat, k: nat)
    requires
        per > 0,
        k < slice_count(len, per),
    ensures
        k * per < len,
        k * per <= slice_end(len, per, k as int) <= len,
{
    assert((k + 1) * per == k * per + per) by (nonlinear_arith);
    let q = len / per;
    let r = len % per;
    assert(len == q * per + r && r < per) by (nonlinear_arith)
        requires
            q == len / per,
            r == len % per,
            per > 0,
    ;
    assert(k * per < len) by (nonlinear_arith)
        requires
            r == 0 ==> k < q,
            r != 0 ==> k <= q,
            len == q * per + r,
            0 <= r < per,
            per > 0,
    ;
}

/// The slices together reach the end of the input.
proof fn lemma_slices_cover(len: nat, per: nat)
    requires
        per > 0,
    ensures
        slice_count(len, per) * per >= len,
{
    let q = len / per;
    let r = len % per;
    assert(len == q * per + r && r < per) by (nonlinear_arith)
        requires
            q == len / per,
            r == len % per,
            per > 0,
    ;
    assert(slice_count(len, per) * per >= len) by (nonlinear_arith)
        requires
            r == 0 ==> slice_count(len, per) == q,
            r != 0 ==> slice_count(len, per) == q + 1,
            len == q * per + r,
            r < per,
    ;
}

/// The task slices of `s` from the `k`-th on.
pub open spec fn slices_from<T>(s: Seq<T>, per: nat, k: nat) -> Seq<Seq<T>> {
    Seq::new((slice_count(s.len(), per) - k) as nat, |i: int| slice_at(s, per, k + i))
}

/// The task slices are never empty, hold at most `per` items each, and laid
/// end to end give back the input, in order.
pub proof fn slices_cover_input_in_order<T>(s: Seq<T>, per: nat)
    requires
        per > 0,
    ensures
        slices_from(s, per, 0).flatten() == s,
        forall|i: int|
            0 <= i < slice_count(s.len(), per) ==> 0 < (#[trigger] slice_at(s, per, i)).len() <= per,
{
    lemma_slices_from_flatten(s, per, 0);
    assert(s.subrange(0, s.len() as int) =~= s);
    assert forall|i: int| 0 <= i < slice_count(s.len(), per) implies 0 < (#[trigger] slice_at(
        s,
        per,
        i,
    )).len() <= per by {
        lemma_slice_bounds(s.len(), per, i as nat);
        assert((i + 1) * per == i * per + per) by (nonlinear_arith);
    }
}

proof fn lemma_slices_from_flatten<T>(s: Seq<T>, per: nat, k: nat)
    requires
        per > 0,
        k <= slice_count(s.len(), per),
    ensures
        slices_from(s, per, k).flatten() == s.subrange(
            if k * per <= s.len() { (k * per) as int } else { s.len() as int },
            s.len() as int,
        ),
    decreases slice_count(s.len(), per) - k,
{
    let n = slice_count(s.len(), per);
    let xs = slices_from(s, per, k);
    let len = s.len() as int;
    let start: int = (k * per) as int;
    lemma_slices_cover(s.len(), per);
    if k == n {
        assert(xs.len() == 0);
        assert(start >= len);
        assert(s.subrange(len, len) =~= Seq::<T>::empty());
    } else {
        lemma_slice_bounds(s.len(), per, k);
        lemma_slices_from_flatten(s, per, k + 1);
        assert(xs.drop_first() =~= slices_from(s, per, k + 1));
        assert(xs.first() == slice_at(s, per, k as int));
        let e = slice_end(s.len(), per, k as int);
        assert((k + 1) * per == k * per + per) by (nonlinear_arith);
        assert(s.subrange(start, e) + s.subrange(e, len) =~= s.subrange(start, len));
    }
}

/// The number of task slices for `len` items in slices of `per`.
pub fn count_slices(len: usize, per: usize) -> (r: usize)
    requires
        per > 0,
    ensures
        r == slice_count(len as nat, per as nat),
{
    if len % per == 0 {
        len / per
    } else {
        assert(len / per < len) by (nonlinear_arith)
            requires
                per > 0,
                len % per != 0,
        ;
        len / per + 1
    }
}

/// Transactions released by each tick: two per connection, an order and its
/// confirm.
pub fn chunk_size_per_task(connections: usize) -> (r: usize)
    requires
        connections >= 1,
        2 * connections <= usize::MAX,
    ensures
        r == 2 * connections,
        r > 0,
{
    2 * connections
}

/// The items of `v` in the opposite order.
fn reversed<T>(v: Vec<T>) -> (r: Vec<T>)
    ensures
        r@.len() == v@.len(),
        forall|i: int| 0 <= i < r@.len() ==> #[trigger] r@[i] == v@[v@.len() - 1 - i],
{
    let ghost orig = v@;
    let mut rest = v;
    let mut out: Vec<T> = Vec::new();
    while rest.len() > 0
        invariant
            rest@ == orig.subrange(0, rest@.len() as int),
            out@.len() + rest@.len() == orig.len(),
            forall|i: int| 0 <= i < out@.len() ==> #[trigger] out@[i] == orig[orig.len() - 1 - i],
        decreases rest@.len(),
    {
        let x = rest.pop().unwrap();
        out.push(x);
    }
    out
}

/// Cuts `txs` into consecutive task slices of `per_task` items, the last one
/// holding what is left. The slices cover the input exactly and in order.
pub fn partition_into_slices<T>(txs: Vec<T>, per_task: usize) -> (slices: Vec<Vec<T>>)
    requires
        per_task > 0,
    ensures
        slices@.len() == slice_count(txs@.len(), per_task as nat),
        forall|i: int|
            0 <= i < slices@.len() ==> #[trigger] slices@[i]@ == slice_at(txs@, per_task as nat, i),
{
    let ghost orig = txs@;
    let ghost per = per_task as nat;
    let len = txs.len();
    let n = count_slices(len, per_task);
    let mut rest = txs;
    let mut rev: Vec<Vec<T>> = Vec::new();
    let mut k: usize = n;
    proof {
        lemma_slices_cover(len as nat, per);
        assert(rest@ =~= orig.subrange(0, len as int));
    }
    while k > 0
        invariant
            k <= n,
            n == slice_count(orig.len(), per),
            len == orig.len(),
            per == per_task,
            per_task > 0,
            rest@ == orig.subrange(0, if k * per <= len { k * per } else { len as int }),
            rev@.len() == n - k,
            forall|j: int|
                0 <= j < rev@.len() ==> #[trigger] rev@[j]@ == slice_at(orig, per, n - 1 - j),
        decreases k,
    {
        proof {
            lemma_slice_bounds(len as nat, per, (k - 1) as nat);
        }
        k = k - 1;
        let at = k * per_task;
        proof {
            assert(at <= (k + 1) * per) by (nonlinear_arith)
                requires
                    at == k * per,
            ;
        }
        let tail = rest.split_off(at);
        proof {
            assert(tail@ =~= slice_at(orig, per, k as int));
        }
        rev.push(tail);
    }
    let mut slices: Vec<Vec<T>> = Vec::new();
    while rev.len() > 0
        invariant
            slices@.len() + rev@.len() == n,
            forall|j: int|
                0 <= j < rev@.len() ==> #[trigger] rev@[j]@ == slice_at(orig, per, n - 1 - j),
            forall|j: int|
                0 <= j < slices@.len() ==> #[trigger] slices@[j]@ == slice_at(orig, per, j),
        decreases rev@.len(),
    {
        let s = rev.pop().unwrap();
        slices.push(s);
    }
    slices
}

/// Splits a slice of order/confirm pairs into its order messages (even
/// positions) and its confirm messages (odd positions).
pub fn split_pairs<T>(slice: Vec<T>) -> (r: PairedSlice<T>)
    requires
        slice@.len() % 2 == 0,
    ensures
        r.order@ == evens(slice@),
        r.confirm@ == odds(slice@),
        r.order@.len() == r.confirm@.len(),
{
    let ghost orig = slice@;
    let len = slice.len();
    let mut rev = reversed(slice);
    let mut order: Vec<T> = Vec::new();
    let mut confirm: Vec<T> = Vec::new();
    while rev.len() > 0
        invariant
            len == orig.len(),
            len % 2 == 0,
            rev@.len() + 2 * order@.len() == len,
            confirm@.len() == order@.len(),
            forall|j: int| 0 <= j < rev@.len() ==> #[trigger] rev@[j] == orig[len - 1 - j],
            forall|j: int| 0 <= j < order@.len() ==> #[trigger] order@[j] == orig[2 * j],
            forall|j: int| 0 <= j < confirm@.len() ==> #[trigger] confirm@[j] == orig[2 * j + 1],
        decreases rev@.len(),
    {
        let o = rev.pop().unwrap();
        let c = rev.pop().unwrap();
        order.push(o);
        confirm.push(c);
    }
    assert(order@ =~= evens(orig));
    assert(confirm@ =~= odds(orig));
    PairedSlice { order, confirm }
}

/// Cuts paired transactions (orders at even positions, each followed by its
/// confirm) into task slices of `per_task` items and splits every slice into
/// its order and confirm messages.
pub fn partition_paired<T>(txs: Vec<T>, per_task: usize) -> (slices: Vec<PairedSlice<T>>)
    requires
        per_task > 0,
        per_task % 2 == 0,
        txs@.len() % 2 == 0,
    ensures
        slices@.len() == slice_count(txs@.len(), per_task as nat),
        forall|i: int|
            0 <= i < slices@.len() ==> {
                &&& #[trigger] slices@[i].order@ == evens(slice_at(txs@, per_task as nat, i))
                &&& slices@[i].confirm@ == odds(slice_at(txs@, per_task as nat, i))
                &&& slices@[i].order@.len() == slices@[i].confirm@.len()
            },
{
    let ghost orig = txs@;
    let ghost per = per_task as nat;
    let mut plain = reversed(partition_into_slices(txs, per_task));
    let ghost n = plain@.len();
    let mut out: Vec<PairedSlice<T>> = Vec::new();
    while plain.len() > 0
        invariant
            n == slice_count(orig.len(), per),
            per == per_task,
            per % 2 == 0,
            per > 0,
            orig.len() % 2 == 0,
            plain@.len() + out@.len() == n,
            forall|j: int|
                0 <= j < plain@.len() ==> #[trigger] plain@[j]@ == slice_at(orig, per, n - 1 - j),
            forall|j: int|
                0 <= j < out@.len() ==> {
                    &&& #[trigger] out@[j].order@ == evens(slice_at(orig, per, j))
                    &&& out@[j].confirm@ == odds(slice_at(orig, per, j))
                    &&& out@[j].order@.len() == out@[j].confirm@.len()
                },
        decreases plain@.len(),
    {
        let ghost i = out@.len() as int;
        proof {
            assert(plain@[plain@.len() - 1]@ == slice_at(orig, per, i));
            lemma_slice_bounds(orig.len(), per, i as nat);
            lemma_paired_slice_even(orig.len(), per, i as nat);
            assert(i * per <= slice_end(orig.len(), per, i) <= orig.len());
        }
        let s = plain.pop().unwrap();
        let p = split_pairs(s);
        out.push(p);
    }
    out
}

/// With even input length and even slice size, every slice has even length.
proof fn lemma_paired_slice_even(len: nat, per: nat, i: nat)
    requires
        per > 0,
        per % 2 == 0,
        len % 2 == 0,
        i * per < len,
    ensures
        (slice_end(len, per, i as int) - i * per) % 2 == 0,
{
    let h = per / 2;
    assert(i * per == 2 * (i * h) && (i + 1) * per == 2 * ((i + 1) * h)) by (nonlinear_arith)
        requires
            per == 2 * h,
    ;
}

} // verus!
