use bytes::Bytes;
use load_generator::{
    chunk_size_per_task, count_slices, partition_into_slices, partition_paired, quorum_reached,
    quorum_threshold, split_pairs, TickSchedule,
};

#[test]
fn threshold_for_four_seven_and_one_endpoints() {
    assert_eq!(quorum_threshold(4), 3);
    assert_eq!(quorum_threshold(7), 5);
    assert_eq!(quorum_threshold(1), 1);
    assert_eq!(quorum_threshold(2), 1);
    assert_eq!(quorum_threshold(3), 2);
    assert_eq!(quorum_threshold(10), 7);
}

#[test]
fn quorum_reached_is_strictly_above_two_thirds() {
    assert!(!quorum_reached(2, 4));
    assert!(quorum_reached(3, 4));
    assert!(!quorum_reached(4, 7));
    assert!(quorum_reached(5, 7));
    assert!(!quorum_reached(0, 1));
    assert!(quorum_reached(1, 1));
}

#[test]
fn chunk_size_is_two_per_connection() {
    assert_eq!(chunk_size_per_task(1), 2);
    assert_eq!(chunk_size_per_task(2), 4);
    assert_eq!(chunk_size_per_task(5), 10);
}

#[test]
fn sixteen_transactions_two_connections_make_four_slices() {
    let txs: Vec<u32> = (0..16).collect();
    let per = chunk_size_per_task(2);
    let slices = partition_into_slices(txs, per);
    assert_eq!(slices.len(), 4);
    assert_eq!(count_slices(16, per), 4);
    for (i, s) in slices.iter().enumerate() {
        let want: Vec<u32> = (4 * i as u32..4 * i as u32 + 4).collect();
        assert_eq!(s, &want);
    }
}

#[test]
fn uneven_input_leaves_a_short_last_slice() {
    let txs: Vec<u32> = vec![10, 11, 12, 13, 14];
    let slices = partition_into_slices(txs, 2);
    assert_eq!(slices, vec![vec![10, 11], vec![12, 13], vec![14]]);
    assert_eq!(count_slices(5, 2), 3);
}

#[test]
fn empty_input_makes_no_slice() {
    let slices = partition_into_slices(Vec::<u32>::new(), 4);
    assert!(slices.is_empty());
    assert_eq!(count_slices(0, 4), 0);
}

#[test]
fn single_transaction_makes_one_slice() {
    let slices = partition_into_slices(vec![Bytes::from_static(b"tx")], chunk_size_per_task(1));
    assert_eq!(slices.len(), 1);
    assert_eq!(slices[0], vec![Bytes::from_static(b"tx")]);
}

#[test]
fn slices_concatenate_to_the_input() {
    let txs: Vec<u32> = (0..23).collect();
    let slices = partition_into_slices(txs.clone(), 6);
    assert_eq!(slices.len(), 4);
    assert!(slices.iter().all(|s| !s.is_empty() && s.len() <= 6));
    let joined: Vec<u32> = slices.into_iter().flatten().collect();
    assert_eq!(joined, txs);
}

#[test]
fn split_pairs_takes_even_and_odd_positions() {
    let p = split_pairs(vec![1u32, 2, 3, 4, 5, 6]);
    assert_eq!(p.order, vec![1, 3, 5]);
    assert_eq!(p.confirm, vec![2, 4, 6]);
    let e = split_pairs(Vec::<u32>::new());
    assert!(e.order.is_empty() && e.confirm.is_empty());
}

#[test]
fn four_pairs_one_connection_make_four_paired_slices() {
    let txs: Vec<Bytes> = (0..8u8).map(|i| Bytes::from(vec![i])).collect();
    let slices = partition_paired(txs, chunk_size_per_task(1));
    assert_eq!(slices.len(), 4);
    for (i, s) in slices.iter().enumerate() {
        assert_eq!(s.order, vec![Bytes::from(vec![2 * i as u8])]);
        assert_eq!(s.confirm, vec![Bytes::from(vec![2 * i as u8 + 1])]);
    }
}

#[test]
fn paired_slices_keep_equal_halves() {
    let txs: Vec<u32> = (0..10).collect();
    let slices = partition_paired(txs, 4);
    assert_eq!(slices.len(), 3);
    assert_eq!(slices[0].order, vec![0, 2]);
    assert_eq!(slices[0].confirm, vec![1, 3]);
    assert_eq!(slices[2].order, vec![8]);
    assert_eq!(slices[2].confirm, vec![9]);
    assert!(slices.iter().all(|s| s.order.len() == s.confirm.len()));
}

#[test]
fn schedule_ticks_once_per_slice() {
    let mut s = TickSchedule::new(16, 4);
    assert_eq!(s.ticks_needed(), 4);
    let mut ticks = 0;
    while !s.is_done() {
        s.on_tick();
        ticks += 1;
    }
    assert_eq!(ticks, 4);
    assert_eq!(s.released, 16);
}

#[test]
fn schedule_with_no_transactions_never_ticks() {
    let s = TickSchedule::new(0, 2);
    assert!(s.is_done());
    assert_eq!(s.ticks_needed(), 0);
}

#[test]
fn schedule_rounds_a_partial_slice_up() {
    let mut s = TickSchedule::new(1, 2);
    assert!(!s.is_done());
    s.on_tick();
    assert!(s.is_done());
    assert_eq!(s.ticks, 1);
    let mut t = TickSchedule::new(9, 4);
    let mut ticks = 0;
    while !t.is_done() {
        t.on_tick();
        ticks += 1;
    }
    assert_eq!(ticks, 3);
}

#[test]
fn schedule_saturates_the_released_count() {
    let mut s = TickSchedule::new(usize::MAX, usize::MAX - 1);
    s.on_tick();
    assert!(!s.is_done());
    s.on_tick();
    assert_eq!(s.released, usize::MAX);
    assert!(s.is_done());
}
