use herdr_mirror::output_log::{MirrorLog, MirrorRead, RESIZE_ENTRY_COST};
use herdr_mirror::protocol::MirrorEventKind;

fn output_events(read: &MirrorRead) -> Vec<(u64, Vec<u8>)> {
    let events = match read {
        MirrorRead::Snapshot { events, .. } | MirrorRead::Delta { events } => events,
    };
    events
        .iter()
        .filter_map(|(seq, kind)| match kind {
            MirrorEventKind::Output(bytes) => Some((*seq, bytes.clone())),
            _ => None,
        })
        .collect()
}

#[test]
fn empty_log_fresh_read_is_empty_snapshot_at_zero() {
    let log = MirrorLog::new(80, 24);
    match log.read_from(None) {
        MirrorRead::Snapshot { base_seq, cols, rows, events } => {
            assert_eq!(base_seq, 0);
            assert_eq!((cols, rows), (80, 24));
            assert!(events.is_empty());
        }
        other => panic!("expected snapshot, got {other:?}"),
    }
}

#[test]
fn output_gets_monotonic_contiguous_seqs() {
    let mut log = MirrorLog::new(80, 24);
    assert_eq!(log.record_output(b"a"), 1);
    assert_eq!(log.record_output(b"bc"), 2);
    assert_eq!(log.record_output(b"d"), 3);
    assert_eq!(log.latest_seq(), 3);

    let snapshot = log.read_from(None);
    assert_eq!(
        output_events(&snapshot),
        vec![(1, b"a".to_vec()), (2, b"bc".to_vec()), (3, b"d".to_vec())]
    );
}

#[test]
fn empty_output_is_ignored() {
    let mut log = MirrorLog::new(80, 24);
    assert_eq!(log.record_output(b""), 0);
    assert_eq!(log.latest_seq(), 0);
    assert_eq!(log.record_output(b"x"), 1);
}

#[test]
fn resize_shares_sequence_space_and_dedupes() {
    let mut log = MirrorLog::new(80, 24);
    log.record_output(b"a");
    assert_eq!(log.record_resize(100, 30), 2);
    assert_eq!(log.record_resize(100, 30), 2);
    log.record_output(b"b");

    let MirrorRead::Snapshot { events, .. } = log.read_from(None) else {
        panic!("expected snapshot");
    };
    assert_eq!(events.len(), 3);
    assert_eq!(events[1].1, MirrorEventKind::Resize { cols: 100, rows: 30 });
}

#[test]
fn delta_read_returns_only_newer_events() {
    let mut log = MirrorLog::new(80, 24);
    log.record_output(b"a");
    log.record_output(b"b");
    log.record_output(b"c");

    let delta = log.read_from(Some(1));
    assert!(matches!(delta, MirrorRead::Delta { .. }));
    assert_eq!(output_events(&delta), vec![(2, b"b".to_vec()), (3, b"c".to_vec())]);

    let caught_up = log.read_from(Some(3));
    assert_eq!(output_events(&caught_up), Vec::new());
    assert!(matches!(caught_up, MirrorRead::Delta { .. }));
}

#[test]
fn eviction_bounds_bytes_and_advances_base() {
    let mut log = MirrorLog::with_limit(80, 24, 4);
    log.record_output(b"aa");
    log.record_output(b"bb");
    log.record_output(b"cc");

    let MirrorRead::Snapshot { base_seq, events, .. } = log.read_from(None) else {
        panic!("expected snapshot");
    };
    assert_eq!(base_seq, 1);
    assert_eq!(
        output_events(&MirrorRead::Snapshot { base_seq, cols: 0, rows: 0, events: events.clone() }),
        vec![(2, b"bb".to_vec()), (3, b"cc".to_vec())]
    );
}

#[test]
fn resume_past_evicted_window_falls_back_to_snapshot() {
    let mut log = MirrorLog::with_limit(80, 24, 4);
    log.record_output(b"aa");
    log.record_output(b"bb");
    log.record_output(b"cc");

    assert!(matches!(log.read_from(Some(0)), MirrorRead::Snapshot { .. }));
    assert!(matches!(log.read_from(Some(1)), MirrorRead::Delta { .. }));
}

#[test]
fn evicting_resize_advances_start_size() {
    let mut log = MirrorLog::with_limit(80, 24, RESIZE_ENTRY_COST);
    log.record_resize(100, 30);
    log.record_output(b"aaaaaaaa");

    let MirrorRead::Snapshot { cols, rows, base_seq, .. } = log.read_from(None) else {
        panic!("expected snapshot");
    };
    assert_eq!((cols, rows), (100, 30));
    assert_eq!(base_seq, 1);
}

#[test]
fn subscriber_tracking() {
    let mut log = MirrorLog::new(80, 24);
    assert!(!log.has_subscribers());
    log.add_subscriber();
    assert!(log.has_subscribers());
    log.add_subscriber();
    log.remove_subscriber();
    assert!(log.has_subscribers());
    log.remove_subscriber();
    assert!(!log.has_subscribers());
    log.remove_subscriber();
    assert!(!log.has_subscribers());
}

#[test]
fn a_single_entry_above_the_limit_is_kept() {
    let mut log = MirrorLog::with_limit(80, 24, 4);
    log.record_output(b"abcdefgh");
    assert_eq!(output_events(&log.read_from(None)), vec![(1, b"abcdefgh".to_vec())]);
    log.record_output(b"i");
    assert_eq!(output_events(&log.read_from(None)), vec![(2, b"i".to_vec())]);
}

#[test]
fn a_limit_of_zero_counts_as_one() {
    let mut log = MirrorLog::with_limit(80, 24, 0);
    log.record_output(b"a");
    log.record_output(b"b");
    assert_eq!(output_events(&log.read_from(None)), vec![(2, b"b".to_vec())]);
}

#[test]
fn a_number_from_the_future_gets_a_snapshot() {
    let mut log = MirrorLog::new(80, 24);
    log.record_output(b"a");
    assert!(matches!(log.read_from(Some(2)), MirrorRead::Snapshot { .. }));
}

#[test]
fn snapshot_is_what_was_held_followed_by_the_delta() {
    let mut log = MirrorLog::new(80, 24);
    log.record_output(b"a");
    log.record_resize(90, 30);
    log.record_output(b"b");
    let MirrorRead::Snapshot { events, .. } = log.read_from(None) else {
        panic!("expected snapshot");
    };
    for seq in 0..=3u64 {
        let MirrorRead::Delta { events: rest } = log.read_from(Some(seq)) else {
            panic!("expected delta");
        };
        let mut joined = events[..seq as usize].to_vec();
        joined.extend(rest);
        assert_eq!(joined, events);
    }
}

#[test]
fn a_caught_up_reader_gets_exactly_the_next_event() {
    let mut log = MirrorLog::with_limit(80, 24, 4);
    log.record_output(b"aaaa");
    let latest = log.latest_seq();
    log.record_output(b"bbbb");
    assert_eq!(
        log.read_from(Some(latest)),
        MirrorRead::Delta { events: vec![(2, MirrorEventKind::Output(b"bbbb".to_vec()))] }
    );
}

#[test]
fn resizes_count_against_the_limit() {
    let mut log = MirrorLog::with_limit(80, 24, 16);
    log.record_resize(81, 24);
    log.record_resize(82, 24);
    log.record_resize(83, 24);
    let MirrorRead::Snapshot { base_seq, cols, events, .. } = log.read_from(None) else {
        panic!("expected snapshot");
    };
    assert_eq!(base_seq, 1);
    assert_eq!(cols, 81);
    assert_eq!(events.len(), 2);
}

#[test]
fn a_run_retains_the_longest_suffix_within_the_limit() {
    let sizes = [3usize, 1, 4, 1, 5, 9, 2, 6, 5, 3];
    for limit in 0..40usize {
        let mut log = MirrorLog::with_limit(80, 24, limit);
        for (count, size) in sizes.iter().enumerate() {
            assert_eq!(log.record_output(&vec![b'x'; *size]), count as u64 + 1);
            let recorded = &sizes[..count + 1];
            let cap = limit.max(1);
            let mut kept = 1;
            while kept < recorded.len()
                && recorded[recorded.len() - kept - 1..].iter().sum::<usize>() <= cap
            {
                kept += 1;
            }
            let expected: Vec<(u64, Vec<u8>)> = (recorded.len() - kept..recorded.len())
                .map(|i| (i as u64 + 1, vec![b'x'; recorded[i]]))
                .collect();
            assert_eq!(output_events(&log.read_from(None)), expected);
        }
    }
}

#[test]
fn recording_leaves_the_newest_of_what_was_held_before_it() {
    let mut log = MirrorLog::with_limit(80, 24, 6);
    log.record_output(b"abc");
    log.record_output(b"def");
    assert_eq!(log.record_output(b""), 2);
    assert_eq!(output_events(&log.read_from(None)), vec![(1, b"abc".to_vec()), (2, b"def".to_vec())]);
    assert_eq!(log.record_output(b"gh"), 3);
    assert_eq!(log.latest_seq(), 3);
    assert_eq!(output_events(&log.read_from(None)), vec![(2, b"def".to_vec()), (3, b"gh".to_vec())]);
}
