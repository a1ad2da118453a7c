use herdr_mirror::local_mirror::{
    CursorKey, EmulatorOp, EmulatorSpec, LocalMirror, MirrorApplyOutcome, MirrorRuntime,
};
use herdr_mirror::output_log::{MirrorLog, MirrorRead};
use herdr_mirror::pane::{MouseEventKind, TerminalCursorState, WheelRouting};
use herdr_mirror::protocol::MirrorEventKind;
use herdr_mirror::schema::ScrollMetrics;

const BUDGET: usize = 64 * 1024;

fn mirror(cols: u16, rows: u16) -> LocalMirror {
    LocalMirror::with_scrollback(cols, rows, BUDGET, Ok(())).unwrap()
}

fn fed(ops: &[EmulatorOp]) -> Vec<u8> {
    let mut bytes = Vec::new();
    for op in ops {
        if let EmulatorOp::Feed(more) = op {
            bytes.extend_from_slice(more);
        }
    }
    bytes
}

#[test]
fn applies_output_and_hands_it_to_the_emulator() {
    let mut mirror = mirror(20, 4);
    let outcome = mirror.apply_snapshot(0, 20, 4, Ok(())).unwrap();
    assert!(outcome.needs_full_redraw);
    mirror.apply_event(1, MirrorEventKind::Output(b"hello mirror".to_vec()));
    assert_eq!(mirror.last_seq(), Some(1));
    assert_eq!(mirror.take_pending(), vec![EmulatorOp::Feed(b"hello mirror".to_vec())]);
    assert_eq!(mirror.take_pending(), Vec::new());
}

#[test]
fn resize_changes_source_size_and_requests_redraw() {
    let mut mirror = mirror(20, 4);
    mirror.apply_snapshot(0, 20, 4, Ok(())).unwrap();
    let outcome = mirror.apply_event(1, MirrorEventKind::Resize { cols: 40, rows: 10 });
    assert!(outcome.needs_full_redraw);
    assert_eq!(mirror.size(), (40, 10));
    let same = mirror.apply_event(2, MirrorEventKind::Resize { cols: 40, rows: 10 });
    assert!(!same.needs_full_redraw);
}

#[test]
fn configured_scrollback_survives_resnapshot() {
    let custom = 512 * 1024;
    let mut mirror = LocalMirror::with_scrollback(20, 4, custom, Ok(())).unwrap();
    assert_eq!(mirror.scrollback_bytes(), custom);
    mirror.apply_snapshot(0, 40, 10, Ok(())).unwrap();
    assert_eq!(mirror.scrollback_bytes(), custom);
    assert_eq!(mirror.size(), (40, 10));
}

#[test]
fn closed_event_is_reported() {
    let mut mirror = mirror(20, 4);
    mirror.apply_snapshot(0, 20, 4, Ok(())).unwrap();
    let outcome = mirror.apply_event(1, MirrorEventKind::Closed { reason: None });
    assert!(outcome.closed);
}

#[test]
fn an_emulator_that_cannot_be_built_leaves_the_mirror_alone() {
    let mut mirror = mirror(20, 4);
    mirror.apply_event(7, MirrorEventKind::Output(b"x".to_vec()));
    let failed = mirror.apply_snapshot(9, 40, 10, Err("out of memory".to_string()));
    assert_eq!(failed, Err("out of memory".to_string()));
    assert_eq!(mirror.last_seq(), Some(7));
    assert_eq!(mirror.size(), (20, 4));
    assert_eq!(mirror.take_pending(), vec![EmulatorOp::Feed(b"x".to_vec())]);
    assert!(LocalMirror::with_scrollback(1, 1, 1, Err("no".to_string())).is_err());
}

#[test]
fn sizes_are_at_least_one_cell() {
    assert_eq!(mirror(0, 0).size(), (1, 1));
    assert_eq!(
        LocalMirror::emulator(0, 7, 3),
        EmulatorSpec { cols: 1, rows: 7, scrollback_bytes: 3 }
    );
    let mut mirror = mirror(20, 4);
    mirror.apply_event(1, MirrorEventKind::Resize { cols: 0, rows: 0 });
    assert_eq!(mirror.size(), (1, 1));
    assert_eq!(mirror.take_pending(), vec![EmulatorOp::Resize { cols: 1, rows: 1 }]);
}

#[test]
fn a_snapshot_drops_what_the_former_emulator_had_to_take() {
    let mut mirror = mirror(20, 4);
    mirror.apply_event(1, MirrorEventKind::Output(b"old".to_vec()));
    mirror.apply_snapshot(5, 20, 4, Ok(())).unwrap();
    assert_eq!(mirror.last_seq(), Some(5));
    assert_eq!(mirror.take_pending(), Vec::new());
}

#[test]
fn scrolling_is_local_and_in_order() {
    let mut mirror = mirror(20, 4);
    mirror.scroll_up(20);
    mirror.scroll_down(3);
    mirror.set_scroll_offset_from_bottom(5);
    mirror.scroll_to_bottom();
    assert_eq!(mirror.last_seq(), None);
    assert_eq!(
        mirror.take_pending(),
        vec![
            EmulatorOp::ScrollUp(20),
            EmulatorOp::ScrollDown(3),
            EmulatorOp::ScrollTo(5),
            EmulatorOp::ScrollReset,
        ]
    );
}

#[test]
fn replaying_a_log_reproduces_it() {
    let mut log = MirrorLog::with_limit(80, 24, 12);
    log.record_output(b"dropped");
    log.record_resize(100, 30);
    log.record_output(b"kept");
    let MirrorRead::Snapshot { base_seq, cols, rows, events } = log.read_from(None) else {
        panic!("expected snapshot");
    };
    let mut mirror = mirror(1, 1);
    mirror.apply_snapshot(base_seq, cols, rows, Ok(())).unwrap();
    for (seq, kind) in events {
        mirror.apply_event(seq, kind);
    }
    assert_eq!(mirror.size(), (100, 30));
    assert_eq!(mirror.last_seq(), Some(log.latest_seq()));
    assert_eq!(fed(&mirror.take_pending()), b"kept".to_vec());

    log.record_output(b"+more");
    let MirrorRead::Delta { events } = log.read_from(mirror.last_seq()) else {
        panic!("expected delta");
    };
    for (seq, kind) in events {
        mirror.apply_event(seq, kind);
    }
    assert_eq!(fed(&mirror.take_pending()), b"+more".to_vec());
    assert_eq!(mirror.last_seq(), Some(log.latest_seq()));
}

#[test]
fn the_cursor_hides_while_scrolled_back() {
    let cursor = TerminalCursorState { x: 3, y: 1, visible: true, shape: 2 };
    let at = |offset| {
        Some(ScrollMetrics {
            offset_from_bottom: offset,
            max_offset_from_bottom: 10,
            viewport_rows: 4,
        })
    };
    assert_eq!(LocalMirror::cursor_state(Some(cursor), at(0), true), Some(cursor));
    assert_eq!(LocalMirror::cursor_state(Some(cursor), None, true), Some(cursor));
    let hidden = TerminalCursorState { visible: false, ..cursor };
    assert_eq!(LocalMirror::cursor_state(Some(cursor), at(1), true), Some(hidden));
    assert_eq!(LocalMirror::cursor_state(Some(cursor), at(0), false), Some(hidden));
    assert_eq!(LocalMirror::cursor_state(None, at(0), true), None);
    assert!(LocalMirror::is_scrolled_back(at(2)));
    assert!(!LocalMirror::is_scrolled_back(None));
}

#[test]
fn alternate_scroll_turns_the_wheel_into_cursor_keys() {
    let on = Some(WheelRouting::AlternateScroll);
    assert_eq!(
        LocalMirror::alternate_scroll_key(on, MouseEventKind::ScrollUp),
        Some(CursorKey::Up)
    );
    assert_eq!(
        LocalMirror::alternate_scroll_key(on, MouseEventKind::ScrollDown),
        Some(CursorKey::Down)
    );
    assert_eq!(LocalMirror::alternate_scroll_key(on, MouseEventKind::Moved), None);
    assert_eq!(
        LocalMirror::alternate_scroll_key(
            Some(WheelRouting::HostScroll),
            MouseEventKind::ScrollUp
        ),
        None
    );
    assert_eq!(LocalMirror::alternate_scroll_key(None, MouseEventKind::ScrollUp), None);
}

#[test]
fn a_runtime_shares_its_mirror() {
    let mut runtime = MirrorRuntime::from_local_mirror(mirror(20, 4));
    assert_eq!(runtime.current_size(), (4, 20));
    assert_eq!(runtime.scrollback_bytes(), BUDGET);
    assert_eq!(
        runtime.apply_snapshot(3, 30, 6, Ok(())),
        Ok(MirrorApplyOutcome { needs_full_redraw: true, closed: false })
    );
    assert_eq!(runtime.last_seq(), Some(3));
    let outcome = runtime.apply_event(4, MirrorEventKind::Output(b"x".to_vec()));
    assert_eq!(outcome, MirrorApplyOutcome::default());
    runtime.scroll_up(1);
    runtime.scroll_down(2);
    runtime.set_scroll_offset_from_bottom(3);
    runtime.scroll_reset();
    assert_eq!(runtime.take_pending().len(), 5);
    assert!(MirrorRuntime::with_scrollback(1, 1, 1, Err("no".to_string())).is_err());
}

#[test]
fn the_position_is_the_highest_number_applied() {
    let mut mirror = mirror(20, 4);
    assert_eq!(mirror.last_seq(), None);
    mirror.apply_snapshot(0, 20, 4, Ok(())).unwrap();
    mirror.apply_event(5, MirrorEventKind::Output(b"a".to_vec()));
    let outcome = mirror.apply_event(3, MirrorEventKind::Output(b"b".to_vec()));
    assert_eq!(outcome, MirrorApplyOutcome::default());
    assert_eq!(mirror.last_seq(), Some(5));
    assert_eq!(fed(&mirror.take_pending()), b"ab".to_vec());
    mirror.apply_event(6, MirrorEventKind::Output(b"c".to_vec()));
    assert_eq!(mirror.last_seq(), Some(6));
    mirror.apply_snapshot(2, 20, 4, Ok(())).unwrap();
    assert_eq!(mirror.last_seq(), Some(2));
}
