use herdr_mirror::local_mirror::{EmulatorOp, MirrorRuntime};
use herdr_mirror::pane::{InputState, MouseEventKind, MouseProtocolEncoding, MouseProtocolMode};
use herdr_mirror::protocol::MirrorEventKind;
use herdr_mirror::runtime::{
    is_alt_screen, PtyId, Route, TerminalDirtyPatchOutcome, TerminalRuntime,
};

fn mirror_with_bytes(cols: u16, rows: u16, bytes: &[u8]) -> TerminalRuntime {
    let mut mirror = MirrorRuntime::with_scrollback(cols, rows, 4096, Ok(())).unwrap();
    mirror.apply_snapshot(0, cols, rows, Ok(())).unwrap();
    mirror.apply_event(1, MirrorEventKind::Output(bytes.to_vec()));
    TerminalRuntime::mirror(mirror)
}

fn pty() -> TerminalRuntime {
    TerminalRuntime::spawned(Ok(PtyId { raw: 7 })).unwrap()
}

fn input_state(alternate_screen: bool) -> InputState {
    InputState {
        alternate_screen,
        application_cursor: false,
        bracketed_paste: false,
        focus_reporting: false,
        mouse_protocol_mode: MouseProtocolMode::Off,
        mouse_protocol_encoding: MouseProtocolEncoding::Default,
        mouse_alternate_scroll: false,
        modify_other_keys: false,
    }
}

#[test]
fn mirror_variant_dispatches_read_surface_through_pane_view() {
    let mut runtime = mirror_with_bytes(20, 4, b"hello mirror");
    assert!(matches!(runtime.current_size(), Route::Answer((4, 20))));
    assert!(!is_alt_screen(Some(input_state(false))));
    assert!(matches!(runtime.visible_text(), Route::Mirror { call: () }));
    assert!(matches!(runtime.scroll_up(10), Route::Answer(())));
    assert!(matches!(runtime.scroll_reset(), Route::Answer(())));
    let TerminalRuntime::Mirror(mut mirror) = runtime else {
        panic!("expected a mirror");
    };
    assert_eq!(
        mirror.take_pending(),
        vec![
            EmulatorOp::Feed(b"hello mirror".to_vec()),
            EmulatorOp::ScrollUp(10),
            EmulatorOp::ScrollReset,
        ]
    );
}

#[test]
fn mirror_variant_reports_no_pty_metadata() {
    let runtime = mirror_with_bytes(20, 4, b"x");
    assert!(matches!(runtime.cwd(), Route::Answer(None)));
    assert!(matches!(runtime.foreground_cwd(), Route::Answer(None)));
    assert!(matches!(runtime.child_pid(), Route::Answer(None)));
    assert!(matches!(runtime.snapshot_history(), Route::Answer(None)));
}

#[test]
fn a_mirror_answers_what_only_a_pty_can_do() {
    let runtime = mirror_with_bytes(20, 4, b"x");
    assert!(matches!(runtime.terminal_title(), Route::Answer(None)));
    assert!(matches!(runtime.resize(4, 20, 0, 0), Route::Answer(())));
    assert!(matches!(runtime.send_bytes(b"x".to_vec()), Route::Answer(Ok(()))));
    assert!(matches!(runtime.try_send_paste("x".to_string()), Route::Answer(Ok(()))));
    assert!(matches!(runtime.try_send_focus_event(1), Route::Answer(false)));
    assert!(matches!(runtime.pause_handoff_reader(5), Route::Answer(Ok(()))));
    assert!(matches!(runtime.handoff_history_ansi(), Route::Answer(None)));
    assert!(matches!(
        runtime.collect_dirty_patch(20, 4),
        Route::Answer(TerminalDirtyPatchOutcome::Fallback)
    ));
    let Route::Answer(Err(message)) = runtime.duplicate_handoff_fd() else {
        panic!("expected an error");
    };
    assert_eq!(message, "mirror runtime has no handoff fd");
    let Route::Answer(state) = runtime.handoff_runtime_state(9) else {
        panic!("expected a state");
    };
    assert_eq!((state.pane_id, state.child_pid, state.rows, state.cols), (9, 0, 0, 0));
    assert_eq!(state.terminal_title, None);
    let Route::Answer(log) = runtime.output_log() else {
        panic!("expected a log");
    };
    assert_eq!(log.latest_seq(), 0);
    assert!(matches!(runtime.shutdown(), Route::Answer(())));
}

#[test]
fn a_pty_answers_for_itself() {
    let mut runtime = pty();
    let id = PtyId { raw: 7 };
    assert!(matches!(runtime.current_size(), Route::Pty { id: p, .. } if p == id));
    assert!(matches!(runtime.visible_text(), Route::Pty { id: p, .. } if p == id));
    assert!(matches!(runtime.cwd(), Route::Pty { id: p, .. } if p == id));
    assert!(matches!(runtime.output_log(), Route::Pty { id: p, .. } if p == id));
    assert!(matches!(runtime.duplicate_handoff_fd(), Route::Pty { id: p, .. } if p == id));
    assert!(matches!(runtime.scroll_up(3), Route::Pty { id: p, .. } if p == id));
    assert!(matches!(runtime.scroll_down(3), Route::Pty { id: p, .. } if p == id));
    assert!(matches!(runtime.set_scroll_offset_from_bottom(3), Route::Pty { id: p, .. } if p == id));
    assert!(matches!(
        runtime.resize(5, 40, 9, 18),
        Route::Pty { id: p, call: (5, 40, 9, 18) } if p == id
    ));
    assert!(matches!(
        runtime.search_text_matches::<u32>("needle", true),
        Route::Pty { call: ("needle", true), .. }
    ));
    assert!(matches!(
        runtime.send_bytes(b"ls".to_vec()),
        Route::Pty { call, .. } if call == b"ls".to_vec()
    ));
    assert!(matches!(runtime.preserve_for_handoff(), Route::Pty { id: p, .. } if p == id));
    assert!(matches!(
        TerminalRuntime::spawned(Err("no pty".to_string())),
        Err(message) if message == "no pty"
    ));
}

#[test]
fn a_mirrors_emulator_gets_the_calls_arguments() {
    let runtime = mirror_with_bytes(20, 4, b"x");
    assert!(matches!(
        runtime.encode_mouse_wheel(MouseEventKind::ScrollUp, 3, 2, 0),
        Route::Mirror { call: (MouseEventKind::ScrollUp, 3, 2, 0) }
    ));
    assert!(matches!(runtime.recent_text(50), Route::Mirror { call: 50 }));
    assert!(matches!(runtime.encode_terminal_key('a'), Route::Mirror { call: 'a' }));
}

#[test]
fn the_alternate_screen_is_read_from_the_input_state() {
    assert!(is_alt_screen(Some(input_state(true))));
    assert!(!is_alt_screen(Some(input_state(false))));
    assert!(!is_alt_screen(None));
}
