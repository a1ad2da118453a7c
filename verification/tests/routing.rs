use herdr_mirror::pane::{
    rect_contains, InputState, MouseButton, MouseEvent, MouseEventKind, MouseProtocolEncoding,
    MouseProtocolMode, Rect, WheelRouting,
};
use herdr_mirror::projection::{Mode, PaneId};
use herdr_mirror::routing::{
    find_focused, focused_pane_scroll_lines, forward_focused_reported_mouse, handle_key,
    handle_mouse, mouse_takes_focus, next_mode, pane_info_at, paste_bytes, redraws, FocusedTarget,
    KeyFacts, KeyRoute, MouseAction, MouseReport, PaneBox, PaneTarget,
};

fn shell() -> InputState {
    InputState {
        alternate_screen: false,
        application_cursor: false,
        bracketed_paste: false,
        focus_reporting: false,
        mouse_protocol_mode: MouseProtocolMode::Off,
        mouse_protocol_encoding: MouseProtocolEncoding::Default,
        mouse_alternate_scroll: false,
        modify_other_keys: false,
    }
}

fn letter() -> KeyFacts {
    KeyFacts {
        is_prefix: false,
        released: false,
        modifier_only: false,
        escape: false,
        page_up: None,
        direct_action: false,
        prefix_action: false,
    }
}

fn rect(x: u16, y: u16, width: u16, height: u16) -> Rect {
    Rect { x, y, width, height }
}

fn pane_box(raw: u32, x: u16, is_focused: bool) -> PaneBox {
    PaneBox {
        id: PaneId { raw },
        rect: rect(x, 0, 40, 20),
        inner_rect: rect(x + 1, 1, 38, 18),
        is_focused,
    }
}

fn mouse(kind: MouseEventKind, column: u16, row: u16) -> MouseEvent {
    MouseEvent { kind, column, row, modifiers: 0 }
}

#[test]
fn keys_go_to_the_focused_pane() {
    assert_eq!(handle_key(Mode::Terminal, letter(), None), KeyRoute::Forward);
    let escape = KeyFacts { escape: true, ..letter() };
    assert_eq!(handle_key(Mode::Terminal, escape, None), KeyRoute::Forward);
    let released = KeyFacts { released: true, ..letter() };
    assert_eq!(handle_key(Mode::Terminal, released, None), KeyRoute::Ignore);
    let modifier = KeyFacts { modifier_only: true, ..letter() };
    assert_eq!(handle_key(Mode::Terminal, modifier, None), KeyRoute::Ignore);
    let bound = KeyFacts { direct_action: true, prefix_action: true, ..letter() };
    assert_eq!(handle_key(Mode::Terminal, bound, None), KeyRoute::DirectAction);
}

#[test]
fn the_prefix_opens_a_menu() {
    let prefix = KeyFacts { is_prefix: true, ..letter() };
    assert_eq!(handle_key(Mode::Terminal, prefix, None), KeyRoute::ArmPrefix);
    assert_eq!(next_mode(Mode::Terminal, KeyRoute::ArmPrefix), Mode::Prefix);
    assert_eq!(handle_key(Mode::Prefix, prefix, None), KeyRoute::LeavePrefixAndForward);
    assert_eq!(next_mode(Mode::Prefix, KeyRoute::LeavePrefixAndForward), Mode::Terminal);
    let escape = KeyFacts { escape: true, prefix_action: true, ..letter() };
    assert_eq!(handle_key(Mode::Prefix, escape, None), KeyRoute::LeavePrefix);
    assert_eq!(next_mode(Mode::Prefix, KeyRoute::LeavePrefix), Mode::Terminal);
    let bound = KeyFacts { prefix_action: true, ..letter() };
    assert_eq!(handle_key(Mode::Prefix, bound, None), KeyRoute::PrefixAction);
    assert_eq!(next_mode(Mode::Prefix, KeyRoute::PrefixAction), Mode::Prefix);
    assert_eq!(handle_key(Mode::Prefix, letter(), None), KeyRoute::LeavePrefix);
}

#[test]
fn lifting_the_chord_keeps_the_menu() {
    for key in [
        KeyFacts { released: true, is_prefix: true, ..letter() },
        KeyFacts { modifier_only: true, ..letter() },
    ] {
        let route = handle_key(Mode::Prefix, key, None);
        assert_eq!(route, KeyRoute::Ignore);
        assert_eq!(next_mode(Mode::Prefix, route), Mode::Prefix);
        assert!(!redraws(route));
    }
}

#[test]
fn overlays_take_every_key() {
    for mode in [Mode::Navigate, Mode::Overlay] {
        let key = KeyFacts { is_prefix: true, released: true, ..letter() };
        assert_eq!(handle_key(mode, key, Some(shell())), KeyRoute::Overlay);
        assert_eq!(next_mode(mode, KeyRoute::Overlay), mode);
    }
    assert!(redraws(KeyRoute::Overlay));
    assert!(redraws(KeyRoute::DirectAction));
    assert!(!redraws(KeyRoute::Forward));
    assert!(!redraws(KeyRoute::ScrollPage { up: true }));
}

#[test]
fn page_keys_scroll_a_transcript() {
    let page = |up| KeyFacts { page_up: Some(up), ..letter() };
    assert_eq!(
        handle_key(Mode::Terminal, page(true), Some(shell())),
        KeyRoute::ScrollPage { up: true }
    );
    assert_eq!(
        handle_key(Mode::Terminal, page(false), Some(shell())),
        KeyRoute::ScrollPage { up: false }
    );
    let full_screen = InputState { alternate_screen: true, ..shell() };
    assert_eq!(handle_key(Mode::Terminal, page(true), Some(full_screen)), KeyRoute::Forward);
    let cursor_keys = InputState { application_cursor: true, ..shell() };
    assert_eq!(handle_key(Mode::Terminal, page(true), Some(cursor_keys)), KeyRoute::Forward);
    assert_eq!(handle_key(Mode::Terminal, page(true), None), KeyRoute::Forward);
}

#[test]
fn rectangles_hold_their_cells() {
    let r = rect(2, 3, 4, 5);
    assert!(rect_contains(r, 2, 3));
    assert!(rect_contains(r, 5, 7));
    assert!(!rect_contains(r, 6, 7));
    assert!(!rect_contains(r, 5, 8));
    assert!(!rect_contains(r, 1, 3));
    assert!(!rect_contains(rect(0, 0, 0, 5), 0, 0));
    let edge = rect(65530, 0, 100, 1);
    assert!(rect_contains(edge, 65534, 0));
    assert!(!rect_contains(edge, 65535, 0));
}

#[test]
fn panes_are_found_by_cell_and_by_focus() {
    let boxes = vec![pane_box(1, 0, false), pane_box(2, 40, true), pane_box(3, 40, true)];
    assert_eq!(find_focused(&boxes).unwrap().id, PaneId { raw: 2 });
    assert_eq!(pane_info_at(&boxes, 45, 5, true).unwrap().id, PaneId { raw: 2 });
    assert_eq!(pane_info_at(&boxes, 0, 0, true).unwrap().id, PaneId { raw: 1 });
    assert!(pane_info_at(&boxes, 0, 0, false).is_none());
    assert!(pane_info_at(&boxes, 90, 5, true).is_none());
    assert!(find_focused(&Vec::new()).is_none());
}

#[test]
fn a_page_is_the_height_of_the_focused_pane() {
    assert_eq!(focused_pane_scroll_lines(&vec![pane_box(1, 0, true)]), 18);
    assert_eq!(focused_pane_scroll_lines(&vec![pane_box(1, 0, false)]), 10);
    let flat = PaneBox { inner_rect: rect(0, 0, 9, 0), ..pane_box(1, 0, true) };
    assert_eq!(focused_pane_scroll_lines(&vec![flat]), 1);
}

#[test]
fn the_wheel_goes_where_the_terminal_says() {
    let b = pane_box(1, 40, false);
    let wheel = mouse(MouseEventKind::ScrollUp, 45, 5);
    assert_eq!(
        handle_mouse(wheel, b, PaneTarget::Mirrored(Some(WheelRouting::HostScroll))),
        MouseAction::Scroll { up: true }
    );
    assert_eq!(
        handle_mouse(
            mouse(MouseEventKind::ScrollDown, 45, 5),
            b,
            PaneTarget::Mirrored(None)
        ),
        MouseAction::Scroll { up: false }
    );
    assert_eq!(
        handle_mouse(wheel, b, PaneTarget::Mirrored(Some(WheelRouting::MouseReport))),
        MouseAction::Report {
            report: MouseReport::Wheel,
            column: 4,
            row: 4,
            reset_scroll: true
        }
    );
    assert!(matches!(
        handle_mouse(wheel, b, PaneTarget::Mirrored(Some(WheelRouting::AlternateScroll))),
        MouseAction::Report { report: MouseReport::AlternateScroll, .. }
    ));
    assert_eq!(
        handle_mouse(mouse(MouseEventKind::ScrollLeft, 40, 0), b, PaneTarget::Mirrored(None)),
        MouseAction::Report {
            report: MouseReport::Wheel,
            column: 0,
            row: 0,
            reset_scroll: true
        }
    );
    assert_eq!(handle_mouse(wheel, b, PaneTarget::WithoutMirror), MouseAction::Nothing);
}

#[test]
fn buttons_and_motion_count_within_the_content() {
    let b = pane_box(1, 40, false);
    let target = PaneTarget::Mirrored(None);
    for kind in [
        MouseEventKind::Down(MouseButton::Left),
        MouseEventKind::Up(MouseButton::Right),
        MouseEventKind::Drag(MouseButton::Middle),
    ] {
        assert_eq!(
            handle_mouse(mouse(kind, 41, 1), b, target),
            MouseAction::Report {
                report: MouseReport::Button,
                column: 0,
                row: 0,
                reset_scroll: true
            }
        );
        assert_eq!(handle_mouse(mouse(kind, 40, 0), b, target), MouseAction::Nothing);
    }
    assert_eq!(
        handle_mouse(mouse(MouseEventKind::Moved, 50, 3), b, target),
        MouseAction::Report {
            report: MouseReport::Motion,
            column: 9,
            row: 2,
            reset_scroll: false
        }
    );
    assert_eq!(
        handle_mouse(mouse(MouseEventKind::Moved, 40, 0), b, target),
        MouseAction::Nothing
    );
}

#[test]
fn clicks_and_wheel_turns_take_the_focus() {
    assert!(mouse_takes_focus(MouseEventKind::ScrollUp));
    assert!(mouse_takes_focus(MouseEventKind::ScrollDown));
    assert!(mouse_takes_focus(MouseEventKind::Down(MouseButton::Left)));
    assert!(mouse_takes_focus(MouseEventKind::Down(MouseButton::Middle)));
    assert!(!mouse_takes_focus(MouseEventKind::Down(MouseButton::Right)));
    assert!(!mouse_takes_focus(MouseEventKind::Up(MouseButton::Left)));
    assert!(!mouse_takes_focus(MouseEventKind::Moved));
    assert!(!mouse_takes_focus(MouseEventKind::ScrollLeft));
}

#[test]
fn off_the_panes_only_a_mouse_application_hears() {
    let wheel = mouse(MouseEventKind::ScrollDown, 99, 7);
    assert_eq!(
        forward_focused_reported_mouse(wheel, FocusedTarget::Absent),
        MouseAction::Redraw
    );
    assert_eq!(
        forward_focused_reported_mouse(wheel, FocusedTarget::WithoutMirror),
        MouseAction::Nothing
    );
    assert_eq!(
        forward_focused_reported_mouse(wheel, FocusedTarget::Mirrored(None)),
        MouseAction::Redraw
    );
    assert_eq!(
        forward_focused_reported_mouse(wheel, FocusedTarget::Mirrored(Some(shell()))),
        MouseAction::Redraw
    );
    let app = InputState { mouse_protocol_mode: MouseProtocolMode::AnyMotion, ..shell() };
    let on = FocusedTarget::Mirrored(Some(app));
    assert_eq!(
        forward_focused_reported_mouse(wheel, on),
        MouseAction::Report {
            report: MouseReport::Wheel,
            column: 99,
            row: 7,
            reset_scroll: true
        }
    );
    assert!(matches!(
        forward_focused_reported_mouse(
            mouse(MouseEventKind::Up(MouseButton::Left), 1, 1),
            on
        ),
        MouseAction::Report { report: MouseReport::Button, reset_scroll: true, .. }
    ));
    assert!(matches!(
        forward_focused_reported_mouse(mouse(MouseEventKind::Moved, 1, 1), on),
        MouseAction::Report { report: MouseReport::Motion, reset_scroll: false, .. }
    ));
    assert_eq!(
        forward_focused_reported_mouse(mouse(MouseEventKind::ScrollRight, 1, 1), on),
        MouseAction::Nothing
    );
}

#[test]
fn pastes_are_bracketed_on_request() {
    assert_eq!(paste_bytes("hé", None), "hé".as_bytes().to_vec());
    assert_eq!(paste_bytes("hi", Some(shell())), b"hi".to_vec());
    let asks = InputState { bracketed_paste: true, ..shell() };
    assert_eq!(paste_bytes("hi", Some(asks)), b"\x1b[200~hi\x1b[201~".to_vec());
}
