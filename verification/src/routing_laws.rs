//! What holds of every key, mouse event, scroll and paste.
use crate::pane::{
    InputState, MouseButton, MouseEvent, MouseEventKind, MouseProtocolMode, Rect, WheelRouting,
};
use crate::pane;
use crate::projection::Mode;
use crate::protocol::AttachScrollSource;
use crate::routing;
use crate::routing::{
    FocusedTarget, KeyFacts, KeyRoute, MouseAction, MouseReport, PaneBox, PaneTarget,
};
use crate::scroll;
use crate::scroll::ScrollDisposition;
use vstd::prelude::*;

verus! {

/// A key that was pressed and is more than a modifier.
pub open spec fn counts(key: KeyFacts) -> bool {
    !key.released && !key.modifier_only
}

/// A terminal that shows a transcript: on its main screen, with the cursor keys left
/// to the host.
pub open spec fn shows_transcript(input_state: Option<InputState>) -> bool {
    input_state is Some && !input_state->0.alternate_screen && !input_state->0.application_cursor
}

/// In the terminal the prefix key opens the menu, however it comes. Of the other keys
/// those that count go to their binding, else a page key scrolls a transcript, else
/// the pane gets them.
pub proof fn terminal_keys_go_where_they_belong(key: KeyFacts, input_state: Option<InputState>)
    ensures
        ({
            let r = routing::key_route(Mode::Terminal, key, input_state);
            &&& r is ArmPrefix <==> key.is_prefix
            &&& r is Ignore <==> !key.is_prefix && !counts(key)
            &&& r is DirectAction <==> !key.is_prefix && counts(key) && key.direct_action
            &&& r is ScrollPage <==> !key.is_prefix && counts(key) && !key.direct_action
                && key.page_up is Some && shows_transcript(input_state)
            &&& r matches KeyRoute::ScrollPage { up } ==> key.page_up == Some(up)
            &&& r is Forward <==> !key.is_prefix && counts(key) && !key.direct_action && !(
            key.page_up is Some && shows_transcript(input_state))
        }),
{
}

/// In the prefix menu a key that counts leaves the menu: Escape and unknown keys do
/// just that, the prefix key goes to the pane besides, and a bound key runs its action.
pub proof fn menu_keys_go_where_they_belong(key: KeyFacts, input_state: Option<InputState>)
    ensures
        ({
            let r = routing::key_route(Mode::Prefix, key, input_state);
            &&& r is Ignore <==> !counts(key)
            &&& r is LeavePrefixAndForward <==> counts(key) && !key.escape && key.is_prefix
            &&& r is PrefixAction <==> counts(key) && !key.escape && !key.is_prefix
                && key.prefix_action
            &&& r is LeavePrefix <==> counts(key) && (key.escape || !key.is_prefix
                && !key.prefix_action)
        }),
{
}

/// Where neither the terminal nor the prefix menu has the keys, the overlay gets
/// every one.
pub proof fn overlays_get_every_key(mode: Mode, key: KeyFacts, input_state: Option<InputState>)
    ensures
        mode == Mode::Overlay || mode == Mode::Navigate <==> routing::key_route(
            mode,
            key,
            input_state,
        ) is Overlay,
{
}

/// The menu opens with the prefix key and closes where a key leaves it; no other
/// route changes the mode.
pub proof fn the_menu_opens_and_closes(mode: Mode, route: KeyRoute)
    ensures
        route is ArmPrefix ==> routing::mode_after_key(mode, route) == Mode::Prefix,
        route is LeavePrefix || route is LeavePrefixAndForward ==> routing::mode_after_key(
            mode,
            route,
        ) == Mode::Terminal,
        !(route is ArmPrefix || route is LeavePrefix || route is LeavePrefixAndForward)
            ==> routing::mode_after_key(mode, route) == mode,
{
}

/// A route asks for a drawing unless it does nothing, scrolls or forwards.
pub proof fn only_visible_routes_redraw(route: KeyRoute)
    ensures
        !routing::route_redraws(route) <==> route is Ignore || route is ScrollPage
            || route is Forward,
{
}

/// The wheel scrolls locally; a page key does over a transcript, and goes to the
/// server over anything else or what is not known.
pub proof fn scrolls_are_local_over_transcripts(
    input: Vec<u8>,
    input_state: Option<InputState>,
)
    ensures
        scroll::disposition(AttachScrollSource::Wheel, input_state) == ScrollDisposition::Local,
        scroll::disposition((AttachScrollSource::PageKey { input }), input_state)
            == ScrollDisposition::Local <==> shows_transcript(input_state),
{
}

/// Page keys belong to the host on the main screen with the cursor keys left alone;
/// an application reports the mouse in every mode but the one without mouse.
pub proof fn input_modes_mean_what_they_say(state: InputState)
    ensures
        state.host_pages() <==> !(state.alternate_screen || state.application_cursor),
        state.reports_mouse() <==> state.mouse_protocol_mode == MouseProtocolMode::Press
            || state.mouse_protocol_mode == MouseProtocolMode::PressRelease
            || state.mouse_protocol_mode == MouseProtocolMode::ButtonMotion
            || state.mouse_protocol_mode == MouseProtocolMode::AnyMotion,
{
}

/// A rectangle that ends before the last coordinate covers exactly its width times its
/// height: the cells from its corner on, up to but not at its far edges.
pub proof fn rectangles_cover_their_cells(r: Rect, col: u16, row: u16)
    requires
        r.x + r.width <= u16::MAX,
        r.y + r.height <= u16::MAX,
    ensures
        r.covers(col, row) <==> 0 <= col - r.x < r.width && 0 <= row - r.y < r.height,
{
}

/// A rectangle that would reach past the last coordinate ends at it.
pub proof fn rectangles_end_at_the_last_coordinate(r: Rect, col: u16, row: u16)
    ensures
        r.covers(col, row) ==> r.x <= col && r.y <= row && col < r.x + r.width && row < r.y
            + r.height,
        r.x <= col && r.y <= row && col < r.x + r.width && row < r.y + r.height && col < u16::MAX
            && row < u16::MAX ==> r.covers(col, row),
        col == u16::MAX || row == u16::MAX ==> !r.covers(col, row),
        pane::far_edge(r.x, r.width) <= u16::MAX,
        r.x + r.width <= u16::MAX ==> pane::far_edge(r.x, r.width) == r.x + r.width,
{
}

/// The focused pane is the first that has the focus, and none where none has.
pub proof fn the_first_focused_pane_is_found(boxes: Seq<PaneBox>, i: int)
    requires
        0 <= i < boxes.len(),
        forall|j: int| 0 <= j < i ==> !(#[trigger] boxes[j]).is_focused,
    ensures
        boxes[i].is_focused ==> routing::focused_box(boxes) == Some(boxes[i]),
        (forall|j: int| 0 <= j < boxes.len() ==> !(#[trigger] boxes[j]).is_focused)
            ==> routing::focused_box(boxes) is None,
{
    if boxes[i].is_focused {
        assert(routing::first_focused(boxes, i));
        let c = choose|c: int| routing::first_focused(boxes, c);
        assert(routing::first_focused(boxes, c));
        assert(c == i);
    }
}

/// Without a pane none is focused and none is hit.
pub proof fn an_empty_screen_has_no_pane(boxes: Seq<PaneBox>, col: u16, row: u16, frame: bool)
    requires
        boxes.len() == 0,
    ensures
        routing::focused_box(boxes) is None,
        routing::box_at(boxes, col, row, frame) is None,
{
}

/// The pane at a cell is the first whose frame covers the cell, or whose content does
/// where frames do not count; and none where none does.
pub proof fn the_first_pane_at_a_cell_is_hit(
    boxes: Seq<PaneBox>,
    col: u16,
    row: u16,
    i: int,
)
    requires
        0 <= i < boxes.len(),
    ensures
        boxes[i].rect.covers(col, row) && (forall|j: int|
            0 <= j < i ==> !(#[trigger] boxes[j]).rect.covers(col, row)) ==> routing::box_at(
            boxes,
            col,
            row,
            true,
        ) == Some(boxes[i]),
        boxes[i].inner_rect.covers(col, row) && (forall|j: int|
            0 <= j < i ==> !(#[trigger] boxes[j]).inner_rect.covers(col, row)) ==> routing::box_at(
            boxes,
            col,
            row,
            false,
        ) == Some(boxes[i]),
        (forall|j: int|
            0 <= j < boxes.len() ==> !(#[trigger] boxes[j]).rect.covers(col, row))
            ==> routing::box_at(boxes, col, row, true) is None,
        (forall|j: int|
            0 <= j < boxes.len() ==> !(#[trigger] boxes[j]).inner_rect.covers(col, row))
            ==> routing::box_at(boxes, col, row, false) is None,
{
    if boxes[i].rect.covers(col, row) && (forall|j: int|
        0 <= j < i ==> !(#[trigger] boxes[j]).rect.covers(col, row)) {
        assert(routing::first_hit(boxes, col, row, true, i));
        let c = choose|c: int| routing::first_hit(boxes, col, row, true, c);
        assert(routing::first_hit(boxes, col, row, true, c));
        assert(c == i);
    }
    if boxes[i].inner_rect.covers(col, row) && (forall|j: int|
        0 <= j < i ==> !(#[trigger] boxes[j]).inner_rect.covers(col, row)) {
        assert(routing::first_hit(boxes, col, row, false, i));
        let c = choose|c: int| routing::first_hit(boxes, col, row, false, c);
        assert(routing::first_hit(boxes, col, row, false, c));
        assert(c == i);
    }
}

/// The wheel and a press of the left or middle button take the focus; nothing else
/// does.
pub proof fn wheel_and_presses_take_the_focus(kind: MouseEventKind, button: MouseButton)
    ensures
        routing::takes_focus(MouseEventKind::ScrollUp),
        routing::takes_focus(MouseEventKind::ScrollDown),
        routing::takes_focus(MouseEventKind::Down(button)) <==> button != MouseButton::Right,
        routing::takes_focus(kind) ==> kind is Down || kind is ScrollUp || kind is ScrollDown,
{
}

/// The cell that a report carries is the one of the event, counted from the corner of
/// the pane's content, and the first where the event is before it.
pub proof fn reports_are_counted_from_the_content(at: u16, start: u16)
    ensures
        at >= start ==> routing::offset_from(at, start) + start == at,
        at < start ==> routing::offset_from(at, start) == 0,
{
}

/// The report of an event at the cell of the pane's content.
pub open spec fn reports(
    action: MouseAction,
    report: MouseReport,
    mouse: MouseEvent,
    inner: Rect,
    reset: bool,
) -> bool {
    action matches MouseAction::Report { report: sent, column, row, reset_scroll } && sent == report
        && reset_scroll == reset && (mouse.column >= inner.x ==> column + inner.x == mouse.column)
        && (mouse.column < inner.x ==> column == 0) && (mouse.row >= inner.y ==> row + inner.y
        == mouse.row) && (mouse.row < inner.y ==> row == 0)
}

/// What the mouse does over a pane: a vertical wheel turn is the application's as a
/// report or as cursor keys where it took the wheel, else it scrolls, up for up; a
/// horizontal one is reported; buttons and motion are reported over the content and
/// lost on the frame. All but motion return the viewport to the live edge.
pub proof fn the_mouse_over_a_pane(
    mouse: MouseEvent,
    b: PaneBox,
    routing_of: Option<WheelRouting>,
)
    ensures
        ({
            let r = routing::action_over_pane(mouse, b, PaneTarget::Mirrored(routing_of));
            let inner = b.inner_rect;
            let inside = inner.covers(mouse.column, mouse.row);
            match mouse.kind {
                MouseEventKind::ScrollUp => match routing_of {
                    Some(WheelRouting::MouseReport) => reports(
                        r,
                        MouseReport::Wheel,
                        mouse,
                        inner,
                        true,
                    ),
                    Some(WheelRouting::AlternateScroll) => reports(
                        r,
                        MouseReport::AlternateScroll,
                        mouse,
                        inner,
                        true,
                    ),
                    _ => r == (MouseAction::Scroll { up: true }),
                },
                MouseEventKind::ScrollDown => match routing_of {
                    Some(WheelRouting::MouseReport) => reports(
                        r,
                        MouseReport::Wheel,
                        mouse,
                        inner,
                        true,
                    ),
                    Some(WheelRouting::AlternateScroll) => reports(
                        r,
                        MouseReport::AlternateScroll,
                        mouse,
                        inner,
                        true,
                    ),
                    _ => r == (MouseAction::Scroll { up: false }),
                },
                MouseEventKind::ScrollLeft => reports(r, MouseReport::Wheel, mouse, inner, true),
                MouseEventKind::ScrollRight => reports(r, MouseReport::Wheel, mouse, inner, true),
                MouseEventKind::Moved => if inside {
                    reports(r, MouseReport::Motion, mouse, inner, false)
                } else {
                    r is Nothing
                },
                _ => if inside {
                    reports(r, MouseReport::Button, mouse, inner, true)
                } else {
                    r is Nothing
                },
            }
        }),
        routing::action_over_pane(mouse, b, PaneTarget::WithoutMirror) is Nothing,
{
}

/// What the mouse does over no pane: the focused terminal gets it at its cell of the
/// screen where its application asked for mouse events, but for horizontal wheel
/// turns; else the screen is only drawn again. A terminal without a mirror gets
/// nothing.
pub proof fn the_mouse_over_no_pane(mouse: MouseEvent, state: Option<InputState>)
    ensures
        ({
            let r = routing::action_over_none(mouse, FocusedTarget::Mirrored(state));
            let asked = state is Some && state->0.mouse_protocol_mode != MouseProtocolMode::Off;
            &&& !asked ==> r is Redraw
            &&& asked ==> match mouse.kind {
                MouseEventKind::ScrollUp => r == (MouseAction::Report {
                    report: MouseReport::Wheel,
                    column: mouse.column,
                    row: mouse.row,
                    reset_scroll: true,
                }),
                MouseEventKind::ScrollDown => r == (MouseAction::Report {
                    report: MouseReport::Wheel,
                    column: mouse.column,
                    row: mouse.row,
                    reset_scroll: true,
                }),
                MouseEventKind::Moved => r == (MouseAction::Report {
                    report: MouseReport::Motion,
                    column: mouse.column,
                    row: mouse.row,
                    reset_scroll: false,
                }),
                MouseEventKind::ScrollLeft => r is Nothing,
                MouseEventKind::ScrollRight => r is Nothing,
                _ => r == (MouseAction::Report {
                    report: MouseReport::Button,
                    column: mouse.column,
                    row: mouse.row,
                    reset_scroll: true,
                }),
            }
        }),
        routing::action_over_none(mouse, FocusedTarget::Absent) is Redraw,
        routing::action_over_none(mouse, FocusedTarget::WithoutMirror) is Nothing,
{
}

/// A paste is the text as it is, or the text between the two markers of a bracketed
/// paste; read back as text it is just that.
pub proof fn pastes_read_back(pasted: Seq<char>)
    ensures
        vstd::utf8::decode_utf8(routing::paste_bytes_of(pasted, false)) == pasted,
        vstd::utf8::decode_utf8(routing::paste_bytes_of(pasted, true)) == "\x1b[200~"@ + pasted
            + "\x1b[201~"@,
{
    vstd::utf8::encode_utf8_decode_utf8(pasted);
    vstd::utf8::encode_utf8_decode_utf8("\x1b[200~"@ + pasted + "\x1b[201~"@);
}

} // verus!
