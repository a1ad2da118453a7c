//! Routing of keys, mouse events and pastes.
//!
//! The view handles what is local, the focused pane gets what it is meant to
//! get, and structural actions go to the server.
use crate::local_mirror;
use crate::pane::{InputState, MouseButton, MouseEvent, MouseEventKind, Rect, WheelRouting};
use crate::pane::rect_contains;
use crate::projection::{Mode, PaneId};
use crate::protocol::AttachScrollSource;
use crate::scroll;
use crate::scroll::{scroll_disposition, ScrollDisposition};
use vstd::prelude::*;

verus! {

/// What the routing needs to know of a key.
#[derive(Clone, Copy, Debug, PartialEq, Eq, Structural)]
pub struct KeyFacts {
    /// It is the prefix key.
    pub is_prefix: bool,
    /// It was released, not pressed.
    pub released: bool,
    /// It is a modifier by itself.
    pub modifier_only: bool,
    /// It is Escape.
    pub escape: bool,
    /// It is a plain page key: `Some(true)` for up.
    pub page_up: Option<bool>,
    /// It is bound to an action outside the prefix menu.
    pub direct_action: bool,
    /// It is bound to an action of the prefix menu.
    pub prefix_action: bool,
}

/// Where a key goes.
#[derive(Clone, Copy, Debug, PartialEq, Eq, Structural)]
pub enum KeyRoute {
    /// Nowhere.
    Ignore,
    /// To the handler of the open overlay.
    Overlay,
    /// It opens the prefix menu.
    ArmPrefix,
    /// It closes the prefix menu.
    LeavePrefix,
    /// It closes the prefix menu and goes to the focused pane as it is.
    LeavePrefixAndForward,
    /// To its action outside the prefix menu.
    DirectAction,
    /// To its action of the prefix menu.
    PrefixAction,
    /// It scrolls the focused pane's viewport by a page.
    ScrollPage { up: bool },
    /// To the focused pane.
    Forward,
}

/// The key does nothing by itself.
pub open spec fn is_silent(key: KeyFacts) -> bool {
    key.released || key.modifier_only
}

/// A page key that the local viewport takes.
pub open spec fn pages_locally(key: KeyFacts, input_state: Option<InputState>) -> bool {
    key.page_up is Some && (input_state matches Some(state) && state.host_pages())
}

/// Where a key goes.
pub open spec fn key_route(
    mode: Mode,
    key: KeyFacts,
    input_state: Option<InputState>,
) -> KeyRoute {
    match mode {
        Mode::Prefix => if is_silent(key) {
            KeyRoute::Ignore
        } else if key.escape {
            KeyRoute::LeavePrefix
        } else if key.is_prefix {
            KeyRoute::LeavePrefixAndForward
        } else if key.prefix_action {
            KeyRoute::PrefixAction
        } else {
            KeyRoute::LeavePrefix
        },
        Mode::Terminal => if key.is_prefix {
            KeyRoute::ArmPrefix
        } else if is_silent(key) {
            KeyRoute::Ignore
        } else if key.direct_action {
            KeyRoute::DirectAction
        } else if pages_locally(key, input_state) {
            KeyRoute::ScrollPage { up: key.page_up->0 }
        } else {
            KeyRoute::Forward
        },
        _ => KeyRoute::Overlay,
    }
}

/// Routes a key in the prefix menu.
fn handle_prefix_key(key: KeyFacts) -> (r: KeyRoute)
    ensures
        r == key_route(Mode::Prefix, key, None),
{
    if key.released || key.modifier_only {
        return KeyRoute::Ignore;
    }
    if key.escape {
        return KeyRoute::LeavePrefix;
    }
    if key.is_prefix {
        return KeyRoute::LeavePrefixAndForward;
    }
    if key.prefix_action {
        KeyRoute::PrefixAction
    } else {
        KeyRoute::LeavePrefix
    }
}

/// Routes a key.
pub fn handle_key(mode: Mode, key: KeyFacts, input_state: Option<InputState>) -> (r: KeyRoute)
    ensures
        r == key_route(mode, key, input_state),
{
    match mode {
        Mode::Prefix => {
            return handle_prefix_key(key);
        },
        Mode::Terminal => {},
        _ => {
            return KeyRoute::Overlay;
        },
    }
    if key.is_prefix {
        return KeyRoute::ArmPrefix;
    }
    if key.released || key.modifier_only {
        return KeyRoute::Ignore;
    }
    if key.direct_action {
        return KeyRoute::DirectAction;
    }
    if let Some(up) = key.page_up {
        let source = AttachScrollSource::PageKey { input: Vec::new() };
        match scroll_disposition(&source, input_state) {
            ScrollDisposition::Local => {
                return KeyRoute::ScrollPage { up };
            },
            ScrollDisposition::ForwardToServer => {},
        }
    }
    KeyRoute::Forward
}

/// The mode after a key was routed. What an action or an overlay leaves is its
/// own affair.
pub open spec fn mode_after_key(mode: Mode, route: KeyRoute) -> Mode {
    match route {
        KeyRoute::ArmPrefix => Mode::Prefix,
        KeyRoute::LeavePrefix => Mode::Terminal,
        KeyRoute::LeavePrefixAndForward => Mode::Terminal,
        _ => mode,
    }
}

/// The mode after a key was routed.
pub fn next_mode(mode: Mode, route: KeyRoute) -> (r: Mode)
    ensures
        r == mode_after_key(mode, route),
{
    match route {
        KeyRoute::ArmPrefix => Mode::Prefix,
        KeyRoute::LeavePrefix => Mode::Terminal,
        KeyRoute::LeavePrefixAndForward => Mode::Terminal,
        _ => mode,
    }
}

/// A route that calls for drawing by itself. What is forwarded or scrolled says
/// so where it is done.
pub open spec fn route_redraws(route: KeyRoute) -> bool {
    match route {
        KeyRoute::Overlay => true,
        KeyRoute::ArmPrefix => true,
        KeyRoute::LeavePrefix => true,
        KeyRoute::LeavePrefixAndForward => true,
        KeyRoute::DirectAction => true,
        KeyRoute::PrefixAction => true,
        KeyRoute::Ignore => false,
        KeyRoute::ScrollPage { .. } => false,
        KeyRoute::Forward => false,
    }
}

/// Whether a route calls for drawing by itself.
pub fn redraws(route: KeyRoute) -> (r: bool)
    ensures
        r == route_redraws(route),
{
    match route {
        KeyRoute::Overlay => true,
        KeyRoute::ArmPrefix => true,
        KeyRoute::LeavePrefix => true,
        KeyRoute::LeavePrefixAndForward => true,
        KeyRoute::DirectAction => true,
        KeyRoute::PrefixAction => true,
        KeyRoute::Ignore => false,
        KeyRoute::ScrollPage { .. } => false,
        KeyRoute::Forward => false,
    }
}

/// No key leaks into a pane while an overlay or the prefix menu is open, but for
/// the prefix key pressed twice.
pub proof fn commands_do_not_leak(mode: Mode, key: KeyFacts, input_state: Option<InputState>)
    requires
        mode != Mode::Terminal,
    ensures
        key_route(mode, key, input_state) != KeyRoute::Forward,
        key_route(mode, key, input_state) == KeyRoute::LeavePrefixAndForward ==> mode
            == Mode::Prefix && key.is_prefix,
{
}

/// Lifting the prefix chord leaves the menu open.
pub proof fn releases_keep_the_prefix_menu(key: KeyFacts, input_state: Option<InputState>)
    requires
        is_silent(key),
    ensures
        mode_after_key(Mode::Prefix, key_route(Mode::Prefix, key, input_state)) == Mode::Prefix,
{
}

/// A page key is routed like a scroll of the same source.
pub proof fn page_keys_follow_the_scroll_rule(
    key: KeyFacts,
    input_state: Option<InputState>,
    input: Vec<u8>,
)
    requires
        key.page_up is Some,
        !key.is_prefix,
        !is_silent(key),
        !key.direct_action,
    ensures
        (key_route(Mode::Terminal, key, input_state) is ScrollPage) == (scroll::disposition(
            AttachScrollSource::PageKey { input },
            input_state,
        ) == ScrollDisposition::Local),
{
}

/// A pane on the screen.
#[derive(Clone, Copy, Debug, PartialEq, Eq, Structural)]
pub struct PaneBox {
    pub id: PaneId,
    /// With its frame.
    pub rect: Rect,
    /// Its content.
    pub inner_rect: Rect,
    pub is_focused: bool,
}

/// `i` is the first focused pane.
pub open spec fn first_focused(boxes: Seq<PaneBox>, i: int) -> bool {
    &&& 0 <= i < boxes.len()
    &&& boxes[i].is_focused
    &&& forall|j: int| 0 <= j < i ==> !(#[trigger] boxes[j]).is_focused
}

/// The first focused pane.
pub open spec fn focused_box(boxes: Seq<PaneBox>) -> Option<PaneBox> {
    if exists|i: int| first_focused(boxes, i) {
        Some(boxes[choose|i: int| first_focused(boxes, i)])
    } else {
        None
    }
}

/// Finds the first focused pane.
pub fn find_focused(boxes: &Vec<PaneBox>) -> (r: Option<PaneBox>)
    ensures
        r == focused_box(boxes@),
{
    let mut i: usize = 0;
    while i < boxes.len()
        invariant
            i <= boxes@.len(),
            forall|j: int| 0 <= j < i ==> !(#[trigger] boxes@[j]).is_focused,
        decreases boxes@.len() - i,
    {
        if boxes[i].is_focused {
            assert(first_focused(boxes@, i as int));
            return Some(boxes[i]);
        }
        i = i + 1;
    }
    None
}

/// The lines of a page: the height of the focused pane, 10 where there is none,
/// never 0.
pub fn focused_pane_scroll_lines(boxes: &Vec<PaneBox>) -> (r: usize)
    ensures
        r == match focused_box(boxes@) {
            Some(b) => local_mirror::at_least_one(b.inner_rect.height) as usize,
            None => 10,
        },
{
    match find_focused(boxes) {
        Some(b) => if b.inner_rect.height < 1 {
            1
        } else {
            b.inner_rect.height as usize
        },
        None => 10,
    }
}

/// The rectangle that counts for a hit.
pub open spec fn hit_rect(b: PaneBox, include_frame: bool) -> Rect {
    if include_frame {
        b.rect
    } else {
        b.inner_rect
    }
}

/// `i` is the first pane at the cell.
pub open spec fn first_hit(
    boxes: Seq<PaneBox>,
    col: u16,
    row: u16,
    include_frame: bool,
    i: int,
) -> bool {
    &&& 0 <= i < boxes.len()
    &&& hit_rect(boxes[i], include_frame).covers(col, row)
    &&& forall|j: int|
        0 <= j < i ==> !hit_rect(#[trigger] boxes[j], include_frame).covers(col, row)
}

/// The first pane at a cell.
pub open spec fn box_at(
    boxes: Seq<PaneBox>,
    col: u16,
    row: u16,
    include_frame: bool,
) -> Option<PaneBox> {
    if exists|i: int| first_hit(boxes, col, row, include_frame, i) {
        Some(boxes[choose|i: int| first_hit(boxes, col, row, include_frame, i)])
    } else {
        None
    }
}

/// Finds the first pane at a cell.
pub fn pane_info_at(boxes: &Vec<PaneBox>, col: u16, row: u16, include_frame: bool) -> (r: Option<
    PaneBox,
>)
    ensures
        r == box_at(boxes@, col, row, include_frame),
{
    let mut i: usize = 0;
    while i < boxes.len()
        invariant
            i <= boxes@.len(),
            forall|j: int|
                0 <= j < i ==> !hit_rect(#[trigger] boxes@[j], include_frame).covers(col, row),
        decreases boxes@.len() - i,
    {
        let rect = if include_frame {
            boxes[i].rect
        } else {
            boxes[i].inner_rect
        };
        if rect_contains(rect, col, row) {
            assert(first_hit(boxes@, col, row, include_frame, i as int));
            return Some(boxes[i]);
        }
        i = i + 1;
    }
    None
}

/// The report to encode for an application.
#[derive(Clone, Copy, Debug, PartialEq, Eq, Structural)]
pub enum MouseReport {
    Wheel,
    Button,
    Motion,
    /// As a cursor key.
    AlternateScroll,
}

/// What a mouse event comes to over a terminal.
#[derive(Clone, Copy, Debug, PartialEq, Eq, Structural)]
pub enum MouseAction {
    Nothing,
    /// Only draw again.
    Redraw,
    /// Encode a report at a cell of the terminal and forward it. Where
    /// `reset_scroll` is set, the viewport first returns to the live edge.
    Report { report: MouseReport, column: u16, row: u16, reset_scroll: bool },
    /// Scroll the terminal's viewport.
    Scroll { up: bool },
}

/// An event that moves focus to the pane under it.
pub open spec fn takes_focus(kind: MouseEventKind) -> bool {
    kind == MouseEventKind::ScrollUp || kind == MouseEventKind::ScrollDown || kind
        == MouseEventKind::Down(MouseButton::Left) || kind == MouseEventKind::Down(
        MouseButton::Middle,
    )
}

/// A button was pressed, released or dragged.
pub open spec fn is_button(kind: MouseEventKind) -> bool {
    kind is Down || kind is Up || kind is Drag
}

/// A vertical wheel turn.
pub open spec fn is_wheel(kind: MouseEventKind) -> bool {
    kind == MouseEventKind::ScrollUp || kind == MouseEventKind::ScrollDown
}

/// A coordinate within a pane: 0 at or before its start.
pub open spec fn offset_from(at: u16, start: u16) -> u16 {
    if at < start {
        0
    } else {
        (at - start) as u16
    }
}

/// A report at the event's cell within the pane.
pub open spec fn report_in(
    report: MouseReport,
    mouse: MouseEvent,
    inner: Rect,
    reset_scroll: bool,
) -> MouseAction {
    MouseAction::Report {
        report,
        column: offset_from(mouse.column, inner.x),
        row: offset_from(mouse.row, inner.y),
        reset_scroll,
    }
}

/// What is known of the terminal of the pane under the mouse.
#[derive(Clone, Copy, Debug, PartialEq, Eq, Structural)]
pub enum PaneTarget {
    /// The terminal has no mirror.
    WithoutMirror,
    /// Who gets the wheel, as its mirror reports it.
    Mirrored(Option<WheelRouting>),
}

/// What a mouse event over a pane comes to. A terminal without a mirror gets
/// nothing.
pub open spec fn action_over_pane(
    mouse: MouseEvent,
    b: PaneBox,
    target: PaneTarget,
) -> MouseAction {
    match target {
        PaneTarget::WithoutMirror => MouseAction::Nothing,
        PaneTarget::Mirrored(routing) => action_over_mirror(mouse, b, routing),
    }
}

/// What a mouse event over a pane with a mirror comes to.
pub open spec fn action_over_mirror(
    mouse: MouseEvent,
    b: PaneBox,
    routing: Option<WheelRouting>,
) -> MouseAction {
    let kind = mouse.kind;
    let inside = b.inner_rect.covers(mouse.column, mouse.row);
    if is_wheel(kind) {
        match routing {
            Some(WheelRouting::MouseReport) => report_in(
                MouseReport::Wheel,
                mouse,
                b.inner_rect,
                true,
            ),
            Some(WheelRouting::AlternateScroll) => report_in(
                MouseReport::AlternateScroll,
                mouse,
                b.inner_rect,
                true,
            ),
            _ => MouseAction::Scroll { up: kind == MouseEventKind::ScrollUp },
        }
    } else if kind == MouseEventKind::ScrollLeft || kind == MouseEventKind::ScrollRight {
        report_in(MouseReport::Wheel, mouse, b.inner_rect, true)
    } else if is_button(kind) {
        if inside {
            report_in(MouseReport::Button, mouse, b.inner_rect, true)
        } else {
            MouseAction::Nothing
        }
    } else if inside {
        report_in(MouseReport::Motion, mouse, b.inner_rect, false)
    } else {
        MouseAction::Nothing
    }
}

fn report_at(report: MouseReport, mouse: MouseEvent, inner: Rect, reset_scroll: bool) -> (r:
    MouseAction)
    ensures
        r == report_in(report, mouse, inner, reset_scroll),
{
    MouseAction::Report {
        report,
        column: mouse.column.saturating_sub(inner.x),
        row: mouse.row.saturating_sub(inner.y),
        reset_scroll,
    }
}

/// Whether a mouse event moves focus to the pane under it.
pub fn mouse_takes_focus(kind: MouseEventKind) -> (r: bool)
    ensures
        r == takes_focus(kind),
{
    match kind {
        MouseEventKind::ScrollUp => true,
        MouseEventKind::ScrollDown => true,
        MouseEventKind::Down(button) => match button {
            MouseButton::Left => true,
            MouseButton::Middle => true,
            MouseButton::Right => false,
        },
        _ => false,
    }
}

/// Decides on a vertical wheel turn over a pane.
fn handle_wheel(mouse: MouseEvent, b: PaneBox, routing: Option<WheelRouting>) -> (r: MouseAction)
    requires
        is_wheel(mouse.kind),
    ensures
        r == action_over_mirror(mouse, b, routing),
{
    match routing {
        Some(WheelRouting::MouseReport) => report_at(
            MouseReport::Wheel,
            mouse,
            b.inner_rect,
            true,
        ),
        Some(WheelRouting::AlternateScroll) => report_at(
            MouseReport::AlternateScroll,
            mouse,
            b.inner_rect,
            true,
        ),
        _ => MouseAction::Scroll { up: mouse.kind == MouseEventKind::ScrollUp },
    }
}

/// Decides on a mouse event over a pane.
pub fn handle_mouse(mouse: MouseEvent, b: PaneBox, target: PaneTarget) -> (r: MouseAction)
    ensures
        r == action_over_pane(mouse, b, target),
{
    let routing = match target {
        PaneTarget::WithoutMirror => {
            return MouseAction::Nothing;
        },
        PaneTarget::Mirrored(routing) => routing,
    };
    match mouse.kind {
        MouseEventKind::ScrollUp | MouseEventKind::ScrollDown => handle_wheel(mouse, b, routing),
        MouseEventKind::ScrollLeft | MouseEventKind::ScrollRight => report_at(
            MouseReport::Wheel,
            mouse,
            b.inner_rect,
            true,
        ),
        MouseEventKind::Down(_) | MouseEventKind::Up(_) | MouseEventKind::Drag(_) => {
            if rect_contains(b.inner_rect, mouse.column, mouse.row) {
                report_at(MouseReport::Button, mouse, b.inner_rect, true)
            } else {
                MouseAction::Nothing
            }
        },
        MouseEventKind::Moved => {
            if rect_contains(b.inner_rect, mouse.column, mouse.row) {
                report_at(MouseReport::Motion, mouse, b.inner_rect, false)
            } else {
                MouseAction::Nothing
            }
        },
    }
}

/// What is known of the focused terminal when the mouse is over no pane.
#[derive(Clone, Copy, Debug, PartialEq, Eq, Structural)]
pub enum FocusedTarget {
    /// No terminal is focused.
    Absent,
    /// The focused terminal has no mirror.
    WithoutMirror,
    /// The input state that its mirror reports.
    Mirrored(Option<InputState>),
}

/// What a mouse event over no pane comes to: the focused terminal gets it, at
/// the cell of the screen, where its application asked for mouse events.
pub open spec fn action_over_none(mouse: MouseEvent, target: FocusedTarget) -> MouseAction {
    let kind = mouse.kind;
    match target {
        FocusedTarget::Absent => MouseAction::Redraw,
        FocusedTarget::WithoutMirror => MouseAction::Nothing,
        FocusedTarget::Mirrored(state) => if !(state matches Some(s) && s.reports_mouse()) {
            MouseAction::Redraw
        } else if is_wheel(kind) {
            MouseAction::Report {
                report: MouseReport::Wheel,
                column: mouse.column,
                row: mouse.row,
                reset_scroll: true,
            }
        } else if is_button(kind) {
            MouseAction::Report {
                report: MouseReport::Button,
                column: mouse.column,
                row: mouse.row,
                reset_scroll: true,
            }
        } else if kind == MouseEventKind::Moved {
            MouseAction::Report {
                report: MouseReport::Motion,
                column: mouse.column,
                row: mouse.row,
                reset_scroll: false,
            }
        } else {
            MouseAction::Nothing
        },
    }
}

/// Decides on a mouse event over no pane.
pub fn forward_focused_reported_mouse(mouse: MouseEvent, target: FocusedTarget) -> (r: MouseAction)
    ensures
        r == action_over_none(mouse, target),
{
    let state = match target {
        FocusedTarget::Absent => {
            return MouseAction::Redraw;
        },
        FocusedTarget::WithoutMirror => {
            return MouseAction::Nothing;
        },
        FocusedTarget::Mirrored(state) => state,
    };
    let reporting = match state {
        Some(state) => state.mouse_reporting_enabled(),
        None => false,
    };
    if !reporting {
        return MouseAction::Redraw;
    }
    match mouse.kind {
        MouseEventKind::ScrollUp | MouseEventKind::ScrollDown => MouseAction::Report {
            report: MouseReport::Wheel,
            column: mouse.column,
            row: mouse.row,
            reset_scroll: true,
        },
        MouseEventKind::Down(_) | MouseEventKind::Up(_) | MouseEventKind::Drag(_) => {
            MouseAction::Report {
                report: MouseReport::Button,
                column: mouse.column,
                row: mouse.row,
                reset_scroll: true,
            }
        },
        MouseEventKind::Moved => MouseAction::Report {
            report: MouseReport::Motion,
            column: mouse.column,
            row: mouse.row,
            reset_scroll: false,
        },
        MouseEventKind::ScrollLeft | MouseEventKind::ScrollRight => MouseAction::Nothing,
    }
}

/// The wheel over a mirror is never lost: it scrolls locally unless the terminal
/// says that its application takes it.
pub proof fn wheel_scrolls_unless_claimed(
    mouse: MouseEvent,
    b: PaneBox,
    routing: Option<WheelRouting>,
)
    requires
        is_wheel(mouse.kind),
    ensures
        action_over_pane(mouse, b, PaneTarget::Mirrored(routing)) != MouseAction::Nothing,
        routing is None || routing == Some(WheelRouting::HostScroll) <==> action_over_pane(
            mouse,
            b,
            PaneTarget::Mirrored(routing),
        ) is Scroll,
{
}

/// Moving the mouse keeps a viewport where it is scrolled to.
pub proof fn motion_keeps_the_viewport(
    mouse: MouseEvent,
    b: PaneBox,
    target: PaneTarget,
    focused: FocusedTarget,
)
    requires
        mouse.kind == MouseEventKind::Moved,
    ensures
        !(action_over_pane(mouse, b, target) matches MouseAction::Report {
            reset_scroll: true,
            ..
        }),
        !(action_over_none(mouse, focused) matches MouseAction::Report { reset_scroll: true, .. }),
        !takes_focus(mouse.kind),
{
}

/// A paste as the bytes for a terminal, between markers where its application
/// asked for them.
pub open spec fn paste_bytes_of(text: Seq<char>, bracketed: bool) -> Seq<u8> {
    if bracketed {
        vstd::utf8::encode_utf8("\x1b[200~"@ + text + "\x1b[201~"@)
    } else {
        vstd::utf8::encode_utf8(text)
    }
}

/// Makes the bytes of a paste.
pub fn paste_bytes(text: &str, input_state: Option<InputState>) -> (r: Vec<u8>)
    ensures
        r@ == paste_bytes_of(
            text@,
            input_state matches Some(state) && state.bracketed_paste,
        ),
{
    let bracketed = match input_state {
        Some(state) => state.bracketed_paste,
        None => false,
    };
    if bracketed {
        let marked = "\x1b[200~".to_owned().concat(text).concat("\x1b[201~");
        crate::protocol::owned_bytes(marked.as_str().as_bytes())
    } else {
        crate::protocol::owned_bytes(text.as_bytes())
    }
}

} // verus!
