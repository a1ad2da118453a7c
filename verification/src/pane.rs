//! Facts that a terminal emulator reports, and the input events of the host.
use vstd::prelude::*;

verus! {

/// Which mouse events an application asked for.
#[derive(Clone, Copy, Debug, PartialEq, Eq, Structural)]
pub enum MouseProtocolMode {
    Off,
    Press,
    PressRelease,
    ButtonMotion,
    AnyMotion,
}

/// How mouse events are written.
#[derive(Clone, Copy, Debug, PartialEq, Eq, Structural)]
pub enum MouseProtocolEncoding {
    Default,
    Utf8,
    Sgr,
}

/// The input modes of a terminal.
#[derive(Clone, Copy, Debug, PartialEq, Eq, Structural)]
pub struct InputState {
    pub alternate_screen: bool,
    pub application_cursor: bool,
    pub bracketed_paste: bool,
    pub focus_reporting: bool,
    pub mouse_protocol_mode: MouseProtocolMode,
    pub mouse_protocol_encoding: MouseProtocolEncoding,
    pub mouse_alternate_scroll: bool,
    pub modify_other_keys: bool,
}

impl InputState {
    /// Page keys scroll the host's view: the terminal shows a transcript, not an
    /// application that took the screen or the cursor keys.
    pub open spec fn host_pages(self) -> bool {
        !self.alternate_screen && !self.application_cursor
    }

    /// The application asked for mouse events.
    pub open spec fn reports_mouse(self) -> bool {
        self.mouse_protocol_mode != MouseProtocolMode::Off
    }

    /// Whether plain page keys scroll the host's view.
    pub fn plain_page_keys_use_host_scrollback(&self) -> (r: bool)
        ensures
            r == self.host_pages(),
    {
        !self.alternate_screen && !self.application_cursor
    }

    /// Whether the application asked for mouse events.
    pub fn mouse_reporting_enabled(&self) -> (r: bool)
        ensures
            r == self.reports_mouse(),
    {
        self.mouse_protocol_mode != MouseProtocolMode::Off
    }
}

/// Who gets the wheel over a terminal.
#[derive(Clone, Copy, Debug, PartialEq, Eq, Structural)]
pub enum WheelRouting {
    /// The local viewport.
    HostScroll,
    /// The application, as mouse reports.
    MouseReport,
    /// The application, as cursor keys.
    AlternateScroll,
}

/// The cursor of a terminal.
#[derive(Clone, Copy, Debug, PartialEq, Eq, Structural)]
pub struct TerminalCursorState {
    pub x: u16,
    pub y: u16,
    pub visible: bool,
    pub shape: u8,
}

/// A mouse button.
#[derive(Clone, Copy, Debug, PartialEq, Eq, Structural)]
pub enum MouseButton {
    Left,
    Right,
    Middle,
}

/// What the mouse did.
#[derive(Clone, Copy, Debug, PartialEq, Eq, Structural)]
pub enum MouseEventKind {
    Down(MouseButton),
    Up(MouseButton),
    Drag(MouseButton),
    Moved,
    ScrollDown,
    ScrollUp,
    ScrollLeft,
    ScrollRight,
}

/// A mouse event at a cell of the host terminal.
#[derive(Clone, Copy, Debug, PartialEq, Eq, Structural)]
pub struct MouseEvent {
    pub kind: MouseEventKind,
    pub column: u16,
    pub row: u16,
    pub modifiers: u8,
}

/// A rectangle of cells.
#[derive(Clone, Copy, Debug, PartialEq, Eq, Structural)]
pub struct Rect {
    pub x: u16,
    pub y: u16,
    pub width: u16,
    pub height: u16,
}

/// A coordinate plus an extent, held at the largest `u16`.
pub open spec fn far_edge(start: u16, extent: u16) -> int {
    if start + extent > u16::MAX {
        u16::MAX as int
    } else {
        start + extent
    }
}

impl Rect {
    /// The cell lies in the rectangle.
    pub open spec fn covers(self, col: u16, row: u16) -> bool {
        self.x <= col < far_edge(self.x, self.width) && self.y <= row < far_edge(
            self.y,
            self.height,
        )
    }
}

/// Whether a cell lies in a rectangle.
pub fn rect_contains(rect: Rect, col: u16, row: u16) -> (r: bool)
    ensures
        r == rect.covers(col, row),
{
    col >= rect.x && col < rect.x.saturating_add(rect.width) && row >= rect.y && row
        < rect.y.saturating_add(rect.height)
}

} // verus!
