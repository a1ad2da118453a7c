//! The live terminal of a pane: a PTY of the server, or a local mirror.
//!
//! Reading, drawing and scrolling work on both. What drives a real PTY has no
//! meaning for a mirror: it is answered without effect. A call is decided here,
//! with its arguments, and made by whoever holds the PTY or the emulator.
use crate::local_mirror;
use crate::local_mirror::MirrorRuntime;
use crate::output_log;
use crate::output_log::MirrorLog;
use crate::pane::{InputState, MouseEventKind, Rect, TerminalCursorState, WheelRouting};
use crate::schema::ScrollMetrics;
use vstd::prelude::*;

verus! {

/// A PTY runtime of the server.
#[derive(Clone, Copy, Debug, PartialEq, Eq, Structural)]
pub struct PtyId {
    pub raw: u64,
}

/// Who answers a call, and with which arguments it is asked.
#[derive(Debug)]
pub enum Route<C, T> {
    /// The PTY runtime.
    Pty { id: PtyId, call: C },
    /// The mirror's emulator.
    Mirror { call: C },
    /// No one: this is the answer.
    Answer(T),
}

/// What a terminal hands over to another server process.
#[derive(Clone, Debug, PartialEq, Eq)]
pub struct HandoffRuntimeState {
    pub pane_id: u32,
    pub child_pid: u32,
    pub rows: u16,
    pub cols: u16,
    pub cell_width_px: u32,
    pub cell_height_px: u32,
    pub keyboard_protocol_flags: u16,
    pub keyboard_protocol_ansi: Option<String>,
    pub input_state: Option<InputState>,
    pub terminal_title: Option<String>,
    pub initial_history_ansi: Option<String>,
}

/// What changed on a terminal's screen.
#[derive(Clone, Copy, Debug, PartialEq, Eq, Structural)]
pub enum TerminalDirtyPatchOutcome {
    /// Draw everything.
    Fallback,
}

/// The live terminal of a pane.
#[derive(Debug)]
pub enum TerminalRuntime {
    /// A PTY of the server.
    Pty(PtyId),
    /// A local mirror.
    Mirror(MirrorRuntime),
}

/// The backend answers, whichever it is.
pub open spec fn backend_answers<C, T>(runtime: TerminalRuntime, call: C, r: Route<C, T>) -> bool {
    match runtime {
        TerminalRuntime::Pty(id) => r == (Route::<C, T>::Pty { id, call }),
        TerminalRuntime::Mirror(_) => r == (Route::<C, T>::Mirror { call }),
    }
}

/// The PTY runtime answers; on a mirror the answer is the given one.
pub open spec fn pty_answers_or<C, T>(
    runtime: TerminalRuntime,
    call: C,
    r: Route<C, T>,
    answer: T,
) -> bool {
    match runtime {
        TerminalRuntime::Pty(id) => r == (Route::<C, T>::Pty { id, call }),
        TerminalRuntime::Mirror(_) => r == Route::<C, T>::Answer(answer),
    }
}

/// Whether a terminal that reports this state is on its alternate screen.
pub fn is_alt_screen(input_state: Option<InputState>) -> (r: bool)
    ensures
        r == (input_state matches Some(state) && state.alternate_screen),
{
    match input_state {
        Some(state) => state.alternate_screen,
        None => false,
    }
}

impl TerminalRuntime {
    /// A terminal shown by a mirror.
    pub fn mirror(runtime: MirrorRuntime) -> (r: Self)
        ensures
            r == TerminalRuntime::Mirror(runtime),
    {
        TerminalRuntime::Mirror(runtime)
    }

    /// A terminal of a PTY runtime that was started, or was not.
    pub fn spawned(started: Result<PtyId, String>) -> (r: Result<Self, String>)
        ensures
            match started {
                Ok(id) => r == Ok::<Self, String>(TerminalRuntime::Pty(id)),
                Err(err) => r == Err::<Self, String>(err),
            },
    {
        match started {
            Ok(id) => Ok(TerminalRuntime::Pty(id)),
            Err(err) => Err(err),
        }
    }

    fn backend<C, T>(&self, call: C) -> (r: Route<C, T>)
        ensures
            backend_answers(*self, call, r),
    {
        match self {
            TerminalRuntime::Pty(id) => Route::Pty { id: *id, call },
            TerminalRuntime::Mirror(_) => Route::Mirror { call },
        }
    }

    fn pty_or<C, T>(&self, call: C, answer: T) -> (r: Route<C, T>)
        ensures
            pty_answers_or(*self, call, r, answer),
    {
        match self {
            TerminalRuntime::Pty(id) => Route::Pty { id: *id, call },
            TerminalRuntime::Mirror(_) => Route::Answer(answer),
        }
    }

    /// Ends the terminal. A mirror ends by being dropped.
    pub fn shutdown(self) -> (r: Route<(), ()>)
        ensures
            pty_answers_or(self, (), r, ()),
    {
        self.pty_or((), ())
    }

    /// A copy of the PTY's file descriptor. A mirror has none.
    pub fn duplicate_handoff_fd(&self) -> (r: Route<(), Result<i32, String>>)
        ensures
            match *self {
                TerminalRuntime::Pty(id) => r == (Route::<(), Result<i32, String>>::Pty {
                    id,
                    call: (),
                }),
                TerminalRuntime::Mirror(_) => r matches Route::Answer(Err(message)) && message@
                    == "mirror runtime has no handoff fd"@,
            },
    {
        match self {
            TerminalRuntime::Pty(id) => Route::Pty { id: *id, call: () },
            TerminalRuntime::Mirror(_) => Route::Answer(
                Err("mirror runtime has no handoff fd".to_owned()),
            ),
        }
    }

    /// Leaves the PTY to another process. Nothing to leave on a mirror.
    pub fn preserve_for_handoff(self) -> (r: Route<(), ()>)
        ensures
            pty_answers_or(self, (), r, ()),
    {
        self.pty_or((), ())
    }

    /// Takes the PTY over from another process. Nothing to take on a mirror.
    pub fn assume_handoff_ownership(&self) -> (r: Route<(), ()>)
        ensures
            pty_answers_or(*self, (), r, ()),
    {
        self.pty_or((), ())
    }

    /// Pauses the PTY's reader, or lets it go on. A mirror has none.
    pub fn set_handoff_reader_paused(&self, paused: bool) -> (r: Route<bool, ()>)
        ensures
            pty_answers_or(*self, paused, r, ()),
    {
        self.pty_or(paused, ())
    }

    /// Pauses the PTY's reader and waits so many milliseconds for it. A mirror has
    /// none.
    pub fn pause_handoff_reader(&self, timeout_ms: u64) -> (r: Route<u64, Result<(), String>>)
        ensures
            pty_answers_or(*self, timeout_ms, r, Ok::<(), String>(())),
    {
        self.pty_or(timeout_ms, Ok(()))
    }

    /// What the terminal hands over to another process. Nothing on a mirror.
    pub fn handoff_runtime_state(&self, pane_id: u32) -> (r: Route<u32, HandoffRuntimeState>)
        ensures
            pty_answers_or(
                *self,
                pane_id,
                r,
                HandoffRuntimeState {
                    pane_id,
                    child_pid: 0,
                    rows: 0,
                    cols: 0,
                    cell_width_px: 0,
                    cell_height_px: 0,
                    keyboard_protocol_flags: 0,
                    keyboard_protocol_ansi: None,
                    input_state: None,
                    terminal_title: None,
                    initial_history_ansi: None,
                },
            ),
    {
        self.pty_or(
            pane_id,
            HandoffRuntimeState {
                pane_id,
                child_pid: 0,
                rows: 0,
                cols: 0,
                cell_width_px: 0,
                cell_height_px: 0,
                keyboard_protocol_flags: 0,
                keyboard_protocol_ansi: None,
                input_state: None,
                terminal_title: None,
                initial_history_ansi: None,
            },
        )
    }

    /// The history to hand over. None on a mirror.
    pub fn handoff_history_ansi(&self) -> (r: Route<(), Option<String>>)
        ensures
            pty_answers_or(*self, (), r, None::<String>),
    {
        self.pty_or((), None)
    }

    /// Applies the host's colors. A mirror has them from its stream.
    pub fn apply_host_terminal_theme<C>(&self, theme: C) -> (r: Route<C, ()>)
        ensures
            pty_answers_or(*self, theme, r, ()),
    {
        self.pty_or(theme, ())
    }

    /// Starts releasing an agent. Agents live on the server.
    pub fn begin_graceful_release<C>(&self, agent: C) -> (r: Route<C, ()>)
        ensures
            pty_answers_or(*self, agent, r, ()),
    {
        self.pty_or(agent, ())
    }

    /// Starts agent detection over. Agents live on the server.
    pub fn reset_agent_detection(&self) -> (r: Route<(), ()>)
        ensures
            pty_answers_or(*self, (), r, ()),
    {
        self.pty_or((), ())
    }

    /// Sets who owns an agent's lifecycle. Agents live on the server.
    pub fn set_full_lifecycle_authority_active(&self, active: bool) -> (r: Route<bool, ()>)
        ensures
            pty_answers_or(*self, active, r, ()),
    {
        self.pty_or(active, ())
    }

    /// Resizes the PTY. The size of a mirror follows its stream.
    pub fn resize(
        &self,
        rows: u16,
        cols: u16,
        cell_width_px: u32,
        cell_height_px: u32,
    ) -> (r: Route<(u16, u16, u32, u32), ()>)
        ensures
            pty_answers_or(*self, (rows, cols, cell_width_px, cell_height_px), r, ()),
    {
        self.pty_or((rows, cols, cell_width_px, cell_height_px), ())
    }

    /// The terminal's replication log. A mirror reads one and has none: it
    /// answers with an empty log of its size.
    pub fn output_log(&self) -> (r: Route<(), MirrorLog>)
        ensures
            match *self {
                TerminalRuntime::Pty(id) => r == (Route::<(), MirrorLog>::Pty { id, call: () }),
                TerminalRuntime::Mirror(m) => {
                    &&& r matches Route::Answer(log)
                    &&& log.wf()
                    &&& log.subscriber_count() == 0
                    &&& log@ == (output_log::Recording {
                        events: Seq::empty(),
                        next_seq: 1,
                        limit: output_log::DEFAULT_MIRROR_LOG_LIMIT_BYTES as nat,
                        start_size: m@.size,
                        size: m@.size,
                    })
                },
            },
    {
        match self {
            TerminalRuntime::Pty(id) => Route::Pty { id: *id, call: () },
            TerminalRuntime::Mirror(m) => {
                let (rows, cols) = m.current_size();
                Route::Answer(MirrorLog::new(cols, rows))
            },
        }
    }

    /// Makes the child draw again. A mirror has no child.
    pub fn nudge_child_redraw_after_handoff(&self) -> (r: Route<(), ()>)
        ensures
            pty_answers_or(*self, (), r, ()),
    {
        self.pty_or((), ())
    }

    /// Scrolls the viewport back.
    pub fn scroll_up(&mut self, lines: usize) -> (r: Route<usize, ()>)
        ensures
            scrolls(
                *old(self),
                *final(self),
                lines,
                r,
                local_mirror::EmulatorInput::ScrollUp(lines),
            ),
    {
        match self {
            TerminalRuntime::Pty(id) => Route::Pty { id: *id, call: lines },
            TerminalRuntime::Mirror(m) => {
                m.scroll_up(lines);
                Route::Answer(())
            },
        }
    }

    /// Scrolls the viewport toward the live edge.
    pub fn scroll_down(&mut self, lines: usize) -> (r: Route<usize, ()>)
        ensures
            scrolls(
                *old(self),
                *final(self),
                lines,
                r,
                local_mirror::EmulatorInput::ScrollDown(lines),
            ),
    {
        match self {
            TerminalRuntime::Pty(id) => Route::Pty { id: *id, call: lines },
            TerminalRuntime::Mirror(m) => {
                m.scroll_down(lines);
                Route::Answer(())
            },
        }
    }

    /// Returns the viewport to the live edge.
    pub fn scroll_reset(&mut self) -> (r: Route<(), ()>)
        ensures
            scrolls(
                *old(self),
                *final(self),
                (),
                r,
                local_mirror::EmulatorInput::ScrollReset,
            ),
    {
        match self {
            TerminalRuntime::Pty(id) => Route::Pty { id: *id, call: () },
            TerminalRuntime::Mirror(m) => {
                m.scroll_reset();
                Route::Answer(())
            },
        }
    }

    /// Places the viewport so many lines above the live edge.
    pub fn set_scroll_offset_from_bottom(&mut self, lines: usize) -> (r: Route<usize, ()>)
        ensures
            scrolls(
                *old(self),
                *final(self),
                lines,
                r,
                local_mirror::EmulatorInput::ScrollTo(lines),
            ),
    {
        match self {
            TerminalRuntime::Pty(id) => Route::Pty { id: *id, call: lines },
            TerminalRuntime::Mirror(m) => {
                m.set_scroll_offset_from_bottom(lines);
                Route::Answer(())
            },
        }
    }

    /// How far the viewport is scrolled back.
    pub fn scroll_metrics(&self) -> (r: Route<(), Option<ScrollMetrics>>)
        ensures
            backend_answers(*self, (), r),
    {
        self.backend(())
    }

    /// Finds a text in the terminal.
    pub fn search_text_matches<'a, M>(
        &self,
        query: &'a str,
        case_sensitive: bool,
    ) -> (r: Route<(&'a str, bool), Vec<M>>)
        ensures
            backend_answers(*self, (query, case_sensitive), r),
    {
        self.backend((query, case_sensitive))
    }

    /// Whether a match still stands.
    pub fn text_match_is_current<M>(&self, text_match: M) -> (r: Route<M, bool>)
        ensures
            backend_answers(*self, text_match, r),
    {
        self.backend(text_match)
    }

    /// Whether matches still stand.
    pub fn text_matches_are_current<'a, M>(
        &self,
        text_matches: &'a [M],
    ) -> (r: Route<&'a [M], Vec<bool>>)
        ensures
            backend_answers(*self, text_matches, r),
    {
        self.backend(text_matches)
    }

    /// Where a word motion leads.
    pub fn word_motion_target<W, P>(
        &self,
        row: u32,
        col: u16,
        motion: W,
    ) -> (r: Route<(u32, u16, W), Option<P>>)
        ensures
            backend_answers(*self, (row, col, motion), r),
    {
        self.backend((row, col, motion))
    }

    /// The terminal's input modes.
    pub fn input_state(&self) -> (r: Route<(), Option<InputState>>)
        ensures
            backend_answers(*self, (), r),
    {
        self.backend(())
    }

    /// The terminal's cursor.
    pub fn cursor_state(
        &self,
        area: Rect,
        show_cursor: bool,
    ) -> (r: Route<(Rect, bool), Option<TerminalCursorState>>)
        ensures
            backend_answers(*self, (area, show_cursor), r),
    {
        self.backend((area, show_cursor))
    }

    /// Whether output is held back until it is complete.
    pub fn synchronized_output_active(&self) -> (r: Route<(), bool>)
        ensures
            backend_answers(*self, (), r),
    {
        self.backend(())
    }

    /// The text on the screen.
    pub fn visible_text(&self) -> (r: Route<(), String>)
        ensures
            backend_answers(*self, (), r),
    {
        self.backend(())
    }

    /// The text on the screen with its colors.
    pub fn visible_ansi(&self) -> (r: Route<(), String>)
        ensures
            backend_answers(*self, (), r),
    {
        self.backend(())
    }

    /// The text in which agents are detected.
    pub fn detection_text(&self) -> (r: Route<(), String>)
        ensures
            backend_answers(*self, (), r),
    {
        self.backend(())
    }

    /// The title that the child set. None on a mirror.
    pub fn terminal_title(&self) -> (r: Route<(), Option<String>>)
        ensures
            pty_answers_or(*self, (), r, None::<String>),
    {
        self.pty_or((), None)
    }

    /// The title that an agent reported.
    pub fn agent_osc_title(&self) -> (r: Route<(), String>)
        ensures
            backend_answers(*self, (), r),
    {
        self.backend(())
    }

    /// The progress that an agent reported.
    pub fn agent_osc_progress(&self) -> (r: Route<(), String>)
        ensures
            backend_answers(*self, (), r),
    {
        self.backend(())
    }

    /// The last lines.
    pub fn recent_text(&self, lines: usize) -> (r: Route<usize, String>)
        ensures
            backend_answers(*self, lines, r),
    {
        self.backend(lines)
    }

    /// The last lines with their colors.
    pub fn recent_ansi(&self, lines: usize) -> (r: Route<usize, String>)
        ensures
            backend_answers(*self, lines, r),
    {
        self.backend(lines)
    }

    /// The last lines, unwrapped.
    pub fn recent_unwrapped_text(&self, lines: usize) -> (r: Route<usize, String>)
        ensures
            backend_answers(*self, lines, r),
    {
        self.backend(lines)
    }

    /// The last lines, unwrapped, with their colors.
    pub fn recent_unwrapped_ansi(&self, lines: usize) -> (r: Route<usize, String>)
        ensures
            backend_answers(*self, lines, r),
    {
        self.backend(lines)
    }

    /// The history for a restore on the server. None on a mirror.
    pub fn snapshot_history(&self) -> (r: Route<(), Option<String>>)
        ensures
            pty_answers_or(*self, (), r, None::<String>),
    {
        self.pty_or((), None)
    }

    /// The text under a selection.
    pub fn extract_selection<'a, S>(&self, selection: &'a S) -> (r: Route<&'a S, Option<String>>)
        ensures
            backend_answers(*self, selection, r),
    {
        self.backend(selection)
    }

    /// Draws the viewport.
    pub fn render<F>(
        &self,
        frame: F,
        area: Rect,
        show_cursor: bool,
    ) -> (r: Route<(F, Rect, bool), ()>)
        ensures
            backend_answers(*self, (frame, area, show_cursor), r),
    {
        self.backend((frame, area, show_cursor))
    }

    /// What changed on the screen. A mirror streams to no one: draw everything.
    pub fn collect_dirty_patch(
        &self,
        area_width: u16,
        area_height: u16,
    ) -> (r: Route<(u16, u16), TerminalDirtyPatchOutcome>)
        ensures
            pty_answers_or(*self, (area_width, area_height), r, TerminalDirtyPatchOutcome::Fallback),
    {
        self.pty_or((area_width, area_height), TerminalDirtyPatchOutcome::Fallback)
    }

    /// The links on the screen.
    pub fn visible_hyperlinks(
        &self,
        area: Rect,
    ) -> (r: Route<Rect, Vec<((u16, u16), String, String)>>)
        ensures
            backend_answers(*self, area, r),
    {
        self.backend(area)
    }

    /// The images on the screen.
    pub fn kitty_image_placements_with_data_filter<F, K>(
        &self,
        needs_data: F,
    ) -> (r: Route<F, Vec<K>>)
        ensures
            backend_answers(*self, needs_data, r),
    {
        self.backend(needs_data)
    }

    /// How keys are written.
    pub fn keyboard_protocol<K>(&self) -> (r: Route<(), K>)
        ensures
            backend_answers(*self, (), r),
    {
        self.backend(())
    }

    /// The bytes of a key.
    pub fn encode_terminal_key<K>(&self, key: K) -> (r: Route<K, Vec<u8>>)
        ensures
            backend_answers(*self, key, r),
    {
        self.backend(key)
    }

    /// Writes to the PTY. Input of a mirror goes over the network instead.
    pub fn send_bytes(&self, bytes: Vec<u8>) -> (r: Route<Vec<u8>, Result<(), String>>)
        ensures
            pty_answers_or(*self, bytes, r, Ok::<(), String>(())),
    {
        self.pty_or(bytes, Ok(()))
    }

    /// Writes to the PTY if there is room. Input of a mirror goes over the network instead.
    pub fn try_send_bytes(&self, bytes: Vec<u8>) -> (r: Route<Vec<u8>, Result<(), String>>)
        ensures
            pty_answers_or(*self, bytes, r, Ok::<(), String>(())),
    {
        self.pty_or(bytes, Ok(()))
    }

    /// Pastes into the PTY. Input of a mirror goes over the network instead.
    pub fn send_paste(&self, text: String) -> (r: Route<String, Result<(), String>>)
        ensures
            pty_answers_or(*self, text, r, Ok::<(), String>(())),
    {
        self.pty_or(text, Ok(()))
    }

    /// Pastes into the PTY if there is room. Input of a mirror goes over the network instead.
    pub fn try_send_paste(&self, text: String) -> (r: Route<String, Result<(), String>>)
        ensures
            pty_answers_or(*self, text, r, Ok::<(), String>(())),
    {
        self.pty_or(text, Ok(()))
    }

    /// Tells the child about focus. A mirror tells no one.
    pub fn try_send_focus_event<E>(&self, event: E) -> (r: Route<E, bool>)
        ensures
            pty_answers_or(*self, event, r, false),
    {
        self.pty_or(event, false)
    }

    /// Who gets the wheel.
    pub fn wheel_routing(&self) -> (r: Route<(), Option<WheelRouting>>)
        ensures
            backend_answers(*self, (), r),
    {
        self.backend(())
    }

    /// The bytes of a mouse button.
    pub fn encode_mouse_button(
        &self,
        kind: MouseEventKind,
        column: u16,
        row: u16,
        modifiers: u8,
    ) -> (r: Route<(MouseEventKind, u16, u16, u8), Option<Vec<u8>>>)
        ensures
            backend_answers(*self, (kind, column, row, modifiers), r),
    {
        self.backend((kind, column, row, modifiers))
    }

    /// The bytes of a mouse motion.
    pub fn encode_mouse_motion(
        &self,
        kind: MouseEventKind,
        column: u16,
        row: u16,
        modifiers: u8,
    ) -> (r: Route<(MouseEventKind, u16, u16, u8), Option<Vec<u8>>>)
        ensures
            backend_answers(*self, (kind, column, row, modifiers), r),
    {
        self.backend((kind, column, row, modifiers))
    }

    /// The bytes of a wheel turn.
    pub fn encode_mouse_wheel(
        &self,
        kind: MouseEventKind,
        column: u16,
        row: u16,
        modifiers: u8,
    ) -> (r: Route<(MouseEventKind, u16, u16, u8), Option<Vec<u8>>>)
        ensures
            backend_answers(*self, (kind, column, row, modifiers), r),
    {
        self.backend((kind, column, row, modifiers))
    }

    /// The bytes of a wheel turn as a cursor key.
    pub fn encode_alternate_scroll(
        &self,
        kind: MouseEventKind,
    ) -> (r: Route<MouseEventKind, Option<Vec<u8>>>)
        ensures
            backend_answers(*self, kind, r),
    {
        self.backend(kind)
    }

    /// The child's directory. None on a mirror.
    pub fn cwd(&self) -> (r: Route<(), Option<String>>)
        ensures
            pty_answers_or(*self, (), r, None::<String>),
    {
        self.pty_or((), None)
    }

    /// The foreground process's directory. None on a mirror.
    pub fn foreground_cwd(&self) -> (r: Route<(), Option<String>>)
        ensures
            pty_answers_or(*self, (), r, None::<String>),
    {
        self.pty_or((), None)
    }

    /// The child's process. None on a mirror.
    pub fn child_pid(&self) -> (r: Route<(), Option<u32>>)
        ensures
            pty_answers_or(*self, (), r, None::<u32>),
    {
        self.pty_or((), None)
    }

    /// Rows and columns, in this order.
    pub fn current_size(&self) -> (r: Route<(), (u16, u16)>)
        ensures
            match *self {
                TerminalRuntime::Pty(id) => r == (Route::<(), (u16, u16)>::Pty { id, call: () }),
                TerminalRuntime::Mirror(m) => r == Route::<(), (u16, u16)>::Answer(
                    (m@.size.1, m@.size.0),
                ),
            },
    {
        match self {
            TerminalRuntime::Pty(id) => Route::Pty { id: *id, call: () },
            TerminalRuntime::Mirror(m) => Route::Answer(m.current_size()),
        }
    }
}

/// A scroll goes to the PTY runtime, or to the mirror and no further.
pub open spec fn scrolls<C>(
    before: TerminalRuntime,
    after: TerminalRuntime,
    call: C,
    r: Route<C, ()>,
    input: local_mirror::EmulatorInput,
) -> bool {
    match before {
        TerminalRuntime::Pty(id) => r == (Route::<C, ()>::Pty { id, call }) && after == before,
        TerminalRuntime::Mirror(m) => r == Route::<C, ()>::Answer(()) && (after
            matches TerminalRuntime::Mirror(n) && n@ == m@.with_input(input)),
    }
}

} // verus!
