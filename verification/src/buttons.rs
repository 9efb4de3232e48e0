//! Pointer buttons and touch: what the shell does with them before clients get them.

use vstd::prelude::*;

use crate::cursor::Coord;
use crate::dock::{in_pill, point_in_dock_pill};
use crate::menu::{in_reach, opened, MenuView};
use crate::num::{sat32, saturate};
use crate::popup::{client_popup_hit, client_popup_surface_under, full_hit, surface_under_full, SurfaceHit};
use crate::shell::{desktop_menu_closed, window_menu_opened, Shell, ShellView, UiView};
use crate::state::{SpikeState, SpikeView};
use crate::surface::SurfaceId;
use crate::windows::{id_for_surface, id_of, WindowState};

verus! {

pub const BTN_LEFT: u32 = 0x110;

pub const BTN_RIGHT: u32 = 0x111;

pub const BTN_MIDDLE: u32 = 0x112;

pub const BTN_EXTRA: u32 = 0x115;

pub const BTN_SIDE: u32 = 0x116;

/// A mouse button as the host names it.
#[derive(Clone, Copy, Debug, PartialEq, Eq, Structural)]
pub enum MouseButton {
    Left,
    Right,
    Middle,
    Back,
    Forward,
    Other(u16),
}

/// The evdev code of a mouse button; an unknown one counts as the left.
pub open spec fn evdev_of(button: MouseButton) -> u32 {
    match button {
        MouseButton::Left => BTN_LEFT,
        MouseButton::Right => BTN_RIGHT,
        MouseButton::Middle => BTN_MIDDLE,
        MouseButton::Back => BTN_SIDE,
        MouseButton::Forward => BTN_EXTRA,
        MouseButton::Other(_) => BTN_LEFT,
    }
}

/// The evdev code of a mouse button.
pub fn winit_button_to_evdev(button: MouseButton) -> (r: u32)
    ensures
        r == evdev_of(button),
{
    match button {
        MouseButton::Left => BTN_LEFT,
        MouseButton::Right => BTN_RIGHT,
        MouseButton::Middle => BTN_MIDDLE,
        MouseButton::Back => BTN_SIDE,
        MouseButton::Forward => BTN_EXTRA,
        MouseButton::Other(_) => BTN_LEFT,
    }
}

/// A pointer or touch event on its way to clients. `P` is the type of positions and
/// scroll distances.
#[derive(Clone, Copy, Debug)]
pub enum PendingPointerEvent<P> {
    Motion { at: P },
    /// `button` is an evdev code.
    Button { button: u32, pressed: bool },
    /// `discrete_v120` counts wheel notches in parts of 120, for real wheels.
    Axis { delta: P, discrete_v120: Option<(i32, i32)>, is_wheel: bool },
    TouchDown { slot: u32, at: P },
    TouchMotion { slot: u32, at: P },
    TouchUp { slot: u32 },
    TouchCancel,
    TouchFrame,
}

#[derive(Clone, Copy, Debug, PartialEq, Eq, Structural)]
pub enum TouchPhase {
    Started,
    Moved,
    Ended,
    Cancelled,
}

/// The events for a touch of the host: the touch itself and the end of the frame.
/// A touch whose number is too large for a slot is dropped.
pub open spec fn touch_sequence<P>(id: u64, phase: TouchPhase, at: P) -> Seq<PendingPointerEvent<P>> {
    if id > u32::MAX {
        Seq::empty()
    } else {
        let slot = id as u32;
        let event = match phase {
            TouchPhase::Started => PendingPointerEvent::TouchDown { slot, at },
            TouchPhase::Moved => PendingPointerEvent::TouchMotion { slot, at },
            TouchPhase::Ended => PendingPointerEvent::TouchUp { slot },
            TouchPhase::Cancelled => PendingPointerEvent::TouchCancel,
        };
        seq![event, PendingPointerEvent::TouchFrame]
    }
}

/// The events for a touch of the host.
pub fn touch_events<P>(id: u64, phase: TouchPhase, at: P) -> (r: Vec<PendingPointerEvent<P>>)
    ensures
        r@ == touch_sequence(id, phase, at),
{
    let mut out: Vec<PendingPointerEvent<P>> = Vec::new();
    if id > u32::MAX as u64 {
        return out;
    }
    let slot: u32 = id as u32;
    let event = match phase {
        TouchPhase::Started => PendingPointerEvent::TouchDown { slot, at },
        TouchPhase::Moved => PendingPointerEvent::TouchMotion { slot, at },
        TouchPhase::Ended => PendingPointerEvent::TouchUp { slot },
        TouchPhase::Cancelled => PendingPointerEvent::TouchCancel,
    };
    out.push(event);
    out.push(PendingPointerEvent::TouchFrame);
    out
}

/// The notches of a scroll as clients count them: the host counts upward, clients
/// downward.
pub open spec fn client_notches(host: Option<(i32, i32)>) -> Option<(i32, i32)> {
    match host {
        Some((x, y)) => Some((sat32(-(x as int)), sat32(-(y as int)))),
        None => None,
    }
}

/// A scroll of the host for clients.
pub open spec fn scrolled<P>(delta: P, host_v120: Option<(i32, i32)>) -> PendingPointerEvent<P> {
    PendingPointerEvent::Axis {
        delta,
        discrete_v120: client_notches(host_v120),
        is_wheel: host_v120 is Some,
    }
}

/// A scroll of the host for clients. `delta` is the distance, already turned round;
/// `host_v120` are the notches of a real wheel as the host counts them.
pub fn scroll_event<P>(delta: P, host_v120: Option<(i32, i32)>) -> (r: PendingPointerEvent<P>)
    ensures
        r == scrolled(delta, host_v120),
{
    match host_v120 {
        Some((x, y)) => PendingPointerEvent::Axis {
            delta,
            discrete_v120: Some((saturate(-(x as i64)), saturate(-(y as i64)))),
            is_wheel: true,
        },
        None => PendingPointerEvent::Axis { delta, discrete_v120: None, is_wheel: false },
    }
}

/// What becomes of a mouse button event of the host.
#[derive(Clone, Copy, Debug, PartialEq, Eq, Structural)]
pub enum MouseOutcome {
    /// It closed a context menu and goes nowhere else.
    Dismissed,
    /// Only the shell's own widgets get it.
    Captured,
    /// The shell's widgets get it, and clients under this evdev code.
    Queued(u32),
}

/// What a mouse button event of the host does.
pub open spec fn mouse_handled(s: ShellView, button: MouseButton, pressed: bool) -> (ShellView, MouseOutcome) {
    if button == MouseButton::Right && pressed && s.ui.any_menu_open() {
        (ShellView { ui: s.ui.menus_dismissed(), redraw: true, ..s }, MouseOutcome::Dismissed)
    } else {
        let t = if button == MouseButton::Left {
            ShellView { left_button_down: pressed, ..s }
        } else {
            s
        };
        (
            t,
            if s.ui.captures_pointer() {
                MouseOutcome::Captured
            } else {
                MouseOutcome::Queued(evdev_of(button))
            },
        )
    }
}

/// What a resize of the host window sets: the size of the output, and the mode that
/// clients are told of. A refresh rate that the host does not know counts as 60 Hz.
pub open spec fn host_resized(s: ShellView, w: u32, h: u32, refresh_mhz: Option<u32>) -> ShellView {
    let ow = if w == 0 {
        1i32
    } else {
        w as i32
    };
    let oh = if h == 0 {
        1i32
    } else {
        h as i32
    };
    let refresh = match refresh_mhz {
        Some(v) => v as i32,
        None => 60_000i32,
    };
    ShellView { output_w: ow, output_h: oh, pending_output_mode: Some((ow, oh, refresh)), ..s }
}

impl Shell {
    /// Handles a mouse button event of the host. A right press with a context menu open
    /// only closes the menu.
    pub fn handle_mouse_button(&mut self, button: MouseButton, pressed: bool) -> (r: MouseOutcome)
        requires
            old(self).wf(),
        ensures
            final(self).wf(),
            final(self)@ == mouse_handled(old(self)@, button, pressed).0,
            r == mouse_handled(old(self)@, button, pressed).1,
    {
        if button == MouseButton::Right && pressed && self.ui.menu_nav_active() {
            self.ui.dismiss_menus();
            self.redraw = true;
            return MouseOutcome::Dismissed;
        }
        if button == MouseButton::Left {
            self.left_button_down = pressed;
        }
        if self.ui.pointer_overlay_open() {
            MouseOutcome::Captured
        } else {
            MouseOutcome::Queued(winit_button_to_evdev(button))
        }
    }

    /// Handles a resize of the host window to a size in logical pixels.
    pub fn handle_host_resize(&mut self, w: u32, h: u32, refresh_mhz: Option<u32>)
        requires
            old(self).wf(),
        ensures
            final(self).wf(),
            final(self)@ == host_resized(old(self)@, w, h, refresh_mhz),
    {
        let ow: i32 = if w == 0 {
            1
        } else {
            w as i32
        };
        let oh: i32 = if h == 0 {
            1
        } else {
            h as i32
        };
        let refresh: i32 = match refresh_mhz {
            Some(v) => v as i32,
            None => 60_000,
        };
        self.output_w = ow;
        self.output_h = oh;
        self.pending_output_mode = Some((ow, oh, refresh));
    }
}

/// A button event for clients, with what the window manager says of the point.
#[derive(Clone, Copy, Debug)]
pub struct ButtonInput {
    /// The evdev code.
    pub button: u32,
    pub pressed: bool,
    pub x: Coord,
    /// Twice the horizontal coordinate.
    pub x2: Coord,
    pub y: Coord,
    /// The window that a click there focuses.
    pub clicked: Option<SurfaceId>,
    /// The toplevel whose title bar is there.
    pub title_bar: Option<usize>,
    /// The window surface there.
    pub window: Option<SurfaceHit>,
    /// What the surface tree on top has there.
    pub tree: Option<SurfaceHit>,
    /// The surface that has the pointer.
    pub pointer_focus: Option<SurfaceId>,
    /// Number of slots in the dock.
    pub dock_slots: usize,
}

/// What happens to the keyboard focus.
#[derive(Clone, Copy, Debug, PartialEq, Eq, Structural)]
pub enum FocusChange {
    Keep,
    Give(SurfaceId),
    Clear,
}

/// What a button event leaves to be done.
#[derive(Clone, Copy, Debug, PartialEq, Eq, Structural)]
pub struct ButtonOutcome {
    /// All client popups are told that they are done.
    pub dismiss_popups: bool,
    pub focus: FocusChange,
    pub refresh_windows: bool,
    /// The pointer is to enter this surface, or leave all, before the button is sent.
    pub refocus: Option<Option<SurfaceHit>>,
    /// Clients get the button.
    pub forward: bool,
}

/// Whether any window has the focus.
pub open spec fn any_focused(windows: Seq<WindowState>) -> bool {
    exists|i: int| 0 <= i < windows.len() && (#[trigger] windows[i]).focused
}

/// The windows with the focus taken from all.
pub open spec fn unfocused(windows: Seq<WindowState>) -> Seq<WindowState> {
    windows.map_values(|w: WindowState| WindowState { focused: false, ..w })
}

/// Takes the focus from all windows. Returns whether one had it.
pub fn unfocus_all(windows: &mut Vec<WindowState>) -> (r: bool)
    ensures
        r == any_focused(old(windows)@),
        final(windows)@ == unfocused(old(windows)@),
{
    let ghost all = windows@;
    let mut any = false;
    let mut i: usize = 0;
    while i < windows.len()
        invariant
            0 <= i <= windows@.len(),
            windows@.len() == all.len(),
            any == (exists|k: int| 0 <= k < i && (#[trigger] all[k]).focused),
            forall|k: int| 0 <= k < i ==> #[trigger] windows@[k] == (WindowState { focused: false, ..all[k] }),
            forall|k: int| i <= k < all.len() ==> #[trigger] windows@[k] == all[k],
        decreases windows@.len() - i,
    {
        if windows[i].focused {
            assert(all[i as int].focused);
            any = true;
        }
        windows[i].focused = false;
        i += 1;
    }
    assert(windows@ =~= unfocused(all));
    any
}

/// Whether a point belongs to the panel or the dock.
pub open spec fn in_shell(s: ShellView, b: ButtonInput) -> bool {
    b.y.lt(s.metrics.panel_h as int) || in_pill(
        b.x2,
        b.y,
        b.dock_slots as int,
        s.output_w,
        s.output_h,
        s.metrics.dock_h,
    )
}

/// A left press: it focuses the window that it hits; on the empty desktop it takes the
/// focus from all windows and closes the desktop menu.
pub open spec fn left_press(s: ShellView, st: SpikeView, b: ButtonInput) -> (ShellView, SpikeView, FocusChange, bool) {
    match b.clicked {
        Some(surface) => (
            ShellView { redraw: true, ..s },
            SpikeView { active_surface: Some(surface), ..st },
            FocusChange::Give(surface),
            false,
        ),
        None => if in_shell(s, b) {
            (s, st, FocusChange::Keep, false)
        } else if any_focused(s.windows) {
            (
                ShellView { redraw: true, ..desktop_clicked(s) },
                SpikeView { active_surface: None, ..st },
                FocusChange::Clear,
                true,
            )
        } else {
            (desktop_clicked(s), st, FocusChange::Keep, false)
        },
    }
}

/// The desktop menu is closed and no window has the focus.
pub open spec fn desktop_clicked(s: ShellView) -> ShellView {
    ShellView { ui: desktop_menu_closed(s.ui), windows: unfocused(s.windows), ..s }
}

/// The window whose title bar is under the pointer.
pub open spec fn title_bar_window(s: ShellView, st: SpikeView, b: ButtonInput) -> Option<i32> {
    match b.title_bar {
        Some(idx) => if idx < st.toplevels.len() {
            id_of(s.windows, st.toplevels[idx as int].surface)
        } else {
            None
        },
        None => None,
    }
}

/// A right press on the empty desktop opens the desktop menu.
pub open spec fn desktop_press(s: ShellView, b: ButtonInput) -> ShellView {
    if b.clicked is None && !in_shell(s, b) {
        ShellView {
            ui: UiView {
                desktop_menu: MenuView {
                    selected: s.ui.desktop_menu.selected,
                    w: s.ui.desktop_menu.w,
                    ..opened(s.ui.desktop_menu, b.x, b.y, s.menu_bounds())
                },
                ..s.ui
            },
            redraw: true,
            ..s
        }
    } else {
        s
    }
}

/// Whether the pointer has to enter another surface, or leave, before a press.
pub open spec fn refocus_for(hit: Option<SurfaceHit>, focus: Option<SurfaceId>) -> Option<Option<SurfaceHit>> {
    let want = match hit {
        Some(h) => Some(h.surface),
        None => None,
    };
    if want == focus {
        None
    } else {
        Some(hit)
    }
}

fn refocus(hit: Option<SurfaceHit>, focus: Option<SurfaceId>) -> (r: Option<Option<SurfaceHit>>)
    ensures
        r == refocus_for(hit, focus),
{
    match (hit, focus) {
        (Some(h), Some(f)) => {
            if h.surface == f {
                None
            } else {
                Some(hit)
            }
        },
        (None, None) => None,
        _ => Some(hit),
    }
}

/// Whether a button event turned the shell from `s` into `t` and the protocol state from
/// `before` into `after`, with what `r` leaves to be done.
pub open spec fn button_handled(
    s: ShellView,
    before: &SpikeState,
    b: ButtonInput,
    t: ShellView,
    after: &SpikeState,
    r: ButtonOutcome,
) -> bool {
    let st = before@;
        let over_popup = client_popup_hit(
        before,
        s.windows,
        s.metrics.titlebar_h,
        b.x,
        b.y,
    ) is Some;
    let left = b.button == BTN_LEFT && b.pressed && !over_popup;
    let right = b.button == BTN_RIGHT && b.pressed && !over_popup;
    if st.session_locked {
        &&& t == s
        &&& after@ == st
        &&& r == (ButtonOutcome {
            dismiss_popups: false,
            focus: FocusChange::Keep,
            refresh_windows: false,
            refocus: None,
            forward: true,
        })
    } else {
        &&& r.dismiss_popups == (b.pressed && !over_popup && st.popups.len() > 0)
        &&& r.forward == !(right && title_bar_window(s, st, b) is Some)
        &&& t == if left {
            left_press(s, st, b).0
        } else if right && title_bar_window(s, st, b) is Some {
            ShellView {
                ui: window_menu_opened(
                    s.ui,
                    title_bar_window(s, st, b)->0,
                    b.x,
                    b.y,
                    s.menu_bounds(),
                ),
                redraw: true,
                ..s
            }
        } else if right {
            desktop_press(s, b)
        } else {
            s
        }
        &&& after@ == if left {
            left_press(s, st, b).1
        } else {
            st
        }
        &&& r.focus == if left {
            left_press(s, st, b).2
        } else {
            FocusChange::Keep
        }
        &&& r.refresh_windows == (left && left_press(s, st, b).3)
        &&& r.refocus == if b.pressed && r.forward {
            refocus_for(
                full_hit(
                    after,
                    t.windows,
                    s.metrics.titlebar_h,
                    b.x,
                    b.y,
                    b.window,
                    b.tree,
                ),
                b.pointer_focus,
            )
        } else {
            None
        }
    }
}

impl Shell {
    fn in_shell_area(&self, b: ButtonInput) -> (r: bool)
        ensures
            r == in_shell(self@, b),
    {
        b.y.below(self.metrics.panel_h as i64) || point_in_dock_pill(
            b.x2,
            b.y,
            b.dock_slots,
            self.output_w,
            self.output_h,
            self.metrics.dock_h,
        )
    }

    fn click_desktop(&mut self) -> (r: bool)
        requires
            old(self).wf(),
        ensures
            final(self).wf(),
            final(self)@ == desktop_clicked(old(self)@),
            r == any_focused(old(self)@.windows),
    {
        self.ui.close_desktop_menu();
        unfocus_all(&mut self.windows)
    }

    fn handle_left_press(&mut self, state: &mut SpikeState, b: ButtonInput) -> (r: (FocusChange, bool))
        requires
            old(self).wf(),
        ensures
            final(self).wf(),
            final(self)@ == left_press(old(self)@, old(state)@, b).0,
            final(state)@ == left_press(old(self)@, old(state)@, b).1,
            r.0 == left_press(old(self)@, old(state)@, b).2,
            r.1 == left_press(old(self)@, old(state)@, b).3,
            final(state).popups == old(state).popups,
            final(state).layer_surfaces == old(state).layer_surfaces,
            final(state).toplevels == old(state).toplevels,
            final(state).session_locked == old(state).session_locked,
            final(state).lock_surfaces == old(state).lock_surfaces,
    {
        if let Some(surface) = b.clicked {
            state.active_surface = Some(surface);
            self.redraw = true;
            return (FocusChange::Give(surface), false);
        }
        if self.in_shell_area(b) {
            return (FocusChange::Keep, false);
        }
        if self.click_desktop() {
            state.active_surface = None;
            self.redraw = true;
            (FocusChange::Clear, true)
        } else {
            (FocusChange::Keep, false)
        }
    }

    fn title_bar_id(&self, state: &SpikeState, b: ButtonInput) -> (r: Option<i32>)
        ensures
            r == title_bar_window(self@, state@, b),
    {
        match b.title_bar {
            Some(idx) => {
                if idx < state.toplevels.len() {
                    id_for_surface(&self.windows, state.toplevels[idx].surface)
                } else {
                    None
                }
            },
            None => None,
        }
    }

    fn handle_desktop_press(&mut self, b: ButtonInput)
        requires
            old(self).wf(),
            in_reach(b.x),
            in_reach(b.y),
        ensures
            final(self).wf(),
            final(self)@ == desktop_press(old(self)@, b),
    {
        if b.clicked.is_none() && !self.in_shell_area(b) {
            let bounds = self.menu_bounds();
            self.ui.open_desktop_menu(b.x, b.y, bounds);
            self.redraw = true;
        }
    }

    /// Handles a button event before clients get it: a press outside client popups
    /// closes them; a left press moves the focus; a right press opens the menu of the
    /// title bar or of the desktop under it; and a press makes sure that the surface
    /// under the pointer is the one that has it. While the session is locked the event
    /// only goes to the lock surface.
    pub fn forward_pointer_button(&mut self, state: &mut SpikeState, b: ButtonInput) -> (r: ButtonOutcome)
        requires
            old(self).wf(),
            in_reach(b.x),
            in_reach(b.y),
        ensures
            final(self).wf(),
            button_handled(old(self)@, old(state), b, final(self)@, final(state), r),
    {
        let mut out = ButtonOutcome {
            dismiss_popups: false,
            focus: FocusChange::Keep,
            refresh_windows: false,
            refocus: None,
            forward: true,
        };
        if state.session_locked {
            return out;
        }
        let titlebar_h: i32 = self.metrics.titlebar_h;
        let over_popup = client_popup_surface_under(state, &self.windows, titlebar_h, b.x, b.y, None).is_some();
        out.dismiss_popups = b.pressed && !over_popup && state.popups.len() > 0;
        if b.button == BTN_LEFT && b.pressed && !over_popup {
            let (focus, refresh) = self.handle_left_press(state, b);
            out.focus = focus;
            out.refresh_windows = refresh;
        } else if b.button == BTN_RIGHT && b.pressed && !over_popup {
            if let Some(id) = self.title_bar_id(state, b) {
                let bounds = self.menu_bounds();
                self.ui.open_window_menu(id, b.x, b.y, bounds);
                self.redraw = true;
                out.forward = false;
                return out;
            }
            self.handle_desktop_press(b);
        }
        if b.pressed {
            let hit = surface_under_full(state, &self.windows, titlebar_h, b.x, b.y, b.window, b.tree);
            out.refocus = refocus(hit, b.pointer_focus);
        }
        out
    }
}

/// A click that the window manager gives to a window leaves the other windows, the
/// menus and the queues alone; a click on the desktop takes the focus from every window.
pub proof fn law_click_moves_focus(s: ShellView, st: SpikeView, b: ButtonInput)
    ensures
        ({
            let (s1, st1, focus, refresh) = left_press(s, st, b);
            &&& b.clicked matches Some(surface) ==> s1.windows == s.windows && s1.ui == s.ui && st1.active_surface
                == Some(surface) && focus == FocusChange::Give(surface)
            &&& b.clicked is None && in_shell(s, b) ==> s1 == s && st1 == st
            &&& b.clicked is None && !in_shell(s, b) ==> !any_focused(s1.windows) && !s1.ui.desktop_menu.open
        }),
{
}

/// What of a scroll a client is told.
#[derive(Clone, Copy, Debug, PartialEq, Eq, Structural)]
pub struct AxisParts {
    /// It scrolls across.
    pub horizontal: bool,
    /// It scrolls up or down.
    pub vertical: bool,
    pub notches_x: Option<i32>,
    pub notches_y: Option<i32>,
    /// It comes from a wheel, not from a touchpad.
    pub wheel: bool,
}

pub open spec fn notch(v: i32) -> Option<i32> {
    if v != 0 {
        Some(v)
    } else {
        None
    }
}

/// What a client is told of a scroll.
pub open spec fn axis_parts(moves_x: bool, moves_y: bool, discrete_v120: Option<(i32, i32)>, is_wheel: bool) -> Option<
    AxisParts,
> {
    if !moves_x && !moves_y {
        None
    } else {
        Some(
            AxisParts {
                horizontal: moves_x,
                vertical: moves_y,
                notches_x: match discrete_v120 {
                    Some((x, _)) => notch(x),
                    None => None,
                },
                notches_y: match discrete_v120 {
                    Some((_, y)) => notch(y),
                    None => None,
                },
                wheel: is_wheel,
            },
        )
    }
}

/// What a client is told of a scroll; nothing when it goes nowhere. `moves_x` and
/// `moves_y` tell along which axes it goes.
pub fn forward_pointer_axis(moves_x: bool, moves_y: bool, discrete_v120: Option<(i32, i32)>, is_wheel: bool) -> (r: Option<
    AxisParts,
>)
    ensures
        r == axis_parts(moves_x, moves_y, discrete_v120, is_wheel),
{
    if !moves_x && !moves_y {
        return None;
    }
    let (notches_x, notches_y): (Option<i32>, Option<i32>) = match discrete_v120 {
        Some((x, y)) => (
            if x != 0 {
                Some(x)
            } else {
                None
            },
            if y != 0 {
                Some(y)
            } else {
                None
            },
        ),
        None => (None, None),
    };
    Some(AxisParts { horizontal: moves_x, vertical: moves_y, notches_x, notches_y, wheel: is_wheel })
}

/// A press closes the popups of clients unless it is on one; a release closes nothing.
/// While the session is locked nothing is closed, opened or focused, and the lock surface
/// gets the button.
pub proof fn law_press_closes_popups(
    s: ShellView,
    before: &SpikeState,
    b: ButtonInput,
    t: ShellView,
    after: &SpikeState,
    r: ButtonOutcome,
)
    requires
        button_handled(s, before, b, t, after, r),
    ensures
        before@.session_locked ==> !r.dismiss_popups && r.focus is Keep && r.forward && t == s && after@ == before@,
        !b.pressed ==> !r.dismiss_popups && r.focus is Keep && r.forward && r.refocus is None && t == s && after@
            == before@,
        !before@.session_locked && b.pressed && client_popup_hit(before, s.windows, s.metrics.titlebar_h, b.x, b.y)
            is Some ==> !r.dismiss_popups && t == s && after@ == before@ && r.focus is Keep && r.forward,
        !before@.session_locked && b.pressed && client_popup_hit(before, s.windows, s.metrics.titlebar_h, b.x, b.y)
            is None ==> (r.dismiss_popups <==> before@.popups.len() > 0),
{
}

/// A left press on a window gives it the keyboard and marks its surface as the active one;
/// on the bare desktop it takes the keyboard from whichever window has it. Panel and dock
/// keep the focus where it is. Clients get the press in every case.
pub proof fn law_left_press_moves_focus(
    s: ShellView,
    before: &SpikeState,
    b: ButtonInput,
    t: ShellView,
    after: &SpikeState,
    r: ButtonOutcome,
)
    requires
        button_handled(s, before, b, t, after, r),
        !before@.session_locked,
        b.button == 0x110,
        b.pressed,
        client_popup_hit(before, s.windows, s.metrics.titlebar_h, b.x, b.y) is None,
    ensures
        r.forward,
        b.clicked matches Some(surface) ==> r.focus == FocusChange::Give(surface) && after@ == (SpikeView {
            active_surface: Some(surface),
            ..before@
        }) && t == (ShellView { redraw: true, ..s }),
        b.clicked is None && b.y.floor < s.metrics.panel_h ==> r.focus is Keep && t == s && after@ == before@,
        b.clicked is None && !in_shell(s, b) ==> {
            let any = exists|i: int| 0 <= i < s.windows.len() && (#[trigger] s.windows[i]).focused;
            &&& any ==> r.focus is Clear && after@.active_surface is None && t.redraw
            &&& !any ==> r.focus is Keep && after@ == before@
            &&& !t.ui.desktop_menu.open
            &&& t.windows.len() == s.windows.len()
            &&& forall|i: int|
                0 <= i < s.windows.len() ==> #[trigger] t.windows[i] == (WindowState { focused: false, ..s.windows[i] })
        },
{
}

/// A right press on a title bar opens the menu of that window there, and clients do not get
/// it; on the bare desktop it opens the desktop's menu there. It opens no other menu and
/// changes no focus.
pub proof fn law_right_press_opens_menu(
    s: ShellView,
    before: &SpikeState,
    b: ButtonInput,
    t: ShellView,
    after: &SpikeState,
    r: ButtonOutcome,
)
    requires
        button_handled(s, before, b, t, after, r),
        !before@.session_locked,
        b.button == 0x111,
        b.pressed,
        client_popup_hit(before, s.windows, s.metrics.titlebar_h, b.x, b.y) is None,
    ensures
        ({
            let bar = match b.title_bar {
                Some(idx) => if idx < before@.toplevels.len() {
                    id_of(s.windows, before@.toplevels[idx as int].surface)
                } else {
                    None
                },
                None => None,
            };
            &&& r.focus is Keep && after@ == before@ && t.windows == s.windows
            &&& t.ui.dock_menu == s.ui.dock_menu && t.ui.tray_menu == s.ui.tray_menu
            &&& bar matches Some(id) ==> !r.forward && t.ui.window_menu.open && t.ui.window_menu_target_id == id
                && t.ui.desktop_menu == s.ui.desktop_menu && t.redraw && t.ui.window_menu == opened(
                s.ui.window_menu,
                b.x,
                b.y,
                s.menu_bounds(),
            )
            &&& bar is None ==> r.forward && t.ui.window_menu == s.ui.window_menu
            &&& bar is None && b.clicked is None && !in_shell(s, b) ==> t.ui.desktop_menu.open && t.redraw
                && t.ui.desktop_menu.x == opened(s.ui.desktop_menu, b.x, b.y, s.menu_bounds()).x && t.ui.desktop_menu.y
                == opened(s.ui.desktop_menu, b.x, b.y, s.menu_bounds()).y
            &&& bar is None && (b.clicked is Some || in_shell(s, b)) ==> t == s
        }),
{
}

/// Before a press the pointer enters the surface under it, unless it is there already, and
/// leaves its surface where none is under it.
pub proof fn law_press_goes_where_the_pointer_is(hit: Option<SurfaceHit>, focus: Option<SurfaceId>)
    ensures
        hit matches Some(h) ==> (refocus_for(hit, focus) == (if focus == Some(h.surface) {
            None
        } else {
            Some(Some(h))
        })),
        hit is None ==> (refocus_for(hit, focus) is None <==> focus is None),
        hit is None && focus is Some ==> refocus_for(hit, focus) == Some(None::<SurfaceHit>),
{
}

/// A right press with a context menu open closes all of them and goes no further. Any other
/// event goes to the shell's widgets, and on to clients unless something of the shell's is
/// open over them. The left button counts as down from its press to its release.
pub proof fn law_mouse_button_goes_on(s: ShellView, button: MouseButton, pressed: bool)
    ensures
        ({
            let (t, r) = mouse_handled(s, button, pressed);
            let menu = s.ui.desktop_menu.open || s.ui.dock_menu.open || s.ui.tray_menu.open || s.ui.window_menu.open;
            let over = menu || s.ui.launcher_open || s.ui.datetime_popout_open || s.ui.control_centre_open
                || s.ui.help_overlay_visible;
            &&& r is Dismissed <==> button is Right && pressed && menu
            &&& r is Dismissed ==> !t.ui.any_menu_open() && t.redraw && t.left_button_down == s.left_button_down
            &&& !(r is Dismissed) ==> (r is Captured <==> over) && t.ui == s.ui
            &&& button is Left ==> t.left_button_down == pressed
            &&& !(button is Left) ==> t.left_button_down == s.left_button_down
            &&& !over ==> r == MouseOutcome::Queued(
                match button {
                    MouseButton::Left => 272u32,
                    MouseButton::Right => 273u32,
                    MouseButton::Middle => 274u32,
                    MouseButton::Back => 278u32,
                    MouseButton::Forward => 277u32,
                    MouseButton::Other(_) => 272u32,
                },
            )
        }),
{
}

/// A finger keeps its number from touch to lift, as far as clients can count, and every
/// event of it ends a frame.
pub proof fn law_touch_keeps_its_finger<P>(id: u64, at: P)
    ensures
        ({
            let down = touch_sequence(id, TouchPhase::Started, at);
            let moved = touch_sequence(id, TouchPhase::Moved, at);
            let up = touch_sequence(id, TouchPhase::Ended, at);
            let gone = touch_sequence(id, TouchPhase::Cancelled, at);
            &&& id > 0xffff_ffff ==> down.len() == 0 && moved.len() == 0 && up.len() == 0 && gone.len() == 0
            &&& id <= 0xffff_ffff ==> down.len() == 2 && moved.len() == 2 && up.len() == 2 && gone.len() == 2
                && down[1] is TouchFrame && moved[1] is TouchFrame && up[1] is TouchFrame && gone[1] is TouchFrame
                && down[0] == (PendingPointerEvent::TouchDown { slot: id as u32, at }) && moved[0] == (
            PendingPointerEvent::TouchMotion { slot: id as u32, at }) && up[0] == (PendingPointerEvent::<P>::TouchUp {
                slot: id as u32,
            }) && gone[0] is TouchCancel
        }),
{
}

/// A scroll goes to clients with its distance, its notches turned round, and as a wheel's
/// where it has notches; along each axis a client hears of the notches that moved it.
pub proof fn law_scroll_is_turned_round<P>(delta: P, x: i32, y: i32)
    requires
        x > i32::MIN,
        y > i32::MIN,
    ensures
        scrolled(delta, Some((x, y))) == (PendingPointerEvent::Axis {
            delta,
            discrete_v120: Some(((0 - x) as i32, (0 - y) as i32)),
            is_wheel: true,
        }),
        scrolled(delta, None) == (PendingPointerEvent::Axis { delta, discrete_v120: None, is_wheel: false }),
        axis_parts(false, false, Some((x, y)), true) is None,
        axis_parts(x != 0, y != 0, Some((x, y)), true) matches Some(a) ==> a.wheel && a.horizontal == (x != 0)
            && a.vertical == (y != 0) && a.notches_x == (if x != 0 { Some(x) } else { None }) && a.notches_y == (if y != 0 {
            Some(y)
        } else {
            None
        }),
{
}

/// The output is as large as the host's window, but never empty, and clients are told of
/// that size and of the host's refresh rate.
pub proof fn law_output_follows_host(s: ShellView, w: u32, h: u32, refresh_mhz: Option<u32>)
    requires
        w <= i32::MAX,
        h <= i32::MAX,
        refresh_mhz matches Some(v) ==> v <= i32::MAX,
    ensures
        ({
            let t = host_resized(s, w, h, refresh_mhz);
            &&& t.output_w >= 1 && t.output_h >= 1
            &&& w >= 1 ==> t.output_w == w
            &&& h >= 1 ==> t.output_h == h
            &&& t.pending_output_mode matches Some(m) && m.0 == t.output_w && m.1 == t.output_h && (refresh_mhz matches Some(
                v,
            ) ==> m.2 == v) && (refresh_mhz is None ==> m.2 == 60000)
            &&& t == (ShellView {
                output_w: t.output_w,
                output_h: t.output_h,
                pending_output_mode: t.pending_output_mode,
                ..s
            })
        }),
{
}

/// A press that is passed on goes to the surface under the pointer: to an open popup
/// there before all others. Nothing is told to the client that has the pointer already,
/// and no release moves the pointer's focus.
pub proof fn law_press_reaches_surface_under_pointer(
    s: ShellView,
    before: &SpikeState,
    b: ButtonInput,
    t: ShellView,
    after: &SpikeState,
    r: ButtonOutcome,
    h: SurfaceHit,
)
    requires
        button_handled(s, before, b, t, after, r),
        !before@.session_locked,
        !after.session_locked,
        b.tree is None,
    ensures
        !b.pressed ==> r.refocus is None,
        !r.forward ==> r.refocus is None,
        b.pressed && r.forward && crate::popup::popup_hit(
            after.popups@,
            t.windows,
            s.metrics.titlebar_h,
            b.x,
            b.y,
            after.popups@.len() as int,
        ) == Some(h) ==> r.refocus == if b.pointer_focus == Some(h.surface) {
            None
        } else {
            Some(Some(h))
        },
{
    crate::popup::law_pointer_order(after, t.windows, s.metrics.titlebar_h, b.x, b.y, b.window);
}

} // verus!
