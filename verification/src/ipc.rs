//! Commands from other processes, and keeping the list of windows in step with the
//! clients' toplevels.

use vstd::prelude::*;

use crate::buttons::BTN_LEFT;
use crate::drag::{
    configure_on, placed_on, release_configure, snap_applied, ConfigureRequest, SnapOutcome, StateChange,
};
use crate::keyboard::{strokes, type_text, PendingKeyEvent};
use crate::layer_shell::Area;
use crate::shell::{Shell, ShellView};
use crate::state::{SpikeState, SpikeView, ToplevelInfo};
use crate::surface::{index_of, lemma_index_of, position, tracks, SurfaceId};
use crate::text::{lower_chars, lower_text, chars_of, same_chars};
use crate::theme::{EaseTween, ThemeMode, ThemeState};
use crate::windows::{find_window, same_ids, surface_of, window_of, WindowState};

verus! {

/// A command for one window, or for the keyboard.
#[derive(Debug)]
pub enum IpcCommand {
    KeyEvent { scancode: u32, pressed: bool },
    TypeText { text: String },
    ActivateWindow { wm_id: i32 },
    CloseWindow { wm_id: i32 },
    MinimizeWindow { wm_id: i32 },
    MoveWindow { wm_id: i32, x: i32, y: i32 },
    ResizeWindow { wm_id: i32, w: i32, h: i32 },
}

/// What a command leaves to be done: popups of a moved or resized window are placed
/// again, and its client may be told a size.
#[derive(Clone, Copy, Debug, PartialEq, Eq, Structural)]
pub struct IpcOutcome {
    pub moved: Option<SurfaceId>,
    pub configure: Option<ConfigureRequest>,
}

/// The windows with the one with an id moved.
pub open spec fn window_moved(windows: Seq<WindowState>, id: i32, x: i32, y: i32) -> Seq<WindowState> {
    match window_of(windows, id) {
        Some(i) => windows.update(i, WindowState { rect: Area { x, y, ..windows[i].rect }, ..windows[i] }),
        None => windows,
    }
}

/// The windows with the one with an id given a size.
pub open spec fn window_sized(windows: Seq<WindowState>, id: i32, w: i32, h: i32) -> Seq<WindowState> {
    match window_of(windows, id) {
        Some(i) => windows.update(i, WindowState { rect: Area { w, h, ..windows[i].rect }, ..windows[i] }),
        None => windows,
    }
}

/// What a command does.
pub open spec fn ipc_handled(s: ShellView, st: SpikeView, cmd: IpcCommand) -> (ShellView, SpikeView, IpcOutcome) {
    let quiet = IpcOutcome { moved: None, configure: None };
    match cmd {
        IpcCommand::KeyEvent { scancode, pressed } => (
            ShellView { pending_keys: s.pending_keys.push(PendingKeyEvent { scancode, pressed }), ..s },
            st,
            quiet,
        ),
        IpcCommand::TypeText { text } => (
            ShellView { pending_keys: s.pending_keys + strokes(text@), ..s },
            st,
            quiet,
        ),
        IpcCommand::ActivateWindow { wm_id } => (
            ShellView { pending_activate: s.pending_activate.push(wm_id), ..s },
            st,
            quiet,
        ),
        IpcCommand::CloseWindow { wm_id } => (
            ShellView { pending_close: s.pending_close.push(wm_id), ..s },
            st,
            quiet,
        ),
        IpcCommand::MinimizeWindow { wm_id } => (
            ShellView { pending_minimize: s.pending_minimize.push(wm_id), ..s },
            st,
            quiet,
        ),
        IpcCommand::MoveWindow { wm_id, x, y } => (
            ShellView { windows: window_moved(s.windows, wm_id, x, y), redraw: true, ..s },
            match surface_of(s.windows, wm_id) {
                Some(surface) => SpikeView { toplevels: placed_on(st.toplevels, surface, x, y), ..st },
                None => st,
            },
            IpcOutcome { moved: surface_of(s.windows, wm_id), configure: None },
        ),
        IpcCommand::ResizeWindow { wm_id, w, h } => (
            ShellView { windows: window_sized(s.windows, wm_id, w, h), redraw: true, ..s },
            st,
            IpcOutcome {
                moved: surface_of(s.windows, wm_id),
                configure: match surface_of(s.windows, wm_id) {
                    Some(surface) => configure_on(st.toplevels, surface, w, h, StateChange::Keep),
                    None => None,
                },
            },
        ),
    }
}

impl Shell {
    fn move_window(&mut self, state: &mut SpikeState, wm_id: i32, x: i32, y: i32) -> (r: IpcOutcome)
        requires
            old(self).wf(),
        ensures
            final(self).wf(),
            final(self)@ == ipc_handled(old(self)@, old(state)@, (IpcCommand::MoveWindow { wm_id, x, y })).0,
            final(state)@ == ipc_handled(old(self)@, old(state)@, (IpcCommand::MoveWindow { wm_id, x, y })).1,
            r == ipc_handled(old(self)@, old(state)@, (IpcCommand::MoveWindow { wm_id, x, y })).2,
    {
        self.redraw = true;
        let mut moved: Option<SurfaceId> = None;
        if let Some(i) = find_window(&self.windows, wm_id) {
            let surface: SurfaceId = self.windows[i].surface;
            let mut rect = self.windows[i].rect;
            rect.x = x;
            rect.y = y;
            self.windows[i].rect = rect;
            assert(same_ids(old(self).windows@, self.windows@));
            state.place_on(surface, x, y);
            moved = Some(surface);
        }
        IpcOutcome { moved, configure: None }
    }

    fn resize_window(&mut self, state: &SpikeState, wm_id: i32, w: i32, h: i32) -> (r: IpcOutcome)
        requires
            old(self).wf(),
        ensures
            final(self).wf(),
            final(self)@ == ipc_handled(old(self)@, state@, (IpcCommand::ResizeWindow { wm_id, w, h })).0,
            r == ipc_handled(old(self)@, state@, (IpcCommand::ResizeWindow { wm_id, w, h })).2,
    {
        self.redraw = true;
        let mut out = IpcOutcome { moved: None, configure: None };
        if let Some(i) = find_window(&self.windows, wm_id) {
            let surface: SurfaceId = self.windows[i].surface;
            let mut rect = self.windows[i].rect;
            rect.w = w;
            rect.h = h;
            self.windows[i].rect = rect;
            out.moved = Some(surface);
            out.configure = state.configure_on(surface, w, h, StateChange::Keep);
        }
        out
    }

    /// Carries out a command for one window, or for the keyboard.
    pub fn dispatch_ipc(&mut self, state: &mut SpikeState, cmd: IpcCommand) -> (r: IpcOutcome)
        requires
            old(self).wf(),
        ensures
            final(self).wf(),
            final(self)@ == ipc_handled(old(self)@, old(state)@, cmd).0,
            final(state)@ == ipc_handled(old(self)@, old(state)@, cmd).1,
            r == ipc_handled(old(self)@, old(state)@, cmd).2,
    {
        let quiet = IpcOutcome { moved: None, configure: None };
        match cmd {
            IpcCommand::KeyEvent { scancode, pressed } => {
                self.pending_keys.push(PendingKeyEvent { scancode, pressed });
                quiet
            },
            IpcCommand::TypeText { text } => {
                type_text(text.as_str(), &mut self.pending_keys);
                quiet
            },
            IpcCommand::ActivateWindow { wm_id } => {
                self.pending_activate.push(wm_id);
                quiet
            },
            IpcCommand::CloseWindow { wm_id } => {
                self.pending_close.push(wm_id);
                quiet
            },
            IpcCommand::MinimizeWindow { wm_id } => {
                self.pending_minimize.push(wm_id);
                quiet
            },
            IpcCommand::MoveWindow { wm_id, x, y } => self.move_window(state, wm_id, x, y),
            IpcCommand::ResizeWindow { wm_id, w, h } => self.resize_window(state, wm_id, w, h),
        }
    }
}

/// What a pointer button from another process leaves to be done before it is forwarded.
#[derive(Clone, Copy, Debug, PartialEq, Eq, Structural)]
pub struct IpcButton {
    /// The pointer's position is to be handled again: a drag may begin.
    pub update_pointer: bool,
    pub snap: Option<SnapOutcome>,
    pub configure: Option<ConfigureRequest>,
}

/// What a pointer button does before it is forwarded.
pub open spec fn button_handled(s: ShellView, st: SpikeView, button: u32, pressed: bool) -> (
    ShellView,
    SpikeView,
    IpcButton,
) {
    if button != BTN_LEFT {
        (s, st, IpcButton { update_pointer: false, snap: None, configure: None })
    } else if pressed {
        (
            ShellView { left_button_down: true, ..s },
            st,
            IpcButton { update_pointer: true, snap: None, configure: None },
        )
    } else {
        let (s1, st1, snap) = snap_applied(ShellView { left_button_down: false, ..s }, st);
        (
            ShellView { active_drag: None, ..s1 },
            st1,
            IpcButton { update_pointer: false, snap, configure: release_configure(s1, st1) },
        )
    }
}

impl Shell {
    /// Handles a pointer button before it is forwarded: a left press may begin a drag, a
    /// left release snaps the dragged window and ends the drag.
    pub fn handle_button(&mut self, state: &mut SpikeState, button: u32, pressed: bool) -> (r: IpcButton)
        requires
            old(self).wf(),
        ensures
            final(self).wf(),
            final(self)@ == button_handled(old(self)@, old(state)@, button, pressed).0,
            final(state)@ == button_handled(old(self)@, old(state)@, button, pressed).1,
            r == button_handled(old(self)@, old(state)@, button, pressed).2,
    {
        if button != BTN_LEFT {
            return IpcButton { update_pointer: false, snap: None, configure: None };
        }
        self.left_button_down = pressed;
        if pressed {
            return IpcButton { update_pointer: true, snap: None, configure: None };
        }
        let snap = self.apply_pending_snap(state);
        let configure = self.release_drag(state);
        IpcButton { update_pointer: false, snap, configure }
    }
}

/// The mode that a name asks for: light by its name, dark by any other.
pub open spec fn named_mode(name: Seq<char>) -> ThemeMode {
    if lower_text(name) == "light"@ {
        ThemeMode::Light
    } else {
        ThemeMode::Dark
    }
}

/// Sets the theme mode by its name. Returns whether the mode changed.
pub fn set_theme(theme: &mut ThemeState, name: &str) -> (changed: bool)
    requires
        old(theme).wf(),
    ensures
        final(theme).wf(),
        changed == (old(theme).current_mode != named_mode(name@)),
        final(theme).current_mode == named_mode(name@),
        changed ==> final(theme).mode_tween == EaseTween::start(
            old(theme).mode_tween.level(),
            named_mode(name@).level(),
        ),
        !changed ==> *final(theme) == *old(theme),
        final(theme).same_but_mode(old(theme)),
{
    let want = if same_chars(&lower_chars(name), &chars_of("light")) {
        ThemeMode::Light
    } else {
        ThemeMode::Dark
    };
    if theme.current_mode != want {
        theme.toggle_mode();
        true
    } else {
        false
    }
}

/// The destroyed surfaces, among the first `n`, that have a window.
pub open spec fn closing_of(windows: Seq<WindowState>, destroyed: Seq<SurfaceId>, n: int) -> Seq<SurfaceId>
    decreases n,
{
    if n <= 0 {
        Seq::empty()
    } else {
        let rest = closing_of(windows, destroyed, n - 1);
        if tracks(windows, destroyed[n - 1]) {
            rest.push(destroyed[n - 1])
        } else {
            rest
        }
    }
}

/// The toplevels, among the first `n`, that need a window: those that have none and do
/// not place themselves.
pub open spec fn unmanaged(windows: Seq<WindowState>, toplevels: Seq<ToplevelInfo>, n: int) -> Seq<SurfaceId>
    decreases n,
{
    if n <= 0 {
        Seq::empty()
    } else {
        let rest = unmanaged(windows, toplevels, n - 1);
        let t = toplevels[n - 1];
        if !t.backing.is_override_redirect() && !tracks(windows, t.surface) && !rest.contains(t.surface) {
            rest.push(t.surface)
        } else {
            rest
        }
    }
}

/// Windows to close and to add.
#[derive(Debug)]
pub struct WindowSync {
    pub close: Vec<SurfaceId>,
    pub add: Vec<SurfaceId>,
}

fn contains_surface(v: &Vec<SurfaceId>, s: SurfaceId) -> (r: bool)
    ensures
        r == v@.contains(s),
{
    let mut i: usize = 0;
    while i < v.len()
        invariant
            0 <= i <= v@.len(),
            forall|k: int| 0 <= k < i ==> v@[k] != s,
        decreases v@.len() - i,
    {
        if v[i] == s {
            return true;
        }
        i += 1;
    }
    false
}

/// Finds the windows whose surface is gone and the toplevels that have no window yet.
pub fn sync_new_toplevels(state: &mut SpikeState, windows: &Vec<WindowState>) -> (r: WindowSync)
    ensures
        r.close@ == closing_of(windows@, old(state)@.destroyed_surfaces, old(state)@.destroyed_surfaces.len() as int),
        r.add@ == unmanaged(windows@, old(state)@.toplevels, old(state)@.toplevels.len() as int),
        final(state)@ == (SpikeView { destroyed_surfaces: Seq::empty(), ..old(state)@ }),
{
    let mut close: Vec<SurfaceId> = Vec::new();
    let mut i: usize = 0;
    while i < state.destroyed_surfaces.len()
        invariant
            0 <= i <= state.destroyed_surfaces@.len(),
            state@ == old(state)@,
            close@ == closing_of(windows@, state.destroyed_surfaces@, i as int),
        decreases state.destroyed_surfaces@.len() - i,
    {
        let s: SurfaceId = state.destroyed_surfaces[i];
        proof {
            lemma_index_of(windows@, s);
        }
        if position(windows, s).is_some() {
            close.push(s);
        }
        i += 1;
    }
    let mut add: Vec<SurfaceId> = Vec::new();
    let mut k: usize = 0;
    while k < state.toplevels.len()
        invariant
            0 <= k <= state.toplevels@.len(),
            state@ == old(state)@,
            add@ == unmanaged(windows@, state.toplevels@, k as int),
        decreases state.toplevels@.len() - k,
    {
        let s: SurfaceId = state.toplevels[k].surface;
        proof {
            lemma_index_of(windows@, s);
        }
        if !state.toplevels[k].backing.override_redirect() && position(windows, s).is_none() && !contains_surface(
            &add,
            s,
        ) {
            add.push(s);
        }
        k += 1;
    }
    state.destroyed_surfaces = Vec::new();
    WindowSync { close, add }
}

/// A toplevel with the position that the window manager chose for it.
pub open spec fn aligned(t: ToplevelInfo, windows: Seq<WindowState>) -> ToplevelInfo {
    match index_of(windows, t.surface) {
        Some(i) => ToplevelInfo { x: windows[i].rect.x, y: windows[i].rect.y, ..t },
        None => t,
    }
}

/// Takes over the positions that the window manager chose. Returns the active surface
/// if its window still has to be focused.
pub fn align_toplevels(state: &mut SpikeState, windows: &Vec<WindowState>) -> (r: Option<SurfaceId>)
    ensures
        final(state)@ == (SpikeView {
            toplevels: old(state)@.toplevels.map_values(|t: ToplevelInfo| aligned(t, windows@)),
            ..old(state)@
        }),
        r == match old(state)@.active_surface {
            Some(s) => match index_of(windows@, s) {
                Some(i) => if windows@[i].focused {
                    None
                } else {
                    Some(s)
                },
                None => None,
            },
            None => None,
        },
{
    let ghost all = state@.toplevels;
    let mut k: usize = 0;
    while k < state.toplevels.len()
        invariant
            0 <= k <= state.toplevels@.len(),
            state.toplevels@.len() == all.len(),
            state@ == (SpikeView { toplevels: state.toplevels@, ..old(state)@ }),
            forall|j: int| 0 <= j < k ==> #[trigger] state.toplevels@[j] == aligned(all[j], windows@),
            forall|j: int| k <= j < all.len() ==> #[trigger] state.toplevels@[j] == all[j],
        decreases state.toplevels@.len() - k,
    {
        if let Some(i) = position(windows, state.toplevels[k].surface) {
            let rect = windows[i].rect;
            state.toplevels[k].x = rect.x;
            state.toplevels[k].y = rect.y;
        }
        k += 1;
    }
    assert(state.toplevels@ =~= all.map_values(|t: ToplevelInfo| aligned(t, windows@)));
    match state.active_surface {
        Some(s) => match position(windows, s) {
            Some(i) => {
                if windows[i].focused {
                    None
                } else {
                    Some(s)
                }
            },
            None => None,
        },
        None => None,
    }
}

/// Every toplevel that does not place itself has a window or is about to get one.
pub proof fn law_every_toplevel_is_managed(windows: Seq<WindowState>, toplevels: Seq<ToplevelInfo>, i: int)
    requires
        0 <= i < toplevels.len(),
        !toplevels[i].backing.is_override_redirect(),
    ensures
        tracks(windows, toplevels[i].surface) || unmanaged(windows, toplevels, toplevels.len() as int).contains(
            toplevels[i].surface,
        ),
{
    lemma_unmanaged_grows(windows, toplevels, i + 1, toplevels.len() as int, toplevels[i].surface);
    let rest = unmanaged(windows, toplevels, i);
    let grown = unmanaged(windows, toplevels, i + 1);
    if !tracks(windows, toplevels[i].surface) && !rest.contains(toplevels[i].surface) {
        assert(grown[grown.len() - 1] == toplevels[i].surface);
    }
}

proof fn lemma_unmanaged_grows(windows: Seq<WindowState>, toplevels: Seq<ToplevelInfo>, n: int, m: int, s: SurfaceId)
    requires
        0 <= n <= m <= toplevels.len(),
    ensures
        unmanaged(windows, toplevels, n).contains(s) ==> unmanaged(windows, toplevels, m).contains(s),
    decreases m,
{
    if n < m {
        lemma_unmanaged_grows(windows, toplevels, n, m - 1, s);
        let rest = unmanaged(windows, toplevels, m - 1);
        if rest.contains(s) {
            let k = choose|k: int| 0 <= k < rest.len() && rest[k] == s;
            assert(unmanaged(windows, toplevels, m)[k] == s);
        }
    }
}

/// What the first `n` commands do, one after the other.
pub open spec fn ipc_all(s: ShellView, st: SpikeView, cmds: Seq<IpcCommand>, n: int) -> (
    ShellView,
    SpikeView,
    Seq<IpcOutcome>,
)
    decreases n,
{
    if n <= 0 {
        (s, st, Seq::empty())
    } else {
        let (s1, st1, done) = ipc_all(s, st, cmds, n - 1);
        let (s2, st2, r) = ipc_handled(s1, st1, cmds[n - 1]);
        (s2, st2, done.push(r))
    }
}

impl Shell {
    /// Carries out the commands that have come in, oldest first.
    pub fn process_ipc_commands(&mut self, state: &mut SpikeState, cmds: Vec<IpcCommand>) -> (r: Vec<IpcOutcome>)
        requires
            old(self).wf(),
        ensures
            final(self).wf(),
            final(self)@ == ipc_all(old(self)@, old(state)@, cmds@, cmds@.len() as int).0,
            final(state)@ == ipc_all(old(self)@, old(state)@, cmds@, cmds@.len() as int).1,
            r@ == ipc_all(old(self)@, old(state)@, cmds@, cmds@.len() as int).2,
    {
        let ghost all = cmds@;
        let mut waiting = cmds;
        let mut r: Vec<IpcOutcome> = Vec::new();
        let ghost mut n: int = 0;
        while waiting.len() > 0
            invariant
                0 <= n <= all.len(),
                waiting@ == all.skip(n),
                self.wf(),
                self@ == ipc_all(old(self)@, old(state)@, all, n).0,
                state@ == ipc_all(old(self)@, old(state)@, all, n).1,
                r@ == ipc_all(old(self)@, old(state)@, all, n).2,
            decreases waiting@.len(),
        {
            assert(all.skip(n)[0] == all[n]);
            let cmd = waiting.remove(0);
            assert(waiting@ =~= all.skip(n + 1));
            r.push(self.dispatch_ipc(state, cmd));
            proof {
                n = n + 1;
            }
        }
        r
    }
}

/// A command to type, activate, close or minimize goes into the queue of its kind,
/// behind what waits there, and into no other; no window moves by it.
pub proof fn law_command_joins_its_queue(s: ShellView, st: SpikeView, cmd: IpcCommand)
    requires
        !(cmd is MoveWindow),
        !(cmd is ResizeWindow),
    ensures
        ({
            let (after, clients, r) = ipc_handled(s, st, cmd);
            &&& after.pending_keys == s.pending_keys + match cmd {
                IpcCommand::KeyEvent { scancode, pressed } => seq![PendingKeyEvent { scancode, pressed }],
                IpcCommand::TypeText { text } => strokes(text@),
                _ => Seq::empty(),
            }
            &&& after.pending_activate == s.pending_activate + match cmd {
                IpcCommand::ActivateWindow { wm_id } => seq![wm_id],
                _ => Seq::empty(),
            }
            &&& after.pending_close == s.pending_close + match cmd {
                IpcCommand::CloseWindow { wm_id } => seq![wm_id],
                _ => Seq::empty(),
            }
            &&& after.pending_minimize == s.pending_minimize + match cmd {
                IpcCommand::MinimizeWindow { wm_id } => seq![wm_id],
                _ => Seq::empty(),
            }
            &&& after.pending_maximize == s.pending_maximize
            &&& after.windows == s.windows
            &&& clients == st
            &&& r.moved is None && r.configure is None
        }),
{
    let (after, clients, r) = ipc_handled(s, st, cmd);
    assert(s.pending_keys + Seq::empty() =~= s.pending_keys);
    assert(s.pending_activate + Seq::empty() =~= s.pending_activate);
    assert(s.pending_close + Seq::empty() =~= s.pending_close);
    assert(s.pending_minimize + Seq::empty() =~= s.pending_minimize);
    match cmd {
        IpcCommand::KeyEvent { scancode, pressed } => {
            assert(after.pending_keys =~= s.pending_keys + seq![PendingKeyEvent { scancode, pressed }]);
        },
        IpcCommand::ActivateWindow { wm_id } => {
            assert(after.pending_activate =~= s.pending_activate + seq![wm_id]);
        },
        IpcCommand::CloseWindow { wm_id } => {
            assert(after.pending_close =~= s.pending_close + seq![wm_id]);
        },
        IpcCommand::MinimizeWindow { wm_id } => {
            assert(after.pending_minimize =~= s.pending_minimize + seq![wm_id]);
        },
        _ => {},
    }
}

/// A window that is moved is then at the point named, and so is its client's surface.
/// Its size, and every other window and client, stay as they are.
pub proof fn law_window_goes_where_told(s: ShellView, st: SpikeView, i: int, t: int, x: i32, y: i32)
    requires
        0 <= i < s.windows.len(),
        forall|k: int| 0 <= k < s.windows.len() && k != i ==> (#[trigger] s.windows[k]).id != s.windows[i].id,
        0 <= t < st.toplevels.len(),
        forall|k: int|
            0 <= k < st.toplevels.len() ==> ((#[trigger] st.toplevels[k]).surface == s.windows[i].surface <==> k == t),
    ensures
        ({
            let (after, clients, r) = ipc_handled(s, st, (IpcCommand::MoveWindow { wm_id: s.windows[i].id, x, y }));
            &&& after.windows.len() == s.windows.len()
            &&& after.windows[i].rect == (Area { x, y, w: s.windows[i].rect.w, h: s.windows[i].rect.h })
            &&& after.windows[i].id == s.windows[i].id
            &&& forall|k: int| 0 <= k < s.windows.len() && k != i ==> #[trigger] after.windows[k] == s.windows[k]
            &&& clients.toplevels.len() == st.toplevels.len()
            &&& (clients.toplevels[t].x, clients.toplevels[t].y) == (x, y)
            &&& clients.toplevels[t].surface == st.toplevels[t].surface
            &&& forall|k: int|
                0 <= k < st.toplevels.len() && k != t ==> #[trigger] clients.toplevels[k] == st.toplevels[k]
            &&& r.moved == Some(s.windows[i].surface)
            &&& r.configure is None
            &&& after.redraw
        }),
{
    crate::windows::lemma_window_from(s.windows, s.windows[i].id, 0);
    lemma_index_of(st.toplevels, s.windows[i].surface);
    assert(st.toplevels[t].surface == s.windows[i].surface);
}

/// A window that is resized gets the size named and stays at its place; a native
/// client is told that size. Every other window stays as it is.
pub proof fn law_window_gets_size_told(s: ShellView, st: SpikeView, i: int, t: int, w: i32, h: i32)
    requires
        0 <= i < s.windows.len(),
        forall|k: int| 0 <= k < s.windows.len() && k != i ==> (#[trigger] s.windows[k]).id != s.windows[i].id,
        0 <= t < st.toplevels.len(),
        forall|k: int|
            0 <= k < st.toplevels.len() ==> ((#[trigger] st.toplevels[k]).surface == s.windows[i].surface <==> k == t),
    ensures
        ({
            let (after, clients, r) = ipc_handled(s, st, (IpcCommand::ResizeWindow { wm_id: s.windows[i].id, w, h }));
            &&& after.windows.len() == s.windows.len()
            &&& after.windows[i].rect == (Area { x: s.windows[i].rect.x, y: s.windows[i].rect.y, w, h })
            &&& forall|k: int| 0 <= k < s.windows.len() && k != i ==> #[trigger] after.windows[k] == s.windows[k]
            &&& clients == st
            &&& r.configure is Some <==> st.toplevels[t].backing is Xdg
            &&& (r.configure matches Some(c) ==> c.surface == s.windows[i].surface && c.w == w && c.h == h)
            &&& after.redraw
        }),
{
    crate::windows::lemma_window_from(s.windows, s.windows[i].id, 0);
    lemma_index_of(st.toplevels, s.windows[i].surface);
    assert(st.toplevels[t].surface == s.windows[i].surface);
}

/// A command for a window that is not there moves and resizes nothing.
pub proof fn law_unknown_window_is_left(s: ShellView, st: SpikeView, id: i32, a: i32, b: i32)
    requires
        forall|k: int| 0 <= k < s.windows.len() ==> (#[trigger] s.windows[k]).id != id,
    ensures
        ipc_handled(s, st, (IpcCommand::MoveWindow { wm_id: id, x: a, y: b })).0.windows == s.windows,
        ipc_handled(s, st, (IpcCommand::MoveWindow { wm_id: id, x: a, y: b })).1 == st,
        ipc_handled(s, st, (IpcCommand::ResizeWindow { wm_id: id, w: a, h: b })).0.windows == s.windows,
        ipc_handled(s, st, (IpcCommand::ResizeWindow { wm_id: id, w: a, h: b })).2.configure is None,
{
    crate::windows::lemma_window_from(s.windows, id, 0);
}

/// The left button (272) is down once pressed, and the pointer is looked at again.
/// Released, it is up, no drag goes on and no snap waits. Other buttons do nothing.
pub proof fn law_injected_button(s: ShellView, st: SpikeView, button: u32, pressed: bool)
    ensures
        ({
            let (after, clients, r) = button_handled(s, st, button, pressed);
            &&& button != 272 ==> after == s && clients == st && !r.update_pointer && r.snap is None && r.configure is None
            &&& button == 272 && pressed ==> after.left_button_down && after.active_drag == s.active_drag && clients == st
                && r.update_pointer
            &&& button == 272 && !pressed ==> !after.left_button_down && after.active_drag is None
                && after.pending_snap is None && after.snap_preview is None && !r.update_pointer
        }),
{
}

/// The theme is light for the word "light", in whatever case it is written, and dark
/// for every other.
pub proof fn law_theme_name(name: Seq<char>)
    ensures
        named_mode(name) == ThemeMode::Light <==> name.len() == 5 && (name[0] == 'l' || name[0] == 'L') && (name[1] == 'i'
            || name[1] == 'I') && (name[2] == 'g' || name[2] == 'G') && (name[3] == 'h' || name[3] == 'H') && (name[4]
            == 't' || name[4] == 'T'),
{
    reveal_strlit("light");
    let low = lower_text(name);
    assert(low.len() == name.len());
    assert("light"@.len() == 5);
    if name.len() == 5 {
        crate::text::law_capitals_become_small(name[0]);
        crate::text::law_capitals_become_small(name[1]);
        crate::text::law_capitals_become_small(name[2]);
        crate::text::law_capitals_become_small(name[3]);
        crate::text::law_capitals_become_small(name[4]);
        assert(low[0] == crate::text::lower(name[0]));
        assert(low[1] == crate::text::lower(name[1]));
        assert(low[2] == crate::text::lower(name[2]));
        assert(low[3] == crate::text::lower(name[3]));
        assert(low[4] == crate::text::lower(name[4]));
        if low == "light"@ {
            assert("light"@[0] == 'l' && "light"@[1] == 'i' && "light"@[2] == 'g' && "light"@[3] == 'h' && "light"@[4]
                == 't');
        } else if (name[0] == 'l' || name[0] == 'L') && (name[1] == 'i' || name[1] == 'I') && (name[2] == 'g' || name[2]
            == 'G') && (name[3] == 'h' || name[3] == 'H') && (name[4] == 't' || name[4] == 'T') {
            assert(low =~= "light"@);
        }
    }
}

/// Of the windows that clients destroyed, those that are managed are closed, in the
/// order in which they went.
pub proof fn law_destroyed_windows_close(windows: Seq<WindowState>, destroyed: Seq<SurfaceId>, n: int)
    requires
        0 <= n <= destroyed.len(),
    ensures
        closing_of(windows, destroyed, n) == destroyed.take(n).filter(|s: SurfaceId| tracks(windows, s)),
    decreases n,
{
    reveal(Seq::filter);
    if n > 0 {
        law_destroyed_windows_close(windows, destroyed, n - 1);
        assert(destroyed.take(n).drop_last() =~= destroyed.take(n - 1));
        assert(destroyed.take(n).last() == destroyed[n - 1]);
    }
}

/// A window is added for each client window that wants managing and has none yet, and
/// for none twice.
pub proof fn law_new_windows_are_added(windows: Seq<WindowState>, toplevels: Seq<ToplevelInfo>, n: int)
    requires
        0 <= n <= toplevels.len(),
    ensures
        unmanaged(windows, toplevels, n).no_duplicates(),
        forall|k: int|
            0 <= k < unmanaged(windows, toplevels, n).len() ==> {
                let s = #[trigger] unmanaged(windows, toplevels, n)[k];
                &&& !tracks(windows, s)
                &&& exists|i: int|
                    0 <= i < n && (#[trigger] toplevels[i]).surface == s
                        && !toplevels[i].backing.is_override_redirect()
            },
    decreases n,
{
    if n > 0 {
        law_new_windows_are_added(windows, toplevels, n - 1);
        let rest = unmanaged(windows, toplevels, n - 1);
        let all = unmanaged(windows, toplevels, n);
        assert forall|k: int| 0 <= k < all.len() implies {
            let s = #[trigger] all[k];
            &&& !tracks(windows, s)
            &&& exists|i: int|
                0 <= i < n && (#[trigger] toplevels[i]).surface == s && !toplevels[i].backing.is_override_redirect()
        } by {
            if k < rest.len() {
                assert(all[k] == rest[k]);
                let i = choose|i: int|
                    0 <= i < n - 1 && (#[trigger] toplevels[i]).surface == rest[k]
                        && !toplevels[i].backing.is_override_redirect();
                assert(toplevels[i].surface == all[k]);
            } else {
                assert(toplevels[n - 1].surface == all[k]);
            }
        }
    }
}

/// A client's surface is where its window is.
pub proof fn law_surface_is_where_its_window_is(t: ToplevelInfo, windows: Seq<WindowState>, i: int)
    requires
        0 <= i < windows.len(),
        forall|k: int| 0 <= k < windows.len() ==> ((#[trigger] windows[k]).surface == t.surface <==> k == i),
    ensures
        aligned(t, windows).x == windows[i].rect.x,
        aligned(t, windows).y == windows[i].rect.y,
        aligned(t, windows).surface == t.surface,
        aligned(t, windows).backing == t.backing,
{
    lemma_index_of(windows, t.surface);
    assert(windows[i].surface == t.surface);
}

/// Commands run one after the other, the first one first.
pub proof fn law_commands_run_in_order(s: ShellView, st: SpikeView, cmds: Seq<IpcCommand>, n: int)
    requires
        1 <= n <= cmds.len(),
    ensures
        ({
            let (s1, st1, r1) = ipc_handled(s, st, cmds[0]);
            let rest = ipc_all(s1, st1, cmds.skip(1), n - 1);
            ipc_all(s, st, cmds, n) == (rest.0, rest.1, seq![r1] + rest.2)
        }),
    decreases n,
{
    let (s1, st1, r1) = ipc_handled(s, st, cmds[0]);
    if n == 1 {
        assert(ipc_all(s, st, cmds, 0) == (s, st, Seq::<IpcOutcome>::empty()));
        assert(Seq::<IpcOutcome>::empty().push(r1) =~= seq![r1] + Seq::<IpcOutcome>::empty());
    } else {
        law_commands_run_in_order(s, st, cmds, n - 1);
        let before = ipc_all(s1, st1, cmds.skip(1), n - 2);
        let (s2, st2, r2) = ipc_handled(before.0, before.1, cmds[n - 1]);
        assert(cmds.skip(1)[n - 2] == cmds[n - 1]);
        assert((seq![r1] + before.2).push(r2) =~= seq![r1] + before.2.push(r2));
    }
}

} // verus!
