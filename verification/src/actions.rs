//! Window actions that were queued since the last frame, by the shell's widgets and
//! shortcuts and by clients, turned into steps for the window manager.

use vstd::prelude::*;

use crate::drag::resize_drag;
use crate::resize::ActiveDrag;
use crate::shell::{DockAction, Shell, ShellView};
use crate::state::{Backing, SpikeState, SpikeView, ToplevelInfo};
use crate::surface::{index_of, position, SurfaceId};
use crate::windows::{
    find_window, id_for_surface, id_of, is_maximized_on, maximized_on, same_ids, surface_for_id, surface_of, window_of,
    WindowState,
};

verus! {

/// One step for the window manager.
#[derive(Clone, Copy, Debug, PartialEq, Eq, Structural)]
pub enum WmStep {
    /// Ask the client of a surface to close its window.
    SendClose(SurfaceId),
    /// Play the closing animation of a window.
    BeginClose(i32),
    Minimize(i32),
    /// Tell the X11 client of a surface, if it is one, that it is hidden.
    HideX11(SurfaceId),
    Maximize(i32),
    Unmaximize(i32),
    /// Tell the client of a window its size and whether it is maximized, and place its
    /// popups again.
    Reconfigure(i32),
    Restore(i32),
    /// Raise a window and focus it.
    Activate(i32),
    AltTabStart,
    AltTabNext(u32),
    AltTabCommit,
    /// Give the keyboard to the focused window.
    SyncFocus,
}

/// Dock menu: show the windows of an application.
pub const DOCK_SHOW: i32 = 2;

/// Dock menu: quit an application.
pub const DOCK_QUIT: i32 = 5;

/// The steps that close a window, if there is one with the id.
pub open spec fn close_window(windows: Seq<WindowState>, id: i32) -> Seq<WmStep> {
    match surface_of(windows, id) {
        Some(surface) => seq![WmStep::SendClose(surface), WmStep::BeginClose(id)],
        None => Seq::empty(),
    }
}

/// The steps for the first `n` windows to close.
pub open spec fn close_steps(windows: Seq<WindowState>, ids: Seq<i32>, n: int) -> Seq<WmStep>
    decreases n,
{
    if n <= 0 {
        Seq::empty()
    } else {
        close_steps(windows, ids, n - 1) + close_window(windows, ids[n - 1]) + seq![WmStep::SyncFocus]
    }
}

/// The steps that minimize a window.
pub open spec fn minimize_window(windows: Seq<WindowState>, id: i32) -> Seq<WmStep> {
    match surface_of(windows, id) {
        Some(surface) => seq![WmStep::Minimize(id), WmStep::HideX11(surface), WmStep::SyncFocus],
        None => seq![WmStep::Minimize(id), WmStep::SyncFocus],
    }
}

/// The steps for the first `n` windows to minimize.
pub open spec fn minimize_steps(windows: Seq<WindowState>, ids: Seq<i32>, n: int) -> Seq<WmStep>
    decreases n,
{
    if n <= 0 {
        Seq::empty()
    } else {
        minimize_steps(windows, ids, n - 1) + minimize_window(windows, ids[n - 1])
    }
}

/// The windows after the first `n` of a list were maximized or restored in turn.
pub open spec fn toggled(windows: Seq<WindowState>, ids: Seq<i32>, n: int) -> Seq<WindowState>
    decreases n,
{
    if n <= 0 {
        windows
    } else {
        let before = toggled(windows, ids, n - 1);
        match window_of(before, ids[n - 1]) {
            Some(i) => before.update(i, WindowState { maximized: !before[i].maximized, ..before[i] }),
            None => before,
        }
    }
}

/// The steps for the first `n` windows to maximize or restore.
pub open spec fn toggle_steps(windows: Seq<WindowState>, ids: Seq<i32>, n: int) -> Seq<WmStep>
    decreases n,
{
    if n <= 0 {
        Seq::empty()
    } else {
        let id = ids[n - 1];
        let before = toggled(windows, ids, n - 1);
        toggle_steps(windows, ids, n - 1) + match window_of(before, id) {
            Some(i) => if before[i].maximized {
                seq![WmStep::Unmaximize(id), WmStep::Reconfigure(id)]
            } else {
                seq![WmStep::Maximize(id), WmStep::Reconfigure(id)]
            },
            None => Seq::empty(),
        }
    }
}

/// The steps for the first `n` windows to activate.
pub open spec fn activate_steps(ids: Seq<i32>, n: int) -> Seq<WmStep>
    decreases n,
{
    if n <= 0 {
        Seq::empty()
    } else {
        activate_steps(ids, n - 1) + seq![WmStep::Activate(ids[n - 1]), WmStep::SyncFocus]
    }
}

/// The closing steps for the first `n` windows of an application.
pub open spec fn quit_steps(windows: Seq<WindowState>, ids: Seq<i32>, n: int) -> Seq<WmStep>
    decreases n,
{
    if n <= 0 {
        Seq::empty()
    } else {
        quit_steps(windows, ids, n - 1) + close_window(windows, ids[n - 1])
    }
}

/// The steps for a choice from the dock menu: show the most recent window of the
/// application, or close all of them. `ids` are the windows of the application, the most
/// recent one last.
pub open spec fn dock_step(windows: Seq<WindowState>, a: &DockAction, ids: Seq<i32>) -> Seq<WmStep> {
    if a.action == DOCK_SHOW {
        if ids.len() > 0 {
            seq![WmStep::Activate(ids.last()), WmStep::SyncFocus]
        } else {
            Seq::empty()
        }
    } else if a.action == DOCK_QUIT {
        quit_steps(windows, ids, ids.len() as int).push(WmStep::SyncFocus)
    } else {
        Seq::empty()
    }
}

/// The steps for the first `n` choices from the dock menu.
pub open spec fn dock_steps(
    windows: Seq<WindowState>,
    actions: Seq<DockAction>,
    app_windows: Seq<Vec<i32>>,
    n: int,
) -> Seq<WmStep>
    decreases n,
{
    if n <= 0 {
        Seq::empty()
    } else {
        dock_steps(windows, actions, app_windows, n - 1) + dock_step(
            windows,
            &actions[n - 1],
            app_windows[n - 1]@,
        )
    }
}

/// The steps of the window switcher. `active` tells whether it is shown already.
pub open spec fn switcher_steps(steps: u32, commit: bool, active: bool) -> Seq<WmStep> {
    let cycle = if steps == 0 {
        Seq::empty()
    } else if active {
        seq![WmStep::AltTabNext(steps)]
    } else {
        seq![WmStep::AltTabStart]
    };
    if commit {
        cycle + seq![WmStep::AltTabCommit, WmStep::SyncFocus]
    } else {
        cycle
    }
}

fn push_close(windows: &Vec<WindowState>, id: i32, out: &mut Vec<WmStep>)
    ensures
        final(out)@ == old(out)@ + close_window(windows@, id),
{
    let ghost before = out@;
    if let Some(surface) = surface_for_id(windows, id) {
        out.push(WmStep::SendClose(surface));
        out.push(WmStep::BeginClose(id));
    }
    assert(out@ =~= before + close_window(windows@, id));
}

fn push_closes(windows: &Vec<WindowState>, ids: &Vec<i32>, out: &mut Vec<WmStep>)
    ensures
        final(out)@ == old(out)@ + close_steps(windows@, ids@, ids@.len() as int),
{
    let mut i: usize = 0;
    assert(out@ =~= out@ + close_steps(windows@, ids@, 0));
    while i < ids.len()
        invariant
            0 <= i <= ids@.len(),
            out@ == old(out)@ + close_steps(windows@, ids@, i as int),
        decreases ids@.len() - i,
    {
        push_close(windows, ids[i], out);
        out.push(WmStep::SyncFocus);
        i += 1;
        assert(out@ =~= old(out)@ + close_steps(windows@, ids@, i as int));
    }
}

fn push_minimizes(windows: &Vec<WindowState>, ids: &Vec<i32>, out: &mut Vec<WmStep>)
    ensures
        final(out)@ == old(out)@ + minimize_steps(windows@, ids@, ids@.len() as int),
{
    let mut i: usize = 0;
    assert(out@ =~= out@ + minimize_steps(windows@, ids@, 0));
    while i < ids.len()
        invariant
            0 <= i <= ids@.len(),
            out@ == old(out)@ + minimize_steps(windows@, ids@, i as int),
        decreases ids@.len() - i,
    {
        let id: i32 = ids[i];
        out.push(WmStep::Minimize(id));
        if let Some(surface) = surface_for_id(windows, id) {
            out.push(WmStep::HideX11(surface));
        }
        out.push(WmStep::SyncFocus);
        i += 1;
        assert(out@ =~= old(out)@ + minimize_steps(windows@, ids@, i as int));
    }
}

fn push_toggles(windows: &mut Vec<WindowState>, ids: &Vec<i32>, out: &mut Vec<WmStep>)
    ensures
        final(windows)@ == toggled(old(windows)@, ids@, ids@.len() as int),
        same_ids(old(windows)@, final(windows)@),
        final(out)@ == old(out)@ + toggle_steps(old(windows)@, ids@, ids@.len() as int),
{
    let mut i: usize = 0;
    assert(out@ =~= out@ + toggle_steps(windows@, ids@, 0));
    while i < ids.len()
        invariant
            0 <= i <= ids@.len(),
            windows@ == toggled(old(windows)@, ids@, i as int),
            same_ids(old(windows)@, windows@),
            out@ == old(out)@ + toggle_steps(old(windows)@, ids@, i as int),
        decreases ids@.len() - i,
    {
        let id: i32 = ids[i];
        if let Some(k) = find_window(windows, id) {
            let was = windows[k].maximized;
            if was {
                out.push(WmStep::Unmaximize(id));
            } else {
                out.push(WmStep::Maximize(id));
            }
            windows[k].maximized = !was;
            out.push(WmStep::Reconfigure(id));
        }
        i += 1;
        assert(out@ =~= old(out)@ + toggle_steps(old(windows)@, ids@, i as int));
        assert(windows@ =~= toggled(old(windows)@, ids@, i as int));
    }
}

fn push_activates(ids: &Vec<i32>, out: &mut Vec<WmStep>)
    ensures
        final(out)@ == old(out)@ + activate_steps(ids@, ids@.len() as int),
{
    let mut i: usize = 0;
    assert(out@ =~= out@ + activate_steps(ids@, 0));
    while i < ids.len()
        invariant
            0 <= i <= ids@.len(),
            out@ == old(out)@ + activate_steps(ids@, i as int),
        decreases ids@.len() - i,
    {
        out.push(WmStep::Activate(ids[i]));
        out.push(WmStep::SyncFocus);
        i += 1;
        assert(out@ =~= old(out)@ + activate_steps(ids@, i as int));
    }
}

fn push_dock_step(windows: &Vec<WindowState>, a: &DockAction, ids: &Vec<i32>, out: &mut Vec<WmStep>)
    ensures
        final(out)@ == old(out)@ + dock_step(windows@, a, ids@),
{
    let ghost before = out@;
    let n: usize = ids.len();
    if a.action == DOCK_SHOW {
        if n > 0 {
            out.push(WmStep::Activate(ids[n - 1]));
            out.push(WmStep::SyncFocus);
        }
        assert(out@ =~= before + dock_step(windows@, a, ids@));
    } else if a.action == DOCK_QUIT {
        let mut i: usize = 0;
        assert(out@ =~= before + quit_steps(windows@, ids@, 0));
        while i < n
            invariant
                0 <= i <= n,
                n == ids@.len(),
                out@ == before + quit_steps(windows@, ids@, i as int),
            decreases n - i,
        {
            push_close(windows, ids[i], out);
            i += 1;
            assert(out@ =~= before + quit_steps(windows@, ids@, i as int));
        }
        out.push(WmStep::SyncFocus);
        assert(out@ =~= before + dock_step(windows@, a, ids@));
    } else {
        assert(out@ =~= before + dock_step(windows@, a, ids@));
    }
}

fn push_dock_steps(
    windows: &Vec<WindowState>,
    actions: &Vec<DockAction>,
    app_windows: &Vec<Vec<i32>>,
    out: &mut Vec<WmStep>,
)
    requires
        app_windows@.len() == actions@.len(),
    ensures
        final(out)@ == old(out)@ + dock_steps(windows@, actions@, app_windows@, actions@.len() as int),
{
    let mut i: usize = 0;
    assert(out@ =~= out@ + dock_steps(windows@, actions@, app_windows@, 0));
    while i < actions.len()
        invariant
            0 <= i <= actions@.len(),
            app_windows@.len() == actions@.len(),
            out@ == old(out)@ + dock_steps(windows@, actions@, app_windows@, i as int),
        decreases actions@.len() - i,
    {
        push_dock_step(windows, &actions[i], &app_windows[i], out);
        i += 1;
        assert(out@ =~= old(out)@ + dock_steps(windows@, actions@, app_windows@, i as int));
    }
}

fn push_switcher(steps: u32, commit: bool, active: bool, out: &mut Vec<WmStep>)
    ensures
        final(out)@ == old(out)@ + switcher_steps(steps, commit, active),
{
    let ghost before = out@;
    if steps > 0 {
        if active {
            out.push(WmStep::AltTabNext(steps));
        } else {
            out.push(WmStep::AltTabStart);
        }
    }
    if commit {
        out.push(WmStep::AltTabCommit);
        out.push(WmStep::SyncFocus);
    }
    assert(out@ =~= before + switcher_steps(steps, commit, active));
}

/// The steps for everything that the shell has queued.
pub open spec fn shell_steps(
    s: ShellView,
    app_windows: Seq<Vec<i32>>,
    switcher_active: bool,
) -> Seq<WmStep> {
    let after = toggled(s.windows, s.pending_maximize, s.pending_maximize.len() as int);
    close_steps(s.windows, s.pending_close, s.pending_close.len() as int) + minimize_steps(
        s.windows,
        s.pending_minimize,
        s.pending_minimize.len() as int,
    ) + toggle_steps(s.windows, s.pending_maximize, s.pending_maximize.len() as int) + activate_steps(
        s.pending_activate,
        s.pending_activate.len() as int,
    ) + dock_steps(after, s.pending_dock_action, app_windows, s.pending_dock_action.len() as int) + switcher_steps(
        s.pending_alt_tab_step,
        s.pending_alt_tab_commit,
        switcher_active,
    )
}

/// The shell once its queues are worked off.
pub open spec fn shell_drained(s: ShellView) -> ShellView {
    ShellView {
        windows: toggled(s.windows, s.pending_maximize, s.pending_maximize.len() as int),
        pending_close: Seq::empty(),
        pending_minimize: Seq::empty(),
        pending_maximize: Seq::empty(),
        pending_activate: Seq::empty(),
        pending_dock_action: Seq::empty(),
        pending_alt_tab_step: 0,
        pending_alt_tab_commit: false,
        redraw: s.redraw || s.pending_alt_tab_step > 0,
        ..s
    }
}

impl Shell {
    /// Works off the shell's queues, in order: close, minimize, maximize, activate,
    /// dock menu, window switcher. `app_windows` are the windows of the application of each
    /// queued dock action, as they are now, the most recent one last; `switcher_active`
    /// tells whether the switcher is shown.
    pub fn process_wm_actions(&mut self, app_windows: &Vec<Vec<i32>>, switcher_active: bool) -> (steps: Vec<WmStep>)
        requires
            old(self).wf(),
            app_windows@.len() == old(self)@.pending_dock_action.len(),
        ensures
            final(self).wf(),
            steps@ == shell_steps(old(self)@, app_windows@, switcher_active),
            final(self)@ == shell_drained(old(self)@),
    {
        let mut out: Vec<WmStep> = Vec::new();
        assert(out@ =~= Seq::<WmStep>::empty());
        push_closes(&self.windows, &self.pending_close, &mut out);
        push_minimizes(&self.windows, &self.pending_minimize, &mut out);
        push_toggles(&mut self.windows, &self.pending_maximize, &mut out);
        push_activates(&self.pending_activate, &mut out);
        push_dock_steps(&self.windows, &self.pending_dock_action, app_windows, &mut out);
        push_switcher(self.pending_alt_tab_step, self.pending_alt_tab_commit, switcher_active, &mut out);
        if self.pending_alt_tab_step > 0 {
            self.redraw = true;
        }
        self.pending_close = Vec::new();
        self.pending_minimize = Vec::new();
        self.pending_maximize = Vec::new();
        self.pending_activate = Vec::new();
        self.pending_dock_action = Vec::new();
        self.pending_alt_tab_step = 0;
        self.pending_alt_tab_commit = false;
        assert(out@ =~= shell_steps(old(self)@, app_windows@, switcher_active));
        out
    }
}

/// The drag after the first `n` move requests: the first one for a toplevel begins a
/// drag, unless one is under way.
pub open spec fn moves_begun(
    drag: Option<ActiveDrag>,
    s: ShellView,
    st: SpikeView,
    n: int,
) -> Option<ActiveDrag>
    decreases n,
{
    if n <= 0 {
        drag
    } else {
        let before = moves_begun(drag, s, st, n - 1);
        let surface = st.pending_xdg_move[n - 1];
        match index_of(st.toplevels, surface) {
            Some(idx) => if before is None {
                Some(
                    ActiveDrag::Move {
                        toplevel_idx: idx as usize,
                        pending_unmaximize: maximized_on(s.windows, surface),
                    },
                )
            } else {
                before
            },
            None => before,
        }
    }
}

/// The drag after the first `n` resize requests.
pub open spec fn resizes_begun(
    drag: Option<ActiveDrag>,
    s: ShellView,
    st: SpikeView,
    n: int,
) -> Option<ActiveDrag>
    decreases n,
{
    if n <= 0 {
        drag
    } else {
        let before = resizes_begun(drag, s, st, n - 1);
        let (surface, edge) = st.pending_xdg_resize[n - 1];
        match index_of(st.toplevels, surface) {
            Some(idx) => if before is None {
                Some(resize_drag(s, st, idx, edge))
            } else {
                before
            },
            None => before,
        }
    }
}

/// The windows after the first `n` requests to be maximized, or not.
pub open spec fn maximize_set(windows: Seq<WindowState>, wants: Seq<(SurfaceId, bool)>, n: int) -> Seq<WindowState>
    decreases n,
{
    if n <= 0 {
        windows
    } else {
        let before = maximize_set(windows, wants, n - 1);
        let (surface, want) = wants[n - 1];
        match index_of(before, surface) {
            Some(i) => before.update(i, WindowState { maximized: want, ..before[i] }),
            None => before,
        }
    }
}

/// The steps for the first `n` requests to be maximized, or not.
pub open spec fn maximize_steps(windows: Seq<WindowState>, wants: Seq<(SurfaceId, bool)>, n: int) -> Seq<WmStep>
    decreases n,
{
    if n <= 0 {
        Seq::empty()
    } else {
        let before = maximize_set(windows, wants, n - 1);
        let (surface, want) = wants[n - 1];
        maximize_steps(windows, wants, n - 1) + match index_of(before, surface) {
            Some(i) => {
                let id = before[i].id;
                if want && !before[i].maximized {
                    seq![WmStep::Maximize(id), WmStep::Reconfigure(id)]
                } else if !want && before[i].maximized {
                    seq![WmStep::Unmaximize(id), WmStep::Reconfigure(id)]
                } else {
                    seq![WmStep::Reconfigure(id)]
                }
            },
            None => Seq::empty(),
        }
    }
}

/// The steps for the first `n` surfaces that minimize or restore themselves.
pub open spec fn self_steps(windows: Seq<WindowState>, surfaces: Seq<SurfaceId>, restore: bool, n: int) -> Seq<WmStep>
    decreases n,
{
    if n <= 0 {
        Seq::empty()
    } else {
        self_steps(windows, surfaces, restore, n - 1) + match id_of(windows, surfaces[n - 1]) {
            Some(id) => seq![
                if restore {
                    WmStep::Restore(id)
                } else {
                    WmStep::Minimize(id)
                },
                WmStep::SyncFocus,
            ],
            None => Seq::empty(),
        }
    }
}

fn push_maximizes(windows: &mut Vec<WindowState>, wants: &Vec<(SurfaceId, bool)>, out: &mut Vec<WmStep>)
    ensures
        final(windows)@ == maximize_set(old(windows)@, wants@, wants@.len() as int),
        same_ids(old(windows)@, final(windows)@),
        final(out)@ == old(out)@ + maximize_steps(old(windows)@, wants@, wants@.len() as int),
{
    let mut i: usize = 0;
    assert(out@ =~= out@ + maximize_steps(windows@, wants@, 0));
    while i < wants.len()
        invariant
            0 <= i <= wants@.len(),
            windows@ == maximize_set(old(windows)@, wants@, i as int),
            same_ids(old(windows)@, windows@),
            out@ == old(out)@ + maximize_steps(old(windows)@, wants@, i as int),
        decreases wants@.len() - i,
    {
        let (surface, want) = wants[i];
        if let Some(k) = position(windows, surface) {
            let id: i32 = windows[k].id;
            let was = windows[k].maximized;
            if want && !was {
                out.push(WmStep::Maximize(id));
            } else if !want && was {
                out.push(WmStep::Unmaximize(id));
            }
            windows[k].maximized = want;
            out.push(WmStep::Reconfigure(id));
        }
        i += 1;
        assert(out@ =~= old(out)@ + maximize_steps(old(windows)@, wants@, i as int));
        assert(windows@ =~= maximize_set(old(windows)@, wants@, i as int));
    }
}

fn push_self_steps(windows: &Vec<WindowState>, surfaces: &Vec<SurfaceId>, restore: bool, out: &mut Vec<WmStep>)
    ensures
        final(out)@ == old(out)@ + self_steps(windows@, surfaces@, restore, surfaces@.len() as int),
{
    let mut i: usize = 0;
    assert(out@ =~= out@ + self_steps(windows@, surfaces@, restore, 0));
    while i < surfaces.len()
        invariant
            0 <= i <= surfaces@.len(),
            out@ == old(out)@ + self_steps(windows@, surfaces@, restore, i as int),
        decreases surfaces@.len() - i,
    {
        if let Some(id) = id_for_surface(windows, surfaces[i]) {
            if restore {
                out.push(WmStep::Restore(id));
            } else {
                out.push(WmStep::Minimize(id));
            }
            out.push(WmStep::SyncFocus);
        }
        i += 1;
        assert(out@ =~= old(out)@ + self_steps(windows@, surfaces@, restore, i as int));
    }
}

/// The drag that client requests begin.
pub open spec fn requested_drag(s: ShellView, st: SpikeView) -> Option<ActiveDrag> {
    resizes_begun(
        moves_begun(s.active_drag, s, st, st.pending_xdg_move.len() as int),
        s,
        st,
        st.pending_xdg_resize.len() as int,
    )
}

/// The requests to be maximized, those to be fullscreen after them: both are treated
/// alike.
pub open spec fn maximize_wants(st: SpikeView) -> Seq<(SurfaceId, bool)> {
    st.pending_xdg_maximize + st.pending_xdg_fullscreen
}

/// The protocol state once the clients' requests are worked off.
pub open spec fn requests_drained(st: SpikeView) -> SpikeView {
    SpikeView {
        pending_xdg_move: Seq::empty(),
        pending_xdg_resize: Seq::empty(),
        pending_xdg_maximize: Seq::empty(),
        pending_xdg_fullscreen: Seq::empty(),
        pending_xdg_minimize: Seq::empty(),
        pending_xdg_restore: Seq::empty(),
        ..st
    }
}

/// The steps for the clients' requests.
pub open spec fn request_steps(s: ShellView, st: SpikeView) -> Seq<WmStep> {
    let wants = maximize_wants(st);
    let after = maximize_set(s.windows, wants, wants.len() as int);
    maximize_steps(s.windows, wants, wants.len() as int) + self_steps(
        after,
        st.pending_xdg_minimize,
        false,
        st.pending_xdg_minimize.len() as int,
    ) + self_steps(after, st.pending_xdg_restore, true, st.pending_xdg_restore.len() as int)
}

impl Shell {
    fn begin_requested_move(&mut self, state: &SpikeState)
        requires
            old(self).wf(),
        ensures
            final(self).wf(),
            final(self)@ == (ShellView {
                active_drag: moves_begun(
                    old(self)@.active_drag,
                    old(self)@,
                    state@,
                    state@.pending_xdg_move.len() as int,
                ),
                ..old(self)@
            }),
    {
        let ghost s = self@;
        let mut drag = self.active_drag;
        let mut i: usize = 0;
        while i < state.pending_xdg_move.len()
            invariant
                0 <= i <= state.pending_xdg_move@.len(),
                self@ == s,
                self.wf(),
                drag == moves_begun(s.active_drag, s, state@, i as int),
            decreases state.pending_xdg_move@.len() - i,
        {
            let surface: SurfaceId = state.pending_xdg_move[i];
            if drag.is_none() {
                if let Some(idx) = position(&state.toplevels, surface) {
                    let pending_unmaximize = is_maximized_on(&self.windows, surface);
                    drag = Some(ActiveDrag::Move { toplevel_idx: idx, pending_unmaximize });
                }
            }
            i += 1;
        }
        self.active_drag = drag;
    }

    fn begin_requested_resize(&mut self, state: &SpikeState)
        requires
            old(self).wf(),
        ensures
            final(self).wf(),
            final(self)@ == (ShellView {
                active_drag: resizes_begun(
                    old(self)@.active_drag,
                    old(self)@,
                    state@,
                    state@.pending_xdg_resize.len() as int,
                ),
                ..old(self)@
            }),
    {
        let ghost s = self@;
        let mut drag = self.active_drag;
        let mut i: usize = 0;
        while i < state.pending_xdg_resize.len()
            invariant
                0 <= i <= state.pending_xdg_resize@.len(),
                self@ == s,
                self.wf(),
                drag == resizes_begun(s.active_drag, s, state@, i as int),
            decreases state.pending_xdg_resize@.len() - i,
        {
            let (surface, edge) = state.pending_xdg_resize[i];
            if drag.is_none() {
                if let Some(idx) = position(&state.toplevels, surface) {
                    drag = Some(self.resize_from(state, idx, edge));
                }
            }
            i += 1;
        }
        self.active_drag = drag;
    }

    /// Works off what clients asked for: moves and resizes begin a drag unless one is
    /// under way; the rest becomes steps for the window manager.
    pub fn process_xdg_requests(&mut self, state: &mut SpikeState) -> (steps: Vec<WmStep>)
        requires
            old(self).wf(),
        ensures
            final(self).wf(),
            steps@ == request_steps(old(self)@, old(state)@),
            final(self)@ == (ShellView {
                windows: maximize_set(
                    old(self)@.windows,
                    maximize_wants(old(state)@),
                    maximize_wants(old(state)@).len() as int,
                ),
                active_drag: requested_drag(old(self)@, old(state)@),
                ..old(self)@
            }),
            final(state)@ == requests_drained(old(state)@),
    {
        let ghost s0 = self@;
        let ghost st0 = state@;
        self.begin_requested_move(state);
        let ghost s1 = self@;
        self.begin_requested_resize(state);
        proof {
            lemma_same_resizes(s0, s1, st0, s1.active_drag, st0.pending_xdg_resize.len() as int);
        }
        let mut wants: Vec<(SurfaceId, bool)> = Vec::new();
        let mut i: usize = 0;
        while i < state.pending_xdg_maximize.len()
            invariant
                0 <= i <= state.pending_xdg_maximize@.len(),
                wants@ == state.pending_xdg_maximize@.take(i as int),
            decreases state.pending_xdg_maximize@.len() - i,
        {
            wants.push(state.pending_xdg_maximize[i]);
            i += 1;
            assert(wants@ =~= state.pending_xdg_maximize@.take(i as int));
        }
        let mut k: usize = 0;
        assert(wants@ =~= state.pending_xdg_maximize@ + state.pending_xdg_fullscreen@.take(0));
        while k < state.pending_xdg_fullscreen.len()
            invariant
                0 <= k <= state.pending_xdg_fullscreen@.len(),
                wants@ == state.pending_xdg_maximize@ + state.pending_xdg_fullscreen@.take(k as int),
            decreases state.pending_xdg_fullscreen@.len() - k,
        {
            wants.push(state.pending_xdg_fullscreen[k]);
            k += 1;
            assert(wants@ =~= state.pending_xdg_maximize@ + state.pending_xdg_fullscreen@.take(k as int));
        }
        assert(wants@ =~= maximize_wants(st0));
        let mut out: Vec<WmStep> = Vec::new();
        push_maximizes(&mut self.windows, &wants, &mut out);
        push_self_steps(&self.windows, &state.pending_xdg_minimize, false, &mut out);
        push_self_steps(&self.windows, &state.pending_xdg_restore, true, &mut out);
        state.clear_requests();
        assert(out@ =~= request_steps(s0, st0));
        out
    }
}

proof fn lemma_same_resizes(a: ShellView, b: ShellView, st: SpikeView, drag: Option<ActiveDrag>, n: int)
    requires
        a.windows == b.windows,
    ensures
        resizes_begun(drag, a, st, n) == resizes_begun(drag, b, st, n),
    decreases n,
{
    if n > 0 {
        lemma_same_resizes(a, b, st, drag, n - 1);
    }
}

impl SpikeState {
    fn clear_requests(&mut self)
        ensures
            final(self)@ == requests_drained(old(self)@),
    {
        self.pending_xdg_move = Vec::new();
        self.pending_xdg_resize = Vec::new();
        self.pending_xdg_maximize = Vec::new();
        self.pending_xdg_fullscreen = Vec::new();
        self.pending_xdg_minimize = Vec::new();
        self.pending_xdg_restore = Vec::new();
    }
}

/// A request never takes over a drag that is under way.
pub proof fn law_drag_is_kept(s: ShellView, st: SpikeView)
    requires
        s.active_drag is Some,
    ensures
        requested_drag(s, st) == s.active_drag,
{
    lemma_moves_keep(s, st, s.active_drag, st.pending_xdg_move.len() as int);
    lemma_resizes_keep(s, st, s.active_drag, st.pending_xdg_resize.len() as int);
}

proof fn lemma_moves_keep(s: ShellView, st: SpikeView, drag: Option<ActiveDrag>, n: int)
    requires
        drag is Some,
    ensures
        moves_begun(drag, s, st, n) == drag,
    decreases n,
{
    if n > 0 {
        lemma_moves_keep(s, st, drag, n - 1);
    }
}

proof fn lemma_resizes_keep(s: ShellView, st: SpikeView, drag: Option<ActiveDrag>, n: int)
    requires
        drag is Some,
    ensures
        resizes_begun(drag, s, st, n) == drag,
    decreases n,
{
    if n > 0 {
        lemma_resizes_keep(s, st, drag, n - 1);
    }
}

/// How the client of a window is reached.
#[derive(Clone, Copy, Debug, PartialEq, Eq, Structural)]
pub enum ClientRoute {
    /// A native client, by the role of its surface.
    Xdg(SurfaceId),
    /// An X11 client, by its window.
    X11(u32),
}

/// How the client of a surface is reached, if a toplevel is there.
pub open spec fn route_of(toplevels: Seq<ToplevelInfo>, surface: SurfaceId) -> Option<ClientRoute> {
    match index_of(toplevels, surface) {
        Some(i) => Some(
            match toplevels[i].backing {
                Backing::Xdg { .. } => ClientRoute::Xdg(surface),
                Backing::X11 { window, .. } => ClientRoute::X11(window),
            },
        ),
        None => None,
    }
}

/// How the client of a surface is reached: where its close requests, sizes and state
/// changes go.
pub fn client_route(state: &SpikeState, surface: SurfaceId) -> (r: Option<ClientRoute>)
    ensures
        r == route_of(state@.toplevels, surface),
{
    match position(&state.toplevels, surface) {
        Some(i) => match state.toplevels[i].backing {
            Backing::Xdg { .. } => Some(ClientRoute::Xdg(surface)),
            Backing::X11 { window, .. } => Some(ClientRoute::X11(window)),
        },
        None => None,
    }
}

/// Every window that is to close has its client asked for it and plays its animation; a
/// window that is gone is passed over. The focus is brought up to date after each.
pub proof fn law_close_asks_client(windows: Seq<WindowState>, ids: Seq<i32>, id: i32)
    ensures
        close_steps(windows, Seq::empty(), 0).len() == 0,
        ({
            let n = ids.len() as int;
            let steps = close_steps(windows, ids.push(id), n + 1);
            let before = close_steps(windows, ids, n);
            match window_of(windows, id) {
                Some(i) => steps == before + seq![
                    WmStep::SendClose(windows[i].surface),
                    WmStep::BeginClose(id),
                    WmStep::SyncFocus,
                ],
                None => steps == before + seq![WmStep::SyncFocus],
            }
        }),
{
    let n = ids.len() as int;
    lemma_close_prefix(windows, ids, id, n);
    assert(ids.push(id)[n] == id);
    let before = close_steps(windows, ids, n);
    match window_of(windows, id) {
        Some(i) => assert(close_steps(windows, ids.push(id), n + 1) =~= before + seq![
            WmStep::SendClose(windows[i].surface),
            WmStep::BeginClose(id),
            WmStep::SyncFocus,
        ]),
        None => assert(close_steps(windows, ids.push(id), n + 1) =~= before + seq![WmStep::SyncFocus]),
    }
}

proof fn lemma_close_prefix(windows: Seq<WindowState>, ids: Seq<i32>, id: i32, n: int)
    requires
        0 <= n <= ids.len(),
    ensures
        close_steps(windows, ids.push(id), n) == close_steps(windows, ids, n),
    decreases n,
{
    if n > 0 {
        lemma_close_prefix(windows, ids, id, n - 1);
        assert(ids.push(id)[n - 1] == ids[n - 1]);
    }
}

/// Every window that is to be minimized is, its X11 client is told, and the focus is brought
/// up to date after each.
pub proof fn law_minimize_tells_client(windows: Seq<WindowState>, ids: Seq<i32>, id: i32)
    ensures
        minimize_steps(windows, Seq::empty(), 0).len() == 0,
        ({
            let n = ids.len() as int;
            let steps = minimize_steps(windows, ids.push(id), n + 1);
            let before = minimize_steps(windows, ids, n);
            match window_of(windows, id) {
                Some(i) => steps == before + seq![
                    WmStep::Minimize(id),
                    WmStep::HideX11(windows[i].surface),
                    WmStep::SyncFocus,
                ],
                None => steps == before + seq![WmStep::Minimize(id), WmStep::SyncFocus],
            }
        }),
{
    let n = ids.len() as int;
    lemma_minimize_prefix(windows, ids, id, n);
    assert(ids.push(id)[n] == id);
}

proof fn lemma_minimize_prefix(windows: Seq<WindowState>, ids: Seq<i32>, id: i32, n: int)
    requires
        0 <= n <= ids.len(),
    ensures
        minimize_steps(windows, ids.push(id), n) == minimize_steps(windows, ids, n),
    decreases n,
{
    if n > 0 {
        lemma_minimize_prefix(windows, ids, id, n - 1);
        assert(ids.push(id)[n - 1] == ids[n - 1]);
    }
}

/// Activated windows are raised in turn, each with the focus.
pub proof fn law_activate_focuses(ids: Seq<i32>, id: i32)
    ensures
        activate_steps(Seq::empty(), 0).len() == 0,
        activate_steps(ids.push(id), ids.len() as int + 1) == activate_steps(ids, ids.len() as int) + seq![
            WmStep::Activate(id),
            WmStep::SyncFocus,
        ],
{
    lemma_activate_prefix(ids, id, ids.len() as int);
    assert(ids.push(id)[ids.len() as int] == id);
}

proof fn lemma_activate_prefix(ids: Seq<i32>, id: i32, n: int)
    requires
        0 <= n <= ids.len(),
    ensures
        activate_steps(ids.push(id), n) == activate_steps(ids, n),
    decreases n,
{
    if n > 0 {
        lemma_activate_prefix(ids, id, n - 1);
        assert(ids.push(id)[n - 1] == ids[n - 1]);
    }
}

/// Maximizing goes back and forth: a window that is not maximized becomes so, one that is
/// comes back, and asking twice changes nothing. Its client is told each time.
pub proof fn law_maximize_toggles(windows: Seq<WindowState>, id: i32, i: int)
    requires
        window_of(windows, id) == Some(i),
    ensures
        0 <= i < windows.len(),
        ({
            let once = toggled(windows, seq![id], 1);
            let step = if windows[i].maximized { WmStep::Unmaximize(id) } else { WmStep::Maximize(id) };
            &&& once == windows.update(i, WindowState { maximized: !windows[i].maximized, ..windows[i] })
            &&& toggled(windows, seq![id, id], 2) == windows
            &&& toggle_steps(windows, seq![id], 1) == seq![step, WmStep::Reconfigure(id)]
        }),
{
    crate::windows::lemma_window_from(windows, id, 0);
    reveal_with_fuel(toggled, 3);
    reveal_with_fuel(toggle_steps, 2);
    let once = toggled(windows, seq![id], 1);
    assert(seq![id][0] == id);
    assert(seq![id, id][0] == id && seq![id, id][1] == id);
    assert(once == windows.update(i, WindowState { maximized: !windows[i].maximized, ..windows[i] }));
    lemma_same_place(windows, once, id, 0);
    assert(toggled(windows, seq![id, id], 1) == once);
    assert(toggled(windows, seq![id, id], 2) =~= windows);
    let step = if windows[i].maximized { WmStep::Unmaximize(id) } else { WmStep::Maximize(id) };
    assert(toggle_steps(windows, seq![id], 1) =~= seq![step, WmStep::Reconfigure(id)]);
}

proof fn lemma_same_place(a: Seq<WindowState>, b: Seq<WindowState>, id: i32, from: int)
    requires
        a.len() == b.len(),
        forall|k: int| 0 <= k < a.len() ==> (#[trigger] a[k]).id == b[k].id,
        0 <= from,
    ensures
        crate::windows::window_from(a, id, from) == crate::windows::window_from(b, id, from),
    decreases a.len() - from,
{
    if from < a.len() && a[from].id != id {
        lemma_same_place(a, b, id, from + 1);
    }
}

/// Each queue of the shell becomes its own steps, in the order close, minimize, maximize,
/// activate, dock and switcher, and an empty queue none. The switcher starts with its first
/// step, goes on by as many as there were while it is shown, and ends with the focus on the
/// window chosen.
pub proof fn law_queues_become_steps(s: ShellView, app_windows: Seq<Vec<i32>>, active: bool)
    requires
        s.pending_maximize.len() == 0,
        s.pending_dock_action.len() == 0,
    ensures
        ({
            let steps = shell_steps(s, app_windows, active);
            let closing = close_steps(s.windows, s.pending_close, s.pending_close.len() as int);
            let hiding = minimize_steps(s.windows, s.pending_minimize, s.pending_minimize.len() as int);
            let raising = activate_steps(s.pending_activate, s.pending_activate.len() as int);
            let cycling = if s.pending_alt_tab_step == 0 {
                Seq::<WmStep>::empty()
            } else if active {
                seq![WmStep::AltTabNext(s.pending_alt_tab_step)]
            } else {
                seq![WmStep::AltTabStart]
            };
            let choosing = if s.pending_alt_tab_commit {
                seq![WmStep::AltTabCommit, WmStep::SyncFocus]
            } else {
                Seq::<WmStep>::empty()
            };
            steps == closing + hiding + raising + cycling + choosing
        }),
{
    let steps = shell_steps(s, app_windows, active);
    let closing = close_steps(s.windows, s.pending_close, s.pending_close.len() as int);
    let hiding = minimize_steps(s.windows, s.pending_minimize, s.pending_minimize.len() as int);
    let raising = activate_steps(s.pending_activate, s.pending_activate.len() as int);
    let cycling = if s.pending_alt_tab_step == 0 {
        Seq::<WmStep>::empty()
    } else if active {
        seq![WmStep::AltTabNext(s.pending_alt_tab_step)]
    } else {
        seq![WmStep::AltTabStart]
    };
    let choosing = if s.pending_alt_tab_commit {
        seq![WmStep::AltTabCommit, WmStep::SyncFocus]
    } else {
        Seq::<WmStep>::empty()
    };
    assert(steps =~= closing + hiding + raising + cycling + choosing);
}

/// Showing an application raises its most recent window; quitting it closes all of them.
/// Nothing is done for any other choice, nor for an application without windows.
pub proof fn law_dock_choice(windows: Seq<WindowState>, a: &DockAction, ids: Seq<i32>)
    ensures
        a.action == 2 && ids.len() > 0 ==> dock_step(windows, a, ids) == seq![
            WmStep::Activate(ids[ids.len() - 1]),
            WmStep::SyncFocus,
        ],
        a.action == 2 && ids.len() == 0 ==> dock_step(windows, a, ids).len() == 0,
        a.action != 2 && a.action != 5 ==> dock_step(windows, a, ids).len() == 0,
        a.action == 5 ==> forall|k: int|
            0 <= k < ids.len() && window_of(windows, #[trigger] ids[k]) is Some ==> dock_step(windows, a, ids).contains(
                WmStep::BeginClose(ids[k]),
            ) && dock_step(windows, a, ids).contains(
                WmStep::SendClose(windows[window_of(windows, ids[k])->0].surface),
            ),
        a.action == 5 ==> forall|p: int|
            0 <= p < dock_step(windows, a, ids).len() ==> match #[trigger] dock_step(windows, a, ids)[p] {
                WmStep::BeginClose(id) => ids.contains(id),
                WmStep::SendClose(surface) => exists|k: int|
                    0 <= k < ids.len() && surface_of(windows, #[trigger] ids[k]) == Some(surface),
                WmStep::SyncFocus => true,
                _ => false,
            },
{
    if a.action == 5 {
        let n = ids.len() as int;
        lemma_quit_steps(windows, ids, n);
        let steps = quit_steps(windows, ids, n);
        let all = dock_step(windows, a, ids);
        assert(all =~= steps + seq![WmStep::SyncFocus]);
        assert forall|k: int| 0 <= k < ids.len() && window_of(windows, #[trigger] ids[k]) is Some implies all.contains(
            WmStep::BeginClose(ids[k]),
        ) && all.contains(WmStep::SendClose(windows[window_of(windows, ids[k])->0].surface)) by {
            let p = choose|p: int| 0 <= p < steps.len() && #[trigger] steps[p] == WmStep::BeginClose(ids[k]);
            let q = choose|q: int|
                0 <= q < steps.len() && #[trigger] steps[q] == WmStep::SendClose(
                    windows[window_of(windows, ids[k])->0].surface,
                );
            assert(all[p] == steps[p]);
            assert(all[q] == steps[q]);
        }
        assert forall|p: int| 0 <= p < all.len() implies match #[trigger] all[p] {
            WmStep::BeginClose(id) => ids.contains(id),
            WmStep::SendClose(surface) => exists|k: int|
                0 <= k < ids.len() && surface_of(windows, #[trigger] ids[k]) == Some(surface),
            WmStep::SyncFocus => true,
            _ => false,
        } by {
            if p < steps.len() {
                assert(all[p] == steps[p]);
            }
        }
    }
}

proof fn lemma_quit_steps(windows: Seq<WindowState>, ids: Seq<i32>, n: int)
    requires
        0 <= n <= ids.len(),
    ensures
        ({
            let steps = quit_steps(windows, ids, n);
            &&& forall|k: int|
                0 <= k < n && window_of(windows, #[trigger] ids[k]) is Some ==> steps.contains(WmStep::BeginClose(ids[k]))
                    && steps.contains(WmStep::SendClose(windows[window_of(windows, ids[k])->0].surface))
            &&& forall|p: int|
                0 <= p < steps.len() ==> match #[trigger] steps[p] {
                    WmStep::BeginClose(id) => ids.contains(id),
                    WmStep::SendClose(surface) => exists|k: int|
                        0 <= k < ids.len() && surface_of(windows, #[trigger] ids[k]) == Some(surface),
                    _ => false,
                }
        }),
    decreases n,
{
    if n > 0 {
        lemma_quit_steps(windows, ids, n - 1);
        let before = quit_steps(windows, ids, n - 1);
        let added = close_window(windows, ids[n - 1]);
        let steps = quit_steps(windows, ids, n);
        assert(steps == before + added);
        assert forall|k: int| 0 <= k < n && window_of(windows, #[trigger] ids[k]) is Some implies steps.contains(
            WmStep::BeginClose(ids[k]),
        ) && steps.contains(WmStep::SendClose(windows[window_of(windows, ids[k])->0].surface)) by {
            let b = WmStep::BeginClose(ids[k]);
            let c = WmStep::SendClose(windows[window_of(windows, ids[k])->0].surface);
            if k < n - 1 {
                let p = choose|p: int| 0 <= p < before.len() && #[trigger] before[p] == b;
                let q = choose|q: int| 0 <= q < before.len() && #[trigger] before[q] == c;
                assert(steps[p] == b && steps[q] == c);
            } else {
                assert(steps[before.len() as int] == c);
                assert(steps[before.len() as int + 1] == b);
            }
        }
        assert forall|p: int| 0 <= p < steps.len() implies match #[trigger] steps[p] {
            WmStep::BeginClose(id) => ids.contains(id),
            WmStep::SendClose(surface) => exists|k: int|
                0 <= k < ids.len() && surface_of(windows, #[trigger] ids[k]) == Some(surface),
            _ => false,
        } by {
            if p < before.len() {
                assert(steps[p] == before[p]);
            } else {
                assert(ids.contains(ids[n - 1]));
                assert(steps[p] == added[p - before.len()]);
            }
        }
    }
}

/// Once the queues are worked off they are empty, so that nothing is done twice; of the
/// windows only those that were asked for changed, and only in being maximized.
pub proof fn law_queues_are_emptied(s: ShellView)
    ensures
        ({
            let t = shell_drained(s);
            &&& t.pending_close.len() == 0 && t.pending_minimize.len() == 0 && t.pending_maximize.len() == 0
            &&& t.pending_activate.len() == 0 && t.pending_dock_action.len() == 0
            &&& t.pending_alt_tab_step == 0 && !t.pending_alt_tab_commit
            &&& t.ui == s.ui && t.pending_keys == s.pending_keys && t.active_drag == s.active_drag
            &&& s.pending_maximize.len() == 0 ==> t.windows == s.windows
            &&& forall|app_windows: Seq<Vec<i32>>, active: bool|
                (#[trigger] shell_steps(t, app_windows, active)).len() == 0
        }),
{
}

/// A client's wish to be maximized, or not to be, is granted as it stands: its window is
/// that way then, no other window changes, and it is told its size in any case.
pub proof fn law_client_wish_is_granted(windows: Seq<WindowState>, surface: SurfaceId, want: bool, i: int)
    requires
        index_of(windows, surface) == Some(i),
    ensures
        0 <= i < windows.len(),
        ({
            let after = maximize_set(windows, seq![(surface, want)], 1);
            let steps = maximize_steps(windows, seq![(surface, want)], 1);
            let id = windows[i].id;
            &&& after == windows.update(i, WindowState { maximized: want, ..windows[i] })
            &&& windows[i].maximized == want ==> steps == seq![WmStep::Reconfigure(id)]
            &&& want && !windows[i].maximized ==> steps == seq![WmStep::Maximize(id), WmStep::Reconfigure(id)]
            &&& !want && windows[i].maximized ==> steps == seq![WmStep::Unmaximize(id), WmStep::Reconfigure(id)]
        }),
{
    crate::surface::lemma_index_of(windows, surface);
    reveal_with_fuel(maximize_set, 2);
    reveal_with_fuel(maximize_steps, 2);
    assert(seq![(surface, want)][0] == (surface, want));
    let steps = maximize_steps(windows, seq![(surface, want)], 1);
    let id = windows[i].id;
    if windows[i].maximized == want {
        assert(steps =~= seq![WmStep::Reconfigure(id)]);
    } else if want {
        assert(steps =~= seq![WmStep::Maximize(id), WmStep::Reconfigure(id)]);
    } else {
        assert(steps =~= seq![WmStep::Unmaximize(id), WmStep::Reconfigure(id)]);
    }
}

/// A client that minimizes or restores itself has that done to its own window.
pub proof fn law_client_hides_itself(windows: Seq<WindowState>, surface: SurfaceId, i: int)
    requires
        index_of(windows, surface) == Some(i),
    ensures
        self_steps(windows, seq![surface], false, 1) == seq![WmStep::Minimize(windows[i].id), WmStep::SyncFocus],
        self_steps(windows, seq![surface], true, 1) == seq![WmStep::Restore(windows[i].id), WmStep::SyncFocus],
{
    reveal_with_fuel(self_steps, 2);
    assert(seq![surface][0] == surface);
    assert(self_steps(windows, seq![surface], false, 1) =~= seq![WmStep::Minimize(windows[i].id), WmStep::SyncFocus]);
    assert(self_steps(windows, seq![surface], true, 1) =~= seq![WmStep::Restore(windows[i].id), WmStep::SyncFocus]);
}

/// A client's request begins a drag of its own toplevel, when none is under way.
pub proof fn law_request_begins_drag(s: ShellView, st: SpikeView, surface: SurfaceId, edge: crate::resize::ResizeEdge, i: int)
    requires
        s.active_drag is None,
        index_of(st.toplevels, surface) == Some(i),
        st.toplevels.len() <= usize::MAX,
    ensures
        st.pending_xdg_move == seq![surface] && st.pending_xdg_resize.len() == 0 ==> requested_drag(s, st) == Some(
            ActiveDrag::Move { toplevel_idx: i as usize, pending_unmaximize: maximized_on(s.windows, surface) },
        ),
        st.pending_xdg_move.len() == 0 && st.pending_xdg_resize == seq![(surface, edge)] ==> (requested_drag(
            s,
            st,
        ) matches Some(d) && d is Resize && d->edge == edge && d->Resize_toplevel_idx == i && d->start_geom.x
            == st.toplevels[i].x && d->start_geom.y == st.toplevels[i].y),
{
    crate::surface::lemma_index_of(st.toplevels, surface);
    reveal_with_fuel(moves_begun, 2);
    reveal_with_fuel(resizes_begun, 2);
}

/// A client is reached over the protocol that it speaks.
pub proof fn law_client_is_reached(toplevels: Seq<ToplevelInfo>, surface: SurfaceId)
    ensures
        match route_of(toplevels, surface) {
            Some(ClientRoute::Xdg(to)) => to == surface && exists|i: int|
                0 <= i < toplevels.len() && (#[trigger] toplevels[i]).surface == surface && toplevels[i].backing is Xdg,
            Some(ClientRoute::X11(window)) => exists|i: int|
                0 <= i < toplevels.len() && (#[trigger] toplevels[i]).surface == surface && toplevels[i].backing is X11
                    && toplevels[i].backing->window == window,
            None => forall|i: int| 0 <= i < toplevels.len() ==> (#[trigger] toplevels[i]).surface != surface,
        },
{
    crate::surface::lemma_index_of(toplevels, surface);
    crate::surface::lemma_index_from(toplevels, surface, 0);
    if let Some(i) = index_of(toplevels, surface) {
        assert(toplevels[i].surface == surface);
    }
}

/// Once the requests of clients are dealt with, none of them waits any more, and the
/// windows of the clients are as they were.
pub proof fn law_requests_are_dealt_with(s: ShellView, st: SpikeView)
    ensures
        ({
            let after = requests_drained(st);
            &&& after.pending_xdg_move.len() == 0 && after.pending_xdg_resize.len() == 0
            &&& after.pending_xdg_maximize.len() == 0 && after.pending_xdg_fullscreen.len() == 0
            &&& after.pending_xdg_minimize.len() == 0 && after.pending_xdg_restore.len() == 0
            &&& after.toplevels == st.toplevels && after.popups == st.popups
            &&& after.active_surface == st.active_surface
            &&& request_steps(s, after).len() == 0
        }),
{
    assert(request_steps(s, requests_drained(st)) =~= Seq::empty());
}

/// To be maximized or to fill the screen is the same wish, and wishes to be maximized
/// are granted first; then windows are hidden, and then brought back.
pub proof fn law_requests_are_granted_in_turn(s: ShellView, st: SpikeView)
    ensures
        ({
            let max = st.pending_xdg_maximize;
            let full = st.pending_xdg_fullscreen;
            let hide = st.pending_xdg_minimize;
            let back = st.pending_xdg_restore;
            &&& full.len() == 0 && hide.len() == 0 && back.len() == 0 ==> request_steps(s, st) == maximize_steps(
                s.windows,
                max,
                max.len() as int,
            )
            &&& max.len() == 0 && hide.len() == 0 && back.len() == 0 ==> request_steps(s, st) == maximize_steps(
                s.windows,
                full,
                full.len() as int,
            )
            &&& max.len() == 0 && full.len() == 0 && back.len() == 0 ==> request_steps(s, st) == self_steps(
                s.windows,
                hide,
                false,
                hide.len() as int,
            )
            &&& max.len() == 0 && full.len() == 0 && hide.len() == 0 ==> request_steps(s, st) == self_steps(
                s.windows,
                back,
                true,
                back.len() as int,
            )
            &&& max.len() == 0 && full.len() == 0 ==> request_steps(s, st) == self_steps(
                s.windows,
                hide,
                false,
                hide.len() as int,
            ) + self_steps(s.windows, back, true, back.len() as int)
        }),
{
    let max = st.pending_xdg_maximize;
    let full = st.pending_xdg_fullscreen;
    let steps = request_steps(s, st);
    if full.len() == 0 {
        assert(maximize_wants(st) =~= max);
    }
    if max.len() == 0 {
        assert(maximize_wants(st) =~= full);
    }
    let wants = maximize_wants(st);
    let after = maximize_set(s.windows, wants, wants.len() as int);
    let a = maximize_steps(s.windows, wants, wants.len() as int);
    let b = self_steps(after, st.pending_xdg_minimize, false, st.pending_xdg_minimize.len() as int);
    let c = self_steps(after, st.pending_xdg_restore, true, st.pending_xdg_restore.len() as int);
    assert(steps == a + b + c);
    if b.len() == 0 && c.len() == 0 {
        assert(a + b + c =~= a);
    }
    if a.len() == 0 {
        assert(a + b + c =~= b + c);
        if c.len() == 0 {
            assert(b + c =~= b);
        }
        if b.len() == 0 {
            assert(b + c =~= c);
        }
    }
}

} // verus!
