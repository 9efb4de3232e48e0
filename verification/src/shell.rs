//! The shell's own state: its menus and overlays, the keys it holds back from
//! clients, and the window actions that wait for the next frame.

use std::collections::HashSet;

use vstd::prelude::*;

use crate::cursor::Coord;
use crate::keyboard::PendingKeyEvent;
use crate::menu::{
    in_reach, is_nav_key, is_navigation_key, navigated, no_menu, opened, any_pickable, row_pickable, Menu, MenuBounds,
    MenuView, KEY_ENTER, KEY_KPENTER, NO_ROW,
};
use crate::resize::ActiveDrag;
use crate::snap::{SnapRect, SnapZone, WorkArea};
use crate::windows::{unique_ids, WindowState};

verus! {

/// Sizes of the shell's fixed parts.
#[derive(Clone, Copy, Debug, PartialEq, Eq, Structural)]
pub struct ShellMetrics {
    pub panel_h: i32,
    pub dock_h: i32,
    pub titlebar_h: i32,
    /// How far outside a window its edges can still be grabbed.
    pub edge: i32,
}

/// The menus and overlays that the shell draws.
#[derive(Debug)]
pub struct ShellUi {
    pub desktop_menu: Menu,
    pub dock_menu: Menu,
    pub tray_menu: Menu,
    pub window_menu: Menu,
    /// The application that the dock menu is about.
    pub dock_menu_app_id: String,
    /// The tray item that the tray menu is about.
    pub tray_menu_id: i32,
    /// The window that the window menu is about.
    pub window_menu_target_id: i32,
    pub datetime_popout_open: bool,
    pub control_centre_open: bool,
    pub help_overlay_visible: bool,
    pub debug_overlay_visible: bool,
    pub launcher_open: bool,
    pub launcher_query: String,
}

#[verifier::ext_equal]
pub struct UiView {
    pub desktop_menu: MenuView,
    pub dock_menu: MenuView,
    pub tray_menu: MenuView,
    pub window_menu: MenuView,
    pub dock_menu_app_id: Seq<char>,
    pub tray_menu_id: i32,
    pub window_menu_target_id: i32,
    pub datetime_popout_open: bool,
    pub control_centre_open: bool,
    pub help_overlay_visible: bool,
    pub debug_overlay_visible: bool,
    pub launcher_open: bool,
    pub launcher_query: Seq<char>,
}

impl View for ShellUi {
    type V = UiView;

    open spec fn view(&self) -> UiView {
        UiView {
            desktop_menu: self.desktop_menu@,
            dock_menu: self.dock_menu@,
            tray_menu: self.tray_menu@,
            window_menu: self.window_menu@,
            dock_menu_app_id: self.dock_menu_app_id@,
            tray_menu_id: self.tray_menu_id,
            window_menu_target_id: self.window_menu_target_id,
            datetime_popout_open: self.datetime_popout_open,
            control_centre_open: self.control_centre_open,
            help_overlay_visible: self.help_overlay_visible,
            debug_overlay_visible: self.debug_overlay_visible,
            launcher_open: self.launcher_open,
            launcher_query: self.launcher_query@,
        }
    }
}

/// The menus that can be driven from the keyboard.
#[derive(Clone, Copy, Debug, PartialEq, Eq, Structural)]
pub enum MenuKind {
    Desktop,
    Dock,
    Tray,
    Window,
}

/// A menu row that was activated.
#[derive(Clone, Copy, Debug, PartialEq, Eq, Structural)]
pub struct MenuClick {
    pub menu: MenuKind,
    pub id: i32,
}

/// Nothing is open, and no menu has rows.
pub open spec fn quiet_ui() -> UiView {
    UiView {
        desktop_menu: no_menu(),
        dock_menu: no_menu(),
        tray_menu: no_menu(),
        window_menu: no_menu(),
        dock_menu_app_id: Seq::empty(),
        tray_menu_id: 0,
        window_menu_target_id: 0,
        datetime_popout_open: false,
        control_centre_open: false,
        help_overlay_visible: false,
        debug_overlay_visible: false,
        launcher_open: false,
        launcher_query: Seq::empty(),
    }
}

impl UiView {
    /// Whether a context menu is open.
    pub open spec fn any_menu_open(self) -> bool {
        self.desktop_menu.open || self.dock_menu.open || self.tray_menu.open || self.window_menu.open
    }

    /// Whether something of the shell's takes the pointer from clients.
    pub open spec fn captures_pointer(self) -> bool {
        self.any_menu_open() || self.datetime_popout_open || self.control_centre_open || self.launcher_open
            || self.help_overlay_visible
    }

    /// Whether Escape has something to close.
    pub open spec fn escapable(self) -> bool {
        self.desktop_menu.open || self.datetime_popout_open || self.control_centre_open
            || self.help_overlay_visible || self.launcher_open || self.dock_menu.open || self.window_menu.open
    }

    /// Everything that Escape closes is closed.
    pub open spec fn escaped(self) -> UiView {
        UiView {
            desktop_menu: MenuView { open: false, ..self.desktop_menu },
            dock_menu: MenuView { open: false, ..self.dock_menu },
            window_menu: MenuView { open: false, ..self.window_menu },
            datetime_popout_open: false,
            control_centre_open: false,
            help_overlay_visible: false,
            launcher_open: false,
            ..self
        }
    }

    /// All context menus are closed, without a selection.
    pub open spec fn menus_dismissed(self) -> UiView {
        UiView {
            desktop_menu: MenuView { open: false, selected: NO_ROW, ..self.desktop_menu },
            dock_menu: MenuView { open: false, selected: NO_ROW, ..self.dock_menu },
            tray_menu: MenuView { open: false, selected: NO_ROW, ..self.tray_menu },
            window_menu: MenuView { open: false, selected: NO_ROW, ..self.window_menu },
            ..self
        }
    }

    /// The menu that the keyboard drives, whichever is open: dock and tray menus lie
    /// above the desktop menu, and that above the menu of a window.
    pub open spec fn driven_menu(self) -> Option<MenuKind> {
        if self.dock_menu.open {
            Some(MenuKind::Dock)
        } else if self.tray_menu.open {
            Some(MenuKind::Tray)
        } else if self.desktop_menu.open {
            Some(MenuKind::Desktop)
        } else if self.window_menu.open {
            Some(MenuKind::Window)
        } else {
            None
        }
    }

    pub open spec fn menu(self, kind: MenuKind) -> MenuView {
        match kind {
            MenuKind::Desktop => self.desktop_menu,
            MenuKind::Dock => self.dock_menu,
            MenuKind::Tray => self.tray_menu,
            MenuKind::Window => self.window_menu,
        }
    }

    pub open spec fn with_menu(self, kind: MenuKind, m: MenuView) -> UiView {
        match kind {
            MenuKind::Desktop => UiView { desktop_menu: m, ..self },
            MenuKind::Dock => UiView { dock_menu: m, ..self },
            MenuKind::Tray => UiView { tray_menu: m, ..self },
            MenuKind::Window => UiView { window_menu: m, ..self },
        }
    }
}

/// What a navigation key does: the new state, whether the key was used, and the
/// row that it activated.
pub open spec fn menu_key(ui: UiView, scancode: u32) -> (UiView, bool, Option<MenuClick>) {
    if !is_nav_key(scancode) {
        (ui, false, None)
    } else {
        match ui.driven_menu() {
            Some(kind) => {
                let (m, click) = navigated(ui.menu(kind), scancode);
                (
                    ui.with_menu(kind, m),
                    true,
                    match click {
                        Some(id) => Some(MenuClick { menu: kind, id }),
                        None => None,
                    },
                )
            },
            None => (ui, false, None),
        }
    }
}

/// Whether a navigation key changes what the driven menu shows.
pub open spec fn menu_key_redraws(ui: UiView, scancode: u32) -> bool {
    is_nav_key(scancode) && match ui.driven_menu() {
        Some(kind) => {
            let m = ui.menu(kind);
            any_pickable(m.items) && ((scancode != KEY_ENTER && scancode != KEY_KPENTER) || row_pickable(
                m.items,
                m.selected as int,
            ))
        },
        None => false,
    }
}

impl ShellUi {
    pub open spec fn wf(&self) -> bool {
        self.desktop_menu.wf() && self.dock_menu.wf() && self.tray_menu.wf() && self.window_menu.wf()
    }

    /// Whether a context menu is open.
    pub fn menu_nav_active(&self) -> (r: bool)
        ensures
            r == self@.any_menu_open(),
    {
        self.desktop_menu.open || self.dock_menu.open || self.tray_menu.open || self.window_menu.open
    }

    /// Whether something of the shell's takes the pointer from clients.
    pub fn pointer_overlay_open(&self) -> (r: bool)
        ensures
            r == self@.captures_pointer(),
    {
        self.menu_nav_active() || self.datetime_popout_open || self.control_centre_open || self.launcher_open
            || self.help_overlay_visible
    }

    /// Closes all context menus.
    pub fn dismiss_menus(&mut self)
        requires
            old(self).wf(),
        ensures
            final(self).wf(),
            final(self)@ == old(self)@.menus_dismissed(),
    {
        self.desktop_menu.dismiss();
        self.dock_menu.dismiss();
        self.tray_menu.dismiss();
        self.window_menu.dismiss();
    }

    /// Closes whatever Escape closes. Returns whether anything was open.
    pub fn escape(&mut self) -> (r: bool)
        requires
            old(self).wf(),
        ensures
            final(self).wf(),
            r == old(self)@.escapable(),
            final(self)@ == if r {
                old(self)@.escaped()
            } else {
                old(self)@
            },
    {
        if !(self.desktop_menu.open || self.datetime_popout_open || self.control_centre_open
            || self.help_overlay_visible || self.launcher_open || self.dock_menu.open || self.window_menu.open) {
            return false;
        }
        self.desktop_menu.open = false;
        self.dock_menu.open = false;
        self.window_menu.open = false;
        self.datetime_popout_open = false;
        self.control_centre_open = false;
        self.help_overlay_visible = false;
        self.launcher_open = false;
        true
    }

    /// Opens or closes the launcher. It opens with an empty query.
    pub fn toggle_launcher(&mut self)
        requires
            old(self).wf(),
        ensures
            final(self).wf(),
            final(self)@ == launcher_toggled(old(self)@),
    {
        self.launcher_open = !self.launcher_open;
        if self.launcher_open {
            self.launcher_query = String::new();
        }
    }

    pub fn close_desktop_menu(&mut self)
        requires
            old(self).wf(),
        ensures
            final(self).wf(),
            final(self)@ == desktop_menu_closed(old(self)@),
    {
        self.desktop_menu.open = false;
    }

    pub fn toggle_debug_overlay(&mut self)
        requires
            old(self).wf(),
        ensures
            final(self).wf(),
            final(self)@ == debug_toggled(old(self)@),
    {
        self.debug_overlay_visible = !self.debug_overlay_visible;
    }

    pub fn toggle_help_overlay(&mut self)
        requires
            old(self).wf(),
        ensures
            final(self).wf(),
            final(self)@ == help_toggled(old(self)@),
    {
        self.help_overlay_visible = !self.help_overlay_visible;
    }

    /// Opens the menu of a window at a point.
    pub fn open_window_menu(&mut self, target_id: i32, x: Coord, y: Coord, bounds: MenuBounds)
        requires
            old(self).wf(),
            in_reach(x),
            in_reach(y),
        ensures
            final(self).wf(),
            final(self)@ == window_menu_opened(old(self)@, target_id, x, y, bounds),
    {
        self.window_menu_target_id = target_id;
        self.window_menu.open_at(x, y, bounds);
    }

    /// Opens the menu of the desktop at a point. The selection and the width stay
    /// as they are.
    pub fn open_desktop_menu(&mut self, x: Coord, y: Coord, bounds: MenuBounds)
        requires
            old(self).wf(),
            in_reach(x),
            in_reach(y),
        ensures
            final(self).wf(),
            final(self)@ == (UiView {
                desktop_menu: MenuView {
                    selected: old(self).desktop_menu.selected,
                    w: old(self).desktop_menu.w,
                    ..opened(old(self)@.desktop_menu, x, y, bounds)
                },
                ..old(self)@
            }),
    {
        let selected: i32 = self.desktop_menu.selected;
        let w: i32 = self.desktop_menu.w;
        self.desktop_menu.open_at(x, y, bounds);
        self.desktop_menu.selected = selected;
        self.desktop_menu.w = w;
    }

    /// Handles a key press in whichever context menu is open. Returns whether the
    /// key was used, the row it activated, and whether the menu looks different.
    pub fn handle_menu_nav_key(&mut self, scancode: u32) -> (r: (bool, Option<MenuClick>, bool))
        requires
            old(self).wf(),
        ensures
            final(self).wf(),
            (final(self)@, r.0, r.1) == menu_key(old(self)@, scancode),
            r.2 == menu_key_redraws(old(self)@, scancode),
    {
        if !is_navigation_key(scancode) {
            return (false, None, false);
        }
        let enter = scancode == KEY_ENTER || scancode == KEY_KPENTER;
        if self.dock_menu.open {
            let redraw = self.dock_menu.has_pickable() && (!enter || self.dock_menu.selection_pickable());
            match self.dock_menu.navigate(scancode) {
                Some(id) => (true, Some(MenuClick { menu: MenuKind::Dock, id }), redraw),
                None => (true, None, redraw),
            }
        } else if self.tray_menu.open {
            let redraw = self.tray_menu.has_pickable() && (!enter || self.tray_menu.selection_pickable());
            match self.tray_menu.navigate(scancode) {
                Some(id) => (true, Some(MenuClick { menu: MenuKind::Tray, id }), redraw),
                None => (true, None, redraw),
            }
        } else if self.desktop_menu.open {
            let redraw = self.desktop_menu.has_pickable() && (!enter || self.desktop_menu.selection_pickable());
            match self.desktop_menu.navigate(scancode) {
                Some(id) => (true, Some(MenuClick { menu: MenuKind::Desktop, id }), redraw),
                None => (true, None, redraw),
            }
        } else if self.window_menu.open {
            let redraw = self.window_menu.has_pickable() && (!enter || self.window_menu.selection_pickable());
            match self.window_menu.navigate(scancode) {
                Some(id) => (true, Some(MenuClick { menu: MenuKind::Window, id }), redraw),
                None => (true, None, redraw),
            }
        } else {
            (false, None, false)
        }
    }
}

/// A context menu takes every navigation key, whichever menu is open.
pub proof fn law_open_menu_takes_navigation(ui: UiView, scancode: u32)
    requires
        is_nav_key(scancode),
    ensures
        menu_key(ui, scancode).1 == ui.any_menu_open(),
{
}

pub open spec fn desktop_menu_closed(ui: UiView) -> UiView {
    UiView { desktop_menu: MenuView { open: false, ..ui.desktop_menu }, ..ui }
}

pub open spec fn debug_toggled(ui: UiView) -> UiView {
    UiView { debug_overlay_visible: !ui.debug_overlay_visible, ..ui }
}

pub open spec fn help_toggled(ui: UiView) -> UiView {
    UiView { help_overlay_visible: !ui.help_overlay_visible, ..ui }
}

/// The state with the menu of a window opened at a point.
pub open spec fn window_menu_opened(ui: UiView, target_id: i32, x: Coord, y: Coord, bounds: MenuBounds) -> UiView {
    UiView { window_menu: opened(ui.window_menu, x, y, bounds), window_menu_target_id: target_id, ..ui }
}

pub open spec fn launcher_toggled(ui: UiView) -> UiView {
    UiView {
        launcher_open: !ui.launcher_open,
        launcher_query: if ui.launcher_open {
            ui.launcher_query
        } else {
            Seq::empty()
        },
        ..ui
    }
}

/// A window that is to snap into place when the pointer is released.
#[derive(Clone, Copy, Debug)]
pub struct PendingSnap {
    pub window_id: i32,
    pub zone: SnapZone,
    pub rect: SnapRect,
}

/// Something chosen from the dock menu of an application.
#[derive(Debug)]
pub struct DockAction {
    pub app_id: String,
    pub action: i32,
}

/// The shell.
#[derive(Debug)]
pub struct Shell {
    pub ui: ShellUi,
    pub windows: Vec<WindowState>,
    pub output_w: i32,
    pub output_h: i32,
    pub metrics: ShellMetrics,
    /// The part of the output that windows may cover.
    pub work_area: WorkArea,
    pub super_held: bool,
    /// The focused client gets every key.
    pub shortcuts_inhibited: bool,
    pub left_button_down: bool,
    pub alt_held: bool,
    /// The window switcher is shown.
    pub alt_cycling: bool,
    /// Keys whose release is kept from clients because their press was.
    pub swallowed_key_releases: HashSet<u32>,
    pub active_drag: Option<ActiveDrag>,
    pub pending_snap: Option<PendingSnap>,
    /// Where the snap preview is shown.
    pub snap_preview: Option<SnapRect>,
    pub pending_keys: Vec<PendingKeyEvent>,
    pub pending_close: Vec<i32>,
    pub pending_minimize: Vec<i32>,
    pub pending_maximize: Vec<i32>,
    pub pending_activate: Vec<i32>,
    pub pending_dock_action: Vec<DockAction>,
    pub pending_alt_tab_step: u32,
    pub pending_alt_tab_commit: bool,
    /// Size and refresh rate to announce for the output.
    pub pending_output_mode: Option<(i32, i32, i32)>,
    /// Something changed that has to be drawn.
    pub redraw: bool,
}

#[verifier::ext_equal]
pub struct ShellView {
    pub ui: UiView,
    pub windows: Seq<WindowState>,
    pub output_w: i32,
    pub output_h: i32,
    pub metrics: ShellMetrics,
    pub work_area: WorkArea,
    pub super_held: bool,
    pub shortcuts_inhibited: bool,
    pub left_button_down: bool,
    pub alt_held: bool,
    pub alt_cycling: bool,
    pub swallowed_key_releases: Set<u32>,
    pub active_drag: Option<ActiveDrag>,
    pub pending_snap: Option<PendingSnap>,
    pub snap_preview: Option<SnapRect>,
    pub pending_keys: Seq<PendingKeyEvent>,
    pub pending_close: Seq<i32>,
    pub pending_minimize: Seq<i32>,
    pub pending_maximize: Seq<i32>,
    pub pending_activate: Seq<i32>,
    pub pending_dock_action: Seq<DockAction>,
    pub pending_alt_tab_step: u32,
    pub pending_alt_tab_commit: bool,
    pub pending_output_mode: Option<(i32, i32, i32)>,
    pub redraw: bool,
}

impl View for Shell {
    type V = ShellView;

    open spec fn view(&self) -> ShellView {
        ShellView {
            ui: self.ui@,
            windows: self.windows@,
            output_w: self.output_w,
            output_h: self.output_h,
            metrics: self.metrics,
            work_area: self.work_area,
            super_held: self.super_held,
            shortcuts_inhibited: self.shortcuts_inhibited,
            left_button_down: self.left_button_down,
            alt_held: self.alt_held,
            alt_cycling: self.alt_cycling,
            swallowed_key_releases: self.swallowed_key_releases@,
            active_drag: self.active_drag,
            pending_snap: self.pending_snap,
            snap_preview: self.snap_preview,
            pending_keys: self.pending_keys@,
            pending_close: self.pending_close@,
            pending_minimize: self.pending_minimize@,
            pending_maximize: self.pending_maximize@,
            pending_activate: self.pending_activate@,
            pending_dock_action: self.pending_dock_action@,
            pending_alt_tab_step: self.pending_alt_tab_step,
            pending_alt_tab_commit: self.pending_alt_tab_commit,
            pending_output_mode: self.pending_output_mode,
            redraw: self.redraw,
        }
    }
}

impl ShellView {
    pub open spec fn menu_bounds(self) -> MenuBounds {
        MenuBounds {
            output_w: self.output_w,
            output_h: self.output_h,
            panel_h: self.metrics.panel_h,
            dock_h: self.metrics.dock_h,
        }
    }
}

impl Shell {
    /// The menus and the work area are sound, and every window has an id of its own.
    pub open spec fn wf(&self) -> bool {
        self.ui.wf() && self.work_area.wf() && unique_ids(self.windows@)
    }

    /// The shell of an output, with nothing open and nothing pending.
    pub fn new(output_w: i32, output_h: i32, metrics: ShellMetrics, work_area: WorkArea) -> (s: Shell)
        requires
            work_area.wf(),
        ensures
            s.wf(),
            s@.ui == quiet_ui(),
            s@.windows.len() == 0,
            s@.output_w == output_w,
            s@.output_h == output_h,
            s@.metrics == metrics,
            s@.work_area == work_area,
            !s@.super_held && !s@.shortcuts_inhibited && !s@.left_button_down && !s@.alt_held && !s@.alt_cycling,
            s@.swallowed_key_releases == Set::<u32>::empty(),
            s@.active_drag is None && s@.pending_snap is None && s@.snap_preview is None,
            s@.pending_keys.len() == 0 && s@.pending_close.len() == 0 && s@.pending_minimize.len() == 0,
            s@.pending_maximize.len() == 0 && s@.pending_activate.len() == 0 && s@.pending_dock_action.len() == 0,
            s@.pending_alt_tab_step == 0 && !s@.pending_alt_tab_commit && s@.pending_output_mode is None,
            !s@.redraw,
    {
        broadcast use vstd::std_specs::hash::group_hash_axioms;

        let s = Shell {
            ui: ShellUi {
                desktop_menu: Menu::empty(),
                dock_menu: Menu::empty(),
                tray_menu: Menu::empty(),
                window_menu: Menu::empty(),
                dock_menu_app_id: String::new(),
                tray_menu_id: 0,
                window_menu_target_id: 0,
                datetime_popout_open: false,
                control_centre_open: false,
                help_overlay_visible: false,
                debug_overlay_visible: false,
                launcher_open: false,
                launcher_query: String::new(),
            },
            windows: Vec::new(),
            output_w,
            output_h,
            metrics,
            work_area,
            super_held: false,
            shortcuts_inhibited: false,
            left_button_down: false,
            alt_held: false,
            alt_cycling: false,
            swallowed_key_releases: HashSet::new(),
            active_drag: None,
            pending_snap: None,
            snap_preview: None,
            pending_keys: Vec::new(),
            pending_close: Vec::new(),
            pending_minimize: Vec::new(),
            pending_maximize: Vec::new(),
            pending_activate: Vec::new(),
            pending_dock_action: Vec::new(),
            pending_alt_tab_step: 0,
            pending_alt_tab_commit: false,
            pending_output_mode: None,
            redraw: false,
        };
        assert(s@.ui =~= quiet_ui());
        s
    }

    pub fn menu_bounds(&self) -> (r: MenuBounds)
        ensures
            r == self@.menu_bounds(),
    {
        MenuBounds {
            output_w: self.output_w,
            output_h: self.output_h,
            panel_h: self.metrics.panel_h,
            dock_h: self.metrics.dock_h,
        }
    }
}

/// Without an open menu no menu is driven by keys.
pub proof fn lemma_no_menu_driven(ui: UiView)
    requires
        !ui.any_menu_open(),
    ensures
        ui.driven_menu() is None,
{
}

/// A navigation key acts on one open menu, on the dock's or the tray's before the
/// desktop's, and on a window's last; the other menus and everything else stay.
pub proof fn law_key_drives_one_menu(ui: UiView, scancode: u32)
    requires
        is_nav_key(scancode),
    ensures
        ({
            let (t, used, click) = menu_key(ui, scancode);
            &&& ui.dock_menu.open ==> t == (UiView { dock_menu: navigated(ui.dock_menu, scancode).0, ..ui })
            &&& !ui.dock_menu.open && ui.tray_menu.open ==> t == (UiView {
                tray_menu: navigated(ui.tray_menu, scancode).0,
                ..ui
            })
            &&& !ui.dock_menu.open && !ui.tray_menu.open && ui.desktop_menu.open ==> t == (UiView {
                desktop_menu: navigated(ui.desktop_menu, scancode).0,
                ..ui
            })
            &&& !ui.dock_menu.open && !ui.tray_menu.open && !ui.desktop_menu.open && ui.window_menu.open ==> t == (
            UiView { window_menu: navigated(ui.window_menu, scancode).0, ..ui })
            &&& !used ==> t == ui && click is None
            &&& click matches Some(c) ==> match c.menu {
                MenuKind::Dock => ui.dock_menu.open && !t.dock_menu.open && navigated(ui.dock_menu, scancode).1
                    == Some(c.id),
                MenuKind::Tray => ui.tray_menu.open && !t.tray_menu.open && navigated(ui.tray_menu, scancode).1
                    == Some(c.id),
                MenuKind::Desktop => ui.desktop_menu.open && !t.desktop_menu.open && navigated(
                    ui.desktop_menu,
                    scancode,
                ).1 == Some(c.id),
                MenuKind::Window => ui.window_menu.open && !t.window_menu.open && navigated(
                    ui.window_menu,
                    scancode,
                ).1 == Some(c.id),
            }
        }),
{
}

/// After a dismissal no context menu is open or has a selection, and nothing else changed.
pub proof fn law_dismissed_menus_are_closed(ui: UiView)
    ensures
        ({
            let t = ui.menus_dismissed();
            &&& !t.any_menu_open()
            &&& t.desktop_menu.selected == -1 && t.dock_menu.selected == -1 && t.tray_menu.selected == -1
                && t.window_menu.selected == -1
            &&& t.desktop_menu.items == ui.desktop_menu.items && t.dock_menu.items == ui.dock_menu.items
            &&& t.tray_menu.items == ui.tray_menu.items && t.window_menu.items == ui.window_menu.items
            &&& t.launcher_open == ui.launcher_open && t.datetime_popout_open == ui.datetime_popout_open
            &&& t.control_centre_open == ui.control_centre_open && t.help_overlay_visible == ui.help_overlay_visible
            &&& t.captures_pointer() <==> ui.launcher_open || ui.datetime_popout_open || ui.control_centre_open
                || ui.help_overlay_visible
        }),
{
}

} // verus!
