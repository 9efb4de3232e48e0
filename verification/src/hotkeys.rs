//! Key events: which the shell uses itself, and which go on to clients.

use vstd::prelude::*;

use crate::cursor::Coord;
use crate::keyboard::PendingKeyEvent;
use crate::menu::{is_nav_key, KEY_DOWN, KEY_ENTER, KEY_KPENTER, KEY_UP};
use crate::shell::{
    debug_toggled, help_toggled, launcher_toggled, window_menu_opened, menu_key, menu_key_redraws, MenuClick,
    Shell, ShellView, UiView,
};
use crate::windows::{find_window, window_of, WindowState};

verus! {

pub const KEY_ESC: u32 = 1;

pub const KEY_W: u32 = 17;

pub const KEY_T: u32 = 20;

pub const KEY_I: u32 = 23;

pub const KEY_D: u32 = 32;

pub const KEY_M: u32 = 50;

pub const KEY_SLASH: u32 = 53;

pub const KEY_SPACE: u32 = 57;

pub const KEY_LEFTMETA: u32 = 125;

pub const KEY_RIGHTMETA: u32 = 126;

pub const KEY_COMPOSE: u32 = 127;

/// The part that a key plays in the window switcher.
#[derive(Clone, Copy, Debug, PartialEq, Eq, Structural)]
pub enum KeyRole {
    Alt,
    Tab,
    Other,
}

/// A key event from the host. A key without an evdev code has scancode 0.
#[derive(Clone, Copy, Debug, PartialEq, Eq, Structural)]
pub struct KeyInput {
    pub scancode: u32,
    pub pressed: bool,
    pub role: KeyRole,
}

/// What is left to do for a key event.
#[derive(Clone, Copy, Debug, PartialEq, Eq, Structural)]
pub struct KeyOutcome {
    pub toggle_theme: bool,
    pub click: Option<MenuClick>,
    /// The shell used the event; clients do not get it.
    pub consumed: bool,
}

pub open spec fn is_super(scancode: u32) -> bool {
    scancode == KEY_LEFTMETA || scancode == KEY_RIGHTMETA
}

/// The keys whose release is held back while a menu is open.
pub open spec fn menu_holds_release(scancode: u32) -> bool {
    scancode == KEY_UP || scancode == KEY_DOWN || scancode == KEY_ENTER || scancode == KEY_KPENTER
}

/// The ids of the first `n` windows that are neither minimized nor closing.
pub open spec fn visible_ids(windows: Seq<WindowState>, n: int) -> Seq<i32>
    decreases n,
{
    if n <= 0 {
        Seq::empty()
    } else {
        let rest = visible_ids(windows, n - 1);
        if !windows[n - 1].minimized && !windows[n - 1].closing {
            rest.push(windows[n - 1].id)
        } else {
            rest
        }
    }
}

/// The queue with the focused window's id at its end, if a window has the focus.
pub open spec fn with_focused(queue: Seq<i32>, focused: Option<i32>) -> Seq<i32> {
    match focused {
        Some(id) => queue.push(id),
        None => queue,
    }
}

/// The middle of the top of a window's content: where its menu opens from the
/// keyboard.
pub open spec fn menu_anchor(w: &WindowState, titlebar_h: i32) -> (Coord, Coord) {
    let y = (w.shown.y + titlebar_h) as i64;
    (
        Coord {
            floor: (w.shown.x + (w.shown.w as int) / 2) as i64,
            ceil: (w.shown.x + (w.shown.w + 1) / 2) as i64,
        },
        Coord { floor: y, ceil: y },
    )
}

/// What a key does that is pressed while Super is held: the new state, whether the
/// key was used, and whether the theme changes.
#[verifier::opaque]
pub open spec fn super_shortcut(s: ShellView, code: u32, focused: Option<i32>) -> (ShellView, bool, bool) {
    if code == KEY_T {
        (s, true, true)
    } else if code == KEY_I {
        (ShellView { ui: debug_toggled(s.ui), ..s }, true, false)
    } else if code == KEY_SLASH {
        (ShellView { ui: help_toggled(s.ui), ..s }, true, false)
    } else if code == KEY_W {
        (ShellView { pending_close: with_focused(s.pending_close, focused), ..s }, true, false)
    } else if code == KEY_M {
        (ShellView { pending_minimize: with_focused(s.pending_minimize, focused), ..s }, true, false)
    } else if code == KEY_D {
        (
            ShellView { pending_minimize: s.pending_minimize + visible_ids(s.windows, s.windows.len() as int), ..s },
            true,
            false,
        )
    } else if code == KEY_SPACE {
        (ShellView { ui: launcher_toggled(s.ui), ..s }, true, false)
    } else {
        (s, false, false)
    }
}

/// What Escape does: the new state, and whether it closed anything.
#[verifier::opaque]
pub open spec fn escape_key(s: ShellView) -> (ShellView, bool) {
    if s.ui.escapable() {
        (ShellView { ui: s.ui.escaped(), redraw: true, ..s }, true)
    } else {
        (s, false)
    }
}

/// What the menu key does: it opens the menu of the focused window.
#[verifier::opaque]
pub open spec fn compose_key(s: ShellView, focused: Option<i32>) -> (ShellView, bool) {
    if focused is Some && window_of(s.windows, focused->0) is Some {
        let w = s.windows[window_of(s.windows, focused->0)->0];
        let (x, y) = menu_anchor(&w, s.metrics.titlebar_h);
        (
            ShellView {
                ui: window_menu_opened(s.ui, focused->0, x, y, s.menu_bounds()),
                redraw: true,
                ..s
            },
            true,
        )
    } else {
        (s, false)
    }
}

/// What the shell's shortcuts do: the new state, whether the key was used, and
/// whether the theme changes.
pub open spec fn shortcut(s: ShellView, key: KeyInput, focused: Option<i32>) -> (ShellView, bool, bool) {
    if is_super(key.scancode) {
        (ShellView { super_held: key.pressed, ..s }, false, false)
    } else if !key.pressed {
        (s, false, false)
    } else if key.scancode == KEY_ESC {
        (escape_key(s).0, escape_key(s).1, false)
    } else if key.scancode == KEY_COMPOSE {
        (compose_key(s, focused).0, compose_key(s, focused).1, false)
    } else if s.super_held {
        super_shortcut(s, key.scancode, focused)
    } else {
        (s, false, false)
    }
}

/// What the window switcher makes of a key: the new state, and whether the key
/// was used.
pub open spec fn alt_tab(s: ShellView, key: KeyInput) -> (ShellView, bool) {
    match key.role {
        KeyRole::Alt => if !key.pressed && s.alt_cycling {
            (ShellView { alt_held: false, alt_cycling: false, pending_alt_tab_commit: true, ..s }, false)
        } else {
            (ShellView { alt_held: key.pressed, ..s }, false)
        },
        KeyRole::Tab => if key.pressed && s.alt_held {
            (
                ShellView {
                    alt_cycling: true,
                    pending_alt_tab_step: if s.pending_alt_tab_step < u32::MAX {
                        (s.pending_alt_tab_step + 1) as u32
                    } else {
                        u32::MAX
                    },
                    ..s
                },
                true,
            )
        } else {
            (s, s.alt_cycling)
        },
        KeyRole::Other => (s, false),
    }
}

/// The event goes to clients, or is remembered as kept from them.
pub open spec fn settled(s: ShellView, key: KeyInput, consumed: bool) -> ShellView {
    ShellView {
        swallowed_key_releases: if key.pressed && consumed && key.scancode > 0 {
            s.swallowed_key_releases.insert(key.scancode)
        } else {
            s.swallowed_key_releases
        },
        pending_keys: if key.scancode > 0 && !consumed {
            s.pending_keys.push(PendingKeyEvent { scancode: key.scancode, pressed: key.pressed })
        } else {
            s.pending_keys
        },
        ..s
    }
}

/// The release of a key whose press was kept from clients.
pub open spec fn release_owed(s: ShellView, key: KeyInput) -> bool {
    !key.pressed && s.swallowed_key_releases.contains(key.scancode)
}

pub open spec fn release_taken(s: ShellView, key: KeyInput) -> ShellView {
    ShellView {
        swallowed_key_releases: if key.pressed {
            s.swallowed_key_releases
        } else {
            s.swallowed_key_releases.remove(key.scancode)
        },
        ..s
    }
}

/// What context menus make of a key: the new state, whether the key was used, and
/// the row that it activated.
#[verifier::opaque]
pub open spec fn menu_stage(s: ShellView, key: KeyInput) -> (ShellView, bool, Option<MenuClick>) {
    if key.pressed {
        let (ui, used, click) = menu_key(s.ui, key.scancode);
        (ShellView { ui, redraw: s.redraw || menu_key_redraws(s.ui, key.scancode), ..s }, used, click)
    } else {
        (s, menu_holds_release(key.scancode) && s.ui.any_menu_open(), None)
    }
}

/// Everything that a key event does.
pub open spec fn key_handled(s: ShellView, key: KeyInput, focused: Option<i32>) -> (ShellView, KeyOutcome) {
    let owed = release_owed(s, key);
    let s1 = release_taken(s, key);
    if s.shortcuts_inhibited {
        let s2 = if is_super(key.scancode) {
            ShellView { super_held: false, ..s1 }
        } else {
            s1
        };
        (settled(s2, key, owed), KeyOutcome { toggle_theme: false, click: None, consumed: owed })
    } else {
        let (s2, used, click) = menu_stage(s1, key);
        let (s3, hot, theme) = shortcut(s2, key, focused);
        let (s4, tab) = alt_tab(s3, key);
        let consumed = owed || used || hot || tab;
        (settled(s4, key, consumed), KeyOutcome { toggle_theme: theme, click, consumed })
    }
}

fn halve_down(w: i32) -> (r: i64)
    ensures
        r == (w as int) / 2,
{
    if w >= 0 {
        (w / 2) as i64
    } else {
        let m: i64 = -(w as i64);
        -((m + 1) / 2)
    }
}

fn halve_up(w: i32) -> (r: i64)
    ensures
        r == (w + 1) / 2,
{
    if w >= 0 {
        (w as i64 + 1) / 2
    } else {
        let m: i64 = -(w as i64);
        -(m / 2)
    }
}

impl Shell {
    fn handle_super_shortcut(&mut self, code: u32, focused: Option<i32>) -> (r: (bool, bool))
        requires
            old(self).wf(),
        ensures
            final(self).wf(),
            final(self)@ == super_shortcut(old(self)@, code, focused).0,
            r.0 == super_shortcut(old(self)@, code, focused).1,
            r.1 == super_shortcut(old(self)@, code, focused).2,
    {
        reveal(super_shortcut);
        if code == KEY_T {
            return (true, true);
        }
        if code == KEY_I {
            self.ui.toggle_debug_overlay();
        } else if code == KEY_SLASH {
            self.ui.toggle_help_overlay();
        } else if code == KEY_W {
            if let Some(id) = focused {
                self.pending_close.push(id);
            }
        } else if code == KEY_M {
            if let Some(id) = focused {
                self.pending_minimize.push(id);
            }
        } else if code == KEY_D {
            self.minimize_all();
        } else if code == KEY_SPACE {
            self.ui.toggle_launcher();
        } else {
            return (false, false);
        }
        (true, false)
    }

    fn handle_escape(&mut self) -> (r: bool)
        requires
            old(self).wf(),
        ensures
            final(self).wf(),
            final(self)@ == escape_key(old(self)@).0,
            r == escape_key(old(self)@).1,
    {
        reveal(escape_key);
        let any_open = self.ui.escape();
        if any_open {
            self.redraw = true;
        }
        any_open
    }

    fn handle_compose(&mut self, focused: Option<i32>) -> (r: bool)
        requires
            old(self).wf(),
        ensures
            final(self).wf(),
            final(self)@ == compose_key(old(self)@, focused).0,
            r == compose_key(old(self)@, focused).1,
    {
        reveal(compose_key);
        if let Some(id) = focused {
            if let Some(i) = find_window(&self.windows, id) {
                let shown = self.windows[i].shown;
                let x = Coord {
                    floor: shown.x as i64 + halve_down(shown.w),
                    ceil: shown.x as i64 + halve_up(shown.w),
                };
                let top: i64 = shown.y as i64 + self.metrics.titlebar_h as i64;
                let y = Coord { floor: top, ceil: top };
                let bounds = self.menu_bounds();
                self.ui.open_window_menu(id, x, y, bounds);
                self.redraw = true;
                return true;
            }
        }
        false
    }

    fn handle_shortcut(&mut self, key: KeyInput, focused: Option<i32>) -> (r: (bool, bool))
        requires
            old(self).wf(),
        ensures
            final(self).wf(),
            final(self)@ == shortcut(old(self)@, key, focused).0,
            r.0 == shortcut(old(self)@, key, focused).1,
            r.1 == shortcut(old(self)@, key, focused).2,
    {
        if key.scancode == KEY_LEFTMETA || key.scancode == KEY_RIGHTMETA {
            self.super_held = key.pressed;
            return (false, false);
        }
        if !key.pressed {
            return (false, false);
        }
        if key.scancode == KEY_ESC {
            return (self.handle_escape(), false);
        }
        if key.scancode == KEY_COMPOSE {
            return (self.handle_compose(focused), false);
        }
        if self.super_held {
            return self.handle_super_shortcut(key.scancode, focused);
        }
        (false, false)
    }

    /// Queues every window that is neither minimized nor closing to be minimized.
    fn minimize_all(&mut self)
        requires
            old(self).wf(),
        ensures
            final(self).wf(),
            final(self)@ == (ShellView {
                pending_minimize: old(self)@.pending_minimize + visible_ids(
                    old(self)@.windows,
                    old(self)@.windows.len() as int,
                ),
                ..old(self)@
            }),
    {
        let mut i: usize = 0;
        assert(self@.pending_minimize + visible_ids(self@.windows, 0) =~= self@.pending_minimize);
        while i < self.windows.len()
            invariant
                0 <= i <= self.windows@.len(),
                self.wf(),
                self@ == (ShellView {
                    pending_minimize: old(self)@.pending_minimize + visible_ids(old(self)@.windows, i as int),
                    ..old(self)@
                }),
            decreases self.windows@.len() - i,
        {
            let ghost before = self@.pending_minimize;
            if !self.windows[i].minimized && !self.windows[i].closing {
                let id: i32 = self.windows[i].id;
                self.pending_minimize.push(id);
            }
            i += 1;
            assert(self@.pending_minimize =~= old(self)@.pending_minimize + visible_ids(
                old(self)@.windows,
                i as int,
            ));
        }
    }

    fn handle_alt_tab_key(&mut self, key: KeyInput) -> (r: bool)
        requires
            old(self).wf(),
        ensures
            final(self).wf(),
            final(self)@ == alt_tab(old(self)@, key).0,
            r == alt_tab(old(self)@, key).1,
    {
        match key.role {
            KeyRole::Alt => {
                self.alt_held = key.pressed;
                if !key.pressed && self.alt_cycling {
                    self.alt_cycling = false;
                    self.pending_alt_tab_commit = true;
                }
                false
            },
            KeyRole::Tab => {
                if key.pressed && self.alt_held {
                    self.alt_cycling = true;
                    if self.pending_alt_tab_step < u32::MAX {
                        self.pending_alt_tab_step = self.pending_alt_tab_step + 1;
                    }
                    return true;
                }
                self.alt_cycling
            },
            KeyRole::Other => false,
        }
    }

    fn take_release(&mut self, key: KeyInput) -> (r: bool)
        requires
            old(self).wf(),
        ensures
            final(self).wf(),
            final(self)@ == release_taken(old(self)@, key),
            r == release_owed(old(self)@, key),
    {
        broadcast use vstd::std_specs::hash::group_hash_axioms;

        if key.pressed {
            return false;
        }
        self.swallowed_key_releases.remove(&key.scancode)
    }

    fn handle_menu_key(&mut self, key: KeyInput) -> (r: (bool, Option<MenuClick>))
        requires
            old(self).wf(),
        ensures
            final(self).wf(),
            final(self)@ == menu_stage(old(self)@, key).0,
            r.0 == menu_stage(old(self)@, key).1,
            r.1 == menu_stage(old(self)@, key).2,
    {
        reveal(menu_stage);
        if !key.pressed {
            let holds = key.scancode == KEY_UP || key.scancode == KEY_DOWN || key.scancode == KEY_ENTER
                || key.scancode == KEY_KPENTER;
            return (holds && self.ui.menu_nav_active(), None);
        }
        let (used, click, redraw) = self.ui.handle_menu_nav_key(key.scancode);
        if redraw {
            self.redraw = true;
        }
        (used, click)
    }

    fn settle(&mut self, key: KeyInput, consumed: bool)
        requires
            old(self).wf(),
        ensures
            final(self).wf(),
            final(self)@ == settled(old(self)@, key, consumed),
    {
        broadcast use vstd::std_specs::hash::group_hash_axioms;

        if key.pressed && consumed && key.scancode > 0 {
            self.swallowed_key_releases.insert(key.scancode);
        }
        if key.scancode > 0 && !consumed {
            self.pending_keys.push(PendingKeyEvent { scancode: key.scancode, pressed: key.pressed });
        }
    }

    /// Handles a key event from the host: menu navigation first, then the shell's
    /// shortcuts and the window switcher; what none of them uses is queued for the
    /// focused client. `focused` is the window that has the focus.
    pub fn handle_key(&mut self, key: KeyInput, focused: Option<i32>) -> (r: KeyOutcome)
        requires
            old(self).wf(),
        ensures
            final(self).wf(),
            final(self)@ == key_handled(old(self)@, key, focused).0,
            r == key_handled(old(self)@, key, focused).1,
    {
        let owed = self.take_release(key);
        if self.shortcuts_inhibited {
            if key.scancode == KEY_LEFTMETA || key.scancode == KEY_RIGHTMETA {
                self.super_held = false;
            }
            self.settle(key, owed);
            return KeyOutcome { toggle_theme: false, click: None, consumed: owed };
        }
        let (used, click) = self.handle_menu_key(key);
        let (hot, theme) = self.handle_shortcut(key, focused);
        let tab = self.handle_alt_tab_key(key);
        let consumed = owed || used || hot || tab;
        self.settle(key, consumed);
        KeyOutcome { toggle_theme: theme, click, consumed }
    }
}

proof fn lemma_shortcut_frame(s: ShellView, key: KeyInput, focused: Option<i32>)
    ensures
        ({
            let t = shortcut(s, key, focused).0;
            &&& t.swallowed_key_releases == s.swallowed_key_releases
            &&& t.pending_keys == s.pending_keys
            &&& t.shortcuts_inhibited == s.shortcuts_inhibited
        }),
{
    reveal(super_shortcut);
    reveal(escape_key);
    reveal(compose_key);
}

proof fn lemma_menu_stage_frame(s: ShellView, key: KeyInput)
    ensures
        ({
            let t = menu_stage(s, key).0;
            &&& t.swallowed_key_releases == s.swallowed_key_releases
            &&& t.pending_keys == s.pending_keys
        }),
{
    reveal(menu_stage);
}

proof fn lemma_key_frame(s: ShellView, key: KeyInput, focused: Option<i32>)
    ensures
        ({
            let (t, r) = key_handled(s, key, focused);
            &&& release_owed(s, key) ==> r.consumed
            &&& t.pending_keys == settled(release_taken(s, key), key, r.consumed).pending_keys
            &&& t.swallowed_key_releases == settled(release_taken(s, key), key, r.consumed).swallowed_key_releases
        }),
{
    if !s.shortcuts_inhibited {
        let s1 = release_taken(s, key);
        lemma_menu_stage_frame(s1, key);
        lemma_shortcut_frame(menu_stage(s1, key).0, key, focused);
    }
}

/// A key event either goes to clients, exactly once, or is used by the shell.
pub proof fn law_key_goes_one_way(s: ShellView, key: KeyInput, focused: Option<i32>)
    requires
        key.scancode > 0,
    ensures
        ({
            let (t, r) = key_handled(s, key, focused);
            t.pending_keys == if r.consumed {
                s.pending_keys
            } else {
                s.pending_keys.push(PendingKeyEvent { scancode: key.scancode, pressed: key.pressed })
            }
        }),
{
    lemma_key_frame(s, key, focused);
}

/// A press that the shell used is remembered, and the release of a remembered
/// press never reaches a client; after it the key is forgotten.
pub proof fn law_release_follows_press(s: ShellView, key: KeyInput, focused: Option<i32>)
    requires
        key.scancode > 0,
    ensures
        ({
            let (t, r) = key_handled(s, key, focused);
            &&& key.pressed && r.consumed ==> t.swallowed_key_releases.contains(key.scancode)
            &&& key.pressed && !r.consumed ==> t.swallowed_key_releases == s.swallowed_key_releases
            &&& !key.pressed && s.swallowed_key_releases.contains(key.scancode) ==> r.consumed
                && t.pending_keys == s.pending_keys
            &&& !key.pressed ==> !t.swallowed_key_releases.contains(key.scancode)
        }),
{
    lemma_key_frame(s, key, focused);
}

/// While shortcuts are inhibited the shell uses no press: clients get them all.
pub proof fn law_inhibited_forwards(s: ShellView, key: KeyInput, focused: Option<i32>)
    requires
        s.shortcuts_inhibited,
        key.pressed,
        key.scancode > 0,
    ensures
        ({
            let (t, r) = key_handled(s, key, focused);
            &&& !r.consumed && !r.toggle_theme && r.click is None
            &&& t.pending_keys == s.pending_keys.push(PendingKeyEvent { scancode: key.scancode, pressed: true })
            &&& t.ui == s.ui
            &&& t.pending_close == s.pending_close && t.pending_minimize == s.pending_minimize
        }),
{
}

/// A press that the shell uses is kept from clients until its release, and changes nothing
/// but what it is for.
pub open spec fn kept(s: ShellView, code: u32) -> ShellView {
    ShellView { swallowed_key_releases: s.swallowed_key_releases.insert(code), ..s }
}

/// Super with a letter does what the shell's help lists, to the focused window and to
/// nothing else: W closes it, M minimizes it, I and the slash show or hide an overlay,
/// the space bar the launcher, and T changes the theme.
pub proof fn law_super_shortcuts(s: ShellView, code: u32, focused: Option<i32>)
    requires
        s.super_held,
        !s.shortcuts_inhibited,
        code == 17 || code == 50 || code == 23 || code == 53 || code == 57 || code == 20,
    ensures
        ({
            let key = KeyInput { scancode: code, pressed: true, role: KeyRole::Other };
            let (t, r) = key_handled(s, key, focused);
            let k = kept(s, code);
            &&& r.consumed && r.click is None
            &&& r.toggle_theme <==> code == 20
            &&& code == 20 ==> t == k
            &&& code == 17 && focused is Some ==> t == (ShellView {
                pending_close: s.pending_close.push(focused->0),
                ..k
            })
            &&& code == 50 && focused is Some ==> t == (ShellView {
                pending_minimize: s.pending_minimize.push(focused->0),
                ..k
            })
            &&& (code == 17 || code == 50) && focused is None ==> t == k
            &&& code == 23 ==> t == (ShellView { ui: t.ui, ..k }) && t.ui == (UiView {
                debug_overlay_visible: !s.ui.debug_overlay_visible,
                ..s.ui
            })
            &&& code == 53 ==> t == (ShellView { ui: t.ui, ..k }) && t.ui == (UiView {
                help_overlay_visible: !s.ui.help_overlay_visible,
                ..s.ui
            })
            &&& code == 57 ==> t == (ShellView { ui: t.ui, ..k }) && t.ui == (UiView {
                launcher_open: !s.ui.launcher_open,
                launcher_query: t.ui.launcher_query,
                ..s.ui
            }) && (t.ui.launcher_open ==> t.ui.launcher_query.len() == 0)
        }),
{
    let key = KeyInput { scancode: code, pressed: true, role: KeyRole::Other };
    reveal(super_shortcut);
    reveal(menu_stage);
    assert(!is_nav_key(code));
    let s1 = release_taken(s, key);
    assert(s1 == s);
    let s2 = menu_stage(s1, key).0;
    assert(s2 == s);
}

/// Super and D ask every window to be minimized that is neither minimized nor closing, in
/// their order, and do nothing else.
pub proof fn law_show_desktop(s: ShellView, focused: Option<i32>)
    requires
        s.super_held,
        !s.shortcuts_inhibited,
    ensures
        ({
            let key = KeyInput { scancode: 32, pressed: true, role: KeyRole::Other };
            let (t, r) = key_handled(s, key, focused);
            let shown = s.windows.filter(|w: WindowState| !w.minimized && !w.closing);
            &&& t == (ShellView {
                pending_minimize: s.pending_minimize + shown.map_values(|w: WindowState| w.id),
                ..kept(s, 32)
            })
            &&& r == (KeyOutcome { toggle_theme: false, click: None, consumed: true })
        }),
{
    let key = KeyInput { scancode: 32, pressed: true, role: KeyRole::Other };
    reveal(super_shortcut);
    reveal(menu_stage);
    assert(!is_nav_key(32));
    assert(release_taken(s, key) == s);
    assert(menu_stage(s, key).0 == s);
    lemma_visible_ids(s.windows, s.windows.len() as int);
    assert(s.windows.take(s.windows.len() as int) =~= s.windows);
}

proof fn lemma_visible_ids(windows: Seq<WindowState>, n: int)
    requires
        0 <= n <= windows.len(),
    ensures
        visible_ids(windows, n) == windows.take(n).filter(|w: WindowState| !w.minimized && !w.closing).map_values(
            |w: WindowState| w.id,
        ),
    decreases n,
{
    let shown = |w: WindowState| !w.minimized && !w.closing;
    reveal(Seq::filter);
    if n > 0 {
        lemma_visible_ids(windows, n - 1);
        assert(windows.take(n).drop_last() =~= windows.take(n - 1));
        assert(windows.take(n).last() == windows[n - 1]);
    }
    assert(visible_ids(windows, n) =~= windows.take(n).filter(shown).map_values(|w: WindowState| w.id));
}

/// The Super keys are held from press to release and go on to clients; without Super, and
/// outside of menus, a key that is neither Escape nor the menu key does nothing in the shell.
pub proof fn law_other_keys_pass(s: ShellView, key: KeyInput, focused: Option<i32>)
    requires
        !s.shortcuts_inhibited,
        key.role is Other,
        key.scancode > 0,
        !s.swallowed_key_releases.contains(key.scancode),
        !s.ui.any_menu_open(),
    ensures
        ({
            let (t, r) = key_handled(s, key, focused);
            let sent = s.pending_keys.push(PendingKeyEvent { scancode: key.scancode, pressed: key.pressed });
            let meta = key.scancode == 125 || key.scancode == 126;
            &&& meta ==> t == (ShellView { super_held: key.pressed, pending_keys: sent, ..s }) && !r.consumed
            &&& !meta && (!key.pressed || !s.super_held && key.scancode != 1 && key.scancode != 127) ==> t == (
            ShellView { pending_keys: sent, ..s }) && r == (KeyOutcome {
                toggle_theme: false,
                click: None,
                consumed: false,
            })
        }),
{
    reveal(menu_stage);
    assert(s.swallowed_key_releases.remove(key.scancode) =~= s.swallowed_key_releases);
    if is_nav_key(key.scancode) {
        crate::shell::lemma_no_menu_driven(s.ui);
    }
}

/// Escape closes what it can and is then kept from clients; with nothing to close it goes on
/// to them and changes nothing.
pub proof fn law_escape_closes(s: ShellView, focused: Option<i32>)
    requires
        !s.shortcuts_inhibited,
    ensures
        ({
            let key = KeyInput { scancode: 1, pressed: true, role: KeyRole::Other };
            let (t, r) = key_handled(s, key, focused);
            let open = s.ui.desktop_menu.open || s.ui.dock_menu.open || s.ui.window_menu.open
                || s.ui.datetime_popout_open || s.ui.control_centre_open || s.ui.help_overlay_visible
                || s.ui.launcher_open;
            &&& r.consumed == open && !r.toggle_theme && r.click is None
            &&& !t.ui.desktop_menu.open && !t.ui.dock_menu.open && !t.ui.window_menu.open
            &&& !t.ui.datetime_popout_open && !t.ui.control_centre_open && !t.ui.help_overlay_visible
                && !t.ui.launcher_open
            &&& t.ui.debug_overlay_visible == s.ui.debug_overlay_visible && t.ui.tray_menu == s.ui.tray_menu
            &&& t.pending_close == s.pending_close && t.pending_minimize == s.pending_minimize && t.windows == s.windows
            &&& !open ==> t.ui == s.ui && t.redraw == s.redraw
            &&& open ==> t.redraw
        }),
{
    let key = KeyInput { scancode: 1, pressed: true, role: KeyRole::Other };
    reveal(menu_stage);
    reveal(escape_key);
    assert(!is_nav_key(1));
}

/// The window switcher runs while Alt is held: every Tab takes it a window further and is
/// kept from clients, and letting go of Alt ends it, if it ran, with the window chosen.
pub proof fn law_switcher_runs_while_alt_is_held(s: ShellView)
    ensures
        ({
            let alt_down = KeyInput { scancode: 56, pressed: true, role: KeyRole::Alt };
            let alt_up = KeyInput { scancode: 56, pressed: false, role: KeyRole::Alt };
            let tab = KeyInput { scancode: 15, pressed: true, role: KeyRole::Tab };
            let held = alt_tab(s, alt_down);
            let cycled = alt_tab(held.0, tab);
            let over = alt_tab(cycled.0, alt_up);
            &&& held == (ShellView { alt_held: true, ..s }, false)
            &&& cycled.1 && cycled.0.alt_cycling && cycled.0.alt_held
            &&& s.pending_alt_tab_step < u32::MAX ==> cycled.0.pending_alt_tab_step == s.pending_alt_tab_step + 1
            &&& cycled.0.pending_alt_tab_commit == s.pending_alt_tab_commit
            &&& over.0.pending_alt_tab_commit && !over.0.alt_held && !over.0.alt_cycling && !over.1
            &&& !s.alt_cycling ==> alt_tab(held.0, alt_up).0 == (ShellView { alt_held: false, ..s })
            &&& !s.alt_held && !s.alt_cycling ==> alt_tab(s, tab) == (s, false)
        }),
{
}

/// The menu key opens the menu of the focused window, for that window, from the middle of
/// its content's upper side; without such a window it goes on to clients.
pub proof fn law_menu_key_opens_window_menu(s: ShellView, focused: Option<i32>)
    requires
        !s.shortcuts_inhibited,
    ensures
        ({
            let key = KeyInput { scancode: 127, pressed: true, role: KeyRole::Other };
            let (t, r) = key_handled(s, key, focused);
            match focused {
                Some(id) => match window_of(s.windows, id) {
                    Some(i) => {
                        &&& r.consumed && t.redraw
                        &&& t.ui.window_menu.open && t.ui.window_menu_target_id == id
                        &&& t.ui.desktop_menu == s.ui.desktop_menu && t.ui.dock_menu == s.ui.dock_menu
                            && t.ui.tray_menu == s.ui.tray_menu
                        &&& ({
                            let (x, y) = menu_anchor(&s.windows[i], s.metrics.titlebar_h);
                            let shown = s.windows[i].shown;
                            &&& x.floor + x.ceil == 2 * shown.x + shown.w && x.floor <= x.ceil <= x.floor + 1
                            &&& y.floor == y.ceil == shown.y + s.metrics.titlebar_h
                        })
                    },
                    None => t.ui == s.ui && !r.consumed,
                },
                None => t.ui == s.ui && !r.consumed,
            }
        }),
{
    let key = KeyInput { scancode: 127, pressed: true, role: KeyRole::Other };
    reveal(menu_stage);
    reveal(compose_key);
    assert(!is_nav_key(127));
    if focused is Some {
        crate::windows::lemma_window_from(s.windows, focused->0, 0);
    }
}

} // verus!
