//! Keyboard focus, pointer grabs, and drag and drop.

use vstd::prelude::*;

use crate::keyboard::PendingKeyEvent;
use crate::pixels::ClientSurfaceData;
use crate::session_lock::key_target;
use crate::state::{blank_pixels, Backing, CursorStatus, DndIcon, SpikeState, SpikeView, ToplevelInfo};
use crate::surface::SurfaceId;
use crate::text::same_text;

verus! {

/// What a change of the focus asks of a window's client.
#[derive(Clone, Copy, Debug, PartialEq, Eq, Structural)]
pub enum Activation {
    /// A native window is told of its new state.
    Configure(SurfaceId),
    /// An X11 window is marked as active or not.
    X11 { window: u32, active: bool },
}

/// What window `t` is told when `focused` gets the focus.
pub open spec fn activation(t: ToplevelInfo, focused: Option<SurfaceId>) -> Option<Activation> {
    let active = focused == Some(t.surface);
    match t.backing {
        Backing::Xdg { initial_configure_sent } => if t.activated != active && initial_configure_sent {
            Some(Activation::Configure(t.surface))
        } else {
            None
        },
        Backing::X11 { window, .. } => Some(Activation::X11 { window, active }),
    }
}

/// What the first `n` windows are told.
pub open spec fn activations(toplevels: Seq<ToplevelInfo>, focused: Option<SurfaceId>, n: int) -> Seq<Activation>
    decreases n,
{
    if n <= 0 {
        Seq::empty()
    } else {
        let told = activations(toplevels, focused, n - 1);
        match activation(toplevels[n - 1], focused) {
            Some(a) => told.push(a),
            None => told,
        }
    }
}

/// The windows, with only the focused one active.
pub open spec fn activated_on(toplevels: Seq<ToplevelInfo>, focused: Option<SurfaceId>) -> Seq<ToplevelInfo> {
    Seq::new(
        toplevels.len(),
        |i: int| ToplevelInfo { activated: focused == Some(toplevels[i].surface), ..toplevels[i] },
    )
}

/// A grab of the pointer or of a touch point.
#[derive(Clone, Copy, Debug, PartialEq, Eq, Structural)]
pub struct Grab {
    /// The grab is active for the serial in question.
    pub active: bool,
    /// The client that had the focus when it started.
    pub focus_client: Option<u64>,
}

/// Whether a grab was started on a surface of `client`.
pub open spec fn grab_by(grab: Option<Grab>, client: u64) -> bool {
    grab matches Some(g) && g.active && g.focus_client == Some(client)
}

fn is_grab_by(grab: Option<Grab>, client: u64) -> (r: bool)
    ensures
        r == grab_by(grab, client),
{
    match grab {
        Some(g) => match g.focus_client {
            Some(c) => g.active && c == client,
            None => false,
        },
        None => false,
    }
}

/// The title and application that a window shows to taskbars.
#[derive(Debug)]
pub struct Advertised {
    pub title: String,
    pub app_id: String,
}

/// What of a window's entry is announced anew; then the entry is complete again.
#[derive(Clone, Copy, Debug, PartialEq, Eq, Structural)]
pub struct ForeignUpdate {
    pub surface: SurfaceId,
    pub title: bool,
    pub app_id: bool,
}

/// What is announced of window `t`, which has an entry where `now` is there.
pub open spec fn foreign_update(t: ToplevelInfo, now: Option<Advertised>) -> Option<ForeignUpdate> {
    match now {
        Some(a) => {
            let title = a.title@ != t.last_advertised_title@;
            let app_id = a.app_id@ != t.last_advertised_app_id@;
            if title || app_id {
                Some(ForeignUpdate { surface: t.surface, title, app_id })
            } else {
                None
            }
        },
        None => None,
    }
}

pub open spec fn foreign_updates(toplevels: Seq<ToplevelInfo>, now: Seq<Option<Advertised>>, n: int) -> Seq<ForeignUpdate>
    decreases n,
{
    if n <= 0 {
        Seq::empty()
    } else {
        let updates = foreign_updates(toplevels, now, n - 1);
        match foreign_update(toplevels[n - 1], now[n - 1]) {
            Some(u) => updates.push(u),
            None => updates,
        }
    }
}

/// Whether `after` is `before` with what was announced last brought up to date.
pub open spec fn advertised(before: ToplevelInfo, after: ToplevelInfo, now: Option<Advertised>) -> bool {
    &&& before == ToplevelInfo {
        last_advertised_title: before.last_advertised_title,
        last_advertised_app_id: before.last_advertised_app_id,
        ..after
    }
    &&& match now {
        Some(a) => after.last_advertised_title@ == a.title@ && after.last_advertised_app_id@ == a.app_id@,
        None => after == before,
    }
}

/// Keycodes are this much larger than the scancodes of the kernel.
pub const KEYCODE_OFFSET: u32 = 8;

/// A key on its way to a client.
#[derive(Clone, Copy, Debug, PartialEq, Eq, Structural)]
pub struct KeyForward {
    pub surface: SurfaceId,
    /// The keyboard has another focus, which moves to the surface first.
    pub set_focus: bool,
    pub keycode: u32,
    pub pressed: bool,
}

impl SpikeState {
    /// Where a key goes, if anywhere: `lock_surface` is the lock surface under the
    /// pointer, `current` the surface that has the keyboard.
    pub fn forward_keyboard_event(
        &self,
        key: PendingKeyEvent,
        lock_surface: Option<SurfaceId>,
        current: Option<SurfaceId>,
    ) -> (r: Option<KeyForward>)
        requires
            key.scancode + KEYCODE_OFFSET <= u32::MAX,
        ensures
            r == key_forward(self@, key, lock_surface, current),
    {
        match self.keyboard_target(lock_surface) {
            Some(surface) => {
                let set_focus: bool = match current {
                    Some(c) => c != surface,
                    None => true,
                };
                Some(
                    KeyForward { surface, set_focus, keycode: key.scancode + KEYCODE_OFFSET, pressed: key.pressed },
                )
            },
            None => None,
        }
    }

    /// The keyboard focus moved to `focused`: the focused window is active, every
    /// other one is not. Returns what their clients are told.
    pub fn focus_changed(&mut self, focused: Option<SurfaceId>) -> (told: Vec<Activation>)
        ensures
            told@ == activations(old(self)@.toplevels, focused, old(self)@.toplevels.len() as int),
            final(self)@ == (SpikeView { toplevels: activated_on(old(self)@.toplevels, focused), ..old(self)@ }),
    {
        let mut told: Vec<Activation> = Vec::new();
        let n: usize = self.toplevels.len();
        let mut i: usize = 0;
        while i < n
            invariant
                0 <= i <= n,
                n == self.toplevels@.len(),
                n == old(self)@.toplevels.len(),
                self@ == (SpikeView { toplevels: self@.toplevels, ..old(self)@ }),
                forall|k: int|
                    0 <= k < i ==> #[trigger] self.toplevels@[k] == activated_on(old(self)@.toplevels, focused)[k],
                forall|k: int| i <= k < n ==> #[trigger] self.toplevels@[k] == old(self)@.toplevels[k],
                told@ == activations(old(self)@.toplevels, focused, i as int),
            decreases n - i,
        {
            let active: bool = match focused {
                Some(f) => f == self.toplevels[i].surface,
                None => false,
            };
            match self.toplevels[i].backing {
                Backing::Xdg { initial_configure_sent } => {
                    if self.toplevels[i].activated != active && initial_configure_sent {
                        told.push(Activation::Configure(self.toplevels[i].surface));
                    }
                },
                Backing::X11 { window, .. } => {
                    told.push(Activation::X11 { window, active });
                },
            }
            self.toplevels[i].activated = active;
            i += 1;
        }
        assert(self.toplevels@ =~= activated_on(old(self)@.toplevels, focused));
        told
    }

    /// Whether `client` may start an interactive move or resize: it does so in
    /// answer to a press on one of its surfaces that is still held. `seat_known`
    /// tells that the request names our seat.
    pub fn validate_grab_serial(&self, seat_known: bool, pointer: Option<Grab>, touch: Option<Grab>, client: u64) -> (r: bool)
        ensures
            r == grab_valid(seat_known, pointer, touch, client),
    {
        seat_known && (is_grab_by(pointer, client) || is_grab_by(touch, client))
    }

    /// Whether a constraint on the pointer takes effect at once: only where the
    /// pointer is on that surface.
    pub fn new_constraint(&self, surface: SurfaceId, pointer_focus: Option<SurfaceId>) -> (activate: bool)
        ensures
            activate == (pointer_focus == Some(surface)),
    {
        match pointer_focus {
            Some(f) => f == surface,
            None => false,
        }
    }

    /// The focused client wants another pointer, with the hotspot that it set for it.
    pub fn cursor_image(&mut self, image: CursorStatus, hotspot: Option<(i32, i32)>)
        ensures
            final(self)@ == (SpikeView { cursor_status: image, cursor_hotspot: hotspot, ..old(self)@ }),
    {
        self.cursor_status = image;
        self.cursor_hotspot = hotspot;
    }

    /// A client starts a drag, perhaps with an icon. The icon's hotspot is that
    /// of the client's pointer, where it has one.
    pub fn dnd_requested(&mut self, icon: Option<SurfaceId>)
        ensures
            final(self)@ == icon_dragged(old(self)@, icon),
    {
        let (offset_x, offset_y): (i32, i32) = match self.cursor_status {
            CursorStatus::Surface(_) => match self.cursor_hotspot {
                Some(h) => h,
                None => (0, 0),
            },
            _ => (0, 0),
        };
        self.dnd_icon = match icon {
            Some(surface) => Some(DndIcon { surface, offset_x, offset_y }),
            None => None,
        };
    }

    /// The drag is over, dropped or cancelled: nothing of its icon is left.
    pub fn dnd_ended(&mut self)
        ensures
            final(self)@ == icon_dropped(old(self)@),
    {
        self.dnd_icon = None;
        self.dnd_icon_pixels = ClientSurfaceData::default();
    }

    /// Brings the windows' entries in taskbars up to date. `now` holds what each
    /// window shows, for those that have an entry. Returns what is announced.
    pub fn sync_foreign_toplevels(&mut self, now: &Vec<Option<Advertised>>) -> (updates: Vec<ForeignUpdate>)
        requires
            now@.len() == old(self)@.toplevels.len(),
        ensures
            updates@ == foreign_updates(old(self)@.toplevels, now@, now@.len() as int),
            final(self)@ == (SpikeView { toplevels: final(self)@.toplevels, ..old(self)@ }),
            final(self)@.toplevels.len() == old(self)@.toplevels.len(),
            forall|i: int|
                0 <= i < now@.len() ==> advertised(
                    old(self)@.toplevels[i],
                    #[trigger] final(self)@.toplevels[i],
                    now@[i],
                ),
    {
        let mut updates: Vec<ForeignUpdate> = Vec::new();
        let n: usize = now.len();
        let mut i: usize = 0;
        while i < n
            invariant
                0 <= i <= n,
                n == now@.len(),
                n == self.toplevels@.len(),
                n == old(self)@.toplevels.len(),
                self@ == (SpikeView { toplevels: self@.toplevels, ..old(self)@ }),
                forall|k: int|
                    0 <= k < i ==> advertised(old(self)@.toplevels[k], #[trigger] self.toplevels@[k], now@[k]),
                forall|k: int| i <= k < n ==> #[trigger] self.toplevels@[k] == old(self)@.toplevels[k],
                updates@ == foreign_updates(old(self)@.toplevels, now@, i as int),
            decreases n - i,
        {
            if let Some(a) = &now[i] {
                let title: bool = !same_text(a.title.as_str(), self.toplevels[i].last_advertised_title.as_str());
                let app_id: bool = !same_text(a.app_id.as_str(), self.toplevels[i].last_advertised_app_id.as_str());
                if title {
                    self.toplevels[i].last_advertised_title = a.title.clone();
                }
                if app_id {
                    self.toplevels[i].last_advertised_app_id = a.app_id.clone();
                }
                if title || app_id {
                    updates.push(ForeignUpdate { surface: self.toplevels[i].surface, title, app_id });
                }
            }
            i += 1;
        }
        updates
    }
}

/// After the focus moved, a window is active exactly if it has the focus.
pub proof fn law_only_focus_is_active(toplevels: Seq<ToplevelInfo>, focused: Option<SurfaceId>, i: int)
    requires
        0 <= i < toplevels.len(),
    ensures
        activated_on(toplevels, focused)[i].activated <==> focused == Some(toplevels[i].surface),
{
}

/// Moving the focus to where it is configures no native window.
pub proof fn law_same_focus_is_quiet(toplevels: Seq<ToplevelInfo>, focused: Option<SurfaceId>, n: int, k: int)
    requires
        0 <= n <= toplevels.len(),
        0 <= k < activations(activated_on(toplevels, focused), focused, n).len(),
    ensures
        activations(activated_on(toplevels, focused), focused, n)[k] is X11,
    decreases n,
{
    if n > 0 {
        let told = activations(activated_on(toplevels, focused), focused, n - 1);
        if k < told.len() {
            law_same_focus_is_quiet(toplevels, focused, n - 1, k);
        }
    }
}

/// What was announced is not announced again.
pub proof fn law_announced_once(before: ToplevelInfo, after: ToplevelInfo, now: Option<Advertised>)
    requires
        advertised(before, after, now),
    ensures
        foreign_update(after, now) is None,
{
}

/// Where a key goes, and how.
pub open spec fn key_forward(
    s: SpikeView,
    key: PendingKeyEvent,
    lock_surface: Option<SurfaceId>,
    current: Option<SurfaceId>,
) -> Option<KeyForward> {
    match key_target(s, lock_surface) {
        Some(surface) => Some(
            KeyForward {
                surface,
                set_focus: current != Some(surface),
                keycode: (key.scancode + KEYCODE_OFFSET) as u32,
                pressed: key.pressed,
            },
        ),
        None => None,
    }
}

/// Whether a drag may begin from a press that a client saw.
pub open spec fn grab_valid(seat_known: bool, pointer: Option<Grab>, touch: Option<Grab>, client: u64) -> bool {
    seat_known && (grab_by(pointer, client) || grab_by(touch, client))
}

/// The state once a drag with an icon has begun.
pub open spec fn icon_dragged(s: SpikeView, icon: Option<SurfaceId>) -> SpikeView {
    SpikeView {
        dnd_icon: match icon {
            Some(surface) => Some(
                match (s.cursor_status, s.cursor_hotspot) {
                    (CursorStatus::Surface(_), Some((x, y))) => DndIcon { surface, offset_x: x, offset_y: y },
                    _ => DndIcon { surface, offset_x: 0, offset_y: 0 },
                },
            ),
            None => None,
        },
        ..s
    }
}

/// The state once the drag is over.
pub open spec fn icon_dropped(s: SpikeView) -> SpikeView {
    SpikeView { dnd_icon: None, dnd_icon_pixels: blank_pixels(), ..s }
}

/// A key goes to a layer surface that has the keyboard alone, else to the active window,
/// and while the session is locked to the lock surface only. It goes there under the code
/// that clients know, which is 8 more than the host's, and the surface gets the focus first
/// if it does not have it.
pub proof fn law_key_reaches_focus(
    s: SpikeView,
    key: PendingKeyEvent,
    lock_surface: Option<SurfaceId>,
    current: Option<SurfaceId>,
)
    requires
        key.scancode + 8 <= u32::MAX,
    ensures
        ({
            let to = if s.session_locked {
                lock_surface
            } else {
                match crate::layer_shell::keyboard_owner(s.layer_surfaces) {
                    Some(layer) => Some(layer),
                    None => s.active_surface,
                }
            };
            match key_forward(s, key, lock_surface, current) {
                Some(f) => to == Some(f.surface) && f.keycode == key.scancode + 8 && f.pressed == key.pressed
                    && (f.set_focus <==> current != to),
                None => to is None,
            }
        }),
{
}

/// A drag may begin only from a press that is still held and that the client itself got.
pub proof fn law_grab_is_the_clients_own(seat_known: bool, pointer: Option<Grab>, touch: Option<Grab>, client: u64)
    ensures
        grab_valid(seat_known, pointer, touch, client) <==> seat_known && ((pointer is Some && (pointer->0).active
            && (pointer->0).focus_client == Some(client)) || (touch is Some && (touch->0).active && (
        touch->0).focus_client == Some(client))),
{
}

/// A dragged icon is shown where the pointer's own image was held, and at the pointer where
/// it had none; after the drag there is no icon.
pub proof fn law_icon_lives_as_long_as_the_drag(s: SpikeView, icon: Option<SurfaceId>)
    ensures
        ({
            let t = icon_dragged(s, icon);
            &&& icon matches Some(surface) ==> t.dnd_icon matches Some(i) && i.surface == surface && (s.cursor_status
                is Surface && s.cursor_hotspot is Some ==> (i.offset_x, i.offset_y) == s.cursor_hotspot->0) && (!(
            s.cursor_status is Surface) || s.cursor_hotspot is None ==> i.offset_x == 0 && i.offset_y == 0)
            &&& icon is None ==> t.dnd_icon is None
            &&& icon_dropped(t).dnd_icon is None && icon_dropped(t).toplevels == s.toplevels
        }),
{
}

/// A native window is told when it becomes active or stops being so, once it is configured
/// at all; no other is told. X11 windows are always told where the focus is.
pub proof fn law_focus_is_told(toplevels: Seq<ToplevelInfo>, focused: Option<SurfaceId>, n: int)
    requires
        0 <= n <= toplevels.len(),
    ensures
        forall|i: int|
            0 <= i < n ==> {
                let t = #[trigger] toplevels[i];
                let active = focused == Some(t.surface);
                match t.backing {
                    Backing::Xdg { initial_configure_sent } => initial_configure_sent && t.activated != active
                        ==> activations(toplevels, focused, n).contains(Activation::Configure(t.surface)),
                    Backing::X11 { window, .. } => activations(toplevels, focused, n).contains(
                        Activation::X11 { window, active },
                    ),
                }
            },
        forall|k: int|
            0 <= k < activations(toplevels, focused, n).len() ==> match #[trigger] activations(toplevels, focused, n)[k] {
                Activation::Configure(surface) => exists|i: int|
                    0 <= i < n && (#[trigger] toplevels[i]).surface == surface && toplevels[i].activated != (focused
                        == Some(surface)),
                Activation::X11 { window, active } => exists|i: int|
                    0 <= i < n && (#[trigger] toplevels[i]).backing is X11 && toplevels[i].backing->window == window
                        && active == (focused == Some(toplevels[i].surface)),
            },
    decreases n,
{
    if n > 0 {
        law_focus_is_told(toplevels, focused, n - 1);
        let before = activations(toplevels, focused, n - 1);
        let all = activations(toplevels, focused, n);
        assert forall|a: Activation| #[trigger] before.contains(a) implies all.contains(a) by {
            let k = choose|k: int| 0 <= k < before.len() && before[k] == a;
            assert(all[k] == a);
        }
        if let Some(a) = activation(toplevels[n - 1], focused) {
            assert(all[before.len() as int] == a);
            assert(all.contains(a));
        }
        assert forall|k: int| 0 <= k < all.len() implies match #[trigger] all[k] {
            Activation::Configure(surface) => exists|i: int|
                0 <= i < n && (#[trigger] toplevels[i]).surface == surface && toplevels[i].activated != (focused == Some(
                    surface,
                )),
            Activation::X11 { window, active } => exists|i: int|
                0 <= i < n && (#[trigger] toplevels[i]).backing is X11 && toplevels[i].backing->window == window && active
                    == (focused == Some(toplevels[i].surface)),
        } by {
            if k < before.len() {
                assert(all[k] == before[k]);
            } else {
                assert(toplevels[n - 1].surface == toplevels[n - 1].surface);
            }
        }
    }
}

/// Other programs hear of a window's name or application exactly when it has changed.
pub proof fn law_news_of_windows(t: ToplevelInfo, now: Advertised)
    ensures
        match foreign_update(t, Some(now)) {
            Some(u) => u.surface == t.surface && (u.title <==> now.title@ != t.last_advertised_title@) && (u.app_id
                <==> now.app_id@ != t.last_advertised_app_id@) && (u.title || u.app_id),
            None => now.title@ == t.last_advertised_title@ && now.app_id@ == t.last_advertised_app_id@,
        },
        foreign_update(t, None) is None,
{
}

/// Every window with news is told of, in the order of the windows, and no other.
pub proof fn law_all_news_are_told(toplevels: Seq<ToplevelInfo>, now: Seq<Option<Advertised>>, n: int)
    requires
        0 <= n,
    ensures
        foreign_updates(toplevels, now, n) == Seq::new(n as nat, |i: int| foreign_update(toplevels[i], now[i])).filter(
            |u: Option<ForeignUpdate>| u is Some,
        ).map_values(|u: Option<ForeignUpdate>| u->0),
    decreases n,
{
    reveal(Seq::filter);
    let all = Seq::new(n as nat, |i: int| foreign_update(toplevels[i], now[i]));
    let is_news = |u: Option<ForeignUpdate>| u is Some;
    let told = |u: Option<ForeignUpdate>| u->0;
    if n > 0 {
        law_all_news_are_told(toplevels, now, n - 1);
        let before = Seq::new((n - 1) as nat, |i: int| foreign_update(toplevels[i], now[i]));
        assert(all.drop_last() =~= before);
        let rest = before.filter(is_news);
        let u = foreign_update(toplevels[n - 1], now[n - 1]);
        assert(all.last() == u);
        if u is Some {
            assert(rest.push(u).map_values(told) =~= rest.map_values(told).push(u->0));
        }
    } else {
        assert(foreign_updates(toplevels, now, n) =~= all.filter(is_news).map_values(told));
    }
}

} // verus!
