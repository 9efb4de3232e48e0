//! Smaller requests of windows: activation, the bell, icons, tags and dialogs.

use vstd::prelude::*;

use crate::layer_shell::Area;
use crate::num::{sat32, saturate};
use crate::positioner::{
    allows, law_slid_side_is_inside, Positioner, FLIP_X, FLIP_Y, RESIZE_X, RESIZE_Y, SLIDE_X, SLIDE_Y,
};
use crate::state::{map_toplevel, PopupInfo, SpikeState, SpikeView, ToplevelInfo};
use crate::surface::{index_of, position, SurfaceId};

verus! {

/// What a window says of its being a dialog.
#[derive(Clone, Copy, Debug, PartialEq, Eq, Structural)]
pub enum DialogHint {
    Plain,
    Dialog,
    Modal,
}

/// The first window at or after `i` whose role has the protocol id `role`.
pub open spec fn role_from(roles: Seq<Option<u32>>, role: u32, i: int) -> Option<int>
    decreases roles.len() - i,
{
    if i < 0 || i >= roles.len() {
        None
    } else if roles[i] == Some(role) {
        Some(i)
    } else {
        role_from(roles, role, i + 1)
    }
}

fn find_role(roles: &Vec<Option<u32>>, role: u32) -> (r: Option<usize>)
    ensures
        match r {
            Some(i) => i < roles@.len() && role_from(roles@, role, 0) == Some(i as int),
            None => role_from(roles@, role, 0) is None,
        },
{
    let mut i: usize = 0;
    while i < roles.len()
        invariant
            0 <= i <= roles@.len(),
            role_from(roles@, role, 0) == role_from(roles@, role, i as int),
        decreases roles@.len() - i,
    {
        if let Some(r) = roles[i] {
            if r == role {
                return Some(i);
            }
        }
        i += 1;
    }
    None
}

/// The list with its `i`-th window replaced, where there is one.
pub open spec fn replaced(toplevels: Seq<ToplevelInfo>, i: Option<int>, t: ToplevelInfo) -> Seq<ToplevelInfo> {
    match i {
        Some(k) => toplevels.update(k, t),
        None => toplevels,
    }
}

/// The window that role `role` belongs to.
pub open spec fn of_role(s: SpikeView, roles: Seq<Option<u32>>, role: u32) -> ToplevelInfo {
    s.toplevels[role_from(roles, role, 0)->0]
}

/// Where a surface's window is.
pub open spec fn origin_of(s: SpikeView, surface: SurfaceId) -> Option<(i32, i32)> {
    match index_of(s.toplevels, surface) {
        Some(i) => Some((s.toplevels[i].x, s.toplevels[i].y)),
        None => None,
    }
}

/// The output's area, relative to the parent of a popup of the window on `root`.
pub open spec fn target_of(s: SpikeView, root: SurfaceId, w: i32, h: i32, offset_x: i32, offset_y: i32) -> Option<Area> {
    match origin_of(s, root) {
        Some((x, y)) => Some(Area { x: sat32(sat32(-offset_x) - x), y: sat32(sat32(-offset_y) - y), w, h }),
        None => None,
    }
}

/// The window that the popups above `surface` belong to, and where the popup on `surface`
/// lies in it, on top of `(x, y)`: the configured positions of the popups on the way count,
/// and a popup that was not configured counts nothing. Nothing for popups that are their
/// own ancestors.
pub open spec fn root_of(
    popups: Seq<PopupInfo>,
    configured: Seq<Option<Area>>,
    surface: SurfaceId,
    x: i32,
    y: i32,
    hops: nat,
) -> Option<(SurfaceId, i32, i32)>
    decreases hops,
{
    match index_of(popups, surface) {
        Some(i) => if hops == 0 {
            None
        } else {
            let (nx, ny) = match configured[i] {
                Some(g) => (sat32(x + g.x), sat32(y + g.y)),
                None => (x, y),
            };
            root_of(popups, configured, popups[i].parent, nx, ny, (hops - 1) as nat)
        },
        None => Some((surface, x, y)),
    }
}

/// Where a popup of `parent` goes by its rules, on an output of a size.
pub open spec fn popup_place(
    s: SpikeView,
    parent: SurfaceId,
    rules: Positioner,
    configured: Seq<Option<Area>>,
    w: i32,
    h: i32,
) -> Option<Area> {
    match root_of(s.popups, configured, parent, 0, 0, s.popups.len()) {
        Some((root, x, y)) => match target_of(s, root, w, h, x, y) {
            Some(target) => Some(rules.unconstrained(target)),
            None => None,
        },
        None => None,
    }
}

impl SpikeState {
    /// A client asks for the focus. A token without an input event behind it is
    /// ignored, so that no window can put itself in front unasked.
    pub fn request_activation(&mut self, surface: SurfaceId, has_serial: bool) -> (granted: bool)
        ensures
            granted == has_serial,
            final(self)@ == activation_asked(old(self)@, surface, has_serial),
    {
        if !has_serial {
            return false;
        }
        self.active_surface = Some(surface);
        true
    }

    /// A client rings the bell: its window flashes, or the focused one where it
    /// names none.
    pub fn ring(&mut self, surface: Option<SurfaceId>)
        ensures
            final(self)@ == rung(old(self)@, surface),
    {
        self.pending_bell = match surface {
            Some(s) => Some(s),
            None => self.active_surface,
        };
    }

    /// A window got a themed icon, or none. `roles` holds the protocol id of each
    /// window's role, for those that have set their title.
    pub fn set_icon(&mut self, roles: &Vec<Option<u32>>, role: u32, name: Option<String>)
        requires
            roles@.len() == old(self)@.toplevels.len(),
        ensures
            final(self)@ == (SpikeView {
                toplevels: replaced(
                    old(self)@.toplevels,
                    role_from(roles@, role, 0),
                    ToplevelInfo { icon_name: name, ..of_role(old(self)@, roles@, role) },
                ),
                ..old(self)@
            }),
    {
        if let Some(i) = find_role(roles, role) {
            self.toplevels[i].icon_name = name;
        }
    }

    /// A window got a tag. `roles` holds the protocol id of each window's role.
    pub fn set_tag(&mut self, roles: &Vec<Option<u32>>, role: u32, tag: String)
        requires
            roles@.len() == old(self)@.toplevels.len(),
        ensures
            final(self)@ == (SpikeView {
                toplevels: replaced(
                    old(self)@.toplevels,
                    role_from(roles@, role, 0),
                    ToplevelInfo { tag: Some(tag), ..of_role(old(self)@, roles@, role) },
                ),
                ..old(self)@
            }),
    {
        if let Some(i) = find_role(roles, role) {
            self.toplevels[i].tag = Some(tag);
        }
    }

    /// A window got a description. `roles` holds the protocol id of each window's
    /// role.
    pub fn set_description(&mut self, roles: &Vec<Option<u32>>, role: u32, description: String)
        requires
            roles@.len() == old(self)@.toplevels.len(),
        ensures
            final(self)@ == (SpikeView {
                toplevels: replaced(
                    old(self)@.toplevels,
                    role_from(roles@, role, 0),
                    ToplevelInfo { description: Some(description), ..of_role(old(self)@, roles@, role) },
                ),
                ..old(self)@
            }),
    {
        if let Some(i) = find_role(roles, role) {
            self.toplevels[i].description = Some(description);
        }
    }

    /// A window says whether it is a dialog.
    pub fn dialog_hint_changed(&mut self, surface: SurfaceId, hint: DialogHint)
        ensures
            final(self)@ == dialog_marked(old(self)@, surface, hint),
    {
        if let Some(i) = position(&self.toplevels, surface) {
            self.toplevels[i].is_dialog = hint != DialogHint::Plain;
        }
        assert(self.toplevels@ =~= map_toplevel(
            old(self)@.toplevels,
            surface,
            |t: ToplevelInfo| ToplevelInfo { is_dialog: hint != DialogHint::Plain, ..t },
        ));
    }

    /// Where the window of `surface` is. A position that a client gives within
    /// its surface, for the pointer or for a hint, counts from there.
    pub fn surface_origin(&self, surface: SurfaceId) -> (r: Option<(i32, i32)>)
        ensures
            r == origin_of(self@, surface),
    {
        match position(&self.toplevels, surface) {
            Some(i) => Some((self.toplevels[i].x, self.toplevels[i].y)),
            None => None,
        }
    }

    /// Where an input method's popup is anchored: the corner of its parent
    /// window.
    pub fn parent_geometry(&self, parent: SurfaceId) -> (r: Area)
        ensures
            r == place_of_parent(self@, parent),
    {
        match self.surface_origin(parent) {
            Some((x, y)) => Area { x, y, w: 1, h: 1 },
            None => Area { x: 0, y: 0, w: 0, h: 0 },
        }
    }

    fn find_root(&self, parent: SurfaceId, configured: &Vec<Option<Area>>) -> (r: Option<(SurfaceId, i32, i32)>)
        requires
            configured@.len() == self@.popups.len(),
        ensures
            r == root_of(self@.popups, configured@, parent, 0, 0, self@.popups.len()),
    {
        let mut surface: SurfaceId = parent;
        let mut x: i32 = 0;
        let mut y: i32 = 0;
        let mut hops: usize = self.popups.len();
        loop
            invariant
                configured@.len() == self.popups@.len(),
                root_of(self.popups@, configured@, parent, 0, 0, self.popups@.len()) == root_of(
                    self.popups@,
                    configured@,
                    surface,
                    x,
                    y,
                    hops as nat,
                ),
            decreases hops,
        {
            match position(&self.popups, surface) {
                Some(i) => {
                    if hops == 0 {
                        return None;
                    }
                    if let Some(g) = configured[i] {
                        x = saturate(x as i64 + g.x as i64);
                        y = saturate(y as i64 + g.y as i64);
                    }
                    surface = self.popups[i].parent;
                    hops -= 1;
                },
                None => {
                    return Some((surface, x, y));
                },
            }
        }
    }

    /// The output's area as a popup's positioner sees it: relative to the popup's
    /// parent, which is `(offset_x, offset_y)` inside the window of `root`. None
    /// without that window.
    fn popup_target(&self, root: SurfaceId, output_w: i32, output_h: i32, offset_x: i32, offset_y: i32) -> (r: Option<
        Area,
    >)
        ensures
            r == target_of(self@, root, output_w, output_h, offset_x, offset_y),
    {
        match self.surface_origin(root) {
            Some((x, y)) => {
                let left: i32 = saturate(-(offset_x as i64));
                let top: i32 = saturate(-(offset_y as i64));
                Some(
                    Area {
                        x: saturate(left as i64 - x as i64),
                        y: saturate(top as i64 - y as i64),
                        w: output_w,
                        h: output_h,
                    },
                )
            },
            None => None,
        }
    }

    /// Places a popup of `parent` by its rules so that it stays on the output, as far as
    /// its client allows. `configured` holds the geometry that each popup was last
    /// configured with and has drawn. None where the popup belongs to no window.
    pub fn unconstrain_popup(
        &self,
        parent: SurfaceId,
        rules: &Positioner,
        configured: &Vec<Option<Area>>,
        output_w: i32,
        output_h: i32,
    ) -> (r: Option<Area>)
        requires
            rules.adjustable(),
            configured@.len() == self@.popups.len(),
        ensures
            r == popup_place(self@, parent, *rules, configured@, output_w, output_h),
    {
        match self.find_root(parent, configured) {
            Some((root, x, y)) => match self.popup_target(root, output_w, output_h, x, y) {
                Some(target) => Some(rules.unconstrained_geometry(target)),
                None => None,
            },
            None => None,
        }
    }
}

/// A popup of a window that may slide and is no larger than the output lies on the
/// output, unless a position leaves the number range.
pub proof fn law_popup_stays_on_output(
    s: SpikeView,
    parent: SurfaceId,
    rules: Positioner,
    configured: Seq<Option<Area>>,
    w: i32,
    h: i32,
)
    requires
        rules.adjustable(),
        allows(rules.adjustment, SLIDE_X),
        allows(rules.adjustment, SLIDE_Y),
        rules.w <= w,
        rules.h <= h,
        root_of(s.popups, configured, parent, 0, 0, s.popups.len()) matches Some((root, px, py)) && px > i32::MIN && py
            > i32::MIN && (origin_of(s, root) matches Some((x, y)) && i32::MIN <= -px - x <= i32::MAX && i32::MIN <= -py
            - y <= i32::MAX),
    ensures
        ({
            let (root, px, py) = root_of(s.popups, configured, parent, 0, 0, s.popups.len())->0;
            let (x, y) = origin_of(s, root)->0;
            let place = popup_place(s, parent, rules, configured, w, h)->0;
            &&& popup_place(s, parent, rules, configured, w, h) is Some
            &&& 0 <= x + px + place.x && x + px + place.x + place.w <= w
            &&& 0 <= y + py + place.y && y + py + place.y + place.h <= h
        }),
{
    let (root, px, py) = root_of(s.popups, configured, parent, 0, 0, s.popups.len())->0;
    let t = target_of(s, root, w, h, px, py)->0;
    law_slid_side_is_inside(
        rules.left(),
        rules.flipped_x().left(),
        rules.w as int,
        t.x as int,
        t.w as int,
        allows(rules.adjustment, FLIP_X),
        allows(rules.adjustment, RESIZE_X),
    );
    law_slid_side_is_inside(
        rules.top(),
        rules.flipped_y().top(),
        rules.h as int,
        t.y as int,
        t.h as int,
        allows(rules.adjustment, FLIP_Y),
        allows(rules.adjustment, RESIZE_Y),
    );
    law_target_is_output(s, root, w, h, px, py, rules.unconstrained(t));
}

/// A popup that lies inside the area its positioner is given lies on the output,
/// unless a position leaves the number range.
pub proof fn law_target_is_output(
    s: SpikeView,
    root: SurfaceId,
    w: i32,
    h: i32,
    offset_x: i32,
    offset_y: i32,
    popup: Area,
)
    requires
        origin_of(s, root) matches Some((x, y)) && i32::MIN <= -offset_x - x <= i32::MAX && i32::MIN <= -offset_y - y
            <= i32::MAX,
        offset_x > i32::MIN,
        offset_y > i32::MIN,
    ensures
        ({
            let (x, y) = origin_of(s, root)->0;
            let t = target_of(s, root, w, h, offset_x, offset_y)->0;
            let inside = t.x <= popup.x && popup.x + popup.w <= t.x + t.w && t.y <= popup.y && popup.y + popup.h <= t.y
                + t.h;
            inside <==> 0 <= x + offset_x + popup.x && x + offset_x + popup.x + popup.w <= w && 0 <= y + offset_y
                + popup.y && y + offset_y + popup.y + popup.h <= h
        }),
{
}

/// The state once a client asked for a surface to be activated.
pub open spec fn activation_asked(s: SpikeView, surface: SurfaceId, has_serial: bool) -> SpikeView {
    SpikeView {
        active_surface: if has_serial {
            Some(surface)
        } else {
            s.active_surface
        },
        ..s
    }
}

/// The state once the bell was rung for a surface, or for no one in particular.
pub open spec fn rung(s: SpikeView, surface: Option<SurfaceId>) -> SpikeView {
    SpikeView {
        pending_bell: if surface is Some {
            surface
        } else {
            s.active_surface
        },
        ..s
    }
}

/// The place of a surface that others belong to.
pub open spec fn place_of_parent(s: SpikeView, parent: SurfaceId) -> Area {
    match origin_of(s, parent) {
        Some((x, y)) => Area { x, y, w: 1, h: 1 },
        None => Area { x: 0, y: 0, w: 0, h: 0 },
    }
}

/// The state once a window was marked as a dialog, or not.
pub open spec fn dialog_marked(s: SpikeView, surface: SurfaceId, hint: DialogHint) -> SpikeView {
    SpikeView {
        toplevels: map_toplevel(
            s.toplevels,
            surface,
            |t: ToplevelInfo| ToplevelInfo { is_dialog: hint != DialogHint::Plain, ..t },
        ),
        ..s
    }
}

/// A surface is only activated for a client that can show what the user did; the bell rings
/// for the surface it was rung for, or for the active one; a window is a dialog as long as its
/// client says so, and positions in a window count from its corner.
pub proof fn law_requests_reach_their_window(s: SpikeView, surface: SurfaceId, hint: DialogHint)
    ensures
        activation_asked(s, surface, false) == s,
        activation_asked(s, surface, true) == (SpikeView { active_surface: Some(surface), ..s }),
        rung(s, Some(surface)).pending_bell == Some(surface),
        rung(s, None).pending_bell == s.active_surface,
        index_of(s.toplevels, surface) matches Some(i) ==> {
            &&& place_of_parent(s, surface).x == s.toplevels[i].x && place_of_parent(s, surface).y == s.toplevels[i].y
            &&& dialog_marked(s, surface, hint).toplevels[i].is_dialog <==> hint is Dialog || hint is Modal
            &&& forall|k: int|
                0 <= k < s.toplevels.len() && k != i ==> #[trigger] dialog_marked(s, surface, hint).toplevels[k]
                    == s.toplevels[k]
        },
        index_of(s.toplevels, surface) is None ==> dialog_marked(s, surface, hint) == s,
{
    crate::surface::lemma_index_of(s.toplevels, surface);
}

/// The window with a role is found where one has it, and no other is changed.
pub proof fn law_role_is_found(roles: Seq<Option<u32>>, role: u32, from: int)
    requires
        0 <= from <= roles.len(),
    ensures
        match role_from(roles, role, from) {
            Some(i) => from <= i < roles.len() && roles[i] == Some(role),
            None => forall|k: int| from <= k < roles.len() ==> #[trigger] roles[k] != Some(role),
        },
    decreases roles.len() - from,
{
    if from < roles.len() && roles[from] != Some(role) {
        law_role_is_found(roles, role, from + 1);
    }
}

/// A popup of a window counts from the window; one of a popup from that popup's place.
pub proof fn law_root_of_popups(
    popups: Seq<PopupInfo>,
    configured: Seq<Option<Area>>,
    surface: SurfaceId,
    x: i32,
    y: i32,
    hops: nat,
)
    requires
        hops > 0,
    ensures
        index_of(popups, surface) is None ==> root_of(popups, configured, surface, x, y, hops) == Some((surface, x, y)),
        index_of(popups, surface) matches Some(i) ==> (configured[i] matches Some(g) ==> i32::MIN <= x + g.x <= i32::MAX
            && i32::MIN <= y + g.y <= i32::MAX ==> root_of(popups, configured, surface, x, y, hops) == root_of(
            popups,
            configured,
            popups[i].parent,
            (x + g.x) as i32,
            (y + g.y) as i32,
            (hops - 1) as nat,
        )),
{
}

} // verus!
