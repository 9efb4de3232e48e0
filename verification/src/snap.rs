//! Window snap zones: a window dragged to a screen edge previews, and on release
//! takes, a half, a quarter or the whole of the work area.

use vstd::prelude::*;

use crate::cursor::Coord;
use crate::num::{max_i32, max_int};

verus! {

/// Width of the snap band along each screen edge, in logical pixels.
pub const SNAP_BAND_PX: i64 = 12;

/// Windows are never snapped to less than this.
pub const MIN_USABLE: i32 = 100;

/// The part of the output that windows may cover.
#[derive(Clone, Copy, Debug, PartialEq, Eq, Structural)]
pub struct WorkArea {
    pub x: i32,
    pub y: i32,
    pub w: i32,
    pub h: i32,
}

#[derive(Clone, Copy, Debug, PartialEq, Eq, Structural)]
pub enum SnapZone {
    Maximize,
    LeftHalf,
    RightHalf,
    TopLeftQuarter,
    TopRightQuarter,
    BottomLeftQuarter,
    BottomRightQuarter,
}

#[derive(Clone, Copy, Debug, PartialEq, Eq, Structural)]
pub struct SnapRect {
    pub x: i32,
    pub y: i32,
    pub w: i32,
    pub h: i32,
}

impl WorkArea {
    pub open spec fn usable_w(self) -> int {
        max_int(self.w as int, MIN_USABLE as int)
    }

    pub open spec fn usable_h(self) -> int {
        max_int(self.h as int, MIN_USABLE as int)
    }

    /// The far corner of the usable area is an ordinary coordinate.
    pub open spec fn wf(self) -> bool {
        self.x + self.usable_w() <= i32::MAX && self.y + self.usable_h() <= i32::MAX
    }
}

/// The zone for a cursor position: corners win over edges, and the bottom edge
/// alone snaps to nothing.
pub open spec fn zone_at(x: Coord, y: Coord, wa: WorkArea) -> Option<SnapZone> {
    let top = y.le(wa.y + SNAP_BAND_PX);
    let left = x.le(wa.x + SNAP_BAND_PX);
    let right = x.ge(wa.x + wa.w - SNAP_BAND_PX);
    let bottom = y.ge(wa.y + wa.h - SNAP_BAND_PX);
    if top && left {
        Some(SnapZone::TopLeftQuarter)
    } else if top && right {
        Some(SnapZone::TopRightQuarter)
    } else if bottom && left {
        Some(SnapZone::BottomLeftQuarter)
    } else if bottom && right {
        Some(SnapZone::BottomRightQuarter)
    } else if top {
        Some(SnapZone::Maximize)
    } else if left {
        Some(SnapZone::LeftHalf)
    } else if right {
        Some(SnapZone::RightHalf)
    } else {
        None
    }
}

/// Whether a zone keeps to the left, right, upper or lower half.
pub open spec fn on_left(z: SnapZone) -> bool {
    z == SnapZone::LeftHalf || z == SnapZone::TopLeftQuarter || z == SnapZone::BottomLeftQuarter
}

pub open spec fn on_right(z: SnapZone) -> bool {
    z == SnapZone::RightHalf || z == SnapZone::TopRightQuarter || z == SnapZone::BottomRightQuarter
}

pub open spec fn on_top(z: SnapZone) -> bool {
    z == SnapZone::TopLeftQuarter || z == SnapZone::TopRightQuarter
}

pub open spec fn on_bottom(z: SnapZone) -> bool {
    z == SnapZone::BottomLeftQuarter || z == SnapZone::BottomRightQuarter
}

/// The rectangle of a zone. An odd width or height gives the extra pixel to the
/// right or lower part.
pub open spec fn zone_rect(z: SnapZone, wa: WorkArea) -> SnapRect {
    let left_w = wa.usable_w() / 2;
    let top_h = wa.usable_h() / 2;
    SnapRect {
        x: if on_right(z) {
            (wa.x + left_w) as i32
        } else {
            wa.x
        },
        y: if on_bottom(z) {
            (wa.y + top_h) as i32
        } else {
            wa.y
        },
        w: if on_left(z) {
            left_w as i32
        } else if on_right(z) {
            (wa.usable_w() - left_w) as i32
        } else {
            wa.usable_w() as i32
        },
        h: if on_top(z) {
            top_h as i32
        } else if on_bottom(z) {
            (wa.usable_h() - top_h) as i32
        } else {
            wa.usable_h() as i32
        },
    }
}

/// The snap candidate for a cursor position, if the cursor is near an edge.
pub fn detect(cursor_x: Coord, cursor_y: Coord, work_area: WorkArea) -> (r: Option<(SnapZone, SnapRect)>)
    requires
        work_area.wf(),
    ensures
        match zone_at(cursor_x, cursor_y, work_area) {
            Some(z) => r == Some((z, zone_rect(z, work_area))),
            None => r is None,
        },
{
    let x: i32 = work_area.x;
    let y: i32 = work_area.y;
    let w: i32 = max_i32(work_area.w, MIN_USABLE);
    let h: i32 = max_i32(work_area.h, MIN_USABLE);
    let left_w: i32 = w / 2;
    let right_w: i32 = w - left_w;
    let top_h: i32 = h / 2;
    let bottom_h: i32 = h - top_h;
    let right_edge: i64 = work_area.x as i64 + work_area.w as i64;
    let bottom_edge: i64 = work_area.y as i64 + work_area.h as i64;

    let top = cursor_y.at_most(y as i64 + SNAP_BAND_PX);
    let left = cursor_x.at_most(x as i64 + SNAP_BAND_PX);
    let right = cursor_x.at_least(right_edge - SNAP_BAND_PX);
    let bottom = cursor_y.at_least(bottom_edge - SNAP_BAND_PX);

    if top && left {
        return Some((SnapZone::TopLeftQuarter, SnapRect { x, y, w: left_w, h: top_h }));
    }
    if top && right {
        return Some((SnapZone::TopRightQuarter, SnapRect { x: x + left_w, y, w: right_w, h: top_h }));
    }
    if bottom && left {
        return Some((SnapZone::BottomLeftQuarter, SnapRect { x, y: y + top_h, w: left_w, h: bottom_h }));
    }
    if bottom && right {
        return Some(
            (SnapZone::BottomRightQuarter, SnapRect { x: x + left_w, y: y + top_h, w: right_w, h: bottom_h }),
        );
    }
    if top {
        return Some((SnapZone::Maximize, SnapRect { x, y, w, h }));
    }
    if left {
        return Some((SnapZone::LeftHalf, SnapRect { x, y, w: left_w, h }));
    }
    if right {
        return Some((SnapZone::RightHalf, SnapRect { x: x + left_w, y, w: right_w, h }));
    }
    None
}

/// The window states that tell the client which of its edges are tiled.
#[derive(Clone, Copy, Debug, PartialEq, Eq, Structural)]
pub struct TiledStates {
    pub left: bool,
    pub right: bool,
    pub top: bool,
    pub bottom: bool,
    pub maximized: bool,
}

/// The states of a window that is neither tiled nor maximized.
pub open spec fn free_states() -> TiledStates {
    TiledStates { left: false, right: false, top: false, bottom: false, maximized: false }
}

/// The states of a window in a zone: the edges that touch the border of the work
/// area are tiled.
pub open spec fn zone_states(zone: SnapZone) -> TiledStates {
    TiledStates {
        left: on_left(zone),
        right: on_right(zone),
        top: zone != SnapZone::Maximize && !on_bottom(zone),
        bottom: zone != SnapZone::Maximize && !on_top(zone),
        maximized: zone == SnapZone::Maximize,
    }
}

/// A window that is neither tiled nor maximized.
pub fn untiled() -> (r: TiledStates)
    ensures
        r == free_states(),
{
    TiledStates { left: false, right: false, top: false, bottom: false, maximized: false }
}

/// The edges that touch the border of the work area when snapped to a zone.
pub fn tiled_states(zone: SnapZone) -> (r: TiledStates)
    ensures
        r == zone_states(zone),
{
    match zone {
        SnapZone::Maximize => TiledStates { left: false, right: false, top: false, bottom: false, maximized: true },
        SnapZone::LeftHalf => TiledStates { left: true, right: false, top: true, bottom: true, maximized: false },
        SnapZone::RightHalf => TiledStates { left: false, right: true, top: true, bottom: true, maximized: false },
        SnapZone::TopLeftQuarter => TiledStates {
            left: true,
            right: false,
            top: true,
            bottom: false,
            maximized: false,
        },
        SnapZone::TopRightQuarter => TiledStates {
            left: false,
            right: true,
            top: true,
            bottom: false,
            maximized: false,
        },
        SnapZone::BottomLeftQuarter => TiledStates {
            left: true,
            right: false,
            top: false,
            bottom: true,
            maximized: false,
        },
        SnapZone::BottomRightQuarter => TiledStates {
            left: false,
            right: true,
            top: false,
            bottom: true,
            maximized: false,
        },
    }
}

/// Every zone lies inside the usable area and is not empty.
pub proof fn law_zone_inside(z: SnapZone, wa: WorkArea)
    requires
        wa.wf(),
    ensures
        ({
            let r = zone_rect(z, wa);
            &&& wa.x <= r.x && r.x + r.w <= wa.x + wa.usable_w()
            &&& wa.y <= r.y && r.y + r.h <= wa.y + wa.usable_h()
            &&& r.w >= MIN_USABLE / 2 && r.h >= MIN_USABLE / 2
        }),
{
}

/// The two halves, and likewise the four quarters, cover the usable area without
/// a gap or an overlap.
pub proof fn law_zones_tile(wa: WorkArea)
    requires
        wa.wf(),
    ensures
        ({
            let whole = zone_rect(SnapZone::Maximize, wa);
            let l = zone_rect(SnapZone::LeftHalf, wa);
            let r = zone_rect(SnapZone::RightHalf, wa);
            let tl = zone_rect(SnapZone::TopLeftQuarter, wa);
            let tr = zone_rect(SnapZone::TopRightQuarter, wa);
            let bl = zone_rect(SnapZone::BottomLeftQuarter, wa);
            let br = zone_rect(SnapZone::BottomRightQuarter, wa);
            &&& l.x == whole.x && l.x + l.w == r.x && r.x + r.w == whole.x + whole.w
            &&& l.h == whole.h && r.h == whole.h && l.y == whole.y && r.y == whole.y
            &&& tl.x == l.x && tl.w == l.w && bl.x == l.x && bl.w == l.w
            &&& tr.x == r.x && tr.w == r.w && br.x == r.x && br.w == r.w
            &&& tl.y == l.y && tl.y + tl.h == bl.y && bl.y + bl.h == l.y + l.h
            &&& tr.y == tl.y && tr.h == tl.h && br.y == bl.y && br.h == bl.h
        }),
{
}

/// A cursor that is more than the band away from every edge snaps to nothing,
/// and neither does one at the bottom edge away from the corners.
pub proof fn law_interior_snaps_to_nothing(x: Coord, y: Coord, wa: WorkArea)
    requires
        x.wf(),
        y.wf(),
        !x.le(wa.x + SNAP_BAND_PX),
        x.lt(wa.x + wa.w - SNAP_BAND_PX),
        !y.le(wa.y + SNAP_BAND_PX),
    ensures
        zone_at(x, y, wa) is None,
{
}

/// A cursor near one side of the work area, with the other sides out of reach, brings the
/// window to that side: the rectangle reaches the left or the right end of the usable area
/// where the cursor is near it, and all of it at the top. In a corner it is a quarter that
/// reaches both ends, along the left and the right side a half as high as the area.
pub proof fn law_zone_is_at_the_cursor(x: Coord, y: Coord, wa: WorkArea)
    requires
        x.wf(),
        y.wf(),
        wa.wf(),
        wa.w > 24,
        wa.h > 24,
    ensures
        ({
            let near_left = x.ceil <= wa.x + 12;
            let near_right = x.floor >= wa.x + wa.w - 12;
            let near_top = y.ceil <= wa.y + 12;
            let near_bottom = y.floor >= wa.y + wa.h - 12;
            let w = if wa.w < 100 { 100 } else { wa.w as int };
            let h = if wa.h < 100 { 100 } else { wa.h as int };
            match zone_at(x, y, wa) {
                Some(z) => {
                    let r = zone_rect(z, wa);
                    &&& near_left || near_right || near_top
                    &&& near_left ==> r.x == wa.x && r.w == w / 2
                    &&& near_right ==> r.x + r.w == wa.x + w && r.x == wa.x + w / 2
                    &&& !near_left && !near_right ==> r.x == wa.x && r.w == w
                    &&& near_top && (near_left || near_right) ==> r.y == wa.y && r.h == h / 2
                    &&& near_bottom ==> r.y + r.h == wa.y + h && r.y == wa.y + h / 2
                    &&& !near_bottom && !(near_top && (near_left || near_right)) ==> r.y == wa.y && r.h == h
                    &&& z == SnapZone::Maximize <==> !near_left && !near_right
                },
                None => !near_left && !near_right && !near_top,
            }
        }),
{
}

/// A snapped window counts as tiled along the sides where its rectangle reaches the end of
/// the usable area; one that fills the area is maximized instead.
pub proof fn law_tiled_sides_are_at_the_border(z: SnapZone, wa: WorkArea)
    requires
        wa.wf(),
    ensures
        ({
            let r = zone_rect(z, wa);
            let t = zone_states(z);
            let whole = zone_rect(SnapZone::Maximize, wa);
            &&& t.maximized <==> r == whole
            &&& t.left <==> r.x == whole.x && r != whole
            &&& t.top <==> r.y == whole.y && r != whole
            &&& t.right <==> r.x + r.w == whole.x + whole.w && r != whole
            &&& t.bottom <==> r.y + r.h == whole.y + whole.h && r != whole
        }),
{
}

} // verus!
