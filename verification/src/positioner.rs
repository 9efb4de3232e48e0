//! Where popups are placed: the rules a client sets with a positioner.

use vstd::prelude::*;

use crate::layer_shell::Area;
use crate::num::{max_int, sat32, saturate};

verus! {

/// The largest code of an anchor or a gravity.
pub const LAST_EDGE: u32 = 8;

/// The rules for one popup. Anchors and gravities have the codes of the protocol:
/// 0 in the middle, then top, bottom, left, right, top left, bottom left, top
/// right and bottom right.
#[derive(Clone, Copy, Debug, PartialEq, Eq, Structural)]
pub struct Positioner {
    pub w: i32,
    pub h: i32,
    /// The rectangle of the parent that the popup belongs to.
    pub anchor_rect: Area,
    /// The point of that rectangle that counts.
    pub anchor: u32,
    /// The side of that point on which the popup lies.
    pub gravity: u32,
    pub offset_x: i32,
    pub offset_y: i32,
    /// What may be done to keep the popup on the output: the sum of the protocol's codes
    /// for sliding, flipping and resizing it.
    pub adjustment: u32,
}

/// The popup may be moved along an axis.
pub const SLIDE_X: u32 = 1;

pub const SLIDE_Y: u32 = 2;

/// The popup may be put on the other side of its anchor.
pub const FLIP_X: u32 = 4;

pub const FLIP_Y: u32 = 8;

/// The popup may be made smaller.
pub const RESIZE_X: u32 = 16;

pub const RESIZE_Y: u32 = 32;

/// Whether an adjustment is among those that are allowed.
pub open spec fn allows(adjustment: u32, code: u32) -> bool {
    (adjustment / code) % 2 == 1
}

/// An anchor or a gravity with left and right swapped.
pub open spec fn mirrored_x(code: u32) -> u32 {
    if at_left(code) {
        if code == 3 {
            4
        } else {
            (code + 2) as u32
        }
    } else if at_right(code) {
        if code == 4 {
            3
        } else {
            (code - 2) as u32
        }
    } else {
        code
    }
}

/// An anchor or a gravity with top and bottom swapped.
pub open spec fn mirrored_y(code: u32) -> u32 {
    if at_top(code) {
        (code + 1) as u32
    } else if at_bottom(code) {
        (code - 1) as u32
    } else {
        code
    }
}

/// Whether a span does not lie within `room` from `lo` on.
pub open spec fn overruns(start: int, len: int, lo: int, room: int) -> bool {
    start < lo || start + len > lo + room
}

/// Where a span starts once it was moved into the room: its start comes first, where not
/// all of it fits.
pub open spec fn slid(start: int, len: int, lo: int, room: int) -> int {
    if start < lo {
        lo
    } else if start + len > lo + room {
        max_int(lo + room - len, lo)
    } else {
        start
    }
}

/// A span once it was cut to the room, as long as some of it lies there: its start and its
/// length.
pub open spec fn cut_to(start: int, len: int, lo: int, room: int) -> (int, int) {
    let (s, l) = if start < lo && lo - start < len {
        (lo, len - (lo - start))
    } else {
        (start, len)
    };
    let over = start + len - (lo + room);
    (
        s,
        if over > 0 && over < l {
            l - over
        } else {
            l
        },
    )
}

/// One side of a popup after its adjustment to the room: it flips where that alone keeps
/// it inside, then slides, then is cut.
pub open spec fn adjusted(
    start: int,
    flipped: int,
    len: int,
    lo: int,
    room: int,
    flip: bool,
    slide: bool,
    resize: bool,
) -> (int, int) {
    let placed = if flip && overruns(start, len, lo, room) && !overruns(flipped, len, lo, room) {
        flipped
    } else {
        start
    };
    let moved = if slide {
        slid(placed, len, lo, room)
    } else {
        placed
    };
    if resize {
        cut_to(moved, len, lo, room)
    } else {
        (moved, len)
    }
}

pub open spec fn at_top(code: u32) -> bool {
    code == 1 || code == 5 || code == 7
}

pub open spec fn at_bottom(code: u32) -> bool {
    code == 2 || code == 6 || code == 8
}

pub open spec fn at_left(code: u32) -> bool {
    code == 3 || code == 5 || code == 6
}

pub open spec fn at_right(code: u32) -> bool {
    code == 4 || code == 7 || code == 8
}

/// The distance of a point from the start of a span: at its start, its end or in
/// its middle.
pub open spec fn point_on(start: bool, end: bool, len: int) -> int {
    if start {
        0
    } else if end {
        len
    } else {
        len / 2
    }
}

/// How far before a point a span starts that lies before it, behind it or around
/// it.
pub open spec fn reach_back(before: bool, behind: bool, len: int) -> int {
    if before {
        len
    } else if behind {
        0
    } else {
        len / 2
    }
}

pub open spec fn is_i32(v: int) -> bool {
    i32::MIN <= v <= i32::MAX
}

impl Positioner {
    pub open spec fn anchor_x(&self) -> int {
        self.anchor_rect.x + point_on(at_left(self.anchor), at_right(self.anchor), self.anchor_rect.w as int)
    }

    pub open spec fn anchor_y(&self) -> int {
        self.anchor_rect.y + point_on(at_top(self.anchor), at_bottom(self.anchor), self.anchor_rect.h as int)
    }

    /// The left side of the popup, relative to its parent.
    pub open spec fn left(&self) -> int {
        sat32(self.offset_x + self.anchor_x()) - reach_back(
            at_left(self.gravity),
            at_right(self.gravity),
            self.w as int,
        )
    }

    /// The upper side of the popup, relative to its parent.
    pub open spec fn top(&self) -> int {
        sat32(self.offset_y + self.anchor_y()) - reach_back(
            at_top(self.gravity),
            at_bottom(self.gravity),
            self.h as int,
        )
    }

    /// Whether the rules are well-formed and the popup's place can be computed.
    pub open spec fn placeable(&self) -> bool {
        &&& self.w >= 0 && self.h >= 0
        &&& self.anchor_rect.w >= 0 && self.anchor_rect.h >= 0
        &&& self.anchor <= LAST_EDGE && self.gravity <= LAST_EDGE
        &&& is_i32(self.anchor_x()) && is_i32(self.anchor_y())
        &&& is_i32(self.left()) && is_i32(self.top())
    }

    /// Where the popup lies, relative to its parent, before any adjustment.
    pub open spec fn placed(&self) -> Area {
        Area { x: self.left() as i32, y: self.top() as i32, w: self.w, h: self.h }
    }

    /// The rules with left and right swapped.
    pub open spec fn flipped_x(self) -> Positioner {
        Positioner { anchor: mirrored_x(self.anchor), gravity: mirrored_x(self.gravity), ..self }
    }

    /// The rules with top and bottom swapped.
    pub open spec fn flipped_y(self) -> Positioner {
        Positioner { anchor: mirrored_y(self.anchor), gravity: mirrored_y(self.gravity), ..self }
    }

    /// Whether the popup's place can be computed on either side of its anchor.
    pub open spec fn adjustable(self) -> bool {
        self.placeable() && self.flipped_x().placeable() && self.flipped_y().placeable()
    }

    pub open spec fn adjusted_x(self, target: Area) -> (int, int) {
        adjusted(
            self.left(),
            self.flipped_x().left(),
            self.w as int,
            target.x as int,
            target.w as int,
            allows(self.adjustment, FLIP_X),
            allows(self.adjustment, SLIDE_X),
            allows(self.adjustment, RESIZE_X),
        )
    }

    pub open spec fn adjusted_y(self, target: Area) -> (int, int) {
        adjusted(
            self.top(),
            self.flipped_y().top(),
            self.h as int,
            target.y as int,
            target.h as int,
            allows(self.adjustment, FLIP_Y),
            allows(self.adjustment, SLIDE_Y),
            allows(self.adjustment, RESIZE_Y),
        )
    }

    /// Where the popup lies, relative to its parent, after what may be done to keep it
    /// inside `target`.
    pub open spec fn unconstrained(self, target: Area) -> Area {
        let (x, w) = self.adjusted_x(target);
        let (y, h) = self.adjusted_y(target);
        Area { x: x as i32, y: y as i32, w: w as i32, h: h as i32 }
    }
}

fn top_edge(code: u32) -> (r: bool)
    ensures
        r == at_top(code),
{
    code == 1 || code == 5 || code == 7
}

fn bottom_edge(code: u32) -> (r: bool)
    ensures
        r == at_bottom(code),
{
    code == 2 || code == 6 || code == 8
}

fn left_edge(code: u32) -> (r: bool)
    ensures
        r == at_left(code),
{
    code == 3 || code == 5 || code == 6
}

fn right_edge(code: u32) -> (r: bool)
    ensures
        r == at_right(code),
{
    code == 4 || code == 7 || code == 8
}

fn anchor_distance(start: bool, end: bool, len: i32) -> (r: i32)
    requires
        len >= 0,
    ensures
        r == point_on(start, end, len as int),
{
    if start {
        0
    } else if end {
        len
    } else {
        len / 2
    }
}

fn distance_back(before: bool, behind: bool, len: i32) -> (r: i32)
    requires
        len >= 0,
    ensures
        r == reach_back(before, behind, len as int),
{
    if before {
        len
    } else if behind {
        0
    } else {
        len / 2
    }
}

fn in_i32(v: i64) -> (r: bool)
    ensures
        r == is_i32(v as int),
{
    i32::MIN as i64 <= v && v <= i32::MAX as i64
}

impl Positioner {
    /// Whether the popup's place can be computed.
    pub fn can_place(&self) -> (r: bool)
        ensures
            r == self.placeable(),
    {
        let rect = self.anchor_rect;
        if self.w < 0 || self.h < 0 || rect.w < 0 || rect.h < 0 || self.anchor > LAST_EDGE || self.gravity > LAST_EDGE {
            return false;
        }
        let anchor_x: i64 = rect.x as i64 + anchor_distance(
            left_edge(self.anchor),
            right_edge(self.anchor),
            rect.w,
        ) as i64;
        let anchor_y: i64 = rect.y as i64 + anchor_distance(
            top_edge(self.anchor),
            bottom_edge(self.anchor),
            rect.h,
        ) as i64;
        let back_x: i32 = distance_back(left_edge(self.gravity), right_edge(self.gravity), self.w);
        let back_y: i32 = distance_back(top_edge(self.gravity), bottom_edge(self.gravity), self.h);
        let left: i64 = saturate(self.offset_x as i64 + anchor_x) as i64 - back_x as i64;
        let top: i64 = saturate(self.offset_y as i64 + anchor_y) as i64 - back_y as i64;
        in_i32(anchor_x) && in_i32(anchor_y) && in_i32(left) && in_i32(top)
    }

    /// Where the popup lies, relative to its parent.
    pub fn geometry(&self) -> (r: Area)
        requires
            self.placeable(),
        ensures
            r == self.placed(),
    {
        let rect = self.anchor_rect;
        let anchor_x: i32 = rect.x + anchor_distance(left_edge(self.anchor), right_edge(self.anchor), rect.w);
        let anchor_y: i32 = rect.y + anchor_distance(top_edge(self.anchor), bottom_edge(self.anchor), rect.h);
        let x: i32 = saturate(self.offset_x as i64 + anchor_x as i64);
        let y: i32 = saturate(self.offset_y as i64 + anchor_y as i64);
        Area {
            x: x - distance_back(left_edge(self.gravity), right_edge(self.gravity), self.w),
            y: y - distance_back(top_edge(self.gravity), bottom_edge(self.gravity), self.h),
            w: self.w,
            h: self.h,
        }
    }
}

fn allowed(adjustment: u32, code: u32) -> (r: bool)
    requires
        code > 0,
    ensures
        r == allows(adjustment, code),
{
    (adjustment / code) % 2 == 1
}

fn mirror_x(code: u32) -> (r: u32)
    requires
        code <= LAST_EDGE,
    ensures
        r == mirrored_x(code),
        r <= LAST_EDGE,
{
    if code == 3 {
        4
    } else if code == 4 {
        3
    } else if code == 5 || code == 6 {
        code + 2
    } else if code == 7 || code == 8 {
        code - 2
    } else {
        code
    }
}

fn mirror_y(code: u32) -> (r: u32)
    requires
        code <= LAST_EDGE,
    ensures
        r == mirrored_y(code),
        r <= LAST_EDGE,
{
    if code == 1 || code == 5 || code == 7 {
        code + 1
    } else if code == 2 || code == 6 || code == 8 {
        code - 1
    } else {
        code
    }
}

fn adjust_side(
    start: i32,
    flipped: i32,
    len: i32,
    lo: i32,
    room: i32,
    flip: bool,
    slide: bool,
    resize: bool,
) -> (r: (i32, i32))
    requires
        len >= 0,
    ensures
        r.0 == adjusted(start as int, flipped as int, len as int, lo as int, room as int, flip, slide, resize).0,
        r.1 == adjusted(start as int, flipped as int, len as int, lo as int, room as int, flip, slide, resize).1,
{
    let n: i64 = len as i64;
    let first: i64 = lo as i64;
    let end: i64 = first + room as i64;
    let mut at: i64 = start as i64;
    let other: i64 = flipped as i64;
    if flip && (at < first || at + n > end) && other >= first && other + n <= end {
        at = other;
    }
    if slide {
        if at < first {
            at = first;
        } else if at + n > end {
            at = if end - n > first {
                end - n
            } else {
                first
            };
        }
    }
    let mut size: i64 = n;
    if resize {
        let over: i64 = at + n - end;
        if at < first && first - at < n {
            size = n - (first - at);
            at = first;
        }
        if over > 0 && over < size {
            size = size - over;
        }
    }
    (at as i32, size as i32)
}

impl Positioner {
    fn flip_x(&self) -> (r: Positioner)
        requires
            self.placeable(),
        ensures
            r == self.flipped_x(),
    {
        Positioner { anchor: mirror_x(self.anchor), gravity: mirror_x(self.gravity), ..*self }
    }

    fn flip_y(&self) -> (r: Positioner)
        requires
            self.placeable(),
        ensures
            r == self.flipped_y(),
    {
        Positioner { anchor: mirror_y(self.anchor), gravity: mirror_y(self.gravity), ..*self }
    }

    /// Whether the popup's place can be computed on either side of its anchor.
    pub fn can_adjust(&self) -> (r: bool)
        ensures
            r == self.adjustable(),
    {
        self.can_place() && self.flip_x().can_place() && self.flip_y().can_place()
    }

    /// Where the popup lies, relative to its parent, after it was flipped, moved or cut as
    /// far as its client allows to keep it inside `target`.
    pub fn unconstrained_geometry(&self, target: Area) -> (r: Area)
        requires
            self.adjustable(),
        ensures
            r == self.unconstrained(target),
    {
        let here = self.geometry();
        let across = self.flip_x().geometry();
        let below = self.flip_y().geometry();
        let (x, w) = adjust_side(
            here.x,
            across.x,
            self.w,
            target.x,
            target.w,
            allowed(self.adjustment, FLIP_X),
            allowed(self.adjustment, SLIDE_X),
            allowed(self.adjustment, RESIZE_X),
        );
        let (y, h) = adjust_side(
            here.y,
            below.y,
            self.h,
            target.y,
            target.h,
            allowed(self.adjustment, FLIP_Y),
            allowed(self.adjustment, SLIDE_Y),
            allowed(self.adjustment, RESIZE_Y),
        );
        Area { x, y, w, h }
    }
}

/// A side that may slide and is no longer than the room lies in it.
pub proof fn law_slid_side_is_inside(start: int, flipped: int, len: int, lo: int, room: int, flip: bool, resize: bool)
    requires
        0 <= len <= room,
    ensures
        ({
            let (s, l) = adjusted(start, flipped, len, lo, room, flip, true, resize);
            !overruns(s, l, lo, room) && l == len
        }),
{
}

/// A side that may slide and be cut lies in the room, however long it was.
pub proof fn law_slid_and_cut_side_is_inside(start: int, flipped: int, len: int, lo: int, room: int, flip: bool)
    requires
        0 <= len,
        0 < room,
    ensures
        ({
            let (s, l) = adjusted(start, flipped, len, lo, room, flip, true, true);
            !overruns(s, l, lo, room)
        }),
{
}

/// A popup that lies inside already stays where it is, whatever is allowed; and without
/// any adjustment it always does.
pub proof fn law_fitting_popup_stays(p: Positioner, target: Area)
    requires
        p.adjustable(),
        p.adjustment == 0 || (!overruns(p.left(), p.w as int, target.x as int, target.w as int) && !overruns(
            p.top(),
            p.h as int,
            target.y as int,
            target.h as int,
        )),
    ensures
        p.unconstrained(target) == p.placed(),
{
}

/// The new place of a popup that its client moves.
pub fn reposition_request(positioner: Positioner) -> (r: Area)
    requires
        positioner.placeable(),
    ensures
        r == positioner.placed(),
{
    positioner.geometry()
}

/// A popup hangs on the point of its anchor rectangle that its client chose, on the side
/// that it chose, moved by its offset. The codes are those of the protocol.
pub proof fn law_popup_hangs_on_anchor(p: Positioner)
    requires
        p.placeable(),
        is_i32(p.offset_x + p.anchor_x()),
        is_i32(p.offset_y + p.anchor_y()),
    ensures
        ({
            let r = p.anchor_rect;
            let g = p.placed();
            let px = g.x - p.offset_x;
            let py = g.y - p.offset_y;
            let ax = if p.anchor == 3 || p.anchor == 5 || p.anchor == 6 {
                r.x as int
            } else if p.anchor == 4 || p.anchor == 7 || p.anchor == 8 {
                r.x + r.w
            } else {
                r.x + r.w / 2
            };
            let ay = if p.anchor == 1 || p.anchor == 5 || p.anchor == 7 {
                r.y as int
            } else if p.anchor == 2 || p.anchor == 6 || p.anchor == 8 {
                r.y + r.h
            } else {
                r.y + r.h / 2
            };
            &&& g.w == p.w && g.h == p.h
            &&& p.gravity == 4 || p.gravity == 7 || p.gravity == 8 ==> px == ax
            &&& p.gravity == 3 || p.gravity == 5 || p.gravity == 6 ==> px + p.w == ax
            &&& p.gravity == 0 || p.gravity == 1 || p.gravity == 2 ==> px + p.w / 2 == ax
            &&& p.gravity == 2 || p.gravity == 6 || p.gravity == 8 ==> py == ay
            &&& p.gravity == 1 || p.gravity == 5 || p.gravity == 7 ==> py + p.h == ay
            &&& p.gravity == 0 || p.gravity == 3 || p.gravity == 4 ==> py + p.h / 2 == ay
        }),
{
}

/// Flipping swaps sides and is undone by flipping again; the other axis stays.
pub proof fn law_flip_swaps_sides(code: u32)
    requires
        code <= 8,
    ensures
        mirrored_x(mirrored_x(code)) == code,
        mirrored_y(mirrored_y(code)) == code,
        at_left(mirrored_x(code)) <==> at_right(code),
        at_right(mirrored_x(code)) <==> at_left(code),
        at_top(mirrored_x(code)) <==> at_top(code),
        at_bottom(mirrored_x(code)) <==> at_bottom(code),
        at_top(mirrored_y(code)) <==> at_bottom(code),
        at_bottom(mirrored_y(code)) <==> at_top(code),
        at_left(mirrored_y(code)) <==> at_left(code),
        at_right(mirrored_y(code)) <==> at_right(code),
{
}

/// What a client does not allow is not done: without leave to slide or to flip a popup keeps
/// its place, without leave to resize its size. A flip is made where it alone brings the
/// popup inside.
pub proof fn law_only_allowed_adjustments(
    start: int,
    flipped: int,
    len: int,
    lo: int,
    room: int,
    flip: bool,
    slide: bool,
    resize: bool,
)
    ensures
        ({
            let (s, l) = adjusted(start, flipped, len, lo, room, flip, slide, resize);
            let inside = lo <= start && start + len <= lo + room;
            let flips_in = lo <= flipped && flipped + len <= lo + room;
            &&& !flip && !slide && !resize ==> s == start && l == len
            &&& !resize ==> l == len
            &&& flip && !inside && flips_in ==> s == flipped && l == len
            &&& flip && !slide && !resize && !flips_in ==> s == start
            &&& inside ==> s == start && l == len
            &&& slide && len <= room && !(flip && flips_in) ==> lo <= s && s + len <= lo + room
            &&& len > 0 ==> 0 < l <= len
        }),
{
}

/// The adjustments have the protocol's codes and are allowed one by one.
pub proof fn law_adjustment_codes(adjustment: u32)
    ensures
        SLIDE_X == 1 && SLIDE_Y == 2 && FLIP_X == 4 && FLIP_Y == 8 && RESIZE_X == 16 && RESIZE_Y == 32,
        allows(adjustment, 1) <==> adjustment & 1 != 0,
        allows(adjustment, 2) <==> adjustment & 2 != 0,
        allows(adjustment, 4) <==> adjustment & 4 != 0,
        allows(adjustment, 8) <==> adjustment & 8 != 0,
        allows(adjustment, 16) <==> adjustment & 16 != 0,
        allows(adjustment, 32) <==> adjustment & 32 != 0,
{
    assert((adjustment / 1) % 2 == 1 <==> adjustment & 1 != 0) by (bit_vector);
    assert((adjustment / 2) % 2 == 1 <==> adjustment & 2 != 0) by (bit_vector);
    assert((adjustment / 4) % 2 == 1 <==> adjustment & 4 != 0) by (bit_vector);
    assert((adjustment / 8) % 2 == 1 <==> adjustment & 8 != 0) by (bit_vector);
    assert((adjustment / 16) % 2 == 1 <==> adjustment & 16 != 0) by (bit_vector);
    assert((adjustment / 32) % 2 == 1 <==> adjustment & 32 != 0) by (bit_vector);
}

} // verus!
