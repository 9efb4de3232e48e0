//! Pointer coordinates and the zones of a window that the pointer can be over.

use vstd::prelude::*;

verus! {

/// A pointer coordinate with a fractional part, held as the whole numbers on
/// either side of it. Comparing it with a whole number needs no more.
#[derive(Clone, Copy, Debug, PartialEq, Eq, Structural)]
pub struct Coord {
    pub floor: i64,
    pub ceil: i64,
}

impl Coord {
    /// The coordinate is a whole number, or lies between two neighbours.
    pub open spec fn wf(self) -> bool {
        self.floor <= self.ceil <= self.floor + 1
    }

    pub open spec fn le(self, n: int) -> bool {
        self.ceil <= n
    }

    pub open spec fn lt(self, n: int) -> bool {
        self.floor < n
    }

    pub open spec fn ge(self, n: int) -> bool {
        self.floor >= n
    }

    /// At or after `start`, and before `start + len`.
    pub open spec fn within(self, start: int, len: int) -> bool {
        self.ge(start) && self.lt(start + len)
    }

    pub fn at_most(&self, n: i64) -> (r: bool)
        ensures
            r == self.le(n as int),
    {
        self.ceil <= n
    }

    pub fn below(&self, n: i64) -> (r: bool)
        ensures
            r == self.lt(n as int),
    {
        self.floor < n
    }

    pub fn at_least(&self, n: i64) -> (r: bool)
        ensures
            r == self.ge(n as int),
    {
        self.floor >= n
    }

    pub fn in_span(&self, start: i32, len: i32) -> (r: bool)
        ensures
            r == self.within(start as int, len as int),
    {
        self.floor >= start as i64 && self.floor < start as i64 + len as i64
    }
}

/// The part of a window that the pointer is over.
#[derive(Clone, Copy, Debug, PartialEq, Eq, Structural)]
pub enum HitZone {
    /// No window part.
    Outside,
    Content,
    TitleBar,
    CloseButton,
    MinimizeButton,
    MaximizeButton,
    EdgeNorth,
    EdgeSouth,
    EdgeEast,
    EdgeWest,
    CornerNW,
    CornerNE,
    CornerSW,
    CornerSE,
}

impl HitZone {
    /// An edge or a corner, from which a window is resized.
    pub open spec fn resizes(self) -> bool {
        match self {
            HitZone::EdgeNorth | HitZone::EdgeSouth | HitZone::EdgeEast | HitZone::EdgeWest => true,
            HitZone::CornerNW | HitZone::CornerNE | HitZone::CornerSW | HitZone::CornerSE => true,
            _ => false,
        }
    }

    /// A control button of the title bar.
    pub open spec fn is_control(self) -> bool {
        match self {
            HitZone::CloseButton | HitZone::MinimizeButton | HitZone::MaximizeButton => true,
            _ => false,
        }
    }

    pub fn is_resize_zone(self) -> (r: bool)
        ensures
            r == self.resizes(),
    {
        match self {
            HitZone::EdgeNorth | HitZone::EdgeSouth | HitZone::EdgeEast | HitZone::EdgeWest => true,
            HitZone::CornerNW | HitZone::CornerNE | HitZone::CornerSW | HitZone::CornerSE => true,
            _ => false,
        }
    }

    pub fn is_control_button(self) -> (r: bool)
        ensures
            r == self.is_control(),
    {
        match self {
            HitZone::CloseButton | HitZone::MinimizeButton | HitZone::MaximizeButton => true,
            _ => false,
        }
    }
}

/// The zone that the pointer acts on.
pub open spec fn grabbed(zone: HitZone, maximized: bool) -> HitZone {
    if zone.resizes() && maximized {
        HitZone::Outside
    } else {
        zone
    }
}

/// The zone that the pointer acts on: a maximized window has no edges to grab.
pub fn effective_zone(zone: HitZone, maximized: bool) -> (r: HitZone)
    ensures
        r == grabbed(zone, maximized),
{
    if maximized && zone.is_resize_zone() {
        HitZone::Outside
    } else {
        zone
    }
}

/// A coordinate is compared as the number that it stands for: one that lies between two
/// whole numbers is above the lower and below the upper one.
pub proof fn law_coord_compares(c: Coord, n: int)
    requires
        c.wf(),
    ensures
        c.lt(n) <==> !c.ge(n),
        c.floor == c.ceil ==> (c.le(n) <==> c.floor <= n) && (c.ge(n) <==> c.floor >= n),
        c.floor < c.ceil ==> (c.le(n) <==> c.floor + 1 <= n) && (c.ge(n) <==> c.floor >= n),
        c.le(n) && c.ge(n) ==> c.floor == n && c.ceil == n,
        forall|len: int| #[trigger] c.within(n, len) <==> n <= c.floor < n + len,
{
}

/// The edges of a maximized window cannot be grabbed, but its buttons and its title bar act
/// as those of any other window.
pub proof fn law_maximized_has_no_edges(zone: HitZone)
    ensures
        grabbed(zone, false) == zone,
        !grabbed(zone, true).resizes(),
        zone is Content || zone is TitleBar || zone.is_control() ==> grabbed(zone, true) == zone,
        zone.is_control() <==> (zone is CloseButton || zone is MinimizeButton || zone is MaximizeButton),
{
}

} // verus!
