//! Layer-shell surfaces: panels, docks, wallpapers and overlays that anchor to
//! the edges of an output and may reserve a strip of it for themselves.

use vstd::prelude::*;

use crate::num::{half, halve, max_i32, max_int, min_i32, min_int, sat32, saturate};
use crate::pixels::ClientSurfaceData;
use crate::state::{blank_pixels, SpikeState, SpikeView};
use crate::surface::{remove_all, without, SurfaceId};

verus! {

/// The stacking layer of a surface, from the bottom up.
#[derive(Clone, Copy, Debug, PartialEq, Eq, Structural)]
pub enum Layer {
    Background,
    Bottom,
    Top,
    Overlay,
}

/// One edge of the output.
#[derive(Clone, Copy, Debug, PartialEq, Eq, Structural)]
pub enum Edge {
    Top,
    Bottom,
    Left,
    Right,
}

/// The edges that a surface is attached to.
#[derive(Clone, Copy, Debug, PartialEq, Eq, Structural)]
pub struct Anchor {
    pub top: bool,
    pub bottom: bool,
    pub left: bool,
    pub right: bool,
}

#[derive(Clone, Copy, Debug, PartialEq, Eq, Structural)]
pub enum ExclusiveZone {
    /// Reserve this many pixels along the exclusive edge.
    Exclusive(u32),
    /// Stay out of other surfaces' reserved strips.
    Neutral,
    /// Use the whole output.
    DontCare,
}

#[derive(Clone, Copy, Debug, PartialEq, Eq, Structural)]
pub enum KeyboardInteractivity {
    Never,
    OnDemand,
    Exclusive,
}

#[derive(Clone, Copy, Debug, PartialEq, Eq, Structural)]
pub struct Margins {
    pub top: i32,
    pub right: i32,
    pub bottom: i32,
    pub left: i32,
}

/// What the client last committed for its layer surface.
#[derive(Clone, Copy, Debug, PartialEq, Eq, Structural)]
pub struct LayerConfig {
    pub layer: Layer,
    pub anchor: Anchor,
    pub exclusive_zone: ExclusiveZone,
    pub exclusive_edge: Option<Edge>,
    pub margin: Margins,
    pub keyboard_interactivity: KeyboardInteractivity,
    pub desired_w: i32,
    pub desired_h: i32,
}

/// A rectangle in output coordinates.
#[derive(Clone, Copy, Debug, PartialEq, Eq, Structural)]
pub struct Area {
    pub x: i32,
    pub y: i32,
    pub w: i32,
    pub h: i32,
}

/// Per-edge sum of the strips that panels and docks reserve.
#[derive(Clone, Copy, Debug, PartialEq, Eq, Structural)]
pub struct ReservedZones {
    pub top: i32,
    pub bottom: i32,
    pub left: i32,
    pub right: i32,
}

/// A mapped layer surface with its arranged rectangle.
#[derive(Debug)]
pub struct LayerInfo {
    pub surface: SurfaceId,
    pub namespace: String,
    pub config: LayerConfig,
    pub area: Area,
    pub pixels: ClientSurfaceData,
}

impl LayerConfig {
    /// Takes part in keyboard focus at all.
    pub open spec fn focusable(self) -> bool {
        self.keyboard_interactivity != KeyboardInteractivity::Never
    }

    /// Takes the keyboard from every window while mapped.
    pub open spec fn exclusive_keyboard(self) -> bool {
        self.keyboard_interactivity == KeyboardInteractivity::Exclusive && (self.layer == Layer::Top
            || self.layer == Layer::Overlay)
    }
}

impl LayerInfo {
    pub fn can_receive_keyboard_focus(&self) -> (r: bool)
        ensures
            r == self.config.focusable(),
    {
        match self.config.keyboard_interactivity {
            KeyboardInteractivity::Never => false,
            _ => true,
        }
    }

    pub fn wants_exclusive_keyboard(&self) -> (r: bool)
        ensures
            r == self.config.exclusive_keyboard(),
    {
        let exclusive = match self.config.keyboard_interactivity {
            KeyboardInteractivity::Exclusive => true,
            _ => false,
        };
        let above = match self.config.layer {
            Layer::Top => true,
            Layer::Overlay => true,
            _ => false,
        };
        exclusive && above
    }
}

/// The edge that an exclusive zone applies to: the one that was asked for, else
/// the only anchored edge, else the middle one of three. Two or four anchored
/// edges single none out.
pub open spec fn exclusive_edge_of(anchor: Anchor, explicit: Option<Edge>) -> Option<Edge> {
    match explicit {
        Some(e) => Some(e),
        None => {
            if anchor.left == anchor.right && anchor.top != anchor.bottom {
                if anchor.top {
                    Some(Edge::Top)
                } else {
                    Some(Edge::Bottom)
                }
            } else if anchor.top == anchor.bottom && anchor.left != anchor.right {
                if anchor.left {
                    Some(Edge::Left)
                } else {
                    Some(Edge::Right)
                }
            } else {
                None
            }
        },
    }
}

fn effective_exclusive_edge(anchor: Anchor, explicit: Option<Edge>) -> (r: Option<Edge>)
    ensures
        r == exclusive_edge_of(anchor, explicit),
{
    if let Some(e) = explicit {
        return Some(e);
    }
    if anchor.left == anchor.right && anchor.top != anchor.bottom {
        if anchor.top {
            Some(Edge::Top)
        } else {
            Some(Edge::Bottom)
        }
    } else if anchor.top == anchor.bottom && anchor.left != anchor.right {
        if anchor.left {
            Some(Edge::Left)
        } else {
            Some(Edge::Right)
        }
    } else {
        None
    }
}

pub open spec fn margin_at(m: Margins, edge: Edge) -> i32 {
    match edge {
        Edge::Top => m.top,
        Edge::Bottom => m.bottom,
        Edge::Left => m.left,
        Edge::Right => m.right,
    }
}

fn margin_of(m: Margins, edge: Edge) -> (r: i32)
    ensures
        r == margin_at(m, edge),
{
    match edge {
        Edge::Top => m.top,
        Edge::Bottom => m.bottom,
        Edge::Left => m.left,
        Edge::Right => m.right,
    }
}

/// The strip that a surface takes from the work area: its edge and its depth,
/// margin included.
pub open spec fn consumed(c: LayerConfig) -> Option<(Edge, i32)> {
    match (c.exclusive_zone, exclusive_edge_of(c.anchor, c.exclusive_edge)) {
        (ExclusiveZone::Exclusive(amount), Some(edge)) => Some(
            (edge, sat32((amount as i32) + margin_at(c.margin, edge))),
        ),
        _ => None,
    }
}

fn consume_of(c: &LayerConfig) -> (r: Option<(Edge, i32)>)
    ensures
        r == consumed(*c),
{
    match c.exclusive_zone {
        ExclusiveZone::Exclusive(amount) => match effective_exclusive_edge(c.anchor, c.exclusive_edge) {
            Some(edge) => {
                let depth: i32 = saturate((amount as i32) as i64 + margin_of(c.margin, edge) as i64);
                Some((edge, depth))
            },
            None => None,
        },
        _ => None,
    }
}

/// One side of the rectangle: the length of the work area along this axis less
/// the margins of the anchored edges.
pub open spec fn shrunk(len: i32, near: bool, near_margin: i32, far: bool, far_margin: i32) -> i32 {
    let a = if near {
        sat32(len - near_margin)
    } else {
        len
    };
    if far {
        sat32(a - far_margin)
    } else {
        a
    }
}

/// The length of the surface along one axis: what it asked for, bounded by the
/// space there is; half of the space where it asked for nothing; all of it where
/// it is anchored to both ends.
pub open spec fn fitted(space: i32, desired: i32, near: bool, far: bool) -> i32 {
    let wished = max_int(min_int(desired as int, space as int), 0);
    let chosen = if near && far {
        space as int
    } else if wished == 0 {
        half(space as int)
    } else {
        wished
    };
    max_int(chosen, 0) as i32
}

/// Where the surface starts along one axis: at the near edge behind its margin,
/// flush with the far end, or centred.
pub open spec fn placed(start: i32, space: i32, size: i32, near: bool, near_margin: i32, far: bool) -> i32 {
    if near {
        sat32(start + near_margin)
    } else if far {
        sat32(start + (space - size))
    } else {
        sat32(start + (half(space as int) - half(size as int)))
    }
}

/// The rectangle of one layer surface, given the whole output and the work area
/// that is left.
pub open spec fn layer_rect(c: LayerConfig, output: Area, zone: Area) -> Area {
    let source = match c.exclusive_zone {
        ExclusiveZone::DontCare => output,
        _ => zone,
    };
    let space_w = shrunk(source.w, c.anchor.left, c.margin.left, c.anchor.right, c.margin.right);
    let space_h = shrunk(source.h, c.anchor.top, c.margin.top, c.anchor.bottom, c.margin.bottom);
    let w = fitted(space_w, c.desired_w, c.anchor.left, c.anchor.right);
    let h = fitted(space_h, c.desired_h, c.anchor.top, c.anchor.bottom);
    Area {
        x: placed(source.x, space_w, w, c.anchor.left, c.margin.left, c.anchor.right),
        y: placed(source.y, space_h, h, c.anchor.top, c.margin.top, c.anchor.bottom),
        w,
        h,
    }
}

fn shrink_axis(len: i32, near: bool, near_margin: i32, far: bool, far_margin: i32) -> (r: i32)
    ensures
        r == shrunk(len, near, near_margin, far, far_margin),
{
    let mut a: i32 = len;
    if near {
        a = saturate(a as i64 - near_margin as i64);
    }
    if far {
        a = saturate(a as i64 - far_margin as i64);
    }
    a
}

fn fit_axis(space: i32, desired: i32, near: bool, far: bool) -> (r: i32)
    ensures
        r == fitted(space, desired, near, far),
{
    let mut size: i32 = max_i32(min_i32(desired, space), 0);
    if size == 0 {
        size = halve(space);
    }
    if near && far {
        size = space;
    }
    max_i32(size, 0)
}

fn place_axis(start: i32, space: i32, size: i32, near: bool, near_margin: i32, far: bool) -> (r: i32)
    ensures
        r == placed(start, space, size, near, near_margin, far),
{
    if near {
        saturate(start as i64 + near_margin as i64)
    } else if far {
        saturate(start as i64 + (space as i64 - size as i64))
    } else {
        saturate(start as i64 + (halve(space) as i64 - halve(size) as i64))
    }
}

/// The rectangle of one layer surface and the strip it takes from the work area
/// of the surfaces after it.
pub fn compute_layer_rect(c: &LayerConfig, output: Area, zone: Area) -> (r: (Area, Option<(Edge, i32)>))
    ensures
        r.0 == layer_rect(*c, output, zone),
        r.1 == consumed(*c),
{
    let source = match c.exclusive_zone {
        ExclusiveZone::DontCare => output,
        _ => zone,
    };
    let space_w: i32 = shrink_axis(source.w, c.anchor.left, c.margin.left, c.anchor.right, c.margin.right);
    let space_h: i32 = shrink_axis(source.h, c.anchor.top, c.margin.top, c.anchor.bottom, c.margin.bottom);
    let w: i32 = fit_axis(space_w, c.desired_w, c.anchor.left, c.anchor.right);
    let h: i32 = fit_axis(space_h, c.desired_h, c.anchor.top, c.anchor.bottom);
    let x: i32 = place_axis(source.x, space_w, w, c.anchor.left, c.margin.left, c.anchor.right);
    let y: i32 = place_axis(source.y, space_h, h, c.anchor.top, c.margin.top, c.anchor.bottom);
    (Area { x, y, w, h }, consume_of(c))
}

/// The work area without a strip of the given depth along one edge.
pub open spec fn without_strip(zone: Area, strip: Option<(Edge, i32)>) -> Area {
    match strip {
        Some((Edge::Top, d)) => Area { y: sat32(zone.y + d), h: sat32(zone.h - d), ..zone },
        Some((Edge::Bottom, d)) => Area { h: sat32(zone.h - d), ..zone },
        Some((Edge::Left, d)) => Area { x: sat32(zone.x + d), w: sat32(zone.w - d), ..zone },
        Some((Edge::Right, d)) => Area { w: sat32(zone.w - d), ..zone },
        None => zone,
    }
}

fn take_strip(zone: Area, strip: Option<(Edge, i32)>) -> (r: Area)
    ensures
        r == without_strip(zone, strip),
{
    match strip {
        Some((edge, d)) => match edge {
            Edge::Top => Area {
                x: zone.x,
                y: saturate(zone.y as i64 + d as i64),
                w: zone.w,
                h: saturate(zone.h as i64 - d as i64),
            },
            Edge::Bottom => Area { x: zone.x, y: zone.y, w: zone.w, h: saturate(zone.h as i64 - d as i64) },
            Edge::Left => Area {
                x: saturate(zone.x as i64 + d as i64),
                y: zone.y,
                w: saturate(zone.w as i64 - d as i64),
                h: zone.h,
            },
            Edge::Right => Area { x: zone.x, y: zone.y, w: saturate(zone.w as i64 - d as i64), h: zone.h },
        },
        None => zone,
    }
}

pub open spec fn is_exclusive(c: LayerConfig) -> bool {
    c.exclusive_zone is Exclusive
}

/// The work area that the first `k` surfaces leave: each exclusive one takes its
/// strip, in order.
pub open spec fn zone_after(configs: Seq<LayerConfig>, k: int, output: Area) -> Area
    decreases k,
{
    if k <= 0 {
        output
    } else {
        let before = zone_after(configs, k - 1, output);
        if is_exclusive(configs[k - 1]) {
            without_strip(before, consumed(configs[k - 1]))
        } else {
            before
        }
    }
}

/// The rectangle of surface `i`: an exclusive surface sees the strips taken
/// before it, any other the strips of all exclusive surfaces.
pub open spec fn arranged(configs: Seq<LayerConfig>, i: int, output: Area) -> Area {
    let zone = if is_exclusive(configs[i]) {
        zone_after(configs, i, output)
    } else {
        zone_after(configs, configs.len() as int, output)
    };
    layer_rect(configs[i], output, zone)
}

pub open spec fn output_area(w: i32, h: i32) -> Area {
    Area { x: 0, y: 0, w: max_int(w as int, 0) as i32, h: max_int(h as int, 0) as i32 }
}

/// The surface as it is after the client's state `c` was read and its rectangle
/// was set to `area`.
pub open spec fn arranged_info(li: LayerInfo, c: LayerConfig, area: Area) -> LayerInfo {
    LayerInfo { config: c, area, ..li }
}

/// Reads every surface's committed state and arranges the surfaces on an output
/// of the given size.
pub fn arrange_layers(layers: &mut Vec<LayerInfo>, configs: &Vec<LayerConfig>, output_w: i32, output_h: i32)
    requires
        configs@.len() == old(layers)@.len(),
    ensures
        final(layers)@.len() == old(layers)@.len(),
        forall|i: int|
            0 <= i < old(layers)@.len() ==> #[trigger] final(layers)@[i] == arranged_info(
                old(layers)@[i],
                configs@[i],
                arranged(configs@, i, output_area(output_w, output_h)),
            ),
{
    let output = Area { x: 0, y: 0, w: max_i32(output_w, 0), h: max_i32(output_h, 0) };
    let n: usize = layers.len();
    let mut zone = output;
    let mut i: usize = 0;
    while i < n
        invariant
            0 <= i <= n,
            n == configs@.len(),
            n == old(layers)@.len(),
            layers@.len() == n,
            output == output_area(output_w, output_h),
            zone == zone_after(configs@, i as int, output),
            forall|k: int|
                0 <= k < i ==> #[trigger] layers@[k] == if is_exclusive(configs@[k]) {
                    arranged_info(old(layers)@[k], configs@[k], arranged(configs@, k, output))
                } else {
                    old(layers)@[k]
                },
            forall|k: int| i <= k < n ==> #[trigger] layers@[k] == old(layers)@[k],
        decreases n - i,
    {
        let exclusive = match configs[i].exclusive_zone {
            ExclusiveZone::Exclusive(_) => true,
            _ => false,
        };
        if exclusive {
            let (area, strip) = compute_layer_rect(&configs[i], output, zone);
            layers[i].config = configs[i];
            layers[i].area = area;
            zone = take_strip(zone, strip);
        }
        i += 1;
    }
    let mut j: usize = 0;
    while j < n
        invariant
            0 <= j <= n,
            n == configs@.len(),
            n == old(layers)@.len(),
            layers@.len() == n,
            output == output_area(output_w, output_h),
            zone == zone_after(configs@, n as int, output),
            forall|k: int|
                0 <= k < n && (k < j || is_exclusive(configs@[k])) ==> #[trigger] layers@[k] == arranged_info(
                    old(layers)@[k],
                    configs@[k],
                    arranged(configs@, k, output),
                ),
            forall|k: int| j <= k < n && !is_exclusive(configs@[k]) ==> #[trigger] layers@[k] == old(layers)@[k],
        decreases n - j,
    {
        let exclusive = match configs[j].exclusive_zone {
            ExclusiveZone::Exclusive(_) => true,
            _ => false,
        };
        if !exclusive {
            let (area, _) = compute_layer_rect(&configs[j], output, zone);
            layers[j].config = configs[j];
            layers[j].area = area;
        }
        j += 1;
    }
}

/// Whether a surface's strip counts toward the windows' work area.
pub open spec fn reserves(c: LayerConfig) -> bool {
    c.layer == Layer::Top || c.layer == Layer::Bottom
}

/// The depth reserved along `edge` by the first `k` surfaces.
pub open spec fn reserved_along(layers: Seq<LayerInfo>, k: int, edge: Edge) -> i32
    decreases k,
{
    if k <= 0 {
        0
    } else {
        let before = reserved_along(layers, k - 1, edge);
        match consumed(layers[k - 1].config) {
            Some((e, depth)) => if e == edge && reserves(layers[k - 1].config) {
                sat32(before + depth)
            } else {
                before
            },
            None => before,
        }
    }
}

pub open spec fn reserved(layers: Seq<LayerInfo>) -> ReservedZones {
    let n = layers.len() as int;
    ReservedZones {
        top: reserved_along(layers, n, Edge::Top),
        bottom: reserved_along(layers, n, Edge::Bottom),
        left: reserved_along(layers, n, Edge::Left),
        right: reserved_along(layers, n, Edge::Right),
    }
}

/// Per-edge sum of the strips of all top and bottom layer surfaces.
pub fn sum_reserved(layers: &Vec<LayerInfo>) -> (z: ReservedZones)
    ensures
        z == reserved(layers@),
{
    let mut z = ReservedZones { top: 0, bottom: 0, left: 0, right: 0 };
    let mut k: usize = 0;
    while k < layers.len()
        invariant
            0 <= k <= layers@.len(),
            z.top == reserved_along(layers@, k as int, Edge::Top),
            z.bottom == reserved_along(layers@, k as int, Edge::Bottom),
            z.left == reserved_along(layers@, k as int, Edge::Left),
            z.right == reserved_along(layers@, k as int, Edge::Right),
        decreases layers@.len() - k,
    {
        let c = &layers[k].config;
        let counts = match c.layer {
            Layer::Top => true,
            Layer::Bottom => true,
            _ => false,
        };
        if counts {
            if let Some((edge, depth)) = consume_of(c) {
                match edge {
                    Edge::Top => {
                        z.top = saturate(z.top as i64 + depth as i64);
                    },
                    Edge::Bottom => {
                        z.bottom = saturate(z.bottom as i64 + depth as i64);
                    },
                    Edge::Left => {
                        z.left = saturate(z.left as i64 + depth as i64);
                    },
                    Edge::Right => {
                        z.right = saturate(z.right as i64 + depth as i64);
                    },
                }
            }
        }
        k += 1;
    }
    z
}

/// The last of the first `k` surfaces on `layer` that takes the keyboard.
pub open spec fn last_exclusive_on(layers: Seq<LayerInfo>, k: int, layer: Layer) -> Option<SurfaceId>
    decreases k,
{
    if k <= 0 {
        None
    } else if layers[k - 1].config.exclusive_keyboard() && layers[k - 1].config.layer == layer {
        Some(layers[k - 1].surface)
    } else {
        last_exclusive_on(layers, k - 1, layer)
    }
}

/// The layer surface that has the keyboard to itself: the newest on the overlay
/// layer, else the newest on the top layer.
pub open spec fn keyboard_owner(layers: Seq<LayerInfo>) -> Option<SurfaceId> {
    match last_exclusive_on(layers, layers.len() as int, Layer::Overlay) {
        Some(s) => Some(s),
        None => last_exclusive_on(layers, layers.len() as int, Layer::Top),
    }
}

fn find_last_exclusive(layers: &Vec<LayerInfo>, layer: Layer) -> (r: Option<SurfaceId>)
    ensures
        r == last_exclusive_on(layers@, layers@.len() as int, layer),
{
    let mut k: usize = layers.len();
    while k > 0
        invariant
            0 <= k <= layers@.len(),
            last_exclusive_on(layers@, layers@.len() as int, layer) == last_exclusive_on(layers@, k as int, layer),
        decreases k,
    {
        let li = &layers[k - 1];
        if li.wants_exclusive_keyboard() && li.config.layer == layer {
            return Some(li.surface);
        }
        k -= 1;
    }
    None
}

/// The layer surface that keyboard input is routed to ahead of any window.
pub fn find_keyboard_owner(layers: &Vec<LayerInfo>) -> (r: Option<SurfaceId>)
    ensures
        r == keyboard_owner(layers@),
{
    if let Some(s) = find_last_exclusive(layers, Layer::Overlay) {
        return Some(s);
    }
    find_last_exclusive(layers, Layer::Top)
}

/// Whether `inner` lies inside `outer`.
pub open spec fn inside(inner: Area, outer: Area) -> bool {
    &&& outer.x <= inner.x
    &&& outer.y <= inner.y
    &&& inner.x + inner.w <= outer.x + outer.w
    &&& inner.y + inner.h <= outer.y + outer.h
}

/// Margins that point inward and leave room between them.
pub open spec fn margins_fit(c: LayerConfig, a: Area) -> bool {
    &&& c.margin.left >= 0 && c.margin.right >= 0 && c.margin.top >= 0 && c.margin.bottom >= 0
    &&& c.margin.left + c.margin.right <= a.w
    &&& c.margin.top + c.margin.bottom <= a.h
}

/// An area of an output: its corners are ordinary coordinates.
pub open spec fn on_output(a: Area) -> bool {
    a.x >= 0 && a.y >= 0 && a.w >= 0 && a.h >= 0 && a.x + a.w <= i32::MAX && a.y + a.h <= i32::MAX
}

/// A surface that respects the work area is arranged inside it.
pub proof fn law_layer_inside_zone(c: LayerConfig, output: Area, zone: Area)
    requires
        on_output(zone),
        margins_fit(c, zone),
        !(c.exclusive_zone is DontCare),
    ensures
        inside(layer_rect(c, output, zone), zone),
{
}

/// A surface that ignores the work area is still arranged inside the output.
pub proof fn law_layer_inside_output(c: LayerConfig, output: Area, zone: Area)
    requires
        on_output(output),
        margins_fit(c, output),
        c.exclusive_zone is DontCare,
    ensures
        inside(layer_rect(c, output, zone), output),
{
}

/// The work area only ever shrinks: what any prefix of the surfaces leaves lies
/// inside what a shorter prefix leaves, as long as no strip is deeper than the
/// area it is taken from.
pub proof fn law_zone_shrinks(configs: Seq<LayerConfig>, j: int, k: int, output: Area)
    requires
        on_output(output),
        0 <= j <= k <= configs.len(),
        forall|i: int|
            0 <= i < configs.len() && #[trigger] is_exclusive(configs[i]) ==> match consumed(configs[i]) {
                Some((Edge::Top, d)) => 0 <= d <= zone_after(configs, i, output).h,
                Some((Edge::Bottom, d)) => 0 <= d <= zone_after(configs, i, output).h,
                Some((Edge::Left, d)) => 0 <= d <= zone_after(configs, i, output).w,
                Some((Edge::Right, d)) => 0 <= d <= zone_after(configs, i, output).w,
                None => true,
            },
    ensures
        on_output(zone_after(configs, k, output)),
        inside(zone_after(configs, k, output), zone_after(configs, j, output)),
    decreases k,
{
    if k > j {
        law_zone_shrinks(configs, j, k - 1, output);
        assert(is_exclusive(configs[k - 1]) ==> configs[k - 1].exclusive_zone is Exclusive);
    } else if k > 0 {
        law_zone_shrinks(configs, j - 1, k - 1, output);
    }
}

/// A window work area bounded by the reserved strips never meets an exclusive
/// top or bottom surface: the strip of every such surface is part of the sum for
/// its edge when the depths are not negative.
pub proof fn law_reserved_covers(layers: Seq<LayerInfo>, k: int, i: int)
    requires
        0 <= i < k <= layers.len(),
        reserves(layers[i].config),
        consumed(layers[i].config) is Some,
        forall|j: int|
            0 <= j < k ==> ((#[trigger] consumed(layers[j].config)) matches Some((_, d)) ==> d >= 0),
    ensures
        reserved_along(layers, k, (consumed(layers[i].config)->0).0) >= (consumed(layers[i].config)->0).1,
    decreases k,
{
    let edge = (consumed(layers[i].config)->0).0;
    lemma_reserved_nonneg(layers, k - 1, edge);
    if i < k - 1 {
        law_reserved_covers(layers, k - 1, i);
    }
}

proof fn lemma_reserved_nonneg(layers: Seq<LayerInfo>, k: int, edge: Edge)
    requires
        0 <= k <= layers.len(),
        forall|j: int|
            0 <= j < k ==> ((#[trigger] consumed(layers[j].config)) matches Some((_, d)) ==> d >= 0),
    ensures
        reserved_along(layers, k, edge) >= 0,
    decreases k,
{
    if k > 0 {
        lemma_reserved_nonneg(layers, k - 1, edge);
    }
}

/// What a layer surface is before its client has committed anything.
pub open spec fn initial_config(layer: Layer) -> LayerConfig {
    LayerConfig {
        layer,
        anchor: Anchor { top: false, bottom: false, left: false, right: false },
        exclusive_zone: ExclusiveZone::Neutral,
        exclusive_edge: None,
        margin: Margins { top: 0, right: 0, bottom: 0, left: 0 },
        keyboard_interactivity: KeyboardInteractivity::Never,
        desired_w: 0,
        desired_h: 0,
    }
}

/// The layers after they were arranged on an output of the given size.
pub open spec fn arranged_all(layers: Seq<LayerInfo>, configs: Seq<LayerConfig>, w: i32, h: i32) -> Seq<LayerInfo> {
    Seq::new(
        layers.len(),
        |i: int| arranged_info(layers[i], configs[i], arranged(configs, i, output_area(w, h))),
    )
}

impl SpikeState {
    /// A client made a layer surface.
    pub fn new_layer_surface(&mut self, surface: SurfaceId, layer: Layer, namespace: String)
        ensures
            ({
                let new = final(self).layer_surfaces@.last();
                &&& new.surface == surface
                &&& new.namespace == namespace
                &&& new.config == initial_config(layer)
                &&& new.area == (Area { x: 0, y: 0, w: 0, h: 0 })
                &&& new.pixels@ == blank_pixels()
                &&& final(self)@ == SpikeView {
                    layer_surfaces: old(self)@.layer_surfaces.push(new),
                    ..old(self)@
                }
            }),
    {
        let info = LayerInfo {
            surface,
            namespace,
            config: LayerConfig {
                layer,
                anchor: Anchor { top: false, bottom: false, left: false, right: false },
                exclusive_zone: ExclusiveZone::Neutral,
                exclusive_edge: None,
                margin: Margins { top: 0, right: 0, bottom: 0, left: 0 },
                keyboard_interactivity: KeyboardInteractivity::Never,
                desired_w: 0,
                desired_h: 0,
            },
            area: Area { x: 0, y: 0, w: 0, h: 0 },
            pixels: ClientSurfaceData::default(),
        };
        self.layer_surfaces.push(info);
    }

    /// A layer surface is gone.
    pub fn layer_destroyed(&mut self, surface: SurfaceId)
        ensures
            final(self)@ == (SpikeView { layer_surfaces: without(old(self)@.layer_surfaces, surface), ..old(self)@ }),
    {
        remove_all(&mut self.layer_surfaces, surface);
    }

    /// All layer surfaces, in the order in which they were made.
    pub fn layer_surfaces(&self) -> (r: &Vec<LayerInfo>)
        ensures
            r@ == self@.layer_surfaces,
    {
        &self.layer_surfaces
    }

    /// Per-edge sum of the strips that windows keep out of.
    pub fn reserved_zones(&self) -> (z: ReservedZones)
        ensures
            z == reserved(self@.layer_surfaces),
    {
        sum_reserved(&self.layer_surfaces)
    }

    /// The layer surface that has the keyboard to itself.
    pub fn exclusive_keyboard_layer(&self) -> (r: Option<SurfaceId>)
        ensures
            r == keyboard_owner(self@.layer_surfaces),
    {
        find_keyboard_owner(&self.layer_surfaces)
    }

    /// Takes over what each client last committed for its layer surface and
    /// arranges the surfaces on an output of the given size.
    pub fn refresh_layer_layout(&mut self, configs: &Vec<LayerConfig>, output_w: i32, output_h: i32)
        requires
            configs@.len() == old(self)@.layer_surfaces.len(),
        ensures
            final(self)@ == (SpikeView {
                layer_surfaces: arranged_all(old(self)@.layer_surfaces, configs@, output_w, output_h),
                ..old(self)@
            }),
    {
        arrange_layers(&mut self.layer_surfaces, configs, output_w, output_h);
        assert(self.layer_surfaces@ =~= arranged_all(old(self)@.layer_surfaces, configs@, output_w, output_h));
    }
}

/// The part of the output that a surface is arranged in: all of it where the surface ignores
/// the strips of others, else what these leave.
pub open spec fn ground(c: LayerConfig, output: Area, zone: Area) -> Area {
    if c.exclusive_zone is DontCare {
        output
    } else {
        zone
    }
}

/// A surface that is anchored to neither end of an axis lies in the middle of its ground
/// along it: the space before it and the space after it differ by at most one pixel. One
/// that is anchored to an end keeps its margin from that end, and one that is anchored to
/// both fills what the margins leave.
pub proof fn law_layer_is_where_it_is_anchored(c: LayerConfig, output: Area, zone: Area)
    requires
        on_output(ground(c, output, zone)),
        margins_fit(c, ground(c, output, zone)),
    ensures
        ({
            let a = ground(c, output, zone);
            let r = layer_rect(c, output, zone);
            let before_x = r.x - a.x;
            let after_x = a.x + a.w - (r.x + r.w);
            let before_y = r.y - a.y;
            let after_y = a.y + a.h - (r.y + r.h);
            &&& !c.anchor.left && !c.anchor.right ==> -1 <= before_x - after_x <= 1 && before_x >= 0 && after_x >= 0
            &&& !c.anchor.top && !c.anchor.bottom ==> -1 <= before_y - after_y <= 1 && before_y >= 0 && after_y >= 0
            &&& c.anchor.left ==> before_x == c.margin.left
            &&& c.anchor.right ==> (c.anchor.left || after_x == c.margin.right)
            &&& c.anchor.left && c.anchor.right ==> after_x == c.margin.right
            &&& c.anchor.top ==> before_y == c.margin.top
            &&& c.anchor.bottom ==> after_y == c.margin.bottom
        }),
{
}

/// A surface gets the size it asks for where there is room, all of the room where it asks
/// for more, and half of it where it asks for nothing.
pub proof fn law_layer_gets_its_size(c: LayerConfig, output: Area, zone: Area)
    requires
        on_output(ground(c, output, zone)),
        margins_fit(c, ground(c, output, zone)),
    ensures
        ({
            let a = ground(c, output, zone);
            let r = layer_rect(c, output, zone);
            let room_w = a.w - (if c.anchor.left { c.margin.left as int } else { 0 }) - (if c.anchor.right {
                c.margin.right as int
            } else {
                0
            });
            let room_h = a.h - (if c.anchor.top { c.margin.top as int } else { 0 }) - (if c.anchor.bottom {
                c.margin.bottom as int
            } else {
                0
            });
            &&& !(c.anchor.left && c.anchor.right) && 0 < c.desired_w <= room_w ==> r.w == c.desired_w
            &&& !(c.anchor.left && c.anchor.right) && c.desired_w > room_w > 0 ==> r.w == room_w
            &&& !(c.anchor.left && c.anchor.right) && c.desired_w <= 0 ==> 2 * r.w <= room_w < 2 * r.w + 2
            &&& c.anchor.left && c.anchor.right ==> r.w == room_w
            &&& !(c.anchor.top && c.anchor.bottom) && 0 < c.desired_h <= room_h ==> r.h == c.desired_h
            &&& !(c.anchor.top && c.anchor.bottom) && c.desired_h > room_h > 0 ==> r.h == room_h
            &&& !(c.anchor.top && c.anchor.bottom) && c.desired_h <= 0 ==> 2 * r.h <= room_h < 2 * r.h + 2
            &&& c.anchor.top && c.anchor.bottom ==> r.h == room_h
        }),
{
}

/// A surface alone on an output has the whole output as its ground.
pub proof fn law_lone_layer_has_the_output(c: LayerConfig, w: i32, h: i32)
    requires
        w >= 0,
        h >= 0,
    ensures
        ({
            let all = Area { x: 0, y: 0, w, h };
            arranged(seq![c], 0, output_area(w, h)) == layer_rect(c, all, all)
        }),
{
    reveal_with_fuel(zone_after, 2);
    if !is_exclusive(c) {
        assert(zone_after(seq![c], 1, output_area(w, h)) == zone_after(seq![c], 0, output_area(w, h)));
    }
}

/// The strip that a surface claims along an edge is kept free of the surfaces that respect
/// it: they begin where it ends. The claimed edge is the only one that the surface is
/// anchored to, or the one between the two others.
pub proof fn law_strip_is_kept_free(configs: Seq<LayerConfig>, i: int, j: int, amount: u32, output: Area)
    requires
        on_output(output),
        0 <= i < configs.len(),
        0 <= j < configs.len(),
        configs[i].exclusive_zone == ExclusiveZone::Exclusive(amount),
        configs[i].exclusive_edge is None,
        amount <= i32::MAX,
        configs[j].exclusive_zone is Neutral,
        margins_fit(configs[i], zone_after(configs, i, output)),
        margins_fit(configs[j], zone_after(configs, configs.len() as int, output)),
        forall|k: int|
            0 <= k < configs.len() && #[trigger] is_exclusive(configs[k]) ==> match consumed(configs[k]) {
                Some((Edge::Top, d)) => 0 <= d <= zone_after(configs, k, output).h,
                Some((Edge::Bottom, d)) => 0 <= d <= zone_after(configs, k, output).h,
                Some((Edge::Left, d)) => 0 <= d <= zone_after(configs, k, output).w,
                Some((Edge::Right, d)) => 0 <= d <= zone_after(configs, k, output).w,
                None => true,
            },
    ensures
        ({
            let panel = arranged(configs, i, output);
            let other = arranged(configs, j, output);
            let a = configs[i].anchor;
            &&& a.top && !a.bottom && a.left == a.right && amount + configs[i].margin.top <= i32::MAX ==> other.y >= panel.y + amount
            &&& a.bottom && !a.top && a.left == a.right && amount + configs[i].margin.bottom <= i32::MAX ==> other.y + other.h <= panel.y + panel.h - amount
            &&& a.left && !a.right && a.top == a.bottom && amount + configs[i].margin.left <= i32::MAX ==> other.x >= panel.x + amount
            &&& a.right && !a.left && a.top == a.bottom && amount + configs[i].margin.right <= i32::MAX ==> other.x + other.w <= panel.x + panel.w - amount
        }),
{
    let n = configs.len() as int;
    law_zone_shrinks(configs, i, i, output);
    law_zone_shrinks(configs, i + 1, n, output);
    law_zone_shrinks(configs, 0, i + 1, output);
    assert(is_exclusive(configs[i]));
    let before = zone_after(configs, i, output);
    let after = zone_after(configs, i + 1, output);
    assert(after == without_strip(before, consumed(configs[i])));
    law_layer_inside_zone(configs[j], output, zone_after(configs, n, output));
    law_layer_is_where_it_is_anchored(configs[i], output, before);
}

/// One more panel or dock adds its strip and the margin in front of it to the edge that it
/// claims, and to no other; wallpapers and overlays reserve nothing.
pub proof fn law_reserved_adds_up(layers: Seq<LayerInfo>, l: LayerInfo)
    ensures
        ({
            let was = reserved(layers);
            let now = reserved(layers.push(l));
            let a = l.config.anchor;
            let m = l.config.margin;
            match l.config.exclusive_zone {
                ExclusiveZone::Exclusive(amount) => {
                    let counts = (l.config.layer is Top || l.config.layer is Bottom) && amount <= i32::MAX;
                    let asked = l.config.exclusive_edge;
                    &&& l.config.layer is Background || l.config.layer is Overlay ==> now == was
                    &&& counts && (asked == Some(Edge::Top) || asked is None && a.top && !a.bottom && a.left == a.right) && is_sum(was.top as int, amount + m.top) ==> now == (
                    ReservedZones { top: (was.top + amount + m.top) as i32, ..was })
                    &&& counts && (asked == Some(Edge::Bottom) || asked is None && a.bottom && !a.top && a.left == a.right) && is_sum(was.bottom as int, amount + m.bottom)
                        ==> now == (ReservedZones { bottom: (was.bottom + amount + m.bottom) as i32, ..was })
                    &&& counts && (asked == Some(Edge::Left) || asked is None && a.left && !a.right && a.top == a.bottom) && is_sum(was.left as int, amount + m.left) ==> now == (
                    ReservedZones { left: (was.left + amount + m.left) as i32, ..was })
                    &&& counts && (asked == Some(Edge::Right) || asked is None && a.right && !a.left && a.top == a.bottom) && is_sum(was.right as int, amount + m.right)
                        ==> now == (ReservedZones { right: (was.right + amount + m.right) as i32, ..was })
                },
                _ => now == was,
            }
        }),
{
    let n = layers.len() as int;
    let all = layers.push(l);
    assert forall|e: Edge| #[trigger] reserved_along(all, n, e) == reserved_along(layers, n, e) by {
        lemma_reserved_prefix(layers, l, n, e);
    }
    assert(all[n] == l);
    assert(reserved_along(all, n, Edge::Top) == reserved_along(layers, n, Edge::Top));
    assert(reserved_along(all, n, Edge::Bottom) == reserved_along(layers, n, Edge::Bottom));
    assert(reserved_along(all, n, Edge::Left) == reserved_along(layers, n, Edge::Left));
    assert(reserved_along(all, n, Edge::Right) == reserved_along(layers, n, Edge::Right));
}

/// Without surfaces nothing is reserved.
pub proof fn law_nothing_reserved(layers: Seq<LayerInfo>)
    requires
        layers.len() == 0,
    ensures
        reserved(layers) == (ReservedZones { top: 0, bottom: 0, left: 0, right: 0 }),
{
}

/// Whether a depth and its sum with another one are in the number range.
pub open spec fn is_sum(sum: int, depth: int) -> bool {
    depth <= i32::MAX && i32::MIN <= sum + depth <= i32::MAX
}

proof fn lemma_reserved_prefix(layers: Seq<LayerInfo>, l: LayerInfo, k: int, edge: Edge)
    requires
        0 <= k <= layers.len(),
    ensures
        reserved_along(layers.push(l), k, edge) == reserved_along(layers, k, edge),
    decreases k,
{
    if k > 0 {
        lemma_reserved_prefix(layers, l, k - 1, edge);
        assert(layers.push(l)[k - 1] == layers[k - 1]);
    }
}

/// The keyboard goes to a surface above the windows that asks for it alone: to one on the
/// overlay layer before one on the top layer, and among those of a layer to the newest.
/// Where no surface asks it goes to none.
pub proof fn law_keyboard_goes_to_the_uppermost(layers: Seq<LayerInfo>)
    ensures
        match keyboard_owner(layers) {
            Some(s) => exists|i: int|
                0 <= i < layers.len() && (#[trigger] layers[i]).surface == s && asks_for_keyboard(layers[i]) && (forall|
                    k: int,
                |
                    0 <= k < layers.len() && asks_for_keyboard(#[trigger] layers[k]) ==> {
                        ||| layers[k].config.layer is Top && layers[i].config.layer is Overlay
                        ||| layers[k].config.layer == layers[i].config.layer && k <= i
                    }),
            None => forall|k: int| 0 <= k < layers.len() ==> !asks_for_keyboard(#[trigger] layers[k]),
        },
{
    let n = layers.len() as int;
    lemma_last_exclusive(layers, n, Layer::Overlay);
    lemma_last_exclusive(layers, n, Layer::Top);
}

/// Whether a surface above the windows asks for the keyboard alone.
pub open spec fn asks_for_keyboard(l: LayerInfo) -> bool {
    l.config.keyboard_interactivity is Exclusive && (l.config.layer is Top || l.config.layer is Overlay)
}

proof fn lemma_last_exclusive(layers: Seq<LayerInfo>, k: int, layer: Layer)
    requires
        0 <= k <= layers.len(),
        layer is Top || layer is Overlay,
    ensures
        match last_exclusive_on(layers, k, layer) {
            Some(s) => exists|i: int|
                0 <= i < k && (#[trigger] layers[i]).surface == s && asks_for_keyboard(layers[i])
                    && layers[i].config.layer == layer && (forall|m: int|
                    i < m < k ==> !(asks_for_keyboard(#[trigger] layers[m]) && layers[m].config.layer == layer)),
            None => forall|m: int|
                0 <= m < k ==> !(asks_for_keyboard(#[trigger] layers[m]) && layers[m].config.layer == layer),
        },
    decreases k,
{
    if k > 0 {
        lemma_last_exclusive(layers, k - 1, layer);
        if asks_for_keyboard(layers[k - 1]) && layers[k - 1].config.layer == layer {
            assert(layers[k - 1].surface == last_exclusive_on(layers, k, layer)->0);
        }
    }
}

/// A layer surface that has said nothing yet sticks to no edge, keeps nothing free,
/// takes no keys and asks for no size.
pub proof fn law_new_layer_asks_for_nothing(layer: Layer)
    ensures
        ({
            let c = initial_config(layer);
            &&& c.layer == layer
            &&& !c.anchor.top && !c.anchor.bottom && !c.anchor.left && !c.anchor.right
            &&& consumed(c) is None
            &&& !c.focusable()
            &&& c.desired_w == 0 && c.desired_h == 0
        }),
{
}

/// The layers after a new layout are the same surfaces in the same order, each as its
/// client asks now and in the rectangle that this gives it.
pub proof fn law_layout_keeps_layers(layers: Seq<LayerInfo>, configs: Seq<LayerConfig>, w: i32, h: i32, i: int)
    requires
        layers.len() == configs.len(),
        0 <= i < layers.len(),
    ensures
        ({
            let after = arranged_all(layers, configs, w, h);
            &&& after.len() == layers.len()
            &&& after[i].surface == layers[i].surface
            &&& after[i].pixels == layers[i].pixels
            &&& after[i].config == configs[i]
            &&& w >= 0 && h >= 0 ==> after[i].area == arranged(configs, i, (Area { x: 0, y: 0, w, h }))
            &&& w < 0 && h < 0 ==> after[i].area == arranged(configs, i, (Area { x: 0, y: 0, w: 0, h: 0 }))
        }),
{
}

} // verus!
