//! Surface trees: a surface with its subsurfaces, where each of them is, and what is
//! drawn for each.

use std::collections::HashMap;

use vstd::prelude::*;

use crate::layer_shell::Area;
use crate::num::{sat32, saturate};
use crate::pixels::ClientSurfaceData;

verus! {

/// How the buffer of a surface is shown.
#[derive(Clone, Copy, Debug, PartialEq, Eq, Structural)]
pub struct SurfaceView {
    /// Where the surface is in its parent.
    pub offset_x: i32,
    pub offset_y: i32,
    /// The size that it is shown at.
    pub dst_w: i32,
    pub dst_h: i32,
    /// The part of the buffer that is shown; nothing when that has no area.
    pub src: Option<Area>,
}

/// A surface and its subsurfaces, those in front first.
#[derive(Debug)]
pub struct TreeNode {
    pub key: u32,
    pub view: Option<SurfaceView>,
    /// Where the subsurface was put, for one that was not drawn yet.
    pub location_x: i32,
    pub location_y: i32,
    /// Subsurfaces in front of the surface.
    pub above: Vec<TreeNode>,
    /// Subsurfaces behind it.
    pub below: Vec<TreeNode>,
}

/// A position relative to the root of the tree.
#[derive(Clone, Copy, Debug, PartialEq, Eq, Structural)]
pub struct Offset {
    pub x: i32,
    pub y: i32,
}

pub open spec fn moved_by(o: Offset, x: i32, y: i32) -> Offset {
    Offset { x: sat32(o.x + x), y: sat32(o.y + y) }
}

fn shifted(o: Offset, x: i32, y: i32) -> (r: Offset)
    ensures
        r == moved_by(o, x, y),
{
    Offset { x: saturate(o.x as i64 + x as i64), y: saturate(o.y as i64 + y as i64) }
}

/// The position of a subsurface whose parent is at `parent`: by its view, or by where it
/// was put.
pub open spec fn placed_in(node: &TreeNode, parent: Offset) -> Offset {
    match node.view {
        Some(v) => moved_by(parent, v.offset_x, v.offset_y),
        None => moved_by(parent, node.location_x, node.location_y),
    }
}

/// A surface and its position.
#[derive(Clone, Copy, Debug, PartialEq, Eq, Structural)]
pub struct PlacedSurface {
    pub key: u32,
    pub at: Offset,
}

/// The surfaces of a tree whose root is at `at`: parents before their children, and
/// children in front before those behind.
pub open spec fn placed_tree(node: TreeNode, at: Offset) -> Seq<PlacedSurface>
    decreases node, 0nat,
{
    seq![PlacedSurface { key: node.key, at }] + placed_children(node.above@, at, 0) + placed_children(
        node.below@,
        at,
        0,
    )
}

/// The surfaces of the children from the `i`-th on.
pub open spec fn placed_children(nodes: Seq<TreeNode>, parent: Offset, i: nat) -> Seq<PlacedSurface>
    decreases nodes, nodes.len() - i,
{
    if i >= nodes.len() {
        Seq::empty()
    } else {
        placed_tree(nodes[i as int], placed_in(&nodes[i as int], parent)) + placed_children(nodes, parent, i + 1)
    }
}

fn place_child(node: &TreeNode, parent: Offset) -> (r: Offset)
    ensures
        r == placed_in(node, parent),
{
    match node.view {
        Some(v) => shifted(parent, v.offset_x, v.offset_y),
        None => shifted(parent, node.location_x, node.location_y),
    }
}

fn collect_tree(node: &TreeNode, at: Offset, out: &mut Vec<PlacedSurface>)
    ensures
        final(out)@ == old(out)@ + placed_tree(*node, at),
    decreases node, 0nat,
{
    let ghost before = out@;
    out.push(PlacedSurface { key: node.key, at });
    collect_children(&node.above, at, 0, out);
    collect_children(&node.below, at, 0, out);
    assert(out@ =~= before + placed_tree(*node, at));
}

fn collect_children(nodes: &Vec<TreeNode>, parent: Offset, i: usize, out: &mut Vec<PlacedSurface>)
    requires
        i <= nodes@.len(),
    ensures
        final(out)@ == old(out)@ + placed_children(nodes@, parent, i as nat),
    decreases nodes@, nodes@.len() - i,
{
    let ghost before = out@;
    if i < nodes.len() {
        let at = place_child(&nodes[i], parent);
        collect_tree(&nodes[i], at, out);
        collect_children(nodes, parent, i + 1, out);
    }
    assert(out@ =~= before + placed_children(nodes@, parent, i as nat));
}

/// The surfaces of a tree with their positions, the root at the origin.
pub fn tree_surfaces(root: &TreeNode) -> (r: Vec<PlacedSurface>)
    ensures
        r@ == placed_tree(*root, (Offset { x: 0, y: 0 })),
{
    let mut out: Vec<PlacedSurface> = Vec::new();
    collect_tree(root, Offset { x: 0, y: 0 }, &mut out);
    assert(out@ =~= placed_tree(*root, (Offset { x: 0, y: 0 })));
    out
}

/// What is drawn for one surface of a window.
#[derive(Clone, Copy, Debug, PartialEq, Eq, Structural)]
pub struct SurfaceItem {
    pub key: u32,
    /// Position in the window, whose visible part begins at the origin.
    pub x: i32,
    pub y: i32,
    pub w: i32,
    pub h: i32,
    /// The part of the buffer that is shown.
    pub src: Area,
    /// The version of the buffer that its image shows.
    pub version: u64,
}

/// The item of a surface with a buffer. Without a view it is shown as large as its
/// buffer; without a part of it to show, all of it is.
pub open spec fn surface_item(node: &TreeNode, at: Offset, origin: Offset, data: &ClientSurfaceData) -> SurfaceItem {
    let whole = Area { x: 0, y: 0, w: data.width as i32, h: data.height as i32 };
    let sized = node.view matches Some(v) && v.dst_w > 0 && v.dst_h > 0;
    SurfaceItem {
        key: node.key,
        x: sat32(at.x - origin.x),
        y: sat32(at.y - origin.y),
        w: if sized {
            node.view->0.dst_w
        } else {
            data.width as i32
        },
        h: if sized {
            node.view->0.dst_h
        } else {
            data.height as i32
        },
        src: match node.view {
            Some(v) => match v.src {
                Some(s) => s,
                None => whole,
            },
            None => whole,
        },
        version: data.version,
    }
}

/// The position of a drawn subsurface: one without a view stays at its parent.
pub open spec fn drawn_in(node: &TreeNode, parent: Offset) -> Offset {
    match node.view {
        Some(v) => moved_by(parent, v.offset_x, v.offset_y),
        None => parent,
    }
}

/// The items of a surface itself: none without a buffer.
pub open spec fn own_item(
    node: TreeNode,
    at: Offset,
    origin: Offset,
    pixels: Map<u32, ClientSurfaceData>,
) -> Seq<SurfaceItem> {
    if pixels.contains_key(node.key) && pixels[node.key].width != 0 && pixels[node.key].height != 0 {
        seq![surface_item(&node, at, origin, &pixels[node.key])]
    } else {
        Seq::empty()
    }
}

/// The items of a tree whose root is at `at`, those in front first.
pub open spec fn tree_items(node: TreeNode, at: Offset, origin: Offset, pixels: Map<u32, ClientSurfaceData>) -> Seq<
    SurfaceItem,
>
    decreases node, 0nat,
{
    child_items(node.above@, at, origin, pixels, 0) + own_item(node, at, origin, pixels) + child_items(
        node.below@,
        at,
        origin,
        pixels,
        0,
    )
}

/// The items of the children from the `i`-th on.
pub open spec fn child_items(
    nodes: Seq<TreeNode>,
    parent: Offset,
    origin: Offset,
    pixels: Map<u32, ClientSurfaceData>,
    i: nat,
) -> Seq<SurfaceItem>
    decreases nodes, nodes.len() - i,
{
    if i >= nodes.len() {
        Seq::empty()
    } else {
        tree_items(nodes[i as int], drawn_in(&nodes[i as int], parent), origin, pixels) + child_items(
            nodes,
            parent,
            origin,
            pixels,
            i + 1,
        )
    }
}

fn make_item(node: &TreeNode, at: Offset, origin: Offset, data: &ClientSurfaceData) -> (r: SurfaceItem)
    ensures
        r == surface_item(node, at, origin, data),
{
    let mut w: i32 = data.width as i32;
    let mut h: i32 = data.height as i32;
    let mut src = Area { x: 0, y: 0, w, h };
    if let Some(v) = node.view {
        if v.dst_w > 0 && v.dst_h > 0 {
            w = v.dst_w;
            h = v.dst_h;
        }
        if let Some(s) = v.src {
            src = s;
        }
    }
    SurfaceItem {
        key: node.key,
        x: saturate(at.x as i64 - origin.x as i64),
        y: saturate(at.y as i64 - origin.y as i64),
        w,
        h,
        src,
        version: data.version,
    }
}

fn push_items(
    node: &TreeNode,
    at: Offset,
    origin: Offset,
    pixels: &HashMap<u32, ClientSurfaceData>,
    out: &mut Vec<SurfaceItem>,
)
    ensures
        final(out)@ == old(out)@ + tree_items(*node, at, origin, pixels@),
    decreases node, 0nat,
{
    broadcast use vstd::std_specs::hash::group_hash_axioms;

    let ghost before = out@;
    push_child_items(&node.above, at, origin, pixels, 0, out);
    let ghost middle = out@;
    if let Some(data) = pixels.get(&node.key) {
        if data.width != 0 && data.height != 0 {
            out.push(make_item(node, at, origin, data));
        }
    }
    assert(out@ =~= middle + own_item(*node, at, origin, pixels@));
    push_child_items(&node.below, at, origin, pixels, 0, out);
    assert(out@ =~= before + tree_items(*node, at, origin, pixels@));
}

fn push_child_items(
    nodes: &Vec<TreeNode>,
    parent: Offset,
    origin: Offset,
    pixels: &HashMap<u32, ClientSurfaceData>,
    i: usize,
    out: &mut Vec<SurfaceItem>,
)
    requires
        i <= nodes@.len(),
    ensures
        final(out)@ == old(out)@ + child_items(nodes@, parent, origin, pixels@, i as nat),
    decreases nodes@, nodes@.len() - i,
{
    let ghost before = out@;
    if i < nodes.len() {
        let at = match nodes[i].view {
            Some(v) => shifted(parent, v.offset_x, v.offset_y),
            None => parent,
        };
        push_items(&nodes[i], at, origin, pixels, out);
        push_child_items(nodes, parent, origin, pixels, i + 1, out);
    }
    assert(out@ =~= before + child_items(nodes@, parent, origin, pixels@, i as nat));
}

/// What is drawn for the surfaces of a window or popup: those in front first. `origin` is
/// where the visible part of its buffer begins.
pub fn surface_items(root: &TreeNode, origin: Offset, pixels: &HashMap<u32, ClientSurfaceData>) -> (r: Vec<
    SurfaceItem,
>)
    ensures
        r@ == tree_items(*root, (Offset { x: 0, y: 0 }), origin, pixels@),
{
    let mut out: Vec<SurfaceItem> = Vec::new();
    push_items(root, Offset { x: 0, y: 0 }, origin, pixels, &mut out);
    assert(out@ =~= tree_items(*root, (Offset { x: 0, y: 0 }), origin, pixels@));
    out
}

/// A surface is listed before those below it in the tree, and each of these lies at the
/// place of the surface it belongs to, moved by its own offset: by what its client set, or
/// by its position where it shows nothing.
pub proof fn law_child_moves_with_parent(node: TreeNode, at: Offset, nodes: Seq<TreeNode>, i: nat)
    requires
        i < nodes.len(),
    ensures
        placed_tree(node, at).len() > 0,
        placed_tree(node, at)[0] == (PlacedSurface { key: node.key, at }),
        placed_children(nodes, at, i).len() > 0,
        ({
            let child = nodes[i as int];
            let first = placed_children(nodes, at, i)[0];
            &&& first.key == child.key
            &&& child.view matches Some(v) ==> first.at.x == sat32(at.x + v.offset_x) && first.at.y == sat32(
                at.y + v.offset_y,
            )
            &&& child.view is None ==> first.at.x == sat32(at.x + child.location_x) && first.at.y == sat32(
                at.y + child.location_y,
            )
        }),
{
    reveal_with_fuel(placed_tree, 3);
    reveal_with_fuel(placed_children, 3);
    let child = nodes[i as int];
    let there = placed_in(&child, at);
    assert(placed_tree(child, there)[0] == (PlacedSurface { key: child.key, at: there }));
    assert(placed_children(nodes, at, i) == placed_tree(child, there) + placed_children(nodes, at, i + 1));
}

/// Every surface of a tree is listed once.
pub proof fn law_tree_lists_all(node: TreeNode, at: Offset)
    ensures
        placed_tree(node, at).len() == 1 + placed_children(node.above@, at, 0).len() + placed_children(
            node.below@,
            at,
            0,
        ).len(),
        node.above@.len() == 0 && node.below@.len() == 0 ==> placed_tree(node, at) == seq![
            PlacedSurface { key: node.key, at },
        ],
{
    if node.above@.len() == 0 && node.below@.len() == 0 {
        assert(placed_tree(node, at) =~= seq![PlacedSurface { key: node.key, at }]);
    }
}

/// The items of a tree are those of the surfaces above a surface, then its own if it has
/// pixels, then those of the surfaces below. Its own is at its place counted from the
/// origin, as large as its client wants it shown, and shows the part that its client chose.
pub proof fn law_items_of_tree(node: TreeNode, at: Offset, origin: Offset, pixels: Map<u32, ClientSurfaceData>)
    ensures
        ({
            let items = tree_items(node, at, origin, pixels);
            let above = child_items(node.above@, at, origin, pixels, 0);
            let below = child_items(node.below@, at, origin, pixels, 0);
            let shown = pixels.contains_key(node.key) && pixels[node.key].width != 0 && pixels[node.key].height != 0;
            let data = pixels[node.key];
            &&& !shown ==> items == above + below
            &&& shown ==> items.len() == above.len() + 1 + below.len() && items.take(above.len() as int) == above
                && items.skip(above.len() as int + 1) == below && {
                let own = items[above.len() as int];
                &&& own.key == node.key && own.version == data.version
                &&& own.x == sat32(at.x - origin.x) && own.y == sat32(at.y - origin.y)
                &&& node.view matches Some(v) ==> {
                    &&& v.dst_w > 0 && v.dst_h > 0 ==> own.w == v.dst_w && own.h == v.dst_h
                    &&& !(v.dst_w > 0 && v.dst_h > 0) ==> own.w == data.width as i32 && own.h == data.height as i32
                    &&& v.src matches Some(src) ==> own.src == src
                }
                &&& node.view is None ==> own.w == data.width as i32 && own.h == data.height as i32
                &&& node.view is None || (node.view->0).src is None ==> own.src == (Area {
                    x: 0,
                    y: 0,
                    w: data.width as i32,
                    h: data.height as i32,
                })
            }
        }),
{
    let items = tree_items(node, at, origin, pixels);
    let above = child_items(node.above@, at, origin, pixels, 0);
    let below = child_items(node.below@, at, origin, pixels, 0);
    let own = own_item(node, at, origin, pixels);
    assert(items == above + own + below);
    if own.len() == 0 {
        assert(items =~= above + below);
    } else {
        assert(items.take(above.len() as int) =~= above);
        assert(items.skip(above.len() as int + 1) =~= below);
    }
}

} // verus!
