//! Pixel buffers: premultiplied RGBA pixels, source-over blending, and the
//! compositing of a surface tree into one buffer.

use vstd::prelude::*;

use crate::num::{max_int, min_int};

verus! {

/// One premultiplied RGBA pixel.
#[derive(Clone, Copy, Debug, PartialEq, Eq, Structural)]
pub struct Rgba {
    pub r: u8,
    pub g: u8,
    pub b: u8,
    pub a: u8,
}

/// The pixel that leaves everything below it visible.
pub open spec fn transparent() -> Rgba {
    Rgba { r: 0, g: 0, b: 0, a: 0 }
}

/// The pixel stored at bytes `4 * p .. 4 * p + 4` of an RGBA buffer.
pub open spec fn rgba_at(bytes: Seq<u8>, p: int) -> Rgba {
    Rgba { r: bytes[4 * p], g: bytes[4 * p + 1], b: bytes[4 * p + 2], a: bytes[4 * p + 3] }
}

/// The pixel in column `x` and row `y` of an RGBA buffer that is `width` wide.
pub open spec fn pixel_at(bytes: Seq<u8>, width: int, x: int, y: int) -> Rgba {
    rgba_at(bytes, y * width + x)
}

/// The pixel that a client stored as B, G, R, A at byte `i`; without an alpha
/// channel the fourth byte is undefined and the pixel is opaque.
pub open spec fn bgra_at(bytes: Seq<u8>, i: int, has_alpha: bool) -> Rgba {
    Rgba {
        r: bytes[i + 2],
        g: bytes[i + 1],
        b: bytes[i],
        a: if has_alpha {
            bytes[i + 3]
        } else {
            255
        },
    }
}

/// One channel of `src + dst * (1 - alpha)`, saturating at 255.
pub open spec fn over_channel(src: u8, dst: u8, alpha: u8) -> u8 {
    let sum = src + (dst * (255 - alpha)) / 255;
    if sum > 255 {
        255
    } else {
        sum as u8
    }
}

/// Source-over of two premultiplied pixels.
pub open spec fn source_over(src: Rgba, dst: Rgba) -> Rgba {
    if src.a == 0 {
        dst
    } else if src.a == 255 {
        src
    } else {
        Rgba {
            r: over_channel(src.r, dst.r, src.a),
            g: over_channel(src.g, dst.g, src.a),
            b: over_channel(src.b, dst.b, src.a),
            a: over_channel(src.a, dst.a, src.a),
        }
    }
}

fn blend_channel(src: u8, dst: u8, alpha: u8) -> (r: u8)
    ensures
        r == over_channel(src, dst, alpha),
{
    let inv: u32 = 255 - alpha as u32;
    assert(dst * inv <= 255 * 255) by (nonlinear_arith)
        requires
            dst <= 255,
            inv <= 255,
    ;
    let sum: u32 = src as u32 + (dst as u32 * inv) / 255;
    if sum > 255 {
        255
    } else {
        sum as u8
    }
}

/// Blends `src` over `dst`.
pub fn blend_over(src: Rgba, dst: Rgba) -> (r: Rgba)
    ensures
        r == source_over(src, dst),
{
    if src.a == 0 {
        dst
    } else if src.a == 255 {
        src
    } else {
        Rgba {
            r: blend_channel(src.r, dst.r, src.a),
            g: blend_channel(src.g, dst.g, src.a),
            b: blend_channel(src.b, dst.b, src.a),
            a: blend_channel(src.a, dst.a, src.a),
        }
    }
}

fn read_bgra(data: &[u8], i: usize, has_alpha: bool) -> (r: Rgba)
    requires
        i + 4 <= data@.len() <= usize::MAX,
    ensures
        r == bgra_at(data@, i as int, has_alpha),
{
    Rgba {
        r: data[i + 2],
        g: data[i + 1],
        b: data[i],
        a: if has_alpha {
            data[i + 3]
        } else {
            255
        },
    }
}

/// Blends `count` client pixels, read from byte `src` of `data`, over the pixels
/// of `out` from index `base` on. Returns whether any of them was visible.
fn blend_row(out: &mut Vec<u8>, base: usize, data: &[u8], src: usize, count: usize, has_alpha: bool) -> (touched:
    bool)
    requires
        src + 4 * count <= data@.len() <= usize::MAX,
        4 * (base + count) <= old(out)@.len() <= usize::MAX,
    ensures
        final(out)@.len() == old(out)@.len(),
        forall|p: int|
            0 <= p && 4 * p + 4 <= old(out)@.len() ==> #[trigger] rgba_at(final(out)@, p) == if base <= p < base
                + count {
                source_over(bgra_at(data@, src + 4 * (p - base), has_alpha), rgba_at(old(out)@, p))
            } else {
                rgba_at(old(out)@, p)
            },
        touched <==> exists|i: int| 0 <= i < count && (#[trigger] bgra_at(data@, src + 4 * i, has_alpha)).a != 0,
{
    let mut touched = false;
    let mut i: usize = 0;
    while i < count
        invariant
            0 <= i <= count,
            src + 4 * count <= data@.len() <= usize::MAX,
            4 * (base + count) <= out@.len() <= usize::MAX,
            out@.len() == old(out)@.len(),
            forall|p: int|
                0 <= p && 4 * p + 4 <= old(out)@.len() ==> #[trigger] rgba_at(out@, p) == if base <= p < base + i {
                    source_over(bgra_at(data@, src + 4 * (p - base), has_alpha), rgba_at(old(out)@, p))
                } else {
                    rgba_at(old(out)@, p)
                },
            touched <==> exists|k: int| 0 <= k < i && (#[trigger] bgra_at(data@, src + 4 * k, has_alpha)).a != 0,
        decreases count - i,
    {
        let s: usize = src + 4 * i;
        let d: usize = 4 * (base + i);
        let texel = read_bgra(data, s, has_alpha);
        let ghost before = out@;
        let under = Rgba { r: out[d], g: out[d + 1], b: out[d + 2], a: out[d + 3] };
        assert(under == rgba_at(out@, base + i));
        let blended = blend_over(texel, under);
        out.set(d, blended.r);
        out.set(d + 1, blended.g);
        out.set(d + 2, blended.b);
        out.set(d + 3, blended.a);
        proof {
            let now = out@;
            assert forall|p: int| 0 <= p && 4 * p + 4 <= now.len() implies #[trigger] rgba_at(now, p) == if p
                == base + i {
                blended
            } else {
                rgba_at(before, p)
            } by {}
            assert(texel == bgra_at(data@, src + 4 * i, has_alpha));
        }
        if texel.a != 0 {
            touched = true;
        }
        i += 1;
    }
    touched
}

/// The contents of a shared-memory client buffer: rows of B, G, R, A bytes,
/// `stride` bytes apart.
#[derive(Clone, Debug)]
pub struct ShmBuffer {
    pub data: Vec<u8>,
    pub width: i32,
    pub height: i32,
    pub stride: i32,
    pub has_alpha: bool,
}

/// One surface of a tree, in drawing order, at its offset from the root.
#[derive(Clone, Debug)]
pub struct SurfaceNode {
    pub offset_x: i32,
    pub offset_y: i32,
    pub width: i32,
    pub height: i32,
    pub buffer: Option<ShmBuffer>,
}

/// The pixels last imported for a surface.
#[derive(Clone, Debug)]
pub struct ClientSurfaceData {
    pub pixels: Vec<u8>,
    pub width: u32,
    pub height: u32,
    /// Set on import, cleared once the pixels were handed to the renderer.
    pub dirty: bool,
    /// Advances with every import.
    pub version: u64,
    /// The commit that the pixels were read from.
    pub last_commit: Option<u64>,
}

impl Default for ClientSurfaceData {
    fn default() -> (d: Self)
        ensures
            d.pixels@ == Seq::<u8>::empty(),
            d.width == 0,
            d.height == 0,
            !d.dirty,
            d.version == 0,
            d.last_commit is None,
    {
        ClientSurfaceData {
            pixels: Vec::new(),
            width: 0,
            height: 0,
            dirty: false,
            version: 0,
            last_commit: None,
        }
    }
}

impl ShmBuffer {
    /// What a shared-memory pool guarantees of every buffer it hands out.
    pub open spec fn wf(self) -> bool {
        self.width >= 0 && self.height >= 0 && self.stride >= 0
    }

    pub fn is_sound(&self) -> (r: bool)
        ensures
            r == self.wf(),
    {
        self.width >= 0 && self.height >= 0 && self.stride >= 0
    }

    /// The pixel in column `x` of row `y`.
    pub open spec fn texel(self, x: int, y: int) -> Rgba {
        bgra_at(self.data@, y * self.stride + 4 * x, self.has_alpha)
    }

    /// Whether the first `count` pixels of row `y` lie inside the data.
    pub open spec fn row_readable(self, y: int, count: int) -> bool {
        y * self.stride + 4 * count <= self.data@.len()
    }
}

impl SurfaceNode {
    /// A node without an area takes no part in compositing.
    pub open spec fn mapped(self) -> bool {
        self.width > 0 && self.height > 0
    }
}

/// The area that a composite covers, in the root's coordinates.
#[derive(Clone, Copy, Debug, PartialEq, Eq, Structural)]
pub struct Bounds {
    pub min_x: i64,
    pub min_y: i64,
    pub max_x: i64,
    pub max_y: i64,
}

impl Bounds {
    pub open spec fn width(self) -> int {
        if self.max_x - self.min_x < 1 {
            1
        } else {
            self.max_x - self.min_x
        }
    }

    pub open spec fn height(self) -> int {
        if self.max_y - self.min_y < 1 {
            1
        } else {
            self.max_y - self.min_y
        }
    }
}

/// The union of the root's own rectangle at the origin and the rectangles of
/// the first `k` nodes.
pub open spec fn tree_bounds(nodes: Seq<SurfaceNode>, k: int) -> Bounds
    decreases k,
{
    if k <= 0 {
        Bounds {
            min_x: 0,
            min_y: 0,
            max_x: if nodes.len() > 0 && nodes[0].width > 0 {
                nodes[0].width as i64
            } else {
                0
            },
            max_y: if nodes.len() > 0 && nodes[0].height > 0 {
                nodes[0].height as i64
            } else {
                0
            },
        }
    } else {
        let b = tree_bounds(nodes, k - 1);
        let n = nodes[k - 1];
        if n.mapped() {
            Bounds {
                min_x: min_int(b.min_x as int, n.offset_x as int) as i64,
                min_y: min_int(b.min_y as int, n.offset_y as int) as i64,
                max_x: max_int(b.max_x as int, n.offset_x + n.width) as i64,
                max_y: max_int(b.max_y as int, n.offset_y + n.height) as i64,
            }
        } else {
            b
        }
    }
}

/// How many pixels of a row of `n`'s buffer fall inside the composite.
pub open spec fn clipped_columns(n: SurfaceNode, b: Bounds) -> int {
    let ox = n.offset_x - b.min_x;
    match n.buffer {
        Some(buf) => min_int(ox + buf.width, b.width()) - ox,
        None => 0,
    }
}

/// The pixel that node `n` puts at column `x` and row `y` of the composite, if
/// it covers that place with readable data.
pub open spec fn node_pixel(n: SurfaceNode, b: Bounds, x: int, y: int) -> Option<Rgba> {
    let ox = n.offset_x - b.min_x;
    let oy = n.offset_y - b.min_y;
    let columns = clipped_columns(n, b);
    match n.buffer {
        Some(buf) => if n.mapped() && ox <= x < ox + columns && oy <= y < oy + buf.height && y < b.height()
            && buf.row_readable(y - oy, columns) {
            Some(buf.texel(x - ox, y - oy))
        } else {
            None
        },
        None => None,
    }
}

/// The composite of the first `k` nodes at column `x` and row `y`: each drawn
/// over what came before, on a transparent ground.
pub open spec fn composite_pixel(nodes: Seq<SurfaceNode>, k: int, b: Bounds, x: int, y: int) -> Rgba
    decreases k,
{
    if k <= 0 {
        transparent()
    } else {
        let under = composite_pixel(nodes, k - 1, b, x, y);
        match node_pixel(nodes[k - 1], b, x, y) {
            Some(src) => source_over(src, under),
            None => under,
        }
    }
}

/// A lone opaque buffer that spans the composite from its corner counts as
/// drawn even when its data is short.
pub open spec fn covers_alone(nodes: Seq<SurfaceNode>, k: int, b: Bounds) -> bool {
    let n = nodes[k];
    match n.buffer {
        Some(buf) => n.mapped() && nodes.len() == 1 && !buf.has_alpha && n.offset_x == b.min_x && n.offset_y
            == b.min_y && clipped_columns(n, b) == b.width(),
        None => false,
    }
}

/// Whether node `k` leaves a visible pixel on the composite.
pub open spec fn node_visible(nodes: Seq<SurfaceNode>, k: int, b: Bounds) -> bool {
    ||| covers_alone(nodes, k, b)
    ||| exists|x: int, y: int|
        (#[trigger] node_pixel(nodes[k], b, x, y)) matches Some(src) && src.a != 0
}

/// Whether any node of the tree leaves a visible pixel.
pub open spec fn tree_visible(nodes: Seq<SurfaceNode>, b: Bounds) -> bool {
    exists|k: int| 0 <= k < nodes.len() && #[trigger] node_visible(nodes, k, b)
}

proof fn lemma_bounds_contain(nodes: Seq<SurfaceNode>, k: int, i: int)
    requires
        0 <= i < k <= nodes.len(),
        nodes[i].mapped(),
    ensures
        tree_bounds(nodes, k).min_x <= nodes[i].offset_x,
        tree_bounds(nodes, k).min_y <= nodes[i].offset_y,
    decreases k,
{
    if i < k - 1 {
        lemma_bounds_contain(nodes, k - 1, i);
    }
}

proof fn lemma_bounds_range(nodes: Seq<SurfaceNode>, k: int)
    requires
        0 <= k <= nodes.len(),
    ensures
        i32::MIN <= tree_bounds(nodes, k).min_x <= 0,
        i32::MIN <= tree_bounds(nodes, k).min_y <= 0,
        0 <= tree_bounds(nodes, k).max_x <= 2 * i32::MAX,
        0 <= tree_bounds(nodes, k).max_y <= 2 * i32::MAX,
    decreases k,
{
    if k > 0 {
        lemma_bounds_range(nodes, k - 1);
    }
}

/// Two different rows of a buffer do not overlap.
proof fn lemma_rows_apart(width: int, y1: int, x1: int, y2: int, x2: int)
    by (nonlinear_arith)
    requires
        0 <= x1 < width,
        0 <= x2 < width,
        y1 != y2,
    ensures
        y1 * width + x1 != y2 * width + x2,
{
    assert(y1 < y2 ==> (y1 + 1) * width <= y2 * width);
    assert(y2 < y1 ==> (y2 + 1) * width <= y1 * width);
}

pub proof fn lemma_pixel_inside(width: int, height: int, x: int, y: int)
    by (nonlinear_arith)
    requires
        0 <= x < width,
        0 <= y < height,
    ensures
        0 <= y * width + x < width * height,
{
    assert((y + 1) * width <= height * width);
}

fn union_bounds(nodes: &Vec<SurfaceNode>) -> (b: Bounds)
    ensures
        b == tree_bounds(nodes@, nodes@.len() as int),
{
    let mut b = Bounds { min_x: 0, min_y: 0, max_x: 0, max_y: 0 };
    if nodes.len() > 0 {
        if nodes[0].width > 0 {
            b.max_x = nodes[0].width as i64;
        }
        if nodes[0].height > 0 {
            b.max_y = nodes[0].height as i64;
        }
    }
    let mut k: usize = 0;
    while k < nodes.len()
        invariant
            0 <= k <= nodes@.len(),
            b == tree_bounds(nodes@, k as int),
        decreases nodes@.len() - k,
    {
        let n = &nodes[k];
        if n.width > 0 && n.height > 0 {
            let right: i64 = n.offset_x as i64 + n.width as i64;
            let bottom: i64 = n.offset_y as i64 + n.height as i64;
            if (n.offset_x as i64) < b.min_x {
                b.min_x = n.offset_x as i64;
            }
            if (n.offset_y as i64) < b.min_y {
                b.min_y = n.offset_y as i64;
            }
            if right > b.max_x {
                b.max_x = right;
            }
            if bottom > b.max_y {
                b.max_y = bottom;
            }
        }
        k += 1;
    }
    b
}

/// Draws one node over the composite. Returns whether it left a visible pixel.
fn draw_node(out: &mut Vec<u8>, n: &SurfaceNode, buf: &ShmBuffer, b: Bounds, w: u32, h: u32) -> (touched: bool)
    requires
        n.buffer == Some(*buf),
        n.mapped(),
        buf.wf(),
        i32::MIN <= b.min_x <= n.offset_x,
        i32::MIN <= b.min_y <= n.offset_y,
        w == b.width(),
        h == b.height(),
        old(out)@.len() == 4 * (w * h),
        old(out)@.len() <= usize::MAX,
    ensures
        final(out)@.len() == old(out)@.len(),
        forall|x: int, y: int|
            0 <= x < w && 0 <= y < h ==> #[trigger] pixel_at(final(out)@, w as int, x, y) == match node_pixel(
                *n,
                b,
                x,
                y,
            ) {
                Some(src) => source_over(src, pixel_at(old(out)@, w as int, x, y)),
                None => pixel_at(old(out)@, w as int, x, y),
            },
        touched <==> exists|x: int, y: int|
            (#[trigger] node_pixel(*n, b, x, y)) matches Some(src) && src.a != 0,
{
    let ox: i64 = n.offset_x as i64 - b.min_x;
    let oy: i64 = n.offset_y as i64 - b.min_y;
    let end: i64 = if ox + buf.width as i64 <= w as i64 {
        ox + buf.width as i64
    } else {
        w as i64
    };
    if end <= ox {
        return false;
    }
    let columns: u64 = (end - ox) as u64;
    let ghost count = columns as int;
    let data = buf.data.as_slice();
    let len: usize = data.len();
    let mut touched = false;
    let mut y: i32 = 0;
    while y < buf.height
        invariant
            0 <= y <= buf.height,
            n.buffer == Some(*buf),
            n.mapped(),
            buf.wf(),
            w == b.width(),
            h == b.height(),
            ox == n.offset_x - b.min_x,
            oy == n.offset_y - b.min_y,
            0 <= ox,
            0 <= oy <= u32::MAX,
            0 < count == clipped_columns(*n, b),
            columns == count,
            ox + count <= w,
            data@ == buf.data@,
            len == data@.len(),
            out@.len() == old(out)@.len(),
            out@.len() == 4 * (w * h),
            out@.len() <= usize::MAX,
            forall|x: int, row: int|
                0 <= x < w && 0 <= row < h ==> #[trigger] pixel_at(out@, w as int, x, row) == match node_pixel(
                    *n,
                    b,
                    x,
                    row,
                ) {
                    Some(src) => if row < oy + y {
                        source_over(src, pixel_at(old(out)@, w as int, x, row))
                    } else {
                        pixel_at(old(out)@, w as int, x, row)
                    },
                    None => pixel_at(old(out)@, w as int, x, row),
                },
            touched <==> exists|x: int, row: int|
                row < oy + y && ((#[trigger] node_pixel(*n, b, x, row)) matches Some(src) && src.a != 0),
        decreases buf.height - y,
    {
        let dy: i64 = oy + y as i64;
        assert(0 <= y * buf.stride <= i32::MAX * i32::MAX) by (nonlinear_arith)
            requires
                0 <= y <= i32::MAX,
                0 <= buf.stride <= i32::MAX,
        ;
        let start: u64 = y as u64 * buf.stride as u64;
        let ghost before = out@;
        if dy < h as i64 && start + 4 * columns <= len as u64 {
            proof {
                lemma_pixel_inside(w as int, h as int, ox + count - 1, dy as int);
                assert(dy * w == dy as u64 * w as u64);
            }
            let base: u64 = dy as u64 * w as u64 + ox as u64;
            let row_touched = blend_row(
                out,
                base as usize,
                data,
                start as usize,
                columns as usize,
                buf.has_alpha,
            );
            proof {
                assert(base == dy * w + ox);
                assert forall|x: int, row: int| 0 <= x < w && 0 <= row < h implies #[trigger] pixel_at(
                    out@,
                    w as int,
                    x,
                    row,
                ) == match node_pixel(*n, b, x, row) {
                    Some(src) => if row < oy + y + 1 {
                        source_over(src, pixel_at(old(out)@, w as int, x, row))
                    } else {
                        pixel_at(old(out)@, w as int, x, row)
                    },
                    None => pixel_at(old(out)@, w as int, x, row),
                } by {
                    lemma_pixel_inside(w as int, h as int, x, row);
                    let p = row * w + x;
                    assert(pixel_at(out@, w as int, x, row) == rgba_at(out@, p));
                    assert(pixel_at(before, w as int, x, row) == rgba_at(before, p));
                    if row != dy {
                        if ox <= p - dy * w < ox + count {
                            lemma_rows_apart(w as int, row, x, dy as int, p - dy * w);
                        }
                    } else {
                        assert(p - base == x - ox);
                    }
                }
                assert forall|i: int| 0 <= i < count implies #[trigger] bgra_at(
                    data@,
                    start + 4 * i,
                    buf.has_alpha,
                ) == node_pixel(*n, b, ox + i, dy as int)->0 by {}
                if row_touched {
                    let i = choose|i: int|
                        0 <= i < count && (#[trigger] bgra_at(data@, start + 4 * i, buf.has_alpha)).a != 0;
                    assert(node_pixel(*n, b, ox + i, dy as int) is Some);
                } else {
                    assert forall|x: int| node_pixel(*n, b, x, dy as int) is Some implies (#[trigger] node_pixel(
                        *n,
                        b,
                        x,
                        dy as int,
                    ))->0.a == 0 by {
                        assert(bgra_at(data@, start + 4 * (x - ox), buf.has_alpha) == node_pixel(
                            *n,
                            b,
                            x,
                            dy as int,
                        )->0);
                    }
                }
            }
            if row_touched {
                touched = true;
            }
        } else {
            assert(forall|x: int| (#[trigger] node_pixel(*n, b, x, dy as int)) is None);
        }
        y += 1;
    }
    touched
}

/// Whether `bytes` is the composite of the whole tree, row by row.
pub open spec fn is_composite(bytes: Seq<u8>, nodes: Seq<SurfaceNode>) -> bool {
    let b = tree_bounds(nodes, nodes.len() as int);
    &&& bytes.len() == 4 * (b.width() * b.height())
    &&& forall|x: int, y: int|
        0 <= x < b.width() && 0 <= y < b.height() ==> #[trigger] pixel_at(bytes, b.width(), x, y)
            == composite_pixel(nodes, nodes.len() as int, b, x, y)
}

/// The composite of the tree can be addressed: its sides fit in 32 bits and its
/// bytes in memory, and every buffer is one that a pool can hand out.
pub open spec fn tree_fits(nodes: Seq<SurfaceNode>) -> bool {
    let b = tree_bounds(nodes, nodes.len() as int);
    &&& b.max_x - b.min_x <= i32::MAX
    &&& b.max_y - b.min_y <= i32::MAX
    &&& 4 * (b.width() * b.height()) <= isize::MAX
    &&& forall|i: int| 0 <= i < nodes.len() ==> ((#[trigger] nodes[i]).buffer matches Some(buf) ==> buf.wf())
}

fn side(span: i64) -> (r: u64)
    requires
        span <= i32::MAX,
    ensures
        r == if span < 1 {
            1
        } else {
            span as int
        },
{
    if span < 1 {
        1
    } else {
        span as u64
    }
}

/// Whether the composite of a tree can be addressed.
pub fn fits_in_memory(nodes: &Vec<SurfaceNode>) -> (r: bool)
    ensures
        r == tree_fits(nodes@),
{
    let b = union_bounds(nodes);
    proof {
        lemma_bounds_range(nodes@, nodes@.len() as int);
    }
    if b.max_x - b.min_x > i32::MAX as i64 || b.max_y - b.min_y > i32::MAX as i64 {
        return false;
    }
    let w: u64 = side(b.max_x - b.min_x);
    let h: u64 = side(b.max_y - b.min_y);
    assert(w * h <= i32::MAX * i32::MAX) by (nonlinear_arith)
        requires
            0 <= w <= i32::MAX,
            0 <= h <= i32::MAX,
    ;
    if 4 * (w * h) > isize::MAX as u64 {
        return false;
    }
    let mut i: usize = 0;
    while i < nodes.len()
        invariant
            0 <= i <= nodes@.len(),
            forall|k: int| 0 <= k < i ==> ((#[trigger] nodes@[k]).buffer matches Some(buf) ==> buf.wf()),
        decreases nodes@.len() - i,
    {
        if let Some(buf) = &nodes[i].buffer {
            if !buf.is_sound() {
                assert(!(nodes@[i as int].buffer->0).wf());
                return false;
            }
        }
        i += 1;
    }
    true
}

/// The version that follows `version`, wrapping at the top.
pub open spec fn next_version(version: u64) -> u64 {
    if version == u64::MAX {
        0
    } else {
        (version + 1) as u64
    }
}

/// Whether `after` holds the composite of a surface tree that was imported over
/// `before`. A lone surface that leaves nothing visible marks the buffer as empty; any
/// other tree is published as a new version.
pub open spec fn tree_imported(nodes: Seq<SurfaceNode>, before: &ClientSurfaceData, after: &ClientSurfaceData) -> bool {
    let b = tree_bounds(nodes, nodes.len() as int);
    &&& is_composite(after.pixels@, nodes)
    &&& after.last_commit == before.last_commit
    &&& if nodes.len() <= 1 && !tree_visible(nodes, b) {
        &&& after.width == 0
        &&& after.height == 0
        &&& after.dirty == before.dirty
        &&& after.version == before.version
    } else {
        &&& after.width == b.width()
        &&& after.height == b.height()
        &&& after.dirty
        &&& after.version == next_version(before.version)
    }
}

/// How many of the first `n` surfaces have something to draw.
pub open spec fn drawn_count(nodes: Seq<SurfaceNode>, n: int) -> nat
    decreases n,
{
    if n <= 0 {
        0
    } else if nodes[n - 1].mapped() && nodes[n - 1].buffer is Some {
        drawn_count(nodes, n - 1) + 1
    } else {
        drawn_count(nodes, n - 1)
    }
}

/// Composites a surface tree into one premultiplied RGBA buffer and returns the
/// number of surfaces that were drawn. A lone surface that leaves nothing visible marks the
/// buffer as empty instead; any other tree publishes the composite as a new
/// version.
pub fn import_shm_buffer(nodes: &Vec<SurfaceNode>, pixels_out: &mut ClientSurfaceData) -> (count: usize)
    requires
        tree_fits(nodes@),
    ensures
        count == drawn_count(nodes@, nodes@.len() as int),
        tree_imported(nodes@, old(pixels_out), final(pixels_out)),
{
    let b = union_bounds(nodes);
    proof {
        lemma_bounds_range(nodes@, nodes@.len() as int);
    }
    let w: u32 = if b.max_x - b.min_x < 1 {
        1
    } else {
        (b.max_x - b.min_x) as u32
    };
    let h: u32 = if b.max_y - b.min_y < 1 {
        1
    } else {
        (b.max_y - b.min_y) as u32
    };
    assert(w * h <= u32::MAX * u32::MAX) by (nonlinear_arith)
        requires
            0 <= w <= u32::MAX,
            0 <= h <= u32::MAX,
    ;
    let area: u64 = w as u64 * h as u64;
    let len: usize = (4 * area) as usize;
    pixels_out.pixels.clear();
    pixels_out.pixels.resize(len, 0);
    assert forall|x: int, y: int| 0 <= x < w && 0 <= y < h implies #[trigger] pixel_at(
        pixels_out.pixels@,
        w as int,
        x,
        y,
    ) == composite_pixel(nodes@, 0, b, x, y) by {
        lemma_pixel_inside(w as int, h as int, x, y);
    }
    let mut any = false;
    let mut count: usize = 0;
    let mut k: usize = 0;
    while k < nodes.len()
        invariant
            0 <= k <= nodes@.len(),
            count == drawn_count(nodes@, k as int),
            count <= k,
            b == tree_bounds(nodes@, nodes@.len() as int),
            w == b.width(),
            h == b.height(),
            i32::MIN <= b.min_x,
            i32::MIN <= b.min_y,
            tree_fits(nodes@),
            pixels_out.pixels@.len() == 4 * (w * h),
            pixels_out.pixels@.len() <= usize::MAX,
            pixels_out.dirty == old(pixels_out).dirty,
            pixels_out.version == old(pixels_out).version,
            pixels_out.last_commit == old(pixels_out).last_commit,
            forall|x: int, y: int|
                0 <= x < w && 0 <= y < h ==> #[trigger] pixel_at(pixels_out.pixels@, w as int, x, y)
                    == composite_pixel(nodes@, k as int, b, x, y),
            any <==> exists|i: int| 0 <= i < k && #[trigger] node_visible(nodes@, i, b),
        decreases nodes@.len() - k,
    {
        let n = &nodes[k];
        let ghost before = pixels_out.pixels@;
        let mut visible = false;
        if n.width > 0 && n.height > 0 {
            if let Some(buf) = &n.buffer {
                proof {
                    lemma_bounds_contain(nodes@, nodes@.len() as int, k as int);
                }
                visible = draw_node(&mut pixels_out.pixels, n, buf, b, w, h);
                count += 1;
                if nodes.len() == 1 && !buf.has_alpha && n.offset_x as i64 == b.min_x && n.offset_y as i64
                    == b.min_y && buf.width as i64 >= w as i64 {
                    visible = true;
                }
            }
        }
        assert(visible <==> node_visible(nodes@, k as int, b));
        assert forall|x: int, y: int| 0 <= x < w && 0 <= y < h implies #[trigger] pixel_at(
            pixels_out.pixels@,
            w as int,
            x,
            y,
        ) == composite_pixel(nodes@, k + 1, b, x, y) by {
            assert(pixel_at(before, w as int, x, y) == composite_pixel(nodes@, k as int, b, x, y));
        }
        if visible {
            any = true;
        }
        k += 1;
    }
    if !any && nodes.len() <= 1 {
        pixels_out.width = 0;
        pixels_out.height = 0;
        return count;
    }
    pixels_out.width = w;
    pixels_out.height = h;
    pixels_out.dirty = true;
    pixels_out.version = pixels_out.version.wrapping_add(1);
    count
}

/// Whether no channel is brighter than the pixel is opaque.
pub open spec fn premultiplied(p: Rgba) -> bool {
    p.r <= p.a && p.g <= p.a && p.b <= p.a
}

/// Whatever is drawn over an opaque pixel, it stays opaque.
pub proof fn law_opaque_stays_opaque(src: Rgba, dst: Rgba)
    requires
        dst.a == 255,
    ensures
        source_over(src, dst).a == 255,
{
    assert((255 * (255 - src.a)) / 255 == 255 - src.a) by (nonlinear_arith);
}

/// Drawing one premultiplied pixel over another gives a premultiplied pixel.
pub proof fn law_blend_stays_premultiplied(src: Rgba, dst: Rgba)
    requires
        premultiplied(src),
        premultiplied(dst),
    ensures
        premultiplied(source_over(src, dst)),
{
    lemma_over_monotone(src.r, src.a, dst.r, dst.a, src.a);
    lemma_over_monotone(src.g, src.a, dst.g, dst.a, src.a);
    lemma_over_monotone(src.b, src.a, dst.b, dst.a, src.a);
}

/// Brighter channels stay brighter.
proof fn lemma_over_monotone(src: u8, more_src: u8, dst: u8, more_dst: u8, alpha: u8)
    requires
        src <= more_src,
        dst <= more_dst,
    ensures
        over_channel(src, dst, alpha) <= over_channel(more_src, more_dst, alpha),
{
    let rest = 255 - alpha;
    assert(dst * rest <= more_dst * rest) by (nonlinear_arith)
        requires
            dst <= more_dst,
            0 <= rest,
    ;
    assert((dst * rest) / 255 <= (more_dst * rest) / 255);
    assert(0 <= dst * rest) by (nonlinear_arith)
        requires
            0 <= rest,
            0 <= dst,
    ;
}

/// The bytes of an RGBA image hold a client's pixel, which is stored as blue, green, red and
/// alpha from byte `from` on, at pixel `p`.
pub open spec fn shows(image: Seq<u8>, p: int, data: Seq<u8>, from: int, has_alpha: bool) -> bool {
    &&& image[4 * p] == data[from + 2]
    &&& image[4 * p + 1] == data[from + 1]
    &&& image[4 * p + 2] == data[from]
    &&& image[4 * p + 3] == if has_alpha {
        data[from + 3] as int
    } else {
        255
    }
}

/// The image of a lone surface is its buffer: the rows from top to bottom, the pixels from
/// left to right. Every pixel is opaque where the buffer has no alpha channel; where it
/// has one, a pixel without alpha is blank.
pub proof fn law_lone_buffer_is_shown(nodes: Seq<SurfaceNode>, before: &ClientSurfaceData, after: &ClientSurfaceData)
    requires
        nodes.len() == 1,
        nodes[0].offset_x == 0,
        nodes[0].offset_y == 0,
        nodes[0].mapped(),
        nodes[0].buffer matches Some(buf) && buf.wf() && buf.width == nodes[0].width && buf.height == nodes[0].height
            && (buf.height - 1) * buf.stride + 4 * buf.width <= buf.data@.len(),
        tree_imported(nodes, before, after),
    ensures
        ({
            let buf = nodes[0].buffer->0;
            let w = buf.width as int;
            &&& after.pixels@.len() == 4 * (w * buf.height)
            &&& !buf.has_alpha ==> after.width == w && after.height == buf.height && after.dirty
            &&& forall|x: int, y: int|
                #![trigger buf.data@[y * buf.stride + 4 * x]]
                #![trigger after.pixels@[4 * (y * w + x)]]
                0 <= x < w && 0 <= y < buf.height ==> {
                    let from = y * buf.stride + 4 * x;
                    if buf.has_alpha && buf.data@[from + 3] == 0 {
                        &&& after.pixels@[4 * (y * w + x)] == 0
                        &&& after.pixels@[4 * (y * w + x) + 1] == 0
                        &&& after.pixels@[4 * (y * w + x) + 2] == 0
                        &&& after.pixels@[4 * (y * w + x) + 3] == 0
                    } else {
                        shows(after.pixels@, y * w + x, buf.data@, from, buf.has_alpha)
                    }
                }
        }),
{
    let buf = nodes[0].buffer->0;
    let w = buf.width as int;
    let h = buf.height as int;
    reveal_with_fuel(tree_bounds, 2);
    let b = tree_bounds(nodes, 1);
    assert(b.min_x == 0 && b.min_y == 0 && b.width() == w && b.height() == h);
    if !buf.has_alpha {
        assert(covers_alone(nodes, 0, b));
        assert(node_visible(nodes, 0, b));
    }
    assert forall|x: int, y: int|
        #![trigger buf.data@[y * buf.stride + 4 * x]]
        #![trigger after.pixels@[4 * (y * w + x)]]
        0 <= x < w && 0 <= y < h implies {
        let from = y * buf.stride + 4 * x;
        if buf.has_alpha && buf.data@[from + 3] == 0 {
            &&& after.pixels@[4 * (y * w + x)] == 0
            &&& after.pixels@[4 * (y * w + x) + 1] == 0
            &&& after.pixels@[4 * (y * w + x) + 2] == 0
            &&& after.pixels@[4 * (y * w + x) + 3] == 0
        } else {
            shows(after.pixels@, y * w + x, buf.data@, from, buf.has_alpha)
        }
    } by {
        lemma_stride(y, h - 1, buf.stride as int);
        reveal_with_fuel(composite_pixel, 2);
        assert(pixel_at(after.pixels@, w, x, y) == composite_pixel(nodes, 1, b, x, y));
        let src = node_pixel(nodes[0], b, x, y)->0;
        assert(node_pixel(nodes[0], b, x, y) is Some);
        law_blend_over_nothing(src);
    }
}

proof fn lemma_stride(y: int, last: int, stride: int)
    by (nonlinear_arith)
    requires
        0 <= y <= last,
        0 <= stride,
    ensures
        0 <= y * stride <= last * stride,
{
}

/// A pixel over nothing is that pixel, or nothing where it is not visible.
pub proof fn law_blend_over_nothing(src: Rgba)
    ensures
        source_over(src, Rgba { r: 0, g: 0, b: 0, a: 0 }) == if src.a == 0 {
            Rgba { r: 0, g: 0, b: 0, a: 0 }
        } else {
            src
        },
{
    assert((0 * (255 - src.a)) / 255 == 0) by (nonlinear_arith);
}

/// Where pixels are blended, what is below shows by as much as the upper pixel is not
/// opaque, rounded down: not at all below an opaque pixel, and wholly below an invisible
/// one.
pub proof fn law_blend_weighs(src: Rgba, dst: Rgba)
    requires
        premultiplied(src),
        premultiplied(dst),
    ensures
        ({
            let r = source_over(src, dst);
            let rest = 255 - src.a;
            &&& src.a == 255 ==> r == src
            &&& src.a == 0 ==> r == dst
            &&& 0 < src.a ==> 255 * (r.r - src.r) <= dst.r * rest < 255 * (r.r - src.r + 1)
            &&& 0 < src.a ==> 255 * (r.g - src.g) <= dst.g * rest < 255 * (r.g - src.g + 1)
            &&& 0 < src.a ==> 255 * (r.b - src.b) <= dst.b * rest < 255 * (r.b - src.b + 1)
            &&& 0 < src.a ==> 255 * (r.a - src.a) <= dst.a * rest < 255 * (r.a - src.a + 1)
        }),
{
    let rest = 255 - src.a;
    lemma_share(src.r, src.a, dst.r);
    lemma_share(src.g, src.a, dst.g);
    lemma_share(src.b, src.a, dst.b);
    lemma_share(src.a, src.a, dst.a);
}

proof fn lemma_share(src: u8, alpha: u8, dst: u8)
    requires
        src <= alpha,
    ensures
        0 <= dst * (255 - alpha) <= 255 * (255 - alpha),
        over_channel(src, dst, alpha) == src + (dst * (255 - alpha)) / 255,
        alpha == 255 ==> dst * (255 - alpha) == 0,
{
    assert(0 <= dst * (255 - alpha) <= 255 * (255 - alpha)) by (nonlinear_arith)
        requires
            0 <= dst <= 255,
            0 <= alpha <= 255,
    ;
    if alpha == 255 {
        assert(dst * (255 - alpha) == 0) by (nonlinear_arith)
            requires
                alpha == 255,
        ;
    }
}

/// Whether a surface has a readable pixel at a point of its root's plane, and at which byte
/// of its buffer that pixel begins: its buffer begins at its offset and is read row by row.
pub open spec fn drawn_at(n: SurfaceNode, px: int, py: int) -> Option<int> {
    match n.buffer {
        Some(buf) => {
            let column = px - n.offset_x;
            let row = py - n.offset_y;
            if n.width > 0 && n.height > 0 && 0 <= column < buf.width && 0 <= row < buf.height && row * buf.stride + 4
                * buf.width <= buf.data@.len() {
                Some(row * buf.stride + 4 * column)
            } else {
                None
            }
        },
        None => None,
    }
}

/// In the image of a tree every point shows the uppermost surface that is opaque there,
/// when no surface drawn after it has a pixel there. The image covers the root at the
/// origin and every surface, and its corner is the least of their corners.
pub proof fn law_uppermost_surface_is_shown(
    nodes: Seq<SurfaceNode>,
    before: &ClientSurfaceData,
    after: &ClientSurfaceData,
    k: int,
    left: int,
    top: int,
    px: int,
    py: int,
)
    requires
        0 <= k < nodes.len(),
        forall|i: int|
            0 <= i < nodes.len() ==> ((#[trigger] nodes[i]).buffer matches Some(buf) ==> buf.wf() && buf.width
                <= nodes[i].width && buf.height <= nodes[i].height),
        tree_imported(nodes, before, after),
        after.width > 0,
        left <= 0,
        top <= 0,
        forall|i: int|
            0 <= i < nodes.len() && (#[trigger] nodes[i]).mapped() ==> left <= nodes[i].offset_x && top
                <= nodes[i].offset_y,
        left == 0 || exists|i: int| 0 <= i < nodes.len() && (#[trigger] nodes[i]).mapped() && nodes[i].offset_x == left,
        top == 0 || exists|i: int| 0 <= i < nodes.len() && (#[trigger] nodes[i]).mapped() && nodes[i].offset_y == top,
        drawn_at(nodes[k], px, py) is Some,
        !(nodes[k].buffer->0).has_alpha || (nodes[k].buffer->0).data@[drawn_at(nodes[k], px, py)->0 + 3] == 255,
        forall|i: int| k < i < nodes.len() ==> (#[trigger] drawn_at(nodes[i], px, py)) is None,
    ensures
        0 <= px - left < after.width,
        0 <= py - top < after.height,
        shows(
            after.pixels@,
            (py - top) * after.width + (px - left),
            (nodes[k].buffer->0).data@,
            drawn_at(nodes[k], px, py)->0,
            (nodes[k].buffer->0).has_alpha,
        ),
{
    let n = nodes.len() as int;
    let b = tree_bounds(nodes, n);
    lemma_corner(nodes, n);
    assert(b.min_x == left && b.min_y == top);
    lemma_far_corner(nodes, n, k);
    let x = px - left;
    let y = py - top;
    assert(nodes[k].buffer is Some);
    assert(clipped_columns(nodes[k], b) == (nodes[k].buffer->0).width);
    assert(node_pixel(nodes[k], b, x, y) is Some);
    assert forall|i: int| k < i < nodes.len() implies (#[trigger] node_pixel(nodes[i], b, x, y)) is None by {
        assert(drawn_at(nodes[i], px, py) is None);
        if nodes[i].mapped() && nodes[i].buffer is Some {
            lemma_far_corner(nodes, n, i);
        }
    }
    lemma_covered(nodes, n, b, k, x, y);
    assert(pixel_at(after.pixels@, b.width(), x, y) == composite_pixel(nodes, n, b, x, y));
}

/// The corner of the bounds is the least corner of the surfaces and the root.
proof fn lemma_corner(nodes: Seq<SurfaceNode>, k: int)
    requires
        0 <= k <= nodes.len(),
    ensures
        ({
            let b = tree_bounds(nodes, k);
            &&& b.min_x <= 0 && b.min_y <= 0
            &&& forall|i: int|
                0 <= i < k && (#[trigger] nodes[i]).mapped() ==> b.min_x <= nodes[i].offset_x && b.min_y
                    <= nodes[i].offset_y
            &&& b.min_x == 0 || exists|i: int|
                0 <= i < k && (#[trigger] nodes[i]).mapped() && nodes[i].offset_x == b.min_x
            &&& b.min_y == 0 || exists|i: int|
                0 <= i < k && (#[trigger] nodes[i]).mapped() && nodes[i].offset_y == b.min_y
        }),
    decreases k,
{
    lemma_bounds_range(nodes, k);
    if k > 0 {
        lemma_corner(nodes, k - 1);
        lemma_bounds_range(nodes, k - 1);
        let b = tree_bounds(nodes, k);
        let c = tree_bounds(nodes, k - 1);
        if b.min_x != c.min_x {
            assert(nodes[k - 1].mapped() && nodes[k - 1].offset_x == b.min_x);
        }
        if b.min_y != c.min_y {
            assert(nodes[k - 1].mapped() && nodes[k - 1].offset_y == b.min_y);
        }
    }
}

/// The bounds reach as far as every surface.
proof fn lemma_far_corner(nodes: Seq<SurfaceNode>, k: int, i: int)
    requires
        0 <= i < k <= nodes.len(),
        nodes[i].mapped(),
    ensures
        nodes[i].offset_x + nodes[i].width <= tree_bounds(nodes, k).max_x,
        nodes[i].offset_y + nodes[i].height <= tree_bounds(nodes, k).max_y,
        tree_bounds(nodes, k).min_x <= nodes[i].offset_x,
        tree_bounds(nodes, k).min_y <= nodes[i].offset_y,
    decreases k,
{
    lemma_bounds_range(nodes, k);
    lemma_bounds_range(nodes, k - 1);
    if i < k - 1 {
        lemma_far_corner(nodes, k - 1, i);
    }
}

/// The pixel of an opaque surface stays while the surfaces after it have none there.
proof fn lemma_covered(nodes: Seq<SurfaceNode>, n: int, b: Bounds, k: int, x: int, y: int)
    requires
        0 <= k < n <= nodes.len(),
        node_pixel(nodes[k], b, x, y) matches Some(src) && src.a == 255,
        forall|i: int| k < i < nodes.len() ==> (#[trigger] node_pixel(nodes[i], b, x, y)) is None,
    ensures
        composite_pixel(nodes, n, b, x, y) == node_pixel(nodes[k], b, x, y)->0,
    decreases n,
{
    if k < n - 1 {
        lemma_covered(nodes, n - 1, b, k, x, y);
        assert(node_pixel(nodes[n - 1], b, x, y) is None);
    }
}

} // verus!
