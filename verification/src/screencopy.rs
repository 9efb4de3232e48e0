//! Framebuffer capture: checking the client's buffer, sizing the staging copy,
//! and writing the captured rows back in the byte order the client asked for.

use vstd::prelude::*;

use crate::pixels::Rgba;

verus! {

/// Rows of a texture copy start at multiples of this many bytes.
pub const ROW_ALIGN: u32 = 256;

/// Why a capture frame failed.
#[derive(Clone, Copy, Debug, PartialEq, Eq, Structural)]
pub enum CaptureFailureReason {
    BufferConstraints,
    Unknown,
}

/// What a look at the client's buffer found.
#[derive(Clone, Copy, Debug, PartialEq, Eq, Structural)]
pub enum BufferPeek {
    Shm { width: i32, height: i32 },
    /// The buffer is not shared memory.
    NotManaged,
    Failed,
}

/// How a capture frame ends.
#[derive(Clone, Copy, Debug, PartialEq, Eq, Structural)]
pub enum CaptureOutcome {
    /// The frame is delivered, with its whole area reported as damaged.
    Success { damage_width: i32, damage_height: i32 },
    Fail(CaptureFailureReason),
}

/// Where the rows of a client buffer lie.
#[derive(Clone, Copy, Debug, PartialEq, Eq, Structural)]
pub struct DestLayout {
    pub width: i32,
    pub height: i32,
    pub stride: i32,
    pub offset: i32,
}

/// The captured image: rows of R, G, B, A bytes, `bytes_per_row` apart.
#[derive(Clone, Copy, Debug, PartialEq, Eq, Structural)]
pub struct CaptureSize {
    pub width: u32,
    pub height: u32,
}

/// The output's texture can be captured once it exists and has an area.
pub fn capture_ready(has_renderer: bool, has_texture: bool, size: CaptureSize) -> (r: bool)
    ensures
        r <==> has_renderer && has_texture && size.width != 0 && size.height != 0,
{
    has_renderer && has_texture && size.width != 0 && size.height != 0
}

/// Accepts a shared-memory buffer of exactly the output's size.
pub fn check_buffer(peek: BufferPeek, size: CaptureSize) -> (r: Result<(), CaptureFailureReason>)
    ensures
        r == match buffer_fault(peek, size) {
            Some(reason) => Err::<(), _>(reason),
            None => Ok(()),
        },
{
    match peek {
        BufferPeek::NotManaged => Err(CaptureFailureReason::BufferConstraints),
        BufferPeek::Failed => Err(CaptureFailureReason::Unknown),
        BufferPeek::Shm { width, height } => {
            if width <= 0 || height <= 0 {
                return Err(CaptureFailureReason::BufferConstraints);
            }
            if width as u32 != size.width || height as u32 != size.height {
                return Err(CaptureFailureReason::BufferConstraints);
            }
            Ok(())
        },
    }
}

/// The length of a row of `width` pixels, rounded up to the copy alignment.
pub open spec fn padded_row(width: u32) -> int {
    ((4 * width + ROW_ALIGN - 1) / ROW_ALIGN as int) * ROW_ALIGN
}

/// The padded length of a row of `width` RGBA pixels.
pub fn padded_bytes_per_row(width: u32) -> (r: u32)
    requires
        4 * width + ROW_ALIGN <= u32::MAX,
    ensures
        r == padded_row(width),
        r % ROW_ALIGN == 0,
        4 * width <= r < 4 * width + ROW_ALIGN,
{
    let unpadded: u32 = width * 4;
    let blocks: u32 = (unpadded + (ROW_ALIGN - 1)) / ROW_ALIGN;
    blocks * ROW_ALIGN
}

/// The number of bytes that the staging copy of an image takes.
pub fn staging_size(size: CaptureSize) -> (r: u64)
    requires
        4 * size.width + ROW_ALIGN <= u32::MAX,
    ensures
        r == padded_row(size.width) * size.height,
{
    let row: u32 = padded_bytes_per_row(size.width);
    assert(0 <= row * size.height <= u32::MAX * u32::MAX) by (nonlinear_arith)
        requires
            0 <= row <= u32::MAX,
            0 <= size.height <= u32::MAX,
    ;
    row as u64 * size.height as u64
}

/// The captured pixel in column `x` of row `y`.
pub open spec fn captured(mapped: Seq<u8>, bytes_per_row: int, x: int, y: int) -> Rgba {
    let i = y * bytes_per_row + 4 * x;
    Rgba { r: mapped[i], g: mapped[i + 1], b: mapped[i + 2], a: mapped[i + 3] }
}

/// The pixel that the client reads in column `x` of row `y`.
pub open spec fn delivered(dst: Seq<u8>, layout: DestLayout, x: int, y: int) -> Rgba {
    let i = layout.offset + y * layout.stride + 4 * x;
    Rgba { r: dst[i + 2], g: dst[i + 1], b: dst[i], a: dst[i + 3] }
}

/// Whether byte `i` of the client's buffer belongs to no pixel of the first
/// `rows` rows.
pub open spec fn outside_rows(layout: DestLayout, width: int, rows: int, i: int) -> bool {
    forall|y: int|
        0 <= y < rows ==> !(layout.offset + #[trigger] (y * layout.stride) <= i < layout.offset + y
            * layout.stride + 4 * width)
}

/// Whether the buffer is still the one that was checked and its rows lie inside
/// its `len` bytes.
pub open spec fn layout_fits(layout: DestLayout, expected_w: i32, expected_h: i32, len: int) -> bool {
    &&& layout.width == expected_w
    &&& layout.height == expected_h
    &&& layout.offset + layout.stride * expected_h <= len
}

/// Whether pixel `x` of the row at `to` holds pixel `x` of the row at `from`,
/// with its channels in the client's order.
spec fn swapped(dst: Seq<u8>, to: int, mapped: Seq<u8>, from: int, want_argb: bool, x: int) -> bool {
    &&& dst[to + 4 * x] == mapped[from + 4 * x + 2]
    &&& dst[to + 4 * x + 1] == mapped[from + 4 * x + 1]
    &&& dst[to + 4 * x + 2] == mapped[from + 4 * x]
    &&& dst[to + 4 * x + 3] == if want_argb {
        mapped[from + 4 * x + 3]
    } else {
        255u8
    }
}

/// Copies one row of RGBA pixels to B, G, R, A at byte `to`.
fn write_row(dst: &mut Vec<u8>, to: usize, mapped: &[u8], from: usize, width: u32, want_argb: bool)
    requires
        from + 4 * width <= mapped@.len() <= usize::MAX,
        to + 4 * width <= old(dst)@.len() <= usize::MAX,
    ensures
        final(dst)@.len() == old(dst)@.len(),
        forall|i: int|
            0 <= i < old(dst)@.len() && !(to <= i < to + 4 * width) ==> #[trigger] final(dst)@[i] == old(dst)@[i],
        forall|x: int|
            0 <= x < width ==> #[trigger] swapped(final(dst)@, to as int, mapped@, from as int, want_argb, x),
{
    let mut x: u32 = 0;
    while x < width
        invariant
            0 <= x <= width,
            from + 4 * width <= mapped@.len() <= usize::MAX,
            to + 4 * width <= dst@.len() <= usize::MAX,
            dst@.len() == old(dst)@.len(),
            forall|i: int|
                0 <= i < old(dst)@.len() && !(to <= i < to + 4 * x) ==> #[trigger] dst@[i] == old(dst)@[i],
            forall|k: int|
                0 <= k < x ==> #[trigger] swapped(dst@, to as int, mapped@, from as int, want_argb, k),
        decreases width - x,
    {
        let s: usize = from + 4 * x as usize;
        let d: usize = to + 4 * x as usize;
        let a: u8 = if want_argb {
            mapped[s + 3]
        } else {
            0xff
        };
        let ghost before = dst@;
        dst.set(d, mapped[s + 2]);
        dst.set(d + 1, mapped[s + 1]);
        dst.set(d + 2, mapped[s]);
        dst.set(d + 3, a);
        assert forall|k: int| 0 <= k < x + 1 implies #[trigger] swapped(
            dst@,
            to as int,
            mapped@,
            from as int,
            want_argb,
            k,
        ) by {
            if k < x {
                assert(swapped(before, to as int, mapped@, from as int, want_argb, k));
            }
        }
        x += 1;
    }
}

/// Whether the captured image is in the client's buffer, which was `before`.
/// Without an alpha channel every delivered pixel is opaque; bytes between the
/// rows keep their value.
pub open spec fn image_delivered(
    mapped: Seq<u8>,
    size: CaptureSize,
    want_argb: bool,
    layout: DestLayout,
    before: Seq<u8>,
    after: Seq<u8>,
) -> bool {
    &&& after.len() == before.len()
    &&& forall|x: int, y: int|
        0 <= x < size.width && 0 <= y < size.height ==> (#[trigger] delivered(after, layout, x, y)) == {
            let p = captured(mapped, padded_row(size.width), x, y);
            if want_argb {
                p
            } else {
                Rgba { a: 255, ..p }
            }
        }
    &&& forall|i: int|
        0 <= i < before.len() && outside_rows(layout, size.width as int, size.height as int, i)
            ==> #[trigger] after[i] == before[i]
}

/// Writes the captured image into the client's buffer, which is refused when it
/// is no longer the one that was checked or its rows leave its memory.
pub fn write_back(
    mapped: &[u8],
    size: CaptureSize,
    want_argb: bool,
    expected_w: i32,
    expected_h: i32,
    layout: DestLayout,
    dst: &mut Vec<u8>,
) -> (r: Result<(), ()>)
    requires
        4 * size.width + ROW_ALIGN <= u32::MAX,
        padded_row(size.width) * size.height <= mapped@.len(),
        expected_w == size.width,
        expected_h == size.height,
        layout.offset >= 0,
        4 * size.width <= layout.stride,
    ensures
        r is Ok <==> layout_fits(layout, expected_w, expected_h, old(dst)@.len() as int),
        r is Err ==> final(dst)@ == old(dst)@,
        final(dst)@.len() == old(dst)@.len(),
        r is Ok ==> image_delivered(mapped@, size, want_argb, layout, old(dst)@, final(dst)@),
{
    if layout.width != expected_w || layout.height != expected_h {
        return Err(());
    }
    let stride: u64 = layout.stride as u64;
    let offset: u64 = layout.offset as u64;
    let height: u32 = size.height;
    assert(0 <= stride * height <= i32::MAX * u32::MAX) by (nonlinear_arith)
        requires
            0 <= stride <= i32::MAX,
            0 <= height <= u32::MAX,
    ;
    let needed: u64 = offset + stride * height as u64;
    if needed > dst.len() as u64 {
        return Err(());
    }
    let row: u64 = padded_bytes_per_row(size.width) as u64;
    let mapped_len: usize = mapped.len();
    let mut y: u32 = 0;
    while y < height
        invariant
            0 <= y <= height,
            height == size.height,
            height <= i32::MAX,
            row == padded_row(size.width),
            4 * size.width <= row <= u32::MAX,
            row * height <= mapped@.len(),
            mapped_len == mapped@.len(),
            0 <= offset == layout.offset,
            stride == layout.stride,
            4 * size.width <= stride,
            offset + stride * height <= dst@.len(),
            dst@.len() == old(dst)@.len(),
            dst@.len() <= usize::MAX,
            forall|x: int, k: int|
                0 <= x < size.width && 0 <= k < y ==> (#[trigger] delivered(dst@, layout, x, k)) == {
                    let p = captured(mapped@, row as int, x, k);
                    if want_argb {
                        p
                    } else {
                        Rgba { a: 255, ..p }
                    }
                },
            forall|i: int|
                0 <= i < old(dst)@.len() && outside_rows(layout, size.width as int, y as int, i)
                    ==> #[trigger] dst@[i] == old(dst)@[i],
        decreases height - y,
    {
        proof {
            assert(0 <= y * row && y * row + row <= row * height) by (nonlinear_arith)
                requires
                    0 <= y < height,
                    0 <= row,
            ;
            assert(0 <= y * stride && y * stride + stride <= stride * height) by (nonlinear_arith)
                requires
                    0 <= y < height,
                    0 <= stride,
            ;
        }
        let from: usize = (y as u64 * row) as usize;
        let to: usize = (offset + y as u64 * stride) as usize;
        let ghost before = dst@;
        write_row(dst, to, mapped, from, size.width, want_argb);
        proof {
            assert forall|x: int, k: int| 0 <= x < size.width && 0 <= k < y + 1 implies (#[trigger] delivered(
                dst@,
                layout,
                x,
                k,
            )) == ({
                let p = captured(mapped@, row as int, x, k);
                if want_argb {
                    p
                } else {
                    Rgba { a: 255, ..p }
                }
            }) by {
                if k < y {
                    assert(k * stride + stride <= y * stride) by (nonlinear_arith)
                        requires
                            0 <= k < y,
                            0 <= stride,
                    ;
                    assert(0 <= k * stride) by (nonlinear_arith)
                        requires
                            0 <= k,
                            0 <= stride,
                    ;
                    assert(delivered(before, layout, x, k) == delivered(dst@, layout, x, k));
                } else {
                    assert(swapped(dst@, to as int, mapped@, from as int, want_argb, x));
                }
            }
            assert forall|i: int|
                0 <= i < old(dst)@.len() && outside_rows(layout, size.width as int, y + 1, i) implies #[trigger] dst@[i]
                == old(dst)@[i] by {
                assert(outside_rows(layout, size.width as int, y as int, i));
                let k = y as int;
                assert(!(layout.offset + k * layout.stride <= i < layout.offset + k * layout.stride + 4
                    * size.width));
                assert(before[i] == old(dst)@[i]);
            }
        }
        y += 1;
    }
    Ok(())
}

/// How a frame ends after the write-back: `written` is what the write-back
/// returned, or nothing when the buffer could not be opened.
pub fn capture_outcome(written: Option<Result<(), ()>>, buf_w: i32, buf_h: i32) -> (r: CaptureOutcome)
    ensures
        r == match written {
            Some(Ok(_)) => CaptureOutcome::Success { damage_width: buf_w, damage_height: buf_h },
            Some(Err(_)) => CaptureOutcome::Fail(CaptureFailureReason::BufferConstraints),
            None => CaptureOutcome::Fail(CaptureFailureReason::Unknown),
        },
{
    match written {
        Some(Ok(_)) => CaptureOutcome::Success { damage_width: buf_w, damage_height: buf_h },
        Some(Err(_)) => CaptureOutcome::Fail(CaptureFailureReason::BufferConstraints),
        None => CaptureOutcome::Fail(CaptureFailureReason::Unknown),
    }
}

/// What is wrong with a client's buffer, if anything: only shared memory of
/// exactly the output's size is accepted.
pub open spec fn buffer_fault(peek: BufferPeek, size: CaptureSize) -> Option<CaptureFailureReason> {
    match peek {
        BufferPeek::Shm { width, height } => if width > 0 && height > 0 && width == size.width && height
            == size.height {
            None
        } else {
            Some(CaptureFailureReason::BufferConstraints)
        },
        BufferPeek::NotManaged => Some(CaptureFailureReason::BufferConstraints),
        BufferPeek::Failed => Some(CaptureFailureReason::Unknown),
    }
}

/// How a capture frame ends. `read` tells whether the texture could be read,
/// `opened` how the client's buffer of `len` bytes lies when it could be opened.
pub open spec fn frame_outcome(
    peek: BufferPeek,
    size: CaptureSize,
    read: bool,
    opened: Option<DestLayout>,
    len: int,
) -> CaptureOutcome {
    match buffer_fault(peek, size) {
        Some(reason) => CaptureOutcome::Fail(reason),
        None => if !read || opened is None {
            CaptureOutcome::Fail(CaptureFailureReason::Unknown)
        } else if layout_fits(opened->0, size.width as i32, size.height as i32, len) {
            CaptureOutcome::Success { damage_width: size.width as i32, damage_height: size.height as i32 }
        } else {
            CaptureOutcome::Fail(CaptureFailureReason::BufferConstraints)
        },
    }
}

/// Serves one capture frame: checks the client's buffer, and writes what was read
/// of the output's texture into it.
pub fn process_frame(
    peek: BufferPeek,
    size: CaptureSize,
    mapped: Option<&[u8]>,
    want_argb: bool,
    opened: Option<DestLayout>,
    dst: &mut Vec<u8>,
) -> (r: CaptureOutcome)
    requires
        4 * size.width + ROW_ALIGN <= u32::MAX,
        mapped matches Some(m) ==> padded_row(size.width) * size.height <= m@.len(),
        opened matches Some(l) ==> l.offset >= 0 && 4 * size.width <= l.stride,
    ensures
        r == frame_outcome(peek, size, mapped is Some, opened, old(dst)@.len() as int),
        r is Fail ==> final(dst)@ == old(dst)@,
        r is Success ==> image_delivered(mapped->0@, size, want_argb, opened->0, old(dst)@, final(dst)@),
{
    if let Err(reason) = check_buffer(peek, size) {
        return CaptureOutcome::Fail(reason);
    }
    let (buf_w, buf_h) = match peek {
        BufferPeek::Shm { width, height } => (width, height),
        _ => (0, 0),
    };
    match mapped {
        Some(m) => match opened {
            Some(layout) => {
                let written = write_back(m, size, want_argb, buf_w, buf_h, layout, dst);
                capture_outcome(Some(written), buf_w, buf_h)
            },
            None => capture_outcome(None, buf_w, buf_h),
        },
        None => CaptureOutcome::Fail(CaptureFailureReason::Unknown),
    }
}

/// Whether `out` holds the captured rows one after the other, without padding.
pub open spec fn rows_packed(mapped: Seq<u8>, size: CaptureSize, swap_channels: bool, out: Seq<u8>) -> bool {
    forall|x: int, y: int|
        0 <= x < size.width && 0 <= y < size.height ==> #[trigger] crate::pixels::pixel_at(
            out,
            size.width as int,
            x,
            y,
        ) == {
            let p = captured(mapped, padded_row(size.width), x, y);
            if swap_channels {
                Rgba { r: p.b, b: p.r, ..p }
            } else {
                p
            }
        }
}

/// The rows of a padded image, packed without the padding: `width` RGBA pixels
/// per row. With `swap_channels` the source holds B, G, R, A.
pub fn pack_rows(mapped: &[u8], size: CaptureSize, swap_channels: bool) -> (out: Vec<u8>)
    requires
        4 * size.width + ROW_ALIGN <= u32::MAX,
        padded_row(size.width) * size.height <= mapped@.len(),
    ensures
        out@.len() == 4 * (size.width * size.height),
        rows_packed(mapped@, size, swap_channels, out@),
{
    let mut out: Vec<u8> = Vec::new();
    let row: u64 = padded_bytes_per_row(size.width) as u64;
    let width: u32 = size.width;
    let mapped_len: usize = mapped.len();
    let mut y: u32 = 0;
    while y < size.height
        invariant
            0 <= y <= size.height,
            width == size.width,
            row == padded_row(width),
            4 * width <= row <= u32::MAX,
            row * size.height <= mapped@.len(),
            mapped_len == mapped@.len(),
            out@.len() == 4 * (y * width),
            forall|x: int, k: int|
                0 <= x < width && 0 <= k < y ==> #[trigger] crate::pixels::pixel_at(out@, width as int, x, k) == {
                    let p = captured(mapped@, row as int, x, k);
                    if swap_channels {
                        Rgba { r: p.b, b: p.r, ..p }
                    } else {
                        p
                    }
                },
        decreases size.height - y,
    {
        proof {
            assert(0 <= y * row && y * row + row <= row * size.height) by (nonlinear_arith)
                requires
                    0 <= y < size.height,
                    0 <= row,
            ;
        }
        let from: usize = (y as u64 * row) as usize;
        let ghost before = out@;
        let mut x: u32 = 0;
        while x < width
            invariant
                0 <= x <= width,
                from == y * row,
                from + 4 * width <= mapped@.len(),
                mapped_len == mapped@.len(),
                before.len() == 4 * (y * width),
                out@.len() == before.len() + 4 * x,
                forall|i: int| 0 <= i < before.len() ==> #[trigger] out@[i] == before[i],
                forall|k: int|
                    0 <= k < x ==> (#[trigger] crate::pixels::rgba_at(out@, y * width + k)) == {
                        let p = captured(mapped@, row as int, k, y as int);
                        if swap_channels {
                            Rgba { r: p.b, b: p.r, ..p }
                        } else {
                            p
                        }
                    },
            decreases width - x,
        {
            let s: usize = from + 4 * x as usize;
            let (first, third): (u8, u8) = if swap_channels {
                (mapped[s + 2], mapped[s])
            } else {
                (mapped[s], mapped[s + 2])
            };
            let ghost prev = out@;
            out.push(first);
            out.push(mapped[s + 1]);
            out.push(third);
            out.push(mapped[s + 3]);
            assert forall|k: int| 0 <= k < x implies (#[trigger] crate::pixels::rgba_at(out@, y * width + k))
                == crate::pixels::rgba_at(prev, y * width + k) by {}
            x += 1;
        }
        proof {
            assert((y + 1) * width == y * width + width) by (nonlinear_arith);
            assert forall|c: int, k: int| 0 <= c < width && 0 <= k < y + 1 implies #[trigger] crate::pixels::pixel_at(
                out@,
                width as int,
                c,
                k,
            ) == ({
                let p = captured(mapped@, row as int, c, k);
                if swap_channels {
                    Rgba { r: p.b, b: p.r, ..p }
                } else {
                    p
                }
            }) by {
                if k < y {
                    crate::pixels::lemma_pixel_inside(width as int, y as int, c, k);
                    assert(width * y == y * width) by (nonlinear_arith);
                    assert(crate::pixels::pixel_at(before, width as int, c, k) == crate::pixels::pixel_at(
                        out@,
                        width as int,
                        c,
                        k,
                    ));
                } else {
                    assert(crate::pixels::rgba_at(out@, y * width + c) == crate::pixels::pixel_at(
                        out@,
                        width as int,
                        c,
                        k,
                    ));
                }
            }
        }
        y += 1;
    }
    assert(size.height * width == width * size.height) by (nonlinear_arith);
    out
}

/// A captured pixel arrives at its own place in the client's buffer, with red and blue
/// exchanged, and with its own opacity or as opaque, as the client wants it.
pub proof fn law_capture_keeps_the_picture(
    mapped: Seq<u8>,
    size: CaptureSize,
    want_argb: bool,
    layout: DestLayout,
    before: Seq<u8>,
    after: Seq<u8>,
    x: int,
    y: int,
)
    requires
        image_delivered(mapped, size, want_argb, layout, before, after),
        0 <= x < size.width,
        0 <= y < size.height,
    ensures
        ({
            let to = layout.offset + y * layout.stride + 4 * x;
            let from = y * padded_row(size.width) + 4 * x;
            &&& after[to] == mapped[from + 2]
            &&& after[to + 1] == mapped[from + 1]
            &&& after[to + 2] == mapped[from]
            &&& after[to + 3] == if want_argb {
                mapped[from + 3]
            } else {
                255u8
            }
        }),
{
    let p = captured(mapped, padded_row(size.width), x, y);
    assert(delivered(after, layout, x, y) == if want_argb {
        p
    } else {
        Rgba { a: 255, ..p }
    });
}

/// The rows of a capture start at multiples of 256 bytes, the nearest that hold them.
pub proof fn law_rows_are_aligned(width: u32)
    ensures
        padded_row(width) % 256 == 0,
        4 * width <= padded_row(width) < 4 * width + 256,
{
}

/// A capture succeeds exactly with a client buffer of the size captured, once it was
/// read and the buffer could be opened and is long enough. A buffer of another size or
/// kind is the client's fault, and nothing else is.
pub proof fn law_capture_succeeds(
    peek: BufferPeek,
    size: CaptureSize,
    read: bool,
    layout: DestLayout,
    len: int,
)
    requires
        0 < size.width <= i32::MAX,
        0 < size.height <= i32::MAX,
    ensures
        frame_outcome(peek, size, read, Some(layout), len) is Success <==> (peek matches BufferPeek::Shm {
            width,
            height,
        } && width == size.width && height == size.height) && read && layout.width == size.width && layout.height
            == size.height && layout.offset + layout.stride * size.height <= len,
        frame_outcome(peek, size, read, None, len) is Fail,
        (frame_outcome(peek, size, read, Some(layout), len) matches CaptureOutcome::Success {
            damage_width,
            damage_height,
        } ==> damage_width == size.width && damage_height == size.height),
        (peek matches BufferPeek::Shm { width, height } && (width != size.width || height != size.height))
            ==> frame_outcome(peek, size, read, Some(layout), len) == CaptureOutcome::Fail(
            CaptureFailureReason::BufferConstraints,
        ),
        peek is Failed ==> frame_outcome(peek, size, read, Some(layout), len) == CaptureOutcome::Fail(
            CaptureFailureReason::Unknown,
        ),
        peek is NotManaged ==> frame_outcome(peek, size, read, Some(layout), len) == CaptureOutcome::Fail(
            CaptureFailureReason::BufferConstraints,
        ),
{
}

/// A packed pixel is the captured one at the same column and row, byte for byte, with
/// red and blue exchanged where that is asked for.
pub proof fn law_packed_rows_show_the_picture(
    mapped: Seq<u8>,
    size: CaptureSize,
    swap_channels: bool,
    out: Seq<u8>,
    x: int,
    y: int,
)
    requires
        rows_packed(mapped, size, swap_channels, out),
        0 <= x < size.width,
        0 <= y < size.height,
    ensures
        ({
            let to = 4 * (y * size.width + x);
            let from = y * padded_row(size.width) + 4 * x;
            &&& out[to] == mapped[if swap_channels { from + 2 } else { from }]
            &&& out[to + 1] == mapped[from + 1]
            &&& out[to + 2] == mapped[if swap_channels { from } else { from + 2 }]
            &&& out[to + 3] == mapped[from + 3]
        }),
{
    let p = captured(mapped, padded_row(size.width), x, y);
    assert(crate::pixels::pixel_at(out, size.width as int, x, y) == if swap_channels {
        Rgba { r: p.b, b: p.r, ..p }
    } else {
        p
    });
}

} // verus!
