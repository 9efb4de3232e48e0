//! Finds the visible part of a buffer that carries shadow or border padding.

use vstd::prelude::*;

verus! {

/// Above the peak of a shadow gradient, below an anti-aliased border.
pub const ALPHA_THRESHOLD: u8 = 100;

/// The `i`-th of seven evenly spaced positions along a side of length `len`.
pub open spec fn sample(len: u32, i: int) -> int {
    let scaled = if len * i > u32::MAX {
        u32::MAX as int
    } else {
        len * i
    };
    scaled / 8
}

/// Whether the pixel in column `x` and row `y` is opaque enough to be content.
pub open spec fn is_content(pixels: Seq<u8>, width: u32, x: int, y: int) -> bool {
    pixels[4 * (y * width + x) + 3] > ALPHA_THRESHOLD
}

/// Whether row `y` has content in one of the sampled columns.
pub open spec fn row_has_content(pixels: Seq<u8>, width: u32, y: int) -> bool {
    exists|i: int| 1 <= i <= 7 && is_content(pixels, width, #[trigger] sample(width, i), y)
}

/// Whether column `x` has content in one of the sampled rows.
pub open spec fn column_has_content(pixels: Seq<u8>, width: u32, height: u32, x: int) -> bool {
    exists|i: int| 1 <= i <= 7 && is_content(pixels, width, x, #[trigger] sample(height, i))
}

/// Whether `lo..=hi` is the smallest range that holds every place below `len`
/// that has content.
pub open spec fn spans(has_content: spec_fn(int) -> bool, len: int, lo: int, hi: int) -> bool {
    &&& 0 <= lo <= hi < len
    &&& has_content(lo)
    &&& has_content(hi)
    &&& forall|p: int| 0 <= p < len && #[trigger] has_content(p) ==> lo <= p <= hi
}

/// Whether a buffer of this size is there to be scanned.
pub open spec fn scannable(pixels: Seq<u8>, width: u32, height: u32) -> bool {
    width != 0 && height != 0 && 4 * (width * height) <= pixels.len()
}

fn content_at(pixels: &[u8], width: u32, height: u32, x: u32, y: u32) -> (r: bool)
    requires
        scannable(pixels@, width, height),
        x < width,
        y < height,
    ensures
        r == is_content(pixels@, width, x as int, y as int),
{
    let len: usize = pixels.len();
    proof {
        crate::pixels::lemma_pixel_inside(width as int, height as int, x as int, y as int);
        assert(0 <= y * width) by (nonlinear_arith)
            requires
                0 <= y,
                0 <= width,
        ;
    }
    let p: u64 = y as u64 * width as u64 + x as u64;
    pixels[(4 * p + 3) as usize] > ALPHA_THRESHOLD
}

fn sample_at(len: u32, i: u32) -> (r: u32)
    requires
        0 < len,
        1 <= i <= 7,
    ensures
        r == sample(len, i as int),
        r < len,
{
    assert(0 <= len * i <= 7 * len) by (nonlinear_arith)
        requires
            0 <= len,
            1 <= i <= 7,
    ;
    let scaled: u64 = len as u64 * i as u64;
    let capped: u64 = if scaled > u32::MAX as u64 {
        u32::MAX as u64
    } else {
        scaled
    };
    (capped / 8) as u32
}

fn row_scan(pixels: &[u8], width: u32, height: u32, y: u32) -> (r: bool)
    requires
        scannable(pixels@, width, height),
        y < height,
    ensures
        r == row_has_content(pixels@, width, y as int),
{
    let mut i: u32 = 1;
    while i <= 7
        invariant
            1 <= i <= 8,
            scannable(pixels@, width, height),
            y < height,
            forall|k: int| 1 <= k < i ==> !is_content(pixels@, width, #[trigger] sample(width, k), y as int),
        decreases 8 - i,
    {
        let x: u32 = sample_at(width, i);
        if content_at(pixels, width, height, x, y) {
            return true;
        }
        i += 1;
    }
    false
}

fn column_scan(pixels: &[u8], width: u32, height: u32, x: u32) -> (r: bool)
    requires
        scannable(pixels@, width, height),
        x < width,
    ensures
        r == column_has_content(pixels@, width, height, x as int),
{
    let mut i: u32 = 1;
    while i <= 7
        invariant
            1 <= i <= 8,
            scannable(pixels@, width, height),
            x < width,
            forall|k: int| 1 <= k < i ==> !is_content(pixels@, width, x as int, #[trigger] sample(height, k)),
        decreases 8 - i,
    {
        let y: u32 = sample_at(height, i);
        if content_at(pixels, width, height, x, y) {
            return true;
        }
        i += 1;
    }
    false
}

fn row_span(pixels: &[u8], width: u32, height: u32) -> (r: Option<(u32, u32)>)
    requires
        scannable(pixels@, width, height),
    ensures
        match r {
            Some((top, bottom)) => spans(
                |y: int| row_has_content(pixels@, width, y),
                height as int,
                top as int,
                bottom as int,
            ),
            None => forall|y: int| 0 <= y < height ==> !#[trigger] row_has_content(pixels@, width, y),
        },
{
    let mut top: u32 = 0;
    while top < height && !row_scan(pixels, width, height, top)
        invariant
            0 <= top <= height,
            scannable(pixels@, width, height),
            forall|y: int| 0 <= y < top ==> !#[trigger] row_has_content(pixels@, width, y),
        ensures
            0 <= top <= height,
            forall|y: int| 0 <= y < top ==> !#[trigger] row_has_content(pixels@, width, y),
            top < height ==> row_has_content(pixels@, width, top as int),
        decreases height - top,
    {
        top += 1;
    }
    if top == height {
        return None;
    }
    let mut bottom: u32 = height - 1;
    while bottom > top && !row_scan(pixels, width, height, bottom)
        invariant
            top <= bottom < height,
            scannable(pixels@, width, height),
            forall|y: int| bottom < y < height ==> !#[trigger] row_has_content(pixels@, width, y),
        ensures
            top <= bottom < height,
            forall|y: int| bottom < y < height ==> !#[trigger] row_has_content(pixels@, width, y),
            bottom > top ==> row_has_content(pixels@, width, bottom as int),
        decreases bottom,
    {
        bottom -= 1;
    }
    Some((top, bottom))
}

fn column_span(pixels: &[u8], width: u32, height: u32) -> (r: Option<(u32, u32)>)
    requires
        scannable(pixels@, width, height),
    ensures
        match r {
            Some((left, right)) => spans(
                |x: int| column_has_content(pixels@, width, height, x),
                width as int,
                left as int,
                right as int,
            ),
            None => forall|x: int|
                0 <= x < width ==> !#[trigger] column_has_content(pixels@, width, height, x),
        },
{
    let mut left: u32 = 0;
    while left < width && !column_scan(pixels, width, height, left)
        invariant
            0 <= left <= width,
            scannable(pixels@, width, height),
            forall|x: int| 0 <= x < left ==> !#[trigger] column_has_content(pixels@, width, height, x),
        ensures
            0 <= left <= width,
            forall|x: int| 0 <= x < left ==> !#[trigger] column_has_content(pixels@, width, height, x),
            left < width ==> column_has_content(pixels@, width, height, left as int),
        decreases width - left,
    {
        left += 1;
    }
    if left == width {
        return None;
    }
    let mut right: u32 = width - 1;
    while right > left && !column_scan(pixels, width, height, right)
        invariant
            left <= right < width,
            scannable(pixels@, width, height),
            forall|x: int| right < x < width ==> !#[trigger] column_has_content(pixels@, width, height, x),
        ensures
            left <= right < width,
            forall|x: int| right < x < width ==> !#[trigger] column_has_content(pixels@, width, height, x),
            right > left ==> column_has_content(pixels@, width, height, right as int),
        decreases right,
    {
        right -= 1;
    }
    Some((left, right))
}

/// Whether `r` holds the columns that have content in a sampled row and the rows that
/// have content in a sampled column, and no side of it can move inward. Content that
/// only the samples of the other direction see may lie outside it.
pub open spec fn is_bbox(pixels: Seq<u8>, width: u32, height: u32, r: Option<(i32, i32, i32, i32)>) -> bool {
    match r {
        Some((x, y, w, h)) => {
            &&& scannable(pixels, width, height)
            &&& spans(
                |c: int| column_has_content(pixels, width, height, c),
                width as int,
                (x as u32) as int,
                (x as u32) + (w as u32) - 1,
            )
            &&& spans(
                |c: int| row_has_content(pixels, width, c),
                height as int,
                (y as u32) as int,
                (y as u32) + (h as u32) - 1,
            )
        },
        None => {
            ||| !scannable(pixels, width, height)
            ||| forall|x: int| 0 <= x < width ==> !#[trigger] column_has_content(pixels, width, height, x)
            ||| forall|y: int| 0 <= y < height ==> !#[trigger] row_has_content(pixels, width, y)
        },
    }
}

/// The visible part of a premultiplied RGBA buffer, as x, y, width and height: its rows
/// reach from the first to the last with content in one of seven sampled columns, and
/// its columns from the first to the last with content in one of seven sampled rows.
/// There is none when the buffer is empty or short, or when the sampled columns or the
/// sampled rows hold no content. A coordinate above the range of `i32` wraps.
pub fn detect_visible_bbox(pixels: &[u8], width: u32, height: u32) -> (r: Option<(i32, i32, i32, i32)>)
    ensures
        is_bbox(pixels@, width, height, r),
{
    if width == 0 || height == 0 {
        return None;
    }
    assert(0 <= width * height <= u32::MAX * u32::MAX) by (nonlinear_arith)
        requires
            0 <= width <= u32::MAX,
            0 <= height <= u32::MAX,
    ;
    let needed: u128 = 4 * (width as u128 * height as u128);
    if (pixels.len() as u128) < needed {
        return None;
    }
    if let Some((top, bottom)) = row_span(pixels, width, height) {
        if let Some((left, right)) = column_span(pixels, width, height) {
            let w: u32 = right - left + 1;
            let h: u32 = bottom - top + 1;
            assert(forall|v: u32| (#[trigger] (v as i32)) as u32 == v) by (bit_vector);
            return Some((left as i32, top as i32, w as i32, h as i32));
        }
    }
    None
}

/// The visible part holds every sampled pixel that is opaque enough to count: along each row
/// and each column the seven points between its eighths are looked at.
pub proof fn law_bbox_holds_content(pixels: Seq<u8>, width: u32, height: u32, r: Option<(i32, i32, i32, i32)>, x: int, y: int, i: int)
    requires
        is_bbox(pixels, width, height, r),
        r matches Some((_, _, w, h)) && w >= 0 && h >= 0,
        8 * width <= u32::MAX,
        8 * height <= u32::MAX,
        0 <= x < width,
        0 <= y < height,
        1 <= i <= 7,
    ensures
        r matches Some((bx, by, w, h)) && {
            &&& pixels[4 * (y * width + (width * i) / 8) + 3] > 100 ==> by as u32 <= y < by as u32 + h
            &&& pixels[4 * (((height * i) / 8) * width + x) + 3] > 100 ==> bx as u32 <= x < bx as u32 + w
        },
{
    let (bx, by, w, h) = r->0;
    assert(width * i <= 7 * width) by (nonlinear_arith)
        requires
            1 <= i <= 7,
            0 <= width,
    ;
    assert(height * i <= 7 * height) by (nonlinear_arith)
        requires
            1 <= i <= 7,
            0 <= height,
    ;
    assert(sample(width, i) == (width * i) / 8);
    assert(sample(height, i) == (height * i) / 8);
    let columns = |c: int| column_has_content(pixels, width, height, c);
    let rows = |c: int| row_has_content(pixels, width, c);
    if pixels[4 * (y * width + (width * i) / 8) + 3] > 100 {
        assert(is_content(pixels, width, sample(width, i), y));
        assert(rows(y));
    }
    if pixels[4 * (((height * i) / 8) * width + x) + 3] > 100 {
        assert(is_content(pixels, width, x, sample(height, i)));
        assert(columns(x));
    }
}

} // verus!
