//! Per-surface import: every surface of a tree keeps its own RGBA buffer, keyed
//! by surface id, so that the renderer can place and crop each on its own.

use std::collections::HashMap;

use vstd::prelude::*;

use crate::pixels::{ClientSurfaceData, Rgba, ShmBuffer};

verus! {

/// The buffer attached to a surface at its last commit. `contents` is absent
/// when the buffer is not readable from here.
#[derive(Debug)]
pub struct Attached {
    pub width: u32,
    pub height: u32,
    pub commit: u64,
    pub contents: Option<ShmBuffer>,
}

/// A surface of the tree being imported.
#[derive(Debug)]
pub struct ImportSurface {
    pub key: u32,
    pub attached: Option<Attached>,
}

/// What an imported surface looks like to its readers.
pub struct SurfacePixels {
    pub pixels: Seq<u8>,
    pub width: u32,
    pub height: u32,
    pub dirty: bool,
    pub version: u64,
    pub last_commit: Option<u64>,
}

impl View for ClientSurfaceData {
    type V = SurfacePixels;

    open spec fn view(&self) -> SurfacePixels {
        SurfacePixels {
            pixels: self.pixels@,
            width: self.width,
            height: self.height,
            dirty: self.dirty,
            version: self.version,
            last_commit: self.last_commit,
        }
    }
}

/// The imported surfaces by key.
pub open spec fn pixel_map(m: Map<u32, ClientSurfaceData>) -> Map<u32, SurfacePixels> {
    Map::new(|k: u32| m.contains_key(k), |k: u32| m[k]@)
}

/// The four bytes of a pixel.
pub open spec fn rgba_bytes(p: Rgba) -> Seq<u8> {
    seq![p.r, p.g, p.b, p.a]
}

/// The first `k` pixels of row `y` as RGBA bytes.
pub open spec fn row_bytes(buf: ShmBuffer, y: int, k: int) -> Seq<u8>
    decreases k,
{
    if k <= 0 {
        Seq::empty()
    } else {
        row_bytes(buf, y, k - 1) + rgba_bytes(buf.texel(k - 1, y))
    }
}

/// The first `rows` rows, `width` pixels each, as RGBA bytes.
pub open spec fn rows_bytes(buf: ShmBuffer, width: int, rows: int) -> Seq<u8>
    decreases rows,
{
    if rows <= 0 {
        Seq::empty()
    } else {
        rows_bytes(buf, width, rows - 1) + row_bytes(buf, rows - 1, width)
    }
}

/// How many of the first `height` rows come before the first row that is not
/// wholly inside the data.
pub open spec fn readable_rows(buf: ShmBuffer, width: int, height: int) -> int
    decreases height,
{
    if height <= 0 {
        0
    } else {
        let r = readable_rows(buf, width, height - 1);
        if r == height - 1 && buf.row_readable(height - 1, width) {
            height
        } else {
            r
        }
    }
}

/// The RGBA bytes that a buffer is converted to.
pub open spec fn converted(buf: ShmBuffer, width: int, height: int) -> Seq<u8> {
    rows_bytes(buf, width, readable_rows(buf, width, height))
}

proof fn lemma_readable_rows_stop(buf: ShmBuffer, width: int, stop: int, height: int)
    requires
        0 <= stop < height,
        readable_rows(buf, width, stop) == stop,
        !buf.row_readable(stop, width),
    ensures
        readable_rows(buf, width, height) == stop,
    decreases height,
{
    if height == stop + 1 {
    } else {
        lemma_readable_rows_stop(buf, width, stop, height - 1);
    }
}

fn convert(buf: &ShmBuffer, width: u32, height: u32) -> (out: Vec<u8>)
    requires
        buf.wf(),
        width <= i32::MAX,
        height <= i32::MAX,
    ensures
        out@ == converted(*buf, width as int, height as int),
{
    let mut out: Vec<u8> = Vec::new();
    let len: usize = buf.data.len();
    let mut y: u32 = 0;
    while y < height
        invariant
            0 <= y <= height,
            buf.wf(),
            width <= i32::MAX,
            height <= i32::MAX,
            len == buf.data@.len(),
            readable_rows(*buf, width as int, y as int) == y,
            out@ == rows_bytes(*buf, width as int, y as int),
        decreases height - y,
    {
        assert(0 <= y * buf.stride <= i32::MAX * i32::MAX) by (nonlinear_arith)
            requires
                0 <= y <= i32::MAX,
                0 <= buf.stride <= i32::MAX,
        ;
        let start: u64 = y as u64 * buf.stride as u64;
        if start + 4 * width as u64 > len as u64 {
            proof {
                lemma_readable_rows_stop(*buf, width as int, y as int, height as int);
            }
            return out;
        }
        let mut x: u32 = 0;
        while x < width
            invariant
                0 <= x <= width,
                len == buf.data@.len(),
                start == y * buf.stride,
                start + 4 * width <= len,
                out@ == rows_bytes(*buf, width as int, y as int) + row_bytes(*buf, y as int, x as int),
            decreases width - x,
        {
            let i: usize = (start + 4 * x as u64) as usize;
            let a: u8 = if buf.has_alpha {
                buf.data[i + 3]
            } else {
                255
            };
            let ghost before = out@;
            out.push(buf.data[i + 2]);
            out.push(buf.data[i + 1]);
            out.push(buf.data[i]);
            out.push(a);
            assert(out@ =~= before + rgba_bytes(buf.texel(x as int, y as int)));
            assert(before + rgba_bytes(buf.texel(x as int, y as int)) =~= rows_bytes(
                *buf,
                width as int,
                y as int,
            ) + row_bytes(*buf, y as int, x + 1));
            x += 1;
        }
        y += 1;
    }
    out
}

/// Whether a surface's pixels have to be read again: it has an area, its
/// contents can be read, and neither its commit nor its size is the one that
/// was imported last.
pub open spec fn needs_import(m: Map<u32, SurfacePixels>, s: ImportSurface) -> bool {
    match s.attached {
        Some(at) => {
            &&& at.width != 0
            &&& at.height != 0
            &&& at.contents is Some
            &&& !(m.contains_key(s.key) && m[s.key].last_commit == Some(at.commit) && m[s.key].width == at.width
                && m[s.key].height == at.height)
        },
        None => false,
    }
}

/// The entry that importing `s` leaves.
pub open spec fn imported_entry(m: Map<u32, SurfacePixels>, s: ImportSurface) -> SurfacePixels
    recommends
        needs_import(m, s),
{
    let at = s.attached->0;
    SurfacePixels {
        pixels: converted(at.contents->0, at.width as int, at.height as int),
        width: at.width,
        height: at.height,
        dirty: true,
        version: crate::pixels::next_version(
            if m.contains_key(s.key) {
                m[s.key].version
            } else {
                0
            },
        ),
        last_commit: Some(at.commit),
    }
}

/// The map after the first `k` surfaces were visited.
pub open spec fn import_upto(m: Map<u32, SurfacePixels>, surfaces: Seq<ImportSurface>, k: int) -> Map<
    u32,
    SurfacePixels,
>
    decreases k,
{
    if k <= 0 {
        m
    } else {
        let prev = import_upto(m, surfaces, k - 1);
        let s = surfaces[k - 1];
        if needs_import(prev, s) {
            prev.insert(s.key, imported_entry(prev, s))
        } else {
            prev
        }
    }
}

/// How many of the first `k` surfaces were imported.
pub open spec fn import_count(m: Map<u32, SurfacePixels>, surfaces: Seq<ImportSurface>, k: int) -> int
    decreases k,
{
    if k <= 0 {
        0
    } else {
        import_count(m, surfaces, k - 1) + if needs_import(import_upto(m, surfaces, k - 1), surfaces[k - 1]) {
            1int
        } else {
            0
        }
    }
}

/// Whether a key belongs to one of the first `k` surfaces.
pub open spec fn is_live(surfaces: Seq<ImportSurface>, k: int, key: u32) -> bool {
    exists|i: int| 0 <= i < k && (#[trigger] surfaces[i]).key == key
}

/// Every attached buffer has sides that fit in 31 bits and, where it can be
/// read, is one that a pool can hand out.
pub open spec fn surfaces_wf(surfaces: Seq<ImportSurface>) -> bool {
    forall|i: int|
        0 <= i < surfaces.len() ==> ((#[trigger] surfaces[i]).attached matches Some(at) ==> at.width <= i32::MAX
            && at.height <= i32::MAX && (at.contents matches Some(buf) ==> buf.wf()))
}

/// Whether every buffer is one that a pool can hand out.
pub fn sound(surfaces: &Vec<ImportSurface>) -> (r: bool)
    ensures
        r == surfaces_wf(surfaces@),
{
    let mut i: usize = 0;
    while i < surfaces.len()
        invariant
            0 <= i <= surfaces@.len(),
            surfaces_wf(surfaces@.take(i as int)),
        decreases surfaces@.len() - i,
    {
        assert(surfaces@.take(i + 1)[i as int] == surfaces@[i as int]);
        if let Some(at) = &surfaces[i].attached {
            let contents_sound = match &at.contents {
                Some(buf) => buf.is_sound(),
                None => true,
            };
            if at.width > i32::MAX as u32 || at.height > i32::MAX as u32 || !contents_sound {
                assert(surfaces@[i as int].attached is Some);
                return false;
            }
        }
        assert forall|k: int| 0 <= k < i + 1 implies ((#[trigger] surfaces@.take(i + 1)[k]).attached matches Some(at)
            ==> at.width <= i32::MAX && at.height <= i32::MAX && (at.contents matches Some(buf) ==> buf.wf())) by {
            if k < i {
                assert(surfaces@.take(i + 1)[k] == surfaces@.take(i as int)[k]);
            }
        }
        i += 1;
    }
    assert(surfaces@.take(surfaces@.len() as int) =~= surfaces@);
    true
}

/// The imported surfaces after a tree was imported: those that left the tree are gone.
pub open spec fn imported_map(m: Map<u32, SurfacePixels>, surfaces: Seq<ImportSurface>) -> Map<u32, SurfacePixels> {
    import_upto(m, surfaces, surfaces.len() as int).restrict(
        Set::new(|key: u32| is_live(surfaces, surfaces.len() as int, key)),
    )
}

/// Imports every surface of a tree whose content changed since it was last
/// imported, and drops the entries of surfaces that left the tree. Returns how
/// many surfaces were imported.
pub fn import_shm_per_surface(surfaces: &Vec<ImportSurface>, out: &mut HashMap<u32, ClientSurfaceData>) -> (imported:
    usize)
    requires
        surfaces_wf(surfaces@),
    ensures
        imported == import_count(pixel_map(old(out)@), surfaces@, surfaces@.len() as int),
        pixel_map(final(out)@) == imported_map(pixel_map(old(out)@), surfaces@),
{
    broadcast use vstd::std_specs::hash::group_hash_axioms;

    let ghost start = pixel_map(out@);
    let mut imported: usize = 0;
    let mut k: usize = 0;
    while k < surfaces.len()
        invariant
            0 <= k <= surfaces@.len(),
            surfaces_wf(surfaces@),
            start == pixel_map(old(out)@),
            pixel_map(out@) == import_upto(start, surfaces@, k as int),
            imported == import_count(start, surfaces@, k as int),
            imported <= k,
        decreases surfaces@.len() - k,
    {
        let s = &surfaces[k];
        let ghost before = out@;
        let mut stale = false;
        if let Some(at) = &s.attached {
            if at.width != 0 && at.height != 0 {
                let mut version: u64 = 0;
                let mut fresh = false;
                if let Some(existing) = out.get(&s.key) {
                    version = existing.version;
                    if let Some(commit) = existing.last_commit {
                        fresh = commit == at.commit && existing.width == at.width && existing.height == at.height;
                    }
                }
                if !fresh {
                    if let Some(buf) = &at.contents {
                        stale = true;
                        let data = ClientSurfaceData {
                            pixels: convert(buf, at.width, at.height),
                            width: at.width,
                            height: at.height,
                            dirty: true,
                            version: version.wrapping_add(1),
                            last_commit: Some(at.commit),
                        };
                        assert(data@ == imported_entry(pixel_map(before), *s));
                        out.insert(s.key, data);
                        assert(pixel_map(out@) =~= pixel_map(before).insert(s.key, data@));
                    }
                }
            }
        }
        assert(stale <==> needs_import(pixel_map(before), *s));
        if stale {
            imported += 1;
        }
        k += 1;
    }
    let ghost full = out@;
    let mut live: HashMap<u32, ClientSurfaceData> = HashMap::new();
    let mut i: usize = 0;
    while i < surfaces.len()
        invariant
            0 <= i <= surfaces@.len(),
            forall|key: u32| #[trigger]
                live@.contains_key(key) <==> (full.contains_key(key) && is_live(surfaces@, i as int, key)),
            forall|key: u32| live@.contains_key(key) ==> #[trigger] live@[key] == full[key],
            forall|key: u32| #[trigger]
                out@.contains_key(key) <==> (full.contains_key(key) && !is_live(surfaces@, i as int, key)),
            forall|key: u32| out@.contains_key(key) ==> #[trigger] out@[key] == full[key],
        decreases surfaces@.len() - i,
    {
        let key: u32 = surfaces[i].key;
        assert forall|other: u32| is_live(surfaces@, i + 1, other) <==> (is_live(surfaces@, i as int, other) || other
            == key) by {
            if other == key {
                assert(surfaces@[i as int].key == other);
            }
        }
        if let Some(data) = out.remove(&key) {
            live.insert(key, data);
        }
        i += 1;
    }
    *out = live;
    proof {
        let n = surfaces@.len() as int;
        assert(pixel_map(out@) =~= pixel_map(full).restrict(Set::new(|key: u32| is_live(surfaces@, n, key))));
    }
    imported
}

proof fn lemma_row_bytes(buf: ShmBuffer, y: int, k: int)
    requires
        0 <= k,
    ensures
        row_bytes(buf, y, k).len() == 4 * k,
        forall|x: int|
            0 <= x < k ==> (#[trigger] row_bytes(buf, y, k)[4 * x]) == buf.texel(x, y).r && row_bytes(buf, y, k)[4 * x
                + 1] == buf.texel(x, y).g && row_bytes(buf, y, k)[4 * x + 2] == buf.texel(x, y).b && row_bytes(
                buf,
                y,
                k,
            )[4 * x + 3] == buf.texel(x, y).a,
    decreases k,
{
    if k > 0 {
        lemma_row_bytes(buf, y, k - 1);
        let before = row_bytes(buf, y, k - 1);
        let all = row_bytes(buf, y, k);
        assert(all == before + rgba_bytes(buf.texel(k - 1, y)));
        assert forall|x: int| 0 <= x < k implies (#[trigger] all[4 * x]) == buf.texel(x, y).r && all[4 * x + 1]
            == buf.texel(x, y).g && all[4 * x + 2] == buf.texel(x, y).b && all[4 * x + 3] == buf.texel(x, y).a by {
            if x < k - 1 {
                assert(all[4 * x] == before[4 * x]);
            }
        }
    }
}

proof fn lemma_rows_bytes(buf: ShmBuffer, width: int, rows: int, y: int)
    requires
        0 <= width,
        0 <= y < rows,
    ensures
        rows_bytes(buf, width, rows).len() == 4 * (rows * width),
        rows_bytes(buf, width, rows).subrange(4 * (y * width), 4 * (y * width) + 4 * width) == row_bytes(buf, y, width),
    decreases rows,
{
    lemma_row_bytes(buf, rows - 1, width);
    let before = rows_bytes(buf, width, rows - 1);
    let last = row_bytes(buf, rows - 1, width);
    lemma_rows_len(buf, width, rows - 1);
    assert((rows - 1) * width + width == rows * width) by (nonlinear_arith);
    if y < rows - 1 {
        lemma_rows_bytes(buf, width, rows - 1, y);
        assert(0 <= y * width && y * width + width <= (rows - 1) * width) by (nonlinear_arith)
            requires
                0 <= width,
                0 <= y,
                y + 1 <= rows - 1,
        ;
        assert(rows_bytes(buf, width, rows).subrange(4 * (y * width), 4 * (y * width) + 4 * width) =~= before.subrange(
            4 * (y * width),
            4 * (y * width) + 4 * width,
        ));
    } else {
        assert(rows_bytes(buf, width, rows).subrange(4 * (y * width), 4 * (y * width) + 4 * width) =~= last);
    }
}

proof fn lemma_rows_len(buf: ShmBuffer, width: int, rows: int)
    requires
        0 <= width,
        0 <= rows,
    ensures
        rows_bytes(buf, width, rows).len() == 4 * (rows * width),
    decreases rows,
{
    if rows > 0 {
        lemma_rows_len(buf, width, rows - 1);
        lemma_row_bytes(buf, rows - 1, width);
        assert((rows - 1) * width + width == rows * width) by (nonlinear_arith);
    } else {
        assert(0 * width == 0) by (nonlinear_arith);
    }
}

proof fn lemma_all_readable(buf: ShmBuffer, width: int, height: int, n: int)
    requires
        buf.wf(),
        0 <= n <= height,
        height > 0 ==> (height - 1) * buf.stride + 4 * width <= buf.data@.len(),
    ensures
        readable_rows(buf, width, n) == n,
    decreases n,
{
    if n > 0 {
        lemma_all_readable(buf, width, height, n - 1);
        assert((n - 1) * buf.stride <= (height - 1) * buf.stride) by (nonlinear_arith)
            requires
                n <= height,
                0 <= buf.stride,
        ;
    }
}

/// A surface with a new commit gets the pixels of its buffer: its rows from top to bottom,
/// the pixels of each from left to right, their blue, green and red bytes turned round, and
/// opaque where the buffer has no alpha channel. Its size, its commit and a new version go
/// with them.
pub proof fn law_new_commit_is_read(m: Map<u32, SurfacePixels>, s: ImportSurface, x: int, y: int)
    requires
        s.attached matches Some(at) && at.width > 0 && at.height > 0 && (at.contents matches Some(buf) && buf.wf() && (
        at.height - 1) * buf.stride + 4 * at.width <= buf.data@.len()) && 0 <= x < at.width && 0 <= y < at.height && !(
        m.contains_key(s.key) && m[s.key].last_commit == Some(at.commit)),
    ensures
        ({
            let at = s.attached->0;
            let buf = at.contents->0;
            let after = imported_map(m, seq![s]);
            let e = after[s.key];
            let p = 4 * (y * at.width + x);
            let from = y * buf.stride + 4 * x;
            &&& after.contains_key(s.key)
            &&& e.width == at.width && e.height == at.height && e.dirty && e.last_commit == Some(at.commit)
            &&& m.contains_key(s.key) && m[s.key].version < u64::MAX ==> e.version == m[s.key].version + 1
            &&& e.pixels.len() == 4 * (at.height * at.width)
            &&& e.pixels[p] == buf.data@[from + 2]
            &&& e.pixels[p + 1] == buf.data@[from + 1]
            &&& e.pixels[p + 2] == buf.data@[from]
            &&& e.pixels[p + 3] == if buf.has_alpha { buf.data@[from + 3] } else { 255 }
        }),
{
    let at = s.attached->0;
    let buf = at.contents->0;
    let w = at.width as int;
    let h = at.height as int;
    lemma_all_readable(buf, w, h, h);
    lemma_rows_bytes(buf, w, h, y);
    lemma_row_bytes(buf, y, w);
    reveal_with_fuel(import_upto, 2);
    assert(seq![s][0] == s);
    assert(is_live(seq![s], 1, s.key));
    assert(needs_import(m, s));
    let bytes = rows_bytes(buf, w, h);
    let row = bytes.subrange(4 * (y * w), 4 * (y * w) + 4 * w);
    assert(0 <= y * w && y * w + w <= h * w) by (nonlinear_arith)
        requires
            0 <= w,
            0 <= y,
            y + 1 <= h,
    ;
    assert(row[4 * x] == bytes[4 * (y * w) + 4 * x]);
    assert(row[4 * x + 1] == bytes[4 * (y * w) + 4 * x + 1]);
    assert(row[4 * x + 2] == bytes[4 * (y * w) + 4 * x + 2]);
    assert(row[4 * x + 3] == bytes[4 * (y * w) + 4 * x + 3]);
    assert(imported_map(m, seq![s])[s.key] == imported_entry(m, s));
    assert(imported_map(m, seq![s])[s.key].pixels == bytes);
}

/// A surface whose commit was read before keeps its pixels, and those of a surface that is
/// no longer in the tree are forgotten.
pub proof fn law_old_commit_is_kept(m: Map<u32, SurfacePixels>, s: ImportSurface, key: u32)
    ensures
        ({
            let after = imported_map(m, seq![s]);
            let same = s.attached is None || (m.contains_key(s.key) && m[s.key].last_commit == Some(
                (s.attached->0).commit,
            ) && m[s.key].width == (s.attached->0).width && m[s.key].height == (s.attached->0).height);
            &&& same ==> (after.contains_key(s.key) <==> m.contains_key(s.key))
            &&& same && m.contains_key(s.key) ==> after[s.key] == m[s.key]
            &&& same ==> import_count(m, seq![s], 1) == 0
            &&& key != s.key ==> !after.contains_key(key)
        }),
{
    reveal_with_fuel(import_upto, 2);
    reveal_with_fuel(import_count, 2);
    assert(seq![s][0] == s);
    assert(is_live(seq![s], 1, s.key));
}

} // verus!
