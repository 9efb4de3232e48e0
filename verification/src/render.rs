//! Putting a frame together: what is copied over what after the window frames
//! were drawn, and when the clock and the frame rate are due.

use vstd::prelude::*;

use crate::layer_shell::Area;
use crate::num::{half, max_i32, max_int, min_int, sat32, saturate};
use crate::order::{is_order, order_by, ordered};
use crate::scene::{is_lock_screen, LockSnapshot, Overlays};
use crate::shell::{ShellMetrics, ShellUi, UiView};
use crate::state::SpikeView;
use crate::windows::WindowState;

verus! {

/// How many frame times the chart shows.
pub const FRAME_HISTORY_LEN: usize = 120;

/// The clock is rewritten and the frame rate measured this often, in
/// milliseconds.
pub const SAMPLE_MS: u64 = 1000;

/// The gap between the panel and what opens below it.
pub const PANEL_GAP: i32 = 6;

/// A rectangle of the output's texture.
#[derive(Clone, Copy, Debug, PartialEq, Eq, Structural)]
pub struct TexelRect {
    pub x: u32,
    pub y: u32,
    pub w: u32,
    pub h: u32,
}

/// The size of the output's texture.
#[derive(Clone, Copy, Debug, PartialEq, Eq, Structural)]
pub struct TextureSize {
    pub w: u32,
    pub h: u32,
}

impl TextureSize {
    /// The size can be addressed with signed coordinates.
    pub open spec fn wf(self) -> bool {
        self.w <= i32::MAX && self.h <= i32::MAX
    }
}

/// One side of a rectangle that was cut to the texture: where it starts, and how
/// long it is.
pub open spec fn cut(start: int, len: int, limit: int) -> (int, int) {
    let lo = max_int(start, 0);
    (lo, max_int(min_int(start + len, limit), lo) - lo)
}

/// The part of a rectangle that is on the texture; nothing of it may be.
pub open spec fn clipped(a: Area, size: TextureSize) -> TexelRect {
    let (x, w) = cut(a.x as int, a.w as int, size.w as int);
    let (y, h) = cut(a.y as int, a.h as int, size.h as int);
    TexelRect { x: x as u32, y: y as u32, w: w as u32, h: h as u32 }
}

fn cut_side(start: i32, len: i32, limit: u32) -> (r: (u32, u32))
    requires
        limit <= i32::MAX,
    ensures
        r.0 == cut(start as int, len as int, limit as int).0,
        r.1 == cut(start as int, len as int, limit as int).1,
{
    let lo: i64 = if start > 0 {
        start as i64
    } else {
        0
    };
    let end: i64 = start as i64 + len as i64;
    let bound: i64 = if end < limit as i64 {
        end
    } else {
        limit as i64
    };
    let hi: i64 = if bound > lo {
        bound
    } else {
        lo
    };
    (lo as u32, (hi - lo) as u32)
}

pub fn clip(a: Area, size: TextureSize) -> (r: TexelRect)
    requires
        size.wf(),
    ensures
        r == clipped(a, size),
{
    let (x, w) = cut_side(a.x, a.w, size.w);
    let (y, h) = cut_side(a.y, a.h, size.h);
    TexelRect { x, y, w, h }
}

pub open spec fn has_area(r: TexelRect) -> bool {
    r.w != 0 && r.h != 0
}

/// The parts of the windows `from..n` that are on the texture, from back to
/// front.
pub open spec fn restacked(windows: Seq<Area>, size: TextureSize, from: int, n: int) -> Seq<TexelRect>
    decreases n - from,
{
    if n <= from {
        Seq::empty()
    } else {
        let rest = restacked(windows, size, from, n - 1);
        let r = clipped(windows[n - 1], size);
        if has_area(r) {
            rest.push(r)
        } else {
            rest
        }
    }
}

/// The parts of the areas from index `from` on that are on the texture.
fn on_texture(areas: &Vec<Area>, size: TextureSize, from: usize) -> (r: Vec<TexelRect>)
    requires
        size.wf(),
        from <= areas@.len(),
    ensures
        r@ == restacked(areas@, size, from as int, areas@.len() as int),
{
    let mut r: Vec<TexelRect> = Vec::new();
    let n: usize = areas.len();
    let mut i: usize = from;
    while i < n
        invariant
            size.wf(),
            n == areas@.len(),
            from <= i <= n,
            r@ == restacked(areas@, size, from as int, i as int),
        decreases n - i,
    {
        let c = clip(areas[i], size);
        if c.w != 0 && c.h != 0 {
            r.push(c);
        }
        i += 1;
    }
    r
}

/// What is copied back after the frame of window `drawn` was drawn: the windows
/// in front of it, whose contents its shadow fell on.
pub fn restack(windows: &Vec<Area>, size: TextureSize, drawn: usize) -> (r: Vec<TexelRect>)
    requires
        size.wf(),
        drawn < windows@.len(),
    ensures
        r@ == restacked(windows@, size, drawn + 1, windows@.len() as int),
{
    let n: usize = windows.len();
    assert(drawn < n);
    on_texture(windows, size, drawn + 1)
}

/// A part of the shell that is drawn above all windows, while it is there.
pub open spec fn band(there: bool, x: int, y: int, w: i32, h: i32) -> Seq<Area> {
    if there {
        seq![Area { x: sat32(x), y: sat32(y), w, h }]
    } else {
        Seq::empty()
    }
}

/// Everything of the shell that is drawn above all windows, in output
/// coordinates: the panel and the dock, then whatever is open.
pub open spec fn overlay_areas(ui: UiView, m: ShellMetrics, output_w: i32, output_h: i32) -> Seq<Area> {
    let panel = max_int(m.panel_h as int, 0);
    let dock = max_int(m.dock_h as int, 0);
    band(true, 0, 0, output_w, panel as i32) + band(true, 0, output_h - dock, output_w, dock as i32) + band(
        ui.datetime_popout_open,
        half(output_w - 320),
        panel + PANEL_GAP,
        320,
        380,
    ) + band(ui.control_centre_open, output_w - 300 - 14, panel + PANEL_GAP, 300, 220) + band(
        ui.launcher_open,
        half(output_w - 540),
        120,
        540,
        64,
    ) + band(ui.help_overlay_visible, half(output_w - 480), half(output_h - 360), 480, 360) + band(
        ui.desktop_menu.open,
        ui.desktop_menu.x as int,
        ui.desktop_menu.y as int,
        220,
        260,
    ) + band(ui.dock_menu.open, ui.dock_menu.x as int, ui.dock_menu.y as int, 220, 280)
}

fn push_band(list: &mut Vec<Area>, there: bool, x: i64, y: i64, w: i32, h: i32)
    ensures
        final(list)@ == old(list)@ + band(there, x as int, y as int, w, h),
{
    if there {
        list.push(Area { x: saturate(x), y: saturate(y), w, h });
    }
    assert(list@ =~= old(list)@ + band(there, x as int, y as int, w, h));
}

fn halve_wide(v: i64) -> (r: i64)
    requires
        v > i64::MIN,
    ensures
        r == half(v as int),
{
    if v >= 0 {
        v / 2
    } else {
        -((-v) / 2)
    }
}

/// What is copied back after all window frames were drawn.
pub fn overlays(ui: &ShellUi, m: ShellMetrics, output_w: i32, output_h: i32) -> (r: Vec<Area>)
    ensures
        r@ == overlay_areas(ui@, m, output_w, output_h),
{
    let panel: i32 = max_i32(m.panel_h, 0);
    let dock: i32 = max_i32(m.dock_h, 0);
    let iw: i64 = output_w as i64;
    let ih: i64 = output_h as i64;
    let below: i64 = panel as i64 + PANEL_GAP as i64;
    let mut r: Vec<Area> = Vec::new();
    push_band(&mut r, true, 0, 0, output_w, panel);
    push_band(&mut r, true, 0, ih - dock as i64, output_w, dock);
    push_band(&mut r, ui.datetime_popout_open, halve_wide(iw - 320), below, 320, 380);
    push_band(&mut r, ui.control_centre_open, iw - 300 - 14, below, 300, 220);
    push_band(&mut r, ui.launcher_open, halve_wide(iw - 540), 120, 540, 64);
    push_band(&mut r, ui.help_overlay_visible, halve_wide(iw - 480), halve_wide(ih - 360), 480, 360);
    push_band(&mut r, ui.desktop_menu.open, ui.desktop_menu.x as i64, ui.desktop_menu.y as i64, 220, 260);
    push_band(&mut r, ui.dock_menu.open, ui.dock_menu.x as i64, ui.dock_menu.y as i64, 220, 280);
    assert(r@ =~= overlay_areas(ui@, m, output_w, output_h));
    r
}

/// How the lock screen is written over the frame, which is black elsewhere.
#[derive(Clone, Copy, Debug, PartialEq, Eq, Structural)]
pub struct LockCopy {
    pub w: u32,
    pub h: u32,
    pub bytes_per_row: u64,
}

/// The part of the lock screen that fits the frame, if any does.
pub open spec fn lock_part(lock_w: u32, lock_h: u32, size: TextureSize) -> Option<LockCopy> {
    let w = min_int(lock_w as int, size.w as int);
    let h = min_int(lock_h as int, size.h as int);
    if w > 0 && h > 0 {
        Some(LockCopy { w: w as u32, h: h as u32, bytes_per_row: (4 * lock_w) as u64 })
    } else {
        None
    }
}

/// The part of the lock screen that fits the frame.
pub fn lock_copy(lock_w: u32, lock_h: u32, size: TextureSize) -> (r: Option<LockCopy>)
    ensures
        r == lock_part(lock_w, lock_h, size),
{
    let w: u32 = if lock_w < size.w {
        lock_w
    } else {
        size.w
    };
    let h: u32 = if lock_h < size.h {
        lock_h
    } else {
        size.h
    };
    if w > 0 && h > 0 {
        Some(LockCopy { w, h, bytes_per_row: 4 * lock_w as u64 })
    } else {
        None
    }
}

/// A step in putting a frame together.
#[derive(Clone, Copy, Debug, PartialEq, Eq, Structural)]
pub enum Pass {
    /// The whole scene is copied.
    Scene,
    /// The frame of a window is drawn: its border, its highlight and its shadow.
    Chrome(usize),
    /// A part of the scene is copied again.
    Copy(TexelRect),
    /// The drag-and-drop icon is blended in.
    Icon,
    /// The whole frame is cleared to opaque black.
    Clear,
    /// The lock screen is written.
    Lock(LockCopy),
}

pub open spec fn copies(rects: Seq<TexelRect>) -> Seq<Pass> {
    rects.map_values(|r: TexelRect| Pass::Copy(r))
}

/// The scene, then the frames of the first `n` windows from back to front, each
/// followed by what is copied back over it.
pub open spec fn framed(windows: Seq<Area>, size: TextureSize, n: int) -> Seq<Pass>
    decreases n,
{
    if n <= 0 {
        seq![Pass::Scene]
    } else {
        framed(windows, size, n - 1).push(Pass::Chrome((n - 1) as usize)) + copies(
            restacked(windows, size, n, windows.len() as int),
        )
    }
}

/// The scene with everything that is drawn on it while the session is not locked.
pub open spec fn desktop_frame(
    chrome: bool,
    windows: Seq<Area>,
    shown: Seq<Area>,
    icon: bool,
    size: TextureSize,
) -> Seq<Pass> {
    let scene = if chrome {
        framed(windows, size, windows.len() as int) + copies(restacked(shown, size, 0, shown.len() as int))
    } else {
        seq![Pass::Scene]
    };
    if icon {
        scene.push(Pass::Icon)
    } else {
        scene
    }
}

/// A frame, hidden behind black and the lock screen while the session is locked.
pub open spec fn locked_frame(
    frame: Seq<Pass>,
    locked: bool,
    lock: Option<(u32, u32)>,
    size: TextureSize,
) -> Seq<Pass> {
    if locked {
        match lock {
            Some((w, h)) => match lock_part(w, h, size) {
                Some(c) => frame.push(Pass::Clear).push(Pass::Lock(c)),
                None => frame.push(Pass::Clear),
            },
            None => frame.push(Pass::Clear),
        }
    } else {
        frame
    }
}

fn push_copies(out: &mut Vec<Pass>, rects: &Vec<TexelRect>)
    ensures
        final(out)@ == old(out)@ + copies(rects@),
{
    let mut i: usize = 0;
    while i < rects.len()
        invariant
            0 <= i <= rects@.len(),
            out@ == old(out)@ + copies(rects@.take(i as int)),
        decreases rects@.len() - i,
    {
        out.push(Pass::Copy(rects[i]));
        i += 1;
        assert(copies(rects@.take(i as int)) =~= copies(rects@.take(i - 1)).push(Pass::Copy(rects@[i - 1])));
    }
    assert(rects@.take(rects@.len() as int) =~= rects@);
}

/// The steps of a frame of `size`. With `chrome`, the frames of the `windows` are drawn,
/// from back to front, and whatever of the shell is `shown` is copied back over them.
/// `icon` says whether a drag has an icon. While the session is `locked` all of it is
/// hidden behind black and behind the lock screen, whose size is `lock` once it has one.
pub fn frame_passes(
    chrome: bool,
    windows: &Vec<Area>,
    shown: &Vec<Area>,
    icon: bool,
    locked: bool,
    lock: Option<(u32, u32)>,
    size: TextureSize,
) -> (r: Vec<Pass>)
    requires
        size.wf(),
    ensures
        r@ == locked_frame(desktop_frame(chrome, windows@, shown@, icon, size), locked, lock, size),
{
    let mut r: Vec<Pass> = Vec::new();
    r.push(Pass::Scene);
    assert(r@ =~= seq![Pass::Scene]);
    if chrome {
        let mut i: usize = 0;
        while i < windows.len()
            invariant
                size.wf(),
                0 <= i <= windows@.len(),
                r@ == framed(windows@, size, i as int),
            decreases windows@.len() - i,
        {
            r.push(Pass::Chrome(i));
            let back = restack(windows, size, i);
            push_copies(&mut r, &back);
            i += 1;
        }
        let above = on_texture(shown, size, 0);
        push_copies(&mut r, &above);
    }
    if icon {
        r.push(Pass::Icon);
    }
    if locked {
        r.push(Pass::Clear);
        if let Some((w, h)) = lock {
            if let Some(c) = lock_copy(w, h, size) {
                r.push(Pass::Lock(c));
            }
        }
    }
    r
}

/// The size of the lock screen.
pub open spec fn snapshot_size(lock: Option<LockSnapshot>) -> Option<(u32, u32)> {
    match lock {
        Some(l) => Some((l.width, l.height)),
        None => None,
    }
}

impl Overlays {
    /// The steps of a frame with the drag icon and the lock as they were taken over.
    pub fn passes(&self, chrome: bool, windows: &Vec<Area>, shown: &Vec<Area>, size: TextureSize) -> (r: Vec<Pass>)
        requires
            size.wf(),
        ensures
            r@ == locked_frame(
                desktop_frame(chrome, windows@, shown@, self.icon is Some, size),
                self.locked,
                snapshot_size(self.lock),
                size,
            ),
    {
        let lock = match &self.lock {
            Some(l) => Some((l.width, l.height)),
            None => None,
        };
        frame_passes(chrome, windows, shown, self.icon.is_some(), self.locked, lock, size)
    }
}

/// Something that a pixel of the frame can show.
pub enum Paint {
    Scene,
    /// Something of the frame of a window, which may leave the pixel as it was.
    Chrome(usize),
    /// Something of the drag-and-drop icon, which may leave the pixel as it was.
    Icon,
    Black,
    Lock,
}

pub open spec fn within(r: TexelRect, x: int, y: int) -> bool {
    r.x <= x < r.x + r.w && r.y <= y < r.y + r.h
}

/// What a pixel can show after a step, from back to front.
pub open spec fn painted(below: Seq<Paint>, pass: Pass, x: int, y: int) -> Seq<Paint> {
    match pass {
        Pass::Scene => seq![Paint::Scene],
        Pass::Chrome(i) => below.push(Paint::Chrome(i)),
        Pass::Copy(r) => if within(r, x, y) {
            seq![Paint::Scene]
        } else {
            below
        },
        Pass::Icon => below.push(Paint::Icon),
        Pass::Clear => seq![Paint::Black],
        Pass::Lock(c) => if x < c.w && y < c.h {
            seq![Paint::Lock]
        } else {
            below
        },
    }
}

/// What a pixel can show after the first `n` steps, over what the texture held before.
pub open spec fn pixel_after(before: Seq<Paint>, passes: Seq<Pass>, n: int, x: int, y: int) -> Seq<Paint>
    decreases n,
{
    if n <= 0 {
        before
    } else {
        painted(pixel_after(before, passes, n - 1, x, y), passes[n - 1], x, y)
    }
}

pub open spec fn pixel_shown(before: Seq<Paint>, passes: Seq<Pass>, x: int, y: int) -> Seq<Paint> {
    pixel_after(before, passes, passes.len() as int, x, y)
}

proof fn lemma_pixel_prefix(before: Seq<Paint>, a: Seq<Pass>, b: Seq<Pass>, n: int, x: int, y: int)
    requires
        0 <= n <= a.len(),
        n <= b.len(),
        forall|i: int| 0 <= i < n ==> a[i] == b[i],
    ensures
        pixel_after(before, a, n, x, y) == pixel_after(before, b, n, x, y),
    decreases n,
{
    if n > 0 {
        lemma_pixel_prefix(before, a, b, n - 1, x, y);
    }
}

proof fn lemma_pixel_push(before: Seq<Paint>, passes: Seq<Pass>, pass: Pass, x: int, y: int)
    ensures
        pixel_shown(before, passes.push(pass), x, y) == painted(pixel_shown(before, passes, x, y), pass, x, y),
{
    lemma_pixel_prefix(before, passes.push(pass), passes, passes.len() as int, x, y);
}

/// Copying parts of the scene leaves the pixel as it was, or shows the scene.
proof fn lemma_pixel_copies(before: Seq<Paint>, passes: Seq<Pass>, rects: Seq<TexelRect>, x: int, y: int)
    ensures
        (exists|i: int| 0 <= i < rects.len() && within(#[trigger] rects[i], x, y)) ==> pixel_shown(
            before,
            passes + copies(rects),
            x,
            y,
        ) == seq![Paint::Scene],
        pixel_shown(before, passes + copies(rects), x, y) == seq![Paint::Scene] || pixel_shown(
            before,
            passes + copies(rects),
            x,
            y,
        ) == pixel_shown(before, passes, x, y),
    decreases rects.len(),
{
    if rects.len() == 0 {
        assert(passes + copies(rects) =~= passes);
    } else {
        let rest = rects.drop_last();
        lemma_pixel_copies(before, passes, rest, x, y);
        assert(passes + copies(rects) =~= (passes + copies(rest)).push(Pass::Copy(rects.last())));
        lemma_pixel_push(before, passes + copies(rest), Pass::Copy(rects.last()), x, y);
        if exists|i: int| 0 <= i < rects.len() && within(#[trigger] rects[i], x, y) {
            let i = choose|i: int| 0 <= i < rects.len() && within(#[trigger] rects[i], x, y);
            if i < rest.len() {
                assert(within(rest[i], x, y));
            }
        }
    }
}

proof fn lemma_restacked_holds(windows: Seq<Area>, size: TextureSize, from: int, n: int, j: int, x: int, y: int)
    requires
        from <= j < n,
        within(clipped(windows[j], size), x, y),
    ensures
        exists|i: int|
            0 <= i < restacked(windows, size, from, n).len() && within(
                #[trigger] restacked(windows, size, from, n)[i],
                x,
                y,
            ),
    decreases n - from,
{
    let all = restacked(windows, size, from, n);
    if j == n - 1 {
        assert(within(all[all.len() - 1], x, y));
    } else {
        lemma_restacked_holds(windows, size, from, n - 1, j, x, y);
        let rest = restacked(windows, size, from, n - 1);
        let i = choose|i: int| 0 <= i < rest.len() && within(#[trigger] rest[i], x, y);
        assert(within(all[i], x, y));
    }
}

/// Whether no frame of the windows behind window `j` can show.
pub open spec fn no_chrome_below(shown: Seq<Paint>, j: int) -> bool {
    forall|k: int| 0 <= k < shown.len() ==> match #[trigger] shown[k] {
        Paint::Chrome(i) => i >= j,
        _ => true,
    }
}

proof fn lemma_framed_pixel(
    before: Seq<Paint>,
    windows: Seq<Area>,
    size: TextureSize,
    n: int,
    j: int,
    x: int,
    y: int,
)
    requires
        0 <= n <= windows.len() <= usize::MAX,
        0 <= j < windows.len(),
        within(clipped(windows[j], size), x, y),
    ensures
        no_chrome_below(pixel_shown(before, framed(windows, size, n), x, y), j),
        n == 0 ==> pixel_shown(before, framed(windows, size, n), x, y) == seq![Paint::Scene],
    decreases n,
{
    reveal_with_fuel(pixel_after, 2);
    if n > 0 {
        let one = framed(windows, size, n - 1);
        let two = one.push(Pass::Chrome((n - 1) as usize));
        let back = restacked(windows, size, n, windows.len() as int);
        lemma_framed_pixel(before, windows, size, n - 1, j, x, y);
        lemma_pixel_push(before, one, Pass::Chrome((n - 1) as usize), x, y);
        lemma_pixel_copies(before, two, back, x, y);
        if n - 1 < j {
            lemma_restacked_holds(windows, size, n, windows.len() as int, j, x, y);
        }
    }
}

/// While the session is locked every pixel of the frame shows the lock screen or is
/// black, whatever else was drawn and whether the lock screen has pixels or not.
pub proof fn law_locked_session_hides_desktop(
    s: SpikeView,
    lock: Option<LockSnapshot>,
    before: Seq<Paint>,
    frame: Seq<Pass>,
    size: TextureSize,
    x: int,
    y: int,
)
    requires
        s.session_locked,
        is_lock_screen(s, lock),
        0 <= x < size.w,
        0 <= y < size.h,
    ensures
        pixel_shown(before, locked_frame(frame, s.session_locked, snapshot_size(lock), size), x, y) == if lock matches Some(
            l,
        ) && x < l.width && y < l.height {
            seq![Paint::Lock]
        } else {
            seq![Paint::Black]
        },
{
    lemma_pixel_push(before, frame, Pass::Clear, x, y);
    if let Some(l) = lock {
        if let Some(c) = lock_part(l.width, l.height, size) {
            lemma_pixel_push(before, frame.push(Pass::Clear), Pass::Lock(c), x, y);
        }
    }
}

/// Inside a window nothing of the frames of the windows behind it shows, their shadows
/// included.
pub proof fn law_window_hides_frames_behind(
    before: Seq<Paint>,
    windows: Seq<Area>,
    shown: Seq<Area>,
    icon: bool,
    size: TextureSize,
    j: int,
    x: int,
    y: int,
)
    requires
        windows.len() <= usize::MAX,
        0 <= j < windows.len(),
        within(clipped(windows[j], size), x, y),
    ensures
        no_chrome_below(pixel_shown(before, desktop_frame(true, windows, shown, icon, size), x, y), j),
{
    let frames = framed(windows, size, windows.len() as int);
    let above = restacked(shown, size, 0, shown.len() as int);
    lemma_framed_pixel(before, windows, size, windows.len() as int, j, x, y);
    lemma_pixel_copies(before, frames, above, x, y);
    lemma_pixel_push(before, frames + copies(above), Pass::Icon, x, y);
}

/// What the shell shows above all windows is free of their frames.
pub proof fn law_shell_covers_frames(
    before: Seq<Paint>,
    windows: Seq<Area>,
    shown: Seq<Area>,
    size: TextureSize,
    k: int,
    x: int,
    y: int,
)
    requires
        0 <= k < shown.len(),
        within(clipped(shown[k], size), x, y),
    ensures
        pixel_shown(before, desktop_frame(true, windows, shown, false, size), x, y) == seq![Paint::Scene],
{
    let frames = framed(windows, size, windows.len() as int);
    let above = restacked(shown, size, 0, shown.len() as int);
    lemma_restacked_holds(shown, size, 0, shown.len() as int, k, x, y);
    lemma_pixel_copies(before, frames, above, x, y);
}

proof fn lemma_scene_first(frame: Seq<Pass>, a: Seq<Paint>, b: Seq<Paint>, n: int, x: int, y: int)
    requires
        1 <= n <= frame.len(),
        frame[0] == Pass::Scene,
    ensures
        pixel_after(a, frame, n, x, y) == pixel_after(b, frame, n, x, y),
    decreases n,
{
    if n > 1 {
        lemma_scene_first(frame, a, b, n - 1, x, y);
    }
}

proof fn lemma_framed_starts(windows: Seq<Area>, size: TextureSize, n: int)
    ensures
        framed(windows, size, n).len() >= 1,
        framed(windows, size, n)[0] == Pass::Scene,
    decreases n,
{
    if n > 0 {
        lemma_framed_starts(windows, size, n - 1);
    }
}

/// Nothing of the frame before shows: no shadow grows darker from frame to frame.
pub proof fn law_frame_starts_afresh(
    a: Seq<Paint>,
    b: Seq<Paint>,
    chrome: bool,
    windows: Seq<Area>,
    shown: Seq<Area>,
    icon: bool,
    locked: bool,
    lock: Option<(u32, u32)>,
    size: TextureSize,
    x: int,
    y: int,
)
    ensures
        pixel_shown(a, locked_frame(desktop_frame(chrome, windows, shown, icon, size), locked, lock, size), x, y)
            == pixel_shown(b, locked_frame(desktop_frame(chrome, windows, shown, icon, size), locked, lock, size), x, y),
{
    lemma_framed_starts(windows, size, windows.len() as int);
    let frame = locked_frame(desktop_frame(chrome, windows, shown, icon, size), locked, lock, size);
    lemma_scene_first(frame, a, b, frame.len() as int, x, y);
}

/// The size of the frame: at least one pixel each way.
pub fn frame_size(w: u32, h: u32) -> (r: TextureSize)
    ensures
        r.w == max_int(w as int, 1),
        r.h == max_int(h as int, 1),
{
    TextureSize {
        w: if w < 1 {
            1
        } else {
            w
        },
        h: if h < 1 {
            1
        } else {
            h
        },
    }
}

/// When the clock and the frame rate were last brought up to date; times in
/// milliseconds since the start.
#[derive(Clone, Copy, Debug, PartialEq, Eq, Structural)]
pub struct FrameClock {
    pub frames: u64,
    pub clock_at: u64,
    pub sample_at: u64,
    pub sample_frames: u64,
}

/// What is due at the start of a frame.
#[derive(Clone, Copy, Debug, PartialEq, Eq)]
pub struct FrameDue {
    /// The clock is rewritten.
    pub clock: bool,
    /// The frames drawn since the last sample, and the time that they took.
    pub sample: Option<(u64, u64)>,
}

impl FrameClock {
    /// No more frames were counted at the last sample than now.
    pub open spec fn wf(self) -> bool {
        self.sample_frames <= self.frames
    }

    pub open spec fn clock_due(self, now: u64) -> bool {
        now >= self.clock_at && now - self.clock_at >= SAMPLE_MS
    }

    pub open spec fn sample_due(self, now: u64) -> bool {
        now >= self.sample_at && now - self.sample_at >= SAMPLE_MS
    }

    /// What a frame that begins at `now` has to bring up to date.
    pub open spec fn due_at(self, now: u64) -> FrameDue {
        FrameDue {
            clock: self.clock_due(now),
            sample: if self.sample_due(now) {
                Some(((self.frames - self.sample_frames) as u64, (now - self.sample_at) as u64))
            } else {
                None
            },
        }
    }

    /// The clock once a frame has begun.
    pub open spec fn begun(self, now: u64) -> FrameClock {
        FrameClock {
            clock_at: if self.clock_due(now) {
                now
            } else {
                self.clock_at
            },
            sample_at: if self.sample_due(now) {
                now
            } else {
                self.sample_at
            },
            sample_frames: if self.sample_due(now) {
                self.frames
            } else {
                self.sample_frames
            },
            ..self
        }
    }

    pub fn new(now: u64) -> (c: Self)
        ensures
            c.wf(),
            c == (FrameClock { frames: 0, clock_at: now, sample_at: now, sample_frames: 0 }),
    {
        FrameClock { frames: 0, clock_at: now, sample_at: now, sample_frames: 0 }
    }

    /// A frame begins.
    pub fn begin(&mut self, now: u64) -> (due: FrameDue)
        requires
            old(self).wf(),
        ensures
            final(self).wf(),
            due == old(self).due_at(now),
            *final(self) == old(self).begun(now),
    {
        let clock: bool = now >= self.clock_at && now - self.clock_at >= SAMPLE_MS;
        if clock {
            self.clock_at = now;
        }
        let sample: Option<(u64, u64)> = if now >= self.sample_at && now - self.sample_at >= SAMPLE_MS {
            let s = (self.frames - self.sample_frames, now - self.sample_at);
            self.sample_frames = self.frames;
            self.sample_at = now;
            Some(s)
        } else {
            None
        };
        FrameDue { clock, sample }
    }

    /// A frame was drawn.
    pub fn rendered(&mut self)
        requires
            old(self).wf(),
            old(self).frames < u64::MAX,
        ensures
            final(self).wf(),
            *final(self) == (FrameClock { frames: (old(self).frames + 1) as u64, ..*old(self) }),
    {
        self.frames = self.frames + 1;
    }
}

/// The history with `sample` at its end; a full history loses its oldest.
pub open spec fn recorded<T>(history: Seq<T>, sample: T) -> Seq<T> {
    if history.len() >= FRAME_HISTORY_LEN {
        history.skip(1).push(sample)
    } else {
        history.push(sample)
    }
}

/// Adds the time of a frame to the chart.
pub fn record_frame<T>(history: &mut Vec<T>, sample: T)
    ensures
        final(history)@ == recorded(old(history)@, sample),
{
    if history.len() >= FRAME_HISTORY_LEN {
        history.remove(0);
        assert(history@ =~= old(history)@.skip(1));
    }
    history.push(sample);
}

/// The ids of the windows.
pub open spec fn window_ids(windows: Seq<WindowState>) -> Seq<i64> {
    windows.map_values(|w: WindowState| w.id as i64)
}

/// The indices of the windows by their ids.
pub fn windows_by_id(windows: &Vec<WindowState>) -> (order: Vec<usize>)
    ensures
        is_order(window_ids(windows@), order@),
        order@ == ordered(window_ids(windows@)),
{
    let mut keys: Vec<i64> = Vec::new();
    let mut i: usize = 0;
    while i < windows.len()
        invariant
            0 <= i <= windows@.len(),
            keys@.len() == i,
            forall|k: int| 0 <= k < i ==> keys@[k] == window_ids(windows@)[k],
        decreases windows@.len() - i,
    {
        keys.push(windows[i].id as i64);
        i += 1;
    }
    assert(keys@ =~= window_ids(windows@));
    order_by(&keys)
}

/// A copy never leaves the texture.
pub proof fn law_copy_on_texture(a: Area, size: TextureSize)
    requires
        size.wf(),
    ensures
        ({
            let r = clipped(a, size);
            has_area(r) ==> r.x + r.w <= size.w && r.y + r.h <= size.h
        }),
{
}

/// What is on the texture already is copied whole.
pub proof fn law_copy_whole(a: Area, size: TextureSize)
    requires
        size.wf(),
        0 <= a.x,
        0 <= a.y,
        0 <= a.w,
        0 <= a.h,
        a.x + a.w <= size.w,
        a.y + a.h <= size.h,
    ensures
        clipped(a, size) == (TexelRect { x: a.x as u32, y: a.y as u32, w: a.w as u32, h: a.h as u32 }),
{
}

/// The chart never holds more than its length.
pub proof fn law_history_bounded<T>(history: Seq<T>, sample: T)
    requires
        history.len() <= FRAME_HISTORY_LEN,
    ensures
        recorded(history, sample).len() <= FRAME_HISTORY_LEN,
        recorded(history, sample).last() == sample,
{
}

/// How the host's window stores pixels.
#[derive(Clone, Copy, Debug, PartialEq, Eq, Structural)]
pub enum SurfaceFormat {
    Rgba8Unorm,
    Bgra8Unorm,
    /// Another one, by its number.
    Other(u32),
}

/// The format to draw in: the first choice is that of our textures, the second
/// the one with red and blue swapped, the last whatever comes first.
pub open spec fn chosen_format(formats: Seq<SurfaceFormat>) -> SurfaceFormat {
    if formats.contains(SurfaceFormat::Rgba8Unorm) {
        SurfaceFormat::Rgba8Unorm
    } else if formats.contains(SurfaceFormat::Bgra8Unorm) {
        SurfaceFormat::Bgra8Unorm
    } else {
        formats[0]
    }
}

fn has_format(formats: &Vec<SurfaceFormat>, f: SurfaceFormat) -> (r: bool)
    ensures
        r == formats@.contains(f),
{
    let mut i: usize = 0;
    while i < formats.len()
        invariant
            0 <= i <= formats@.len(),
            forall|k: int| 0 <= k < i ==> formats@[k] != f,
        decreases formats@.len() - i,
    {
        if formats[i] == f {
            assert(formats@[i as int] == f);
            return true;
        }
        i += 1;
    }
    false
}

/// Chooses among the formats that the host offers.
pub fn configure_surface(formats: &Vec<SurfaceFormat>) -> (r: SurfaceFormat)
    requires
        formats@.len() > 0,
    ensures
        r == chosen_format(formats@),
{
    if has_format(formats, SurfaceFormat::Rgba8Unorm) {
        SurfaceFormat::Rgba8Unorm
    } else if has_format(formats, SurfaceFormat::Bgra8Unorm) {
        SurfaceFormat::Bgra8Unorm
    } else {
        formats[0]
    }
}

/// Whether the textures are to be made anew: there are none, or they have
/// another size.
pub fn texture_stale(current: Option<TextureSize>, wanted: TextureSize) -> (r: bool)
    ensures
        r == (current != Some(wanted)),
{
    match current {
        Some(size) => size != wanted,
        None => true,
    }
}

/// The format that is drawn in is one that the host offers.
pub proof fn law_format_is_offered(formats: Seq<SurfaceFormat>)
    requires
        formats.len() > 0,
    ensures
        formats.contains(chosen_format(formats)),
{
    assert(formats.contains(formats[0]));
}

/// A clipped rectangle has exactly the points of the texture that lie in it.
pub proof fn law_clipping_keeps_what_is_on_texture(a: Area, size: TextureSize, x: int, y: int)
    requires
        size.wf(),
    ensures
        within(clipped(a, size), x, y) <==> a.x <= x < a.x + a.w && a.y <= y < a.y + a.h && 0 <= x < size.w && 0 <= y
            < size.h,
{
}

/// What is copied again is every rectangle from the given one on that is on the
/// texture, in its order.
pub proof fn law_restacked_in_order(windows: Seq<Area>, size: TextureSize, from: int, n: int)
    requires
        0 <= from <= n <= windows.len(),
    ensures
        restacked(windows, size, from, n) == windows.subrange(from, n).map_values(|a: Area| clipped(a, size)).filter(
            |r: TexelRect| r.w != 0 && r.h != 0,
        ),
    decreases n - from,
{
    reveal(Seq::filter);
    let cut = windows.subrange(from, n).map_values(|a: Area| clipped(a, size));
    if from < n {
        law_restacked_in_order(windows, size, from, n - 1);
        assert(cut.drop_last() =~= windows.subrange(from, n - 1).map_values(|a: Area| clipped(a, size)));
        assert(cut.last() == clipped(windows[n - 1], size));
    }
}

/// The panel lies along the top of the output and the dock along its bottom, over its
/// whole width.
pub proof fn law_panel_above_and_dock_below(ui: UiView, m: ShellMetrics, output_w: i32, output_h: i32)
    requires
        0 <= m.panel_h <= output_h,
        0 <= m.dock_h <= output_h,
    ensures
        ({
            let shown = overlay_areas(ui, m, output_w, output_h);
            &&& shown.len() >= 2
            &&& shown[0] == (Area { x: 0, y: 0, w: output_w, h: m.panel_h })
            &&& shown[1].x == 0 && shown[1].w == output_w && shown[1].h == m.dock_h
            &&& shown[1].y + shown[1].h == output_h
        }),
{
}

proof fn lemma_band_joins(list: Seq<Area>, there: bool, x: int, y: int, w: i32, h: i32)
    ensures
        (list + band(there, x, y, w, h)).len() == list.len() + if there { 1int } else { 0 },
        there ==> (list + band(there, x, y, w, h)).contains(Area { x: sat32(x), y: sat32(y), w, h }),
        forall|a: Area| #[trigger] list.contains(a) ==> (list + band(there, x, y, w, h)).contains(a),
{
    let all = list + band(there, x, y, w, h);
    if there {
        assert(all[list.len() as int] == (Area { x: sat32(x), y: sat32(y), w, h }));
    }
    assert forall|a: Area| #[trigger] list.contains(a) implies all.contains(a) by {
        let k = choose|k: int| 0 <= k < list.len() && list[k] == a;
        assert(all[k] == a);
    }
}

/// One more or none.
pub open spec fn one_if(there: bool) -> int {
    if there {
        1
    } else {
        0
    }
}

/// The parts of the shell that are open are shown: the calendar below the panel in the
/// middle, the control centre below it 14 from the right, the launcher and the help in
/// the middle, menus where they were opened. What is closed is not shown.
pub proof fn law_open_parts_are_shown(ui: UiView, m: ShellMetrics, output_w: i32, output_h: i32, centre: int, row: int)
    requires
        600 <= output_w,
        400 <= output_h,
        0 <= m.panel_h <= i32::MAX - 6,
        0 <= m.dock_h <= output_h,
        2 * centre <= output_w <= 2 * centre + 1,
        2 * row <= output_h <= 2 * row + 1,
    ensures
        ({
            let shown = overlay_areas(ui, m, output_w, output_h);
            let below = (m.panel_h + 6) as i32;
            &&& shown.len() == 2 + one_if(ui.datetime_popout_open) + one_if(ui.control_centre_open) + one_if(
                ui.launcher_open,
            ) + one_if(ui.help_overlay_visible) + one_if(ui.desktop_menu.open) + one_if(ui.dock_menu.open)
            &&& ui.datetime_popout_open ==> shown.contains(
                Area { x: (centre - 160) as i32, y: below, w: 320, h: 380 },
            )
            &&& ui.control_centre_open ==> shown.contains(
                Area { x: (output_w - 314) as i32, y: below, w: 300, h: 220 },
            )
            &&& ui.launcher_open ==> shown.contains(Area { x: (centre - 270) as i32, y: 120, w: 540, h: 64 })
            &&& ui.help_overlay_visible ==> shown.contains(
                Area { x: (centre - 240) as i32, y: (row - 180) as i32, w: 480, h: 360 },
            )
            &&& ui.desktop_menu.open ==> shown.contains(
                Area { x: ui.desktop_menu.x, y: ui.desktop_menu.y, w: 220, h: 260 },
            )
            &&& ui.dock_menu.open ==> shown.contains(Area { x: ui.dock_menu.x, y: ui.dock_menu.y, w: 220, h: 280 })
        }),
{
    let panel = m.panel_h as int;
    let dock = m.dock_h as int;
    let s0 = band(true, 0, 0, output_w, panel as i32) + band(true, 0, output_h - dock, output_w, dock as i32);
    let below = panel + PANEL_GAP;
    let s1 = s0 + band(ui.datetime_popout_open, half(output_w - 320), below, 320, 380);
    let s2 = s1 + band(ui.control_centre_open, output_w - 300 - 14, below, 300, 220);
    let s3 = s2 + band(ui.launcher_open, half(output_w - 540), 120, 540, 64);
    let s4 = s3 + band(ui.help_overlay_visible, half(output_w - 480), half(output_h - 360), 480, 360);
    let s5 = s4 + band(ui.desktop_menu.open, ui.desktop_menu.x as int, ui.desktop_menu.y as int, 220, 260);
    let s6 = s5 + band(ui.dock_menu.open, ui.dock_menu.x as int, ui.dock_menu.y as int, 220, 280);
    assert(overlay_areas(ui, m, output_w, output_h) == s6);
    assert(half(output_w - 320) == centre - 160);
    assert(half(output_w - 540) == centre - 270);
    assert(half(output_w - 480) == centre - 240);
    assert(half(output_h - 360) == row - 180);
    assert(s0.len() == 2);
    lemma_band_joins(s0, ui.datetime_popout_open, half(output_w - 320), below, 320, 380);
    lemma_band_joins(s1, ui.control_centre_open, output_w - 300 - 14, below, 300, 220);
    lemma_band_joins(s2, ui.launcher_open, half(output_w - 540), 120, 540, 64);
    lemma_band_joins(s3, ui.help_overlay_visible, half(output_w - 480), half(output_h - 360), 480, 360);
    lemma_band_joins(s4, ui.desktop_menu.open, ui.desktop_menu.x as int, ui.desktop_menu.y as int, 220, 260);
    lemma_band_joins(s5, ui.dock_menu.open, ui.dock_menu.x as int, ui.dock_menu.y as int, 220, 280);
}

/// Of a lock screen as much is copied as fits on the texture, from rows as long as its
/// own.
pub proof fn law_lock_screen_fits(lock_w: u32, lock_h: u32, size: TextureSize)
    ensures
        lock_part(lock_w, lock_h, size) is None <==> lock_w == 0 || lock_h == 0 || size.w == 0 || size.h == 0,
        lock_part(lock_w, lock_h, size) matches Some(c) ==> {
            &&& c.w <= lock_w && c.w <= size.w && (c.w == lock_w || c.w == size.w)
            &&& c.h <= lock_h && c.h <= size.h && (c.h == lock_h || c.h == size.h)
            &&& c.bytes_per_row == 4 * lock_w
        },
{
}

/// The clock is read, and the frames are counted, once a second. A count is of the
/// frames since the last one and of the time they took, and none is counted twice.
pub proof fn law_frames_are_counted(c: FrameClock, now: u64)
    requires
        c.wf(),
        c.clock_at <= now,
        c.sample_at <= now,
    ensures
        c.due_at(now).clock <==> now - c.clock_at >= 1000,
        c.due_at(now).sample is Some <==> now - c.sample_at >= 1000,
        c.due_at(now).sample matches Some((frames, ms)) ==> {
            &&& frames == c.frames - c.sample_frames
            &&& ms == now - c.sample_at
            &&& c.begun(now).sample_frames == c.frames
            &&& c.begun(now).sample_at == now
        },
        c.due_at(now).clock ==> c.begun(now).clock_at == now,
        !c.due_at(now).clock ==> c.begun(now).clock_at == c.clock_at,
        c.due_at(now).sample is None ==> c.begun(now).sample_at == c.sample_at && c.begun(now).sample_frames
            == c.sample_frames,
        c.begun(now).frames == c.frames,
        c.begun(now).due_at(now) == (FrameDue { clock: false, sample: None }),
{
}

/// A history keeps the newest 120 samples in their order.
pub proof fn law_history_keeps_newest<T>(history: Seq<T>, sample: T)
    requires
        history.len() <= 120,
    ensures
        history.len() < 120 ==> recorded(history, sample) == history + seq![sample],
        history.len() == 120 ==> recorded(history, sample) == history.subrange(1, 120) + seq![sample],
{
    if history.len() < 120 {
        assert(recorded(history, sample) =~= history + seq![sample]);
    } else {
        assert(recorded(history, sample) =~= history.subrange(1, 120) + seq![sample]);
    }
}

/// A surface that can take red first takes it so, and else blue first, before any
/// other format.
pub proof fn law_plain_formats_are_preferred(formats: Seq<SurfaceFormat>)
    requires
        formats.len() > 0,
    ensures
        formats.contains(SurfaceFormat::Rgba8Unorm) ==> chosen_format(formats) == SurfaceFormat::Rgba8Unorm,
        !formats.contains(SurfaceFormat::Rgba8Unorm) && formats.contains(SurfaceFormat::Bgra8Unorm) ==> chosen_format(
            formats,
        ) == SurfaceFormat::Bgra8Unorm,
        !formats.contains(SurfaceFormat::Rgba8Unorm) && !formats.contains(SurfaceFormat::Bgra8Unorm) ==> chosen_format(
            formats,
        ) == formats[0],
{
}

} // verus!
