//! The text of the debug overlay.

use vstd::prelude::*;

use crate::order::ordered;
use crate::render::{window_ids, windows_by_id};
use crate::shell::{Shell, ShellView};
use crate::text::{digits_of, number_text, occurs, occurs_at, push_digits, push_number};
use crate::theme::ThemeMode;
use crate::windows::WindowState;

verus! {

/// What the overlay shows besides the windows. Fractions come as texts.
#[derive(Debug)]
pub struct DebugInfo {
    pub mode: ThemeMode,
    pub mode_level: String,
    pub frames: u64,
    pub fps: String,
    pub cursor: String,
    pub pointer_x: String,
    pub pointer_y: String,
    pub drag: Option<String>,
}

/// How far the animations of a window are.
#[derive(Debug)]
pub struct WindowLook {
    pub opacity: String,
    pub scale: String,
}

pub open spec fn mode_name(mode: ThemeMode) -> Seq<char> {
    match mode {
        ThemeMode::Dark => "Dark"@,
        ThemeMode::Light => "Light"@,
    }
}

pub open spec fn truth(b: bool) -> Seq<char> {
    if b {
        "true"@
    } else {
        "false"@
    }
}

/// A text followed by the summary.
pub open spec fn with_summary(out: Seq<char>, s: ShellView, info: &DebugInfo) -> Seq<char> {
    let theme = out + "theme: "@ + mode_name(info.mode) + "  mode_t="@ + info.mode_level@ + "\n"@;
    let output = theme + "output: "@ + number_text(s.output_w as int) + "\u{d7}"@ + number_text(s.output_h as int) + "\n"@;
    let frames = output + "frames: "@ + digits_of(info.frames as int) + "  fps: "@ + info.fps@ + "\n"@;
    let cursor = frames + "cursor: "@ + info.cursor@ + " at ("@ + info.pointer_x@ + ","@ + info.pointer_y@ + ")\n"@;
    let drag = match info.drag {
        Some(d) => d@,
        None => "none"@,
    };
    cursor + "drag: "@ + drag + "\n"@
}

/// A text followed by the first line about a window.
pub open spec fn with_place(out: Seq<char>, w: &WindowState) -> Seq<char> {
    let names = out + "  #"@ + number_text(w.id as int) + "  z="@ + number_text(w.z_order as int);
    let size = names + "  "@ + number_text(w.rect.w as int) + "\u{d7}"@ + number_text(w.rect.h as int);
    let place = size + "+"@ + number_text(w.rect.x as int) + "+"@ + number_text(w.rect.y as int);
    let state = place + "  focus="@ + truth(w.focused) + "  min="@ + truth(w.minimized);
    state + "  max="@ + truth(w.maximized) + "  closing="@ + truth(w.closing) + "\n"@
}

/// A text followed by the second line about a window.
pub open spec fn with_look(out: Seq<char>, w: &WindowState, look: &WindowLook) -> Seq<char> {
    let shown = out + "        opacity="@ + look.opacity@ + "  scale="@ + look.scale@;
    shown + "  awaiting_first="@ + truth(w.awaiting_first_render) + "\n"@
}

/// A text followed by the lines about the first `n` windows of an order.
pub open spec fn with_windows(
    out: Seq<char>,
    windows: Seq<WindowState>,
    looks: Seq<WindowLook>,
    order: Seq<usize>,
    n: int,
) -> Seq<char>
    decreases n,
{
    if n <= 0 {
        out
    } else {
        let i = order[n - 1] as int;
        with_look(with_place(with_windows(out, windows, looks, order, n - 1), &windows[i]), &windows[i], &looks[i])
    }
}

/// The whole text: a summary, the windows by their ids, and the keys.
pub open spec fn debug_dump(s: ShellView, info: &DebugInfo, looks: Seq<WindowLook>) -> Seq<char> {
    let head = with_summary(Seq::empty(), s, info) + "\nWindows ("@ + digits_of(s.windows.len() as int) + "):\n"@;
    with_windows(head, s.windows, looks, ordered(window_ids(s.windows)), s.windows.len() as int)
        + "\nKeys: Super+T theme  Super+I debug  Super+W close  Super+M min\n"@
        + "      Super+D show-desktop  Super+/ help  Esc dismiss\n"@
}

fn push_truth(out: &mut String, b: bool)
    ensures
        final(out)@ == old(out)@ + truth(b),
{
    if b {
        out.append("true");
    } else {
        out.append("false");
    }
}

fn push_place(out: &mut String, w: &WindowState)
    ensures
        final(out)@ == with_place(old(out)@, w),
{
    out.append("  #");
    push_number(out, w.id as i64);
    out.append("  z=");
    push_number(out, w.z_order as i64);
    out.append("  ");
    push_number(out, w.rect.w as i64);
    out.append("\u{d7}");
    push_number(out, w.rect.h as i64);
    out.append("+");
    push_number(out, w.rect.x as i64);
    out.append("+");
    push_number(out, w.rect.y as i64);
    out.append("  focus=");
    push_truth(out, w.focused);
    out.append("  min=");
    push_truth(out, w.minimized);
    out.append("  max=");
    push_truth(out, w.maximized);
    out.append("  closing=");
    push_truth(out, w.closing);
    out.append("\n");
}

fn push_look(out: &mut String, w: &WindowState, look: &WindowLook)
    ensures
        final(out)@ == with_look(old(out)@, w, look),
{
    out.append("        opacity=");
    out.append(look.opacity.as_str());
    out.append("  scale=");
    out.append(look.scale.as_str());
    out.append("  awaiting_first=");
    push_truth(out, w.awaiting_first_render);
    out.append("\n");
}

impl Shell {
    fn push_summary(&self, out: &mut String, info: &DebugInfo)
        ensures
            final(out)@ == with_summary(old(out)@, self@, info),
    {
        out.append("theme: ");
        match info.mode {
            ThemeMode::Dark => out.append("Dark"),
            ThemeMode::Light => out.append("Light"),
        }
        out.append("  mode_t=");
        out.append(info.mode_level.as_str());
        out.append("\n");
        out.append("output: ");
        push_number(out, self.output_w as i64);
        out.append("\u{d7}");
        push_number(out, self.output_h as i64);
        out.append("\n");
        out.append("frames: ");
        push_digits(out, info.frames);
        out.append("  fps: ");
        out.append(info.fps.as_str());
        out.append("\n");
        out.append("cursor: ");
        out.append(info.cursor.as_str());
        out.append(" at (");
        out.append(info.pointer_x.as_str());
        out.append(",");
        out.append(info.pointer_y.as_str());
        out.append(")\n");
        out.append("drag: ");
        match &info.drag {
            Some(d) => out.append(d.as_str()),
            None => out.append("none"),
        }
        out.append("\n");
        }

    /// The text of the debug overlay. `looks` holds one entry for each window.
    pub fn build_debug_dump(&self, info: &DebugInfo, looks: &Vec<WindowLook>) -> (out: String)
        requires
            looks@.len() == self@.windows.len(),
        ensures
            out@ == debug_dump(self@, info, looks@),
    {
        let mut out = String::new();
        self.push_summary(&mut out, info);
        out.append("\nWindows (");
        push_digits(&mut out, self.windows.len() as u64);
        out.append("):\n");
        let order = windows_by_id(&self.windows);
        let ghost head = out@;
        let mut i: usize = 0;
        while i < order.len()
            invariant
                0 <= i <= order@.len(),
                order@.len() == self@.windows.len(),
                looks@.len() == self@.windows.len(),
                forall|k: int| 0 <= k < order@.len() ==> (#[trigger] order@[k]) < self@.windows.len(),
                out@ == with_windows(head, self@.windows, looks@, order@, i as int),
            decreases order@.len() - i,
        {
            let k: usize = order[i];
            push_place(&mut out, &self.windows[k]);
            push_look(&mut out, &self.windows[k], &looks[k]);
            i += 1;
        }
        out.append("\nKeys: Super+T theme  Super+I debug  Super+W close  Super+M min\n");
        out.append("      Super+D show-desktop  Super+/ help  Esc dismiss\n");
        out
    }
}

proof fn lemma_stays_found(s: Seq<char>, more: Seq<char>, part: Seq<char>)
    requires
        occurs(s, part),
    ensures
        occurs(s + more, part),
{
    let i = choose|i: int| #[trigger] occurs_at(s, part, i);
    assert((s + more).subrange(i, i + part.len()) =~= s.subrange(i, i + part.len()));
    assert(occurs_at(s + more, part, i));
}

proof fn lemma_end_is_found(s: Seq<char>, a: Seq<char>, b: Seq<char>)
    ensures
        occurs(s + a + b, a + b),
{
    assert((s + a + b).subrange(s.len() as int, s.len() as int + (a + b).len()) =~= a + b);
    assert(occurs_at(s + a + b, a + b, s.len() as int));
}

/// A window's lines give its number, its level, its size as width and height, its place
/// as column and row, and what state it is in.
pub proof fn law_lines_describe_window(out: Seq<char>, w: &WindowState, look: &WindowLook)
    ensures
        occurs(with_place(out, w), "  #"@ + number_text(w.id as int)),
        occurs(with_place(out, w), "  z="@ + number_text(w.z_order as int)),
        occurs(with_place(out, w), number_text(w.rect.w as int) + "\u{d7}"@ + number_text(w.rect.h as int)),
        occurs(
            with_place(out, w),
            number_text(w.rect.h as int) + "+"@ + number_text(w.rect.x as int) + "+"@ + number_text(w.rect.y as int),
        ),
        occurs(with_place(out, w), "  focus="@ + truth(w.focused)),
        occurs(with_place(out, w), "  min="@ + truth(w.minimized)),
        occurs(with_place(out, w), "  max="@ + truth(w.maximized)),
        occurs(with_place(out, w), "  closing="@ + truth(w.closing)),
        occurs(with_look(out, w, look), "        opacity="@ + look.opacity@),
        occurs(with_look(out, w, look), "  scale="@ + look.scale@),
        truth(true) == "true"@,
        truth(false) == "false"@,
{
    lemma_place_line(out, w);
    lemma_state_line(out, w);
    let first = out + "        opacity="@ + look.opacity@;
    lemma_end_is_found(out, "        opacity="@, look.opacity@);
    lemma_stays_found(first, "  scale="@, "        opacity="@ + look.opacity@);
    lemma_stays_found(first + "  scale="@, look.scale@, "        opacity="@ + look.opacity@);
    lemma_end_is_found(first, "  scale="@, look.scale@);
    let shown = first + "  scale="@ + look.scale@;
    lemma_three_more(shown, "  awaiting_first="@, truth(w.awaiting_first_render), "\n"@, "        opacity="@ + look.opacity@);
    lemma_three_more(shown, "  awaiting_first="@, truth(w.awaiting_first_render), "\n"@, "  scale="@ + look.scale@);
}

proof fn lemma_three_more(s: Seq<char>, a: Seq<char>, b: Seq<char>, c: Seq<char>, part: Seq<char>)
    requires
        occurs(s, part),
    ensures
        occurs(s + a + b + c, part),
{
    lemma_stays_found(s, a, part);
    lemma_stays_found(s + a, b, part);
    lemma_stays_found(s + a + b, c, part);
}

proof fn lemma_state_of(place: Seq<char>, w: &WindowState, part: Seq<char>)
    requires
        occurs(place, part),
    ensures
        ({
            let state = place + "  focus="@ + truth(w.focused) + "  min="@ + truth(w.minimized);
            occurs(state + "  max="@ + truth(w.maximized) + "  closing="@ + truth(w.closing) + "\n"@, part)
        }),
{
    lemma_three_more(place, "  focus="@, truth(w.focused), "  min="@, part);
    let a = place + "  focus="@ + truth(w.focused) + "  min="@;
    lemma_three_more(a, truth(w.minimized), "  max="@, truth(w.maximized), part);
    let b = a + truth(w.minimized) + "  max="@ + truth(w.maximized);
    lemma_three_more(b, "  closing="@, truth(w.closing), "\n"@, part);
}

proof fn lemma_place_line(out: Seq<char>, w: &WindowState)
    ensures
        occurs(with_place(out, w), "  #"@ + number_text(w.id as int)),
        occurs(with_place(out, w), "  z="@ + number_text(w.z_order as int)),
        occurs(with_place(out, w), number_text(w.rect.w as int) + "\u{d7}"@ + number_text(w.rect.h as int)),
        occurs(
            with_place(out, w),
            number_text(w.rect.h as int) + "+"@ + number_text(w.rect.x as int) + "+"@ + number_text(w.rect.y as int),
        ),
{
    let id = out + "  #"@ + number_text(w.id as int);
    let names = id + "  z="@ + number_text(w.z_order as int);
    let wide = names + "  "@ + number_text(w.rect.w as int);
    let size = wide + "\u{d7}"@ + number_text(w.rect.h as int);
    let column = size + "+"@ + number_text(w.rect.x as int);
    let place = column + "+"@ + number_text(w.rect.y as int);
    let p1 = "  #"@ + number_text(w.id as int);
    let p2 = "  z="@ + number_text(w.z_order as int);
    let p3 = number_text(w.rect.w as int) + "\u{d7}"@ + number_text(w.rect.h as int);
    let p4 = number_text(w.rect.h as int) + "+"@ + number_text(w.rect.x as int) + "+"@ + number_text(w.rect.y as int);
    lemma_end_is_found(out, "  #"@, number_text(w.id as int));
    lemma_three_more(id, "  z="@, number_text(w.z_order as int), "  "@, p1);
    lemma_end_is_found(id, "  z="@, number_text(w.z_order as int));
    lemma_stays_found(names, "  "@, p2);
    let gap = names + "  "@;
    lemma_wide_more(gap, w, p1);
    lemma_wide_more(gap, w, p2);
    assert(size.subrange(gap.len() as int, gap.len() as int + p3.len()) =~= p3);
    assert(occurs_at(size, p3, gap.len() as int));
    lemma_stays_found(size, "+"@, p3);
    lemma_three_more(size + "+"@, number_text(w.rect.x as int), "+"@, number_text(w.rect.y as int), p3);
    let high = wide + "\u{d7}"@;
    assert(place.subrange(high.len() as int, high.len() as int + p4.len()) =~= p4);
    assert(occurs_at(place, p4, high.len() as int));
    lemma_state_of(place, w, p1);
    lemma_state_of(place, w, p2);
    lemma_state_of(place, w, p3);
    lemma_state_of(place, w, p4);
}

proof fn lemma_wide_more(gap: Seq<char>, w: &WindowState, part: Seq<char>)
    requires
        occurs(gap, part),
    ensures
        occurs(
            gap + number_text(w.rect.w as int) + "\u{d7}"@ + number_text(w.rect.h as int) + "+"@ + number_text(
                w.rect.x as int,
            ) + "+"@ + number_text(w.rect.y as int),
            part,
        ),
{
    lemma_three_more(gap, number_text(w.rect.w as int), "\u{d7}"@, number_text(w.rect.h as int), part);
    let size = gap + number_text(w.rect.w as int) + "\u{d7}"@ + number_text(w.rect.h as int);
    lemma_stays_found(size, "+"@, part);
    lemma_three_more(size + "+"@, number_text(w.rect.x as int), "+"@, number_text(w.rect.y as int), part);
}

proof fn lemma_state_line(out: Seq<char>, w: &WindowState)
    ensures
        occurs(with_place(out, w), "  focus="@ + truth(w.focused)),
        occurs(with_place(out, w), "  min="@ + truth(w.minimized)),
        occurs(with_place(out, w), "  max="@ + truth(w.maximized)),
        occurs(with_place(out, w), "  closing="@ + truth(w.closing)),
{
    let names = out + "  #"@ + number_text(w.id as int) + "  z="@ + number_text(w.z_order as int);
    let size = names + "  "@ + number_text(w.rect.w as int) + "\u{d7}"@ + number_text(w.rect.h as int);
    let place = size + "+"@ + number_text(w.rect.x as int) + "+"@ + number_text(w.rect.y as int);
    let focus = place + "  focus="@ + truth(w.focused);
    let min = focus + "  min="@ + truth(w.minimized);
    let max = min + "  max="@ + truth(w.maximized);
    let closing = max + "  closing="@ + truth(w.closing);
    lemma_end_is_found(place, "  focus="@, truth(w.focused));
    lemma_three_more(focus, "  min="@, truth(w.minimized), "  max="@, "  focus="@ + truth(w.focused));
    lemma_three_more(min + "  max="@, truth(w.maximized), "  closing="@, truth(w.closing), "  focus="@ + truth(w.focused));
    lemma_stays_found(closing, "\n"@, "  focus="@ + truth(w.focused));
    lemma_end_is_found(focus, "  min="@, truth(w.minimized));
    lemma_three_more(min, "  max="@, truth(w.maximized), "  closing="@, "  min="@ + truth(w.minimized));
    lemma_stays_found(max + "  closing="@, truth(w.closing), "  min="@ + truth(w.minimized));
    lemma_stays_found(closing, "\n"@, "  min="@ + truth(w.minimized));
    lemma_end_is_found(min, "  max="@, truth(w.maximized));
    lemma_three_more(max, "  closing="@, truth(w.closing), "\n"@, "  max="@ + truth(w.maximized));
    lemma_end_is_found(max, "  closing="@, truth(w.closing));
    lemma_stays_found(closing, "\n"@, "  closing="@ + truth(w.closing));
}

/// The summary names the theme, and gives the size of the output as width and height.
pub proof fn law_summary_names_theme(out: Seq<char>, s: ShellView, info: &DebugInfo)
    ensures
        info.mode == ThemeMode::Light ==> occurs(with_summary(out, s, info), "theme: "@ + "Light"@),
        info.mode == ThemeMode::Dark ==> occurs(with_summary(out, s, info), "theme: "@ + "Dark"@),
        occurs(
            with_summary(out, s, info),
            number_text(s.output_w as int) + "\u{d7}"@ + number_text(s.output_h as int),
        ),
{
    let named = out + "theme: "@ + mode_name(info.mode);
    let part = "theme: "@ + mode_name(info.mode);
    lemma_end_is_found(out, "theme: "@, mode_name(info.mode));
    lemma_three_more(named, "  mode_t="@, info.mode_level@, "\n"@, part);
    let theme = named + "  mode_t="@ + info.mode_level@ + "\n"@;
    let lead = theme + "output: "@;
    let wide = lead + number_text(s.output_w as int) + "\u{d7}"@;
    let size = wide + number_text(s.output_h as int);
    let sides = number_text(s.output_w as int) + "\u{d7}"@ + number_text(s.output_h as int);
    lemma_three_more(theme, "output: "@, number_text(s.output_w as int), "\u{d7}"@, part);
    lemma_stays_found(wide, number_text(s.output_h as int), part);
    assert(size.subrange(lead.len() as int, lead.len() as int + sides.len()) =~= sides);
    assert(occurs_at(size, sides, lead.len() as int));
    lemma_summary_goes_on(size, info, part);
    lemma_summary_goes_on(size, info, sides);
}

proof fn lemma_summary_goes_on(size: Seq<char>, info: &DebugInfo, part: Seq<char>)
    requires
        occurs(size, part),
    ensures
        ({
            let frames = size + "\n"@ + "frames: "@ + digits_of(info.frames as int) + "  fps: "@ + info.fps@ + "\n"@;
            let cursor = frames + "cursor: "@ + info.cursor@ + " at ("@ + info.pointer_x@ + ","@ + info.pointer_y@
                + ")\n"@;
            let drag = match info.drag {
                Some(d) => d@,
                None => "none"@,
            };
            occurs(cursor + "drag: "@ + drag + "\n"@, part)
        }),
{
    let drag = match info.drag {
        Some(d) => d@,
        None => "none"@,
    };
    lemma_three_more(size, "\n"@, "frames: "@, digits_of(info.frames as int), part);
    let a = size + "\n"@ + "frames: "@ + digits_of(info.frames as int);
    lemma_three_more(a, "  fps: "@, info.fps@, "\n"@, part);
    let b = a + "  fps: "@ + info.fps@ + "\n"@;
    lemma_three_more(b, "cursor: "@, info.cursor@, " at ("@, part);
    let c = b + "cursor: "@ + info.cursor@ + " at ("@;
    lemma_three_more(c, info.pointer_x@, ","@, info.pointer_y@, part);
    let d = c + info.pointer_x@ + ","@ + info.pointer_y@;
    lemma_stays_found(d, ")\n"@, part);
    lemma_three_more(d + ")\n"@, "drag: "@, drag, "\n"@, part);
}

/// The lines of every window stand in the dump, whichever order they are listed in.
pub proof fn law_dump_lists_windows(
    out: Seq<char>,
    windows: Seq<WindowState>,
    looks: Seq<WindowLook>,
    order: Seq<usize>,
    n: int,
    k: int,
)
    requires
        0 <= k < n <= order.len(),
    ensures
        occurs(with_windows(out, windows, looks, order, n), "  #"@ + number_text(windows[order[k] as int].id as int)),
    decreases n,
{
    let i = order[n - 1] as int;
    let before = with_windows(out, windows, looks, order, n - 1);
    let placed = with_place(before, &windows[i]);
    let part = "  #"@ + number_text(windows[order[k] as int].id as int);
    if k < n - 1 {
        law_dump_lists_windows(out, windows, looks, order, n - 1, k);
        lemma_place_keeps(before, &windows[i], part);
    } else {
        lemma_place_line(before, &windows[i]);
    }
    lemma_three_more(placed, "        opacity="@, looks[i].opacity@, "  scale="@, part);
    let shown = placed + "        opacity="@ + looks[i].opacity@ + "  scale="@;
    lemma_stays_found(shown, looks[i].scale@, part);
    lemma_three_more(
        shown + looks[i].scale@,
        "  awaiting_first="@,
        truth(windows[i].awaiting_first_render),
        "\n"@,
        part,
    );
}

proof fn lemma_place_keeps(out: Seq<char>, w: &WindowState, part: Seq<char>)
    requires
        occurs(out, part),
    ensures
        occurs(with_place(out, w), part),
{
    lemma_three_more(out, "  #"@, number_text(w.id as int), "  z="@, part);
    let a = out + "  #"@ + number_text(w.id as int) + "  z="@;
    lemma_stays_found(a, number_text(w.z_order as int), part);
    let names = a + number_text(w.z_order as int);
    lemma_stays_found(names, "  "@, part);
    lemma_wide_more(names + "  "@, w, part);
    let size = names + "  "@ + number_text(w.rect.w as int) + "\u{d7}"@ + number_text(w.rect.h as int);
    let place = size + "+"@ + number_text(w.rect.x as int) + "+"@ + number_text(w.rect.y as int);
    lemma_state_of(place, w, part);
}

} // verus!
