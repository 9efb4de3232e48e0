//! The panel: exported application menus, tray menus, the menus of the desktop, the dock
//! and the windows, and the pointer's image.

use vstd::prelude::*;

use crate::cursor::Coord;
use crate::menu::{reloaded, MenuItem, MENU_SIDE_PAD, MENU_WIDTH, NO_ROW};
use crate::num::{clamp_int, max_int, sat32, saturate};
use crate::shell::{debug_toggled, Shell, ShellView, UiView};
use crate::state::{AppmenuAddress, CursorStatus, SpikeState, ToplevelInfo};
use crate::surface::{index_of, position};
use crate::text::same_text;
use crate::windows::WindowState;

verus! {

/// A row of a menu that an application exports.
#[derive(Debug)]
pub struct AppMenuNode {
    pub id: i32,
    pub label: String,
    pub separator: bool,
    pub enabled: bool,
    pub has_submenu: bool,
}

/// A menu row with its texts as characters.
#[verifier::ext_equal]
pub struct RowView {
    pub id: i32,
    pub label: Seq<char>,
    pub accelerator: Seq<char>,
    pub separator: bool,
    pub enabled: bool,
}

pub open spec fn row_view(item: MenuItem) -> RowView {
    RowView {
        id: item.id,
        label: item.label@,
        accelerator: item.accelerator@,
        separator: item.separator,
        enabled: item.enabled,
    }
}

pub open spec fn row_views(items: Seq<MenuItem>) -> Seq<RowView> {
    items.map_values(|i: MenuItem| row_view(i))
}

pub const SEPARATOR_ID: i32 = -1;

pub open spec fn separator_row() -> RowView {
    RowView { id: SEPARATOR_ID, label: Seq::empty(), accelerator: Seq::empty(), separator: true, enabled: false }
}

pub open spec fn plain_row(id: i32, label: Seq<char>, accelerator: Seq<char>, enabled: bool) -> RowView {
    RowView { id, label, accelerator, separator: false, enabled }
}

fn separator() -> (r: MenuItem)
    ensures
        row_view(r) == separator_row(),
{
    MenuItem {
        id: SEPARATOR_ID,
        label: String::new(),
        accelerator: String::new(),
        separator: true,
        enabled: false,
    }
}

fn row(id: i32, label: &str, accelerator: &str, enabled: bool) -> (r: MenuItem)
    ensures
        row_view(r) == plain_row(id, label@, accelerator@, enabled),
{
    MenuItem { id, label: label.to_owned(), accelerator: accelerator.to_owned(), separator: false, enabled }
}

/// An entry of the menu bar.
#[derive(Debug)]
pub struct BarEntry {
    pub id: i32,
    pub label: String,
}

/// The entries of the menu bar for the first `n` rows: those with a label.
pub open spec fn bar_of(nodes: Seq<AppMenuNode>, n: int) -> Seq<(i32, Seq<char>)>
    decreases n,
{
    if n <= 0 {
        Seq::empty()
    } else {
        let rest = bar_of(nodes, n - 1);
        let node = nodes[n - 1];
        if !node.separator && node.label@.len() > 0 {
            rest.push((node.id, node.label@))
        } else {
            rest
        }
    }
}

pub open spec fn bar_views(entries: Seq<BarEntry>) -> Seq<(i32, Seq<char>)> {
    entries.map_values(|e: BarEntry| (e.id, e.label@))
}

/// The entries of the menu bar.
pub fn bar_entries(nodes: &Vec<AppMenuNode>) -> (r: Vec<BarEntry>)
    ensures
        bar_views(r@) == bar_of(nodes@, nodes@.len() as int),
{
    let mut out: Vec<BarEntry> = Vec::new();
    let mut i: usize = 0;
    assert(bar_views(out@) =~= Seq::<(i32, Seq<char>)>::empty());
    while i < nodes.len()
        invariant
            0 <= i <= nodes@.len(),
            bar_views(out@) == bar_of(nodes@, i as int),
        decreases nodes@.len() - i,
    {
        let ghost before = out@;
        if !nodes[i].separator && nodes[i].label.as_str().unicode_len() > 0 {
            let entry = BarEntry { id: nodes[i].id, label: nodes[i].label.clone() };
            out.push(entry);
            assert(bar_views(out@) =~= bar_views(before).push((entry.id, entry.label@)));
        }
        i += 1;
    }
    out
}

/// The menu row of an exported row; one with a submenu is marked.
pub open spec fn submenu_row(node: &AppMenuNode) -> RowView {
    if node.separator {
        separator_row()
    } else {
        plain_row(
            node.id,
            if node.has_submenu {
                node.label@ + "  \u{25B8}"@
            } else {
                node.label@
            },
            Seq::empty(),
            node.enabled,
        )
    }
}

fn submenu_item(node: &AppMenuNode) -> (r: MenuItem)
    ensures
        row_view(r) == submenu_row(node),
{
    if node.separator {
        return separator();
    }
    let mut label = node.label.clone();
    if node.has_submenu {
        label.append("  \u{25B8}");
    }
    MenuItem { id: node.id, label, accelerator: String::new(), separator: false, enabled: node.enabled }
}

/// The rows of an exported submenu.
pub fn submenu_items(nodes: &Vec<AppMenuNode>) -> (r: Vec<MenuItem>)
    ensures
        r@.len() == nodes@.len(),
        forall|i: int| 0 <= i < nodes@.len() ==> row_view(#[trigger] r@[i]) == submenu_row(&nodes@[i]),
{
    let mut out: Vec<MenuItem> = Vec::new();
    let mut i: usize = 0;
    while i < nodes.len()
        invariant
            0 <= i <= nodes@.len(),
            out@.len() == i,
            forall|k: int| 0 <= k < i ==> row_view(#[trigger] out@[k]) == submenu_row(&nodes@[k]),
        decreases nodes@.len() - i,
    {
        out.push(submenu_item(&nodes[i]));
        i += 1;
    }
    out
}

/// Ids for tray menu rows that have none of their own begin here.
pub const TRAY_ROW_BASE: i32 = 1_000_000;

/// How many of the first `n` rows need an id: those that can be clicked but have no
/// positive one.
pub open spec fn unnumbered(nodes: Seq<AppMenuNode>, n: int) -> int
    decreases n,
{
    if n <= 0 {
        0
    } else {
        unnumbered(nodes, n - 1) + if !nodes[n - 1].separator && nodes[n - 1].id <= 0 {
            1int
        } else {
            0int
        }
    }
}

/// The menu row of a tray menu's row number `i`.
pub open spec fn tray_row(nodes: Seq<AppMenuNode>, i: int) -> RowView {
    let node = nodes[i];
    if node.separator {
        separator_row()
    } else {
        plain_row(
            if node.id <= 0 {
                (TRAY_ROW_BASE + unnumbered(nodes, i)) as i32
            } else {
                node.id
            },
            node.label@,
            Seq::empty(),
            node.enabled,
        )
    }
}

/// The rows of a tray menu. Rows without a positive id are numbered from
/// `TRAY_ROW_BASE` up.
pub fn tray_items(nodes: &Vec<AppMenuNode>) -> (r: Vec<MenuItem>)
    requires
        TRAY_ROW_BASE + nodes@.len() <= i32::MAX,
    ensures
        r@.len() == nodes@.len(),
        forall|i: int| 0 <= i < nodes@.len() ==> row_view(#[trigger] r@[i]) == tray_row(nodes@, i),
{
    let mut out: Vec<MenuItem> = Vec::new();
    let mut next: i32 = TRAY_ROW_BASE;
    let mut i: usize = 0;
    while i < nodes.len()
        invariant
            0 <= i <= nodes@.len(),
            TRAY_ROW_BASE + nodes@.len() <= i32::MAX,
            0 <= unnumbered(nodes@, i as int) <= i,
            next == TRAY_ROW_BASE + unnumbered(nodes@, i as int),
            out@.len() == i,
            forall|k: int| 0 <= k < i ==> row_view(#[trigger] out@[k]) == tray_row(nodes@, k),
        decreases nodes@.len() - i,
    {
        if nodes[i].separator {
            out.push(separator());
        } else {
            let mut id: i32 = nodes[i].id;
            if id <= 0 {
                id = next;
                next = next + 1;
            }
            out.push(
                MenuItem {
                    id,
                    label: nodes[i].label.clone(),
                    accelerator: String::new(),
                    separator: false,
                    enabled: nodes[i].enabled,
                },
            );
        }
        i += 1;
    }
    out
}

/// Where a tray menu opens for a pointer position: below it and a little to the left, on
/// the output.
pub open spec fn tray_corner(x: Coord, y: Coord, output_w: u32) -> (int, int) {
    (
        clamp_int(
            x.floor - 10,
            MENU_SIDE_PAD as int,
            max_int(output_w - MENU_WIDTH - MENU_SIDE_PAD, MENU_SIDE_PAD as int),
        ),
        max_int(y.floor + 6, MENU_SIDE_PAD as int),
    )
}

/// Where a tray menu opens for a pointer position.
pub fn tray_menu_position(x: Coord, y: Coord, output_w: u32) -> (r: (i32, i32))
    requires
        crate::menu::in_reach(x),
        crate::menu::in_reach(y),
    ensures
        r.0 == sat32(tray_corner(x, y, output_w).0),
        r.1 == sat32(tray_corner(x, y, output_w).1),
{
    let pad: i64 = MENU_SIDE_PAD as i64;
    let limit: i64 = output_w as i64 - MENU_WIDTH as i64 - pad;
    let hi: i64 = if limit > pad {
        limit
    } else {
        pad
    };
    let want: i64 = x.floor - 10;
    let left: i64 = if want > hi {
        hi
    } else if want > pad {
        want
    } else {
        pad
    };
    let down: i64 = y.floor + 6;
    let top: i64 = if down > pad {
        down
    } else {
        pad
    };
    (saturate(left), saturate(top))
}

/// The menu of the desktop.
pub open spec fn desktop_rows() -> Seq<RowView> {
    seq![
        plain_row(1, "New Folder"@, "\u{21E7}\u{2318}N"@, true),
        plain_row(2, "Get Info"@, "\u{2318}I"@, false),
        separator_row(),
        plain_row(3, "Change Wallpaper\u{2026}"@, ""@, true),
        plain_row(4, "Toggle Theme"@, "\u{2303}T"@, true),
        separator_row(),
        plain_row(5, "Show Debug Overlay"@, "\u{2303}I"@, true),
        plain_row(6, "About this DE"@, ""@, true),
    ]
}

/// The menu of the desktop.
pub fn desktop_menu_items() -> (r: Vec<MenuItem>)
    ensures
        row_views(r@) == desktop_rows(),
{
    let mut v: Vec<MenuItem> = Vec::new();
    v.push(row(1, "New Folder", "\u{21E7}\u{2318}N", true));
    v.push(row(2, "Get Info", "\u{2318}I", false));
    v.push(separator());
    v.push(row(3, "Change Wallpaper\u{2026}", "", true));
    v.push(row(4, "Toggle Theme", "\u{2303}T", true));
    v.push(separator());
    v.push(row(5, "Show Debug Overlay", "\u{2303}I", true));
    v.push(row(6, "About this DE", "", true));
    assert(row_views(v@) =~= desktop_rows());
    v
}

/// The menu of a dock entry.
pub open spec fn dock_rows() -> Seq<RowView> {
    seq![
        plain_row(1, "Open New Window"@, ""@, true),
        plain_row(2, "Show All Windows"@, ""@, true),
        separator_row(),
        plain_row(3, "Keep in Dock"@, ""@, false),
        plain_row(4, "Show in Files"@, ""@, false),
        separator_row(),
        plain_row(5, "Quit"@, "\u{2318}Q"@, true),
    ]
}

/// The menu of a dock entry.
pub fn dock_menu_items() -> (r: Vec<MenuItem>)
    ensures
        row_views(r@) == dock_rows(),
{
    let mut v: Vec<MenuItem> = Vec::new();
    v.push(row(1, "Open New Window", "", true));
    v.push(row(2, "Show All Windows", "", true));
    v.push(separator());
    v.push(row(3, "Keep in Dock", "", false));
    v.push(row(4, "Show in Files", "", false));
    v.push(separator());
    v.push(row(5, "Quit", "\u{2318}Q", true));
    assert(row_views(v@) =~= dock_rows());
    v
}

/// The menu of a window.
pub open spec fn window_rows() -> Seq<RowView> {
    seq![
        plain_row(1, "Minimize"@, "\u{2318}M"@, true),
        plain_row(2, "Maximize"@, ""@, true),
        separator_row(),
        plain_row(3, "Close"@, "\u{2318}W"@, true),
    ]
}

/// The menu of a window.
pub fn window_menu_items() -> (r: Vec<MenuItem>)
    ensures
        row_views(r@) == window_rows(),
{
    let mut v: Vec<MenuItem> = Vec::new();
    v.push(row(1, "Minimize", "\u{2318}M", true));
    v.push(row(2, "Maximize", "", true));
    v.push(separator());
    v.push(row(3, "Close", "\u{2318}W", true));
    assert(row_views(v@) =~= window_rows());
    v
}

/// What the menu of a window does: minimize, maximize or close it.
pub open spec fn window_menu_chosen(s: ShellView, target: i32, action: i32) -> ShellView {
    if action == 1 {
        ShellView { pending_minimize: s.pending_minimize.push(target), ..s }
    } else if action == 2 {
        ShellView { pending_maximize: s.pending_maximize.push(target), ..s }
    } else if action == 3 {
        ShellView { pending_close: s.pending_close.push(target), ..s }
    } else {
        s
    }
}

/// What choosing a row of the desktop menu does to the shell, and whether it asks for
/// the other theme.
pub open spec fn desktop_menu_chosen(s: ShellView, id: i32) -> (ShellView, bool) {
    (
        if id == 5 {
            ShellView { ui: debug_toggled(s.ui), ..s }
        } else {
            s
        },
        id == 4,
    )
}

impl Shell {
    /// Carries out a row of the desktop menu. Returns whether the theme is to change.
    pub fn desktop_menu_clicked(&mut self, id: i32) -> (toggle_theme: bool)
        requires
            old(self).wf(),
        ensures
            final(self).wf(),
            (final(self)@, toggle_theme) == desktop_menu_chosen(old(self)@, id),
    {
        if id == 5 {
            self.ui.toggle_debug_overlay();
        }
        id == 4
    }

    /// Carries out a row of a window's menu.
    pub fn window_menu_clicked(&mut self, target: i32, action: i32)
        requires
            old(self).wf(),
        ensures
            final(self).wf(),
            final(self)@ == window_menu_chosen(old(self)@, target, action),
    {
        if action == 1 {
            self.pending_minimize.push(target);
        } else if action == 2 {
            self.pending_maximize.push(target);
        } else if action == 3 {
            self.pending_close.push(target);
        }
    }

    /// Opens the tray menu of an item with rows that were fetched for it. Without rows
    /// nothing opens.
    pub fn open_tray_menu(&mut self, nodes: &Vec<AppMenuNode>, x: i32, y: i32, sni_id: i32)
        requires
            old(self).wf(),
            TRAY_ROW_BASE + nodes@.len() <= i32::MAX,
        ensures
            final(self).wf(),
            nodes@.len() == 0 ==> final(self)@ == old(self)@,
            nodes@.len() > 0 ==> {
                let rows = final(self)@.ui.tray_menu.items;
                &&& final(self)@ == (ShellView {
                    ui: UiView {
                        tray_menu: reloaded(old(self)@.ui.tray_menu, rows, x, y),
                        tray_menu_id: sni_id,
                        ..old(self)@.ui
                    },
                    ..old(self)@
                })
                &&& rows.len() == nodes@.len()
                &&& forall|i: int| 0 <= i < nodes@.len() ==> row_view(#[trigger] rows[i]) == tray_row(nodes@, i)
            },
    {
        if nodes.len() == 0 {
            return;
        }
        let items = tray_items(nodes);
        self.ui.tray_menu.reload(items, x, y);
        self.ui.tray_menu_id = sni_id;
    }
}

/// The focused application's menu in the panel.
#[derive(Debug)]
pub struct GlobalMenu {
    pub address: Option<AppmenuAddress>,
    pub bar: Vec<BarEntry>,
    pub items: Vec<MenuItem>,
    pub open: bool,
    /// The bar entry whose submenu is shown, or `NO_ROW`.
    pub open_index: i32,
    pub selected: i32,
    pub x: i32,
    pub y: i32,
}

/// Submenus open this far down: below the panel.
pub const SUBMENU_Y: i32 = 34;

/// An address as characters.
pub open spec fn address_view(a: Option<AppmenuAddress>) -> Option<(Seq<char>, Seq<char>)> {
    match a {
        Some(a) => Some((a.service@, a.path@)),
        None => None,
    }
}

/// What has to be done about the menu bar after the focus moved.
#[derive(Clone, Copy, Debug, PartialEq, Eq, Structural)]
pub enum MenuBarStep {
    /// The same menu is shown.
    Keep,
    /// The bar of the new address has to be fetched.
    Fetch,
    /// The bar was cleared: there is no menu.
    Cleared,
}

fn same_address(a: &Option<AppmenuAddress>, b: &Option<AppmenuAddress>) -> (r: bool)
    ensures
        r == (address_view(*a) == address_view(*b)),
{
    match (a, b) {
        (Some(x), Some(y)) => same_text(x.service.as_str(), y.service.as_str()) && same_text(
            x.path.as_str(),
            y.path.as_str(),
        ),
        (None, None) => true,
        _ => false,
    }
}

/// The first focused window, from the `i`-th on.
pub open spec fn focused_from(windows: Seq<WindowState>, i: int) -> Option<int>
    decreases windows.len() - i,
{
    if i < 0 || i >= windows.len() {
        None
    } else if windows[i].focused {
        Some(i)
    } else {
        focused_from(windows, i + 1)
    }
}

/// The menu address of the focused window.
pub open spec fn focused_menu(windows: Seq<WindowState>, toplevels: Seq<ToplevelInfo>) -> Option<(
    Seq<char>,
    Seq<char>,
)> {
    match focused_from(windows, 0) {
        Some(i) => match index_of(toplevels, windows[i].surface) {
            Some(t) => address_view(toplevels[t].appmenu),
            None => None,
        },
        None => None,
    }
}

/// The menu address of the focused window.
pub fn focused_appmenu(windows: &Vec<WindowState>, toplevels: &Vec<ToplevelInfo>) -> (r: Option<AppmenuAddress>)
    ensures
        address_view(r) == focused_menu(windows@, toplevels@),
{
    let mut i: usize = 0;
    while i < windows.len()
        invariant
            0 <= i <= windows@.len(),
            focused_from(windows@, 0) == focused_from(windows@, i as int),
        decreases windows@.len() - i,
    {
        if windows[i].focused {
            return match position(toplevels, windows[i].surface) {
                Some(t) => match &toplevels[t].appmenu {
                    Some(a) => Some(AppmenuAddress { service: a.service.clone(), path: a.path.clone() }),
                    None => None,
                },
                None => None,
            };
        }
        i += 1;
    }
    None
}

/// How the menu bar follows a change of focus, and what is left to be done for it.
pub open spec fn bar_follows(
    was: GlobalMenu,
    now: GlobalMenu,
    focused: Option<AppmenuAddress>,
    r: MenuBarStep,
) -> bool {
    &&& address_view(was.address) == address_view(focused) ==> r == MenuBarStep::Keep && now == was
    &&& address_view(was.address) != address_view(focused) ==> {
        &&& address_view(now.address) == address_view(focused)
        &&& !now.open
        &&& now.open_index == NO_ROW
        &&& now.items == was.items
        &&& now.selected == was.selected
        &&& now.x == was.x
        &&& now.y == was.y
        &&& r == if focused is Some {
            MenuBarStep::Fetch
        } else {
            MenuBarStep::Cleared
        }
        &&& focused is Some ==> now.bar == was.bar
        &&& focused is None ==> now.bar@.len() == 0
    }
}

/// How the menu bar opens a submenu whose rows have come.
pub open spec fn submenu_opened(
    was: GlobalMenu,
    now: GlobalMenu,
    nodes: Seq<AppMenuNode>,
    x: i32,
    open_index: i32,
) -> bool {
    &&& nodes.len() == 0 ==> now == (GlobalMenu { open_index: NO_ROW, ..was })
    &&& nodes.len() > 0 ==> {
        &&& now.items@.len() == nodes.len()
        &&& forall|i: int| 0 <= i < nodes.len() ==> row_view(#[trigger] now.items@[i]) == submenu_row(&nodes[i])
        &&& now == (GlobalMenu {
            items: now.items,
            open: true,
            open_index,
            selected: NO_ROW,
            x,
            y: SUBMENU_Y,
            ..was
        })
    }
}

impl GlobalMenu {
    /// The focus moved to a window with this menu. Where that is another one than before,
    /// an open submenu closes, and the bar is cleared or has to be fetched.
    pub fn focus_moved(&mut self, focused: Option<AppmenuAddress>) -> (r: MenuBarStep)
        ensures
            bar_follows(*old(self), *final(self), focused, r),
    {
        if same_address(&self.address, &focused) {
            return MenuBarStep::Keep;
        }
        self.open = false;
        self.open_index = NO_ROW;
        let step = match &focused {
            Some(_) => MenuBarStep::Fetch,
            None => MenuBarStep::Cleared,
        };
        if focused.is_none() {
            self.bar = Vec::new();
        }
        self.address = focused;
        step
    }

    /// The menu bar was fetched.
    pub fn bar_fetched(&mut self, nodes: &Vec<AppMenuNode>)
        ensures
            bar_views(final(self).bar@) == bar_of(nodes@, nodes@.len() as int),
            *final(self) == (GlobalMenu { bar: final(self).bar, ..*old(self) }),
    {
        self.bar = bar_entries(nodes);
    }

    /// The submenu of a bar entry was fetched: it opens below the entry, or is not shown
    /// at all when it is empty.
    pub fn submenu_fetched(&mut self, nodes: &Vec<AppMenuNode>, x: i32, open_index: i32)
        ensures
            submenu_opened(*old(self), *final(self), nodes@, x, open_index),
    {
        if nodes.len() == 0 {
            self.open_index = NO_ROW;
            return;
        }
        self.items = submenu_items(nodes);
        self.x = x;
        self.y = SUBMENU_Y;
        self.open_index = open_index;
        self.selected = NO_ROW;
        self.open = true;
    }

    /// The index of a bar entry, or `NO_ROW`.
    pub fn entry_index(&self, id: i32) -> (r: i32)
        requires
            self.bar@.len() <= i32::MAX,
        ensures
            r == NO_ROW ==> forall|i: int| 0 <= i < self.bar@.len() ==> (#[trigger] self.bar@[i]).id != id,
            r != NO_ROW ==> 0 <= r < self.bar@.len() && self.bar@[r as int].id == id && forall|i: int|
                0 <= i < r ==> (#[trigger] self.bar@[i]).id != id,
    {
        let mut i: usize = 0;
        while i < self.bar.len()
            invariant
                0 <= i <= self.bar@.len(),
                self.bar@.len() <= i32::MAX,
                forall|k: int| 0 <= k < i ==> (#[trigger] self.bar@[k]).id != id,
            decreases self.bar@.len() - i,
        {
            if self.bar[i].id == id {
                return i as i32;
            }
            i += 1;
        }
        NO_ROW
    }
}

/// What the pointer looks like.
#[derive(Clone, Copy, Debug, PartialEq, Eq, Structural)]
pub enum PointerImage {
    /// The shell's arrow.
    Arrow,
    Hidden,
    /// The shape that the client named.
    Named,
    /// The shell's shape for what is under the pointer.
    Own,
    /// The client's own image, with its longer side.
    Client { size: u32 },
}

/// What the pointer looks like: over the shell's own overlays an arrow, otherwise what the
/// client under it asks for. An image that has no pixels yet changes nothing.
pub open spec fn image_of(state: &SpikeState, overlay_open: bool) -> PointerImage {
    if overlay_open {
        PointerImage::Arrow
    } else {
        match state.cursor_status {
            CursorStatus::Hidden => PointerImage::Hidden,
            CursorStatus::Named { is_default } => if is_default {
                PointerImage::Own
            } else {
                PointerImage::Named
            },
            CursorStatus::Surface(_) => {
                let p = state.cursor_surface_pixels;
                if p.width > 0 && p.height > 0 {
                    PointerImage::Client { size: max_int(p.width as int, p.height as int) as u32 }
                } else {
                    PointerImage::Own
                }
            },
        }
    }
}

/// What the pointer looks like.
pub fn pointer_image(state: &SpikeState, overlay_open: bool) -> (r: PointerImage)
    ensures
        r == image_of(state, overlay_open),
{
    if overlay_open {
        return PointerImage::Arrow;
    }
    match state.cursor_status {
        CursorStatus::Hidden => PointerImage::Hidden,
        CursorStatus::Named { is_default } => {
            if is_default {
                PointerImage::Own
            } else {
                PointerImage::Named
            }
        },
        CursorStatus::Surface(_) => {
            let w: u32 = state.cursor_surface_pixels.width;
            let h: u32 = state.cursor_surface_pixels.height;
            if w > 0 && h > 0 {
                PointerImage::Client {
                    size: if w > h {
                        w
                    } else {
                        h
                    },
                }
            } else {
                PointerImage::Own
            }
        },
    }
}

/// Every row of a tray menu that can be clicked has a positive id, so none is taken for a
/// separator.
pub proof fn law_tray_ids_positive(nodes: Seq<AppMenuNode>, i: int)
    requires
        0 <= i < nodes.len(),
        TRAY_ROW_BASE + nodes.len() <= i32::MAX,
        !nodes[i].separator,
    ensures
        tray_row(nodes, i).id > 0,
{
    lemma_unnumbered_range(nodes, i);
}

proof fn lemma_unnumbered_range(nodes: Seq<AppMenuNode>, n: int)
    requires
        0 <= n <= nodes.len(),
    ensures
        0 <= unnumbered(nodes, n) <= n,
    decreases n,
{
    if n > 0 {
        lemma_unnumbered_range(nodes, n - 1);
    }
}

/// Each row of the window menu does to the window what it says.
pub proof fn law_window_menu_does_what_it_says(s: ShellView, target: i32, i: int)
    requires
        0 <= i < window_rows().len(),
    ensures
        ({
            let row = window_rows()[i];
            let after = window_menu_chosen(s, target, row.id);
            &&& row.label == "Minimize"@ ==> after == (ShellView {
                pending_minimize: s.pending_minimize.push(target),
                ..s
            })
            &&& row.label == "Maximize"@ ==> after == (ShellView {
                pending_maximize: s.pending_maximize.push(target),
                ..s
            })
            &&& row.label == "Close"@ ==> after == (ShellView { pending_close: s.pending_close.push(target), ..s })
            &&& row.separator ==> after == s
            &&& row.separator || row.label == "Minimize"@ || row.label == "Maximize"@ || row.label == "Close"@
        }),
{
    reveal_strlit("Minimize");
    reveal_strlit("Maximize");
    reveal_strlit("Close");
    assert("Minimize"@.len() == 8 && "Minimize"@[1] == 'i');
    assert("Maximize"@.len() == 8 && "Maximize"@[1] == 'a');
    assert("Close"@.len() == 5);
}

/// The window menu has one row each to minimize, to maximize and to close.
pub proof fn law_window_menu_is_complete()
    ensures
        exists|i: int| 0 <= i < window_rows().len() && (#[trigger] window_rows()[i]).label == "Minimize"@,
        exists|i: int| 0 <= i < window_rows().len() && (#[trigger] window_rows()[i]).label == "Maximize"@,
        exists|i: int| 0 <= i < window_rows().len() && (#[trigger] window_rows()[i]).label == "Close"@,
        forall|i: int, j: int|
            0 <= i < j < window_rows().len() && !(#[trigger] window_rows()[i]).separator && !(
            #[trigger] window_rows()[j]).separator ==> window_rows()[i].id != window_rows()[j].id,
{
    assert(window_rows()[0].label == "Minimize"@);
    assert(window_rows()[1].label == "Maximize"@);
    assert(window_rows()[3].label == "Close"@);
}

/// Of the desktop menu, the row for the theme asks for the other theme, the row for the
/// debug overlay shows it or hides it, and the others leave the shell as it is.
pub proof fn law_desktop_menu_does_what_it_says(s: ShellView, i: int)
    requires
        0 <= i < desktop_rows().len(),
    ensures
        ({
            let row = desktop_rows()[i];
            let (after, toggle_theme) = desktop_menu_chosen(s, row.id);
            &&& toggle_theme <==> row.label == "Toggle Theme"@
            &&& row.label == "Show Debug Overlay"@ ==> after.ui.debug_overlay_visible != s.ui.debug_overlay_visible
            &&& row.label != "Show Debug Overlay"@ ==> after == s
            &&& after.windows == s.windows
        }),
{
    reveal_strlit("Toggle Theme");
    reveal_strlit("Show Debug Overlay");
    reveal_strlit("New Folder");
    reveal_strlit("Get Info");
    reveal_strlit("Change Wallpaper\u{2026}");
    reveal_strlit("About this DE");
    assert("Toggle Theme"@.len() == 12);
    assert("Show Debug Overlay"@.len() == 18);
    assert("New Folder"@.len() == 10);
    assert("Get Info"@.len() == 8);
    assert("Change Wallpaper\u{2026}"@.len() == 17);
    assert("About this DE"@.len() == 13);
}

/// The rows of the dock menu have the numbers that are acted upon: 1 opens, 2 shows
/// all windows, 5 quits; the two that do nothing cannot be chosen.
pub proof fn law_dock_menu_rows(i: int)
    requires
        0 <= i < dock_rows().len(),
    ensures
        ({
            let row = dock_rows()[i];
            &&& row.label == "Open New Window"@ ==> row.id == 1 && row.enabled
            &&& row.label == "Show All Windows"@ ==> row.id == 2 && row.enabled
            &&& row.label == "Quit"@ ==> row.id == 5 && row.enabled
            &&& row.enabled <==> row.id == 1 || row.id == 2 || row.id == 5
        }),
{
    reveal_strlit("Open New Window");
    reveal_strlit("Show All Windows");
    reveal_strlit("Keep in Dock");
    reveal_strlit("Show in Files");
    reveal_strlit("Quit");
    assert("Open New Window"@.len() == 15);
    assert("Show All Windows"@.len() == 16);
    assert("Keep in Dock"@.len() == 12);
    assert("Show in Files"@.len() == 13);
    assert("Quit"@.len() == 4);
}

/// The menu bar shows the entries that have a name, in their order.
pub proof fn law_bar_shows_named_entries(nodes: Seq<AppMenuNode>, n: int)
    requires
        0 <= n <= nodes.len(),
    ensures
        bar_of(nodes, n) == nodes.take(n).filter(|d: AppMenuNode| !d.separator && d.label@.len() > 0).map_values(
            |d: AppMenuNode| (d.id, d.label@),
        ),
    decreases n,
{
    reveal(Seq::filter);
    let named = |d: AppMenuNode| !d.separator && d.label@.len() > 0;
    let shown = |d: AppMenuNode| (d.id, d.label@);
    if n > 0 {
        law_bar_shows_named_entries(nodes, n - 1);
        let front = nodes.take(n);
        assert(front.drop_last() =~= nodes.take(n - 1));
        assert(front.last() == nodes[n - 1]);
        let rest = nodes.take(n - 1).filter(named);
        if named(nodes[n - 1]) {
            assert(rest.push(nodes[n - 1]).map_values(shown) =~= rest.map_values(shown).push(
                shown(nodes[n - 1]),
            ));
        }
        assert(bar_of(nodes, n) =~= front.filter(named).map_values(shown));
    } else {
        assert(bar_of(nodes, n) =~= nodes.take(n).filter(named).map_values(shown));
    }
}

/// A row of a submenu shows the entry that it stands for: its number, its name, with a
/// mark behind it where it leads further, and whether it can be chosen.
pub proof fn law_submenu_row_shows_entry(node: &AppMenuNode)
    ensures
        node.separator ==> submenu_row(node).separator && !submenu_row(node).enabled,
        !node.separator ==> {
            let row = submenu_row(node);
            &&& !row.separator
            &&& row.id == node.id
            &&& row.enabled == node.enabled
            &&& row.label.take(node.label@.len() as int) == node.label@
            &&& row.label.len() > node.label@.len() <==> node.has_submenu
            &&& node.has_submenu ==> row.label.last() == '\u{25B8}'
        },
{
    reveal_strlit("  \u{25B8}");
    assert("  \u{25B8}"@.len() == 3);
    if !node.separator {
        assert(submenu_row(node).label.take(node.label@.len() as int) =~= node.label@);
        if node.has_submenu {
            assert(submenu_row(node).label.last() == "  \u{25B8}"@[2]);
        }
    }
}

/// A row of a tray menu shows the entry that it stands for. One without a number of
/// its own gets one that no other such row has.
pub proof fn law_tray_row_shows_entry(nodes: Seq<AppMenuNode>, i: int, j: int)
    requires
        0 <= i < j < nodes.len(),
        1_000_000 + nodes.len() <= i32::MAX,
        !nodes[i].separator,
        !nodes[j].separator,
    ensures
        tray_row(nodes, i).label == nodes[i].label@,
        tray_row(nodes, i).enabled == nodes[i].enabled,
        !tray_row(nodes, i).separator,
        nodes[i].id > 0 ==> tray_row(nodes, i).id == nodes[i].id,
        nodes[i].id <= 0 ==> tray_row(nodes, i).id >= 1_000_000,
        nodes[i].id <= 0 && nodes[j].id <= 0 ==> tray_row(nodes, i).id < tray_row(nodes, j).id,
{
    lemma_unnumbered_range(nodes, i);
    lemma_unnumbered_range(nodes, j);
    lemma_unnumbered_grows(nodes, i + 1, j);
}

proof fn lemma_unnumbered_grows(nodes: Seq<AppMenuNode>, n: int, m: int)
    requires
        0 <= n <= m,
    ensures
        unnumbered(nodes, n) <= unnumbered(nodes, m),
    decreases m - n,
{
    if n < m {
        lemma_unnumbered_grows(nodes, n, m - 1);
    }
}

/// A tray menu opens 10 left of the pointer and 6 below it, moved to the side as far as
/// it must be to lie on the output, 8 from its edges.
pub proof fn law_tray_menu_hangs_from_pointer(x: Coord, y: Coord, output_w: u32)
    requires
        output_w >= 236,
    ensures
        ({
            let (left, top) = tray_corner(x, y, output_w);
            &&& 8 <= left && left + 220 + 8 <= output_w
            &&& 8 <= x.floor - 10 && x.floor + 218 <= output_w ==> left == x.floor - 10
            &&& x.floor < 18 ==> left == 8
            &&& x.floor + 218 > output_w ==> left + 228 == output_w
            &&& y.floor >= 2 ==> top == y.floor + 6
            &&& y.floor < 2 ==> top == 8
        }),
{
}

proof fn lemma_focused_from(windows: Seq<WindowState>, i: int)
    requires
        0 <= i <= windows.len(),
    ensures
        match focused_from(windows, i) {
            Some(k) => i <= k < windows.len() && windows[k].focused && forall|j: int|
                i <= j < k ==> !(#[trigger] windows[j]).focused,
            None => forall|j: int| i <= j < windows.len() ==> !(#[trigger] windows[j]).focused,
        },
    decreases windows.len() - i,
{
    if i < windows.len() {
        lemma_focused_from(windows, i + 1);
    }
}

/// The menu in the panel is that of the focused window's client, and there is none
/// while no window has the focus.
pub proof fn law_panel_shows_focused_menu(windows: Seq<WindowState>, toplevels: Seq<ToplevelInfo>, i: int, t: int)
    ensures
        (forall|j: int| 0 <= j < windows.len() ==> !(#[trigger] windows[j]).focused) ==> focused_menu(windows, toplevels)
            is None,
        0 <= i < windows.len() && (forall|j: int| 0 <= j < windows.len() ==> ((#[trigger] windows[j]).focused <==> j == i))
            && 0 <= t < toplevels.len() && (forall|k: int|
            0 <= k < toplevels.len() ==> ((#[trigger] toplevels[k]).surface == windows[i].surface <==> k == t))
            ==> focused_menu(windows, toplevels) == address_view(toplevels[t].appmenu),
{
    lemma_focused_from(windows, 0);
    if focused_from(windows, 0) is Some {
        let k = focused_from(windows, 0)->0;
        assert(windows[k].focused);
        crate::surface::lemma_index_of(toplevels, windows[k].surface);
        if 0 <= i < windows.len() && (forall|j: int|
            0 <= j < windows.len() ==> ((#[trigger] windows[j]).focused <==> j == i)) {
            assert(k == i);
            if 0 <= t < toplevels.len() {
                assert(toplevels[t].surface == windows[i].surface || toplevels[t].surface != windows[i].surface);
            }
        }
    } else if 0 <= i < windows.len() {
        assert(!windows[i].focused);
    }
}

/// When another client's menu gets the focus, the open menu closes and the new one is
/// fetched; when none does, the bar is emptied. The same menu stays as it is.
pub proof fn law_bar_follows_focus(was: GlobalMenu, now: GlobalMenu, focused: Option<AppmenuAddress>, r: MenuBarStep)
    requires
        bar_follows(was, now, focused, r),
    ensures
        address_view(now.address) == address_view(focused),
        r == MenuBarStep::Keep ==> now == was,
        r != MenuBarStep::Keep ==> !now.open && address_view(was.address) != address_view(now.address),
        r == MenuBarStep::Fetch ==> focused is Some,
        r == MenuBarStep::Cleared <==> focused is None && was.address is Some,
        r == MenuBarStep::Cleared ==> now.bar@.len() == 0,
{
}

/// A submenu with rows opens at the place asked for, 34 below the top, with no row
/// selected; one without rows does not open.
pub proof fn law_submenu_opens_below_bar(
    was: GlobalMenu,
    now: GlobalMenu,
    nodes: Seq<AppMenuNode>,
    x: i32,
    open_index: i32,
)
    requires
        submenu_opened(was, now, nodes, x, open_index),
    ensures
        nodes.len() > 0 ==> now.open && now.x == x && now.y == 34 && now.open_index == open_index && now.selected == -1
            && now.items@.len() == nodes.len(),
        nodes.len() == 0 ==> now.open == was.open && now.open_index == -1 && now.items == was.items,
        now.bar == was.bar,
        now.address == was.address,
{
}

/// Over an overlay the pointer is an arrow. Elsewhere it is what the client asked for:
/// hidden, named, or a picture of its own, as large as its longer side; without a
/// picture the shell draws its own.
pub proof fn law_pointer_shows_what_client_set(state: &SpikeState, overlay_open: bool)
    ensures
        overlay_open ==> image_of(state, overlay_open) == PointerImage::Arrow,
        !overlay_open ==> match state.cursor_status {
            CursorStatus::Hidden => image_of(state, overlay_open) == PointerImage::Hidden,
            CursorStatus::Named { is_default } => image_of(state, overlay_open) == if is_default {
                PointerImage::Own
            } else {
                PointerImage::Named
            },
            CursorStatus::Surface(_) => {
                let p = state.cursor_surface_pixels;
                &&& image_of(state, overlay_open) == PointerImage::Own <==> p.width == 0 || p.height == 0
                &&& (image_of(state, overlay_open) matches PointerImage::Client { size } ==> size >= p.width && size
                    >= p.height && (size == p.width || size == p.height))
            },
        },
{
}

} // verus!
