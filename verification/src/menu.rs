//! Context menus: their rows, where they open, and keyboard navigation.

use vstd::prelude::*;

use crate::cursor::Coord;
use crate::num::{clamp_int, max_int, sat32, saturate};

verus! {

/// Width of every context menu.
pub const MENU_WIDTH: i32 = 220;

/// Distance that a menu keeps from the left and right edges of the output.
pub const MENU_SIDE_PAD: i32 = 8;

/// Distance that a menu keeps from the panel and from the dock.
pub const MENU_EDGE_PAD: i32 = 4;

pub const ROW_HEIGHT: i32 = 28;

pub const SEPARATOR_HEIGHT: i32 = 7;

/// Padding above the first row and below the last, together.
pub const MENU_CHROME: i32 = 12;

/// The selection of a menu with no row selected.
pub const NO_ROW: i32 = -1;

pub const KEY_ENTER: u32 = 28;

pub const KEY_KPENTER: u32 = 96;

pub const KEY_HOME: u32 = 102;

pub const KEY_UP: u32 = 103;

pub const KEY_END: u32 = 107;

pub const KEY_DOWN: u32 = 108;

/// One row of a menu.
#[derive(Debug)]
pub struct MenuItem {
    pub id: i32,
    pub label: String,
    pub accelerator: String,
    pub separator: bool,
    pub enabled: bool,
}

impl MenuItem {
    /// Whether the row can be selected.
    pub open spec fn pickable(&self) -> bool {
        !self.separator && self.enabled
    }

    pub fn is_pickable(&self) -> (r: bool)
        ensures
            r == self.pickable(),
    {
        !self.separator && self.enabled
    }

    pub open spec fn height(&self) -> int {
        if self.separator {
            SEPARATOR_HEIGHT as int
        } else {
            ROW_HEIGHT as int
        }
    }
}

/// The height of all rows together.
pub open spec fn rows_height(items: Seq<MenuItem>) -> int
    decreases items.len(),
{
    if items.len() == 0 {
        0
    } else {
        rows_height(items.drop_last()) + items.last().height()
    }
}

/// The height of a menu: its rows and its padding, and room for one row at
/// least.
pub open spec fn menu_height(items: Seq<MenuItem>) -> int {
    max_int(MENU_CHROME + rows_height(items), MENU_CHROME + ROW_HEIGHT)
}

proof fn lemma_rows_height_prefix(items: Seq<MenuItem>, k: int)
    requires
        0 <= k <= items.len(),
    ensures
        0 <= rows_height(items.take(k)) <= rows_height(items),
    decreases items.len(),
{
    if k == items.len() {
        assert(items.take(k) =~= items);
        if items.len() > 0 {
            lemma_rows_height_prefix(items.drop_last(), items.len() - 1);
            assert(items.drop_last().take(items.len() - 1) =~= items.drop_last());
        }
    } else {
        lemma_rows_height_prefix(items.drop_last(), k);
        assert(items.drop_last().take(k) =~= items.take(k));
    }
}

/// The height of a menu with these rows, in pixels.
pub fn compute_menu_height(items: &Vec<MenuItem>) -> (r: i32)
    ensures
        r == sat32(menu_height(items@)),
        r >= MENU_CHROME + ROW_HEIGHT,
{
    let mut h: i32 = MENU_CHROME;
    let mut i: usize = 0;
    while i < items.len()
        invariant
            0 <= i <= items@.len(),
            h == MENU_CHROME + rows_height(items@.take(i as int)),
        decreases items@.len() - i,
    {
        assert(items@.take(i + 1).drop_last() =~= items@.take(i as int));
        assert(items@.take(i + 1).last() == items@[i as int]);
        let row: i32 = if items[i].separator {
            SEPARATOR_HEIGHT
        } else {
            ROW_HEIGHT
        };
        if h > i32::MAX - row {
            proof {
                lemma_rows_height_prefix(items@, i + 1);
            }
            return i32::MAX;
        }
        h = h + row;
        i += 1;
    }
    assert(items@.take(i as int) =~= items@);
    if h < MENU_CHROME + ROW_HEIGHT {
        MENU_CHROME + ROW_HEIGHT
    } else {
        h
    }
}

/// The output that menus open on.
#[derive(Clone, Copy, Debug, PartialEq, Eq, Structural)]
pub struct MenuBounds {
    pub output_w: i32,
    pub output_h: i32,
    /// Height of the panel at the top.
    pub panel_h: i32,
    /// Height of the dock at the bottom.
    pub dock_h: i32,
}

/// The corner of an opened menu, and the point inside it that it grows from.
#[derive(Clone, Copy, Debug, PartialEq, Eq, Structural)]
pub struct MenuPlacement {
    pub x: i32,
    pub y: i32,
    pub origin_x: i32,
    pub origin_y: i32,
}

/// Where a menu of length `len` starts on an axis when it is asked for at `at`:
/// there, or ending there when it would pass `end`, and in any case between
/// `start` and `end`.
pub open spec fn menu_start(at: Coord, len: int, start: int, end: int) -> int {
    let free = if at.le(end - len) {
        at.floor as int
    } else {
        at.floor - len
    };
    clamp_int(free, start, max_int(end - len, start))
}

/// Where a menu of height `h` opens when it is asked for at a point.
pub open spec fn menu_placement(x: Coord, y: Coord, h: int, b: MenuBounds) -> MenuPlacement {
    let mx = menu_start(x, MENU_WIDTH as int, MENU_SIDE_PAD as int, b.output_w - MENU_SIDE_PAD);
    let my = menu_start(y, h, b.panel_h + MENU_EDGE_PAD, b.output_h - b.dock_h - MENU_EDGE_PAD);
    MenuPlacement {
        x: sat32(mx),
        y: sat32(my),
        origin_x: clamp_int(x.floor - mx, 0, MENU_WIDTH as int) as i32,
        origin_y: clamp_int(y.floor - my, 0, h) as i32,
    }
}

fn clamp_i64(v: i64, lo: i64, hi: i64) -> (r: i64)
    ensures
        r == clamp_int(v as int, lo as int, hi as int),
{
    if v > hi {
        if hi > lo {
            hi
        } else {
            lo
        }
    } else if v > lo {
        v
    } else {
        lo
    }
}

/// Coordinates that the layout can compute with.
pub open spec fn in_reach(c: Coord) -> bool {
    &&& c.wf()
    &&& -0x1_0000_0000_0000 <= c.floor
    &&& c.ceil <= 0x1_0000_0000_0000
}

fn axis_start(at: Coord, len: i32, start: i64, end: i64) -> (r: i64)
    requires
        in_reach(at),
        0 <= len,
        -0x10_0000_0000 <= start <= 0x10_0000_0000,
        -0x10_0000_0000 <= end <= 0x10_0000_0000,
    ensures
        r == menu_start(at, len as int, start as int, end as int),
        -0x10_0000_0000 <= r <= 0x10_0000_0000,
{
    let limit: i64 = end - len as i64;
    let free: i64 = if at.at_most(limit) {
        at.floor
    } else {
        at.floor - len as i64
    };
    let hi: i64 = if limit > start {
        limit
    } else {
        start
    };
    clamp_i64(free, start, hi)
}

/// Where a menu of height `h` opens when it is asked for at a point.
pub fn place_menu(x: Coord, y: Coord, h: i32, b: MenuBounds) -> (r: MenuPlacement)
    requires
        in_reach(x),
        in_reach(y),
        h >= 0,
    ensures
        r == menu_placement(x, y, h as int, b),
{
    let mx: i64 = axis_start(x, MENU_WIDTH, MENU_SIDE_PAD as i64, b.output_w as i64 - MENU_SIDE_PAD as i64);
    let my: i64 = axis_start(
        y,
        h,
        b.panel_h as i64 + MENU_EDGE_PAD as i64,
        b.output_h as i64 - b.dock_h as i64 - MENU_EDGE_PAD as i64,
    );
    MenuPlacement {
        x: saturate(mx),
        y: saturate(my),
        origin_x: clamp_i64(x.floor - mx, 0, MENU_WIDTH as i64) as i32,
        origin_y: clamp_i64(y.floor - my, 0, h as i64) as i32,
    }
}

/// On an output with room for it, a menu lies between the panel and the dock and
/// inside the sides.
pub proof fn law_menu_on_output(x: Coord, y: Coord, h: int, b: MenuBounds)
    requires
        h >= 0,
        b.panel_h >= 0,
        b.dock_h >= 0,
        b.output_w >= MENU_WIDTH + 2 * MENU_SIDE_PAD,
        b.output_h >= b.panel_h + b.dock_h + h + 2 * MENU_EDGE_PAD,
    ensures
        ({
            let p = menu_placement(x, y, h, b);
            &&& MENU_SIDE_PAD <= p.x
            &&& p.x + MENU_WIDTH <= b.output_w - MENU_SIDE_PAD
            &&& b.panel_h + MENU_EDGE_PAD <= p.y
            &&& p.y + h <= b.output_h - b.dock_h - MENU_EDGE_PAD
        }),
{
}

/// A menu asked for where it can open covers the point it was asked for at.
pub proof fn law_menu_covers_point(x: Coord, y: Coord, h: int, b: MenuBounds)
    requires
        h >= 0,
        x.wf(),
        y.wf(),
        b.output_w >= MENU_WIDTH + 2 * MENU_SIDE_PAD,
        b.output_h >= b.panel_h + b.dock_h + h + 2 * MENU_EDGE_PAD,
        b.panel_h >= 0,
        b.dock_h >= 0,
        MENU_SIDE_PAD <= x.floor,
        x.ceil <= b.output_w - MENU_SIDE_PAD,
        b.panel_h + MENU_EDGE_PAD <= y.floor,
        y.ceil <= b.output_h - b.dock_h - MENU_EDGE_PAD,
    ensures
        ({
            let p = menu_placement(x, y, h, b);
            &&& p.x <= x.floor <= p.x + MENU_WIDTH
            &&& p.y <= y.floor <= p.y + h
            &&& p.x + p.origin_x == x.floor
            &&& p.y + p.origin_y == y.floor
        }),
{
}

/// A context menu.
#[derive(Debug)]
pub struct Menu {
    pub open: bool,
    /// The selected row, or `NO_ROW`.
    pub selected: i32,
    pub x: i32,
    pub y: i32,
    pub w: i32,
    pub h: i32,
    pub origin_x: i32,
    pub origin_y: i32,
    pub items: Vec<MenuItem>,
}

#[verifier::ext_equal]
pub struct MenuView {
    pub open: bool,
    pub selected: i32,
    pub x: i32,
    pub y: i32,
    pub w: i32,
    pub h: i32,
    pub origin_x: i32,
    pub origin_y: i32,
    pub items: Seq<MenuItem>,
}

impl View for Menu {
    type V = MenuView;

    open spec fn view(&self) -> MenuView {
        MenuView {
            open: self.open,
            selected: self.selected,
            x: self.x,
            y: self.y,
            w: self.w,
            h: self.h,
            origin_x: self.origin_x,
            origin_y: self.origin_y,
            items: self.items@,
        }
    }
}

/// A closed menu without rows.
pub open spec fn no_menu() -> MenuView {
    MenuView {
        open: false,
        selected: NO_ROW,
        x: 0,
        y: 0,
        w: 0,
        h: 0,
        origin_x: 0,
        origin_y: 0,
        items: Seq::empty(),
    }
}

/// Whether row `i` can be selected.
pub open spec fn row_pickable(items: Seq<MenuItem>, i: int) -> bool {
    0 <= i < items.len() && items[i].pickable()
}

/// Whether any row can be selected.
pub open spec fn any_pickable(items: Seq<MenuItem>) -> bool {
    exists|i: int| #[trigger] row_pickable(items, i)
}

/// The row after `i` in a direction; the ends are joined.
pub open spec fn next_row(n: int, i: int, down: bool) -> int {
    let j = if down {
        i + 1
    } else {
        i - 1
    };
    if j < 0 {
        n - 1
    } else if j >= n {
        0
    } else {
        j
    }
}

/// The first selectable row met within `tries` steps from `i`.
pub open spec fn step_row(items: Seq<MenuItem>, i: int, down: bool, tries: nat) -> Option<int>
    decreases tries,
{
    if tries == 0 {
        None
    } else {
        let j = next_row(items.len() as int, i, down);
        if row_pickable(items, j) {
            Some(j)
        } else {
            step_row(items, j, down, (tries - 1) as nat)
        }
    }
}

/// The row that a step from `from` selects; `from` itself where there is none.
pub open spec fn stepped(items: Seq<MenuItem>, from: int, down: bool) -> int {
    match step_row(items, from, down, items.len()) {
        Some(j) => j,
        None => from,
    }
}

/// What a navigation key does to an open menu, and the row id it activates.
pub open spec fn navigated(m: MenuView, scancode: u32) -> (MenuView, Option<i32>) {
    let n = m.items.len() as int;
    if !any_pickable(m.items) {
        (m, None)
    } else if scancode == KEY_UP {
        let from = if m.selected < 0 {
            0
        } else {
            m.selected as int
        };
        (MenuView { selected: stepped(m.items, from, false) as i32, ..m }, None)
    } else if scancode == KEY_DOWN {
        let from = if m.selected < 0 {
            -1
        } else {
            m.selected as int
        };
        (MenuView { selected: stepped(m.items, from, true) as i32, ..m }, None)
    } else if scancode == KEY_HOME {
        (MenuView { selected: stepped(m.items, -1, true) as i32, ..m }, None)
    } else if scancode == KEY_END {
        (MenuView { selected: stepped(m.items, n, false) as i32, ..m }, None)
    } else if scancode == KEY_ENTER || scancode == KEY_KPENTER {
        if row_pickable(m.items, m.selected as int) {
            (MenuView { open: false, selected: NO_ROW, ..m }, Some(m.items[m.selected as int].id))
        } else {
            (m, None)
        }
    } else {
        (m, None)
    }
}

pub open spec fn is_nav_key(scancode: u32) -> bool {
    scancode == KEY_UP || scancode == KEY_DOWN || scancode == KEY_HOME || scancode == KEY_END || scancode
        == KEY_ENTER || scancode == KEY_KPENTER
}

/// Whether a key navigates menus: the arrows, Home, End and the Enter keys.
pub fn is_navigation_key(scancode: u32) -> (r: bool)
    ensures
        r == is_nav_key(scancode),
{
    scancode == KEY_UP || scancode == KEY_DOWN || scancode == KEY_HOME || scancode == KEY_END || scancode
        == KEY_ENTER || scancode == KEY_KPENTER
}

proof fn lemma_step_row(items: Seq<MenuItem>, i: int, down: bool, tries: nat)
    ensures
        step_row(items, i, down, tries) matches Some(j) ==> row_pickable(items, j),
    decreases tries,
{
    if tries > 0 {
        let j = next_row(items.len() as int, i, down);
        if !row_pickable(items, j) {
            lemma_step_row(items, j, down, (tries - 1) as nat);
        }
    }
}

/// A downward walk from `i` meets every row in turn, so it finds the selectable
/// row at distance `d`, or one before it.
proof fn lemma_walk_down(items: Seq<MenuItem>, i: int, target: int, tries: nat)
    requires
        -1 <= i < items.len(),
        row_pickable(items, target),
        tries >= if target > i {
            target - i
        } else {
            items.len() - i + target
        },
    ensures
        step_row(items, i, true, tries) is Some,
    decreases tries,
{
    let n = items.len() as int;
    let j = next_row(n, i, true);
    if !row_pickable(items, j) {
        lemma_walk_down(items, j, target, (tries - 1) as nat);
    }
}

proof fn lemma_walk_up(items: Seq<MenuItem>, i: int, target: int, tries: nat)
    requires
        0 <= i <= items.len(),
        row_pickable(items, target),
        tries >= if target < i {
            i - target
        } else {
            i + items.len() - target
        },
    ensures
        step_row(items, i, false, tries) is Some,
    decreases tries,
{
    let n = items.len() as int;
    let j = next_row(n, i, false);
    if !row_pickable(items, j) {
        lemma_walk_up(items, j, target, (tries - 1) as nat);
    }
}

/// As long as any row can be selected, every step lands on a selectable row.
pub proof fn law_step_selects(items: Seq<MenuItem>, from: int, down: bool)
    requires
        any_pickable(items),
        -1 <= from,
        !down ==> 0 <= from,
    ensures
        step_row(items, from, down, items.len()) is Some,
        row_pickable(items, stepped(items, from, down)),
{
    let t = choose|t: int| #[trigger] row_pickable(items, t);
    if from > items.len() || (down && from == items.len()) {
        if !row_pickable(items, 0) {
            let tries = (items.len() - 1) as nat;
            if down {
                lemma_walk_down(items, 0, t, tries);
            } else {
                lemma_walk_up(items, 0, t, tries);
            }
        }
    } else if down {
        lemma_walk_down(items, from, t, items.len());
    } else {
        lemma_walk_up(items, from, t, items.len());
    }
    lemma_step_row(items, from, down, items.len());
}

impl Menu {
    /// The selection is a row that the menu has or had, or none.
    pub open spec fn wf(&self) -> bool {
        &&& -1 <= self.selected < i32::MAX
        &&& self.items@.len() <= i32::MAX
    }

    /// A closed menu without rows.
    pub fn empty() -> (m: Menu)
        ensures
            m.wf(),
            m@ == no_menu(),
    {
        Menu {
            open: false,
            selected: NO_ROW,
            x: 0,
            y: 0,
            w: 0,
            h: 0,
            origin_x: 0,
            origin_y: 0,
            items: Vec::new(),
        }
    }

    /// Closes the menu and drops its selection.
    pub fn dismiss(&mut self)
        ensures
            final(self)@ == (MenuView { open: false, selected: NO_ROW, ..old(self)@ }),
            old(self).wf() ==> final(self).wf(),
    {
        self.open = false;
        self.selected = NO_ROW;
    }

    /// Opens the menu at a point, sized for its rows.
    pub fn open_at(&mut self, x: Coord, y: Coord, bounds: MenuBounds)
        requires
            old(self).wf(),
            in_reach(x),
            in_reach(y),
        ensures
            final(self).wf(),
            final(self)@ == opened(old(self)@, x, y, bounds),
    {
        let h: i32 = compute_menu_height(&self.items);
        let p = place_menu(x, y, h, bounds);
        self.x = p.x;
        self.y = p.y;
        self.w = MENU_WIDTH;
        self.h = h;
        self.origin_x = p.origin_x;
        self.origin_y = p.origin_y;
        self.selected = NO_ROW;
        self.open = true;
    }

    /// Opens the menu at a corner with new rows. The selection stays, whether the new
    /// rows have it or not.
    pub fn reload(&mut self, items: Vec<MenuItem>, x: i32, y: i32)
        requires
            old(self).wf(),
            items@.len() <= i32::MAX,
        ensures
            final(self).wf(),
            final(self)@ == reloaded(old(self)@, items@, x, y),
    {
        self.items = items;
        self.x = x;
        self.y = y;
        self.open = true;
    }

    /// Whether the selected row can be activated.
    pub fn selection_pickable(&self) -> (r: bool)
        requires
            self.wf(),
        ensures
            r == row_pickable(self.items@, self.selected as int),
    {
        self.selected >= 0 && (self.selected as usize) < self.items.len()
            && self.items[self.selected as usize].is_pickable()
    }

    /// Whether any row can be selected.
    pub fn has_pickable(&self) -> (r: bool)
        ensures
            r == any_pickable(self.items@),
    {
        let mut i: usize = 0;
        while i < self.items.len()
            invariant
                0 <= i <= self.items@.len(),
                forall|k: int| 0 <= k < i ==> !#[trigger] row_pickable(self.items@, k),
            decreases self.items@.len() - i,
        {
            if self.items[i].is_pickable() {
                assert(row_pickable(self.items@, i as int));
                return true;
            }
            i += 1;
        }
        false
    }

    /// The row that a step from `from` selects.
    fn step(&self, from: i32, down: bool) -> (r: i32)
        requires
            self.wf(),
            any_pickable(self.items@),
            -1 <= from,
            down ==> from < i32::MAX,
            !down ==> 0 <= from,
        ensures
            r == stepped(self.items@, from as int, down),
            0 <= r < self.items@.len(),
    {
        proof {
            law_step_selects(self.items@, from as int, down);
        }
        let n: i32 = self.items.len() as i32;
        let mut i: i32 = from;
        let mut tries: i32 = n;
        while tries > 0
            invariant
                0 <= tries <= n,
                n == self.items@.len(),
                -1 <= i,
                down ==> i < i32::MAX,
                !down ==> 0 <= i,
                row_pickable(self.items@, stepped(self.items@, from as int, down)),
                step_row(self.items@, from as int, down, self.items@.len()) is Some,
                step_row(self.items@, from as int, down, self.items@.len()) == step_row(
                    self.items@,
                    i as int,
                    down,
                    tries as nat,
                ),
            decreases tries,
        {
            let mut j: i32 = if down {
                i + 1
            } else {
                i - 1
            };
            if j < 0 {
                j = n - 1;
            } else if j >= n {
                j = 0;
            }
            if self.items[j as usize].is_pickable() {
                return j;
            }
            i = j;
            tries = tries - 1;
        }
        from
    }

    /// Handles a navigation key in the open menu: moves the selection past
    /// separators and disabled rows, or activates the selected row and closes the
    /// menu. Returns the id of the activated row.
    pub fn navigate(&mut self, scancode: u32) -> (r: Option<i32>)
        requires
            old(self).wf(),
        ensures
            final(self).wf(),
            (final(self)@, r) == navigated(old(self)@, scancode),
    {
        if !self.has_pickable() {
            return None;
        }
        proof {
            let t = choose|t: int| #[trigger] row_pickable(self.items@, t);
            assert(self.items@.len() > 0);
        }
        if scancode == KEY_UP {
            let from: i32 = if self.selected < 0 {
                0
            } else {
                self.selected
            };
            self.selected = self.step(from, false);
        } else if scancode == KEY_DOWN {
            let from: i32 = if self.selected < 0 {
                -1
            } else {
                self.selected
            };
            self.selected = self.step(from, true);
        } else if scancode == KEY_HOME {
            self.selected = self.step(-1, true);
        } else if scancode == KEY_END {
            let n: i32 = self.items.len() as i32;
            self.selected = self.step(n, false);
        } else if scancode == KEY_ENTER || scancode == KEY_KPENTER {
            if !self.selection_pickable() {
                return None;
            }
            let id: i32 = self.items[self.selected as usize].id;
            self.dismiss();
            return Some(id);
        }
        None
    }
}

/// A menu opened at a corner with new rows.
pub open spec fn reloaded(m: MenuView, rows: Seq<MenuItem>, x: i32, y: i32) -> MenuView {
    MenuView {
        open: true,
        x,
        y,
        items: rows,
        ..m
    }
}

/// A menu once it was opened at a point.
pub open spec fn opened(m: MenuView, x: Coord, y: Coord, bounds: MenuBounds) -> MenuView {
    let h = sat32(menu_height(m.items));
    let p = menu_placement(x, y, h as int, bounds);
    MenuView {
        open: true,
        selected: NO_ROW,
        x: p.x,
        y: p.y,
        w: MENU_WIDTH,
        h,
        origin_x: p.origin_x,
        origin_y: p.origin_y,
        ..m
    }
}

/// Whatever key is pressed, a menu never selects a separator, a disabled row or a row
/// that it does not have, unless it had selected it before.
pub proof fn law_selection_stays_pickable(m: MenuView, scancode: u32)
    requires
        -1 <= m.selected,
        m.items.len() <= i32::MAX,
    ensures
        ({
            let after = navigated(m, scancode).0;
            after.selected == m.selected || after.selected == NO_ROW || row_pickable(
                after.items,
                after.selected as int,
            )
        }),
{
    if any_pickable(m.items) {
        let t = choose|t: int| #[trigger] row_pickable(m.items, t);
        let up_from = if m.selected < 0 {
            0
        } else {
            m.selected as int
        };
        let down_from = if m.selected < 0 {
            -1
        } else {
            m.selected as int
        };
        law_step_selects(m.items, up_from, false);
        law_step_selects(m.items, down_from, true);
        law_step_selects(m.items, -1, true);
        law_step_selects(m.items, m.items.len() as int, false);
    }
}

/// A menu that is asked for at a point has a corner there: the one at its upper left as long
/// as the menu fits to the right of the point and below it, or else the one on the other
/// side.
pub proof fn law_menu_hangs_from_point(m: MenuView, x: Coord, y: Coord, b: MenuBounds)
    requires
        x.wf(),
        y.wf(),
        b.panel_h >= 0,
        b.dock_h >= 0,
        menu_height(m.items) <= i32::MAX,
        i32::MIN <= y.floor - menu_height(m.items),
    ensures
        ({
            let after = opened(m, x, y, b);
            let lowest = b.output_h - b.dock_h - 4;
            &&& after.open && after.selected == -1 && after.w == 220 && after.items == m.items
            &&& 8 <= x.floor && x.ceil + 220 <= b.output_w - 8 ==> after.x == x.floor
            &&& 228 <= x.floor && x.ceil <= b.output_w - 8 && x.ceil + 220 > b.output_w - 8 ==> after.x + after.w
                == x.floor
            &&& b.panel_h + 4 <= y.floor && y.ceil + after.h <= lowest ==> after.y == y.floor
            &&& b.panel_h + 4 + after.h <= y.floor && y.ceil <= lowest && y.ceil + after.h > lowest ==> after.y
                + after.h == y.floor
        }),
{
    lemma_rows_height_prefix(m.items, m.items.len() as int);
    assert(m.items.take(m.items.len() as int) =~= m.items);
}

/// A menu is as high as its rows with its padding, but has room for one row: every row is 28
/// pixels high and every separator 7.
pub proof fn law_menu_height_adds_up(items: Seq<MenuItem>, row: MenuItem)
    ensures
        rows_height(Seq::<MenuItem>::empty()) == 0,
        rows_height(items.push(row)) == rows_height(items) + if row.separator {
            7int
        } else {
            28
        },
        rows_height(items) >= 28 ==> menu_height(items) == rows_height(items) + 12,
        rows_height(items) < 28 ==> menu_height(items) == 40,
{
    assert(items.push(row).drop_last() =~= items);
}

/// Down selects the next row that can be selected, past separators and disabled rows, and
/// goes on from the top behind the last. Up goes the other way.
pub proof fn law_arrows_select_neighbours(m: MenuView)
    requires
        -1 <= m.selected < m.items.len() <= i32::MAX,
        any_pickable(m.items),
    ensures
        ({
            let d = navigated(m, 108);
            let u = navigated(m, 103);
            let at = m.selected as int;
            let from = if m.selected < 0 { 0 } else { m.selected as int };
            &&& d == (MenuView { selected: d.0.selected, ..m }, None::<i32>)
            &&& u == (MenuView { selected: u.0.selected, ..m }, None::<i32>)
            &&& row_pickable(m.items, d.0.selected as int) && row_pickable(m.items, u.0.selected as int)
            &&& d.0.selected > at ==> forall|k: int| at < k < d.0.selected ==> !#[trigger] row_pickable(m.items, k)
            &&& d.0.selected <= at ==> forall|k: int|
                (k > at || k < d.0.selected) ==> !#[trigger] row_pickable(m.items, k)
            &&& u.0.selected < from ==> forall|k: int| u.0.selected < k < from ==> !#[trigger] row_pickable(m.items, k)
            &&& u.0.selected >= from ==> forall|k: int|
                (k < from || k > u.0.selected) ==> !#[trigger] row_pickable(m.items, k)
        }),
{
    let from = if m.selected < 0 { 0 } else { m.selected as int };
    let n = m.items.len();
    law_step_selects(m.items, m.selected as int, true);
    law_step_selects(m.items, from, false);
    lemma_nothing_skipped_down(m.items, m.selected as int, n);
    lemma_nothing_skipped_up(m.items, from, n);
}

/// Home selects the first row that can be selected, and End the last.
pub proof fn law_home_and_end(m: MenuView)
    requires
        m.items.len() <= i32::MAX,
        any_pickable(m.items),
    ensures
        ({
            let h = navigated(m, 102);
            let e = navigated(m, 107);
            &&& h == (MenuView { selected: h.0.selected, ..m }, None::<i32>)
            &&& e == (MenuView { selected: e.0.selected, ..m }, None::<i32>)
            &&& row_pickable(m.items, h.0.selected as int) && row_pickable(m.items, e.0.selected as int)
            &&& forall|k: int| #[trigger] row_pickable(m.items, k) ==> h.0.selected <= k <= e.0.selected
        }),
{
    let n = m.items.len();
    law_step_selects(m.items, -1, true);
    law_step_selects(m.items, n as int, false);
    lemma_nothing_skipped_down(m.items, -1, n);
    lemma_nothing_skipped_up(m.items, n as int, n);
}

/// Either Enter key activates the selected row, and that closes the menu; with no row to
/// activate the menu stays as it is.
pub proof fn law_enter_activates(m: MenuView)
    ensures
        ({
            let row = m.selected as int;
            let usable = 0 <= row < m.items.len() && !m.items[row].separator && m.items[row].enabled;
            &&& navigated(m, 28) == navigated(m, 96) && NO_ROW == -1
            &&& usable ==> navigated(m, 28) == (MenuView { open: false, selected: NO_ROW, ..m }, Some(m.items[row].id))
            &&& !usable ==> navigated(m, 28) == (m, None::<i32>)
        }),
{
    if row_pickable(m.items, m.selected as int) {
        assert(any_pickable(m.items));
    }
}

proof fn lemma_nothing_skipped_down(items: Seq<MenuItem>, i: int, tries: nat)
    requires
        -1 <= i < items.len(),
        items.len() > 0,
        step_row(items, i, true, tries) is Some,
    ensures
        ({
            let j = step_row(items, i, true, tries)->0;
            ||| j > i && forall|k: int| i < k < j ==> !#[trigger] row_pickable(items, k)
            ||| j <= i && forall|k: int| (k > i || k < j) ==> !#[trigger] row_pickable(items, k)
        }),
    decreases tries,
{
    let next = next_row(items.len() as int, i, true);
    if !row_pickable(items, next) {
        lemma_nothing_skipped_down(items, next, (tries - 1) as nat);
        lemma_step_row(items, next, true, (tries - 1) as nat);
    }
}

proof fn lemma_nothing_skipped_up(items: Seq<MenuItem>, i: int, tries: nat)
    requires
        0 <= i <= items.len(),
        items.len() > 0,
        step_row(items, i, false, tries) is Some,
    ensures
        ({
            let j = step_row(items, i, false, tries)->0;
            ||| j < i && forall|k: int| j < k < i ==> !#[trigger] row_pickable(items, k)
            ||| j >= i && forall|k: int| (k < i || k > j) ==> !#[trigger] row_pickable(items, k)
        }),
    decreases tries,
{
    let next = next_row(items.len() as int, i, false);
    if !row_pickable(items, next) {
        lemma_nothing_skipped_up(items, next, (tries - 1) as nat);
        lemma_step_row(items, next, false, (tries - 1) as nat);
    }
}

} // verus!
