//! The dock: its entries, which of them run, where it is, and the launcher that
//! searches it.

use vstd::prelude::*;

use crate::cursor::Coord;
use crate::shell::{DockAction, Shell, ShellView};
use crate::text::{
    after_last, chars_after_last, chars_of, contains_text, has_text, insert_sorted, lists_text, occurs,
    same_chars, same_text, texts, texts_sorted,
};

verus! {

/// Width of one dock slot.
pub const DOCK_SLOT_W: i64 = 64;

/// Padding at either end of the row of slots.
pub const DOCK_PADDING: i64 = 8;

/// Gap above and below the pill.
pub const DOCK_OUTER_GAP: i64 = 8;

/// One item of the dock.
#[derive(Debug)]
pub struct DockItem {
    pub app_id: String,
    pub name: String,
    pub running: bool,
    pub focused: bool,
    pub pinned: bool,
}

/// A pinned application and the command that starts it.
#[derive(Debug)]
pub struct ResolvedDockEntry {
    pub item: DockItem,
    pub command: String,
}

/// Width of the pill with `n` slots.
pub open spec fn pill_width(n: int) -> int {
    n * DOCK_SLOT_W + 2 * DOCK_PADDING
}

/// Whether a point is in the dock's pill, which is centred at the bottom of the
/// output. `x2` is twice the horizontal coordinate: the pill may begin at half a pixel.
pub open spec fn in_pill(x2: Coord, y: Coord, slots: int, output_w: i32, output_h: i32, dock_h: i32) -> bool {
    &&& y.ge(output_h - dock_h + DOCK_OUTER_GAP)
    &&& y.lt(output_h - DOCK_OUTER_GAP)
    &&& x2.ge(output_w - pill_width(slots))
    &&& x2.lt(output_w + pill_width(slots))
}

/// Whether a point is in the dock's pill. `x2` is twice the horizontal coordinate.
pub fn point_in_dock_pill(x2: Coord, y: Coord, slots: usize, output_w: i32, output_h: i32, dock_h: i32) -> (r: bool)
    ensures
        r == in_pill(x2, y, slots as int, output_w, output_h, dock_h),
{
    let top: i64 = output_h as i64 - dock_h as i64 + DOCK_OUTER_GAP;
    let bottom: i64 = output_h as i64 - DOCK_OUTER_GAP;
    let n: i128 = slots as i128;
    assert(0 <= n * DOCK_SLOT_W <= 0xffff_ffff_ffff_ffff * DOCK_SLOT_W) by (nonlinear_arith)
        requires
            0 <= n <= 0xffff_ffff_ffff_ffff,
            0 <= DOCK_SLOT_W,
    ;
    let pill: i128 = n * DOCK_SLOT_W as i128 + 2 * DOCK_PADDING as i128;
    y.at_least(top) && y.below(bottom) && x2.floor as i128 >= output_w as i128 - pill && (x2.floor as i128)
        < output_w as i128 + pill
}

/// Whether two application ids mean the same application: they are equal, or one is
/// the last part of the other.
pub open spec fn same_app(a: Seq<char>, b: Seq<char>) -> bool {
    a == b || after_last(a, '.') == b || after_last(b, '.') == a
}

/// Whether two application ids mean the same application.
pub fn matches_pinned(a: &str, b: &str) -> (r: bool)
    ensures
        r == same_app(a@, b@),
{
    if same_text(a, b) {
        return true;
    }
    let ca = chars_of(a);
    let cb = chars_of(b);
    same_chars(&chars_after_last(&ca, '.'), &cb) || same_chars(&chars_after_last(&cb, '.'), &ca)
}

/// Whether any of the running applications is the given one.
pub open spec fn runs(running: Seq<String>, app_id: Seq<char>) -> bool {
    exists|i: int| 0 <= i < running.len() && same_app((#[trigger] running[i])@, app_id)
}

fn is_running(running: &Vec<String>, app_id: &str) -> (r: bool)
    ensures
        r == runs(running@, app_id@),
{
    let mut i: usize = 0;
    while i < running.len()
        invariant
            0 <= i <= running@.len(),
            forall|k: int| 0 <= k < i ==> !same_app((#[trigger] running@[k])@, app_id@),
        decreases running@.len() - i,
    {
        if matches_pinned(running[i].as_str(), app_id) {
            assert(same_app(running@[i as int]@, app_id@));
            return true;
        }
        i += 1;
    }
    false
}

/// Whether an application is among the pinned ones.
pub open spec fn is_pinned(entries: Seq<ResolvedDockEntry>, app_id: Seq<char>) -> bool {
    exists|i: int| 0 <= i < entries.len() && same_app(app_id, (#[trigger] entries[i]).item.app_id@)
}

fn pinned(entries: &Vec<ResolvedDockEntry>, app_id: &str) -> (r: bool)
    ensures
        r == is_pinned(entries@, app_id@),
{
    let mut i: usize = 0;
    while i < entries.len()
        invariant
            0 <= i <= entries@.len(),
            forall|k: int| 0 <= k < i ==> !same_app(app_id@, (#[trigger] entries@[k]).item.app_id@),
        decreases entries@.len() - i,
    {
        if matches_pinned(app_id, entries[i].item.app_id.as_str()) {
            assert(same_app(app_id@, entries@[i as int].item.app_id@));
            return true;
        }
        i += 1;
    }
    false
}

/// The ids of the applications that have a window: each once, in order.
pub fn running_apps(app_ids: &Vec<String>) -> (r: Vec<String>)
    ensures
        texts_sorted(r@),
        forall|t: Seq<char>| #[trigger] lists_text(r@, t) <==> lists_text(app_ids@, t) && t.len() > 0,
{
    let mut out: Vec<String> = Vec::new();
    let mut i: usize = 0;
    while i < app_ids.len()
        invariant
            0 <= i <= app_ids@.len(),
            texts_sorted(out@),
            forall|t: Seq<char>|
                #[trigger] lists_text(out@, t) <==> lists_text(app_ids@.take(i as int), t) && t.len() > 0,
        decreases app_ids@.len() - i,
    {
        let ghost before = app_ids@.take(i as int);
        let ghost after = app_ids@.take(i + 1);
        let ghost new = app_ids@[i as int]@;
        assert forall|t: Seq<char>| lists_text(after, t) <==> lists_text(before, t) || t == new by {
            if lists_text(after, t) {
                let k = choose|k: int| 0 <= k < after.len() && (#[trigger] after[k])@ == t;
                if k < i {
                    assert(before[k]@ == t);
                }
            }
            if lists_text(before, t) {
                let k = choose|k: int| 0 <= k < before.len() && (#[trigger] before[k])@ == t;
                assert(after[k]@ == t);
            }
            if t == new {
                assert(after[i as int]@ == t);
            }
        }
        if app_ids[i].as_str().unicode_len() > 0 {
            insert_sorted(&mut out, app_ids[i].clone());
        }
        i += 1;
    }
    assert(app_ids@.take(i as int) =~= app_ids@);
    out
}

fn all_in(a: &Vec<String>, b: &Vec<String>) -> (r: bool)
    ensures
        r == (forall|t: Seq<char>| #[trigger] lists_text(a@, t) ==> lists_text(b@, t)),
{
    let mut i: usize = 0;
    while i < a.len()
        invariant
            0 <= i <= a@.len(),
            forall|k: int| 0 <= k < i ==> lists_text(b@, (#[trigger] a@[k])@),
        decreases a@.len() - i,
    {
        if !has_text(b, a[i].as_str()) {
            assert(lists_text(a@, a@[i as int]@));
            return false;
        }
        i += 1;
    }
    assert forall|t: Seq<char>| #[trigger] lists_text(a@, t) implies lists_text(b@, t) by {
        let k = choose|k: int| 0 <= k < a@.len() && (#[trigger] a@[k])@ == t;
        assert(lists_text(b@, a@[k]@));
    }
    true
}

/// Whether a pinned application runs, and whether its window has the focus.
#[derive(Clone, Copy, Debug, PartialEq, Eq, Structural)]
pub struct DockFlags {
    pub running: bool,
    pub focused: bool,
}

/// A running application that is not pinned.
#[derive(Debug)]
pub struct DockExtra {
    pub app_id: String,
    pub focused: bool,
}

/// What the dock shows: the state of the pinned entries, and after them the other
/// running applications.
#[derive(Debug)]
pub struct DockUpdate {
    pub pinned: Vec<DockFlags>,
    pub extras: Vec<DockExtra>,
}

/// Whether the focused application is the given one.
pub open spec fn has_focus(focused: Option<Seq<char>>, app_id: Seq<char>) -> bool {
    focused matches Some(f) && same_app(f, app_id)
}

fn app_focused(focused: &Option<String>, app_id: &str) -> (r: bool)
    ensures
        r == has_focus(crate::theme::text_view(*focused), app_id@),
{
    match focused {
        Some(f) => matches_pinned(f.as_str(), app_id),
        None => false,
    }
}

fn same_option(a: &Option<String>, b: &Option<String>) -> (r: bool)
    ensures
        r == (crate::theme::text_view(*a) == crate::theme::text_view(*b)),
{
    match (a, b) {
        (Some(s), Some(t)) => same_text(s.as_str(), t.as_str()),
        (None, None) => true,
        _ => false,
    }
}

/// The flags of a pinned entry.
pub open spec fn entry_flags(e: &ResolvedDockEntry, running: Seq<String>, focused: Option<Seq<char>>) -> DockFlags {
    DockFlags { running: runs(running, e.item.app_id@), focused: has_focus(focused, e.item.app_id@) }
}

/// The ids of the first `n` running applications that are not pinned.
pub open spec fn unpinned(running: Seq<String>, entries: Seq<ResolvedDockEntry>, n: int) -> Seq<Seq<char>>
    decreases n,
{
    if n <= 0 {
        Seq::empty()
    } else {
        let rest = unpinned(running, entries, n - 1);
        if is_pinned(entries, running[n - 1]@) {
            rest
        } else {
            rest.push(running[n - 1]@)
        }
    }
}

/// Brings the dock up to date with the applications that have a window and with the one
/// that has the focus. Where both are the same as last time nothing is done.
pub fn update_dock_running(
    entries: &Vec<ResolvedDockEntry>,
    last_running: &mut Vec<String>,
    last_focused: &mut Option<String>,
    app_ids: &Vec<String>,
    focused: &Option<String>,
) -> (r: Option<DockUpdate>)
    ensures
        crate::theme::text_view(*final(last_focused)) == crate::theme::text_view(*focused),
        ({
            let unchanged = (forall|t: Seq<char>| #[trigger]
                lists_text(old(last_running)@, t) <==> lists_text(app_ids@, t) && t.len() > 0)
                && crate::theme::text_view(*old(last_focused)) == crate::theme::text_view(*focused);
            &&& unchanged ==> r is None && final(last_running)@ == old(last_running)@
            &&& !unchanged ==> r is Some && texts_sorted(final(last_running)@) && (forall|t: Seq<char>| #[trigger]
                lists_text(final(last_running)@, t) <==> lists_text(app_ids@, t) && t.len() > 0)
            &&& r matches Some(u) ==> {
                let running = final(last_running)@;
                &&& u.pinned@.len() == entries@.len()
                &&& forall|i: int|
                    0 <= i < entries@.len() ==> #[trigger] u.pinned@[i] == entry_flags(
                        &entries@[i],
                        running,
                        crate::theme::text_view(*focused),
                    )
                &&& u.extras@.len() == unpinned(running, entries@, running.len() as int).len()
                &&& forall|i: int|
                    0 <= i < u.extras@.len() ==> (#[trigger] u.extras@[i]).app_id@ == unpinned(
                        running,
                        entries@,
                        running.len() as int,
                    )[i] && u.extras@[i].focused == has_focus(
                        crate::theme::text_view(*focused),
                        u.extras@[i].app_id@,
                    )
            }
        }),
{
    let running = running_apps(app_ids);
    let same_focus = same_option(last_focused, focused);
    if same_focus && all_in(&running, last_running) && all_in(last_running, &running) {
        assert forall|t: Seq<char>| #[trigger]
            lists_text(last_running@, t) <==> lists_text(app_ids@, t) && t.len() > 0 by {
            assert(lists_text(running@, t) <==> lists_text(last_running@, t));
        }
        return None;
    }
    assert(!same_focus || !(forall|t: Seq<char>| #[trigger]
        lists_text(old(last_running)@, t) <==> lists_text(app_ids@, t) && t.len() > 0)) by {
        if forall|t: Seq<char>| #[trigger]
            lists_text(old(last_running)@, t) <==> lists_text(app_ids@, t) && t.len() > 0 {
            assert forall|t: Seq<char>| #[trigger] lists_text(running@, t) implies lists_text(last_running@, t) by {}
            assert forall|t: Seq<char>| #[trigger] lists_text(last_running@, t) implies lists_text(running@, t) by {}
        }
    }
    let ghost now = running@;
    let mut flags: Vec<DockFlags> = Vec::new();
    let mut i: usize = 0;
    while i < entries.len()
        invariant
            0 <= i <= entries@.len(),
            running@ == now,
            flags@.len() == i,
            forall|k: int|
                0 <= k < i ==> #[trigger] flags@[k] == entry_flags(
                    &entries@[k],
                    now,
                    crate::theme::text_view(*focused),
                ),
        decreases entries@.len() - i,
    {
        let app_id = entries[i].item.app_id.as_str();
        flags.push(DockFlags { running: is_running(&running, app_id), focused: app_focused(focused, app_id) });
        i += 1;
    }
    let mut extras: Vec<DockExtra> = Vec::new();
    let mut j: usize = 0;
    while j < running.len()
        invariant
            0 <= j <= running@.len(),
            running@ == now,
            extras@.len() == unpinned(now, entries@, j as int).len(),
            forall|k: int|
                0 <= k < extras@.len() ==> (#[trigger] extras@[k]).app_id@ == unpinned(now, entries@, j as int)[k]
                    && extras@[k].focused == has_focus(crate::theme::text_view(*focused), extras@[k].app_id@),
        decreases running@.len() - j,
    {
        if !pinned(entries, running[j].as_str()) {
            let f = app_focused(focused, running[j].as_str());
            extras.push(DockExtra { app_id: running[j].clone(), focused: f });
        }
        j += 1;
    }
    *last_running = running;
    *last_focused = match focused {
        Some(f) => Some(f.clone()),
        None => None,
    };
    Some(DockUpdate { pinned: flags, extras })
}

/// The applications that the dock shows without a configuration.
pub open spec fn fallback_apps() -> Seq<Seq<char>> {
    seq!["org.gnome.Nautilus"@, "org.mozilla.firefox"@, "kitty"@, "code"@]
}

/// The applications to pin: the configured ones, or a default selection.
pub fn dock_app_ids(configured: Vec<String>) -> (r: Vec<String>)
    ensures
        texts(r@) == if configured@.len() == 0 {
            fallback_apps()
        } else {
            texts(configured@)
        },
{
    if configured.len() > 0 {
        return configured;
    }
    let mut out: Vec<String> = Vec::new();
    out.push("org.gnome.Nautilus".to_owned());
    out.push("org.mozilla.firefox".to_owned());
    out.push("kitty".to_owned());
    out.push("code".to_owned());
    assert(texts(out@) =~= fallback_apps());
    out
}

/// The dock entry of a pinned application, with its name and command.
pub fn pinned_entry(app_id: String, name: String, command: String) -> (r: ResolvedDockEntry)
    ensures
        r.item.app_id@ == app_id@,
        r.item.name@ == name@,
        r.command@ == command@,
        r.item.pinned && !r.item.running && !r.item.focused,
{
    ResolvedDockEntry { item: DockItem { app_id, name, running: false, focused: false, pinned: true }, command }
}

/// The command of the last entry with an application id, from the `i`-th on.
pub open spec fn exec_from(entries: Seq<ResolvedDockEntry>, app_id: Seq<char>, i: int) -> Option<Seq<char>>
    decreases entries.len() - i,
{
    if i < 0 || i >= entries.len() {
        None
    } else if entries[i].item.app_id@ == app_id && exec_from(entries, app_id, i + 1) is None {
        Some(entries[i].command@)
    } else {
        exec_from(entries, app_id, i + 1)
    }
}

/// The command that starts an application: that of the last entry with its id.
pub fn exec_for(entries: &Vec<ResolvedDockEntry>, app_id: &str) -> (r: Option<String>)
    ensures
        crate::theme::text_view(r) == exec_from(entries@, app_id@, 0),
{
    let mut i: usize = entries.len();
    let mut found: Option<String> = None;
    while i > 0
        invariant
            0 <= i <= entries@.len(),
            crate::theme::text_view(found) == exec_from(entries@, app_id@, i as int),
        decreases i,
    {
        i = i - 1;
        if found.is_none() && same_text(entries[i].item.app_id.as_str(), app_id) {
            found = Some(entries[i].command.clone());
        }
    }
    found
}

/// Whether a character is white space by the Unicode property of that name.
pub open spec fn is_white_space(c: char) -> bool {
    let n = c as u32;
    ||| 0x9 <= n <= 0xd
    ||| n == 0x20
    ||| n == 0x85
    ||| n == 0xa0
    ||| n == 0x1680
    ||| 0x2000 <= n <= 0x200a
    ||| n == 0x2028
    ||| n == 0x2029
    ||| n == 0x202f
    ||| n == 0x205f
    ||| n == 0x3000
}

/// A text without the white space at its start.
pub open spec fn start_trimmed(text: Seq<char>) -> Seq<char>
    decreases text.len(),
{
    if text.len() > 0 && is_white_space(text[0]) {
        start_trimmed(text.skip(1))
    } else {
        text
    }
}

/// A text without the white space at its end.
pub open spec fn end_trimmed(text: Seq<char>) -> Seq<char>
    decreases text.len(),
{
    if text.len() > 0 && is_white_space(text.last()) {
        end_trimmed(text.drop_last())
    } else {
        text
    }
}

/// A text without the white space at its ends.
pub open spec fn trimmed(text: Seq<char>) -> Seq<char> {
    end_trimmed(start_trimmed(text))
}

/// Calls `str::trim`, which leaves out leading and trailing characters with the Unicode
/// property White_Space.
#[verifier::external_body]
fn trim_text(text: &str) -> (r: String)
    ensures
        r@ == trimmed(text@),
{
    text.trim().to_owned()
}

/// What `str::to_lowercase` makes of a text.
pub uninterp spec fn lowercase(text: Seq<char>) -> Seq<char>;

/// A text in small letters, as `str::to_lowercase` returns it. The letter tables are
/// not stated.
#[verifier::external_body]
fn lowercase_text(text: &str) -> (r: String)
    ensures
        r@ == lowercase(text@),
{
    text.to_lowercase()
}

/// The id and the name of a pinned application in small letters.
#[derive(Debug)]
pub struct SearchKey {
    pub app_id: String,
    pub name: String,
}

/// Whether a search text is part of a pinned application's id or name.
pub open spec fn key_matches(key: &SearchKey, query: Seq<char>) -> bool {
    occurs(key.app_id@, query) || occurs(key.name@, query)
}

/// The first key, from the `i`-th on, that a search text matches.
pub open spec fn match_from(keys: Seq<SearchKey>, query: Seq<char>, i: int) -> Option<int>
    decreases keys.len() - i,
{
    if i < 0 || i >= keys.len() {
        None
    } else if key_matches(&keys[i], query) {
        Some(i)
    } else {
        match_from(keys, query, i + 1)
    }
}

/// The first pinned application whose id or name holds the search text.
pub fn find_app(keys: &Vec<SearchKey>, query: &str) -> (r: Option<usize>)
    ensures
        match r {
            Some(i) => match_from(keys@, query@, 0) == Some(i as int) && i < keys@.len(),
            None => match_from(keys@, query@, 0) is None,
        },
{
    let mut i: usize = 0;
    while i < keys.len()
        invariant
            0 <= i <= keys@.len(),
            match_from(keys@, query@, 0) == match_from(keys@, query@, i as int),
        decreases keys@.len() - i,
    {
        if contains_text(keys[i].app_id.as_str(), query) || contains_text(keys[i].name.as_str(), query) {
            return Some(i);
        }
        i += 1;
    }
    None
}

/// Whether a pinned application matches a search, small letters compared.
pub open spec fn entry_matches(e: &ResolvedDockEntry, query: Seq<char>) -> bool {
    occurs(lowercase(e.item.app_id@), query) || occurs(lowercase(e.item.name@), query)
}

/// The first entry, from the `i`-th on, that matches a search.
pub open spec fn entry_match_from(entries: Seq<ResolvedDockEntry>, query: Seq<char>, i: int) -> Option<int>
    decreases entries.len() - i,
{
    if i < 0 || i >= entries.len() {
        None
    } else if entry_matches(&entries[i], query) {
        Some(i)
    } else {
        entry_match_from(entries, query, i + 1)
    }
}

/// The command that the launcher runs for what was typed: that of the first pinned
/// application that matches, or else the text itself. An empty text runs nothing.
pub open spec fn launch_of(entries: Seq<ResolvedDockEntry>, typed: Seq<char>) -> Option<Seq<char>> {
    let query = trimmed(typed);
    if query.len() == 0 {
        None
    } else {
        match entry_match_from(entries, lowercase(query), 0) {
            Some(i) => Some(entries[i].command@),
            None => Some(query),
        }
    }
}

proof fn lemma_same_match(entries: Seq<ResolvedDockEntry>, keys: Seq<SearchKey>, query: Seq<char>, i: int)
    requires
        0 <= i <= entries.len(),
        keys.len() == entries.len(),
        forall|k: int|
            0 <= k < keys.len() ==> (#[trigger] keys[k]).app_id@ == lowercase(entries[k].item.app_id@)
                && keys[k].name@ == lowercase(entries[k].item.name@),
    ensures
        match_from(keys, query, i) == entry_match_from(entries, query, i),
    decreases entries.len() - i,
{
    if i < entries.len() {
        lemma_same_match(entries, keys, query, i + 1);
    }
}

/// The command that the launcher runs for what was typed.
pub fn launcher_submit(entries: &Vec<ResolvedDockEntry>, typed: &str) -> (r: Option<String>)
    ensures
        crate::theme::text_view(r) == launch_of(entries@, typed@),
{
    let query = trim_text(typed);
    if query.as_str().unicode_len() == 0 {
        return None;
    }
    let small = lowercase_text(query.as_str());
    let mut keys: Vec<SearchKey> = Vec::new();
    let mut i: usize = 0;
    while i < entries.len()
        invariant
            0 <= i <= entries@.len(),
            keys@.len() == i,
            forall|k: int|
                0 <= k < i ==> (#[trigger] keys@[k]).app_id@ == lowercase(entries@[k].item.app_id@) && keys@[k].name@
                    == lowercase(entries@[k].item.name@),
        decreases entries@.len() - i,
    {
        keys.push(
            SearchKey {
                app_id: lowercase_text(entries[i].item.app_id.as_str()),
                name: lowercase_text(entries[i].item.name.as_str()),
            },
        );
        i += 1;
    }
    proof {
        lemma_same_match(entries@, keys@, small@, 0);
    }
    match find_app(&keys, small.as_str()) {
        Some(k) => Some(entries[k].command.clone()),
        None => Some(query),
    }
}

/// An application that runs is shown in the dock once: among the pinned entries, or
/// after them.
pub proof fn law_running_app_is_shown(entries: Seq<ResolvedDockEntry>, running: Seq<String>, i: int)
    requires
        0 <= i < running.len(),
    ensures
        is_pinned(entries, running[i]@) <==> !unpinned(running, entries, running.len() as int).contains(running[i]@),
{
    lemma_unpinned_holds(entries, running, running.len() as int, running[i]@);
    assert(exists|k: int| 0 <= k < running.len() && running[k]@ == running[i]@);
}

proof fn lemma_unpinned_holds(entries: Seq<ResolvedDockEntry>, running: Seq<String>, n: int, t: Seq<char>)
    requires
        0 <= n <= running.len(),
    ensures
        unpinned(running, entries, n).contains(t) <==> !is_pinned(entries, t) && exists|k: int|
            0 <= k < n && (#[trigger] running[k])@ == t,
    decreases n,
{
    if n > 0 {
        lemma_unpinned_holds(entries, running, n - 1, t);
        let rest = unpinned(running, entries, n - 1);
        if !is_pinned(entries, running[n - 1]@) {
            let grown = rest.push(running[n - 1]@);
            if rest.contains(t) {
                let k = choose|k: int| 0 <= k < rest.len() && rest[k] == t;
                assert(grown[k] == t);
            }
            if running[n - 1]@ == t {
                assert(grown[grown.len() - 1] == t);
            }
            if grown.contains(t) {
                let k = choose|k: int| 0 <= k < grown.len() && grown[k] == t;
                if k < rest.len() {
                    assert(rest[k] == t);
                }
            }
        }
    }
}

/// The row of an application's dock menu that opens a new window.
pub const DOCK_OPEN: i32 = 1;

/// How choosing a row of the dock menu changes the shell, and what is started by it.
pub open spec fn dock_menu_chosen(
    was: ShellView,
    now: ShellView,
    entries: Seq<ResolvedDockEntry>,
    app_id: Seq<char>,
    action: i32,
    launch: Option<Seq<char>>,
) -> bool {
    &&& launch == if action == DOCK_OPEN {
        exec_from(entries, app_id, 0)
    } else {
        None
    }
    &&& action == DOCK_OPEN ==> now == was
    &&& action != DOCK_OPEN ==> {
        let queued = now.pending_dock_action.last();
        &&& queued.app_id@ == app_id
        &&& queued.action == action
        &&& now == (ShellView { pending_dock_action: was.pending_dock_action.push(queued), ..was })
    }
}

impl Shell {
    /// Carries out a row of an application's dock menu. A new window is opened by
    /// starting the command that is returned; anything else waits for the next
    /// frame, when the windows of the application are looked up.
    pub fn dock_menu_clicked(
        &mut self,
        entries: &Vec<ResolvedDockEntry>,
        app_id: &str,
        action: i32,
    ) -> (launch: Option<String>)
        requires
            old(self).wf(),
        ensures
            final(self).wf(),
            dock_menu_chosen(
                old(self)@,
                final(self)@,
                entries@,
                app_id@,
                action,
                crate::theme::text_view(launch),
            ),
    {
        if action == DOCK_OPEN {
            return exec_for(entries, app_id);
        }
        self.pending_dock_action.push(DockAction { app_id: app_id.to_owned(), action });
        None
    }
}

/// The pill of the dock is centred and 64 wide for each item with 8 at either end; it
/// keeps 8 from the edge of the output and from the top of the dock. Across, points are
/// given at twice their distance.
pub proof fn law_pill_is_centred(x2: Coord, y: Coord, slots: int, output_w: i32, output_h: i32, dock_h: i32)
    ensures
        in_pill(x2, y, slots, output_w, output_h, dock_h) <==> output_w - (64 * slots + 16) <= x2.floor < output_w + (64
            * slots + 16) && output_h - dock_h + 8 <= y.floor < output_h - 8,
{
}

/// An application is itself, by its full name or by the last part of it, whichever of
/// the two is named first. Names without a dot are the same only if they are equal.
pub proof fn law_same_application(a: Seq<char>, b: Seq<char>, prefix: Seq<char>)
    ensures
        same_app(a, a),
        same_app(a, b) == same_app(b, a),
        (forall|i: int| 0 <= i < a.len() ==> #[trigger] a[i] != '.') ==> same_app(prefix + seq!['.'] + a, a),
        (forall|i: int| 0 <= i < a.len() ==> #[trigger] a[i] != '.') && (forall|i: int|
            0 <= i < b.len() ==> #[trigger] b[i] != '.') ==> (same_app(a, b) <==> a == b),
{
    if forall|i: int| 0 <= i < a.len() ==> #[trigger] a[i] != '.' {
        crate::text::law_text_after_separator(prefix, '.', a);
        if forall|i: int| 0 <= i < b.len() ==> #[trigger] b[i] != '.' {
            crate::text::law_text_after_separator(prefix, '.', b);
        }
    }
}

/// A pinned item is marked running exactly while one of the running applications is
/// its own, and focused exactly while the focused one is.
pub proof fn law_item_is_marked(e: &ResolvedDockEntry, running: Seq<String>, focused: Option<Seq<char>>)
    ensures
        entry_flags(e, running, focused).running <==> exists|i: int|
            0 <= i < running.len() && same_app((#[trigger] running[i])@, e.item.app_id@),
        entry_flags(e, running, focused).focused <==> focused is Some && same_app(focused->0, e.item.app_id@),
{
}

/// Running applications that are not pinned follow in their order.
pub proof fn law_extras_keep_order(running: Seq<String>, entries: Seq<ResolvedDockEntry>, n: int)
    requires
        0 <= n <= running.len(),
    ensures
        unpinned(running, entries, n) == texts(running).take(n).filter(|t: Seq<char>| !is_pinned(entries, t)),
    decreases n,
{
    reveal(Seq::filter);
    if n > 0 {
        law_extras_keep_order(running, entries, n - 1);
        let front = texts(running).take(n);
        assert(front.drop_last() =~= texts(running).take(n - 1));
        assert(front.last() == running[n - 1]@);
    }
}

/// An application is started by the command of the last entry for it, and cannot be
/// started without one.
pub proof fn law_command_of_application(entries: Seq<ResolvedDockEntry>, app_id: Seq<char>, i: int, k: int)
    requires
        0 <= i <= entries.len(),
    ensures
        i <= k < entries.len() && entries[k].item.app_id@ == app_id && (forall|j: int|
            k < j < entries.len() ==> (#[trigger] entries[j]).item.app_id@ != app_id) ==> exec_from(entries, app_id, i)
            == Some(entries[k].command@),
        (forall|j: int| i <= j < entries.len() ==> (#[trigger] entries[j]).item.app_id@ != app_id) ==> exec_from(
            entries,
            app_id,
            i,
        ) is None,
    decreases entries.len() - i,
{
    if i < entries.len() {
        law_command_of_application(entries, app_id, i + 1, k);
    }
}

proof fn lemma_start_trimmed(a: Seq<char>, t: Seq<char>)
    requires
        forall|i: int| 0 <= i < a.len() ==> is_white_space(#[trigger] a[i]),
        t.len() > 0 ==> !is_white_space(t[0]),
    ensures
        start_trimmed(a + t) == t,
    decreases a.len(),
{
    if a.len() > 0 {
        assert(is_white_space(a[0]));
        assert((a + t).skip(1) =~= a.skip(1) + t);
        lemma_start_trimmed(a.skip(1), t);
    } else {
        assert(a + t =~= t);
    }
}

proof fn lemma_end_trimmed(t: Seq<char>, b: Seq<char>)
    requires
        forall|i: int| 0 <= i < b.len() ==> is_white_space(#[trigger] b[i]),
        t.len() > 0 ==> !is_white_space(t.last()),
    ensures
        end_trimmed(t + b) == t,
    decreases b.len(),
{
    if b.len() > 0 {
        assert(is_white_space(b[b.len() - 1]));
        assert((t + b).drop_last() =~= t + b.drop_last());
        lemma_end_trimmed(t, b.drop_last());
    } else {
        assert(t + b =~= t);
    }
}

/// What is typed counts without the white space around it.
pub proof fn law_white_space_around_is_cut(a: Seq<char>, t: Seq<char>, b: Seq<char>)
    requires
        forall|i: int| 0 <= i < a.len() ==> is_white_space(#[trigger] a[i]),
        forall|i: int| 0 <= i < b.len() ==> is_white_space(#[trigger] b[i]),
        t.len() > 0 ==> !is_white_space(t[0]) && !is_white_space(t.last()),
        t.len() == 0 ==> b.len() == 0,
    ensures
        trimmed(a + t + b) == t,
{
    assert(a + t + b =~= a + (t + b));
    if t.len() == 0 {
        assert(t + b =~= t);
    } else {
        assert((t + b)[0] == t[0]);
    }
    lemma_start_trimmed(a, t + b);
    lemma_end_trimmed(t, b);
}

proof fn lemma_entry_match(entries: Seq<ResolvedDockEntry>, query: Seq<char>, i: int)
    requires
        0 <= i <= entries.len(),
    ensures
        match entry_match_from(entries, query, i) {
            Some(k) => i <= k < entries.len() && entry_matches(&entries[k], query) && forall|j: int|
                i <= j < k ==> !entry_matches(&#[trigger] entries[j], query),
            None => forall|j: int| i <= j < entries.len() ==> !entry_matches(&#[trigger] entries[j], query),
        },
    decreases entries.len() - i,
{
    if i < entries.len() {
        lemma_entry_match(entries, query, i + 1);
    }
}

/// The launcher starts the first pinned application that matches, and otherwise runs
/// what was typed. White space alone starts nothing.
pub proof fn law_launcher_starts(entries: Seq<ResolvedDockEntry>, typed: Seq<char>, k: int)
    ensures
        trimmed(typed).len() == 0 <==> launch_of(entries, typed) is None,
        trimmed(typed).len() > 0 && 0 <= k < entries.len() && entry_matches(&entries[k], lowercase(trimmed(typed))) && (
        forall|j: int| 0 <= j < k ==> !entry_matches(&#[trigger] entries[j], lowercase(trimmed(typed)))) ==> launch_of(
            entries,
            typed,
        ) == Some(entries[k].command@),
        trimmed(typed).len() > 0 && (forall|j: int|
            0 <= j < entries.len() ==> !entry_matches(&#[trigger] entries[j], lowercase(trimmed(typed)))) ==> launch_of(
            entries,
            typed,
        ) == Some(trimmed(typed)),
{
    lemma_entry_match(entries, lowercase(trimmed(typed)), 0);
}

/// An application is found by a part of its identifier or of its name; the first that
/// has it is the one.
pub proof fn law_search_finds_first(keys: Seq<SearchKey>, query: Seq<char>, i: int, k: int)
    requires
        0 <= i <= keys.len(),
    ensures
        i <= k < keys.len() && (occurs(keys[k].app_id@, query) || occurs(keys[k].name@, query)) && (forall|j: int|
            i <= j < k ==> !occurs((#[trigger] keys[j]).app_id@, query) && !occurs(keys[j].name@, query)) ==> match_from(
            keys,
            query,
            i,
        ) == Some(k),
        (forall|j: int|
            i <= j < keys.len() ==> !occurs((#[trigger] keys[j]).app_id@, query) && !occurs(keys[j].name@, query))
            ==> match_from(keys, query, i) is None,
    decreases keys.len() - i,
{
    if i < keys.len() {
        law_search_finds_first(keys, query, i + 1, k);
    }
}

/// Row 1 of the dock menu starts the application; every other row waits to be acted
/// upon, behind those chosen before.
pub proof fn law_dock_row_starts_or_waits(
    was: ShellView,
    now: ShellView,
    entries: Seq<ResolvedDockEntry>,
    app_id: Seq<char>,
    action: i32,
    launch: Option<Seq<char>>,
    k: int,
)
    requires
        dock_menu_chosen(was, now, entries, app_id, action, launch),
    ensures
        action == 1 ==> now == was,
        action == 1 && 0 <= k < entries.len() && entries[k].item.app_id@ == app_id && (forall|j: int|
            k < j < entries.len() ==> (#[trigger] entries[j]).item.app_id@ != app_id) ==> launch == Some(
            entries[k].command@,
        ),
        action != 1 ==> {
            &&& launch is None
            &&& now.pending_dock_action.len() == was.pending_dock_action.len() + 1
            &&& now.pending_dock_action.drop_last() == was.pending_dock_action
            &&& now.pending_dock_action.last().app_id@ == app_id
            &&& now.pending_dock_action.last().action == action
            &&& now.windows == was.windows
        },
{
    law_command_of_application(entries, app_id, 0, k);
    if action != 1 {
        assert(now.pending_dock_action.drop_last() =~= was.pending_dock_action);
    }
}

} // verus!
