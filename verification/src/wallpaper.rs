//! Finding a wallpaper: the candidate files in the order they are tried.
//!
//! Search order, relative to the home directory where not absolute:
//!   1. `Documents/wallpaper_light.{jpg,jpeg,png}`
//!   2. `Documents/wallpaper_dark.{jpg,jpeg,png}`
//!   3. `Documents/wallpaper.{jpg,jpeg,png}`
//!   4. `Pictures/wallpaper.{jpg,jpeg,png}`
//!   5. `.config/myDE/wallpaper.{jpg,jpeg,png}`
//!   6. the distribution's backgrounds under `/usr/share/backgrounds`

use vstd::prelude::*;

use crate::text::{chars_of, has_part, lower_chars, lower_text, occurs, same_text};
use crate::theme::ThemeMode;

verus! {

/// A path below a directory.
pub open spec fn joined(dir: Seq<char>, rel: Seq<char>) -> Seq<char> {
    if dir.len() == 0 {
        rel
    } else if dir.last() == '/' {
        dir + rel
    } else {
        dir + seq!['/'] + rel
    }
}

fn join(dir: &str, rel: &str) -> (r: String)
    ensures
        r@ == joined(dir@, rel@),
{
    let n: usize = dir.unicode_len();
    if n == 0 {
        return rel.to_owned();
    }
    proof {
        reveal_strlit("/");
    }
    let base = dir.to_owned();
    if dir.get_char(n - 1) == '/' {
        base.concat(rel)
    } else {
        assert("/"@ =~= seq!['/']);
        base.concat("/").concat(rel)
    }
}

/// The three image files with this stem, in the order they are tried.
pub open spec fn with_extensions(dir: Seq<char>, stem: Seq<char>) -> Seq<Seq<char>> {
    seq![
        joined(dir, stem + ".jpg"@),
        joined(dir, stem + ".jpeg"@),
        joined(dir, stem + ".png"@),
    ]
}

/// Every candidate, in the order they are tried.
pub open spec fn candidates(home: Seq<char>) -> Seq<Seq<char>> {
    with_extensions(home, "Documents/wallpaper_light"@) + with_extensions(home, "Documents/wallpaper_dark"@)
        + with_extensions(home, "Documents/wallpaper"@) + with_extensions(home, "Pictures/wallpaper"@)
        + with_extensions(home, ".config/myDE/wallpaper"@) + seq![
        "/usr/share/backgrounds/default.jpg"@,
        "/usr/share/backgrounds/default.png"@,
        "/usr/share/backgrounds/gnome/symbolic-d.png"@,
        "/usr/share/backgrounds/cosmic/A_stormy_stellar_nursery_esa_379309.jpg"@,
    ]
}

/// The candidates for a theme mode: its own file first, then all others.
pub open spec fn mode_candidates(home: Seq<char>, tag: Seq<char>) -> Seq<Seq<char>> {
    with_extensions(home, "Documents/wallpaper_"@ + tag) + candidates(home)
}

/// The texts of a list.
pub open spec fn texts(list: Seq<String>) -> Seq<Seq<char>> {
    list.map_values(|s: String| s@)
}

/// The first of the paths from index `from` on that is among `present`.
pub open spec fn first_present(paths: Seq<Seq<char>>, present: Seq<Seq<char>>, from: int) -> Option<Seq<char>>
    decreases paths.len() - from,
{
    if from < 0 || from >= paths.len() {
        None
    } else if present.contains(paths[from]) {
        Some(paths[from])
    } else {
        first_present(paths, present, from + 1)
    }
}

fn push_extensions(out: &mut Vec<String>, dir: &str, stem: &str)
    ensures
        texts(final(out)@) == texts(old(out)@) + with_extensions(dir@, stem@),
{
    let jpg = stem.to_owned().concat(".jpg");
    let jpeg = stem.to_owned().concat(".jpeg");
    let png = stem.to_owned().concat(".png");
    out.push(join(dir, jpg.as_str()));
    out.push(join(dir, jpeg.as_str()));
    out.push(join(dir, png.as_str()));
    assert(texts(out@) =~= texts(old(out)@) + with_extensions(dir@, stem@));
}

fn push_text(out: &mut Vec<String>, s: &str)
    ensures
        texts(final(out)@) == texts(old(out)@).push(s@),
{
    out.push(s.to_owned());
    assert(texts(out@) =~= texts(old(out)@).push(s@));
}

/// Every wallpaper candidate, in the order they are tried.
pub fn wallpaper_candidates(home: &str) -> (r: Vec<String>)
    ensures
        texts(r@) == candidates(home@),
{
    let mut out: Vec<String> = Vec::new();
    assert(texts(out@) =~= Seq::empty());
    push_extensions(&mut out, home, "Documents/wallpaper_light");
    push_extensions(&mut out, home, "Documents/wallpaper_dark");
    push_extensions(&mut out, home, "Documents/wallpaper");
    push_extensions(&mut out, home, "Pictures/wallpaper");
    push_extensions(&mut out, home, ".config/myDE/wallpaper");
    push_text(&mut out, "/usr/share/backgrounds/default.jpg");
    push_text(&mut out, "/usr/share/backgrounds/default.png");
    push_text(&mut out, "/usr/share/backgrounds/gnome/symbolic-d.png");
    push_text(&mut out, "/usr/share/backgrounds/cosmic/A_stormy_stellar_nursery_esa_379309.jpg");
    assert(texts(out@) =~= candidates(home@));
    out
}

/// The candidates for a mode tag (`"light"` or `"dark"`).
pub fn wallpaper_candidates_for_mode(home: &str, tag: &str) -> (r: Vec<String>)
    ensures
        texts(r@) == mode_candidates(home@, tag@),
{
    let mut out: Vec<String> = Vec::new();
    assert(texts(out@) =~= Seq::empty());
    let stem = "Documents/wallpaper_".to_owned().concat(tag);
    push_extensions(&mut out, home, stem.as_str());
    let mut rest = wallpaper_candidates(home);
    let ghost first = out@;
    let ghost others = rest@;
    out.append(&mut rest);
    assert(texts(out@) =~= texts(first) + texts(others));
    assert(texts(out@) =~= mode_candidates(home@, tag@));
    out
}

fn has_text(list: &Vec<String>, s: &str) -> (r: bool)
    ensures
        r == texts(list@).contains(s@),
{
    let mut i: usize = 0;
    while i < list.len()
        invariant
            0 <= i <= list@.len(),
            forall|k: int| 0 <= k < i ==> texts(list@)[k] != s@,
        decreases list@.len() - i,
    {
        if same_text(list[i].as_str(), s) {
            assert(texts(list@)[i as int] == s@);
            return true;
        }
        i += 1;
    }
    false
}

fn pick(paths: Vec<String>, present: &Vec<String>) -> (r: Option<String>)
    ensures
        match first_present(texts(paths@), texts(present@), 0) {
            Some(p) => r is Some && r->0@ == p,
            None => r is None,
        },
{
    let mut i: usize = 0;
    while i < paths.len()
        invariant
            0 <= i <= paths@.len(),
            first_present(texts(paths@), texts(present@), 0) == first_present(
                texts(paths@),
                texts(present@),
                i as int,
            ),
        decreases paths@.len() - i,
    {
        if has_text(present, paths[i].as_str()) {
            return Some(paths[i].clone());
        }
        i += 1;
    }
    None
}

/// The first wallpaper candidate that is among the files that exist.
pub fn find_wallpaper_path(home: &str, present: &Vec<String>) -> (r: Option<String>)
    ensures
        match first_present(candidates(home@), texts(present@), 0) {
            Some(p) => r is Some && r->0@ == p,
            None => r is None,
        },
{
    pick(wallpaper_candidates(home), present)
}

/// The wallpaper for a mode tag: its own file if that exists, else the first of
/// the others that does.
pub fn find_wallpaper_for_mode(home: &str, tag: &str, present: &Vec<String>) -> (r: Option<String>)
    ensures
        match first_present(mode_candidates(home@, tag@), texts(present@), 0) {
            Some(p) => r is Some && r->0@ == p,
            None => r is None,
        },
{
    pick(wallpaper_candidates_for_mode(home, tag), present)
}

/// The tag of a mode in file names.
pub open spec fn mode_tag(mode: ThemeMode) -> Seq<char> {
    match mode {
        ThemeMode::Light => "light"@,
        ThemeMode::Dark => "dark"@,
    }
}

/// The wallpaper to change to when the theme has changed: none if it is shown already.
pub open spec fn wallpaper_swap(
    home: Seq<char>,
    mode: ThemeMode,
    present: Seq<Seq<char>>,
    shown: Option<Seq<char>>,
) -> Option<Seq<char>> {
    match first_present(mode_candidates(home, mode_tag(mode)), present, 0) {
        Some(p) => if shown == Some(p) {
            None
        } else {
            Some(p)
        },
        None => None,
    }
}

/// The wallpaper to change to when the theme is in `mode` and `shown` is on the screen.
/// Nothing changes where the wallpaper of the mode is shown already.
pub fn swap_wallpaper_for_current_mode(
    home: &str,
    mode: ThemeMode,
    present: &Vec<String>,
    shown: Option<&str>,
) -> (r: Option<String>)
    ensures
        crate::theme::text_view(r) == wallpaper_swap(
            home@,
            mode,
            texts(present@),
            match shown {
                Some(s) => Some(s@),
                None => None,
            },
        ),
{
    let tag = match mode {
        ThemeMode::Light => "light",
        ThemeMode::Dark => "dark",
    };
    match find_wallpaper_for_mode(home, tag, present) {
        Some(p) => match shown {
            Some(s) => if same_text(s, p.as_str()) {
                None
            } else {
                Some(p)
            },
            None => Some(p),
        },
        None => None,
    }
}

proof fn lemma_present_one(paths: Seq<Seq<char>>, p: Seq<char>, from: int)
    requires
        0 <= from <= paths.len(),
    ensures
        first_present(paths, seq![p], from) == if exists|i: int| from <= i < paths.len() && #[trigger] paths[i] == p {
            Some(p)
        } else {
            None
        },
    decreases paths.len() - from,
{
    if from < paths.len() {
        lemma_present_one(paths, p, from + 1);
        assert(seq![p].contains(p)) by {
            assert(seq![p][0] == p);
        }
        if paths[from] == p {
            assert(paths[from] == p);
        }
    }
}

proof fn lemma_mode_files_are_candidates(home: Seq<char>, mode: ThemeMode)
    ensures
        forall|p: Seq<char>| #[trigger] mode_candidates(home, mode_tag(mode)).contains(p) <==> candidates(home).contains(p),
{
    reveal_strlit("Documents/wallpaper_");
    reveal_strlit("Documents/wallpaper_light");
    reveal_strlit("Documents/wallpaper_dark");
    reveal_strlit("light");
    reveal_strlit("dark");
    let own = with_extensions(home, "Documents/wallpaper_"@ + mode_tag(mode));
    let all = mode_candidates(home, mode_tag(mode));
    let rest = candidates(home);
    assert("Documents/wallpaper_"@ + "light"@ =~= "Documents/wallpaper_light"@);
    assert("Documents/wallpaper_"@ + "dark"@ =~= "Documents/wallpaper_dark"@);
    let at = match mode {
        ThemeMode::Light => 0int,
        ThemeMode::Dark => 3int,
    };
    assert forall|k: int| 0 <= k < 3 implies #[trigger] own[k] == rest[at + k] by {}
    assert forall|p: Seq<char>| #[trigger] all.contains(p) <==> rest.contains(p) by {
        if all.contains(p) {
            let i = choose|i: int| 0 <= i < all.len() && all[i] == p;
            if i < 3 {
                assert(own[i] == rest[at + i]);
                assert(rest[at + i] == p);
            } else {
                assert(rest[i - 3] == p);
            }
        }
        if rest.contains(p) {
            let i = choose|i: int| 0 <= i < rest.len() && rest[i] == p;
            assert(all[i + 3] == p);
        }
    }
}

/// With only one wallpaper file, every mode has the same wallpaper.
pub proof fn law_one_wallpaper_for_all_modes(home: Seq<char>, file: Seq<char>)
    ensures
        first_present(mode_candidates(home, mode_tag(ThemeMode::Light)), seq![file], 0) == first_present(
            mode_candidates(home, mode_tag(ThemeMode::Dark)),
            seq![file],
            0,
        ),
{
    let light = mode_candidates(home, mode_tag(ThemeMode::Light));
    let dark = mode_candidates(home, mode_tag(ThemeMode::Dark));
    lemma_present_one(light, file, 0);
    lemma_present_one(dark, file, 0);
    lemma_mode_files_are_candidates(home, ThemeMode::Light);
    lemma_mode_files_are_candidates(home, ThemeMode::Dark);
    assert(light.contains(file) <==> dark.contains(file));
    if light.contains(file) {
        let i = choose|i: int| 0 <= i < light.len() && light[i] == file;
        let j = choose|j: int| 0 <= j < dark.len() && dark[j] == file;
        assert(light[i] == file && dark[j] == file);
    } else {
        assert forall|i: int| 0 <= i < light.len() implies light[i] != file by {
            assert(light.contains(light[i]));
        }
        assert forall|i: int| 0 <= i < dark.len() implies dark[i] != file by {
            assert(dark.contains(dark[i]));
        }
    }
}

/// Where the last separator of a path is.
pub open spec fn last_slash(path: Seq<char>, n: int) -> Option<int>
    decreases n,
{
    if n <= 0 {
        None
    } else if path[n - 1] == '/' {
        Some(n - 1)
    } else {
        last_slash(path, n - 1)
    }
}

/// The last component of a path; none for the root, for the current directory and
/// for a path that ends in `..`. Separators at the end count for nothing, and neither
/// does a `.` behind a separator.
pub open spec fn path_file_name(path: Seq<char>) -> Option<Seq<char>>
    decreases path.len(),
{
    match last_slash(path, path.len() as int) {
        Some(i) => {
            let part = path.skip(i + 1);
            if 0 <= i < path.len() && (part.len() == 0 || part == seq!['.']) {
                path_file_name(path.take(i))
            } else if part == seq!['.', '.'] {
                None
            } else {
                Some(part)
            }
        },
        None => if path.len() == 0 || path == seq!['.'] || path == seq!['.', '.'] {
            None
        } else {
            Some(path)
        },
    }
}

/// Calls `std::path::Path::file_name`, whose components are separated as on the
/// systems that Wayland runs on.
#[verifier::external_body]
fn file_name(path: &str) -> (r: Option<String>)
    ensures
        match path_file_name(path@) {
            Some(n) => r is Some && r->0@ == n,
            None => r is None,
        },
{
    std::path::Path::new(path).file_name().and_then(|s| s.to_str()).map(|s| s.to_string())
}

/// Whether a file name marks a light wallpaper.
pub open spec fn light_name(name: Seq<char>) -> bool {
    occurs(lower_text(name), "light"@)
}

/// Whether a file name contains `light`, in any case.
pub fn name_looks_light(name: &str) -> (r: bool)
    ensures
        r == light_name(name@),
{
    has_part(&lower_chars(name), &chars_of("light"))
}

/// Whether the file at a path is named like a light wallpaper.
pub open spec fn light_path(path: Seq<char>) -> bool {
    match path_file_name(path) {
        Some(n) => light_name(n),
        None => false,
    }
}

/// The theme to start with under a wallpaper.
pub open spec fn first_mode(path: Option<Seq<char>>, loaded: bool) -> Option<ThemeMode> {
    match path {
        Some(p) => if loaded && light_path(p) {
            Some(ThemeMode::Light)
        } else {
            None
        },
        None => None,
    }
}

/// Whether a wallpaper is a light one, by its file name. The theme then starts
/// in light mode.
pub fn looks_light(path: &str) -> (r: bool)
    ensures
        r == light_path(path@),
{
    match file_name(path) {
        Some(n) => name_looks_light(n.as_str()),
        None => false,
    }
}

/// The mode that the theme starts in for the wallpaper at `path`, where that mode is
/// not the usual one: a wallpaper that looks light and could be `loaded` asks for the
/// light mode.
pub fn starting_mode(path: Option<&str>, loaded: bool) -> (r: Option<ThemeMode>)
    ensures
        r == first_mode(
            match path {
                Some(p) => Some(p@),
                None => None,
            },
            loaded,
        ),
{
    match path {
        Some(p) => if loaded && looks_light(p) {
            Some(ThemeMode::Light)
        } else {
            None
        },
        None => None,
    }
}

/// What is found is a candidate that exists, and no earlier candidate does.
pub proof fn law_first_present_is_first(paths: Seq<Seq<char>>, present: Seq<Seq<char>>, from: int)
    requires
        0 <= from <= paths.len(),
    ensures
        match first_present(paths, present, from) {
            Some(p) => exists|i: int|
                #![trigger paths[i]]
                from <= i < paths.len() && paths[i] == p && present.contains(p) && forall|k: int|
                    from <= k < i ==> !present.contains(#[trigger] paths[k]),
            None => forall|k: int| from <= k < paths.len() ==> !present.contains(#[trigger] paths[k]),
        },
    decreases paths.len() - from,
{
    if from < paths.len() {
        if present.contains(paths[from]) {
            assert(paths[from] == first_present(paths, present, from)->0);
        } else {
            law_first_present_is_first(paths, present, from + 1);
            if let Some(p) = first_present(paths, present, from) {
                let i = choose|i: int|
                    #![trigger paths[i]]
                    from + 1 <= i < paths.len() && paths[i] == p && present.contains(p) && forall|k: int|
                        from + 1 <= k < i ==> !present.contains(#[trigger] paths[k]);
                assert(paths[i] == p);
            }
        }
    }
}

/// The wallpaper made for the theme is taken before any other, as JPEG before PNG.
pub proof fn law_wallpaper_of_theme_comes_first(home: Seq<char>, tag: Seq<char>, present: Seq<Seq<char>>)
    ensures
        ({
            let stem = "Documents/wallpaper_"@ + tag;
            let chosen = first_present(mode_candidates(home, tag), present, 0);
            let jpg = joined(home, stem + ".jpg"@);
            let jpeg = joined(home, stem + ".jpeg"@);
            let png = joined(home, stem + ".png"@);
            &&& present.contains(jpg) ==> chosen == Some(jpg)
            &&& !present.contains(jpg) && present.contains(jpeg) ==> chosen == Some(jpeg)
            &&& !present.contains(jpg) && !present.contains(jpeg) && present.contains(png) ==> chosen == Some(png)
            &&& !present.contains(jpg) && !present.contains(jpeg) && !present.contains(png) ==> chosen == first_present(
                candidates(home),
                present,
                0,
            )
        }),
{
    let all = mode_candidates(home, tag);
    let own = with_extensions(home, "Documents/wallpaper_"@ + tag);
    assert(all[0] == own[0] && all[1] == own[1] && all[2] == own[2]);
    reveal_with_fuel(first_present, 4);
    lemma_present_behind(own, candidates(home), present, 0);
}

proof fn lemma_present_behind(a: Seq<Seq<char>>, b: Seq<Seq<char>>, present: Seq<Seq<char>>, i: int)
    requires
        0 <= i <= b.len(),
    ensures
        first_present(a + b, present, a.len() + i) == first_present(b, present, i),
    decreases b.len() - i,
{
    if i < b.len() {
        assert((a + b)[a.len() + i] == b[i]);
        lemma_present_behind(a, b, present, i + 1);
    }
}

/// A file below a directory is named by both, with one slash between them.
pub proof fn law_path_is_joined(dir: Seq<char>, rel: Seq<char>)
    ensures
        dir.len() > 0 && dir.last() != '/' ==> joined(dir, rel) == dir + seq!['/'] + rel,
        joined(dir + seq!['/'], rel) == dir + seq!['/'] + rel,
        joined(Seq::<char>::empty(), rel) == rel,
{
    assert((dir + seq!['/']).last() == '/');
}

/// The wallpaper changes only to a file that is there and is not shown already; the
/// one for the theme is preferred.
pub proof fn law_wallpaper_swaps(
    home: Seq<char>,
    mode: ThemeMode,
    present: Seq<Seq<char>>,
    shown: Option<Seq<char>>,
)
    ensures
        (wallpaper_swap(home, mode, present, shown) matches Some(p) ==> present.contains(p) && shown != Some(p)),
        ({
            let light = joined(home, "Documents/wallpaper_"@ + "light"@ + ".jpg"@);
            mode == ThemeMode::Light && present.contains(light) ==> wallpaper_swap(home, mode, present, shown) == if shown
                == Some(light) {
                None
            } else {
                Some(light)
            }
        }),
        ({
            let dark = joined(home, "Documents/wallpaper_"@ + "dark"@ + ".jpg"@);
            mode == ThemeMode::Dark && present.contains(dark) ==> wallpaper_swap(home, mode, present, shown) == if shown
                == Some(dark) {
                None
            } else {
                Some(dark)
            }
        }),
        present.len() == 0 ==> wallpaper_swap(home, mode, present, shown) is None,
{
    law_wallpaper_of_theme_comes_first(home, mode_tag(mode), present);
    law_first_present_is_first(mode_candidates(home, mode_tag(mode)), present, 0);
}

proof fn lemma_last_slash(path: Seq<char>, n: int)
    requires
        0 <= n <= path.len(),
    ensures
        match last_slash(path, n) {
            Some(i) => 0 <= i < n && path[i] == '/' && forall|k: int| i < k < n ==> #[trigger] path[k] != '/',
            None => forall|k: int| 0 <= k < n ==> #[trigger] path[k] != '/',
        },
    decreases n,
{
    if n > 0 {
        lemma_last_slash(path, n - 1);
    }
}

/// The name of a file is what stands behind the last slash of its path.
pub proof fn law_file_name_ends_path(dir: Seq<char>, name: Seq<char>)
    requires
        name.len() > 0,
        forall|k: int| 0 <= k < name.len() ==> #[trigger] name[k] != '/',
        name != seq!['.'],
        name != seq!['.', '.'],
    ensures
        path_file_name(dir + seq!['/'] + name) == Some(name),
        path_file_name(name) == Some(name),
{
    let path = dir + seq!['/'] + name;
    lemma_last_slash(path, path.len() as int);
    lemma_last_slash(name, name.len() as int);
    assert(path[dir.len() as int] == '/');
    let i = last_slash(path, path.len() as int)->0;
    if i > dir.len() {
        assert(path[i] == name[i - dir.len() - 1]);
    }
    assert(path.skip(i + 1) =~= name);
}

/// A wallpaper whose name has "light" in it, however written, starts the light theme
/// once it is loaded; the directory that it lies in has no say.
pub proof fn law_light_wallpaper_starts_light(dir: Seq<char>, a: Seq<char>, word: Seq<char>, b: Seq<char>, loaded: bool)
    requires
        lower_text(word) == "light"@,
        forall|k: int| 0 <= k < (a + word + b).len() ==> #[trigger] (a + word + b)[k] != '/',
    ensures
        first_mode(Some(dir + seq!['/'] + (a + word + b)), true) == Some(ThemeMode::Light),
        first_mode(Some(dir + seq!['/'] + (a + word + b)), false) is None,
        first_mode(None, loaded) is None,
{
    reveal_strlit("light");
    let name = a + word + b;
    assert(lower_text(word).len() == 5);
    assert(name.len() >= 5);
    assert(seq!['.'].len() == 1 && seq!['.', '.'].len() == 2);
    law_file_name_ends_path(dir, name);
    assert(lower_text(name) =~= lower_text(a) + lower_text(word) + lower_text(b));
    crate::text::law_part_is_found(lower_text(a), lower_text(word), lower_text(b));
}

} // verus!
