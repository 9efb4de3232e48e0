//! Light and dark mode, and the cross-fades between them.
//!
//! Two kinds of levels are animated, each over 200 ms with an ease-in-out curve:
//! the global mode level, from dark to light, and one focus level per window,
//! from inactive to active.
//!
//! With `"mode": "auto"` in the configuration the mode follows the time of day.

use std::collections::HashMap;

use vstd::prelude::*;

use crate::num::{max_int, min_int};
use crate::text::{before, chars_before, chars_of, parse_u8, same_text, unsigned_decimal};

verus! {

/// A level is a fraction, in units of one part in this many.
pub const FULL: u64 = 1_000_000_000_000;

/// Length of an animation, in nanoseconds.
pub const DURATION: u64 = 200_000_000;

#[derive(Clone, Copy, Debug, PartialEq, Eq, Structural)]
pub enum ThemeMode {
    Dark,
    Light,
}

impl ThemeMode {
    /// The mode level that this mode comes to rest at.
    pub open spec fn level(self) -> u64 {
        match self {
            ThemeMode::Dark => 0,
            ThemeMode::Light => FULL,
        }
    }

    pub open spec fn other(self) -> ThemeMode {
        match self {
            ThemeMode::Dark => ThemeMode::Light,
            ThemeMode::Light => ThemeMode::Dark,
        }
    }

    pub fn mode_t(self) -> (r: u64)
        ensures
            r == self.level(),
    {
        match self {
            ThemeMode::Dark => 0,
            ThemeMode::Light => FULL,
        }
    }
}

/// An animation from one level to another.
#[derive(Clone, Copy, Debug, PartialEq, Eq, Structural)]
pub struct EaseTween {
    pub from: u64,
    pub to: u64,
    pub elapsed: u64,
}

pub open spec fn cube(v: int) -> int {
    v * v * v
}

/// How much of the way is covered after `elapsed`, in parts of `cube(DURATION)`:
/// slow at both ends, fast in the middle.
pub open spec fn eased(elapsed: int) -> int {
    if 2 * elapsed < DURATION {
        4 * cube(elapsed)
    } else {
        cube(DURATION as int) - 4 * cube(DURATION - elapsed)
    }
}

/// `part` of the way from `from` to `to`, rounded toward `from`.
pub open spec fn between(from: u64, to: u64, part: int) -> int {
    if to >= from {
        from + ((to - from) * part) / cube(DURATION as int)
    } else {
        from - ((from - to) * part) / cube(DURATION as int)
    }
}

impl EaseTween {
    pub open spec fn wf(self) -> bool {
        self.from <= FULL && self.to <= FULL && self.elapsed <= DURATION
    }

    pub open spec fn done(self) -> bool {
        self.elapsed >= DURATION
    }

    /// The level that the animation has reached.
    pub open spec fn level(self) -> u64 {
        if self.done() {
            self.to
        } else {
            between(self.from, self.to, eased(self.elapsed as int)) as u64
        }
    }

    /// The animation after `dt` more nanoseconds; it stops at its end.
    pub open spec fn advanced(self, dt: u64) -> EaseTween {
        EaseTween { elapsed: min_int(self.elapsed + dt, DURATION as int) as u64, ..self }
    }

    pub open spec fn start(from: u64, to: u64) -> EaseTween {
        EaseTween { from, to, elapsed: 0 }
    }
}

proof fn lemma_cube_mono(a: int, b: int)
    by (nonlinear_arith)
    requires
        0 <= a <= b,
    ensures
        0 <= cube(a) <= cube(b),
{
    assert(a * a <= b * b);
    assert(a * a * a <= b * b * b);
}

proof fn lemma_eased_range(elapsed: int)
    requires
        0 <= elapsed <= DURATION,
    ensures
        0 <= eased(elapsed) <= cube(DURATION as int),
{
    lemma_cube_mono(0, elapsed);
    lemma_cube_mono(0, DURATION - elapsed);
    assert(cube(100_000_000) == 1_000_000_000_000_000_000_000_000) by (nonlinear_arith);
    assert(cube(200_000_000) == 8_000_000_000_000_000_000_000_000) by (nonlinear_arith);
    if 2 * elapsed < DURATION {
        lemma_cube_mono(elapsed, 100_000_000);
    } else {
        lemma_cube_mono(DURATION - elapsed, 100_000_000);
    }
}

proof fn lemma_eased_mono(a: int, b: int)
    requires
        0 <= a <= b <= DURATION,
    ensures
        eased(a) <= eased(b),
{
    lemma_cube_mono(a, b);
    lemma_cube_mono(DURATION - b, DURATION - a);
    assert(cube(100_000_000) == 1_000_000_000_000_000_000_000_000) by (nonlinear_arith);
    assert(cube(200_000_000) == 8_000_000_000_000_000_000_000_000) by (nonlinear_arith);
    if 2 * a < DURATION && 2 * b >= DURATION {
        lemma_cube_mono(a, 100_000_000);
        lemma_cube_mono(DURATION - b, 100_000_000);
    }
}

proof fn lemma_share(d: int, part: int, whole: int)
    by (nonlinear_arith)
    requires
        0 <= d,
        0 <= part <= whole,
        0 < whole,
    ensures
        0 <= (d * part) / whole <= d,
        0 <= d * part <= d * whole,
{
    assert(d * part <= d * whole);
    assert((d * part) / whole <= (d * whole) / whole);
    assert((d * whole) / whole == d);
}

proof fn lemma_share_mono(d: int, p: int, q: int, whole: int)
    by (nonlinear_arith)
    requires
        0 <= d,
        0 <= p <= q,
        0 < whole,
    ensures
        (d * p) / whole <= (d * q) / whole,
{
    assert(d * p <= d * q);
}

proof fn lemma_level_range(t: EaseTween)
    requires
        t.wf(),
    ensures
        min_int(t.from as int, t.to as int) <= t.level() <= max_int(t.from as int, t.to as int),
        0 <= between(t.from, t.to, eased(t.elapsed as int)) <= FULL,
{
    lemma_eased_range(t.elapsed as int);
    assert(cube(200_000_000) == 8_000_000_000_000_000_000_000_000) by (nonlinear_arith);
    let d = if t.to >= t.from {
        t.to - t.from
    } else {
        t.from - t.to
    };
    lemma_share(d, eased(t.elapsed as int), cube(DURATION as int));
}

/// An animation never leaves the range between its two ends.
pub proof fn law_level_between_ends(t: EaseTween)
    requires
        t.wf(),
    ensures
        min_int(t.from as int, t.to as int) <= t.level() <= max_int(t.from as int, t.to as int),
{
    lemma_level_range(t);
}

/// An animation starts at its first level and rests at its last.
pub proof fn law_level_at_ends(from: u64, to: u64, dt: u64)
    requires
        from <= FULL,
        to <= FULL,
        dt >= DURATION,
    ensures
        EaseTween::start(from, to).level() == from,
        EaseTween::start(from, to).advanced(dt).level() == to,
{
    assert(cube(0) == 0) by (nonlinear_arith);
    assert(cube(200_000_000) == 8_000_000_000_000_000_000_000_000) by (nonlinear_arith);
    assert((to - from) * 0 == 0) by (nonlinear_arith);
    assert((from - to) * 0 == 0) by (nonlinear_arith);
}

/// Time only ever brings the level nearer to its end.
pub proof fn law_level_progresses(t: EaseTween, dt: u64)
    requires
        t.wf(),
    ensures
        t.from <= t.to ==> t.level() <= t.advanced(dt).level(),
        t.from >= t.to ==> t.level() >= t.advanced(dt).level(),
{
    let u = t.advanced(dt);
    lemma_level_range(t);
    lemma_level_range(u);
    lemma_eased_range(t.elapsed as int);
    lemma_eased_mono(t.elapsed as int, u.elapsed as int);
    assert(cube(200_000_000) == 8_000_000_000_000_000_000_000_000) by (nonlinear_arith);
    if t.from <= t.to {
        lemma_share_mono(
            t.to - t.from,
            eased(t.elapsed as int),
            eased(u.elapsed as int),
            cube(DURATION as int),
        );
    } else {
        lemma_share_mono(
            t.from - t.to,
            eased(t.elapsed as int),
            eased(u.elapsed as int),
            cube(DURATION as int),
        );
    }
}

fn cubed(v: u64) -> (r: u128)
    requires
        v <= DURATION,
    ensures
        r == cube(v as int),
        r <= 8_000_000_000_000_000_000_000_000,
{
    assert(0 <= v * v <= 200_000_000 * 200_000_000) by (nonlinear_arith)
        requires
            0 <= v <= 200_000_000,
    ;
    assert(0 <= v * v * v <= 8_000_000_000_000_000_000_000_000) by (nonlinear_arith)
        requires
            0 <= v <= 200_000_000,
            0 <= v * v <= 200_000_000 * 200_000_000,
    ;
    v as u128 * v as u128 * v as u128
}

impl EaseTween {
    pub fn new(from: u64, to: u64) -> (t: EaseTween)
        ensures
            t == EaseTween::start(from, to),
    {
        EaseTween { from, to, elapsed: 0 }
    }

    pub fn is_complete(&self) -> (r: bool)
        ensures
            r == self.done(),
    {
        self.elapsed >= DURATION
    }

    /// The level that the animation has reached.
    pub fn value(&self) -> (r: u64)
        requires
            self.wf(),
        ensures
            r == self.level(),
            r <= FULL,
    {
        if self.is_complete() {
            return self.to;
        }
        proof {
            lemma_eased_range(self.elapsed as int);
            lemma_level_range(*self);
            assert(cube(200_000_000) == 8_000_000_000_000_000_000_000_000) by (nonlinear_arith);
        }
        let whole: u128 = 8_000_000_000_000_000_000_000_000;
        let part: u128 = if 2 * self.elapsed < DURATION {
            4 * cubed(self.elapsed)
        } else {
            whole - 4 * cubed(DURATION - self.elapsed)
        };
        let rising = self.to >= self.from;
        let d: u64 = if rising {
            self.to - self.from
        } else {
            self.from - self.to
        };
        assert(0 <= d * part <= 1_000_000_000_000 * whole) by (nonlinear_arith)
            requires
                0 <= d <= 1_000_000_000_000,
                0 <= part <= whole,
        ;
        proof {
            lemma_share(d as int, part as int, whole as int);
        }
        let share: u64 = (d as u128 * part / whole) as u64;
        if rising {
            self.from + share
        } else {
            self.from - share
        }
    }

    /// Advances by `dt` nanoseconds and returns the level reached.
    pub fn tick(&mut self, dt: u64) -> (r: u64)
        requires
            old(self).wf(),
        ensures
            *final(self) == old(self).advanced(dt),
            final(self).wf(),
            r == final(self).level(),
            r <= FULL,
    {
        let left: u64 = DURATION - self.elapsed;
        if dt >= left {
            self.elapsed = DURATION;
        } else {
            self.elapsed = self.elapsed + dt;
        }
        self.value()
    }
}

/// The configured mode: fixed, or by the hours of sunrise and sunset.
#[derive(Clone, Copy, Debug)]
pub struct AutoConfig {
    pub auto_times: Option<(u8, u8)>,
    pub explicit_mode: Option<ThemeMode>,
}

/// The hour of a time written as `HH:MM`.
pub open spec fn hour_of(hhmm: Seq<char>) -> Option<u8> {
    match unsigned_decimal(before(hhmm, ':')) {
        Some(n) => if n <= 255 {
            Some(n as u8)
        } else {
            None
        },
        None => None,
    }
}

/// The hour of a time written as `HH:MM`: the number before the colon, if it is
/// one and fits in a byte.
pub fn parse_hour(hhmm: &str) -> (r: Option<u8>)
    ensures
        r == hour_of(hhmm@),
{
    parse_u8(&chars_before(&chars_of(hhmm), ':'))
}

pub open spec fn hour_or(hhmm: Option<Seq<char>>, default: u8) -> u8 {
    match hhmm {
        Some(s) => match hour_of(s) {
            Some(h) => h,
            None => default,
        },
        None => default,
    }
}

/// The configuration that a parsed file stands for. A file without a mode means
/// dark; an unknown mode configures nothing.
pub open spec fn config_of(mode: Option<Seq<char>>, sunrise: Option<Seq<char>>, sunset: Option<Seq<char>>) -> AutoConfig {
    let m = match mode {
        Some(s) => s,
        None => "dark"@,
    };
    if m == "light"@ {
        AutoConfig { auto_times: None, explicit_mode: Some(ThemeMode::Light) }
    } else if m == "dark"@ {
        AutoConfig { auto_times: None, explicit_mode: Some(ThemeMode::Dark) }
    } else if m == "auto"@ {
        AutoConfig { auto_times: Some((hour_or(sunrise, 6), hour_or(sunset, 18))), explicit_mode: None }
    } else {
        AutoConfig { auto_times: None, explicit_mode: None }
    }
}

pub open spec fn text_view(s: Option<String>) -> Option<Seq<char>> {
    match s {
        Some(t) => Some(t@),
        None => None,
    }
}

fn hour_with_default(hhmm: &Option<String>, default: u8) -> (r: u8)
    ensures
        r == hour_or(text_view(*hhmm), default),
{
    match hhmm {
        Some(s) => match parse_hour(s.as_str()) {
            Some(h) => h,
            None => default,
        },
        None => default,
    }
}

/// The configuration for the string members `mode`, `auto_sunrise` and
/// `auto_sunset` of a configuration file.
pub fn theme_config(mode: Option<String>, sunrise: Option<String>, sunset: Option<String>) -> (r: AutoConfig)
    ensures
        r == config_of(text_view(mode), text_view(sunrise), text_view(sunset)),
{
    let m = match mode {
        Some(s) => s,
        None => "dark".to_owned(),
    };
    if same_text(m.as_str(), "light") {
        return AutoConfig { auto_times: None, explicit_mode: Some(ThemeMode::Light) };
    }
    if same_text(m.as_str(), "dark") {
        return AutoConfig { auto_times: None, explicit_mode: Some(ThemeMode::Dark) };
    }
    if same_text(m.as_str(), "auto") {
        let rise: u8 = hour_with_default(&sunrise, 6);
        let set: u8 = hour_with_default(&sunset, 18);
        return AutoConfig { auto_times: Some((rise, set)), explicit_mode: None };
    }
    AutoConfig { auto_times: None, explicit_mode: None }
}

/// Whether `serde_json` reads a text as JSON.
pub uninterp spec fn is_json(text: Seq<char>) -> bool;

/// The string that a JSON text holds under a key of its top-level object, as
/// `serde_json` reads it.
pub uninterp spec fn json_string_member(text: Seq<char>, key: Seq<char>) -> Option<Seq<char>>;

/// Reads a string member with `serde_json::from_str`, `Value::get` and
/// `Value::as_str`. Whether there is an answer is a function of the text alone, for
/// any key; the answer is one of the text and the key: no string where the top level
/// is no object, the key is absent or its value is no string.
#[verifier::external_body]
fn string_member(text: &str, key: &str) -> (r: Option<Option<String>>)
    ensures
        r is Some == is_json(text@),
        r matches Some(s) ==> text_view(s) == json_string_member(text@, key@),
{
    let value: serde_json::Value = serde_json::from_str(text).ok()?;
    Some(value.get(key).and_then(serde_json::Value::as_str).map(str::to_owned))
}

/// Parses a configuration file. A text that is not JSON configures nothing.
pub fn parse_theme_json(text: &str) -> (r: AutoConfig)
    ensures
        r == if is_json(text@) {
            config_of(
                json_string_member(text@, "mode"@),
                json_string_member(text@, "auto_sunrise"@),
                json_string_member(text@, "auto_sunset"@),
            )
        } else {
            AutoConfig { auto_times: None, explicit_mode: None }
        },
{
    match string_member(text, "mode") {
        Some(mode) => {
            let sunrise = match string_member(text, "auto_sunrise") {
                Some(s) => s,
                None => None,
            };
            let sunset = match string_member(text, "auto_sunset") {
                Some(s) => s,
                None => None,
            };
            theme_config(mode, sunrise, sunset)
        },
        None => AutoConfig { auto_times: None, explicit_mode: None },
    }
}

/// A window's focus animation.
#[derive(Clone, Copy, Debug, PartialEq, Eq, Structural)]
pub struct WindowTween {
    pub window_id: i32,
    pub tween: EaseTween,
}

/// The theme state, advanced once per frame.
#[derive(Debug)]
pub struct ThemeState {
    /// The mode that the animation is heading for.
    pub current_mode: ThemeMode,
    pub mode_tween: EaseTween,
    pub window_tweens: Vec<WindowTween>,
    /// The focus levels as of the last tick.
    pub focus_values: HashMap<i32, u64>,
    /// The mode level as of the last tick.
    pub mode_t: u64,
    pub auto_times: Option<(u8, u8)>,
    pub animating: bool,
}

/// The index of a window's animation.
pub open spec fn tween_index(tweens: Seq<WindowTween>, id: i32, from: int) -> Option<int>
    decreases tweens.len() - from,
{
    if from < 0 || from >= tweens.len() {
        None
    } else if tweens[from].window_id == id {
        Some(from)
    } else {
        tween_index(tweens, id, from + 1)
    }
}

/// The animations without the one of a window.
pub open spec fn without_tween(tweens: Seq<WindowTween>, id: i32) -> Seq<WindowTween> {
    match tween_index(tweens, id, 0) {
        Some(i) => tweens.remove(i),
        None => tweens,
    }
}

/// One animation per window, toward one end, and every level a fraction.
pub open spec fn tweens_wf(tweens: Seq<WindowTween>) -> bool {
    &&& forall|i: int| 0 <= i < tweens.len() ==> (#[trigger] tweens[i]).tween.wf() && is_end(tweens[i].tween.to)
    &&& forall|i: int, j: int|
        0 <= i < j < tweens.len() ==> (#[trigger] tweens[i]).window_id != (#[trigger] tweens[j]).window_id
}

proof fn lemma_tween_index(tweens: Seq<WindowTween>, id: i32, from: int)
    requires
        0 <= from <= tweens.len(),
    ensures
        match tween_index(tweens, id, from) {
            Some(i) => from <= i < tweens.len() && tweens[i].window_id == id,
            None => forall|k: int| from <= k < tweens.len() ==> (#[trigger] tweens[k]).window_id != id,
        },
    decreases tweens.len() - from,
{
    if from < tweens.len() && tweens[from].window_id != id {
        lemma_tween_index(tweens, id, from + 1);
    }
}

/// Whether none of the first `n` animations is that of a window.
pub open spec fn none_of(tweens: Seq<WindowTween>, n: int, id: i32) -> bool {
    forall|k: int| 0 <= k < n ==> (#[trigger] tweens[k]).window_id != id
}

/// Whether a window has the same focus level, or none, in both.
pub open spec fn same_focus(a: Map<i32, u64>, b: Map<i32, u64>, id: i32) -> bool {
    &&& a.contains_key(id) <==> b.contains_key(id)
    &&& a.contains_key(id) ==> a[id] == b[id]
}

/// The mode that the schedule asks for at an hour.
pub open spec fn scheduled(times: Option<(u8, u8)>, hour: u8, current: ThemeMode) -> ThemeMode {
    match times {
        Some((sunrise, sunset)) => if sunrise <= hour && hour < sunset {
            ThemeMode::Light
        } else {
            ThemeMode::Dark
        },
        None => current,
    }
}

/// The animation once the mode was set: a change starts a new one from the level
/// reached so far.
pub open spec fn retargeted(current: ThemeMode, tween: EaseTween, mode: ThemeMode) -> EaseTween {
    if mode == current {
        tween
    } else {
        EaseTween::start(tween.level(), mode.level())
    }
}

/// The focus level that a window's animation starts from.
pub open spec fn focus_start(focus: Map<i32, u64>, id: i32, focused: bool) -> u64 {
    if focus.contains_key(id) {
        focus[id]
    } else if focused {
        0
    } else {
        FULL
    }
}

pub open spec fn focus_target(focused: bool) -> u64 {
    if focused {
        FULL
    } else {
        0
    }
}

/// A focus level that a window can rest at.
pub open spec fn is_end(level: u64) -> bool {
    level == 0 || level == FULL
}

/// The animations once a window was said to have gained or lost the focus: one that
/// leads there is left alone; otherwise one starts from the level reached so far,
/// unless the window rests there.
pub open spec fn notified(tweens: Seq<WindowTween>, focus: Map<i32, u64>, id: i32, focused: bool) -> Seq<WindowTween> {
    let target = focus_target(focused);
    match tween_index(tweens, id, 0) {
        Some(i) => if tweens[i].tween.to == target {
            tweens
        } else {
            tweens.update(
                i,
                WindowTween { window_id: id, tween: EaseTween::start(tweens[i].tween.level(), target) },
            )
        },
        None => if focus_start(focus, id, focused) == target {
            tweens
        } else {
            tweens.push(
                WindowTween { window_id: id, tween: EaseTween::start(focus_start(focus, id, focused), target) },
            )
        },
    }
}

/// The focus level that a window is shown with; one that was never focused is inactive.
pub open spec fn shown_level(focus: Map<i32, u64>, id: i32) -> u64 {
    if focus.contains_key(id) {
        focus[id]
    } else {
        0
    }
}

/// The focus level of a window once the animations ran for `dt` nanoseconds more.
pub open spec fn level_after(tweens: Seq<WindowTween>, focus: Map<i32, u64>, id: i32, dt: u64) -> u64 {
    match tween_index(tweens, id, 0) {
        Some(i) => tweens[i].tween.advanced(dt).level(),
        None => shown_level(focus, id),
    }
}

/// Whether every window without an animation rests at one end.
pub open spec fn others_rest(tweens: Seq<WindowTween>, focus: Map<i32, u64>) -> bool {
    forall|id: i32| #[trigger] focus.contains_key(id) ==> tween_index(tweens, id, 0) is Some || is_end(focus[id])
}

/// What a tick of `dt` nanoseconds at an hour of the day does. If nothing was moving,
/// all levels are at rest.
pub open spec fn ticked(was: &ThemeState, now: &ThemeState, dt: u64, hour: u8, running: bool) -> bool {
    let t = retargeted(was.current_mode, was.mode_tween, now.current_mode);
    &&& now.auto_times == was.auto_times
    &&& now.current_mode == scheduled(was.auto_times, hour, was.current_mode)
    &&& now.mode_tween == t.advanced(dt)
    &&& now.mode_t == t.advanced(dt).level()
    &&& running <==> (!t.done() || exists|i: int|
        0 <= i < was.window_tweens@.len() && !(#[trigger] was.window_tweens@[i]).tween.done())
    &&& now.animating == running
    &&& !running ==> now.at_rest()
    &&& now.window_tweens@.len() == was.window_tweens@.len()
    &&& forall|i: int|
        0 <= i < was.window_tweens@.len() ==> {
            let before = #[trigger] was.window_tweens@[i];
            let after = now.window_tweens@[i];
            &&& after.window_id == before.window_id
            &&& after.tween == before.tween.advanced(dt)
            &&& now.focus_values@.contains_key(before.window_id)
            &&& now.focus_values@[before.window_id] == after.tween.level()
        }
    &&& forall|id: i32|
        tween_index(was.window_tweens@, id, 0) is None ==> #[trigger] same_focus(now.focus_values@, was.focus_values@, id)
    &&& forall|id: i32| #[trigger]
        shown_level(now.focus_values@, id) == level_after(was.window_tweens@, was.focus_values@, id, dt)
}

impl ThemeState {
    /// The mode level heads for the mode's, every focus level for one end, and levels
    /// that nothing moves are there.
    pub open spec fn wf(&self) -> bool {
        &&& self.mode_tween.wf()
        &&& self.mode_tween.to == self.current_mode.level()
        &&& tweens_wf(self.window_tweens@)
        &&& others_rest(self.window_tweens@, self.focus_values@)
        &&& forall|id: i32| #[trigger] self.focus_values@.contains_key(id) ==> self.focus_values@[id] <= FULL
    }

    /// The mode's level is shown, and every window is active or inactive.
    pub open spec fn at_rest(&self) -> bool {
        &&& self.mode_t == self.current_mode.level()
        &&& forall|id: i32| #[trigger] self.focus_values@.contains_key(id) ==> is_end(self.focus_values@[id])
    }

    /// The state at rest in the configured mode; dark without one.
    pub fn new(config: AutoConfig) -> (s: Self)
        ensures
            s.wf(),
            s.current_mode == match config.explicit_mode {
                Some(m) => m,
                None => ThemeMode::Dark,
            },
            s.mode_t == s.current_mode.level(),
            s.mode_tween == (EaseTween { from: s.mode_t, to: s.mode_t, elapsed: DURATION }),
            s.window_tweens@ == Seq::<WindowTween>::empty(),
            s.focus_values@ == Map::<i32, u64>::empty(),
            s.auto_times == config.auto_times,
            !s.animating,
    {
        broadcast use vstd::std_specs::hash::group_hash_axioms;

        let mode = match config.explicit_mode {
            Some(m) => m,
            None => ThemeMode::Dark,
        };
        let t: u64 = mode.mode_t();
        ThemeState {
            current_mode: mode,
            mode_tween: EaseTween { from: t, to: t, elapsed: DURATION },
            window_tweens: Vec::new(),
            focus_values: HashMap::new(),
            mode_t: t,
            auto_times: config.auto_times,
            animating: false,
        }
    }

    /// Everything but the mode and its animation is as it was.
    pub open spec fn same_but_mode(&self, old_self: &ThemeState) -> bool {
        &&& self.window_tweens@ == old_self.window_tweens@
        &&& self.focus_values@ == old_self.focus_values@
        &&& self.mode_t == old_self.mode_t
        &&& self.auto_times == old_self.auto_times
        &&& self.animating == old_self.animating
    }

    /// Switches between dark and light, with a cross-fade.
    pub fn toggle_mode(&mut self)
        requires
            old(self).wf(),
        ensures
            final(self).wf(),
            final(self).current_mode == old(self).current_mode.other(),
            final(self).mode_tween == EaseTween::start(
                old(self).mode_tween.level(),
                old(self).current_mode.other().level(),
            ),
            final(self).same_but_mode(old(self)),
    {
        let mode = match self.current_mode {
            ThemeMode::Dark => ThemeMode::Light,
            ThemeMode::Light => ThemeMode::Dark,
        };
        self.set_mode(mode);
    }

    /// Switches to a mode, with a cross-fade if it is another one.
    pub fn set_mode(&mut self, mode: ThemeMode)
        requires
            old(self).wf(),
        ensures
            final(self).wf(),
            final(self).current_mode == mode,
            final(self).mode_tween == retargeted(old(self).current_mode, old(self).mode_tween, mode),
            final(self).same_but_mode(old(self)),
    {
        if mode == self.current_mode {
            return;
        }
        self.current_mode = mode;
        let from: u64 = self.mode_tween.value();
        self.mode_tween = EaseTween::new(from, mode.mode_t());
    }

    fn find_tween(&self, id: i32) -> (r: Option<usize>)
        ensures
            match r {
                Some(i) => tween_index(self.window_tweens@, id, 0) == Some(i as int) && i < self.window_tweens@.len(),
                None => tween_index(self.window_tweens@, id, 0) is None,
            },
    {
        let mut i: usize = 0;
        while i < self.window_tweens.len()
            invariant
                0 <= i <= self.window_tweens@.len(),
                tween_index(self.window_tweens@, id, 0) == tween_index(self.window_tweens@, id, i as int),
            decreases self.window_tweens@.len() - i,
        {
            if self.window_tweens[i].window_id == id {
                return Some(i);
            }
            i += 1;
        }
        None
    }

    /// A window gained or lost the focus: its focus level starts moving there from the
    /// level reached so far, unless it is there or on its way. A window that is new
    /// starts at the other end.
    pub fn set_window_focused(&mut self, window_id: i32, focused: bool)
        requires
            old(self).wf(),
        ensures
            final(self).wf(),
            final(self).current_mode == old(self).current_mode,
            final(self).mode_tween == old(self).mode_tween,
            final(self).focus_values@ == old(self).focus_values@,
            final(self).mode_t == old(self).mode_t,
            final(self).auto_times == old(self).auto_times,
            final(self).animating == old(self).animating,
            final(self).window_tweens@ == notified(
                old(self).window_tweens@,
                old(self).focus_values@,
                window_id,
                focused,
            ),
    {
        broadcast use vstd::std_specs::hash::group_hash_axioms;

        let target: u64 = if focused {
            FULL
        } else {
            0
        };
        let ghost tweens = self.window_tweens@;
        proof {
            lemma_tween_index(tweens, window_id, 0);
        }
        match self.find_tween(window_id) {
            Some(i) => {
                let running = self.window_tweens[i].tween;
                if running.to != target {
                    proof {
                        lemma_level_range(running);
                    }
                    let from: u64 = running.value();
                    self.window_tweens.set(i, WindowTween { window_id, tween: EaseTween::new(from, target) });
                }
            },
            None => {
                let mut current: u64 = if focused {
                    0
                } else {
                    FULL
                };
                if let Some(v) = self.focus_values.get(&window_id) {
                    current = *v;
                }
                if current != target {
                    self.window_tweens.push(WindowTween { window_id, tween: EaseTween::new(current, target) });
                }
            },
        }
        proof {
            assert forall|id: i32| #[trigger]
                self.focus_values@.contains_key(id) implies tween_index(self.window_tweens@, id, 0) is Some || is_end(
                self.focus_values@[id],
            ) by {
                lemma_tween_index(tweens, id, 0);
                lemma_tween_index(self.window_tweens@, id, 0);
                if let Some(k) = tween_index(tweens, id, 0) {
                    assert(self.window_tweens@[k].window_id == id);
                }
            }
        }
    }

    /// Forgets a window that has closed.
    pub fn remove_window(&mut self, window_id: i32)
        requires
            old(self).wf(),
        ensures
            final(self).wf(),
            final(self).window_tweens@ == without_tween(old(self).window_tweens@, window_id),
            final(self).focus_values@ == old(self).focus_values@.remove(window_id),
            final(self).current_mode == old(self).current_mode,
            final(self).mode_tween == old(self).mode_tween,
            final(self).mode_t == old(self).mode_t,
            final(self).auto_times == old(self).auto_times,
            final(self).animating == old(self).animating,
    {
        broadcast use vstd::std_specs::hash::group_hash_axioms;

        let ghost tweens = self.window_tweens@;
        if let Some(i) = self.find_tween(window_id) {
            self.window_tweens.remove(i);
        }
        self.focus_values.remove(&window_id);
        proof {
            assert forall|id: i32| #[trigger]
                self.focus_values@.contains_key(id) implies tween_index(self.window_tweens@, id, 0) is Some || is_end(
                self.focus_values@[id],
            ) by {
                lemma_tween_index(tweens, window_id, 0);
                lemma_tween_index(tweens, id, 0);
                lemma_tween_index(self.window_tweens@, id, 0);
                if let Some(k) = tween_index(tweens, id, 0) {
                    let at = match tween_index(tweens, window_id, 0) {
                        Some(i) => if k < i {
                            k
                        } else {
                            k - 1
                        },
                        None => k,
                    };
                    assert(self.window_tweens@[at].window_id == id);
                }
            }
        }
    }

    /// Advances all animations by `dt` nanoseconds, after following the schedule
    /// for the hour of the day. Returns whether anything was moving; if not, all levels
    /// are at rest.
    pub fn tick(&mut self, dt: u64, hour: u8) -> (running: bool)
        requires
            old(self).wf(),
        ensures
            final(self).wf(),
            ticked(old(self), final(self), dt, hour, running),
    {
        broadcast use vstd::std_specs::hash::group_hash_axioms;

        if let Some((sunrise, sunset)) = self.auto_times {
            let expected = if hour >= sunrise && hour < sunset {
                ThemeMode::Light
            } else {
                ThemeMode::Dark
            };
            if expected != self.current_mode {
                self.set_mode(expected);
            }
        }
        let mut running = false;
        let ghost t = self.mode_tween;
        if !self.mode_tween.is_complete() {
            self.mode_t = self.mode_tween.tick(dt);
            running = true;
        } else {
            self.mode_t = self.mode_tween.value();
        }
        let ghost tweens = self.window_tweens@;
        let ghost focus = self.focus_values@;
        assert(tweens == old(self).window_tweens@);
        let mut i: usize = 0;
        while i < self.window_tweens.len()
            invariant
                0 <= i <= self.window_tweens@.len(),
                self.window_tweens@.len() == tweens.len(),
                tweens == old(self).window_tweens@,
                focus == old(self).focus_values@,
                tweens_wf(tweens),
                tweens_wf(self.window_tweens@),
                self.mode_tween == t.advanced(dt),
                self.mode_tween.wf(),
                self.mode_t == t.advanced(dt).level(),
                t == retargeted(old(self).current_mode, old(self).mode_tween, self.current_mode),
                self.current_mode == scheduled(old(self).auto_times, hour, old(self).current_mode),
                self.auto_times == old(self).auto_times,
                forall|id: i32| #[trigger] self.focus_values@.contains_key(id) ==> self.focus_values@[id] <= FULL,
                running <==> (!t.done() || exists|k: int|
                    0 <= k < i && !(#[trigger] tweens[k]).tween.done()),
                forall|k: int|
                    0 <= k < tweens.len() ==> (#[trigger] self.window_tweens@[k]).window_id == tweens[k].window_id
                        && self.window_tweens@[k].tween == if k < i {
                        tweens[k].tween.advanced(dt)
                    } else {
                        tweens[k].tween
                    },
                forall|k: int|
                    0 <= k < i ==> self.focus_values@.contains_key((#[trigger] tweens[k]).window_id)
                        && self.focus_values@[tweens[k].window_id] == tweens[k].tween.advanced(dt).level(),
                forall|id: i32|
                    none_of(tweens, i as int, id) ==> #[trigger] same_focus(self.focus_values@, focus, id),
            decreases self.window_tweens@.len() - i,
        {
            let id: i32 = self.window_tweens[i].window_id;
            let mut tween = self.window_tweens[i].tween;
            assert(self.window_tweens@[i as int].tween == tweens[i as int].tween);
            assert(tweens[i as int].tween.wf());
            let level: u64 = if !tween.is_complete() {
                running = true;
                tween.tick(dt)
            } else {
                tween.value()
            };
            self.window_tweens.set(i, WindowTween { window_id: id, tween });
            let ghost focus_before = self.focus_values@;
            self.focus_values.insert(id, level);
            proof {
                assert forall|other: i32| none_of(tweens, i + 1, other) implies #[trigger] same_focus(
                    self.focus_values@,
                    focus,
                    other,
                ) by {
                    assert(tweens[i as int].window_id != other);
                    assert(same_focus(focus_before, focus, other));
                }
            }
            i += 1;
        }
        self.animating = running;
        proof {
            assert forall|id: i32| tween_index(tweens, id, 0) is None implies #[trigger] same_focus(
                self.focus_values@,
                focus,
                id,
            ) by {
                lemma_tween_index(tweens, id, 0);
            }
            assert forall|id: i32| #[trigger]
                shown_level(self.focus_values@, id) == level_after(tweens, focus, id, dt) by {
                lemma_tween_index(tweens, id, 0);
                if tween_index(tweens, id, 0) is None {
                    assert(same_focus(self.focus_values@, focus, id));
                }
            }
            assert forall|id: i32| #[trigger] self.focus_values@.contains_key(id) implies {
                &&& tween_index(self.window_tweens@, id, 0) is Some || is_end(self.focus_values@[id])
                &&& !running ==> is_end(self.focus_values@[id])
            } by {
                lemma_tween_index(tweens, id, 0);
                lemma_tween_index(self.window_tweens@, id, 0);
                match tween_index(tweens, id, 0) {
                    Some(k) => {
                        assert(self.window_tweens@[k].window_id == id);
                        assert(tweens[k].tween.wf() && is_end(tweens[k].tween.to));
                    },
                    None => {
                        assert(same_focus(self.focus_values@, focus, id));
                    },
                }
            }
        }
        running
    }

    /// Starts in a mode, where one was chosen. Returns whether anything was moving.
    pub fn start_in(&mut self, mode: Option<ThemeMode>, dt: u64, hour: u8) -> (running: bool)
        requires
            old(self).wf(),
        ensures
            final(self).wf(),
            match mode {
                Some(m) => ticked(
                    &(ThemeState {
                        current_mode: m,
                        mode_tween: retargeted(old(self).current_mode, old(self).mode_tween, m),
                        ..*old(self)
                    }),
                    final(self),
                    dt,
                    hour,
                    running,
                ),
                None => *final(self) == *old(self) && !running,
            },
    {
        match mode {
            Some(m) => {
                self.set_mode(m);
                self.tick(dt, hour)
            },
            None => false,
        }
    }

    /// The focus level of a window as of the last tick; a window that was never
    /// focused is inactive.
    pub fn window_focus_t(&self, window_id: i32) -> (r: u64)
        ensures
            r == shown_level(self.focus_values@, window_id),
    {
        broadcast use vstd::std_specs::hash::group_hash_axioms;

        match self.focus_values.get(&window_id) {
            Some(v) => *v,
            None => 0,
        }
    }
}

/// Toggling twice leads back to the first mode.
pub proof fn law_toggle_twice(mode: ThemeMode)
    ensures
        mode.other().other() == mode,
        mode.other() != mode,
{
}

/// Two spells of time add up.
pub proof fn law_times_add_up(t: EaseTween, a: u64, b: u64)
    requires
        a + b <= u64::MAX,
    ensures
        t.advanced(a).advanced(b) == t.advanced((a + b) as u64),
{
}

/// The last notification decides where a window's focus level ends: once the
/// animations ran for their whole length it is there, whatever went before.
pub proof fn law_last_notification_decides(
    tweens: Seq<WindowTween>,
    focus: Map<i32, u64>,
    id: i32,
    focused: bool,
    dt: u64,
)
    requires
        tweens_wf(tweens),
        dt >= DURATION,
    ensures
        level_after(notified(tweens, focus, id, focused), focus, id, dt) == focus_target(focused),
{
    let after = notified(tweens, focus, id, focused);
    lemma_tween_index(tweens, id, 0);
    lemma_tween_index(after, id, 0);
    if let Some(i) = tween_index(tweens, id, 0) {
        assert(after[i].window_id == id);
        lemma_first_tween(after, id, i, 0);
    } else if focus_start(focus, id, focused) != focus_target(focused) {
        assert(after[after.len() - 1].window_id == id);
    }
}

/// Saying again what is known changes nothing: a fade that is under way is not
/// started again.
pub proof fn law_notified_once(tweens: Seq<WindowTween>, focus: Map<i32, u64>, id: i32, focused: bool)
    requires
        tweens_wf(tweens),
    ensures
        notified(notified(tweens, focus, id, focused), focus, id, focused) == notified(tweens, focus, id, focused),
{
    let after = notified(tweens, focus, id, focused);
    lemma_tween_index(tweens, id, 0);
    lemma_tween_index(after, id, 0);
    if let Some(i) = tween_index(tweens, id, 0) {
        assert(after[i].window_id == id);
        lemma_first_tween(after, id, i, 0);
    } else if focus_start(focus, id, focused) != focus_target(focused) {
        assert(after[after.len() - 1].window_id == id);
    }
}

/// A notification does not make the focus level jump.
pub proof fn law_no_jump(tweens: Seq<WindowTween>, focus: Map<i32, u64>, id: i32, focused: bool)
    requires
        tweens_wf(tweens),
        tween_index(tweens, id, 0) is Some,
    ensures
        level_after(notified(tweens, focus, id, focused), focus, id, 0) == level_after(tweens, focus, id, 0),
{
    let after = notified(tweens, focus, id, focused);
    let i = tween_index(tweens, id, 0)->0;
    lemma_tween_index(tweens, id, 0);
    lemma_tween_index(after, id, 0);
    assert(after[i].window_id == id);
    lemma_first_tween(after, id, i, 0);
    lemma_level_range(tweens[i].tween);
    law_level_at_ends(tweens[i].tween.level(), focus_target(focused), DURATION);
}

/// Where windows have one animation each, that of a window is found.
proof fn lemma_first_tween(tweens: Seq<WindowTween>, id: i32, i: int, from: int)
    requires
        0 <= from <= i < tweens.len(),
        tweens[i].window_id == id,
        forall|k: int, l: int|
            0 <= k < l < tweens.len() ==> (#[trigger] tweens[k]).window_id != (#[trigger] tweens[l]).window_id,
    ensures
        tween_index(tweens, id, from) == Some(i),
    decreases i - from,
{
    if from < i {
        lemma_first_tween(tweens, id, i, from + 1);
    }
}

/// The curve of a transition is the same backwards from its end as forwards from its
/// start, and in its first half twice the time leads eight times as far.
pub proof fn law_ease_in_and_out(elapsed: int)
    requires
        0 <= elapsed <= DURATION,
    ensures
        eased(0) == 0,
        eased(DURATION as int) == cube(DURATION as int),
        eased(elapsed) + eased(DURATION - elapsed) == cube(DURATION as int),
        4 * elapsed < DURATION ==> eased(2 * elapsed) == 8 * eased(elapsed),
{
    let d = DURATION as int;
    assert(cube(0) == 0);
    if 2 * elapsed == d {
        assert(8 * cube(elapsed) == cube(d)) by (nonlinear_arith)
            requires
                2 * elapsed == d,
                cube(elapsed) == elapsed * elapsed * elapsed,
                cube(d) == d * d * d,
        ;
    }
    assert(cube(2 * elapsed) == 8 * cube(elapsed)) by (nonlinear_arith)
        requires
            cube(elapsed) == elapsed * elapsed * elapsed,
            cube(2 * elapsed) == (2 * elapsed) * (2 * elapsed) * (2 * elapsed),
    ;
}

/// A transition takes 200 ms, and is halfway after half of that.
pub proof fn law_transition_takes_its_time(from: u64, to: u64, dt: u64)
    requires
        from <= FULL,
        to <= FULL,
    ensures
        EaseTween::start(from, to).advanced(dt).done() <==> dt >= 200_000_000,
        from <= to ==> EaseTween::start(from, to).advanced(100_000_000).level() == from + (to - from) / 2,
        to <= from ==> EaseTween::start(from, to).advanced(100_000_000).level() == from - (from - to) / 2,
{
    law_ease_in_and_out(100_000_000);
    let whole = cube(DURATION as int);
    let part = eased(100_000_000);
    assert(2 * part == whole);
    assert(whole > 0) by {
        assert(cube(200_000_000) > 0) by (nonlinear_arith)
            requires
                cube(200_000_000) == 200_000_000 * 200_000_000 * 200_000_000,
        ;
    }
    let up = to - from;
    let down = from - to;
    if up >= 0 {
        assert((up * part) / whole == up / 2) by {
            lemma_half_share(up, part, whole);
        }
    }
    if down >= 0 {
        assert((down * part) / whole == down / 2) by {
            lemma_half_share(down, part, whole);
        }
    }
}

proof fn lemma_half_share(d: int, part: int, whole: int)
    requires
        0 <= d,
        0 < whole,
        2 * part == whole,
    ensures
        (d * part) / whole == d / 2,
{
    assert(d * part == part * d) by (nonlinear_arith);
    vstd::arithmetic::div_mod::lemma_fundamental_div_mod(d, 2);
    let q = d / 2;
    let r = d % 2;
    assert(d * part == whole * q + part * r) by (nonlinear_arith)
        requires
            d == 2 * q + r,
            whole == 2 * part,
    ;
    assert(0 <= part * r < whole) by (nonlinear_arith)
        requires
            0 <= r < 2,
            0 < part,
            whole == 2 * part,
    ;
    vstd::arithmetic::div_mod::lemma_fundamental_div_mod_converse(d * part, whole, q, part * r);
}

/// By day the scheduled theme is light, from the hour of sunrise up to that of sunset,
/// and dark otherwise. Without a schedule it stays as it is.
pub proof fn law_schedule_follows_the_sun(sunrise: u8, sunset: u8, hour: u8, current: ThemeMode)
    ensures
        sunrise < sunset ==> scheduled(Some((sunrise, sunset)), sunrise, current) == ThemeMode::Light,
        sunrise < sunset ==> scheduled(Some((sunrise, sunset)), (sunset - 1) as u8, current) == ThemeMode::Light,
        scheduled(Some((sunrise, sunset)), sunset, current) == ThemeMode::Dark,
        hour < sunrise ==> scheduled(Some((sunrise, sunset)), hour, current) == ThemeMode::Dark,
        hour >= sunset ==> scheduled(Some((sunrise, sunset)), hour, current) == ThemeMode::Dark,
        sunrise <= hour < sunset ==> scheduled(Some((sunrise, sunset)), hour, current) == ThemeMode::Light,
        scheduled(None, hour, current) == current,
{
}

/// A change of theme begins at what is shown and ends at the theme wanted; to ask for
/// the theme that is on changes nothing.
pub proof fn law_theme_changes_smoothly(current: ThemeMode, tween: EaseTween, mode: ThemeMode, dt: u64)
    requires
        tween.wf(),
        tween.to == current.level(),
        dt >= 200_000_000,
    ensures
        mode == current ==> retargeted(current, tween, mode) == tween,
        retargeted(current, tween, mode).level() == tween.level(),
        mode == ThemeMode::Light ==> retargeted(current, tween, mode).advanced(dt).level() == 1_000_000_000_000,
        mode == ThemeMode::Dark ==> retargeted(current, tween, mode).advanced(dt).level() == 0,
{
    law_level_between_ends(tween);
    law_level_at_ends(tween.level(), mode.level(), dt);
}

/// A focused window ends up fully lit and an unfocused one not at all, whatever came
/// before.
pub proof fn law_focus_lights_window(tweens: Seq<WindowTween>, focus: Map<i32, u64>, id: i32, dt: u64)
    requires
        tweens_wf(tweens),
        dt >= 200_000_000,
    ensures
        level_after(notified(tweens, focus, id, true), focus, id, dt) == 1_000_000_000_000,
        level_after(notified(tweens, focus, id, false), focus, id, dt) == 0,
{
    law_last_notification_decides(tweens, focus, id, true, dt);
    law_last_notification_decides(tweens, focus, id, false, dt);
}

/// After a tick long enough for every transition the theme shown is the one that the
/// schedule asks for, and a tick of no length moves nothing that was not retargeted.
pub proof fn law_tick_reaches_theme(was: &ThemeState, now: &ThemeState, dt: u64, hour: u8, running: bool)
    requires
        was.wf(),
        ticked(was, now, dt, hour, running),
    ensures
        was.auto_times is None ==> now.current_mode == was.current_mode,
        (was.auto_times matches Some((rise, set)) ==> (now.current_mode == ThemeMode::Light <==> rise <= hour < set)),
        dt >= 200_000_000 && now.current_mode == ThemeMode::Light ==> now.mode_t == 1_000_000_000_000,
        dt >= 200_000_000 && now.current_mode == ThemeMode::Dark ==> now.mode_t == 0,
        dt == 0 ==> now.mode_t == was.mode_tween.level(),
        dt == 0 ==> forall|i: int|
            0 <= i < was.window_tweens@.len() ==> now.focus_values@[(#[trigger] was.window_tweens@[i]).window_id]
                == was.window_tweens@[i].tween.level(),
        running <==> now.animating,
        !running ==> now.mode_t == 0 || now.mode_t == 1_000_000_000_000,
        now.auto_times == was.auto_times,
{
    let t = retargeted(was.current_mode, was.mode_tween, now.current_mode);
    law_level_between_ends(was.mode_tween);
    if dt >= 200_000_000 {
        law_theme_changes_smoothly(was.current_mode, was.mode_tween, now.current_mode, dt);
    }
    law_theme_changes_smoothly(was.current_mode, was.mode_tween, now.current_mode, 200_000_000);
    if dt == 0 {
        assert(t.advanced(0) == t);
        assert forall|i: int| 0 <= i < was.window_tweens@.len() implies now.focus_values@[(
        #[trigger] was.window_tweens@[i]).window_id] == was.window_tweens@[i].tween.level() by {
            let tw = was.window_tweens@[i].tween;
            assert(tw.wf());
            assert(tw.advanced(0) == tw);
        }
    }
}

proof fn lemma_without_tween(tweens: Seq<WindowTween>, id: i32, i: int)
    requires
        tweens_wf(tweens),
        0 <= i < tweens.len(),
        tweens[i].window_id == id,
    ensures
        tweens.filter(|t: WindowTween| t.window_id != id) == tweens.remove(i),
    decreases tweens.len(),
{
    reveal(Seq::filter);
    let keep = |t: WindowTween| t.window_id != id;
    let front = tweens.drop_last();
    let last = tweens.last();
    assert(last == tweens[tweens.len() - 1]);
    assert forall|a: int| 0 <= a < front.len() implies (#[trigger] front[a]).tween.wf() && is_end(front[a].tween.to) by {
        assert(front[a] == tweens[a]);
    }
    assert forall|a: int, b: int| 0 <= a < b < front.len() implies (#[trigger] front[a]).window_id != (
    #[trigger] front[b]).window_id by {
        assert(front[a] == tweens[a] && front[b] == tweens[b]);
    }
    if i == tweens.len() - 1 {
        assert forall|a: int| 0 <= a < front.len() implies (#[trigger] front[a]).window_id != id by {
            assert(front[a] == tweens[a]);
            assert(tweens[a].window_id != tweens[i].window_id);
        }
        lemma_all_kept(front, id);
        assert(tweens.filter(keep) =~= front);
        assert(front =~= tweens.remove(i));
    } else {
        assert(front[i] == tweens[i]);
        lemma_without_tween(front, id, i);
        assert(tweens[i].window_id != tweens[tweens.len() - 1].window_id);
        assert(tweens.remove(i) =~= front.remove(i).push(last));
    }
}

proof fn lemma_all_kept(tweens: Seq<WindowTween>, id: i32)
    requires
        forall|a: int| 0 <= a < tweens.len() ==> (#[trigger] tweens[a]).window_id != id,
    ensures
        tweens.filter(|t: WindowTween| t.window_id != id) == tweens,
    decreases tweens.len(),
{
    reveal(Seq::filter);
    if tweens.len() > 0 {
        let front = tweens.drop_last();
        assert forall|a: int| 0 <= a < front.len() implies (#[trigger] front[a]).window_id != id by {
            assert(front[a] == tweens[a]);
        }
        lemma_all_kept(front, id);
        assert(tweens.last() == tweens[tweens.len() - 1]);
        assert(front.push(tweens.last()) =~= tweens);
    }
}

/// A window that goes takes its transition along, and no other window's.
pub proof fn law_closed_window_fades_no_more(tweens: Seq<WindowTween>, id: i32)
    requires
        tweens_wf(tweens),
    ensures
        without_tween(tweens, id) == tweens.filter(|t: WindowTween| t.window_id != id),
{
    lemma_tween_index(tweens, id, 0);
    match tween_index(tweens, id, 0) {
        Some(i) => {
            lemma_without_tween(tweens, id, i);
        },
        None => {
            lemma_all_kept(tweens, id);
        },
    }
}

/// An hour is read from what stands before the colon.
pub proof fn law_hour_is_read(h: u8, rest: Seq<char>)
    ensures
        hour_of(crate::text::digits_of(h as int) + seq![':'] + rest) == Some(h),
        hour_of(crate::text::digits_of(h as int)) == Some(h),
        hour_of(seq![':'] + rest) is None,
        hour_or(None, h) == h,
{
    let digits = crate::text::digits_of(h as int);
    crate::text::law_digits_read_back(h as int);
    lemma_hour_digits(h as int);
    crate::text::law_text_before_separator(digits, ':', rest);
    crate::text::law_text_before_separator(Seq::empty(), ':', rest);
    assert(Seq::<char>::empty() + seq![':'] + rest =~= seq![':'] + rest);
}

proof fn lemma_hour_digits(n: int)
    requires
        0 <= n,
    ensures
        crate::text::digits_of(n).len() > 0,
        forall|i: int|
            0 <= i < crate::text::digits_of(n).len() ==> '0' <= #[trigger] crate::text::digits_of(n)[i]
                && crate::text::digits_of(n)[i] <= '9',
    decreases n,
{
    if n >= 10 {
        lemma_hour_digits(n / 10);
    }
}

/// The theme file asks for a light or a dark theme by name; with "auto" the theme
/// changes at the hours given, or at 6 and 18. Without a word it is dark, and any
/// other word asks for nothing.
pub proof fn law_theme_file(mode: Option<Seq<char>>, sunrise: Option<Seq<char>>, sunset: Option<Seq<char>>)
    ensures
        ({
            let c = config_of(mode, sunrise, sunset);
            let times = c.auto_times->0;
            &&& mode == Some("light"@) ==> c.explicit_mode == Some(ThemeMode::Light) && c.auto_times is None
            &&& (mode == Some("dark"@) || mode is None) ==> c.explicit_mode == Some(ThemeMode::Dark) && c.auto_times is None
            &&& mode == Some("auto"@) ==> c.explicit_mode is None && c.auto_times is Some
            &&& mode == Some("auto"@) && sunrise is None ==> times.0 == 6
            &&& mode == Some("auto"@) && sunset is None ==> times.1 == 18
            &&& (mode == Some("auto"@) && sunrise is Some && hour_of(sunrise->0) is Some) ==> times.0 == hour_of(
                sunrise->0,
            )->0
            &&& (mode == Some("auto"@) && sunset is Some && hour_of(sunset->0) is Some) ==> times.1 == hour_of(
                sunset->0,
            )->0
            &&& c.auto_times is Some ==> mode == Some("auto"@)
            &&& (mode matches Some(m) && m != "light"@ && m != "dark"@ && m != "auto"@) ==> c.explicit_mode is None
        }),
{
    reveal_strlit("light");
    reveal_strlit("dark");
    reveal_strlit("auto");
    assert("light"@.len() == 5);
    assert("dark"@.len() == 4 && "dark"@[0] == 'd');
    assert("auto"@.len() == 4 && "auto"@[0] == 'a');
}

/// What a window is told of its focus concerns no other window.
pub proof fn law_notification_concerns_one_window(
    tweens: Seq<WindowTween>,
    focus: Map<i32, u64>,
    id: i32,
    focused: bool,
    other: i32,
    dt: u64,
)
    requires
        tweens_wf(tweens),
        forall|i: i32| #[trigger] focus.contains_key(i) ==> focus[i] <= FULL,
    ensures
        tweens_wf(notified(tweens, focus, id, focused)),
        other != id ==> level_after(notified(tweens, focus, id, focused), focus, other, dt) == level_after(
            tweens,
            focus,
            other,
            dt,
        ),
{
    let after = notified(tweens, focus, id, focused);
    lemma_tween_index(tweens, id, 0);
    lemma_tween_index(tweens, other, 0);
    if let Some(i) = tween_index(tweens, id, 0) {
        assert(tweens[i].tween.wf());
        law_level_between_ends(tweens[i].tween);
        assert forall|k: int| 0 <= k < after.len() implies (#[trigger] after[k]).window_id == tweens[k].window_id by {}
    }
    assert(tweens_wf(after));
    lemma_tween_index(after, other, 0);
    if other != id {
        if let Some(k) = tween_index(tweens, other, 0) {
            assert(after[k] == tweens[k]);
            lemma_first_tween(after, other, k, 0);
        } else if let Some(k) = tween_index(after, other, 0) {
            assert(k < tweens.len());
            assert(tweens[k].window_id == other);
        }
    }
}

/// A forgotten window's transition is gone; every other is there as before.
pub proof fn law_forgotten_window(tweens: Seq<WindowTween>, id: i32, t: WindowTween)
    requires
        tweens_wf(tweens),
    ensures
        tweens_wf(without_tween(tweens, id)),
        without_tween(tweens, id).contains(t) <==> tweens.contains(t) && t.window_id != id,
{
    lemma_tween_index(tweens, id, 0);
    let after = without_tween(tweens, id);
    if let Some(i) = tween_index(tweens, id, 0) {
        assert forall|k: int| 0 <= k < after.len() implies #[trigger] after[k] == tweens[if k < i { k } else { k + 1 }] by {}
        assert forall|k: int| 0 <= k < after.len() implies (#[trigger] after[k]).tween.wf() && is_end(after[k].tween.to) by {
            assert(tweens[if k < i { k } else { k + 1 }].tween.wf());
        }
        assert forall|a: int, b: int| 0 <= a < b < after.len() implies (#[trigger] after[a]).window_id != (
        #[trigger] after[b]).window_id by {
            let x = if a < i { a } else { a + 1 };
            let y = if b < i { b } else { b + 1 };
            assert(tweens[x].window_id != tweens[y].window_id);
        }
        if tweens.contains(t) && t.window_id != id {
            let k = choose|k: int| 0 <= k < tweens.len() && tweens[k] == t;
            assert(after[if k < i { k } else { k - 1 }] == t);
        }
        if after.contains(t) {
            let k = choose|k: int| 0 <= k < after.len() && after[k] == t;
            let x = if k < i { k } else { k + 1 };
            assert(tweens[x] == t);
            if x < i {
                assert(tweens[x].window_id != tweens[i].window_id);
            } else {
                assert(tweens[i].window_id != tweens[x].window_id);
            }
        }
    }
}

} // verus!
