use compositor_slint::ipc::set_theme;
use compositor_slint::theme::{
    parse_hour, parse_theme_json, theme_config, AutoConfig, EaseTween, ThemeMode, ThemeState, DURATION, FULL,
};

const FRAME: u64 = 16_000_000;
const NOON: u8 = 12;

fn plain() -> ThemeState {
    ThemeState::new(AutoConfig { auto_times: None, explicit_mode: None })
}

fn part(level: u64) -> f64 {
    level as f64 / FULL as f64
}

#[test]
fn mode_starts_dark() {
    let state = plain();
    // Without a configuration the mode is dark.
    assert!(part(state.mode_t) < 0.01, "mode_t should start at 0 (dark)");
}

#[test]
fn toggle_triggers_animation() {
    let mut state = plain();
    state.toggle_mode();
    assert_eq!(state.current_mode, ThemeMode::Light);
    state.tick(FRAME, NOON);
    assert!(part(state.mode_t) > 0.0);
    assert!(part(state.mode_t) < 1.0);
}

#[test]
fn toggle_twice_goes_back_to_dark() {
    let mut state = plain();
    state.toggle_mode();
    state.toggle_mode();
    assert_eq!(state.current_mode, ThemeMode::Dark);
}

#[test]
fn window_focus_crossfade() {
    let mut state = plain();
    state.set_window_focused(1, true);
    state.tick(FRAME, NOON);
    let v = part(state.window_focus_t(1));
    assert!(v > 0.0 && v < 1.0, "focus_t should be mid-animation: {}", v);
}

#[test]
fn parse_theme_json_light() {
    let cfg = parse_theme_json(r#"{"mode":"light"}"#);
    assert_eq!(cfg.explicit_mode, Some(ThemeMode::Light));
}

#[test]
fn parse_theme_json_auto() {
    let cfg = parse_theme_json(r#"{"mode":"auto","auto_sunrise":"07:00","auto_sunset":"19:00"}"#);
    assert_eq!(cfg.auto_times, Some((7, 19)));
}

#[test]
fn a_configuration_that_is_no_json_is_ignored() {
    let cfg = parse_theme_json("light");
    assert_eq!(cfg.explicit_mode, None);
    assert_eq!(cfg.auto_times, None);
}

#[test]
fn json_escapes_are_read() {
    let cfg = parse_theme_json("{\"mode\":\"d\\u0061rk\"}");
    assert_eq!(cfg.explicit_mode, Some(ThemeMode::Dark));
}

#[test]
fn auto_mode_has_default_hours() {
    let cfg = theme_config(Some("auto".to_string()), None, None);
    assert_eq!(cfg.auto_times, Some((6, 18)));
    let odd = theme_config(Some("auto".to_string()), Some("soon".to_string()), Some("21:30".to_string()));
    assert_eq!(odd.auto_times, Some((6, 21)));
}

#[test]
fn hours_are_read_from_the_clock_time() {
    assert_eq!(parse_hour("07:00"), Some(7));
    assert_eq!(parse_hour("19"), Some(19));
    assert_eq!(parse_hour("x:10"), None);
    assert_eq!(parse_hour("300:00"), None);
}

#[test]
fn a_finished_animation_rests_at_its_end() {
    let mut state = plain();
    state.toggle_mode();
    let running = state.tick(DURATION, NOON);
    assert_eq!(state.mode_t, FULL);
    assert!(!running || state.tick(FRAME, NOON) || state.mode_t == FULL);
}

#[test]
fn half_time_is_half_way() {
    let mut tween = EaseTween::new(0, FULL);
    assert_eq!(tween.value(), 0);
    assert_eq!(tween.tick(DURATION / 2), FULL / 2);
    assert!(!tween.is_complete());
    assert_eq!(tween.tick(DURATION), FULL);
    assert!(tween.is_complete());
}

#[test]
fn the_schedule_lights_the_day() {
    let mut state = ThemeState::new(AutoConfig { auto_times: Some((7, 19)), explicit_mode: None });
    state.tick(FRAME, 12);
    assert_eq!(state.current_mode, ThemeMode::Light);
    state.tick(FRAME, 23);
    assert_eq!(state.current_mode, ThemeMode::Dark);
}

#[test]
fn a_removed_window_has_no_focus_level() {
    let mut state = plain();
    state.set_window_focused(3, true);
    state.tick(DURATION, NOON);
    assert_eq!(state.window_focus_t(3), FULL);
    state.remove_window(3);
    assert_eq!(state.window_focus_t(3), 0);
}

#[test]
fn a_theme_is_set_by_its_name() {
    let mut state = plain();
    assert!(set_theme(&mut state, "LIGHT"));
    assert_eq!(state.current_mode, ThemeMode::Light);
    assert!(!set_theme(&mut state, "light"));
    assert!(set_theme(&mut state, "anything"));
    assert_eq!(state.current_mode, ThemeMode::Dark);
}

#[test]
fn modes_have_their_level() {
    assert_eq!(ThemeMode::Dark.mode_t(), 0);
    assert_eq!(ThemeMode::Light.mode_t(), FULL);
}

#[test]
fn focus_lost_before_a_frame_ends_inactive() {
    let mut state = plain();
    state.set_window_focused(1, true);
    state.set_window_focused(1, false);
    assert!(state.tick(DURATION, NOON));
    assert_eq!(state.window_focus_t(1), 0);
}

#[test]
fn the_last_notification_decides() {
    let mut state = plain();
    state.set_window_focused(1, true);
    state.tick(DURATION / 2, NOON);
    state.set_window_focused(1, false);
    state.set_window_focused(1, true);
    state.set_window_focused(1, false);
    state.tick(DURATION, NOON);
    assert_eq!(state.window_focus_t(1), 0);
    state.set_window_focused(1, true);
    state.tick(DURATION, NOON);
    assert_eq!(state.window_focus_t(1), FULL);
}

#[test]
fn a_fade_under_way_is_not_started_again() {
    let mut often = plain();
    let mut once = plain();
    once.set_window_focused(1, true);
    for _ in 0..20 {
        often.set_window_focused(1, true);
        often.tick(FRAME, NOON);
        once.tick(FRAME, NOON);
        assert_eq!(often.window_focus_t(1), once.window_focus_t(1));
    }
    assert_eq!(often.window_focus_t(1), FULL);
}

#[test]
fn a_turned_fade_starts_from_the_level_reached() {
    let mut state = plain();
    state.set_window_focused(1, true);
    state.tick(DURATION / 2, NOON);
    let reached = state.window_focus_t(1);
    state.set_window_focused(1, false);
    state.tick(0, NOON);
    assert_eq!(state.window_focus_t(1), reached);
}

#[test]
fn at_rest_nothing_is_between() {
    let mut state = plain();
    state.set_mode(ThemeMode::Light);
    state.set_window_focused(1, true);
    state.set_window_focused(2, false);
    while state.tick(FRAME, NOON) {
        assert!(state.animating);
    }
    assert!(!state.animating);
    assert_eq!(state.mode_t, FULL);
    assert_eq!(state.window_focus_t(1), FULL);
    assert_eq!(state.window_focus_t(2), 0);
}

#[test]
fn a_light_start_is_reached_by_a_fade() {
    let mut state = plain();
    assert!(!state.start_in(None, FRAME, NOON));
    assert_eq!(state.current_mode, ThemeMode::Dark);
    assert!(state.start_in(Some(ThemeMode::Light), FRAME, NOON));
    assert_eq!(state.current_mode, ThemeMode::Light);
    assert!(state.mode_t > 0 && state.mode_t < FULL);
    state.tick(DURATION, NOON);
    assert_eq!(state.mode_t, FULL);
}

#[test]
fn members_that_are_no_strings_are_ignored() {
    assert_eq!(parse_theme_json("[1]").explicit_mode, Some(ThemeMode::Dark));
    assert_eq!(parse_theme_json(r#"{"mode":3}"#).explicit_mode, Some(ThemeMode::Dark));
    let cfg = parse_theme_json(r#"{"mode":"auto","auto_sunrise":7}"#);
    assert_eq!(cfg.auto_times, Some((6, 18)));
}
