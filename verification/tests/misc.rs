use limusic::codec::{parse_i32, parse_i64};
use limusic::db::{lyrics_verdict, stream_expired, stream_still_valid};
use limusic::hotkeys::{
    check_shortcut, registration_plan, HotkeyAction, HotkeysConfig, ShortcutShape, VolumeMemory,
};
use limusic::position::PositionThrottle;
use limusic::hotkeys::register_result;
use limusic::clock::{millis_of, nanos_of, secs_of};
use limusic::db::play_window_start;
use limusic::hotkeys::apply_config;
use limusic::clock::secs_i64_of;

#[test]
fn integers_parse_like_from_str() {
    assert_eq!(parse_i64("42"), Some(42));
    assert_eq!(parse_i64("+7"), Some(7));
    assert_eq!(parse_i64("-9223372036854775808"), Some(i64::MIN));
    assert_eq!(parse_i64("9223372036854775808"), None);
    assert_eq!(parse_i64(""), None);
    assert_eq!(parse_i64("-"), None);
    assert_eq!(parse_i64(" 1"), None);
    assert_eq!(parse_i32("2147483648"), None);
    assert_eq!(parse_i32("20632"), Some(20632));
}

#[test]
fn cache_rules() {
    assert!(stream_still_valid(100, 99));
    assert!(!stream_still_valid(100, 100));
    assert_eq!(lyrics_verdict(None, 0, 10, 5), None, "stale miss is refetched");
    assert_eq!(lyrics_verdict(None, 0, 5, 5), Some(None));
    assert_eq!(lyrics_verdict(Some("x".into()), 0, 1_000_000, 5), Some(Some("x".into())));
}

#[test]
fn default_hotkeys_are_off_and_leave_mute_unbound() {
    let c = HotkeysConfig::default_config();
    assert!(!c.enabled);
    assert_eq!(c.binding(HotkeyAction::PlayPause).map(|s| s.as_str()), Some("Ctrl+Alt+Space"));
    assert!(c.binding(HotkeyAction::MuteToggle).is_none());
    assert!(registration_plan(&c).is_empty(), "nothing registers while off");
}

#[test]
fn plan_trims_and_skips_blank_bindings() {
    let c = HotkeysConfig {
        enabled: true,
        bindings: vec![(HotkeyAction::PlayPause, " Ctrl+P ".into()), (HotkeyAction::NextTrack, "  ".into())],
    };
    let plan = registration_plan(&c);
    assert_eq!(plan, vec![(HotkeyAction::PlayPause, "Ctrl+P".to_owned())]);
}

#[test]
fn bare_keys_need_a_modifier() {
    let bare = ShortcutShape { ctrl: false, alt: false, super_key: false, function_key: false };
    assert_eq!(check_shortcut("Space", bare), Err("'Space' needs Ctrl, Alt or Super".to_owned()));
    assert_eq!(check_shortcut("F5", ShortcutShape { function_key: true, ..bare }), Ok(()));
    assert_eq!(check_shortcut("Ctrl+K", ShortcutShape { ctrl: true, ..bare }), Ok(()));
}

#[test]
fn mute_toggle_returns_to_the_last_level() {
    let mut v = VolumeMemory::new();
    assert_eq!(v.target(HotkeyAction::VolumeUp, 98), Some(103));
    assert_eq!(v.commit(103), 100);
    assert_eq!(v.target(HotkeyAction::MuteToggle, 60), Some(0));
    assert_eq!(v.commit(0), 0);
    assert_eq!(v.target(HotkeyAction::MuteToggle, 0), Some(60));
    assert_eq!(v.commit(-3), 0);
    assert_eq!(v.target(HotkeyAction::ShowApp, 10), None);
}

#[test]
fn steady_playback_throttles_to_250ms() {
    let base = 10_000u64;
    let mut t = PositionThrottle::new(base);
    assert!(t.should_emit(0, base));
    assert!(!t.should_emit(100, base + 100));
    assert!(!t.should_emit(200, base + 200));
    assert!(t.should_emit(250, base + 250));
}

#[test]
fn forward_jump_emits_immediately() {
    let base = 10_000u64;
    let mut t = PositionThrottle::new(base);
    assert!(t.should_emit(10_000, base));
    assert!(t.should_emit(40_000, base + 50));
}

#[test]
fn backward_jump_emits_immediately() {
    let base = 10_000u64;
    let mut t = PositionThrottle::new(base);
    assert!(t.should_emit(60_000, base));
    assert!(t.should_emit(30_000, base + 50));
}

#[test]
fn first_tick_ever_emits() {
    let mut t = PositionThrottle::new(10_000);
    assert!(t.should_emit(5_000, 10_000));
}

#[test]
fn register_result_succeeds_only_without_errors() {
    let ok = register_result(HotkeysConfig::default_config(), vec![]);
    assert!(ok.success);
    let bad = register_result(
        HotkeysConfig::default_config(),
        vec![(HotkeyAction::PlayPause, "taken".to_owned())],
    );
    assert!(!bad.success);
    assert_eq!(bad.errors.len(), 1);
}

#[test]
fn clock_readings_in_each_unit() {
    let r = Some((2u64, 345_678_901u32));
    assert_eq!(secs_of(r), 2);
    assert_eq!(millis_of(r), 2_345);
    assert_eq!(nanos_of(r), 2_345_678_901);
    assert_eq!(millis_of(None), 0);
    assert_eq!(secs_of(None), 0);
}

#[test]
fn play_window_reaches_back_from_now() {
    assert_eq!(play_window_start(1_000_000, 86_400), 913_600);
}

#[test]
fn a_failed_clear_keeps_the_configuration_in_force() {
    let mut current = HotkeysConfig::default_config();
    let new = HotkeysConfig { enabled: true, bindings: vec![(HotkeyAction::ShowApp, "F12".into())] };
    let r = apply_config(&mut current, new.clone(), false, vec![]);
    assert!(!r.success);
    assert!(!r.config.enabled && !current.enabled);
    assert!(r.errors.is_empty());
    let r = apply_config(&mut current, new, true, vec![Some("taken".into())]);
    assert!(!r.success);
    assert!(current.enabled && r.config.enabled);
    assert_eq!(current.bindings, vec![(HotkeyAction::ShowApp, "F12".to_owned())]);
    assert_eq!(r.errors, vec![(HotkeyAction::ShowApp, "taken".to_owned())]);
}

#[test]
fn a_disabled_or_blank_configuration_always_registers() {
    let mut current = HotkeysConfig::default_config();
    let off = HotkeysConfig { enabled: false, bindings: vec![(HotkeyAction::ShowApp, "F12".into())] };
    let r = apply_config(&mut current, off, true, vec![]);
    assert!(r.success && r.errors.is_empty());
    let blank = HotkeysConfig { enabled: true, bindings: vec![(HotkeyAction::ShowApp, "  ".into())] };
    let r = apply_config(&mut current, blank, true, vec![]);
    assert!(r.success && r.errors.is_empty());
    let two = HotkeysConfig {
        enabled: true,
        bindings: vec![(HotkeyAction::PlayPause, "Ctrl+P".into()), (HotkeyAction::ShowApp, "F12".into())],
    };
    let r = apply_config(&mut current, two, true, vec![None, Some("in use".into())]);
    assert_eq!(r.errors, vec![(HotkeyAction::ShowApp, "in use".to_owned())]);
}

#[test]
fn bare_keys_of_invalid_shortcuts_need_a_modifier() {
    let bare = ShortcutShape { ctrl: false, alt: false, super_key: false, function_key: false };
    assert!(check_shortcut("Space", bare).is_err());
    assert!(check_shortcut("A", bare).is_err());
    // Shift is no modifier that makes a global grab safe.
    assert!(check_shortcut("Shift+Enter", bare).is_err());
    assert!(check_shortcut("MediaPlayPause", bare).is_err());
}

#[test]
fn unix_seconds_of_a_reading() {
    assert_eq!(secs_i64_of(Some((1_700_000_000, 5))), 1_700_000_000);
    assert_eq!(secs_i64_of(None), 0);
    assert!(limusic::db::now_secs() > 1_600_000_000);
}

#[test]
fn put_stream_drops_entries_that_have_already_expired() {
    use_rules_for_the_stream_cache();
}

/// The store's sweep and lookup go by `stream_expired` and `stream_still_valid`.
fn use_rules_for_the_stream_cache() {
    // Rows written at t=900: "stale" expires at 1_000, "live" at 9_000.
    assert!(!stream_expired(1_000, 900) && !stream_expired(9_000, 900));
    assert!(stream_still_valid(1_000, 900), "not expired yet at t=900");
    // t=2000: writing anything sweeps "stale"; "live" and the fresh row stay.
    assert!(stream_expired(1_000, 2_000));
    assert!(!stream_still_valid(1_000, 2_000));
    assert!(!stream_expired(9_000, 2_000) && stream_still_valid(9_000, 2_000), "unexpired rows survive the sweep");
    assert!(!stream_expired(8_000, 2_000) && stream_still_valid(8_000, 2_000), "the row just written survives it");
}
