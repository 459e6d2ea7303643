use echotype_core::hotkey::{HotkeyMachine, HotkeyConfig, GestureState, Notification,
    fn_key_down, combo_active, is_paste_shortcut, classify_event, EventClass, FN_FLAG_MASK,
    SHIFT_FLAG, CTRL_FLAG, CMD_FLAG, EVENT_FLAGS_CHANGED, EVENT_KEY_DOWN, EVENT_TAP_DISABLED};

fn fresh() -> HotkeyMachine {
    HotkeyMachine::new(HotkeyConfig::default())
}

#[test]
fn config_defaults() {
    let c = HotkeyConfig::default();
    assert_eq!(c.hold_threshold_ms, 300);
    assert_eq!(c.min_valid_ms, 500);
    assert_eq!(c.debounce_ms, 50);
}

#[test]
fn short_press_is_a_tap() {
    let mut m = fresh();
    let (n1, sched) = m.on_flags_changed(1000, true, false);
    assert!(n1.is_empty());
    let episode = sched.expect("the down event schedules the delayed check");
    assert_eq!(m.state, GestureState::Pending);
    let (n2, _) = m.on_flags_changed(1100, false, false);
    assert_eq!(n2, vec![Notification::Tap]);
    assert_eq!(m.state, GestureState::Idle);
    // The delayed check fires later and must confirm nothing.
    assert_eq!(m.on_timer_fire(episode), None);
}

#[test]
fn hold_released_too_soon_is_too_short() {
    let mut m = fresh();
    let (_, sched) = m.on_flags_changed(0, true, false);
    let episode = sched.unwrap();
    // The check fires at the threshold and confirms the hold.
    assert_eq!(m.on_timer_fire(episode), Some(Notification::HoldConfirmed));
    assert_eq!(m.state, GestureState::Holding);
    let (n, _) = m.on_flags_changed(350, false, false);
    assert_eq!(n, vec![Notification::HoldEndedTooShort]);
    assert_eq!(m.state, GestureState::Idle);
}

#[test]
fn long_hold_is_valid() {
    let mut m = fresh();
    let (_, sched) = m.on_flags_changed(0, true, false);
    assert_eq!(m.on_timer_fire(sched.unwrap()), Some(Notification::HoldConfirmed));
    let (n, _) = m.on_flags_changed(600, false, false);
    assert_eq!(n, vec![Notification::HoldEndedValid]);
}

#[test]
fn boundary_at_minimum_valid_duration() {
    let mut m = fresh();
    let (_, sched) = m.on_flags_changed(0, true, false);
    let _ = m.on_timer_fire(sched.unwrap());
    let (n, _) = m.on_flags_changed(500, false, false);
    assert_eq!(n, vec![Notification::HoldEndedValid], "exactly the minimum counts");
}

#[test]
fn cancellation_race_emits_only_the_tap() {
    // Up at 299, the delayed check at 300: the cancellation flag set by
    // the up event silences the check.
    let mut m = fresh();
    let (_, sched) = m.on_flags_changed(0, true, false);
    let (n, _) = m.on_flags_changed(299, false, false);
    assert_eq!(n, vec![Notification::Tap]);
    assert_eq!(m.on_timer_fire(sched.unwrap()), None, "no hold confirmation after the tap");
    assert_eq!(m.state, GestureState::Idle);
}

#[test]
fn combo_down_never_starts_a_gesture() {
    let mut m = fresh();
    let (n, sched) = m.on_flags_changed(1000, true, true);
    assert!(n.is_empty());
    assert!(sched.is_none());
    assert_eq!(m.state, GestureState::Idle);
    // However long it is held, no tap and no hold confirmation follow.
    assert_eq!(m.on_timer_fire(m.episode), None);
    let (n2, _) = m.on_flags_changed(2000, false, false);
    assert!(n2.is_empty());
}

#[test]
fn combo_during_pending_cancels_silently() {
    let mut m = fresh();
    let (_, first) = m.on_flags_changed(0, true, false);
    let (n, sched) = m.on_flags_changed(100, true, true);
    assert!(n.is_empty());
    assert!(sched.is_none());
    assert_eq!(m.state, GestureState::Idle);
    assert_eq!(m.on_timer_fire(first.unwrap()), None, "the pending check was invalidated");
}

#[test]
fn combo_during_holding_reports_the_cancellation() {
    let mut m = fresh();
    let (_, sched) = m.on_flags_changed(0, true, false);
    let _ = m.on_timer_fire(sched.unwrap());
    let (n, _) = m.on_flags_changed(400, true, true);
    assert_eq!(n, vec![Notification::CancelledCombo]);
    assert_eq!(m.state, GestureState::Idle);
}

#[test]
fn debounce_collapses_close_events() {
    let mut m = fresh();
    let _ = m.on_flags_changed(1000, true, false);
    // 49 units later: ignored outright, whatever it says.
    let (n, sched) = m.on_flags_changed(1049, false, false);
    assert!(n.is_empty());
    assert!(sched.is_none());
    assert_eq!(m.state, GestureState::Pending, "only the first event affected state");
    // 50 units later: accepted.
    let (n2, _) = m.on_flags_changed(1050, false, false);
    assert_eq!(n2, vec![Notification::Tap]);
}

#[test]
fn other_key_during_pending_cancels_silently() {
    let mut m = fresh();
    let (_, sched) = m.on_flags_changed(0, true, false);
    let n = m.on_other_key(false);
    assert!(n.is_empty());
    assert_eq!(m.state, GestureState::Idle);
    assert_eq!(m.on_timer_fire(sched.unwrap()), None);
}

#[test]
fn other_key_during_holding_reports_the_cancellation() {
    let mut m = fresh();
    let (_, sched) = m.on_flags_changed(0, true, false);
    let _ = m.on_timer_fire(sched.unwrap());
    let n = m.on_other_key(false);
    assert_eq!(n, vec![Notification::CancelledOtherKey]);
    assert_eq!(m.state, GestureState::Idle);
}

#[test]
fn paste_shortcut_fires_in_any_state() {
    let mut m = fresh();
    assert_eq!(m.on_other_key(true), vec![Notification::PasteShortcut]);
    let _ = m.on_flags_changed(0, true, false);
    assert_eq!(m.on_other_key(true), vec![Notification::PasteShortcut]);
    assert_eq!(m.state, GestureState::Pending, "the shortcut does not touch the gesture");
}

#[test]
fn flag_words() {
    assert!(fn_key_down(FN_FLAG_MASK));
    assert!(!fn_key_down(SHIFT_FLAG));
    assert!(combo_active(SHIFT_FLAG | FN_FLAG_MASK));
    assert!(!combo_active(FN_FLAG_MASK));
    assert!(is_paste_shortcut(0x09, CMD_FLAG | CTRL_FLAG));
    assert!(!is_paste_shortcut(0x09, CMD_FLAG));
    assert!(!is_paste_shortcut(0x0a, CMD_FLAG | CTRL_FLAG));
}

#[test]
fn stale_check_never_confirms_a_newer_gesture() {
    // Press (first episode), tap, press again (second episode): the
    // first episode's still-sleeping check fires after the second press
    // and must not confirm the new gesture early.
    let mut m = fresh();
    let (_, first) = m.on_flags_changed(0, true, false);
    let first = first.unwrap();
    let (n, _) = m.on_flags_changed(100, false, false);
    assert_eq!(n, vec![Notification::Tap]);
    let (_, second) = m.on_flags_changed(200, true, false);
    let second = second.unwrap();
    assert_ne!(first, second);
    // The first episode's check fires at 300, mid-way into the new
    // gesture: a no-op.
    assert_eq!(m.on_timer_fire(first), None);
    assert_eq!(m.state, GestureState::Pending, "the new gesture is untouched");
    // Only the new episode's own check confirms it, at 500.
    assert_eq!(m.on_timer_fire(second), Some(Notification::HoldConfirmed));
    assert_eq!(m.state, GestureState::Holding);
}

#[test]
fn event_classification() {
    assert_eq!(classify_event(EVENT_TAP_DISABLED), EventClass::ReenableTap);
    assert_eq!(classify_event(EVENT_KEY_DOWN), EventClass::KeyDown);
    assert_eq!(classify_event(EVENT_FLAGS_CHANGED), EventClass::FlagsChanged);
    assert_eq!(classify_event(3), EventClass::Other);
}
