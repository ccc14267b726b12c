use clipboard_investigator::clock::{clipboard_change_count, now_secs, secs_since_epoch_or_zero};
use clipboard_investigator::state::{ShowAction, TrayRefresh, WindowVisibility};

#[test]
fn first_tick_rebuilds() {
    let mut s = TrayRefresh::new();
    assert!(s.should_rebuild(1000, 5));
    assert_eq!(s.last_change_count, 5);
}

#[test]
fn unchanged_count_does_not_rebuild() {
    let mut s = TrayRefresh::new();
    assert!(s.should_rebuild(1000, 5));
    assert!(!s.should_rebuild(1002, 5));
    assert!(s.should_rebuild(1004, 6));
}

#[test]
fn open_menu_pauses_rebuilds() {
    let mut s = TrayRefresh::new();
    assert!(s.should_rebuild(1000, 5));
    s.menu_opened(1001);
    assert!(!s.should_rebuild(1001, 6));
    assert!(!s.should_rebuild(1010, 6));
    assert_eq!(s.last_change_count, 5);
    assert!(s.should_rebuild(1011, 6));
}

#[test]
fn closing_the_menu_resumes_rebuilds() {
    let mut s = TrayRefresh::new();
    s.menu_opened(2000);
    assert!(!s.should_rebuild(2001, 1));
    s.menu_closed();
    assert!(s.should_rebuild(2002, 1));
}

#[test]
fn clock_going_back_keeps_menu_open() {
    let mut s = TrayRefresh::new();
    s.menu_opened(2000);
    assert!(!s.should_rebuild(1500, 1));
}

#[test]
fn forgetting_the_count_forces_a_rebuild() {
    let mut s = TrayRefresh::new();
    assert!(s.should_rebuild(10, 3));
    s.forget_change_count();
    assert!(s.should_rebuild(12, 3));
}

#[test]
fn largest_count_matches_the_initial_state() {
    let mut s = TrayRefresh::new();
    assert!(!s.should_rebuild(10, u64::MAX));
}

#[test]
fn window_show_and_hide() {
    let mut w = WindowVisibility::new();
    assert_eq!(w.show_window(), ShowAction::Focus);
    assert!(w.hide_window());
    assert!(!w.visible);
    assert!(!w.hide_window());
    assert_eq!(w.show_window(), ShowAction::Reveal);
    assert!(w.visible);
    assert_eq!(w.show_window(), ShowAction::Focus);
}

#[test]
fn change_count_values() {
    assert_eq!(clipboard_change_count(None), 0);
    assert_eq!(clipboard_change_count(Some(42)), 42);
    assert_eq!(clipboard_change_count(Some(-1)), u64::MAX);
}

#[test]
fn clock_is_after_2020() {
    assert!(now_secs() > 1_577_836_800);
}

#[test]
fn tick_in_two_steps() {
    let mut s = TrayRefresh::new();
    s.menu_opened(500);
    assert!(s.skips_tick(505));
    assert!(!s.skips_tick(510));
    assert!(s.note_change_count(9));
    assert_eq!(s.last_change_count, 9);
    assert!(!s.note_change_count(9));
    assert_eq!(s.menu_opened_at, 500);
}

#[test]
fn clock_before_epoch_shows_zero() {
    assert_eq!(secs_since_epoch_or_zero(None), 0);
    assert_eq!(secs_since_epoch_or_zero(Some(1_700_000_000)), 1_700_000_000);
}
