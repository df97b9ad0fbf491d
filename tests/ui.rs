use life_runner::{Bool, FpsCounter, UiState, UserEvent};

#[test]
fn ui_state_starts_windowed_with_vsync() {
    let s = UiState::new();
    assert_eq!(*s.fps(), 0);
    assert!(s.vsync);
    assert!(!s.fullscreen);
    assert!(!s.is_fullscreen());
    let d = UiState::default();
    assert_eq!(*d.fps(), 0);
    assert!(d.vsync);
}

#[test]
fn fullscreen_reports_what_was_set() {
    let mut s = UiState::new();
    s.fullscreen = true;
    assert!(!s.is_fullscreen());
    s.fullscreen_set = true;
    assert!(s.is_fullscreen());
    s.fps = 60;
    assert_eq!(*s.fps(), 60);
}

#[test]
fn bool_round_trips_through_a_word() {
    assert_eq!(Bool::from(true).value, 1);
    assert_eq!(Bool::from(false).value, 0);
    assert!(bool::from(Bool { value: 7 }));
    assert!(!bool::from(Bool { value: 0 }));
}

#[test]
fn fps_counts_the_last_second() {
    let mut f = FpsCounter::new();
    assert_eq!(f.tick_at(0), 1);
    assert_eq!(f.tick_at(500_000), 2);
    assert_eq!(f.tick_at(1_000_000), 3);
    assert_eq!(f.tick_at(1_000_001), 3);
    assert_eq!(f.tick_at(3_000_000), 1);
    assert_eq!(f.tick_at(u128::MAX), 1);
}

#[test]
fn fps_tick_reads_the_clock() {
    let mut f = FpsCounter::new();
    assert_eq!(f.tick(), 1);
    assert_eq!(f.tick(), 2);
}

#[test]
fn user_event_carries_vsync() {
    assert_eq!(UserEvent::SetVSync(true), UserEvent::SetVSync(true));
    assert_ne!(UserEvent::SetVSync(true), UserEvent::SetVSync(false));
}
