use beam_puzzle::config::{Config, LOGICAL_HEIGHT, LOGICAL_WIDTH};

#[test]
fn defaults_match_the_logical_playfield() {
    let c = Config::default();
    assert_eq!(c.width(), LOGICAL_WIDTH);
    assert_eq!(c.height(), LOGICAL_HEIGHT);
    assert_eq!(LOGICAL_WIDTH, 64 * 11);
    assert_eq!(LOGICAL_HEIGHT, 64 * 15);
    assert!(!c.fullscreen());
    assert_eq!(c.max_level(), 1);
}

#[test]
fn fullscreen_toggle_round_trips() {
    let mut c = Config::default();
    c.set_full_screen(true);
    assert!(c.fullscreen());
    c.set_full_screen(false);
    assert!(!c.fullscreen());
    assert_eq!(c.max_level(), 1);
}

#[test]
fn progress_never_goes_down() {
    let mut c = Config::default();
    c.increase_max_level(4);
    assert_eq!(c.max_level(), 4);
    c.increase_max_level(2);
    assert_eq!(c.max_level(), 4);
    c.increase_max_level(4);
    assert_eq!(c.max_level(), 4);
    c.increase_max_level(9);
    assert_eq!(c.max_level(), 9);
}

#[test]
fn parts_read_back() {
    let c = Config::new_from_parts(800, 600, true, 7);
    assert_eq!(c.width(), 800);
    assert_eq!(c.height(), 600);
    assert!(c.fullscreen());
    assert_eq!(c.max_level(), 7);
}
