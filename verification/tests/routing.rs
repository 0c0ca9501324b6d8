use beam_puzzle::config::Config;
use beam_puzzle::page_router::{settle_button_state, PageRouter};
use beam_puzzle::ui::{ButtonState, PageAction, PageName};

#[test]
fn visiting_a_page_freezes_the_covered_clock() {
    let mut r = PageRouter::new(PageName::MainMenu, Config::default(), 1000);
    assert_eq!(r.time_in_page(2000), 1000);
    let out = r.handle_page_action(PageAction::VisitPage(PageName::Game), 2000);
    assert_eq!(out.enter_page, Some(PageName::Game));
    assert_eq!(r.current_page, PageName::Game);
    assert_eq!(r.time_in_page(2500), 500);
    // back at 5000: the menu was covered for 3000 ms, its own clock kept
    // standing at the 1000 ms it had reached
    r.handle_page_action(PageAction::Back, 5000);
    assert_eq!(r.current_page, PageName::MainMenu);
    assert_eq!(r.time_in_page(5000), 1000);
}

#[test]
fn nested_visits_unwind_in_order() {
    let mut r = PageRouter::new(PageName::MainMenu, Config::default(), 0);
    r.handle_page_action(PageAction::VisitPage(PageName::Game), 10);
    r.handle_page_action(PageAction::VisitPage(PageName::Settings), 20);
    assert_eq!(r.current_page, PageName::Settings);
    r.handle_page_action(PageAction::Back, 30);
    assert_eq!(r.current_page, PageName::Game);
    r.handle_page_action(PageAction::Back, 40);
    assert_eq!(r.current_page, PageName::MainMenu);
}

#[test]
fn exit_raises_the_flag_and_nothing_else() {
    let mut r = PageRouter::new(PageName::MainMenu, Config::default(), 0);
    assert!(!r.should_exit());
    let out = r.handle_page_action(PageAction::Exit, 5);
    assert!(r.should_exit());
    assert_eq!(out.enter_page, None);
    assert!(!out.save_config);
}

#[test]
fn open_level_records_progress_and_asks_for_a_save() {
    let mut r = PageRouter::new(PageName::Game, Config::default(), 0);
    let out = r.handle_page_action(PageAction::OpenLevel(3), 5);
    assert!(out.save_config);
    assert_eq!(r.config.max_level(), 3);
    // progress never drops
    r.handle_page_action(PageAction::OpenLevel(2), 6);
    assert_eq!(r.config.max_level(), 3);
}

#[test]
fn fullscreen_request_is_handed_to_the_host() {
    let mut r = PageRouter::new(PageName::Settings, Config::default(), 0);
    let out = r.handle_page_action(PageAction::SetFullScreen(true), 5);
    assert_eq!(out.set_full_screen, Some(true));
    // the router's own settings change only once the host confirms
    assert!(!r.config.fullscreen());
}

#[test]
fn no_action_changes_nothing() {
    let mut r = PageRouter::new(PageName::MainMenu, Config::default(), 0);
    let out = r.handle_page_action(PageAction::NoAction, 5);
    assert_eq!(out.enter_page, None);
    assert_eq!(out.set_full_screen, None);
    assert!(!out.save_config);
    assert_eq!(r.current_page, PageName::MainMenu);
}

#[test]
fn button_edges_settle_into_levels() {
    assert_eq!(
        settle_button_state(ButtonState::PressedDown),
        ButtonState::Down
    );
    assert_eq!(settle_button_state(ButtonState::ReleasedUp), ButtonState::Up);
    assert_eq!(settle_button_state(ButtonState::Down), ButtonState::Down);
    assert_eq!(settle_button_state(ButtonState::Up), ButtonState::Up);
}
