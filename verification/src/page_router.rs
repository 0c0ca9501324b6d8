use vstd::prelude::*;
use crate::config::Config;
use crate::ui::{ButtonState, PageAction, PageName};

verus! {

/// A page pushed aside by `VisitPage`, with the bookkeeping needed to
/// freeze its clock while it is covered: when it was effectively entered,
/// and when it was stacked.
#[derive(Clone, Copy, Debug, PartialEq, Eq, Structural)]
pub struct PageStackEntry {
    pub page: PageName,
    pub time_effective_entered_page: u64,
    pub time_page_stacked: u64,
}

/// What the host must do after an action is routed: enter a page (its
/// `enter` hook runs outside), apply a fullscreen choice to the window,
/// or persist the settings.
#[derive(Clone, Copy, Debug, PartialEq, Eq, Structural)]
pub struct ActionOutcome {
    pub enter_page: Option<PageName>,
    pub set_full_screen: Option<bool>,
    pub save_config: bool,
}

pub open spec fn spec_no_outcome() -> ActionOutcome {
    ActionOutcome { enter_page: None, set_full_screen: None, save_config: false }
}

/// The page router: which page is current, the stack of covered pages
/// behind it, the effective entry time of the current page, whether the
/// application should exit, and the settings it guards. A covered page's
/// clock is frozen: on `Back`, its effective entry time moves forward by
/// exactly the time it spent covered, so its own elapsed time continues
/// where it stopped.
pub struct PageRouter {
    pub current_page: PageName,
    pub should_exit: bool,
    pub page_stack: Vec<PageStackEntry>,
    pub time_effective_entered_page: u64,
    pub config: Config,
}

impl PageRouter {
    /// Times are consistent with a monotonic clock reading at least
    /// `now_ms`: nothing was entered or stacked in the future, and no
    /// entry was entered after it was stacked.
    pub open spec fn wf(self, now_ms: u64) -> bool {
        &&& self.time_effective_entered_page <= now_ms
        &&& forall|i: int|
            0 <= i < self.page_stack@.len() ==> {
                let e = #[trigger] self.page_stack@[i];
                e.time_effective_entered_page <= e.time_page_stacked && e.time_page_stacked
                    <= now_ms
            }
    }

    pub fn new(start_page: PageName, config: Config, now_ms: u64) -> (r: PageRouter)
        ensures
            r.wf(now_ms),
            r.current_page == start_page,
            !r.should_exit,
            r.page_stack@ == Seq::<PageStackEntry>::empty(),
            r.time_effective_entered_page == now_ms,
            r.config == config,
    {
        PageRouter {
            current_page: start_page,
            should_exit: false,
            page_stack: Vec::new(),
            time_effective_entered_page: now_ms,
            config,
        }
    }

    pub fn should_exit(&self) -> (b: bool)
        ensures
            b == self.should_exit,
    {
        self.should_exit
    }

    /// How long the current page has effectively been showing.
    pub fn time_in_page(&self, now_ms: u64) -> (t: u64)
        requires
            self.wf(now_ms),
        ensures
            t == now_ms - self.time_effective_entered_page,
    {
        now_ms - self.time_effective_entered_page
    }

    /// Routes one action. `Exit` raises the exit flag; `VisitPage` stacks
    /// the current page with its frozen clock and makes the named page
    /// current from `now_ms`; `Back` pops the last stacked page and lets
    /// its clock continue where it stopped; `SetFullScreen` and the
    /// progress of `OpenLevel` are for the host's window and settings —
    /// the settings change is applied here, saving is the host's part.
    pub fn handle_page_action(&mut self, action: PageAction, now_ms: u64) -> (out: ActionOutcome)
        requires
            old(self).wf(now_ms),
            action == PageAction::Back ==> old(self).page_stack@.len() > 0,
        ensures
            final(self).wf(now_ms),
            final(self).config.spec_width() == old(self).config.spec_width(),
            final(self).config.spec_height() == old(self).config.spec_height(),
            final(self).config.spec_fullscreen() == old(self).config.spec_fullscreen(),
            match action {
                PageAction::NoAction => *final(self) == *old(self) && out == spec_no_outcome(),
                PageAction::Exit => *final(self) == (PageRouter {
                    should_exit: true,
                    ..*old(self)
                }) && out == spec_no_outcome(),
                PageAction::VisitPage(new_page) => {
                    &&& final(self).current_page == new_page
                    &&& final(self).page_stack@ == old(self).page_stack@.push(
                        PageStackEntry {
                            page: old(self).current_page,
                            time_effective_entered_page: old(self).time_effective_entered_page,
                            time_page_stacked: now_ms,
                        },
                    )
                    &&& final(self).time_effective_entered_page == now_ms
                    &&& final(self).should_exit == old(self).should_exit
                    &&& final(self).config == old(self).config
                    &&& out == (ActionOutcome {
                        enter_page: Some(new_page),
                        set_full_screen: None,
                        save_config: false,
                    })
                },
                PageAction::Back => {
                    let e = old(self).page_stack@.last();
                    &&& final(self).current_page == e.page
                    &&& final(self).page_stack@ == old(self).page_stack@.drop_last()
                    &&& final(self).time_effective_entered_page == e.time_effective_entered_page
                        + (now_ms - e.time_page_stacked)
                    &&& final(self).should_exit == old(self).should_exit
                    &&& final(self).config == old(self).config
                    &&& out == spec_no_outcome()
                },
                PageAction::SetFullScreen(full_screen) => *final(self) == *old(self) && out == (
                ActionOutcome {
                    enter_page: None,
                    set_full_screen: Some(full_screen),
                    save_config: false,
                }),
                PageAction::OpenLevel(level_opened) => {
                    &&& final(self).config.spec_max_level() == (if level_opened > old(
                        self,
                    ).config.spec_max_level() {
                        level_opened
                    } else {
                        old(self).config.spec_max_level()
                    })
                    &&& final(self).current_page == old(self).current_page
                    &&& final(self).page_stack@ == old(self).page_stack@
                    &&& final(self).time_effective_entered_page == old(
                        self,
                    ).time_effective_entered_page
                    &&& final(self).should_exit == old(self).should_exit
                    &&& out == (ActionOutcome {
                        enter_page: None,
                        set_full_screen: None,
                        save_config: true,
                    })
                },
            },
    {
        match action {
            PageAction::NoAction => ActionOutcome {
                enter_page: None,
                set_full_screen: None,
                save_config: false,
            },
            PageAction::Exit => {
                self.should_exit = true;
                ActionOutcome { enter_page: None, set_full_screen: None, save_config: false }
            },
            PageAction::VisitPage(new_page) => {
                self.page_stack.push(
                    PageStackEntry {
                        page: self.current_page,
                        time_effective_entered_page: self.time_effective_entered_page,
                        time_page_stacked: now_ms,
                    },
                );
                self.current_page = new_page;
                self.time_effective_entered_page = now_ms;
                ActionOutcome {
                    enter_page: Some(new_page),
                    set_full_screen: None,
                    save_config: false,
                }
            },
            PageAction::Back => {
                let entry = self.page_stack.pop().unwrap();
                self.current_page = entry.page;
                self.time_effective_entered_page = entry.time_effective_entered_page + (now_ms
                    - entry.time_page_stacked);
                ActionOutcome { enter_page: None, set_full_screen: None, save_config: false }
            },
            PageAction::SetFullScreen(full_screen) => ActionOutcome {
                enter_page: None,
                set_full_screen: Some(full_screen),
                save_config: false,
            },
            PageAction::OpenLevel(level_opened) => {
                self.config.increase_max_level(level_opened);
                ActionOutcome { enter_page: None, set_full_screen: None, save_config: true }
            },
        }
    }
}

/// How a button's edge state decays once a frame has seen it: a fresh
/// press becomes held, a fresh release becomes idle.
pub fn settle_button_state(b: ButtonState) -> (r: ButtonState)
    ensures
        r == (match b {
            ButtonState::PressedDown => ButtonState::Down,
            ButtonState::ReleasedUp => ButtonState::Up,
            _ => b,
        }),
{
    match b {
        ButtonState::PressedDown => ButtonState::Down,
        ButtonState::ReleasedUp => ButtonState::Up,
        ButtonState::Up => ButtonState::Up,
        ButtonState::Down => ButtonState::Down,
    }
}

} // verus!
