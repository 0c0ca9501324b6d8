use vstd::prelude::*;
use crate::geom::Vec2i;

verus! {

/// The pages the application can show.
#[derive(Clone, Copy, Debug, PartialEq, Eq, Structural, Hash)]
pub enum PageName {
    MainMenu,
    Settings,
    Game,
}

/// What an interaction asks the page manager to do, returned as a plain
/// value so the caller decides how to react.
#[derive(Clone, Copy, Debug, PartialEq, Eq, Structural, Hash)]
pub enum PageAction {
    NoAction,
    Exit,
    /// Visit a page; `Back` returns to the previous one.
    VisitPage(PageName),
    /// Return to the page stacked by the last `VisitPage`.
    Back,
    SetFullScreen(bool),
    /// A new level was reached; the saved progress should record it.
    OpenLevel(u32),
}

/// Where a mouse button is within its press/release cycle.
#[derive(Clone, Copy, Debug, PartialEq, Eq, Structural)]
pub enum ButtonState {
    Up,
    PressedDown,
    Down,
    ReleasedUp,
}

/// The pointer state a frame sees: position in logical units and the
/// button edge/level state.
pub struct MouseState {
    pub pos: Vec2i,
    pub button_state: ButtonState,
}

impl MouseState {
    pub fn new(pos: Vec2i, button_state: ButtonState) -> (m: MouseState)
        ensures
            m.pos == pos,
            m.button_state == button_state,
    {
        MouseState { pos, button_state }
    }
}

} // verus!
