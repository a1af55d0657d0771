//! The state of the terminal front end.

use vstd::prelude::*;

verus! {

/// The pane of the front end that has the focus.
pub enum CurrentScreen {
    Left,
    Middle,
    Right,
}

/// The front end's state.
pub struct App {
    /// The pane that is active.
    pub current_screen: CurrentScreen,
}

impl Default for CurrentScreen {
    /// The front end opens on the left pane.
    fn default() -> (screen: Self)
        ensures
            screen == CurrentScreen::Left,
    {
        CurrentScreen::Left
    }
}

impl Default for App {
    fn default() -> (app: Self)
        ensures
            app.current_screen == CurrentScreen::Left,
    {
        App { current_screen: CurrentScreen::default() }
    }
}

} // verus!
