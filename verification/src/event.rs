use vstd::prelude::*;

verus! {

/// The mouse button of a press, as far as the game distinguishes them.
#[derive(Clone, Copy, Debug, PartialEq, Eq, Structural)]
pub enum Button {
    Left,
    Right,
}

/// One abstract input event, as the surrounding input loop delivers it:
/// a key press, a mouse press at terminal character coordinates, or
/// anything else, which every handler ignores.
#[derive(Clone, Copy, Debug, PartialEq, Eq, Structural)]
pub enum Event {
    KeyPress(char),
    MousePress(Button, u16, u16),
    Other,
}

/// The active screen. `Quit` is terminal: the run loop stops once it sees it.
#[derive(Clone, Copy, Debug, PartialEq, Eq, Structural)]
pub enum Page {
    Homescreen,
    Gamescreen,
    Gameover,
    Quit,
}

} // verus!
