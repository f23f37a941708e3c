//! Decisions of the live view: what a key event does to the running display.

use vstd::prelude::*;

verus! {

/// How a key event came about.
#[derive(Clone, Copy, PartialEq, Eq, Debug, Structural)]
pub enum KeyAction {
    Press,
    Repeat,
    Release,
}

/// Which key an event is about, as far as the live view tells keys apart.
#[derive(Clone, Copy, PartialEq, Eq, Debug, Structural)]
pub enum Key {
    Char(char),
    Esc,
    Other,
}

/// What the live view does next.
#[derive(Clone, Copy, PartialEq, Eq, Debug, Structural)]
pub enum Step {
    /// Keep redrawing.
    Continue,
    /// Leave the live view.
    Quit,
}

/// The step after a key event: pressing `q` or Esc quits; anything else keeps the view running.
pub fn step_on_key(action: KeyAction, key: Key) -> (r: Step)
    ensures
        (r == Step::Quit) <==> (action == KeyAction::Press && (key == Key::Char('q') || key
            == Key::Esc)),
{
    match action {
        KeyAction::Press => match key {
            Key::Char(c) => if c == 'q' { Step::Quit } else { Step::Continue },
            Key::Esc => Step::Quit,
            Key::Other => Step::Continue,
        },
        _ => Step::Continue,
    }
}

} // verus!
