use vstd::prelude::*;
use crate::tui_typing_state::{step, Progress, TuiTypingState};

verus! {

/// A key press, as the practice loop sees it.
#[derive(Clone, Copy, Debug, PartialEq, Eq, Structural)]
pub enum KeyInput {
    /// A character key; `control` is set when Control alone was held.
    Char { c: char, control: bool },
    /// The Enter key, which types a line feed.
    Enter,
    /// Any other key or event.
    Other,
}

/// What the practice loop does after a key was handled.
#[derive(Clone, Copy, Debug, PartialEq, Eq, Structural)]
pub enum LoopControl {
    Redraw,
    Stop,
}

/// Whether the key asks to leave the practice (Control+C).
pub open spec fn is_interrupt(key: KeyInput) -> bool {
    key == (KeyInput::Char { c: 'c', control: true })
}

/// The session after handling `key`.
pub open spec fn after_key(p: Progress, key: KeyInput) -> Progress {
    match key {
        KeyInput::Char { c, control } => if is_interrupt(key) {
            p
        } else {
            step(p, c)
        },
        KeyInput::Enter => step(p, '\n'),
        KeyInput::Other => p,
    }
}

impl TuiTypingState {
    /// Handles one key of the practice loop: Control+C stops it, a character
    /// or Enter is typed, and the loop stops once the text is typed.
    pub fn handle_key(&mut self, key: KeyInput) -> (r: LoopControl)
        requires
            old(self).wf(),
        ensures
            final(self).wf(),
            final(self)@ == after_key(old(self)@, key),
            r == (if is_interrupt(key) || final(self)@.current is None {
                LoopControl::Stop
            } else {
                LoopControl::Redraw
            }),
    {
        match key {
            KeyInput::Char { c, control } => {
                if control && c == 'c' {
                    return LoopControl::Stop;
                }
                self.update_state(c);
            },
            KeyInput::Enter => self.update_state('\n'),
            KeyInput::Other => {},
        }
        if self.is_complete() {
            LoopControl::Stop
        } else {
            LoopControl::Redraw
        }
    }
}

} // verus!
