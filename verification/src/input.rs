//! Line-editor state for the composer and the search box, and the key model
//! the interaction layer dispatches on. Cursor positions count characters.

use vstd::prelude::*;

use crate::text::{chars_to_string, str_chars};

verus! {

/// One key press, with the modifiers the bindings distinguish.
#[derive(Debug, Clone, Copy, PartialEq, Eq, Structural)]
pub struct KeyInput {
    pub code: KeyCode,
    pub ctrl: bool,
    pub shift: bool,
}

/// The key classes the bindings distinguish.
#[derive(Debug, Clone, Copy, PartialEq, Eq, Structural)]
pub enum KeyCode {
    Char(char),
    Backspace,
    Left,
    Right,
    Home,
    End,
    Enter,
    Esc,
    Tab,
    Up,
    Down,
    PageUp,
    PageDown,
    Function(u8),
}

impl KeyInput {
    /// A key press without modifiers.
    pub fn plain(code: KeyCode) -> (r: Self)
        ensures
            r == (KeyInput { code, ctrl: false, shift: false }),
    {
        KeyInput { code, ctrl: false, shift: false }
    }
}

/// The text being composed and the cursor within it, as a character index.
#[derive(Debug, PartialEq, Eq)]
pub struct InputState {
    pub text: String,
    pub cursor: usize,
}

impl Clone for InputState {
    fn clone(&self) -> (res: Self)
        ensures
            res == *self,
    {
        InputState { text: self.text.clone(), cursor: self.cursor }
    }
}

impl Default for InputState {
    fn default() -> (r: Self)
        ensures
            r.text@ == Seq::<char>::empty(),
            r.cursor == 0,
    {
        InputState { text: String::new(), cursor: 0 }
    }
}

impl InputState {
    /// The cursor sits inside the text.
    pub open spec fn wf(&self) -> bool {
        self.cursor <= self.text@.len()
    }

    /// Pulls the cursor back inside the text.
    pub fn clamp_cursor(&mut self)
        ensures
            final(self).wf(),
            final(self).text == old(self).text,
            final(self).cursor == if old(self).cursor <= old(self).text@.len() {
                old(self).cursor as int
            } else {
                old(self).text@.len() as int
            },
    {
        let chars = str_chars(self.text.as_str());
        let len = chars.len();
        if self.cursor > len {
            self.cursor = len;
        }
    }
}

/// What one key does to a line editor: insert at the cursor, delete before
/// it, or move it; control-modified characters are ignored.
pub fn handle_key(state: &mut InputState, key: KeyInput) -> (handled: bool)
    requires
        old(state).wf(),
    ensures
        final(state).wf(),
        match key.code {
            KeyCode::Char(c) => if key.ctrl {
                !handled && *final(state) == *old(state)
            } else {
                handled && final(state).text@ == old(state).text@.take(
                    old(state).cursor as int,
                ).push(c) + old(state).text@.skip(old(state).cursor as int) && final(state).cursor
                    == old(state).cursor + 1
            },
            KeyCode::Backspace => handled && if old(state).cursor > 0 {
                final(state).text@ == old(state).text@.take(old(state).cursor - 1) + old(
                    state,
                ).text@.skip(old(state).cursor as int) && final(state).cursor == old(state).cursor
                    - 1
            } else {
                *final(state) == *old(state)
            },
            KeyCode::Left => handled && final(state).text == old(state).text && final(state).cursor
                == if old(state).cursor > 0 {
                old(state).cursor - 1
            } else {
                0int
            },
            KeyCode::Right => handled && final(state).text == old(state).text
                && final(state).cursor == if old(state).cursor < old(state).text@.len() {
                old(state).cursor + 1
            } else {
                old(state).text@.len() as int
            },
            KeyCode::Home => handled && final(state).text == old(state).text && final(state).cursor
                == 0,
            KeyCode::End => handled && final(state).text == old(state).text && final(state).cursor
                == old(state).text@.len(),
            _ => !handled && *final(state) == *old(state),
        },
{
    match key.code {
        KeyCode::Char(c) => {
            if key.ctrl {
                return false;
            }
            let mut chars = str_chars(self_text(state));
            chars.insert(state.cursor, c);
            let new_len = chars.len();
            proof {
                assert(state.cursor < new_len);
            }
            let rebuilt = chars_to_string(&chars);
            proof {
                assert(chars@ =~= old(state).text@.take(old(state).cursor as int).push(c) + old(
                    state,
                ).text@.skip(old(state).cursor as int));
            }
            state.text = rebuilt;
            state.cursor = state.cursor + 1;
            true
        },
        KeyCode::Backspace => {
            if state.cursor > 0 {
                let mut chars = str_chars(self_text(state));
                state.cursor = state.cursor - 1;
                chars.remove(state.cursor);
                proof {
                    assert(chars@ =~= old(state).text@.take(old(state).cursor - 1) + old(
                        state,
                    ).text@.skip(old(state).cursor as int));
                }
                state.text = chars_to_string(&chars);
            }
            true
        },
        KeyCode::Left => {
            if state.cursor > 0 {
                state.cursor = state.cursor - 1;
            }
            true
        },
        KeyCode::Right => {
            let chars = str_chars(self_text(state));
            if state.cursor < chars.len() {
                state.cursor = state.cursor + 1;
            }
            true
        },
        KeyCode::Home => {
            state.cursor = 0;
            true
        },
        KeyCode::End => {
            let chars = str_chars(self_text(state));
            state.cursor = chars.len();
            true
        },
        _ => false,
    }
}

/// Reads the text of a state; a helper so borrows stay local.
fn self_text(state: &InputState) -> (r: &str)
    ensures
        r@ == state.text@,
{
    state.text.as_str()
}

} // verus!
