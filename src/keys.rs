//! Key bindings: which action a key press asks for, and what the action does
//! to the session.
use vstd::prelude::*;

use crate::app::prompt_block;
use crate::app::save_spec;
use crate::app::select_next_spec;
use crate::app::select_previous_spec;
use crate::app::App;
use crate::app::PAGE_SCROLL;
use crate::store::BufferView;
use crate::text::word_left;
use crate::text::word_right;

verus! {

/// A key, as far as the bindings tell keys apart.
#[derive(Clone, Copy, Debug, PartialEq, Eq)]
pub enum Key {
    Char(char),
    Enter,
    Backspace,
    Delete,
    Left,
    Right,
    Home,
    End,
    Up,
    Down,
    PageUp,
    PageDown,
    Other,
}

/// What a key press asks for.
#[derive(Clone, Copy, Debug, PartialEq, Eq)]
pub enum KeyAction {
    Quit,
    ClearHistory,
    ToggleAutoscroll,
    PreviousModel,
    NextModel,
    ScrollUp,
    ScrollDown,
    Submit,
    Insert(char),
    Backspace,
    DeleteForward,
    DeleteWordLeft,
    DeleteWordRight,
    Left,
    Right,
    WordLeft,
    WordRight,
    Home,
    End,
    Ignore,
}

/// What the event loop does next.
#[derive(Clone, Copy, Debug, PartialEq, Eq)]
pub enum KeyOutcome {
    Continue,
    Quit,
    /// Start an exchange with the current input.
    Submit,
}

/// The binding of `key`, with or without Control held.
pub open spec fn key_action_spec(key: Key, ctrl: bool) -> KeyAction {
    match key {
        Key::Char(c) => if !ctrl {
            KeyAction::Insert(c)
        } else if c == 'q' {
            KeyAction::Quit
        } else if c == 'c' {
            KeyAction::ClearHistory
        } else if c == 's' {
            KeyAction::ToggleAutoscroll
        } else if c == 'w' {
            KeyAction::DeleteWordLeft
        } else {
            KeyAction::Ignore
        },
        Key::Up => KeyAction::PreviousModel,
        Key::Down => KeyAction::NextModel,
        Key::PageUp => KeyAction::ScrollUp,
        Key::PageDown => KeyAction::ScrollDown,
        Key::Enter => KeyAction::Submit,
        Key::Backspace => if ctrl {
            KeyAction::DeleteWordLeft
        } else {
            KeyAction::Backspace
        },
        Key::Delete => if ctrl {
            KeyAction::DeleteWordRight
        } else {
            KeyAction::DeleteForward
        },
        Key::Left => if ctrl {
            KeyAction::WordLeft
        } else {
            KeyAction::Left
        },
        Key::Right => if ctrl {
            KeyAction::WordRight
        } else {
            KeyAction::Right
        },
        Key::Home => KeyAction::Home,
        Key::End => KeyAction::End,
        Key::Other => KeyAction::Ignore,
    }
}

/// The action bound to `key`.
pub fn key_action(key: Key, ctrl: bool) -> (r: KeyAction)
    ensures
        r == key_action_spec(key, ctrl),
{
    match key {
        Key::Char(c) => {
            if !ctrl {
                KeyAction::Insert(c)
            } else if c == 'q' {
                KeyAction::Quit
            } else if c == 'c' {
                KeyAction::ClearHistory
            } else if c == 's' {
                KeyAction::ToggleAutoscroll
            } else if c == 'w' {
                KeyAction::DeleteWordLeft
            } else {
                KeyAction::Ignore
            }
        },
        Key::Up => KeyAction::PreviousModel,
        Key::Down => KeyAction::NextModel,
        Key::PageUp => KeyAction::ScrollUp,
        Key::PageDown => KeyAction::ScrollDown,
        Key::Enter => KeyAction::Submit,
        Key::Backspace => if ctrl {
            KeyAction::DeleteWordLeft
        } else {
            KeyAction::Backspace
        },
        Key::Delete => if ctrl {
            KeyAction::DeleteWordRight
        } else {
            KeyAction::DeleteForward
        },
        Key::Left => if ctrl {
            KeyAction::WordLeft
        } else {
            KeyAction::Left
        },
        Key::Right => if ctrl {
            KeyAction::WordRight
        } else {
            KeyAction::Right
        },
        Key::Home => KeyAction::Home,
        Key::End => KeyAction::End,
        Key::Other => KeyAction::Ignore,
    }
}

/// The effect of `action` on what it is about: `before` and `after` are the
/// state around the call, `r` what it reported.
pub open spec fn action_effect(before: App, after: App, action: KeyAction, r: KeyOutcome) -> bool {
    let s = before.input@;
    let k = before.clamped_cursor();
    match action {
        KeyAction::Quit => r == KeyOutcome::Quit && after == before,
        KeyAction::Submit => r == (if s.len() > 0 && !before.is_loading {
            KeyOutcome::Submit
        } else {
            KeyOutcome::Continue
        }) && after == before,
        KeyAction::Ignore => r == KeyOutcome::Continue && after == before,
        KeyAction::ClearHistory => r == KeyOutcome::Continue && after.session()
            == save_spec(
            before.session().with_active(
                BufferView { history: Seq::empty(), scroll: 0, ..before.active() },
            ),
        ) && after.autoscroll,
        KeyAction::ToggleAutoscroll => r == KeyOutcome::Continue
            && after.autoscroll == !before.autoscroll && after.session()
            == before.session(),
        KeyAction::PreviousModel => r == KeyOutcome::Continue && after.session()
            == select_previous_spec(before.session()),
        KeyAction::NextModel => r == KeyOutcome::Continue && after.session()
            == select_next_spec(before.session()),
        KeyAction::ScrollUp => r == KeyOutcome::Continue && !after.autoscroll
            && after.scroll == (if before.scroll >= PAGE_SCROLL {
            before.scroll - PAGE_SCROLL
        } else {
            0
        }),
        KeyAction::ScrollDown => r == KeyOutcome::Continue && !after.autoscroll
            && after.scroll == (if before.scroll <= u16::MAX - PAGE_SCROLL {
            before.scroll + PAGE_SCROLL
        } else {
            u16::MAX as int
        }),
        KeyAction::Insert(c) => r == KeyOutcome::Continue && after.input@
            == s.insert(k as int, c) && after.cursor_pos == k + 1,
        KeyAction::Backspace => r == KeyOutcome::Continue && (if k > 0 {
            after.input@ == s.remove(k - 1) && after.cursor_pos == k - 1
        } else {
            after.input@ == s && after.cursor_pos == k
        }),
        KeyAction::DeleteForward => r == KeyOutcome::Continue && (if k < s.len() {
            after.input@ == s.remove(k as int)
        } else {
            after.input@ == s
        }) && after.cursor_pos == k,
        KeyAction::DeleteWordLeft => r == KeyOutcome::Continue && after.input@
            == s.take(word_left(s, k as nat) as int) + s.skip(k as int)
            && after.cursor_pos == word_left(s, k as nat),
        KeyAction::DeleteWordRight => r == KeyOutcome::Continue && after.input@
            == s.take(k as int) + s.skip(word_right(s, k as nat) as int)
            && after.cursor_pos == k,
        KeyAction::Left => r == KeyOutcome::Continue && after.input@ == s
            && after.cursor_pos == (if k > 0 {
            k - 1
        } else {
            0
        }),
        KeyAction::Right => r == KeyOutcome::Continue && after.input@ == s
            && after.cursor_pos == (if k < s.len() {
            k + 1
        } else {
            k as int
        }),
        KeyAction::WordLeft => r == KeyOutcome::Continue && after.input@ == s
            && after.cursor_pos == word_left(s, k as nat),
        KeyAction::WordRight => r == KeyOutcome::Continue && after.input@ == s
            && after.cursor_pos == word_right(s, k as nat),
        KeyAction::Home => r == KeyOutcome::Continue && after.input@ == s
            && after.cursor_pos == 0,
        KeyAction::End => r == KeyOutcome::Continue && after.input@ == s
            && after.cursor_pos == s.len(),
    }
}

/// What `action` leaves alone: scrolling keeps the models, selection, input,
/// transcript and records; editing keeps everything but the input, the
/// cursor and the caret, and leaves the cursor inside the input.
pub open spec fn action_frame(before: App, after: App, action: KeyAction) -> bool {
    match action {
        KeyAction::ScrollUp | KeyAction::ScrollDown | KeyAction::ToggleAutoscroll => after.same_content(
            &before,
        ),
        KeyAction::Insert(_) | KeyAction::Backspace | KeyAction::DeleteForward
        | KeyAction::DeleteWordLeft | KeyAction::DeleteWordRight | KeyAction::Left
        | KeyAction::Right | KeyAction::WordLeft | KeyAction::WordRight | KeyAction::Home
        | KeyAction::End => after.same_but_editor(&before) && after.cursor_ok(),
        _ => true,
    }
}

/// Performing `action` had its effect and left the rest alone.
pub open spec fn action_done(before: App, after: App, action: KeyAction, r: KeyOutcome) -> bool {
    action_effect(before, after, action, r) && action_frame(before, after, action)
}


impl App {
    /// Performs `action` on the session. Quitting and submitting only
    /// report back (a submit only when there is input and no exchange is in
    /// flight); the loop that owns the collaborators does the rest.
    pub fn apply_action(&mut self, action: KeyAction) -> (r: KeyOutcome)
        requires
            old(self).wf(),
            old(self).input@.len() < usize::MAX,
        ensures
            final(self).wf(),
            old(self).cursor_ok() ==> final(self).cursor_ok(),
            action_done(*old(self), *final(self), action, r),
    {
        match action {
            KeyAction::Quit => KeyOutcome::Quit,
            KeyAction::Submit => {
                if self.input_len() > 0 && !self.is_loading {
                    KeyOutcome::Submit
                } else {
                    KeyOutcome::Continue
                }
            },
            KeyAction::Ignore => KeyOutcome::Continue,
            KeyAction::ClearHistory => {
                self.clear_history();
                KeyOutcome::Continue
            },
            KeyAction::ToggleAutoscroll => {
                self.toggle_autoscroll();
                KeyOutcome::Continue
            },
            KeyAction::PreviousModel => {
                self.select_previous_model();
                KeyOutcome::Continue
            },
            KeyAction::NextModel => {
                self.select_next_model();
                KeyOutcome::Continue
            },
            KeyAction::ScrollUp => {
                self.scroll_up();
                KeyOutcome::Continue
            },
            KeyAction::ScrollDown => {
                self.scroll_down();
                KeyOutcome::Continue
            },
            KeyAction::Insert(c) => {
                self.insert_char(c);
                KeyOutcome::Continue
            },
            KeyAction::Backspace => {
                self.backspace();
                KeyOutcome::Continue
            },
            KeyAction::DeleteForward => {
                self.delete_forward();
                KeyOutcome::Continue
            },
            KeyAction::DeleteWordLeft => {
                self.delete_word_left();
                KeyOutcome::Continue
            },
            KeyAction::DeleteWordRight => {
                self.delete_word_right();
                KeyOutcome::Continue
            },
            KeyAction::Left => {
                self.move_cursor_left();
                KeyOutcome::Continue
            },
            KeyAction::Right => {
                self.move_cursor_right();
                KeyOutcome::Continue
            },
            KeyAction::WordLeft => {
                self.move_cursor_word_left();
                KeyOutcome::Continue
            },
            KeyAction::WordRight => {
                self.move_cursor_word_right();
                KeyOutcome::Continue
            },
            KeyAction::Home => {
                self.move_cursor_home();
                KeyOutcome::Continue
            },
            KeyAction::End => {
                self.move_cursor_end();
                KeyOutcome::Continue
            },
        }
    }

    /// Handles one key press: looks up its binding and performs it.
    pub fn handle_key(&mut self, key: Key, ctrl: bool) -> (r: KeyOutcome)
        requires
            old(self).wf(),
            old(self).input@.len() < usize::MAX,
        ensures
            final(self).wf(),
            old(self).cursor_ok() ==> final(self).cursor_ok(),
            action_done(*old(self), *final(self), key_action_spec(key, ctrl), r),
    {
        let action = key_action(key, ctrl);
        self.apply_action(action)
    }
}

} // verus!
