//! What a key press means for the typing session.

use vstd::prelude::*;
use vstd::string::*;

verus! {

/// What the last key press asks for.
#[derive(Debug, Clone, Copy, PartialEq, Eq)]
pub enum InputAction {
    TypeCharacter(char),
    Backspace,
    Enter,
    Other,
}

/// The key of a key event, as far as the session tells keys apart.
#[derive(Debug, Clone, Copy, PartialEq, Eq)]
pub enum Key {
    Backspace,
    Enter,
    /// Any other key that the keyboard layout knows.
    Other,
    /// A key without a code.
    Unidentified,
}

/// A key event: the key, whether it went down, and the text that the press
/// produces, if any.
#[derive(Debug, Clone)]
pub struct KeyInput {
    pub key: Key,
    pub pressed: bool,
    pub text: Option<String>,
}

/// Collects what was typed and remembers the last action.
#[derive(Debug, Clone)]
pub struct InputHandler {
    pub current_input: String,
    pub last_action: Option<InputAction>,
}

/// The action that a key event stands for, if any.
pub open spec fn action_of(key: Key, pressed: bool, text: Option<Seq<char>>) -> Option<InputAction> {
    if !pressed {
        None
    } else {
        match key {
            Key::Unidentified => None,
            Key::Backspace => Some(InputAction::Backspace),
            Key::Enter => Some(InputAction::Enter),
            Key::Other => match text {
                Some(t) if t.len() > 0 => Some(InputAction::TypeCharacter(t[0])),
                _ => None,
            },
        }
    }
}

/// The collected input after an action: a backspace takes the last
/// character away, enter adds a line feed, a typed character is added.
pub open spec fn input_after(input: Seq<char>, action: Option<InputAction>) -> Seq<char> {
    match action {
        Some(InputAction::Backspace) => if input.len() > 0 {
            input.drop_last()
        } else {
            input
        },
        Some(InputAction::Enter) => input.push('\n'),
        Some(InputAction::TypeCharacter(c)) => input.push(c),
        _ => input,
    }
}

/// The text of a key event as characters.
pub open spec fn text_of(input: KeyInput) -> Option<Seq<char>> {
    match input.text {
        Some(t) => Some(t@),
        None => None,
    }
}

impl InputHandler {
    /// A handler without input and without a last action.
    pub fn new() -> (h: InputHandler)
        ensures
            h.current_input@ == Seq::<char>::empty(),
            h.last_action is None,
    {
        InputHandler { current_input: String::new(), last_action: None }
    }

    /// Takes a key event: the last action becomes what the event stands
    /// for, and the collected input follows it.
    pub fn process_key_event(&mut self, input: &KeyInput)
        ensures
            final(self).last_action == action_of(input.key, input.pressed, text_of(*input)),
            final(self).current_input@ == input_after(old(self).current_input@, final(self).last_action),
    {
        self.last_action = None;
        if !input.pressed {
            return ;
        }
        match input.key {
            Key::Unidentified => {},
            Key::Backspace => {
                let _ = self.current_input.pop();
                self.last_action = Some(InputAction::Backspace);
            },
            Key::Enter => {
                self.current_input.push('\n');
                self.last_action = Some(InputAction::Enter);
            },
            Key::Other => {
                match &input.text {
                    Some(text) => {
                        if !text.as_str().is_empty() {
                            let ch = text.as_str().get_char(0);
                            self.current_input.push(ch);
                            self.last_action = Some(InputAction::TypeCharacter(ch));
                        }
                    },
                    None => {},
                }
            },
        }
    }

    /// The action of the last key event, if it stood for one.
    pub fn get_last_action(&self) -> (r: Option<&InputAction>)
        ensures
            match r {
                Some(a) => self.last_action == Some(*a),
                None => self.last_action is None,
            },
    {
        self.last_action.as_ref()
    }

    /// Forgets the last action.
    pub fn clear_last_action(&mut self)
        ensures
            final(self).last_action is None,
            final(self).current_input@ == old(self).current_input@,
    {
        self.last_action = None;
    }
}

} // verus!
