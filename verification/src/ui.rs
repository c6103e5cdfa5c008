//! The terminal UI's state machine: the input line being typed, the chat
//! scroll position and the exit flag, driven one key at a time. Drawing is
//! left to the caller; this module decides what each key does.

use crate::client::TermIOClient;
use crate::message::{Message, MessageV};
use vstd::prelude::*;

verus! {

/// One keyboard event, as the UI understands it.
pub enum KeyInput {
    Esc,
    Enter,
    Backspace,
    Up,
    Down,
    CharKey(char),
    Other,
}

/// Append one character to a string.
///
/// Relies on `String::push`, which appends the given character to the end of
/// the string.
#[verifier::external_body]
fn string_push(s: &mut String, c: char)
    ensures
        final(s)@ == old(s)@.push(c),
{
    s.push(c)
}

/// Remove and return the last character of a string, if any.
///
/// Relies on `String::pop`, which removes the last character and returns it,
/// or returns nothing from an empty string.
#[verifier::external_body]
fn string_pop(s: &mut String) -> (r: Option<char>)
    ensures
        old(s)@.len() == 0 ==> r is None && final(s)@ == old(s)@,
        old(s)@.len() > 0 ==> r == Some(old(s)@.last()) && final(s)@ == old(s)@.drop_last(),
{
    s.pop()
}

/// Terminal UI state: the aggregated client data plus what the user is
/// typing.
pub struct TermioUI {
    pub client: TermIOClient,
    pub input_buffer: String,
    pub scroll_position: u16,
    pub should_exit: bool,
}

impl TermioUI {
    /// A fresh UI over the given client: empty input line, top scroll
    /// position, not exiting.
    pub fn new(client: TermIOClient) -> (ui: TermioUI)
        ensures
            ui.client == client,
            ui.input_buffer@ == Seq::<char>::empty(),
            ui.scroll_position == 0,
            ui.should_exit == false,
    {
        TermioUI { client, input_buffer: String::new(), scroll_position: 0, should_exit: false }
    }

    /// React to one key: Esc or `q` asks to quit; Enter sends the typed
    /// line as chat and clears it; Backspace deletes the last character;
    /// any other character is typed; Up and Down move the scroll position,
    /// saturating at its bounds. Returns the message to send, if any.
    pub fn handle_key(&mut self, key: KeyInput) -> (r: Option<Message>)
        ensures
            final(self).client == old(self).client,
            match key {
                KeyInput::Esc => *final(self) == (TermioUI {
                    should_exit: true,
                    ..*old(self)
                }) && r is None,
                KeyInput::Enter => if old(self).input_buffer@.len() == 0 {
                    *final(self) == *old(self) && r is None
                } else {
                    &&& final(self).input_buffer@ == Seq::<char>::empty()
                    &&& final(self).scroll_position == old(self).scroll_position
                    &&& final(self).should_exit == old(self).should_exit
                    &&& match r {
                        Option::Some(m) => m@ == (MessageV::Chat {
                            user_id: old(self).client@.user_id,
                            username: old(self).client@.username,
                            content: old(self).input_buffer@,
                        }),
                        Option::None => false,
                    }
                },
                KeyInput::Backspace => {
                    &&& final(self).input_buffer@ == (if old(self).input_buffer@.len() == 0 {
                        old(self).input_buffer@
                    } else {
                        old(self).input_buffer@.drop_last()
                    })
                    &&& final(self).scroll_position == old(self).scroll_position
                    &&& final(self).should_exit == old(self).should_exit
                    &&& r is None
                },
                KeyInput::CharKey(c) => if c == 'q' {
                    *final(self) == (TermioUI { should_exit: true, ..*old(self) }) && r is None
                } else {
                    &&& final(self).input_buffer@ == old(self).input_buffer@.push(c)
                    &&& final(self).scroll_position == old(self).scroll_position
                    &&& final(self).should_exit == old(self).should_exit
                    &&& r is None
                },
                KeyInput::Up => *final(self) == (TermioUI {
                    scroll_position: (if old(self).scroll_position == u16::MAX {
                        u16::MAX
                    } else {
                        (old(self).scroll_position + 1) as u16
                    }),
                    ..*old(self)
                }) && r is None,
                KeyInput::Down => *final(self) == (TermioUI {
                    scroll_position: (if old(self).scroll_position == 0 {
                        0u16
                    } else {
                        (old(self).scroll_position - 1) as u16
                    }),
                    ..*old(self)
                }) && r is None,
                KeyInput::Other => *final(self) == *old(self) && r is None,
            },
    {
        match key {
            KeyInput::Esc => {
                self.should_exit = true;
                None
            },
            KeyInput::Enter => {
                if !self.input_buffer.as_str().is_empty() {
                    let content = self.input_buffer.clone();
                    let msg = self.client.make_chat(content);
                    self.input_buffer = String::new();
                    Some(msg)
                } else {
                    None
                }
            },
            KeyInput::Backspace => {
                string_pop(&mut self.input_buffer);
                None
            },
            KeyInput::CharKey(c) => {
                if c == 'q' {
                    self.should_exit = true;
                } else {
                    string_push(&mut self.input_buffer, c);
                }
                None
            },
            KeyInput::Up => {
                if self.scroll_position < u16::MAX {
                    self.scroll_position = self.scroll_position + 1;
                }
                None
            },
            KeyInput::Down => {
                if self.scroll_position > 0 {
                    self.scroll_position = self.scroll_position - 1;
                }
                None
            },
            KeyInput::Other => None,
        }
    }
}

} // verus!
