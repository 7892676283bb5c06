//! The line that the user types when the editor asks a question.

use crate::editor::Key;
use crate::strings::{pop_char, push_char};
use vstd::prelude::*;

verus! {

/// Whether `c` is a control character: one of the code points up to
/// U+001F, or from U+007F to U+009F.
pub open spec fn is_control_char(c: char) -> bool {
    c as u32 <= 0x1f || 0x7f <= c as u32 <= 0x9f
}

/// The answer as it stands after `key`, when it was `text` before.
///
/// Backspace takes the last character off, Escape throws the answer away,
/// and a character that is no control character is added at the end.
pub open spec fn typed(text: Seq<char>, key: Key) -> Seq<char> {
    match key {
        Key::Backspace => if text.len() > 0 {
            text.drop_last()
        } else {
            text
        },
        Key::Char(c) => if is_control_char(c) {
            text
        } else {
            text.push(c)
        },
        Key::Esc => Seq::empty(),
        _ => text,
    }
}

/// Whether `key` ends the question: Enter does, and Escape.
pub open spec fn ends_prompt(key: Key) -> bool {
    key == Key::Char('\n') || key == Key::Esc
}

/// Whether `c` is a control character.
pub fn is_control(c: char) -> (control: bool)
    ensures
        control == is_control_char(c),
{
    let code = c as u32;
    code <= 0x1f || (0x7f <= code && code <= 0x9f)
}

/// An answer in the making.
#[derive(Debug)]
pub struct Prompt {
    text: String,
}

impl View for Prompt {
    type V = Seq<char>;

    closed spec fn view(&self) -> Seq<char> {
        self.text@
    }
}

impl Prompt {
    /// An answer of which nothing was typed yet.
    pub fn new() -> (prompt: Prompt)
        ensures
            prompt@ == Seq::<char>::empty(),
    {
        Prompt { text: String::new() }
    }

    /// Takes one key press and says whether it ended the question.
    pub fn feed(&mut self, key: Key) -> (done: bool)
        ensures
            final(self)@ == typed(old(self)@, key),
            done == ends_prompt(key),
    {
        match key {
            Key::Backspace => {
                pop_char(&mut self.text);
                false
            },
            Key::Char(c) => {
                if c == '\n' {
                    true
                } else {
                    if !is_control(c) {
                        push_char(&mut self.text, c);
                    }
                    false
                }
            },
            Key::Esc => {
                self.text = String::new();
                true
            },
            _ => false,
        }
    }

    /// What was typed so far.
    pub fn text(&self) -> (text: &str)
        ensures
            text@ == self@,
    {
        self.text.as_str()
    }

    /// The answer: what was typed, or nothing where nothing was typed.
    pub fn answer(self) -> (answer: Option<String>)
        ensures
            self@.len() == 0 ==> answer is None,
            self@.len() > 0 ==> answer is Some && answer->0@ == self@,
    {
        if self.text.as_str().is_empty() {
            None
        } else {
            Some(self.text)
        }
    }
}

} // verus!
