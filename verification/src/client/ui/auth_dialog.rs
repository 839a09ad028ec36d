//! The admission dialog: three text fields and three buttons, moved
//! through with the keyboard.

use vstd::prelude::*;
use crate::client::state::AuthMode;
use crate::text::{char_is_control, is_control, joined, pop_one, push_one};
use vstd::string::StringExecFns;

verus! {

/// What the user entered.
#[derive(Debug)]
pub struct AuthDialogOutput {
    pub server_ip: String,
    pub username: String,
    pub password: String,
    pub mode: AuthMode,
}

/// The part of the dialog that has the focus.
#[derive(Clone, Copy, Debug, PartialEq, Eq, Structural)]
pub enum Field {
    Server,
    Username,
    Password,
    Buttons,
}

/// The button that is selected.
#[derive(Clone, Copy, Debug, PartialEq, Eq, Structural)]
pub enum Button {
    Login,
    Register,
    Exit,
}

/// A key of the keyboard, as far as the dialog tells keys apart.
#[derive(Clone, Copy, Debug, PartialEq, Eq, Structural)]
pub enum Key {
    Tab,
    BackTab,
    Left,
    Right,
    Enter,
    Esc,
    Char(char),
    Backspace,
    Other,
}

/// A key press: the key, and whether Control was held.
#[derive(Clone, Copy, Debug, PartialEq, Eq, Structural)]
pub struct KeyPress {
    pub key: Key,
    pub ctrl: bool,
}

impl Field {
    /// The field that Tab leads to.
    pub open spec fn next(self) -> Field {
        match self {
            Field::Server => Field::Username,
            Field::Username => Field::Password,
            Field::Password => Field::Buttons,
            Field::Buttons => Field::Server,
        }
    }

    /// The field that Shift-Tab leads to.
    pub open spec fn previous(self) -> Field {
        match self {
            Field::Server => Field::Buttons,
            Field::Username => Field::Server,
            Field::Password => Field::Username,
            Field::Buttons => Field::Password,
        }
    }

    /// The field that Enter leads to.
    pub open spec fn after_enter(self) -> Field {
        match self {
            Field::Buttons => Field::Buttons,
            other => other.next(),
        }
    }
}

impl Button {
    pub open spec fn left(self) -> Button {
        match self {
            Button::Login => Button::Exit,
            Button::Register => Button::Login,
            Button::Exit => Button::Register,
        }
    }

    pub open spec fn right(self) -> Button {
        match self {
            Button::Login => Button::Register,
            Button::Register => Button::Exit,
            Button::Exit => Button::Login,
        }
    }
}

/// The dialog as a value: the three texts, the focus and the selected
/// button.
pub struct DialogModel {
    pub server_ip: Seq<char>,
    pub username: Seq<char>,
    pub password: Seq<char>,
    pub field: Field,
    pub button: Button,
}

/// `text` after `c` was typed: control characters are not taken.
pub open spec fn typed(text: Seq<char>, c: char) -> Seq<char> {
    if is_control(c) {
        text
    } else {
        text.push(c)
    }
}

/// `text` after Backspace.
pub open spec fn erased(text: Seq<char>) -> Seq<char> {
    if text.len() == 0 {
        text
    } else {
        text.drop_last()
    }
}

impl DialogModel {
    /// The text of the field in focus changed by `edit`.
    pub open spec fn edited(self, edit: spec_fn(Seq<char>) -> Seq<char>) -> DialogModel {
        match self.field {
            Field::Server => DialogModel { server_ip: edit(self.server_ip), ..self },
            Field::Username => DialogModel { username: edit(self.username), ..self },
            Field::Password => DialogModel { password: edit(self.password), ..self },
            Field::Buttons => self,
        }
    }

    /// Whether `press` ends the dialog: Control-C, Esc, or Enter on the
    /// buttons.
    pub open spec fn ends(self, press: KeyPress) -> bool {
        ||| press.key == Key::Char('c') && press.ctrl
        ||| press.key == Key::Esc
        ||| press.key == Key::Enter && self.field == Field::Buttons
    }

    /// The dialog after `press`.
    pub open spec fn after(self, press: KeyPress) -> DialogModel {
        if press.key == Key::Char('c') && press.ctrl {
            DialogModel { button: Button::Exit, ..self }
        } else {
            match press.key {
                Key::Tab => DialogModel { field: self.field.next(), ..self },
                Key::BackTab => DialogModel { field: self.field.previous(), ..self },
                Key::Left => if self.field == Field::Buttons {
                    DialogModel { button: self.button.left(), ..self }
                } else {
                    self
                },
                Key::Right => if self.field == Field::Buttons {
                    DialogModel { button: self.button.right(), ..self }
                } else {
                    self
                },
                Key::Enter => DialogModel { field: self.field.after_enter(), ..self },
                Key::Esc => DialogModel { button: Button::Exit, ..self },
                Key::Char(c) => self.edited(|text: Seq<char>| typed(text, c)),
                Key::Backspace => self.edited(|text: Seq<char>| erased(text)),
                Key::Other => self,
            }
        }
    }
}

/// Takes one typed character into `s`, unless it is a control character.
pub fn push_char(s: &mut String, ch: char)
    ensures
        final(s)@ == typed(old(s)@, ch),
{
    if !char_is_control(ch) {
        push_one(s, ch);
    }
}

/// Takes the last character off `s`.
pub fn pop_char(s: &mut String)
    ensures
        final(s)@ == erased(old(s)@),
{
    let _ = pop_one(s);
}

/// Moves the dialog on by one key press; says whether the dialog is over.
pub fn handle_key(
    key: KeyPress,
    server_ip: &mut String,
    username: &mut String,
    password: &mut String,
    field: &mut Field,
    button: &mut Button,
) -> (done: bool)
    ensures
        ({
            let before = DialogModel {
                server_ip: old(server_ip)@,
                username: old(username)@,
                password: old(password)@,
                field: *old(field),
                button: *old(button),
            };
            let after = DialogModel {
                server_ip: final(server_ip)@,
                username: final(username)@,
                password: final(password)@,
                field: *final(field),
                button: *final(button),
            };
            after == before.after(key) && done == before.ends(key)
        }),
{
    if let Key::Char(c) = key.key {
        if c == 'c' && key.ctrl {
            *button = Button::Exit;
            return true;
        }
    }
    match key.key {
        Key::Tab => {
            *field = match *field {
                Field::Server => Field::Username,
                Field::Username => Field::Password,
                Field::Password => Field::Buttons,
                Field::Buttons => Field::Server,
            };
        },
        Key::BackTab => {
            *field = match *field {
                Field::Server => Field::Buttons,
                Field::Username => Field::Server,
                Field::Password => Field::Username,
                Field::Buttons => Field::Password,
            };
        },
        Key::Left => {
            if *field == Field::Buttons {
                *button = match *button {
                    Button::Login => Button::Exit,
                    Button::Register => Button::Login,
                    Button::Exit => Button::Register,
                };
            }
        },
        Key::Right => {
            if *field == Field::Buttons {
                *button = match *button {
                    Button::Login => Button::Register,
                    Button::Register => Button::Exit,
                    Button::Exit => Button::Login,
                };
            }
        },
        Key::Enter => {
            if *field == Field::Buttons {
                return true;
            }
            *field = match *field {
                Field::Server => Field::Username,
                Field::Username => Field::Password,
                Field::Password => Field::Buttons,
                Field::Buttons => Field::Buttons,
            };
        },
        Key::Esc => {
            *button = Button::Exit;
            return true;
        },
        Key::Char(ch) => {
            match *field {
                Field::Server => push_char(server_ip, ch),
                Field::Username => push_char(username, ch),
                Field::Password => push_char(password, ch),
                Field::Buttons => {},
            }
        },
        Key::Backspace => {
            match *field {
                Field::Server => pop_char(server_ip),
                Field::Username => pop_char(username),
                Field::Password => pop_char(password),
                Field::Buttons => {},
            }
        },
        Key::Other => {},
    }
    false
}

/// What the dialog hands over when it ends on `button`: nothing on Exit; on
/// Register the password is left out.
pub fn outcome(
    button: Button,
    server_ip: String,
    username: String,
    password: String,
) -> (out: Option<
    AuthDialogOutput,
>)
    ensures
        match button {
            Button::Exit => out is None,
            Button::Login => out matches Some(o) && o.server_ip@ == server_ip@ && o.username@
                == username@ && o.password@ == password@ && o.mode == AuthMode::Login,
            Button::Register => out matches Some(o) && o.server_ip@ == server_ip@ && o.username@
                == username@ && o.password@.len() == 0 && o.mode == AuthMode::Register,
        },
{
    match button {
        Button::Exit => None,
        Button::Login => Some(
            AuthDialogOutput { server_ip, username, password, mode: AuthMode::Login },
        ),
        Button::Register => Some(
            AuthDialogOutput {
                server_ip,
                username,
                password: String::new(),
                mode: AuthMode::Register,
            },
        ),
    }
}

/// A field as it is drawn: marked where it has the focus.
pub fn style_field(text: &str, active: bool) -> (s: String)
    ensures
        s@ == (if active {
            "> "@
        } else {
            "  "@
        }) + text@,
{
    if active {
        joined("> ", text)
    } else {
        joined("  ", text)
    }
}

/// A button as it is drawn: in brackets where it is selected and the
/// buttons have the focus.
pub fn style_button(label: &str, selected: bool, active: bool) -> (s: String)
    ensures
        s@ == (if active && selected {
            "["@ + label@ + "]"@
        } else {
            " "@ + label@ + " "@
        }),
{
    if active && selected {
        let mut s = joined("[", label);
        s.append("]");
        s
    } else {
        let mut s = joined(" ", label);
        s.append(" ");
        s
    }
}

/// A password as it is drawn: one star for each character.
pub fn mask(password: &str) -> (s: String)
    ensures
        s@ == Seq::new(password@.len(), |i: int| '*'),
{
    let n = vstd::string::StrSliceExecFns::unicode_len(password);
    let mut s = String::new();
    let mut i: usize = 0;
    assert(s@ =~= Seq::new(0, |i: int| '*'));
    while i < n
        invariant
            i <= n,
            s@ == Seq::new(i as nat, |k: int| '*'),
        decreases n - i,
    {
        push_one(&mut s, '*');
        assert(s@ =~= Seq::new((i + 1) as nat, |k: int| '*'));
        i += 1;
    }
    s
}

} // verus!
