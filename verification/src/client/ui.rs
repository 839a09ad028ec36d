//! What the terminal front end decides, apart from drawing: the toast that
//! is shown, the admission dialog, and the main screen's commands.

pub mod auth_dialog;
pub mod dm_view;
pub mod file_dialog;
pub mod main_layout;

use vstd::prelude::*;
use crate::text::owned;
use crate::time::Timestamp;

verus! {

/// How long a toast stays, in seconds.
pub const TOAST_SECONDS: u64 = 3;

/// Whether a toast informs or warns.
#[derive(Clone, Copy, Debug, PartialEq, Eq, Structural)]
pub enum ToastKind {
    Info,
    Error,
}

/// A short notice in the corner of the screen.
#[derive(Debug)]
pub struct ToastState {
    pub text: String,
    pub kind: ToastKind,
    pub created_at: Timestamp,
    /// How long the toast stays, in seconds.
    pub ttl: u64,
}

/// The model of a [`ToastState`].
pub struct ToastModel {
    pub text: Seq<char>,
    pub kind: ToastKind,
    pub created_at: Timestamp,
    pub ttl: u64,
}

impl View for ToastState {
    type V = ToastModel;

    open spec fn view(&self) -> ToastModel {
        ToastModel {
            text: self.text@,
            kind: self.kind,
            created_at: self.created_at,
            ttl: self.ttl,
        }
    }
}

impl DeepView for ToastState {
    type V = ToastModel;

    open spec fn deep_view(&self) -> ToastModel {
        self@
    }
}

impl ToastModel {
    /// The toast has been up for longer than it stays.
    pub open spec fn expired(self, now: Timestamp) -> bool {
        now.is_after(self.created_at.spec_plus_seconds(self.ttl))
    }
}

/// Where a toast is drawn.
#[derive(Debug)]
pub struct ToastDraw {
    /// The column of its first character, in the top row.
    pub column: u16,
    pub text: String,
    pub kind: ToastKind,
}

/// The column at which a toast of `text_len` bytes starts on a screen of
/// `cols` columns: two columns from the right edge where it fits.
pub open spec fn toast_column(cols: u16, text_len: nat) -> u16 {
    let width = if text_len < cols {
        text_len
    } else {
        cols as nat
    };
    if cols >= width + 2 {
        (cols - width - 2) as u16
    } else {
        0
    }
}

/// What the front end keeps between two drawings.
#[derive(Debug)]
pub struct TerminalSession {
    toast: Option<ToastState>,
}

impl TerminalSession {
    /// The toast that is up, if any.
    pub closed spec fn toast(&self) -> Option<ToastModel> {
        self.toast.deep_view()
    }

    pub fn new() -> (session: Self)
        ensures
            session.toast() is None,
    {
        Self { toast: None }
    }

    /// Puts up a toast at `now`, in place of any other.
    pub fn set_toast_at(&mut self, kind: ToastKind, text: String, now: Timestamp)
        ensures
            final(self).toast() == Some(
                ToastModel { text: text@, kind, created_at: now, ttl: TOAST_SECONDS },
            ),
    {
        self.toast = Some(ToastState { text, kind, created_at: now, ttl: TOAST_SECONDS });
    }

    /// Puts up a toast now.
    pub fn set_toast(&mut self, kind: ToastKind, text: String)
        ensures
            final(self).toast() matches Some(t) && t.text == text@ && t.kind == kind && t.ttl
                == TOAST_SECONDS,
    {
        let now = Timestamp::now();
        self.set_toast_at(kind, text, now);
    }

    /// What is to be drawn of the toast at `now` on a screen of `cols`
    /// columns. A toast that has been up for more than three seconds is
    /// taken down.
    pub fn draw_toast_at(&mut self, cols: u16, now: Timestamp) -> (draw: Option<ToastDraw>)
        ensures
            match old(self).toast() {
                None => draw is None && final(self).toast() is None,
                Some(t) => if t.expired(now) {
                    draw is None && final(self).toast() is None
                } else {
                    final(self).toast() == old(self).toast() && (draw matches Some(d) && d.text@
                        == t.text && d.kind == t.kind && d.column == toast_column(
                        cols,
                        crate::text::byte_len(t.text),
                    ))
                },
            },
    {
        let Some(toast) = &self.toast else {
            return None;
        };
        if now.after(&toast.created_at.plus_seconds(toast.ttl)) {
            self.toast = None;
            return None;
        }
        let len: usize = toast.text.as_str().as_bytes().len();
        let width: u32 = if len < cols as usize {
            len as u32
        } else {
            cols as u32
        };
        let column: u16 = if cols as u32 >= width + 2 {
            (cols as u32 - width - 2) as u16
        } else {
            0
        };
        Some(ToastDraw { column, text: toast.text.clone(), kind: toast.kind })
    }
}

/// Puts up a toast now.
pub fn toast(terminal: &mut TerminalSession, text: &str, kind: ToastKind)
    ensures
        final(terminal).toast() matches Some(t) && t.text == text@ && t.kind == kind,
{
    terminal.set_toast(kind, owned(text));
}

} // verus!
