//! The open conversation as the front end shows it.

use vstd::prelude::*;
use vstd::string::StringExecFns;
use crate::protocol::messages::StoredDM;
use crate::text::{decimal, joined, owned, push_decimal};

verus! {

/// One conversation on screen.
#[derive(Debug)]
pub struct DMView {
    pub conversation: Vec<StoredDM>,
    pub scrolled_to_bottom: bool,
    pub user_id: u64,
}

/// Who a message is shown to come from.
#[derive(Clone, Copy, Debug, PartialEq, Eq, Structural)]
pub enum Speaker {
    You,
    Them,
}

impl DMView {
    /// An empty conversation of the user `user_id`.
    pub fn new(user_id: u64) -> (view: Self)
        ensures
            view.conversation@.len() == 0,
            view.scrolled_to_bottom,
            view.user_id == user_id,
    {
        Self { conversation: Vec::new(), scrolled_to_bottom: true, user_id }
    }

    /// Shows one more message and scrolls down to it.
    pub fn add_message(&mut self, dm: StoredDM)
        ensures
            final(self).conversation@ == old(self).conversation@.push(dm),
            final(self).scrolled_to_bottom,
            final(self).user_id == old(self).user_id,
    {
        self.conversation.push(dm);
        self.scrolled_to_bottom = true;
    }

    /// Who the message at `index` is shown to come from.
    pub fn speaker(&self, index: usize) -> (who: Speaker)
        requires
            index < self.conversation@.len(),
        ensures
            who == (if self.conversation@[index as int].sender_id == self.user_id {
                Speaker::You
            } else {
                Speaker::Them
            }),
    {
        if self.conversation[index].sender_id == self.user_id {
            Speaker::You
        } else {
            Speaker::Them
        }
    }

    /// The message that is selected: the newest, if there is any.
    pub fn selected(&self) -> (index: Option<usize>)
        ensures
            index == (if self.conversation@.len() == 0 {
                None
            } else {
                Some((self.conversation@.len() - 1) as usize)
            }),
    {
        if self.conversation.len() == 0 {
            None
        } else {
            Some(self.conversation.len() - 1)
        }
    }
}

impl Speaker {
    pub open spec fn spec_label(self) -> Seq<char> {
        match self {
            Speaker::You => "You"@,
            Speaker::Them => "Them"@,
        }
    }

    /// The word shown for the speaker.
    pub fn label(&self) -> (s: &'static str)
        ensures
            s@ == self.spec_label(),
    {
        match self {
            Speaker::You => "You",
            Speaker::Them => "Them",
        }
    }
}

/// One direct message as it is shown: its time, its speaker, a stand-in for
/// the text that the relay cannot read, and a tick once it was read.
pub fn message_line(time: &str, speaker: Speaker, is_read: bool) -> (s: String)
    ensures
        s@ == "["@ + time@ + "] "@ + speaker.spec_label() + ": [ENCRYPTED MESSAGE] "@ + (
        if is_read {
            "\u{2713}"@
        } else {
            ""@
        }),
{
    let mut s = joined("[", time);
    s.append("] ");
    s.append(speaker.label());
    s.append(": [ENCRYPTED MESSAGE] ");
    if is_read {
        s.append("\u{2713}");
    } else {
        s.append("");
    }
    s
}

/// A conversation as it is listed: the partner, and how many messages are
/// new.
pub fn sidebar_label(user_id: u64, unread: usize) -> (s: String)
    ensures
        s@ == "@User "@ + decimal(user_id as nat) + (if unread > 0 {
            " [NEW: "@ + decimal(unread as nat) + "]"@
        } else {
            Seq::empty()
        }),
{
    let mut s = owned("@User ");
    push_decimal(&mut s, user_id as u128);
    let ghost base = s@;
    if unread > 0 {
        s.append(" [NEW: ");
        push_decimal(&mut s, unread as u128);
        s.append("]");
        assert(s@ =~= base + (" [NEW: "@ + decimal(unread as nat) + "]"@));
    } else {
        assert(s@ =~= base + Seq::<char>::empty());
    }
    s
}

} // verus!
