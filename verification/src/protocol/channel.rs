//! The kinds of channel and who may speak in each.

use vstd::prelude::*;

verus! {

/// How a channel treats its members' messages.
#[derive(Clone, Copy, Debug, PartialEq, Eq, Structural)]
pub enum ChannelType {
    Public,
    Private,
    AdminOnly,
    ReadOnly,
    Announcement,
}

impl Default for ChannelType {
    fn default() -> (t: Self)
        ensures
            t == ChannelType::Public,
    {
        ChannelType::Public
    }
}

impl ChannelType {
    /// The one-line description shown to users.
    pub open spec fn spec_description(self) -> Seq<char> {
        match self {
            ChannelType::Public => "Anyone can join (with password), all can send"@,
            ChannelType::Private => "Invite-only"@,
            ChannelType::AdminOnly => "All can see, only admins can send messages"@,
            ChannelType::ReadOnly => "All can read, only admins send"@,
            ChannelType::Announcement => "SuperAdmin broadcasts only"@,
        }
    }

    /// The variant's name, as `Debug` prints it.
    pub open spec fn spec_name(self) -> Seq<char> {
        match self {
            ChannelType::Public => "Public"@,
            ChannelType::Private => "Private"@,
            ChannelType::AdminOnly => "AdminOnly"@,
            ChannelType::ReadOnly => "ReadOnly"@,
            ChannelType::Announcement => "Announcement"@,
        }
    }

    pub fn description(&self) -> (s: &'static str)
        ensures
            s@ == self.spec_description(),
    {
        match self {
            ChannelType::Public => "Anyone can join (with password), all can send",
            ChannelType::Private => "Invite-only",
            ChannelType::AdminOnly => "All can see, only admins can send messages",
            ChannelType::ReadOnly => "All can read, only admins send",
            ChannelType::Announcement => "SuperAdmin broadcasts only",
        }
    }

    pub fn name(&self) -> (s: &'static str)
        ensures
            s@ == self.spec_name(),
    {
        match self {
            ChannelType::Public => "Public",
            ChannelType::Private => "Private",
            ChannelType::AdminOnly => "AdminOnly",
            ChannelType::ReadOnly => "ReadOnly",
            ChannelType::Announcement => "Announcement",
        }
    }
}

} // verus!
