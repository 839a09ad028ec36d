//! What a client knows about its session: who it is, which channels there
//! are, and the newest 500 messages of each channel it has seen.

use vstd::prelude::*;
use crate::client::crypto::CryptoState;
use crate::keyed::{index_of_unique, push_keeps_distinct};
use crate::protocol::messages::{
    ChannelInfo,
    ChannelInfoModel,
    ChatMessage,
    ChatMessageModel,
    MessageMeta,
    UserInfo,
    UserInfoModel,
};
use crate::text::{owned, str_eq};
use crate::time::Timestamp;

verus! {

/// The most messages a client keeps for one channel.
pub const MAX_KEPT_MESSAGES: usize = 500;

/// How the user wants to be admitted.
#[derive(Clone, Copy, Debug, PartialEq, Eq, Structural)]
pub enum AuthMode {
    Login,
    Register,
}

/// The messages seen in one channel.
#[derive(Debug)]
pub struct ChannelMessages {
    pub channel: String,
    pub messages: Vec<ChatMessage>,
}

/// The model of a [`ChannelMessages`].
pub struct ChannelMessagesModel {
    pub channel: Seq<char>,
    pub messages: Seq<ChatMessageModel>,
}

impl View for ChannelMessages {
    type V = ChannelMessagesModel;

    open spec fn view(&self) -> ChannelMessagesModel {
        ChannelMessagesModel { channel: self.channel@, messages: self.messages.deep_view() }
    }
}

impl DeepView for ChannelMessages {
    type V = ChannelMessagesModel;

    open spec fn deep_view(&self) -> ChannelMessagesModel {
        self@
    }
}

/// `messages` with `message` appended, cut down to the newest 500.
pub open spec fn kept(messages: Seq<ChatMessageModel>, message: ChatMessageModel) -> Seq<
    ChatMessageModel,
> {
    let all = messages.push(message);
    if all.len() > MAX_KEPT_MESSAGES {
        all.subrange(all.len() - MAX_KEPT_MESSAGES, all.len() as int)
    } else {
        all
    }
}

/// The model of a [`ClientState`].
pub struct ClientModel {
    pub server_addr: Seq<char>,
    pub user: Option<UserInfoModel>,
    pub generated_password: Option<Seq<char>>,
    pub channels: Seq<ChannelInfoModel>,
    pub current_channel: Option<Seq<char>>,
    pub messages_by_channel: Seq<ChannelMessagesModel>,
    pub next_msg_id: u64,
}

impl ClientModel {
    pub open spec fn names(self) -> Seq<Seq<char>> {
        Seq::new(self.messages_by_channel.len(), |i: int| self.messages_by_channel[i].channel)
    }

    /// One list of messages for each channel, none longer than 500.
    pub open spec fn wf(self) -> bool {
        &&& self.names().no_duplicates()
        &&& forall|i: int|
            0 <= i < self.messages_by_channel.len() ==> (
            #[trigger] self.messages_by_channel[i]).messages.len() <= MAX_KEPT_MESSAGES
    }

    /// The messages seen in `channel`.
    pub open spec fn messages_of(self, channel: Seq<char>) -> Seq<ChatMessageModel> {
        if self.names().contains(channel) {
            self.messages_by_channel[self.names().index_of(channel)].messages
        } else {
            Seq::empty()
        }
    }

    pub open spec fn messages_for_current(self) -> Seq<ChatMessageModel> {
        match self.current_channel {
            Some(channel) => self.messages_of(channel),
            None => Seq::empty(),
        }
    }

    pub open spec fn push_message(
        self,
        channel: Seq<char>,
        message: ChatMessageModel,
    ) -> ClientModel {
        let grown = ChannelMessagesModel {
            channel,
            messages: kept(self.messages_of(channel), message),
        };
        ClientModel {
            messages_by_channel: if self.names().contains(channel) {
                self.messages_by_channel.update(self.names().index_of(channel), grown)
            } else {
                self.messages_by_channel.push(grown)
            },
            ..self
        }
    }

    /// The state of a client that has just started, or started over.
    pub open spec fn fresh(server_addr: Seq<char>) -> ClientModel {
        ClientModel {
            server_addr,
            user: None,
            generated_password: None,
            channels: Seq::empty(),
            current_channel: None,
            messages_by_channel: Seq::empty(),
            next_msg_id: 1,
        }
    }

    /// The number after `id`; the numbers wrap around.
    pub open spec fn number_after(id: u64) -> u64 {
        if id == u64::MAX {
            0
        } else {
            (id + 1) as u64
        }
    }

    /// A message seen in one channel is kept as the newest of that channel
    /// and changes no other channel.
    pub proof fn push_message_keeps_wf(self, channel: Seq<char>, message: ChatMessageModel)
        requires
            self.wf(),
        ensures
            self.push_message(channel, message).wf(),
            self.push_message(channel, message).messages_of(channel) == kept(
                self.messages_of(channel),
                message,
            ),
            self.push_message(channel, message).messages_of(channel).last() == message,
            forall|other: Seq<char>|
                other != channel ==> #[trigger] self.push_message(channel, message).messages_of(
                    other,
                ) == self.messages_of(other),
    {
        let after = self.push_message(channel, message);
        if self.names().contains(channel) {
            assert(after.names() =~= self.names());
        } else {
            assert(after.names() =~= self.names().push(channel));
            push_keeps_distinct(self.names(), channel);
        }
        assert forall|other: Seq<char>| other != channel implies #[trigger] after.messages_of(
            other,
        ) == self.messages_of(other) by {
            if self.names().contains(other) {
                assert(self.names()[self.names().index_of(other)] == other);
            }
        }
    }
}

/// The client's view of its session.
#[derive(Debug)]
pub struct ClientState {
    pub server_addr: String,
    pub user: Option<UserInfo>,
    pub generated_password: Option<String>,
    pub channels: Vec<ChannelInfo>,
    pub current_channel: Option<String>,
    pub crypto: CryptoState,
    pub messages_by_channel: Vec<ChannelMessages>,
    pub next_msg_id: u64,
}

impl View for ClientState {
    type V = ClientModel;

    open spec fn view(&self) -> ClientModel {
        ClientModel {
            server_addr: self.server_addr@,
            user: self.user.deep_view(),
            generated_password: self.generated_password.deep_view(),
            channels: self.channels.deep_view(),
            current_channel: self.current_channel.deep_view(),
            messages_by_channel: self.messages_by_channel.deep_view(),
            next_msg_id: self.next_msg_id,
        }
    }
}

impl ClientState {
    pub open spec fn wf(&self) -> bool {
        self@.wf() && self.crypto.wf()
    }

    /// Whether the state is well formed. The fields are public, so a caller
    /// that wrote to them can ask before it goes on.
    pub fn is_wf(&self) -> (ok: bool)
        ensures
            ok == self.wf(),
    {
        if !self.crypto.is_wf() {
            return false;
        }
        let mut i: usize = 0;
        while i < self.messages_by_channel.len()
            invariant
                i <= self.messages_by_channel.len(),
                forall|a: int, b: int| 0 <= a < b < i ==> self@.names()[a] != self@.names()[b],
                forall|k: int|
                    0 <= k < i ==> (#[trigger] self@.messages_by_channel[k]).messages.len()
                        <= MAX_KEPT_MESSAGES,
            decreases self.messages_by_channel.len() - i,
        {
            if self.messages_by_channel[i].messages.len() > MAX_KEPT_MESSAGES {
                assert(self@.messages_by_channel[i as int].messages.len() > MAX_KEPT_MESSAGES);
                return false;
            }
            let mut j: usize = 0;
            while j < i
                invariant
                    j <= i < self.messages_by_channel.len(),
                    forall|a: int| 0 <= a < j ==> self@.names()[a] != self@.names()[i as int],
                decreases i - j,
            {
                if str_eq(
                    self.messages_by_channel[j].channel.as_str(),
                    self.messages_by_channel[i].channel.as_str(),
                ) {
                    assert(self@.names()[j as int] == self@.names()[i as int]);
                    return false;
                }
                j += 1;
            }
            i += 1;
        }
        true
    }

    pub fn new(server_addr: String) -> (state: Self)
        ensures
            state.wf(),
            state@ == ClientModel::fresh(server_addr@),
    {
        let state = Self {
            server_addr,
            user: None,
            generated_password: None,
            channels: Vec::new(),
            current_channel: None,
            crypto: CryptoState::new(),
            messages_by_channel: Vec::new(),
            next_msg_id: 1,
        };
        proof {
            assert(state@.channels =~= Seq::empty());
            assert(state@.messages_by_channel =~= Seq::empty());
            assert(state@.names() =~= Seq::empty());
        }
        state
    }

    /// Starts over against the same server. The keys of the old session
    /// stay with `crypto` until that is reset as well.
    pub fn reset(&mut self)
        requires
            old(self).wf(),
        ensures
            final(self).wf(),
            final(self)@ == ClientModel::fresh(old(self)@.server_addr),
            final(self).crypto == old(self).crypto,
    {
        self.user = None;
        self.generated_password = None;
        self.channels.clear();
        self.current_channel = None;
        self.messages_by_channel.clear();
        self.next_msg_id = 1;
        proof {
            assert(self@.channels =~= Seq::empty());
            assert(self@.messages_by_channel =~= Seq::empty());
            assert(self@.names() =~= Seq::empty());
        }
    }

    /// The meta for the next message the client sends at `now`.
    pub fn next_meta_at(&mut self, now: Timestamp) -> (meta: MessageMeta)
        ensures
            meta == (MessageMeta { id: old(self)@.next_msg_id, timestamp: now }),
            final(self)@ == (ClientModel {
                next_msg_id: ClientModel::number_after(old(self)@.next_msg_id),
                ..old(self)@
            }),
            final(self).crypto == old(self).crypto,
    {
        let id: u64 = self.next_msg_id;
        self.next_msg_id = if id == u64::MAX {
            0
        } else {
            id + 1
        };
        MessageMeta::new(id, now)
    }

    /// The meta for the next message the client sends now.
    pub fn next_meta(&mut self) -> (meta: MessageMeta)
        ensures
            meta.id == old(self)@.next_msg_id,
            final(self)@ == (ClientModel {
                next_msg_id: ClientModel::number_after(old(self)@.next_msg_id),
                ..old(self)@
            }),
            final(self).crypto == old(self).crypto,
    {
        let now = Timestamp::now();
        self.next_meta_at(now)
    }

    fn position(&self, channel: &str) -> (r: Option<usize>)
        requires
            self@.wf(),
        ensures
            match r {
                Some(i) => self@.names().contains(channel@) && self@.names().index_of(channel@)
                    == i && i < self.messages_by_channel.len(),
                None => !self@.names().contains(channel@),
            },
    {
        let mut i: usize = 0;
        while i < self.messages_by_channel.len()
            invariant
                self@.wf(),
                i <= self.messages_by_channel.len(),
                forall|k: int| 0 <= k < i ==> self@.names()[k] != channel@,
            decreases self.messages_by_channel.len() - i,
        {
            if str_eq(self.messages_by_channel[i].channel.as_str(), channel) {
                proof {
                    index_of_unique(self@.names(), i as int);
                }
                return Some(i);
            }
            i += 1;
        }
        None
    }

    /// Keeps `message` as the newest message of `channel`; of more than 500
    /// the oldest is dropped.
    pub fn push_message(&mut self, channel: &str, message: ChatMessage)
        requires
            old(self).wf(),
        ensures
            final(self).wf(),
            final(self)@ == old(self)@.push_message(channel@, message@),
            final(self).crypto == old(self).crypto,
    {
        proof {
            old(self)@.push_message_keeps_wf(channel@, message@);
        }
        let ghost before = old(self)@.messages_of(channel@);
        match self.position(channel) {
            Some(i) => {
                self.messages_by_channel[i].messages.push(message);
                assert(self.messages_by_channel[i as int]@.messages =~= before.push(message@));
                if self.messages_by_channel[i].messages.len() > MAX_KEPT_MESSAGES {
                    self.messages_by_channel[i].messages.remove(0);
                }
                proof {
                    assert(self.messages_by_channel[i as int]@.messages =~= kept(
                        before,
                        message@,
                    ));
                    assert(old(self)@.names()[i as int] == channel@);
                    assert(self@.messages_by_channel =~= old(self)@.push_message(
                        channel@,
                        message@,
                    ).messages_by_channel);
                }
            },
            None => {
                let mut messages: Vec<ChatMessage> = Vec::new();
                messages.push(message);
                let entry = ChannelMessages { channel: owned(channel), messages };
                assert(entry@.messages =~= kept(before, message@));
                self.messages_by_channel.push(entry);
                assert(self@.messages_by_channel =~= old(self)@.push_message(
                    channel@,
                    message@,
                ).messages_by_channel);
            },
        }
    }

    /// The messages seen in `channel`, oldest first.
    pub fn messages_for(&self, channel: &str) -> (messages: Vec<ChatMessage>)
        requires
            self.wf(),
        ensures
            messages.deep_view() == self@.messages_of(channel@),
    {
        match self.position(channel) {
            Some(i) => {
                let copy = self.messages_by_channel[i].messages.clone();
                assert(
                    copy.deep_view() =~= self.messages_by_channel[i as int].messages.deep_view()
                );
                copy
            },
            None => {
                let none: Vec<ChatMessage> = Vec::new();
                assert(none.deep_view() =~= Seq::empty());
                none
            },
        }
    }

    /// The messages seen in the current channel, oldest first.
    pub fn messages_for_current(&self) -> (messages: Vec<ChatMessage>)
        requires
            self.wf(),
        ensures
            messages.deep_view() == self@.messages_for_current(),
    {
        match &self.current_channel {
            Some(channel) => self.messages_for(channel.as_str()),
            None => {
                let none: Vec<ChatMessage> = Vec::new();
                assert(none.deep_view() =~= Seq::empty());
                none
            },
        }
    }
}

} // verus!
