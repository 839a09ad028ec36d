//! Channels: who is in them and what was said. A channel is made when it is
//! first joined, keeps its newest 100 messages, and numbers them from one
//! counter shared by all channels.
//!
//! Channels are kept in the order they were made and members in the order
//! they joined, so that every listing and every fan-out has one order.

use vstd::prelude::*;
use crate::keyed::{index_of_unique, push_keeps_distinct, remove_keeps_distinct};
use crate::protocol::channel::ChannelType;
use crate::protocol::messages::{
    ChannelId,
    ChannelInfo,
    ChannelInfoModel,
    ChatMessage,
    ChatMessageModel,
    MessageId,
    UserId,
};
use crate::text::{byte_len, lex_less, lex_less_asymmetric, lex_less_transitive, owned, str_eq, str_less};
use crate::time::Timestamp;

verus! {

pub type ClientId = u64;

/// The most messages kept for one channel.
pub const MAX_CHANNEL_MESSAGES: usize = 100;

/// The longest channel password, in bytes, that Argon2 takes.
pub const MAX_PASSWORD_BYTES: u64 = 0xFFFF_FFFF;

/// Whether Argon2id, run on `password` with the salt and parameters that the
/// PHC string `hash` records, reproduces the output recorded there; false
/// where `hash` is no PHC string.
pub uninterp spec fn argon2_verifies(password: Seq<char>, hash: Seq<char>) -> bool;

/// `SaltString::generate` with the operating system's generator, then
/// `Argon2::default().hash_password`: the PHC string of `password` under a
/// fresh salt. The salt is random, so the string is not named; what holds of
/// every outcome is that the password verifies against it. Argon2 refuses
/// passwords over 2^32 - 1 bytes, which `requires` leaves out.
#[verifier::external_body]
fn hash_password(password: &str) -> (hash: String)
    requires
        byte_len(password@) <= MAX_PASSWORD_BYTES,
    ensures
        argon2_verifies(password@, hash@),
{
    let salt = argon2::password_hash::SaltString::generate(&mut rand::rngs::OsRng);
    let argon2 = argon2::Argon2::default();
    argon2::PasswordHasher::hash_password(&argon2, password.as_bytes(), &salt)
        .expect("hash password")
        .to_string()
}

/// `PasswordHash::new` followed by `Argon2::default().verify_password`:
/// whether `password` verifies against the PHC string `hash`.
#[verifier::external_body]
fn verify_password(password: &str, hash: &str) -> (ok: bool)
    ensures
        ok == argon2_verifies(password@, hash@),
{
    let argon2 = argon2::Argon2::default();
    let Ok(parsed) = argon2::PasswordHash::new(hash) else {
        return false;
    };
    argon2::PasswordVerifier::verify_password(&argon2, password.as_bytes(), &parsed).is_ok()
}

/// Whether `password` opens a channel kept under `hash`: any password
/// where there is no hash, else the one that verifies against it.
pub open spec fn opens(hash: Option<Seq<char>>, password: Option<Seq<char>>) -> bool {
    match hash {
        Some(h) => argon2_verifies(presented(password), h),
        None => true,
    }
}

/// Whether `password` opens a channel kept under `hash`.
pub fn hash_admits(hash: &Option<String>, password: &Option<String>) -> (ok: bool)
    ensures
        ok == opens(hash.deep_view(), password.deep_view()),
{
    match hash {
        Some(h) => {
            let given = match password {
                Some(p) => p.as_str(),
                None => "",
            };
            proof {
                reveal_strlit("");
                assert(given@ =~= presented(password.deep_view()));
            }
            verify_password(given, h.as_str())
        },
        None => true,
    }
}

/// One channel.
#[derive(Debug)]
pub struct Channel {
    pub id: ChannelId,
    pub name: String,
    pub is_public: bool,
    pub password_hash: Option<String>,
    pub messages: Vec<ChatMessage>,
    pub members: Vec<ClientId>,
    /// The user on whose behalf the channel was made, where there was one.
    pub creator: Option<UserId>,
}

/// The model of a [`Channel`].
pub struct ChannelModel {
    pub id: ChannelId,
    pub name: Seq<char>,
    pub is_public: bool,
    pub password_hash: Option<Seq<char>>,
    pub messages: Seq<ChatMessageModel>,
    pub members: Seq<ClientId>,
    pub creator: Option<UserId>,
}

impl View for Channel {
    type V = ChannelModel;

    open spec fn view(&self) -> ChannelModel {
        ChannelModel {
            id: self.id,
            name: self.name@,
            is_public: self.is_public,
            password_hash: self.password_hash.deep_view(),
            messages: self.messages.deep_view(),
            members: self.members@,
            creator: self.creator,
        }
    }
}

impl DeepView for Channel {
    type V = ChannelModel;

    open spec fn deep_view(&self) -> ChannelModel {
        self@
    }
}

/// The password a join presents: the one given, else the empty one.
pub open spec fn presented(password: Option<Seq<char>>) -> Seq<char> {
    match password {
        Some(p) => p,
        None => Seq::empty(),
    }
}

/// `message` as the channel engine stores it: under its own id and stamp.
pub open spec fn stamped(
    message: ChatMessageModel,
    id: MessageId,
    now: Timestamp,
) -> ChatMessageModel {
    ChatMessageModel { id, timestamp: now, ..message }
}

impl ChannelModel {
    /// The channel as it is listed.
    pub open spec fn info(self) -> ChannelInfoModel {
        ChannelInfoModel {
            id: self.id,
            name: self.name,
            is_public: self.is_public,
            channel_type: ChannelType::Public,
            user_role: None,
        }
    }

    /// At most 100 messages, their ids strictly increasing and below the
    /// next id; no member listed twice.
    pub open spec fn wf(self, next_message_id: MessageId) -> bool {
        &&& self.messages.len() <= MAX_CHANNEL_MESSAGES
        &&& forall|i: int, j: int|
            0 <= i < j < self.messages.len() ==> (#[trigger] self.messages[i]).id < (
            #[trigger] self.messages[j]).id
        &&& forall|i: int|
            0 <= i < self.messages.len() ==> (#[trigger] self.messages[i]).id < next_message_id
        &&& self.members.no_duplicates()
    }

    /// No message carries an earlier stamp than the one before it.
    pub open spec fn time_ordered(self) -> bool {
        forall|i: int, j: int|
            0 <= i < j < self.messages.len() ==> (#[trigger] self.messages[j]).timestamp.not_before(
                (#[trigger] self.messages[i]).timestamp,
            )
    }

    /// The stamp of the newest message.
    pub open spec fn newest_stamp(self) -> Option<Timestamp> {
        if self.messages.len() == 0 {
            None
        } else {
            Some(self.messages.last().timestamp)
        }
    }

    /// `now` is not earlier than the stamp of the newest message.
    pub open spec fn accepts_stamp(self, now: Timestamp) -> bool {
        match self.newest_stamp() {
            Some(newest) => now.not_before(newest),
            None => true,
        }
    }

    /// Whether a join with `password` is let in.
    pub open spec fn admits(self, password: Option<Seq<char>>) -> bool {
        match self.password_hash {
            Some(hash) => argon2_verifies(presented(password), hash),
            None => true,
        }
    }

    pub open spec fn joined(self, client_id: ClientId) -> ChannelModel {
        if self.members.contains(client_id) {
            self
        } else {
            ChannelModel { members: self.members.push(client_id), ..self }
        }
    }

    pub open spec fn left(self, client_id: ClientId) -> ChannelModel {
        if self.members.contains(client_id) {
            ChannelModel { members: self.members.remove(self.members.index_of(client_id)), ..self }
        } else {
            self
        }
    }

    /// The channel after `message` was appended: the newest 100 messages.
    pub open spec fn appended(self, message: ChatMessageModel) -> ChannelModel {
        let all = self.messages.push(message);
        ChannelModel {
            messages: if all.len() > MAX_CHANNEL_MESSAGES {
                all.subrange(all.len() - MAX_CHANNEL_MESSAGES, all.len() as int)
            } else {
                all
            },
            ..self
        }
    }

    /// The newest `limit` messages, oldest first.
    pub open spec fn recent(self, limit: nat) -> Seq<ChatMessageModel> {
        if limit < self.messages.len() {
            self.messages.subrange(self.messages.len() - limit, self.messages.len() as int)
        } else {
            self.messages
        }
    }

    pub open spec fn message_ids(self) -> Seq<MessageId> {
        Seq::new(self.messages.len(), |i: int| self.messages[i].id)
    }

    pub open spec fn has_message(self, id: MessageId) -> bool {
        self.message_ids().contains(id)
    }

    pub open spec fn without_message(self, id: MessageId) -> ChannelModel {
        if self.has_message(id) {
            ChannelModel {
                messages: self.messages.remove(self.message_ids().index_of(id)),
                ..self
            }
        } else {
            self
        }
    }

    pub proof fn joined_keeps_wf(self, client_id: ClientId, next: MessageId)
        requires
            self.wf(next),
        ensures
            self.joined(client_id).wf(next),
            self.joined(client_id).members.contains(client_id),
            forall|other: ClientId|
                other != client_id ==> (#[trigger] self.joined(client_id).members.contains(other)
                    <==> self.members.contains(other)),
    {
        if !self.members.contains(client_id) {
            push_keeps_distinct(self.members, client_id);
        }
    }

    pub proof fn left_keeps_wf(self, client_id: ClientId, next: MessageId)
        requires
            self.wf(next),
        ensures
            self.left(client_id).wf(next),
            !self.left(client_id).members.contains(client_id),
            forall|other: ClientId|
                other != client_id ==> (#[trigger] self.left(client_id).members.contains(other)
                    <==> self.members.contains(other)),
    {
        if self.members.contains(client_id) {
            remove_keeps_distinct(self.members, self.members.index_of(client_id));
        }
    }

    /// Appending a message with a fresh id keeps the channel well formed;
    /// appending one stamped no earlier than the newest keeps the stamps in
    /// order.
    pub proof fn appended_keeps_wf(self, message: ChatMessageModel, next: MessageId)
        requires
            self.wf(next),
            message.id == next,
            next < u64::MAX,
        ensures
            self.appended(message).wf((next + 1) as MessageId),
            self.appended(message).messages.len() <= MAX_CHANNEL_MESSAGES,
            self.appended(message).messages.last() == message,
            self.time_ordered() && self.accepts_stamp(message.timestamp) ==> self.appended(
                message,
            ).time_ordered(),
    {
        let all = self.messages.push(message);
        let after = self.appended(message);
        assert forall|i: int, j: int| 0 <= i < j < all.len() implies (#[trigger] all[i]).id < (
        #[trigger] all[j]).id by {
            if j < self.messages.len() {
                assert(self.messages[i].id < self.messages[j].id);
            } else {
                assert(self.messages[i].id < next);
            }
        }
        if self.time_ordered() && self.accepts_stamp(message.timestamp) {
            assert forall|i: int, j: int| 0 <= i < j < all.len() implies (
            #[trigger] all[j]).timestamp.not_before((#[trigger] all[i]).timestamp) by {
                if j < self.messages.len() {
                    assert(self.messages[j].timestamp.not_before(self.messages[i].timestamp));
                } else {
                    let last = self.messages.len() - 1;
                    if i < last {
                        assert(self.messages[last].timestamp.not_before(
                            self.messages[i].timestamp,
                        ));
                    }
                }
            }
            if all.len() > MAX_CHANNEL_MESSAGES {
                let off = all.len() - MAX_CHANNEL_MESSAGES;
                assert forall|i: int, j: int| 0 <= i < j < after.messages.len() implies (
                #[trigger] after.messages[j]).timestamp.not_before(
                    (#[trigger] after.messages[i]).timestamp,
                ) by {
                    assert(all[j + off].timestamp.not_before(all[i + off].timestamp));
                }
            }
        }
        if all.len() > MAX_CHANNEL_MESSAGES {
            let off = all.len() - MAX_CHANNEL_MESSAGES;
            assert forall|i: int, j: int| 0 <= i < j < after.messages.len() implies (
            #[trigger] after.messages[i]).id < (#[trigger] after.messages[j]).id by {
                assert(all[i + off].id < all[j + off].id);
            }
            assert forall|i: int| 0 <= i < after.messages.len() implies (
            #[trigger] after.messages[i]).id < next + 1 by {
                assert(after.messages[i] == all[i + off]);
            }
        }
    }

    pub proof fn without_message_keeps_wf(self, id: MessageId, next: MessageId)
        requires
            self.wf(next),
        ensures
            self.without_message(id).wf(next),
            self.time_ordered() ==> self.without_message(id).time_ordered(),
    {
        if self.has_message(id) {
            let k = self.message_ids().index_of(id);
            let after = self.without_message(id);
            assert forall|i: int, j: int| 0 <= i < j < after.messages.len() implies (
            #[trigger] after.messages[i]).id < (#[trigger] after.messages[j]).id by {
                let i2 = if i < k { i } else { i + 1 };
                let j2 = if j < k { j } else { j + 1 };
                assert(self.messages[i2].id < self.messages[j2].id);
            }
            assert forall|i: int| 0 <= i < after.messages.len() implies (
            #[trigger] after.messages[i]).id < next by {
                let i2 = if i < k { i } else { i + 1 };
                assert(after.messages[i] == self.messages[i2]);
            }
            if self.time_ordered() {
                assert forall|i: int, j: int| 0 <= i < j < after.messages.len() implies (
                #[trigger] after.messages[j]).timestamp.not_before(
                    (#[trigger] after.messages[i]).timestamp,
                ) by {
                    let i2 = if i < k { i } else { i + 1 };
                    let j2 = if j < k { j } else { j + 1 };
                    assert(self.messages[j2].timestamp.not_before(self.messages[i2].timestamp));
                }
            }
        }
    }
}

/// The model of a [`ChannelManager`]: the channels in the order they were
/// made, and the two counters.
pub struct ChannelsModel {
    pub channels: Seq<ChannelModel>,
    pub next_channel_id: ChannelId,
    pub next_message_id: MessageId,
}

impl ChannelsModel {
    /// The channel names, in order of creation.
    pub open spec fn names(self) -> Seq<Seq<char>> {
        Seq::new(self.channels.len(), |i: int| self.channels[i].name)
    }

    /// Names are unique; channel ids are unique and below the next channel
    /// id; every channel is well formed.
    pub open spec fn wf(self) -> bool {
        &&& self.names().no_duplicates()
        &&& forall|i: int|
            0 <= i < self.channels.len() ==> (#[trigger] self.channels[i]).id
                < self.next_channel_id
        &&& forall|i: int, j: int|
            0 <= i < j < self.channels.len() ==> (#[trigger] self.channels[i]).id < (
            #[trigger] self.channels[j]).id
        &&& forall|i: int|
            0 <= i < self.channels.len() ==> (#[trigger] self.channels[i]).wf(
                self.next_message_id,
            )
    }

    /// In every channel the stamps of the messages never go back.
    pub open spec fn time_ordered(self) -> bool {
        forall|i: int| 0 <= i < self.channels.len() ==> (#[trigger] self.channels[i]).time_ordered()
    }

    pub open spec fn has(self, name: Seq<char>) -> bool {
        self.names().contains(name)
    }

    /// The clock reading `now` is not earlier than the newest message of the
    /// channel called `name`.
    pub open spec fn clock_fits(self, name: Seq<char>, now: Timestamp) -> bool {
        self.has(name) ==> self.channel(name).accepts_stamp(now)
    }

    /// Where the channel called `name` stands.
    pub open spec fn index(self, name: Seq<char>) -> int {
        self.names().index_of(name)
    }

    /// The channel called `name`.
    pub open spec fn channel(self, name: Seq<char>) -> ChannelModel
        recommends
            self.has(name),
    {
        self.channels[self.index(name)]
    }

    /// The channels with the one called `name` replaced by `channel`.
    pub open spec fn with_channel(self, name: Seq<char>, channel: ChannelModel) -> ChannelsModel {
        ChannelsModel { channels: self.channels.update(self.index(name), channel), ..self }
    }

    pub open spec fn get_channel_id(self, name: Seq<char>) -> Option<ChannelId> {
        if self.has(name) {
            Some(self.channel(name).id)
        } else {
            None
        }
    }

    /// The channel that `ensure_channel` makes where none is called `name`:
    /// private exactly if it has a password hash.
    pub open spec fn fresh(
        self,
        name: Seq<char>,
        is_public: bool,
        password_hash: Option<Seq<char>>,
        creator: Option<UserId>,
    ) -> ChannelModel {
        ChannelModel {
            id: self.next_channel_id,
            name,
            is_public: password_hash is None && is_public,
            password_hash,
            messages: Seq::empty(),
            members: Seq::empty(),
            creator,
        }
    }

    pub open spec fn ensure_channel(
        self,
        name: Seq<char>,
        is_public: bool,
        password_hash: Option<Seq<char>>,
        creator: Option<UserId>,
    ) -> ChannelsModel {
        if self.has(name) {
            self
        } else {
            ChannelsModel {
                channels: self.channels.push(self.fresh(name, is_public, password_hash, creator)),
                next_channel_id: (self.next_channel_id + 1) as ChannelId,
                ..self
            }
        }
    }

    /// What a join of the channel called `name` answers.
    pub open spec fn join_outcome(self, name: Seq<char>, password: Option<Seq<char>>) -> Result<
        ChannelInfoModel,
        Seq<char>,
    > {
        if !self.has(name) {
            Err("channel not found"@)
        } else if !self.channel(name).admits(password) {
            Err("invalid channel password"@)
        } else {
            Ok(self.channel(name).info())
        }
    }

    /// The channels after `client_id` was let into the one called `name`.
    pub open spec fn admitted(self, client_id: ClientId, name: Seq<char>) -> ChannelsModel {
        if self.has(name) {
            self.with_channel(name, self.channel(name).joined(client_id))
        } else {
            self
        }
    }

    /// The channels after `client_id` asked to join the one called `name`.
    pub open spec fn join(
        self,
        client_id: ClientId,
        name: Seq<char>,
        password: Option<Seq<char>>,
    ) -> ChannelsModel {
        if self.join_outcome(name, password) is Ok {
            self.admitted(client_id, name)
        } else {
            self
        }
    }

    /// The channels after `client_id` joined the channel called `name` that
    /// did not exist before and was made with the password hash `hash`.
    pub open spec fn create_and_join(
        self,
        client_id: ClientId,
        name: Seq<char>,
        password: Option<Seq<char>>,
        hash: Option<Seq<char>>,
    ) -> ChannelsModel {
        self.ensure_channel(name, true, hash, None).join(client_id, name, password)
    }

    pub open spec fn leave(self, client_id: ClientId, name: Seq<char>) -> ChannelsModel {
        if self.has(name) {
            self.with_channel(name, self.channel(name).left(client_id))
        } else {
            self
        }
    }

    pub open spec fn members(self, name: Seq<char>) -> Seq<ClientId> {
        if self.has(name) {
            self.channel(name).members
        } else {
            Seq::empty()
        }
    }

    pub open spec fn is_member(self, client_id: ClientId, name: Seq<char>) -> bool {
        self.members(name).contains(client_id)
    }

    /// What appending `message` to the channel called `name` at `now`
    /// answers: the message as stored.
    pub open spec fn add_message_outcome(
        self,
        name: Seq<char>,
        message: ChatMessageModel,
        now: Timestamp,
    ) -> Result<
        ChatMessageModel,
        Seq<char>,
    > {
        if self.has(name) {
            Ok(stamped(message, self.next_message_id, now))
        } else {
            Err("channel not found"@)
        }
    }

    pub open spec fn add_message(
        self,
        name: Seq<char>,
        message: ChatMessageModel,
        now: Timestamp,
    ) -> ChannelsModel {
        if self.has(name) {
            ChannelsModel {
                channels: self.channels.update(
                    self.index(name),
                    self.channel(name).appended(stamped(message, self.next_message_id, now)),
                ),
                next_message_id: (self.next_message_id + 1) as MessageId,
                ..self
            }
        } else {
            self
        }
    }

    pub open spec fn history(self, name: Seq<char>, limit: nat) -> Seq<ChatMessageModel> {
        if self.has(name) {
            self.channel(name).recent(limit)
        } else {
            Seq::empty()
        }
    }

    pub open spec fn has_message(self, name: Seq<char>, id: MessageId) -> bool {
        self.has(name) && self.channel(name).has_message(id)
    }

    pub open spec fn delete_message(self, name: Seq<char>, id: MessageId) -> ChannelsModel {
        if self.has(name) {
            self.with_channel(name, self.channel(name).without_message(id))
        } else {
            self
        }
    }

    pub open spec fn delete_channel(self, name: Seq<char>) -> ChannelsModel {
        if self.has(name) {
            ChannelsModel { channels: self.channels.remove(self.index(name)), ..self }
        } else {
            self
        }
    }

    /// Among the first `n` channels, the public ones as they are listed.
    pub open spec fn public_among(self, n: nat) -> Seq<ChannelInfoModel>
        decreases n,
    {
        if n == 0 || n > self.channels.len() {
            Seq::empty()
        } else {
            let earlier = self.public_among((n - 1) as nat);
            if self.channels[n - 1].is_public {
                earlier.push(self.channels[n - 1].info())
            } else {
                earlier
            }
        }
    }

    /// The public channels as they are listed, in order of creation.
    pub open spec fn public_infos(self) -> Seq<ChannelInfoModel> {
        self.public_among(self.channels.len())
    }

    /// Among the first `n` channels, the public ones as they are listed,
    /// sorted by name.
    pub open spec fn sorted_public_among(self, n: nat) -> Seq<ChannelInfoModel>
        decreases n,
    {
        if n == 0 || n > self.channels.len() {
            Seq::empty()
        } else {
            let earlier = self.sorted_public_among((n - 1) as nat);
            if self.channels[n - 1].is_public {
                inserted_by_name(earlier, self.channels[n - 1].info())
            } else {
                earlier
            }
        }
    }

    /// The public channels as they are listed, sorted by name.
    pub open spec fn list_public(self) -> Seq<ChannelInfoModel> {
        self.sorted_public_among(self.channels.len())
    }

    /// The sorted list holds the public channels, each once, names never
    /// going down.
    pub proof fn sorted_public_among_is_sorted(self, n: nat)
        requires
            n <= self.channels.len(),
        ensures
            sorted_by_name(self.sorted_public_among(n)),
            self.sorted_public_among(n).to_multiset() == self.public_among(n).to_multiset(),
        decreases n,
    {
        if n > 0 {
            self.sorted_public_among_is_sorted((n - 1) as nat);
            if self.channels[n - 1].is_public {
                inserted_by_name_sorted(
                    self.sorted_public_among((n - 1) as nat),
                    self.channels[n - 1].info(),
                );
                vstd::seq_lib::to_multiset_build(
                    self.public_among((n - 1) as nat),
                    self.channels[n - 1].info(),
                );
            }
        }
    }

    /// Replacing a channel by one of the same name and id that is itself
    /// well formed keeps the store well formed and every other channel as it
    /// was.
    pub proof fn with_channel_keeps_wf(self, name: Seq<char>, channel: ChannelModel)
        requires
            self.wf(),
            self.has(name),
            channel.name == name,
            channel.id == self.channel(name).id,
            channel.wf(self.next_message_id),
        ensures
            self.with_channel(name, channel).wf(),
            self.with_channel(name, channel).names() == self.names(),
            self.with_channel(name, channel).channel(name) == channel,
            forall|other: Seq<char>|
                self.has(other) <==> #[trigger] self.with_channel(name, channel).has(other),
            forall|other: Seq<char>|
                other != name && self.has(other) ==> #[trigger] self.with_channel(
                    name,
                    channel,
                ).channel(other) == self.channel(other),
            self.time_ordered() && channel.time_ordered() ==> self.with_channel(
                name,
                channel,
            ).time_ordered(),
    {
        let after = self.with_channel(name, channel);
        let k = self.index(name);
        assert(after.names() =~= self.names());
        assert forall|i: int, j: int| 0 <= i < j < after.channels.len() implies (
        #[trigger] after.channels[i]).id < (#[trigger] after.channels[j]).id by {
            assert(self.channels[i].id < self.channels[j].id);
        }
        assert forall|other: Seq<char>| other != name && self.has(other) implies (
        #[trigger] after.channel(other)) == self.channel(other) by {
            assert(self.names()[self.index(other)] == other);
        }
    }

    pub proof fn ensure_channel_keeps_wf(
        self,
        name: Seq<char>,
        is_public: bool,
        password_hash: Option<Seq<char>>,
        creator: Option<UserId>,
    )
        requires
            self.wf(),
            self.next_channel_id < u64::MAX,
        ensures
            self.ensure_channel(name, is_public, password_hash, creator).wf(),
            self.ensure_channel(name, is_public, password_hash, creator).has(name),
            !self.has(name)
                ==> self.ensure_channel(name, is_public, password_hash, creator).channel(
                name,
            ) == self.fresh(name, is_public, password_hash, creator),
            self.has(name) ==> self.ensure_channel(name, is_public, password_hash, creator)
                == self,
            forall|other: Seq<char>|
                self.has(other) ==> #[trigger] self.ensure_channel(
                    name,
                    is_public,
                    password_hash,
                    creator,
                ).has(other) && self.ensure_channel(
                    name,
                    is_public,
                    password_hash,
                    creator,
                ).channel(
                    other,
                ) == self.channel(other),
            forall|other: Seq<char>|
                #[trigger] self.ensure_channel(name, is_public, password_hash, creator).has(other)
                    ==> other == name || self.has(other),
            self.time_ordered() ==> self.ensure_channel(
                name,
                is_public,
                password_hash,
                creator,
            ).time_ordered(),
    {
        if !self.has(name) {
            let after = self.ensure_channel(name, is_public, password_hash, creator);
            let fresh = self.fresh(name, is_public, password_hash, creator);
            assert(after.names() =~= self.names().push(name));
            push_keeps_distinct(self.names(), name);
            assert forall|i: int, j: int| 0 <= i < j < after.channels.len() implies (
            #[trigger] after.channels[i]).id < (#[trigger] after.channels[j]).id by {
                if j < self.channels.len() {
                    assert(self.channels[i].id < self.channels[j].id);
                } else {
                    assert(self.channels[i].id < self.next_channel_id);
                }
            }
            assert forall|i: int| 0 <= i < after.channels.len() implies (
            #[trigger] after.channels[i]).wf(after.next_message_id) by {
                if i < self.channels.len() {
                    assert(self.channels[i].wf(self.next_message_id));
                }
            }
            assert forall|other: Seq<char>| self.has(other) implies #[trigger] after.has(other)
                && after.channel(other) == self.channel(other) by {
                assert(self.names().contains(other));
            }
            if self.time_ordered() {
                assert forall|i: int| 0 <= i < after.channels.len() implies (
                #[trigger] after.channels[i]).time_ordered() by {
                    if i < self.channels.len() {
                        assert(self.channels[i].time_ordered());
                    }
                }
            }
        }
    }

    /// Appending a message keeps the store well formed, leaves every other
    /// channel as it was, never lets a channel exceed 100 messages, and gives
    /// the message an id above every id handed out before.
    pub proof fn add_message_keeps_wf(
        self,
        name: Seq<char>,
        message: ChatMessageModel,
        now: Timestamp,
    )
        requires
            self.wf(),
            self.next_message_id < u64::MAX,
        ensures
            self.add_message(name, message, now).wf(),
            self.add_message(name, message, now).names() == self.names(),
            forall|other: Seq<char>|
                other != name && self.has(other) ==> #[trigger] self.add_message(
                    name,
                    message,
                    now,
                ).channel(other) == self.channel(other),
            self.has(name) ==> self.add_message(name, message, now).channel(name)
                == self.channel(name).appended(stamped(message, self.next_message_id, now)),
            self.has(name) ==> self.add_message(name, message, now).channel(
                name,
            ).messages.len() > 0 && self.add_message(name, message, now).channel(
                name,
            ).messages.last() == stamped(message, self.next_message_id, now),
            self.time_ordered() && self.clock_fits(name, now) ==> self.add_message(
                name,
                message,
                now,
            ).time_ordered(),
    {
        if self.has(name) {
            let after = self.add_message(name, message, now);
            let k = self.index(name);
            let stored = stamped(message, self.next_message_id, now);
            self.channel(name).appended_keeps_wf(stored, self.next_message_id);
            assert(after.names() =~= self.names());
            assert forall|i: int, j: int| 0 <= i < j < after.channels.len() implies (
            #[trigger] after.channels[i]).id < (#[trigger] after.channels[j]).id by {
                assert(self.channels[i].id < self.channels[j].id);
            }
            assert forall|i: int| 0 <= i < after.channels.len() implies (
            #[trigger] after.channels[i]).wf(after.next_message_id) by {
                if i != k {
                    assert(self.channels[i].wf(self.next_message_id));
                }
            }
            assert forall|other: Seq<char>| other != name && self.has(other) implies (
            #[trigger] after.channel(other)) == self.channel(other) by {
                assert(self.names()[self.index(other)] == other);
            }
            if self.time_ordered() && self.clock_fits(name, now) {
                assert forall|i: int| 0 <= i < after.channels.len() implies (
                #[trigger] after.channels[i]).time_ordered() by {
                    if i != k {
                        assert(self.channels[i].time_ordered());
                    }
                }
            }
        }
    }

    /// Leaving a channel ends that one membership and no other.
    pub proof fn leave_keeps_wf(self, client_id: ClientId, name: Seq<char>)
        requires
            self.wf(),
        ensures
            self.leave(client_id, name).wf(),
            self.leave(client_id, name).names() == self.names(),
            self.leave(client_id, name).next_channel_id == self.next_channel_id,
            self.leave(client_id, name).next_message_id == self.next_message_id,
            forall|c: ClientId, n: Seq<char>|
                #![trigger self.leave(client_id, name).is_member(c, n)]
                self.leave(client_id, name).is_member(c, n) <==> self.is_member(c, n) && !(c
                    == client_id && n == name),
            forall|n: Seq<char>|
                self.has(n) ==> #[trigger] self.leave(client_id, name).channel(n).id
                    == self.channel(n).id && self.leave(client_id, name).channel(n).messages
                    == self.channel(n).messages && self.leave(client_id, name).channel(
                    n,
                ).password_hash == self.channel(n).password_hash && self.leave(
                    client_id,
                    name,
                ).channel(n).is_public == self.channel(n).is_public,
            self.time_ordered() ==> self.leave(client_id, name).time_ordered(),
    {
        if self.has(name) {
            let before = self.channel(name);
            before.left_keeps_wf(client_id, self.next_message_id);
            self.with_channel_keeps_wf(name, before.left(client_id));
            assert(self.time_ordered() ==> before.left(client_id).time_ordered()) by {
                if self.time_ordered() {
                    assert(self.channels[self.index(name)].time_ordered());
                }
            }
        }
    }

    /// A join that is let in adds that one membership and no other; a join
    /// that is refused changes nothing.
    pub proof fn join_keeps_wf(
        self,
        client_id: ClientId,
        name: Seq<char>,
        password: Option<Seq<char>>,
    )
        requires
            self.wf(),
        ensures
            self.join(client_id, name, password).wf(),
            self.join(client_id, name, password).names() == self.names(),
            self.join(client_id, name, password).next_channel_id == self.next_channel_id,
            self.join(client_id, name, password).next_message_id == self.next_message_id,
            forall|c: ClientId, n: Seq<char>|
                #![trigger self.join(client_id, name, password).is_member(c, n)]
                self.join(client_id, name, password).is_member(c, n) <==> self.is_member(c, n)
                    || (self.join_outcome(name, password) is Ok && c == client_id && n == name),
            forall|n: Seq<char>|
                self.has(n) ==> #[trigger] self.join(client_id, name, password).channel(n).id
                    == self.channel(n).id && self.join(client_id, name, password).channel(
                    n,
                ).messages == self.channel(n).messages,
            self.time_ordered() ==> self.join(client_id, name, password).time_ordered(),
    {
        if self.join_outcome(name, password) is Ok {
            let before = self.channel(name);
            before.joined_keeps_wf(client_id, self.next_message_id);
            self.with_channel_keeps_wf(name, before.joined(client_id));
            assert(self.time_ordered() ==> before.joined(client_id).time_ordered()) by {
                if self.time_ordered() {
                    assert(self.channels[self.index(name)].time_ordered());
                }
            }
        }
    }

    /// Making a channel adds no membership.
    pub proof fn ensure_channel_adds_no_member(
        self,
        name: Seq<char>,
        is_public: bool,
        password_hash: Option<Seq<char>>,
        creator: Option<UserId>,
    )
        requires
            self.wf(),
            self.next_channel_id < u64::MAX,
        ensures
            forall|c: ClientId, n: Seq<char>|
                #![trigger self.ensure_channel(
                    name,
                    is_public,
                    password_hash,
                    creator,
                ).is_member(c, n)]
                self.ensure_channel(name, is_public, password_hash, creator).is_member(c, n)
                    <==> self.is_member(c, n),
    {
        self.ensure_channel_keeps_wf(name, is_public, password_hash, creator);
    }

    /// Appending a message changes no membership.
    pub proof fn add_message_keeps_members(
        self,
        name: Seq<char>,
        message: ChatMessageModel,
        now: Timestamp,
    )
        requires
            self.wf(),
            self.next_message_id < u64::MAX,
        ensures
            forall|c: ClientId, n: Seq<char>|
                #![trigger self.add_message(name, message, now).is_member(c, n)]
                self.add_message(name, message, now).is_member(c, n) <==> self.is_member(c, n),
    {
        self.add_message_keeps_wf(name, message, now);
        assert forall|c: ClientId, n: Seq<char>|
            #![trigger self.add_message(name, message, now).is_member(c, n)]
            self.add_message(name, message, now).is_member(c, n) <==> self.is_member(c, n) by {
            assert(self.add_message(name, message, now).has(n) <==> self.has(n));
        }
    }

    /// Deleting a message changes no membership.
    pub proof fn delete_message_keeps_members(self, name: Seq<char>, id: MessageId)
        requires
            self.wf(),
        ensures
            self.delete_message(name, id).wf(),
            forall|c: ClientId, n: Seq<char>|
                #![trigger self.delete_message(name, id).is_member(c, n)]
                self.delete_message(name, id).is_member(c, n) <==> self.is_member(c, n),
    {
        if self.has(name) {
            let before = self.channel(name);
            before.without_message_keeps_wf(id, self.next_message_id);
            self.with_channel_keeps_wf(name, before.without_message(id));
        }
    }

    /// Deleting a channel ends the memberships in it and no other.
    pub proof fn delete_channel_ends_memberships(self, name: Seq<char>)
        requires
            self.wf(),
        ensures
            forall|c: ClientId, n: Seq<char>|
                #![trigger self.delete_channel(name).is_member(c, n)]
                self.delete_channel(name).is_member(c, n) <==> self.is_member(c, n) && n != name,
    {
        self.delete_channel_keeps_wf(name);
    }

    pub proof fn delete_channel_keeps_wf(self, name: Seq<char>)
        requires
            self.wf(),
        ensures
            self.delete_channel(name).wf(),
            !self.delete_channel(name).has(name),
            forall|other: Seq<char>|
                other != name ==> (self.has(other) <==> #[trigger] self.delete_channel(name).has(
                    other,
                )),
            forall|other: Seq<char>|
                other != name && self.has(other) ==> #[trigger] self.delete_channel(name).channel(
                    other,
                ) == self.channel(other),
            self.time_ordered() ==> self.delete_channel(name).time_ordered(),
    {
        if self.has(name) {
            let k = self.index(name);
            let after = self.delete_channel(name);
            assert(after.names() =~= self.names().remove(k));
            remove_keeps_distinct(self.names(), k);
            assert forall|i: int, j: int| 0 <= i < j < after.channels.len() implies (
            #[trigger] after.channels[i]).id < (#[trigger] after.channels[j]).id by {
                let i2 = if i < k { i } else { i + 1 };
                let j2 = if j < k { j } else { j + 1 };
                assert(self.channels[i2].id < self.channels[j2].id);
            }
            assert forall|i: int| 0 <= i < after.channels.len() implies (
            #[trigger] after.channels[i]).id < after.next_channel_id && after.channels[i].wf(
                after.next_message_id,
            ) by {
                let i2 = if i < k { i } else { i + 1 };
                assert(after.channels[i] == self.channels[i2]);
            }
            assert forall|other: Seq<char>| other != name && self.has(other) implies (
            #[trigger] after.channel(other)) == self.channel(other) by {
                assert(after.has(other));
                let j = after.names().index_of(other);
            }
            if self.time_ordered() {
                assert forall|i: int| 0 <= i < after.channels.len() implies (
                #[trigger] after.channels[i]).time_ordered() by {
                    let i2 = if i < k { i } else { i + 1 };
                    assert(after.channels[i] == self.channels[i2]);
                }
            }
        }
    }
}

/// The names never go down along `list`.
pub open spec fn sorted_by_name(list: Seq<ChannelInfoModel>) -> bool {
    forall|i: int, j: int|
        0 <= i < j < list.len() ==> !lex_less((#[trigger] list[j]).name, (#[trigger] list[i]).name)
}

/// Whether `password` asks for a private channel: it is there and not empty.
pub open spec fn asks_for_hash(password: Option<Seq<char>>) -> bool {
    password is Some && password->0.len() > 0
}

/// Where `name` goes in the name-sorted `list`: in front of the first entry
/// with a greater name, so behind every entry whose name is not greater.
pub open spec fn place_by_name(list: Seq<ChannelInfoModel>, name: Seq<char>) -> nat
    decreases list.len(),
{
    if list.len() == 0 || lex_less(name, list[0].name) {
        0
    } else {
        1 + place_by_name(list.drop_first(), name)
    }
}

/// `list` with `info` put in by name.
pub open spec fn inserted_by_name(list: Seq<ChannelInfoModel>, info: ChannelInfoModel) -> Seq<
    ChannelInfoModel,
> {
    list.insert(place_by_name(list, info.name) as int, info)
}

/// The place found by scanning from the front is the place by name.
pub proof fn place_by_name_found(list: Seq<ChannelInfoModel>, name: Seq<char>, k: int)
    requires
        0 <= k <= list.len(),
        forall|i: int| 0 <= i < k ==> !lex_less(name, (#[trigger] list[i]).name),
        k < list.len() ==> lex_less(name, list[k].name),
    ensures
        place_by_name(list, name) == k,
    decreases list.len(),
{
    if k > 0 {
        assert(!lex_less(name, list[0].name));
        let rest = list.drop_first();
        assert forall|i: int| 0 <= i < k - 1 implies !lex_less(name, (#[trigger] rest[i]).name) by {
            assert(rest[i] == list[i + 1]);
        }
        place_by_name_found(rest, name, k - 1);
    }
}

/// The place by name lies within the list, behind entries that are not
/// greater and in front of one that is.
pub proof fn place_by_name_bounds(list: Seq<ChannelInfoModel>, name: Seq<char>)
    ensures
        place_by_name(list, name) <= list.len(),
        forall|i: int|
            0 <= i < place_by_name(list, name) ==> !lex_less(name, (#[trigger] list[i]).name),
        place_by_name(list, name) < list.len() ==> lex_less(
            name,
            list[place_by_name(list, name) as int].name,
        ),
    decreases list.len(),
{
    if !(list.len() == 0 || lex_less(name, list[0].name)) {
        let rest = list.drop_first();
        place_by_name_bounds(rest, name);
        assert forall|i: int| 0 <= i < place_by_name(list, name) implies !lex_less(
            name,
            (#[trigger] list[i]).name,
        ) by {
            if i > 0 {
                assert(list[i] == rest[i - 1]);
            }
        }
        if place_by_name(list, name) < list.len() {
            assert(
                list[place_by_name(list, name) as int] == rest[place_by_name(rest, name) as int]
            );
        }
    }
}

/// Putting an entry into a sorted list by name keeps the list sorted and
/// adds exactly that entry.
pub proof fn inserted_by_name_sorted(list: Seq<ChannelInfoModel>, info: ChannelInfoModel)
    requires
        sorted_by_name(list),
    ensures
        sorted_by_name(inserted_by_name(list, info)),
        inserted_by_name(list, info).to_multiset() == list.to_multiset().insert(info),
        inserted_by_name(list, info).len() == list.len() + 1,
{
    place_by_name_bounds(list, info.name);
    let k = place_by_name(list, info.name) as int;
    let after = inserted_by_name(list, info);
    vstd::seq_lib::to_multiset_insert(list, k, info);
    assert forall|i: int, j: int| 0 <= i < j < after.len() implies !lex_less(
        (#[trigger] after[j]).name,
        (#[trigger] after[i]).name,
    ) by {
        if j == k {
            assert(after[i] == list[i]);
        } else if i == k {
            assert(after[j] == list[j - 1]);
            lex_less_asymmetric(info.name, list[k].name);
            if j - 1 > k {
                assert(!lex_less(list[j - 1].name, list[k].name));
                if lex_less(list[j - 1].name, info.name) {
                    lex_less_transitive(list[j - 1].name, info.name, list[k].name);
                }
            }
        } else {
            let i2 = if i < k { i } else { i - 1 };
            let j2 = if j < k { j } else { j - 1 };
            assert(after[i] == list[i2] && after[j] == list[j2]);
        }
    }
}

/// Puts `info` into the name-sorted `list`, behind every entry whose name is
/// not greater.
fn insert_by_name(list: &mut Vec<ChannelInfo>, info: ChannelInfo)
    ensures
        final(list).deep_view() == inserted_by_name(old(list).deep_view(), info@),
{
    let ghost before = list.deep_view();
    let mut k: usize = 0;
    while k < list.len() && !str_less(info.name.as_str(), list[k].name.as_str())
        invariant
            k <= list.len(),
            list.deep_view() == before,
            forall|i: int| 0 <= i < k ==> !lex_less(info@.name, (#[trigger] before[i]).name),
        decreases list.len() - k,
    {
        assert(before[k as int] == list[k as int]@);
        k += 1;
    }
    proof {
        if k < list.len() {
            assert(before[k as int] == list[k as int]@);
        }
        place_by_name_found(before, info@.name, k as int);
    }
    list.insert(k, info);
    assert(list.deep_view() =~= before.insert(k as int, info@));
}

impl Channel {
    /// The channel as it is listed.
    pub fn info(&self) -> (info: ChannelInfo)
        ensures
            info@ == self@.info(),
    {
        ChannelInfo {
            id: self.id,
            name: self.name.clone(),
            is_public: self.is_public,
            channel_type: ChannelType::Public,
            user_role: None,
        }
    }

    /// Whether the channel is well formed where `next_message_id` is the
    /// next message id to be handed out.
    pub fn is_wf(&self, next_message_id: MessageId) -> (ok: bool)
        ensures
            ok == self@.wf(next_message_id),
    {
        if self.messages.len() > MAX_CHANNEL_MESSAGES {
            return false;
        }
        let mut k: usize = 0;
        while k < self.messages.len()
            invariant
                k <= self.messages.len(),
                forall|a: int| 0 <= a < k ==> (#[trigger] self@.messages[a]).id < next_message_id,
                forall|a: int, b: int|
                    0 <= a < b < k ==> (#[trigger] self@.messages[a]).id < (
                    #[trigger] self@.messages[b]).id,
            decreases self.messages.len() - k,
        {
            assert(self@.messages[k as int] == self.messages[k as int]@);
            if self.messages[k].id >= next_message_id {
                return false;
            }
            if k > 0 {
                assert(self@.messages[k - 1] == self.messages[k - 1]@);
                if self.messages[k - 1].id >= self.messages[k].id {
                    return false;
                }
                assert forall|a: int| 0 <= a < k implies (#[trigger] self@.messages[a]).id
                    < self@.messages[k as int].id by {
                    if a < k - 1 {
                        assert(self@.messages[a].id < self@.messages[k - 1].id);
                    }
                }
            }
            k += 1;
        }
        let mut i: usize = 0;
        while i < self.members.len()
            invariant
                i <= self.members.len(),
                forall|a: int, b: int| 0 <= a < b < i ==> self.members@[a] != self.members@[b],
            decreases self.members.len() - i,
        {
            let mut j: usize = 0;
            while j < i
                invariant
                    j <= i < self.members.len(),
                    forall|a: int| 0 <= a < j ==> self.members@[a] != self.members@[i as int],
                decreases i - j,
            {
                if self.members[j] == self.members[i] {
                    assert(self@.members[j as int] == self@.members[i as int]);
                    return false;
                }
                j += 1;
            }
            i += 1;
        }
        true
    }
}

/// The store of channels.
#[derive(Debug)]
pub struct ChannelManager {
    channels: Vec<Channel>,
    next_channel_id: ChannelId,
    next_message_id: MessageId,
}

impl View for ChannelManager {
    type V = ChannelsModel;

    closed spec fn view(&self) -> ChannelsModel {
        ChannelsModel {
            channels: self.channels.deep_view(),
            next_channel_id: self.next_channel_id,
            next_message_id: self.next_message_id,
        }
    }
}

impl ChannelManager {
    pub open spec fn wf(&self) -> bool {
        self@.wf()
    }

    /// No channels yet; the first channel and the first message get id 1.
    pub fn new() -> (m: Self)
        ensures
            m.wf(),
            m@.time_ordered(),
            m@.channels.len() == 0,
            m@.next_channel_id == 1,
            m@.next_message_id == 1,
    {
        let m = Self { channels: Vec::new(), next_channel_id: 1, next_message_id: 1 };
        assert(m@.names() =~= Seq::empty());
        m
    }

    /// Whether another channel and another message can still be numbered.
    pub fn has_room(&self) -> (r: bool)
        ensures
            r == (self@.next_channel_id < u64::MAX && self@.next_message_id < u64::MAX),
    {
        self.next_channel_id < u64::MAX && self.next_message_id < u64::MAX
    }

    /// Whether the store is well formed.
    pub fn is_wf(&self) -> (ok: bool)
        ensures
            ok == self.wf(),
    {
        let mut i: usize = 0;
        while i < self.channels.len()
            invariant
                i <= self.channels.len(),
                forall|a: int, b: int| 0 <= a < b < i ==> self@.names()[a] != self@.names()[b],
                forall|k: int| 0 <= k < i ==> (#[trigger] self@.channels[k]).id
                    < self@.next_channel_id,
                forall|k: int| 0 <= k < i ==> (#[trigger] self@.channels[k]).wf(
                    self@.next_message_id,
                ),
                forall|a: int, b: int|
                    0 <= a < b < i ==> (#[trigger] self@.channels[a]).id < (
                    #[trigger] self@.channels[b]).id,
            decreases self.channels.len() - i,
        {
            assert(self@.channels[i as int] == self.channels[i as int]@);
            if self.channels[i].id >= self.next_channel_id {
                return false;
            }
            if !self.channels[i].is_wf(self.next_message_id) {
                return false;
            }
            if i > 0 {
                assert(self@.channels[i - 1] == self.channels[i - 1]@);
                if self.channels[i - 1].id >= self.channels[i].id {
                    return false;
                }
                assert forall|a: int| 0 <= a < i implies (#[trigger] self@.channels[a]).id
                    < self@.channels[i as int].id by {
                    if a < i - 1 {
                        assert(self@.channels[a].id < self@.channels[i - 1].id);
                    }
                }
            }
            let mut j: usize = 0;
            while j < i
                invariant
                    j <= i < self.channels.len(),
                    forall|a: int| 0 <= a < j ==> self@.names()[a] != self@.names()[i as int],
                decreases i - j,
            {
                if str_eq(self.channels[j].name.as_str(), self.channels[i].name.as_str()) {
                    assert(self@.names()[j as int] == self@.names()[i as int]);
                    return false;
                }
                j += 1;
            }
            i += 1;
        }
        true
    }

    /// The channels in the order they were made, each with its members.
    pub fn memberships(&self) -> (list: Vec<(String, Vec<ClientId>)>)
        ensures
            list@.len() == self@.channels.len(),
            forall|i: int|
                0 <= i < list@.len() ==> (#[trigger] list@[i]).0@ == self@.channels[i].name
                    && list@[i].1@ == self@.channels[i].members,
    {
        let mut list: Vec<(String, Vec<ClientId>)> = Vec::new();
        let mut i: usize = 0;
        while i < self.channels.len()
            invariant
                i <= self.channels.len(),
                list@.len() == i,
                forall|k: int|
                    0 <= k < i ==> (#[trigger] list@[k]).0@ == self@.channels[k].name
                        && list@[k].1@ == self@.channels[k].members,
            decreases self.channels.len() - i,
        {
            assert(self@.channels[i as int] == self.channels[i as int]@);
            list.push((self.channels[i].name.clone(), self.channels[i].members.clone()));
            i += 1;
        }
        list
    }

    /// Whether `client_id` is a member of the channel called `name`.
    pub fn is_member(&self, client_id: ClientId, name: &str) -> (r: bool)
        requires
            self.wf(),
        ensures
            r == self@.is_member(client_id, name@),
    {
        let ids = self.members(name);
        let mut k: usize = 0;
        while k < ids.len()
            invariant
                k <= ids.len(),
                ids@ == self@.members(name@),
                forall|m: int| 0 <= m < k ==> ids@[m] != client_id,
            decreases ids.len() - k,
        {
            if ids[k] == client_id {
                assert(ids@[k as int] == client_id);
                return true;
            }
            k += 1;
        }
        false
    }

    fn position(&self, name: &str) -> (r: Option<usize>)
        requires
            self.wf(),
        ensures
            match r {
                Some(i) => self@.has(name@) && self@.index(name@) == i && i < self.channels.len()
                    && self.channels[i as int]@ == self@.channel(name@),
                None => !self@.has(name@),
            },
    {
        let mut i: usize = 0;
        while i < self.channels.len()
            invariant
                self.wf(),
                i <= self.channels.len(),
                forall|k: int| 0 <= k < i ==> self@.names()[k] != name@,
            decreases self.channels.len() - i,
        {
            if str_eq(self.channels[i].name.as_str(), name) {
                proof {
                    index_of_unique(self@.names(), i as int);
                }
                return Some(i);
            }
            i += 1;
        }
        None
    }

    pub fn get_channel_id(&self, name: &str) -> (id: Option<ChannelId>)
        requires
            self.wf(),
        ensures
            id == self@.get_channel_id(name@),
    {
        match self.position(name) {
            Some(i) => Some(self.channels[i].id),
            None => None,
        }
    }

    /// Makes the channel called `name` unless it exists, with the password
    /// hash given: a channel with a hash is private, one without is public
    /// as asked. Returns the channel's id either way.
    pub fn ensure_channel_hashed(
        &mut self,
        name: &str,
        is_public: bool,
        password_hash: Option<String>,
        creator: Option<UserId>,
    ) -> (id: ChannelId)
        requires
            old(self).wf(),
            old(self)@.next_channel_id < u64::MAX,
        ensures
            final(self).wf(),
            final(self)@ == old(self)@.ensure_channel(
                name@,
                is_public,
                password_hash.deep_view(),
                creator,
            ),
            final(self)@.get_channel_id(name@) == Some(id),
            old(self)@.time_ordered() ==> final(self)@.time_ordered(),
    {
        proof {
            old(self)@.ensure_channel_keeps_wf(
                name@,
                is_public,
                password_hash.deep_view(),
                creator,
            );
        }
        match self.position(name) {
            Some(i) => self.channels[i].id,
            None => {
                let id: ChannelId = self.next_channel_id;
                let channel = Channel {
                    id,
                    name: owned(name),
                    is_public: password_hash.is_none() && is_public,
                    password_hash,
                    messages: Vec::new(),
                    members: Vec::new(),
                    creator,
                };
                assert(channel@.messages =~= Seq::empty());
                self.next_channel_id = id + 1;
                self.channels.push(channel);
                assert(self@.channels =~= old(self)@.channels.push(channel@));
                id
            },
        }
    }

    /// Makes the channel called `name` unless it exists. A password that is
    /// there and not empty makes the channel private and is kept as an
    /// Argon2id hash under a fresh salt.
    pub fn ensure_channel(
        &mut self,
        name: &str,
        is_public: bool,
        password: Option<String>,
        creator: Option<UserId>,
    ) -> (id: ChannelId)
        requires
            old(self).wf(),
            old(self)@.next_channel_id < u64::MAX,
            password matches Some(p) ==> crate::text::byte_len(p@) <= MAX_PASSWORD_BYTES,
        ensures
            final(self).wf(),
            final(self)@.get_channel_id(name@) == Some(id),
            old(self)@.has(name@) ==> final(self)@ == old(self)@,
            !old(self)@.has(name@) ==> exists|hash: Option<Seq<char>>|
                {
                    &&& hash is Some <==> asks_for_hash(password.deep_view())
                    &&& hash matches Some(h) ==> argon2_verifies(password->0@, h)
                    &&& final(self)@ == #[trigger] old(self)@.ensure_channel(
                        name@,
                        is_public,
                        hash,
                        creator,
                    )
                },
            old(self)@.time_ordered() ==> final(self)@.time_ordered(),
    {
        proof {
            if old(self)@.time_ordered() {
                old(self)@.ensure_channel_keeps_wf(name@, is_public, None, creator);
            }
        }
        if self.position(name).is_some() {
            return self.ensure_channel_hashed(name, is_public, None, creator);
        }
        let password_hash = match &password {
            Some(p) => if p.as_str().is_empty() {
                None
            } else {
                Some(hash_password(p.as_str()))
            },
            None => None,
        };
        let ghost hash = password_hash.deep_view();
        let id = self.ensure_channel_hashed(name, is_public, password_hash, creator);
        assert(self@ == old(self)@.ensure_channel(name@, is_public, hash, creator));
        id
    }

    /// The public channels, sorted by name.
    pub fn list_public(&self) -> (list: Vec<ChannelInfo>)
        ensures
            list.deep_view() == self@.list_public(),
            sorted_by_name(list.deep_view()),
            list.deep_view().to_multiset() == self@.public_infos().to_multiset(),
    {
        let mut list: Vec<ChannelInfo> = Vec::new();
        let mut i: usize = 0;
        assert(list.deep_view() =~= self@.sorted_public_among(0));
        while i < self.channels.len()
            invariant
                i <= self.channels.len(),
                list.deep_view() == self@.sorted_public_among(i as nat),
            decreases self.channels.len() - i,
        {
            if self.channels[i].is_public {
                let info = self.channels[i].info();
                insert_by_name(&mut list, info);
            }
            i += 1;
        }
        proof {
            self@.sorted_public_among_is_sorted(self.channels.len() as nat);
        }
        list
    }

    /// The Argon2id hash under which a channel made with `password` keeps
    /// it: none without a password, with an empty one, or with one that
    /// Argon2 refuses for its length.
    pub fn hash_for(password: &Option<String>) -> (hash: Option<String>)
        ensures
            hash is Some <==> asks_for_hash(password.deep_view()) && byte_len(password->0@)
                <= MAX_PASSWORD_BYTES,
            hash matches Some(h) ==> argon2_verifies(password->0@, h@),
    {
        match password {
            Some(p) => {
                let text = p.as_str();
                if text.is_empty() || text.as_bytes().len() as u64 > MAX_PASSWORD_BYTES {
                    None
                } else {
                    Some(hash_password(text))
                }
            },
            None => None,
        }
    }

    /// Lets `client_id` into the channel called `name`, making the channel
    /// first where it does not exist: public without a password, private and
    /// protected by the password otherwise.
    pub fn join(&mut self, client_id: ClientId, name: &str, password: Option<String>) -> (r: Result<
        ChannelInfo,
        String,
    >)
        requires
            old(self).wf(),
            old(self)@.next_channel_id < u64::MAX,
        ensures
            final(self).wf(),
            old(self)@.has(name@) ==> {
                &&& final(self)@ == old(self)@.join(client_id, name@, password.deep_view())
                &&& r is Ok <==> old(self)@.channel(name@).admits(password.deep_view())
                &&& r matches Ok(info) ==> info@ == old(self)@.channel(name@).info()
                &&& r matches Err(reason) ==> reason@ == "invalid channel password"@
            },
            !old(self)@.has(name@) && asks_for_hash(password.deep_view()) && byte_len(
                password->0@,
            ) > MAX_PASSWORD_BYTES ==> {
                &&& final(self)@ == old(self)@
                &&& r matches Err(reason) && reason@ == "channel password too long"@
            },
            !old(self)@.has(name@) && !(asks_for_hash(password.deep_view()) && byte_len(
                password->0@,
            ) > MAX_PASSWORD_BYTES) ==> {
                &&& r matches Ok(info) && info@ == final(self)@.channel(name@).info()
                &&& final(self)@.is_member(client_id, name@)
                &&& exists|hash: Option<Seq<char>>|
                    {
                        &&& hash is Some <==> asks_for_hash(password.deep_view())
                        &&& final(self)@ == #[trigger] old(self)@.create_and_join(
                            client_id,
                            name@,
                            password.deep_view(),
                            hash,
                        )
                    }
            },
            old(self)@.time_ordered() ==> final(self)@.time_ordered(),
    {
        if self.position(name).is_none() {
            let too_long = match &password {
                Some(p) => !p.as_str().is_empty() && p.as_str().as_bytes().len() as u64
                    > MAX_PASSWORD_BYTES,
                None => false,
            };
            if too_long {
                return Err(owned("channel password too long"));
            }
            let password_hash = Self::hash_for(&password);
            let ghost hash = password_hash.deep_view();
            proof {
                old(self)@.ensure_channel_keeps_wf(name@, true, hash, None);
                let made = old(self)@.ensure_channel(name@, true, hash, None);
                made.channel(name@).joined_keeps_wf(client_id, made.next_message_id);
                made.with_channel_keeps_wf(name@, made.channel(name@).joined(client_id));
            }
            self.ensure_channel_hashed(name, true, password_hash, None);
            let r = self.join_existing(client_id, name, password);
            assert(self@ == old(self)@.create_and_join(
                client_id,
                name@,
                password.deep_view(),
                hash,
            ));
            return r;
        }
        self.join_existing(client_id, name, password)
    }

    /// Lets `client_id` into the existing channel called `name` without
    /// asking for a password, and returns the channel's description.
    pub fn let_in(&mut self, client_id: ClientId, name: &str) -> (r: Option<ChannelInfo>)
        requires
            old(self).wf(),
        ensures
            final(self).wf(),
            final(self)@ == old(self)@.admitted(client_id, name@),
            old(self)@.time_ordered() ==> final(self)@.time_ordered(),
            match r {
                Some(info) => old(self)@.has(name@) && info@ == old(self)@.channel(name@).info(),
                None => !old(self)@.has(name@),
            },
    {
        let Some(i) = self.position(name) else {
            return None;
        };
        let mut found: bool = false;
        let mut k: usize = 0;
        while k < self.channels[i].members.len()
            invariant
                i < self.channels.len(),
                self.channels == old(self).channels,
                k <= self.channels[i as int].members.len(),
                found ==> self.channels[i as int].members@.contains(client_id),
                !found
                    ==> forall|m: int| 0 <= m < k
                        ==> self.channels[i as int].members@[m] != client_id,
            decreases self.channels[i as int].members.len() - k,
        {
            if self.channels[i].members[k] == client_id {
                found = true;
            }
            k += 1;
        }
        if !found {
            self.channels[i].members.push(client_id);
        }
        proof {
            let before = old(self)@.channel(name@);
            before.joined_keeps_wf(client_id, old(self)@.next_message_id);
            old(self)@.with_channel_keeps_wf(name@, before.joined(client_id));
            assert(self.channels[i as int]@ == before.joined(client_id));
            assert(self@.channels =~= old(self)@.channels.update(
                i as int,
                before.joined(client_id),
            ));
            if old(self)@.time_ordered() {
                assert(old(self)@.channels[i as int].time_ordered());
            }
        }
        Some(self.channels[i].info())
    }

    /// Lets `client_id` into the existing channel called `name` if the
    /// password verifies against the channel's hash, where it has one.
    pub fn join_existing(
        &mut self,
        client_id: ClientId,
        name: &str,
        password: Option<String>,
    ) -> (r: Result<
        ChannelInfo,
        String,
    >)
        requires
            old(self).wf(),
        ensures
            final(self).wf(),
            final(self)@ == old(self)@.join(client_id, name@, password.deep_view()),
            match r {
                Ok(info) => old(self)@.join_outcome(name@, password.deep_view()) == Ok::<
                    ChannelInfoModel,
                    Seq<char>,
                >(info@),
                Err(reason) => old(self)@.join_outcome(name@, password.deep_view()) == Err::<
                    ChannelInfoModel,
                    Seq<char>,
                >(reason@),
            },
            old(self)@.time_ordered() ==> final(self)@.time_ordered(),
    {
        if self.get_channel_id(name).is_none() {
            return Err(owned("channel not found"));
        }
        if !self.admits(name, &password) {
            return Err(owned("invalid channel password"));
        }
        match self.let_in(client_id, name) {
            Some(info) => Ok(info),
            None => Err(owned("channel not found")),
        }
    }

    /// Whether `password` opens the existing channel called `name`.
    pub fn admits(&self, name: &str, password: &Option<String>) -> (ok: bool)
        requires
            self.wf(),
            self@.has(name@),
        ensures
            ok == self@.channel(name@).admits(password.deep_view()),
    {
        match self.position(name) {
            Some(i) => hash_admits(&self.channels[i].password_hash, password),
            None => false,
        }
    }

    /// The id that the next channel made will get.
    pub fn next_id(&self) -> (id: ChannelId)
        ensures
            id == self@.next_channel_id,
    {
        self.next_channel_id
    }

    pub fn leave(&mut self, client_id: ClientId, name: &str)
        requires
            old(self).wf(),
        ensures
            final(self).wf(),
            final(self)@ == old(self)@.leave(client_id, name@),
            old(self)@.time_ordered() ==> final(self)@.time_ordered(),
    {
        proof {
            old(self)@.leave_keeps_wf(client_id, name@);
        }
        let Some(i) = self.position(name) else {
            return ;
        };
        let ghost before = old(self)@.channel(name@);
        let mut k: usize = 0;
        let mut place: Option<usize> = None;
        while k < self.channels[i].members.len()
            invariant_except_break
                place is None,
                forall|m: int| 0 <= m < k ==> before.members[m] != client_id,
            invariant
                i < self.channels.len(),
                self.channels == old(self).channels,
                self.channels[i as int]@ == before,
                before.members.no_duplicates(),
                k <= self.channels[i as int].members.len(),
            ensures
                match place {
                    Some(p) => p < before.members.len() && before.members.contains(client_id)
                        && before.members.index_of(client_id) == p,
                    None => !before.members.contains(client_id),
                },
            decreases self.channels[i as int].members.len() - k,
        {
            if self.channels[i].members[k] == client_id {
                proof {
                    index_of_unique(before.members, k as int);
                }
                place = Some(k);
                break ;
            }
            k += 1;
        }
        match place {
            Some(p) => {
                self.channels[i].members.remove(p);
            },
            None => {},
        }
        proof {
            before.left_keeps_wf(client_id, old(self)@.next_message_id);
            old(self)@.with_channel_keeps_wf(name@, before.left(client_id));
            assert(self.channels[i as int]@ == before.left(client_id));
            assert(self@.channels =~= old(self)@.channels.update(i as int, before.left(client_id)));
        }
    }

    /// The connections that are in the channel called `name`.
    pub fn members(&self, name: &str) -> (ids: Vec<ClientId>)
        requires
            self.wf(),
        ensures
            ids@ == self@.members(name@),
    {
        match self.position(name) {
            Some(i) => self.channels[i].members.clone(),
            None => Vec::new(),
        }
    }

    /// Appends `message` to the channel called `name` under the next message
    /// id and the stamp `now`, and returns it as stored.
    pub fn add_message_at(
        &mut self,
        channel: &str,
        message: ChatMessage,
        now: Timestamp,
    ) -> (r: Result<
        ChatMessage,
        String,
    >)
        requires
            old(self).wf(),
            old(self)@.next_message_id < u64::MAX,
        ensures
            final(self).wf(),
            final(self)@ == old(self)@.add_message(channel@, message@, now),
            match r {
                Ok(stored) => old(self)@.add_message_outcome(channel@, message@, now) == Ok::<
                    ChatMessageModel,
                    Seq<char>,
                >(stored@),
                Err(reason) => old(self)@.add_message_outcome(channel@, message@, now) == Err::<
                    ChatMessageModel,
                    Seq<char>,
                >(reason@),
            },
            old(self)@.time_ordered() && old(self)@.clock_fits(channel@, now)
                ==> final(self)@.time_ordered(),
            r matches Ok(stored) ==> final(self)@.channel(channel@).messages.len() > 0
                && final(self)@.channel(channel@).messages.last() == stored@,
    {
        proof {
            old(self)@.add_message_keeps_wf(channel@, message@, now);
        }
        let Some(i) = self.position(channel) else {
            return Err(owned("channel not found"));
        };
        let ghost given = message@;
        let mut message = message;
        message.id = self.next_message_id;
        message.timestamp = now;
        self.next_message_id = self.next_message_id + 1;
        let ghost before = old(self)@.channel(channel@);
        let ghost stored = message@;
        self.channels[i].messages.push(message.clone());
        assert(self.channels[i as int]@.messages =~= before.messages.push(stored));
        if self.channels[i].messages.len() > MAX_CHANNEL_MESSAGES {
            self.channels[i].messages.remove(0);
        }
        proof {
            old(self)@.add_message_keeps_wf(channel@, given, now);
            assert(self.channels[i as int]@.messages =~= before.appended(stored).messages);
            assert(self.channels[i as int]@ == before.appended(stored));
            assert(self@.channels =~= old(self)@.add_message(channel@, given, now).channels);
        }
        Ok(message)
    }

    /// Appends `message` to the channel called `name` at the present moment.
    pub fn add_message(
        &mut self,
        channel: &str,
        message: ChatMessage,
    ) -> (r: Result<ChatMessage, String>)
        requires
            old(self).wf(),
            old(self)@.next_message_id < u64::MAX,
        ensures
            final(self).wf(),
            match r {
                Ok(stored) => {
                    &&& old(self)@.has(channel@)
                    &&& stored@ == stamped(message@, old(self)@.next_message_id, stored@.timestamp)
                    &&& final(self)@ == old(self)@.add_message(
                        channel@,
                        message@,
                        stored@.timestamp,
                    )
                },
                Err(reason) => !old(self)@.has(channel@) && reason@ == "channel not found"@
                    && final(self)@ == old(self)@,
            },
            old(self)@.time_ordered() && (r matches Ok(stored) ==> old(self)@.clock_fits(
                channel@,
                stored@.timestamp,
            )) ==> final(self)@.time_ordered(),
            r matches Ok(stored) ==> final(self)@.channel(channel@).messages.len() > 0
                && final(self)@.channel(channel@).messages.last() == stored@,
    {
        let now = Timestamp::now();
        self.add_message_at(channel, message, now)
    }

    /// The newest `limit` messages of the channel called `name`, oldest
    /// first.
    pub fn history(&self, channel: &str, limit: usize) -> (messages: Vec<ChatMessage>)
        requires
            self.wf(),
        ensures
            messages.deep_view() == self@.history(channel@, limit as nat),
    {
        let mut messages: Vec<ChatMessage> = Vec::new();
        let Some(c) = self.position(channel) else {
            assert(messages.deep_view() =~= Seq::empty());
            return messages;
        };
        let all = &self.channels[c].messages;
        let ghost model = self@.channel(channel@);
        let start: usize = if limit < all.len() {
            all.len() - limit
        } else {
            0
        };
        let mut i: usize = start;
        while i < all.len()
            invariant
                start <= i <= all.len(),
                all.deep_view() == model.messages,
                messages.len() == i - start,
                forall|k: int|
                    0 <= k < i - start ==> (#[trigger] messages@[k])@ == model.messages[start + k],
            decreases all.len() - i,
        {
            messages.push(all[i].clone());
            i += 1;
        }
        assert(messages.deep_view() =~= model.recent(limit as nat));
        messages
    }

    /// Removes the message `message_id` from the channel called `name`; says
    /// whether it was there.
    pub fn delete_message(&mut self, channel: &str, message_id: MessageId) -> (deleted: bool)
        requires
            old(self).wf(),
        ensures
            final(self).wf(),
            deleted == old(self)@.has_message(channel@, message_id),
            final(self)@ == old(self)@.delete_message(channel@, message_id),
            !deleted ==> final(self)@ == old(self)@,
            old(self)@.time_ordered() ==> final(self)@.time_ordered(),
    {
        let Some(c) = self.position(channel) else {
            return false;
        };
        let ghost before = old(self)@.channel(channel@);
        let mut k: usize = 0;
        let mut place: Option<usize> = None;
        while k < self.channels[c].messages.len()
            invariant_except_break
                place is None,
                forall|m: int| 0 <= m < k ==> before.message_ids()[m] != message_id,
            invariant
                c < self.channels.len(),
                self.channels == old(self).channels,
                self.channels[c as int]@ == before,
                before.wf(old(self)@.next_message_id),
                k <= self.channels[c as int].messages.len(),
            ensures
                match place {
                    Some(p) => p < before.messages.len() && before.has_message(message_id)
                        && before.message_ids().index_of(message_id) == p,
                    None => !before.has_message(message_id),
                },
            decreases self.channels[c as int].messages.len() - k,
        {
            if self.channels[c].messages[k].id == message_id {
                proof {
                    assert(
                        before.messages[k as int] == self.channels[c as int].messages[k as int]@
                    );
                    assert(before.message_ids()[k as int] == message_id);
                    assert(before.message_ids().no_duplicates()) by {
                        assert forall|a: int, b: int|
                            0 <= a < before.message_ids().len() && 0 <= b
                                < before.message_ids().len() && a != b implies before.message_ids()[a]
                            != before.message_ids()[b] by {
                            if a < b {
                                assert(before.messages[a].id < before.messages[b].id);
                            } else {
                                assert(before.messages[b].id < before.messages[a].id);
                            }
                        }
                    }
                    index_of_unique(before.message_ids(), k as int);
                }
                place = Some(k);
                break ;
            }
            proof {
                assert(before.messages[k as int] == self.channels[c as int].messages[k as int]@);
            }
            k += 1;
        }
        let deleted = match place {
            Some(p) => {
                self.channels[c].messages.remove(p);
                true
            },
            None => false,
        };
        proof {
            before.without_message_keeps_wf(message_id, old(self)@.next_message_id);
            old(self)@.with_channel_keeps_wf(channel@, before.without_message(message_id));
            assert(self.channels[c as int]@.messages =~= before.without_message(
                message_id,
            ).messages);
            assert(self.channels[c as int]@ == before.without_message(message_id));
            assert(self@.channels =~= old(self)@.channels.update(
                c as int,
                before.without_message(message_id),
            ));
            if !deleted {
                assert(self@.channels =~= old(self)@.channels);
            }
        }
        deleted
    }

    /// Removes the channel called `name` with all it holds.
    pub fn delete_channel(&mut self, name: &str)
        requires
            old(self).wf(),
        ensures
            final(self).wf(),
            final(self)@ == old(self)@.delete_channel(name@),
            old(self)@.time_ordered() ==> final(self)@.time_ordered(),
    {
        match self.position(name) {
            Some(i) => {
                self.channels.remove(i);
                proof {
                    assert(self@.channels =~= old(self)@.channels.remove(i as int));
                    old(self)@.delete_channel_keeps_wf(name@);
                }
            },
            None => {},
        }
    }
}

} // verus!
