//! The relay as a state machine over mathematical values: what each client
//! message does to the stores and which messages it queues. The executable
//! dispatcher is proved to take exactly these steps.

use vstd::prelude::*;
use crate::protocol::channel::ChannelType;
use crate::protocol::messages::{
    ChannelId,
    ChannelInfoModel,
    ChatMessageModel,
    ClientMessageModel,
    MessageId,
    MessageMeta,
    ServerMessageModel,
    UserId,
    UserInfoModel,
};
use crate::protocol::permissions::{Permission, Role};
use crate::server::admin::{AdminManager, AdminModel};
use crate::server::auth::AuthModel;
use crate::server::ban_manager::{BanManager, BanModel, BansModel};
use crate::server::channel::{asks_for_hash, ChannelsModel, ClientId};
use crate::server::crypto::{EcdhModel, KEY_LEN};
use crate::server::registry::RegistryModel;
use crate::text::{decimal, hex_bytes, or_empty};
use crate::time::{utc_text, Timestamp};

verus! {

/// How many messages a join brings back from the channel's history.
pub const JOIN_HISTORY: usize = 50;

/// Where a connection stands in the admission sequence.
#[derive(Clone, Copy, Debug, PartialEq, Eq, Structural)]
pub struct Session {
    pub client_id: ClientId,
    /// The special key was accepted.
    pub special_authed: bool,
    /// A user is registered or logged in on this connection.
    pub user_authed: bool,
    /// The key exchange was completed.
    pub ecdh_complete: bool,
}

/// The stage of the admission sequence a connection has reached.
#[derive(Clone, Copy, Debug, PartialEq, Eq, Structural)]
pub enum SessionState {
    /// The special key has not been accepted yet.
    AwaitKey,
    /// The special key was accepted.
    KeyAccepted,
    /// The key exchange was completed as well.
    EcdhReady,
    /// A user is registered or logged in.
    Authed,
}

impl Session {
    /// The stage reached: a bound user counts before a completed key
    /// exchange, which counts before the accepted special key.
    pub open spec fn spec_state(self) -> SessionState {
        if self.user_authed {
            SessionState::Authed
        } else if self.ecdh_complete {
            SessionState::EcdhReady
        } else if self.special_authed {
            SessionState::KeyAccepted
        } else {
            SessionState::AwaitKey
        }
    }

    /// Every stage that `earlier` had reached is reached in `self`.
    pub open spec fn not_behind(self, earlier: Session) -> bool {
        &&& self.client_id == earlier.client_id
        &&& earlier.special_authed ==> self.special_authed
        &&& earlier.user_authed ==> self.user_authed
        &&& earlier.ecdh_complete ==> self.ecdh_complete
    }

    pub fn state(&self) -> (state: SessionState)
        ensures
            state == self.spec_state(),
    {
        if self.user_authed {
            SessionState::Authed
        } else if self.ecdh_complete {
            SessionState::EcdhReady
        } else if self.special_authed {
            SessionState::KeyAccepted
        } else {
            SessionState::AwaitKey
        }
    }
}

/// Whether the connection goes on after a message.
#[derive(Clone, Copy, Debug, PartialEq, Eq, Structural)]
pub enum Flow {
    Continue,
    Close,
}

/// What the world outside contributes to one step: results that no input of
/// the relay determines.
pub struct OutsideModel {
    /// The hash of the password of a channel that the step may create.
    pub channel_hash: Option<Seq<char>>,
    /// The server's public key and the shared secret of a key exchange that
    /// the step may complete.
    pub exchange: Option<(Seq<u8>, Seq<u8>)>,
}

impl OutsideModel {
    /// Keys and secrets, where present, have their proper length.
    pub open spec fn wf(self) -> bool {
        self.exchange matches Some((public, shared)) ==> public.len() == KEY_LEN && shared.len()
            == KEY_LEN
    }
}

/// The value under the first entry of `pairs` with the key `key`, among the
/// first `n` entries.
pub open spec fn value_among(pairs: Seq<(Seq<char>, Seq<char>)>, key: Seq<char>, n: nat) -> Option<
    Seq<char>,
>
    decreases n,
{
    if n == 0 || n > pairs.len() {
        None
    } else {
        match value_among(pairs, key, (n - 1) as nat) {
            Some(value) => Some(value),
            None => if pairs[n - 1].0 == key {
                Some(pairs[n - 1].1)
            } else {
                None
            },
        }
    }
}

/// The nonce that `metadata` carries: the bytes spelled in hexadecimal under
/// its first `nonce` key, if that text is hexadecimal.
pub open spec fn nonce_of(metadata: Seq<(Seq<char>, Seq<char>)>) -> Option<Seq<u8>> {
    match value_among(metadata, "nonce"@, metadata.len()) {
        Some(text) => hex_bytes(text),
        None => None,
    }
}

/// Why a join is refused on account of `ban`.
pub open spec fn ban_reason(ban: BanModel) -> Seq<char> {
    match ban.banned_until {
        Some(until) => "Banned until "@ + Timestamp::text_or_default(
            utc_text(until.secs, until.nanos),
        ),
        None => "Permanently banned from channel"@,
    }
}

/// The log line for a ban of the given length.
pub open spec fn ban_details(duration_seconds: Option<u64>) -> Seq<char> {
    match duration_seconds {
        Some(secs) => "Banned for "@ + decimal(secs as nat) + " seconds"@,
        None => "Permanently banned"@,
    }
}

/// The outcome of the checks that every moderation command starts with.
pub enum Clearance {
    /// The command is refused; the state holds the refusal.
    Refused(ServerModel),
    /// The command may go on, on behalf of `user` in the channel `channel_id`.
    Granted { user: UserInfoModel, channel_id: ChannelId },
}

/// The model of the relay: its stores, the special key and its counters.
pub struct ServerModel {
    pub auth: AuthModel,
    pub channels: ChannelsModel,
    pub registry: RegistryModel,
    pub ecdh: EcdhModel,
    pub admin: AdminModel,
    pub bans: BansModel,
    pub special_key: Seq<char>,
    pub next_client_id: u64,
    pub next_server_msg_id: u64,
}

impl ServerModel {
    /// Every store is well formed.
    pub open spec fn wf(self) -> bool {
        &&& self.auth.wf()
        &&& self.channels.wf()
        &&& self.registry.wf()
        &&& self.ecdh.wf()
        &&& self.admin.wf()
        &&& self.bans.wf()
    }

    /// A connection is a member of a channel exactly if that channel is its
    /// current channel.
    pub open spec fn consistent(self) -> bool {
        forall|id: ClientId, name: Seq<char>|
            #![trigger self.channels.is_member(id, name)]
            self.channels.is_member(id, name) <==> self.registry.channel(id) == Some(name)
    }

    /// Another user, channel and message can still be numbered.
    pub open spec fn has_room(self) -> bool {
        &&& self.auth.next_user_id < u64::MAX
        &&& self.channels.next_channel_id < u64::MAX
        &&& self.channels.next_message_id < u64::MAX
    }

    /// The meta of the next message the relay sends at `now`.
    pub open spec fn meta(self, now: Timestamp) -> MessageMeta {
        MessageMeta { id: self.next_server_msg_id, timestamp: now }
    }

    /// The state after a message number was used up; the numbers wrap around.
    pub open spec fn bumped(self) -> ServerModel {
        ServerModel {
            next_server_msg_id: if self.next_server_msg_id == u64::MAX {
                0
            } else {
                (self.next_server_msg_id + 1) as u64
            },
            ..self
        }
    }

    /// `message` queued for `to`, under a used-up message number.
    pub open spec fn tell(self, to: ClientId, message: ServerMessageModel) -> ServerModel {
        ServerModel { registry: self.registry.send(to, message), ..self.bumped() }
    }

    /// `message` queued for each of `ids`, under one used-up message number.
    pub open spec fn broadcast(
        self,
        ids: Seq<ClientId>,
        message: ServerMessageModel,
    ) -> ServerModel {
        ServerModel { registry: self.registry.send_many(ids, message), ..self.bumped() }
    }

    pub open spec fn protocol_error(
        self,
        to: ClientId,
        text: Seq<char>,
        now: Timestamp,
    ) -> ServerModel {
        self.tell(to, ServerMessageModel::ProtocolError { meta: self.meta(now), text })
    }

    pub open spec fn admin_error(
        self,
        to: ClientId,
        reason: Seq<char>,
        now: Timestamp,
    ) -> ServerModel {
        self.tell(to, ServerMessageModel::AdminError { meta: self.meta(now), reason })
    }

    pub open spec fn system_message(
        self,
        to: ClientId,
        text: Seq<char>,
        now: Timestamp,
    ) -> ServerModel {
        self.tell(to, ServerMessageModel::SystemMessage { meta: self.meta(now), text })
    }

    pub open spec fn auth_failure(
        self,
        to: ClientId,
        reason: Seq<char>,
        now: Timestamp,
    ) -> ServerModel {
        self.tell(to, ServerMessageModel::AuthFailure { meta: self.meta(now), reason })
    }

    pub open spec fn join_failure(
        self,
        to: ClientId,
        channel: Seq<char>,
        reason: Seq<char>,
        now: Timestamp,
    ) -> ServerModel {
        self.tell(to, ServerMessageModel::JoinFailure { meta: self.meta(now), channel, reason })
    }

    /// The list of public channels, sorted by name, queued for `to`.
    pub open spec fn channel_list(self, to: ClientId, now: Timestamp) -> ServerModel {
        self.tell(
            to,
            ServerMessageModel::ChannelList {
                meta: self.meta(now),
                channels: self.channels.list_public(),
            },
        )
    }

    pub open spec fn broadcast_user_left(
        self,
        channel: Seq<char>,
        user: UserInfoModel,
        now: Timestamp,
    ) -> ServerModel {
        self.broadcast(
            self.channels.members(channel),
            ServerMessageModel::UserLeft { meta: self.meta(now), channel, user },
        )
    }

    pub open spec fn broadcast_user_joined(
        self,
        channel: Seq<char>,
        user: UserInfoModel,
        now: Timestamp,
    ) -> ServerModel {
        self.broadcast(
            self.channels.members(channel),
            ServerMessageModel::UserJoined { meta: self.meta(now), channel, user },
        )
    }

    pub open spec fn broadcast_message(
        self,
        channel: Seq<char>,
        message: ChatMessageModel,
        now: Timestamp,
    ) -> ServerModel {
        self.broadcast(
            self.channels.members(channel),
            ServerMessageModel::MessageReceived { meta: self.meta(now), channel, message },
        )
    }

    /// A connection is opened: registered afresh and challenged for the
    /// special key.
    pub open spec fn open_session(self, client_id: ClientId, now: Timestamp) -> ServerModel {
        (ServerModel { registry: self.registry.register(client_id), ..self }).tell(
            client_id,
            ServerMessageModel::AuthChallenge {
                meta: self.meta(now),
                message: "special auth key required"@,
            },
        )
    }

    // ----- admission -----
    pub open spec fn after_connect(self, session: Session, now: Timestamp) -> ServerModel {
        if !session.special_authed {
            self.protocol_error(session.client_id, "special auth required"@, now)
        } else {
            self
        }
    }

    pub open spec fn after_auth(
        self,
        session: Session,
        key: Seq<char>,
        now: Timestamp,
    ) -> ServerModel {
        if key == self.special_key {
            self.system_message(
                session.client_id,
                "special key accepted; send ECDH public key"@,
                now,
            )
        } else {
            self.auth_failure(session.client_id, "invalid special key"@, now)
        }
    }

    /// Whether a key exchange goes through.
    pub open spec fn ecdh_succeeds(
        session: Session,
        public_key: Seq<u8>,
        exchange: Option<(Seq<u8>, Seq<u8>)>,
    ) -> bool {
        session.special_authed && public_key.len() == KEY_LEN && exchange is Some
    }

    pub open spec fn after_ecdh(
        self,
        session: Session,
        public_key: Seq<u8>,
        exchange: Option<(Seq<u8>, Seq<u8>)>,
        now: Timestamp,
    ) -> ServerModel {
        if !session.special_authed {
            self.protocol_error(session.client_id, "special auth required"@, now)
        } else if public_key.len() != KEY_LEN {
            self.protocol_error(session.client_id, "invalid public key length"@, now)
        } else {
            match exchange {
                Some((server_public, shared)) => {
                    let kept = ServerModel {
                        ecdh: self.ecdh.store(session.client_id, shared),
                        ..self
                    };
                    kept.tell(
                        session.client_id,
                        ServerMessageModel::EcdhAck {
                            meta: kept.meta(now),
                            public_key: server_public,
                        },
                    ).system_message(
                        session.client_id,
                        "encryption enabled; please login or register"@,
                        now,
                    )
                },
                None => self,
            }
        }
    }

    /// The state after `user` was bound to the connection and told so.
    pub open spec fn welcomed(
        self,
        client_id: ClientId,
        user: UserInfoModel,
        generated_password: Option<Seq<char>>,
        now: Timestamp,
    ) -> ServerModel {
        let bound = ServerModel { registry: self.registry.set_user(client_id, user), ..self };
        bound.tell(
            client_id,
            ServerMessageModel::AuthSuccess { meta: bound.meta(now), user, generated_password },
        ).channel_list(client_id, now)
    }

    pub open spec fn register_succeeds(self, session: Session, username: Seq<char>) -> bool {
        session.special_authed && self.auth.register_refusal(username) is None
    }

    pub open spec fn after_register(
        self,
        session: Session,
        username: Seq<char>,
        now: Timestamp,
    ) -> ServerModel {
        if !session.special_authed {
            self.protocol_error(session.client_id, "special auth required"@, now)
        } else {
            match self.auth.register_outcome(username, now) {
                Ok((user, password)) => (ServerModel {
                    auth: self.auth.register(username, now),
                    ..self
                }).welcomed(session.client_id, user, Some(password), now),
                Err(reason) => self.auth_failure(session.client_id, reason, now),
            }
        }
    }

    pub open spec fn login_succeeds(
        self,
        session: Session,
        username: Seq<char>,
        password: Seq<char>,
    ) -> bool {
        session.special_authed && self.auth.login(username, password) is Ok
    }

    pub open spec fn after_login(
        self,
        session: Session,
        username: Seq<char>,
        password: Seq<char>,
        now: Timestamp,
    ) -> ServerModel {
        if !session.special_authed {
            self.protocol_error(session.client_id, "special auth required"@, now)
        } else {
            match self.auth.login(username, password) {
                Ok(user) => self.welcomed(session.client_id, user, None, now),
                Err(reason) => self.auth_failure(session.client_id, reason, now),
            }
        }
    }

    // ----- channels -----
    pub open spec fn after_list_channels(self, session: Session, now: Timestamp) -> ServerModel {
        if !session.user_authed {
            self.protocol_error(session.client_id, "login/register required"@, now)
        } else {
            self.channel_list(session.client_id, now)
        }
    }

    /// The connection leaves its current channel, if it has one, and the
    /// members that remain are told.
    pub open spec fn left_current(
        self,
        client_id: ClientId,
        user: UserInfoModel,
        now: Timestamp,
    ) -> ServerModel {
        match self.registry.channel(client_id) {
            Some(previous) => (ServerModel {
                channels: self.channels.leave(client_id, previous),
                registry: self.registry.set_channel(client_id, None),
                ..self
            }).broadcast_user_left(previous, user, now),
            None => self,
        }
    }

    /// The channel called `name` is made where it does not exist, public
    /// without a password and private with one, and `creator` becomes its
    /// Admin.
    pub open spec fn made(
        self,
        name: Seq<char>,
        password: Option<Seq<char>>,
        fresh_hash: Option<Seq<char>>,
        creator: UserId,
    ) -> ServerModel {
        if self.channels.has(name) {
            self
        } else {
            ServerModel {
                channels: self.channels.ensure_channel(
                    name,
                    true,
                    if asks_for_hash(password) {
                        fresh_hash
                    } else {
                        None
                    },
                    Some(creator),
                ),
                admin: self.admin.set_role(self.channels.next_channel_id, creator, Role::Admin),
                ..self
            }
        }
    }

    /// The connection asks to enter the existing channel called `name`.
    pub open spec fn enter(
        self,
        client_id: ClientId,
        user: UserInfoModel,
        name: Seq<char>,
        password: Option<Seq<char>>,
        now: Timestamp,
    ) -> ServerModel {
        let channel_id = self.channels.channel(name).id;
        if self.bans.is_banned(channel_id, user.id, now) {
            self.join_failure(
                client_id,
                name,
                ban_reason(self.bans.get_ban_info(channel_id, user.id)->0),
                now,
            )
        } else {
            match self.channels.join_outcome(name, password) {
                Ok(base) => {
                    let info = ChannelInfoModel {
                        id: channel_id,
                        name,
                        is_public: base.is_public,
                        channel_type: self.admin.get_channel_type(channel_id),
                        user_role: Some(self.admin.get_role(channel_id, user.id)),
                    };
                    let inside = ServerModel {
                        channels: self.channels.join(client_id, name, password),
                        registry: self.registry.set_channel(client_id, Some(name)),
                        ..self
                    };
                    let greeted = inside.tell(
                        client_id,
                        ServerMessageModel::JoinSuccess { meta: inside.meta(now), channel: info },
                    );
                    greeted.tell(
                        client_id,
                        ServerMessageModel::HistoryChunk {
                            meta: greeted.meta(now),
                            channel: name,
                            messages: greeted.channels.history(name, JOIN_HISTORY as nat),
                        },
                    ).broadcast_user_joined(name, user, now)
                },
                Err(reason) => self.join_failure(client_id, name, reason, now),
            }
        }
    }

    /// Whether the join fails before any channel is touched because the
    /// channel would have to be made and its password could not be hashed.
    pub open spec fn lacks_hash(
        self,
        name: Seq<char>,
        password: Option<Seq<char>>,
        fresh_hash: Option<Seq<char>>,
    ) -> bool {
        !self.channels.has(name) && asks_for_hash(password) && fresh_hash is None
    }

    /// Why a join of the channel called `name` by `user` is refused,
    /// judged on the state as it stands: the channel would have to be made
    /// and its password could not be hashed, the user is banned there, or
    /// the password does not open it. Nothing where the join is let in.
    pub open spec fn join_refusal(
        self,
        user: UserId,
        name: Seq<char>,
        password: Option<Seq<char>>,
        fresh_hash: Option<Seq<char>>,
        now: Timestamp,
    ) -> Option<Seq<char>> {
        if self.lacks_hash(name, password, fresh_hash) {
            Some("channel password too long"@)
        } else {
            let target = self.made(name, password, fresh_hash, user).channels.channel(name);
            if self.bans.is_banned(target.id, user, now) {
                Some(ban_reason(self.bans.get_ban_info(target.id, user)->0))
            } else if !target.admits(password) {
                Some("invalid channel password"@)
            } else {
                None
            }
        }
    }

    /// `JoinChannel`: a join that is refused is answered and changes nothing
    /// else; one that is let in takes the connection out of its current
    /// channel, makes the channel where it does not exist, and enters it.
    pub open spec fn after_join(
        self,
        session: Session,
        name: Seq<char>,
        password: Option<Seq<char>>,
        fresh_hash: Option<Seq<char>>,
        now: Timestamp,
    ) -> ServerModel {
        if !session.user_authed {
            self.protocol_error(session.client_id, "login/register required"@, now)
        } else {
            match self.registry.user(session.client_id) {
                None => self.protocol_error(session.client_id, "user missing"@, now),
                Some(user) => match self.join_refusal(user.id, name, password, fresh_hash, now) {
                    Some(reason) => self.join_failure(session.client_id, name, reason, now),
                    None => self.left_current(session.client_id, user, now).made(
                        name,
                        password,
                        fresh_hash,
                        user.id,
                    ).enter(session.client_id, user, name, password, now),
                },
            }
        }
    }

    /// The message that a connection's user sends, before the channel engine
    /// stamps it.
    pub open spec fn draft(
        user: UserInfoModel,
        content: Seq<u8>,
        metadata: Seq<(Seq<char>, Seq<char>)>,
        now: Timestamp,
    ) -> ChatMessageModel {
        ChatMessageModel {
            id: 0,
            user_id: user.id,
            username: user.username,
            content,
            timestamp: now,
            nonce: nonce_of(metadata),
            metadata,
        }
    }

    pub open spec fn after_send_message(
        self,
        session: Session,
        channel: Seq<char>,
        content: Seq<u8>,
        metadata: Seq<(Seq<char>, Seq<char>)>,
        now: Timestamp,
    ) -> ServerModel {
        if !session.user_authed {
            self.protocol_error(session.client_id, "login/register required"@, now)
        } else {
            match self.registry.user(session.client_id) {
                None => self.protocol_error(session.client_id, "user missing"@, now),
                Some(user) => if self.registry.channel(session.client_id) != Some(channel) {
                    self.protocol_error(session.client_id, "not joined to channel"@, now)
                } else if self.channels.has(channel) && !self.admin.can_send_message(
                    self.channels.channel(channel).id,
                    user.id,
                ) {
                    self.admin_error(
                        session.client_id,
                        "You lack permission to send messages in this channel"@,
                        now,
                    )
                } else {
                    let message = Self::draft(user, content, metadata, now);
                    match self.channels.add_message_outcome(channel, message, now) {
                        Ok(stored) => (ServerModel {
                            channels: self.channels.add_message(channel, message, now),
                            ..self
                        }).broadcast_message(channel, stored, now),
                        Err(reason) => self.protocol_error(session.client_id, reason, now),
                    }
                },
            }
        }
    }

    pub open spec fn after_get_history(
        self,
        session: Session,
        channel: Seq<char>,
        limit: u16,
        now: Timestamp,
    ) -> ServerModel {
        if !session.user_authed {
            self.protocol_error(session.client_id, "login/register required"@, now)
        } else {
            self.tell(
                session.client_id,
                ServerMessageModel::HistoryChunk {
                    meta: self.meta(now),
                    channel,
                    messages: self.channels.history(channel, limit as nat),
                },
            )
        }
    }

    // ----- moderation -----
    /// The checks every moderation command starts with: the connection has a
    /// user, the channel exists, and the user's role there carries
    /// `permission` where one is asked for.
    pub open spec fn clearance(
        self,
        session: Session,
        channel: Seq<char>,
        permission: Option<Permission>,
        now: Timestamp,
    ) -> Clearance {
        if !session.user_authed {
            Clearance::Refused(
                self.protocol_error(session.client_id, "login/register required"@, now),
            )
        } else {
            match self.registry.user(session.client_id) {
                None => Clearance::Refused(
                    self.protocol_error(session.client_id, "user missing"@, now),
                ),
                Some(user) => match self.channels.get_channel_id(channel) {
                    None => Clearance::Refused(
                        self.admin_error(session.client_id, "Channel not found"@, now),
                    ),
                    Some(channel_id) => if permission is Some && !self.admin.has_permission(
                        channel_id,
                        user.id,
                        permission->0,
                    ) {
                        Clearance::Refused(
                            self.admin_error(
                                session.client_id,
                                "You lack permission: "@ + permission->0.spec_name(),
                                now,
                            ),
                        )
                    } else {
                        Clearance::Granted { user, channel_id }
                    },
                },
            }
        }
    }

    /// The state after the moderation log of `channel_id` took one more line.
    pub open spec fn logged(
        self,
        channel_id: ChannelId,
        user: UserInfoModel,
        action: Seq<char>,
        target: Seq<char>,
        details: Seq<char>,
        now: Timestamp,
    ) -> ServerModel {
        ServerModel {
            admin: self.admin.log_action(
                channel_id,
                AdminManager::entry_model(now, user.id, user.username, action, target, details),
            ),
            ..self
        }
    }

    pub open spec fn after_delete_message(
        self,
        session: Session,
        channel: Seq<char>,
        message_id: MessageId,
        now: Timestamp,
    ) -> ServerModel {
        match self.clearance(session, channel, Some(Permission::DeleteMessage), now) {
            Clearance::Refused(refused) => refused,
            Clearance::Granted { user, channel_id } => if !self.channels.has_message(
                channel,
                message_id,
            ) {
                self.admin_error(session.client_id, "Message not found"@, now)
            } else {
                let done = (ServerModel {
                    channels: self.channels.delete_message(channel, message_id),
                    ..self
                }).logged(
                    channel_id,
                    user,
                    "delete_message"@,
                    "message_"@ + decimal(message_id as nat),
                    "Message deleted"@,
                    now,
                );
                done.broadcast(
                    done.channels.members(channel),
                    ServerMessageModel::MessageDeleted {
                        meta: done.meta(now),
                        channel,
                        message_id,
                        deleted_by: user.username,
                    },
                )
            },
        }
    }

    pub open spec fn after_promote_user(
        self,
        session: Session,
        channel: Seq<char>,
        username: Seq<char>,
        role: Role,
        now: Timestamp,
    ) -> ServerModel {
        match self.clearance(session, channel, Some(Permission::PromoteUser), now) {
            Clearance::Refused(refused) => refused,
            Clearance::Granted { user, channel_id } => match self.auth.find_user_by_username(
                username,
            ) {
                None => self.admin_error(session.client_id, "User not found"@, now),
                Some(target) => {
                    let done = (ServerModel {
                        admin: self.admin.set_role(channel_id, target.id, role),
                        ..self
                    }).logged(
                        channel_id,
                        user,
                        "promote_user"@,
                        username,
                        "Promoted to "@ + role.spec_name(),
                        now,
                    );
                    done.broadcast(
                        done.channels.members(channel),
                        ServerMessageModel::UserPromoted {
                            meta: done.meta(now),
                            channel,
                            user_id: target.id,
                            username,
                            new_role: role,
                            promoted_by: user.username,
                        },
                    )
                },
            },
        }
    }

    pub open spec fn after_demote_user(
        self,
        session: Session,
        channel: Seq<char>,
        username: Seq<char>,
        now: Timestamp,
    ) -> ServerModel {
        match self.clearance(session, channel, Some(Permission::PromoteUser), now) {
            Clearance::Refused(refused) => refused,
            Clearance::Granted { user, channel_id } => match self.auth.find_user_by_username(
                username,
            ) {
                None => self.admin_error(session.client_id, "User not found"@, now),
                Some(target) => {
                    let done = (ServerModel {
                        admin: self.admin.set_role(channel_id, target.id, Role::User),
                        ..self
                    }).logged(
                        channel_id,
                        user,
                        "demote_user"@,
                        username,
                        "Demoted to User"@,
                        now,
                    );
                    done.broadcast(
                        done.channels.members(channel),
                        ServerMessageModel::UserDemoted {
                            meta: done.meta(now),
                            channel,
                            user_id: target.id,
                            username,
                            demoted_by: user.username,
                        },
                    )
                },
            },
        }
    }

    /// One connection is put out of `channel` if that is its current
    /// channel, and told `text`.
    pub open spec fn evict_one(
        self,
        target: ClientId,
        channel: Seq<char>,
        text: Seq<char>,
        now: Timestamp,
    ) -> ServerModel {
        if self.registry.channel(target) == Some(channel) {
            (ServerModel {
                channels: self.channels.leave(target, channel),
                registry: self.registry.set_channel(target, None),
                ..self
            }).system_message(target, text, now)
        } else {
            self
        }
    }

    /// Each of `targets` in turn is put out of `channel`.
    pub open spec fn evicted(
        self,
        targets: Seq<ClientId>,
        channel: Seq<char>,
        text: Seq<char>,
        now: Timestamp,
    ) -> ServerModel
        decreases targets.len(),
    {
        if targets.len() == 0 {
            self
        } else {
            self.evicted(targets.drop_last(), channel, text, now).evict_one(
                targets.last(),
                channel,
                text,
                now,
            )
        }
    }

    pub open spec fn after_ban_user(
        self,
        session: Session,
        channel: Seq<char>,
        username: Seq<char>,
        duration_seconds: Option<u64>,
        reason: Option<Seq<char>>,
        now: Timestamp,
    ) -> ServerModel {
        match self.clearance(session, channel, Some(Permission::BanUser), now) {
            Clearance::Refused(refused) => refused,
            Clearance::Granted { user, channel_id } => match self.auth.find_user_by_username(
                username,
            ) {
                None => self.admin_error(session.client_id, "User not found"@, now),
                Some(target) => {
                    let banned_until = BanManager::expiry(now, duration_seconds);
                    let done = (ServerModel {
                        bans: self.bans.ban_user(
                            channel_id,
                            BanManager::ban_model(
                                target.id,
                                target.username,
                                user.username,
                                banned_until,
                                reason,
                            ),
                        ),
                        ..self
                    }).logged(
                        channel_id,
                        user,
                        "ban_user"@,
                        username,
                        ban_details(duration_seconds),
                        now,
                    ).evicted(
                        self.registry.clients_of_user(target.id),
                        channel,
                        "You have been banned from this channel. Reason: "@ + or_empty(reason),
                        now,
                    );
                    done.broadcast(
                        done.channels.members(channel),
                        ServerMessageModel::UserBanned {
                            meta: done.meta(now),
                            channel,
                            user_id: target.id,
                            username,
                            banned_until,
                            banned_by: user.username,
                            reason,
                        },
                    )
                },
            },
        }
    }

    pub open spec fn after_unban_user(
        self,
        session: Session,
        channel: Seq<char>,
        username: Seq<char>,
        now: Timestamp,
    ) -> ServerModel {
        match self.clearance(session, channel, Some(Permission::BanUser), now) {
            Clearance::Refused(refused) => refused,
            Clearance::Granted { user, channel_id } => match self.auth.find_user_by_username(
                username,
            ) {
                None => self.admin_error(session.client_id, "User not found"@, now),
                Some(target) => if self.bans.get_ban_info(channel_id, target.id) is None {
                    self.admin_error(session.client_id, "User is not banned"@, now)
                } else {
                    let done = (ServerModel {
                        bans: self.bans.unban_user(channel_id, target.id),
                        ..self
                    }).logged(channel_id, user, "unban_user"@, username, "Unbanned"@, now);
                    done.broadcast(
                        done.channels.members(channel),
                        ServerMessageModel::UserUnbanned {
                            meta: done.meta(now),
                            channel,
                            username,
                            unbanned_by: user.username,
                        },
                    )
                },
            },
        }
    }

    pub open spec fn after_kick_user(
        self,
        session: Session,
        channel: Seq<char>,
        username: Seq<char>,
        reason: Option<Seq<char>>,
        now: Timestamp,
    ) -> ServerModel {
        match self.clearance(session, channel, Some(Permission::KickUser), now) {
            Clearance::Refused(refused) => refused,
            Clearance::Granted { user, channel_id } => match self.auth.find_user_by_username(
                username,
            ) {
                None => self.admin_error(session.client_id, "User not found"@, now),
                Some(target) => {
                    let done = self.logged(
                        channel_id,
                        user,
                        "kick_user"@,
                        username,
                        or_empty(reason),
                        now,
                    ).evicted(
                        self.registry.clients_of_user(target.id),
                        channel,
                        "You have been kicked from this channel. Reason: "@ + or_empty(reason),
                        now,
                    );
                    done.broadcast(
                        done.channels.members(channel),
                        ServerMessageModel::UserKicked {
                            meta: done.meta(now),
                            channel,
                            user_id: target.id,
                            username,
                            kicked_by: user.username,
                            reason,
                        },
                    )
                },
            },
        }
    }

    pub open spec fn after_list_admins(
        self,
        session: Session,
        channel: Seq<char>,
        now: Timestamp,
    ) -> ServerModel {
        match self.clearance(session, channel, None, now) {
            Clearance::Refused(refused) => refused,
            Clearance::Granted { user, channel_id } => self.tell(
                session.client_id,
                ServerMessageModel::AdminList {
                    meta: self.meta(now),
                    channel,
                    admins: self.admin.list_admins(channel_id, self.auth.directory()),
                },
            ),
        }
    }

    pub open spec fn after_list_bans(
        self,
        session: Session,
        channel: Seq<char>,
        now: Timestamp,
    ) -> ServerModel {
        match self.clearance(session, channel, Some(Permission::ViewLogs), now) {
            Clearance::Refused(refused) => refused,
            Clearance::Granted { user, channel_id } => self.tell(
                session.client_id,
                ServerMessageModel::BanList {
                    meta: self.meta(now),
                    channel,
                    bans: self.bans.list_bans(channel_id, now),
                },
            ),
        }
    }

    pub open spec fn after_view_logs(
        self,
        session: Session,
        channel: Seq<char>,
        limit: u32,
        now: Timestamp,
    ) -> ServerModel {
        match self.clearance(session, channel, Some(Permission::ViewLogs), now) {
            Clearance::Refused(refused) => refused,
            Clearance::Granted { user, channel_id } => self.tell(
                session.client_id,
                ServerMessageModel::LogList {
                    meta: self.meta(now),
                    channel,
                    logs: self.admin.get_logs(channel_id, limit as nat),
                },
            ),
        }
    }

    pub open spec fn after_change_channel_type(
        self,
        session: Session,
        channel: Seq<char>,
        channel_type: ChannelType,
        now: Timestamp,
    ) -> ServerModel {
        match self.clearance(session, channel, Some(Permission::ManageChannel), now) {
            Clearance::Refused(refused) => refused,
            Clearance::Granted { user, channel_id } => {
                let done = (ServerModel {
                    admin: self.admin.set_channel_type(channel_id, channel_type),
                    ..self
                }).logged(
                    channel_id,
                    user,
                    "change_channel_type"@,
                    channel,
                    "Changed to "@ + channel_type.spec_name(),
                    now,
                );
                done.broadcast(
                    done.channels.members(channel),
                    ServerMessageModel::ChannelTypeChanged {
                        meta: done.meta(now),
                        channel,
                        new_type: channel_type,
                        changed_by: user.username,
                    },
                )
            },
        }
    }

    /// Each of `members` whose current channel is `channel` is left without
    /// a current channel.
    pub open spec fn released(self, members: Seq<ClientId>, channel: Seq<char>) -> ServerModel
        decreases members.len(),
    {
        if members.len() == 0 {
            self
        } else {
            let earlier = self.released(members.drop_last(), channel);
            if earlier.registry.channel(members.last()) == Some(channel) {
                ServerModel {
                    registry: earlier.registry.set_channel(members.last(), None),
                    ..earlier
                }
            } else {
                earlier
            }
        }
    }

    pub open spec fn after_delete_channel(
        self,
        session: Session,
        channel: Seq<char>,
        now: Timestamp,
    ) -> ServerModel {
        match self.clearance(session, channel, None, now) {
            Clearance::Refused(refused) => refused,
            Clearance::Granted { user, channel_id } => if self.admin.get_role(channel_id, user.id)
                != Role::SuperAdmin {
                self.admin_error(session.client_id, "Only SuperAdmin can delete channels"@, now)
            } else {
                let members = self.channels.members(channel);
                let told = self.broadcast(
                    members,
                    ServerMessageModel::ChannelDeleted {
                        meta: self.meta(now),
                        channel,
                        deleted_by: user.username,
                    },
                ).released(members, channel);
                ServerModel {
                    channels: told.channels.delete_channel(channel),
                    admin: told.admin.remove_channel(channel_id),
                    ..told
                }
            },
        }
    }

    /// The connection is gone: it leaves its channel, the remaining members
    /// are told, and its secret and its registration are dropped.
    pub open spec fn cleanup_disconnect(self, client_id: ClientId, now: Timestamp) -> ServerModel {
        let left = match self.registry.channel(client_id) {
            Some(channel) => {
                let out = ServerModel {
                    channels: self.channels.leave(client_id, channel),
                    ..self
                };
                match self.registry.user(client_id) {
                    Some(user) => out.broadcast_user_left(channel, user, now),
                    None => out,
                }
            },
            None => self,
        };
        ServerModel {
            ecdh: left.ecdh.remove(client_id),
            registry: left.registry.remove(client_id),
            ..left
        }
    }

    /// The bans that expired by `now` are dropped.
    pub open spec fn tick(self, now: Timestamp) -> ServerModel {
        ServerModel { bans: self.bans.cleanup_expired(now), ..self }
    }

    // ----- the step -----
    /// The relay's state after it handled `message` from the connection of
    /// `session` at `now`.
    pub open spec fn step(
        self,
        session: Session,
        message: ClientMessageModel,
        now: Timestamp,
        outside: OutsideModel,
    ) -> ServerModel {
        match message {
            ClientMessageModel::Connect { .. } => self.after_connect(session, now),
            ClientMessageModel::Auth { key, .. } => self.after_auth(session, key, now),
            ClientMessageModel::EcdhPublicKey { public_key, .. } => self.after_ecdh(
                session,
                public_key,
                outside.exchange,
                now,
            ),
            ClientMessageModel::RegisterUser { username, .. } => self.after_register(
                session,
                username,
                now,
            ),
            ClientMessageModel::Login { username, password, .. } => self.after_login(
                session,
                username,
                password,
                now,
            ),
            ClientMessageModel::JoinChannel { name, password, .. } => self.after_join(
                session,
                name,
                password,
                outside.channel_hash,
                now,
            ),
            ClientMessageModel::SendMessage { channel, content, metadata, .. } => self.after_send_message(
                session,
                channel,
                content,
                metadata,
                now,
            ),
            ClientMessageModel::ListChannels { .. } => self.after_list_channels(session, now),
            ClientMessageModel::GetHistory { channel, limit, .. } => self.after_get_history(
                session,
                channel,
                limit,
                now,
            ),
            ClientMessageModel::DeleteMessage { channel, message_id, .. } => self.after_delete_message(
                session,
                channel,
                message_id,
                now,
            ),
            ClientMessageModel::PromoteUser { channel, username, role, .. } => self.after_promote_user(
                session,
                channel,
                username,
                role,
                now,
            ),
            ClientMessageModel::DemoteUser { channel, username, .. } => self.after_demote_user(
                session,
                channel,
                username,
                now,
            ),
            ClientMessageModel::BanUser {
                channel,
                username,
                duration_seconds,
                reason,
                ..
            } => self.after_ban_user(session, channel, username, duration_seconds, reason, now),
            ClientMessageModel::UnbanUser { channel, username, .. } => self.after_unban_user(
                session,
                channel,
                username,
                now,
            ),
            ClientMessageModel::KickUser { channel, username, reason, .. } => self.after_kick_user(
                session,
                channel,
                username,
                reason,
                now,
            ),
            ClientMessageModel::ListAdmins { channel, .. } => self.after_list_admins(
                session,
                channel,
                now,
            ),
            ClientMessageModel::ListBans { channel, .. } => self.after_list_bans(
                session,
                channel,
                now,
            ),
            ClientMessageModel::ViewLogs { channel, limit, .. } => self.after_view_logs(
                session,
                channel,
                limit,
                now,
            ),
            ClientMessageModel::ChangeChannelType { channel, channel_type, .. } => self.after_change_channel_type(
                session,
                channel,
                channel_type,
                now,
            ),
            ClientMessageModel::DeleteChannel { channel, .. } => self.after_delete_channel(
                session,
                channel,
                now,
            ),
            ClientMessageModel::Disconnect { .. } => self,
        }
    }

    /// The session after the relay handled `message`.
    pub open spec fn session_after(
        self,
        session: Session,
        message: ClientMessageModel,
        outside: OutsideModel,
    ) -> Session {
        match message {
            ClientMessageModel::Auth { key, .. } => if key == self.special_key {
                Session { special_authed: true, ..session }
            } else {
                session
            },
            ClientMessageModel::EcdhPublicKey { public_key, .. } => if Self::ecdh_succeeds(
                session,
                public_key,
                outside.exchange,
            ) {
                Session { ecdh_complete: true, ..session }
            } else {
                session
            },
            ClientMessageModel::RegisterUser { username, .. } => if self.register_succeeds(
                session,
                username,
            ) {
                Session { user_authed: true, ..session }
            } else {
                session
            },
            ClientMessageModel::Login { username, password, .. } => if self.login_succeeds(
                session,
                username,
                password,
            ) {
                Session { user_authed: true, ..session }
            } else {
                session
            },
            _ => session,
        }
    }

    /// Whether the connection goes on after `message`: not after a wrong
    /// special key, and not after a disconnect.
    pub open spec fn flow_after(self, message: ClientMessageModel) -> Flow {
        match message {
            ClientMessageModel::Auth { key, .. } => if key == self.special_key {
                Flow::Continue
            } else {
                Flow::Close
            },
            ClientMessageModel::Disconnect { .. } => Flow::Close,
            _ => Flow::Continue,
        }
    }
}

} // verus!
