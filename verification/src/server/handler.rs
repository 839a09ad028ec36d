//! The dispatcher for admission and channel traffic: what the relay does
//! with each client message, one function to the command.

use vstd::prelude::*;
use crate::server::model::OutsideModel;
use crate::protocol::messages::ClientMessageModel;
use crate::protocol::messages::{ChannelInfo, ChatMessage, ServerMessage, UserInfo};
use crate::server::channel::{asks_for_hash, hash_admits, ClientId};
use crate::server::crypto::KEY_LEN;
use crate::server::model::{nonce_of, value_among, Flow, ServerModel, Session, JOIN_HISTORY};
use crate::server::state::AppState;
use crate::text::{hex_decode, joined, owned, str_eq};
use crate::time::Timestamp;

verus! {

/// The nonce that `metadata` carries under its first `nonce` key.
pub fn extract_nonce(metadata: &Vec<(String, String)>) -> (nonce: Option<Vec<u8>>)
    ensures
        nonce.deep_view() == nonce_of(metadata.deep_view()),
{
    let mut found: Option<usize> = None;
    let mut i: usize = 0;
    while i < metadata.len()
        invariant
            i <= metadata.len(),
            match found {
                Some(k) => k < i && value_among(metadata.deep_view(), "nonce"@, i as nat) == Some(
                    metadata[k as int].1@,
                ),
                None => value_among(metadata.deep_view(), "nonce"@, i as nat) is None,
            },
        decreases metadata.len() - i,
    {
        if found.is_none() && str_eq(metadata[i].0.as_str(), "nonce") {
            found = Some(i);
        }
        i += 1;
    }
    match found {
        Some(k) => hex_decode(metadata[k].1.as_str()),
        None => None,
    }
}

impl AppState {
    /// `Connect` is a greeting without effect; before the special key was
    /// accepted it is refused like any other message.
    pub fn handle_connect(&mut self, session: &Session, now: Timestamp)
        requires
            old(self).inv(),
        ensures
            final(self).inv(),
            final(self)@ == old(self)@.after_connect(*session, now),
            final(self)@.extends(old(self)@),
            final(self)@.numbers_on_from(old(self)@),
            old(self)@.channels.time_ordered() ==> final(self)@.channels.time_ordered(),
    {
        proof {
            old(self)@.step_keeps_inv(
                *session,
                ClientMessageModel::Connect {
                    meta: crate::protocol::messages::MessageMeta { id: 0, timestamp: now },
                    client_name: None,
                    client_version: None,
                },
                now,
                OutsideModel { channel_hash: None, exchange: None },
            );
        }
        if !session.special_authed {
            self.send_protocol_error(session.client_id, "special auth required", now);
        }
    }

    /// `Auth`: the special key is compared with the relay's. A match is
    /// acknowledged; a mismatch is answered with `AuthFailure` and ends the
    /// connection.
    pub fn handle_auth(&mut self, session: &mut Session, key: &str, now: Timestamp) -> (flow: Flow)
        requires
            old(self).inv(),
        ensures
            final(self).inv(),
            final(self)@ == old(self)@.after_auth(*old(session), key@, now),
            final(session).client_id == old(session).client_id,
            key@ == old(self)@.special_key
                ==> flow == Flow::Continue && *final(session) == (Session {
                special_authed: true,
                ..*old(session)
            }),
            key@ != old(self)@.special_key ==> flow == Flow::Close && *final(session) == *old(
                session,
            ),
            final(self)@.extends(old(self)@),
            final(self)@.numbers_on_from(old(self)@),
            old(self)@.channels.time_ordered() ==> final(self)@.channels.time_ordered(),
    {
        proof {
            old(self)@.step_keeps_inv(
                *old(session),
                ClientMessageModel::Auth {
                    meta: crate::protocol::messages::MessageMeta { id: 0, timestamp: now },
                    key: key@,
                },
                now,
                OutsideModel { channel_hash: None, exchange: None },
            );
        }
        let ok = self.auth.verify_special_key(self.special_key.as_str(), key);
        if !ok {
            self.send_auth_failure(session.client_id, owned("invalid special key"), now);
            return Flow::Close;
        }
        session.special_authed = true;
        self.send_system_message(
            session.client_id,
            "special key accepted; send ECDH public key",
            now,
        );
        Flow::Continue
    }

    /// `EcdhPublicKey`, with the outcome of the key exchange handed in: the
    /// shared secret is kept under the connection and the server's public
    /// key goes back.
    pub fn handle_ecdh_public_key_with(
        &mut self,
        session: &mut Session,
        public_key: &[u8],
        exchange: Option<(Vec<u8>, Vec<u8>)>,
        now: Timestamp,
    )
        requires
            old(self).inv(),
            exchange.deep_view() matches Some((public, shared)) ==> public.len() == KEY_LEN
                && shared.len() == KEY_LEN,
        ensures
            final(self).inv(),
            final(self)@ == old(self)@.after_ecdh(
                *old(session),
                public_key@,
                exchange.deep_view(),
                now,
            ),
            *final(session) == (if ServerModel::ecdh_succeeds(
                *old(session),
                public_key@,
                exchange.deep_view(),
            ) {
                Session { ecdh_complete: true, ..*old(session) }
            } else {
                *old(session)
            }),
            final(self)@.extends(old(self)@),
            final(self)@.numbers_on_from(old(self)@),
            old(self)@.channels.time_ordered() ==> final(self)@.channels.time_ordered(),
    {
        proof {
            old(self)@.step_keeps_inv(
                *old(session),
                ClientMessageModel::EcdhPublicKey {
                    meta: crate::protocol::messages::MessageMeta { id: 0, timestamp: now },
                    public_key: public_key@,
                },
                now,
                OutsideModel { channel_hash: None, exchange: exchange.deep_view() },
            );
        }
        if !session.special_authed {
            self.send_protocol_error(session.client_id, "special auth required", now);
            return ;
        }
        if public_key.len() != KEY_LEN {
            self.send_protocol_error(session.client_id, "invalid public key length", now);
            return ;
        }
        match exchange {
            Some((server_public, shared)) => {
                proof {
                    assert(server_public.deep_view() =~= server_public@);
                    assert(shared.deep_view() =~= shared@);
                }
                self.ecdh.store_secret(session.client_id, shared);
                session.ecdh_complete = true;
                let meta = self.server_meta(now);
                self.registry.send(
                    session.client_id,
                    ServerMessage::EcdhAck { meta, public_key: server_public },
                );
                self.send_system_message(
                    session.client_id,
                    "encryption enabled; please login or register",
                    now,
                );
            },
            None => {},
        }
    }

    /// Binds `user` to the connection and tells it so, with the list of
    /// public channels.
    fn welcome(
        &mut self,
        client_id: ClientId,
        user: UserInfo,
        generated_password: Option<String>,
        now: Timestamp,
    )
        requires
            old(self).wf(),
        ensures
            final(self).wf(),
            final(self)@ == old(self)@.welcomed(
                client_id,
                user@,
                generated_password.deep_view(),
                now,
            ),
    {
        self.registry.set_user(client_id, user.clone());
        let meta = self.server_meta(now);
        self.registry.send(
            client_id,
            ServerMessage::AuthSuccess { meta, user, generated_password },
        );
        self.send_channel_list(client_id, now);
    }

    /// `RegisterUser`: the trimmed name must be new and not empty; the user
    /// gets the next id and a minted password, and is bound to the
    /// connection.
    pub fn handle_register_user(&mut self, session: &mut Session, username: String, now: Timestamp)
        requires
            old(self).inv(),
            old(self)@.auth.next_user_id < u64::MAX,
        ensures
            final(self).inv(),
            final(self)@ == old(self)@.after_register(*old(session), username@, now),
            *final(session) == (if old(self)@.register_succeeds(*old(session), username@) {
                Session { user_authed: true, ..*old(session) }
            } else {
                *old(session)
            }),
            final(self)@.extends(old(self)@),
            final(self)@.numbers_on_from(old(self)@),
            old(self)@.channels.time_ordered() ==> final(self)@.channels.time_ordered(),
    {
        proof {
            old(self)@.step_keeps_inv(
                *old(session),
                ClientMessageModel::RegisterUser {
                    meta: crate::protocol::messages::MessageMeta { id: 0, timestamp: now },
                    username: username@,
                },
                now,
                OutsideModel { channel_hash: None, exchange: None },
            );
        }
        if !session.special_authed {
            self.send_protocol_error(session.client_id, "special auth required", now);
            return ;
        }
        match self.auth.register_at(username, now) {
            Ok((user, password)) => {
                session.user_authed = true;
                self.welcome(session.client_id, user, Some(password), now);
            },
            Err(reason) => {
                self.send_auth_failure(session.client_id, reason, now);
            },
        }
    }

    /// `Login`: the credentials are checked against the user records; the
    /// user is bound to the connection.
    pub fn handle_login(
        &mut self,
        session: &mut Session,
        username: &str,
        password: &str,
        now: Timestamp,
    )
        requires
            old(self).inv(),
        ensures
            final(self).inv(),
            final(self)@ == old(self)@.after_login(*old(session), username@, password@, now),
            *final(session) == (if old(self)@.login_succeeds(*old(session), username@, password@) {
                Session { user_authed: true, ..*old(session) }
            } else {
                *old(session)
            }),
            final(self)@.extends(old(self)@),
            final(self)@.numbers_on_from(old(self)@),
            old(self)@.channels.time_ordered() ==> final(self)@.channels.time_ordered(),
    {
        proof {
            old(self)@.step_keeps_inv(
                *old(session),
                ClientMessageModel::Login {
                    meta: crate::protocol::messages::MessageMeta { id: 0, timestamp: now },
                    username: username@,
                    password: password@,
                },
                now,
                OutsideModel { channel_hash: None, exchange: None },
            );
        }
        if !session.special_authed {
            self.send_protocol_error(session.client_id, "special auth required", now);
            return ;
        }
        match self.auth.login(username, password) {
            Ok(user) => {
                session.user_authed = true;
                self.welcome(session.client_id, user, None, now);
            },
            Err(reason) => {
                self.send_auth_failure(session.client_id, reason, now);
            },
        }
    }

    /// `ListChannels`: the public channels, sorted by name.
    pub fn handle_list_channels(&mut self, session: &Session, now: Timestamp)
        requires
            old(self).inv(),
        ensures
            final(self).inv(),
            final(self)@ == old(self)@.after_list_channels(*session, now),
            final(self)@.extends(old(self)@),
            final(self)@.numbers_on_from(old(self)@),
            old(self)@.channels.time_ordered() ==> final(self)@.channels.time_ordered(),
    {
        proof {
            old(self)@.step_keeps_inv(
                *session,
                ClientMessageModel::ListChannels {
                    meta: crate::protocol::messages::MessageMeta { id: 0, timestamp: now },
                },
                now,
                OutsideModel { channel_hash: None, exchange: None },
            );
        }
        if !session.user_authed {
            self.send_protocol_error(session.client_id, "login/register required", now);
            return ;
        }
        self.send_channel_list(session.client_id, now);
    }

    /// Takes the connection out of its current channel, if it has one, and
    /// tells the members that remain.
    fn leave_current(&mut self, client_id: ClientId, user: &UserInfo, now: Timestamp)
        requires
            old(self).wf(),
        ensures
            final(self).wf(),
            final(self)@ == old(self)@.left_current(client_id, user@, now),
    {
        match self.registry.channel(client_id) {
            Some(previous) => {
                self.channels.leave(client_id, previous.as_str());
                self.registry.set_channel(client_id, None);
                self.broadcast_user_left(previous.as_str(), user.clone(), now);
            },
            None => {},
        }
    }

    /// Makes the channel called `name` where it does not exist, with
    /// `creator` as its Admin.
    fn make_channel(
        &mut self,
        name: &str,
        password: &Option<String>,
        fresh_hash: Option<String>,
        creator: u64,
    )
        requires
            old(self).wf(),
            old(self)@.channels.next_channel_id < u64::MAX,
        ensures
            final(self).wf(),
            final(self)@ == old(self)@.made(
                name@,
                password.deep_view(),
                fresh_hash.deep_view(),
                creator,
            ),
            final(self)@.channels.has(name@),
    {
        proof {
            old(self)@.channels.ensure_channel_keeps_wf(
                name@,
                true,
                if asks_for_hash(password.deep_view()) {
                    fresh_hash.deep_view()
                } else {
                    None
                },
                Some(creator),
            );
        }
        if self.channels.get_channel_id(name).is_some() {
            return ;
        }
        let wants = match password {
            Some(p) => !p.as_str().is_empty(),
            None => false,
        };
        let hash = if wants {
            fresh_hash
        } else {
            None
        };
        let channel_id = self.channels.ensure_channel_hashed(name, true, hash, Some(creator));
        self.admin.set_channel_creator(channel_id, creator);
    }

    /// Lets the connection into the existing channel called `name`, where
    /// its user is not banned and `password` opens the channel: it becomes
    /// a member, gets the channel's description and its newest 50 messages,
    /// and the members are told.
    fn enter_channel(
        &mut self,
        client_id: ClientId,
        user: UserInfo,
        name: &str,
        password: Ghost<Option<Seq<char>>>,
        now: Timestamp,
    )
        requires
            old(self).wf(),
            old(self)@.channels.has(name@),
            !old(self)@.bans.is_banned(old(self)@.channels.channel(name@).id, user@.id, now),
            old(self)@.channels.channel(name@).admits(password@),
        ensures
            final(self).wf(),
            final(self)@ == old(self)@.enter(client_id, user@, name@, password@, now),
    {
        let Some(channel_id) = self.channels.get_channel_id(name) else {
            return ;
        };
        let Some(base) = self.channels.let_in(client_id, name) else {
            return ;
        };
        let role = self.admin.get_role(channel_id, user.id);
        let channel_type = self.admin.get_channel_type(channel_id);
        let info = ChannelInfo {
            id: channel_id,
            name: owned(name),
            is_public: base.is_public,
            channel_type,
            user_role: Some(role),
        };
        self.registry.set_channel(client_id, Some(owned(name)));
        let meta = self.server_meta(now);
        self.registry.send(client_id, ServerMessage::JoinSuccess { meta, channel: info });
        let messages = self.channels.history(name, JOIN_HISTORY);
        let meta = self.server_meta(now);
        self.registry.send(
            client_id,
            ServerMessage::HistoryChunk { meta, channel: owned(name), messages },
        );
        self.broadcast_user_joined(name, user, now);
    }

    /// Why a join of the channel called `name` by `user` is refused, if it
    /// is. Nothing is changed.
    fn join_refusal(
        &self,
        user: &UserInfo,
        name: &str,
        password: &Option<String>,
        fresh_hash: &Option<String>,
        now: Timestamp,
    ) -> (refusal: Option<String>)
        requires
            self.wf(),
            self@.channels.next_channel_id < u64::MAX,
        ensures
            refusal.deep_view() == self@.join_refusal(
                user@.id,
                name@,
                password.deep_view(),
                fresh_hash.deep_view(),
                now,
            ),
    {
        let wants = match password {
            Some(p) => !p.as_str().is_empty(),
            None => false,
        };
        let existing = self.channels.get_channel_id(name);
        if existing.is_none() && wants && fresh_hash.is_none() {
            return Some(owned("channel password too long"));
        }
        proof {
            self@.channels.ensure_channel_keeps_wf(
                name@,
                true,
                if asks_for_hash(password.deep_view()) {
                    fresh_hash.deep_view()
                } else {
                    None
                },
                Some(user.id),
            );
        }
        let channel_id = match existing {
            Some(id) => id,
            None => self.channels.next_id(),
        };
        match self.bans.get_ban_info(channel_id, user.id) {
            Some(ban) => if ban.is_active(&now) {
                return match &ban.banned_until {
                    Some(until) => Some(joined("Banned until ", until.to_text().as_str())),
                    None => Some(owned("Permanently banned from channel")),
                };
            },
            None => {},
        }
        let admitted = match existing {
            Some(_) => self.channels.admits(name, password),
            None => !wants || hash_admits(fresh_hash, password),
        };
        if admitted {
            None
        } else {
            Some(owned("invalid channel password"))
        }
    }

    /// `JoinChannel`, with the hash for a channel that may have to be made
    /// handed in. A banned user and a wrong password are refused, and the
    /// connection stays where it was. Otherwise the connection leaves its
    /// current channel; the channel is made where it does not exist, with
    /// the user as its Admin; the connection becomes a member, gets the
    /// channel's description and its newest 50 messages, and the members
    /// are told.
    pub fn handle_join_channel_with(
        &mut self,
        session: &Session,
        name: &str,
        password: Option<String>,
        fresh_hash: Option<String>,
        now: Timestamp,
    )
        requires
            old(self).inv(),
            old(self)@.channels.next_channel_id < u64::MAX,
        ensures
            final(self).inv(),
            final(self)@ == old(self)@.after_join(
                *session,
                name@,
                password.deep_view(),
                fresh_hash.deep_view(),
                now,
            ),
            final(self)@.extends(old(self)@),
            final(self)@.numbers_on_from(old(self)@),
            old(self)@.channels.time_ordered() ==> final(self)@.channels.time_ordered(),
    {
        proof {
            old(self)@.step_keeps_inv(
                *session,
                ClientMessageModel::JoinChannel {
                    meta: crate::protocol::messages::MessageMeta { id: 0, timestamp: now },
                    name: name@,
                    password: password.deep_view(),
                },
                now,
                OutsideModel { channel_hash: fresh_hash.deep_view(), exchange: None },
            );
        }
        let client_id = session.client_id;
        if !session.user_authed {
            self.send_protocol_error(client_id, "login/register required", now);
            return ;
        }
        let Some(user) = self.registry.user(client_id) else {
            self.send_protocol_error(client_id, "user missing", now);
            return ;
        };
        if let Some(reason) = self.join_refusal(&user, name, &password, &fresh_hash, now) {
            self.send_join_failure(client_id, name, reason, now);
            return ;
        }
        proof {
            old(self)@.leaving_keeps_the_verdict(
                client_id,
                user@,
                name@,
                password.deep_view(),
                fresh_hash.deep_view(),
                now,
            );
        }
        self.leave_current(client_id, &user, now);
        self.make_channel(name, &password, fresh_hash, user.id);
        self.enter_channel(client_id, user, name, Ghost(password.deep_view()), now);
    }

    /// `SendMessage`: the sender must be in the channel it names and must
    /// be allowed to speak there; the message is stored under a fresh id
    /// and the stamp `now`, and goes to every member.
    pub fn handle_send_message(
        &mut self,
        session: &Session,
        channel: &str,
        content: Vec<u8>,
        metadata: Vec<(String, String)>,
        now: Timestamp,
    )
        requires
            old(self).inv(),
            old(self)@.channels.next_message_id < u64::MAX,
        ensures
            final(self).inv(),
            final(self)@ == old(self)@.after_send_message(
                *session,
                channel@,
                content@,
                metadata.deep_view(),
                now,
            ),
            final(self)@.extends(old(self)@),
            final(self)@.numbers_on_from(old(self)@),
            old(self)@.channels.time_ordered() && old(self)@.channels.clock_fits(channel@, now)
                ==> final(self)@.channels.time_ordered(),
    {
        proof {
            old(self)@.step_keeps_inv(
                *session,
                ClientMessageModel::SendMessage {
                    meta: crate::protocol::messages::MessageMeta { id: 0, timestamp: now },
                    channel: channel@,
                    content: content@,
                    metadata: metadata.deep_view(),
                },
                now,
                OutsideModel { channel_hash: None, exchange: None },
            );
        }
        let client_id = session.client_id;
        if !session.user_authed {
            self.send_protocol_error(client_id, "login/register required", now);
            return ;
        }
        let Some(user) = self.registry.user(client_id) else {
            self.send_protocol_error(client_id, "user missing", now);
            return ;
        };
        let joined_here = match self.registry.channel(client_id) {
            Some(current) => str_eq(current.as_str(), channel),
            None => false,
        };
        if !joined_here {
            self.send_protocol_error(client_id, "not joined to channel", now);
            return ;
        }
        if let Some(channel_id) = self.channels.get_channel_id(channel) {
            if !self.admin.can_send_message(channel_id, user.id) {
                self.send_admin_error(
                    client_id,
                    "You lack permission to send messages in this channel",
                    now,
                );
                return ;
            }
        }
        let nonce = extract_nonce(&metadata);
        let message = ChatMessage {
            id: 0,
            user_id: user.id,
            username: user.username.clone(),
            content,
            timestamp: now,
            nonce,
            metadata,
        };
        match self.channels.add_message_at(channel, message, now) {
            Ok(stored) => {
                self.broadcast_message(channel, stored, now);
            },
            Err(reason) => {
                self.send_protocol_error(client_id, reason.as_str(), now);
            },
        }
    }

    /// `GetHistory`: the newest `limit` messages of the channel, oldest
    /// first.
    pub fn handle_get_history(
        &mut self,
        session: &Session,
        channel: &str,
        limit: u16,
        now: Timestamp,
    )
        requires
            old(self).inv(),
        ensures
            final(self).inv(),
            final(self)@ == old(self)@.after_get_history(*session, channel@, limit, now),
            final(self)@.extends(old(self)@),
            final(self)@.numbers_on_from(old(self)@),
            old(self)@.channels.time_ordered() ==> final(self)@.channels.time_ordered(),
    {
        proof {
            old(self)@.step_keeps_inv(
                *session,
                ClientMessageModel::GetHistory {
                    meta: crate::protocol::messages::MessageMeta { id: 0, timestamp: now },
                    channel: channel@,
                    limit,
                },
                now,
                OutsideModel { channel_hash: None, exchange: None },
            );
        }
        if !session.user_authed {
            self.send_protocol_error(session.client_id, "login/register required", now);
            return ;
        }
        let messages = self.channels.history(channel, limit as usize);
        let meta = self.server_meta(now);
        self.registry.send(
            session.client_id,
            ServerMessage::HistoryChunk { meta, channel: owned(channel), messages },
        );
    }

    /// What always runs when a connection ends: it leaves its channel, the
    /// remaining members are told, and its secret and its registration are
    /// dropped.
    pub fn cleanup_disconnect_at(&mut self, client_id: ClientId, now: Timestamp)
        requires
            old(self).inv(),
        ensures
            final(self).inv(),
            final(self)@ == old(self)@.cleanup_disconnect(client_id, now),
            !final(self)@.registry.is_registered(client_id),
            old(self)@.channels.time_ordered() ==> final(self)@.channels.time_ordered(),
    {
        proof {
            old(self)@.cleanup_disconnect_keeps_inv(client_id, now);
        }
        let user = self.registry.user(client_id);
        match self.registry.channel(client_id) {
            Some(channel) => {
                self.channels.leave(client_id, channel.as_str());
                match user {
                    Some(user) => {
                        self.broadcast_user_left(channel.as_str(), user, now);
                    },
                    None => {},
                }
            },
            None => {},
        }
        self.ecdh.remove(client_id);
        self.registry.remove(client_id);
    }
}

} // verus!
