//! One step of a session: a client message comes in, the stores change, and
//! messages are queued. The step is a function of the state, the message,
//! the clock reading and what the world outside contributes.

use vstd::prelude::*;
use crate::protocol::messages::{ClientMessage, ClientMessageModel};
use crate::server::channel::{
    argon2_verifies,
    asks_for_hash,
    ChannelManager,
    ClientId,
    MAX_PASSWORD_BYTES,
};
use crate::server::crypto::{EcdhManager, KEY_LEN};
use crate::server::model::{Flow, OutsideModel, ServerModel, Session};
use crate::server::state::AppState;
use crate::text::byte_len;
use crate::time::Timestamp;

verus! {

/// What the world outside contributes to one step.
#[derive(Debug)]
pub struct Outside {
    /// The hash of the password of a channel that the step may create.
    pub channel_hash: Option<String>,
    /// The server's public key and the shared secret of a key exchange that
    /// the step may complete.
    pub exchange: Option<(Vec<u8>, Vec<u8>)>,
}

impl View for Outside {
    type V = OutsideModel;

    open spec fn view(&self) -> OutsideModel {
        OutsideModel {
            channel_hash: self.channel_hash.deep_view(),
            exchange: self.exchange.deep_view(),
        }
    }
}

impl ServerModel {
    /// The state with `next` as the id of the next connection.
    pub open spec fn numbered(self, next: u64) -> ServerModel {
        ServerModel { next_client_id: next, ..self }
    }

    /// `outside` holds what `message` needs: a hash that the password
    /// verifies against where a private channel is to be made, and a key
    /// exchange where one is to be completed.
    pub open spec fn supplied(
        self,
        session: Session,
        message: ClientMessageModel,
        outside: OutsideModel,
    ) -> bool {
        &&& outside.wf()
        &&& match message {
            ClientMessageModel::JoinChannel { name, password, .. } => {
                &&& outside.channel_hash matches Some(hash) ==> asks_for_hash(password)
                    && argon2_verifies(password->0, hash)
                &&& !self.channels.has(name) && asks_for_hash(password) && byte_len(password->0)
                    <= MAX_PASSWORD_BYTES ==> outside.channel_hash is Some
            },
            ClientMessageModel::EcdhPublicKey { public_key, .. } => session.special_authed
                && public_key.len() == KEY_LEN ==> outside.exchange is Some,
            _ => true,
        }
    }
}

impl AppState {
    /// Makes the outside calls that `message` may need: hashes the password
    /// of a channel that does not exist yet, and answers a key exchange.
    pub fn gather(&self, session: &Session, message: &ClientMessage) -> (outside: Outside)
        requires
            self.wf(),
        ensures
            self@.supplied(*session, message@, outside@),
    {
        match message {
            ClientMessage::JoinChannel { name, password, .. } => {
                let channel_hash = if self.channels.get_channel_id(name.as_str()).is_none() {
                    ChannelManager::hash_for(password)
                } else {
                    None
                };
                Outside { channel_hash, exchange: None }
            },
            ClientMessage::EcdhPublicKey { public_key, .. } => {
                let exchange = if session.special_authed {
                    EcdhManager::fresh_exchange(public_key.as_slice())
                } else {
                    None
                };
                Outside { channel_hash: None, exchange }
            },
            _ => Outside { channel_hash: None, exchange: None },
        }
    }

    /// Handles `message` at the clock reading `now` with the outside
    /// results given.
    pub fn dispatch_with(
        &mut self,
        session: &mut Session,
        message: ClientMessage,
        now: Timestamp,
        outside: Outside,
    ) -> (flow: Flow)
        requires
            old(self).inv(),
            old(self)@.has_room(),
            outside@.wf(),
        ensures
            final(self).inv(),
            final(self)@ == old(self)@.step(*old(session), message@, now, outside@),
            *final(session) == old(self)@.session_after(*old(session), message@, outside@),
            flow == old(self)@.flow_after(message@),
            final(self)@.extends(old(self)@),
            final(self)@.numbers_on_from(old(self)@),
            old(self)@.channels.time_ordered() && old(self)@.clock_fits(message@, now)
                ==> final(self)@.channels.time_ordered(),
    {
        proof {
            old(self)@.step_keeps_inv(*old(session), message@, now, outside@);
        }
        match message {
            ClientMessage::Connect { .. } => {
                self.handle_connect(session, now);
                Flow::Continue
            },
            ClientMessage::Auth { key, .. } => self.handle_auth(session, key.as_str(), now),
            ClientMessage::EcdhPublicKey { public_key, .. } => {
                self.handle_ecdh_public_key_with(
                    session,
                    public_key.as_slice(),
                    outside.exchange,
                    now,
                );
                Flow::Continue
            },
            ClientMessage::RegisterUser { username, .. } => {
                self.handle_register_user(session, username, now);
                Flow::Continue
            },
            ClientMessage::Login { username, password, .. } => {
                self.handle_login(session, username.as_str(), password.as_str(), now);
                Flow::Continue
            },
            ClientMessage::JoinChannel { name, password, .. } => {
                self.handle_join_channel_with(
                    session,
                    name.as_str(),
                    password,
                    outside.channel_hash,
                    now,
                );
                Flow::Continue
            },
            ClientMessage::SendMessage { channel, content, metadata, .. } => {
                self.handle_send_message(session, channel.as_str(), content, metadata, now);
                Flow::Continue
            },
            ClientMessage::ListChannels { .. } => {
                self.handle_list_channels(session, now);
                Flow::Continue
            },
            ClientMessage::GetHistory { channel, limit, .. } => {
                self.handle_get_history(session, channel.as_str(), limit, now);
                Flow::Continue
            },
            ClientMessage::DeleteMessage { channel, message_id, .. } => {
                self.handle_delete_message(session, channel.as_str(), message_id, now);
                Flow::Continue
            },
            ClientMessage::PromoteUser { channel, username, role, .. } => {
                self.handle_promote_user(session, channel.as_str(), username.as_str(), role, now);
                Flow::Continue
            },
            ClientMessage::DemoteUser { channel, username, .. } => {
                self.handle_demote_user(session, channel.as_str(), username.as_str(), now);
                Flow::Continue
            },
            ClientMessage::BanUser { channel, username, duration_seconds, reason, .. } => {
                self.handle_ban_user(
                    session,
                    channel.as_str(),
                    username.as_str(),
                    duration_seconds,
                    reason,
                    now,
                );
                Flow::Continue
            },
            ClientMessage::UnbanUser { channel, username, .. } => {
                self.handle_unban_user(session, channel.as_str(), username.as_str(), now);
                Flow::Continue
            },
            ClientMessage::KickUser { channel, username, reason, .. } => {
                self.handle_kick_user(session, channel.as_str(), username.as_str(), reason, now);
                Flow::Continue
            },
            ClientMessage::ListAdmins { channel, .. } => {
                self.handle_list_admins(session, channel.as_str(), now);
                Flow::Continue
            },
            ClientMessage::ListBans { channel, .. } => {
                self.handle_list_bans(session, channel.as_str(), now);
                Flow::Continue
            },
            ClientMessage::ViewLogs { channel, limit, .. } => {
                self.handle_view_logs(session, channel.as_str(), limit, now);
                Flow::Continue
            },
            ClientMessage::ChangeChannelType { channel, channel_type, .. } => {
                self.handle_change_channel_type(session, channel.as_str(), channel_type, now);
                Flow::Continue
            },
            ClientMessage::DeleteChannel { channel, .. } => {
                self.handle_delete_channel(session, channel.as_str(), now);
                Flow::Continue
            },
            ClientMessage::Disconnect { .. } => Flow::Close,
        }
    }

    /// Handles `message` at the clock reading `now`, making the outside
    /// calls it needs.
    pub fn dispatch(
        &mut self,
        session: &mut Session,
        message: ClientMessage,
        now: Timestamp,
    ) -> (flow: Flow)
        requires
            old(self).inv(),
            old(self)@.has_room(),
        ensures
            final(self).inv(),
            flow == old(self)@.flow_after(message@),
            final(self)@.extends(old(self)@),
            final(self)@.numbers_on_from(old(self)@),
            old(self)@.channels.time_ordered() && old(self)@.clock_fits(message@, now)
                ==> final(self)@.channels.time_ordered(),
            exists|outside: OutsideModel|
                {
                    &&& old(self)@.supplied(*old(session), message@, outside)
                    &&& final(self)@ == #[trigger] old(self)@.step(
                        *old(session),
                        message@,
                        now,
                        outside,
                    )
                    &&& *final(session) == old(self)@.session_after(
                        *old(session),
                        message@,
                        outside,
                    )
                },
    {
        let outside = self.gather(session, &message);
        let ghost given = outside@;
        let ghost asked = message@;
        let flow = self.dispatch_with(session, message, now, outside);
        assert(self@ == old(self)@.step(*old(session), asked, now, given));
        flow
    }

    /// Handles `message` at the present moment.
    pub fn handle_message(&mut self, session: &mut Session, message: ClientMessage) -> (flow: Flow)
        requires
            old(self).inv(),
            old(self)@.has_room(),
        ensures
            final(self).inv(),
            flow == old(self)@.flow_after(message@),
            final(self)@.extends(old(self)@),
            final(self)@.numbers_on_from(old(self)@),
            exists|now: Timestamp, outside: OutsideModel|
                {
                    &&& old(self)@.supplied(*old(session), message@, outside)
                    &&& final(self)@ == #[trigger] old(self)@.step(
                        *old(session),
                        message@,
                        now,
                        outside,
                    )
                    &&& *final(session) == old(self)@.session_after(
                        *old(session),
                        message@,
                        outside,
                    )
                    &&& old(self)@.channels.time_ordered() && old(self)@.clock_fits(message@, now)
                        ==> final(self)@.channels.time_ordered()
                },
    {
        let now = Timestamp::now();
        self.dispatch(session, message, now)
    }

    /// Accepts a connection at the present moment: numbers it, registers it
    /// and challenges it for the special key. Nothing is done where the number
    /// is still in use by a live connection.
    pub fn connect(&mut self) -> (session: Option<Session>)
        requires
            old(self).inv(),
        ensures
            final(self).inv(),
            old(self)@.channels.time_ordered() ==> final(self)@.channels.time_ordered(),
            match session {
                Some(s) => {
                    &&& s.client_id == old(self)@.next_client_id
                    &&& !old(self)@.registry.is_registered(s.client_id)
                    &&& !s.special_authed && !s.user_authed && !s.ecdh_complete
                    &&& exists|now: Timestamp|
                        final(self)@ == #[trigger] old(self)@.numbered(
                            final(self)@.next_client_id,
                        ).open_session(s.client_id, now)
                },
                None => {
                    &&& old(self)@.registry.is_registered(old(self)@.next_client_id)
                    &&& final(self)@ == old(self)@.numbered(final(self)@.next_client_id)
                },
            },
    {
        let client_id = self.next_client_id();
        if self.registry.is_registered(client_id) {
            return None;
        }
        let now = Timestamp::now();
        let ghost numbered = self@;
        proof {
            old(self)@.routing_decides_consistency(numbered);
            numbered.open_session_keeps_inv(client_id, now);
            numbered.tell_changes_queue_only(
                client_id,
                crate::protocol::messages::ServerMessageModel::AuthChallenge {
                    meta: numbered.meta(now),
                    message: "special auth key required"@,
                },
            );
        }
        let session = self.open_session(client_id, now);
        assert(numbered == old(self)@.numbered(self@.next_client_id));
        assert(self@ == old(self)@.numbered(self@.next_client_id).open_session(client_id, now));
        Some(session)
    }

    /// What always runs when a connection ends, at the present moment.
    pub fn cleanup_disconnect(&mut self, client_id: ClientId)
        requires
            old(self).inv(),
        ensures
            final(self).inv(),
            !final(self)@.registry.is_registered(client_id),
            exists|now: Timestamp|
                final(self)@ == #[trigger] old(self)@.cleanup_disconnect(client_id, now),
            old(self)@.channels.time_ordered() ==> final(self)@.channels.time_ordered(),
    {
        let now = Timestamp::now();
        proof {
            old(self)@.cleanup_disconnect_keeps_inv(client_id, now);
        }
        self.cleanup_disconnect_at(client_id, now);
        assert(self@ == old(self)@.cleanup_disconnect(client_id, now));
    }

    /// Drops the bans that expired by the present moment. The relay calls
    /// this once a minute.
    pub fn tick(&mut self)
        requires
            old(self).inv(),
        ensures
            final(self).inv(),
            exists|now: Timestamp| final(self)@ == #[trigger] old(self)@.tick(now),
            old(self)@.channels.time_ordered() ==> final(self)@.channels.time_ordered(),
    {
        let now = Timestamp::now();
        proof {
            old(self)@.tick_keeps_inv(now);
        }
        self.tick_at(&now);
        assert(self@ == old(self)@.tick(now));
    }
}

} // verus!
