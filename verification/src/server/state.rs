//! The relay's state: the stores, the special key and the counters, with the
//! few operations every handler builds on.

use vstd::prelude::*;
use crate::text::str_eq;
use crate::keyed::index_of_unique;
use crate::protocol::messages::{ChatMessage, MessageMeta, ServerMessage, UserInfo};
use crate::server::admin::AdminManager;
use crate::server::auth::AuthService;
use crate::server::ban_manager::BanManager;
use crate::server::channel::{ChannelManager, ClientId};
use crate::server::crypto::EcdhManager;
use crate::server::model::{ServerModel, Session};
use crate::server::registry::{Outbound, Registry};
use crate::text::owned;
use crate::time::Timestamp;

verus! {

/// Everything the relay knows.
#[derive(Debug)]
pub struct AppState {
    pub auth: AuthService,
    pub channels: ChannelManager,
    pub registry: Registry,
    pub ecdh: EcdhManager,
    pub admin: AdminManager,
    pub bans: BanManager,
    /// The special key every connection has to present first.
    pub special_key: String,
    pub next_client_id: u64,
    pub next_server_msg_id: u64,
}

impl View for AppState {
    type V = ServerModel;

    open spec fn view(&self) -> ServerModel {
        ServerModel {
            auth: self.auth@,
            channels: self.channels@,
            registry: self.registry@,
            ecdh: self.ecdh@,
            admin: self.admin@,
            bans: self.bans@,
            special_key: self.special_key@,
            next_client_id: self.next_client_id,
            next_server_msg_id: self.next_server_msg_id,
        }
    }
}

impl AppState {
    /// Every store is well formed.
    pub open spec fn wf(&self) -> bool {
        self@.wf()
    }

    /// The invariant of the relay: every store is well formed, and a
    /// connection is a member of a channel exactly if that channel is its
    /// current channel.
    pub open spec fn inv(&self) -> bool {
        self@.inv()
    }

    /// Whether every connection that has a current channel is a member of
    /// that channel.
    fn channels_hold_their_connections(&self) -> (ok: bool)
        requires
            self.wf(),
        ensures
            ok == (forall|id: ClientId, name: Seq<char>|
                self@.registry.channel(id) == Some(name) ==> #[trigger] self@.channels.is_member(
                    id,
                    name,
                )),
    {
        let list = self.registry.connections();
        let ghost registry = self@.registry;
        let ghost channels = self@.channels;
        let mut i: usize = 0;
        while i < list.len()
            invariant
                self.wf(),
                registry == self@.registry,
                channels == self@.channels,
                i <= list@.len() == registry.clients.len(),
                forall|k: int|
                    0 <= k < list@.len() ==> (#[trigger] list@[k]).0 == registry.clients[k].id
                        && list@[k].1.deep_view() == registry.clients[k].current_channel,
                forall|k: int|
                    0 <= k < i ==> ((#[trigger] registry.clients[k]).current_channel matches Some(
                        n,
                    ) ==> channels.is_member(registry.clients[k].id, n)),
            decreases list.len() - i,
        {
            match &list[i].1 {
                Some(name) => {
                    if !self.channels.is_member(list[i].0, name.as_str()) {
                        proof {
                            let id = registry.clients[i as int].id;
                            assert(registry.ids()[i as int] == id);
                            index_of_unique(registry.ids(), i as int);
                            assert(registry.channel(id) == Some(name@));
                            assert(!channels.is_member(id, name@));
                        }
                        return false;
                    }
                },
                None => {},
            }
            i += 1;
        }
        proof {
            assert forall|id: ClientId, name: Seq<char>|
                registry.channel(id) == Some(name) implies #[trigger] channels.is_member(
                id,
                name,
            ) by {
                let k = registry.ids().index_of(id);
                assert(registry.ids()[k] == id);
                assert(registry.clients[k].current_channel == Some(name));
            }
        }
        true
    }

    /// Whether every member of a channel has that channel as its current
    /// channel.
    fn connections_know_their_channel(&self) -> (ok: bool)
        requires
            self.wf(),
        ensures
            ok == (forall|id: ClientId, name: Seq<char>| #[trigger]
                self@.channels.is_member(id, name) ==> self@.registry.channel(id) == Some(name)),
    {
        let list = self.channels.memberships();
        let ghost registry = self@.registry;
        let ghost channels = self@.channels;
        let mut k: usize = 0;
        while k < list.len()
            invariant
                self.wf(),
                registry == self@.registry,
                channels == self@.channels,
                k <= list@.len() == channels.channels.len(),
                forall|c: int|
                    0 <= c < list@.len() ==> (#[trigger] list@[c]).0@ == channels.channels[c].name
                        && list@[c].1@ == channels.channels[c].members,
                forall|c: int, m: int|
                    0 <= c < k && 0 <= m < channels.channels[c].members.len()
                        ==> registry.channel(#[trigger] channels.channels[c].members[m]) == Some(
                        channels.channels[c].name,
                    ),
            decreases list.len() - k,
        {
            let mut m: usize = 0;
            while m < list[k].1.len()
                invariant
                    self.wf(),
                    registry == self@.registry,
                    channels == self@.channels,
                    k < list@.len() == channels.channels.len(),
                    list@[k as int].0@ == channels.channels[k as int].name,
                    list@[k as int].1@ == channels.channels[k as int].members,
                    m <= list@[k as int].1@.len(),
                    forall|n: int|
                        0 <= n < m ==> registry.channel(
                            #[trigger] channels.channels[k as int].members[n],
                        ) == Some(channels.channels[k as int].name),
                decreases list@[k as int].1@.len() - m,
            {
                let current = self.registry.channel(list[k].1[m]);
                let known = match &current {
                    Some(name) => str_eq(name.as_str(), list[k].0.as_str()),
                    None => false,
                };
                if !known {
                    proof {
                        let name = channels.channels[k as int].name;
                        let id = channels.channels[k as int].members[m as int];
                        assert(channels.names()[k as int] == name);
                        index_of_unique(channels.names(), k as int);
                        assert(channels.channel(name) == channels.channels[k as int]);
                        assert(channels.members(name)[m as int] == id);
                        assert(channels.is_member(id, name));
                        assert(registry.channel(id) != Some(name));
                    }
                    return false;
                }
                m += 1;
            }
            k += 1;
        }
        proof {
            assert forall|id: ClientId, name: Seq<char>| #[trigger]
                channels.is_member(id, name) implies registry.channel(id) == Some(name) by {
                let c = channels.names().index_of(name);
                assert(channels.names()[c] == name);
                let m = channels.channels[c].members.index_of(id);
                assert(channels.channels[c].members[m] == id);
            }
        }
        true
    }

    /// Whether the relay's invariant holds. The stores are public fields,
    /// so a caller that has worked on them directly can ask before it hands
    /// the relay a message.
    pub fn is_wf(&self) -> (ok: bool)
        ensures
            ok == self.inv(),
    {
        if !(self.auth.is_wf() && self.channels.is_wf() && self.registry.is_wf()
            && self.ecdh.is_wf() && self.admin.is_wf() && self.bans.is_wf()) {
            return false;
        }
        let forth = self.channels_hold_their_connections();
        let back = self.connections_know_their_channel();
        proof {
            if forth && back {
                assert forall|id: ClientId, name: Seq<char>|
                    #![trigger self@.channels.is_member(id, name)]
                    self@.channels.is_member(id, name) <==> self@.registry.channel(id) == Some(
                        name,
                    ) by {}
            }
        }
        forth && back
    }

    /// An empty relay behind the special key `special_key`.
    pub fn new(special_key: String) -> (state: Self)
        ensures
            state.inv(),
            state@.has_room(),
            state@.channels.time_ordered(),
            state@.special_key == special_key@,
            state@.next_client_id == 1,
            state@.next_server_msg_id == 1,
            state@.registry.clients.len() == 0,
            state@.registry.outbox.len() == 0,
            state@.channels.channels.len() == 0,
            state@.auth.users.len() == 0,
    {
        let state = Self {
            auth: AuthService::new(),
            channels: ChannelManager::new(),
            registry: Registry::new(),
            ecdh: EcdhManager::new(),
            admin: AdminManager::new(),
            bans: BanManager::new(),
            special_key,
            next_client_id: 1,
            next_server_msg_id: 1,
        };
        proof {
            assert(state@.registry.ids() =~= Seq::empty());
            assert(state@.channels.names() =~= Seq::empty());
            assert forall|id: ClientId, name: Seq<char>|
                #![trigger state@.channels.is_member(id, name)]
                state@.channels.is_member(id, name) <==> state@.registry.channel(id) == Some(
                    name,
                ) by {
                assert(!state@.channels.has(name));
                assert(!state@.registry.is_registered(id));
            }
        }
        state
    }

    /// Makes the public channel called `name` unless a channel of that name
    /// exists: how the relay sets up the channels it starts with.
    pub fn seed_channel(&mut self, name: &str)
        requires
            old(self).wf(),
            old(self)@.channels.next_channel_id < u64::MAX,
        ensures
            final(self).wf(),
            final(self)@ == (ServerModel {
                channels: old(self)@.channels.ensure_channel(name@, true, None, None),
                ..old(self)@
            }),
            final(self)@.channels.has(name@),
            old(self).inv() ==> final(self).inv(),
            old(self)@.channels.time_ordered() ==> final(self)@.channels.time_ordered(),
    {
        proof {
            old(self)@.channels.ensure_channel_keeps_wf(name@, true, None, None);
            old(self)@.channels.ensure_channel_adds_no_member(name@, true, None, None);
        }
        self.channels.ensure_channel_hashed(name, true, None, None);
        proof {
            if old(self)@.consistent() {
                assert forall|id: ClientId, n: Seq<char>|
                    #![trigger self@.channels.is_member(id, n)]
                    self@.channels.is_member(id, n) <==> self@.registry.channel(id) == Some(n) by {
                    assert(old(self)@.channels.is_member(id, n) <==> old(self)@.registry.channel(
                        id,
                    ) == Some(n));
                }
            }
        }
    }

    /// Whether another user, channel and message can still be numbered.
    pub fn has_room(&self) -> (r: bool)
        ensures
            r == self@.has_room(),
    {
        self.auth.has_room() && self.channels.has_room()
    }

    /// The id for the next connection; the ids wrap around.
    pub fn next_client_id(&mut self) -> (id: u64)
        ensures
            id == old(self).next_client_id,
            final(self).next_client_id == (if id == u64::MAX {
                0
            } else {
                (id + 1) as u64
            }),
            final(self)@ == (
                ServerModel { next_client_id: final(self).next_client_id, ..old(self)@ }
            ),
    {
        let id: u64 = self.next_client_id;
        self.next_client_id = if id == u64::MAX {
            0
        } else {
            id + 1
        };
        id
    }

    /// The number for the next message the relay sends; the numbers wrap
    /// around.
    pub fn next_server_msg_id(&mut self) -> (id: u64)
        ensures
            id == old(self).next_server_msg_id,
            final(self)@ == old(self)@.bumped(),
    {
        let id: u64 = self.next_server_msg_id;
        self.next_server_msg_id = if id == u64::MAX {
            0
        } else {
            id + 1
        };
        id
    }

    /// The meta for the next message the relay sends at `now`.
    pub fn server_meta(&mut self, now: Timestamp) -> (meta: MessageMeta)
        ensures
            meta == old(self)@.meta(now),
            final(self)@ == old(self)@.bumped(),
    {
        MessageMeta::new(self.next_server_msg_id(), now)
    }

    pub fn send_protocol_error(&mut self, client_id: ClientId, text: &str, now: Timestamp)
        requires
            old(self).wf(),
        ensures
            final(self).wf(),
            final(self)@ == old(self)@.protocol_error(client_id, text@, now),
    {
        let meta = self.server_meta(now);
        self.registry.send(client_id, ServerMessage::ProtocolError { meta, text: owned(text) });
    }

    pub fn send_admin_error(&mut self, client_id: ClientId, reason: &str, now: Timestamp)
        requires
            old(self).wf(),
        ensures
            final(self).wf(),
            final(self)@ == old(self)@.admin_error(client_id, reason@, now),
    {
        let meta = self.server_meta(now);
        self.registry.send(client_id, ServerMessage::AdminError { meta, reason: owned(reason) });
    }

    pub fn send_system_message(&mut self, client_id: ClientId, text: &str, now: Timestamp)
        requires
            old(self).wf(),
        ensures
            final(self).wf(),
            final(self)@ == old(self)@.system_message(client_id, text@, now),
    {
        let meta = self.server_meta(now);
        self.registry.send(client_id, ServerMessage::SystemMessage { meta, text: owned(text) });
    }

    pub fn send_auth_failure(&mut self, client_id: ClientId, reason: String, now: Timestamp)
        requires
            old(self).wf(),
        ensures
            final(self).wf(),
            final(self)@ == old(self)@.auth_failure(client_id, reason@, now),
    {
        let meta = self.server_meta(now);
        self.registry.send(client_id, ServerMessage::AuthFailure { meta, reason });
    }

    pub fn send_join_failure(
        &mut self,
        client_id: ClientId,
        channel: &str,
        reason: String,
        now: Timestamp,
    )
        requires
            old(self).wf(),
        ensures
            final(self).wf(),
            final(self)@ == old(self)@.join_failure(client_id, channel@, reason@, now),
    {
        let meta = self.server_meta(now);
        self.registry.send(
            client_id,
            ServerMessage::JoinFailure { meta, channel: owned(channel), reason },
        );
    }

    /// Sends the list of public channels, sorted by name.
    pub fn send_channel_list(&mut self, client_id: ClientId, now: Timestamp)
        requires
            old(self).wf(),
        ensures
            final(self).wf(),
            final(self)@ == old(self)@.channel_list(client_id, now),
    {
        let channels = self.channels.list_public();
        let meta = self.server_meta(now);
        self.registry.send(client_id, ServerMessage::ChannelList { meta, channels });
    }

    /// Sends `message` to every member of `channel`.
    pub fn broadcast(&mut self, channel: &str, message: ServerMessage)
        requires
            old(self).wf(),
        ensures
            final(self).wf(),
            final(self)@ == (ServerModel {
                registry: old(self)@.registry.send_many(
                    old(self)@.channels.members(channel@),
                    message@,
                ),
                ..old(self)@
            }),
    {
        let members = self.channels.members(channel);
        self.registry.send_many(members.as_slice(), &message);
    }

    /// Tells the members of `channel` that `message` arrived.
    pub fn broadcast_message(&mut self, channel: &str, message: ChatMessage, now: Timestamp)
        requires
            old(self).wf(),
        ensures
            final(self).wf(),
            final(self)@ == old(self)@.broadcast_message(channel@, message@, now),
    {
        let meta = self.server_meta(now);
        self.broadcast(
            channel,
            ServerMessage::MessageReceived { meta, channel: owned(channel), message },
        );
    }

    /// Tells the members of `channel` that `user` joined.
    pub fn broadcast_user_joined(&mut self, channel: &str, user: UserInfo, now: Timestamp)
        requires
            old(self).wf(),
        ensures
            final(self).wf(),
            final(self)@ == old(self)@.broadcast_user_joined(channel@, user@, now),
    {
        let meta = self.server_meta(now);
        self.broadcast(channel, ServerMessage::UserJoined { meta, channel: owned(channel), user });
    }

    /// Tells the members of `channel` that `user` left.
    pub fn broadcast_user_left(&mut self, channel: &str, user: UserInfo, now: Timestamp)
        requires
            old(self).wf(),
        ensures
            final(self).wf(),
            final(self)@ == old(self)@.broadcast_user_left(channel@, user@, now),
    {
        let meta = self.server_meta(now);
        self.broadcast(channel, ServerMessage::UserLeft { meta, channel: owned(channel), user });
    }

    /// Opens the session of the new connection `client_id`: registers it and
    /// challenges it for the special key.
    pub fn open_session(&mut self, client_id: ClientId, now: Timestamp) -> (session: Session)
        requires
            old(self).wf(),
        ensures
            final(self).wf(),
            final(self)@ == old(self)@.open_session(client_id, now),
            session == (Session {
                client_id,
                special_authed: false,
                user_authed: false,
                ecdh_complete: false,
            }),
            old(self)@.consistent() && !old(self)@.registry.is_registered(client_id)
                ==> final(self)@.consistent(),
    {
        proof {
            if old(self)@.consistent() && !old(self)@.registry.is_registered(client_id) {
                old(self)@.open_session_keeps_inv(client_id, now);
            }
        }
        self.registry.register(client_id);
        let meta = self.server_meta(now);
        self.registry.send(
            client_id,
            ServerMessage::AuthChallenge { meta, message: owned("special auth key required") },
        );
        Session { client_id, special_authed: false, user_authed: false, ecdh_complete: false }
    }

    /// Hands over the messages queued so far, oldest first.
    pub fn take_outbox(&mut self) -> (queued: Vec<Outbound>)
        requires
            old(self).wf(),
        ensures
            final(self).wf(),
            queued.deep_view() == old(self)@.registry.outbox,
            queued@.len() == old(self)@.registry.outbox.len(),
            forall|i: int|
                0 <= i < queued@.len() ==> (#[trigger] queued@[i])@ == old(self)@.registry.outbox[i],
            final(self)@ == (ServerModel {
                registry: old(self)@.registry.drained(),
                ..old(self)@
            }),
            old(self).inv() ==> final(self).inv(),
            old(self)@.channels.time_ordered() ==> final(self)@.channels.time_ordered(),
    {
        let queued = self.registry.take_outbox();
        proof {
            old(self)@.routing_decides_consistency(self@);
        }
        queued
    }

    /// Drops the bans that expired by `now`.
    pub fn tick_at(&mut self, now: &Timestamp)
        requires
            old(self).wf(),
        ensures
            final(self).wf(),
            final(self)@ == old(self)@.tick(*now),
            old(self).inv() ==> final(self).inv(),
            old(self)@.channels.time_ordered() ==> final(self)@.channels.time_ordered(),
    {
        proof {
            if old(self).inv() {
                old(self)@.tick_keeps_inv(*now);
            }
        }
        self.bans.cleanup_expired_at(now);
    }
}

} // verus!
