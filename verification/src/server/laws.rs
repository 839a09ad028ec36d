//! What holds of the relay in every state it can reach, and what the
//! commands that move connections between channels guarantee.

use vstd::prelude::*;
use crate::protocol::messages::{
    ClientMessageModel,
    ServerMessageModel,
    UserInfoModel,
};
use crate::server::channel::{ClientId, MAX_CHANNEL_MESSAGES};
use crate::server::model::{Clearance, OutsideModel, ServerModel, Session};
use crate::server::registry::{OutboundModel, RegistryModel};
use crate::time::Timestamp;

verus! {

impl RegistryModel {
    /// What a broadcast of `message` to `ids` puts into the queue: one copy
    /// for each registered id, in order.
    pub open spec fn fanout(self, ids: Seq<ClientId>, message: ServerMessageModel) -> Seq<
        OutboundModel,
    >
        decreases ids.len(),
    {
        if ids.len() == 0 {
            Seq::empty()
        } else {
            let earlier = self.fanout(ids.drop_last(), message);
            if self.is_registered(ids.last()) {
                earlier.push(OutboundModel { to: ids.last(), message })
            } else {
                earlier
            }
        }
    }

    /// A broadcast appends its fan-out to the queue and changes nothing
    /// else.
    pub proof fn send_many_appends_fanout(self, ids: Seq<ClientId>, message: ServerMessageModel)
        ensures
            self.send_many(ids, message).clients == self.clients,
            self.send_many(ids, message).outbox == self.outbox + self.fanout(ids, message),
        decreases ids.len(),
    {
        if ids.len() == 0 {
            assert(self.outbox + self.fanout(ids, message) =~= self.outbox);
        } else {
            self.send_many_appends_fanout(ids.drop_last(), message);
            let before = self.send_many(ids.drop_last(), message);
            assert(before.ids() =~= self.ids());
            assert(self.send_many(ids, message).outbox =~= self.outbox + self.fanout(
                ids,
                message,
            ));
        }
    }

    /// Where every one of `ids` is registered, each gets exactly one copy.
    pub proof fn fanout_reaches_all(self, ids: Seq<ClientId>, message: ServerMessageModel)
        requires
            forall|i: int| 0 <= i < ids.len() ==> self.is_registered(#[trigger] ids[i]),
        ensures
            self.fanout(ids, message) == Seq::new(
                ids.len(),
                |i: int| OutboundModel { to: ids[i], message },
            ),
        decreases ids.len(),
    {
        if ids.len() > 0 {
            let head = ids.drop_last();
            assert forall|i: int| 0 <= i < head.len() implies self.is_registered(
                #[trigger] head[i],
            ) by {
                assert(head[i] == ids[i]);
            }
            self.fanout_reaches_all(head, message);
            assert(self.is_registered(ids[ids.len() - 1]));
            assert(self.fanout(ids, message) =~= Seq::new(
                ids.len(),
                |i: int| OutboundModel { to: ids[i], message },
            ));
        } else {
            assert(self.fanout(ids, message) =~= Seq::new(
                ids.len(),
                |i: int| OutboundModel { to: ids[i], message },
            ));
        }
    }
}

impl ServerModel {
    /// The clock reading `now` is not earlier than the newest message of the
    /// channel that `message` is sent to, where it is a `SendMessage`.
    pub open spec fn clock_fits(self, message: ClientMessageModel, now: Timestamp) -> bool {
        match message {
            ClientMessageModel::SendMessage { channel, .. } => self.channels.clock_fits(
                channel,
                now,
            ),
            _ => true,
        }
    }

    /// Everything that was queued in `earlier` is still queued, in the same
    /// order, in front of whatever was queued since.
    pub open spec fn extends(self, earlier: ServerModel) -> bool {
        &&& earlier.registry.outbox.len() <= self.registry.outbox.len()
        &&& forall|i: int|
            0 <= i < earlier.registry.outbox.len() ==> #[trigger] self.registry.outbox[i]
                == earlier.registry.outbox[i]
    }

    /// No counter of ids stands lower than in `earlier`: an id that was
    /// handed out is never handed out again.
    pub open spec fn numbers_on_from(self, earlier: ServerModel) -> bool {
        &&& self.auth.next_user_id >= earlier.auth.next_user_id
        &&& self.channels.next_channel_id >= earlier.channels.next_channel_id
        &&& self.channels.next_message_id >= earlier.channels.next_message_id
    }

    /// The counter that `message` may use up has not reached its end.
    pub open spec fn room_for(self, message: ClientMessageModel) -> bool {
        match message {
            ClientMessageModel::RegisterUser { .. } => self.auth.next_user_id < u64::MAX,
            ClientMessageModel::JoinChannel { .. } => self.channels.next_channel_id < u64::MAX,
            ClientMessageModel::SendMessage { .. } => self.channels.next_message_id < u64::MAX,
            _ => true,
        }
    }

    /// The invariant of the relay: every store is well formed, and a
    /// connection is in a channel's member set exactly if that channel is
    /// its current channel.
    pub open spec fn inv(self) -> bool {
        self.wf() && self.consistent()
    }

    /// `other` has the channels and the connections of `self`.
    pub open spec fn same_routing(self, other: ServerModel) -> bool {
        &&& other.channels == self.channels
        &&& other.registry.clients == self.registry.clients
    }

    /// `other` differs from `self` in the queue and the message counter at
    /// most.
    pub open spec fn same_stores(self, other: ServerModel) -> bool {
        &&& self.same_routing(other)
        &&& other.auth == self.auth
        &&& other.ecdh == self.ecdh
        &&& other.admin == self.admin
        &&& other.bans == self.bans
        &&& other.special_key == self.special_key
        &&& other.next_client_id == self.next_client_id
    }

    /// Membership and current channels are read off the channels and the
    /// connections alone.
    pub proof fn routing_decides_consistency(self, other: ServerModel)
        requires
            self.same_routing(other),
        ensures
            self.consistent() == other.consistent(),
            self.registry.wf() == other.registry.wf(),
            forall|id: ClientId| #[trigger] other.registry.channel(id) == self.registry.channel(id),
            forall|id: ClientId| #[trigger] other.registry.user(id) == self.registry.user(id),
            forall|id: ClientId|
                #[trigger] other.registry.is_registered(id) == self.registry.is_registered(id),
    {
        assert(other.registry.ids() =~= self.registry.ids());
        assert forall|id: ClientId| #[trigger]
            other.registry.channel(id) == self.registry.channel(id) by {}
        if self.consistent() {
            assert forall|id: ClientId, name: Seq<char>|
                #![trigger other.channels.is_member(id, name)]
                other.channels.is_member(id, name) <==> other.registry.channel(id) == Some(
                    name,
                ) by {
                assert(self.channels.is_member(id, name) <==> self.registry.channel(id) == Some(
                    name,
                ));
            }
        }
        if other.consistent() {
            assert forall|id: ClientId, name: Seq<char>|
                #![trigger self.channels.is_member(id, name)]
                self.channels.is_member(id, name) <==> self.registry.channel(id) == Some(
                    name,
                ) by {
                assert(other.channels.is_member(id, name) <==> other.registry.channel(id)
                    == Some(name));
            }
        }
    }

    /// Queuing one message changes the queue and the message counter only.
    pub proof fn tell_changes_queue_only(self, to: ClientId, message: ServerMessageModel)
        ensures
            self.same_stores(self.tell(to, message)),
            self.inv() ==> self.tell(to, message).inv(),
            self.tell(to, message).registry.outbox == (if self.registry.is_registered(to) {
                self.registry.outbox.push(OutboundModel { to, message })
            } else {
                self.registry.outbox
            }),
    {
        self.routing_decides_consistency(self.tell(to, message));
    }

    /// A broadcast changes the queue and the message counter only.
    pub proof fn broadcast_changes_queue_only(self, ids: Seq<ClientId>, message: ServerMessageModel)
        ensures
            self.same_stores(self.broadcast(ids, message)),
            self.inv() ==> self.broadcast(ids, message).inv(),
            self.broadcast(ids, message).registry.outbox == self.registry.outbox
                + self.registry.fanout(ids, message),
    {
        self.registry.send_many_appends_fanout(ids, message);
        self.routing_decides_consistency(self.broadcast(ids, message));
    }

    /// Leaving its current channel keeps the relay's invariant and leaves
    /// the connection in no channel at all.
    pub proof fn left_current_keeps_inv(
        self,
        client_id: ClientId,
        user: UserInfoModel,
        now: Timestamp,
    )
        requires
            self.inv(),
        ensures
            self.left_current(client_id, user, now).inv(),
            self.left_current(client_id, user, now).numbers_on_from(self),
            self.left_current(client_id, user, now).extends(self),
            self.channels.time_ordered()
                ==> self.left_current(client_id, user, now).channels.time_ordered(),
            self.left_current(client_id, user, now).registry.channel(client_id) is None,
            forall|name: Seq<char>|
                !(#[trigger] self.left_current(client_id, user, now).channels.is_member(
                    client_id,
                    name,
                )),
            self.left_current(client_id, user, now).channels.names() == self.channels.names(),
            self.left_current(client_id, user, now).channels.next_channel_id
                == self.channels.next_channel_id,
            self.left_current(client_id, user, now).channels.next_message_id
                == self.channels.next_message_id,
            self.left_current(client_id, user, now).registry.ids() == self.registry.ids(),
            forall|id: ClientId|
                #[trigger] self.left_current(client_id, user, now).registry.user(id)
                    == self.registry.user(id),
            forall|id: ClientId|
                id != client_id ==> #[trigger] self.left_current(
                    client_id,
                    user,
                    now,
                ).registry.channel(id) == self.registry.channel(id),
            self.left_current(client_id, user, now).auth == self.auth,
            self.left_current(client_id, user, now).admin == self.admin,
            self.left_current(client_id, user, now).bans == self.bans,
            self.left_current(client_id, user, now).ecdh == self.ecdh,
    {
        match self.registry.channel(client_id) {
            Some(previous) => {
                let out = ServerModel {
                    channels: self.channels.leave(client_id, previous),
                    registry: self.registry.set_channel(client_id, None),
                    ..self
                };
                self.channels.leave_keeps_wf(client_id, previous);
                self.registry.set_channel_keeps_wf(client_id, None);
                assert forall|id: ClientId, name: Seq<char>|
                    #![trigger out.channels.is_member(id, name)]
                    out.channels.is_member(id, name) <==> out.registry.channel(id) == Some(
                        name,
                    ) by {
                    assert(self.channels.is_member(id, name) <==> self.registry.channel(id)
                        == Some(name));
                }
                let after = self.left_current(client_id, user, now);
                out.broadcast_changes_queue_only(
                    out.channels.members(previous),
                    ServerMessageModel::UserLeft { meta: out.meta(now), channel: previous, user },
                );
                out.routing_decides_consistency(after);
                assert forall|name: Seq<char>|
                    !(#[trigger] after.channels.is_member(client_id, name)) by {
                    assert(out.channels.is_member(client_id, name) <==> out.registry.channel(
                        client_id,
                    ) == Some(name));
                }
                assert(after.registry.ids() =~= self.registry.ids());
            },
            None => {
                assert forall|name: Seq<char>|
                    !(#[trigger] self.channels.is_member(client_id, name)) by {
                    assert(self.channels.is_member(client_id, name) <==> self.registry.channel(
                        client_id,
                    ) == Some(name));
                }
            },
        }
    }

    /// Making a channel keeps the relay's invariant and touches no
    /// connection.
    pub proof fn made_keeps_inv(
        self,
        name: Seq<char>,
        password: Option<Seq<char>>,
        fresh_hash: Option<Seq<char>>,
        creator: u64,
    )
        requires
            self.inv(),
            self.channels.next_channel_id < u64::MAX,
        ensures
            self.made(name, password, fresh_hash, creator).inv(),
            self.made(name, password, fresh_hash, creator).numbers_on_from(self),
            self.made(name, password, fresh_hash, creator).extends(self),
            self.channels.time_ordered()
                ==> self.made(name, password, fresh_hash, creator).channels.time_ordered(),
            self.made(name, password, fresh_hash, creator).channels.has(name),
            self.made(name, password, fresh_hash, creator).registry == self.registry,
            self.made(name, password, fresh_hash, creator).bans == self.bans,
            self.made(name, password, fresh_hash, creator).auth == self.auth,
            self.made(name, password, fresh_hash, creator).channels.next_message_id
                == self.channels.next_message_id,
            forall|id: ClientId, n: Seq<char>|
                #![trigger self.made(name, password, fresh_hash, creator).channels.is_member(id, n)]
                self.made(name, password, fresh_hash, creator).channels.is_member(id, n)
                    <==> self.channels.is_member(id, n),
    {
        if !self.channels.has(name) {
            let hash = if crate::server::channel::asks_for_hash(password) {
                fresh_hash
            } else {
                None
            };
            self.channels.ensure_channel_keeps_wf(name, true, hash, Some(creator));
            self.channels.ensure_channel_adds_no_member(name, true, hash, Some(creator));
            let entry = self.admin.entry(self.channels.next_channel_id);
            if !self.admin.has(self.channels.next_channel_id) {
                assert(entry.users() =~= Seq::empty());
            }
            entry.with_role_keeps_wf(creator, crate::protocol::permissions::Role::Admin);
            self.admin.with_entry_keeps_wf(
                entry.with_role(creator, crate::protocol::permissions::Role::Admin),
            );
            let after = self.made(name, password, fresh_hash, creator);
            assert forall|id: ClientId, n: Seq<char>|
                #![trigger after.channels.is_member(id, n)]
                after.channels.is_member(id, n) <==> after.registry.channel(id) == Some(n) by {
                assert(self.channels.is_member(id, n) <==> self.registry.channel(id) == Some(n));
            }
        }
    }

    /// Entering a channel keeps the relay's invariant, for a registered
    /// connection that is in no channel.
    pub proof fn enter_keeps_inv(
        self,
        client_id: ClientId,
        user: UserInfoModel,
        name: Seq<char>,
        password: Option<Seq<char>>,
        now: Timestamp,
    )
        requires
            self.inv(),
            self.channels.has(name),
            self.registry.is_registered(client_id),
            self.registry.channel(client_id) is None,
        ensures
            self.enter(client_id, user, name, password, now).inv(),
            self.enter(client_id, user, name, password, now).numbers_on_from(self),
            self.enter(client_id, user, name, password, now).extends(self),
            self.channels.time_ordered()
                ==> self.enter(client_id, user, name, password, now).channels.time_ordered(),
    {
        let channel_id = self.channels.channel(name).id;
        let after = self.enter(client_id, user, name, password, now);
        if self.bans.is_banned(channel_id, user.id, now) {
            self.tell_changes_queue_only(
                client_id,
                ServerMessageModel::JoinFailure {
                    meta: self.meta(now),
                    channel: name,
                    reason: crate::server::model::ban_reason(
                        self.bans.get_ban_info(channel_id, user.id)->0,
                    ),
                },
            );
        } else {
            match self.channels.join_outcome(name, password) {
                Ok(base) => {
                    let inside = ServerModel {
                        channels: self.channels.join(client_id, name, password),
                        registry: self.registry.set_channel(client_id, Some(name)),
                        ..self
                    };
                    self.channels.join_keeps_wf(client_id, name, password);
                    self.registry.set_channel_keeps_wf(client_id, Some(name));
                    assert forall|id: ClientId, n: Seq<char>|
                        #![trigger inside.channels.is_member(id, n)]
                        inside.channels.is_member(id, n) <==> inside.registry.channel(id) == Some(
                            n,
                        ) by {
                        assert(self.channels.is_member(id, n) <==> self.registry.channel(id)
                            == Some(n));
                    }
                    let info = crate::protocol::messages::ChannelInfoModel {
                        id: channel_id,
                        name,
                        is_public: base.is_public,
                        channel_type: self.admin.get_channel_type(channel_id),
                        user_role: Some(self.admin.get_role(channel_id, user.id)),
                    };
                    let success = ServerMessageModel::JoinSuccess {
                        meta: inside.meta(now),
                        channel: info,
                    };
                    inside.tell_changes_queue_only(client_id, success);
                    let greeted = inside.tell(client_id, success);
                    let chunk = ServerMessageModel::HistoryChunk {
                        meta: greeted.meta(now),
                        channel: name,
                        messages: greeted.channels.history(
                            name,
                            crate::server::model::JOIN_HISTORY as nat,
                        ),
                    };
                    greeted.tell_changes_queue_only(client_id, chunk);
                    let shown = greeted.tell(client_id, chunk);
                    shown.broadcast_changes_queue_only(
                        shown.channels.members(name),
                        ServerMessageModel::UserJoined { meta: shown.meta(now), channel: name, user },
                    );
                },
                Err(reason) => {
                    self.tell_changes_queue_only(
                        client_id,
                        ServerMessageModel::JoinFailure {
                            meta: self.meta(now),
                            channel: name,
                            reason,
                        },
                    );
                },
            }
        }
    }

    /// Whether a join is refused does not depend on whether the connection
    /// has left its current channel: leaving touches neither the bans nor
    /// the id and the hash of any channel.
    pub proof fn leaving_keeps_the_verdict(
        self,
        client_id: ClientId,
        user: UserInfoModel,
        name: Seq<char>,
        password: Option<Seq<char>>,
        fresh_hash: Option<Seq<char>>,
        now: Timestamp,
    )
        requires
            self.wf(),
            self.channels.next_channel_id < u64::MAX,
        ensures
            ({
                let left = self.left_current(client_id, user, now);
                let made = left.made(name, password, fresh_hash, user.id);
                let target = self.made(name, password, fresh_hash, user.id).channels.channel(name);
                &&& left.lacks_hash(name, password, fresh_hash) == self.lacks_hash(
                    name,
                    password,
                    fresh_hash,
                )
                &&& made.bans == self.bans
                &&& made.channels.has(name)
                &&& made.channels.channel(name).id == target.id
                &&& made.channels.channel(name).password_hash == target.password_hash
                &&& self.join_is_admitted(client_id, user, name, password, fresh_hash, now)
                    <==> self.join_refusal(user.id, name, password, fresh_hash, now) is None
            }),
    {
        let left = self.left_current(client_id, user, now);
        let hash = if crate::server::channel::asks_for_hash(password) {
            fresh_hash
        } else {
            None
        };
        match self.registry.channel(client_id) {
            Some(previous) => {
                let out = ServerModel {
                    channels: self.channels.leave(client_id, previous),
                    registry: self.registry.set_channel(client_id, None),
                    ..self
                };
                self.channels.leave_keeps_wf(client_id, previous);
                out.broadcast_changes_queue_only(
                    out.channels.members(previous),
                    ServerMessageModel::UserLeft { meta: out.meta(now), channel: previous, user },
                );
                assert(left.channels == out.channels);
                if self.channels.has(name) {
                    assert(out.channels.channel(name).id == self.channels.channel(name).id);
                }
            },
            None => {},
        }
        assert(left.channels.names() == self.channels.names());
        assert(left.channels.has(name) == self.channels.has(name));
        left.channels.ensure_channel_keeps_wf(name, true, hash, Some(user.id));
        self.channels.ensure_channel_keeps_wf(name, true, hash, Some(user.id));
    }

    /// A join that is refused is answered with a `JoinFailure` that gives
    /// the reason, and changes nothing else: the connection stays in the
    /// channel it was in, nobody is told that it left, and no channel is
    /// made.
    pub proof fn refused_join_changes_queue_only(
        self,
        session: Session,
        name: Seq<char>,
        password: Option<Seq<char>>,
        fresh_hash: Option<Seq<char>>,
        now: Timestamp,
    )
        requires
            session.user_authed,
            self.registry.user(session.client_id) is Some,
            self.join_refusal(
                self.registry.user(session.client_id)->0.id,
                name,
                password,
                fresh_hash,
                now,
            ) is Some,
        ensures
            ({
                let after = self.after_join(session, name, password, fresh_hash, now);
                let reason = self.join_refusal(
                    self.registry.user(session.client_id)->0.id,
                    name,
                    password,
                    fresh_hash,
                    now,
                )->0;
                &&& self.same_stores(after)
                &&& self.inv() ==> after.inv()
                &&& forall|id: ClientId| #[trigger]
                    after.registry.channel(id) == self.registry.channel(id)
                &&& after.registry.outbox == self.registry.outbox.push(
                    OutboundModel {
                        to: session.client_id,
                        message: ServerMessageModel::JoinFailure {
                            meta: self.meta(now),
                            channel: name,
                            reason,
                        },
                    },
                )
            }),
    {
        let reason = self.join_refusal(
            self.registry.user(session.client_id)->0.id,
            name,
            password,
            fresh_hash,
            now,
        )->0;
        let failure = ServerMessageModel::JoinFailure { meta: self.meta(now), channel: name, reason };
        self.tell_changes_queue_only(session.client_id, failure);
        self.routing_decides_consistency(self.tell(session.client_id, failure));
    }

    /// `JoinChannel` keeps the relay's invariant.
    pub proof fn after_join_keeps_inv(
        self,
        session: Session,
        name: Seq<char>,
        password: Option<Seq<char>>,
        fresh_hash: Option<Seq<char>>,
        now: Timestamp,
    )
        requires
            self.inv(),
            self.channels.next_channel_id < u64::MAX,
        ensures
            self.after_join(session, name, password, fresh_hash, now).inv(),
            self.after_join(session, name, password, fresh_hash, now).numbers_on_from(self),
            self.after_join(session, name, password, fresh_hash, now).extends(self),
            self.channels.time_ordered()
                ==> self.after_join(
                    session,
                    name,
                    password,
                    fresh_hash,
                    now,
                ).channels.time_ordered(),
    {
        let client_id = session.client_id;
        if !session.user_authed {
            self.tell_changes_queue_only(
                client_id,
                ServerMessageModel::ProtocolError {
                    meta: self.meta(now),
                    text: "login/register required"@,
                },
            );
        } else {
            match self.registry.user(client_id) {
                None => {
                    self.tell_changes_queue_only(
                        client_id,
                        ServerMessageModel::ProtocolError {
                            meta: self.meta(now),
                            text: "user missing"@,
                        },
                    );
                },
                Some(user) => match self.join_refusal(user.id, name, password, fresh_hash, now) {
                    Some(reason) => {
                        self.tell_changes_queue_only(
                            client_id,
                            ServerMessageModel::JoinFailure {
                                meta: self.meta(now),
                                channel: name,
                                reason,
                            },
                        );
                    },
                    None => {
                        self.left_current_keeps_inv(client_id, user, now);
                        let left = self.left_current(client_id, user, now);
                        left.made_keeps_inv(name, password, fresh_hash, user.id);
                        let made = left.made(name, password, fresh_hash, user.id);
                        assert(self.registry.is_registered(client_id));
                        assert(left.registry.ids() == self.registry.ids());
                        assert(left.registry.is_registered(client_id));
                        made.enter_keeps_inv(client_id, user, name, password, now);
                    },
                },
            }
        }
    }

    /// A change that touches neither channels nor connections keeps the
    /// invariant if it keeps the other stores well formed.
    pub proof fn quiet_change_keeps_inv(self, other: ServerModel)
        requires
            self.inv(),
            self.same_routing(other),
            other.auth.wf(),
            other.ecdh.wf(),
            other.admin.wf(),
            other.bans.wf(),
        ensures
            other.inv(),
    {
        self.routing_decides_consistency(other);
    }

    /// A refusal changes the queue only; a clearance changes nothing and
    /// vouches for what was checked.
    pub proof fn clearance_is_sound(
        self,
        session: Session,
        channel: Seq<char>,
        permission: Option<crate::protocol::permissions::Permission>,
        now: Timestamp,
    )
        ensures
            match self.clearance(session, channel, permission, now) {
                Clearance::Refused(refused) => {
                    &&& self.same_stores(refused)
                    &&& self.inv() ==> refused.inv()
                    &&& exists|message: ServerMessageModel|
                        refused == #[trigger] self.tell(session.client_id, message) && (message
                            is ProtocolError || message is AdminError)
                },
                Clearance::Granted { user, channel_id } => {
                    &&& session.user_authed
                    &&& self.registry.user(session.client_id) == Some(user)
                    &&& self.channels.has(channel)
                    &&& self.channels.channel(channel).id == channel_id
                    &&& permission matches Some(p) ==> self.admin.get_role(
                        channel_id,
                        user.id,
                    ).grants(p)
                },
            },
    {
        match self.clearance(session, channel, permission, now) {
            Clearance::Refused(refused) => {
                let message = if !session.user_authed {
                    ServerMessageModel::ProtocolError {
                        meta: self.meta(now),
                        text: "login/register required"@,
                    }
                } else if self.registry.user(session.client_id) is None {
                    ServerMessageModel::ProtocolError { meta: self.meta(now), text: "user missing"@ }
                } else if self.channels.get_channel_id(channel) is None {
                    ServerMessageModel::AdminError {
                        meta: self.meta(now),
                        reason: "Channel not found"@,
                    }
                } else {
                    ServerMessageModel::AdminError {
                        meta: self.meta(now),
                        reason: "You lack permission: "@ + permission->0.spec_name(),
                    }
                };
                self.tell_changes_queue_only(session.client_id, message);
                assert(refused == self.tell(session.client_id, message));
            },
            Clearance::Granted { user, channel_id } => {},
        }
    }

    /// A log entry touches the moderation log only.
    pub proof fn logged_keeps_inv(
        self,
        channel_id: u64,
        user: UserInfoModel,
        action: Seq<char>,
        target: Seq<char>,
        details: Seq<char>,
        now: Timestamp,
    )
        requires
            self.inv(),
        ensures
            self.logged(channel_id, user, action, target, details, now).inv(),
            self.logged(channel_id, user, action, target, details, now).numbers_on_from(self),
            self.logged(channel_id, user, action, target, details, now).extends(self),
            self.channels.time_ordered()
                ==> self.logged(
                    channel_id,
                    user,
                    action,
                    target,
                    details,
                    now,
                ).channels.time_ordered(),
            self.same_routing(self.logged(channel_id, user, action, target, details, now)),
            self.logged(channel_id, user, action, target, details, now).registry == self.registry,
            self.logged(channel_id, user, action, target, details, now).bans == self.bans,
            self.logged(channel_id, user, action, target, details, now).auth == self.auth,
    {
        self.admin.log_action_keeps_wf(
            channel_id,
            crate::server::admin::AdminManager::entry_model(
                now,
                user.id,
                user.username,
                action,
                target,
                details,
            ),
        );
        self.quiet_change_keeps_inv(self.logged(channel_id, user, action, target, details, now));
    }

    /// Putting a connection out of a channel keeps the invariant: it ends
    /// that one membership together with that one current channel.
    pub proof fn evict_one_keeps_inv(
        self,
        target: ClientId,
        channel: Seq<char>,
        text: Seq<char>,
        now: Timestamp,
    )
        requires
            self.inv(),
        ensures
            self.evict_one(target, channel, text, now).inv(),
            self.evict_one(target, channel, text, now).numbers_on_from(self),
            self.evict_one(target, channel, text, now).extends(self),
            self.channels.time_ordered()
                ==> self.evict_one(target, channel, text, now).channels.time_ordered(),
            !self.evict_one(target, channel, text, now).channels.is_member(target, channel),
            self.evict_one(target, channel, text, now).registry.ids() == self.registry.ids(),
            self.evict_one(target, channel, text, now).bans == self.bans,
            self.evict_one(target, channel, text, now).auth == self.auth,
            self.evict_one(target, channel, text, now).admin == self.admin,
            self.evict_one(target, channel, text, now).channels.names() == self.channels.names(),
            forall|id: ClientId, n: Seq<char>|
                #![trigger self.evict_one(target, channel, text, now).channels.is_member(id, n)]
                self.evict_one(target, channel, text, now).channels.is_member(id, n)
                    <==> self.channels.is_member(id, n) && !(id == target && n == channel),
            forall|id: ClientId|
                #[trigger] self.evict_one(target, channel, text, now).registry.user(id)
                    == self.registry.user(id),
            self.registry.channel(target) == Some(channel) ==> self.evict_one(
                target,
                channel,
                text,
                now,
            ).registry.outbox == self.registry.outbox.push(
                OutboundModel {
                    to: target,
                    message: ServerMessageModel::SystemMessage { meta: self.meta(now), text },
                },
            ),
            self.registry.channel(target) != Some(channel) ==> self.evict_one(
                target,
                channel,
                text,
                now,
            ) == self,
    {
        assert(self.channels.is_member(target, channel) <==> self.registry.channel(target)
            == Some(channel));
        if self.registry.channel(target) == Some(channel) {
            let out = ServerModel {
                channels: self.channels.leave(target, channel),
                registry: self.registry.set_channel(target, None),
                ..self
            };
            self.channels.leave_keeps_wf(target, channel);
            self.registry.set_channel_keeps_wf(target, None);
            assert forall|id: ClientId, n: Seq<char>|
                #![trigger out.channels.is_member(id, n)]
                out.channels.is_member(id, n) <==> out.registry.channel(id) == Some(n) by {
                assert(self.channels.is_member(id, n) <==> self.registry.channel(id) == Some(n));
            }
            let notice = ServerMessageModel::SystemMessage { meta: out.meta(now), text };
            out.tell_changes_queue_only(target, notice);
            let after = out.tell(target, notice);
            out.routing_decides_consistency(after);
            assert(after.registry.ids() =~= self.registry.ids());
        }
    }

    /// Putting several connections out of a channel keeps the invariant and
    /// leaves none of them in the channel.
    pub proof fn evicted_keeps_inv(
        self,
        targets: Seq<ClientId>,
        channel: Seq<char>,
        text: Seq<char>,
        now: Timestamp,
    )
        requires
            self.inv(),
        ensures
            self.evicted(targets, channel, text, now).inv(),
            self.evicted(targets, channel, text, now).numbers_on_from(self),
            self.evicted(targets, channel, text, now).extends(self),
            self.channels.time_ordered()
                ==> self.evicted(targets, channel, text, now).channels.time_ordered(),
            self.evicted(targets, channel, text, now).registry.ids() == self.registry.ids(),
            self.evicted(targets, channel, text, now).bans == self.bans,
            self.evicted(targets, channel, text, now).auth == self.auth,
            self.evicted(targets, channel, text, now).admin == self.admin,
            self.evicted(targets, channel, text, now).channels.names() == self.channels.names(),
            forall|id: ClientId, n: Seq<char>|
                #![trigger self.evicted(targets, channel, text, now).channels.is_member(id, n)]
                self.evicted(targets, channel, text, now).channels.is_member(id, n)
                    <==> self.channels.is_member(id, n) && !(targets.contains(id) && n == channel),
            forall|id: ClientId|
                #[trigger] self.evicted(targets, channel, text, now).registry.user(id)
                    == self.registry.user(id),
        decreases targets.len(),
    {
        if targets.len() > 0 {
            let head = targets.drop_last();
            self.evicted_keeps_inv(head, channel, text, now);
            let mid = self.evicted(head, channel, text, now);
            mid.evict_one_keeps_inv(targets.last(), channel, text, now);
            let after = self.evicted(targets, channel, text, now);
            assert forall|id: ClientId, n: Seq<char>|
                #![trigger after.channels.is_member(id, n)]
                after.channels.is_member(id, n) <==> self.channels.is_member(id, n) && !(
                targets.contains(id) && n == channel) by {
                assert(mid.channels.is_member(id, n) <==> self.channels.is_member(id, n) && !(
                head.contains(id) && n == channel));
                if head.contains(id) {
                    let k = head.index_of(id);
                    assert(targets[k] == id);
                }
                if targets.contains(id) && id != targets.last() {
                    let k = targets.index_of(id);
                    assert(head[k] == id);
                }
                assert(targets[targets.len() - 1] == targets.last());
            }
        }
    }

    /// Releasing the members of a channel clears the current channel of
    /// exactly those connections that are in it, and touches nothing else.
    pub proof fn released_clears_members(self, members: Seq<ClientId>, channel: Seq<char>)
        requires
            self.registry.wf(),
        ensures
            self.released(members, channel).registry.wf(),
            self.released(members, channel).registry.ids() == self.registry.ids(),
            self.released(members, channel).registry.outbox == self.registry.outbox,
            self.released(members, channel).channels == self.channels,
            self.released(members, channel).auth == self.auth,
            self.released(members, channel).admin == self.admin,
            self.released(members, channel).bans == self.bans,
            self.released(members, channel).ecdh == self.ecdh,
            forall|id: ClientId|
                #[trigger] self.released(members, channel).registry.channel(id) == (
                if members.contains(id) && self.registry.channel(id) == Some(channel) {
                    None
                } else {
                    self.registry.channel(id)
                }),
            forall|id: ClientId|
                #[trigger] self.released(members, channel).registry.user(id) == self.registry.user(
                    id,
                ),
        decreases members.len(),
    {
        if members.len() > 0 {
            let head = members.drop_last();
            let last = members.last();
            self.released_clears_members(head, channel);
            let earlier = self.released(head, channel);
            earlier.registry.set_channel_keeps_wf(last, None);
            let after = self.released(members, channel);
            assert(after.registry.ids() =~= self.registry.ids());
            assert forall|id: ClientId| #[trigger]
                after.registry.channel(id) == (if members.contains(id) && self.registry.channel(id)
                    == Some(channel) {
                    None
                } else {
                    self.registry.channel(id)
                }) by {
                assert(members[members.len() - 1] == last);
                if head.contains(id) {
                    let k = head.index_of(id);
                    assert(members[k] == id);
                }
                if members.contains(id) && id != last {
                    let k = members.index_of(id);
                    assert(head[k] == id);
                }
            }
        }
    }

    /// `DeleteChannel` keeps the invariant.
    pub proof fn after_delete_channel_keeps_inv(
        self,
        session: Session,
        channel: Seq<char>,
        now: Timestamp,
    )
        requires
            self.inv(),
        ensures
            self.after_delete_channel(session, channel, now).inv(),
            self.after_delete_channel(session, channel, now).numbers_on_from(self),
            self.after_delete_channel(session, channel, now).extends(self),
            self.channels.time_ordered()
                ==> self.after_delete_channel(session, channel, now).channels.time_ordered(),
    {
        self.clearance_is_sound(session, channel, None, now);
        match self.clearance(session, channel, None, now) {
            Clearance::Refused(refused) => {},
            Clearance::Granted { user, channel_id } => {
                if self.admin.get_role(channel_id, user.id)
                    != crate::protocol::permissions::Role::SuperAdmin {
                    self.tell_changes_queue_only(
                        session.client_id,
                        ServerMessageModel::AdminError {
                            meta: self.meta(now),
                            reason: "Only SuperAdmin can delete channels"@,
                        },
                    );
                } else {
                    let members = self.channels.members(channel);
                    let notice = ServerMessageModel::ChannelDeleted {
                        meta: self.meta(now),
                        channel,
                        deleted_by: user.username,
                    };
                    self.broadcast_changes_queue_only(members, notice);
                    let sent = self.broadcast(members, notice);
                    sent.released_clears_members(members, channel);
                    let told = sent.released(members, channel);
                    told.channels.delete_channel_keeps_wf(channel);
                    told.channels.delete_channel_ends_memberships(channel);
                    told.admin.remove_channel_keeps_wf(channel_id);
                    let after = self.after_delete_channel(session, channel, now);
                    self.routing_decides_consistency(sent);
                    assert forall|id: ClientId, n: Seq<char>|
                        #![trigger after.channels.is_member(id, n)]
                        after.channels.is_member(id, n) <==> after.registry.channel(id) == Some(
                            n,
                        ) by {
                        assert(self.channels.is_member(id, n) <==> self.registry.channel(id)
                            == Some(n));
                        assert(self.channels.is_member(id, channel) <==> self.registry.channel(id)
                            == Some(channel));
                        assert(sent.registry.channel(id) == self.registry.channel(id));
                    }
                }
            },
        }
    }

    /// The cleanup after a disconnect keeps the invariant.
    pub proof fn cleanup_disconnect_keeps_inv(self, client_id: ClientId, now: Timestamp)
        requires
            self.inv(),
        ensures
            self.cleanup_disconnect(client_id, now).inv(),
            self.cleanup_disconnect(client_id, now).numbers_on_from(self),
            self.cleanup_disconnect(client_id, now).extends(self),
            self.channels.time_ordered()
                ==> self.cleanup_disconnect(client_id, now).channels.time_ordered(),
            !self.cleanup_disconnect(client_id, now).registry.is_registered(client_id),
            forall|name: Seq<char>|
                !(#[trigger] self.cleanup_disconnect(client_id, now).channels.is_member(
                    client_id,
                    name,
                )),
    {
        let after = self.cleanup_disconnect(client_id, now);
        assert forall|n: Seq<char>|
            self.channels.is_member(client_id, n) <==> self.registry.channel(client_id) == Some(
                n,
            ) by {}
        match self.registry.channel(client_id) {
            Some(channel) => {
                let out = ServerModel { channels: self.channels.leave(client_id, channel), ..self };
                self.channels.leave_keeps_wf(client_id, channel);
                let left = match self.registry.user(client_id) {
                    Some(user) => out.broadcast_user_left(channel, user, now),
                    None => out,
                };
                if self.registry.user(client_id) is Some {
                    let user = self.registry.user(client_id)->0;
                    out.broadcast_changes_queue_only(
                        out.channels.members(channel),
                        ServerMessageModel::UserLeft { meta: out.meta(now), channel, user },
                    );
                }
                out.routing_decides_consistency(left);
                left.ecdh.remove_keeps_wf(client_id);
                left.registry.remove_keeps_wf(client_id);
                assert forall|id: ClientId, n: Seq<char>|
                    #![trigger after.channels.is_member(id, n)]
                    after.channels.is_member(id, n) <==> after.registry.channel(id) == Some(
                        n,
                    ) by {
                    assert(self.channels.is_member(id, n) <==> self.registry.channel(id) == Some(
                        n,
                    ));
                    assert(left.registry.channel(id) == self.registry.channel(id));
                }
            },
            None => {
                self.ecdh.remove_keeps_wf(client_id);
                self.registry.remove_keeps_wf(client_id);
                assert forall|id: ClientId, n: Seq<char>|
                    #![trigger after.channels.is_member(id, n)]
                    after.channels.is_member(id, n) <==> after.registry.channel(id) == Some(
                        n,
                    ) by {
                    assert(self.channels.is_member(id, n) <==> self.registry.channel(id) == Some(
                        n,
                    ));
                }
            },
        }
    }

    /// Opening a session for a connection id that is not in use keeps the
    /// invariant.
    pub proof fn open_session_keeps_inv(self, client_id: ClientId, now: Timestamp)
        requires
            self.inv(),
            !self.registry.is_registered(client_id),
        ensures
            self.open_session(client_id, now).inv(),
            self.open_session(client_id, now).numbers_on_from(self),
            self.open_session(client_id, now).extends(self),
            self.channels.time_ordered()
                ==> self.open_session(client_id, now).channels.time_ordered(),
    {
        let opened = ServerModel { registry: self.registry.register(client_id), ..self };
        self.registry.register_keeps_wf(client_id);
        assert forall|id: ClientId, n: Seq<char>|
            #![trigger opened.channels.is_member(id, n)]
            opened.channels.is_member(id, n) <==> opened.registry.channel(id) == Some(n) by {
            assert(self.channels.is_member(id, n) <==> self.registry.channel(id) == Some(n));
        }
        opened.tell_changes_queue_only(
            client_id,
            ServerMessageModel::AuthChallenge {
                meta: self.meta(now),
                message: "special auth key required"@,
            },
        );
    }

    /// The purge of expired bans keeps the invariant.
    pub proof fn tick_keeps_inv(self, now: Timestamp)
        requires
            self.inv(),
        ensures
            self.tick(now).inv(),
            self.tick(now).numbers_on_from(self),
            self.tick(now).extends(self),
            self.channels.time_ordered() ==> self.tick(now).channels.time_ordered(),
    {
        self.bans.cleanup_keeps_active_bans(now, 0, 0);
        self.quiet_change_keeps_inv(self.tick(now));
    }

    /// Binding a user to a connection keeps the invariant.
    pub proof fn welcomed_keeps_inv(
        self,
        client_id: ClientId,
        user: UserInfoModel,
        generated_password: Option<Seq<char>>,
        now: Timestamp,
    )
        requires
            self.inv(),
        ensures
            self.welcomed(client_id, user, generated_password, now).inv(),
            self.welcomed(client_id, user, generated_password, now).numbers_on_from(self),
            self.welcomed(client_id, user, generated_password, now).extends(self),
            self.channels.time_ordered()
                ==> self.welcomed(client_id, user, generated_password, now).channels.time_ordered(),
    {
        let bound = ServerModel { registry: self.registry.set_user(client_id, user), ..self };
        self.registry.set_user_keeps_wf(client_id, user);
        assert forall|id: ClientId, n: Seq<char>|
            #![trigger bound.channels.is_member(id, n)]
            bound.channels.is_member(id, n) <==> bound.registry.channel(id) == Some(n) by {
            assert(self.channels.is_member(id, n) <==> self.registry.channel(id) == Some(n));
        }
        let success = ServerMessageModel::AuthSuccess {
            meta: bound.meta(now),
            user,
            generated_password,
        };
        bound.tell_changes_queue_only(client_id, success);
        let told = bound.tell(client_id, success);
        told.tell_changes_queue_only(
            client_id,
            ServerMessageModel::ChannelList {
                meta: told.meta(now),
                channels: told.channels.list_public(),
            },
        );
    }

    /// Every step of a session keeps the relay's invariant: whatever a
    /// client sends, a connection is in a channel's member set exactly if
    /// that channel is its current channel. No counter of ids goes back;
    /// what was queued stays queued in its order; and where the clock
    /// reading is not earlier than the newest message of the channel that a
    /// `SendMessage` names, the stamps of every channel stay in order.
    pub proof fn step_keeps_inv(
        self,
        session: Session,
        message: ClientMessageModel,
        now: Timestamp,
        outside: OutsideModel,
    )
        requires
            self.inv(),
            self.room_for(message),
            outside.wf(),
        ensures
            self.step(session, message, now, outside).inv(),
            self.step(session, message, now, outside).numbers_on_from(self),
            self.step(session, message, now, outside).extends(self),
            self.channels.time_ordered() && self.clock_fits(message, now) ==> self.step(
                session,
                message,
                now,
                outside,
            ).channels.time_ordered(),
    {
        let client_id = session.client_id;
        let after = self.step(session, message, now, outside);
        match message {
            ClientMessageModel::Connect { .. } => {
                self.tell_changes_queue_only(
                    client_id,
                    ServerMessageModel::ProtocolError {
                        meta: self.meta(now),
                        text: "special auth required"@,
                    },
                );
            },
            ClientMessageModel::Auth { key, .. } => {
                self.tell_changes_queue_only(
                    client_id,
                    ServerMessageModel::SystemMessage {
                        meta: self.meta(now),
                        text: "special key accepted; send ECDH public key"@,
                    },
                );
                self.tell_changes_queue_only(
                    client_id,
                    ServerMessageModel::AuthFailure {
                        meta: self.meta(now),
                        reason: "invalid special key"@,
                    },
                );
            },
            ClientMessageModel::EcdhPublicKey { public_key, .. } => {
                self.tell_changes_queue_only(
                    client_id,
                    ServerMessageModel::ProtocolError {
                        meta: self.meta(now),
                        text: "special auth required"@,
                    },
                );
                self.tell_changes_queue_only(
                    client_id,
                    ServerMessageModel::ProtocolError {
                        meta: self.meta(now),
                        text: "invalid public key length"@,
                    },
                );
                if let Some((server_public, shared)) = outside.exchange {
                    self.ecdh.store_keeps_wf(client_id, shared);
                    let kept = ServerModel { ecdh: self.ecdh.store(client_id, shared), ..self };
                    self.quiet_change_keeps_inv(kept);
                    let ack = ServerMessageModel::EcdhAck {
                        meta: kept.meta(now),
                        public_key: server_public,
                    };
                    kept.tell_changes_queue_only(client_id, ack);
                    kept.tell(client_id, ack).tell_changes_queue_only(
                        client_id,
                        ServerMessageModel::SystemMessage {
                            meta: kept.tell(client_id, ack).meta(now),
                            text: "encryption enabled; please login or register"@,
                        },
                    );
                }
            },
            ClientMessageModel::RegisterUser { username, .. } => {
                self.tell_changes_queue_only(
                    client_id,
                    ServerMessageModel::ProtocolError {
                        meta: self.meta(now),
                        text: "special auth required"@,
                    },
                );
                match self.auth.register_outcome(username, now) {
                    Ok((user, password)) => {
                        self.auth.register_keeps_wf(username, now);
                        let registered = ServerModel {
                            auth: self.auth.register(username, now),
                            ..self
                        };
                        self.quiet_change_keeps_inv(registered);
                        registered.welcomed_keeps_inv(client_id, user, Some(password), now);
                    },
                    Err(reason) => {
                        self.tell_changes_queue_only(
                            client_id,
                            ServerMessageModel::AuthFailure { meta: self.meta(now), reason },
                        );
                    },
                }
            },
            ClientMessageModel::Login { username, password, .. } => {
                self.tell_changes_queue_only(
                    client_id,
                    ServerMessageModel::ProtocolError {
                        meta: self.meta(now),
                        text: "special auth required"@,
                    },
                );
                match self.auth.login(username, password) {
                    Ok(user) => {
                        self.welcomed_keeps_inv(client_id, user, None, now);
                    },
                    Err(reason) => {
                        self.tell_changes_queue_only(
                            client_id,
                            ServerMessageModel::AuthFailure { meta: self.meta(now), reason },
                        );
                    },
                }
            },
            ClientMessageModel::JoinChannel { name, password, .. } => {
                self.after_join_keeps_inv(session, name, password, outside.channel_hash, now);
            },
            ClientMessageModel::SendMessage { channel, content, metadata, .. } => {
                self.after_send_message_keeps_inv(session, channel, content, metadata, now);
            },
            ClientMessageModel::ListChannels { .. } => {
                self.tell_changes_queue_only(
                    client_id,
                    ServerMessageModel::ProtocolError {
                        meta: self.meta(now),
                        text: "login/register required"@,
                    },
                );
                self.tell_changes_queue_only(
                    client_id,
                    ServerMessageModel::ChannelList {
                        meta: self.meta(now),
                        channels: self.channels.list_public(),
                    },
                );
            },
            ClientMessageModel::GetHistory { channel, limit, .. } => {
                self.tell_changes_queue_only(
                    client_id,
                    ServerMessageModel::ProtocolError {
                        meta: self.meta(now),
                        text: "login/register required"@,
                    },
                );
                self.tell_changes_queue_only(
                    client_id,
                    ServerMessageModel::HistoryChunk {
                        meta: self.meta(now),
                        channel,
                        messages: self.channels.history(channel, limit as nat),
                    },
                );
            },
            ClientMessageModel::DeleteMessage { channel, message_id, .. } => {
                self.after_delete_message_keeps_inv(session, channel, message_id, now);
            },
            ClientMessageModel::PromoteUser { channel, username, role, .. } => {
                self.after_set_role_keeps_inv(session, channel, username, Some(role), now);
            },
            ClientMessageModel::DemoteUser { channel, username, .. } => {
                self.after_set_role_keeps_inv(session, channel, username, None, now);
            },
            ClientMessageModel::BanUser { channel, username, duration_seconds, reason, .. } => {
                self.after_ban_user_keeps_inv(
                    session,
                    channel,
                    username,
                    duration_seconds,
                    reason,
                    now,
                );
            },
            ClientMessageModel::UnbanUser { channel, username, .. } => {
                self.after_unban_user_keeps_inv(session, channel, username, now);
            },
            ClientMessageModel::KickUser { channel, username, reason, .. } => {
                self.after_kick_user_keeps_inv(session, channel, username, reason, now);
            },
            ClientMessageModel::ListAdmins { channel, .. } => {
                self.clearance_is_sound(session, channel, None, now);
                if let Clearance::Granted { user, channel_id } = self.clearance(
                    session,
                    channel,
                    None,
                    now,
                ) {
                    self.tell_changes_queue_only(
                        client_id,
                        ServerMessageModel::AdminList {
                            meta: self.meta(now),
                            channel,
                            admins: self.admin.list_admins(channel_id, self.auth.directory()),
                        },
                    );
                }
            },
            ClientMessageModel::ListBans { channel, .. } => {
                let needed = Some(crate::protocol::permissions::Permission::ViewLogs);
                self.clearance_is_sound(session, channel, needed, now);
                if let Clearance::Granted { user, channel_id } = self.clearance(
                    session,
                    channel,
                    needed,
                    now,
                ) {
                    self.tell_changes_queue_only(
                        client_id,
                        ServerMessageModel::BanList {
                            meta: self.meta(now),
                            channel,
                            bans: self.bans.list_bans(channel_id, now),
                        },
                    );
                }
            },
            ClientMessageModel::ViewLogs { channel, limit, .. } => {
                let needed = Some(crate::protocol::permissions::Permission::ViewLogs);
                self.clearance_is_sound(session, channel, needed, now);
                if let Clearance::Granted { user, channel_id } = self.clearance(
                    session,
                    channel,
                    needed,
                    now,
                ) {
                    self.tell_changes_queue_only(
                        client_id,
                        ServerMessageModel::LogList {
                            meta: self.meta(now),
                            channel,
                            logs: self.admin.get_logs(channel_id, limit as nat),
                        },
                    );
                }
            },
            ClientMessageModel::ChangeChannelType { channel, channel_type, .. } => {
                self.after_change_channel_type_keeps_inv(session, channel, channel_type, now);
            },
            ClientMessageModel::DeleteChannel { channel, .. } => {
                self.after_delete_channel_keeps_inv(session, channel, now);
            },
            ClientMessageModel::Disconnect { .. } => {},
        }
    }

    /// `SendMessage` keeps the invariant.
    pub proof fn after_send_message_keeps_inv(
        self,
        session: Session,
        channel: Seq<char>,
        content: Seq<u8>,
        metadata: Seq<(Seq<char>, Seq<char>)>,
        now: Timestamp,
    )
        requires
            self.inv(),
            self.channels.next_message_id < u64::MAX,
        ensures
            self.after_send_message(session, channel, content, metadata, now).inv(),
            self.after_send_message(session, channel, content, metadata, now).numbers_on_from(self),
            self.after_send_message(session, channel, content, metadata, now).extends(self),
            self.channels.time_ordered() && self.channels.clock_fits(channel, now)
                ==> self.after_send_message(
                session,
                channel,
                content,
                metadata,
                now,
            ).channels.time_ordered(),
    {
        let client_id = session.client_id;
        self.tell_changes_queue_only(
            client_id,
            ServerMessageModel::ProtocolError {
                meta: self.meta(now),
                text: "login/register required"@,
            },
        );
        self.tell_changes_queue_only(
            client_id,
            ServerMessageModel::ProtocolError { meta: self.meta(now), text: "user missing"@ },
        );
        self.tell_changes_queue_only(
            client_id,
            ServerMessageModel::ProtocolError {
                meta: self.meta(now),
                text: "not joined to channel"@,
            },
        );
        self.tell_changes_queue_only(
            client_id,
            ServerMessageModel::AdminError {
                meta: self.meta(now),
                reason: "You lack permission to send messages in this channel"@,
            },
        );
        if let Some(user) = self.registry.user(client_id) {
            let message = Self::draft(user, content, metadata, now);
            match self.channels.add_message_outcome(channel, message, now) {
                Ok(stored) => {
                    self.channels.add_message_keeps_wf(channel, message, now);
                    self.channels.add_message_keeps_members(channel, message, now);
                    let added = ServerModel {
                        channels: self.channels.add_message(channel, message, now),
                        ..self
                    };
                    assert forall|id: ClientId, n: Seq<char>|
                        #![trigger added.channels.is_member(id, n)]
                        added.channels.is_member(id, n) <==> added.registry.channel(id) == Some(
                            n,
                        ) by {
                        assert(self.channels.is_member(id, n) <==> self.registry.channel(id)
                            == Some(n));
                    }
                    added.broadcast_changes_queue_only(
                        added.channels.members(channel),
                        ServerMessageModel::MessageReceived {
                            meta: added.meta(now),
                            channel,
                            message: stored,
                        },
                    );
                },
                Err(reason) => {
                    self.tell_changes_queue_only(
                        client_id,
                        ServerMessageModel::ProtocolError { meta: self.meta(now), text: reason },
                    );
                },
            }
        }
    }

    /// `DeleteMessage` keeps the invariant.
    pub proof fn after_delete_message_keeps_inv(
        self,
        session: Session,
        channel: Seq<char>,
        message_id: u64,
        now: Timestamp,
    )
        requires
            self.inv(),
        ensures
            self.after_delete_message(session, channel, message_id, now).inv(),
            self.after_delete_message(session, channel, message_id, now).numbers_on_from(self),
            self.after_delete_message(session, channel, message_id, now).extends(self),
            self.channels.time_ordered()
                ==> self.after_delete_message(
                    session,
                    channel,
                    message_id,
                    now,
                ).channels.time_ordered(),
    {
        let needed = Some(crate::protocol::permissions::Permission::DeleteMessage);
        self.clearance_is_sound(session, channel, needed, now);
        if let Clearance::Granted { user, channel_id } = self.clearance(
            session,
            channel,
            needed,
            now,
        ) {
            self.tell_changes_queue_only(
                session.client_id,
                ServerMessageModel::AdminError {
                    meta: self.meta(now),
                    reason: "Message not found"@,
                },
            );
            if self.channels.has_message(channel, message_id) {
                self.channels.delete_message_keeps_members(channel, message_id);
                let removed = ServerModel {
                    channels: self.channels.delete_message(channel, message_id),
                    ..self
                };
                assert forall|id: ClientId, n: Seq<char>|
                    #![trigger removed.channels.is_member(id, n)]
                    removed.channels.is_member(id, n) <==> removed.registry.channel(id) == Some(
                        n,
                    ) by {
                    assert(self.channels.is_member(id, n) <==> self.registry.channel(id) == Some(
                        n,
                    ));
                }
                let target = "message_"@ + crate::text::decimal(message_id as nat);
                removed.logged_keeps_inv(
                    channel_id,
                    user,
                    "delete_message"@,
                    target,
                    "Message deleted"@,
                    now,
                );
                let done = removed.logged(
                    channel_id,
                    user,
                    "delete_message"@,
                    target,
                    "Message deleted"@,
                    now,
                );
                done.broadcast_changes_queue_only(
                    done.channels.members(channel),
                    ServerMessageModel::MessageDeleted {
                        meta: done.meta(now),
                        channel,
                        message_id,
                        deleted_by: user.username,
                    },
                );
            }
        }
    }

    /// `PromoteUser` (with a role) and `DemoteUser` (without) keep the
    /// invariant.
    pub proof fn after_set_role_keeps_inv(
        self,
        session: Session,
        channel: Seq<char>,
        username: Seq<char>,
        role: Option<crate::protocol::permissions::Role>,
        now: Timestamp,
    )
        requires
            self.inv(),
        ensures
            role matches Some(r)
                ==> self.after_promote_user(session, channel, username, r, now).inv(),
            role matches Some(r)
                ==> self.after_promote_user(session, channel, username, r, now).extends(self),
            role matches Some(r)
                ==> (self.channels.time_ordered()
                    ==> self.after_promote_user(
                        session,
                        channel,
                        username,
                        r,
                        now,
                    ).channels.time_ordered()),
            role is None ==> self.after_demote_user(session, channel, username, now).inv(),
            role is None ==> self.after_demote_user(
                session,
                channel,
                username,
                now,
            ).numbers_on_from(self),
            role is None ==> self.after_demote_user(session, channel, username, now).extends(self),
            role is None ==> (self.channels.time_ordered() ==> self.after_demote_user(
                session,
                channel,
                username,
                now,
            ).channels.time_ordered()),
    {
        let needed = Some(crate::protocol::permissions::Permission::PromoteUser);
        self.clearance_is_sound(session, channel, needed, now);
        if let Clearance::Granted { user, channel_id } = self.clearance(
            session,
            channel,
            needed,
            now,
        ) {
            self.tell_changes_queue_only(
                session.client_id,
                ServerMessageModel::AdminError { meta: self.meta(now), reason: "User not found"@ },
            );
            if let Some(target) = self.auth.find_user_by_username(username) {
                let given = match role {
                    Some(r) => r,
                    None => crate::protocol::permissions::Role::User,
                };
                self.admin.set_role_keeps_wf(channel_id, target.id, given);
                let changed = ServerModel {
                    admin: self.admin.set_role(channel_id, target.id, given),
                    ..self
                };
                self.quiet_change_keeps_inv(changed);
                match role {
                    Some(r) => {
                        let details = "Promoted to "@ + r.spec_name();
                        changed.logged_keeps_inv(
                            channel_id,
                            user,
                            "promote_user"@,
                            username,
                            details,
                            now,
                        );
                        let done = changed.logged(
                            channel_id,
                            user,
                            "promote_user"@,
                            username,
                            details,
                            now,
                        );
                        done.broadcast_changes_queue_only(
                            done.channels.members(channel),
                            ServerMessageModel::UserPromoted {
                                meta: done.meta(now),
                                channel,
                                user_id: target.id,
                                username,
                                new_role: r,
                                promoted_by: user.username,
                            },
                        );
                    },
                    None => {
                        changed.logged_keeps_inv(
                            channel_id,
                            user,
                            "demote_user"@,
                            username,
                            "Demoted to User"@,
                            now,
                        );
                        let done = changed.logged(
                            channel_id,
                            user,
                            "demote_user"@,
                            username,
                            "Demoted to User"@,
                            now,
                        );
                        done.broadcast_changes_queue_only(
                            done.channels.members(channel),
                            ServerMessageModel::UserDemoted {
                                meta: done.meta(now),
                                channel,
                                user_id: target.id,
                                username,
                                demoted_by: user.username,
                            },
                        );
                    },
                }
            }
        }
    }

    /// `BanUser` keeps the invariant.
    pub proof fn after_ban_user_keeps_inv(
        self,
        session: Session,
        channel: Seq<char>,
        username: Seq<char>,
        duration_seconds: Option<u64>,
        reason: Option<Seq<char>>,
        now: Timestamp,
    )
        requires
            self.inv(),
        ensures
            self.after_ban_user(session, channel, username, duration_seconds, reason, now).inv(),
            self.after_ban_user(session, channel, username, duration_seconds, reason, now).numbers_on_from(self),
            self.after_ban_user(
                session,
                channel,
                username,
                duration_seconds,
                reason,
                now,
            ).extends(self),
            self.channels.time_ordered()
                ==> self.after_ban_user(
                    session,
                    channel,
                    username,
                    duration_seconds,
                    reason,
                    now,
                ).channels.time_ordered(),
    {
        let needed = Some(crate::protocol::permissions::Permission::BanUser);
        self.clearance_is_sound(session, channel, needed, now);
        if let Clearance::Granted { user, channel_id } = self.clearance(
            session,
            channel,
            needed,
            now,
        ) {
            self.tell_changes_queue_only(
                session.client_id,
                ServerMessageModel::AdminError { meta: self.meta(now), reason: "User not found"@ },
            );
            if let Some(target) = self.auth.find_user_by_username(username) {
                let banned_until = crate::server::ban_manager::BanManager::expiry(
                    now,
                    duration_seconds,
                );
                let ban = crate::server::ban_manager::BanManager::ban_model(
                    target.id,
                    target.username,
                    user.username,
                    banned_until,
                    reason,
                );
                self.bans.ban_user_keeps_wf(channel_id, ban);
                let banned = ServerModel { bans: self.bans.ban_user(channel_id, ban), ..self };
                self.quiet_change_keeps_inv(banned);
                let details = crate::server::model::ban_details(duration_seconds);
                banned.logged_keeps_inv(channel_id, user, "ban_user"@, username, details, now);
                let noted = banned.logged(channel_id, user, "ban_user"@, username, details, now);
                let text = "You have been banned from this channel. Reason: "@
                    + crate::text::or_empty(reason);
                noted.evicted_keeps_inv(
                    self.registry.clients_of_user(target.id),
                    channel,
                    text,
                    now,
                );
                let done = noted.evicted(
                    self.registry.clients_of_user(target.id),
                    channel,
                    text,
                    now,
                );
                done.broadcast_changes_queue_only(
                    done.channels.members(channel),
                    ServerMessageModel::UserBanned {
                        meta: done.meta(now),
                        channel,
                        user_id: target.id,
                        username,
                        banned_until,
                        banned_by: user.username,
                        reason,
                    },
                );
            }
        }
    }

    /// `UnbanUser` keeps the invariant.
    pub proof fn after_unban_user_keeps_inv(
        self,
        session: Session,
        channel: Seq<char>,
        username: Seq<char>,
        now: Timestamp,
    )
        requires
            self.inv(),
        ensures
            self.after_unban_user(session, channel, username, now).inv(),
            self.after_unban_user(session, channel, username, now).numbers_on_from(self),
            self.after_unban_user(session, channel, username, now).extends(self),
            self.channels.time_ordered()
                ==> self.after_unban_user(session, channel, username, now).channels.time_ordered(),
    {
        let needed = Some(crate::protocol::permissions::Permission::BanUser);
        self.clearance_is_sound(session, channel, needed, now);
        if let Clearance::Granted { user, channel_id } = self.clearance(
            session,
            channel,
            needed,
            now,
        ) {
            self.tell_changes_queue_only(
                session.client_id,
                ServerMessageModel::AdminError { meta: self.meta(now), reason: "User not found"@ },
            );
            self.tell_changes_queue_only(
                session.client_id,
                ServerMessageModel::AdminError {
                    meta: self.meta(now),
                    reason: "User is not banned"@,
                },
            );
            if let Some(target) = self.auth.find_user_by_username(username) {
                if self.bans.get_ban_info(channel_id, target.id) is Some {
                    self.bans.unban_user_keeps_wf(channel_id, target.id);
                    let lifted = ServerModel {
                        bans: self.bans.unban_user(channel_id, target.id),
                        ..self
                    };
                    self.quiet_change_keeps_inv(lifted);
                    lifted.logged_keeps_inv(
                        channel_id,
                        user,
                        "unban_user"@,
                        username,
                        "Unbanned"@,
                        now,
                    );
                    let done = lifted.logged(
                        channel_id,
                        user,
                        "unban_user"@,
                        username,
                        "Unbanned"@,
                        now,
                    );
                    done.broadcast_changes_queue_only(
                        done.channels.members(channel),
                        ServerMessageModel::UserUnbanned {
                            meta: done.meta(now),
                            channel,
                            username,
                            unbanned_by: user.username,
                        },
                    );
                }
            }
        }
    }

    /// `KickUser` keeps the invariant.
    pub proof fn after_kick_user_keeps_inv(
        self,
        session: Session,
        channel: Seq<char>,
        username: Seq<char>,
        reason: Option<Seq<char>>,
        now: Timestamp,
    )
        requires
            self.inv(),
        ensures
            self.after_kick_user(session, channel, username, reason, now).inv(),
            self.after_kick_user(session, channel, username, reason, now).numbers_on_from(self),
            self.after_kick_user(session, channel, username, reason, now).extends(self),
            self.channels.time_ordered()
                ==> self.after_kick_user(
                    session,
                    channel,
                    username,
                    reason,
                    now,
                ).channels.time_ordered(),
    {
        let needed = Some(crate::protocol::permissions::Permission::KickUser);
        self.clearance_is_sound(session, channel, needed, now);
        if let Clearance::Granted { user, channel_id } = self.clearance(
            session,
            channel,
            needed,
            now,
        ) {
            self.tell_changes_queue_only(
                session.client_id,
                ServerMessageModel::AdminError { meta: self.meta(now), reason: "User not found"@ },
            );
            if let Some(target) = self.auth.find_user_by_username(username) {
                let details = crate::text::or_empty(reason);
                self.logged_keeps_inv(channel_id, user, "kick_user"@, username, details, now);
                let noted = self.logged(channel_id, user, "kick_user"@, username, details, now);
                let text = "You have been kicked from this channel. Reason: "@
                    + crate::text::or_empty(reason);
                noted.evicted_keeps_inv(
                    self.registry.clients_of_user(target.id),
                    channel,
                    text,
                    now,
                );
                let done = noted.evicted(
                    self.registry.clients_of_user(target.id),
                    channel,
                    text,
                    now,
                );
                done.broadcast_changes_queue_only(
                    done.channels.members(channel),
                    ServerMessageModel::UserKicked {
                        meta: done.meta(now),
                        channel,
                        user_id: target.id,
                        username,
                        kicked_by: user.username,
                        reason,
                    },
                );
            }
        }
    }

    /// `ChangeChannelType` keeps the invariant.
    pub proof fn after_change_channel_type_keeps_inv(
        self,
        session: Session,
        channel: Seq<char>,
        channel_type: crate::protocol::channel::ChannelType,
        now: Timestamp,
    )
        requires
            self.inv(),
        ensures
            self.after_change_channel_type(session, channel, channel_type, now).inv(),
            self.after_change_channel_type(session, channel, channel_type, now).numbers_on_from(self),
            self.after_change_channel_type(session, channel, channel_type, now).extends(self),
            self.channels.time_ordered()
                ==> self.after_change_channel_type(
                    session,
                    channel,
                    channel_type,
                    now,
                ).channels.time_ordered(),
    {
        let needed = Some(crate::protocol::permissions::Permission::ManageChannel);
        self.clearance_is_sound(session, channel, needed, now);
        if let Clearance::Granted { user, channel_id } = self.clearance(
            session,
            channel,
            needed,
            now,
        ) {
            self.admin.set_channel_type_keeps_wf(channel_id, channel_type);
            let changed = ServerModel {
                admin: self.admin.set_channel_type(channel_id, channel_type),
                ..self
            };
            self.quiet_change_keeps_inv(changed);
            let details = "Changed to "@ + channel_type.spec_name();
            changed.logged_keeps_inv(
                channel_id,
                user,
                "change_channel_type"@,
                channel,
                details,
                now,
            );
            let done = changed.logged(
                channel_id,
                user,
                "change_channel_type"@,
                channel,
                details,
                now,
            );
            done.broadcast_changes_queue_only(
                done.channels.members(channel),
                ServerMessageModel::ChannelTypeChanged {
                    meta: done.meta(now),
                    channel,
                    new_type: channel_type,
                    changed_by: user.username,
                },
            );
        }
    }

    /// A message sent by a connection that is not in the channel it names
    /// is answered with one `ProtocolError` to the sender and reaches
    /// nobody: no store changes and nothing else is queued.
    pub proof fn send_outside_channel_is_refused(
        self,
        session: Session,
        channel: Seq<char>,
        content: Seq<u8>,
        metadata: Seq<(Seq<char>, Seq<char>)>,
        now: Timestamp,
    )
        requires
            self.registry.channel(session.client_id) != Some(channel),
        ensures
            self.same_stores(self.after_send_message(session, channel, content, metadata, now)),
            exists|text: Seq<char>|
                self.after_send_message(session, channel, content, metadata, now)
                    == #[trigger] self.protocol_error(session.client_id, text, now),
            forall|i: int|
                self.registry.outbox.len() <= i < self.after_send_message(
                    session,
                    channel,
                    content,
                    metadata,
                    now,
                ).registry.outbox.len() ==> {
                    let queued = #[trigger] self.after_send_message(
                        session,
                        channel,
                        content,
                        metadata,
                        now,
                    ).registry.outbox[i];
                    queued.to == session.client_id && queued.message is ProtocolError
                },
    {
        let text = if !session.user_authed {
            "login/register required"@
        } else if self.registry.user(session.client_id) is None {
            "user missing"@
        } else {
            "not joined to channel"@
        };
        let after = self.after_send_message(session, channel, content, metadata, now);
        assert(after == self.protocol_error(session.client_id, text, now));
        self.tell_changes_queue_only(
            session.client_id,
            ServerMessageModel::ProtocolError { meta: self.meta(now), text },
        );
    }

    /// One copy of `message` for each of `ids`, in their order.
    pub open spec fn one_each(
        ids: Seq<ClientId>,
        message: ServerMessageModel,
    ) -> Seq<OutboundModel> {
        Seq::new(ids.len(), |i: int| OutboundModel { to: ids[i], message })
    }

    /// In a state that satisfies the invariant every member of a channel is
    /// a registered connection, so a broadcast to the channel reaches each
    /// member once.
    pub proof fn broadcast_reaches_members(self, channel: Seq<char>, message: ServerMessageModel)
        requires
            self.inv(),
        ensures
            self.broadcast(self.channels.members(channel), message).registry.outbox
                == self.registry.outbox + Self::one_each(self.channels.members(channel), message),
            self.broadcast(self.channels.members(channel), message).inv(),
            self.same_stores(self.broadcast(self.channels.members(channel), message)),
    {
        let members = self.channels.members(channel);
        assert forall|i: int| 0 <= i < members.len() implies self.registry.is_registered(
            #[trigger] members[i],
        ) by {
            assert(self.channels.is_member(members[i], channel));
            assert(self.registry.channel(members[i]) == Some(channel));
        }
        self.registry.fanout_reaches_all(members, message);
        self.broadcast_changes_queue_only(members, message);
    }

    /// A connection that is in the channel `x` and joins another channel
    /// `y` ends up in `y` and in no other channel. The members that remain
    /// in `x` are each told once that the user left; then the connection
    /// gets the description and the history of `y`; then the members of
    /// `y`, the connection among them, are each told once that the user
    /// joined. Nothing else is queued.
    pub proof fn rejoin_moves_the_connection(
        self,
        session: Session,
        user: UserInfoModel,
        x: Seq<char>,
        y: Seq<char>,
        password: Option<Seq<char>>,
        fresh_hash: Option<Seq<char>>,
        now: Timestamp,
    )
        requires
            self.inv(),
            self.channels.next_channel_id < u64::MAX,
            session.user_authed,
            self.registry.user(session.client_id) == Some(user),
            self.registry.channel(session.client_id) == Some(x),
            x != y,
            self.join_is_admitted(session.client_id, user, y, password, fresh_hash, now),
        ensures
            ({
                let client_id = session.client_id;
                let after = self.after_join(session, y, password, fresh_hash, now);
                let stay = after.channels.members(x);
                let hosts = after.channels.members(y);
                let base = self.registry.outbox.len() as int;
                &&& after.inv()
                &&& after.registry.channel(client_id) == Some(y)
                &&& forall|n: Seq<char>| #[trigger] after.channels.is_member(
                    client_id,
                    n,
                ) <==> n == y
                &&& forall|c: ClientId|
                    c != client_id ==> (#[trigger] after.channels.is_member(c, x)
                        <==> self.channels.is_member(c, x))
                &&& after.registry.outbox.len() == base + stay.len() + 2 + hosts.len()
                &&& after.registry.outbox.subrange(0, base) == self.registry.outbox
                &&& after.registry.outbox.subrange(base, base + stay.len()) == Self::one_each(
                    stay,
                    ServerMessageModel::UserLeft { meta: self.meta(now), channel: x, user },
                )
                &&& after.registry.outbox[base + stay.len()].to == client_id
                &&& after.registry.outbox[base + stay.len()].message is JoinSuccess
                &&& after.registry.outbox[base + stay.len() + 1].to == client_id
                &&& after.registry.outbox[base + stay.len() + 1].message is HistoryChunk
                &&& after.registry.outbox.subrange(
                    base + stay.len() + 2,
                    after.registry.outbox.len() as int,
                ) == Self::one_each(
                    hosts,
                    ServerMessageModel::UserJoined {
                        meta: self.bumped().bumped().bumped().meta(now),
                        channel: y,
                        user,
                    },
                )
            }),
    {
        let client_id = session.client_id;
        // The connection leaves x and the remaining members are told.
        let out = ServerModel {
            channels: self.channels.leave(client_id, x),
            registry: self.registry.set_channel(client_id, None),
            ..self
        };
        self.channels.leave_keeps_wf(client_id, x);
        self.registry.set_channel_keeps_wf(client_id, None);
        assert forall|id: ClientId, n: Seq<char>|
            #![trigger out.channels.is_member(id, n)]
            out.channels.is_member(id, n) <==> out.registry.channel(id) == Some(n) by {
            assert(self.channels.is_member(id, n) <==> self.registry.channel(id) == Some(n));
        }
        let farewell = ServerMessageModel::UserLeft { meta: self.meta(now), channel: x, user };
        out.broadcast_reaches_members(x, farewell);
        let left = self.left_current(client_id, user, now);
        assert(left == out.broadcast(out.channels.members(x), farewell));
        self.left_current_keeps_inv(client_id, user, now);
        // The channel y is made where it does not exist.
        left.made_keeps_inv(y, password, fresh_hash, user.id);
        let made = left.made(y, password, fresh_hash, user.id);
        assert(left.registry.is_registered(client_id));
        // The connection enters y.
        let inside = ServerModel {
            channels: made.channels.join(client_id, y, password),
            registry: made.registry.set_channel(client_id, Some(y)),
            ..made
        };
        made.channels.join_keeps_wf(client_id, y, password);
        made.registry.set_channel_keeps_wf(client_id, Some(y));
        assert forall|id: ClientId, n: Seq<char>|
            #![trigger inside.channels.is_member(id, n)]
            inside.channels.is_member(id, n) <==> inside.registry.channel(id) == Some(n) by {
            assert(made.channels.is_member(id, n) <==> made.registry.channel(id) == Some(n));
        }
        let channel_id = made.channels.channel(y).id;
        let base_info = made.channels.join_outcome(y, password)->Ok_0;
        let info = crate::protocol::messages::ChannelInfoModel {
            id: channel_id,
            name: y,
            is_public: base_info.is_public,
            channel_type: made.admin.get_channel_type(channel_id),
            user_role: Some(made.admin.get_role(channel_id, user.id)),
        };
        let success = ServerMessageModel::JoinSuccess { meta: inside.meta(now), channel: info };
        inside.tell_changes_queue_only(client_id, success);
        let greeted = inside.tell(client_id, success);
        let chunk = ServerMessageModel::HistoryChunk {
            meta: greeted.meta(now),
            channel: y,
            messages: greeted.channels.history(y, crate::server::model::JOIN_HISTORY as nat),
        };
        greeted.tell_changes_queue_only(client_id, chunk);
        let shown = greeted.tell(client_id, chunk);
        let welcome = ServerMessageModel::UserJoined { meta: shown.meta(now), channel: y, user };
        shown.broadcast_reaches_members(y, welcome);
        self.leaving_keeps_the_verdict(client_id, user, y, password, fresh_hash, now);
        let after = self.after_join(session, y, password, fresh_hash, now);
        assert(after == shown.broadcast(shown.channels.members(y), welcome));
        assert(inside.registry.is_registered(client_id));
        let stay = after.channels.members(x);
        let hosts = after.channels.members(y);
        let base = self.registry.outbox.len() as int;
        assert(out.channels.members(x) == stay) by {
            assert(made.channels.has(x) <==> out.channels.has(x)) by {
                left.channels.ensure_channel_keeps_wf(
                    y,
                    true,
                    if crate::server::channel::asks_for_hash(password) {
                        fresh_hash
                    } else {
                        None
                    },
                    Some(user.id),
                );
            }
            if out.channels.has(x) {
                left.channels.ensure_channel_keeps_wf(
                    y,
                    true,
                    if crate::server::channel::asks_for_hash(password) {
                        fresh_hash
                    } else {
                        None
                    },
                    Some(user.id),
                );
                made.channels.with_channel_keeps_wf(
                    y,
                    made.channels.channel(y).joined(client_id),
                );
                made.channels.channel(y).joined_keeps_wf(client_id, made.channels.next_message_id);
            }
        }
        assert(shown.meta(now) == self.bumped().bumped().bumped().meta(now));
        assert(after.registry.outbox =~= self.registry.outbox + Self::one_each(stay, farewell)
            + seq![
            OutboundModel { to: client_id, message: success },
            OutboundModel { to: client_id, message: chunk },
        ] + Self::one_each(hosts, welcome));
        assert(after.registry.outbox.subrange(0, base) =~= self.registry.outbox);
        assert(after.registry.outbox.subrange(base, base + stay.len()) =~= Self::one_each(
            stay,
            farewell,
        ));
        assert(after.registry.outbox.subrange(
            base + stay.len() + 2,
            after.registry.outbox.len() as int,
        ) =~= Self::one_each(hosts, welcome));
        assert forall|n: Seq<char>| #[trigger] after.channels.is_member(client_id, n) <==> n
            == y by {
            assert(after.channels.is_member(client_id, n) <==> after.registry.channel(client_id)
                == Some(n));
        }
        assert forall|c: ClientId| c != client_id implies (#[trigger] after.channels.is_member(
            c,
            x,
        ) <==> self.channels.is_member(c, x)) by {
            assert(out.channels.is_member(c, x) <==> self.channels.is_member(c, x));
            assert(made.channels.is_member(c, x) <==> left.channels.is_member(c, x));
            assert(inside.channels.is_member(c, x) <==> made.channels.is_member(c, x));
        }
    }

    /// A join of `name` by the connection's user is let in: the channel can
    /// be made where it is missing, the user is not banned there, and the
    /// password is right.
    pub open spec fn join_is_admitted(
        self,
        client_id: ClientId,
        user: UserInfoModel,
        name: Seq<char>,
        password: Option<Seq<char>>,
        fresh_hash: Option<Seq<char>>,
        now: Timestamp,
    ) -> bool {
        let left = self.left_current(client_id, user, now);
        let made = left.made(name, password, fresh_hash, user.id);
        &&& !left.lacks_hash(name, password, fresh_hash)
        &&& !made.bans.is_banned(made.channels.channel(name).id, user.id, now)
        &&& made.channels.join_outcome(name, password) is Ok
    }

    /// From the place `from` on, `outbox` holds a `SystemMessage` with the
    /// text `text` for the connection `to`.
    pub open spec fn holds_notice(
        outbox: Seq<OutboundModel>,
        from: int,
        to: ClientId,
        text: Seq<char>,
    ) -> bool {
        exists|i: int|
            from <= i < outbox.len() && (#[trigger] outbox[i]).to == to && outbox[i].message
                is SystemMessage && outbox[i].message->SystemMessage_text == text
    }

    /// Every one of `targets` that is in `channel` gets the notice; what was
    /// queued before stays queued in front of it.
    pub proof fn evicted_tells_targets(
        self,
        targets: Seq<ClientId>,
        channel: Seq<char>,
        text: Seq<char>,
        now: Timestamp,
        target: ClientId,
    )
        requires
            self.inv(),
            targets.contains(target),
            self.registry.channel(target) == Some(channel),
        ensures
            self.evicted(targets, channel, text, now).registry.outbox.len()
                >= self.registry.outbox.len(),
            Self::holds_notice(
                self.evicted(targets, channel, text, now).registry.outbox,
                self.registry.outbox.len() as int,
                target,
                text,
            ),
        decreases targets.len(),
    {
        let head = targets.drop_last();
        let last = targets.last();
        let mid = self.evicted(head, channel, text, now);
        let after = self.evicted(targets, channel, text, now);
        self.evicted_grows_queue(head, channel, text, now);
        self.evicted_keeps_inv(head, channel, text, now);
        mid.evict_one_keeps_inv(last, channel, text, now);
        assert(targets[targets.len() - 1] == last);
        if head.contains(target) {
            self.evicted_tells_targets(head, channel, text, now, target);
            let i = choose|i: int|
                self.registry.outbox.len() <= i < mid.registry.outbox.len() && (
                #[trigger] mid.registry.outbox[i]).to == target && mid.registry.outbox[i].message
                    is SystemMessage && mid.registry.outbox[i].message->SystemMessage_text == text;
            assert(after.registry.outbox[i] == mid.registry.outbox[i]);
        } else {
            let k = targets.index_of(target);
            if k < head.len() {
                assert(head[k] == target);
            }
            assert(last == target);
            // Nobody put the target out before its turn.
            assert(mid.channels.is_member(target, channel) <==> self.channels.is_member(
                target,
                channel,
            ));
            assert(self.channels.is_member(target, channel));
            assert(mid.channels.is_member(target, channel) <==> mid.registry.channel(target)
                == Some(channel));
            let i = mid.registry.outbox.len() as int;
            assert(after.registry.outbox[i].to == target);
        }
    }

    /// Putting connections out of a channel only adds to the queue.
    pub proof fn evicted_grows_queue(
        self,
        targets: Seq<ClientId>,
        channel: Seq<char>,
        text: Seq<char>,
        now: Timestamp,
    )
        requires
            self.inv(),
        ensures
            self.evicted(targets, channel, text, now).registry.outbox.len()
                >= self.registry.outbox.len(),
            self.evicted(targets, channel, text, now).registry.outbox.subrange(
                0,
                self.registry.outbox.len() as int,
            ) == self.registry.outbox,
        decreases targets.len(),
    {
        if targets.len() > 0 {
            let head = targets.drop_last();
            self.evicted_grows_queue(head, channel, text, now);
            self.evicted_keeps_inv(head, channel, text, now);
            let mid = self.evicted(head, channel, text, now);
            mid.evict_one_keeps_inv(targets.last(), channel, text, now);
            let after = self.evicted(targets, channel, text, now);
            assert(after.registry.outbox.subrange(0, self.registry.outbox.len() as int)
                =~= mid.registry.outbox.subrange(0, self.registry.outbox.len() as int));
        } else {
            assert(self.registry.outbox.subrange(0, self.registry.outbox.len() as int)
                =~= self.registry.outbox);
        }
    }

    /// How many of the queued messages are addressed to `to`.
    pub open spec fn addressed(outbox: Seq<OutboundModel>, to: ClientId) -> nat
        decreases outbox.len(),
    {
        if outbox.len() == 0 {
            0
        } else {
            Self::addressed(outbox.drop_last(), to) + if outbox.last().to == to {
                1nat
            } else {
                0nat
            }
        }
    }

    /// What is addressed to a connection in two queues put together is what
    /// is addressed to it in each.
    pub proof fn addressed_adds_up(a: Seq<OutboundModel>, b: Seq<OutboundModel>, to: ClientId)
        ensures
            Self::addressed(a + b, to) == Self::addressed(a, to) + Self::addressed(b, to),
        decreases b.len(),
    {
        if b.len() == 0 {
            assert(a + b =~= a);
        } else {
            assert((a + b).drop_last() =~= a + b.drop_last());
            Self::addressed_adds_up(a, b.drop_last(), to);
        }
    }

    /// A fan-out to distinct connections addresses one message to each of
    /// them and none to anybody else.
    pub proof fn one_each_addresses_once(
        ids: Seq<ClientId>,
        message: ServerMessageModel,
        to: ClientId,
    )
        requires
            ids.no_duplicates(),
        ensures
            Self::addressed(Self::one_each(ids, message), to) == if ids.contains(to) {
                1nat
            } else {
                0nat
            },
        decreases ids.len(),
    {
        if ids.len() > 0 {
            let head = ids.drop_last();
            let last = ids.last();
            assert(Self::one_each(ids, message).drop_last() =~= Self::one_each(head, message));
            Self::one_each_addresses_once(head, message, to);
            if head.contains(to) {
                let k = head.index_of(to);
                assert(ids[k] == to);
                assert(ids[ids.len() - 1] == last);
            }
            if ids.contains(to) && last != to {
                let k = ids.index_of(to);
                assert(head[k] == to);
            }
            if last == to {
                assert(ids[ids.len() - 1] == to);
            }
        }
    }

    /// Putting connections out of a channel tells each of them that was in
    /// the channel exactly once, tells nobody else anything, and queues
    /// nothing but the notice.
    pub proof fn evicted_tells_each_once(
        self,
        targets: Seq<ClientId>,
        channel: Seq<char>,
        text: Seq<char>,
        now: Timestamp,
        to: ClientId,
    )
        requires
            self.inv(),
        ensures
            ({
                let after = self.evicted(targets, channel, text, now);
                &&& Self::addressed(after.registry.outbox, to) == Self::addressed(
                    self.registry.outbox,
                    to,
                ) + if targets.contains(to) && self.registry.channel(to) == Some(channel) {
                    1nat
                } else {
                    0nat
                }
                &&& after.registry.outbox.len() >= self.registry.outbox.len()
                &&& forall|i: int|
                    self.registry.outbox.len() <= i < after.registry.outbox.len() ==> (
                    #[trigger] after.registry.outbox[i]).message is SystemMessage
                        && after.registry.outbox[i].message->SystemMessage_text == text
            }),
        decreases targets.len(),
    {
        if targets.len() > 0 {
            let head = targets.drop_last();
            let last = targets.last();
            let mid = self.evicted(head, channel, text, now);
            let after = self.evicted(targets, channel, text, now);
            self.evicted_tells_each_once(head, channel, text, now, to);
            self.evicted_keeps_inv(head, channel, text, now);
            mid.evict_one_keeps_inv(last, channel, text, now);
            assert(targets[targets.len() - 1] == last);
            assert(mid.channels.is_member(last, channel) <==> mid.registry.channel(last) == Some(
                channel,
            ));
            assert(mid.channels.is_member(last, channel) <==> self.channels.is_member(
                last,
                channel,
            ) && !(head.contains(last) && channel == channel));
            assert(self.channels.is_member(last, channel) <==> self.registry.channel(last)
                == Some(channel));
            if head.contains(to) {
                let k = head.index_of(to);
                assert(targets[k] == to);
            }
            if targets.contains(to) && last != to {
                let k = targets.index_of(to);
                assert(head[k] == to);
            }
            if mid.registry.channel(last) == Some(channel) {
                assert(after.registry.outbox.drop_last() =~= mid.registry.outbox);
            }
        }
    }

    /// A ban tells every connection that was in the channel exactly once:
    /// the connections of the banned user get the notice that they were
    /// banned, the members that remain are told who was banned, and nobody
    /// outside the channel is told anything. The notices are queued first.
    pub proof fn ban_tells_each_once(
        self,
        session: Session,
        channel: Seq<char>,
        username: Seq<char>,
        duration_seconds: Option<u64>,
        reason: Option<Seq<char>>,
        now: Timestamp,
        to: ClientId,
    )
        requires
            self.inv(),
            self.clearance(
                session,
                channel,
                Some(crate::protocol::permissions::Permission::BanUser),
                now,
            ) is Granted,
            self.auth.find_user_by_username(username) is Some,
        ensures
            ({
                let after = self.after_ban_user(
                    session,
                    channel,
                    username,
                    duration_seconds,
                    reason,
                    now,
                );
                let target = self.auth.find_user_by_username(username)->0;
                let text = "You have been banned from this channel. Reason: "@
                    + crate::text::or_empty(reason);
                let stay = after.channels.members(channel);
                let told = after.registry.outbox.len() - stay.len();
                &&& Self::addressed(after.registry.outbox, to) == Self::addressed(
                    self.registry.outbox,
                    to,
                ) + if self.registry.channel(to) == Some(channel) {
                    1nat
                } else {
                    0nat
                }
                &&& self.registry.outbox.len() <= told
                &&& after.registry.outbox.subrange(0, self.registry.outbox.len() as int)
                    == self.registry.outbox
                &&& forall|i: int|
                    self.registry.outbox.len() <= i < told ==> (
                    #[trigger] after.registry.outbox[i]).message is SystemMessage
                        && after.registry.outbox[i].message->SystemMessage_text == text
                        && (self.registry.user(after.registry.outbox[i].to) matches Some(u)
                        && u.id == target.id)
                &&& forall|i: int|
                    told <= i < after.registry.outbox.len() ==> (
                    #[trigger] after.registry.outbox[i]).message is UserBanned
                        && after.registry.outbox[i].to == stay[i - told]
                &&& forall|id: ClientId|
                    #[trigger] stay.contains(id) <==> self.channels.is_member(id, channel) && !(
                    self.registry.user(id) matches Some(u) && u.id == target.id)
            }),
    {
        let needed = Some(crate::protocol::permissions::Permission::BanUser);
        self.clearance_is_sound(session, channel, needed, now);
        self.after_ban_user_keeps_inv(session, channel, username, duration_seconds, reason, now);
        let user = self.clearance(session, channel, needed, now)->Granted_user;
        let channel_id = self.clearance(session, channel, needed, now)->Granted_channel_id;
        let target = self.auth.find_user_by_username(username)->0;
        let banned_until = crate::server::ban_manager::BanManager::expiry(now, duration_seconds);
        let ban = crate::server::ban_manager::BanManager::ban_model(
            target.id,
            target.username,
            user.username,
            banned_until,
            reason,
        );
        self.bans.ban_user_keeps_wf(channel_id, ban);
        let banned = ServerModel { bans: self.bans.ban_user(channel_id, ban), ..self };
        self.quiet_change_keeps_inv(banned);
        let details = crate::server::model::ban_details(duration_seconds);
        banned.logged_keeps_inv(channel_id, user, "ban_user"@, username, details, now);
        let noted = banned.logged(channel_id, user, "ban_user"@, username, details, now);
        let text = "You have been banned from this channel. Reason: "@ + crate::text::or_empty(
            reason,
        );
        let targets = self.registry.clients_of_user(target.id);
        noted.evicted_keeps_inv(targets, channel, text, now);
        noted.evicted_grows_queue(targets, channel, text, now);
        noted.evicted_tells_each_once(targets, channel, text, now, to);
        let done = noted.evicted(targets, channel, text, now);
        let notice = ServerMessageModel::UserBanned {
            meta: done.meta(now),
            channel,
            user_id: target.id,
            username,
            banned_until,
            banned_by: user.username,
            reason,
        };
        done.broadcast_reaches_members(channel, notice);
        let after = self.after_ban_user(session, channel, username, duration_seconds, reason, now);
        let stay = done.channels.members(channel);
        assert(after == done.broadcast(stay, notice));
        assert(after.channels == done.channels);
        assert(noted.registry == self.registry);
        // Who stays: the members that are no connection of the banned user.
        assert forall|id: ClientId| #[trigger]
            stay.contains(id) <==> self.channels.is_member(id, channel) && !(self.registry.user(
                id,
            ) matches Some(u) && u.id == target.id) by {
            self.registry.clients_of_user_is_exact(target.id, id);
            assert(done.channels.is_member(id, channel) <==> noted.channels.is_member(
                id,
                channel,
            ) && !(targets.contains(id) && channel == channel));
        }
        // The count: one notice or one announcement for whoever was inside.
        Self::addressed_adds_up(done.registry.outbox, Self::one_each(stay, notice), to);
        if done.channels.has(channel) {
            assert(done.channels.channels[done.channels.index(channel)].wf(
                done.channels.next_message_id,
            ));
        }
        Self::one_each_addresses_once(stay, notice, to);
        self.registry.clients_of_user_is_exact(target.id, to);
        assert(self.channels.is_member(to, channel) <==> self.registry.channel(to) == Some(
            channel,
        ));
        assert(stay.contains(to) <==> self.channels.is_member(to, channel) && !(
        self.registry.user(to) matches Some(u) && u.id == target.id));
        if self.registry.channel(to) == Some(channel) {
            assert(self.registry.is_registered(to));
        }
        // The layout: what was queued, the notices, the announcements.
        let told = after.registry.outbox.len() - stay.len();
        assert(told == done.registry.outbox.len());
        assert(after.registry.outbox.subrange(0, self.registry.outbox.len() as int)
            =~= done.registry.outbox.subrange(0, self.registry.outbox.len() as int));
        assert forall|i: int| self.registry.outbox.len() <= i < told implies (
        #[trigger] after.registry.outbox[i]).message is SystemMessage
            && after.registry.outbox[i].message->SystemMessage_text == text && (
        self.registry.user(after.registry.outbox[i].to) matches Some(u) && u.id == target.id) by {
            assert(after.registry.outbox[i] == done.registry.outbox[i]);
            noted.evicted_names_targets(targets, channel, text, now, i);
            self.registry.clients_of_user_is_exact(target.id, done.registry.outbox[i].to);
        }
    }

    /// Whoever is told that it was put out is one of those named.
    pub proof fn evicted_names_targets(
        self,
        targets: Seq<ClientId>,
        channel: Seq<char>,
        text: Seq<char>,
        now: Timestamp,
        i: int,
    )
        requires
            self.inv(),
            self.registry.outbox.len() <= i < self.evicted(
                targets,
                channel,
                text,
                now,
            ).registry.outbox.len(),
        ensures
            targets.contains(self.evicted(targets, channel, text, now).registry.outbox[i].to),
        decreases targets.len(),
    {
        if targets.len() > 0 {
            let head = targets.drop_last();
            let last = targets.last();
            let mid = self.evicted(head, channel, text, now);
            self.evicted_keeps_inv(head, channel, text, now);
            self.evicted_grows_queue(head, channel, text, now);
            mid.evict_one_keeps_inv(last, channel, text, now);
            assert(targets[targets.len() - 1] == last);
            if i < mid.registry.outbox.len() {
                self.evicted_names_targets(head, channel, text, now, i);
                let k = head.index_of(mid.registry.outbox[i].to);
                assert(targets[k] == mid.registry.outbox[i].to);
            }
        }
    }

    /// A ban puts the banned user out: a connection of the target that is
    /// in the channel is taken out of the member set, is left without a
    /// current channel and gets a `SystemMessage`, and the ban is on record
    /// with the expiry asked for.
    pub proof fn ban_puts_target_out(
        self,
        session: Session,
        channel: Seq<char>,
        username: Seq<char>,
        duration_seconds: Option<u64>,
        reason: Option<Seq<char>>,
        now: Timestamp,
        target_client: ClientId,
    )
        requires
            self.inv(),
            self.clearance(
                session,
                channel,
                Some(crate::protocol::permissions::Permission::BanUser),
                now,
            ) is Granted,
            self.auth.find_user_by_username(username) is Some,
            self.registry.user(target_client) matches Some(u) && u.id
                == self.auth.find_user_by_username(username)->0.id,
            self.registry.channel(target_client) == Some(channel),
        ensures
            ({
                let after = self.after_ban_user(
                    session,
                    channel,
                    username,
                    duration_seconds,
                    reason,
                    now,
                );
                let target = self.auth.find_user_by_username(username)->0;
                let channel_id = self.channels.channel(channel).id;
                &&& after.inv()
                &&& !after.channels.is_member(target_client, channel)
                &&& after.registry.channel(target_client) is None
                &&& Self::holds_notice(
                    after.registry.outbox,
                    self.registry.outbox.len() as int,
                    target_client,
                    "You have been banned from this channel. Reason: "@ + crate::text::or_empty(
                        reason,
                    ),
                )
                &&& after.bans.get_ban_info(channel_id, target.id) matches Some(ban)
                    && ban.banned_until == crate::server::ban_manager::BanManager::expiry(
                    now,
                    duration_seconds,
                )
                &&& forall|later: Timestamp|
                    #[trigger] after.bans.is_banned(channel_id, target.id, later) <==> (
                    duration_seconds is None || now.spec_plus_seconds(
                        duration_seconds->0,
                    ).is_after(later))
            }),
    {
        let needed = Some(crate::protocol::permissions::Permission::BanUser);
        self.clearance_is_sound(session, channel, needed, now);
        self.after_ban_user_keeps_inv(session, channel, username, duration_seconds, reason, now);
        let user = self.clearance(session, channel, needed, now)->Granted_user;
        let channel_id = self.clearance(session, channel, needed, now)->Granted_channel_id;
        let target = self.auth.find_user_by_username(username)->0;
        let banned_until = crate::server::ban_manager::BanManager::expiry(now, duration_seconds);
        let ban = crate::server::ban_manager::BanManager::ban_model(
            target.id,
            target.username,
            user.username,
            banned_until,
            reason,
        );
        self.bans.ban_user_keeps_wf(channel_id, ban);
        let banned = ServerModel { bans: self.bans.ban_user(channel_id, ban), ..self };
        self.quiet_change_keeps_inv(banned);
        let details = crate::server::model::ban_details(duration_seconds);
        banned.logged_keeps_inv(channel_id, user, "ban_user"@, username, details, now);
        let noted = banned.logged(channel_id, user, "ban_user"@, username, details, now);
        let text = "You have been banned from this channel. Reason: "@ + crate::text::or_empty(
            reason,
        );
        let targets = self.registry.clients_of_user(target.id);
        self.registry.clients_of_user_is_exact(target.id, target_client);
        noted.evicted_keeps_inv(targets, channel, text, now);
        noted.evicted_tells_targets(targets, channel, text, now, target_client);
        let done = noted.evicted(targets, channel, text, now);
        let notice = ServerMessageModel::UserBanned {
            meta: done.meta(now),
            channel,
            user_id: target.id,
            username,
            banned_until,
            banned_by: user.username,
            reason,
        };
        done.broadcast_changes_queue_only(done.channels.members(channel), notice);
        let after = self.after_ban_user(session, channel, username, duration_seconds, reason, now);
        assert(after == done.broadcast(done.channels.members(channel), notice));
        done.routing_decides_consistency(after);
        assert(!done.channels.is_member(target_client, channel));
        assert(after.channels.is_member(target_client, channel) <==> after.registry.channel(
            target_client,
        ) == Some(channel));
        assert(done.channels.is_member(target_client, channel) <==> done.registry.channel(
            target_client,
        ) == Some(channel));
        assert forall|n: Seq<char>| !after.channels.is_member(target_client, n) by {
            assert(after.channels.is_member(target_client, n) <==> self.channels.is_member(
                target_client,
                n,
            ) && !(targets.contains(target_client) && n == channel));
            assert(self.channels.is_member(target_client, n) <==> self.registry.channel(
                target_client,
            ) == Some(n));
        }
        assert(after.registry.channel(target_client) is None) by {
            if after.registry.channel(target_client) is Some {
                let n = after.registry.channel(target_client)->0;
                assert(after.channels.is_member(target_client, n) <==> after.registry.channel(
                    target_client,
                ) == Some(n));
            }
        }
        let i = choose|i: int|
            noted.registry.outbox.len() <= i < done.registry.outbox.len() && (
            #[trigger] done.registry.outbox[i]).to == target_client
                && done.registry.outbox[i].message is SystemMessage
                && done.registry.outbox[i].message->SystemMessage_text == text;
        assert(after.registry.outbox[i] == done.registry.outbox[i]);
    }

    /// A user who is banned from a channel is refused there, from whatever
    /// connection and whatever channel the connection is in: it gets a
    /// `JoinFailure` with the ban's reason, it does not become a member, and
    /// nothing but the queue changes.
    pub proof fn banned_user_cannot_join(
        self,
        session: Session,
        name: Seq<char>,
        password: Option<Seq<char>>,
        fresh_hash: Option<Seq<char>>,
        now: Timestamp,
    )
        requires
            self.inv(),
            session.user_authed,
            self.registry.user(session.client_id) is Some,
            self.channels.has(name),
            self.bans.is_banned(
                self.channels.channel(name).id,
                self.registry.user(session.client_id)->0.id,
                now,
            ),
        ensures
            ({
                let after = self.after_join(session, name, password, fresh_hash, now);
                let user = self.registry.user(session.client_id)->0;
                let ban = self.bans.get_ban_info(self.channels.channel(name).id, user.id)->0;
                &&& after.inv()
                &&& self.same_stores(after)
                &&& after.channels.is_member(session.client_id, name)
                    == self.channels.is_member(session.client_id, name)
                &&& self.registry.channel(session.client_id) != Some(name)
                    ==> !after.channels.is_member(session.client_id, name)
                &&& after.registry.channel(session.client_id) == self.registry.channel(
                    session.client_id,
                )
                &&& after.registry.outbox == self.registry.outbox.push(
                    OutboundModel {
                        to: session.client_id,
                        message: ServerMessageModel::JoinFailure {
                            meta: self.meta(now),
                            channel: name,
                            reason: crate::server::model::ban_reason(ban),
                        },
                    },
                )
            }),
    {
        let user = self.registry.user(session.client_id)->0;
        assert(self.made(name, password, fresh_hash, user.id) == self);
        self.refused_join_changes_queue_only(session, name, password, fresh_hash, now);
        assert(self.channels.is_member(session.client_id, name) <==> self.registry.channel(
            session.client_id,
        ) == Some(name));
    }

    /// A join with a password that does not open the channel is refused:
    /// the connection gets a `JoinFailure` that says so, it does not become
    /// a member, it stays in the channel it was in, and nothing but the
    /// queue changes.
    pub proof fn wrong_password_cannot_join(
        self,
        session: Session,
        name: Seq<char>,
        password: Option<Seq<char>>,
        fresh_hash: Option<Seq<char>>,
        now: Timestamp,
    )
        requires
            self.inv(),
            session.user_authed,
            self.registry.user(session.client_id) is Some,
            self.channels.has(name),
            !self.channels.channel(name).admits(password),
            !self.bans.is_banned(
                self.channels.channel(name).id,
                self.registry.user(session.client_id)->0.id,
                now,
            ),
        ensures
            ({
                let after = self.after_join(session, name, password, fresh_hash, now);
                &&& after.inv()
                &&& self.same_stores(after)
                &&& after.channels.is_member(session.client_id, name)
                    == self.channels.is_member(session.client_id, name)
                &&& self.registry.channel(session.client_id) != Some(name)
                    ==> !after.channels.is_member(session.client_id, name)
                &&& after.registry.channel(session.client_id) == self.registry.channel(
                    session.client_id,
                )
                &&& after.registry.outbox == self.registry.outbox.push(
                    OutboundModel {
                        to: session.client_id,
                        message: ServerMessageModel::JoinFailure {
                            meta: self.meta(now),
                            channel: name,
                            reason: "invalid channel password"@,
                        },
                    },
                )
            }),
    {
        let user = self.registry.user(session.client_id)->0;
        assert(self.made(name, password, fresh_hash, user.id) == self);
        self.refused_join_changes_queue_only(session, name, password, fresh_hash, now);
        assert(self.channels.is_member(session.client_id, name) <==> self.registry.channel(
            session.client_id,
        ) == Some(name));
    }

    /// Only a SuperAdmin of the channel can delete it. When one does, the
    /// channel is gone, every member is told and is left without a current
    /// channel; when anybody else tries, nothing but the queue changes.
    pub proof fn delete_channel_releases_members(
        self,
        session: Session,
        channel: Seq<char>,
        now: Timestamp,
    )
        requires
            self.inv(),
        ensures
            ({
                let after = self.after_delete_channel(session, channel, now);
                let allowed = self.clearance(
                    session,
                    channel,
                    None,
                    now,
                ) matches Clearance::Granted {
                    user,
                    channel_id,
                } && self.admin.get_role(channel_id, user.id)
                    == crate::protocol::permissions::Role::SuperAdmin;
                &&& after.inv()
                &&& !allowed ==> self.same_stores(after)
                &&& allowed ==> {
                    &&& !after.channels.has(channel)
                    &&& forall|id: ClientId|
                        self.channels.is_member(id, channel) ==> (
                        #[trigger] after.registry.channel(id)) is None
                    &&& exists|notice: ServerMessageModel|
                        notice is ChannelDeleted && after.registry.outbox
                            == self.registry.outbox + #[trigger] Self::one_each(
                            self.channels.members(channel),
                            notice,
                        )
                }
            }),
    {
        self.after_delete_channel_keeps_inv(session, channel, now);
        self.clearance_is_sound(session, channel, None, now);
        match self.clearance(session, channel, None, now) {
            Clearance::Refused(refused) => {},
            Clearance::Granted { user, channel_id } => {
                if self.admin.get_role(channel_id, user.id)
                    != crate::protocol::permissions::Role::SuperAdmin {
                    self.tell_changes_queue_only(
                        session.client_id,
                        ServerMessageModel::AdminError {
                            meta: self.meta(now),
                            reason: "Only SuperAdmin can delete channels"@,
                        },
                    );
                } else {
                    let members = self.channels.members(channel);
                    let notice = ServerMessageModel::ChannelDeleted {
                        meta: self.meta(now),
                        channel,
                        deleted_by: user.username,
                    };
                    self.broadcast_reaches_members(channel, notice);
                    let sent = self.broadcast(members, notice);
                    sent.released_clears_members(members, channel);
                    let told = sent.released(members, channel);
                    told.channels.delete_channel_keeps_wf(channel);
                    let after = self.after_delete_channel(session, channel, now);
                    self.routing_decides_consistency(sent);
                    assert forall|id: ClientId| self.channels.is_member(id, channel) implies (
                    #[trigger] after.registry.channel(id)) is None by {
                        assert(self.channels.is_member(id, channel) <==> self.registry.channel(id)
                            == Some(channel));
                        assert(sent.registry.channel(id) == self.registry.channel(id));
                    }
                    assert(after.registry.outbox == self.registry.outbox + Self::one_each(
                        members,
                        notice,
                    ));
                }
            },
        }
    }

    /// In every well-formed state a channel holds at most 100 messages.
    pub proof fn history_is_bounded(self, name: Seq<char>)
        requires
            self.wf(),
            self.channels.has(name),
        ensures
            self.channels.channel(name).messages.len() <= MAX_CHANNEL_MESSAGES,
    {
        let k = self.channels.index(name);
        assert(self.channels.channels[k].wf(self.channels.next_message_id));
    }

    /// In every well-formed state, of two messages of a channel the later
    /// one has the greater id; where the stamps are in order, it also has
    /// the later or the same stamp.
    pub proof fn history_is_ordered(self, name: Seq<char>, i: int, j: int)
        requires
            self.wf(),
            self.channels.has(name),
            0 <= i < j < self.channels.channel(name).messages.len(),
        ensures
            self.channels.channel(name).messages[i].id < self.channels.channel(name).messages[j].id,
            self.channels.time_ordered() ==> self.channels.channel(
                name,
            ).messages[j].timestamp.not_before(self.channels.channel(name).messages[i].timestamp),
    {
        let k = self.channels.index(name);
        assert(self.channels.channels[k].wf(self.channels.next_message_id));
        if self.channels.time_ordered() {
            assert(self.channels.channels[k].time_ordered());
        }
    }

    /// A session never falls back in the admission sequence, and it reaches
    /// a stage only by the message that leads there: the special key by a
    /// matching `Auth`, the key exchange by an `EcdhPublicKey` after the
    /// special key, a user by a `RegisterUser` or `Login` after the special
    /// key.
    pub proof fn admission_never_regresses(
        self,
        session: Session,
        message: ClientMessageModel,
        outside: OutsideModel,
    )
        ensures
            self.session_after(session, message, outside).not_behind(session),
            self.session_after(session, message, outside).special_authed && !session.special_authed
                ==> message is Auth,
            self.session_after(session, message, outside).ecdh_complete && !session.ecdh_complete
                ==> message is EcdhPublicKey && session.special_authed,
            self.session_after(session, message, outside).user_authed && !session.user_authed ==> (
            message is RegisterUser || message is Login) && session.special_authed,
    {
    }

    /// Until a user is bound to the session, the commands that route
    /// messages or moderate channels change nothing but the queue, where
    /// they leave one `ProtocolError` for the sender.
    pub proof fn commands_wait_for_admission(
        self,
        session: Session,
        message: ClientMessageModel,
        now: Timestamp,
        outside: OutsideModel,
    )
        requires
            !session.user_authed,
            !(message is Connect || message is Auth || message is EcdhPublicKey || message
                is RegisterUser || message is Login || message is Disconnect),
        ensures
            self.step(session, message, now, outside) == self.protocol_error(
                session.client_id,
                "login/register required"@,
                now,
            ),
            self.session_after(session, message, outside) == session,
    {
    }
}

} // verus!
