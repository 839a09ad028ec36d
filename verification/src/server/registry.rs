//! The routing table: which connections are live, who is bound to each,
//! which channel each is in, and what is queued for delivery.
//!
//! Connections are kept in the order they registered and the queue in the
//! order it was filled: a broadcast reaches its receivers in an order that
//! the contracts state, which the walk of a hash map could not give.

use vstd::prelude::*;
use crate::protocol::messages::{ServerMessage, ServerMessageModel, UserId, UserInfo, UserInfoModel};
use crate::keyed::{index_of_unique, push_keeps_distinct, remove_keeps_distinct};
use crate::server::channel::ClientId;

verus! {

/// One live connection.
#[derive(Debug)]
pub struct ClientHandle {
    pub id: ClientId,
    pub user: Option<UserInfo>,
    pub current_channel: Option<String>,
}

/// The model of a [`ClientHandle`].
pub struct ClientHandleModel {
    pub id: ClientId,
    pub user: Option<UserInfoModel>,
    pub current_channel: Option<Seq<char>>,
}

impl View for ClientHandle {
    type V = ClientHandleModel;

    open spec fn view(&self) -> ClientHandleModel {
        ClientHandleModel {
            id: self.id,
            user: self.user.deep_view(),
            current_channel: self.current_channel.deep_view(),
        }
    }
}

impl DeepView for ClientHandle {
    type V = ClientHandleModel;

    open spec fn deep_view(&self) -> ClientHandleModel {
        self@
    }
}

/// A message on its way to one connection.
#[derive(Debug)]
pub struct Outbound {
    pub to: ClientId,
    pub message: ServerMessage,
}

/// The model of an [`Outbound`].
pub struct OutboundModel {
    pub to: ClientId,
    pub message: ServerMessageModel,
}

impl View for Outbound {
    type V = OutboundModel;

    open spec fn view(&self) -> OutboundModel {
        OutboundModel { to: self.to, message: self.message@ }
    }
}

impl DeepView for Outbound {
    type V = OutboundModel;

    open spec fn deep_view(&self) -> OutboundModel {
        self@
    }
}

/// The model of a [`Registry`]: the connections in the order they were
/// registered, and the queued messages in the order they were sent.
pub struct RegistryModel {
    pub clients: Seq<ClientHandleModel>,
    pub outbox: Seq<OutboundModel>,
}

impl RegistryModel {
    /// The connection ids, in registration order.
    pub open spec fn ids(self) -> Seq<ClientId> {
        Seq::new(self.clients.len(), |i: int| self.clients[i].id)
    }

    /// No connection id is registered twice.
    pub open spec fn wf(self) -> bool {
        self.ids().no_duplicates()
    }

    pub open spec fn is_registered(self, id: ClientId) -> bool {
        self.ids().contains(id)
    }

    /// The handle registered under `id`.
    pub open spec fn handle(self, id: ClientId) -> ClientHandleModel
        recommends
            self.is_registered(id),
    {
        self.clients[self.ids().index_of(id)]
    }

    pub open spec fn user(self, id: ClientId) -> Option<UserInfoModel> {
        if self.is_registered(id) {
            self.handle(id).user
        } else {
            None
        }
    }

    pub open spec fn channel(self, id: ClientId) -> Option<Seq<char>> {
        if self.is_registered(id) {
            self.handle(id).current_channel
        } else {
            None
        }
    }

    /// A fresh handle under `id`, in place of any earlier one.
    pub open spec fn register(self, id: ClientId) -> RegistryModel {
        let fresh = ClientHandleModel { id, user: None, current_channel: None };
        if self.is_registered(id) {
            RegistryModel { clients: self.clients.update(self.ids().index_of(id), fresh), ..self }
        } else {
            RegistryModel { clients: self.clients.push(fresh), ..self }
        }
    }

    pub open spec fn set_user(self, id: ClientId, user: UserInfoModel) -> RegistryModel {
        if self.is_registered(id) {
            RegistryModel {
                clients: self.clients.update(
                    self.ids().index_of(id),
                    ClientHandleModel { user: Some(user), ..self.handle(id) },
                ),
                ..self
            }
        } else {
            self
        }
    }

    pub open spec fn set_channel(self, id: ClientId, channel: Option<Seq<char>>) -> RegistryModel {
        if self.is_registered(id) {
            RegistryModel {
                clients: self.clients.update(
                    self.ids().index_of(id),
                    ClientHandleModel { current_channel: channel, ..self.handle(id) },
                ),
                ..self
            }
        } else {
            self
        }
    }

    pub open spec fn remove(self, id: ClientId) -> RegistryModel {
        if self.is_registered(id) {
            RegistryModel { clients: self.clients.remove(self.ids().index_of(id)), ..self }
        } else {
            self
        }
    }

    /// Queues `message` for `id`; a message for an unknown id is dropped.
    pub open spec fn send(self, id: ClientId, message: ServerMessageModel) -> RegistryModel {
        if self.is_registered(id) {
            RegistryModel { outbox: self.outbox.push(OutboundModel { to: id, message }), ..self }
        } else {
            self
        }
    }

    /// Queues one copy of `message` for each of `ids`, in their order.
    pub open spec fn send_many(
        self,
        ids: Seq<ClientId>,
        message: ServerMessageModel,
    ) -> RegistryModel
        decreases ids.len(),
    {
        if ids.len() == 0 {
            self
        } else {
            self.send_many(ids.drop_last(), message).send(ids.last(), message)
        }
    }

    /// Among the first `n` connections, those bound to the user `user_id`.
    pub open spec fn clients_of_user_among(self, user_id: UserId, n: nat) -> Seq<ClientId>
        decreases n,
    {
        if n == 0 || n > self.clients.len() {
            Seq::empty()
        } else {
            let earlier = self.clients_of_user_among(user_id, (n - 1) as nat);
            let c = self.clients[n - 1];
            if c.user is Some && c.user->0.id == user_id {
                earlier.push(c.id)
            } else {
                earlier
            }
        }
    }

    /// The connections bound to the user `user_id`, in registration order.
    pub open spec fn clients_of_user(self, user_id: UserId) -> Seq<ClientId> {
        self.clients_of_user_among(user_id, self.clients.len())
    }

    /// The registry with its queue emptied.
    pub open spec fn drained(self) -> RegistryModel {
        RegistryModel { outbox: Seq::empty(), ..self }
    }

    /// Registering a connection leaves it without user and channel and
    /// every other connection as it was.
    pub proof fn register_keeps_wf(self, id: ClientId)
        requires
            self.wf(),
        ensures
            self.register(id).wf(),
            self.register(id).is_registered(id),
            self.register(id).channel(id) is None,
            self.register(id).user(id) is None,
            self.register(id).outbox == self.outbox,
            forall|other: ClientId|
                other != id ==> (#[trigger] self.register(id).is_registered(other)
                    <==> self.is_registered(other)),
            forall|other: ClientId|
                other != id ==> #[trigger] self.register(id).channel(other) == self.channel(other),
            forall|other: ClientId|
                other != id ==> #[trigger] self.register(id).user(other) == self.user(other),
    {
        let after = self.register(id);
        if self.is_registered(id) {
            assert(after.ids() =~= self.ids());
        } else {
            assert(after.ids() =~= self.ids().push(id));
            push_keeps_distinct(self.ids(), id);
        }
        assert forall|other: ClientId| other != id implies (#[trigger] after.channel(other))
            == self.channel(other) && after.user(other) == self.user(other) by {
            if self.is_registered(other) {
                assert(self.ids().contains(other));
            }
        }
    }

    /// Binding a user changes that connection's user and nothing else.
    pub proof fn set_user_keeps_wf(self, id: ClientId, user: UserInfoModel)
        requires
            self.wf(),
        ensures
            self.set_user(id, user).wf(),
            self.set_user(id, user).ids() == self.ids(),
            self.set_user(id, user).outbox == self.outbox,
            forall|other: ClientId|
                #[trigger] self.set_user(id, user).channel(other) == self.channel(other),
            self.is_registered(id) ==> self.set_user(id, user).user(id) == Some(user),
            forall|other: ClientId|
                other != id ==> #[trigger] self.set_user(id, user).user(other) == self.user(other),
    {
        let after = self.set_user(id, user);
        assert(after.ids() =~= self.ids());
    }

    /// Setting a connection's channel changes that connection's channel and
    /// nothing else.
    pub proof fn set_channel_keeps_wf(self, id: ClientId, channel: Option<Seq<char>>)
        requires
            self.wf(),
        ensures
            self.set_channel(id, channel).wf(),
            self.set_channel(id, channel).ids() == self.ids(),
            self.set_channel(id, channel).outbox == self.outbox,
            self.is_registered(id) ==> self.set_channel(id, channel).channel(id) == channel,
            !self.is_registered(id) ==> self.set_channel(id, channel) == self,
            forall|other: ClientId|
                other != id ==> #[trigger] self.set_channel(id, channel).channel(other)
                    == self.channel(other),
            forall|other: ClientId|
                #[trigger] self.set_channel(id, channel).user(other) == self.user(other),
    {
        let after = self.set_channel(id, channel);
        assert(after.ids() =~= self.ids());
    }

    /// Removing a connection leaves every other connection as it was.
    pub proof fn remove_keeps_wf(self, id: ClientId)
        requires
            self.wf(),
        ensures
            self.remove(id).wf(),
            !self.remove(id).is_registered(id),
            self.remove(id).channel(id) is None,
            self.remove(id).outbox == self.outbox,
            forall|other: ClientId|
                other != id ==> (#[trigger] self.remove(id).is_registered(other)
                    <==> self.is_registered(other)),
            forall|other: ClientId|
                other != id ==> #[trigger] self.remove(id).channel(other) == self.channel(other),
            forall|other: ClientId|
                other != id ==> #[trigger] self.remove(id).user(other) == self.user(other),
    {
        if self.is_registered(id) {
            let i = self.ids().index_of(id);
            let after = self.remove(id);
            assert(after.ids() =~= self.ids().remove(i));
            remove_keeps_distinct(self.ids(), i);
            assert forall|other: ClientId| other != id implies (#[trigger] after.channel(other))
                == self.channel(other) && after.user(other) == self.user(other) by {
                if self.is_registered(other) {
                    assert(after.ids().contains(other));
                    let k = after.ids().index_of(other);
                }
            }
        }
    }

    /// Every registered connection of a user is among the connections found
    /// for that user, and no other connection is.
    pub proof fn clients_of_user_is_exact(self, user_id: UserId, id: ClientId)
        requires
            self.wf(),
        ensures
            self.clients_of_user(user_id).contains(id) <==> (self.user(id) matches Some(u) && u.id
                == user_id),
    {
        self.clients_among_is_exact(user_id, id, self.clients.len());
        if self.is_registered(id) {
            assert(self.ids()[self.ids().index_of(id)] == id);
        }
        if self.clients_of_user(user_id).contains(id) {
            let k = choose|k: int|
                0 <= k < self.clients.len() && self.clients[k].id == id && self.clients[k].user
                    is Some && self.clients[k].user->0.id == user_id;
            assert(self.ids()[k] == id);
            index_of_unique(self.ids(), k);
        }
    }

    pub proof fn clients_among_is_exact(self, user_id: UserId, id: ClientId, n: nat)
        requires
            n <= self.clients.len(),
        ensures
            self.clients_of_user_among(user_id, n).contains(id) <==> exists|k: int|
                0 <= k < n && self.clients[k].id == id && self.clients[k].user is Some
                    && self.clients[k].user->0.id == user_id,
        decreases n,
    {
        if n > 0 {
            let m = (n - 1) as nat;
            self.clients_among_is_exact(user_id, id, m);
            let earlier = self.clients_of_user_among(user_id, m);
            let all = self.clients_of_user_among(user_id, n);
            let c = self.clients[n - 1];
            let bound = c.user is Some && c.user->0.id == user_id;
            if all.contains(id) {
                let j = all.index_of(id);
                if j < earlier.len() {
                    assert(earlier[j] == id);
                    assert(earlier.contains(id));
                } else {
                    assert(bound && c.id == id);
                }
            }
            if exists|k: int|
                0 <= k < n && self.clients[k].id == id && self.clients[k].user is Some
                    && self.clients[k].user->0.id == user_id {
                let k = choose|k: int|
                    0 <= k < n && self.clients[k].id == id && self.clients[k].user is Some
                        && self.clients[k].user->0.id == user_id;
                if k < m {
                    assert(earlier.contains(id));
                    let j = earlier.index_of(id);
                    assert(all[j] == id);
                } else {
                    assert(all[earlier.len() as int] == id);
                }
            }
        }
    }

    /// Sending changes the queue only.
    pub proof fn send_many_keeps_clients(self, ids: Seq<ClientId>, message: ServerMessageModel)
        ensures
            self.send_many(ids, message).clients == self.clients,
            self.send_many(ids, message).outbox.len() >= self.outbox.len(),
            self.send_many(ids, message).outbox.subrange(0, self.outbox.len() as int)
                == self.outbox,
        decreases ids.len(),
    {
        if ids.len() > 0 {
            self.send_many_keeps_clients(ids.drop_last(), message);
            let before = self.send_many(ids.drop_last(), message);
            assert(before.send(ids.last(), message).outbox.subrange(0, self.outbox.len() as int)
                =~= before.outbox.subrange(0, self.outbox.len() as int));
        } else {
            assert(self.outbox.subrange(0, self.outbox.len() as int) =~= self.outbox);
        }
    }
}

/// The relay's routing table.
#[derive(Debug)]
pub struct Registry {
    clients: Vec<ClientHandle>,
    outbox: Vec<Outbound>,
}

impl View for Registry {
    type V = RegistryModel;

    closed spec fn view(&self) -> RegistryModel {
        RegistryModel { clients: self.clients.deep_view(), outbox: self.outbox.deep_view() }
    }
}

impl Registry {
    /// The invariant of a registry: no id is registered twice.
    pub open spec fn wf(&self) -> bool {
        self@.wf()
    }

    pub fn new() -> (r: Self)
        ensures
            r.wf(),
            r@.clients.len() == 0,
            r@.outbox.len() == 0,
    {
        let r = Self { clients: Vec::new(), outbox: Vec::new() };
        assert(r@.ids() =~= Seq::empty());
        r
    }

    /// Whether the registry is well formed.
    pub fn is_wf(&self) -> (ok: bool)
        ensures
            ok == self.wf(),
    {
        let mut i: usize = 0;
        while i < self.clients.len()
            invariant
                i <= self.clients.len(),
                forall|a: int, b: int| 0 <= a < b < i ==> self@.ids()[a] != self@.ids()[b],
            decreases self.clients.len() - i,
        {
            let mut j: usize = 0;
            while j < i
                invariant
                    j <= i < self.clients.len(),
                    forall|a: int| 0 <= a < j ==> self@.ids()[a] != self@.ids()[i as int],
                decreases i - j,
            {
                if self.clients[j].id == self.clients[i].id {
                    assert(self@.ids()[j as int] == self@.ids()[i as int]);
                    return false;
                }
                j += 1;
            }
            i += 1;
        }
        true
    }

    /// The registered connections in registration order, each with its
    /// current channel.
    pub fn connections(&self) -> (list: Vec<(ClientId, Option<String>)>)
        ensures
            list@.len() == self@.clients.len(),
            forall|i: int|
                0 <= i < list@.len() ==> (#[trigger] list@[i]).0 == self@.clients[i].id
                    && list@[i].1.deep_view() == self@.clients[i].current_channel,
    {
        let mut list: Vec<(ClientId, Option<String>)> = Vec::new();
        let mut i: usize = 0;
        while i < self.clients.len()
            invariant
                i <= self.clients.len(),
                list@.len() == i,
                forall|k: int|
                    0 <= k < i ==> (#[trigger] list@[k]).0 == self@.clients[k].id
                        && list@[k].1.deep_view() == self@.clients[k].current_channel,
            decreases self.clients.len() - i,
        {
            assert(self@.clients[i as int] == self.clients[i as int]@);
            list.push((self.clients[i].id, self.clients[i].current_channel.clone()));
            i += 1;
        }
        list
    }

    fn position(&self, id: ClientId) -> (r: Option<usize>)
        requires
            self.wf(),
        ensures
            match r {
                Some(i) => self@.is_registered(id) && self@.ids().index_of(id) == i && i
                    < self.clients.len() && self.clients[i as int].id == id,
                None => !self@.is_registered(id),
            },
    {
        let mut i: usize = 0;
        while i < self.clients.len()
            invariant
                self.wf(),
                i <= self.clients.len(),
                forall|k: int| 0 <= k < i ==> self@.ids()[k] != id,
            decreases self.clients.len() - i,
        {
            if self.clients[i].id == id {
                proof {
                    index_of_unique(self@.ids(), i as int);
                }
                return Some(i);
            }
            i += 1;
        }
        None
    }

    pub fn is_registered(&self, id: ClientId) -> (r: bool)
        requires
            self.wf(),
        ensures
            r == self@.is_registered(id),
    {
        self.position(id).is_some()
    }

    /// Registers the connection `id` afresh: no user, no channel.
    pub fn register(&mut self, id: ClientId)
        requires
            old(self).wf(),
        ensures
            final(self).wf(),
            final(self)@ == old(self)@.register(id),
    {
        let fresh = ClientHandle { id, user: None, current_channel: None };
        match self.position(id) {
            Some(i) => {
                self.clients[i] = fresh;
                assert(self@.clients =~= old(self)@.clients.update(i as int, fresh@));
                assert(self@.ids() =~= old(self)@.ids());
            },
            None => {
                self.clients.push(fresh);
                assert(self@.clients =~= old(self)@.clients.push(fresh@));
                assert(self@.ids() =~= old(self)@.ids().push(id));
            },
        }
    }

    pub fn set_user(&mut self, id: ClientId, user: UserInfo)
        requires
            old(self).wf(),
        ensures
            final(self).wf(),
            final(self)@ == old(self)@.set_user(id, user@),
    {
        match self.position(id) {
            Some(i) => {
                self.clients[i].user = Some(user);
                assert(self@.clients =~= old(self)@.set_user(id, user@).clients);
                assert(self@.ids() =~= old(self)@.ids());
            },
            None => {},
        }
    }

    pub fn user(&self, id: ClientId) -> (r: Option<UserInfo>)
        requires
            self.wf(),
        ensures
            r.deep_view() == self@.user(id),
    {
        match self.position(id) {
            Some(i) => self.clients[i].user.clone(),
            None => None,
        }
    }

    pub fn set_channel(&mut self, id: ClientId, channel: Option<String>)
        requires
            old(self).wf(),
        ensures
            final(self).wf(),
            final(self)@ == old(self)@.set_channel(id, channel.deep_view()),
    {
        match self.position(id) {
            Some(i) => {
                self.clients[i].current_channel = channel;
                assert(self@.clients =~= old(self)@.set_channel(id, channel.deep_view()).clients);
                assert(self@.ids() =~= old(self)@.ids());
            },
            None => {},
        }
    }

    pub fn channel(&self, id: ClientId) -> (r: Option<String>)
        requires
            self.wf(),
        ensures
            r.deep_view() == self@.channel(id),
    {
        match self.position(id) {
            Some(i) => self.clients[i].current_channel.clone(),
            None => None,
        }
    }

    pub fn remove(&mut self, id: ClientId)
        requires
            old(self).wf(),
        ensures
            final(self).wf(),
            final(self)@ == old(self)@.remove(id),
            !final(self)@.is_registered(id),
    {
        match self.position(id) {
            Some(i) => {
                self.clients.remove(i);
                assert(self@.clients =~= old(self)@.clients.remove(i as int));
                assert(self@.ids() =~= old(self)@.ids().remove(i as int));
                proof {
                    remove_keeps_distinct(old(self)@.ids(), i as int);
                }
            },
            None => {},
        }
    }

    /// Queues `message` for the connection `id`, or drops it where `id` is
    /// not registered.
    pub fn send(&mut self, id: ClientId, message: ServerMessage)
        requires
            old(self).wf(),
        ensures
            final(self).wf(),
            final(self)@ == old(self)@.send(id, message@),
    {
        if self.position(id).is_some() {
            let entry = Outbound { to: id, message };
            self.outbox.push(entry);
            assert(self@.outbox =~= old(self)@.outbox.push(entry@));
            assert(self@.clients =~= old(self)@.clients);
        }
    }

    /// Queues a copy of `message` for each of `ids`.
    pub fn send_many(&mut self, ids: &[ClientId], message: &ServerMessage)
        requires
            old(self).wf(),
        ensures
            final(self).wf(),
            final(self)@ == old(self)@.send_many(ids@, message@),
    {
        let mut i: usize = 0;
        assert(ids@.subrange(0, 0) =~= Seq::empty());
        while i < ids.len()
            invariant
                i <= ids.len(),
                self.wf(),
                self@ == old(self)@.send_many(ids@.subrange(0, i as int), message@),
            decreases ids.len() - i,
        {
            self.send(ids[i], message.clone());
            proof {
                let next = ids@.subrange(0, i + 1);
                assert(next.drop_last() =~= ids@.subrange(0, i as int));
                assert(next.last() == ids@[i as int]);
            }
            i += 1;
        }
        assert(ids@.subrange(0, ids@.len() as int) =~= ids@);
    }

    /// The connections on which the user `user_id` is logged in.
    pub fn find_clients_by_user_id(&self, user_id: UserId) -> (found: Vec<ClientId>)
        requires
            self.wf(),
        ensures
            found@ == self@.clients_of_user(user_id),
    {
        let mut found: Vec<ClientId> = Vec::new();
        let mut i: usize = 0;
        while i < self.clients.len()
            invariant
                i <= self.clients.len(),
                found@ == self@.clients_of_user_among(user_id, i as nat),
            decreases self.clients.len() - i,
        {
            let bound = match &self.clients[i].user {
                Some(user) => user.id == user_id,
                None => false,
            };
            if bound {
                found.push(self.clients[i].id);
            }
            i += 1;
        }
        found
    }

    /// Hands over everything queued so far, oldest first, and empties the
    /// queue.
    pub fn take_outbox(&mut self) -> (queued: Vec<Outbound>)
        requires
            old(self).wf(),
        ensures
            final(self).wf(),
            queued.deep_view() == old(self)@.outbox,
            queued@.len() == old(self)@.outbox.len(),
            forall|i: int|
                0 <= i < queued@.len() ==> (#[trigger] queued@[i])@ == old(self)@.outbox[i],
            final(self)@ == old(self)@.drained(),
    {
        let mut queued: Vec<Outbound> = Vec::new();
        std::mem::swap(&mut queued, &mut self.outbox);
        assert(self@.outbox =~= Seq::empty());
        assert forall|i: int| 0 <= i < queued@.len() implies (#[trigger] queued@[i])@ == old(self)@.outbox[i] by {
            assert(queued.deep_view()[i] == queued@[i]@);
        }
        queued
    }
}

} // verus!
