//! Channel-scoped authority: who holds which role, what kind each channel
//! is, and the moderation log of each.
//!
//! The records are only ever looked up by channel, so they live in a hash
//! map. Within a record, roles are kept in the order they were first
//! assigned, which is the order in which the admins of a channel are listed.

use std::collections::HashMap;
use vstd::prelude::*;
use vstd::std_specs::hash::group_hash_axioms;
use vstd::std_specs::iter::IteratorSpec;
use crate::keyed::{index_of_unique, push_keeps_distinct};
use crate::protocol::channel::ChannelType;
use crate::protocol::messages::{
    AdminInfo,
    AdminInfoModel,
    ChannelId,
    LogEntry,
    LogEntryModel,
    UserId,
};
use crate::protocol::permissions::{has_permission, Permission, Role};
use crate::time::Timestamp;

verus! {

/// The most log entries kept for one channel.
pub const MAX_LOG_ENTRIES: usize = 1000;

/// One user's role in one channel.
#[derive(Clone, Copy, Debug, PartialEq, Eq, Structural)]
pub struct RoleAssignment {
    pub user_id: UserId,
    pub role: Role,
}

/// The name listed for `user_id` among the first `n` entries of `directory`:
/// that of the earliest entry with this id.
pub open spec fn name_among(directory: Seq<(UserId, Seq<char>)>, user_id: UserId, n: nat) -> Option<
    Seq<char>,
>
    decreases n,
{
    if n == 0 || n > directory.len() {
        None
    } else {
        match name_among(directory, user_id, (n - 1) as nat) {
            Some(name) => Some(name),
            None => if directory[n - 1].0 == user_id {
                Some(directory[n - 1].1)
            } else {
                None
            },
        }
    }
}

/// The name that `directory` lists for `user_id`.
pub open spec fn name_in(directory: Seq<(UserId, Seq<char>)>, user_id: UserId) -> Option<
    Seq<char>,
> {
    name_among(directory, user_id, directory.len())
}

/// The authority state of one channel.
#[derive(Debug)]
pub struct ChannelAdmin {
    pub channel_id: ChannelId,
    pub roles: Vec<RoleAssignment>,
    pub channel_type: Option<ChannelType>,
    pub log: Vec<LogEntry>,
}

/// The model of a [`ChannelAdmin`].
pub struct ChannelAdminModel {
    pub channel_id: ChannelId,
    pub roles: Seq<RoleAssignment>,
    pub channel_type: Option<ChannelType>,
    pub log: Seq<LogEntryModel>,
}

impl View for ChannelAdmin {
    type V = ChannelAdminModel;

    open spec fn view(&self) -> ChannelAdminModel {
        ChannelAdminModel {
            channel_id: self.channel_id,
            roles: self.roles@,
            channel_type: self.channel_type,
            log: self.log.deep_view(),
        }
    }
}

impl DeepView for ChannelAdmin {
    type V = ChannelAdminModel;

    open spec fn deep_view(&self) -> ChannelAdminModel {
        self@
    }
}

impl ChannelAdminModel {
    /// The state of a channel nobody has touched yet.
    pub open spec fn untouched(channel_id: ChannelId) -> ChannelAdminModel {
        ChannelAdminModel {
            channel_id,
            roles: Seq::empty(),
            channel_type: None,
            log: Seq::empty(),
        }
    }

    /// The users with an assignment, in order of assignment.
    pub open spec fn users(self) -> Seq<UserId> {
        Seq::new(self.roles.len(), |i: int| self.roles[i].user_id)
    }

    pub open spec fn wf(self) -> bool {
        &&& self.users().no_duplicates()
        &&& self.log.len() <= MAX_LOG_ENTRIES
    }

    /// The role of `user_id`: the one assigned, else `User`.
    pub open spec fn role_of(self, user_id: UserId) -> Role {
        if self.users().contains(user_id) {
            self.roles[self.users().index_of(user_id)].role
        } else {
            Role::User
        }
    }

    pub open spec fn with_role(self, user_id: UserId, role: Role) -> ChannelAdminModel {
        let assignment = RoleAssignment { user_id, role };
        if self.users().contains(user_id) {
            ChannelAdminModel {
                roles: self.roles.update(self.users().index_of(user_id), assignment),
                ..self
            }
        } else {
            ChannelAdminModel { roles: self.roles.push(assignment), ..self }
        }
    }

    /// The kind of the channel: the one set, else `Public`.
    pub open spec fn kind(self) -> ChannelType {
        match self.channel_type {
            Some(t) => t,
            None => ChannelType::Public,
        }
    }

    /// Whether a user with `role` may send into a channel of kind `kind`.
    pub open spec fn may_send(kind: ChannelType, role: Role) -> bool {
        match kind {
            ChannelType::Public | ChannelType::Private => role.grants(Permission::SendMessage),
            ChannelType::AdminOnly | ChannelType::ReadOnly => role.spec_rank()
                >= Role::Admin.spec_rank(),
            ChannelType::Announcement => role.spec_rank() >= Role::SuperAdmin.spec_rank(),
        }
    }

    /// The log after `entry` was appended: the newest 1000 entries.
    pub open spec fn logged(self, entry: LogEntryModel) -> ChannelAdminModel {
        let all = self.log.push(entry);
        ChannelAdminModel {
            log: if all.len() > MAX_LOG_ENTRIES {
                all.subrange(all.len() - MAX_LOG_ENTRIES, all.len() as int)
            } else {
                all
            },
            ..self
        }
    }

    /// The newest `limit` log entries, newest first.
    pub open spec fn recent(self, limit: nat) -> Seq<LogEntryModel> {
        Seq::new(
            if limit < self.log.len() {
                limit
            } else {
                self.log.len()
            },
            |i: int| self.log[self.log.len() - 1 - i],
        )
    }

    /// Among the first `n` assignments, those of Moderator rank or above
    /// whose user `directory` knows, each with the name listed there.
    pub open spec fn admins_among(self, directory: Seq<(UserId, Seq<char>)>, n: nat) -> Seq<
        AdminInfoModel,
    >
        decreases n,
    {
        if n == 0 || n > self.roles.len() {
            Seq::empty()
        } else {
            let earlier = self.admins_among(directory, (n - 1) as nat);
            let a = self.roles[n - 1];
            if a.role.spec_rank() >= Role::Moderator.spec_rank() && name_in(directory, a.user_id)
                is Some {
                earlier.push(
                    AdminInfoModel {
                        user_id: a.user_id,
                        username: name_in(directory, a.user_id)->0,
                        role: a.role,
                    },
                )
            } else {
                earlier
            }
        }
    }

    pub proof fn with_role_keeps_wf(self, user_id: UserId, role: Role)
        requires
            self.wf(),
        ensures
            self.with_role(user_id, role).wf(),
            self.with_role(user_id, role).role_of(user_id) == role,
            forall|other: UserId|
                other != user_id ==> #[trigger] self.with_role(user_id, role).role_of(other)
                    == self.role_of(other),
    {
        let after = self.with_role(user_id, role);
        if self.users().contains(user_id) {
            let i = self.users().index_of(user_id);
            assert(after.users() =~= self.users());
        } else {
            assert(after.users() =~= self.users().push(user_id));
            push_keeps_distinct(self.users(), user_id);
        }
    }
}

/// The model of an [`AdminManager`]: one record for each channel that has
/// been given a role, a kind or a log entry.
pub struct AdminModel {
    pub channels: Map<ChannelId, ChannelAdminModel>,
}

impl AdminModel {
    /// Every record is well formed and is kept under its own channel.
    pub open spec fn wf(self) -> bool {
        forall|id: ChannelId|
            self.channels.contains_key(id) ==> (#[trigger] self.channels[id]).wf()
                && self.channels[id].channel_id == id
    }

    pub open spec fn has(self, channel_id: ChannelId) -> bool {
        self.channels.contains_key(channel_id)
    }

    /// The record of `channel_id`, or the untouched state where none is kept.
    pub open spec fn entry(self, channel_id: ChannelId) -> ChannelAdminModel {
        if self.has(channel_id) {
            self.channels[channel_id]
        } else {
            ChannelAdminModel::untouched(channel_id)
        }
    }

    /// The records with that of `entry.channel_id` set to `entry`.
    pub open spec fn with_entry(self, entry: ChannelAdminModel) -> AdminModel {
        AdminModel { channels: self.channels.insert(entry.channel_id, entry) }
    }

    pub open spec fn get_role(self, channel_id: ChannelId, user_id: UserId) -> Role {
        self.entry(channel_id).role_of(user_id)
    }

    pub open spec fn set_role(
        self,
        channel_id: ChannelId,
        user_id: UserId,
        role: Role,
    ) -> AdminModel {
        self.with_entry(self.entry(channel_id).with_role(user_id, role))
    }

    pub open spec fn has_permission(
        self,
        channel_id: ChannelId,
        user_id: UserId,
        permission: Permission,
    ) -> bool {
        self.get_role(channel_id, user_id).grants(permission)
    }

    pub open spec fn get_channel_type(self, channel_id: ChannelId) -> ChannelType {
        self.entry(channel_id).kind()
    }

    pub open spec fn set_channel_type(
        self,
        channel_id: ChannelId,
        kind: ChannelType,
    ) -> AdminModel {
        self.with_entry(ChannelAdminModel { channel_type: Some(kind), ..self.entry(channel_id) })
    }

    pub open spec fn can_send_message(self, channel_id: ChannelId, user_id: UserId) -> bool {
        ChannelAdminModel::may_send(
            self.get_channel_type(channel_id),
            self.get_role(channel_id, user_id),
        )
    }

    pub open spec fn list_admins(
        self,
        channel_id: ChannelId,
        directory: Seq<(UserId, Seq<char>)>,
    ) -> Seq<AdminInfoModel> {
        self.entry(channel_id).admins_among(directory, self.entry(channel_id).roles.len())
    }

    pub open spec fn log_action(self, channel_id: ChannelId, entry: LogEntryModel) -> AdminModel {
        self.with_entry(self.entry(channel_id).logged(entry))
    }

    pub open spec fn get_logs(self, channel_id: ChannelId, limit: nat) -> Seq<LogEntryModel> {
        self.entry(channel_id).recent(limit)
    }

    pub open spec fn remove_channel(self, channel_id: ChannelId) -> AdminModel {
        AdminModel { channels: self.channels.remove(channel_id) }
    }

    /// Replacing one channel's record leaves every other channel's record as
    /// it was.
    pub proof fn with_entry_keeps_wf(self, entry: ChannelAdminModel)
        requires
            self.wf(),
            entry.wf(),
        ensures
            self.with_entry(entry).wf(),
            self.with_entry(entry).has(entry.channel_id),
            self.with_entry(entry).entry(entry.channel_id) == entry,
            forall|other: ChannelId|
                other != entry.channel_id ==> #[trigger] self.with_entry(entry).entry(other)
                    == self.entry(other),
    {
    }

    /// A permission check answers yes exactly if the permission is among
    /// the default permissions of the user's role in the channel.
    pub proof fn permission_follows_role(
        self,
        channel_id: ChannelId,
        user_id: UserId,
        permission: Permission,
    )
        ensures
            self.has_permission(channel_id, user_id, permission) <==> self.get_role(
                channel_id,
                user_id,
            ).spec_default_permissions().contains(permission),
    {
    }

    /// The record of a channel is well formed whether it is kept or not.
    pub proof fn entry_is_wf(self, channel_id: ChannelId)
        requires
            self.wf(),
        ensures
            self.entry(channel_id).wf(),
            self.entry(channel_id).channel_id == channel_id,
    {
        if !self.has(channel_id) {
            assert(ChannelAdminModel::untouched(channel_id).users() =~= Seq::empty());
        }
    }

    /// Assigning a role changes that one user's role in that one channel.
    pub proof fn set_role_keeps_wf(self, channel_id: ChannelId, user_id: UserId, role: Role)
        requires
            self.wf(),
        ensures
            self.set_role(channel_id, user_id, role).wf(),
            self.set_role(channel_id, user_id, role).get_role(channel_id, user_id) == role,
            forall|c: ChannelId, u: UserId|
                (c != channel_id || u != user_id) ==> #[trigger] self.set_role(
                    channel_id,
                    user_id,
                    role,
                ).get_role(c, u) == self.get_role(c, u),
            forall|c: ChannelId|
                #[trigger] self.set_role(channel_id, user_id, role).get_channel_type(c)
                    == self.get_channel_type(c),
    {
        self.entry_is_wf(channel_id);
        let entry = self.entry(channel_id);
        entry.with_role_keeps_wf(user_id, role);
        self.with_entry_keeps_wf(entry.with_role(user_id, role));
    }

    /// Setting a channel's kind changes that one channel's kind and no role.
    pub proof fn set_channel_type_keeps_wf(self, channel_id: ChannelId, kind: ChannelType)
        requires
            self.wf(),
        ensures
            self.set_channel_type(channel_id, kind).wf(),
            self.set_channel_type(channel_id, kind).get_channel_type(channel_id) == kind,
            forall|c: ChannelId|
                c != channel_id ==> #[trigger] self.set_channel_type(
                    channel_id,
                    kind,
                ).get_channel_type(c) == self.get_channel_type(c),
            forall|c: ChannelId, u: UserId|
                #[trigger] self.set_channel_type(channel_id, kind).get_role(c, u) == self.get_role(
                    c,
                    u,
                ),
    {
        self.entry_is_wf(channel_id);
        let entry = self.entry(channel_id);
        self.with_entry_keeps_wf(ChannelAdminModel { channel_type: Some(kind), ..entry });
    }

    /// A log entry changes no role and no kind, and no log exceeds 1000
    /// entries.
    pub proof fn log_action_keeps_wf(self, channel_id: ChannelId, entry: LogEntryModel)
        requires
            self.wf(),
        ensures
            self.log_action(channel_id, entry).wf(),
            self.log_action(channel_id, entry).entry(channel_id).log.len() <= MAX_LOG_ENTRIES,
            self.log_action(channel_id, entry).entry(channel_id).log.last() == entry,
            forall|c: ChannelId, u: UserId|
                #[trigger] self.log_action(channel_id, entry).get_role(c, u) == self.get_role(c, u),
            forall|c: ChannelId|
                #[trigger] self.log_action(channel_id, entry).get_channel_type(c)
                    == self.get_channel_type(c),
    {
        self.entry_is_wf(channel_id);
        let before = self.entry(channel_id);
        assert(before.logged(entry).users() =~= before.users());
        self.with_entry_keeps_wf(before.logged(entry));
    }

    /// Dropping a channel's record resets that channel to the untouched
    /// state and leaves every other channel's record as it was.
    pub proof fn remove_channel_keeps_wf(self, channel_id: ChannelId)
        requires
            self.wf(),
        ensures
            self.remove_channel(channel_id).wf(),
            !self.remove_channel(channel_id).has(channel_id),
            forall|other: ChannelId|
                other != channel_id ==> #[trigger] self.remove_channel(channel_id).entry(other)
                    == self.entry(other),
    {
    }
}

/// The store of roles, channel kinds and moderation logs.
#[derive(Debug)]
pub struct AdminManager {
    channels: HashMap<ChannelId, ChannelAdmin>,
}

impl View for AdminManager {
    type V = AdminModel;

    closed spec fn view(&self) -> AdminModel {
        AdminModel { channels: self.channels@.map_values(|record: ChannelAdmin| record@) }
    }
}

/// The name that `directory` lists for `user_id`.
pub fn lookup_name(directory: &Vec<(UserId, String)>, user_id: UserId) -> (name: Option<String>)
    ensures
        name.deep_view() == name_in(directory.deep_view(), user_id),
{
    let mut name: Option<String> = None;
    let mut i: usize = 0;
    while i < directory.len()
        invariant
            i <= directory.len(),
            name.deep_view() == name_among(directory.deep_view(), user_id, i as nat),
        decreases directory.len() - i,
    {
        if name.is_none() && directory[i].0 == user_id {
            name = Some(directory[i].1.clone());
        }
        i += 1;
    }
    name
}

impl ChannelAdmin {
    /// Whether the record is well formed.
    pub fn is_wf(&self) -> (ok: bool)
        ensures
            ok == self@.wf(),
    {
        if self.log.len() > MAX_LOG_ENTRIES {
            return false;
        }
        let mut i: usize = 0;
        while i < self.roles.len()
            invariant
                i <= self.roles.len(),
                forall|a: int, b: int| 0 <= a < b < i ==> self@.users()[a] != self@.users()[b],
            decreases self.roles.len() - i,
        {
            let mut j: usize = 0;
            while j < i
                invariant
                    j <= i < self.roles.len(),
                    forall|a: int| 0 <= a < j ==> self@.users()[a] != self@.users()[i as int],
                decreases i - j,
            {
                if self.roles[j].user_id == self.roles[i].user_id {
                    assert(self@.users()[j as int] == self@.users()[i as int]);
                    return false;
                }
                j += 1;
            }
            i += 1;
        }
        true
    }

    /// The record of a channel nobody has touched yet.
    fn untouched(channel_id: ChannelId) -> (record: Self)
        ensures
            record@ == ChannelAdminModel::untouched(channel_id),
            record@.wf(),
    {
        let record = ChannelAdmin {
            channel_id,
            roles: Vec::new(),
            channel_type: None,
            log: Vec::new(),
        };
        assert(record@.roles =~= Seq::empty());
        assert(record@.log =~= Seq::empty());
        assert(record@.users() =~= Seq::empty());
        record
    }

    /// The role of `user_id`: the one assigned, else `User`.
    fn role_of(&self, user_id: UserId) -> (role: Role)
        requires
            self@.wf(),
        ensures
            role == self@.role_of(user_id),
    {
        let ghost entry = self@;
        let mut i: usize = 0;
        while i < self.roles.len()
            invariant
                i <= self.roles.len(),
                self@ == entry,
                entry.wf(),
                forall|k: int| 0 <= k < i ==> entry.users()[k] != user_id,
            decreases self.roles.len() - i,
        {
            if self.roles[i].user_id == user_id {
                proof {
                    assert(entry.users()[i as int] == user_id);
                    index_of_unique(entry.users(), i as int);
                }
                return self.roles[i].role;
            }
            i += 1;
        }
        Role::User
    }

    /// Gives `user_id` the role `role`, in place of any it had.
    fn assign(&mut self, user_id: UserId, role: Role)
        requires
            old(self)@.wf(),
        ensures
            final(self)@ == old(self)@.with_role(user_id, role),
            final(self)@.wf(),
    {
        let ghost entry = old(self)@;
        let assignment = RoleAssignment { user_id, role };
        let mut i: usize = 0;
        let mut place: Option<usize> = None;
        while i < self.roles.len()
            invariant_except_break
                place is None,
                forall|k: int| 0 <= k < i ==> entry.users()[k] != user_id,
            invariant
                self@ == entry,
                entry.wf(),
                i <= self.roles.len(),
            ensures
                match place {
                    Some(p) => p < entry.roles.len() && entry.users().contains(user_id)
                        && entry.users().index_of(user_id) == p,
                    None => !entry.users().contains(user_id),
                },
            decreases self.roles.len() - i,
        {
            if self.roles[i].user_id == user_id {
                proof {
                    assert(entry.users()[i as int] == user_id);
                    index_of_unique(entry.users(), i as int);
                }
                place = Some(i);
                break ;
            }
            i += 1;
        }
        match place {
            Some(p) => {
                self.roles[p] = assignment;
            },
            None => {
                self.roles.push(assignment);
            },
        }
        proof {
            entry.with_role_keeps_wf(user_id, role);
            assert(self@.roles =~= entry.with_role(user_id, role).roles);
        }
    }

    /// Appends `entry` to the log and keeps the newest 1000.
    fn note(&mut self, entry: LogEntry)
        requires
            old(self)@.wf(),
        ensures
            final(self)@ == old(self)@.logged(entry@),
            final(self)@.wf(),
    {
        let ghost before = old(self)@;
        self.log.push(entry);
        assert(self@.log =~= before.log.push(entry@));
        if self.log.len() > MAX_LOG_ENTRIES {
            self.log.remove(0);
        }
        assert(self@.log =~= before.logged(entry@).log);
        assert(self@.users() =~= before.users());
    }
}

impl AdminManager {
    pub open spec fn wf(&self) -> bool {
        self@.wf()
    }

    pub fn new() -> (m: Self)
        ensures
            m.wf(),
            m@.channels == Map::<ChannelId, ChannelAdminModel>::empty(),
    {
        let m = Self { channels: HashMap::new() };
        assert(m@.channels =~= Map::<ChannelId, ChannelAdminModel>::empty());
        m
    }

    /// Whether the store is well formed.
    pub fn is_wf(&self) -> (ok: bool)
        ensures
            ok == self.wf(),
    {
        broadcast use group_hash_axioms;
        broadcast use vstd::std_specs::hash::axiom_spec_hash_map_iter;

        let ghost all = self.channels.iter().remaining();
        let ghost mut seen: int = 0;
        let mut ok = true;
        for pair in rest: self.channels.iter()
            invariant
                rest.seq() == all,
                seen == rest.index(),
                ok <==> (forall|i: int|
                    0 <= i < seen ==> (#[trigger] all[i]).1@.wf() && all[i].1.channel_id
                        == *all[i].0),
        {
            let sound = pair.1.is_wf();
            ok = ok && sound && pair.1.channel_id == *pair.0;
            proof {
                seen = seen + 1;
            }
        }
        proof {
            assert(seen == all.len());
            if ok {
                assert forall|id: ChannelId| self@.channels.contains_key(id) implies (
                #[trigger] self@.channels[id]).wf() && self@.channels[id].channel_id == id by {
                    assert(self.channels@.contains_key(id));
                    let wanted = (&id, &self.channels@[id]);
                    assert(all.contains(wanted));
                    let i = choose|i: int| 0 <= i < all.len() && all[i] == wanted;
                    assert(all[i].1@.wf());
                }
            } else {
                let i = choose|i: int|
                    0 <= i < seen && !((#[trigger] all[i]).1@.wf() && all[i].1.channel_id
                        == *all[i].0);
                let id = *all[i].0;
                assert(self.channels@.contains_key(id));
                assert(self.channels@[id] == *all[i].1);
                assert(self@.channels.contains_key(id));
                assert(self@.channels[id] == all[i].1@);
            }
        }
        ok
    }

    /// Takes the record of `channel_id` out of the store; the untouched
    /// record where none is kept.
    fn take(&mut self, channel_id: ChannelId) -> (record: ChannelAdmin)
        requires
            old(self).wf(),
        ensures
            final(self).wf(),
            record@ == old(self)@.entry(channel_id),
            record@.wf(),
            record@.channel_id == channel_id,
            final(self)@.channels == old(self)@.channels.remove(channel_id),
    {
        broadcast use group_hash_axioms;

        let taken = self.channels.remove(&channel_id);
        assert(self@.channels =~= old(self)@.channels.remove(channel_id));
        match taken {
            Some(record) => {
                assert(old(self)@.channels[channel_id] == record@);
                record
            },
            None => ChannelAdmin::untouched(channel_id),
        }
    }

    /// Keeps `record` as the record of its channel.
    fn put(&mut self, record: ChannelAdmin)
        requires
            old(self).wf(),
            record@.wf(),
        ensures
            final(self).wf(),
            final(self)@.channels == old(self)@.channels.insert(record@.channel_id, record@),
    {
        broadcast use group_hash_axioms;

        let ghost kept = record@;
        self.channels.insert(record.channel_id, record);
        assert(self@.channels =~= old(self)@.channels.insert(kept.channel_id, kept));
    }

    /// The record of `channel_id`, where one is kept.
    fn record(&self, channel_id: ChannelId) -> (found: Option<&ChannelAdmin>)
        requires
            self.wf(),
        ensures
            match found {
                Some(record) => self@.has(channel_id) && record@ == self@.entry(channel_id)
                    && record@.wf(),
                None => !self@.has(channel_id),
            },
    {
        broadcast use group_hash_axioms;

        let found = self.channels.get(&channel_id);
        proof {
            if let Some(record) = found {
                assert(self.channels@[channel_id] == *record);
                assert(self@.channels[channel_id] == record@);
            }
        }
        found
    }

    /// Makes the creator of a channel its Admin.
    pub fn set_channel_creator(&mut self, channel_id: ChannelId, user_id: UserId)
        requires
            old(self).wf(),
        ensures
            final(self).wf(),
            final(self)@ == old(self)@.set_role(channel_id, user_id, Role::Admin),
    {
        self.set_role(channel_id, user_id, Role::Admin);
    }

    pub fn get_role(&self, channel_id: ChannelId, user_id: UserId) -> (role: Role)
        requires
            self.wf(),
        ensures
            role == self@.get_role(channel_id, user_id),
    {
        match self.record(channel_id) {
            None => {
                assert(ChannelAdminModel::untouched(channel_id).users() =~= Seq::empty());
                Role::User
            },
            Some(record) => record.role_of(user_id),
        }
    }

    pub fn set_role(&mut self, channel_id: ChannelId, user_id: UserId, role: Role)
        requires
            old(self).wf(),
        ensures
            final(self).wf(),
            final(self)@ == old(self)@.set_role(channel_id, user_id, role),
    {
        let mut record = self.take(channel_id);
        record.assign(user_id, role);
        self.put(record);
        assert(self@.channels =~= old(self)@.set_role(channel_id, user_id, role).channels);
    }

    /// Whether the role of `user_id` in `channel_id` carries `permission`.
    pub fn has_permission(
        &self,
        channel_id: ChannelId,
        user_id: UserId,
        permission: Permission,
    ) -> (held: bool)
        requires
            self.wf(),
        ensures
            held == self@.has_permission(channel_id, user_id, permission),
            held == self@.get_role(channel_id, user_id).spec_default_permissions().contains(
                permission,
            ),
    {
        let role = self.get_role(channel_id, user_id);
        has_permission(role, permission)
    }

    /// Whether `user_id` may send into `channel_id`: everybody in a Public or
    /// Private channel, Admins and above in an AdminOnly or ReadOnly one,
    /// SuperAdmins alone in an Announcement channel.
    pub fn can_send_message(&self, channel_id: ChannelId, user_id: UserId) -> (allowed: bool)
        requires
            self.wf(),
        ensures
            allowed == self@.can_send_message(channel_id, user_id),
    {
        let role = self.get_role(channel_id, user_id);
        let kind = self.get_channel_type(channel_id);
        match kind {
            ChannelType::Public | ChannelType::Private => has_permission(
                role,
                Permission::SendMessage,
            ),
            ChannelType::AdminOnly | ChannelType::ReadOnly => role.at_least(Role::Admin),
            ChannelType::Announcement => role.at_least(Role::SuperAdmin),
        }
    }

    /// The users of Moderator rank or above in `channel_id` whom `user_map`
    /// knows by name.
    pub fn list_admins(
        &self,
        channel_id: ChannelId,
        user_map: &Vec<(UserId, String)>,
    ) -> (admins: Vec<AdminInfo>)
        requires
            self.wf(),
        ensures
            admins.deep_view() == self@.list_admins(channel_id, user_map.deep_view()),
    {
        let mut admins: Vec<AdminInfo> = Vec::new();
        match self.record(channel_id) {
            None => {
                assert(admins.deep_view() =~= Seq::empty());
            },
            Some(record) => {
                let roles = &record.roles;
                let ghost entry = self@.entry(channel_id);
                assert(admins.deep_view() =~= Seq::empty());
                let mut i: usize = 0;
                while i < roles.len()
                    invariant
                        i <= roles.len(),
                        roles@ == entry.roles,
                        admins.deep_view() == entry.admins_among(user_map.deep_view(), i as nat),
                    decreases roles.len() - i,
                {
                    let a = roles[i];
                    if a.role.at_least(Role::Moderator) {
                        match lookup_name(user_map, a.user_id) {
                            Some(username) => {
                                let info = AdminInfo { user_id: a.user_id, username, role: a.role };
                                admins.push(info);
                                assert(admins.deep_view() =~= entry.admins_among(
                                    user_map.deep_view(),
                                    i as nat,
                                ).push(info@));
                            },
                            None => {},
                        }
                    }
                    i += 1;
                }
            },
        }
        admins
    }

    pub fn set_channel_type(&mut self, channel_id: ChannelId, channel_type: ChannelType)
        requires
            old(self).wf(),
        ensures
            final(self).wf(),
            final(self)@ == old(self)@.set_channel_type(channel_id, channel_type),
    {
        let mut record = self.take(channel_id);
        record.channel_type = Some(channel_type);
        assert(record@.users() =~= old(self)@.entry(channel_id).users());
        self.put(record);
        assert(self@.channels =~= old(self)@.set_channel_type(channel_id, channel_type).channels);
    }

    pub fn get_channel_type(&self, channel_id: ChannelId) -> (kind: ChannelType)
        requires
            self.wf(),
        ensures
            kind == self@.get_channel_type(channel_id),
    {
        match self.record(channel_id) {
            None => ChannelType::Public,
            Some(record) => match record.channel_type {
                Some(kind) => kind,
                None => ChannelType::Public,
            },
        }
    }

    /// Appends `entry` to the log of `channel_id` and keeps the newest 1000.
    pub fn log_entry(&mut self, channel_id: ChannelId, entry: LogEntry)
        requires
            old(self).wf(),
        ensures
            final(self).wf(),
            final(self)@ == old(self)@.log_action(channel_id, entry@),
    {
        let ghost logged = entry@;
        let mut record = self.take(channel_id);
        record.note(entry);
        self.put(record);
        assert(self@.channels =~= old(self)@.log_action(channel_id, logged).channels);
    }

    /// The log entry that says `username` did `action` at `stamp`.
    pub open spec fn entry_model(
        stamp: Timestamp,
        user_id: UserId,
        username: Seq<char>,
        action: Seq<char>,
        target: Seq<char>,
        details: Seq<char>,
    ) -> LogEntryModel {
        LogEntryModel { timestamp: stamp, user_id, username, action, target, details }
    }

    /// Records, with the clock reading `now`, that `username` did `action`.
    pub fn log_action_at(
        &mut self,
        channel_id: ChannelId,
        user_id: UserId,
        username: String,
        action: String,
        target: String,
        details: String,
        now: Timestamp,
    )
        requires
            old(self).wf(),
        ensures
            final(self).wf(),
            final(self)@ == old(self)@.log_action(
                channel_id,
                Self::entry_model(now, user_id, username@, action@, target@, details@),
            ),
    {
        self.log_entry(
            channel_id,
            LogEntry { timestamp: now, user_id, username, action, target, details },
        );
    }

    /// Records, at the present moment, that `username` did `action`.
    pub fn log_action(
        &mut self,
        channel_id: ChannelId,
        user_id: UserId,
        username: String,
        action: String,
        target: String,
        details: String,
    )
        requires
            old(self).wf(),
        ensures
            final(self).wf(),
            exists|stamp: Timestamp|
                final(self)@ == old(self)@.log_action(
                    channel_id,
                    #[trigger] Self::entry_model(
                        stamp,
                        user_id,
                        username@,
                        action@,
                        target@,
                        details@,
                    ),
                ),
    {
        let now = Timestamp::now();
        let ghost entry = Self::entry_model(now, user_id, username@, action@, target@, details@);
        self.log_action_at(channel_id, user_id, username, action, target, details, now);
        assert(self@ == old(self)@.log_action(channel_id, entry));
    }

    /// The newest `limit` log entries of `channel_id`, newest first.
    pub fn get_logs(&self, channel_id: ChannelId, limit: usize) -> (entries: Vec<LogEntry>)
        requires
            self.wf(),
        ensures
            entries.deep_view() == self@.get_logs(channel_id, limit as nat),
    {
        let mut entries: Vec<LogEntry> = Vec::new();
        match self.record(channel_id) {
            None => {
                assert(entries.deep_view() =~= self@.get_logs(channel_id, limit as nat));
            },
            Some(record) => {
                let log = &record.log;
                let ghost entry = self@.entry(channel_id);
                let count: usize = if limit < log.len() {
                    limit
                } else {
                    log.len()
                };
                let mut i: usize = 0;
                while i < count
                    invariant
                        i <= count <= log.len(),
                        log.deep_view() == entry.log,
                        entries.len() == i,
                        forall|k: int|
                            0 <= k < i ==> (#[trigger] entries@[k])@ == entry.log[entry.log.len()
                                - 1 - k],
                    decreases count - i,
                {
                    entries.push(log[log.len() - 1 - i].clone());
                    i += 1;
                }
                assert(entries.deep_view() =~= entry.recent(limit as nat));
            },
        }
        entries
    }

    /// Forgets everything about `channel_id`.
    pub fn remove_channel(&mut self, channel_id: ChannelId)
        requires
            old(self).wf(),
        ensures
            final(self).wf(),
            final(self)@ == old(self)@.remove_channel(channel_id),
    {
        broadcast use group_hash_axioms;

        let _ = self.channels.remove(&channel_id);
        assert(self@.channels =~= old(self)@.channels.remove(channel_id));
    }
}

} // verus!
