//! Channel-scoped bans. A ban is in effect while it exists and either has
//! no expiry or its expiry lies in the future.
//!
//! The records are looked up by channel and live in a hash map. Within a
//! record, bans are kept in the order they were first imposed, which is the
//! order in which they are listed.

use std::collections::HashMap;
use vstd::prelude::*;
use vstd::std_specs::hash::group_hash_axioms;
use vstd::std_specs::iter::IteratorSpec;
use crate::keyed::{index_of_unique, push_keeps_distinct, remove_keeps_distinct};
use crate::protocol::messages::{BanInfo, BanInfoModel, ChannelId, UserId};
use crate::time::Timestamp;

verus! {

/// A ban of one user from one channel.
#[derive(Debug)]
pub struct Ban {
    pub user_id: UserId,
    pub username: String,
    /// When the ban ends; `None` for a permanent ban.
    pub banned_until: Option<Timestamp>,
    pub banned_by: String,
    pub reason: Option<String>,
}

/// The model of a [`Ban`].
pub struct BanModel {
    pub user_id: UserId,
    pub username: Seq<char>,
    pub banned_until: Option<Timestamp>,
    pub banned_by: Seq<char>,
    pub reason: Option<Seq<char>>,
}

impl View for Ban {
    type V = BanModel;

    open spec fn view(&self) -> BanModel {
        BanModel {
            user_id: self.user_id,
            username: self.username@,
            banned_until: self.banned_until,
            banned_by: self.banned_by@,
            reason: self.reason.deep_view(),
        }
    }
}

impl DeepView for Ban {
    type V = BanModel;

    open spec fn deep_view(&self) -> BanModel {
        self@
    }
}

impl Clone for Ban {
    fn clone(&self) -> (copy: Self)
        ensures
            copy@ == self@,
    {
        let copy = Ban {
            user_id: self.user_id,
            username: self.username.clone(),
            banned_until: self.banned_until,
            banned_by: self.banned_by.clone(),
            reason: self.reason.clone(),
        };
        assert(copy.reason.deep_view() =~= self.reason.deep_view());
        copy
    }
}

impl BanModel {
    /// The ban is in effect at `now`: permanent, or ending later than `now`.
    pub open spec fn active(self, now: Timestamp) -> bool {
        match self.banned_until {
            Some(until) => until.is_after(now),
            None => true,
        }
    }

    /// The ban as it is listed.
    pub open spec fn info(self) -> BanInfoModel {
        BanInfoModel {
            user_id: self.user_id,
            username: self.username,
            banned_until: self.banned_until,
            banned_by: self.banned_by,
        }
    }
}

impl Ban {
    /// Whether the ban is in effect at `now`.
    pub fn is_active(&self, now: &Timestamp) -> (r: bool)
        ensures
            r == self@.active(*now),
    {
        match &self.banned_until {
            Some(until) => until.after(now),
            None => true,
        }
    }
}

/// The bans of one channel.
#[derive(Debug)]
pub struct ChannelBans {
    pub channel_id: ChannelId,
    pub bans: Vec<Ban>,
}

/// The model of a [`ChannelBans`].
pub struct ChannelBansModel {
    pub channel_id: ChannelId,
    pub bans: Seq<BanModel>,
}

impl View for ChannelBans {
    type V = ChannelBansModel;

    open spec fn view(&self) -> ChannelBansModel {
        ChannelBansModel { channel_id: self.channel_id, bans: self.bans.deep_view() }
    }
}

impl DeepView for ChannelBans {
    type V = ChannelBansModel;

    open spec fn deep_view(&self) -> ChannelBansModel {
        self@
    }
}

impl ChannelBansModel {
    pub open spec fn none(channel_id: ChannelId) -> ChannelBansModel {
        ChannelBansModel { channel_id, bans: Seq::empty() }
    }

    /// The banned users, in the order they were first banned.
    pub open spec fn users(self) -> Seq<UserId> {
        Seq::new(self.bans.len(), |i: int| self.bans[i].user_id)
    }

    pub open spec fn wf(self) -> bool {
        self.users().no_duplicates()
    }

    pub open spec fn ban_of(self, user_id: UserId) -> Option<BanModel> {
        if self.users().contains(user_id) {
            Some(self.bans[self.users().index_of(user_id)])
        } else {
            None
        }
    }

    /// The bans with that of `ban.user_id` set to `ban`.
    pub open spec fn with_ban(self, ban: BanModel) -> ChannelBansModel {
        if self.users().contains(ban.user_id) {
            ChannelBansModel {
                bans: self.bans.update(self.users().index_of(ban.user_id), ban),
                ..self
            }
        } else {
            ChannelBansModel { bans: self.bans.push(ban), ..self }
        }
    }

    pub open spec fn without(self, user_id: UserId) -> ChannelBansModel {
        if self.users().contains(user_id) {
            ChannelBansModel { bans: self.bans.remove(self.users().index_of(user_id)), ..self }
        } else {
            self
        }
    }

    /// Among the first `n` bans, those in effect at `now`.
    pub open spec fn active_among(self, now: Timestamp, n: nat) -> Seq<BanModel>
        decreases n,
    {
        if n == 0 || n > self.bans.len() {
            Seq::empty()
        } else {
            let earlier = self.active_among(now, (n - 1) as nat);
            if self.bans[n - 1].active(now) {
                earlier.push(self.bans[n - 1])
            } else {
                earlier
            }
        }
    }

    /// The bans in effect at `now`.
    pub open spec fn retained(self, now: Timestamp) -> ChannelBansModel {
        ChannelBansModel { bans: self.active_among(now, self.bans.len()), ..self }
    }

    /// Among the first `n` bans, those in effect at `now`, as they are listed.
    pub open spec fn listed_among(self, now: Timestamp, n: nat) -> Seq<BanInfoModel>
        decreases n,
    {
        if n == 0 || n > self.bans.len() {
            Seq::empty()
        } else {
            let earlier = self.listed_among(now, (n - 1) as nat);
            if self.bans[n - 1].active(now) {
                earlier.push(self.bans[n - 1].info())
            } else {
                earlier
            }
        }
    }

    /// The bans in effect at `now`, as they are listed.
    pub open spec fn listed(self, now: Timestamp) -> Seq<BanInfoModel> {
        self.listed_among(now, self.bans.len())
    }

    /// The first `n` bans.
    pub open spec fn first(self, n: nat) -> ChannelBansModel {
        ChannelBansModel { bans: self.bans.subrange(0, n as int), ..self }
    }

    /// The ban of `user_id`, if it is in effect at `now`.
    pub open spec fn active_ban_of(self, user_id: UserId, now: Timestamp) -> Option<BanModel> {
        match self.ban_of(user_id) {
            Some(ban) => if ban.active(now) {
                Some(ban)
            } else {
                None
            },
            None => None,
        }
    }

    /// Purging the first `n` bans keeps exactly those in effect, each as it
    /// was.
    pub proof fn purge_keeps_active(self, now: Timestamp, n: nat, user_id: UserId)
        requires
            self.wf(),
            n <= self.bans.len(),
        ensures
            (ChannelBansModel { bans: self.active_among(now, n), ..self }).wf(),
            (ChannelBansModel { bans: self.active_among(now, n), ..self }).ban_of(user_id)
                == self.first(n).active_ban_of(user_id, now),
            self.first(n).wf(),
        decreases n,
    {
        let kept = ChannelBansModel { bans: self.active_among(now, n), ..self };
        let head = self.first(n);
        assert(head.users() =~= self.users().subrange(0, n as int));
        if n == 0 {
            assert(kept.users() =~= Seq::empty());
            assert(head.users() =~= Seq::empty());
        } else {
            let m = (n - 1) as nat;
            let last = self.bans[n - 1];
            self.purge_keeps_active(now, m, user_id);
            self.purge_keeps_active(now, m, last.user_id);
            let kept0 = ChannelBansModel { bans: self.active_among(now, m), ..self };
            let head0 = self.first(m);
            assert(head0.users() =~= self.users().subrange(0, m as int));
            assert(head.users() =~= head0.users().push(last.user_id));
            assert(!head0.users().contains(last.user_id)) by {
                if head0.users().contains(last.user_id) {
                    let k = head0.users().index_of(last.user_id);
                    assert(self.users()[k] == self.users()[n - 1]);
                }
            }
            push_keeps_distinct(head0.users(), last.user_id);
            assert(head.bans[m as int] == last);
            assert(forall|k: int| 0 <= k < m ==> head.bans[k] == head0.bans[k]);
            assert(kept0.ban_of(last.user_id) is None);
            if last.active(now) {
                assert(kept.users() =~= kept0.users().push(last.user_id));
                push_keeps_distinct(kept0.users(), last.user_id);
                assert(kept.bans[kept0.bans.len() as int] == last);
                assert(forall|k: int| 0 <= k < kept0.bans.len() ==> kept.bans[k] == kept0.bans[k]);
                if user_id != last.user_id {
                    if kept0.users().contains(user_id) {
                        assert(kept.users().contains(user_id));
                    }
                    if head0.users().contains(user_id) {
                        assert(head.users().contains(user_id));
                    }
                }
            } else {
                if user_id != last.user_id {
                    if head0.users().contains(user_id) {
                        assert(head.users().contains(user_id));
                    }
                }
            }
        }
    }

    /// After the purge a ban exists exactly if it existed and was in effect.
    pub proof fn retained_keeps_active(self, now: Timestamp, user_id: UserId)
        requires
            self.wf(),
        ensures
            self.retained(now).wf(),
            self.retained(now).ban_of(user_id) == self.active_ban_of(user_id, now),
    {
        self.purge_keeps_active(now, self.bans.len(), user_id);
        assert(self.first(self.bans.len()).bans =~= self.bans);
    }

    pub proof fn with_ban_keeps_wf(self, ban: BanModel)
        requires
            self.wf(),
        ensures
            self.with_ban(ban).wf(),
            self.with_ban(ban).ban_of(ban.user_id) == Some(ban),
            forall|other: UserId|
                other != ban.user_id ==> #[trigger] self.with_ban(ban).ban_of(other)
                    == self.ban_of(other),
    {
        let after = self.with_ban(ban);
        if self.users().contains(ban.user_id) {
            assert(after.users() =~= self.users());
        } else {
            assert(after.users() =~= self.users().push(ban.user_id));
            push_keeps_distinct(self.users(), ban.user_id);
        }
    }

    pub proof fn without_keeps_wf(self, user_id: UserId)
        requires
            self.wf(),
        ensures
            self.without(user_id).wf(),
            self.without(user_id).ban_of(user_id) is None,
            forall|other: UserId|
                other != user_id ==> #[trigger] self.without(user_id).ban_of(other) == self.ban_of(
                    other,
                ),
    {
        if self.users().contains(user_id) {
            let i = self.users().index_of(user_id);
            let after = self.without(user_id);
            assert(after.users() =~= self.users().remove(i));
            remove_keeps_distinct(self.users(), i);
            assert forall|other: UserId| other != user_id implies #[trigger] after.ban_of(other)
                == self.ban_of(other) by {
                if self.users().contains(other) {
                    assert(after.users().contains(other));
                    let k = after.users().index_of(other);
                }
            }
        }
    }
}

/// The model of a [`BanManager`]: one record for each channel that ever had
/// a ban.
pub struct BansModel {
    pub channels: Map<ChannelId, ChannelBansModel>,
}

impl BansModel {
    /// Every record is well formed and is kept under its own channel.
    pub open spec fn wf(self) -> bool {
        forall|id: ChannelId|
            self.channels.contains_key(id) ==> (#[trigger] self.channels[id]).wf()
                && self.channels[id].channel_id == id
    }

    pub open spec fn has(self, channel_id: ChannelId) -> bool {
        self.channels.contains_key(channel_id)
    }

    /// The bans of `channel_id`; none where no record is kept.
    pub open spec fn entry(self, channel_id: ChannelId) -> ChannelBansModel {
        if self.has(channel_id) {
            self.channels[channel_id]
        } else {
            ChannelBansModel::none(channel_id)
        }
    }

    pub open spec fn with_entry(self, entry: ChannelBansModel) -> BansModel {
        BansModel { channels: self.channels.insert(entry.channel_id, entry) }
    }

    pub open spec fn get_ban_info(
        self,
        channel_id: ChannelId,
        user_id: UserId,
    ) -> Option<BanModel> {
        self.entry(channel_id).ban_of(user_id)
    }

    /// A ban of `user_id` from `channel_id` exists and is in effect at `now`.
    pub open spec fn is_banned(
        self,
        channel_id: ChannelId,
        user_id: UserId,
        now: Timestamp,
    ) -> bool {
        match self.get_ban_info(channel_id, user_id) {
            Some(ban) => ban.active(now),
            None => false,
        }
    }

    pub open spec fn ban_user(self, channel_id: ChannelId, ban: BanModel) -> BansModel {
        self.with_entry(self.entry(channel_id).with_ban(ban))
    }

    /// The bans after that of `user_id` from `channel_id` was lifted.
    pub open spec fn unban_user(self, channel_id: ChannelId, user_id: UserId) -> BansModel {
        if self.has(channel_id) {
            self.with_entry(self.entry(channel_id).without(user_id))
        } else {
            self
        }
    }

    pub open spec fn list_bans(self, channel_id: ChannelId, now: Timestamp) -> Seq<BanInfoModel> {
        self.entry(channel_id).listed(now)
    }

    /// The bans that are still in effect at `now`.
    pub open spec fn cleanup_expired(self, now: Timestamp) -> BansModel {
        BansModel {
            channels: self.channels.map_values(|record: ChannelBansModel| record.retained(now)),
        }
    }

    pub proof fn with_entry_keeps_wf(self, entry: ChannelBansModel)
        requires
            self.wf(),
            entry.wf(),
        ensures
            self.with_entry(entry).wf(),
            self.with_entry(entry).has(entry.channel_id),
            self.with_entry(entry).entry(entry.channel_id) == entry,
            forall|other: ChannelId|
                other != entry.channel_id ==> #[trigger] self.with_entry(entry).entry(other)
                    == self.entry(other),
    {
    }

    /// A user is banned exactly if a ban of theirs is on record and either
    /// has no expiry or expires later than now.
    pub proof fn ban_in_effect_iff(self, channel_id: ChannelId, user_id: UserId, now: Timestamp)
        ensures
            self.is_banned(channel_id, user_id, now) <==> (self.get_ban_info(
                channel_id,
                user_id,
            ) matches Some(ban) && (ban.banned_until is None || ban.banned_until->0.is_after(now))),
    {
    }

    /// The bans of a channel are well formed whether a record is kept or
    /// not.
    pub proof fn entry_is_wf(self, channel_id: ChannelId)
        requires
            self.wf(),
        ensures
            self.entry(channel_id).wf(),
            self.entry(channel_id).channel_id == channel_id,
    {
        if !self.has(channel_id) {
            assert(ChannelBansModel::none(channel_id).users() =~= Seq::empty());
        }
    }

    /// A ban is recorded for that one user in that one channel.
    pub proof fn ban_user_keeps_wf(self, channel_id: ChannelId, ban: BanModel)
        requires
            self.wf(),
        ensures
            self.ban_user(channel_id, ban).wf(),
            self.ban_user(channel_id, ban).get_ban_info(channel_id, ban.user_id) == Some(ban),
            forall|c: ChannelId, u: UserId|
                (c != channel_id || u != ban.user_id) ==> #[trigger] self.ban_user(
                    channel_id,
                    ban,
                ).get_ban_info(c, u) == self.get_ban_info(c, u),
    {
        self.entry_is_wf(channel_id);
        let entry = self.entry(channel_id);
        entry.with_ban_keeps_wf(ban);
        self.with_entry_keeps_wf(entry.with_ban(ban));
    }

    /// Lifting a ban removes that one user's ban in that one channel.
    pub proof fn unban_user_keeps_wf(self, channel_id: ChannelId, user_id: UserId)
        requires
            self.wf(),
        ensures
            self.unban_user(channel_id, user_id).wf(),
            self.unban_user(channel_id, user_id).get_ban_info(channel_id, user_id) is None,
            forall|c: ChannelId, u: UserId|
                (c != channel_id || u != user_id) ==> #[trigger] self.unban_user(
                    channel_id,
                    user_id,
                ).get_ban_info(c, u) == self.get_ban_info(c, u),
    {
        self.entry_is_wf(channel_id);
        if self.has(channel_id) {
            let entry = self.entry(channel_id);
            entry.without_keeps_wf(user_id);
            self.with_entry_keeps_wf(entry.without(user_id));
        }
    }

    /// After the purge a user is banned exactly if they were banned before:
    /// the purge drops only bans that are no longer in effect.
    pub proof fn cleanup_keeps_active_bans(
        self,
        now: Timestamp,
        channel_id: ChannelId,
        user_id: UserId,
    )
        requires
            self.wf(),
        ensures
            self.cleanup_expired(now).wf(),
            self.cleanup_expired(now).is_banned(channel_id, user_id, now) == self.is_banned(
                channel_id,
                user_id,
                now,
            ),
    {
        let after = self.cleanup_expired(now);
        assert forall|id: ChannelId| after.channels.contains_key(id) implies (
        #[trigger] after.channels[id]).wf() && after.channels[id].channel_id == id by {
            self.channels[id].retained_keeps_active(now, user_id);
        }
        if self.has(channel_id) {
            self.channels[channel_id].retained_keeps_active(now, user_id);
        } else {
            assert(ChannelBansModel::none(channel_id).users() =~= Seq::empty());
        }
    }
}

/// The store of bans.
#[derive(Debug)]
pub struct BanManager {
    channels: HashMap<ChannelId, ChannelBans>,
}

impl View for BanManager {
    type V = BansModel;

    closed spec fn view(&self) -> BansModel {
        BansModel { channels: self.channels@.map_values(|record: ChannelBans| record@) }
    }
}

impl ChannelBans {
    /// Whether the record is well formed.
    pub fn is_wf(&self) -> (ok: bool)
        ensures
            ok == self@.wf(),
    {
        let mut i: usize = 0;
        while i < self.bans.len()
            invariant
                i <= self.bans.len(),
                forall|a: int, b: int| 0 <= a < b < i ==> self@.users()[a] != self@.users()[b],
            decreases self.bans.len() - i,
        {
            let mut j: usize = 0;
            while j < i
                invariant
                    j <= i < self.bans.len(),
                    forall|a: int| 0 <= a < j ==> self@.users()[a] != self@.users()[i as int],
                decreases i - j,
            {
                if self.bans[j].user_id == self.bans[i].user_id {
                    assert(self@.users()[j as int] == self@.users()[i as int]);
                    return false;
                }
                j += 1;
            }
            i += 1;
        }
        true
    }

    /// The record of a channel without bans.
    fn none(channel_id: ChannelId) -> (record: Self)
        ensures
            record@ == ChannelBansModel::none(channel_id),
            record@.wf(),
    {
        let record = ChannelBans { channel_id, bans: Vec::new() };
        assert(record@.bans =~= Seq::empty());
        assert(record@.users() =~= Seq::empty());
        record
    }

    /// Where the ban of `user_id` stands.
    fn position(&self, user_id: UserId) -> (r: Option<usize>)
        requires
            self@.wf(),
        ensures
            match r {
                Some(i) => self@.users().contains(user_id) && self@.users().index_of(user_id)
                    == i && i < self.bans.len(),
                None => !self@.users().contains(user_id),
            },
    {
        let ghost entry = self@;
        let mut i: usize = 0;
        while i < self.bans.len()
            invariant
                self@ == entry,
                entry.wf(),
                i <= self.bans.len(),
                forall|k: int| 0 <= k < i ==> entry.users()[k] != user_id,
            decreases self.bans.len() - i,
        {
            if self.bans[i].user_id == user_id {
                proof {
                    assert(entry.bans[i as int] == self.bans[i as int]@);
                    assert(entry.users()[i as int] == user_id);
                    index_of_unique(entry.users(), i as int);
                }
                return Some(i);
            }
            i += 1;
        }
        None
    }

    /// Records `ban`, in place of any earlier ban of the same user.
    fn set(&mut self, ban: Ban)
        requires
            old(self)@.wf(),
        ensures
            final(self)@ == old(self)@.with_ban(ban@),
            final(self)@.wf(),
    {
        let ghost entry = old(self)@;
        let ghost model = ban@;
        match self.position(ban.user_id) {
            Some(p) => {
                self.bans[p] = ban;
            },
            None => {
                self.bans.push(ban);
            },
        }
        proof {
            entry.with_ban_keeps_wf(model);
            assert(self@.bans =~= entry.with_ban(model).bans);
        }
    }

    /// Lifts the ban of `user_id`; says whether there was one.
    fn lift(&mut self, user_id: UserId) -> (lifted: bool)
        requires
            old(self)@.wf(),
        ensures
            final(self)@ == old(self)@.without(user_id),
            final(self)@.wf(),
            lifted == old(self)@.ban_of(user_id) is Some,
            !lifted ==> final(self)@ == old(self)@,
    {
        let ghost entry = old(self)@;
        proof {
            entry.without_keeps_wf(user_id);
        }
        match self.position(user_id) {
            Some(p) => {
                self.bans.remove(p);
                assert(self@.bans =~= entry.without(user_id).bans);
                true
            },
            None => false,
        }
    }

    /// Drops the bans that are no longer in effect at `now`.
    fn purge(&mut self, now: &Timestamp)
        requires
            old(self)@.wf(),
        ensures
            final(self)@ == old(self)@.retained(*now),
            final(self)@.wf(),
    {
        let ghost entry = old(self)@;
        let mut kept: Vec<Ban> = Vec::new();
        let mut i: usize = 0;
        assert(kept.deep_view() =~= entry.active_among(*now, 0));
        while i < self.bans.len()
            invariant
                self@ == entry,
                i <= self.bans.len(),
                kept.deep_view() == entry.active_among(*now, i as nat),
            decreases self.bans.len() - i,
        {
            assert(entry.bans[i as int] == self.bans[i as int]@);
            if self.bans[i].is_active(now) {
                kept.push(self.bans[i].clone());
                assert(kept.deep_view() =~= entry.active_among(*now, (i + 1) as nat));
            }
            i += 1;
        }
        self.bans = kept;
        proof {
            entry.retained_keeps_active(*now, 0);
        }
    }

    /// The bans that are in effect at `now`, as they are listed.
    fn listed(&self, now: &Timestamp) -> (listed: Vec<BanInfo>)
        ensures
            listed.deep_view() == self@.listed(*now),
    {
        let ghost entry = self@;
        let mut listed: Vec<BanInfo> = Vec::new();
        let mut i: usize = 0;
        assert(listed.deep_view() =~= entry.listed_among(*now, 0));
        while i < self.bans.len()
            invariant
                self@ == entry,
                i <= self.bans.len(),
                listed.deep_view() == entry.listed_among(*now, i as nat),
            decreases self.bans.len() - i,
        {
            assert(entry.bans[i as int] == self.bans[i as int]@);
            if self.bans[i].is_active(now) {
                let info = BanInfo {
                    user_id: self.bans[i].user_id,
                    username: self.bans[i].username.clone(),
                    banned_until: self.bans[i].banned_until,
                    banned_by: self.bans[i].banned_by.clone(),
                };
                listed.push(info);
                assert(listed.deep_view() =~= entry.listed_among(*now, i as nat).push(info@));
            }
            i += 1;
        }
        listed
    }
}

impl BanManager {
    pub open spec fn wf(&self) -> bool {
        self@.wf()
    }

    pub fn new() -> (m: Self)
        ensures
            m.wf(),
            m@.channels == Map::<ChannelId, ChannelBansModel>::empty(),
    {
        let m = Self { channels: HashMap::new() };
        assert(m@.channels =~= Map::<ChannelId, ChannelBansModel>::empty());
        m
    }

    /// Whether the store is well formed.
    pub fn is_wf(&self) -> (ok: bool)
        ensures
            ok == self.wf(),
    {
        broadcast use group_hash_axioms;
        broadcast use vstd::std_specs::hash::axiom_spec_hash_map_iter;

        let ghost all = self.channels.iter().remaining();
        let ghost mut seen: int = 0;
        let mut ok = true;
        for pair in rest: self.channels.iter()
            invariant
                rest.seq() == all,
                seen == rest.index(),
                ok <==> (forall|i: int|
                    0 <= i < seen ==> (#[trigger] all[i]).1@.wf() && all[i].1.channel_id
                        == *all[i].0),
        {
            let sound = pair.1.is_wf();
            ok = ok && sound && pair.1.channel_id == *pair.0;
            proof {
                seen = seen + 1;
            }
        }
        proof {
            assert(seen == all.len());
            if ok {
                assert forall|id: ChannelId| self@.channels.contains_key(id) implies (
                #[trigger] self@.channels[id]).wf() && self@.channels[id].channel_id == id by {
                    assert(self.channels@.contains_key(id));
                    let wanted = (&id, &self.channels@[id]);
                    assert(all.contains(wanted));
                    let i = choose|i: int| 0 <= i < all.len() && all[i] == wanted;
                    assert(all[i].1@.wf());
                }
            } else {
                let i = choose|i: int|
                    0 <= i < seen && !((#[trigger] all[i]).1@.wf() && all[i].1.channel_id
                        == *all[i].0);
                let id = *all[i].0;
                assert(self.channels@.contains_key(id));
                assert(self.channels@[id] == *all[i].1);
                assert(self@.channels.contains_key(id));
                assert(self@.channels[id] == all[i].1@);
            }
        }
        ok
    }

    /// Takes the record of `channel_id` out of the store; the record
    /// without bans where none is kept.
    fn take(&mut self, channel_id: ChannelId) -> (record: ChannelBans)
        requires
            old(self).wf(),
        ensures
            final(self).wf(),
            record@ == old(self)@.entry(channel_id),
            record@.wf(),
            record@.channel_id == channel_id,
            final(self)@.channels == old(self)@.channels.remove(channel_id),
    {
        broadcast use group_hash_axioms;

        let taken = self.channels.remove(&channel_id);
        assert(self@.channels =~= old(self)@.channels.remove(channel_id));
        match taken {
            Some(record) => {
                assert(old(self)@.channels[channel_id] == record@);
                record
            },
            None => ChannelBans::none(channel_id),
        }
    }

    /// Keeps `record` as the record of its channel.
    fn put(&mut self, record: ChannelBans)
        requires
            old(self).wf(),
            record@.wf(),
        ensures
            final(self).wf(),
            final(self)@.channels == old(self)@.channels.insert(record@.channel_id, record@),
    {
        broadcast use group_hash_axioms;

        let ghost kept = record@;
        self.channels.insert(record.channel_id, record);
        assert(self@.channels =~= old(self)@.channels.insert(kept.channel_id, kept));
    }

    /// The record of `channel_id`, where one is kept.
    fn record(&self, channel_id: ChannelId) -> (found: Option<&ChannelBans>)
        requires
            self.wf(),
        ensures
            match found {
                Some(record) => self@.has(channel_id) && record@ == self@.entry(channel_id)
                    && record@.wf(),
                None => !self@.has(channel_id),
            },
    {
        broadcast use group_hash_axioms;

        let found = self.channels.get(&channel_id);
        proof {
            if let Some(record) = found {
                assert(self.channels@[channel_id] == *record);
                assert(self@.channels[channel_id] == record@);
            }
        }
        found
    }

    /// Records `ban` for `channel_id`, in place of any earlier ban of the
    /// same user there.
    pub fn put_ban(&mut self, channel_id: ChannelId, ban: Ban)
        requires
            old(self).wf(),
        ensures
            final(self).wf(),
            final(self)@ == old(self)@.ban_user(channel_id, ban@),
    {
        let ghost model = ban@;
        let mut record = self.take(channel_id);
        record.set(ban);
        self.put(record);
        assert(self@.channels =~= old(self)@.ban_user(channel_id, model).channels);
    }

    /// The expiry of a ban imposed at `now` for `duration_seconds`.
    pub open spec fn expiry(now: Timestamp, duration_seconds: Option<u64>) -> Option<Timestamp> {
        match duration_seconds {
            Some(secs) => Some(now.spec_plus_seconds(secs)),
            None => None,
        }
    }

    /// The ban that `ban_user` records.
    pub open spec fn ban_model(
        user_id: UserId,
        username: Seq<char>,
        banned_by: Seq<char>,
        banned_until: Option<Timestamp>,
        reason: Option<Seq<char>>,
    ) -> BanModel {
        BanModel { user_id, username, banned_until, banned_by, reason }
    }

    /// Bans `user_id` from `channel_id` as of `now`, for `duration_seconds`
    /// or for good, and returns the expiry.
    pub fn ban_user_at(
        &mut self,
        channel_id: ChannelId,
        user_id: UserId,
        username: String,
        banned_by: String,
        duration_seconds: Option<u64>,
        reason: Option<String>,
        now: Timestamp,
    ) -> (banned_until: Option<Timestamp>)
        requires
            old(self).wf(),
        ensures
            final(self).wf(),
            banned_until == Self::expiry(now, duration_seconds),
            final(self)@ == old(self)@.ban_user(
                channel_id,
                Self::ban_model(user_id, username@, banned_by@, banned_until, reason.deep_view()),
            ),
    {
        let banned_until = match duration_seconds {
            Some(secs) => Some(now.plus_seconds(secs)),
            None => None,
        };
        self.put_ban(channel_id, Ban { user_id, username, banned_until, banned_by, reason });
        banned_until
    }

    /// Bans `user_id` from `channel_id` as of the present moment.
    pub fn ban_user(
        &mut self,
        channel_id: ChannelId,
        user_id: UserId,
        username: String,
        banned_by: String,
        duration_seconds: Option<u64>,
        reason: Option<String>,
    ) -> (banned_until: Option<Timestamp>)
        requires
            old(self).wf(),
        ensures
            final(self).wf(),
            banned_until is Some <==> duration_seconds is Some,
            final(self)@ == old(self)@.ban_user(
                channel_id,
                Self::ban_model(user_id, username@, banned_by@, banned_until, reason.deep_view()),
            ),
    {
        let now = Timestamp::now();
        self.ban_user_at(channel_id, user_id, username, banned_by, duration_seconds, reason, now)
    }

    /// Lifts the ban of `user_id` from `channel_id`; says whether there was
    /// one.
    pub fn unban_user(&mut self, channel_id: ChannelId, user_id: UserId) -> (lifted: bool)
        requires
            old(self).wf(),
        ensures
            final(self).wf(),
            lifted == old(self)@.get_ban_info(channel_id, user_id) is Some,
            final(self)@ == old(self)@.unban_user(channel_id, user_id),
            !lifted ==> final(self)@ == old(self)@,
    {
        if self.record(channel_id).is_none() {
            assert(ChannelBansModel::none(channel_id).users() =~= Seq::empty());
            return false;
        }
        let mut record = self.take(channel_id);
        let lifted = record.lift(user_id);
        self.put(record);
        assert(self@.channels =~= old(self)@.unban_user(channel_id, user_id).channels);
        if !lifted {
            assert(self@.channels =~= old(self)@.channels);
        }
        lifted
    }

    /// Whether a ban of `user_id` from `channel_id` is in effect at `now`.
    pub fn is_banned_at(
        &self,
        channel_id: ChannelId,
        user_id: UserId,
        now: &Timestamp,
    ) -> (banned: bool)
        requires
            self.wf(),
        ensures
            banned == self@.is_banned(channel_id, user_id, *now),
            banned == match self@.get_ban_info(channel_id, user_id) {
                Some(ban) => ban.banned_until is None || ban.banned_until->0.is_after(*now),
                None => false,
            },
    {
        match self.get_ban_info(channel_id, user_id) {
            Some(ban) => ban.is_active(now),
            None => false,
        }
    }

    /// Whether a ban of `user_id` from `channel_id` is in effect at the
    /// present moment.
    pub fn is_banned(&self, channel_id: ChannelId, user_id: UserId) -> (banned: bool)
        requires
            self.wf(),
        ensures
            exists|now: Timestamp| banned == #[trigger] self@.is_banned(channel_id, user_id, now),
            self@.get_ban_info(channel_id, user_id) is None ==> !banned,
            self@.get_ban_info(channel_id, user_id) matches Some(ban) && ban.banned_until is None
                ==> banned,
    {
        let now = Timestamp::now();
        let banned = self.is_banned_at(channel_id, user_id, &now);
        assert(banned == self@.is_banned(channel_id, user_id, now));
        banned
    }

    pub fn get_ban_info(&self, channel_id: ChannelId, user_id: UserId) -> (ban: Option<&Ban>)
        requires
            self.wf(),
        ensures
            ban.deep_view() == self@.get_ban_info(channel_id, user_id),
    {
        match self.record(channel_id) {
            Some(record) => match record.position(user_id) {
                Some(p) => {
                    assert(record@.bans[p as int] == record.bans[p as int]@);
                    Some(&record.bans[p])
                },
                None => None,
            },
            None => {
                assert(ChannelBansModel::none(channel_id).users() =~= Seq::empty());
                None
            },
        }
    }

    /// The bans of `channel_id` that are in effect at `now`.
    pub fn list_bans_at(&self, channel_id: ChannelId, now: &Timestamp) -> (listed: Vec<BanInfo>)
        requires
            self.wf(),
        ensures
            listed.deep_view() == self@.list_bans(channel_id, *now),
    {
        match self.record(channel_id) {
            Some(record) => record.listed(now),
            None => {
                let listed: Vec<BanInfo> = Vec::new();
                assert(listed.deep_view() =~= self@.list_bans(channel_id, *now));
                listed
            },
        }
    }

    /// The bans of `channel_id` that are in effect at the present moment.
    pub fn list_bans(&self, channel_id: ChannelId) -> (listed: Vec<BanInfo>)
        requires
            self.wf(),
        ensures
            exists|now: Timestamp|
                listed.deep_view() == #[trigger] self@.list_bans(channel_id, now),
    {
        let now = Timestamp::now();
        let listed = self.list_bans_at(channel_id, &now);
        assert(listed.deep_view() == self@.list_bans(channel_id, now));
        listed
    }

    /// Drops every ban that is no longer in effect at `now`.
    pub fn cleanup_expired_at(&mut self, now: &Timestamp)
        requires
            old(self).wf(),
        ensures
            final(self).wf(),
            final(self)@ == old(self)@.cleanup_expired(*now),
    {
        broadcast use group_hash_axioms;
        broadcast use vstd::std_specs::hash::axiom_spec_keys_iter;

        let ghost all = self.channels.keys().remaining();
        let mut ids: Vec<ChannelId> = Vec::new();
        for id in rest: self.channels.keys()
            invariant
                rest.seq() == all,
                ids@.len() == rest.index(),
                forall|k: int| 0 <= k < ids@.len() ==> ids@[k] == *(#[trigger] all[k]),
        {
            ids.push(*id);
        }
        assert(ids@ =~= all.unref());
        assert(ids@.to_set() == self.channels@.dom());
        assert(ids@.no_duplicates()) by {
            assert forall|a: int, b: int| 0 <= a < ids@.len() && 0 <= b < ids@.len() && a != b
                implies ids@[a] != ids@[b] by {
                assert(all[a] != all[b]);
            }
        }
        let ghost before = old(self)@;
        let mut i: usize = 0;
        while i < ids.len()
            invariant
                self.wf(),
                before == old(self)@,
                before.wf(),
                i <= ids.len(),
                ids@.no_duplicates(),
                ids@.to_set() == before.channels.dom(),
                self@.channels.dom() == before.channels.dom(),
                forall|k: int|
                    0 <= k < i ==> self@.channels[#[trigger] ids@[k]] == before.channels[ids@[k]].retained(
                        *now,
                    ),
                forall|k: int|
                    i <= k < ids@.len() ==> self@.channels[#[trigger] ids@[k]]
                        == before.channels[ids@[k]],
            decreases ids.len() - i,
        {
            let id = ids[i];
            let ghost mid = self@;
            assert(ids@.to_set().contains(ids@[i as int]));
            assert(mid.channels.contains_key(id));
            let mut record = self.take(id);
            record.purge(now);
            self.put(record);
            proof {
                assert(self@.channels =~= mid.channels.insert(id, mid.channels[id].retained(*now)));
                assert forall|k: int| 0 <= k < ids@.len() && k != i implies self@.channels[ids@[k]]
                    == mid.channels[ids@[k]] by {
                    assert(ids@[k] != ids@[i as int]);
                }
            }
            i += 1;
        }
        proof {
            let after = before.cleanup_expired(*now);
            assert forall|id: ChannelId| after.channels.contains_key(id) implies self@.channels[id]
                == after.channels[id] by {
                assert(ids@.to_set().contains(id));
                let k = ids@.index_of(id);
                assert(ids@[k] == id);
            }
            assert(self@.channels =~= after.channels);
        }
    }

    /// Drops every ban that has expired by the present moment.
    pub fn cleanup_expired(&mut self)
        requires
            old(self).wf(),
        ensures
            final(self).wf(),
            exists|now: Timestamp| final(self)@ == #[trigger] old(self)@.cleanup_expired(now),
    {
        let now = Timestamp::now();
        self.cleanup_expired_at(&now);
        assert(self@ == old(self)@.cleanup_expired(now));
    }
}

} // verus!
