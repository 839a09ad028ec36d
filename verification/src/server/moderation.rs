//! The dispatcher for moderation: deleting messages, roles, bans, kicks,
//! listings, channel kinds and channel deletion. Every command starts with
//! the same checks and ends, where it changed anything, with a log entry and
//! a notice to the channel's members.

use vstd::prelude::*;
use crate::server::model::OutsideModel;
use crate::protocol::messages::ClientMessageModel;
use crate::protocol::channel::ChannelType;
use crate::protocol::messages::{ChannelId, MessageId, ServerMessage, UserInfo};
use crate::protocol::permissions::{Permission, Role};
use crate::server::channel::ClientId;
use crate::server::model::{Clearance, Session};
use crate::server::state::AppState;
use crate::text::{joined, owned, push_decimal, str_eq, text_or_empty};
use crate::time::Timestamp;
use vstd::string::StringExecFns;

verus! {

impl AppState {
    /// The checks every moderation command starts with. Answers the
    /// connection itself where the command is refused.
    pub fn clear(
        &mut self,
        session: &Session,
        channel: &str,
        permission: Option<Permission>,
        now: Timestamp,
    ) -> (r: Option<(UserInfo, ChannelId)>)
        requires
            old(self).wf(),
        ensures
            final(self).wf(),
            match r {
                Some((user, channel_id)) => {
                    &&& old(self)@.clearance(*session, channel@, permission, now)
                        == (Clearance::Granted { user: user@, channel_id })
                    &&& final(self)@ == old(self)@
                },
                None => old(self)@.clearance(*session, channel@, permission, now)
                    == Clearance::Refused(final(self)@),
            },
    {
        let client_id = session.client_id;
        if !session.user_authed {
            self.send_protocol_error(client_id, "login/register required", now);
            return None;
        }
        let Some(user) = self.registry.user(client_id) else {
            self.send_protocol_error(client_id, "user missing", now);
            return None;
        };
        let Some(channel_id) = self.channels.get_channel_id(channel) else {
            self.send_admin_error(client_id, "Channel not found", now);
            return None;
        };
        if let Some(needed) = permission {
            if !self.admin.has_permission(channel_id, user.id, needed) {
                let reason = joined("You lack permission: ", needed.name());
                self.send_admin_error(client_id, reason.as_str(), now);
                return None;
            }
        }
        Some((user, channel_id))
    }

    /// Adds a line to the moderation log of `channel_id`.
    fn log(
        &mut self,
        channel_id: ChannelId,
        user: &UserInfo,
        action: &str,
        target: String,
        details: String,
        now: Timestamp,
    )
        requires
            old(self).wf(),
        ensures
            final(self).wf(),
            final(self)@ == old(self)@.logged(channel_id, user@, action@, target@, details@, now),
    {
        self.admin.log_action_at(
            channel_id,
            user.id,
            user.username.clone(),
            owned(action),
            target,
            details,
            now,
        );
    }

    /// `DeleteMessage`: needs the DeleteMessage permission; the message is
    /// removed from the channel's history.
    pub fn handle_delete_message(
        &mut self,
        session: &Session,
        channel: &str,
        message_id: MessageId,
        now: Timestamp,
    )
        requires
            old(self).inv(),
        ensures
            final(self).inv(),
            final(self)@ == old(self)@.after_delete_message(*session, channel@, message_id, now),
            final(self)@.extends(old(self)@),
            final(self)@.numbers_on_from(old(self)@),
            old(self)@.channels.time_ordered() ==> final(self)@.channels.time_ordered(),
    {
        proof {
            old(self)@.step_keeps_inv(
                *session,
                ClientMessageModel::DeleteMessage {
                    meta: crate::protocol::messages::MessageMeta { id: 0, timestamp: now },
                    channel: channel@,
                    message_id,
                },
                now,
                OutsideModel { channel_hash: None, exchange: None },
            );
        }
        let Some((user, channel_id)) = self.clear(
            session,
            channel,
            Some(Permission::DeleteMessage),
            now,
        ) else {
            return ;
        };
        if !self.channels.delete_message(channel, message_id) {
            self.send_admin_error(session.client_id, "Message not found", now);
            return ;
        }
        let mut target = owned("message_");
        push_decimal(&mut target, message_id as u128);
        self.log(channel_id, &user, "delete_message", target, owned("Message deleted"), now);
        let meta = self.server_meta(now);
        self.broadcast(
            channel,
            ServerMessage::MessageDeleted {
                meta,
                channel: owned(channel),
                message_id,
                deleted_by: user.username,
            },
        );
    }

    /// `PromoteUser`: needs the PromoteUser permission; the named user gets
    /// the role.
    pub fn handle_promote_user(
        &mut self,
        session: &Session,
        channel: &str,
        username: &str,
        role: Role,
        now: Timestamp,
    )
        requires
            old(self).inv(),
        ensures
            final(self).inv(),
            final(self)@ == old(self)@.after_promote_user(*session, channel@, username@, role, now),
            final(self)@.extends(old(self)@),
            final(self)@.numbers_on_from(old(self)@),
            old(self)@.channels.time_ordered() ==> final(self)@.channels.time_ordered(),
    {
        proof {
            old(self)@.step_keeps_inv(
                *session,
                ClientMessageModel::PromoteUser {
                    meta: crate::protocol::messages::MessageMeta { id: 0, timestamp: now },
                    channel: channel@,
                    username: username@,
                    role,
                },
                now,
                OutsideModel { channel_hash: None, exchange: None },
            );
        }
        let Some((user, channel_id)) = self.clear(
            session,
            channel,
            Some(Permission::PromoteUser),
            now,
        ) else {
            return ;
        };
        let Some(target) = self.auth.find_user_by_username(username) else {
            self.send_admin_error(session.client_id, "User not found", now);
            return ;
        };
        self.admin.set_role(channel_id, target.id, role);
        self.log(
            channel_id,
            &user,
            "promote_user",
            owned(username),
            joined("Promoted to ", role.name()),
            now,
        );
        let meta = self.server_meta(now);
        self.broadcast(
            channel,
            ServerMessage::UserPromoted {
                meta,
                channel: owned(channel),
                user_id: target.id,
                username: owned(username),
                new_role: role,
                promoted_by: user.username,
            },
        );
    }

    /// `DemoteUser`: needs the PromoteUser permission; the named user goes
    /// back to the role User.
    pub fn handle_demote_user(
        &mut self,
        session: &Session,
        channel: &str,
        username: &str,
        now: Timestamp,
    )
        requires
            old(self).inv(),
        ensures
            final(self).inv(),
            final(self)@ == old(self)@.after_demote_user(*session, channel@, username@, now),
            final(self)@.extends(old(self)@),
            final(self)@.numbers_on_from(old(self)@),
            old(self)@.channels.time_ordered() ==> final(self)@.channels.time_ordered(),
    {
        proof {
            old(self)@.step_keeps_inv(
                *session,
                ClientMessageModel::DemoteUser {
                    meta: crate::protocol::messages::MessageMeta { id: 0, timestamp: now },
                    channel: channel@,
                    username: username@,
                },
                now,
                OutsideModel { channel_hash: None, exchange: None },
            );
        }
        let Some((user, channel_id)) = self.clear(
            session,
            channel,
            Some(Permission::PromoteUser),
            now,
        ) else {
            return ;
        };
        let Some(target) = self.auth.find_user_by_username(username) else {
            self.send_admin_error(session.client_id, "User not found", now);
            return ;
        };
        self.admin.set_role(channel_id, target.id, Role::User);
        self.log(
            channel_id,
            &user,
            "demote_user",
            owned(username),
            owned("Demoted to User"),
            now,
        );
        let meta = self.server_meta(now);
        self.broadcast(
            channel,
            ServerMessage::UserDemoted {
                meta,
                channel: owned(channel),
                user_id: target.id,
                username: owned(username),
                demoted_by: user.username,
            },
        );
    }

    /// Puts each of `targets` out of `channel`, where that is its current
    /// channel, and tells it `text`.
    fn evict(&mut self, targets: &Vec<ClientId>, channel: &str, text: &str, now: Timestamp)
        requires
            old(self).wf(),
        ensures
            final(self).wf(),
            final(self)@ == old(self)@.evicted(targets@, channel@, text@, now),
    {
        let mut i: usize = 0;
        assert(targets@.subrange(0, 0) =~= Seq::empty());
        while i < targets.len()
            invariant
                i <= targets.len(),
                self.wf(),
                self@ == old(self)@.evicted(targets@.subrange(0, i as int), channel@, text@, now),
            decreases targets.len() - i,
        {
            let target = targets[i];
            let here = match self.registry.channel(target) {
                Some(current) => str_eq(current.as_str(), channel),
                None => false,
            };
            if here {
                self.channels.leave(target, channel);
                self.registry.set_channel(target, None);
                self.send_system_message(target, text, now);
            }
            proof {
                let next = targets@.subrange(0, i + 1);
                assert(next.drop_last() =~= targets@.subrange(0, i as int));
                assert(next.last() == target);
            }
            i += 1;
        }
        assert(targets@.subrange(0, targets@.len() as int) =~= targets@);
    }

    /// `BanUser`: needs the BanUser permission; the named user is banned for
    /// the given time or for good, every connection of theirs that is in the
    /// channel is put out and told, and the members are told.
    pub fn handle_ban_user(
        &mut self,
        session: &Session,
        channel: &str,
        username: &str,
        duration_seconds: Option<u64>,
        reason: Option<String>,
        now: Timestamp,
    )
        requires
            old(self).inv(),
        ensures
            final(self).inv(),
            final(self)@ == old(self)@.after_ban_user(
                *session,
                channel@,
                username@,
                duration_seconds,
                reason.deep_view(),
                now,
            ),
            final(self)@.extends(old(self)@),
            final(self)@.numbers_on_from(old(self)@),
            old(self)@.channels.time_ordered() ==> final(self)@.channels.time_ordered(),
    {
        proof {
            old(self)@.step_keeps_inv(
                *session,
                ClientMessageModel::BanUser {
                    meta: crate::protocol::messages::MessageMeta { id: 0, timestamp: now },
                    channel: channel@,
                    username: username@,
                    duration_seconds,
                    reason: reason.deep_view(),
                },
                now,
                OutsideModel { channel_hash: None, exchange: None },
            );
        }
        let Some((user, channel_id)) = self.clear(
            session,
            channel,
            Some(Permission::BanUser),
            now,
        ) else {
            return ;
        };
        let Some(target) = self.auth.find_user_by_username(username) else {
            self.send_admin_error(session.client_id, "User not found", now);
            return ;
        };
        let banned_until = self.bans.ban_user_at(
            channel_id,
            target.id,
            target.username.clone(),
            user.username.clone(),
            duration_seconds,
            reason.clone(),
            now,
        );
        let details = match duration_seconds {
            Some(secs) => {
                let mut line = owned("Banned for ");
                push_decimal(&mut line, secs as u128);
                line.append(" seconds");
                line
            },
            None => owned("Permanently banned"),
        };
        self.log(channel_id, &user, "ban_user", owned(username), details, now);
        let targets = self.registry.find_clients_by_user_id(target.id);
        let notice = joined(
            "You have been banned from this channel. Reason: ",
            text_or_empty(&reason).as_str(),
        );
        self.evict(&targets, channel, notice.as_str(), now);
        let meta = self.server_meta(now);
        self.broadcast(
            channel,
            ServerMessage::UserBanned {
                meta,
                channel: owned(channel),
                user_id: target.id,
                username: owned(username),
                banned_until,
                banned_by: user.username,
                reason,
            },
        );
    }

    /// `UnbanUser`: needs the BanUser permission; the ban of the named user
    /// is lifted.
    pub fn handle_unban_user(
        &mut self,
        session: &Session,
        channel: &str,
        username: &str,
        now: Timestamp,
    )
        requires
            old(self).inv(),
        ensures
            final(self).inv(),
            final(self)@ == old(self)@.after_unban_user(*session, channel@, username@, now),
            final(self)@.extends(old(self)@),
            final(self)@.numbers_on_from(old(self)@),
            old(self)@.channels.time_ordered() ==> final(self)@.channels.time_ordered(),
    {
        proof {
            old(self)@.step_keeps_inv(
                *session,
                ClientMessageModel::UnbanUser {
                    meta: crate::protocol::messages::MessageMeta { id: 0, timestamp: now },
                    channel: channel@,
                    username: username@,
                },
                now,
                OutsideModel { channel_hash: None, exchange: None },
            );
        }
        let Some((user, channel_id)) = self.clear(
            session,
            channel,
            Some(Permission::BanUser),
            now,
        ) else {
            return ;
        };
        let Some(target) = self.auth.find_user_by_username(username) else {
            self.send_admin_error(session.client_id, "User not found", now);
            return ;
        };
        if !self.bans.unban_user(channel_id, target.id) {
            self.send_admin_error(session.client_id, "User is not banned", now);
            return ;
        }
        self.log(channel_id, &user, "unban_user", owned(username), owned("Unbanned"), now);
        let meta = self.server_meta(now);
        self.broadcast(
            channel,
            ServerMessage::UserUnbanned {
                meta,
                channel: owned(channel),
                username: owned(username),
                unbanned_by: user.username,
            },
        );
    }

    /// `KickUser`: needs the KickUser permission; every connection of the
    /// named user that is in the channel is put out and told, and the
    /// members are told.
    pub fn handle_kick_user(
        &mut self,
        session: &Session,
        channel: &str,
        username: &str,
        reason: Option<String>,
        now: Timestamp,
    )
        requires
            old(self).inv(),
        ensures
            final(self).inv(),
            final(self)@ == old(self)@.after_kick_user(
                *session,
                channel@,
                username@,
                reason.deep_view(),
                now,
            ),
            final(self)@.extends(old(self)@),
            final(self)@.numbers_on_from(old(self)@),
            old(self)@.channels.time_ordered() ==> final(self)@.channels.time_ordered(),
    {
        proof {
            old(self)@.step_keeps_inv(
                *session,
                ClientMessageModel::KickUser {
                    meta: crate::protocol::messages::MessageMeta { id: 0, timestamp: now },
                    channel: channel@,
                    username: username@,
                    reason: reason.deep_view(),
                },
                now,
                OutsideModel { channel_hash: None, exchange: None },
            );
        }
        let Some((user, channel_id)) = self.clear(
            session,
            channel,
            Some(Permission::KickUser),
            now,
        ) else {
            return ;
        };
        let Some(target) = self.auth.find_user_by_username(username) else {
            self.send_admin_error(session.client_id, "User not found", now);
            return ;
        };
        let targets = self.registry.find_clients_by_user_id(target.id);
        self.log(channel_id, &user, "kick_user", owned(username), text_or_empty(&reason), now);
        let notice = joined(
            "You have been kicked from this channel. Reason: ",
            text_or_empty(&reason).as_str(),
        );
        self.evict(&targets, channel, notice.as_str(), now);
        let meta = self.server_meta(now);
        self.broadcast(
            channel,
            ServerMessage::UserKicked {
                meta,
                channel: owned(channel),
                user_id: target.id,
                username: owned(username),
                kicked_by: user.username,
                reason,
            },
        );
    }

    /// `ListAdmins`: open to every user; the users of Moderator rank or
    /// above in the channel.
    pub fn handle_list_admins(&mut self, session: &Session, channel: &str, now: Timestamp)
        requires
            old(self).inv(),
        ensures
            final(self).inv(),
            final(self)@ == old(self)@.after_list_admins(*session, channel@, now),
            final(self)@.extends(old(self)@),
            final(self)@.numbers_on_from(old(self)@),
            old(self)@.channels.time_ordered() ==> final(self)@.channels.time_ordered(),
    {
        proof {
            old(self)@.step_keeps_inv(
                *session,
                ClientMessageModel::ListAdmins {
                    meta: crate::protocol::messages::MessageMeta { id: 0, timestamp: now },
                    channel: channel@,
                },
                now,
                OutsideModel { channel_hash: None, exchange: None },
            );
        }
        let Some((_user, channel_id)) = self.clear(session, channel, None, now) else {
            return ;
        };
        let user_map = self.auth.get_all_users_map();
        let admins = self.admin.list_admins(channel_id, &user_map);
        let meta = self.server_meta(now);
        self.registry.send(
            session.client_id,
            ServerMessage::AdminList { meta, channel: owned(channel), admins },
        );
    }

    /// `ListBans`: needs the ViewLogs permission; the bans in effect.
    pub fn handle_list_bans(&mut self, session: &Session, channel: &str, now: Timestamp)
        requires
            old(self).inv(),
        ensures
            final(self).inv(),
            final(self)@ == old(self)@.after_list_bans(*session, channel@, now),
            final(self)@.extends(old(self)@),
            final(self)@.numbers_on_from(old(self)@),
            old(self)@.channels.time_ordered() ==> final(self)@.channels.time_ordered(),
    {
        proof {
            old(self)@.step_keeps_inv(
                *session,
                ClientMessageModel::ListBans {
                    meta: crate::protocol::messages::MessageMeta { id: 0, timestamp: now },
                    channel: channel@,
                },
                now,
                OutsideModel { channel_hash: None, exchange: None },
            );
        }
        let Some((_user, channel_id)) = self.clear(
            session,
            channel,
            Some(Permission::ViewLogs),
            now,
        ) else {
            return ;
        };
        let bans = self.bans.list_bans_at(channel_id, &now);
        let meta = self.server_meta(now);
        self.registry.send(
            session.client_id,
            ServerMessage::BanList { meta, channel: owned(channel), bans },
        );
    }

    /// `ViewLogs`: needs the ViewLogs permission; the newest `limit` log
    /// entries, newest first.
    pub fn handle_view_logs(&mut self, session: &Session, channel: &str, limit: u32, now: Timestamp)
        requires
            old(self).inv(),
        ensures
            final(self).inv(),
            final(self)@ == old(self)@.after_view_logs(*session, channel@, limit, now),
            final(self)@.extends(old(self)@),
            final(self)@.numbers_on_from(old(self)@),
            old(self)@.channels.time_ordered() ==> final(self)@.channels.time_ordered(),
    {
        proof {
            old(self)@.step_keeps_inv(
                *session,
                ClientMessageModel::ViewLogs {
                    meta: crate::protocol::messages::MessageMeta { id: 0, timestamp: now },
                    channel: channel@,
                    limit,
                },
                now,
                OutsideModel { channel_hash: None, exchange: None },
            );
        }
        let Some((_user, channel_id)) = self.clear(
            session,
            channel,
            Some(Permission::ViewLogs),
            now,
        ) else {
            return ;
        };
        let logs = self.admin.get_logs(channel_id, limit as usize);
        let meta = self.server_meta(now);
        self.registry.send(
            session.client_id,
            ServerMessage::LogList { meta, channel: owned(channel), logs },
        );
    }

    /// `ChangeChannelType`: needs the ManageChannel permission.
    pub fn handle_change_channel_type(
        &mut self,
        session: &Session,
        channel: &str,
        channel_type: ChannelType,
        now: Timestamp,
    )
        requires
            old(self).inv(),
        ensures
            final(self).inv(),
            final(self)@ == old(self)@.after_change_channel_type(
                *session,
                channel@,
                channel_type,
                now,
            ),
            final(self)@.extends(old(self)@),
            final(self)@.numbers_on_from(old(self)@),
            old(self)@.channels.time_ordered() ==> final(self)@.channels.time_ordered(),
    {
        proof {
            old(self)@.step_keeps_inv(
                *session,
                ClientMessageModel::ChangeChannelType {
                    meta: crate::protocol::messages::MessageMeta { id: 0, timestamp: now },
                    channel: channel@,
                    channel_type,
                },
                now,
                OutsideModel { channel_hash: None, exchange: None },
            );
        }
        let Some((user, channel_id)) = self.clear(
            session,
            channel,
            Some(Permission::ManageChannel),
            now,
        ) else {
            return ;
        };
        self.admin.set_channel_type(channel_id, channel_type);
        self.log(
            channel_id,
            &user,
            "change_channel_type",
            owned(channel),
            joined("Changed to ", channel_type.name()),
            now,
        );
        let meta = self.server_meta(now);
        self.broadcast(
            channel,
            ServerMessage::ChannelTypeChanged {
                meta,
                channel: owned(channel),
                new_type: channel_type,
                changed_by: user.username,
            },
        );
    }

    /// Leaves each of `members` whose current channel is `channel` without
    /// a current channel.
    fn release(&mut self, members: &Vec<ClientId>, channel: &str)
        requires
            old(self).wf(),
        ensures
            final(self).wf(),
            final(self)@ == old(self)@.released(members@, channel@),
    {
        let mut i: usize = 0;
        assert(members@.subrange(0, 0) =~= Seq::empty());
        while i < members.len()
            invariant
                i <= members.len(),
                self.wf(),
                self@ == old(self)@.released(members@.subrange(0, i as int), channel@),
            decreases members.len() - i,
        {
            let member = members[i];
            let here = match self.registry.channel(member) {
                Some(current) => str_eq(current.as_str(), channel),
                None => false,
            };
            if here {
                self.registry.set_channel(member, None);
            }
            proof {
                let next = members@.subrange(0, i + 1);
                assert(next.drop_last() =~= members@.subrange(0, i as int));
                assert(next.last() == member);
            }
            i += 1;
        }
        assert(members@.subrange(0, members@.len() as int) =~= members@);
    }

    /// `DeleteChannel`: only a SuperAdmin of the channel may do it. The
    /// members are told and left without a current channel; the channel and
    /// its roles, kind and log are dropped.
    pub fn handle_delete_channel(&mut self, session: &Session, channel: &str, now: Timestamp)
        requires
            old(self).inv(),
        ensures
            final(self).inv(),
            final(self)@ == old(self)@.after_delete_channel(*session, channel@, now),
            final(self)@.extends(old(self)@),
            final(self)@.numbers_on_from(old(self)@),
            old(self)@.channels.time_ordered() ==> final(self)@.channels.time_ordered(),
    {
        proof {
            old(self)@.step_keeps_inv(
                *session,
                ClientMessageModel::DeleteChannel {
                    meta: crate::protocol::messages::MessageMeta { id: 0, timestamp: now },
                    channel: channel@,
                },
                now,
                OutsideModel { channel_hash: None, exchange: None },
            );
        }
        let Some((user, channel_id)) = self.clear(session, channel, None, now) else {
            return ;
        };
        if self.admin.get_role(channel_id, user.id) != Role::SuperAdmin {
            self.send_admin_error(session.client_id, "Only SuperAdmin can delete channels", now);
            return ;
        }
        let members = self.channels.members(channel);
        let meta = self.server_meta(now);
        let notice = ServerMessage::ChannelDeleted {
            meta,
            channel: owned(channel),
            deleted_by: user.username,
        };
        self.registry.send_many(members.as_slice(), &notice);
        self.release(&members, channel);
        self.channels.delete_channel(channel);
        self.admin.remove_channel(channel_id);
    }
}

} // verus!
