use darkrelay::protocol::channel::ChannelType;
use darkrelay::protocol::messages::{ChatMessage, LogEntry, MessageMeta, ServerMessage, UserInfo};
use darkrelay::protocol::permissions::{Permission, Role};
use darkrelay::server::admin::{lookup_name, AdminManager};
use darkrelay::server::auth::AuthService;
use darkrelay::server::ban_manager::{Ban, BanManager};
use darkrelay::server::channel::ChannelManager;
use darkrelay::server::crypto::EcdhManager;
use darkrelay::server::registry::Registry;
use darkrelay::time::Timestamp;

fn at(secs: i64) -> Timestamp {
    Timestamp::new(secs, 0)
}

fn draft(text: &str) -> ChatMessage {
    ChatMessage {
        id: 999,
        user_id: 1,
        username: "alice".to_string(),
        content: text.as_bytes().to_vec(),
        timestamp: at(0),
        nonce: None,
        metadata: Vec::new(),
    }
}

fn user(id: u64, name: &str) -> UserInfo {
    UserInfo { id, username: name.to_string(), joined_at: at(1) }
}

fn notice(text: &str) -> ServerMessage {
    ServerMessage::SystemMessage { meta: MessageMeta::new(1, at(0)), text: text.to_string() }
}

// ----- auth -----

#[test]
fn special_key_is_compared_exactly() {
    let auth = AuthService::new();
    assert!(auth.verify_special_key("darkrelay-dev-key", "darkrelay-dev-key"));
    assert!(!auth.verify_special_key("darkrelay-dev-key", "wrong"));
    assert!(!auth.verify_special_key("darkrelay-dev-key", "darkrelay-dev-key "));
}

#[test]
fn registration_mints_ids_and_passwords() {
    let mut auth = AuthService::new();
    let (alice, password) = auth.register_at("  alice \n".to_string(), Timestamp::new(3, 7)).unwrap();
    assert_eq!(alice.id, 1);
    assert_eq!(alice.username, "alice");
    assert_eq!(alice.joined_at, Timestamp::new(3, 7));
    assert_eq!(password, "dr-3000000007-1");
    let (bob, password) = auth.register_at("bob".to_string(), at(4)).unwrap();
    assert_eq!(bob.id, 2);
    assert_eq!(password, "dr-4000000000-2");
}

#[test]
fn registration_at_the_present_moment() {
    let mut auth = AuthService::new();
    let (alice, password) = auth.register("alice".to_string()).unwrap();
    assert_eq!(alice.id, 1);
    assert!(password.starts_with("dr-"));
    assert!(password.ends_with("-1"));
    assert!(alice.joined_at.secs > 1_600_000_000);
    assert!(alice.joined_at.nanos < 1_000_000_000);
}

#[test]
fn registration_rejects_empty_and_duplicate_names() {
    let mut auth = AuthService::new();
    assert_eq!(
        auth.register_at("   ".to_string(), at(1)).unwrap_err(),
        "username cannot be empty"
    );
    assert_eq!(auth.register_at(String::new(), at(1)).unwrap_err(), "username cannot be empty");
    auth.register_at("alice".to_string(), at(1)).unwrap();
    assert_eq!(
        auth.register_at(" alice ".to_string(), at(2)).unwrap_err(),
        "username already exists"
    );
    // A refused registration uses up no id.
    let (bob, _) = auth.register_at("bob".to_string(), at(3)).unwrap();
    assert_eq!(bob.id, 2);
}

#[test]
fn login_checks_name_and_password() {
    let mut auth = AuthService::new();
    let (alice, password) = auth.register_at("alice".to_string(), at(1)).unwrap();
    assert_eq!(auth.login("alice", &password).unwrap().id, alice.id);
    assert_eq!(auth.login("alice", "nope").unwrap_err(), "invalid password");
    assert_eq!(auth.login("bob", &password).unwrap_err(), "user not found");
}

#[test]
fn users_are_found_by_name() {
    let mut auth = AuthService::new();
    auth.register_at("alice".to_string(), at(1)).unwrap();
    auth.register_at("bob".to_string(), at(1)).unwrap();
    assert_eq!(auth.find_user_by_username("bob").unwrap().id, 2);
    assert!(auth.find_user_by_username("carol").is_none());
    assert_eq!(
        auth.get_all_users_map(),
        vec![(1, "alice".to_string()), (2, "bob".to_string())]
    );
    assert!(auth.has_room());
}

// ----- channels -----

#[test]
fn channels_are_created_once() {
    let mut channels = ChannelManager::new();
    assert_eq!(channels.ensure_channel("general", true, None, None), 1);
    assert_eq!(channels.ensure_channel("general", false, Some("pw".to_string()), None), 1);
    assert_eq!(channels.ensure_channel("other", true, None, Some(5)), 2);
    assert_eq!(channels.get_channel_id("other"), Some(2));
    assert_eq!(channels.get_channel_id("missing"), None);
}

#[test]
fn a_password_makes_a_channel_private() {
    let mut channels = ChannelManager::new();
    channels.ensure_channel("open", true, None, None);
    channels.ensure_channel("hidden", false, None, None);
    channels.ensure_channel("blank", true, Some(String::new()), None);
    channels.ensure_channel("secret", true, Some("hunter2".to_string()), None);
    let names: Vec<String> = channels.list_public().into_iter().map(|c| c.name).collect();
    assert_eq!(names, vec!["blank".to_string(), "open".to_string()]);
}

#[test]
fn public_channels_are_listed_sorted_by_name() {
    let mut channels = ChannelManager::new();
    for name in ["zeta", "alpha", "Mid", "beta", "alphabet", "a"] {
        channels.ensure_channel(name, true, None, None);
    }
    let listed = channels.list_public();
    let names: Vec<&str> = listed.iter().map(|c| c.name.as_str()).collect();
    assert_eq!(names, vec!["Mid", "a", "alpha", "alphabet", "beta", "zeta"]);
    assert_eq!(listed[0].id, 3);
    assert!(listed.iter().all(|c| c.is_public));
    assert!(listed.iter().all(|c| c.channel_type == ChannelType::Public));
}

#[test]
fn names_are_ordered_by_code_point() {
    let mut channels = ChannelManager::new();
    for name in ["\u{e9}clair", "zeta", "Zulu", "e", "\u{1f600}"] {
        channels.ensure_channel(name, true, None, None);
    }
    let listed = channels.list_public();
    let names: Vec<&str> = listed.iter().map(|c| c.name.as_str()).collect();
    assert_eq!(names, vec!["Zulu", "e", "zeta", "\u{e9}clair", "\u{1f600}"]);
    assert_eq!(channels.get_channel_id("\u{e9}clair"), Some(1));
    assert_eq!(channels.get_channel_id("eclair"), None);
    assert_eq!(channels.get_channel_id("zet"), None);
}

#[test]
fn join_creates_missing_channels() {
    let mut channels = ChannelManager::new();
    let info = channels.join(7, "lobby", None).unwrap();
    assert_eq!(info.id, 1);
    assert_eq!(info.name, "lobby");
    assert!(info.is_public);
    assert_eq!(channels.members("lobby"), vec![7]);
    let info = channels.join(8, "vault", Some("hunter2".to_string())).unwrap();
    assert_eq!(info.id, 2);
    assert!(!info.is_public);
    assert_eq!(channels.members("vault"), vec![8]);
}

#[test]
fn join_checks_the_channel_password() {
    let mut channels = ChannelManager::new();
    channels.join(1, "secret", Some("hunter2".to_string())).unwrap();
    assert_eq!(channels.join(2, "secret", None).unwrap_err(), "invalid channel password");
    assert_eq!(
        channels.join(2, "secret", Some("hunter3".to_string())).unwrap_err(),
        "invalid channel password"
    );
    assert_eq!(channels.members("secret"), vec![1]);
    assert!(channels.join(2, "secret", Some("hunter2".to_string())).is_ok());
    assert_eq!(channels.members("secret"), vec![1, 2]);
}

#[test]
fn joining_an_absent_channel_directly_fails() {
    let mut channels = ChannelManager::new();
    assert_eq!(channels.join_existing(1, "nowhere", None).unwrap_err(), "channel not found");
}

#[test]
fn joining_twice_lists_the_member_once() {
    let mut channels = ChannelManager::new();
    channels.join(1, "general", None).unwrap();
    channels.join(1, "general", None).unwrap();
    channels.join(2, "general", None).unwrap();
    assert_eq!(channels.members("general"), vec![1, 2]);
}

#[test]
fn leaving_is_harmless_when_absent() {
    let mut channels = ChannelManager::new();
    channels.join(1, "general", None).unwrap();
    channels.join(2, "general", None).unwrap();
    channels.leave(3, "general");
    channels.leave(1, "nowhere");
    channels.leave(1, "general");
    assert_eq!(channels.members("general"), vec![2]);
    assert_eq!(channels.members("nowhere"), Vec::<u64>::new());
}

#[test]
fn password_hashes_are_salted() {
    let a = ChannelManager::hash_for(&Some("hunter2".to_string())).unwrap();
    let b = ChannelManager::hash_for(&Some("hunter2".to_string())).unwrap();
    assert!(a.starts_with("$argon2id$"));
    assert_ne!(a, b);
    assert!(ChannelManager::hash_for(&Some(String::new())).is_none());
    assert!(ChannelManager::hash_for(&None).is_none());
}

#[test]
fn hashed_channels_admit_the_right_password() {
    let mut channels = ChannelManager::new();
    let hash = ChannelManager::hash_for(&Some("hunter2".to_string()));
    channels.ensure_channel_hashed("secret", true, hash, Some(1));
    assert!(channels.join_existing(1, "secret", Some("hunter2".to_string())).is_ok());
    assert!(channels.join_existing(2, "secret", Some("HUNTER2".to_string())).is_err());
    // A hash that is no PHC string admits nobody.
    channels.ensure_channel_hashed("broken", true, Some("hunter2".to_string()), None);
    assert!(channels.join_existing(1, "broken", Some("hunter2".to_string())).is_err());
}

#[test]
fn messages_get_fresh_ids_and_the_given_stamp() {
    let mut channels = ChannelManager::new();
    channels.ensure_channel("a", true, None, None);
    channels.ensure_channel("b", true, None, None);
    let first = channels.add_message_at("a", draft("one"), at(10)).unwrap();
    let second = channels.add_message_at("b", draft("two"), at(11)).unwrap();
    let third = channels.add_message_at("a", draft("three"), at(12)).unwrap();
    assert_eq!((first.id, second.id, third.id), (1, 2, 3));
    assert_eq!(first.timestamp, at(10));
    assert_eq!(first.content, b"one");
    assert_eq!(first.username, "alice");
    assert_eq!(
        channels.add_message_at("missing", draft("x"), at(13)).unwrap_err(),
        "channel not found"
    );
    // The refused message used up no id.
    assert_eq!(channels.add_message_at("a", draft("four"), at(14)).unwrap().id, 4);
}

#[test]
fn messages_are_stamped_by_the_clock() {
    let mut channels = ChannelManager::new();
    channels.ensure_channel("a", true, None, None);
    let stored = channels.add_message("a", draft("now")).unwrap();
    assert_eq!(stored.id, 1);
    assert!(stored.timestamp.secs > 1_600_000_000);
}

#[test]
fn history_keeps_the_newest_hundred() {
    let mut channels = ChannelManager::new();
    channels.ensure_channel("a", true, None, None);
    for i in 0..130u64 {
        channels.add_message_at("a", draft(&i.to_string()), at(i as i64)).unwrap();
    }
    let all = channels.history("a", 1000);
    assert_eq!(all.len(), 100);
    assert_eq!(all[0].id, 31);
    assert_eq!(all[99].id, 130);
    for pair in all.windows(2) {
        assert!(pair[0].id < pair[1].id);
        assert!(!pair[0].timestamp.after(&pair[1].timestamp));
    }
}

#[test]
fn history_returns_the_newest_oldest_first() {
    let mut channels = ChannelManager::new();
    channels.ensure_channel("a", true, None, None);
    for i in 0..5u64 {
        channels.add_message_at("a", draft(&i.to_string()), at(i as i64)).unwrap();
    }
    let ids: Vec<u64> = channels.history("a", 3).iter().map(|m| m.id).collect();
    assert_eq!(ids, vec![3, 4, 5]);
    assert_eq!(channels.history("a", 0).len(), 0);
    assert_eq!(channels.history("a", 5).len(), 5);
    assert_eq!(channels.history("missing", 5).len(), 0);
}

#[test]
fn messages_and_channels_can_be_deleted() {
    let mut channels = ChannelManager::new();
    channels.ensure_channel("a", true, None, None);
    for i in 0..3u64 {
        channels.add_message_at("a", draft(&i.to_string()), at(i as i64)).unwrap();
    }
    assert!(channels.delete_message("a", 2));
    assert!(!channels.delete_message("a", 2));
    assert!(!channels.delete_message("missing", 1));
    let ids: Vec<u64> = channels.history("a", 10).iter().map(|m| m.id).collect();
    assert_eq!(ids, vec![1, 3]);
    channels.delete_channel("a");
    assert_eq!(channels.get_channel_id("a"), None);
    channels.delete_channel("a");
    // Ids are never handed out again.
    assert_eq!(channels.ensure_channel("a", true, None, None), 2);
    assert_eq!(channels.add_message_at("a", draft("x"), at(9)).unwrap().id, 4);
}

// ----- registry -----

#[test]
fn registry_tracks_users_and_channels() {
    let mut registry = Registry::new();
    registry.register(1);
    registry.register(2);
    assert!(registry.is_registered(1));
    assert!(!registry.is_registered(3));
    assert!(registry.user(1).is_none());
    registry.set_user(1, user(10, "alice"));
    registry.set_user(3, user(11, "ghost"));
    assert_eq!(registry.user(1).unwrap().username, "alice");
    assert!(registry.user(3).is_none());
    registry.set_channel(1, Some("general".to_string()));
    registry.set_channel(3, Some("general".to_string()));
    assert_eq!(registry.channel(1), Some("general".to_string()));
    assert_eq!(registry.channel(2), None);
    assert_eq!(registry.channel(3), None);
    registry.set_channel(1, None);
    assert_eq!(registry.channel(1), None);
    registry.remove(1);
    assert!(!registry.is_registered(1));
    assert!(registry.user(1).is_none());
}

#[test]
fn registering_again_resets_the_handle() {
    let mut registry = Registry::new();
    registry.register(1);
    registry.set_user(1, user(10, "alice"));
    registry.set_channel(1, Some("general".to_string()));
    registry.register(1);
    assert!(registry.user(1).is_none());
    assert_eq!(registry.channel(1), None);
}

#[test]
fn sending_queues_for_registered_connections_only() {
    let mut registry = Registry::new();
    registry.register(1);
    registry.register(2);
    registry.send(1, notice("a"));
    registry.send(9, notice("dropped"));
    registry.send_many(&[2, 9, 1, 2], &notice("b"));
    let queued = registry.take_outbox();
    let to: Vec<u64> = queued.iter().map(|o| o.to).collect();
    assert_eq!(to, vec![1, 2, 1, 2]);
    assert!(matches!(&queued[0].message, ServerMessage::SystemMessage { text, .. } if text == "a"));
    assert!(matches!(&queued[3].message, ServerMessage::SystemMessage { text, .. } if text == "b"));
    assert!(registry.take_outbox().is_empty());
}

#[test]
fn connections_are_found_by_user() {
    let mut registry = Registry::new();
    for id in 1..=4 {
        registry.register(id);
    }
    registry.set_user(1, user(10, "alice"));
    registry.set_user(2, user(11, "bob"));
    registry.set_user(4, user(10, "alice"));
    assert_eq!(registry.find_clients_by_user_id(10), vec![1, 4]);
    assert_eq!(registry.find_clients_by_user_id(11), vec![2]);
    assert_eq!(registry.find_clients_by_user_id(12), Vec::<u64>::new());
}

// ----- roles -----

#[test]
fn roles_default_to_user() {
    let mut admin = AdminManager::new();
    assert_eq!(admin.get_role(1, 1), Role::User);
    admin.set_channel_creator(1, 5);
    assert_eq!(admin.get_role(1, 5), Role::Admin);
    assert_eq!(admin.get_role(2, 5), Role::User);
    admin.set_role(1, 5, Role::SuperAdmin);
    admin.set_role(1, 6, Role::Moderator);
    assert_eq!(admin.get_role(1, 5), Role::SuperAdmin);
    assert_eq!(admin.get_role(1, 6), Role::Moderator);
}

#[test]
fn permission_checks_follow_the_role() {
    let mut admin = AdminManager::new();
    admin.set_role(1, 2, Role::Moderator);
    admin.set_role(1, 3, Role::Admin);
    admin.set_role(1, 4, Role::SuperAdmin);
    let everything = [
        Permission::SendMessage,
        Permission::DeleteMessage,
        Permission::ManageChannel,
        Permission::BanUser,
        Permission::KickUser,
        Permission::MuteUser,
        Permission::PromoteUser,
        Permission::ViewLogs,
        Permission::ManageRoles,
    ];
    for user_id in 1..=4u64 {
        let role = admin.get_role(1, user_id);
        for p in everything {
            assert_eq!(
                admin.has_permission(1, user_id, p),
                role.default_permissions().contains(&p)
            );
        }
    }
    assert!(!admin.has_permission(1, 1, Permission::DeleteMessage));
    assert!(admin.has_permission(1, 2, Permission::KickUser));
    assert!(!admin.has_permission(1, 2, Permission::BanUser));
    assert!(admin.has_permission(1, 3, Permission::BanUser));
    assert!(!admin.has_permission(1, 3, Permission::ManageRoles));
    assert!(admin.has_permission(1, 4, Permission::ManageRoles));
}

#[test]
fn sending_depends_on_the_channel_type() {
    let mut admin = AdminManager::new();
    admin.set_role(1, 2, Role::Moderator);
    admin.set_role(1, 3, Role::Admin);
    admin.set_role(1, 4, Role::SuperAdmin);
    assert_eq!(admin.get_channel_type(1), ChannelType::Public);
    let table = [
        (ChannelType::Public, [true, true, true, true]),
        (ChannelType::Private, [true, true, true, true]),
        (ChannelType::AdminOnly, [false, false, true, true]),
        (ChannelType::ReadOnly, [false, false, true, true]),
        (ChannelType::Announcement, [false, false, false, true]),
    ];
    for (kind, allowed) in table {
        admin.set_channel_type(1, kind);
        assert_eq!(admin.get_channel_type(1), kind);
        for user_id in 1..=4u64 {
            assert_eq!(admin.can_send_message(1, user_id), allowed[(user_id - 1) as usize]);
        }
    }
}

#[test]
fn admins_are_listed_with_their_names() {
    let mut admin = AdminManager::new();
    admin.set_role(1, 2, Role::Moderator);
    admin.set_role(1, 3, Role::User);
    admin.set_role(1, 4, Role::SuperAdmin);
    admin.set_role(1, 5, Role::Admin);
    admin.set_role(2, 6, Role::Admin);
    let directory = vec![
        (2, "mod".to_string()),
        (3, "plain".to_string()),
        (4, "root".to_string()),
        (6, "elsewhere".to_string()),
    ];
    let listed = admin.list_admins(1, &directory);
    let shown: Vec<(u64, &str, Role)> =
        listed.iter().map(|a| (a.user_id, a.username.as_str(), a.role)).collect();
    assert_eq!(shown, vec![(2, "mod", Role::Moderator), (4, "root", Role::SuperAdmin)]);
    assert!(admin.list_admins(3, &directory).is_empty());
    assert_eq!(lookup_name(&directory, 4), Some("root".to_string()));
    assert_eq!(lookup_name(&directory, 5), None);
}

#[test]
fn the_log_keeps_the_newest_thousand() {
    let mut admin = AdminManager::new();
    for i in 0..1005u64 {
        admin.log_action_at(
            1,
            7,
            "root".to_string(),
            "act".to_string(),
            i.to_string(),
            String::new(),
            at(i as i64),
        );
    }
    let all = admin.get_logs(1, 5000);
    assert_eq!(all.len(), 1000);
    assert_eq!(all[0].target, "1004");
    assert_eq!(all[999].target, "5");
    let few = admin.get_logs(1, 2);
    assert_eq!(few.len(), 2);
    assert_eq!(few[0].target, "1004");
    assert_eq!(few[1].target, "1003");
    assert_eq!(few[0].timestamp, at(1004));
    assert_eq!(few[0].user_id, 7);
    assert!(admin.get_logs(2, 10).is_empty());
}

#[test]
fn log_entries_are_stamped_by_the_clock() {
    let mut admin = AdminManager::new();
    admin.log_action(1, 7, "root".into(), "act".into(), "t".into(), "d".into());
    admin.log_entry(
        1,
        LogEntry {
            timestamp: at(5),
            user_id: 8,
            username: "x".into(),
            action: "a".into(),
            target: "t".into(),
            details: "d".into(),
        },
    );
    let logs = admin.get_logs(1, 10);
    assert_eq!(logs.len(), 2);
    assert_eq!(logs[0].user_id, 8);
    assert!(logs[1].timestamp.secs > 1_600_000_000);
    assert_eq!(logs[1].action, "act");
}

#[test]
fn removing_a_channel_forgets_its_roles() {
    let mut admin = AdminManager::new();
    admin.set_role(1, 2, Role::Admin);
    admin.set_role(2, 2, Role::Moderator);
    admin.set_channel_type(1, ChannelType::ReadOnly);
    admin.log_action_at(1, 2, "a".into(), "b".into(), "c".into(), "d".into(), at(1));
    admin.remove_channel(1);
    assert_eq!(admin.get_role(1, 2), Role::User);
    assert_eq!(admin.get_channel_type(1), ChannelType::Public);
    assert!(admin.get_logs(1, 10).is_empty());
    assert_eq!(admin.get_role(2, 2), Role::Moderator);
}

// ----- bans -----

#[test]
fn a_ban_is_in_effect_until_it_expires() {
    let mut bans = BanManager::new();
    let until = bans.ban_user_at(1, 5, "eve".into(), "root".into(), Some(2), None, at(100));
    assert_eq!(until, Some(at(102)));
    assert!(bans.is_banned_at(1, 5, &at(100)));
    assert!(bans.is_banned_at(1, 5, &at(101)));
    assert!(bans.is_banned_at(1, 5, &Timestamp::new(101, 999_999_999)));
    assert!(!bans.is_banned_at(1, 5, &at(102)));
    assert!(!bans.is_banned_at(1, 5, &at(104)));
    assert!(!bans.is_banned_at(2, 5, &at(100)));
    assert!(!bans.is_banned_at(1, 6, &at(100)));
}

#[test]
fn a_permanent_ban_never_expires() {
    let mut bans = BanManager::new();
    let until = bans.ban_user_at(1, 5, "eve".into(), "root".into(), None, Some("spam".into()), at(1));
    assert_eq!(until, None);
    assert!(bans.is_banned_at(1, 5, &at(i64::MAX)));
    assert!(bans.is_banned(1, 5));
    let ban = bans.get_ban_info(1, 5).unwrap();
    assert_eq!(ban.username, "eve");
    assert_eq!(ban.banned_by, "root");
    assert_eq!(ban.reason.as_deref(), Some("spam"));
}

#[test]
fn bans_by_the_clock() {
    let mut bans = BanManager::new();
    let until = bans.ban_user(1, 5, "eve".into(), "root".into(), Some(3600), None).unwrap();
    assert!(until.secs > 1_600_000_000);
    assert!(bans.is_banned(1, 5));
    assert_eq!(bans.list_bans(1).len(), 1);
    bans.ban_user(1, 6, "old".into(), "root".into(), Some(0), None);
    assert!(!bans.is_banned(1, 6));
    bans.cleanup_expired();
    assert!(bans.get_ban_info(1, 6).is_none());
    assert!(bans.get_ban_info(1, 5).is_some());
}

#[test]
fn a_new_ban_replaces_the_old_one() {
    let mut bans = BanManager::new();
    bans.ban_user_at(1, 5, "eve".into(), "root".into(), None, None, at(1));
    bans.ban_user_at(1, 5, "eve".into(), "mod".into(), Some(10), None, at(1));
    assert_eq!(bans.get_ban_info(1, 5).unwrap().banned_by, "mod");
    assert!(!bans.is_banned_at(1, 5, &at(11)));
    bans.put_ban(
        1,
        Ban {
            user_id: 5,
            username: "eve".into(),
            banned_until: None,
            banned_by: "root".into(),
            reason: None,
        },
    );
    assert!(bans.is_banned_at(1, 5, &at(11)));
    assert_eq!(bans.list_bans_at(1, &at(0)).len(), 1);
}

#[test]
fn bans_can_be_lifted() {
    let mut bans = BanManager::new();
    bans.ban_user_at(1, 5, "eve".into(), "root".into(), None, None, at(1));
    assert!(!bans.unban_user(1, 6));
    assert!(!bans.unban_user(2, 5));
    assert!(bans.unban_user(1, 5));
    assert!(!bans.unban_user(1, 5));
    assert!(!bans.is_banned_at(1, 5, &at(1)));
}

#[test]
fn only_bans_in_effect_are_listed_and_kept() {
    let mut bans = BanManager::new();
    bans.ban_user_at(1, 5, "short".into(), "root".into(), Some(2), None, at(100));
    bans.ban_user_at(1, 6, "forever".into(), "root".into(), None, None, at(100));
    bans.ban_user_at(1, 7, "long".into(), "root".into(), Some(50), None, at(100));
    bans.ban_user_at(2, 5, "other".into(), "root".into(), Some(1), None, at(100));
    let names = |list: Vec<darkrelay::protocol::messages::BanInfo>| -> Vec<String> {
        list.into_iter().map(|b| b.username).collect()
    };
    assert_eq!(names(bans.list_bans_at(1, &at(101))), vec!["short", "forever", "long"]);
    assert_eq!(names(bans.list_bans_at(1, &at(104))), vec!["forever", "long"]);
    assert!(bans.get_ban_info(1, 5).is_some());
    bans.cleanup_expired_at(&at(104));
    assert!(bans.get_ban_info(1, 5).is_none());
    assert!(bans.get_ban_info(2, 5).is_none());
    assert!(bans.get_ban_info(1, 6).is_some());
    assert_eq!(bans.get_ban_info(1, 7).unwrap().banned_until, Some(at(150)));
    assert_eq!(names(bans.list_bans_at(1, &at(104))), vec!["forever", "long"]);
}

// ----- key exchange -----

#[test]
fn key_exchange_needs_thirty_two_bytes() {
    let mut ecdh = EcdhManager::new();
    assert_eq!(ecdh.generate_keypair(1, &[0u8; 31]).unwrap_err(), "invalid public key length");
    assert!(ecdh.get_shared_secret(1).is_none());
    assert!(EcdhManager::fresh_exchange(&[1u8; 33]).is_none());
}

#[test]
fn key_exchange_stores_a_fresh_secret() {
    let mut ecdh = EcdhManager::new();
    let client_public = [9u8; 32];
    let first = ecdh.generate_keypair(1, &client_public).unwrap();
    assert_eq!(first.len(), 32);
    assert_ne!(first, client_public.to_vec());
    let secret = ecdh.get_shared_secret(1).unwrap().clone();
    assert_eq!(secret.len(), 32);
    let second = ecdh.generate_keypair(1, &client_public).unwrap();
    assert_ne!(first, second);
    assert_ne!(&secret, ecdh.get_shared_secret(1).unwrap());
    ecdh.remove(1);
    assert!(ecdh.get_shared_secret(1).is_none());
    ecdh.store_secret(2, vec![3u8; 32]);
    assert_eq!(ecdh.get_shared_secret(2), Some(&vec![3u8; 32]));
}
