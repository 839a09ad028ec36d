use darkrelay::protocol::channel::ChannelType;
use darkrelay::protocol::messages::{ClientMessage, MessageMeta, ServerMessage};
use darkrelay::protocol::permissions::Role;
use darkrelay::server::handler::extract_nonce;
use darkrelay::server::model::{Flow, Session, SessionState};
use darkrelay::server::registry::Outbound;
use darkrelay::server::session::Outside;
use darkrelay::server::state::AppState;
use darkrelay::time::Timestamp;

const KEY: &str = "darkrelay-dev-key";

fn at(secs: i64) -> Timestamp {
    Timestamp::new(secs, 0)
}

fn meta() -> MessageMeta {
    MessageMeta::new(1, at(0))
}

fn relay() -> AppState {
    let mut state = AppState::new(KEY.to_string());
    state.seed_channel("general");
    state
}

fn auth(key: &str) -> ClientMessage {
    ClientMessage::Auth { meta: meta(), key: key.to_string() }
}

fn register(name: &str) -> ClientMessage {
    ClientMessage::RegisterUser { meta: meta(), username: name.to_string() }
}

fn join(name: &str, password: Option<&str>) -> ClientMessage {
    ClientMessage::JoinChannel {
        meta: meta(),
        name: name.to_string(),
        password: password.map(|p| p.to_string()),
    }
}

fn say(channel: &str, content: &[u8]) -> ClientMessage {
    ClientMessage::SendMessage {
        meta: meta(),
        channel: channel.to_string(),
        content: content.to_vec(),
        metadata: Vec::new(),
    }
}

fn promote(channel: &str, username: &str, role: Role) -> ClientMessage {
    ClientMessage::PromoteUser {
        meta: meta(),
        channel: channel.to_string(),
        username: username.to_string(),
        role,
    }
}

/// Opens a session and takes it through the special key and a registration.
fn member(state: &mut AppState, name: &str) -> Session {
    let mut session = state.connect().unwrap();
    assert_eq!(state.dispatch(&mut session, auth(KEY), at(1)), Flow::Continue);
    assert_eq!(state.dispatch(&mut session, register(name), at(1)), Flow::Continue);
    assert!(session.user_authed);
    state.take_outbox();
    session
}

fn send(state: &mut AppState, session: &mut Session, message: ClientMessage, now: i64) -> Vec<Outbound> {
    assert!(state.has_room());
    assert_eq!(state.dispatch(session, message, at(now)), Flow::Continue);
    state.take_outbox()
}

fn for_client(queued: &[Outbound], id: u64) -> Vec<&ServerMessage> {
    queued.iter().filter(|o| o.to == id).map(|o| &o.message).collect()
}

/// Every connection is in exactly the member set of its current channel.
fn assert_consistent(state: &AppState, clients: &[u64], channels: &[&str]) {
    for id in clients {
        let current = state.registry.channel(*id);
        for name in channels {
            let inside = state.channels.members(name).contains(id);
            assert_eq!(inside, current.as_deref() == Some(*name), "client {id} and {name}");
        }
    }
}

#[test]
fn admission_register_join_echo() {
    let mut state = relay();
    let mut session = state.connect().unwrap();
    assert_eq!(session.client_id, 1);
    let queued = state.take_outbox();
    assert_eq!(queued.len(), 1);
    assert_eq!(queued[0].to, 1);
    match &queued[0].message {
        ServerMessage::AuthChallenge { meta, message } => {
            assert_eq!(message, "special auth key required");
            assert_eq!(meta.id, 1);
            assert!(meta.timestamp.secs > 1_600_000_000);
        }
        other => panic!("expected AuthChallenge, got {other:?}"),
    }

    assert_eq!(session.state(), SessionState::AwaitKey);
    let flow = state.handle_message(&mut session, auth(KEY));
    assert_eq!(flow, Flow::Continue);
    assert!(session.special_authed);
    assert_eq!(session.state(), SessionState::KeyAccepted);
    let queued = state.take_outbox();
    assert_eq!(queued.len(), 1);
    assert!(matches!(
        &queued[0].message,
        ServerMessage::SystemMessage { text, meta } if text == "special key accepted; send ECDH public key" && meta.id == 2
    ));

    let client_public = vec![7u8; 32];
    state.handle_message(
        &mut session,
        ClientMessage::EcdhPublicKey { meta: meta(), public_key: client_public },
    );
    assert!(session.ecdh_complete);
    assert_eq!(session.state(), SessionState::EcdhReady);
    let queued = state.take_outbox();
    assert_eq!(queued.len(), 2);
    match &queued[0].message {
        ServerMessage::EcdhAck { public_key, .. } => assert_eq!(public_key.len(), 32),
        other => panic!("expected EcdhAck, got {other:?}"),
    }
    assert!(matches!(
        &queued[1].message,
        ServerMessage::SystemMessage { text, .. } if text == "encryption enabled; please login or register"
    ));
    assert_eq!(state.ecdh.get_shared_secret(1).unwrap().len(), 32);

    state.handle_message(&mut session, register("alice"));
    assert!(session.user_authed);
    assert_eq!(session.state(), SessionState::Authed);
    let queued = state.take_outbox();
    assert_eq!(queued.len(), 2);
    match &queued[0].message {
        ServerMessage::AuthSuccess { user, generated_password, .. } => {
            assert_eq!(user.id, 1);
            assert_eq!(user.username, "alice");
            assert!(generated_password.as_ref().unwrap().starts_with("dr-"));
        }
        other => panic!("expected AuthSuccess, got {other:?}"),
    }
    match &queued[1].message {
        ServerMessage::ChannelList { channels, .. } => {
            assert!(channels.iter().any(|c| c.name == "general"));
        }
        other => panic!("expected ChannelList, got {other:?}"),
    }

    state.handle_message(&mut session, join("general", None));
    let queued = state.take_outbox();
    assert_eq!(queued.len(), 3);
    match &queued[0].message {
        ServerMessage::JoinSuccess { channel, .. } => {
            assert_eq!(channel.name, "general");
            assert_eq!(channel.id, 1);
            assert!(channel.is_public);
            assert_eq!(channel.channel_type, ChannelType::Public);
            assert_eq!(channel.user_role, Some(Role::User));
        }
        other => panic!("expected JoinSuccess, got {other:?}"),
    }
    match &queued[1].message {
        ServerMessage::HistoryChunk { channel, messages, .. } => {
            assert_eq!(channel, "general");
            assert!(messages.is_empty());
        }
        other => panic!("expected HistoryChunk, got {other:?}"),
    }
    assert!(matches!(
        &queued[2].message,
        ServerMessage::UserJoined { channel, user, .. } if channel == "general" && user.username == "alice"
    ));

    state.handle_message(&mut session, say("general", b"hello"));
    let queued = state.take_outbox();
    assert_eq!(queued.len(), 1);
    assert_eq!(queued[0].to, 1);
    match &queued[0].message {
        ServerMessage::MessageReceived { channel, message, .. } => {
            assert_eq!(channel, "general");
            assert_eq!(message.id, 1);
            assert_eq!(message.username, "alice");
            assert_eq!(message.user_id, 1);
            assert_eq!(message.content, b"hello");
            assert_eq!(message.nonce, None);
        }
        other => panic!("expected MessageReceived, got {other:?}"),
    }
}

#[test]
fn broadcast_fan_out() {
    let mut state = relay();
    let mut a = member(&mut state, "alice");
    let mut b = member(&mut state, "bob");
    send(&mut state, &mut a, join("general", None), 2);
    let queued = send(&mut state, &mut b, join("general", None), 2);
    // Both members hear that bob joined.
    assert_eq!(for_client(&queued, a.client_id).len(), 1);
    assert_eq!(for_client(&queued, b.client_id).len(), 3);

    let mut queued = send(&mut state, &mut a, say("general", b"hi"), 3);
    queued.extend(send(&mut state, &mut a, say("general", b"again"), 4));
    for id in [a.client_id, b.client_id] {
        let got = for_client(&queued, id);
        assert_eq!(got.len(), 2);
        match (got[0], got[1]) {
            (
                ServerMessage::MessageReceived { message: first, .. },
                ServerMessage::MessageReceived { message: second, .. },
            ) => {
                assert_eq!(first.content, b"hi");
                assert_eq!(first.timestamp, at(3));
                assert_eq!(second.content, b"again");
                assert!(first.id < second.id);
            }
            other => panic!("expected two MessageReceived, got {other:?}"),
        }
    }
}

#[test]
fn bad_special_key() {
    let mut state = relay();
    let mut session = state.connect().unwrap();
    state.take_outbox();
    let flow = state.handle_message(&mut session, auth("wrong"));
    assert_eq!(flow, Flow::Close);
    assert!(!session.special_authed);
    let queued = state.take_outbox();
    assert_eq!(queued.len(), 1);
    assert!(matches!(
        &queued[0].message,
        ServerMessage::AuthFailure { reason, .. } if reason == "invalid special key"
    ));
    state.cleanup_disconnect(session.client_id);
    assert!(!state.registry.is_registered(session.client_id));
}

#[test]
fn channel_password() {
    let mut state = relay();
    let mut a = member(&mut state, "alice");
    let mut b = member(&mut state, "bob");
    let queued = send(&mut state, &mut a, join("secret", Some("hunter2")), 2);
    match for_client(&queued, a.client_id)[0] {
        ServerMessage::JoinSuccess { channel, .. } => {
            assert_eq!(channel.name, "secret");
            assert!(!channel.is_public);
            assert_eq!(channel.user_role, Some(Role::Admin));
        }
        other => panic!("expected JoinSuccess, got {other:?}"),
    }
    let queued = send(&mut state, &mut b, join("secret", None), 3);
    assert_eq!(queued.len(), 1);
    assert!(matches!(
        &queued[0].message,
        ServerMessage::JoinFailure { channel, reason, .. } if channel == "secret" && reason == "invalid channel password"
    ));
    assert_eq!(state.channels.members("secret"), vec![a.client_id]);
    let queued = send(&mut state, &mut b, join("secret", Some("hunter2")), 4);
    assert!(matches!(for_client(&queued, b.client_id)[0], ServerMessage::JoinSuccess { .. }));
    assert_eq!(state.channels.members("secret"), vec![a.client_id, b.client_id]);
    // Private channels are not listed.
    let queued = send(&mut state, &mut b, ClientMessage::ListChannels { meta: meta() }, 5);
    match &queued[0].message {
        ServerMessage::ChannelList { channels, .. } => {
            let names: Vec<&str> = channels.iter().map(|c| c.name.as_str()).collect();
            assert_eq!(names, vec!["general"]);
        }
        other => panic!("expected ChannelList, got {other:?}"),
    }
}

#[test]
fn ban_lifecycle() {
    let mut state = relay();
    let mut admin = member(&mut state, "root");
    let mut u = member(&mut state, "eve");
    send(&mut state, &mut admin, join("den", None), 10);
    send(&mut state, &mut u, join("den", None), 10);
    let queued = send(
        &mut state,
        &mut admin,
        ClientMessage::BanUser {
            meta: meta(),
            channel: "den".to_string(),
            username: "eve".to_string(),
            duration_seconds: Some(2),
            reason: Some("spam".to_string()),
        },
        100,
    );
    // The target is put out and told; the remaining member hears of the ban.
    assert_eq!(state.channels.members("den"), vec![admin.client_id]);
    assert_eq!(state.registry.channel(u.client_id), None);
    let told = for_client(&queued, u.client_id);
    assert_eq!(told.len(), 1);
    assert!(matches!(
        told[0],
        ServerMessage::SystemMessage { text, .. } if text == "You have been banned from this channel. Reason: spam"
    ));
    let heard = for_client(&queued, admin.client_id);
    assert_eq!(heard.len(), 1);
    match heard[0] {
        ServerMessage::UserBanned { user_id, username, banned_until, banned_by, reason, .. } => {
            assert_eq!(*user_id, 2);
            assert_eq!(username, "eve");
            assert_eq!(*banned_until, Some(at(102)));
            assert_eq!(banned_by, "root");
            assert_eq!(reason.as_deref(), Some("spam"));
        }
        other => panic!("expected UserBanned, got {other:?}"),
    }

    let queued = send(&mut state, &mut u, join("den", None), 101);
    assert_eq!(queued.len(), 1);
    match &queued[0].message {
        ServerMessage::JoinFailure { channel, reason, .. } => {
            assert_eq!(channel, "den");
            assert_eq!(reason, "Banned until 1970-01-01 00:01:42 UTC");
        }
        other => panic!("expected JoinFailure, got {other:?}"),
    }
    assert_eq!(state.channels.members("den"), vec![admin.client_id]);

    // Any other connection of the same user is refused as well.
    let mut second = state.connect().unwrap();
    state.dispatch(&mut second, auth(KEY), at(101));
    let password = "dr-1000000000-2";
    state.dispatch(
        &mut second,
        ClientMessage::Login {
            meta: meta(),
            username: "eve".to_string(),
            password: password.to_string(),
        },
        at(101),
    );
    assert!(second.user_authed);
    state.take_outbox();
    let queued = send(&mut state, &mut second, join("den", None), 101);
    assert!(matches!(&queued[0].message, ServerMessage::JoinFailure { .. }));

    state.tick_at(&at(104));
    assert!(state.bans.get_ban_info(2, 2).is_none());
    let queued = send(&mut state, &mut u, join("den", None), 104);
    assert!(matches!(for_client(&queued, u.client_id)[0], ServerMessage::JoinSuccess { .. }));
    assert_eq!(state.channels.members("den"), vec![admin.client_id, u.client_id]);
}

#[test]
fn permanent_ban_and_unban() {
    let mut state = relay();
    let mut admin = member(&mut state, "root");
    let mut u = member(&mut state, "eve");
    send(&mut state, &mut admin, join("den", None), 10);
    send(
        &mut state,
        &mut admin,
        ClientMessage::BanUser {
            meta: meta(),
            channel: "den".to_string(),
            username: "eve".to_string(),
            duration_seconds: None,
            reason: None,
        },
        100,
    );
    let queued = send(&mut state, &mut u, join("den", None), 10_000);
    assert!(matches!(
        &queued[0].message,
        ServerMessage::JoinFailure { reason, .. } if reason == "Permanently banned from channel"
    ));
    state.tick_at(&at(20_000));
    let queued = send(&mut state, &mut u, join("den", None), 20_001);
    assert!(matches!(&queued[0].message, ServerMessage::JoinFailure { .. }));
    let unban = ClientMessage::UnbanUser {
        meta: meta(),
        channel: "den".to_string(),
        username: "eve".to_string(),
    };
    let queued = send(&mut state, &mut admin, unban.clone(), 20_002);
    assert!(matches!(
        for_client(&queued, admin.client_id)[0],
        ServerMessage::UserUnbanned { username, unbanned_by, .. } if username == "eve" && unbanned_by == "root"
    ));
    let queued = send(&mut state, &mut admin, unban, 20_003);
    assert!(matches!(
        &queued[0].message,
        ServerMessage::AdminError { reason, .. } if reason == "User is not banned"
    ));
    let queued = send(&mut state, &mut u, join("den", None), 20_004);
    assert!(matches!(for_client(&queued, u.client_id)[0], ServerMessage::JoinSuccess { .. }));
    let queued = send(
        &mut state,
        &mut admin,
        ClientMessage::ViewLogs { meta: meta(), channel: "den".to_string(), limit: 10 },
        20_005,
    );
    match &queued[0].message {
        ServerMessage::LogList { logs, .. } => {
            let lines: Vec<(&str, &str, &str)> = logs
                .iter()
                .map(|l| (l.action.as_str(), l.target.as_str(), l.details.as_str()))
                .collect();
            assert_eq!(
                lines,
                vec![("unban_user", "eve", "Unbanned"), ("ban_user", "eve", "Permanently banned")]
            );
        }
        other => panic!("expected LogList, got {other:?}"),
    }
}

#[test]
fn send_permission_in_announcement() {
    let mut state = relay();
    let mut admin = member(&mut state, "root");
    let mut moderator = member(&mut state, "mod");
    let mut chief = member(&mut state, "chief");
    send(&mut state, &mut admin, join("news", None), 10);
    send(&mut state, &mut moderator, join("news", None), 10);
    send(&mut state, &mut chief, join("news", None), 10);
    send(&mut state, &mut admin, promote("news", "mod", Role::Moderator), 11);
    let queued = send(&mut state, &mut admin, promote("news", "chief", Role::SuperAdmin), 11);
    assert_eq!(queued.len(), 3);
    assert!(matches!(
        &queued[0].message,
        ServerMessage::UserPromoted { username, new_role: Role::SuperAdmin, promoted_by, user_id: 3, .. }
            if username == "chief" && promoted_by == "root"
    ));
    let queued = send(
        &mut state,
        &mut admin,
        ClientMessage::ChangeChannelType {
            meta: meta(),
            channel: "news".to_string(),
            channel_type: ChannelType::Announcement,
        },
        12,
    );
    assert_eq!(queued.len(), 3);
    assert!(matches!(
        &queued[0].message,
        ServerMessage::ChannelTypeChanged { new_type: ChannelType::Announcement, changed_by, .. } if changed_by == "root"
    ));

    let queued = send(&mut state, &mut moderator, say("news", b"psst"), 13);
    assert_eq!(queued.len(), 1);
    assert_eq!(queued[0].to, moderator.client_id);
    match &queued[0].message {
        ServerMessage::AdminError { reason, .. } => {
            assert_eq!(reason, "You lack permission to send messages in this channel");
            assert!(reason.contains("lack permission"));
        }
        other => panic!("expected AdminError, got {other:?}"),
    }
    // Not even the Admin who changed the type may speak.
    let queued = send(&mut state, &mut admin, say("news", b"me too"), 13);
    assert!(matches!(&queued[0].message, ServerMessage::AdminError { .. }));
    assert!(state.channels.history("news", 10).is_empty());

    let queued = send(&mut state, &mut chief, say("news", b"hear ye"), 14);
    assert_eq!(queued.len(), 3);
    for o in &queued {
        assert!(matches!(
            &o.message,
            ServerMessage::MessageReceived { message, .. } if message.content == b"hear ye" && message.username == "chief"
        ));
    }
}

#[test]
fn joining_another_channel_moves_the_connection() {
    let mut state = relay();
    let mut a = member(&mut state, "alice");
    let mut b = member(&mut state, "bob");
    let mut c = member(&mut state, "carol");
    send(&mut state, &mut a, join("x", None), 2);
    send(&mut state, &mut b, join("x", None), 2);
    send(&mut state, &mut c, join("y", None), 2);
    assert_consistent(&state, &[1, 2, 3], &["general", "x", "y"]);
    let queued = send(&mut state, &mut a, join("y", None), 3);
    assert_eq!(state.channels.members("x"), vec![b.client_id]);
    assert_eq!(state.channels.members("y"), vec![c.client_id, a.client_id]);
    assert_eq!(state.registry.channel(a.client_id), Some("y".to_string()));
    assert_consistent(&state, &[1, 2, 3], &["general", "x", "y"]);
    // One UserLeft(x) to the member that stays, then the join, then one
    // UserJoined(y) to each member of y.
    assert_eq!(queued.len(), 5);
    assert_eq!(queued[0].to, b.client_id);
    assert!(matches!(
        &queued[0].message,
        ServerMessage::UserLeft { channel, user, .. } if channel == "x" && user.username == "alice"
    ));
    assert_eq!(queued[1].to, a.client_id);
    assert!(matches!(&queued[1].message, ServerMessage::JoinSuccess { .. }));
    assert_eq!(queued[2].to, a.client_id);
    assert!(matches!(&queued[2].message, ServerMessage::HistoryChunk { .. }));
    assert_eq!((queued[3].to, queued[4].to), (c.client_id, a.client_id));
    for o in &queued[3..] {
        assert!(matches!(
            &o.message,
            ServerMessage::UserJoined { channel, user, .. } if channel == "y" && user.username == "alice"
        ));
    }
    let metas: Vec<u64> = queued
        .iter()
        .map(|o| match &o.message {
            ServerMessage::UserLeft { meta, .. }
            | ServerMessage::JoinSuccess { meta, .. }
            | ServerMessage::HistoryChunk { meta, .. }
            | ServerMessage::UserJoined { meta, .. } => meta.id,
            other => panic!("unexpected {other:?}"),
        })
        .collect();
    assert_eq!(metas[1], metas[0] + 1);
    assert_eq!(metas[2], metas[0] + 2);
    assert_eq!((metas[3], metas[4]), (metas[0] + 3, metas[0] + 3));
}

#[test]
fn a_refused_join_leaves_the_connection_where_it_was() {
    let mut state = relay();
    let mut a = member(&mut state, "alice");
    let mut b = member(&mut state, "bob");
    send(&mut state, &mut a, join("secret", Some("hunter2")), 2);
    send(&mut state, &mut b, join("general", None), 2);
    let queued = send(&mut state, &mut b, join("secret", Some("wrong")), 3);
    assert_eq!(queued.len(), 1);
    assert_eq!(queued[0].to, b.client_id);
    assert!(matches!(
        &queued[0].message,
        ServerMessage::JoinFailure { channel, reason, .. }
            if channel == "secret" && reason == "invalid channel password"
    ));
    assert_eq!(state.registry.channel(b.client_id), Some("general".to_string()));
    assert_eq!(state.channels.members("general"), vec![b.client_id]);
    assert_eq!(state.channels.members("secret"), vec![a.client_id]);
    assert_consistent(&state, &[1, 2], &["general", "secret"]);
    let queued = send(&mut state, &mut b, say("general", b"still here"), 4);
    assert!(matches!(&queued[0].message, ServerMessage::MessageReceived { .. }));
}

#[test]
fn a_banned_user_stays_in_the_channel_it_was_in() {
    let mut state = relay();
    let mut admin = member(&mut state, "alice");
    let mut u = member(&mut state, "bob");
    send(&mut state, &mut admin, join("den", None), 2);
    send(&mut state, &mut u, join("den", None), 2);
    send(
        &mut state,
        &mut admin,
        ClientMessage::BanUser {
            meta: meta(),
            channel: "den".to_string(),
            username: "bob".to_string(),
            duration_seconds: None,
            reason: None,
        },
        3,
    );
    send(&mut state, &mut u, join("general", None), 4);
    let queued = send(&mut state, &mut u, join("den", None), 5);
    assert_eq!(queued.len(), 1);
    assert!(matches!(
        &queued[0].message,
        ServerMessage::JoinFailure { reason, .. } if reason == "Permanently banned from channel"
    ));
    assert_eq!(state.registry.channel(u.client_id), Some("general".to_string()));
    assert_eq!(state.channels.members("general"), vec![u.client_id]);
    assert_eq!(state.channels.members("den"), vec![admin.client_id]);
}

#[test]
fn sending_outside_the_channel_reaches_nobody() {
    let mut state = relay();
    let mut a = member(&mut state, "alice");
    let mut b = member(&mut state, "bob");
    send(&mut state, &mut b, join("general", None), 2);
    let queued = send(&mut state, &mut a, say("general", b"hi"), 3);
    assert_eq!(queued.len(), 1);
    assert_eq!(queued[0].to, a.client_id);
    assert!(matches!(
        &queued[0].message,
        ServerMessage::ProtocolError { text, .. } if text == "not joined to channel"
    ));
    assert!(state.channels.history("general", 10).is_empty());
    send(&mut state, &mut a, join("other", None), 4);
    let queued = send(&mut state, &mut a, say("general", b"hi"), 5);
    assert_eq!(queued.len(), 1);
    assert!(matches!(&queued[0].message, ServerMessage::ProtocolError { .. }));
}

#[test]
fn commands_need_the_right_state() {
    let mut state = relay();
    let mut session = state.connect().unwrap();
    state.take_outbox();
    let expect_error = |queued: Vec<Outbound>, wanted: &str| {
        assert_eq!(queued.len(), 1);
        assert!(
            matches!(&queued[0].message, ServerMessage::ProtocolError { text, .. } if text == wanted),
            "{queued:?}"
        );
    };
    let connect = ClientMessage::Connect { meta: meta(), client_name: None, client_version: None };
    expect_error(send(&mut state, &mut session, connect.clone(), 1), "special auth required");
    expect_error(send(&mut state, &mut session, register("alice"), 1), "special auth required");
    expect_error(
        send(
            &mut state,
            &mut session,
            ClientMessage::EcdhPublicKey { meta: meta(), public_key: vec![0; 32] },
            1,
        ),
        "special auth required",
    );
    expect_error(
        send(
            &mut state,
            &mut session,
            ClientMessage::Login { meta: meta(), username: "a".into(), password: "b".into() },
            1,
        ),
        "special auth required",
    );
    expect_error(send(&mut state, &mut session, join("general", None), 1), "login/register required");
    send(&mut state, &mut session, auth(KEY), 2);
    assert!(send(&mut state, &mut session, connect, 2).is_empty());
    expect_error(
        send(
            &mut state,
            &mut session,
            ClientMessage::EcdhPublicKey { meta: meta(), public_key: vec![0; 5] },
            2,
        ),
        "invalid public key length",
    );
    assert!(!session.ecdh_complete);
    for message in [
        ClientMessage::ListChannels { meta: meta() },
        join("general", None),
        say("general", b"x"),
        ClientMessage::GetHistory { meta: meta(), channel: "general".into(), limit: 5 },
        ClientMessage::DeleteMessage { meta: meta(), channel: "general".into(), message_id: 1 },
        promote("general", "a", Role::Admin),
        ClientMessage::DemoteUser { meta: meta(), channel: "g".into(), username: "a".into() },
        ClientMessage::BanUser {
            meta: meta(),
            channel: "g".into(),
            username: "a".into(),
            duration_seconds: None,
            reason: None,
        },
        ClientMessage::UnbanUser { meta: meta(), channel: "g".into(), username: "a".into() },
        ClientMessage::KickUser {
            meta: meta(),
            channel: "g".into(),
            username: "a".into(),
            reason: None,
        },
        ClientMessage::ListAdmins { meta: meta(), channel: "g".into() },
        ClientMessage::ListBans { meta: meta(), channel: "g".into() },
        ClientMessage::ViewLogs { meta: meta(), channel: "g".into(), limit: 1 },
        ClientMessage::ChangeChannelType {
            meta: meta(),
            channel: "g".into(),
            channel_type: ChannelType::Private,
        },
        ClientMessage::DeleteChannel { meta: meta(), channel: "g".into() },
    ] {
        expect_error(send(&mut state, &mut session, message, 3), "login/register required");
    }
    assert_eq!(state.dispatch(&mut session, ClientMessage::Disconnect { meta: meta() }, at(4)), Flow::Close);
}

#[test]
fn registration_and_login_failures() {
    let mut state = relay();
    let _alice = member(&mut state, "alice");
    let mut other = state.connect().unwrap();
    state.dispatch(&mut other, auth(KEY), at(1));
    state.take_outbox();
    let queued = send(&mut state, &mut other, register(" alice "), 2);
    assert!(matches!(
        &queued[0].message,
        ServerMessage::AuthFailure { reason, .. } if reason == "username already exists"
    ));
    let queued = send(&mut state, &mut other, register("  "), 2);
    assert!(matches!(
        &queued[0].message,
        ServerMessage::AuthFailure { reason, .. } if reason == "username cannot be empty"
    ));
    let login = |name: &str, password: &str| ClientMessage::Login {
        meta: meta(),
        username: name.to_string(),
        password: password.to_string(),
    };
    let queued = send(&mut state, &mut other, login("nobody", "x"), 3);
    assert!(matches!(
        &queued[0].message,
        ServerMessage::AuthFailure { reason, .. } if reason == "user not found"
    ));
    let queued = send(&mut state, &mut other, login("alice", "x"), 3);
    assert!(matches!(
        &queued[0].message,
        ServerMessage::AuthFailure { reason, .. } if reason == "invalid password"
    ));
    assert!(!other.user_authed);
    let queued = send(&mut state, &mut other, login("alice", "dr-1000000000-1"), 4);
    assert!(other.user_authed);
    assert!(matches!(
        &queued[0].message,
        ServerMessage::AuthSuccess { user, generated_password: None, .. } if user.id == 1
    ));
    assert!(matches!(&queued[1].message, ServerMessage::ChannelList { .. }));
}

#[test]
fn history_on_join_and_on_request() {
    let mut state = relay();
    let mut a = member(&mut state, "alice");
    let mut b = member(&mut state, "bob");
    send(&mut state, &mut a, join("general", None), 2);
    for i in 0..60u8 {
        send(&mut state, &mut a, say("general", &[i]), 3 + i as i64);
    }
    let queued = send(&mut state, &mut b, join("general", None), 100);
    match for_client(&queued, b.client_id)[1] {
        ServerMessage::HistoryChunk { messages, .. } => {
            assert_eq!(messages.len(), 50);
            assert_eq!(messages[0].content, vec![10]);
            assert_eq!(messages[49].content, vec![59]);
        }
        other => panic!("expected HistoryChunk, got {other:?}"),
    }
    let queued = send(
        &mut state,
        &mut b,
        ClientMessage::GetHistory { meta: meta(), channel: "general".into(), limit: 3 },
        101,
    );
    match &queued[0].message {
        ServerMessage::HistoryChunk { messages, .. } => {
            let ids: Vec<u64> = messages.iter().map(|m| m.id).collect();
            assert_eq!(ids, vec![58, 59, 60]);
        }
        other => panic!("expected HistoryChunk, got {other:?}"),
    }
}

#[test]
fn the_nonce_travels_in_the_metadata() {
    let mut state = relay();
    let mut a = member(&mut state, "alice");
    send(&mut state, &mut a, join("general", None), 2);
    let metadata = vec![
        ("other".to_string(), "ff".to_string()),
        ("nonce".to_string(), "000102030405060708090A0b".to_string()),
        ("nonce".to_string(), "ffff".to_string()),
    ];
    let queued = send(
        &mut state,
        &mut a,
        ClientMessage::SendMessage {
            meta: meta(),
            channel: "general".into(),
            content: vec![1, 2, 3],
            metadata: metadata.clone(),
        },
        3,
    );
    match &queued[0].message {
        ServerMessage::MessageReceived { message, .. } => {
            assert_eq!(message.nonce, Some(vec![0, 1, 2, 3, 4, 5, 6, 7, 8, 9, 10, 11]));
            assert_eq!(message.metadata, metadata);
        }
        other => panic!("expected MessageReceived, got {other:?}"),
    }
    assert_eq!(extract_nonce(&vec![("nonce".to_string(), "0g".to_string())]), None);
    assert_eq!(extract_nonce(&vec![("nonce".to_string(), "abc".to_string())]), None);
    assert_eq!(extract_nonce(&vec![("nonce".to_string(), String::new())]), Some(Vec::new()));
    assert_eq!(extract_nonce(&vec![("Nonce".to_string(), "00".to_string())]), None);
    assert_eq!(extract_nonce(&Vec::new()), None);
}

#[test]
fn moderation_needs_permission() {
    let mut state = relay();
    let mut admin = member(&mut state, "root");
    let mut plain = member(&mut state, "eve");
    send(&mut state, &mut admin, join("den", None), 2);
    send(&mut state, &mut plain, join("den", None), 2);
    send(&mut state, &mut admin, say("den", b"hello"), 3);
    let denied = |queued: Vec<Outbound>, wanted: &str| {
        assert_eq!(queued.len(), 1);
        assert!(
            matches!(&queued[0].message, ServerMessage::AdminError { reason, .. } if reason == wanted),
            "{queued:?}"
        );
    };
    denied(
        send(
            &mut state,
            &mut plain,
            ClientMessage::DeleteMessage { meta: meta(), channel: "den".into(), message_id: 1 },
            4,
        ),
        "You lack permission: DeleteMessage",
    );
    denied(send(&mut state, &mut plain, promote("den", "eve", Role::Admin), 4), "You lack permission: PromoteUser");
    denied(
        send(
            &mut state,
            &mut plain,
            ClientMessage::KickUser {
                meta: meta(),
                channel: "den".into(),
                username: "root".into(),
                reason: None,
            },
            4,
        ),
        "You lack permission: KickUser",
    );
    denied(
        send(&mut state, &mut plain, ClientMessage::ListBans { meta: meta(), channel: "den".into() }, 4),
        "You lack permission: ViewLogs",
    );
    denied(
        send(
            &mut state,
            &mut plain,
            ClientMessage::ChangeChannelType {
                meta: meta(),
                channel: "den".into(),
                channel_type: ChannelType::ReadOnly,
            },
            4,
        ),
        "You lack permission: ManageChannel",
    );
    denied(
        send(&mut state, &mut plain, ClientMessage::ListAdmins { meta: meta(), channel: "nope".into() }, 4),
        "Channel not found",
    );
    denied(send(&mut state, &mut admin, promote("den", "nobody", Role::Admin), 4), "User not found");
    denied(
        send(
            &mut state,
            &mut admin,
            ClientMessage::DeleteMessage { meta: meta(), channel: "den".into(), message_id: 77 },
            4,
        ),
        "Message not found",
    );
    // ListAdmins is open to everybody.
    let queued = send(&mut state, &mut plain, ClientMessage::ListAdmins { meta: meta(), channel: "den".into() }, 5);
    match &queued[0].message {
        ServerMessage::AdminList { admins, .. } => {
            assert_eq!(admins.len(), 1);
            assert_eq!(admins[0].username, "root");
            assert_eq!(admins[0].role, Role::Admin);
        }
        other => panic!("expected AdminList, got {other:?}"),
    }
    let queued = send(
        &mut state,
        &mut admin,
        ClientMessage::DeleteMessage { meta: meta(), channel: "den".into(), message_id: 1 },
        6,
    );
    assert_eq!(queued.len(), 2);
    assert!(matches!(
        &queued[0].message,
        ServerMessage::MessageDeleted { message_id: 1, deleted_by, .. } if deleted_by == "root"
    ));
    assert!(state.channels.history("den", 10).is_empty());
    let logs = state.admin.get_logs(1 + 1, 10);
    assert_eq!(logs[0].action, "delete_message");
    assert_eq!(logs[0].target, "message_1");
    assert_eq!(logs[0].details, "Message deleted");
}

#[test]
fn kick_puts_every_connection_of_the_user_out() {
    let mut state = relay();
    let mut admin = member(&mut state, "root");
    let mut first = member(&mut state, "eve");
    let mut second = state.connect().unwrap();
    state.dispatch(&mut second, auth(KEY), at(1));
    state.dispatch(
        &mut second,
        ClientMessage::Login { meta: meta(), username: "eve".into(), password: "dr-1000000000-2".into() },
        at(1),
    );
    state.take_outbox();
    send(&mut state, &mut admin, join("den", None), 2);
    send(&mut state, &mut first, join("den", None), 2);
    send(&mut state, &mut second, join("den", None), 2);
    let queued = send(
        &mut state,
        &mut admin,
        ClientMessage::KickUser {
            meta: meta(),
            channel: "den".into(),
            username: "eve".into(),
            reason: None,
        },
        3,
    );
    assert_eq!(state.channels.members("den"), vec![admin.client_id]);
    assert_eq!(state.registry.channel(first.client_id), None);
    assert_eq!(state.registry.channel(second.client_id), None);
    assert_consistent(&state, &[1, 2, 3], &["general", "den"]);
    for id in [first.client_id, second.client_id] {
        let told = for_client(&queued, id);
        assert_eq!(told.len(), 1);
        assert!(matches!(
            told[0],
            ServerMessage::SystemMessage { text, .. } if text == "You have been kicked from this channel. Reason: "
        ));
    }
    assert!(matches!(
        for_client(&queued, admin.client_id)[0],
        ServerMessage::UserKicked { username, kicked_by, user_id: 2, .. } if username == "eve" && kicked_by == "root"
    ));
    // A kick is no ban: the user may come back.
    let queued = send(&mut state, &mut first, join("den", None), 4);
    assert!(matches!(for_client(&queued, first.client_id)[0], ServerMessage::JoinSuccess { .. }));
}

#[test]
fn only_a_super_admin_deletes_a_channel() {
    let mut state = relay();
    let mut admin = member(&mut state, "root");
    let mut chief = member(&mut state, "chief");
    let mut guest = member(&mut state, "guest");
    send(&mut state, &mut admin, join("den", None), 2);
    send(&mut state, &mut chief, join("den", None), 2);
    send(&mut state, &mut guest, join("general", None), 2);
    let delete = ClientMessage::DeleteChannel { meta: meta(), channel: "den".into() };
    let queued = send(&mut state, &mut admin, delete.clone(), 3);
    assert_eq!(queued.len(), 1);
    assert!(matches!(
        &queued[0].message,
        ServerMessage::AdminError { reason, .. } if reason == "Only SuperAdmin can delete channels"
    ));
    assert!(state.channels.get_channel_id("den").is_some());
    send(&mut state, &mut admin, promote("den", "chief", Role::SuperAdmin), 4);
    let channel_id = state.channels.get_channel_id("den").unwrap();
    let queued = send(&mut state, &mut chief, delete, 5);
    assert_eq!(queued.len(), 2);
    for o in &queued {
        assert!(matches!(
            &o.message,
            ServerMessage::ChannelDeleted { channel, deleted_by, .. } if channel == "den" && deleted_by == "chief"
        ));
    }
    assert_eq!(state.channels.get_channel_id("den"), None);
    assert_eq!(state.registry.channel(admin.client_id), None);
    assert_eq!(state.registry.channel(chief.client_id), None);
    assert_eq!(state.registry.channel(guest.client_id), Some("general".to_string()));
    assert_eq!(state.admin.get_role(channel_id, 1), Role::User);
    assert_consistent(&state, &[1, 2, 3], &["general", "den"]);
}

#[test]
fn disconnect_cleans_up() {
    let mut state = relay();
    let mut a = member(&mut state, "alice");
    let mut b = member(&mut state, "bob");
    send(&mut state, &mut a, join("general", None), 2);
    send(&mut state, &mut b, join("general", None), 2);
    state.dispatch(
        &mut a,
        ClientMessage::EcdhPublicKey { meta: meta(), public_key: vec![5; 32] },
        at(3),
    );
    state.take_outbox();
    assert!(state.ecdh.get_shared_secret(a.client_id).is_some());
    state.cleanup_disconnect_at(a.client_id, at(4));
    let queued = state.take_outbox();
    assert_eq!(queued.len(), 1);
    assert_eq!(queued[0].to, b.client_id);
    assert!(matches!(
        &queued[0].message,
        ServerMessage::UserLeft { channel, user, .. } if channel == "general" && user.username == "alice"
    ));
    assert!(!state.registry.is_registered(a.client_id));
    assert!(state.ecdh.get_shared_secret(a.client_id).is_none());
    assert_eq!(state.channels.members("general"), vec![b.client_id]);
    assert_consistent(&state, &[1, 2], &["general"]);
}

#[test]
fn connection_ids_and_message_numbers_count_up() {
    let mut state = relay();
    assert_eq!(state.next_client_id(), 1);
    assert_eq!(state.next_client_id(), 2);
    assert_eq!(state.next_server_msg_id(), 1);
    assert_eq!(state.server_meta(at(5)), MessageMeta::new(2, at(5)));
    state.next_client_id = u64::MAX;
    assert_eq!(state.next_client_id(), u64::MAX);
    assert_eq!(state.next_client_id(), 0);
    let session = state.open_session(7, at(1));
    assert_eq!(session.client_id, 7);
    state.next_client_id = 7;
    assert!(state.connect().is_none());
    assert_eq!(state.connect().unwrap().client_id, 8);
}

#[test]
fn outside_results_can_be_handed_in() {
    let mut state = relay();
    let mut a = member(&mut state, "alice");
    // Without a hash for a channel that has to be made the join is refused.
    let flow = state.dispatch_with(
        &mut a,
        join("vault", Some("pw")),
        at(2),
        Outside { channel_hash: None, exchange: None },
    );
    assert_eq!(flow, Flow::Continue);
    let queued = state.take_outbox();
    assert!(matches!(
        &queued[0].message,
        ServerMessage::JoinFailure { reason, .. } if reason == "channel password too long"
    ));
    assert_eq!(state.channels.get_channel_id("vault"), None);
    let outside = state.gather(&a, &join("vault", Some("pw")));
    assert!(outside.channel_hash.is_some() && outside.exchange.is_none());
    state.dispatch_with(&mut a, join("vault", Some("pw")), at(3), outside);
    assert_eq!(state.channels.members("vault"), vec![a.client_id]);
    state.take_outbox();
    state.dispatch_with(
        &mut a,
        ClientMessage::EcdhPublicKey { meta: meta(), public_key: vec![1; 32] },
        at(4),
        Outside { channel_hash: None, exchange: Some((vec![2; 32], vec![3; 32])) },
    );
    let queued = state.take_outbox();
    assert!(matches!(
        &queued[0].message,
        ServerMessage::EcdhAck { public_key, .. } if public_key == &vec![2u8; 32]
    ));
    assert_eq!(state.ecdh.get_shared_secret(a.client_id), Some(&vec![3u8; 32]));
}

#[test]
fn the_relay_can_check_its_own_invariant() {
    let mut state = relay();
    assert!(state.is_wf());
    let mut a = member(&mut state, "alice");
    send(&mut state, &mut a, join("general", None), 2);
    assert!(state.is_wf());
    // A membership that the registry does not know of breaks the invariant.
    let _ = state.channels.join(99, "general", None);
    assert!(!state.is_wf());
    state.channels.leave(99, "general");
    assert!(state.is_wf());
    // So does a current channel that the channel does not know of.
    state.registry.set_channel(a.client_id, Some("nowhere".to_string()));
    assert!(!state.is_wf());
    state.registry.set_channel(a.client_id, Some("general".to_string()));
    assert!(state.is_wf());
}
