use darkrelay::protocol::channel::ChannelType;
use darkrelay::protocol::frame::{
    check_length, decode_frame, encode_frame, FrameError, DEFAULT_MAX_FRAME_LEN,
};
use darkrelay::protocol::messages::{
    ChatMessage, ClientMessage, MessageMeta, ServerMessage, TransferStatus, UserInfo,
};
use darkrelay::protocol::permissions::{
    contains_permission, has_permission, Permission, Role, RolePermissions,
};
use darkrelay::text::{decimal_string, text_or_empty};
use darkrelay::time::Timestamp;

const ALL_PERMISSIONS: [Permission; 9] = [
    Permission::SendMessage,
    Permission::DeleteMessage,
    Permission::ManageChannel,
    Permission::BanUser,
    Permission::KickUser,
    Permission::MuteUser,
    Permission::PromoteUser,
    Permission::ViewLogs,
    Permission::ManageRoles,
];

#[test]
fn channel_type_defaults_to_public() {
    assert_eq!(ChannelType::default(), ChannelType::Public);
}

#[test]
fn channel_type_descriptions() {
    assert_eq!(
        ChannelType::Public.description(),
        "Anyone can join (with password), all can send"
    );
    assert_eq!(ChannelType::Private.description(), "Invite-only");
    assert_eq!(
        ChannelType::AdminOnly.description(),
        "All can see, only admins can send messages"
    );
    assert_eq!(ChannelType::ReadOnly.description(), "All can read, only admins send");
    assert_eq!(ChannelType::Announcement.description(), "SuperAdmin broadcasts only");
}

#[test]
fn names_match_debug_output() {
    for kind in [
        ChannelType::Public,
        ChannelType::Private,
        ChannelType::AdminOnly,
        ChannelType::ReadOnly,
        ChannelType::Announcement,
    ] {
        assert_eq!(kind.name(), format!("{:?}", kind));
    }
    for role in [Role::User, Role::Moderator, Role::Admin, Role::SuperAdmin] {
        assert_eq!(role.name(), format!("{:?}", role));
    }
    for permission in ALL_PERMISSIONS {
        assert_eq!(permission.name(), format!("{:?}", permission));
    }
}

#[test]
fn user_may_only_send() {
    let perms = Role::User.default_permissions();
    assert_eq!(perms, vec![Permission::SendMessage]);
}

#[test]
fn moderator_permissions() {
    let perms = Role::Moderator.default_permissions();
    assert_eq!(perms.len(), 4);
    for p in [
        Permission::SendMessage,
        Permission::DeleteMessage,
        Permission::KickUser,
        Permission::MuteUser,
    ] {
        assert!(perms.contains(&p));
    }
}

#[test]
fn admin_permissions() {
    let perms = Role::Admin.default_permissions();
    assert_eq!(perms.len(), 8);
    assert!(!perms.contains(&Permission::ManageRoles));
    for p in [
        Permission::ManageChannel,
        Permission::BanUser,
        Permission::PromoteUser,
        Permission::ViewLogs,
    ] {
        assert!(perms.contains(&p));
    }
}

#[test]
fn super_admin_holds_everything() {
    let perms = Role::SuperAdmin.default_permissions();
    assert_eq!(perms.len(), 9);
    for p in ALL_PERMISSIONS {
        assert!(perms.contains(&p));
    }
}

#[test]
fn higher_roles_keep_lower_permissions() {
    let roles = [Role::User, Role::Moderator, Role::Admin, Role::SuperAdmin];
    for (i, lower) in roles.iter().enumerate() {
        for higher in &roles[i..] {
            for p in ALL_PERMISSIONS {
                if has_permission(*lower, p) {
                    assert!(has_permission(*higher, p));
                }
            }
        }
    }
}

#[test]
fn has_permission_agrees_with_the_default_set() {
    for role in [Role::User, Role::Moderator, Role::Admin, Role::SuperAdmin] {
        let perms = role.default_permissions();
        let bundle = RolePermissions::new(role);
        assert_eq!(bundle.role, role);
        for p in ALL_PERMISSIONS {
            assert_eq!(has_permission(role, p), perms.contains(&p));
            assert_eq!(bundle.has_permission(p), perms.contains(&p));
            assert_eq!(contains_permission(&perms, p), perms.contains(&p));
        }
    }
}

#[test]
fn role_permissions_follow_their_own_list() {
    let bundle = RolePermissions { role: Role::User, permissions: vec![Permission::BanUser] };
    assert!(bundle.has_permission(Permission::BanUser));
    assert!(!bundle.has_permission(Permission::SendMessage));
}

#[test]
fn roles_are_ordered() {
    assert!(Role::User < Role::Moderator);
    assert!(Role::Moderator < Role::Admin);
    assert!(Role::Admin < Role::SuperAdmin);
    assert_eq!(Role::Admin.rank(), 2);
    assert!(Role::SuperAdmin.at_least(Role::Admin));
    assert!(!Role::Moderator.at_least(Role::Admin));
}

#[test]
fn frame_round_trip() {
    let payload = b"one serialized message".to_vec();
    let frame = encode_frame(&payload, DEFAULT_MAX_FRAME_LEN).unwrap();
    assert_eq!(frame.len(), payload.len() + 4);
    assert_eq!(&frame[..4], &[0, 0, 0, 22]);
    assert_eq!(
        decode_frame(&frame, DEFAULT_MAX_FRAME_LEN),
        Ok(Some((payload.clone(), frame.len())))
    );
}

#[test]
fn frame_length_is_big_endian() {
    let payload = vec![7u8; 0x0102_03];
    let frame = encode_frame(&payload, DEFAULT_MAX_FRAME_LEN).unwrap();
    assert_eq!(&frame[..4], &[0x00, 0x01, 0x02, 0x03]);
}

#[test]
fn frame_decoding_leaves_what_follows() {
    let mut wire = encode_frame(b"first", 64).unwrap();
    wire.extend_from_slice(&encode_frame(b"second", 64).unwrap());
    let (payload, used) = decode_frame(&wire, 64).unwrap().unwrap();
    assert_eq!(payload, b"first");
    assert_eq!(used, 9);
    let (payload, used) = decode_frame(&wire[9..], 64).unwrap().unwrap();
    assert_eq!(payload, b"second");
    assert_eq!(used, 10);
}

#[test]
fn partial_frames_ask_for_more() {
    let frame = encode_frame(b"hello", 64).unwrap();
    for cut in 0..frame.len() {
        assert_eq!(decode_frame(&frame[..cut], 64), Ok(None));
    }
}

#[test]
fn empty_frames_are_refused() {
    assert_eq!(encode_frame(&[], 64), Err(FrameError::Empty));
    assert_eq!(decode_frame(&[0, 0, 0, 0, 1, 2], 64), Err(FrameError::Empty));
    assert_eq!(check_length(0, 64), Err(FrameError::Empty));
}

#[test]
fn oversized_frames_are_refused() {
    assert_eq!(encode_frame(&[1u8; 65], 64), Err(FrameError::TooLarge));
    assert_eq!(decode_frame(&[0, 0, 0, 65], 64), Err(FrameError::TooLarge));
    assert_eq!(check_length(65, 64), Err(FrameError::TooLarge));
    assert_eq!(check_length(64, 64), Ok(64));
    assert_eq!(encode_frame(&[1u8; 64], 64).unwrap().len(), 68);
}

#[test]
fn frame_errors_in_words() {
    assert_eq!(FrameError::Empty.message(), "empty frame");
    assert_eq!(FrameError::TooLarge.message(), "frame too large");
}

#[test]
fn default_frame_cap_is_sixteen_mebibytes() {
    assert_eq!(DEFAULT_MAX_FRAME_LEN, 16 * 1024 * 1024);
}

#[test]
fn clones_keep_every_field() {
    let meta = MessageMeta::new(9, Timestamp::new(5, 6));
    let message = ChatMessage {
        id: 3,
        user_id: 4,
        username: "alice".to_string(),
        content: vec![1, 2, 3],
        timestamp: Timestamp::new(10, 11),
        nonce: Some(vec![0; 12]),
        metadata: vec![("k".to_string(), "v".to_string())],
    };
    let sent = ServerMessage::MessageReceived {
        meta,
        channel: "general".to_string(),
        message,
    };
    let copy = sent.clone();
    assert_eq!(format!("{:?}", copy), format!("{:?}", sent));
    let asked = ClientMessage::BanUser {
        meta,
        channel: "general".to_string(),
        username: "bob".to_string(),
        duration_seconds: Some(2),
        reason: Some("spam".to_string()),
    };
    assert_eq!(format!("{:?}", asked.clone()), format!("{:?}", asked));
    let user = UserInfo { id: 1, username: "u".to_string(), joined_at: Timestamp::new(1, 2) };
    assert_eq!(format!("{:?}", user.clone()), format!("{:?}", user));
    assert_eq!(TransferStatus::Pending, TransferStatus::Pending);
}

#[test]
fn decimal_rendering() {
    assert_eq!(decimal_string(0), "0");
    assert_eq!(decimal_string(7), "7");
    assert_eq!(decimal_string(10), "10");
    assert_eq!(decimal_string(1_234_567_890), "1234567890");
    assert_eq!(decimal_string(u128::MAX), u128::MAX.to_string());
}

#[test]
fn missing_text_reads_empty() {
    assert_eq!(text_or_empty(&None), "");
    assert_eq!(text_or_empty(&Some("why".to_string())), "why");
}

#[test]
fn timestamps_compare_lexicographically() {
    let a = Timestamp::new(10, 500);
    let b = Timestamp::new(10, 501);
    let c = Timestamp::new(11, 0);
    assert!(b.after(&a));
    assert!(c.after(&b));
    assert!(!a.after(&a));
    assert!(!a.after(&c));
}

#[test]
fn timestamps_add_seconds_and_saturate() {
    assert_eq!(Timestamp::new(100, 7).plus_seconds(2), Timestamp::new(102, 7));
    assert_eq!(Timestamp::new(-5, 0).plus_seconds(10), Timestamp::new(5, 0));
    assert_eq!(Timestamp::new(1, 0).plus_seconds(u64::MAX), Timestamp::new(i64::MAX, 0));
    assert_eq!(Timestamp::new(i64::MAX, 3).plus_seconds(1), Timestamp::new(i64::MAX, 3));
}

#[test]
fn timestamps_count_nanoseconds_since_the_epoch() {
    assert_eq!(Timestamp::new(2, 5).unix_nanos(), 2_000_000_005);
    assert_eq!(Timestamp::new(-1, 5).unix_nanos(), 0);
}

#[test]
fn timestamps_render_as_utc_calendar_time() {
    assert_eq!(Timestamp::new(1_431_648_000, 0).to_text(), "2015-05-15 00:00:00 UTC");
    assert_eq!(Timestamp::new(0, 999).to_text(), "1970-01-01 00:00:00 UTC");
    assert_eq!(Timestamp::new(i64::MAX, 0).to_text(), "the end of time");
}
