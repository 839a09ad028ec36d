use darkrelay::client::crypto::{CryptoError, CryptoState, EcdhHandshake};
use darkrelay::client::dm_handler::{sort_by_stamp, DMHandler};
use darkrelay::client::handshake::{
    kind_name, on_auth_response, on_challenge, on_ecdh_response, on_special_key_response,
    AuthStep, HandshakeError,
};
use aes_gcm::aead::{Aead, KeyInit};
use darkrelay::client::state::{AuthMode, ChannelMessages, ClientState};
use darkrelay::client::ui::auth_dialog::{
    handle_key, mask, outcome, pop_char, push_char, style_button, style_field, Button, Field,
    Key, KeyPress,
};
use darkrelay::client::ui::dm_view::{message_line as dm_line, sidebar_label, DMView, Speaker};
use darkrelay::client::ui::file_dialog::{Accent, FileTransferDialog, FileTransferStatus};
use darkrelay::client::ui::main_layout::{
    channel_label, clamp_selection, first_visible, handle_command, handle_input_line,
    handle_server_message, header, input_line, layout, message_line, messages_title, pad,
    selection_down, selection_up, truncate, Action, Focus,
};
use darkrelay::client::ui::{toast, TerminalSession, ToastKind};
use darkrelay::protocol::channel::ChannelType;
use darkrelay::protocol::messages::{
    ChannelInfo, ChatMessage, ClientMessage, MessageMeta, ServerMessage, StoredDM, UserInfo,
};
use darkrelay::server::crypto::EcdhManager;
use darkrelay::text::split_words;
use darkrelay::time::Timestamp;

fn at(secs: i64) -> Timestamp {
    Timestamp::new(secs, 0)
}

fn meta() -> MessageMeta {
    MessageMeta::new(1, at(0))
}

fn chat(id: u64, text: &str) -> ChatMessage {
    ChatMessage {
        id,
        user_id: 1,
        username: "alice".to_string(),
        content: text.as_bytes().to_vec(),
        timestamp: at(id as i64),
        nonce: None,
        metadata: Vec::new(),
    }
}

fn dm(id: u64, sender: u64, stamp: i64) -> StoredDM {
    StoredDM {
        dm_id: id,
        sender_id: sender,
        recipient_id: 99,
        content: vec![id as u8],
        nonce: Vec::new(),
        timestamp: at(stamp),
        is_read: false,
    }
}

fn ready() -> CryptoState {
    let mut crypto = CryptoState::new();
    crypto.ecdh_secret = Some(vec![7u8; 32]);
    crypto
}

// ----- key exchange and sealing -----

#[test]
fn client_and_relay_agree_on_the_secret() {
    let handshake = EcdhHandshake::new();
    assert_eq!(handshake.public_key().len(), 32);
    let mut relay = EcdhManager::new();
    let server_public = relay.generate_keypair(1, handshake.public_key()).unwrap();
    let shared = handshake.complete(&server_public).unwrap();
    assert_eq!(&shared, relay.get_shared_secret(1).unwrap());
    assert_ne!(shared, vec![0u8; 32]);
}

#[test]
fn handshake_rejects_short_keys() {
    let handshake = EcdhHandshake::new();
    assert_eq!(handshake.complete(&[1, 2, 3]).unwrap_err(), "invalid server public key length");
    let mut crypto = CryptoState::new();
    assert!(!crypto.is_ready());
    assert_eq!(crypto.generate_keypair().len(), 32);
    assert!(!crypto.is_ready());
}

#[test]
fn the_state_completes_a_handshake_with_a_given_secret() {
    let secret = x25519_dalek::EphemeralSecret::random_from_rng(rand::rngs::OsRng);
    let public = x25519_dalek::PublicKey::from(&secret);
    let mut relay = EcdhManager::new();
    let server_public = relay.generate_keypair(4, public.as_bytes()).unwrap();
    let mut crypto = CryptoState::new();
    assert!(crypto.is_wf());
    assert!(crypto.complete_handshake(&server_public, secret).is_ok());
    assert!(crypto.is_ready());
    assert!(crypto.is_wf());
    assert_eq!(crypto.ecdh_secret.as_ref(), relay.get_shared_secret(4));
    let other = x25519_dalek::EphemeralSecret::random_from_rng(rand::rngs::OsRng);
    assert_eq!(
        crypto.complete_handshake(&[0u8; 3], other).unwrap_err(),
        "invalid server public key length"
    );
    crypto.ecdh_secret = Some(vec![1, 2, 3]);
    assert!(!crypto.is_wf());
}

#[test]
fn the_channel_key_is_derived_from_the_password() {
    let mut layered = ready();
    layered.set_channel_key("vault", Some("hunter2"));
    let (outer, nonce) = layered.encrypt_with(b"abc", Some("vault"), &[1, 2]).unwrap();
    // The outer layer opens under the key that PBKDF2 derives, with the second nonce.
    let key = pbkdf2::pbkdf2_hmac_array::<sha2::Sha256, 32>(
        b"hunter2",
        b"darkrelay-channel-vault",
        100_000,
    );
    let cipher = aes_gcm::Aes256Gcm::new_from_slice(&key).unwrap();
    let mut second_nonce = [0u8; 12];
    second_nonce[11] = 1;
    let inner = cipher.decrypt(aes_gcm::Nonce::from_slice(&second_nonce), outer.as_slice()).unwrap();
    assert_eq!(layered.decrypt(&inner, &nonce, Some("vault")).unwrap(), b"abc");
    // The inner layer opens under the session's secret.
    let session = aes_gcm::Aes256Gcm::new_from_slice(&[7u8; 32]).unwrap();
    let padded = session.decrypt(aes_gcm::Nonce::from_slice(&nonce), inner.as_slice()).unwrap();
    assert_eq!(padded, vec![0, 0, 0, 3, b'a', b'b', b'c', 1, 2]);
}

#[test]
fn client_state_knows_whether_it_is_well_formed() {
    let mut state = ClientState::new(String::new());
    assert!(state.is_wf());
    state.push_message("a", chat(1, "x"));
    state.push_message("b", chat(2, "y"));
    assert!(state.is_wf());
    state.messages_by_channel.push(ChannelMessages { channel: "a".to_string(), messages: Vec::new() });
    assert!(!state.is_wf());
}

#[test]
fn sealing_needs_the_key_exchange() {
    let mut crypto = CryptoState::new();
    assert!(matches!(crypto.encrypt(b"hi", None), Err(CryptoError::NotReady)));
    assert!(matches!(crypto.decrypt(&[1, 2, 3], &[0; 12], None), Err(CryptoError::NotReady)));
}

#[test]
fn sealed_messages_open_again() {
    let mut crypto = ready();
    let (ciphertext, nonce) = crypto.encrypt(b"Hello, world!", None).unwrap();
    assert_eq!(nonce, vec![0; 12]);
    assert_ne!(&ciphertext[..], b"Hello, world!");
    assert!(ciphertext.len() >= 4 + 13 + 16);
    assert_eq!(crypto.decrypt(&ciphertext, &nonce, None).unwrap(), b"Hello, world!");
    let (second, nonce) = crypto.encrypt(b"Hello, world!", None).unwrap();
    assert_eq!(nonce, vec![0, 0, 0, 0, 0, 0, 0, 0, 0, 0, 0, 1]);
    assert_eq!(crypto.decrypt(&second, &nonce, None).unwrap(), b"Hello, world!");
}

#[test]
fn sealing_with_given_padding_is_exact_in_length() {
    let mut crypto = ready();
    let (ciphertext, _) = crypto.encrypt_with(b"abc", None, &[0; 5]).unwrap();
    // Length field, plaintext, padding and the 16 bytes of the tag.
    assert_eq!(ciphertext.len(), 4 + 3 + 5 + 16);
}

#[test]
fn opening_fails_on_wrong_input() {
    let mut crypto = ready();
    let (mut ciphertext, nonce) = crypto.encrypt(b"secret", None).unwrap();
    assert!(matches!(
        crypto.decrypt(&ciphertext, &nonce[..11], None),
        Err(CryptoError::InvalidNonce)
    ));
    assert!(matches!(
        crypto.decrypt(&ciphertext, &[9; 12], None),
        Err(CryptoError::Decryption)
    ));
    ciphertext[0] ^= 1;
    let err = crypto.decrypt(&ciphertext, &nonce, None).unwrap_err();
    assert_eq!(err.message(), "decryption failed");
    let mut other = ready();
    other.ecdh_secret = Some(vec![8u8; 32]);
    ciphertext[0] ^= 1;
    assert!(other.decrypt(&ciphertext, &nonce, None).is_err());
}

#[test]
fn channel_keys_add_a_layer() {
    let mut plain = ready();
    let mut layered = ready();
    layered.set_channel_key("secret", Some("hunter2"));
    layered.set_channel_key("open", None);
    let (inner, _) = plain.encrypt_with(b"abc", Some("secret"), &[]).unwrap();
    let (outer, nonce) = layered.encrypt_with(b"abc", Some("secret"), &[]).unwrap();
    assert_eq!(nonce, vec![0; 12]);
    assert_eq!(outer.len(), inner.len() + 16);
    // The layer used up a second nonce.
    let (_, next) = layered.encrypt_with(b"abc", None, &[]).unwrap();
    assert_eq!(next[11], 2);
    let (same, _) = layered.encrypt_with(b"abc", Some("open"), &[]).unwrap();
    assert_eq!(same.len(), inner.len());
    layered.reset();
    assert!(!layered.is_ready());
}

#[test]
fn a_refused_sealing_still_uses_its_nonce() {
    let mut crypto = CryptoState::new();
    assert!(matches!(crypto.encrypt_with(b"hi", None, &[]), Err(CryptoError::NotReady)));
    crypto.ecdh_secret = Some(vec![7u8; 32]);
    let (_, nonce) = crypto.encrypt_with(b"hi", None, &[]).unwrap();
    assert_eq!(nonce, vec![0, 0, 0, 0, 0, 0, 0, 0, 0, 0, 0, 1]);
}

#[test]
fn crypto_errors_in_words() {
    assert_eq!(CryptoError::NotReady.message(), "ECDH not complete");
    assert_eq!(CryptoError::InvalidNonce.message(), "invalid nonce length");
    assert_eq!(CryptoError::Encryption.message(), "encryption failed");
    assert_eq!(CryptoError::NoncesExhausted.message(), "nonce counter exhausted");
    assert_eq!(CryptoError::Padding("bad".to_string()).message(), "bad");
}

// ----- client state -----

#[test]
fn client_state_starts_empty() {
    let mut state = ClientState::new("127.0.0.1:8080".to_string());
    assert_eq!(state.server_addr, "127.0.0.1:8080");
    assert!(state.user.is_none());
    assert!(state.messages_for_current().is_empty());
    assert_eq!(state.next_meta_at(at(5)), MessageMeta::new(1, at(5)));
    assert_eq!(state.next_meta().id, 2);
    state.current_channel = Some("general".to_string());
    state.push_message("general", chat(1, "a"));
    state.reset();
    assert_eq!(state.server_addr, "127.0.0.1:8080");
    assert!(state.current_channel.is_none());
    assert!(state.messages_for("general").is_empty());
    assert_eq!(state.next_meta_at(at(5)).id, 1);
}

#[test]
fn client_keeps_the_newest_five_hundred() {
    let mut state = ClientState::new(String::new());
    for i in 1..=510u64 {
        state.push_message("general", chat(i, "x"));
    }
    state.push_message("other", chat(1000, "y"));
    let kept = state.messages_for("general");
    assert_eq!(kept.len(), 500);
    assert_eq!(kept[0].id, 11);
    assert_eq!(kept[499].id, 510);
    assert!(state.messages_for_current().is_empty());
    state.current_channel = Some("other".to_string());
    assert_eq!(state.messages_for_current().len(), 1);
}

// ----- direct messages on the client -----

#[test]
fn incoming_direct_messages_count_as_unread() {
    let mut handler = DMHandler::new();
    handler.add_dm(dm(1, 5, 10));
    handler.add_dm(dm(2, 5, 11));
    handler.add_dm(dm(2, 5, 11));
    handler.add_dm(dm(3, 6, 12));
    assert_eq!(handler.get_conversation(5).unwrap().len(), 2);
    assert_eq!(handler.get_unread_count(5), 3);
    assert_eq!(handler.get_unread_count(6), 1);
    assert_eq!(handler.get_unread_count(7), 0);
    assert_eq!(handler.get_total_unread_count(), 4);
    handler.set_active_conversation(5);
    assert_eq!(handler.get_unread_count(5), 0);
    handler.add_dm(dm(4, 5, 13));
    assert_eq!(handler.get_unread_count(5), 0);
    handler.clear_active_conversation();
    handler.add_dm(dm(5, 5, 14));
    assert_eq!(handler.get_unread_count(5), 1);
    assert_eq!(handler.get_conversations().len(), 2);
    assert!(handler.get_conversation(7).is_none());
}

#[test]
fn history_is_merged_and_sorted() {
    let mut handler = DMHandler::new();
    handler.add_dm(dm(10, 5, 100));
    handler.add_history(5, vec![dm(3, 5, 30), dm(10, 5, 100), dm(1, 5, 10), dm(4, 5, 30)]);
    let ids: Vec<u64> = handler.get_conversation(5).unwrap().iter().map(|d| d.dm_id).collect();
    assert_eq!(ids, vec![1, 3, 4, 10]);
    assert!(handler.mark_dm_as_read(3, 5));
    assert!(!handler.mark_dm_as_read(3, 6));
    assert!(!handler.mark_dm_as_read(77, 5));
    let read: Vec<bool> = handler.get_conversation(5).unwrap().iter().map(|d| d.is_read).collect();
    assert_eq!(read, vec![false, true, false, false]);
}

#[test]
fn sorting_by_stamp_is_stable() {
    let list = vec![dm(1, 5, 30), dm(2, 5, 10), dm(3, 5, 30), dm(4, 5, 20), dm(5, 5, 10)];
    let ids: Vec<u64> = sort_by_stamp(&list).iter().map(|d| d.dm_id).collect();
    assert_eq!(ids, vec![2, 5, 4, 1, 3]);
}

// ----- the admission dialog -----

fn press(key: Key) -> KeyPress {
    KeyPress { key, ctrl: false }
}

#[test]
fn typing_takes_printable_characters() {
    let mut s = String::new();
    push_char(&mut s, 'a');
    push_char(&mut s, '\n');
    push_char(&mut s, '\u{7f}');
    push_char(&mut s, 'é');
    assert_eq!(s, "aé");
    pop_char(&mut s);
    assert_eq!(s, "a");
    pop_char(&mut s);
    pop_char(&mut s);
    assert_eq!(s, "");
}

#[test]
fn the_dialog_follows_the_keyboard() {
    let mut server = "127.0.0.1".to_string();
    let mut user = String::new();
    let mut password = String::new();
    let mut field = Field::Server;
    let mut button = Button::Login;
    let mut go = |key: KeyPress,
                  server: &mut String,
                  user: &mut String,
                  password: &mut String,
                  field: &mut Field,
                  button: &mut Button| handle_key(key, server, user, password, field, button);
    assert!(!go(press(Key::Backspace), &mut server, &mut user, &mut password, &mut field, &mut button));
    assert_eq!(server, "127.0.0.");
    assert!(!go(press(Key::Char('9')), &mut server, &mut user, &mut password, &mut field, &mut button));
    assert_eq!(server, "127.0.0.9");
    assert!(!go(press(Key::Enter), &mut server, &mut user, &mut password, &mut field, &mut button));
    assert_eq!(field, Field::Username);
    go(press(Key::Char('a')), &mut server, &mut user, &mut password, &mut field, &mut button);
    go(press(Key::Left), &mut server, &mut user, &mut password, &mut field, &mut button);
    assert_eq!(button, Button::Login);
    go(press(Key::Tab), &mut server, &mut user, &mut password, &mut field, &mut button);
    assert_eq!(field, Field::Password);
    go(press(Key::Char('p')), &mut server, &mut user, &mut password, &mut field, &mut button);
    go(press(Key::Other), &mut server, &mut user, &mut password, &mut field, &mut button);
    go(press(Key::Tab), &mut server, &mut user, &mut password, &mut field, &mut button);
    assert_eq!(field, Field::Buttons);
    go(press(Key::Char('x')), &mut server, &mut user, &mut password, &mut field, &mut button);
    go(press(Key::Right), &mut server, &mut user, &mut password, &mut field, &mut button);
    assert_eq!(button, Button::Register);
    go(press(Key::Right), &mut server, &mut user, &mut password, &mut field, &mut button);
    assert_eq!(button, Button::Exit);
    go(press(Key::Right), &mut server, &mut user, &mut password, &mut field, &mut button);
    assert_eq!(button, Button::Login);
    go(press(Key::Left), &mut server, &mut user, &mut password, &mut field, &mut button);
    assert_eq!(button, Button::Exit);
    go(press(Key::Left), &mut server, &mut user, &mut password, &mut field, &mut button);
    go(press(Key::BackTab), &mut server, &mut user, &mut password, &mut field, &mut button);
    assert_eq!(field, Field::Password);
    go(press(Key::Tab), &mut server, &mut user, &mut password, &mut field, &mut button);
    assert!(go(press(Key::Enter), &mut server, &mut user, &mut password, &mut field, &mut button));
    assert_eq!((user.as_str(), password.as_str(), button), ("a", "p", Button::Register));
    go(press(Key::Tab), &mut server, &mut user, &mut password, &mut field, &mut button);
    assert_eq!(field, Field::Server);
    go(press(Key::BackTab), &mut server, &mut user, &mut password, &mut field, &mut button);
    assert_eq!(field, Field::Buttons);
}

#[test]
fn escape_and_control_c_leave_the_dialog() {
    for key in [press(Key::Esc), KeyPress { key: Key::Char('c'), ctrl: true }] {
        let (mut a, mut b, mut c) = (String::new(), String::new(), String::new());
        let mut field = Field::Username;
        let mut button = Button::Login;
        assert!(handle_key(key, &mut a, &mut b, &mut c, &mut field, &mut button));
        assert_eq!(button, Button::Exit);
        assert_eq!(b, "");
    }
    let (mut a, mut b, mut c) = (String::new(), String::new(), String::new());
    let mut field = Field::Username;
    let mut button = Button::Login;
    assert!(!handle_key(press(Key::Char('c')), &mut a, &mut b, &mut c, &mut field, &mut button));
    assert_eq!(b, "c");
}

#[test]
fn the_dialog_hands_over_what_was_entered() {
    assert!(outcome(Button::Exit, "s".into(), "u".into(), "p".into()).is_none());
    let login = outcome(Button::Login, "s".into(), "u".into(), "p".into()).unwrap();
    assert_eq!((login.server_ip.as_str(), login.username.as_str(), login.password.as_str()), ("s", "u", "p"));
    assert_eq!(login.mode, AuthMode::Login);
    let register = outcome(Button::Register, "s".into(), "u".into(), "p".into()).unwrap();
    assert_eq!(register.password, "");
    assert_eq!(register.mode, AuthMode::Register);
}

#[test]
fn fields_and_buttons_are_styled() {
    assert_eq!(style_field("abc", true), "> abc");
    assert_eq!(style_field("abc", false), "  abc");
    assert_eq!(style_button("Login", true, true), "[Login]");
    assert_eq!(style_button("Login", false, true), " Login ");
    assert_eq!(style_button("Login", true, false), " Login ");
    assert_eq!(mask("päss"), "****");
    assert_eq!(mask(""), "");
}

// ----- the main screen -----

#[test]
fn words_are_split_at_white_space() {
    assert_eq!(split_words("  /join   general\tpw \n"), vec!["/join", "general", "pw"]);
    assert_eq!(split_words(""), Vec::<String>::new());
    assert_eq!(split_words(" \u{3000} "), Vec::<String>::new());
    assert_eq!(split_words("one"), vec!["one"]);
}

#[test]
fn commands_become_messages() {
    let mut state = ClientState::new(String::new());
    match handle_command(&mut state, "/join general", at(3)) {
        Action::Send(ClientMessage::JoinChannel { meta, name, password }) => {
            assert_eq!(meta, MessageMeta::new(1, at(3)));
            assert_eq!(name, "general");
            assert_eq!(password, None);
        }
        other => panic!("unexpected {other:?}"),
    }
    match handle_command(&mut state, "/create vault  hunter2 ", at(4)) {
        Action::Send(ClientMessage::JoinChannel { meta, name, password }) => {
            assert_eq!(meta.id, 2);
            assert_eq!(name, "vault");
            assert_eq!(password.as_deref(), Some("hunter2"));
        }
        other => panic!("unexpected {other:?}"),
    }
    assert!(matches!(
        handle_command(&mut state, "/list", at(5)),
        Action::Send(ClientMessage::ListChannels { .. })
    ));
    assert!(matches!(
        handle_command(&mut state, "/quit", at(5)),
        Action::Send(ClientMessage::Disconnect { .. })
    ));
    assert!(matches!(
        handle_command(&mut state, "/exit", at(5)),
        Action::Send(ClientMessage::Disconnect { meta }) if meta.id == 5
    ));
    match handle_command(&mut state, "/help", at(5)) {
        Action::Toast(ToastKind::Info, text) => assert_eq!(
            text,
            "Commands: /list, /join <name> [password], /create <name> [password], /quit"
        ),
        other => panic!("unexpected {other:?}"),
    }
    for line in ["/join", "/join a b c", "/list now", "/nope", ""] {
        match handle_command(&mut state, line, at(5)) {
            Action::Toast(ToastKind::Error, text) => assert_eq!(text, "Unknown command. Try /help"),
            other => panic!("unexpected {other:?}"),
        }
    }
    // Toasts use up no message number.
    assert_eq!(state.next_meta_at(at(6)).id, 6);
}

#[test]
fn input_lines_are_sent_to_the_current_channel() {
    let mut state = ClientState::new(String::new());
    match handle_input_line(&mut state, "hello", at(1)) {
        Action::Toast(ToastKind::Error, text) => {
            assert_eq!(text, "Join a channel first (/join general)")
        }
        other => panic!("unexpected {other:?}"),
    }
    state.current_channel = Some("general".to_string());
    match handle_input_line(&mut state, "héllo there", at(2)) {
        Action::Send(ClientMessage::SendMessage { meta, channel, content, metadata }) => {
            assert_eq!(meta, MessageMeta::new(1, at(2)));
            assert_eq!(channel, "general");
            assert_eq!(content, "héllo there".as_bytes());
            assert!(metadata.is_empty());
        }
        other => panic!("unexpected {other:?}"),
    }
    assert!(matches!(
        handle_input_line(&mut state, "/list", at(3)),
        Action::Send(ClientMessage::ListChannels { .. })
    ));
}

#[test]
fn messages_from_the_relay_update_the_state() {
    let mut state = ClientState::new(String::new());
    let info = ChannelInfo {
        id: 1,
        name: "general".to_string(),
        is_public: true,
        channel_type: ChannelType::Public,
        user_role: None,
    };
    let user = UserInfo { id: 1, username: "alice".to_string(), joined_at: at(0) };
    assert!(handle_server_message(
        &mut state,
        ServerMessage::ChannelList { meta: meta(), channels: vec![info.clone()] }
    )
    .is_none());
    assert_eq!(state.channels.len(), 1);
    assert_eq!(
        handle_server_message(&mut state, ServerMessage::JoinSuccess { meta: meta(), channel: info }),
        Some((ToastKind::Info, "Joined #general".to_string()))
    );
    assert_eq!(state.current_channel.as_deref(), Some("general"));
    assert!(handle_server_message(
        &mut state,
        ServerMessage::HistoryChunk {
            meta: meta(),
            channel: "general".to_string(),
            messages: vec![chat(1, "a"), chat(2, "b")],
        }
    )
    .is_none());
    assert!(handle_server_message(
        &mut state,
        ServerMessage::MessageReceived {
            meta: meta(),
            channel: "general".to_string(),
            message: chat(3, "c"),
        }
    )
    .is_none());
    let ids: Vec<u64> = state.messages_for_current().iter().map(|m| m.id).collect();
    assert_eq!(ids, vec![1, 2, 3]);
    assert_eq!(
        handle_server_message(
            &mut state,
            ServerMessage::JoinFailure {
                meta: meta(),
                channel: "vault".to_string(),
                reason: "invalid channel password".to_string(),
            }
        ),
        Some((ToastKind::Error, "Join #vault failed: invalid channel password".to_string()))
    );
    assert_eq!(
        handle_server_message(
            &mut state,
            ServerMessage::UserJoined {
                meta: meta(),
                channel: "general".to_string(),
                user: user.clone(),
            }
        ),
        Some((ToastKind::Info, "alice joined #general".to_string()))
    );
    assert_eq!(
        handle_server_message(
            &mut state,
            ServerMessage::UserLeft { meta: meta(), channel: "general".to_string(), user }
        ),
        Some((ToastKind::Info, "alice left #general".to_string()))
    );
    assert_eq!(
        handle_server_message(
            &mut state,
            ServerMessage::SystemMessage { meta: meta(), text: "hi".to_string() }
        ),
        Some((ToastKind::Info, "hi".to_string()))
    );
    assert_eq!(
        handle_server_message(
            &mut state,
            ServerMessage::ProtocolError { meta: meta(), text: "no".to_string() }
        ),
        Some((ToastKind::Error, "no".to_string()))
    );
    assert!(handle_server_message(
        &mut state,
        ServerMessage::AuthFailure { meta: meta(), reason: "x".to_string() }
    )
    .is_none());
}

#[test]
fn text_is_padded_and_truncated() {
    assert_eq!(pad("ab", 5), "ab   ");
    assert_eq!(pad("abcdef", 4), "abcd");
    assert_eq!(pad("abcd", 4), "abcd");
    assert_eq!(pad("", 0), "");
    assert_eq!(truncate("abcdef", 3), "abc");
    assert_eq!(truncate("abc", 3), "abc");
    // Lengths are counted in bytes, cuts in characters.
    assert_eq!(truncate("ééé", 4), "ééé");
    assert_eq!(truncate("ééé", 2), "éé");
    assert_eq!(pad("é", 3), "é ");
}

#[test]
fn the_screen_texts() {
    assert_eq!(header(Some("alice"), "1.2.3.4:8080"), "DarkRelay | Connected: alice @ 1.2.3.4:8080");
    assert_eq!(header(None, "x"), "DarkRelay | Connected: <guest> @ x");
    assert_eq!(channel_label("general", true), "# general");
    assert_eq!(channel_label("general", false), "  general");
    assert_eq!(messages_title(Some("general")), " Messages (general) ");
    assert_eq!(messages_title(None), " Messages (no-channel) ");
    assert_eq!(message_line("12:00:01", "alice", "hi"), "[12:00:01] <alice>: hi");
    assert_eq!(input_line(Focus::Input, "abc"), "> abc");
    assert_eq!(input_line(Focus::Channels, "abc"), "  abc");
    assert_eq!(dm_line("12:00", Speaker::You, true), "[12:00] You: [ENCRYPTED MESSAGE] \u{2713}");
    assert_eq!(dm_line("12:00", Speaker::Them, false), "[12:00] Them: [ENCRYPTED MESSAGE] ");
    assert_eq!(sidebar_label(7, 0), "@User 7");
    assert_eq!(sidebar_label(7, 12), "@User 7 [NEW: 12]");
}

#[test]
fn the_screen_is_divided() {
    let l = layout(100);
    assert_eq!((l.channels_w, l.info_w, l.messages_w), (20, 22, 56));
    let l = layout(30);
    assert_eq!((l.channels_w, l.info_w, l.messages_w), (20, 9, 0));
    let l = layout(0);
    assert_eq!((l.channels_w, l.info_w, l.messages_w), (0, 0, 0));
    let l = layout(10);
    assert_eq!((l.channels_w, l.info_w, l.messages_w), (9, 0, 0));
    assert_eq!(first_visible(100, 30), 76);
    assert_eq!(first_visible(10, 30), 0);
    assert_eq!(first_visible(10, 3), 10);
}

#[test]
fn the_selection_stays_in_the_list() {
    assert_eq!(clamp_selection(5, 0), 0);
    assert_eq!(clamp_selection(5, 3), 2);
    assert_eq!(clamp_selection(1, 3), 1);
    assert_eq!(selection_up(0, Focus::Channels), 0);
    assert_eq!(selection_up(2, Focus::Channels), 1);
    assert_eq!(selection_up(2, Focus::Input), 2);
    assert_eq!(selection_down(1, 3, Focus::Channels), 2);
    assert_eq!(selection_down(2, 3, Focus::Channels), 2);
    assert_eq!(selection_down(1, 3, Focus::Input), 1);
}

// ----- toasts -----

#[test]
fn toasts_expire_after_three_seconds() {
    let mut terminal = TerminalSession::new();
    assert!(terminal.draw_toast_at(80, at(0)).is_none());
    terminal.set_toast_at(ToastKind::Error, "oops".to_string(), at(10));
    let draw = terminal.draw_toast_at(80, at(13)).unwrap();
    assert_eq!((draw.column, draw.text.as_str(), draw.kind), (74, "oops", ToastKind::Error));
    assert_eq!(terminal.draw_toast_at(5, at(13)).unwrap().column, 0);
    assert_eq!(terminal.draw_toast_at(6, at(13)).unwrap().column, 0);
    assert_eq!(terminal.draw_toast_at(7, at(13)).unwrap().column, 1);
    assert_eq!(terminal.draw_toast_at(3, at(13)).unwrap().column, 0);
    assert!(terminal.draw_toast_at(80, Timestamp::new(13, 1)).is_none());
    assert!(terminal.draw_toast_at(80, at(11)).is_none());
    toast(&mut terminal, "now", ToastKind::Info);
    terminal.set_toast(ToastKind::Info, "later".to_string());
    let far = Timestamp::new(i64::MAX, 0);
    assert!(terminal.draw_toast_at(80, far).is_none());
}

// ----- views -----

#[test]
fn test_dm_view_creation() {
    let dm_view = DMView::new(1);
    assert!(dm_view.conversation.is_empty());
    assert_eq!(dm_view.user_id, 1);
}

#[test]
fn test_add_message_to_dm_view() {
    let mut dm_view = DMView::new(1);
    let dm = StoredDM {
        dm_id: 1,
        sender_id: 1,
        recipient_id: 2,
        content: vec![1, 2, 3],
        nonce: vec![4, 5, 6],
        timestamp: at(0),
        is_read: false,
    };

    dm_view.add_message(dm);
    assert_eq!(dm_view.conversation.len(), 1);
    assert!(dm_view.scrolled_to_bottom);
}

#[test]
fn the_dm_view_tells_speakers_apart() {
    let mut view = DMView::new(1);
    assert_eq!(view.selected(), None);
    view.add_message(dm(1, 1, 0));
    view.add_message(dm(2, 7, 0));
    assert_eq!(view.speaker(0), Speaker::You);
    assert_eq!(view.speaker(1), Speaker::Them);
    assert_eq!(view.selected(), Some(1));
}

#[test]
fn the_file_dialog_describes_the_transfer() {
    let mut dialog = FileTransferDialog {
        transfer_id: 1,
        file_name: "a.bin".to_string(),
        file_size: 10,
        sender_id: Some(42),
        recipient_id: Some(7),
        progress: 250,
        status: FileTransferStatus::InProgress,
    };
    assert_eq!(dialog.title(), "Incoming file from User 42");
    assert_eq!(dialog.shown_progress(), 100);
    assert_eq!(dialog.progress_label(), "100%");
    assert_eq!(dialog.accent(), Accent::Cyan);
    dialog.sender_id = None;
    dialog.progress = 37;
    dialog.status = FileTransferStatus::Completed;
    assert_eq!(dialog.title(), "Outgoing file to User 7");
    assert_eq!(dialog.progress_label(), "37%");
    assert_eq!(dialog.accent(), Accent::Green);
    dialog.recipient_id = None;
    dialog.status = FileTransferStatus::Failed;
    assert_eq!(dialog.title(), "File Transfer");
    assert_eq!(dialog.accent(), Accent::Red);
}

// ----- admission -----

#[test]
fn the_first_message_must_be_a_challenge() {
    let challenge = ServerMessage::AuthChallenge { meta: meta(), message: "key?".to_string() };
    assert!(on_challenge(&Some(challenge)).is_ok());
    let other = ServerMessage::SystemMessage { meta: meta(), text: "hi".to_string() };
    assert_eq!(kind_name(&other), "SystemMessage");
    match on_challenge(&Some(other)) {
        Err(HandshakeError::InvalidData(text)) => {
            assert_eq!(text, "expected AuthChallenge, got SystemMessage")
        }
        other => panic!("unexpected {other:?}"),
    }
    let closed = on_challenge(&None).unwrap_err();
    assert_eq!(closed.message(), "server closed");
}

#[test]
fn a_refused_key_ends_the_admission() {
    let refusal = ServerMessage::AuthFailure { meta: meta(), reason: "invalid special key".to_string() };
    match on_special_key_response(&Some(refusal)) {
        Err(HandshakeError::PermissionDenied(reason)) => assert_eq!(reason, "invalid special key"),
        other => panic!("unexpected {other:?}"),
    }
    let accepted = ServerMessage::SystemMessage { meta: meta(), text: "ok".to_string() };
    assert!(on_special_key_response(&Some(accepted)).is_ok());
    assert!(on_special_key_response(&None).is_ok());
}

#[test]
fn the_acknowledgement_completes_the_key_exchange() {
    let mut relay = EcdhManager::new();
    let handshake = EcdhHandshake::new();
    let server_public = relay.generate_keypair(3, handshake.public_key()).unwrap();
    let ack = ServerMessage::EcdhAck { meta: meta(), public_key: server_public };
    let shared = on_ecdh_response(handshake, Some(ack)).unwrap();
    assert_eq!(&shared, relay.get_shared_secret(3).unwrap());
    let short = ServerMessage::EcdhAck { meta: meta(), public_key: vec![1] };
    assert!(matches!(
        on_ecdh_response(EcdhHandshake::new(), Some(short)),
        Err(HandshakeError::Other(reason)) if reason == "invalid server public key length"
    ));
    let refused = ServerMessage::ProtocolError { meta: meta(), text: "special auth required".to_string() };
    assert!(matches!(
        on_ecdh_response(EcdhHandshake::new(), Some(refused)),
        Err(HandshakeError::Other(reason)) if reason == "special auth required"
    ));
    let odd = ServerMessage::ChannelList { meta: meta(), channels: Vec::new() };
    assert!(matches!(
        on_ecdh_response(EcdhHandshake::new(), Some(odd)),
        Err(HandshakeError::InvalidData(text)) if text == "expected EcdhAck, got ChannelList"
    ));
    assert!(matches!(
        on_ecdh_response(EcdhHandshake::new(), None),
        Err(HandshakeError::UnexpectedEof)
    ));
}

#[test]
fn the_admission_waits_for_its_answer() {
    let mut state = ClientState::new(String::new());
    let noise = ServerMessage::ChannelList { meta: meta(), channels: Vec::new() };
    assert!(matches!(on_auth_response(&mut state, Some(noise)), Ok(AuthStep::Waiting)));
    assert!(state.user.is_none());
    let user = UserInfo { id: 1, username: "alice".to_string(), joined_at: at(0) };
    let success = ServerMessage::AuthSuccess {
        meta: meta(),
        user: user.clone(),
        generated_password: Some("dr-1-1".to_string()),
    };
    match on_auth_response(&mut state, Some(success)) {
        Ok(AuthStep::Admitted(Some(text))) => assert_eq!(text, "Registered. Password: dr-1-1"),
        other => panic!("unexpected {other:?}"),
    }
    assert_eq!(state.user.as_ref().unwrap().username, "alice");
    assert_eq!(state.generated_password.as_deref(), Some("dr-1-1"));
    let login = ServerMessage::AuthSuccess { meta: meta(), user, generated_password: None };
    assert!(matches!(on_auth_response(&mut state, Some(login)), Ok(AuthStep::Admitted(None))));
    let refusal = ServerMessage::AuthFailure { meta: meta(), reason: "invalid password".to_string() };
    assert!(matches!(
        on_auth_response(&mut state, Some(refusal)),
        Err(HandshakeError::PermissionDenied(reason)) if reason == "invalid password"
    ));
    assert!(matches!(on_auth_response(&mut state, None), Err(HandshakeError::UnexpectedEof)));
}
