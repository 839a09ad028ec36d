//! The client's admission: what each answer of the relay means for the
//! next step.

use vstd::prelude::*;
use crate::client::crypto::{EcdhHandshake, KEY_LEN};
use crate::client::state::{ClientModel, ClientState};
use crate::protocol::messages::{ServerMessage, ServerMessageModel};
use crate::text::{joined, owned};

verus! {

/// Why the admission did not go through.
#[derive(Debug)]
pub enum HandshakeError {
    /// The relay said something that has no place at this point.
    InvalidData(String),
    /// The relay closed the connection.
    UnexpectedEof,
    /// The relay refused the special key or the credentials.
    PermissionDenied(String),
    /// The key exchange failed.
    Other(String),
}

/// The model of a [`HandshakeError`].
pub enum HandshakeErrorModel {
    InvalidData(Seq<char>),
    UnexpectedEof,
    PermissionDenied(Seq<char>),
    Other(Seq<char>),
}

impl View for HandshakeError {
    type V = HandshakeErrorModel;

    open spec fn view(&self) -> HandshakeErrorModel {
        match self {
            HandshakeError::InvalidData(text) => HandshakeErrorModel::InvalidData(text@),
            HandshakeError::UnexpectedEof => HandshakeErrorModel::UnexpectedEof,
            HandshakeError::PermissionDenied(text) => HandshakeErrorModel::PermissionDenied(text@),
            HandshakeError::Other(text) => HandshakeErrorModel::Other(text@),
        }
    }
}

impl HandshakeError {
    pub open spec fn spec_message(self) -> Seq<char> {
        match self@ {
            HandshakeErrorModel::InvalidData(text) => text,
            HandshakeErrorModel::UnexpectedEof => "server closed"@,
            HandshakeErrorModel::PermissionDenied(text) => text,
            HandshakeErrorModel::Other(text) => text,
        }
    }

    /// The error in words.
    pub fn message(&self) -> (s: String)
        ensures
            s@ == self.spec_message(),
    {
        match self {
            HandshakeError::InvalidData(text) => text.clone(),
            HandshakeError::UnexpectedEof => owned("server closed"),
            HandshakeError::PermissionDenied(text) => text.clone(),
            HandshakeError::Other(text) => text.clone(),
        }
    }
}

/// The name of the variant of `message`.
pub open spec fn kind_of(message: ServerMessageModel) -> Seq<char> {
    match message {
        ServerMessageModel::AuthChallenge { .. } => "AuthChallenge"@,
        ServerMessageModel::AuthSuccess { .. } => "AuthSuccess"@,
        ServerMessageModel::AuthFailure { .. } => "AuthFailure"@,
        ServerMessageModel::EcdhAck { .. } => "EcdhAck"@,
        ServerMessageModel::ChannelList { .. } => "ChannelList"@,
        ServerMessageModel::JoinSuccess { .. } => "JoinSuccess"@,
        ServerMessageModel::JoinFailure { .. } => "JoinFailure"@,
        ServerMessageModel::MessageReceived { .. } => "MessageReceived"@,
        ServerMessageModel::HistoryChunk { .. } => "HistoryChunk"@,
        ServerMessageModel::UserJoined { .. } => "UserJoined"@,
        ServerMessageModel::UserLeft { .. } => "UserLeft"@,
        ServerMessageModel::SystemMessage { .. } => "SystemMessage"@,
        ServerMessageModel::ProtocolError { .. } => "ProtocolError"@,
        ServerMessageModel::MessageDeleted { .. } => "MessageDeleted"@,
        ServerMessageModel::UserPromoted { .. } => "UserPromoted"@,
        ServerMessageModel::UserDemoted { .. } => "UserDemoted"@,
        ServerMessageModel::UserBanned { .. } => "UserBanned"@,
        ServerMessageModel::UserUnbanned { .. } => "UserUnbanned"@,
        ServerMessageModel::UserKicked { .. } => "UserKicked"@,
        ServerMessageModel::AdminList { .. } => "AdminList"@,
        ServerMessageModel::BanList { .. } => "BanList"@,
        ServerMessageModel::LogList { .. } => "LogList"@,
        ServerMessageModel::ChannelTypeChanged { .. } => "ChannelTypeChanged"@,
        ServerMessageModel::ChannelDeleted { .. } => "ChannelDeleted"@,
        ServerMessageModel::AdminError { .. } => "AdminError"@,
    }
}

/// The name of the variant of `message`.
pub fn kind_name(message: &ServerMessage) -> (name: &'static str)
    ensures
        name@ == kind_of(message@),
{
    match message {
        ServerMessage::AuthChallenge { .. } => "AuthChallenge",
        ServerMessage::AuthSuccess { .. } => "AuthSuccess",
        ServerMessage::AuthFailure { .. } => "AuthFailure",
        ServerMessage::EcdhAck { .. } => "EcdhAck",
        ServerMessage::ChannelList { .. } => "ChannelList",
        ServerMessage::JoinSuccess { .. } => "JoinSuccess",
        ServerMessage::JoinFailure { .. } => "JoinFailure",
        ServerMessage::MessageReceived { .. } => "MessageReceived",
        ServerMessage::HistoryChunk { .. } => "HistoryChunk",
        ServerMessage::UserJoined { .. } => "UserJoined",
        ServerMessage::UserLeft { .. } => "UserLeft",
        ServerMessage::SystemMessage { .. } => "SystemMessage",
        ServerMessage::ProtocolError { .. } => "ProtocolError",
        ServerMessage::MessageDeleted { .. } => "MessageDeleted",
        ServerMessage::UserPromoted { .. } => "UserPromoted",
        ServerMessage::UserDemoted { .. } => "UserDemoted",
        ServerMessage::UserBanned { .. } => "UserBanned",
        ServerMessage::UserUnbanned { .. } => "UserUnbanned",
        ServerMessage::UserKicked { .. } => "UserKicked",
        ServerMessage::AdminList { .. } => "AdminList",
        ServerMessage::BanList { .. } => "BanList",
        ServerMessage::LogList { .. } => "LogList",
        ServerMessage::ChannelTypeChanged { .. } => "ChannelTypeChanged",
        ServerMessage::ChannelDeleted { .. } => "ChannelDeleted",
        ServerMessage::AdminError { .. } => "AdminError",
    }
}

/// What the first message of the relay means: only a challenge lets the
/// client go on to present the special key.
pub open spec fn challenge_outcome(first: Option<ServerMessageModel>) -> Result<
    (),
    HandshakeErrorModel,
> {
    match first {
        Some(ServerMessageModel::AuthChallenge { .. }) => Ok(()),
        Some(other) => Err(
            HandshakeErrorModel::InvalidData("expected AuthChallenge, got "@ + kind_of(other)),
        ),
        None => Err(HandshakeErrorModel::UnexpectedEof),
    }
}

pub fn on_challenge(first: &Option<ServerMessage>) -> (r: Result<(), HandshakeError>)
    ensures
        match r {
            Ok(_) => challenge_outcome(first.deep_view()) is Ok,
            Err(e) => challenge_outcome(first.deep_view()) == Err::<(), HandshakeErrorModel>(e@),
        },
{
    match first {
        Some(ServerMessage::AuthChallenge { .. }) => Ok(()),
        Some(other) => Err(
            HandshakeError::InvalidData(joined("expected AuthChallenge, got ", kind_name(other))),
        ),
        None => Err(HandshakeError::UnexpectedEof),
    }
}

/// What the relay's answer to the special key means: anything but a
/// refusal lets the client go on.
pub fn on_special_key_response(response: &Option<ServerMessage>) -> (r: Result<(), HandshakeError>)
    ensures
        match r {
            Ok(_) => !(response.deep_view() matches Some(ServerMessageModel::AuthFailure { .. })),
            Err(e) => response.deep_view() matches Some(
                ServerMessageModel::AuthFailure { reason, .. },
            ) && e@ == HandshakeErrorModel::PermissionDenied(reason),
        },
{
    match response {
        Some(ServerMessage::AuthFailure { reason, .. }) => Err(
            HandshakeError::PermissionDenied(reason.clone()),
        ),
        _ => Ok(()),
    }
}

/// What the relay's answer to the client's public key means: an
/// acknowledgement completes the exchange and gives the shared secret.
pub fn on_ecdh_response(handshake: EcdhHandshake, response: Option<ServerMessage>) -> (r: Result<
    Vec<u8>,
    HandshakeError,
>)
    ensures
        match r {
            Ok(shared) => shared@.len() == KEY_LEN && (response.deep_view() matches Some(
                ServerMessageModel::EcdhAck { public_key, .. },
            ) && public_key.len() == KEY_LEN),
            Err(e) => match response.deep_view() {
                Some(ServerMessageModel::EcdhAck { public_key, .. }) => e@ is Other,
                Some(ServerMessageModel::ProtocolError { text, .. }) => e@
                    == HandshakeErrorModel::Other(text),
                Some(other) => e@ == HandshakeErrorModel::InvalidData(
                    "expected EcdhAck, got "@ + kind_of(other),
                ),
                None => e@ is UnexpectedEof,
            },
        },
{
    match response {
        Some(ServerMessage::EcdhAck { public_key, .. }) => {
            match handshake.complete(public_key.as_slice()) {
                Ok(shared) => Ok(shared),
                Err(reason) => Err(HandshakeError::Other(reason)),
            }
        },
        Some(ServerMessage::ProtocolError { text, .. }) => Err(HandshakeError::Other(text)),
        Some(other) => Err(
            HandshakeError::InvalidData(joined("expected EcdhAck, got ", kind_name(&other))),
        ),
        None => Err(HandshakeError::UnexpectedEof),
    }
}

/// Where the admission stands after one more message of the relay.
#[derive(Debug)]
pub enum AuthStep {
    /// The user is admitted; the text, where there is one, is to be shown.
    Admitted(Option<String>),
    /// The message was none of the relay's answers: keep waiting.
    Waiting,
}

/// The model of an [`AuthStep`].
pub enum AuthStepModel {
    Admitted(Option<Seq<char>>),
    Waiting,
}

impl View for AuthStep {
    type V = AuthStepModel;

    open spec fn view(&self) -> AuthStepModel {
        match self {
            AuthStep::Admitted(text) => AuthStepModel::Admitted(text.deep_view()),
            AuthStep::Waiting => AuthStepModel::Waiting,
        }
    }
}

/// What a message of the relay means while the client waits to be
/// admitted.
pub open spec fn auth_outcome(message: Option<ServerMessageModel>) -> Result<
    AuthStepModel,
    HandshakeErrorModel,
> {
    match message {
        Some(ServerMessageModel::AuthSuccess { generated_password, .. }) => Ok(
            AuthStepModel::Admitted(
                match generated_password {
                    Some(password) => Some("Registered. Password: "@ + password),
                    None => None,
                },
            ),
        ),
        Some(ServerMessageModel::AuthFailure { reason, .. }) => Err(
            HandshakeErrorModel::PermissionDenied(reason),
        ),
        Some(_) => Ok(AuthStepModel::Waiting),
        None => Err(HandshakeErrorModel::UnexpectedEof),
    }
}

/// Takes in a message of the relay while the client waits to be admitted:
/// on success the user and the generated password are kept.
pub fn on_auth_response(state: &mut ClientState, message: Option<ServerMessage>) -> (r: Result<
    AuthStep,
    HandshakeError,
>)
    ensures
        match r {
            Ok(step) => auth_outcome(message.deep_view()) == Ok::<
                AuthStepModel,
                HandshakeErrorModel,
            >(step@),
            Err(e) => auth_outcome(message.deep_view()) == Err::<
                AuthStepModel,
                HandshakeErrorModel,
            >(e@),
        },
        final(state).crypto == old(state).crypto,
        match message.deep_view() {
            Some(ServerMessageModel::AuthSuccess { user, generated_password, .. }) => final(state)@
                == (ClientModel {
                user: Some(user),
                generated_password: match generated_password {
                    Some(password) => Some(password),
                    None => old(state)@.generated_password,
                },
                ..old(state)@
            }),
            _ => final(state)@ == old(state)@,
        },
{
    match message {
        Some(ServerMessage::AuthSuccess { user, generated_password, .. }) => {
            state.user = Some(user);
            match generated_password {
                Some(password) => {
                    let text = joined("Registered. Password: ", password.as_str());
                    state.generated_password = Some(password);
                    Ok(AuthStep::Admitted(Some(text)))
                },
                None => Ok(AuthStep::Admitted(None)),
            }
        },
        Some(ServerMessage::AuthFailure { reason, .. }) => Err(
            HandshakeError::PermissionDenied(reason),
        ),
        Some(_) => Ok(AuthStep::Waiting),
        None => Err(HandshakeError::UnexpectedEof),
    }
}

} // verus!
