//! The values that travel in frames, each with the mathematical model that
//! contracts speak of: strings as `Seq<char>`, byte vectors as `Seq<u8>`.

use vstd::prelude::*;
use crate::protocol::channel::ChannelType;
use crate::protocol::permissions::Role;
use crate::time::Timestamp;

verus! {

pub type UserId = u64;

pub type ChannelId = u64;

pub type MessageId = u64;

/// What every message carries: the sender's running number and send time.
#[derive(Clone, Copy, Debug, PartialEq, Eq, Structural)]
pub struct MessageMeta {
    pub id: u64,
    pub timestamp: Timestamp,
}

impl MessageMeta {
    pub fn new(id: u64, timestamp: Timestamp) -> (meta: Self)
        ensures
            meta == (MessageMeta { id, timestamp }),
    {
        Self { id, timestamp }
    }
}

/// Where a file transfer stands.
#[derive(Clone, Copy, Debug, PartialEq, Eq, Structural)]
pub enum TransferStatus {
    Pending,
    InProgress,
    Completed,
    Failed,
    Declined,
}

/// A copy of `pairs`.
pub fn clone_pairs(pairs: &Vec<(String, String)>) -> (copy: Vec<(String, String)>)
    ensures
        copy.deep_view() == pairs.deep_view(),
{
    let mut copy: Vec<(String, String)> = Vec::new();
    let mut i: usize = 0;
    while i < pairs.len()
        invariant
            i <= pairs.len(),
            copy.len() == i,
            forall|k: int| 0 <= k < i ==> copy@[k].deep_view() == pairs@[k].deep_view(),
        decreases pairs.len() - i,
    {
        copy.push((pairs[i].0.clone(), pairs[i].1.clone()));
        i += 1;
    }
    assert(copy.deep_view() =~= pairs.deep_view());
    copy
}

/// A registered user as other parties see them.
#[derive(Debug)]
pub struct UserInfo {
    pub id: UserId,
    pub username: String,
    pub joined_at: Timestamp,
}

/// The model of a [`UserInfo`].
pub struct UserInfoModel {
    pub id: UserId,
    pub username: Seq<char>,
    pub joined_at: Timestamp,
}

impl View for UserInfo {
    type V = UserInfoModel;

    open spec fn view(&self) -> UserInfoModel {
        UserInfoModel {
            id: self.id,
            username: self.username@,
            joined_at: self.joined_at,
        }
    }
}

impl DeepView for UserInfo {
    type V = UserInfoModel;

    open spec fn deep_view(&self) -> UserInfoModel {
        self@
    }
}

impl Clone for UserInfo {
    fn clone(&self) -> (copy: Self)
        ensures
            copy@ == self@,
    {
        let copy = UserInfo {
            id: self.id,
            username: self.username.clone(),
            joined_at: self.joined_at,
        };
        copy
    }
}

/// A channel as it is listed, and the asking user's role in it where known.
#[derive(Debug)]
pub struct ChannelInfo {
    pub id: ChannelId,
    pub name: String,
    pub is_public: bool,
    pub channel_type: ChannelType,
    pub user_role: Option<Role>,
}

/// The model of a [`ChannelInfo`].
pub struct ChannelInfoModel {
    pub id: ChannelId,
    pub name: Seq<char>,
    pub is_public: bool,
    pub channel_type: ChannelType,
    pub user_role: Option<Role>,
}

impl View for ChannelInfo {
    type V = ChannelInfoModel;

    open spec fn view(&self) -> ChannelInfoModel {
        ChannelInfoModel {
            id: self.id,
            name: self.name@,
            is_public: self.is_public,
            channel_type: self.channel_type,
            user_role: self.user_role,
        }
    }
}

impl DeepView for ChannelInfo {
    type V = ChannelInfoModel;

    open spec fn deep_view(&self) -> ChannelInfoModel {
        self@
    }
}

impl Clone for ChannelInfo {
    fn clone(&self) -> (copy: Self)
        ensures
            copy@ == self@,
    {
        let copy = ChannelInfo {
            id: self.id,
            name: self.name.clone(),
            is_public: self.is_public,
            channel_type: self.channel_type,
            user_role: self.user_role,
        };
        copy
    }
}

/// One message of a channel. The relay never looks into `content`.
#[derive(Debug)]
pub struct ChatMessage {
    pub id: MessageId,
    pub user_id: UserId,
    pub username: String,
    pub content: Vec<u8>,
    pub timestamp: Timestamp,
    /// The AES-GCM nonce of `content`, twelve bytes where present.
    pub nonce: Option<Vec<u8>>,
    /// Free-form key/value pairs the sender attached.
    pub metadata: Vec<(String, String)>,
}

/// The model of a [`ChatMessage`].
pub struct ChatMessageModel {
    pub id: MessageId,
    pub user_id: UserId,
    pub username: Seq<char>,
    pub content: Seq<u8>,
    pub timestamp: Timestamp,
    pub nonce: Option<Seq<u8>>,
    pub metadata: Seq<(Seq<char>, Seq<char>)>,
}

impl View for ChatMessage {
    type V = ChatMessageModel;

    open spec fn view(&self) -> ChatMessageModel {
        ChatMessageModel {
            id: self.id,
            user_id: self.user_id,
            username: self.username@,
            content: self.content@,
            timestamp: self.timestamp,
            nonce: self.nonce.deep_view(),
            metadata: self.metadata.deep_view(),
        }
    }
}

impl DeepView for ChatMessage {
    type V = ChatMessageModel;

    open spec fn deep_view(&self) -> ChatMessageModel {
        self@
    }
}

impl Clone for ChatMessage {
    fn clone(&self) -> (copy: Self)
        ensures
            copy@ == self@,
    {
        let copy = ChatMessage {
            id: self.id,
            user_id: self.user_id,
            username: self.username.clone(),
            content: self.content.clone(),
            timestamp: self.timestamp,
            nonce: self.nonce.clone(),
            metadata: clone_pairs(&self.metadata),
        };
        assert(copy.content.deep_view() =~= self.content.deep_view());
        assert(copy.nonce.deep_view() =~= self.nonce.deep_view());
        copy
    }
}

/// A ban as it is listed.
#[derive(Debug)]
pub struct BanInfo {
    pub user_id: UserId,
    pub username: String,
    pub banned_until: Option<Timestamp>,
    pub banned_by: String,
}

/// The model of a [`BanInfo`].
pub struct BanInfoModel {
    pub user_id: UserId,
    pub username: Seq<char>,
    pub banned_until: Option<Timestamp>,
    pub banned_by: Seq<char>,
}

impl View for BanInfo {
    type V = BanInfoModel;

    open spec fn view(&self) -> BanInfoModel {
        BanInfoModel {
            user_id: self.user_id,
            username: self.username@,
            banned_until: self.banned_until,
            banned_by: self.banned_by@,
        }
    }
}

impl DeepView for BanInfo {
    type V = BanInfoModel;

    open spec fn deep_view(&self) -> BanInfoModel {
        self@
    }
}

impl Clone for BanInfo {
    fn clone(&self) -> (copy: Self)
        ensures
            copy@ == self@,
    {
        let copy = BanInfo {
            user_id: self.user_id,
            username: self.username.clone(),
            banned_until: self.banned_until,
            banned_by: self.banned_by.clone(),
        };
        copy
    }
}

/// A user who holds a role above `User` in a channel.
#[derive(Debug)]
pub struct AdminInfo {
    pub user_id: UserId,
    pub username: String,
    pub role: Role,
}

/// The model of a [`AdminInfo`].
pub struct AdminInfoModel {
    pub user_id: UserId,
    pub username: Seq<char>,
    pub role: Role,
}

impl View for AdminInfo {
    type V = AdminInfoModel;

    open spec fn view(&self) -> AdminInfoModel {
        AdminInfoModel {
            user_id: self.user_id,
            username: self.username@,
            role: self.role,
        }
    }
}

impl DeepView for AdminInfo {
    type V = AdminInfoModel;

    open spec fn deep_view(&self) -> AdminInfoModel {
        self@
    }
}

impl Clone for AdminInfo {
    fn clone(&self) -> (copy: Self)
        ensures
            copy@ == self@,
    {
        let copy = AdminInfo {
            user_id: self.user_id,
            username: self.username.clone(),
            role: self.role,
        };
        copy
    }
}

/// One line of a channel's moderation log.
#[derive(Debug)]
pub struct LogEntry {
    pub timestamp: Timestamp,
    pub user_id: UserId,
    pub username: String,
    pub action: String,
    pub target: String,
    pub details: String,
}

/// The model of a [`LogEntry`].
pub struct LogEntryModel {
    pub timestamp: Timestamp,
    pub user_id: UserId,
    pub username: Seq<char>,
    pub action: Seq<char>,
    pub target: Seq<char>,
    pub details: Seq<char>,
}

impl View for LogEntry {
    type V = LogEntryModel;

    open spec fn view(&self) -> LogEntryModel {
        LogEntryModel {
            timestamp: self.timestamp,
            user_id: self.user_id,
            username: self.username@,
            action: self.action@,
            target: self.target@,
            details: self.details@,
        }
    }
}

impl DeepView for LogEntry {
    type V = LogEntryModel;

    open spec fn deep_view(&self) -> LogEntryModel {
        self@
    }
}

impl Clone for LogEntry {
    fn clone(&self) -> (copy: Self)
        ensures
            copy@ == self@,
    {
        let copy = LogEntry {
            timestamp: self.timestamp,
            user_id: self.user_id,
            username: self.username.clone(),
            action: self.action.clone(),
            target: self.target.clone(),
            details: self.details.clone(),
        };
        copy
    }
}

/// A direct message as the relay keeps it.
#[derive(Debug)]
pub struct StoredDM {
    pub dm_id: u64,
    pub sender_id: u64,
    pub recipient_id: u64,
    pub content: Vec<u8>,
    pub nonce: Vec<u8>,
    pub timestamp: Timestamp,
    pub is_read: bool,
}

/// The model of a [`StoredDM`].
pub struct StoredDMModel {
    pub dm_id: u64,
    pub sender_id: u64,
    pub recipient_id: u64,
    pub content: Seq<u8>,
    pub nonce: Seq<u8>,
    pub timestamp: Timestamp,
    pub is_read: bool,
}

impl View for StoredDM {
    type V = StoredDMModel;

    open spec fn view(&self) -> StoredDMModel {
        StoredDMModel {
            dm_id: self.dm_id,
            sender_id: self.sender_id,
            recipient_id: self.recipient_id,
            content: self.content@,
            nonce: self.nonce@,
            timestamp: self.timestamp,
            is_read: self.is_read,
        }
    }
}

impl DeepView for StoredDM {
    type V = StoredDMModel;

    open spec fn deep_view(&self) -> StoredDMModel {
        self@
    }
}

impl Clone for StoredDM {
    fn clone(&self) -> (copy: Self)
        ensures
            copy@ == self@,
    {
        let copy = StoredDM {
            dm_id: self.dm_id,
            sender_id: self.sender_id,
            recipient_id: self.recipient_id,
            content: self.content.clone(),
            nonce: self.nonce.clone(),
            timestamp: self.timestamp,
            is_read: self.is_read,
        };
        assert(copy.content.deep_view() =~= self.content.deep_view());
        assert(copy.nonce.deep_view() =~= self.nonce.deep_view());
        copy
    }
}

/// A file transfer as it is announced to its parties.
#[derive(Debug)]
pub struct FileTransfer {
    pub id: u64,
    pub sender_id: u64,
    pub recipient_id: u64,
    pub file_name: String,
    pub file_size: u64,
    pub file_hash: Vec<u8>,
    pub status: TransferStatus,
}

/// The model of a [`FileTransfer`].
pub struct FileTransferModel {
    pub id: u64,
    pub sender_id: u64,
    pub recipient_id: u64,
    pub file_name: Seq<char>,
    pub file_size: u64,
    pub file_hash: Seq<u8>,
    pub status: TransferStatus,
}

impl View for FileTransfer {
    type V = FileTransferModel;

    open spec fn view(&self) -> FileTransferModel {
        FileTransferModel {
            id: self.id,
            sender_id: self.sender_id,
            recipient_id: self.recipient_id,
            file_name: self.file_name@,
            file_size: self.file_size,
            file_hash: self.file_hash@,
            status: self.status,
        }
    }
}

impl DeepView for FileTransfer {
    type V = FileTransferModel;

    open spec fn deep_view(&self) -> FileTransferModel {
        self@
    }
}

impl Clone for FileTransfer {
    fn clone(&self) -> (copy: Self)
        ensures
            copy@ == self@,
    {
        let copy = FileTransfer {
            id: self.id,
            sender_id: self.sender_id,
            recipient_id: self.recipient_id,
            file_name: self.file_name.clone(),
            file_size: self.file_size,
            file_hash: self.file_hash.clone(),
            status: self.status,
        };
        assert(copy.file_hash.deep_view() =~= self.file_hash.deep_view());
        copy
    }
}

/// What a client may say to the relay.
#[derive(Debug)]
#[allow(inconsistent_fields)]
pub enum ClientMessage {
    Connect {
        meta: MessageMeta,
        client_name: Option<String>,
        client_version: Option<String>,
    },
    /// Presents the special key.
    Auth {
        meta: MessageMeta,
        key: String,
    },
    /// Offers the client's X25519 public key.
    EcdhPublicKey {
        meta: MessageMeta,
        public_key: Vec<u8>,
    },
    RegisterUser {
        meta: MessageMeta,
        username: String,
    },
    Login {
        meta: MessageMeta,
        username: String,
        password: String,
    },
    JoinChannel {
        meta: MessageMeta,
        name: String,
        password: Option<String>,
    },
    SendMessage {
        meta: MessageMeta,
        channel: String,
        content: Vec<u8>,
        metadata: Vec<(String, String)>,
    },
    ListChannels {
        meta: MessageMeta,
    },
    GetHistory {
        meta: MessageMeta,
        channel: String,
        limit: u16,
    },
    DeleteMessage {
        meta: MessageMeta,
        channel: String,
        message_id: MessageId,
    },
    PromoteUser {
        meta: MessageMeta,
        channel: String,
        username: String,
        role: Role,
    },
    DemoteUser {
        meta: MessageMeta,
        channel: String,
        username: String,
    },
    BanUser {
        meta: MessageMeta,
        channel: String,
        username: String,
        duration_seconds: Option<u64>,
        reason: Option<String>,
    },
    UnbanUser {
        meta: MessageMeta,
        channel: String,
        username: String,
    },
    KickUser {
        meta: MessageMeta,
        channel: String,
        username: String,
        reason: Option<String>,
    },
    ListAdmins {
        meta: MessageMeta,
        channel: String,
    },
    ListBans {
        meta: MessageMeta,
        channel: String,
    },
    ViewLogs {
        meta: MessageMeta,
        channel: String,
        limit: u32,
    },
    ChangeChannelType {
        meta: MessageMeta,
        channel: String,
        channel_type: ChannelType,
    },
    DeleteChannel {
        meta: MessageMeta,
        channel: String,
    },
    Disconnect {
        meta: MessageMeta,
    },
}

/// The model of a [`ClientMessage`].
#[allow(inconsistent_fields)]
pub enum ClientMessageModel {
    Connect {
        meta: MessageMeta,
        client_name: Option<Seq<char>>,
        client_version: Option<Seq<char>>,
    },
    Auth {
        meta: MessageMeta,
        key: Seq<char>,
    },
    EcdhPublicKey {
        meta: MessageMeta,
        public_key: Seq<u8>,
    },
    RegisterUser {
        meta: MessageMeta,
        username: Seq<char>,
    },
    Login {
        meta: MessageMeta,
        username: Seq<char>,
        password: Seq<char>,
    },
    JoinChannel {
        meta: MessageMeta,
        name: Seq<char>,
        password: Option<Seq<char>>,
    },
    SendMessage {
        meta: MessageMeta,
        channel: Seq<char>,
        content: Seq<u8>,
        metadata: Seq<(Seq<char>, Seq<char>)>,
    },
    ListChannels {
        meta: MessageMeta,
    },
    GetHistory {
        meta: MessageMeta,
        channel: Seq<char>,
        limit: u16,
    },
    DeleteMessage {
        meta: MessageMeta,
        channel: Seq<char>,
        message_id: MessageId,
    },
    PromoteUser {
        meta: MessageMeta,
        channel: Seq<char>,
        username: Seq<char>,
        role: Role,
    },
    DemoteUser {
        meta: MessageMeta,
        channel: Seq<char>,
        username: Seq<char>,
    },
    BanUser {
        meta: MessageMeta,
        channel: Seq<char>,
        username: Seq<char>,
        duration_seconds: Option<u64>,
        reason: Option<Seq<char>>,
    },
    UnbanUser {
        meta: MessageMeta,
        channel: Seq<char>,
        username: Seq<char>,
    },
    KickUser {
        meta: MessageMeta,
        channel: Seq<char>,
        username: Seq<char>,
        reason: Option<Seq<char>>,
    },
    ListAdmins {
        meta: MessageMeta,
        channel: Seq<char>,
    },
    ListBans {
        meta: MessageMeta,
        channel: Seq<char>,
    },
    ViewLogs {
        meta: MessageMeta,
        channel: Seq<char>,
        limit: u32,
    },
    ChangeChannelType {
        meta: MessageMeta,
        channel: Seq<char>,
        channel_type: ChannelType,
    },
    DeleteChannel {
        meta: MessageMeta,
        channel: Seq<char>,
    },
    Disconnect {
        meta: MessageMeta,
    },
}

impl View for ClientMessage {
    type V = ClientMessageModel;

    open spec fn view(&self) -> ClientMessageModel {
        match self {
            ClientMessage::Connect {
                meta,
                client_name,
                client_version,
            } => ClientMessageModel::Connect {
                meta: *meta,
                client_name: client_name.deep_view(),
                client_version: client_version.deep_view(),
            },
            ClientMessage::Auth { meta, key } => ClientMessageModel::Auth {
                meta: *meta,
                key: key@,
            },
            ClientMessage::EcdhPublicKey { meta, public_key } => ClientMessageModel::EcdhPublicKey {
                meta: *meta,
                public_key: public_key@,
            },
            ClientMessage::RegisterUser { meta, username } => ClientMessageModel::RegisterUser {
                meta: *meta,
                username: username@,
            },
            ClientMessage::Login { meta, username, password } => ClientMessageModel::Login {
                meta: *meta,
                username: username@,
                password: password@,
            },
            ClientMessage::JoinChannel { meta, name, password } => ClientMessageModel::JoinChannel {
                meta: *meta,
                name: name@,
                password: password.deep_view(),
            },
            ClientMessage::SendMessage {
                meta,
                channel,
                content,
                metadata,
            } => ClientMessageModel::SendMessage {
                meta: *meta,
                channel: channel@,
                content: content@,
                metadata: metadata.deep_view(),
            },
            ClientMessage::ListChannels { meta } => ClientMessageModel::ListChannels {
                meta: *meta,
            },
            ClientMessage::GetHistory { meta, channel, limit } => ClientMessageModel::GetHistory {
                meta: *meta,
                channel: channel@,
                limit: *limit,
            },
            ClientMessage::DeleteMessage {
                meta,
                channel,
                message_id,
            } => ClientMessageModel::DeleteMessage {
                meta: *meta,
                channel: channel@,
                message_id: *message_id,
            },
            ClientMessage::PromoteUser {
                meta,
                channel,
                username,
                role,
            } => ClientMessageModel::PromoteUser {
                meta: *meta,
                channel: channel@,
                username: username@,
                role: *role,
            },
            ClientMessage::DemoteUser {
                meta,
                channel,
                username,
            } => ClientMessageModel::DemoteUser {
                meta: *meta,
                channel: channel@,
                username: username@,
            },
            ClientMessage::BanUser {
                meta,
                channel,
                username,
                duration_seconds,
                reason,
            } => ClientMessageModel::BanUser {
                meta: *meta,
                channel: channel@,
                username: username@,
                duration_seconds: *duration_seconds,
                reason: reason.deep_view(),
            },
            ClientMessage::UnbanUser { meta, channel, username } => ClientMessageModel::UnbanUser {
                meta: *meta,
                channel: channel@,
                username: username@,
            },
            ClientMessage::KickUser {
                meta,
                channel,
                username,
                reason,
            } => ClientMessageModel::KickUser {
                meta: *meta,
                channel: channel@,
                username: username@,
                reason: reason.deep_view(),
            },
            ClientMessage::ListAdmins { meta, channel } => ClientMessageModel::ListAdmins {
                meta: *meta,
                channel: channel@,
            },
            ClientMessage::ListBans { meta, channel } => ClientMessageModel::ListBans {
                meta: *meta,
                channel: channel@,
            },
            ClientMessage::ViewLogs { meta, channel, limit } => ClientMessageModel::ViewLogs {
                meta: *meta,
                channel: channel@,
                limit: *limit,
            },
            ClientMessage::ChangeChannelType {
                meta,
                channel,
                channel_type,
            } => ClientMessageModel::ChangeChannelType {
                meta: *meta,
                channel: channel@,
                channel_type: *channel_type,
            },
            ClientMessage::DeleteChannel { meta, channel } => ClientMessageModel::DeleteChannel {
                meta: *meta,
                channel: channel@,
            },
            ClientMessage::Disconnect { meta } => ClientMessageModel::Disconnect {
                meta: *meta,
            },
        }
    }
}

impl DeepView for ClientMessage {
    type V = ClientMessageModel;

    open spec fn deep_view(&self) -> ClientMessageModel {
        self@
    }
}

impl Clone for ClientMessage {
    fn clone(&self) -> (copy: Self)
        ensures
            copy@ == self@,
    {
        match self {
            ClientMessage::Connect { meta, client_name, client_version } => {
                let client_name_copy = client_name.clone();
                let client_version_copy = client_version.clone();
                assert(client_name_copy.deep_view() =~= client_name.deep_view());
                assert(client_version_copy.deep_view() =~= client_version.deep_view());
                ClientMessage::Connect {
                    meta: *meta,
                    client_name: client_name_copy,
                    client_version: client_version_copy,
                }
            },
            ClientMessage::Auth { meta, key } => {
                let key_copy = key.clone();
                ClientMessage::Auth {
                    meta: *meta,
                    key: key_copy,
                }
            },
            ClientMessage::EcdhPublicKey { meta, public_key } => {
                let public_key_copy = public_key.clone();
                assert(public_key_copy.deep_view() =~= public_key.deep_view());
                ClientMessage::EcdhPublicKey {
                    meta: *meta,
                    public_key: public_key_copy,
                }
            },
            ClientMessage::RegisterUser { meta, username } => {
                let username_copy = username.clone();
                ClientMessage::RegisterUser {
                    meta: *meta,
                    username: username_copy,
                }
            },
            ClientMessage::Login { meta, username, password } => {
                let username_copy = username.clone();
                let password_copy = password.clone();
                ClientMessage::Login {
                    meta: *meta,
                    username: username_copy,
                    password: password_copy,
                }
            },
            ClientMessage::JoinChannel { meta, name, password } => {
                let name_copy = name.clone();
                let password_copy = password.clone();
                assert(password_copy.deep_view() =~= password.deep_view());
                ClientMessage::JoinChannel {
                    meta: *meta,
                    name: name_copy,
                    password: password_copy,
                }
            },
            ClientMessage::SendMessage { meta, channel, content, metadata } => {
                let channel_copy = channel.clone();
                let content_copy = content.clone();
                let metadata_copy = clone_pairs(metadata);
                assert(content_copy.deep_view() =~= content.deep_view());
                ClientMessage::SendMessage {
                    meta: *meta,
                    channel: channel_copy,
                    content: content_copy,
                    metadata: metadata_copy,
                }
            },
            ClientMessage::ListChannels { meta } => {
                ClientMessage::ListChannels {
                    meta: *meta,
                }
            },
            ClientMessage::GetHistory { meta, channel, limit } => {
                let channel_copy = channel.clone();
                ClientMessage::GetHistory {
                    meta: *meta,
                    channel: channel_copy,
                    limit: *limit,
                }
            },
            ClientMessage::DeleteMessage { meta, channel, message_id } => {
                let channel_copy = channel.clone();
                ClientMessage::DeleteMessage {
                    meta: *meta,
                    channel: channel_copy,
                    message_id: *message_id,
                }
            },
            ClientMessage::PromoteUser { meta, channel, username, role } => {
                let channel_copy = channel.clone();
                let username_copy = username.clone();
                ClientMessage::PromoteUser {
                    meta: *meta,
                    channel: channel_copy,
                    username: username_copy,
                    role: *role,
                }
            },
            ClientMessage::DemoteUser { meta, channel, username } => {
                let channel_copy = channel.clone();
                let username_copy = username.clone();
                ClientMessage::DemoteUser {
                    meta: *meta,
                    channel: channel_copy,
                    username: username_copy,
                }
            },
            ClientMessage::BanUser { meta, channel, username, duration_seconds, reason } => {
                let channel_copy = channel.clone();
                let username_copy = username.clone();
                let reason_copy = reason.clone();
                assert(reason_copy.deep_view() =~= reason.deep_view());
                ClientMessage::BanUser {
                    meta: *meta,
                    channel: channel_copy,
                    username: username_copy,
                    duration_seconds: *duration_seconds,
                    reason: reason_copy,
                }
            },
            ClientMessage::UnbanUser { meta, channel, username } => {
                let channel_copy = channel.clone();
                let username_copy = username.clone();
                ClientMessage::UnbanUser {
                    meta: *meta,
                    channel: channel_copy,
                    username: username_copy,
                }
            },
            ClientMessage::KickUser { meta, channel, username, reason } => {
                let channel_copy = channel.clone();
                let username_copy = username.clone();
                let reason_copy = reason.clone();
                assert(reason_copy.deep_view() =~= reason.deep_view());
                ClientMessage::KickUser {
                    meta: *meta,
                    channel: channel_copy,
                    username: username_copy,
                    reason: reason_copy,
                }
            },
            ClientMessage::ListAdmins { meta, channel } => {
                let channel_copy = channel.clone();
                ClientMessage::ListAdmins {
                    meta: *meta,
                    channel: channel_copy,
                }
            },
            ClientMessage::ListBans { meta, channel } => {
                let channel_copy = channel.clone();
                ClientMessage::ListBans {
                    meta: *meta,
                    channel: channel_copy,
                }
            },
            ClientMessage::ViewLogs { meta, channel, limit } => {
                let channel_copy = channel.clone();
                ClientMessage::ViewLogs {
                    meta: *meta,
                    channel: channel_copy,
                    limit: *limit,
                }
            },
            ClientMessage::ChangeChannelType { meta, channel, channel_type } => {
                let channel_copy = channel.clone();
                ClientMessage::ChangeChannelType {
                    meta: *meta,
                    channel: channel_copy,
                    channel_type: *channel_type,
                }
            },
            ClientMessage::DeleteChannel { meta, channel } => {
                let channel_copy = channel.clone();
                ClientMessage::DeleteChannel {
                    meta: *meta,
                    channel: channel_copy,
                }
            },
            ClientMessage::Disconnect { meta } => {
                ClientMessage::Disconnect {
                    meta: *meta,
                }
            },
        }
    }
}

/// What the relay may say to a client.
#[derive(Debug)]
#[allow(inconsistent_fields)]
pub enum ServerMessage {
    AuthChallenge {
        meta: MessageMeta,
        message: String,
    },
    AuthSuccess {
        meta: MessageMeta,
        user: UserInfo,
        /// Present only after a registration.
        generated_password: Option<String>,
    },
    AuthFailure {
        meta: MessageMeta,
        reason: String,
    },
    /// Answers with the server's X25519 public key.
    EcdhAck {
        meta: MessageMeta,
        public_key: Vec<u8>,
    },
    ChannelList {
        meta: MessageMeta,
        channels: Vec<ChannelInfo>,
    },
    JoinSuccess {
        meta: MessageMeta,
        channel: ChannelInfo,
    },
    JoinFailure {
        meta: MessageMeta,
        channel: String,
        reason: String,
    },
    MessageReceived {
        meta: MessageMeta,
        channel: String,
        message: ChatMessage,
    },
    HistoryChunk {
        meta: MessageMeta,
        channel: String,
        messages: Vec<ChatMessage>,
    },
    UserJoined {
        meta: MessageMeta,
        channel: String,
        user: UserInfo,
    },
    UserLeft {
        meta: MessageMeta,
        channel: String,
        user: UserInfo,
    },
    SystemMessage {
        meta: MessageMeta,
        text: String,
    },
    ProtocolError {
        meta: MessageMeta,
        text: String,
    },
    MessageDeleted {
        meta: MessageMeta,
        channel: String,
        message_id: MessageId,
        deleted_by: String,
    },
    UserPromoted {
        meta: MessageMeta,
        channel: String,
        user_id: UserId,
        username: String,
        new_role: Role,
        promoted_by: String,
    },
    UserDemoted {
        meta: MessageMeta,
        channel: String,
        user_id: UserId,
        username: String,
        demoted_by: String,
    },
    UserBanned {
        meta: MessageMeta,
        channel: String,
        user_id: UserId,
        username: String,
        banned_until: Option<Timestamp>,
        banned_by: String,
        reason: Option<String>,
    },
    UserUnbanned {
        meta: MessageMeta,
        channel: String,
        username: String,
        unbanned_by: String,
    },
    UserKicked {
        meta: MessageMeta,
        channel: String,
        user_id: UserId,
        username: String,
        kicked_by: String,
        reason: Option<String>,
    },
    AdminList {
        meta: MessageMeta,
        channel: String,
        admins: Vec<AdminInfo>,
    },
    BanList {
        meta: MessageMeta,
        channel: String,
        bans: Vec<BanInfo>,
    },
    LogList {
        meta: MessageMeta,
        channel: String,
        logs: Vec<LogEntry>,
    },
    ChannelTypeChanged {
        meta: MessageMeta,
        channel: String,
        new_type: ChannelType,
        changed_by: String,
    },
    ChannelDeleted {
        meta: MessageMeta,
        channel: String,
        deleted_by: String,
    },
    AdminError {
        meta: MessageMeta,
        reason: String,
    },
}

/// The model of a [`ServerMessage`].
#[allow(inconsistent_fields)]
pub enum ServerMessageModel {
    AuthChallenge {
        meta: MessageMeta,
        message: Seq<char>,
    },
    AuthSuccess {
        meta: MessageMeta,
        user: UserInfoModel,
        generated_password: Option<Seq<char>>,
    },
    AuthFailure {
        meta: MessageMeta,
        reason: Seq<char>,
    },
    EcdhAck {
        meta: MessageMeta,
        public_key: Seq<u8>,
    },
    ChannelList {
        meta: MessageMeta,
        channels: Seq<ChannelInfoModel>,
    },
    JoinSuccess {
        meta: MessageMeta,
        channel: ChannelInfoModel,
    },
    JoinFailure {
        meta: MessageMeta,
        channel: Seq<char>,
        reason: Seq<char>,
    },
    MessageReceived {
        meta: MessageMeta,
        channel: Seq<char>,
        message: ChatMessageModel,
    },
    HistoryChunk {
        meta: MessageMeta,
        channel: Seq<char>,
        messages: Seq<ChatMessageModel>,
    },
    UserJoined {
        meta: MessageMeta,
        channel: Seq<char>,
        user: UserInfoModel,
    },
    UserLeft {
        meta: MessageMeta,
        channel: Seq<char>,
        user: UserInfoModel,
    },
    SystemMessage {
        meta: MessageMeta,
        text: Seq<char>,
    },
    ProtocolError {
        meta: MessageMeta,
        text: Seq<char>,
    },
    MessageDeleted {
        meta: MessageMeta,
        channel: Seq<char>,
        message_id: MessageId,
        deleted_by: Seq<char>,
    },
    UserPromoted {
        meta: MessageMeta,
        channel: Seq<char>,
        user_id: UserId,
        username: Seq<char>,
        new_role: Role,
        promoted_by: Seq<char>,
    },
    UserDemoted {
        meta: MessageMeta,
        channel: Seq<char>,
        user_id: UserId,
        username: Seq<char>,
        demoted_by: Seq<char>,
    },
    UserBanned {
        meta: MessageMeta,
        channel: Seq<char>,
        user_id: UserId,
        username: Seq<char>,
        banned_until: Option<Timestamp>,
        banned_by: Seq<char>,
        reason: Option<Seq<char>>,
    },
    UserUnbanned {
        meta: MessageMeta,
        channel: Seq<char>,
        username: Seq<char>,
        unbanned_by: Seq<char>,
    },
    UserKicked {
        meta: MessageMeta,
        channel: Seq<char>,
        user_id: UserId,
        username: Seq<char>,
        kicked_by: Seq<char>,
        reason: Option<Seq<char>>,
    },
    AdminList {
        meta: MessageMeta,
        channel: Seq<char>,
        admins: Seq<AdminInfoModel>,
    },
    BanList {
        meta: MessageMeta,
        channel: Seq<char>,
        bans: Seq<BanInfoModel>,
    },
    LogList {
        meta: MessageMeta,
        channel: Seq<char>,
        logs: Seq<LogEntryModel>,
    },
    ChannelTypeChanged {
        meta: MessageMeta,
        channel: Seq<char>,
        new_type: ChannelType,
        changed_by: Seq<char>,
    },
    ChannelDeleted {
        meta: MessageMeta,
        channel: Seq<char>,
        deleted_by: Seq<char>,
    },
    AdminError {
        meta: MessageMeta,
        reason: Seq<char>,
    },
}

impl View for ServerMessage {
    type V = ServerMessageModel;

    open spec fn view(&self) -> ServerMessageModel {
        match self {
            ServerMessage::AuthChallenge { meta, message } => ServerMessageModel::AuthChallenge {
                meta: *meta,
                message: message@,
            },
            ServerMessage::AuthSuccess {
                meta,
                user,
                generated_password,
            } => ServerMessageModel::AuthSuccess {
                meta: *meta,
                user: user@,
                generated_password: generated_password.deep_view(),
            },
            ServerMessage::AuthFailure { meta, reason } => ServerMessageModel::AuthFailure {
                meta: *meta,
                reason: reason@,
            },
            ServerMessage::EcdhAck { meta, public_key } => ServerMessageModel::EcdhAck {
                meta: *meta,
                public_key: public_key@,
            },
            ServerMessage::ChannelList { meta, channels } => ServerMessageModel::ChannelList {
                meta: *meta,
                channels: channels.deep_view(),
            },
            ServerMessage::JoinSuccess { meta, channel } => ServerMessageModel::JoinSuccess {
                meta: *meta,
                channel: channel@,
            },
            ServerMessage::JoinFailure {
                meta,
                channel,
                reason,
            } => ServerMessageModel::JoinFailure {
                meta: *meta,
                channel: channel@,
                reason: reason@,
            },
            ServerMessage::MessageReceived {
                meta,
                channel,
                message,
            } => ServerMessageModel::MessageReceived {
                meta: *meta,
                channel: channel@,
                message: message@,
            },
            ServerMessage::HistoryChunk {
                meta,
                channel,
                messages,
            } => ServerMessageModel::HistoryChunk {
                meta: *meta,
                channel: channel@,
                messages: messages.deep_view(),
            },
            ServerMessage::UserJoined { meta, channel, user } => ServerMessageModel::UserJoined {
                meta: *meta,
                channel: channel@,
                user: user@,
            },
            ServerMessage::UserLeft { meta, channel, user } => ServerMessageModel::UserLeft {
                meta: *meta,
                channel: channel@,
                user: user@,
            },
            ServerMessage::SystemMessage { meta, text } => ServerMessageModel::SystemMessage {
                meta: *meta,
                text: text@,
            },
            ServerMessage::ProtocolError { meta, text } => ServerMessageModel::ProtocolError {
                meta: *meta,
                text: text@,
            },
            ServerMessage::MessageDeleted {
                meta,
                channel,
                message_id,
                deleted_by,
            } => ServerMessageModel::MessageDeleted {
                meta: *meta,
                channel: channel@,
                message_id: *message_id,
                deleted_by: deleted_by@,
            },
            ServerMessage::UserPromoted {
                meta,
                channel,
                user_id,
                username,
                new_role,
                promoted_by,
            } => ServerMessageModel::UserPromoted {
                meta: *meta,
                channel: channel@,
                user_id: *user_id,
                username: username@,
                new_role: *new_role,
                promoted_by: promoted_by@,
            },
            ServerMessage::UserDemoted {
                meta,
                channel,
                user_id,
                username,
                demoted_by,
            } => ServerMessageModel::UserDemoted {
                meta: *meta,
                channel: channel@,
                user_id: *user_id,
                username: username@,
                demoted_by: demoted_by@,
            },
            ServerMessage::UserBanned {
                meta,
                channel,
                user_id,
                username,
                banned_until,
                banned_by,
                reason,
            } => ServerMessageModel::UserBanned {
                meta: *meta,
                channel: channel@,
                user_id: *user_id,
                username: username@,
                banned_until: *banned_until,
                banned_by: banned_by@,
                reason: reason.deep_view(),
            },
            ServerMessage::UserUnbanned {
                meta,
                channel,
                username,
                unbanned_by,
            } => ServerMessageModel::UserUnbanned {
                meta: *meta,
                channel: channel@,
                username: username@,
                unbanned_by: unbanned_by@,
            },
            ServerMessage::UserKicked {
                meta,
                channel,
                user_id,
                username,
                kicked_by,
                reason,
            } => ServerMessageModel::UserKicked {
                meta: *meta,
                channel: channel@,
                user_id: *user_id,
                username: username@,
                kicked_by: kicked_by@,
                reason: reason.deep_view(),
            },
            ServerMessage::AdminList { meta, channel, admins } => ServerMessageModel::AdminList {
                meta: *meta,
                channel: channel@,
                admins: admins.deep_view(),
            },
            ServerMessage::BanList { meta, channel, bans } => ServerMessageModel::BanList {
                meta: *meta,
                channel: channel@,
                bans: bans.deep_view(),
            },
            ServerMessage::LogList { meta, channel, logs } => ServerMessageModel::LogList {
                meta: *meta,
                channel: channel@,
                logs: logs.deep_view(),
            },
            ServerMessage::ChannelTypeChanged {
                meta,
                channel,
                new_type,
                changed_by,
            } => ServerMessageModel::ChannelTypeChanged {
                meta: *meta,
                channel: channel@,
                new_type: *new_type,
                changed_by: changed_by@,
            },
            ServerMessage::ChannelDeleted {
                meta,
                channel,
                deleted_by,
            } => ServerMessageModel::ChannelDeleted {
                meta: *meta,
                channel: channel@,
                deleted_by: deleted_by@,
            },
            ServerMessage::AdminError { meta, reason } => ServerMessageModel::AdminError {
                meta: *meta,
                reason: reason@,
            },
        }
    }
}

impl DeepView for ServerMessage {
    type V = ServerMessageModel;

    open spec fn deep_view(&self) -> ServerMessageModel {
        self@
    }
}

impl Clone for ServerMessage {
    fn clone(&self) -> (copy: Self)
        ensures
            copy@ == self@,
    {
        match self {
            ServerMessage::AuthChallenge { meta, message } => {
                let message_copy = message.clone();
                ServerMessage::AuthChallenge {
                    meta: *meta,
                    message: message_copy,
                }
            },
            ServerMessage::AuthSuccess { meta, user, generated_password } => {
                let user_copy = user.clone();
                let generated_password_copy = generated_password.clone();
                assert(generated_password_copy.deep_view() =~= generated_password.deep_view());
                ServerMessage::AuthSuccess {
                    meta: *meta,
                    user: user_copy,
                    generated_password: generated_password_copy,
                }
            },
            ServerMessage::AuthFailure { meta, reason } => {
                let reason_copy = reason.clone();
                ServerMessage::AuthFailure {
                    meta: *meta,
                    reason: reason_copy,
                }
            },
            ServerMessage::EcdhAck { meta, public_key } => {
                let public_key_copy = public_key.clone();
                assert(public_key_copy.deep_view() =~= public_key.deep_view());
                ServerMessage::EcdhAck {
                    meta: *meta,
                    public_key: public_key_copy,
                }
            },
            ServerMessage::ChannelList { meta, channels } => {
                let channels_copy = channels.clone();
                assert(channels_copy.deep_view() =~= channels.deep_view());
                ServerMessage::ChannelList {
                    meta: *meta,
                    channels: channels_copy,
                }
            },
            ServerMessage::JoinSuccess { meta, channel } => {
                let channel_copy = channel.clone();
                ServerMessage::JoinSuccess {
                    meta: *meta,
                    channel: channel_copy,
                }
            },
            ServerMessage::JoinFailure { meta, channel, reason } => {
                let channel_copy = channel.clone();
                let reason_copy = reason.clone();
                ServerMessage::JoinFailure {
                    meta: *meta,
                    channel: channel_copy,
                    reason: reason_copy,
                }
            },
            ServerMessage::MessageReceived { meta, channel, message } => {
                let channel_copy = channel.clone();
                let message_copy = message.clone();
                ServerMessage::MessageReceived {
                    meta: *meta,
                    channel: channel_copy,
                    message: message_copy,
                }
            },
            ServerMessage::HistoryChunk { meta, channel, messages } => {
                let channel_copy = channel.clone();
                let messages_copy = messages.clone();
                assert(messages_copy.deep_view() =~= messages.deep_view());
                ServerMessage::HistoryChunk {
                    meta: *meta,
                    channel: channel_copy,
                    messages: messages_copy,
                }
            },
            ServerMessage::UserJoined { meta, channel, user } => {
                let channel_copy = channel.clone();
                let user_copy = user.clone();
                ServerMessage::UserJoined {
                    meta: *meta,
                    channel: channel_copy,
                    user: user_copy,
                }
            },
            ServerMessage::UserLeft { meta, channel, user } => {
                let channel_copy = channel.clone();
                let user_copy = user.clone();
                ServerMessage::UserLeft {
                    meta: *meta,
                    channel: channel_copy,
                    user: user_copy,
                }
            },
            ServerMessage::SystemMessage { meta, text } => {
                let text_copy = text.clone();
                ServerMessage::SystemMessage {
                    meta: *meta,
                    text: text_copy,
                }
            },
            ServerMessage::ProtocolError { meta, text } => {
                let text_copy = text.clone();
                ServerMessage::ProtocolError {
                    meta: *meta,
                    text: text_copy,
                }
            },
            ServerMessage::MessageDeleted { meta, channel, message_id, deleted_by } => {
                let channel_copy = channel.clone();
                let deleted_by_copy = deleted_by.clone();
                ServerMessage::MessageDeleted {
                    meta: *meta,
                    channel: channel_copy,
                    message_id: *message_id,
                    deleted_by: deleted_by_copy,
                }
            },
            ServerMessage::UserPromoted { meta, channel, user_id, username, new_role, promoted_by } => {
                let channel_copy = channel.clone();
                let username_copy = username.clone();
                let promoted_by_copy = promoted_by.clone();
                ServerMessage::UserPromoted {
                    meta: *meta,
                    channel: channel_copy,
                    user_id: *user_id,
                    username: username_copy,
                    new_role: *new_role,
                    promoted_by: promoted_by_copy,
                }
            },
            ServerMessage::UserDemoted { meta, channel, user_id, username, demoted_by } => {
                let channel_copy = channel.clone();
                let username_copy = username.clone();
                let demoted_by_copy = demoted_by.clone();
                ServerMessage::UserDemoted {
                    meta: *meta,
                    channel: channel_copy,
                    user_id: *user_id,
                    username: username_copy,
                    demoted_by: demoted_by_copy,
                }
            },
            ServerMessage::UserBanned { meta, channel, user_id, username, banned_until, banned_by, reason } => {
                let channel_copy = channel.clone();
                let username_copy = username.clone();
                let banned_by_copy = banned_by.clone();
                let reason_copy = reason.clone();
                assert(reason_copy.deep_view() =~= reason.deep_view());
                ServerMessage::UserBanned {
                    meta: *meta,
                    channel: channel_copy,
                    user_id: *user_id,
                    username: username_copy,
                    banned_until: *banned_until,
                    banned_by: banned_by_copy,
                    reason: reason_copy,
                }
            },
            ServerMessage::UserUnbanned { meta, channel, username, unbanned_by } => {
                let channel_copy = channel.clone();
                let username_copy = username.clone();
                let unbanned_by_copy = unbanned_by.clone();
                ServerMessage::UserUnbanned {
                    meta: *meta,
                    channel: channel_copy,
                    username: username_copy,
                    unbanned_by: unbanned_by_copy,
                }
            },
            ServerMessage::UserKicked { meta, channel, user_id, username, kicked_by, reason } => {
                let channel_copy = channel.clone();
                let username_copy = username.clone();
                let kicked_by_copy = kicked_by.clone();
                let reason_copy = reason.clone();
                assert(reason_copy.deep_view() =~= reason.deep_view());
                ServerMessage::UserKicked {
                    meta: *meta,
                    channel: channel_copy,
                    user_id: *user_id,
                    username: username_copy,
                    kicked_by: kicked_by_copy,
                    reason: reason_copy,
                }
            },
            ServerMessage::AdminList { meta, channel, admins } => {
                let channel_copy = channel.clone();
                let admins_copy = admins.clone();
                assert(admins_copy.deep_view() =~= admins.deep_view());
                ServerMessage::AdminList {
                    meta: *meta,
                    channel: channel_copy,
                    admins: admins_copy,
                }
            },
            ServerMessage::BanList { meta, channel, bans } => {
                let channel_copy = channel.clone();
                let bans_copy = bans.clone();
                assert(bans_copy.deep_view() =~= bans.deep_view());
                ServerMessage::BanList {
                    meta: *meta,
                    channel: channel_copy,
                    bans: bans_copy,
                }
            },
            ServerMessage::LogList { meta, channel, logs } => {
                let channel_copy = channel.clone();
                let logs_copy = logs.clone();
                assert(logs_copy.deep_view() =~= logs.deep_view());
                ServerMessage::LogList {
                    meta: *meta,
                    channel: channel_copy,
                    logs: logs_copy,
                }
            },
            ServerMessage::ChannelTypeChanged { meta, channel, new_type, changed_by } => {
                let channel_copy = channel.clone();
                let changed_by_copy = changed_by.clone();
                ServerMessage::ChannelTypeChanged {
                    meta: *meta,
                    channel: channel_copy,
                    new_type: *new_type,
                    changed_by: changed_by_copy,
                }
            },
            ServerMessage::ChannelDeleted { meta, channel, deleted_by } => {
                let channel_copy = channel.clone();
                let deleted_by_copy = deleted_by.clone();
                ServerMessage::ChannelDeleted {
                    meta: *meta,
                    channel: channel_copy,
                    deleted_by: deleted_by_copy,
                }
            },
            ServerMessage::AdminError { meta, reason } => {
                let reason_copy = reason.clone();
                ServerMessage::AdminError {
                    meta: *meta,
                    reason: reason_copy,
                }
            },
        }
    }
}

} // verus!
