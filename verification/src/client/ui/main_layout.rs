//! The main screen: what a line of input means, what a message from the
//! relay changes, and how the screen is divided.

use vstd::prelude::*;
use vstd::string::{StrSliceExecFns, StringExecFns};
use crate::client::state::{ClientModel, ClientState};
use crate::client::ui::ToastKind;
use crate::protocol::messages::{
    ChatMessageModel,
    ClientMessage,
    ClientMessageModel,
    MessageMeta,
    ServerMessage,
    ServerMessageModel,
};
use crate::text::{byte_len, joined, owned, push_one, split_words, str_eq, words};
use crate::time::Timestamp;

verus! {

/// The pane that has the focus.
#[derive(Clone, Copy, Debug, PartialEq, Eq, Structural)]
pub enum Focus {
    Channels,
    Input,
}

/// What the front end is to do after the library looked at an input.
#[derive(Debug)]
pub enum Action {
    Nothing,
    /// Send the message to the relay.
    Send(ClientMessage),
    /// Put up a toast.
    Toast(ToastKind, String),
}

/// The model of an [`Action`].
pub enum ActionModel {
    Nothing,
    Send(ClientMessageModel),
    Toast(ToastKind, Seq<char>),
}

impl View for Action {
    type V = ActionModel;

    open spec fn view(&self) -> ActionModel {
        match self {
            Action::Nothing => ActionModel::Nothing,
            Action::Send(message) => ActionModel::Send(message@),
            Action::Toast(kind, text) => ActionModel::Toast(*kind, text@),
        }
    }
}

/// What a command asks for.
pub enum CommandModel {
    Quit,
    Help,
    List,
    Join { name: Seq<char>, password: Option<Seq<char>> },
    Unknown,
}

/// The command that the words `w` spell.
pub open spec fn command_of(w: Seq<Seq<char>>) -> CommandModel {
    if w.len() == 1 && (w[0] == "/quit"@ || w[0] == "/exit"@) {
        CommandModel::Quit
    } else if w.len() == 1 && w[0] == "/help"@ {
        CommandModel::Help
    } else if w.len() == 1 && w[0] == "/list"@ {
        CommandModel::List
    } else if w.len() == 2 && (w[0] == "/join"@ || w[0] == "/create"@) {
        CommandModel::Join { name: w[1], password: None }
    } else if w.len() == 3 && (w[0] == "/join"@ || w[0] == "/create"@) {
        CommandModel::Join { name: w[1], password: Some(w[2]) }
    } else {
        CommandModel::Unknown
    }
}

/// What the command line `line` leads to at `now`.
pub open spec fn command_action(
    state: ClientModel,
    line: Seq<char>,
    now: Timestamp,
) -> ActionModel {
    let meta = MessageMeta { id: state.next_msg_id, timestamp: now };
    match command_of(words(line)) {
        CommandModel::Quit => ActionModel::Send(ClientMessageModel::Disconnect { meta }),
        CommandModel::Help => ActionModel::Toast(
            ToastKind::Info,
            "Commands: /list, /join <name> [password], /create <name> [password], /quit"@,
        ),
        CommandModel::List => ActionModel::Send(ClientMessageModel::ListChannels { meta }),
        CommandModel::Join { name, password } => ActionModel::Send(
            ClientMessageModel::JoinChannel { meta, name, password },
        ),
        CommandModel::Unknown => ActionModel::Toast(
            ToastKind::Error,
            "Unknown command. Try /help"@,
        ),
    }
}

/// What the input line `line` leads to at `now`: a command where it begins
/// with a slash, else a message to the current channel.
pub open spec fn line_action(state: ClientModel, line: Seq<char>, now: Timestamp) -> ActionModel {
    if line.len() > 0 && line[0] == '/' {
        command_action(state, line, now)
    } else {
        match state.current_channel {
            None => ActionModel::Toast(ToastKind::Error, "Join a channel first (/join general)"@),
            Some(channel) => ActionModel::Send(
                ClientMessageModel::SendMessage {
                    meta: MessageMeta { id: state.next_msg_id, timestamp: now },
                    channel,
                    content: vstd::utf8::encode_utf8(line),
                    metadata: Seq::empty(),
                },
            ),
        }
    }
}

/// The state after an action: a message that is sent uses up a number.
pub open spec fn state_after(state: ClientModel, action: ActionModel) -> ClientModel {
    match action {
        ActionModel::Send(_) => ClientModel {
            next_msg_id: ClientModel::number_after(state.next_msg_id),
            ..state
        },
        _ => state,
    }
}

/// Carries out a command line.
pub fn handle_command(state: &mut ClientState, line: &str, now: Timestamp) -> (action: Action)
    ensures
        action@ == command_action(old(state)@, line@, now),
        final(state)@ == state_after(old(state)@, action@),
        final(state).crypto == old(state).crypto,
{
    let parts = split_words(line);
    let ghost w = words(line@);
    assert(forall|i: int| 0 <= i < parts.len() ==> (#[trigger] parts[i])@ == w[i]);
    let n = parts.len();
    if n == 1 && (str_eq(parts[0].as_str(), "/quit") || str_eq(parts[0].as_str(), "/exit")) {
        let meta = state.next_meta_at(now);
        return Action::Send(ClientMessage::Disconnect { meta });
    }
    if n == 1 && str_eq(parts[0].as_str(), "/help") {
        return Action::Toast(
            ToastKind::Info,
            owned("Commands: /list, /join <name> [password], /create <name> [password], /quit"),
        );
    }
    if n == 1 && str_eq(parts[0].as_str(), "/list") {
        let meta = state.next_meta_at(now);
        return Action::Send(ClientMessage::ListChannels { meta });
    }
    if (n == 2 || n == 3) && (str_eq(parts[0].as_str(), "/join") || str_eq(
        parts[0].as_str(),
        "/create",
    )) {
        let meta = state.next_meta_at(now);
        let password = if n == 3 {
            Some(parts[2].clone())
        } else {
            None
        };
        return Action::Send(ClientMessage::JoinChannel { meta, name: parts[1].clone(), password });
    }
    Action::Toast(ToastKind::Error, owned("Unknown command. Try /help"))
}

/// Carries out a line of input.
pub fn handle_input_line(state: &mut ClientState, line: &str, now: Timestamp) -> (action: Action)
    ensures
        action@ == line_action(old(state)@, line@, now),
        final(state)@ == state_after(old(state)@, action@),
        final(state).crypto == old(state).crypto,
{
    if !line.is_empty() && line.get_char(0) == '/' {
        return handle_command(state, line, now);
    }
    let Some(channel) = state.current_channel.clone() else {
        return Action::Toast(ToastKind::Error, owned("Join a channel first (/join general)"));
    };
    let meta = state.next_meta_at(now);
    let metadata: Vec<(String, String)> = Vec::new();
    assert(metadata.deep_view() =~= Seq::empty());
    Action::Send(
        ClientMessage::SendMessage { meta, channel, content: line.as_bytes_vec(), metadata },
    )
}

/// The toast that a message from the relay calls for.
pub open spec fn toast_for(message: ServerMessageModel) -> Option<(ToastKind, Seq<char>)> {
    match message {
        ServerMessageModel::JoinSuccess { channel, .. } => Some(
            (ToastKind::Info, "Joined #"@ + channel.name),
        ),
        ServerMessageModel::JoinFailure { channel, reason, .. } => Some(
            (ToastKind::Error, "Join #"@ + channel + " failed: "@ + reason),
        ),
        ServerMessageModel::UserJoined { channel, user, .. } => Some(
            (ToastKind::Info, user.username + " joined #"@ + channel),
        ),
        ServerMessageModel::UserLeft { channel, user, .. } => Some(
            (ToastKind::Info, user.username + " left #"@ + channel),
        ),
        ServerMessageModel::SystemMessage { text, .. } => Some((ToastKind::Info, text)),
        ServerMessageModel::ProtocolError { text, .. } => Some((ToastKind::Error, text)),
        _ => None,
    }
}

/// The state after the first `n` of `messages` were kept for `channel`.
pub open spec fn kept_all(
    state: ClientModel,
    channel: Seq<char>,
    messages: Seq<ChatMessageModel>,
    n: nat,
) -> ClientModel
    decreases n,
{
    if n == 0 || n > messages.len() {
        state
    } else {
        kept_all(state, channel, messages, (n - 1) as nat).push_message(channel, messages[n - 1])
    }
}

/// The state after a message from the relay: a channel list replaces the
/// known channels, a successful join sets the current channel, and
/// messages are kept with their channel.
pub open spec fn state_after_message(
    state: ClientModel,
    message: ServerMessageModel,
) -> ClientModel {
    match message {
        ServerMessageModel::ChannelList { channels, .. } => ClientModel { channels, ..state },
        ServerMessageModel::JoinSuccess { channel, .. } => ClientModel {
            current_channel: Some(channel.name),
            ..state
        },
        ServerMessageModel::HistoryChunk { channel, messages, .. } => kept_all(
            state,
            channel,
            messages,
            messages.len(),
        ),
        ServerMessageModel::MessageReceived { channel, message, .. } => state.push_message(
            channel,
            message,
        ),
        _ => state,
    }
}

pub proof fn kept_all_keeps_wf(
    state: ClientModel,
    channel: Seq<char>,
    messages: Seq<ChatMessageModel>,
    n: nat,
)
    requires
        state.wf(),
    ensures
        kept_all(state, channel, messages, n).wf(),
    decreases n,
{
    if n > 0 && n <= messages.len() {
        kept_all_keeps_wf(state, channel, messages, (n - 1) as nat);
        kept_all(state, channel, messages, (n - 1) as nat).push_message_keeps_wf(
            channel,
            messages[n - 1],
        );
    }
}

/// Takes in a message from the relay; returns the toast to put up, if any.
pub fn handle_server_message(state: &mut ClientState, message: ServerMessage) -> (toast: Option<
    (ToastKind, String),
>)
    requires
        old(state).wf(),
    ensures
        final(state).wf(),
        final(state)@ == state_after_message(old(state)@, message@),
        final(state).crypto == old(state).crypto,
        match toast {
            Some((kind, text)) => toast_for(message@) == Some((kind, text@)),
            None => toast_for(message@) is None,
        },
{
    match message {
        ServerMessage::ChannelList { channels, .. } => {
            state.channels = channels;
            None
        },
        ServerMessage::JoinSuccess { channel, .. } => {
            let text = joined("Joined #", channel.name.as_str());
            state.current_channel = Some(channel.name);
            Some((ToastKind::Info, text))
        },
        ServerMessage::JoinFailure { channel, reason, .. } => {
            let mut text = joined("Join #", channel.as_str());
            text.append(" failed: ");
            text.append(reason.as_str());
            Some((ToastKind::Error, text))
        },
        ServerMessage::HistoryChunk { channel, messages, .. } => {
            let mut i: usize = 0;
            while i < messages.len()
                invariant
                    i <= messages.len(),
                    state.wf(),
                    state.crypto == old(state).crypto,
                    state@ == kept_all(old(state)@, channel@, messages.deep_view(), i as nat),
                decreases messages.len() - i,
            {
                assert(messages.deep_view()[i as int] == messages[i as int]@);
                state.push_message(channel.as_str(), messages[i].clone());
                i += 1;
            }
            None
        },
        ServerMessage::MessageReceived { channel, message, .. } => {
            state.push_message(channel.as_str(), message);
            None
        },
        ServerMessage::UserJoined { channel, user, .. } => {
            let mut text = user.username;
            text.append(" joined #");
            text.append(channel.as_str());
            Some((ToastKind::Info, text))
        },
        ServerMessage::UserLeft { channel, user, .. } => {
            let mut text = user.username;
            text.append(" left #");
            text.append(channel.as_str());
            Some((ToastKind::Info, text))
        },
        ServerMessage::SystemMessage { text, .. } => Some((ToastKind::Info, text)),
        ServerMessage::ProtocolError { text, .. } => Some((ToastKind::Error, text)),
        _ => None,
    }
}

/// `s` cut down to `width` characters where it is longer than `width`
/// bytes.
pub open spec fn truncated(s: Seq<char>, width: nat) -> Seq<char> {
    if byte_len(s) <= width || s.len() <= width {
        s
    } else {
        s.subrange(0, width as int)
    }
}

/// `s` brought to `width` columns: cut down where it is too long, filled
/// up with blanks where it is too short.
pub open spec fn padded_to(s: Seq<char>, width: nat) -> Seq<char> {
    if byte_len(s) >= width {
        truncated(s, width)
    } else {
        s + Seq::new((width - byte_len(s)) as nat, |i: int| ' ')
    }
}

pub fn truncate(s: &str, width: usize) -> (out: String)
    ensures
        out@ == truncated(s@, width as nat),
{
    if s.as_bytes().len() <= width {
        owned(s)
    } else {
        let n = s.unicode_len();
        if n <= width {
            owned(s)
        } else {
            owned(s.substring_char(0, width))
        }
    }
}

pub fn pad(s: &str, width: usize) -> (out: String)
    ensures
        out@ == padded_to(s@, width as nat),
{
    let len = s.as_bytes().len();
    if len >= width {
        truncate(s, width)
    } else {
        let mut out = owned(s);
        let mut i: usize = 0;
        assert(out@ =~= s@ + Seq::new(0, |k: int| ' '));
        while i < width - len
            invariant
                len < width,
                i <= width - len,
                out@ == s@ + Seq::new(i as nat, |k: int| ' '),
            decreases width - len - i,
        {
            push_one(&mut out, ' ');
            assert(out@ =~= s@ + Seq::new((i + 1) as nat, |k: int| ' '));
            i += 1;
        }
        out
    }
}

/// How the columns of the screen are divided.
#[derive(Clone, Copy, Debug, PartialEq, Eq, Structural)]
pub struct Layout {
    pub channels_w: usize,
    pub info_w: usize,
    pub messages_w: usize,
}

/// `a - b`, or zero where `b` is larger.
pub open spec fn minus(a: int, b: int) -> int {
    if a >= b {
        a - b
    } else {
        0
    }
}

/// The smaller of `a` and `b`.
pub open spec fn least(a: int, b: int) -> int {
    if a <= b {
        a
    } else {
        b
    }
}

/// The division of `cols` columns: up to 20 for the channels, up to 22 for
/// the hints, the rest but two for the messages.
pub fn layout(cols: usize) -> (l: Layout)
    ensures
        l.channels_w == least(20, minus(cols as int, 1)),
        l.info_w == least(22, minus(cols as int, l.channels_w + 1)),
        l.messages_w == minus(cols as int, l.channels_w + l.info_w + 2),
{
    let channels_w: usize = if cols >= 21 {
        20
    } else if cols >= 1 {
        cols - 1
    } else {
        0
    };
    let rest: usize = if cols >= channels_w + 1 {
        cols - channels_w - 1
    } else {
        0
    };
    let info_w: usize = if rest >= 22 {
        22
    } else {
        rest
    };
    let messages_w: usize = if cols >= channels_w + info_w + 2 {
        cols - channels_w - info_w - 2
    } else {
        0
    };
    Layout { channels_w, info_w, messages_w }
}

/// The selected channel brought back into the list of `count` channels.
pub fn clamp_selection(selected: usize, count: usize) -> (index: usize)
    ensures
        index == (if count == 0 {
            0
        } else if selected >= count {
            (count - 1) as usize
        } else {
            selected
        }),
{
    if count == 0 {
        0
    } else if selected >= count {
        count - 1
    } else {
        selected
    }
}

/// The selection one up, where the channels have the focus.
pub fn selection_up(selected: usize, focus: Focus) -> (index: usize)
    ensures
        index == (if focus == Focus::Channels && selected > 0 {
            (selected - 1) as usize
        } else {
            selected
        }),
{
    if focus == Focus::Channels && selected > 0 {
        selected - 1
    } else {
        selected
    }
}

/// The selection one down, where the channels have the focus and there is a
/// channel below.
pub fn selection_down(selected: usize, count: usize, focus: Focus) -> (index: usize)
    ensures
        index == (if focus == Focus::Channels && selected + 1 < count {
            (selected + 1) as usize
        } else {
            selected
        }),
{
    if focus == Focus::Channels && selected < usize::MAX && selected + 1 < count {
        selected + 1
    } else {
        selected
    }
}

/// The first of `count` messages that is shown on a screen of `rows` rows:
/// the newest `rows - 6` are.
pub fn first_visible(count: usize, rows: usize) -> (start: usize)
    ensures
        start == minus(count as int, minus(rows as int, 6)),
{
    let max_lines: usize = if rows >= 6 {
        rows - 6
    } else {
        0
    };
    if count >= max_lines {
        count - max_lines
    } else {
        0
    }
}

/// The top line of the screen: who is connected where.
pub fn header(user: Option<&str>, server_addr: &str) -> (s: String)
    ensures
        s@ == "DarkRelay | Connected: "@ + (match user {
            Some(name) => name@,
            None => "<guest>"@,
        }) + " @ "@ + server_addr@,
{
    let mut s = owned("DarkRelay | Connected: ");
    match user {
        Some(name) => s.append(name),
        None => s.append("<guest>"),
    }
    s.append(" @ ");
    s.append(server_addr);
    s
}

/// A channel as it is listed: marked with `#` where it is the current one.
pub fn channel_label(name: &str, current: bool) -> (s: String)
    ensures
        s@ == (if current {
            "# "@
        } else {
            "  "@
        }) + name@,
{
    if current {
        joined("# ", name)
    } else {
        joined("  ", name)
    }
}

/// The heading of the message pane.
pub fn messages_title(current_channel: Option<&str>) -> (s: String)
    ensures
        s@ == " Messages ("@ + (match current_channel {
            Some(name) => name@,
            None => "no-channel"@,
        }) + ") "@,
{
    let mut s = owned(" Messages (");
    match current_channel {
        Some(name) => s.append(name),
        None => s.append("no-channel"),
    }
    s.append(") ");
    s
}

/// One message as it is shown: its time, its author, its text.
pub fn message_line(time: &str, username: &str, content: &str) -> (s: String)
    ensures
        s@ == "["@ + time@ + "] <"@ + username@ + ">: "@ + content@,
{
    let mut s = joined("[", time);
    s.append("] <");
    s.append(username);
    s.append(">: ");
    s.append(content);
    s
}

/// The input line as it is shown: marked where it has the focus.
pub fn input_line(focus: Focus, input: &str) -> (s: String)
    ensures
        s@ == (if focus == Focus::Input {
            "> "@
        } else {
            "  "@
        }) + input@,
{
    if focus == Focus::Input {
        joined("> ", input)
    } else {
        joined("  ", input)
    }
}

} // verus!
