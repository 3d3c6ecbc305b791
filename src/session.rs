//! The session controller: the state that the interface shows, and how keys
//! and inbound messages change it.
use vstd::prelude::*;

use crate::codec::DecodeError;
use crate::feed::WorkerError;
use crate::message::{strings_view, MessageType};
use crate::text::{has_prefix, push_char};

verus! {

/// A key press, as the interface loop hands it over.
#[derive(Clone, Copy, Debug, PartialEq, Eq, Structural)]
pub enum Key {
    Esc,
    Enter,
    Backspace,
    Char(char),
    /// Any other key: it changes nothing.
    Other,
}

/// How a feed entry is styled.
#[derive(Clone, Copy, Debug, PartialEq, Eq, Structural)]
pub enum FeedKind {
    /// Someone joined the channel.
    Welcome,
    /// A chat utterance.
    Chat,
    /// Someone left the channel.
    Goodbye,
}

/// One line of the feed.
#[derive(Clone, Debug, PartialEq, Eq)]
pub struct FeedEntry {
    pub text: String,
    pub kind: FeedKind,
}

/// What the interface shows: the feed, the members and channels, the line
/// being typed, and a notice once a worker has ended with an error.
#[derive(Clone, Debug, PartialEq, Eq)]
pub struct UiState {
    pub feed: Vec<FeedEntry>,
    pub users: Vec<String>,
    pub channels: Vec<String>,
    pub input: String,
    pub notice: Option<String>,
}

/// One of the two transport workers.
#[derive(Clone, Copy, Debug, PartialEq, Eq, Structural)]
pub enum Worker {
    Control,
    Feed,
}

pub open spec fn worker_label(w: Worker) -> Seq<char> {
    match w {
        Worker::Control => "control channel stopped"@,
        Worker::Feed => "feed stopped"@,
    }
}

pub open spec fn error_text(e: WorkerError) -> Seq<char> {
    match e {
        WorkerError::Decode(DecodeError::MalformedPayload) => "malformed payload"@,
        WorkerError::Decode(DecodeError::SchemaMismatch) => "payload does not match the schema"@,
        WorkerError::Transport => "transport failed"@,
    }
}

/// The notice shown once worker `w` has ended with error `e`.
pub open spec fn failure_notice(w: Worker, e: WorkerError) -> Seq<char> {
    worker_label(w) + ": "@ + error_text(e)
}

/// The line that reports a join.
pub open spec fn joined_line(name: Seq<char>) -> Seq<char> {
    name + " joined the channel"@
}

/// The line that reports a departure.
pub open spec fn left_line(name: Seq<char>) -> Seq<char> {
    name + " left the channel"@
}

/// The line that shows a chat utterance.
pub open spec fn chat_line(name: Seq<char>, content: Seq<char>) -> Seq<char> {
    name + " -> "@ + content
}

/// The command that switches to another channel.
pub open spec fn switch_prefix() -> Seq<char> {
    "/cc "@
}

/// The channel that a typed line asks to switch to, if it is a switch
/// command.
pub open spec fn switch_target(input: Seq<char>) -> Option<Seq<char>> {
    if switch_prefix().len() <= input.len() && input.take(switch_prefix().len() as int)
        == switch_prefix() {
        Some(input.skip(switch_prefix().len() as int))
    } else {
        None
    }
}

/// `after` is `before` with the feed message `m` applied: joins, departures
/// and chat append one styled line and keep the rest; member and channel
/// lists replace the current ones, last one wins. The typed line and the
/// notice stay.
pub open spec fn feed_applied(before: UiState, after: UiState, m: MessageType) -> bool {
    &&& after.input == before.input
    &&& after.notice == before.notice
    &&& match m {
        MessageType::Hello { name, .. } => {
            &&& after.feed@ == before.feed@.push(after.feed@.last())
            &&& after.feed@.last().text@ == joined_line(name@)
            &&& after.feed@.last().kind == FeedKind::Welcome
            &&& after.users == before.users
            &&& after.channels == before.channels
        },
        MessageType::Goodbye { name, .. } => {
            &&& after.feed@ == before.feed@.push(after.feed@.last())
            &&& after.feed@.last().text@ == left_line(name@)
            &&& after.feed@.last().kind == FeedKind::Goodbye
            &&& after.users == before.users
            &&& after.channels == before.channels
        },
        MessageType::Message { name, content, .. } => {
            &&& after.feed@ == before.feed@.push(after.feed@.last())
            &&& after.feed@.last().text@ == chat_line(name@, content@)
            &&& after.feed@.last().kind == FeedKind::Chat
            &&& after.users == before.users
            &&& after.channels == before.channels
        },
        MessageType::ResponseMembers { members } => {
            &&& after.feed == before.feed
            &&& after.users == members
            &&& after.channels == before.channels
        },
        MessageType::ResponseChannels { channels } => {
            &&& after.feed == before.feed
            &&& after.users == before.users
            &&& after.channels == channels
        },
    }
}

impl UiState {
    /// The state at the start of a session: the user as the only member, the
    /// session's channel as the only channel, nothing in the feed or typed,
    /// no notice.
    pub fn new(name: &String, channel: &String) -> (r: UiState)
        ensures
            r.feed@.len() == 0,
            strings_view(r.users@) == seq![name@],
            strings_view(r.channels@) == seq![channel@],
            r.input@.len() == 0,
            r.notice is None,
    {
        let mut users: Vec<String> = Vec::new();
        users.push(name.clone());
        let mut channels: Vec<String> = Vec::new();
        channels.push(channel.clone());
        let r = UiState { feed: Vec::new(), users, channels, input: String::new(), notice: None };
        assert(strings_view(r.users@) =~= seq![name@]);
        assert(strings_view(r.channels@) =~= seq![channel@]);
        r
    }

    /// Applies a message from the feed: joins, departures and chat append
    /// a styled line; member and channel lists replace the current ones.
    pub fn apply_feed(&mut self, m: MessageType)
        ensures
            feed_applied(*old(self), *final(self), m),
    {
        match m {
            MessageType::Hello { name, .. } => {
                let mut text = name;
                text.append(" joined the channel");
                self.feed.push(FeedEntry { text, kind: FeedKind::Welcome });
            },
            MessageType::Goodbye { name, .. } => {
                let mut text = name;
                text.append(" left the channel");
                self.feed.push(FeedEntry { text, kind: FeedKind::Goodbye });
            },
            MessageType::Message { name, content, .. } => {
                let mut text = name;
                text.append(" -> ");
                text.append(content.as_str());
                self.feed.push(FeedEntry { text, kind: FeedKind::Chat });
            },
            MessageType::ResponseMembers { members } => {
                self.users = members;
            },
            MessageType::ResponseChannels { channels } => {
                self.channels = channels;
            },
        }
        assert(self.feed@ =~= old(self).feed@.push(self.feed@.last()) || self.feed == old(
            self,
        ).feed);
    }

    /// The feed as it is drawn: the newest line first.
    pub fn feed_newest_first(&self) -> (r: Vec<FeedEntry>)
        ensures
            r@.len() == self.feed@.len(),
            forall|i: int|
                0 <= i < r@.len() ==> r@[i].text@ == self.feed@[self.feed@.len() - 1 - i].text@
                    && r@[i].kind == self.feed@[self.feed@.len() - 1 - i].kind,
    {
        let mut r: Vec<FeedEntry> = Vec::new();
        let n = self.feed.len();
        let mut k: usize = n;
        while k > 0
            invariant
                n == self.feed@.len(),
                k <= n,
                r@.len() == n - k,
                forall|i: int|
                    0 <= i < r@.len() ==> r@[i].text@ == self.feed@[n - 1 - i].text@ && r@[i].kind
                        == self.feed@[n - 1 - i].kind,
            decreases k,
        {
            k = k - 1;
            let e = &self.feed[k];
            r.push(FeedEntry { text: e.text.clone(), kind: e.kind });
        }
        r
    }
}

/// Where a session stands, from the interface's side.
#[derive(Clone, Copy, Debug, PartialEq, Eq, Structural)]
pub enum SessionPhase {
    /// The session takes keys and shows the feed.
    Joined,
    /// The outbound queue is closed; the control worker says goodbye.
    Disconnecting,
    /// The control worker has finished.
    Terminated,
}

/// What the interface loop does after a key.
#[derive(Debug, PartialEq, Eq)]
pub enum SessionAction {
    /// Nothing beyond drawing again.
    Idle,
    /// Queue this message for the control worker.
    Send(MessageType),
    /// Close the outbound queue and wait for the control worker to finish.
    Disconnect,
}

/// One session: a user in a channel on a server. Its identity does not
/// change; switching channels ends it and starts another.
#[derive(Debug)]
pub struct Session {
    pub name: String,
    pub channel: String,
    pub server: String,
    pub phase: SessionPhase,
    pub ui: UiState,
    /// The channel asked for by a switch command, once one was entered.
    pub next_channel: Option<String>,
}

impl Session {
    pub fn new(name: String, channel: String, server: String) -> (r: Session)
        ensures
            r.name == name,
            r.channel == channel,
            r.server == server,
            r.phase == SessionPhase::Joined,
            r.next_channel is None,
            r.ui.feed@.len() == 0,
            strings_view(r.ui.users@) == seq![name@],
            strings_view(r.ui.channels@) == seq![channel@],
            r.ui.input@.len() == 0,
            r.ui.notice is None,
    {
        let ui = UiState::new(&name, &channel);
        Session { name, channel, server, phase: SessionPhase::Joined, ui, next_channel: None }
    }

    /// Handles a key while joined. Enter sends the typed line as a chat
    /// message, unless the line is a switch command: then the session ends
    /// and remembers the new channel, and nothing is sent. Esc ends the
    /// session. Backspace drops the last typed character; a character is
    /// appended. After the session has ended, keys change nothing.
    pub fn on_key(&mut self, key: Key) -> (r: SessionAction)
        ensures
            final(self).name == old(self).name,
            final(self).channel == old(self).channel,
            final(self).server == old(self).server,
            final(self).ui.feed == old(self).ui.feed,
            final(self).ui.users == old(self).ui.users,
            final(self).ui.channels == old(self).ui.channels,
            final(self).ui.notice == old(self).ui.notice,
            old(self).phase != SessionPhase::Joined ==> r == SessionAction::Idle && *final(self)
                == *old(self),
            old(self).phase == SessionPhase::Joined ==> match key {
                Key::Esc => {
                    &&& r == SessionAction::Disconnect
                    &&& final(self).phase == SessionPhase::Disconnecting
                    &&& final(self).next_channel is None
                    &&& final(self).ui.input == old(self).ui.input
                },
                Key::Enter => match switch_target(old(self).ui.input@) {
                    Some(target) => {
                        &&& r == SessionAction::Disconnect
                        &&& final(self).phase == SessionPhase::Disconnecting
                        &&& final(self).next_channel is Some
                        &&& final(self).next_channel->0@ == target
                        &&& final(self).ui.input == old(self).ui.input
                    },
                    None => {
                        &&& r is Send
                        &&& (r->0)@ == (crate::message::MessageModel::Message {
                            name: old(self).name@,
                            channel: old(self).channel@,
                            content: old(self).ui.input@,
                        })
                        &&& final(self).phase == SessionPhase::Joined
                        &&& final(self).next_channel == old(self).next_channel
                        &&& final(self).ui.input@.len() == 0
                    },
                },
                Key::Backspace => {
                    &&& r == SessionAction::Idle
                    &&& final(self).phase == SessionPhase::Joined
                    &&& final(self).next_channel == old(self).next_channel
                    &&& final(self).ui.input@ == if old(self).ui.input@.len() == 0 {
                        old(self).ui.input@
                    } else {
                        old(self).ui.input@.drop_last()
                    }
                },
                Key::Char(c) => {
                    &&& r == SessionAction::Idle
                    &&& final(self).phase == SessionPhase::Joined
                    &&& final(self).next_channel == old(self).next_channel
                    &&& final(self).ui.input@ == old(self).ui.input@.push(c)
                },
                Key::Other => {
                    &&& r == SessionAction::Idle
                    &&& *final(self) == *old(self)
                },
            },
    {
        if self.phase != SessionPhase::Joined {
            return SessionAction::Idle;
        }
        match key {
            Key::Esc => {
                self.phase = SessionPhase::Disconnecting;
                self.next_channel = None;
                SessionAction::Disconnect
            },
            Key::Enter => {
                proof {
                    reveal_strlit("/cc ");
                }
                if has_prefix(self.ui.input.as_str(), "/cc ") {
                    let n = self.ui.input.as_str().unicode_len();
                    let target = self.ui.input.as_str().substring_char(4, n);
                    self.next_channel = Some(String::from_str(target));
                    self.phase = SessionPhase::Disconnecting;
                    SessionAction::Disconnect
                } else {
                    let content = self.ui.input.clone();
                    self.ui.input = String::new();
                    SessionAction::Send(
                        MessageType::Message {
                            name: self.name.clone(),
                            channel: self.channel.clone(),
                            content,
                        },
                    )
                }
            },
            Key::Backspace => {
                let n = self.ui.input.as_str().unicode_len();
                if n > 0 {
                    let kept = String::from_str(self.ui.input.as_str().substring_char(0, n - 1));
                    self.ui.input = kept;
                }
                SessionAction::Idle
            },
            Key::Char(c) => {
                push_char(&mut self.ui.input, c);
                SessionAction::Idle
            },
            Key::Other => SessionAction::Idle,
        }
    }

    /// Applies a message from the feed to what the interface shows.
    pub fn on_feed(&mut self, m: MessageType)
        ensures
            final(self).name == old(self).name,
            final(self).channel == old(self).channel,
            final(self).server == old(self).server,
            final(self).phase == old(self).phase,
            final(self).next_channel == old(self).next_channel,
            feed_applied(old(self).ui, final(self).ui, m),
    {
        self.ui.apply_feed(m);
    }

    /// A worker has ended with an error: the interface says so, and the rest
    /// stays as it is.
    pub fn on_worker_failed(&mut self, worker: Worker, error: WorkerError)
        ensures
            final(self).ui.notice is Some,
            final(self).ui.notice->0@ == failure_notice(worker, error),
            final(self).ui.feed == old(self).ui.feed,
            final(self).ui.users == old(self).ui.users,
            final(self).ui.channels == old(self).ui.channels,
            final(self).ui.input == old(self).ui.input,
            final(self).name == old(self).name,
            final(self).channel == old(self).channel,
            final(self).server == old(self).server,
            final(self).phase == old(self).phase,
            final(self).next_channel == old(self).next_channel,
    {
        let mut text = match worker {
            Worker::Control => String::from_str("control channel stopped"),
            Worker::Feed => String::from_str("feed stopped"),
        };
        text.append(": ");
        let detail = match error {
            WorkerError::Decode(DecodeError::MalformedPayload) => "malformed payload",
            WorkerError::Decode(DecodeError::SchemaMismatch) => "payload does not match the schema",
            WorkerError::Transport => "transport failed",
        };
        text.append(detail);
        self.ui.notice = Some(text);
    }

    /// The control worker has said goodbye and finished.
    pub fn on_control_finished(&mut self)
        ensures
            final(self).phase == if old(self).phase == SessionPhase::Disconnecting {
                SessionPhase::Terminated
            } else {
                old(self).phase
            },
            final(self).name == old(self).name,
            final(self).channel == old(self).channel,
            final(self).server == old(self).server,
            final(self).ui == old(self).ui,
            final(self).next_channel == old(self).next_channel,
    {
        if self.phase == SessionPhase::Disconnecting {
            self.phase = SessionPhase::Terminated;
        }
    }
}

} // verus!
