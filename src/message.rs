//! The messages exchanged with the chat server, over both transports.
use vstd::prelude::*;

verus! {

/// A message of the chat protocol: a closed set of tagged variants.
#[derive(Clone, Debug, PartialEq, Eq)]
pub enum MessageType {
    /// Sent once when a client joins a channel.
    Hello { name: String, channel: String },
    /// A chat utterance, sent by one client to the others of its channel.
    Message { name: String, channel: String, content: String },
    /// The members of the current channel, in the order the server gave.
    ResponseMembers { members: Vec<String> },
    /// The channels on the server, in the order the server gave.
    ResponseChannels { channels: Vec<String> },
    /// Sent once when a client leaves a channel.
    Goodbye { name: String, channel: String },
}

/// The mathematical value of a `MessageType`: every string as its characters.
pub ghost enum MessageModel {
    Hello { name: Seq<char>, channel: Seq<char> },
    Message { name: Seq<char>, channel: Seq<char>, content: Seq<char> },
    ResponseMembers { members: Seq<Seq<char>> },
    ResponseChannels { channels: Seq<Seq<char>> },
    Goodbye { name: Seq<char>, channel: Seq<char> },
}

/// The characters of each string of a list, in order.
pub open spec fn strings_view(v: Seq<String>) -> Seq<Seq<char>> {
    v.map_values(|s: String| s@)
}

impl View for MessageType {
    type V = MessageModel;

    open spec fn view(&self) -> MessageModel {
        match self {
            MessageType::Hello { name, channel } => MessageModel::Hello {
                name: name@,
                channel: channel@,
            },
            MessageType::Message { name, channel, content } => MessageModel::Message {
                name: name@,
                channel: channel@,
                content: content@,
            },
            MessageType::ResponseMembers { members } => MessageModel::ResponseMembers {
                members: strings_view(members@),
            },
            MessageType::ResponseChannels { channels } => MessageModel::ResponseChannels {
                channels: strings_view(channels@),
            },
            MessageType::Goodbye { name, channel } => MessageModel::Goodbye {
                name: name@,
                channel: channel@,
            },
        }
    }
}

} // verus!
