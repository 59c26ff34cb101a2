//! The outbound protocol actions the watcher decides on, and the dispatch
//! outcome of a command. Performing an action (sending it to the server,
//! fetching remote content) is the surrounding program's job; the library
//! only decides which action is due.

use vstd::prelude::*;

verus! {

/// One outgoing protocol action.
#[derive(Debug)]
pub enum OutgoingMessage {
    /// Say something in a channel.
    ChannelMessage { channel: String, content: String },
    /// Say something to one participant.
    PrivateMessage { recipient: String, content: String },
    /// A raw protocol line.
    Raw(String),
    /// Change the bot's own nick.
    Nick(String),
    /// Set a channel's topic.
    Topic { channel: String, topic: String },
    /// Join a channel.
    Join(String),
    /// Leave a channel.
    Part(String),
}

/// What a command line led to: an immediate reply, a request for external
/// content that the surrounding program fetches before building the reply, a
/// local listing, or nothing at all (unknown, unauthorized, or deliberately
/// silent commands).
#[derive(Debug)]
pub enum Dispatch {
    Reply(OutgoingMessage),
    FetchChuck,
    FetchCookie,
    FetchQuote(Option<String>),
    ShowSent,
    Silent,
}

/// The view of an optional string.
pub open spec fn spec_opt_view(o: Option<String>) -> Option<Seq<char>> {
    match o {
        Option::None => Option::None,
        Option::Some(s) => Option::Some(s@),
    }
}

} // verus!
