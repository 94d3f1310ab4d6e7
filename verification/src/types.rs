use vstd::prelude::*;

verus! {

/// A credit entry: proof that its holder gave feedback, recorded as the
/// Unix timestamp (UTC seconds) of the last accepted feedback reply.
/// The existence of an entry for a (user, guild) pair is the credit.
#[derive(Clone, Copy, PartialEq, Eq, Structural, Debug)]
pub struct FbEntry {
    pub last_reply: i64,
}

/// Timestamp of a user's last promotional activity (Unix UTC seconds).
#[derive(Clone, Copy, PartialEq, Eq, Structural, Debug)]
pub struct PromoEntry {
    pub last_activity: i64,
}

/// A feedback request that has not yet received a qualifying reply:
/// the requesting user and the request message, by identifier.
#[derive(Clone, Copy, PartialEq, Eq, Structural, Debug)]
pub struct OpenMessage {
    pub user: u64,
    pub msg: u64,
}

impl OpenMessage {
    /// The open-request entry of a request message: its author and its
    /// message identifier.
    pub fn new(msg: &MessageInfo) -> (r: OpenMessage)
        ensures
            r.user == msg.author,
            r.msg == msg.id,
    {
        OpenMessage { user: msg.author, msg: msg.id }
    }
}

/// A (guild, channel) pair enrolled in the credit economy.
#[derive(Clone, Copy, PartialEq, Eq, Structural, Debug)]
pub struct FeedbackChannel {
    pub guild: u64,
    pub channel: u64,
}

impl FeedbackChannel {
    pub fn new(guild: u64, channel: u64) -> (r: FeedbackChannel)
        ensures
            r.guild == guild,
            r.channel == channel,
    {
        FeedbackChannel { guild, channel }
    }
}

/// A chat message, reduced to the plain values the core reads: who wrote
/// it, where, its text, its attachments, and - for replies - the message
/// it answers, in the same reduced shape.
pub struct MessageInfo {
    pub author: u64,
    pub id: u64,
    pub guild: Option<u64>,
    pub channel: u64,
    pub content: String,
    pub attachment_urls: Vec<String>,
    pub is_inline_reply: bool,
    pub referenced: Option<Box<MessageInfo>>,
}

/// The immutable configuration snapshot the core consults.
pub struct Config {
    pub client_id: u64,
    pub channels: Vec<FeedbackChannel>,
    pub min_msg_len: usize,
    pub permission_timeout_days: u64,
}

/// A ledger operation that could not complete.
#[derive(Clone, Copy, PartialEq, Eq, Structural, Debug)]
pub enum StoreError {
    /// An open-request entry that should have been present was absent:
    /// a broken invariant upstream (double processing or a missing add).
    NotFound,
    /// The underlying store failed to persist the mutation.
    Persist,
}

} // verus!
