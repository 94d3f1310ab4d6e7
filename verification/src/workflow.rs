use vstd::prelude::*;
use vstd::string::*;
use crate::classify::{
    is_feedback_reply,
    is_feedback_request,
    spec_is_feedback_reply,
    spec_is_feedback_request,
};
use crate::keys::{credit_key, lemma_key_spaces_disjoint, list_key};
use crate::store::Database;
use crate::types::{Config, FbEntry, FeedbackChannel, MessageInfo, OpenMessage, StoreError};

verus! {

// ---------------------------------------------------------------------
// Credit freshness.
// ---------------------------------------------------------------------

/// Whole days from `last_reply` to `now` (both Unix UTC seconds),
/// truncated toward zero; negative when `last_reply` lies ahead of
/// `now`.
pub open spec fn spec_days_between(last_reply: i64, now: i64) -> int {
    let diff = now - last_reply;
    if diff >= 0 {
        diff / 86400
    } else {
        -((-diff) / 86400)
    }
}

/// A credit authorizes a request while no more whole days than the
/// timeout have passed since its `last_reply` (inclusive).
pub open spec fn spec_credit_fresh(last_reply: i64, now: i64, timeout_days: u64) -> bool {
    spec_days_between(last_reply, now) <= timeout_days
}

pub fn credit_fresh(last_reply: i64, now: i64, timeout_days: u64) -> (r: bool)
    ensures
        r == spec_credit_fresh(last_reply, now, timeout_days),
{
    let diff: i128 = now as i128 - last_reply as i128;
    if diff >= 0 {
        let days: u128 = (diff as u128) / 86400;
        days <= timeout_days as u128
    } else {
        true
    }
}

// ---------------------------------------------------------------------
// The per-event transition handlers.
// ---------------------------------------------------------------------

/// What an inbound feedback request leads to.
#[derive(Clone, Copy, PartialEq, Eq, Structural, Debug)]
pub enum RequestOutcome {
    /// A fresh credit authorized the request: it is now tracked as an
    /// open request, and an affirmative acknowledgement is owed.
    Accepted,
    /// No credit, or a stale one: a discouraging reply is owed and the
    /// offending message is to be deleted.  A stale credit is still
    /// consumed - use it or lose it, no refund.
    Rejected,
}

/// Handles a message classified as a feedback request, posted by
/// `author` as message `msg_id` in `channel`, at time `now`: consumes
/// the (author, guild) credit; a credit taken and still fresh accepts
/// the request and appends it to the channel's open list; no credit, or
/// a stale one, rejects it.
pub fn process_request(
    db: &mut Database,
    channel: &FeedbackChannel,
    author: u64,
    msg_id: u64,
    now: i64,
    timeout_days: u64,
) -> (r: Result<RequestOutcome, StoreError>)
    requires
        old(db).open_lists().dom().contains(list_key(*channel)),
    ensures
        ({
            let ck = credit_key(author, channel.guild);
            let lk = list_key(*channel);
            let had = old(db).credits().dom().contains(ck);
            let fresh = had && spec_credit_fresh(old(db).credits()[ck], now, timeout_days);
            &&& (r is Ok ==> (r == Ok::<RequestOutcome, StoreError>(RequestOutcome::Accepted)
                <==> fresh))
            &&& (r == Ok::<RequestOutcome, StoreError>(RequestOutcome::Accepted) ==> final(db).credits() == old(db).credits().remove(ck) && final(db).open_lists() == old(db).open_lists().remove(ck).insert(lk, old(db).open_lists()[lk].push((author, msg_id))))
            &&& (r == Ok::<RequestOutcome, StoreError>(RequestOutcome::Rejected) && had ==> final(db).credits() == old(db).credits().remove(ck) && final(db).open_lists() == old(db).open_lists().remove(ck))
            &&& (r == Ok::<RequestOutcome, StoreError>(RequestOutcome::Rejected) && !had ==> *final(db) == *old(db))
            &&& (!had ==> r == Ok::<RequestOutcome, StoreError>(RequestOutcome::Rejected))
            &&& (r matches Err(e) ==> e == StoreError::Persist && (final(db).credits() == old(db).credits() || final(db).credits() == old(db).credits().remove(ck)) && (final(db).open_lists() == old(db).open_lists() || final(db).open_lists() == old(db).open_lists().remove(ck)))
        }),
{
    match db.take_feedback(author, channel.guild) {
        Ok(Some(permit)) => {
            if credit_fresh(permit.last_reply, now, timeout_days) {
                proof {
                    lemma_key_spaces_disjoint(author, channel.guild, *channel);
                    assert(db.open_lists().dom().contains(list_key(*channel)));
                }
                let entry = OpenMessage { user: author, msg: msg_id };
                match db.add_open_msg(channel, &entry) {
                    Ok(_) => Ok(RequestOutcome::Accepted),
                    Err(e) => Err(e),
                }
            } else {
                Ok(RequestOutcome::Rejected)
            }
        },
        Ok(None) => Ok(RequestOutcome::Rejected),
        Err(e) => Err(e),
    }
}

/// Handles a message classified as a feedback reply, written by
/// `replier` in `channel` at time `now`, answering the request message
/// `ref_msg_id` of `ref_author`: removes that open request and only
/// then grants the replier a credit stamped `now` - removal must
/// succeed before the grant.  `Err(NotFound)` (nothing changed): the
/// entry was absent, so the request was already closed or never
/// tracked; surfaced as a logic error.
pub fn process_reply(
    db: &mut Database,
    channel: &FeedbackChannel,
    replier: u64,
    ref_author: u64,
    ref_msg_id: u64,
    now: i64,
) -> (r: Result<(), StoreError>)
    ensures
        ({
            let ck = credit_key(replier, channel.guild);
            let lk = list_key(*channel);
            let p = (ref_author, ref_msg_id);
            &&& (r matches Ok(_) ==> old(db).open_lists().dom().contains(lk) && old(db).open_lists()[lk].contains(p) && final(db).credits() == old(db).credits().insert(
                ck,
                now,
            ) && exists|i: int|
                0 <= i < old(db).open_lists()[lk].len() && old(db).open_lists()[lk][i] == p
                    && final(db).open_lists() == old(db).open_lists().insert(
                    lk,
                    #[trigger] old(db).open_lists()[lk].remove(i),
                ).remove(ck))
            &&& (!(old(db).open_lists().dom().contains(lk) && old(db).open_lists()[lk].contains(
                p,
            )) ==> r == Err::<(), StoreError>(StoreError::NotFound))
            &&& (r == Err::<(), StoreError>(StoreError::NotFound) ==> *final(db) == *old(db))
            &&& (r == Err::<(), StoreError>(StoreError::Persist) ==> final(db).credits() == old(db).credits() && (final(db).open_lists() == old(db).open_lists() || exists|i: int|
                0 <= i < old(db).open_lists()[lk].len() && old(db).open_lists()[lk][i] == p
                    && final(db).open_lists() == old(db).open_lists().insert(
                    lk,
                    #[trigger] old(db).open_lists()[lk].remove(i),
                ).remove(ck)))
        }),
{
    let entry = OpenMessage { user: ref_author, msg: ref_msg_id };
    match db.remove_open_msg(channel, &entry) {
        Ok(_) => {
            let ghost mid = *db;
            let fb = FbEntry { last_reply: now };
            match db.allow_feedback(replier, channel.guild, &fb) {
                Ok(_) => {
                    proof {
                        let ck = credit_key(replier, channel.guild);
                        let lk = list_key(*channel);
                        let p = (ref_author, ref_msg_id);
                        let i = choose|i: int|
                            0 <= i < old(db).open_lists()[lk].len() && old(db).open_lists()[lk][i] == p && mid.open_lists() == old(db).open_lists().insert(lk, #[trigger] old(db).open_lists()[lk].remove(i));
                        assert(old(db).open_lists()[lk].contains(p));
                        assert(final(db).open_lists() == old(db).open_lists().insert(
                            lk,
                            old(db).open_lists()[lk].remove(i),
                        ).remove(ck));
                    }
                    Ok(())
                },
                Err(e) => {
                    proof {
                        let ck = credit_key(replier, channel.guild);
                        let lk = list_key(*channel);
                        let p = (ref_author, ref_msg_id);
                        let i = choose|i: int|
                            0 <= i < old(db).open_lists()[lk].len() && old(db).open_lists()[lk][i] == p && mid.open_lists() == old(db).open_lists().insert(lk, #[trigger] old(db).open_lists()[lk].remove(i));
                        assert(final(db).open_lists() == old(db).open_lists().insert(
                            lk,
                            old(db).open_lists()[lk].remove(i),
                        ).remove(ck));
                    }
                    Err(e)
                },
            }
        },
        Err(e) => Err(e),
    }
}

// ---------------------------------------------------------------------
// The inbound-message gate.
// ---------------------------------------------------------------------

/// How a message classifies once it is in scope.
#[derive(Clone, Copy, PartialEq, Eq, Structural, Debug)]
pub enum MessageKind {
    Request,
    Reply,
    Neither,
}

/// The decision for one inbound message.
#[derive(Clone, Copy, PartialEq, Eq, Structural, Debug)]
pub struct MessageDecision {
    /// The text was exactly "ping": answer "pong" (besides whatever the
    /// classification asks for).
    pub pong: bool,
    pub kind: MessageKind,
}

/// The message is subject to the credit economy: not the bot's own,
/// posted in a guild, and in a participating channel.
pub open spec fn spec_in_scope(cfg: Config, m: MessageInfo) -> bool {
    &&& m.author != cfg.client_id
    &&& m.guild is Some
    &&& cfg.channels@.contains(FeedbackChannel { guild: m.guild->0, channel: m.channel })
}

pub open spec fn spec_kind(m: MessageInfo, min_len: nat) -> MessageKind {
    if spec_is_feedback_request(m) {
        MessageKind::Request
    } else if spec_is_feedback_reply(m, min_len) {
        MessageKind::Reply
    } else {
        MessageKind::Neither
    }
}

fn channel_in(channels: &Vec<FeedbackChannel>, ch: &FeedbackChannel) -> (r: bool)
    ensures
        r == channels@.contains(*ch),
{
    let mut i: usize = 0;
    while i < channels.len()
        invariant
            i <= channels@.len(),
            forall|t: int| 0 <= t < i ==> channels@[t] != *ch,
        decreases channels@.len() - i,
    {
        if channels[i].guild == ch.guild && channels[i].channel == ch.channel {
            proof {
                assert(channels@[i as int] == *ch);
            }
            return true;
        }
        i += 1;
    }
    proof {
        if channels@.contains(*ch) {
            let t = choose|t: int| 0 <= t < channels@.len() && channels@[t] == *ch;
            assert(false);
        }
    }
    false
}

/// Whether (guild, channel) is enrolled in the credit economy - the
/// access-control gate applied before any ledger access.
pub fn is_participating(cfg: &Config, guild: u64, channel: u64) -> (r: bool)
    ensures
        r == cfg.channels@.contains(FeedbackChannel { guild, channel }),
{
    let ch = FeedbackChannel::new(guild, channel);
    channel_in(&cfg.channels, &ch)
}

fn content_is_ping(s: &String) -> (r: bool)
    ensures
        r == (s@ == "ping"@),
{
    let p = String::from_str("ping");
    *s == p
}

/// Decides what an inbound message calls for.  `None`: out of scope -
/// the bot's own message, no guild, or a channel outside the economy -
/// silently ignored.  Requests take precedence over replies, as in the
/// classification order.
pub fn decide_message(cfg: &Config, msg: &MessageInfo) -> (r: Option<MessageDecision>)
    ensures
        r is Some <==> spec_in_scope(*cfg, *msg),
        r matches Some(d) ==> d.pong == (msg.content@ == "ping"@) && d.kind == spec_kind(
            *msg,
            cfg.min_msg_len as nat,
        ),
{
    if msg.author == cfg.client_id {
        return None;
    }
    let guild = match msg.guild {
        Some(g) => g,
        None => { return None },
    };
    let ch = FeedbackChannel::new(guild, msg.channel);
    if !channel_in(&cfg.channels, &ch) {
        return None;
    }
    let pong = content_is_ping(&msg.content);
    let kind = if is_feedback_request(msg) {
        MessageKind::Request
    } else if is_feedback_reply(msg, cfg.min_msg_len) {
        MessageKind::Reply
    } else {
        MessageKind::Neither
    };
    Some(MessageDecision { pong, kind })
}

// ---------------------------------------------------------------------
// The clock.
// ---------------------------------------------------------------------

/// Relies on chrono's `Utc::now` (read out through
/// `DateTime::timestamp`): the present civil time as Unix UTC seconds.
/// Nothing is assumed of the reading; callers hold for every value.
#[verifier::external_body]
fn now_ts() -> (r: i64) {
    chrono::Utc::now().timestamp()
}

/// Handles a feedback request at the present moment: `process_request`
/// under the clock's current reading.  Whatever that reading, a held
/// credit is consumed (fresh or stale), acceptance appends the request
/// to the channel's open list, and with no credit held nothing changes.
pub fn handle_feedback_request(
    db: &mut Database,
    channel: &FeedbackChannel,
    author: u64,
    msg_id: u64,
    timeout_days: u64,
) -> (r: Result<RequestOutcome, StoreError>)
    requires
        old(db).open_lists().dom().contains(list_key(*channel)),
    ensures
        ({
            let ck = credit_key(author, channel.guild);
            let lk = list_key(*channel);
            let had = old(db).credits().dom().contains(ck);
            &&& (r is Ok && had ==> final(db).credits() == old(db).credits().remove(ck))
            &&& (!had ==> r == Ok::<RequestOutcome, StoreError>(RequestOutcome::Rejected)
                && *final(db) == *old(db))
            &&& (r == Ok::<RequestOutcome, StoreError>(RequestOutcome::Accepted) ==> had && final(db).open_lists() == old(db).open_lists().remove(ck).insert(
                lk,
                old(db).open_lists()[lk].push((author, msg_id)),
            ))
            &&& (r == Ok::<RequestOutcome, StoreError>(RequestOutcome::Rejected) && had ==> final(db).open_lists() == old(db).open_lists().remove(ck))
            &&& (r matches Err(e) ==> e == StoreError::Persist && (final(db).credits() == old(db).credits() || final(db).credits() == old(db).credits().remove(ck)) && (final(db).open_lists() == old(db).open_lists() || final(db).open_lists() == old(db).open_lists().remove(ck)))
        }),
{
    let now = now_ts();
    let r = process_request(db, channel, author, msg_id, now, timeout_days);
    proof {
        if r is Ok {
            if r->Ok_0 is Accepted {
                assert(r == Ok::<RequestOutcome, StoreError>(RequestOutcome::Accepted));
            } else {
                assert(r == Ok::<RequestOutcome, StoreError>(RequestOutcome::Rejected));
            }
        }
    }
    r
}

/// Handles a feedback reply at the present moment: `process_reply`
/// under the clock's current reading.  On success the replier holds a
/// credit stamped with that reading.
pub fn handle_feedback_reply(
    db: &mut Database,
    channel: &FeedbackChannel,
    replier: u64,
    ref_author: u64,
    ref_msg_id: u64,
) -> (r: Result<(), StoreError>)
    ensures
        ({
            let ck = credit_key(replier, channel.guild);
            let lk = list_key(*channel);
            let p = (ref_author, ref_msg_id);
            &&& (r matches Ok(_) ==> old(db).open_lists().dom().contains(lk) && old(db).open_lists()[lk].contains(p) && final(db).credits().dom().contains(ck) && final(db).credits() == old(db).credits().insert(ck, final(db).credits()[ck]) && exists|i: int|
                0 <= i < old(db).open_lists()[lk].len() && old(db).open_lists()[lk][i] == p
                    && final(db).open_lists() == old(db).open_lists().insert(
                    lk,
                    #[trigger] old(db).open_lists()[lk].remove(i),
                ).remove(ck))
            &&& (!(old(db).open_lists().dom().contains(lk) && old(db).open_lists()[lk].contains(
                p,
            )) ==> r == Err::<(), StoreError>(StoreError::NotFound))
            &&& (r == Err::<(), StoreError>(StoreError::NotFound) ==> *final(db) == *old(db))
        }),
{
    let now = now_ts();
    process_reply(db, channel, replier, ref_author, ref_msg_id, now)
}

} // verus!
