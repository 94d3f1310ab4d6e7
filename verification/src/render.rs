use vstd::prelude::*;
use vstd::string::*;
use crate::keys::{list_key, spec_dec, u64_to_dec};
use crate::store::Database;
use crate::types::{FeedbackChannel, OpenMessage};

verus! {

// ---------------------------------------------------------------------
// The "open" listing.
//
// Each open request is rendered as one line: a link to the request
// message, then a mention of the requesting user.  The link is the
// chat platform's message address
// (https://discord.com/channels/<guild>/<channel>/<message>), the
// mention its user form (<@<user>>).
// ---------------------------------------------------------------------

/// One rendered line of the listing.
pub open spec fn spec_open_line(user: u64, msg: u64, ch: FeedbackChannel) -> Seq<char> {
    "- https://discord.com/channels/"@ + spec_dec(ch.guild as nat) + "/"@ + spec_dec(
        ch.channel as nat,
    ) + "/"@ + spec_dec(msg as nat) + " from <@"@ + spec_dec(user as nat) + ">\n"@
}

/// The listing body: one line per entry, in order.
pub open spec fn spec_open_lines(items: Seq<(u64, u64)>, ch: FeedbackChannel) -> Seq<char>
    decreases items.len(),
{
    if items.len() == 0 {
        Seq::empty()
    } else {
        spec_open_line(items[0].0, items[0].1, ch) + spec_open_lines(items.drop_first(), ch)
    }
}

/// The full reply to the "open" query: a fixed notice when nothing is
/// open, else a header and the listing body.
pub open spec fn spec_open_reply(items: Seq<(u64, u64)>, ch: FeedbackChannel) -> Seq<char> {
    if items.len() == 0 {
        "No open messages..."@
    } else {
        "Here is a list of posts that still need feedback:\n"@ + spec_open_lines(items, ch)
    }
}

proof fn lemma_open_lines_push(items: Seq<(u64, u64)>, x: (u64, u64), ch: FeedbackChannel)
    ensures
        spec_open_lines(items.push(x), ch) == spec_open_lines(items, ch) + spec_open_line(
            x.0,
            x.1,
            ch,
        ),
    decreases items.len(),
{
    if items.len() == 0 {
        assert(items.push(x).drop_first() =~= items);
        assert(spec_open_lines(items.push(x), ch) =~= spec_open_lines(items, ch) + spec_open_line(
            x.0,
            x.1,
            ch,
        ));
    } else {
        lemma_open_lines_push(items.drop_first(), x, ch);
        assert(items.push(x).drop_first() =~= items.drop_first().push(x));
        assert(spec_open_lines(items.push(x), ch) =~= spec_open_lines(items, ch) + spec_open_line(
            x.0,
            x.1,
            ch,
        ));
    }
}

impl OpenMessage {
    /// Appends this entry's listing line to `out`.
    pub fn display(&self, out: &mut String, channel: &FeedbackChannel)
        ensures
            final(out)@ == old(out)@ + spec_open_line(self.user, self.msg, *channel),
    {
        proof {
            reveal_strlit("- https://discord.com/channels/");
            reveal_strlit("/");
            reveal_strlit(" from <@");
            reveal_strlit(">\n");
        }
        out.append("- https://discord.com/channels/");
        let g = u64_to_dec(channel.guild);
        out.append(g.as_str());
        out.append("/");
        let c = u64_to_dec(channel.channel);
        out.append(c.as_str());
        out.append("/");
        let m = u64_to_dec(self.msg);
        out.append(m.as_str());
        out.append(" from <@");
        let u = u64_to_dec(self.user);
        out.append(u.as_str());
        out.append(">\n");
        proof {
            assert(out@ =~= old(out)@ + spec_open_line(self.user, self.msg, *channel));
        }
    }
}

/// The reply text for the "open" query in `channel`: every open request
/// of the channel, in insertion order, or the fixed notice when none is
/// open.  The channel's list must exist.
pub fn open_command_reply(db: &Database, channel: &FeedbackChannel) -> (r: String)
    requires
        db.open_lists().dom().contains(list_key(*channel)),
    ensures
        r@ == spec_open_reply(db.open_lists()[list_key(*channel)], *channel),
{
    let ghost stored = db.open_lists()[list_key(*channel)];
    let items = db.open_msgs(channel);
    if items.len() == 0 {
        proof {
            reveal_strlit("No open messages...");
        }
        return String::from_str("No open messages...");
    }
    proof {
        reveal_strlit("Here is a list of posts that still need feedback:\n");
    }
    let mut out = String::from_str("Here is a list of posts that still need feedback:\n");
    let ghost header = out@;
    let mut i: usize = 0;
    while i < items.len()
        invariant
            i <= items@.len(),
            items@.len() == stored.len(),
            forall|t: int|
                0 <= t < items@.len() ==> ((#[trigger] items@[t]).user, items@[t].msg)
                    == stored[t],
            out@ == header + spec_open_lines(stored.take(i as int), *channel),
        decreases items@.len() - i,
    {
        let entry = items[i];
        entry.display(&mut out, channel);
        proof {
            lemma_open_lines_push(stored.take(i as int), stored[i as int], *channel);
            assert(stored.take(i as int).push(stored[i as int]) =~= stored.take(i as int + 1));
            assert(out@ == header + spec_open_lines(stored.take(i as int + 1), *channel));
        }
        i += 1;
    }
    proof {
        assert(stored.take(items@.len() as int) =~= stored);
        assert(out@ == spec_open_reply(stored, *channel));
    }
    out
}

/// The response to a slash-style command in `channel`: the listing for
/// "open", a fixed notice for any other command name.  The channel's
/// list must exist.
pub fn command_response(db: &Database, channel: &FeedbackChannel, name: &str) -> (r: String)
    requires
        db.open_lists().dom().contains(list_key(*channel)),
    ensures
        name@ == "open"@ ==> r@ == spec_open_reply(
            db.open_lists()[list_key(*channel)],
            *channel,
        ),
        name@ != "open"@ ==> r@ == "not implemented, yikes"@,
{
    let open_name = String::from_str("open");
    if String::from_str(name) == open_name {
        open_command_reply(db, channel)
    } else {
        String::from_str("not implemented, yikes")
    }
}

} // verus!
