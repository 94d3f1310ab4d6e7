use vstd::prelude::*;
use vstd::string::*;
use crate::types::FeedbackChannel;

verus! {

// The persistent store keeps both tables in one key space.  A credit
// entry for (user, guild) lives under "f_<user>,<guild>"; the open-request
// list of a channel lives under "fc_<guild>,<channel>".  The two prefixes
// disambiguate the key spaces (see `lemma_key_spaces_disjoint`).

pub open spec fn digit_char(d: nat) -> char {
    if d == 0 {
        '0'
    } else if d == 1 {
        '1'
    } else if d == 2 {
        '2'
    } else if d == 3 {
        '3'
    } else if d == 4 {
        '4'
    } else if d == 5 {
        '5'
    } else if d == 6 {
        '6'
    } else if d == 7 {
        '7'
    } else if d == 8 {
        '8'
    } else {
        '9'
    }
}

/// The decimal rendering of `n`, most significant digit first, with no
/// leading zeros (a single '0' for zero itself).
pub open spec fn spec_dec(n: nat) -> Seq<char>
    decreases n,
{
    if n < 10 {
        seq![digit_char(n)]
    } else {
        spec_dec(n / 10).push(digit_char(n % 10))
    }
}

fn digit_str(d: u64) -> (r: &'static str)
    requires
        d < 10,
    ensures
        r@ == seq![digit_char(d as nat)],
{
    proof {
        reveal_strlit("0");
        reveal_strlit("1");
        reveal_strlit("2");
        reveal_strlit("3");
        reveal_strlit("4");
        reveal_strlit("5");
        reveal_strlit("6");
        reveal_strlit("7");
        reveal_strlit("8");
        reveal_strlit("9");
    }
    let r: &'static str = if d == 0 {
        "0"
    } else if d == 1 {
        "1"
    } else if d == 2 {
        "2"
    } else if d == 3 {
        "3"
    } else if d == 4 {
        "4"
    } else if d == 5 {
        "5"
    } else if d == 6 {
        "6"
    } else if d == 7 {
        "7"
    } else if d == 8 {
        "8"
    } else {
        "9"
    };
    proof {
        assert(r@ =~= seq![digit_char(d as nat)]);
    }
    r
}

/// Renders `n` in decimal.
pub fn u64_to_dec(n: u64) -> (r: String)
    ensures
        r@ == spec_dec(n as nat),
    decreases n,
{
    if n < 10 {
        String::from_str(digit_str(n))
    } else {
        let mut s = u64_to_dec(n / 10);
        s.append(digit_str(n % 10));
        proof {
            assert(s@ =~= spec_dec(n as nat));
        }
        s
    }
}

/// The store key of the credit entry of (user, guild).
pub open spec fn credit_key(user: u64, guild: u64) -> Seq<char> {
    seq!['f', '_'] + spec_dec(user as nat) + seq![','] + spec_dec(guild as nat)
}

/// The store key of the open-request list of a channel.
pub open spec fn list_key(ch: FeedbackChannel) -> Seq<char> {
    seq!['f', 'c', '_'] + spec_dec(ch.guild as nat) + seq![','] + spec_dec(ch.channel as nat)
}

pub fn credit_key_string(user: u64, guild: u64) -> (r: String)
    ensures
        r@ == credit_key(user, guild),
{
    proof {
        reveal_strlit("f_");
        reveal_strlit(",");
    }
    let mut s = String::from_str("f_");
    let u = u64_to_dec(user);
    s.append(u.as_str());
    s.append(",");
    let g = u64_to_dec(guild);
    s.append(g.as_str());
    proof {
        assert(s@ =~= credit_key(user, guild));
    }
    s
}

impl FeedbackChannel {
    /// The store key of this channel's open-request list.
    pub fn to_string(&self) -> (r: String)
        ensures
            r@ == list_key(*self),
    {
        proof {
            reveal_strlit("fc_");
            reveal_strlit(",");
        }
        let mut s = String::from_str("fc_");
        let g = u64_to_dec(self.guild);
        s.append(g.as_str());
        s.append(",");
        let c = u64_to_dec(self.channel);
        s.append(c.as_str());
        proof {
            assert(s@ =~= list_key(*self));
        }
        s
    }
}

pub proof fn lemma_dec_len(n: nat)
    ensures
        spec_dec(n).len() >= 1,
        n >= 10 ==> spec_dec(n).len() >= 2,
    decreases n,
{
    if n >= 10 {
        lemma_dec_len(n / 10);
    }
}

pub proof fn lemma_dec_no_comma(n: nat)
    ensures
        forall|i: int| 0 <= i < spec_dec(n).len() ==> spec_dec(n)[i] != ',',
    decreases n,
{
    if n >= 10 {
        lemma_dec_no_comma(n / 10);
        assert forall|i: int| 0 <= i < spec_dec(n).len() implies spec_dec(n)[i] != ',' by {
            if i < spec_dec(n).len() - 1 {
                assert(spec_dec(n)[i] == spec_dec(n / 10)[i]);
            } else {
                assert(spec_dec(n)[i] == digit_char(n % 10));
            }
        }
    }
}

/// Decimal renderings are one to one.
pub proof fn lemma_dec_injective(a: nat, b: nat)
    requires
        spec_dec(a) == spec_dec(b),
    ensures
        a == b,
    decreases a,
{
    lemma_dec_len(a);
    lemma_dec_len(b);
    if a < 10 && b < 10 {
        assert(spec_dec(a)[0] == digit_char(a));
        assert(spec_dec(b)[0] == digit_char(b));
    } else if a < 10 {
        assert(spec_dec(a).len() == 1);
        assert(false);
    } else if b < 10 {
        assert(spec_dec(b).len() == 1);
        assert(false);
    } else {
        assert(spec_dec(a).last() == digit_char(a % 10));
        assert(spec_dec(b).last() == digit_char(b % 10));
        assert(a % 10 == b % 10);
        assert(spec_dec(a).drop_last() =~= spec_dec(a / 10));
        assert(spec_dec(b).drop_last() =~= spec_dec(b / 10));
        lemma_dec_injective(a / 10, b / 10);
        assert(a == a / 10 * 10 + a % 10);
        assert(b == b / 10 * 10 + b % 10);
    }
}

proof fn lemma_joined_injective(d1: Seq<char>, d2: Seq<char>, e1: Seq<char>, e2: Seq<char>)
    requires
        d1 + seq![','] + d2 == e1 + seq![','] + e2,
        forall|i: int| 0 <= i < d1.len() ==> d1[i] != ',',
        forall|i: int| 0 <= i < e1.len() ==> e1[i] != ',',
    ensures
        d1 == e1,
        d2 == e2,
{
    let l = d1 + seq![','] + d2;
    let r = e1 + seq![','] + e2;
    if d1.len() < e1.len() {
        assert(l[d1.len() as int] == ',');
        assert(r[d1.len() as int] == e1[d1.len() as int]);
        assert(false);
    }
    if e1.len() < d1.len() {
        assert(r[e1.len() as int] == ',');
        assert(l[e1.len() as int] == d1[e1.len() as int]);
        assert(false);
    }
    assert(d1 =~= l.subrange(0, d1.len() as int));
    assert(e1 =~= r.subrange(0, e1.len() as int));
    assert(d1 =~= e1);
    assert(d2 =~= l.subrange(d1.len() as int + 1, l.len() as int));
    assert(e2 =~= r.subrange(e1.len() as int + 1, r.len() as int));
    assert(d2 =~= e2);
}

/// Credit keys are one to one: distinct (user, guild) pairs store
/// their credits under distinct keys, so one pair's grant or consume
/// never touches another pair's entry.
pub proof fn lemma_credit_key_injective(u: u64, g: u64, u2: u64, g2: u64)
    requires
        credit_key(u, g) == credit_key(u2, g2),
    ensures
        u == u2,
        g == g2,
{
    let k1 = credit_key(u, g);
    let k2 = credit_key(u2, g2);
    assert(k1.subrange(2, k1.len() as int) =~= spec_dec(u as nat) + seq![','] + spec_dec(
        g as nat,
    ));
    assert(k2.subrange(2, k2.len() as int) =~= spec_dec(u2 as nat) + seq![','] + spec_dec(
        g2 as nat,
    ));
    lemma_dec_no_comma(u as nat);
    lemma_dec_no_comma(u2 as nat);
    lemma_joined_injective(
        spec_dec(u as nat),
        spec_dec(g as nat),
        spec_dec(u2 as nat),
        spec_dec(g2 as nat),
    );
    lemma_dec_injective(u as nat, u2 as nat);
    lemma_dec_injective(g as nat, g2 as nat);
}

/// Credit-entry keys and open-request-list keys never collide: the two
/// key spaces are disjoint, so a mutation of one table never touches
/// the other.
pub proof fn lemma_key_spaces_disjoint(user: u64, guild: u64, ch: FeedbackChannel)
    ensures
        credit_key(user, guild) != list_key(ch),
{
    if credit_key(user, guild) == list_key(ch) {
        assert(credit_key(user, guild)[1] == '_');
        assert(list_key(ch)[1] == 'c');
        assert(false);
    }
}

} // verus!
