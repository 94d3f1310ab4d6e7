use vstd::prelude::*;
use crate::keys::{credit_key, lemma_credit_key_injective};

verus! {

// The ledger methods state their effect on the credit table and the
// open-request lists (see `Database`); the laws below state what those
// effects add up to across calls.

/// Credit exclusivity: credits do not stack.  `GrantCredit` leaves
/// exactly one entry for the pair, whatever was there before; a
/// successful `TakeCredit` removes it, so a second take before the
/// next grant finds nothing (`TakeCredit` succeeds only on a present
/// entry, by its own contract).
pub proof fn lemma_credit_exclusivity(credits: Map<Seq<char>, i64>, user: u64, guild: u64, t: i64)
    ensures
        ({
            let ck = credit_key(user, guild);
            let granted = credits.insert(ck, t);
            let taken = granted.remove(ck);
            granted.dom().contains(ck) && granted[ck] == t && !taken.dom().contains(ck)
        }),
{
}

/// Consume-on-use, expiry included: a request attempt consumes a held
/// credit whether or not it was fresh enough to authorize the request
/// (`process_request` removes it in the accepted and in the rejected
/// case alike), so consuming again at once finds nothing - a stale
/// credit is not refunded.
pub proof fn lemma_consume_on_use(credits: Map<Seq<char>, i64>, user: u64, guild: u64)
    requires
        credits.dom().contains(credit_key(user, guild)),
    ensures
        !credits.remove(credit_key(user, guild)).dom().contains(credit_key(user, guild)),
{
}

/// Credit isolation: consuming one pair's credit leaves every other
/// pair's entry untouched - distinct pairs store under distinct keys.
pub proof fn lemma_credit_isolation(
    credits: Map<Seq<char>, i64>,
    user: u64,
    guild: u64,
    other_user: u64,
    other_guild: u64,
)
    requires
        (user, guild) != (other_user, other_guild),
    ensures
        ({
            let rest = credits.remove(credit_key(user, guild));
            let ok = credit_key(other_user, other_guild);
            rest.dom().contains(ok) == credits.dom().contains(ok) && (credits.dom().contains(ok)
                ==> rest[ok] == credits[ok])
        }),
{
    if credit_key(user, guild) == credit_key(other_user, other_guild) {
        lemma_credit_key_injective(user, guild, other_user, other_guild);
        assert(false);
    }
}

/// Open-list fidelity: appending an entry not yet in the list and then
/// removing an occurrence of it restores the list exactly - the entry
/// is gone and the remaining entries keep their order.  (The index `i`
/// ranges over every occurrence `RemoveOpenRequest` may pick; with the
/// entry absent beforehand, only the appended one exists.)
pub proof fn lemma_open_list_fidelity(list: Seq<(u64, u64)>, e: (u64, u64), i: int)
    requires
        !list.contains(e),
        0 <= i < list.push(e).len(),
        list.push(e)[i] == e,
    ensures
        list.push(e).remove(i) == list,
{
    if i < list.len() {
        assert(list[i] == e);
        assert(list.contains(e));
        assert(false);
    }
    assert(list.push(e).remove(i) =~= list);
}

} // verus!
