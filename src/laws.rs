use vstd::prelude::*;

use crate::ledger::{applied, LedgerService};
use crate::ledger_model::{
    balance_in, lemma_supply_push, supply_delta, burnt, cache_sum, cached, created_in_future, created_too_long_ago, duplicate_of,
    fees_charged, is_minting, lemma_cached_absent, lemma_cached_at, memo_too_long, minted,
    unique_keys,
};
use crate::token_types::{opt_account_view, BlockIndex, TransferError, TxInfo};

verus! {

/// Supply is conserved: the supply the ledger reports is everything minted,
/// less everything burnt, less every fee charged; and it equals the sum of the
/// cached balances, one per account, each the account's replayed balance,
/// with every account whose replayed balance is not zero among them.
pub proof fn conservation(l: LedgerService)
    requires
        l.wf(),
    ensures
        l.supply == minted(l.log@) - burnt(l.log@) - fees_charged(l.log@),
        cache_sum(l.balances@) == minted(l.log@) - burnt(l.log@) - fees_charged(l.log@),
        unique_keys(l.balances@),
        forall|i: int|
            0 <= i < l.balances@.len() ==> #[trigger] l.balances@[i].1 == balance_in(
                l.log@,
                l.balances@[i].0@,
            ),
        forall|a|
            #[trigger] balance_in(l.log@, a) != 0 ==> exists|i: int|
                0 <= i < l.balances@.len() && l.balances@[i].0@ == a,
{
    assert forall|i: int| 0 <= i < l.balances@.len() implies #[trigger] l.balances@[i].1
        == balance_in(l.log@, l.balances@[i].0@) by {
        lemma_cached_at(l.balances@, i);
    }
    assert forall|a| #[trigger] balance_in(l.log@, a) != 0 implies exists|i: int|
        0 <= i < l.balances@.len() && l.balances@[i].0@ == a by {
        if !exists|i: int| 0 <= i < l.balances@.len() && l.balances@[i].0@ == a {
            lemma_cached_absent(l.balances@, a);
        }
    }
}

/// The balance cache holds, for every account, the balance obtained by
/// replaying the whole log.
pub proof fn cache_coherence(l: LedgerService, a: (Seq<u8>, Option<Seq<u8>>))
    requires
        l.wf(),
    ensures
        cached(l.balances@, a) == balance_in(l.log@, a),
{
}

/// A request that carries a creation time, accepted once, is reported as a
/// duplicate of that first entry when submitted again within its window,
/// and the second submission changes nothing.
pub proof fn retry_is_duplicate(
    l0: LedgerService,
    l1: LedgerService,
    l2: LedgerService,
    req: TxInfo,
    now1: u64,
    now2: u64,
    r1: Result<BlockIndex, TransferError>,
    r2: Result<BlockIndex, TransferError>,
)
    requires
        l0.wf(),
        req.created_at_time.is_some(),
        applied(l0, l1, req, now1, r1),
        r1.is_ok(),
        !created_in_future(req.created_at_time, now2),
        !created_too_long_ago(req.created_at_time, now2),
        applied(l1, l2, req, now2, r2),
    ensures
        r2 == Err::<BlockIndex, TransferError>(
            TransferError::Duplicate { duplicate_of: r1.unwrap() },
        ),
        l2 == l1,
{
    assert(l1.log@.drop_last() =~= l0.log@);
}

/// What decides a plain transfer is the sender's balance: the request is
/// neither an approval nor a mint or burn, and passes every other check.
pub open spec fn only_funds_decide(l: LedgerService, req: TxInfo, now: u64) -> bool {
    let minting = l.config.minting_account;
    &&& !req.is_approval
    &&& req.to is Some
    &&& opt_account_view(req.to) != Some(req.from@)
    &&& !memo_too_long(req.memo)
    &&& !created_in_future(req.created_at_time, now)
    &&& !created_too_long_ago(req.created_at_time, now)
    &&& (req.created_at_time.is_none() || duplicate_of(l.log@, req, minting).is_none())
    &&& (req.fee.is_none() || req.fee == Some(l.config.transfer_fee))
    &&& !is_minting(Some(req.from), minting)
    &&& !is_minting(req.to, minting)
}

/// A transfer whose amount plus fee equals the sender's balance succeeds
/// and leaves the sender with nothing.
pub proof fn transfer_of_whole_balance(
    l0: LedgerService,
    l1: LedgerService,
    req: TxInfo,
    now: u64,
    r: Result<BlockIndex, TransferError>,
)
    requires
        l0.wf(),
        only_funds_decide(l0, req, now),
        balance_in(l0.log@, req.from@) == req.amount + l0.config.transfer_fee,
        applied(l0, l1, req, now, r),
    ensures
        r == Ok::<BlockIndex, TransferError>(l0.log@.len() as usize),
        balance_in(l1.log@, req.from@) == 0,
{
    assert(l1.log@.drop_last() =~= l0.log@);
}

/// A transfer whose amount plus fee is one more than the sender's balance
/// fails with that balance and changes nothing.
pub proof fn transfer_beyond_balance(
    l0: LedgerService,
    l1: LedgerService,
    req: TxInfo,
    now: u64,
    r: Result<BlockIndex, TransferError>,
)
    requires
        l0.wf(),
        only_funds_decide(l0, req, now),
        balance_in(l0.log@, req.from@) + 1 == req.amount + l0.config.transfer_fee,
        applied(l0, l1, req, now, r),
    ensures
        r == Err::<BlockIndex, TransferError>(
            TransferError::InsufficientFunds {
                balance: balance_in(l0.log@, req.from@) as u128,
            },
        ),
        l1 == l0,
{
}

/// Every call keeps the supply equal to the sum of the balances: a rejected
/// request moves neither, and an accepted one moves both by what its entry
/// mints, less what it burns and the fee it charges.
pub proof fn supply_moves_with_entry(
    l0: LedgerService,
    l1: LedgerService,
    req: TxInfo,
    now: u64,
    r: Result<BlockIndex, TransferError>,
)
    requires
        l0.wf(),
        l1.wf(),
        applied(l0, l1, req, now, r),
    ensures
        r is Err ==> l1.supply == l0.supply && cache_sum(l1.balances@) == cache_sum(
            l0.balances@,
        ),
        r is Ok ==> l1.log@.len() == l0.log@.len() + 1 && l1.supply == l0.supply + supply_delta(
            l1.log@.last(),
        ) && cache_sum(l1.balances@) - cache_sum(l0.balances@) == l1.supply - l0.supply,
{
    if r is Ok {
        lemma_supply_push(l0.log@, l1.log@.last());
        assert(l1.log@ =~= l0.log@.push(l1.log@.last()));
    }
}

} // verus!
