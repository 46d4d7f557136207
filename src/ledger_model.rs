use vstd::prelude::*;

use crate::token_types::{opt_account_view, Account, Operation, Tokens, Transaction, TransferError, TxInfo};
use crate::types::{opt_bytes_view, CacheKey};

verus! {

/// Largest memo, in bytes.
pub const MAX_MEMO_SIZE: usize = 32;

/// How far a request's creation time may lie from ledger time, in nanoseconds.
pub const PERMITTED_DRIFT_NANOS: u64 = 60_000_000_000;

/// How long a request stays valid after its creation time, in nanoseconds.
pub const TRANSACTION_WINDOW_NANOS: u64 = 86_400_000_000_000;

pub const MEMO_TOO_LONG_ERROR_CODE: u64 = 0;

pub const SELF_TRANSFER_ERROR_CODE: u64 = 1;

pub const SUPPLY_OVERFLOW_ERROR_CODE: u64 = 3;

pub const MISSING_PARTY_ERROR_CODE: u64 = 4;

// ---------------------------------------------------------------------------
// Caches: a sequence of (key, amount) entries read as a function of the key.
/// The amount that `entries` hold for `k`: the last entry for `k`, else zero.
pub open spec fn cached<K: View>(entries: Seq<(K, u128)>, k: K::V) -> int
    decreases entries.len(),
{
    if entries.len() == 0 {
        0
    } else if entries.last().0@ == k {
        entries.last().1 as int
    } else {
        cached(entries.drop_last(), k)
    }
}

/// No two entries share a key.
pub open spec fn unique_keys<K: View>(entries: Seq<(K, u128)>) -> bool {
    forall|i: int, j: int|
        0 <= i < entries.len() && 0 <= j < entries.len() && i != j ==> entries[i].0@
            != entries[j].0@
}

/// Sum of all amounts of `entries`.
pub open spec fn cache_sum<K>(entries: Seq<(K, u128)>) -> int
    decreases entries.len(),
{
    if entries.len() == 0 {
        0
    } else {
        cache_sum(entries.drop_last()) + entries.last().1
    }
}

pub proof fn lemma_cached_absent<K: View>(entries: Seq<(K, u128)>, k: K::V)
    requires
        forall|i: int| 0 <= i < entries.len() ==> entries[i].0@ != k,
    ensures
        cached(entries, k) == 0,
    decreases entries.len(),
{
    if entries.len() > 0 {
        lemma_cached_absent(entries.drop_last(), k);
    }
}

pub proof fn lemma_cached_at<K: View>(entries: Seq<(K, u128)>, i: int)
    requires
        unique_keys(entries),
        0 <= i < entries.len(),
    ensures
        cached(entries, entries[i].0@) == entries[i].1,
    decreases entries.len(),
{
    if i != entries.len() - 1 {
        assert(entries.last() == entries[entries.len() - 1]);
        lemma_cached_at(entries.drop_last(), i);
    }
}

pub proof fn lemma_entry_le_sum<K>(entries: Seq<(K, u128)>, i: int)
    requires
        0 <= i < entries.len(),
    ensures
        entries[i].1 <= cache_sum(entries),
        0 <= cache_sum(entries),
    decreases entries.len(),
{
    lemma_sum_nonneg(entries.drop_last());
    if i != entries.len() - 1 {
        lemma_entry_le_sum(entries.drop_last(), i);
    }
}

pub proof fn lemma_sum_nonneg<K>(entries: Seq<(K, u128)>)
    ensures
        0 <= cache_sum(entries),
    decreases entries.len(),
{
    if entries.len() > 0 {
        lemma_sum_nonneg(entries.drop_last());
    }
}

/// Any key's amount is at most the sum of the cache.
pub proof fn lemma_cached_le_sum<K: View>(entries: Seq<(K, u128)>, k: K::V)
    requires
        unique_keys(entries),
    ensures
        0 <= cached(entries, k) <= cache_sum(entries),
{
    lemma_sum_nonneg(entries);
    if exists|i: int| 0 <= i < entries.len() && entries[i].0@ == k {
        let i = choose|i: int| 0 <= i < entries.len() && entries[i].0@ == k;
        lemma_cached_at(entries, i);
        lemma_entry_le_sum(entries, i);
    } else {
        lemma_cached_absent(entries, k);
    }
}

/// Two different keys together hold at most the sum of the cache.
pub proof fn lemma_two_cached_le_sum<K: View>(entries: Seq<(K, u128)>, a: K::V, b: K::V)
    requires
        unique_keys(entries),
        a != b,
    ensures
        cached(entries, a) + cached(entries, b) <= cache_sum(entries),
    decreases entries.len(),
{
    if entries.len() > 0 {
        let d = entries.drop_last();
        assert(unique_keys(d));
        let last = entries.last();
        assert forall|i: int| 0 <= i < d.len() implies d[i].0@ != last.0@ by {
            assert(entries[i].0@ != entries[entries.len() - 1].0@);
        }
        if last.0@ == a {
            lemma_cached_absent(d, a);
            lemma_cached_le_sum(d, b);
        } else if last.0@ == b {
            lemma_cached_absent(d, b);
            lemma_cached_le_sum(d, a);
        } else {
            lemma_two_cached_le_sum(d, a, b);
        }
    }
}

/// Replacing the entry at `i` changes the amount of its key and the sum, and
/// nothing else.
pub proof fn lemma_cache_update<K: View>(entries: Seq<(K, u128)>, i: int, e: (K, u128))
    requires
        unique_keys(entries),
        0 <= i < entries.len(),
        e.0@ == entries[i].0@,
    ensures
        unique_keys(entries.update(i, e)),
        forall|k: K::V| #[trigger]
            cached(entries.update(i, e), k) == if k == e.0@ {
                e.1 as int
            } else {
                cached(entries, k)
            },
        cache_sum(entries.update(i, e)) == cache_sum(entries) - entries[i].1 + e.1,
    decreases entries.len(),
{
    let u = entries.update(i, e);
    assert forall|a: int, b: int| 0 <= a < u.len() && 0 <= b < u.len() && a != b implies u[a].0@
        != u[b].0@ by {
        if a != i && b != i {
            assert(entries[a].0@ != entries[b].0@);
        } else if a == i {
            assert(entries[i].0@ != entries[b].0@);
        } else {
            assert(entries[a].0@ != entries[i].0@);
        }
    }
    if i == entries.len() - 1 {
        assert(u.drop_last() =~= entries.drop_last());
        assert forall|k: K::V| #[trigger]
            cached(u, k) == if k == e.0@ {
                e.1 as int
            } else {
                cached(entries, k)
            } by {
            if k == e.0@ {
            } else {
                assert(entries.last().0@ == e.0@);
            }
        }
    } else {
        let d = entries.drop_last();
        assert(u.drop_last() =~= d.update(i, e));
        assert(unique_keys(d));
        lemma_cache_update(d, i, e);
        assert(u.last() == entries.last());
        assert(entries.last().0@ != e.0@) by {
            assert(entries[entries.len() - 1].0@ != entries[i].0@);
        }
        assert forall|k: K::V| #[trigger]
            cached(u, k) == if k == e.0@ {
                e.1 as int
            } else {
                cached(entries, k)
            } by {
            if k == u.last().0@ {
            } else {
                assert(cached(u, k) == cached(d.update(i, e), k));
            }
        }
    }
}

/// Appending an entry for a new key.
pub proof fn lemma_cache_push<K: View>(entries: Seq<(K, u128)>, e: (K, u128))
    requires
        unique_keys(entries),
        forall|i: int| 0 <= i < entries.len() ==> entries[i].0@ != e.0@,
    ensures
        unique_keys(entries.push(e)),
        forall|k: K::V| #[trigger]
            cached(entries.push(e), k) == if k == e.0@ {
                e.1 as int
            } else {
                cached(entries, k)
            },
        cache_sum(entries.push(e)) == cache_sum(entries) + e.1,
{
    let p = entries.push(e);
    assert(p.drop_last() =~= entries);
    assert forall|a: int, b: int| 0 <= a < p.len() && 0 <= b < p.len() && a != b implies p[a].0@
        != p[b].0@ by {
        if a < entries.len() && b < entries.len() {
            assert(entries[a].0@ != entries[b].0@);
        }
    }
}

// ---------------------------------------------------------------------------
// Replaying the log.
pub open spec fn fee_amount(fee: Option<Tokens>) -> int {
    match fee {
        Some(f) => f as int,
        None => 0,
    }
}

/// What one log entry adds to the balance of account `a` (negative: takes).
pub open spec fn balance_delta(tx: Transaction, a: (Seq<u8>, Option<Seq<u8>>)) -> int {
    match tx.operation {
        Operation::Mint { to, amount, .. } => if to@ == a {
            amount as int
        } else {
            0
        },
        Operation::Burn { from, amount, .. } => if from@ == a {
            -(amount as int)
        } else {
            0
        },
        Operation::Transfer { from, to, amount, fee, .. } => (if from@ == a {
            -(amount + fee_amount(fee))
        } else {
            0
        }) + (if to@ == a {
            amount as int
        } else {
            0
        }),
        Operation::Approve { from, fee, .. } => if from@ == a {
            -fee_amount(fee)
        } else {
            0
        },
    }
}

/// Balance of `a` obtained by replaying `log` from genesis.
pub open spec fn balance_in(log: Seq<Transaction>, a: (Seq<u8>, Option<Seq<u8>>)) -> int
    decreases log.len(),
{
    if log.len() == 0 {
        0
    } else {
        balance_in(log.drop_last(), a) + balance_delta(log.last(), a)
    }
}

/// Sum of all minted amounts of `log`.
pub open spec fn minted(log: Seq<Transaction>) -> int
    decreases log.len(),
{
    if log.len() == 0 {
        0
    } else {
        minted(log.drop_last()) + match log.last().operation {
            Operation::Mint { amount, .. } => amount as int,
            _ => 0,
        }
    }
}

/// Sum of all burnt amounts of `log`.
pub open spec fn burnt(log: Seq<Transaction>) -> int
    decreases log.len(),
{
    if log.len() == 0 {
        0
    } else {
        burnt(log.drop_last()) + match log.last().operation {
            Operation::Burn { amount, .. } => amount as int,
            _ => 0,
        }
    }
}

/// Sum of all fees charged on transfers and approvals of `log`.
pub open spec fn fees_charged(log: Seq<Transaction>) -> int
    decreases log.len(),
{
    if log.len() == 0 {
        0
    } else {
        fees_charged(log.drop_last()) + match log.last().operation {
            Operation::Transfer { fee, .. } => fee_amount(fee),
            Operation::Approve { fee, .. } => fee_amount(fee),
            _ => 0,
        }
    }
}

/// Tokens in circulation after `log`.
pub open spec fn supply_of(log: Seq<Transaction>) -> int {
    minted(log) - burnt(log) - fees_charged(log)
}

/// What one log entry adds to the supply.
pub open spec fn supply_delta(tx: Transaction) -> int {
    match tx.operation {
        Operation::Mint { amount, .. } => amount as int,
        Operation::Burn { amount, .. } => -(amount as int),
        Operation::Transfer { fee, .. } => -fee_amount(fee),
        Operation::Approve { fee, .. } => -fee_amount(fee),
    }
}

pub proof fn lemma_supply_push(log: Seq<Transaction>, tx: Transaction)
    ensures
        supply_of(log.push(tx)) == supply_of(log) + supply_delta(tx),
        forall|a| #[trigger]
            balance_in(log.push(tx), a) == balance_in(log, a) + balance_delta(tx, a),
{
    assert(log.push(tx).drop_last() =~= log);
}

/// A transfer entry never has the same account on both sides.
pub open spec fn entry_well_formed(tx: Transaction) -> bool {
    match tx.operation {
        Operation::Transfer { from, to, .. } => from@ != to@,
        _ => true,
    }
}

/// Every prefix of the log leaves every balance within `Tokens`.
pub open spec fn replay_in_range(log: Seq<Transaction>) -> bool {
    forall|n: int, a|
        0 <= n <= log.len() ==> 0 <= #[trigger] balance_in(log.take(n), a) <= u128::MAX
}

// ---------------------------------------------------------------------------
// Duplicate detection.
/// Whether a request repeats a logged entry: same kind, participants, amount,
/// memo and creation time (for approvals also the expected allowance and expiry).
pub open spec fn request_matches(req: TxInfo, tx: Transaction, minting: Option<Account>) -> bool {
    let same_memo = opt_bytes_view(req.memo) == opt_bytes_view(tx.memo);
    let same_time = req.created_at_time == tx.created_at_time;
    if req.is_approval {
        match tx.operation {
            Operation::Approve { from, spender, amount, expected_allowance, expires_at, .. } => {
                &&& req.from@ == from@
                &&& opt_account_view(req.spender) == Some(spender@)
                &&& req.amount == amount
                &&& req.expected_allowance == expected_allowance
                &&& req.expires_at == expires_at
                &&& same_memo
                &&& same_time
            },
            _ => false,
        }
    } else {
        match tx.operation {
            Operation::Burn { from, spender, amount } => {
                &&& opt_account_view(req.to) == opt_account_view(minting)
                &&& req.from@ == from@
                &&& req.amount == amount
                &&& opt_account_view(req.spender) == opt_account_view(spender)
                &&& same_memo
                &&& same_time
            },
            Operation::Mint { to, amount } => {
                &&& Some(req.from@) == opt_account_view(minting)
                &&& opt_account_view(req.to) == Some(to@)
                &&& req.amount == amount
                &&& same_memo
                &&& same_time
            },
            Operation::Transfer { from, to, spender, amount, .. } => {
                &&& req.from@ == from@
                &&& opt_account_view(req.to) == Some(to@)
                &&& req.amount == amount
                &&& opt_account_view(req.spender) == opt_account_view(spender)
                &&& same_memo
                &&& same_time
            },
            Operation::Approve { .. } => false,
        }
    }
}

/// Index of the first entry of `log` that `req` repeats.
pub open spec fn duplicate_of(log: Seq<Transaction>, req: TxInfo, minting: Option<Account>) -> Option<
    int,
>
    decreases log.len(),
{
    if log.len() == 0 {
        None
    } else {
        match duplicate_of(log.drop_last(), req, minting) {
            Some(i) => Some(i),
            None => if request_matches(req, log.last(), minting) {
                Some(log.len() - 1)
            } else {
                None
            },
        }
    }
}

pub proof fn lemma_duplicate_of_extends(
    log: Seq<Transaction>,
    req: TxInfo,
    minting: Option<Account>,
    k: int,
)
    requires
        0 <= k <= log.len(),
        duplicate_of(log.take(k), req, minting).is_some(),
    ensures
        duplicate_of(log, req, minting) == duplicate_of(log.take(k), req, minting),
    decreases log.len() - k,
{
    if k == log.len() {
        assert(log.take(k) =~= log);
    } else {
        assert(log.take(k + 1).drop_last() =~= log.take(k));
        lemma_duplicate_of_extends(log, req, minting, k + 1);
    }
}

// ---------------------------------------------------------------------------
// Validation of a request.
/// Outcome of validating a request against the ledger's state.
pub enum Verdict {
    Accept(Transaction),
    MissingParty,
    SelfTransfer,
    MemoTooLong,
    CreatedInFuture,
    TooOld,
    Duplicate(int),
    BadFee(Tokens),
    BadBurn(Tokens),
    InsufficientFunds(Tokens),
    SupplyOverflow,
}

pub open spec fn memo_too_long(memo: Option<Vec<u8>>) -> bool {
    match memo {
        Some(m) => m@.len() > MAX_MEMO_SIZE,
        None => false,
    }
}

/// A creation time later than `now` plus the drift.
pub open spec fn created_in_future(created: Option<u64>, now: u64) -> bool {
    match created {
        Some(t) => t > now && t - now > PERMITTED_DRIFT_NANOS,
        None => false,
    }
}

/// A creation time earlier than `now` minus the window and the drift.
pub open spec fn created_too_long_ago(created: Option<u64>, now: u64) -> bool {
    match created {
        Some(t) => t < now && now - t > TRANSACTION_WINDOW_NANOS + PERMITTED_DRIFT_NANOS,
        None => false,
    }
}

/// The account that receives the entry, where it is a minting account.
pub open spec fn is_minting(a: Option<Account>, minting: Option<Account>) -> bool {
    match (a, minting) {
        (Some(x), Some(m)) => x@ == m@,
        _ => false,
    }
}

/// The rejection, or the entry to log, for `req` arriving at `now`, given the
/// log, the configured fee and minting account, and the current supply.
pub open spec fn verdict(
    log: Seq<Transaction>,
    fee: Tokens,
    minting: Option<Account>,
    req: TxInfo,
    now: u64,
) -> Verdict {
    let balance = balance_in(log, req.from@);
    if (req.is_approval && req.spender.is_none()) || (!req.is_approval && req.to.is_none()) {
        Verdict::MissingParty
    } else if opt_account_view(req.to) == Some(req.from@) {
        Verdict::SelfTransfer
    } else if memo_too_long(req.memo) {
        Verdict::MemoTooLong
    } else if created_in_future(req.created_at_time, now) {
        Verdict::CreatedInFuture
    } else if created_too_long_ago(req.created_at_time, now) {
        Verdict::TooOld
    } else if req.created_at_time.is_some() && duplicate_of(log, req, minting).is_some() {
        Verdict::Duplicate(duplicate_of(log, req, minting).unwrap())
    } else if req.fee.is_some() && req.fee.unwrap() != fee {
        Verdict::BadFee(fee)
    } else if req.is_approval {
        if balance < fee {
            Verdict::InsufficientFunds(balance as u128)
        } else {
            Verdict::Accept(
                Transaction {
                    operation: Operation::Approve {
                        from: req.from,
                        spender: req.spender.unwrap(),
                        amount: req.amount,
                        expected_allowance: req.expected_allowance,
                        expires_at: req.expires_at,
                        fee: Some(fee),
                    },
                    memo: req.memo,
                    created_at_time: req.created_at_time,
                    timestamp: now,
                },
            )
        }
    } else if is_minting(Some(req.from), minting) {
        if supply_of(log) + req.amount > u128::MAX {
            Verdict::SupplyOverflow
        } else {
            Verdict::Accept(
                Transaction {
                    operation: Operation::Mint { to: req.to.unwrap(), amount: req.amount },
                    memo: req.memo,
                    created_at_time: req.created_at_time,
                    timestamp: now,
                },
            )
        }
    } else if is_minting(req.to, minting) {
        if req.amount < fee {
            Verdict::BadBurn(fee)
        } else if balance < req.amount + fee {
            Verdict::InsufficientFunds(balance as u128)
        } else {
            Verdict::Accept(
                Transaction {
                    operation: Operation::Burn {
                        from: req.from,
                        spender: req.spender,
                        amount: req.amount,
                    },
                    memo: req.memo,
                    created_at_time: req.created_at_time,
                    timestamp: now,
                },
            )
        }
    } else if balance < req.amount + fee {
        Verdict::InsufficientFunds(balance as u128)
    } else {
        Verdict::Accept(
            Transaction {
                operation: Operation::Transfer {
                    from: req.from,
                    to: req.to.unwrap(),
                    spender: req.spender,
                    amount: req.amount,
                    fee: Some(fee),
                },
                memo: req.memo,
                created_at_time: req.created_at_time,
                timestamp: now,
            },
        )
    }
}

/// Whether `e` is the error that reports verdict `v`.
pub open spec fn reports(e: TransferError, v: Verdict) -> bool {
    match v {
        Verdict::MissingParty => e matches TransferError::GenericError { error_code, message }
            && error_code == MISSING_PARTY_ERROR_CODE && message@ == "Request names no counterparty"@,
        Verdict::SelfTransfer => e matches TransferError::GenericError { error_code, message }
            && error_code == SELF_TRANSFER_ERROR_CODE && message@
            == "Cannot transfer to the same account"@,
        Verdict::MemoTooLong => e matches TransferError::GenericError { error_code, message }
            && error_code == MEMO_TOO_LONG_ERROR_CODE && message@ == "Memo too long"@,
        Verdict::SupplyOverflow => e matches TransferError::GenericError { error_code, message }
            && error_code == SUPPLY_OVERFLOW_ERROR_CODE && message@ == "Supply would overflow"@,
        Verdict::CreatedInFuture => e matches TransferError::CreatedInFuture { .. },
        Verdict::TooOld => e == TransferError::TooOld,
        Verdict::Duplicate(i) => e == TransferError::Duplicate { duplicate_of: i as usize },
        Verdict::BadFee(f) => e == TransferError::BadFee { expected_fee: f },
        Verdict::BadBurn(f) => e == TransferError::BadBurn { min_burn_amount: f },
        Verdict::InsufficientFunds(b) => e == TransferError::InsufficientFunds { balance: b },
        Verdict::Accept(_) => false,
    }
}

// ---------------------------------------------------------------------------
// Allowances.
/// Running (allowance, expiry) of `spender` on `owner`'s funds, after `tx`.
pub open spec fn allowance_step(
    state: (int, Option<u64>),
    tx: Transaction,
    owner: (Seq<u8>, Option<Seq<u8>>),
    spender: (Seq<u8>, Option<Seq<u8>>),
) -> (int, Option<u64>) {
    let reset = match state.1 {
        Some(e) => if e < tx.timestamp {
            (0int, None::<u64>)
        } else {
            state
        },
        None => state,
    };
    match tx.operation {
        Operation::Approve { from, spender: s, amount, expires_at, .. } => if from@ == owner && s@
            == spender {
            (amount as int, expires_at)
        } else {
            reset
        },
        Operation::Transfer { from, spender: Some(s), amount, fee, .. } => if from@ == owner && s@
            == spender {
            let left = reset.0 - amount - fee_amount(fee);
            (if left < 0 {
                0
            } else {
                left
            }, reset.1)
        } else {
            reset
        },
        _ => reset,
    }
}

/// Running (allowance, expiry) after replaying `log`.
pub open spec fn allowance_scan(
    log: Seq<Transaction>,
    owner: (Seq<u8>, Option<Seq<u8>>),
    spender: (Seq<u8>, Option<Seq<u8>>),
) -> (int, Option<u64>)
    decreases log.len(),
{
    if log.len() == 0 {
        (0, None)
    } else {
        allowance_step(allowance_scan(log.drop_last(), owner, spender), log.last(), owner, spender)
    }
}

/// The allowance of `spender` on `owner`'s funds at time `now`: the latest
/// approval, less the transfers made under it, and zero once expired.
pub open spec fn allowance_at(
    log: Seq<Transaction>,
    owner: (Seq<u8>, Option<Seq<u8>>),
    spender: (Seq<u8>, Option<Seq<u8>>),
    now: u64,
) -> (int, Option<u64>) {
    let s = allowance_scan(log, owner, spender);
    match s.1 {
        Some(e) => if e < now {
            (0, None)
        } else {
            s
        },
        None => s,
    }
}

} // verus!
