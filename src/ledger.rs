use vstd::prelude::*;

use crate::cache::{credit, credit_saturating, debit, lookup};
use crate::ledger_model::{
    allowance_at, allowance_scan, balance_delta, balance_in, burnt, cache_sum, cached,
    created_in_future, created_too_long_ago, duplicate_of, entry_well_formed, fee_amount,
    fees_charged, lemma_cached_le_sum, lemma_duplicate_of_extends, lemma_supply_push,
    lemma_two_cached_le_sum, memo_too_long, minted, replay_in_range, reports, request_matches,
    supply_delta, supply_of, unique_keys, verdict, Verdict, MAX_MEMO_SIZE,
    MEMO_TOO_LONG_ERROR_CODE, MISSING_PARTY_ERROR_CODE, PERMITTED_DRIFT_NANOS, SELF_TRANSFER_ERROR_CODE,
    SUPPLY_OVERFLOW_ERROR_CODE, TRANSACTION_WINDOW_NANOS,
};
use crate::token_types::{
    opt_account_equal, opt_account_view, Account, Allowance, ApproveArgs, ApproveError,
    BlockIndex, Configuration, CreateTokenArgs, MetadataValue, Operation, StakeTokenArgs,
    SupportedStandard, Tokens, Transaction, TransferArg, TransferError, TransferFromArgs,
    TransferFromError, TxInfo,
};
use crate::types::{opt_bytes_equal, opt_bytes_view, CacheKey, Principal};

verus! {

broadcast use vstd::string::to_string_from_display_ensures_for_str;

/// The token ledger: configuration, transaction log, balance cache, stake
/// cache and the supply that the log leaves.
pub struct LedgerService {
    pub config: Configuration,
    pub log: Vec<Transaction>,
    pub balances: Vec<(Account, Tokens)>,
    pub staked: Vec<(Principal, Tokens)>,
    pub supply: Tokens,
    /// The reserved account that holds staked tokens.
    pub stake_account: Account,
}

/// Whether a request sends its tokens to the stake account.
pub open spec fn stakes(req: TxInfo, stake_account: Account) -> bool {
    !req.is_approval && opt_account_view(req.to) == Some(stake_account@)
}

/// `old` plus `amount`, stopping at the largest amount.
pub open spec fn saturating_sum(old: int, amount: int) -> int {
    if old + amount > u128::MAX {
        u128::MAX as int
    } else {
        old + amount
    }
}

/// The effect of applying request `req` at `now`: an accepted request is
/// logged at the next index (crediting the stake cache where it stakes); a
/// rejected one is reported and changes nothing.
pub open spec fn applied(
    before: LedgerService,
    after: LedgerService,
    req: TxInfo,
    now: u64,
    r: Result<BlockIndex, TransferError>,
) -> bool {
    match before.verdict_on(req, now) {
        Verdict::Accept(e) => {
            &&& r == Ok::<BlockIndex, TransferError>(before.log@.len() as usize)
            &&& after.log@ == before.log@.push(e)
            &&& after.config == before.config
            &&& after.stake_account == before.stake_account
            &&& forall|p: Seq<u8>| #[trigger]
                cached(after.staked@, p) == if stakes(req, before.stake_account) && p
                    == req.from.owner@ {
                    saturating_sum(cached(before.staked@, p), req.amount as int)
                } else {
                    cached(before.staked@, p)
                }
        },
        v => {
            &&& r matches Err(e) && reports(e, v)
            &&& after == before
        },
    }
}

impl LedgerService {
    /// The caches agree with the log, and the log replays within range.
    pub open spec fn wf(&self) -> bool {
        &&& unique_keys(self.balances@)
        &&& forall|a| #[trigger] cached(self.balances@, a) == balance_in(self.log@, a)
        &&& cache_sum(self.balances@) == supply_of(self.log@)
        &&& self.supply == supply_of(self.log@)
        &&& replay_in_range(self.log@)
        &&& forall|i: int| 0 <= i < self.log@.len() ==> entry_well_formed(#[trigger] self.log@[i])
        &&& unique_keys(self.staked@)
    }

    /// The verdict on `req` at time `now`.
    pub open spec fn verdict_on(&self, req: TxInfo, now: u64) -> Verdict {
        verdict(self.log@, self.config.transfer_fee, self.config.minting_account, req, now)
    }

    /// Balance of `a` according to the log.
    pub open spec fn balance_spec(&self, a: (Seq<u8>, Option<Seq<u8>>)) -> int {
        balance_in(self.log@, a)
    }

    /// Index of the first logged entry that `req` repeats.
    fn find_tx(&self, req: &TxInfo) -> (r: Option<BlockIndex>)
        ensures
            match r {
                Some(i) => duplicate_of(self.log@, *req, self.config.minting_account) == Some(
                    i as int,
                ),
                None => duplicate_of(self.log@, *req, self.config.minting_account).is_none(),
            },
    {
        let ghost minting = self.config.minting_account;
        let mut i: usize = 0;
        while i < self.log.len()
            invariant
                0 <= i <= self.log@.len(),
                minting == self.config.minting_account,
                duplicate_of(self.log@.take(i as int), *req, minting).is_none(),
            decreases self.log.len() - i,
        {
            let found = tx_matches(req, &self.log[i], &self.config.minting_account);
            proof {
                let t = self.log@.take(i as int + 1);
                assert(t.drop_last() =~= self.log@.take(i as int));
                assert(t.last() == self.log@[i as int]);
            }
            if found {
                proof {
                    lemma_duplicate_of_extends(self.log@, *req, minting, i as int + 1);
                }
                return Some(i);
            }
            i = i + 1;
        }
        proof {
            assert(self.log@.take(i as int) =~= self.log@);
        }
        None
    }

    /// Appends an entry that keeps every balance and the supply in range,
    /// and brings the balance cache and the supply along.
    fn record(&mut self, entry: Transaction) -> (r: BlockIndex)
        requires
            old(self).wf(),
            entry_well_formed(entry),
            forall|a|
                0 <= #[trigger] balance_in(old(self).log@, a) + balance_delta(entry, a)
                    <= u128::MAX,
            0 <= supply_of(old(self).log@) + supply_delta(entry) <= u128::MAX,
        ensures
            final(self).wf(),
            r == old(self).log@.len(),
            final(self).log@ == old(self).log@.push(entry),
            final(self).config == old(self).config,
            final(self).staked == old(self).staked,
            final(self).stake_account == old(self).stake_account,
    {
        proof {
            lemma_supply_push(self.log@, entry);
        }
        apply_to_balances(&mut self.balances, &entry);
        let new_supply: u128 = match &entry.operation {
            Operation::Mint { amount, .. } => self.supply + *amount,
            Operation::Burn { amount, .. } => self.supply - *amount,
            Operation::Transfer { fee, .. } => match fee {
                Some(f) => self.supply - *f,
                None => self.supply,
            },
            Operation::Approve { fee, .. } => match fee {
                Some(f) => self.supply - *f,
                None => self.supply,
            },
        };
        self.supply = new_supply;
        let ghost old_log = self.log@;
        let idx = self.log.len();
        self.log.push(entry);
        proof {
            let log = self.log@;
            assert forall|n: int, a| 0 <= n <= log.len() implies 0 <= #[trigger] balance_in(
                log.take(n),
                a,
            ) <= u128::MAX by {
                if n <= old_log.len() {
                    assert(log.take(n) =~= old_log.take(n));
                } else {
                    assert(log.take(n) =~= log);
                }
            }
            assert forall|i: int| 0 <= i < log.len() implies entry_well_formed(
                #[trigger] log[i],
            ) by {
                if i < old_log.len() {
                    assert(log[i] == old_log[i]);
                }
            }
        }
        idx
    }

    /// Validates `tx` at ledger time `now`, logs the entry it yields and
    /// updates the caches; on a rejection nothing changes.
    pub fn apply_tx(&mut self, tx: TxInfo, now: u64) -> (r: Result<BlockIndex, TransferError>)
        requires
            old(self).wf(),
        ensures
            final(self).wf(),
            final(self).config == old(self).config,
            final(self).stake_account == old(self).stake_account,
            applied(*old(self), *final(self), tx, now, r),
    {
        let ghost v = self.verdict_on(tx, now);
        let ghost req = tx;
        let ghost log = self.log@;
        let fee = self.config.transfer_fee;
        // an approval names its spender, anything else its receiver
        let missing = if tx.is_approval {
            tx.spender.is_none()
        } else {
            tx.to.is_none()
        };
        if missing {
            return Err(
                TransferError::GenericError {
                    error_code: MISSING_PARTY_ERROR_CODE,
                    message: "Request names no counterparty".to_string(),
                },
            );
        }
        // 1. no transfer to oneself
        if let Some(to) = &tx.to {
            if to.same_as(&tx.from) {
                return Err(
                    TransferError::GenericError {
                        error_code: SELF_TRANSFER_ERROR_CODE,
                        message: "Cannot transfer to the same account".to_string(),
                    },
                );
            }
        }
        // 2. memo size
        if let Some(memo) = &tx.memo {
            if memo.len() > MAX_MEMO_SIZE {
                return Err(
                    TransferError::GenericError {
                        error_code: MEMO_TOO_LONG_ERROR_CODE,
                        message: "Memo too long".to_string(),
                    },
                );
            }
        }
        // 3. creation time within the window
        let window = validate_created_at_time(tx.created_at_time, now);
        if let Err(e) = window {
            return Err(e);
        }
        if tx.created_at_time.is_some() {
            // 4. deduplication
            if let Some(duplicate_of) = self.find_tx(&tx) {
                return Err(TransferError::Duplicate { duplicate_of });
            }
        }
        // 5. fee
        if let Some(specified) = tx.fee {
            if specified != fee {
                return Err(TransferError::BadFee { expected_fee: fee });
            }
        }
        let balance = lookup(&self.balances, &tx.from);
        let staking = !tx.is_approval && match &tx.to {
            Some(to) => to.same_as(&self.stake_account),
            None => false,
        };
        let owner = tx.from.owner.duplicate();
        let amount = tx.amount;
        let from_minting = match &self.config.minting_account {
            Some(m) => m.same_as(&tx.from),
            None => false,
        };
        let to_minting = match (&tx.to, &self.config.minting_account) {
            (Some(to), Some(m)) => to.same_as(m),
            _ => false,
        };
        proof {
            lemma_cached_le_sum(self.balances@, tx.from@);
        }
        // 6. classification
        let entry = if tx.is_approval {
            if balance < fee {
                return Err(TransferError::InsufficientFunds { balance });
            }
            Transaction {
                operation: Operation::Approve {
                    from: tx.from,
                    spender: tx.spender.unwrap(),
                    amount: tx.amount,
                    expected_allowance: tx.expected_allowance,
                    expires_at: tx.expires_at,
                    fee: Some(fee),
                },
                memo: tx.memo,
                created_at_time: tx.created_at_time,
                timestamp: now,
            }
        } else if from_minting {
            if tx.amount > u128::MAX - self.supply {
                return Err(
                    TransferError::GenericError {
                        error_code: SUPPLY_OVERFLOW_ERROR_CODE,
                        message: "Supply would overflow".to_string(),
                    },
                );
            }
            proof {
                lemma_cached_le_sum(self.balances@, tx.to.unwrap()@);
            }
            Transaction {
                operation: Operation::Mint { to: tx.to.unwrap(), amount: tx.amount },
                memo: tx.memo,
                created_at_time: tx.created_at_time,
                timestamp: now,
            }
        } else if to_minting {
            if tx.amount < fee {
                return Err(TransferError::BadBurn { min_burn_amount: fee });
            }
            if balance < tx.amount || balance - tx.amount < fee {
                return Err(TransferError::InsufficientFunds { balance });
            }
            Transaction {
                operation: Operation::Burn {
                    from: tx.from,
                    spender: tx.spender,
                    amount: tx.amount,
                },
                memo: tx.memo,
                created_at_time: tx.created_at_time,
                timestamp: now,
            }
        } else {
            if balance < tx.amount || balance - tx.amount < fee {
                return Err(TransferError::InsufficientFunds { balance });
            }
            proof {
                lemma_two_cached_le_sum(self.balances@, tx.from@, tx.to.unwrap()@);
            }
            Transaction {
                operation: Operation::Transfer {
                    from: tx.from,
                    to: tx.to.unwrap(),
                    spender: tx.spender,
                    amount: tx.amount,
                    fee: Some(fee),
                },
                memo: tx.memo,
                created_at_time: tx.created_at_time,
                timestamp: now,
            }
        };
        assert(v == Verdict::Accept(entry));
        proof {
            assert forall|a| 0 <= #[trigger] balance_in(log, a) + balance_delta(entry, a)
                <= u128::MAX by {
                lemma_cached_le_sum(self.balances@, a);
            }
        }
        // 7, 8. log the entry and update the balance cache
        let block = self.record(entry);
        // 9. stake
        if staking {
            credit_saturating(&mut self.staked, &owner, amount);
        }
        Ok(block)
    }
}

/// Checks that a creation time lies within `[now - window - drift, now + drift]`.
pub fn validate_created_at_time(created_at_time: Option<u64>, now: u64) -> (r: Result<
    (),
    TransferError,
>)
    ensures
        created_in_future(created_at_time, now) ==> r == Err::<(), TransferError>(
            TransferError::CreatedInFuture { ledger_time: now },
        ),
        !created_in_future(created_at_time, now) && created_too_long_ago(created_at_time, now)
            ==> r == Err::<(), TransferError>(TransferError::TooOld),
        !created_in_future(created_at_time, now) && !created_too_long_ago(created_at_time, now)
            ==> r == Ok::<(), TransferError>(()),
{
    if let Some(t) = created_at_time {
        if t > now && t - now > PERMITTED_DRIFT_NANOS {
            return Err(TransferError::CreatedInFuture { ledger_time: now });
        }
        if t < now && now - t > TRANSACTION_WINDOW_NANOS + PERMITTED_DRIFT_NANOS {
            return Err(TransferError::TooOld);
        }
    }
    Ok(())
}

/// Whether `req` repeats the logged entry `tx`.
fn tx_matches(req: &TxInfo, tx: &Transaction, minting: &Option<Account>) -> (r: bool)
    ensures
        r == request_matches(*req, *tx, *minting),
{
    let same_memo = opt_bytes_equal(&req.memo, &tx.memo);
    let same_time = match (req.created_at_time, tx.created_at_time) {
        (Some(a), Some(b)) => a == b,
        (None, None) => true,
        _ => false,
    };
    if req.is_approval {
        match &tx.operation {
            Operation::Approve { from, spender, amount, expected_allowance, expires_at, .. } => {
                let same_spender = match &req.spender {
                    Some(s) => s.same_as(spender),
                    None => false,
                };
                let same_expected = match (req.expected_allowance, *expected_allowance) {
                    (Some(a), Some(b)) => a == b,
                    (None, None) => true,
                    _ => false,
                };
                let same_expiry = match (req.expires_at, *expires_at) {
                    (Some(a), Some(b)) => a == b,
                    (None, None) => true,
                    _ => false,
                };
                req.from.same_as(from) && same_spender && req.amount == *amount && same_expected
                    && same_expiry && same_memo && same_time
            },
            _ => false,
        }
    } else {
        match &tx.operation {
            Operation::Burn { from, spender, amount } => {
                opt_account_equal(&req.to, minting) && req.from.same_as(from) && req.amount
                    == *amount && opt_account_equal(&req.spender, spender) && same_memo
                    && same_time
            },
            Operation::Mint { to, amount } => {
                let from_minting = match minting {
                    Some(m) => req.from.same_as(m),
                    None => false,
                };
                let same_to = match &req.to {
                    Some(t) => t.same_as(to),
                    None => false,
                };
                from_minting && same_to && req.amount == *amount && same_memo && same_time
            },
            Operation::Transfer { from, to, spender, amount, .. } => {
                let same_to = match &req.to {
                    Some(t) => t.same_as(to),
                    None => false,
                };
                req.from.same_as(from) && same_to && req.amount == *amount && opt_account_equal(
                    &req.spender,
                    spender,
                ) && same_memo && same_time
            },
            Operation::Approve { .. } => false,
        }
    }
}

/// Brings the balance cache along one log entry.
fn apply_to_balances(balances: &mut Vec<(Account, Tokens)>, tx: &Transaction)
    requires
        unique_keys(old(balances)@),
        entry_well_formed(*tx),
        forall|a| 0 <= #[trigger] cached(old(balances)@, a) + balance_delta(*tx, a) <= u128::MAX,
    ensures
        unique_keys(final(balances)@),
        forall|a| #[trigger]
            cached(final(balances)@, a) == cached(old(balances)@, a) + balance_delta(*tx, a),
        cache_sum(final(balances)@) == cache_sum(old(balances)@) + supply_delta(*tx),
{
    match &tx.operation {
        Operation::Mint { to, amount } => {
            assert(balance_delta(*tx, to@) == *amount);
            credit(balances, to, *amount);
        },
        Operation::Burn { from, amount, .. } => {
            assert(balance_delta(*tx, from@) == -*amount);
            debit(balances, from, *amount);
        },
        Operation::Transfer { from, to, amount, fee, .. } => {
            let ghost b0 = balances@;
            assert(balance_delta(*tx, from@) == -(*amount + fee_amount(*fee)));
            assert(balance_delta(*tx, to@) == *amount);
            debit(balances, from, *amount);
            if let Some(f) = fee {
                debit(balances, from, *f);
            }
            credit(balances, to, *amount);
        },
        Operation::Approve { from, fee, .. } => {
            if let Some(f) = fee {
                assert(balance_delta(*tx, from@) == -*f);
                debit(balances, from, *f);
            }
        },
    }
}

/// Initial supply where token creation is given no arguments.
pub const DEFAULT_INITIAL_SUPPLY: Tokens = 5_000_000_000_000;

pub const DEFAULT_TRANSFER_FEE: Tokens = 100;

pub const TOKEN_DECIMALS: u8 = 8;

/// The configuration of a ledger whose token does not exist.
pub open spec fn is_blank_config(c: Configuration) -> bool {
    &&& c.token_name@.len() == 0
    &&& c.token_symbol@.len() == 0
    &&& c.token_logo@.len() == 0
    &&& c.transfer_fee == 0
    &&& c.decimals == 0
    &&& c.minting_account.is_none()
    &&& !c.token_created
}

fn blank_config() -> (c: Configuration)
    ensures
        is_blank_config(c),
{
    Configuration {
        token_name: String::new(),
        token_symbol: String::new(),
        token_logo: String::new(),
        transfer_fee: 0,
        decimals: 0,
        minting_account: None,
        token_created: false,
    }
}

/// The request that a transfer by `caller` makes.
pub open spec fn transfer_request(caller: Principal, arg: TransferArg) -> TxInfo {
    TxInfo {
        from: Account { owner: caller, subaccount: arg.from_subaccount },
        to: Some(arg.to),
        amount: arg.amount,
        spender: None,
        memo: arg.memo,
        fee: arg.fee,
        created_at_time: arg.created_at_time,
        expected_allowance: None,
        expires_at: None,
        is_approval: false,
    }
}

/// The request that a stake by `caller` makes.
pub open spec fn stake_request(caller: Principal, arg: StakeTokenArgs, stake_account: Account) -> TxInfo {
    TxInfo {
        from: Account { owner: caller, subaccount: arg.from_subaccount },
        to: Some(stake_account),
        amount: arg.amount,
        spender: None,
        memo: None,
        fee: None,
        created_at_time: None,
        expected_allowance: None,
        expires_at: None,
        is_approval: false,
    }
}

/// The request that an approval by `caller` makes.
pub open spec fn approve_request(caller: Principal, arg: ApproveArgs) -> TxInfo {
    TxInfo {
        from: Account { owner: caller, subaccount: arg.from_subaccount },
        to: None,
        amount: arg.amount,
        spender: Some(arg.spender),
        memo: arg.memo,
        fee: arg.fee,
        created_at_time: arg.created_at_time,
        expected_allowance: arg.expected_allowance,
        expires_at: arg.expires_at,
        is_approval: true,
    }
}

/// The request that a transfer by spender `caller` on `arg.from`'s behalf makes.
pub open spec fn transfer_from_request(caller: Principal, arg: TransferFromArgs) -> TxInfo {
    TxInfo {
        from: arg.from,
        to: Some(arg.to),
        amount: arg.amount,
        spender: Some(Account { owner: caller, subaccount: arg.spender_subaccount }),
        memo: arg.memo,
        fee: arg.fee,
        created_at_time: arg.created_at_time,
        expected_allowance: None,
        expires_at: None,
        is_approval: false,
    }
}

/// The approval error that reports a transfer error; a burn's errors have none.
pub open spec fn approve_error_of(e: TransferError) -> ApproveError {
    match e {
        TransferError::BadFee { expected_fee } => ApproveError::BadFee { expected_fee },
        TransferError::TooOld => ApproveError::TooOld,
        TransferError::CreatedInFuture { ledger_time } => ApproveError::CreatedInFuture {
            ledger_time,
        },
        TransferError::TemporarilyUnavailable => ApproveError::TemporarilyUnavailable,
        TransferError::Duplicate { duplicate_of } => ApproveError::Duplicate { duplicate_of },
        TransferError::GenericError { error_code, message } => ApproveError::GenericError {
            error_code,
            message,
        },
        TransferError::InsufficientFunds { balance } => ApproveError::InsufficientFunds { balance },
        TransferError::BadBurn { .. } => ApproveError::TemporarilyUnavailable,
    }
}

/// Maps a transfer error onto the approval error that reports it.
pub fn to_approve_error(err: TransferError) -> (r: ApproveError)
    requires
        !(err is BadBurn),
    ensures
        r == approve_error_of(err),
{
    match err {
        TransferError::BadFee { expected_fee } => ApproveError::BadFee { expected_fee },
        TransferError::TooOld => ApproveError::TooOld,
        TransferError::CreatedInFuture { ledger_time } => ApproveError::CreatedInFuture {
            ledger_time,
        },
        TransferError::TemporarilyUnavailable => ApproveError::TemporarilyUnavailable,
        TransferError::Duplicate { duplicate_of } => ApproveError::Duplicate { duplicate_of },
        TransferError::GenericError { error_code, message } => ApproveError::GenericError {
            error_code,
            message,
        },
        TransferError::InsufficientFunds { balance } => ApproveError::InsufficientFunds { balance },
        TransferError::BadBurn { .. } => ApproveError::TemporarilyUnavailable,
    }
}

/// The transfer-from error that reports a transfer error.
pub open spec fn transfer_from_error_of(e: TransferError) -> TransferFromError {
    match e {
        TransferError::BadFee { expected_fee } => TransferFromError::BadFee { expected_fee },
        TransferError::TooOld => TransferFromError::TooOld,
        TransferError::CreatedInFuture { ledger_time } => TransferFromError::CreatedInFuture {
            ledger_time,
        },
        TransferError::TemporarilyUnavailable => TransferFromError::TemporarilyUnavailable,
        TransferError::Duplicate { duplicate_of } => TransferFromError::Duplicate { duplicate_of },
        TransferError::GenericError { error_code, message } => TransferFromError::GenericError {
            error_code,
            message,
        },
        TransferError::InsufficientFunds { balance } => TransferFromError::InsufficientFunds {
            balance,
        },
        TransferError::BadBurn { min_burn_amount } => TransferFromError::BadBurn {
            min_burn_amount,
        },
    }
}

/// Maps a transfer error onto the transfer-from error that reports it.
pub fn to_transfer_from_error(err: TransferError) -> (r: TransferFromError)
    ensures
        r == transfer_from_error_of(err),
{
    match err {
        TransferError::BadFee { expected_fee } => TransferFromError::BadFee { expected_fee },
        TransferError::TooOld => TransferFromError::TooOld,
        TransferError::CreatedInFuture { ledger_time } => TransferFromError::CreatedInFuture {
            ledger_time,
        },
        TransferError::TemporarilyUnavailable => TransferFromError::TemporarilyUnavailable,
        TransferError::Duplicate { duplicate_of } => TransferFromError::Duplicate { duplicate_of },
        TransferError::GenericError { error_code, message } => TransferFromError::GenericError {
            error_code,
            message,
        },
        TransferError::InsufficientFunds { balance } => TransferFromError::InsufficientFunds {
            balance,
        },
        TransferError::BadBurn { min_burn_amount } => TransferFromError::BadBurn {
            min_burn_amount,
        },
    }
}

impl LedgerService {
    /// An empty ledger, with no token, whose stakes go to `stake_account`.
    pub fn new(stake_account: Account) -> (r: LedgerService)
        ensures
            r.wf(),
            r.log@.len() == 0,
            r.balances@.len() == 0,
            r.staked@.len() == 0,
            is_blank_config(r.config),
            r.stake_account == stake_account,
    {
        let r = LedgerService {
            config: blank_config(),
            log: Vec::new(),
            balances: Vec::new(),
            staked: Vec::new(),
            supply: 0,
            stake_account,
        };
        proof {
            assert forall|n: int, a| 0 <= n <= r.log@.len() implies 0 <= #[trigger] balance_in(
                r.log@.take(n),
                a,
            ) <= u128::MAX by {
                assert(r.log@.take(n).len() == 0);
            }
        }
        r
    }

    /// The cached balance of `account`.
    pub fn balance_of(&self, account: &Account) -> (r: Tokens)
        requires
            self.wf(),
        ensures
            r == balance_in(self.log@, account@),
    {
        lookup(&self.balances, account)
    }

    /// Tokens in circulation: minted, less burnt, less fees charged.
    pub fn total_supply(&self) -> (r: Tokens)
        requires
            self.wf(),
        ensures
            r == minted(self.log@) - burnt(self.log@) - fees_charged(self.log@),
    {
        self.supply
    }

    /// Tokens that the owner of `account` has staked.
    pub fn locked_balance_of(&self, account: &Account) -> (r: Tokens)
        requires
            self.wf(),
        ensures
            r == cached(self.staked@, account.owner@),
    {
        lookup(&self.staked, &account.owner)
    }

    /// Clears the balance cache and replays the whole log into it.
    pub fn rebuild_balances_cache(&mut self)
        requires
            old(self).wf(),
        ensures
            final(self).wf(),
            final(self).log == old(self).log,
            final(self).config == old(self).config,
            final(self).staked == old(self).staked,
            final(self).stake_account == old(self).stake_account,
            forall|a| #[trigger]
                cached(final(self).balances@, a) == cached(old(self).balances@, a),
    {
        let ghost before = self.balances@;
        let mut balances: Vec<(Account, Tokens)> = Vec::new();
        let mut i: usize = 0;
        proof {
            assert(self.log@.take(0).len() == 0);
        }
        while i < self.log.len()
            invariant
                0 <= i <= self.log@.len(),
                self.wf(),
                unique_keys(balances@),
                forall|a| #[trigger]
                    cached(balances@, a) == balance_in(self.log@.take(i as int), a),
                cache_sum(balances@) == supply_of(self.log@.take(i as int)),
            decreases self.log.len() - i,
        {
            let ghost prefix = self.log@.take(i as int);
            proof {
                assert(self.log@.take(i as int + 1) =~= prefix.push(self.log@[i as int]));
                lemma_supply_push(prefix, self.log@[i as int]);
                assert(entry_well_formed(self.log@[i as int]));
                assert forall|a| 0 <= #[trigger] cached(balances@, a) + balance_delta(
                    self.log@[i as int],
                    a,
                ) <= u128::MAX by {
                    assert(0 <= balance_in(self.log@.take(i as int + 1), a) <= u128::MAX);
                }
            }
            apply_to_balances(&mut balances, &self.log[i]);
            i = i + 1;
        }
        proof {
            assert(self.log@.take(i as int) =~= self.log@);
        }
        self.balances = balances;
    }

    /// The allowance of `spender` on `account`'s funds at time `now`.
    pub fn allowance(&self, account: &Account, spender: &Account, now: u64) -> (r: Allowance)
        ensures
            r.allowance == allowance_at(self.log@, account@, spender@, now).0,
            r.expires_at == allowance_at(self.log@, account@, spender@, now).1,
    {
        let mut allowance: Tokens = 0;
        let mut expiry: Option<u64> = None;
        let mut i: usize = 0;
        while i < self.log.len()
            invariant
                0 <= i <= self.log@.len(),
                (allowance as int, expiry) == allowance_scan(
                    self.log@.take(i as int),
                    account@,
                    spender@,
                ),
            decreases self.log.len() - i,
        {
            proof {
                assert(self.log@.take(i as int + 1).drop_last() =~= self.log@.take(i as int));
            }
            let tx = &self.log[i];
            if let Some(e) = expiry {
                if e < tx.timestamp {
                    allowance = 0;
                    expiry = None;
                }
            }
            match &tx.operation {
                Operation::Approve { from, spender: s, amount, expires_at, .. } => {
                    if from.same_as(account) && s.same_as(spender) {
                        allowance = *amount;
                        expiry = *expires_at;
                    }
                },
                Operation::Transfer { from, spender: Some(s), amount, fee, .. } => {
                    if from.same_as(account) && s.same_as(spender) {
                        allowance = allowance.saturating_sub(*amount);
                        if let Some(f) = fee {
                            allowance = allowance.saturating_sub(*f);
                        }
                    }
                },
                _ => {},
            }
            i = i + 1;
        }
        proof {
            assert(self.log@.take(i as int) =~= self.log@);
        }
        if let Some(e) = expiry {
            if e < now {
                allowance = 0;
                expiry = None;
            }
        }
        Allowance { allowance, expires_at: expiry }
    }

    /// A transfer from `caller`'s account.
    pub fn transfer(&mut self, caller: Principal, arg: TransferArg, now: u64) -> (r: Result<
        BlockIndex,
        TransferError,
    >)
        requires
            old(self).wf(),
        ensures
            final(self).wf(),
            final(self).config == old(self).config,
            applied(*old(self), *final(self), transfer_request(caller, arg), now, r),
    {
        let tx = TxInfo {
            from: Account { owner: caller, subaccount: arg.from_subaccount },
            to: Some(arg.to),
            amount: arg.amount,
            spender: None,
            memo: arg.memo,
            fee: arg.fee,
            created_at_time: arg.created_at_time,
            expected_allowance: None,
            expires_at: None,
            is_approval: false,
        };
        self.apply_tx(tx, now)
    }

    /// Moves `arg.amount` of `caller`'s tokens to the stake account.
    pub fn stake(&mut self, caller: Principal, arg: StakeTokenArgs, now: u64) -> (r: Result<
        BlockIndex,
        TransferError,
    >)
        requires
            old(self).wf(),
        ensures
            final(self).wf(),
            final(self).config == old(self).config,
            exists|to: Account|
                to@ == old(self).stake_account@ && #[trigger] applied(
                    *old(self),
                    *final(self),
                    stake_request(caller, arg, to),
                    now,
                    r,
                ),
    {
        let to = self.stake_account.duplicate();
        let tx = TxInfo {
            from: Account { owner: caller, subaccount: arg.from_subaccount },
            to: Some(to),
            amount: arg.amount,
            spender: None,
            memo: None,
            fee: None,
            created_at_time: None,
            expected_allowance: None,
            expires_at: None,
            is_approval: false,
        };
        assert(tx == stake_request(caller, arg, to));
        self.apply_tx(tx, now)
    }
}

/// The approval result that reports a transfer result.
pub open spec fn approve_result_of(r: Result<BlockIndex, TransferError>) -> Result<
    BlockIndex,
    ApproveError,
> {
    match r {
        Ok(b) => Ok(b),
        Err(e) => Err(approve_error_of(e)),
    }
}

/// The transfer-from result that reports a transfer result.
pub open spec fn transfer_from_result_of(r: Result<BlockIndex, TransferError>) -> Result<
    BlockIndex,
    TransferFromError,
> {
    match r {
        Ok(b) => Ok(b),
        Err(e) => Err(transfer_from_error_of(e)),
    }
}

/// The request of a transfer-from that the owner makes itself.
pub open spec fn own_transfer_request(arg: TransferFromArgs) -> TxInfo {
    TxInfo {
        from: arg.from,
        to: Some(arg.to),
        amount: arg.amount,
        spender: None,
        memo: arg.memo,
        fee: arg.fee,
        created_at_time: arg.created_at_time,
        expected_allowance: None,
        expires_at: None,
        is_approval: false,
    }
}

/// The initial supply and fee that token creation uses.
pub open spec fn creation_supply(args: Option<CreateTokenArgs>) -> Tokens {
    match args {
        Some(a) => a.initial_supply,
        None => DEFAULT_INITIAL_SUPPLY,
    }
}

pub open spec fn creation_fee(args: Option<CreateTokenArgs>) -> Tokens {
    match args {
        Some(a) => a.transfer_fee,
        None => DEFAULT_TRANSFER_FEE,
    }
}

pub open spec fn err_says(r: Result<String, String>, msg: Seq<char>) -> bool {
    r matches Err(s) && s@ == msg
}

pub open spec fn ok_says(r: Result<String, String>, msg: Seq<char>) -> bool {
    r matches Ok(s) && s@ == msg
}

impl LedgerService {
    /// An approval by `caller` of `arg.spender`.
    pub fn approve(&mut self, caller: Principal, arg: ApproveArgs, now: u64) -> (r: Result<
        BlockIndex,
        ApproveError,
    >)
        requires
            old(self).wf(),
        ensures
            final(self).wf(),
            final(self).config == old(self).config,
            memo_too_long(arg.memo) ==> {
                &&& r matches Err(ApproveError::GenericError { error_code, message })
                &&& error_code == MEMO_TOO_LONG_ERROR_CODE
                &&& message@ == "Memo too long"@
                &&& *final(self) == *old(self)
            },
            !memo_too_long(arg.memo) && arg.expected_allowance.is_some()
                && arg.expected_allowance.unwrap() != allowance_at(
                old(self).log@,
                (caller@, opt_bytes_view(arg.from_subaccount)),
                arg.spender@,
                now,
            ).0 ==> {
                &&& r == Err::<BlockIndex, ApproveError>(
                    ApproveError::AllowanceChanged {
                        current_allowance: allowance_at(
                            old(self).log@,
                            (caller@, opt_bytes_view(arg.from_subaccount)),
                            arg.spender@,
                            now,
                        ).0 as u128,
                    },
                )
                &&& *final(self) == *old(self)
            },
            !memo_too_long(arg.memo) && (arg.expected_allowance.is_none()
                || arg.expected_allowance.unwrap() == allowance_at(
                old(self).log@,
                (caller@, opt_bytes_view(arg.from_subaccount)),
                arg.spender@,
                now,
            ).0) ==> exists|t: Result<BlockIndex, TransferError>|
                #[trigger] applied(*old(self), *final(self), approve_request(caller, arg), now, t)
                    && r == approve_result_of(t),
    {
        if let Some(memo) = &arg.memo {
            if memo.len() > MAX_MEMO_SIZE {
                return Err(
                    ApproveError::GenericError {
                        error_code: MEMO_TOO_LONG_ERROR_CODE,
                        message: "Memo too long".to_string(),
                    },
                );
            }
        }
        let approver = Account { owner: caller, subaccount: arg.from_subaccount };
        if let Some(expected) = arg.expected_allowance {
            let current = self.allowance(&approver, &arg.spender, now).allowance;
            if current != expected {
                return Err(ApproveError::AllowanceChanged { current_allowance: current });
            }
        }
        let tx = TxInfo {
            from: approver,
            to: None,
            amount: arg.amount,
            spender: Some(arg.spender),
            memo: arg.memo,
            fee: arg.fee,
            created_at_time: arg.created_at_time,
            expected_allowance: arg.expected_allowance,
            expires_at: arg.expires_at,
            is_approval: true,
        };
        let ghost req = tx;
        assert(req == approve_request(caller, arg));
        let result = self.apply_tx(tx, now);
        match result {
            Ok(b) => Ok(b),
            Err(e) => Err(to_approve_error(e)),
        }
    }

    /// A transfer by `caller` from `arg.from`'s funds, under an approval
    /// unless `caller` owns them.
    pub fn transfer_from(&mut self, caller: Principal, arg: TransferFromArgs, now: u64) -> (r:
        Result<BlockIndex, TransferFromError>)
        requires
            old(self).wf(),
        ensures
            final(self).wf(),
            final(self).config == old(self).config,
            caller@ == arg.from.owner@ ==> exists|t: Result<BlockIndex, TransferError>|
                #[trigger] applied(*old(self), *final(self), own_transfer_request(arg), now, t)
                    && r == transfer_from_result_of(t),
            caller@ != arg.from.owner@ && memo_too_long(arg.memo) ==> {
                &&& r matches Err(TransferFromError::GenericError { error_code, message })
                &&& error_code == MEMO_TOO_LONG_ERROR_CODE
                &&& message@ == "Memo too long"@
                &&& *final(self) == *old(self)
            },
            caller@ != arg.from.owner@ && !memo_too_long(arg.memo) && allowance_at(
                old(self).log@,
                arg.from@,
                (caller@, opt_bytes_view(arg.spender_subaccount)),
                now,
            ).0 < arg.amount + old(self).config.transfer_fee ==> {
                &&& r == Err::<BlockIndex, TransferFromError>(
                    TransferFromError::InsufficientAllowance {
                        allowance: allowance_at(
                            old(self).log@,
                            arg.from@,
                            (caller@, opt_bytes_view(arg.spender_subaccount)),
                            now,
                        ).0 as u128,
                    },
                )
                &&& *final(self) == *old(self)
            },
            caller@ != arg.from.owner@ && !memo_too_long(arg.memo) && allowance_at(
                old(self).log@,
                arg.from@,
                (caller@, opt_bytes_view(arg.spender_subaccount)),
                now,
            ).0 >= arg.amount + old(self).config.transfer_fee ==> exists|
                t: Result<BlockIndex, TransferError>,
            |
                #[trigger] applied(
                    *old(self),
                    *final(self),
                    transfer_from_request(caller, arg),
                    now,
                    t,
                ) && r == transfer_from_result_of(t),
    {
        if caller.same_as(&arg.from.owner) {
            let tx = TxInfo {
                from: arg.from,
                to: Some(arg.to),
                amount: arg.amount,
                spender: None,
                memo: arg.memo,
                fee: arg.fee,
                created_at_time: arg.created_at_time,
                expected_allowance: None,
                expires_at: None,
                is_approval: false,
            };
            let ghost req = tx;
            assert(req == own_transfer_request(arg));
            let result = self.apply_tx(tx, now);
            return match result {
                Ok(b) => Ok(b),
                Err(e) => Err(to_transfer_from_error(e)),
            };
        }
        if let Some(memo) = &arg.memo {
            if memo.len() > MAX_MEMO_SIZE {
                return Err(
                    TransferFromError::GenericError {
                        error_code: MEMO_TOO_LONG_ERROR_CODE,
                        message: "Memo too long".to_string(),
                    },
                );
            }
        }
        let spender = Account { owner: caller, subaccount: arg.spender_subaccount };
        let allowance = self.allowance(&arg.from, &spender, now).allowance;
        let fee = self.config.transfer_fee;
        if allowance < arg.amount || allowance - arg.amount < fee {
            return Err(TransferFromError::InsufficientAllowance { allowance });
        }
        let tx = TxInfo {
            from: arg.from,
            to: Some(arg.to),
            amount: arg.amount,
            spender: Some(spender),
            memo: arg.memo,
            fee: arg.fee,
            created_at_time: arg.created_at_time,
            expected_allowance: None,
            expires_at: None,
            is_approval: false,
        };
        let ghost req = tx;
        assert(req == transfer_from_request(caller, arg));
        let result = self.apply_tx(tx, now);
        match result {
            Ok(b) => Ok(b),
            Err(e) => Err(to_transfer_from_error(e)),
        }
    }

    /// Creates the token, once, for an authorized caller: sets the
    /// configuration and mints the initial supply to the caller, who becomes
    /// the minting account.
    pub fn create_token(
        &mut self,
        authorized: bool,
        caller: Principal,
        args: Option<CreateTokenArgs>,
        now: u64,
    ) -> (r: Result<String, String>)
        requires
            old(self).wf(),
        ensures
            final(self).wf(),
            !authorized ==> err_says(r, "Unauthorized operation"@) && *final(self) == *old(self),
            authorized && old(self).config.token_created ==> err_says(r, "Token already created"@)
                && *final(self) == *old(self),
            authorized && !old(self).config.token_created && supply_of(old(self).log@)
                + creation_supply(args) > u128::MAX ==> err_says(
                r,
                "Initial supply exceeds the largest supply"@,
            ) && *final(self) == *old(self),
            authorized && !old(self).config.token_created && supply_of(old(self).log@)
                + creation_supply(args) <= u128::MAX ==> {
                &&& ok_says(r, "Token created"@)
                &&& final(self).config.token_created
                &&& final(self).config.transfer_fee == creation_fee(args)
                &&& final(self).config.token_name@ == match args {
                    Some(a) => a.token_name@,
                    None => "TOIC"@,
                }
                &&& final(self).config.token_symbol@ == match args {
                    Some(a) => a.token_symbol@,
                    None => "TOIC"@,
                }
                &&& final(self).config.token_logo@ == match args {
                    Some(a) => a.token_logo@,
                    None => Seq::<char>::empty(),
                }
                &&& final(self).log@.last().memo.is_none()
                &&& final(self).log@.last().created_at_time.is_none()
                &&& final(self).log@.last().timestamp == now
                &&& final(self).config.decimals == TOKEN_DECIMALS
                &&& opt_account_view(final(self).config.minting_account) == Some(
                    (caller@, None::<Seq<u8>>),
                )
                &&& final(self).log@.len() == old(self).log@.len() + 1
                &&& final(self).log@.drop_last() == old(self).log@
                &&& final(self).log@.last().operation matches Operation::Mint { to, amount }
                    && to@ == (caller@, None::<Seq<u8>>) && amount == creation_supply(args)
                &&& final(self).staked == old(self).staked
            },
    {
        if !authorized {
            return Err("Unauthorized operation".to_string());
        }
        if self.config.token_created {
            return Err("Token already created".to_string());
        }
        let args = match args {
            Some(a) => a,
            None => CreateTokenArgs {
                token_name: "TOIC".to_string(),
                token_symbol: "TOIC".to_string(),
                token_logo: String::new(),
                initial_supply: DEFAULT_INITIAL_SUPPLY,
                transfer_fee: DEFAULT_TRANSFER_FEE,
            },
        };
        if args.initial_supply > u128::MAX - self.supply {
            return Err("Initial supply exceeds the largest supply".to_string());
        }
        let minting_account = Account { owner: caller, subaccount: None };
        let to = minting_account.duplicate();
        let entry = Transaction {
            operation: Operation::Mint { to, amount: args.initial_supply },
            memo: None,
            created_at_time: None,
            timestamp: now,
        };
        proof {
            lemma_supply_push(self.log@, entry);
            assert forall|a| 0 <= #[trigger] balance_in(self.log@, a) + balance_delta(entry, a)
                <= u128::MAX by {
                lemma_cached_le_sum(self.balances@, a);
            }
        }
        let ghost old_log = self.log@;
        self.record(entry);
        proof {
            assert(self.log@.drop_last() =~= old_log);
        }
        self.config = Configuration {
            token_name: args.token_name,
            token_symbol: args.token_symbol,
            token_logo: args.token_logo,
            transfer_fee: args.transfer_fee,
            decimals: TOKEN_DECIMALS,
            minting_account: Some(minting_account),
            token_created: true,
        };
        Ok("Token created".to_string())
    }

    /// Deletes the token for its authorized creator: clears the
    /// configuration, the log and the balance cache.
    pub fn delete_token(&mut self, authorized: bool, caller: Principal) -> (r: Result<
        String,
        String,
    >)
        requires
            old(self).wf(),
        ensures
            final(self).wf(),
            !authorized ==> err_says(r, "Unauthorized operation"@) && *final(self) == *old(self),
            authorized && !old(self).config.token_created ==> err_says(r, "Token not created"@)
                && *final(self) == *old(self),
            authorized && old(self).config.token_created && !(
            old(self).config.minting_account matches Some(m) && m.owner@ == caller@) ==> err_says(
                r,
                "Caller is not the token creator"@,
            ) && *final(self) == *old(self),
            authorized && old(self).config.token_created && (
            old(self).config.minting_account matches Some(m) && m.owner@ == caller@) ==> {
                &&& ok_says(r, "Token deleted"@)
                &&& is_blank_config(final(self).config)
                &&& final(self).log@.len() == 0
                &&& final(self).balances@.len() == 0
                &&& final(self).staked == old(self).staked
                &&& final(self).stake_account == old(self).stake_account
            },
    {
        if !authorized {
            return Err("Unauthorized operation".to_string());
        }
        if !self.config.token_created {
            return Err("Token not created".to_string());
        }
        let is_creator = match &self.config.minting_account {
            Some(m) => m.owner.same_as(&caller),
            None => false,
        };
        if !is_creator {
            return Err("Caller is not the token creator".to_string());
        }
        self.config = blank_config();
        self.log = Vec::new();
        self.balances = Vec::new();
        self.supply = 0;
        proof {
            assert forall|n: int, a| 0 <= n <= self.log@.len() implies 0 <= #[trigger] balance_in(
                self.log@.take(n),
                a,
            ) <= u128::MAX by {
                assert(self.log@.take(n).len() == 0);
            }
        }
        Ok("Token deleted".to_string())
    }

    /// Whether the token exists.
    pub fn token_created(&self) -> (r: bool)
        ensures
            r == self.config.token_created,
    {
        self.config.token_created
    }

    pub fn name(&self) -> (r: String)
        ensures
            r == self.config.token_name,
    {
        self.config.token_name.clone()
    }

    pub fn symbol(&self) -> (r: String)
        ensures
            r == self.config.token_symbol,
    {
        self.config.token_symbol.clone()
    }

    pub fn decimals(&self) -> (r: u8)
        ensures
            r == self.config.decimals,
    {
        self.config.decimals
    }

    pub fn fee(&self) -> (r: Tokens)
        ensures
            r == self.config.transfer_fee,
    {
        self.config.transfer_fee
    }

    pub fn minting_account(&self) -> (r: Option<Account>)
        ensures
            opt_account_view(r) == opt_account_view(self.config.minting_account),
    {
        match &self.config.minting_account {
            Some(m) => Some(m.duplicate()),
            None => None,
        }
    }

    /// The token's metadata: name, symbol, decimals, fee and logo.
    pub fn metadata(&self) -> (r: Vec<(String, MetadataValue)>)
        ensures
            r@.len() == 5,
            r@[0].0@ == "icrc1:name"@ && r@[0].1 == MetadataValue::Text(self.config.token_name),
            r@[1].0@ == "icrc1:symbol"@ && r@[1].1 == MetadataValue::Text(
                self.config.token_symbol,
            ),
            r@[2].0@ == "icrc1:decimals"@ && r@[2].1 == MetadataValue::Nat(
                self.config.decimals as u128,
            ),
            r@[3].0@ == "icrc1:fee"@ && r@[3].1 == MetadataValue::Nat(self.config.transfer_fee),
            r@[4].0@ == "icrc1:logo"@ && r@[4].1 == MetadataValue::Text(self.config.token_logo),
    {
        let mut r: Vec<(String, MetadataValue)> = Vec::new();
        r.push(("icrc1:name".to_string(), MetadataValue::Text(self.name())));
        r.push(("icrc1:symbol".to_string(), MetadataValue::Text(self.symbol())));
        r.push(("icrc1:decimals".to_string(), MetadataValue::Nat(self.decimals() as u128)));
        r.push(("icrc1:fee".to_string(), MetadataValue::Nat(self.fee())));
        r.push(("icrc1:logo".to_string(), MetadataValue::Text(self.config.token_logo.clone())));
        r
    }
}

/// The token standards that the ledger implements.
pub fn supported_standards() -> (r: Vec<SupportedStandard>)
    ensures
        r@.len() == 2,
        r@[0].name@ == "ICRC-1"@,
        r@[1].name@ == "ICRC-2"@,
{
    let mut r: Vec<SupportedStandard> = Vec::new();
    r.push(
        SupportedStandard {
            name: "ICRC-1".to_string(),
            url: "https://github.com/dfinity/ICRC-1/tree/main/standards/ICRC-1".to_string(),
        },
    );
    r.push(
        SupportedStandard {
            name: "ICRC-2".to_string(),
            url: "https://github.com/dfinity/ICRC-1/tree/main/standards/ICRC-2".to_string(),
        },
    );
    r
}

} // verus!
