use vstd::prelude::*;

use crate::types::{copy_opt_bytes, opt_bytes_equal, opt_bytes_view, CacheKey, Principal};

verus! {

/// Token amounts.
pub type Tokens = u128;

/// Position of an entry in the transaction log.
pub type BlockIndex = usize;

/// A ledger account: an owner and an optional sub-identifier.
#[derive(Debug, Clone, PartialEq, Eq, PartialOrd, Ord, Hash)]
pub struct Account {
    pub owner: Principal,
    pub subaccount: Option<Vec<u8>>,
}

impl View for Account {
    type V = (Seq<u8>, Option<Seq<u8>>);

    open spec fn view(&self) -> (Seq<u8>, Option<Seq<u8>>) {
        (self.owner@, opt_bytes_view(self.subaccount))
    }
}

impl CacheKey for Account {
    fn same_as(&self, other: &Self) -> (r: bool) {
        self.owner.same_as(&other.owner) && opt_bytes_equal(&self.subaccount, &other.subaccount)
    }

    fn duplicate(&self) -> (r: Self) {
        Account { owner: self.owner.duplicate(), subaccount: copy_opt_bytes(&self.subaccount) }
    }
}

pub open spec fn opt_account_view(a: Option<Account>) -> Option<(Seq<u8>, Option<Seq<u8>>)> {
    match a {
        Some(x) => Some(x@),
        None => None,
    }
}

/// Equality of two optional accounts.
pub fn opt_account_equal(a: &Option<Account>, b: &Option<Account>) -> (r: bool)
    ensures
        r == (opt_account_view(*a) == opt_account_view(*b)),
{
    match (a, b) {
        (Some(x), Some(y)) => x.same_as(y),
        (None, None) => true,
        _ => false,
    }
}

/// What one log entry does.
#[derive(Debug)]
pub enum Operation {
    Mint { to: Account, amount: Tokens },
    Burn { from: Account, spender: Option<Account>, amount: Tokens },
    Transfer {
        from: Account,
        to: Account,
        spender: Option<Account>,
        amount: Tokens,
        fee: Option<Tokens>,
    },
    Approve {
        from: Account,
        spender: Account,
        amount: Tokens,
        expected_allowance: Option<Tokens>,
        expires_at: Option<u64>,
        fee: Option<Tokens>,
    },
}

/// An entry of the transaction log.
#[derive(Debug)]
pub struct Transaction {
    pub operation: Operation,
    pub memo: Option<Vec<u8>>,
    pub created_at_time: Option<u64>,
    /// Ledger time at which the entry was recorded.
    pub timestamp: u64,
}

/// A request to move, create, destroy or approve tokens, before validation.
#[derive(Debug)]
pub struct TxInfo {
    pub from: Account,
    pub to: Option<Account>,
    pub amount: Tokens,
    pub spender: Option<Account>,
    pub memo: Option<Vec<u8>>,
    pub fee: Option<Tokens>,
    pub created_at_time: Option<u64>,
    pub expected_allowance: Option<Tokens>,
    pub expires_at: Option<u64>,
    pub is_approval: bool,
}

/// Why a transfer was rejected.
#[derive(Debug, Clone, PartialEq, Eq)]
pub enum TransferError {
    BadFee { expected_fee: Tokens },
    BadBurn { min_burn_amount: Tokens },
    InsufficientFunds { balance: Tokens },
    TooOld,
    CreatedInFuture { ledger_time: u64 },
    TemporarilyUnavailable,
    Duplicate { duplicate_of: BlockIndex },
    GenericError { error_code: u64, message: String },
}

/// Why an approval was rejected.
#[derive(Debug, Clone, PartialEq, Eq)]
pub enum ApproveError {
    BadFee { expected_fee: Tokens },
    InsufficientFunds { balance: Tokens },
    AllowanceChanged { current_allowance: Tokens },
    Expired { ledger_time: u64 },
    TooOld,
    CreatedInFuture { ledger_time: u64 },
    Duplicate { duplicate_of: BlockIndex },
    TemporarilyUnavailable,
    GenericError { error_code: u64, message: String },
}

/// Why a transfer on an owner's behalf was rejected.
#[derive(Debug, Clone, PartialEq, Eq)]
pub enum TransferFromError {
    BadFee { expected_fee: Tokens },
    BadBurn { min_burn_amount: Tokens },
    InsufficientFunds { balance: Tokens },
    InsufficientAllowance { allowance: Tokens },
    TooOld,
    CreatedInFuture { ledger_time: u64 },
    Duplicate { duplicate_of: BlockIndex },
    TemporarilyUnavailable,
    GenericError { error_code: u64, message: String },
}

/// The token's configuration singleton.
#[derive(Debug)]
pub struct Configuration {
    pub token_name: String,
    pub token_symbol: String,
    pub token_logo: String,
    pub transfer_fee: Tokens,
    pub decimals: u8,
    pub minting_account: Option<Account>,
    pub token_created: bool,
}

/// What a spender may still move from an owner's account.
#[derive(Debug, Clone, PartialEq, Eq)]
pub struct Allowance {
    pub allowance: Tokens,
    pub expires_at: Option<u64>,
}

/// A value of the token's metadata.
#[derive(Debug, Clone, PartialEq, Eq)]
pub enum MetadataValue {
    Nat(Tokens),
    Text(String),
}

/// A token standard that the ledger implements.
#[derive(Debug, Clone, PartialEq, Eq)]
pub struct SupportedStandard {
    pub name: String,
    pub url: String,
}

/// Arguments of token creation.
#[derive(Debug, Clone)]
pub struct CreateTokenArgs {
    pub token_name: String,
    pub token_symbol: String,
    pub initial_supply: Tokens,
    pub token_logo: String,
    pub transfer_fee: Tokens,
}

/// Arguments of a transfer by the caller.
#[derive(Debug)]
pub struct TransferArg {
    pub from_subaccount: Option<Vec<u8>>,
    pub to: Account,
    pub amount: Tokens,
    pub fee: Option<Tokens>,
    pub memo: Option<Vec<u8>>,
    pub created_at_time: Option<u64>,
}

/// Arguments of an approval by the caller.
#[derive(Debug)]
pub struct ApproveArgs {
    pub from_subaccount: Option<Vec<u8>>,
    pub spender: Account,
    pub amount: Tokens,
    pub expected_allowance: Option<Tokens>,
    pub expires_at: Option<u64>,
    pub fee: Option<Tokens>,
    pub memo: Option<Vec<u8>>,
    pub created_at_time: Option<u64>,
}

/// Arguments of a transfer made by a spender on an owner's behalf.
#[derive(Debug)]
pub struct TransferFromArgs {
    pub spender_subaccount: Option<Vec<u8>>,
    pub from: Account,
    pub to: Account,
    pub amount: Tokens,
    pub fee: Option<Tokens>,
    pub memo: Option<Vec<u8>>,
    pub created_at_time: Option<u64>,
}

/// Arguments of a stake by the caller.
#[derive(Debug)]
pub struct StakeTokenArgs {
    pub from_subaccount: Option<Vec<u8>>,
    pub amount: Tokens,
}

} // verus!
