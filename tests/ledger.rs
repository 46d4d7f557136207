use toic_backend::ledger::{supported_standards, validate_created_at_time, LedgerService};
use toic_backend::ledger_model::{PERMITTED_DRIFT_NANOS, TRANSACTION_WINDOW_NANOS};
use toic_backend::token_types::{
    Account, ApproveArgs, ApproveError, CreateTokenArgs, MetadataValue, StakeTokenArgs,
    TransferArg, TransferError, TransferFromArgs, TransferFromError,
};
use toic_backend::types::Principal;

fn principal(text: &str) -> Principal {
    Principal { bytes: candid::Principal::from_text(text).unwrap().as_slice().to_vec() }
}

fn caller() -> Principal {
    principal("2chl6-4hpzw-vqaaa-aaaaa-c")
}

fn mock_principal() -> Principal {
    principal("aaaaa-aa")
}

fn mock_principal_2() -> Principal {
    principal("rdmx6-jaaaa-aaaaa-aaadq-cai")
}

fn account(owner: Principal) -> Account {
    Account { owner, subaccount: None }
}

fn stake_account() -> Account {
    Account { owner: principal("rrkah-fqaaa-aaaaa-aaaaq-cai"), subaccount: Some(vec![137; 32]) }
}

fn ledger() -> LedgerService {
    LedgerService::new(stake_account())
}

fn create_token_with_default_args(l: &mut LedgerService) -> Result<String, String> {
    let args = CreateTokenArgs {
        token_name: "TestToken".to_string(),
        token_symbol: "TT".to_string(),
        token_logo: "logo".to_string(),
        initial_supply: 1_000_000_000,
        transfer_fee: 1_000,
    };
    l.create_token(true, caller(), Some(args), 0)
}

fn transfer_arg(to: Account, amount: u128, created_at_time: Option<u64>) -> TransferArg {
    TransferArg { from_subaccount: None, to, amount, fee: None, memo: None, created_at_time }
}

#[test]
fn test_create_token() {
    let mut l = ledger();
    let result = create_token_with_default_args(&mut l);
    assert!(result.is_ok());
    assert_eq!(result.unwrap(), "Token created".to_string());
    assert!(l.token_created());
}

#[test]
fn test_create_token_already_created() {
    let mut l = ledger();
    create_token_with_default_args(&mut l).unwrap();
    let result = create_token_with_default_args(&mut l);
    assert!(result.is_err());
    assert_eq!(result.unwrap_err(), "Token already created".to_string());
}

#[test]
fn test_delete_token() {
    let mut l = ledger();
    create_token_with_default_args(&mut l).unwrap();
    let result = l.delete_token(true, caller());
    assert!(result.is_ok());
    assert_eq!(result.unwrap(), "Token deleted".to_string());
    assert!(!l.token_created());
}

#[test]
fn test_delete_token_not_created() {
    let mut l = ledger();
    let result = l.delete_token(true, caller());
    assert!(result.is_err());
    assert_eq!(result.unwrap_err(), "Token not created".to_string());
}

#[test]
fn test_icrc1_metadata() {
    let mut l = ledger();
    create_token_with_default_args(&mut l).unwrap();
    let minting_account = l.minting_account().unwrap();
    assert_eq!(minting_account.owner, caller());
    assert_eq!(minting_account.subaccount, None);

    let expected_fee: u128 = 1_000;
    assert_eq!(l.fee(), expected_fee);
    assert_eq!(l.decimals(), 8);
    assert_eq!(l.name(), "TestToken".to_string());
    assert_eq!(l.symbol(), "TT".to_string());
    assert_eq!(l.metadata().len(), 5);
    assert_eq!(l.metadata()[0].0, "icrc1:name");
    assert_eq!(l.metadata()[1].0, "icrc1:symbol");
    assert_eq!(l.metadata()[2].0, "icrc1:decimals");
    assert_eq!(l.metadata()[3].0, "icrc1:fee");
    assert_eq!(l.metadata()[4].0, "icrc1:logo");
}

#[test]
fn test_icrc1_standards() {
    let standards = supported_standards();
    assert_eq!(standards.len(), 2);
    assert_eq!(standards[0].name, "ICRC-1");
    assert_eq!(standards[1].name, "ICRC-2");
}

#[test]
fn test_icrc1_transfer_mint() {
    let mut l = ledger();
    create_token_with_default_args(&mut l).unwrap();

    let now = TRANSACTION_WINDOW_NANOS * 3;
    let valid_time = Some(now - TRANSACTION_WINDOW_NANOS / 2);
    let to = account(mock_principal());

    let result = l.transfer(caller(), transfer_arg(to.clone(), 10_000, valid_time), now);
    assert!(result.is_ok());

    // Prevent duplicate transaction
    let result = l.transfer(caller(), transfer_arg(to, 10_000, valid_time), now + 1);
    assert!(matches!(result, Err(TransferError::Duplicate { .. })));
}

#[test]
fn test_icrc1_transfer_burn() {
    let mut l = ledger();
    create_token_with_default_args(&mut l).unwrap();

    let now = TRANSACTION_WINDOW_NANOS * 3;
    let to = l.minting_account().unwrap();
    let valid_time = Some(now - TRANSACTION_WINDOW_NANOS / 2);

    // Burn 100 tokens failed, because the fee is 1_000
    let result = l.transfer(mock_principal(), transfer_arg(to.clone(), 100, valid_time), now);
    assert!(result.is_err());
    assert!(matches!(result, Err(TransferError::BadBurn { .. })));

    // Burn 10_000 tokens failed, because account has not enough balance
    let result = l.transfer(mock_principal(), transfer_arg(to.clone(), 10_000, valid_time), now);
    assert!(matches!(result, Err(TransferError::InsufficientFunds { .. })));

    // Burn 10_000 tokens success
    l.transfer(caller(), transfer_arg(account(mock_principal()), 100_000, None), now).unwrap();
    let result = l.transfer(mock_principal(), transfer_arg(to.clone(), 10_000, valid_time), now);
    assert!(result.is_ok());

    // Prevent duplicate transaction
    let result = l.transfer(mock_principal(), transfer_arg(to, 10_000, valid_time), now);
    assert!(matches!(result, Err(TransferError::Duplicate { .. })));
}

#[test]
fn test_icrc1_balance_of() {
    let mut l = ledger();
    create_token_with_default_args(&mut l).unwrap();

    let acc = account(mock_principal());
    l.transfer(caller(), transfer_arg(acc.clone(), 1000, None), 1).unwrap();

    // the creator's initial supply is cached as well as the recipient's balance
    assert_eq!(l.balances.len(), 2);
    assert_eq!(l.log.len(), 2);

    let balance = l.balance_of(&acc);
    let expected: u128 = 1_000;
    assert_eq!(balance, expected);
}

#[test]
fn test_icrc1_total_supply() {
    let mut l = ledger();
    create_token_with_default_args(&mut l).unwrap();

    let total_supply = l.total_supply();
    let expected: u128 = 1_000_000_000;
    assert_eq!(total_supply, expected);
}

#[test]
fn test_validate_created_at_time() {
    let now = TRANSACTION_WINDOW_NANOS * 3;
    let valid_time = Some(now - TRANSACTION_WINDOW_NANOS / 2);
    let result = validate_created_at_time(valid_time, now);
    assert!(result.is_ok());

    let invalid_time = Some(now - TRANSACTION_WINDOW_NANOS * 2);
    let result = validate_created_at_time(invalid_time, now);
    assert!(result.is_err());
}

#[test]
fn test_icrc2_allowance_initial() {
    let mut l = ledger();
    create_token_with_default_args(&mut l).unwrap();

    let spender = account(mock_principal());
    let creditor = account(mock_principal_2());

    // fill the balance of the creditor
    l.transfer(caller(), transfer_arg(creditor.clone(), 100_000, None), 1).unwrap();
    assert!(l.balances.iter().any(|(a, _)| *a == creditor));

    let allowance_result = l.allowance(&creditor, &spender, 2);

    assert_eq!(allowance_result.allowance, 0);
    assert!(allowance_result.expires_at.is_none());
}

fn funded_ledger(fee: u128) -> (LedgerService, Account, Account) {
    let mut l = ledger();
    let args = CreateTokenArgs {
        token_name: "T".to_string(),
        token_symbol: "T".to_string(),
        token_logo: String::new(),
        initial_supply: 1_000_000,
        transfer_fee: fee,
    };
    l.create_token(true, caller(), Some(args), 0).unwrap();
    let a = account(mock_principal());
    let b = account(mock_principal_2());
    l.transfer(caller(), transfer_arg(a.clone(), 10_000, None), 1).unwrap();
    (l, a, b)
}

fn sum_of_balances(l: &LedgerService) -> u128 {
    l.balances.iter().map(|(_, v)| *v).sum()
}

#[test]
fn supply_is_conserved_across_operations() {
    let (mut l, a, b) = funded_ledger(100);
    let minter = l.minting_account().unwrap();
    l.transfer(mock_principal(), transfer_arg(b.clone(), 1_000, None), 2).unwrap();
    l.transfer(mock_principal(), transfer_arg(minter, 500, None), 3).unwrap();
    let approve = ApproveArgs {
        from_subaccount: None,
        spender: b.clone(),
        amount: 2_000,
        expected_allowance: None,
        expires_at: None,
        fee: None,
        memo: None,
        created_at_time: None,
    };
    l.approve(mock_principal(), approve, 4).unwrap();
    // minted 1_000_000 + 10_000, burnt 500, fees 100 (transfer) + 100 (approve)
    assert_eq!(l.total_supply(), 1_010_000 - 500 - 200);
    assert_eq!(sum_of_balances(&l), l.total_supply());
    assert_eq!(l.balance_of(&a), 10_000 - 1_100 - 500 - 100);
}

#[test]
fn rebuilt_cache_matches_incremental_cache() {
    let (mut l, a, b) = funded_ledger(100);
    l.transfer(mock_principal(), transfer_arg(b.clone(), 1_000, None), 2).unwrap();
    let before: Vec<u128> = vec![l.balance_of(&a), l.balance_of(&b), l.balance_of(&account(caller()))];
    l.rebuild_balances_cache();
    let after: Vec<u128> = vec![l.balance_of(&a), l.balance_of(&b), l.balance_of(&account(caller()))];
    assert_eq!(before, after);
    assert_eq!(after, vec![8_900, 1_000, 1_000_000]);
}

#[test]
fn retried_transfer_reports_first_block() {
    let (mut l, _a, b) = funded_ledger(100);
    let now = TRANSACTION_WINDOW_NANOS;
    let first = l.transfer(mock_principal(), transfer_arg(b.clone(), 700, Some(now)), now);
    assert_eq!(first, Ok(2));
    let log_len = l.log.len();
    let second = l.transfer(mock_principal(), transfer_arg(b.clone(), 700, Some(now)), now + 5);
    assert_eq!(second, Err(TransferError::Duplicate { duplicate_of: 2 }));
    assert_eq!(l.log.len(), log_len);
    assert_eq!(l.balance_of(&b), 700);
}

#[test]
fn window_boundary_is_inclusive() {
    let (mut l, _a, b) = funded_ledger(0);
    let now = 2 * TRANSACTION_WINDOW_NANOS;
    let oldest = now - TRANSACTION_WINDOW_NANOS - PERMITTED_DRIFT_NANOS;
    let accepted = l.transfer(mock_principal(), transfer_arg(b.clone(), 1, Some(oldest)), now);
    assert!(accepted.is_ok());
    let rejected = l.transfer(mock_principal(), transfer_arg(b.clone(), 2, Some(oldest - 1)), now);
    assert_eq!(rejected, Err(TransferError::TooOld));
    let future = l.transfer(
        mock_principal(),
        transfer_arg(b.clone(), 3, Some(now + PERMITTED_DRIFT_NANOS + 1)),
        now,
    );
    assert_eq!(future, Err(TransferError::CreatedInFuture { ledger_time: now }));
    let near_future =
        l.transfer(mock_principal(), transfer_arg(b, 4, Some(now + PERMITTED_DRIFT_NANOS)), now);
    assert!(near_future.is_ok());
}

#[test]
fn whole_balance_transfer_succeeds_one_more_fails() {
    let (mut l, a, b) = funded_ledger(100);
    let too_much = l.transfer(mock_principal(), transfer_arg(b.clone(), 9_901, None), 2);
    assert_eq!(too_much, Err(TransferError::InsufficientFunds { balance: 10_000 }));
    assert_eq!(l.balance_of(&a), 10_000);
    let exact = l.transfer(mock_principal(), transfer_arg(b.clone(), 9_900, None), 3);
    assert!(exact.is_ok());
    assert_eq!(l.balance_of(&a), 0);
    assert_eq!(l.balance_of(&b), 9_900);
}

#[test]
fn ledger_scenario() {
    let mut l = ledger();
    let args = CreateTokenArgs {
        token_name: "T".to_string(),
        token_symbol: "T".to_string(),
        token_logo: String::new(),
        initial_supply: 1_000_000,
        transfer_fee: 100,
    };
    l.create_token(true, caller(), Some(args), 0).unwrap();
    assert_eq!(l.total_supply(), 1_000_000);
    assert_eq!(l.balance_of(&account(caller())), 1_000_000);
    let b = account(mock_principal());
    l.transfer(caller(), transfer_arg(b.clone(), 500, None), 1).unwrap();
    assert_eq!(l.balance_of(&b), 500);
    // a transfer out of the minting account mints
    assert_eq!(l.balance_of(&account(caller())), 1_000_000);
    assert_eq!(l.total_supply(), 1_000_500);
    // a transfer between ordinary accounts pays the fee
    let c = account(mock_principal_2());
    l.transfer(mock_principal(), transfer_arg(c.clone(), 300, None), 2).unwrap();
    assert_eq!(l.balance_of(&b), 100);
    assert_eq!(l.balance_of(&c), 300);
    assert_eq!(l.total_supply(), 1_000_400);
}

#[test]
fn rejections_leave_the_ledger_alone() {
    let (mut l, a, b) = funded_ledger(100);
    let self_transfer = l.transfer(mock_principal(), transfer_arg(a.clone(), 1, None), 2);
    assert!(matches!(
        self_transfer,
        Err(TransferError::GenericError { error_code: 1, .. })
    ));
    let mut long_memo = transfer_arg(b.clone(), 1, None);
    long_memo.memo = Some(vec![0; 33]);
    let memo = l.transfer(mock_principal(), long_memo, 2);
    assert_eq!(
        memo,
        Err(TransferError::GenericError { error_code: 0, message: "Memo too long".to_string() })
    );
    let mut bad_fee = transfer_arg(b.clone(), 1, None);
    bad_fee.fee = Some(7);
    assert_eq!(
        l.transfer(mock_principal(), bad_fee, 2),
        Err(TransferError::BadFee { expected_fee: 100 })
    );
    assert_eq!(l.log.len(), 2);
    assert_eq!(l.balance_of(&a), 10_000);
}

#[test]
fn approvals_and_transfers_on_behalf() {
    let (mut l, a, b) = funded_ledger(100);
    let c = account(principal("rrkah-fqaaa-aaaaa-aaaaq-cai"));
    let approve = ApproveArgs {
        from_subaccount: None,
        spender: b.clone(),
        amount: 1_000,
        expected_allowance: Some(5),
        expires_at: None,
        fee: None,
        memo: None,
        created_at_time: None,
    };
    assert_eq!(
        l.approve(mock_principal(), approve, 2),
        Err(ApproveError::AllowanceChanged { current_allowance: 0 })
    );
    let approve = ApproveArgs {
        from_subaccount: None,
        spender: b.clone(),
        amount: 1_000,
        expected_allowance: Some(0),
        expires_at: Some(50),
        fee: None,
        memo: None,
        created_at_time: None,
    };
    assert_eq!(l.approve(mock_principal(), approve, 3), Ok(2));
    assert_eq!(l.allowance(&a, &b, 4).allowance, 1_000);
    assert_eq!(l.allowance(&a, &b, 4).expires_at, Some(50));
    let from_args = |amount: u128| TransferFromArgs {
        spender_subaccount: None,
        from: a.clone(),
        to: c.clone(),
        amount,
        fee: None,
        memo: None,
        created_at_time: None,
    };
    assert_eq!(
        l.transfer_from(mock_principal_2(), from_args(901), 5),
        Err(TransferFromError::InsufficientAllowance { allowance: 1_000 })
    );
    assert_eq!(l.transfer_from(mock_principal_2(), from_args(400), 6), Ok(3));
    assert_eq!(l.balance_of(&c), 400);
    assert_eq!(l.allowance(&a, &b, 7).allowance, 500);
    // the approval lapses after its expiry
    assert_eq!(l.allowance(&a, &b, 51).allowance, 0);
    assert_eq!(l.allowance(&a, &b, 51).expires_at, None);
}

#[test]
fn staking_locks_tokens() {
    let (mut l, a, _b) = funded_ledger(100);
    let r = l.stake(mock_principal(), StakeTokenArgs { from_subaccount: None, amount: 3_000 }, 2);
    assert_eq!(r, Ok(2));
    assert_eq!(l.locked_balance_of(&a), 3_000);
    assert_eq!(l.balance_of(&stake_account()), 3_000);
    assert_eq!(l.balance_of(&a), 10_000 - 3_100);
}

#[test]
fn unauthorized_token_operations_fail() {
    let mut l = ledger();
    assert_eq!(l.create_token(false, caller(), None, 0), Err("Unauthorized operation".to_string()));
    l.create_token(true, caller(), None, 0).unwrap();
    assert_eq!(l.total_supply(), 5_000_000_000_000);
    assert_eq!(l.fee(), 100);
    assert_eq!(l.name(), "TOIC");
    assert_eq!(l.metadata()[3].1, MetadataValue::Nat(100));
    assert_eq!(l.delete_token(false, caller()), Err("Unauthorized operation".to_string()));
    assert_eq!(
        l.delete_token(true, mock_principal()),
        Err("Caller is not the token creator".to_string())
    );
}

#[test]
fn approval_fee_needs_funds() {
    let (mut l, _a, b) = funded_ledger(100);
    let c = account(principal("rrkah-fqaaa-aaaaa-aaaaq-cai"));
    let approve = ApproveArgs {
        from_subaccount: None,
        spender: b,
        amount: 1,
        expected_allowance: None,
        expires_at: None,
        fee: None,
        memo: None,
        created_at_time: None,
    };
    // the approver holds nothing, so cannot pay the approval fee
    assert_eq!(
        l.approve(c.owner.clone(), approve, 2),
        Err(ApproveError::InsufficientFunds { balance: 0 })
    );
    assert_eq!(l.log.len(), 2);
}

#[test]
fn deleting_the_token_resets_the_ledger() {
    let (mut l, a, _b) = funded_ledger(100);
    assert_eq!(l.delete_token(true, caller()), Ok("Token deleted".to_string()));
    assert_eq!(l.total_supply(), 0);
    assert_eq!(l.balance_of(&a), 0);
    assert!(l.log.is_empty());
    assert!(l.minting_account().is_none());
    assert_eq!(l.create_token(true, caller(), None, 5), Ok("Token created".to_string()));
    assert_eq!(l.total_supply(), 5_000_000_000_000);
}

#[test]
fn request_without_receiver_is_rejected() {
    let (mut l, a, _b) = funded_ledger(100);
    let tx = toic_backend::token_types::TxInfo {
        from: a,
        to: None,
        amount: 1,
        spender: None,
        memo: None,
        fee: None,
        created_at_time: None,
        expected_allowance: None,
        expires_at: None,
        is_approval: false,
    };
    assert!(matches!(l.apply_tx(tx, 2), Err(TransferError::GenericError { error_code: 4, .. })));
    assert_eq!(l.log.len(), 2);
}
