use ledger_core::account::basic::BasicAccount;
use ledger_core::account::wrap::WrapAccount;
use ledger_core::amount::{Amount, MAX_SCALE};
use ledger_core::cli::error::{CliError, ErrorType};
use ledger_core::error::ProcessError;
use ledger_core::repository::basic_account_repository::BasicAccountMemoryRepository;
use ledger_core::repository::dlq_repository::{DlqRepository, NaiveDlqMemoryRepository};
use ledger_core::repository::transaction_repository::TransactionMemoryRepository;
use ledger_core::repository::wrap_account_repository::WrapAccountMemoryRepository;
use ledger_core::transaction::Transaction;
use ledger_core::transaction_type::TransactionType;
use rust_decimal::Decimal;

fn amount(value: Decimal) -> Amount {
    let parts = value.unpack();
    Amount::new(parts.lo, parts.mid, parts.hi, parts.negative, parts.scale).unwrap()
}

fn decimal(amount: &Amount) -> Decimal {
    let mut value =
        Decimal::from_parts(amount.lo(), amount.mid(), amount.hi(), false, amount.scale());
    value.set_sign_negative(amount.is_sign_negative());
    value
}

fn parts(amount: &Amount) -> (u32, u32, u32, bool, u32) {
    (amount.lo(), amount.mid(), amount.hi(), amount.is_sign_negative(), amount.scale())
}

#[test]
fn amount_keeps_its_parts() {
    let built = Amount::new(7, 8, 9, true, 3).unwrap();
    assert_eq!(parts(&built), (7, 8, 9, true, 3));
    assert!(!built.is_zero());
    let largest = Amount::new(u32::MAX, u32::MAX, u32::MAX, false, MAX_SCALE).unwrap();
    assert_eq!(parts(&largest), (u32::MAX, u32::MAX, u32::MAX, false, 28));
    assert_eq!(parts(&Amount::zero()), (0, 0, 0, false, 0));
    assert!(Amount::zero().is_zero());
    assert!(Amount::new(0, 0, 0, true, 12).unwrap().is_zero());
    assert!(Amount::new(0, 0, 0, true, 12).unwrap().is_sign_negative());
}

#[test]
fn amount_has_no_scale_above_the_maximum() {
    assert!(Amount::new(1, 0, 0, false, 28).is_some());
    assert!(Amount::new(1, 0, 0, false, 29).is_none());
    assert!(Amount::new(0, 0, 0, false, u32::MAX).is_none());
}

#[test]
fn sum_aligns_the_scales() {
    let sum = amount(Decimal::new(15, 1)).checked_add(&amount(Decimal::new(225, 2))).unwrap();
    assert_eq!(parts(&sum), (375, 0, 0, false, 2));
    let sum = amount(Decimal::new(-15, 1)).checked_add(&amount(Decimal::new(5, 0))).unwrap();
    assert_eq!(parts(&sum), (35, 0, 0, false, 1));
    let sum = amount(Decimal::from(u64::MAX)).checked_add(&amount(Decimal::from(1_u64))).unwrap();
    assert_eq!(parts(&sum), (0, 0, 1, false, 0));
}

#[test]
fn sum_with_a_zero_is_the_other_operand() {
    let five = amount(Decimal::new(500, 2));
    let nothing = Amount::new(0, 0, 0, false, 4).unwrap();
    assert_eq!(parts(&nothing.checked_add(&five).unwrap()), (500, 0, 0, false, 2));
    assert_eq!(parts(&five.checked_add(&nothing).unwrap()), (500, 0, 0, false, 2));
    assert_eq!(parts(&nothing.checked_add(&Amount::zero()).unwrap()), (0, 0, 0, false, 0));
    assert_eq!(parts(&Amount::zero().checked_add(&nothing).unwrap()), (0, 0, 0, false, 4));
    let minus_nothing = Amount::new(0, 0, 0, true, 1).unwrap();
    assert_eq!(parts(&nothing.checked_add(&minus_nothing).unwrap()), (0, 0, 0, true, 1));
    let large = Amount::new(1, 2, 3, true, 0).unwrap();
    assert_eq!(parts(&nothing.checked_add(&large).unwrap()), (1, 2, 3, true, 0));
    assert_eq!(parts(&large.checked_add(&minus_nothing).unwrap()), (1, 2, 3, true, 0));
}

#[test]
fn difference_with_a_zero() {
    let five = amount(Decimal::new(500, 2));
    let nothing = Amount::new(0, 0, 0, false, 4).unwrap();
    assert_eq!(parts(&five.checked_sub(&nothing).unwrap()), (500, 0, 0, false, 2));
    assert_eq!(parts(&nothing.checked_sub(&five).unwrap()), (500, 0, 0, true, 2));
    assert_eq!(parts(&nothing.checked_sub(&Amount::zero()).unwrap()), (0, 0, 0, false, 0));
    let minus = Amount::new(1, 2, 3, true, 7).unwrap();
    assert_eq!(parts(&nothing.checked_sub(&minus).unwrap()), (1, 2, 3, false, 7));
    let minus_nothing = Amount::new(0, 0, 0, true, 1).unwrap();
    assert_eq!(parts(&nothing.checked_sub(&minus_nothing).unwrap()), (0, 0, 0, true, 1));
    assert_eq!(parts(&minus.checked_sub(&minus_nothing).unwrap()), (1, 2, 3, true, 7));
}

#[test]
fn difference_aligns_the_scales() {
    let left = amount(Decimal::new(1000, 2));
    let right = amount(Decimal::new(25, 1));
    assert_eq!(parts(&left.checked_sub(&right).unwrap()), (750, 0, 0, false, 2));
    assert_eq!(parts(&right.checked_sub(&left).unwrap()), (750, 0, 0, true, 2));
    assert_eq!(decimal(&left.checked_sub(&left).unwrap()), Decimal::ZERO);
}

#[test]
fn sum_and_difference_overflow() {
    let largest = amount(Decimal::MAX);
    let smallest = amount(Decimal::MIN);
    assert!(largest.checked_add(&largest).is_none());
    assert!(largest.checked_add(&amount(Decimal::ONE)).is_none());
    assert!(smallest.checked_sub(&largest).is_none());
    assert!(largest.checked_sub(&smallest).is_none());
    assert_eq!(decimal(&largest.checked_add(&smallest).unwrap()), Decimal::ZERO);
}

#[test]
fn less_than_compares_values() {
    let one = amount(Decimal::new(1, 0));
    let one_point_zero = amount(Decimal::new(1000, 3));
    let two = amount(Decimal::new(20, 1));
    let minus_two = amount(Decimal::new(-2, 0));
    let nothing = Amount::new(0, 0, 0, false, 9).unwrap();
    let minus_nothing = Amount::new(0, 0, 0, true, 0).unwrap();
    assert!(one.lt(&two));
    assert!(!two.lt(&one));
    assert!(!one.lt(&one_point_zero));
    assert!(!one_point_zero.lt(&one));
    assert!(minus_two.lt(&one));
    assert!(minus_two.lt(&nothing));
    assert!(!nothing.lt(&minus_two));
    assert!(!nothing.lt(&minus_nothing));
    assert!(!minus_nothing.lt(&nothing));
    assert!(nothing.lt(&one));
    assert!(amount(Decimal::new(1, 28)).lt(&amount(Decimal::MAX)));
    assert!(!amount(Decimal::MAX).lt(&amount(Decimal::new(1, 28))));
    assert!(amount(Decimal::MIN).lt(&amount(Decimal::new(-1, 28))));
}

#[test]
fn new_account_is_empty() {
    let account = BasicAccount::new(42);
    assert_eq!(*account.client(), 42);
    assert_eq!(parts(account.available()), (0, 0, 0, false, 0));
    assert_eq!(parts(account.held()), (0, 0, 0, false, 0));
    assert_eq!(parts(account.total()), (0, 0, 0, false, 0));
    assert!(!account.locked());
    let account = BasicAccount::default();
    assert_eq!(*account.client(), 0);
    assert!(account.total().is_zero());
    assert!(!account.locked());
    let account = WrapAccount::new(43);
    assert_eq!(*account.client(), 43);
    assert!(account.available().is_zero() && account.held().is_zero());
    assert!(account.total().is_zero());
    assert!(!account.locked());
    assert!(!account.tx_repository().exist_by_tx_id(&0));
    assert!(!account.dispute_tx_repository().exist_by_tx_id(&0));
    assert_eq!(*account.account().client(), 43);
    assert_eq!(*account.into_account().client(), 43);
}

#[test]
fn account_operations_turn_a_negative_amount_down() {
    let minus = amount(Decimal::new(-1, 2));
    let mut account = BasicAccount::new(1);
    assert_eq!(account.deposit(&amount(Decimal::from(10_u64))), Ok(()));
    assert_eq!(account.deposit(&minus), Err(ProcessError::NegativeAmount));
    assert_eq!(account.withdrawal(&minus), Err(ProcessError::NegativeAmount));
    assert_eq!(account.dispute_deposit(&minus), Err(ProcessError::NegativeAmount));
    assert_eq!(account.dispute_withdrawal(&minus), Err(ProcessError::NegativeAmount));
    assert_eq!(account.resolve(&minus), Err(ProcessError::NegativeAmount));
    assert_eq!(account.chargeback(&minus), Err(ProcessError::NegativeAmount));
    assert_eq!(decimal(account.available()), Decimal::from(10_u64));
    assert_eq!(decimal(account.total()), Decimal::from(10_u64));
    assert!(account.held().is_zero());
    assert!(!account.locked());
}

#[test]
fn account_operations_need_sufficient_funds() {
    let ten = amount(Decimal::from(10_u64));
    let eleven = amount(Decimal::new(1100, 2));
    let mut account = WrapAccount::new(1);
    assert_eq!(account.deposit(&ten), Ok(()));
    assert_eq!(account.withdrawal(&eleven), Err(ProcessError::NotSufficientAvailableFunds));
    assert_eq!(account.dispute_deposit(&eleven), Err(ProcessError::NotSufficientAvailableFunds));
    assert_eq!(account.resolve(&ten), Err(ProcessError::NotSufficientHeldFunds));
    assert_eq!(account.chargeback(&ten), Err(ProcessError::NotSufficientHeldFunds));
    assert!(!account.locked());
    assert_eq!(account.dispute_deposit(&ten), Ok(()));
    assert_eq!(account.resolve(&eleven), Err(ProcessError::NotSufficientHeldFunds));
    assert_eq!(account.chargeback(&eleven), Err(ProcessError::NotSufficientHeldFunds));
    assert_eq!(decimal(account.available()), Decimal::ZERO);
    assert_eq!(decimal(account.held()), Decimal::from(10_u64));
    assert_eq!(decimal(account.total()), Decimal::from(10_u64));
    assert!(!account.locked());
}

#[test]
fn account_operations_overflow_without_a_trace() {
    let largest = amount(Decimal::MAX);
    let one = amount(Decimal::ONE);
    let mut account = BasicAccount::new(1);
    assert_eq!(account.deposit(&largest), Ok(()));
    assert_eq!(account.deposit(&one), Err(ProcessError::DecimalAmountOverflow));
    assert_eq!(account.dispute_withdrawal(&one), Err(ProcessError::DecimalAmountOverflow));
    assert_eq!(account.resolve(&Amount::zero()), Ok(()));
    assert_eq!(decimal(account.available()), Decimal::MAX);
    assert!(account.held().is_zero());
    assert_eq!(decimal(account.total()), Decimal::MAX);
    let mut account = BasicAccount::new(2);
    assert_eq!(account.dispute_withdrawal(&largest), Ok(()));
    assert_eq!(account.deposit(&one), Err(ProcessError::DecimalAmountOverflow));
    assert_eq!(account.dispute_deposit(&Amount::zero()), Ok(()));
    assert!(account.available().is_zero());
    assert_eq!(decimal(account.held()), Decimal::MAX);
    assert_eq!(decimal(account.total()), Decimal::MAX);
    assert_eq!(account.resolve(&one), Ok(()));
    assert_eq!(decimal(account.available()), Decimal::ONE);
    assert_eq!(decimal(account.held()), Decimal::MAX - Decimal::ONE);
    assert_eq!(decimal(account.total()), Decimal::MAX);
}

#[test]
fn settle_commits_all_or_nothing() {
    let one = Some(amount(Decimal::from(1_u64)));
    let two = Some(amount(Decimal::from(2_u64)));
    let three = Some(amount(Decimal::from(3_u64)));
    let mut account = BasicAccount::new(5);
    assert_eq!(account.settle(one, two, None, true), Err(ProcessError::DecimalAmountOverflow));
    assert_eq!(account.settle(one, None, three, true), Err(ProcessError::DecimalAmountOverflow));
    assert_eq!(account.settle(None, two, three, true), Err(ProcessError::DecimalAmountOverflow));
    assert!(account.available().is_zero() && account.held().is_zero());
    assert!(account.total().is_zero());
    assert!(!account.locked());
    assert_eq!(account.settle(one, two, three, true), Ok(()));
    assert_eq!(decimal(account.available()), Decimal::from(1_u64));
    assert_eq!(decimal(account.held()), Decimal::from(2_u64));
    assert_eq!(decimal(account.total()), Decimal::from(3_u64));
    assert!(account.locked());
    assert_eq!(*account.client(), 5);
}

#[test]
fn dispute_of_a_withdrawal_raises_the_total() {
    let mut account = BasicAccount::new(1);
    assert_eq!(account.deposit(&amount(Decimal::from(30_u64))), Ok(()));
    assert_eq!(account.withdrawal(&amount(Decimal::from(10_u64))), Ok(()));
    assert_eq!(account.dispute_withdrawal(&amount(Decimal::from(10_u64))), Ok(()));
    assert_eq!(decimal(account.available()), Decimal::from(20_u64));
    assert_eq!(decimal(account.held()), Decimal::from(10_u64));
    assert_eq!(decimal(account.total()), Decimal::from(30_u64));
    assert_eq!(account.chargeback(&amount(Decimal::from(10_u64))), Ok(()));
    assert_eq!(decimal(account.available()), Decimal::from(20_u64));
    assert_eq!(decimal(account.held()), Decimal::ZERO);
    assert_eq!(decimal(account.total()), Decimal::from(20_u64));
    assert!(account.locked());
}

#[test]
fn transaction_keeps_its_fields() {
    let transaction =
        Transaction::new(TransactionType::Withdrawal, 3, 9, Some(amount(Decimal::new(15, 1))));
    assert_eq!(*transaction.kind(), TransactionType::Withdrawal);
    assert_eq!(transaction.client(), 3);
    assert_eq!(transaction.tx_id(), 9);
    assert_eq!(decimal(&transaction.amount().unwrap()), Decimal::new(15, 1));
    let transaction = Transaction::new(TransactionType::Dispute, u16::MAX, u32::MAX, None);
    assert_eq!(*transaction.kind(), TransactionType::Dispute);
    assert_eq!(transaction.client(), u16::MAX);
    assert_eq!(transaction.tx_id(), u32::MAX);
    assert!(transaction.amount().is_none());
}

#[test]
fn transaction_index_is_a_keyed_store() {
    let mut index = TransactionMemoryRepository::new();
    assert!(!index.exist_by_tx_id(&1));
    assert!(index.find_by_tx_id(&1).is_none());
    index.insert(1, Transaction::new(TransactionType::Deposit, 4, 1, None));
    index.insert(2, Transaction::new(TransactionType::Resolve, 5, 77, None));
    assert!(index.exist_by_tx_id(&1));
    assert!(index.exist_by_tx_id(&2));
    assert!(!index.exist_by_tx_id(&77));
    assert_eq!(index.find_by_tx_id(&1).unwrap().client(), 4);
    assert_eq!(index.find_by_tx_id(&2).unwrap().tx_id(), 77);
    index.insert(1, Transaction::new(TransactionType::Withdrawal, 6, 1, None));
    assert_eq!(index.find_by_tx_id(&1).unwrap().client(), 6);
    index.delete_by_id(&1);
    index.delete_by_id(&3);
    assert!(!index.exist_by_tx_id(&1));
    assert!(index.find_by_tx_id(&1).is_none());
    assert_eq!(*index.find_by_tx_id(&2).unwrap().kind(), TransactionType::Resolve);
}

#[test]
fn directory_creates_accounts_on_first_sight() {
    let mut directory = BasicAccountMemoryRepository::with_capacity(usize::MAX);
    assert!(directory.get_all_account_iter().is_empty());
    assert_eq!(*directory.find_by_client(3).client(), 3);
    assert_eq!(directory.find_by_client(3).deposit(&amount(Decimal::from(5_u64))), Ok(()));
    assert_eq!(*directory.find_by_client(1).client(), 1);
    assert_eq!(decimal(directory.find_by_client(3).total()), Decimal::from(5_u64));
    let mut listed: Vec<(u16, Decimal)> = directory
        .get_all_account_iter()
        .iter()
        .map(|account| (*account.client(), decimal(account.total())))
        .collect();
    listed.sort();
    assert_eq!(listed, vec![(1, Decimal::ZERO), (3, Decimal::from(5_u64))]);
    assert_eq!(directory.get_all_account_into_iter().len(), 2);
    assert!(BasicAccountMemoryRepository::new().get_all_account_into_iter().is_empty());
    assert!(BasicAccountMemoryRepository::default().get_all_account_into_iter().is_empty());
    assert!(BasicAccountMemoryRepository::with_capacity(0).get_all_account_iter().is_empty());
}

#[test]
fn directory_of_accounts_with_indices() {
    let mut directory = WrapAccountMemoryRepository::new();
    let account = directory.find_by_client(8);
    assert_eq!(account.deposit(&amount(Decimal::from(5_u64))), Ok(()));
    account.mut_tx_repository().insert(1, Transaction::new(TransactionType::Deposit, 8, 1, None));
    assert!(directory.find_by_client(8).tx_repository().exist_by_tx_id(&1));
    assert!(!directory.find_by_client(9).tx_repository().exist_by_tx_id(&1));
    let mut listed: Vec<(u16, Decimal)> = directory
        .get_all_account_into_iter()
        .iter()
        .map(|account| (*account.client(), decimal(account.total())))
        .collect();
    listed.sort();
    assert_eq!(listed, vec![(8, Decimal::from(5_u64)), (9, Decimal::ZERO)]);
}

#[test]
fn dead_letter_queue_keeps_the_order() {
    let mut queue: DlqRepository = NaiveDlqMemoryRepository::new();
    assert!(queue.get_all().is_empty());
    queue.insert(
        Transaction::new(TransactionType::Deposit, 1, 1, None),
        ProcessError::AmountNotFound,
    );
    queue.insert(
        Transaction::new(TransactionType::Dispute, 2, 5, None),
        ProcessError::OrgTransactionNotFound,
    );
    let entries = queue.get_all();
    assert_eq!(entries.len(), 2);
    assert_eq!(entries[0].0.client(), 1);
    assert_eq!(entries[0].1, ProcessError::AmountNotFound);
    assert_eq!(entries[1].0.tx_id(), 5);
    assert_eq!(entries[1].1, ProcessError::OrgTransactionNotFound);
}

#[test]
fn run_error_keeps_type_and_message() {
    let error = CliError::new(ErrorType::CsvRead, "line 3: missing field");
    assert_eq!(error.message(), "line 3: missing field");
    assert_eq!(*error.error_type(), ErrorType::CsvRead);
    let error = CliError::new(ErrorType::IO, "");
    assert_eq!(error.message(), "");
    assert_eq!(*error.error_type(), ErrorType::IO);
}

#[test]
fn process_error_shows_as_its_name() {
    assert_eq!(ProcessError::AmountNotFound.to_string(), "AmountNotFound");
    assert_eq!(ProcessError::DecimalAmountOverflow.to_string(), "DecimalAmountOverflow");
    assert_eq!(ProcessError::NegativeAmount.to_string(), "NegativeAmount");
    assert_eq!(
        ProcessError::NotSufficientAvailableFunds.to_string(),
        "NotSufficientAvailableFunds"
    );
    assert_eq!(ProcessError::NotSufficientHeldFunds.to_string(), "NotSufficientHeldFunds");
    assert_eq!(ProcessError::AccountLocked.to_string(), "AccountLocked");
    assert_eq!(ProcessError::TransactionExists.to_string(), "TransactionExists");
    assert_eq!(ProcessError::OrgTransactionNotFound.to_string(), "OrgTransactionNotFound");
    assert_eq!(
        ProcessError::DisputedTransactionNotFound.to_string(),
        "DisputedTransactionNotFound"
    );
    assert_eq!(ProcessError::TransactionUnderDispute.to_string(), "TransactionUnderDispute");
    assert_eq!(
        ProcessError::InvalidTransactionTypeOrAmount.to_string(),
        "InvalidTransactionTypeOrAmount"
    );
    assert_eq!(ProcessError::MismatchClientId.to_string(), "MismatchClientId");
    assert_eq!(ProcessError::MutexLockError.to_string(), "MutexLockError");
    assert_eq!(ProcessError::UnknownOrUnexpectedError.to_string(), "UnknownOrUnexpectedError");
    assert_eq!(format!("{:?}", ProcessError::AccountLocked), "AccountLocked");
}
