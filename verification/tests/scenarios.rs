use ledger_core::account::basic::BasicAccount;
use ledger_core::amount::Amount;
use ledger_core::cli::process::process;
use ledger_core::error::ProcessError;
use ledger_core::processor::basic_processor::BasicTransactionProcessor;
use ledger_core::processor::wrap_processor::WrapTransactionProcessor;
use ledger_core::transaction::Transaction;
use ledger_core::transaction_type::TransactionType::{
    Chargeback, Deposit, Dispute, Resolve, Withdrawal,
};
use ledger_core::{BasicProcessor, TransactionProcessor, WrapProcessor};
use rust_decimal::Decimal;

fn amount(value: Decimal) -> Amount {
    let parts = value.unpack();
    Amount::new(parts.lo, parts.mid, parts.hi, parts.negative, parts.scale).unwrap()
}

fn whole(value: u64) -> Option<Amount> {
    Some(amount(Decimal::from(value)))
}

fn decimal(amount: &Amount) -> Decimal {
    let mut value =
        Decimal::from_parts(amount.lo(), amount.mid(), amount.hi(), false, amount.scale());
    value.set_sign_negative(amount.is_sign_negative());
    value
}

fn balances(account: &BasicAccount) -> (u16, Decimal, Decimal, Decimal, bool) {
    (
        *account.client(),
        decimal(account.available()),
        decimal(account.held()),
        decimal(account.total()),
        account.locked(),
    )
}

fn sorted(mut accounts: Vec<BasicAccount>) -> Vec<(u16, Decimal, Decimal, Decimal, bool)> {
    accounts.sort_by_key(|account| *account.client());
    accounts.iter().map(balances).collect()
}

fn run<P: TransactionProcessor>(
    mut processor: P,
    transactions: &[Transaction],
) -> (Vec<Result<(), ProcessError>>, Vec<(u16, Decimal, Decimal, Decimal, bool)>) {
    let results = transactions.iter().map(|transaction| processor.process(*transaction)).collect();
    (results, sorted(processor.into_iter()))
}

fn hundred() -> Decimal {
    Decimal::from(100_u64)
}

fn zero() -> Decimal {
    Decimal::ZERO
}

#[test]
fn two_deposits_and_a_withdrawal_leave_one_hundred() {
    let transactions = [
        Transaction::new(Deposit, 1, 1, whole(100)),
        Transaction::new(Deposit, 1, 2, whole(50)),
        Transaction::new(Withdrawal, 1, 3, whole(50)),
    ];
    let expected = vec![(1, hundred(), zero(), hundred(), false)];
    let (results, accounts) = run(BasicProcessor::new(), &transactions);
    assert_eq!(results, vec![Ok(()), Ok(()), Ok(())]);
    assert_eq!(accounts, expected);
    let (results, accounts) = run(WrapProcessor::new(), &transactions);
    assert_eq!(results, vec![Ok(()), Ok(()), Ok(())]);
    assert_eq!(accounts, expected);
}

#[test]
fn chargeback_of_a_disputed_withdrawal_locks_and_cannot_be_replayed() {
    let transactions = [
        Transaction::new(Deposit, 1, 1, whole(100)),
        Transaction::new(Withdrawal, 1, 2, whole(100)),
        Transaction::new(Dispute, 1, 2, None),
        Transaction::new(Chargeback, 1, 2, None),
    ];
    let expected = vec![(1, zero(), zero(), zero(), true)];
    let (results, accounts) = run(BasicProcessor::new(), &transactions);
    assert_eq!(results, vec![Ok(()), Ok(()), Ok(()), Ok(())]);
    assert_eq!(accounts, expected);
    let (results, accounts) = run(WrapProcessor::new(), &transactions);
    assert_eq!(results, vec![Ok(()), Ok(()), Ok(()), Ok(())]);
    assert_eq!(accounts, expected);
}

#[test]
fn chargeback_without_open_dispute_is_not_found() {
    let transactions = [
        Transaction::new(Deposit, 1, 1, whole(100)),
        Transaction::new(Dispute, 1, 1, None),
        Transaction::new(Resolve, 1, 1, None),
        Transaction::new(Chargeback, 1, 1, None),
    ];
    let expected = vec![(1, hundred(), zero(), hundred(), false)];
    let wanted =
        vec![Ok(()), Ok(()), Ok(()), Err(ProcessError::DisputedTransactionNotFound)];
    let (results, accounts) = run(BasicProcessor::new(), &transactions);
    assert_eq!(results, wanted);
    assert_eq!(accounts, expected);
    let (results, accounts) = run(WrapProcessor::new(), &transactions);
    assert_eq!(results, wanted);
    assert_eq!(accounts, expected);
}

#[test]
fn second_dispute_on_an_open_dispute_is_turned_down() {
    let transactions = [
        Transaction::new(Deposit, 1, 1, whole(100)),
        Transaction::new(Dispute, 1, 1, None),
        Transaction::new(Dispute, 1, 1, None),
    ];
    let expected = vec![(1, zero(), hundred(), hundred(), false)];
    let wanted = vec![Ok(()), Ok(()), Err(ProcessError::TransactionUnderDispute)];
    let (results, accounts) = run(BasicProcessor::new(), &transactions);
    assert_eq!(results, wanted);
    assert_eq!(accounts, expected);
    let (results, accounts) = run(WrapProcessor::new(), &transactions);
    assert_eq!(results, wanted);
    assert_eq!(accounts, expected);
}

#[test]
fn withdrawal_beyond_available_funds_changes_nothing() {
    let transactions = [
        Transaction::new(Deposit, 1, 1, whole(100)),
        Transaction::new(Withdrawal, 1, 2, whole(101)),
    ];
    let expected = vec![(1, hundred(), zero(), hundred(), false)];
    let wanted = vec![Ok(()), Err(ProcessError::NotSufficientAvailableFunds)];
    let (results, accounts) = run(BasicProcessor::new(), &transactions);
    assert_eq!(results, wanted);
    assert_eq!(accounts, expected);
    let (results, accounts) = run(WrapProcessor::new(), &transactions);
    assert_eq!(results, wanted);
    assert_eq!(accounts, expected);
}

#[test]
fn replayed_deposit_and_withdrawal_are_duplicates() {
    let transactions = [
        Transaction::new(Deposit, 7, 1, whole(100)),
        Transaction::new(Deposit, 7, 1, whole(100)),
        Transaction::new(Withdrawal, 7, 2, whole(30)),
        Transaction::new(Withdrawal, 7, 2, whole(30)),
        Transaction::new(Withdrawal, 7, 1, whole(1)),
    ];
    let expected = vec![(7, Decimal::from(70_u64), zero(), Decimal::from(70_u64), false)];
    let wanted = vec![
        Ok(()),
        Err(ProcessError::TransactionExists),
        Ok(()),
        Err(ProcessError::TransactionExists),
        Err(ProcessError::TransactionExists),
    ];
    let (results, accounts) = run(BasicProcessor::new(), &transactions);
    assert_eq!(results, wanted);
    assert_eq!(accounts, expected);
    let (results, accounts) = run(WrapProcessor::new(), &transactions);
    assert_eq!(results, wanted);
    assert_eq!(accounts, expected);
}

#[test]
fn resolved_dispute_restores_the_split_and_cannot_be_disputed_again() {
    let transactions = [
        Transaction::new(Deposit, 3, 1, Some(amount(Decimal::new(12345, 2)))),
        Transaction::new(Deposit, 3, 2, Some(amount(Decimal::new(5, 1)))),
        Transaction::new(Dispute, 3, 2, None),
        Transaction::new(Resolve, 3, 2, None),
        Transaction::new(Dispute, 3, 2, None),
    ];
    let expected = vec![(3, Decimal::new(12395, 2), zero(), Decimal::new(12395, 2), false)];
    let wanted =
        vec![Ok(()), Ok(()), Ok(()), Ok(()), Err(ProcessError::OrgTransactionNotFound)];
    let (results, accounts) = run(BasicProcessor::new(), &transactions);
    assert_eq!(results, wanted);
    assert_eq!(accounts, expected);
    let (results, accounts) = run(WrapProcessor::new(), &transactions);
    assert_eq!(results, wanted);
    assert_eq!(accounts, expected);
}

#[test]
fn resolved_dispute_on_a_withdrawal_hands_the_amount_back() {
    let transactions = [
        Transaction::new(Deposit, 1, 1, whole(200)),
        Transaction::new(Withdrawal, 1, 2, whole(100)),
        Transaction::new(Dispute, 1, 2, None),
    ];
    let disputed = vec![(1, hundred(), hundred(), Decimal::from(200_u64), false)];
    assert_eq!(run(BasicProcessor::new(), &transactions).1, disputed);
    assert_eq!(run(WrapProcessor::new(), &transactions).1, disputed);
    let mut resolved = transactions.to_vec();
    resolved.push(Transaction::new(Resolve, 1, 2, None));
    let expected = vec![(1, Decimal::from(200_u64), zero(), Decimal::from(200_u64), false)];
    assert_eq!(run(BasicProcessor::new(), &resolved).1, expected);
    assert_eq!(run(WrapProcessor::new(), &resolved).1, expected);
}

#[test]
fn locked_account_turns_every_type_down() {
    let mut transactions = vec![
        Transaction::new(Deposit, 1, 1, whole(100)),
        Transaction::new(Deposit, 1, 2, whole(50)),
        Transaction::new(Dispute, 1, 1, None),
        Transaction::new(Chargeback, 1, 1, None),
    ];
    let mut wanted = vec![Ok(()), Ok(()), Ok(()), Ok(())];
    for later in [
        Transaction::new(Deposit, 1, 10, whole(5)),
        Transaction::new(Deposit, 1, 11, None),
        Transaction::new(Withdrawal, 1, 12, whole(5)),
        Transaction::new(Dispute, 1, 2, None),
        Transaction::new(Dispute, 1, 99, None),
        Transaction::new(Resolve, 1, 1, None),
        Transaction::new(Chargeback, 1, 1, None),
    ] {
        transactions.push(later);
        wanted.push(Err(ProcessError::AccountLocked));
    }
    transactions.push(Transaction::new(Deposit, 2, 20, whole(1)));
    wanted.push(Ok(()));
    let one = Decimal::from(1_u64);
    let fifty = Decimal::from(50_u64);
    let expected = vec![(1, fifty, zero(), fifty, true), (2, one, zero(), one, false)];
    let (results, accounts) = run(BasicProcessor::new(), &transactions);
    assert_eq!(results, wanted);
    assert_eq!(accounts, expected);
    let (results, accounts) = run(WrapProcessor::new(), &transactions);
    assert_eq!(results, wanted);
    assert_eq!(accounts, expected);
}

#[test]
fn deposit_and_withdrawal_need_an_amount() {
    let transactions = [
        Transaction::new(Deposit, 1, 1, None),
        Transaction::new(Withdrawal, 1, 2, None),
    ];
    let wanted = vec![Err(ProcessError::AmountNotFound), Err(ProcessError::AmountNotFound)];
    let expected = vec![(1, zero(), zero(), zero(), false)];
    let (results, accounts) = run(BasicProcessor::new(), &transactions);
    assert_eq!(results, wanted);
    assert_eq!(accounts, expected);
    let (results, accounts) = run(WrapProcessor::new(), &transactions);
    assert_eq!(results, wanted);
    assert_eq!(accounts, expected);
}

#[test]
fn negative_amount_is_turned_down() {
    let transactions = [
        Transaction::new(Deposit, 1, 1, Some(amount(Decimal::from(-5_i64)))),
        Transaction::new(Withdrawal, 1, 2, Some(amount(Decimal::from(-5_i64)))),
        Transaction::new(Deposit, 1, 3, Amount::new(0, 0, 0, true, 0)),
    ];
    let wanted = vec![
        Err(ProcessError::NegativeAmount),
        Err(ProcessError::NegativeAmount),
        Err(ProcessError::NegativeAmount),
    ];
    let expected = vec![(1, zero(), zero(), zero(), false)];
    let (results, accounts) = run(BasicProcessor::new(), &transactions);
    assert_eq!(results, wanted);
    assert_eq!(accounts, expected);
    let (results, accounts) = run(WrapProcessor::new(), &transactions);
    assert_eq!(results, wanted);
    assert_eq!(accounts, expected);
}

#[test]
fn overflowing_deposit_changes_nothing() {
    let transactions = [
        Transaction::new(Deposit, 1, 1, Some(amount(Decimal::MAX))),
        Transaction::new(Deposit, 1, 2, Some(amount(Decimal::MAX))),
        Transaction::new(Dispute, 1, 2, None),
    ];
    let wanted = vec![
        Ok(()),
        Err(ProcessError::DecimalAmountOverflow),
        Err(ProcessError::OrgTransactionNotFound),
    ];
    let expected = vec![(1, Decimal::MAX, zero(), Decimal::MAX, false)];
    let (results, accounts) = run(BasicProcessor::new(), &transactions);
    assert_eq!(results, wanted);
    assert_eq!(accounts, expected);
    let (results, accounts) = run(WrapProcessor::new(), &transactions);
    assert_eq!(results, wanted);
    assert_eq!(accounts, expected);
}

#[test]
fn dispute_needs_available_funds_for_a_deposit() {
    let transactions = [
        Transaction::new(Deposit, 1, 1, whole(100)),
        Transaction::new(Withdrawal, 1, 2, whole(60)),
        Transaction::new(Dispute, 1, 1, None),
        Transaction::new(Resolve, 1, 1, None),
    ];
    let wanted = vec![
        Ok(()),
        Ok(()),
        Err(ProcessError::NotSufficientAvailableFunds),
        Err(ProcessError::DisputedTransactionNotFound),
    ];
    let forty = Decimal::from(40_u64);
    let expected = vec![(1, forty, zero(), forty, false)];
    let (results, accounts) = run(BasicProcessor::new(), &transactions);
    assert_eq!(results, wanted);
    assert_eq!(accounts, expected);
    let (results, accounts) = run(WrapProcessor::new(), &transactions);
    assert_eq!(results, wanted);
    assert_eq!(accounts, expected);
}

#[test]
fn failed_transaction_of_a_new_client_still_opens_the_account() {
    let transactions = [
        Transaction::new(Dispute, 9, 1, None),
        Transaction::new(Resolve, 8, 1, None),
        Transaction::new(Chargeback, 7, 1, None),
        Transaction::new(Withdrawal, 6, 1, whole(1)),
    ];
    let wanted = vec![
        Err(ProcessError::OrgTransactionNotFound),
        Err(ProcessError::DisputedTransactionNotFound),
        Err(ProcessError::DisputedTransactionNotFound),
        Err(ProcessError::NotSufficientAvailableFunds),
    ];
    let expected = vec![
        (6, zero(), zero(), zero(), false),
        (7, zero(), zero(), zero(), false),
        (8, zero(), zero(), zero(), false),
        (9, zero(), zero(), zero(), false),
    ];
    let (results, accounts) = run(BasicProcessor::new(), &transactions);
    assert_eq!(results, wanted);
    assert_eq!(accounts, expected);
    let (results, accounts) = run(WrapProcessor::new(), &transactions);
    assert_eq!(results, wanted);
    assert_eq!(accounts, expected);
}

#[test]
fn shared_index_sees_the_other_clients_transaction() {
    let transactions = [
        Transaction::new(Deposit, 1, 1, whole(100)),
        Transaction::new(Dispute, 2, 1, None),
        Transaction::new(Deposit, 2, 1, whole(5)),
    ];
    let (results, accounts) = run(BasicProcessor::new(), &transactions);
    assert_eq!(
        results,
        vec![Ok(()), Err(ProcessError::MismatchClientId), Err(ProcessError::TransactionExists)]
    );
    assert_eq!(
        accounts,
        vec![(1, hundred(), zero(), hundred(), false), (2, zero(), zero(), zero(), false)]
    );
}

#[test]
fn own_index_does_not_see_the_other_clients_transaction() {
    let transactions = [
        Transaction::new(Deposit, 1, 1, whole(100)),
        Transaction::new(Dispute, 2, 1, None),
        Transaction::new(Deposit, 2, 1, whole(5)),
    ];
    let (results, accounts) = run(WrapProcessor::new(), &transactions);
    assert_eq!(results, vec![Ok(()), Err(ProcessError::OrgTransactionNotFound), Ok(())]);
    let five = Decimal::from(5_u64);
    assert_eq!(
        accounts,
        vec![(1, hundred(), zero(), hundred(), false), (2, five, zero(), five, false)]
    );
}

#[test]
fn original_that_is_no_deposit_or_withdrawal_cannot_be_disputed() {
    let mut processor = WrapTransactionProcessor::new();
    assert_eq!(processor.process(Transaction::new(Deposit, 1, 1, whole(100))), Ok(()));
    let account = processor.client_repository().find_by_client(1);
    account.mut_tx_repository().insert(5, Transaction::new(Resolve, 1, 5, whole(10)));
    account.mut_tx_repository().insert(6, Transaction::new(Deposit, 1, 6, None));
    account.mut_dispute_tx_repository().insert(5, Transaction::new(Dispute, 1, 5, None));
    account.mut_dispute_tx_repository().insert(7, Transaction::new(Dispute, 1, 8, None));
    account.mut_tx_repository().insert(9, Transaction::new(Deposit, 2, 9, whole(1)));
    account.mut_dispute_tx_repository().insert(9, Transaction::new(Dispute, 1, 9, None));
    for (transaction, wanted) in [
        (Transaction::new(Dispute, 1, 6, None), ProcessError::InvalidTransactionTypeOrAmount),
        (Transaction::new(Resolve, 1, 5, None), ProcessError::InvalidTransactionTypeOrAmount),
        (Transaction::new(Chargeback, 1, 5, None), ProcessError::InvalidTransactionTypeOrAmount),
        (Transaction::new(Resolve, 1, 7, None), ProcessError::OrgTransactionNotFound),
        (Transaction::new(Chargeback, 1, 7, None), ProcessError::OrgTransactionNotFound),
        (Transaction::new(Resolve, 1, 9, None), ProcessError::MismatchClientId),
        (Transaction::new(Chargeback, 1, 9, None), ProcessError::MismatchClientId),
    ] {
        assert_eq!(processor.process(transaction), Err(wanted));
    }
    assert_eq!(
        sorted(processor.into_iter()),
        vec![(1, hundred(), zero(), hundred(), false)]
    );
}

#[test]
fn both_processors_agree_on_a_mixed_input() {
    let mut transactions = Vec::new();
    let mut tx = 0_u32;
    for round in 0..40_u32 {
        for client in 1..6_u16 {
            tx += 1;
            let base = tx;
            let value = Decimal::new((round * 37 + client as u32 * 11) as i64, (round % 4) as u32);
            transactions.push(Transaction::new(Deposit, client, base, Some(amount(value))));
            transactions.push(Transaction::new(Deposit, client, base, Some(amount(value))));
            tx += 1;
            transactions.push(Transaction::new(
                Withdrawal,
                client,
                tx,
                Some(amount(Decimal::new((round * 5) as i64, 1))),
            ));
            transactions.push(Transaction::new(Dispute, client, base + (round % 3), None));
            if round == 30 && client == 4 {
                transactions.push(Transaction::new(Chargeback, client, base, None));
            } else if round % 2 == 0 {
                transactions.push(Transaction::new(Resolve, client, base + (round % 3), None));
            }
            transactions.push(Transaction::new(Resolve, client, 100_000 + tx, None));
            transactions.push(Transaction::new(Withdrawal, client, 200_000 + tx, None));
        }
    }
    let (shared_results, shared_accounts) = run(BasicProcessor::new(), &transactions);
    let (own_results, own_accounts) = run(WrapProcessor::new(), &transactions);
    assert_eq!(shared_results, own_results);
    assert_eq!(shared_accounts, own_accounts);
    assert_eq!(shared_accounts.len(), 5);
    assert!(shared_accounts[3].4);
    assert!(shared_results.iter().any(|result| result.is_ok()));
    assert!(shared_results.contains(&Err(ProcessError::AccountLocked)));
    assert!(shared_results.contains(&Err(ProcessError::TransactionExists)));
    for (client, available, held, total, _) in shared_accounts {
        assert!(client >= 1 && client <= 5);
        assert_eq!(available + held, total);
    }
}

#[test]
fn deposits_and_withdrawals_hold_nothing() {
    let mut shared = BasicTransactionProcessor::new();
    let mut own = WrapTransactionProcessor::new();
    for tx in 1..200_u32 {
        let value = amount(Decimal::new((tx * 7919 % 1000) as i64, tx % 5));
        let kind = if tx % 3 == 0 { Withdrawal } else { Deposit };
        let transaction = Transaction::new(kind, 4, tx, Some(value));
        assert_eq!(shared.process(transaction), own.process(transaction));
        let account = *shared.client_repository().find_by_client(4);
        assert!(decimal(account.held()).is_zero());
        assert_eq!(decimal(account.total()), decimal(account.available()) + decimal(account.held()));
        let account = *own.client_repository().find_by_client(4).account();
        assert!(decimal(account.held()).is_zero());
        assert_eq!(decimal(account.total()), decimal(account.available()));
    }
}

#[test]
fn replay_hands_out_the_final_accounts() {
    let transactions = vec![
        Transaction::new(Deposit, 2, 1, whole(10)),
        Transaction::new(Deposit, 1, 2, whole(20)),
        Transaction::new(Withdrawal, 2, 3, whole(50)),
        Transaction::new(Withdrawal, 1, 4, whole(5)),
        Transaction::new(Dispute, 1, 2, None),
    ];
    let ten = Decimal::from(10_u64);
    let expected = vec![
        (1, Decimal::from(15_u64), zero(), Decimal::from(15_u64), false),
        (2, ten, zero(), ten, false),
    ];
    assert_eq!(sorted(process(transactions.clone(), BasicProcessor::new())), expected);
    assert_eq!(sorted(process(transactions, WrapProcessor::new())), expected);
    assert!(process(Vec::new(), BasicProcessor::default()).is_empty());
    assert!(process(Vec::new(), WrapProcessor::default()).is_empty());
}

#[test]
fn many_clients_deposit_then_withdrawal() {
    let mut processor = WrapTransactionProcessor::new();
    let per_client_tx = 10_u32;
    for client_id in 0..u16::MAX {
        let from = client_id as u32 * per_client_tx;
        for tx_id in from..(from + per_client_tx) {
            let transaction =
                Transaction::new(Deposit, client_id, tx_id, Some(amount(client_id.into())));
            assert!(processor.process(transaction).is_ok());
        }
    }
    let account = processor.client_repository().find_by_client(7);
    assert_eq!(decimal(account.total()), Decimal::from(70_u64));
    let shift = per_client_tx * u16::MAX as u32;
    for client_id in 0..u16::MAX {
        let from = shift + client_id as u32 * per_client_tx;
        for tx_id in from..(from + per_client_tx) {
            let transaction =
                Transaction::new(Withdrawal, client_id, tx_id, Some(amount(client_id.into())));
            assert!(processor.process(transaction).is_ok());
        }
    }
    let accounts = processor.into_iter();
    assert_eq!(accounts.len(), u16::MAX as usize);
    for account in accounts {
        assert!(decimal(account.total()).is_zero());
        assert!(decimal(account.available()).is_zero());
        assert!(!account.locked());
    }
}

#[test]
fn rounding_at_the_edge_of_the_range_is_not_undone() {
    let half = Some(amount(Decimal::new(5, 1)));
    let odd = Decimal::MAX - Decimal::ONE - Decimal::ONE;
    let even = odd - Decimal::ONE;
    let transactions = [
        Transaction::new(Deposit, 1, 1, half),
        Transaction::new(Withdrawal, 1, 2, half),
        Transaction::new(Deposit, 1, 3, Some(amount(odd))),
        Transaction::new(Dispute, 1, 1, None),
    ];
    let disputed = vec![(1, even, Decimal::new(5, 1), even, false)];
    let (results, accounts) = run(BasicProcessor::new(), &transactions);
    assert_eq!(results, vec![Ok(()), Ok(()), Ok(()), Ok(())]);
    assert_eq!(accounts, disputed);
    assert_eq!(run(WrapProcessor::new(), &transactions).1, disputed);
    let mut resolved = transactions.to_vec();
    resolved.push(Transaction::new(Resolve, 1, 1, None));
    let expected = vec![(1, even, zero(), even, false)];
    assert_eq!(run(BasicProcessor::new(), &resolved).1, expected);
    assert_eq!(run(WrapProcessor::new(), &resolved).1, expected);
}
