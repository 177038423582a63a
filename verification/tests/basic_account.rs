use ledger_core::account::basic::BasicAccount;
use ledger_core::amount::Amount;
use rust_decimal::Decimal;

fn amount(value: Decimal) -> Amount {
    let parts = value.unpack();
    Amount::new(parts.lo, parts.mid, parts.hi, parts.negative, parts.scale).unwrap()
}

fn decimal(amount: &Amount) -> Decimal {
    let mut value =
        Decimal::from_parts(amount.lo(), amount.mid(), amount.hi(), false, amount.scale());
    value.set_sign_negative(amount.is_sign_negative());
    value
}

#[test]
fn basic_deposit_then_withdrawal() {
    let mut account = BasicAccount::new(1);

    assert!(account.deposit(&amount(Decimal::from(100_u64))).is_ok());
    assert!(account.deposit(&amount(Decimal::from(50_u64))).is_ok());
    assert!(account.withdrawal(&amount(Decimal::from(50_u64))).is_ok());

    assert_eq!(decimal(account.total()), Decimal::from(100_u64));
    assert_eq!(decimal(account.held()), Decimal::from(0_u64));
    assert_eq!(decimal(account.available()), Decimal::from(100_u64));
}

#[test]
fn basic_deposit_withdrawal_then_chargeback() {
    let mut account = BasicAccount::new(1);

    assert!(account.deposit(&amount(Decimal::from(100_u64))).is_ok());
    assert!(account.deposit(&amount(Decimal::from(50_u64))).is_ok());
    assert!(account.withdrawal(&amount(Decimal::from(50_u64))).is_ok());
    assert!(account.dispute_deposit(&amount(Decimal::from(50_u64))).is_ok());

    assert_eq!(decimal(account.total()), Decimal::from(100_u64));
    assert_eq!(decimal(account.held()), Decimal::from(50_u64));
    assert_eq!(decimal(account.available()), Decimal::from(50_u64));
    assert!(!account.locked());

    assert!(account.chargeback(&amount(Decimal::from(50_u64))).is_ok());

    assert_eq!(decimal(account.total()), Decimal::from(50_u64));
    assert_eq!(decimal(account.held()), Decimal::from(0_u64));
    assert_eq!(decimal(account.available()), Decimal::from(50_u64));
    assert!(account.locked());
}

#[test]
fn basic_deposit_withdrawal_insufficient_founds() {
    let mut account = BasicAccount::new(1);

    assert!(account.deposit(&amount(Decimal::from(100_u64))).is_ok());

    //this must return error
    assert!(account.withdrawal(&amount(Decimal::from(200_u64))).is_err());

    assert_eq!(decimal(account.total()), Decimal::from(100_u64));
    assert_eq!(decimal(account.available()), Decimal::from(100_u64));
    assert_eq!(decimal(account.held()), Decimal::from(0_u64));

    assert!(!account.locked());
}

#[test]
fn basic_deposit_then_dispute() {
    let mut account = BasicAccount::new(1);

    assert!(account.deposit(&amount(Decimal::from(200_u64))).is_ok());
    assert!(account.deposit(&amount(Decimal::from(300_u64))).is_ok());

    assert!(account.dispute_deposit(&amount(Decimal::from(300_u64))).is_ok());

    assert_eq!(decimal(account.total()), Decimal::from(500_u64));
    assert_eq!(decimal(account.available()), Decimal::from(200_u64));
    assert_eq!(decimal(account.held()), Decimal::from(300_u64));

    assert!(!account.locked());
}

#[test]
fn basic_deposit_dispute_then_resolve() {
    let mut account = BasicAccount::new(1);

    assert!(account.deposit(&amount(Decimal::from(200_u64))).is_ok());
    assert!(account.deposit(&amount(Decimal::from(300_u64))).is_ok());

    assert!(account.dispute_deposit(&amount(Decimal::from(200_u64))).is_ok());
    assert!(account.resolve(&amount(Decimal::from(200_u64))).is_ok());


    assert_eq!(decimal(account.total()), Decimal::from(500_u64));
    assert_eq!(decimal(account.available()), Decimal::from(500_u64));
    assert_eq!(decimal(account.held()), Decimal::from(0_u64));

    assert!(!account.locked());
}

#[test]
fn basic_deposit_withdrawal_then_dispute_deposit() {
    let mut account = BasicAccount::new(1);

    assert!(account.deposit(&amount(Decimal::from(300_u64))).is_ok());
    assert!(account.withdrawal(&amount(Decimal::from(300_u64))).is_ok());

    // must be error
    assert!(account.dispute_deposit(&amount(Decimal::from(100_u64))).is_err());

    assert_eq!(decimal(account.total()), Decimal::from(0_u64));
    assert_eq!(decimal(account.available()), Decimal::from(0_u64));
    assert_eq!(decimal(account.held()), Decimal::from(0_u64));

    assert!(!account.locked());
}

#[test]
fn basic_one_million_deposit_then_withdrawal() {
    let mut account = BasicAccount::new(1);
    for i in 0..1_000_001_u64 {
        assert!(account.deposit(&amount(Decimal::from(i))).is_ok());
    }

    assert_eq!(decimal(account.total()), Decimal::from(500000500000_u64));
    assert_eq!(decimal(account.held()), Decimal::from(0_u64));
    assert_eq!(decimal(account.available()), Decimal::from(500000500000_u64));
    assert!(!account.locked());

    for i in 0..1_000_001_u64 {
        assert!(account.withdrawal(&amount(Decimal::from(i))).is_ok());
    }

    assert_eq!(decimal(account.total()), Decimal::from(0_u64));
    assert_eq!(decimal(account.held()), Decimal::from(0_u64));
    assert_eq!(decimal(account.available()), Decimal::from(0_u64));
    assert!(!account.locked());
}

