use stellar_stream::{Error, StellarStream};

const ADMIN: u64 = 1;
const TREASURY: u64 = 30;

#[test]
fn fee_of_one_thousand_bps_is_accepted() {
    let mut ledger = StellarStream::new();
    assert_eq!(ledger.initialize_fee(ADMIN, 1000, TREASURY), Ok(()));
    assert_eq!(ledger.fee_bps, 1000);
    assert_eq!(ledger.update_fee(ADMIN, 1000), Ok(()));
    assert_eq!(ledger.fee_bps, 1000);
}

#[test]
fn fee_above_one_thousand_bps_is_rejected() {
    let mut ledger = StellarStream::new();
    assert_eq!(
        ledger.initialize_fee(ADMIN, 1001, TREASURY),
        Err(Error::FeeOutOfBounds)
    );
    // the failed call set nothing
    assert_eq!(ledger.admin, None);
    assert_eq!(ledger.treasury, None);
    assert_eq!(ledger.fee_bps, 0);

    ledger.initialize_fee(ADMIN, 100, TREASURY).unwrap();
    assert_eq!(ledger.update_fee(ADMIN, 1001), Err(Error::FeeOutOfBounds));
    assert_eq!(ledger.fee_bps, 100);
}

#[test]
fn update_fee_requires_admin() {
    let mut ledger = StellarStream::new();
    ledger.initialize_fee(ADMIN, 100, TREASURY).unwrap();
    assert_eq!(ledger.update_fee(7, 200), Err(Error::Unauthorized));
    assert_eq!(ledger.fee_bps, 100);
}

#[test]
fn fee_rounds_down() {
    let mut ledger = StellarStream::new();
    ledger.initialize_fee(ADMIN, 333, TREASURY).unwrap();
    // floor(999 * 333 / 10000) = 33
    let (_, principal, fee) = ledger
        .create_stream(10, 20, 99, 999, 0, 100, 1000)
        .unwrap();
    assert_eq!(fee.unwrap().amount, 33);
    assert_eq!(principal.amount, 966);
    // gross = net + fee, exactly
    assert_eq!(principal.amount + 33, 999);
}

#[test]
fn tiny_amount_rounds_fee_to_zero() {
    let mut ledger = StellarStream::new();
    ledger.initialize_fee(ADMIN, 1000, TREASURY).unwrap();
    let (_, principal, fee) = ledger
        .create_stream(10, 20, 99, 9, 0, 100, 1000)
        .unwrap();
    assert_eq!(fee, None);
    assert_eq!(principal.amount, 9);
}
