use stellar_stream::{Error, Party, StellarStream, StreamRequest, StreamSlot, Transfer};

const ADMIN: u64 = 1;
const SENDER: u64 = 10;
const RECEIVER: u64 = 20;
const TREASURY: u64 = 30;
const TOKEN: u64 = 99;

fn fresh() -> StellarStream {
    let mut ledger = StellarStream::new();
    ledger.initialize(ADMIN);
    ledger
}

#[test]
fn create_stream_stores_net_amount_and_returns_transfers() {
    let mut ledger = fresh();
    ledger
        .initialize_fee(ADMIN, 250, TREASURY)
        .unwrap();
    let (id, principal, fee) = ledger
        .create_stream(SENDER, RECEIVER, TOKEN, 10000, 0, 100, 1000)
        .unwrap();
    assert_eq!(id, 1);
    assert_eq!(
        principal,
        Transfer {
            token: TOKEN,
            from: Party::Account(SENDER),
            to: Party::Custody,
            amount: 9750,
        }
    );
    assert_eq!(
        fee,
        Some(Transfer {
            token: TOKEN,
            from: Party::Account(SENDER),
            to: Party::Account(TREASURY),
            amount: 250,
        })
    );
    // the stored stream carries the net amount with nothing withdrawn
    match ledger.streams[0] {
        Some(StreamSlot::Current(s)) => {
            assert_eq!(s.amount, 9750);
            assert_eq!(s.withdrawn_amount, 0);
        }
        _ => panic!("stream not stored"),
    }
}

#[test]
fn create_stream_without_fee_skips_fee_transfer() {
    let mut ledger = fresh();
    let (id, principal, fee) = ledger
        .create_stream(SENDER, RECEIVER, TOKEN, 1000, 0, 100, 1000)
        .unwrap();
    assert_eq!(id, 1);
    assert_eq!(principal.amount, 1000);
    assert_eq!(fee, None);
}

#[test]
fn create_stream_rejects_bad_inputs() {
    let mut ledger = fresh();
    // end not after start
    assert_eq!(
        ledger.create_stream(SENDER, RECEIVER, TOKEN, 1000, 100, 100, 100),
        Err(Error::InvalidRange)
    );
    // cliff before start
    assert_eq!(
        ledger.create_stream(SENDER, RECEIVER, TOKEN, 1000, 50, 40, 100),
        Err(Error::InvalidRange)
    );
    // cliff at end
    assert_eq!(
        ledger.create_stream(SENDER, RECEIVER, TOKEN, 1000, 0, 100, 100),
        Err(Error::InvalidRange)
    );
    // non-positive amount
    assert_eq!(
        ledger.create_stream(SENDER, RECEIVER, TOKEN, 0, 0, 50, 100),
        Err(Error::InvalidAmount)
    );
    assert_eq!(ledger.streams.len(), 0);
}

#[test]
fn two_sequential_withdrawals_sum_to_the_principal() {
    let mut ledger = fresh();
    ledger
        .create_stream(SENDER, RECEIVER, TOKEN, 1000, 0, 100, 1000)
        .unwrap();
    let (paid1, t1) = ledger.withdraw(1, RECEIVER, 550).unwrap();
    assert_eq!(paid1, 550);
    assert_eq!(t1.from, Party::Custody);
    assert_eq!(t1.to, Party::Account(RECEIVER));
    let (paid2, _) = ledger.withdraw(1, RECEIVER, 1000).unwrap();
    assert_eq!(paid2, 450);
    assert_eq!(paid1 + paid2, 1000);
}

#[test]
fn withdraw_twice_at_same_time_pays_nothing_new() {
    let mut ledger = fresh();
    ledger
        .create_stream(SENDER, RECEIVER, TOKEN, 1000, 0, 100, 1000)
        .unwrap();
    assert_eq!(ledger.withdraw(1, RECEIVER, 550).unwrap().0, 550);
    assert_eq!(
        ledger.withdraw(1, RECEIVER, 550),
        Err(Error::NothingWithdrawable)
    );
}

#[test]
fn withdraw_before_cliff_pays_nothing() {
    let mut ledger = fresh();
    ledger
        .create_stream(SENDER, RECEIVER, TOKEN, 1000, 0, 100, 1000)
        .unwrap();
    assert_eq!(
        ledger.withdraw(1, RECEIVER, 50),
        Err(Error::NothingWithdrawable)
    );
}

#[test]
fn withdraw_checks_receiver_and_existence() {
    let mut ledger = fresh();
    ledger
        .create_stream(SENDER, RECEIVER, TOKEN, 1000, 0, 100, 1000)
        .unwrap();
    assert_eq!(ledger.withdraw(1, SENDER, 550), Err(Error::Unauthorized));
    assert_eq!(ledger.withdraw(2, RECEIVER, 550), Err(Error::NotFound));
    assert_eq!(ledger.withdraw(0, RECEIVER, 550), Err(Error::NotFound));
}

#[test]
fn cancel_splits_principal_between_receiver_and_sender() {
    let mut ledger = fresh();
    ledger
        .create_stream(SENDER, RECEIVER, TOKEN, 1000, 0, 100, 1000)
        .unwrap();
    let (to_receiver, refund) = ledger.cancel_stream(1, SENDER, 400).unwrap();
    let settled = to_receiver.expect("unlocked part owed to receiver");
    let refunded = refund.expect("locked part refunded to sender");
    assert_eq!(settled.amount, 400);
    assert_eq!(settled.to, Party::Account(RECEIVER));
    assert_eq!(refunded.amount, 600);
    assert_eq!(refunded.to, Party::Account(SENDER));
    // conservation: settlement + refund is exactly the principal
    assert_eq!(settled.amount + refunded.amount, 1000);
    // the record is gone and the id is retired
    assert_eq!(ledger.withdraw(1, RECEIVER, 500), Err(Error::NotFound));
}

#[test]
fn cancel_before_cliff_skips_the_zero_settlement() {
    let mut ledger = fresh();
    ledger
        .create_stream(SENDER, RECEIVER, TOKEN, 1000, 0, 100, 1000)
        .unwrap();
    let (to_receiver, refund) = ledger.cancel_stream(1, SENDER, 50).unwrap();
    assert_eq!(to_receiver, None);
    assert_eq!(refund.unwrap().amount, 1000);
}

#[test]
fn cancel_after_maturity_is_refused() {
    let mut ledger = fresh();
    ledger
        .create_stream(SENDER, RECEIVER, TOKEN, 1000, 0, 100, 1000)
        .unwrap();
    assert_eq!(
        ledger.cancel_stream(1, SENDER, 1000),
        Err(Error::AlreadyCompleted)
    );
    assert_eq!(ledger.cancel_stream(1, RECEIVER, 400), Err(Error::Unauthorized));
    assert_eq!(ledger.cancel_stream(7, SENDER, 400), Err(Error::NotFound));
}

#[test]
fn transfer_receiver_reassigns_in_place() {
    let mut ledger = fresh();
    ledger
        .create_stream(SENDER, RECEIVER, TOKEN, 1000, 0, 100, 1000)
        .unwrap();
    let new_receiver = 21;
    assert_eq!(
        ledger.transfer_receiver(1, new_receiver, RECEIVER),
        Ok(())
    );
    // only the new receiver may withdraw now
    assert_eq!(
        ledger.withdraw(1, RECEIVER, 550),
        Err(Error::Unauthorized)
    );
    assert_eq!(ledger.withdraw(1, new_receiver, 550).unwrap().0, 550);
}

#[test]
fn transfer_receiver_checks_caller() {
    let mut ledger = fresh();
    ledger
        .create_stream(SENDER, RECEIVER, TOKEN, 1000, 0, 100, 1000)
        .unwrap();
    assert_eq!(
        ledger.transfer_receiver(1, 21, SENDER),
        Err(Error::Unauthorized)
    );
    assert_eq!(ledger.transfer_receiver(2, 21, RECEIVER), Err(Error::NotFound));
}

#[test]
fn batch_creates_streams_with_contiguous_increasing_ids() {
    let mut ledger = fresh();
    // one stream already exists, so the batch ids start after it
    ledger
        .create_stream(SENDER, RECEIVER, TOKEN, 500, 0, 10, 100)
        .unwrap();
    let requests = vec![
        StreamRequest { receiver: 40, amount: 100, start_time: 0, cliff_time: 0, end_time: 50 },
        StreamRequest { receiver: 41, amount: 200, start_time: 5, cliff_time: 10, end_time: 60 },
        StreamRequest { receiver: 42, amount: 300, start_time: 9, cliff_time: 9, end_time: 70 },
    ];
    let (ids, transfer) = ledger
        .create_batch_streams(SENDER, TOKEN, requests)
        .unwrap();
    assert_eq!(ids, vec![2, 3, 4]);
    // one aggregate transfer of the sum of the request amounts
    assert_eq!(
        transfer,
        Transfer {
            token: TOKEN,
            from: Party::Account(SENDER),
            to: Party::Custody,
            amount: 600,
        }
    );
    // gross amounts stored: no fee on the batch path
    match ledger.streams[2] {
        Some(StreamSlot::Current(s)) => {
            assert_eq!(s.amount, 200);
            assert_eq!(s.receiver, 41);
            assert_eq!(s.sender, SENDER);
        }
        _ => panic!("batch stream not stored"),
    }
}

#[test]
fn batch_aborts_whole_on_first_invalid_request() {
    let mut ledger = fresh();
    let requests = vec![
        StreamRequest { receiver: 40, amount: 100, start_time: 0, cliff_time: 0, end_time: 50 },
        StreamRequest { receiver: 41, amount: -5, start_time: 5, cliff_time: 10, end_time: 60 },
    ];
    assert_eq!(
        ledger.create_batch_streams(SENDER, TOKEN, requests),
        Err(Error::InvalidAmount)
    );
    let requests = vec![StreamRequest {
        receiver: 40,
        amount: 100,
        start_time: 50,
        cliff_time: 50,
        end_time: 50,
    }];
    assert_eq!(
        ledger.create_batch_streams(SENDER, TOKEN, requests),
        Err(Error::InvalidRange)
    );
    assert_eq!(ledger.streams.len(), 0);
}

#[test]
fn pause_blocks_create_withdraw_and_cancel_but_not_transfer_receiver() {
    let mut ledger = fresh();
    ledger
        .create_stream(SENDER, RECEIVER, TOKEN, 1000, 0, 100, 1000)
        .unwrap();
    ledger.set_pause(ADMIN, true).unwrap();
    assert_eq!(
        ledger.create_stream(SENDER, RECEIVER, TOKEN, 1000, 0, 100, 1000),
        Err(Error::Paused)
    );
    assert_eq!(ledger.withdraw(1, RECEIVER, 550), Err(Error::Paused));
    assert_eq!(ledger.cancel_stream(1, SENDER, 400), Err(Error::Paused));
    // transfer_receiver deliberately has no pause check
    assert_eq!(ledger.transfer_receiver(1, 21, RECEIVER), Ok(()));
    ledger.set_pause(ADMIN, false).unwrap();
    assert_eq!(ledger.withdraw(1, 21, 550).unwrap().0, 550);
}

#[test]
fn set_pause_requires_admin() {
    let mut ledger = fresh();
    assert_eq!(ledger.set_pause(SENDER, true), Err(Error::Unauthorized));
    assert!(!ledger.is_paused);
}
