//! The stream ledger: the state every operation reads and updates, and the
//! operations themselves.
//!
//! Each operation is a transition from the current state and the caller's
//! plain inputs to the next state, a result, and the transfer instructions the
//! host must perform. The host authenticates the caller before the call and
//! passes the authenticated principal in; it reads the clock and passes `now`
//! in. Each operation's contract equates the outcome with a transition
//! function over the state's mathematical view, so the behaviour is pinned
//! input by input.

use vstd::prelude::*;

use crate::errors::Error;
use crate::math::{calculate_unlocked, lemma_unlocked_bounds, spec_unlocked, unlock_args_ok};
use crate::types::{Address, DataKey, Party, Stream, StreamRequest, StreamSlot, Transfer};

verus! {

/// The mathematical view of a ledger state.
#[verifier::ext_equal]
pub struct LedgerView {
    pub admin: Option<Address>,
    pub treasury: Option<Address>,
    pub fee_bps: u32,
    pub is_paused: bool,
    pub version: u32,
    pub streams: Seq<Option<StreamSlot>>,
    pub executed: Seq<u32>,
}

impl LedgerView {
    /// Stream ids are sequential from 1; id `i` lives in slot `i - 1`. A
    /// cancelled stream leaves an empty slot, so its id is retired forever.
    pub open spec fn has_current(self, id: u64) -> bool {
        &&& 1 <= id <= self.streams.len()
        &&& self.streams[id - 1] matches Some(StreamSlot::Current(_))
    }

    /// The current-schema stream stored under `id`.
    pub open spec fn current(self, id: u64) -> Stream {
        self.streams[id - 1].unwrap()->Current_0
    }

    /// Whether a legacy-schema record is stored under `id`.
    pub open spec fn has_legacy(self, id: u64) -> bool {
        &&& 1 <= id <= self.streams.len()
        &&& self.streams[id - 1] matches Some(StreamSlot::Legacy(_))
    }

    /// The legacy-schema record stored under `id`.
    pub open spec fn legacy(self, id: u64) -> crate::types::LegacyStream {
        self.streams[id - 1].unwrap()->Legacy_0
    }

    /// Whether the migration to `version` has already been executed.
    pub open spec fn migration_executed(self, version: u32) -> bool {
        self.executed.contains(version)
    }

    /// The ledger's invariant: the fee rate is at most 10%, the version
    /// counter started at 1, and every stored record is well formed.
    pub open spec fn wf(self) -> bool {
        &&& self.fee_bps <= 1000
        &&& self.version >= 1
        &&& forall|i: int|
            0 <= i < self.streams.len() ==> slot_wf(#[trigger] self.streams[i])
    }
}

/// A stored record is well formed: positive principal, an ordered window, and
/// a cumulative withdrawal within the principal.
pub open spec fn slot_wf(slot: Option<StreamSlot>) -> bool {
    match slot {
        Some(StreamSlot::Current(s)) => stream_wf(s),
        Some(StreamSlot::Legacy(l)) => legacy_wf(l),
        None => true,
    }
}

/// Well-formedness of a current-schema stream. The cliff placement
/// `start <= cliff < end` is checked on the single-creation path but not on
/// the batch path, so it is not part of the stored invariant.
pub open spec fn stream_wf(s: Stream) -> bool {
    &&& s.amount > 0
    &&& s.start_time < s.end_time
    &&& 0 <= s.withdrawn_amount <= s.amount
}

/// Well-formedness of a legacy-schema record.
pub open spec fn legacy_wf(l: crate::types::LegacyStream) -> bool {
    &&& l.amount > 0
    &&& l.start_time < l.end_time
    &&& 0 <= l.withdrawn_amount <= l.amount
}

/// The protocol fee taken at single-stream creation: `amount * fee_bps`
/// basis points, rounded down.
pub open spec fn spec_fee(amount: int, fee_bps: int) -> int {
    amount * fee_bps / 10000
}

/// The ledger. Its fields are the scalars and records the host persists;
/// the host materialises the state from its store before an operation and
/// persists the state it leaves behind.
pub struct StellarStream {
    pub admin: Option<Address>,
    pub treasury: Option<Address>,
    pub fee_bps: u32,
    pub is_paused: bool,
    pub contract_version: u32,
    pub streams: Vec<Option<StreamSlot>>,
    pub executed_migrations: Vec<u32>,
}

impl View for StellarStream {
    type V = LedgerView;

    open spec fn view(&self) -> LedgerView {
        LedgerView {
            admin: self.admin,
            treasury: self.treasury,
            fee_bps: self.fee_bps,
            is_paused: self.is_paused,
            version: self.contract_version,
            streams: self.streams@,
            executed: self.executed_migrations@,
        }
    }
}

/// The state of a ledger nothing has touched: no admin, no fee, not paused,
/// version 1, no streams, no migration executed.
pub open spec fn initial_view() -> LedgerView {
    LedgerView {
        admin: None,
        treasury: None,
        fee_bps: 0,
        is_paused: false,
        version: 1,
        streams: Seq::empty(),
        executed: Seq::empty(),
    }
}

/// Outcome of `initialize_fee`: any authenticated caller becomes admin and
/// sets the fee rate and treasury, provided the rate is at most 10%.
pub open spec fn initialize_fee_tr(
    pre: LedgerView,
    admin: Address,
    fee_bps: u32,
    treasury: Address,
) -> (LedgerView, Result<(), Error>) {
    if fee_bps > 1000 {
        (pre, Err(Error::FeeOutOfBounds))
    } else {
        (
            LedgerView { admin: Some(admin), fee_bps, treasury: Some(treasury), ..pre },
            Ok(()),
        )
    }
}

/// Outcome of `update_fee`: only the stored admin may change the rate, and
/// only to at most 10%.
pub open spec fn update_fee_tr(pre: LedgerView, admin: Address, fee_bps: u32) -> (
    LedgerView,
    Result<(), Error>,
) {
    if pre.admin != Some(admin) {
        (pre, Err(Error::Unauthorized))
    } else if fee_bps > 1000 {
        (pre, Err(Error::FeeOutOfBounds))
    } else {
        (LedgerView { fee_bps, ..pre }, Ok(()))
    }
}

/// Outcome of `set_pause`: only the stored admin may flip the pause flag.
pub open spec fn set_pause_tr(pre: LedgerView, admin: Address, paused: bool) -> (
    LedgerView,
    Result<(), Error>,
) {
    if pre.admin != Some(admin) {
        (pre, Err(Error::Unauthorized))
    } else {
        (LedgerView { is_paused: paused, ..pre }, Ok(()))
    }
}

/// The validations `create_stream` runs, in order, before it has any effect:
/// pause flag clear, ordered window, cliff inside the window, positive amount.
pub open spec fn create_checks_ok(
    pre: LedgerView,
    amount: i128,
    start_time: u64,
    cliff_time: u64,
    end_time: u64,
) -> bool {
    &&& !pre.is_paused
    &&& start_time < end_time
    &&& start_time <= cliff_time < end_time
    &&& amount > 0
}

/// Outcome of `create_stream`: on success, the next sequential id, the
/// principal transfer into custody, and the fee transfer to the treasury
/// (absent when the fee rounds to zero). The stored stream carries the net
/// amount.
pub open spec fn create_stream_tr(
    pre: LedgerView,
    sender: Address,
    receiver: Address,
    token: Address,
    amount: i128,
    start_time: u64,
    cliff_time: u64,
    end_time: u64,
) -> (LedgerView, Result<(u64, Transfer, Option<Transfer>), Error>) {
    if pre.is_paused {
        (pre, Err(Error::Paused))
    } else if end_time <= start_time {
        (pre, Err(Error::InvalidRange))
    } else if cliff_time < start_time || cliff_time >= end_time {
        (pre, Err(Error::InvalidRange))
    } else if amount <= 0 {
        (pre, Err(Error::InvalidAmount))
    } else {
        let fee = spec_fee(amount as int, pre.fee_bps as int);
        let principal = amount - fee;
        let id = (pre.streams.len() + 1) as u64;
        let stream = Stream {
            sender,
            receiver,
            token,
            amount: principal as i128,
            start_time,
            cliff_time,
            end_time,
            withdrawn_amount: 0,
        };
        let principal_t = Transfer {
            token,
            from: Party::Account(sender),
            to: Party::Custody,
            amount: principal as i128,
        };
        let fee_t = if fee > 0 {
            Some(
                Transfer {
                    token,
                    from: Party::Account(sender),
                    to: Party::Account(pre.treasury.unwrap()),
                    amount: fee as i128,
                },
            )
        } else {
            None::<Transfer>
        };
        (
            LedgerView { streams: pre.streams.push(Some(StreamSlot::Current(stream))), ..pre },
            Ok((id, principal_t, fee_t)),
        )
    }
}

/// The unlock calculation is defined and overflow-free for this stream at
/// this time: the cliff sits inside the window and the linear product fits.
pub open spec fn stream_unlock_ok(s: Stream, now: u64) -> bool {
    unlock_args_ok(
        s.amount as int,
        s.start_time as int,
        s.cliff_time as int,
        s.end_time as int,
        now as int,
    )
}

/// The amount of `s` unlocked at `now`.
pub open spec fn stream_unlocked(s: Stream, now: u64) -> int {
    spec_unlocked(s.amount as int, s.start_time as int, s.cliff_time as int, s.end_time as int, now as int)
}

/// Outcome of `withdraw`: pays the receiver everything unlocked at `now` that
/// was not already withdrawn, or refuses with the exact reason.
pub open spec fn withdraw_tr(pre: LedgerView, stream_id: u64, receiver: Address, now: u64) -> (
    LedgerView,
    Result<(i128, Transfer), Error>,
) {
    if pre.is_paused {
        (pre, Err(Error::Paused))
    } else if !pre.has_current(stream_id) {
        (pre, Err(Error::NotFound))
    } else {
        let s = pre.current(stream_id);
        if receiver != s.receiver {
            (pre, Err(Error::Unauthorized))
        } else {
            let payable = stream_unlocked(s, now) - s.withdrawn_amount;
            if payable <= 0 {
                (pre, Err(Error::NothingWithdrawable))
            } else {
                let updated = Stream {
                    withdrawn_amount: (s.withdrawn_amount + payable) as i128,
                    ..s
                };
                let t = Transfer {
                    token: s.token,
                    from: Party::Custody,
                    to: Party::Account(receiver),
                    amount: payable as i128,
                };
                (
                    LedgerView {
                        streams: pre.streams.update(
                            stream_id - 1,
                            Some(StreamSlot::Current(updated)),
                        ),
                        ..pre
                    },
                    Ok((payable as i128, t)),
                )
            }
        }
    }
}

/// Outcome of `cancel_stream`: settles the unlocked-but-unwithdrawn part to
/// the receiver, refunds the rest of the principal to the sender (either
/// transfer skipped when not positive), and removes the record; the id is
/// retired forever.
pub open spec fn cancel_stream_tr(pre: LedgerView, stream_id: u64, caller: Address, now: u64) -> (
    LedgerView,
    Result<(Option<Transfer>, Option<Transfer>), Error>,
) {
    if pre.is_paused {
        (pre, Err(Error::Paused))
    } else if !pre.has_current(stream_id) {
        (pre, Err(Error::NotFound))
    } else {
        let s = pre.current(stream_id);
        if caller != s.sender {
            (pre, Err(Error::Unauthorized))
        } else if now >= s.end_time {
            (pre, Err(Error::AlreadyCompleted))
        } else {
            let unlocked = stream_unlocked(s, now);
            let to_receiver = unlocked - s.withdrawn_amount;
            let refund = s.amount - unlocked;
            let t1 = if to_receiver > 0 {
                Some(
                    Transfer {
                        token: s.token,
                        from: Party::Custody,
                        to: Party::Account(s.receiver),
                        amount: to_receiver as i128,
                    },
                )
            } else {
                None::<Transfer>
            };
            let t2 = if refund > 0 {
                Some(
                    Transfer {
                        token: s.token,
                        from: Party::Custody,
                        to: Party::Account(s.sender),
                        amount: refund as i128,
                    },
                )
            } else {
                None::<Transfer>
            };
            (
                LedgerView { streams: pre.streams.update(stream_id - 1, None), ..pre },
                Ok((t1, t2)),
            )
        }
    }
}

/// Outcome of `transfer_receiver`: reassigns the stream's receiver in place.
/// No balance movement, and (deliberately, matching the deployed behaviour)
/// no pause check.
pub open spec fn transfer_receiver_tr(
    pre: LedgerView,
    stream_id: u64,
    new_receiver: Address,
    caller: Address,
) -> (LedgerView, Result<(), Error>) {
    if !pre.has_current(stream_id) {
        (pre, Err(Error::NotFound))
    } else {
        let s = pre.current(stream_id);
        if caller != s.receiver {
            (pre, Err(Error::Unauthorized))
        } else {
            let updated = Stream { receiver: new_receiver, ..s };
            (
                LedgerView {
                    streams: pre.streams.update(stream_id - 1, Some(StreamSlot::Current(updated))),
                    ..pre
                },
                Ok(()),
            )
        }
    }
}

/// The value a transfer instruction moves, counting a skipped transfer as
/// zero.
pub open spec fn opt_amount(t: Option<Transfer>) -> int {
    match t {
        Some(t) => t.amount as int,
        None => 0,
    }
}

/// What the batch path validates of one request: an ordered window and a
/// positive amount. The cliff placement is deliberately not checked here,
/// matching the deployed behaviour.
pub open spec fn req_valid(r: StreamRequest) -> bool {
    &&& r.start_time < r.end_time
    &&& r.amount > 0
}

/// Every request before index `k` passes the batch validation.
pub open spec fn valid_prefix(reqs: Seq<StreamRequest>, k: int) -> bool {
    forall|j: int| 0 <= j < k ==> req_valid(#[trigger] reqs[j])
}

/// The sum of the first `k` request amounts.
pub open spec fn prefix_sum(reqs: Seq<StreamRequest>, k: int) -> int
    decreases k,
{
    if k <= 0 {
        0
    } else {
        prefix_sum(reqs, k - 1) + reqs[k - 1].amount
    }
}

/// The batch validation pass from index `k` on: the error of the first
/// invalid request, or the sum of the remaining amounts.
pub open spec fn batch_validate_from(reqs: Seq<StreamRequest>, k: int) -> Result<int, Error>
    decreases reqs.len() - k,
{
    if k < 0 || k >= reqs.len() {
        Ok(0)
    } else {
        let r0 = reqs[k];
        if r0.end_time <= r0.start_time {
            Err(Error::InvalidRange)
        } else if r0.amount <= 0 {
            Err(Error::InvalidAmount)
        } else {
            match batch_validate_from(reqs, k + 1) {
                Ok(t) => Ok(r0.amount + t),
                Err(e) => Err(e),
            }
        }
    }
}

/// Adds an already-validated total onto the result of validating the rest.
pub open spec fn shift_validate(total: int, rest: Result<int, Error>) -> Result<int, Error> {
    match rest {
        Ok(t) => Ok(total + t),
        Err(e) => Err(e),
    }
}

/// The stream a batch request asks for: the gross amount (no fee on the
/// batch path), nothing withdrawn, sender and token shared with the batch.
pub open spec fn request_stream(sender: Address, token: Address, r: StreamRequest) -> Stream {
    Stream {
        sender,
        receiver: r.receiver,
        token,
        amount: r.amount,
        start_time: r.start_time,
        cliff_time: r.cliff_time,
        end_time: r.end_time,
        withdrawn_amount: 0,
    }
}

/// Outcome of `create_batch_streams`: an invalid request aborts the whole
/// batch with no effect; otherwise one aggregate transfer of the sum of all
/// amounts moves into custody and one stream per request is stored, consuming
/// sequential ids in request order. No pause check and no fee on this path,
/// matching the deployed behaviour.
pub open spec fn create_batch_tr(
    pre: LedgerView,
    sender: Address,
    token: Address,
    reqs: Seq<StreamRequest>,
) -> (LedgerView, Result<(Seq<u64>, Transfer), Error>) {
    match batch_validate_from(reqs, 0) {
        Err(e) => (pre, Err(e)),
        Ok(total) => (
            LedgerView {
                streams: pre.streams + Seq::new(
                    reqs.len(),
                    |j: int| Some(StreamSlot::Current(request_stream(sender, token, reqs[j]))),
                ),
                ..pre
            },
            Ok(
                (
                    Seq::new(reqs.len(), |j: int| (pre.streams.len() + 1 + j) as u64),
                    Transfer {
                        token,
                        from: Party::Account(sender),
                        to: Party::Custody,
                        amount: total as i128,
                    },
                ),
            ),
        ),
    }
}

/// Whether a migration step is defined for `version`; only the v1 to v2 step
/// exists.
pub open spec fn has_step(version: int) -> bool {
    version == 2
}

/// Every version strictly between `current` and `target` (inclusive) has a
/// defined migration step.
pub open spec fn all_steps_defined(current: int, target: int) -> bool {
    forall|v: int| current < v <= target ==> has_step(v)
}

/// Outcome of `migrate`: only the stored admin may migrate, each target
/// version at most once, strictly forward, and only across versions whose
/// steps exist. On success every step runs in ascending order (the only
/// step, v1 to v2, leaves records in place), the target is marked executed,
/// and the version counter moves to the target.
pub open spec fn migrate_tr(pre: LedgerView, admin: Address, target_version: u32) -> (
    LedgerView,
    Result<(), Error>,
) {
    if pre.admin != Some(admin) {
        (pre, Err(Error::Unauthorized))
    } else if pre.migration_executed(target_version) {
        (pre, Err(Error::AlreadyMigrated))
    } else if target_version <= pre.version {
        (pre, Err(Error::NonMonotonicMigration))
    } else if !all_steps_defined(pre.version as int, target_version as int) {
        (pre, Err(Error::UndefinedMigrationStep))
    } else {
        (
            LedgerView {
                version: target_version,
                executed: pre.executed.push(target_version),
                ..pre
            },
            Ok(()),
        )
    }
}

/// Outcome of `migrate_single_stream`: the remedial per-record conversion.
/// Only the stored admin may; the record must be legacy-shaped (a missing or
/// already-current record is refused); the converted stream copies every
/// field and sets `cliff_time := start_time`, so a legacy stream unlocks from
/// its start with no cliff.
pub open spec fn migrate_single_tr(pre: LedgerView, admin: Address, stream_id: u64) -> (
    LedgerView,
    Result<(), Error>,
) {
    if pre.admin != Some(admin) {
        (pre, Err(Error::Unauthorized))
    } else if !pre.has_legacy(stream_id) {
        (pre, Err(Error::NotFound))
    } else {
        let l = pre.legacy(stream_id);
        let migrated = Stream {
            sender: l.sender,
            receiver: l.receiver,
            token: l.token,
            amount: l.amount,
            start_time: l.start_time,
            cliff_time: l.start_time,
            end_time: l.end_time,
            withdrawn_amount: l.withdrawn_amount,
        };
        (
            LedgerView {
                streams: pre.streams.update(stream_id - 1, Some(StreamSlot::Current(migrated))),
                ..pre
            },
            Ok(()),
        )
    }
}

/// Cancellation conservation: for a stream nothing has been withdrawn from,
/// cancelled at any time before its end, what the cancellation settles to the
/// receiver plus what it refunds to the sender is exactly the stream's
/// principal.
pub proof fn lemma_cancel_conservation(pre: LedgerView, stream_id: u64, caller: Address, now: u64)
    requires
        pre.wf(),
        pre.has_current(stream_id),
        pre.current(stream_id).withdrawn_amount == 0,
        pre.current(stream_id).start_time <= pre.current(stream_id).cliff_time < pre.current(
            stream_id,
        ).end_time,
        cancel_stream_tr(pre, stream_id, caller, now).1 is Ok,
    ensures
        ({
            let p = cancel_stream_tr(pre, stream_id, caller, now).1.unwrap();
            opt_amount(p.0) + opt_amount(p.1) == pre.current(stream_id).amount
        }),
{
    let s = pre.current(stream_id);
    assert(slot_wf(pre.streams[stream_id - 1]));
    lemma_unlocked_bounds(
        s.amount as int,
        s.start_time as int,
        s.cliff_time as int,
        s.end_time as int,
        now as int,
    );
}

/// Idempotent migration: after a successful `migrate`, invoking it again
/// with the same admin and the same target fails with `AlreadyMigrated` and
/// leaves the state unchanged.
pub proof fn lemma_migrate_idempotent(pre: LedgerView, admin: Address, target_version: u32)
    requires
        migrate_tr(pre, admin, target_version).1 is Ok,
    ensures
        ({
            let mid = migrate_tr(pre, admin, target_version).0;
            &&& migrate_tr(mid, admin, target_version).1 == Err::<(), Error>(
                Error::AlreadyMigrated,
            )
            &&& migrate_tr(mid, admin, target_version).0 == mid
        }),
{
    let mid = migrate_tr(pre, admin, target_version).0;
    assert(mid.executed[pre.executed.len() as int] == target_version);
    assert(mid.executed.contains(target_version));
}

impl StellarStream {
    /// A ledger nothing has touched.
    pub fn new() -> (s: Self)
        ensures
            s@ == initial_view(),
            s@.wf(),
    {
        let s = StellarStream {
            admin: None,
            treasury: None,
            fee_bps: 0,
            is_paused: false,
            contract_version: 1,
            streams: Vec::new(),
            executed_migrations: Vec::new(),
        };
        proof {
            assert(s@.streams =~= Seq::<Option<StreamSlot>>::empty());
            assert(s@.executed =~= Seq::<u32>::empty());
            assert(s@ =~= initial_view());
        }
        s
    }

    /// The current contract version (1 until a migration ran).
    pub fn get_version(&self) -> (v: u32)
        ensures
            v == self@.version,
    {
        self.contract_version
    }

    /// Records the authenticated caller as admin and clears the pause flag.
    pub fn initialize(&mut self, admin: Address)
        ensures
            final(self)@ == (LedgerView { admin: Some(admin), is_paused: false, ..old(self)@ }),
            old(self)@.wf() ==> final(self)@.wf(),
    {
        self.admin = Some(admin);
        self.is_paused = false;
    }

    /// Records the authenticated caller as admin and sets the fee rate and
    /// the treasury, refusing a rate above 10%.
    pub fn initialize_fee(&mut self, admin: Address, fee_bps: u32, treasury: Address) -> (r:
        Result<(), Error>)
        ensures
            final(self)@ == initialize_fee_tr(old(self)@, admin, fee_bps, treasury).0,
            r == initialize_fee_tr(old(self)@, admin, fee_bps, treasury).1,
            old(self)@.wf() ==> final(self)@.wf(),
    {
        if fee_bps > 1000 {
            return Err(Error::FeeOutOfBounds);
        }
        self.admin = Some(admin);
        self.fee_bps = fee_bps;
        self.treasury = Some(treasury);
        Ok(())
    }

    /// Changes the fee rate; only the stored admin may, and only to at most
    /// 10%.
    pub fn update_fee(&mut self, admin: Address, fee_bps: u32) -> (r: Result<(), Error>)
        requires
            old(self)@.admin.is_some(),
        ensures
            final(self)@ == update_fee_tr(old(self)@, admin, fee_bps).0,
            r == update_fee_tr(old(self)@, admin, fee_bps).1,
            old(self)@.wf() ==> final(self)@.wf(),
    {
        if !self.admin_matches(admin) {
            return Err(Error::Unauthorized);
        }
        if fee_bps > 1000 {
            return Err(Error::FeeOutOfBounds);
        }
        self.fee_bps = fee_bps;
        Ok(())
    }

    /// Flips the pause flag; only the stored admin may.
    pub fn set_pause(&mut self, admin: Address, paused: bool) -> (r: Result<(), Error>)
        requires
            old(self)@.admin.is_some(),
        ensures
            final(self)@ == set_pause_tr(old(self)@, admin, paused).0,
            r == set_pause_tr(old(self)@, admin, paused).1,
            old(self)@.wf() ==> final(self)@.wf(),
    {
        if !self.admin_matches(admin) {
            return Err(Error::Unauthorized);
        }
        self.is_paused = paused;
        Ok(())
    }

    /// Refuses the operation while the pause flag is set.
    fn check_not_paused(&self) -> (r: Result<(), Error>)
        ensures
            r is Ok <==> !self@.is_paused,
            r is Err ==> r == Err::<(), Error>(Error::Paused),
    {
        if self.is_paused {
            Err(Error::Paused)
        } else {
            Ok(())
        }
    }

    /// Whether the caller is the stored admin.
    fn admin_matches(&self, caller: Address) -> (r: bool)
        requires
            self@.admin.is_some(),
        ensures
            r == (self@.admin == Some(caller)),
    {
        match self.admin {
            Some(a) => a == caller,
            None => false,
        }
    }

    /// Creates a stream: validates, deducts the protocol fee, allocates the
    /// next sequential id and stores the stream with the net amount and
    /// nothing withdrawn. Returns the id, the principal transfer into custody
    /// and the fee transfer to the treasury; the host must perform both or
    /// abandon the whole operation.
    pub fn create_stream(
        &mut self,
        sender: Address,
        receiver: Address,
        token: Address,
        amount: i128,
        start_time: u64,
        cliff_time: u64,
        end_time: u64,
    ) -> (r: Result<(u64, Transfer, Option<Transfer>), Error>)
        requires
            old(self)@.wf(),
            create_checks_ok(old(self)@, amount, start_time, cliff_time, end_time) ==> {
                &&& amount * old(self)@.fee_bps <= i128::MAX
                &&& old(self)@.streams.len() < u64::MAX
                &&& spec_fee(amount as int, old(self)@.fee_bps as int) > 0 ==> old(
                    self,
                )@.treasury.is_some()
            },
        ensures
            final(self)@ == create_stream_tr(
                old(self)@,
                sender,
                receiver,
                token,
                amount,
                start_time,
                cliff_time,
                end_time,
            ).0,
            r == create_stream_tr(
                old(self)@,
                sender,
                receiver,
                token,
                amount,
                start_time,
                cliff_time,
                end_time,
            ).1,
            final(self)@.wf(),
            r matches Ok(res) ==> {
                &&& res.1.amount > 0
                &&& res.1.amount + opt_amount(res.2) == amount
                &&& res.0 == old(self)@.streams.len() + 1
            },
    {
        self.check_not_paused()?;
        if end_time <= start_time {
            return Err(Error::InvalidRange);
        }
        if cliff_time < start_time || cliff_time >= end_time {
            return Err(Error::InvalidRange);
        }
        if amount <= 0 {
            return Err(Error::InvalidAmount);
        }
        let ghost a = amount as int;
        let ghost b = self.fee_bps as int;
        proof {
            assert(0 <= a * b <= i128::MAX);
            assert(0 <= a * b / 10000 < a) by (nonlinear_arith)
                requires
                    0 < a,
                    0 <= b <= 1000,
            ;
        }
        let fee_amount: i128 = (((amount as u128) * (self.fee_bps as u128)) / 10000) as i128;
        let principal: i128 = amount - fee_amount;
        let fee_transfer: Option<Transfer> = if fee_amount > 0 {
            let treasury = match self.treasury {
                Some(t) => t,
                None => unreached(),
            };
            Some(
                Transfer {
                    token,
                    from: Party::Account(sender),
                    to: Party::Account(treasury),
                    amount: fee_amount,
                },
            )
        } else {
            None
        };
        let stream_id: u64 = (self.streams.len() as u64) + 1;
        let stream = Stream {
            sender,
            receiver,
            token,
            amount: principal,
            start_time,
            cliff_time,
            end_time,
            withdrawn_amount: 0,
        };
        self.streams.push(Some(StreamSlot::Current(stream)));
        let principal_transfer = Transfer {
            token,
            from: Party::Account(sender),
            to: Party::Custody,
            amount: principal,
        };
        proof {
            let tr = create_stream_tr(
                old(self)@,
                sender,
                receiver,
                token,
                amount,
                start_time,
                cliff_time,
                end_time,
            );
            assert(self@.streams =~= tr.0.streams);
            assert(self@ =~= tr.0);
            assert forall|i: int| 0 <= i < self@.streams.len() implies slot_wf(
                #[trigger] self@.streams[i],
            ) by {
                if i < old(self)@.streams.len() {
                    assert(slot_wf(old(self)@.streams[i]));
                }
            }
        }
        Ok((stream_id, principal_transfer, fee_transfer))
    }

    /// Pays the stream's receiver everything unlocked at `now` that was not
    /// already withdrawn. The cumulative `withdrawn_amount` never decreases
    /// and, after the call, equals the unlocked amount at `now` — so it never
    /// exceeds it.
    pub fn withdraw(&mut self, stream_id: u64, receiver: Address, now: u64) -> (r: Result<
        (i128, Transfer),
        Error,
    >)
        requires
            old(self)@.wf(),
            old(self)@.has_current(stream_id) ==> stream_unlock_ok(
                old(self)@.current(stream_id),
                now,
            ),
        ensures
            final(self)@ == withdraw_tr(old(self)@, stream_id, receiver, now).0,
            r == withdraw_tr(old(self)@, stream_id, receiver, now).1,
            final(self)@.wf(),
            r matches Ok(p) ==> {
                let s = old(self)@.current(stream_id);
                let s2 = final(self)@.current(stream_id);
                &&& p.0 > 0
                &&& p.1.amount == p.0
                &&& s2.withdrawn_amount == s.withdrawn_amount + p.0
                &&& s.withdrawn_amount < s2.withdrawn_amount
                &&& s2.withdrawn_amount == stream_unlocked(s, now)
                &&& s2.withdrawn_amount <= s.amount
            },
            r matches Err(_) ==> final(self)@ == old(self)@,
    {
        self.check_not_paused()?;
        if stream_id < 1 || stream_id > self.streams.len() as u64 {
            return Err(Error::NotFound);
        }
        let idx: usize = (stream_id - 1) as usize;
        let slot: Option<StreamSlot> = self.streams[idx];
        let s: Stream = match slot {
            Some(StreamSlot::Current(s)) => s,
            _ => {
                return Err(Error::NotFound);
            },
        };
        if receiver != s.receiver {
            return Err(Error::Unauthorized);
        }
        proof {
            assert(slot_wf(old(self)@.streams[idx as int]));
        }
        let unlocked: i128 = calculate_unlocked(s.amount, s.start_time, s.cliff_time, s.end_time, now);
        let payable: i128 = unlocked - s.withdrawn_amount;
        if payable <= 0 {
            return Err(Error::NothingWithdrawable);
        }
        let updated = Stream { withdrawn_amount: s.withdrawn_amount + payable, ..s };
        self.streams[idx] = Some(StreamSlot::Current(updated));
        let t = Transfer {
            token: s.token,
            from: Party::Custody,
            to: Party::Account(receiver),
            amount: payable,
        };
        proof {
            let tr = withdraw_tr(old(self)@, stream_id, receiver, now);
            assert(self@.streams =~= tr.0.streams);
            assert(self@ =~= tr.0);
            assert forall|i: int| 0 <= i < self@.streams.len() implies slot_wf(
                #[trigger] self@.streams[i],
            ) by {
                assert(slot_wf(old(self)@.streams[i]));
            }
        }
        Ok((payable, t))
    }

    /// Cancels a stream before it matures: settles the unlocked part to the
    /// receiver, refunds the remainder to the sender (either transfer is
    /// skipped when it would move nothing), and removes the record. The id is
    /// permanently retired.
    pub fn cancel_stream(&mut self, stream_id: u64, caller: Address, now: u64) -> (r: Result<
        (Option<Transfer>, Option<Transfer>),
        Error,
    >)
        requires
            old(self)@.wf(),
            old(self)@.has_current(stream_id) ==> stream_unlock_ok(
                old(self)@.current(stream_id),
                now,
            ),
        ensures
            final(self)@ == cancel_stream_tr(old(self)@, stream_id, caller, now).0,
            r == cancel_stream_tr(old(self)@, stream_id, caller, now).1,
            final(self)@.wf(),
            r matches Ok(p) ==> {
                let s = old(self)@.current(stream_id);
                &&& opt_amount(p.0) >= 0
                &&& opt_amount(p.1) >= 0
                &&& s.withdrawn_amount <= stream_unlocked(s, now) ==> opt_amount(p.0)
                    + opt_amount(p.1) + s.withdrawn_amount == s.amount
                &&& !final(self)@.has_current(stream_id)
            },
            r matches Err(_) ==> final(self)@ == old(self)@,
    {
        self.check_not_paused()?;
        if stream_id < 1 || stream_id > self.streams.len() as u64 {
            return Err(Error::NotFound);
        }
        let idx: usize = (stream_id - 1) as usize;
        let slot: Option<StreamSlot> = self.streams[idx];
        let s: Stream = match slot {
            Some(StreamSlot::Current(s)) => s,
            _ => {
                return Err(Error::NotFound);
            },
        };
        if caller != s.sender {
            return Err(Error::Unauthorized);
        }
        if now >= s.end_time {
            return Err(Error::AlreadyCompleted);
        }
        proof {
            assert(slot_wf(old(self)@.streams[idx as int]));
        }
        let unlocked: i128 = calculate_unlocked(s.amount, s.start_time, s.cliff_time, s.end_time, now);
        let to_receiver: i128 = unlocked - s.withdrawn_amount;
        let refund: i128 = s.amount - unlocked;
        let t1: Option<Transfer> = if to_receiver > 0 {
            Some(
                Transfer {
                    token: s.token,
                    from: Party::Custody,
                    to: Party::Account(s.receiver),
                    amount: to_receiver,
                },
            )
        } else {
            None
        };
        let t2: Option<Transfer> = if refund > 0 {
            Some(
                Transfer {
                    token: s.token,
                    from: Party::Custody,
                    to: Party::Account(s.sender),
                    amount: refund,
                },
            )
        } else {
            None
        };
        self.streams[idx] = None;
        proof {
            let tr = cancel_stream_tr(old(self)@, stream_id, caller, now);
            assert(self@.streams =~= tr.0.streams);
            assert(self@ =~= tr.0);
            assert forall|i: int| 0 <= i < self@.streams.len() implies slot_wf(
                #[trigger] self@.streams[i],
            ) by {
                assert(slot_wf(old(self)@.streams[i]));
            }
        }
        Ok((t1, t2))
    }

    /// Reassigns the stream's receiver in place; only the current receiver
    /// may. No balance movement, and no pause check (matching the deployed
    /// behaviour).
    pub fn transfer_receiver(&mut self, stream_id: u64, new_receiver: Address, caller: Address) -> (r:
        Result<(), Error>)
        requires
            old(self)@.wf(),
        ensures
            final(self)@ == transfer_receiver_tr(old(self)@, stream_id, new_receiver, caller).0,
            r == transfer_receiver_tr(old(self)@, stream_id, new_receiver, caller).1,
            final(self)@.wf(),
    {
        if stream_id < 1 || stream_id > self.streams.len() as u64 {
            return Err(Error::NotFound);
        }
        let idx: usize = (stream_id - 1) as usize;
        let slot: Option<StreamSlot> = self.streams[idx];
        let s: Stream = match slot {
            Some(StreamSlot::Current(s)) => s,
            _ => {
                return Err(Error::NotFound);
            },
        };
        if caller != s.receiver {
            return Err(Error::Unauthorized);
        }
        let updated = Stream { receiver: new_receiver, ..s };
        self.streams[idx] = Some(StreamSlot::Current(updated));
        proof {
            assert(slot_wf(old(self)@.streams[idx as int]));
            let tr = transfer_receiver_tr(old(self)@, stream_id, new_receiver, caller);
            assert(self@.streams =~= tr.0.streams);
            assert(self@ =~= tr.0);
            assert forall|i: int| 0 <= i < self@.streams.len() implies slot_wf(
                #[trigger] self@.streams[i],
            ) by {
                assert(slot_wf(old(self)@.streams[i]));
            }
        }
        Ok(())
    }

    /// Creates one stream per request, consuming sequential ids in request
    /// order, against a single aggregate transfer of the sum of all request
    /// amounts. An invalid request aborts the whole batch before any effect.
    /// No fee is taken and the pause flag is not checked on this path,
    /// matching the deployed behaviour.
    pub fn create_batch_streams(
        &mut self,
        sender: Address,
        token: Address,
        requests: Vec<StreamRequest>,
    ) -> (r: Result<(Vec<u64>, Transfer), Error>)
        requires
            old(self)@.wf(),
            forall|k: int|
                0 <= k <= requests@.len() && valid_prefix(requests@, k) ==> prefix_sum(
                    requests@,
                    k,
                ) <= i128::MAX,
            old(self)@.streams.len() + requests@.len() < u64::MAX,
        ensures
            final(self)@ == create_batch_tr(old(self)@, sender, token, requests@).0,
            r.is_ok() == create_batch_tr(old(self)@, sender, token, requests@).1.is_ok(),
            r matches Ok(p) ==> ({
                let q = create_batch_tr(old(self)@, sender, token, requests@).1.unwrap();
                &&& p.0@ == q.0
                &&& p.1 == q.1
                &&& p.1.amount == prefix_sum(requests@, requests@.len() as int)
                &&& p.0@.len() == requests@.len()
                &&& forall|j: int|
                    0 <= j < requests@.len() ==> p.0@[j] == old(self)@.streams.len() + 1 + j
            }),
            r matches Err(e) ==> ({
                &&& create_batch_tr(old(self)@, sender, token, requests@).1 == Err::<
                    (Seq<u64>, Transfer),
                    Error,
                >(e)
                &&& final(self)@ == old(self)@
            }),
            final(self)@.wf(),
    {
        let n: usize = requests.len();
        let mut total: i128 = 0;
        let mut i: usize = 0;
        while i < n
            invariant
                i <= n == requests@.len(),
                *self == *old(self),
                old(self)@.wf(),
                valid_prefix(requests@, i as int),
                0 <= total,
                total == prefix_sum(requests@, i as int),
                forall|k: int|
                    0 <= k <= requests@.len() && valid_prefix(requests@, k) ==> prefix_sum(
                        requests@,
                        k,
                    ) <= i128::MAX,
                batch_validate_from(requests@, 0) == shift_validate(
                    total as int,
                    batch_validate_from(requests@, i as int),
                ),
            decreases n - i,
        {
            let rq = requests[i];
            if rq.end_time <= rq.start_time {
                assert(batch_validate_from(requests@, i as int) == Err::<int, Error>(
                    Error::InvalidRange,
                ));
                return Err(Error::InvalidRange);
            }
            if rq.amount <= 0 {
                assert(batch_validate_from(requests@, i as int) == Err::<int, Error>(
                    Error::InvalidAmount,
                ));
                return Err(Error::InvalidAmount);
            }
            proof {
                assert(req_valid(requests@[i as int]));
                assert(valid_prefix(requests@, i + 1));
                assert(prefix_sum(requests@, i + 1) == total + rq.amount);
                assert(batch_validate_from(requests@, i as int) == shift_validate(
                    rq.amount as int,
                    batch_validate_from(requests@, i + 1),
                ));
            }
            total = total + rq.amount;
            i = i + 1;
        }
        let transfer = Transfer {
            token,
            from: Party::Account(sender),
            to: Party::Custody,
            amount: total,
        };
        let base: u64 = self.streams.len() as u64;
        let mut stream_ids: Vec<u64> = Vec::new();
        let mut j: usize = 0;
        while j < n
            invariant
                j <= n == requests@.len(),
                valid_prefix(requests@, n as int),
                base == old(self)@.streams.len(),
                base + n < u64::MAX,
                self@.streams == old(self)@.streams + Seq::new(
                    j as nat,
                    |k: int| Some(
                        StreamSlot::Current(request_stream(sender, token, requests@[k])),
                    ),
                ),
                stream_ids@ == Seq::new(j as nat, |k: int| (base + 1 + k) as u64),
                self.admin == old(self).admin,
                self.treasury == old(self).treasury,
                self.fee_bps == old(self).fee_bps,
                self.is_paused == old(self).is_paused,
                self.contract_version == old(self).contract_version,
                self.executed_migrations@ == old(self).executed_migrations@,
            decreases n - j,
        {
            let rq = requests[j];
            let id: u64 = base + 1 + (j as u64);
            self.streams.push(
                Some(
                    StreamSlot::Current(
                        Stream {
                            sender,
                            receiver: rq.receiver,
                            token,
                            amount: rq.amount,
                            start_time: rq.start_time,
                            cliff_time: rq.cliff_time,
                            end_time: rq.end_time,
                            withdrawn_amount: 0,
                        },
                    ),
                ),
            );
            stream_ids.push(id);
            proof {
                assert(self@.streams =~= old(self)@.streams + Seq::new(
                    (j + 1) as nat,
                    |k: int| Some(
                        StreamSlot::Current(request_stream(sender, token, requests@[k])),
                    ),
                ));
                assert(stream_ids@ =~= Seq::new((j + 1) as nat, |k: int| (base + 1 + k) as u64));
            }
            j = j + 1;
        }
        proof {
            let tr = create_batch_tr(old(self)@, sender, token, requests@);
            assert(self@.streams =~= tr.0.streams);
            assert(self@ =~= tr.0);
            assert forall|k: int| 0 <= k < self@.streams.len() implies slot_wf(
                #[trigger] self@.streams[k],
            ) by {
                if k < old(self)@.streams.len() {
                    assert(slot_wf(old(self)@.streams[k]));
                } else {
                    assert(req_valid(requests@[k - old(self)@.streams.len()]));
                }
            }
        }
        Ok((stream_ids, transfer))
    }

    /// Whether the migration to `migration_version` has already been
    /// executed.
    fn is_migration_executed(&self, migration_version: u32) -> (r: bool)
        ensures
            r == self@.migration_executed(migration_version),
    {
        let mut i: usize = 0;
        while i < self.executed_migrations.len()
            invariant
                i <= self.executed_migrations@.len(),
                forall|j: int|
                    0 <= j < i ==> self.executed_migrations@[j] != migration_version,
            decreases self.executed_migrations@.len() - i,
        {
            if self.executed_migrations[i] == migration_version {
                assert(self.executed_migrations@[i as int] == migration_version);
                return true;
            }
            i = i + 1;
        }
        assert(!self@.executed.contains(migration_version));
        false
    }

    /// The bulk v1 to v2 pass: walks every allocated id and inspects the
    /// record. A record already in the current schema is skipped; a legacy
    /// record is deliberately left untouched — converting it is the job of
    /// the remedial per-record path, `migrate_single_stream`.
    fn migrate_v1_to_v2(&self) {
        let mut i: usize = 0;
        while i < self.streams.len()
            invariant
                i <= self.streams@.len(),
            decreases self.streams@.len() - i,
        {
            match self.streams[i] {
                None => {},
                Some(StreamSlot::Current(_)) => {},
                Some(StreamSlot::Legacy(_)) => {},
            }
            i = i + 1;
        }
    }

    /// Runs every migration step from the current version up to
    /// `target_version`, in ascending order; only the stored admin may, each
    /// target at most once, and only strictly forward. A version without a
    /// defined step aborts the whole operation with no partial range
    /// committed.
    pub fn migrate(&mut self, admin: Address, target_version: u32) -> (r: Result<(), Error>)
        requires
            old(self)@.admin.is_some(),
            old(self)@.wf(),
        ensures
            final(self)@ == migrate_tr(old(self)@, admin, target_version).0,
            r == migrate_tr(old(self)@, admin, target_version).1,
            final(self)@.wf(),
            r is Ok ==> final(self)@.version == target_version && final(self)@.migration_executed(
                target_version,
            ),
            r is Err ==> final(self)@ == old(self)@,
    {
        if !self.admin_matches(admin) {
            return Err(Error::Unauthorized);
        }
        if self.is_migration_executed(target_version) {
            return Err(Error::AlreadyMigrated);
        }
        let current_version = self.contract_version;
        if target_version <= current_version {
            return Err(Error::NonMonotonicMigration);
        }
        let mut v: u32 = current_version;
        while v < target_version
            invariant
                current_version <= v <= target_version,
                *self == *old(self),
                old(self)@.wf(),
                old(self)@.admin == Some(admin),
                !old(self)@.migration_executed(target_version),
                current_version == old(self)@.version,
                forall|u: int| current_version < u <= v ==> has_step(u),
            decreases target_version - v,
        {
            let version = v + 1;
            if version == 2 {
                self.migrate_v1_to_v2();
            } else {
                proof {
                    assert(!has_step(version as int));
                    assert(!all_steps_defined(current_version as int, target_version as int));
                }
                return Err(Error::UndefinedMigrationStep);
            }
            v = version;
        }
        proof {
            assert(all_steps_defined(current_version as int, target_version as int));
        }
        self.executed_migrations.push(target_version);
        self.contract_version = target_version;
        proof {
            let tr = migrate_tr(old(self)@, admin, target_version);
            assert(self@.executed =~= tr.0.executed);
            assert(self@ =~= tr.0);
            assert(self@.executed[old(self)@.executed.len() as int] == target_version);
        }
        Ok(())
    }

    /// The remedial per-record migration: reads the record strictly as the
    /// legacy schema and stores its current-schema equivalent in place, with
    /// `cliff_time := start_time` and every other field copied. Only the
    /// stored admin may; a missing or already-current record is refused.
    pub fn migrate_single_stream(&mut self, admin: Address, stream_id: u64) -> (r: Result<
        (),
        Error,
    >)
        requires
            old(self)@.admin.is_some(),
            old(self)@.wf(),
        ensures
            final(self)@ == migrate_single_tr(old(self)@, admin, stream_id).0,
            r == migrate_single_tr(old(self)@, admin, stream_id).1,
            final(self)@.wf(),
            r is Ok ==> final(self)@.has_current(stream_id) && final(self)@.current(
                stream_id,
            ).cliff_time == old(self)@.legacy(stream_id).start_time,
            r is Err ==> final(self)@ == old(self)@,
    {
        if !self.admin_matches(admin) {
            return Err(Error::Unauthorized);
        }
        if stream_id < 1 || stream_id > self.streams.len() as u64 {
            return Err(Error::NotFound);
        }
        let idx: usize = (stream_id - 1) as usize;
        let slot: Option<StreamSlot> = self.streams[idx];
        let l = match slot {
            Some(StreamSlot::Legacy(l)) => l,
            _ => {
                return Err(Error::NotFound);
            },
        };
        let migrated = Stream {
            sender: l.sender,
            receiver: l.receiver,
            token: l.token,
            amount: l.amount,
            start_time: l.start_time,
            cliff_time: l.start_time,
            end_time: l.end_time,
            withdrawn_amount: l.withdrawn_amount,
        };
        self.streams[idx] = Some(StreamSlot::Current(migrated));
        proof {
            assert(slot_wf(old(self)@.streams[idx as int]));
            let tr = migrate_single_tr(old(self)@, admin, stream_id);
            assert(self@.streams =~= tr.0.streams);
            assert(self@ =~= tr.0);
            assert forall|i: int| 0 <= i < self@.streams.len() implies slot_wf(
                #[trigger] self@.streams[i],
            ) by {
                assert(slot_wf(old(self)@.streams[i]));
            }
        }
        Ok(())
    }

    /// The storage key whose retention the host should refresh. A pure
    /// storage-retention hint: no logical state change.
    pub fn extend_stream_ttl(&self, stream_id: u64) -> (k: DataKey)
        ensures
            k == DataKey::Stream(stream_id),
    {
        DataKey::Stream(stream_id)
    }
}

} // verus!
