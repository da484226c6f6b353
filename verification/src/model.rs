//! The ledger state machine as mathematics: which pools exist and in what
//! state, what each account holds and to which pool it delegates, and how a
//! certificate or a transaction moves the ledger from one state to the next.

use vstd::prelude::*;
use crate::certificate::{
    delegation_of, lemma_registrations_collision_free, retirement_of, CertificateView,
};
use crate::error::{error_of, Error};
use crate::fees::LinearFees;
use crate::transaction::{input_total, TransactionView};

verus! {

/// Where a registered pool stands in its life. A pool that was never
/// registered has no status; a retired pool stays retired.
#[derive(Clone, Copy, Debug, PartialEq, Eq, Structural)]
pub enum PoolStatus {
    Active,
    Retired,
}

/// What the ledger records of a pool.
pub struct PoolRecord {
    pub vrf_key: Seq<u8>,
    pub kes_key: Seq<u8>,
    pub owner: Seq<u8>,
    pub status: PoolStatus,
}

/// What the ledger records of an account.
pub struct AccountRecord {
    pub balance: u64,
    pub delegation: Option<Seq<u8>>,
}

/// The record of an account that the ledger has never heard of.
pub open spec fn untouched_account() -> AccountRecord {
    AccountRecord { balance: 0, delegation: None }
}

/// The state of the ledger: the fee schedule in force, the pools by
/// identifier, and the record of every account by address.
#[verifier::ext_equal]
pub struct LedgerView {
    pub fees: LinearFees,
    pub pools: Map<Seq<u8>, PoolRecord>,
    pub accounts: Map<Seq<u8>, AccountRecord>,
}

impl LedgerView {
    /// The ledger before anything happened.
    pub open spec fn genesis(fees: LinearFees) -> LedgerView {
        LedgerView {
            fees,
            pools: Map::empty(),
            accounts: Map::total(|address: Seq<u8>| untouched_account()),
        }
    }

    /// The pool was registered at some time, whatever became of it.
    pub open spec fn is_registered(self, pool_id: Seq<u8>) -> bool {
        self.pools.dom().contains(pool_id)
    }

    /// The pool is registered and not retired.
    pub open spec fn is_active(self, pool_id: Seq<u8>) -> bool {
        self.is_registered(pool_id) && self.pools[pool_id].status == PoolStatus::Active
    }

    /// The pools that a listing shows.
    pub open spec fn active_pools(self) -> Set<Seq<u8>> {
        Set::new(|pool_id: Seq<u8>| self.is_active(pool_id))
    }

    /// The ledger with `value` more in the account at `address`.
    pub open spec fn fund(self, address: Seq<u8>, value: u64) -> LedgerView {
        LedgerView {
            accounts: self.accounts.insert(
                address,
                AccountRecord {
                    balance: (self.accounts[address].balance + value) as u64,
                    ..self.accounts[address]
                },
            ),
            ..self
        }
    }

    /// What a certificate does to the ledger.
    ///
    /// A registration creates its pool, active, unless the identifier it
    /// derives is taken. A delegation points its account at its pool, whatever
    /// the account pointed at before, provided the pool was ever registered.
    /// A retirement retires its pool, provided the pool is registered and
    /// still active; the accounts that delegate to the pool are left alone.
    pub open spec fn apply_certificate(self, certificate: CertificateView) -> Result<
        LedgerView,
        Error,
    > {
        match certificate {
            CertificateView::Registration { vrf_key, kes_key, owner, .. } => {
                if self.is_registered(certificate.pool_id()) {
                    Err(Error::DuplicatePoolId)
                } else {
                    Ok(
                        LedgerView {
                            pools: self.pools.insert(
                                certificate.pool_id(),
                                PoolRecord { vrf_key, kes_key, owner, status: PoolStatus::Active },
                            ),
                            ..self
                        },
                    )
                }
            },
            CertificateView::Delegation { pool_id, account } => {
                if !self.is_registered(pool_id) {
                    Err(Error::UnknownPool)
                } else {
                    Ok(
                        LedgerView {
                            accounts: self.accounts.insert(
                                account,
                                AccountRecord {
                                    delegation: Some(pool_id),
                                    ..self.accounts[account]
                                },
                            ),
                            ..self
                        },
                    )
                }
            },
            CertificateView::Retirement { pool_id } => {
                if !self.is_registered(pool_id) {
                    Err(Error::UnknownPool)
                } else if self.pools[pool_id].status == PoolStatus::Retired {
                    Err(Error::AlreadyRetired)
                } else {
                    Ok(
                        LedgerView {
                            pools: self.pools.insert(
                                pool_id,
                                PoolRecord { status: PoolStatus::Retired, ..self.pools[pool_id] },
                            ),
                            ..self
                        },
                    )
                }
            },
        }
    }

    /// The key whose authorization a certificate needs: the owner it names,
    /// for a registration; the account that delegates, for a delegation; the
    /// owner of the pool, for the retirement of a registered pool. The
    /// retirement of a pool that was never registered has no owner to ask.
    pub open spec fn authority(self, certificate: CertificateView) -> Option<Seq<u8>> {
        match certificate {
            CertificateView::Registration { owner, .. } => Some(owner),
            CertificateView::Delegation { account, .. } => Some(account),
            CertificateView::Retirement { pool_id } => if self.is_registered(pool_id) {
                Some(self.pools[pool_id].owner)
            } else {
                None
            },
        }
    }

    /// The signatures are in order: the witness is that of the account on
    /// which every input draws, and the certificate, if there is one that
    /// needs an authorization, has that of the right key.
    pub open spec fn authorizes(self, transaction: TransactionView) -> bool {
        &&& forall|i: int|
            0 <= i < transaction.inputs.len() ==> (#[trigger] transaction.inputs[i]).address
                == transaction.witness
        &&& match transaction.certificate {
            Some(certificate) => match self.authority(certificate) {
                Some(key) => transaction.auth == Some(key),
                None => true,
            },
            None => true,
        }
    }

    /// Takes `fee` from the account at `payer`, which must hold what the
    /// inputs declare, which in turn must cover the fee.
    pub open spec fn settle(self, payer: Seq<u8>, declared: nat, fee: nat) -> Result<
        LedgerView,
        Error,
    > {
        if self.accounts[payer].balance < declared || declared < fee {
            Err(Error::InsufficientFunds)
        } else {
            Ok(
                LedgerView {
                    accounts: self.accounts.insert(
                        payer,
                        AccountRecord {
                            balance: (self.accounts[payer].balance - fee) as u64,
                            ..self.accounts[payer]
                        },
                    ),
                    ..self
                },
            )
        }
    }

    /// What a transaction does to the ledger: the signatures are checked,
    /// then the certificate is applied, then the fee is taken from the
    /// account that witnessed the transaction. The first step that fails
    /// gives the error, and the ledger stays as it was.
    pub open spec fn apply(self, transaction: TransactionView) -> Result<LedgerView, Error> {
        if !self.authorizes(transaction) {
            Err(Error::SubmissionRejected)
        } else {
            let certified = match transaction.certificate {
                Some(certificate) => self.apply_certificate(certificate),
                None => Ok(self),
            };
            match certified {
                Ok(next) => next.settle(
                    transaction.witness,
                    input_total(transaction.inputs),
                    transaction.fee,
                ),
                Err(e) => Err(e),
            }
        }
    }
}

/// A step is all or nothing: where the outcome is a new state, the ledger is
/// in that state and there is no error; where the outcome is an error, that
/// is the error and the ledger is where it was.
pub open spec fn took_step(
    before: LedgerView,
    outcome: Result<LedgerView, Error>,
    after: LedgerView,
    error: Option<Error>,
) -> bool {
    match outcome {
        Ok(next) => after == next && error is None,
        Err(e) => after == before && error == Some(e),
    }
}

/// A registration that is accepted leaves its pool active, and the same
/// registration offered again is refused as a duplicate.
pub proof fn lemma_registration_once(ledger: LedgerView, registration: CertificateView)
    requires
        registration is Registration,
        ledger.apply_certificate(registration) is Ok,
    ensures
        !ledger.is_registered(registration.pool_id()),
        ledger.apply_certificate(registration)->Ok_0.is_active(registration.pool_id()),
        error_of(ledger.apply_certificate(registration)->Ok_0.apply_certificate(registration))
            == Some(Error::DuplicatePoolId),
{
}

/// A registration is refused exactly when the identifier it derives is taken,
/// and then as a duplicate.
pub proof fn lemma_registration_refused(ledger: LedgerView, registration: CertificateView)
    requires
        registration is Registration,
    ensures
        ledger.is_registered(registration.pool_id()) <==> error_of(
            ledger.apply_certificate(registration),
        ) == Some(Error::DuplicatePoolId),
        !ledger.is_registered(registration.pool_id()) <==> ledger.apply_certificate(registration)
            is Ok,
{
}

/// Registrations of key material that differ in any key or parameter do not
/// stand in each other's way: after the first is accepted, the second is
/// accepted exactly when it would have been before.
pub proof fn lemma_distinct_registrations_coexist(
    ledger: LedgerView,
    first: CertificateView,
    second: CertificateView,
)
    requires
        first is Registration,
        second is Registration,
        first.well_formed(),
        second.well_formed(),
        first != second,
        ledger.apply_certificate(first) is Ok,
    ensures
        ledger.apply_certificate(first)->Ok_0.apply_certificate(second) is Ok
            <==> ledger.apply_certificate(second) is Ok,
{
    lemma_registrations_collision_free(first, second);
}

/// Delegating to a pool that was ever registered, active or retired, always
/// succeeds and points the account at the pool; doing it again succeeds
/// again and changes nothing.
pub proof fn lemma_delegation_idempotent(ledger: LedgerView, pool_id: Seq<u8>, account: Seq<u8>)
    requires
        ledger.is_registered(pool_id),
    ensures
        ledger.apply_certificate(delegation_of(pool_id, account)) is Ok,
        ledger.apply_certificate(delegation_of(pool_id, account))->Ok_0.accounts[account].delegation
            == Some(pool_id),
        ledger.apply_certificate(delegation_of(pool_id, account))->Ok_0.apply_certificate(
            delegation_of(pool_id, account),
        ) == ledger.apply_certificate(delegation_of(pool_id, account)),
{
    let once = ledger.apply_certificate(delegation_of(pool_id, account))->Ok_0;
    let twice = once.apply_certificate(delegation_of(pool_id, account))->Ok_0;
    assert(twice.accounts =~= once.accounts);
}

/// Delegating to a pool that was never registered fails with `UnknownPool`.
pub proof fn lemma_delegation_unknown(ledger: LedgerView, pool_id: Seq<u8>, account: Seq<u8>)
    requires
        !ledger.is_registered(pool_id),
    ensures
        error_of(ledger.apply_certificate(delegation_of(pool_id, account))) == Some(
            Error::UnknownPool,
        ),
{
}

/// Retiring a pool that was never registered fails with `UnknownPool`.
pub proof fn lemma_retirement_unknown(ledger: LedgerView, pool_id: Seq<u8>)
    requires
        !ledger.is_registered(pool_id),
    ensures
        error_of(ledger.apply_certificate(retirement_of(pool_id))) == Some(Error::UnknownPool),
{
}

/// Retiring an active pool succeeds; retiring it again fails with
/// `AlreadyRetired`.
pub proof fn lemma_retirement_once(ledger: LedgerView, pool_id: Seq<u8>)
    requires
        ledger.is_active(pool_id),
    ensures
        ledger.apply_certificate(retirement_of(pool_id)) is Ok,
        error_of(
            ledger.apply_certificate(retirement_of(pool_id))->Ok_0.apply_certificate(
                retirement_of(pool_id),
            ),
        ) == Some(Error::AlreadyRetired),
{
}

/// After a retirement the pool is registered still but no longer listed, the
/// other pools are listed as before, and every account is as it was: whoever
/// delegated to the pool still does.
pub proof fn lemma_retirement_keeps_delegations(ledger: LedgerView, pool_id: Seq<u8>)
    requires
        ledger.apply_certificate(retirement_of(pool_id)) is Ok,
    ensures
        ledger.is_active(pool_id),
        ledger.apply_certificate(retirement_of(pool_id))->Ok_0.is_registered(pool_id),
        ledger.apply_certificate(retirement_of(pool_id))->Ok_0.active_pools()
            == ledger.active_pools().remove(pool_id),
        ledger.apply_certificate(retirement_of(pool_id))->Ok_0.accounts == ledger.accounts,
{
    let next = ledger.apply_certificate(retirement_of(pool_id))->Ok_0;
    assert(next.active_pools() =~= ledger.active_pools().remove(pool_id));
}

/// No certificate unregisters a pool or brings a retired pool back.
pub proof fn lemma_retired_is_terminal(
    ledger: LedgerView,
    certificate: CertificateView,
    pool_id: Seq<u8>,
)
    requires
        ledger.apply_certificate(certificate) is Ok,
        ledger.is_registered(pool_id),
    ensures
        ledger.apply_certificate(certificate)->Ok_0.is_registered(pool_id),
        !ledger.is_active(pool_id) ==> !ledger.apply_certificate(certificate)->Ok_0.is_active(
            pool_id,
        ),
{
}

/// A transaction that is accepted does to the pools and to the delegations
/// what its certificate does, and takes its fee, and no more, from the
/// account that witnessed it.
pub proof fn lemma_transaction_effect(ledger: LedgerView, transaction: TransactionView)
    requires
        ledger.apply(transaction) is Ok,
    ensures
        ({
            let next = ledger.apply(transaction)->Ok_0;
            let certified = match transaction.certificate {
                Some(certificate) => ledger.apply_certificate(certificate)->Ok_0,
                None => ledger,
            };
            let payer = transaction.witness;
            &&& ledger.authorizes(transaction)
            &&& transaction.certificate is Some ==> ledger.apply_certificate(
                transaction.certificate->Some_0,
            ) is Ok
            &&& next.fees == ledger.fees
            &&& next.pools == certified.pools
            &&& forall|address: Seq<u8>| #[trigger]
                next.accounts[address].delegation == certified.accounts[address].delegation
            &&& forall|address: Seq<u8>|
                address != payer ==> #[trigger] next.accounts[address].balance
                    == ledger.accounts[address].balance
            &&& transaction.fee <= ledger.accounts[payer].balance
            &&& next.accounts[payer].balance == ledger.accounts[payer].balance - transaction.fee
        }),
{
}

} // verus!
