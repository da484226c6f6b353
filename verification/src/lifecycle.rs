//! The life of a stake pool as its operator drives it: register the pool,
//! delegate to it, retire it. Each step builds its certificate, assembles the
//! transaction that carries it, pays the fee that the ledger asks, and hands
//! the transaction to the ledger.

use vstd::prelude::*;
use crate::certificate::{
    build_delegation, build_registration, build_retirement, delegation_of, retirement_of,
    Certificate, CertificateView, PoolId,
};
use crate::error::{error_of, Error};
use crate::fees::LinearFees;
use crate::keys::{is_key_material, Account, AccountView};
use crate::ledger::Ledger;
use crate::model::{took_step, LedgerView};
use crate::transaction::{
    assemble, assembled, input_total, inputs_view, Input, InputView, Transaction,
    TransactionView,
};

verus! {

/// From when a pool's registration is valid, as the operator registers it.
pub const START_VALIDITY: u32 = 0;

/// How many owners must sign for the pool, as the operator registers it.
pub const MANAGEMENT_THRESHOLD: u32 = 1;

/// The registration of a pool with these two keys that `owner` registers.
pub open spec fn registration_of(
    vrf_key: Seq<u8>,
    kes_key: Seq<u8>,
    owner: Seq<u8>,
) -> CertificateView {
    CertificateView::Registration {
        vrf_key,
        kes_key,
        start_validity: START_VALIDITY,
        management_threshold: MANAGEMENT_THRESHOLD,
        owner,
    }
}

/// The transaction that carries `certificate` for the account of key
/// `account`: one input, which draws the fee on that account; the account
/// witnesses it and authorizes the certificate.
pub open spec fn certificate_transaction(
    fees: LinearFees,
    account: Seq<u8>,
    certificate: CertificateView,
) -> TransactionView {
    assembled(
        seq![InputView { address: account, value: fees.total(true) as u64 }],
        Some(certificate),
        fees,
        account,
        account,
    )
}

/// Whether the transaction that carries a certificate under `fees` can be
/// assembled: its one input must be able to declare the fee.
pub open spec fn can_assemble(fees: LinearFees) -> bool {
    fees.total(true) <= u64::MAX
}

/// What comes of submitting `certificate` for `account`. A fee that no
/// input can declare fails the assembly; any other fee is declared, and the
/// ledger decides.
pub open spec fn submission(
    ledger: LedgerView,
    account: Seq<u8>,
    certificate: CertificateView,
) -> Result<LedgerView, Error> {
    if can_assemble(ledger.fees) {
        ledger.apply(certificate_transaction(ledger.fees, account, certificate))
    } else {
        Err(Error::InsufficientFunds)
    }
}

/// The handle after a submission under `fees`: its counter has advanced if
/// the transaction was assembled, whatever the ledger made of it.
pub open spec fn after_submission(account: AccountView, fees: LinearFees) -> AccountView {
    if can_assemble(fees) {
        account.advanced()
    } else {
        account
    }
}

/// Submitting a certificate comes to this: the fee must be one that an input
/// can declare; the account must be the key whose authorization the
/// certificate needs; the certificate must apply; and the account must hold
/// the fee, which is then taken from it.
pub proof fn lemma_submission(ledger: LedgerView, account: Seq<u8>, certificate: CertificateView)
    ensures
        submission(ledger, account, certificate) == (if !can_assemble(ledger.fees) {
            Err::<LedgerView, Error>(Error::InsufficientFunds)
        } else if ledger.authority(certificate) is Some && ledger.authority(certificate) != Some(
            account,
        ) {
            Err(Error::SubmissionRejected)
        } else {
            match ledger.apply_certificate(certificate) {
                Ok(next) => next.settle(
                    account,
                    ledger.fees.total(true) as nat,
                    ledger.fees.total(true) as nat,
                ),
                Err(e) => Err(e),
            }
        }),
{
    let transaction = certificate_transaction(ledger.fees, account, certificate);
    assert(transaction.inputs.drop_last() == Seq::<InputView>::empty());
    assert(input_total(transaction.inputs.drop_last()) == 0);
    assert(input_total(transaction.inputs) == transaction.inputs[0].value);
}

/// Registering a pool succeeds exactly when the owner holds the fee and the
/// identifier that the registration derives is free.
pub proof fn lemma_registration_succeeds(
    ledger: LedgerView,
    account: Seq<u8>,
    vrf_key: Seq<u8>,
    kes_key: Seq<u8>,
)
    ensures
        submission(ledger, account, registration_of(vrf_key, kes_key, account)) is Ok <==> ({
            &&& ledger.fees.total(true) <= ledger.accounts[account].balance
            &&& !ledger.is_registered(registration_of(vrf_key, kes_key, account).pool_id())
        }),
{
    lemma_submission(ledger, account, registration_of(vrf_key, kes_key, account));
}

/// Delegating succeeds exactly when the account holds the fee and the pool
/// was ever registered: a pool that has retired will do, and so will the
/// pool that the account delegates to already.
pub proof fn lemma_delegation_succeeds(ledger: LedgerView, account: Seq<u8>, pool_id: Seq<u8>)
    ensures
        submission(ledger, account, delegation_of(pool_id, account)) is Ok <==> ({
            &&& ledger.fees.total(true) <= ledger.accounts[account].balance
            &&& ledger.is_registered(pool_id)
        }),
{
    lemma_submission(ledger, account, delegation_of(pool_id, account));
}

/// Retiring succeeds exactly when the account holds the fee, the pool is
/// active and the account is its owner.
pub proof fn lemma_retirement_succeeds(ledger: LedgerView, account: Seq<u8>, pool_id: Seq<u8>)
    ensures
        submission(ledger, account, retirement_of(pool_id)) is Ok <==> ({
            &&& ledger.fees.total(true) <= ledger.accounts[account].balance
            &&& ledger.is_active(pool_id)
            &&& ledger.pools[pool_id].owner == account
        }),
{
    lemma_submission(ledger, account, retirement_of(pool_id));
}

/// Assembles the transaction that carries `certificate` for `account` under
/// `fees`: one input, which draws the fee on the account, witnessed and
/// authorized by the account.
///
/// Fails with `InsufficientFunds`, and leaves the handle as it was, exactly
/// when the fee is more than an input can declare. Otherwise the handle's
/// counter advances, whatever becomes of the transaction.
pub fn assemble_with_certificate(
    account: &mut Account,
    fees: &LinearFees,
    certificate: Certificate,
) -> (built: Result<Transaction, Error>)
    requires
        old(account)@.counter < u64::MAX,
    ensures
        final(account)@ == after_submission(old(account)@, *fees),
        can_assemble(*fees) ==> built is Ok,
        built is Ok ==> built->Ok_0@ == certificate_transaction(
            *fees,
            old(account)@.public_key,
            certificate@,
        ),
        !can_assemble(*fees) ==> error_of(built) == Some(Error::InsufficientFunds),
{
    let fee = fees.calculate(true);
    let fee_value: u64 = if fee <= u64::MAX as u128 {
        fee as u64
    } else {
        u64::MAX
    };
    let mut inputs: Vec<Input> = Vec::new();
    inputs.push(Input { address: account.address(), value: fee_value });
    proof {
        let declared = inputs_view(inputs@);
        assert(declared == seq![InputView { address: account@.public_key, value: fee_value }]);
        assert(declared.drop_last() == Seq::<InputView>::empty());
        assert(input_total(declared.drop_last()) == 0);
        assert(input_total(declared) == fee_value);
    }
    assemble(inputs, Some(certificate), fees, account, None)
}

/// Assembles the transaction that carries `certificate` and hands it to the
/// ledger.
fn submit_certificate(
    account: &mut Account,
    ledger: &mut Ledger,
    certificate: Certificate,
) -> (submitted: Result<(), Error>)
    requires
        old(ledger).well_formed(),
        old(account)@.counter < u64::MAX,
    ensures
        final(ledger).well_formed(),
        final(account)@ == after_submission(old(account)@, old(ledger)@.fees),
        took_step(
            old(ledger)@,
            submission(old(ledger)@, old(account)@.public_key, certificate@),
            final(ledger)@,
            error_of(submitted),
        ),
{
    let fees = ledger.fees();
    let transaction = match assemble_with_certificate(account, &fees, certificate) {
        Ok(transaction) => transaction,
        Err(e) => {
            return Err(e);
        },
    };
    ledger.apply(&transaction)
}

/// Registers a new stake pool that `account` owns, with the two pool keys
/// given as decoded key material, and returns the pool's identifier.
///
/// Fails with `InvalidKeyEncoding`, before anything is assembled, exactly
/// when one of the two is not key material. Otherwise the registration is
/// submitted: the handle's counter advances once the transaction is
/// assembled, the ledger takes the step or stays where it was, and a pool
/// that was registered is listed as active under the identifier returned.
pub fn create_new_stake_pool(
    account: &mut Account,
    ledger: &mut Ledger,
    vrf_public_key: &[u8],
    kes_public_key: &[u8],
) -> (created: Result<PoolId, Error>)
    requires
        old(ledger).well_formed(),
        old(account)@.counter < u64::MAX,
    ensures
        final(ledger).well_formed(),
        !(is_key_material(vrf_public_key@) && is_key_material(kes_public_key@)) ==> ({
            &&& error_of(created) == Some(Error::InvalidKeyEncoding)
            &&& final(ledger)@ == old(ledger)@
            &&& final(account)@ == old(account)@
        }),
        is_key_material(vrf_public_key@) && is_key_material(kes_public_key@) ==> ({
            &&& final(account)@ == after_submission(old(account)@, old(ledger)@.fees)
            &&& took_step(
                old(ledger)@,
                submission(
                    old(ledger)@,
                    old(account)@.public_key,
                    registration_of(vrf_public_key@, kes_public_key@, old(account)@.public_key),
                ),
                final(ledger)@,
                error_of(created),
            )
        }),
        created is Ok ==> created->Ok_0@ == registration_of(
            vrf_public_key@,
            kes_public_key@,
            old(account)@.public_key,
        ).pool_id(),
        created is Ok ==> final(ledger)@.active_pools().contains(created->Ok_0@),
{
    let certificate = match build_registration(
        vrf_public_key,
        kes_public_key,
        START_VALIDITY,
        MANAGEMENT_THRESHOLD,
        account.public_key().as_bytes(),
    ) {
        Ok(certificate) => certificate,
        Err(e) => {
            return Err(e);
        },
    };
    let stake_pool_id = certificate.pool_id();
    match submit_certificate(account, ledger, certificate) {
        Ok(()) => Ok(stake_pool_id),
        Err(e) => Err(e),
    }
}

/// Delegates `account` to the pool `stake_pool_id`. The delegation is
/// submitted: the handle's counter advances once the transaction is
/// assembled, the ledger takes the step or stays where it was, and an
/// account whose delegation was accepted delegates to the pool.
pub fn delegate_stake(
    account: &mut Account,
    stake_pool_id: &PoolId,
    ledger: &mut Ledger,
) -> (delegated: Result<(), Error>)
    requires
        old(ledger).well_formed(),
        old(account)@.counter < u64::MAX,
    ensures
        final(ledger).well_formed(),
        final(account)@ == after_submission(old(account)@, old(ledger)@.fees),
        took_step(
            old(ledger)@,
            submission(
                old(ledger)@,
                old(account)@.public_key,
                delegation_of(stake_pool_id@, old(account)@.public_key),
            ),
            final(ledger)@,
            error_of(delegated),
        ),
        delegated is Ok ==> final(ledger)@.accounts[old(account)@.public_key].delegation == Some(
            stake_pool_id@,
        ),
{
    let certificate = build_delegation(stake_pool_id, account.public_key());
    submit_certificate(account, ledger, certificate)
}

/// Retires the pool `stake_pool_id`, which `account` owns. The retirement is
/// submitted: the handle's counter advances once the transaction is
/// assembled, and the ledger takes the step or stays where it was. A pool
/// whose retirement was accepted is no longer listed, while every account
/// delegates to what it delegated to before.
pub fn retire_stake_pool(
    stake_pool_id: &PoolId,
    account: &mut Account,
    ledger: &mut Ledger,
) -> (retired: Result<(), Error>)
    requires
        old(ledger).well_formed(),
        old(account)@.counter < u64::MAX,
    ensures
        final(ledger).well_formed(),
        final(account)@ == after_submission(old(account)@, old(ledger)@.fees),
        took_step(
            old(ledger)@,
            submission(
                old(ledger)@,
                old(account)@.public_key,
                retirement_of(stake_pool_id@),
            ),
            final(ledger)@,
            error_of(retired),
        ),
        retired is Ok ==> !final(ledger)@.active_pools().contains(stake_pool_id@),
        forall|address: Seq<u8>| #[trigger]
            final(ledger)@.accounts[address].delegation
                == old(ledger)@.accounts[address].delegation,
{
    let certificate = build_retirement(stake_pool_id);
    submit_certificate(account, ledger, certificate)
}

} // verus!
