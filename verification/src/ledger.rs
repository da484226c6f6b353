//! The ledger itself: the state machine of `model`, kept in two tables.

use vstd::prelude::*;
use crate::certificate::{derive_pool_id, Certificate, PoolId};
use crate::error::{error_of, Error};
use crate::fees::LinearFees;
use crate::keys::{Address, PublicKey};
use crate::model::{
    took_step, untouched_account, AccountRecord, LedgerView, PoolRecord, PoolStatus,
};
use crate::table::{
    as_map, as_total_map, distinct_keys, has_key, lemma_row_found, lemma_row_pushed,
    lemma_row_pushed_total, lemma_row_replaced, lemma_row_replaced_total, row_of,
};
use crate::transaction::{inputs_view, key_view, sum_inputs, Transaction};

verus! {

/// A registered pool: its identifier, its keys and where it stands.
#[derive(Debug)]
struct StakePool {
    id: PoolId,
    vrf_key: PublicKey,
    kes_key: PublicKey,
    owner: PublicKey,
    status: PoolStatus,
}

impl StakePool {
    spec fn record(self) -> PoolRecord {
        PoolRecord {
            vrf_key: self.vrf_key@,
            kes_key: self.kes_key@,
            owner: self.owner@,
            status: self.status,
        }
    }
}

/// The view of an optional pool identifier.
pub open spec fn pool_id_view(pool_id: Option<PoolId>) -> Option<Seq<u8>> {
    match pool_id {
        Some(id) => Some(id@),
        None => None,
    }
}

/// An account that the ledger has heard of.
#[derive(Debug)]
struct AccountEntry {
    address: Address,
    balance: u64,
    delegation: Option<PoolId>,
}

impl AccountEntry {
    spec fn record(self) -> AccountRecord {
        AccountRecord { balance: self.balance, delegation: pool_id_view(self.delegation) }
    }
}

/// What the ledger reports of an account.
#[derive(Debug)]
pub struct AccountState {
    pub balance: u64,
    pub delegation: Option<PoolId>,
}

impl View for AccountState {
    type V = AccountRecord;

    open spec fn view(&self) -> AccountRecord {
        AccountRecord { balance: self.balance, delegation: pool_id_view(self.delegation) }
    }
}

impl AccountState {
    /// Whether the account delegates to this pool.
    pub fn delegates_to(&self, pool_id: &PoolId) -> (delegates: bool)
        ensures
            delegates == (self@.delegation == Some(pool_id@)),
    {
        match &self.delegation {
            Some(id) => id.same(pool_id),
            None => false,
        }
    }
}

spec fn pool_rows(pools: Seq<StakePool>) -> Seq<(Seq<u8>, PoolRecord)> {
    Seq::new(pools.len(), |i: int| (pools[i].id@, pools[i].record()))
}

spec fn account_rows(accounts: Seq<AccountEntry>) -> Seq<(Seq<u8>, AccountRecord)> {
    Seq::new(accounts.len(), |i: int| (accounts[i].address@, accounts[i].record()))
}

/// The pools that a listing names.
pub open spec fn listed(listing: Seq<PoolId>) -> Set<Seq<u8>> {
    Set::new(
        |pool_id: Seq<u8>|
            exists|i: int| 0 <= i < listing.len() && (#[trigger] listing[i])@ == pool_id,
    )
}

/// Whether a listing names the pool.
pub fn is_listed(listing: &Vec<PoolId>, pool_id: &PoolId) -> (found: bool)
    ensures
        found == listed(listing@).contains(pool_id@),
{
    let mut i: usize = 0;
    while i < listing.len()
        invariant
            i <= listing.len(),
            forall|j: int| 0 <= j < i ==> (#[trigger] listing[j])@ != pool_id@,
        decreases listing.len() - i,
    {
        if listing[i].same(pool_id) {
            return true;
        }
        i += 1;
    }
    false
}

/// A ledger: a single instance that takes transactions one after the other.
#[derive(Debug)]
pub struct Ledger {
    fees: LinearFees,
    pools: Vec<StakePool>,
    accounts: Vec<AccountEntry>,
}

impl View for Ledger {
    type V = LedgerView;

    closed spec fn view(&self) -> LedgerView {
        LedgerView {
            fees: self.fees,
            pools: as_map(pool_rows(self.pools@)),
            accounts: as_total_map(account_rows(self.accounts@), untouched_account()),
        }
    }
}

impl Ledger {
    /// No pool and no account stands twice in its table.
    pub closed spec fn well_formed(&self) -> bool {
        &&& distinct_keys(pool_rows(self.pools@))
        &&& distinct_keys(account_rows(self.accounts@))
    }

    /// The ledger at genesis, with the fee schedule that holds on it.
    pub fn new(fees: LinearFees) -> (ledger: Ledger)
        ensures
            ledger.well_formed(),
            ledger@ == LedgerView::genesis(fees),
    {
        let ledger = Ledger { fees, pools: Vec::new(), accounts: Vec::new() };
        assert(ledger@.pools =~= Map::empty());
        assert(ledger@.accounts =~= Map::total(|address: Seq<u8>| untouched_account()));
        ledger
    }

    /// The fee schedule in force.
    pub fn fees(&self) -> (fees: LinearFees)
        ensures
            fees == self@.fees,
    {
        self.fees
    }

    fn find_pool(&self, pool_id: &PoolId) -> (found: Option<usize>)
        requires
            self.well_formed(),
        ensures
            found is Some <==> self@.is_registered(pool_id@),
            found is Some ==> found->Some_0 < self.pools.len(),
            found is Some ==> self.pools[found->Some_0 as int].id@ == pool_id@,
            found is Some ==> self@.pools[pool_id@] == self.pools[found->Some_0 as int].record(),
    {
        let ghost rows = pool_rows(self.pools@);
        let mut i: usize = 0;
        while i < self.pools.len()
            invariant
                i <= self.pools.len(),
                self.well_formed(),
                rows == pool_rows(self.pools@),
                forall|j: int| 0 <= j < i ==> (#[trigger] rows[j]).0 != pool_id@,
            decreases self.pools.len() - i,
        {
            if self.pools[i].id.same(pool_id) {
                proof {
                    assert(rows[i as int].0 == pool_id@);
                    lemma_row_found(rows, i as int);
                }
                return Some(i);
            }
            i += 1;
        }
        None
    }

    fn find_account(&self, key: &PublicKey) -> (found: Option<usize>)
        requires
            self.well_formed(),
        ensures
            found is Some <==> has_key(account_rows(self.accounts@), key@),
            found is Some ==> found->Some_0 < self.accounts.len(),
            found is Some ==> self.accounts[found->Some_0 as int].address@ == key@,
            found is Some ==> self@.accounts[key@] == self.accounts[found->Some_0 as int].record(),
            found is None ==> self@.accounts[key@] == untouched_account(),
    {
        let ghost rows = account_rows(self.accounts@);
        let mut i: usize = 0;
        while i < self.accounts.len()
            invariant
                i <= self.accounts.len(),
                self.well_formed(),
                rows == account_rows(self.accounts@),
                forall|j: int| 0 <= j < i ==> (#[trigger] rows[j]).0 != key@,
            decreases self.accounts.len() - i,
        {
            if self.accounts[i].address.key().same(key) {
                proof {
                    assert(rows[i as int].0 == key@);
                    lemma_row_found(rows, i as int);
                }
                return Some(i);
            }
            i += 1;
        }
        None
    }

    fn read_account(&self, key: &PublicKey) -> (state: AccountState)
        requires
            self.well_formed(),
        ensures
            state@ == self@.accounts[key@],
    {
        match self.find_account(key) {
            Some(i) => {
                let entry = &self.accounts[i];
                let delegation = match &entry.delegation {
                    Some(id) => Some(id.clone()),
                    None => None,
                };
                AccountState { balance: entry.balance, delegation }
            },
            None => AccountState { balance: 0, delegation: None },
        }
    }

    fn write_account(&mut self, key: &PublicKey, state: AccountState)
        requires
            old(self).well_formed(),
        ensures
            final(self).well_formed(),
            final(self)@ == (LedgerView {
                accounts: old(self)@.accounts.insert(key@, state@),
                ..old(self)@
            }),
    {
        let ghost rows = account_rows(self.accounts@);
        let ghost record = state@;
        let found = self.find_account(key);
        let entry = AccountEntry {
            address: Address::single(key),
            balance: state.balance,
            delegation: state.delegation,
        };
        assert(entry.record() == record);
        match found {
            Some(i) => {
                self.accounts.set(i, entry);
                proof {
                    lemma_row_replaced_total(rows, i as int, record, untouched_account());
                    assert(account_rows(self.accounts@) =~= rows.update(
                        i as int,
                        (rows[i as int].0, record),
                    ));
                }
            },
            None => {
                self.accounts.push(entry);
                proof {
                    lemma_row_pushed_total(rows, key@, record, untouched_account());
                    assert(account_rows(self.accounts@) =~= rows.push((key@, record)));
                }
            },
        }
    }

    /// Credits `value` to the account at `address`, as the genesis block does
    /// for each of its funds.
    pub fn fund(&mut self, address: &Address, value: u64)
        requires
            old(self).well_formed(),
            old(self)@.accounts[address@].balance + value <= u64::MAX,
        ensures
            final(self).well_formed(),
            final(self)@ == old(self)@.fund(address@, value),
    {
        let state = self.read_account(address.key());
        self.write_account(
            address.key(),
            AccountState { balance: state.balance + value, delegation: state.delegation },
        );
    }

    /// What the ledger holds for the account at `address`: its balance and
    /// the pool it delegates to, retired or not.
    pub fn account_state(&self, address: &Address) -> (state: AccountState)
        requires
            self.well_formed(),
        ensures
            state@ == self@.accounts[address@],
    {
        self.read_account(address.key())
    }

    /// Where the pool stands, if it was ever registered.
    pub fn pool_status(&self, pool_id: &PoolId) -> (status: Option<PoolStatus>)
        requires
            self.well_formed(),
        ensures
            self@.is_registered(pool_id@) ==> status == Some(self@.pools[pool_id@].status),
            !self@.is_registered(pool_id@) ==> status is None,
    {
        match self.find_pool(pool_id) {
            Some(i) => Some(self.pools[i].status),
            None => None,
        }
    }

    /// The active pools, each once. A retired pool is not among them.
    pub fn list_active_pools(&self) -> (listing: Vec<PoolId>)
        requires
            self.well_formed(),
        ensures
            listed(listing@) == self@.active_pools(),
            forall|i: int, j: int|
                0 <= i < j < listing.len() ==> (#[trigger] listing[i])@ != (#[trigger] listing[j])@,
    {
        let ghost rows = pool_rows(self.pools@);
        let ghost mut sources: Seq<int> = Seq::empty();
        let mut listing: Vec<PoolId> = Vec::new();
        let mut i: usize = 0;
        while i < self.pools.len()
            invariant
                i <= self.pools.len(),
                self.well_formed(),
                rows == pool_rows(self.pools@),
                sources.len() == listing.len(),
                forall|k: int|
                    0 <= k < sources.len() ==> 0 <= (#[trigger] sources[k]) < i && listing[k]@
                        == rows[sources[k]].0 && rows[sources[k]].1.status == PoolStatus::Active,
                forall|k: int, l: int|
                    0 <= k < l < sources.len() ==> (#[trigger] sources[k]) < (
                    #[trigger] sources[l]),
                forall|j: int|
                    0 <= j < i && (#[trigger] rows[j]).1.status == PoolStatus::Active ==> exists|
                        k: int,
                    |
                        0 <= k < listing.len() && (#[trigger] listing[k])@ == rows[j].0,
            decreases self.pools.len() - i,
        {
            if self.pools[i].status == PoolStatus::Active {
                let ghost before = listing@;
                listing.push(self.pools[i].id.clone());
                proof {
                    sources = sources.push(i as int);
                    assert forall|j: int|
                        0 <= j < i + 1 && (#[trigger] rows[j]).1.status
                            == PoolStatus::Active implies exists|k: int|
                        0 <= k < listing.len() && (#[trigger] listing[k])@ == rows[j].0 by {
                        if j < i {
                            let k = choose|k: int|
                                0 <= k < before.len() && (#[trigger] before[k])@ == rows[j].0;
                            assert(listing[k]@ == rows[j].0);
                        } else {
                            assert(listing[before.len() as int]@ == rows[j].0);
                        }
                    }
                }
            }
            i += 1;
        }
        proof {
            assert forall|k: int, l: int| 0 <= k < l < listing.len() implies (
            #[trigger] listing[k])@ != (#[trigger] listing[l])@ by {
                assert(sources[k] < sources[l]);
                assert(rows[sources[k]].0 != rows[sources[l]].0);
            }
            assert forall|pool_id: Seq<u8>| listed(listing@).contains(pool_id)
                <==> self@.active_pools().contains(pool_id) by {
                if listed(listing@).contains(pool_id) {
                    let k = choose|k: int|
                        0 <= k < listing.len() && (#[trigger] listing[k])@ == pool_id;
                    lemma_row_found(rows, sources[k]);
                }
                if self@.is_active(pool_id) {
                    let j = row_of(rows, pool_id);
                    assert(0 <= j < rows.len() && rows[j].0 == pool_id);
                    assert(rows[j].1.status == PoolStatus::Active);
                }
            }
            assert(listed(listing@) =~= self@.active_pools());
        }
        listing
    }

    /// Says what applying the certificate would give, and changes nothing.
    pub fn check_certificate(&self, certificate: &Certificate) -> (checked: Result<(), Error>)
        requires
            self.well_formed(),
        ensures
            error_of(checked) == error_of(self@.apply_certificate(certificate@)),
    {
        match certificate {
            Certificate::Registration { .. } => {
                let pool_id = certificate.pool_id();
                match self.find_pool(&pool_id) {
                    Some(_) => Err(Error::DuplicatePoolId),
                    None => Ok(()),
                }
            },
            Certificate::Delegation { pool_id, .. } => match self.find_pool(pool_id) {
                Some(_) => Ok(()),
                None => Err(Error::UnknownPool),
            },
            Certificate::Retirement { pool_id } => match self.find_pool(pool_id) {
                Some(i) => if self.pools[i].status == PoolStatus::Retired {
                    Err(Error::AlreadyRetired)
                } else {
                    Ok(())
                },
                None => Err(Error::UnknownPool),
            },
        }
    }

    /// Applies the certificate, or fails and changes nothing.
    pub fn apply_certificate(&mut self, certificate: &Certificate) -> (applied: Result<(), Error>)
        requires
            old(self).well_formed(),
        ensures
            final(self).well_formed(),
            took_step(
                old(self)@,
                old(self)@.apply_certificate(certificate@),
                final(self)@,
                error_of(applied),
            ),
    {
        let ghost rows = pool_rows(self.pools@);
        match certificate {
            Certificate::Registration {
                vrf_key,
                kes_key,
                start_validity,
                management_threshold,
                owner,
            } => {
                let id = derive_pool_id(
                    vrf_key,
                    kes_key,
                    owner,
                    *start_validity,
                    *management_threshold,
                );
                if self.find_pool(&id).is_some() {
                    return Err(Error::DuplicatePoolId);
                }
                let pool = StakePool {
                    id,
                    vrf_key: vrf_key.clone(),
                    kes_key: kes_key.clone(),
                    owner: owner.clone(),
                    status: PoolStatus::Active,
                };
                let ghost record = pool.record();
                let ghost key = pool.id@;
                self.pools.push(pool);
                proof {
                    lemma_row_pushed(rows, key, record);
                    assert(pool_rows(self.pools@) =~= rows.push((key, record)));
                }
                Ok(())
            },
            Certificate::Delegation { pool_id, account } => {
                if self.find_pool(pool_id).is_none() {
                    return Err(Error::UnknownPool);
                }
                let state = self.read_account(account);
                self.write_account(
                    account,
                    AccountState { balance: state.balance, delegation: Some(pool_id.clone()) },
                );
                Ok(())
            },
            Certificate::Retirement { pool_id } => {
                let i = match self.find_pool(pool_id) {
                    Some(i) => i,
                    None => {
                        return Err(Error::UnknownPool);
                    },
                };
                if self.pools[i].status == PoolStatus::Retired {
                    return Err(Error::AlreadyRetired);
                }
                let retired = StakePool {
                    id: self.pools[i].id.clone(),
                    vrf_key: self.pools[i].vrf_key.clone(),
                    kes_key: self.pools[i].kes_key.clone(),
                    owner: self.pools[i].owner.clone(),
                    status: PoolStatus::Retired,
                };
                let ghost record = retired.record();
                self.pools.set(i, retired);
                proof {
                    lemma_row_replaced(rows, i as int, record);
                    assert(pool_rows(self.pools@) =~= rows.update(
                        i as int,
                        (rows[i as int].0, record),
                    ));
                }
                Ok(())
            },
        }
    }

    fn authority(&self, certificate: &Certificate) -> (key: Option<PublicKey>)
        requires
            self.well_formed(),
        ensures
            key_view(key) == self@.authority(certificate@),
    {
        match certificate {
            Certificate::Registration { owner, .. } => Some(owner.clone()),
            Certificate::Delegation { account, .. } => Some(account.clone()),
            Certificate::Retirement { pool_id } => match self.find_pool(pool_id) {
                Some(i) => Some(self.pools[i].owner.clone()),
                None => None,
            },
        }
    }

    /// Whether the transaction's signatures are in order on this ledger.
    pub fn authorizes(&self, transaction: &Transaction) -> (authorized: bool)
        requires
            self.well_formed(),
        ensures
            authorized == self@.authorizes(transaction@),
    {
        let inputs = transaction.inputs();
        let witness = transaction.witness();
        let mut i: usize = 0;
        while i < inputs.len()
            invariant
                i <= inputs.len(),
                inputs_view(inputs@) == transaction@.inputs,
                witness@ == transaction@.witness,
                forall|j: int|
                    0 <= j < i ==> (#[trigger] transaction@.inputs[j]).address
                        == transaction@.witness,
            decreases inputs.len() - i,
        {
            if !inputs[i].address.key().same(witness) {
                assert(transaction@.inputs[i as int].address == inputs@[i as int]@.address);
                return false;
            }
            assert(transaction@.inputs[i as int].address == inputs@[i as int]@.address);
            i += 1;
        }
        match transaction.certificate() {
            Some(certificate) => match self.authority(certificate) {
                Some(key) => match transaction.auth() {
                    Some(auth) => auth.same(&key),
                    None => false,
                },
                None => true,
            },
            None => true,
        }
    }

    /// Applies the transaction: checks its signatures, applies its
    /// certificate and takes its fee, or fails at the first of these that
    /// fails and changes nothing.
    pub fn apply(&mut self, transaction: &Transaction) -> (applied: Result<(), Error>)
        requires
            old(self).well_formed(),
        ensures
            final(self).well_formed(),
            took_step(old(self)@, old(self)@.apply(transaction@), final(self)@, error_of(applied)),
    {
        if !self.authorizes(transaction) {
            return Err(Error::SubmissionRejected);
        }
        if let Some(certificate) = transaction.certificate() {
            if let Err(e) = self.check_certificate(certificate) {
                return Err(e);
            }
        }
        let payer = transaction.witness();
        let declared = sum_inputs(transaction.inputs());
        let fee = transaction.fee();
        let held = self.read_account(payer).balance;
        if (held as u128) < declared || declared < fee {
            return Err(Error::InsufficientFunds);
        }
        if let Some(certificate) = transaction.certificate() {
            let _ = self.apply_certificate(certificate);
        }
        let state = self.read_account(payer);
        self.write_account(
            payer,
            AccountState { balance: state.balance - (fee as u64), delegation: state.delegation },
        );
        Ok(())
    }
}

} // verus!
