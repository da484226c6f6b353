//! Transactions and their assembly: inputs, an optional certificate, the fee,
//! and the signatures, taken in that order.
//!
//! A signature is modelled by the public key of the account handle that gave
//! it: only the holder of a handle can have a builder record its key.

use vstd::prelude::*;
use crate::certificate::{Certificate, CertificateView};
use crate::error::{error_of, Error};
use crate::fees::LinearFees;
use crate::keys::{Account, Address, PublicKey};

verus! {

/// What an input declares: the account drawn on and the value drawn.
pub struct InputView {
    pub address: Seq<u8>,
    pub value: u64,
}

/// One input of a transaction.
#[derive(Debug)]
pub struct Input {
    pub address: Address,
    pub value: u64,
}

impl View for Input {
    type V = InputView;

    open spec fn view(&self) -> InputView {
        InputView { address: self.address@, value: self.value }
    }
}

impl Clone for Input {
    fn clone(&self) -> (copy: Input)
        ensures
            copy@ == self@,
    {
        Input { address: self.address.clone(), value: self.value }
    }
}

/// The inputs of a list, each by its view.
pub open spec fn inputs_view(inputs: Seq<Input>) -> Seq<InputView> {
    Seq::new(inputs.len(), |i: int| inputs[i]@)
}

/// The value that a list of inputs declares: the sum of their values.
pub open spec fn input_total(inputs: Seq<InputView>) -> nat
    decreases inputs.len(),
{
    if inputs.len() == 0 {
        0
    } else {
        input_total(inputs.drop_last()) + inputs.last().value as nat
    }
}

/// No input declares more than `u64::MAX`, so a list declares no more than
/// that for each of its inputs.
pub proof fn lemma_input_total_bound(inputs: Seq<InputView>)
    ensures
        input_total(inputs) <= inputs.len() * u64::MAX,
    decreases inputs.len(),
{
    if inputs.len() > 0 {
        lemma_input_total_bound(inputs.drop_last());
        assert(inputs.len() * u64::MAX == (inputs.len() - 1) * u64::MAX + u64::MAX)
            by (nonlinear_arith);
    }
}

/// Sums the values of `inputs`.
pub fn sum_inputs(inputs: &Vec<Input>) -> (total: u128)
    ensures
        total == input_total(inputs_view(inputs@)),
{
    let ghost views = inputs_view(inputs@);
    let mut total: u128 = 0;
    let mut i: usize = 0;
    while i < inputs.len()
        invariant
            i <= inputs.len(),
            views == inputs_view(inputs@),
            total == input_total(views.subrange(0, i as int)),
        decreases inputs.len() - i,
    {
        proof {
            let next = views.subrange(0, i + 1);
            assert(next.drop_last() == views.subrange(0, i as int));
            assert(next.last() == inputs@[i as int]@);
            lemma_input_total_bound(views.subrange(0, i as int));
            assert(i * u64::MAX <= usize::MAX * u64::MAX) by (nonlinear_arith)
                requires
                    i <= usize::MAX,
            ;
            assert(usize::MAX * u64::MAX + u64::MAX <= u128::MAX) by (nonlinear_arith)
                requires
                    usize::MAX <= u64::MAX,
            ;
        }
        total = total + inputs[i].value as u128;
        i += 1;
    }
    assert(views == views.subrange(0, i as int));
    total
}

/// The view of an optional certificate.
pub open spec fn certificate_view(certificate: Option<Certificate>) -> Option<CertificateView> {
    match certificate {
        Some(c) => Some(c@),
        None => None,
    }
}

/// The view of an optional key.
pub open spec fn key_view(key: Option<PublicKey>) -> Option<Seq<u8>> {
    match key {
        Some(k) => Some(k@),
        None => None,
    }
}

/// The key of the account that authorizes: that of `owner`, or `otherwise`
/// where there is none.
pub open spec fn key_view_of(owner: Option<&Account>, otherwise: Seq<u8>) -> Seq<u8> {
    match owner {
        Some(owner) => owner@.public_key,
        None => otherwise,
    }
}

/// What a transaction holds.
pub struct TransactionView {
    pub inputs: Seq<InputView>,
    pub certificate: Option<CertificateView>,
    pub fee: nat,
    /// The key of the account that witnessed the transaction.
    pub witness: Seq<u8>,
    /// The key that authorized the certificate, if any did.
    pub auth: Option<Seq<u8>>,
}

/// An assembled transaction.
#[derive(Debug)]
pub struct Transaction {
    inputs: Vec<Input>,
    certificate: Option<Certificate>,
    fee: u128,
    witness: PublicKey,
    auth: Option<PublicKey>,
}

impl View for Transaction {
    type V = TransactionView;

    closed spec fn view(&self) -> TransactionView {
        TransactionView {
            inputs: inputs_view(self.inputs@),
            certificate: certificate_view(self.certificate),
            fee: self.fee as nat,
            witness: self.witness@,
            auth: key_view(self.auth),
        }
    }
}

impl Transaction {
    pub fn inputs(&self) -> (inputs: &Vec<Input>)
        ensures
            inputs_view(inputs@) == self@.inputs,
    {
        &self.inputs
    }

    pub fn certificate(&self) -> (certificate: &Option<Certificate>)
        ensures
            certificate_view(*certificate) == self@.certificate,
    {
        &self.certificate
    }

    pub fn fee(&self) -> (fee: u128)
        ensures
            fee == self@.fee,
    {
        self.fee
    }

    pub fn witness(&self) -> (witness: &PublicKey)
        ensures
            witness@ == self@.witness,
    {
        &self.witness
    }

    pub fn auth(&self) -> (auth: &Option<PublicKey>)
        ensures
            key_view(*auth) == self@.auth,
    {
        &self.auth
    }
}

/// What a builder has been given so far. The fee is there once the builder is
/// finalized, the witness once it is sealed.
pub struct BuilderView {
    pub inputs: Seq<InputView>,
    pub certificate: Option<CertificateView>,
    pub fee: Option<nat>,
    pub witness: Option<Seq<u8>>,
    pub auth: Option<Seq<u8>>,
}

impl BuilderView {
    /// A draft with no input and no certificate.
    pub open spec fn empty() -> BuilderView {
        BuilderView {
            inputs: Seq::empty(),
            certificate: None,
            fee: None,
            witness: None,
            auth: None,
        }
    }

    /// Inputs and the certificate can still be added.
    pub open spec fn is_draft(self) -> bool {
        self.fee is None
    }

    /// The fee is fixed and the witness is still to come.
    pub open spec fn is_finalized(self) -> bool {
        self.fee is Some && self.witness is None
    }

    /// The witness is there.
    pub open spec fn is_sealed(self) -> bool {
        self.fee is Some && self.witness is Some
    }

    /// A draft takes one more input.
    pub open spec fn add_account(self, address: Seq<u8>, value: u64) -> Result<
        BuilderView,
        Error,
    > {
        if self.is_draft() {
            Ok(BuilderView { inputs: self.inputs.push(InputView { address, value }), ..self })
        } else {
            Err(Error::SignatureOrderError)
        }
    }

    /// A draft without a certificate takes one.
    pub open spec fn add_certificate(self, certificate: CertificateView) -> Result<
        BuilderView,
        Error,
    > {
        if self.is_draft() && self.certificate is None {
            Ok(BuilderView { certificate: Some(certificate), ..self })
        } else {
            Err(Error::SignatureOrderError)
        }
    }

    /// A draft whose inputs cover the fee that `fees` asks of it is finalized
    /// with that fee.
    pub open spec fn finalize_with_fee(self, fees: LinearFees) -> Result<BuilderView, Error> {
        if !self.is_draft() {
            Err(Error::SignatureOrderError)
        } else if input_total(self.inputs) < fees.total(self.certificate is Some) {
            Err(Error::InsufficientFunds)
        } else {
            Ok(BuilderView { fee: Some(fees.total(self.certificate is Some) as nat), ..self })
        }
    }

    /// A finalized body takes the witness of the account with this key.
    pub open spec fn seal_with_witness(self, account: Seq<u8>) -> Result<BuilderView, Error> {
        if self.is_finalized() {
            Ok(BuilderView { witness: Some(account), ..self })
        } else {
            Err(Error::SignatureOrderError)
        }
    }

    /// A sealed body with a certificate that nobody has authorized yet takes
    /// the authorization of the account with this key.
    pub open spec fn add_auth(self, owner: Seq<u8>) -> Result<BuilderView, Error> {
        if self.is_sealed() && self.certificate is Some && self.auth is None {
            Ok(BuilderView { auth: Some(owner), ..self })
        } else {
            Err(Error::SignatureOrderError)
        }
    }

    /// A sealed body is a transaction.
    pub open spec fn to_transaction(self) -> Result<TransactionView, Error> {
        if self.is_sealed() {
            Ok(
                TransactionView {
                    inputs: self.inputs,
                    certificate: self.certificate,
                    fee: self.fee->Some_0,
                    witness: self.witness->Some_0,
                    auth: self.auth,
                },
            )
        } else {
            Err(Error::SignatureOrderError)
        }
    }
}

/// A step of the builder is all or nothing: where the outcome is a new
/// state, the builder is in that state and there is no error; where the
/// outcome is an error, that is the error and the builder is as it was.
pub open spec fn builder_took_step(
    before: BuilderView,
    outcome: Result<BuilderView, Error>,
    after: BuilderView,
    error: Option<Error>,
) -> bool {
    match outcome {
        Ok(next) => after == next && error is None,
        Err(e) => after == before && error == Some(e),
    }
}

/// Assembles a transaction step by step: inputs and certificate, then the
/// fee, then the witness, then the authorization. A step taken out of this
/// order fails with `SignatureOrderError` and changes nothing.
#[derive(Debug)]
pub struct TransactionBuilder {
    inputs: Vec<Input>,
    certificate: Option<Certificate>,
    fee: Option<u128>,
    witness: Option<PublicKey>,
    auth: Option<PublicKey>,
}

impl View for TransactionBuilder {
    type V = BuilderView;

    closed spec fn view(&self) -> BuilderView {
        BuilderView {
            inputs: inputs_view(self.inputs@),
            certificate: certificate_view(self.certificate),
            fee: match self.fee {
                Some(fee) => Some(fee as nat),
                None => None,
            },
            witness: key_view(self.witness),
            auth: key_view(self.auth),
        }
    }
}

impl TransactionBuilder {
    /// A draft with no input and no certificate.
    pub fn new_transaction() -> (builder: TransactionBuilder)
        ensures
            builder@ == BuilderView::empty(),
    {
        let builder = TransactionBuilder {
            inputs: Vec::new(),
            certificate: None,
            fee: None,
            witness: None,
            auth: None,
        };
        assert(inputs_view(builder.inputs@) == Seq::<InputView>::empty());
        builder
    }

    /// Adds an input that draws `value` on the account at `address`.
    pub fn add_account(&mut self, address: &Address, value: u64) -> (added: Result<(), Error>)
        ensures
            builder_took_step(
                old(self)@,
                old(self)@.add_account(address@, value),
                final(self)@,
                error_of(added),
            ),
    {
        if self.fee.is_some() {
            return Err(Error::SignatureOrderError);
        }
        self.inputs.push(Input { address: address.clone(), value });
        assert(inputs_view(self.inputs@) == inputs_view(old(self).inputs@).push(
            InputView { address: address@, value },
        ));
        Ok(())
    }

    /// Attaches the certificate, as it is. A transaction carries at most one.
    pub fn add_certificate(&mut self, certificate: Certificate) -> (added: Result<(), Error>)
        ensures
            builder_took_step(
                old(self)@,
                old(self)@.add_certificate(certificate@),
                final(self)@,
                error_of(added),
            ),
    {
        if self.fee.is_some() || self.certificate.is_some() {
            return Err(Error::SignatureOrderError);
        }
        self.certificate = Some(certificate);
        Ok(())
    }

    /// Fixes the fee that `fees` asks of this transaction. The inputs declared
    /// must cover it.
    pub fn finalize_with_fee(&mut self, fees: &LinearFees) -> (finalized: Result<(), Error>)
        ensures
            builder_took_step(
                old(self)@,
                old(self)@.finalize_with_fee(*fees),
                final(self)@,
                error_of(finalized),
            ),
    {
        if self.fee.is_some() {
            return Err(Error::SignatureOrderError);
        }
        let fee = fees.calculate(self.certificate.is_some());
        if sum_inputs(&self.inputs) < fee {
            return Err(Error::InsufficientFunds);
        }
        self.fee = Some(fee);
        Ok(())
    }

    /// Has `account` witness the finalized transaction.
    pub fn seal_with_witness(&mut self, account: &Account) -> (sealed: Result<(), Error>)
        ensures
            builder_took_step(
                old(self)@,
                old(self)@.seal_with_witness(account@.public_key),
                final(self)@,
                error_of(sealed),
            ),
    {
        if self.fee.is_none() || self.witness.is_some() {
            return Err(Error::SignatureOrderError);
        }
        self.witness = Some(account.public_key().clone());
        Ok(())
    }

    /// Has `owner` authorize the certificate of the sealed transaction.
    pub fn add_auth(&mut self, owner: &Account) -> (added: Result<(), Error>)
        ensures
            builder_took_step(
                old(self)@,
                old(self)@.add_auth(owner@.public_key),
                final(self)@,
                error_of(added),
            ),
    {
        if self.fee.is_none() || self.witness.is_none() || self.certificate.is_none()
            || self.auth.is_some() {
            return Err(Error::SignatureOrderError);
        }
        self.auth = Some(owner.public_key().clone());
        Ok(())
    }

    /// Hands out the transaction, once it is sealed.
    pub fn to_transaction(self) -> (built: Result<Transaction, Error>)
        ensures
            built is Ok <==> self@.to_transaction() is Ok,
            built is Ok ==> built->Ok_0@ == self@.to_transaction()->Ok_0,
            error_of(built) == error_of(self@.to_transaction()),
    {
        let TransactionBuilder { inputs, certificate, fee, witness, auth } = self;
        match (fee, witness) {
            (Some(fee), Some(witness)) => Ok(
                Transaction { inputs, certificate, fee, witness, auth },
            ),
            _ => Err(Error::SignatureOrderError),
        }
    }
}

/// The transaction that carries these inputs and this certificate under
/// `fees`, witnessed by `spender` and authorized by `owner`.
pub open spec fn assembled(
    inputs: Seq<InputView>,
    certificate: Option<CertificateView>,
    fees: LinearFees,
    spender: Seq<u8>,
    owner: Seq<u8>,
) -> TransactionView {
    TransactionView {
        inputs,
        certificate,
        fee: fees.total(certificate is Some) as nat,
        witness: spender,
        auth: if certificate is Some {
            Some(owner)
        } else {
            None
        },
    }
}

/// Whether inputs that declare this much cover the fee that `fees` asks of a
/// transaction with or without a certificate.
pub open spec fn covers_fee(
    inputs: Seq<InputView>,
    fees: LinearFees,
    has_certificate: bool,
) -> bool {
    input_total(inputs) >= fees.total(has_certificate)
}

/// The builder's steps, taken in order on inputs that cover the fee, give
/// the assembled transaction.
pub proof fn lemma_steps_in_order(
    draft: BuilderView,
    fees: LinearFees,
    spender: Seq<u8>,
    owner: Seq<u8>,
)
    requires
        draft.is_draft(),
        draft.witness is None,
        draft.auth is None,
        covers_fee(draft.inputs, fees, draft.certificate is Some),
    ensures
        draft.finalize_with_fee(fees) is Ok,
        draft.finalize_with_fee(fees)->Ok_0.seal_with_witness(spender) is Ok,
        draft.certificate is None ==> draft.finalize_with_fee(fees)->Ok_0.seal_with_witness(
            spender,
        )->Ok_0.to_transaction() == Ok::<TransactionView, Error>(
            assembled(draft.inputs, None, fees, spender, owner),
        ),
        draft.certificate is Some ==> draft.finalize_with_fee(fees)->Ok_0.seal_with_witness(
            spender,
        )->Ok_0.add_auth(owner) is Ok,
        draft.certificate is Some ==> draft.finalize_with_fee(fees)->Ok_0.seal_with_witness(
            spender,
        )->Ok_0.add_auth(owner)->Ok_0.to_transaction() == Ok::<TransactionView, Error>(
            assembled(draft.inputs, draft.certificate, fees, spender, owner),
        ),
{
}

/// The fee of an assembled transaction is the sum of the schedule's three
/// parts where it carries a certificate, and of the first two where it
/// carries none.
pub proof fn lemma_assembled_fee(
    inputs: Seq<InputView>,
    certificate: Option<CertificateView>,
    fees: LinearFees,
    spender: Seq<u8>,
    owner: Seq<u8>,
)
    ensures
        certificate is Some ==> assembled(inputs, certificate, fees, spender, owner).fee
            == fees.constant + fees.coefficient + fees.certificate,
        certificate is None ==> assembled(inputs, certificate, fees, spender, owner).fee
            == fees.constant + fees.coefficient,
{
}

/// Assembles a signed transaction: takes the inputs and the certificate as
/// they are, fixes the fee under `fees`, has `spender` witness the finalized
/// body and, where there is a certificate, has `owner` authorize it. Where no
/// `owner` is given, `spender` authorizes the certificate itself.
///
/// Fails with `InsufficientFunds`, and leaves `spender` as it was, exactly
/// when the inputs declare less than the fee. Otherwise the transaction is
/// built and `spender`'s counter advances by one, whatever the ledger will
/// later make of the transaction.
pub fn assemble(
    inputs: Vec<Input>,
    certificate: Option<Certificate>,
    fees: &LinearFees,
    spender: &mut Account,
    owner: Option<&Account>,
) -> (built: Result<Transaction, Error>)
    requires
        old(spender)@.counter < u64::MAX,
    ensures
        built is Ok <==> covers_fee(inputs_view(inputs@), *fees, certificate is Some),
        built is Ok ==> built->Ok_0@ == assembled(
            inputs_view(inputs@),
            certificate_view(certificate),
            *fees,
            old(spender)@.public_key,
            key_view_of(owner, old(spender)@.public_key),
        ),
        built is Ok ==> final(spender)@ == old(spender)@.advanced(),
        built is Err ==> error_of(built) == Some(Error::InsufficientFunds),
        built is Err ==> final(spender)@ == old(spender)@,
{
    let ghost declared = inputs_view(inputs@);
    let mut builder = TransactionBuilder::new_transaction();
    let mut i: usize = 0;
    assert(declared.subrange(0, 0) == Seq::<InputView>::empty());
    while i < inputs.len()
        invariant
            i <= inputs.len(),
            declared == inputs_view(inputs@),
            builder@ == (BuilderView {
                inputs: declared.subrange(0, i as int),
                ..BuilderView::empty()
            }),
        decreases inputs.len() - i,
    {
        let _ = builder.add_account(&inputs[i].address, inputs[i].value);
        assert(declared.subrange(0, i + 1) == declared.subrange(0, i as int).push(
            declared[i as int],
        ));
        i += 1;
    }
    assert(declared.subrange(0, i as int) == declared);
    let has_certificate = certificate.is_some();
    if let Some(certificate) = certificate {
        let _ = builder.add_certificate(certificate);
    }
    if let Err(e) = builder.finalize_with_fee(fees) {
        return Err(e);
    }
    let _ = builder.seal_with_witness(spender);
    if has_certificate {
        let _ = match owner {
            Some(owner) => builder.add_auth(owner),
            None => builder.add_auth(spender),
        };
    }
    let built = builder.to_transaction();
    spender.confirm_transaction();
    built
}

} // verus!
