//! Key material, addresses and the account handle that signs with them.

use vstd::prelude::*;
use crate::error::{error_of, Error};

verus! {

/// Number of bytes in a public key.
pub const KEY_LENGTH: usize = 32;

/// Whether two byte strings hold the same bytes.
pub fn bytes_equal(a: &[u8], b: &[u8]) -> (same: bool)
    ensures
        same == (a@ == b@),
{
    if a.len() != b.len() {
        return false;
    }
    let mut i: usize = 0;
    while i < a.len()
        invariant
            i <= a.len(),
            a.len() == b.len(),
            a@.subrange(0, i as int) == b@.subrange(0, i as int),
        decreases a.len() - i,
    {
        if a[i] != b[i] {
            return false;
        }
        i += 1;
        assert(a@.subrange(0, i as int) == a@.subrange(0, i - 1).push(a@[i - 1]));
        assert(b@.subrange(0, i as int) == b@.subrange(0, i - 1).push(b@[i - 1]));
    }
    assert(a@ == a@.subrange(0, i as int));
    assert(b@ == b@.subrange(0, i as int));
    true
}

/// Copies a byte string.
pub fn bytes_copy(a: &[u8]) -> (copy: Vec<u8>)
    ensures
        copy@ == a@,
{
    let mut copy: Vec<u8> = Vec::new();
    let mut i: usize = 0;
    while i < a.len()
        invariant
            i <= a.len(),
            copy@ == a@.subrange(0, i as int),
        decreases a.len() - i,
    {
        copy.push(a[i]);
        i += 1;
        assert(a@.subrange(0, i as int) == a@.subrange(0, i - 1).push(a@[i - 1]));
    }
    assert(a@ == a@.subrange(0, i as int));
    copy
}

/// Key material has the form of a public key when it is `KEY_LENGTH` bytes long.
pub open spec fn is_key_material(bytes: Seq<u8>) -> bool {
    bytes.len() == KEY_LENGTH
}

/// A public key. Its view is its bytes, of which there are always `KEY_LENGTH`.
#[derive(Debug)]
pub struct PublicKey {
    bytes: Vec<u8>,
}

impl View for PublicKey {
    type V = Seq<u8>;

    closed spec fn view(&self) -> Seq<u8> {
        self.bytes@
    }
}

impl Clone for PublicKey {
    fn clone(&self) -> (copy: PublicKey)
        ensures
            copy@ == self@,
    {
        proof {
            use_type_invariant(self);
        }
        PublicKey { bytes: bytes_copy(self.bytes.as_slice()) }
    }
}

impl PublicKey {
    #[verifier::type_invariant]
    spec fn well_formed(self) -> bool {
        is_key_material(self.bytes@)
    }

    /// Reads a public key from decoded key material. Fails with
    /// `InvalidKeyEncoding` exactly when the material is not key material.
    pub fn parse(material: &[u8]) -> (parsed: Result<PublicKey, Error>)
        ensures
            is_key_material(material@) ==> parsed is Ok && parsed->Ok_0@ == material@,
            !is_key_material(material@) ==> error_of(parsed) == Some(Error::InvalidKeyEncoding),
    {
        if material.len() == KEY_LENGTH {
            Ok(PublicKey { bytes: bytes_copy(material) })
        } else {
            Err(Error::InvalidKeyEncoding)
        }
    }

    /// The key's bytes.
    pub fn as_bytes(&self) -> (bytes: &[u8])
        ensures
            bytes@ == self@,
            is_key_material(bytes@),
    {
        proof {
            use_type_invariant(self);
        }
        self.bytes.as_slice()
    }

    /// Whether two keys are the same key.
    pub fn same(&self, other: &PublicKey) -> (same: bool)
        ensures
            same == (self@ == other@),
    {
        bytes_equal(self.bytes.as_slice(), other.bytes.as_slice())
    }
}

/// The address of a single account: the account's public key.
#[derive(Debug)]
pub struct Address {
    key: PublicKey,
}

impl View for Address {
    type V = Seq<u8>;

    closed spec fn view(&self) -> Seq<u8> {
        self.key@
    }
}

impl Clone for Address {
    fn clone(&self) -> (copy: Address)
        ensures
            copy@ == self@,
    {
        Address { key: self.key.clone() }
    }
}

impl Address {
    /// The address of the account that `key` controls.
    pub fn single(key: &PublicKey) -> (address: Address)
        ensures
            address@ == key@,
    {
        Address { key: key.clone() }
    }

    /// The key that controls the account at this address.
    pub fn key(&self) -> (key: &PublicKey)
        ensures
            key@ == self@,
    {
        &self.key
    }

    /// Whether two addresses name the same account.
    pub fn same(&self, other: &Address) -> (same: bool)
        ensures
            same == (self@ == other@),
    {
        self.key.same(&other.key)
    }
}

/// What an account handle holds.
pub struct AccountView {
    pub private_key: Seq<u8>,
    pub public_key: Seq<u8>,
    pub counter: u64,
}

impl AccountView {
    /// The handle after one more transaction was assembled for it.
    pub open spec fn advanced(self) -> AccountView {
        AccountView { counter: (self.counter + 1) as u64, ..self }
    }
}

/// The handle through which one account's transactions are built: its key
/// pair and the number of transactions it has assembled so far.
pub struct Account {
    private_key: Vec<u8>,
    public_key: PublicKey,
    counter: u64,
}

impl View for Account {
    type V = AccountView;

    closed spec fn view(&self) -> AccountView {
        AccountView {
            private_key: self.private_key@,
            public_key: self.public_key@,
            counter: self.counter,
        }
    }
}

impl Account {
    /// A handle on the account of the given key pair, with no transaction
    /// assembled yet.
    pub fn new(private_key: Vec<u8>, public_key: PublicKey) -> (account: Account)
        ensures
            account@ == (AccountView {
                private_key: private_key@,
                public_key: public_key@,
                counter: 0,
            }),
    {
        Account { private_key, public_key, counter: 0 }
    }

    pub fn private_key(&self) -> (key: &[u8])
        ensures
            key@ == self@.private_key,
    {
        self.private_key.as_slice()
    }

    pub fn public_key(&self) -> (key: &PublicKey)
        ensures
            key@ == self@.public_key,
    {
        &self.public_key
    }

    /// The account's address, which is that of its public key.
    pub fn address(&self) -> (address: Address)
        ensures
            address@ == self@.public_key,
    {
        Address::single(&self.public_key)
    }

    pub fn counter(&self) -> (counter: u64)
        ensures
            counter == self@.counter,
    {
        self.counter
    }

    /// Records that one more transaction was assembled for this account.
    pub fn confirm_transaction(&mut self)
        requires
            old(self)@.counter < u64::MAX,
        ensures
            final(self)@ == old(self)@.advanced(),
    {
        self.counter = self.counter + 1;
    }

    /// Sets the counter to the number of transactions that the ledger is
    /// known to have confirmed, after a submission failed and the two
    /// drifted apart.
    pub fn reconcile(&mut self, confirmed: u64)
        ensures
            final(self)@ == (AccountView { counter: confirmed, ..old(self)@ }),
    {
        self.counter = confirmed;
    }
}

} // verus!
