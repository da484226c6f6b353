//! The three certificates of a stake pool's life and the identifier that a
//! registration derives.

use vstd::prelude::*;
use vstd::bytes::{lemma_auto_spec_u32_to_from_le_bytes, spec_u32_to_le_bytes, u32_to_le_bytes};
use crate::error::{error_of, Error};
use crate::keys::{bytes_copy, bytes_equal, is_key_material, PublicKey};

verus! {

/// The identifier of a stake pool. Its view is its bytes.
#[derive(Debug)]
pub struct PoolId {
    bytes: Vec<u8>,
}

impl View for PoolId {
    type V = Seq<u8>;

    closed spec fn view(&self) -> Seq<u8> {
        self.bytes@
    }
}

impl Clone for PoolId {
    fn clone(&self) -> (copy: PoolId)
        ensures
            copy@ == self@,
    {
        PoolId { bytes: bytes_copy(self.bytes.as_slice()) }
    }
}

impl PoolId {
    /// The identifier with the given bytes.
    pub fn from_bytes(bytes: Vec<u8>) -> (id: PoolId)
        ensures
            id@ == bytes@,
    {
        PoolId { bytes }
    }

    pub fn as_bytes(&self) -> (bytes: &[u8])
        ensures
            bytes@ == self@,
    {
        self.bytes.as_slice()
    }

    /// Whether two identifiers name the same pool.
    pub fn same(&self, other: &PoolId) -> (same: bool)
        ensures
            same == (self@ == other@),
    {
        bytes_equal(self.bytes.as_slice(), other.bytes.as_slice())
    }
}

/// The identifier that a registration derives: its three keys and its two
/// parameters, one after the other, each parameter in four bytes with the
/// least significant first.
pub open spec fn pool_id_of(
    vrf_key: Seq<u8>,
    kes_key: Seq<u8>,
    owner: Seq<u8>,
    start_validity: u32,
    management_threshold: u32,
) -> Seq<u8> {
    vrf_key + kes_key + owner + spec_u32_to_le_bytes(start_validity) + spec_u32_to_le_bytes(
        management_threshold,
    )
}

/// What a certificate declares.
pub enum CertificateView {
    Registration {
        vrf_key: Seq<u8>,
        kes_key: Seq<u8>,
        start_validity: u32,
        management_threshold: u32,
        owner: Seq<u8>,
    },
    Delegation { pool_id: Seq<u8>, account: Seq<u8> },
    Retirement { pool_id: Seq<u8> },
}

/// The delegation of `account` to `pool_id`.
pub open spec fn delegation_of(pool_id: Seq<u8>, account: Seq<u8>) -> CertificateView {
    CertificateView::Delegation { pool_id, account }
}

/// The retirement of `pool_id`.
pub open spec fn retirement_of(pool_id: Seq<u8>) -> CertificateView {
    CertificateView::Retirement { pool_id }
}

impl CertificateView {
    /// The pool that the certificate is about: the one it derives, for a
    /// registration, and the one it names, for the others.
    pub open spec fn pool_id(self) -> Seq<u8> {
        match self {
            CertificateView::Registration {
                vrf_key,
                kes_key,
                start_validity,
                management_threshold,
                owner,
            } => pool_id_of(vrf_key, kes_key, owner, start_validity, management_threshold),
            CertificateView::Delegation { pool_id, .. } => pool_id,
            CertificateView::Retirement { pool_id } => pool_id,
        }
    }

    /// Every key that the certificate holds is key material.
    pub open spec fn well_formed(self) -> bool {
        match self {
            CertificateView::Registration { vrf_key, kes_key, owner, .. } => {
                &&& is_key_material(vrf_key)
                &&& is_key_material(kes_key)
                &&& is_key_material(owner)
            },
            CertificateView::Delegation { account, .. } => is_key_material(account),
            CertificateView::Retirement { .. } => true,
        }
    }
}

/// A declaration of intent to change the ledger's state. A certificate is not
/// changed once it is built, and the transaction that carries it takes it
/// for good.
#[derive(Debug)]
pub enum Certificate {
    Registration {
        vrf_key: PublicKey,
        kes_key: PublicKey,
        start_validity: u32,
        management_threshold: u32,
        owner: PublicKey,
    },
    Delegation { pool_id: PoolId, account: PublicKey },
    Retirement { pool_id: PoolId },
}

impl View for Certificate {
    type V = CertificateView;

    open spec fn view(&self) -> CertificateView {
        match self {
            Certificate::Registration {
                vrf_key,
                kes_key,
                start_validity,
                management_threshold,
                owner,
            } => CertificateView::Registration {
                vrf_key: vrf_key@,
                kes_key: kes_key@,
                start_validity: *start_validity,
                management_threshold: *management_threshold,
                owner: owner@,
            },
            Certificate::Delegation { pool_id, account } => CertificateView::Delegation {
                pool_id: pool_id@,
                account: account@,
            },
            Certificate::Retirement { pool_id } => CertificateView::Retirement {
                pool_id: pool_id@,
            },
        }
    }
}

/// Appends `tail` to `bytes`.
fn append_bytes(bytes: &mut Vec<u8>, tail: &[u8])
    ensures
        final(bytes)@ == old(bytes)@ + tail@,
{
    let mut i: usize = 0;
    while i < tail.len()
        invariant
            i <= tail.len(),
            bytes@ == old(bytes)@ + tail@.subrange(0, i as int),
        decreases tail.len() - i,
    {
        bytes.push(tail[i]);
        i += 1;
        assert(tail@.subrange(0, i as int) == tail@.subrange(0, i - 1).push(tail@[i - 1]));
    }
    assert(tail@ == tail@.subrange(0, i as int));
}

/// Derives the identifier of the pool that a registration with these keys and
/// parameters creates.
pub fn derive_pool_id(
    vrf_key: &PublicKey,
    kes_key: &PublicKey,
    owner: &PublicKey,
    start_validity: u32,
    management_threshold: u32,
) -> (id: PoolId)
    ensures
        id@ == pool_id_of(vrf_key@, kes_key@, owner@, start_validity, management_threshold),
{
    let mut bytes: Vec<u8> = bytes_copy(vrf_key.as_bytes());
    append_bytes(&mut bytes, kes_key.as_bytes());
    append_bytes(&mut bytes, owner.as_bytes());
    let validity = u32_to_le_bytes(start_validity);
    append_bytes(&mut bytes, validity.as_slice());
    let threshold = u32_to_le_bytes(management_threshold);
    append_bytes(&mut bytes, threshold.as_slice());
    PoolId::from_bytes(bytes)
}

impl Certificate {
    /// The pool that the certificate is about.
    pub fn pool_id(&self) -> (id: PoolId)
        ensures
            id@ == self@.pool_id(),
    {
        match self {
            Certificate::Registration {
                vrf_key,
                kes_key,
                start_validity,
                management_threshold,
                owner,
            } => derive_pool_id(vrf_key, kes_key, owner, *start_validity, *management_threshold),
            Certificate::Delegation { pool_id, .. } => pool_id.clone(),
            Certificate::Retirement { pool_id } => pool_id.clone(),
        }
    }
}

/// Builds the certificate that registers a pool. The three keys arrive as
/// decoded key material; nothing is checked against the pools that exist.
///
/// Fails with `InvalidKeyEncoding` exactly when one of the three is not key
/// material.
pub fn build_registration(
    vrf_public_key: &[u8],
    kes_public_key: &[u8],
    start_validity: u32,
    management_threshold: u32,
    owner_public_key: &[u8],
) -> (built: Result<Certificate, Error>)
    ensures
        is_key_material(vrf_public_key@) && is_key_material(kes_public_key@) && is_key_material(
            owner_public_key@,
        ) ==> built is Ok && built->Ok_0@ == (CertificateView::Registration {
            vrf_key: vrf_public_key@,
            kes_key: kes_public_key@,
            start_validity,
            management_threshold,
            owner: owner_public_key@,
        }) && built->Ok_0@.well_formed(),
        !(is_key_material(vrf_public_key@) && is_key_material(kes_public_key@) && is_key_material(
            owner_public_key@,
        )) ==> error_of(built) == Some(Error::InvalidKeyEncoding),
{
    let vrf_key = match PublicKey::parse(vrf_public_key) {
        Ok(key) => key,
        Err(e) => {
            return Err(e);
        },
    };
    let kes_key = match PublicKey::parse(kes_public_key) {
        Ok(key) => key,
        Err(e) => {
            return Err(e);
        },
    };
    let owner = match PublicKey::parse(owner_public_key) {
        Ok(key) => key,
        Err(e) => {
            return Err(e);
        },
    };
    Ok(Certificate::Registration { vrf_key, kes_key, start_validity, management_threshold, owner })
}

/// Builds the certificate by which `account_public_key` delegates to
/// `pool_id`. Whether the pool exists is for the ledger to say.
pub fn build_delegation(pool_id: &PoolId, account_public_key: &PublicKey) -> (built: Certificate)
    ensures
        built@ == delegation_of(pool_id@, account_public_key@),
        built@.well_formed(),
{
    let _ = account_public_key.as_bytes();
    Certificate::Delegation { pool_id: pool_id.clone(), account: account_public_key.clone() }
}

/// Builds the certificate that retires `pool_id`. Whether the pool exists,
/// and whether it is still active, is for the ledger to say.
pub fn build_retirement(pool_id: &PoolId) -> (built: Certificate)
    ensures
        built@ == retirement_of(pool_id@),
        built@.well_formed(),
{
    Certificate::Retirement { pool_id: pool_id.clone() }
}

/// The derived identifier is a function of the registration's content, and
/// two registrations of key material derive the same identifier only when
/// they agree in every key and every parameter.
pub proof fn lemma_pool_id_collision_free(
    vrf_a: Seq<u8>,
    kes_a: Seq<u8>,
    owner_a: Seq<u8>,
    validity_a: u32,
    threshold_a: u32,
    vrf_b: Seq<u8>,
    kes_b: Seq<u8>,
    owner_b: Seq<u8>,
    validity_b: u32,
    threshold_b: u32,
)
    requires
        is_key_material(vrf_a),
        is_key_material(kes_a),
        is_key_material(owner_a),
        is_key_material(vrf_b),
        is_key_material(kes_b),
        is_key_material(owner_b),
    ensures
        pool_id_of(vrf_a, kes_a, owner_a, validity_a, threshold_a) == pool_id_of(
            vrf_b,
            kes_b,
            owner_b,
            validity_b,
            threshold_b,
        ) <==> vrf_a == vrf_b && kes_a == kes_b && owner_a == owner_b && validity_a == validity_b
            && threshold_a == threshold_b,
{
    lemma_auto_spec_u32_to_from_le_bytes();
    let a = pool_id_of(vrf_a, kes_a, owner_a, validity_a, threshold_a);
    let b = pool_id_of(vrf_b, kes_b, owner_b, validity_b, threshold_b);
    let va = spec_u32_to_le_bytes(validity_a);
    let vb = spec_u32_to_le_bytes(validity_b);
    let ta = spec_u32_to_le_bytes(threshold_a);
    let tb = spec_u32_to_le_bytes(threshold_b);
    if a == b {
        assert(a.subrange(0, 32) == vrf_a);
        assert(b.subrange(0, 32) == vrf_b);
        assert(a.subrange(32, 64) == kes_a);
        assert(b.subrange(32, 64) == kes_b);
        assert(a.subrange(64, 96) == owner_a);
        assert(b.subrange(64, 96) == owner_b);
        assert(a.subrange(96, 100) == va);
        assert(b.subrange(96, 100) == vb);
        assert(a.subrange(100, 104) == ta);
        assert(b.subrange(100, 104) == tb);
    }
}

/// Two registrations derive the same identifier exactly when they are the
/// same registration.
pub proof fn lemma_registrations_collision_free(first: CertificateView, second: CertificateView)
    requires
        first is Registration,
        second is Registration,
        first.well_formed(),
        second.well_formed(),
    ensures
        first.pool_id() == second.pool_id() <==> first == second,
{
    match (first, second) {
        (
            CertificateView::Registration {
                vrf_key: vrf_a,
                kes_key: kes_a,
                start_validity: validity_a,
                management_threshold: threshold_a,
                owner: owner_a,
            },
            CertificateView::Registration {
                vrf_key: vrf_b,
                kes_key: kes_b,
                start_validity: validity_b,
                management_threshold: threshold_b,
                owner: owner_b,
            },
        ) => {
            lemma_pool_id_collision_free(
                vrf_a,
                kes_a,
                owner_a,
                validity_a,
                threshold_a,
                vrf_b,
                kes_b,
                owner_b,
                validity_b,
                threshold_b,
            );
        },
        _ => {},
    }
}

} // verus!
