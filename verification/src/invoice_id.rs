//! Invoice identifiers.
use vstd::bytes::*;
use vstd::prelude::*;

use crate::address::{Address, AddressKind};

verus! {

/// What the parties agree on when an invoice is created.
#[derive(Clone, Copy, Debug, PartialEq, Eq, Structural)]
pub struct Terms {
    pub issuer: Address,
    pub buyer: Address,
    pub face_value: u128,
    pub due_date: u64,
    pub funding_asset: Address,
}

/// A 32-byte identifier: the first 24 bytes of a digest, then the salt, all big-endian.
///
/// The salt differs from one invoice of a contract to the next, so the identifiers do too,
/// whatever the digests are.
#[derive(Clone, Copy, Debug, PartialEq, Eq, Structural)]
pub struct InvoiceId {
    pub hi: u128,
    pub mid: u64,
    pub salt: u64,
}

/// The identifier made of a digest, given as two big-endian halves, and a salt.
pub open spec fn id_from_digest(digest: (u128, u128), salt: u64) -> InvoiceId {
    InvoiceId { hi: digest.0, mid: (digest.1 / 0x1_0000_0000_0000_0000) as u64, salt }
}

/// The identifier of an invoice created on `terms` at ledger time `now` under `salt`.
pub open spec fn id_of(terms: Terms, now: u64, salt: u64) -> InvoiceId {
    id_from_digest(sha256_halves(preimage(terms, now, salt)), salt)
}

impl InvoiceId {
    /// Puts an identifier together from a digest, given as two big-endian halves, and a salt.
    pub fn from_digest(digest: (u128, u128), salt: u64) -> (id: InvoiceId)
        ensures
            id == id_from_digest(digest, salt),
    {
        InvoiceId { hi: digest.0, mid: (digest.1 / 0x1_0000_0000_0000_0000) as u64, salt }
    }

    /// The identifier of an invoice created on `terms` at ledger time `now` under `salt`.
    pub fn derive(terms: &Terms, now: u64, salt: u64) -> (id: InvoiceId)
        ensures
            id == id_of(*terms, now, salt),
    {
        let data = encode(terms, now, salt);
        InvoiceId::from_digest(sha256(&data), salt)
    }
}

/// The SHA-256 digest of `data`, as two big-endian halves.
pub uninterp spec fn sha256_halves(data: Seq<u8>) -> (u128, u128);

/// Calls `soroban_sdk::crypto::Crypto::sha256` on a host of its own, and reads the 32 bytes that
/// come back as two big-endian halves.
///
/// Trusted: the digest depends on the bytes alone. Inputs are kept short because the host meters
/// its work and stops when its allowance is used up.
#[verifier::external_body]
fn sha256(data: &Vec<u8>) -> (digest: (u128, u128))
    requires
        data@.len() <= 1024,
    ensures
        digest == sha256_halves(data@),
{
    let env = soroban_sdk::Env::default();
    let bytes = soroban_sdk::Bytes::from_slice(&env, data.as_slice());
    let digest: [u8; 32] = env.crypto().sha256(&bytes).to_array();
    let (hi, lo) = digest.split_at(16);
    (u128::from_be_bytes(hi.try_into().unwrap()), u128::from_be_bytes(lo.try_into().unwrap()))
}

/// One byte for the kind of an address.
pub open spec fn kind_byte(kind: AddressKind) -> u8 {
    match kind {
        AddressKind::Account => 0,
        AddressKind::Contract => 1,
    }
}

/// An address in 33 bytes.
pub open spec fn address_bytes(address: Address) -> Seq<u8> {
    seq![kind_byte(address.kind)] + spec_u128_to_le_bytes(address.hi) + spec_u128_to_le_bytes(
        address.lo,
    )
}

/// The bytes that an identifier is a digest of: every part of the terms, the ledger time and the
/// salt, each at a fixed place.
pub open spec fn preimage(terms: Terms, now: u64, salt: u64) -> Seq<u8> {
    address_bytes(terms.issuer) + address_bytes(terms.buyer) + spec_u128_to_le_bytes(
        terms.face_value,
    ) + spec_u64_to_le_bytes(terms.due_date) + address_bytes(terms.funding_asset)
        + spec_u64_to_le_bytes(now) + spec_u64_to_le_bytes(salt)
}

fn push_address(data: &mut Vec<u8>, address: &Address)
    ensures
        final(data)@ == old(data)@ + address_bytes(*address),
{
    let kind: u8 = match address.kind {
        AddressKind::Account => 0,
        AddressKind::Contract => 1,
    };
    let mut hi = u128_to_le_bytes(address.hi);
    let mut lo = u128_to_le_bytes(address.lo);
    data.push(kind);
    data.append(&mut hi);
    data.append(&mut lo);
    assert(data@ =~= old(data)@ + address_bytes(*address));
}

/// The bytes that an identifier is a digest of.
pub fn encode(terms: &Terms, now: u64, salt: u64) -> (data: Vec<u8>)
    ensures
        data@ == preimage(*terms, now, salt),
        data@.len() == 139,
{
    proof {
        lemma_auto_spec_u128_to_from_le_bytes();
        lemma_auto_spec_u64_to_from_le_bytes();
    }
    let mut data: Vec<u8> = Vec::new();
    let mut face_value = u128_to_le_bytes(terms.face_value);
    let mut due_date = u64_to_le_bytes(terms.due_date);
    let mut time = u64_to_le_bytes(now);
    let mut salt_bytes = u64_to_le_bytes(salt);
    push_address(&mut data, &terms.issuer);
    push_address(&mut data, &terms.buyer);
    data.append(&mut face_value);
    data.append(&mut due_date);
    push_address(&mut data, &terms.funding_asset);
    data.append(&mut time);
    data.append(&mut salt_bytes);
    assert(data@ =~= preimage(*terms, now, salt));
    data
}

/// Two sequences that begin with parts of one length agree in those parts and in what follows.
proof fn lemma_split(a: Seq<u8>, x: Seq<u8>, b: Seq<u8>, y: Seq<u8>)
    requires
        a.len() == b.len(),
        a + x == b + y,
    ensures
        a == b,
        x == y,
{
    assert(a =~= (a + x).take(a.len() as int));
    assert(b =~= (b + y).take(b.len() as int));
    assert(x =~= (a + x).skip(a.len() as int));
    assert(y =~= (b + y).skip(b.len() as int));
}

proof fn lemma_address_bytes_injective(a: Address, b: Address)
    requires
        address_bytes(a) == address_bytes(b),
    ensures
        a == b,
{
    lemma_auto_spec_u128_to_from_le_bytes();
    let (a_hi, a_lo) = (spec_u128_to_le_bytes(a.hi), spec_u128_to_le_bytes(a.lo));
    let (b_hi, b_lo) = (spec_u128_to_le_bytes(b.hi), spec_u128_to_le_bytes(b.lo));
    lemma_split(seq![kind_byte(a.kind)] + a_hi, a_lo, seq![kind_byte(b.kind)] + b_hi, b_lo);
    lemma_split(seq![kind_byte(a.kind)], a_hi, seq![kind_byte(b.kind)], b_hi);
    assert(seq![kind_byte(a.kind)][0] == seq![kind_byte(b.kind)][0]);
    assert(spec_u128_from_le_bytes(a_hi) == a.hi);
    assert(spec_u128_from_le_bytes(b_hi) == b.hi);
    assert(spec_u128_from_le_bytes(a_lo) == a.lo);
    assert(spec_u128_from_le_bytes(b_lo) == b.lo);
}

/// Invoices that differ in any of their terms, in their ledger time or in their salt are hashed
/// from different bytes.
pub proof fn lemma_preimage_injective(
    terms1: Terms,
    now1: u64,
    salt1: u64,
    terms2: Terms,
    now2: u64,
    salt2: u64,
)
    requires
        preimage(terms1, now1, salt1) == preimage(terms2, now2, salt2),
    ensures
        terms1 == terms2,
        now1 == now2,
        salt1 == salt2,
{
    lemma_auto_spec_u128_to_from_le_bytes();
    lemma_auto_spec_u64_to_from_le_bytes();
    let (i1, i2) = (address_bytes(terms1.issuer), address_bytes(terms2.issuer));
    let (b1, b2) = (address_bytes(terms1.buyer), address_bytes(terms2.buyer));
    let (f1, f2) = (
        spec_u128_to_le_bytes(terms1.face_value),
        spec_u128_to_le_bytes(terms2.face_value),
    );
    let (d1, d2) = (spec_u64_to_le_bytes(terms1.due_date), spec_u64_to_le_bytes(terms2.due_date));
    let (a1, a2) = (address_bytes(terms1.funding_asset), address_bytes(terms2.funding_asset));
    let (n1, n2) = (spec_u64_to_le_bytes(now1), spec_u64_to_le_bytes(now2));
    let (s1, s2) = (spec_u64_to_le_bytes(salt1), spec_u64_to_le_bytes(salt2));
    lemma_split(i1 + b1 + f1 + d1 + a1 + n1, s1, i2 + b2 + f2 + d2 + a2 + n2, s2);
    lemma_split(i1 + b1 + f1 + d1 + a1, n1, i2 + b2 + f2 + d2 + a2, n2);
    lemma_split(i1 + b1 + f1 + d1, a1, i2 + b2 + f2 + d2, a2);
    lemma_split(i1 + b1 + f1, d1, i2 + b2 + f2, d2);
    lemma_split(i1 + b1, f1, i2 + b2, f2);
    lemma_split(i1, b1, i2, b2);
    lemma_address_bytes_injective(terms1.issuer, terms2.issuer);
    lemma_address_bytes_injective(terms1.buyer, terms2.buyer);
    lemma_address_bytes_injective(terms1.funding_asset, terms2.funding_asset);
    assert(spec_u128_from_le_bytes(f1) == terms1.face_value);
    assert(spec_u128_from_le_bytes(f2) == terms2.face_value);
    assert(spec_u64_from_le_bytes(d1) == terms1.due_date);
    assert(spec_u64_from_le_bytes(d2) == terms2.due_date);
    assert(spec_u64_from_le_bytes(n1) == now1);
    assert(spec_u64_from_le_bytes(n2) == now2);
    assert(spec_u64_from_le_bytes(s1) == salt1);
    assert(spec_u64_from_le_bytes(s2) == salt2);
}

/// Identifiers under different salts differ.
pub proof fn lemma_salt_makes_ids_distinct(
    terms1: Terms,
    now1: u64,
    salt1: u64,
    terms2: Terms,
    now2: u64,
    salt2: u64,
)
    requires
        salt1 != salt2,
    ensures
        id_of(terms1, now1, salt1) != id_of(terms2, now2, salt2),
{
}

} // verus!
