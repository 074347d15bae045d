//! A concrete deriver backed by an account-level extended public key.
//!
//! Child keys are computed with the standard unhardened child-key step:
//! an HMAC-SHA512 of the parent chain code over the parent key and the
//! child index, whose left half tweaks the parent key by scalar
//! multiplication of the curve generator and whose right half is the child
//! chain code. The elliptic-curve work and the digest are consumed from
//! outside, as opaque deterministic functions; everything around them is
//! verified. In the cryptographically unreachable case that the tweaked
//! key is invalid, the parent key stands in, keeping derivation total and
//! deterministic.

use vstd::prelude::*;

use bitcoin_hashes::hmac::HmacEngine;
use bitcoin_hashes::HashEngine;

use crate::derive::{Derive, DeriveSet};
use crate::index::NormalIndex;
use crate::keys::{copy_range, ComprPubkey, InternalPk};

verus! {

/// The HMAC-SHA512 digest of `data` under `key`.
pub uninterp spec fn hmac512_of(key: Seq<u8>, data: Seq<u8>) -> Seq<u8>;

/// The compressed serialization of the public key `pk` tweaked by adding
/// `tweak * G`, or `None` when the key bytes or the tweak do not form a
/// valid key or the result would be invalid.
pub uninterp spec fn tweak_of(pk: Seq<u8>, tweak: Seq<u8>) -> Option<Seq<u8>>;

/// Relies on bitcoin_hashes' `HmacEngine`/`Hmac` over SHA-512: the digest
/// is a function of key and data alone, 64 bytes long.
#[verifier::external_body]
fn hmac_sha512(key: &[u8], data: &[u8]) -> (r: Vec<u8>)
    ensures
        r@ == hmac512_of(key@, data@),
        r@.len() == 64,
{
    let mut engine = HmacEngine::<bitcoin_hashes::sha512::HashEngine>::new(key);
    engine.input(data);
    bitcoin_hashes::Hash::to_byte_array(engine.finalize()).to_vec()
}

/// Relies on secp256k1's `PublicKey::add_exp_tweak` (with `from_slice`,
/// `Scalar::from_be_bytes` and `serialize` converting at the edges): the
/// outcome is a function of the key and tweak bytes alone, and a success is
/// the 33-byte compressed form of the tweaked key.
#[verifier::external_body]
fn pk_tweak_add(pk: &[u8], tweak: &[u8]) -> (r: Option<Vec<u8>>)
    requires
        pk@.len() == 33,
        tweak@.len() == 32,
    ensures
        match r {
            Some(v) => tweak_of(pk@, tweak@) == Some(v@) && v@.len() == 33,
            None => tweak_of(pk@, tweak@) is None,
        },
{
    let key = secp256k1::PublicKey::from_slice(pk).ok()?;
    let arr = <[u8; 32]>::try_from(tweak).ok()?;
    let scalar = secp256k1::Scalar::from_be_bytes(arr).ok()?;
    key.add_exp_tweak(&scalar).ok().map(|t| t.serialize().to_vec())
}

/// Big-endian serialization of a 32-bit index value.
pub open spec fn be32(n: nat) -> Seq<u8> {
    seq![
        (n / 0x0100_0000 % 0x100) as u8,
        (n / 0x0001_0000 % 0x100) as u8,
        (n / 0x100 % 0x100) as u8,
        (n % 0x100) as u8,
    ]
}

/// Public key of the unhardened child `idx` of the key `pk` with chain code
/// `cc` (the parent key when the tweak is invalid).
pub open spec fn child_pk(pk: Seq<u8>, cc: Seq<u8>, idx: nat) -> Seq<u8> {
    let digest = hmac512_of(cc, pk + be32(idx));
    match tweak_of(pk, digest.take(32)) {
        Some(p) => p,
        None => pk,
    }
}

/// Chain code of the unhardened child `idx`.
pub open spec fn child_cc(pk: Seq<u8>, cc: Seq<u8>, idx: nat) -> Seq<u8> {
    hmac512_of(cc, pk + be32(idx)).skip(32)
}

/// Compressed public key derived at the two-level unhardened path
/// `[keychain, index]` below the account key.
pub open spec fn xpub_derived_pk(pk: Seq<u8>, cc: Seq<u8>, keychain: nat, index: nat) -> Seq<u8> {
    child_pk(child_pk(pk, cc, keychain), child_cc(pk, cc, keychain), index)
}

/// One unhardened child-key step.
fn derive_child(pk: &Vec<u8>, cc: &Vec<u8>, index: NormalIndex) -> (r: (Vec<u8>, Vec<u8>))
    requires
        pk@.len() == 33,
        cc@.len() == 32,
    ensures
        r.0@ == child_pk(pk@, cc@, index@),
        r.1@ == child_cc(pk@, cc@, index@),
        r.0@.len() == 33,
        r.1@.len() == 32,
{
    let mut data = copy_range(pk, 0, pk.len());
    let v = index.value();
    data.push((v / 0x0100_0000) as u8);
    data.push(((v / 0x0001_0000) % 0x100) as u8);
    data.push(((v / 0x100) % 0x100) as u8);
    data.push((v % 0x100) as u8);
    proof {
        assert(v / 0x0100_0000 % 0x100 == v / 0x0100_0000);
        assert(data@ =~= pk@ + be32(index@));
    }
    let digest = hmac_sha512(cc.as_slice(), data.as_slice());
    let left = copy_range(&digest, 0, 32);
    let right = copy_range(&digest, 32, 64);
    proof {
        assert(left@ =~= digest@.take(32));
        assert(right@ =~= digest@.skip(32));
    }
    match pk_tweak_add(pk.as_slice(), left.as_slice()) {
        Some(t) => (t, right),
        None => (copy_range(pk, 0, pk.len()), right),
    }
}

/// A deriver owning account-level extended-public-key material: the account
/// public key and its chain code. Immutable; derivation never changes it.
#[derive(Debug)]
pub struct XpubDescriptor {
    pubkey: Vec<u8>,
    chain_code: Vec<u8>,
}

impl XpubDescriptor {
    #[verifier::type_invariant]
    spec fn inv(self) -> bool {
        self.pubkey@.len() == 33 && self.chain_code@.len() == 32
    }

    /// The account public key bytes (compressed, 33 bytes).
    pub closed spec fn pubkey_spec(&self) -> Seq<u8> {
        self.pubkey@
    }

    /// The account chain code bytes (32 bytes).
    pub closed spec fn chain_code_spec(&self) -> Seq<u8> {
        self.chain_code@
    }

    /// Builds a deriver from a 33-byte compressed account key and a
    /// 32-byte chain code; rejects any other shape.
    pub fn new(pubkey: Vec<u8>, chain_code: Vec<u8>) -> (r: Option<XpubDescriptor>)
        ensures
            (pubkey@.len() == 33 && chain_code@.len() == 32) <==> r is Some,
            r matches Some(x) ==> x.pubkey_spec() == pubkey@ && x.chain_code_spec() == chain_code@,
    {
        if pubkey.len() == 33 && chain_code.len() == 32 {
            Some(XpubDescriptor { pubkey, chain_code })
        } else {
            None
        }
    }
}

impl Derive<ComprPubkey> for XpubDescriptor {
    open spec fn derive_spec(&self, keychain: NormalIndex, index: NormalIndex) -> Seq<u8> {
        xpub_derived_pk(self.pubkey_spec(), self.chain_code_spec(), keychain@, index@)
    }

    fn derive(&self, keychain: NormalIndex, index: NormalIndex) -> (r: ComprPubkey) {
        proof {
            use_type_invariant(self);
        }
        let (p1, c1) = derive_child(&self.pubkey, &self.chain_code, keychain);
        let (p2, _c2) = derive_child(&p1, &c1, index);
        ComprPubkey::from_checked(p2)
    }
}

impl Derive<InternalPk> for XpubDescriptor {
    open spec fn derive_spec(&self, keychain: NormalIndex, index: NormalIndex) -> Seq<u8> {
        xpub_derived_pk(self.pubkey_spec(), self.chain_code_spec(), keychain@, index@).skip(1)
    }

    fn derive(&self, keychain: NormalIndex, index: NormalIndex) -> (r: InternalPk) {
        proof {
            use_type_invariant(self);
        }
        let (p1, c1) = derive_child(&self.pubkey, &self.chain_code, keychain);
        let (p2, _c2) = derive_child(&p1, &c1, index);
        let xonly = copy_range(&p2, 1, 33);
        proof {
            assert(xonly@ =~= p2@.skip(1));
        }
        InternalPk::from_checked(xonly)
    }
}

impl DeriveSet for XpubDescriptor {
    type Compr = XpubDescriptor;

    type XOnly = XpubDescriptor;
}

} // verus!
