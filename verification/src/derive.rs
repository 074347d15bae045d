//! The derive capability: single, batch and address derivation.
//!
//! A deriver exposes one deterministic operation from a (keychain, index)
//! pair to an output value; everything else here — bounded batches, address
//! derivation, address batches — composes that one operation. Batch
//! derivation walks consecutive indexes and stops at the unhardened upper
//! bound, and derives once before it checks the count, so a requested count
//! of zero still yields one element.

use vstd::prelude::*;

use crate::address::{
    is_representable, payload_matches, payload_view_eq, lemma_payload_unique, Address,
    AddressError, AddressNetwork,
};
use crate::index::{HARDENED_INDEX_BOUNDARY, NormalIndex};
use crate::keys::{ComprPubkey, InternalPk, ScriptPubkey};
use crate::terminal::{terminal_cmp_spec, Terminal};

verus! {

/// Number of values a batch starting at value `from` holds when `max_count`
/// are asked for: one value is always derived, and the walk stops at the
/// unhardened upper bound.
pub open spec fn batch_size(from: nat, max_count: u8) -> nat {
    let cap: nat = if max_count == 0 {
        1
    } else {
        max_count as nat
    };
    let avail: nat = (HARDENED_INDEX_BOUNDARY - from) as nat;
    if cap <= avail {
        cap
    } else {
        avail
    }
}

/// When the whole range `[from, from + n)` is unhardened, a batch of `n` is
/// full-length.
pub proof fn lemma_batch_size_full(from: nat, n: u8)
    requires
        n >= 1,
        from + n - 1 < HARDENED_INDEX_BOUNDARY,
    ensures
        batch_size(from, n) == n,
{
}

/// Asking for zero values still yields exactly one.
pub proof fn lemma_batch_size_zero_count(from: nat)
    requires
        from < HARDENED_INDEX_BOUNDARY,
    ensures
        batch_size(from, 0) == 1,
{
}

/// A batch starting at the maximum unhardened index holds exactly one value.
pub proof fn lemma_batch_size_at_max(max_count: u8)
    requires
        max_count >= 1,
    ensures
        batch_size((HARDENED_INDEX_BOUNDARY - 1) as nat, max_count) == 1,
{
}

/// The derive capability over output values of type `D`.
///
/// `derive_spec` is the mathematical content of a deriver: what byte-level
/// value (the view of `D`) it assigns to each (keychain, index) pair.
/// `derive` must return exactly that value, which makes derivation
/// deterministic by contract.
pub trait Derive<D: View>: Sized {
    /// The value this deriver assigns to (keychain, index).
    spec fn derive_spec(&self, keychain: NormalIndex, index: NormalIndex) -> D::V;

    /// Derives the output value at (keychain, index).
    fn derive(&self, keychain: NormalIndex, index: NormalIndex) -> (r: D)
        ensures
            r@ == self.derive_spec(keychain, index),
    ;

    /// Derives a run of consecutive values for one keychain, starting at
    /// `from`: up to `max_count` of them, stopping early at the unhardened
    /// upper bound, and always deriving at least one.
    fn derive_batch(&self, keychain: NormalIndex, from: NormalIndex, max_count: u8) -> (r: Vec<D>)
        ensures
            r@.len() == batch_size(from@, max_count),
            forall|j: int| #![trigger r@[j]]
                0 <= j < r@.len() ==> r@[j]@ == self.derive_spec(keychain, from.spec_add(j)),
    {
        let mut index = from;
        let mut count: u8 = 0;
        let mut batch: Vec<D> = Vec::new();
        proof {
            use_type_invariant(&from);
            from.lemma_inv_bound();
        }
        loop
            invariant
                batch@.len() == count,
                count == 0 || count < max_count,
                from@ < HARDENED_INDEX_BOUNDARY,
                index@ == from@ + count,
                index@ < HARDENED_INDEX_BOUNDARY,
                forall|j: int| #![trigger batch@[j]]
                    0 <= j < count ==> batch@[j]@ == self.derive_spec(keychain, from.spec_add(j)),
            decreases HARDENED_INDEX_BOUNDARY - index@,
        {
            proof {
                from.lemma_spec_add(count as int);
                NormalIndex::lemma_view_injective(index, from.spec_add(count as int));
            }
            batch.push(self.derive(keychain, index));
            count = count + 1;
            match index.checked_inc() {
                None => {
                    proof {
                        assert(count == batch_size(from@, max_count));
                    }
                    return batch;
                },
                Some(next) => {
                    if count >= max_count {
                        proof {
                            use_type_invariant(&next);
                            next.lemma_inv_bound();
                            assert(count == batch_size(from@, max_count));
                        }
                        return batch;
                    }
                    index = next;
                    proof {
                        use_type_invariant(&index);
                        index.lemma_inv_bound();
                    }
                },
            }
        }
    }
}

/// Derivers of compressed ECDSA public keys.
pub trait DeriveCompr: Derive<ComprPubkey> {}

impl<T: Derive<ComprPubkey>> DeriveCompr for T {}

/// Derivers of x-only (taproot internal) public keys.
pub trait DeriveXOnly: Derive<InternalPk> {}

impl<T: Derive<InternalPk>> DeriveXOnly for T {}

/// Derivers of script-pubkeys, with network-aware address derivation.
pub trait DeriveSpk: Derive<ScriptPubkey> {
    /// Derives the script-pubkey at (keychain, index) and encodes it as an
    /// address for `network`; fails exactly when that script has no address
    /// form.
    fn derive_address(
        &self,
        network: AddressNetwork,
        keychain: NormalIndex,
        index: NormalIndex,
    ) -> (r: Result<Address, AddressError>)
        ensures
            match r {
                Ok(a) => a.network == network && is_representable(
                    self.derive_spec(keychain, index),
                ) && payload_matches(a.payload, self.derive_spec(keychain, index)),
                Err(e) => !is_representable(self.derive_spec(keychain, index)) && e
                    == AddressError::UnrepresentableScript,
            },
    {
        let spk = self.derive(keychain, index);
        Address::with(&spk, network)
    }

    /// Derives a batch of script-pubkeys and encodes each as an address for
    /// `network`. Fails on the first script without an address form, and
    /// then returns no partial batch.
    fn derive_address_batch(
        &self,
        network: AddressNetwork,
        keychain: NormalIndex,
        from: NormalIndex,
        max_count: u8,
    ) -> (r: Result<Vec<Address>, AddressError>)
        ensures
            match r {
                Ok(addrs) => addrs@.len() == batch_size(from@, max_count) && forall|j: int|
                    #![trigger addrs@[j]]
                    0 <= j < addrs@.len() ==> addrs@[j].network == network && payload_matches(
                        addrs@[j].payload,
                        self.derive_spec(keychain, from.spec_add(j)),
                    ),
                Err(e) => e == AddressError::UnrepresentableScript && exists|j: int|
                    #![auto]
                    0 <= j < batch_size(from@, max_count) && !is_representable(
                        self.derive_spec(keychain, from.spec_add(j)),
                    ),
            },
    {
        let spks = self.derive_batch(keychain, from, max_count);
        let mut addrs: Vec<Address> = Vec::new();
        let mut i: usize = 0;
        while i < spks.len()
            invariant
                i <= spks@.len(),
                spks@.len() == batch_size(from@, max_count),
                forall|j: int| #![trigger spks@[j]]
                    0 <= j < spks@.len() ==> spks@[j]@ == self.derive_spec(
                        keychain,
                        from.spec_add(j),
                    ),
                addrs@.len() == i,
                forall|j: int| #![trigger addrs@[j]]
                    0 <= j < i ==> addrs@[j].network == network && payload_matches(
                        addrs@[j].payload,
                        self.derive_spec(keychain, from.spec_add(j)),
                    ),
            decreases spks@.len() - i,
        {
            match Address::with(&spks[i], network) {
                Ok(a) => addrs.push(a),
                Err(e) => {
                    return Err(e);
                },
            }
            i = i + 1;
        }
        Ok(addrs)
    }
}

impl<T: Derive<ScriptPubkey>> DeriveSpk for T {}

/// Ties a deriver type to the deriver types used for its compressed-key and
/// x-only-key flavors, so descriptor-level code can pick the right one
/// without runtime branching.
pub trait DeriveSet {
    /// The deriver used for compressed ECDSA keys.
    type Compr: DeriveCompr;

    /// The deriver used for x-only taproot keys.
    type XOnly: DeriveXOnly;
}

/// An address together with the terminal it was derived at. Ordered by
/// terminal alone, for deterministic range iteration.
#[derive(Clone, PartialEq, Eq, Hash, Debug)]
pub struct DerivedAddr {
    pub addr: Address,
    pub terminal: Terminal,
}

impl DerivedAddr {
    /// Pairs an address with the terminal that produced it.
    pub fn new(addr: Address, keychain: NormalIndex, index: NormalIndex) -> (r: Self)
        ensures
            r.addr == addr,
            r.terminal.keychain == keychain,
            r.terminal.index == index,
    {
        DerivedAddr { addr, terminal: Terminal::new(keychain, index) }
    }
}

impl PartialOrd for DerivedAddr {
    fn partial_cmp(&self, other: &Self) -> (r: Option<core::cmp::Ordering>) {
        self.terminal.partial_cmp(&other.terminal)
    }
}

impl vstd::std_specs::cmp::PartialOrdSpecImpl for DerivedAddr {
    open spec fn obeys_partial_cmp_spec() -> bool {
        true
    }

    open spec fn partial_cmp_spec(&self, other: &Self) -> Option<core::cmp::Ordering> {
        terminal_cmp_spec(&self.terminal, &other.terminal)
    }
}

/// Derivation is deterministic: two results of `derive` for one deriver at
/// one (keychain, index) pair are the same value.
pub proof fn lemma_derive_deterministic<D: View, T: Derive<D>>(
    deriver: &T,
    keychain: NormalIndex,
    index: NormalIndex,
    r1: D,
    r2: D,
)
    requires
        r1@ == deriver.derive_spec(keychain, index),
        r2@ == deriver.derive_spec(keychain, index),
    ensures
        r1@ == r2@,
{
}

/// Batch address derivation agrees with single address derivation: the
/// `j`-th address of a successful batch carries the same network and the
/// same payload bytes as a successful `derive_address` at index
/// `from + j` of the same keychain.
pub proof fn lemma_address_batch_matches_single<T: DeriveSpk>(
    deriver: &T,
    network: AddressNetwork,
    keychain: NormalIndex,
    from: NormalIndex,
    max_count: u8,
    batch: Seq<Address>,
    single: Address,
    j: int,
)
    requires
        0 <= j < batch.len(),
        batch.len() == batch_size(from@, max_count),
        forall|k: int| #![trigger batch[k]]
            0 <= k < batch.len() ==> batch[k].network == network && payload_matches(
                batch[k].payload,
                deriver.derive_spec(keychain, from.spec_add(k)),
            ),
        single.network == network,
        payload_matches(single.payload, deriver.derive_spec(keychain, from.spec_add(j))),
    ensures
        single.network == batch[j].network,
        payload_view_eq(single.payload, batch[j].payload),
{
    lemma_payload_unique(
        single.payload,
        batch[j].payload,
        deriver.derive_spec(keychain, from.spec_add(j)),
    );
}

/// Ordering of derived addresses follows the terminal alone: whatever the
/// two addresses hold, the one at the lexicographically smaller
/// (keychain, index) compares below the other.
pub proof fn lemma_derived_addr_order(d1: DerivedAddr, d2: DerivedAddr)
    requires
        d1.terminal.keychain@ < d2.terminal.keychain@ || (d1.terminal.keychain@
            == d2.terminal.keychain@ && d1.terminal.index@ < d2.terminal.index@),
    ensures
        vstd::std_specs::cmp::PartialOrdSpec::partial_cmp_spec(&d1, &d2) == Some(
            core::cmp::Ordering::Less,
        ),
{
}

} // verus!
