//! Descriptor-style derivers of script-pubkeys.
//!
//! [`TrKey`] is the simplest script-pubkey deriver: a key-path-only taproot
//! descriptor that turns the x-only key derived by its inner deriver into a
//! segwit v1 (taproot) script-pubkey `OP_1 <32-byte key>`.

use vstd::prelude::*;

use crate::derive::{Derive, DeriveXOnly};
use crate::index::NormalIndex;
use crate::keys::{copy_range, InternalPk, ScriptPubkey};

verus! {

/// A key-path taproot descriptor over an x-only-key deriver.
#[derive(Debug)]
pub struct TrKey<K> {
    internal_key: K,
}

impl<K> TrKey<K> {
    /// The inner deriver of taproot internal keys.
    pub closed spec fn internal_key_spec(&self) -> K {
        self.internal_key
    }

    /// Wraps an x-only-key deriver as a taproot key-path descriptor.
    pub fn new(internal_key: K) -> (r: TrKey<K>)
        ensures
            r.internal_key_spec() == internal_key,
    {
        TrKey { internal_key }
    }
}

impl<K: DeriveXOnly> Derive<ScriptPubkey> for TrKey<K> {
    open spec fn derive_spec(&self, keychain: NormalIndex, index: NormalIndex) -> Seq<u8> {
        seq![0x51u8, 0x20u8] + self.internal_key_spec().derive_spec(keychain, index)
    }

    fn derive(&self, keychain: NormalIndex, index: NormalIndex) -> (r: ScriptPubkey) {
        let xonly: InternalPk = self.internal_key.derive(keychain, index);
        let kb = xonly.as_bytes();
        let mut script: Vec<u8> = Vec::new();
        script.push(0x51);
        script.push(0x20);
        let mut tail = copy_range(kb, 0, kb.len());
        script.append(&mut tail);
        proof {
            assert(kb@.subrange(0, kb@.len() as int) =~= kb@);
            assert(script@ =~= seq![0x51u8, 0x20u8] + self.internal_key_spec().derive_spec(
                keychain,
                index,
            ));
        }
        ScriptPubkey::new(script)
    }
}

} // verus!
