//! Addresses and network-aware script-pubkey encoding.
//!
//! An [`Address`] pairs the payload read out of a script-pubkey with the
//! network it is meant for. Only the five standard script shapes are
//! representable as addresses; any other script yields
//! [`AddressError::UnrepresentableScript`].

use vstd::prelude::*;

use crate::keys::{copy_range, ScriptPubkey};

verus! {

/// The network an address is encoded for.
#[derive(Clone, Copy, PartialEq, Eq, Structural, Hash, Debug)]
pub enum AddressNetwork {
    /// Bitcoin mainnet.
    Mainnet,
    /// Any testnet flavor.
    Testnet,
    /// Local regtest.
    Regtest,
}

/// The hash or key payload an address carries, by standard script shape.
#[derive(Clone, PartialEq, Eq, Hash, Debug)]
pub enum AddressPayload {
    /// Pay-to-pubkey-hash: a 20-byte key hash.
    PubkeyHash(Vec<u8>),
    /// Pay-to-script-hash: a 20-byte script hash.
    ScriptHash(Vec<u8>),
    /// Segwit v0 pay-to-witness-pubkey-hash: a 20-byte key hash.
    WPubkeyHash(Vec<u8>),
    /// Segwit v0 pay-to-witness-script-hash: a 32-byte script hash.
    WScriptHash(Vec<u8>),
    /// Segwit v1 taproot output: a 32-byte output key.
    Taproot(Vec<u8>),
}

/// A derived script-pubkey that cannot be shown as an address.
#[derive(Clone, Copy, PartialEq, Eq, Structural, Hash, Debug)]
pub enum AddressError {
    /// The script's shape is none of the five standard address-bearing ones.
    UnrepresentableScript,
}

/// An on-chain address: a payload plus the network it is encoded for.
#[derive(Clone, PartialEq, Eq, Hash, Debug)]
pub struct Address {
    pub payload: AddressPayload,
    pub network: AddressNetwork,
}

/// Pay-to-pubkey-hash script shape: `OP_DUP OP_HASH160 <20> .. OP_EQUALVERIFY OP_CHECKSIG`.
pub open spec fn is_p2pkh(s: Seq<u8>) -> bool {
    s.len() == 25 && s[0] == 0x76 && s[1] == 0xa9 && s[2] == 0x14 && s[23] == 0x88 && s[24] == 0xac
}

/// Pay-to-script-hash script shape: `OP_HASH160 <20> .. OP_EQUAL`.
pub open spec fn is_p2sh(s: Seq<u8>) -> bool {
    s.len() == 23 && s[0] == 0xa9 && s[1] == 0x14 && s[22] == 0x87
}

/// Segwit v0 witness-pubkey-hash script shape: `OP_0 <20> ..`.
pub open spec fn is_p2wpkh(s: Seq<u8>) -> bool {
    s.len() == 22 && s[0] == 0x00 && s[1] == 0x14
}

/// Segwit v0 witness-script-hash script shape: `OP_0 <32> ..`.
pub open spec fn is_p2wsh(s: Seq<u8>) -> bool {
    s.len() == 34 && s[0] == 0x00 && s[1] == 0x20
}

/// Segwit v1 taproot script shape: `OP_1 <32> ..`.
pub open spec fn is_p2tr(s: Seq<u8>) -> bool {
    s.len() == 34 && s[0] == 0x51 && s[1] == 0x20
}

/// Can the script be shown as an address on any network?
pub open spec fn is_representable(s: Seq<u8>) -> bool {
    is_p2pkh(s) || is_p2sh(s) || is_p2wpkh(s) || is_p2wsh(s) || is_p2tr(s)
}

/// Does `p` hold exactly the payload that script `s` carries?
pub open spec fn payload_matches(p: AddressPayload, s: Seq<u8>) -> bool {
    match p {
        AddressPayload::PubkeyHash(h) => is_p2pkh(s) && h@ == s.subrange(3, 23),
        AddressPayload::ScriptHash(h) => is_p2sh(s) && h@ == s.subrange(2, 22),
        AddressPayload::WPubkeyHash(h) => is_p2wpkh(s) && h@ == s.subrange(2, 22),
        AddressPayload::WScriptHash(h) => is_p2wsh(s) && h@ == s.subrange(2, 34),
        AddressPayload::Taproot(h) => is_p2tr(s) && h@ == s.subrange(2, 34),
    }
}

/// Same payload variant carrying the same bytes.
pub open spec fn payload_view_eq(p: AddressPayload, q: AddressPayload) -> bool {
    match (p, q) {
        (AddressPayload::PubkeyHash(a), AddressPayload::PubkeyHash(b)) => a@ == b@,
        (AddressPayload::ScriptHash(a), AddressPayload::ScriptHash(b)) => a@ == b@,
        (AddressPayload::WPubkeyHash(a), AddressPayload::WPubkeyHash(b)) => a@ == b@,
        (AddressPayload::WScriptHash(a), AddressPayload::WScriptHash(b)) => a@ == b@,
        (AddressPayload::Taproot(a), AddressPayload::Taproot(b)) => a@ == b@,
        _ => false,
    }
}

/// A script determines its address payload: any two payloads read from the
/// same script carry the same variant and the same bytes.
pub proof fn lemma_payload_unique(p: AddressPayload, q: AddressPayload, s: Seq<u8>)
    requires
        payload_matches(p, s),
        payload_matches(q, s),
    ensures
        payload_view_eq(p, q),
{
}

impl Address {
    /// Reads the payload out of a script-pubkey and stamps it with the
    /// network; fails exactly when the script has no address form.
    pub fn with(script: &ScriptPubkey, network: AddressNetwork) -> (r: Result<Address, AddressError>)
        ensures
            match r {
                Ok(a) => a.network == network && is_representable(script@) && payload_matches(
                    a.payload,
                    script@,
                ),
                Err(e) => !is_representable(script@) && e == AddressError::UnrepresentableScript,
            },
    {
        let b = script.as_bytes();
        let n = b.len();
        if n == 25 && b[0] == 0x76 && b[1] == 0xa9 && b[2] == 0x14 && b[23] == 0x88 && b[24]
            == 0xac {
            let h = copy_range(b, 3, 23);
            Ok(Address { payload: AddressPayload::PubkeyHash(h), network })
        } else if n == 23 && b[0] == 0xa9 && b[1] == 0x14 && b[22] == 0x87 {
            let h = copy_range(b, 2, 22);
            Ok(Address { payload: AddressPayload::ScriptHash(h), network })
        } else if n == 22 && b[0] == 0x00 && b[1] == 0x14 {
            let h = copy_range(b, 2, 22);
            Ok(Address { payload: AddressPayload::WPubkeyHash(h), network })
        } else if n == 34 && b[0] == 0x00 && b[1] == 0x20 {
            let h = copy_range(b, 2, 34);
            Ok(Address { payload: AddressPayload::WScriptHash(h), network })
        } else if n == 34 && b[0] == 0x51 && b[1] == 0x20 {
            let h = copy_range(b, 2, 34);
            Ok(Address { payload: AddressPayload::Taproot(h), network })
        } else {
            Err(AddressError::UnrepresentableScript)
        }
    }
}

} // verus!
