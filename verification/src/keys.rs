//! Byte-level key and script values flowing through derivation.
//!
//! Derivation treats these as payloads: a compressed ECDSA public key
//! (33 bytes), an x-only taproot internal key (32 bytes), and a
//! script-pubkey (any bytes). Each is modelled by its byte sequence.

use vstd::prelude::*;

verus! {

/// A compressed ECDSA public key: exactly 33 bytes.
#[derive(Debug)]
pub struct ComprPubkey {
    bytes: Vec<u8>,
}

impl View for ComprPubkey {
    type V = Seq<u8>;

    closed spec fn view(&self) -> Seq<u8> {
        self.bytes@
    }
}

impl ComprPubkey {
    #[verifier::type_invariant]
    spec fn inv(self) -> bool {
        self.bytes@.len() == 33
    }

    /// Accepts exactly 33 bytes of compressed-key serialization.
    pub fn new(bytes: Vec<u8>) -> (r: Option<ComprPubkey>)
        ensures
            bytes@.len() == 33 <==> r is Some,
            r matches Some(k) ==> k@ == bytes@,
    {
        if bytes.len() == 33 {
            Some(ComprPubkey { bytes })
        } else {
            None
        }
    }

    /// Builds a key from bytes already known to have the right length.
    pub(crate) fn from_checked(bytes: Vec<u8>) -> (r: ComprPubkey)
        requires
            bytes@.len() == 33,
        ensures
            r@ == bytes@,
    {
        ComprPubkey { bytes }
    }

    /// The key's serialized bytes.
    pub fn as_bytes(&self) -> (r: &Vec<u8>)
        ensures
            r@ == self@,
            r@.len() == 33,
    {
        proof {
            use_type_invariant(self);
        }
        &self.bytes
    }
}

/// An x-only public key, the taproot internal-key form: exactly 32 bytes.
#[derive(Debug)]
pub struct InternalPk {
    bytes: Vec<u8>,
}

impl View for InternalPk {
    type V = Seq<u8>;

    closed spec fn view(&self) -> Seq<u8> {
        self.bytes@
    }
}

impl InternalPk {
    #[verifier::type_invariant]
    spec fn inv(self) -> bool {
        self.bytes@.len() == 32
    }

    /// Accepts exactly 32 bytes of x-only serialization.
    pub fn new(bytes: Vec<u8>) -> (r: Option<InternalPk>)
        ensures
            bytes@.len() == 32 <==> r is Some,
            r matches Some(k) ==> k@ == bytes@,
    {
        if bytes.len() == 32 {
            Some(InternalPk { bytes })
        } else {
            None
        }
    }

    /// Builds a key from bytes already known to have the right length.
    pub(crate) fn from_checked(bytes: Vec<u8>) -> (r: InternalPk)
        requires
            bytes@.len() == 32,
        ensures
            r@ == bytes@,
    {
        InternalPk { bytes }
    }

    /// The key's serialized bytes.
    pub fn as_bytes(&self) -> (r: &Vec<u8>)
        ensures
            r@ == self@,
            r@.len() == 32,
    {
        proof {
            use_type_invariant(self);
        }
        &self.bytes
    }
}

/// An on-chain spending-condition script.
#[derive(Debug)]
pub struct ScriptPubkey {
    bytes: Vec<u8>,
}

impl View for ScriptPubkey {
    type V = Seq<u8>;

    closed spec fn view(&self) -> Seq<u8> {
        self.bytes@
    }
}

impl ScriptPubkey {
    /// Wraps raw script bytes.
    pub fn new(bytes: Vec<u8>) -> (r: ScriptPubkey)
        ensures
            r@ == bytes@,
    {
        ScriptPubkey { bytes }
    }

    /// The script's bytes.
    pub fn as_bytes(&self) -> (r: &Vec<u8>)
        ensures
            r@ == self@,
    {
        &self.bytes
    }
}

/// Copies `v[from..to]` into a fresh vector.
pub(crate) fn copy_range(v: &Vec<u8>, from: usize, to: usize) -> (r: Vec<u8>)
    requires
        from <= to <= v@.len(),
    ensures
        r@ == v@.subrange(from as int, to as int),
{
    let mut r: Vec<u8> = Vec::new();
    let mut i: usize = from;
    while i < to
        invariant
            from <= i <= to <= v@.len(),
            r@ == v@.subrange(from as int, i as int),
        decreases to - i,
    {
        r.push(v[i]);
        proof {
            assert(v@.subrange(from as int, i + 1) =~= v@.subrange(from as int, i as int).push(
                v@[i as int],
            ));
        }
        i = i + 1;
    }
    r
}

} // verus!
