//! Derivation core for a deterministic cold wallet: unhardened derivation
//! terminals, the derive capability over multiple output key encodings,
//! bounded batch derivation, and network-aware address derivation.

pub mod address;
pub mod derive;
pub mod descriptors;
pub mod index;
pub mod keys;
pub mod path;
pub mod terminal;
pub mod xpub;

pub use address::{Address, AddressError, AddressNetwork, AddressPayload};
pub use derive::{batch_size, Derive, DeriveCompr, DeriveSet, DeriveSpk, DeriveXOnly, DerivedAddr};
pub use descriptors::TrKey;
pub use index::{NormalIndex, HARDENED_INDEX_BOUNDARY};
pub use keys::{ComprPubkey, InternalPk, ScriptPubkey};
pub use terminal::{DerivationParseError, Terminal, TerminalParseError};
pub use xpub::XpubDescriptor;
