//! Key, script and address derivation through the capability traits.

use bp_derive::{
    Address, AddressError, AddressNetwork, AddressPayload, ComprPubkey, Derive, DeriveSpk,
    DerivedAddr, InternalPk, NormalIndex, ScriptPubkey, TrKey, XpubDescriptor,
    HARDENED_INDEX_BOUNDARY,
};

fn ni(v: u32) -> NormalIndex {
    NormalIndex::new(v).unwrap()
}

/// The secp256k1 generator point, compressed: a known-valid public key.
fn account_pubkey() -> Vec<u8> {
    vec![
        0x02, 0x79, 0xbe, 0x66, 0x7e, 0xf9, 0xdc, 0xbb, 0xac, 0x55, 0xa0, 0x62, 0x95, 0xce, 0x87,
        0x0b, 0x07, 0x02, 0x9b, 0xfc, 0xdb, 0x2d, 0xce, 0x28, 0xd9, 0x59, 0xf2, 0x81, 0x5b, 0x16,
        0xf8, 0x17, 0x98,
    ]
}

fn account_chain_code() -> Vec<u8> {
    (1u8..=32).collect()
}

fn xpub() -> XpubDescriptor {
    XpubDescriptor::new(account_pubkey(), account_chain_code()).unwrap()
}

#[test]
fn xpub_descriptor_rejects_bad_shapes() {
    assert!(XpubDescriptor::new(vec![0x02; 32], vec![0u8; 32]).is_none());
    assert!(XpubDescriptor::new(account_pubkey(), vec![0u8; 31]).is_none());
    assert!(XpubDescriptor::new(account_pubkey(), account_chain_code()).is_some());
}

#[test]
fn key_types_check_lengths() {
    assert!(ComprPubkey::new(vec![0u8; 32]).is_none());
    assert!(ComprPubkey::new(vec![0u8; 33]).is_some());
    assert!(InternalPk::new(vec![0u8; 33]).is_none());
    assert!(InternalPk::new(vec![0u8; 32]).is_some());
    let spk = ScriptPubkey::new(vec![0x6a]);
    assert_eq!(spk.as_bytes(), &vec![0x6a]);
}

#[test]
fn derive_is_deterministic() {
    let xd = xpub();
    let k1: ComprPubkey = xd.derive(ni(0), ni(7));
    let k2: ComprPubkey = xd.derive(ni(0), ni(7));
    assert_eq!(k1.as_bytes(), k2.as_bytes());
    let x1: InternalPk = xd.derive(ni(0), ni(7));
    let x2: InternalPk = xd.derive(ni(0), ni(7));
    assert_eq!(x1.as_bytes(), x2.as_bytes());
}

#[test]
fn derive_actually_derives() {
    let xd = xpub();
    let k: ComprPubkey = xd.derive(ni(0), ni(0));
    // The child differs from the account key, and neighbors differ.
    assert_ne!(k.as_bytes(), &account_pubkey());
    let k1: ComprPubkey = xd.derive(ni(0), ni(1));
    assert_ne!(k.as_bytes(), k1.as_bytes());
    let other_chain: ComprPubkey = xd.derive(ni(1), ni(0));
    assert_ne!(k.as_bytes(), other_chain.as_bytes());
}

#[test]
fn xonly_key_drops_the_parity_byte() {
    let xd = xpub();
    let compr: ComprPubkey = xd.derive(ni(3), ni(4));
    let xonly: InternalPk = xd.derive(ni(3), ni(4));
    assert_eq!(&compr.as_bytes()[1..], xonly.as_bytes().as_slice());
}

#[test]
fn batch_counts_within_range() {
    let tr = TrKey::new(xpub());
    let batch: Vec<ScriptPubkey> = tr.derive_batch(ni(0), ni(5), 3);
    assert_eq!(batch.len(), 3);
    let singles: Vec<ScriptPubkey> =
        vec![tr.derive(ni(0), ni(5)), tr.derive(ni(0), ni(6)), tr.derive(ni(0), ni(7))];
    for (b, s) in batch.iter().zip(singles.iter()) {
        assert_eq!(b.as_bytes(), s.as_bytes());
    }
}

#[test]
fn batch_of_zero_still_derives_one() {
    let tr = TrKey::new(xpub());
    let batch: Vec<ScriptPubkey> = tr.derive_batch(ni(2), ni(9), 0);
    assert_eq!(batch.len(), 1);
    let single: ScriptPubkey = tr.derive(ni(2), ni(9));
    assert_eq!(batch[0].as_bytes(), single.as_bytes());
}

#[test]
fn batch_stops_at_the_unhardened_bound() {
    let tr = TrKey::new(xpub());
    let max = NormalIndex::max();
    let batch: Vec<ScriptPubkey> = tr.derive_batch(ni(0), max, 5);
    assert_eq!(batch.len(), 1);
    let batch: Vec<ScriptPubkey> = tr.derive_batch(ni(0), max, 1);
    assert_eq!(batch.len(), 1);
    let near = ni(HARDENED_INDEX_BOUNDARY - 2);
    let batch: Vec<ScriptPubkey> = tr.derive_batch(ni(0), near, 5);
    assert_eq!(batch.len(), 2);
}

#[test]
fn taproot_scripts_have_the_standard_shape() {
    let tr = TrKey::new(xpub());
    let spk: ScriptPubkey = tr.derive(ni(0), ni(1));
    let bytes = spk.as_bytes();
    assert_eq!(bytes.len(), 34);
    assert_eq!(bytes[0], 0x51);
    assert_eq!(bytes[1], 0x20);
    let xonly: InternalPk = xpub().derive(ni(0), ni(1));
    assert_eq!(&bytes[2..], xonly.as_bytes().as_slice());
}

#[test]
fn derive_address_encodes_for_the_network() {
    let tr = TrKey::new(xpub());
    let addr = tr.derive_address(AddressNetwork::Mainnet, ni(0), ni(1)).unwrap();
    assert_eq!(addr.network, AddressNetwork::Mainnet);
    let xonly: InternalPk = xpub().derive(ni(0), ni(1));
    match &addr.payload {
        AddressPayload::Taproot(h) => assert_eq!(h, xonly.as_bytes()),
        other => panic!("expected a taproot payload, got {:?}", other),
    }
}

#[test]
fn address_batch_matches_single_derivation() {
    let tr = TrKey::new(xpub());
    let batch = tr.derive_address_batch(AddressNetwork::Testnet, ni(0), ni(5), 3).unwrap();
    let singles: Vec<Address> = vec![
        tr.derive_address(AddressNetwork::Testnet, ni(0), ni(5)).unwrap(),
        tr.derive_address(AddressNetwork::Testnet, ni(0), ni(6)).unwrap(),
        tr.derive_address(AddressNetwork::Testnet, ni(0), ni(7)).unwrap(),
    ];
    assert_eq!(batch, singles);
}

#[test]
fn address_classification_by_script_shape() {
    let mut p2pkh = vec![0x76, 0xa9, 0x14];
    p2pkh.extend([0xaa; 20]);
    p2pkh.extend([0x88, 0xac]);
    let a = Address::with(&ScriptPubkey::new(p2pkh), AddressNetwork::Mainnet).unwrap();
    assert_eq!(a.payload, AddressPayload::PubkeyHash(vec![0xaa; 20]));

    let mut p2sh = vec![0xa9, 0x14];
    p2sh.extend([0xbb; 20]);
    p2sh.push(0x87);
    let a = Address::with(&ScriptPubkey::new(p2sh), AddressNetwork::Mainnet).unwrap();
    assert_eq!(a.payload, AddressPayload::ScriptHash(vec![0xbb; 20]));

    let mut p2wpkh = vec![0x00, 0x14];
    p2wpkh.extend([0xcc; 20]);
    let a = Address::with(&ScriptPubkey::new(p2wpkh), AddressNetwork::Regtest).unwrap();
    assert_eq!(a.payload, AddressPayload::WPubkeyHash(vec![0xcc; 20]));

    let mut p2wsh = vec![0x00, 0x20];
    p2wsh.extend([0xdd; 32]);
    let a = Address::with(&ScriptPubkey::new(p2wsh), AddressNetwork::Testnet).unwrap();
    assert_eq!(a.payload, AddressPayload::WScriptHash(vec![0xdd; 32]));

    let mut p2tr = vec![0x51, 0x20];
    p2tr.extend([0xee; 32]);
    let a = Address::with(&ScriptPubkey::new(p2tr), AddressNetwork::Mainnet).unwrap();
    assert_eq!(a.payload, AddressPayload::Taproot(vec![0xee; 32]));
}

#[test]
fn unrepresentable_scripts_fail() {
    for bytes in [
        vec![],
        vec![0x6a],
        vec![0x6a, 0x01, 0x02],
        vec![0x00, 0x14],
        vec![0x51, 0x21],
    ] {
        let r = Address::with(&ScriptPubkey::new(bytes), AddressNetwork::Mainnet);
        assert_eq!(r, Err(AddressError::UnrepresentableScript));
    }
}

#[test]
fn derived_addr_orders_by_terminal_alone() {
    let tr = TrKey::new(xpub());
    let addr_a = tr.derive_address(AddressNetwork::Mainnet, ni(0), ni(1)).unwrap();
    let addr_b = tr.derive_address(AddressNetwork::Mainnet, ni(0), ni(2)).unwrap();
    let d1 = DerivedAddr::new(addr_a.clone(), ni(0), ni(1));
    let d2 = DerivedAddr::new(addr_b.clone(), ni(0), ni(2));
    assert!(d1 < d2);
    assert!(!(d2 < d1));
    // Keychain dominates the index.
    let d3 = DerivedAddr::new(addr_a.clone(), ni(1), ni(0));
    assert!(d2 < d3);
    // Equal terminals with different addresses are ordering-equal but not
    // content-equal.
    let e1 = DerivedAddr::new(addr_a.clone(), ni(4), ni(4));
    let e2 = DerivedAddr::new(addr_b.clone(), ni(4), ni(4));
    assert!(!(e1 < e2) && !(e2 < e1));
    assert_ne!(e1, e2);
    assert_eq!(e1, DerivedAddr::new(addr_a, ni(4), ni(4)));
}

#[test]
fn derived_addr_new_sets_terminal() {
    let tr = TrKey::new(xpub());
    let addr = tr.derive_address(AddressNetwork::Mainnet, ni(2), ni(30)).unwrap();
    let d = DerivedAddr::new(addr.clone(), ni(2), ni(30));
    assert_eq!(d.addr, addr);
    assert_eq!(d.terminal.keychain.value(), 2);
    assert_eq!(d.terminal.index.value(), 30);
}

#[test]
fn address_batch_scenario_covers_consecutive_indexes() {
    let tr = TrKey::new(xpub());
    let batch = tr.derive_address_batch(AddressNetwork::Mainnet, ni(0), ni(5), 3).unwrap();
    assert_eq!(batch.len(), 3);
    for (k, addr) in batch.iter().enumerate() {
        let single = tr
            .derive_address(AddressNetwork::Mainnet, ni(0), ni(5 + k as u32))
            .unwrap();
        assert_eq!(*addr, single);
    }
    // Consecutive addresses are all distinct.
    assert_ne!(batch[0], batch[1]);
    assert_ne!(batch[1], batch[2]);
}
