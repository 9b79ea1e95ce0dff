//! The wallet record and the statement of what each of its fields is, as a
//! function of the seed, the derivation index, the key variant and the
//! address prefix.
use vstd::prelude::*;

use crate::cli::KeyType;
use crate::crypto::{
    base64_of, bech32_of, hd_child_secret, keccak256_of, pubkey_compressed,
    pubkey_uncompressed, ripemd160_of, scalar_ok, sha256_of,
};
use crate::encoding::{hex_of, lemma_unhex_of_hex, path_of, unhex};

verus! {

/// One generated wallet: a bech32 address, an EVM-style hex address for the
/// Ethereum-compatible variant, the compressed public key in base64, the
/// secret scalar in lowercase hex, and the derivation path string.
#[derive(Clone, Debug)]
pub struct Wallet {
    pub address: String,
    pub evm_address: Option<String>,
    pub pubkey: String,
    pub private_key: String,
    pub derivation_path: String,
}

/// The 20 address bytes of the standard variant: RIPEMD-160 of SHA-256 of
/// the compressed public key.
pub open spec fn std_payload(scalar: Seq<u8>) -> Seq<u8> {
    ripemd160_of(sha256_of(pubkey_compressed(scalar)))
}

/// The 20 address bytes of the Ethereum-compatible variant: the last 20
/// bytes of Keccak-256 of the uncompressed public key without its tag byte.
pub open spec fn eth_payload(scalar: Seq<u8>) -> Seq<u8> {
    keccak256_of(pubkey_uncompressed(scalar).subrange(1, 65)).subrange(12, 32)
}

/// The 20 bytes that the bech32 address encodes, per key variant.
pub open spec fn address_payload(scalar: Seq<u8>, key_type: KeyType) -> Seq<u8> {
    match key_type {
        KeyType::Secp256k1 => std_payload(scalar),
        KeyType::Ethsecp256k1 => eth_payload(scalar),
    }
}

/// The EVM-style address string of a scalar: `0x` then the payload in hex.
pub open spec fn evm_hex(scalar: Seq<u8>) -> Seq<char> {
    "0x"@ + hex_of(eth_payload(scalar))
}

/// Derivation succeeds for this seed and index: the child secret exists and
/// is a valid secp256k1 scalar.
pub open spec fn wallet_ok(seed: Seq<u8>, index: nat) -> bool {
    &&& hd_child_secret(seed, path_of(index)) is Some
    &&& scalar_ok(hd_child_secret(seed, path_of(index)).unwrap())
}

/// Every field of `w` is the value that the pipeline assigns to the wallet
/// of `(seed, index, key_type, prefix)`. Together with `wallet_ok` and
/// `hrp_ok` this pins the record completely: any two wallets satisfying it
/// for the same arguments are character-for-character identical.
pub open spec fn wallet_matches(
    w: Wallet,
    seed: Seq<u8>,
    index: nat,
    key_type: KeyType,
    prefix: Seq<char>,
) -> bool {
    let scalar = hd_child_secret(seed, path_of(index)).unwrap();
    &&& w.derivation_path@ == path_of(index)
    &&& w.private_key@ == hex_of(scalar)
    &&& w.private_key@.len() == 64
    &&& w.pubkey@ == base64_of(pubkey_compressed(scalar))
    &&& w.pubkey@.len() == 44
    &&& w.address@ == bech32_of(prefix, address_payload(scalar, key_type))
    &&& address_payload(scalar, key_type).len() == 20
    &&& w.address@.len() == prefix.len() + 39
    &&& match key_type {
        KeyType::Secp256k1 => w.evm_address is None,
        KeyType::Ethsecp256k1 => w.evm_address matches Some(e) && e@ == evm_hex(scalar)
            && e@.len() == 42,
    }
}

/// Determinism: the wallet of given seed, index, variant and prefix is
/// unique. However two runs schedule their work, records built for the same
/// arguments agree in every character of every field.
pub proof fn lemma_wallet_deterministic(
    w1: Wallet,
    w2: Wallet,
    seed: Seq<u8>,
    index: nat,
    key_type: KeyType,
    prefix: Seq<char>,
)
    requires
        wallet_matches(w1, seed, index, key_type, prefix),
        wallet_matches(w2, seed, index, key_type, prefix),
    ensures
        w1.address@ == w2.address@,
        w1.pubkey@ == w2.pubkey@,
        w1.private_key@ == w2.private_key@,
        w1.derivation_path@ == w2.derivation_path@,
        w1.evm_address is Some <==> w2.evm_address is Some,
        w1.evm_address matches Some(e1) ==> w2.evm_address matches Some(e2) && e1@ == e2@,
{
}

/// Round trip: hex-decoding a wallet's private key gives back exactly the
/// derived scalar, and that scalar's compressed public key in base64 is
/// character-for-character the wallet's pubkey field — re-deriving from the
/// decoded private key reproduces the same pubkey string.
pub proof fn lemma_private_key_round_trip(
    w: Wallet,
    seed: Seq<u8>,
    index: nat,
    key_type: KeyType,
    prefix: Seq<char>,
)
    requires
        wallet_ok(seed, index),
        wallet_matches(w, seed, index, key_type, prefix),
    ensures
        unhex(w.private_key@) == Some(hd_child_secret(seed, path_of(index)).unwrap()),
        w.pubkey@ == base64_of(pubkey_compressed(unhex(w.private_key@).unwrap())),
{
    lemma_unhex_of_hex(hd_child_secret(seed, path_of(index)).unwrap());
}

} // verus!
