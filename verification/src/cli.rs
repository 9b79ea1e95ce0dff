//! Run configuration: which hash pipeline to use and how a run is set up.
use vstd::prelude::*;

verus! {

/// Selects which hash pipeline turns a public key into an address.
#[derive(Clone, Copy, Debug, PartialEq, Eq, Structural)]
pub enum KeyType {
    /// SHA-256 then RIPEMD-160 over the compressed public key.
    Secp256k1,
    /// Keccak-256 over the uncompressed public key with its tag byte stripped.
    Ethsecp256k1,
}

/// The settings of one generation run.
pub struct Args {
    /// Number of wallets to generate.
    pub count: usize,
    /// Mnemonic phrase; prompted for when absent.
    pub mnemonic: Option<String>,
    /// Output file path.
    pub output: String,
    /// Bech32 human-readable prefix for addresses.
    pub prefix: String,
    /// Key type to generate.
    pub key_type: KeyType,
    /// Number of parallel threads; zero means auto-detect.
    pub threads: usize,
}

} // verus!
