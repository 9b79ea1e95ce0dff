//! The derivation-and-encoding pipeline: one wallet from a seed and an
//! index, and batches of wallets over a contiguous index range.
use vstd::prelude::*;

use core::sync::atomic::{AtomicUsize, Ordering};
use std::sync::Arc;

use crate::cli::KeyType;
use crate::crypto::{
    base64_encode, bech32_encode, bech32_of, hd_child_secret, hd_derive_secret, hrp_ok,
    keccak256, pubkey_compressed, pubkey_serializations, ripemd160, scalar_ok, sha256,
};
use crate::encoding::{derivation_path_string, hex_encode, hex_of, lemma_hex_len, path_of};
use crate::wallet::{address_payload, evm_hex, wallet_matches, wallet_ok, Wallet};

verus! {

/// Why a single wallet could not be produced.
#[derive(Clone, Copy, Debug, PartialEq, Eq, Structural)]
pub enum AddressError {
    /// The 32-byte scalar is zero or not below the curve order.
    InvalidSecretKey,
    /// The prefix is not a valid bech32 human-readable part.
    InvalidPrefix,
}

/// Encodes one private scalar into its addresses and renderings.
///
/// Returns, in order: the bech32 address, the EVM-style hex address for the
/// Ethereum-compatible variant, the compressed public key in base64, and the
/// scalar in lowercase hex.
pub fn generate_addresses(private_key: &[u8; 32], prefix: &str, key_type: &KeyType) -> (r: Result<
    (String, Option<String>, String, String),
    AddressError,
>)
    ensures
        r is Ok <==> scalar_ok(private_key@) && hrp_ok(prefix@),
        !scalar_ok(private_key@) ==> r == Err::<(String, Option<String>, String, String),
            AddressError,
        >(AddressError::InvalidSecretKey),
        scalar_ok(private_key@) && !hrp_ok(prefix@) ==> r == Err::<
            (String, Option<String>, String, String),
            AddressError,
        >(AddressError::InvalidPrefix),
        r matches Ok(t) ==> {
            &&& t.0@ == bech32_of(prefix@, address_payload(private_key@, *key_type))
            &&& address_payload(private_key@, *key_type).len() == 20
            &&& t.0@.len() == prefix@.len() + 39
            &&& match *key_type {
                KeyType::Secp256k1 => t.1 is None,
                KeyType::Ethsecp256k1 => t.1 matches Some(e) && e@ == evm_hex(private_key@)
                    && e@.len() == 42,
            }
            &&& t.2@ == base64_of_compressed(private_key@)
            &&& t.2@.len() == 44
            &&& t.3@ == hex_of(private_key@)
            &&& t.3@.len() == 64
        },
{
    let keys = match pubkey_serializations(private_key) {
        Some(k) => k,
        None => {
            return Err(AddressError::InvalidSecretKey);
        },
    };
    let compressed = keys.0;
    let uncompressed = keys.1;
    let pubkey_base64 = base64_encode(compressed.as_slice());
    let private_key_hex = hex_encode(private_key.as_slice());
    match key_type {
        KeyType::Secp256k1 => {
            let sha = sha256(compressed.as_slice());
            let rip = ripemd160(sha.as_slice());
            let addr = match bech32_encode(prefix, rip.as_slice()) {
                Some(a) => a,
                None => {
                    return Err(AddressError::InvalidPrefix);
                },
            };
            Ok((addr, None, pubkey_base64, private_key_hex))
        },
        KeyType::Ethsecp256k1 => {
            let mut untagged: Vec<u8> = Vec::new();
            let mut i: usize = 1;
            while i < 65
                invariant
                    1 <= i <= 65,
                    uncompressed@.len() == 65,
                    untagged@ == uncompressed@.subrange(1, i as int),
                decreases 65 - i,
            {
                untagged.push(uncompressed[i]);
                proof {
                    assert(uncompressed@.subrange(1, i + 1) =~= uncompressed@.subrange(
                        1,
                        i as int,
                    ).push(uncompressed@[i as int]));
                }
                i += 1;
            }
            let keccak = keccak256(untagged.as_slice());
            let mut payload: Vec<u8> = Vec::new();
            let mut j: usize = 12;
            while j < 32
                invariant
                    12 <= j <= 32,
                    keccak@.len() == 32,
                    payload@ == keccak@.subrange(12, j as int),
                decreases 32 - j,
            {
                payload.push(keccak[j]);
                proof {
                    assert(keccak@.subrange(12, j + 1) =~= keccak@.subrange(12, j as int).push(
                        keccak@[j as int],
                    ));
                }
                j += 1;
            }
            let addr = match bech32_encode(prefix, payload.as_slice()) {
                Some(a) => a,
                None => {
                    return Err(AddressError::InvalidPrefix);
                },
            };
            let mut evm = String::from_str("0x");
            let payload_hex = hex_encode(payload.as_slice());
            evm.append(payload_hex.as_str());
            proof {
                reveal_strlit("0x");
                lemma_hex_len(payload@);
            }
            Ok((addr, Some(evm), pubkey_base64, private_key_hex))
        },
    }
}

/// The base64 form of the compressed public key of a scalar.
pub open spec fn base64_of_compressed(scalar: Seq<u8>) -> Seq<char> {
    crate::crypto::base64_of(pubkey_compressed(scalar))
}

/// Derives the child key of `index` and encodes it into a full wallet
/// record. Returns nothing exactly when derivation fails for the index, the
/// derived scalar is invalid, or the prefix is not a valid bech32
/// human-readable part.
pub fn assemble_wallet(seed: &[u8], index: usize, prefix: &str, key_type: &KeyType) -> (r: Option<
    Wallet,
>)
    ensures
        r is Some <==> wallet_ok(seed@, index as nat) && hrp_ok(prefix@),
        r matches Some(w) ==> wallet_matches(w, seed@, index as nat, *key_type, prefix@),
{
    let path = derivation_path_string(index);
    let secret = match hd_derive_secret(seed, path.as_str()) {
        Some(s) => s,
        None => {
            return None;
        },
    };
    match generate_addresses(&secret, prefix, key_type) {
        Ok((address, evm_address, pubkey, private_key)) => Some(
            Wallet {
                address,
                evm_address,
                pubkey,
                private_key,
                derivation_path: path,
            },
        ),
        Err(_) => None,
    }
}

/// The ascending sequence of indices in `[start, start + count)` whose
/// derivation succeeds; these are exactly the wallets a batch yields.
pub open spec fn batch_ok_indices(seed: Seq<u8>, start: nat, count: nat) -> Seq<nat>
    decreases count,
{
    if count == 0 {
        Seq::empty()
    } else {
        let prev = batch_ok_indices(seed, start, (count - 1) as nat);
        if wallet_ok(seed, (start + count - 1) as nat) {
            prev.push((start + count - 1) as nat)
        } else {
            prev
        }
    }
}

/// `ws` are exactly the wallets of the indices `idxs`, in order.
pub open spec fn wallets_match(
    ws: Seq<Wallet>,
    seed: Seq<u8>,
    idxs: Seq<nat>,
    key_type: KeyType,
    prefix: Seq<char>,
) -> bool {
    &&& ws.len() == idxs.len()
    &&& forall|j: int|
        0 <= j < ws.len() ==> wallet_matches(#[trigger] ws[j], seed, idxs[j], key_type, prefix)
}

/// Assembles the wallets of the contiguous index range
/// `[start_index, start_index + count)` in ascending order, dropping an
/// index only when its derivation fails. Adds 1000 to the shared progress
/// counter every 1000 processed indices (including the first) and the
/// remainder `count % 1000` once after the loop.
pub fn generate_wallets_batch(
    seed: &[u8],
    start_index: usize,
    count: usize,
    prefix: &str,
    key_type: &KeyType,
    progress: Arc<AtomicUsize>,
) -> (r: Vec<Wallet>)
    requires
        start_index + count <= usize::MAX,
        hrp_ok(prefix@),
    ensures
        wallets_match(
            r@,
            seed@,
            batch_ok_indices(seed@, start_index as nat, count as nat),
            *key_type,
            prefix@,
        ),
{
    let mut wallets: Vec<Wallet> = Vec::new();
    let mut i: usize = 0;
    while i < count
        invariant
            i <= count,
            start_index + count <= usize::MAX,
            hrp_ok(prefix@),
            wallets_match(
                wallets@,
                seed@,
                batch_ok_indices(seed@, start_index as nat, i as nat),
                *key_type,
                prefix@,
            ),
        decreases count - i,
    {
        let index = start_index + i;
        if let Some(w) = assemble_wallet(seed, index, prefix, key_type) {
            wallets.push(w);
        }
        if i % 1000 == 0 {
            progress.fetch_add(1000, Ordering::Relaxed);
        }
        i += 1;
    }
    progress.fetch_add(count % 1000, Ordering::Relaxed);
    wallets
}

/// The indices a batch keeps lie inside its range and are strictly
/// ascending: a batch's output is ordered by derivation index.
pub proof fn lemma_batch_indices_ordered(seed: Seq<u8>, start: nat, count: nat)
    ensures
        forall|j: int|
            0 <= j < batch_ok_indices(seed, start, count).len() ==> start <= #[trigger] batch_ok_indices(
                seed,
                start,
                count,
            )[j] < start + count,
        forall|j1: int, j2: int|
            0 <= j1 < j2 < batch_ok_indices(seed, start, count).len() ==> batch_ok_indices(
                seed,
                start,
                count,
            )[j1] < batch_ok_indices(seed, start, count)[j2],
    decreases count,
{
    if count > 0 {
        lemma_batch_indices_ordered(seed, start, (count - 1) as nat);
        let prev = batch_ok_indices(seed, start, (count - 1) as nat);
        let cur = batch_ok_indices(seed, start, count);
        if wallet_ok(seed, (start + count - 1) as nat) {
            assert(cur == prev.push((start + count - 1) as nat));
            assert(forall|j: int| 0 <= j < prev.len() ==> cur[j] == prev[j]);
            assert(cur[cur.len() - 1] == (start + count - 1) as nat);
        } else {
            assert(cur == prev);
        }
    }
}

/// A batch over a split range yields the two half-batches back to back.
pub proof fn lemma_batch_split(seed: Seq<u8>, start: nat, left: nat, right: nat)
    ensures
        batch_ok_indices(seed, start, left + right) == batch_ok_indices(seed, start, left)
            + batch_ok_indices(seed, start + left, right),
    decreases right,
{
    if right == 0 {
        assert(batch_ok_indices(seed, start + left, 0) == Seq::<nat>::empty());
        assert(batch_ok_indices(seed, start, left + 0) =~= batch_ok_indices(seed, start, left)
            + batch_ok_indices(seed, start + left, 0));
    } else {
        lemma_batch_split(seed, start, left, (right - 1) as nat);
        assert(batch_ok_indices(seed, start, left + right) =~= batch_ok_indices(seed, start, left)
            + batch_ok_indices(seed, start + left, right));
    }
}

} // verus!
