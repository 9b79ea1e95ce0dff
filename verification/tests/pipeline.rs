use base64::Engine;
use sha2::Digest;
use std::sync::atomic::{AtomicUsize, Ordering};
use std::sync::Arc;

use wallet_generator::cli::KeyType;
use wallet_generator::generator::{
    assemble_wallet, generate_addresses, generate_wallets_batch, AddressError,
};
use wallet_generator::crypto::valid_prefix;
use wallet_generator::partition::partition_range;
use wallet_generator::wallet::Wallet;

const ZERO_SEED: [u8; 64] = [0u8; 64];

fn batch(
    seed: &[u8],
    start: usize,
    count: usize,
    prefix: &str,
    key_type: &KeyType,
) -> Vec<Wallet> {
    let progress = Arc::new(AtomicUsize::new(0));
    generate_wallets_batch(seed, start, count, prefix, key_type, progress)
}

#[test]
fn determinism_repeated_assemble() {
    let w1 = assemble_wallet(&ZERO_SEED, 7, "cosmos", &KeyType::Secp256k1).unwrap();
    let w2 = assemble_wallet(&ZERO_SEED, 7, "cosmos", &KeyType::Secp256k1).unwrap();
    assert_eq!(w1.address, w2.address);
    assert_eq!(w1.pubkey, w2.pubkey);
    assert_eq!(w1.private_key, w2.private_key);
    assert_eq!(w1.derivation_path, w2.derivation_path);
    assert_eq!(w1.evm_address, w2.evm_address);
}

#[test]
fn determinism_across_partitionings() {
    let total: usize = 10;
    let whole = batch(&ZERO_SEED, 0, total, "cosmos", &KeyType::Secp256k1);
    assert_eq!(whole.len(), total);
    for workers in [1usize, 3, 4, 7, 16] {
        let mut combined: Vec<Wallet> = Vec::new();
        for id in 0..workers {
            let (start, len) = partition_range(total, workers, id);
            combined.extend(batch(&ZERO_SEED, start, len, "cosmos", &KeyType::Secp256k1));
        }
        assert_eq!(combined.len(), whole.len());
        for (a, b) in combined.iter().zip(whole.iter()) {
            assert_eq!(a.address, b.address);
            assert_eq!(a.private_key, b.private_key);
            assert_eq!(a.derivation_path, b.derivation_path);
        }
    }
}

#[test]
fn partition_ranges_cover_total_exactly() {
    let cases = [(10usize, 3usize), (5, 8), (0, 4), (1, 1), (1000, 7), (12, 12)];
    for (total, workers) in cases {
        let mut next_expected: usize = 0;
        let mut sum: usize = 0;
        for id in 0..workers {
            let (start, len) = partition_range(total, workers, id);
            if len > 0 {
                assert_eq!(start, next_expected);
                next_expected = start + len;
            }
            sum += len;
        }
        assert_eq!(sum, total);
        assert_eq!(next_expected, total);
    }
}

#[test]
fn partition_more_workers_than_total() {
    let total: usize = 5;
    let workers: usize = 8;
    let mut zero_ranges = 0;
    let mut sum = 0;
    for id in 0..workers {
        let (_, len) = partition_range(total, workers, id);
        if len == 0 {
            zero_ranges += 1;
        }
        sum += len;
    }
    assert!(zero_ranges > 0);
    assert_eq!(sum, total);
}

#[test]
fn zero_total_yields_empty_set() {
    let wallets = batch(&ZERO_SEED, 0, 0, "cosmos", &KeyType::Secp256k1);
    assert!(wallets.is_empty());
}

#[test]
fn batch_output_is_index_ascending() {
    let wallets = batch(&ZERO_SEED, 3, 6, "cosmos", &KeyType::Ethsecp256k1);
    assert_eq!(wallets.len(), 6);
    for (offset, w) in wallets.iter().enumerate() {
        assert_eq!(
            w.derivation_path,
            format!("m/44'/118'/0'/0/{}", 3 + offset)
        );
    }
}

#[test]
fn progress_counter_granularity() {
    let progress = Arc::new(AtomicUsize::new(0));
    let count = 2005;
    let wallets = generate_wallets_batch(
        &ZERO_SEED,
        0,
        count,
        "cosmos",
        &KeyType::Secp256k1,
        progress.clone(),
    );
    assert_eq!(wallets.len(), count);
    // 1000 at i = 0, 1000 and 2000, then the remainder 2005 % 1000 once.
    assert_eq!(progress.load(Ordering::Relaxed), 3005);
}

#[test]
fn standard_variant_address_bytes() {
    let w = assemble_wallet(&ZERO_SEED, 0, "cosmos", &KeyType::Secp256k1).unwrap();
    assert!(w.evm_address.is_none());
    let (hrp, data) = bech32::decode(&w.address).unwrap();
    assert_eq!(hrp.as_str(), "cosmos");
    assert_eq!(data.len(), 20);
}

#[test]
fn eth_variant_evm_address_matches_bech32_payload() {
    let w = assemble_wallet(&ZERO_SEED, 0, "cosmos", &KeyType::Ethsecp256k1).unwrap();
    let evm = w.evm_address.clone().unwrap();
    assert_eq!(evm.len(), 42);
    assert!(evm.starts_with("0x"));
    let (_, data) = bech32::decode(&w.address).unwrap();
    assert_eq!(data.len(), 20);
    assert_eq!(evm[2..], hex::encode(&data));
}

#[test]
fn eth_variant_evm_address_matches_keccak() {
    let w = assemble_wallet(&ZERO_SEED, 0, "cosmos", &KeyType::Ethsecp256k1).unwrap();
    let scalar: [u8; 32] = hex::decode(&w.private_key).unwrap().try_into().unwrap();
    let sk = secp256k1::SecretKey::from_secret_bytes(scalar).unwrap();
    let pk = secp256k1::PublicKey::from_secret_key(&sk);
    let uncompressed = pk.serialize_uncompressed();
    let keccak = sha3::Keccak256::digest(&uncompressed[1..]);
    let expected = format!("0x{}", hex::encode(&keccak[12..]));
    assert_eq!(w.evm_address.unwrap(), expected);
}

#[test]
fn private_key_round_trip_reproduces_pubkey() {
    let w = assemble_wallet(&ZERO_SEED, 5, "cosmos", &KeyType::Secp256k1).unwrap();
    let bytes = hex::decode(&w.private_key).unwrap();
    let scalar: [u8; 32] = bytes.try_into().unwrap();
    let (addr, evm, pubkey, private_key) =
        generate_addresses(&scalar, "cosmos", &KeyType::Secp256k1).unwrap();
    assert_eq!(addr, w.address);
    assert!(evm.is_none());
    assert_eq!(pubkey, w.pubkey);
    assert_eq!(private_key, w.private_key);
}

#[test]
fn generate_addresses_rejects_invalid_scalar() {
    let zero = [0u8; 32];
    let r = generate_addresses(&zero, "cosmos", &KeyType::Secp256k1);
    assert_eq!(r.unwrap_err(), AddressError::InvalidSecretKey);
    let max = [0xffu8; 32];
    let r = generate_addresses(&max, "cosmos", &KeyType::Secp256k1);
    assert_eq!(r.unwrap_err(), AddressError::InvalidSecretKey);
}

#[test]
fn generate_addresses_rejects_invalid_prefix() {
    let mut scalar = [0u8; 32];
    scalar[31] = 1;
    let r = generate_addresses(&scalar, "", &KeyType::Secp256k1);
    assert_eq!(r.unwrap_err(), AddressError::InvalidPrefix);
    let r = generate_addresses(&scalar, "aBc", &KeyType::Secp256k1);
    assert_eq!(r.unwrap_err(), AddressError::InvalidPrefix);
    let r = generate_addresses(&scalar, "cos mos", &KeyType::Secp256k1);
    assert_eq!(r.unwrap_err(), AddressError::InvalidPrefix);
}

#[test]
fn assemble_none_on_invalid_prefix() {
    assert!(assemble_wallet(&ZERO_SEED, 0, "aBc", &KeyType::Secp256k1).is_none());
}

#[test]
fn hex_encoding_matches_reference() {
    let data = [0u8, 1, 15, 16, 127, 128, 255];
    assert_eq!(
        wallet_generator::encoding::hex_encode(&data),
        hex::encode(data)
    );
}

#[test]
fn derivation_path_rendering() {
    assert_eq!(
        wallet_generator::encoding::derivation_path_string(0),
        "m/44'/118'/0'/0/0"
    );
    assert_eq!(
        wallet_generator::encoding::derivation_path_string(1234567890),
        "m/44'/118'/0'/0/1234567890"
    );
}

#[test]
fn pubkey_is_base64_of_compressed_key() {
    let w = assemble_wallet(&ZERO_SEED, 2, "cosmos", &KeyType::Secp256k1).unwrap();
    assert_eq!(w.pubkey.len(), 44);
    let raw = base64::engine::general_purpose::STANDARD
        .decode(&w.pubkey)
        .unwrap();
    assert_eq!(raw.len(), 33);
    let scalar: [u8; 32] = hex::decode(&w.private_key).unwrap().try_into().unwrap();
    let sk = secp256k1::SecretKey::from_secret_bytes(scalar).unwrap();
    let pk = secp256k1::PublicKey::from_secret_key(&sk);
    assert_eq!(raw, pk.serialize().to_vec());
}

#[test]
fn scenario_standard_zero_seed() {
    let w = assemble_wallet(&ZERO_SEED, 0, "cosmos", &KeyType::Secp256k1).unwrap();
    assert_eq!(w.derivation_path, "m/44'/118'/0'/0/0");
    assert_eq!(w.address, "cosmos1eahm5agxn6qm5ea829dc6qza202lxhayqlp8s8");
    assert_eq!(
        w.private_key,
        "56eac3099240999765beb5e6888cb831631bcb46f4930869faf6f29d4c31437f"
    );
    assert_eq!(w.pubkey, "AyrarZ7n3JbqtOWth5DKXBE5JdubCui03mQqchlTINpU");
}

#[test]
fn scenario_eth_zero_seed() {
    let w = assemble_wallet(&ZERO_SEED, 0, "cosmos", &KeyType::Ethsecp256k1).unwrap();
    assert_eq!(w.address, "cosmos1jlxq65efp30q22mguuf64nkxz6rpm4py2l7l4u");
    assert_eq!(
        w.evm_address.as_deref().unwrap(),
        "0x97cc0d53290c5e052b68e713aacec616861dd424"
    );
}

#[test]
fn valid_prefix_decides_hrp_validity() {
    assert!(valid_prefix("cosmos"));
    assert!(valid_prefix("ABC"));
    assert!(valid_prefix("osmo1"));
    assert!(!valid_prefix(""));
    assert!(!valid_prefix("aBc"));
    assert!(!valid_prefix("cos mos"));
    assert!(!valid_prefix("caf\u{e9}"));
    assert!(valid_prefix(&"x".repeat(83)));
    assert!(!valid_prefix(&"x".repeat(84)));
}

#[test]
fn valid_prefix_agrees_with_bech32_parser() {
    let samples = [
        "cosmos", "osmo", "juno", "A", "Zz", "a-b_c", "!ok!", "with~tilde", "",
        " ", "aB", "BBa", "\u{7f}str", "ümlaut", "0123456789",
    ];
    for s in samples {
        assert_eq!(
            valid_prefix(s),
            bech32::Hrp::parse(s).is_ok(),
            "disagreement on {:?}",
            s
        );
    }
}
