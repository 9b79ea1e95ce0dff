//! The cryptographic boundary of the library: hierarchical-deterministic key
//! derivation, secp256k1 public keys, the three address hash functions,
//! base64, and bech32. Each outside call sits behind one trusted wrapper
//! whose contract states what the called crate's source shows; results that
//! are functions of the arguments alone but too long to state are named by
//! uninterpreted spec functions.
use vstd::prelude::*;

use base64::Engine;
use sha2::Digest;

verus! {

/// The 32-byte child secret that BIP-32 derivation yields for a seed and a
/// path string, or nothing when the path does not parse or an intermediate
/// scalar falls outside the curve order.
pub uninterp spec fn hd_child_secret(seed: Seq<u8>, path: Seq<char>) -> Option<Seq<u8>>;

/// The 33-byte compressed SEC1 serialization of the secp256k1 public key of
/// a 32-byte secret scalar.
pub uninterp spec fn pubkey_compressed(scalar: Seq<u8>) -> Seq<u8>;

/// The 65-byte uncompressed SEC1 serialization (leading tag byte included)
/// of the secp256k1 public key of a 32-byte secret scalar.
pub uninterp spec fn pubkey_uncompressed(scalar: Seq<u8>) -> Seq<u8>;

/// The SHA-256 digest of a byte sequence.
pub uninterp spec fn sha256_of(data: Seq<u8>) -> Seq<u8>;

/// The RIPEMD-160 digest of a byte sequence.
pub uninterp spec fn ripemd160_of(data: Seq<u8>) -> Seq<u8>;

/// The Keccak-256 digest of a byte sequence.
pub uninterp spec fn keccak256_of(data: Seq<u8>) -> Seq<u8>;

/// The padded standard-alphabet base64 rendering of a byte sequence.
pub uninterp spec fn base64_of(data: Seq<u8>) -> Seq<char>;

/// The bech32 string (standard checksum, lowercase data part) that encodes
/// `data` under the human-readable part `hrp`.
pub uninterp spec fn bech32_of(hrp: Seq<char>, data: Seq<u8>) -> Seq<char>;

/// The value of a byte sequence read as a big-endian unsigned integer.
pub open spec fn be_val(b: Seq<u8>) -> nat
    decreases b.len(),
{
    if b.len() == 0 {
        0
    } else {
        (be_val(b.drop_last()) * 256 + b.last()) as nat
    }
}

/// The order of the secp256k1 group.
pub open spec fn curve_order() -> nat {
    0xFFFFFFFFFFFFFFFFFFFFFFFFFFFFFFFEBAAEDCE6AF48A03BBFD25E8CD0364141nat
}

/// A 32-byte sequence is a valid secp256k1 secret scalar: nonzero and below
/// the curve order when read big-endian.
pub open spec fn scalar_ok(b: Seq<u8>) -> bool {
    b.len() == 32 && 0 < be_val(b) && be_val(b) < curve_order()
}

/// A character admissible in a bech32 human-readable part: printable ASCII.
pub open spec fn hrp_char_ok(c: char) -> bool {
    33 <= c as int && c as int <= 126
}

/// The sequence holds a lowercase ASCII letter.
pub open spec fn has_lowercase(s: Seq<char>) -> bool {
    exists|i: int| 0 <= i < s.len() && 97 <= #[trigger] s[i] as int && s[i] as int <= 122
}

/// The sequence holds an uppercase ASCII letter.
pub open spec fn has_uppercase(s: Seq<char>) -> bool {
    exists|i: int| 0 <= i < s.len() && 65 <= #[trigger] s[i] as int && s[i] as int <= 90
}

/// A valid bech32 human-readable part: one to 83 printable ASCII characters,
/// not mixing lowercase and uppercase letters.
pub open spec fn hrp_ok(s: Seq<char>) -> bool {
    &&& 1 <= s.len() <= 83
    &&& forall|i: int| 0 <= i < s.len() ==> hrp_char_ok(#[trigger] s[i])
    &&& !(has_lowercase(s) && has_uppercase(s))
}

/// Decides `hrp_ok` for a runtime string: whether it can serve as a bech32
/// human-readable part. Lets a caller establish the prefix obligation of
/// the batch functions without relying on the bech32 crate.
pub fn valid_prefix(prefix: &str) -> (b: bool)
    ensures
        b == hrp_ok(prefix@),
{
    if !prefix.is_ascii() {
        proof {
            assert(!vstd::utf8::is_ascii_chars(prefix@));
            assert(exists|k: int|
                0 <= k < prefix@.len() && !('\0' <= #[trigger] prefix@[k] <= '\u{7f}'));
            let w = choose|k: int|
                0 <= k < prefix@.len() && !('\0' <= #[trigger] prefix@[k] <= '\u{7f}');
            assert(0 <= w < prefix@.len());
            assert(!('\0' <= prefix@[w] <= '\u{7f}'));
            assert(!hrp_char_ok(prefix@[w]));
        }
        return false;
    }
    proof {
        vstd::string::is_ascii_spec_bytes(prefix);
    }
    let bytes = prefix.as_bytes();
    let n = bytes.len();
    proof {
        assert(bytes@ =~= Seq::new(prefix@.len(), |k: int| prefix@[k] as u8));
    }
    if n < 1 || n > 83 {
        return false;
    }
    let mut has_lower = false;
    let mut has_upper = false;
    let mut i: usize = 0;
    while i < n
        invariant
            n == prefix@.len(),
            bytes@ == Seq::new(prefix@.len(), |k: int| prefix@[k] as u8),
            vstd::utf8::is_ascii_chars(prefix@),
            0 <= i <= n,
            forall|k: int| 0 <= k < i ==> hrp_char_ok(#[trigger] prefix@[k]),
            has_lower == exists|k: int|
                0 <= k < i && 97 <= #[trigger] prefix@[k] as int <= 122,
            has_upper == exists|k: int|
                0 <= k < i && 65 <= #[trigger] prefix@[k] as int <= 90,
        decreases n - i,
    {
        let b = bytes[i];
        proof {
            assert(prefix@[i as int] <= '\u{7f}');
            assert(prefix@[i as int] as int <= 127);
            assert(b == prefix@[i as int] as u8);
            assert(b as int == prefix@[i as int] as int);
        }
        if b < 33 || b > 126 {
            proof {
                assert(!hrp_char_ok(prefix@[i as int]));
            }
            return false;
        }
        if 97 <= b && b <= 122 {
            has_lower = true;
            proof {
                assert(97 <= prefix@[i as int] as int <= 122);
            }
        }
        if 65 <= b && b <= 90 {
            has_upper = true;
            proof {
                assert(65 <= prefix@[i as int] as int <= 90);
            }
        }
        i += 1;
    }
    proof {
        assert(has_lower == has_lowercase(prefix@));
        assert(has_upper == has_uppercase(prefix@));
    }
    !(has_lower && has_upper)
}

/// Relies on tiny_hderive's `ExtendedPrivKey::derive` and `secret`: the
/// derived child key is a function of the seed and the path string alone,
/// and derivation fails exactly when the path does not parse or a derived
/// scalar is rejected by the curve library.
#[verifier::external_body]
pub(crate) fn hd_derive_secret(seed: &[u8], path: &str) -> (r: Option<[u8; 32]>)
    ensures
        r is Some <==> hd_child_secret(seed@, path@) is Some,
        r matches Some(b) ==> hd_child_secret(seed@, path@) == Some(b@),
{
    match tiny_hderive::bip32::ExtendedPrivKey::derive(seed, path) {
        Ok(key) => Some(key.secret()),
        Err(_) => None,
    }
}

/// Relies on secp256k1's `SecretKey::from_secret_bytes`, which accepts exactly
/// the nonzero scalars below the curve order, and on
/// `PublicKey::from_secret_key`, `serialize` and `serialize_uncompressed`,
/// whose results are functions of the scalar alone: 33-byte compressed and
/// 65-byte uncompressed SEC1 encodings of the same point.
#[verifier::external_body]
pub(crate) fn pubkey_serializations(scalar: &[u8; 32]) -> (r: Option<(Vec<u8>, Vec<u8>)>)
    ensures
        r is Some <==> scalar_ok(scalar@),
        r matches Some(p) ==> {
            &&& p.0@ == pubkey_compressed(scalar@)
            &&& p.0@.len() == 33
            &&& p.1@ == pubkey_uncompressed(scalar@)
            &&& p.1@.len() == 65
        },
{
    match secp256k1::SecretKey::from_secret_bytes(*scalar) {
        Ok(sk) => {
            let pk = secp256k1::PublicKey::from_secret_key(&sk);
            Some((pk.serialize().to_vec(), pk.serialize_uncompressed().to_vec()))
        },
        Err(_) => None,
    }
}

/// Relies on sha2's `Sha256::digest`: a 32-byte digest that is a function of
/// the input bytes alone.
#[verifier::external_body]
pub(crate) fn sha256(data: &[u8]) -> (r: Vec<u8>)
    ensures
        r@ == sha256_of(data@),
        r@.len() == 32,
{
    sha2::Sha256::digest(data).to_vec()
}

/// Relies on ripemd's `Ripemd160::digest`: a 20-byte digest that is a
/// function of the input bytes alone.
#[verifier::external_body]
pub(crate) fn ripemd160(data: &[u8]) -> (r: Vec<u8>)
    ensures
        r@ == ripemd160_of(data@),
        r@.len() == 20,
{
    ripemd::Ripemd160::digest(data).to_vec()
}

/// Relies on sha3's `Keccak256::digest`: a 32-byte digest that is a function
/// of the input bytes alone.
#[verifier::external_body]
pub(crate) fn keccak256(data: &[u8]) -> (r: Vec<u8>)
    ensures
        r@ == keccak256_of(data@),
        r@.len() == 32,
{
    sha3::Keccak256::digest(data).to_vec()
}

/// Relies on base64's `Engine::encode` with the padded standard alphabet:
/// the rendering is a function of the input bytes alone, four characters for
/// every started group of three bytes.
#[verifier::external_body]
pub(crate) fn base64_encode(data: &[u8]) -> (r: String)
    ensures
        r@ == base64_of(data@),
        r@.len() == 4 * ((data@.len() + 2) / 3),
{
    base64::engine::general_purpose::STANDARD.encode(data)
}

/// Relies on bech32's `Hrp::parse`, which accepts exactly the prefixes that
/// `hrp_ok` admits, and on `encode` with the standard `Bech32` checksum,
/// which for a valid prefix and a 20-byte payload always succeeds and
/// returns the prefix, a separator, 32 data characters and 6 checksum
/// characters, a function of prefix and payload alone.
#[verifier::external_body]
pub(crate) fn bech32_encode(prefix: &str, data: &[u8]) -> (r: Option<String>)
    requires
        data@.len() == 20,
    ensures
        r is Some <==> hrp_ok(prefix@),
        r matches Some(s) ==> s@ == bech32_of(prefix@, data@) && s@.len() == prefix@.len() + 39,
{
    match bech32::Hrp::parse(prefix) {
        Ok(hrp) => bech32::encode::<bech32::Bech32>(hrp, data).ok(),
        Err(_) => None,
    }
}

} // verus!
