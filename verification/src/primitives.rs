//! The outside cryptography and utility calls that the library makes.
//!
//! Every item here is trusted: its contract is taken as given and its body is
//! not proved. Each body converts plain values (byte slices, strings) into the outside
//! crate's types (`from_bytes`, `from_slice`, building the cipher from its key),
//! makes the call, and converts the answer back. Results that take
//! pages to state (a block cipher, a lattice scheme, Unicode case tables, the URL
//! grammar) are given names below instead of definitions; the contracts tie
//! those names to the arguments and state only the short facts that the outside
//! source shows.
use aes_gcm::aead::{Aead, KeyInit};
use aes_gcm::{Aes256Gcm, Key, Nonce};
use pqcrypto_traits::kem::{
    Ciphertext as KemCiphertext, PublicKey as KemPublicKey, SecretKey as KemSecretKey,
    SharedSecret as KemSharedSecret,
};
use pqcrypto_traits::sign::{
    DetachedSignature as SignDetachedSignature, PublicKey as SignPublicKey,
    SecretKey as SignSecretKey,
};
use vstd::prelude::*;

verus! {

/// Length of an AES-256 key in bytes.
pub const AES256_KEY_BYTES: usize = 32;

/// Length of an AES-GCM nonce in bytes.
pub const AES_GCM_NONCE_BYTES: usize = 12;

/// Length of the AES-GCM authentication tag appended to every ciphertext.
pub const AES_GCM_TAG_BYTES: usize = 16;

/// Longest plaintext that `aes-gcm` agrees to encrypt (`aes_gcm::P_MAX`).
pub const AES_GCM_MAX_PLAINTEXT: u64 = 0x10_0000_0000;

/// Kyber768 public key length (`pqcrypto_kyber::kyber768::public_key_bytes()`).
pub const KYBER768_PUBLIC_KEY_BYTES: usize = 1184;

/// Length of the IND-CPA part at the front of a Kyber768 secret key; the
/// public key follows it.
pub const KYBER768_INDCPA_SECRET_KEY_BYTES: usize = 1152;

/// Kyber768 secret key length.
pub const KYBER768_SECRET_KEY_BYTES: usize = 2400;

/// Kyber768 ciphertext length.
pub const KYBER768_CIPHERTEXT_BYTES: usize = 1088;

/// Kyber768 shared secret length.
pub const KYBER768_SHARED_SECRET_BYTES: usize = 32;

/// Dilithium2 public key length (`pqcrypto_dilithium::dilithium2::public_key_bytes()`).
pub const DILITHIUM2_PUBLIC_KEY_BYTES: usize = 1312;

/// Dilithium2 secret key length.
pub const DILITHIUM2_SECRET_KEY_BYTES: usize = 2560;

/// Dilithium2 detached signature length.
pub const DILITHIUM2_SIGNATURE_BYTES: usize = 2420;

/// The opaque error of the `aead` traits (`aes_gcm::Error` is a re-export of it).
#[verifier::external_type_specification]
#[verifier::external_body]
pub struct ExAeadError(aes_gcm::Error);

/// The AES-256-GCM ciphertext (tag appended) of `plaintext` under `key` and
/// `nonce`, with empty associated data.
pub uninterp spec fn aes256gcm_seal(key: Seq<u8>, nonce: Seq<u8>, plaintext: Seq<u8>) -> Seq<u8>;

/// The AES-256-GCM decryption of `ciphertext` (tag appended) under `key` and
/// `nonce`, with empty associated data: `None` when the tag does not verify.
pub uninterp spec fn aes256gcm_open(key: Seq<u8>, nonce: Seq<u8>, ciphertext: Seq<u8>) -> Option<
    Seq<u8>,
>;

/// Whether the Dilithium2 verification of a detached signature succeeds.
pub uninterp spec fn dilithium2_verify(signature: Seq<u8>, message: Seq<u8>, public_key: Seq<u8>) -> bool;

/// The Dilithium2 detached signature of `message` under `secret_key`
/// (PQClean's signing is deterministic: its randomness input is fixed to zero).
pub uninterp spec fn dilithium2_sign(message: Seq<u8>, secret_key: Seq<u8>) -> Seq<u8>;

/// Whether `(public_key, secret_key)` is a Kyber768 key pair: the pair that
/// PQClean's `crypto_kem_keypair_derand` derives from some 64 bytes of coins.
pub uninterp spec fn kyber768_keypair_of_some_coins(public_key: Seq<u8>, secret_key: Seq<u8>) -> bool;

/// Whether `(shared_secret, ciphertext)` is a Kyber768 encapsulation to
/// `public_key`: the pair that PQClean's `crypto_kem_enc_derand` derives from
/// the key and some 32 bytes of coins.
pub uninterp spec fn kyber768_encapsulation_of_some_coins(
    public_key: Seq<u8>,
    shared_secret: Seq<u8>,
    ciphertext: Seq<u8>,
) -> bool;

/// The Kyber768 shared secret that decapsulating `ciphertext` with `secret_key` yields.
pub uninterp spec fn kyber768_decapsulation(ciphertext: Seq<u8>, secret_key: Seq<u8>) -> Seq<u8>;

/// Whether the WHATWG URL parser of the `url` crate accepts the text.
pub uninterp spec fn url_accepted(text: Seq<char>) -> bool;

/// The Unicode lower-case mapping of `str::to_lowercase`.
pub uninterp spec fn unicode_lowercase(text: Seq<char>) -> Seq<char>;

/// Calls `<Aes256Gcm as Aead>::encrypt` (via `KeyInit::new` on the key bytes)
/// with a bare plaintext payload. Claims: it fails exactly when the plaintext is
/// longer than `P_MAX`; otherwise the result is the named ciphertext, 16 bytes
/// longer than the plaintext, and decrypting it with the same key and nonce gives
/// the plaintext back.
#[verifier::external_body]
pub(crate) fn aes256gcm_encrypt(key: &[u8], nonce: &[u8], plaintext: &[u8]) -> (r: Result<
    Vec<u8>,
    aes_gcm::Error,
>)
    requires
        key@.len() == AES256_KEY_BYTES,
        nonce@.len() == AES_GCM_NONCE_BYTES,
    ensures
        r is Ok <==> plaintext@.len() <= AES_GCM_MAX_PLAINTEXT,
        r matches Ok(c) ==> c@ == aes256gcm_seal(key@, nonce@, plaintext@),
        r matches Ok(c) ==> c@.len() == plaintext@.len() + AES_GCM_TAG_BYTES,
        r matches Ok(c) ==> aes256gcm_open(key@, nonce@, c@) == Some(plaintext@),
{
    let cipher = Aes256Gcm::new(Key::<Aes256Gcm>::from_slice(key));
    cipher.encrypt(Nonce::from_slice(nonce), plaintext)
}

/// Calls `<Aes256Gcm as Aead>::decrypt` (via `KeyInit::new` on the key bytes)
/// with a bare ciphertext payload. Claims: the result is the named decryption;
/// an input shorter than the tag never decrypts, and a plaintext is 16 bytes
/// shorter than its ciphertext.
#[verifier::external_body]
pub(crate) fn aes256gcm_decrypt(key: &[u8], nonce: &[u8], ciphertext: &[u8]) -> (r: Result<
    Vec<u8>,
    aes_gcm::Error,
>)
    requires
        key@.len() == AES256_KEY_BYTES,
        nonce@.len() == AES_GCM_NONCE_BYTES,
    ensures
        r is Ok <==> aes256gcm_open(key@, nonce@, ciphertext@) is Some,
        r matches Ok(q) ==> aes256gcm_open(key@, nonce@, ciphertext@) == Some(q@),
        r is Ok ==> ciphertext@.len() >= AES_GCM_TAG_BYTES,
        r matches Ok(q) ==> q@.len() + AES_GCM_TAG_BYTES == ciphertext@.len(),
{
    let cipher = Aes256Gcm::new(Key::<Aes256Gcm>::from_slice(key));
    cipher.decrypt(Nonce::from_slice(nonce), ciphertext)
}

/// Calls `ToString::to_string` on `aes_gcm::Error`, whose `Display` writes the
/// fixed text `aead::Error`.
#[verifier::external_body]
pub(crate) fn aead_error_text(e: &aes_gcm::Error) -> (s: String)
    ensures
        s@ == "aead::Error"@,
{
    e.to_string()
}

/// Calls `pqcrypto_kyber::kyber768::keypair`, whose C code draws 64 random
/// bytes of coins and hands them to `crypto_kem_keypair_derand`. Claims: the
/// pair is what that function derives from some coins (the named predicate); the key lengths; and that the
/// secret key holds a copy of the public key at bytes 1152..2336.
#[verifier::external_body]
pub(crate) fn kyber768_keypair() -> (r: (Vec<u8>, Vec<u8>))
    ensures
        kyber768_keypair_of_some_coins(r.0@, r.1@),
        r.0@.len() == KYBER768_PUBLIC_KEY_BYTES,
        r.1@.len() == KYBER768_SECRET_KEY_BYTES,
        r.1@.subrange(KYBER768_INDCPA_SECRET_KEY_BYTES as int, KYBER768_INDCPA_SECRET_KEY_BYTES + KYBER768_PUBLIC_KEY_BYTES) == r.0@,
{
    let (pk, sk) = pqcrypto_kyber::kyber768::keypair();
    (pk.as_bytes().to_vec(), sk.as_bytes().to_vec())
}

/// Calls `pqcrypto_kyber::kyber768::encapsulate` on a public key given as bytes
/// (converted by `PublicKey::from_bytes`, which accepts exactly 1184 bytes).
/// Its C code draws 32 random bytes of coins and hands them to
/// `crypto_kem_enc_derand`. Claims: the answer, (shared secret, ciphertext) in
/// the crate's order, is what that function derives from the key and some
/// coins (the named predicate), with the listed lengths.
#[verifier::external_body]
pub(crate) fn kyber768_encapsulate(public_key: &[u8]) -> (r: (Vec<u8>, Vec<u8>))
    requires
        public_key@.len() == KYBER768_PUBLIC_KEY_BYTES,
    ensures
        kyber768_encapsulation_of_some_coins(public_key@, r.0@, r.1@),
        r.0@.len() == KYBER768_SHARED_SECRET_BYTES,
        r.1@.len() == KYBER768_CIPHERTEXT_BYTES,
{
    let pk = pqcrypto_kyber::kyber768::PublicKey::from_bytes(public_key).unwrap();
    let (ss, ct) = pqcrypto_kyber::kyber768::encapsulate(&pk);
    (ss.as_bytes().to_vec(), ct.as_bytes().to_vec())
}

/// Calls `pqcrypto_kyber::kyber768::decapsulate` on a ciphertext and a secret key
/// given as bytes (converted by `from_bytes`, which accepts exactly the listed
/// lengths). Claims: the result is the named shared secret, 32 bytes long.
#[verifier::external_body]
pub(crate) fn kyber768_decapsulate(ciphertext: &[u8], secret_key: &[u8]) -> (r: Vec<u8>)
    requires
        ciphertext@.len() == KYBER768_CIPHERTEXT_BYTES,
        secret_key@.len() == KYBER768_SECRET_KEY_BYTES,
    ensures
        r@ == kyber768_decapsulation(ciphertext@, secret_key@),
        r@.len() == KYBER768_SHARED_SECRET_BYTES,
{
    let ct = pqcrypto_kyber::kyber768::Ciphertext::from_bytes(ciphertext).unwrap();
    let sk = pqcrypto_kyber::kyber768::SecretKey::from_bytes(secret_key).unwrap();
    pqcrypto_kyber::kyber768::decapsulate(&ct, &sk).as_bytes().to_vec()
}

/// Calls `pqcrypto_dilithium::dilithium2::keypair`, which draws fresh randomness.
/// Claims the key lengths and the correctness of the scheme that the crate's
/// documentation and tests state: a detached signature made with the secret key
/// verifies under the public key, for every message.
#[verifier::external_body]
pub(crate) fn dilithium2_keypair() -> (r: (Vec<u8>, Vec<u8>))
    ensures
        r.0@.len() == DILITHIUM2_PUBLIC_KEY_BYTES,
        r.1@.len() == DILITHIUM2_SECRET_KEY_BYTES,
        forall|m: Seq<u8>| #[trigger] dilithium2_verify(dilithium2_sign(m, r.1@), m, r.0@),
{
    let (pk, sk) = pqcrypto_dilithium::dilithium2::keypair();
    (pk.as_bytes().to_vec(), sk.as_bytes().to_vec())
}

/// Calls `pqcrypto_dilithium::dilithium2::detached_sign` with a secret key given
/// as bytes (converted by `SecretKey::from_bytes`, which accepts exactly 2560
/// bytes). Claims: the result is the named signature; the C code always reports
/// a signature of 2420 bytes.
#[verifier::external_body]
pub(crate) fn dilithium2_detached_sign(message: &[u8], secret_key: &[u8]) -> (r: Vec<u8>)
    requires
        secret_key@.len() == DILITHIUM2_SECRET_KEY_BYTES,
    ensures
        r@ == dilithium2_sign(message@, secret_key@),
        r@.len() == DILITHIUM2_SIGNATURE_BYTES,
{
    let sk = pqcrypto_dilithium::dilithium2::SecretKey::from_bytes(secret_key).unwrap();
    pqcrypto_dilithium::dilithium2::detached_sign(message, &sk).as_bytes().to_vec()
}

/// Calls `pqcrypto_dilithium::dilithium2::verify_detached_signature` with the
/// signature and public key given as bytes (`DetachedSignature::from_bytes`
/// accepts up to 2420 bytes, `PublicKey::from_bytes` exactly 1312). Claims: the
/// answer is the named verification; the C verifier rejects every signature
/// whose length is not 2420.
#[verifier::external_body]
pub(crate) fn dilithium2_verify_detached(signature: &[u8], message: &[u8], public_key: &[u8]) -> (r:
    bool)
    requires
        signature@.len() <= DILITHIUM2_SIGNATURE_BYTES,
        public_key@.len() == DILITHIUM2_PUBLIC_KEY_BYTES,
    ensures
        r == dilithium2_verify(signature@, message@, public_key@),
        signature@.len() != DILITHIUM2_SIGNATURE_BYTES ==> !r,
{
    let sig = pqcrypto_dilithium::dilithium2::DetachedSignature::from_bytes(signature).unwrap();
    let pk = pqcrypto_dilithium::dilithium2::PublicKey::from_bytes(public_key).unwrap();
    pqcrypto_dilithium::dilithium2::verify_detached_signature(&sig, message, &pk).is_ok()
}

/// A lower-case hexadecimal digit.
pub open spec fn is_lower_hex_digit(c: char) -> bool {
    (48 <= c as u32 && c as u32 <= 57) || (97 <= c as u32 && c as u32 <= 102)
}

/// The hyphenated lower-case text of a version-4, RFC 4122 variant UUID:
/// 36 characters, hyphens at 8, 13, 18 and 23, lower-case hex digits elsewhere,
/// the version digit `4` at 14 and a variant digit `8`, `9`, `a` or `b` at 19.
pub open spec fn is_uuid_v4_text(s: Seq<char>) -> bool {
    &&& s.len() == 36
    &&& forall|i: int|
        0 <= i < 36 ==> if i == 8 || i == 13 || i == 18 || i == 23 {
            #[trigger] s[i] == '-'
        } else {
            is_lower_hex_digit(s[i])
        }
    &&& s[14] == '4'
    &&& (s[19] == '8' || s[19] == '9' || s[19] == 'a' || s[19] == 'b')
}

/// Calls `uuid::Uuid::new_v4`, which masks random bits so that the version is 4
/// and the variant RFC 4122, and formats it with `ToString`, which writes the
/// hyphenated lower-case form. The value is random: only that form is claimed.
#[verifier::external_body]
pub(crate) fn new_uuid_v4_text() -> (s: String)
    ensures
        is_uuid_v4_text(s@),
{
    uuid::Uuid::new_v4().to_string()
}

/// The longest `std::time::Duration`, `u64::MAX` seconds and 999 999 999
/// nanoseconds, in nanoseconds.
pub const MAX_DURATION_NANOS: u128 = 18_446_744_073_709_551_615_999_999_999;

/// Reads the system clock with `std::time::SystemTime::now` and measures it
/// against `UNIX_EPOCH` with `duration_since`: `(false, n)` for `n` nanoseconds
/// after the epoch, `(true, n)` for a clock `n` nanoseconds before it. The
/// reading depends on the time: only that a `Duration` bounds it is claimed.
#[verifier::external_body]
pub(crate) fn unix_clock_reading() -> (r: (bool, u128))
    ensures
        r.1 <= MAX_DURATION_NANOS,
{
    match std::time::SystemTime::now().duration_since(std::time::UNIX_EPOCH) {
        Ok(after) => (false, after.as_nanos()),
        Err(before) => (true, before.duration().as_nanos()),
    }
}

/// Calls `url::Url::parse` and reports whether it succeeded.
#[verifier::external_body]
pub(crate) fn url_parses(text: &str) -> (r: bool)
    ensures
        r == url_accepted(text@),
{
    url::Url::parse(text).is_ok()
}

/// A byte that `http`'s `HeaderValue::to_str` accepts: visible ASCII or a tab.
pub open spec fn is_header_text_byte(b: u8) -> bool {
    (32 <= b && b < 127) || b == 9
}

/// Bytes that `HeaderValue::to_str` accepts as text.
pub open spec fn is_header_text(bytes: Seq<u8>) -> bool {
    forall|i: int| 0 <= i < bytes.len() ==> is_header_text_byte(#[trigger] bytes[i])
}

/// ASCII bytes read as characters, one each.
pub open spec fn ascii_chars(bytes: Seq<u8>) -> Seq<char> {
    bytes.map_values(|b: u8| b as char)
}

/// Calls `std::str::from_utf8` on ASCII bytes and copies the text into a
/// `String`. Claims: UTF-8 reads each ASCII byte as the character of that code.
#[verifier::external_body]
pub(crate) fn ascii_text(bytes: &[u8]) -> (r: String)
    requires
        is_header_text(bytes@),
    ensures
        r@ == ascii_chars(bytes@),
{
    std::str::from_utf8(bytes).unwrap().to_owned()
}

/// Calls `str::to_lowercase`.
#[verifier::external_body]
pub(crate) fn to_lowercase(text: &str) -> (r: String)
    ensures
        r@ == unicode_lowercase(text@),
{
    text.to_lowercase()
}

} // verus!
