//! Session encryption (AES-256-GCM with a counter nonce) and the server's
//! post-quantum key material (Kyber768 for key encapsulation, Dilithium2 for
//! signatures).
use crate::primitives::{
    aead_error_text, aes256gcm_decrypt, aes256gcm_encrypt, aes256gcm_open, aes256gcm_seal,
    dilithium2_detached_sign, dilithium2_keypair, dilithium2_sign, dilithium2_verify,
    dilithium2_verify_detached, kyber768_decapsulate, kyber768_decapsulation,
    kyber768_encapsulate, kyber768_encapsulation_of_some_coins, kyber768_keypair,
    kyber768_keypair_of_some_coins, KYBER768_INDCPA_SECRET_KEY_BYTES, AES256_KEY_BYTES, AES_GCM_MAX_PLAINTEXT,
    AES_GCM_NONCE_BYTES, AES_GCM_TAG_BYTES, DILITHIUM2_PUBLIC_KEY_BYTES,
    DILITHIUM2_SECRET_KEY_BYTES, DILITHIUM2_SIGNATURE_BYTES, KYBER768_CIPHERTEXT_BYTES,
    KYBER768_PUBLIC_KEY_BYTES, KYBER768_SECRET_KEY_BYTES, KYBER768_SHARED_SECRET_BYTES,
};
use vstd::prelude::*;
use vstd::slice::slice_to_vec;

verus! {

/// What can go wrong in the key exchange or in a session's encryption.
#[derive(Debug, PartialEq, Eq)]
pub enum CryptoError {
    KeyExchangeError,
    SignatureError,
    EncryptionError(String),
    DecryptionError(String),
}

/// The eight bytes of `n`, most significant first.
pub open spec fn u64_be_bytes(n: u64) -> Seq<u8> {
    seq![
        (n >> 56u64) as u8,
        (n >> 48u64) as u8,
        (n >> 40u64) as u8,
        (n >> 32u64) as u8,
        (n >> 24u64) as u8,
        (n >> 16u64) as u8,
        (n >> 8u64) as u8,
        n as u8,
    ]
}

/// The 12-byte AES-GCM nonce used for message number `counter`: four zero
/// bytes, then the counter in big-endian order.
pub open spec fn nonce_for(counter: u64) -> Seq<u8> {
    seq![0u8, 0u8, 0u8, 0u8] + u64_be_bytes(counter)
}

/// The message counter after one more message; it wraps around at `u64::MAX`.
pub open spec fn next_counter(counter: u64) -> u64 {
    if counter == u64::MAX {
        0
    } else {
        (counter + 1) as u64
    }
}

/// Builds the nonce for message number `counter`.
pub fn nonce_bytes(counter: u64) -> (nonce: Vec<u8>)
    ensures
        nonce@ == nonce_for(counter),
        nonce@.len() == AES_GCM_NONCE_BYTES,
{
    let mut nonce: Vec<u8> = Vec::new();
    nonce.push(0u8);
    nonce.push(0u8);
    nonce.push(0u8);
    nonce.push(0u8);
    nonce.push((counter >> 56u64) as u8);
    nonce.push((counter >> 48u64) as u8);
    nonce.push((counter >> 40u64) as u8);
    nonce.push((counter >> 32u64) as u8);
    nonce.push((counter >> 24u64) as u8);
    nonce.push((counter >> 16u64) as u8);
    nonce.push((counter >> 8u64) as u8);
    nonce.push(counter as u8);
    assert(nonce@ =~= nonce_for(counter));
    nonce
}

/// Distinct message numbers get distinct nonces, so a session never reuses a
/// nonce within 2^64 messages.
pub proof fn lemma_nonce_unique(a: u64, b: u64)
    requires
        a != b,
    ensures
        nonce_for(a) != nonce_for(b),
{
    if nonce_for(a) == nonce_for(b) {
        assert(nonce_for(a)[4] == nonce_for(b)[4]);
        assert(nonce_for(a)[5] == nonce_for(b)[5]);
        assert(nonce_for(a)[6] == nonce_for(b)[6]);
        assert(nonce_for(a)[7] == nonce_for(b)[7]);
        assert(nonce_for(a)[8] == nonce_for(b)[8]);
        assert(nonce_for(a)[9] == nonce_for(b)[9]);
        assert(nonce_for(a)[10] == nonce_for(b)[10]);
        assert(nonce_for(a)[11] == nonce_for(b)[11]);
        assert(((a >> 56u64) as u8 == (b >> 56u64) as u8 && (a >> 48u64) as u8 == (b
            >> 48u64) as u8 && (a >> 40u64) as u8 == (b >> 40u64) as u8 && (a >> 32u64) as u8 == (b
            >> 32u64) as u8 && (a >> 24u64) as u8 == (b >> 24u64) as u8 && (a >> 16u64) as u8 == (b
            >> 16u64) as u8 && (a >> 8u64) as u8 == (b >> 8u64) as u8 && a as u8 == b as u8) ==> a
            == b) by (bit_vector);
    }
}

/// The message counter steps by exactly one, modulo 2^64.
pub proof fn lemma_next_counter_is_successor(counter: u64)
    ensures
        next_counter(counter) == (counter + 1) % 0x1_0000_0000_0000_0000,
{
}

/// The nonce for message `counter` is 12 bytes: four zero bytes, then eight
/// bytes that read, most significant first, as `counter`.
pub proof fn lemma_nonce_encodes_counter(counter: u64)
    ensures
        nonce_for(counter).len() == 12,
        nonce_for(counter)[0] == 0 && nonce_for(counter)[1] == 0 && nonce_for(counter)[2] == 0
            && nonce_for(counter)[3] == 0,
        nonce_for(counter)[4] * 0x100_0000_0000_0000 + nonce_for(counter)[5] * 0x1_0000_0000_0000
            + nonce_for(counter)[6] * 0x100_0000_0000 + nonce_for(counter)[7] * 0x1_0000_0000
            + nonce_for(counter)[8] * 0x100_0000 + nonce_for(counter)[9] * 0x1_0000
            + nonce_for(counter)[10] * 0x100 + nonce_for(counter)[11] == counter,
{
    let b = nonce_for(counter);
    let b4 = (counter >> 56u64) as u8;
    let b5 = (counter >> 48u64) as u8;
    let b6 = (counter >> 40u64) as u8;
    let b7 = (counter >> 32u64) as u8;
    let b8 = (counter >> 24u64) as u8;
    let b9 = (counter >> 16u64) as u8;
    let b10 = (counter >> 8u64) as u8;
    let b11 = counter as u8;
    assert(b[4] == b4 && b[5] == b5 && b[6] == b6 && b[7] == b7 && b[8] == b8 && b[9] == b9
        && b[10] == b10 && b[11] == b11);
    assert(b4 * 0x100_0000_0000_0000 + b5 * 0x1_0000_0000_0000 + b6 * 0x100_0000_0000 + b7
        * 0x1_0000_0000 + b8 * 0x100_0000 + b9 * 0x1_0000 + b10 * 0x100 + b11 == counter) by (bit_vector)
        requires
            b4 == (counter >> 56u64) as u8,
            b5 == (counter >> 48u64) as u8,
            b6 == (counter >> 40u64) as u8,
            b7 == (counter >> 32u64) as u8,
            b8 == (counter >> 24u64) as u8,
            b9 == (counter >> 16u64) as u8,
            b10 == (counter >> 8u64) as u8,
            b11 == counter as u8,
    ;
}

/// An AES-256-GCM session keyed by a shared secret. Message `n` (counting from
/// zero, both directions together) uses the nonce `nonce_for(n)`.
pub struct CryptoSession {
    shared_key: Vec<u8>,
    nonce_counter: u64,
}

impl CryptoSession {
    #[verifier::type_invariant]
    spec fn key_is_aes256(self) -> bool {
        self.shared_key@.len() == AES256_KEY_BYTES
    }

    /// The session key.
    pub closed spec fn key(self) -> Seq<u8> {
        self.shared_key@
    }

    /// The number of the next message.
    pub closed spec fn counter(self) -> u64 {
        self.nonce_counter
    }

    /// Starts a session on `shared_key` with message counter zero. The key must
    /// be 32 bytes long: `aes-gcm` panics on any other length.
    pub fn new(shared_key: Vec<u8>) -> (r: Result<Self, CryptoError>)
        requires
            shared_key@.len() == AES256_KEY_BYTES,
        ensures
            r matches Ok(s) && s.key() == shared_key@ && s.counter() == 0,
    {
        Ok(CryptoSession { shared_key, nonce_counter: 0 })
    }

    /// Encrypts `data` as the next message. The counter advances whether or
    /// not encryption succeeds; the ciphertext decrypts, under the same key and
    /// message number, to `data`.
    pub fn encrypt(&mut self, data: &[u8]) -> (r: Result<Vec<u8>, CryptoError>)
        ensures
            final(self).key() == old(self).key(),
            final(self).counter() == next_counter(old(self).counter()),
            final(self).counter() == (old(self).counter() + 1) % 0x1_0000_0000_0000_0000,
            r is Ok <==> data@.len() <= AES_GCM_MAX_PLAINTEXT,
            r matches Ok(c) ==> c@ == aes256gcm_seal(
                old(self).key(),
                nonce_for(old(self).counter()),
                data@,
            ),
            r matches Ok(c) ==> c@.len() == data@.len() + AES_GCM_TAG_BYTES,
            r matches Ok(c) ==> aes256gcm_open(old(self).key(), nonce_for(old(self).counter()), c@)
                == Some(data@),
            r matches Err(e) ==> (e matches CryptoError::EncryptionError(m) && m@
                == "aead::Error"@),
    {
        proof {
            use_type_invariant(&*self);
        }
        let nonce = nonce_bytes(self.nonce_counter);
        self.nonce_counter = self.nonce_counter.wrapping_add(1);
        match aes256gcm_encrypt(self.shared_key.as_slice(), nonce.as_slice(), data) {
            Ok(ciphertext) => Ok(ciphertext),
            Err(e) => Err(CryptoError::EncryptionError(aead_error_text(&e))),
        }
    }

    /// Decrypts `data` as the next message. The counter advances whether or
    /// not decryption succeeds.
    pub fn decrypt(&mut self, data: &[u8]) -> (r: Result<Vec<u8>, CryptoError>)
        ensures
            final(self).key() == old(self).key(),
            final(self).counter() == next_counter(old(self).counter()),
            final(self).counter() == (old(self).counter() + 1) % 0x1_0000_0000_0000_0000,
            aes256gcm_open(old(self).key(), nonce_for(old(self).counter()), data@) matches Some(p)
                ==> (r matches Ok(q) && q@ == p),
            aes256gcm_open(old(self).key(), nonce_for(old(self).counter()), data@) is None ==> (r matches Err(e)
                && e matches CryptoError::DecryptionError(m) && m@ == "aead::Error"@),
            data@.len() < AES_GCM_TAG_BYTES ==> r is Err,
            r matches Ok(q) ==> q@.len() + AES_GCM_TAG_BYTES == data@.len(),
    {
        proof {
            use_type_invariant(&*self);
        }
        let nonce = nonce_bytes(self.nonce_counter);
        self.nonce_counter = self.nonce_counter.wrapping_add(1);
        match aes256gcm_decrypt(self.shared_key.as_slice(), nonce.as_slice(), data) {
            Ok(plaintext) => Ok(plaintext),
            Err(e) => Err(CryptoError::DecryptionError(aead_error_text(&e))),
        }
    }
}

/// The answer of `verify_client_signature` once the Dilithium2 verifier has
/// spoken on well-sized inputs.
pub fn signature_verdict(accepted: bool) -> (r: Result<(), CryptoError>)
    ensures
        accepted ==> r is Ok,
        !accepted ==> r == Err::<(), CryptoError>(CryptoError::SignatureError),
{
    if accepted {
        Ok(())
    } else {
        Err(CryptoError::SignatureError)
    }
}

/// The server's long-term key material: a Kyber768 key pair and a Dilithium2
/// key pair, held as bytes.
pub struct KeyExchange {
    kyber_secret_key: Vec<u8>,
    kyber_public_key: Vec<u8>,
    dilithium_secret_key: Vec<u8>,
    dilithium_public_key: Vec<u8>,
}

impl KeyExchange {
    #[verifier::type_invariant]
    spec fn well_formed(self) -> bool {
        &&& self.kyber_secret_key@.len() == KYBER768_SECRET_KEY_BYTES
        &&& self.kyber_public_key@.len() == KYBER768_PUBLIC_KEY_BYTES
        &&& self.dilithium_secret_key@.len() == DILITHIUM2_SECRET_KEY_BYTES
        &&& self.dilithium_public_key@.len() == DILITHIUM2_PUBLIC_KEY_BYTES
        &&& kyber768_keypair_of_some_coins(self.kyber_public_key@, self.kyber_secret_key@)
        &&& forall|m: Seq<u8>|
            #[trigger] dilithium2_verify(
                dilithium2_sign(m, self.dilithium_secret_key@),
                m,
                self.dilithium_public_key@,
            )
    }

    pub closed spec fn kyber_secret_key(self) -> Seq<u8> {
        self.kyber_secret_key@
    }

    pub closed spec fn kyber_public_key(self) -> Seq<u8> {
        self.kyber_public_key@
    }

    pub closed spec fn dilithium_secret_key(self) -> Seq<u8> {
        self.dilithium_secret_key@
    }

    pub closed spec fn dilithium_public_key(self) -> Seq<u8> {
        self.dilithium_public_key@
    }

    /// Generates fresh Kyber768 and Dilithium2 key pairs.
    pub fn new() -> (r: Self)
        ensures
            r.kyber_secret_key().len() == KYBER768_SECRET_KEY_BYTES,
            r.kyber_public_key().len() == KYBER768_PUBLIC_KEY_BYTES,
            r.dilithium_secret_key().len() == DILITHIUM2_SECRET_KEY_BYTES,
            r.dilithium_public_key().len() == DILITHIUM2_PUBLIC_KEY_BYTES,
            kyber768_keypair_of_some_coins(r.kyber_public_key(), r.kyber_secret_key()),
            r.kyber_secret_key().subrange(
                KYBER768_INDCPA_SECRET_KEY_BYTES as int,
                KYBER768_INDCPA_SECRET_KEY_BYTES + KYBER768_PUBLIC_KEY_BYTES,
            ) == r.kyber_public_key(),
            forall|m: Seq<u8>|
                #[trigger] dilithium2_verify(
                    dilithium2_sign(m, r.dilithium_secret_key()),
                    m,
                    r.dilithium_public_key(),
                ),
    {
        let (kyber_public_key, kyber_secret_key) = kyber768_keypair();
        let (dilithium_public_key, dilithium_secret_key) = dilithium2_keypair();
        KeyExchange { kyber_secret_key, kyber_public_key, dilithium_secret_key, dilithium_public_key }
    }

    /// The Kyber768 and the Dilithium2 public keys, in that order.
    pub fn get_public_keys(&self) -> (r: (Vec<u8>, Vec<u8>))
        ensures
            r.0@ == self.kyber_public_key(),
            r.1@ == self.dilithium_public_key(),
    {
        (
            slice_to_vec(self.kyber_public_key.as_slice()),
            slice_to_vec(self.dilithium_public_key.as_slice()),
        )
    }

    /// Checks a Dilithium2 detached `signature` on `data` under
    /// `client_public_key`. Bytes that `pqcrypto` cannot read as a signature
    /// (longer than 2420) or as a public key (not 1312 long) fail too.
    pub fn verify_client_signature(&self, data: &[u8], signature: &[u8], client_public_key: &[u8]) -> (r:
        Result<(), CryptoError>)
        ensures
            r is Ok <==> signature@.len() == DILITHIUM2_SIGNATURE_BYTES
                && client_public_key@.len() == DILITHIUM2_PUBLIC_KEY_BYTES && dilithium2_verify(
                signature@,
                data@,
                client_public_key@,
            ),
            r matches Err(e) ==> e is SignatureError,
    {
        if signature.len() > DILITHIUM2_SIGNATURE_BYTES {
            return Err(CryptoError::SignatureError);
        }
        if client_public_key.len() != DILITHIUM2_PUBLIC_KEY_BYTES {
            return Err(CryptoError::SignatureError);
        }
        let accepted = dilithium2_verify_detached(signature, data, client_public_key);
        signature_verdict(accepted)
    }

    /// Signs `data` with the server's Dilithium2 secret key. The signature
    /// verifies under the server's Dilithium2 public key.
    pub fn sign_data(&self, data: &[u8]) -> (r: Vec<u8>)
        ensures
            r@ == dilithium2_sign(data@, self.dilithium_secret_key()),
            r@.len() == DILITHIUM2_SIGNATURE_BYTES,
            dilithium2_verify(r@, data@, self.dilithium_public_key()),
    {
        proof {
            use_type_invariant(self);
            assert(dilithium2_verify(
                dilithium2_sign(data@, self.dilithium_secret_key@),
                data@,
                self.dilithium_public_key@,
            ));
        }
        dilithium2_detached_sign(data, self.dilithium_secret_key.as_slice())
    }

    /// Encapsulates to the client's Kyber768 public key and returns the second
    /// part of `encapsulate`'s answer, the 1088-byte ciphertext of a 32-byte
    /// shared secret; the shared secret itself is dropped.
    pub fn process_client_key(&self, client_public_key: &[u8]) -> (r: Result<Vec<u8>, CryptoError>)
        ensures
            r is Ok <==> client_public_key@.len() == KYBER768_PUBLIC_KEY_BYTES,
            r matches Ok(ct) ==> ct@.len() == KYBER768_CIPHERTEXT_BYTES,
            r matches Ok(ct) ==> exists|shared_secret: Seq<u8>|
                shared_secret.len() == KYBER768_SHARED_SECRET_BYTES
                    && #[trigger] kyber768_encapsulation_of_some_coins(
                    client_public_key@,
                    shared_secret,
                    ct@,
                ),
            r matches Err(e) ==> e is KeyExchangeError,
    {
        if client_public_key.len() != KYBER768_PUBLIC_KEY_BYTES {
            return Err(CryptoError::KeyExchangeError);
        }
        let (_shared_secret, ciphertext) = kyber768_encapsulate(client_public_key);
        Ok(ciphertext)
    }

    /// Decapsulates a Kyber768 ciphertext with the server's secret key.
    pub fn process_server_response(&self, ciphertext: &[u8]) -> (r: Result<Vec<u8>, CryptoError>)
        ensures
            r is Ok <==> ciphertext@.len() == KYBER768_CIPHERTEXT_BYTES,
            r matches Ok(ss) ==> ss@ == kyber768_decapsulation(ciphertext@, self.kyber_secret_key()),
            r matches Ok(ss) ==> ss@.len() == KYBER768_SHARED_SECRET_BYTES,
            r matches Err(e) ==> e is KeyExchangeError,
    {
        proof {
            use_type_invariant(self);
        }
        if ciphertext.len() != KYBER768_CIPHERTEXT_BYTES {
            return Err(CryptoError::KeyExchangeError);
        }
        Ok(kyber768_decapsulate(ciphertext, self.kyber_secret_key.as_slice()))
    }
}

} // verus!
