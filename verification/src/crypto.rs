use vstd::prelude::*;

use aes_gcm_siv::aead::{Aead, KeyInit, Payload};
use rand::{RngCore, SeedableRng};
use sha2::Digest;

use crate::bytes::{append_bytes, array_from_vec, copy_range};
use crate::text::{hex_lower, to_hex};

verus! {

/// Number of bytes an encryption adds: a 16-byte tag and a 12-byte nonce.
pub const ENCRYPT_ADD: usize = 28;

/// Largest message and associated data length AES-GCM-SIV accepts (2^36 bytes).
pub const AEAD_MAX: u64 = 68719476736;

/// AES-256-GCM-SIV ciphertext (message followed by its 16-byte tag) of `msg` under `key`,
/// `nonce` and associated data `aad`.
pub uninterp spec fn aes_gcm_siv_encrypt(key: Seq<u8>, nonce: Seq<u8>, aad: Seq<u8>, msg: Seq<u8>) -> Seq<u8>;

/// AES-256-GCM-SIV decryption of `ct` under `key`, `nonce` and `aad`: the plaintext when
/// the tag verifies, `None` otherwise.
pub uninterp spec fn aes_gcm_siv_decrypt(key: Seq<u8>, nonce: Seq<u8>, aad: Seq<u8>, ct: Seq<u8>) -> Option<Seq<u8>>;

/// SHA-256 digest of `data`.
pub uninterp spec fn sha256(data: Seq<u8>) -> Seq<u8>;

/// The first 32 bytes of the ChaCha20 stream `stream` seeded with `seed`.
pub uninterp spec fn chacha20_stream_bytes(seed: Seq<u8>, stream: u64) -> Seq<u8>;

/// Calls `Aead::encrypt` of `aes_gcm_siv::Aes256GcmSiv` with a `Payload` of `msg` and
/// `aad`. Claims: the result is the named ciphertext, 16 bytes longer than `msg`, and
/// decrypting it with the same key, nonce and associated data gives `msg` back (the
/// correctness of an AEAD). The length limits are those under which the crate encrypts.
#[verifier::external_body]
fn aead_encrypt(key: &[u8; 32], nonce: &[u8; 12], aad: &[u8], msg: &[u8]) -> (ct: Vec<u8>)
    requires
        msg@.len() <= AEAD_MAX,
        aad@.len() <= AEAD_MAX,
    ensures
        ct@ == aes_gcm_siv_encrypt(key@, nonce@, aad@, msg@),
        ct@.len() == msg@.len() + 16,
        aes_gcm_siv_decrypt(key@, nonce@, aad@, ct@) == Some(msg@),
{
    let cipher = aes_gcm_siv::Aes256GcmSiv::new(key.into());
    cipher.encrypt(nonce.into(), Payload { msg, aad }).unwrap()
}

/// Calls `Aead::decrypt` of `aes_gcm_siv::Aes256GcmSiv` with a `Payload` of `ct` and `aad`.
/// Claims: the result is the named decryption, and a plaintext is 16 bytes shorter than
/// the ciphertext it came from (the tag is removed).
#[verifier::external_body]
fn aead_decrypt(key: &[u8; 32], nonce: &[u8; 12], aad: &[u8], ct: &[u8]) -> (pt: Option<Vec<u8>>)
    ensures
        pt matches Some(p) ==> aes_gcm_siv_decrypt(key@, nonce@, aad@, ct@) == Some(p@) && p@.len()
            + 16 == ct@.len(),
        pt is None ==> aes_gcm_siv_decrypt(key@, nonce@, aad@, ct@) is None,
{
    let cipher = aes_gcm_siv::Aes256GcmSiv::new(key.into());
    cipher.decrypt(nonce.into(), Payload { msg: ct, aad }).ok()
}

/// Calls `RngCore::fill_bytes` on a buffer of `len` zero bytes. Claims only the length:
/// the bytes are random.
#[verifier::external_body]
fn random_bytes<R: rand::RngCore + rand::CryptoRng>(rng: &mut R, len: usize) -> (b: Vec<u8>)
    ensures
        b@.len() == len,
{
    let mut b = vec![0u8; len];
    rng.fill_bytes(&mut b);
    b
}

/// Calls `sha2::Sha256::digest`. Claims: the result is the named digest of `data`.
#[verifier::external_body]
pub(crate) fn sha256_digest(data: &[u8]) -> (d: [u8; 32])
    ensures
        d@ == sha256(data@),
{
    sha2::Sha256::digest(data).into()
}

/// Calls `RngCore::fill_bytes` of a `rand_chacha::ChaCha20Rng` made with `from_seed(seed)`
/// and `set_stream(stream)`, on a 32-byte buffer. Claims: the result is the named bytes,
/// which depend on the seed and the stream alone.
#[verifier::external_body]
fn chacha20_key_bytes(seed: [u8; 32], stream: u64) -> (b: [u8; 32])
    ensures
        b@ == chacha20_stream_bytes(seed@, stream),
{
    let mut rng = rand_chacha::ChaCha20Rng::from_seed(seed);
    rng.set_stream(stream);
    let mut b = [0u8; 32];
    rng.fill_bytes(&mut b);
    b
}

/// The generator `rand::thread_rng` hands out.
#[verifier::external_type_specification]
#[verifier::external_body]
pub struct ExThreadRng(rand::rngs::ThreadRng);

/// `rand::thread_rng`: returns the thread-local random generator. Nothing is claimed of it.
pub assume_specification[ rand::thread_rng ]() -> rand::rngs::ThreadRng;

/// Calls `Rng::gen::<u128>`. Nothing is claimed: the number is random.
#[verifier::external_body]
pub(crate) fn random_u128<R: rand::Rng>(rng: &mut R) -> u128 {
    rng.gen()
}

/// A 256-bit key for AES-256-GCM-SIV.
#[derive(Clone)]
pub struct SymmetricKey {
    key_256: [u8; 32],
}

impl View for SymmetricKey {
    type V = Seq<u8>;

    closed spec fn view(&self) -> Seq<u8> {
        self.key_256@
    }
}

/// The key could not be made from the given bytes.
#[derive(Debug, PartialEq, Eq, Structural)]
pub enum KeyError {
    SymmetricBytes,
}

/// The decryption failed. This can be due to tampered data, an invalid key, invalid IV or
/// incorrect tag.
#[derive(Debug, PartialEq, Eq, Structural)]
pub struct DecryptFailed;

/// Something that holds a symmetric key.
pub trait AsSymmetricKey {
    /// The bytes of the held key.
    spec fn key_view(&self) -> Seq<u8>;

    fn as_symmetric_key(&self) -> (k: &SymmetricKey)
        ensures
            k@ == self.key_view(),
    ;
}

impl AsSymmetricKey for SymmetricKey {
    open spec fn key_view(&self) -> Seq<u8> {
        self@
    }

    fn as_symmetric_key(&self) -> (k: &SymmetricKey) {
        self
    }
}

/// A new key of 32 random bytes.
pub fn create_symmetric_key<R: rand::RngCore + rand::CryptoRng>(rng: &mut R) -> (key: SymmetricKey)
    ensures
        key@.len() == 32,
{
    let bytes = random_bytes(rng, 32);
    SymmetricKey { key_256: array_from_vec(bytes) }
}

impl SymmetricKey {
    pub fn raw_bytes(&self) -> (b: &[u8])
        ensures
            b@ == self@,
    {
        self.key_256.as_slice()
    }

    pub fn from_raw_bytes(bytes: &[u8]) -> (r: Result<Self, KeyError>)
        ensures
            bytes@.len() == 32 <==> r is Ok,
            r matches Ok(k) ==> k@ == bytes@,
            r matches Err(e) ==> e == KeyError::SymmetricBytes,
    {
        if bytes.len() != 32 {
            return Err(KeyError::SymmetricBytes);
        }
        Ok(SymmetricKey { key_256: array_from_vec(copy_range(bytes, 0, 32)) })
    }

    /// The key drawn from the ChaCha20 stream `key` seeded with `base_secret`.
    pub fn derive_key(base_secret: [u8; 32], key: u64) -> (k: Self)
        ensures
            k@ == chacha20_stream_bytes(base_secret@, key),
    {
        SymmetricKey { key_256: chacha20_key_bytes(base_secret, key) }
    }

    /// A text that tells keys apart without showing them: `SymmetricKey("sha256=<8 hex
    /// digits>...")`.
    pub fn debug_string(&self) -> (s: String)
        ensures
            s@ == "SymmetricKey(\"sha256="@ + hex_lower(sha256(self@).take(4)) + "...\")"@,
    {
        let mut s = String::from_str("SymmetricKey(\"sha256=");
        let hex = debug_secret_bytes(self.raw_bytes());
        s.append(hex.as_str());
        s.append("...\")");
        s
    }
}

/// Lower-case hex of the first four bytes of the SHA-256 digest of `bytes`.
pub fn debug_secret_bytes(bytes: &[u8]) -> (hex: String)
    ensures
        hex@ == hex_lower(sha256(bytes@).take(4)),
{
    let digest = sha256_digest(bytes);
    let first = copy_range(digest.as_slice(), 0, 4);
    proof {
        assert(first@ =~= sha256(bytes@).take(4));
    }
    to_hex(first.as_slice())
}

/// The nonce of an encryption: its last 12 bytes.
pub open spec fn nonce_part(encrypted: Seq<u8>) -> Seq<u8> {
    encrypted.subrange(encrypted.len() - 12, encrypted.len() as int)
}

/// The ciphertext of an encryption: all but its last 12 bytes.
pub open spec fn cipher_part(encrypted: Seq<u8>) -> Seq<u8> {
    encrypted.subrange(0, encrypted.len() - 12)
}

/// `encrypted` is the AES-GCM-SIV encryption of `data` under `key` and `aad`, followed
/// by the nonce that was used; decrypting it with that key, nonce and `aad` gives `data`.
pub open spec fn sealed(key: Seq<u8>, aad: Seq<u8>, data: Seq<u8>, encrypted: Seq<u8>) -> bool {
    &&& encrypted.len() == data.len() + ENCRYPT_ADD
    &&& cipher_part(encrypted) == aes_gcm_siv_encrypt(key, nonce_part(encrypted), aad, data)
    &&& aes_gcm_siv_decrypt(key, nonce_part(encrypted), aad, cipher_part(encrypted)) == Some(data)
}

/// The plaintext from the first key, in order, under which `ct` decrypts.
pub open spec fn open_with_keys(keys: Seq<Seq<u8>>, nonce: Seq<u8>, aad: Seq<u8>, ct: Seq<u8>) -> Option<Seq<u8>>
    decreases keys.len(),
{
    if keys.len() == 0 {
        None
    } else {
        match aes_gcm_siv_decrypt(keys[0], nonce, aad, ct) {
            Some(p) => Some(p),
            None => open_with_keys(keys.drop_first(), nonce, aad, ct),
        }
    }
}

/// The key bytes of each key holder, in order.
pub open spec fn key_views<K: AsSymmetricKey>(keys: Seq<K>) -> Seq<Seq<u8>> {
    keys.map_values(|k: K| k.key_view())
}

/// Encrypts `data` with associated data under `key` and a random nonce; the result is the
/// ciphertext with its tag, followed by the nonce.
fn seal_with_random_nonce<K: AsSymmetricKey, R: rand::RngCore + rand::CryptoRng>(
    data: &[u8],
    associated_data: &[u8],
    key: &K,
    rng: &mut R,
) -> (encrypted: Vec<u8>)
    requires
        data@.len() <= AEAD_MAX,
        associated_data@.len() <= AEAD_MAX,
    ensures
        sealed(key.key_view(), associated_data@, data@, encrypted@),
        aes_gcm_siv_decrypt(key.key_view(), nonce_part(encrypted@), associated_data@, cipher_part(
            encrypted@,
        )) == Some(data@),
{
    let k = key.as_symmetric_key();
    let iv: [u8; 12] = array_from_vec(random_bytes(rng, 12));
    let mut encrypted = aead_encrypt(&k.key_256, &iv, associated_data, data);
    let ghost ct = encrypted@;
    append_bytes(&mut encrypted, iv.as_slice());
    proof {
        assert(cipher_part(encrypted@) =~= ct);
        assert(nonce_part(encrypted@) =~= iv@);
    }
    encrypted
}

/// Encrypts the fixed-size `data` with associated data; the result has `IN + 28` bytes.
pub fn symmetric_encrypt_inner<const IN: usize, const OUT: usize, K: AsSymmetricKey, R: rand::RngCore + rand::CryptoRng>(
    data: &[u8; IN],
    associated_data: &[u8],
    key: &K,
    rng: &mut R,
) -> (encrypted: [u8; OUT])
    requires
        OUT == IN + ENCRYPT_ADD,
        IN <= AEAD_MAX,
        associated_data@.len() <= AEAD_MAX,
    ensures
        sealed(key.key_view(), associated_data@, data@, encrypted@),
        aes_gcm_siv_decrypt(key.key_view(), nonce_part(encrypted@), associated_data@, cipher_part(
            encrypted@,
        )) == Some(data@),
{
    let v = seal_with_random_nonce(data.as_slice(), associated_data, key, rng);
    array_from_vec(v)
}

/// Encrypts `data` under `key` with no associated data; the ciphertext and tag are
/// followed by the 12-byte nonce.
pub fn symmetric_encrypt<K: AsSymmetricKey, R: rand::RngCore + rand::CryptoRng>(
    session_data: &[u8],
    key: &K,
    rng: &mut R,
) -> (encrypted: Vec<u8>)
    requires
        session_data@.len() <= AEAD_MAX,
    ensures
        sealed(key.key_view(), Seq::empty(), session_data@, encrypted@),
        aes_gcm_siv_decrypt(key.key_view(), nonce_part(encrypted@), Seq::empty(), cipher_part(
            encrypted@,
        )) == Some(session_data@),
{
    let empty: [u8; 0] = [];
    proof {
        assert(empty@ =~= Seq::<u8>::empty());
    }
    seal_with_random_nonce(session_data, empty.as_slice(), key, rng)
}

/// Tries the keys in order on `ct`, returning the first plaintext.
fn open_first<K: AsSymmetricKey>(nonce: &[u8; 12], associated_data: &[u8], ct: &[u8], keys: &[K]) -> (r: Option<Vec<u8>>)
    ensures
        r matches Some(p) ==> open_with_keys(key_views(keys@), nonce@, associated_data@, ct@) == Some(
            p@,
        ) && p@.len() + 16 == ct@.len(),
        r is None ==> open_with_keys(key_views(keys@), nonce@, associated_data@, ct@) is None,
{
    let mut i: usize = 0;
    proof {
        assert(key_views(keys@).skip(0) =~= key_views(keys@));
    }
    while i < keys.len()
        invariant
            i <= keys@.len(),
            open_with_keys(key_views(keys@), nonce@, associated_data@, ct@) == open_with_keys(
                key_views(keys@).skip(i as int),
                nonce@,
                associated_data@,
                ct@,
            ),
        decreases keys@.len() - i,
    {
        let k = keys[i].as_symmetric_key();
        let attempt = aead_decrypt(&k.key_256, nonce, associated_data, ct);
        proof {
            let rest = key_views(keys@).skip(i as int);
            assert(rest[0] == keys@[i as int].key_view());
            assert(rest.drop_first() =~= key_views(keys@).skip(i + 1));
        }
        if attempt.is_some() {
            return attempt;
        }
        i = i + 1;
    }
    proof {
        assert(key_views(keys@).skip(i as int) =~= Seq::<Seq<u8>>::empty());
    }
    None
}

/// Decrypts the output of [`symmetric_encrypt`] with the first of `keys` (tried in order)
/// under which it verifies.
pub fn symmetric_decrypt<K: AsSymmetricKey>(encrypted: &[u8], keys: &[K]) -> (r: Result<Vec<u8>, DecryptFailed>)
    ensures
        r matches Ok(p) ==> encrypted@.len() >= ENCRYPT_ADD && open_with_keys(
            key_views(keys@),
            nonce_part(encrypted@),
            Seq::empty(),
            cipher_part(encrypted@),
        ) == Some(p@),
        r is Err ==> encrypted@.len() < ENCRYPT_ADD || open_with_keys(
            key_views(keys@),
            nonce_part(encrypted@),
            Seq::empty(),
            cipher_part(encrypted@),
        ) is None,
{
    let encrypted_len = encrypted.len();
    if encrypted_len < 28 {
        return Err(DecryptFailed);
    }
    let iv: [u8; 12] = array_from_vec(copy_range(encrypted, encrypted_len - 12, encrypted_len));
    let ciphertext = copy_range(encrypted, 0, encrypted_len - 12);
    let empty: [u8; 0] = [];
    proof {
        assert(empty@ =~= Seq::<u8>::empty());
    }
    match open_first(&iv, empty.as_slice(), ciphertext.as_slice(), keys) {
        Some(decrypted) => Ok(decrypted),
        None => Err(DecryptFailed),
    }
}

/// Decrypts a fixed-size encryption of `OUT` or more bytes: the first `T` bytes are the
/// ciphertext with its tag, the last 12 the nonce; the first `OUT` bytes of the plaintext
/// are returned.
pub fn symmetric_decrypt_inner<const IN: usize, const T: usize, const OUT: usize, K: AsSymmetricKey>(
    encrypted: &[u8; IN],
    associated_data: &[u8],
    keys: &[K],
) -> (r: Result<[u8; OUT], DecryptFailed>)
    requires
        IN == T + 12,
        OUT + 16 <= T,
    ensures
        r matches Ok(a) ==> exists|p: Seq<u8>|
            open_with_keys(
                key_views(keys@),
                nonce_part(encrypted@),
                associated_data@,
                cipher_part(encrypted@),
            ) == Some(p) && a@ == p.take(OUT as int),
        r is Err ==> open_with_keys(
            key_views(keys@),
            nonce_part(encrypted@),
            associated_data@,
            cipher_part(encrypted@),
        ) is None,
{
    let iv: [u8; 12] = array_from_vec(copy_range(encrypted.as_slice(), T, IN));
    let ciphertext = copy_range(encrypted.as_slice(), 0, T);
    proof {
        assert(iv@ =~= nonce_part(encrypted@));
        assert(ciphertext@ =~= cipher_part(encrypted@));
    }
    match open_first(&iv, associated_data, ciphertext.as_slice(), keys) {
        Some(decrypted) => {
            let out = copy_range(decrypted.as_slice(), 0, OUT);
            proof {
                assert(out@ =~= decrypted@.take(OUT as int));
            }
            Ok(array_from_vec(out))
        },
        None => Err(DecryptFailed),
    }
}

/// Decrypts a 36-byte encryption of 8 bytes made with no associated data.
pub fn symmetric_decrypt_new<K: AsSymmetricKey>(encrypted: &[u8; 36], keys: &[K]) -> (r: Result<[u8; 8], DecryptFailed>)
    ensures
        r matches Ok(a) ==> exists|p: Seq<u8>|
            open_with_keys(
                key_views(keys@),
                nonce_part(encrypted@),
                Seq::empty(),
                cipher_part(encrypted@),
            ) == Some(p) && a@ == p.take(8),
        r is Err ==> open_with_keys(
            key_views(keys@),
            nonce_part(encrypted@),
            Seq::empty(),
            cipher_part(encrypted@),
        ) is None,
{
    let empty: [u8; 0] = [];
    proof {
        assert(empty@ =~= Seq::<u8>::empty());
    }
    symmetric_decrypt_inner::<36, 24, 8, K>(encrypted, empty.as_slice(), keys)
}

} // verus!
