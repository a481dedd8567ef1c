use vstd::prelude::*;

use std::marker::PhantomData;

use crate::crypto::{
    cipher_part, create_symmetric_key, key_views, nonce_part, open_with_keys, sealed,
    symmetric_decrypt_inner, symmetric_encrypt_inner, AsSymmetricKey, DecryptFailed,
    SymmetricKey, AEAD_MAX, ENCRYPT_ADD,
};

verus! {

/// Length of the OPAQUE server state kept between login start and finish.
pub const LOGIN_SERVER_STATE_LEN: usize = 192;

/// Length of an encrypted login state.
pub const LOGIN_EPHEMERAL_LEN: usize = 220;

/// A kind of short-lived encrypted value of `N` bytes.
pub trait EphemeralType<const N: usize> {
    fn name() -> &'static str;
}

/// The login state between login start and login finish.
pub struct Login;

impl EphemeralType<LOGIN_EPHEMERAL_LEN> for Login {
    fn name() -> (n: &'static str)
        ensures
            n@ == "login_finish"@,
    {
        "login_finish"
    }
}

/// An encrypted value of kind `T`.
pub struct Ephemeral<const N: usize, T: EphemeralType<N>> {
    phantom: PhantomData<T>,
    encrypted: [u8; N],
}

impl<const N: usize, T: EphemeralType<N>> Ephemeral<N, T> {
    /// The encrypted bytes.
    pub closed spec fn bytes(&self) -> Seq<u8> {
        self.encrypted@
    }

    fn new(encrypted: [u8; N]) -> (e: Self)
        ensures
            e.bytes() == encrypted@,
    {
        Self { phantom: PhantomData, encrypted }
    }
}

/// An encrypted login state.
pub type LoginEphemeral = Ephemeral<LOGIN_EPHEMERAL_LEN, Login>;

/// Encrypts 192 bytes; the result has 220 bytes.
pub fn symmetric_encrypt_192<K: AsSymmetricKey, R: rand::RngCore + rand::CryptoRng>(
    data: &[u8; 192],
    associated_data: &[u8],
    key: &K,
    rng: &mut R,
) -> (encrypted: [u8; 220])
    requires
        associated_data@.len() <= AEAD_MAX,
    ensures
        sealed(key.key_view(), associated_data@, data@, encrypted@),
{
    symmetric_encrypt_inner::<192, 220, K, R>(data, associated_data, key, rng)
}

/// Decrypts a 220-byte encryption of 192 bytes.
pub fn symmetric_decrypt_192<K: AsSymmetricKey>(encrypted: &[u8; 220], associated_data: &[u8], keys: &[K]) -> (r: Result<[u8; 192], DecryptFailed>)
    ensures
        r matches Ok(a) ==> exists|p: Seq<u8>|
            open_with_keys(
                key_views(keys@),
                nonce_part(encrypted@),
                associated_data@,
                cipher_part(encrypted@),
            ) == Some(p) && a@ == p.take(192),
        r is Err ==> open_with_keys(
            key_views(keys@),
            nonce_part(encrypted@),
            associated_data@,
            cipher_part(encrypted@),
        ) is None,
{
    symmetric_decrypt_inner::<220, 208, 192, K>(encrypted, associated_data, keys)
}

/// The key login states are encrypted with.
pub struct EphemeralKey(SymmetricKey);

impl AsSymmetricKey for EphemeralKey {
    closed spec fn key_view(&self) -> Seq<u8> {
        self.0@
    }

    fn as_symmetric_key(&self) -> (k: &SymmetricKey) {
        &self.0
    }
}

impl EphemeralKey {
    /// A new random key.
    pub fn create() -> (k: Self)
        ensures
            k.key_view().len() == 32,
    {
        let mut rng = rand::thread_rng();
        let key = create_symmetric_key(&mut rng);
        Self(key)
    }
}

/// Encrypts a login state, bound to `login_associated`, under a random nonce.
pub fn encrypt_login(login_server_state: &[u8; LOGIN_SERVER_STATE_LEN], login_associated: &[u8], key: &EphemeralKey) -> (e: LoginEphemeral)
    requires
        login_associated@.len() <= AEAD_MAX,
    ensures
        sealed(key.key_view(), login_associated@, login_server_state@, e.bytes()),
{
    let mut rng = rand::thread_rng();
    let encrypted = symmetric_encrypt_192(login_server_state, login_associated, key, &mut rng);
    Ephemeral::new(encrypted)
}

/// Decrypts a login state with the first of `keys` under which it verifies.
pub fn decrypt_login(eph: &LoginEphemeral, login_associated: &[u8], keys: &[EphemeralKey]) -> (r: Result<[u8; LOGIN_SERVER_STATE_LEN], DecryptFailed>)
    ensures
        r matches Ok(a) ==> exists|p: Seq<u8>|
            open_with_keys(
                key_views(keys@),
                nonce_part(eph.bytes()),
                login_associated@,
                cipher_part(eph.bytes()),
            ) == Some(p) && a@ == p.take(192),
        r is Err ==> open_with_keys(
            key_views(keys@),
            nonce_part(eph.bytes()),
            login_associated@,
            cipher_part(eph.bytes()),
        ) is None,
{
    symmetric_decrypt_192(&eph.encrypted, login_associated, keys)
}

} // verus!
