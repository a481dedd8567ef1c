use vstd::prelude::*;

use crate::auth::{fixed_array, FixStrIntoArray, Str256, USER_ID_LEN};
use crate::bytes::{le_bytes_u128, le_bytes_u64, u128_from_le, u128_to_le, u64_to_le};
use crate::crypto::{
    cipher_part, create_symmetric_key, key_views, nonce_part, open_with_keys, sealed,
    symmetric_decrypt_inner, symmetric_encrypt_inner, AsSymmetricKey, DecryptFailed,
    SymmetricKey, ENCRYPT_ADD,
};

verus! {

/// Length of the encrypted session content (a 128-bit session id).
pub const SESSION_CONTENT_LEN: usize = 16;

/// Length of the data a session is bound to: two timestamps and the user id array.
pub const SESSION_ASSOC_LEN: usize = 272;

/// Length of an encrypted session.
pub const SESSION_LEN: usize = 44;

/// The data a session is bound to: authentication time and expiry (little endian) and
/// the user id as stored in its 256-byte array.
pub open spec fn session_associated(user_id: Seq<u8>, authenticated: u64, expires: u64) -> Seq<u8> {
    le_bytes_u64(authenticated) + le_bytes_u64(expires) + fixed_array(user_id)
}

/// Serializes the data a session is bound to.
pub fn serialize_session_associated(user_id: &Str256, authenticated: u64, expires: u64) -> (a: [u8; SESSION_ASSOC_LEN])
    ensures
        a@ == session_associated(user_id.bytes(), authenticated, expires),
{
    let auth = u64_to_le(authenticated);
    let exp = u64_to_le(expires);
    let id = user_id.as_array();
    let mut a = [0u8; SESSION_ASSOC_LEN];
    let mut i: usize = 0;
    while i < 272
        invariant
            i <= 272,
            a@.len() == 272,
            auth@ == le_bytes_u64(authenticated),
            exp@ == le_bytes_u64(expires),
            id@ == fixed_array(user_id.bytes()),
            forall|j: int|
                0 <= j < i ==> a@[j] == (le_bytes_u64(authenticated) + le_bytes_u64(expires)
                    + fixed_array(user_id.bytes()))[j],
        decreases 272 - i,
    {
        let b = if i < 8 {
            auth[i]
        } else if i < 16 {
            exp[i - 8]
        } else {
            id[i - 16]
        };
        a[i] = b;
        i = i + 1;
    }
    assert(a@ =~= session_associated(user_id.bytes(), authenticated, expires));
    a
}

/// Encrypts 16 bytes; the result has 44 bytes.
pub fn symmetric_encrypt_16<K: AsSymmetricKey, R: rand::RngCore + rand::CryptoRng>(
    data: &[u8; 16],
    associated_data: &[u8],
    key: &K,
    rng: &mut R,
) -> (encrypted: [u8; 44])
    requires
        associated_data@.len() <= crate::crypto::AEAD_MAX,
    ensures
        sealed(key.key_view(), associated_data@, data@, encrypted@),
{
    symmetric_encrypt_inner::<16, 44, K, R>(data, associated_data, key, rng)
}

/// Decrypts a 44-byte encryption of 16 bytes.
pub fn symmetric_decrypt_16<K: AsSymmetricKey>(encrypted: &[u8; 44], associated_data: &[u8], keys: &[K]) -> (r: Result<[u8; 16], DecryptFailed>)
    ensures
        r matches Ok(a) ==> exists|p: Seq<u8>|
            open_with_keys(
                key_views(keys@),
                nonce_part(encrypted@),
                associated_data@,
                cipher_part(encrypted@),
            ) == Some(p) && a@ == p.take(16),
        r is Err ==> open_with_keys(
            key_views(keys@),
            nonce_part(encrypted@),
            associated_data@,
            cipher_part(encrypted@),
        ) is None,
{
    symmetric_decrypt_inner::<44, 32, 16, K>(encrypted, associated_data, keys)
}

/// An encrypted session id, bound to a user and a validity period.
pub struct Session {
    encrypted: [u8; SESSION_LEN],
}

impl Session {
    /// The encrypted bytes.
    pub closed spec fn bytes(&self) -> Seq<u8> {
        self.encrypted@
    }
}

/// The key sessions are encrypted with.
pub struct SessionKey(SymmetricKey);

impl AsSymmetricKey for SessionKey {
    closed spec fn key_view(&self) -> Seq<u8> {
        self.0@
    }

    fn as_symmetric_key(&self) -> (k: &SymmetricKey) {
        &self.0
    }
}

impl<'k> AsSymmetricKey for &'k SessionKey {
    closed spec fn key_view(&self) -> Seq<u8> {
        self.0@
    }

    fn as_symmetric_key(&self) -> (k: &SymmetricKey) {
        &self.0
    }
}

impl SessionKey {
    /// A new random session key.
    pub fn create() -> (k: Self)
        ensures
            k.key_view().len() == 32,
    {
        let mut rng = rand::thread_rng();
        let key = create_symmetric_key(&mut rng);
        Self(key)
    }
}

/// What a session holds once decrypted.
pub struct SessionContent<'a> {
    pub user_id: &'a Str256,
    pub session_id: u128,
    pub authenticated: u64,
    pub expires: u64,
}

/// Encrypts a session id, bound to the user and the validity period.
pub fn encrypt_session(session_id: u128, user_id: &Str256, authenticated: u64, expires: u64, key: &SessionKey) -> (s: Session)
    ensures
        sealed(
            key.key_view(),
            session_associated(user_id.bytes(), authenticated, expires),
            le_bytes_u128(session_id),
            s.bytes(),
        ),
{
    let mut rng = rand::thread_rng();
    let assoc = serialize_session_associated(user_id, authenticated, expires);
    let content = u128_to_le(session_id);
    let encrypted = symmetric_encrypt_16(&content, assoc.as_slice(), key, &mut rng);
    Session { encrypted }
}

/// Decrypts a session for the given user and validity period.
pub fn decrypt_session<'a>(session: &Session, user_id: &'a Str256, authenticated: u64, expires: u64, key: &SessionKey) -> (r: Result<SessionContent<'a>, DecryptFailed>)
    ensures
        r matches Ok(c) ==> c.user_id == user_id && c.authenticated == authenticated
            && c.expires == expires && exists|p: Seq<u8>|
            open_with_keys(
                seq![key.key_view()],
                nonce_part(session.bytes()),
                session_associated(user_id.bytes(), authenticated, expires),
                cipher_part(session.bytes()),
            ) == Some(p) && le_bytes_u128(c.session_id) == p.take(16),
        r is Err ==> open_with_keys(
            seq![key.key_view()],
            nonce_part(session.bytes()),
            session_associated(user_id.bytes(), authenticated, expires),
            cipher_part(session.bytes()),
        ) is None,
{
    let assoc = serialize_session_associated(user_id, authenticated, expires);
    let keys = [key];
    proof {
        assert(key_views(keys@) =~= seq![key.key_view()]);
    }
    match symmetric_decrypt_16(&session.encrypted, assoc.as_slice(), keys.as_slice()) {
        Ok(decrypted) => {
            let session_id = u128_from_le(decrypted);
            Ok(SessionContent { user_id, session_id, authenticated, expires })
        },
        Err(e) => Err(e),
    }
}

} // verus!
