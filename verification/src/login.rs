use vstd::prelude::*;

use vstd::string::StringSliceAdditionalSpecFns;

use crate::auth::{Str256, User, PASSWORD_FILE_LEN};
use crate::bytes::{append_bytes, le_bytes_u128, le_bytes_u64, u64_to_le};
use crate::crypto::{
    cipher_part, key_views, nonce_part, open_with_keys, random_u128, sealed, AsSymmetricKey,
    AEAD_MAX,
};
use crate::ephemeral::{decrypt_login, encrypt_login, EphemeralKey, LoginEphemeral};
use crate::session::{encrypt_session, session_associated, Session, SessionKey};

verus! {

/// Length of the OPAQUE server's login start response.
pub const LOGIN_SERVER_MESSAGE_LEN: usize = 320;

/// Length of the client's login finish message.
pub const LOGIN_FINISH_MESSAGE_LEN: usize = 64;

/// Length of the OPAQUE shared secret.
pub const SHARED_SECRET_LEN: usize = 64;

/// How long a session stays valid, in seconds: 30 days.
pub const SESSION_EXPIRE: u64 = 2592000;

/// The OPAQUE server setup in use, borrowed.
#[verifier::external_type_specification]
#[verifier::external_body]
pub struct ExServerSetupView<'a>(opaque_borink::server::ServerSetupView<'a>);

/// An error of the OPAQUE protocol crate.
#[verifier::external_type_specification]
#[verifier::external_body]
pub struct ExOpaqueError(opaque_borink::Error);

/// The shared secret OPAQUE's server login finish derives from the client's finish
/// message and the server state of the login start, or `None` when it rejects them.
pub uninterp spec fn opaque_login_finish(finish_request: Seq<u8>, server_state: Seq<u8>) -> Option<Seq<u8>>;

/// Calls `opaque_borink::server::PasswordFile::deserialize` on the serialized password
/// file and then `opaque_borink::server::server_login_start`; returns the response and
/// the server state. Nothing is claimed of them: they depend on the setup's random
/// generator.
#[verifier::external_body]
fn opaque_server_login_start(
    setup: &mut opaque_borink::server::ServerSetupView,
    password_file: &[u8; PASSWORD_FILE_LEN],
    login_start_request: &[u8],
    user_id: &str,
) -> Result<([u8; LOGIN_SERVER_MESSAGE_LEN], [u8; 192]), opaque_borink::Error> {
    let password_file = opaque_borink::server::PasswordFile::deserialize(password_file)?;
    let result = opaque_borink::server::server_login_start(
        setup,
        &password_file,
        login_start_request,
        user_id,
    )?;
    Ok((result.response, result.state))
}

/// Calls `opaque_borink::server::server_login_finish`. Claims: it succeeds exactly when
/// the named finish does, with the named shared secret; the secret depends on the two
/// arguments alone.
#[verifier::external_body]
fn opaque_server_login_finish(login_finish_request: &[u8], server_state: &[u8]) -> (r: Result<[u8; SHARED_SECRET_LEN], opaque_borink::Error>)
    ensures
        r is Ok <==> opaque_login_finish(login_finish_request@, server_state@) is Some,
        r matches Ok(s) ==> opaque_login_finish(login_finish_request@, server_state@) == Some(s@),
{
    let result = opaque_borink::server::server_login_finish(login_finish_request, server_state)?;
    Ok(result.shared_secret)
}

/// Login failed.
#[derive(Debug, PartialEq, Eq, Structural)]
pub struct LoginError;

/// The data a login state is bound to: the serialized password file, the user id bytes
/// and the one-time number (little endian).
pub open spec fn login_associated(password_file: Seq<u8>, user_id: Seq<u8>, eph_id: u64) -> Seq<u8> {
    password_file + user_id + le_bytes_u64(eph_id)
}

/// The data a login state is bound to, before serialization.
pub struct LoginStartAssociated<'a> {
    pub password_file: &'a [u8],
    pub user_id: &'a str,
    pub eph_id: u64,
}

impl<'a> LoginStartAssociated<'a> {
    pub fn serialize_associated(&self) -> (v: Vec<u8>)
        ensures
            v@ == login_associated(self.password_file@, self.user_id.spec_bytes(), self.eph_id),
    {
        let eph_id_bytes = u64_to_le(self.eph_id);
        let mut vec = Vec::new();
        append_bytes(&mut vec, self.password_file);
        append_bytes(&mut vec, self.user_id.as_bytes());
        append_bytes(&mut vec, eph_id_bytes.as_slice());
        proof {
            assert(vec@ =~= login_associated(self.password_file@, self.user_id.spec_bytes(), self.eph_id));
        }
        vec
    }
}

/// What the server sends at login start: the OPAQUE response and the encrypted login
/// state, with the user id and one-time number it is bound to.
pub struct LoginStartMessage {
    pub message: [u8; LOGIN_SERVER_MESSAGE_LEN],
    pub eph: LoginEphemeral,
    pub user_id: String,
    pub eph_id: u64,
}

impl LoginStartMessage {
    fn create(
        response: [u8; LOGIN_SERVER_MESSAGE_LEN],
        state: [u8; 192],
        user_id: &str,
        password_file: &[u8],
        eph_id: u64,
        key: &EphemeralKey,
    ) -> (m: Self)
        requires
            password_file@.len() == PASSWORD_FILE_LEN,
            user_id.spec_bytes().len() <= 255,
        ensures
            m.message@ == response@,
            m.user_id@ == user_id@,
            m.eph_id == eph_id,
            sealed(
                key.key_view(),
                login_associated(password_file@, user_id.spec_bytes(), eph_id),
                state@,
                m.eph.bytes(),
            ),
    {
        let assoc = LoginStartAssociated { user_id, eph_id, password_file };
        let serialized = assoc.serialize_associated();
        let eph = encrypt_login(&state, serialized.as_slice(), key);
        LoginStartMessage { message: response, eph, user_id: String::from_str(user_id), eph_id }
    }
}

/// Starts an OPAQUE login: answers the client's request and hands out the encrypted login
/// state, bound to the user's password file, id and a fresh one-time number.
pub fn login_start(
    setup: &mut opaque_borink::server::ServerSetupView,
    user: &mut User,
    login_start_request: &[u8],
    key: &EphemeralKey,
) -> (r: Result<LoginStartMessage, LoginError>)
    ensures
        final(user).user_id@ == old(user).user_id@,
        final(user).user_id.bytes() == old(user).user_id.bytes(),
        final(user).password_file@ == old(user).password_file@,
        final(user).state.used() == old(user).state.used(),
        r is Err ==> final(user).state.counter_value() == old(user).state.counter_value(),
        r matches Ok(m) ==> {
            &&& m.eph_id == old(user).state.counter_value()
            &&& final(user).state.counter_value() == (if m.eph_id == u64::MAX { 0 } else { (m.eph_id
                + 1) as u64 })
            &&& m.user_id@ == old(user).user_id@
            &&& exists|state: Seq<u8>|
                sealed(
                    key.key_view(),
                    login_associated(
                        old(user).password_file@,
                        old(user).user_id.bytes(),
                        m.eph_id,
                    ),
                    state,
                    m.eph.bytes(),
                )
        },
{
    let len = user.user_id.len();
    let result = opaque_server_login_start(
        setup,
        &user.password_file,
        login_start_request,
        user.user_id.as_str(),
    );
    let (response, state) = match result {
        Ok(r) => r,
        Err(_) => return Err(LoginError),
    };
    let eph_id = user.state.next();
    let m = LoginStartMessage::create(
        response,
        state,
        user.user_id.as_str(),
        user.password_file.as_slice(),
        eph_id,
        key,
    );
    Ok(m)
}

/// Whether a login finish is accepted, given the numbers already used and the opened
/// login state: its number is unused and finishing the exchange with the state gives
/// the shared secret the client sent.
pub open spec fn finish_accepted(
    used: Set<u64>,
    eph_id: u64,
    message: Seq<u8>,
    shared_secret: Seq<u8>,
    opened: Seq<u8>,
) -> bool {
    !used.contains(eph_id) && opaque_login_finish(message, opened.take(192)) == Some(shared_secret)
}

/// What the client sends to finish a login.
pub struct LoginFinishRequestView<'a> {
    pub message: &'a [u8; LOGIN_FINISH_MESSAGE_LEN],
    pub eph: &'a LoginEphemeral,
    pub user_id: &'a str,
    pub eph_id: u64,
    pub shared_secret: &'a [u8; SHARED_SECRET_LEN],
}

/// A new session with the times it is valid between.
pub struct SessionMessage {
    pub session: Session,
    pub authenticated: u64,
    pub expires: u64,
}

/// The login state in `req` decrypted with the first key that opens it, bound to the
/// user's password file, id and the request's one-time number.
pub open spec fn opened_login_state(req: LoginFinishRequestView, keys: Seq<Seq<u8>>, password_file: Seq<u8>, user_id: Seq<u8>) -> Option<Seq<u8>> {
    open_with_keys(
        keys,
        nonce_part(req.eph.bytes()),
        login_associated(password_file, user_id, req.eph_id),
        cipher_part(req.eph.bytes()),
    )
}

/// Finishes an OPAQUE login: checks the login state against the user, that its one-time
/// number is unused, and that the client's shared secret matches the one OPAQUE derives;
/// then hands out a session valid for [`SESSION_EXPIRE`] seconds from `now`.
pub fn login_session(
    login_finish_request: LoginFinishRequestView,
    user: &mut User,
    now: u64,
    keys: &[EphemeralKey],
    session_key: &SessionKey,
) -> (r: Result<SessionMessage, LoginError>)
    requires
        login_finish_request.user_id@ == old(user).user_id@,
        login_finish_request.eph_id <= 2047,
        now <= u64::MAX - SESSION_EXPIRE,
    ensures
        final(user).user_id@ == old(user).user_id@,
        final(user).user_id.bytes() == old(user).user_id.bytes(),
        final(user).password_file@ == old(user).password_file@,
        final(user).state.counter_value() == old(user).state.counter_value(),
        ({
            let opened = opened_login_state(
                login_finish_request,
                key_views(keys@),
                old(user).password_file@,
                old(user).user_id.bytes(),
            );
            &&& opened is None ==> r is Err && final(user).state.used() == old(user).state.used()
            &&& opened matches Some(p) ==> {
                &&& final(user).state.used() == old(user).state.used().insert(
                    login_finish_request.eph_id,
                )
                &&& (r is Ok <==> finish_accepted(
                    old(user).state.used(),
                    login_finish_request.eph_id,
                    login_finish_request.message@,
                    login_finish_request.shared_secret@,
                    p,
                ))
            }
        }),
        r matches Ok(m) ==> {
            &&& m.authenticated == now
            &&& m.expires == now + SESSION_EXPIRE
            &&& exists|session_id: u128|
                sealed(
                    session_key.key_view(),
                    session_associated(old(user).user_id.bytes(), now, (now + SESSION_EXPIRE) as u64),
                    le_bytes_u128(session_id),
                    m.session.bytes(),
                )
        },
{
    let len = user.user_id.len();
    let assoc = LoginStartAssociated {
        user_id: login_finish_request.user_id,
        eph_id: login_finish_request.eph_id,
        password_file: user.password_file.as_slice(),
    };
    let serialized = assoc.serialize_associated();
    proof {
        assert(login_finish_request.user_id.spec_bytes() == old(user).user_id.bytes());
    }
    let decrypted = match decrypt_login(login_finish_request.eph, serialized.as_slice(), keys) {
        Ok(d) => d,
        Err(_) => return Err(LoginError),
    };
    if user.state.seen(login_finish_request.eph_id) {
        return Err(LoginError);
    }
    let result = match opaque_server_login_finish(
        login_finish_request.message.as_slice(),
        decrypted.as_slice(),
    ) {
        Ok(secret) => secret,
        Err(_) => return Err(LoginError),
    };
    if !bytes_equal(result.as_slice(), login_finish_request.shared_secret.as_slice()) {
        return Err(LoginError);
    }
    let mut rng = rand::thread_rng();
    let session_id: u128 = random_u128(&mut rng);
    let authenticated = now;
    let expires = authenticated + SESSION_EXPIRE;
    let session = encrypt_session(session_id, &user.user_id, authenticated, expires, session_key);
    Ok(SessionMessage { session, authenticated, expires })
}

/// Whether two byte strings are equal.
pub fn bytes_equal(a: &[u8], b: &[u8]) -> (eq: bool)
    ensures
        eq == (a@ == b@),
{
    if a.len() != b.len() {
        return false;
    }
    let mut i: usize = 0;
    while i < a.len()
        invariant
            i <= a@.len(),
            a@.len() == b@.len(),
            a@.take(i as int) == b@.take(i as int),
        decreases a@.len() - i,
    {
        if a[i] != b[i] {
            return false;
        }
        proof {
            assert(a@.take(i + 1) =~= a@.take(i as int).push(a@[i as int]));
            assert(b@.take(i + 1) =~= b@.take(i as int).push(b@[i as int]));
        }
        i = i + 1;
    }
    proof {
        assert(a@ =~= a@.take(a@.len() as int));
        assert(b@ =~= b@.take(b@.len() as int));
    }
    true
}

} // verus!
