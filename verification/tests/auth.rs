use std::time::{SystemTime, UNIX_EPOCH};

use borink::auth::{FixStrIntoArray, Str256, User, UserState};
use borink::compactset::{AtomicBitSet, AtomicSmallBitSet, CompactSet};
use borink::ephemeral::{decrypt_login, encrypt_login, EphemeralKey};
use borink::login::{login_session, login_start, LoginFinishRequestView, SESSION_EXPIRE};
use borink::session::{decrypt_session, encrypt_session, serialize_session_associated, SessionKey};
use opaque_borink::client::{
    client_login_finish, client_login_start, client_register_finish, client_register_start,
    ClientStateLogin, ClientStateRegistration,
};
use opaque_borink::server::{server_register_finish, server_register_start, ServerSetup, ServerSetupView};
use rand::{thread_rng, Rng, RngCore};

fn password_file_for(setup: &mut ServerSetupView, user_id: &[u8], password: &[u8]) -> [u8; 192] {
    let mut client_state = ClientStateRegistration::setup();
    let client_start = client_register_start(&mut client_state, password).unwrap();
    let server_start = server_register_start(setup, &client_start.response, user_id).unwrap();
    let client_finish =
        client_register_finish(&mut client_state, password, &server_start.response).unwrap();
    server_register_finish(&client_finish.response).unwrap().serialize()
}

fn user_name() -> Str256 {
    let mut rng = thread_rng();
    let length = rng.gen_range(1..=16);
    let s: String = (0..length)
        .map(|_| char::from(b'a' + rng.gen_range(0..26u8)))
        .collect();
    Str256::make(&s)
}

#[test]
fn test_lengths() {
    let user_id = Str256::make("");
    // This should succeed
    let associated = serialize_session_associated(&user_id, 2, 3);
    assert_eq!(associated.len(), 256 + 16);
    assert_eq!(associated[0], 2);
    assert_eq!(associated[8], 3);
    assert_eq!(associated[16], 0);
}

#[test]
fn test_login() {
    let iters: usize = 1;
    let setup = ServerSetup::create();
    let mut view = setup.view();
    let mut rng = thread_rng();
    let mut session_ids = Vec::new();

    let eph_key = EphemeralKey::create();
    let eph_keys = &[eph_key];
    let eph_key = &eph_keys[0];
    let session_key = SessionKey::create();

    for _ in 0..iters {
        let user_id = user_name();

        let size: usize = rng.gen_range(3..30);
        let mut pw = vec![0u8; size];
        rng.fill_bytes(&mut pw[0..size]);

        let password_file = password_file_for(&mut view, user_id.as_str().as_bytes(), &pw);

        let mut user = User {
            user_id: Str256::make(user_id.as_str()),
            state: UserState::new(),
            password_file,
            metadata: [0u8; 172],
        };

        let mut client_state = ClientStateLogin::setup();
        let start = client_login_start(&mut client_state, &pw).unwrap();

        let start_message = login_start(&mut view, &mut user, &start.response, eph_key).unwrap();

        let finish = client_login_finish(&mut client_state, &pw, &start_message.message).unwrap();

        let login_finish_request = LoginFinishRequestView {
            message: &finish.response,
            eph: &start_message.eph,
            user_id: user_id.as_str(),
            eph_id: start_message.eph_id,
            shared_secret: &finish.shared_secret,
        };

        let now = SystemTime::now().duration_since(UNIX_EPOCH).unwrap().as_secs();

        let session = login_session(login_finish_request, &mut user, now, eph_keys, &session_key).unwrap();

        let content = decrypt_session(
            &session.session,
            &user_id,
            session.authenticated,
            session.expires,
            &session_key,
        )
        .unwrap();

        session_ids.push(content.session_id);

        assert_eq!(content.user_id.as_str(), user_id.as_str());
        assert_eq!(content.authenticated, now);
    }

    assert_ne!(session_ids[6.min(iters - 1)], 0);
}

#[test]
fn login_number_is_single_use() {
    let setup = ServerSetup::create();
    let mut view = setup.view();
    let eph_keys = [EphemeralKey::create()];
    let session_key = SessionKey::create();
    let user_id = Str256::make("bob");
    let pw = b"correct horse".to_vec();
    let password_file = password_file_for(&mut view, b"bob", &pw);
    let mut user = User {
        user_id: Str256::make("bob"),
        state: UserState::new(),
        password_file,
        metadata: [0u8; 172],
    };
    let mut client_state = ClientStateLogin::setup();
    let start = client_login_start(&mut client_state, &pw).unwrap();
    let start_message = login_start(&mut view, &mut user, &start.response, &eph_keys[0]).unwrap();
    let finish = client_login_finish(&mut client_state, &pw, &start_message.message).unwrap();
    let request = || LoginFinishRequestView {
        message: &finish.response,
        eph: &start_message.eph,
        user_id: user_id.as_str(),
        eph_id: start_message.eph_id,
        shared_secret: &finish.shared_secret,
    };

    let session = login_session(request(), &mut user, 1000, &eph_keys, &session_key).unwrap();
    assert_eq!(session.authenticated, 1000);
    assert_eq!(session.expires, 1000 + SESSION_EXPIRE);
    // The one-time number of this login start cannot be used a second time.
    assert!(login_session(request(), &mut user, 1000, &eph_keys, &session_key).is_err());
}

#[test]
fn wrong_shared_secret_is_refused() {
    let setup = ServerSetup::create();
    let mut view = setup.view();
    let eph_keys = [EphemeralKey::create()];
    let session_key = SessionKey::create();
    let user_id = Str256::make("alice");
    let pw = b"password".to_vec();
    let password_file = password_file_for(&mut view, b"alice", &pw);
    let mut user = User {
        user_id: Str256::make("alice"),
        state: UserState::new(),
        password_file,
        metadata: [0u8; 172],
    };
    let mut client_state = ClientStateLogin::setup();
    let start = client_login_start(&mut client_state, &pw).unwrap();
    let start_message = login_start(&mut view, &mut user, &start.response, &eph_keys[0]).unwrap();
    assert_eq!(start_message.eph_id, 0);
    let finish = client_login_finish(&mut client_state, &pw, &start_message.message).unwrap();
    let mut bad_secret = finish.shared_secret;
    bad_secret[0] ^= 1;
    let request = LoginFinishRequestView {
        message: &finish.response,
        eph: &start_message.eph,
        user_id: user_id.as_str(),
        eph_id: start_message.eph_id,
        shared_secret: &bad_secret,
    };
    assert!(login_session(request, &mut user, 100, &eph_keys, &session_key).is_err());
}

#[test]
fn session_round_trip() {
    let key = SessionKey::create();
    let user = Str256::make("bob");
    let session = encrypt_session(123456789, &user, 10, 20, &key);
    let content = decrypt_session(&session, &user, 10, 20, &key).unwrap();
    assert_eq!(content.session_id, 123456789);
    assert_eq!(content.authenticated, 10);
    assert_eq!(content.expires, 20);
    assert!(decrypt_session(&session, &user, 10, 21, &key).is_err());
    assert!(decrypt_session(&session, &Str256::make("eve"), 10, 20, &key).is_err());
}

#[test]
fn login_state_round_trip() {
    let key = EphemeralKey::create();
    let state = [42u8; 192];
    let eph = encrypt_login(&state, b"bound", &key);
    assert_eq!(decrypt_login(&eph, b"bound", &[key]).unwrap(), state);
}

#[test]
fn user_state_counts_and_remembers() {
    let mut state = UserState::new();
    assert_eq!(state.next(), 0);
    assert_eq!(state.next(), 1);
    assert!(!state.seen(5));
    assert!(state.seen(5));
    assert!(!state.seen(2047));
    state.reset();
    assert_eq!(state.next(), 0);
    assert!(!state.seen(5));
}

#[test]
fn small_bit_set_holds_up_to_2047() {
    let mut set = AtomicSmallBitSet::new();
    assert_eq!(set.max_n(), 2047);
    assert!(!CompactSet::exists_or_add(&mut set, 0));
    assert!(!CompactSet::exists_or_add(&mut set, 64));
    assert!(!CompactSet::exists_or_add(&mut set, 1));
    assert!(CompactSet::exists_or_add(&mut set, 64));
    assert!(CompactSet::exists_or_add(&mut set, 0));
    assert!(!CompactSet::exists_or_add(&mut set, 2047));
    assert!(CompactSet::exists_or_add(&mut set, 2047));
    set.reset();
    assert!(!CompactSet::exists_or_add(&mut set, 64));
}

#[test]
fn fixed_string_array_layout() {
    let s = Str256::make("hey");
    let a = s.as_array();
    assert_eq!(a[0], 3);
    assert_eq!(&a[1..4], b"hey");
    assert!(a[4..].iter().all(|b| *b == 0));
    assert!(Str256::try_make(&"x".repeat(256)).is_none());
    assert_eq!(Str256::try_make(&"x".repeat(255)).unwrap().len(), 255);
}

#[test]
fn long_fixed_strings_are_cut() {
    let s = Str256::make(&"x".repeat(300));
    assert_eq!(s.as_str(), "x".repeat(255));
    assert_eq!(s.as_array()[0], 255);
    // Two-byte characters are kept whole: 127 of them fill 254 bytes.
    let e = Str256::make(&"é".repeat(200));
    assert_eq!(e.as_str(), "é".repeat(127));
    assert_eq!(e.len(), 254);
    assert_eq!(Str256::make("short").as_str(), "short");
}

#[test]
fn user_debug_string_summarizes_password_file() {
    let mut password_file = [0u8; 192];
    password_file[0] = 0xab;
    password_file[1] = 0x01;
    let user = User {
        user_id: Str256::make("carol"),
        state: UserState::new(),
        password_file,
        metadata: [0u8; 172],
    };
    assert_eq!(user.debug_string(), "User{id=carol;pw_file=ab01}");

    let mut long = [0u8; 192];
    for (i, b) in long.iter_mut().enumerate().take(40) {
        *b = i as u8 + 1;
    }
    let user = User {
        user_id: Str256::make("dave"),
        state: UserState::new(),
        password_file: long,
        metadata: [0u8; 172],
    };
    assert_eq!(
        user.debug_string(),
        "User{id=dave;pw_file=0102030405060708090a0b0c0d0e0f10..191a1b1c1d1e1f202122232425262728}"
    );

    let empty = User {
        user_id: Str256::make("e"),
        state: UserState::new(),
        password_file: [0u8; 192],
        metadata: [0u8; 172],
    };
    assert_eq!(empty.debug_string(), "User{id=e;pw_file=00}");
}
