use borink::crypto::{
    create_symmetric_key, debug_secret_bytes, symmetric_decrypt, symmetric_decrypt_inner,
    symmetric_decrypt_new, symmetric_encrypt, symmetric_encrypt_inner, KeyError, SymmetricKey,
};
use rand::rngs::{OsRng, StdRng};
use rand::{Rng, SeedableRng};

fn seeded_rng() -> StdRng {
    let mut seed = [0u8; 32];
    OsRng.fill(&mut seed);
    StdRng::from_seed(seed)
}

#[test]
fn encrypt_decrypt_in_place() {
    let mut rng = seeded_rng();

    let key = create_symmetric_key(&mut rng);

    let some_bytes: [u8; 8] = [0, 1, 2, 3, 4, 5, 6, 7];

    let encrypted: [u8; 36] = symmetric_encrypt_inner::<8, 36, _, _>(&some_bytes, &[], &key, &mut rng);

    let data_decrypt = symmetric_decrypt_inner::<36, 24, 8, _>(&encrypted, &[], &[key]).unwrap();

    assert_eq!(some_bytes.as_slice(), &data_decrypt);
}

#[test]
fn encrypt_decrypt() {
    let mut rng = seeded_rng();

    let key = create_symmetric_key(&mut rng);

    let data = "this_is_some_amount_of_data_that_I_encrypt";

    let encrypted = symmetric_encrypt(data.as_bytes(), &key, &mut rng);

    let data_decrypt = symmetric_decrypt(&encrypted, &[key]).unwrap();

    assert_eq!(data.as_bytes(), data_decrypt);
}

#[test]
fn encrypt_decrypt_different() {
    let mut rng = seeded_rng();

    let key = create_symmetric_key(&mut rng);

    let data = "this_is_some_amount_of_data_that_I_encrypt";

    let encrypted = symmetric_encrypt(data.as_bytes(), &key, &mut rng);

    let mut encrypted_tampered = encrypted.clone();
    let mut encrypted_invalid_iv = encrypted.clone();
    let mut encrypted_bad_tag = encrypted.clone();

    if encrypted_tampered[0] != 3 {
        encrypted_tampered[0] = 3
    } else {
        encrypted_tampered[0] = 2;
    }

    let encrypted_len = encrypted.len();

    if encrypted_invalid_iv[encrypted_len - 1] != 3 {
        encrypted_invalid_iv[encrypted_len - 1] = 3
    } else {
        encrypted_invalid_iv[encrypted_len - 1] = 2;
    }

    if encrypted_bad_tag[encrypted_len - 20] != 3 {
        encrypted_bad_tag[encrypted_len - 20] = 3
    } else {
        encrypted_bad_tag[encrypted_len - 20] = 2;
    }

    let tampered_decrypt = symmetric_decrypt(&encrypted_tampered, &[key.clone()]);
    let invalid_iv_decrypt = symmetric_decrypt(&encrypted_invalid_iv, &[key.clone()]);
    let bad_tag_decrypt = symmetric_decrypt(&encrypted_bad_tag, &[key]);

    assert!(tampered_decrypt.is_err());
    assert!(invalid_iv_decrypt.is_err());
    assert!(bad_tag_decrypt.is_err());
}

#[test]
fn encryption_adds_tag_and_nonce() {
    let mut rng = seeded_rng();
    let key = create_symmetric_key(&mut rng);
    let encrypted = symmetric_encrypt(b"abc", &key, &mut rng);
    assert_eq!(encrypted.len(), 3 + 28);
    let empty = symmetric_encrypt(b"", &key, &mut rng);
    assert_eq!(empty.len(), 28);
    assert_eq!(symmetric_decrypt(&empty, &[key]).unwrap(), Vec::<u8>::new());
}

#[test]
fn decrypt_tries_keys_in_order() {
    let mut rng = seeded_rng();
    let key = create_symmetric_key(&mut rng);
    let other = create_symmetric_key(&mut rng);
    let encrypted = symmetric_encrypt(b"secret", &key, &mut rng);
    assert!(symmetric_decrypt(&encrypted, &[other.clone()]).is_err());
    assert_eq!(symmetric_decrypt(&encrypted, &[other, key]).unwrap(), b"secret".to_vec());
}

#[test]
fn decrypt_refuses_short_input() {
    let mut rng = seeded_rng();
    let key = create_symmetric_key(&mut rng);
    assert!(symmetric_decrypt(&[0u8; 27], &[key]).is_err());
}

#[test]
fn decrypt_new_reads_eight_bytes() {
    let mut rng = seeded_rng();
    let key = create_symmetric_key(&mut rng);
    let data: [u8; 8] = [9, 8, 7, 6, 5, 4, 3, 2];
    let encrypted: [u8; 36] = symmetric_encrypt_inner::<8, 36, _, _>(&data, &[], &key, &mut rng);
    assert_eq!(symmetric_decrypt_new(&encrypted, &[key]).unwrap(), data);
}

#[test]
fn associated_data_must_match() {
    let mut rng = seeded_rng();
    let key = create_symmetric_key(&mut rng);
    let data: [u8; 8] = [1; 8];
    let encrypted: [u8; 36] = symmetric_encrypt_inner::<8, 36, _, _>(&data, b"context", &key, &mut rng);
    assert!(symmetric_decrypt_inner::<36, 24, 8, _>(&encrypted, b"other", &[key.clone()]).is_err());
    assert_eq!(
        symmetric_decrypt_inner::<36, 24, 8, _>(&encrypted, b"context", &[key]).unwrap(),
        data
    );
}

#[test]
fn raw_key_bytes_round_trip() {
    let mut rng = seeded_rng();
    let key = create_symmetric_key(&mut rng);
    let raw = key.raw_bytes().to_vec();
    assert_eq!(raw.len(), 32);
    let restored = SymmetricKey::from_raw_bytes(&raw).unwrap();
    assert_eq!(restored.raw_bytes(), raw.as_slice());
    assert!(matches!(SymmetricKey::from_raw_bytes(&raw[..31]), Err(KeyError::SymmetricBytes)));
}

#[test]
fn derived_keys_depend_on_secret_and_index() {
    let a = SymmetricKey::derive_key([7u8; 32], 1);
    let b = SymmetricKey::derive_key([7u8; 32], 1);
    let c = SymmetricKey::derive_key([7u8; 32], 2);
    assert_eq!(a.raw_bytes(), b.raw_bytes());
    assert_ne!(a.raw_bytes(), c.raw_bytes());
}

#[test]
fn debug_secret_shows_a_digest_prefix() {
    assert_eq!(debug_secret_bytes(b""), "e3b0c442");
    assert_eq!(debug_secret_bytes(b"abc"), "ba7816bf");
    let key = SymmetricKey::from_raw_bytes(&[0u8; 32]).unwrap();
    let expected = format!("SymmetricKey(\"sha256={}...\")", debug_secret_bytes(&[0u8; 32]));
    assert_eq!(key.debug_string(), expected);
}
