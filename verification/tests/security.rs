use mailsync::security::{EncryptedStore, StoreError};

#[test]
fn test_encryption_decryption_cycle() {
    let key = [1u8; 32];
    let store = EncryptedStore::new_test(key);
    let plain_data = b"hello world secret data";

    let file = store.save(plain_data).expect("Save failed");
    let decrypted_data = store.load(Some(&file)).expect("Load failed");

    assert_eq!(plain_data, decrypted_data.as_slice());
}

#[test]
fn test_load_non_existent_file() {
    let key = [1u8; 32];
    let store = EncryptedStore::new_test(key);

    let result = store.load(None);
    assert!(result.is_err());
    assert_eq!(result.unwrap_err().message(), "File not found");
}

#[test]
fn test_load_invalid_data_format() {
    let key = [1u8; 32];
    let store = EncryptedStore::new_test(key);

    let result = store.load(Some(b"short"));
    assert!(result.is_err());
    assert_eq!(result.unwrap_err().message(), "Invalid data format");
}

#[test]
fn test_decryption_with_wrong_key() {
    let key1 = [1u8; 32];
    let key2 = [2u8; 32];
    let store1 = EncryptedStore::new_test(key1);
    let store2 = EncryptedStore::new_test(key2);
    let plain_data = b"secret data";

    let file = store1.save(plain_data).expect("Save failed");
    let result = store2.load(Some(&file));

    assert!(result.is_err());
}

#[test]
fn sealed_file_is_nonce_then_ciphertext_with_tag() {
    let store = EncryptedStore::new_test([7u8; 32]);
    let nonce = [9u8; 12];
    let file = store.seal_with_nonce(&nonce, b"abc").unwrap();
    assert_eq!(file.len(), 12 + 3 + 16);
    assert_eq!(&file[..12], &nonce);
    assert_ne!(&file[12..15], b"abc");
    assert_eq!(store.load(Some(&file)).unwrap(), b"abc".to_vec());
}

#[test]
fn sealing_with_one_nonce_is_repeatable() {
    let store = EncryptedStore::new_test([7u8; 32]);
    let nonce = [3u8; 12];
    let first = store.seal_with_nonce(&nonce, b"same").unwrap();
    let second = store.seal_with_nonce(&nonce, b"same").unwrap();
    assert_eq!(first, second);
}

#[test]
fn saving_twice_takes_fresh_nonces() {
    let store = EncryptedStore::new_test([7u8; 32]);
    let first = store.save(b"same").unwrap();
    let second = store.save(b"same").unwrap();
    assert_ne!(first[..12], second[..12]);
}

#[test]
fn tampered_file_is_refused() {
    let store = EncryptedStore::new_test([7u8; 32]);
    let mut file = store.save(b"payload").unwrap();
    let last = file.len() - 1;
    file[last] ^= 1;
    assert_eq!(store.load(Some(&file)).unwrap_err(), StoreError::Decryption);
}

#[test]
fn file_of_twelve_bytes_has_no_tag() {
    let store = EncryptedStore::new_test([7u8; 32]);
    assert_eq!(store.load(Some(&[0u8; 11])).unwrap_err(), StoreError::InvalidDataFormat);
    assert_eq!(store.load(Some(&[0u8; 12])).unwrap_err(), StoreError::Decryption);
}

#[test]
fn key_from_hex_round_trip() {
    let hex = "0102030405060708090a0b0c0d0e0f101112131415161718191A1B1C1D1E1F20";
    let store = EncryptedStore::from_key_hex(hex).unwrap();
    let mut key = [0u8; 32];
    for i in 0..32 {
        key[i] = (i + 1) as u8;
    }
    let same = EncryptedStore::new_test(key);
    let file = store.seal_with_nonce(&[0u8; 12], b"x").unwrap();
    assert_eq!(file, same.seal_with_nonce(&[0u8; 12], b"x").unwrap());
}

#[test]
fn key_from_hex_errors() {
    assert_eq!(EncryptedStore::from_key_hex("zz").err(), Some(StoreError::InvalidKeyEncoding));
    assert_eq!(EncryptedStore::from_key_hex("abc").err(), Some(StoreError::InvalidKeyEncoding));
    assert_eq!(EncryptedStore::from_key_hex("abcd").err(), Some(StoreError::InvalidKeyLength));
    assert_eq!(EncryptedStore::from_key_hex("").err(), Some(StoreError::InvalidKeyLength));
}

#[test]
fn generated_key_is_accepted() {
    let hex = EncryptedStore::generate_key_hex();
    assert_eq!(hex.len(), 64);
    assert!(hex.chars().all(|c| c.is_ascii_digit() || ('a'..='f').contains(&c)));
    assert!(EncryptedStore::from_key_hex(&hex).is_ok());
    assert_ne!(hex, EncryptedStore::generate_key_hex());
}

#[test]
fn store_error_messages() {
    assert_eq!(StoreError::Encryption.message(), "aead::Error");
    assert_eq!(StoreError::Decryption.message(), "aead::Error");
    assert_eq!(StoreError::InvalidKeyEncoding.message(), "Invalid key encoding");
    assert_eq!(StoreError::InvalidKeyLength.message(), "Invalid key length");
}

#[test]
fn sealed_file_is_28_bytes_longer_than_the_data() {
    let store = EncryptedStore::new_test([7u8; 32]);
    for data in [&b""[..], &b"a"[..], &[0u8; 1000][..]] {
        let file = store.save(data).expect("data of this length is sealed");
        assert_eq!(file.len(), data.len() + 28);
        assert_eq!(store.load(Some(&file)).unwrap(), data);
    }
}

#[test]
fn file_too_short_for_a_tag_is_not_opened() {
    let store = EncryptedStore::new_test([7u8; 32]);
    assert_eq!(store.load(Some(&[0u8; 12])).err(), Some(StoreError::Decryption));
    assert_eq!(store.load(Some(&[0u8; 27])).err(), Some(StoreError::Decryption));
}

#[test]
fn generated_key_is_written_in_lower_case() {
    let hex = EncryptedStore::generate_key_hex();
    assert_eq!(hex.len(), 64);
    assert!(hex.chars().all(|c| c.is_ascii_digit() || ('a'..='f').contains(&c)));
}
