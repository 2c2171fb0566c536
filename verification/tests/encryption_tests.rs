use rastos::backup::encryption::{
    decrypt_data, encrypt_data, encrypt_with_nonce, AesGcmEncryption, EncryptionError,
    EncryptionProvider, NoOpEncryption, CHUNK_SIZE, NONCE_SIZE, SEGMENT_SIZE, TAG_SIZE,
};

#[test]
fn test_encryption_decryption() {
    let key = b"0123456789abcdef0123456789abcdef"; // 32 bytes
    let data = b"Hello, world! This is a test.";

    // Encrypt
    let encrypted = encrypt_data(data, key).unwrap();
    assert_ne!(encrypted, data);
    assert!(encrypted.len() > data.len());

    // Decrypt
    let decrypted = decrypt_data(&encrypted, key).unwrap();
    assert_eq!(decrypted, data);
}

#[test]
fn test_encryption_provider() {
    let key = AesGcmEncryption::generate_key().unwrap();
    let provider = AesGcmEncryption::new(key);
    let data = b"Test data for encryption".to_vec();

    let encrypted = provider.encrypt(&data).unwrap();
    assert_ne!(encrypted, data);

    let decrypted = provider.decrypt(&encrypted).unwrap();
    assert_eq!(decrypted, data);
}

fn hex(s: &str) -> Vec<u8> {
    (0..s.len() / 2).map(|i| u8::from_str_radix(&s[2 * i..2 * i + 2], 16).unwrap()).collect()
}

#[test]
fn sealing_matches_a_known_answer() {
    // AES-256-GCM with an all-zero key and nonce.
    let key = [0u8; 32];
    let nonce = [0u8; 12];
    let sealed = encrypt_with_nonce(b"", &key, &nonce).unwrap();
    assert_eq!(sealed, hex("000000000000000000000000530f8afbc74536b9a963b4f1c4cb738b"));
    let sealed = encrypt_with_nonce(&[0u8; 16], &key, &nonce).unwrap();
    assert_eq!(
        sealed,
        hex("000000000000000000000000cea7403d4d606b6e074ec5d3baf39d18d0d1c8a799996bf0265b98b5d48ab919")
    );
    assert_eq!(decrypt_data(&sealed, &key).unwrap(), vec![0u8; 16]);
}

#[test]
fn segment_is_nonce_then_cipher_output() {
    let key = [7u8; 32];
    let nonce = [9u8; 12];
    let sealed = encrypt_with_nonce(b"abc", &key, &nonce).unwrap();
    assert_eq!(sealed.len(), 3 + NONCE_SIZE + TAG_SIZE);
    assert_eq!(&sealed[..NONCE_SIZE], &nonce);
    assert_ne!(&sealed[NONCE_SIZE..NONCE_SIZE + 3], b"abc");
}

#[test]
fn fresh_nonce_for_every_sealing() {
    let key = [1u8; 32];
    let a = encrypt_data(b"same", &key).unwrap();
    let b = encrypt_data(b"same", &key).unwrap();
    assert_ne!(a[..NONCE_SIZE], b[..NONCE_SIZE]);
    assert_ne!(a, b);
}

#[test]
fn wrong_key_length_is_refused() {
    assert_eq!(encrypt_data(b"x", &[0u8; 31]), Err(EncryptionError::KeyLength));
    assert_eq!(encrypt_data(b"x", &[0u8; 33]), Err(EncryptionError::KeyLength));
    assert_eq!(decrypt_data(&[0u8; 40], &[0u8; 16]), Err(EncryptionError::KeyLength));
    assert!(matches!(AesGcmEncryption::from_key_bytes(&[0u8; 31]), Err(EncryptionError::KeyLength)));
}

#[test]
fn short_and_tampered_data_is_refused() {
    let key = [3u8; 32];
    assert_eq!(decrypt_data(&[0u8; 11], &key), Err(EncryptionError::TooShort));
    // The too-short check comes before the key check.
    assert_eq!(decrypt_data(&[0u8; 11], &[0u8; 5]), Err(EncryptionError::TooShort));
    assert_eq!(decrypt_data(&[0u8; 12], &key), Err(EncryptionError::Cipher));
    let mut sealed = encrypt_data(b"payload", &key).unwrap();
    let last = sealed.len() - 1;
    sealed[last] ^= 1;
    assert_eq!(decrypt_data(&sealed, &key), Err(EncryptionError::Cipher));
    let sealed = encrypt_data(b"payload", &key).unwrap();
    assert_eq!(decrypt_data(&sealed, &[4u8; 32]), Err(EncryptionError::Cipher));
}

#[test]
fn empty_payload_round_trips() {
    let provider = AesGcmEncryption::new([5u8; 32]);
    let sealed = provider.encrypt(b"").unwrap();
    assert_eq!(sealed.len(), NONCE_SIZE + TAG_SIZE);
    assert_eq!(provider.decrypt(&sealed).unwrap(), Vec::<u8>::new());
}

#[test]
fn round_trip_up_to_one_step() {
    let provider = AesGcmEncryption::new([6u8; 32]);
    for len in [
        1usize,
        1007,
        1008,
        1023,
        1024,
        1025,
        4096,
        CHUNK_SIZE - TAG_SIZE,
        CHUNK_SIZE - TAG_SIZE + 1,
        CHUNK_SIZE - 1,
        CHUNK_SIZE,
    ] {
        let data: Vec<u8> = (0..len).map(|i| (i % 251) as u8).collect();
        let sealed = provider.encrypt(&data).unwrap();
        assert_eq!(sealed.len(), len + NONCE_SIZE + TAG_SIZE);
        assert!(sealed.len() <= SEGMENT_SIZE);
        assert_ne!(sealed, data);
        assert_eq!(provider.decrypt(&sealed).unwrap(), data);
    }
}

#[test]
fn long_payload_is_sealed_chunk_by_chunk() {
    let provider = AesGcmEncryption::new([8u8; 32]);
    let data = vec![0xabu8; 2 * CHUNK_SIZE + 10];
    let sealed = provider.encrypt(&data).unwrap();
    assert_eq!(sealed.len(), data.len() + 3 * (NONCE_SIZE + TAG_SIZE));
    // Every segment opens on its own.
    let seg = CHUNK_SIZE + NONCE_SIZE + TAG_SIZE;
    let key = provider.key_bytes();
    assert_eq!(decrypt_data(&sealed[..seg], &key).unwrap(), vec![0xabu8; CHUNK_SIZE]);
    assert_eq!(decrypt_data(&sealed[seg..2 * seg], &key).unwrap(), vec![0xabu8; CHUNK_SIZE]);
    assert_eq!(decrypt_data(&sealed[2 * seg..], &key).unwrap(), vec![0xabu8; 10]);
}

#[test]
fn round_trip_over_more_than_one_chunk() {
    let provider = AesGcmEncryption::new([2u8; 32]);
    for len in [
        CHUNK_SIZE + 1,
        CHUNK_SIZE + NONCE_SIZE,
        CHUNK_SIZE + NONCE_SIZE + TAG_SIZE,
        2 * CHUNK_SIZE - 1,
        2 * CHUNK_SIZE,
        2 * CHUNK_SIZE + 1,
        3 * CHUNK_SIZE + 777,
        5 * CHUNK_SIZE,
    ] {
        let data: Vec<u8> = (0..len).map(|i| (i % 253) as u8).collect();
        let sealed = provider.encrypt(&data).unwrap();
        let segments = (len + CHUNK_SIZE - 1) / CHUNK_SIZE;
        assert_eq!(sealed.len(), len + segments * (NONCE_SIZE + TAG_SIZE));
        assert_ne!(sealed, data);
        assert_eq!(provider.decrypt(&sealed).unwrap(), data);
    }
}

#[test]
fn opening_walks_by_whole_segments() {
    assert_eq!(SEGMENT_SIZE, CHUNK_SIZE + NONCE_SIZE + TAG_SIZE);
    // Two segments, the first of a full chunk, are opened one after the other.
    let key = [11u8; 32];
    let provider = AesGcmEncryption::new(key);
    let first = vec![1u8; CHUNK_SIZE];
    let second = vec![2u8; 100];
    let mut data = encrypt_data(&first, &key).unwrap();
    assert_eq!(data.len(), SEGMENT_SIZE);
    data.extend_from_slice(&encrypt_data(&second, &key).unwrap());
    let mut expect = first.clone();
    expect.extend_from_slice(&second);
    assert_eq!(provider.decrypt(&data).unwrap(), expect);
    // A segment that was cut short, or changed, does not open.
    let sealed = provider.encrypt(&vec![7u8; CHUNK_SIZE + 5]).unwrap();
    assert_eq!(provider.decrypt(&sealed[..sealed.len() - 1]), Err(EncryptionError::Cipher));
    let mut changed = sealed.clone();
    changed[SEGMENT_SIZE + NONCE_SIZE] ^= 1;
    assert_eq!(provider.decrypt(&changed), Err(EncryptionError::Cipher));
    let mut changed = sealed.clone();
    changed[20] ^= 1;
    assert_eq!(provider.decrypt(&changed), Err(EncryptionError::Cipher));
    // Under another key nothing opens.
    let other = AesGcmEncryption::new([3u8; 32]);
    assert_eq!(other.decrypt(&sealed), Err(EncryptionError::Cipher));
}

#[test]
fn no_op_provider_stores_payloads_as_they_are() {
    let provider = NoOpEncryption;
    assert_eq!(provider.encrypt(b"plain").unwrap(), b"plain".to_vec());
    assert_eq!(provider.decrypt(b"plain").unwrap(), b"plain".to_vec());
}

#[test]
fn key_file_round_trip() {
    let key = AesGcmEncryption::generate_key().unwrap();
    let provider = AesGcmEncryption::new(key);
    let bytes = provider.key_bytes();
    assert_eq!(bytes, key.to_vec());
    let again = AesGcmEncryption::from_key_bytes(&bytes).unwrap();
    let sealed = provider.encrypt(b"x").unwrap();
    assert_eq!(again.decrypt(&sealed).unwrap(), b"x".to_vec());
    assert_ne!(AesGcmEncryption::generate_key().unwrap(), key);
}
