//! The cipher, the hashing boundary and the secret configuration.

use auth_core::codec::{symmetric_decrypt, symmetric_encrypt, CryptoError};
use auth_core::config::AuthConfig;
use auth_core::error_handler::CustomError;
use auth_core::hashing::bcrypt;
use auth_core::users::{MaybeUser, UserDirectory};

fn key() -> Vec<u8> {
    b"0123456789abcdef0123456789abcdef".to_vec()
}

fn iv() -> Vec<u8> {
    b"0123456789abcdef".to_vec()
}

#[test]
fn test_encrypt_decrypt_round_trip() {
    let messages: Vec<&[u8]> = vec![
        b"",
        b"a",
        b"alice$p1",
        b"exactly sixteen!",
        b"a longer message that spans several cipher blocks and then some more",
    ];
    for message in messages {
        let ciphertext =
            symmetric_encrypt(message, &key(), &iv()).expect("encryption must succeed");
        // The engine emits whole blocks, with padding growing every
        // non-empty message past its own length.
        assert_eq!(ciphertext.len() % 16, 0);
        if !message.is_empty() {
            assert_eq!(ciphertext.len(), (message.len() / 16 + 1) * 16);
        }
        let plaintext =
            symmetric_decrypt(&ciphertext, &key(), &iv()).expect("decryption must succeed");
        assert_eq!(plaintext, message);
    }
}

#[test]
fn test_cipher_rejects_bad_operand_sizes() {
    let short_key = vec![0u8; 31];
    let short_iv = vec![0u8; 15];
    assert_eq!(
        symmetric_encrypt(b"data", &short_key, &iv()).expect_err("31-byte key must fail"),
        CryptoError::InvalidLength
    );
    assert_eq!(
        symmetric_encrypt(b"data", &key(), &short_iv).expect_err("15-byte IV must fail"),
        CryptoError::InvalidLength
    );
    assert_eq!(
        symmetric_decrypt(b"0123456789abcdef", &short_key, &iv())
            .expect_err("31-byte key must fail"),
        CryptoError::InvalidLength
    );
}

#[test]
fn test_empty_password_rejected() {
    let err = bcrypt(b"").expect_err("an empty password must be rejected, not crash");
    assert_eq!(err, "Password is empty");
    let mut dir = UserDirectory::new();
    let create_err = dir
        .create(MaybeUser { username: String::from("alice"), password: String::new() }, 0)
        .expect_err("an empty password must be rejected");
    assert_eq!(create_err.error_status_code, 400);
    assert_eq!(create_err.error_message, "Password is empty");
    let alice = dir
        .create(MaybeUser { username: String::from("alice"), password: String::from("p1") }, 0)
        .expect("create must succeed");
    let update_err = dir
        .update(alice.id, MaybeUser { username: String::from("alice"), password: String::new() }, 1)
        .expect_err("an empty password must be rejected");
    assert_eq!(update_err.error_status_code, 400);
    assert_eq!(update_err.error_message, "Password is empty");
}

#[test]
fn test_forged_padding_is_an_error_not_a_crash() {
    // Build single-block ciphertexts whose raw CBC plaintext is 16 equal
    // bytes: encrypting that block makes its own ciphertext the first block
    // of the output.  A final byte above the block size, or zero, must come
    // back as a padding error, never a panic.
    for fill in [0x11u8, 0x00u8, 0xFFu8] {
        let block = [fill; 16];
        let full = symmetric_encrypt(&block, &key(), &iv()).expect("encryption must succeed");
        let forged = full[..16].to_vec();
        assert_eq!(
            symmetric_decrypt(&forged, &key(), &iv())
                .expect_err("forged padding must be rejected"),
            CryptoError::InvalidPadding
        );
    }
}

#[test]
fn test_decrypt_rejects_broken_ciphertext() {
    // Not a multiple of the block size.
    assert!(symmetric_decrypt(&[1u8, 2, 3], &key(), &iv()).is_err());
    // A full block that was never produced by the cipher: padding cannot
    // check out, and the failure is an error, not a crash.
    let ciphertext = symmetric_encrypt(b"alice$p1", &key(), &iv()).expect("must succeed");
    let mut broken = ciphertext.clone();
    let last = broken.len() - 1;
    broken[last] ^= 0xFF;
    assert!(symmetric_decrypt(&broken, &key(), &iv()).is_err());
}

#[test]
fn test_password_length_boundary() {
    let at_limit = vec![b'x'; 72];
    let over_limit = vec![b'x'; 73];
    let hashed = bcrypt(&at_limit).expect("72 bytes must be accepted");
    assert_eq!(hashed.len(), 40);
    let err = bcrypt(&over_limit).expect_err("73 bytes must be rejected");
    assert_eq!(err, "Password is too long");
}

#[test]
fn test_create_password_length_boundary() {
    let mut dir = UserDirectory::new();
    let ok = dir.create(
        MaybeUser { username: String::from("alice"), password: "x".repeat(72) },
        0,
    );
    assert!(ok.is_ok());
    let err = dir
        .create(MaybeUser { username: String::from("bob"), password: "x".repeat(73) }, 0)
        .expect_err("73 bytes must be rejected");
    assert_eq!(err.error_status_code, 400);
    assert_eq!(err.error_message, "Password is too long");
}

#[test]
fn test_hashing_is_salted() {
    // Two hashes of the same password differ because each draws fresh salt.
    let first = bcrypt(b"p1").expect("must succeed");
    let second = bcrypt(b"p1").expect("must succeed");
    assert_ne!(first, second);
}

#[test]
fn test_error_messages_masked_above_client_range() {
    let (code, message) = CustomError::new(409, String::from("Username is already taken"))
        .response_parts();
    assert_eq!(code, 409);
    assert_eq!(message, "Username is already taken");
    let (code, message) = CustomError::new(500, String::from("db exploded")).response_parts();
    assert_eq!(code, 500);
    assert_eq!(message, "Internal server error");
    // A status outside the well-formed client range is masked as well.
    let (code, message) = CustomError::new(42, String::from("odd")).response_parts();
    assert_eq!(code, 42);
    assert_eq!(message, "Internal server error");
}

#[test]
fn test_secret_length_is_enforced() {
    // The secret never gets a Debug form, so take the error apart by hand.
    match AuthConfig::new(vec![7u8; 47]) {
        Err(e) => assert_eq!(e.error_status_code, 500),
        Ok(_) => panic!("47 bytes must be rejected"),
    }
    assert!(AuthConfig::new(vec![7u8; 48]).is_ok());
}
