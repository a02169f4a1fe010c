//! Tests for the encryption/authentication pipeline.

use rand::RngCore;
use steelsafe::aad::Timestamp;
use steelsafe::crypto::{
    encrypt_then_decrypt, DecryptionInput, EncryptionInput, NONCE_LEN, RECOMMENDED_SALT_LEN,
};
use steelsafe::error::Error;
use steelsafe::pad::PADDING_BLOCK_SIZE;

fn test_timestamp() -> Timestamp {
    Timestamp { year: 2024, month: 6, day: 15, hour: 12, minute: 30, second: 45 }
}

fn random_password(rng: &mut impl RngCore) -> Vec<u8> {
    let len = 8 + (rng.next_u32() as usize) % 56;
    let mut password = vec![0u8; len];
    rng.fill_bytes(&mut password);
    password
}

fn test_payloads(rng: &mut impl RngCore) -> Vec<Vec<u8>> {
    let p0 = vec![]; // empty payload edge case
    let mut p1 = vec![0_u8; PADDING_BLOCK_SIZE - 1];
    let mut p2 = vec![0_u8; PADDING_BLOCK_SIZE];
    let mut p3 = vec![0_u8; PADDING_BLOCK_SIZE + 1];

    rng.fill_bytes(&mut p1);
    rng.fill_bytes(&mut p2);
    rng.fill_bytes(&mut p3);

    vec![p0, p1, p2, p3]
}

#[test]
fn correct_encryption_and_decryption_succeeds() -> Result<(), Error> {
    let timestamp = test_timestamp();
    let mut rng = rand::thread_rng();

    for payload in test_payloads(&mut rng) {
        let password = random_password(&mut rng);
        let encryption_input = EncryptionInput {
            plaintext_secret: payload.clone(),
            label: b"the precise label does not matter".to_vec(),
            account: Some(b"my uninteresting account name".to_vec()),
            last_modified_at: timestamp,
        };

        let output = encryption_input.encrypt_and_authenticate(&password)?;
        let decryption_input = DecryptionInput {
            encrypted_secret: output.encrypted_secret.clone(),
            kdf_salt: output.kdf_salt,
            auth_nonce: output.auth_nonce,
            label: encryption_input.label.clone(),
            account: encryption_input.account.clone(),
            last_modified_at: timestamp,
        };
        let decrypted_secret = decryption_input.decrypt_and_verify(&password)?;

        assert_eq!(decrypted_secret.as_slice(), payload.as_slice());
    }

    Ok(())
}

#[test]
fn incorrect_password_fails_decryption() -> Result<(), Error> {
    let timestamp = test_timestamp();
    let mut rng = rand::thread_rng();

    for payload in test_payloads(&mut rng) {
        let password = random_password(&mut rng);
        let encryption_input = EncryptionInput {
            plaintext_secret: payload.clone(),
            label: b"the precise label does not matter".to_vec(),
            account: Some(b"my uninteresting account name".to_vec()),
            last_modified_at: timestamp,
        };

        let output = encryption_input.encrypt_and_authenticate(&password)?;
        let decryption_input = DecryptionInput {
            encrypted_secret: output.encrypted_secret.clone(),
            kdf_salt: output.kdf_salt,
            auth_nonce: output.auth_nonce,
            label: encryption_input.label.clone(),
            account: encryption_input.account.clone(),
            last_modified_at: timestamp,
        };

        let wrong_password = b"this is NOT the right password!";
        let result = decryption_input.decrypt_and_verify(wrong_password);

        assert!(
            matches!(result, Err(Error::AuthenticationFailed)),
            "unexpected result: {:#?}",
            result,
        );
    }

    Ok(())
}

#[test]
fn altered_additional_data_fails_verification() -> Result<(), Error> {
    let timestamp = test_timestamp();
    let mut rng = rand::thread_rng();

    for payload in test_payloads(&mut rng) {
        let password = random_password(&mut rng);
        let encryption_input = EncryptionInput {
            plaintext_secret: payload.clone(),
            label: b"the precise label does not matter".to_vec(),
            account: Some(b"my uninteresting account name".to_vec()),
            last_modified_at: timestamp,
        };

        let output = encryption_input.encrypt_and_authenticate(&password)?;

        // Case #1: the account is altered (None instead of Some)
        {
            let decryption_input = DecryptionInput {
                encrypted_secret: output.encrypted_secret.clone(),
                kdf_salt: output.kdf_salt,
                auth_nonce: output.auth_nonce,
                label: encryption_input.label.clone(),
                account: None,
                last_modified_at: timestamp,
            };

            let result = decryption_input.decrypt_and_verify(&password);

            assert!(
                matches!(result, Err(Error::AuthenticationFailed)),
                "unexpected result: {:#?}",
                result,
            );
        }

        // Case #2: the label is (slightly) altered
        {
            let decryption_input = DecryptionInput {
                encrypted_secret: output.encrypted_secret.clone(),
                kdf_salt: output.kdf_salt,
                auth_nonce: output.auth_nonce,
                label: encryption_input.label[1..].to_vec(),
                account: encryption_input.account.clone(),
                last_modified_at: timestamp,
            };

            let result = decryption_input.decrypt_and_verify(&password);

            assert!(
                matches!(result, Err(Error::AuthenticationFailed)),
                "unexpected result: {:#?}",
                result,
            );
        }

        // Case #3: the last modification date is tampered with
        {
            let earlier = Timestamp { day: timestamp.day - 1, ..timestamp };
            let decryption_input = DecryptionInput {
                encrypted_secret: output.encrypted_secret.clone(),
                kdf_salt: output.kdf_salt,
                auth_nonce: output.auth_nonce,
                label: encryption_input.label.clone(),
                account: encryption_input.account.clone(),
                last_modified_at: earlier,
            };

            let result = decryption_input.decrypt_and_verify(&password);

            assert!(
                matches!(result, Err(Error::AuthenticationFailed)),
                "unexpected result: {:#?}",
                result,
            );
        }
    }

    Ok(())
}

#[test]
fn tampered_ciphertext_fails_decryption() -> Result<(), Error> {
    let timestamp = test_timestamp();
    let password = b"a passable password".to_vec();
    let encryption_input = EncryptionInput {
        plaintext_secret: b"the secret under test".to_vec(),
        label: b"tamper target".to_vec(),
        account: None,
        last_modified_at: timestamp,
    };
    let output = encryption_input.encrypt_and_authenticate(&password)?;

    let len = output.encrypted_secret.len();
    // Flip one byte at the front, in the middle, at the tag boundary and at
    // the very end; each flip must break authentication.
    for &position in &[0, len / 2, len - 17, len - 1] {
        let mut corrupted = output.encrypted_secret.clone();
        corrupted[position] ^= 0x01;
        let decryption_input = DecryptionInput {
            encrypted_secret: corrupted,
            kdf_salt: output.kdf_salt,
            auth_nonce: output.auth_nonce,
            label: encryption_input.label.clone(),
            account: None,
            last_modified_at: timestamp,
        };
        let result = decryption_input.decrypt_and_verify(&password);
        assert!(
            matches!(result, Err(Error::AuthenticationFailed)),
            "flipping byte {} went unnoticed: {:#?}",
            position,
            result,
        );
    }

    Ok(())
}

#[test]
fn fresh_salt_nonce_and_ciphertext_every_time() -> Result<(), Error> {
    let timestamp = test_timestamp();
    let password = b"one fixed password".to_vec();
    let encryption_input = EncryptionInput {
        plaintext_secret: b"identical plaintext".to_vec(),
        label: b"identical label".to_vec(),
        account: Some(b"identical account".to_vec()),
        last_modified_at: timestamp,
    };

    let first = encryption_input.encrypt_and_authenticate(&password)?;
    let second = encryption_input.encrypt_and_authenticate(&password)?;

    assert_ne!(first.kdf_salt, second.kdf_salt);
    assert_ne!(first.auth_nonce, second.auth_nonce);
    assert_ne!(first.encrypted_secret, second.encrypted_secret);

    Ok(())
}

#[test]
fn ciphertext_has_documented_shape() -> Result<(), Error> {
    let timestamp = test_timestamp();
    let password = b"shape checking password".to_vec();

    // Plaintext lengths around the block boundary: the ciphertext is the
    // padded length (always the next multiple of 256 strictly above the
    // plaintext length) plus the 16-byte authentication tag.
    for (plaintext_len, padded_len) in [(0, 256), (255, 256), (256, 512), (257, 512)] {
        let encryption_input = EncryptionInput {
            plaintext_secret: vec![0x41; plaintext_len],
            label: b"shape".to_vec(),
            account: None,
            last_modified_at: timestamp,
        };
        let output = encryption_input.encrypt_and_authenticate(&password)?;
        assert_eq!(output.encrypted_secret.len(), padded_len + 16);
        assert_eq!(output.kdf_salt.len(), RECOMMENDED_SALT_LEN);
        assert_eq!(output.auth_nonce.len(), NONCE_LEN);
    }

    Ok(())
}

#[test]
fn concrete_scenario_round_trips() -> Result<(), Error> {
    let timestamp = Timestamp { year: 2024, month: 1, day: 1, hour: 0, minute: 0, second: 0 };
    let password = b"correcthorse".to_vec();
    let encryption_input = EncryptionInput {
        plaintext_secret: b"hunter2".to_vec(),
        label: b"email".to_vec(),
        account: Some(b"bob@example.com".to_vec()),
        last_modified_at: timestamp,
    };

    let output = encryption_input.encrypt_and_authenticate(&password)?;
    assert_eq!(output.kdf_salt.len(), 16);
    assert_eq!(output.auth_nonce.len(), 24);

    let decryption_input = DecryptionInput {
        encrypted_secret: output.encrypted_secret.clone(),
        kdf_salt: output.kdf_salt,
        auth_nonce: output.auth_nonce,
        label: b"email".to_vec(),
        account: Some(b"bob@example.com".to_vec()),
        last_modified_at: timestamp,
    };
    let plaintext = decryption_input.decrypt_and_verify(&password)?;
    assert_eq!(plaintext.as_slice(), b"hunter2");

    let altered_account = DecryptionInput {
        encrypted_secret: output.encrypted_secret.clone(),
        kdf_salt: output.kdf_salt,
        auth_nonce: output.auth_nonce,
        label: b"email".to_vec(),
        account: Some(b"alice@example.com".to_vec()),
        last_modified_at: timestamp,
    };
    let result = altered_account.decrypt_and_verify(&password);
    assert!(matches!(result, Err(Error::AuthenticationFailed)), "unexpected: {:#?}", result);

    Ok(())
}

#[test]
fn round_trip_law_on_concrete_values() {
    let input = EncryptionInput {
        plaintext_secret: b"0\x01 multi\nline secret".to_vec(),
        label: b"law check".to_vec(),
        account: Some(b"who@where".to_vec()),
        last_modified_at: test_timestamp(),
    };
    let plaintext = encrypt_then_decrypt(&input, b"the password").expect("round trip is owed");
    assert_eq!(plaintext, input.plaintext_secret);
}
