//! Key derivation, encryption, and authentication.
//!
//! The pipeline pads the plaintext secret, generates a fresh random salt and
//! nonce internally, derives a key from the password and salt, binds the
//! item's metadata as associated data, and seals everything with an AEAD
//! cipher.  Decryption reverses the steps; wrong password, tampered
//! metadata and tampered ciphertext are indistinguishable failures.

use vstd::prelude::*;

use crate::aad::{aad_bytes, build_aad, Timestamp};
use crate::error::Error;
use crate::pad::{pad, pad_spec, unpad, unpad_spec, PADDING_BLOCK_SIZE};

use chacha20poly1305::aead::{Aead, KeyInit, Payload};
use chacha20poly1305::{XChaCha20Poly1305, XNonce};
use zeroize::Zeroize;

verus! {

/// The length of the per-item password salt, in bytes.
pub const RECOMMENDED_SALT_LEN: usize = 16;

/// The length of the per-item authentication nonce, in bytes.
pub const NONCE_LEN: usize = 24;

/// The length of the derived symmetric key, in bytes: the AEAD cipher's
/// key size.
pub const KEY_LEN: usize = 32;

/// The length of the authentication tag that the AEAD cipher appends to
/// the ciphertext, in bytes.
pub const AEAD_TAG_LEN: usize = 16;

/// The longest password the key derivation function accepts, in bytes.
pub const MAX_PASSWORD_LEN: usize = 0xFFFF_FFFF;

/// The AEAD cipher refuses messages of this many bytes or more (the cipher
/// processes at most 2^32 - 1 blocks of 64 bytes).
pub open spec fn aead_msg_limit() -> int {
    0x3F_FFFF_FFC0
}

/// The longest plaintext secret the pipeline accepts: far below the AEAD
/// message limit even after padding.
pub const PLAINTEXT_MAX: usize = 0xFFFF_0000;

/// What the Argon2id password hash returns for a password and salt.  The
/// result is a function of the two arguments alone (the remaining
/// parameters are build-time constants of the pipeline).
pub uninterp spec fn argon2_key(password: Seq<u8>, salt: Seq<u8>) -> Seq<u8>;

/// What sealing a message with the AEAD cipher returns: the encrypted
/// message with its authentication tag appended, a function of the key,
/// nonce, associated data and message alone.
pub uninterp spec fn aead_seal(key: Seq<u8>, nonce: Seq<u8>, aad: Seq<u8>, msg: Seq<u8>) -> Seq<
    u8,
>;

/// Relies on `argon2::Argon2::hash_password_into` with the crate's default
/// parameters (Argon2id, version 0x13, 19 MiB memory, 2 iterations, 1 lane):
/// it fills the 32-byte output with a hash that is a function of password
/// and salt alone, and errors only on a password longer than 2^32 - 1 bytes
/// or a salt outside 8..=2^32 - 1 bytes, both excluded here.
#[verifier::external_body]
fn derive_key(password: &[u8], salt: &[u8]) -> (r: Result<Vec<u8>, Error>)
    requires
        password@.len() <= MAX_PASSWORD_LEN,
        8 <= salt@.len() <= 0xFFFF_FFFF,
    ensures
        r matches Ok(key) ==> key@ == argon2_key(password@, salt@) && key@.len() == KEY_LEN,
        r is Ok,
{
    let mut key = vec![0u8; KEY_LEN];
    match argon2::Argon2::default().hash_password_into(password, salt, &mut key) {
        Ok(()) => Ok(key),
        Err(_) => Err(Error::Hashing),
    }
}

/// Relies on `chacha20poly1305::XChaCha20Poly1305` (built with
/// `KeyInit::new_from_slice`, then `Aead::encrypt`): the ciphertext is the
/// encrypted message with a 16-byte tag appended, a function of key, nonce,
/// associated data and message alone; with a 32-byte key and a 24-byte
/// nonce the only failure is a message at or above the cipher's block
/// limit, excluded here.
#[verifier::external_body]
fn aead_encrypt(key: &[u8], nonce: &[u8], aad_data: &[u8], msg: &[u8]) -> (r: Result<
    Vec<u8>,
    Error,
>)
    requires
        key@.len() == KEY_LEN,
        nonce@.len() == NONCE_LEN,
        msg@.len() < aead_msg_limit(),
    ensures
        r matches Ok(ct) ==> ct@ == aead_seal(key@, nonce@, aad_data@, msg@) && ct@.len()
            == msg@.len() + AEAD_TAG_LEN,
        r is Ok,
{
    let cipher = match XChaCha20Poly1305::new_from_slice(key) {
        Ok(cipher) => cipher,
        Err(_) => return Err(Error::AuthenticationFailed),
    };
    let payload = Payload { msg, aad: aad_data };
    match cipher.encrypt(XNonce::from_slice(nonce), payload) {
        Ok(ciphertext) => Ok(ciphertext),
        Err(_) => Err(Error::AuthenticationFailed),
    }
}

/// Relies on `chacha20poly1305::XChaCha20Poly1305` (built with
/// `KeyInit::new_from_slice`, then `Aead::decrypt`): decryption reverses
/// the deterministic keystream and verifies the appended tag, so it returns
/// exactly the message whose sealing under the same key, nonce and
/// associated data produced this ciphertext, and fails otherwise.
#[verifier::external_body]
fn aead_decrypt(key: &[u8], nonce: &[u8], aad_data: &[u8], ciphertext: &[u8]) -> (r: Result<
    Vec<u8>,
    Error,
>)
    requires
        key@.len() == KEY_LEN,
        nonce@.len() == NONCE_LEN,
    ensures
        r matches Ok(msg) ==> ciphertext@ == aead_seal(key@, nonce@, aad_data@, msg@)
            && msg@.len() + AEAD_TAG_LEN == ciphertext@.len() && msg@.len() < aead_msg_limit(),
        r is Err ==> !(exists|msg: Seq<u8>|
            #![trigger aead_seal(key@, nonce@, aad_data@, msg)]
            aead_seal(key@, nonce@, aad_data@, msg) == ciphertext@ && msg.len() + AEAD_TAG_LEN
                == ciphertext@.len() && msg.len() < aead_msg_limit()),
        r matches Ok(msg) ==> forall|other: Seq<u8>|
            #![trigger aead_seal(key@, nonce@, aad_data@, other)]
            (aead_seal(key@, nonce@, aad_data@, other) == ciphertext@ && other.len() + AEAD_TAG_LEN
                == ciphertext@.len()) ==> other == msg@,
        r matches Err(e) ==> e == Error::AuthenticationFailed,
{
    let cipher = match XChaCha20Poly1305::new_from_slice(key) {
        Ok(cipher) => cipher,
        Err(_) => return Err(Error::AuthenticationFailed),
    };
    let payload = Payload { msg: ciphertext, aad: aad_data };
    match cipher.decrypt(XNonce::from_slice(nonce), payload) {
        Ok(plaintext) => Ok(plaintext),
        Err(_) => Err(Error::AuthenticationFailed),
    }
}

/// Relies on `zeroize::Zeroize` for `Vec<u8>`: overwrites every byte,
/// including spare capacity, with zeros, then clears the vector.
#[verifier::external_body]
fn wipe(buffer: &mut Vec<u8>)
    ensures
        final(buffer)@.len() == 0,
{
    buffer.zeroize();
}

/// Relies on `rand::random`, which draws from a fresh thread-local CSPRNG;
/// nothing can be promised of the value itself.
pub assume_specification<T>[ rand::random::<T> ]() -> (r: T)
    where
        rand::distributions::Standard: rand::distributions::Distribution<T>,
;

/// The view of an optional byte-string field.
pub open spec fn opt_view(account: Option<Vec<u8>>) -> Option<Seq<u8>> {
    match account {
        Option::None => None,
        Option::Some(v) => Some(v@),
    }
}

/// Holds exactly when `ct` is what the whole pipeline seals `plaintext`
/// into for this metadata, password, salt and nonce: the padded plaintext,
/// encrypted under the key derived from password and salt, with the
/// canonical metadata bytes authenticated alongside.
pub open spec fn sealed_package(
    ct: Seq<u8>,
    salt: Seq<u8>,
    nonce: Seq<u8>,
    label: Seq<u8>,
    account: Option<Seq<u8>>,
    ts: Timestamp,
    password: Seq<u8>,
    plaintext: Seq<u8>,
) -> bool {
    &&& ct == aead_seal(
        argon2_key(password, salt),
        nonce,
        aad_bytes(label, account, ts),
        pad_spec(plaintext),
    )
    &&& ct.len() == pad_spec(plaintext).len() + AEAD_TAG_LEN
    &&& pad_spec(plaintext).len() < aead_msg_limit()
}

/// The result of encrypting and authenticating the secret, and
/// authenticating the additional data, using the specified password.  The
/// salt for the key derivation function and the nonce for the cipher are
/// generated _inside_ the encryption call, so that fresh, cryptographically
/// strong random values are guaranteed and accidental re-use is prevented;
/// the call must therefore hand them back as well.
#[derive(Debug, Clone)]
pub struct EncryptionOutput {
    /// The already-encrypted and authenticated secret.
    pub encrypted_secret: Vec<u8>,
    /// The randomly-generated salt, used for seeding the KDF.
    pub kdf_salt: [u8; RECOMMENDED_SALT_LEN],
    /// The randomly-generated nonce, used for initializing the AEAD cipher.
    pub auth_nonce: [u8; NONCE_LEN],
}

/// The plain data input for encryption, except for the password.
#[derive(Debug, Clone)]
pub struct EncryptionInput {
    pub plaintext_secret: Vec<u8>,
    pub label: Vec<u8>,
    pub account: Option<Vec<u8>>,
    pub last_modified_at: Timestamp,
}

impl EncryptionInput {
    /// Encrypts and authenticates the secret, and authenticates the
    /// additional data, using a key derived from `encryption_password`.
    ///
    /// The derived key and the padded copy of the plaintext are wiped
    /// before the call returns, on every path.
    pub fn encrypt_and_authenticate(&self, encryption_password: &[u8]) -> (r: Result<
        EncryptionOutput,
        Error,
    >)
        requires
            self.plaintext_secret@.len() <= PLAINTEXT_MAX,
            self.last_modified_at.wf(),
        ensures
            r matches Ok(out) ==> {
                &&& sealed_package(
                    out.encrypted_secret@,
                    out.kdf_salt@,
                    out.auth_nonce@,
                    self.label@,
                    opt_view(self.account),
                    self.last_modified_at,
                    encryption_password@,
                    self.plaintext_secret@,
                )
                &&& out.kdf_salt@.len() == RECOMMENDED_SALT_LEN
                &&& out.auth_nonce@.len() == NONCE_LEN
            },
            r is Err <==> encryption_password@.len() > MAX_PASSWORD_LEN,
            r matches Err(e) ==> e == Error::Hashing,
    {
        if encryption_password.len() > MAX_PASSWORD_LEN {
            return Err(Error::Hashing);
        }
        // Pad the secret to a multiple of the block size.  The padded buffer
        // is allocated once at its final size and wiped before returning.
        let mut padded_secret = pad(self.plaintext_secret.as_slice());

        // Create the additional authenticated data.
        let additional_data = build_aad(
            self.label.as_slice(),
            match &self.account {
                Some(account) => Some(account.as_slice()),
                None => None,
            },
            self.last_modified_at,
        );

        // Generate random salt and nonce from a CSPRNG.
        let kdf_salt: [u8; RECOMMENDED_SALT_LEN] = rand::random();
        let auth_nonce: [u8; NONCE_LEN] = rand::random();

        // Derive the encryption key; under the length checks above this
        // cannot fail, but a failure would still wipe the padded secret.
        let mut key = match derive_key(encryption_password, kdf_salt.as_slice()) {
            Ok(key) => key,
            Err(e) => {
                wipe(&mut padded_secret);
                return Err(e);
            },
        };

        // Actually perform the encryption and authentication.
        let result = aead_encrypt(
            key.as_slice(),
            auth_nonce.as_slice(),
            additional_data.as_slice(),
            padded_secret.as_slice(),
        );
        wipe(&mut key);
        wipe(&mut padded_secret);
        match result {
            Ok(encrypted_secret) => Ok(
                EncryptionOutput { encrypted_secret, kdf_salt, auth_nonce },
            ),
            Err(e) => Err(e),
        }
    }
}

/// Plain data input for decrypting and verifying the secret, and verifying
/// the authenticity of the non-encrypted additional data.
#[derive(Debug, Clone)]
pub struct DecryptionInput {
    pub encrypted_secret: Vec<u8>,
    pub kdf_salt: [u8; RECOMMENDED_SALT_LEN],
    pub auth_nonce: [u8; NONCE_LEN],
    pub label: Vec<u8>,
    pub account: Option<Vec<u8>>,
    pub last_modified_at: Timestamp,
}

impl DecryptionInput {
    /// A message the AEAD cipher accepts for this input under `password`:
    /// sealing it with the derived key, the stored nonce and the rebuilt
    /// metadata bytes yields exactly the stored ciphertext, at matching
    /// length and within the cipher's message limit.
    pub open spec fn accepted_message(&self, password: Seq<u8>, m: Seq<u8>) -> bool {
        &&& aead_seal(
            argon2_key(password, self.kdf_salt@),
            self.auth_nonce@,
            aad_bytes(self.label@, opt_view(self.account), self.last_modified_at),
            m,
        ) == self.encrypted_secret@
        &&& m.len() + AEAD_TAG_LEN == self.encrypted_secret@.len()
        &&& m.len() < aead_msg_limit()
    }

    /// Decrypts and verifies the secret, and verifies the additional data,
    /// using a key derived from `decryption_password`.
    ///
    /// The call is a pure function of its input and the password.  If the
    /// cipher accepts some message for this input, the result is decided by
    /// that message's padding: recovered plaintext on valid padding, a
    /// distinct padding error otherwise.  If no message is accepted - wrong
    /// password, tampered metadata or tampered ciphertext - the one
    /// undifferentiated authentication failure comes back.  The derived key
    /// and the still-padded plaintext are wiped before the call returns.
    pub fn decrypt_and_verify(&self, decryption_password: &[u8]) -> (r: Result<Vec<u8>, Error>)
        ensures
            forall|pt: Seq<u8>|
                (#[trigger] sealed_package(
                    self.encrypted_secret@,
                    self.kdf_salt@,
                    self.auth_nonce@,
                    self.label@,
                    opt_view(self.account),
                    self.last_modified_at,
                    decryption_password@,
                    pt,
                ) && decryption_password@.len() <= MAX_PASSWORD_LEN) ==> (r matches Ok(p) && p@
                    == pt),
            r matches Ok(p) ==> exists|m: Seq<u8>|
                #[trigger] self.accepted_message(decryption_password@, m) && unpad_spec(m) == Some(
                    p@,
                ),
            forall|m: Seq<u8>|
                (#[trigger] self.accepted_message(decryption_password@, m)
                    && decryption_password@.len() <= MAX_PASSWORD_LEN && unpad_spec(m) is Some)
                    ==> (r matches Ok(p) && Some(p@) == unpad_spec(m)),
            forall|m: Seq<u8>|
                (#[trigger] self.accepted_message(decryption_password@, m)
                    && decryption_password@.len() <= MAX_PASSWORD_LEN && unpad_spec(m) is None)
                    ==> r == Err::<Vec<u8>, Error>(Error::Unpad),
            r == Err::<Vec<u8>, Error>(Error::Unpad) ==> exists|m: Seq<u8>|
                #[trigger] self.accepted_message(decryption_password@, m) && unpad_spec(m) is None,
            r == Err::<Vec<u8>, Error>(Error::AuthenticationFailed) ==> !(exists|m: Seq<u8>|
                #[trigger] self.accepted_message(decryption_password@, m)),
            decryption_password@.len() > MAX_PASSWORD_LEN <==> r == Err::<Vec<u8>, Error>(
                Error::Hashing,
            ),
            r matches Err(e) ==> (e == Error::Hashing || e == Error::AuthenticationFailed || e
                == Error::Unpad),
    {
        if decryption_password.len() > MAX_PASSWORD_LEN {
            return Err(Error::Hashing);
        }
        // Re-create the additional authenticated data.  This must be
        // byte-for-byte identical to the bytes bound during encryption.
        let additional_data = build_aad(
            self.label.as_slice(),
            match &self.account {
                Some(account) => Some(account.as_slice()),
                None => None,
            },
            self.last_modified_at,
        );

        // Derive the key with the same parameters as during encryption.
        let mut key = match derive_key(decryption_password, self.kdf_salt.as_slice()) {
            Ok(key) => key,
            Err(e) => {
                return Err(e);
            },
        };

        // Decrypt and verify; this fails on any mismatch of key, nonce,
        // metadata or ciphertext.
        let result = aead_decrypt(
            key.as_slice(),
            self.auth_nonce.as_slice(),
            additional_data.as_slice(),
            self.encrypted_secret.as_slice(),
        );
        wipe(&mut key);
        let mut padded_secret = match result {
            Ok(padded_secret) => padded_secret,
            Err(e) => {
                return Err(e);
            },
        };
        proof {
            // The accepted message is the one the cipher just returned.
            assert(self.accepted_message(decryption_password@, padded_secret@));
        }

        // Un-pad the decrypted plaintext; a padding failure past a passing
        // tag means internal corruption, reported distinctly.
        let unpadded = unpad(padded_secret.as_slice());
        wipe(&mut padded_secret);
        proof {
            assert forall|pt: Seq<u8>|
                (#[trigger] sealed_package(
                    self.encrypted_secret@,
                    self.kdf_salt@,
                    self.auth_nonce@,
                    self.label@,
                    opt_view(self.account),
                    self.last_modified_at,
                    decryption_password@,
                    pt,
                ) && decryption_password@.len() <= MAX_PASSWORD_LEN) implies unpad_spec(
                pad_spec(pt),
            ) == Some(pt) by {
                crate::pad::lemma_unpad_pad_roundtrip(pt);
            }
        }
        match unpadded {
            Ok(plaintext_secret) => Ok(plaintext_secret),
            Err(e) => Err(e),
        }
    }
}


/// Round-trip law: for every plaintext secret, label, optional account,
/// timestamp and password within the pipeline's limits, decrypting what
/// `encrypt_and_authenticate` produced, with the same metadata and the
/// same password, succeeds and returns exactly the original plaintext.
/// The verifier proves the postcondition from the two functions'
/// contracts alone; the body simply runs one after the other.
pub fn encrypt_then_decrypt(input: &EncryptionInput, password: &[u8]) -> (r: Result<
    Vec<u8>,
    Error,
>)
    requires
        input.plaintext_secret@.len() <= PLAINTEXT_MAX,
        input.last_modified_at.wf(),
        password@.len() <= MAX_PASSWORD_LEN,
    ensures
        r matches Ok(plaintext) ==> plaintext@ == input.plaintext_secret@,
        r is Ok,
{
    let output = match input.encrypt_and_authenticate(password) {
        Ok(output) => output,
        Err(e) => {
            return Err(e);
        },
    };
    let decryption_input = DecryptionInput {
        encrypted_secret: output.encrypted_secret,
        kdf_salt: output.kdf_salt,
        auth_nonce: output.auth_nonce,
        label: crate::bytes::copy_bytes(input.label.as_slice()),
        account: match &input.account {
            Some(account) => Some(crate::bytes::copy_bytes(account.as_slice())),
            None => None,
        },
        last_modified_at: input.last_modified_at,
    };
    proof {
        assert(sealed_package(
            decryption_input.encrypted_secret@,
            decryption_input.kdf_salt@,
            decryption_input.auth_nonce@,
            decryption_input.label@,
            opt_view(decryption_input.account),
            decryption_input.last_modified_at,
            password@,
            input.plaintext_secret@,
        ));
    }
    decryption_input.decrypt_and_verify(password)
}

} // verus!
