//! Password hashing and the stored credential envelope.
//!
//! A credential is derived from a password with a fresh random 16-byte salt
//! and a cost-10 bcrypt digest, then stored as the versioned envelope
//! `$2$10$<base64 of salt ++ digest>`.  The envelope starts with the same
//! delimiter that joins username and credential in a token plaintext, which
//! is why a full plaintext always splits into exactly five segments.

use vstd::prelude::*;

use crate::codec::{b64_enc, b64_encode};
use crate::error_handler::CustomError;
use crate::text::{count_char, lemma_count_char_concat, lemma_count_char_zero};

verus! {

/// The cost-10 bcrypt digest of `password` under `salt`: a function of its
/// arguments alone, computed by outside code.
pub uninterp spec fn bcrypt10_of(salt: Seq<u8>, password: Seq<u8>) -> Seq<u8>;

/// The scheme-and-cost prefix of a stored credential.
pub open spec fn envelope_prefix() -> Seq<char> {
    seq!['$', '2', '$', '1', '0', '$']
}

/// The credential stored for `password` when the draw of random salt came
/// out as `salt`.
pub open spec fn credential_of(salt: Seq<u8>, password: Seq<char>) -> Seq<char> {
    envelope_prefix() + b64_enc(salt + bcrypt10_of(salt, vstd::utf8::encode_utf8(password)))
}

/// A password the hasher accepts: non-empty and at most 72 bytes.
pub open spec fn password_ok(password: Seq<char>) -> bool {
    1 <= vstd::utf8::encode_utf8(password).len() <= 72
}

/// The envelope prefix holds three delimiters.
pub proof fn lemma_envelope_prefix_count()
    ensures
        count_char(envelope_prefix(), '$') == 3,
{
    reveal_with_fuel(count_char, 7);
    assert(envelope_prefix().drop_first() =~= seq!['2', '$', '1', '0', '$']);
    assert(seq!['2', '$', '1', '0', '$'].drop_first() =~= seq!['$', '1', '0', '$']);
    assert(seq!['$', '1', '0', '$'].drop_first() =~= seq!['1', '0', '$']);
    assert(seq!['1', '0', '$'].drop_first() =~= seq!['0', '$']);
    assert(seq!['0', '$'].drop_first() =~= seq!['$']);
    assert(seq!['$'].drop_first() =~= Seq::<char>::empty());
}

/// Relies on rand::rngs::OsRng and RngCore::fill_bytes (crate rand): fills
/// the buffer with 16 bytes from the operating system's randomness source.
#[verifier::external_body]
fn random_salt() -> (r: Vec<u8>)
    ensures
        r@.len() == 16,
{
    let mut salt = [0u8; 16];
    rand::RngCore::fill_bytes(&mut rand::rngs::OsRng, &mut salt);
    salt.to_vec()
}

/// Relies on crypto::bcrypt::bcrypt (crate rust-crypto): writes the 24-byte
/// digest of the password under the salt at cost 10, a deterministic
/// function of salt and password; it demands a 16-byte salt and a password
/// of 1 to 72 bytes.
#[verifier::external_body]
fn bcrypt_digest(salt: &[u8], password: &[u8]) -> (r: Vec<u8>)
    requires
        salt@.len() == 16,
        1 <= password@.len() <= 72,
    ensures
        r@ == bcrypt10_of(salt@, password@),
        r@.len() == 24,
{
    let mut out = [0u8; 24];
    crypto::bcrypt::bcrypt(10, salt, password, &mut out);
    out.to_vec()
}

/// Hash a password of 1 to 72 bytes: draw a fresh 16-byte salt and return
/// `salt ++ digest`.  A longer password is the one expected local failure;
/// an empty one is refused by the hashing primitive and rejected here the
/// same way, with an error instead of a crash.
pub fn bcrypt(password: &[u8]) -> (r: Result<Vec<u8>, String>)
    ensures
        r is Ok <==> 1 <= password@.len() <= 72,
        r is Ok ==> (exists|salt: Seq<u8>|
            salt.len() == 16 && r.unwrap()@ == salt + bcrypt10_of(salt, password@)),
        r is Ok ==> r.unwrap()@.len() == 40,
        password@.len() > 72 ==> r is Err && r.unwrap_err()@ == "Password is too long"@,
        password@.len() == 0 ==> r is Err && r.unwrap_err()@ == "Password is empty"@,
{
    if password.len() > 72 {
        return Err(String::from_str("Password is too long"));
    }
    if password.len() == 0 {
        return Err(String::from_str("Password is empty"));
    }
    let mut out = random_salt();
    let ghost salt_view: Seq<u8> = out@;
    let mut digest = bcrypt_digest(out.as_slice(), password);
    out.append(&mut digest);
    proof {
        assert(salt_view.len() == 16 && out@ == salt_view + bcrypt10_of(salt_view, password@));
    }
    Ok(out)
}

/// Hash `password` and wrap the result in the stored envelope
/// `$2$10$<base64>`.  The envelope of any successful result holds exactly
/// three delimiters; an empty or over-long password is a validation error.
pub fn make_credential(password: &str) -> (r: Result<String, CustomError>)
    ensures
        r is Ok <==> password_ok(password@),
        r is Ok ==> (exists|salt: Seq<u8>|
            salt.len() == 16 && r.unwrap()@ == credential_of(salt, password@)),
        r is Ok ==> count_char(r.unwrap()@, '$') == 3,
        r is Err ==> r.unwrap_err().error_status_code == 400,
        vstd::utf8::encode_utf8(password@).len() > 72 ==> r is Err
            && r.unwrap_err().error_message@ == "Password is too long"@,
        password@.len() == 0 ==> r is Err && r.unwrap_err().error_message@ == "Password is empty"@,
{
    let pb = password.as_bytes();
    proof {
        crate::text::lemma_encode_utf8_empty(password@);
    }
    match bcrypt(pb) {
        Err(m) => Err(CustomError::new(400, m)),
        Ok(bytes) => {
            let encoded = b64_encode(bytes.as_slice());
            let cred = String::from_str("$2$10$").concat(encoded.as_str());
            proof {
                reveal_strlit("$2$10$");
                assert("$2$10$"@ =~= envelope_prefix());
                let salt = choose|salt: Seq<u8>|
                    salt.len() == 16 && bytes@ == salt + bcrypt10_of(salt, pb@);
                assert(cred@ == credential_of(salt, password@));
                lemma_envelope_prefix_count();
                lemma_count_char_zero(encoded@, '$');
                lemma_count_char_concat(envelope_prefix(), encoded@, '$');
            }
            Ok(cred)
        },
    }
}

} // verus!
