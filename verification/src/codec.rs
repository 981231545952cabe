//! The symmetric token cipher and the byte/text encodings around it.
//!
//! Encryption, base64 and UTF-8 conversion are performed by outside code;
//! each call sits behind a single trusted item whose contract names or
//! states its result.  The public `symmetric_encrypt` and `symmetric_decrypt`
//! add the verified key- and IV-length checks in front of the cipher.

use vstd::prelude::*;

use crypto::buffer::{BufferResult, ReadBuffer, WriteBuffer};

verus! {

/// The AES-256-CBC encryption (PKCS padding) of `data` under `key` and `iv`.
pub uninterp spec fn aes256_cbc_enc(data: Seq<u8>, key: Seq<u8>, iv: Seq<u8>) -> Seq<u8>;

/// The raw AES-256-CBC decryption of whole blocks of `data` under `key` and
/// `iv`, with no padding removed.
pub uninterp spec fn aes256_cbc_dec_raw(data: Seq<u8>, key: Seq<u8>, iv: Seq<u8>) -> Seq<u8>;

/// A well-padded plaintext: PKCS block padding ends in a byte `v` between 1
/// and 16, and the last `v` bytes all equal `v`.  A zero final byte, or one
/// above the block size, is not padding.
pub open spec fn pkcs_ok(plain: Seq<u8>) -> bool {
    &&& plain.len() >= 1
    &&& 1 <= plain.last() as int <= 16
    &&& plain.last() as int <= plain.len()
    &&& forall|j: int|
        plain.len() - plain.last() as int <= j < plain.len() ==> plain[j] == plain.last()
}

/// The plaintext with its PKCS padding removed.
pub open spec fn pkcs_strip(plain: Seq<u8>) -> Seq<u8> {
    plain.take(plain.len() - plain.last() as int)
}

/// The AES-256-CBC decryption of `data` under `key` and `iv` with the PKCS
/// padding checked and stripped: `None` when `data` is not whole blocks or
/// the raw plaintext does not end in padding.  The empty ciphertext is what
/// the empty message encrypts to, and decrypts back to it.
pub open spec fn aes256_cbc_dec(data: Seq<u8>, key: Seq<u8>, iv: Seq<u8>) -> Option<Seq<u8>> {
    if data.len() == 0 {
        Some(Seq::<u8>::empty())
    } else if data.len() % 16 == 0 {
        let raw = aes256_cbc_dec_raw(data, key, iv);
        if pkcs_ok(raw) {
            Some(pkcs_strip(raw))
        } else {
            None
        }
    } else {
        None
    }
}

/// The standard base64 encoding (with `=` padding) of `data`.
pub uninterp spec fn b64_enc(data: Seq<u8>) -> Seq<char>;

/// The bytes that `text` is the base64 encoding of, or `None` when `text` is
/// not well-formed base64.
pub uninterp spec fn b64_dec(text: Seq<char>) -> Option<Seq<u8>>;

/// A failure of the symmetric cipher, mirroring the two ways a call can go
/// wrong: operands of the wrong size, or a ciphertext whose padding does not
/// check out.
#[derive(Clone, Copy, Debug, PartialEq, Eq, Structural)]
pub enum CryptoError {
    InvalidLength,
    InvalidPadding,
}

/// Relies on crypto::aes::cbc_encryptor and Encryptor::encrypt (crate
/// rust-crypto): with a 32-byte key and a 16-byte IV the CBC engine pads with
/// PKCS, never fails, and its output decrypts back to the input under the
/// same key and IV.  A non-empty input grows to the next whole block; the
/// empty input yields the empty ciphertext (the engine finishes before it
/// pads).
#[verifier::external_body]
fn aes_encrypt_raw(data: &[u8], key: &[u8], iv: &[u8]) -> (r: Option<Vec<u8>>)
    requires
        key@.len() == 32,
        iv@.len() == 16,
    ensures
        r is Some,
        r.unwrap()@ == aes256_cbc_enc(data@, key@, iv@),
        aes256_cbc_dec(r.unwrap()@, key@, iv@) == Some(data@),
        data@.len() == 0 ==> r.unwrap()@.len() == 0,
        data@.len() > 0 ==> r.unwrap()@.len() == ((data@.len() / 16) + 1) * 16,
{
    let size = crypto::aes::KeySize::KeySize256;
    let mut enc = crypto::aes::cbc_encryptor(size, key, iv, crypto::blockmodes::PkcsPadding);
    let mut out = Vec::new();
    let mut rb = crypto::buffer::RefReadBuffer::new(data);
    let mut buf = [0u8; 4096];
    let mut wb = crypto::buffer::RefWriteBuffer::new(&mut buf);
    loop {
        let status = enc.encrypt(&mut rb, &mut wb, true).ok()?;
        out.extend(wb.take_read_buffer().take_remaining().iter().cloned());
        if let BufferResult::BufferUnderflow = status {
            return Some(out);
        }
    }
}

/// Relies on crypto::aes::cbc_decryptor and Decryptor::decrypt (crate
/// rust-crypto), with no padding mode so that no input can reach the
/// crate's padding stripper: the call succeeds exactly on whole blocks and
/// returns the raw CBC plaintext, of the same length.  The padding check
/// itself is verified code in this module.
#[verifier::external_body]
fn aes_decrypt_blocks(data: &[u8], key: &[u8], iv: &[u8]) -> (r: Option<Vec<u8>>)
    requires
        key@.len() == 32,
        iv@.len() == 16,
    ensures
        r is Some <==> data@.len() % 16 == 0,
        r is Some ==> r.unwrap()@ == aes256_cbc_dec_raw(data@, key@, iv@),
        r is Some ==> r.unwrap()@.len() == data@.len(),
{
    let size = crypto::aes::KeySize::KeySize256;
    let mut dec = crypto::aes::cbc_decryptor(size, key, iv, crypto::blockmodes::NoPadding);
    let mut out = Vec::new();
    let mut rb = crypto::buffer::RefReadBuffer::new(data);
    let mut buf = [0u8; 4096];
    let mut wb = crypto::buffer::RefWriteBuffer::new(&mut buf);
    loop {
        let status = dec.decrypt(&mut rb, &mut wb, true).ok()?;
        out.extend(wb.take_read_buffer().take_remaining().iter().cloned());
        if let BufferResult::BufferUnderflow = status {
            return Some(out);
        }
    }
}

/// Relies on base64::encode (crate base64): standard alphabet with `=`
/// padding, so the result never holds `$` and base64::decode inverts it.
#[verifier::external_body]
pub(crate) fn b64_encode(data: &[u8]) -> (r: String)
    ensures
        r@ == b64_enc(data@),
        b64_dec(r@) == Some(data@),
        forall|i: int| 0 <= i < r@.len() ==> r@[i] != '$',
{
    base64::encode(data)
}

/// Relies on base64::decode (crate base64): succeeds exactly on well-formed
/// base64 and returns the encoded bytes.
#[verifier::external_body]
pub(crate) fn b64_decode(text: &str) -> (r: Option<Vec<u8>>)
    ensures
        r is Some <==> b64_dec(text@) is Some,
        r is Some ==> r.unwrap()@ == b64_dec(text@).unwrap(),
{
    base64::decode(text).ok()
}

/// Relies on String::from_utf8 (std): succeeds exactly on valid UTF-8 and
/// carries the bytes over unchanged.
#[verifier::external_body]
pub(crate) fn utf8_to_string(bytes: Vec<u8>) -> (r: Option<String>)
    ensures
        r is Some <==> vstd::utf8::valid_utf8(bytes@),
        r is Some ==> vstd::utf8::encode_utf8(r.unwrap()@) == bytes@,
{
    String::from_utf8(bytes).ok()
}

/// Check and remove PKCS block padding: the final byte `v` must lie in
/// 1..=16 and the last `v` bytes must all equal `v`; anything else — the
/// zero byte included — is rejected.
fn strip_pkcs_padding(plain: Vec<u8>) -> (r: Option<Vec<u8>>)
    ensures
        r is Some <==> pkcs_ok(plain@),
        r is Some ==> r.unwrap()@ == pkcs_strip(plain@),
{
    let n = plain.len();
    if n == 0 {
        return None;
    }
    let pad = plain[n - 1];
    if pad < 1 || pad > 16 || (pad as usize) > n {
        return None;
    }
    let start = n - (pad as usize);
    let mut i = start;
    while i < n
        invariant
            start <= i <= n,
            n == plain@.len(),
            n >= 1,
            pad == plain@.last(),
            1 <= pad <= 16,
            start == n - pad,
            forall|j: int| start <= j < i ==> plain@[j] == pad,
        decreases n - i,
    {
        if plain[i] != pad {
            return None;
        }
        i = i + 1;
    }
    let ghost original: Seq<u8> = plain@;
    let mut out = plain;
    out.truncate(start);
    proof {
        assert(out@ =~= pkcs_strip(original));
    }
    Some(out)
}

/// Encrypt `data` under a 256-bit key and a 16-byte IV; any other operand
/// sizes are rejected up front.  A successful result is the AES-256-CBC
/// ciphertext of `data`, and decrypting it under the same key and IV gives
/// `data` back.
pub fn symmetric_encrypt(data: &[u8], key: &[u8], iv: &[u8]) -> (r: Result<Vec<u8>, CryptoError>)
    ensures
        r is Ok <==> (key@.len() == 32 && iv@.len() == 16),
        r is Ok ==> r.unwrap()@ == aes256_cbc_enc(data@, key@, iv@),
        r is Ok ==> aes256_cbc_dec(r.unwrap()@, key@, iv@) == Some(data@),
        r is Err ==> r.unwrap_err() == CryptoError::InvalidLength,
{
    if key.len() != 32 || iv.len() != 16 {
        return Err(CryptoError::InvalidLength);
    }
    match aes_encrypt_raw(data, key, iv) {
        Some(out) => Ok(out),
        None => {
            assert(false);
            Err(CryptoError::InvalidPadding)
        },
    }
}

/// Decrypt `data` under a 256-bit key and a 16-byte IV.  Succeeds exactly
/// when the sizes are right and `data` is whole blocks whose raw plaintext
/// ends in valid padding; a truncated, corrupted or wrongly padded input is
/// a routine error, never a panic, and the error names what went wrong.
pub fn symmetric_decrypt(data: &[u8], key: &[u8], iv: &[u8]) -> (r: Result<Vec<u8>, CryptoError>)
    ensures
        r is Ok <==> (key@.len() == 32 && iv@.len() == 16 && aes256_cbc_dec(data@, key@, iv@)
            is Some),
        r is Ok ==> r.unwrap()@ == aes256_cbc_dec(data@, key@, iv@).unwrap(),
        r is Err ==> r.unwrap_err() == (if key@.len() != 32 || iv@.len() != 16 || data@.len() % 16
            != 0 {
            CryptoError::InvalidLength
        } else {
            CryptoError::InvalidPadding
        }),
{
    if key.len() != 32 || iv.len() != 16 {
        return Err(CryptoError::InvalidLength);
    }
    if data.len() == 0 {
        return Ok(Vec::new());
    }
    let raw = match aes_decrypt_blocks(data, key, iv) {
        Some(v) => v,
        None => {
            return Err(CryptoError::InvalidLength);
        },
    };
    match strip_pkcs_padding(raw) {
        Some(plain) => Ok(plain),
        None => Err(CryptoError::InvalidPadding),
    }
}

} // verus!
