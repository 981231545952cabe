//! The process-wide shared secret.
//!
//! The secret is a byte string of at least 48 bytes supplied once at startup;
//! its first 32 bytes are the cipher key and the next 16 the initialization
//! vector.  It is immutable for the life of the process, so every component
//! holds it by shared reference and token issuance stays stateless.

use vstd::prelude::*;

use crate::error_handler::CustomError;

verus! {

/// The validated shared secret, split on demand into key and IV.
pub struct AuthConfig {
    secret: Vec<u8>,
}

impl AuthConfig {
    /// The raw secret bytes.
    pub closed spec fn secret_spec(&self) -> Seq<u8> {
        self.secret@
    }

    /// A usable secret holds at least key and IV material.
    pub open spec fn wf(&self) -> bool {
        self.secret_spec().len() >= 48
    }

    /// The 32-byte cipher key: the first 32 bytes of the secret.
    pub open spec fn key_spec(&self) -> Seq<u8> {
        self.secret_spec().subrange(0, 32)
    }

    /// The 16-byte initialization vector: the next 16 bytes of the secret.
    pub open spec fn iv_spec(&self) -> Seq<u8> {
        self.secret_spec().subrange(32, 48)
    }

    /// Accept a secret of at least 48 bytes; anything shorter is a fatal
    /// configuration error and the process must not start.
    pub fn new(secret: Vec<u8>) -> (r: Result<AuthConfig, CustomError>)
        ensures
            r is Ok <==> secret@.len() >= 48,
            r is Ok ==> r.unwrap().secret_spec() == secret@ && r.unwrap().wf(),
            r is Err ==> r->Err_0.error_status_code == 500,
    {
        if secret.len() < 48 {
            return Err(CustomError::internal());
        }
        Ok(AuthConfig { secret })
    }

    /// The cipher key as bytes.
    pub fn key(&self) -> (k: &[u8])
        requires
            self.wf(),
        ensures
            k@ == self.key_spec(),
    {
        vstd::slice::slice_subrange(self.secret.as_slice(), 0, 32)
    }

    /// The initialization vector as bytes.
    pub fn iv(&self) -> (k: &[u8])
        requires
            self.wf(),
        ensures
            k@ == self.iv_spec(),
    {
        vstd::slice::slice_subrange(self.secret.as_slice(), 32, 48)
    }
}

} // verus!
