//! User records, the user directory, and token issuance and resolution.
//!
//! The directory owns the persisted user records.  `create` and `update`
//! derive a fresh credential from the password; `find_by_token` resolves an
//! external bearer token back to a record by decoding, decrypting and
//! splitting it, then looking the candidate pair up.  Every failure on the
//! resolution path collapses into the same `401` so that callers cannot
//! tell why a token was refused.

use vstd::prelude::*;

use crate::codec::{
    aes256_cbc_dec, aes256_cbc_enc, b64_dec, b64_decode, b64_enc, b64_encode, symmetric_encrypt,
    utf8_to_string,
};
use crate::config::AuthConfig;
use crate::error_handler::CustomError;
use crate::hashing::{credential_of, make_credential, password_ok};
use crate::text::{
    count_char, count_char_str, find_char, find_char_str, join_char, lemma_encode_utf8_concat,
    lemma_encode_utf8_dollar, lemma_find_char_props, lemma_split_char_at_first,
    lemma_split_char_len, split_char, str_eq,
};

verus! {

/// A persisted user record.  The `token` field is the stored credential
/// envelope (the column kept its historical name); it is not the external
/// bearer token.
#[derive(Debug)]
pub struct User {
    pub id: i64,
    pub username: String,
    pub token: String,
    pub created_at: i64,
    pub updated_at: i64,
}

/// A creation or rotation request: a username and a plaintext password.
#[derive(Debug)]
pub struct MaybeUser {
    pub username: String,
    pub password: String,
}

/// The value returned to API callers: the external bearer token.
#[derive(Debug)]
pub struct AuthUser {
    pub token: String,
}

/// The token plaintext for a user: `username$credential`.
pub open spec fn seed_chars(username: Seq<char>, credential: Seq<char>) -> Seq<char> {
    username + seq!['$'] + credential
}

/// The external token issued for `(username, credential)` under `key`/`iv`:
/// base64 of the encrypted UTF-8 plaintext.
pub open spec fn token_of(key: Seq<u8>, iv: Seq<u8>, username: Seq<char>, credential: Seq<char>) -> Seq<
    char,
> {
    b64_enc(aes256_cbc_enc(vstd::utf8::encode_utf8(seed_chars(username, credential)), key, iv))
}

/// The first record matching both username and credential exactly.
pub open spec fn lookup(users: Seq<User>, username: Seq<char>, credential: Seq<char>) -> Option<
    User,
>
    decreases users.len(),
{
    if users.len() == 0 {
        None
    } else if users[0].username@ == username && users[0].token@ == credential {
        Some(users[0])
    } else {
        lookup(users.drop_first(), username, credential)
    }
}

/// Split a decrypted plaintext on the delimiter and look the candidate pair
/// up.  The plaintext must split into exactly five segments: one username
/// segment plus the four that the credential envelope contributes.  The
/// candidate credential is every segment after the first, joined back with
/// the delimiter.
pub open spec fn parse_and_lookup(users: Seq<User>, plain: Seq<char>) -> Option<User> {
    let parts = split_char(plain, '$');
    if parts.len() == 5 {
        lookup(users, parts[0], join_char(parts.drop_first(), '$'))
    } else {
        None
    }
}

/// What resolving a token returns: base64-decode, decrypt, UTF-8-decode,
/// parse and look up — `None` as soon as any step refuses.
pub open spec fn resolve_spec(users: Seq<User>, key: Seq<u8>, iv: Seq<u8>, token: Seq<char>) -> Option<
    User,
> {
    match b64_dec(token) {
        Some(ciphertext) => match aes256_cbc_dec(ciphertext, key, iv) {
            Some(plain_bytes) => if vstd::utf8::valid_utf8(plain_bytes) {
                parse_and_lookup(users, vstd::utf8::decode_utf8(plain_bytes))
            } else {
                None
            },
            None => None,
        },
        None => None,
    }
}

/// Some record carries this username.
pub open spec fn has_username(users: Seq<User>, username: Seq<char>) -> bool {
    exists|i: int| 0 <= i < users.len() && users[i].username@ == username
}

/// Some record carries this id.
pub open spec fn has_id(users: Seq<User>, id: i64) -> bool {
    exists|i: int| 0 <= i < users.len() && users[i].id == id
}

/// The position of the record with this id (meaningful when `has_id`).
pub open spec fn index_of_id(users: Seq<User>, id: i64) -> int {
    choose|i: int| 0 <= i < users.len() && users[i].id == id
}

/// A record other than `id` carries this username.
pub open spec fn username_taken_by_other(users: Seq<User>, id: i64, username: Seq<char>) -> bool {
    exists|i: int| 0 <= i < users.len() && users[i].id != id && users[i].username@ == username
}

impl User {
    /// A field-for-field copy.
    pub fn duplicate(&self) -> (r: User)
        ensures
            r == *self,
    {
        User {
            id: self.id,
            username: self.username.clone(),
            token: self.token.clone(),
            created_at: self.created_at,
            updated_at: self.updated_at,
        }
    }

    /// Serialize this record for an API caller: encrypt
    /// `username$credential` under the shared secret and base64-encode the
    /// ciphertext.  The result decodes and decrypts back to exactly that
    /// plaintext, which is what makes a freshly issued token resolvable.
    pub fn to_auth_user(&self, config: &AuthConfig) -> (r: Result<AuthUser, CustomError>)
        requires
            config.wf(),
        ensures
            r is Ok,
            r.unwrap().token@ == token_of(
                config.key_spec(),
                config.iv_spec(),
                self.username@,
                self.token@,
            ),
            b64_dec(r.unwrap().token@) == Some(
                aes256_cbc_enc(
                    vstd::utf8::encode_utf8(seed_chars(self.username@, self.token@)),
                    config.key_spec(),
                    config.iv_spec(),
                ),
            ),
            aes256_cbc_dec(
                aes256_cbc_enc(
                    vstd::utf8::encode_utf8(seed_chars(self.username@, self.token@)),
                    config.key_spec(),
                    config.iv_spec(),
                ),
                config.key_spec(),
                config.iv_spec(),
            ) == Some(vstd::utf8::encode_utf8(seed_chars(self.username@, self.token@))),
    {
        let mut seed: Vec<u8> = self.username.as_str().as_bytes_vec();
        seed.push(0x24u8);
        let mut credential_bytes: Vec<u8> = self.token.as_str().as_bytes_vec();
        seed.append(&mut credential_bytes);
        proof {
            lemma_encode_utf8_concat(self.username@ + seq!['$'], self.token@);
            lemma_encode_utf8_concat(self.username@, seq!['$']);
            lemma_encode_utf8_dollar();
            assert(seed_chars(self.username@, self.token@) =~= (self.username@ + seq!['$'])
                + self.token@);
            assert(seed@ =~= vstd::utf8::encode_utf8(seed_chars(self.username@, self.token@)));
        }
        let ciphertext = match symmetric_encrypt(seed.as_slice(), config.key(), config.iv()) {
            Ok(v) => v,
            Err(_) => {
                assert(false);
                return Err(CustomError::internal());
            },
        };
        let token = b64_encode(ciphertext.as_slice());
        Ok(AuthUser { token })
    }
}

/// The user directory: the record store of the authentication core, keyed by
/// a store-assigned id, with usernames unique.
pub struct UserDirectory {
    users: Vec<User>,
    next_id: i64,
}

impl View for UserDirectory {
    type V = Seq<User>;

    closed spec fn view(&self) -> Seq<User> {
        self.users@
    }
}

impl UserDirectory {
    /// The next id the store will assign.
    pub closed spec fn next_id_spec(&self) -> int {
        self.next_id as int
    }

    /// Well-formedness: ids are unique, below the next free id and at least
    /// 1; usernames are unique; every stored credential is a three-delimiter
    /// envelope.
    pub open spec fn wf(&self) -> bool {
        &&& 1 <= self.next_id_spec() <= i64::MAX
        &&& forall|i: int|
            0 <= i < self@.len() ==> 1 <= #[trigger] self@[i].id < self.next_id_spec()
        &&& forall|i: int, j: int| 0 <= i < j < self@.len() ==> self@[i].id != self@[j].id
        &&& forall|i: int, j: int|
            0 <= i < j < self@.len() ==> self@[i].username@ != self@[j].username@
        &&& forall|i: int| 0 <= i < self@.len() ==> count_char(#[trigger] self@[i].token@, '$') == 3
    }

    /// An empty directory.
    pub fn new() -> (r: UserDirectory)
        ensures
            r.wf(),
            r@.len() == 0,
            r.next_id_spec() == 1,
    {
        UserDirectory { users: Vec::new(), next_id: 1 }
    }

    /// How many records the directory holds.
    pub fn count(&self) -> (n: usize)
        ensures
            n == self@.len(),
    {
        self.users.len()
    }

    /// Whether some record carries `username`.
    fn contains_username(&self, username: &str) -> (r: bool)
        ensures
            r == has_username(self@, username@),
    {
        let n = self.users.len();
        let mut i: usize = 0;
        while i < n
            invariant
                0 <= i <= n,
                n == self@.len(),
                forall|j: int| 0 <= j < i ==> self@[j].username@ != username@,
            decreases n - i,
        {
            if str_eq(self.users[i].username.as_str(), username) {
                return true;
            }
            i = i + 1;
        }
        false
    }

    /// The position of the record with `id`, if any.
    fn find_index_by_id(&self, id: i64) -> (r: Option<usize>)
        ensures
            match r {
                Some(i) => i < self@.len() && self@[i as int].id == id,
                None => !has_id(self@, id),
            },
    {
        let n = self.users.len();
        let mut i: usize = 0;
        while i < n
            invariant
                0 <= i <= n,
                n == self@.len(),
                forall|j: int| 0 <= j < i ==> self@[j].id != id,
            decreases n - i,
        {
            if self.users[i].id == id {
                return Some(i);
            }
            i = i + 1;
        }
        None
    }

    /// Create a user: hash the password, persist a new record under a fresh
    /// id, and return a copy of it.  Fails with `400` when the password is
    /// empty or exceeds 72 bytes, `409` when the username is taken, and
    /// `500` in the one unreachable-in-practice case that the id space is
    /// exhausted.
    pub fn create(&mut self, user: MaybeUser, now: i64) -> (r: Result<User, CustomError>)
        requires
            old(self).wf(),
        ensures
            final(self).wf(),
            r is Ok <==> (password_ok(user.password@) && !has_username(
                old(self)@,
                user.username@,
            ) && old(self).next_id_spec() < i64::MAX),
            r is Ok ==> ({
                let u = r.unwrap();
                &&& u.id == old(self).next_id_spec()
                &&& u.username@ == user.username@
                &&& (exists|salt: Seq<u8>|
                    salt.len() == 16 && u.token@ == credential_of(salt, user.password@))
                &&& count_char(u.token@, '$') == 3
                &&& u.created_at == now
                &&& u.updated_at == now
                &&& final(self)@ == old(self)@.push(u)
                &&& final(self).next_id_spec() == old(self).next_id_spec() + 1
            }),
            r is Err ==> final(self)@ == old(self)@ && final(self).next_id_spec() == old(
                self,
            ).next_id_spec(),
            r is Err ==> r->Err_0.error_status_code == (if !password_ok(user.password@) {
                400u16
            } else if has_username(old(self)@, user.username@) {
                409u16
            } else {
                500u16
            }),
    {
        let credential = match make_credential(user.password.as_str()) {
            Ok(c) => c,
            Err(e) => {
                return Err(e);
            },
        };
        if self.contains_username(user.username.as_str()) {
            return Err(CustomError::conflict());
        }
        if self.next_id == i64::MAX {
            return Err(CustomError::internal());
        }
        let record = User {
            id: self.next_id,
            username: user.username,
            token: credential,
            created_at: now,
            updated_at: now,
        };
        let result = record.duplicate();
        self.users.push(record);
        self.next_id = self.next_id + 1;
        Ok(result)
    }

    /// Rotate a credential: hash the new password and overwrite the record's
    /// username and credential in place.  This is the sole mechanism that
    /// invalidates previously issued tokens.  Fails with `400` on an empty
    /// or over-long password, `404` when no record carries `id`, and `409`
    /// when another record already carries the username.
    pub fn update(&mut self, id: i64, user: MaybeUser, now: i64) -> (r: Result<User, CustomError>)
        requires
            old(self).wf(),
        ensures
            final(self).wf(),
            r is Ok <==> (password_ok(user.password@) && has_id(
                old(self)@,
                id,
            ) && !username_taken_by_other(old(self)@, id, user.username@)),
            r is Ok ==> ({
                let at = index_of_id(old(self)@, id);
                let u = r.unwrap();
                &&& 0 <= at < old(self)@.len()
                &&& old(self)@[at].id == id
                &&& u.id == id
                &&& u.username@ == user.username@
                &&& (exists|salt: Seq<u8>|
                    salt.len() == 16 && u.token@ == credential_of(salt, user.password@))
                &&& count_char(u.token@, '$') == 3
                &&& u.created_at == old(self)@[at].created_at
                &&& u.updated_at == now
                &&& final(self)@ == old(self)@.update(at, u)
                &&& final(self).next_id_spec() == old(self).next_id_spec()
            }),
            r is Err ==> final(self)@ == old(self)@ && final(self).next_id_spec() == old(
                self,
            ).next_id_spec(),
            r is Err ==> r->Err_0.error_status_code == (if !password_ok(user.password@) {
                400u16
            } else if !has_id(old(self)@, id) {
                404u16
            } else {
                409u16
            }),
    {
        let credential = match make_credential(user.password.as_str()) {
            Ok(c) => c,
            Err(e) => {
                return Err(e);
            },
        };
        let at = match self.find_index_by_id(id) {
            Some(i) => i,
            None => {
                return Err(CustomError::not_found());
            },
        };
        if self.username_conflicts(at, user.username.as_str()) {
            return Err(CustomError::conflict());
        }
        let created_at = self.users[at].created_at;
        let record = User { id, username: user.username, token: credential, created_at, updated_at: now };
        let result = record.duplicate();
        proof {
            let chosen = index_of_id(self@, id);
            assert(0 <= chosen < self@.len() && self@[chosen].id == id);
            if chosen != at {
                assert(self@[chosen].id != self@[at as int].id);
            }
        }
        self.users[at] = record;
        Ok(result)
    }

    /// Whether a record at a position other than `at` carries `username`.
    fn username_conflicts(&self, at: usize, username: &str) -> (r: bool)
        requires
            at < self@.len(),
            forall|j: int| 0 <= j < self@.len() && j != at ==> self@[j].id != self@[at as int].id,
        ensures
            r == username_taken_by_other(self@, self@[at as int].id, username@),
    {
        let n = self.users.len();
        let id = self.users[at].id;
        let mut i: usize = 0;
        while i < n
            invariant
                0 <= i <= n,
                n == self@.len(),
                at < self@.len(),
                id == self@[at as int].id,
                forall|j: int|
                    0 <= j < i ==> !(self@[j].id != id && #[trigger] self@[j].username@
                        == username@),
            decreases n - i,
        {
            if self.users[i].id != id && str_eq(self.users[i].username.as_str(), username) {
                return true;
            }
            i = i + 1;
        }
        false
    }

    /// Remove the record with `id`, reporting how many records went away:
    /// one when it existed, zero when it did not.
    pub fn delete(&mut self, id: i64) -> (r: Result<usize, CustomError>)
        requires
            old(self).wf(),
        ensures
            final(self).wf(),
            r is Ok,
            has_id(old(self)@, id) ==> r.unwrap() == 1 && final(self)@ == old(self)@.remove(
                index_of_id(old(self)@, id),
            ),
            !has_id(old(self)@, id) ==> r.unwrap() == 0 && final(self)@ == old(self)@,
            final(self).next_id_spec() == old(self).next_id_spec(),
    {
        match self.find_index_by_id(id) {
            Some(at) => {
                proof {
                    let chosen = index_of_id(self@, id);
                    assert(0 <= chosen < self@.len() && self@[chosen].id == id);
                    if chosen != at {
                        assert(self@[chosen].id != self@[at as int].id);
                    }
                }
                self.users.remove(at);
                Ok(1)
            },
            None => Ok(0),
        }
    }

    /// Resolve an external bearer token to the user it was issued for.
    /// Exactly the chain of the specification runs: base64-decode, decrypt
    /// under the shared secret, decode as UTF-8, demand exactly five
    /// delimiter-separated segments, and look up the pair formed by the
    /// first segment and the rejoined rest.  Every failure is the same
    /// `401`; no input panics.
    pub fn find_by_token(&self, config: &AuthConfig, token: String) -> (r: Result<
        User,
        CustomError,
    >)
        requires
            config.wf(),
        ensures
            match resolve_spec(self@, config.key_spec(), config.iv_spec(), token@) {
                Some(u) => r is Ok && r.unwrap() == u,
                None => r is Err && r->Err_0.error_status_code == 401
                    && r->Err_0.error_message@ == "Unauthorized"@,
            },
    {
        broadcast use vstd::utf8::decode_utf8_encode_utf8;
        broadcast use vstd::utf8::encode_utf8_decode_utf8;

        let ciphertext = match b64_decode(token.as_str()) {
            Some(v) => v,
            None => {
                return Err(CustomError::unauthorized());
            },
        };
        let plain_bytes = match crate::codec::symmetric_decrypt(
            ciphertext.as_slice(),
            config.key(),
            config.iv(),
        ) {
            Ok(v) => v,
            Err(_) => {
                return Err(CustomError::unauthorized());
            },
        };
        let plain = match utf8_to_string(plain_bytes) {
            Some(s) => s,
            None => {
                return Err(CustomError::unauthorized());
            },
        };
        let ghost plain_view: Seq<char> = plain@;
        proof {
            lemma_split_char_len(plain_view, '$');
        }
        let separators = count_char_str(plain.as_str(), '$');
        if separators != 4 {
            return Err(CustomError::unauthorized());
        }
        let at = find_char_str(plain.as_str(), '$');
        let len = plain.as_str().unicode_len();
        proof {
            lemma_find_char_props(plain_view, '$');
            lemma_split_char_at_first(plain_view, '$');
        }
        let username_part = plain.as_str().substring_char(0, at);
        let credential_part = plain.as_str().substring_char(at + 1, len);
        proof {
            assert(username_part@ =~= plain_view.take(find_char(plain_view, '$')));
            assert(credential_part@ =~= plain_view.skip(find_char(plain_view, '$') + 1));
            assert(self@.skip(0) =~= self@);
            assert(resolve_spec(self@, config.key_spec(), config.iv_spec(), token@) == lookup(
                self@,
                username_part@,
                credential_part@,
            ));
        }
        let n = self.users.len();
        let mut i: usize = 0;
        while i < n
            invariant
                0 <= i <= n,
                n == self@.len(),
                resolve_spec(self@, config.key_spec(), config.iv_spec(), token@) == lookup(
                    self@,
                    username_part@,
                    credential_part@,
                ),
                lookup(self@, username_part@, credential_part@) == lookup(
                    self@.skip(i as int),
                    username_part@,
                    credential_part@,
                ),
            decreases n - i,
        {
            proof {
                assert(self@.skip(i as int)[0] == self@[i as int]);
                assert(self@.skip(i as int).drop_first() =~= self@.skip(i + 1 as int));
            }
            let candidate = &self.users[i];
            if str_eq(candidate.username.as_str(), username_part)
                && str_eq(candidate.token.as_str(), credential_part) {
                return Ok(candidate.duplicate());
            }
            i = i + 1;
        }
        proof {
            assert(self@.skip(n as int) =~= Seq::<User>::empty());
        }
        Err(CustomError::unauthorized())
    }
}

} // verus!
