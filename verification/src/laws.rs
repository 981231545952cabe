//! The relations between issuance, rotation and resolution, proved once and
//! for all over the specification functions that the executable contracts
//! speak in.
//!
//! The cipher and base64 round trips themselves are stated on the trusted
//! items in `codec`; these lemmas take those round-trip facts as hypotheses
//! (a caller obtains them from the issuing call) and prove everything that
//! follows from the verified parsing and lookup logic.

use vstd::prelude::*;

use crate::codec::{aes256_cbc_dec, b64_dec};
use crate::config::AuthConfig;
use crate::text::{
    count_char, lemma_join_split_char, lemma_split_char_concat, lemma_split_char_len, split_char,
};
use crate::users::{lookup, parse_and_lookup, resolve_spec, seed_chars, User};

verus! {

/// The first record that matches both fields is what lookup returns.
pub proof fn lemma_lookup_at(users: Seq<User>, username: Seq<char>, credential: Seq<char>, at: int)
    requires
        0 <= at < users.len(),
        users[at].username@ == username,
        users[at].token@ == credential,
        forall|j: int|
            0 <= j < at ==> !(users[j].username@ == username && users[j].token@ == credential),
    ensures
        lookup(users, username, credential) == Some(users[at]),
    decreases users.len(),
{
    if at > 0 {
        assert(!(users[0].username@ == username && users[0].token@ == credential));
        assert forall|j: int| 0 <= j < at - 1 implies !(users.drop_first()[j].username@ == username
            && users.drop_first()[j].token@ == credential) by {
            assert(users.drop_first()[j] == users[j + 1]);
        }
        lemma_lookup_at(users.drop_first(), username, credential, at - 1);
    }
}

/// When no record matches both fields, lookup returns nothing.
pub proof fn lemma_lookup_none(users: Seq<User>, username: Seq<char>, credential: Seq<char>)
    requires
        forall|j: int|
            0 <= j < users.len() ==> !(users[j].username@ == username && users[j].token@
                == credential),
    ensures
        lookup(users, username, credential) is None,
    decreases users.len(),
{
    if users.len() > 0 {
        assert forall|j: int| 0 <= j < users.len() - 1 implies !(users.drop_first()[j].username@
            == username && users.drop_first()[j].token@ == credential) by {
            assert(users.drop_first()[j] == users[j + 1]);
        }
        lemma_lookup_none(users.drop_first(), username, credential);
    }
}

/// A plaintext `username$credential` parses back into exactly that pair:
/// with a delimiter-free username and a three-delimiter credential envelope
/// it splits into exactly five segments, the first segment is the username,
/// and the rejoined tail is the credential — one segment more than the
/// credential alone would give.
pub proof fn lemma_seed_parses(users: Seq<User>, username: Seq<char>, credential: Seq<char>)
    requires
        count_char(username, '$') == 0,
        count_char(credential, '$') == 3,
    ensures
        parse_and_lookup(users, seed_chars(username, credential)) == lookup(
            users,
            username,
            credential,
        ),
{
    let seed = seed_chars(username, credential);
    lemma_split_char_concat(username, credential, '$');
    lemma_split_char_len(credential, '$');
    let parts = split_char(seed, '$');
    assert(parts =~= seq![username] + split_char(credential, '$'));
    assert(parts.len() == 5);
    assert(parts[0] == username);
    assert(parts.drop_first() =~= split_char(credential, '$'));
    lemma_join_split_char(credential, '$');
}

/// Issue-then-resolve: a token whose decoding chain yields the plaintext of
/// a stored user's `username$credential` resolves to exactly that user,
/// provided the username holds no delimiter, the credential is the stored
/// three-delimiter envelope, and no other record carries the username.
pub proof fn lemma_issue_then_resolve(
    users: Seq<User>,
    key: Seq<u8>,
    iv: Seq<u8>,
    token: Seq<char>,
    at: int,
)
    requires
        0 <= at < users.len(),
        count_char(users[at].username@, '$') == 0,
        count_char(users[at].token@, '$') == 3,
        forall|j: int|
            0 <= j < users.len() && j != at ==> users[j].username@ != users[at].username@,
        b64_dec(token) is Some,
        aes256_cbc_dec(b64_dec(token).unwrap(), key, iv) == Some(
            vstd::utf8::encode_utf8(seed_chars(users[at].username@, users[at].token@)),
        ),
    ensures
        resolve_spec(users, key, iv, token) == Some(users[at]),
{
    broadcast use vstd::utf8::encode_utf8_valid_utf8;
    broadcast use vstd::utf8::encode_utf8_decode_utf8;

    let username = users[at].username@;
    let credential = users[at].token@;
    let seed = seed_chars(username, credential);
    assert(vstd::utf8::decode_utf8(vstd::utf8::encode_utf8(seed)) == seed);
    lemma_seed_parses(users, username, credential);
    lemma_lookup_at(users, username, credential, at);
}

/// Rotation invalidates old tokens: once no record pairs `username` with
/// `credential` — as after the sole record carrying that username had its
/// credential rotated away — a token whose decoding chain yields that pair
/// no longer resolves.
pub proof fn lemma_rotation_invalidates(
    users: Seq<User>,
    key: Seq<u8>,
    iv: Seq<u8>,
    token: Seq<char>,
    username: Seq<char>,
    credential: Seq<char>,
)
    requires
        count_char(username, '$') == 0,
        count_char(credential, '$') == 3,
        forall|j: int|
            0 <= j < users.len() ==> !(users[j].username@ == username && users[j].token@
                == credential),
        b64_dec(token) is Some,
        aes256_cbc_dec(b64_dec(token).unwrap(), key, iv) == Some(
            vstd::utf8::encode_utf8(seed_chars(username, credential)),
        ),
    ensures
        resolve_spec(users, key, iv, token) is None,
{
    broadcast use vstd::utf8::encode_utf8_valid_utf8;
    broadcast use vstd::utf8::encode_utf8_decode_utf8;

    let seed = seed_chars(username, credential);
    assert(vstd::utf8::decode_utf8(vstd::utf8::encode_utf8(seed)) == seed);
    lemma_seed_parses(users, username, credential);
    lemma_lookup_none(users, username, credential);
}

/// Statelessness: resolution is a function of the secret bytes, the stored
/// records and the token alone, so two process instances configured with
/// the same shared secret and reading the same record store agree on every
/// token, whichever instance issued it.
pub proof fn lemma_stateless(
    users: Seq<User>,
    first: AuthConfig,
    second: AuthConfig,
    token: Seq<char>,
)
    requires
        first.secret_spec() == second.secret_spec(),
    ensures
        resolve_spec(users, first.key_spec(), first.iv_spec(), token) == resolve_spec(
            users,
            second.key_spec(),
            second.iv_spec(),
            token,
        ),
{
}

} // verus!
